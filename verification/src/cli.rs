//! The commands of the command line: what they look for, what they write and what they answer.
use vstd::prelude::*;

#[allow(unused_imports)]
use crate::config::laws::leftovers_stand_beside_the_projects;
#[allow(unused_imports)]
use crate::config::project_with;
use crate::config::{LoadedConfig, Project};
#[allow(unused_imports)]
use crate::db::rules::{DatabaseView, Selection};
use crate::db::Database;
use crate::error::{invalid_request, invalid_state, AppError};
#[allow(unused_imports)]
use crate::error::{outcome, AppErrorView};
use crate::model::{CleanDeploymentType, Deployment, ProjectState};
#[allow(unused_imports)]
use crate::model::{read_rows, DeploymentView, ProjectStateView};
#[allow(unused_imports)]
use crate::path::{
    a_root_part_means_absolute, absolute, has_dots, joined_path, name_of, normal_parts_are_plain_names,
    parent_drops_last_part, parent_of, parts, path_debug, plain_name, same_parts, under, Part,
};
use crate::path::{
    contains_dots, debug_path, file_name, is_absolute, join, parent, same_path,
};
#[allow(unused_imports)]
use crate::pattern::project_id_text;
use crate::pattern::is_project_id;
use crate::release::{FileKind, FileOp, Metadata};
#[allow(unused_imports)]
use crate::stamp::{hex_id, utc_millis, uuid_text};
use crate::stamp::new_hex_id;
#[allow(unused_imports)]
use crate::text::{decimal, lower_object_id, str_debug, text_less, trimmed};
#[allow(unused_imports)]
use crate::text::{text_order_is_total, text_order_is_transitive};
use crate::text::{
    cat2, cat3, cat4, debug_text, decimal_text, is_lower_object_id, precedes, text_eq, trim,
};

pub mod choices;
pub mod laws;

verus! {

/// The directory of the configuration where no other was chosen.
pub const DEFAULT_HOME: &'static str = "/etc/aynur-deploy";

/// The configuration file of the default directory.
pub const DEFAULT_CONFIG: &'static str = "/etc/aynur-deploy/config.toml";

/// What is wrong with a project identifier on the command line.
pub open spec fn project_id_flaw(project_id: Seq<char>) -> Option<AppErrorView> {
    if project_id_text(project_id) {
        None
    } else {
        Some(
            AppErrorView::RequestValidation {
                reason: "projectId "@ + str_debug(project_id) + " is invalid"@,
            },
        )
    }
}

/// Checks a project identifier.
pub fn validate_project_id(project_id: &str) -> (result: Result<(), AppError>)
    ensures
        match result {
            Ok(_) => project_id_flaw(project_id@) is None,
            Err(error) => project_id_flaw(project_id@) == Some(error@),
        },
{
    if !is_project_id(project_id) {
        return Err(
            invalid_request(cat3("projectId ", debug_text(project_id).as_str(), " is invalid")),
        );
    }
    Ok(())
}

/// What is wrong with a commit on the command line.
pub open spec fn sha_flaw(value: Seq<char>) -> Option<AppErrorView> {
    if lower_object_id(value) {
        None
    } else {
        Some(
            AppErrorView::RequestValidation {
                reason: "commitSha must be a lowercase 40-character hexadecimal Git commit ID, got "@
                    + str_debug(value),
            },
        )
    }
}

/// Checks a commit.
pub fn validate_cli_sha(value: &str) -> (result: Result<(), AppError>)
    ensures
        match result {
            Ok(_) => sha_flaw(value@) is None,
            Err(error) => sha_flaw(value@) == Some(error@),
        },
{
    if !is_lower_object_id(value) {
        return Err(
            invalid_request(
                cat2(
                    "commitSha must be a lowercase 40-character hexadecimal Git commit ID, got ",
                    debug_text(value).as_str(),
                ),
            ),
        );
    }
    Ok(())
}

/// The directory of the settings of a user, by two variables of the environment.
pub open spec fn config_home(xdg_config_home: Option<Seq<char>>, home: Option<Seq<char>>) -> Result<
    Seq<char>,
    AppErrorView,
> {
    match xdg_config_home {
        Some(directory) if directory.len() > 0 => Ok(joined_path(directory, "aynur-deploy"@)),
        _ => match home {
            Some(home) => Ok(joined_path(home, ".config/aynur-deploy"@)),
            None => Err(
                AppErrorView::Config {
                    path: "$HOME/.config/aynur-deploy"@,
                    reason: "HOME is not set; set XDG_CONFIG_HOME or run `aynur-deploy init --home <path>`"@,
                },
            ),
        },
    }
}

/// The directory of the settings of a user.
pub fn user_config_home(xdg_config_home: &Option<String>, home: &Option<String>) -> (result: Result<
    String,
    AppError,
>)
    ensures
        outcome(result) == config_home(xdg_config_home.deep_view(), home.deep_view()),
{
    match xdg_config_home {
        Some(directory) => {
            if !directory.as_str().is_empty() {
                return Ok(join(directory.as_str(), "aynur-deploy"));
            }
        },
        None => {},
    }
    match home {
        Some(home) => Ok(join(home.as_str(), ".config/aynur-deploy")),
        None => Err(
            AppError::Config {
                path: "$HOME/.config/aynur-deploy".to_owned(),
                reason: "HOME is not set; set XDG_CONFIG_HOME or run `aynur-deploy init --home <path>`".to_owned(),
            },
        ),
    }
}

/// The file that names the directory that was chosen.
pub fn pointer_path(config_home: &str) -> (path: String)
    ensures
        path@ == joined_path(config_home@, "active-home"@),
{
    join(config_home, "active-home")
}

/// The configuration file of a directory.
pub fn config_path(home: &str) -> (path: String)
    ensures
        path@ == joined_path(home@, "config.toml"@),
{
    join(home, "config.toml")
}

/// The directory that the text of a pointer names.
pub fn active_home(text: &str) -> (home: String)
    ensures
        home@ == trimmed(text@),
{
    trim(text)
}

/// What is known of the file that names the directory that was chosen.
#[derive(Debug)]
pub enum Pointer {
    /// It does not exist.
    Absent,
    /// It could not be read.
    Unreadable { source: String },
    /// Its text, and whether the directory that it names holds a configuration file.
    Text { text: String, holds_config: bool },
}

/// Where the configuration file is: in the directory that was chosen, else with the settings of
/// the user, else in the default directory. A directory that was chosen and holds none is
/// reported.
pub open spec fn config_file(
    config_home: Seq<char>,
    pointer: Pointer,
    user_exists: bool,
    default_exists: bool,
) -> Result<Option<Seq<char>>, AppErrorView> {
    match pointer {
        Pointer::Unreadable { source } => Err(
            AppErrorView::FileSystem {
                operation: "read"@,
                path: joined_path(config_home, "active-home"@),
                source: source@,
            },
        ),
        Pointer::Text { text, holds_config } => if holds_config {
            Ok(Some(joined_path(trimmed(text@), "config.toml"@)))
        } else {
            Err(
                AppErrorView::Config {
                    path: joined_path(config_home, "active-home"@),
                    reason: "active home "@ + path_debug(trimmed(text@))
                        + " does not contain config.toml"@,
                },
            )
        },
        Pointer::Absent => if user_exists {
            Ok(Some(joined_path(config_home, "config.toml"@)))
        } else if default_exists {
            Ok(Some(DEFAULT_CONFIG@))
        } else {
            Ok(None)
        },
    }
}

/// Where the configuration file is, given which of the files exist.
pub fn find_config_path(
    config_home: &str,
    pointer: Pointer,
    user_exists: bool,
    default_exists: bool,
) -> (result: Result<Option<String>, AppError>)
    ensures
        outcome(result) == config_file(config_home@, pointer, user_exists, default_exists),
{
    match pointer {
        Pointer::Unreadable { source } => Err(
            AppError::FileSystem { operation: "read", path: pointer_path(config_home), source },
        ),
        Pointer::Text { text, holds_config } => {
            let home = active_home(text.as_str());
            if holds_config {
                Ok(Some(config_path(home.as_str())))
            } else {
                Err(
                    AppError::Config {
                        path: pointer_path(config_home),
                        reason: cat3(
                            "active home ",
                            debug_path(home.as_str()).as_str(),
                            " does not contain config.toml",
                        ),
                    },
                )
            }
        },
        Pointer::Absent => if user_exists {
            Ok(Some(config_path(config_home)))
        } else if default_exists {
            Ok(Some(DEFAULT_CONFIG.to_owned()))
        } else {
            Ok(None)
        },
    }
}

/// The configuration file, which must have been found.
pub fn resolve_config_path(found: Option<String>) -> (result: Result<String, AppError>)
    ensures
        outcome(result) == (match found.deep_view() {
            Some(path) => Ok::<Seq<char>, AppErrorView>(path),
            None => Err(
                AppErrorView::Config {
                    path: DEFAULT_CONFIG@,
                    reason: "configuration is not initialized; run `aynur-deploy init` first"@,
                },
            ),
        }),
{
    match found {
        Some(path) => Ok(path),
        None => Err(
            AppError::Config {
                path: DEFAULT_CONFIG.to_owned(),
                reason: "configuration is not initialized; run `aynur-deploy init` first".to_owned(),
            },
        ),
    }
}

/// The directory that is initialized: the one that is asked for, else that of the configuration
/// that was found, else the default one.
pub open spec fn initial_home(requested: Option<Seq<char>>, found: Option<Seq<char>>) -> Result<
    Seq<char>,
    AppErrorView,
> {
    match requested {
        Some(home) => Ok(home),
        None => match found {
            Some(path) => match parent_of(path) {
                Some(home) => Ok(home),
                None => Err(
                    AppErrorView::InvalidState {
                        reason: "configuration path "@ + path_debug(path) + " has no parent"@,
                    },
                ),
            },
            None => Ok(DEFAULT_HOME@),
        },
    }
}

/// The directory that is initialized.
pub fn choose_home(requested: Option<String>, found: Option<String>) -> (result: Result<
    String,
    AppError,
>)
    ensures
        outcome(result) == initial_home(requested.deep_view(), found.deep_view()),
{
    match requested {
        Some(home) => Ok(home),
        None => match found {
            Some(path) => match parent(path.as_str()) {
                Some(home) => Ok(home),
                None => Err(
                    invalid_state(
                        cat3(
                            "configuration path ",
                            debug_path(path.as_str()).as_str(),
                            " has no parent",
                        ),
                    ),
                ),
            },
            None => Ok(DEFAULT_HOME.to_owned()),
        },
    }
}

/// What initializing a directory does and answers.
#[derive(Debug)]
pub struct InitPlan {
    pub config_path: String,
    pub projects_directory: String,
    /// The configuration file to write, where there is none yet.
    pub config_text: Option<String>,
    /// The text of the file that names the directory, where it was asked for.
    pub pointer_text: Option<String>,
    pub already_initialized: bool,
    pub message: Option<&'static str>,
}

/// What is done to initialize a directory that was chosen, given the directory of projects of a
/// configuration file that it holds already. Such a file is kept.
pub fn init_home(home: &str, requested: bool, existing: Option<String>) -> (plan: InitPlan)
    ensures
        plan.config_path@ == joined_path(home@, "config.toml"@),
        plan.already_initialized == existing is Some,
        plan.pointer_text.deep_view() == (if requested {
            Some(home@ + "\n"@)
        } else {
            None
        }),
        match existing {
            Some(directory) => {
                &&& plan.projects_directory == directory
                &&& plan.config_text is None
                &&& plan.message.deep_view() == Some(
                    "configuration already initialized; existing configuration was kept"@,
                )
            },
            None => {
                &&& plan.projects_directory@ == joined_path(home@, "projects"@)
                &&& plan.config_text.deep_view() == Some(global_text(home@))
                &&& plan.message is None
            },
        },
{
    let already_initialized = existing.is_some();
    let pointer_text = if requested {
        Some(cat2(home, "\n"))
    } else {
        None
    };
    match existing {
        Some(projects_directory) => InitPlan {
            config_path: config_path(home),
            projects_directory,
            config_text: None,
            pointer_text,
            already_initialized,
            message: Some("configuration already initialized; existing configuration was kept"),
        },
        None => InitPlan {
            config_path: config_path(home),
            projects_directory: join(home, "projects"),
            config_text: Some(format_global_config(home)),
            pointer_text,
            already_initialized,
            message: None,
        },
    }
}

/// The directory of releases, mirrors and the database for a directory of the configuration.
pub open spec fn state_directory(home: Seq<char>) -> Seq<char> {
    if same_parts(home, DEFAULT_HOME@) {
        "/var/lib/aynur-deploy"@
    } else {
        joined_path(home, "state"@)
    }
}

/// The text of a new configuration file.
pub open spec fn global_text(home: Seq<char>) -> Seq<char> {
    "listenAddress = \"127.0.0.1:9091\"\ndatabasePath = \""@ + joined_path(
        state_directory(home),
        "deployments.sqlite3"@,
    ) + "\"\nstateDirectory = \""@ + state_directory(home) + "\"\nprojectsDirectory = \""@
        + joined_path(home, "projects"@)
        + "\"\ngitCommand = \"/usr/bin/git\"\ncargoCommand = \"/usr/bin/cargo\"\ngitFetchAttempts = 3\ngitFetchRetryDelayMs = 2000\ncommandTimeoutSeconds = 1800\nmaxWebhookBodyBytes = 65536\nworkerPollIntervalMs = 1000\n"@
}

/// The text of a new configuration file.
pub fn format_global_config(home: &str) -> (text: String)
    ensures
        text@ == global_text(home@),
{
    let state = if same_path(home, DEFAULT_HOME) {
        "/var/lib/aynur-deploy".to_owned()
    } else {
        join(home, "state")
    };
    let mut text = "listenAddress = \"127.0.0.1:9091\"\ndatabasePath = \"".to_owned();
    text.append(join(state.as_str(), "deployments.sqlite3").as_str());
    text.append("\"\nstateDirectory = \"");
    text.append(state.as_str());
    text.append("\"\nprojectsDirectory = \"");
    text.append(join(home, "projects").as_str());
    text.append(
        "\"\ngitCommand = \"/usr/bin/git\"\ncargoCommand = \"/usr/bin/cargo\"\ngitFetchAttempts = 3\ngitFetchRetryDelayMs = 2000\ncommandTimeoutSeconds = 1800\nmaxWebhookBodyBytes = 65536\nworkerPollIntervalMs = 1000\n",
    );
    text
}

/// What the releases of a new project are made of.
#[derive(Debug, Clone, Copy, PartialEq, Eq, Structural)]
pub enum DeploymentType {
    /// The files of the tag.
    Static,
    /// A program that the tag holds.
    Binary,
    /// Programs that are built from the tag.
    Rust,
}

/// A line that gives a text a value.
pub open spec fn setting(name: Seq<char>, value: Seq<char>) -> Seq<char> {
    name + " = \""@ + value + "\"\n"@
}

fn setting_text(name: &str, value: &str) -> (line: String)
    ensures
        line@ == setting(name@, value@),
{
    cat4(name, " = \"", value, "\"\n")
}

/// A line that gives a number a value.
pub open spec fn count_setting(name: Seq<char>, value: nat) -> Seq<char> {
    name + " = "@ + decimal(value) + "\n"@
}

fn count_setting_text(name: &str, value: u64) -> (line: String)
    ensures
        line@ == count_setting(name@, value as nat),
{
    cat4(name, " = ", decimal_text(value).as_str(), "\n")
}

/// What a new project file says of reloading, as a comment.
pub const RELOAD_HINT: &'static str = "\n# Optional fixed-argv commands after activation, run in order:\n# [reload]\n# commands = [[\"aynur\", \"reload\", \"my-service\", \"--update-env\"]]\n";

/// What a new project file says of migrating, as a comment.
pub const MIGRATION_HINT: &'static str = "\n# Optional fixed-argv command before activation:\n# [migration]\n# command = [\"./my-service\", \"migrate\"]\n";

/// The section of a project file whose releases are the files of the tag.
pub open spec fn static_section(entry_file: Seq<char>) -> Seq<char> {
    setting("type"@, "static"@) + setting("entryFile"@, entry_file)
}

/// The section of a project file whose releases are a program that the tag holds.
pub open spec fn binary_section(binary_path: Seq<char>) -> Seq<char> {
    setting("type"@, "binary"@) + setting("binaryPath"@, binary_path) + RELOAD_HINT@
}

/// The section of a project file whose releases are one program that is built from the tag.
pub open spec fn rust_section(
    cargo_manifest: Seq<char>,
    package: Seq<char>,
    binary: Seq<char>,
) -> Seq<char> {
    setting("type"@, "rust"@) + setting("cargoManifest"@, cargo_manifest)
        + "includePaths = []\nbinaries = [{ package = \""@ + package + "\", binary = \""@ + binary
        + "\" }]\n"@ + MIGRATION_HINT@ + RELOAD_HINT@
}

/// The section of a new project file that says what releases are made of, with what may follow it.
pub open spec fn deployment_section(deployment_type: DeploymentType) -> Seq<char> {
    match deployment_type {
        DeploymentType::Static => static_section("index.html"@),
        DeploymentType::Binary => binary_section("bin/my-service"@),
        DeploymentType::Rust => rust_section("Cargo.toml"@, "my-service"@, "my-service"@),
    }
}

fn deployment_section_text(deployment_type: DeploymentType) -> (text: String)
    ensures
        text@ == deployment_section(deployment_type),
{
    match deployment_type {
        DeploymentType::Static => cat2(
            setting_text("type", "static").as_str(),
            setting_text("entryFile", "index.html").as_str(),
        ),
        DeploymentType::Binary => cat3(
            setting_text("type", "binary").as_str(),
            setting_text("binaryPath", "bin/my-service").as_str(),
            RELOAD_HINT,
        ),
        DeploymentType::Rust => {
            let mut text = cat2(
                setting_text("type", "rust").as_str(),
                setting_text("cargoManifest", "Cargo.toml").as_str(),
            );
            text.append("includePaths = []\nbinaries = [{ package = \"");
            text.append("my-service");
            text.append("\", binary = \"");
            text.append("my-service");
            text.append("\" }]\n");
            text.append(MIGRATION_HINT);
            text.append(RELOAD_HINT);
            text
        },
    }
}

/// The settings of a project file that come before its sections.
pub open spec fn project_settings(
    project_id: Seq<char>,
    current_path: Seq<char>,
    repository_full_name: Seq<char>,
    repository_url: Seq<char>,
    webhook_token: Seq<char>,
    tag_pattern: Seq<char>,
    retain_releases: nat,
) -> Seq<char> {
    setting("projectId"@, project_id) + setting("currentPath"@, current_path) + setting(
        "repositoryFullName"@,
        repository_full_name,
    ) + setting("repositoryUrl"@, repository_url) + setting("webhookToken"@, webhook_token)
        + setting("tagPattern"@, tag_pattern) + count_setting("retainReleases"@, retain_releases)
}

/// The section of a project file that says how releases are probed.
pub open spec fn health_section(url: Seq<char>, attempts: nat, interval: nat, timeout: nat) -> Seq<
    char,
> {
    "\n[healthCheck]\n# Replace this with the deployed project's public URL.\n"@ + setting(
        "url"@,
        url,
    ) + count_setting("attempts"@, attempts) + count_setting("intervalMs"@, interval)
        + count_setting("timeoutMs"@, timeout)
}

/// The text of a new project file.
pub open spec fn project_text(
    project_id: Seq<char>,
    current_path: Seq<char>,
    token: Seq<char>,
    deployment_type: DeploymentType,
) -> Seq<char> {
    project_settings(
        project_id,
        current_path,
        "owner/repository"@,
        "https://gitee.com/owner/repository.git"@,
        token,
        "^deploy-[0-9]{8}-[0-9]{6}$"@,
        3,
    ) + health_section("https://example.invalid/"@, 5, 2000, 5000) + "\n[deployment]\n"@
        + deployment_section(deployment_type)
}

/// The text of a new project file.
pub fn format_project_config(
    project_id: &str,
    current_path: &str,
    token: &str,
    deployment_type: DeploymentType,
) -> (text: String)
    ensures
        text@ == project_text(project_id@, current_path@, token@, deployment_type),
{
    let mut text = setting_text("projectId", project_id);
    text.append(setting_text("currentPath", current_path).as_str());
    text.append(setting_text("repositoryFullName", "owner/repository").as_str());
    text.append(
        setting_text("repositoryUrl", "https://gitee.com/owner/repository.git").as_str(),
    );
    text.append(setting_text("webhookToken", token).as_str());
    text.append(setting_text("tagPattern", "^deploy-[0-9]{8}-[0-9]{6}$").as_str());
    text.append(count_setting_text("retainReleases", 3).as_str());
    let mut health = cat2(
        "\n[healthCheck]\n# Replace this with the deployed project's public URL.\n",
        setting_text("url", "https://example.invalid/").as_str(),
    );
    health.append(count_setting_text("attempts", 5).as_str());
    health.append(count_setting_text("intervalMs", 2000).as_str());
    health.append(count_setting_text("timeoutMs", 5000).as_str());
    text.append(health.as_str());
    text.append("\n[deployment]\n");
    text.append(deployment_section_text(deployment_type).as_str());
    text
}

/// Where the current link of a project is, unless it is asked for elsewhere.
pub open spec fn default_current_path(state_directory: Seq<char>, project_id: Seq<char>) -> Seq<
    char,
> {
    joined_path(
        joined_path(joined_path(state_directory, "projects"@), project_id),
        "current"@,
    )
}

/// Whether a path can be that of a current link.
pub open spec fn normalized(path: Seq<char>) -> bool {
    absolute(path) && !same_parts(path, "/"@) && !has_dots(path)
}

/// What adding a project writes.
#[derive(Debug)]
pub struct AddPlan {
    pub project_config_path: String,
    pub project_config: String,
    pub current_path: String,
}

/// What adding a project writes, with the characters of its texts.
#[verifier::ext_equal]
pub struct AddPlanView {
    pub project_config_path: Seq<char>,
    pub project_config: Seq<char>,
    pub current_path: Seq<char>,
}

impl DeepView for AddPlan {
    type V = AddPlanView;

    open spec fn deep_view(&self) -> AddPlanView {
        AddPlanView {
            project_config_path: self.project_config_path@,
            project_config: self.project_config@,
            current_path: self.current_path@,
        }
    }
}

/// What adding a project with a token writes.
pub open spec fn addition(
    project_id: Seq<char>,
    deployment_type: DeploymentType,
    requested: Option<Seq<char>>,
    projects_directory: Seq<char>,
    state_directory: Seq<char>,
    token: Seq<char>,
) -> Result<AddPlanView, AppErrorView> {
    let current_path = match requested {
        Some(path) => path,
        None => default_current_path(state_directory, project_id),
    };
    match project_id_flaw(project_id) {
        Some(error) => Err(error),
        None => if !normalized(current_path) {
            Err(
                AppErrorView::RequestValidation {
                    reason: "currentPath must be a normalized absolute path other than /, got "@
                        + path_debug(current_path),
                },
            )
        } else {
            Ok(
                AddPlanView {
                    project_config_path: joined_path(projects_directory, project_id + ".toml"@),
                    project_config: project_text(
                        project_id,
                        current_path,
                        token,
                        deployment_type,
                    ),
                    current_path,
                },
            )
        },
    }
}

/// What adding a project writes, with a token.
pub fn add_project_with(
    project_id: &str,
    deployment_type: DeploymentType,
    requested: Option<String>,
    projects_directory: &str,
    state_directory: &str,
    token: &str,
) -> (result: Result<AddPlan, AppError>)
    ensures
        outcome(result) == addition(
            project_id@,
            deployment_type,
            requested.deep_view(),
            projects_directory@,
            state_directory@,
            token@,
        ),
{
    match validate_project_id(project_id) {
        Err(error) => {
            return Err(error);
        },
        Ok(_) => {},
    }
    let current_path = match requested {
        Some(path) => path,
        None => join(
            join(join(state_directory, "projects").as_str(), project_id).as_str(),
            "current",
        ),
    };
    if !is_absolute(current_path.as_str()) || same_path(current_path.as_str(), "/")
        || contains_dots(current_path.as_str()) {
        return Err(
            invalid_request(
                cat2(
                    "currentPath must be a normalized absolute path other than /, got ",
                    debug_path(current_path.as_str()).as_str(),
                ),
            ),
        );
    }
    Ok(
        AddPlan {
            project_config_path: join(projects_directory, cat2(project_id, ".toml").as_str()),
            project_config: format_project_config(
                project_id,
                current_path.as_str(),
                token,
                deployment_type,
            ),
            current_path,
        },
    )
}

/// What adding a project writes, with a new token of 64 hexadecimal digits.
pub fn add_project(
    project_id: &str,
    deployment_type: DeploymentType,
    requested: Option<String>,
    projects_directory: &str,
    state_directory: &str,
) -> (result: Result<AddPlan, AppError>)
    ensures
        exists|first: Seq<char>, second: Seq<char>|
            hex_id(first) && hex_id(second) && outcome(result) == #[trigger] addition(
                project_id@,
                deployment_type,
                requested.deep_view(),
                projects_directory@,
                state_directory@,
                first + second,
            ),
{
    let first = new_hex_id();
    let second = new_hex_id();
    let token = cat2(first.as_str(), second.as_str());
    let result = add_project_with(
        project_id,
        deployment_type,
        requested,
        projects_directory,
        state_directory,
        token.as_str(),
    );
    assert(outcome(result) == addition(
        project_id@,
        deployment_type,
        requested.deep_view(),
        projects_directory@,
        state_directory@,
        first@ + second@,
    ));
    result
}

/// Where a directory is moved that stands in the place of a current link: beside it, under its
/// name with an ending.
pub open spec fn bootstrap_of(current_path: Seq<char>) -> Option<Seq<char>> {
    match (parent_of(current_path), name_of(current_path)) {
        (Some(parent), Some(name)) => Some(joined_path(parent, name + ".before-aynur-deploy"@)),
        _ => None,
    }
}

/// Where a directory is moved that stands in the place of a current link.
pub fn bootstrap_path(current_path: &str) -> (path: Option<String>)
    ensures
        path.deep_view() == bootstrap_of(current_path@),
{
    match (parent(current_path), file_name(current_path)) {
        (Some(parent), Some(name)) => Some(
            join(parent.as_str(), cat2(name.as_str(), ".before-aynur-deploy").as_str()),
        ),
        _ => None,
    }
}

/// What adopts the place of a current link: nothing, or a directory is moved and linked to.
#[derive(Debug)]
pub struct Adoption {
    pub bootstrap_path: Option<String>,
    pub ops: Vec<FileOp<String>>,
}

/// What adopts the place of a current link, with the characters of its texts.
pub struct AdoptionView {
    pub bootstrap_path: Option<Seq<char>>,
    pub ops: Seq<FileOp<Seq<char>>>,
}

impl DeepView for Adoption {
    type V = AdoptionView;

    open spec fn deep_view(&self) -> AdoptionView {
        AdoptionView {
            bootstrap_path: self.bootstrap_path.deep_view(),
            ops: self.ops.deep_view(),
        }
    }
}

/// What adopts the place of a current link, given what is known of it and of the place beside it.
/// A link and an empty place are left alone; a directory is moved beside, where nothing may be
/// yet, and linked to by an absolute link; and anything else is refused.
pub open spec fn adoption(current_path: Seq<char>, current: Metadata, bootstrap: Metadata) -> Result<
    AdoptionView,
    AppErrorView,
> {
    match current {
        Metadata::Missing { .. } => Ok(AdoptionView { bootstrap_path: None, ops: Seq::empty() }),
        Metadata::Failed { source } => Err(
            AppErrorView::FileSystem {
                operation: "read symlink metadata"@,
                path: current_path,
                source: source@,
            },
        ),
        Metadata::Found { kind, .. } => match kind {
            FileKind::Symlink => Ok(AdoptionView { bootstrap_path: None, ops: Seq::empty() }),
            FileKind::Directory => match bootstrap_of(current_path) {
                None => Err(
                    AppErrorView::InvalidState {
                        reason: "currentPath "@ + path_debug(current_path) + " has no parent"@,
                    },
                ),
                Some(path) => match bootstrap {
                    Metadata::Missing { .. } => Ok(
                        AdoptionView {
                            bootstrap_path: Some(path),
                            ops: seq![
                                FileOp::Rename { from: current_path, to: path },
                                FileOp::Symlink { target: path, link: current_path },
                            ],
                        },
                    ),
                    Metadata::Found { .. } => Err(
                        AppErrorView::InvalidState {
                            reason: "bootstrap path "@ + path_debug(path) + " already exists"@,
                        },
                    ),
                    Metadata::Failed { source } => Err(
                        AppErrorView::FileSystem {
                            operation: "read symlink metadata"@,
                            path,
                            source: source@,
                        },
                    ),
                },
            },
            _ => Err(
                AppErrorView::InvalidState {
                    reason: "currentPath "@ + path_debug(current_path)
                        + " must be absent, a symbolic link, or an existing directory"@,
                },
            ),
        },
    }
}

/// What adopts the place of a current link, given what is known of it and of the place beside it
/// without following links.
pub fn adopt_current_path(current_path: &str, current: Metadata, bootstrap: Metadata) -> (result: Result<
    Adoption,
    AppError,
>)
    ensures
        outcome(result) == adoption(current_path@, current, bootstrap),
{
    let mut ops: Vec<FileOp<String>> = Vec::new();
    assert(ops.deep_view() =~= Seq::<FileOp<Seq<char>>>::empty());
    let kind = match current {
        Metadata::Missing { .. } => {
            return Ok(Adoption { bootstrap_path: None, ops });
        },
        Metadata::Failed { source } => {
            return Err(
                AppError::FileSystem {
                    operation: "read symlink metadata",
                    path: current_path.to_owned(),
                    source,
                },
            );
        },
        Metadata::Found { kind, .. } => kind,
    };
    match kind {
        FileKind::Symlink => Ok(Adoption { bootstrap_path: None, ops }),
        FileKind::Directory => match bootstrap_path(current_path) {
            None => Err(
                invalid_state(
                    cat3("currentPath ", debug_path(current_path).as_str(), " has no parent"),
                ),
            ),
            Some(path) => match bootstrap {
                Metadata::Missing { .. } => {
                    ops.push(FileOp::Rename { from: current_path.to_owned(), to: path.clone() });
                    ops.push(
                        FileOp::Symlink { target: path.clone(), link: current_path.to_owned() },
                    );
                    assert(ops.deep_view() =~= seq![
                        FileOp::Rename { from: current_path@, to: path@ },
                        FileOp::Symlink { target: path@, link: current_path@ },
                    ]);
                    Ok(Adoption { bootstrap_path: Some(path), ops })
                },
                Metadata::Found { .. } => Err(
                    invalid_state(
                        cat3(
                            "bootstrap path ",
                            debug_path(path.as_str()).as_str(),
                            " already exists",
                        ),
                    ),
                ),
                Metadata::Failed { source } => Err(
                    AppError::FileSystem { operation: "read symlink metadata", path, source },
                ),
            },
        },
        _ => Err(
            invalid_state(
                cat3(
                    "currentPath ",
                    debug_path(current_path).as_str(),
                    " must be absent, a symbolic link, or an existing directory",
                ),
            ),
        ),
    }
}

/// Adopting a place copies and removes nothing: a directory is renamed to a place beside it that
/// is empty, and the link that takes its place is absolute.
pub proof fn adopting_keeps_what_is_there(
    current_path: Seq<char>,
    current: Metadata,
    bootstrap: Metadata,
)
    requires
        normalized(current_path),
        adoption(current_path, current, bootstrap) is Ok,
    ensures
        adoption(current_path, current, bootstrap) matches Ok(adopted) && match adopted.bootstrap_path {
            None => adopted.ops.len() == 0,
            Some(path) => {
                &&& bootstrap is Missing
                &&& absolute(path)
                &&& adopted.ops == seq![
                    FileOp::Rename { from: current_path, to: path },
                    FileOp::Symlink { target: path, link: current_path },
                ]
            },
        },
{
    if let Some(path) = bootstrap_of(current_path) {
        parent_drops_last_part(current_path);
        let above = parent_of(current_path)->0;
        assert(parts(current_path)[0] is Root);
        assert(parts(above)[0] is Root);
        a_root_part_means_absolute(above);
        let name = name_of(current_path)->0;
        normal_parts_are_plain_names(current_path);
        let last = parts(current_path).len() - 1;
        assert(parts(current_path)[last] == Part::Normal(name));
        assert(plain_name(name));
        if absolute(name + ".before-aynur-deploy"@) {
            assert(name.contains(name[0]));
        }
    }
}

/// Whether texts are in order, each once.
pub open spec fn in_order(texts: Seq<Seq<char>>) -> bool {
    forall|i: int, j: int|
        0 <= i < j < texts.len() ==> text_less(#[trigger] texts[i], #[trigger] texts[j])
}

/// The identifiers of the projects of a configuration, in order, each once.
pub fn check_config(config: &LoadedConfig) -> (project_ids: Vec<String>)
    ensures
        in_order(project_ids.deep_view()),
        forall|id: Seq<char>| #[trigger]
            project_ids.deep_view().contains(id) <==> project_with(config.projects@, id) is Some,
{
    let mut ids: Vec<String> = Vec::new();
    let mut i: usize = 0;
    assert(ids.deep_view() =~= Seq::<Seq<char>>::empty());
    while i < config.projects.len()
        invariant
            i <= config.projects.len(),
            in_order(ids.deep_view()),
            forall|id: Seq<char>| #[trigger]
                ids.deep_view().contains(id) <==> exists|k: int|
                    0 <= k < i && (#[trigger] config.projects@[k]).project_id@ == id,
        decreases config.projects.len() - i,
    {
        let ghost before = ids.deep_view();
        let ghost new = config.projects[i as int].project_id@;
        insert_text(&mut ids, config.projects[i].project_id.as_str());
        assert forall|id: Seq<char>| #[trigger] ids.deep_view().contains(id) <==> exists|k: int|
            0 <= k < i + 1 && (#[trigger] config.projects@[k]).project_id@ == id by {
            if ids.deep_view().contains(id) {
                if before.contains(id) {
                    let k = choose|k: int|
                        0 <= k < i && (#[trigger] config.projects@[k]).project_id@ == id;
                    assert(config.projects@[k].project_id@ == id);
                } else {
                    assert(config.projects@[i as int].project_id@ == id);
                }
            }
            if exists|k: int| 0 <= k < i + 1 && (#[trigger] config.projects@[k]).project_id@ == id {
                let k = choose|k: int|
                    0 <= k < i + 1 && (#[trigger] config.projects@[k]).project_id@ == id;
                if k < i {
                    assert(config.projects@[k].project_id@ == id);
                    assert(before.contains(id));
                }
            }
        }
        i += 1;
    }
    proof {
        assert forall|id: Seq<char>| #[trigger] ids.deep_view().contains(id) <==> project_with(
            config.projects@,
            id,
        ) is Some by {
            found_where_present(config.projects@, id);
        }
    }
    ids
}

proof fn found_where_present(projects: Seq<Project>, id: Seq<char>)
    ensures
        project_with(projects, id) is Some <==> exists|k: int|
            0 <= k < projects.len() && (#[trigger] projects[k]).project_id@ == id,
    decreases projects.len(),
{
    if projects.len() > 0 {
        let rest = projects.drop_first();
        found_where_present(rest, id);
        if projects[0].project_id@ != id {
            if exists|k: int| 0 <= k < projects.len() && (#[trigger] projects[k]).project_id@ == id {
                let k = choose|k: int|
                    0 <= k < projects.len() && (#[trigger] projects[k]).project_id@ == id;
                assert(rest[k - 1].project_id@ == id);
            }
            if exists|k: int| 0 <= k < rest.len() && (#[trigger] rest[k]).project_id@ == id {
                let k = choose|k: int|
                    0 <= k < rest.len() && (#[trigger] rest[k]).project_id@ == id;
                assert(projects[k + 1].project_id@ == id);
            }
        }
    }
}

/// Inserts a text into a list that is in order, unless it is there.
fn insert_text(list: &mut Vec<String>, text: &str)
    requires
        in_order(old(list).deep_view()),
    ensures
        in_order(final(list).deep_view()),
        forall|other: Seq<char>| #[trigger]
            final(list).deep_view().contains(other) <==> old(list).deep_view().contains(other)
                || other == text@,
{
    let ghost before = list.deep_view();
    let ghost new = text@;
    let mut i: usize = 0;
    while i < list.len() && precedes(list[i].as_str(), text)
        invariant
            i <= list.len(),
            before == list.deep_view(),
            new == text@,
            in_order(before),
            forall|k: int| 0 <= k < i ==> text_less(#[trigger] before[k], new),
        decreases list.len() - i,
    {
        assert(before[i as int] == list[i as int]@);
        i += 1;
    }
    if i < list.len() && !precedes(text, list[i].as_str()) {
        proof {
            assert(before[i as int] == list[i as int]@);
            text_order_is_total(before[i as int], new);
            assert(before[i as int] == new);
            assert(before.contains(new));
        }
        return;
    }
    proof {
        assert forall|k: int| i <= k < before.len() implies text_less(new, #[trigger] before[k]) by {
            assert(before[i as int] == list[i as int]@);
            if k > i {
                assert(text_less(before[i as int], before[k]));
                text_order_is_transitive(new, before[i as int], before[k]);
            }
        }
    }
    list.insert(i, text.to_owned());
    let ghost after = list.deep_view();
    assert(after =~= before.insert(i as int, new));
    proof {
        assert forall|a: int, b: int| 0 <= a < b < after.len() implies text_less(
            #[trigger] after[a],
            #[trigger] after[b],
        ) by {
            if b < i {
                assert(text_less(before[a], before[b]));
            } else if b == i {
                assert(after[a] == before[a]);
            } else if a < i {
                assert(text_less(before[a], before[b - 1]));
            } else if a == i {
                assert(after[b] == before[b - 1]);
            } else {
                assert(text_less(before[a - 1], before[b - 1]));
            }
        }
        assert forall|other: Seq<char>| #[trigger]
            after.contains(other) <==> before.contains(other) || other == new by {
            if after.contains(other) {
                let k = choose|k: int| 0 <= k < after.len() && after[k] == other;
                if k < i {
                    assert(before[k] == other);
                } else if k > i {
                    assert(before[k - 1] == other);
                }
            }
            if before.contains(other) {
                let k = choose|k: int| 0 <= k < before.len() && before[k] == other;
                if k < i {
                    assert(after[k] == other);
                } else {
                    assert(after[k + 1] == other);
                }
            }
            if other == new {
                assert(after[i as int] == other);
            }
        }
    }
}

/// A configured project with its state.
#[derive(Debug)]
pub struct ListedProject {
    pub state: ProjectState,
    pub current_path: String,
}

/// A configured project with its state, with the characters of its texts.
#[verifier::ext_equal]
pub struct ListedProjectView {
    pub state: ProjectStateView,
    pub current_path: Seq<char>,
}

impl DeepView for ListedProject {
    type V = ListedProjectView;

    open spec fn deep_view(&self) -> ListedProjectView {
        ListedProjectView { state: self.state@, current_path: self.current_path@ }
    }
}

/// Whether a list names each configured project once, in the order of the identifiers, with its
/// stored state and the place of its current link.
pub open spec fn lists_projects(
    config: LoadedConfig,
    db: DatabaseView,
    list: Seq<ListedProjectView>,
) -> bool {
    &&& forall|i: int, j: int|
        0 <= i < j < list.len() ==> text_less(
            (#[trigger] list[i]).state.project_id,
            (#[trigger] list[j]).state.project_id,
        )
    &&& forall|i: int|
        0 <= i < list.len() ==> {
            let id = (#[trigger] list[i]).state.project_id;
            &&& db.projects.contains_key(id) && list[i].state == db.projects[id].state()
            &&& project_with(config.projects@, id) matches Some(project) && list[i].current_path
                == project.current_path@
        }
    &&& forall|id: Seq<char>|
        #![trigger project_with(config.projects@, id)]
        project_with(config.projects@, id) is Some ==> exists|i: int|
            0 <= i < list.len() && (#[trigger] list[i]).state.project_id == id
}

/// The configured projects with their states, in the order of their identifiers; the first that
/// is not stored is reported.
pub fn list_projects(config: &LoadedConfig, database: &Database) -> (result: Result<
    Vec<ListedProject>,
    AppError,
>)
    requires
        database.wf(),
    ensures
        match result {
            Ok(list) => lists_projects(*config, database@, list.deep_view()),
            Err(error) => error@ matches AppErrorView::ProjectNotFound { project_id }
                && project_with(config.projects@, project_id) is Some
                && !database@.projects.contains_key(project_id) && forall|other: Seq<char>|
                #![trigger project_with(config.projects@, other)]
                project_with(config.projects@, other) is Some && text_less(other, project_id)
                    ==> database@.projects.contains_key(other),
        },
{
    proof {
        database.wf_is_valid();
    }
    let ids = check_config(config);
    let ghost names = ids.deep_view();
    let mut list: Vec<ListedProject> = Vec::new();
    let mut i: usize = 0;
    while i < ids.len()
        invariant
            i <= ids.len(),
            names == ids.deep_view(),
            database.wf(),
            database@.valid(),
            in_order(names),
            forall|id: Seq<char>| #[trigger]
                names.contains(id) <==> project_with(config.projects@, id) is Some,
            list.len() == i,
            forall|k: int|
                0 <= k < i ==> {
                    &&& (#[trigger] list.deep_view()[k]).state.project_id == names[k]
                    &&& database@.projects.contains_key(names[k])
                    &&& list.deep_view()[k].state == database@.projects[names[k]].state()
                    &&& project_with(config.projects@, names[k]) matches Some(project)
                        && list.deep_view()[k].current_path == project.current_path@
                },
        decreases ids.len() - i,
    {
        let ghost before = list.deep_view();
        assert(names[i as int] == ids[i as int]@);
        assert(names.contains(names[i as int]));
        let project = match config.project(ids[i].as_str()) {
            Ok(project) => project,
            Err(error) => {
                return Err(error);
            },
        };
        match database.project_state(ids[i].as_str()) {
            Ok(state) => {
                let ghost shown = ListedProjectView {
                    state: state@,
                    current_path: project.current_path@,
                };
                list.push(ListedProject { state, current_path: project.current_path.clone() });
                assert(list.deep_view() =~= before.push(shown));
            },
            Err(error) => {
                proof {
                    assert forall|other: Seq<char>|
                        #![trigger project_with(config.projects@, other)]
                        project_with(config.projects@, other) is Some && text_less(
                            other,
                            names[i as int],
                        ) implies database@.projects.contains_key(other) by {
                        assert(names.contains(other));
                        let k = choose|k: int| 0 <= k < names.len() && names[k] == other;
                        text_order_is_total(other, names[i as int]);
                        if k > i {
                            assert(text_less(names[i as int], names[k]));
                            text_order_is_total(names[i as int], names[k]);
                        }
                        assert(k < i);
                        assert(list.deep_view()[k].state.project_id == names[k]);
                    }
                }
                return Err(error);
            },
        }
        i += 1;
    }
    proof {
        let shown = list.deep_view();
        assert forall|a: int, b: int| 0 <= a < b < shown.len() implies text_less(
            (#[trigger] shown[a]).state.project_id,
            (#[trigger] shown[b]).state.project_id,
        ) by {
            assert(text_less(names[a], names[b]));
        }
        assert forall|id: Seq<char>|
            #![trigger project_with(config.projects@, id)]
            project_with(config.projects@, id) is Some implies exists|k: int|
            0 <= k < shown.len() && (#[trigger] shown[k]).state.project_id == id by {
            assert(names.contains(id));
            let k = choose|k: int| 0 <= k < names.len() && names[k] == id;
            assert(shown[k].state.project_id == id);
        }
    }
    Ok(list)
}

/// The state of a configured project and its deployments, the newest first.
pub fn status(config: &LoadedConfig, database: &Database, project_id: &str) -> (result: Result<
    (ProjectState, Vec<Deployment>),
    AppError,
>)
    requires
        database.wf(),
    ensures
        outcome(result) == (if project_with(config.projects@, project_id@) is None
            || !database@.projects.contains_key(project_id@) {
            Err::<(ProjectStateView, Seq<DeploymentView>), AppErrorView>(
                AppErrorView::ProjectNotFound { project_id: project_id@ },
            )
        } else {
            match read_rows(database@.newest(Selection::OfProject(project_id@))) {
                Err(error) => Err(error),
                Ok(deployments) => Ok((database@.projects[project_id@].state(), deployments)),
            }
        }),
{
    match config.project(project_id) {
        Err(error) => {
            return Err(error);
        },
        Ok(_) => {},
    }
    match database.project_state(project_id) {
        Err(error) => Err(error),
        Ok(state) => match database.deployments_for_project(project_id) {
            Err(error) => Err(error),
            Ok(deployments) => Ok((state, deployments)),
        },
    }
}

/// Ends the blocking of a configured project and answers with its state.
pub fn unblock(config: &LoadedConfig, database: &mut Database, project_id: &str) -> (result: Result<
    ProjectState,
    AppError,
>)
    requires
        old(database).wf(),
    ensures
        final(database).wf(),
        match result {
            Ok(state) => {
                &&& project_with(config.projects@, project_id@) is Some
                &&& old(database)@.projects.contains_key(project_id@)
                &&& exists|now: Seq<char>|
                    utc_millis(now) && final(database)@ == (#[trigger] old(database)@.blocked(
                        project_id@,
                        None,
                        now,
                    )).0
                &&& state@ == final(database)@.projects[project_id@].state()
                &&& !state.blocked
            },
            Err(error) => {
                &&& final(database)@ == old(database)@
                &&& project_with(config.projects@, project_id@) is None
                    || !old(database)@.projects.contains_key(project_id@)
                &&& error@ == (AppErrorView::ProjectNotFound { project_id: project_id@ })
            },
        },
{
    match config.project(project_id) {
        Err(error) => {
            return Err(error);
        },
        Ok(_) => {},
    }
    proof {
        database.wf_is_valid();
    }
    match database.unblock_project(project_id) {
        Err(error) => Err(error),
        Ok(_) => database.project_state(project_id),
    }
}

/// Queues a release of a configured project to be activated again.
pub fn rollback(
    config: &LoadedConfig,
    database: &mut Database,
    project_id: &str,
    commit_sha: &str,
    release_is_directory: bool,
) -> (result: Result<Deployment, AppError>)
    requires
        old(database).wf(),
    ensures
        final(database).wf(),
        match sha_flaw(commit_sha@) {
            Some(error) => outcome(result) == Err::<DeploymentView, AppErrorView>(error)
                && final(database)@ == old(database)@,
            None => match project_with(config.projects@, project_id@) {
                None => outcome(result) == Err::<DeploymentView, AppErrorView>(
                    AppErrorView::ProjectNotFound { project_id: project_id@ },
                ) && final(database)@ == old(database)@,
                Some(_) => exists|id: Seq<char>, now: Seq<char>|
                    uuid_text(id) && utc_millis(now) && (
                        final(database)@,
                        outcome(result),
                    ) == #[trigger] old(
                        database,
                    )@.rolled_back(project_id@, commit_sha@, release_is_directory, id, now),
            },
        },
{
    match validate_cli_sha(commit_sha) {
        Err(error) => {
            return Err(error);
        },
        Ok(_) => {},
    }
    match config.project(project_id) {
        Err(error) => {
            return Err(error);
        },
        Ok(_) => {},
    }
    database.create_rollback(project_id, commit_sha, release_is_directory)
}

/// The directories that a deployment may have left behind.
pub open spec fn residue(state_directory: Seq<char>, deployments: Seq<DeploymentView>) -> Seq<
    Seq<char>,
>
    decreases deployments.len(),
{
    if deployments.len() == 0 {
        Seq::empty()
    } else {
        residue(state_directory, deployments.drop_last()).push(
            joined_path(joined_path(state_directory, "worktrees"@), deployments.last().id),
        ).push(joined_path(joined_path(state_directory, "targets"@), deployments.last().id))
    }
}

/// The directories that deployments may have left behind: a worktree and a target directory for
/// each. No release is among them.
pub fn residual_paths(state_directory: &str, deployments: &Vec<Deployment>) -> (paths: Vec<String>)
    ensures
        paths.deep_view() == residue(state_directory@, deployments.deep_view()),
{
    let ghost all = deployments.deep_view();
    let mut paths: Vec<String> = Vec::new();
    let mut i: usize = 0;
    assert(paths.deep_view() =~= Seq::<Seq<char>>::empty());
    assert(all.take(0) =~= Seq::<DeploymentView>::empty());
    while i < deployments.len()
        invariant
            i <= deployments.len(),
            all == deployments.deep_view(),
            paths.deep_view() == residue(state_directory@, all.take(i as int)),
        decreases deployments.len() - i,
    {
        let ghost before = paths.deep_view();
        assert(all.take(i + 1).drop_last() =~= all.take(i as int));
        assert(all[i as int] == deployments[i as int]@);
        let worktree = join(
            join(state_directory, "worktrees").as_str(),
            deployments[i].id.as_str(),
        );
        let target = join(join(state_directory, "targets").as_str(), deployments[i].id.as_str());
        let ghost (first, second) = (worktree@, target@);
        paths.push(worktree);
        paths.push(target);
        assert(paths.deep_view() =~= before.push(first).push(second));
        i += 1;
    }
    assert(all.take(i as int) =~= all);
    paths
}

/// Nothing that deployments leave behind holds a release or lies in one: what stands below the
/// directory of the projects is not removed with it.
pub proof fn leftovers_hold_no_release(
    state_directory: Seq<char>,
    deployments: Seq<DeploymentView>,
    index: int,
    release: Seq<char>,
)
    requires
        state_directory.len() > 0,
        forall|i: int|
            0 <= i < deployments.len() ==> uuid_text((#[trigger] deployments[i]).id),
        0 <= index < residue(state_directory, deployments).len(),
        under(release, joined_path(state_directory, "projects"@)),
    ensures
        !under(release, residue(state_directory, deployments)[index]),
        !under(residue(state_directory, deployments)[index], release),
    decreases deployments.len(),
{
    let before = deployments.drop_last();
    let earlier = residue(state_directory, before);
    if index < earlier.len() {
        leftovers_hold_no_release(state_directory, before, index, release);
    } else {
        let id = deployments.last().id;
        leftovers_stand_beside_the_projects(state_directory, id);
        let path = residue(state_directory, deployments)[index];
        let depth = parts(state_directory).len() as int;
        let projects = joined_path(state_directory, "projects"@);
        assert(parts(release).take(depth + 1)[depth] == parts(projects)[depth]);
        assert(parts(path)[depth] != parts(release)[depth]);
        if under(release, path) {
            assert(parts(release).take(parts(path).len() as int)[depth] == parts(path)[depth]);
        }
        if under(path, release) {
            assert(parts(path).take(parts(release).len() as int)[depth] == parts(release)[depth]);
        }
    }
}

/// Which ended deployments a word of the command line means.
pub open spec fn clean_type(word: Seq<char>) -> Option<CleanDeploymentType> {
    if word == "failed"@ {
        Some(CleanDeploymentType::Failed)
    } else if word == "succeeded"@ {
        Some(CleanDeploymentType::Succeeded)
    } else if word == "all"@ {
        Some(CleanDeploymentType::All)
    } else {
        None
    }
}

/// Which ended deployments a word of the command line means.
pub fn parse_clean_type(word: &str) -> (result: Option<CleanDeploymentType>)
    ensures
        result == clean_type(word@),
{
    if text_eq(word, "failed") {
        Some(CleanDeploymentType::Failed)
    } else if text_eq(word, "succeeded") {
        Some(CleanDeploymentType::Succeeded)
    } else if text_eq(word, "all") {
        Some(CleanDeploymentType::All)
    } else {
        None
    }
}

} // verus!
