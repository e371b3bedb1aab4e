//! What makes a configuration valid.
use vstd::prelude::*;

use crate::config::{
    ConfiguredCommand, DeploymentTarget, GlobalConfig, HealthCheck, IpAddress, ListenAddress,
    RustBinary,
};
#[allow(unused_imports)]
use crate::environment::environment_flaw;
use crate::environment::{load_environment_file, permission_bits, EnvironmentSource};
use crate::error::{config_error, file_error, AppError};
#[allow(unused_imports)]
use crate::error::{outcome, AppErrorView};
#[allow(unused_imports)]
use crate::path::{absolute, has_dots, parts, path_debug, plain_relative, same_parts, under};
use crate::path::{
    contains_dots, debug_path, is_absolute, is_plain_relative, same_path, starts_with,
};
use crate::pattern::{is_name, is_repository_name};
#[allow(unused_imports)]
use crate::pattern::{name_text, repository_text};
use crate::release::{FileKind, Metadata};
#[allow(unused_imports)]
use crate::release::executable;
#[allow(unused_imports)]
use crate::text::{decimal, has_control, mode_octal, str_debug};
use crate::text::{
    cat2, cat3, cat4, cat5, contains_control, debug_text, decimal_text, mode_octal_text, text_eq,
};

verus! {

/// The text of a project file.
#[derive(Debug)]
pub struct ProjectConfig {
    pub project_id: String,
    pub current_path: String,
    pub repository_full_name: String,
    pub repository_url: String,
    pub webhook_token: String,
    pub tag_pattern: String,
    pub retain_releases: usize,
    pub health_check: HealthCheckConfig,
    pub deployment: DeploymentConfig,
    pub migration: Option<Vec<String>>,
    pub reload: Option<Vec<Vec<String>>>,
}

/// How a project file says that an activated release is probed.
#[derive(Debug)]
pub struct HealthCheckConfig {
    pub url: String,
    pub attempts: u32,
    pub interval_ms: u64,
    pub timeout_ms: u64,
}

/// What a project file says that a release is made of.
#[derive(Debug)]
pub enum DeploymentConfig {
    /// The files of the tag.
    Static { entry_file: String },
    /// A program that the tag holds.
    Binary { binary_path: String },
    /// Programs that are built from the tag, and files of it.
    Rust {
        cargo_manifest: String,
        binaries: Vec<RustBinary>,
        include_paths: Vec<String>,
        environment_file: Option<String>,
    },
}

/// The error of a configuration value.
pub open spec fn flaw(path: Seq<char>, reason: Seq<char>) -> Option<AppErrorView> {
    Some(AppErrorView::Config { path, reason })
}

/// The first of two errors.
pub open spec fn first_of(
    first: Option<AppErrorView>,
    second: Option<AppErrorView>,
) -> Option<AppErrorView> {
    match first {
        Some(error) => Some(error),
        None => second,
    }
}

/// The result of a check that found an error, or none.
pub open spec fn checked(found: Option<AppErrorView>) -> Result<(), AppErrorView> {
    match found {
        Some(error) => Err(error),
        None => Ok(()),
    }
}

/// What is wrong with a path that must be absolute.
pub open spec fn absolute_flaw(
    path: Seq<char>,
    field: Seq<char>,
    value: Seq<char>,
) -> Option<AppErrorView> {
    if absolute(value) {
        None
    } else {
        flaw(path, field + " must be an absolute path, got "@ + path_debug(value))
    }
}

/// Checks that a path is absolute.
pub fn validate_absolute_path(path: &str, field: &str, value: &str) -> (result: Result<
    (),
    AppError,
>)
    ensures
        outcome(result) == checked(absolute_flaw(path@, field@, value@)),
{
    if !is_absolute(value) {
        return Err(
            config_error(
                path,
                cat3(field, " must be an absolute path, got ", debug_path(value).as_str()),
            ),
        );
    }
    Ok(())
}

/// What is wrong with a path that must lead below a directory.
pub open spec fn relative_flaw(
    path: Seq<char>,
    field: Seq<char>,
    value: Seq<char>,
) -> Option<AppErrorView> {
    if plain_relative(value) {
        None
    } else {
        flaw(
            path,
            field + " must be a non-empty relative path without . or .., got "@ + path_debug(value),
        )
    }
}

/// Checks that a path is not empty, relative, and free of `.` and `..`.
pub fn validate_relative_path(path: &str, field: &str, value: &str) -> (result: Result<
    (),
    AppError,
>)
    ensures
        outcome(result) == checked(relative_flaw(path@, field@, value@)),
{
    if !is_plain_relative(value) {
        return Err(
            config_error(
                path,
                cat3(
                    field,
                    " must be a non-empty relative path without . or .., got ",
                    debug_path(value).as_str(),
                ),
            ),
        );
    }
    Ok(())
}

/// What is wrong with a number that must not be zero.
pub open spec fn positive_flaw(path: Seq<char>, field: Seq<char>, value: u64) -> Option<
    AppErrorView,
> {
    if value > 0 {
        None
    } else {
        flaw(path, field + " must be greater than zero"@)
    }
}

/// Checks that a number is not zero.
pub fn validate_positive(path: &str, field: &str, value: u64) -> (result: Result<(), AppError>)
    ensures
        outcome(result) == checked(positive_flaw(path@, field@, value)),
{
    if value == 0 {
        return Err(config_error(path, cat2(field, " must be greater than zero")));
    }
    Ok(())
}

/// What is wrong with a path that must lead to a program.
pub open spec fn executable_flaw(
    path: Seq<char>,
    field: Seq<char>,
    value: Seq<char>,
    metadata: Metadata,
) -> Option<AppErrorView> {
    first_of(
        absolute_flaw(path, field, value),
        match metadata {
            Metadata::Missing { source } | Metadata::Failed { source } => Some(
                AppErrorView::FileSystem {
                    operation: "read metadata"@,
                    path: value,
                    source: source@,
                },
            ),
            Metadata::Found { kind, mode } => if kind is File && executable(mode) {
                None
            } else {
                flaw(path, field + " "@ + path_debug(value) + " must be an executable file"@)
            },
        },
    )
}

/// Checks that a path leads to a program, given what is known of it.
pub fn validate_executable(path: &str, field: &str, value: &str, metadata: &Metadata) -> (result:
    Result<(), AppError>)
    ensures
        outcome(result) == checked(executable_flaw(path@, field@, value@, *metadata)),
{
    match validate_absolute_path(path, field, value) {
        Err(error) => {
            return Err(error);
        },
        Ok(_) => {},
    }
    match metadata {
        Metadata::Missing { source } => Err(
            file_error("read metadata", value.to_owned(), source.clone()),
        ),
        Metadata::Failed { source } => Err(
            file_error("read metadata", value.to_owned(), source.clone()),
        ),
        Metadata::Found { kind, mode } => if *kind == FileKind::File && *mode & 0o111 != 0 {
            Ok(())
        } else {
            Err(
                config_error(
                    path,
                    cat4(field, " ", debug_path(value).as_str(), " must be an executable file"),
                ),
            )
        },
    }
}

/// What is wrong with a file that only its owner may read and write.
pub open spec fn private_flaw(
    config_path: Seq<char>,
    field: Seq<char>,
    path: Seq<char>,
    metadata: Metadata,
) -> Option<AppErrorView> {
    match metadata {
        Metadata::Missing { source } | Metadata::Failed { source } => Some(
            AppErrorView::FileSystem { operation: "read metadata"@, path, source: source@ },
        ),
        Metadata::Found { kind, mode } => if !(kind is File) {
            flaw(config_path, field + " "@ + path_debug(path) + " must be a regular file"@)
        } else if mode & 0o777 != 0o600 {
            flaw(
                config_path,
                field + " "@ + path_debug(path) + " must have mode 0600, got "@ + mode_octal(
                    (mode & 0o777) as nat,
                ),
            )
        } else {
            None
        },
    }
}

/// Checks that a file can only be read and written by its owner, given what is known of it.
pub fn validate_private_file(config_path: &str, field: &str, path: &str, metadata: &Metadata) -> (result:
    Result<(), AppError>)
    ensures
        outcome(result) == checked(private_flaw(config_path@, field@, path@, *metadata)),
{
    match metadata {
        Metadata::Missing { source } => Err(
            file_error("read metadata", path.to_owned(), source.clone()),
        ),
        Metadata::Failed { source } => Err(
            file_error("read metadata", path.to_owned(), source.clone()),
        ),
        Metadata::Found { kind, mode } => {
            if *kind != FileKind::File {
                return Err(
                    config_error(
                        config_path,
                        cat4(field, " ", debug_path(path).as_str(), " must be a regular file"),
                    ),
                );
            }
            let bits = permission_bits(*mode);
            if bits != 0o600 {
                return Err(
                    config_error(
                        config_path,
                        cat5(
                            field,
                            " ",
                            debug_path(path).as_str(),
                            " must have mode 0600, got ",
                            mode_octal_text(bits).as_str(),
                        ),
                    ),
                );
            }
            Ok(())
        },
    }
}

/// Whether an address is one of the machine itself.
pub open spec fn loopback(ip: IpAddress) -> bool {
    match ip {
        IpAddress::V4(octets) => octets@[0] == 127,
        IpAddress::V6(segments) => segments@ == seq![0u16, 0, 0, 0, 0, 0, 0, 1],
    }
}

fn is_loopback(ip: &IpAddress) -> (found: bool)
    ensures
        found == loopback(*ip),
{
    match ip {
        IpAddress::V4(octets) => octets[0] == 127,
        IpAddress::V6(segments) => {
            let found = segments[0] == 0 && segments[1] == 0 && segments[2] == 0 && segments[3] == 0
                && segments[4] == 0 && segments[5] == 0 && segments[6] == 0 && segments[7] == 1;
            assert(found ==> segments@ =~= seq![0u16, 0, 0, 0, 0, 0, 0, 1]);
            found
        },
    }
}

/// What is wrong with the address that the service listens on.
pub open spec fn listen_flaw(path: Seq<char>, address: ListenAddress) -> Option<AppErrorView> {
    if loopback(address.ip) {
        None
    } else {
        flaw(path, "listenAddress must use a loopback IP, got "@ + address.text@)
    }
}

/// What is wrong with the configuration of the service; the first of the faults, in the order of
/// its fields.
pub open spec fn global_flaw(path: Seq<char>, config: GlobalConfig, git: Metadata) -> Option<
    AppErrorView,
> {
    first_of(
        first_of(
            first_of(
                listen_flaw(path, config.listen_address),
                absolute_flaw(path, "databasePath"@, config.database_path@),
            ),
            first_of(
                absolute_flaw(path, "stateDirectory"@, config.state_directory@),
                absolute_flaw(path, "projectsDirectory"@, config.projects_directory@),
            ),
        ),
        first_of(
            first_of(
                first_of(
                    executable_flaw(path, "gitCommand"@, config.git_command@, git),
                    absolute_flaw(path, "cargoCommand"@, config.cargo_command@),
                ),
                first_of(
                    positive_flaw(path, "gitFetchAttempts"@, config.git_fetch_attempts as u64),
                    positive_flaw(
                        path,
                        "gitFetchRetryDelayMs"@,
                        config.git_fetch_retry_delay_ms,
                    ),
                ),
            ),
            first_of(
                first_of(
                    positive_flaw(path, "commandTimeoutSeconds"@, config.command_timeout_seconds),
                    positive_flaw(
                        path,
                        "maxWebhookBodyBytes"@,
                        config.max_webhook_body_bytes as u64,
                    ),
                ),
                positive_flaw(path, "workerPollIntervalMs"@, config.worker_poll_interval_ms),
            ),
        ),
    )
}

/// Checks the paths and the address of the configuration of the service.
fn validate_global_paths(path: &str, config: &GlobalConfig) -> (result: Result<(), AppError>)
    ensures
        outcome(result) == checked(
            first_of(
                first_of(
                    listen_flaw(path@, config.listen_address),
                    absolute_flaw(path@, "databasePath"@, config.database_path@),
                ),
                first_of(
                    absolute_flaw(path@, "stateDirectory"@, config.state_directory@),
                    absolute_flaw(path@, "projectsDirectory"@, config.projects_directory@),
                ),
            ),
        ),
{
    if !is_loopback(&config.listen_address.ip) {
        return Err(
            config_error(
                path,
                cat2(
                    "listenAddress must use a loopback IP, got ",
                    config.listen_address.text.as_str(),
                ),
            ),
        );
    }
    match validate_absolute_path(path, "databasePath", config.database_path.as_str()) {
        Err(error) => {
            return Err(error);
        },
        Ok(_) => {},
    }
    match validate_absolute_path(path, "stateDirectory", config.state_directory.as_str()) {
        Err(error) => {
            return Err(error);
        },
        Ok(_) => {},
    }
    validate_absolute_path(path, "projectsDirectory", config.projects_directory.as_str())
}

/// Checks the configuration of the service, given what is known of the Git program.
pub fn validate_global(path: &str, config: &GlobalConfig, git: &Metadata) -> (result: Result<
    (),
    AppError,
>)
    ensures
        outcome(result) == checked(global_flaw(path@, *config, *git)),
{
    match validate_global_paths(path, config) {
        Err(error) => {
            return Err(error);
        },
        Ok(_) => {},
    }
    match validate_executable(path, "gitCommand", config.git_command.as_str(), git) {
        Err(error) => {
            return Err(error);
        },
        Ok(_) => {},
    }
    match validate_absolute_path(path, "cargoCommand", config.cargo_command.as_str()) {
        Err(error) => {
            return Err(error);
        },
        Ok(_) => {},
    }
    match validate_positive(path, "gitFetchAttempts", config.git_fetch_attempts as u64) {
        Err(error) => {
            return Err(error);
        },
        Ok(_) => {},
    }
    match validate_positive(path, "gitFetchRetryDelayMs", config.git_fetch_retry_delay_ms) {
        Err(error) => {
            return Err(error);
        },
        Ok(_) => {},
    }
    match validate_positive(path, "commandTimeoutSeconds", config.command_timeout_seconds) {
        Err(error) => {
            return Err(error);
        },
        Ok(_) => {},
    }
    match validate_positive(path, "maxWebhookBodyBytes", config.max_webhook_body_bytes as u64) {
        Err(error) => {
            return Err(error);
        },
        Ok(_) => {},
    }
    validate_positive(path, "workerPollIntervalMs", config.worker_poll_interval_ms)
}

/// What is wrong with the place of the current link: it must be absolute, not the root, free of
/// `.` and `..`, and there must be nothing in it but a symbolic link.
pub open spec fn current_path_flaw(path: Seq<char>, value: Seq<char>, metadata: Metadata) -> Option<
    AppErrorView,
> {
    first_of(
        absolute_flaw(path, "currentPath"@, value),
        if same_parts(value, "/"@) || has_dots(value) {
            flaw(
                path,
                "currentPath must be a normalized absolute path other than /, got "@ + path_debug(
                    value,
                ),
            )
        } else {
            match metadata {
                Metadata::Found { kind, .. } => if kind is Symlink {
                    None
                } else {
                    flaw(
                        path,
                        "currentPath "@ + path_debug(value)
                            + " must be absent or a symbolic link"@,
                    )
                },
                Metadata::Missing { .. } => None,
                Metadata::Failed { source } => Some(
                    AppErrorView::FileSystem {
                        operation: "read symlink metadata"@,
                        path: value,
                        source: source@,
                    },
                ),
            }
        },
    )
}

/// Checks the place of the current link, given what is known of it without following links.
pub fn validate_current_path(path: &str, value: &str, metadata: &Metadata) -> (result: Result<
    (),
    AppError,
>)
    ensures
        outcome(result) == checked(current_path_flaw(path@, value@, *metadata)),
{
    match validate_absolute_path(path, "currentPath", value) {
        Err(error) => {
            return Err(error);
        },
        Ok(_) => {},
    }
    if same_path(value, "/") || contains_dots(value) {
        return Err(
            config_error(
                path,
                cat2(
                    "currentPath must be a normalized absolute path other than /, got ",
                    debug_path(value).as_str(),
                ),
            ),
        );
    }
    match metadata {
        Metadata::Found { kind: FileKind::Symlink, .. } => Ok(()),
        Metadata::Found { .. } => Err(
            config_error(
                path,
                cat3(
                    "currentPath ",
                    debug_path(value).as_str(),
                    " must be absent or a symbolic link",
                ),
            ),
        ),
        Metadata::Missing { .. } => Ok(()),
        Metadata::Failed { source } => Err(
            file_error("read symlink metadata", value.to_owned(), source.clone()),
        ),
    }
}

/// What is wrong with a full repository name.
pub open spec fn repository_flaw(path: Seq<char>, value: Seq<char>) -> Option<AppErrorView> {
    if repository_text(value) {
        None
    } else {
        flaw(path, "repositoryFullName "@ + str_debug(value) + " is invalid"@)
    }
}

/// Checks a full repository name.
pub fn validate_repository_full_name(path: &str, value: &str) -> (result: Result<(), AppError>)
    ensures
        outcome(result) == checked(repository_flaw(path@, value@)),
{
    if !is_repository_name(value) {
        return Err(
            config_error(
                path,
                cat3("repositoryFullName ", debug_text(value).as_str(), " is invalid"),
            ),
        );
    }
    Ok(())
}

/// What is wrong with the name of a package or program.
pub open spec fn name_flaw(path: Seq<char>, field: Seq<char>, value: Seq<char>) -> Option<
    AppErrorView,
> {
    if name_text(value) {
        None
    } else {
        flaw(path, field + " "@ + str_debug(value) + " is invalid"@)
    }
}

/// Checks the name of a package or program.
pub fn validate_name(path: &str, field: &str, value: &str) -> (result: Result<(), AppError>)
    ensures
        outcome(result) == checked(name_flaw(path@, field@, value@)),
{
    if !is_name(value) {
        return Err(
            config_error(path, cat4(field, " ", debug_text(value).as_str(), " is invalid")),
        );
    }
    Ok(())
}

/// The scheme of a URL and the URL as it is printed; or why a text is no URL.
pub uninterp spec fn url_parts(text: Seq<char>) -> Result<(Seq<char>, Seq<char>), Seq<char>>;

/// Calls `Url::parse` of reqwest, which is url's, then `Url::scheme` and its printing. The
/// contract names the result as a function of the text.
#[verifier::external_body]
fn parse_url(text: &str) -> (result: Result<(String, String), String>)
    ensures
        match result {
            Ok(parts) => url_parts(text@) == Ok::<(Seq<char>, Seq<char>), Seq<char>>(
                (parts.0@, parts.1@),
            ),
            Err(reason) => url_parts(text@) == Err::<(Seq<char>, Seq<char>), Seq<char>>(reason@),
        },
{
    match reqwest::Url::parse(text) {
        Ok(url) => Ok((url.scheme().to_owned(), url.to_string())),
        Err(error) => Err(error.to_string()),
    }
}

/// What is wrong with how releases are probed, given what the URL was parsed to.
pub open spec fn health_flaw(
    path: Seq<char>,
    config: HealthCheckConfig,
    url: Result<(Seq<char>, Seq<char>), Seq<char>>,
) -> Option<AppErrorView> {
    first_of(
        match url {
            Err(reason) => flaw(
                path,
                "healthCheck.url "@ + str_debug(config.url@) + " is invalid: "@ + reason,
            ),
            Ok(parts) => if parts.0 == "http"@ || parts.0 == "https"@ {
                None
            } else {
                flaw(
                    path,
                    "healthCheck.url must use http or https, got "@ + str_debug(config.url@),
                )
            },
        },
        first_of(
            positive_flaw(path, "healthCheck.attempts"@, config.attempts as u64),
            first_of(
                positive_flaw(path, "healthCheck.intervalMs"@, config.interval_ms),
                positive_flaw(path, "healthCheck.timeoutMs"@, config.timeout_ms),
            ),
        ),
    )
}

/// Whether releases are probed as a project file says, at the URL that was parsed.
pub open spec fn health_of(
    config: HealthCheckConfig,
    url: Result<(Seq<char>, Seq<char>), Seq<char>>,
    health: HealthCheck,
) -> bool {
    &&& url matches Ok(parts) && health.url@ == parts.1
    &&& health.attempts == config.attempts
    &&& health.interval_ms == config.interval_ms
    &&& health.timeout_ms == config.timeout_ms
}

/// How releases are probed, given what the URL was parsed to.
pub fn check_health_check(
    path: &str,
    config: HealthCheckConfig,
    url: Result<(String, String), String>,
) -> (result: Result<HealthCheck, AppError>)
    ensures
        match result {
            Ok(health) => {
                &&& health_flaw(path@, config, url_view(url)) is None
                &&& health_of(config, url_view(url), health)
            },
            Err(error) => health_flaw(path@, config, url_view(url)) == Some(error@),
        },
{
    let (scheme, text) = match url {
        Ok(parts) => parts,
        Err(reason) => {
            return Err(
                config_error(
                    path,
                    cat4(
                        "healthCheck.url ",
                        debug_text(config.url.as_str()).as_str(),
                        " is invalid: ",
                        reason.as_str(),
                    ),
                ),
            );
        },
    };
    if !text_eq(scheme.as_str(), "http") && !text_eq(scheme.as_str(), "https") {
        return Err(
            config_error(
                path,
                cat2(
                    "healthCheck.url must use http or https, got ",
                    debug_text(config.url.as_str()).as_str(),
                ),
            ),
        );
    }
    match validate_positive(path, "healthCheck.attempts", config.attempts as u64) {
        Err(error) => {
            return Err(error);
        },
        Ok(_) => {},
    }
    match validate_positive(path, "healthCheck.intervalMs", config.interval_ms) {
        Err(error) => {
            return Err(error);
        },
        Ok(_) => {},
    }
    match validate_positive(path, "healthCheck.timeoutMs", config.timeout_ms) {
        Err(error) => {
            return Err(error);
        },
        Ok(_) => {},
    }
    Ok(
        HealthCheck {
            url: text,
            attempts: config.attempts,
            interval_ms: config.interval_ms,
            timeout_ms: config.timeout_ms,
        },
    )
}

/// What a URL was parsed to, with the characters of its texts.
pub open spec fn url_view(url: Result<(String, String), String>) -> Result<
    (Seq<char>, Seq<char>),
    Seq<char>,
> {
    match url {
        Ok(parts) => Ok((parts.0@, parts.1@)),
        Err(reason) => Err(reason@),
    }
}

/// How releases are probed.
pub fn load_health_check(path: &str, config: HealthCheckConfig) -> (result: Result<
    HealthCheck,
    AppError,
>)
    ensures
        match result {
            Ok(health) => {
                &&& health_flaw(path@, config, url_parts(config.url@)) is None
                &&& health_of(config, url_parts(config.url@), health)
            },
            Err(error) => health_flaw(path@, config, url_parts(config.url@)) == Some(error@),
        },
{
    let url = parse_url(config.url.as_str());
    check_health_check(path, config, url)
}

/// What is wrong with a command: it needs a program, and none of its words may be empty or hold
/// control characters.
pub open spec fn command_flaw(path: Seq<char>, field: Seq<char>, command: Seq<Seq<char>>) -> Option<
    AppErrorView,
> {
    if command.len() == 0 {
        flaw(path, field + " must contain at least one argument"@)
    } else if exists|i: int|
        0 <= i < command.len() && ((#[trigger] command[i]).len() == 0 || has_control(command[i])) {
        flaw(
            path,
            field + " arguments must be non-empty and contain no control characters"@,
        )
    } else {
        None
    }
}

/// Whether a command has the words of a list.
pub open spec fn command_of(words: Seq<Seq<char>>, command: ConfiguredCommand) -> bool {
    words.len() > 0 && command.program@ == words[0] && command.args.deep_view()
        == words.drop_first()
}

/// The command with the words of a list.
pub fn load_command(path: &str, field: &str, command: &Vec<String>) -> (result: Result<
    ConfiguredCommand,
    AppError,
>)
    ensures
        match result {
            Ok(loaded) => command_flaw(path@, field@, command.deep_view()) is None && command_of(
                command.deep_view(),
                loaded,
            ),
            Err(error) => command_flaw(path@, field@, command.deep_view()) == Some(error@),
        },
{
    let ghost words = command.deep_view();
    if command.len() == 0 {
        return Err(config_error(path, cat2(field, " must contain at least one argument")));
    }
    let mut args: Vec<String> = Vec::new();
    let mut i: usize = 0;
    while i < command.len()
        invariant
            i <= command.len(),
            words == command.deep_view(),
            command.len() > 0,
            forall|j: int|
                0 <= j < i ==> (#[trigger] words[j]).len() > 0 && !has_control(words[j]),
            i == 0 ==> args.len() == 0,
            i > 0 ==> args.deep_view() == words.subrange(1, i as int),
        decreases command.len() - i,
    {
        let ghost before = args.deep_view();
        assert(words[i as int] == command[i as int]@);
        if command[i].as_str().is_empty() || contains_control(command[i].as_str()) {
            return Err(
                config_error(
                    path,
                    cat2(
                        field,
                        " arguments must be non-empty and contain no control characters",
                    ),
                ),
            );
        }
        if i > 0 {
            args.push(command[i].clone());
            assert(args.deep_view() =~= before.push(words[i as int]));
            assert(args.deep_view() =~= words.subrange(1, i + 1));
        } else {
            assert(args.deep_view() =~= words.subrange(1, 1));
        }
        i += 1;
    }
    assert(words.subrange(1, i as int) =~= words.drop_first());
    Ok(ConfiguredCommand { program: command[0].clone(), args })
}

/// The name of the field of an entry of a list.
pub open spec fn entry_field(field: Seq<char>, index: int, rest: Seq<char>) -> Seq<char> {
    field + "["@ + decimal(index as nat) + "]"@ + rest
}

fn entry_field_text(field: &str, index: usize, rest: &str) -> (text: String)
    ensures
        text@ == entry_field(field@, index as int, rest@),
{
    cat5(field, "[", decimal_text(index as u64).as_str(), "]", rest)
}

/// What is wrong with the first of some commands that is wrong.
pub open spec fn commands_flaw(path: Seq<char>, commands: Seq<Seq<Seq<char>>>) -> Option<
    AppErrorView,
>
    decreases commands.len(),
{
    if commands.len() == 0 {
        None
    } else {
        first_of(
            commands_flaw(path, commands.drop_last()),
            command_flaw(
                path,
                entry_field("reload.commands"@, commands.len() - 1, ""@),
                commands.last(),
            ),
        )
    }
}

/// What is wrong with the reload commands: where there are any, there is at least one.
pub open spec fn reload_flaw(path: Seq<char>, config: Option<Seq<Seq<Seq<char>>>>) -> Option<
    AppErrorView,
> {
    match config {
        None => None,
        Some(commands) => if commands.len() == 0 {
            flaw(path, "reload.commands must contain at least one command"@)
        } else {
            commands_flaw(path, commands)
        },
    }
}

/// Whether commands have the words of lists.
pub open spec fn commands_of(lists: Seq<Seq<Seq<char>>>, commands: Seq<ConfiguredCommand>) -> bool {
    &&& lists.len() == commands.len()
    &&& forall|i: int| 0 <= i < lists.len() ==> command_of(#[trigger] lists[i], commands[i])
}

proof fn commands_flaw_stops(path: Seq<char>, commands: Seq<Seq<Seq<char>>>, count: int)
    requires
        0 <= count <= commands.len(),
        commands_flaw(path, commands.take(count)) is Some,
    ensures
        commands_flaw(path, commands) == commands_flaw(path, commands.take(count)),
    decreases commands.len(),
{
    if count < commands.len() {
        assert(commands.drop_last().take(count) =~= commands.take(count));
        commands_flaw_stops(path, commands.drop_last(), count);
    } else {
        assert(commands.take(count) =~= commands);
    }
}

/// The reload commands.
pub fn load_reload(path: &str, config: &Option<Vec<Vec<String>>>) -> (result: Result<
    Vec<ConfiguredCommand>,
    AppError,
>)
    ensures
        match result {
            Ok(loaded) => reload_flaw(path@, config.deep_view()) is None && match config {
                Some(commands) => commands_of(commands.deep_view(), loaded@),
                None => loaded@.len() == 0,
            },
            Err(error) => reload_flaw(path@, config.deep_view()) == Some(error@),
        },
{
    let mut loaded: Vec<ConfiguredCommand> = Vec::new();
    match config {
        None => Ok(loaded),
        Some(commands) => {
            let ghost lists = commands.deep_view();
            if commands.len() == 0 {
                return Err(
                    config_error(
                        path,
                        "reload.commands must contain at least one command".to_owned(),
                    ),
                );
            }
            let mut i: usize = 0;
            assert(lists.take(0) =~= Seq::<Seq<Seq<char>>>::empty());
            while i < commands.len()
                invariant
                    i <= commands.len(),
                    lists == commands.deep_view(),
                    lists.len() > 0,
                    config.deep_view() == Some(lists),
                    commands_flaw(path@, lists.take(i as int)) is None,
                    commands_of(lists.take(i as int), loaded@),
                decreases commands.len() - i,
            {
                let ghost before = loaded@;
                assert(lists.take(i + 1).drop_last() =~= lists.take(i as int));
                assert(lists[i as int] == commands[i as int].deep_view());
                let field = entry_field_text("reload.commands", i, "");
                match load_command(path, field.as_str(), &commands[i]) {
                    Ok(command) => {
                        loaded.push(command);
                        assert forall|k: int| 0 <= k < i + 1 implies command_of(
                            #[trigger] lists.take(i + 1)[k],
                            loaded@[k],
                        ) by {
                            if k < i {
                                assert(command_of(lists.take(i as int)[k], before[k]));
                            }
                        }
                    },
                    Err(error) => {
                        proof {
                            commands_flaw_stops(path@, lists, i + 1);
                        }
                        return Err(error);
                    },
                }
                i += 1;
            }
            assert(lists.take(i as int) =~= lists);
            Ok(loaded)
        },
    }
}

/// What is wrong with the first of some programs that is wrong: its two names must be names, and
/// its program name must not have occurred before.
pub open spec fn binaries_flaw(path: Seq<char>, binaries: Seq<RustBinary>) -> Option<AppErrorView>
    decreases binaries.len(),
{
    if binaries.len() == 0 {
        None
    } else {
        let before = binaries.drop_last();
        let binary = binaries.last();
        let index = binaries.len() - 1;
        first_of(
            binaries_flaw(path, before),
            first_of(
                name_flaw(
                    path,
                    entry_field("deployment.binaries"@, index, ".package"@),
                    binary.package@,
                ),
                first_of(
                    name_flaw(
                        path,
                        entry_field("deployment.binaries"@, index, ".binary"@),
                        binary.binary@,
                    ),
                    if builds(before, binary.binary@) {
                        flaw(
                            path,
                            "deployment.binaries contains duplicate binary "@ + str_debug(
                                binary.binary@,
                            ),
                        )
                    } else {
                        None
                    },
                ),
            ),
        )
    }
}

/// Whether one of some programs has a name.
pub open spec fn builds(binaries: Seq<RustBinary>, name: Seq<char>) -> bool {
    exists|i: int| 0 <= i < binaries.len() && (#[trigger] binaries[i]).binary@ == name
}

fn has_binary(binaries: &Vec<RustBinary>, count: usize, name: &str) -> (found: bool)
    requires
        count <= binaries.len(),
    ensures
        found == builds(binaries@.take(count as int), name@),
{
    let mut i: usize = 0;
    while i < count
        invariant
            i <= count <= binaries.len(),
            forall|j: int|
                0 <= j < i ==> (#[trigger] binaries@.take(count as int)[j]).binary@ != name@,
        decreases count - i,
    {
        assert(binaries@.take(count as int)[i as int] == binaries[i as int]);
        if text_eq(binaries[i].binary.as_str(), name) {
            return true;
        }
        i += 1;
    }
    false
}

proof fn binaries_flaw_stops(path: Seq<char>, binaries: Seq<RustBinary>, count: int)
    requires
        0 <= count <= binaries.len(),
        binaries_flaw(path, binaries.take(count)) is Some,
    ensures
        binaries_flaw(path, binaries) == binaries_flaw(path, binaries.take(count)),
    decreases binaries.len(),
{
    if count < binaries.len() {
        assert(binaries.drop_last().take(count) =~= binaries.take(count));
        binaries_flaw_stops(path, binaries.drop_last(), count);
    } else {
        assert(binaries.take(count) =~= binaries);
    }
}

fn validate_binaries(path: &str, binaries: &Vec<RustBinary>) -> (result: Result<(), AppError>)
    ensures
        outcome(result) == checked(binaries_flaw(path@, binaries@)),
{
    let mut i: usize = 0;
    assert(binaries@.take(0) =~= Seq::<RustBinary>::empty());
    while i < binaries.len()
        invariant
            i <= binaries.len(),
            binaries_flaw(path@, binaries@.take(i as int)) is None,
        decreases binaries.len() - i,
    {
        assert(binaries@.take(i + 1).drop_last() =~= binaries@.take(i as int));
        let package_field = entry_field_text("deployment.binaries", i, ".package");
        match validate_name(path, package_field.as_str(), binaries[i].package.as_str()) {
            Err(error) => {
                proof {
                    binaries_flaw_stops(path@, binaries@, i + 1);
                }
                return Err(error);
            },
            Ok(_) => {},
        }
        let binary_field = entry_field_text("deployment.binaries", i, ".binary");
        match validate_name(path, binary_field.as_str(), binaries[i].binary.as_str()) {
            Err(error) => {
                proof {
                    binaries_flaw_stops(path@, binaries@, i + 1);
                }
                return Err(error);
            },
            Ok(_) => {},
        }
        if has_binary(binaries, i, binaries[i].binary.as_str()) {
            proof {
                binaries_flaw_stops(path@, binaries@, i + 1);
            }
            return Err(
                config_error(
                    path,
                    cat2(
                        "deployment.binaries contains duplicate binary ",
                        debug_text(binaries[i].binary.as_str()).as_str(),
                    ),
                ),
            );
        }
        i += 1;
    }
    assert(binaries@.take(i as int) =~= binaries@);
    Ok(())
}

/// Whether two paths overlap: one leads to or below the other.
pub open spec fn overlap(left: Seq<char>, right: Seq<char>) -> bool {
    under(left, right) || under(right, left)
}

/// Whether a path is that of one of some programs.
pub open spec fn program_path(binaries: Seq<RustBinary>, path: Seq<char>) -> bool {
    exists|i: int| 0 <= i < binaries.len() && same_parts(path, (#[trigger] binaries[i]).binary@)
}

/// Whether a path overlaps one of some paths.
pub open spec fn overlaps_one(paths: Seq<Seq<char>>, path: Seq<char>) -> bool {
    exists|i: int| 0 <= i < paths.len() && overlap(path, #[trigger] paths[i])
}

/// What is wrong with the first of some paths to copy that is wrong: it must lead below a
/// directory, must not be the path of a program, and must not overlap one before it.
pub open spec fn included_flaw(
    path: Seq<char>,
    include_paths: Seq<Seq<char>>,
    binaries: Seq<RustBinary>,
) -> Option<AppErrorView>
    decreases include_paths.len(),
{
    if include_paths.len() == 0 {
        None
    } else {
        let before = include_paths.drop_last();
        let included = include_paths.last();
        first_of(
            included_flaw(path, before, binaries),
            first_of(
                relative_flaw(
                    path,
                    entry_field("deployment.includePaths"@, include_paths.len() - 1, ""@),
                    included,
                ),
                if program_path(binaries, included) {
                    flaw(
                        path,
                        "deployment.includePaths entry "@ + path_debug(included)
                            + " conflicts with a binary destination"@,
                    )
                } else if overlaps_one(before, included) {
                    flaw(
                        path,
                        "deployment.includePaths entry "@ + path_debug(included)
                            + " overlaps another included path"@,
                    )
                } else {
                    None
                },
            ),
        )
    }
}

proof fn included_flaw_stops(
    path: Seq<char>,
    include_paths: Seq<Seq<char>>,
    binaries: Seq<RustBinary>,
    count: int,
)
    requires
        0 <= count <= include_paths.len(),
        included_flaw(path, include_paths.take(count), binaries) is Some,
    ensures
        included_flaw(path, include_paths, binaries) == included_flaw(
            path,
            include_paths.take(count),
            binaries,
        ),
    decreases include_paths.len(),
{
    if count < include_paths.len() {
        assert(include_paths.drop_last().take(count) =~= include_paths.take(count));
        included_flaw_stops(path, include_paths.drop_last(), binaries, count);
    } else {
        assert(include_paths.take(count) =~= include_paths);
    }
}

fn is_program_path(binaries: &Vec<RustBinary>, path: &str) -> (found: bool)
    ensures
        found == program_path(binaries@, path@),
{
    let mut i: usize = 0;
    while i < binaries.len()
        invariant
            i <= binaries.len(),
            forall|j: int|
                0 <= j < i ==> !same_parts(path@, (#[trigger] binaries@[j]).binary@),
        decreases binaries.len() - i,
    {
        if same_path(path, binaries[i].binary.as_str()) {
            return true;
        }
        i += 1;
    }
    false
}

fn overlaps_earlier(paths: &Vec<String>, index: usize) -> (found: bool)
    requires
        index < paths.len(),
    ensures
        found == overlaps_one(paths.deep_view().take(index as int), paths[index as int]@),
{
    let ghost earlier = paths.deep_view().take(index as int);
    let mut i: usize = 0;
    while i < index
        invariant
            i <= index < paths.len(),
            earlier == paths.deep_view().take(index as int),
            forall|j: int| 0 <= j < i ==> !overlap(paths[index as int]@, #[trigger] earlier[j]),
        decreases index - i,
    {
        assert(earlier[i as int] == paths[i as int]@);
        if starts_with(paths[index].as_str(), paths[i].as_str()) || starts_with(
            paths[i].as_str(),
            paths[index].as_str(),
        ) {
            return true;
        }
        i += 1;
    }
    false
}

/// Checks the paths that a release is to hold beside its programs.
pub fn validate_include_paths(path: &str, include_paths: &Vec<String>, binaries: &Vec<RustBinary>) -> (result:
    Result<(), AppError>)
    ensures
        outcome(result) == checked(included_flaw(path@, include_paths.deep_view(), binaries@)),
{
    let ghost all = include_paths.deep_view();
    let mut i: usize = 0;
    assert(all.take(0) =~= Seq::<Seq<char>>::empty());
    while i < include_paths.len()
        invariant
            i <= include_paths.len(),
            all == include_paths.deep_view(),
            included_flaw(path@, all.take(i as int), binaries@) is None,
        decreases include_paths.len() - i,
    {
        assert(all.take(i + 1).drop_last() =~= all.take(i as int));
        assert(all[i as int] == include_paths[i as int]@);
        let included = include_paths[i].as_str();
        let field = entry_field_text("deployment.includePaths", i, "");
        match validate_relative_path(path, field.as_str(), included) {
            Err(error) => {
                proof {
                    included_flaw_stops(path@, all, binaries@, i + 1);
                }
                return Err(error);
            },
            Ok(_) => {},
        }
        if is_program_path(binaries, included) {
            proof {
                included_flaw_stops(path@, all, binaries@, i + 1);
            }
            return Err(
                config_error(
                    path,
                    cat3(
                        "deployment.includePaths entry ",
                        debug_path(included).as_str(),
                        " conflicts with a binary destination",
                    ),
                ),
            );
        }
        if overlaps_earlier(include_paths, i) {
            proof {
                included_flaw_stops(path@, all, binaries@, i + 1);
            }
            return Err(
                config_error(
                    path,
                    cat3(
                        "deployment.includePaths entry ",
                        debug_path(included).as_str(),
                        " overlaps another included path",
                    ),
                ),
            );
        }
        i += 1;
    }
    assert(all.take(i as int) =~= all);
    Ok(())
}

/// What is wrong with what a release is made of, given what is known of the environment file that
/// it names, where it names one.
pub open spec fn deployment_flaw(
    path: Seq<char>,
    config: DeploymentConfig,
    environment: EnvironmentSource,
) -> Option<AppErrorView> {
    match config {
        DeploymentConfig::Static { entry_file } => relative_flaw(
            path,
            "deployment.entryFile"@,
            entry_file@,
        ),
        DeploymentConfig::Binary { binary_path } => relative_flaw(
            path,
            "deployment.binaryPath"@,
            binary_path@,
        ),
        DeploymentConfig::Rust { cargo_manifest, binaries, include_paths, environment_file } => first_of(
            relative_flaw(path, "deployment.cargoManifest"@, cargo_manifest@),
            first_of(
                if binaries@.len() == 0 {
                    flaw(path, "deployment.binaries must contain at least one binary"@)
                } else {
                    binaries_flaw(path, binaries@)
                },
                first_of(
                    included_flaw(path, include_paths.deep_view(), binaries@),
                    match environment_file {
                        None => None,
                        Some(file) => first_of(
                            absolute_flaw(path, "deployment.environmentFile"@, file@),
                            environment_flaw(file@, environment),
                        ),
                    },
                ),
            ),
        ),
    }
}

/// What a release is made of, as a project file says it.
pub open spec fn target_of(config: DeploymentConfig) -> DeploymentTarget {
    match config {
        DeploymentConfig::Static { entry_file } => DeploymentTarget::Static { entry_file },
        DeploymentConfig::Binary { binary_path } => DeploymentTarget::Binary { binary_path },
        DeploymentConfig::Rust { cargo_manifest, binaries, include_paths, environment_file }
        => DeploymentTarget::Rust { cargo_manifest, binaries, include_paths, environment_file },
    }
}

/// What a release is made of, given what is known of the environment file that it names, where it
/// names one: that file must load.
pub fn load_deployment(path: &str, config: DeploymentConfig, environment: EnvironmentSource) -> (result:
    Result<DeploymentTarget, AppError>)
    ensures
        match result {
            Ok(target) => deployment_flaw(path@, config, environment) is None && target
                == target_of(config),
            Err(error) => deployment_flaw(path@, config, environment) == Some(error@),
        },
{
    match config {
        DeploymentConfig::Static { entry_file } => {
            match validate_relative_path(path, "deployment.entryFile", entry_file.as_str()) {
                Err(error) => Err(error),
                Ok(_) => Ok(DeploymentTarget::Static { entry_file }),
            }
        },
        DeploymentConfig::Binary { binary_path } => {
            match validate_relative_path(path, "deployment.binaryPath", binary_path.as_str()) {
                Err(error) => Err(error),
                Ok(_) => Ok(DeploymentTarget::Binary { binary_path }),
            }
        },
        DeploymentConfig::Rust { cargo_manifest, binaries, include_paths, environment_file } => {
            match validate_relative_path(path, "deployment.cargoManifest", cargo_manifest.as_str()) {
                Err(error) => {
                    return Err(error);
                },
                Ok(_) => {},
            }
            if binaries.len() == 0 {
                return Err(
                    config_error(
                        path,
                        "deployment.binaries must contain at least one binary".to_owned(),
                    ),
                );
            }
            match validate_binaries(path, &binaries) {
                Err(error) => {
                    return Err(error);
                },
                Ok(_) => {},
            }
            match validate_include_paths(path, &include_paths, &binaries) {
                Err(error) => {
                    return Err(error);
                },
                Ok(_) => {},
            }
            match &environment_file {
                Some(file) => {
                    match validate_absolute_path(path, "deployment.environmentFile", file.as_str()) {
                        Err(error) => {
                            return Err(error);
                        },
                        Ok(_) => {},
                    }
                    match load_environment_file(file.as_str(), environment) {
                        Err(error) => {
                            return Err(error);
                        },
                        Ok(_) => {},
                    }
                },
                None => {},
            }
            Ok(
                DeploymentTarget::Rust {
                    cargo_manifest,
                    binaries,
                    include_paths,
                    environment_file,
                },
            )
        },
    }
}

} // verus!
