//! Projects and the whole configuration, from what their files hold.
use vstd::prelude::*;

#[allow(unused_imports)]
use crate::config::load::{
    checked, command_flaw, command_of, commands_of, current_path_flaw, deployment_flaw,
    executable_flaw, first_of, flaw, global_flaw, health_flaw, health_of, private_flaw,
    reload_flaw, repository_flaw, target_of, url_parts,
};
use crate::config::load::{
    load_command, load_deployment, load_health_check, load_reload, validate_current_path,
    validate_executable, validate_global, validate_private_file, validate_repository_full_name,
    ProjectConfig,
};
use crate::config::{
    ConfiguredCommand, DeploymentTarget, GlobalConfig, LoadedConfig, Project, SecretString,
};
use crate::environment::EnvironmentSource;
use crate::error::{config_error, file_error, AppError};
#[allow(unused_imports)]
use crate::error::{outcome, AppErrorView};
#[allow(unused_imports)]
use crate::path::{
    parts, parts_less, path_debug, path_order_is_total, path_order_is_transitive, same_parts,
    toml_file,
};
use crate::path::{debug_path, is_toml_file, path_precedes, same_path};
use crate::pattern::{invalid_pattern, is_project_id};
#[allow(unused_imports)]
use crate::pattern::{pattern_error, project_id_text};
use crate::release::Metadata;
#[allow(unused_imports)]
use crate::text::{has_control, str_debug};
use crate::text::{cat2, cat3, cat4, contains_control, debug_text, text_eq};

verus! {

/// What the text of a project file came to.
#[derive(Debug)]
pub enum ProjectText {
    /// It could not be read.
    Unreadable { source: String },
    /// It is not of the form of a project file.
    Malformed { source: String },
    /// What it says.
    Parsed(ProjectConfig),
}

/// A project file with what is known of it and of the paths that it names: the place of the
/// current link, without following links, and the environment file, where it names one.
#[derive(Debug)]
pub struct ProjectSource {
    pub path: String,
    pub metadata: Metadata,
    pub text: ProjectText,
    pub current: Metadata,
    pub environment: EnvironmentSource,
}

/// The project files of a directory, or why they could not be listed.
#[derive(Debug)]
pub enum Listing {
    /// The directory could not be opened.
    Unreadable { source: String },
    /// An entry of the directory could not be read.
    EntryUnreadable { source: String },
    /// The files.
    Sources(Vec<ProjectSource>),
}

/// What is wrong with a project identifier.
pub open spec fn project_id_flaw(path: Seq<char>, value: Seq<char>) -> Option<AppErrorView> {
    if project_id_text(value) {
        None
    } else {
        flaw(path, "projectId "@ + str_debug(value) + " is invalid"@)
    }
}

/// What is wrong with a text that must hold something printable.
pub open spec fn printable_flaw(path: Seq<char>, field: Seq<char>, value: Seq<char>) -> Option<
    AppErrorView,
> {
    if value.len() == 0 || has_control(value) {
        flaw(path, field + " must be non-empty and contain no control characters"@)
    } else {
        None
    }
}

fn validate_printable(path: &str, field: &str, value: &str) -> (result: Result<(), AppError>)
    ensures
        outcome(result) == checked(printable_flaw(path@, field@, value@)),
{
    if value.is_empty() || contains_control(value) {
        return Err(
            config_error(
                path,
                cat2(field, " must be non-empty and contain no control characters"),
            ),
        );
    }
    Ok(())
}

/// Whether a pattern must match a whole text: it begins with `^` and ends with `$`.
pub open spec fn anchored(pattern: Seq<char>) -> bool {
    pattern.len() > 0 && pattern[0] == '^' && pattern.last() == '$'
}

/// What is wrong with the pattern of tags, given why it is no regular expression, if it is none.
pub open spec fn tag_pattern_flaw(
    path: Seq<char>,
    pattern: Seq<char>,
    invalid: Option<Seq<char>>,
) -> Option<AppErrorView> {
    if !anchored(pattern) {
        flaw(path, "tagPattern must be anchored with ^ and $"@)
    } else {
        match invalid {
            Some(reason) => flaw(
                path,
                "tagPattern "@ + str_debug(pattern) + " is invalid: "@ + reason,
            ),
            None => None,
        }
    }
}

/// Checks the pattern of tags, given why it is no regular expression, if it is none.
pub fn validate_tag_pattern(path: &str, pattern: &str, invalid: Option<String>) -> (result: Result<
    (),
    AppError,
>)
    ensures
        outcome(result) == checked(tag_pattern_flaw(path@, pattern@, invalid.deep_view())),
{
    let length: usize = pattern.unicode_len();
    if length == 0 || pattern.get_char(0) != '^' || pattern.get_char(length - 1) != '$' {
        return Err(config_error(path, "tagPattern must be anchored with ^ and $".to_owned()));
    }
    match invalid {
        Some(reason) => Err(
            config_error(
                path,
                cat4(
                    "tagPattern ",
                    debug_text(pattern).as_str(),
                    " is invalid: ",
                    reason.as_str(),
                ),
            ),
        ),
        None => Ok(()),
    }
}

/// What is wrong with the migration command, where there is one.
pub open spec fn migration_flaw(path: Seq<char>, migration: Option<Seq<Seq<char>>>) -> Option<
    AppErrorView,
> {
    match migration {
        Some(command) => command_flaw(path, "migration.command"@, command),
        None => None,
    }
}

/// What is wrong with the names, texts and numbers of a project; the first of the faults, in the
/// order in which they are looked for.
pub open spec fn identity_flaw(path: Seq<char>, config: ProjectConfig, current: Metadata) -> Option<
    AppErrorView,
> {
    first_of(
        first_of(
            project_id_flaw(path, config.project_id@),
            current_path_flaw(path, config.current_path@, current),
        ),
        first_of(
            first_of(
                repository_flaw(path, config.repository_full_name@),
                printable_flaw(path, "repositoryUrl"@, config.repository_url@),
            ),
            first_of(
                printable_flaw(path, "webhookToken"@, config.webhook_token@),
                first_of(
                    tag_pattern_flaw(
                        path,
                        config.tag_pattern@,
                        pattern_error(config.tag_pattern@),
                    ),
                    if config.retain_releases == 0 {
                        flaw(path, "retainReleases must be greater than zero"@)
                    } else {
                        None
                    },
                ),
            ),
        ),
    )
}

/// What is wrong with a project; the first of the faults, in the order in which they are looked
/// for.
pub open spec fn project_flaw(
    path: Seq<char>,
    config: ProjectConfig,
    current: Metadata,
    environment: EnvironmentSource,
) -> Option<AppErrorView> {
    first_of(
        identity_flaw(path, config, current),
        first_of(
            health_flaw(path, config.health_check, url_parts(config.health_check.url@)),
            first_of(
                deployment_flaw(path, config.deployment, environment),
                first_of(
                    migration_flaw(path, config.migration.deep_view()),
                    reload_flaw(path, config.reload.deep_view()),
                ),
            ),
        ),
    )
}

/// Whether a project is what a project file says.
pub open spec fn project_of(path: Seq<char>, config: ProjectConfig, project: Project) -> bool {
    &&& project.config_path@ == path
    &&& project.project_id == config.project_id
    &&& project.current_path == config.current_path
    &&& project.repository_full_name == config.repository_full_name
    &&& project.repository_url == config.repository_url
    &&& project.webhook_token@ == config.webhook_token@
    &&& project.tag_pattern == config.tag_pattern
    &&& project.retain_releases == config.retain_releases
    &&& health_of(
        config.health_check,
        url_parts(config.health_check.url@),
        project.health_check,
    )
    &&& project.deployment == target_of(config.deployment)
    &&& match (config.migration, project.migration) {
        (Some(words), Some(command)) => command_of(words.deep_view(), command),
        (None, None) => true,
        _ => false,
    }
    &&& match config.reload {
        Some(commands) => commands_of(commands.deep_view(), project.reload@),
        None => project.reload@.len() == 0,
    }
}

/// What is wrong with a project file.
pub open spec fn source_flaw(source: ProjectSource) -> Option<AppErrorView> {
    first_of(
        private_flaw(source.path@, "projectConfig"@, source.path@, source.metadata),
        match source.text {
            ProjectText::Unreadable { source: reason } => Some(
                AppErrorView::FileSystem {
                    operation: "read"@,
                    path: source.path@,
                    source: reason@,
                },
            ),
            ProjectText::Malformed { source: reason } => flaw(source.path@, reason@),
            ProjectText::Parsed(config) => project_flaw(
                source.path@,
                config,
                source.current,
                source.environment,
            ),
        },
    )
}

fn validate_identity(path: &str, config: &ProjectConfig, current: &Metadata) -> (result: Result<
    (),
    AppError,
>)
    ensures
        outcome(result) == checked(identity_flaw(path@, *config, *current)),
{
    if !is_project_id(config.project_id.as_str()) {
        return Err(
            config_error(
                path,
                cat3("projectId ", debug_text(config.project_id.as_str()).as_str(), " is invalid"),
            ),
        );
    }
    match validate_current_path(path, config.current_path.as_str(), current) {
        Err(error) => {
            return Err(error);
        },
        Ok(_) => {},
    }
    match validate_repository_full_name(path, config.repository_full_name.as_str()) {
        Err(error) => {
            return Err(error);
        },
        Ok(_) => {},
    }
    match validate_printable(path, "repositoryUrl", config.repository_url.as_str()) {
        Err(error) => {
            return Err(error);
        },
        Ok(_) => {},
    }
    match validate_printable(path, "webhookToken", config.webhook_token.as_str()) {
        Err(error) => {
            return Err(error);
        },
        Ok(_) => {},
    }
    let invalid = invalid_pattern(config.tag_pattern.as_str());
    match validate_tag_pattern(path, config.tag_pattern.as_str(), invalid) {
        Err(error) => {
            return Err(error);
        },
        Ok(_) => {},
    }
    if config.retain_releases == 0 {
        return Err(config_error(path, "retainReleases must be greater than zero".to_owned()));
    }
    Ok(())
}

/// The project that a project file says, given what is known of it and of the paths it names.
pub fn load_project(source: ProjectSource) -> (result: Result<Project, AppError>)
    ensures
        match result {
            Ok(project) => source_flaw(source) is None && match source.text {
                ProjectText::Parsed(config) => project_of(source.path@, config, project),
                _ => false,
            },
            Err(error) => source_flaw(source) == Some(error@),
        },
{
    let ProjectSource { path, metadata, text, current, environment } = source;
    match validate_private_file(path.as_str(), "projectConfig", path.as_str(), &metadata) {
        Err(error) => {
            return Err(error);
        },
        Ok(_) => {},
    }
    let config = match text {
        ProjectText::Unreadable { source } => {
            return Err(file_error("read", path, source));
        },
        ProjectText::Malformed { source } => {
            return Err(config_error(path.as_str(), source));
        },
        ProjectText::Parsed(config) => config,
    };
    match validate_identity(path.as_str(), &config, &current) {
        Err(error) => {
            return Err(error);
        },
        Ok(_) => {},
    }
    let health_check = match load_health_check(path.as_str(), config.health_check) {
        Err(error) => {
            return Err(error);
        },
        Ok(health_check) => health_check,
    };
    let deployment = match load_deployment(path.as_str(), config.deployment, environment) {
        Err(error) => {
            return Err(error);
        },
        Ok(deployment) => deployment,
    };
    let migration: Option<ConfiguredCommand> = match &config.migration {
        Some(command) => match load_command(path.as_str(), "migration.command", command) {
            Err(error) => {
                return Err(error);
            },
            Ok(command) => Some(command),
        },
        None => None,
    };
    let reload = match load_reload(path.as_str(), &config.reload) {
        Err(error) => {
            return Err(error);
        },
        Ok(reload) => reload,
    };
    Ok(
        Project {
            config_path: path,
            project_id: config.project_id,
            current_path: config.current_path,
            repository_full_name: config.repository_full_name,
            repository_url: config.repository_url,
            webhook_token: SecretString::new(config.webhook_token),
            tag_pattern: config.tag_pattern,
            retain_releases: config.retain_releases,
            health_check,
            deployment,
            migration,
            reload,
        },
    )
}

/// The identifier of a project and the place of its current link.
pub struct Place {
    pub project_id: Seq<char>,
    pub current_path: Seq<char>,
}

/// The identifier and the place that a project file names.
pub open spec fn place_of(source: ProjectSource) -> Place {
    match source.text {
        ProjectText::Parsed(config) => Place {
            project_id: config.project_id@,
            current_path: config.current_path@,
        },
        _ => Place { project_id: Seq::empty(), current_path: Seq::empty() },
    }
}

/// The first of some places where the current link is at a path.
pub open spec fn path_holder(places: Seq<Place>, path: Seq<char>) -> Option<Seq<char>>
    decreases places.len(),
{
    if places.len() == 0 {
        None
    } else {
        match path_holder(places.drop_last(), path) {
            Some(project_id) => Some(project_id),
            None => if same_parts(places.last().current_path, path) {
                Some(places.last().project_id)
            } else {
                None
            },
        }
    }
}

/// Whether one of some projects has an identifier.
pub open spec fn id_used(places: Seq<Place>, project_id: Seq<char>) -> bool {
    exists|i: int| 0 <= i < places.len() && (#[trigger] places[i]).project_id == project_id
}

/// What is wrong with a project beside others: no two may share a current link or an identifier.
pub open spec fn conflict(path: Seq<char>, places: Seq<Place>, place: Place) -> Option<
    AppErrorView,
> {
    match path_holder(places, place.current_path) {
        Some(project_id) => flaw(
            path,
            "currentPath "@ + path_debug(place.current_path) + " is already used by project "@
                + str_debug(project_id),
        ),
        None => if id_used(places, place.project_id) {
            flaw(path, "duplicate projectId "@ + str_debug(place.project_id))
        } else {
            None
        },
    }
}

/// The identifiers and places of project files.
pub open spec fn places(sources: Seq<ProjectSource>) -> Seq<Place> {
    sources.map_values(|source: ProjectSource| place_of(source))
}

/// What is wrong with the first project file that is wrong, by itself or beside those before it.
pub open spec fn sources_flaw(sources: Seq<ProjectSource>) -> Option<AppErrorView>
    decreases sources.len(),
{
    if sources.len() == 0 {
        None
    } else {
        first_of(
            sources_flaw(sources.drop_last()),
            first_of(
                source_flaw(sources.last()),
                conflict(
                    sources.last().path@,
                    places(sources.drop_last()),
                    place_of(sources.last()),
                ),
            ),
        )
    }
}

/// Whether a project file says that its project is built from source.
pub open spec fn from_source(source: ProjectSource) -> bool {
    source.text matches ProjectText::Parsed(config) && config.deployment is Rust
}

/// Whether one of some project files says that its project is built from source.
pub open spec fn any_from_source(sources: Seq<ProjectSource>) -> bool {
    exists|i: int| 0 <= i < sources.len() && from_source(#[trigger] sources[i])
}

/// What is wrong with a configuration.
pub open spec fn config_flaw(
    path: Seq<char>,
    global: GlobalConfig,
    git: Metadata,
    listing: Listing,
    cargo: Metadata,
) -> Option<AppErrorView> {
    first_of(
        global_flaw(path, global, git),
        match listing {
            Listing::Unreadable { source } => Some(
                AppErrorView::FileSystem {
                    operation: "read directory"@,
                    path: global.projects_directory@,
                    source: source@,
                },
            ),
            Listing::EntryUnreadable { source } => Some(
                AppErrorView::FileSystem {
                    operation: "read directory entry"@,
                    path: global.projects_directory@,
                    source: source@,
                },
            ),
            Listing::Sources(sources) => first_of(
                sources_flaw(sources@),
                if any_from_source(sources@) {
                    executable_flaw(path, "cargoCommand"@, global.cargo_command@, cargo)
                } else {
                    None
                },
            ),
        },
    )
}

/// Whether projects are what project files say.
pub open spec fn projects_of(sources: Seq<ProjectSource>, projects: Seq<Project>) -> bool {
    &&& sources.len() == projects.len()
    &&& forall|i: int|
        0 <= i < sources.len() ==> match (#[trigger] sources[i]).text {
            ProjectText::Parsed(config) => project_of(sources[i].path@, config, projects[i]),
            _ => false,
        }
}

fn find_place(projects: &Vec<Project>, path: &str, Ghost(known): Ghost<Seq<Place>>) -> (found: Option<
    usize,
>)
    requires
        known.len() == projects.len(),
        forall|i: int|
            0 <= i < known.len() ==> (#[trigger] known[i]).project_id == projects[i].project_id@
                && known[i].current_path == projects[i].current_path@,
    ensures
        match found {
            Some(i) => i < projects.len() && path_holder(known, path@) == Some(
                projects[i as int].project_id@,
            ),
            None => path_holder(known, path@) is None,
        },
{
    let mut i: usize = 0;
    assert(known.take(0) =~= Seq::<Place>::empty());
    while i < projects.len()
        invariant
            i <= projects.len(),
            known.len() == projects.len(),
            forall|k: int|
                0 <= k < known.len() ==> (#[trigger] known[k]).project_id
                    == projects[k].project_id@ && known[k].current_path
                    == projects[k].current_path@,
            path_holder(known.take(i as int), path@) is None,
        decreases projects.len() - i,
    {
        assert(known.take(i + 1).drop_last() =~= known.take(i as int));
        if same_path(projects[i].current_path.as_str(), path) {
            proof {
                path_holder_stays(known, path@, i + 1);
            }
            return Some(i);
        }
        i += 1;
    }
    assert(known.take(i as int) =~= known);
    None
}

proof fn path_holder_stays(places: Seq<Place>, path: Seq<char>, count: int)
    requires
        0 <= count <= places.len(),
        path_holder(places.take(count), path) is Some,
    ensures
        path_holder(places, path) == path_holder(places.take(count), path),
    decreases places.len(),
{
    if count < places.len() {
        assert(places.drop_last().take(count) =~= places.take(count));
        path_holder_stays(places.drop_last(), path, count);
    } else {
        assert(places.take(count) =~= places);
    }
}

proof fn sources_flaw_stops(sources: Seq<ProjectSource>, count: int)
    requires
        0 <= count <= sources.len(),
        sources_flaw(sources.take(count)) is Some,
    ensures
        sources_flaw(sources) == sources_flaw(sources.take(count)),
    decreases sources.len(),
{
    if count < sources.len() {
        assert(sources.drop_last().take(count) =~= sources.take(count));
        sources_flaw_stops(sources.drop_last(), count);
    } else {
        assert(sources.take(count) =~= sources);
    }
}

fn has_id(projects: &Vec<Project>, project_id: &str, Ghost(known): Ghost<Seq<Place>>) -> (found: bool)
    requires
        known.len() == projects.len(),
        forall|i: int|
            0 <= i < known.len() ==> (#[trigger] known[i]).project_id == projects[i].project_id@,
    ensures
        found == id_used(known, project_id@),
{
    let mut i: usize = 0;
    while i < projects.len()
        invariant
            i <= projects.len(),
            known.len() == projects.len(),
            forall|k: int|
                0 <= k < known.len() ==> (#[trigger] known[k]).project_id
                    == projects[k].project_id@,
            forall|k: int| 0 <= k < i ==> (#[trigger] known[k]).project_id != project_id@,
        decreases projects.len() - i,
    {
        if text_eq(projects[i].project_id.as_str(), project_id) {
            assert(known[i as int].project_id == project_id@);
            return true;
        }
        i += 1;
    }
    false
}

/// Whether no two projects share an identifier or a current link.
pub open spec fn projects_distinct(projects: Seq<Project>) -> bool {
    forall|i: int, j: int|
        0 <= i < j < projects.len() ==> (#[trigger] projects[i]).project_id@ != (
        #[trigger] projects[j]).project_id@ && !same_parts(
            projects[i].current_path@,
            projects[j].current_path@,
        )
}

proof fn no_holder(places: Seq<Place>, path: Seq<char>, i: int)
    requires
        path_holder(places, path) is None,
        0 <= i < places.len(),
    ensures
        !same_parts(places[i].current_path, path),
    decreases places.len(),
{
    if i < places.len() - 1 {
        no_holder(places.drop_last(), path, i);
    }
}

proof fn valid_sources_are_distinct(sources: Seq<ProjectSource>, projects: Seq<Project>)
    requires
        sources_flaw(sources) is None,
        projects_of(sources, projects),
    ensures
        projects_distinct(projects),
    decreases sources.len(),
{
    if sources.len() > 0 {
        let before = sources.drop_last();
        let earlier = projects.drop_last();
        assert(projects_of(before, earlier)) by {
            assert forall|i: int| 0 <= i < before.len() implies match (#[trigger] before[i]).text {
                ProjectText::Parsed(config) => project_of(before[i].path@, config, earlier[i]),
                _ => false,
            } by {
                assert(before[i] == sources[i]);
            }
        }
        valid_sources_are_distinct(before, earlier);
        let last = sources.len() - 1;
        assert(sources[last] == sources.last());
        assert forall|i: int, j: int| 0 <= i < j < projects.len() implies (
        #[trigger] projects[i]).project_id@ != (#[trigger] projects[j]).project_id@ && !same_parts(
            projects[i].current_path@,
            projects[j].current_path@,
        ) by {
            if j < last {
                assert(projects[i] == earlier[i] && projects[j] == earlier[j]);
            } else {
                let known = places(before);
                assert(before[i] == sources[i]);
                assert(known[i] == place_of(sources[i]));
                no_holder(known, place_of(sources.last()).current_path, i);
                assert(!id_used(known, place_of(sources.last()).project_id));
                assert(known[i].project_id == projects[i].project_id@);
            }
        }
    }
}

/// The configuration, from what its files hold, given what is known of the Git and Cargo
/// programs. Cargo is looked at only where a project is built from source.
pub fn load_config(
    path: &str,
    global: GlobalConfig,
    git: Metadata,
    listing: Listing,
    cargo: Metadata,
) -> (result: Result<LoadedConfig, AppError>)
    ensures
        match result {
            Ok(config) => {
                &&& config_flaw(path@, global, git, listing, cargo) is None
                &&& config.global == global
                &&& match listing {
                    Listing::Sources(sources) => projects_of(sources@, config.projects@),
                    _ => false,
                }
                &&& projects_distinct(config.projects@)
            },
            Err(error) => config_flaw(path@, global, git, listing, cargo) == Some(error@),
        },
{
    match validate_global(path, &global, &git) {
        Err(error) => {
            return Err(error);
        },
        Ok(_) => {},
    }
    let sources = match listing {
        Listing::Unreadable { source } => {
            return Err(
                file_error("read directory", global.projects_directory.clone(), source),
            );
        },
        Listing::EntryUnreadable { source } => {
            return Err(
                file_error("read directory entry", global.projects_directory.clone(), source),
            );
        },
        Listing::Sources(sources) => sources,
    };
    let (projects, rust) = match load_projects(sources) {
        Err(error) => {
            return Err(error);
        },
        Ok(loaded) => loaded,
    };
    if rust {
        match validate_executable(path, "cargoCommand", global.cargo_command.as_str(), &cargo) {
            Err(error) => {
                return Err(error);
            },
            Ok(_) => {},
        }
    }
    proof {
        valid_sources_are_distinct(sources@, projects@);
    }
    Ok(LoadedConfig { global, projects })
}

/// The projects of project files, and whether one of them is built from source.
fn load_projects(sources: Vec<ProjectSource>) -> (result: Result<(Vec<Project>, bool), AppError>)
    ensures
        match result {
            Ok(loaded) => {
                &&& sources_flaw(sources@) is None
                &&& projects_of(sources@, loaded.0@)
                &&& loaded.1 == any_from_source(sources@)
            },
            Err(error) => sources_flaw(sources@) == Some(error@),
        },
{
    let ghost all = sources@;
    let mut projects: Vec<Project> = Vec::new();
    let mut rust = false;
    assert(all.take(0) =~= Seq::<ProjectSource>::empty());
    assert(all.skip(0) =~= all);
    let mut rest = sources;
    let ghost mut count: int = 0;
    while rest.len() > 0
        invariant
            0 <= count <= all.len(),
            all == sources@,
            rest@ == all.skip(count),
            sources_flaw(all.take(count)) is None,
            projects_of(all.take(count), projects@),
            rust == any_from_source(all.take(count)),
        decreases rest.len(),
    {
        let ghost before = projects@;
        let ghost known = places(all.take(count));
        let ghost done = all.take(count);
        let ghost more = all.take(count + 1);
        assert(more.drop_last() =~= done);
        assert(more.last() == all[count]);
        let source = rest.remove(0);
        assert(source == all[count]);
        assert(rest@ =~= all.skip(count + 1));
        let path = source.path.clone();
        let project = match load_project(source) {
            Ok(project) => project,
            Err(error) => {
                proof {
                    sources_flaw_stops(all, count + 1);
                }
                return Err(error);
            },
        };
        assert forall|i: int| 0 <= i < known.len() implies (#[trigger] known[i]).project_id
            == projects[i].project_id@ && known[i].current_path == projects[i].current_path@ by {
            assert(known[i] == place_of(done[i]));
        }
        match find_place(&projects, project.current_path.as_str(), Ghost(known)) {
            Some(i) => {
                proof {
                    sources_flaw_stops(all, count + 1);
                }
                return Err(
                    config_error(
                        path.as_str(),
                        cat4(
                            "currentPath ",
                            debug_path(project.current_path.as_str()).as_str(),
                            " is already used by project ",
                            debug_text(projects[i].project_id.as_str()).as_str(),
                        ),
                    ),
                );
            },
            None => {},
        }
        if has_id(&projects, project.project_id.as_str(), Ghost(known)) {
            proof {
                sources_flaw_stops(all, count + 1);
            }
            return Err(
                config_error(
                    path.as_str(),
                    cat2(
                        "duplicate projectId ",
                        debug_text(project.project_id.as_str()).as_str(),
                    ),
                ),
            );
        }
        match &project.deployment {
            DeploymentTarget::Rust { .. } => {
                rust = true;
                assert(from_source(more[count]));
            },
            _ => {
                assert(!from_source(all[count]));
            },
        }
        projects.push(project);
        proof {
            assert(any_from_source(more) == (any_from_source(done) || from_source(all[count]))) by {
                if any_from_source(more) {
                    let i = choose|i: int| 0 <= i < more.len() && from_source(#[trigger] more[i]);
                    if i < count {
                        assert(done[i] == more[i]);
                    }
                }
                if any_from_source(done) {
                    let i = choose|i: int| 0 <= i < done.len() && from_source(#[trigger] done[i]);
                    assert(more[i] == done[i]);
                }
                assert(more[count] == all[count]);
            }
            assert forall|i: int| 0 <= i < more.len() implies match (#[trigger] more[i]).text {
                ProjectText::Parsed(config) => project_of(more[i].path@, config, projects@[i]),
                _ => false,
            } by {
                if i < count {
                    assert(done[i] == more[i]);
                    assert(projects@[i] == before[i]);
                }
            }
            count = count + 1;
        }
    }
    assert(all.take(count) =~= all);
    Ok((projects, rust))
}

/// Whether a list of paths is in the order of paths.
pub open spec fn in_path_order(files: Seq<Seq<char>>) -> bool {
    forall|i: int, j: int|
        0 <= i < j < files.len() ==> !parts_less(
            parts(#[trigger] files[j]),
            parts(#[trigger] files[i]),
        )
}

/// The project files among some paths: those with the extension of a project file.
pub open spec fn project_paths(entries: Seq<Seq<char>>) -> Seq<Seq<char>>
    decreases entries.len(),
{
    if entries.len() == 0 {
        Seq::empty()
    } else if toml_file(entries.last()) {
        project_paths(entries.drop_last()).push(entries.last())
    } else {
        project_paths(entries.drop_last())
    }
}

/// Inserts a path into a list that is in order.
fn insert_path(files: &mut Vec<String>, path: String)
    requires
        in_path_order(old(files).deep_view()),
    ensures
        in_path_order(final(files).deep_view()),
        final(files).deep_view().to_multiset() == old(files).deep_view().push(
            path@,
        ).to_multiset(),
{
    let ghost before = files.deep_view();
    let ghost new = path@;
    let mut i: usize = files.len();
    while i > 0 && path_precedes(path.as_str(), files[i - 1].as_str())
        invariant
            i <= files.len(),
            before == files.deep_view(),
            new == path@,
            in_path_order(before),
            forall|k: int| i <= k < before.len() ==> parts_less(parts(new), parts(#[trigger] before[k])),
        decreases i,
    {
        assert(before[i - 1] == files[i - 1]@);
        i -= 1;
    }
    proof {
        if i > 0 {
            assert(before[i - 1] == files[i - 1]@);
        }
        assert forall|k: int| 0 <= k < i implies !parts_less(parts(new), parts(#[trigger] before[k])) by {
            if k < i - 1 {
                assert(!parts_less(parts(before[i - 1]), parts(before[k])));
                path_order_is_total(parts(before[k]), parts(before[i - 1]));
                if parts_less(parts(new), parts(before[k])) && parts(before[k]) != parts(
                    before[i - 1],
                ) {
                    path_order_is_transitive(parts(new), parts(before[k]), parts(before[i - 1]));
                }
            }
        }
        assert forall|k: int| i <= k < before.len() implies !parts_less(
            parts(#[trigger] before[k]),
            parts(new),
        ) by {
            path_order_is_total(parts(new), parts(before[k]));
        }
    }
    files.insert(i, path);
    let ghost after = files.deep_view();
    assert(after =~= before.insert(i as int, new));
    proof {
        assert forall|a: int, b: int| 0 <= a < b < after.len() implies !parts_less(
            parts(#[trigger] after[b]),
            parts(#[trigger] after[a]),
        ) by {
            if b < i {
                assert(after[a] == before[a] && after[b] == before[b]);
            } else if b == i {
                assert(after[a] == before[a]);
            } else if a < i {
                assert(after[a] == before[a] && after[b] == before[b - 1]);
            } else if a == i {
                assert(after[b] == before[b - 1]);
            } else {
                assert(after[a] == before[a - 1] && after[b] == before[b - 1]);
            }
        }
        vstd::seq_lib::to_multiset_insert(before, i as int, new);
        vstd::seq_lib::to_multiset_insert(before, before.len() as int, new);
        assert(before.insert(before.len() as int, new) =~= before.push(new));
    }
}

/// The project files among some paths, in the order of paths.
pub fn project_files(entries: &Vec<String>) -> (files: Vec<String>)
    ensures
        in_path_order(files.deep_view()),
        files.deep_view().to_multiset() == project_paths(entries.deep_view()).to_multiset(),
{
    let ghost all = entries.deep_view();
    let mut files: Vec<String> = Vec::new();
    let mut i: usize = 0;
    assert(files.deep_view() =~= Seq::<Seq<char>>::empty());
    assert(all.take(0) =~= Seq::<Seq<char>>::empty());
    while i < entries.len()
        invariant
            i <= entries.len(),
            all == entries.deep_view(),
            in_path_order(files.deep_view()),
            files.deep_view().to_multiset() == project_paths(all.take(i as int)).to_multiset(),
        decreases entries.len() - i,
    {
        assert(all.take(i + 1).drop_last() =~= all.take(i as int));
        assert(all[i as int] == entries[i as int]@);
        let ghost before = files.deep_view();
        if is_toml_file(entries[i].as_str()) {
            insert_path(&mut files, entries[i].clone());
            proof {
                let earlier = project_paths(all.take(i as int));
                before.to_multiset_ensures();
                earlier.to_multiset_ensures();
            }
        }
        i += 1;
    }
    assert(all.take(i as int) =~= all);
    files
}

} // verus!
