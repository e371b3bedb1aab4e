use aynur_deploy::cli::{
    active_home, add_project, add_project_with, adopt_current_path, bootstrap_path, check_config,
    choose_home, config_path, find_config_path, format_global_config, format_project_config,
    init_home, list_projects, parse_clean_type, pointer_path, residual_paths, resolve_config_path,
    rollback, status, unblock, user_config_home, validate_cli_sha, validate_project_id,
    DeploymentType, Pointer, DEFAULT_CONFIG,
};
use aynur_deploy::config::load::{DeploymentConfig, HealthCheckConfig, ProjectConfig};
use aynur_deploy::config::project::{load_project, ProjectSource, ProjectText};
use aynur_deploy::config::{
    DeploymentTarget, GlobalConfig, HealthCheck, IpAddress, ListenAddress, LoadedConfig, Project,
    RustBinary, SecretString,
};
use aynur_deploy::db::Database;
use aynur_deploy::environment::{EnvironmentSource, FileBytes};
use aynur_deploy::model::{CleanDeploymentType, DeploymentStatus, ProjectStatus};
use aynur_deploy::release::{FileKind, FileOp, Metadata};

fn text(value: &str) -> String {
    value.to_owned()
}

fn found(kind: FileKind) -> Metadata {
    Metadata::Found { kind, mode: 0o755 }
}

fn missing() -> Metadata {
    Metadata::Missing { source: text("no such file") }
}

fn project(id: &str, current_path: &str) -> Project {
    Project {
        config_path: format!("/srv/projects/{id}.toml"),
        project_id: text(id),
        current_path: text(current_path),
        repository_full_name: text("aynurcn/blog_public"),
        repository_url: text("git@gitee.com:aynurcn/blog_public.git"),
        webhook_token: SecretString::new(text("token")),
        tag_pattern: text("^v$"),
        retain_releases: 3,
        health_check: HealthCheck {
            url: text("https://orhan.cn/"),
            attempts: 1,
            interval_ms: 1,
            timeout_ms: 1,
        },
        deployment: DeploymentTarget::Static { entry_file: text("index.html") },
        migration: None,
        reload: Vec::new(),
    }
}

fn configuration(ids: &[&str]) -> LoadedConfig {
    LoadedConfig {
        global: GlobalConfig {
            listen_address: ListenAddress {
                ip: IpAddress::V4([127, 0, 0, 1]),
                text: text("127.0.0.1:9091"),
            },
            database_path: text("/srv/deployments.sqlite3"),
            state_directory: text("/srv/state"),
            projects_directory: text("/srv/projects"),
            git_command: text("/usr/bin/git"),
            cargo_command: text("/usr/bin/cargo"),
            git_fetch_attempts: 2,
            git_fetch_retry_delay_ms: 1,
            command_timeout_seconds: 30,
            max_webhook_body_bytes: 65536,
            worker_poll_interval_ms: 10,
        },
        projects: ids.iter().map(|id| project(id, &format!("/var/www/{id}"))).collect(),
    }
}

fn texts(list: &[&str]) -> Vec<String> {
    list.iter().map(|value| (*value).to_owned()).collect()
}

#[test]
fn arguments_are_validated() {
    assert!(validate_project_id("orhan-blog").is_ok());
    assert_eq!(
        validate_project_id("a/b").unwrap_err().message(),
        "request validation failed: projectId \"a/b\" is invalid"
    );
    assert!(validate_cli_sha("0123456789abcdef0123456789abcdef01234567").is_ok());
    assert_eq!(
        validate_cli_sha("0123456789ABCDEF").unwrap_err().message(),
        "request validation failed: commitSha must be a lowercase 40-character hexadecimal \
         Git commit ID, got \"0123456789ABCDEF\""
    );
    assert_eq!(parse_clean_type("failed"), Some(CleanDeploymentType::Failed));
    assert_eq!(parse_clean_type("succeeded"), Some(CleanDeploymentType::Succeeded));
    assert_eq!(parse_clean_type("all"), Some(CleanDeploymentType::All));
    assert_eq!(parse_clean_type("none"), None);
}

#[test]
fn the_configuration_is_found_where_it_was_chosen() {
    let home = Some(text("/home/orhan"));
    assert_eq!(
        user_config_home(&Some(text("/xdg")), &home).unwrap(),
        "/xdg/aynur-deploy"
    );
    assert_eq!(
        user_config_home(&Some(String::new()), &home).unwrap(),
        "/home/orhan/.config/aynur-deploy"
    );
    assert_eq!(
        user_config_home(&None, &None).unwrap_err().message(),
        "configuration $HOME/.config/aynur-deploy is invalid: HOME is not set; \
         set XDG_CONFIG_HOME or run `aynur-deploy init --home <path>`"
    );
    assert_eq!(pointer_path("/xdg"), "/xdg/active-home");
    assert_eq!(config_path("/xdg"), "/xdg/config.toml");
    assert_eq!(active_home(" /srv/deploy\n"), "/srv/deploy");
    let chosen = Pointer::Text { text: text("/srv/deploy\n"), holds_config: true };
    assert_eq!(
        find_config_path("/xdg", chosen, true, true).unwrap().as_deref(),
        Some("/srv/deploy/config.toml")
    );
    let empty = Pointer::Text { text: text("/srv/deploy\n"), holds_config: false };
    assert_eq!(
        find_config_path("/xdg", empty, true, true).unwrap_err().message(),
        "configuration /xdg/active-home is invalid: \
         active home \"/srv/deploy\" does not contain config.toml"
    );
    let unreadable = Pointer::Unreadable { source: text("denied") };
    assert_eq!(
        find_config_path("/xdg", unreadable, true, true).unwrap_err().message(),
        "filesystem operation read failed for /xdg/active-home: denied"
    );
    assert_eq!(
        find_config_path("/xdg", Pointer::Absent, true, true).unwrap().as_deref(),
        Some("/xdg/config.toml")
    );
    assert_eq!(
        find_config_path("/xdg", Pointer::Absent, false, true).unwrap().as_deref(),
        Some(DEFAULT_CONFIG)
    );
    assert_eq!(find_config_path("/xdg", Pointer::Absent, false, false).unwrap(), None);
    assert_eq!(
        resolve_config_path(None).unwrap_err().message(),
        "configuration /etc/aynur-deploy/config.toml is invalid: \
         configuration is not initialized; run `aynur-deploy init` first"
    );
    assert_eq!(resolve_config_path(Some(text("/c.toml"))).unwrap(), "/c.toml");
}

#[test]
fn a_directory_is_initialized_once() {
    assert_eq!(choose_home(Some(text("/h")), Some(text("/o/config.toml"))).unwrap(), "/h");
    assert_eq!(choose_home(None, Some(text("/o/config.toml"))).unwrap(), "/o");
    assert_eq!(choose_home(None, None).unwrap(), "/etc/aynur-deploy");
    assert_eq!(
        choose_home(None, Some(text("/"))).unwrap_err().message(),
        "deployment state is invalid: configuration path \"/\" has no parent"
    );
    let first = init_home("/h", true, None);
    assert_eq!(first.config_path, "/h/config.toml");
    assert_eq!(first.projects_directory, "/h/projects");
    assert_eq!(first.config_text, Some(format_global_config("/h")));
    assert_eq!(first.pointer_text.as_deref(), Some("/h\n"));
    assert!(!first.already_initialized);
    assert_eq!(first.message, None);
    let again = init_home("/h", false, Some(text("/elsewhere")));
    assert_eq!(again.projects_directory, "/elsewhere");
    assert_eq!(again.config_text, None);
    assert_eq!(again.pointer_text, None);
    assert!(again.already_initialized);
    assert_eq!(
        again.message,
        Some("configuration already initialized; existing configuration was kept")
    );
}

#[test]
fn a_new_global_configuration_names_its_directories() {
    let table: toml::Table = toml::from_str(&format_global_config("/h")).unwrap();
    assert_eq!(table["listenAddress"].as_str(), Some("127.0.0.1:9091"));
    assert_eq!(table["databasePath"].as_str(), Some("/h/state/deployments.sqlite3"));
    assert_eq!(table["stateDirectory"].as_str(), Some("/h/state"));
    assert_eq!(table["projectsDirectory"].as_str(), Some("/h/projects"));
    assert_eq!(table["gitFetchAttempts"].as_integer(), Some(3));
    assert_eq!(table["workerPollIntervalMs"].as_integer(), Some(1000));
    assert_eq!(table.len(), 11);
    let default: toml::Table = toml::from_str(&format_global_config("/etc/aynur-deploy/")).unwrap();
    assert_eq!(default["stateDirectory"].as_str(), Some("/var/lib/aynur-deploy"));
    assert_eq!(default["projectsDirectory"].as_str(), Some("/etc/aynur-deploy/projects"));
}

#[test]
fn new_project_files_hold_what_was_asked_for() {
    for (kind, expected) in [
        (DeploymentType::Static, "entryFile = \"index.html\""),
        (DeploymentType::Binary, "binaryPath = \"bin/my-service\""),
        (DeploymentType::Rust, "cargoManifest = \"Cargo.toml\""),
    ] {
        let written = format_project_config("orhan-blog", "/var/www/blog", "secret", kind);
        assert!(written.contains(expected));
        let table: toml::Table = toml::from_str(&written).unwrap();
        assert_eq!(table["projectId"].as_str(), Some("orhan-blog"));
        assert_eq!(table["currentPath"].as_str(), Some("/var/www/blog"));
        assert_eq!(table["webhookToken"].as_str(), Some("secret"));
        assert_eq!(table["tagPattern"].as_str(), Some("^deploy-[0-9]{8}-[0-9]{6}$"));
        assert_eq!(table["retainReleases"].as_integer(), Some(3));
        if kind != DeploymentType::Static {
            assert!(written.contains("# [reload]"));
            assert!(written.contains("# commands = [["));
        }
        if kind == DeploymentType::Rust {
            assert!(written.contains("binaries = [{ package = \"my-service\""));
            assert!(written.contains("includePaths = []"));
            assert!(written.contains("# [migration]"));
        }
    }
}

#[test]
fn new_project_files_are_written_out() {
    let written =
        format_project_config("orhan-blog", "/var/www/blog", "secret", DeploymentType::Rust);
    assert_eq!(
        written,
        "projectId = \"orhan-blog\"\n\
         currentPath = \"/var/www/blog\"\n\
         repositoryFullName = \"owner/repository\"\n\
         repositoryUrl = \"https://gitee.com/owner/repository.git\"\n\
         webhookToken = \"secret\"\n\
         tagPattern = \"^deploy-[0-9]{8}-[0-9]{6}$\"\n\
         retainReleases = 3\n\
         \n\
         [healthCheck]\n\
         # Replace this with the deployed project's public URL.\n\
         url = \"https://example.invalid/\"\n\
         attempts = 5\n\
         intervalMs = 2000\n\
         timeoutMs = 5000\n\
         \n\
         [deployment]\n\
         type = \"rust\"\n\
         cargoManifest = \"Cargo.toml\"\n\
         includePaths = []\n\
         binaries = [{ package = \"my-service\", binary = \"my-service\" }]\n\
         \n\
         # Optional fixed-argv command before activation:\n\
         # [migration]\n\
         # command = [\"./my-service\", \"migrate\"]\n\
         \n\
         # Optional fixed-argv commands after activation, run in order:\n\
         # [reload]\n\
         # commands = [[\"aynur\", \"reload\", \"my-service\", \"--update-env\"]]\n"
    );
}

fn parsed(written: &str) -> ProjectConfig {
    let table: toml::Table = toml::from_str(written).unwrap();
    let word = |table: &toml::Table, key: &str| table[key].as_str().unwrap().to_owned();
    let health = table["healthCheck"].as_table().unwrap();
    let number = |key: &str| health[key].as_integer().unwrap();
    let section = table["deployment"].as_table().unwrap();
    let deployment = match section["type"].as_str().unwrap() {
        "static" => DeploymentConfig::Static { entry_file: word(section, "entryFile") },
        "binary" => DeploymentConfig::Binary { binary_path: word(section, "binaryPath") },
        _ => DeploymentConfig::Rust {
            cargo_manifest: word(section, "cargoManifest"),
            binaries: section["binaries"]
                .as_array()
                .unwrap()
                .iter()
                .map(|value| value.as_table().unwrap())
                .map(|value| RustBinary {
                    package: word(value, "package"),
                    binary: word(value, "binary"),
                })
                .collect(),
            include_paths: section["includePaths"]
                .as_array()
                .unwrap()
                .iter()
                .map(|value| value.as_str().unwrap().to_owned())
                .collect(),
            environment_file: None,
        },
    };
    assert!(!table.contains_key("migration") && !table.contains_key("reload"));
    ProjectConfig {
        project_id: word(&table, "projectId"),
        current_path: word(&table, "currentPath"),
        repository_full_name: word(&table, "repositoryFullName"),
        repository_url: word(&table, "repositoryUrl"),
        webhook_token: word(&table, "webhookToken"),
        tag_pattern: word(&table, "tagPattern"),
        retain_releases: table["retainReleases"].as_integer().unwrap() as usize,
        health_check: HealthCheckConfig {
            url: word(health, "url"),
            attempts: number("attempts") as u32,
            interval_ms: number("intervalMs") as u64,
            timeout_ms: number("timeoutMs") as u64,
        },
        deployment,
        migration: None,
        reload: None,
    }
}

#[test]
fn added_projects_load() {
    for kind in [DeploymentType::Static, DeploymentType::Binary, DeploymentType::Rust] {
        let plan = add_project("latest-project", kind, None, "/h/projects", "/h/state").unwrap();
        let config = parsed(&plan.project_config);
        let token = config.webhook_token.clone();
        let project = load_project(ProjectSource {
            path: plan.project_config_path,
            metadata: Metadata::Found { kind: FileKind::File, mode: 0o100600 },
            text: ProjectText::Parsed(config),
            current: missing(),
            environment: EnvironmentSource {
                metadata: missing(),
                content: FileBytes::Failed { source: text("no such file") },
            },
        })
        .unwrap();
        assert_eq!(project.project_id, "latest-project");
        assert_eq!(project.current_path, "/h/state/projects/latest-project/current");
        assert_eq!(project.webhook_token.expose(), token);
        assert_eq!(token.len(), 64);
        match (kind, project.deployment) {
            (DeploymentType::Static, DeploymentTarget::Static { .. }) => {}
            (DeploymentType::Binary, DeploymentTarget::Binary { .. }) => {}
            (DeploymentType::Rust, DeploymentTarget::Rust { .. }) => {}
            (kind, target) => panic!("{target:?} is not {kind:?}"),
        }
    }
}

#[test]
fn added_projects_get_a_path_and_a_token() {
    let plan = add_project_with(
        "orhan-blog",
        DeploymentType::Static,
        None,
        "/h/projects",
        "/h/state",
        "secret",
    )
    .unwrap();
    assert_eq!(plan.project_config_path, "/h/projects/orhan-blog.toml");
    assert_eq!(plan.current_path, "/h/state/projects/orhan-blog/current");
    assert!(plan
        .project_config
        .contains("currentPath = \"/h/state/projects/orhan-blog/current\""));
    let plan = add_project(
        "orhan-blog",
        DeploymentType::Binary,
        Some(text("/var/www/blog")),
        "/h/projects",
        "/h/state",
    )
    .unwrap();
    assert_eq!(plan.current_path, "/var/www/blog");
    let table: toml::Table = toml::from_str(&plan.project_config).unwrap();
    let token = table["webhookToken"].as_str().unwrap();
    assert_eq!(token.len(), 64);
    assert!(token.chars().all(|c| c.is_ascii_digit() || ('a'..='f').contains(&c)));
    for path in ["relative/current", "/", "/a/../b"] {
        let error = add_project(
            "invalid-path",
            DeploymentType::Static,
            Some(text(path)),
            "/h/projects",
            "/h/state",
        )
        .unwrap_err();
        assert_eq!(
            error.message(),
            format!(
                "request validation failed: \
                 currentPath must be a normalized absolute path other than /, got {path:?}"
            )
        );
    }
    let error = add_project("Bad", DeploymentType::Static, None, "/h/p", "/h/s").unwrap_err();
    assert_eq!(error.code(), "requestInvalid");
}

#[test]
fn existing_directories_are_moved_and_linked_to() {
    assert_eq!(
        bootstrap_path("/var/www/blog_public").as_deref(),
        Some("/var/www/blog_public.before-aynur-deploy")
    );
    assert_eq!(bootstrap_path("/"), None);
    let adopted =
        adopt_current_path("/w/site", found(FileKind::Directory), missing()).unwrap();
    assert_eq!(adopted.bootstrap_path.as_deref(), Some("/w/site.before-aynur-deploy"));
    assert_eq!(adopted.ops.len(), 2);
    assert!(matches!(&adopted.ops[0], FileOp::Rename { from, to }
        if from == "/w/site" && to == "/w/site.before-aynur-deploy"));
    assert!(matches!(&adopted.ops[1], FileOp::Symlink { target, link }
        if target == "/w/site.before-aynur-deploy" && link == "/w/site"));
    for current in [missing(), found(FileKind::Symlink)] {
        let adopted = adopt_current_path("/w/site", current, missing()).unwrap();
        assert_eq!(adopted.bootstrap_path, None);
        assert!(adopted.ops.is_empty());
    }
    let taken = adopt_current_path(
        "/w/site",
        found(FileKind::Directory),
        found(FileKind::Directory),
    );
    assert!(taken.unwrap_err().message().contains("bootstrap path"));
    let file = adopt_current_path("/w/file", found(FileKind::File), missing());
    assert!(file
        .unwrap_err()
        .message()
        .contains("must be absent, a symbolic link, or an existing directory"));
    let unknown = Metadata::Failed { source: text("denied") };
    assert_eq!(
        adopt_current_path("/w/site", unknown, missing()).unwrap_err().message(),
        "filesystem operation read symlink metadata failed for /w/site: denied"
    );
}

#[test]
fn projects_are_listed_in_order_with_their_states() {
    let config = configuration(&["test-rust", "latest-project", "test-binary"]);
    assert_eq!(check_config(&config), ["latest-project", "test-binary", "test-rust"]);
    let mut database = Database::empty();
    database.register_projects(&texts(&["test-rust", "latest-project", "test-binary"]));
    database.stop_project("test-binary").unwrap();
    let list = list_projects(&config, &database).unwrap();
    let shown: Vec<(&str, ProjectStatus, &str)> = list
        .iter()
        .map(|item| (item.state.project_id.as_str(), item.state.status, item.current_path.as_str()))
        .collect();
    assert_eq!(
        shown,
        [
            ("latest-project", ProjectStatus::Running, "/var/www/latest-project"),
            ("test-binary", ProjectStatus::Stopped, "/var/www/test-binary"),
            ("test-rust", ProjectStatus::Running, "/var/www/test-rust"),
        ]
    );
    let mut partial = Database::empty();
    partial.register_projects(&texts(&["latest-project"]));
    assert_eq!(
        list_projects(&config, &partial).unwrap_err().message(),
        "project test-binary was not found"
    );
    assert!(list_projects(&configuration(&[]), &partial).unwrap().is_empty());
}

#[test]
fn commands_reach_only_configured_projects() {
    let config = configuration(&["service"]);
    let mut database = Database::empty();
    database.register_projects(&texts(&["service", "gone"]));
    let first = database
        .create_webhook_deployment("service", "e1", "v1", &"1".repeat(40))
        .unwrap()
        .deployment;
    let (state, deployments) = status(&config, &database, "service").unwrap();
    assert_eq!(state.status, ProjectStatus::Running);
    assert_eq!(deployments.len(), 1);
    assert_eq!(deployments[0].id, first.id);
    assert_eq!(status(&config, &database, "gone").unwrap_err().code(), "projectNotFound");

    database.block_project("service", "rollback failed").unwrap();
    assert_eq!(unblock(&config, &mut database, "gone").unwrap_err().code(), "projectNotFound");
    let state = unblock(&config, &mut database, "service").unwrap();
    assert!(!state.blocked);
    assert_eq!(state.blocked_reason, None);

    let commit = "1".repeat(40);
    assert_eq!(
        rollback(&config, &mut database, "service", "short", true).unwrap_err().code(),
        "requestInvalid"
    );
    assert_eq!(
        rollback(&config, &mut database, "gone", &commit, true).unwrap_err().code(),
        "projectNotFound"
    );
    assert_eq!(
        rollback(&config, &mut database, "service", &commit, true).unwrap_err().code(),
        "releaseNotFound"
    );
    database.set_resolved_commit(&first.id, &commit).unwrap();
    database.set_release(&first.id, "/srv/state/projects/service/releases/one").unwrap();
    database.mark_succeeded(&first.id).unwrap();
    assert_eq!(
        rollback(&config, &mut database, "service", &commit, false).unwrap_err().code(),
        "releaseNotFound"
    );
    let queued = rollback(&config, &mut database, "service", &commit, true).unwrap();
    assert_eq!(queued.status, DeploymentStatus::Queued);
    assert_eq!(
        queued.release_path.as_deref(),
        Some("/srv/state/projects/service/releases/one")
    );
}

#[test]
fn leftovers_are_worktrees_and_targets() {
    let mut database = Database::empty();
    database.register_projects(&texts(&["service"]));
    let made = database
        .create_webhook_deployment("service", "e1", "v1", &"1".repeat(40))
        .unwrap()
        .deployment;
    let id = made.id.clone();
    assert_eq!(
        residual_paths("/srv/state", &vec![made]),
        [format!("/srv/state/worktrees/{id}"), format!("/srv/state/targets/{id}")]
    );
    assert!(residual_paths("/srv/state", &Vec::new()).is_empty());
}
