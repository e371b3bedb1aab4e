use aynur_deploy::config::load::{
    load_command, load_deployment, load_health_check, load_reload, validate_absolute_path,
    validate_current_path, validate_executable, validate_global, validate_include_paths,
    validate_name, validate_positive, validate_private_file, validate_relative_path,
    validate_repository_full_name, DeploymentConfig, HealthCheckConfig, ProjectConfig,
};
use aynur_deploy::config::project::{
    load_config, load_project, project_files, validate_tag_pattern, Listing, ProjectSource,
    ProjectText,
};
use aynur_deploy::config::{DeploymentTarget, GlobalConfig, IpAddress, ListenAddress, RustBinary};
use aynur_deploy::environment::{EnvironmentSource, FileBytes};
use aynur_deploy::error::AppError;
use aynur_deploy::release::{FileKind, Metadata};

fn text_of(table: &toml::Table, key: &str) -> String {
    table[key].as_str().unwrap().to_owned()
}

fn texts_of(table: &toml::Table, key: &str) -> Vec<String> {
    let list = table[key].as_array().unwrap();
    list.iter().map(|value| value.as_str().unwrap().to_owned()).collect()
}

fn deployment_config(text: &str) -> DeploymentConfig {
    let table: toml::Table = toml::from_str(text).unwrap();
    match table["type"].as_str().unwrap() {
        "static" => DeploymentConfig::Static { entry_file: text_of(&table, "entryFile") },
        "binary" => DeploymentConfig::Binary { binary_path: text_of(&table, "binaryPath") },
        "rust" => DeploymentConfig::Rust {
            cargo_manifest: text_of(&table, "cargoManifest"),
            binaries: table["binaries"]
                .as_array()
                .unwrap()
                .iter()
                .map(|value| value.as_table().unwrap())
                .map(|value| RustBinary {
                    package: text_of(value, "package"),
                    binary: text_of(value, "binary"),
                })
                .collect(),
            include_paths: texts_of(&table, "includePaths"),
            environment_file: table
                .get("environmentFile")
                .map(|value| value.as_str().unwrap().to_owned()),
        },
        other => panic!("unknown deployment type {other:?}"),
    }
}

fn found(kind: FileKind, mode: u32) -> Metadata {
    Metadata::Found { kind, mode }
}

fn missing() -> Metadata {
    Metadata::Missing { source: "no such file".to_owned() }
}

fn reason(error: AppError) -> String {
    match error {
        AppError::Config { reason, .. } => reason,
        other => panic!("not a configuration error: {other:?}"),
    }
}

fn global() -> GlobalConfig {
    GlobalConfig {
        listen_address: ListenAddress {
            ip: IpAddress::V4([127, 0, 0, 1]),
            text: "127.0.0.1:9091".to_owned(),
        },
        database_path: "/srv/deployments.sqlite3".to_owned(),
        state_directory: "/srv/state".to_owned(),
        projects_directory: "/srv/projects".to_owned(),
        git_command: "/usr/bin/git".to_owned(),
        cargo_command: "/usr/bin/cargo".to_owned(),
        git_fetch_attempts: 2,
        git_fetch_retry_delay_ms: 1,
        command_timeout_seconds: 30,
        max_webhook_body_bytes: 65536,
        worker_poll_interval_ms: 10,
    }
}

fn program() -> Metadata {
    found(FileKind::File, 0o755)
}

fn health_check() -> HealthCheckConfig {
    HealthCheckConfig {
        url: "https://orhan.cn/".to_owned(),
        attempts: 5,
        interval_ms: 2000,
        timeout_ms: 5000,
    }
}

fn project_config(id: &str, current_path: &str) -> ProjectConfig {
    ProjectConfig {
        project_id: id.to_owned(),
        current_path: current_path.to_owned(),
        repository_full_name: "aynurcn/blog_public".to_owned(),
        repository_url: "git@gitee.com:aynurcn/blog_public.git".to_owned(),
        webhook_token: "token".to_owned(),
        tag_pattern: "^deploy-[0-9]{8}-[0-9]{6}$".to_owned(),
        retain_releases: 3,
        health_check: health_check(),
        deployment: DeploymentConfig::Static { entry_file: "index.html".to_owned() },
        migration: None,
        reload: None,
    }
}

fn source_of(path: &str, config: ProjectConfig) -> ProjectSource {
    ProjectSource {
        path: path.to_owned(),
        metadata: found(FileKind::File, 0o600),
        text: ProjectText::Parsed(config),
        current: missing(),
        environment: environment(None),
    }
}

fn environment(text: Option<&str>) -> EnvironmentSource {
    match text {
        Some(text) => EnvironmentSource {
            metadata: found(FileKind::File, 0o600),
            content: FileBytes::Read(text.as_bytes().to_vec()),
        },
        None => EnvironmentSource {
            metadata: missing(),
            content: FileBytes::Failed { source: "no such file".to_owned() },
        },
    }
}

fn rejected(change: fn(&mut ProjectConfig)) -> String {
    let mut config = project_config("orhan-blog", "/var/www/blog_public");
    change(&mut config);
    match load_project(source_of("/srv/projects/orhan-blog.toml", config)) {
        Ok(_) => panic!("the project must be rejected"),
        Err(error) => reason(error),
    }
}

#[test]
fn deployment_types_keep_binary_and_rust_fields_distinct() {
    let binary = deployment_config(
        r#"
type = "binary"
binaryPath = "bin/service"
"#,
    );
    assert!(matches!(
        load_deployment("project.toml", binary, environment(None)),
        Ok(DeploymentTarget::Binary { .. })
    ));

    let rust = deployment_config(
        r#"
type = "rust"
cargoManifest = "Cargo.toml"
includePaths = ["config"]
binaries = [
    { package = "service", binary = "service" },
    { package = "migrator", binary = "migrator" },
]
"#,
    );
    assert!(matches!(
        load_deployment("project.toml", rust, environment(None)),
        Ok(DeploymentTarget::Rust { .. })
    ));
}

#[test]
fn rust_deployment_rejects_duplicate_binary_names() {
    let config = deployment_config(
        r#"
type = "rust"
cargoManifest = "Cargo.toml"
includePaths = []
binaries = [
    { package = "service", binary = "server" },
    { package = "admin", binary = "server" },
]
"#,
    );
    let error = load_deployment("project.toml", config, environment(None))
        .expect_err("duplicate binary destinations must fail");
    assert!(error.message().contains("duplicate binary \"server\""));
}

#[test]
fn rust_deployment_rejects_empty_binaries_and_overlapping_include_paths() {
    let empty = deployment_config(
        r#"
type = "rust"
cargoManifest = "Cargo.toml"
includePaths = []
binaries = []
"#,
    );
    assert!(load_deployment("project.toml", empty, environment(None))
        .unwrap_err()
        .message()
        .contains("must contain at least one binary"));

    let overlapping = deployment_config(
        r#"
type = "rust"
cargoManifest = "Cargo.toml"
includePaths = ["profiles", "profiles/production.toml"]
binaries = [{ package = "service", binary = "service" }]
"#,
    );
    assert!(load_deployment("project.toml", overlapping, environment(None))
        .unwrap_err()
        .message()
        .contains("overlaps another included path"));
}

#[test]
fn deployments_keep_what_was_configured() {
    let config = deployment_config(
        r#"
type = "rust"
cargoManifest = "Cargo.toml"
includePaths = ["Toasty.toml", "profiles"]
binaries = [
    { package = "gateway", binary = "gateway" },
    { package = "tools", binary = "migrator" },
]
environmentFile = "/etc/my-service.env"
"#,
    );
    match load_deployment("project.toml", config, environment(Some("A=1\n"))).unwrap() {
        DeploymentTarget::Rust { cargo_manifest, binaries, include_paths, environment_file } => {
            assert_eq!(cargo_manifest, "Cargo.toml");
            assert_eq!(binaries.len(), 2);
            assert_eq!(binaries[0].package, "gateway");
            assert_eq!(binaries[1].package, "tools");
            assert_eq!(binaries[1].binary, "migrator");
            assert_eq!(include_paths, ["Toasty.toml", "profiles"]);
            assert_eq!(environment_file.as_deref(), Some("/etc/my-service.env"));
        }
        other => panic!("unexpected target {other:?}"),
    }
    let config = DeploymentConfig::Static { entry_file: "../index.html".to_owned() };
    assert_eq!(
        reason(load_deployment("project.toml", config, environment(None)).unwrap_err()),
        "deployment.entryFile must be a non-empty relative path without . or .., \
         got \"../index.html\""
    );
}

#[test]
fn environment_files_are_checked_when_a_deployment_is_loaded() {
    let relative = deployment_config(
        "type = \"rust\"\ncargoManifest = \"Cargo.toml\"\nincludePaths = []\n\
         binaries = [{ package = \"a\", binary = \"a\" }]\nenvironmentFile = \"a.env\"\n",
    );
    assert_eq!(
        reason(load_deployment("project.toml", relative, environment(None)).unwrap_err()),
        "deployment.environmentFile must be an absolute path, got \"a.env\""
    );
    for (content, reason) in [
        (None, "could not read metadata: no such file"),
        (Some("A=1\nA=2\n"), "variable \"A\" is defined more than once"),
        (Some("A='secret\n"), "syntax error at byte index 10; the line value was redacted"),
    ] {
        let broken = deployment_config(
            "type = \"rust\"\ncargoManifest = \"Cargo.toml\"\nincludePaths = []\n\
             binaries = [{ package = \"a\", binary = \"a\" }]\nenvironmentFile = \"/a.env\"\n",
        );
        let error = load_deployment("project.toml", broken, environment(content)).unwrap_err();
        assert_eq!(error.code(), "environmentFileInvalid");
        assert_eq!(error.message(), format!("environment file /a.env is invalid: {reason}"));
    }
}

#[test]
fn included_paths_may_not_replace_a_binary() {
    let binaries = vec![RustBinary { package: "p".to_owned(), binary: "service".to_owned() }];
    let taken = vec!["docs".to_owned(), "service/".to_owned()];
    assert_eq!(
        reason(validate_include_paths("p.toml", &taken, &binaries).unwrap_err()),
        "deployment.includePaths entry \"service/\" conflicts with a binary destination"
    );
    let inside = vec!["service/data".to_owned(), "a/b".to_owned(), "a".to_owned()];
    assert_eq!(
        reason(validate_include_paths("p.toml", &inside, &binaries).unwrap_err()),
        "deployment.includePaths entry \"a\" overlaps another included path"
    );
    let similar = vec!["ab".to_owned(), "a".to_owned(), "a.b".to_owned()];
    assert!(validate_include_paths("p.toml", &similar, &binaries).is_ok());
    let dots = vec!["a".to_owned(), "./b".to_owned()];
    assert_eq!(
        reason(validate_include_paths("p.toml", &dots, &binaries).unwrap_err()),
        "deployment.includePaths[1] must be a non-empty relative path without . or .., got \"./b\""
    );
}

#[test]
fn simple_values_are_validated() {
    assert!(validate_absolute_path("c", "f", "/a").is_ok());
    assert_eq!(
        reason(validate_absolute_path("c", "f", "a\"b").unwrap_err()),
        "f must be an absolute path, got \"a\\\"b\""
    );
    assert!(validate_relative_path("c", "f", "a/b").is_ok());
    for value in ["", "/a", ".", "./a", "a/../b"] {
        assert!(validate_relative_path("c", "f", value).is_err(), "{value:?}");
    }
    assert!(validate_positive("c", "f", 1).is_ok());
    assert_eq!(
        reason(validate_positive("c", "f", 0).unwrap_err()),
        "f must be greater than zero"
    );
    assert!(validate_repository_full_name("c", "aynurcn/blog_public").is_ok());
    for value in ["", "a", "a/", "/a", "a/b/c", "a b/c", "a/b\n"] {
        assert_eq!(
            reason(validate_repository_full_name("c", value).unwrap_err()),
            format!("repositoryFullName {value:?} is invalid")
        );
    }
    for value in ["a", "A.b-c_d", "0"] {
        assert!(validate_name("c", "f", value).is_ok(), "{value:?}");
    }
    for value in ["", ".a", "-a", "a/b", "\u{e9}", "a\n"] {
        assert_eq!(
            reason(validate_name("c", "f", value).unwrap_err()),
            format!("f {value:?} is invalid")
        );
    }
}

#[test]
fn files_are_validated_by_kind_and_mode() {
    assert!(validate_executable("c", "f", "/x", &program()).is_ok());
    for metadata in [
        found(FileKind::File, 0o644),
        found(FileKind::Directory, 0o755),
        found(FileKind::Other, 0o755),
    ] {
        assert_eq!(
            reason(validate_executable("c", "f", "/x", &metadata).unwrap_err()),
            "f \"/x\" must be an executable file"
        );
    }
    assert!(validate_executable("c", "f", "/x", &found(FileKind::File, 0o100)).is_ok());
    assert_eq!(
        validate_executable("c", "f", "/x", &missing()).unwrap_err().message(),
        "filesystem operation read metadata failed for /x: no such file"
    );
    assert!(validate_private_file("c", "f", "/x", &found(FileKind::File, 0o100600)).is_ok());
    assert_eq!(
        reason(validate_private_file("c", "f", "/x", &found(FileKind::File, 0o644)).unwrap_err()),
        "f \"/x\" must have mode 0600, got 0644"
    );
    assert_eq!(
        reason(
            validate_private_file("c", "f", "/x", &found(FileKind::Directory, 0o600)).unwrap_err()
        ),
        "f \"/x\" must be a regular file"
    );
}

#[test]
fn current_paths_are_normalized_and_not_taken() {
    assert!(validate_current_path("c", "/a/b", &missing()).is_ok());
    assert!(validate_current_path("c", "/a/b", &found(FileKind::Symlink, 0o777)).is_ok());
    assert_eq!(
        reason(validate_current_path("c", "/a/b", &found(FileKind::Directory, 0)).unwrap_err()),
        "currentPath \"/a/b\" must be absent or a symbolic link"
    );
    assert_eq!(
        reason(validate_current_path("c", "a", &missing()).unwrap_err()),
        "currentPath must be an absolute path, got \"a\""
    );
    for value in ["/", "//", "/a/../b", "/.."] {
        assert_eq!(
            reason(validate_current_path("c", value, &missing()).unwrap_err()),
            format!("currentPath must be a normalized absolute path other than /, got {value:?}")
        );
    }
    let failed = Metadata::Failed { source: "denied".to_owned() };
    assert_eq!(
        validate_current_path("c", "/a", &failed).unwrap_err().message(),
        "filesystem operation read symlink metadata failed for /a: denied"
    );
}

#[test]
fn health_check_urls_are_parsed() {
    let mut config = health_check();
    config.url = "HTTP://Example.COM:80/a b".to_owned();
    let check = load_health_check("c", config).unwrap();
    assert_eq!(check.url, "http://example.com/a%20b");
    assert_eq!((check.attempts, check.interval_ms, check.timeout_ms), (5, 2000, 5000));
    let mut config = health_check();
    config.url = "ftp://example.com/".to_owned();
    assert_eq!(
        reason(load_health_check("c", config).unwrap_err()),
        "healthCheck.url must use http or https, got \"ftp://example.com/\""
    );
    let mut config = health_check();
    config.url = "example".to_owned();
    assert_eq!(
        reason(load_health_check("c", config).unwrap_err()),
        "healthCheck.url \"example\" is invalid: relative URL without a base"
    );
    let mut config = health_check();
    config.attempts = 0;
    assert_eq!(
        reason(load_health_check("c", config).unwrap_err()),
        "healthCheck.attempts must be greater than zero"
    );
}

#[test]
fn commands_have_a_program_and_printable_arguments() {
    let words = |list: &[&str]| list.iter().map(|word| (*word).to_owned()).collect::<Vec<String>>();
    let command = load_command("c", "f", &words(&["./migrator", "migration", "apply"])).unwrap();
    assert_eq!(command.program, "./migrator");
    assert_eq!(command.args, ["migration", "apply"]);
    assert_eq!(
        reason(load_command("c", "f", &Vec::new()).unwrap_err()),
        "f must contain at least one argument"
    );
    for list in [words(&["a", ""]), words(&["a\n"]), words(&["", "b"])] {
        assert_eq!(
            reason(load_command("c", "f", &list).unwrap_err()),
            "f arguments must be non-empty and contain no control characters"
        );
    }
    assert!(load_reload("c", &None).unwrap().is_empty());
    assert_eq!(
        reason(load_reload("c", &Some(Vec::new())).unwrap_err()),
        "reload.commands must contain at least one command"
    );
    let two = Some(vec![words(&["one", "a"]), words(&["two"])]);
    let commands = load_reload("c", &two).unwrap();
    assert_eq!(commands.len(), 2);
    assert_eq!(commands[0].program, "one");
    assert_eq!(commands[1].program, "two");
    let flawed = Some(vec![words(&["one"]), Vec::new()]);
    assert_eq!(
        reason(load_reload("c", &flawed).unwrap_err()),
        "reload.commands[1] must contain at least one argument"
    );
}

#[test]
fn tag_patterns_are_anchored_and_valid() {
    assert!(validate_tag_pattern("c", "^v$", None).is_ok());
    for pattern in ["v$", "^v", "", "v"] {
        assert_eq!(
            reason(validate_tag_pattern("c", pattern, None).unwrap_err()),
            "tagPattern must be anchored with ^ and $"
        );
    }
    assert_eq!(
        reason(validate_tag_pattern("c", "^($", Some("unclosed".to_owned())).unwrap_err()),
        "tagPattern \"^($\" is invalid: unclosed"
    );
}

#[test]
fn the_global_configuration_is_validated() {
    assert!(validate_global("c", &global(), &program()).is_ok());
    let mut config = global();
    config.listen_address = ListenAddress {
        ip: IpAddress::V4([0, 0, 0, 0]),
        text: "0.0.0.0:9091".to_owned(),
    };
    assert_eq!(
        reason(validate_global("c", &config, &program()).unwrap_err()),
        "listenAddress must use a loopback IP, got 0.0.0.0:9091"
    );
    let mut config = global();
    config.listen_address = ListenAddress {
        ip: IpAddress::V6([0, 0, 0, 0, 0, 0, 0, 1]),
        text: "[::1]:9091".to_owned(),
    };
    assert!(validate_global("c", &config, &program()).is_ok());
    config.listen_address.ip = IpAddress::V6([0, 0, 0, 0, 0, 0xffff, 0x7f00, 1]);
    assert!(validate_global("c", &config, &program()).is_err());
    let mut config = global();
    config.listen_address.ip = IpAddress::V4([127, 9, 8, 7]);
    assert!(validate_global("c", &config, &program()).is_ok());
    config.state_directory = "state".to_owned();
    assert_eq!(
        reason(validate_global("c", &config, &program()).unwrap_err()),
        "stateDirectory must be an absolute path, got \"state\""
    );
    let mut config = global();
    config.max_webhook_body_bytes = 0;
    assert_eq!(
        reason(validate_global("c", &config, &program()).unwrap_err()),
        "maxWebhookBodyBytes must be greater than zero"
    );
    let mut config = global();
    config.git_fetch_attempts = 0;
    assert_eq!(
        reason(validate_global("c", &config, &program()).unwrap_err()),
        "gitFetchAttempts must be greater than zero"
    );
    assert_eq!(
        validate_global("c", &global(), &missing()).unwrap_err().code(),
        "fileSystemError"
    );
}

#[test]
fn a_valid_project_is_loaded_as_written() {
    let mut config = project_config("orhan-blog", "/var/www/blog_public");
    config.migration = Some(vec!["./migrator".to_owned(), "apply".to_owned()]);
    config.reload = Some(vec![vec!["aynur".to_owned(), "reload".to_owned()]]);
    let project = match load_project(source_of("/srv/projects/orhan-blog.toml", config)) {
        Ok(project) => project,
        Err(error) => panic!("unexpected {error:?}"),
    };
    assert_eq!(project.config_path, "/srv/projects/orhan-blog.toml");
    assert_eq!(project.project_id, "orhan-blog");
    assert_eq!(project.current_path, "/var/www/blog_public");
    assert_eq!(project.repository_full_name, "aynurcn/blog_public");
    assert_eq!(project.repository_url, "git@gitee.com:aynurcn/blog_public.git");
    assert_eq!(project.webhook_token.expose(), "token");
    assert_eq!(project.tag_pattern, "^deploy-[0-9]{8}-[0-9]{6}$");
    assert_eq!(project.retain_releases, 3);
    assert_eq!(project.health_check.url, "https://orhan.cn/");
    assert_eq!(project.migration.unwrap().args, ["apply"]);
    assert_eq!(project.reload[0].program, "aynur");
}

#[test]
fn flawed_projects_are_rejected_with_their_reason() {
    assert_eq!(
        rejected(|config| config.project_id = "Orhan".to_owned()),
        "projectId \"Orhan\" is invalid"
    );
    assert_eq!(
        rejected(|config| config.repository_url = String::new()),
        "repositoryUrl must be non-empty and contain no control characters"
    );
    assert_eq!(
        rejected(|config| config.webhook_token = "a\u{7f}".to_owned()),
        "webhookToken must be non-empty and contain no control characters"
    );
    assert_eq!(
        rejected(|config| config.retain_releases = 0),
        "retainReleases must be greater than zero"
    );
    let invalid = rejected(|config| config.tag_pattern = "^($".to_owned());
    let expected = regex::Regex::new("^($").unwrap_err();
    assert_eq!(invalid, format!("tagPattern \"^($\" is invalid: {expected}"));
    assert_eq!(
        rejected(|config| config.migration = Some(Vec::new())),
        "migration.command must contain at least one argument"
    );
}

#[test]
fn project_files_must_be_private_and_well_formed() {
    let mut source = source_of("/p.toml", project_config("a", "/a"));
    source.metadata = found(FileKind::File, 0o644);
    let error = load_project(source).err().unwrap();
    assert_eq!(reason(error), "projectConfig \"/p.toml\" must have mode 0600, got 0644");
    let mut source = source_of("/p.toml", project_config("a", "/a"));
    source.text = ProjectText::Malformed { source: "expected a key".to_owned() };
    assert_eq!(
        load_project(source).err().unwrap().message(),
        "configuration /p.toml is invalid: expected a key"
    );
    let mut source = source_of("/p.toml", project_config("a", "/a"));
    source.text = ProjectText::Unreadable { source: "denied".to_owned() };
    assert_eq!(
        load_project(source).err().unwrap().message(),
        "filesystem operation read failed for /p.toml: denied"
    );
}

fn loaded(sources: Vec<ProjectSource>, cargo: Metadata) -> Result<Vec<String>, AppError> {
    load_config("/srv/config.toml", global(), program(), Listing::Sources(sources), cargo)
        .map(|config| config.projects.into_iter().map(|project| project.project_id).collect())
}

#[test]
fn projects_have_identities_and_paths_of_their_own() {
    let two = vec![
        source_of("/srv/projects/a.toml", project_config("a", "/var/www/a")),
        source_of("/srv/projects/b.toml", project_config("b", "/var/www/b")),
    ];
    assert_eq!(loaded(two, missing()).unwrap(), ["a", "b"]);
    let same_path = vec![
        source_of("/srv/projects/a.toml", project_config("a", "/var/www/a")),
        source_of("/srv/projects/b.toml", project_config("b", "/var//www/a/")),
    ];
    assert_eq!(
        loaded(same_path, missing()).unwrap_err().message(),
        "configuration /srv/projects/b.toml is invalid: \
         currentPath \"/var//www/a/\" is already used by project \"a\""
    );
    let same_id = vec![
        source_of("/srv/projects/a.toml", project_config("a", "/var/www/a")),
        source_of("/srv/projects/b.toml", project_config("a", "/var/www/b")),
    ];
    assert_eq!(
        loaded(same_id, missing()).unwrap_err().message(),
        "configuration /srv/projects/b.toml is invalid: duplicate projectId \"a\""
    );
}

#[test]
fn cargo_is_needed_only_by_rust_projects() {
    let mut config = project_config("a", "/var/www/a");
    config.deployment = DeploymentConfig::Rust {
        cargo_manifest: "Cargo.toml".to_owned(),
        binaries: vec![RustBinary { package: "a".to_owned(), binary: "a".to_owned() }],
        include_paths: Vec::new(),
        environment_file: None,
    };
    let error = loaded(vec![source_of("/srv/projects/a.toml", config)], missing()).unwrap_err();
    assert_eq!(
        error.message(),
        "filesystem operation read metadata failed for /usr/bin/cargo: no such file"
    );
    let other = vec![source_of("/srv/projects/a.toml", project_config("a", "/var/www/a"))];
    assert!(loaded(other, missing()).is_ok());
}

#[test]
fn unreadable_project_directories_are_reported() {
    let unreadable = Listing::Unreadable { source: "denied".to_owned() };
    let error = load_config("/c", global(), program(), unreadable, missing()).err().unwrap();
    assert_eq!(
        error.message(),
        "filesystem operation read directory failed for /srv/projects: denied"
    );
    let entry = Listing::EntryUnreadable { source: "gone".to_owned() };
    let error = load_config("/c", global(), program(), entry, missing()).err().unwrap();
    assert_eq!(
        error.message(),
        "filesystem operation read directory entry failed for /srv/projects: gone"
    );
}

#[test]
fn project_files_are_taken_in_path_order() {
    let entries: Vec<String> = ["/p/b.toml", "/p/a-b.toml", "/p/note.txt", "/p/a.toml", "/p/.toml"]
        .iter()
        .map(|path| (*path).to_owned())
        .collect();
    let mut expected: Vec<std::path::PathBuf> = entries
        .iter()
        .map(std::path::PathBuf::from)
        .filter(|path| path.extension().and_then(|value| value.to_str()) == Some("toml"))
        .collect();
    expected.sort();
    let files: Vec<std::path::PathBuf> =
        project_files(&entries).iter().map(std::path::PathBuf::from).collect();
    assert_eq!(files, expected);
    assert_eq!(files.len(), 3);
}

#[test]
fn a_loaded_configuration_finds_its_projects() {
    let sources = vec![source_of("/srv/projects/a.toml", project_config("a", "/var/www/a"))];
    let config =
        load_config("/c", global(), program(), Listing::Sources(sources), missing()).ok().unwrap();
    assert_eq!(config.project("a").ok().unwrap().current_path, "/var/www/a");
    let error = config.project("b").err().unwrap();
    assert_eq!(error.message(), "project b was not found");
    assert_eq!(error.status_code(), 404);
}
