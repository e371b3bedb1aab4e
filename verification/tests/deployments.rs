use std::collections::BTreeSet;

use aynur_deploy::config::{
    ConfiguredCommand, DeploymentTarget, GlobalConfig, HealthCheck, IpAddress, ListenAddress,
    LoadedConfig, Project, RustBinary, SecretString,
};
use aynur_deploy::db::Database;
use aynur_deploy::deploy::run::Run;
use aynur_deploy::deploy::step::{Action, ExecAction, ExecReply, Reply};
use aynur_deploy::deploy::{Deployer, Recovery, Work};
use aynur_deploy::error::AppError;
use aynur_deploy::model::{Deployment, DeploymentStatus};
use aynur_deploy::process::CommandSpec;

const PROJECT_ID: &str = "service";
const CURRENT: &str = "/srv/published/current";
const RELEASES: &str = "/srv/state/projects/service/releases";

fn text(value: &str) -> String {
    value.to_owned()
}

fn texts(list: &[&str]) -> Vec<String> {
    list.iter().map(|value| (*value).to_owned()).collect()
}

fn sha(digit: char) -> String {
    digit.to_string().repeat(40)
}

fn command(words: &[&str]) -> ConfiguredCommand {
    ConfiguredCommand { program: text(words[0]), args: texts(&words[1..]) }
}

fn site() -> Project {
    Project {
        config_path: text("/srv/projects/service.toml"),
        project_id: text(PROJECT_ID),
        current_path: text(CURRENT),
        repository_full_name: text("aynurcn/service"),
        repository_url: text("/srv/origin.git"),
        webhook_token: SecretString::new(text("token")),
        tag_pattern: text("^v[0-9]+$"),
        retain_releases: 1,
        health_check: HealthCheck {
            url: text("http://127.0.0.1:9000/health"),
            attempts: 2,
            interval_ms: 7,
            timeout_ms: 1000,
        },
        deployment: DeploymentTarget::Static { entry_file: text("index.html") },
        migration: None,
        reload: Vec::new(),
    }
}

fn service() -> Project {
    let mut project = site();
    project.deployment = DeploymentTarget::Rust {
        cargo_manifest: text("Cargo.toml"),
        binaries: vec![
            RustBinary { package: text("gateway"), binary: text("gateway") },
            RustBinary { package: text("tools"), binary: text("migrator") },
        ],
        include_paths: texts(&["config"]),
        environment_file: Some(text("/etc/service.env")),
    };
    project.migration = Some(command(&["./migrator", "apply"]));
    project.reload = vec![command(&["reload-one"]), command(&["reload-two", "now"])];
    project
}

fn deployer(project: Project) -> Deployer {
    Deployer::new(LoadedConfig {
        global: GlobalConfig {
            listen_address: ListenAddress {
                ip: IpAddress::V4([127, 0, 0, 1]),
                text: text("127.0.0.1:9091"),
            },
            database_path: text("/srv/deployments.sqlite3"),
            state_directory: text("/srv/state"),
            projects_directory: text("/srv/projects"),
            git_command: text("/usr/bin/git"),
            cargo_command: text("/usr/bin/cargo"),
            git_fetch_attempts: 2,
            git_fetch_retry_delay_ms: 3,
            command_timeout_seconds: 30,
            max_webhook_body_bytes: 65536,
            worker_poll_interval_ms: 10,
        },
        projects: vec![project],
    })
}

struct World {
    database: Database,
    id: String,
    paths: BTreeSet<String>,
    current: Option<String>,
    tag_object: String,
    commit: String,
    failing_fetches: u32,
    failing: Vec<String>,
    unhealthy: Vec<String>,
    log: Vec<String>,
}

fn error(reason: &str) -> AppError {
    AppError::InvalidState { reason: text(reason) }
}

impl World {
    fn new() -> World {
        let mut database = Database::empty();
        database.register_projects(&texts(&[PROJECT_ID]));
        World {
            database,
            id: String::new(),
            paths: BTreeSet::new(),
            current: None,
            tag_object: String::new(),
            commit: String::new(),
            failing_fetches: 0,
            failing: Vec::new(),
            unhealthy: Vec::new(),
            log: Vec::new(),
        }
    }

    fn queue(&mut self, event: &str, tag: &str, digit: char) -> Deployment {
        self.tag_object = sha(digit);
        self.commit = sha(digit);
        let made = self
            .database
            .create_webhook_deployment(PROJECT_ID, event, tag, &sha(digit))
            .unwrap()
            .deployment;
        self.id = made.id.clone();
        made
    }

    fn stored(&self) -> Deployment {
        self.database.get_deployment(&self.id).unwrap()
    }

    fn result(&self, what: &str) -> Result<(), AppError> {
        match self.failing.iter().find(|failing| what.contains(failing.as_str())) {
            Some(_) => Err(error(what)),
            None => Ok(()),
        }
    }

    fn remove(&mut self, path: &str) {
        let below = format!("{path}/");
        self.paths.retain(|kept| kept != path && !kept.starts_with(&below));
    }

    fn run(&mut self, spec: &CommandSpec) -> Result<String, AppError> {
        let line = format!("{} {}", spec.program, spec.args.join(" "));
        if let Some(directory) = &spec.current_directory {
            self.log.push(format!("in {directory}"));
        }
        if !spec.environment.is_empty() {
            let pairs: Vec<String> =
                spec.environment.iter().map(|pair| format!("{}={}", pair.0, pair.1)).collect();
            self.log.push(format!("with {}", pairs.join(" ")));
        }
        self.log.push(line.clone());
        if line.contains(" fetch ") && self.failing_fetches > 0 {
            self.failing_fetches -= 1;
            return Err(error("fetch failed"));
        }
        self.result(&line)?;
        if line.contains(" init --bare ") {
            self.paths.insert(spec.args[2].clone());
        }
        if line.contains(" worktree add ") {
            let path = spec.args[5].clone();
            for entry in ["", "/index.html", "/Cargo.toml"] {
                self.paths.insert(format!("{path}{entry}"));
            }
        }
        if line.contains(" worktree remove ") {
            self.remove(&spec.args[5]);
        }
        if line.contains(" get-url ") {
            return Ok(text("/srv/origin.git"));
        }
        if line.contains("^{commit}") {
            return Ok(self.commit.clone());
        }
        if line.contains(" rev-parse ") {
            return Ok(self.tag_object.clone());
        }
        Ok(String::new())
    }

    fn perform(&mut self, action: ExecAction) -> ExecReply {
        let id = self.id.clone();
        match action {
            Action::SetStatus(status) => {
                self.log.push(format!("status {}", status.name()));
                Reply::Done(self.database.set_status(&id, status))
            }
            Action::SetResolvedCommit(commit) => {
                Reply::Done(self.database.set_resolved_commit(&id, &commit))
            }
            Action::SetRelease(path) => Reply::Done(self.database.set_release(&id, &path)),
            Action::SetActivation(previous) => {
                self.log.push(format!("activating after {previous:?}"));
                Reply::Done(self.database.set_activation(&id, &previous))
            }
            Action::MarkSucceeded => Reply::Done(self.database.mark_succeeded(&id)),
            Action::MarkFailed { code, message } => {
                Reply::Done(self.database.mark_failed(&id, &code, &message))
            }
            Action::MarkRollbackFailed { code, message } => {
                Reply::Done(self.database.mark_rollback_failed(&id, &code, &message))
            }
            Action::BlockProject { reason } => {
                Reply::Done(self.database.block_project(PROJECT_ID, &reason))
            }
            Action::RetainedPaths => {
                Reply::Paths(Ok(self.database.retained_release_paths(PROJECT_ID)))
            }
            Action::Run(spec) => Reply::Output(self.run(&spec)),
            Action::Exists(path) | Action::IsFile(path) => Reply::Flag(self.paths.contains(&path)),
            Action::CreateDirectories(path) | Action::CreateDirectory(path) => {
                self.paths.insert(path);
                Reply::Done(Ok(()))
            }
            Action::RemoveDirectory(path) => {
                self.log.push(format!("remove {path}"));
                let result = self.result(&format!("remove {path}"));
                self.remove(&path);
                Reply::Done(result)
            }
            Action::Rename { from, to } => {
                let below = format!("{from}/");
                let moved: Vec<String> = self
                    .paths
                    .iter()
                    .filter(|path| **path == from || path.starts_with(&below))
                    .map(|path| path.replacen(&from, &to, 1))
                    .collect();
                self.remove(&from);
                self.paths.extend(moved);
                Reply::Done(Ok(()))
            }
            Action::SyncDirectory(_) => Reply::Done(Ok(())),
            Action::CopyTree { to, .. } => {
                self.paths.insert(format!("{to}/index.html"));
                Reply::Done(self.result("copy tree"))
            }
            Action::CopyPrebuilt { to, file, .. } => {
                self.paths.insert(format!("{to}/{file}"));
                Reply::Done(Ok(()))
            }
            Action::CopyBuilt { to, name, .. } => {
                self.log.push(format!("copy program {name}"));
                self.paths.insert(format!("{to}/{name}"));
                Reply::Done(Ok(()))
            }
            Action::CopyIncluded { to, path, .. } => {
                self.log.push(format!("copy path {path}"));
                self.paths.insert(format!("{to}/{path}"));
                Reply::Done(Ok(()))
            }
            Action::Validate(path) => Reply::Done(if self.paths.contains(&path) {
                self.result(&format!("validate {path}"))
            } else {
                Err(error("no release"))
            }),
            Action::ReadCurrent(path) => {
                assert_eq!(path, CURRENT);
                Reply::Target(Ok(self.current.clone()))
            }
            Action::SwitchCurrent { current, release } => {
                assert_eq!(current, CURRENT);
                self.log.push(format!("switch to {release}"));
                self.current = Some(release);
                Reply::Done(Ok(()))
            }
            Action::LoadEnvironment(path) => {
                assert_eq!(path, "/etc/service.env");
                Reply::Environment(Ok(vec![(text("APP_PROFILE"), text("production"))]))
            }
            Action::Probe { url, timeout_ms } => {
                assert_eq!(url, "http://127.0.0.1:9000/health");
                assert_eq!(timeout_ms, 1000);
                let current = self.current.clone().unwrap_or_default();
                let unhealthy = self.unhealthy.iter().any(|part| current.contains(part.as_str()));
                self.log.push(format!("probe {}", if unhealthy { "failed" } else { "ok" }));
                Reply::Done(if unhealthy {
                    Err(AppError::HealthCheck { url, reason: text("status 503") })
                } else {
                    Ok(())
                })
            }
            Action::Pause { ms } => {
                self.log.push(format!("pause {ms}"));
                Reply::Elapsed
            }
            Action::Finish => panic!("the run has finished"),
        }
    }

    fn drive(&mut self, mut run: Run<'_>) -> Result<(), AppError> {
        for _ in 0..1000 {
            match run.action() {
                Action::Finish => return run.finish().unwrap(),
                action => {
                    let reply = self.perform(action);
                    run = run.resume(reply);
                }
            }
        }
        panic!("the run does not end");
    }

    fn process(&mut self, deployer: &Deployer, deployment: &Deployment) -> Result<(), AppError> {
        match deployer.process(deployment) {
            Ok(run) => self.drive(run),
            Err(error) => Err(error),
        }
    }
}

fn release(digit: char) -> String {
    format!("{RELEASES}/{}", sha(digit))
}

#[test]
fn a_static_tag_is_deployed() {
    let deployer = deployer(site());
    let mut world = World::new();
    let deployment = world.queue("event:static-success", "v1", '1');
    world.process(&deployer, &deployment).unwrap();
    let stored = world.stored();
    assert_eq!(stored.status, DeploymentStatus::Succeeded);
    assert_eq!(stored.commit_sha, Some(sha('1')));
    assert_eq!(stored.release_path, Some(release('1')));
    assert_eq!(world.current, Some(release('1')));
    let worktree = format!("/srv/state/worktrees/{}", deployment.id);
    let mirror = "/srv/state/mirrors/service.git";
    let temporary = format!("{RELEASES}/.{}.{}.tmp", sha('1'), deployment.id);
    assert_eq!(
        world.log,
        [
            "status fetching".to_owned(),
            format!("/usr/bin/git init --bare {mirror}"),
            format!("/usr/bin/git --git-dir {mirror} remote add origin /srv/origin.git"),
            "/usr/bin/git check-ref-format refs/tags/v1".to_owned(),
            "with GIT_TERMINAL_PROMPT=0".to_owned(),
            format!(
                "/usr/bin/git --git-dir {mirror} fetch --no-tags origin \
                 refs/tags/v1:refs/tags/v1"
            ),
            format!("/usr/bin/git --git-dir {mirror} rev-parse --verify refs/tags/v1"),
            format!("/usr/bin/git --git-dir {mirror} rev-parse --verify refs/tags/v1^{{commit}}"),
            "status building".to_owned(),
            format!("/usr/bin/git --git-dir {mirror} worktree prune"),
            format!(
                "/usr/bin/git --git-dir {mirror} worktree add --detach {worktree} {}",
                sha('1')
            ),
            format!("remove {temporary}"),
            format!("/usr/bin/git --git-dir {mirror} worktree remove --force {worktree}"),
            "activating after None".to_owned(),
            format!("switch to {}", release('1')),
            "status healthChecking".to_owned(),
            "probe ok".to_owned(),
        ]
    );
    assert!(!world.paths.contains(&temporary));
    assert!(!world.paths.contains(&worktree));
}

#[test]
fn programs_are_built_and_migrated_before_activation() {
    let deployer = deployer(service());
    let mut world = World::new();
    let deployment = world.queue("event:rust-success", "v1", '1');
    world.process(&deployer, &deployment).unwrap();
    assert_eq!(world.stored().status, DeploymentStatus::Succeeded);
    let worktree = format!("/srv/state/worktrees/{}", deployment.id);
    let target = format!("/srv/state/targets/{}", deployment.id);
    let start = world.log.iter().position(|line| line.starts_with("in ")).unwrap();
    assert_eq!(
        world.log[start..],
        [
            format!("in {worktree}"),
            format!("with APP_PROFILE=production CARGO_TARGET_DIR={target}"),
            format!(
                "/usr/bin/cargo build --release --locked --manifest-path {worktree}/Cargo.toml \
                 --package gateway --bin gateway --package tools --bin migrator"
            ),
            "copy program gateway".to_owned(),
            "copy program migrator".to_owned(),
            "copy path config".to_owned(),
            format!("remove {target}"),
            format!(
                "/usr/bin/git --git-dir /srv/state/mirrors/service.git worktree remove \
                 --force {worktree}"
            ),
            "status migrating".to_owned(),
            format!("in {}", release('1')),
            "with APP_PROFILE=production".to_owned(),
            "./migrator apply".to_owned(),
            "activating after None".to_owned(),
            format!("switch to {}", release('1')),
            "reload-one ".to_owned(),
            "reload-two now".to_owned(),
            "status healthChecking".to_owned(),
            "probe ok".to_owned(),
        ]
    );
}

#[test]
fn an_unhealthy_release_is_rolled_back() {
    let deployer = deployer(service());
    let mut world = World::new();
    let first = world.queue("event:first", "v1", '1');
    world.process(&deployer, &first).unwrap();
    world.unhealthy.push(sha('2'));
    let second = world.queue("event:second", "v2", '2');
    world.log.clear();
    world.process(&deployer, &second).unwrap();
    let stored = world.stored();
    assert_eq!(stored.status, DeploymentStatus::Failed);
    assert_eq!(stored.error_code.as_deref(), Some("healthCheckFailed"));
    assert_eq!(
        stored.error_message.as_deref(),
        Some(
            "deployment failed and was rolled back successfully: \
             HTTP health check for http://127.0.0.1:9000/health failed: status 503"
        )
    );
    assert_eq!(world.current, Some(release('1')));
    assert!(!world.database.project_state(PROJECT_ID).unwrap().blocked);
    let switched = world.log.iter().position(|line| line.starts_with("switch")).unwrap();
    assert_eq!(
        world.log[switched..],
        [
            format!("switch to {}", release('2')),
            "reload-one ".to_owned(),
            "reload-two now".to_owned(),
            "status healthChecking".to_owned(),
            "probe failed".to_owned(),
            "pause 7".to_owned(),
            "probe failed".to_owned(),
            "status rollingBack".to_owned(),
            format!("switch to {}", release('1')),
            "reload-one ".to_owned(),
            "reload-two now".to_owned(),
            "probe ok".to_owned(),
        ]
    );
    let migrations = world.log.iter().filter(|line| line.contains("migrator apply")).count();
    assert_eq!(migrations, 1);
}

#[test]
fn a_failed_rollback_blocks_the_project() {
    let deployer = deployer(site());
    let mut world = World::new();
    let first = world.queue("event:first", "v1", '1');
    world.process(&deployer, &first).unwrap();
    world.unhealthy.push(text(RELEASES));
    let second = world.queue("event:second", "v2", '2');
    world.process(&deployer, &second).unwrap();
    let stored = world.stored();
    assert_eq!(stored.status, DeploymentStatus::RollbackFailed);
    assert_eq!(stored.error_code.as_deref(), Some("rollbackFailed"));
    let health = "HTTP health check for http://127.0.0.1:9000/health failed: status 503";
    let reason = format!("deployment failed with {health}; rollback also failed with {health}");
    assert_eq!(stored.error_message.as_deref(), Some(reason.as_str()));
    let state = world.database.project_state(PROJECT_ID).unwrap();
    assert!(state.blocked);
    assert_eq!(state.blocked_reason, Some(reason));
    assert!(world.database.next_pending().unwrap().is_none());
}

#[test]
fn a_first_release_that_fails_has_nothing_to_go_back_to() {
    let deployer = deployer(site());
    let mut world = World::new();
    world.unhealthy.push(text(RELEASES));
    let first = world.queue("event:first", "v1", '1');
    world.process(&deployer, &first).unwrap();
    let stored = world.stored();
    assert_eq!(stored.status, DeploymentStatus::RollbackFailed);
    assert!(stored
        .error_message
        .unwrap()
        .ends_with("; no previous release exists for rollback"));
    assert!(world.database.project_state(PROJECT_ID).unwrap().blocked);
}

#[test]
fn a_failed_migration_leaves_the_previous_release() {
    let deployer = deployer(service());
    let mut world = World::new();
    let first = world.queue("event:first", "v1", '1');
    world.process(&deployer, &first).unwrap();
    world.failing.push(text("migrator apply"));
    let second = world.queue("event:second", "v2", '2');
    world.log.clear();
    let failure = world.process(&deployer, &second).unwrap_err();
    assert_eq!(world.current, Some(release('1')));
    assert!(!world.log.iter().any(|line| line.starts_with("reload") || line.starts_with("switch")));
    let stored = world.stored();
    assert_eq!(stored.status, DeploymentStatus::Migrating);
    match deployer.handle_processing_error(&stored, failure) {
        Ok(Recovery::MarkFailed { code, message }) => {
            assert_eq!(code, "deploymentStateInvalid");
            assert_eq!(message, "deployment state is invalid: ./migrator apply");
        }
        _ => panic!("the deployment must fail"),
    }
}

#[test]
fn a_failed_reload_rolls_back_and_reloads_again() {
    let deployer = deployer(service());
    let mut world = World::new();
    let first = world.queue("event:first", "v1", '1');
    world.process(&deployer, &first).unwrap();
    world.failing.push(text("reload-two"));
    let second = world.queue("event:second", "v2", '2');
    world.log.clear();
    world.process(&deployer, &second).unwrap();
    let switched = world.log.iter().position(|line| line.starts_with("switch")).unwrap();
    assert_eq!(
        world.log[switched..],
        [
            format!("switch to {}", release('2')),
            "reload-one ".to_owned(),
            "reload-two now".to_owned(),
            "status rollingBack".to_owned(),
            format!("switch to {}", release('1')),
            "reload-one ".to_owned(),
            "reload-two now".to_owned(),
        ]
    );
    assert_eq!(world.stored().status, DeploymentStatus::RollbackFailed);
}

#[test]
fn fetching_is_tried_again_after_a_pause() {
    let deployer = deployer(site());
    let mut world = World::new();
    world.failing_fetches = 1;
    let deployment = world.queue("event:first", "v1", '1');
    world.process(&deployer, &deployment).unwrap();
    assert!(world.log.contains(&text("pause 3")));
    assert_eq!(world.stored().status, DeploymentStatus::Succeeded);
    world.failing_fetches = 2;
    let deployment = world.queue("event:second", "v2", '2');
    let failure = world.process(&deployer, &deployment).unwrap_err();
    assert_eq!(failure.message(), "deployment state is invalid: fetch failed");
    assert_eq!(world.failing_fetches, 0);
    assert_eq!(world.current, Some(release('1')));
}

#[test]
fn another_tag_object_than_the_requested_one_is_refused() {
    let deployer = deployer(site());
    let mut world = World::new();
    let deployment = world.queue("event:wrong-after", "v1", '3');
    world.tag_object = sha('4');
    let source = world.process(&deployer, &deployment).unwrap_err();
    assert_eq!(source.code(), "requestInvalid");
    assert_eq!(
        source.message(),
        format!(
            "request validation failed: fetched tag object {} does not match webhook after {} \
             for tag v1",
            sha('4'),
            sha('3')
        )
    );
    world.tag_object = sha('3');
    world.commit = text("main");
    assert_eq!(
        world.process(&deployer, &deployment).unwrap_err().message(),
        "deployment state is invalid: Git resolved invalid commit SHA \"main\""
    );
    assert_eq!(world.current, None);
}

#[test]
fn another_origin_than_the_configured_one_is_refused() {
    let mut project = site();
    project.repository_url = text("https://gitee.com/other.git");
    let deployer = deployer(project);
    let mut world = World::new();
    world.paths.insert(text("/srv/state/mirrors/service.git"));
    let deployment = world.queue("event:first", "v1", '1');
    assert_eq!(
        world.process(&deployer, &deployment).unwrap_err().message(),
        "deployment state is invalid: mirror \"/srv/state/mirrors/service.git\" origin is \
         \"/srv/origin.git\", expected \"https://gitee.com/other.git\""
    );
}

#[test]
fn a_failed_build_leaves_nothing_behind() {
    let deployer = deployer(site());
    let mut world = World::new();
    world.failing.push(text("validate"));
    let deployment = world.queue("event:missing-entry", "v1", '1');
    let failure = world.process(&deployer, &deployment).unwrap_err();
    assert!(failure.message().contains("validate"));
    assert!(!world.paths.iter().any(|path| path.starts_with(&format!("{RELEASES}/"))));
    assert!(!world.paths.iter().any(|path| path.contains("worktrees/")));
    let stored = world.stored();
    assert_eq!(stored.status, DeploymentStatus::Building);
    assert_eq!(stored.release_path, None);
    world.failing.push(text("worktree remove"));
    world.failing.push(text(".tmp"));
    let failure = world.process(&deployer, &deployment).unwrap_err();
    assert!(failure.message().starts_with("deployment state is invalid: build failed with "));
    assert!(failure.message().contains("; worktree cleanup also failed with "));
    assert!(failure.message().contains("Git could not remove worktree"));
}

#[test]
fn a_failed_cargo_build_removes_its_target_directory() {
    let deployer = deployer(service());
    let mut world = World::new();
    world.failing.push(text("cargo build"));
    let deployment = world.queue("event:first", "v1", '1');
    let failure = world.process(&deployer, &deployment).unwrap_err();
    assert!(failure.message().contains("cargo build"));
    assert!(world.log.contains(&format!("remove /srv/state/targets/{}", deployment.id)));
    assert!(!world.paths.iter().any(|path| path.contains("/targets/")));
    world.failing.push(text("/targets/"));
    let failure = world.process(&deployer, &deployment).unwrap_err();
    assert!(failure.message().contains("remove /srv/state/targets/"));
}

#[test]
fn an_interrupted_activation_is_checked_where_it_was_switched() {
    let deployer = deployer(site());
    let mut world = World::new();
    let deployment = world.queue("event:restart", "v1", '1');
    world.paths.insert(release('1'));
    world.current = Some(release('1'));
    world.database.set_resolved_commit(&deployment.id, &sha('1')).unwrap();
    world.database.set_release(&deployment.id, &release('1')).unwrap();
    world.database.set_activation(&deployment.id, &None).unwrap();
    let interrupted = world.stored();
    world.process(&deployer, &interrupted).unwrap();
    assert_eq!(world.stored().status, DeploymentStatus::Succeeded);
}

#[test]
fn an_interrupted_activation_fails_where_it_was_not_switched() {
    let deployer = deployer(site());
    let mut world = World::new();
    let deployment = world.queue("event:restart", "v2", '2');
    world.current = Some(release('1'));
    world.database.set_release(&deployment.id, &release('2')).unwrap();
    world.database.set_activation(&deployment.id, &Some(release('1'))).unwrap();
    let interrupted = world.stored();
    world.process(&deployer, &interrupted).unwrap();
    let stored = world.stored();
    assert_eq!(stored.status, DeploymentStatus::Failed);
    assert_eq!(stored.error_code.as_deref(), Some("activationInterrupted"));
    assert_eq!(stored.error_message.as_deref(), Some("service restarted during activation"));
    assert_eq!(world.current, Some(release('1')));
}

#[test]
fn an_activation_that_points_elsewhere_is_rolled_back() {
    let deployer = deployer(site());
    let mut world = World::new();
    let deployment = world.queue("event:restart", "v2", '2');
    world.paths.insert(release('1'));
    world.current = Some(text("/elsewhere"));
    world.database.set_release(&deployment.id, &release('2')).unwrap();
    world.database.set_activation(&deployment.id, &Some(release('1'))).unwrap();
    let interrupted = world.stored();
    world.process(&deployer, &interrupted).unwrap();
    assert_eq!(world.current, Some(release('1')));
    assert_eq!(
        world.stored().error_message,
        Some(format!(
            "deployment failed and was rolled back successfully: deployment state is invalid: \
             current symlink Some(\"/elsewhere\") points to neither release {:?} nor previous \
             Some({:?})",
            release('2'),
            release('1')
        ))
    );
}

#[test]
fn an_interrupted_rollback_is_completed() {
    let deployer = deployer(service());
    let mut world = World::new();
    let deployment = world.queue("event:restart", "v2", '2');
    world.current = Some(release('2'));
    world.database.set_release(&deployment.id, &release('2')).unwrap();
    world.database.set_activation(&deployment.id, &Some(release('1'))).unwrap();
    world.database.set_status(&deployment.id, DeploymentStatus::RollingBack).unwrap();
    let interrupted = world.stored();
    world.process(&deployer, &interrupted).unwrap();
    assert_eq!(world.current, Some(release('1')));
    let stored = world.stored();
    assert_eq!(stored.status, DeploymentStatus::Failed);
    assert_eq!(stored.error_code.as_deref(), Some("deploymentInterrupted"));
    assert!(!world.log.iter().any(|line| line.contains("migrator")));

    let deployment = world.queue("event:again", "v3", '3');
    world.database.set_activation(&deployment.id, &None).unwrap();
    world.database.set_status(&deployment.id, DeploymentStatus::RollingBack).unwrap();
    let interrupted = world.stored();
    world.process(&deployer, &interrupted).unwrap();
    assert_eq!(world.stored().status, DeploymentStatus::RollbackFailed);
    assert_eq!(
        world.database.project_state(PROJECT_ID).unwrap().blocked_reason.as_deref(),
        Some("service restarted during rollback, but no previous release is recorded")
    );
}

#[test]
fn an_interrupted_migration_is_repeated() {
    let deployer = deployer(service());
    let mut world = World::new();
    let deployment = world.queue("event:migration-recovery", "v1", '1');
    world.paths.insert(release('1'));
    world.database.set_release(&deployment.id, &release('1')).unwrap();
    world.database.set_status(&deployment.id, DeploymentStatus::Migrating).unwrap();
    let interrupted = world.stored();
    world.process(&deployer, &interrupted).unwrap();
    assert_eq!(world.stored().status, DeploymentStatus::Succeeded);
    assert!(world.log.contains(&text("./migrator apply")));
    assert!(!world.log.iter().any(|line| line.contains("git")));
}

#[test]
fn a_release_that_exists_is_used_again() {
    let deployer = deployer(site());
    let mut world = World::new();
    let first = world.queue("event:first", "v1", '1');
    world.process(&deployer, &first).unwrap();
    let second = world.queue("event:second", "v1-again", '1');
    world.log.clear();
    world.process(&deployer, &second).unwrap();
    assert_eq!(world.stored().release_path, Some(release('1')));
    assert!(!world.log.iter().any(|line| line.contains("worktree")));
    assert!(!world.log.contains(&text("status building")));
}

#[test]
fn an_explicit_rollback_activates_without_building_or_migrating() {
    let deployer = deployer(service());
    let mut world = World::new();
    let first = world.queue("event:first", "v1", '1');
    world.process(&deployer, &first).unwrap();
    world.current = Some(release('2'));
    let rollback = world.database.create_rollback(PROJECT_ID, &sha('1'), true).unwrap();
    world.id = rollback.id.clone();
    world.log.clear();
    world.process(&deployer, &rollback).unwrap();
    assert_eq!(world.current, Some(release('1')));
    assert_eq!(world.stored().status, DeploymentStatus::Succeeded);
    assert_eq!(
        world.log,
        [
            format!("activating after Some({:?})", release('2')),
            format!("switch to {}", release('1')),
            "reload-one ".to_owned(),
            "reload-two now".to_owned(),
            "status healthChecking".to_owned(),
            "probe ok".to_owned(),
        ]
    );
}

#[test]
fn releases_beyond_the_retained_ones_are_removed() {
    let deployer = deployer(site());
    let mut world = World::new();
    for (event, tag, digit) in [("e1", "v1", '1'), ("e2", "v2", '2'), ("e3", "v3", '3')] {
        let deployment = world.queue(event, tag, digit);
        world.process(&deployer, &deployment).unwrap();
        let completed = format!("2020-01-01T00:00:0{digit}.000Z");
        world
            .database
            .mark_ended_at(&deployment.id, DeploymentStatus::Succeeded, None, None, &completed)
            .unwrap();
    }
    assert!(world.paths.contains(&release('3')));
    assert!(!world.paths.contains(&release('2')));
    assert!(!world.paths.contains(&release('1')));
    assert!(world.log.contains(&format!("remove {}", release('2'))));
    assert!(!world.log.contains(&format!("remove {}", release('3'))));
}

#[test]
fn releases_outside_their_directory_are_not_removed() {
    let deployer = deployer(site());
    let mut world = World::new();
    let first = world.queue("event:first", "v1", '1');
    world.process(&deployer, &first).unwrap();
    world.database.set_release(&first.id, "/precious").unwrap();
    let completed = "2020-01-01T00:00:00.000Z";
    world
        .database
        .mark_ended_at(&first.id, DeploymentStatus::Succeeded, None, None, completed)
        .unwrap();
    world.paths.insert(text("/precious"));
    let second = world.queue("event:second", "v2", '2');
    assert_eq!(
        world.process(&deployer, &second).unwrap_err().message(),
        format!(
            "deployment state is invalid: refusing to remove retained release \"/precious\" \
             outside {RELEASES:?}"
        )
    );
    assert!(world.paths.contains("/precious"));
    let stored = world.stored();
    assert_eq!(stored.status, DeploymentStatus::Succeeded);
    let failure = error("x");
    assert!(matches!(deployer.handle_processing_error(&stored, failure), Ok(Recovery::Settled)));
}

#[test]
fn states_that_cannot_be_processed_are_reported() {
    let deployer = deployer(service());
    let mut world = World::new();
    let mut deployment = world.queue("event:first", "v1", '1');
    let id = deployment.id.clone();
    deployment.status = DeploymentStatus::Failed;
    assert_eq!(
        world.process(&deployer, &deployment).unwrap_err().message(),
        format!(
            "deployment state is invalid: terminal deployment {id} with status failed \
             was selected for processing"
        )
    );
    deployment.status = DeploymentStatus::Migrating;
    assert_eq!(
        world.process(&deployer, &deployment).unwrap_err().message(),
        format!("deployment state is invalid: migrating deployment {id} has no releasePath")
    );
    deployment.status = DeploymentStatus::Activating;
    assert_eq!(
        world.process(&deployer, &deployment).unwrap_err().message(),
        format!(
            "deployment state is invalid: deployment {id} has no releasePath during recovery"
        )
    );
    deployment.project_id = text("other");
    assert_eq!(world.process(&deployer, &deployment).unwrap_err().code(), "projectNotFound");
}

#[test]
fn an_error_after_the_switch_resumes_the_activation() {
    let deployer = deployer(site());
    let mut world = World::new();
    let deployment = world.queue("event:first", "v1", '1');
    world.paths.insert(release('1'));
    world.current = Some(release('1'));
    world.database.set_release(&deployment.id, &release('1')).unwrap();
    world.database.set_activation(&deployment.id, &None).unwrap();
    let stored = world.stored();
    match deployer.handle_processing_error(&stored, error("lost")) {
        Ok(Recovery::Resume(run)) => world.drive(run).unwrap(),
        _ => panic!("the activation must be resumed"),
    }
    assert_eq!(world.stored().status, DeploymentStatus::Succeeded);
}

#[test]
fn a_reply_that_does_not_fit_ends_the_run() {
    let deployer = deployer(site());
    let mut world = World::new();
    let deployment = world.queue("event:first", "v1", '1');
    let run = deployer.process(&deployment).ok().unwrap();
    assert!(matches!(run.action(), Action::SetStatus(DeploymentStatus::Fetching)));
    let run = run.resume(Reply::Elapsed);
    assert!(matches!(run.action(), Action::Finish));
    assert_eq!(
        run.finish().unwrap().unwrap_err().message(),
        "deployment state is invalid: the reply does not fit the step of the deployment"
    );
}

#[test]
fn an_unfinished_run_has_no_result() {
    let deployer = deployer(site());
    let mut world = World::new();
    let deployment = world.queue("event:first", "v1", '1');
    let run = deployer.process(&deployment).ok().unwrap();
    assert!(run.finish().is_none());
}

#[test]
fn the_worker_stops_processes_or_waits() {
    let deployer = deployer(site());
    let mut world = World::new();
    assert!(matches!(deployer.run_worker(false, None), Work::Wait { ms: 10 }));
    world.queue("event:first", "v1", '1');
    let pending = world.database.next_pending().unwrap();
    match deployer.run_worker(false, pending) {
        Work::Process(deployment) => assert_eq!(deployment.id, world.id),
        other => panic!("unexpected {other:?}"),
    }
    let pending = world.database.next_pending().unwrap();
    assert!(matches!(deployer.run_worker(true, pending), Work::Stop));
    assert_eq!(deployer.configuration().projects.len(), 1);
}
