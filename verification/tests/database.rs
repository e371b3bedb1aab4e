use aynur_deploy::db::store::{create_deployments_table_sql, plan_schema, SchemaPlan};
use aynur_deploy::db::{update_exactly_one, update_project_exactly_one, Database};
use aynur_deploy::model::{
    CleanDeploymentType, Deployment, DeploymentKind, DeploymentRow, DeploymentStatus,
    ProjectStateRow, ProjectStatus,
};

fn text(value: &str) -> String {
    value.to_owned()
}

fn sha(digit: char) -> String {
    digit.to_string().repeat(40)
}

fn database(ids: &[&str]) -> Database {
    let mut database = Database::empty();
    let ids: Vec<String> = ids.iter().map(|id| (*id).to_owned()).collect();
    database.register_projects_at(&ids, "2026-09-03T00:00:00.000Z");
    database
}

fn add(database: &mut Database, project: &str, id: &str, now: &str) -> Deployment {
    let event = format!("event:{id}");
    let created = database
        .create_webhook_deployment_at(project, &event, "v1", &sha('1'), text(id), now)
        .unwrap();
    assert!(created.created);
    created.deployment
}

fn end(database: &mut Database, id: &str, status: DeploymentStatus, now: &str) {
    database.mark_ended_at(id, status, None, None, now).unwrap();
}

fn ids(list: &[Deployment]) -> Vec<&str> {
    list.iter().map(|deployment| deployment.id.as_str()).collect()
}

#[test]
fn deployments_are_taken_oldest_first() {
    let mut database = database(&["a", "b"]);
    add(&mut database, "b", "3", "2026-09-03T00:00:02.000Z");
    add(&mut database, "a", "2", "2026-09-03T00:00:01.000Z");
    add(&mut database, "a", "1", "2026-09-03T00:00:01.000Z");
    let taken = database.next_pending_at("2026-09-03T01:00:00.000Z").unwrap().unwrap();
    assert_eq!(taken.id, "1");
    assert_eq!(taken.status, DeploymentStatus::Fetching);
    assert_eq!(taken.updated_at, "2026-09-03T01:00:00.000Z");
    let again = database.next_pending_at("2026-09-03T02:00:00.000Z").unwrap().unwrap();
    assert_eq!(again.id, "1");
    assert_eq!(again.updated_at, "2026-09-03T01:00:00.000Z");
    end(&mut database, "1", DeploymentStatus::Failed, "2026-09-03T03:00:00.000Z");
    assert_eq!(database.next_pending().unwrap().unwrap().id, "2");
    end(&mut database, "2", DeploymentStatus::Succeeded, "2026-09-03T03:00:00.000Z");
    assert_eq!(database.next_pending().unwrap().unwrap().id, "3");
    end(&mut database, "3", DeploymentStatus::RollbackFailed, "2026-09-03T03:00:00.000Z");
    assert!(database.next_pending().unwrap().is_none());
}

#[test]
fn an_event_is_queued_once() {
    let mut database = database(&["a"]);
    let first = database.create_webhook_deployment("a", "gitee:a", "v1", &sha('1')).unwrap();
    assert!(first.created);
    assert_eq!(first.deployment.status, DeploymentStatus::Queued);
    assert_eq!(first.deployment.kind, DeploymentKind::Deploy);
    assert_eq!(first.deployment.created_at, first.deployment.updated_at);
    assert_eq!(first.deployment.completed_at, None);
    let again = database.create_webhook_deployment("a", "gitee:a", "v2", &sha('2')).unwrap();
    assert!(!again.created);
    assert_eq!(again.deployment.id, first.deployment.id);
    assert_eq!(again.deployment.tag, "v1");
    assert_eq!(
        database.create_webhook_deployment("b", "gitee:b", "v1", &sha('1')).unwrap_err().code(),
        "projectNotFound"
    );
    assert_eq!(database.deployments_for_project("a").unwrap().len(), 1);
}

#[test]
fn new_identifiers_and_times_have_their_forms() {
    let mut database = database(&["a"]);
    let made = database.create_webhook_deployment("a", "e", "v1", &sha('1')).unwrap().deployment;
    assert_eq!(made.id.len(), 36);
    for (position, digit) in made.id.chars().enumerate() {
        match position {
            8 | 13 | 18 | 23 => assert_eq!(digit, '-'),
            _ => assert!(digit.is_ascii_digit() || ('a'..='f').contains(&digit)),
        }
    }
    assert_eq!(made.id.chars().nth(14), Some('7'));
    assert_eq!(made.created_at.len(), 24);
    assert!(made.created_at.ends_with('Z'));
    let parsed = chrono::DateTime::parse_from_rfc3339(&made.created_at).unwrap();
    assert_eq!(
        parsed
            .with_timezone(&chrono::Utc)
            .to_rfc3339_opts(chrono::SecondsFormat::Millis, true),
        made.created_at
    );
    let other = database.create_webhook_deployment("a", "f", "v1", &sha('1')).unwrap().deployment;
    assert_ne!(other.id, made.id);
}

#[test]
fn an_identifier_that_is_taken_is_refused() {
    let mut database = database(&["a"]);
    add(&mut database, "a", "1", "2026-09-03T00:00:00.000Z");
    let error = database
        .create_webhook_deployment_at("a", "other", "v1", &sha('1'), text("1"), "2026")
        .unwrap_err();
    assert_eq!(error.code(), "databaseError");
    assert_eq!(database.deployments_for_project("a").unwrap().len(), 1);
}

#[test]
fn stopped_projects_take_no_events_and_hold_their_queue() {
    let mut database = database(&["a", "b"]);
    add(&mut database, "a", "1", "2026-09-03T00:00:00.000Z");
    let state = database.stop_project_at("a", "2026-09-03T00:00:05.000Z").unwrap();
    assert_eq!(state.status, ProjectStatus::Stopped);
    assert_eq!(state.updated_at, "2026-09-03T00:00:05.000Z");
    let error = database.create_webhook_deployment("a", "e", "v1", &sha('1')).unwrap_err();
    assert_eq!((error.code(), error.status_code()), ("projectStopped", 409));
    let known = database.create_webhook_deployment("a", "event:1", "v1", &sha('1')).unwrap_err();
    assert_eq!(known.code(), "projectStopped");
    assert!(database.next_pending().unwrap().is_none());
    assert!(database.create_webhook_deployment("b", "e", "v1", &sha('1')).is_ok());
    assert_eq!(database.start_project("a").unwrap().status, ProjectStatus::Running);
    assert_eq!(database.next_pending().unwrap().unwrap().id, "1");
    assert_eq!(database.stop_project("c").unwrap_err().code(), "projectNotFound");
    assert_eq!(database.start_project("c").unwrap_err().code(), "projectNotFound");
}

#[test]
fn blocked_projects_are_started_only_when_unblocked() {
    let mut database = database(&["a"]);
    add(&mut database, "a", "1", "2026-09-03T00:00:00.000Z");
    database.block_project("a", "rollback failed").unwrap();
    assert!(database.next_pending().unwrap().is_none());
    let state = database.project_state("a").unwrap();
    assert_eq!(state.status, ProjectStatus::Blocked);
    assert_eq!(state.blocked_reason.as_deref(), Some("rollback failed"));
    let error = database.start_project("a").unwrap_err();
    assert_eq!(
        error.message(),
        "project a is blocked: rollback failed; \
         resolve the failure and run `aynur-deploy unblock a`"
    );
    assert!(database.create_webhook_deployment("a", "e", "v1", &sha('1')).is_ok());
    database.unblock_project("a").unwrap();
    let state = database.project_state("a").unwrap();
    assert_eq!((state.status, state.blocked_reason), (ProjectStatus::Running, None));
    assert_eq!(database.next_pending().unwrap().unwrap().id, "1");
    assert_eq!(database.block_project("c", "r").unwrap_err().code(), "projectNotFound");
    assert_eq!(database.unblock_project("c").unwrap_err().code(), "projectNotFound");
}

#[test]
fn a_missing_blocked_reason_is_named() {
    let projects = vec![ProjectStateRow {
        project_id: text("a"),
        stopped: 1,
        blocked: 1,
        blocked_reason: None,
        updated_at: text("2026-09-03T00:00:00Z"),
    }];
    let mut database = Database::load(Vec::new(), projects).ok().unwrap();
    let error = database.start_project("a").unwrap_err();
    assert!(error.message().contains("is blocked: no blocked reason was recorded;"));
}

#[test]
fn registered_projects_keep_their_state() {
    let mut database = database(&["a"]);
    database.stop_project("a").unwrap();
    database.block_project("a", "r").unwrap();
    database.register_projects(&vec![text("a"), text("b")]);
    let state = database.project_state("a").unwrap();
    assert!(state.stopped && state.blocked);
    assert_eq!(database.project_state("b").unwrap().status, ProjectStatus::Running);
}

#[test]
fn changes_of_a_deployment_are_recorded() {
    let mut database = database(&["a"]);
    add(&mut database, "a", "1", "2026-09-03T00:00:00.000Z");
    add(&mut database, "a", "2", "2026-09-03T00:00:00.000Z");
    database.set_status_at("1", DeploymentStatus::Building, "t1").unwrap();
    database.set_resolved_commit_at("1", &sha('2'), "t2").unwrap();
    database.set_release_at("1", "/releases/two", "t3").unwrap();
    database.set_activation_at("1", &Some(text("/releases/one")), "t4").unwrap();
    let stored = database.get_deployment("1").unwrap();
    assert_eq!(stored.status, DeploymentStatus::Activating);
    assert_eq!(stored.commit_sha, Some(sha('2')));
    assert_eq!(stored.release_path.as_deref(), Some("/releases/two"));
    assert_eq!(stored.previous_release_path.as_deref(), Some("/releases/one"));
    assert_eq!(stored.updated_at, "t4");
    assert_eq!(stored.completed_at, None);
    database.set_activation("1", &None).unwrap();
    assert_eq!(database.get_deployment("1").unwrap().previous_release_path, None);
    database.mark_failed("1", "code", "message").unwrap();
    let failed = database.get_deployment("1").unwrap();
    assert_eq!(failed.status, DeploymentStatus::Failed);
    assert_eq!(failed.error_code.as_deref(), Some("code"));
    assert_eq!(failed.error_message.as_deref(), Some("message"));
    assert_eq!(failed.completed_at.as_ref(), Some(&failed.updated_at));
    database.mark_succeeded("1").unwrap();
    let done = database.get_deployment("1").unwrap();
    assert_eq!(done.status, DeploymentStatus::Succeeded);
    assert_eq!((done.error_code, done.error_message), (None, None));
    database.mark_rollback_failed("1", "rollbackFailed", "r").unwrap();
    assert_eq!(database.get_deployment("1").unwrap().status, DeploymentStatus::RollbackFailed);
    assert_eq!(database.get_deployment("2").unwrap().status, DeploymentStatus::Queued);
}

#[test]
fn unknown_deployments_are_reported() {
    let mut database = database(&["a"]);
    let codes = [
        database.get_deployment("x").unwrap_err().code(),
        database.set_status("x", DeploymentStatus::Failed).unwrap_err().code(),
        database.set_resolved_commit("x", "c").unwrap_err().code(),
        database.set_release("x", "/r").unwrap_err().code(),
        database.set_activation("x", &None).unwrap_err().code(),
        database.mark_succeeded("x").unwrap_err().code(),
        database.mark_failed("x", "c", "m").unwrap_err().code(),
        database.mark_rollback_failed("x", "c", "m").unwrap_err().code(),
        database.create_retry("x").unwrap_err().code(),
        update_exactly_one(0, "x").unwrap_err().code(),
        update_exactly_one(2, "x").unwrap_err().code(),
    ];
    assert!(codes.iter().all(|code| *code == "deploymentNotFound"));
    assert!(update_exactly_one(1, "x").is_ok());
    assert!(update_project_exactly_one(1, "p").is_ok());
    assert_eq!(update_project_exactly_one(0, "p").unwrap_err().code(), "projectNotFound");
}

#[test]
fn retries_repeat_a_failed_deployment() {
    let mut database = database(&["a"]);
    add(&mut database, "a", "1", "2026-09-03T00:00:00.000Z");
    database.set_resolved_commit("1", &sha('2')).unwrap();
    database.set_release("1", "/releases/two").unwrap();
    let early = database.create_retry("1").unwrap_err();
    assert_eq!(
        early.message(),
        "deployment 1 is in state queued, which cannot be retried"
    );
    database.mark_failed("1", "code", "message").unwrap();
    let retry = database.create_retry_at("1", text("2"), "2026-09-04T00:00:00.000Z").unwrap();
    assert_eq!(retry.id, "2");
    assert_eq!(retry.event_key, "retry:1:2");
    assert_eq!(retry.status, DeploymentStatus::Queued);
    assert_eq!(retry.kind, DeploymentKind::Deploy);
    assert_eq!(retry.tag, "v1");
    assert_eq!(retry.requested_sha, sha('1'));
    assert_eq!(retry.commit_sha, Some(sha('2')));
    assert_eq!(retry.release_path.as_deref(), Some("/releases/two"));
    assert_eq!(retry.retry_of.as_deref(), Some("1"));
    assert_eq!(retry.error_code, None);
    assert_eq!(retry.completed_at, None);
    database.mark_rollback_failed("2", "c", "m").unwrap();
    assert!(database.create_retry("2").is_ok());
}

#[test]
fn rollbacks_activate_the_last_release_of_a_commit() {
    let mut database = database(&["a"]);
    for (id, path, completed) in [("1", "/r/1", "t5"), ("2", "/r/2", "t7"), ("3", "/r/3", "t6")] {
        add(&mut database, "a", id, "2026-09-03T00:00:00.000Z");
        database.set_resolved_commit(id, &sha('c')).unwrap();
        database.set_release(id, path).unwrap();
        end(&mut database, id, DeploymentStatus::Succeeded, completed);
    }
    assert_eq!(database.successful_release("a", &sha('c')).unwrap().unwrap().id, "2");
    assert!(database.successful_release("a", &sha('d')).unwrap().is_none());
    let queued = database.create_rollback_at("a", &sha('c'), true, text("4"), "t8").unwrap();
    assert_eq!(queued.kind, DeploymentKind::Rollback);
    assert_eq!(queued.release_path.as_deref(), Some("/r/2"));
    assert_eq!(queued.requested_sha, sha('c'));
    assert_eq!(queued.commit_sha, Some(sha('c')));
    assert_eq!(queued.event_key, format!("rollback:a:{}:4", sha('c')));
    assert_eq!(
        database.create_rollback("a", &sha('c'), false).unwrap_err().code(),
        "releaseNotFound"
    );
    assert_eq!(
        database.create_rollback("a", &sha('d'), true).unwrap_err().code(),
        "releaseNotFound"
    );
}

#[test]
fn a_success_without_a_release_cannot_be_rolled_back_to() {
    let mut database = database(&["a"]);
    add(&mut database, "a", "1", "2026-09-03T00:00:00.000Z");
    database.set_resolved_commit("1", &sha('c')).unwrap();
    end(&mut database, "1", DeploymentStatus::Succeeded, "t5");
    assert_eq!(
        database.create_rollback("a", &sha('c'), true).unwrap_err().message(),
        "deployment state is invalid: successful deployment 1 has no releasePath"
    );
}

#[test]
fn projects_are_deleted_only_when_stopped_and_idle() {
    let mut database = database(&["a", "b"]);
    add(&mut database, "a", "1", "2026-09-03T00:00:00.000Z");
    add(&mut database, "b", "2", "2026-09-03T00:00:01.000Z");
    assert_eq!(database.delete_project("a").unwrap_err().code(), "projectMustBeStopped");
    database.stop_project("a").unwrap();
    database.set_status("1", DeploymentStatus::Migrating).unwrap();
    assert_eq!(
        database.delete_project("a").unwrap_err().message(),
        "project a cannot be deleted while deployment 1 is migrating"
    );
    database.set_status("1", DeploymentStatus::Queued).unwrap();
    database.delete_project("a").unwrap();
    assert_eq!(database.project_state("a").unwrap_err().code(), "projectNotFound");
    assert_eq!(database.get_deployment("1").unwrap_err().code(), "deploymentNotFound");
    assert_eq!(
        database.create_webhook_deployment("a", "e", "v1", &sha('1')).unwrap_err().code(),
        "projectNotFound"
    );
    assert_eq!(database.get_deployment("2").unwrap().project_id, "b");
    assert_eq!(database.delete_project("a").unwrap_err().code(), "projectNotFound");
}

fn history() -> Database {
    let mut database = database(&["a", "b"]);
    for (id, status) in [
        ("1", DeploymentStatus::Failed),
        ("2", DeploymentStatus::Succeeded),
        ("3", DeploymentStatus::RollbackFailed),
        ("4", DeploymentStatus::Failed),
        ("5", DeploymentStatus::Succeeded),
    ] {
        add(&mut database, "a", id, &format!("2026-09-03T00:00:0{id}.000Z"));
        end(&mut database, id, status, "2026-09-03T01:00:00.000Z");
    }
    add(&mut database, "b", "6", "2026-09-03T00:00:06.000Z");
    database
}

#[test]
fn cleaning_removes_all_but_the_newest() {
    let mut database = history();
    assert_eq!(ids(&database.deployments_for_project("a").unwrap()), ["5", "4", "3", "2", "1"]);
    let gone = database.clean_deployments("a", 1, CleanDeploymentType::Failed).unwrap();
    assert_eq!(ids(&gone), ["3", "1"]);
    assert_eq!(ids(&database.deployments_for_project("a").unwrap()), ["5", "4", "2"]);
    let gone = database.clean_deployments("a", 9, CleanDeploymentType::All).unwrap();
    assert!(gone.is_empty());
    let gone = database.clean_deployments("a", 0, CleanDeploymentType::Succeeded).unwrap();
    assert_eq!(ids(&gone), ["5", "2"]);
    let gone = database.clean_deployments("a", 0, CleanDeploymentType::All).unwrap();
    assert_eq!(ids(&gone), ["4"]);
    assert_eq!(ids(&database.deployments_for_project("b").unwrap()), ["6"]);
}

#[test]
fn cleaning_is_refused_while_a_deployment_is_unfinished() {
    let mut database = history();
    assert_eq!(
        database.clean_deployments("b", 0, CleanDeploymentType::All).unwrap_err().message(),
        "project b cannot be deleted while deployment 6 is queued"
    );
    assert_eq!(
        database.clean_deployments("c", 0, CleanDeploymentType::All).unwrap_err().code(),
        "projectNotFound"
    );
    assert_eq!(
        database
            .clean_deployments("a", u64::MAX, CleanDeploymentType::All)
            .unwrap_err()
            .message(),
        format!(
            "deployment state is invalid: \
             clean keep value {} exceeds the supported SQLite integer range",
            u64::MAX
        )
    );
}

#[test]
fn cleaning_detaches_retries() {
    let mut database = database(&["a"]);
    add(&mut database, "a", "1", "2026-09-03T00:00:00.000Z");
    database.mark_failed("1", "c", "m").unwrap();
    database.create_retry_at("1", text("2"), "2026-09-04T00:00:00.000Z").unwrap();
    database.mark_failed("2", "c", "m").unwrap();
    let gone = database.clean_deployments("a", 1, CleanDeploymentType::Failed).unwrap();
    assert_eq!(ids(&gone), ["1"]);
    assert_eq!(database.get_deployment("2").unwrap().retry_of, None);
}

#[test]
fn retained_releases_are_the_last_made_first() {
    let mut database = database(&["a", "b"]);
    for (id, path, status, completed) in [
        ("1", "/r/1", DeploymentStatus::Succeeded, "t1"),
        ("2", "/r/2", DeploymentStatus::Succeeded, "t2"),
        ("3", "/r/1", DeploymentStatus::Succeeded, "t3"),
        ("4", "/r/4", DeploymentStatus::Failed, "t4"),
    ] {
        add(&mut database, "a", id, "2026-09-03T00:00:00.000Z");
        database.set_release(id, path).unwrap();
        end(&mut database, id, status, completed);
    }
    add(&mut database, "a", "5", "2026-09-03T00:00:00.000Z");
    end(&mut database, "5", DeploymentStatus::Succeeded, "t9");
    add(&mut database, "b", "6", "2026-09-03T00:00:00.000Z");
    database.set_release("6", "/r/6").unwrap();
    end(&mut database, "6", DeploymentStatus::Succeeded, "t9");
    assert_eq!(database.retained_release_paths("a"), ["/r/1", "/r/2"]);
    assert_eq!(database.retained_release_paths("b"), ["/r/6"]);
    assert!(database.retained_release_paths("c").is_empty());
}

fn stored(id: &str, project: &str, event: &str) -> DeploymentRow {
    DeploymentRow {
        id: text(id),
        project_id: text(project),
        event_key: text(event),
        kind: text("deploy"),
        tag: text("deploy-20260903-120000"),
        requested_sha: sha('1'),
        commit_sha: Some(sha('1')),
        release_path: Some(text("/release/one")),
        previous_release_path: None,
        status: text("succeeded"),
        error_code: None,
        error_message: None,
        retry_of: None,
        created_at: text("2026-09-03T00:00:00Z"),
        updated_at: text("2026-09-03T00:00:01Z"),
        completed_at: Some(text("2026-09-03T00:00:01Z")),
    }
}

fn stored_project(id: &str) -> ProjectStateRow {
    ProjectStateRow {
        project_id: text(id),
        stopped: 0,
        blocked: 0,
        blocked_reason: None,
        updated_at: text("2026-09-03T00:00:00Z"),
    }
}

#[test]
fn loaded_rows_are_given_back() {
    let rows = vec![stored("deployment-1", "service", "event-1")];
    let database = Database::load(rows, vec![stored_project("service")]).ok().unwrap();
    let deployment = database.get_deployment("deployment-1").unwrap();
    assert_eq!(deployment.status, DeploymentStatus::Succeeded);
    assert_eq!(deployment.project_id, "service");
    assert!(!database.project_state("service").unwrap().stopped);
    let (deployments, projects) = database.rows();
    assert_eq!(deployments.len(), 1);
    assert_eq!(
        format!("{:?}", deployments[0]),
        format!("{:?}", stored("deployment-1", "service", "event-1"))
    );
    assert_eq!(format!("{:?}", projects[0]), format!("{:?}", stored_project("service")));
}

#[test]
fn rows_that_share_a_key_are_refused() {
    let project = || vec![stored_project("service")];
    let load = |rows, projects| Database::load(rows, projects).err().map(|error| error.message());
    let refused = Some(text("deployment state is invalid: stored rows share a key"));
    assert_eq!(load(vec![stored("1", "service", "e")], project()), None);
    assert_eq!(
        load(vec![stored("1", "service", "e"), stored("1", "service", "f")], project()),
        refused
    );
    assert_eq!(
        load(vec![stored("1", "service", "e"), stored("2", "service", "e")], project()),
        refused
    );
    assert_eq!(
        load(Vec::new(), vec![stored_project("service"), stored_project("service")]),
        refused
    );
}

#[test]
fn links_and_flags_are_taken_as_they_are_stored() {
    let mut lost = stored("1", "service", "e");
    lost.retry_of = Some(text("0"));
    lost.status = text("failed");
    let mut orphan = stored("2", "gone", "f");
    orphan.status = text("failed");
    let mut waiting = stored("3", "gone", "g");
    waiting.status = text("queued");
    let released = stored("4", "gone", "h");
    let mut flagged = stored_project("service");
    flagged.stopped = 2;
    let rows = vec![lost, orphan, waiting, released];
    let mut database = Database::load(rows, vec![flagged]).ok().unwrap();
    assert_eq!(database.get_deployment("1").unwrap().retry_of.as_deref(), Some("0"));
    assert!(database.project_state("service").unwrap().stopped);
    assert!(database.next_pending().unwrap().is_none());
    let broken = "database operation failed: \
                  error returned from database: (code: 787) FOREIGN KEY constraint failed";
    assert_eq!(database.create_retry("2").unwrap_err().message(), broken);
    assert_eq!(database.create_rollback("gone", &sha('1'), true).unwrap_err().message(), broken);
    let retry = database.create_retry("1").unwrap();
    assert_eq!(retry.retry_of.as_deref(), Some("1"));
    database.delete_project("service").unwrap();
    assert_eq!(ids(&database.deployments_for_project("gone").unwrap()), ["4", "3", "2"]);
}

#[test]
fn rows_that_cannot_be_read_fail_where_they_are_read() {
    let load = || {
        let mut unknown = stored("1", "service", "e");
        unknown.status = text("lost");
        let mut strange = stored("2", "service", "f");
        strange.kind = text("other");
        strange.status = text("queued");
        let fine = stored("3", "other", "g");
        Database::load(
            vec![unknown, strange, fine],
            vec![stored_project("service"), stored_project("other")],
        )
        .ok()
        .unwrap()
    };
    let status = "deployment state is invalid: unknown deployment status \"lost\"";
    let kind = "deployment state is invalid: unknown deployment kind \"other\"";
    let mut database = load();
    assert_eq!(database.get_deployment("3").unwrap().id, "3");
    assert_eq!(ids(&database.deployments_for_project("other").unwrap()), ["3"]);
    assert_eq!(database.get_deployment("1").unwrap_err().message(), status);
    assert_eq!(database.create_retry("1").unwrap_err().message(), status);
    assert_eq!(database.deployments_for_project("service").unwrap_err().message(), kind);
    let repeated = database.create_webhook_deployment("service", "e", "t", &sha('1'));
    assert_eq!(repeated.unwrap_err().message(), status);
    assert!(database.create_webhook_deployment("other", "h", "t", &sha('1')).unwrap().created);
    assert_eq!(
        database.clean_deployments("service", 0, CleanDeploymentType::All).unwrap_err().message(),
        kind
    );
    database.set_status("1", DeploymentStatus::Failed).unwrap();
    assert_eq!(database.get_deployment("1").unwrap().status, DeploymentStatus::Failed);

    let mut database = load();
    assert_eq!(database.next_pending_at("now").unwrap_err().message(), kind);
    let (rows, _) = database.rows();
    let taken = rows.iter().find(|row| row.id == "2").unwrap();
    assert_eq!((taken.status.as_str(), taken.updated_at.as_str()), ("fetching", "now"));
    database.stop_project("service").unwrap();
    assert_eq!(database.delete_project("service").unwrap_err().message(), kind);
    assert_eq!(database.retained_release_paths("other"), ["/release/one"]);

    let mut strange = stored("1", "service", "e");
    strange.kind = text("other");
    let mut database = Database::load(vec![strange], vec![stored_project("service")]).ok().unwrap();
    assert_eq!(database.successful_release("service", &sha('1')).unwrap_err().message(), kind);
    assert_eq!(
        database.create_rollback("service", &sha('1'), true).unwrap_err().message(),
        kind
    );
    assert_eq!(
        database.clean_deployments("service", 0, CleanDeploymentType::All).unwrap_err().message(),
        kind
    );
    assert_eq!(database.rows().0.len(), 1);
}

#[test]
fn what_has_begun_ends_while_its_project_is_stopped() {
    let mut database = database(&["a"]);
    add(&mut database, "a", "1", "2026-09-03T00:00:00.000Z");
    database.next_pending().unwrap().unwrap();
    database.stop_project("a").unwrap();
    assert!(database.next_pending().unwrap().is_none());
    database.set_status("1", DeploymentStatus::Building).unwrap();
    database.set_release("1", "/r/1").unwrap();
    database.set_activation("1", &None).unwrap();
    database.mark_succeeded("1").unwrap();
    let deployment = database.get_deployment("1").unwrap();
    assert_eq!(deployment.status, DeploymentStatus::Succeeded);
    assert_eq!(deployment.release_path.as_deref(), Some("/r/1"));
    assert!(database.project_state("a").unwrap().stopped);
}

#[test]
fn a_project_that_another_links_to_is_not_deleted() {
    let load = || {
        let mut linked = stored("2", "other", "f");
        linked.retry_of = Some(text("1"));
        Database::load(
            vec![stored("1", "service", "e"), linked],
            vec![stored_project("service"), stored_project("other")],
        )
        .ok()
        .unwrap()
    };
    let mut database = load();
    assert_eq!(database.get_deployment("2").unwrap().retry_of.as_deref(), Some("1"));
    database.stop_project("service").unwrap();
    assert_eq!(
        database.delete_project("service").unwrap_err().message(),
        "database operation failed: \
         error returned from database: (code: 787) FOREIGN KEY constraint failed"
    );
    assert!(database.get_deployment("1").is_ok());
    assert!(database.project_state("service").unwrap().stopped);

    database.stop_project("other").unwrap();
    database.delete_project("other").unwrap();
    database.delete_project("service").unwrap();
    assert!(database.get_deployment("1").is_err());

    let mut database = load();
    let gone = database.clean_deployments("service", 0, CleanDeploymentType::All).unwrap();
    assert_eq!(ids(&gone), ["1"]);
    assert_eq!(database.get_deployment("2").unwrap().retry_of, None);
}

#[test]
fn databases_of_each_version_are_brought_up_to_date() {
    assert_eq!(plan_schema(0, 0).unwrap(), SchemaPlan::Create);
    assert_eq!(plan_schema(0, 1).unwrap(), SchemaPlan::RebuildAndAddStopped);
    assert_eq!(plan_schema(1, 1).unwrap(), SchemaPlan::AddStopped);
    assert_eq!(plan_schema(2, 1).unwrap(), SchemaPlan::Keep);
    for (version, count) in [(1, 0), (2, 0), (3, 1), (-1, 1), (2, 2)] {
        assert_eq!(
            plan_schema(version, count).unwrap_err().message(),
            format!(
                "deployment state is invalid: unsupported deployment database schema \
                 version {version} with deployments table count {count}"
            )
        );
    }
}

#[test]
fn the_deployments_table_knows_every_state() {
    for name in ["deployments", "deployments_v1"] {
        let sql = create_deployments_table_sql(name).unwrap();
        assert!(sql.contains(&format!("CREATE TABLE {name} (")));
        assert!(sql.contains(&format!("FOREIGN KEY (retry_of) REFERENCES {name}(id)")));
        assert!(sql.contains("'migrating'"));
        assert!(sql.trim().ends_with(") STRICT"));
    }
    assert_eq!(
        create_deployments_table_sql("users").unwrap_err().message(),
        "deployment state is invalid: unsupported internal deployments table name \"users\""
    );
}

#[test]
fn the_health_query_must_answer_one() {
    assert!(Database::health(1).is_ok());
    assert_eq!(
        Database::health(7).unwrap_err().message(),
        "deployment state is invalid: SQLite health query returned 7, expected 1"
    );
}
