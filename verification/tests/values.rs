use aynur_deploy::health::{single_health_check, ProbeBody, ProbeOutcome};
use aynur_deploy::model::{
    CleanDeploymentType, Deployment, DeploymentKind, DeploymentRow, DeploymentStatus,
    ProjectState, ProjectStateRow, ProjectStatus,
};
use aynur_deploy::pattern::{is_name, is_project_id, is_repository_name, tag_matches};
use aynur_deploy::process::{run_command, CommandOutcome, CommandSpec, StreamOutcome};
use aynur_deploy::stamp::china_datetime;

fn text(value: &str) -> String {
    value.to_owned()
}

const STATUSES: [(DeploymentStatus, &str); 10] = [
    (DeploymentStatus::Queued, "queued"),
    (DeploymentStatus::Fetching, "fetching"),
    (DeploymentStatus::Building, "building"),
    (DeploymentStatus::Migrating, "migrating"),
    (DeploymentStatus::Activating, "activating"),
    (DeploymentStatus::HealthChecking, "healthChecking"),
    (DeploymentStatus::RollingBack, "rollingBack"),
    (DeploymentStatus::Succeeded, "succeeded"),
    (DeploymentStatus::Failed, "failed"),
    (DeploymentStatus::RollbackFailed, "rollbackFailed"),
];

fn row(kind: &str, status: &str) -> DeploymentRow {
    DeploymentRow {
        id: text("deployment-1"),
        project_id: text("service"),
        event_key: text("event-1"),
        kind: text(kind),
        tag: text("deploy-20260903-120000"),
        requested_sha: text("1111111111111111111111111111111111111111"),
        commit_sha: Some(text("2222222222222222222222222222222222222222")),
        release_path: Some(text("/release/one")),
        previous_release_path: None,
        status: text(status),
        error_code: None,
        error_message: Some(text("m")),
        retry_of: None,
        created_at: text("2026-09-03T00:00:00Z"),
        updated_at: text("2026-09-03T00:00:01Z"),
        completed_at: Some(text("2026-09-03T00:00:02Z")),
    }
}

#[test]
fn states_and_kinds_read_back() {
    for (status, name) in STATUSES {
        assert_eq!(status.name(), name);
        assert_eq!(DeploymentStatus::from_str(name).unwrap(), status);
    }
    for (kind, name) in [(DeploymentKind::Deploy, "deploy"), (DeploymentKind::Rollback, "rollback")]
    {
        assert_eq!(kind.name(), name);
        assert_eq!(DeploymentKind::from_str(name).unwrap(), kind);
    }
    assert_eq!(
        DeploymentStatus::from_str("Queued").unwrap_err().message(),
        "deployment state is invalid: unknown deployment status \"Queued\""
    );
    assert_eq!(
        DeploymentKind::from_str("").unwrap_err().message(),
        "deployment state is invalid: unknown deployment kind \"\""
    );
}

#[test]
fn states_are_under_way_or_ended_or_queued() {
    for (status, _) in STATUSES {
        let ended = matches!(
            status,
            DeploymentStatus::Succeeded | DeploymentStatus::Failed | DeploymentStatus::RollbackFailed
        );
        assert_eq!(status.is_ended(), ended);
        assert_eq!(status.is_under_way(), !ended && status != DeploymentStatus::Queued);
        assert_eq!(CleanDeploymentType::All.matches_status(status), ended);
        assert_eq!(
            CleanDeploymentType::Succeeded.matches_status(status),
            status == DeploymentStatus::Succeeded
        );
        assert_eq!(
            CleanDeploymentType::Failed.matches_status(status),
            ended && status != DeploymentStatus::Succeeded
        );
    }
}

#[test]
fn stored_deployments_read_back() {
    let deployment = Deployment::try_from(row("deploy", "succeeded")).unwrap();
    assert_eq!(deployment.kind, DeploymentKind::Deploy);
    assert_eq!(deployment.status, DeploymentStatus::Succeeded);
    assert_eq!(deployment.release_path.as_deref(), Some("/release/one"));
    assert_eq!(deployment.error_message.as_deref(), Some("m"));
    let again = deployment.row();
    assert_eq!(format!("{again:?}"), format!("{:?}", row("deploy", "succeeded")));
    assert_eq!(format!("{:?}", deployment.copy()), format!("{deployment:?}"));
    assert_eq!(
        Deployment::try_from(row("build", "lost")).unwrap_err().message(),
        "deployment state is invalid: unknown deployment kind \"build\""
    );
    assert_eq!(
        Deployment::try_from(row("deploy", "lost")).unwrap_err().message(),
        "deployment state is invalid: unknown deployment status \"lost\""
    );
}

#[test]
fn project_states_show_blocking_before_stopping() {
    for (stopped, blocked, status) in [
        (0, 0, ProjectStatus::Running),
        (1, 0, ProjectStatus::Stopped),
        (0, 1, ProjectStatus::Blocked),
        (1, 1, ProjectStatus::Blocked),
    ] {
        let state = ProjectState::from_row(ProjectStateRow {
            project_id: text("service"),
            stopped,
            blocked,
            blocked_reason: Some(text("r")),
            updated_at: text("2026-09-03T00:00:00Z"),
        });
        assert_eq!(state.status, status);
        assert_eq!((state.stopped, state.blocked), (stopped != 0, blocked != 0));
        assert_eq!(state.project_id, "service");
        assert_eq!(state.blocked_reason.as_deref(), Some("r"));
        assert_eq!(state.updated_at, "2026-09-03T00:00:00Z");
    }
}

#[test]
fn times_are_shown_eight_hours_east() {
    assert_eq!(china_datetime("2026-09-03T20:00:01.250Z").unwrap(), "2026-09-04 04:00:01");
    assert_eq!(china_datetime("2026-09-03T20:00:01+08:00").unwrap(), "2026-09-03 20:00:01");
    assert!(china_datetime("yesterday").is_err());
}

#[test]
fn patterns_are_matched_by_the_regex_engine() {
    let pattern = "^deploy-[0-9]{8}-[0-9]{6}$";
    assert!(tag_matches(pattern, "deploy-20260901-120006"));
    assert!(!tag_matches(pattern, "release-1"));
    assert!(!tag_matches(pattern, "deploy-20260901-120006x"));
    assert!(is_project_id("orhan-blog"));
    assert!(is_project_id(&"a".repeat(64)));
    for id in ["", "-a", "A", "a_b", "a\n", "\u{e9}"] {
        assert!(!is_project_id(id), "{id:?}");
    }
    assert!(!is_project_id(&"a".repeat(65)));
    assert!(is_repository_name("a.b_c/d-e"));
    assert!(!is_repository_name("a/b/c"));
    assert!(is_name("x.y"));
    assert!(!is_name(".x"));
}

fn command() -> CommandSpec {
    CommandSpec {
        program: text("/usr/bin/git"),
        args: vec![text("fetch")],
        current_directory: None,
        environment: Vec::new(),
    }
}

fn lines(list: &[&str]) -> StreamOutcome {
    StreamOutcome::Lines(list.iter().map(|line| (*line).to_owned()).collect())
}

fn exited(status: Option<i32>, stdout: StreamOutcome, stderr: StreamOutcome) -> CommandOutcome {
    CommandOutcome::Exited { status, stdout, stderr }
}

#[test]
fn successful_commands_give_their_lines() {
    let outcome = exited(Some(0), lines(&["a", "b"]), lines(&[]));
    let output = run_command(&command(), 30, outcome).unwrap();
    assert_eq!(output.stdout, "a\nb");
    assert_eq!(output.stderr, "");
}

#[test]
fn failed_commands_are_reported_with_their_output() {
    let prefix = "command \"/usr/bin/git\" [\"fetch\"]";
    let cases = [
        (
            exited(Some(1), lines(&["o"]), lines(&["e"])),
            format!("{prefix} failed with status Some(1); stdout=\"o\"; stderr=\"e\""),
        ),
        (
            exited(None, lines(&[]), lines(&[])),
            format!("{prefix} failed with status None; stdout=\"\"; stderr=\"\""),
        ),
        (
            CommandOutcome::NotStarted { source: text("not found") },
            format!("{prefix} failed with status None; stdout=\"\"; stderr=\"not found\""),
        ),
        (
            CommandOutcome::WaitFailed { source: text("lost") },
            format!("{prefix} failed with status None; stdout=\"\"; stderr=\"lost\""),
        ),
        (
            CommandOutcome::NotKilled { source: text("busy") },
            format!(
                "{prefix} failed with status None; stdout=\"\"; \
                 stderr=\"timed out and failed to terminate command: busy\""
            ),
        ),
        (CommandOutcome::TimedOut, format!("{prefix} timed out after 30 seconds")),
        (
            CommandOutcome::NoStdout,
            "deployment state is invalid: \
             command \"/usr/bin/git\" stdout pipe was not available"
                .to_owned(),
        ),
        (
            CommandOutcome::NoStderr,
            "deployment state is invalid: \
             command \"/usr/bin/git\" stderr pipe was not available"
                .to_owned(),
        ),
        (
            exited(Some(0), StreamOutcome::Failed { source: text("utf") }, lines(&[])),
            format!(
                "{prefix} failed with status None; stdout=\"\"; \
                 stderr=\"failed to read stdout: utf\""
            ),
        ),
        (
            exited(Some(0), lines(&[]), StreamOutcome::Lost { source: text("panic") }),
            "background task failed: command \"/usr/bin/git\" stderr reader failed: panic"
                .to_owned(),
        ),
    ];
    for (outcome, message) in cases {
        assert_eq!(run_command(&command(), 30, outcome).unwrap_err().message(), message);
    }
}

fn answered(status: u16, status_text: &str, body: ProbeBody) -> ProbeOutcome {
    ProbeOutcome::Answered { status, status_text: text(status_text), body }
}

#[test]
fn only_success_statuses_are_healthy() {
    for status in [200, 204, 299] {
        let outcome = answered(status, "OK", ProbeBody::Read(b"ignored".to_vec()));
        assert!(single_health_check("http://h/", outcome).is_ok());
    }
    for status in [199, 300, 404, 503] {
        let outcome = answered(status, "x", ProbeBody::Read(Vec::new()));
        assert!(single_health_check("http://h/", outcome).is_err());
    }
}

#[test]
fn unhealthy_answers_show_the_start_of_their_body() {
    let body = ProbeBody::Read(vec![b'd', b'o', b'w', b'n', 0xff, b'"']);
    let outcome = answered(503, "503 Service Unavailable", body);
    assert_eq!(
        single_health_check("http://h/", outcome).unwrap_err().message(),
        format!(
            "HTTP health check for http://h/ failed: status 503 Service Unavailable; \
             responseBody={:?}",
            "down\u{fffd}\""
        )
    );
    let long = ProbeBody::Read(vec![b'a'; 2000]);
    let message =
        single_health_check("http://h/", answered(500, "500 X", long)).unwrap_err().message();
    assert!(message.ends_with(&format!("responseBody={:?}", "a".repeat(1024))));
    let unread = ProbeBody::Failed { source: text("reset") };
    assert_eq!(
        single_health_check("http://h/", answered(500, "500 X", unread)).unwrap_err().message(),
        "HTTP health check for http://h/ failed: \
         status 500 X; failed to read response body: reset"
    );
    let failed = ProbeOutcome::Failed { source: text("refused") };
    assert_eq!(
        single_health_check("http://h/", failed).unwrap_err().message(),
        "HTTP health check for http://h/ failed: refused"
    );
}
