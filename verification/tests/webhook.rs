use aynur_deploy::config::{
    DeploymentTarget, GlobalConfig, HealthCheck, IpAddress, ListenAddress, LoadedConfig, Project,
    SecretString,
};
use aynur_deploy::db::Database;
use aynur_deploy::error::AppError;
use aynur_deploy::web::{
    authenticate, gitee_hook, healthz, ignored_response, receive_hook, validate_payload, Body,
    GiteeRepository, GiteeTagPayload, Header, HookRequest, HookResponse, Reception,
};

const TOKEN: &str = "integration-test-token-with-high-entropy";
const PROJECT_ID: &str = "test-static";
const REPOSITORY_FULL_NAME: &str = "aynurcn/test-static";
const COMMIT: &str = "5a1f0b7c9d2e4f60718293a4b5c6d7e8f9012345";

fn text(value: &str) -> String {
    value.to_owned()
}

fn project() -> Project {
    Project {
        config_path: text("/srv/projects/test-static.toml"),
        project_id: text(PROJECT_ID),
        current_path: text("/srv/published/current"),
        repository_full_name: text(REPOSITORY_FULL_NAME),
        repository_url: text("/srv/origin.git"),
        webhook_token: SecretString::new(text(TOKEN)),
        tag_pattern: text("^deploy-[0-9]{8}-[0-9]{6}$"),
        retain_releases: 3,
        health_check: HealthCheck {
            url: text("http://127.0.0.1:9000/health"),
            attempts: 2,
            interval_ms: 1,
            timeout_ms: 1000,
        },
        deployment: DeploymentTarget::Static { entry_file: text("index.html") },
        migration: None,
        reload: Vec::new(),
    }
}

fn configuration() -> LoadedConfig {
    LoadedConfig {
        global: GlobalConfig {
            listen_address: ListenAddress {
                ip: IpAddress::V4([127, 0, 0, 1]),
                text: text("127.0.0.1:9091"),
            },
            database_path: text("/srv/deployments.sqlite3"),
            state_directory: text("/srv/state"),
            projects_directory: text("/srv/projects"),
            git_command: text("/usr/bin/git"),
            cargo_command: text("/usr/bin/git"),
            git_fetch_attempts: 2,
            git_fetch_retry_delay_ms: 1,
            command_timeout_seconds: 30,
            max_webhook_body_bytes: 65536,
            worker_poll_interval_ms: 10,
        },
        projects: vec![project()],
    }
}

fn webhook_payload(
    repository: &str,
    tag_ref: &str,
    after: &str,
    created: bool,
    deleted: bool,
) -> GiteeTagPayload {
    GiteeTagPayload {
        hook_name: text("tag_push_hooks"),
        created,
        deleted,
        reference: text(tag_ref),
        after: text(after),
        repository: GiteeRepository { full_name: text(repository) },
    }
}

fn request(token: &str, payload: GiteeTagPayload) -> HookRequest {
    HookRequest {
        project_id: text(PROJECT_ID),
        token: Some(token.as_bytes().to_vec()),
        ping: Header::Text(text("false")),
        body: Body::Payload(payload),
    }
}

fn send_webhook(
    database: &mut Database,
    token: &str,
    payload: GiteeTagPayload,
) -> Result<(u16, HookResponse), AppError> {
    gitee_hook(&configuration(), database, request(token, payload))
}

fn usual() -> GiteeTagPayload {
    webhook_payload(
        REPOSITORY_FULL_NAME,
        "refs/tags/deploy-20260901-120006",
        COMMIT,
        true,
        false,
    )
}

fn setup() -> Database {
    let mut database = Database::empty();
    database.register_projects(&vec![text(PROJECT_ID)]);
    database
}

#[test]
fn webhook_authentication_filtering_and_deduplication_are_strict() {
    let mut database = setup();

    let first = send_webhook(&mut database, TOKEN, usual()).unwrap();
    assert_eq!(first.0, 202);
    assert!(first.1.accepted);
    let first_id = first.1.deployment.unwrap().id;

    let duplicate = send_webhook(&mut database, TOKEN, usual()).unwrap();
    assert_eq!(duplicate.0, 200);
    assert!(duplicate.1.duplicate);
    assert_eq!(duplicate.1.deployment.unwrap().id, first_id);

    let wrong_token = send_webhook(&mut database, "wrong-token", usual()).unwrap_err();
    assert_eq!(wrong_token.status_code(), 401);
    assert_eq!(wrong_token.code(), "authenticationFailed");

    let wrong_repository = send_webhook(
        &mut database,
        TOKEN,
        webhook_payload(
            "aynurcn/other",
            "refs/tags/deploy-20260901-120006",
            COMMIT,
            true,
            false,
        ),
    )
    .unwrap_err();
    assert_eq!(wrong_repository.status_code(), 400);

    let ignored = send_webhook(
        &mut database,
        TOKEN,
        webhook_payload(REPOSITORY_FULL_NAME, "refs/tags/release-1", COMMIT, true, false),
    )
    .unwrap();
    assert_eq!(ignored.0, 200);
    assert_eq!(ignored.1.reason, Some("tagPatternMismatch"));

    let deleted = send_webhook(
        &mut database,
        TOKEN,
        webhook_payload(
            REPOSITORY_FULL_NAME,
            "refs/tags/deploy-20260901-120006",
            "0000000000000000000000000000000000000000",
            false,
            true,
        ),
    )
    .unwrap();
    assert_eq!(deleted.0, 200);
    assert_eq!(deleted.1.reason, Some("tagDeleted"));
}

#[test]
fn accepted_events_are_queued_as_sent() {
    let mut database = setup();
    let (_, response) = send_webhook(&mut database, TOKEN, usual()).unwrap();
    assert!(response.ok && !response.duplicate);
    assert_eq!(response.reason, None);
    let deployment = response.deployment.unwrap();
    assert_eq!(
        deployment.event_key,
        format!("gitee:{PROJECT_ID}:refs/tags/deploy-20260901-120006:{COMMIT}")
    );
    assert_eq!(deployment.tag, "deploy-20260901-120006");
    assert_eq!(deployment.requested_sha, COMMIT);
    assert_eq!(database.deployments_for_project(PROJECT_ID).unwrap().len(), 1);
}

#[test]
fn refused_requests_leave_the_database_alone() {
    let mut database = setup();
    assert!(send_webhook(&mut database, "", usual()).is_err());
    let mut unknown = request(TOKEN, usual());
    unknown.project_id = text("other");
    assert_eq!(
        gitee_hook(&configuration(), &mut database, unknown).unwrap_err().code(),
        "projectNotFound"
    );
    let mut anonymous = request(TOKEN, usual());
    anonymous.token = None;
    assert_eq!(
        gitee_hook(&configuration(), &mut database, anonymous).unwrap_err().message(),
        "authentication failed: X-Gitee-Token header is required"
    );
    assert!(database.deployments_for_project(PROJECT_ID).unwrap().is_empty());
    database.stop_project(PROJECT_ID).unwrap();
    let stopped = send_webhook(&mut database, TOKEN, usual()).unwrap_err();
    assert_eq!((stopped.code(), stopped.status_code()), ("projectStopped", 409));
}

#[test]
fn pings_are_answered_after_authentication() {
    let config = configuration();
    let ping = |token: &str, header: Header| {
        let mut sent = request(token, usual());
        sent.ping = header;
        receive_hook(&config, sent)
    };
    match ping(TOKEN, Header::Text(text("true"))).unwrap() {
        Reception::Answer(response) => {
            assert_eq!(response.reason, Some("ping"));
            assert!(response.ok && !response.accepted && !response.duplicate);
        }
        other => panic!("unexpected {other:?}"),
    }
    assert_eq!(ping("wrong", Header::Text(text("true"))).unwrap_err().status_code(), 401);
    assert!(matches!(ping(TOKEN, Header::Absent), Ok(Reception::Deploy(_))));
    assert!(matches!(ping(TOKEN, Header::Text(text("false"))), Ok(Reception::Deploy(_))));
    let other = ping(TOKEN, Header::Text(text("yes"))).unwrap_err();
    assert_eq!(other.code(), "requestInvalid");
    assert!(other.message().contains("\"yes\""));
    let invalid = ping(TOKEN, Header::Invalid { source: text("not ASCII") }).unwrap_err();
    assert_eq!(
        invalid.message(),
        "request validation failed: X-Gitee-Ping header is not valid ASCII: not ASCII"
    );
}

#[test]
fn bodies_that_cannot_be_read_are_refused() {
    let config = configuration();
    let send = |body: Body| {
        let mut sent = request(TOKEN, usual());
        sent.body = body;
        receive_hook(&config, sent).unwrap_err()
    };
    let large = send(Body::TooLarge { reason: text("length limit exceeded") });
    assert_eq!((large.code(), large.status_code()), ("requestTooLarge", 413));
    assert_eq!(
        send(Body::Rejected { reason: text("aborted") }).message(),
        "request validation failed: aborted"
    );
    assert_eq!(
        send(Body::Malformed { source: text("expected value at line 1 column 1") }).message(),
        "request validation failed: request body must be a valid Gitee Tag WebHook JSON object: \
         expected value at line 1 column 1"
    );
}

fn refused(change: fn(&mut GiteeTagPayload)) -> String {
    let mut payload = usual();
    change(&mut payload);
    match validate_payload(&project(), &payload).unwrap_err() {
        AppError::RequestValidation { reason } => reason,
        other => panic!("unexpected {other:?}"),
    }
}

#[test]
fn payloads_are_validated() {
    assert!(validate_payload(&project(), &usual()).is_ok());
    assert_eq!(
        refused(|payload| payload.hook_name = text("push_hooks")),
        "hook_name must be \"tag_push_hooks\", got \"push_hooks\""
    );
    assert_eq!(
        refused(|payload| payload.deleted = true),
        "created and deleted cannot both be true"
    );
    assert_eq!(
        refused(|payload| payload.repository.full_name = text("a/b")),
        "repository.full_name must be \"aynurcn/test-static\", got \"a/b\""
    );
    assert_eq!(
        refused(|payload| payload.reference = text("refs/heads/main")),
        "ref \"refs/heads/main\" is not a Tag ref"
    );
    assert_eq!(
        refused(|payload| payload.reference = text("refs/tags/")),
        "ref must contain a non-empty Tag name"
    );
    assert_eq!(
        refused(|payload| payload.after = text("ABC")),
        "after must be a lowercase 40-character hexadecimal Git object ID, got \"ABC\""
    );
    assert_eq!(
        refused(|payload| payload.after = "0".repeat(40)),
        "created Tag after cannot be the all-zero Git object ID"
    );
}

#[test]
fn tags_that_were_not_created_are_ignored() {
    let mut database = setup();
    let mut payload = usual();
    payload.created = false;
    let (status, response) = send_webhook(&mut database, TOKEN, payload).unwrap();
    assert_eq!((status, response.reason), (200, Some("tagNotCreated")));
    assert!(database.deployments_for_project(PROJECT_ID).unwrap().is_empty());
    let response = ignored_response("why");
    assert!(response.ok && !response.accepted && !response.duplicate);
    assert_eq!(response.reason, Some("why"));
    assert!(response.deployment.is_none());
}

#[test]
fn tokens_must_match_byte_for_byte() {
    assert!(authenticate(&project(), &Some(TOKEN.as_bytes().to_vec())).is_ok());
    for token in ["", "integration-test-token-with-high-entrop", "wrong"] {
        assert_eq!(
            authenticate(&project(), &Some(token.as_bytes().to_vec())).unwrap_err().message(),
            "authentication failed: X-Gitee-Token does not match the configured project token"
        );
    }
    let mut wide = project();
    wide.webhook_token = SecretString::new(text("\u{5bc6}"));
    assert!(authenticate(&wide, &Some("\u{5bc6}".as_bytes().to_vec())).is_ok());
}

#[test]
fn the_service_is_healthy_where_the_database_answers() {
    let response = healthz(1).ok().unwrap();
    assert!(response.ok);
    assert_eq!(response.status, "healthy");
    assert_eq!(healthz(0).err().unwrap().code(), "deploymentStateInvalid");
}
