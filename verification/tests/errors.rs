use std::path::Path;

use aynur_deploy::error::{config_error, file_error, invalid_request, invalid_state, AppError};

fn text(value: &str) -> String {
    value.to_owned()
}

#[test]
fn every_error_has_its_code_status_and_message() {
    let args = vec![text("a b"), text("c\"d")];
    let cases = [
        (
            AppError::Config { path: text("/c.toml"), reason: text("r") },
            ("configInvalid", 400, "configuration /c.toml is invalid: r".to_owned()),
        ),
        (
            AppError::Database { source: text("locked") },
            ("databaseError", 500, "database operation failed: locked".to_owned()),
        ),
        (
            AppError::FileSystem { operation: "copy", path: text("/p"), source: text("denied") },
            (
                "fileSystemError",
                500,
                "filesystem operation copy failed for /p: denied".to_owned(),
            ),
        ),
        (
            AppError::EnvironmentFile { path: text("/e"), reason: text("r") },
            ("environmentFileInvalid", 500, "environment file /e is invalid: r".to_owned()),
        ),
        (
            AppError::CommandFailed {
                program: text("/usr/bin/git"),
                args: args.clone(),
                status: Some(128),
                stdout: text("out"),
                stderr: text("a\nb"),
            },
            (
                "commandFailed",
                500,
                format!(
                    "command {:?} {:?} failed with status {:?}; stdout={:?}; stderr={:?}",
                    Path::new("/usr/bin/git"),
                    args,
                    Some(128),
                    "out",
                    "a\nb"
                ),
            ),
        ),
        (
            AppError::CommandFailed {
                program: text("git"),
                args: Vec::new(),
                status: None,
                stdout: text(""),
                stderr: text(""),
            },
            (
                "commandFailed",
                500,
                "command \"git\" [] failed with status None; stdout=\"\"; stderr=\"\"".to_owned(),
            ),
        ),
        (
            AppError::CommandTimedOut {
                program: text("git"),
                args: vec![text("fetch")],
                timeout_seconds: 1800,
            },
            (
                "commandTimedOut",
                500,
                "command \"git\" [\"fetch\"] timed out after 1800 seconds".to_owned(),
            ),
        ),
        (
            AppError::HealthCheck { url: text("http://h/"), reason: text("r") },
            ("healthCheckFailed", 500, "HTTP health check for http://h/ failed: r".to_owned()),
        ),
        (
            AppError::RequestValidation { reason: text("r") },
            ("requestInvalid", 400, "request validation failed: r".to_owned()),
        ),
        (
            AppError::RequestTooLarge { reason: text("r") },
            ("requestTooLarge", 413, "request body is too large: r".to_owned()),
        ),
        (
            AppError::Authentication { reason: text("r") },
            ("authenticationFailed", 401, "authentication failed: r".to_owned()),
        ),
        (
            AppError::ProjectNotFound { project_id: text("p") },
            ("projectNotFound", 404, "project p was not found".to_owned()),
        ),
        (
            AppError::ProjectStopped { project_id: text("p") },
            (
                "projectStopped",
                409,
                "project p is stopped; run `aynur-deploy start p` first".to_owned(),
            ),
        ),
        (
            AppError::ProjectBlocked { project_id: text("p"), reason: text("r") },
            (
                "projectBlocked",
                409,
                "project p is blocked: r; resolve the failure and run `aynur-deploy unblock p`"
                    .to_owned(),
            ),
        ),
        (
            AppError::ProjectMustBeStopped { project_id: text("p") },
            (
                "projectMustBeStopped",
                409,
                "project p must be stopped before deletion; run `aynur-deploy stop p` first"
                    .to_owned(),
            ),
        ),
        (
            AppError::ProjectDeploymentActive {
                project_id: text("p"),
                deployment_id: text("d"),
                status: text("building"),
            },
            (
                "projectDeploymentActive",
                409,
                "project p cannot be deleted while deployment d is building".to_owned(),
            ),
        ),
        (
            AppError::DeploymentNotFound { deployment_id: text("d") },
            ("deploymentNotFound", 404, "deployment d was not found".to_owned()),
        ),
        (
            AppError::DeploymentNotRetryable { deployment_id: text("d"), status: text("queued") },
            (
                "deploymentNotRetryable",
                400,
                "deployment d is in state queued, which cannot be retried".to_owned(),
            ),
        ),
        (
            AppError::ReleaseNotFound { project_id: text("p"), commit_sha: text("c") },
            (
                "releaseNotFound",
                404,
                "project p has no successful release for commit c".to_owned(),
            ),
        ),
        (
            AppError::InvalidState { reason: text("r") },
            ("deploymentStateInvalid", 409, "deployment state is invalid: r".to_owned()),
        ),
        (
            AppError::TaskJoin { reason: text("r") },
            ("taskFailed", 500, "background task failed: r".to_owned()),
        ),
    ];
    for (error, (code, status, message)) in cases {
        assert_eq!(error.code(), code);
        assert_eq!(error.status_code(), status, "{code}");
        assert_eq!(error.message(), message);
    }
}

#[test]
fn error_helpers_keep_their_parts() {
    assert_eq!(
        file_error("copy", text("/a"), text("denied")).message(),
        "filesystem operation copy failed for /a: denied"
    );
    assert_eq!(config_error("/c", text("r")).message(), "configuration /c is invalid: r");
    assert_eq!(invalid_state(text("r")).code(), "deploymentStateInvalid");
    assert_eq!(invalid_request(text("r")).code(), "requestInvalid");
}
