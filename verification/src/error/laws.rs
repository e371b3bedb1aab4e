//! How errors are named, answered and told.
use vstd::prelude::*;

#[allow(unused_imports)]
use crate::error::AppErrorView;
#[allow(unused_imports)]
use crate::text::ends_with;
#[allow(unused_imports)]
use crate::text::laws::beginnings_and_endings;

verus! {

/// Errors are answered by their kind: what is not found, what is not authenticated, what is too
/// large, what the state does not allow, what is asked for wrongly, and what failed inside.
pub proof fn errors_are_answered_by_their_kind(error: AppErrorView)
    ensures
        error.status_code() == 404 <==> error is ProjectNotFound || error is DeploymentNotFound
            || error is ReleaseNotFound,
        error.status_code() == 401 <==> error is Authentication,
        error.status_code() == 413 <==> error is RequestTooLarge,
        error.status_code() == 409 <==> error is ProjectStopped || error is ProjectBlocked || error
            is ProjectMustBeStopped || error is ProjectDeploymentActive || error is InvalidState,
        error.status_code() == 400 <==> error is Config || error is RequestValidation || error
            is DeploymentNotRetryable,
        error.status_code() == 500 <==> error is Database || error is FileSystem || error
            is EnvironmentFile || error is CommandFailed || error is CommandTimedOut || error
            is HealthCheck || error is TaskJoin,
{
}

/// Errors are named by their kind.
pub proof fn errors_are_named_by_their_kind(error: AppErrorView)
    ensures
        error is Config ==> error.code() == "configInvalid"@,
        error is Database ==> error.code() == "databaseError"@,
        error is FileSystem ==> error.code() == "fileSystemError"@,
        error is EnvironmentFile ==> error.code() == "environmentFileInvalid"@,
        error is CommandFailed ==> error.code() == "commandFailed"@,
        error is CommandTimedOut ==> error.code() == "commandTimedOut"@,
        error is HealthCheck ==> error.code() == "healthCheckFailed"@,
        error is RequestValidation ==> error.code() == "requestInvalid"@,
        error is RequestTooLarge ==> error.code() == "requestTooLarge"@,
        error is Authentication ==> error.code() == "authenticationFailed"@,
        error is ProjectNotFound ==> error.code() == "projectNotFound"@,
        error is ProjectStopped ==> error.code() == "projectStopped"@,
        error is ProjectBlocked ==> error.code() == "projectBlocked"@,
        error is ProjectMustBeStopped ==> error.code() == "projectMustBeStopped"@,
        error is ProjectDeploymentActive ==> error.code() == "projectDeploymentActive"@,
        error is DeploymentNotFound ==> error.code() == "deploymentNotFound"@,
        error is DeploymentNotRetryable ==> error.code() == "deploymentNotRetryable"@,
        error is ReleaseNotFound ==> error.code() == "releaseNotFound"@,
        error is InvalidState ==> error.code() == "deploymentStateInvalid"@,
        error is TaskJoin ==> error.code() == "taskFailed"@,
{
}

/// The text of an error tells the reason of it to the end.
pub proof fn errors_tell_their_reason(error: AppErrorView)
    ensures
        match error {
            AppErrorView::Config { reason, .. } => ends_with(error.message(), reason),
            AppErrorView::Database { source } => ends_with(error.message(), source),
            AppErrorView::FileSystem { source, .. } => ends_with(error.message(), source),
            AppErrorView::EnvironmentFile { reason, .. } => ends_with(error.message(), reason),
            AppErrorView::HealthCheck { reason, .. } => ends_with(error.message(), reason),
            AppErrorView::RequestValidation { reason } => ends_with(error.message(), reason),
            AppErrorView::RequestTooLarge { reason } => ends_with(error.message(), reason),
            AppErrorView::Authentication { reason } => ends_with(error.message(), reason),
            AppErrorView::InvalidState { reason } => ends_with(error.message(), reason),
            AppErrorView::TaskJoin { reason } => ends_with(error.message(), reason),
            AppErrorView::ReleaseNotFound { commit_sha, .. } => ends_with(
                error.message(),
                commit_sha,
            ),
            AppErrorView::ProjectDeploymentActive { status, .. } => ends_with(
                error.message(),
                status,
            ),
            _ => true,
        },
{
    match error {
        AppErrorView::Config { path, reason } => {
            beginnings_and_endings(
                reason,
                reason,
                "configuration "@ + path + " is invalid: "@,
            );
        },
        AppErrorView::Database { source } => {
            beginnings_and_endings(source, source, "database operation failed: "@);
        },
        AppErrorView::FileSystem { operation, path, source } => {
            beginnings_and_endings(
                source,
                source,
                "filesystem operation "@ + operation + " failed for "@ + path + ": "@,
            );
        },
        AppErrorView::EnvironmentFile { path, reason } => {
            beginnings_and_endings(
                reason,
                reason,
                "environment file "@ + path + " is invalid: "@,
            );
        },
        AppErrorView::HealthCheck { url, reason } => {
            beginnings_and_endings(
                reason,
                reason,
                "HTTP health check for "@ + url + " failed: "@,
            );
        },
        AppErrorView::RequestValidation { reason } => {
            beginnings_and_endings(reason, reason, "request validation failed: "@);
        },
        AppErrorView::RequestTooLarge { reason } => {
            beginnings_and_endings(reason, reason, "request body is too large: "@);
        },
        AppErrorView::Authentication { reason } => {
            beginnings_and_endings(reason, reason, "authentication failed: "@);
        },
        AppErrorView::InvalidState { reason } => {
            beginnings_and_endings(reason, reason, "deployment state is invalid: "@);
        },
        AppErrorView::TaskJoin { reason } => {
            beginnings_and_endings(reason, reason, "background task failed: "@);
        },
        AppErrorView::ReleaseNotFound { project_id, commit_sha } => {
            beginnings_and_endings(
                commit_sha,
                commit_sha,
                "project "@ + project_id + " has no successful release for commit "@,
            );
        },
        AppErrorView::ProjectDeploymentActive { project_id, deployment_id, status } => {
            beginnings_and_endings(
                status,
                status,
                "project "@ + project_id + " cannot be deleted while deployment "@ + deployment_id
                    + " is "@,
            );
        },
        _ => {},
    }
}

} // verus!
