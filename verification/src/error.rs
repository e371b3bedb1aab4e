//! Errors of the service: what they hold, their codes, their HTTP status and their text.
use vstd::prelude::*;

use crate::path::debug_path;
#[allow(unused_imports)]
use crate::path::path_debug;
use crate::text::{debug_text, decimal_text, exit_status_text, join_texts};
#[allow(unused_imports)]
use crate::text::{decimal, exit_status_debug, joined, str_debug};

pub mod laws;

verus! {

/// An error of the service.
#[allow(inconsistent_fields)]
#[derive(Debug)]
pub enum AppError {
    /// A configuration file or value is invalid.
    Config { path: String, reason: String },
    /// A database operation failed.
    Database { source: String },
    /// A filesystem operation failed.
    FileSystem { operation: &'static str, path: String, source: String },
    /// An environment file is invalid.
    EnvironmentFile { path: String, reason: String },
    /// A command could not run, or exited without success.
    CommandFailed { program: String, args: Vec<String>, status: Option<i32>, stdout: String, stderr: String },
    /// A command ran longer than it may.
    CommandTimedOut { program: String, args: Vec<String>, timeout_seconds: u64 },
    /// A health check failed.
    HealthCheck { url: String, reason: String },
    /// A request is invalid.
    RequestValidation { reason: String },
    /// A request body is too large.
    RequestTooLarge { reason: String },
    /// A request is not authenticated.
    Authentication { reason: String },
    /// A project does not exist.
    ProjectNotFound { project_id: String },
    /// A project is stopped.
    ProjectStopped { project_id: String },
    /// A project is blocked.
    ProjectBlocked { project_id: String, reason: String },
    /// A project is to be deleted but runs.
    ProjectMustBeStopped { project_id: String },
    /// A project has a deployment in progress.
    ProjectDeploymentActive { project_id: String, deployment_id: String, status: String },
    /// A deployment does not exist.
    DeploymentNotFound { deployment_id: String },
    /// A deployment is in a state that cannot be retried.
    DeploymentNotRetryable { deployment_id: String, status: String },
    /// A project has no release for a commit.
    ReleaseNotFound { project_id: String, commit_sha: String },
    /// A deployment is in a state that it may not be in.
    InvalidState { reason: String },
    /// A background task failed.
    TaskJoin { reason: String },
}

/// An error with the characters of its texts.
#[allow(inconsistent_fields)]
pub enum AppErrorView {
    /// A configuration file or value is invalid.
    Config { path: Seq<char>, reason: Seq<char> },
    /// A database operation failed.
    Database { source: Seq<char> },
    /// A filesystem operation failed.
    FileSystem { operation: Seq<char>, path: Seq<char>, source: Seq<char> },
    /// An environment file is invalid.
    EnvironmentFile { path: Seq<char>, reason: Seq<char> },
    /// A command could not run, or exited without success.
    CommandFailed { program: Seq<char>, args: Seq<Seq<char>>, status: Option<i32>, stdout: Seq<char>, stderr: Seq<char> },
    /// A command ran longer than it may.
    CommandTimedOut { program: Seq<char>, args: Seq<Seq<char>>, timeout_seconds: u64 },
    /// A health check failed.
    HealthCheck { url: Seq<char>, reason: Seq<char> },
    /// A request is invalid.
    RequestValidation { reason: Seq<char> },
    /// A request body is too large.
    RequestTooLarge { reason: Seq<char> },
    /// A request is not authenticated.
    Authentication { reason: Seq<char> },
    /// A project does not exist.
    ProjectNotFound { project_id: Seq<char> },
    /// A project is stopped.
    ProjectStopped { project_id: Seq<char> },
    /// A project is blocked.
    ProjectBlocked { project_id: Seq<char>, reason: Seq<char> },
    /// A project is to be deleted but runs.
    ProjectMustBeStopped { project_id: Seq<char> },
    /// A project has a deployment in progress.
    ProjectDeploymentActive { project_id: Seq<char>, deployment_id: Seq<char>, status: Seq<char> },
    /// A deployment does not exist.
    DeploymentNotFound { deployment_id: Seq<char> },
    /// A deployment is in a state that cannot be retried.
    DeploymentNotRetryable { deployment_id: Seq<char>, status: Seq<char> },
    /// A project has no release for a commit.
    ReleaseNotFound { project_id: Seq<char>, commit_sha: Seq<char> },
    /// A deployment is in a state that it may not be in.
    InvalidState { reason: Seq<char> },
    /// A background task failed.
    TaskJoin { reason: Seq<char> },
}

impl View for AppError {
    type V = AppErrorView;

    open spec fn view(&self) -> AppErrorView {
        match self {
            AppError::Config { path, reason } => AppErrorView::Config {
                path: path@,
                reason: reason@,
            },
            AppError::Database { source } => AppErrorView::Database { source: source@ },
            AppError::FileSystem { operation, path, source } => AppErrorView::FileSystem {
                operation: operation@,
                path: path@,
                source: source@,
            },
            AppError::EnvironmentFile { path, reason } => AppErrorView::EnvironmentFile {
                path: path@,
                reason: reason@,
            },
            AppError::CommandFailed { program, args, status, stdout, stderr } => AppErrorView::CommandFailed {
                program: program@,
                args: args.deep_view(),
                status: *status,
                stdout: stdout@,
                stderr: stderr@,
            },
            AppError::CommandTimedOut { program, args, timeout_seconds } => AppErrorView::CommandTimedOut {
                program: program@,
                args: args.deep_view(),
                timeout_seconds: *timeout_seconds,
            },
            AppError::HealthCheck { url, reason } => AppErrorView::HealthCheck {
                url: url@,
                reason: reason@,
            },
            AppError::RequestValidation { reason } => AppErrorView::RequestValidation {
                reason: reason@,
            },
            AppError::RequestTooLarge { reason } => AppErrorView::RequestTooLarge {
                reason: reason@,
            },
            AppError::Authentication { reason } => AppErrorView::Authentication { reason: reason@ },
            AppError::ProjectNotFound { project_id } => AppErrorView::ProjectNotFound {
                project_id: project_id@,
            },
            AppError::ProjectStopped { project_id } => AppErrorView::ProjectStopped {
                project_id: project_id@,
            },
            AppError::ProjectBlocked { project_id, reason } => AppErrorView::ProjectBlocked {
                project_id: project_id@,
                reason: reason@,
            },
            AppError::ProjectMustBeStopped { project_id } => AppErrorView::ProjectMustBeStopped {
                project_id: project_id@,
            },
            AppError::ProjectDeploymentActive { project_id, deployment_id, status } => AppErrorView::ProjectDeploymentActive {
                project_id: project_id@,
                deployment_id: deployment_id@,
                status: status@,
            },
            AppError::DeploymentNotFound { deployment_id } => AppErrorView::DeploymentNotFound {
                deployment_id: deployment_id@,
            },
            AppError::DeploymentNotRetryable { deployment_id, status } => AppErrorView::DeploymentNotRetryable {
                deployment_id: deployment_id@,
                status: status@,
            },
            AppError::ReleaseNotFound { project_id, commit_sha } => AppErrorView::ReleaseNotFound {
                project_id: project_id@,
                commit_sha: commit_sha@,
            },
            AppError::InvalidState { reason } => AppErrorView::InvalidState { reason: reason@ },
            AppError::TaskJoin { reason } => AppErrorView::TaskJoin { reason: reason@ },
        }
    }
}

impl DeepView for AppError {
    type V = AppErrorView;

    open spec fn deep_view(&self) -> AppErrorView {
        self@
    }
}

/// A result with the characters of the texts that it holds.
pub open spec fn outcome<T: DeepView>(result: Result<T, AppError>) -> Result<
    T::V,
    AppErrorView,
> {
    match result {
        Ok(value) => Ok(value.deep_view()),
        Err(error) => Err(error@),
    }
}

/// The text that `{:?}` prints for a list of arguments.
pub open spec fn args_debug(args: Seq<Seq<char>>) -> Seq<char> {
    "["@ + joined(args.map_values(|arg: Seq<char>| path_debug(arg)), ", "@) + "]"@
}

/// Prints a list of arguments as `{:?}` does.
fn debug_args(args: &Vec<String>) -> (text: String)
    ensures
        text@ == args_debug(args.deep_view()),
{
    let mut quoted: Vec<String> = Vec::new();
    let mut i: usize = 0;
    while i < args.len()
        invariant
            i <= args.len(),
            quoted.len() == i,
            forall|j: int| 0 <= j < i ==> (#[trigger] quoted[j])@ == path_debug(args[j]@),
        decreases args.len() - i,
    {
        quoted.push(debug_path(args[i].as_str()));
        i += 1;
    }
    assert(quoted.deep_view() =~= args.deep_view().map_values(|arg: Seq<char>| path_debug(arg)));
    let mut text = "[".to_owned();
    text.append(join_texts(&quoted, ", ").as_str());
    text.append("]");
    text
}

impl AppErrorView {
    /// The code that names the kind of the error.
    pub open spec fn code(self) -> Seq<char> {
        match self {
            AppErrorView::Config { .. } => "configInvalid"@,
            AppErrorView::Database { .. } => "databaseError"@,
            AppErrorView::FileSystem { .. } => "fileSystemError"@,
            AppErrorView::EnvironmentFile { .. } => "environmentFileInvalid"@,
            AppErrorView::CommandFailed { .. } => "commandFailed"@,
            AppErrorView::CommandTimedOut { .. } => "commandTimedOut"@,
            AppErrorView::HealthCheck { .. } => "healthCheckFailed"@,
            AppErrorView::RequestValidation { .. } => "requestInvalid"@,
            AppErrorView::RequestTooLarge { .. } => "requestTooLarge"@,
            AppErrorView::Authentication { .. } => "authenticationFailed"@,
            AppErrorView::ProjectNotFound { .. } => "projectNotFound"@,
            AppErrorView::ProjectStopped { .. } => "projectStopped"@,
            AppErrorView::ProjectBlocked { .. } => "projectBlocked"@,
            AppErrorView::ProjectMustBeStopped { .. } => "projectMustBeStopped"@,
            AppErrorView::ProjectDeploymentActive { .. } => "projectDeploymentActive"@,
            AppErrorView::DeploymentNotFound { .. } => "deploymentNotFound"@,
            AppErrorView::DeploymentNotRetryable { .. } => "deploymentNotRetryable"@,
            AppErrorView::ReleaseNotFound { .. } => "releaseNotFound"@,
            AppErrorView::InvalidState { .. } => "deploymentStateInvalid"@,
            AppErrorView::TaskJoin { .. } => "taskFailed"@,
        }
    }

    /// The HTTP status with which the error is answered.
    pub open spec fn status_code(self) -> u16 {
        match self {
            AppErrorView::Config { .. } => 400,
            AppErrorView::Database { .. } => 500,
            AppErrorView::FileSystem { .. } => 500,
            AppErrorView::EnvironmentFile { .. } => 500,
            AppErrorView::CommandFailed { .. } => 500,
            AppErrorView::CommandTimedOut { .. } => 500,
            AppErrorView::HealthCheck { .. } => 500,
            AppErrorView::RequestValidation { .. } => 400,
            AppErrorView::RequestTooLarge { .. } => 413,
            AppErrorView::Authentication { .. } => 401,
            AppErrorView::ProjectNotFound { .. } => 404,
            AppErrorView::ProjectStopped { .. } => 409,
            AppErrorView::ProjectBlocked { .. } => 409,
            AppErrorView::ProjectMustBeStopped { .. } => 409,
            AppErrorView::ProjectDeploymentActive { .. } => 409,
            AppErrorView::DeploymentNotFound { .. } => 404,
            AppErrorView::DeploymentNotRetryable { .. } => 400,
            AppErrorView::ReleaseNotFound { .. } => 404,
            AppErrorView::InvalidState { .. } => 409,
            AppErrorView::TaskJoin { .. } => 500,
        }
    }

    /// The text of the error.
    pub open spec fn message(self) -> Seq<char> {
        match self {
            AppErrorView::Config { path, reason } => "configuration "@ + path + " is invalid: "@
                + reason,
            AppErrorView::Database { source } => "database operation failed: "@ + source,
            AppErrorView::FileSystem { operation, path, source } => "filesystem operation "@
                + operation + " failed for "@ + path + ": "@ + source,
            AppErrorView::EnvironmentFile { path, reason } => "environment file "@ + path
                + " is invalid: "@ + reason,
            AppErrorView::CommandFailed { program, args, status, stdout, stderr } => "command "@
                + path_debug(program) + " "@ + args_debug(args) + " failed with status "@
                + exit_status_debug(status) + "; stdout="@ + str_debug(stdout) + "; stderr="@
                + str_debug(stderr),
            AppErrorView::CommandTimedOut { program, args, timeout_seconds } => "command "@
                + path_debug(program) + " "@ + args_debug(args) + " timed out after "@
                + decimal(timeout_seconds as nat) + " seconds"@,
            AppErrorView::HealthCheck { url, reason } => "HTTP health check for "@ + url
                + " failed: "@ + reason,
            AppErrorView::RequestValidation { reason } => "request validation failed: "@ + reason,
            AppErrorView::RequestTooLarge { reason } => "request body is too large: "@ + reason,
            AppErrorView::Authentication { reason } => "authentication failed: "@ + reason,
            AppErrorView::ProjectNotFound { project_id } => "project "@ + project_id
                + " was not found"@,
            AppErrorView::ProjectStopped { project_id } => "project "@ + project_id
                + " is stopped; run `aynur-deploy start "@ + project_id + "` first"@,
            AppErrorView::ProjectBlocked { project_id, reason } => "project "@ + project_id
                + " is blocked: "@ + reason
                + "; resolve the failure and run `aynur-deploy unblock "@ + project_id + "`"@,
            AppErrorView::ProjectMustBeStopped { project_id } => "project "@ + project_id
                + " must be stopped before deletion; run `aynur-deploy stop "@ + project_id
                + "` first"@,
            AppErrorView::ProjectDeploymentActive { project_id, deployment_id, status } => "project "@
                + project_id + " cannot be deleted while deployment "@ + deployment_id + " is "@
                + status,
            AppErrorView::DeploymentNotFound { deployment_id } => "deployment "@ + deployment_id
                + " was not found"@,
            AppErrorView::DeploymentNotRetryable { deployment_id, status } => "deployment "@
                + deployment_id + " is in state "@ + status + ", which cannot be retried"@,
            AppErrorView::ReleaseNotFound { project_id, commit_sha } => "project "@ + project_id
                + " has no successful release for commit "@ + commit_sha,
            AppErrorView::InvalidState { reason } => "deployment state is invalid: "@ + reason,
            AppErrorView::TaskJoin { reason } => "background task failed: "@ + reason,
        }
    }
}

impl AppError {
    /// The code that names the kind of the error.
    pub fn code(&self) -> (code: &'static str)
        ensures
            code@ == self@.code(),
    {
        match self {
            AppError::Config { .. } => "configInvalid",
            AppError::Database { .. } => "databaseError",
            AppError::FileSystem { .. } => "fileSystemError",
            AppError::EnvironmentFile { .. } => "environmentFileInvalid",
            AppError::CommandFailed { .. } => "commandFailed",
            AppError::CommandTimedOut { .. } => "commandTimedOut",
            AppError::HealthCheck { .. } => "healthCheckFailed",
            AppError::RequestValidation { .. } => "requestInvalid",
            AppError::RequestTooLarge { .. } => "requestTooLarge",
            AppError::Authentication { .. } => "authenticationFailed",
            AppError::ProjectNotFound { .. } => "projectNotFound",
            AppError::ProjectStopped { .. } => "projectStopped",
            AppError::ProjectBlocked { .. } => "projectBlocked",
            AppError::ProjectMustBeStopped { .. } => "projectMustBeStopped",
            AppError::ProjectDeploymentActive { .. } => "projectDeploymentActive",
            AppError::DeploymentNotFound { .. } => "deploymentNotFound",
            AppError::DeploymentNotRetryable { .. } => "deploymentNotRetryable",
            AppError::ReleaseNotFound { .. } => "releaseNotFound",
            AppError::InvalidState { .. } => "deploymentStateInvalid",
            AppError::TaskJoin { .. } => "taskFailed",
        }
    }

    /// The HTTP status with which the error is answered.
    pub fn status_code(&self) -> (status: u16)
        ensures
            status == self@.status_code(),
    {
        match self {
            AppError::Config { .. } => 400,
            AppError::Database { .. } => 500,
            AppError::FileSystem { .. } => 500,
            AppError::EnvironmentFile { .. } => 500,
            AppError::CommandFailed { .. } => 500,
            AppError::CommandTimedOut { .. } => 500,
            AppError::HealthCheck { .. } => 500,
            AppError::RequestValidation { .. } => 400,
            AppError::RequestTooLarge { .. } => 413,
            AppError::Authentication { .. } => 401,
            AppError::ProjectNotFound { .. } => 404,
            AppError::ProjectStopped { .. } => 409,
            AppError::ProjectBlocked { .. } => 409,
            AppError::ProjectMustBeStopped { .. } => 409,
            AppError::ProjectDeploymentActive { .. } => 409,
            AppError::DeploymentNotFound { .. } => 404,
            AppError::DeploymentNotRetryable { .. } => 400,
            AppError::ReleaseNotFound { .. } => 404,
            AppError::InvalidState { .. } => 409,
            AppError::TaskJoin { .. } => 500,
        }
    }

    /// The text of the error.
    pub fn message(&self) -> (message: String)
        ensures
            message@ == self@.message(),
    {
        match self {
            AppError::Config { path, reason } => {
                let mut text = "configuration ".to_owned();
                text.append(path.as_str());
                text.append(" is invalid: ");
                text.append(reason.as_str());
                text
            },
            AppError::Database { source } => {
                let mut text = "database operation failed: ".to_owned();
                text.append(source.as_str());
                text
            },
            AppError::FileSystem { operation, path, source } => {
                let mut text = "filesystem operation ".to_owned();
                text.append(operation);
                text.append(" failed for ");
                text.append(path.as_str());
                text.append(": ");
                text.append(source.as_str());
                text
            },
            AppError::EnvironmentFile { path, reason } => {
                let mut text = "environment file ".to_owned();
                text.append(path.as_str());
                text.append(" is invalid: ");
                text.append(reason.as_str());
                text
            },
            AppError::CommandFailed { program, args, status, stdout, stderr } => {
                let mut text = "command ".to_owned();
                text.append(debug_path(program.as_str()).as_str());
                text.append(" ");
                text.append(debug_args(args).as_str());
                text.append(" failed with status ");
                text.append(exit_status_text(*status).as_str());
                text.append("; stdout=");
                text.append(debug_text(stdout.as_str()).as_str());
                text.append("; stderr=");
                text.append(debug_text(stderr.as_str()).as_str());
                text
            },
            AppError::CommandTimedOut { program, args, timeout_seconds } => {
                let mut text = "command ".to_owned();
                text.append(debug_path(program.as_str()).as_str());
                text.append(" ");
                text.append(debug_args(args).as_str());
                text.append(" timed out after ");
                text.append(decimal_text(*timeout_seconds).as_str());
                text.append(" seconds");
                text
            },
            AppError::HealthCheck { url, reason } => {
                let mut text = "HTTP health check for ".to_owned();
                text.append(url.as_str());
                text.append(" failed: ");
                text.append(reason.as_str());
                text
            },
            AppError::RequestValidation { reason } => {
                let mut text = "request validation failed: ".to_owned();
                text.append(reason.as_str());
                text
            },
            AppError::RequestTooLarge { reason } => {
                let mut text = "request body is too large: ".to_owned();
                text.append(reason.as_str());
                text
            },
            AppError::Authentication { reason } => {
                let mut text = "authentication failed: ".to_owned();
                text.append(reason.as_str());
                text
            },
            AppError::ProjectNotFound { project_id } => {
                let mut text = "project ".to_owned();
                text.append(project_id.as_str());
                text.append(" was not found");
                text
            },
            AppError::ProjectStopped { project_id } => {
                let mut text = "project ".to_owned();
                text.append(project_id.as_str());
                text.append(" is stopped; run `aynur-deploy start ");
                text.append(project_id.as_str());
                text.append("` first");
                text
            },
            AppError::ProjectBlocked { project_id, reason } => {
                let mut text = "project ".to_owned();
                text.append(project_id.as_str());
                text.append(" is blocked: ");
                text.append(reason.as_str());
                text.append("; resolve the failure and run `aynur-deploy unblock ");
                text.append(project_id.as_str());
                text.append("`");
                text
            },
            AppError::ProjectMustBeStopped { project_id } => {
                let mut text = "project ".to_owned();
                text.append(project_id.as_str());
                text.append(" must be stopped before deletion; run `aynur-deploy stop ");
                text.append(project_id.as_str());
                text.append("` first");
                text
            },
            AppError::ProjectDeploymentActive { project_id, deployment_id, status } => {
                let mut text = "project ".to_owned();
                text.append(project_id.as_str());
                text.append(" cannot be deleted while deployment ");
                text.append(deployment_id.as_str());
                text.append(" is ");
                text.append(status.as_str());
                text
            },
            AppError::DeploymentNotFound { deployment_id } => {
                let mut text = "deployment ".to_owned();
                text.append(deployment_id.as_str());
                text.append(" was not found");
                text
            },
            AppError::DeploymentNotRetryable { deployment_id, status } => {
                let mut text = "deployment ".to_owned();
                text.append(deployment_id.as_str());
                text.append(" is in state ");
                text.append(status.as_str());
                text.append(", which cannot be retried");
                text
            },
            AppError::ReleaseNotFound { project_id, commit_sha } => {
                let mut text = "project ".to_owned();
                text.append(project_id.as_str());
                text.append(" has no successful release for commit ");
                text.append(commit_sha.as_str());
                text
            },
            AppError::InvalidState { reason } => {
                let mut text = "deployment state is invalid: ".to_owned();
                text.append(reason.as_str());
                text
            },
            AppError::TaskJoin { reason } => {
                let mut text = "background task failed: ".to_owned();
                text.append(reason.as_str());
                text
            },
        }
    }
}

/// The error of a filesystem operation.
pub fn file_error(operation: &'static str, path: String, source: String) -> (error: AppError)
    ensures
        error@ == (AppErrorView::FileSystem { operation: operation@, path: path@, source: source@ }),
{
    AppError::FileSystem { operation, path, source }
}

/// The error of a configuration value.
pub fn config_error(path: &str, reason: String) -> (error: AppError)
    ensures
        error@ == (AppErrorView::Config { path: path@, reason: reason@ }),
{
    AppError::Config { path: path.to_owned(), reason }
}

/// The error of a state that must not occur.
pub fn invalid_state(reason: String) -> (error: AppError)
    ensures
        error@ == (AppErrorView::InvalidState { reason: reason@ }),
{
    AppError::InvalidState { reason }
}

/// The error of an invalid request.
pub fn invalid_request(reason: String) -> (error: AppError)
    ensures
        error@ == (AppErrorView::RequestValidation { reason: reason@ }),
{
    AppError::RequestValidation { reason }
}

} // verus!
