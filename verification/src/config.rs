//! The configuration of the service and of its projects.
use vstd::prelude::*;

use crate::error::AppError;
#[allow(unused_imports)]
use crate::error::AppErrorView;
use crate::text::text_eq;

pub mod accept;
pub mod laws;
pub mod load;
pub mod project;

verus! {

/// The address that the service listens on.
#[derive(Debug)]
pub struct ListenAddress {
    pub ip: IpAddress,
    /// The address and the port as they are printed.
    pub text: String,
}

/// An IP address.
#[derive(Debug, Clone, Copy)]
pub enum IpAddress {
    /// Four octets.
    V4([u8; 4]),
    /// Eight segments.
    V6([u16; 8]),
}

/// The configuration of the service.
#[derive(Debug)]
pub struct GlobalConfig {
    pub listen_address: ListenAddress,
    pub database_path: String,
    pub state_directory: String,
    pub projects_directory: String,
    pub git_command: String,
    pub cargo_command: String,
    pub git_fetch_attempts: u32,
    pub git_fetch_retry_delay_ms: u64,
    pub command_timeout_seconds: u64,
    pub max_webhook_body_bytes: usize,
    pub worker_poll_interval_ms: u64,
}

/// A text that is not to be printed.

pub struct SecretString(String);

impl View for SecretString {
    type V = Seq<char>;

    closed spec fn view(&self) -> Seq<char> {
        self.0@
    }
}

impl SecretString {
    /// Hides a text.
    pub fn new(text: String) -> (secret: SecretString)
        ensures
            secret@ == text@,
    {
        SecretString(text)
    }

    /// The hidden text.
    pub fn expose(&self) -> (text: &str)
        ensures
            text@ == self@,
    {
        self.0.as_str()
    }
}

/// A project.

pub struct Project {
    pub config_path: String,
    pub project_id: String,
    pub current_path: String,
    pub repository_full_name: String,
    pub repository_url: String,
    pub webhook_token: SecretString,
    pub tag_pattern: String,
    pub retain_releases: usize,
    pub health_check: HealthCheck,
    pub deployment: DeploymentTarget,
    pub migration: Option<ConfiguredCommand>,
    pub reload: Vec<ConfiguredCommand>,
}

/// How an activated release is probed.
#[derive(Debug)]
pub struct HealthCheck {
    pub url: String,
    pub attempts: u32,
    pub interval_ms: u64,
    pub timeout_ms: u64,
}

/// What a release is made of.
#[derive(Debug)]
pub enum DeploymentTarget {
    /// The files of the tag.
    Static { entry_file: String },
    /// A program that the tag holds.
    Binary { binary_path: String },
    /// Programs that are built from the tag, and files of it.
    Rust {
        cargo_manifest: String,
        binaries: Vec<RustBinary>,
        include_paths: Vec<String>,
        environment_file: Option<String>,
    },
}

/// A program that Cargo builds.
#[derive(Debug)]
pub struct RustBinary {
    pub package: String,
    pub binary: String,
}

/// A program with its arguments.
#[derive(Debug)]
pub struct ConfiguredCommand {
    pub program: String,
    pub args: Vec<String>,
}

/// The configuration of the service with its projects, no two of them with one identifier.

pub struct LoadedConfig {
    pub global: GlobalConfig,
    pub projects: Vec<Project>,
}

/// The first project with an identifier.
pub open spec fn project_with(projects: Seq<Project>, project_id: Seq<char>) -> Option<Project>
    decreases projects.len(),
{
    if projects.len() == 0 {
        None
    } else if projects[0].project_id@ == project_id {
        Some(projects[0])
    } else {
        project_with(projects.drop_first(), project_id)
    }
}

impl LoadedConfig {
    /// The project with an identifier.
    pub fn project(&self, project_id: &str) -> (result: Result<&Project, AppError>)
        ensures
            match result {
                Ok(project) => project_with(self.projects@, project_id@) == Some(*project),
                Err(error) => project_with(self.projects@, project_id@) is None && error@ == (
                AppErrorView::ProjectNotFound { project_id: project_id@ }),
            },
    {
        let mut i: usize = 0;
        assert(self.projects@.skip(0) =~= self.projects@);
        while i < self.projects.len()
            invariant
                i <= self.projects.len(),
                project_with(self.projects@, project_id@) == project_with(
                    self.projects@.skip(i as int),
                    project_id@,
                ),
            decreases self.projects.len() - i,
        {
            assert(self.projects@.skip(i as int).drop_first() =~= self.projects@.skip(i + 1));
            if text_eq(self.projects[i].project_id.as_str(), project_id) {
                return Ok(&self.projects[i]);
            }
            i += 1;
        }
        Err(AppError::ProjectNotFound { project_id: project_id.to_owned() })
    }
}

} // verus!
