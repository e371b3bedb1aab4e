//! Deployments: what is done for each of them, in which order, and what follows a failure.
use vstd::prelude::*;

#[allow(unused_imports)]
use crate::config::project_with;
use crate::config::LoadedConfig;
use crate::deploy::place::Context;
use crate::deploy::run::Run;
use crate::error::AppError;
#[allow(unused_imports)]
use crate::error::AppErrorView;
use crate::model::{Deployment, DeploymentStatus};

pub mod commands;
pub mod decisions;
pub mod history;
pub mod laws;
pub mod place;
pub mod plan;
pub mod retention;
pub mod run;
pub mod stages;
pub mod step;

verus! {

/// What processes the deployments of a configuration.
pub struct Deployer {
    config: LoadedConfig,
}

/// What follows an error in the processing of a deployment.
pub enum Recovery<'a> {
    /// The deployment is recorded as failed.
    MarkFailed { code: String, message: String },
    /// The deployment goes on.
    Resume(Run<'a>),
    /// The deployment has ended, and nothing is left to do.
    Settled,
}

/// What the worker does next.
#[derive(Debug)]
pub enum Work {
    /// It stops.
    Stop,
    /// It processes a deployment.
    Process(Deployment),
    /// It waits to be told of a deployment, for some milliseconds at most.
    Wait { ms: u64 },
}

impl Deployer {
    /// The configuration.
    pub closed spec fn config(self) -> LoadedConfig {
        self.config
    }

    /// The deployment of a configured project, with its settings.
    pub open spec fn context(self, deployment: Deployment) -> Option<Context<'static>> {
        match project_with(self.config().projects@, deployment.project_id@) {
            None => None,
            Some(project) => Some(
                Context { global: &self.config().global, project: &project, deployment: &deployment },
            ),
        }
    }

    /// What processes the deployments of a configuration.
    pub fn new(config: LoadedConfig) -> (deployer: Deployer)
        ensures
            deployer.config() == config,
    {
        Deployer { config }
    }

    /// The configuration.
    pub fn configuration(&self) -> (config: &LoadedConfig)
        ensures
            *config == self.config(),
    {
        &self.config
    }

    /// The run of a deployment from where its state says that it is.
    pub fn process<'a>(&'a self, deployment: &'a Deployment) -> (result: Result<Run<'a>, AppError>)
        ensures
            match result {
                Ok(run) => self.context(*deployment) matches Some(ctx) && run.context() == ctx
                    && run.step() == plan::start(ctx),
                Err(error) => self.context(*deployment) is None && error@ == (
                AppErrorView::ProjectNotFound { project_id: deployment.project_id@ }),
            },
    {
        match self.config.project(deployment.project_id.as_str()) {
            Ok(project) => Ok(
                Run::start(Context { global: &self.config.global, project, deployment }),
            ),
            Err(error) => Err(error),
        }
    }

    /// What follows an error in the processing of a deployment, which is given as it is recorded
    /// now: before its activation it fails; an activation and a rollback are resumed; and one
    /// that has ended is left alone.
    pub fn handle_processing_error<'a>(
        &'a self,
        deployment: &'a Deployment,
        source: AppError,
    ) -> (result: Result<Recovery<'a>, AppError>)
        ensures
            match deployment.status {
                DeploymentStatus::Queued | DeploymentStatus::Fetching | DeploymentStatus::Building
                | DeploymentStatus::Migrating => result matches Ok(
                    Recovery::MarkFailed { code, message },
                ) && code@ == source@.code() && message@ == source@.message(),
                DeploymentStatus::Activating | DeploymentStatus::HealthChecking => match result {
                    Ok(Recovery::Resume(run)) => self.context(*deployment) matches Some(ctx)
                        && run.context() == ctx && run.step() == plan::resume_activation(
                        ctx,
                        source@.message(),
                    ),
                    Ok(_) => false,
                    Err(error) => self.context(*deployment) is None && error@ == (
                    AppErrorView::ProjectNotFound { project_id: deployment.project_id@ }),
                },
                DeploymentStatus::RollingBack => match result {
                    Ok(Recovery::Resume(run)) => self.context(*deployment) matches Some(ctx)
                        && run.context() == ctx && run.step() == plan::resume_rollback(ctx),
                    Ok(_) => false,
                    Err(error) => self.context(*deployment) is None && error@ == (
                    AppErrorView::ProjectNotFound { project_id: deployment.project_id@ }),
                },
                DeploymentStatus::Succeeded | DeploymentStatus::Failed
                | DeploymentStatus::RollbackFailed => result matches Ok(Recovery::Settled),
            },
    {
        match deployment.status {
            DeploymentStatus::Queued | DeploymentStatus::Fetching | DeploymentStatus::Building
            | DeploymentStatus::Migrating => Ok(
                Recovery::MarkFailed { code: source.code().to_owned(), message: source.message() },
            ),
            DeploymentStatus::Activating | DeploymentStatus::HealthChecking => {
                match self.config.project(deployment.project_id.as_str()) {
                    Ok(project) => {
                        let ctx = Context { global: &self.config.global, project, deployment };
                        Ok(Recovery::Resume(Run::resume_activation(ctx, source.message())))
                    },
                    Err(error) => Err(error),
                }
            },
            DeploymentStatus::RollingBack => {
                match self.config.project(deployment.project_id.as_str()) {
                    Ok(project) => {
                        let ctx = Context { global: &self.config.global, project, deployment };
                        Ok(Recovery::Resume(Run::resume_rollback(ctx)))
                    },
                    Err(error) => Err(error),
                }
            },
            DeploymentStatus::Succeeded | DeploymentStatus::Failed
            | DeploymentStatus::RollbackFailed => Ok(Recovery::Settled),
        }
    }

    /// What the worker does next: it stops when it is told to, else processes a deployment that
    /// is pending, else waits. One that stops asks for no pending deployment.
    pub fn run_worker(&self, shutdown: bool, pending: Option<Deployment>) -> (work: Work)
        ensures
            work == (if shutdown {
                Work::Stop
            } else {
                match pending {
                    Some(deployment) => Work::Process(deployment),
                    None => Work::Wait { ms: self.config().global.worker_poll_interval_ms },
                }
            }),
    {
        if shutdown {
            return Work::Stop;
        }
        match pending {
            Some(deployment) => Work::Process(deployment),
            None => Work::Wait { ms: self.config.global.worker_poll_interval_ms },
        }
    }
}

} // verus!
