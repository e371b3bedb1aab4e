//! The run of a deployment: the step it is at, and the step that each reply leads to.
use vstd::prelude::*;

use crate::config::DeploymentTarget;
use crate::deploy::place::{command_spec, environment_copy, Context};
#[allow(unused_imports)]
use crate::deploy::plan;
#[allow(unused_imports)]
use crate::deploy::step::StepView;
use crate::deploy::step::{
    Action, Activate, Back, Build, Check, Close, ExecAction, ExecReply, ExecStep, Prepare, Purpose,
    Removal, Reply, Step,
};
use crate::error::AppError;
#[allow(unused_imports)]
use crate::error::{outcome, AppErrorView};
use crate::model::{DeploymentKind, DeploymentStatus};
use crate::path::{debug_opt_path, debug_path, parent, same_path};
use crate::text::{
    cat2, cat3, cat4, cat5, cat6, debug_text, is_object_id, opt_text_copy, text_eq,
};

verus! {

fn fail(error: AppError) -> (step: ExecStep)
    ensures
        step@ == plan::fail(error@),
{
    Step::Finished(Some(error))
}

fn state_error(reason: String) -> (error: AppError)
    ensures
        error@ == plan::state_error(reason@),
{
    AppError::InvalidState { reason }
}

fn misfit() -> (step: ExecStep)
    ensures
        step@ == plan::misfit(),
{
    fail(state_error("the reply does not fit the step of the deployment".to_owned()))
}

fn after(reply: ExecReply, next: ExecStep) -> (step: ExecStep)
    ensures
        step@ == plan::after(reply@, next@),
{
    match reply {
        Reply::Done(Ok(_)) => next,
        Reply::Done(Err(error)) => fail(error),
        _ => misfit(),
    }
}

fn after_command(reply: ExecReply, next: ExecStep) -> (step: ExecStep)
    ensures
        step@ == plan::after_command(reply@, next@),
{
    match reply {
        Reply::Output(Ok(_)) => next,
        Reply::Output(Err(error)) => fail(error),
        _ => misfit(),
    }
}

fn resume_activation(ctx: Context, original: String) -> (step: ExecStep)
    ensures
        step@ == plan::resume_activation(ctx, original@),
{
    match &ctx.deployment.release_path {
        None => fail(
            state_error(
                cat3(
                    "deployment ",
                    ctx.deployment.id.as_str(),
                    " has no releasePath during recovery",
                ),
            ),
        ),
        Some(_) => Step::Back(Back::ReadInterrupted { original }),
    }
}

fn lock(reason: String) -> (step: ExecStep)
    ensures
        step@ == plan::lock(reason@),
{
    Step::Close(Close::MarkRollbackFailed { reason })
}

fn resume_rollback(ctx: Context) -> (step: ExecStep)
    ensures
        step@ == plan::resume_rollback(ctx),
{
    match &ctx.deployment.previous_release_path {
        None => lock(
            "service restarted during rollback, but no previous release is recorded".to_owned(),
        ),
        Some(previous) => Step::Back(Back::ReadRollback { previous: previous.clone() }),
    }
}

fn start(ctx: Context) -> (step: ExecStep)
    ensures
        step@ == plan::start(ctx),
{
    let id = ctx.deployment.id.as_str();
    match ctx.deployment.status {
        DeploymentStatus::Queued | DeploymentStatus::Fetching | DeploymentStatus::Building => {
            match ctx.deployment.kind {
                DeploymentKind::Deploy => Step::Prepare(Prepare::MarkFetching),
                DeploymentKind::Rollback => match &ctx.deployment.release_path {
                    None => fail(
                        state_error(cat3("rollback deployment ", id, " has no releasePath")),
                    ),
                    Some(release) => Step::Activate(
                        Activate::ValidateCandidate { release: release.clone() },
                    ),
                },
            }
        },
        DeploymentStatus::Migrating => {
            match ctx.deployment.kind {
                DeploymentKind::Rollback => fail(
                    state_error(
                        cat3("rollback deployment ", id, " cannot be in migrating state"),
                    ),
                ),
                DeploymentKind::Deploy => match &ctx.deployment.release_path {
                    None => fail(
                        state_error(cat3("migrating deployment ", id, " has no releasePath")),
                    ),
                    Some(release) => Step::Activate(Activate::Recheck { release: release.clone() }),
                },
            }
        },
        DeploymentStatus::Activating | DeploymentStatus::HealthChecking => resume_activation(
            ctx,
            "service restarted during activation".to_owned(),
        ),
        DeploymentStatus::RollingBack => resume_rollback(ctx),
        DeploymentStatus::Succeeded | DeploymentStatus::Failed | DeploymentStatus::RollbackFailed
        => fail(
            state_error(
                cat5(
                    "terminal deployment ",
                    id,
                    " with status ",
                    ctx.deployment.status.name(),
                    " was selected for processing",
                ),
            ),
        ),
    }
}

fn begin_mirror(ctx: Context) -> (step: ExecStep)
    ensures
        step@ == plan::begin_mirror(ctx),
{
    let mirror = ctx.mirror_path();
    match parent(mirror.as_str()) {
        None => fail(
            state_error(
                cat3("mirror path ", debug_path(mirror.as_str()).as_str(), " has no parent"),
            ),
        ),
        Some(parent) => Step::Prepare(Prepare::CreateMirrorParent { parent }),
    }
}

fn begin_fetch(ctx: Context) -> (step: ExecStep)
    ensures
        step@ == plan::begin_fetch(ctx),
{
    if ctx.global.git_fetch_attempts == 0 {
        Step::Prepare(Prepare::ResolveTag)
    } else {
        Step::Prepare(Prepare::Fetch { attempt: 1 })
    }
}

fn begin_worktree(ctx: Context, commit: String) -> (step: ExecStep)
    ensures
        step@ == plan::begin_worktree(ctx, commit@),
{
    let worktree = ctx.worktree_path();
    match parent(worktree.as_str()) {
        None => fail(
            state_error(
                cat3("worktree path ", debug_path(worktree.as_str()).as_str(), " has no parent"),
            ),
        ),
        Some(parent) => Step::Prepare(Prepare::CreateWorktreeParent { commit, parent }),
    }
}

fn built(commit: String, outcome: Option<AppError>) -> (step: ExecStep)
    ensures
        step@ == plan::built(commit@, outcome.deep_view()),
{
    Step::RemoveWorktree { commit, why: Removal::Built { outcome } }
}

fn begin_build(ctx: Context, commit: String) -> (step: ExecStep)
    ensures
        step@ == plan::begin_build(ctx, commit@),
{
    let release = ctx.release_path(commit.as_str());
    match parent(release.as_str()) {
        None => {
            let error = state_error(
                cat3("release path ", debug_path(release.as_str()).as_str(), " has no parent"),
            );
            built(commit, Some(error))
        },
        Some(parent) => Step::Build { commit, parent, build: Build::CreateReleaseParent },
    }
}

fn prepared(ctx: Context, release: String) -> (step: ExecStep)
    ensures
        step@ == plan::prepared(ctx, release@),
{
    match &ctx.project.migration {
        None => Step::Activate(Activate::ValidateCandidate { release }),
        Some(_) => Step::Activate(Activate::MarkMigrating { release }),
    }
}

fn after_prepare(ctx: Context, prepare: Prepare<String>, reply: ExecReply) -> (step: ExecStep)
    ensures
        step@ == plan::after_prepare(ctx, prepare@, reply@),
{
    match prepare {
        Prepare::MarkFetching => after(reply, begin_mirror(ctx)),
        Prepare::CreateMirrorParent { .. } => after(reply, Step::Prepare(Prepare::CheckMirror)),
        Prepare::CheckMirror => match reply {
            Reply::Flag(true) => Step::Prepare(Prepare::ReadOrigin),
            Reply::Flag(false) => Step::Prepare(Prepare::InitMirror),
            _ => misfit(),
        },
        Prepare::ReadOrigin => match reply {
            Reply::Output(Ok(origin)) => if text_eq(
                origin.as_str(),
                ctx.project.repository_url.as_str(),
            ) {
                Step::Prepare(Prepare::CheckTagRef)
            } else {
                fail(
                    state_error(
                        cat6(
                            "mirror ",
                            debug_path(ctx.mirror_path().as_str()).as_str(),
                            " origin is ",
                            debug_text(origin.as_str()).as_str(),
                            ", expected ",
                            debug_text(ctx.project.repository_url.as_str()).as_str(),
                        ),
                    ),
                )
            },
            Reply::Output(Err(error)) => fail(error),
            _ => misfit(),
        },
        Prepare::InitMirror => after_command(reply, Step::Prepare(Prepare::AddOrigin)),
        Prepare::AddOrigin => after_command(reply, Step::Prepare(Prepare::CheckTagRef)),
        Prepare::CheckTagRef => after_command(reply, begin_fetch(ctx)),
        Prepare::Fetch { attempt } => match reply {
            Reply::Output(Ok(_)) => Step::Prepare(Prepare::ResolveTag),
            Reply::Output(Err(error)) => if attempt < ctx.global.git_fetch_attempts {
                Step::Prepare(Prepare::FetchPause { attempt })
            } else {
                fail(error)
            },
            _ => misfit(),
        },
        Prepare::FetchPause { attempt } => match reply {
            Reply::Elapsed => if attempt < ctx.global.git_fetch_attempts {
                Step::Prepare(Prepare::Fetch { attempt: attempt + 1 })
            } else {
                misfit()
            },
            _ => misfit(),
        },
        Prepare::ResolveTag => match reply {
            Reply::Output(Ok(object)) => if text_eq(
                object.as_str(),
                ctx.deployment.requested_sha.as_str(),
            ) {
                Step::Prepare(Prepare::ResolveCommit)
            } else {
                fail(
                    AppError::RequestValidation {
                        reason: cat6(
                            "fetched tag object ",
                            object.as_str(),
                            " does not match webhook after ",
                            ctx.deployment.requested_sha.as_str(),
                            " for tag ",
                            ctx.deployment.tag.as_str(),
                        ),
                    },
                )
            },
            Reply::Output(Err(error)) => fail(error),
            _ => misfit(),
        },
        Prepare::ResolveCommit => match reply {
            Reply::Output(Ok(commit)) => if is_object_id(commit.as_str()) {
                Step::Prepare(Prepare::RecordCommit { commit })
            } else {
                fail(
                    state_error(
                        cat2(
                            "Git resolved invalid commit SHA ",
                            debug_text(commit.as_str()).as_str(),
                        ),
                    ),
                )
            },
            Reply::Output(Err(error)) => fail(error),
            _ => misfit(),
        },
        Prepare::RecordCommit { commit } => after(
            reply,
            Step::Prepare(Prepare::CheckRelease { commit }),
        ),
        Prepare::CheckRelease { commit } => match reply {
            Reply::Flag(true) => Step::Prepare(Prepare::CheckStaleWorktree { commit }),
            Reply::Flag(false) => Step::Prepare(Prepare::MarkBuilding { commit }),
            _ => misfit(),
        },
        Prepare::CheckStaleWorktree { commit } => match reply {
            Reply::Flag(true) => Step::RemoveWorktree { commit, why: Removal::Stale },
            Reply::Flag(false) => Step::Prepare(Prepare::ValidateExisting { commit }),
            _ => misfit(),
        },
        Prepare::ValidateExisting { commit } => after(
            reply,
            Step::Prepare(Prepare::RecordRelease { commit }),
        ),
        Prepare::MarkBuilding { commit } => after(
            reply,
            Step::Prepare(Prepare::PruneWorktrees { commit }),
        ),
        Prepare::PruneWorktrees { commit } => after_command(
            reply,
            Step::Prepare(Prepare::CheckWorktree { commit }),
        ),
        Prepare::CheckWorktree { commit } => match reply {
            Reply::Flag(true) => Step::RemoveWorktree { commit, why: Removal::Replace },
            Reply::Flag(false) => begin_worktree(ctx, commit),
            _ => misfit(),
        },
        Prepare::CreateWorktreeParent { commit, .. } => after(
            reply,
            Step::Prepare(Prepare::AddWorktree { commit }),
        ),
        Prepare::AddWorktree { commit } => after_command(reply, begin_build(ctx, commit)),
        Prepare::RecordRelease { commit } => after(
            reply,
            prepared(ctx, ctx.release_path(commit.as_str())),
        ),
    }
}

fn removed(
    ctx: Context,
    commit: String,
    why: Removal<AppError>,
    failure: Option<AppError>,
) -> (step: ExecStep)
    ensures
        step@ == plan::removed(ctx, commit@, why@, failure.deep_view()),
{
    match why {
        Removal::Stale => match failure {
            None => Step::Prepare(Prepare::ValidateExisting { commit }),
            Some(error) => fail(error),
        },
        Removal::Replace => match failure {
            None => begin_worktree(ctx, commit),
            Some(error) => fail(error),
        },
        Removal::Built { outcome } => match (outcome, failure) {
            (None, None) => Step::Prepare(Prepare::RecordRelease { commit }),
            (Some(error), None) => fail(error),
            (None, Some(error)) => fail(error),
            (Some(error), Some(cleanup)) => fail(
                state_error(
                    cat4(
                        "build failed with ",
                        error.message().as_str(),
                        "; worktree cleanup also failed with ",
                        cleanup.message().as_str(),
                    ),
                ),
            ),
        },
    }
}

fn discard(commit: String, parent: String, path: String, error: AppError) -> (step: ExecStep)
    ensures
        step@ == plan::discard(commit@, parent@, path@, error@),
{
    Step::Build { commit, parent, build: Build::Discard { path, error } }
}

fn building(
    commit: String,
    parent: String,
    build: Build<String, AppError, Vec<(String, String)>>,
) -> (step: ExecStep)
    ensures
        step@ == (StepView::Build { commit: commit@, parent: parent@, build: build@ }),
{
    Step::Build { commit, parent, build }
}

fn copy_includes(ctx: Context, commit: String, parent: String, index: usize) -> (step: ExecStep)
    ensures
        step@ == plan::copy_includes(ctx, commit@, parent@, index),
{
    match &ctx.project.deployment {
        DeploymentTarget::Rust { include_paths, .. } => if index < include_paths.len() {
            building(commit, parent, Build::CopyInclude { index })
        } else {
            building(commit, parent, Build::RemoveTarget { outcome: None })
        },
        _ => building(commit, parent, Build::RemoveTarget { outcome: None }),
    }
}

fn copy_binaries(ctx: Context, commit: String, parent: String, index: usize) -> (step: ExecStep)
    ensures
        step@ == plan::copy_binaries(ctx, commit@, parent@, index),
{
    match &ctx.project.deployment {
        DeploymentTarget::Rust { binaries, .. } => if index < binaries.len() {
            building(commit, parent, Build::CopyBinary { index })
        } else {
            copy_includes(ctx, commit, parent, 0)
        },
        _ => copy_includes(ctx, commit, parent, 0),
    }
}

/// The step after one that prepares the temporary directory of a build.
fn after_setup(
    ctx: Context,
    commit: String,
    parent: String,
    build: Build<String, AppError, Vec<(String, String)>>,
    reply: ExecReply,
) -> (step: ExecStep)
    requires
        build is CreateReleaseParent || build is ClearTemporary || build is CreateTemporary,
    ensures
        step@ == plan::after_build(ctx, commit@, parent@, build@, reply@),
{
    match reply {
        Reply::Done(Ok(_)) => {
            let next: Build<String, AppError, Vec<(String, String)>> = match build {
                Build::CreateReleaseParent => Build::ClearTemporary,
                Build::ClearTemporary => Build::CreateTemporary,
                _ => match &ctx.project.deployment {
                    DeploymentTarget::Static { .. } => Build::CopyTree,
                    DeploymentTarget::Binary { .. } => Build::CopyPrebuilt,
                    DeploymentTarget::Rust { .. } => Build::CheckManifest,
                },
            };
            building(commit, parent, next)
        },
        Reply::Done(Err(error)) => built(commit, Some(error)),
        _ => misfit(),
    }
}

/// The step after one that fills the temporary directory and discards it where that fails.
fn after_filling(
    ctx: Context,
    commit: String,
    parent: String,
    build: Build<String, AppError, Vec<(String, String)>>,
    reply: ExecReply,
) -> (step: ExecStep)
    requires
        build is CopyTree || build is CopyPrebuilt || build is ClearTarget || build is CreateTarget
            || build is Validate || build is Publish || build is Sync,
    ensures
        step@ == plan::after_build(ctx, commit@, parent@, build@, reply@),
{
    match reply {
        Reply::Done(Ok(_)) => {
            let next: Build<String, AppError, Vec<(String, String)>> = match build {
                Build::ClearTarget => Build::CreateTarget,
                Build::CreateTarget => match ctx.environment_file_path() {
                    Some(file) => Build::LoadEnvironment { file },
                    None => {
                        let environment: Vec<(String, String)> = Vec::new();
                        assert(environment.deep_view() =~= Seq::<(Seq<char>, Seq<char>)>::empty());
                        Build::Cargo { environment }
                    },
                },
                Build::Validate => Build::Publish,
                Build::Publish => Build::Sync,
                Build::Sync => {
                    return built(commit, None);
                },
                _ => Build::Validate,
            };
            building(commit, parent, next)
        },
        Reply::Done(Err(error)) => {
            let path = match build {
                Build::Sync => ctx.release_path(commit.as_str()),
                _ => ctx.temporary_release(parent.as_str()),
            };
            discard(commit, parent, path, error)
        },
        _ => misfit(),
    }
}

/// The step after one that builds programs or copies them.
fn after_cargo(
    ctx: Context,
    commit: String,
    parent: String,
    build: Build<String, AppError, Vec<(String, String)>>,
    reply: ExecReply,
) -> (step: ExecStep)
    requires
        build is Cargo || build is CopyBinary || build is CopyInclude,
    ensures
        step@ == plan::after_build(ctx, commit@, parent@, build@, reply@),
{
    match (build, reply) {
        (Build::Cargo { .. }, Reply::Output(Ok(_))) => copy_binaries(ctx, commit, parent, 0),
        (Build::Cargo { .. }, Reply::Output(Err(error))) => building(
            commit,
            parent,
            Build::RemoveTarget { outcome: Some(error) },
        ),
        (Build::Cargo { .. }, _) => misfit(),
        (Build::CopyBinary { index }, Reply::Done(Ok(_))) => if index < usize::MAX {
            copy_binaries(ctx, commit, parent, index + 1)
        } else {
            copy_includes(ctx, commit, parent, 0)
        },
        (Build::CopyInclude { index }, Reply::Done(Ok(_))) => if index < usize::MAX {
            copy_includes(ctx, commit, parent, index + 1)
        } else {
            building(commit, parent, Build::RemoveTarget { outcome: None })
        },
        (_, Reply::Done(Err(error))) => building(
            commit,
            parent,
            Build::RemoveTarget { outcome: Some(error) },
        ),
        _ => misfit(),
    }
}

fn after_build(
    ctx: Context,
    commit: String,
    parent: String,
    build: Build<String, AppError, Vec<(String, String)>>,
    reply: ExecReply,
) -> (step: ExecStep)
    ensures
        step@ == plan::after_build(ctx, commit@, parent@, build@, reply@),
{
    match build {
        Build::CreateReleaseParent | Build::ClearTemporary | Build::CreateTemporary => after_setup(
            ctx,
            commit,
            parent,
            build,
            reply,
        ),
        Build::CopyTree | Build::CopyPrebuilt | Build::ClearTarget | Build::CreateTarget
        | Build::Validate | Build::Publish | Build::Sync => after_filling(
            ctx,
            commit,
            parent,
            build,
            reply,
        ),
        Build::Cargo { .. } | Build::CopyBinary { .. } | Build::CopyInclude { .. } => after_cargo(
            ctx,
            commit,
            parent,
            build,
            reply,
        ),
        Build::CheckManifest => match reply {
            Reply::Flag(true) => building(commit, parent, Build::ClearTarget),
            Reply::Flag(false) => {
                let error = state_error(
                    cat3(
                        "Cargo manifest ",
                        debug_path(ctx.manifest_path().as_str()).as_str(),
                        " does not exist",
                    ),
                );
                let path = ctx.temporary_release(parent.as_str());
                discard(commit, parent, path, error)
            },
            _ => misfit(),
        },
        Build::LoadEnvironment { .. } => match reply {
            Reply::Environment(Ok(environment)) => building(
                commit,
                parent,
                Build::Cargo { environment },
            ),
            Reply::Environment(Err(error)) => {
                let path = ctx.temporary_release(parent.as_str());
                discard(commit, parent, path, error)
            },
            _ => misfit(),
        },
        Build::RemoveTarget { outcome } => match (outcome, reply) {
            (None, Reply::Done(Ok(_))) => building(commit, parent, Build::Validate),
            (Some(error), Reply::Done(Ok(_))) => {
                let path = ctx.temporary_release(parent.as_str());
                discard(commit, parent, path, error)
            },
            (None, Reply::Done(Err(cleanup))) => {
                let path = ctx.temporary_release(parent.as_str());
                discard(commit, parent, path, cleanup)
            },
            (Some(error), Reply::Done(Err(cleanup))) => {
                let path = ctx.temporary_release(parent.as_str());
                let both = state_error(
                    cat4(
                        "Cargo build failed with ",
                        error.message().as_str(),
                        "; target cleanup also failed with ",
                        cleanup.message().as_str(),
                    ),
                );
                discard(commit, parent, path, both)
            },
            _ => misfit(),
        },
        Build::Discard { error, .. } => match reply {
            Reply::Done(Ok(_)) => built(commit, Some(error)),
            Reply::Done(Err(cleanup)) => {
                let both = state_error(
                    cat4(
                        "release creation failed with ",
                        error.message().as_str(),
                        "; failed release cleanup also failed with ",
                        cleanup.message().as_str(),
                    ),
                );
                built(commit, Some(both))
            },
            _ => misfit(),
        },
    }
}

fn unhealthy(purpose: Purpose<String, AppError>, error: AppError) -> (step: ExecStep)
    ensures
        step@ == plan::unhealthy(purpose@, error@),
{
    match purpose {
        Purpose::Forward { previous } => Step::Back(Back::MarkRollingBack { previous, error }),
        Purpose::Back { error: original } => lock(
            cat4(
                "deployment failed with ",
                original.message().as_str(),
                "; rollback also failed with ",
                error.message().as_str(),
            ),
        ),
        Purpose::Resume => lock(cat2("rollback recovery failed: ", error.message().as_str())),
    }
}

fn healthy(purpose: Purpose<String, AppError>) -> (step: ExecStep)
    ensures
        step@ == plan::healthy(purpose@),
{
    match purpose {
        Purpose::Forward { .. } => Step::Close(Close::MarkSucceeded),
        Purpose::Back { error } => Step::Close(
            Close::MarkFailed {
                code: error.code().to_owned(),
                message: cat2(
                    "deployment failed and was rolled back successfully: ",
                    error.message().as_str(),
                ),
            },
        ),
        Purpose::Resume => Step::Close(
            Close::MarkFailed {
                code: "deploymentInterrupted".to_owned(),
                message: "service restarted during deployment; rollback completed successfully".to_owned(),
            },
        ),
    }
}

fn probe(ctx: Context, purpose: Purpose<String, AppError>) -> (step: ExecStep)
    ensures
        step@ == plan::probe(ctx, purpose@),
{
    if ctx.project.health_check.attempts == 0 {
        unhealthy(
            purpose,
            state_error(
                cat3(
                    "health check for project ",
                    ctx.project.project_id.as_str(),
                    " completed without an attempt",
                ),
            ),
        )
    } else {
        Step::Check(Check::Probe { attempt: 1, purpose })
    }
}

fn reload(ctx: Context, index: usize, purpose: Purpose<String, AppError>) -> (step: ExecStep)
    ensures
        step@ == plan::reload(ctx, index, purpose@),
{
    if index < ctx.project.reload.len() {
        Step::Check(Check::Reload { index, purpose })
    } else {
        reloaded(ctx, purpose)
    }
}

fn reloaded(ctx: Context, purpose: Purpose<String, AppError>) -> (step: ExecStep)
    ensures
        step@ == plan::reloaded(ctx, purpose@),
{
    match purpose {
        Purpose::Forward { previous } => Step::Check(Check::MarkHealthChecking { previous }),
        other => probe(ctx, other),
    }
}

fn after_check(ctx: Context, check: Check<String, AppError>, reply: ExecReply) -> (step: ExecStep)
    ensures
        step@ == plan::after_check(ctx, check@, reply@),
{
    match check {
        Check::Reload { index, purpose } => match reply {
            Reply::Output(Ok(_)) => if index < usize::MAX {
                reload(ctx, index + 1, purpose)
            } else {
                reloaded(ctx, purpose)
            },
            Reply::Output(Err(error)) => unhealthy(purpose, error),
            _ => misfit(),
        },
        Check::MarkHealthChecking { previous } => after(
            reply,
            probe(ctx, Purpose::Forward { previous }),
        ),
        Check::Probe { attempt, purpose } => match reply {
            Reply::Done(Ok(_)) => healthy(purpose),
            Reply::Done(Err(error)) => if attempt < ctx.project.health_check.attempts {
                Step::Check(Check::ProbePause { attempt, purpose })
            } else {
                unhealthy(purpose, error)
            },
            _ => misfit(),
        },
        Check::ProbePause { attempt, purpose } => match reply {
            Reply::Elapsed => if attempt < ctx.project.health_check.attempts {
                Step::Check(Check::Probe { attempt: attempt + 1, purpose })
            } else {
                misfit()
            },
            _ => misfit(),
        },
    }
}

fn after_activate(
    ctx: Context,
    activate: Activate<String, Vec<(String, String)>>,
    reply: ExecReply,
) -> (step: ExecStep)
    ensures
        step@ == plan::after_activate(ctx, activate@, reply@),
{
    match activate {
        Activate::Recheck { release } => {
            let next = match &ctx.project.migration {
                None => fail(
                    state_error(
                        cat3(
                            "migrating deployment ",
                            ctx.deployment.id.as_str(),
                            " requires migration configuration",
                        ),
                    ),
                ),
                Some(_) => Step::Activate(Activate::MarkMigrating { release }),
            };
            after(reply, next)
        },
        Activate::MarkMigrating { release } => {
            let next: ExecStep = match ctx.environment_file_path() {
                Some(file) => Step::Activate(Activate::LoadEnvironment { release, file }),
                None => {
                    let environment: Vec<(String, String)> = Vec::new();
                    assert(environment.deep_view() =~= Seq::<(Seq<char>, Seq<char>)>::empty());
                    Step::Activate(Activate::Migrate { release, environment })
                },
            };
            after(reply, next)
        },
        Activate::LoadEnvironment { release, .. } => match reply {
            Reply::Environment(Ok(environment)) => Step::Activate(
                Activate::Migrate { release, environment },
            ),
            Reply::Environment(Err(error)) => fail(error),
            _ => misfit(),
        },
        Activate::Migrate { release, .. } => after_command(
            reply,
            Step::Activate(Activate::ValidateCandidate { release }),
        ),
        Activate::ValidateCandidate { release } => after(
            reply,
            Step::Activate(Activate::ReadCurrent { release }),
        ),
        Activate::ReadCurrent { release } => match reply {
            Reply::Target(Ok(previous)) => Step::Activate(
                Activate::RecordActivation { release, previous },
            ),
            Reply::Target(Err(error)) => fail(error),
            _ => misfit(),
        },
        Activate::RecordActivation { release, previous } => after(
            reply,
            Step::Activate(Activate::SwitchTo { release, previous }),
        ),
        Activate::SwitchTo { previous, .. } => after(
            reply,
            reload(ctx, 0, Purpose::Forward { previous }),
        ),
    }
}

/// Whether an optional path is the given one.
fn leads_to(path: &Option<String>, other: &str) -> (same: bool)
    ensures
        same == plan::leads_to(path.deep_view(), other@),
{
    match path {
        Some(path) => same_path(path.as_str(), other),
        None => false,
    }
}

fn interrupted(ctx: Context, original: String, current: Option<String>) -> (step: ExecStep)
    ensures
        step@ == plan::interrupted(ctx, original@, current.deep_view()),
{
    let previous = opt_text_copy(&ctx.deployment.previous_release_path);
    match &ctx.deployment.release_path {
        None => misfit(),
        Some(release) => {
            if leads_to(&current, release.as_str()) {
                return reload(ctx, 0, Purpose::Forward { previous });
            }
            let unchanged = match &previous {
                Some(previous) => leads_to(&current, previous.as_str()),
                None => current.is_none(),
            };
            if unchanged {
                Step::Close(
                    Close::MarkFailed { code: "activationInterrupted".to_owned(), message: original },
                )
            } else {
                let error = state_error(
                    cat6(
                        "current symlink ",
                        debug_opt_path(&current).as_str(),
                        " points to neither release ",
                        debug_path(release.as_str()).as_str(),
                        " nor previous ",
                        debug_opt_path(&previous).as_str(),
                    ),
                );
                Step::Back(Back::MarkRollingBack { previous, error })
            }
        },
    }
}

fn after_back(ctx: Context, back: Back<String, AppError>, reply: ExecReply) -> (step: ExecStep)
    ensures
        step@ == plan::after_back(ctx, back@, reply@),
{
    match back {
        Back::ReadInterrupted { original } => match reply {
            Reply::Target(Ok(current)) => interrupted(ctx, original, current),
            Reply::Target(Err(error)) => fail(error),
            _ => misfit(),
        },
        Back::MarkRollingBack { previous, error } => {
            let next = match previous {
                None => lock(
                    cat3(
                        "deployment failed with ",
                        error.message().as_str(),
                        "; no previous release exists for rollback",
                    ),
                ),
                Some(previous) => Step::Back(Back::ValidatePrevious { previous, error }),
            };
            after(reply, next)
        },
        Back::ValidatePrevious { previous, error } => match reply {
            Reply::Done(Ok(_)) => Step::Back(Back::SwitchBack { previous, error }),
            Reply::Done(Err(failure)) => unhealthy(Purpose::Back { error }, failure),
            _ => misfit(),
        },
        Back::SwitchBack { error, .. } => match reply {
            Reply::Done(Ok(_)) => reload(ctx, 0, Purpose::Back { error }),
            Reply::Done(Err(failure)) => unhealthy(Purpose::Back { error }, failure),
            _ => misfit(),
        },
        Back::ReadRollback { previous } => match reply {
            Reply::Target(Ok(current)) => if leads_to(&current, previous.as_str()) {
                reload(ctx, 0, Purpose::Resume)
            } else {
                Step::Back(Back::SwitchResumed { previous })
            },
            Reply::Target(Err(error)) => unhealthy(Purpose::Resume, error),
            _ => misfit(),
        },
        Back::SwitchResumed { .. } => match reply {
            Reply::Done(Ok(_)) => reload(ctx, 0, Purpose::Resume),
            Reply::Done(Err(error)) => unhealthy(Purpose::Resume, error),
            _ => misfit(),
        },
    }
}

/// The releases to remove, and the refusal to go on where one of them does not stand in the
/// directory of the releases.
fn retired(paths: Vec<String>, retain: usize, current: &Option<String>, root: &str) -> (result: (
    Vec<String>,
    Option<AppError>,
))
    ensures
        (result.0.deep_view(), result.1.deep_view()) == plan::retired(
            plan::surplus(paths.deep_view(), retain),
            current.deep_view(),
            root@,
        ),
{
    let ghost all = plan::surplus(paths.deep_view(), retain);
    let mut kept: Vec<String> = Vec::new();
    assert(kept.deep_view() =~= Seq::<Seq<char>>::empty());
    assert(all.take(0) =~= Seq::<Seq<char>>::empty());
    let mut i: usize = retain;
    if i >= paths.len() {
        return (kept, None);
    }
    while i < paths.len()
        invariant
            retain <= i <= paths.len(),
            all == paths.deep_view().skip(retain as int),
            plan::retired(all.take(i - retain), current.deep_view(), root@) == (
                kept.deep_view(),
                None::<AppErrorView>,
            ),
        decreases paths.len() - i,
    {
        let path = paths[i].as_str();
        let ghost before = kept.deep_view();
        assert(all.take(i - retain + 1).drop_last() =~= all.take(i - retain));
        assert(all.take(i - retain + 1).last() == path@);
        if !leads_to(current, path) {
            let above = parent(path);
            if leads_to(&above, root) {
                kept.push(path.to_owned());
                assert(kept.deep_view() =~= before.push(path@));
            } else {
                let refusal = state_error(
                    cat4(
                        "refusing to remove retained release ",
                        debug_path(path).as_str(),
                        " outside ",
                        debug_path(root).as_str(),
                    ),
                );
                proof {
                    retired_stops(all, current.deep_view(), root@, i - retain + 1);
                }
                return (kept, Some(refusal));
            }
        }
        i += 1;
    }
    assert(all.take(i - retain) =~= all);
    (kept, None)
}

proof fn retired_stops(
    paths: Seq<Seq<char>>,
    current: Option<Seq<char>>,
    root: Seq<char>,
    count: int,
)
    requires
        0 <= count <= paths.len(),
        plan::retired(paths.take(count), current, root).1 is Some,
    ensures
        plan::retired(paths, current, root) == plan::retired(paths.take(count), current, root),
    decreases paths.len(),
{
    if count < paths.len() {
        assert(paths.drop_last().take(count) =~= paths.take(count));
        retired_stops(paths.drop_last(), current, root, count);
    } else {
        assert(paths.take(count) =~= paths);
    }
}

fn retire(paths: Vec<String>, index: usize, refusal: Option<AppError>) -> (step: ExecStep)
    ensures
        step@ == plan::retire(paths.deep_view(), index, refusal.deep_view()),
{
    if index < paths.len() {
        Step::Close(Close::Retire { paths, index, refusal })
    } else {
        Step::Finished(refusal)
    }
}

fn after_close(ctx: Context, close: Close<String, AppError, Vec<String>>, reply: ExecReply) -> (step:
    ExecStep)
    ensures
        step@ == plan::after_close(ctx, close@, reply@),
{
    match close {
        Close::MarkSucceeded => after(reply, Step::Close(Close::ReadRetained)),
        Close::ReadRetained => match reply {
            Reply::Target(Ok(current)) => Step::Close(Close::ListRetained { current }),
            Reply::Target(Err(error)) => fail(error),
            _ => misfit(),
        },
        Close::ListRetained { current } => match reply {
            Reply::Paths(Ok(paths)) => {
                let (paths, refusal) = retired(
                    paths,
                    ctx.project.retain_releases,
                    &current,
                    ctx.release_root().as_str(),
                );
                retire(paths, 0, refusal)
            },
            Reply::Paths(Err(error)) => fail(error),
            _ => misfit(),
        },
        Close::Retire { paths, index, refusal } => {
            let next = if index < usize::MAX {
                retire(paths, index + 1, refusal)
            } else {
                Step::Finished(refusal)
            };
            after(reply, next)
        },
        Close::MarkFailed { .. } => after(reply, Step::Finished(None)),
        Close::MarkRollbackFailed { reason } => after(
            reply,
            Step::Close(Close::BlockProject { reason }),
        ),
        Close::BlockProject { .. } => after(reply, Step::Finished(None)),
    }
}

fn prepare_action(ctx: Context, prepare: &Prepare<String>) -> (action: ExecAction)
    ensures
        action@ == plan::prepare_action(ctx, prepare@),
{
    match prepare {
        Prepare::MarkFetching => Action::SetStatus(DeploymentStatus::Fetching),
        Prepare::CreateMirrorParent { parent } => Action::CreateDirectories(parent.clone()),
        Prepare::CheckMirror => Action::Exists(ctx.mirror_path()),
        Prepare::ReadOrigin => Action::Run(ctx.read_origin_command()),
        Prepare::InitMirror => Action::Run(ctx.init_mirror_command()),
        Prepare::AddOrigin => Action::Run(ctx.add_origin_command()),
        Prepare::CheckTagRef => Action::Run(ctx.check_tag_ref_command()),
        Prepare::Fetch { .. } => Action::Run(ctx.fetch_command()),
        Prepare::FetchPause { .. } => Action::Pause { ms: ctx.global.git_fetch_retry_delay_ms },
        Prepare::ResolveTag => Action::Run(ctx.resolve_tag_command()),
        Prepare::ResolveCommit => Action::Run(ctx.resolve_commit_command()),
        Prepare::RecordCommit { commit } => Action::SetResolvedCommit(commit.clone()),
        Prepare::CheckRelease { commit } => Action::Exists(ctx.release_path(commit.as_str())),
        Prepare::CheckStaleWorktree { .. } => Action::Exists(ctx.worktree_path()),
        Prepare::ValidateExisting { commit } => Action::Validate(
            ctx.release_path(commit.as_str()),
        ),
        Prepare::MarkBuilding { .. } => Action::SetStatus(DeploymentStatus::Building),
        Prepare::PruneWorktrees { .. } => Action::Run(ctx.prune_worktrees_command()),
        Prepare::CheckWorktree { .. } => Action::Exists(ctx.worktree_path()),
        Prepare::CreateWorktreeParent { parent, .. } => Action::CreateDirectories(parent.clone()),
        Prepare::AddWorktree { commit } => Action::Run(ctx.add_worktree_command(commit.as_str())),
        Prepare::RecordRelease { commit } => Action::SetRelease(
            ctx.release_path(commit.as_str()),
        ),
    }
}

fn build_action(
    ctx: Context,
    commit: &str,
    parent: &str,
    build: &Build<String, AppError, Vec<(String, String)>>,
) -> (action: ExecAction)
    ensures
        action@ == plan::build_action(ctx, commit@, parent@, build@),
{
    let temporary = ctx.temporary_release(parent);
    match build {
        Build::CreateReleaseParent => Action::CreateDirectories(parent.to_owned()),
        Build::ClearTemporary => Action::RemoveDirectory(temporary),
        Build::CreateTemporary => Action::CreateDirectory(temporary),
        Build::CopyTree => Action::CopyTree { from: ctx.worktree_path(), to: temporary },
        Build::CopyPrebuilt => match &ctx.project.deployment {
            DeploymentTarget::Binary { binary_path } => Action::CopyPrebuilt {
                from: ctx.worktree_path(),
                to: temporary,
                file: binary_path.clone(),
            },
            _ => Action::Finish,
        },
        Build::CheckManifest => Action::IsFile(ctx.manifest_path()),
        Build::ClearTarget => Action::RemoveDirectory(ctx.target_directory()),
        Build::CreateTarget => Action::CreateDirectories(ctx.target_directory()),
        Build::LoadEnvironment { file } => Action::LoadEnvironment(file.clone()),
        Build::Cargo { environment } => Action::Run(ctx.cargo_command(environment)),
        Build::CopyBinary { index } => match &ctx.project.deployment {
            DeploymentTarget::Rust { binaries, .. } => if *index < binaries.len() {
                Action::CopyBuilt {
                    target: ctx.target_directory(),
                    to: temporary,
                    name: binaries[*index].binary.clone(),
                }
            } else {
                Action::Finish
            },
            _ => Action::Finish,
        },
        Build::CopyInclude { index } => match &ctx.project.deployment {
            DeploymentTarget::Rust { include_paths, .. } => if *index < include_paths.len() {
                Action::CopyIncluded {
                    from: ctx.worktree_path(),
                    to: temporary,
                    path: include_paths[*index].clone(),
                }
            } else {
                Action::Finish
            },
            _ => Action::Finish,
        },
        Build::RemoveTarget { .. } => Action::RemoveDirectory(ctx.target_directory()),
        Build::Validate => Action::Validate(temporary),
        Build::Publish => Action::Rename { from: temporary, to: ctx.release_path(commit) },
        Build::Sync => Action::SyncDirectory(parent.to_owned()),
        Build::Discard { path, .. } => Action::RemoveDirectory(path.clone()),
    }
}

fn activate_action(ctx: Context, activate: &Activate<String, Vec<(String, String)>>) -> (action:
    ExecAction)
    ensures
        action@ == plan::activate_action(ctx, activate@),
{
    match activate {
        Activate::Recheck { release } => Action::Validate(release.clone()),
        Activate::MarkMigrating { .. } => Action::SetStatus(DeploymentStatus::Migrating),
        Activate::LoadEnvironment { file, .. } => Action::LoadEnvironment(file.clone()),
        Activate::Migrate { release, environment } => match &ctx.project.migration {
            Some(migration) => Action::Run(
                command_spec(migration, Some(release.clone()), environment_copy(environment)),
            ),
            None => Action::Finish,
        },
        Activate::ValidateCandidate { release } => Action::Validate(release.clone()),
        Activate::ReadCurrent { .. } => Action::ReadCurrent(ctx.project.current_path.clone()),
        Activate::RecordActivation { previous, .. } => Action::SetActivation(
            opt_text_copy(previous),
        ),
        Activate::SwitchTo { release, .. } => Action::SwitchCurrent {
            current: ctx.project.current_path.clone(),
            release: release.clone(),
        },
    }
}

fn check_action(ctx: Context, check: &Check<String, AppError>) -> (action: ExecAction)
    ensures
        action@ == plan::check_action(ctx, check@),
{
    match check {
        Check::Reload { index, .. } => if *index < ctx.project.reload.len() {
            let environment: Vec<(String, String)> = Vec::new();
            assert(environment.deep_view() =~= Seq::<(Seq<char>, Seq<char>)>::empty());
            Action::Run(command_spec(&ctx.project.reload[*index], None, environment))
        } else {
            Action::Finish
        },
        Check::MarkHealthChecking { .. } => Action::SetStatus(DeploymentStatus::HealthChecking),
        Check::Probe { .. } => Action::Probe {
            url: ctx.project.health_check.url.clone(),
            timeout_ms: ctx.project.health_check.timeout_ms,
        },
        Check::ProbePause { .. } => Action::Pause { ms: ctx.project.health_check.interval_ms },
    }
}

fn back_action(ctx: Context, back: &Back<String, AppError>) -> (action: ExecAction)
    ensures
        action@ == plan::back_action(ctx, back@),
{
    match back {
        Back::ReadInterrupted { .. } => Action::ReadCurrent(ctx.project.current_path.clone()),
        Back::MarkRollingBack { .. } => Action::SetStatus(DeploymentStatus::RollingBack),
        Back::ValidatePrevious { previous, .. } => Action::Validate(previous.clone()),
        Back::SwitchBack { previous, .. } => Action::SwitchCurrent {
            current: ctx.project.current_path.clone(),
            release: previous.clone(),
        },
        Back::ReadRollback { .. } => Action::ReadCurrent(ctx.project.current_path.clone()),
        Back::SwitchResumed { previous } => Action::SwitchCurrent {
            current: ctx.project.current_path.clone(),
            release: previous.clone(),
        },
    }
}

fn close_action(ctx: Context, close: &Close<String, AppError, Vec<String>>) -> (action: ExecAction)
    ensures
        action@ == plan::close_action(ctx, close@),
{
    match close {
        Close::MarkSucceeded => Action::MarkSucceeded,
        Close::ReadRetained => Action::ReadCurrent(ctx.project.current_path.clone()),
        Close::ListRetained { .. } => Action::RetainedPaths,
        Close::Retire { paths, index, .. } => if *index < paths.len() {
            Action::RemoveDirectory(paths[*index].clone())
        } else {
            Action::Finish
        },
        Close::MarkFailed { code, message } => Action::MarkFailed {
            code: code.clone(),
            message: message.clone(),
        },
        Close::MarkRollbackFailed { reason } => Action::MarkRollbackFailed {
            code: "rollbackFailed".to_owned(),
            message: reason.clone(),
        },
        Close::BlockProject { reason } => Action::BlockProject { reason: reason.clone() },
    }
}

/// The run of a deployment.
pub struct Run<'a> {
    ctx: Context<'a>,
    step: ExecStep,
}

impl<'a> Run<'a> {
    /// The deployment and its settings.
    pub closed spec fn context(self) -> Context<'a> {
        self.ctx
    }

    /// The step that the deployment is at.
    pub closed spec fn step(self) -> StepView {
        self.step@
    }

    /// The run of a deployment from where its state says that it is.
    pub fn start(ctx: Context<'a>) -> (run: Run<'a>)
        ensures
            run.context() == ctx,
            run.step() == plan::start(ctx),
    {
        Run { ctx, step: start(ctx) }
    }

    /// The run of a deployment whose activation failed with an error.
    pub fn resume_activation(ctx: Context<'a>, original: String) -> (run: Run<'a>)
        ensures
            run.context() == ctx,
            run.step() == plan::resume_activation(ctx, original@),
    {
        Run { ctx, step: resume_activation(ctx, original) }
    }

    /// The run of a deployment whose rollback failed with an error.
    pub fn resume_rollback(ctx: Context<'a>) -> (run: Run<'a>)
        ensures
            run.context() == ctx,
            run.step() == plan::resume_rollback(ctx),
    {
        Run { ctx, step: resume_rollback(ctx) }
    }

    /// What is to be done now.
    pub fn action(&self) -> (action: ExecAction)
        ensures
            action@ == plan::action(self.context(), self.step()),
    {
        match &self.step {
            Step::Prepare(prepare) => prepare_action(self.ctx, prepare),
            Step::RemoveWorktree { .. } => Action::Run(self.ctx.remove_worktree_command()),
            Step::CheckRemoved { .. } => Action::Exists(self.ctx.worktree_path()),
            Step::Build { commit, parent, build } => build_action(
                self.ctx,
                commit.as_str(),
                parent.as_str(),
                build,
            ),
            Step::Activate(activate) => activate_action(self.ctx, activate),
            Step::Check(check) => check_action(self.ctx, check),
            Step::Back(back) => back_action(self.ctx, back),
            Step::Close(close) => close_action(self.ctx, close),
            Step::Finished(_) => Action::Finish,
        }
    }

    /// The run after a reply to what was to be done.
    pub fn resume(self, reply: ExecReply) -> (next: Run<'a>)
        ensures
            next.context() == self.context(),
            next.step() == plan::next(self.context(), self.step(), reply@),
    {
        let ctx = self.ctx;
        let step = match self.step {
            Step::Prepare(prepare) => after_prepare(ctx, prepare, reply),
            Step::RemoveWorktree { commit, why } => match reply {
                Reply::Output(Ok(_)) => removed(ctx, commit, why, None),
                Reply::Output(Err(error)) => Step::CheckRemoved { commit, why, error },
                _ => misfit(),
            },
            Step::CheckRemoved { commit, why, error } => match reply {
                Reply::Flag(true) => {
                    let failure = state_error(
                        cat4(
                            "Git could not remove worktree ",
                            debug_path(ctx.worktree_path().as_str()).as_str(),
                            ": ",
                            error.message().as_str(),
                        ),
                    );
                    removed(ctx, commit, why, Some(failure))
                },
                Reply::Flag(false) => removed(ctx, commit, why, Some(error)),
                _ => misfit(),
            },
            Step::Build { commit, parent, build } => after_build(ctx, commit, parent, build, reply),
            Step::Activate(activate) => after_activate(ctx, activate, reply),
            Step::Check(check) => after_check(ctx, check, reply),
            Step::Back(back) => after_back(ctx, back, reply),
            Step::Close(close) => after_close(ctx, close, reply),
            Step::Finished(error) => Step::Finished(error),
        };
        Run { ctx, step }
    }

    /// What a finished run reports, where it is finished.
    pub fn finish(self) -> (result: Option<Result<(), AppError>>)
        ensures
            match self.step() {
                Step::Finished(error) => result matches Some(result) && outcome(result) == (
                match error {
                    None => Ok::<(), AppErrorView>(()),
                    Some(error) => Err(error),
                }),
                _ => result is None,
            },
    {
        match self.step {
            Step::Finished(None) => Some(Ok(())),
            Step::Finished(Some(error)) => Some(Err(error)),
            _ => None,
        }
    }
}

} // verus!
