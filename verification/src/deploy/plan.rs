//! What is done for each step of a deployment, and which step follows each reply.
use vstd::prelude::*;

#[allow(unused_imports)]
use crate::config::DeploymentTarget;
#[allow(unused_imports)]
use crate::deploy::place::{configured, Context};
#[allow(unused_imports)]
use crate::deploy::step::{
    Action, ActionView, Activate, Back, Build, Check, Close, Prepare, Purpose, Removal, Reply,
    ReplyView, Step, StepView,
};
#[allow(unused_imports)]
use crate::error::AppErrorView;
#[allow(unused_imports)]
use crate::model::{DeploymentKind, DeploymentStatus};
#[allow(unused_imports)]
use crate::path::{opt_path_debug, parent_of, path_debug, same_parts};
#[allow(unused_imports)]
use crate::text::{object_id, str_debug};

verus! {

/// The deployment ends with an error.
pub open spec fn fail(error: AppErrorView) -> StepView {
    Step::Finished(Some(error))
}

/// The error of a state that must not occur.
pub open spec fn state_error(reason: Seq<char>) -> AppErrorView {
    AppErrorView::InvalidState { reason }
}

/// The deployment ends because a reply is not of the kind that its step asks for.
pub open spec fn misfit() -> StepView {
    fail(state_error("the reply does not fit the step of the deployment"@))
}

/// The next step where the action was done; an error ends the deployment.
pub open spec fn after(reply: ReplyView, next: StepView) -> StepView {
    match reply {
        Reply::Done(Ok(_)) => next,
        Reply::Done(Err(error)) => fail(error),
        _ => misfit(),
    }
}

/// The next step where the command succeeded; an error ends the deployment.
pub open spec fn after_command(reply: ReplyView, next: StepView) -> StepView {
    match reply {
        Reply::Output(Ok(_)) => next,
        Reply::Output(Err(error)) => fail(error),
        _ => misfit(),
    }
}

/// The first step of a deployment, by its state and kind.
pub open spec fn start(ctx: Context) -> StepView {
    let id = ctx.deployment.id@;
    match ctx.deployment.status {
        DeploymentStatus::Queued | DeploymentStatus::Fetching | DeploymentStatus::Building => {
            match ctx.deployment.kind {
                DeploymentKind::Deploy => Step::Prepare(Prepare::MarkFetching),
                DeploymentKind::Rollback => match ctx.deployment.release_path {
                    None => fail(
                        state_error("rollback deployment "@ + id + " has no releasePath"@),
                    ),
                    Some(release) => Step::Activate(
                        Activate::ValidateCandidate { release: release@ },
                    ),
                },
            }
        },
        DeploymentStatus::Migrating => {
            if ctx.deployment.kind is Rollback {
                fail(
                    state_error("rollback deployment "@ + id + " cannot be in migrating state"@),
                )
            } else {
                match ctx.deployment.release_path {
                    None => fail(
                        state_error("migrating deployment "@ + id + " has no releasePath"@),
                    ),
                    Some(release) => Step::Activate(Activate::Recheck { release: release@ }),
                }
            }
        },
        DeploymentStatus::Activating | DeploymentStatus::HealthChecking => resume_activation(
            ctx,
            "service restarted during activation"@,
        ),
        DeploymentStatus::RollingBack => resume_rollback(ctx),
        DeploymentStatus::Succeeded | DeploymentStatus::Failed | DeploymentStatus::RollbackFailed
        => fail(
            state_error(
                "terminal deployment "@ + id + " with status "@ + ctx.deployment.status.text()
                    + " was selected for processing"@,
            ),
        ),
    }
}

/// The first step after an activation was interrupted.
pub open spec fn resume_activation(ctx: Context, original: Seq<char>) -> StepView {
    match ctx.deployment.release_path {
        None => fail(
            state_error(
                "deployment "@ + ctx.deployment.id@ + " has no releasePath during recovery"@,
            ),
        ),
        Some(_) => Step::Back(Back::ReadInterrupted { original }),
    }
}

/// The first step after a rollback was interrupted.
pub open spec fn resume_rollback(ctx: Context) -> StepView {
    match ctx.deployment.previous_release_path {
        None => lock("service restarted during rollback, but no previous release is recorded"@),
        Some(previous) => Step::Back(Back::ReadRollback { previous: previous@ }),
    }
}

/// The deployment and its project are locked after a rollback failed.
pub open spec fn lock(reason: Seq<char>) -> StepView {
    Step::Close(Close::MarkRollbackFailed { reason })
}

/// The first step of fetching: a mirror needs a directory to stand in.
pub open spec fn begin_mirror(ctx: Context) -> StepView {
    match parent_of(ctx.mirror()) {
        None => fail(
            state_error("mirror path "@ + path_debug(ctx.mirror()) + " has no parent"@),
        ),
        Some(parent) => Step::Prepare(Prepare::CreateMirrorParent { parent }),
    }
}

/// The first attempt to fetch, where there is any.
pub open spec fn begin_fetch(ctx: Context) -> StepView {
    if ctx.global.git_fetch_attempts == 0 {
        Step::Prepare(Prepare::ResolveTag)
    } else {
        Step::Prepare(Prepare::Fetch { attempt: 1 })
    }
}

/// A worktree needs a directory to stand in.
pub open spec fn begin_worktree(ctx: Context, commit: Seq<char>) -> StepView {
    match parent_of(ctx.worktree()) {
        None => fail(
            state_error("worktree path "@ + path_debug(ctx.worktree()) + " has no parent"@),
        ),
        Some(parent) => Step::Prepare(Prepare::CreateWorktreeParent { commit, parent }),
    }
}

/// The first step of a build: a release needs a directory to stand in.
pub open spec fn begin_build(ctx: Context, commit: Seq<char>) -> StepView {
    match parent_of(ctx.release(commit)) {
        None => built(
            commit,
            Some(
                state_error(
                    "release path "@ + path_debug(ctx.release(commit)) + " has no parent"@,
                ),
            ),
        ),
        Some(parent) => Step::Build { commit, parent, build: Build::CreateReleaseParent },
    }
}

/// A build has ended: its worktree is removed.
pub open spec fn built(commit: Seq<char>, outcome: Option<AppErrorView>) -> StepView {
    Step::RemoveWorktree { commit, why: Removal::Built { outcome } }
}

/// A prepared release is migrated to, where the project has a migration, and activated.
pub open spec fn prepared(ctx: Context, release: Seq<char>) -> StepView {
    match ctx.project.migration {
        None => Step::Activate(Activate::ValidateCandidate { release }),
        Some(_) => Step::Activate(Activate::MarkMigrating { release }),
    }
}

/// The step after one that prepares a release.
pub open spec fn after_prepare(ctx: Context, prepare: Prepare<Seq<char>>, reply: ReplyView) -> StepView {
    match prepare {
        Prepare::MarkFetching => after(reply, begin_mirror(ctx)),
        Prepare::CreateMirrorParent { .. } => after(reply, Step::Prepare(Prepare::CheckMirror)),
        Prepare::CheckMirror => match reply {
            Reply::Flag(true) => Step::Prepare(Prepare::ReadOrigin),
            Reply::Flag(false) => Step::Prepare(Prepare::InitMirror),
            _ => misfit(),
        },
        Prepare::ReadOrigin => match reply {
            Reply::Output(Ok(origin)) => if origin == ctx.project.repository_url@ {
                Step::Prepare(Prepare::CheckTagRef)
            } else {
                fail(
                    state_error(
                        "mirror "@ + path_debug(ctx.mirror()) + " origin is "@ + str_debug(origin)
                            + ", expected "@ + str_debug(ctx.project.repository_url@),
                    ),
                )
            },
            Reply::Output(Err(error)) => fail(error),
            _ => misfit(),
        },
        Prepare::InitMirror => after_command(reply, Step::Prepare(Prepare::AddOrigin)),
        Prepare::AddOrigin => after_command(reply, Step::Prepare(Prepare::CheckTagRef)),
        Prepare::CheckTagRef => after_command(reply, begin_fetch(ctx)),
        Prepare::Fetch { attempt } => match reply {
            Reply::Output(Ok(_)) => Step::Prepare(Prepare::ResolveTag),
            Reply::Output(Err(error)) => if attempt < ctx.global.git_fetch_attempts {
                Step::Prepare(Prepare::FetchPause { attempt })
            } else {
                fail(error)
            },
            _ => misfit(),
        },
        Prepare::FetchPause { attempt } => match reply {
            Reply::Elapsed => if attempt < ctx.global.git_fetch_attempts {
                Step::Prepare(Prepare::Fetch { attempt: (attempt + 1) as u32 })
            } else {
                misfit()
            },
            _ => misfit(),
        },
        Prepare::ResolveTag => match reply {
            Reply::Output(Ok(object)) => if object == ctx.deployment.requested_sha@ {
                Step::Prepare(Prepare::ResolveCommit)
            } else {
                fail(
                    AppErrorView::RequestValidation {
                        reason: "fetched tag object "@ + object + " does not match webhook after "@
                            + ctx.deployment.requested_sha@ + " for tag "@ + ctx.deployment.tag@,
                    },
                )
            },
            Reply::Output(Err(error)) => fail(error),
            _ => misfit(),
        },
        Prepare::ResolveCommit => match reply {
            Reply::Output(Ok(commit)) => if object_id(commit) {
                Step::Prepare(Prepare::RecordCommit { commit })
            } else {
                fail(state_error("Git resolved invalid commit SHA "@ + str_debug(commit)))
            },
            Reply::Output(Err(error)) => fail(error),
            _ => misfit(),
        },
        Prepare::RecordCommit { commit } => after(
            reply,
            Step::Prepare(Prepare::CheckRelease { commit }),
        ),
        Prepare::CheckRelease { commit } => match reply {
            Reply::Flag(true) => Step::Prepare(Prepare::CheckStaleWorktree { commit }),
            Reply::Flag(false) => Step::Prepare(Prepare::MarkBuilding { commit }),
            _ => misfit(),
        },
        Prepare::CheckStaleWorktree { commit } => match reply {
            Reply::Flag(true) => Step::RemoveWorktree { commit, why: Removal::Stale },
            Reply::Flag(false) => Step::Prepare(Prepare::ValidateExisting { commit }),
            _ => misfit(),
        },
        Prepare::ValidateExisting { commit } => after(
            reply,
            Step::Prepare(Prepare::RecordRelease { commit }),
        ),
        Prepare::MarkBuilding { commit } => after(
            reply,
            Step::Prepare(Prepare::PruneWorktrees { commit }),
        ),
        Prepare::PruneWorktrees { commit } => after_command(
            reply,
            Step::Prepare(Prepare::CheckWorktree { commit }),
        ),
        Prepare::CheckWorktree { commit } => match reply {
            Reply::Flag(true) => Step::RemoveWorktree { commit, why: Removal::Replace },
            Reply::Flag(false) => begin_worktree(ctx, commit),
            _ => misfit(),
        },
        Prepare::CreateWorktreeParent { commit, .. } => after(
            reply,
            Step::Prepare(Prepare::AddWorktree { commit }),
        ),
        Prepare::AddWorktree { commit } => after_command(reply, begin_build(ctx, commit)),
        Prepare::RecordRelease { commit } => after(reply, prepared(ctx, ctx.release(commit))),
    }
}

/// The step after a worktree was removed, or could not be removed.
pub open spec fn removed(
    ctx: Context,
    commit: Seq<char>,
    why: Removal<AppErrorView>,
    failure: Option<AppErrorView>,
) -> StepView {
    match why {
        Removal::Stale => match failure {
            None => Step::Prepare(Prepare::ValidateExisting { commit }),
            Some(error) => fail(error),
        },
        Removal::Replace => match failure {
            None => begin_worktree(ctx, commit),
            Some(error) => fail(error),
        },
        Removal::Built { outcome } => match (outcome, failure) {
            (None, None) => Step::Prepare(Prepare::RecordRelease { commit }),
            (Some(error), None) => fail(error),
            (None, Some(error)) => fail(error),
            (Some(error), Some(cleanup)) => fail(
                state_error(
                    "build failed with "@ + error.message()
                        + "; worktree cleanup also failed with "@ + cleanup.message(),
                ),
            ),
        },
    }
}

/// A build has failed: what it has made is removed.
pub open spec fn discard(
    commit: Seq<char>,
    parent: Seq<char>,
    path: Seq<char>,
    error: AppErrorView,
) -> StepView {
    Step::Build { commit, parent, build: Build::Discard { path, error } }
}

/// The next program to copy, or the first path to copy after the last program.
pub open spec fn copy_binaries(
    ctx: Context,
    commit: Seq<char>,
    parent: Seq<char>,
    index: usize,
) -> StepView {
    match ctx.project.deployment {
        DeploymentTarget::Rust { binaries, .. } if index < binaries@.len() => Step::Build {
            commit,
            parent,
            build: Build::CopyBinary { index },
        },
        _ => copy_includes(ctx, commit, parent, 0),
    }
}

/// The next path to copy, or the end of the copying.
pub open spec fn copy_includes(
    ctx: Context,
    commit: Seq<char>,
    parent: Seq<char>,
    index: usize,
) -> StepView {
    match ctx.project.deployment {
        DeploymentTarget::Rust { include_paths, .. } if index < include_paths@.len() => Step::Build {
            commit,
            parent,
            build: Build::CopyInclude { index },
        },
        _ => Step::Build { commit, parent, build: Build::RemoveTarget { outcome: None } },
    }
}

/// The step after one that builds a release.
pub open spec fn after_build(
    ctx: Context,
    commit: Seq<char>,
    parent: Seq<char>,
    build: Build<Seq<char>, AppErrorView, Seq<(Seq<char>, Seq<char>)>>,
    reply: ReplyView,
) -> StepView {
    let temporary = ctx.temporary(parent);
    match build {
        Build::CreateReleaseParent => match reply {
            Reply::Done(Ok(_)) => Step::Build { commit, parent, build: Build::ClearTemporary },
            Reply::Done(Err(error)) => built(commit, Some(error)),
            _ => misfit(),
        },
        Build::ClearTemporary => match reply {
            Reply::Done(Ok(_)) => Step::Build { commit, parent, build: Build::CreateTemporary },
            Reply::Done(Err(error)) => built(commit, Some(error)),
            _ => misfit(),
        },
        Build::CreateTemporary => match reply {
            Reply::Done(Ok(_)) => Step::Build {
                commit,
                parent,
                build: match ctx.project.deployment {
                    DeploymentTarget::Static { .. } => Build::CopyTree,
                    DeploymentTarget::Binary { .. } => Build::CopyPrebuilt,
                    DeploymentTarget::Rust { .. } => Build::CheckManifest,
                },
            },
            Reply::Done(Err(error)) => built(commit, Some(error)),
            _ => misfit(),
        },
        Build::CopyTree | Build::CopyPrebuilt => match reply {
            Reply::Done(Ok(_)) => Step::Build { commit, parent, build: Build::Validate },
            Reply::Done(Err(error)) => discard(commit, parent, temporary, error),
            _ => misfit(),
        },
        Build::CheckManifest => match reply {
            Reply::Flag(true) => Step::Build { commit, parent, build: Build::ClearTarget },
            Reply::Flag(false) => discard(
                commit,
                parent,
                temporary,
                state_error(
                    "Cargo manifest "@ + path_debug(ctx.manifest()) + " does not exist"@,
                ),
            ),
            _ => misfit(),
        },
        Build::ClearTarget => match reply {
            Reply::Done(Ok(_)) => Step::Build { commit, parent, build: Build::CreateTarget },
            Reply::Done(Err(error)) => discard(commit, parent, temporary, error),
            _ => misfit(),
        },
        Build::CreateTarget => match reply {
            Reply::Done(Ok(_)) => Step::Build {
                commit,
                parent,
                build: match ctx.environment_file() {
                    Some(file) => Build::LoadEnvironment { file },
                    None => Build::Cargo { environment: Seq::empty() },
                },
            },
            Reply::Done(Err(error)) => discard(commit, parent, temporary, error),
            _ => misfit(),
        },
        Build::LoadEnvironment { .. } => match reply {
            Reply::Environment(Ok(environment)) => Step::Build {
                commit,
                parent,
                build: Build::Cargo { environment },
            },
            Reply::Environment(Err(error)) => discard(commit, parent, temporary, error),
            _ => misfit(),
        },
        Build::Cargo { .. } => match reply {
            Reply::Output(Ok(_)) => copy_binaries(ctx, commit, parent, 0),
            Reply::Output(Err(error)) => Step::Build {
                commit,
                parent,
                build: Build::RemoveTarget { outcome: Some(error) },
            },
            _ => misfit(),
        },
        Build::CopyBinary { index } => match reply {
            Reply::Done(Ok(_)) => if index < usize::MAX {
                copy_binaries(ctx, commit, parent, (index + 1) as usize)
            } else {
                copy_includes(ctx, commit, parent, 0)
            },
            Reply::Done(Err(error)) => Step::Build {
                commit,
                parent,
                build: Build::RemoveTarget { outcome: Some(error) },
            },
            _ => misfit(),
        },
        Build::CopyInclude { index } => match reply {
            Reply::Done(Ok(_)) => if index < usize::MAX {
                copy_includes(ctx, commit, parent, (index + 1) as usize)
            } else {
                Step::Build { commit, parent, build: Build::RemoveTarget { outcome: None } }
            },
            Reply::Done(Err(error)) => Step::Build {
                commit,
                parent,
                build: Build::RemoveTarget { outcome: Some(error) },
            },
            _ => misfit(),
        },
        Build::RemoveTarget { outcome } => match reply {
            Reply::Done(Ok(_)) => match outcome {
                None => Step::Build { commit, parent, build: Build::Validate },
                Some(error) => discard(commit, parent, temporary, error),
            },
            Reply::Done(Err(cleanup)) => match outcome {
                None => discard(commit, parent, temporary, cleanup),
                Some(error) => discard(
                    commit,
                    parent,
                    temporary,
                    state_error(
                        "Cargo build failed with "@ + error.message()
                            + "; target cleanup also failed with "@ + cleanup.message(),
                    ),
                ),
            },
            _ => misfit(),
        },
        Build::Validate => match reply {
            Reply::Done(Ok(_)) => Step::Build { commit, parent, build: Build::Publish },
            Reply::Done(Err(error)) => discard(commit, parent, temporary, error),
            _ => misfit(),
        },
        Build::Publish => match reply {
            Reply::Done(Ok(_)) => Step::Build { commit, parent, build: Build::Sync },
            Reply::Done(Err(error)) => discard(commit, parent, temporary, error),
            _ => misfit(),
        },
        Build::Sync => match reply {
            Reply::Done(Ok(_)) => built(commit, None),
            Reply::Done(Err(error)) => discard(commit, parent, ctx.release(commit), error),
            _ => misfit(),
        },
        Build::Discard { error, .. } => match reply {
            Reply::Done(Ok(_)) => built(commit, Some(error)),
            Reply::Done(Err(cleanup)) => built(
                commit,
                Some(
                    state_error(
                        "release creation failed with "@ + error.message()
                            + "; failed release cleanup also failed with "@ + cleanup.message(),
                    ),
                ),
            ),
            _ => misfit(),
        },
    }
}

/// The step after one that migrates or switches.
pub open spec fn after_activate(
    ctx: Context,
    activate: Activate<Seq<char>, Seq<(Seq<char>, Seq<char>)>>,
    reply: ReplyView,
) -> StepView {
    match activate {
        Activate::Recheck { release } => after(
            reply,
            match ctx.project.migration {
                None => fail(
                    state_error(
                        "migrating deployment "@ + ctx.deployment.id@
                            + " requires migration configuration"@,
                    ),
                ),
                Some(_) => Step::Activate(Activate::MarkMigrating { release }),
            },
        ),
        Activate::MarkMigrating { release } => after(
            reply,
            match ctx.environment_file() {
                Some(file) => Step::Activate(Activate::LoadEnvironment { release, file }),
                None => Step::Activate(Activate::Migrate { release, environment: Seq::empty() }),
            },
        ),
        Activate::LoadEnvironment { release, .. } => match reply {
            Reply::Environment(Ok(environment)) => Step::Activate(
                Activate::Migrate { release, environment },
            ),
            Reply::Environment(Err(error)) => fail(error),
            _ => misfit(),
        },
        Activate::Migrate { release, .. } => after_command(
            reply,
            Step::Activate(Activate::ValidateCandidate { release }),
        ),
        Activate::ValidateCandidate { release } => after(
            reply,
            Step::Activate(Activate::ReadCurrent { release }),
        ),
        Activate::ReadCurrent { release } => match reply {
            Reply::Target(Ok(previous)) => Step::Activate(
                Activate::RecordActivation { release, previous },
            ),
            Reply::Target(Err(error)) => fail(error),
            _ => misfit(),
        },
        Activate::RecordActivation { release, previous } => after(
            reply,
            Step::Activate(Activate::SwitchTo { release, previous }),
        ),
        Activate::SwitchTo { previous, .. } => after(
            reply,
            reload(ctx, 0, Purpose::Forward { previous }),
        ),
    }
}

/// The next reload command, or what follows the last one.
pub open spec fn reload(
    ctx: Context,
    index: usize,
    purpose: Purpose<Seq<char>, AppErrorView>,
) -> StepView {
    if index < ctx.project.reload@.len() {
        Step::Check(Check::Reload { index, purpose })
    } else {
        reloaded(ctx, purpose)
    }
}

/// What follows the last reload command: the probes, which an activation records first.
pub open spec fn reloaded(ctx: Context, purpose: Purpose<Seq<char>, AppErrorView>) -> StepView {
    match purpose {
        Purpose::Forward { previous } => Step::Check(Check::MarkHealthChecking { previous }),
        _ => probe(ctx, purpose),
    }
}

/// The first attempt to probe; without one the check fails.
pub open spec fn probe(ctx: Context, purpose: Purpose<Seq<char>, AppErrorView>) -> StepView {
    if ctx.project.health_check.attempts == 0 {
        unhealthy(
            purpose,
            state_error(
                "health check for project "@ + ctx.project.project_id@
                    + " completed without an attempt"@,
            ),
        )
    } else {
        Step::Check(Check::Probe { attempt: 1, purpose })
    }
}

/// What follows a release that answered.
pub open spec fn healthy(purpose: Purpose<Seq<char>, AppErrorView>) -> StepView {
    match purpose {
        Purpose::Forward { .. } => Step::Close(Close::MarkSucceeded),
        Purpose::Back { error } => Step::Close(
            Close::MarkFailed {
                code: error.code(),
                message: "deployment failed and was rolled back successfully: "@ + error.message(),
            },
        ),
        Purpose::Resume => Step::Close(
            Close::MarkFailed {
                code: "deploymentInterrupted"@,
                message: "service restarted during deployment; rollback completed successfully"@,
            },
        ),
    }
}

/// What follows a release that could not be reloaded or did not answer: an activation is rolled
/// back, and a rollback that fails locks the project.
pub open spec fn unhealthy(
    purpose: Purpose<Seq<char>, AppErrorView>,
    error: AppErrorView,
) -> StepView {
    match purpose {
        Purpose::Forward { previous } => Step::Back(Back::MarkRollingBack { previous, error }),
        Purpose::Back { error: original } => lock(
            "deployment failed with "@ + original.message() + "; rollback also failed with "@
                + error.message(),
        ),
        Purpose::Resume => lock("rollback recovery failed: "@ + error.message()),
    }
}

/// The step after one that reloads or probes.
pub open spec fn after_check(
    ctx: Context,
    check: Check<Seq<char>, AppErrorView>,
    reply: ReplyView,
) -> StepView {
    match check {
        Check::Reload { index, purpose } => match reply {
            Reply::Output(Ok(_)) => if index < usize::MAX {
                reload(ctx, (index + 1) as usize, purpose)
            } else {
                reloaded(ctx, purpose)
            },
            Reply::Output(Err(error)) => unhealthy(purpose, error),
            _ => misfit(),
        },
        Check::MarkHealthChecking { previous } => after(
            reply,
            probe(ctx, Purpose::Forward { previous }),
        ),
        Check::Probe { attempt, purpose } => match reply {
            Reply::Done(Ok(_)) => healthy(purpose),
            Reply::Done(Err(error)) => if attempt < ctx.project.health_check.attempts {
                Step::Check(Check::ProbePause { attempt, purpose })
            } else {
                unhealthy(purpose, error)
            },
            _ => misfit(),
        },
        Check::ProbePause { attempt, purpose } => match reply {
            Reply::Elapsed => if attempt < ctx.project.health_check.attempts {
                Step::Check(Check::Probe { attempt: (attempt + 1) as u32, purpose })
            } else {
                misfit()
            },
            _ => misfit(),
        },
    }
}

/// Whether an optional path is the given one.
pub open spec fn leads_to(path: Option<Seq<char>>, other: Seq<char>) -> bool {
    path matches Some(path) && same_parts(path, other)
}

/// Whether two optional paths are both absent, or both present and the same.
pub open spec fn same_target(left: Option<Seq<char>>, right: Option<Seq<char>>) -> bool {
    match right {
        Some(right) => leads_to(left, right),
        None => left is None,
    }
}

/// What follows an interrupted activation, by where the current link points: to the release, and
/// it is checked; to where it pointed before, and the deployment has failed; elsewhere, and it is
/// rolled back.
pub open spec fn interrupted(
    ctx: Context,
    original: Seq<char>,
    current: Option<Seq<char>>,
) -> StepView {
    let previous = ctx.deployment.previous_release_path.deep_view();
    match ctx.deployment.release_path.deep_view() {
        None => misfit(),
        Some(release) => if leads_to(current, release) {
            reload(ctx, 0, Purpose::Forward { previous })
        } else if same_target(current, previous) {
            Step::Close(Close::MarkFailed { code: "activationInterrupted"@, message: original })
        } else {
            Step::Back(
                Back::MarkRollingBack {
                    previous,
                    error: state_error(
                        "current symlink "@ + opt_path_debug(current)
                            + " points to neither release "@ + path_debug(release)
                            + " nor previous "@ + opt_path_debug(previous),
                    ),
                },
            )
        },
    }
}

/// The step after one that recovers or rolls back.
pub open spec fn after_back(
    ctx: Context,
    back: Back<Seq<char>, AppErrorView>,
    reply: ReplyView,
) -> StepView {
    match back {
        Back::ReadInterrupted { original } => match reply {
            Reply::Target(Ok(current)) => interrupted(ctx, original, current),
            Reply::Target(Err(error)) => fail(error),
            _ => misfit(),
        },
        Back::MarkRollingBack { previous, error } => after(
            reply,
            match previous {
                None => lock(
                    "deployment failed with "@ + error.message()
                        + "; no previous release exists for rollback"@,
                ),
                Some(previous) => Step::Back(Back::ValidatePrevious { previous, error }),
            },
        ),
        Back::ValidatePrevious { previous, error } => match reply {
            Reply::Done(Ok(_)) => Step::Back(Back::SwitchBack { previous, error }),
            Reply::Done(Err(failure)) => unhealthy(Purpose::Back { error }, failure),
            _ => misfit(),
        },
        Back::SwitchBack { error, .. } => match reply {
            Reply::Done(Ok(_)) => reload(ctx, 0, Purpose::Back { error }),
            Reply::Done(Err(failure)) => unhealthy(Purpose::Back { error }, failure),
            _ => misfit(),
        },
        Back::ReadRollback { previous } => match reply {
            Reply::Target(Ok(current)) => if leads_to(current, previous) {
                reload(ctx, 0, Purpose::Resume)
            } else {
                Step::Back(Back::SwitchResumed { previous })
            },
            Reply::Target(Err(error)) => unhealthy(Purpose::Resume, error),
            _ => misfit(),
        },
        Back::SwitchResumed { .. } => match reply {
            Reply::Done(Ok(_)) => reload(ctx, 0, Purpose::Resume),
            Reply::Done(Err(error)) => unhealthy(Purpose::Resume, error),
            _ => misfit(),
        },
    }
}

/// The releases to remove, in the order of the list, and the refusal to go on where one of them
/// does not stand in the directory of the releases. What the current link points to stays.
pub open spec fn retired(
    paths: Seq<Seq<char>>,
    current: Option<Seq<char>>,
    root: Seq<char>,
) -> (Seq<Seq<char>>, Option<AppErrorView>)
    decreases paths.len(),
{
    if paths.len() == 0 {
        (Seq::empty(), None)
    } else {
        let (before, refusal) = retired(paths.drop_last(), current, root);
        let path = paths.last();
        if refusal is Some || leads_to(current, path) {
            (before, refusal)
        } else if leads_to(parent_of(path), root) {
            (before.push(path), None)
        } else {
            (
                before,
                Some(
                    state_error(
                        "refusing to remove retained release "@ + path_debug(path) + " outside "@
                            + path_debug(root),
                    ),
                ),
            )
        }
    }
}

/// The next release to remove, or the end.
pub open spec fn retire(
    paths: Seq<Seq<char>>,
    index: usize,
    refusal: Option<AppErrorView>,
) -> StepView {
    if index < paths.len() {
        Step::Close(Close::Retire { paths, index, refusal })
    } else {
        Step::Finished(refusal)
    }
}

/// The paths beyond those that the project retains.
pub open spec fn surplus(paths: Seq<Seq<char>>, retain: usize) -> Seq<Seq<char>> {
    if retain < paths.len() {
        paths.skip(retain as int)
    } else {
        Seq::empty()
    }
}

/// The step after one that ends the deployment.
pub open spec fn after_close(
    ctx: Context,
    close: Close<Seq<char>, AppErrorView, Seq<Seq<char>>>,
    reply: ReplyView,
) -> StepView {
    match close {
        Close::MarkSucceeded => after(reply, Step::Close(Close::ReadRetained)),
        Close::ReadRetained => match reply {
            Reply::Target(Ok(current)) => Step::Close(Close::ListRetained { current }),
            Reply::Target(Err(error)) => fail(error),
            _ => misfit(),
        },
        Close::ListRetained { current } => match reply {
            Reply::Paths(Ok(paths)) => {
                let (paths, refusal) = retired(
                    surplus(paths, ctx.project.retain_releases),
                    current,
                    ctx.releases(),
                );
                retire(paths, 0, refusal)
            },
            Reply::Paths(Err(error)) => fail(error),
            _ => misfit(),
        },
        Close::Retire { paths, index, refusal } => after(
            reply,
            if index < usize::MAX {
                retire(paths, (index + 1) as usize, refusal)
            } else {
                Step::Finished(refusal)
            },
        ),
        Close::MarkFailed { .. } => after(reply, Step::Finished(None)),
        Close::MarkRollbackFailed { reason } => after(
            reply,
            Step::Close(Close::BlockProject { reason }),
        ),
        Close::BlockProject { .. } => after(reply, Step::Finished(None)),
    }
}

/// What is done to prepare a release.
pub open spec fn prepare_action(ctx: Context, prepare: Prepare<Seq<char>>) -> ActionView {
    match prepare {
        Prepare::MarkFetching => Action::SetStatus(DeploymentStatus::Fetching),
        Prepare::CreateMirrorParent { parent } => Action::CreateDirectories(parent),
        Prepare::CheckMirror => Action::Exists(ctx.mirror()),
        Prepare::ReadOrigin => Action::Run(ctx.read_origin()),
        Prepare::InitMirror => Action::Run(ctx.init_mirror()),
        Prepare::AddOrigin => Action::Run(ctx.add_origin()),
        Prepare::CheckTagRef => Action::Run(ctx.check_tag_ref()),
        Prepare::Fetch { .. } => Action::Run(ctx.fetch()),
        Prepare::FetchPause { .. } => Action::Pause { ms: ctx.global.git_fetch_retry_delay_ms },
        Prepare::ResolveTag => Action::Run(ctx.resolve_tag()),
        Prepare::ResolveCommit => Action::Run(ctx.resolve_commit()),
        Prepare::RecordCommit { commit } => Action::SetResolvedCommit(commit),
        Prepare::CheckRelease { commit } => Action::Exists(ctx.release(commit)),
        Prepare::CheckStaleWorktree { .. } => Action::Exists(ctx.worktree()),
        Prepare::ValidateExisting { commit } => Action::Validate(ctx.release(commit)),
        Prepare::MarkBuilding { .. } => Action::SetStatus(DeploymentStatus::Building),
        Prepare::PruneWorktrees { .. } => Action::Run(ctx.prune_worktrees()),
        Prepare::CheckWorktree { .. } => Action::Exists(ctx.worktree()),
        Prepare::CreateWorktreeParent { parent, .. } => Action::CreateDirectories(parent),
        Prepare::AddWorktree { commit } => Action::Run(ctx.add_worktree(commit)),
        Prepare::RecordRelease { commit } => Action::SetRelease(ctx.release(commit)),
    }
}

/// What is done to build a release.
pub open spec fn build_action(
    ctx: Context,
    commit: Seq<char>,
    parent: Seq<char>,
    build: Build<Seq<char>, AppErrorView, Seq<(Seq<char>, Seq<char>)>>,
) -> ActionView {
    let temporary = ctx.temporary(parent);
    match build {
        Build::CreateReleaseParent => Action::CreateDirectories(parent),
        Build::ClearTemporary => Action::RemoveDirectory(temporary),
        Build::CreateTemporary => Action::CreateDirectory(temporary),
        Build::CopyTree => Action::CopyTree { from: ctx.worktree(), to: temporary },
        Build::CopyPrebuilt => match ctx.project.deployment {
            DeploymentTarget::Binary { binary_path } => Action::CopyPrebuilt {
                from: ctx.worktree(),
                to: temporary,
                file: binary_path@,
            },
            _ => Action::Finish,
        },
        Build::CheckManifest => Action::IsFile(ctx.manifest()),
        Build::ClearTarget => Action::RemoveDirectory(ctx.target()),
        Build::CreateTarget => Action::CreateDirectories(ctx.target()),
        Build::LoadEnvironment { file } => Action::LoadEnvironment(file),
        Build::Cargo { environment } => Action::Run(ctx.cargo(environment)),
        Build::CopyBinary { index } => match ctx.project.deployment {
            DeploymentTarget::Rust { binaries, .. } if index < binaries@.len() => Action::CopyBuilt {
                target: ctx.target(),
                to: temporary,
                name: binaries@[index as int].binary@,
            },
            _ => Action::Finish,
        },
        Build::CopyInclude { index } => match ctx.project.deployment {
            DeploymentTarget::Rust { include_paths, .. } if index < include_paths@.len()
            => Action::CopyIncluded {
                from: ctx.worktree(),
                to: temporary,
                path: include_paths@[index as int]@,
            },
            _ => Action::Finish,
        },
        Build::RemoveTarget { .. } => Action::RemoveDirectory(ctx.target()),
        Build::Validate => Action::Validate(temporary),
        Build::Publish => Action::Rename { from: temporary, to: ctx.release(commit) },
        Build::Sync => Action::SyncDirectory(parent),
        Build::Discard { path, .. } => Action::RemoveDirectory(path),
    }
}

/// What is done to migrate and switch.
pub open spec fn activate_action(
    ctx: Context,
    activate: Activate<Seq<char>, Seq<(Seq<char>, Seq<char>)>>,
) -> ActionView {
    match activate {
        Activate::Recheck { release } => Action::Validate(release),
        Activate::MarkMigrating { .. } => Action::SetStatus(DeploymentStatus::Migrating),
        Activate::LoadEnvironment { file, .. } => Action::LoadEnvironment(file),
        Activate::Migrate { release, environment } => match ctx.project.migration {
            Some(migration) => Action::Run(configured(migration, Some(release), environment)),
            None => Action::Finish,
        },
        Activate::ValidateCandidate { release } => Action::Validate(release),
        Activate::ReadCurrent { .. } => Action::ReadCurrent(ctx.project.current_path@),
        Activate::RecordActivation { previous, .. } => Action::SetActivation(previous),
        Activate::SwitchTo { release, .. } => Action::SwitchCurrent {
            current: ctx.project.current_path@,
            release,
        },
    }
}

/// What is done to reload and probe.
pub open spec fn check_action(ctx: Context, check: Check<Seq<char>, AppErrorView>) -> ActionView {
    match check {
        Check::Reload { index, .. } => if index < ctx.project.reload@.len() {
            Action::Run(configured(ctx.project.reload@[index as int], None, Seq::empty()))
        } else {
            Action::Finish
        },
        Check::MarkHealthChecking { .. } => Action::SetStatus(DeploymentStatus::HealthChecking),
        Check::Probe { .. } => Action::Probe {
            url: ctx.project.health_check.url@,
            timeout_ms: ctx.project.health_check.timeout_ms,
        },
        Check::ProbePause { .. } => Action::Pause { ms: ctx.project.health_check.interval_ms },
    }
}

/// What is done to recover or roll back.
pub open spec fn back_action(ctx: Context, back: Back<Seq<char>, AppErrorView>) -> ActionView {
    match back {
        Back::ReadInterrupted { .. } => Action::ReadCurrent(ctx.project.current_path@),
        Back::MarkRollingBack { .. } => Action::SetStatus(DeploymentStatus::RollingBack),
        Back::ValidatePrevious { previous, .. } => Action::Validate(previous),
        Back::SwitchBack { previous, .. } => Action::SwitchCurrent {
            current: ctx.project.current_path@,
            release: previous,
        },
        Back::ReadRollback { .. } => Action::ReadCurrent(ctx.project.current_path@),
        Back::SwitchResumed { previous } => Action::SwitchCurrent {
            current: ctx.project.current_path@,
            release: previous,
        },
    }
}

/// What is done to end the deployment.
pub open spec fn close_action(
    ctx: Context,
    close: Close<Seq<char>, AppErrorView, Seq<Seq<char>>>,
) -> ActionView {
    match close {
        Close::MarkSucceeded => Action::MarkSucceeded,
        Close::ReadRetained => Action::ReadCurrent(ctx.project.current_path@),
        Close::ListRetained { .. } => Action::RetainedPaths,
        Close::Retire { paths, index, .. } => if index < paths.len() {
            Action::RemoveDirectory(paths[index as int])
        } else {
            Action::Finish
        },
        Close::MarkFailed { code, message } => Action::MarkFailed { code, message },
        Close::MarkRollbackFailed { reason } => Action::MarkRollbackFailed {
            code: "rollbackFailed"@,
            message: reason,
        },
        Close::BlockProject { reason } => Action::BlockProject { reason },
    }
}

/// What is done for a step.
pub open spec fn action(ctx: Context, step: StepView) -> ActionView {
    match step {
        Step::Prepare(prepare) => prepare_action(ctx, prepare),
        Step::RemoveWorktree { .. } => Action::Run(ctx.remove_worktree()),
        Step::CheckRemoved { .. } => Action::Exists(ctx.worktree()),
        Step::Build { commit, parent, build } => build_action(ctx, commit, parent, build),
        Step::Activate(activate) => activate_action(ctx, activate),
        Step::Check(check) => check_action(ctx, check),
        Step::Back(back) => back_action(ctx, back),
        Step::Close(close) => close_action(ctx, close),
        Step::Finished(_) => Action::Finish,
    }
}

/// The step that follows a reply. A finished deployment stays finished.
pub open spec fn next(ctx: Context, step: StepView, reply: ReplyView) -> StepView {
    match step {
        Step::Prepare(prepare) => after_prepare(ctx, prepare, reply),
        Step::RemoveWorktree { commit, why } => match reply {
            Reply::Output(Ok(_)) => removed(ctx, commit, why, None),
            Reply::Output(Err(error)) => Step::CheckRemoved { commit, why, error },
            _ => misfit(),
        },
        Step::CheckRemoved { commit, why, error } => match reply {
            Reply::Flag(true) => removed(
                ctx,
                commit,
                why,
                Some(
                    state_error(
                        "Git could not remove worktree "@ + path_debug(ctx.worktree()) + ": "@
                            + error.message(),
                    ),
                ),
            ),
            Reply::Flag(false) => removed(ctx, commit, why, Some(error)),
            _ => misfit(),
        },
        Step::Build { commit, parent, build } => after_build(ctx, commit, parent, build, reply),
        Step::Activate(activate) => after_activate(ctx, activate, reply),
        Step::Check(check) => after_check(ctx, check, reply),
        Step::Back(back) => after_back(ctx, back, reply),
        Step::Close(close) => after_close(ctx, close, reply),
        Step::Finished(error) => Step::Finished(error),
    }
}

} // verus!
