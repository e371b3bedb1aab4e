//! What is done next, by what an action came to.
use vstd::prelude::*;

#[allow(unused_imports)]
use crate::config::DeploymentTarget;
#[allow(unused_imports)]
use crate::deploy::place::{configured, Context};
#[allow(unused_imports)]
use crate::deploy::plan::{action, next};
#[allow(unused_imports)]
use crate::deploy::stages::purpose_of;
#[allow(unused_imports)]
use crate::deploy::step::{
    Action, ActionView, Activate, Back, Build, Check, Close, Prepare, Purpose, Removal, Reply,
    ReplyView, Step, StepView,
};
#[allow(unused_imports)]
use crate::error::AppErrorView;
#[allow(unused_imports)]
use crate::model::DeploymentStatus;
#[allow(unused_imports)]
use crate::path::{parent_of, same_parts};
#[allow(unused_imports)]
use crate::process::CommandView;

verus! {

/// The step after something was done.
pub open spec fn then_done(ctx: Context, step: StepView) -> StepView {
    next(ctx, step, ReplyView::Done(Ok(())))
}

/// The step after a command has printed something and succeeded.
pub open spec fn then_printed(ctx: Context, step: StepView, printed: Seq<char>) -> StepView {
    next(ctx, step, ReplyView::Output(Ok(printed)))
}

/// The step after it was seen whether something holds.
pub open spec fn then_seen(ctx: Context, step: StepView, seen: bool) -> StepView {
    next(ctx, step, ReplyView::Flag(seen))
}

/// Whether a step runs a command.
pub open spec fn runs(ctx: Context, step: StepView, command: CommandView) -> bool {
    action(ctx, step) == ActionView::Run(command)
}

/// Whether a step is the end with an error.
pub open spec fn failed(step: StepView) -> bool {
    step matches Step::Finished(error) && error is Some
}

/// The mirror is asked for its origin where it exists, and made with the configured repository as
/// its origin where it does not; one with another origin is refused. The name of the tag is checked
/// before anything is fetched.
pub proof fn the_mirror_is_made_where_it_is_missing(ctx: Context, printed: Seq<char>)
    ensures
        ({
            let begun = then_done(ctx, StepView::Prepare(Prepare::MarkFetching));
            let look = StepView::Prepare(Prepare::CheckMirror);
            let known = then_seen(ctx, look, true);
            let made = then_seen(ctx, look, false);
            let given = then_printed(ctx, made, printed);
            &&& match parent_of(ctx.mirror()) {
                Some(parent) => action(ctx, begun) == ActionView::CreateDirectories(parent)
                    && then_done(ctx, begun) == look,
                None => failed(begun),
            }
            &&& action(ctx, look) == ActionView::Exists(ctx.mirror())
            &&& runs(ctx, known, ctx.read_origin())
            &&& runs(ctx, made, ctx.init_mirror())
            &&& runs(ctx, given, ctx.add_origin())
            &&& runs(ctx, then_printed(ctx, given, printed), ctx.check_tag_ref())
            &&& if printed == ctx.project.repository_url@ {
                runs(ctx, then_printed(ctx, known, printed), ctx.check_tag_ref())
            } else {
                failed(then_printed(ctx, known, printed))
            }
        }),
{
}

/// After the name of the tag was checked it is fetched, unless no attempt is allowed, and then the
/// object and the commit that it names are asked for: the object must be the one that was asked
/// for, and the commit must be named by 40 hexadecimal digits, and is recorded then.
pub proof fn the_fetched_tag_is_resolved(ctx: Context, attempt: u32, printed: Seq<char>)
    ensures
        ({
            let checked = then_printed(ctx, StepView::Prepare(Prepare::CheckTagRef), printed);
            let fetch = StepView::Prepare(Prepare::Fetch { attempt });
            let tag = StepView::Prepare(Prepare::ResolveTag);
            let commit = StepView::Prepare(Prepare::ResolveCommit);
            &&& ctx.global.git_fetch_attempts > 0 ==> runs(ctx, checked, ctx.fetch())
            &&& ctx.global.git_fetch_attempts == 0 ==> checked == tag
            &&& runs(ctx, fetch, ctx.fetch()) && then_printed(ctx, fetch, printed) == tag
            &&& runs(ctx, tag, ctx.resolve_tag()) && runs(ctx, commit, ctx.resolve_commit())
            &&& if printed == ctx.deployment.requested_sha@ {
                then_printed(ctx, tag, printed) == commit
            } else {
                then_printed(ctx, tag, printed) matches Step::Finished(error) && (
                error matches Some(error) && error is RequestValidation)
            }
            &&& if printed.len() == 40 && (forall|i: int|
                0 <= i < printed.len() ==> ('0' <= #[trigger] printed[i] && printed[i] <= '9') || (
                'a' <= printed[i] && printed[i] <= 'f') || ('A' <= printed[i] && printed[i]
                    <= 'F')) {
                action(ctx, then_printed(ctx, commit, printed)) == ActionView::SetResolvedCommit(
                    printed,
                )
            } else {
                failed(then_printed(ctx, commit, printed))
            }
        }),
{
}

/// A release that exists is validated, after a worktree that was left behind is removed; one that
/// does not is built in a fresh worktree, after one that is in the way is removed.
pub proof fn what_exists_is_not_built_again(
    ctx: Context,
    commit: Seq<char>,
    printed: Seq<char>,
)
    ensures
        ({
            let recorded = then_done(ctx, StepView::Prepare(Prepare::RecordCommit { commit }));
            let there = then_seen(ctx, recorded, true);
            let stale = then_seen(ctx, there, true);
            let validate = then_seen(ctx, there, false);
            let absent = then_seen(ctx, recorded, false);
            let pruned = then_done(ctx, absent);
            let look = then_printed(ctx, pruned, printed);
            let in_the_way = then_seen(ctx, look, true);
            let free = then_seen(ctx, look, false);
            &&& action(ctx, recorded) == ActionView::Exists(ctx.release(commit))
            &&& action(ctx, there) == ActionView::Exists(ctx.worktree())
            &&& runs(ctx, stale, ctx.remove_worktree())
            &&& then_printed(ctx, stale, printed) == validate
            &&& action(ctx, validate) == ActionView::Validate(ctx.release(commit))
            &&& action(ctx, then_done(ctx, validate)) == ActionView::SetRelease(ctx.release(commit))
            &&& action(ctx, absent) == ActionView::SetStatus(DeploymentStatus::Building)
            &&& runs(ctx, pruned, ctx.prune_worktrees())
            &&& action(ctx, look) == ActionView::Exists(ctx.worktree())
            &&& runs(ctx, in_the_way, ctx.remove_worktree())
            &&& then_printed(ctx, in_the_way, printed) == free
            &&& match parent_of(ctx.worktree()) {
                Some(parent) => action(ctx, free) == ActionView::CreateDirectories(parent) && runs(
                    ctx,
                    then_done(ctx, free),
                    ctx.add_worktree(commit),
                ),
                None => failed(free),
            }
        }),
{
}

/// A worktree that Git cannot remove fails the run, and where the build has failed already, both
/// failures are told.
pub proof fn worktrees_must_go(
    ctx: Context,
    commit: Seq<char>,
    why: Removal<AppErrorView>,
    failure: AppErrorView,
    still_there: bool,
)
    ensures
        ({
            let look = next(
                ctx,
                StepView::RemoveWorktree { commit, why },
                ReplyView::Output(Err(failure)),
            );
            let ended = then_seen(ctx, look, still_there);
            &&& action(ctx, look) == ActionView::Exists(ctx.worktree())
            &&& failed(ended)
            &&& !still_there && !(why matches Removal::Built { outcome } && outcome is Some)
                ==> ended == StepView::Finished(Some(failure))
            &&& still_there ==> (ended matches Step::Finished(Some(error)) && error is InvalidState)
        }),
{
}

/// A build goes on in a fixed order: the directory of the releases is made, an earlier attempt is
/// cleared away, a new directory is made, and then it is filled by what the project is.
pub proof fn builds_begin_afresh(
    ctx: Context,
    commit: Seq<char>,
    parent: Seq<char>,
    printed: Seq<char>,
)
    requires
        parent_of(ctx.release(commit)) == Some(parent),
    ensures
        ({
            let begun = then_printed(
                ctx,
                StepView::Prepare(Prepare::AddWorktree { commit }),
                printed,
            );
            let cleared = then_done(ctx, begun);
            let made = then_done(ctx, cleared);
            let filled = then_done(ctx, made);
            &&& action(ctx, begun) == ActionView::CreateDirectories(parent)
            &&& action(ctx, cleared) == ActionView::RemoveDirectory(ctx.temporary(parent))
            &&& action(ctx, made) == ActionView::CreateDirectory(ctx.temporary(parent))
            &&& match ctx.project.deployment {
                DeploymentTarget::Static { .. } => action(ctx, filled) == (ActionView::CopyTree {
                    from: ctx.worktree(),
                    to: ctx.temporary(parent),
                }),
                DeploymentTarget::Binary { binary_path } => action(ctx, filled) == (
                ActionView::CopyPrebuilt {
                    from: ctx.worktree(),
                    to: ctx.temporary(parent),
                    file: binary_path@,
                }),
                DeploymentTarget::Rust { .. } => action(ctx, filled) == ActionView::IsFile(
                    ctx.manifest(),
                ),
            }
        }),
{
}

/// A build from source needs the manifest, clears and makes the build directory, reads the
/// environment file where there is one, and runs Cargo with what it holds.
pub proof fn source_builds_need_the_manifest(
    ctx: Context,
    commit: Seq<char>,
    parent: Seq<char>,
    environment: Seq<(Seq<char>, Seq<char>)>,
)
    ensures
        ({
            let look = StepView::Build { commit, parent, build: Build::CheckManifest };
            let cleared = then_seen(ctx, look, true);
            let made = then_done(ctx, cleared);
            let ready = then_done(ctx, made);
            &&& action(ctx, look) == ActionView::IsFile(ctx.manifest())
            &&& action(ctx, then_seen(ctx, look, false)) == ActionView::RemoveDirectory(
                ctx.temporary(parent),
            )
            &&& then_done(ctx, then_seen(ctx, look, false)) matches Step::RemoveWorktree {
                why: Removal::Built { outcome },
                ..
            } && (outcome matches Some(error) && error is InvalidState)
            &&& action(ctx, cleared) == ActionView::RemoveDirectory(ctx.target())
            &&& action(ctx, made) == ActionView::CreateDirectories(ctx.target())
            &&& match ctx.environment_file() {
                Some(file) => action(ctx, ready) == ActionView::LoadEnvironment(file) && runs(
                    ctx,
                    next(ctx, ready, ReplyView::Environment(Ok(environment))),
                    ctx.cargo(environment),
                ),
                None => runs(ctx, ready, ctx.cargo(Seq::empty())),
            }
        }),
{
}

/// What Cargo has built is copied program by program and then path by path, each after the one
/// before it; then the build directory is removed.
pub proof fn copies_are_made_one_by_one(
    ctx: Context,
    commit: Seq<char>,
    parent: Seq<char>,
    environment: Seq<(Seq<char>, Seq<char>)>,
    index: usize,
    printed: Seq<char>,
)
    requires
        index < usize::MAX,
    ensures
        ctx.project.deployment matches DeploymentTarget::Rust { binaries, include_paths, .. } ==> ({
            let cargo = StepView::Build { commit, parent, build: Build::Cargo { environment } };
            let program = StepView::Build { commit, parent, build: Build::CopyBinary { index } };
            let path = StepView::Build { commit, parent, build: Build::CopyInclude { index } };
            let first_program = StepView::Build {
                commit,
                parent,
                build: Build::CopyBinary { index: 0 },
            };
            let first_path = StepView::Build {
                commit,
                parent,
                build: Build::CopyInclude { index: 0 },
            };
            let copied = StepView::Build {
                commit,
                parent,
                build: Build::RemoveTarget { outcome: None },
            };
            let after_programs = if include_paths@.len() > 0 {
                first_path
            } else {
                copied
            };
            &&& then_printed(ctx, cargo, printed) == (if binaries@.len() > 0 {
                first_program
            } else {
                after_programs
            })
            &&& then_done(ctx, program) == (if index + 1 < binaries@.len() {
                StepView::Build {
                    commit,
                    parent,
                    build: Build::CopyBinary { index: (index + 1) as usize },
                }
            } else {
                after_programs
            })
            &&& then_done(ctx, path) == (if index + 1 < include_paths@.len() {
                StepView::Build {
                    commit,
                    parent,
                    build: Build::CopyInclude { index: (index + 1) as usize },
                }
            } else {
                copied
            })
            &&& action(ctx, copied) == ActionView::RemoveDirectory(ctx.target())
        }),
{
}

/// A filled release is validated where it was built, renamed to its place, flushed, and recorded
/// once the worktree is removed; then the project is migrated where it has a migration, and else
/// the release is activated.
pub proof fn filled_releases_are_published(
    ctx: Context,
    commit: Seq<char>,
    parent: Seq<char>,
    printed: Seq<char>,
)
    ensures
        ({
            let tree = StepView::Build { commit, parent, build: Build::CopyTree };
            let program = StepView::Build { commit, parent, build: Build::CopyPrebuilt };
            let target = StepView::Build {
                commit,
                parent,
                build: Build::RemoveTarget { outcome: None },
            };
            let filled = then_done(ctx, target);
            let valid = then_done(ctx, filled);
            let placed = then_done(ctx, valid);
            let flushed = then_done(ctx, placed);
            let removed = then_printed(ctx, flushed, printed);
            let recorded = then_done(ctx, removed);
            &&& then_done(ctx, tree) == filled && then_done(ctx, program) == filled
            &&& action(ctx, filled) == ActionView::Validate(ctx.temporary(parent))
            &&& action(ctx, valid) == (ActionView::Rename {
                from: ctx.temporary(parent),
                to: ctx.release(commit),
            })
            &&& action(ctx, placed) == ActionView::SyncDirectory(parent)
            &&& runs(ctx, flushed, ctx.remove_worktree())
            &&& action(ctx, removed) == ActionView::SetRelease(ctx.release(commit))
            &&& if ctx.project.migration is Some {
                action(ctx, recorded) == ActionView::SetStatus(DeploymentStatus::Migrating)
            } else {
                recorded == StepView::Activate(
                    Activate::ValidateCandidate { release: ctx.release(commit) },
                )
            }
        }),
{
}

/// A migration runs in the release with the variables of the environment file, and the release is
/// validated after it.
pub proof fn migrations_run_in_the_release(
    ctx: Context,
    release: Seq<char>,
    environment: Seq<(Seq<char>, Seq<char>)>,
    printed: Seq<char>,
)
    requires
        ctx.project.migration is Some,
    ensures
        ({
            let begun = then_done(ctx, StepView::Activate(Activate::MarkMigrating { release }));
            let migrate = StepView::Activate(Activate::Migrate { release, environment });
            &&& match ctx.environment_file() {
                Some(file) => action(ctx, begun) == ActionView::LoadEnvironment(file) && next(
                    ctx,
                    begun,
                    ReplyView::Environment(Ok(environment)),
                ) == migrate,
                None => begun == StepView::Activate(
                    Activate::Migrate { release, environment: Seq::empty() },
                ),
            }
            &&& runs(
                ctx,
                migrate,
                configured(ctx.project.migration->0, Some(release), environment),
            )
            &&& action(ctx, then_printed(ctx, migrate, printed)) == ActionView::Validate(release)
        }),
{
}

/// A validated release is activated: the current link is read, what it pointed to is recorded, and
/// it is switched to the release; then the reload commands run, or where there are none the check
/// is recorded as begun.
pub proof fn validated_releases_are_switched_to(
    ctx: Context,
    release: Seq<char>,
    target: Option<Seq<char>>,
)
    ensures
        ({
            let valid = then_done(
                ctx,
                StepView::Activate(Activate::ValidateCandidate { release }),
            );
            let read = next(ctx, valid, ReplyView::Target(Ok(target)));
            let switch = then_done(ctx, read);
            let switched = then_done(ctx, switch);
            &&& action(ctx, valid) == ActionView::ReadCurrent(ctx.project.current_path@)
            &&& action(ctx, read) == ActionView::SetActivation(target)
            &&& action(ctx, switch) == (ActionView::SwitchCurrent {
                current: ctx.project.current_path@,
                release,
            })
            &&& purpose_of(switched) == Some(
                Purpose::<Seq<char>, AppErrorView>::Forward { previous: target },
            )
            &&& if ctx.project.reload@.len() > 0 {
                runs(ctx, switched, configured(ctx.project.reload@[0], None, Seq::empty()))
            } else {
                action(ctx, switched) == ActionView::SetStatus(DeploymentStatus::HealthChecking)
            }
        }),
{
}

/// After the last reload command the release is probed: in an activation once that is recorded,
/// and in a rollback at once.
pub proof fn probes_follow_the_last_reload(
    ctx: Context,
    purpose: Purpose<Seq<char>, AppErrorView>,
    printed: Seq<char>,
)
    requires
        ctx.project.health_check.attempts > 0,
        0 < ctx.project.reload@.len() < usize::MAX,
    ensures
        ({
            let index = (ctx.project.reload@.len() - 1) as usize;
            let reloaded = then_printed(
                ctx,
                StepView::Check(Check::Reload { index, purpose }),
                printed,
            );
            let probe = StepView::Check(Check::Probe { attempt: 1, purpose });
            if purpose is Forward {
                action(ctx, reloaded) == ActionView::SetStatus(DeploymentStatus::HealthChecking)
                    && then_done(ctx, reloaded) == probe
            } else {
                reloaded == probe
            }
        }),
{
}

/// A release that answers ends the run well: an activation is recorded as a success, a rollback as
/// the failure that it follows, and a rollback that was resumed as an interruption.
pub proof fn healthy_releases_end_the_run(
    ctx: Context,
    attempt: u32,
    purpose: Purpose<Seq<char>, AppErrorView>,
)
    ensures
        ({
            let ended = then_done(ctx, StepView::Check(Check::Probe { attempt, purpose }));
            match purpose {
                Purpose::Forward { .. } => action(ctx, ended) is MarkSucceeded,
                Purpose::Back { error } => action(ctx, ended) == (ActionView::MarkFailed {
                    code: error.code(),
                    message: "deployment failed and was rolled back successfully: "@
                        + error.message(),
                }) && then_done(ctx, ended) == StepView::Finished(None),
                Purpose::Resume => action(ctx, ended) == (ActionView::MarkFailed {
                    code: "deploymentInterrupted"@,
                    message: "service restarted during deployment; rollback completed successfully"@,
                }) && then_done(ctx, ended) == StepView::Finished(None),
            }
        }),
{
}

/// A success is followed by retention: the current link is read again, and the release paths of
/// the project are listed.
pub proof fn a_success_is_followed_by_retention(ctx: Context, target: Option<Seq<char>>)
    ensures
        ({
            let ended = StepView::Close(Close::MarkSucceeded);
            let read = then_done(ctx, ended);
            let list = next(ctx, read, ReplyView::Target(Ok(target)));
            &&& action(ctx, ended) is MarkSucceeded
            &&& action(ctx, read) == ActionView::ReadCurrent(ctx.project.current_path@)
            &&& list == StepView::Close(Close::ListRetained { current: target })
            &&& action(ctx, list) is RetainedPaths
        }),
{
}

/// A rollback is recorded, validates the previous release, switches the current link back to it
/// and checks it; a rollback without a previous release, and one that fails, locks the project.
pub proof fn rollbacks_go_back_step_by_step(
    ctx: Context,
    previous: Seq<char>,
    error: AppErrorView,
    failure: AppErrorView,
)
    ensures
        ({
            let begun = StepView::Back(Back::MarkRollingBack { previous: Some(previous), error });
            let validate = then_done(ctx, begun);
            let switch = then_done(ctx, validate);
            let switched = then_done(ctx, switch);
            let nowhere = then_done(
                ctx,
                StepView::Back(Back::MarkRollingBack { previous: None, error }),
            );
            &&& action(ctx, begun) == ActionView::SetStatus(DeploymentStatus::RollingBack)
            &&& action(ctx, validate) == ActionView::Validate(previous)
            &&& action(ctx, switch) == (ActionView::SwitchCurrent {
                current: ctx.project.current_path@,
                release: previous,
            })
            &&& ctx.project.reload@.len() > 0 || ctx.project.health_check.attempts > 0
                ==> purpose_of(switched) == Some(
                Purpose::<Seq<char>, AppErrorView>::Back { error },
            )
            &&& nowhere matches Step::Close(Close::MarkRollbackFailed { reason }) && reason
                == "deployment failed with "@ + error.message()
                + "; no previous release exists for rollback"@
        }),
{
}

/// A rollback that was interrupted goes on where the current link points: it is switched exactly
/// if it does not lead to the previous release yet, and then that release is checked. What fails
/// then locks the project with that failure.
pub proof fn an_interrupted_rollback_goes_by_the_link(
    ctx: Context,
    previous: Seq<char>,
    current: Option<Seq<char>>,
    attempt: u32,
    failure: AppErrorView,
)
    requires
        ctx.project.reload@.len() > 0 || ctx.project.health_check.attempts > 0,
        attempt >= ctx.project.health_check.attempts,
    ensures
        ({
            let read = StepView::Back(Back::ReadRollback { previous });
            let found = next(ctx, read, ReplyView::Target(Ok(current)));
            let resumed = Some(Purpose::<Seq<char>, AppErrorView>::Resume);
            let lost = next(
                ctx,
                StepView::Check(Check::Probe { attempt, purpose: Purpose::Resume }),
                ReplyView::Done(Err(failure)),
            );
            &&& action(ctx, read) == ActionView::ReadCurrent(ctx.project.current_path@)
            &&& if current matches Some(target) && same_parts(target, previous) {
                purpose_of(found) == resumed
            } else {
                action(ctx, found) == (ActionView::SwitchCurrent {
                    current: ctx.project.current_path@,
                    release: previous,
                }) && purpose_of(then_done(ctx, found)) == resumed
            }
            &&& lost matches Step::Close(Close::MarkRollbackFailed { reason }) && reason
                == "rollback recovery failed: "@ + failure.message()
        }),
{
}

} // verus!
