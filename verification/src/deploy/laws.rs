//! What holds of every run of a deployment, whatever is replied.
use vstd::prelude::*;

#[allow(unused_imports)]
use crate::config::DeploymentTarget;
#[allow(unused_imports)]
use crate::deploy::place::{configured, Context};
#[allow(unused_imports)]
use crate::deploy::plan::{
    action, leads_to, next, resume_activation, resume_rollback, retired, start,
};
#[allow(unused_imports)]
use crate::deploy::step::{
    Action, ActionView, Activate, Back, Build, Check, Close, Prepare, Purpose, Reply, ReplyView,
    Step, StepView,
};
#[allow(unused_imports)]
use crate::error::AppErrorView;
#[allow(unused_imports)]
use crate::path::parent_of;

verus! {

/// The step that a run is at after a number of replies.
pub open spec fn reached(ctx: Context, first: StepView, replies: Seq<ReplyView>) -> StepView
    decreases replies.len(),
{
    if replies.len() == 0 {
        first
    } else {
        next(ctx, reached(ctx, first, replies.drop_last()), replies.last())
    }
}

/// Whether a run may begin with a step: that of the state of the deployment, or one that resumes
/// after an error.
pub open spec fn first_step(ctx: Context, first: StepView) -> bool {
    ||| first == start(ctx)
    ||| exists|original: Seq<char>| first == #[trigger] resume_activation(ctx, original)
    ||| first == resume_rollback(ctx)
}

/// How many attempts are left.
pub open spec fn left(attempts: u32, attempt: u32) -> nat {
    if attempt < attempts {
        (attempts - attempt) as nat
    } else {
        0
    }
}

/// How many items are left.
pub open spec fn rest(count: nat, index: usize) -> nat {
    if index < count {
        (count - index) as nat
    } else {
        0
    }
}

/// How far a step is from the end, in stages.
pub open spec fn stage(step: StepView) -> nat {
    match step {
        Step::Prepare(prepare) => match prepare {
            Prepare::MarkFetching => 70,
            Prepare::CreateMirrorParent { .. } => 69,
            Prepare::CheckMirror => 68,
            Prepare::ReadOrigin => 67,
            Prepare::InitMirror => 66,
            Prepare::AddOrigin => 65,
            Prepare::CheckTagRef => 64,
            Prepare::Fetch { .. } => 63,
            Prepare::FetchPause { .. } => 63,
            Prepare::ResolveTag => 62,
            Prepare::ResolveCommit => 61,
            Prepare::RecordCommit { .. } => 60,
            Prepare::CheckRelease { .. } => 59,
            Prepare::CheckStaleWorktree { .. } => 58,
            Prepare::MarkBuilding { .. } => 58,
            Prepare::PruneWorktrees { .. } => 57,
            Prepare::CheckWorktree { .. } => 56,
            Prepare::CreateWorktreeParent { .. } => 53,
            Prepare::AddWorktree { .. } => 52,
            Prepare::ValidateExisting { .. } => 31,
            Prepare::RecordRelease { .. } => 30,
        },
        Step::RemoveWorktree { why, .. } => if why is Built {
            34
        } else {
            55
        },
        Step::CheckRemoved { why, .. } => if why is Built {
            33
        } else {
            54
        },
        Step::Build { build, .. } => match build {
            Build::CreateReleaseParent => 51,
            Build::ClearTemporary => 50,
            Build::CreateTemporary => 49,
            Build::CheckManifest => 48,
            Build::ClearTarget => 47,
            Build::CreateTarget => 46,
            Build::LoadEnvironment { .. } => 45,
            Build::Cargo { .. } => 44,
            Build::CopyBinary { .. } => 43,
            Build::CopyInclude { .. } => 42,
            Build::RemoveTarget { .. } => 41,
            Build::CopyTree => 40,
            Build::CopyPrebuilt => 40,
            Build::Validate => 39,
            Build::Publish => 38,
            Build::Sync => 37,
            Build::Discard { .. } => 36,
        },
        Step::Activate(activate) => match activate {
            Activate::Recheck { .. } => 29,
            Activate::MarkMigrating { .. } => 28,
            Activate::LoadEnvironment { .. } => 27,
            Activate::Migrate { .. } => 26,
            Activate::ValidateCandidate { .. } => 25,
            Activate::ReadCurrent { .. } => 24,
            Activate::RecordActivation { .. } => 23,
            Activate::SwitchTo { .. } => 22,
        },
        Step::Back(back) => match back {
            Back::ReadInterrupted { .. } => 21,
            Back::MarkRollingBack { .. } => 17,
            Back::ValidatePrevious { .. } => 16,
            Back::SwitchBack { .. } => 15,
            Back::ReadRollback { .. } => 16,
            Back::SwitchResumed { .. } => 15,
        },
        Step::Check(check) => match check {
            Check::Reload { purpose, .. } => if purpose is Forward {
                20
            } else {
                14
            },
            Check::MarkHealthChecking { .. } => 19,
            Check::Probe { purpose, .. } | Check::ProbePause { purpose, .. } => if purpose is Forward {
                18
            } else {
                13
            },
        },
        Step::Close(close) => match close {
            Close::MarkSucceeded => 6,
            Close::ReadRetained => 5,
            Close::ListRetained { .. } => 4,
            Close::Retire { .. } => 3,
            Close::MarkFailed { .. } => 3,
            Close::MarkRollbackFailed { .. } => 3,
            Close::BlockProject { .. } => 2,
        },
        Step::Finished(_) => 0,
    }
}

/// How far a step is from the end of its stage.
pub open spec fn repeat(ctx: Context, step: StepView) -> nat {
    match step {
        Step::Prepare(Prepare::Fetch { attempt }) => 2 * left(
            ctx.global.git_fetch_attempts,
            attempt,
        ) + 1,
        Step::Prepare(Prepare::FetchPause { attempt }) => 2 * left(
            ctx.global.git_fetch_attempts,
            attempt,
        ),
        Step::Build { build: Build::CopyBinary { index }, .. } => match ctx.project.deployment {
            DeploymentTarget::Rust { binaries, .. } => rest(binaries@.len(), index),
            _ => 0,
        },
        Step::Build { build: Build::CopyInclude { index }, .. } => match ctx.project.deployment {
            DeploymentTarget::Rust { include_paths, .. } => rest(include_paths@.len(), index),
            _ => 0,
        },
        Step::Check(Check::Reload { index, .. }) => rest(ctx.project.reload@.len(), index),
        Step::Check(Check::Probe { attempt, .. }) => 2 * left(
            ctx.project.health_check.attempts,
            attempt,
        ) + 1,
        Step::Check(Check::ProbePause { attempt, .. }) => 2 * left(
            ctx.project.health_check.attempts,
            attempt,
        ),
        Step::Close(Close::Retire { paths, index, .. }) => rest(paths.len(), index),
        _ => 0,
    }
}

/// Whether the numbers that a step holds are in range, and the settings that it needs are there.
pub open spec fn sound(ctx: Context, step: StepView) -> bool {
    match step {
        Step::Prepare(Prepare::Fetch { attempt }) => 1 <= attempt <= ctx.global.git_fetch_attempts,
        Step::Prepare(Prepare::FetchPause { attempt }) => 1 <= attempt
            < ctx.global.git_fetch_attempts,
        Step::Build { build: Build::CopyPrebuilt, .. } => ctx.project.deployment is Binary,
        Step::Build { build: Build::CopyBinary { index }, .. } => ctx.project.deployment matches DeploymentTarget::Rust {
            binaries,
            ..
        } && index < binaries@.len(),
        Step::Build { build: Build::CopyInclude { index }, .. } => ctx.project.deployment matches DeploymentTarget::Rust {
            include_paths,
            ..
        } && index < include_paths@.len(),
        Step::Activate(Activate::MarkMigrating { .. }) => ctx.project.migration is Some,
        Step::Activate(Activate::LoadEnvironment { .. }) => ctx.project.migration is Some,
        Step::Activate(Activate::Migrate { .. }) => ctx.project.migration is Some,
        Step::Check(Check::Reload { index, .. }) => index < ctx.project.reload@.len(),
        Step::Check(Check::Probe { attempt, .. }) => 1 <= attempt
            <= ctx.project.health_check.attempts,
        Step::Check(Check::ProbePause { attempt, .. }) => 1 <= attempt
            < ctx.project.health_check.attempts,
        Step::Back(Back::ReadInterrupted { .. }) => ctx.deployment.release_path is Some,
        Step::Close(Close::Retire { paths, index, .. }) => index < paths.len(),
        _ => true,
    }
}

/// Every reply brings a run that is not finished nearer to its end, so every run ends.
pub proof fn every_reply_makes_progress(ctx: Context, step: StepView, reply: ReplyView)
    requires
        sound(ctx, step),
        !(step is Finished),
    ensures
        stage(next(ctx, step, reply)) <= stage(step),
        stage(next(ctx, step, reply)) == stage(step) ==> repeat(ctx, next(ctx, step, reply))
            < repeat(ctx, step),
{
}

/// The first step of a run is sound, and each reply leads to a sound step.
pub proof fn steps_stay_sound(ctx: Context, step: StepView, reply: ReplyView)
    ensures
        first_step(ctx, step) ==> sound(ctx, step),
        sound(ctx, step) ==> sound(ctx, next(ctx, step, reply)),
{
}

/// A run that is not finished always has something to do.
pub proof fn an_unfinished_run_has_an_action(ctx: Context, step: StepView)
    requires
        sound(ctx, step),
    ensures
        action(ctx, step) is Finish <==> step is Finished,
{
}

/// Whether a step comes after the migration: it switches, checks, rolls back or ends.
pub open spec fn past_migration(step: StepView) -> bool {
    match step {
        Step::Activate(activate) => activate is ValidateCandidate || activate is ReadCurrent
            || activate is RecordActivation || activate is SwitchTo,
        Step::Check(_) | Step::Back(_) | Step::Close(_) => true,
        _ => false,
    }
}

/// Whether a reply says that a command succeeded.
pub open spec fn succeeded(reply: ReplyView) -> bool {
    reply matches Reply::Output(Ok(_))
}

/// Whether a reply says that something was done.
pub open spec fn done(reply: ReplyView) -> bool {
    reply matches Reply::Done(Ok(_))
}

/// Whether a step runs the migration.
pub open spec fn runs_migration(step: StepView) -> bool {
    step matches Step::Activate(Activate::Migrate { .. })
}

/// Whether something of a kind comes between two places of a course that replies lead along.
pub open spec fn occurs<S, R>(
    course: spec_fn(Seq<R>) -> S,
    replies: Seq<R>,
    kind: spec_fn(S, R) -> bool,
) -> bool {
    exists|i: int|
        0 <= i < replies.len() && kind(course(replies.take(i)), #[trigger] replies[i])
}

pub(crate) proof fn what_occurred_stays<S, R>(
    course: spec_fn(Seq<R>) -> S,
    replies: Seq<R>,
    kind: spec_fn(S, R) -> bool,
)
    requires
        replies.len() > 0,
    ensures
        occurs(course, replies.drop_last(), kind) ==> occurs(course, replies, kind),
        kind(course(replies.drop_last()), replies.last()) ==> occurs(course, replies, kind),
{
    let before = replies.drop_last();
    let last = replies.len() - 1;
    assert(replies.take(last) =~= before);
    assert(replies[last] == replies.last());
    if occurs(course, before, kind) {
        let i = choose|i: int|
            0 <= i < before.len() && kind(course(before.take(i)), #[trigger] before[i]);
        assert(before.take(i) =~= replies.take(i));
        assert(replies[i] == before[i]);
    }
}

/// The steps of a run.
pub open spec fn course(ctx: Context, first: StepView) -> spec_fn(Seq<ReplyView>) -> StepView {
    |replies: Seq<ReplyView>| reached(ctx, first, replies)
}

/// Whether a step of a run met with a reply that are of a kind.
pub open spec fn happened(
    ctx: Context,
    first: StepView,
    replies: Seq<ReplyView>,
    kind: spec_fn(StepView, ReplyView) -> bool,
) -> bool {
    occurs(course(ctx, first), replies, kind)
}

/// A migration succeeds.
pub open spec fn migration_succeeds() -> spec_fn(StepView, ReplyView) -> bool {
    |step: StepView, reply: ReplyView| runs_migration(step) && succeeded(reply)
}

/// Git says that the tag names the object that the deployment asks for.
pub open spec fn tag_is_confirmed(ctx: Context) -> spec_fn(StepView, ReplyView) -> bool {
    |step: StepView, reply: ReplyView|
        step == StepView::Prepare(Prepare::ResolveTag) && reply == ReplyView::Output(
            Ok(ctx.deployment.requested_sha@),
        )
}

/// The mirror is found to have the configured origin, or is given it.
pub open spec fn origin_is_confirmed(ctx: Context) -> spec_fn(StepView, ReplyView) -> bool {
    |step: StepView, reply: ReplyView|
        (step == StepView::Prepare(Prepare::ReadOrigin) && reply == ReplyView::Output(
            Ok(ctx.project.repository_url@),
        )) || (step == StepView::Prepare(Prepare::AddOrigin) && succeeded(reply))
}

/// The current link is found to point somewhere, or nowhere, before an activation.
pub open spec fn found_current(target: Option<Seq<char>>) -> spec_fn(StepView, ReplyView) -> bool {
    |step: StepView, reply: ReplyView|
        (step matches Step::Activate(Activate::ReadCurrent { .. })) && reply == ReplyView::Target(
            Ok(target),
        )
}

/// The ending of the deployment is recorded.
pub open spec fn ending_is_recorded(ctx: Context) -> spec_fn(StepView, ReplyView) -> bool {
    |step: StepView, reply: ReplyView| records_ending(action(ctx, step)) && done(reply)
}

proof fn only_a_migration_leads_past(ctx: Context, step: StepView, reply: ReplyView)
    requires
        ctx.project.migration is Some,
        !past_migration(step),
        past_migration(next(ctx, step, reply)),
    ensures
        migration_succeeds()(step, reply),
{
}

/// A deployment of a project with a migration that has not been activated before switches,
/// checks, rolls back and ends only after the migration has succeeded. Where the migration fails
/// or does not come about, the current link stays as it is.
pub proof fn activation_waits_for_migration(ctx: Context, replies: Seq<ReplyView>)
    requires
        ctx.project.migration is Some,
        ctx.deployment.kind is Deploy,
        ctx.deployment.status is Queued || ctx.deployment.status is Fetching
            || ctx.deployment.status is Building || ctx.deployment.status is Migrating,
        past_migration(reached(ctx, start(ctx), replies)),
    ensures
        happened(ctx, start(ctx), replies, migration_succeeds()),
    decreases replies.len(),
{
    if replies.len() > 0 {
        let before = replies.drop_last();
        what_occurred_stays(course(ctx, start(ctx)), replies, migration_succeeds());
        if past_migration(reached(ctx, start(ctx), before)) {
            activation_waits_for_migration(ctx, before);
        } else {
            only_a_migration_leads_past(ctx, reached(ctx, start(ctx), before), replies.last());
        }
    }
}

/// Whether a step comes after the tag was resolved.
pub open spec fn past_tag(step: StepView) -> bool {
    match step {
        Step::Prepare(prepare) => prepare is ResolveCommit || prepare is RecordCommit
            || prepare is CheckRelease || prepare is CheckStaleWorktree
            || prepare is ValidateExisting || prepare is MarkBuilding || prepare is PruneWorktrees
            || prepare is CheckWorktree || prepare is CreateWorktreeParent || prepare is AddWorktree
            || prepare is RecordRelease,
        Step::Finished(_) => false,
        _ => true,
    }
}

/// A deployment from a tag builds and activates a release only after Git has said that the tag
/// names exactly the object that the deployment was asked for.
pub proof fn release_comes_from_the_requested_tag(ctx: Context, replies: Seq<ReplyView>)
    requires
        ctx.deployment.kind is Deploy,
        ctx.deployment.status is Queued || ctx.deployment.status is Fetching
            || ctx.deployment.status is Building,
        past_tag(reached(ctx, start(ctx), replies)),
    ensures
        happened(ctx, start(ctx), replies, tag_is_confirmed(ctx)),
    decreases replies.len(),
{
    if replies.len() > 0 {
        let before = replies.drop_last();
        what_occurred_stays(course(ctx, start(ctx)), replies, tag_is_confirmed(ctx));
        if past_tag(reached(ctx, start(ctx), before)) {
            release_comes_from_the_requested_tag(ctx, before);
        }
    }
}

/// Whether a step comes after the mirror was made ready.
pub open spec fn past_origin(step: StepView) -> bool {
    match step {
        Step::Prepare(prepare) => past_tag(step) || prepare is CheckTagRef || prepare is Fetch
            || prepare is FetchPause || prepare is ResolveTag,
        _ => past_tag(step),
    }
}

/// A deployment from a tag fetches, builds and activates only after the mirror was found to have
/// the configured repository as its origin, or was given it: a mirror of another repository is
/// refused.
pub proof fn only_the_configured_repository_is_fetched(ctx: Context, replies: Seq<ReplyView>)
    requires
        ctx.deployment.kind is Deploy,
        ctx.deployment.status is Queued || ctx.deployment.status is Fetching
            || ctx.deployment.status is Building,
        past_origin(reached(ctx, start(ctx), replies)),
    ensures
        happened(ctx, start(ctx), replies, origin_is_confirmed(ctx)),
    decreases replies.len(),
{
    if replies.len() > 0 {
        let before = replies.drop_last();
        what_occurred_stays(course(ctx, start(ctx)), replies, origin_is_confirmed(ctx));
        if past_origin(reached(ctx, start(ctx), before)) {
            only_the_configured_repository_is_fetched(ctx, before);
        }
    }
}

/// A rollback, and whatever resumes an activation or a rollback, fetches nothing, builds nothing
/// and runs no migration: from the first step on it only switches, checks, rolls back and ends.
pub proof fn rollbacks_never_migrate(ctx: Context, first: StepView, replies: Seq<ReplyView>)
    requires
        first_step(ctx, first),
        first == start(ctx) ==> ctx.deployment.kind is Rollback || ctx.deployment.status
            is Activating || ctx.deployment.status is HealthChecking || ctx.deployment.status
            is RollingBack,
    ensures
        past_migration(reached(ctx, first, replies)) || reached(
            ctx,
            first,
            replies,
        ) is Finished,
    decreases replies.len(),
{
    if replies.len() > 0 {
        rollbacks_never_migrate(ctx, first, replies.drop_last());
    }
}

/// The current link is switched only in an activation, to its release, or in a rollback, to the
/// previous release.
pub proof fn only_three_steps_switch(ctx: Context, step: StepView)
    ensures
        action(ctx, step) matches Action::SwitchCurrent { current, release } ==> {
            &&& current == ctx.project.current_path@
            &&& (step matches Step::Activate(Activate::SwitchTo { release: to, .. }) && to
                == release) || (step matches Step::Back(Back::SwitchBack { previous, .. })
                && previous == release) || (step matches Step::Back(
                Back::SwitchResumed { previous },
            ) && previous == release)
        },
{
}

/// What the current link pointed to is recorded before the link is switched, and it is what a
/// rollback of that activation returns to.
pub proof fn the_previous_release_is_recorded_first(
    ctx: Context,
    step: StepView,
    reply: ReplyView,
    to: Seq<char>,
    target: Option<Seq<char>>,
)
    requires
        next(ctx, step, reply) == StepView::Activate(
            Activate::SwitchTo { release: to, previous: target },
        ),
    ensures
        step == StepView::Activate(Activate::RecordActivation { release: to, previous: target }),
        action(ctx, step) == ActionView::SetActivation(target),
        done(reply),
{
}

/// The release that a step goes back to if its activation fails, or is going back to; `None` for
/// a step that activates nothing and goes back nowhere.
pub open spec fn way_back(step: StepView) -> Option<Option<Seq<char>>> {
    match step {
        Step::Activate(Activate::RecordActivation { previous, .. }) => Some(previous),
        Step::Activate(Activate::SwitchTo { previous, .. }) => Some(previous),
        Step::Check(Check::MarkHealthChecking { previous }) => Some(previous),
        Step::Check(
            Check::Reload { purpose: Purpose::Forward { previous }, .. },
        ) => Some(previous),
        Step::Check(Check::Probe { purpose: Purpose::Forward { previous }, .. }) => Some(previous),
        Step::Check(
            Check::ProbePause { purpose: Purpose::Forward { previous }, .. },
        ) => Some(previous),
        Step::Back(Back::MarkRollingBack { previous, .. }) => Some(previous),
        Step::Back(Back::ValidatePrevious { previous, .. }) => Some(Some(previous)),
        Step::Back(Back::SwitchBack { previous, .. }) => Some(Some(previous)),
        Step::Back(Back::ReadRollback { previous }) => Some(Some(previous)),
        Step::Back(Back::SwitchResumed { previous }) => Some(Some(previous)),
        _ => None,
    }
}

proof fn ways_back_come_from_the_link(
    ctx: Context,
    step: StepView,
    reply: ReplyView,
    target: Option<Seq<char>>,
)
    requires
        way_back(step) != Some(target),
        way_back(next(ctx, step, reply)) == Some(target),
    ensures
        target == ctx.deployment.previous_release_path.deep_view() || found_current(target)(
            step,
            reply,
        ),
{
}

/// A rollback goes back to where the current link was found to point before the activation: to
/// what this run found, or to what an earlier run has recorded with the deployment.
pub proof fn rollbacks_return_to_what_was_current(
    ctx: Context,
    first: StepView,
    replies: Seq<ReplyView>,
    target: Option<Seq<char>>,
)
    requires
        first_step(ctx, first),
        way_back(reached(ctx, first, replies)) == Some(target),
    ensures
        target == ctx.deployment.previous_release_path.deep_view() || happened(
            ctx,
            first,
            replies,
            found_current(target),
        ),
    decreases replies.len(),
{
    if replies.len() > 0 {
        let before = replies.drop_last();
        let step = reached(ctx, first, before);
        what_occurred_stays(course(ctx, first), replies, found_current(target));
        if way_back(step) == Some(target) {
            rollbacks_return_to_what_was_current(ctx, first, before, target);
        } else {
            ways_back_come_from_the_link(ctx, step, replies.last(), target);
        }
    }
}

/// A reload that fails, or a last probe that fails, leads from an activation to a rollback to the
/// release that was current before.
pub proof fn a_failed_check_rolls_back(
    ctx: Context,
    step: StepView,
    reply: ReplyView,
    failure: AppErrorView,
    target: Option<Seq<char>>,
)
    requires
        match step {
            Step::Check(Check::Reload { purpose, .. }) => purpose == (Purpose::<
                Seq<char>,
                AppErrorView,
            >::Forward { previous: target }) && reply == ReplyView::Output(Err(failure)),
            Step::Check(Check::Probe { attempt, purpose }) => purpose == (Purpose::<
                Seq<char>,
                AppErrorView,
            >::Forward { previous: target }) && reply == ReplyView::Done(Err(failure)) && attempt
                >= ctx.project.health_check.attempts,
            _ => false,
        },
    ensures
        next(ctx, step, reply) == StepView::Back(
            Back::MarkRollingBack { previous: target, error: failure },
        ),
{
}

/// A deployment is recorded as succeeded only after a probe of the activated release succeeded.
pub proof fn success_needs_a_healthy_probe(
    ctx: Context,
    first: StepView,
    replies: Seq<ReplyView>,
)
    requires
        first_step(ctx, first),
        action(ctx, reached(ctx, first, replies)) is MarkSucceeded,
    ensures
        replies.len() > 0,
        done(replies.last()),
        reached(ctx, first, replies.drop_last()) matches Step::Check(
            Check::Probe { purpose, .. },
        ) && purpose is Forward,
{
}

/// A rollback that cannot be completed, for whatever reason, is recorded as failed and blocks
/// the project with the same reason.
pub proof fn a_failed_rollback_blocks_the_project(
    ctx: Context,
    step: StepView,
    reply: ReplyView,
    failure: AppErrorView,
)
    requires
        match step {
            Step::Back(Back::ValidatePrevious { .. }) | Step::Back(Back::SwitchBack { .. })
            | Step::Back(Back::SwitchResumed { .. }) => reply == ReplyView::Done(Err(failure)),
            Step::Back(Back::ReadRollback { .. }) => reply == ReplyView::Target(Err(failure)),
            Step::Back(Back::MarkRollingBack { previous, .. }) => previous is None && done(
                reply,
            ),
            Step::Check(Check::Reload { purpose, .. }) => !(purpose is Forward) && reply
                == ReplyView::Output(Err(failure)),
            Step::Check(Check::Probe { attempt, purpose }) => !(purpose is Forward) && reply
                == ReplyView::Done(Err(failure)) && attempt >= ctx.project.health_check.attempts,
            _ => false,
        },
    ensures
        next(ctx, step, reply) matches Step::Close(Close::MarkRollbackFailed { reason }) && ({
            let locked = next(ctx, step, reply);
            &&& action(ctx, locked) == (ActionView::MarkRollbackFailed {
                code: "rollbackFailed"@,
                message: reason,
            })
            &&& action(ctx, next(ctx, locked, ReplyView::Done(Ok(())))) == (ActionView::BlockProject {
                reason,
            })
            &&& next(
                ctx,
                next(ctx, locked, ReplyView::Done(Ok(()))),
                ReplyView::Done(Ok(())),
            ) == StepView::Finished(None)
        }),
{
}

/// Reload commands run one after the other in their order: the next one follows a success, and
/// none follows a failure.
pub proof fn reloads_run_in_order(
    ctx: Context,
    index: usize,
    purpose: Purpose<Seq<char>, AppErrorView>,
    reply: ReplyView,
)
    requires
        index < ctx.project.reload@.len(),
    ensures
        action(ctx, StepView::Check(Check::Reload { index, purpose })) == ActionView::Run(
            configured(ctx.project.reload@[index as int], None, Seq::empty()),
        ),
        ({
            let after = next(ctx, StepView::Check(Check::Reload { index, purpose }), reply);
            after matches Step::Check(Check::Reload { index: then, .. }) ==> then == index + 1
                && succeeded(reply)
        }),
        (succeeded(reply) && index + 1 < ctx.project.reload@.len() && index
            < usize::MAX) ==> next(ctx, StepView::Check(Check::Reload { index, purpose }), reply)
            == StepView::Check(Check::Reload { index: (index + 1) as usize, purpose }),
{
}

/// A failed migration ends the run with its error, and nothing is switched.
pub proof fn a_failed_migration_ends_the_run(
    ctx: Context,
    release: Seq<char>,
    environment: Seq<(Seq<char>, Seq<char>)>,
    failure: AppErrorView,
)
    ensures
        next(
            ctx,
            StepView::Activate(Activate::Migrate { release, environment }),
            ReplyView::Output(Err(failure)),
        ) == StepView::Finished(Some(failure)),
{
}

/// Whether an action records the ending of the deployment.
pub open spec fn records_ending(action: ActionView) -> bool {
    action is MarkSucceeded || action is MarkFailed || action is MarkRollbackFailed
}

/// Whether a step comes after the ending of the deployment was recorded.
pub open spec fn past_ending(step: StepView) -> bool {
    match step {
        Step::Close(close) => close is ReadRetained || close is ListRetained || close is Retire
            || close is BlockProject,
        Step::Finished(error) => error is None,
        _ => false,
    }
}

proof fn only_a_recorded_ending_ends(ctx: Context, step: StepView, reply: ReplyView)
    requires
        !past_ending(step),
        past_ending(next(ctx, step, reply)),
    ensures
        done(reply),
        records_ending(action(ctx, step)),
{
}

/// A run that finishes without an error has recorded the ending of its deployment: a success, a
/// failure or a failed rollback.
pub proof fn every_finished_run_has_recorded_its_ending(
    ctx: Context,
    first: StepView,
    replies: Seq<ReplyView>,
)
    requires
        first_step(ctx, first),
        past_ending(reached(ctx, first, replies)),
    ensures
        happened(ctx, first, replies, ending_is_recorded(ctx)),
    decreases replies.len(),
{
    if replies.len() > 0 {
        let before = replies.drop_last();
        let step = reached(ctx, first, before);
        what_occurred_stays(course(ctx, first), replies, ending_is_recorded(ctx));
        if past_ending(step) {
            every_finished_run_has_recorded_its_ending(ctx, first, before);
        } else {
            only_a_recorded_ending_ends(ctx, step, replies.last());
        }
    }
}

/// Only directories that stand in the directory of the releases are removed for retention, never
/// what the current link points to; and where nothing is refused, every other surplus release is.
pub proof fn retention_spares_the_current_release(
    paths: Seq<Seq<char>>,
    current: Option<Seq<char>>,
    root: Seq<char>,
)
    ensures
        forall|i: int|
            0 <= i < retired(paths, current, root).0.len() ==> {
                let path = #[trigger] retired(paths, current, root).0[i];
                paths.contains(path) && !leads_to(current, path) && leads_to(parent_of(path), root)
            },
        retired(paths, current, root).1 is None ==> forall|i: int|
            0 <= i < paths.len() && !leads_to(current, #[trigger] paths[i]) ==> retired(
                paths,
                current,
                root,
            ).0.contains(paths[i]),
    decreases paths.len(),
{
    if paths.len() > 0 {
        let before = paths.drop_last();
        retention_spares_the_current_release(before, current, root);
        let (kept, refusal) = retired(paths, current, root);
        let (earlier, _) = retired(before, current, root);
        assert forall|i: int| 0 <= i < kept.len() implies {
            let path = #[trigger] kept[i];
            paths.contains(path) && !leads_to(current, path) && leads_to(parent_of(path), root)
        } by {
            if i < earlier.len() {
                assert(kept[i] == earlier[i]);
                assert(before.contains(earlier[i]));
                let j = choose|j: int| 0 <= j < before.len() && before[j] == earlier[i];
                assert(paths[j] == earlier[i]);
            } else {
                assert(paths[paths.len() - 1] == kept[i]);
            }
        }
        if refusal is None {
            assert forall|i: int|
                0 <= i < paths.len() && !leads_to(current, #[trigger] paths[i]) implies kept.contains(
                paths[i],
            ) by {
                if i < before.len() {
                    assert(before[i] == paths[i]);
                    assert(earlier.contains(before[i]));
                    let j = choose|j: int| 0 <= j < earlier.len() && earlier[j] == before[i];
                    assert(kept[j] == paths[i]);
                } else {
                    assert(kept[kept.len() - 1] == paths[i]);
                }
            }
        }
    }
}

} // verus!
