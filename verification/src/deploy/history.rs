//! What a run has done by the time it is at a step.
use vstd::prelude::*;

#[allow(unused_imports)]
use crate::config::DeploymentTarget;
#[allow(unused_imports)]
use crate::deploy::laws::{
    course, done, first_step, happened, occurs, reached, sound, stage, steps_stay_sound, succeeded,
    what_occurred_stays,
};
#[allow(unused_imports)]
use crate::deploy::place::Context;
#[allow(unused_imports)]
use crate::deploy::plan::{action, next};
#[allow(unused_imports)]
use crate::deploy::step::{
    Action, ActionView, Activate, Back, Build, Check, Close, Prepare, Purpose, Removal, Reply,
    ReplyView, Step, StepView,
};
#[allow(unused_imports)]
use crate::error::AppErrorView;
#[allow(unused_imports)]
use crate::process::CommandView;

verus! {

/// An action is done.
pub open spec fn performed(ctx: Context, wanted: ActionView) -> spec_fn(
    StepView,
    ReplyView,
) -> bool {
    |step: StepView, reply: ReplyView| action(ctx, step) == wanted && done(reply)
}

/// How often something of a kind comes along a course.
pub open spec fn times<S, R>(
    course: spec_fn(Seq<R>) -> S,
    replies: Seq<R>,
    kind: spec_fn(S, R) -> bool,
) -> nat
    decreases replies.len(),
{
    if replies.len() == 0 {
        0
    } else {
        times(course, replies.drop_last(), kind) + (if kind(
            course(replies.drop_last()),
            replies.last(),
        ) {
            1nat
        } else {
            0nat
        })
    }
}

pub(crate) proof fn marked_steps_come_after(
    ctx: Context,
    first: StepView,
    replies: Seq<ReplyView>,
    mark: spec_fn(StepView) -> bool,
    kind: spec_fn(StepView, ReplyView) -> bool,
)
    requires
        !mark(first),
        mark(reached(ctx, first, replies)),
        forall|step: StepView, reply: ReplyView|
            !mark(step) && mark(#[trigger] next(ctx, step, reply)) ==> kind(step, reply),
    ensures
        happened(ctx, first, replies, kind),
    decreases replies.len(),
{
    let before = replies.drop_last();
    what_occurred_stays(course(ctx, first), replies, kind);
    if mark(reached(ctx, first, before)) {
        marked_steps_come_after(ctx, first, before, mark, kind);
    }
}

/// Whether a purpose is that of an activation, or else that of a rollback.
pub open spec fn serves(purpose: Purpose<Seq<char>, AppErrorView>, activation: bool) -> bool {
    (purpose is Forward) == activation
}

/// A probe fails, in an activation or else in a rollback.
pub open spec fn probe_fails(activation: bool) -> spec_fn(StepView, ReplyView) -> bool {
    |step: StepView, reply: ReplyView|
        (step matches Step::Check(Check::Probe { purpose, .. }) && serves(purpose, activation)) && (
        reply matches Reply::Done(Err(_)))
}

/// How many probes of an activation, or else of a rollback, have failed before a step of it.
spec fn probes_behind(step: StepView, activation: bool) -> Option<int> {
    match step {
        Step::Check(Check::Probe { attempt, purpose }) if serves(purpose, activation) => Some(
            attempt - 1,
        ),
        Step::Check(Check::ProbePause { attempt, purpose }) if serves(purpose, activation) => Some(
            attempt as int,
        ),
        _ => if stage(step) > (if activation {
            18nat
        } else {
            13nat
        }) {
            Some(0)
        } else {
            None
        },
    }
}

proof fn probes_count_up(ctx: Context, step: StepView, reply: ReplyView, activation: bool)
    requires
        sound(ctx, step),
        probes_behind(next(ctx, step, reply), activation) is Some,
    ensures
        probes_behind(step, activation) matches Some(before) && probes_behind(
            next(ctx, step, reply),
            activation,
        ) == Some(
            before + (if probe_fails(activation)(step, reply) {
                1int
            } else {
                0
            }),
        ),
{
}

pub(crate) proof fn reached_steps_are_sound(ctx: Context, first: StepView, replies: Seq<ReplyView>)
    requires
        first_step(ctx, first),
    ensures
        sound(ctx, reached(ctx, first, replies)),
    decreases replies.len(),
{
    if replies.len() == 0 {
        steps_stay_sound(ctx, first, ReplyView::Elapsed);
    } else {
        let before = replies.drop_last();
        reached_steps_are_sound(ctx, first, before);
        steps_stay_sound(ctx, reached(ctx, first, before), replies.last());
    }
}

proof fn probes_are_counted(
    ctx: Context,
    first: StepView,
    replies: Seq<ReplyView>,
    activation: bool,
)
    requires
        first_step(ctx, first),
    ensures
        probes_behind(reached(ctx, first, replies), activation) matches Some(count) ==> times(
            course(ctx, first),
            replies,
            probe_fails(activation),
        ) == count,
    decreases replies.len(),
{
    if replies.len() > 0 {
        let before = replies.drop_last();
        probes_are_counted(ctx, first, before, activation);
        reached_steps_are_sound(ctx, first, before);
        if probes_behind(reached(ctx, first, replies), activation) is Some {
            probes_count_up(ctx, reached(ctx, first, before), replies.last(), activation);
        }
    }
}

/// A failed probe is followed by a pause and the next attempt, each attempt after the one before
/// it, as long as an attempt is left.
pub proof fn a_failed_probe_is_repeated(
    ctx: Context,
    attempt: u32,
    purpose: Purpose<Seq<char>, AppErrorView>,
    failure: AppErrorView,
)
    requires
        attempt < ctx.project.health_check.attempts,
    ensures
        ({
            let probe = StepView::Check(Check::Probe { attempt, purpose });
            let pause = next(ctx, probe, ReplyView::Done(Err(failure)));
            &&& action(ctx, probe) == (ActionView::Probe {
                url: ctx.project.health_check.url@,
                timeout_ms: ctx.project.health_check.timeout_ms,
            })
            &&& action(ctx, pause) == (ActionView::Pause {
                ms: ctx.project.health_check.interval_ms,
            })
            &&& next(ctx, pause, ReplyView::Elapsed) matches Step::Check(
                Check::Probe { attempt: following, purpose: same },
            ) && following == attempt + 1 && same == purpose
        }),
{
}

/// When a run is at an attempt to probe a release, exactly the attempts before it have been made
/// and have failed.
pub proof fn attempts_count_the_failed_probes(
    ctx: Context,
    first: StepView,
    replies: Seq<ReplyView>,
    attempt: u32,
    purpose: Purpose<Seq<char>, AppErrorView>,
)
    requires
        first_step(ctx, first),
        reached(ctx, first, replies) == StepView::Check(Check::Probe { attempt, purpose }),
    ensures
        1 <= attempt <= ctx.project.health_check.attempts,
        times(course(ctx, first), replies, probe_fails(purpose is Forward)) == attempt - 1,
        action(ctx, reached(ctx, first, replies)) == (ActionView::Probe {
            url: ctx.project.health_check.url@,
            timeout_ms: ctx.project.health_check.timeout_ms,
        }),
{
    probes_are_counted(ctx, first, replies, purpose is Forward);
    reached_steps_are_sound(ctx, first, replies);
}

/// A run rolls back because of failed probes, or locks the project because of failed probes of
/// the previous release, only after as many probes of that release have failed as the project
/// allows attempts.
pub proof fn every_attempt_is_made_before_a_failure(
    ctx: Context,
    first: StepView,
    replies: Seq<ReplyView>,
)
    requires
        first_step(ctx, first),
        replies.len() > 0,
        reached(ctx, first, replies.drop_last()) matches Step::Check(Check::Probe { .. }),
        reached(ctx, first, replies) matches Step::Back(Back::MarkRollingBack { .. }) || reached(
            ctx,
            first,
            replies,
        ) matches Step::Close(Close::MarkRollbackFailed { .. }),
    ensures
        times(course(ctx, first), replies, probe_fails(reached(ctx, first, replies) is Back))
            == ctx.project.health_check.attempts,
{
    let before = replies.drop_last();
    reached_steps_are_sound(ctx, first, before);
    probes_are_counted(ctx, first, before, reached(ctx, first, replies) is Back);
}

/// A fetch fails.
pub open spec fn fetch_fails() -> spec_fn(StepView, ReplyView) -> bool {
    |step: StepView, reply: ReplyView|
        (step matches Step::Prepare(Prepare::Fetch { .. })) && (reply matches Reply::Output(Err(_)))
}

/// How many fetches have failed before a step up to the last fetch.
spec fn fetches_behind(step: StepView) -> Option<int> {
    match step {
        Step::Prepare(Prepare::Fetch { attempt }) => Some(attempt - 1),
        Step::Prepare(Prepare::FetchPause { attempt }) => Some(attempt as int),
        _ => if stage(step) > 63 {
            Some(0)
        } else {
            None
        },
    }
}

proof fn fetches_count_up(ctx: Context, step: StepView, reply: ReplyView)
    requires
        sound(ctx, step),
        fetches_behind(next(ctx, step, reply)) is Some,
    ensures
        fetches_behind(step) matches Some(before) && fetches_behind(next(ctx, step, reply)) == Some(
            before + (if fetch_fails()(step, reply) {
                1int
            } else {
                0
            }),
        ),
{
}

proof fn fetches_are_counted(ctx: Context, first: StepView, replies: Seq<ReplyView>)
    requires
        first_step(ctx, first),
    ensures
        fetches_behind(reached(ctx, first, replies)) matches Some(count) ==> times(
            course(ctx, first),
            replies,
            fetch_fails(),
        ) == count,
    decreases replies.len(),
{
    if replies.len() > 0 {
        let before = replies.drop_last();
        fetches_are_counted(ctx, first, before);
        reached_steps_are_sound(ctx, first, before);
        if fetches_behind(reached(ctx, first, replies)) is Some {
            fetches_count_up(ctx, reached(ctx, first, before), replies.last());
        }
    }
}

/// A run ends because of a failed fetch only after as many fetches have failed as the settings
/// allow attempts, and it ends with the error of the last one.
pub proof fn every_fetch_is_tried_before_a_failure(
    ctx: Context,
    first: StepView,
    replies: Seq<ReplyView>,
    failure: AppErrorView,
)
    requires
        first_step(ctx, first),
        replies.len() > 0,
        reached(ctx, first, replies.drop_last()) matches Step::Prepare(Prepare::Fetch { .. }),
        replies.last() == ReplyView::Output(Err(failure)),
    ensures
        reached(ctx, first, replies) is Finished <==> times(
            course(ctx, first),
            replies,
            fetch_fails(),
        ) == ctx.global.git_fetch_attempts,
        reached(ctx, first, replies) is Finished ==> reached(ctx, first, replies)
            == StepView::Finished(Some(failure)),
        action(ctx, reached(ctx, first, replies.drop_last())) == ActionView::Run(ctx.fetch()),
        !(reached(ctx, first, replies) is Finished) ==> action(ctx, reached(ctx, first, replies))
            == (ActionView::Pause { ms: ctx.global.git_fetch_retry_delay_ms }) && (next(
            ctx,
            reached(ctx, first, replies),
            ReplyView::Elapsed,
        ) matches Step::Prepare(Prepare::Fetch { attempt }) && attempt == 1 + times(
            course(ctx, first),
            replies,
            fetch_fails(),
        )),
{
    let before = replies.drop_last();
    reached_steps_are_sound(ctx, first, before);
    fetches_are_counted(ctx, first, before);
}

/// A command succeeds.
pub open spec fn ran(ctx: Context, wanted: CommandView) -> spec_fn(StepView, ReplyView) -> bool {
    |step: StepView, reply: ReplyView|
        action(ctx, step) == ActionView::Run(wanted) && succeeded(reply)
}

/// The tag is resolved only after it was fetched, unless the settings allow no attempt.
pub proof fn the_tag_is_fetched_first(ctx: Context, first: StepView, replies: Seq<ReplyView>)
    requires
        first_step(ctx, first),
        ctx.global.git_fetch_attempts > 0,
        reached(ctx, first, replies) == StepView::Prepare(Prepare::ResolveTag),
    ensures
        happened(ctx, first, replies, ran(ctx, ctx.fetch())),
{
    marked_steps_come_after(
        ctx,
        first,
        replies,
        |step: StepView| step == StepView::Prepare(Prepare::ResolveTag),
        ran(ctx, ctx.fetch()),
    );
}

/// Cargo builds the programs of the project.
pub open spec fn cargo_builds(ctx: Context) -> spec_fn(StepView, ReplyView) -> bool {
    |step: StepView, reply: ReplyView|
        (step matches Step::Build { build: Build::Cargo { environment }, .. } && action(ctx, step)
            == ActionView::Run(ctx.cargo(environment))) && succeeded(reply)
}

/// How many programs have been copied before a step of a build that has not failed.
spec fn programs_behind(ctx: Context, step: StepView) -> int {
    match (step, ctx.project.deployment) {
        (Step::Build { build, .. }, DeploymentTarget::Rust { binaries, .. }) => match build {
            Build::CopyBinary { index } => index as int,
            Build::CopyInclude { .. } | Build::Validate | Build::Publish | Build::Sync
            => binaries.len() as int,
            Build::RemoveTarget { outcome } => if outcome is None {
                binaries.len() as int
            } else {
                0
            },
            _ => 0,
        },
        _ => 0,
    }
}

/// How many further paths have been copied before a step of a build that has not failed.
spec fn paths_behind(ctx: Context, step: StepView) -> int {
    match (step, ctx.project.deployment) {
        (Step::Build { build, .. }, DeploymentTarget::Rust { include_paths, .. }) => match build {
            Build::CopyInclude { index } => index as int,
            Build::Validate | Build::Publish | Build::Sync => include_paths.len() as int,
            Build::RemoveTarget { outcome } => if outcome is None {
                include_paths.len() as int
            } else {
                0
            },
            _ => 0,
        },
        _ => 0,
    }
}

/// The copying of a program that Cargo has built.
pub open spec fn copying_program(ctx: Context, parent: Seq<char>, name: Seq<char>) -> ActionView {
    Action::CopyBuilt { target: ctx.target(), to: ctx.temporary(parent), name }
}

/// The copying of a further path of the worktree.
pub open spec fn copying_path(ctx: Context, parent: Seq<char>, path: Seq<char>) -> ActionView {
    Action::CopyIncluded { from: ctx.worktree(), to: ctx.temporary(parent), path }
}

proof fn a_program_more(
    ctx: Context,
    step: StepView,
    reply: ReplyView,
    parent: Seq<char>,
    index: int,
)
    requires
        sound(ctx, step),
        build_fits(ctx, step),
        next(ctx, step, reply) matches Step::Build { parent: same, .. } && same == parent,
        0 <= index < programs_behind(ctx, next(ctx, step, reply)),
    ensures
        ({
            ||| (step matches Step::Build { parent: same, .. } && same == parent) && index
                < programs_behind(ctx, step)
            ||| (ctx.project.deployment matches DeploymentTarget::Rust { binaries, .. }
                && performed(ctx, copying_program(ctx, parent, binaries@[index].binary@))(
                step,
                reply,
            ))
        }),
{
}

proof fn a_path_more(
    ctx: Context,
    step: StepView,
    reply: ReplyView,
    parent: Seq<char>,
    index: int,
)
    requires
        sound(ctx, step),
        build_fits(ctx, step),
        next(ctx, step, reply) matches Step::Build { parent: same, .. } && same == parent,
        0 <= index < paths_behind(ctx, next(ctx, step, reply)),
    ensures
        ({
            ||| (step matches Step::Build { parent: same, .. } && same == parent) && index
                < paths_behind(ctx, step)
            ||| (ctx.project.deployment matches DeploymentTarget::Rust { include_paths, .. }
                && performed(ctx, copying_path(ctx, parent, include_paths@[index]@))(step, reply))
        }),
{
}

proof fn programs_are_copied(
    ctx: Context,
    first: StepView,
    replies: Seq<ReplyView>,
    parent: Seq<char>,
    index: int,
)
    requires
        first_step(ctx, first),
        reached(ctx, first, replies) matches Step::Build { parent: same, .. } && same == parent,
        0 <= index < programs_behind(ctx, reached(ctx, first, replies)),
    ensures
        ctx.project.deployment matches DeploymentTarget::Rust { binaries, .. } && happened(
            ctx,
            first,
            replies,
            performed(ctx, copying_program(ctx, parent, binaries@[index].binary@)),
        ),
    decreases replies.len(),
{
    if replies.len() > 0 {
        let before = replies.drop_last();
        let step = reached(ctx, first, before);
        reached_steps_are_sound(ctx, first, before);
        reached_builds_fit(ctx, first, before);
        a_program_more(ctx, step, replies.last(), parent, index);
        if let DeploymentTarget::Rust { binaries, .. } = ctx.project.deployment {
            what_occurred_stays(
                course(ctx, first),
                replies,
                performed(ctx, copying_program(ctx, parent, binaries@[index].binary@)),
            );
        }
        if (step matches Step::Build { parent: same, .. } && same == parent) && index
            < programs_behind(ctx, step) {
            programs_are_copied(ctx, first, before, parent, index);
        }
    }
}

proof fn paths_are_copied(
    ctx: Context,
    first: StepView,
    replies: Seq<ReplyView>,
    parent: Seq<char>,
    index: int,
)
    requires
        first_step(ctx, first),
        reached(ctx, first, replies) matches Step::Build { parent: same, .. } && same == parent,
        0 <= index < paths_behind(ctx, reached(ctx, first, replies)),
    ensures
        ctx.project.deployment matches DeploymentTarget::Rust { include_paths, .. } && happened(
            ctx,
            first,
            replies,
            performed(ctx, copying_path(ctx, parent, include_paths@[index]@)),
        ),
    decreases replies.len(),
{
    if replies.len() > 0 {
        let before = replies.drop_last();
        let step = reached(ctx, first, before);
        reached_steps_are_sound(ctx, first, before);
        reached_builds_fit(ctx, first, before);
        a_path_more(ctx, step, replies.last(), parent, index);
        if let DeploymentTarget::Rust { include_paths, .. } = ctx.project.deployment {
            what_occurred_stays(
                course(ctx, first),
                replies,
                performed(ctx, copying_path(ctx, parent, include_paths@[index]@)),
            );
        }
        if (step matches Step::Build { parent: same, .. } && same == parent) && index
            < paths_behind(ctx, step) {
            paths_are_copied(ctx, first, before, parent, index);
        }
    }
}

/// A release of a project that is built from source is validated only after Cargo has built it
/// and every program and every further path of the settings was copied into it.
pub proof fn a_built_release_is_complete(
    ctx: Context,
    first: StepView,
    replies: Seq<ReplyView>,
    commit: Seq<char>,
    parent: Seq<char>,
)
    requires
        first_step(ctx, first),
        ctx.project.deployment is Rust,
        reached(ctx, first, replies) == (StepView::Build { commit, parent, build: Build::Validate }),
    ensures
        happened(ctx, first, replies, cargo_builds(ctx)),
        ctx.project.deployment matches DeploymentTarget::Rust { binaries, include_paths, .. } && ({
            &&& forall|i: int|
                0 <= i < binaries@.len() ==> happened(
                    ctx,
                    first,
                    replies,
                    performed(ctx, copying_program(ctx, parent, (#[trigger] binaries@[i]).binary@)),
                )
            &&& forall|i: int|
                0 <= i < include_paths@.len() ==> happened(
                    ctx,
                    first,
                    replies,
                    performed(ctx, copying_path(ctx, parent, (#[trigger] include_paths@[i])@)),
                )
        }),
{
    copies_follow_the_build(ctx, first, replies);
    if let DeploymentTarget::Rust { binaries, include_paths, .. } = ctx.project.deployment {
        assert forall|i: int| 0 <= i < binaries@.len() implies happened(
            ctx,
            first,
            replies,
            performed(ctx, copying_program(ctx, parent, (#[trigger] binaries@[i]).binary@)),
        ) by {
            programs_are_copied(ctx, first, replies, parent, i);
        }
        assert forall|i: int| 0 <= i < include_paths@.len() implies happened(
            ctx,
            first,
            replies,
            performed(ctx, copying_path(ctx, parent, (#[trigger] include_paths@[i])@)),
        ) by {
            paths_are_copied(ctx, first, replies, parent, i);
        }
    }
}

/// Whether a step of a build from source comes after Cargo has succeeded.
pub open spec fn past_cargo(step: StepView) -> bool {
    match step {
        Step::Build { build, .. } => match build {
            Build::CopyBinary { .. } | Build::CopyInclude { .. } | Build::Validate => true,
            Build::RemoveTarget { outcome } => outcome is None,
            _ => false,
        },
        _ => false,
    }
}

/// Nothing is copied into a release that is built from source, and it is not validated, before
/// Cargo has succeeded.
pub proof fn copies_follow_the_build(ctx: Context, first: StepView, replies: Seq<ReplyView>)
    requires
        first_step(ctx, first),
        ctx.project.deployment is Rust,
        past_cargo(reached(ctx, first, replies)),
    ensures
        happened(ctx, first, replies, cargo_builds(ctx)),
    decreases replies.len(),
{
    if replies.len() > 0 {
        let before = replies.drop_last();
        let step = reached(ctx, first, before);
        reached_builds_fit(ctx, first, before);
        what_occurred_stays(course(ctx, first), replies, cargo_builds(ctx));
        if past_cargo(step) {
            copies_follow_the_build(ctx, first, before);
        } else {
            only_cargo_leads_to_copies(ctx, step, replies.last());
        }
    }
}

proof fn only_cargo_leads_to_copies(ctx: Context, step: StepView, reply: ReplyView)
    requires
        ctx.project.deployment is Rust,
        build_fits(ctx, step),
        !past_cargo(step),
        past_cargo(next(ctx, step, reply)),
    ensures
        cargo_builds(ctx)(step, reply),
{
}

/// Whether a step that copies a whole tree or a program that the tag holds fits the project.
spec fn build_fits(ctx: Context, step: StepView) -> bool {
    match step {
        Step::Build { build: Build::CopyTree, .. } => ctx.project.deployment is Static,
        Step::Build { build: Build::CopyPrebuilt, .. } => ctx.project.deployment is Binary,
        _ => true,
    }
}

proof fn reached_builds_fit(ctx: Context, first: StepView, replies: Seq<ReplyView>)
    requires
        first_step(ctx, first),
    ensures
        build_fits(ctx, reached(ctx, first, replies)),
    decreases replies.len(),
{
    if replies.len() > 0 {
        reached_builds_fit(ctx, first, replies.drop_last());
    }
}

/// A release that is not built from source is validated only after the tree of the tag, or the
/// program that the tag holds, was copied into it.
pub proof fn a_copied_release_is_complete(
    ctx: Context,
    first: StepView,
    replies: Seq<ReplyView>,
    commit: Seq<char>,
    parent: Seq<char>,
)
    requires
        first_step(ctx, first),
        !(ctx.project.deployment is Rust),
        reached(ctx, first, replies) == (StepView::Build { commit, parent, build: Build::Validate }),
    ensures
        replies.len() > 0,
        done(replies.last()),
        action(ctx, reached(ctx, first, replies.drop_last())) == (match ctx.project.deployment {
            DeploymentTarget::Binary { binary_path } => ActionView::CopyPrebuilt {
                from: ctx.worktree(),
                to: ctx.temporary(parent),
                file: binary_path@,
            },
            _ => ActionView::CopyTree { from: ctx.worktree(), to: ctx.temporary(parent) },
        }),
{
    let before = replies.drop_last();
    let step = reached(ctx, first, before);
    reached_builds_fit(ctx, first, before);
    if builds_from_source(step) {
        only_source_builds_remove_targets(ctx, first, before);
    }
    validation_follows_a_copy(ctx, step, replies.last(), commit, parent);
}

proof fn validation_follows_a_copy(
    ctx: Context,
    step: StepView,
    reply: ReplyView,
    commit: Seq<char>,
    parent: Seq<char>,
)
    requires
        !builds_from_source(step),
        next(ctx, step, reply) == (StepView::Build { commit, parent, build: Build::Validate }),
    ensures
        step == (StepView::Build { commit, parent, build: Build::CopyTree }) || step == (
        StepView::Build { commit, parent, build: Build::CopyPrebuilt }),
        done(reply),
{
}

/// Whether a step belongs to a build from source.
pub open spec fn builds_from_source(step: StepView) -> bool {
    match step {
        Step::Build { build, .. } => match build {
            Build::CheckManifest | Build::ClearTarget | Build::CreateTarget
            | Build::LoadEnvironment { .. } | Build::Cargo { .. } | Build::CopyBinary { .. }
            | Build::CopyInclude { .. } | Build::RemoveTarget { .. } => true,
            _ => false,
        },
        _ => false,
    }
}

/// Only a project that is built from source runs Cargo, and only for it programs and further
/// paths are copied.
pub proof fn only_source_builds_remove_targets(
    ctx: Context,
    first: StepView,
    replies: Seq<ReplyView>,
)
    requires
        first_step(ctx, first),
        builds_from_source(reached(ctx, first, replies)),
    ensures
        ctx.project.deployment is Rust,
    decreases replies.len(),
{
    if replies.len() > 0 {
        let before = replies.drop_last();
        if builds_from_source(reached(ctx, first, before)) {
            only_source_builds_remove_targets(ctx, first, before);
        }
    }
}

} // verus!
