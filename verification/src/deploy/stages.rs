//! What each stage of a run rests on: which actions come before it, and with which results.
use vstd::prelude::*;

#[allow(unused_imports)]
use crate::deploy::history::{
    marked_steps_come_after, performed, ran, reached_steps_are_sound, serves,
};
#[allow(unused_imports)]
use crate::deploy::laws::{
    course, done, first_step, happened, occurs, reached, sound, succeeded, way_back,
    what_occurred_stays,
};
#[allow(unused_imports)]
use crate::deploy::place::{configured, Context};
#[allow(unused_imports)]
use crate::deploy::plan::{action, next, resume_activation, resume_rollback, start};
#[allow(unused_imports)]
use crate::deploy::step::{
    Action, ActionView, Activate, Back, Build, Check, Close, Prepare, Purpose, Removal, Reply,
    ReplyView, Step, StepView,
};
#[allow(unused_imports)]
use crate::error::AppErrorView;
#[allow(unused_imports)]
use crate::model::{DeploymentKind, DeploymentStatus};
#[allow(unused_imports)]
use crate::path::{parent_of, same_parts};

verus! {

/// One of two things happens.
pub open spec fn either(
    left: spec_fn(StepView, ReplyView) -> bool,
    right: spec_fn(StepView, ReplyView) -> bool,
) -> spec_fn(StepView, ReplyView) -> bool {
    |step: StepView, reply: ReplyView| left(step, reply) || right(step, reply)
}

/// Whether a step comes after a build of a commit has succeeded, or after its release was found.
spec fn past_build(step: StepView, commit: Seq<char>) -> bool {
    match step {
        Step::RemoveWorktree { commit: same, why: Removal::Built { outcome } } => same == commit
            && outcome is None,
        Step::CheckRemoved { commit: same, why: Removal::Built { outcome }, .. } => same == commit
            && outcome is None,
        Step::Prepare(Prepare::RecordRelease { commit: same }) => same == commit,
        _ => false,
    }
}

/// Whether a step of a build of a commit comes after its release was put in its place.
spec fn past_publishing(step: StepView, commit: Seq<char>) -> bool {
    past_build(step, commit) || (step matches Step::Build { commit: same, build: Build::Sync, .. }
        && same == commit)
}

/// Whether a step of a build of a commit comes after its release was validated.
spec fn past_validation(step: StepView, commit: Seq<char>) -> bool {
    past_publishing(step, commit) || (step matches Step::Build {
        commit: same,
        build: Build::Publish,
        ..
    } && same == commit)
}

spec fn build_stands_beside(ctx: Context, step: StepView) -> bool {
    step matches Step::Build { commit, parent, .. } ==> parent_of(ctx.release(commit)) == Some(
        parent,
    )
}

proof fn builds_stand_beside(ctx: Context, first: StepView, replies: Seq<ReplyView>)
    requires
        first_step(ctx, first),
    ensures
        build_stands_beside(ctx, reached(ctx, first, replies)),
    decreases replies.len(),
{
    if replies.len() > 0 {
        builds_stand_beside(ctx, first, replies.drop_last());
    }
}

proof fn one_of_two_happened(
    ctx: Context,
    first: StepView,
    replies: Seq<ReplyView>,
    left: spec_fn(StepView, ReplyView) -> bool,
    right: spec_fn(StepView, ReplyView) -> bool,
)
    requires
        happened(ctx, first, replies, either(left, right)),
    ensures
        happened(ctx, first, replies, left) || happened(ctx, first, replies, right),
{
    let steps = course(ctx, first);
    let i = choose|i: int|
        0 <= i < replies.len() && either(left, right)(
            steps(replies.take(i)),
            #[trigger] replies[i],
        );
    assert(left(steps(replies.take(i)), replies[i]) || right(steps(replies.take(i)), replies[i]));
}

proof fn marked_steps_follow_sound_ones(
    ctx: Context,
    first: StepView,
    replies: Seq<ReplyView>,
    mark: spec_fn(StepView) -> bool,
    kind: spec_fn(StepView, ReplyView) -> bool,
)
    requires
        first_step(ctx, first),
        !mark(first),
        mark(reached(ctx, first, replies)),
        forall|step: StepView, reply: ReplyView|
            sound(ctx, step) && build_stands_beside(ctx, step) && !mark(step) && mark(
                #[trigger] next(ctx, step, reply),
            ) ==> kind(step, reply),
    ensures
        happened(ctx, first, replies, kind),
    decreases replies.len(),
{
    let before = replies.drop_last();
    what_occurred_stays(course(ctx, first), replies, kind);
    reached_steps_are_sound(ctx, first, before);
    builds_stand_beside(ctx, first, before);
    if mark(reached(ctx, first, before)) {
        marked_steps_follow_sound_ones(ctx, first, before, mark, kind);
    }
}

/// A release is recorded only after it was found complete in its place, or else was built beside
/// it, validated there, renamed to its place and flushed, and the worktree was removed.
pub proof fn a_recorded_release_is_in_place(
    ctx: Context,
    first: StepView,
    replies: Seq<ReplyView>,
    commit: Seq<char>,
)
    requires
        first_step(ctx, first),
        reached(ctx, first, replies) == StepView::Prepare(Prepare::RecordRelease { commit }),
        !happened(ctx, first, replies, performed(ctx, ActionView::Validate(ctx.release(commit)))),
    ensures
        parent_of(ctx.release(commit)) matches Some(parent) && {
            let temporary = ctx.temporary(parent);
            &&& happened(ctx, first, replies, performed(ctx, ActionView::Validate(temporary)))
            &&& happened(
                ctx,
                first,
                replies,
                performed(ctx, ActionView::Rename { from: temporary, to: ctx.release(commit) }),
            )
            &&& happened(ctx, first, replies, performed(ctx, ActionView::SyncDirectory(parent)))
            &&& happened(ctx, first, replies, ran(ctx, ctx.remove_worktree()))
        },
{
    recorded_after_beside(ctx, first, replies, commit);
    let parent = parent_of(ctx.release(commit))->0;
    recorded_after_validation(ctx, first, replies, commit, parent);
    recorded_after_publishing(ctx, first, replies, commit, parent);
    recorded_after_flushing(ctx, first, replies, commit, parent);
    recorded_after_removal(ctx, first, replies, commit);
}

proof fn only_builds_and_findings_lead_on(
    ctx: Context,
    step: StepView,
    reply: ReplyView,
    commit: Seq<char>,
)
    requires
        build_stands_beside(ctx, step),
        !past_build(step, commit),
        past_build(next(ctx, step, reply), commit),
    ensures
        parent_of(ctx.release(commit)) is Some || performed(
            ctx,
            ActionView::Validate(ctx.release(commit)),
        )(step, reply),
{
}

proof fn recorded_after_beside(
    ctx: Context,
    first: StepView,
    replies: Seq<ReplyView>,
    commit: Seq<char>,
)
    requires
        first_step(ctx, first),
        reached(ctx, first, replies) == StepView::Prepare(Prepare::RecordRelease { commit }),
        !happened(ctx, first, replies, performed(ctx, ActionView::Validate(ctx.release(commit)))),
    ensures
        parent_of(ctx.release(commit)) is Some,
{
    let found = performed(ctx, ActionView::Validate(ctx.release(commit)));
    let built = |step: StepView, reply: ReplyView| parent_of(ctx.release(commit)) is Some;
    let mark = |step: StepView| past_build(step, commit);
    assert forall|step: StepView, reply: ReplyView|
        sound(ctx, step) && build_stands_beside(ctx, step) && !mark(step) && mark(
            #[trigger] next(ctx, step, reply),
        ) implies either(built, found)(step, reply) by {
        only_builds_and_findings_lead_on(ctx, step, reply, commit);
    }
    marked_steps_follow_sound_ones(ctx, first, replies, mark, either(built, found));
    one_of_two_happened(ctx, first, replies, built, found);
}

proof fn steps_before_a_record(
    ctx: Context,
    step: StepView,
    reply: ReplyView,
    commit: Seq<char>,
    parent: Seq<char>,
)
    requires
        build_stands_beside(ctx, step),
        parent_of(ctx.release(commit)) == Some(parent),
    ensures
        past_validation(next(ctx, step, reply), commit) && !past_validation(step, commit)
            ==> performed(ctx, ActionView::Validate(ctx.temporary(parent)))(step, reply)
            || performed(ctx, ActionView::Validate(ctx.release(commit)))(step, reply),
        past_publishing(next(ctx, step, reply), commit) && !past_publishing(step, commit)
            ==> performed(
            ctx,
            ActionView::Rename { from: ctx.temporary(parent), to: ctx.release(commit) },
        )(step, reply) || performed(ctx, ActionView::Validate(ctx.release(commit)))(step, reply),
        past_build(next(ctx, step, reply), commit) && !past_build(step, commit) ==> performed(
            ctx,
            ActionView::SyncDirectory(parent),
        )(step, reply) || performed(ctx, ActionView::Validate(ctx.release(commit)))(step, reply),
{
}

proof fn recorded_after_validation(
    ctx: Context,
    first: StepView,
    replies: Seq<ReplyView>,
    commit: Seq<char>,
    parent: Seq<char>,
)
    requires
        first_step(ctx, first),
        reached(ctx, first, replies) == StepView::Prepare(Prepare::RecordRelease { commit }),
        parent_of(ctx.release(commit)) == Some(parent),
        !happened(ctx, first, replies, performed(ctx, ActionView::Validate(ctx.release(commit)))),
    ensures
        happened(
            ctx,
            first,
            replies,
            performed(ctx, ActionView::Validate(ctx.temporary(parent))),
        ),
{
    let found = performed(ctx, ActionView::Validate(ctx.release(commit)));
    let built = performed(ctx, ActionView::Validate(ctx.temporary(parent)));
    let mark = |step: StepView| past_validation(step, commit);
    assert forall|step: StepView, reply: ReplyView|
        sound(ctx, step) && build_stands_beside(ctx, step) && !mark(step) && mark(
            #[trigger] next(ctx, step, reply),
        ) implies either(built, found)(step, reply) by {
        steps_before_a_record(ctx, step, reply, commit, parent);
    }
    marked_steps_follow_sound_ones(ctx, first, replies, mark, either(built, found));
    one_of_two_happened(ctx, first, replies, built, found);
}

proof fn recorded_after_publishing(
    ctx: Context,
    first: StepView,
    replies: Seq<ReplyView>,
    commit: Seq<char>,
    parent: Seq<char>,
)
    requires
        first_step(ctx, first),
        reached(ctx, first, replies) == StepView::Prepare(Prepare::RecordRelease { commit }),
        parent_of(ctx.release(commit)) == Some(parent),
        !happened(ctx, first, replies, performed(ctx, ActionView::Validate(ctx.release(commit)))),
    ensures
        happened(
            ctx,
            first,
            replies,
            performed(
                ctx,
                ActionView::Rename { from: ctx.temporary(parent), to: ctx.release(commit) },
            ),
        ),
{
    let found = performed(ctx, ActionView::Validate(ctx.release(commit)));
    let built = performed(
                ctx,
                ActionView::Rename { from: ctx.temporary(parent), to: ctx.release(commit) },
            );
    let mark = |step: StepView| past_publishing(step, commit);
    assert forall|step: StepView, reply: ReplyView|
        sound(ctx, step) && build_stands_beside(ctx, step) && !mark(step) && mark(
            #[trigger] next(ctx, step, reply),
        ) implies either(built, found)(step, reply) by {
        steps_before_a_record(ctx, step, reply, commit, parent);
    }
    marked_steps_follow_sound_ones(ctx, first, replies, mark, either(built, found));
    one_of_two_happened(ctx, first, replies, built, found);
}

proof fn recorded_after_flushing(
    ctx: Context,
    first: StepView,
    replies: Seq<ReplyView>,
    commit: Seq<char>,
    parent: Seq<char>,
)
    requires
        first_step(ctx, first),
        reached(ctx, first, replies) == StepView::Prepare(Prepare::RecordRelease { commit }),
        parent_of(ctx.release(commit)) == Some(parent),
        !happened(ctx, first, replies, performed(ctx, ActionView::Validate(ctx.release(commit)))),
    ensures
        happened(
            ctx,
            first,
            replies,
            performed(ctx, ActionView::SyncDirectory(parent)),
        ),
{
    let found = performed(ctx, ActionView::Validate(ctx.release(commit)));
    let built = performed(ctx, ActionView::SyncDirectory(parent));
    let mark = |step: StepView| past_build(step, commit);
    assert forall|step: StepView, reply: ReplyView|
        sound(ctx, step) && build_stands_beside(ctx, step) && !mark(step) && mark(
            #[trigger] next(ctx, step, reply),
        ) implies either(built, found)(step, reply) by {
        steps_before_a_record(ctx, step, reply, commit, parent);
    }
    marked_steps_follow_sound_ones(ctx, first, replies, mark, either(built, found));
    one_of_two_happened(ctx, first, replies, built, found);
}

proof fn a_record_follows_a_removal(
    ctx: Context,
    step: StepView,
    reply: ReplyView,
    commit: Seq<char>,
)
    requires
        next(ctx, step, reply) == StepView::Prepare(Prepare::RecordRelease { commit }),
    ensures
        ran(ctx, ctx.remove_worktree())(step, reply) || performed(
            ctx,
            ActionView::Validate(ctx.release(commit)),
        )(step, reply),
{
}

proof fn recorded_after_removal(
    ctx: Context,
    first: StepView,
    replies: Seq<ReplyView>,
    commit: Seq<char>,
)
    requires
        first_step(ctx, first),
        reached(ctx, first, replies) == StepView::Prepare(Prepare::RecordRelease { commit }),
        !happened(ctx, first, replies, performed(ctx, ActionView::Validate(ctx.release(commit)))),
    ensures
        happened(
            ctx,
            first,
            replies,
            ran(ctx, ctx.remove_worktree()),
        ),
{
    let found = performed(ctx, ActionView::Validate(ctx.release(commit)));
    let built = ran(ctx, ctx.remove_worktree());
    let mark = |step: StepView|
        step == StepView::Prepare(Prepare::RecordRelease { commit });
    assert forall|step: StepView, reply: ReplyView|
        sound(ctx, step) && build_stands_beside(ctx, step) && !mark(step) && mark(
            #[trigger] next(ctx, step, reply),
        ) implies either(built, found)(step, reply) by {
        a_record_follows_a_removal(ctx, step, reply, commit);
    }
    marked_steps_follow_sound_ones(ctx, first, replies, mark, either(built, found));
    one_of_two_happened(ctx, first, replies, built, found);
}

/// A commit is resolved from the tag.
pub open spec fn commit_is_resolved(ctx: Context, commit: Seq<char>) -> spec_fn(
    StepView,
    ReplyView,
) -> bool {
    |step: StepView, reply: ReplyView|
        action(ctx, step) == ActionView::Run(ctx.resolve_commit()) && reply == ReplyView::Output(
            Ok(commit),
        )
}

/// The commit that a step works on, where there is one.
pub open spec fn commit_of(step: StepView) -> Option<Seq<char>> {
    match step {
        Step::Prepare(prepare) => match prepare {
            Prepare::RecordCommit { commit } => Some(commit),
            Prepare::CheckRelease { commit } => Some(commit),
            Prepare::CheckStaleWorktree { commit } => Some(commit),
            Prepare::ValidateExisting { commit } => Some(commit),
            Prepare::MarkBuilding { commit } => Some(commit),
            Prepare::PruneWorktrees { commit } => Some(commit),
            Prepare::CheckWorktree { commit } => Some(commit),
            Prepare::CreateWorktreeParent { commit, .. } => Some(commit),
            Prepare::AddWorktree { commit } => Some(commit),
            Prepare::RecordRelease { commit } => Some(commit),
            _ => None,
        },
        Step::RemoveWorktree { commit, .. } => Some(commit),
        Step::CheckRemoved { commit, .. } => Some(commit),
        Step::Build { commit, .. } => Some(commit),
        _ => None,
    }
}

/// The commit that is checked out, built and recorded is the one that Git has resolved from the
/// tag in this run.
pub proof fn the_resolved_commit_is_built(
    ctx: Context,
    first: StepView,
    replies: Seq<ReplyView>,
    commit: Seq<char>,
)
    requires
        first_step(ctx, first),
        commit_of(reached(ctx, first, replies)) == Some(commit),
    ensures
        happened(ctx, first, replies, commit_is_resolved(ctx, commit)),
{
    let mark = |step: StepView| commit_of(step) == Some(commit);
    let kind = commit_is_resolved(ctx, commit);
    assert forall|step: StepView, reply: ReplyView|
        sound(ctx, step) && build_stands_beside(ctx, step) && !mark(step) && mark(
            #[trigger] next(ctx, step, reply),
        ) implies kind(step, reply) by {
        only_resolving_gives_a_commit(ctx, step, reply, commit);
    }
    marked_steps_follow_sound_ones(ctx, first, replies, mark, kind);
}

/// The resolved commit is recorded before its release is looked for or built.
pub proof fn the_commit_is_recorded_first(
    ctx: Context,
    first: StepView,
    replies: Seq<ReplyView>,
    commit: Seq<char>,
)
    requires
        first_step(ctx, first),
        commit_of(reached(ctx, first, replies)) == Some(commit),
        !(reached(ctx, first, replies) matches Step::Prepare(Prepare::RecordCommit { .. })),
    ensures
        happened(ctx, first, replies, performed(ctx, ActionView::SetResolvedCommit(commit))),
{
    let mark = |step: StepView| past_recording(step, commit);
    let kind = performed(ctx, ActionView::SetResolvedCommit(commit));
    assert forall|step: StepView, reply: ReplyView|
        sound(ctx, step) && build_stands_beside(ctx, step) && !mark(step) && mark(
            #[trigger] next(ctx, step, reply),
        ) implies kind(step, reply) by {
        only_recording_leads_on(ctx, step, reply, commit);
    }
    marked_steps_follow_sound_ones(ctx, first, replies, mark, kind);
}

/// A release is built only from a worktree that Git has made of its commit in this run, after
/// the build was recorded as begun.
pub proof fn builds_use_a_fresh_worktree(
    ctx: Context,
    first: StepView,
    replies: Seq<ReplyView>,
    commit: Seq<char>,
)
    requires
        first_step(ctx, first),
        reached(ctx, first, replies) matches Step::Build { commit: same, .. } && same == commit,
    ensures
        happened(ctx, first, replies, ran(ctx, ctx.add_worktree(commit))),
        happened(
            ctx,
            first,
            replies,
            performed(ctx, ActionView::SetStatus(DeploymentStatus::Building)),
        ),
{
    built_after_the_worktree(ctx, first, replies, commit);
    built_after_the_record(ctx, first, replies);
}

proof fn built_after_the_worktree(
    ctx: Context,
    first: StepView,
    replies: Seq<ReplyView>,
    commit: Seq<char>,
)
    requires
        first_step(ctx, first),
        reached(ctx, first, replies) matches Step::Build { commit: same, .. } && same == commit,
    ensures
        happened(ctx, first, replies, ran(ctx, ctx.add_worktree(commit))),
{
    let mark = |step: StepView| builds_commit(step, commit);
    let kind = ran(ctx, ctx.add_worktree(commit));
    assert forall|step: StepView, reply: ReplyView|
        sound(ctx, step) && build_stands_beside(ctx, step) && !mark(step) && mark(
            #[trigger] next(ctx, step, reply),
        ) implies kind(step, reply) by {
        only_a_worktree_leads_to_builds(ctx, step, reply, commit);
    }
    marked_steps_follow_sound_ones(ctx, first, replies, mark, kind);
}

proof fn built_after_the_record(ctx: Context, first: StepView, replies: Seq<ReplyView>)
    requires
        first_step(ctx, first),
        building(reached(ctx, first, replies)),
    ensures
        happened(
            ctx,
            first,
            replies,
            performed(ctx, ActionView::SetStatus(DeploymentStatus::Building)),
        ),
{
    let mark = |step: StepView| building(step);
    let kind = performed(ctx, ActionView::SetStatus(DeploymentStatus::Building));
    assert forall|step: StepView, reply: ReplyView|
        sound(ctx, step) && build_stands_beside(ctx, step) && !mark(step) && mark(
            #[trigger] next(ctx, step, reply),
        ) implies kind(step, reply) by {
        only_a_record_leads_to_builds(ctx, step, reply);
    }
    marked_steps_follow_sound_ones(ctx, first, replies, mark, kind);
}

/// Whether a step belongs to a build that was recorded as begun.
pub open spec fn building(step: StepView) -> bool {
    match step {
        Step::Prepare(prepare) => prepare is PruneWorktrees || prepare is CheckWorktree
            || prepare is CreateWorktreeParent || prepare is AddWorktree,
        Step::RemoveWorktree { why, .. } => !(why is Stale),
        Step::CheckRemoved { why, .. } => !(why is Stale),
        Step::Build { .. } => true,
        _ => false,
    }
}

/// The release that a step migrates or switches to, where there is one.
pub open spec fn release_of(step: StepView) -> Option<Seq<char>> {
    match step {
        Step::Activate(activate) => match activate {
            Activate::Recheck { release } => Some(release),
            Activate::MarkMigrating { release } => Some(release),
            Activate::LoadEnvironment { release, .. } => Some(release),
            Activate::Migrate { release, .. } => Some(release),
            Activate::ValidateCandidate { release } => Some(release),
            Activate::ReadCurrent { release } => Some(release),
            Activate::RecordActivation { release, .. } => Some(release),
            Activate::SwitchTo { release, .. } => Some(release),
        },
        _ => None,
    }
}

/// A run migrates and switches only to the release that it has recorded, or to the one that is
/// recorded with the deployment.
pub proof fn the_recorded_release_is_activated(
    ctx: Context,
    first: StepView,
    replies: Seq<ReplyView>,
    release: Seq<char>,
)
    requires
        first_step(ctx, first),
        release_of(reached(ctx, first, replies)) == Some(release),
    ensures
        ctx.deployment.release_path.deep_view() == Some(release) || happened(
            ctx,
            first,
            replies,
            performed(ctx, ActionView::SetRelease(release)),
        ),
{
    if ctx.deployment.release_path.deep_view() != Some(release) {
        activated_after_the_record(ctx, first, replies, release);
    }
}

/// The current link is switched to a release only after that release was validated, with the
/// migration behind it, and after the link was read.
pub proof fn a_validated_release_is_activated(
    ctx: Context,
    first: StepView,
    replies: Seq<ReplyView>,
    release: Seq<char>,
    target: Option<Seq<char>>,
)
    requires
        first_step(ctx, first),
        reached(ctx, first, replies) == StepView::Activate(
            Activate::SwitchTo { release, previous: target },
        ),
    ensures
        happened(ctx, first, replies, performed(ctx, ActionView::Validate(release))),
        happened(ctx, first, replies, performed(ctx, ActionView::SetActivation(target))),
        happened(ctx, first, replies, link_is_read(ctx, target)),
{
    activated_after_validation(ctx, first, replies, release);
    switched_after_the_record(ctx, first, replies, release, target);
    switched_after_reading(ctx, first, replies, release, target);
}

proof fn steps_to_a_switch(
    ctx: Context,
    step: StepView,
    reply: ReplyView,
    release: Seq<char>,
    target: Option<Seq<char>>,
)
    ensures
        switching_soon(next(ctx, step, reply)) && release_of(next(ctx, step, reply)) == Some(
            release,
        ) && !(switching_soon(step) && release_of(step) == Some(release)) ==> performed(
            ctx,
            ActionView::Validate(release),
        )(step, reply),
        next(ctx, step, reply) == StepView::Activate(
            Activate::SwitchTo { release, previous: target },
        ) ==> performed(ctx, ActionView::SetActivation(target))(step, reply) && step
            == StepView::Activate(Activate::RecordActivation { release, previous: target }),
        next(ctx, step, reply) == StepView::Activate(
            Activate::RecordActivation { release, previous: target },
        ) ==> link_is_read(ctx, target)(step, reply),
{
}

proof fn activated_after_validation(
    ctx: Context,
    first: StepView,
    replies: Seq<ReplyView>,
    release: Seq<char>,
)
    requires
        first_step(ctx, first),
        switching_soon(reached(ctx, first, replies)),
        release_of(reached(ctx, first, replies)) == Some(release),
    ensures
        happened(ctx, first, replies, performed(ctx, ActionView::Validate(release))),
    decreases replies.len(),
{
    if replies.len() > 0 {
        let before = replies.drop_last();
        let step = reached(ctx, first, before);
        let kind = performed(ctx, ActionView::Validate(release));
        what_occurred_stays(course(ctx, first), replies, kind);
        steps_to_a_switch(ctx, step, replies.last(), release, None);
        if switching_soon(step) && release_of(step) == Some(release) {
            activated_after_validation(ctx, first, before, release);
        }
    }
}

proof fn switched_after_the_record(
    ctx: Context,
    first: StepView,
    replies: Seq<ReplyView>,
    release: Seq<char>,
    target: Option<Seq<char>>,
)
    requires
        first_step(ctx, first),
        reached(ctx, first, replies) == StepView::Activate(
            Activate::SwitchTo { release, previous: target },
        ),
    ensures
        replies.len() > 0,
        reached(ctx, first, replies.drop_last()) == StepView::Activate(
            Activate::RecordActivation { release, previous: target },
        ),
        happened(ctx, first, replies, performed(ctx, ActionView::SetActivation(target))),
{
    let before = replies.drop_last();
    let kind = performed(ctx, ActionView::SetActivation(target));
    what_occurred_stays(course(ctx, first), replies, kind);
    steps_to_a_switch(ctx, reached(ctx, first, before), replies.last(), release, target);
}

proof fn switched_after_reading(
    ctx: Context,
    first: StepView,
    replies: Seq<ReplyView>,
    release: Seq<char>,
    target: Option<Seq<char>>,
)
    requires
        first_step(ctx, first),
        reached(ctx, first, replies) == StepView::Activate(
            Activate::SwitchTo { release, previous: target },
        ),
    ensures
        happened(ctx, first, replies, link_is_read(ctx, target)),
{
    let before = replies.drop_last();
    let earlier = before.drop_last();
    let kind = link_is_read(ctx, target);
    switched_after_the_record(ctx, first, replies, release, target);
    steps_to_a_switch(ctx, reached(ctx, first, earlier), before.last(), release, target);
    what_occurred_stays(course(ctx, first), before, kind);
    what_occurred_stays(course(ctx, first), replies, kind);
}

/// The current link of the project is found to point somewhere, or nowhere.
pub open spec fn link_is_read(ctx: Context, target: Option<Seq<char>>) -> spec_fn(
    StepView,
    ReplyView,
) -> bool {
    |step: StepView, reply: ReplyView|
        action(ctx, step) == ActionView::ReadCurrent(ctx.project.current_path@) && reply
            == ReplyView::Target(Ok(target))
}

/// Whether a step comes after the last validation of the release that is activated.
pub open spec fn switching_soon(step: StepView) -> bool {
    step matches Step::Activate(activate) && (activate is ReadCurrent || activate
        is RecordActivation || activate is SwitchTo)
}

/// The variables of an environment file are read.
pub open spec fn environment_is_read(
    ctx: Context,
    file: Seq<char>,
    environment: Seq<(Seq<char>, Seq<char>)>,
) -> spec_fn(StepView, ReplyView) -> bool {
    |step: StepView, reply: ReplyView|
        action(ctx, step) == ActionView::LoadEnvironment(file) && reply == ReplyView::Environment(
            Ok(environment),
        )
}

/// The variables that a step hands to Cargo or to the migration, where it does.
pub open spec fn environment_of(step: StepView) -> Option<Seq<(Seq<char>, Seq<char>)>> {
    match step {
        Step::Build { build: Build::Cargo { environment }, .. } => Some(environment),
        Step::Activate(Activate::Migrate { environment, .. }) => Some(environment),
        _ => None,
    }
}

spec fn environment_fits(ctx: Context, step: StepView) -> bool {
    match step {
        Step::Build { build: Build::LoadEnvironment { file }, .. } => ctx.environment_file()
            == Some(file),
        Step::Activate(Activate::LoadEnvironment { file, .. }) => ctx.environment_file() == Some(
            file,
        ),
        _ => environment_of(step) matches Some(environment) ==> (ctx.environment_file() is None
            ==> environment.len() == 0),
    }
}

proof fn environments_fit(ctx: Context, first: StepView, replies: Seq<ReplyView>)
    requires
        first_step(ctx, first),
    ensures
        environment_fits(ctx, reached(ctx, first, replies)),
    decreases replies.len(),
{
    if replies.len() > 0 {
        environments_fit(ctx, first, replies.drop_last());
    }
}

/// Cargo and the migration get exactly the variables that were read from the environment file of
/// the project, and none where it has no such file.
pub proof fn commands_get_the_environment(
    ctx: Context,
    first: StepView,
    replies: Seq<ReplyView>,
    environment: Seq<(Seq<char>, Seq<char>)>,
)
    requires
        first_step(ctx, first),
        environment_of(reached(ctx, first, replies)) == Some(environment),
    ensures
        match ctx.environment_file() {
            None => environment.len() == 0,
            Some(file) => happened(ctx, first, replies, environment_is_read(ctx, file, environment)),
        },
    decreases replies.len(),
{
    environments_fit(ctx, first, replies);
    if let Some(file) = ctx.environment_file() {
        if replies.len() > 0 {
            let before = replies.drop_last();
            environments_fit(ctx, first, before);
            what_occurred_stays(
                course(ctx, first),
                replies,
                environment_is_read(ctx, file, environment),
            );
            if environment_of(reached(ctx, first, before)) == Some(environment) {
                commands_get_the_environment(ctx, first, before, environment);
            } else {
                only_reading_gives_variables(
                    ctx,
                    reached(ctx, first, before),
                    replies.last(),
                    file,
                    environment,
                );
            }
        }
    }
}

proof fn only_reading_gives_variables(
    ctx: Context,
    step: StepView,
    reply: ReplyView,
    file: Seq<char>,
    environment: Seq<(Seq<char>, Seq<char>)>,
)
    requires
        ctx.environment_file() == Some(file),
        environment_fits(ctx, step),
        environment_of(step) != Some(environment),
        environment_of(next(ctx, step, reply)) == Some(environment),
    ensures
        environment_is_read(ctx, file, environment)(step, reply),
{
}

/// The state that a run has recorded when it is at a step, beyond the one that it began with.
pub open spec fn status_behind(step: StepView) -> Option<DeploymentStatus> {
    match step {
        Step::Prepare(prepare) => match prepare {
            Prepare::CreateMirrorParent { .. } | Prepare::CheckMirror | Prepare::ReadOrigin
            | Prepare::InitMirror | Prepare::AddOrigin | Prepare::CheckTagRef
            | Prepare::Fetch { .. } | Prepare::FetchPause { .. } | Prepare::ResolveTag
            | Prepare::ResolveCommit => Some(DeploymentStatus::Fetching),
            Prepare::PruneWorktrees { .. } | Prepare::CheckWorktree { .. }
            | Prepare::CreateWorktreeParent { .. } | Prepare::AddWorktree { .. } => Some(
                DeploymentStatus::Building,
            ),
            _ => None,
        },
        Step::Build { .. } => Some(DeploymentStatus::Building),
        Step::Activate(activate) => match activate {
            Activate::LoadEnvironment { .. } | Activate::Migrate { .. } => Some(
                DeploymentStatus::Migrating,
            ),
            _ => None,
        },
        Step::Check(Check::Probe { purpose, .. }) | Step::Check(
            Check::ProbePause { purpose, .. },
        ) => match purpose {
            Purpose::Forward { .. } => Some(DeploymentStatus::HealthChecking),
            Purpose::Back { .. } => Some(DeploymentStatus::RollingBack),
            Purpose::Resume => None,
        },
        Step::Check(Check::Reload { purpose, .. }) => if purpose is Back {
            Some(DeploymentStatus::RollingBack)
        } else {
            None
        },
        Step::Back(Back::ValidatePrevious { .. }) | Step::Back(Back::SwitchBack { .. }) => Some(
            DeploymentStatus::RollingBack,
        ),
        _ => None,
    }
}

proof fn statuses_come_from_records(
    ctx: Context,
    step: StepView,
    reply: ReplyView,
    status: DeploymentStatus,
)
    requires
        status_behind(step) != Some(status),
        status_behind(next(ctx, step, reply)) == Some(status),
    ensures
        performed(ctx, ActionView::SetStatus(status))(step, reply) || (status is Building && (
        step matches Step::RemoveWorktree { why, .. } && why is Replace)),
{
}

/// A deployment is recorded as being fetched, migrated, checked or rolled back before that is
/// done: it never fetches, migrates, probes or switches back in a state that says otherwise.
pub proof fn states_are_recorded_first(
    ctx: Context,
    first: StepView,
    replies: Seq<ReplyView>,
    status: DeploymentStatus,
)
    requires
        first_step(ctx, first),
        !(status is Building),
        status_behind(reached(ctx, first, replies)) == Some(status),
    ensures
        happened(ctx, first, replies, performed(ctx, ActionView::SetStatus(status))),
    decreases replies.len(),
{
    if replies.len() > 0 {
        let before = replies.drop_last();
        let step = reached(ctx, first, before);
        what_occurred_stays(
            course(ctx, first),
            replies,
            performed(ctx, ActionView::SetStatus(status)),
        );
        if status_behind(step) == Some(status) {
            states_are_recorded_first(ctx, first, before, status);
        } else {
            statuses_come_from_records(ctx, step, replies.last(), status);
        }
    }
}

/// A reload command of an activation, or else of a rollback, succeeds.
pub open spec fn reload_succeeds(ctx: Context, index: int, activation: bool) -> spec_fn(
    StepView,
    ReplyView,
) -> bool {
    |step: StepView, reply: ReplyView|
        (step matches Step::Check(Check::Reload { purpose, .. }) && serves(purpose, activation))
            && action(ctx, step) == ActionView::Run(
            configured(ctx.project.reload@[index], None, Seq::empty()),
        ) && succeeded(reply)
}

/// How many reload commands have succeeded before a step of an activation, or else of a rollback.
spec fn reloads_behind(ctx: Context, step: StepView, activation: bool) -> int {
    match step {
        Step::Check(Check::Reload { index, purpose }) => if serves(purpose, activation) {
            index as int
        } else {
            0
        },
        Step::Check(Check::MarkHealthChecking { .. }) => if activation {
            ctx.project.reload.len() as int
        } else {
            0
        },
        Step::Check(Check::Probe { purpose, .. }) | Step::Check(
            Check::ProbePause { purpose, .. },
        ) => if serves(purpose, activation) {
            ctx.project.reload.len() as int
        } else {
            0
        },
        _ => 0,
    }
}

proof fn a_reload_more(
    ctx: Context,
    step: StepView,
    reply: ReplyView,
    activation: bool,
    index: int,
)
    requires
        sound(ctx, step),
        0 <= index < reloads_behind(ctx, next(ctx, step, reply), activation),
    ensures
        index < reloads_behind(ctx, step, activation) || reload_succeeds(ctx, index, activation)(
            step,
            reply,
        ),
{
}

/// A release is probed only after every reload command of the project has succeeded since it was
/// switched to: those of the activation for the new release, and those of the rollback for the
/// previous one.
pub proof fn every_reload_comes_before_the_probes(
    ctx: Context,
    first: StepView,
    replies: Seq<ReplyView>,
    attempt: u32,
    purpose: Purpose<Seq<char>, AppErrorView>,
    index: int,
)
    requires
        first_step(ctx, first),
        reached(ctx, first, replies) == StepView::Check(Check::Probe { attempt, purpose }),
        0 <= index < ctx.project.reload@.len(),
    ensures
        happened(ctx, first, replies, reload_succeeds(ctx, index, purpose is Forward)),
{
    reloads_so_far(ctx, first, replies, purpose is Forward, index);
}

proof fn reloads_so_far(
    ctx: Context,
    first: StepView,
    replies: Seq<ReplyView>,
    activation: bool,
    index: int,
)
    requires
        first_step(ctx, first),
        0 <= index < reloads_behind(ctx, reached(ctx, first, replies), activation),
    ensures
        happened(ctx, first, replies, reload_succeeds(ctx, index, activation)),
    decreases replies.len(),
{
    if replies.len() > 0 {
        let before = replies.drop_last();
        let step = reached(ctx, first, before);
        reached_steps_are_sound(ctx, first, before);
        what_occurred_stays(
            course(ctx, first),
            replies,
            reload_succeeds(ctx, index, activation),
        );
        a_reload_more(ctx, step, replies.last(), activation, index);
        if index < reloads_behind(ctx, step, activation) {
            reloads_so_far(ctx, first, before, activation, index);
        }
    }
}

/// The purpose that a step reloads or probes for, where it does.
pub open spec fn purpose_of(step: StepView) -> Option<Purpose<Seq<char>, AppErrorView>> {
    match step {
        Step::Check(Check::Reload { purpose, .. }) => Some(purpose),
        Step::Check(Check::MarkHealthChecking { previous }) => Some(Purpose::Forward { previous }),
        Step::Check(Check::Probe { purpose, .. }) => Some(purpose),
        Step::Check(Check::ProbePause { purpose, .. }) => Some(purpose),
        _ => None,
    }
}

/// The current link of the project is found to point to a release.
pub open spec fn link_found_at(ctx: Context, release: Seq<char>) -> spec_fn(
    StepView,
    ReplyView,
) -> bool {
    |step: StepView, reply: ReplyView|
        action(ctx, step) == ActionView::ReadCurrent(ctx.project.current_path@) && (
        reply matches Reply::Target(Ok(Some(target))) && same_parts(target, release))
}

/// The current link of the project is switched to a release.
pub open spec fn link_switched_to(ctx: Context, release: Seq<char>) -> spec_fn(
    StepView,
    ReplyView,
) -> bool {
    performed(ctx, ActionView::SwitchCurrent { current: ctx.project.current_path@, release })
}

/// The current link comes to lead to the release that is reloaded and probed for a purpose: it is
/// switched there, or is found to point there already.
pub open spec fn link_leads_to(ctx: Context, purpose: Purpose<Seq<char>, AppErrorView>) -> spec_fn(
    StepView,
    ReplyView,
) -> bool {
    |step: StepView, reply: ReplyView|
        match purpose {
            Purpose::Forward { .. } => {
                ||| (release_of(step) matches Some(release) && link_switched_to(ctx, release)(
                    step,
                    reply,
                ))
                ||| (ctx.deployment.release_path.deep_view() matches Some(release)
                    && link_found_at(ctx, release)(step, reply))
            },
            Purpose::Back { .. } => way_back(step) matches Some(Some(previous))
                && link_switched_to(ctx, previous)(step, reply),
            Purpose::Resume => ctx.deployment.previous_release_path.deep_view() matches Some(
                previous,
            ) && (link_switched_to(ctx, previous)(step, reply) || link_found_at(ctx, previous)(
                step,
                reply,
            )),
        }
}

spec fn resumes_what_was_recorded(ctx: Context, step: StepView) -> bool {
    match step {
        Step::Back(Back::ReadRollback { previous }) | Step::Back(
            Back::SwitchResumed { previous },
        ) => ctx.deployment.previous_release_path.deep_view() == Some(previous),
        _ => true,
    }
}

proof fn resumed_steps_go_where_was_recorded(
    ctx: Context,
    first: StepView,
    replies: Seq<ReplyView>,
)
    requires
        first_step(ctx, first),
    ensures
        resumes_what_was_recorded(ctx, reached(ctx, first, replies)),
    decreases replies.len(),
{
    if replies.len() > 0 {
        resumed_steps_go_where_was_recorded(ctx, first, replies.drop_last());
    }
}

proof fn only_a_link_leads_to_checks(
    ctx: Context,
    step: StepView,
    reply: ReplyView,
    purpose: Purpose<Seq<char>, AppErrorView>,
)
    requires
        resumes_what_was_recorded(ctx, step),
        purpose_of(step) != Some(purpose),
        purpose_of(next(ctx, step, reply)) == Some(purpose),
    ensures
        link_leads_to(ctx, purpose)(step, reply),
{
}

/// Nothing is reloaded or probed before the current link leads to the release that is meant: to
/// the new release in an activation, to the previous one in a rollback.
pub proof fn the_link_is_switched_before_the_checks(
    ctx: Context,
    first: StepView,
    replies: Seq<ReplyView>,
    purpose: Purpose<Seq<char>, AppErrorView>,
)
    requires
        first_step(ctx, first),
        purpose_of(reached(ctx, first, replies)) == Some(purpose),
    ensures
        happened(ctx, first, replies, link_leads_to(ctx, purpose)),
    decreases replies.len(),
{
    if replies.len() > 0 {
        let before = replies.drop_last();
        let step = reached(ctx, first, before);
        resumed_steps_go_where_was_recorded(ctx, first, before);
        what_occurred_stays(course(ctx, first), replies, link_leads_to(ctx, purpose));
        if purpose_of(step) == Some(purpose) {
            the_link_is_switched_before_the_checks(ctx, first, before, purpose);
        } else {
            only_a_link_leads_to_checks(ctx, step, replies.last(), purpose);
        }
    }
}

/// A build that fails is undone: a step of it that fails after its directory was made leads, with
/// the build directory of Cargo removed where there is one, to the removal of what was made, and
/// the failure is what the run ends with once that and the removal of the worktree are done.
pub proof fn a_failed_build_is_undone(
    ctx: Context,
    commit: Seq<char>,
    parent: Seq<char>,
    build: Build<Seq<char>, AppErrorView, Seq<(Seq<char>, Seq<char>)>>,
    failure: AppErrorView,
    reply: ReplyView,
    printed: Seq<char>,
)
    requires
        match build {
            Build::CopyTree | Build::CopyPrebuilt | Build::ClearTarget | Build::CreateTarget
            | Build::CopyBinary { .. } | Build::CopyInclude { .. } | Build::Validate
            | Build::Publish | Build::Sync => reply == ReplyView::Done(Err(failure)),
            Build::RemoveTarget { outcome } => outcome is None && reply == ReplyView::Done(
                Err(failure),
            ),
            Build::Cargo { .. } => reply == ReplyView::Output(Err(failure)),
            Build::LoadEnvironment { .. } => reply == ReplyView::Environment(Err(failure)),
            _ => false,
        },
    ensures
        ({
            let done = ReplyView::Done(Ok(()));
            let failed = next(ctx, StepView::Build { commit, parent, build }, reply);
            let in_target = build is Cargo || build is CopyBinary || build is CopyInclude;
            let undoing = if in_target {
                next(ctx, failed, done)
            } else {
                failed
            };
            &&& in_target ==> action(ctx, failed) == ActionView::RemoveDirectory(ctx.target())
            &&& action(ctx, undoing) == ActionView::RemoveDirectory(
                if build is Sync {
                    ctx.release(commit)
                } else {
                    ctx.temporary(parent)
                },
            )
            &&& action(ctx, next(ctx, undoing, done)) == ActionView::Run(ctx.remove_worktree())
            &&& next(ctx, next(ctx, undoing, done), ReplyView::Output(Ok(printed)))
                == StepView::Finished(Some(failure))
        }),
{
}

/// The kind of reply that an action asks for.
pub open spec fn answers(action: ActionView, reply: ReplyView) -> bool {
    match action {
        Action::Run(_) => reply is Output,
        Action::Exists(_) | Action::IsFile(_) => reply is Flag,
        Action::ReadCurrent(_) => reply is Target,
        Action::LoadEnvironment(_) => reply is Environment,
        Action::RetainedPaths => reply is Paths,
        Action::Pause { .. } => reply is Elapsed,
        _ => reply is Done,
    }
}

/// A reply of another kind than the action asks for ends the run with an error, and nothing else
/// is done.
pub proof fn only_fitting_replies_lead_on(ctx: Context, step: StepView, reply: ReplyView)
    requires
        sound(ctx, step),
        !(step is Finished),
        !answers(action(ctx, step), reply),
    ensures
        next(ctx, step, reply) matches Step::Finished(error) && error is Some,
{
}

/// Whether a reply reports a failure.
pub open spec fn failure_in(reply: ReplyView) -> Option<AppErrorView> {
    match reply {
        Reply::Done(Err(error)) => Some(error),
        Reply::Output(Err(error)) => Some(error),
        Reply::Target(Err(error)) => Some(error),
        Reply::Environment(Err(error)) => Some(error),
        Reply::Paths(Err(error)) => Some(error),
        _ => None,
    }
}

/// A failure while a release is prepared, migrated to or switched to, and one while the end of a
/// deployment is recorded, ends the run with that failure; only a fetch may be tried again.
pub proof fn failures_before_the_checks_end_the_run(
    ctx: Context,
    step: StepView,
    reply: ReplyView,
    failure: AppErrorView,
)
    requires
        sound(ctx, step),
        step is Prepare || step is Activate || step is Close,
        answers(action(ctx, step), reply),
        failure_in(reply) == Some(failure),
        !(step matches Step::Prepare(Prepare::Fetch { .. })),
    ensures
        next(ctx, step, reply) == StepView::Finished(Some(failure)),
{
}

/// Where the service was interrupted during an activation, it is seen where the current link
/// points: where it leads to the release, that release is reloaded and probed; where it leads to
/// what was current before, the deployment has failed; elsewhere the deployment is rolled back to
/// what was current before.
pub proof fn an_interrupted_activation_goes_by_the_link(
    ctx: Context,
    original: Seq<char>,
    current: Option<Seq<char>>,
    release: Seq<char>,
)
    requires
        ctx.deployment.release_path.deep_view() == Some(release),
    ensures
        ({
            let begun = resume_activation(ctx, original);
            let then = next(ctx, begun, ReplyView::Target(Ok(current)));
            let previous = ctx.deployment.previous_release_path.deep_view();
            let at_release = current matches Some(target) && same_parts(target, release);
            let at_previous = match (current, previous) {
                (Some(target), Some(path)) => same_parts(target, path),
                (None, None) => true,
                _ => false,
            };
            &&& action(ctx, begun) == ActionView::ReadCurrent(ctx.project.current_path@)
            &&& at_release <==> purpose_of(then) == Some(
                Purpose::<Seq<char>, AppErrorView>::Forward { previous },
            )
            &&& !at_release && at_previous <==> action(ctx, then) == (ActionView::MarkFailed {
                code: "activationInterrupted"@,
                message: original,
            })
            &&& !at_release && !at_previous <==> (then matches Step::Back(
                Back::MarkRollingBack { previous: target, .. },
            ) && target == previous)
        }),
{
}

/// A deployment is begun, or taken up again, by the state that it is recorded in: before its
/// activation it starts anew with the fetch, or with its release where it is a rollback or was
/// being migrated; in its activation the current link is read; in a rollback likewise; and one
/// that has ended is not processed.
pub proof fn a_run_begins_by_the_recorded_state(ctx: Context)
    ensures
        ({
            let release = ctx.deployment.release_path.deep_view();
            let previous = ctx.deployment.previous_release_path.deep_view();
            let back = ctx.deployment.kind is Rollback;
            match ctx.deployment.status {
                DeploymentStatus::Queued | DeploymentStatus::Fetching
                | DeploymentStatus::Building => if !back {
                    action(ctx, start(ctx)) == ActionView::SetStatus(DeploymentStatus::Fetching)
                } else {
                    match release {
                        Some(release) => release_of(start(ctx)) == Some(release) && action(
                            ctx,
                            start(ctx),
                        ) == ActionView::Validate(release) && (next(
                            ctx,
                            start(ctx),
                            ReplyView::Done(Ok(())),
                        ) matches Step::Activate(Activate::ReadCurrent { .. })),
                        None => start(ctx) matches Step::Finished(error) && error is Some,
                    }
                },
                DeploymentStatus::Migrating => match (back, release) {
                    (false, Some(release)) => release_of(start(ctx)) == Some(release) && action(
                        ctx,
                        start(ctx),
                    ) == ActionView::Validate(release) && (next(
                        ctx,
                        start(ctx),
                        ReplyView::Done(Ok(())),
                    ) matches Step::Activate(Activate::MarkMigrating { .. })
                        <==> ctx.project.migration is Some),
                    _ => start(ctx) matches Step::Finished(error) && error is Some,
                },
                DeploymentStatus::Activating | DeploymentStatus::HealthChecking => match release {
                    Some(_) => start(ctx) matches Step::Back(Back::ReadInterrupted { .. }),
                    None => start(ctx) matches Step::Finished(error) && error is Some,
                },
                DeploymentStatus::RollingBack => match previous {
                    Some(previous) => start(ctx) == StepView::Back(Back::ReadRollback { previous }),
                    None => start(ctx) matches Step::Close(Close::MarkRollbackFailed { .. }),
                },
                _ => start(ctx) matches Step::Finished(error) && error is Some,
            }
        }),
{
}

/// The failure that a rollback is about, where a step belongs to one.
pub open spec fn cause_of(step: StepView) -> Option<AppErrorView> {
    match step {
        Step::Back(Back::MarkRollingBack { error, .. }) => Some(error),
        Step::Back(Back::ValidatePrevious { error, .. }) => Some(error),
        Step::Back(Back::SwitchBack { error, .. }) => Some(error),
        _ => match purpose_of(step) {
            Some(Purpose::Back { error }) => Some(error),
            _ => None,
        },
    }
}

/// Where a project allows an attempt to probe, a rollback is about the failure that it follows:
/// what a reload or a probe of the activated release failed with, or that the current link was
/// found astray. It keeps that cause to its end, and the deployment is recorded as failed with the
/// code of it once the previous release has answered.
pub proof fn rollbacks_report_their_cause(
    ctx: Context,
    step: StepView,
    reply: ReplyView,
    cause: AppErrorView,
)
    requires
        sound(ctx, step),
        ctx.project.health_check.attempts > 0,
    ensures
        cause_of(next(ctx, step, reply)) == Some(cause) ==> cause_of(step) == Some(cause) || (
        cause_of(step) is None && (failure_in(reply) == Some(cause) && (purpose_of(
            step,
        ) matches Some(purpose) && purpose is Forward) || (step matches Step::Back(
            Back::ReadInterrupted { .. },
        ) && cause is InvalidState))),
        cause_of(step) == Some(cause) && cause_of(next(ctx, step, reply)) is None ==> (match next(
            ctx,
            step,
            reply,
        ) {
            Step::Close(Close::MarkFailed { code, message }) => done(reply) && code == cause.code()
                && message == "deployment failed and was rolled back successfully: "@
                + cause.message(),
            Step::Close(Close::MarkRollbackFailed { reason }) => reason == "deployment failed with "@
                + cause.message() + (match failure_in(reply) {
                Some(failure) => "; rollback also failed with "@ + failure.message(),
                None => "; no previous release exists for rollback"@,
            }),
            Step::Finished(error) => error is Some,
            _ => false,
        }),
{
}

proof fn only_resolving_gives_a_commit(
    ctx: Context,
    step: StepView,
    reply: ReplyView,
    commit: Seq<char>,
)
    requires
        commit_of(step) != Some(commit),
        commit_of(next(ctx, step, reply)) == Some(commit),
    ensures
        commit_is_resolved(ctx, commit)(step, reply),
{
}

proof fn only_recording_leads_on(
    ctx: Context,
    step: StepView,
    reply: ReplyView,
    commit: Seq<char>,
)
    requires
        !past_recording(step, commit),
        past_recording(next(ctx, step, reply), commit),
    ensures
        performed(ctx, ActionView::SetResolvedCommit(commit))(step, reply),
{
}

/// Whether a step works on a commit that was recorded.
spec fn past_recording(step: StepView, commit: Seq<char>) -> bool {
    commit_of(step) == Some(commit) && !(step matches Step::Prepare(Prepare::RecordCommit { .. }))
}

proof fn only_a_worktree_leads_to_builds(
    ctx: Context,
    step: StepView,
    reply: ReplyView,
    commit: Seq<char>,
)
    requires
        !builds_commit(step, commit),
        builds_commit(next(ctx, step, reply), commit),
    ensures
        ran(ctx, ctx.add_worktree(commit))(step, reply),
{
}

/// Whether a step builds a commit.
spec fn builds_commit(step: StepView, commit: Seq<char>) -> bool {
    step matches Step::Build { commit: same, .. } && same == commit
}

proof fn only_a_record_leads_to_builds(ctx: Context, step: StepView, reply: ReplyView)
    requires
        !building(step),
        building(next(ctx, step, reply)),
    ensures
        performed(ctx, ActionView::SetStatus(DeploymentStatus::Building))(step, reply),
{
}

proof fn only_a_record_leads_to_activation(
    ctx: Context,
    step: StepView,
    reply: ReplyView,
    release: Seq<char>,
)
    requires
        release_of(step) != Some(release),
        release_of(next(ctx, step, reply)) == Some(release),
    ensures
        performed(ctx, ActionView::SetRelease(release))(step, reply),
{
}

proof fn activated_after_the_record(
    ctx: Context,
    first: StepView,
    replies: Seq<ReplyView>,
    release: Seq<char>,
)
    requires
        first_step(ctx, first),
        release_of(first) != Some(release),
        release_of(reached(ctx, first, replies)) == Some(release),
    ensures
        happened(ctx, first, replies, performed(ctx, ActionView::SetRelease(release))),
    decreases replies.len(),
{
    let before = replies.drop_last();
    let step = reached(ctx, first, before);
    let kind = performed(ctx, ActionView::SetRelease(release));
    what_occurred_stays(course(ctx, first), replies, kind);
    if release_of(step) == Some(release) {
        activated_after_the_record(ctx, first, before, release);
    } else {
        only_a_record_leads_to_activation(ctx, step, replies.last(), release);
    }
}

} // verus!
