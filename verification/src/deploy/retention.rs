//! Which releases a run removes after it has succeeded, and which it keeps.
use vstd::prelude::*;

#[allow(unused_imports)]
use crate::deploy::laws::{
    reached, retention_spares_the_current_release, sound, steps_stay_sound,
};
#[allow(unused_imports)]
use crate::deploy::place::Context;
#[allow(unused_imports)]
use crate::deploy::plan::{action, next, retire, retired, surplus};
#[allow(unused_imports)]
use crate::deploy::step::{Action, ActionView, Close, Reply, ReplyView, Step, StepView};
#[allow(unused_imports)]
use crate::error::AppErrorView;
#[allow(unused_imports)]
use crate::path::{parent_of, same_parts};

verus! {

/// Whether a path is where the current link points.
pub open spec fn is_current(current: Option<Seq<char>>, path: Seq<char>) -> bool {
    current matches Some(target) && same_parts(target, path)
}

/// Whether a path stands in the directory of the releases of the project.
pub open spec fn is_release(ctx: Context, path: Seq<char>) -> bool {
    parent_of(path) matches Some(parent) && same_parts(parent, ctx.releases())
}

/// The step after the release paths were listed.
pub open spec fn listed(
    ctx: Context,
    current: Option<Seq<char>>,
    list: Seq<Seq<char>>,
) -> StepView {
    next(ctx, StepView::Close(Close::ListRetained { current }), ReplyView::Paths(Ok(list)))
}

/// So many replies that something was done.
pub open spec fn all_done(count: nat) -> Seq<ReplyView> {
    Seq::new(count, |i: int| ReplyView::Done(Ok(())))
}

proof fn retired_paths_are_surplus(ctx: Context, current: Option<Seq<char>>, list: Seq<Seq<char>>)
    ensures
        forall|k: int|
            0 <= k < retired(
                surplus(list, ctx.project.retain_releases),
                current,
                ctx.releases(),
            ).0.len() ==> may_be_removed(
                ctx,
                current,
                list,
                #[trigger] retired(
                    surplus(list, ctx.project.retain_releases),
                    current,
                    ctx.releases(),
                ).0[k],
            ),
{
    let beyond = surplus(list, ctx.project.retain_releases);
    let gone = retired(beyond, current, ctx.releases()).0;
    retention_spares_the_current_release(beyond, current, ctx.releases());
    assert forall|k: int| 0 <= k < gone.len() implies may_be_removed(
        ctx,
        current,
        list,
        #[trigger] gone[k],
    ) by {
        assert(beyond.contains(gone[k]));
        let j = choose|j: int| 0 <= j < beyond.len() && beyond[j] == gone[k];
        assert(list[j + ctx.project.retain_releases] == gone[k]);
    }
}

/// Whether a path may be removed for retention: it is listed beyond as many paths as the project
/// retains, is not where the current link points, and stands in the directory of the releases.
pub open spec fn may_be_removed(
    ctx: Context,
    current: Option<Seq<char>>,
    list: Seq<Seq<char>>,
    path: Seq<char>,
) -> bool {
    &&& exists|i: int| ctx.project.retain_releases <= i < list.len() && #[trigger] list[i] == path
    &&& !is_current(current, path)
    &&& is_release(ctx, path)
}

proof fn retirement_goes_on(
    ctx: Context,
    paths: Seq<Seq<char>>,
    first: StepView,
    replies: Seq<ReplyView>,
)
    requires
        first is Finished || (first matches Step::Close(Close::Retire { paths: same, .. }) && same
            == paths),
    ensures
        reached(ctx, first, replies) is Finished || (reached(ctx, first, replies) matches Step::Close(
            Close::Retire { paths: same, .. },
        ) && same == paths),
    decreases replies.len(),
{
    if replies.len() > 0 {
        retirement_goes_on(ctx, paths, first, replies.drop_last());
    }
}

/// Of the listed release paths, newest first, as many as the project retains are kept: whatever
/// is replied, only a path that is listed beyond them is removed, and neither where the current
/// link points nor anything outside of the directory of the releases. Nothing else is done.
pub proof fn retention_keeps_the_newest(
    ctx: Context,
    current: Option<Seq<char>>,
    list: Seq<Seq<char>>,
    replies: Seq<ReplyView>,
)
    ensures
        ({
            let step = reached(ctx, listed(ctx, current, list), replies);
            &&& step is Finished || action(ctx, step) is RemoveDirectory
            &&& action(ctx, step) matches Action::RemoveDirectory(path) ==> {
                &&& exists|i: int|
                    ctx.project.retain_releases <= i < list.len() && #[trigger] list[i] == path
                &&& !is_current(current, path)
                &&& is_release(ctx, path)
                &&& list.no_duplicates() ==> forall|k: int|
                    0 <= k < list.len() && k < ctx.project.retain_releases ==> #[trigger] list[k]
                        != path
            }
        }),
{
    let begun = listed(ctx, current, list);
    let (gone, refusal) = retired(
        surplus(list, ctx.project.retain_releases),
        current,
        ctx.releases(),
    );
    retirement_goes_on(ctx, gone, begun, replies);
    retirement_stays_in_range(ctx, begun, replies);
    retired_paths_are_surplus(ctx, current, list);
    let step = reached(ctx, begun, replies);
    if let Step::Close(Close::Retire { index, .. }) = step {
        assert(may_be_removed(ctx, current, list, gone[index as int]));
    }
}

proof fn retirement_stays_in_range(ctx: Context, first: StepView, replies: Seq<ReplyView>)
    requires
        sound(ctx, first),
    ensures
        sound(ctx, reached(ctx, first, replies)),
    decreases replies.len(),
{
    if replies.len() > 0 {
        retirement_stays_in_range(ctx, first, replies.drop_last());
        steps_stay_sound(ctx, reached(ctx, first, replies.drop_last()), replies.last());
    }
}

proof fn retired_until_a_refusal(
    paths: Seq<Seq<char>>,
    current: Option<Seq<char>>,
    root: Seq<char>,
    count: int,
)
    requires
        0 <= count <= paths.len(),
        forall|j: int|
            0 <= j < count ==> is_current(current, #[trigger] paths[j]) || (parent_of(
                paths[j],
            ) matches Some(parent) && same_parts(parent, root)),
    ensures
        count == paths.len() ==> retired(paths, current, root).1 is None,
        retired(paths, current, root).0.len() <= paths.len(),
        forall|j: int|
            0 <= j < count && !is_current(current, #[trigger] paths[j]) ==> retired(
                paths,
                current,
                root,
            ).0.contains(paths[j]),
        (count < paths.len() && !is_current(current, paths[count]) && !(parent_of(
            paths[count],
        ) matches Some(parent) && same_parts(parent, root))) ==> retired(paths, current, root).1
            is Some,
    decreases paths.len(),
{
    if paths.len() > 0 {
        let before = paths.drop_last();
        let earlier = retired(before, current, root).0;
        let kept = retired(paths, current, root).0;
        let fewer = if count < paths.len() {
            count
        } else {
            count - 1
        };
        assert forall|j: int| 0 <= j < fewer implies is_current(current, #[trigger] before[j]) || (
        parent_of(before[j]) matches Some(parent) && same_parts(parent, root)) by {
            assert(before[j] == paths[j]);
        }
        retired_until_a_refusal(before, current, root, fewer);
        assert forall|j: int|
            0 <= j < count && !is_current(current, #[trigger] paths[j]) implies kept.contains(
            paths[j],
        ) by {
            if j < before.len() {
                assert(before[j] == paths[j]);
                assert(earlier.contains(before[j]));
                let k = choose|k: int| 0 <= k < earlier.len() && earlier[k] == before[j];
                assert(kept[k] == paths[j]);
            } else {
                assert(kept[kept.len() - 1] == paths[j]);
            }
        }
        if count < before.len() {
            assert(before[count] == paths[count]);
        }
    }
}

proof fn retirement_reaches(
    ctx: Context,
    paths: Seq<Seq<char>>,
    refusal: Option<AppErrorView>,
    count: nat,
)
    requires
        paths.len() <= usize::MAX,
    ensures
        reached(ctx, retire(paths, 0, refusal), all_done(count)) == (if count < paths.len() {
            StepView::Close(Close::Retire { paths, index: count as usize, refusal })
        } else {
            StepView::Finished(refusal)
        }),
    decreases count,
{
    if count > 0 {
        let fewer = (count - 1) as nat;
        retirement_reaches(ctx, paths, refusal, fewer);
        assert(all_done(count).drop_last() =~= all_done(fewer));
        assert(all_done(count).last() == ReplyView::Done(Ok(())));
    }
}

/// Every listed release path beyond those that the project retains, unless the current link
/// points there, is removed where each removal is done; only a path outside of the directory of
/// the releases that is listed before it can keep it. The run then ends, with an error if and
/// only if there is such a path.
pub proof fn surplus_releases_are_removed(
    ctx: Context,
    current: Option<Seq<char>>,
    list: Seq<Seq<char>>,
)
    requires
        list.len() <= usize::MAX,
    ensures
        forall|i: int|
            ctx.project.retain_releases <= i < list.len() && !is_current(
                current,
                #[trigger] list[i],
            ) && (forall|j: int|
                ctx.project.retain_releases <= j <= i ==> is_current(current, #[trigger] list[j])
                    || is_release(ctx, list[j])) ==> exists|count: nat|
                action(ctx, #[trigger] reached(ctx, listed(ctx, current, list), all_done(count)))
                    == ActionView::RemoveDirectory(list[i]),
        reached(ctx, listed(ctx, current, list), all_done(list.len())) matches Step::Finished(
            refusal,
        ) && (refusal is Some <==> exists|j: int|
            ctx.project.retain_releases <= j < list.len() && !is_current(
                current,
                #[trigger] list[j],
            ) && !is_release(ctx, list[j])),
{
    let retain = ctx.project.retain_releases as int;
    let beyond = surplus(list, ctx.project.retain_releases);
    let (gone, refusal) = retired(beyond, current, ctx.releases());
    let begun = listed(ctx, current, list);
    retired_until_a_refusal(beyond, current, ctx.releases(), 0);
    assert(begun == retire(gone, 0, refusal));
    assert forall|i: int|
        retain <= i < list.len() && !is_current(current, #[trigger] list[i]) && (forall|j: int|
            retain <= j <= i ==> is_current(current, #[trigger] list[j]) || is_release(
                ctx,
                list[j],
            )) implies exists|count: nat|
        action(ctx, #[trigger] reached(ctx, begun, all_done(count)))
            == ActionView::RemoveDirectory(list[i]) by {
        assert forall|j: int| 0 <= j < i - retain + 1 implies is_current(
            current,
            #[trigger] beyond[j],
        ) || is_release(ctx, beyond[j]) by {
            assert(beyond[j] == list[j + retain]);
        }
        retired_until_a_refusal(beyond, current, ctx.releases(), i - retain + 1);
        assert(beyond[i - retain] == list[i]);
        let k = choose|k: int| 0 <= k < gone.len() && gone[k] == list[i];
        retirement_reaches(ctx, gone, refusal, k as nat);
        assert(action(ctx, reached(ctx, begun, all_done(k as nat)))
            == ActionView::RemoveDirectory(list[i]));
    }
    retirement_reaches(ctx, gone, refusal, list.len());
    refusals_name_strays(ctx, current, list);
}

proof fn refusals_name_strays(ctx: Context, current: Option<Seq<char>>, list: Seq<Seq<char>>)
    ensures
        retired(surplus(list, ctx.project.retain_releases), current, ctx.releases()).1 is Some
            <==> exists|j: int|
            ctx.project.retain_releases <= j < list.len() && !is_current(
                current,
                #[trigger] list[j],
            ) && !is_release(ctx, list[j]),
{
    let retain = ctx.project.retain_releases as int;
    let beyond = surplus(list, ctx.project.retain_releases);
    if exists|j: int|
        retain <= j < list.len() && !is_current(current, #[trigger] list[j]) && !is_release(
            ctx,
            list[j],
        ) {
        let j = choose|j: int|
            retain <= j < list.len() && !is_current(current, #[trigger] list[j]) && !is_release(
                ctx,
                list[j],
            );
        assert(beyond[j - retain] == list[j]);
        a_stray_is_refused(beyond, current, ctx.releases(), j - retain);
    } else {
        assert forall|j: int| 0 <= j < beyond.len() implies is_current(current, #[trigger] beyond[j])
            || is_release(ctx, beyond[j]) by {
            assert(beyond[j] == list[j + retain]);
        }
        retired_until_a_refusal(beyond, current, ctx.releases(), beyond.len() as int);
    }
}

proof fn a_stray_is_refused(
    paths: Seq<Seq<char>>,
    current: Option<Seq<char>>,
    root: Seq<char>,
    index: int,
)
    requires
        0 <= index < paths.len(),
        !is_current(current, paths[index]),
        !(parent_of(paths[index]) matches Some(parent) && same_parts(parent, root)),
    ensures
        retired(paths, current, root).1 is Some,
    decreases paths.len(),
{
    if index < paths.len() - 1 {
        assert(paths.drop_last()[index] == paths[index]);
        a_stray_is_refused(paths.drop_last(), current, root, index);
    }
}

} // verus!
