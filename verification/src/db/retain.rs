//! The release paths of a project, the last made first.
use vstd::prelude::*;

#[allow(unused_imports)]
use crate::db::order::{time_is_total, time_is_transitive};
#[allow(unused_imports)]
use crate::db::rules::{time_less, DatabaseView};
#[allow(unused_imports)]
use crate::db::table::{distinct, position, table, table_holds_the_rows, Row};
use crate::db::{is_time_less, Database};
#[allow(unused_imports)]
use crate::model::DeploymentRowView;
use crate::model::{DeploymentRow, DeploymentStatus};
#[allow(unused_imports)]
use crate::text::{text_less, text_order_is_total, text_order_is_transitive};
use crate::text::{opt_text_copy, opt_text_eq, precedes, text_eq};

verus! {

/// A release path with the time at which it was made last.
struct Made {
    path: String,
    time: Option<String>,
}

/// A release path with the time at which it was made last, with the characters of its texts.
struct MadeView {
    path: Seq<char>,
    time: Option<Seq<char>>,
}

impl View for Made {
    type V = MadeView;

    closed spec fn view(&self) -> MadeView {
        MadeView { path: self.path@, time: self.time.deep_view() }
    }
}

impl DeepView for Made {
    type V = MadeView;

    closed spec fn deep_view(&self) -> MadeView {
        self@
    }
}

/// The order of release paths: the later time first, and by text where the times are the same.
spec fn before(left: MadeView, right: MadeView) -> bool {
    time_less(right.time, left.time) || (left.time == right.time && text_less(
        left.path,
        right.path,
    ))
}

proof fn before_is_total(a: MadeView, b: MadeView)
    ensures
        a.path != b.path ==> before(a, b) != before(b, a),
{
    time_is_total(a.time, b.time);
    text_order_is_total(a.path, b.path);
}

proof fn before_is_transitive(a: MadeView, b: MadeView, c: MadeView)
    requires
        before(a, b),
        before(b, c),
    ensures
        before(a, c),
{
    if time_less(c.time, b.time) && time_less(b.time, a.time) {
        time_is_transitive(c.time, b.time, a.time);
    }
    if text_less(a.path, b.path) && text_less(b.path, c.path) {
        text_order_is_transitive(a.path, b.path, c.path);
    }
}

fn comes_before(left: &Made, right: &Made) -> (result: bool)
    ensures
        result == before(left@, right@),
{
    is_time_less(&right.time, &left.time) || (opt_text_eq(&left.time, &right.time) && precedes(
        left.path.as_str(),
        right.path.as_str(),
    ))
}

/// Whether a row made a release path of a project.
spec fn row_made(row: DeploymentRowView, project_id: Seq<char>, path: Seq<char>) -> bool {
    row.project_id == project_id && row.in_state(DeploymentStatus::Succeeded)
        && row.release_path == Some(path)
}

/// Whether one of the first rows made a release path at a time, and none of them later.
spec fn last_among(
    rows: Seq<DeploymentRowView>,
    count: int,
    project_id: Seq<char>,
    made: MadeView,
) -> bool {
    &&& exists|j: int|
        0 <= j < count && row_made(#[trigger] rows[j], project_id, made.path)
            && rows[j].completed_at == made.time
    &&& forall|j: int|
        0 <= j < count && row_made(#[trigger] rows[j], project_id, made.path) ==> !time_less(
            made.time,
            rows[j].completed_at,
        )
}

/// Whether a list names each release path that one of the first rows made, once, with the time
/// at which it was made last.
spec fn gathered(
    rows: Seq<DeploymentRowView>,
    count: int,
    project_id: Seq<char>,
    list: Seq<MadeView>,
) -> bool {
    &&& forall|k: int|
        0 <= k < list.len() ==> last_among(rows, count, project_id, #[trigger] list[k])
    &&& forall|a: int, b: int|
        0 <= a < b < list.len() ==> (#[trigger] list[a]).path != (#[trigger] list[b]).path
    &&& forall|j: int, path: Seq<char>|
        0 <= j < count && #[trigger] row_made(rows[j], project_id, path) ==> exists|k: int|
            0 <= k < list.len() && (#[trigger] list[k]).path == path
}

proof fn gathered_skips(
    rows: Seq<DeploymentRowView>,
    count: int,
    project_id: Seq<char>,
    list: Seq<MadeView>,
)
    requires
        0 <= count < rows.len(),
        gathered(rows, count, project_id, list),
        forall|path: Seq<char>| !#[trigger] row_made(rows[count], project_id, path),
    ensures
        gathered(rows, count + 1, project_id, list),
{
    assert forall|k: int| 0 <= k < list.len() implies last_among(
        rows,
        count + 1,
        project_id,
        #[trigger] list[k],
    ) by {
        assert(last_among(rows, count, project_id, list[k]));
        let path = list[k].path;
        let time = list[k].time;
        let j = choose|j: int|
            0 <= j < count && row_made(#[trigger] rows[j], project_id, path)
                && rows[j].completed_at == time;
        assert(row_made(rows[j], project_id, path));
        assert(!row_made(rows[count], project_id, path));
    }
    assert forall|j: int, path: Seq<char>|
        0 <= j < count + 1 && #[trigger] row_made(rows[j], project_id, path) implies exists|k: int|
        0 <= k < list.len() && (#[trigger] list[k]).path == path by {
        assert(j < count);
    }
}

proof fn gathered_adds(
    rows: Seq<DeploymentRowView>,
    count: int,
    project_id: Seq<char>,
    list: Seq<MadeView>,
    made: MadeView,
)
    requires
        0 <= count < rows.len(),
        gathered(rows, count, project_id, list),
        row_made(rows[count], project_id, made.path),
        made.time == rows[count].completed_at,
        forall|k: int| 0 <= k < list.len() ==> (#[trigger] list[k]).path != made.path,
    ensures
        gathered(rows, count + 1, project_id, list.push(made)),
{
    let after = list.push(made);
    assert forall|k: int| 0 <= k < after.len() implies last_among(
        rows,
        count + 1,
        project_id,
        #[trigger] after[k],
    ) by {
        if k < list.len() {
            assert(after[k] == list[k]);
            assert(last_among(rows, count, project_id, list[k]));
            let path = list[k].path;
            let time = list[k].time;
            let j = choose|j: int|
                0 <= j < count && row_made(#[trigger] rows[j], project_id, path)
                    && rows[j].completed_at == time;
            assert(row_made(rows[j], project_id, path));
        } else {
            assert(row_made(rows[count], project_id, after[k].path));
            assert forall|j: int|
                0 <= j < count + 1 && row_made(
                    #[trigger] rows[j],
                    project_id,
                    made.path,
                ) implies !time_less(made.time, rows[j].completed_at) by {
                if j < count {
                    let other = choose|other: int|
                        0 <= other < list.len() && (#[trigger] list[other]).path == made.path;
                    assert(list[other].path == made.path);
                } else {
                    time_is_total(made.time, made.time);
                }
            }
        }
    }
    assert forall|a: int, b: int| 0 <= a < b < after.len() implies (#[trigger] after[a]).path != (
    #[trigger] after[b]).path by {
        assert(after[a] == list[a]);
        if b < list.len() {
            assert(after[b] == list[b]);
        }
    }
    assert forall|j: int, path: Seq<char>|
        0 <= j < count + 1 && #[trigger] row_made(rows[j], project_id, path) implies exists|k: int|
        0 <= k < after.len() && (#[trigger] after[k]).path == path by {
        if j < count {
            let k = choose|k: int| 0 <= k < list.len() && (#[trigger] list[k]).path == path;
            assert(after[k].path == path);
        } else {
            assert(after[list.len() as int].path == path);
        }
    }
}

proof fn gathered_updates(
    rows: Seq<DeploymentRowView>,
    count: int,
    project_id: Seq<char>,
    list: Seq<MadeView>,
    k: int,
)
    requires
        0 <= count < rows.len(),
        0 <= k < list.len(),
        gathered(rows, count, project_id, list),
        row_made(rows[count], project_id, list[k].path),
    ensures
        time_less(list[k].time, rows[count].completed_at) ==> gathered(
            rows,
            count + 1,
            project_id,
            list.update(k, MadeView { path: list[k].path, time: rows[count].completed_at }),
        ),
        !time_less(list[k].time, rows[count].completed_at) ==> gathered(
            rows,
            count + 1,
            project_id,
            list,
        ),
{
    let now = rows[count].completed_at;
    let later = time_less(list[k].time, now);
    let after = if later {
        list.update(k, MadeView { path: list[k].path, time: now })
    } else {
        list
    };
    assert forall|i: int| 0 <= i < after.len() implies last_among(
        rows,
        count + 1,
        project_id,
        #[trigger] after[i],
    ) by {
        assert(last_among(rows, count, project_id, list[i]));
        let path = list[i].path;
        let time = list[i].time;
        let j = choose|j: int|
            0 <= j < count && row_made(#[trigger] rows[j], project_id, path)
                && rows[j].completed_at == time;
        assert(row_made(rows[j], project_id, path));
        if i == k && later {
            assert(row_made(rows[count], project_id, after[i].path));
            assert forall|other: int|
                0 <= other < count + 1 && row_made(
                    #[trigger] rows[other],
                    project_id,
                    after[i].path,
                ) implies !time_less(now, rows[other].completed_at) by {
                if other < count {
                    if time_less(now, rows[other].completed_at) {
                        time_is_transitive(time, now, rows[other].completed_at);
                    }
                } else {
                    time_is_total(now, now);
                }
            }
        } else if i != k {
            if i < k {
                assert(list[i].path != list[k].path);
            } else {
                assert(list[k].path != list[i].path);
            }
            assert(!row_made(rows[count], project_id, path));
        }
    }
    assert forall|a: int, b: int| 0 <= a < b < after.len() implies (#[trigger] after[a]).path != (
    #[trigger] after[b]).path by {
        assert(list[a].path != list[b].path);
    }
    assert forall|j: int, path: Seq<char>|
        0 <= j < count + 1 && #[trigger] row_made(rows[j], project_id, path) implies exists|i: int|
        0 <= i < after.len() && (#[trigger] after[i]).path == path by {
        if j < count {
            let i = choose|i: int| 0 <= i < list.len() && (#[trigger] list[i]).path == path;
            assert(after[i].path == path);
        } else {
            assert(after[k].path == path);
        }
    }
}

fn find_path(list: &Vec<Made>, path: &str) -> (found: Option<usize>)
    ensures
        match found {
            Some(k) => k < list.len() && list.deep_view()[k as int].path == path@,
            None => forall|k: int|
                0 <= k < list.len() ==> (#[trigger] list.deep_view()[k]).path != path@,
        },
{
    let mut k: usize = 0;
    while k < list.len()
        invariant
            k <= list.len(),
            forall|j: int| 0 <= j < k ==> (#[trigger] list.deep_view()[j]).path != path@,
        decreases list.len() - k,
    {
        assert(list.deep_view()[k as int] == list[k as int]@);
        if text_eq(list[k].path.as_str(), path) {
            return Some(k);
        }
        k += 1;
    }
    None
}

fn gather(rows: &Vec<DeploymentRow>, project_id: &str) -> (list: Vec<Made>)
    ensures
        gathered(rows.deep_view(), rows.len() as int, project_id@, list.deep_view()),
{
    let ghost shown = rows.deep_view();
    let mut list: Vec<Made> = Vec::new();
    let mut i: usize = 0;
    while i < rows.len()
        invariant
            i <= rows.len(),
            shown == rows.deep_view(),
            gathered(shown, i as int, project_id@, list.deep_view()),
        decreases rows.len() - i,
    {
        let row = &rows[i];
        let ghost before = list.deep_view();
        assert(shown[i as int] == row@);
        match &row.release_path {
            Some(path) if row.is_in_state(DeploymentStatus::Succeeded) && text_eq(
                row.project_id.as_str(),
                project_id,
            ) => {
                assert(row_made(shown[i as int], project_id@, path@));
                match find_path(&list, path.as_str()) {
                    Some(k) => {
                        proof {
                            gathered_updates(shown, i as int, project_id@, before, k as int);
                        }
                        assert(before[k as int] == list[k as int]@);
                        if is_time_less(&list[k].time, &row.completed_at) {
                            list.set(
                                k,
                                Made {
                                    path: path.clone(),
                                    time: opt_text_copy(&row.completed_at),
                                },
                            );
                            assert(list.deep_view() =~= before.update(
                                k as int,
                                MadeView {
                                    path: before[k as int].path,
                                    time: shown[i as int].completed_at,
                                },
                            ));
                        }
                    },
                    None => {
                        let made = Made {
                            path: path.clone(),
                            time: opt_text_copy(&row.completed_at),
                        };
                        proof {
                            gathered_adds(shown, i as int, project_id@, before, made@);
                        }
                        let ghost new = made@;
                        list.push(made);
                        assert(list.deep_view() =~= before.push(new));
                    },
                }
            },
            _ => {
                proof {
                    gathered_skips(shown, i as int, project_id@, before);
                }
            },
        }
        i += 1;
    }
    list
}

/// Whether a list is in order.
spec fn in_order(list: Seq<MadeView>) -> bool {
    forall|i: int, j: int| 0 <= i < j < list.len() ==> before(#[trigger] list[i], #[trigger] list[j])
}

fn insert_in_order(list: &mut Vec<Made>, made: Made)
    requires
        in_order(old(list).deep_view()),
        forall|k: int|
            0 <= k < old(list).len() ==> (#[trigger] old(list).deep_view()[k]).path != made.path@,
    ensures
        in_order(final(list).deep_view()),
        forall|other: MadeView| #[trigger]
            final(list).deep_view().contains(other) <==> old(list).deep_view().contains(other)
                || other == made@,
{
    let ghost earlier = list.deep_view();
    let ghost new = made@;
    let mut i: usize = 0;
    while i < list.len() && comes_before(&list[i], &made)
        invariant
            i <= list.len(),
            earlier == list.deep_view(),
            new == made@,
            in_order(earlier),
            forall|k: int| 0 <= k < i ==> before(#[trigger] earlier[k], new),
        decreases list.len() - i,
    {
        assert(earlier[i as int] == list[i as int]@);
        i += 1;
    }
    proof {
        if i < earlier.len() {
            assert(earlier[i as int] == list[i as int]@);
            before_is_total(earlier[i as int], new);
        }
        assert forall|k: int| i <= k < earlier.len() implies before(new, #[trigger] earlier[k]) by {
            if k > i {
                assert(before(earlier[i as int], earlier[k]));
                before_is_transitive(new, earlier[i as int], earlier[k]);
            }
        }
    }
    list.insert(i, made);
    let ghost after = list.deep_view();
    assert(after =~= earlier.insert(i as int, new));
    proof {
        assert forall|a: int, b: int| 0 <= a < b < after.len() implies before(
            #[trigger] after[a],
            #[trigger] after[b],
        ) by {
            if b < i {
                assert(before(earlier[a], earlier[b]));
            } else if b == i {
                assert(after[a] == earlier[a]);
            } else if a < i {
                assert(before(earlier[a], earlier[b - 1]));
            } else if a == i {
                assert(after[b] == earlier[b - 1]);
            } else {
                assert(before(earlier[a - 1], earlier[b - 1]));
            }
        }
        assert forall|other: MadeView| #[trigger]
            after.contains(other) <==> earlier.contains(other) || other == new by {
            if after.contains(other) {
                let k = choose|k: int| 0 <= k < after.len() && after[k] == other;
                if k < i {
                    assert(earlier[k] == other);
                } else if k > i {
                    assert(earlier[k - 1] == other);
                }
            }
            if earlier.contains(other) {
                let k = choose|k: int| 0 <= k < earlier.len() && earlier[k] == other;
                if k < i {
                    assert(after[k] == other);
                } else {
                    assert(after[k + 1] == other);
                }
            }
            if other == new {
                assert(after[i as int] == other);
            }
        }
    }
}

fn in_order_of(list: Vec<Made>) -> (sorted: Vec<Made>)
    requires
        forall|a: int, b: int|
            0 <= a < b < list.len() ==> (#[trigger] list.deep_view()[a]).path != (
            #[trigger] list.deep_view()[b]).path,
    ensures
        in_order(sorted.deep_view()),
        forall|made: MadeView| #[trigger]
            sorted.deep_view().contains(made) <==> list.deep_view().contains(made),
{
    let ghost all = list.deep_view();
    let mut sorted: Vec<Made> = Vec::new();
    let mut i: usize = 0;
    while i < list.len()
        invariant
            i <= list.len(),
            all == list.deep_view(),
            forall|a: int, b: int|
                0 <= a < b < all.len() ==> (#[trigger] all[a]).path != (#[trigger] all[b]).path,
            in_order(sorted.deep_view()),
            forall|made: MadeView| #[trigger]
                sorted.deep_view().contains(made) <==> all.take(i as int).contains(made),
        decreases list.len() - i,
    {
        let made = Made { path: list[i].path.clone(), time: opt_text_copy(&list[i].time) };
        let ghost earlier = sorted.deep_view();
        assert(all[i as int] == made@);
        assert forall|k: int| 0 <= k < earlier.len() implies (#[trigger] earlier[k]).path
            != made.path@ by {
            let other = earlier[k];
            assert(earlier.contains(other));
            assert(all.take(i as int).contains(other));
            let j = choose|j: int| 0 <= j < i && all.take(i as int)[j] == other;
            assert(all[j].path != all[i as int].path);
        }
        insert_in_order(&mut sorted, made);
        assert forall|other: MadeView| #[trigger]
            sorted.deep_view().contains(other) <==> all.take(i + 1).contains(other) by {
            if sorted.deep_view().contains(other) {
                if earlier.contains(other) {
                    let j = choose|j: int| 0 <= j < i && all.take(i as int)[j] == other;
                    assert(all.take(i + 1)[j] == other);
                } else {
                    assert(all.take(i + 1)[i as int] == other);
                }
            }
            if all.take(i + 1).contains(other) {
                let more = all.take(i + 1);
                let j = choose|j: int| 0 <= j < more.len() && more[j] == other;
                if j < i {
                    assert(all.take(i as int)[j] == other);
                    assert(all.take(i as int).contains(other));
                    assert(earlier.contains(other));
                }
            }
        }
        i += 1;
    }
    assert(all.take(i as int) =~= all);
    sorted
}

proof fn gathered_is_last_made(
    db: DatabaseView,
    rows: Seq<DeploymentRowView>,
    project_id: Seq<char>,
    made: MadeView,
)
    requires
        distinct(rows),
        db.deployments == table(rows),
        last_among(rows, rows.len() as int, project_id, made),
    ensures
        db.made_last_at(project_id, made.path, made.time),
        db.last_made(project_id, made.path) == made.time,
        exists|id: Seq<char>| db.made(project_id, made.path, id),
{
    table_holds_the_rows(rows);
    let path = made.path;
    let j = choose|j: int|
        0 <= j < rows.len() && row_made(#[trigger] rows[j], project_id, path)
            && rows[j].completed_at == made.time;
    let id = rows[j].key();
    assert(db.deployments[id] == rows[j]);
    assert(db.made(project_id, path, id));
    assert forall|other: Seq<char>| #[trigger] db.made(project_id, path, other) implies !time_less(
        made.time,
        db.deployments[other].completed_at,
    ) by {
        let k = position(rows, other);
        assert(rows[k].key() == other);
        assert(row_made(rows[k], project_id, path));
    }
    assert(db.made_last_at(project_id, path, made.time));
    let chosen = db.last_made(project_id, path);
    assert(db.made_last_at(project_id, path, chosen));
    let other = choose|other: Seq<char>| #[trigger]
        db.made(project_id, path, other) && db.deployments[other].completed_at == chosen;
    assert(!time_less(made.time, db.deployments[other].completed_at));
    assert(!time_less(chosen, db.deployments[id].completed_at));
    time_is_total(made.time, chosen);
}

impl Database {
    /// The release paths of a project, each once, the last made first.
    pub fn retained_release_paths(&self, project_id: &str) -> (paths: Vec<String>)
        requires
            self.wf(),
        ensures
            self@.retains(project_id@, paths.deep_view()),
    {
        let ghost rows = self.deployments.deep_view();
        let ghost db = self@;
        let list = gather(&self.deployments, project_id);
        let ghost all = list.deep_view();
        let sorted = in_order_of(list);
        let ghost order = sorted.deep_view();
        let mut paths: Vec<String> = Vec::new();
        let mut i: usize = 0;
        while i < sorted.len()
            invariant
                i <= sorted.len(),
                order == sorted.deep_view(),
                paths.len() == i,
                forall|k: int| 0 <= k < i ==> (#[trigger] paths.deep_view()[k]) == order[k].path,
            decreases sorted.len() - i,
        {
            let ghost earlier = paths.deep_view();
            paths.push(sorted[i].path.clone());
            assert(order[i as int] == sorted[i as int]@);
            assert(paths.deep_view() =~= earlier.push(order[i as int].path));
            i += 1;
        }
        proof {
            let shown = paths.deep_view();
            assert forall|k: int| 0 <= k < order.len() implies last_among(
                rows,
                rows.len() as int,
                project_id@,
                #[trigger] order[k],
            ) by {
                let made = order[k];
                assert(order.contains(made));
                assert(all.contains(made));
                let j = choose|j: int| 0 <= j < all.len() && all[j] == made;
                assert(last_among(rows, rows.len() as int, project_id@, all[j]));
            }
            assert forall|a: int, b: int| 0 <= a < b < shown.len() implies db.path_before(
                project_id@,
                #[trigger] shown[a],
                #[trigger] shown[b],
            ) by {
                gathered_is_last_made(db, rows, project_id@, order[a]);
                gathered_is_last_made(db, rows, project_id@, order[b]);
                assert(before(order[a], order[b]));
            }
            assert forall|path: Seq<char>| #[trigger] shown.contains(path) <==> exists|id: Seq<char>|
                #[trigger] db.made(project_id@, path, id) by {
                if shown.contains(path) {
                    let k = choose|k: int| 0 <= k < shown.len() && shown[k] == path;
                    gathered_is_last_made(db, rows, project_id@, order[k]);
                }
                if exists|id: Seq<char>| #[trigger] db.made(project_id@, path, id) {
                    let id = choose|id: Seq<char>| #[trigger] db.made(project_id@, path, id);
                    table_holds_the_rows(rows);
                    let j = position(rows, id);
                    assert(rows[j].key() == id);
                    assert(row_made(rows[j], project_id@, path));
                    let k = choose|k: int| 0 <= k < all.len() && (#[trigger] all[k]).path == path;
                    assert(all.contains(all[k]));
                    assert(order.contains(all[k]));
                    let l = choose|l: int| 0 <= l < order.len() && order[l] == all[k];
                    assert(shown[l] == path);
                }
            }
        }
        paths
    }
}

} // verus!
