//! The orders of deployments, and what they determine.
use vstd::prelude::*;

#[allow(unused_imports)]
use crate::db::rules::{completed_before, newest_first, older, time_less, DatabaseView, Selection};
#[allow(unused_imports)]
use crate::model::{DeploymentRowView, ProjectStateRowView};
#[allow(unused_imports)]
use crate::text::{text_less, text_order_is_total, text_order_is_transitive};

verus! {

/// Of two deployments with different identifiers, exactly one is older.
pub proof fn age_is_total(a: DeploymentRowView, b: DeploymentRowView)
    ensures
        a.id != b.id ==> older(a, b) != older(b, a),
        a.id == b.id && a.created_at == b.created_at ==> !older(a, b),
        !(older(a, b) && older(b, a)),
{
    text_order_is_total(a.created_at, b.created_at);
    text_order_is_total(b.created_at, a.created_at);
    text_order_is_total(a.id, b.id);
    text_order_is_total(b.id, a.id);
}

/// What is older than an older deployment is older.
pub proof fn age_is_transitive(a: DeploymentRowView, b: DeploymentRowView, c: DeploymentRowView)
    requires
        older(a, b),
        older(b, c),
    ensures
        older(a, c),
{
    if text_less(a.created_at, b.created_at) && text_less(b.created_at, c.created_at) {
        text_order_is_transitive(a.created_at, b.created_at, c.created_at);
    }
    if text_less(a.id, b.id) && text_less(b.id, c.id) {
        text_order_is_transitive(a.id, b.id, c.id);
    }
}

/// Of two different times, exactly one comes before the other.
pub proof fn time_is_total(a: Option<Seq<char>>, b: Option<Seq<char>>)
    ensures
        a != b ==> time_less(a, b) != time_less(b, a),
        a == b ==> !time_less(a, b),
{
    if let (Some(a), Some(b)) = (a, b) {
        text_order_is_total(a, b);
    }
}

/// What comes before an earlier time comes before a later one.
pub proof fn time_is_transitive(a: Option<Seq<char>>, b: Option<Seq<char>>, c: Option<Seq<char>>)
    requires
        time_less(a, b),
        time_less(b, c),
    ensures
        time_less(a, c),
{
    if let (Some(a), Some(b), Some(c)) = (a, b, c) {
        text_order_is_transitive(a, b, c);
    }
}

/// Of two deployments with different identifiers, exactly one was completed before the other.
pub proof fn completion_is_total(a: DeploymentRowView, b: DeploymentRowView)
    ensures
        a.id != b.id ==> completed_before(a, b) != completed_before(b, a),
        !(completed_before(a, b) && completed_before(b, a)),
{
    time_is_total(a.completed_at, b.completed_at);
    text_order_is_total(a.id, b.id);
    text_order_is_total(b.id, a.id);
}

/// What was completed before an earlier deployment was completed before a later one.
pub proof fn completion_is_transitive(a: DeploymentRowView, b: DeploymentRowView, c: DeploymentRowView)
    requires
        completed_before(a, b),
        completed_before(b, c),
    ensures
        completed_before(a, c),
{
    if time_less(a.completed_at, b.completed_at) && time_less(b.completed_at, c.completed_at) {
        time_is_transitive(a.completed_at, b.completed_at, c.completed_at);
    }
    if text_less(a.id, b.id) && text_less(b.id, c.id) {
        text_order_is_transitive(a.id, b.id, c.id);
    }
}

/// The oldest deployment that is meant is the one that is older than all others.
pub proof fn oldest_is(db: DatabaseView, selection: Selection<Seq<char>>, id: Seq<char>)
    requires
        db.is_oldest(selection, id),
    ensures
        db.oldest(selection) == Some(db.deployments[id]),
{
    assert(db.selected(selection, id));
    let chosen = choose|other: Seq<char>| db.is_oldest(selection, other);
    assert(db.is_oldest(selection, chosen));
    if chosen != id {
        assert(db.selected(selection, chosen));
        age_is_total(db.deployments[id], db.deployments[chosen]);
    }
}

/// The deployment that released a commit last is the one that all others were completed before.
pub proof fn last_release_is(
    db: DatabaseView,
    project_id: Seq<char>,
    commit_sha: Seq<char>,
    id: Seq<char>,
)
    requires
        db.released_last(project_id, commit_sha, id),
    ensures
        db.last_release(project_id, commit_sha) == Some(db.deployments[id]),
{
    assert(db.released(project_id, commit_sha, id));
    let chosen = choose|other: Seq<char>| db.released_last(project_id, commit_sha, other);
    assert(db.released_last(project_id, commit_sha, chosen));
    if chosen != id {
        assert(db.released(project_id, commit_sha, chosen));
        completion_is_total(db.deployments[id], db.deployments[chosen]);
    }
}

/// An event key is held by one deployment.
pub proof fn event_holder_is(db: DatabaseView, event_key: Seq<char>, id: Seq<char>)
    requires
        db.valid(),
        db.holds_event(event_key, id),
    ensures
        db.by_event_key(event_key) == Some(db.deployments[id]),
{
    let chosen = choose|other: Seq<char>| db.holds_event(event_key, other);
    assert(db.holds_event(event_key, chosen));
    if chosen != id {
        assert(db.deployments[chosen].event_key != db.deployments[id].event_key);
    }
}

/// A list that is ordered from the newest on is determined by what it holds.
pub proof fn ordered_lists_are_equal(a: Seq<DeploymentRowView>, b: Seq<DeploymentRowView>)
    requires
        newest_first(a),
        newest_first(b),
        forall|deployment: DeploymentRowView| #[trigger] a.contains(deployment) <==> b.contains(
            deployment,
        ),
    ensures
        a == b,
    decreases a.len(),
{
    if a.len() == 0 {
        if b.len() > 0 {
            assert(b.contains(b[0]));
            assert(a.contains(b[0]));
        }
        assert(a =~= b);
    } else {
        assert(a.contains(a[0]));
        assert(b.contains(a[0]));
        assert(b.contains(b[0]));
        assert(a.contains(b[0]));
        let j = choose|j: int| 0 <= j < b.len() && b[j] == a[0];
        let k = choose|k: int| 0 <= k < a.len() && a[k] == b[0];
        if j != 0 && k != 0 {
            assert(older(b[j], b[0]));
            assert(older(a[k], a[0]));
            age_is_total(a[0], b[0]);
        }
        assert(a[0] == b[0]);
        let x = a.drop_first();
        let y = b.drop_first();
        assert(newest_first(x)) by {
            assert forall|i: int, l: int| 0 <= i < l < x.len() implies older(
                #[trigger] x[l],
                #[trigger] x[i],
            ) by {
                assert(older(a[l + 1], a[i + 1]));
            }
        }
        assert(newest_first(y)) by {
            assert forall|i: int, l: int| 0 <= i < l < y.len() implies older(
                #[trigger] y[l],
                #[trigger] y[i],
            ) by {
                assert(older(b[l + 1], b[i + 1]));
            }
        }
        assert forall|deployment: DeploymentRowView| #[trigger] x.contains(deployment) <==> y.contains(
            deployment,
        ) by {
            if x.contains(deployment) {
                let i = choose|i: int| 0 <= i < x.len() && x[i] == deployment;
                assert(a[i + 1] == deployment);
                assert(older(a[i + 1], a[0]));
                age_is_total(a[0], a[0]);
                assert(a.contains(deployment));
                assert(b.contains(deployment));
                let l = choose|l: int| 0 <= l < b.len() && b[l] == deployment;
                assert(l != 0);
                assert(y[l - 1] == deployment);
            }
            if y.contains(deployment) {
                let i = choose|i: int| 0 <= i < y.len() && y[i] == deployment;
                assert(b[i + 1] == deployment);
                assert(older(b[i + 1], b[0]));
                age_is_total(b[0], b[0]);
                assert(a.contains(deployment));
                let l = choose|l: int| 0 <= l < a.len() && a[l] == deployment;
                assert(l != 0);
                assert(x[l - 1] == deployment);
            }
        }
        ordered_lists_are_equal(x, y);
        assert(a =~= seq![a[0]] + x);
        assert(b =~= seq![b[0]] + y);
    }
}

/// The list of the deployments that are meant is determined.
pub proof fn newest_is(
    db: DatabaseView,
    selection: Selection<Seq<char>>,
    list: Seq<DeploymentRowView>,
)
    requires
        db.lists(selection, list),
    ensures
        db.newest(selection) == list,
{
    let chosen = db.newest(selection);
    assert(db.lists(selection, chosen));
    ordered_lists_are_equal(chosen, list);
}

/// Replacing a deployment by one of the same event key keeps all valid.
pub proof fn valid_after_change(db: DatabaseView, deployment: DeploymentRowView)
    requires
        db.valid(),
        db.deployments.contains_key(deployment.id),
        deployment.event_key == db.deployments[deployment.id].event_key,
    ensures
        db.with_deployment(deployment).valid(),
{
    let after = db.with_deployment(deployment);
    assert forall|id: Seq<char>| #[trigger] after.deployments.contains_key(
        id,
    ) implies after.deployments[id].id == id by {
        assert(db.deployments.contains_key(id));
    }
    assert forall|a: Seq<char>, b: Seq<char>|
        #![trigger after.deployments[a], after.deployments[b]]
        after.deployments.contains_key(a) && after.deployments.contains_key(b) && a
            != b implies after.deployments[a].event_key != after.deployments[b].event_key by {
        assert(db.deployments[a].event_key != db.deployments[b].event_key);
    }
}

/// Adding a deployment with a new identifier and event key keeps all valid.
pub proof fn valid_after_insert(db: DatabaseView, deployment: DeploymentRowView)
    requires
        db.valid(),
        !db.deployments.contains_key(deployment.id),
        db.by_event_key(deployment.event_key) is None,
    ensures
        db.with_deployment(deployment).valid(),
{
    let after = db.with_deployment(deployment);
    assert forall|id: Seq<char>| #[trigger] after.deployments.contains_key(
        id,
    ) implies after.deployments[id].id == id by {
        if id != deployment.id {
            assert(db.deployments.contains_key(id));
        }
    }
    assert forall|a: Seq<char>, b: Seq<char>|
        #![trigger after.deployments[a], after.deployments[b]]
        after.deployments.contains_key(a) && after.deployments.contains_key(b) && a
            != b implies after.deployments[a].event_key != after.deployments[b].event_key by {
        if a != deployment.id && b != deployment.id {
            assert(db.deployments[a].event_key != db.deployments[b].event_key);
        } else if a != deployment.id {
            assert(!db.holds_event(deployment.event_key, a));
        } else {
            assert(!db.holds_event(deployment.event_key, b));
        }
    }
}

/// Adding or replacing a project keeps all valid.
pub proof fn valid_after_project(db: DatabaseView, project: ProjectStateRowView)
    requires
        db.valid(),
    ensures
        db.with_project(project).valid(),
{
    let after = db.with_project(project);
    assert forall|project_id: Seq<char>| #[trigger] after.projects.contains_key(
        project_id,
    ) implies after.projects[project_id].project_id == project_id by {
        if project_id != project.project_id {
            assert(db.projects.contains_key(project_id));
        }
    }
    assert forall|a: Seq<char>, b: Seq<char>|
        #![trigger after.deployments[a], after.deployments[b]]
        after.deployments.contains_key(a) && after.deployments.contains_key(b) && a
            != b implies after.deployments[a].event_key != after.deployments[b].event_key by {
        assert(db.deployments[a].event_key != db.deployments[b].event_key);
    }
}

/// Removing a project with its deployments keeps all valid.
pub proof fn valid_without_project(db: DatabaseView, project_id: Seq<char>)
    requires
        db.valid(),
    ensures
        db.without_project(project_id).valid(),
{
    let after = db.without_project(project_id);
    assert forall|id: Seq<char>| #[trigger] after.deployments.contains_key(
        id,
    ) implies after.deployments[id].id == id by {
        assert(db.deployments.contains_key(id));
    }
    assert forall|other: Seq<char>| #[trigger] after.projects.contains_key(
        other,
    ) implies after.projects[other].project_id == other by {
        assert(db.projects.contains_key(other));
    }
    assert forall|a: Seq<char>, b: Seq<char>|
        #![trigger after.deployments[a], after.deployments[b]]
        after.deployments.contains_key(a) && after.deployments.contains_key(b) && a
            != b implies after.deployments[a].event_key != after.deployments[b].event_key by {
        assert(db.deployments.contains_key(a));
        assert(db.deployments.contains_key(b));
        assert(db.deployments[a].event_key != db.deployments[b].event_key);
    }
}

/// Removing deployments with the links to them keeps all valid.
pub proof fn valid_without(db: DatabaseView, gone: Set<Seq<char>>)
    requires
        db.valid(),
    ensures
        db.without(gone).valid(),
{
    let after = db.without(gone);
    assert forall|id: Seq<char>| #[trigger] after.deployments.contains_key(
        id,
    ) implies after.deployments[id].id == id by {
        assert(db.deployments.contains_key(id));
    }
    assert forall|a: Seq<char>, b: Seq<char>|
        #![trigger after.deployments[a], after.deployments[b]]
        after.deployments.contains_key(a) && after.deployments.contains_key(b) && a
            != b implies after.deployments[a].event_key != after.deployments[b].event_key by {
        assert(db.deployments.contains_key(a));
        assert(db.deployments.contains_key(b));
        assert(db.deployments[a].event_key != db.deployments[b].event_key);
    }
}

} // verus!
