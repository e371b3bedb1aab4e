//! What holds of the stored deployments and projects, whatever is done with them.
use vstd::prelude::*;

#[allow(unused_imports)]
use crate::db::order::{
    age_is_total, event_holder_is, newest_is, oldest_is, valid_after_insert, valid_after_project,
};
#[allow(unused_imports)]
use crate::db::rules::{ids, older, unlinked, CreatedView, DatabaseView, Selection};
#[allow(unused_imports)]
use crate::error::AppErrorView;
#[allow(unused_imports)]
use crate::model::{
    deployment_row_reads_back, read_rows, status_text_reads_back, CleanDeploymentType,
    DeploymentRowView, DeploymentStatus, ProjectStateRowView,
};

verus! {

/// Deployments are taken first in, first out: the one that is taken was created before every
/// other that is ready; it belongs to a project that is neither stopped nor blocked; and nothing
/// else changes.
pub proof fn deployments_are_taken_in_order(db: DatabaseView, id: Seq<char>, now: Seq<char>)
    requires
        db.valid(),
        db.is_oldest(Selection::Ready, id),
    ensures
        db.taken(now).1 matches Ok(taken) ==> taken matches Some(taken) && taken.id == id
            && !taken.status.ended() && !(taken.status is Queued),
        db.taken(now).1 is Ok <==> db.deployments[id].deployment() is Ok,
        forall|other: Seq<char>| #[trigger]
            db.selected(Selection::Ready, other) && other != id ==> older(
                db.deployments[id],
                db.deployments[other],
            ),
        db.projects[db.deployments[id].project_id].stopped == 0,
        db.projects[db.deployments[id].project_id].blocked == 0,
        db.taken(now).0.projects == db.projects,
        forall|other: Seq<char>|
            other != id ==> (#[trigger] db.taken(now).0.deployments.contains_key(other)
                == db.deployments.contains_key(other)) && db.taken(now).0.deployments[other]
                == db.deployments[other],
{
    oldest_is(db, Selection::Ready, id);
    assert(db.selected(Selection::Ready, id));
    status_text_reads_back(DeploymentStatus::Queued);
    status_text_reads_back(DeploymentStatus::Fetching);
}

/// A deployment that was taken is taken again until it ends, before all that were created later:
/// the queue is worked off one by one.
pub proof fn a_taken_deployment_stays_first(
    db: DatabaseView,
    id: Seq<char>,
    now: Seq<char>,
    later: Seq<char>,
)
    requires
        db.valid(),
        db.is_oldest(Selection::Ready, id),
    ensures
        db.taken(now).0.is_oldest(Selection::Ready, id),
        db.taken(now).0.taken(later) == db.taken(now),
{
    deployments_are_taken_in_order(db, id, now);
    let after = db.taken(now).0;
    oldest_is(db, Selection::Ready, id);
    status_text_reads_back(DeploymentStatus::Queued);
    status_text_reads_back(DeploymentStatus::Fetching);
    let taken = after.deployments[id];
    assert(db.selected(Selection::Ready, id));
    assert(after.selected(Selection::Ready, id));
    assert forall|other: Seq<char>| #[trigger]
        after.selected(Selection::Ready, other) && other != id implies older(
        after.deployments[id],
        after.deployments[other],
    ) by {
        assert(after.deployments.contains_key(other));
        assert(db.selected(Selection::Ready, other));
    }
    oldest_is(after, Selection::Ready, id);
    assert(after.with_deployment(taken) =~= after);
}

/// An event is answered by one deployment: repeating it, with whatever else, gives back the
/// deployment of the first time, not created again, and changes nothing.
pub proof fn an_event_is_deployed_once(
    db: DatabaseView,
    project_id: Seq<char>,
    event_key: Seq<char>,
    tag: Seq<char>,
    sha: Seq<char>,
    id: Seq<char>,
    now: Seq<char>,
    again_tag: Seq<char>,
    again_sha: Seq<char>,
    again_id: Seq<char>,
    again_now: Seq<char>,
)
    requires
        db.valid(),
        db.webhook(project_id, event_key, tag, sha, id, now).1 is Ok,
    ensures
        ({
            let (after, result) = db.webhook(project_id, event_key, tag, sha, id, now);
            after.webhook(project_id, event_key, again_tag, again_sha, again_id, again_now) == (
                after,
                Ok::<CreatedView, AppErrorView>(
                    CreatedView { deployment: result->Ok_0.deployment, created: false },
                ),
            )
        }),
{
    let (after, result) = db.webhook(project_id, event_key, tag, sha, id, now);
    let deployment = result->Ok_0.deployment;
    match db.by_event_key(event_key) {
        Some(_) => {},
        None => {
            valid_after_insert(db, deployment.row());
            deployment_row_reads_back(deployment);
            assert(after.holds_event(event_key, id));
            event_holder_is(after, event_key, id);
        },
    }
}

/// A stopped project takes no webhook: the answer is that it is stopped, and nothing is stored.
/// Started again, it does, unless the event is that of a row that cannot be read.
pub proof fn a_stopped_project_takes_no_webhook(
    db: DatabaseView,
    project_id: Seq<char>,
    stop: Seq<char>,
    start: Seq<char>,
    event_key: Seq<char>,
    tag: Seq<char>,
    sha: Seq<char>,
    id: Seq<char>,
    now: Seq<char>,
)
    requires
        db.valid(),
        db.projects.contains_key(project_id),
    ensures
        ({
            let stopped = db.stopped(project_id, stop).0;
            stopped.webhook(project_id, event_key, tag, sha, id, now) == (
                stopped,
                Err::<CreatedView, AppErrorView>(AppErrorView::ProjectStopped { project_id }),
            )
        }),
        db.projects[project_id].blocked == 0 && !db.deployments.contains_key(id) && (
        db.by_event_key(event_key) matches Some(row) ==> row.deployment() is Ok) ==> db.stopped(
            project_id,
            stop,
        ).0.started(project_id, start).0.webhook(project_id, event_key, tag, sha, id, now).1 is Ok,
{
    if db.projects[project_id].blocked == 0 {
        let stopped = db.stopped(project_id, stop).0;
        let started = stopped.started(project_id, start).0;
        valid_after_project(db, stopped.projects[project_id]);
        valid_after_project(stopped, started.projects[project_id]);
        if exists|holder: Seq<char>| started.holds_event(event_key, holder) {
            let holder = choose|holder: Seq<char>| started.holds_event(event_key, holder);
            assert(db.holds_event(event_key, holder));
            event_holder_is(started, event_key, holder);
            event_holder_is(db, event_key, holder);
        }
    }
}

/// Stopping a project holds back all of its deployments, waiting or begun, from being taken, and
/// only its own; nothing of them is changed.
pub proof fn stopping_holds_back_the_queue(
    db: DatabaseView,
    project_id: Seq<char>,
    now: Seq<char>,
    id: Seq<char>,
)
    requires
        db.valid(),
        db.projects.contains_key(project_id),
        db.deployments.contains_key(id),
    ensures
        db.stopped(project_id, now).0.deployments == db.deployments,
        db.deployments[id].project_id == project_id ==> !db.stopped(project_id, now).0.selected(
            Selection::Ready,
            id,
        ),
        db.deployments[id].project_id != project_id ==> db.stopped(project_id, now).0.selected(
            Selection::Ready,
            id,
        ) == db.selected(Selection::Ready, id),
{
}

/// What has begun is carried to its end: whatever is recorded of a deployment is recorded and
/// answered in the same way whether its project, or any other, is stopped or not, and stopping
/// changes nothing that was recorded.
pub proof fn stopping_lets_what_has_begun_end(
    db: DatabaseView,
    project_id: Seq<char>,
    stop: Seq<char>,
    id: Seq<char>,
    status: DeploymentStatus,
    commit_sha: Seq<char>,
    release_path: Seq<char>,
    previous_release_path: Option<Seq<char>>,
    error_code: Option<Seq<char>>,
    error_message: Option<Seq<char>>,
    now: Seq<char>,
)
    requires
        db.valid(),
        db.projects.contains_key(project_id),
    ensures
        ({
            let stopped = db.stopped(project_id, stop).0;
            &&& same_record(db.status_set(id, status, now), stopped.status_set(id, status, now))
            &&& same_record(
                db.commit_set(id, commit_sha, now),
                stopped.commit_set(id, commit_sha, now),
            )
            &&& same_record(
                db.release_set(id, release_path, now),
                stopped.release_set(id, release_path, now),
            )
            &&& same_record(
                db.activation_set(id, previous_release_path, now),
                stopped.activation_set(id, previous_release_path, now),
            )
            &&& same_record(
                db.ended(id, status, error_code, error_message, now),
                stopped.ended(id, status, error_code, error_message, now),
            )
            &&& stopped.status_set(id, status, now).0.projects == stopped.projects
            &&& stopped.ended(id, status, error_code, error_message, now).0.projects
                == stopped.projects
        }),
{
}

/// Whether two changes of a deployment leave the same deployments and have the same result.
pub open spec fn same_record(
    left: (DatabaseView, Result<(), AppErrorView>),
    right: (DatabaseView, Result<(), AppErrorView>),
) -> bool {
    left.0.deployments == right.0.deployments && left.1 == right.1
}

/// A blocked project is not started: starting it is refused with the reason of the blocking and
/// changes nothing. Only once it is unblocked can it be started.
pub proof fn starting_does_not_unblock(
    db: DatabaseView,
    project_id: Seq<char>,
    reason: Seq<char>,
    block: Seq<char>,
    unblock: Seq<char>,
    now: Seq<char>,
)
    requires
        db.valid(),
        db.projects.contains_key(project_id),
    ensures
        ({
            let blocked = db.blocked(project_id, Some(reason), block).0;
            &&& blocked.started(project_id, now) == (
                blocked,
                Err::<crate::model::ProjectStateView, AppErrorView>(
                    AppErrorView::ProjectBlocked { project_id, reason },
                ),
            )
            &&& blocked.blocked(project_id, None, unblock).0.started(project_id, now).1 matches Ok(
                state,
            ) && state.status is Running
        }),
{
}

/// No deployment of a blocked project is ready, and unblocking makes those ready again that a
/// running project has.
pub proof fn a_blocked_project_deploys_nothing(
    db: DatabaseView,
    project_id: Seq<char>,
    reason: Seq<char>,
    block: Seq<char>,
    unblock: Seq<char>,
    id: Seq<char>,
)
    requires
        db.valid(),
        db.projects.contains_key(project_id),
        db.deployments.contains_key(id),
        db.deployments[id].project_id == project_id,
    ensures
        ({
            let blocked = db.blocked(project_id, Some(reason), block).0;
            &&& !blocked.selected(Selection::Ready, id)
            &&& blocked.blocked(project_id, None, unblock).0.selected(Selection::Ready, id) == (
            db.deployments[id].unfinished() && db.projects[project_id].stopped == 0)
        }),
{
}

/// A project is deleted exactly where it is stored, stopped and has no deployment under way, and
/// no deployment of another project links to one of its own. Its row and its deployments are gone
/// then, a webhook for it finds no project, and everything of other projects stays.
pub proof fn deleting_takes_only_the_project(
    db: DatabaseView,
    project_id: Seq<char>,
    event_key: Seq<char>,
    tag: Seq<char>,
    sha: Seq<char>,
    id: Seq<char>,
    now: Seq<char>,
)
    requires
        db.valid(),
    ensures
        db.deleted(project_id).1 is Ok <==> db.projects.contains_key(project_id)
            && db.projects[project_id].stopped != 0 && (forall|other: Seq<char>|
            !db.selected(Selection::UnderWay(project_id), other)) && (forall|other: Seq<char>|
            !db.links_into(project_id, other)),
        db.deleted(project_id).1 is Err ==> db.deleted(project_id).0 == db,
        db.deleted(project_id).1 is Ok ==> ({
            let after = db.deleted(project_id).0;
            &&& !after.projects.contains_key(project_id)
            &&& forall|other: Seq<char>|
                other != project_id ==> (#[trigger] after.projects.contains_key(other))
                    == db.projects.contains_key(other) && after.projects[other]
                    == db.projects[other]
            &&& forall|other: Seq<char>| #[trigger]
                after.deployments.contains_key(other) <==> db.deployments.contains_key(other)
                    && db.deployments[other].project_id != project_id
            &&& forall|other: Seq<char>| #[trigger]
                after.deployments.contains_key(other) ==> after.deployments[other]
                    == db.deployments[other]
            &&& after.webhook(project_id, event_key, tag, sha, id, now).1 == Err::<
                CreatedView,
                AppErrorView,
            >(AppErrorView::ProjectNotFound { project_id })
        }),
{
}

/// Cleaning removes only ended deployments of the project that are covered by what is cleaned,
/// keeps the newest of them in the wanted number, keeps all others, cuts the links to those that
/// are gone, and answers with those. While a deployment has not ended, or where one that would go
/// cannot be read, it is refused and changes nothing.
pub proof fn cleaning_keeps_the_newest(
    db: DatabaseView,
    project_id: Seq<char>,
    keep: u64,
    deployment_type: CleanDeploymentType,
    list: Seq<DeploymentRowView>,
    gone: Seq<DeploymentRowView>,
)
    requires
        db.valid(),
        db.lists(Selection::Cleanable(project_id, deployment_type), list),
        gone == (if keep < list.len() {
            list.skip(keep as int)
        } else {
            Seq::empty()
        }),
    ensures
        db.cleaned(project_id, keep, deployment_type).1 is Ok <==> keep <= i64::MAX
            && db.projects.contains_key(project_id) && (forall|id: Seq<char>|
            !db.selected(Selection::Unfinished(project_id), id)) && read_rows(gone) is Ok,
        db.cleaned(project_id, keep, deployment_type).1 is Err ==> db.cleaned(
            project_id,
            keep,
            deployment_type,
        ).0 == db,
        db.cleaned(project_id, keep, deployment_type).1 is Ok ==> {
            let after = db.cleaned(project_id, keep, deployment_type).0;
            &&& db.cleaned(project_id, keep, deployment_type).1 == read_rows(gone)
            &&& after.projects == db.projects
            &&& forall|i: int|
                0 <= i < gone.len() ==> {
                    let deployment = #[trigger] gone[i];
                    &&& db.deployments.contains_key(deployment.id)
                    &&& db.deployments[deployment.id] == deployment
                    &&& deployment.project_id == project_id
                    &&& deployment.cleanable(deployment_type)
                    &&& !deployment.unfinished()
                    &&& !after.deployments.contains_key(deployment.id)
                }
            &&& forall|i: int, j: int|
                0 <= i < keep && i < list.len() && 0 <= j < gone.len() ==> older(
                    #[trigger] gone[j],
                    #[trigger] list[i],
                ) && after.deployments.contains_key(list[i].id)
            &&& forall|id: Seq<char>| #[trigger]
                after.deployments.contains_key(id) ==> db.deployments.contains_key(id)
                    && after.deployments[id] == unlinked(db.deployments[id], ids(gone))
            &&& forall|id: Seq<char>|
                db.deployments.contains_key(id) && !ids(gone).contains(id)
                    ==> #[trigger] after.deployments.contains_key(id)
        },
{
    let selection = Selection::Cleanable(project_id, deployment_type);
    newest_is(db, selection, list);
    if db.cleaned(project_id, keep, deployment_type).1 is Ok {
        let after = db.cleaned(project_id, keep, deployment_type).0;
        assert forall|i: int| 0 <= i < gone.len() implies {
            let deployment = #[trigger] gone[i];
            &&& db.deployments.contains_key(deployment.id)
            &&& db.deployments[deployment.id] == deployment
            &&& deployment.project_id == project_id
            &&& deployment.cleanable(deployment_type)
            &&& !deployment.unfinished()
            &&& !after.deployments.contains_key(deployment.id)
        } by {
            let deployment = gone[i];
            assert(list[i + keep as int] == deployment);
            assert(list.contains(deployment));
            assert(db.selected(selection, deployment.id));
            assert(ids(gone).contains(deployment.id));
        }
        assert forall|i: int, j: int|
            0 <= i < keep && i < list.len() && 0 <= j < gone.len() implies older(
            #[trigger] gone[j],
            #[trigger] list[i],
        ) && after.deployments.contains_key(list[i].id) by {
            assert(gone[j] == list[j + keep as int]);
            assert(older(list[j + keep as int], list[i]));
            assert(list.contains(list[i]));
            assert(db.selected(selection, list[i].id));
            if ids(gone).contains(list[i].id) {
                let k = choose|k: int| 0 <= k < gone.len() && (#[trigger] gone[k]).id == list[i].id;
                assert(gone[k] == list[k + keep as int]);
                assert(list.contains(list[k + keep as int]));
                assert(older(list[k + keep as int], list[i]));
                assert(db.deployments[gone[k].id] == gone[k]);
                assert(db.deployments[list[i].id] == list[i]);
                age_is_total(list[i], list[i]);
            }
        }
    }
}

/// A retry is a new deployment with the tag, the object, the commit and the release of the one
/// that failed, which it names and leaves as it is.
pub proof fn a_retry_repeats_the_original(
    db: DatabaseView,
    deployment_id: Seq<char>,
    id: Seq<char>,
    now: Seq<char>,
)
    requires
        db.valid(),
        db.retried(deployment_id, id, now).1 is Ok,
    ensures
        ({
            let original = db.deployments[deployment_id];
            let (after, result) = db.retried(deployment_id, id, now);
            let retry = result->Ok_0;
            &&& original.in_state(DeploymentStatus::Failed) || original.in_state(
                DeploymentStatus::RollbackFailed,
            )
            &&& !db.deployments.contains_key(id)
            &&& retry.id == id && retry.status is Queued && retry.retry_of == Some(deployment_id)
            &&& retry.project_id == original.project_id && retry.kind.text() == original.kind
            &&& retry.tag == original.tag && retry.requested_sha == original.requested_sha
            &&& retry.commit_sha == original.commit_sha && retry.release_path
                == original.release_path
            &&& after.deployments[deployment_id] == original
            &&& after.deployments[id] == retry.row()
        }),
{
}

/// Links keep fitting: where every deployment belongs to a stored project and links at most to a
/// stored deployment of the same project, so it is after a webhook, a retry, a rollback, the
/// deletion of a project or a cleaning, and after a project is added or changed or a deployment is
/// replaced by one of the same project and link.
pub proof fn links_keep_fitting(
    db: DatabaseView,
    project_id: Seq<char>,
    event_key: Seq<char>,
    tag: Seq<char>,
    sha: Seq<char>,
    deployment_id: Seq<char>,
    release_is_directory: bool,
    keep: u64,
    deployment_type: CleanDeploymentType,
    project: ProjectStateRowView,
    changed: DeploymentRowView,
    id: Seq<char>,
    now: Seq<char>,
)
    requires
        db.valid(),
        db.links_fit(),
    ensures
        db.webhook(project_id, event_key, tag, sha, id, now).0.links_fit(),
        db.retried(deployment_id, id, now).0.links_fit(),
        db.rolled_back(project_id, sha, release_is_directory, id, now).0.links_fit(),
        db.deleted(project_id).0.links_fit(),
        db.cleaned(project_id, keep, deployment_type).0.links_fit(),
        db.with_project(project).links_fit(),
        db.deployments.contains_key(changed.id) && changed.project_id
            == db.deployments[changed.id].project_id && changed.retry_of
            == db.deployments[changed.id].retry_of ==> db.with_deployment(changed).links_fit(),
{
    if let Ok(answer) = db.webhook(project_id, event_key, tag, sha, id, now).1 {
        if answer.created {
            new_link_fits(db, answer.deployment.row());
        }
    }
    if let Ok(retry) = db.retried(deployment_id, id, now).1 {
        new_link_fits(db, retry.row());
    }
    if let Ok(rollback) = db.rolled_back(project_id, sha, release_is_directory, id, now).1 {
        new_link_fits(db, rollback.row());
    }
    if db.deployments.contains_key(changed.id) && changed.project_id
        == db.deployments[changed.id].project_id && changed.retry_of
        == db.deployments[changed.id].retry_of {
        let after = db.with_deployment(changed);
        assert forall|other: Seq<char>| #[trigger] after.deployments.contains_key(
            other,
        ) implies after.link_fits(other) by {
            assert(db.deployments.contains_key(other));
            assert(db.link_fits(other));
        }
    }
    let with_project = db.with_project(project);
    assert forall|other: Seq<char>| #[trigger] with_project.deployments.contains_key(
        other,
    ) implies with_project.link_fits(other) by {
        assert(db.link_fits(other));
    }
    let without = db.deleted(project_id).0;
    assert forall|other: Seq<char>| #[trigger] without.deployments.contains_key(
        other,
    ) implies without.link_fits(other) by {
        assert(db.deployments.contains_key(other));
        assert(db.link_fits(other));
    }
    let clean = db.cleaned(project_id, keep, deployment_type).0;
    assert forall|other: Seq<char>| #[trigger] clean.deployments.contains_key(
        other,
    ) implies clean.link_fits(other) by {
        assert(db.deployments.contains_key(other));
        assert(db.link_fits(other));
    }
}

proof fn new_link_fits(db: DatabaseView, deployment: DeploymentRowView)
    requires
        db.valid(),
        db.links_fit(),
        !db.deployments.contains_key(deployment.id),
        db.projects.contains_key(deployment.project_id),
        deployment.retry_of matches Some(original) ==> db.deployments.contains_key(original)
            && db.deployments[original].project_id == deployment.project_id,
    ensures
        db.with_deployment(deployment).links_fit(),
{
    let after = db.with_deployment(deployment);
    assert forall|other: Seq<char>| #[trigger] after.deployments.contains_key(
        other,
    ) implies after.link_fits(other) by {
        if other != deployment.id {
            assert(db.deployments.contains_key(other));
            assert(db.link_fits(other));
        }
    }
}

/// Where all links fit, nothing keeps a stopped project without deployments under way from being
/// deleted.
pub proof fn fitting_links_allow_deletion(db: DatabaseView, project_id: Seq<char>)
    requires
        db.valid(),
        db.links_fit(),
    ensures
        db.deleted(project_id).1 is Ok <==> db.projects.contains_key(project_id)
            && db.projects[project_id].stopped != 0 && (forall|other: Seq<char>|
            !db.selected(Selection::UnderWay(project_id), other)),
{
    assert forall|other: Seq<char>| !db.links_into(project_id, other) by {
        if db.deployments.contains_key(other) {
            assert(db.link_fits(other));
        }
    }
}

/// What is recorded of a deployment changes no other deployment and no project.
pub proof fn changes_concern_one_deployment(
    db: DatabaseView,
    id: Seq<char>,
    deployment: DeploymentRowView,
    other: Seq<char>,
)
    requires
        deployment.id == id,
        other != id,
    ensures
        db.changed(id, deployment).0.projects == db.projects,
        db.changed(id, deployment).0.deployments.contains_key(other)
            == db.deployments.contains_key(other),
        db.changed(id, deployment).0.deployments[other] == db.deployments[other],
{
}

/// An ended deployment is never taken.
pub proof fn an_ended_deployment_is_not_ready(
    db: DatabaseView,
    id: Seq<char>,
    status: DeploymentStatus,
    code: Option<Seq<char>>,
    message: Option<Seq<char>>,
    now: Seq<char>,
)
    requires
        db.valid(),
        db.deployments.contains_key(id),
        status.ended(),
    ensures
        !db.ended(id, status, code, message, now).0.selected(Selection::Ready, id),
{
    status_text_reads_back(status);
}

} // verus!
