//! What each operation on the stored rows comes to, by what the rows hold.
use vstd::prelude::*;

#[allow(unused_imports)]
use crate::db::order::{
    age_is_total, age_is_transitive, completion_is_total, completion_is_transitive,
    event_holder_is, last_release_is, newest_is, oldest_is, time_is_total,
};
#[allow(unused_imports)]
use crate::db::rules::{
    completed_before, ids, older, time_less, CreatedView, DatabaseView, Selection,
};
#[allow(unused_imports)]
use crate::error::AppErrorView;
#[allow(unused_imports)]
use crate::model::laws::rows_are_read_together;
#[allow(unused_imports)]
use crate::model::{
    status_text_reads_back, CleanDeploymentType, DeploymentKind, DeploymentRowView,
    DeploymentStatus, DeploymentView, ProjectStateRowView, ProjectStateView, ProjectStatus,
};
#[allow(unused_imports)]
use crate::text::text_less;

verus! {

/// Whether a text names a state of a deployment that was started and has not ended.
pub open spec fn names_started_state(text: Seq<char>) -> bool {
    text == "fetching"@ || text == "building"@ || text == "migrating"@ || text == "activating"@
        || text == "healthChecking"@ || text == "rollingBack"@
}

/// Whether a text names a state of a deployment that has not ended.
pub open spec fn names_open_state(text: Seq<char>) -> bool {
    text == "queued"@ || names_started_state(text)
}

/// Whether a text names a state of a deployment that did not succeed.
pub open spec fn names_failure(text: Seq<char>) -> bool {
    text == "failed"@ || text == "rollbackFailed"@
}

/// Which rows have ended, have been started and are cleaned goes by the texts of their states; a
/// row with another text is none of these.
pub proof fn states_go_by_their_texts(row: DeploymentRowView)
    ensures
        row.unfinished() <==> names_open_state(row.status),
        row.under_way() <==> names_started_state(row.status),
        row.cleanable(CleanDeploymentType::Failed) <==> names_failure(row.status),
        row.cleanable(CleanDeploymentType::Succeeded) <==> row.status == "succeeded"@,
        row.cleanable(CleanDeploymentType::All) <==> names_failure(row.status) || row.status
            == "succeeded"@,
        row.in_state(DeploymentStatus::Queued) <==> row.status == "queued"@,
        row.in_state(DeploymentStatus::Succeeded) <==> row.status == "succeeded"@,
        row.in_state(DeploymentStatus::Failed) <==> row.status == "failed"@,
        row.in_state(DeploymentStatus::RollbackFailed) <==> row.status == "rollbackFailed"@,
        !(names_open_state(row.status) && (names_failure(row.status) || row.status
            == "succeeded"@)),
        !(row.status == "queued"@ && names_started_state(row.status)),
{
    status_text_reads_back(DeploymentStatus::Queued);
    status_text_reads_back(DeploymentStatus::Fetching);
    status_text_reads_back(DeploymentStatus::Building);
    status_text_reads_back(DeploymentStatus::Migrating);
    status_text_reads_back(DeploymentStatus::Activating);
    status_text_reads_back(DeploymentStatus::HealthChecking);
    status_text_reads_back(DeploymentStatus::RollingBack);
    status_text_reads_back(DeploymentStatus::Succeeded);
    status_text_reads_back(DeploymentStatus::Failed);
    status_text_reads_back(DeploymentStatus::RollbackFailed);
}

proof fn one_comes_last(set: Set<Seq<char>>, before: spec_fn(Seq<char>, Seq<char>) -> bool) -> (last:
    Seq<char>)
    requires
        set.finite(),
        set.len() > 0,
        forall|a: Seq<char>, b: Seq<char>|
            set.contains(a) && set.contains(b) && a != b ==> #[trigger] before(a, b) || before(b, a),
        forall|a: Seq<char>, b: Seq<char>, c: Seq<char>|
            #![trigger before(a, b), before(b, c)]
            set.contains(a) && set.contains(b) && set.contains(c) && before(a, b) && before(b, c)
                ==> before(a, c),
    ensures
        set.contains(last),
        forall|other: Seq<char>|
            set.contains(other) && other != last ==> #[trigger] before(other, last),
    decreases set.len(),
{
    let some = set.choose();
    let others = set.remove(some);
    if others.len() == 0 {
        assert forall|other: Seq<char>| set.contains(other) && other != some implies #[trigger] before(
            other,
            some,
        ) by {
            assert(others.contains(other));
            assert(others =~= Set::empty());
        }
        some
    } else {
        let last = one_comes_last(others, before);
        if before(last, some) {
            assert forall|other: Seq<char>|
                set.contains(other) && other != some implies #[trigger] before(other, some) by {
                if other != last {
                    assert(others.contains(other));
                    assert(before(other, last));
                }
            }
            some
        } else {
            assert forall|other: Seq<char>|
                set.contains(other) && other != last implies #[trigger] before(other, last) by {
                if other != some {
                    assert(others.contains(other));
                } else {
                    assert(before(some, last) || before(last, some));
                }
            }
            last
        }
    }
}

/// Whether a completion time comes before another: none comes before any, and others go by their
/// texts.
pub open spec fn earlier(left: Option<Seq<char>>, right: Option<Seq<char>>) -> bool {
    right matches Some(right) && (left matches Some(left) ==> text_less(left, right))
}

/// Whether a deployment ended before another; the identifiers decide where the times are the same.
pub open spec fn ended_before(left: DeploymentRowView, right: DeploymentRowView) -> bool {
    earlier(left.completed_at, right.completed_at) || (left.completed_at == right.completed_at
        && text_less(left.id, right.id))
}

/// Whether a stored deployment of a project has succeeded with a commit.
pub open spec fn succeeded_with(
    db: DatabaseView,
    project_id: Seq<char>,
    commit_sha: Seq<char>,
    id: Seq<char>,
) -> bool {
    &&& db.deployments.contains_key(id)
    &&& db.deployments[id].project_id == project_id
    &&& db.deployments[id].commit_sha == Some(commit_sha)
    &&& db.deployments[id].status == "succeeded"@
}

proof fn a_last_release_exists(
    db: DatabaseView,
    project_id: Seq<char>,
    commit_sha: Seq<char>,
    some: Seq<char>,
) -> (last: Seq<char>)
    requires
        db.valid(),
        db.deployments.dom().finite(),
        succeeded_with(db, project_id, commit_sha, some),
    ensures
        succeeded_with(db, project_id, commit_sha, last),
        forall|other: Seq<char>| #[trigger]
            succeeded_with(db, project_id, commit_sha, other) && other != last ==> completed_before(
                db.deployments[other],
                db.deployments[last],
            ),
        db.last_release(project_id, commit_sha) == Some(db.deployments[last]),
{
    let set = db.deployments.dom().filter(
        |id: Seq<char>| succeeded_with(db, project_id, commit_sha, id),
    );
    db.deployments.dom().lemma_len_filter(
        |id: Seq<char>| succeeded_with(db, project_id, commit_sha, id),
    );
    assert(set.contains(some));
    let before = |a: Seq<char>, b: Seq<char>|
        completed_before(db.deployments[a], db.deployments[b]);
    assert forall|a: Seq<char>, b: Seq<char>|
        set.contains(a) && set.contains(b) && a != b implies #[trigger] before(a, b) || before(
        b,
        a,
    ) by {
        completion_is_total(db.deployments[a], db.deployments[b]);
    }
    assert forall|a: Seq<char>, b: Seq<char>, c: Seq<char>|
        #![trigger before(a, b), before(b, c)]
        set.contains(a) && set.contains(b) && set.contains(c) && before(a, b) && before(
            b,
            c,
        ) implies before(a, c) by {
        completion_is_transitive(db.deployments[a], db.deployments[b], db.deployments[c]);
    }
    let last = one_comes_last(set, before);
    assert forall|other: Seq<char>| #[trigger]
        db.released(project_id, commit_sha, other) && other != last implies completed_before(
        db.deployments[other],
        db.deployments[last],
    ) by {
        states_go_by_their_texts(db.deployments[other]);
        assert(set.contains(other));
        assert(before(other, last));
    }
    states_go_by_their_texts(db.deployments[last]);
    assert(db.released_last(project_id, commit_sha, last));
    last_release_is(db, project_id, commit_sha, last);
    assert forall|other: Seq<char>| #[trigger]
        succeeded_with(db, project_id, commit_sha, other) && other != last implies completed_before(
        db.deployments[other],
        db.deployments[last],
    ) by {
        assert(set.contains(other));
        assert(before(other, last));
    }
    last
}

/// A rollback goes only to a release that has succeeded: it repeats the commit, the tag and the
/// release path of the stored deployment of the project that was the last to succeed with that
/// commit. Where no stored deployment of the project has succeeded with the commit, no release is
/// found and nothing changes.
pub proof fn rollbacks_go_to_succeeded_releases(
    db: DatabaseView,
    project_id: Seq<char>,
    commit_sha: Seq<char>,
    release_is_directory: bool,
    id: Seq<char>,
    now: Seq<char>,
)
    requires
        db.valid(),
        db.deployments.dom().finite(),
    ensures
        ({
            let (after, result) = db.rolled_back(
                project_id,
                commit_sha,
                release_is_directory,
                id,
                now,
            );
            &&& (forall|other: Seq<char>|
                !#[trigger] succeeded_with(db, project_id, commit_sha, other)) ==> after == db
                && result == Err::<DeploymentView, AppErrorView>(
                AppErrorView::ReleaseNotFound { project_id, commit_sha },
            )
            &&& result is Err ==> after == db
            &&& result matches Ok(rollback) ==> {
                &&& release_is_directory
                &&& exists|origin: Seq<char>| #[trigger]
                    succeeded_with(db, project_id, commit_sha, origin) && rollback.release_path
                        is Some && db.deployments[origin].release_path == rollback.release_path
                        && db.deployments[origin].tag == rollback.tag && (forall|other: Seq<char>|
                        #[trigger]
                        succeeded_with(db, project_id, commit_sha, other) && other != origin
                            ==> ended_before(db.deployments[other], db.deployments[origin]))
                &&& rollback.id == id && rollback.project_id == project_id
                &&& rollback.kind is Rollback && rollback.status is Queued
                &&& rollback.commit_sha == Some(commit_sha) && rollback.requested_sha == commit_sha
                &&& rollback.created_at == now && rollback.completed_at is None
                &&& rollback.retry_of is None && rollback.previous_release_path is None
                &&& !db.deployments.contains_key(id) && db.projects.contains_key(project_id)
                &&& after.projects == db.projects
                &&& after.deployments == db.deployments.insert(id, rollback.row())
            }
        }),
{
    if exists|some: Seq<char>| #[trigger] succeeded_with(db, project_id, commit_sha, some) {
        let some = choose|some: Seq<char>| #[trigger]
            succeeded_with(db, project_id, commit_sha, some);
        let last = a_last_release_exists(db, project_id, commit_sha, some);
        assert(succeeded_with(db, project_id, commit_sha, last));
    } else {
        assert forall|other: Seq<char>| !db.released(project_id, commit_sha, other) by {
            states_go_by_their_texts(db.deployments[other]);
            assert(!succeeded_with(db, project_id, commit_sha, other));
        }
    }
}

/// A rollback is owed where the last deployment of the project that has succeeded with the commit
/// can be read and has a release path that is still a directory, and neither the identifier nor
/// the event key of the rollback is taken.
pub proof fn rollbacks_are_owed(
    db: DatabaseView,
    project_id: Seq<char>,
    commit_sha: Seq<char>,
    id: Seq<char>,
    now: Seq<char>,
    origin: Seq<char>,
)
    requires
        db.valid(),
        db.projects.contains_key(project_id),
        succeeded_with(db, project_id, commit_sha, origin),
        forall|other: Seq<char>| #[trigger]
            succeeded_with(db, project_id, commit_sha, other) && other != origin
                ==> ended_before(db.deployments[other], db.deployments[origin]),
        db.deployments[origin].kind == "deploy"@ || db.deployments[origin].kind == "rollback"@,
        db.deployments[origin].release_path is Some,
        !db.deployments.contains_key(id),
        forall|other: Seq<char>| #[trigger]
            db.deployments.contains_key(other) ==> db.deployments[other].event_key != "rollback:"@
                + project_id + ":"@ + commit_sha + ":"@ + id,
    ensures
        db.rolled_back(project_id, commit_sha, true, id, now).1 is Ok,
{
    states_go_by_their_texts(db.deployments[origin]);
    assert forall|other: Seq<char>| #[trigger]
        db.released(project_id, commit_sha, other) && other != origin implies completed_before(
        db.deployments[other],
        db.deployments[origin],
    ) by {
        states_go_by_their_texts(db.deployments[other]);
        assert(succeeded_with(db, project_id, commit_sha, other));
    }
    assert(db.released_last(project_id, commit_sha, origin));
    last_release_is(db, project_id, commit_sha, origin);
    status_text_reads_back(DeploymentStatus::Succeeded);
    assert(db.deployments[origin].deployment() is Ok);
}

/// Whether a stored deployment has not ended and belongs to a stored project that is neither
/// stopped nor blocked.
pub open spec fn waits(db: DatabaseView, id: Seq<char>) -> bool {
    &&& db.deployments.contains_key(id)
    &&& names_open_state(db.deployments[id].status)
    &&& db.projects.contains_key(db.deployments[id].project_id)
    &&& db.projects[db.deployments[id].project_id].stopped == 0
    &&& db.projects[db.deployments[id].project_id].blocked == 0
}

/// Whether a deployment was created before another; the identifiers decide where the times are
/// the same.
pub open spec fn created_before(left: DeploymentRowView, right: DeploymentRowView) -> bool {
    text_less(left.created_at, right.created_at) || (left.created_at == right.created_at
        && text_less(left.id, right.id))
}

/// The next deployment is the one that was created first of all that wait, and there is none
/// exactly if none waits. A queued one is recorded as being fetched; of one that was begun nothing
/// changes; and nothing else changes at all.
pub proof fn the_first_that_waits_is_next(db: DatabaseView, now: Seq<char>)
    requires
        db.valid(),
        db.deployments.dom().finite(),
    ensures
        ({
            let (after, result) = db.taken(now);
            &&& (forall|id: Seq<char>| !#[trigger] waits(db, id)) ==> after == db && result == Ok::<
                Option<DeploymentView>,
                AppErrorView,
            >(None)
            &&& (exists|id: Seq<char>| #[trigger] waits(db, id)) ==> exists|id: Seq<char>| {
                &&& #[trigger] waits(db, id)
                &&& forall|other: Seq<char>| #[trigger]
                    waits(db, other) && other != id ==> created_before(
                        db.deployments[id],
                        db.deployments[other],
                    )
                &&& result matches Ok(taken) ==> taken matches Some(taken) && taken.id == id
                &&& after.projects == db.projects
                &&& after.deployments == db.deployments.insert(
                    id,
                    if db.deployments[id].status == "queued"@ {
                        DeploymentRowView {
                            status: "fetching"@,
                            updated_at: now,
                            ..db.deployments[id]
                        }
                    } else {
                        db.deployments[id]
                    },
                )
            }
        }),
{
    assert forall|id: Seq<char>| #[trigger]
        waits(db, id) <==> db.selected(Selection::Ready, id) by {
        states_go_by_their_texts(db.deployments[id]);
    }
    if exists|id: Seq<char>| #[trigger] waits(db, id) {
        let some = choose|id: Seq<char>| #[trigger] waits(db, id);
        let set = db.deployments.dom().filter(|id: Seq<char>| waits(db, id));
        db.deployments.dom().lemma_len_filter(|id: Seq<char>| waits(db, id));
        assert(set.contains(some));
        let after = |a: Seq<char>, b: Seq<char>| older(db.deployments[b], db.deployments[a]);
        assert forall|a: Seq<char>, b: Seq<char>|
            set.contains(a) && set.contains(b) && a != b implies #[trigger] after(a, b) || after(
            b,
            a,
        ) by {
            age_is_total(db.deployments[a], db.deployments[b]);
        }
        assert forall|a: Seq<char>, b: Seq<char>, c: Seq<char>|
            #![trigger after(a, b), after(b, c)]
            set.contains(a) && set.contains(b) && set.contains(c) && after(a, b) && after(
                b,
                c,
            ) implies after(a, c) by {
            age_is_transitive(db.deployments[c], db.deployments[b], db.deployments[a]);
        }
        let first = one_comes_last(set, after);
        assert(waits(db, first));
        assert forall|other: Seq<char>| #[trigger]
            db.selected(Selection::Ready, other) && other != first implies older(
            db.deployments[first],
            db.deployments[other],
        ) by {
            assert(waits(db, other));
            assert(set.contains(other));
            assert(after(other, first));
        }
        assert(db.is_oldest(Selection::Ready, first));
        oldest_is(db, Selection::Ready, first);
        states_go_by_their_texts(db.deployments[first]);
        assert forall|other: Seq<char>| #[trigger]
            waits(db, other) && other != first implies created_before(
            db.deployments[first],
            db.deployments[other],
        ) by {
            assert(db.selected(Selection::Ready, other));
        }
    } else {
        assert forall|id: Seq<char>| !db.selected(Selection::Ready, id) by {
            assert(!waits(db, id));
        }
    }
}

/// A webhook for a stored project that is not stopped is answered by the stored deployment with
/// its event key, which stays as it is, or else by a new one that is queued with what was asked
/// for. Any other webhook is refused. Nothing but the new deployment changes.
pub proof fn a_webhook_queues_what_was_asked_for(
    db: DatabaseView,
    project_id: Seq<char>,
    event_key: Seq<char>,
    tag: Seq<char>,
    requested_sha: Seq<char>,
    id: Seq<char>,
    now: Seq<char>,
)
    requires
        db.valid(),
    ensures
        ({
            let (after, result) = db.webhook(project_id, event_key, tag, requested_sha, id, now);
            let known = db.projects.contains_key(project_id);
            &&& !known ==> result == Err::<CreatedView, AppErrorView>(
                AppErrorView::ProjectNotFound { project_id },
            )
            &&& known && db.projects[project_id].stopped != 0 ==> result == Err::<
                CreatedView,
                AppErrorView,
            >(AppErrorView::ProjectStopped { project_id })
            &&& result is Err ==> after == db
            &&& forall|holder: Seq<char>| #[trigger]
                db.deployments.contains_key(holder) && db.deployments[holder].event_key
                    == event_key ==> after == db && (result matches Ok(answer) ==> !answer.created
                    && answer.deployment.id == holder)
            &&& known && db.projects[project_id].stopped == 0 && !db.deployments.contains_key(id)
                && (forall|holder: Seq<char>| #[trigger]
                db.deployments.contains_key(holder) ==> db.deployments[holder].event_key
                    != event_key) ==> (result matches Ok(answer) && answer.created && ({
                let made = answer.deployment;
                &&& made.id == id && made.project_id == project_id && made.event_key == event_key
                &&& made.tag == tag && made.requested_sha == requested_sha
                &&& made.kind is Deploy && made.status is Queued
                &&& made.commit_sha is None && made.release_path is None
                &&& made.previous_release_path is None && made.retry_of is None
                &&& made.error_code is None && made.error_message is None
                &&& made.created_at == now && made.updated_at == now && made.completed_at is None
                &&& after.projects == db.projects
                &&& after.deployments == db.deployments.insert(id, made.row())
            }))
        }),
{
    assert forall|holder: Seq<char>| #[trigger]
        db.deployments.contains_key(holder) && db.deployments[holder].event_key == event_key implies ({
        let (after, result) = db.webhook(project_id, event_key, tag, requested_sha, id, now);
        after == db && (result matches Ok(answer) ==> !answer.created && answer.deployment.id
            == holder)
    }) by {
        assert(db.holds_event(event_key, holder));
        event_holder_is(db, event_key, holder);
    }
    if exists|holder: Seq<char>| db.holds_event(event_key, holder) {
        let holder = choose|holder: Seq<char>| db.holds_event(event_key, holder);
        assert(db.deployments.contains_key(holder));
    }
}

/// Exactly a stored deployment that did not succeed is retried, unless its row cannot be read or
/// the identifier or the event key of the retry is taken.
pub proof fn failures_are_retried(
    db: DatabaseView,
    deployment_id: Seq<char>,
    id: Seq<char>,
    now: Seq<char>,
)
    requires
        db.valid(),
        db.links_fit(),
    ensures
        ({
            let (after, result) = db.retried(deployment_id, id, now);
            let stored = db.deployments.contains_key(deployment_id);
            &&& !stored ==> result == Err::<DeploymentView, AppErrorView>(
                AppErrorView::DeploymentNotFound { deployment_id },
            )
            &&& result is Ok ==> stored && names_failure(db.deployments[deployment_id].status)
            &&& result is Err ==> after == db
            &&& stored && names_failure(db.deployments[deployment_id].status) && (
            db.deployments[deployment_id].kind == "deploy"@ || db.deployments[deployment_id].kind
                == "rollback"@) && !db.deployments.contains_key(id) && (forall|other: Seq<char>|
                #[trigger]
                db.deployments.contains_key(other) ==> db.deployments[other].event_key != "retry:"@
                    + deployment_id + ":"@ + id) ==> result is Ok
            &&& result matches Ok(retry) ==> {
                &&& retry.created_at == now && retry.updated_at == now && retry.completed_at is None
                &&& retry.error_code is None && retry.error_message is None
                &&& retry.previous_release_path is None
                &&& after.projects == db.projects
                &&& after.deployments == db.deployments.insert(id, retry.row())
            }
        }),
{
    if db.deployments.contains_key(deployment_id) {
        let row = db.deployments[deployment_id];
        states_go_by_their_texts(row);
        status_text_reads_back(DeploymentStatus::Failed);
        status_text_reads_back(DeploymentStatus::RollbackFailed);
        assert(db.link_fits(deployment_id));
    }
}

/// A project is deleted exactly if it is stored, stopped and none of its deployments was started
/// and has not ended; all that is stored of others stays, and of it nothing.
pub proof fn only_idle_projects_are_deleted(db: DatabaseView, project_id: Seq<char>)
    requires
        db.valid(),
        db.links_fit(),
    ensures
        db.deleted(project_id).1 is Ok <==> db.projects.contains_key(project_id)
            && db.projects[project_id].stopped != 0 && (forall|id: Seq<char>| #[trigger]
            db.deployments.contains_key(id) && db.deployments[id].project_id == project_id
                ==> !names_started_state(db.deployments[id].status)),
        !db.projects.contains_key(project_id) ==> db.deleted(project_id).1 == Err::<
            (),
            AppErrorView,
        >(AppErrorView::ProjectNotFound { project_id }),
        db.projects.contains_key(project_id) && db.projects[project_id].stopped == 0 ==> db.deleted(
            project_id,
        ).1 == Err::<(), AppErrorView>(AppErrorView::ProjectMustBeStopped { project_id }),
{
    assert forall|id: Seq<char>| #[trigger]
        db.deployments.contains_key(id) && db.deployments[id].project_id == project_id implies (
    db.selected(Selection::UnderWay(project_id), id) <==> names_started_state(
        db.deployments[id].status,
    )) by {
        states_go_by_their_texts(db.deployments[id]);
    }
    assert forall|id: Seq<char>| !db.links_into(project_id, id) by {
        if db.deployments.contains_key(id) {
            assert(db.link_fits(id));
        }
    }
    if exists|id: Seq<char>| db.selected(Selection::UnderWay(project_id), id) {
        let id = choose|id: Seq<char>| db.selected(Selection::UnderWay(project_id), id);
        assert(db.deployments.contains_key(id));
    }
}

/// The release paths that are listed for retention are those of the deployments of the project
/// that have succeeded, each once: the one that was made last comes first, and no path comes
/// before another that was made after its own last time.
pub proof fn retained_paths_are_those_that_succeeded(
    db: DatabaseView,
    project_id: Seq<char>,
    paths: Seq<Seq<char>>,
    times: Seq<Option<Seq<char>>>,
)
    requires
        db.valid(),
        db.retains(project_id, paths),
        times.len() == paths.len(),
        forall|i: int|
            0 <= i < paths.len() ==> db.made_last_at(
                project_id,
                #[trigger] paths[i],
                #[trigger] times[i],
            ),
    ensures
        forall|path: Seq<char>| #[trigger]
            paths.contains(path) <==> exists|id: Seq<char>| #[trigger]
                db.deployments.contains_key(id) && db.deployments[id].project_id == project_id
                    && db.deployments[id].status == "succeeded"@ && db.deployments[id].release_path
                    == Some(path),
        paths.no_duplicates(),
        forall|i: int, j: int|
            #![trigger times[i], times[j]]
            0 <= i < j < paths.len() ==> !earlier(times[i], times[j]),
        forall|i: int, j: int|
            #![trigger paths[i], paths[j]]
            0 <= i < j < paths.len() && times[i] == times[j] ==> text_less(paths[i], paths[j]),
{
    assert forall|path: Seq<char>| #[trigger] paths.contains(path) <==> exists|id: Seq<char>|
        #[trigger]
        db.deployments.contains_key(id) && db.deployments[id].project_id == project_id
            && db.deployments[id].status == "succeeded"@ && db.deployments[id].release_path == Some(
            path,
        ) by {
        if paths.contains(path) {
            let id = choose|id: Seq<char>| #[trigger] db.made(project_id, path, id);
            states_go_by_their_texts(db.deployments[id]);
            assert(db.deployments.contains_key(id));
        }
        if exists|id: Seq<char>| #[trigger]
            db.deployments.contains_key(id) && db.deployments[id].project_id == project_id
                && db.deployments[id].status == "succeeded"@ && db.deployments[id].release_path
                == Some(path) {
            let id = choose|id: Seq<char>| #[trigger]
                db.deployments.contains_key(id) && db.deployments[id].project_id == project_id
                    && db.deployments[id].status == "succeeded"@ && db.deployments[id].release_path
                    == Some(path);
            states_go_by_their_texts(db.deployments[id]);
            assert(db.made(project_id, path, id));
        }
    }
    assert forall|i: int| 0 <= i < paths.len() implies db.last_made(
        project_id,
        #[trigger] paths[i],
    ) == times[i] by {
        assert(db.made_last_at(project_id, paths[i], times[i]));
        times_are_unique(db, project_id, paths[i], times[i]);
    }
    assert forall|i: int, j: int|
        #![trigger times[i], times[j]]
        0 <= i < j < paths.len() implies !earlier(times[i], times[j]) by {
        assert(db.path_before(project_id, paths[i], paths[j]));
        time_is_total(times[i], times[j]);
    }
    assert forall|i: int, j: int|
        #![trigger paths[i], paths[j]]
        0 <= i < j < paths.len() && times[i] == times[j] implies text_less(paths[i], paths[j]) by {
        assert(db.path_before(project_id, paths[i], paths[j]));
        time_is_total(times[i], times[j]);
    }
    assert forall|i: int, j: int|
        0 <= i < paths.len() && 0 <= j < paths.len() && i != j implies paths[i] != paths[j] by {
        let (a, b) = if i < j {
            (i, j)
        } else {
            (j, i)
        };
        assert(db.path_before(project_id, paths[a], paths[b]));
        time_is_total(times[a], times[b]);
        crate::text::text_order_is_total(paths[a], paths[b]);
    }
}

proof fn times_are_unique(
    db: DatabaseView,
    project_id: Seq<char>,
    path: Seq<char>,
    time: Option<Seq<char>>,
)
    requires
        db.made_last_at(project_id, path, time),
    ensures
        db.last_made(project_id, path) == time,
{
    let chosen = db.last_made(project_id, path);
    assert(db.made_last_at(project_id, path, chosen));
    time_is_total(time, chosen);
    let a = choose|id: Seq<char>| #[trigger]
        db.made(project_id, path, id) && db.deployments[id].completed_at == time;
    let b = choose|id: Seq<char>| #[trigger]
        db.made(project_id, path, id) && db.deployments[id].completed_at == chosen;
    assert(!time_less(chosen, db.deployments[a].completed_at));
    assert(!time_less(time, db.deployments[b].completed_at));
}

/// Whether two rows differ at most in what is named: the state, the commit, the release, the
/// previous release, the error and the times of change and completion.
pub open spec fn same_origin(left: DeploymentRowView, right: DeploymentRowView) -> bool {
    &&& left.id == right.id && left.project_id == right.project_id
    &&& left.event_key == right.event_key && left.kind == right.kind
    &&& left.tag == right.tag && left.requested_sha == right.requested_sha
    &&& left.retry_of == right.retry_of && left.created_at == right.created_at
}

/// Recording the state, the commit, the release, the activation or the end of a stored deployment
/// changes that and the time of the change, and nothing else of it; of one that is not stored
/// nothing is recorded.
pub proof fn records_change_what_they_name(
    db: DatabaseView,
    id: Seq<char>,
    status: DeploymentStatus,
    text: Seq<char>,
    target: Option<Seq<char>>,
    code: Option<Seq<char>>,
    message: Option<Seq<char>>,
    now: Seq<char>,
)
    requires
        db.valid(),
        db.deployments.contains_key(id),
    ensures
        ({
            let row = db.deployments[id];
            let stated = db.status_set(id, status, now).0.deployments[id];
            let resolved = db.commit_set(id, text, now).0.deployments[id];
            let released = db.release_set(id, text, now).0.deployments[id];
            let activated = db.activation_set(id, target, now).0.deployments[id];
            let ended = db.ended(id, status, code, message, now).0.deployments[id];
            &&& db.status_set(id, status, now).1 is Ok && db.commit_set(id, text, now).1 is Ok
            &&& db.release_set(id, text, now).1 is Ok && db.activation_set(id, target, now).1 is Ok
            &&& db.ended(id, status, code, message, now).1 is Ok
            &&& same_origin(row, stated) && same_origin(row, resolved) && same_origin(row, released)
            &&& same_origin(row, activated) && same_origin(row, ended)
            &&& stated.updated_at == now && resolved.updated_at == now
            &&& released.updated_at == now && activated.updated_at == now && ended.updated_at == now
            &&& stated.status == status.text() && ended.status == status.text()
            &&& activated.status == "activating"@ && activated.previous_release_path == target
            &&& resolved.status == row.status && released.status == row.status
            &&& resolved.commit_sha == Some(text) && released.release_path == Some(text)
            &&& stated.commit_sha == row.commit_sha && released.commit_sha == row.commit_sha
            &&& activated.commit_sha == row.commit_sha && ended.commit_sha == row.commit_sha
            &&& stated.release_path == row.release_path && resolved.release_path
                == row.release_path
            &&& activated.release_path == row.release_path && ended.release_path
                == row.release_path
            &&& stated.previous_release_path == row.previous_release_path
            &&& resolved.previous_release_path == row.previous_release_path
            &&& released.previous_release_path == row.previous_release_path
            &&& ended.previous_release_path == row.previous_release_path
            &&& ended.error_code == code && ended.error_message == message
            &&& ended.completed_at == Some(now)
            &&& stated.completed_at == row.completed_at && resolved.completed_at
                == row.completed_at
            &&& released.completed_at == row.completed_at && activated.completed_at
                == row.completed_at
        }),
{
}

/// Stopping, starting, blocking and unblocking a stored project change the flag that they are
/// about, the reason of a blocking and the time, and nothing else; and a project is shown as
/// blocked, else as stopped, else as running, by these flags.
pub proof fn flags_change_as_they_are_named(
    db: DatabaseView,
    project_id: Seq<char>,
    reason: Seq<char>,
    now: Seq<char>,
)
    requires
        db.valid(),
        db.projects.contains_key(project_id),
    ensures
        ({
            let row = db.projects[project_id];
            let (stopped, shown) = db.stopped(project_id, now);
            let (started, answer) = db.started(project_id, now);
            let (blocked, done) = db.blocked(project_id, Some(reason), now);
            let (unblocked, undone) = db.blocked(project_id, None, now);
            &&& shown is Ok && done is Ok && undone is Ok
            &&& answer is Ok <==> row.blocked == 0
            &&& answer is Err ==> started == db
            &&& stopped.deployments == db.deployments && started.deployments == db.deployments
            &&& blocked.deployments == db.deployments && unblocked.deployments == db.deployments
            &&& stopped.projects == db.projects.insert(
                project_id,
                ProjectStateRowView { stopped: 1, updated_at: now, ..row },
            )
            &&& answer is Ok ==> started.projects == db.projects.insert(
                project_id,
                ProjectStateRowView { stopped: 0, updated_at: now, ..row },
            )
            &&& blocked.projects == db.projects.insert(
                project_id,
                ProjectStateRowView {
                    blocked: 1,
                    blocked_reason: Some(reason),
                    updated_at: now,
                    ..row
                },
            )
            &&& unblocked.projects == db.projects.insert(
                project_id,
                ProjectStateRowView { blocked: 0, blocked_reason: None, updated_at: now, ..row },
            )
            &&& row.state().status is Blocked <==> row.blocked != 0
            &&& row.state().status is Stopped <==> row.blocked == 0 && row.stopped != 0
            &&& row.state().status is Running <==> row.blocked == 0 && row.stopped == 0
            &&& row.state().stopped == (row.stopped != 0) && row.state().blocked == (row.blocked
                != 0)
            &&& row.state().blocked_reason == row.blocked_reason
        }),
{
}

/// Registering projects adds those that are not stored yet, running, and leaves all others and
/// every deployment as they are.
pub proof fn registering_adds_only_new_projects(
    db: DatabaseView,
    project_ids: Seq<Seq<char>>,
    now: Seq<char>,
)
    ensures
        ({
            let after = db.registered(project_ids, now);
            &&& after.deployments == db.deployments
            &&& forall|id: Seq<char>| #[trigger]
                after.projects.contains_key(id) <==> db.projects.contains_key(id)
                    || project_ids.contains(id)
            &&& forall|id: Seq<char>| #[trigger]
                db.projects.contains_key(id) ==> after.projects[id] == db.projects[id]
            &&& forall|id: Seq<char>| #[trigger]
                project_ids.contains(id) && !db.projects.contains_key(id) ==> after.projects[id]
                    == (ProjectStateRowView {
                    project_id: id,
                    stopped: 0,
                    blocked: 0,
                    blocked_reason: None,
                    updated_at: now,
                })
        }),
    decreases project_ids.len(),
{
    if project_ids.len() > 0 {
        let fewer = project_ids.drop_last();
        registering_adds_only_new_projects(db, fewer, now);
        let before = db.registered(fewer, now);
        let after = db.registered(project_ids, now);
        let last = project_ids.last();
        assert(project_ids[project_ids.len() - 1] == last);
        assert forall|id: Seq<char>| #[trigger]
            project_ids.contains(id) <==> fewer.contains(id) || id == last by {
            if project_ids.contains(id) {
                let i = choose|i: int| 0 <= i < project_ids.len() && project_ids[i] == id;
                if i < fewer.len() {
                    assert(fewer[i] == id);
                }
            }
            if fewer.contains(id) {
                let i = choose|i: int| 0 <= i < fewer.len() && fewer[i] == id;
                assert(project_ids[i] == id);
            }
        }
        assert forall|id: Seq<char>| #[trigger]
            db.projects.contains_key(id) implies after.projects[id] == db.projects[id] by {
            assert(before.projects.contains_key(id));
        }
    }
}

/// The deployments of a project are listed from the one that was created last to the one that was
/// created first, each stored one once and none of another project.
pub proof fn deployments_are_listed_newest_first(
    db: DatabaseView,
    project_id: Seq<char>,
    list: Seq<DeploymentRowView>,
)
    requires
        db.valid(),
        db.lists(Selection::OfProject(project_id), list),
    ensures
        db.newest(Selection::OfProject(project_id)) == list,
        forall|i: int, j: int|
            0 <= i < j < list.len() ==> created_before(#[trigger] list[j], #[trigger] list[i]),
        forall|i: int|
            0 <= i < list.len() ==> (#[trigger] list[i]).project_id == project_id
                && db.deployments.contains_key(list[i].id) && db.deployments[list[i].id]
                == list[i],
        forall|id: Seq<char>| #[trigger]
            db.deployments.contains_key(id) && db.deployments[id].project_id == project_id
                ==> list.contains(db.deployments[id]),
        list.no_duplicates(),
{
    newest_is(db, Selection::OfProject(project_id), list);
    assert forall|i: int| 0 <= i < list.len() implies (#[trigger] list[i]).project_id == project_id
        && db.deployments.contains_key(list[i].id) && db.deployments[list[i].id] == list[i] by {
        assert(list.contains(list[i]));
        assert(db.selected(Selection::OfProject(project_id), list[i].id));
    }
    assert forall|id: Seq<char>| #[trigger]
        db.deployments.contains_key(id) && db.deployments[id].project_id
            == project_id implies list.contains(db.deployments[id]) by {
        assert(db.selected(Selection::OfProject(project_id), db.deployments[id].id));
    }
    assert forall|i: int, j: int|
        0 <= i < list.len() && 0 <= j < list.len() && i != j implies list[i] != list[j] by {
        age_is_total(list[i], list[j]);
        if i < j {
            assert(older(list[j], list[i]));
        } else {
            assert(older(list[i], list[j]));
        }
    }
}

/// Whether a row has ended in a way that is cleaned.
pub open spec fn ended_as(deployment_type: CleanDeploymentType, status: Seq<char>) -> bool {
    match deployment_type {
        CleanDeploymentType::Failed => names_failure(status),
        CleanDeploymentType::Succeeded => status == "succeeded"@,
        CleanDeploymentType::All => names_failure(status) || status == "succeeded"@,
    }
}

/// Cleaning keeps of the deployments of the project that have ended in the wanted way as many as
/// is asked for, those that were created last, and takes the others of them and nothing else. It
/// is refused while a deployment of the project has not ended.
pub proof fn cleaning_takes_the_oldest(
    db: DatabaseView,
    project_id: Seq<char>,
    keep: u64,
    deployment_type: CleanDeploymentType,
    list: Seq<DeploymentRowView>,
)
    requires
        db.valid(),
        db.lists(Selection::Cleanable(project_id, deployment_type), list),
        keep <= i64::MAX,
        db.projects.contains_key(project_id),
    ensures
        ({
            let (after, result) = db.cleaned(project_id, keep, deployment_type);
            &&& (exists|id: Seq<char>| #[trigger]
                db.deployments.contains_key(id) && db.deployments[id].project_id == project_id
                    && names_open_state(db.deployments[id].status)) ==> result is Err && after == db
            &&& forall|i: int|
                0 <= i < list.len() ==> ended_as(deployment_type, (#[trigger] list[i]).status)
                    && list[i].project_id == project_id
            &&& forall|id: Seq<char>| #[trigger]
                db.deployments.contains_key(id) && db.deployments[id].project_id == project_id
                    && ended_as(deployment_type, db.deployments[id].status) ==> list.contains(
                    db.deployments[id],
                )
            &&& forall|i: int, j: int|
                0 <= i < j < list.len() ==> created_before(#[trigger] list[j], #[trigger] list[i])
            &&& result matches Ok(gone) ==> {
                &&& gone.len() == (if keep < list.len() {
                    list.len() - keep
                } else {
                    0
                })
                &&& forall|i: int|
                    0 <= i < gone.len() ==> (#[trigger] gone[i]).row() == list[i + keep]
                        && !after.deployments.contains_key(list[i + keep].id)
                &&& forall|id: Seq<char>|
                    db.deployments.contains_key(id) && !#[trigger] after.deployments.contains_key(id)
                        ==> exists|i: int|
                        keep <= i < list.len() && (#[trigger] list[i]).id == id
            }
        }),
{
    let selection = Selection::Cleanable(project_id, deployment_type);
    newest_is(db, selection, list);
    assert forall|i: int| 0 <= i < list.len() implies ended_as(
        deployment_type,
        (#[trigger] list[i]).status,
    ) && list[i].project_id == project_id by {
        assert(list.contains(list[i]));
        assert(db.selected(selection, list[i].id));
        states_go_by_their_texts(list[i]);
    }
    assert forall|id: Seq<char>| #[trigger]
        db.deployments.contains_key(id) && db.deployments[id].project_id == project_id && ended_as(
            deployment_type,
            db.deployments[id].status,
        ) implies list.contains(db.deployments[id]) by {
        states_go_by_their_texts(db.deployments[id]);
        assert(db.selected(selection, db.deployments[id].id));
    }
    if exists|id: Seq<char>| #[trigger]
        db.deployments.contains_key(id) && db.deployments[id].project_id == project_id
            && names_open_state(db.deployments[id].status) {
        let id = choose|id: Seq<char>| #[trigger]
            db.deployments.contains_key(id) && db.deployments[id].project_id == project_id
                && names_open_state(db.deployments[id].status);
        states_go_by_their_texts(db.deployments[id]);
        assert(db.selected(Selection::Unfinished(project_id), id));
    }
    let (after, result) = db.cleaned(project_id, keep, deployment_type);
    if let Ok(gone) = result {
        let rows = db.surplus(project_id, keep, deployment_type);
        rows_are_read_together(rows);
        assert forall|i: int| 0 <= i < gone.len() implies (#[trigger] gone[i]).row() == list[i
            + keep] && !after.deployments.contains_key(list[i + keep].id) by {
            assert(rows[i] == list[i + keep]);
            assert(ids(rows).contains(rows[i].id));
        }
        assert forall|id: Seq<char>|
            db.deployments.contains_key(id) && !#[trigger] after.deployments.contains_key(
                id,
            ) implies exists|i: int| keep <= i < list.len() && (#[trigger] list[i]).id == id by {
            assert(ids(rows).contains(id));
            let i = choose|i: int| 0 <= i < rows.len() && (#[trigger] rows[i]).id == id;
            assert(rows[i] == list[i + keep]);
        }
    }
}

} // verus!
