//! Stored deployments and projects, and what is done with them.
use vstd::prelude::*;

#[allow(unused_imports)]
use crate::db::order::{
    age_is_total, age_is_transitive, completion_is_total, completion_is_transitive, event_holder_is,
    last_release_is, newest_is, oldest_is, valid_after_change, valid_after_insert,
    valid_after_project, valid_without, valid_without_project,
};
use crate::db::rules::Selection;
#[allow(unused_imports)]
use crate::db::rules::{
    active, completed_before, id_taken, ids, link_broken, newest_first, older, queued, time_less,
    unlinked, CreatedView, DatabaseView,
};
#[allow(unused_imports)]
use crate::db::table::{
    distinct, filtered, filtered_grows, position, table, table_holds_the_rows, table_is_finite,
    table_of_filtered, table_of_push, table_of_update, Row,
};
use crate::error::AppError;
#[allow(unused_imports)]
use crate::error::{outcome, AppErrorView};
#[allow(unused_imports)]
use crate::model::{
    read_rows, DeploymentRowView, DeploymentView, ProjectStateRowView, ProjectStateView,
};
use crate::model::{
    deployments_of, CleanDeploymentType, Deployment, DeploymentKind, DeploymentRow,
    DeploymentStatus, ProjectState, ProjectStateRow,
};
#[allow(unused_imports)]
use crate::stamp::{utc_millis, uuid_text};
use crate::stamp::{new_id, now};
#[allow(unused_imports)]
use crate::text::signed_decimal;
use crate::text::{
    cat3, cat4, cat6, decimal_text, opt_text_copy, opt_text_eq, precedes, signed_decimal_text,
    text_eq,
};

pub mod laws;
pub mod order;
pub mod outcomes;
pub mod retain;
pub mod rules;
pub mod store;
pub mod table;

verus! {

impl View for Selection<String> {
    type V = Selection<Seq<char>>;

    open spec fn view(&self) -> Selection<Seq<char>> {
        match self {
            Selection::Ready => Selection::Ready,
            Selection::UnderWay(project_id) => Selection::UnderWay(project_id@),
            Selection::Unfinished(project_id) => Selection::Unfinished(project_id@),
            Selection::OfProject(project_id) => Selection::OfProject(project_id@),
            Selection::Cleanable(project_id, deployment_type) => Selection::Cleanable(
                project_id@,
                *deployment_type,
            ),
        }
    }
}

/// The rows of the stored deployments and projects.
pub struct Database {
    deployments: Vec<DeploymentRow>,
    projects: Vec<ProjectStateRow>,
}

/// A deployment and whether it was created.
#[derive(Debug)]
pub struct CreatedDeployment {
    pub deployment: Deployment,
    pub created: bool,
}

impl DeepView for CreatedDeployment {
    type V = CreatedView;

    open spec fn deep_view(&self) -> CreatedView {
        CreatedView { deployment: self.deployment@, created: self.created }
    }
}

impl View for Database {
    type V = DatabaseView;

    closed spec fn view(&self) -> DatabaseView {
        DatabaseView {
            deployments: table(self.deployments.deep_view()),
            projects: table(self.projects.deep_view()),
        }
    }
}

/// A missing deployment is reported where a change concerned none.
pub fn update_exactly_one(rows_affected: u64, deployment_id: &str) -> (result: Result<(), AppError>)
    ensures
        outcome(result) == (if rows_affected == 1 {
            Ok::<(), AppErrorView>(())
        } else {
            Err(AppErrorView::DeploymentNotFound { deployment_id: deployment_id@ })
        }),
{
    if rows_affected != 1 {
        return Err(AppError::DeploymentNotFound { deployment_id: deployment_id.to_owned() });
    }
    Ok(())
}

/// A missing project is reported where a change concerned none.
pub fn update_project_exactly_one(rows_affected: u64, project_id: &str) -> (result: Result<
    (),
    AppError,
>)
    ensures
        outcome(result) == (if rows_affected == 1 {
            Ok::<(), AppErrorView>(())
        } else {
            Err(AppErrorView::ProjectNotFound { project_id: project_id@ })
        }),
{
    if rows_affected != 1 {
        return Err(AppError::ProjectNotFound { project_id: project_id.to_owned() });
    }
    Ok(())
}

impl Database {
    /// Whether no two rows of a table share an identifier, and no two deployments an event key.
    pub closed spec fn wf(self) -> bool {
        &&& self.rows_distinct()
        &&& self@.valid()
    }

    closed spec fn rows_distinct(self) -> bool {
        &&& distinct(self.deployments.deep_view())
        &&& distinct(self.projects.deep_view())
    }

    /// Well-formed databases are valid.
    pub proof fn wf_is_valid(self)
        requires
            self.wf(),
        ensures
            self@.valid(),
    {
    }

    /// A database holds finitely many rows.
    pub proof fn rows_are_finite(self)
        ensures
            self@.deployments.dom().finite(),
            self@.projects.dom().finite(),
    {
        table_is_finite(self.deployments.deep_view());
        table_is_finite(self.projects.deep_view());
    }

    /// A database that holds nothing.
    pub fn empty() -> (database: Database)
        ensures
            database.wf(),
            database@.deployments == Map::<Seq<char>, DeploymentRowView>::empty(),
            database@.projects == Map::<Seq<char>, ProjectStateRowView>::empty(),
    {
        let deployments: Vec<DeploymentRow> = Vec::new();
        let projects: Vec<ProjectStateRow> = Vec::new();
        assert(deployments.deep_view() =~= Seq::<DeploymentRowView>::empty());
        assert(projects.deep_view() =~= Seq::<ProjectStateRowView>::empty());
        Database { deployments, projects }
    }

    fn find_deployment(&self, deployment_id: &str) -> (found: Option<usize>)
        requires
            self.rows_distinct(),
        ensures
            match found {
                Some(i) => i < self.deployments.len() && self.deployments[i as int].id@
                    == deployment_id@ && self@.deployments.contains_key(deployment_id@)
                    && self@.deployments[deployment_id@] == self.deployments[i as int]@,
                None => !self@.deployments.contains_key(deployment_id@),
            },
    {
        let ghost rows = self.deployments.deep_view();
        proof {
            table_holds_the_rows(rows);
        }
        let mut i: usize = 0;
        while i < self.deployments.len()
            invariant
                i <= self.deployments.len(),
                rows == self.deployments.deep_view(),
                self@.deployments == table(rows),
                forall|j: int|
                    0 <= j < rows.len() ==> table(rows).contains_key((#[trigger] rows[j]).id)
                        && table(rows)[rows[j].id] == rows[j],
                forall|j: int| 0 <= j < i ==> (#[trigger] rows[j]).id != deployment_id@,
            decreases self.deployments.len() - i,
        {
            assert(rows[i as int] == self.deployments[i as int]@);
            if text_eq(self.deployments[i].id.as_str(), deployment_id) {
                return Some(i);
            }
            i += 1;
        }
        proof {
            if table(rows).contains_key(deployment_id@) {
                let j = position(rows, deployment_id@);
                assert(rows[j].key() == deployment_id@);
                assert(rows[j].id == deployment_id@);
            }
        }
        None
    }

    fn find_project(&self, project_id: &str) -> (found: Option<usize>)
        requires
            self.rows_distinct(),
        ensures
            match found {
                Some(i) => i < self.projects.len() && self.projects[i as int].project_id@
                    == project_id@ && self@.projects.contains_key(project_id@)
                    && self@.projects[project_id@] == self.projects[i as int]@,
                None => !self@.projects.contains_key(project_id@),
            },
    {
        let ghost rows = self.projects.deep_view();
        proof {
            table_holds_the_rows(rows);
        }
        let mut i: usize = 0;
        while i < self.projects.len()
            invariant
                i <= self.projects.len(),
                rows == self.projects.deep_view(),
                self@.projects == table(rows),
                forall|j: int|
                    0 <= j < rows.len() ==> table(rows).contains_key(
                        (#[trigger] rows[j]).project_id,
                    ) && table(rows)[rows[j].project_id] == rows[j],
                forall|j: int| 0 <= j < i ==> (#[trigger] rows[j]).project_id != project_id@,
            decreases self.projects.len() - i,
        {
            assert(rows[i as int] == self.projects[i as int]@);
            if text_eq(self.projects[i].project_id.as_str(), project_id) {
                return Some(i);
            }
            i += 1;
        }
        proof {
            if table(rows).contains_key(project_id@) {
                let j = position(rows, project_id@);
                assert(rows[j].key() == project_id@);
                assert(rows[j].project_id == project_id@);
            }
        }
        None
    }

    fn put_deployment(&mut self, i: usize, deployment: DeploymentRow)
        requires
            old(self).rows_distinct(),
            i < old(self).deployments.len(),
            deployment.id@ == old(self).deployments[i as int].id@,
        ensures
            final(self).rows_distinct(),
            final(self)@ == old(self)@.with_deployment(deployment@),
            final(self).projects == old(self).projects,
    {
        let ghost before = self.deployments.deep_view();
        proof {
            table_of_update(before, i as int, deployment@);
        }
        self.deployments.set(i, deployment);
        assert(self.deployments.deep_view() =~= before.update(i as int, deployment@));
        assert(self@ =~= old(self)@.with_deployment(deployment@));
    }

    fn push_deployment(&mut self, deployment: DeploymentRow)
        requires
            old(self).rows_distinct(),
            !old(self)@.deployments.contains_key(deployment.id@),
        ensures
            final(self).rows_distinct(),
            final(self)@ == old(self)@.with_deployment(deployment@),
            final(self).projects == old(self).projects,
    {
        let ghost before = self.deployments.deep_view();
        proof {
            table_of_push(before, deployment@);
        }
        self.deployments.push(deployment);
        assert(self.deployments.deep_view() =~= before.push(deployment@));
        assert(self@ =~= old(self)@.with_deployment(deployment@));
    }

    fn put_project(&mut self, i: usize, project: ProjectStateRow)
        requires
            old(self).rows_distinct(),
            i < old(self).projects.len(),
            project.project_id@ == old(self).projects[i as int].project_id@,
        ensures
            final(self).rows_distinct(),
            final(self)@ == old(self)@.with_project(project@),
            final(self).deployments == old(self).deployments,
    {
        let ghost before = self.projects.deep_view();
        proof {
            table_of_update(before, i as int, project@);
        }
        self.projects.set(i, project);
        assert(self.projects.deep_view() =~= before.update(i as int, project@));
        assert(self@ =~= old(self)@.with_project(project@));
    }

    fn push_project(&mut self, project: ProjectStateRow)
        requires
            old(self).rows_distinct(),
            !old(self)@.projects.contains_key(project.project_id@),
        ensures
            final(self).rows_distinct(),
            final(self)@ == old(self)@.with_project(project@),
            final(self).deployments == old(self).deployments,
    {
        let ghost before = self.projects.deep_view();
        proof {
            table_of_push(before, project@);
        }
        self.projects.push(project);
        assert(self.projects.deep_view() =~= before.push(project@));
        assert(self@ =~= old(self)@.with_project(project@));
    }

    fn selects(&self, selection: &Selection<String>, deployment: &DeploymentRow) -> (selected: bool)
        requires
            self.rows_distinct(),
        ensures
            selected == self@.selects(selection@, deployment@),
    {
        match selection {
            Selection::Ready => {
                if !deployment.is_unfinished() {
                    return false;
                }
                match self.find_project(deployment.project_id.as_str()) {
                    Some(i) => self.projects[i].stopped == 0 && self.projects[i].blocked == 0,
                    None => false,
                }
            },
            Selection::UnderWay(project_id) => text_eq(
                deployment.project_id.as_str(),
                project_id.as_str(),
            ) && deployment.is_under_way(),
            Selection::Unfinished(project_id) => text_eq(
                deployment.project_id.as_str(),
                project_id.as_str(),
            ) && deployment.is_unfinished(),
            Selection::OfProject(project_id) => text_eq(
                deployment.project_id.as_str(),
                project_id.as_str(),
            ),
            Selection::Cleanable(project_id, deployment_type) => text_eq(
                deployment.project_id.as_str(),
                project_id.as_str(),
            ) && deployment.is_cleanable(*deployment_type),
        }
    }

    /// The position of the oldest deployment that is meant.
    fn oldest(&self, selection: &Selection<String>) -> (found: Option<usize>)
        requires
            self.rows_distinct(),
        ensures
            match found {
                Some(i) => i < self.deployments.len() && self@.oldest(selection@) == Some(
                    self.deployments[i as int]@,
                ) && self@.is_oldest(selection@, self.deployments[i as int].id@)
                    && self@.deployments[self.deployments[i as int].id@]
                    == self.deployments[i as int]@,
                None => self@.oldest(selection@) is None && forall|id: Seq<char>|
                    !self@.selected(selection@, id),
            },
    {
        let ghost rows = self.deployments.deep_view();
        let ghost db = self@;
        proof {
            table_holds_the_rows(rows);
        }
        let mut best: Option<usize> = None;
        let mut i: usize = 0;
        while i < self.deployments.len()
            invariant
                i <= self.deployments.len(),
                self.rows_distinct(),
                rows == self.deployments.deep_view(),
                distinct(rows),
                db == self@,
                best matches Some(b) ==> b < i && db.selects(selection@, rows[b as int])
                    && forall|j: int|
                    0 <= j < i && j != b && db.selects(selection@, #[trigger] rows[j]) ==> older(
                        rows[b as int],
                        rows[j],
                    ),
                best is None ==> forall|j: int|
                    0 <= j < i ==> !db.selects(selection@, #[trigger] rows[j]),
            decreases self.deployments.len() - i,
        {
            assert(rows[i as int] == self.deployments[i as int]@);
            if self.selects(selection, &self.deployments[i]) {
                match best {
                    None => {
                        best = Some(i);
                    },
                    Some(b) => {
                        assert(rows[b as int] == self.deployments[b as int]@);
                        assert(rows[b as int].key() != rows[i as int].key());
                        proof {
                            age_is_total(rows[i as int], rows[b as int]);
                        }
                        if is_older(&self.deployments[i], &self.deployments[b]) {
                            assert forall|j: int|
                                0 <= j < i + 1 && j != i && db.selects(
                                    selection@,
                                    #[trigger] rows[j],
                                ) implies older(rows[i as int], rows[j]) by {
                                if j != b {
                                    age_is_transitive(rows[i as int], rows[b as int], rows[j]);
                                }
                            }
                            best = Some(i);
                        }
                    },
                }
            }
            i += 1;
        }
        proof {
            match best {
                Some(b) => {
                    let id = rows[b as int].id;
                    assert(rows[b as int].key() == id);
                    assert(db.selected(selection@, id));
                    assert forall|other: Seq<char>| #[trigger]
                        db.selected(selection@, other) && other != id implies older(
                        db.deployments[id],
                        db.deployments[other],
                    ) by {
                        let j = position(rows, other);
                        assert(rows[j].key() == other);
                        assert(db.deployments[other] == rows[j]);
                    }
                    assert(db.is_oldest(selection@, id));
                    oldest_is(db, selection@, id);
                },
                None => {
                    assert forall|id: Seq<char>| !db.selected(selection@, id) by {
                        if db.selected(selection@, id) {
                            let j = position(rows, id);
                            assert(rows[j].key() == id);
                            assert(db.deployments[id] == rows[j]);
                        }
                    }
                },
            }
        }
        best
    }

    /// The deployments that are meant, the newest first.
    fn newest(&self, selection: &Selection<String>) -> (list: Vec<DeploymentRow>)
        requires
            self.rows_distinct(),
        ensures
            list.deep_view() == self@.newest(selection@),
            self@.lists(selection@, list.deep_view()),
    {
        let ghost rows = self.deployments.deep_view();
        let ghost db = self@;
        proof {
            table_holds_the_rows(rows);
        }
        let mut list: Vec<DeploymentRow> = Vec::new();
        let mut i: usize = 0;
        while i < self.deployments.len()
            invariant
                i <= self.deployments.len(),
                self.rows_distinct(),
                rows == self.deployments.deep_view(),
                distinct(rows),
                db == self@,
                newest_first(list.deep_view()),
                forall|deployment: DeploymentRowView| #[trigger]
                    list.deep_view().contains(deployment) <==> exists|j: int|
                        0 <= j < i && (#[trigger] rows[j]) == deployment && db.selects(
                            selection@,
                            rows[j],
                        ),
            decreases self.deployments.len() - i,
        {
            let ghost before = list.deep_view();
            assert(rows[i as int] == self.deployments[i as int]@);
            if self.selects(selection, &self.deployments[i]) {
                assert forall|k: int| 0 <= k < before.len() implies (#[trigger] before[k]).id
                    != rows[i as int].id by {
                    assert(before.contains(before[k]));
                    let j = choose|j: int|
                        0 <= j < i && (#[trigger] rows[j]) == before[k] && db.selects(
                            selection@,
                            rows[j],
                        );
                    assert(rows[j].key() != rows[i as int].key());
                }
                insert_newest(&mut list, self.deployments[i].copy());
                assert forall|deployment: DeploymentRowView| #[trigger]
                    list.deep_view().contains(deployment) <==> exists|j: int|
                        0 <= j < i + 1 && (#[trigger] rows[j]) == deployment && db.selects(
                            selection@,
                            rows[j],
                        ) by {
                    if list.deep_view().contains(deployment) {
                        if before.contains(deployment) {
                            let j = choose|j: int|
                                0 <= j < i && (#[trigger] rows[j]) == deployment && db.selects(
                                    selection@,
                                    rows[j],
                                );
                            assert(rows[j] == deployment);
                        } else {
                            assert(rows[i as int] == deployment);
                        }
                    }
                    if exists|j: int|
                        0 <= j < i + 1 && (#[trigger] rows[j]) == deployment && db.selects(
                            selection@,
                            rows[j],
                        ) {
                        let j = choose|j: int|
                            0 <= j < i + 1 && (#[trigger] rows[j]) == deployment && db.selects(
                                selection@,
                                rows[j],
                            );
                        if j < i {
                            assert(rows[j] == deployment);
                            assert(before.contains(deployment));
                        }
                    }
                }
            } else {
                assert forall|deployment: DeploymentRowView| #[trigger]
                    list.deep_view().contains(deployment) <==> exists|j: int|
                        0 <= j < i + 1 && (#[trigger] rows[j]) == deployment && db.selects(
                            selection@,
                            rows[j],
                        ) by {
                    if list.deep_view().contains(deployment) {
                        let j = choose|j: int|
                            0 <= j < i && (#[trigger] rows[j]) == deployment && db.selects(
                                selection@,
                                rows[j],
                            );
                        assert(rows[j] == deployment);
                    }
                    if exists|j: int|
                        0 <= j < i + 1 && (#[trigger] rows[j]) == deployment && db.selects(
                            selection@,
                            rows[j],
                        ) {
                        let j = choose|j: int|
                            0 <= j < i + 1 && (#[trigger] rows[j]) == deployment && db.selects(
                                selection@,
                                rows[j],
                            );
                        assert(j < i);
                        assert(rows[j] == deployment);
                    }
                }
            }
            i += 1;
        }
        proof {
            let shown = list.deep_view();
            assert forall|deployment: DeploymentRowView| #[trigger]
                shown.contains(deployment) <==> db.selected(selection@, deployment.id)
                    && db.deployments[deployment.id] == deployment by {
                if shown.contains(deployment) {
                    let j = choose|j: int|
                        0 <= j < i && (#[trigger] rows[j]) == deployment && db.selects(
                            selection@,
                            rows[j],
                        );
                    assert(rows[j].key() == deployment.id);
                }
                if db.selected(selection@, deployment.id) && db.deployments[deployment.id]
                    == deployment {
                    let j = position(rows, deployment.id);
                    assert(rows[j].key() == deployment.id);
                    assert(rows[j] == deployment);
                }
            }
            assert(db.lists(selection@, shown));
            newest_is(db, selection@, shown);
        }
        list
    }

    /// Stores the projects that are not stored yet; they run.
    pub fn register_projects(&mut self, project_ids: &Vec<String>)
        requires
            old(self).wf(),
        ensures
            final(self).wf(),
            exists|now: Seq<char>|
                utc_millis(now) && final(self)@
                    == #[trigger] old(self)@.registered(project_ids.deep_view(), now),
    {
        let now = now();
        self.register_projects_at(project_ids, now.as_str());
        assert(self@ == old(self)@.registered(project_ids.deep_view(), now@));
    }

    /// Stores the projects that are not stored yet, at a time; they run.
    pub fn register_projects_at(&mut self, project_ids: &Vec<String>, now: &str)
        requires
            old(self).wf(),
        ensures
            final(self).wf(),
            final(self)@ == old(self)@.registered(project_ids.deep_view(), now@),
    {
        let ghost names = project_ids.deep_view();
        let mut i: usize = 0;
        assert(names.take(0) =~= Seq::<Seq<char>>::empty());
        while i < project_ids.len()
            invariant
                i <= project_ids.len(),
                names == project_ids.deep_view(),
                self.wf(),
                self@ == old(self)@.registered(names.take(i as int), now@),
            decreases project_ids.len() - i,
        {
            assert(names.take(i + 1).drop_last() =~= names.take(i as int));
            assert(names.take(i + 1).last() == project_ids[i as int]@);
            if self.find_project(project_ids[i].as_str()).is_none() {
                let project = ProjectStateRow {
                    project_id: project_ids[i].clone(),
                    stopped: 0,
                    blocked: 0,
                    blocked_reason: None,
                    updated_at: now.to_owned(),
                };
                proof {
                    valid_after_project(self@, project@);
                }
                self.push_project(project);
            }
            i += 1;
        }
        assert(names.take(i as int) =~= names);
    }

    /// Whether a value that was read from the storage is the one that was asked for.
    pub fn health(value: i64) -> (result: Result<(), AppError>)
        ensures
            outcome(result) == (if value == 1 {
                Ok::<(), AppErrorView>(())
            } else {
                Err(
                    AppErrorView::InvalidState {
                        reason: "SQLite health query returned "@ + signed_decimal(value as int)
                            + ", expected 1"@,
                    },
                )
            }),
    {
        if value != 1 {
            return Err(
                AppError::InvalidState {
                    reason: cat3(
                        "SQLite health query returned ",
                        signed_decimal_text(value).as_str(),
                        ", expected 1",
                    ),
                },
            );
        }
        Ok(())
    }

    /// The position of the deployment that holds an event key.
    fn find_event(&self, event_key: &str) -> (found: Option<usize>)
        requires
            self.wf(),
        ensures
            match found {
                Some(i) => i < self.deployments.len() && self@.by_event_key(event_key@) == Some(
                    self.deployments[i as int]@,
                ),
                None => self@.by_event_key(event_key@) is None,
            },
    {
        let ghost rows = self.deployments.deep_view();
        let ghost db = self@;
        proof {
            table_holds_the_rows(rows);
        }
        let mut i: usize = 0;
        while i < self.deployments.len()
            invariant
                i <= self.deployments.len(),
                rows == self.deployments.deep_view(),
                db == self@,
                db.valid(),
                db.deployments == table(rows),
                forall|j: int|
                    0 <= j < rows.len() ==> table(rows).contains_key((#[trigger] rows[j]).key())
                        && table(rows)[rows[j].key()] == rows[j],
                forall|j: int| 0 <= j < i ==> (#[trigger] rows[j]).event_key != event_key@,
            decreases self.deployments.len() - i,
        {
            assert(rows[i as int] == self.deployments[i as int]@);
            if text_eq(self.deployments[i].event_key.as_str(), event_key) {
                proof {
                    let id = rows[i as int].key();
                    assert(db.holds_event(event_key@, id));
                    event_holder_is(db, event_key@, id);
                }
                return Some(i);
            }
            i += 1;
        }
        proof {
            assert forall|id: Seq<char>| !db.holds_event(event_key@, id) by {
                if db.holds_event(event_key@, id) {
                    let j = position(rows, id);
                    assert(rows[j].key() == id);
                }
            }
        }
        None
    }

    /// Queues a deployment for an event, unless one was queued for it before.
    pub fn create_webhook_deployment(
        &mut self,
        project_id: &str,
        event_key: &str,
        tag: &str,
        requested_sha: &str,
    ) -> (result: Result<CreatedDeployment, AppError>)
        requires
            old(self).wf(),
        ensures
            final(self).wf(),
            exists|id: Seq<char>, now: Seq<char>|
                uuid_text(id) && utc_millis(now) && (final(self)@, outcome(result))
                    == #[trigger] old(self)@.webhook(
                    project_id@,
                    event_key@,
                    tag@,
                    requested_sha@,
                    id,
                    now,
                ),
    {
        let id = new_id();
        let now = now();
        let ghost (shown_id, shown_now) = (id@, now@);
        let result = self.create_webhook_deployment_at(
            project_id,
            event_key,
            tag,
            requested_sha,
            id,
            now.as_str(),
        );
        assert((self@, outcome(result)) == old(self)@.webhook(
            project_id@,
            event_key@,
            tag@,
            requested_sha@,
            shown_id,
            shown_now,
        ));
        result
    }

    /// Queues a deployment for an event, with an identifier and at a time, unless one was queued
    /// for it before.
    pub fn create_webhook_deployment_at(
        &mut self,
        project_id: &str,
        event_key: &str,
        tag: &str,
        requested_sha: &str,
        id: String,
        now: &str,
    ) -> (result: Result<CreatedDeployment, AppError>)
        requires
            old(self).wf(),
        ensures
            final(self).wf(),
            (final(self)@, outcome(result)) == old(self)@.webhook(
                project_id@,
                event_key@,
                tag@,
                requested_sha@,
                id@,
                now@,
            ),
    {
        match self.find_project(project_id) {
            None => {
                return Err(AppError::ProjectNotFound { project_id: project_id.to_owned() });
            },
            Some(i) => {
                if self.projects[i].stopped != 0 {
                    return Err(AppError::ProjectStopped { project_id: project_id.to_owned() });
                }
            },
        }
        match self.find_event(event_key) {
            Some(i) => match Deployment::try_from(self.deployments[i].copy()) {
                Ok(deployment) => Ok(CreatedDeployment { deployment, created: false }),
                Err(error) => Err(error),
            },
            None => {
                if self.find_deployment(id.as_str()).is_some() {
                    return Err(id_taken_error());
                }
                let deployment = queued_deployment(
                    id,
                    project_id.to_owned(),
                    event_key.to_owned(),
                    DeploymentKind::Deploy,
                    tag.to_owned(),
                    requested_sha.to_owned(),
                    now,
                );
                proof {
                    valid_after_insert(self@, deployment@.row());
                }
                self.push_deployment(deployment.row());
                Ok(CreatedDeployment { deployment, created: true })
            },
        }
    }

    /// Stores a new deployment.
    fn insert(&mut self, deployment: Deployment) -> (result: Result<Deployment, AppError>)
        requires
            old(self).wf(),
        ensures
            final(self).wf(),
            (final(self)@, outcome(result)) == old(self)@.inserted(deployment@),
    {
        if self.find_deployment(deployment.id.as_str()).is_some() {
            return Err(id_taken_error());
        }
        if self.find_event(deployment.event_key.as_str()).is_some() {
            return Err(
                AppError::Database {
                    source: "error returned from database: (code: 2067) UNIQUE constraint failed: deployments.event_key".to_owned(),
                },
            );
        }
        if self.find_project(deployment.project_id.as_str()).is_none() {
            return Err(link_broken_error());
        }
        proof {
            valid_after_insert(self@, deployment@.row());
        }
        self.push_deployment(deployment.row());
        Ok(deployment)
    }

    /// Queues a deployment that failed once more.
    pub fn create_retry(&mut self, deployment_id: &str) -> (result: Result<Deployment, AppError>)
        requires
            old(self).wf(),
        ensures
            final(self).wf(),
            exists|id: Seq<char>, now: Seq<char>|
                uuid_text(id) && utc_millis(now) && (final(self)@, outcome(result))
                    == #[trigger] old(self)@.retried(
                    deployment_id@,
                    id,
                    now,
                ),
    {
        let id = new_id();
        let now = now();
        let ghost (shown_id, shown_now) = (id@, now@);
        let result = self.create_retry_at(deployment_id, id, now.as_str());
        assert((self@, outcome(result)) == old(self)@.retried(
            deployment_id@,
            shown_id,
            shown_now,
        ));
        result
    }

    /// Queues a deployment that failed once more, with an identifier and at a time.
    pub fn create_retry_at(&mut self, deployment_id: &str, id: String, now: &str) -> (result:
        Result<Deployment, AppError>)
        requires
            old(self).wf(),
        ensures
            final(self).wf(),
            (final(self)@, outcome(result)) == old(self)@.retried(deployment_id@, id@, now@),
    {
        let i = match self.find_deployment(deployment_id) {
            Some(i) => i,
            None => {
                return Err(
                    AppError::DeploymentNotFound { deployment_id: deployment_id.to_owned() },
                );
            },
        };
        let original = match Deployment::try_from(self.deployments[i].copy()) {
            Ok(original) => original,
            Err(error) => {
                return Err(error);
            },
        };
        match original.status {
            DeploymentStatus::Failed | DeploymentStatus::RollbackFailed => {},
            _ => {
                return Err(
                    AppError::DeploymentNotRetryable {
                        deployment_id: original.id,
                        status: original.status.name().to_owned(),
                    },
                );
            },
        }
        let event_key = cat4("retry:", deployment_id, ":", id.as_str());
        let mut deployment = queued_deployment(
            id,
            original.project_id,
            event_key,
            original.kind,
            original.tag,
            original.requested_sha,
            now,
        );
        deployment.commit_sha = original.commit_sha;
        deployment.release_path = original.release_path;
        deployment.retry_of = Some(original.id);
        self.insert(deployment)
    }

    /// Queues a release that succeeded to be activated again; the caller says whether its path
    /// leads to a directory.
    pub fn create_rollback(
        &mut self,
        project_id: &str,
        commit_sha: &str,
        release_is_directory: bool,
    ) -> (result: Result<Deployment, AppError>)
        requires
            old(self).wf(),
        ensures
            final(self).wf(),
            exists|id: Seq<char>, now: Seq<char>|
                uuid_text(id) && utc_millis(now) && (final(self)@, outcome(result))
                    == #[trigger] old(self)@.rolled_back(
                    project_id@,
                    commit_sha@,
                    release_is_directory,
                    id,
                    now,
                ),
    {
        let id = new_id();
        let now = now();
        let ghost (shown_id, shown_now) = (id@, now@);
        let result = self.create_rollback_at(
            project_id,
            commit_sha,
            release_is_directory,
            id,
            now.as_str(),
        );
        assert((self@, outcome(result)) == old(self)@.rolled_back(
            project_id@,
            commit_sha@,
            release_is_directory,
            shown_id,
            shown_now,
        ));
        result
    }

    /// Queues a release that succeeded to be activated again, with an identifier and at a time.
    pub fn create_rollback_at(
        &mut self,
        project_id: &str,
        commit_sha: &str,
        release_is_directory: bool,
        id: String,
        now: &str,
    ) -> (result: Result<Deployment, AppError>)
        requires
            old(self).wf(),
        ensures
            final(self).wf(),
            (final(self)@, outcome(result)) == old(self)@.rolled_back(
                project_id@,
                commit_sha@,
                release_is_directory,
                id@,
                now@,
            ),
    {
        let release = match self.successful_release(project_id, commit_sha) {
            Err(error) => {
                return Err(error);
            },
            Ok(Some(release)) => release,
            Ok(None) => {
                return Err(
                    AppError::ReleaseNotFound {
                        project_id: project_id.to_owned(),
                        commit_sha: commit_sha.to_owned(),
                    },
                );
            },
        };
        let release_path = match release.release_path {
            Some(release_path) => release_path,
            None => {
                return Err(
                    AppError::InvalidState {
                        reason: cat3(
                            "successful deployment ",
                            release.id.as_str(),
                            " has no releasePath",
                        ),
                    },
                );
            },
        };
        if !release_is_directory {
            return Err(
                AppError::ReleaseNotFound {
                    project_id: project_id.to_owned(),
                    commit_sha: commit_sha.to_owned(),
                },
            );
        }
        let event_key = cat6("rollback:", project_id, ":", commit_sha, ":", id.as_str());
        let mut deployment = queued_deployment(
            id,
            project_id.to_owned(),
            event_key,
            DeploymentKind::Rollback,
            release.tag,
            commit_sha.to_owned(),
            now,
        );
        deployment.commit_sha = Some(commit_sha.to_owned());
        deployment.release_path = Some(release_path);
        self.insert(deployment)
    }

    /// The deployment with an identifier.
    pub fn get_deployment(&self, deployment_id: &str) -> (result: Result<Deployment, AppError>)
        requires
            self.wf(),
        ensures
            outcome(result) == (if self@.deployments.contains_key(deployment_id@) {
                self@.deployments[deployment_id@].deployment()
            } else {
                Err(AppErrorView::DeploymentNotFound { deployment_id: deployment_id@ })
            }),
    {
        match self.find_deployment(deployment_id) {
            Some(i) => Deployment::try_from(self.deployments[i].copy()),
            None => Err(AppError::DeploymentNotFound { deployment_id: deployment_id.to_owned() }),
        }
    }

    /// Takes the oldest deployment that is ready.
    pub fn next_pending(&mut self) -> (result: Result<Option<Deployment>, AppError>)
        requires
            old(self).wf(),
        ensures
            final(self).wf(),
            exists|now: Seq<char>|
                utc_millis(now) && (final(self)@, outcome(result))
                    == #[trigger] old(self)@.taken(now),
            result matches Ok(Some(deployment)) ==> old(self)@.is_oldest(
                Selection::Ready,
                deployment.id@,
            ),
            result matches Ok(None) ==> forall|id: Seq<char>|
                !old(self)@.selected(Selection::Ready, id),
    {
        let now = now();
        let result = self.next_pending_at(now.as_str());
        assert((self@, outcome(result)) == old(self)@.taken(now@));
        result
    }

    /// Takes the oldest deployment that is ready, at a time.
    pub fn next_pending_at(&mut self, now: &str) -> (result: Result<Option<Deployment>, AppError>)
        requires
            old(self).wf(),
        ensures
            final(self).wf(),
            (final(self)@, outcome(result)) == old(self)@.taken(now@),
            result matches Ok(Some(deployment)) ==> old(self)@.is_oldest(
                Selection::Ready,
                deployment.id@,
            ),
            result matches Ok(None) ==> forall|id: Seq<char>|
                !old(self)@.selected(Selection::Ready, id),
    {
        match self.oldest(&Selection::Ready) {
            None => Ok(None),
            Some(i) => {
                let mut row = self.deployments[i].copy();
                if row.is_in_state(DeploymentStatus::Queued) {
                    row.status = DeploymentStatus::Fetching.name().to_owned();
                    row.updated_at = now.to_owned();
                }
                proof {
                    assert(self@.selected(Selection::Ready, row.id@));
                    valid_after_change(self@, row@);
                }
                let copy = row.copy();
                self.put_deployment(i, row);
                match Deployment::try_from(copy) {
                    Ok(deployment) => Ok(Some(deployment)),
                    Err(error) => Err(error),
                }
            },
        }
    }

    /// The deployments of a project, the newest first.
    pub fn deployments_for_project(&self, project_id: &str) -> (result: Result<
        Vec<Deployment>,
        AppError,
    >)
        requires
            self.wf(),
        ensures
            outcome(result) == read_rows(self@.newest(Selection::OfProject(project_id@))),
            self@.lists(
                Selection::OfProject(project_id@),
                self@.newest(Selection::OfProject(project_id@)),
            ),
    {
        let rows = self.newest(&Selection::OfProject(project_id.to_owned()));
        deployments_of(&rows)
    }

    /// The state of a project.
    pub fn project_state(&self, project_id: &str) -> (result: Result<ProjectState, AppError>)
        requires
            self.wf(),
        ensures
            outcome(result) == (if self@.projects.contains_key(project_id@) {
                Ok::<ProjectStateView, AppErrorView>(self@.projects[project_id@].state())
            } else {
                Err(AppErrorView::ProjectNotFound { project_id: project_id@ })
            }),
    {
        match self.find_project(project_id) {
            Some(i) => Ok(ProjectState::from_row(self.projects[i].copy())),
            None => Err(AppError::ProjectNotFound { project_id: project_id.to_owned() }),
        }
    }

    /// Stops a project.
    pub fn stop_project(&mut self, project_id: &str) -> (result: Result<ProjectState, AppError>)
        requires
            old(self).wf(),
        ensures
            final(self).wf(),
            exists|now: Seq<char>|
                utc_millis(now) && (final(self)@, outcome(result))
                    == #[trigger] old(self)@.stopped(project_id@, now),
    {
        let now = now();
        let result = self.stop_project_at(project_id, now.as_str());
        assert((self@, outcome(result)) == old(self)@.stopped(project_id@, now@));
        result
    }

    /// Stops a project, at a time.
    pub fn stop_project_at(
        &mut self,
        project_id: &str,
        now: &str,
    ) -> (result: Result<ProjectState, AppError>)
        requires
            old(self).wf(),
        ensures
            final(self).wf(),
            (final(self)@, outcome(result)) == old(self)@.stopped(project_id@, now@),
    {
        match self.find_project(project_id) {
            None => Err(AppError::ProjectNotFound { project_id: project_id.to_owned() }),
            Some(i) => {
                let mut project = self.projects[i].copy();
                project.stopped = 1;
                project.updated_at = now.to_owned();
                proof {
                    valid_after_project(self@, project@);
                }
                let state = ProjectState::from_row(project.copy());
                self.put_project(i, project);
                Ok(state)
            },
        }
    }

    /// Starts a project that is not blocked.
    pub fn start_project(&mut self, project_id: &str) -> (result: Result<ProjectState, AppError>)
        requires
            old(self).wf(),
        ensures
            final(self).wf(),
            exists|now: Seq<char>|
                utc_millis(now) && (final(self)@, outcome(result))
                    == #[trigger] old(self)@.started(project_id@, now),
    {
        let now = now();
        let result = self.start_project_at(project_id, now.as_str());
        assert((self@, outcome(result)) == old(self)@.started(project_id@, now@));
        result
    }

    /// Starts a project that is not blocked, at a time.
    pub fn start_project_at(
        &mut self,
        project_id: &str,
        now: &str,
    ) -> (result: Result<ProjectState, AppError>)
        requires
            old(self).wf(),
        ensures
            final(self).wf(),
            (final(self)@, outcome(result)) == old(self)@.started(project_id@, now@),
    {
        match self.find_project(project_id) {
            None => Err(AppError::ProjectNotFound { project_id: project_id.to_owned() }),
            Some(i) => {
                if self.projects[i].blocked != 0 {
                    let reason = match &self.projects[i].blocked_reason {
                        Some(reason) => reason.clone(),
                        None => "no blocked reason was recorded".to_owned(),
                    };
                    return Err(
                        AppError::ProjectBlocked { project_id: project_id.to_owned(), reason },
                    );
                }
                let mut project = self.projects[i].copy();
                project.stopped = 0;
                project.updated_at = now.to_owned();
                proof {
                    valid_after_project(self@, project@);
                }
                let state = ProjectState::from_row(project.copy());
                self.put_project(i, project);
                Ok(state)
            },
        }
    }

    /// Gives a deployment a state.
    pub fn set_status(
        &mut self,
        deployment_id: &str,
        status: DeploymentStatus,
    ) -> (result: Result<(), AppError>)
        requires
            old(self).wf(),
        ensures
            final(self).wf(),
            exists|now: Seq<char>|
                utc_millis(now) && (final(self)@, outcome(result))
                    == #[trigger] old(self)@.status_set(deployment_id@, status, now),
    {
        let now = now();
        let result = self.set_status_at(deployment_id, status, now.as_str());
        assert((self@, outcome(result)) == old(self)@.status_set(deployment_id@, status, now@));
        result
    }

    /// Gives a deployment a state, at a time.
    pub fn set_status_at(
        &mut self,
        deployment_id: &str,
        status: DeploymentStatus,
        now: &str,
    ) -> (result: Result<(), AppError>)
        requires
            old(self).wf(),
        ensures
            final(self).wf(),
            (final(self)@, outcome(result)) == old(self)@.status_set(deployment_id@, status, now@),
    {
        match self.find_deployment(deployment_id) {
            None => update_exactly_one(0, deployment_id),
            Some(i) => {
                let mut deployment = self.deployments[i].copy();
                deployment.status = status.name().to_owned();
                deployment.updated_at = now.to_owned();
                proof {
                    valid_after_change(self@, deployment@);
                }
                self.put_deployment(i, deployment);
                update_exactly_one(1, deployment_id)
            },
        }
    }

    /// Gives a deployment its commit.
    pub fn set_resolved_commit(
        &mut self,
        deployment_id: &str,
        commit_sha: &str,
    ) -> (result: Result<(), AppError>)
        requires
            old(self).wf(),
        ensures
            final(self).wf(),
            exists|now: Seq<char>|
                utc_millis(now) && (final(self)@, outcome(result))
                    == #[trigger] old(self)@.commit_set(deployment_id@, commit_sha@, now),
    {
        let now = now();
        let result = self.set_resolved_commit_at(deployment_id, commit_sha, now.as_str());
        assert((self@, outcome(result)) == old(self)@.commit_set(
            deployment_id@,
            commit_sha@,
            now@,
        ));
        result
    }

    /// Gives a deployment its commit, at a time.
    pub fn set_resolved_commit_at(
        &mut self,
        deployment_id: &str,
        commit_sha: &str,
        now: &str,
    ) -> (result: Result<(), AppError>)
        requires
            old(self).wf(),
        ensures
            final(self).wf(),
            (final(self)@, outcome(result)) == old(self)@.commit_set(
                deployment_id@,
                commit_sha@,
                now@,
            ),
    {
        match self.find_deployment(deployment_id) {
            None => update_exactly_one(0, deployment_id),
            Some(i) => {
                let mut deployment = self.deployments[i].copy();
                deployment.commit_sha = Some(commit_sha.to_owned());
                deployment.updated_at = now.to_owned();
                proof {
                    valid_after_change(self@, deployment@);
                }
                self.put_deployment(i, deployment);
                update_exactly_one(1, deployment_id)
            },
        }
    }

    /// Gives a deployment its release.
    pub fn set_release(
        &mut self,
        deployment_id: &str,
        release_path: &str,
    ) -> (result: Result<(), AppError>)
        requires
            old(self).wf(),
        ensures
            final(self).wf(),
            exists|now: Seq<char>|
                utc_millis(now) && (final(self)@, outcome(result))
                    == #[trigger] old(self)@.release_set(deployment_id@, release_path@, now),
    {
        let now = now();
        let result = self.set_release_at(deployment_id, release_path, now.as_str());
        assert((self@, outcome(result)) == old(self)@.release_set(
            deployment_id@,
            release_path@,
            now@,
        ));
        result
    }

    /// Gives a deployment its release, at a time.
    pub fn set_release_at(
        &mut self,
        deployment_id: &str,
        release_path: &str,
        now: &str,
    ) -> (result: Result<(), AppError>)
        requires
            old(self).wf(),
        ensures
            final(self).wf(),
            (final(self)@, outcome(result)) == old(self)@.release_set(
                deployment_id@,
                release_path@,
                now@,
            ),
    {
        match self.find_deployment(deployment_id) {
            None => update_exactly_one(0, deployment_id),
            Some(i) => {
                let mut deployment = self.deployments[i].copy();
                deployment.release_path = Some(release_path.to_owned());
                deployment.updated_at = now.to_owned();
                proof {
                    valid_after_change(self@, deployment@);
                }
                self.put_deployment(i, deployment);
                update_exactly_one(1, deployment_id)
            },
        }
    }

    /// Records that a deployment is activated, and what was current before.
    pub fn set_activation(
        &mut self,
        deployment_id: &str,
        previous_release_path: &Option<String>,
    ) -> (result: Result<(), AppError>)
        requires
            old(self).wf(),
        ensures
            final(self).wf(),
            exists|now: Seq<char>|
                utc_millis(now) && (final(self)@, outcome(result))
                    == #[trigger] old(self)@.activation_set(
                        deployment_id@,
                        previous_release_path.deep_view(),
                        now,
                    ),
    {
        let now = now();
        let result = self.set_activation_at(deployment_id, previous_release_path, now.as_str());
        assert((self@, outcome(result)) == old(self)@.activation_set(
            deployment_id@,
            previous_release_path.deep_view(),
            now@,
        ));
        result
    }

    /// Records at a time that a deployment is activated, and what was current before.
    pub fn set_activation_at(
        &mut self,
        deployment_id: &str,
        previous_release_path: &Option<String>,
        now: &str,
    ) -> (result: Result<(), AppError>)
        requires
            old(self).wf(),
        ensures
            final(self).wf(),
            (final(self)@, outcome(result)) == old(self)@.activation_set(
                deployment_id@,
                previous_release_path.deep_view(),
                now@,
            ),
    {
        match self.find_deployment(deployment_id) {
            None => update_exactly_one(0, deployment_id),
            Some(i) => {
                let mut deployment = self.deployments[i].copy();
                deployment.status = DeploymentStatus::Activating.name().to_owned();
                deployment.previous_release_path = opt_text_copy(previous_release_path);
                deployment.updated_at = now.to_owned();
                proof {
                    valid_after_change(self@, deployment@);
                }
                self.put_deployment(i, deployment);
                update_exactly_one(1, deployment_id)
            },
        }
    }

    /// Whether a deployment of another project links to one of a project.
    fn linked_from_outside(&self, project_id: &str) -> (found: bool)
        requires
            self.wf(),
        ensures
            found == (exists|id: Seq<char>| self@.links_into(project_id@, id)),
    {
        let ghost rows = self.deployments.deep_view();
        proof {
            table_holds_the_rows(rows);
        }
        let mut i: usize = 0;
        while i < self.deployments.len()
            invariant
                i <= self.deployments.len(),
                self.wf(),
                rows == self.deployments.deep_view(),
                self@.deployments == table(rows),
                forall|j: int|
                    0 <= j < rows.len() ==> table(rows).contains_key((#[trigger] rows[j]).key())
                        && table(rows)[rows[j].key()] == rows[j],
                forall|j: int|
                    0 <= j < i ==> !self@.links_into(project_id@, (#[trigger] rows[j]).key()),
            decreases self.deployments.len() - i,
        {
            let row = &self.deployments[i];
            assert(rows[i as int] == row@);
            let ghost id = rows[i as int].key();
            assert(self@.deployments[id] == row@);
            if !text_eq(row.project_id.as_str(), project_id) {
                match &row.retry_of {
                    Some(original) => match self.find_deployment(original.as_str()) {
                        Some(k) => {
                            if text_eq(self.deployments[k].project_id.as_str(), project_id) {
                                assert(self@.links_into(project_id@, id));
                                return true;
                            }
                        },
                        None => {},
                    },
                    None => {},
                }
            }
            assert(!self@.links_into(project_id@, id));
            i += 1;
        }
        proof {
            assert forall|id: Seq<char>| !self@.links_into(project_id@, id) by {
                if self@.deployments.contains_key(id) {
                    let j = position(rows, id);
                    assert(rows[j].key() == id);
                }
            }
        }
        false
    }

    /// Deletes a project that is stopped and has no deployment under way, with its deployments,
    /// unless a deployment of another project links to one of them.
    pub fn delete_project(&mut self, project_id: &str) -> (result: Result<(), AppError>)
        requires
            old(self).wf(),
        ensures
            final(self).wf(),
            (final(self)@, outcome(result)) == old(self)@.deleted(project_id@),
    {
        match self.find_project(project_id) {
            None => {
                return Err(AppError::ProjectNotFound { project_id: project_id.to_owned() });
            },
            Some(i) => {
                if self.projects[i].stopped == 0 {
                    return Err(
                        AppError::ProjectMustBeStopped { project_id: project_id.to_owned() },
                    );
                }
            },
        }
        match self.oldest(&Selection::UnderWay(project_id.to_owned())) {
            Some(i) => {
                return Err(active_error(project_id, &self.deployments[i]));
            },
            None => {},
        }
        if self.linked_from_outside(project_id) {
            return Err(link_broken_error());
        }
        self.remove_project(project_id);
        Ok(())
    }

    fn remove_project(&mut self, project_id: &str)
        requires
            old(self).wf(),
        ensures
            final(self).wf(),
            final(self)@ == old(self)@.without_project(project_id@),
    {
        let ghost rows = self.deployments.deep_view();
        let ghost project = project_id@;
        let ghost keep = |row: DeploymentRowView| row.project_id != project;
        let ghost same = |row: DeploymentRowView| row;
        let mut kept: Vec<DeploymentRow> = Vec::new();
        let mut i: usize = 0;
        while i < self.deployments.len()
            invariant
                i <= self.deployments.len(),
                *self == *old(self),
                rows == self.deployments.deep_view(),
                distinct(rows),
                project == project_id@,
                keep == (|row: DeploymentRowView| row.project_id != project),
                same == (|row: DeploymentRowView| row),
                filtered(rows, i as int, kept.deep_view(), keep, same),
            decreases self.deployments.len() - i,
        {
            let ghost before = kept.deep_view();
            assert(rows[i as int] == self.deployments[i as int]@);
            proof {
                filtered_grows(rows, i as int, before, keep, same);
            }
            if !text_eq(self.deployments[i].project_id.as_str(), project_id) {
                kept.push(self.deployments[i].copy());
                assert(kept.deep_view() =~= before.push(same(rows[i as int])));
            }
            i += 1;
        }
        let ghost names = self.projects.deep_view();
        let ghost keep_project = |row: ProjectStateRowView| row.project_id != project;
        let ghost same_project = |row: ProjectStateRowView| row;
        let mut others: Vec<ProjectStateRow> = Vec::new();
        let mut k: usize = 0;
        while k < self.projects.len()
            invariant
                k <= self.projects.len(),
                *self == *old(self),
                names == self.projects.deep_view(),
                distinct(names),
                project == project_id@,
                keep_project == (|row: ProjectStateRowView| row.project_id != project),
                same_project == (|row: ProjectStateRowView| row),
                filtered(names, k as int, others.deep_view(), keep_project, same_project),
            decreases self.projects.len() - k,
        {
            let ghost before = others.deep_view();
            assert(names[k as int] == self.projects[k as int]@);
            proof {
                filtered_grows(names, k as int, before, keep_project, same_project);
            }
            if !text_eq(self.projects[k].project_id.as_str(), project_id) {
                others.push(self.projects[k].copy());
                assert(others.deep_view() =~= before.push(same_project(names[k as int])));
            }
            k += 1;
        }
        proof {
            let wanted = self@.without_project(project);
            table_holds_the_rows(names);
            assert forall|key: Seq<char>| #[trigger]
                wanted.projects.contains_key(key) <==> table(names).contains_key(key)
                    && keep_project(table(names)[key]) by {
                if table(names).contains_key(key) {
                    let j = position(names, key);
                    assert(names[j].key() == key);
                }
            }
            table_of_filtered(rows, kept.deep_view(), keep, same, wanted.deployments);
            table_of_filtered(
                names,
                others.deep_view(),
                keep_project,
                same_project,
                wanted.projects,
            );
            valid_without_project(self@, project);
        }
        self.deployments = kept;
        self.projects = others;
        assert(self@ =~= old(self)@.without_project(project));
    }

    /// Removes ended deployments of a project but for the newest of them, and returns those that
    /// were removed, the newest first.
    pub fn clean_deployments(
        &mut self,
        project_id: &str,
        keep: u64,
        deployment_type: CleanDeploymentType,
    ) -> (result: Result<Vec<Deployment>, AppError>)
        requires
            old(self).wf(),
        ensures
            final(self).wf(),
            (final(self)@, outcome(result)) == old(self)@.cleaned(
                project_id@,
                keep,
                deployment_type,
            ),
    {
        if keep > i64::MAX as u64 {
            return Err(
                AppError::InvalidState {
                    reason: cat3(
                        "clean keep value ",
                        decimal_text(keep).as_str(),
                        " exceeds the supported SQLite integer range",
                    ),
                },
            );
        }
        if self.find_project(project_id).is_none() {
            return Err(AppError::ProjectNotFound { project_id: project_id.to_owned() });
        }
        match self.oldest(&Selection::Unfinished(project_id.to_owned())) {
            Some(i) => {
                return Err(active_error(project_id, &self.deployments[i]));
            },
            None => {},
        }
        let list = self.newest(&Selection::Cleanable(project_id.to_owned(), deployment_type));
        let gone = rest_of(list, keep);
        match deployments_of(&gone) {
            Ok(list) => {
                self.remove_deployments(&gone);
                Ok(list)
            },
            Err(error) => Err(error),
        }
    }

    fn remove_deployments(&mut self, gone: &Vec<DeploymentRow>)
        requires
            old(self).wf(),
        ensures
            final(self).wf(),
            final(self)@ == old(self)@.without(ids(gone.deep_view())),
    {
        let ghost rows = self.deployments.deep_view();
        let ghost removed = ids(gone.deep_view());
        let ghost keep = |row: DeploymentRowView| !removed.contains(row.id);
        let ghost change = |row: DeploymentRowView| unlinked(row, removed);
        let mut kept: Vec<DeploymentRow> = Vec::new();
        let mut i: usize = 0;
        while i < self.deployments.len()
            invariant
                i <= self.deployments.len(),
                *self == *old(self),
                rows == self.deployments.deep_view(),
                distinct(rows),
                removed == ids(gone.deep_view()),
                keep == (|row: DeploymentRowView| !removed.contains(row.id)),
                change == (|row: DeploymentRowView| unlinked(row, removed)),
                filtered(rows, i as int, kept.deep_view(), keep, change),
            decreases self.deployments.len() - i,
        {
            let ghost before = kept.deep_view();
            assert(rows[i as int] == self.deployments[i as int]@);
            proof {
                filtered_grows(rows, i as int, before, keep, change);
            }
            if !holds_id(gone, self.deployments[i].id.as_str()) {
                let mut row = self.deployments[i].copy();
                let unlink = match &row.retry_of {
                    Some(original) => holds_id(gone, original.as_str()),
                    None => false,
                };
                if unlink {
                    row.retry_of = None;
                }
                assert(row@ == change(rows[i as int]));
                kept.push(row);
                assert(kept.deep_view() =~= before.push(change(rows[i as int])));
            }
            i += 1;
        }
        proof {
            let wanted = self@.without(removed);
            table_holds_the_rows(rows);
            assert forall|key: Seq<char>| #[trigger]
                wanted.deployments.contains_key(key) <==> table(rows).contains_key(key) && keep(
                    table(rows)[key],
                ) by {
                if table(rows).contains_key(key) {
                    let j = position(rows, key);
                    assert(rows[j].key() == key);
                }
            }
            table_of_filtered(rows, kept.deep_view(), keep, change, wanted.deployments);
            valid_without(self@, removed);
        }
        self.deployments = kept;
        assert(self@ =~= old(self)@.without(removed));
    }

    /// Records that a deployment succeeded.
    pub fn mark_succeeded(&mut self, deployment_id: &str) -> (result: Result<(), AppError>)
        requires
            old(self).wf(),
        ensures
            final(self).wf(),
            exists|now: Seq<char>|
                utc_millis(now) && (final(self)@, outcome(result)) == #[trigger] old(self)@.ended(
                    deployment_id@,
                    DeploymentStatus::Succeeded,
                    None,
                    None,
                    now,
                ),
    {
        let now = now();
        let result = self.mark_ended_at(
            deployment_id,
            DeploymentStatus::Succeeded,
            None,
            None,
            now.as_str(),
        );
        assert((self@, outcome(result)) == old(self)@.ended(
            deployment_id@,
            DeploymentStatus::Succeeded,
            None,
            None,
            now@,
        ));
        result
    }

    /// Records that a deployment failed.
    pub fn mark_failed(
        &mut self,
        deployment_id: &str,
        error_code: &str,
        error_message: &str,
    ) -> (result: Result<(), AppError>)
        requires
            old(self).wf(),
        ensures
            final(self).wf(),
            exists|now: Seq<char>|
                utc_millis(now) && (final(self)@, outcome(result)) == #[trigger] old(self)@.ended(
                    deployment_id@,
                    DeploymentStatus::Failed,
                    Some(error_code@),
                    Some(error_message@),
                    now,
                ),
    {
        let now = now();
        let result = self.mark_ended_at(
            deployment_id,
            DeploymentStatus::Failed,
            Some(error_code.to_owned()),
            Some(error_message.to_owned()),
            now.as_str(),
        );
        assert((self@, outcome(result)) == old(self)@.ended(
            deployment_id@,
            DeploymentStatus::Failed,
            Some(error_code@),
            Some(error_message@),
            now@,
        ));
        result
    }

    /// Records that a deployment failed and could not be rolled back.
    pub fn mark_rollback_failed(
        &mut self,
        deployment_id: &str,
        error_code: &str,
        error_message: &str,
    ) -> (result: Result<(), AppError>)
        requires
            old(self).wf(),
        ensures
            final(self).wf(),
            exists|now: Seq<char>|
                utc_millis(now) && (final(self)@, outcome(result)) == #[trigger] old(self)@.ended(
                    deployment_id@,
                    DeploymentStatus::RollbackFailed,
                    Some(error_code@),
                    Some(error_message@),
                    now,
                ),
    {
        let now = now();
        let result = self.mark_ended_at(
            deployment_id,
            DeploymentStatus::RollbackFailed,
            Some(error_code.to_owned()),
            Some(error_message.to_owned()),
            now.as_str(),
        );
        assert((self@, outcome(result)) == old(self)@.ended(
            deployment_id@,
            DeploymentStatus::RollbackFailed,
            Some(error_code@),
            Some(error_message@),
            now@,
        ));
        result
    }

    /// Records the ending of a deployment, at a time.
    pub fn mark_ended_at(
        &mut self,
        deployment_id: &str,
        status: DeploymentStatus,
        error_code: Option<String>,
        error_message: Option<String>,
        now: &str,
    ) -> (result: Result<(), AppError>)
        requires
            old(self).wf(),
        ensures
            final(self).wf(),
            (final(self)@, outcome(result)) == old(self)@.ended(
                deployment_id@,
                status,
                error_code.deep_view(),
                error_message.deep_view(),
                now@,
            ),
    {
        match self.find_deployment(deployment_id) {
            None => update_exactly_one(0, deployment_id),
            Some(i) => {
                let mut deployment = self.deployments[i].copy();
                deployment.status = status.name().to_owned();
                deployment.error_code = error_code;
                deployment.error_message = error_message;
                deployment.completed_at = Some(now.to_owned());
                deployment.updated_at = now.to_owned();
                proof {
                    valid_after_change(self@, deployment@);
                }
                self.put_deployment(i, deployment);
                update_exactly_one(1, deployment_id)
            },
        }
    }

    /// Blocks a project for a reason.
    pub fn block_project(&mut self, project_id: &str, reason: &str) -> (result: Result<
        (),
        AppError,
    >)
        requires
            old(self).wf(),
        ensures
            final(self).wf(),
            exists|now: Seq<char>|
                utc_millis(now) && (final(self)@, outcome(result)) == #[trigger] old(self)@.blocked(
                    project_id@,
                    Some(reason@),
                    now,
                ),
    {
        let now = now();
        let result = self.set_blocked_at(project_id, Some(reason.to_owned()), now.as_str());
        assert((self@, outcome(result)) == old(self)@.blocked(project_id@, Some(reason@), now@));
        result
    }

    /// Ends the blocking of a project.
    pub fn unblock_project(&mut self, project_id: &str) -> (result: Result<(), AppError>)
        requires
            old(self).wf(),
        ensures
            final(self).wf(),
            exists|now: Seq<char>|
                utc_millis(now) && (final(self)@, outcome(result)) == #[trigger] old(self)@.blocked(
                    project_id@,
                    None,
                    now,
                ),
    {
        let now = now();
        let result = self.set_blocked_at(project_id, None, now.as_str());
        assert((self@, outcome(result)) == old(self)@.blocked(project_id@, None, now@));
        result
    }

    /// Blocks a project for a reason, or ends its blocking where there is none, at a time.
    pub fn set_blocked_at(
        &mut self,
        project_id: &str,
        reason: Option<String>,
        now: &str,
    ) -> (result: Result<(), AppError>)
        requires
            old(self).wf(),
        ensures
            final(self).wf(),
            (final(self)@, outcome(result)) == old(self)@.blocked(
                project_id@,
                reason.deep_view(),
                now@,
            ),
    {
        match self.find_project(project_id) {
            None => update_project_exactly_one(0, project_id),
            Some(i) => {
                let mut project = self.projects[i].copy();
                project.blocked = if reason.is_some() {
                    1
                } else {
                    0
                };
                project.blocked_reason = reason;
                project.updated_at = now.to_owned();
                proof {
                    valid_after_project(self@, project@);
                }
                self.put_project(i, project);
                update_project_exactly_one(1, project_id)
            },
        }
    }

    /// The deployment that was the last to release a commit of a project.
    pub fn successful_release(&self, project_id: &str, commit_sha: &str) -> (result: Result<
        Option<Deployment>,
        AppError,
    >)
        requires
            self.wf(),
        ensures
            outcome(result) == (match self@.last_release(project_id@, commit_sha@) {
                None => Ok::<Option<DeploymentView>, AppErrorView>(None),
                Some(row) => match row.deployment() {
                    Err(error) => Err(error),
                    Ok(deployment) => Ok(Some(deployment)),
                },
            }),
            result matches Ok(Some(release)) ==> self@.released(
                project_id@,
                commit_sha@,
                release.id@,
            ),
    {
        let ghost rows = self.deployments.deep_view();
        let ghost db = self@;
        let ghost (project, commit) = (project_id@, commit_sha@);
        proof {
            table_holds_the_rows(rows);
        }
        let mut best: Option<usize> = None;
        let mut i: usize = 0;
        while i < self.deployments.len()
            invariant
                i <= self.deployments.len(),
                rows == self.deployments.deep_view(),
                distinct(rows),
                db == self@,
                db.deployments == table(rows),
                project == project_id@,
                commit == commit_sha@,
                forall|j: int|
                    0 <= j < rows.len() ==> db.deployments.contains_key((#[trigger] rows[j]).key())
                        && db.deployments[rows[j].key()] == rows[j],
                best matches Some(b) ==> b < i && db.released(project, commit, rows[b as int].id)
                    && forall|j: int|
                    0 <= j < i && j != b && db.released(project, commit, (#[trigger] rows[j]).id)
                        ==> completed_before(rows[j], rows[b as int]),
                best is None ==> forall|j: int|
                    0 <= j < i ==> !db.released(project, commit, (#[trigger] rows[j]).id),
            decreases self.deployments.len() - i,
        {
            assert(rows[i as int] == self.deployments[i as int]@);
            assert(db.deployments[rows[i as int].key()] == rows[i as int]);
            let row = &self.deployments[i];
            let same_commit = match &row.commit_sha {
                Some(commit) => text_eq(commit.as_str(), commit_sha),
                None => false,
            };
            if same_commit && text_eq(row.project_id.as_str(), project_id)
                && row.is_in_state(DeploymentStatus::Succeeded) {
                assert(db.released(project, commit, rows[i as int].id));
                match best {
                    None => {
                        best = Some(i);
                    },
                    Some(b) => {
                        assert(rows[b as int] == self.deployments[b as int]@);
                        assert(rows[b as int].key() != rows[i as int].key());
                        proof {
                            completion_is_total(rows[i as int], rows[b as int]);
                        }
                        if is_completed_before(&self.deployments[b], row) {
                            assert forall|j: int|
                                0 <= j < i + 1 && j != i && db.released(
                                    project,
                                    commit,
                                    (#[trigger] rows[j]).id,
                                ) implies completed_before(rows[j], rows[i as int]) by {
                                if j != b {
                                    completion_is_transitive(
                                        rows[j],
                                        rows[b as int],
                                        rows[i as int],
                                    );
                                }
                            }
                            best = Some(i);
                        }
                    },
                }
            } else {
                assert(!db.released(project, commit, rows[i as int].id));
            }
            i += 1;
        }
        match best {
            Some(b) => {
                proof {
                    let id = rows[b as int].id;
                    assert(rows[b as int].key() == id);
                    assert forall|other: Seq<char>| #[trigger]
                        db.released(project, commit, other) && other != id implies completed_before(
                        db.deployments[other],
                        db.deployments[id],
                    ) by {
                        let j = position(rows, other);
                        assert(rows[j].key() == other);
                        assert(rows[j].id == other);
                    }
                    assert(db.released_last(project, commit, id));
                    last_release_is(db, project, commit, id);
                    assert(rows[b as int] == self.deployments[b as int]@);
                }
                match Deployment::try_from(self.deployments[b].copy()) {
                    Ok(deployment) => Ok(Some(deployment)),
                    Err(error) => Err(error),
                }
            },
            None => {
                proof {
                    assert forall|id: Seq<char>| !db.released(project, commit, id) by {
                        if db.released(project, commit, id) {
                            let j = position(rows, id);
                            assert(rows[j].key() == id);
                            assert(rows[j].id == id);
                        }
                    }
                }
                Ok(None)
            },
        }
    }
}

/// Whether a deployment is older than another.
fn is_older(left: &DeploymentRow, right: &DeploymentRow) -> (result: bool)
    ensures
        result == older(left@, right@),
{
    precedes(left.created_at.as_str(), right.created_at.as_str()) || (text_eq(
        left.created_at.as_str(),
        right.created_at.as_str(),
    ) && precedes(left.id.as_str(), right.id.as_str()))
}

/// Whether a time comes before another; none comes before any.
fn is_time_less(left: &Option<String>, right: &Option<String>) -> (result: bool)
    ensures
        result == time_less(left.deep_view(), right.deep_view()),
{
    match (left, right) {
        (Some(left), Some(right)) => precedes(left.as_str(), right.as_str()),
        (None, Some(_)) => true,
        _ => false,
    }
}

/// Whether a deployment was completed before another.
fn is_completed_before(left: &DeploymentRow, right: &DeploymentRow) -> (result: bool)
    ensures
        result == completed_before(left@, right@),
{
    is_time_less(&left.completed_at, &right.completed_at) || (opt_text_eq(
        &left.completed_at,
        &right.completed_at,
    ) && precedes(left.id.as_str(), right.id.as_str()))
}

/// Inserts a deployment into a list that is ordered from the newest on.
fn insert_newest(list: &mut Vec<DeploymentRow>, deployment: DeploymentRow)
    requires
        newest_first(old(list).deep_view()),
        forall|k: int|
            0 <= k < old(list).len() ==> (#[trigger] old(list).deep_view()[k]).id != deployment.id@,
    ensures
        newest_first(final(list).deep_view()),
        forall|other: DeploymentRowView| #[trigger]
            final(list).deep_view().contains(other) <==> old(list).deep_view().contains(other)
                || other == deployment@,
{
    let ghost before = list.deep_view();
    let ghost new = deployment@;
    let mut i: usize = 0;
    while i < list.len() && is_older(&deployment, &list[i])
        invariant
            i <= list.len(),
            before == list.deep_view(),
            new == deployment@,
            newest_first(before),
            forall|k: int| 0 <= k < i ==> older(new, #[trigger] before[k]),
        decreases list.len() - i,
    {
        assert(before[i as int] == list[i as int]@);
        i += 1;
    }
    proof {
        if i < before.len() {
            assert(before[i as int] == list[i as int]@);
            age_is_total(new, before[i as int]);
        }
        assert forall|k: int| i <= k < before.len() implies older(#[trigger] before[k], new) by {
            if k > i {
                assert(older(before[k], before[i as int]));
                age_is_transitive(before[k], before[i as int], new);
            }
        }
    }
    list.insert(i, deployment);
    let ghost after = list.deep_view();
    assert(after =~= before.insert(i as int, new));
    proof {
        assert forall|a: int, b: int| 0 <= a < b < after.len() implies older(
            #[trigger] after[b],
            #[trigger] after[a],
        ) by {
            if b < i {
                assert(older(before[b], before[a]));
            } else if b == i {
                assert(after[b] == new && after[a] == before[a]);
            } else if a < i {
                assert(older(before[b - 1], before[a]));
            } else if a == i {
                assert(after[b] == before[b - 1]);
            } else {
                assert(older(before[b - 1], before[a - 1]));
            }
        }
        assert forall|other: DeploymentRowView| #[trigger]
            after.contains(other) <==> before.contains(other) || other == new by {
            if after.contains(other) {
                let k = choose|k: int| 0 <= k < after.len() && after[k] == other;
                if k < i {
                    assert(before[k] == other);
                } else if k > i {
                    assert(before[k - 1] == other);
                }
            }
            if before.contains(other) {
                let k = choose|k: int| 0 <= k < before.len() && before[k] == other;
                if k < i {
                    assert(after[k] == other);
                } else {
                    assert(after[k + 1] == other);
                }
            }
            if other == new {
                assert(after[i as int] == other);
            }
        }
    }
}

/// What is left of a list without its first items.
fn rest_of(list: Vec<DeploymentRow>, count: u64) -> (rest: Vec<DeploymentRow>)
    ensures
        rest.deep_view() == (if count < list.len() {
            list.deep_view().skip(count as int)
        } else {
            Seq::empty()
        }),
{
    let mut rest: Vec<DeploymentRow> = Vec::new();
    if count >= list.len() as u64 {
        assert(rest.deep_view() =~= Seq::<DeploymentRowView>::empty());
        return rest;
    }
    let start: usize = count as usize;
    let mut i: usize = start;
    while i < list.len()
        invariant
            start <= i <= list.len(),
            rest.deep_view() == list.deep_view().subrange(start as int, i as int),
        decreases list.len() - i,
    {
        let ghost before = rest.deep_view();
        rest.push(list[i].copy());
        assert(rest.deep_view() =~= before.push(list.deep_view()[i as int]));
        assert(rest.deep_view() =~= list.deep_view().subrange(start as int, i + 1));
        i += 1;
    }
    assert(rest.deep_view() =~= list.deep_view().skip(start as int));
    rest
}

/// Whether a list holds a deployment with an identifier.
fn holds_id(list: &Vec<DeploymentRow>, id: &str) -> (found: bool)
    ensures
        found == ids(list.deep_view()).contains(id@),
{
    let mut i: usize = 0;
    while i < list.len()
        invariant
            i <= list.len(),
            forall|j: int| 0 <= j < i ==> (#[trigger] list.deep_view()[j]).id != id@,
        decreases list.len() - i,
    {
        assert(list.deep_view()[i as int] == list[i as int]@);
        if text_eq(list[i].id.as_str(), id) {
            return true;
        }
        i += 1;
    }
    false
}

/// The error of an identifier that is taken.
fn id_taken_error() -> (error: AppError)
    ensures
        error@ == id_taken(),
{
    AppError::Database {
        source: "error returned from database: (code: 1555) UNIQUE constraint failed: deployments.id".to_owned(),
    }
}

/// The error of a link that would lead to nothing.
fn link_broken_error() -> (error: AppError)
    ensures
        error@ == link_broken(),
{
    AppError::Database {
        source: "error returned from database: (code: 787) FOREIGN KEY constraint failed".to_owned(),
    }
}

/// The error of what a project does not allow while a deployment of it has not ended.
fn active_error(project_id: &str, row: &DeploymentRow) -> (error: AppError)
    ensures
        error@ == active(project_id@, row@),
{
    match Deployment::try_from(row.copy()) {
        Err(error) => error,
        Ok(deployment) => AppError::ProjectDeploymentActive {
            project_id: project_id.to_owned(),
            deployment_id: deployment.id,
            status: deployment.status.name().to_owned(),
        },
    }
}

/// A deployment that waits for its turn.
fn queued_deployment(
    id: String,
    project_id: String,
    event_key: String,
    kind: DeploymentKind,
    tag: String,
    requested_sha: String,
    now: &str,
) -> (deployment: Deployment)
    ensures
        deployment@ == queued(id@, project_id@, event_key@, kind, tag@, requested_sha@, now@),
{
    Deployment {
        id,
        project_id,
        event_key,
        kind,
        tag,
        requested_sha,
        commit_sha: None,
        release_path: None,
        previous_release_path: None,
        status: DeploymentStatus::Queued,
        error_code: None,
        error_message: None,
        retry_of: None,
        created_at: now.to_owned(),
        updated_at: now.to_owned(),
        completed_at: None,
    }
}

} // verus!
