//! What the stored deployments and projects are, and how each operation changes them.
use vstd::prelude::*;

#[allow(unused_imports)]
use crate::error::AppErrorView;
#[allow(unused_imports)]
use crate::model::{
    read_rows, CleanDeploymentType, DeploymentKind, DeploymentRowView, DeploymentStatus,
    DeploymentView, ProjectStateRowView, ProjectStateView,
};
#[allow(unused_imports)]
use crate::text::{decimal, text_less};

verus! {

/// The rows of the stored deployments and projects, by their identifiers.
#[verifier::ext_equal]
pub struct DatabaseView {
    pub deployments: Map<Seq<char>, DeploymentRowView>,
    pub projects: Map<Seq<char>, ProjectStateRowView>,
}

/// Which deployments are meant.
#[derive(Debug)]
pub enum Selection<T> {
    /// Those that have not ended and whose project is neither stopped nor blocked.
    Ready,
    /// Those of a project that have been started and have not ended.
    UnderWay(T),
    /// Those of a project that have not ended.
    Unfinished(T),
    /// Those of a project.
    OfProject(T),
    /// Those of a project that have ended in a way that is cleaned.
    Cleanable(T, CleanDeploymentType),
}

/// A deployment and whether it was created.
pub struct CreatedView {
    pub deployment: DeploymentView,
    pub created: bool,
}

/// The order of creation; deployments of one time are told apart by their identifiers.
pub open spec fn older(left: DeploymentRowView, right: DeploymentRowView) -> bool {
    text_less(left.created_at, right.created_at) || (left.created_at == right.created_at
        && text_less(left.id, right.id))
}

/// The order of completion times; none comes before any.
pub open spec fn time_less(left: Option<Seq<char>>, right: Option<Seq<char>>) -> bool {
    match (left, right) {
        (Some(left), Some(right)) => text_less(left, right),
        (None, Some(_)) => true,
        _ => false,
    }
}

/// The order of completion; deployments of one time are told apart by their identifiers.
pub open spec fn completed_before(left: DeploymentRowView, right: DeploymentRowView) -> bool {
    time_less(left.completed_at, right.completed_at) || (left.completed_at == right.completed_at
        && text_less(left.id, right.id))
}

/// A deployment that waits for its turn.
pub open spec fn queued(
    id: Seq<char>,
    project_id: Seq<char>,
    event_key: Seq<char>,
    kind: DeploymentKind,
    tag: Seq<char>,
    requested_sha: Seq<char>,
    now: Seq<char>,
) -> DeploymentView {
    DeploymentView {
        id,
        project_id,
        event_key,
        kind,
        tag,
        requested_sha,
        commit_sha: None,
        release_path: None,
        previous_release_path: None,
        status: DeploymentStatus::Queued,
        error_code: None,
        error_message: None,
        retry_of: None,
        created_at: now,
        updated_at: now,
        completed_at: None,
    }
}

/// The error of an identifier that is taken.
pub open spec fn id_taken() -> AppErrorView {
    AppErrorView::Database {
        source: "error returned from database: (code: 1555) UNIQUE constraint failed: deployments.id"@,
    }
}

/// The error of an event key that is taken.
pub open spec fn event_key_taken() -> AppErrorView {
    AppErrorView::Database {
        source: "error returned from database: (code: 2067) UNIQUE constraint failed: deployments.event_key"@,
    }
}

/// The error of a link that would lead to nothing: of a new deployment to its project, or to a
/// deployment that is removed.
pub open spec fn link_broken() -> AppErrorView {
    AppErrorView::Database {
        source: "error returned from database: (code: 787) FOREIGN KEY constraint failed"@,
    }
}

/// The error of what a project does not allow while a deployment of it has not ended.
pub open spec fn active(project_id: Seq<char>, row: DeploymentRowView) -> AppErrorView {
    match row.deployment() {
        Err(error) => error,
        Ok(deployment) => AppErrorView::ProjectDeploymentActive {
            project_id,
            deployment_id: deployment.id,
            status: deployment.status.text(),
        },
    }
}

/// A deployment without its link to one of those that are gone.
pub open spec fn unlinked(deployment: DeploymentRowView, gone: Set<Seq<char>>) -> DeploymentRowView {
    match deployment.retry_of {
        Some(original) if gone.contains(original) => DeploymentRowView {
            retry_of: None,
            ..deployment
        },
        _ => deployment,
    }
}

/// The identifiers of a list of deployments.
pub open spec fn ids(list: Seq<DeploymentRowView>) -> Set<Seq<char>> {
    Set::new(|id: Seq<char>| exists|i: int| 0 <= i < list.len() && (#[trigger] list[i]).id == id)
}

impl DatabaseView {
    /// Whether each row stands under its identifier, and no two deployments share an event key.
    pub open spec fn valid(self) -> bool {
        &&& forall|id: Seq<char>| #[trigger]
            self.deployments.contains_key(id) ==> self.deployments[id].id == id
        &&& forall|project_id: Seq<char>| #[trigger]
            self.projects.contains_key(project_id) ==> self.projects[project_id].project_id
                == project_id
        &&& forall|a: Seq<char>, b: Seq<char>|
            #![trigger self.deployments[a], self.deployments[b]]
            self.deployments.contains_key(a) && self.deployments.contains_key(b) && a != b
                ==> self.deployments[a].event_key != self.deployments[b].event_key
    }

    /// With a deployment added or replaced.
    pub open spec fn with_deployment(self, deployment: DeploymentRowView) -> DatabaseView {
        DatabaseView {
            deployments: self.deployments.insert(deployment.id, deployment),
            projects: self.projects,
        }
    }

    /// With a project added or replaced.
    pub open spec fn with_project(self, project: ProjectStateRowView) -> DatabaseView {
        DatabaseView {
            deployments: self.deployments,
            projects: self.projects.insert(project.project_id, project),
        }
    }

    /// Whether a deployment is one of those that are meant.
    pub open spec fn selects(
        self,
        selection: Selection<Seq<char>>,
        deployment: DeploymentRowView,
    ) -> bool {
        match selection {
            Selection::Ready => {
                &&& deployment.unfinished()
                &&& self.projects.contains_key(deployment.project_id)
                &&& self.projects[deployment.project_id].stopped == 0
                &&& self.projects[deployment.project_id].blocked == 0
            },
            Selection::UnderWay(project_id) => deployment.project_id == project_id
                && deployment.under_way(),
            Selection::Unfinished(project_id) => deployment.project_id == project_id
                && deployment.unfinished(),
            Selection::OfProject(project_id) => deployment.project_id == project_id,
            Selection::Cleanable(project_id, deployment_type) => deployment.project_id == project_id
                && deployment.cleanable(deployment_type),
        }
    }

    /// Whether an identifier is that of a stored deployment that is meant.
    pub open spec fn selected(self, selection: Selection<Seq<char>>, id: Seq<char>) -> bool {
        self.deployments.contains_key(id) && self.selects(selection, self.deployments[id])
    }

    /// Whether an identifier is that of the oldest deployment that is meant.
    pub open spec fn is_oldest(self, selection: Selection<Seq<char>>, id: Seq<char>) -> bool {
        &&& self.selected(selection, id)
        &&& forall|other: Seq<char>| #[trigger]
            self.selected(selection, other) && other != id ==> older(
                self.deployments[id],
                self.deployments[other],
            )
    }

    /// The oldest deployment that is meant.
    pub open spec fn oldest(self, selection: Selection<Seq<char>>) -> Option<DeploymentRowView> {
        if exists|id: Seq<char>| self.selected(selection, id) {
            Some(self.deployments[choose|id: Seq<char>| self.is_oldest(selection, id)])
        } else {
            None
        }
    }

    /// Whether a list holds the deployments that are meant, the newest first.
    pub open spec fn lists(
        self,
        selection: Selection<Seq<char>>,
        list: Seq<DeploymentRowView>,
    ) -> bool {
        &&& newest_first(list)
        &&& forall|deployment: DeploymentRowView| #[trigger]
            list.contains(deployment) <==> self.selected(selection, deployment.id)
                && self.deployments[deployment.id] == deployment
    }

    /// The deployments that are meant, the newest first.
    pub open spec fn newest(self, selection: Selection<Seq<char>>) -> Seq<DeploymentRowView> {
        choose|list: Seq<DeploymentRowView>| self.lists(selection, list)
    }

    /// With new projects that run.
    pub open spec fn registered(self, project_ids: Seq<Seq<char>>, now: Seq<char>) -> DatabaseView
        decreases project_ids.len(),
    {
        if project_ids.len() == 0 {
            self
        } else {
            let before = self.registered(project_ids.drop_last(), now);
            if before.projects.contains_key(project_ids.last()) {
                before
            } else {
                before.with_project(
                    ProjectStateRowView {
                        project_id: project_ids.last(),
                        stopped: 0,
                        blocked: 0,
                        blocked_reason: None,
                        updated_at: now,
                    },
                )
            }
        }
    }

    /// Whether a deployment holds an event key.
    pub open spec fn holds_event(self, event_key: Seq<char>, id: Seq<char>) -> bool {
        self.deployments.contains_key(id) && self.deployments[id].event_key == event_key
    }

    /// The deployment that holds an event key.
    pub open spec fn by_event_key(self, event_key: Seq<char>) -> Option<DeploymentRowView> {
        if exists|id: Seq<char>| self.holds_event(event_key, id) {
            Some(self.deployments[choose|id: Seq<char>| self.holds_event(event_key, id)])
        } else {
            None
        }
    }

    /// The deployment of a webhook: the one that holds the event key, or a new one where none
    /// does. A project that is not stored or is stopped gets none.
    pub open spec fn webhook(
        self,
        project_id: Seq<char>,
        event_key: Seq<char>,
        tag: Seq<char>,
        requested_sha: Seq<char>,
        id: Seq<char>,
        now: Seq<char>,
    ) -> (DatabaseView, Result<CreatedView, AppErrorView>) {
        if !self.projects.contains_key(project_id) {
            (self, Err(AppErrorView::ProjectNotFound { project_id }))
        } else if self.projects[project_id].stopped != 0 {
            (self, Err(AppErrorView::ProjectStopped { project_id }))
        } else {
            match self.by_event_key(event_key) {
                Some(row) => match row.deployment() {
                    Err(error) => (self, Err(error)),
                    Ok(deployment) => (self, Ok(CreatedView { deployment, created: false })),
                },
                None => if self.deployments.contains_key(id) {
                    (self, Err(id_taken()))
                } else {
                    let deployment = queued(
                        id,
                        project_id,
                        event_key,
                        DeploymentKind::Deploy,
                        tag,
                        requested_sha,
                        now,
                    );
                    (
                        self.with_deployment(deployment.row()),
                        Ok(CreatedView { deployment, created: true }),
                    )
                },
            }
        }
    }

    /// A new deployment is stored, unless its identifier or its event key is taken or its project
    /// is not stored.
    pub open spec fn inserted(self, deployment: DeploymentView) -> (
        DatabaseView,
        Result<DeploymentView, AppErrorView>,
    ) {
        if self.deployments.contains_key(deployment.id) {
            (self, Err(id_taken()))
        } else if self.by_event_key(deployment.event_key) is Some {
            (self, Err(event_key_taken()))
        } else if !self.projects.contains_key(deployment.project_id) {
            (self, Err(link_broken()))
        } else {
            (self.with_deployment(deployment.row()), Ok(deployment))
        }
    }

    /// A deployment that failed is queued again.
    pub open spec fn retried(self, deployment_id: Seq<char>, id: Seq<char>, now: Seq<char>) -> (
        DatabaseView,
        Result<DeploymentView, AppErrorView>,
    ) {
        if !self.deployments.contains_key(deployment_id) {
            (self, Err(AppErrorView::DeploymentNotFound { deployment_id }))
        } else {
            match self.deployments[deployment_id].deployment() {
                Err(error) => (self, Err(error)),
                Ok(original) => if !(original.status is Failed
                    || original.status is RollbackFailed) {
                    (
                        self,
                        Err(
                            AppErrorView::DeploymentNotRetryable {
                                deployment_id: original.id,
                                status: original.status.text(),
                            },
                        ),
                    )
                } else {
                    self.inserted(
                        DeploymentView {
                            commit_sha: original.commit_sha,
                            release_path: original.release_path,
                            retry_of: Some(original.id),
                            ..queued(
                                id,
                                original.project_id,
                                "retry:"@ + deployment_id + ":"@ + id,
                                original.kind,
                                original.tag,
                                original.requested_sha,
                                now,
                            )
                        },
                    )
                },
            }
        }
    }

    /// Whether a deployment released a commit of a project.
    pub open spec fn released(self, project_id: Seq<char>, commit_sha: Seq<char>, id: Seq<char>) -> bool {
        &&& self.deployments.contains_key(id)
        &&& self.deployments[id].project_id == project_id
        &&& self.deployments[id].commit_sha == Some(commit_sha)
        &&& self.deployments[id].in_state(DeploymentStatus::Succeeded)
    }

    /// Whether a deployment was the last to release a commit of a project.
    pub open spec fn released_last(
        self,
        project_id: Seq<char>,
        commit_sha: Seq<char>,
        id: Seq<char>,
    ) -> bool {
        &&& self.released(project_id, commit_sha, id)
        &&& forall|other: Seq<char>| #[trigger]
            self.released(project_id, commit_sha, other) && other != id ==> completed_before(
                self.deployments[other],
                self.deployments[id],
            )
    }

    /// The deployment that was the last to release a commit of a project.
    pub open spec fn last_release(self, project_id: Seq<char>, commit_sha: Seq<char>) -> Option<
        DeploymentRowView,
    > {
        if exists|id: Seq<char>| self.released(project_id, commit_sha, id) {
            Some(
                self.deployments[choose|id: Seq<char>|
                    self.released_last(project_id, commit_sha, id)],
            )
        } else {
            None
        }
    }

    /// A release that succeeded and is still there is queued to be activated again.
    pub open spec fn rolled_back(
        self,
        project_id: Seq<char>,
        commit_sha: Seq<char>,
        release_is_directory: bool,
        id: Seq<char>,
        now: Seq<char>,
    ) -> (DatabaseView, Result<DeploymentView, AppErrorView>) {
        match self.last_release(project_id, commit_sha) {
            None => (self, Err(AppErrorView::ReleaseNotFound { project_id, commit_sha })),
            Some(row) => match row.deployment() {
                Err(error) => (self, Err(error)),
                Ok(release) => match release.release_path {
                    None => (
                        self,
                        Err(
                            AppErrorView::InvalidState {
                                reason: "successful deployment "@ + release.id
                                    + " has no releasePath"@,
                            },
                        ),
                    ),
                    Some(release_path) => if !release_is_directory {
                        (self, Err(AppErrorView::ReleaseNotFound { project_id, commit_sha }))
                    } else {
                        self.inserted(
                            DeploymentView {
                                commit_sha: Some(commit_sha),
                                release_path: Some(release_path),
                                ..queued(
                                    id,
                                    project_id,
                                    "rollback:"@ + project_id + ":"@ + commit_sha + ":"@ + id,
                                    DeploymentKind::Rollback,
                                    release.tag,
                                    commit_sha,
                                    now,
                                )
                            },
                        )
                    },
                },
            },
        }
    }

    /// The oldest deployment that is ready is taken; one that was queued is being fetched then.
    pub open spec fn taken(self, now: Seq<char>) -> (
        DatabaseView,
        Result<Option<DeploymentView>, AppErrorView>,
    ) {
        match self.oldest(Selection::Ready) {
            None => (self, Ok(None)),
            Some(row) => {
                let started = if row.in_state(DeploymentStatus::Queued) {
                    DeploymentRowView {
                        status: DeploymentStatus::Fetching.text(),
                        updated_at: now,
                        ..row
                    }
                } else {
                    row
                };
                (
                    self.with_deployment(started),
                    match started.deployment() {
                        Err(error) => Err(error),
                        Ok(deployment) => Ok(Some(deployment)),
                    },
                )
            },
        }
    }

    /// A stored deployment is replaced; one that is not stored is reported.
    pub open spec fn changed(self, id: Seq<char>, deployment: DeploymentRowView) -> (
        DatabaseView,
        Result<(), AppErrorView>,
    ) {
        if self.deployments.contains_key(id) {
            (self.with_deployment(deployment), Ok(()))
        } else {
            (self, Err(AppErrorView::DeploymentNotFound { deployment_id: id }))
        }
    }

    /// A deployment gets a state.
    pub open spec fn status_set(
        self,
        id: Seq<char>,
        status: DeploymentStatus,
        now: Seq<char>,
    ) -> (DatabaseView, Result<(), AppErrorView>) {
        self.changed(
            id,
            DeploymentRowView { status: status.text(), updated_at: now, ..self.deployments[id] },
        )
    }

    /// A deployment gets its commit.
    pub open spec fn commit_set(self, id: Seq<char>, commit_sha: Seq<char>, now: Seq<char>) -> (
        DatabaseView,
        Result<(), AppErrorView>,
    ) {
        self.changed(
            id,
            DeploymentRowView {
                commit_sha: Some(commit_sha),
                updated_at: now,
                ..self.deployments[id]
            },
        )
    }

    /// A deployment gets its release.
    pub open spec fn release_set(self, id: Seq<char>, release_path: Seq<char>, now: Seq<char>) -> (
        DatabaseView,
        Result<(), AppErrorView>,
    ) {
        self.changed(
            id,
            DeploymentRowView {
                release_path: Some(release_path),
                updated_at: now,
                ..self.deployments[id]
            },
        )
    }

    /// A deployment is activated, with what was current before.
    pub open spec fn activation_set(
        self,
        id: Seq<char>,
        previous_release_path: Option<Seq<char>>,
        now: Seq<char>,
    ) -> (DatabaseView, Result<(), AppErrorView>) {
        self.changed(
            id,
            DeploymentRowView {
                status: DeploymentStatus::Activating.text(),
                previous_release_path,
                updated_at: now,
                ..self.deployments[id]
            },
        )
    }

    /// A deployment ends, with an error or without.
    pub open spec fn ended(
        self,
        id: Seq<char>,
        status: DeploymentStatus,
        error_code: Option<Seq<char>>,
        error_message: Option<Seq<char>>,
        now: Seq<char>,
    ) -> (DatabaseView, Result<(), AppErrorView>) {
        self.changed(
            id,
            DeploymentRowView {
                status: status.text(),
                error_code,
                error_message,
                updated_at: now,
                completed_at: Some(now),
                ..self.deployments[id]
            },
        )
    }

    /// A project is stopped.
    pub open spec fn stopped(self, project_id: Seq<char>, now: Seq<char>) -> (
        DatabaseView,
        Result<ProjectStateView, AppErrorView>,
    ) {
        if !self.projects.contains_key(project_id) {
            (self, Err(AppErrorView::ProjectNotFound { project_id }))
        } else {
            let project = ProjectStateRowView {
                stopped: 1,
                updated_at: now,
                ..self.projects[project_id]
            };
            (self.with_project(project), Ok(project.state()))
        }
    }

    /// A project that is not blocked is started.
    pub open spec fn started(self, project_id: Seq<char>, now: Seq<char>) -> (
        DatabaseView,
        Result<ProjectStateView, AppErrorView>,
    ) {
        if !self.projects.contains_key(project_id) {
            (self, Err(AppErrorView::ProjectNotFound { project_id }))
        } else if self.projects[project_id].blocked != 0 {
            (
                self,
                Err(
                    AppErrorView::ProjectBlocked {
                        project_id,
                        reason: match self.projects[project_id].blocked_reason {
                            Some(reason) => reason,
                            None => "no blocked reason was recorded"@,
                        },
                    },
                ),
            )
        } else {
            let project = ProjectStateRowView {
                stopped: 0,
                updated_at: now,
                ..self.projects[project_id]
            };
            (self.with_project(project), Ok(project.state()))
        }
    }

    /// A project is blocked for a reason, or is blocked no longer.
    pub open spec fn blocked(
        self,
        project_id: Seq<char>,
        reason: Option<Seq<char>>,
        now: Seq<char>,
    ) -> (DatabaseView, Result<(), AppErrorView>) {
        if !self.projects.contains_key(project_id) {
            (self, Err(AppErrorView::ProjectNotFound { project_id }))
        } else {
            (
                self.with_project(
                    ProjectStateRowView {
                        blocked: if reason is Some {
                            1
                        } else {
                            0
                        },
                        blocked_reason: reason,
                        updated_at: now,
                        ..self.projects[project_id]
                    },
                ),
                Ok(()),
            )
        }
    }

    /// Without a project and its deployments.
    pub open spec fn without_project(self, project_id: Seq<char>) -> DatabaseView {
        DatabaseView {
            deployments: Map::new(
                |id: Seq<char>|
                    self.deployments.contains_key(id) && self.deployments[id].project_id
                        != project_id,
                |id: Seq<char>| self.deployments[id],
            ),
            projects: self.projects.remove(project_id),
        }
    }

    /// Whether a deployment of another project links to one of a project.
    pub open spec fn links_into(self, project_id: Seq<char>, id: Seq<char>) -> bool {
        &&& self.deployments.contains_key(id)
        &&& self.deployments[id].project_id != project_id
        &&& self.deployments[id].retry_of matches Some(original)
            && self.deployments.contains_key(original) && self.deployments[original].project_id
            == project_id
    }

    /// Whether a deployment belongs to a stored project and links at most to a stored deployment of
    /// the same project.
    pub open spec fn link_fits(self, id: Seq<char>) -> bool {
        let deployment = self.deployments[id];
        &&& self.projects.contains_key(deployment.project_id)
        &&& deployment.retry_of matches Some(original) ==> self.deployments.contains_key(original)
            && self.deployments[original].project_id == deployment.project_id
    }

    /// Whether all links of deployments fit.
    pub open spec fn links_fit(self) -> bool {
        forall|id: Seq<char>| #[trigger] self.deployments.contains_key(id) ==> self.link_fits(id)
    }

    /// A project that is stopped and has no deployment under way is deleted, unless a deployment
    /// of another project links to one of its own.
    pub open spec fn deleted(self, project_id: Seq<char>) -> (
        DatabaseView,
        Result<(), AppErrorView>,
    ) {
        if !self.projects.contains_key(project_id) {
            (self, Err(AppErrorView::ProjectNotFound { project_id }))
        } else if self.projects[project_id].stopped == 0 {
            (self, Err(AppErrorView::ProjectMustBeStopped { project_id }))
        } else {
            match self.oldest(Selection::UnderWay(project_id)) {
                Some(row) => (self, Err(active(project_id, row))),
                None => if exists|id: Seq<char>| self.links_into(project_id, id) {
                    (self, Err(link_broken()))
                } else {
                    (self.without_project(project_id), Ok(()))
                },
            }
        }
    }

    /// Without some deployments, and without links to them.
    pub open spec fn without(self, gone: Set<Seq<char>>) -> DatabaseView {
        DatabaseView {
            deployments: Map::new(
                |id: Seq<char>| self.deployments.contains_key(id) && !gone.contains(id),
                |id: Seq<char>| unlinked(self.deployments[id], gone),
            ),
            projects: self.projects,
        }
    }

    /// The ended deployments of a project beyond the newest that are kept.
    pub open spec fn surplus(
        self,
        project_id: Seq<char>,
        keep: u64,
        deployment_type: CleanDeploymentType,
    ) -> Seq<DeploymentRowView> {
        let list = self.newest(Selection::Cleanable(project_id, deployment_type));
        if keep < list.len() {
            list.skip(keep as int)
        } else {
            Seq::empty()
        }
    }

    /// Ended deployments of a project are removed but for the newest, unless one has not ended.
    pub open spec fn cleaned(
        self,
        project_id: Seq<char>,
        keep: u64,
        deployment_type: CleanDeploymentType,
    ) -> (DatabaseView, Result<Seq<DeploymentView>, AppErrorView>) {
        if keep > i64::MAX {
            (
                self,
                Err(
                    AppErrorView::InvalidState {
                        reason: "clean keep value "@ + decimal(keep as nat)
                            + " exceeds the supported SQLite integer range"@,
                    },
                ),
            )
        } else if !self.projects.contains_key(project_id) {
            (self, Err(AppErrorView::ProjectNotFound { project_id }))
        } else {
            match self.oldest(Selection::Unfinished(project_id)) {
                Some(row) => (self, Err(active(project_id, row))),
                None => {
                    let gone = self.surplus(project_id, keep, deployment_type);
                    match read_rows(gone) {
                        Err(error) => (self, Err(error)),
                        Ok(list) => (self.without(ids(gone)), Ok(list)),
                    }
                },
            }
        }
    }

    /// Whether a deployment made a release path of a project.
    pub open spec fn made(self, project_id: Seq<char>, path: Seq<char>, id: Seq<char>) -> bool {
        &&& self.deployments.contains_key(id)
        &&& self.deployments[id].project_id == project_id
        &&& self.deployments[id].in_state(DeploymentStatus::Succeeded)
        &&& self.deployments[id].release_path == Some(path)
    }

    /// Whether a release path was made last at a time: by no deployment later, and by one then.
    pub open spec fn made_last_at(
        self,
        project_id: Seq<char>,
        path: Seq<char>,
        time: Option<Seq<char>>,
    ) -> bool {
        &&& exists|id: Seq<char>| #[trigger]
            self.made(project_id, path, id) && self.deployments[id].completed_at == time
        &&& forall|id: Seq<char>| #[trigger]
            self.made(project_id, path, id) ==> !time_less(time, self.deployments[id].completed_at)
    }

    /// The time at which a release path was made last.
    pub open spec fn last_made(self, project_id: Seq<char>, path: Seq<char>) -> Option<Seq<char>> {
        choose|time: Option<Seq<char>>| self.made_last_at(project_id, path, time)
    }

    /// Whether a release path comes before another: it was made later, or at the same time and
    /// its text comes first.
    pub open spec fn path_before(
        self,
        project_id: Seq<char>,
        left: Seq<char>,
        right: Seq<char>,
    ) -> bool {
        let left_time = self.last_made(project_id, left);
        let right_time = self.last_made(project_id, right);
        time_less(right_time, left_time) || (left_time == right_time && text_less(left, right))
    }

    /// Whether a list holds the release paths of a project, each once, the last made first.
    pub open spec fn retains(self, project_id: Seq<char>, paths: Seq<Seq<char>>) -> bool {
        &&& forall|i: int, j: int|
            0 <= i < j < paths.len() ==> self.path_before(
                project_id,
                #[trigger] paths[i],
                #[trigger] paths[j],
            )
        &&& forall|path: Seq<char>| #[trigger]
            paths.contains(path) <==> exists|id: Seq<char>| #[trigger]
                self.made(project_id, path, id)
    }
}

/// Whether each deployment of a list is newer than those after it.
pub open spec fn newest_first(list: Seq<DeploymentRowView>) -> bool {
    forall|i: int, j: int|
        0 <= i < j < list.len() ==> older(#[trigger] list[j], #[trigger] list[i])
}

} // verus!
