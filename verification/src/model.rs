//! Deployments and projects: their rows, their states and the texts that stand for them.
use vstd::prelude::*;

use crate::error::AppError;
#[allow(unused_imports)]
use crate::error::{outcome, AppErrorView};
#[allow(unused_imports)]
use crate::text::{cat2, debug_text, opt_text_copy, str_debug, text_eq};

pub mod laws;

verus! {

/// What a deployment does.
#[derive(Debug, Clone, Copy, PartialEq, Eq, Structural)]
pub enum DeploymentKind {
    /// A release is built from a tag.
    Deploy,
    /// An earlier release is activated again.
    Rollback,
}

impl DeploymentKind {
    /// The text that stands for it.
    pub open spec fn text(self) -> Seq<char> {
        match self {
            DeploymentKind::Deploy => "deploy"@,
            DeploymentKind::Rollback => "rollback"@,
        }
    }

    /// The text that stands for it.
    pub fn name(&self) -> (name: &'static str)
        ensures
            name@ == self.text(),
    {
        match self {
            DeploymentKind::Deploy => "deploy",
            DeploymentKind::Rollback => "rollback",
        }
    }

    /// What a text stands for.
    pub open spec fn parsed(value: Seq<char>) -> Result<DeploymentKind, AppErrorView> {
        if value == "deploy"@ {
            Ok(DeploymentKind::Deploy)
        } else if value == "rollback"@ {
            Ok(DeploymentKind::Rollback)
        } else {
            Err(AppErrorView::InvalidState { reason: "unknown deployment kind "@ + str_debug(value) })
        }
    }

    /// Reads the text that stands for it.
    pub fn from_str(value: &str) -> (result: Result<DeploymentKind, AppError>)
        ensures
            outcome(result) == DeploymentKind::parsed(value@),
    {
        if text_eq(value, "deploy") {
            Ok(DeploymentKind::Deploy)
        } else if text_eq(value, "rollback") {
            Ok(DeploymentKind::Rollback)
        } else {
            Err(
                AppError::InvalidState {
                    reason: cat2("unknown deployment kind ", debug_text(value).as_str()),
                },
            )
        }
    }
}

impl DeepView for DeploymentKind {
    type V = DeploymentKind;

    open spec fn deep_view(&self) -> DeploymentKind {
        *self
    }
}

/// Reading the text of a deployment kind gives that deployment kind back, so no two share a text.
pub proof fn kind_text_reads_back(kind: DeploymentKind)
    ensures
        DeploymentKind::parsed(kind.text()) == Ok::<DeploymentKind, AppErrorView>(kind),
{
    reveal_strlit("deploy");
    assert("deploy"@.len() == 6);
    reveal_strlit("rollback");
    assert("rollback"@.len() == 8);
}

/// How far a deployment is.
#[derive(Debug, Clone, Copy, PartialEq, Eq, Structural)]
pub enum DeploymentStatus {
    /// Waiting for its turn.
    Queued,
    /// Fetching the tag.
    Fetching,
    /// Building the release.
    Building,
    /// Running the migration.
    Migrating,
    /// Switching the current link.
    Activating,
    /// Probing the activated release.
    HealthChecking,
    /// Returning to the previous release.
    RollingBack,
    /// Ended with success.
    Succeeded,
    /// Ended with a failure.
    Failed,
    /// Ended with a failure that could not be rolled back.
    RollbackFailed,
}

impl DeploymentStatus {
    /// The text that stands for it.
    pub open spec fn text(self) -> Seq<char> {
        match self {
            DeploymentStatus::Queued => "queued"@,
            DeploymentStatus::Fetching => "fetching"@,
            DeploymentStatus::Building => "building"@,
            DeploymentStatus::Migrating => "migrating"@,
            DeploymentStatus::Activating => "activating"@,
            DeploymentStatus::HealthChecking => "healthChecking"@,
            DeploymentStatus::RollingBack => "rollingBack"@,
            DeploymentStatus::Succeeded => "succeeded"@,
            DeploymentStatus::Failed => "failed"@,
            DeploymentStatus::RollbackFailed => "rollbackFailed"@,
        }
    }

    /// The text that stands for it.
    pub fn name(&self) -> (name: &'static str)
        ensures
            name@ == self.text(),
    {
        match self {
            DeploymentStatus::Queued => "queued",
            DeploymentStatus::Fetching => "fetching",
            DeploymentStatus::Building => "building",
            DeploymentStatus::Migrating => "migrating",
            DeploymentStatus::Activating => "activating",
            DeploymentStatus::HealthChecking => "healthChecking",
            DeploymentStatus::RollingBack => "rollingBack",
            DeploymentStatus::Succeeded => "succeeded",
            DeploymentStatus::Failed => "failed",
            DeploymentStatus::RollbackFailed => "rollbackFailed",
        }
    }

    /// What a text stands for.
    pub open spec fn parsed(value: Seq<char>) -> Result<DeploymentStatus, AppErrorView> {
        if value == "queued"@ {
            Ok(DeploymentStatus::Queued)
        } else if value == "fetching"@ {
            Ok(DeploymentStatus::Fetching)
        } else if value == "building"@ {
            Ok(DeploymentStatus::Building)
        } else if value == "migrating"@ {
            Ok(DeploymentStatus::Migrating)
        } else if value == "activating"@ {
            Ok(DeploymentStatus::Activating)
        } else if value == "healthChecking"@ {
            Ok(DeploymentStatus::HealthChecking)
        } else if value == "rollingBack"@ {
            Ok(DeploymentStatus::RollingBack)
        } else if value == "succeeded"@ {
            Ok(DeploymentStatus::Succeeded)
        } else if value == "failed"@ {
            Ok(DeploymentStatus::Failed)
        } else if value == "rollbackFailed"@ {
            Ok(DeploymentStatus::RollbackFailed)
        } else {
            Err(AppErrorView::InvalidState { reason: "unknown deployment status "@ + str_debug(value) })
        }
    }

    /// Reads the text that stands for it.
    pub fn from_str(value: &str) -> (result: Result<DeploymentStatus, AppError>)
        ensures
            outcome(result) == DeploymentStatus::parsed(value@),
    {
        if text_eq(value, "queued") {
            Ok(DeploymentStatus::Queued)
        } else if text_eq(value, "fetching") {
            Ok(DeploymentStatus::Fetching)
        } else if text_eq(value, "building") {
            Ok(DeploymentStatus::Building)
        } else if text_eq(value, "migrating") {
            Ok(DeploymentStatus::Migrating)
        } else if text_eq(value, "activating") {
            Ok(DeploymentStatus::Activating)
        } else if text_eq(value, "healthChecking") {
            Ok(DeploymentStatus::HealthChecking)
        } else if text_eq(value, "rollingBack") {
            Ok(DeploymentStatus::RollingBack)
        } else if text_eq(value, "succeeded") {
            Ok(DeploymentStatus::Succeeded)
        } else if text_eq(value, "failed") {
            Ok(DeploymentStatus::Failed)
        } else if text_eq(value, "rollbackFailed") {
            Ok(DeploymentStatus::RollbackFailed)
        } else {
            Err(
                AppError::InvalidState {
                    reason: cat2("unknown deployment status ", debug_text(value).as_str()),
                },
            )
        }
    }
}

impl DeepView for DeploymentStatus {
    type V = DeploymentStatus;

    open spec fn deep_view(&self) -> DeploymentStatus {
        *self
    }
}

/// Reading the text of a deployment status gives that deployment status back, so no two share a text.
pub proof fn status_text_reads_back(status: DeploymentStatus)
    ensures
        DeploymentStatus::parsed(status.text()) == Ok::<DeploymentStatus, AppErrorView>(status),
{
    reveal_strlit("queued");
    assert("queued"@.len() == 6);
    reveal_strlit("fetching");
    assert("fetching"@.len() == 8);
    reveal_strlit("building");
    assert("building"@.len() == 8);
    reveal_strlit("migrating");
    assert("migrating"@.len() == 9);
    reveal_strlit("activating");
    assert("activating"@.len() == 10);
    reveal_strlit("healthChecking");
    assert("healthChecking"@.len() == 14);
    reveal_strlit("rollingBack");
    assert("rollingBack"@.len() == 11);
    reveal_strlit("succeeded");
    assert("succeeded"@.len() == 9);
    reveal_strlit("failed");
    assert("failed"@.len() == 6);
    reveal_strlit("rollbackFailed");
    assert("rollbackFailed"@.len() == 14);
    assert("building"@[0] != "fetching"@[0]);
    assert("succeeded"@[0] != "migrating"@[0]);
    assert("failed"@[0] != "queued"@[0]);
    assert("rollbackFailed"@[0] != "healthChecking"@[0]);
}

impl DeploymentStatus {
    /// Whether a deployment in this state has ended.
    pub open spec fn ended(self) -> bool {
        self is Succeeded || self is Failed || self is RollbackFailed
    }

    /// Whether a deployment in this state has been started and has not ended.
    pub open spec fn under_way(self) -> bool {
        !(self is Queued) && !self.ended()
    }

    /// Whether a deployment in this state has ended.
    pub fn is_ended(&self) -> (ended: bool)
        ensures
            ended == self.ended(),
    {
        matches!(
            self,
            DeploymentStatus::Succeeded | DeploymentStatus::Failed | DeploymentStatus::RollbackFailed
        )
    }

    /// Whether a deployment in this state has been started and has not ended.
    pub fn is_under_way(&self) -> (under_way: bool)
        ensures
            under_way == self.under_way(),
    {
        !matches!(self, DeploymentStatus::Queued) && !self.is_ended()
    }
}

/// Which ended deployments are cleaned.
#[derive(Debug, Clone, Copy, PartialEq, Eq, Structural)]
pub enum CleanDeploymentType {
    /// Those that failed, rolled back or not.
    Failed,
    /// Those that succeeded.
    Succeeded,
    /// All of them.
    All,
}

impl CleanDeploymentType {
    /// Whether a deployment in the given state is one of those.
    pub open spec fn covers(self, status: DeploymentStatus) -> bool {
        match self {
            CleanDeploymentType::Failed => status is Failed || status is RollbackFailed,
            CleanDeploymentType::Succeeded => status is Succeeded,
            CleanDeploymentType::All => status.ended(),
        }
    }

    /// Whether a deployment in the given state is one of those.
    pub fn matches_status(&self, status: DeploymentStatus) -> (matched: bool)
        ensures
            matched == self.covers(status),
    {
        match self {
            CleanDeploymentType::Failed => matches!(
                status,
                DeploymentStatus::Failed | DeploymentStatus::RollbackFailed
            ),
            CleanDeploymentType::Succeeded => matches!(status, DeploymentStatus::Succeeded),
            CleanDeploymentType::All => status.is_ended(),
        }
    }
}

/// A deployment as its table holds it.
#[derive(Debug)]
pub struct DeploymentRow {
    pub id: String,
    pub project_id: String,
    pub event_key: String,
    pub kind: String,
    pub tag: String,
    pub requested_sha: String,
    pub commit_sha: Option<String>,
    pub release_path: Option<String>,
    pub previous_release_path: Option<String>,
    pub status: String,
    pub error_code: Option<String>,
    pub error_message: Option<String>,
    pub retry_of: Option<String>,
    pub created_at: String,
    pub updated_at: String,
    pub completed_at: Option<String>,
}

/// The characters of a deployment row.
#[verifier::ext_equal]
pub struct DeploymentRowView {
    pub id: Seq<char>,
    pub project_id: Seq<char>,
    pub event_key: Seq<char>,
    pub kind: Seq<char>,
    pub tag: Seq<char>,
    pub requested_sha: Seq<char>,
    pub commit_sha: Option<Seq<char>>,
    pub release_path: Option<Seq<char>>,
    pub previous_release_path: Option<Seq<char>>,
    pub status: Seq<char>,
    pub error_code: Option<Seq<char>>,
    pub error_message: Option<Seq<char>>,
    pub retry_of: Option<Seq<char>>,
    pub created_at: Seq<char>,
    pub updated_at: Seq<char>,
    pub completed_at: Option<Seq<char>>,
}

impl View for DeploymentRow {
    type V = DeploymentRowView;

    open spec fn view(&self) -> DeploymentRowView {
        DeploymentRowView {
            id: self.id@,
            project_id: self.project_id@,
            event_key: self.event_key@,
            kind: self.kind@,
            tag: self.tag@,
            requested_sha: self.requested_sha@,
            commit_sha: self.commit_sha.deep_view(),
            release_path: self.release_path.deep_view(),
            previous_release_path: self.previous_release_path.deep_view(),
            status: self.status@,
            error_code: self.error_code.deep_view(),
            error_message: self.error_message.deep_view(),
            retry_of: self.retry_of.deep_view(),
            created_at: self.created_at@,
            updated_at: self.updated_at@,
            completed_at: self.completed_at.deep_view(),
        }
    }
}

impl DeepView for DeploymentRow {
    type V = DeploymentRowView;

    open spec fn deep_view(&self) -> DeploymentRowView {
        self@
    }
}

/// A deployment.
#[derive(Debug)]
pub struct Deployment {
    pub id: String,
    pub project_id: String,
    pub event_key: String,
    pub kind: DeploymentKind,
    pub tag: String,
    pub requested_sha: String,
    pub commit_sha: Option<String>,
    pub release_path: Option<String>,
    pub previous_release_path: Option<String>,
    pub status: DeploymentStatus,
    pub error_code: Option<String>,
    pub error_message: Option<String>,
    pub retry_of: Option<String>,
    pub created_at: String,
    pub updated_at: String,
    pub completed_at: Option<String>,
}

/// A deployment with the characters of its texts.
#[verifier::ext_equal]
pub struct DeploymentView {
    pub id: Seq<char>,
    pub project_id: Seq<char>,
    pub event_key: Seq<char>,
    pub kind: DeploymentKind,
    pub tag: Seq<char>,
    pub requested_sha: Seq<char>,
    pub commit_sha: Option<Seq<char>>,
    pub release_path: Option<Seq<char>>,
    pub previous_release_path: Option<Seq<char>>,
    pub status: DeploymentStatus,
    pub error_code: Option<Seq<char>>,
    pub error_message: Option<Seq<char>>,
    pub retry_of: Option<Seq<char>>,
    pub created_at: Seq<char>,
    pub updated_at: Seq<char>,
    pub completed_at: Option<Seq<char>>,
}

impl View for Deployment {
    type V = DeploymentView;

    open spec fn view(&self) -> DeploymentView {
        DeploymentView {
            id: self.id@,
            project_id: self.project_id@,
            event_key: self.event_key@,
            kind: self.kind,
            tag: self.tag@,
            requested_sha: self.requested_sha@,
            commit_sha: self.commit_sha.deep_view(),
            release_path: self.release_path.deep_view(),
            previous_release_path: self.previous_release_path.deep_view(),
            status: self.status,
            error_code: self.error_code.deep_view(),
            error_message: self.error_message.deep_view(),
            retry_of: self.retry_of.deep_view(),
            created_at: self.created_at@,
            updated_at: self.updated_at@,
            completed_at: self.completed_at.deep_view(),
        }
    }
}

impl DeepView for Deployment {
    type V = DeploymentView;

    open spec fn deep_view(&self) -> DeploymentView {
        self@
    }
}

impl DeploymentView {
    /// The row that holds the deployment.
    pub open spec fn row(self) -> DeploymentRowView {
        DeploymentRowView {
            id: self.id,
            project_id: self.project_id,
            event_key: self.event_key,
            kind: self.kind.text(),
            tag: self.tag,
            requested_sha: self.requested_sha,
            commit_sha: self.commit_sha,
            release_path: self.release_path,
            previous_release_path: self.previous_release_path,
            status: self.status.text(),
            error_code: self.error_code,
            error_message: self.error_message,
            retry_of: self.retry_of,
            created_at: self.created_at,
            updated_at: self.updated_at,
            completed_at: self.completed_at,
        }
    }
}

impl DeploymentRowView {
    /// The deployment that a row holds; an unknown kind is reported before an unknown status.
    pub open spec fn deployment(self) -> Result<DeploymentView, AppErrorView> {
        match DeploymentKind::parsed(self.kind) {
            Err(error) => Err(error),
            Ok(kind) => match DeploymentStatus::parsed(self.status) {
                Err(error) => Err(error),
                Ok(status) => Ok(
                    DeploymentView {
                        id: self.id,
                        project_id: self.project_id,
                        event_key: self.event_key,
                        kind,
                        tag: self.tag,
                        requested_sha: self.requested_sha,
                        commit_sha: self.commit_sha,
                        release_path: self.release_path,
                        previous_release_path: self.previous_release_path,
                        status,
                        error_code: self.error_code,
                        error_message: self.error_message,
                        retry_of: self.retry_of,
                        created_at: self.created_at,
                        updated_at: self.updated_at,
                        completed_at: self.completed_at,
                    },
                ),
            },
        }
    }
}

impl DeploymentRowView {
    /// Whether the row is in a state.
    pub open spec fn in_state(self, status: DeploymentStatus) -> bool {
        self.status == status.text()
    }

    /// Whether the row is in a state of a deployment that has not ended.
    pub open spec fn unfinished(self) -> bool {
        DeploymentStatus::parsed(self.status) matches Ok(status) && !status.ended()
    }

    /// Whether the row is in a state of a deployment that has been started and has not ended.
    pub open spec fn under_way(self) -> bool {
        DeploymentStatus::parsed(self.status) matches Ok(status) && status.under_way()
    }

    /// Whether the row is in a state of a deployment that has ended in a way that is cleaned.
    pub open spec fn cleanable(self, deployment_type: CleanDeploymentType) -> bool {
        DeploymentStatus::parsed(self.status) matches Ok(status) && deployment_type.covers(status)
    }
}

/// The deployments that rows hold; the first row that holds none is reported.
pub open spec fn read_rows(rows: Seq<DeploymentRowView>) -> Result<Seq<DeploymentView>, AppErrorView>
    decreases rows.len(),
{
    if rows.len() == 0 {
        Ok(Seq::empty())
    } else {
        match read_rows(rows.drop_last()) {
            Err(error) => Err(error),
            Ok(before) => match rows.last().deployment() {
                Err(error) => Err(error),
                Ok(deployment) => Ok(before.push(deployment)),
            },
        }
    }
}

proof fn read_rows_stops(rows: Seq<DeploymentRowView>, count: int)
    requires
        0 <= count <= rows.len(),
        read_rows(rows.take(count)) is Err,
    ensures
        read_rows(rows) == read_rows(rows.take(count)),
    decreases rows.len(),
{
    if count < rows.len() {
        assert(rows.drop_last().take(count) =~= rows.take(count));
        read_rows_stops(rows.drop_last(), count);
    } else {
        assert(rows.take(count) =~= rows);
    }
}

/// Rows that are read give one deployment each, in their order.
pub proof fn rows_are_read_in_order(rows: Seq<DeploymentRowView>)
    ensures
        read_rows(rows) matches Ok(list) ==> list.len() == rows.len() && forall|i: int|
            0 <= i < rows.len() ==> (#[trigger] rows[i]).deployment() == Ok::<
                DeploymentView,
                AppErrorView,
            >(list[i]) && list[i].id == rows[i].id,
    decreases rows.len(),
{
    if rows.len() > 0 {
        let before = rows.drop_last();
        rows_are_read_in_order(before);
        if let Ok(list) = read_rows(rows) {
            assert forall|i: int| 0 <= i < rows.len() implies (#[trigger] rows[i]).deployment()
                == Ok::<DeploymentView, AppErrorView>(list[i]) && list[i].id == rows[i].id by {
                if i < before.len() {
                    assert(before[i] == rows[i]);
                }
            }
        }
    }
}

/// The deployments that rows hold.
pub fn deployments_of(rows: &Vec<DeploymentRow>) -> (result: Result<Vec<Deployment>, AppError>)
    ensures
        outcome(result) == read_rows(rows.deep_view()),
{
    let ghost all = rows.deep_view();
    let mut list: Vec<Deployment> = Vec::new();
    let mut i: usize = 0;
    assert(list.deep_view() =~= Seq::<DeploymentView>::empty());
    assert(all.take(0) =~= Seq::<DeploymentRowView>::empty());
    while i < rows.len()
        invariant
            i <= rows.len(),
            all == rows.deep_view(),
            read_rows(all.take(i as int)) == Ok::<Seq<DeploymentView>, AppErrorView>(
                list.deep_view(),
            ),
        decreases rows.len() - i,
    {
        let ghost before = list.deep_view();
        assert(all.take(i + 1).drop_last() =~= all.take(i as int));
        assert(all[i as int] == rows[i as int]@);
        match Deployment::try_from(rows[i].copy()) {
            Ok(deployment) => {
                let ghost shown = deployment@;
                list.push(deployment);
                assert(list.deep_view() =~= before.push(shown));
            },
            Err(error) => {
                proof {
                    read_rows_stops(all, i + 1);
                }
                return Err(error);
            },
        }
        i += 1;
    }
    assert(all.take(i as int) =~= all);
    Ok(list)
}

impl DeploymentRow {
    /// Whether the row is in a state.
    pub fn is_in_state(&self, status: DeploymentStatus) -> (found: bool)
        ensures
            found == self@.in_state(status),
    {
        text_eq(self.status.as_str(), status.name())
    }

    /// Whether the row is in a state of a deployment that has not ended.
    pub fn is_unfinished(&self) -> (found: bool)
        ensures
            found == self@.unfinished(),
    {
        match DeploymentStatus::from_str(self.status.as_str()) {
            Ok(status) => !status.is_ended(),
            Err(_) => false,
        }
    }

    /// Whether the row is in a state of a deployment that has been started and has not ended.
    pub fn is_under_way(&self) -> (found: bool)
        ensures
            found == self@.under_way(),
    {
        match DeploymentStatus::from_str(self.status.as_str()) {
            Ok(status) => status.is_under_way(),
            Err(_) => false,
        }
    }

    /// Whether the row is in a state of a deployment that has ended in a way that is cleaned.
    pub fn is_cleanable(&self, deployment_type: CleanDeploymentType) -> (found: bool)
        ensures
            found == self@.cleanable(deployment_type),
    {
        match DeploymentStatus::from_str(self.status.as_str()) {
            Ok(status) => deployment_type.matches_status(status),
            Err(_) => false,
        }
    }

    /// A copy of the row.
    pub fn copy(&self) -> (copy: DeploymentRow)
        ensures
            copy == *self,
    {
        DeploymentRow {
            id: self.id.clone(),
            project_id: self.project_id.clone(),
            event_key: self.event_key.clone(),
            kind: self.kind.clone(),
            tag: self.tag.clone(),
            requested_sha: self.requested_sha.clone(),
            commit_sha: opt_text_copy(&self.commit_sha),
            release_path: opt_text_copy(&self.release_path),
            previous_release_path: opt_text_copy(&self.previous_release_path),
            status: self.status.clone(),
            error_code: opt_text_copy(&self.error_code),
            error_message: opt_text_copy(&self.error_message),
            retry_of: opt_text_copy(&self.retry_of),
            created_at: self.created_at.clone(),
            updated_at: self.updated_at.clone(),
            completed_at: opt_text_copy(&self.completed_at),
        }
    }
}

impl Deployment {
    /// The deployment that a row holds.
    pub fn try_from(row: DeploymentRow) -> (result: Result<Deployment, AppError>)
        ensures
            outcome(result) == row@.deployment(),
    {
        let kind = match DeploymentKind::from_str(row.kind.as_str()) {
            Ok(kind) => kind,
            Err(error) => {
                return Err(error);
            },
        };
        let status = match DeploymentStatus::from_str(row.status.as_str()) {
            Ok(status) => status,
            Err(error) => {
                return Err(error);
            },
        };
        Ok(
            Deployment {
                id: row.id,
                project_id: row.project_id,
                event_key: row.event_key,
                kind,
                tag: row.tag,
                requested_sha: row.requested_sha,
                commit_sha: row.commit_sha,
                release_path: row.release_path,
                previous_release_path: row.previous_release_path,
                status,
                error_code: row.error_code,
                error_message: row.error_message,
                retry_of: row.retry_of,
                created_at: row.created_at,
                updated_at: row.updated_at,
                completed_at: row.completed_at,
            },
        )
    }

    /// The row that holds the deployment.
    pub fn row(&self) -> (row: DeploymentRow)
        ensures
            row@ == self@.row(),
    {
        DeploymentRow {
            id: self.id.clone(),
            project_id: self.project_id.clone(),
            event_key: self.event_key.clone(),
            kind: self.kind.name().to_owned(),
            tag: self.tag.clone(),
            requested_sha: self.requested_sha.clone(),
            commit_sha: opt_text_copy(&self.commit_sha),
            release_path: opt_text_copy(&self.release_path),
            previous_release_path: opt_text_copy(&self.previous_release_path),
            status: self.status.name().to_owned(),
            error_code: opt_text_copy(&self.error_code),
            error_message: opt_text_copy(&self.error_message),
            retry_of: opt_text_copy(&self.retry_of),
            created_at: self.created_at.clone(),
            updated_at: self.updated_at.clone(),
            completed_at: opt_text_copy(&self.completed_at),
        }
    }

    /// A copy of the deployment.
    pub fn copy(&self) -> (copy: Deployment)
        ensures
            copy == *self,
    {
        Deployment {
            id: self.id.clone(),
            project_id: self.project_id.clone(),
            event_key: self.event_key.clone(),
            kind: self.kind,
            tag: self.tag.clone(),
            requested_sha: self.requested_sha.clone(),
            commit_sha: opt_text_copy(&self.commit_sha),
            release_path: opt_text_copy(&self.release_path),
            previous_release_path: opt_text_copy(&self.previous_release_path),
            status: self.status,
            error_code: opt_text_copy(&self.error_code),
            error_message: opt_text_copy(&self.error_message),
            retry_of: opt_text_copy(&self.retry_of),
            created_at: self.created_at.clone(),
            updated_at: self.updated_at.clone(),
            completed_at: opt_text_copy(&self.completed_at),
        }
    }
}

/// Reading the row of a deployment gives that deployment back.
pub proof fn deployment_row_reads_back(deployment: DeploymentView)
    ensures
        deployment.row().deployment() == Ok::<DeploymentView, AppErrorView>(deployment),
{
    kind_text_reads_back(deployment.kind);
    status_text_reads_back(deployment.status);
}

/// A project as its table holds it; the two flags are set where they are not 0.
#[derive(Debug)]
pub struct ProjectStateRow {
    pub project_id: String,
    pub stopped: i64,
    pub blocked: i64,
    pub blocked_reason: Option<String>,
    pub updated_at: String,
}

/// The characters and flags of a project row.
#[verifier::ext_equal]
pub struct ProjectStateRowView {
    pub project_id: Seq<char>,
    pub stopped: i64,
    pub blocked: i64,
    pub blocked_reason: Option<Seq<char>>,
    pub updated_at: Seq<char>,
}

impl View for ProjectStateRow {
    type V = ProjectStateRowView;

    open spec fn view(&self) -> ProjectStateRowView {
        ProjectStateRowView {
            project_id: self.project_id@,
            stopped: self.stopped,
            blocked: self.blocked,
            blocked_reason: self.blocked_reason.deep_view(),
            updated_at: self.updated_at@,
        }
    }
}

impl DeepView for ProjectStateRow {
    type V = ProjectStateRowView;

    open spec fn deep_view(&self) -> ProjectStateRowView {
        self@
    }
}

impl ProjectStateRow {
    /// A copy of the row.
    pub fn copy(&self) -> (copy: ProjectStateRow)
        ensures
            copy == *self,
    {
        ProjectStateRow {
            project_id: self.project_id.clone(),
            stopped: self.stopped,
            blocked: self.blocked,
            blocked_reason: opt_text_copy(&self.blocked_reason),
            updated_at: self.updated_at.clone(),
        }
    }
}

/// Whether a project takes part in deployments.
#[derive(Debug, Clone, Copy, PartialEq, Eq, Structural)]
pub enum ProjectStatus {
    /// It does.
    Running,
    /// It was stopped.
    Stopped,
    /// A failed rollback blocked it.
    Blocked,
}

/// The state of a project.
#[derive(Debug)]
pub struct ProjectState {
    pub project_id: String,
    pub status: ProjectStatus,
    pub stopped: bool,
    pub blocked: bool,
    pub blocked_reason: Option<String>,
    pub updated_at: String,
}

/// The state of a project with the characters of its texts.
#[verifier::ext_equal]
pub struct ProjectStateView {
    pub project_id: Seq<char>,
    pub status: ProjectStatus,
    pub stopped: bool,
    pub blocked: bool,
    pub blocked_reason: Option<Seq<char>>,
    pub updated_at: Seq<char>,
}

impl View for ProjectState {
    type V = ProjectStateView;

    open spec fn view(&self) -> ProjectStateView {
        ProjectStateView {
            project_id: self.project_id@,
            status: self.status,
            stopped: self.stopped,
            blocked: self.blocked,
            blocked_reason: self.blocked_reason.deep_view(),
            updated_at: self.updated_at@,
        }
    }
}

impl DeepView for ProjectState {
    type V = ProjectStateView;

    open spec fn deep_view(&self) -> ProjectStateView {
        self@
    }
}

impl ProjectStateRowView {
    /// The state that a row holds: a blocked project is shown as blocked, stopped or not.
    pub open spec fn state(self) -> ProjectStateView {
        ProjectStateView {
            project_id: self.project_id,
            status: if self.blocked != 0 {
                ProjectStatus::Blocked
            } else if self.stopped != 0 {
                ProjectStatus::Stopped
            } else {
                ProjectStatus::Running
            },
            stopped: self.stopped != 0,
            blocked: self.blocked != 0,
            blocked_reason: self.blocked_reason,
            updated_at: self.updated_at,
        }
    }
}

impl ProjectState {
    /// The state that a row holds.
    pub fn from_row(row: ProjectStateRow) -> (state: ProjectState)
        ensures
            state@ == row@.state(),
    {
        let stopped = row.stopped != 0;
        let blocked = row.blocked != 0;
        let status = if blocked {
            ProjectStatus::Blocked
        } else if stopped {
            ProjectStatus::Stopped
        } else {
            ProjectStatus::Running
        };
        ProjectState {
            project_id: row.project_id,
            status,
            stopped,
            blocked,
            blocked_reason: row.blocked_reason,
            updated_at: row.updated_at,
        }
    }
}

} // verus!
