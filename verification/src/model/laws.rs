//! Which rows can be read, and what they are read as.
use vstd::prelude::*;

#[allow(unused_imports)]
use crate::error::AppErrorView;
#[allow(unused_imports)]
use crate::model::{
    kind_text_reads_back, read_rows, status_text_reads_back, DeploymentKind, DeploymentRowView,
    DeploymentStatus, DeploymentView,
};

verus! {

/// Whether a text names a kind of deployments.
pub open spec fn names_kind(text: Seq<char>) -> bool {
    text == "deploy"@ || text == "rollback"@
}

/// Whether a text names a state of deployments.
pub open spec fn names_state(text: Seq<char>) -> bool {
    ||| text == "queued"@
    ||| text == "fetching"@
    ||| text == "building"@
    ||| text == "migrating"@
    ||| text == "activating"@
    ||| text == "healthChecking"@
    ||| text == "rollingBack"@
    ||| text == "succeeded"@
    ||| text == "failed"@
    ||| text == "rollbackFailed"@
}

/// A row is a deployment exactly if its kind and its state are known, and everything else of it is
/// taken over as it is; the deployment is written back as the same row.
pub proof fn rows_with_known_texts_are_read(row: DeploymentRowView)
    ensures
        row.deployment() is Ok <==> names_kind(row.kind) && names_state(row.status),
        row.deployment() matches Ok(deployment) ==> {
            &&& deployment.id == row.id && deployment.project_id == row.project_id
            &&& deployment.event_key == row.event_key && deployment.tag == row.tag
            &&& deployment.requested_sha == row.requested_sha
            &&& deployment.commit_sha == row.commit_sha
            &&& deployment.release_path == row.release_path
            &&& deployment.previous_release_path == row.previous_release_path
            &&& deployment.error_code == row.error_code
            &&& deployment.error_message == row.error_message
            &&& deployment.retry_of == row.retry_of && deployment.created_at == row.created_at
            &&& deployment.updated_at == row.updated_at
            &&& deployment.completed_at == row.completed_at
            &&& deployment.row() == row
        },
        row.deployment() matches Err(error) ==> error is InvalidState,
{
}

/// The kinds and the states are written as texts that name them.
pub proof fn kinds_and_states_are_written_in_words()
    ensures
        DeploymentKind::Deploy.text() == "deploy"@,
        DeploymentKind::Rollback.text() == "rollback"@,
        DeploymentStatus::Queued.text() == "queued"@,
        DeploymentStatus::Fetching.text() == "fetching"@,
        DeploymentStatus::Building.text() == "building"@,
        DeploymentStatus::Migrating.text() == "migrating"@,
        DeploymentStatus::Activating.text() == "activating"@,
        DeploymentStatus::HealthChecking.text() == "healthChecking"@,
        DeploymentStatus::RollingBack.text() == "rollingBack"@,
        DeploymentStatus::Succeeded.text() == "succeeded"@,
        DeploymentStatus::Failed.text() == "failed"@,
        DeploymentStatus::RollbackFailed.text() == "rollbackFailed"@,
{
}

/// Rows are read one by one in their order, and all of them or none.
pub proof fn rows_are_read_together(rows: Seq<DeploymentRowView>)
    ensures
        read_rows(rows) is Ok <==> forall|i: int|
            0 <= i < rows.len() ==> names_kind((#[trigger] rows[i]).kind) && names_state(
                rows[i].status,
            ),
        read_rows(rows) matches Ok(list) ==> list.len() == rows.len() && forall|i: int|
            0 <= i < rows.len() ==> (#[trigger] list[i]).row() == rows[i],
    decreases rows.len(),
{
    if rows.len() > 0 {
        let before = rows.drop_last();
        let last = rows.len() - 1;
        rows_are_read_together(before);
        rows_with_known_texts_are_read(rows.last());
        assert(rows[last] == rows.last());
        assert forall|i: int| 0 <= i < before.len() implies #[trigger] before[i] == rows[i] by {}
        if read_rows(rows) is Ok {
            assert forall|i: int| 0 <= i < rows.len() implies names_kind((#[trigger] rows[i]).kind)
                && names_state(rows[i].status) by {
                if i < last {
                    assert(before[i] == rows[i]);
                }
            }
        }
        if forall|i: int|
            0 <= i < rows.len() ==> names_kind((#[trigger] rows[i]).kind) && names_state(
                rows[i].status,
            ) {
            assert forall|i: int| 0 <= i < before.len() implies names_kind(
                (#[trigger] before[i]).kind,
            ) && names_state(before[i].status) by {
                assert(before[i] == rows[i]);
            }
        }
        if let Ok(list) = read_rows(rows) {
            let earlier = read_rows(before)->Ok_0;
            assert forall|i: int| 0 <= i < rows.len() implies (#[trigger] list[i]).row()
                == rows[i] by {
                if i < last {
                    assert(list[i] == earlier[i]);
                    assert(earlier[i].row() == before[i]);
                }
            }
        }
    }
}

} // verus!
