//! Which answers to a probe count as healthy.
use vstd::prelude::*;

#[allow(unused_imports)]
use crate::error::AppErrorView;
#[allow(unused_imports)]
use crate::health::{probe_result, shown, ProbeBody, ProbeOutcome};

verus! {

/// A probe succeeds exactly if an answer came with a status in the hundred of successes, whatever
/// its body is; else it fails as a health check of the URL that was probed.
pub proof fn only_successful_answers_are_healthy(url: Seq<char>, outcome: ProbeOutcome)
    ensures
        probe_result(url, outcome) is Ok <==> (outcome matches ProbeOutcome::Answered {
            status,
            ..
        } && status / 100 == 2),
        probe_result(url, outcome) matches Err(error) ==> (
        error matches AppErrorView::HealthCheck { url: probed, .. } && probed == url),
        outcome matches ProbeOutcome::Failed { source } ==> (probe_result(url, outcome) matches Err(
            AppErrorView::HealthCheck { reason, .. },
        ) && reason == source@),
{
}

/// An error shows the beginning of a long answer and the whole of a short one.
pub proof fn long_answers_are_cut(bytes: Seq<u8>)
    ensures
        shown(bytes).len() == (if bytes.len() < 1024 {
            bytes.len()
        } else {
            1024
        }),
        forall|i: int| 0 <= i < shown(bytes).len() ==> #[trigger] shown(bytes)[i] == bytes[i],
{
}

} // verus!
