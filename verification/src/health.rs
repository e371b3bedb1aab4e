//! Health checks: what the answer to a probe means.
use vstd::prelude::*;

use crate::error::AppError;
#[allow(unused_imports)]
use crate::error::{outcome, AppErrorView};
#[allow(unused_imports)]
use crate::text::str_debug;
use crate::text::{cat4, debug_text};

pub mod laws;

verus! {

/// The text of bytes, with a replacement character for each sequence that is no UTF-8.
pub uninterp spec fn lossy_text(bytes: Seq<u8>) -> Seq<char>;

/// Calls std's `String::from_utf8_lossy`. The contract names its result as a function of the
/// bytes; which sequences are replaced is left to std.
#[verifier::external_body]
fn text_of_bytes(bytes: &Vec<u8>) -> (text: String)
    ensures
        text@ == lossy_text(bytes@),
{
    String::from_utf8_lossy(bytes).into_owned()
}

/// What reading the beginning of an answer came to.
#[derive(Debug)]
pub enum ProbeBody {
    /// The first bytes, none where the answer is empty.
    Read(Vec<u8>),
    /// Reading failed.
    Failed { source: String },
}

/// What a probe came to.
#[derive(Debug)]
pub enum ProbeOutcome {
    /// No answer came.
    Failed { source: String },
    /// An answer with a status, as a number and as it is printed.
    Answered { status: u16, status_text: String, body: ProbeBody },
}

/// The number of bytes of an answer that an error shows.
pub const SHOWN_BYTES: usize = 1024;

/// The bytes of an answer that an error shows.
pub open spec fn shown(bytes: Seq<u8>) -> Seq<u8> {
    if bytes.len() > SHOWN_BYTES {
        bytes.take(SHOWN_BYTES as int)
    } else {
        bytes
    }
}

/// What a probe returns: success exactly for a status from 200 to 299.
pub open spec fn probe_result(url: Seq<char>, outcome: ProbeOutcome) -> Result<(), AppErrorView> {
    match outcome {
        ProbeOutcome::Failed { source } => Err(
            AppErrorView::HealthCheck { url, reason: source@ },
        ),
        ProbeOutcome::Answered { status, status_text, body } => if 200 <= status <= 299 {
            Ok(())
        } else {
            match body {
                ProbeBody::Failed { source } => Err(
                    AppErrorView::HealthCheck {
                        url,
                        reason: "status "@ + status_text@ + "; failed to read response body: "@
                            + source@,
                    },
                ),
                ProbeBody::Read(bytes) => Err(
                    AppErrorView::HealthCheck {
                        url,
                        reason: "status "@ + status_text@ + "; responseBody="@ + str_debug(
                            lossy_text(shown(bytes@)),
                        ),
                    },
                ),
            }
        },
    }
}

fn shown_bytes(bytes: Vec<u8>) -> (result: Vec<u8>)
    ensures
        result@ == shown(bytes@),
{
    let mut result = bytes;
    if result.len() > SHOWN_BYTES {
        result.truncate(SHOWN_BYTES);
        assert(result@ =~= shown(bytes@));
    }
    result
}

/// What a probe returns, given what it came to.
pub fn single_health_check(url: &str, outcome: ProbeOutcome) -> (result: Result<(), AppError>)
    ensures
        crate::error::outcome(result) == probe_result(url@, outcome),
{
    match outcome {
        ProbeOutcome::Failed { source } => Err(
            AppError::HealthCheck { url: url.to_owned(), reason: source },
        ),
        ProbeOutcome::Answered { status, status_text, body } => if 200 <= status && status <= 299 {
            Ok(())
        } else {
            match body {
                ProbeBody::Failed { source } => Err(
                    AppError::HealthCheck {
                        url: url.to_owned(),
                        reason: cat4(
                            "status ",
                            status_text.as_str(),
                            "; failed to read response body: ",
                            source.as_str(),
                        ),
                    },
                ),
                ProbeBody::Read(bytes) => Err(
                    AppError::HealthCheck {
                        url: url.to_owned(),
                        reason: cat4(
                            "status ",
                            status_text.as_str(),
                            "; responseBody=",
                            debug_text(text_of_bytes(&shown_bytes(bytes)).as_str()).as_str(),
                        ),
                    },
                ),
            }
        },
    }
}

} // verus!
