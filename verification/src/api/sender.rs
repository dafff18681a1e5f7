//! Requests of the send routes, and what a batch's progress leaves in the
//! history.
use vstd::prelude::*;

use crate::sender::SendProgress;
use crate::text::str_eq;

verus! {

/// Send one line.
#[derive(Debug)]
pub struct SendSingleRequest {
    pub text: String,
    /// Who asked (`webui` when not given).
    pub source: String,
}

/// Send a batch of lines.
#[derive(Debug)]
pub struct SendBatchRequest {
    pub texts: Vec<String>,
    /// The pause between lines, in place of the configured one.
    pub delay_between: Option<u64>,
    /// Who asked (`webui` when not given).
    pub source: String,
}

/// A page of the send history.
#[derive(Debug)]
pub struct HistoryQuery {
    /// How many entries (50 when not given).
    pub limit: usize,
    /// How many to skip (0 when not given).
    pub offset: usize,
}

/// The source of a request that names none.
pub fn default_source() -> (r: String)
    ensures
        r@ == "webui"@,
{
    String::from_str("webui")
}

/// The page size when a request names none.
pub fn default_limit() -> (r: usize)
    ensures
        r == 50,
{
    50
}

impl Default for HistoryQuery {
    fn default() -> (r: HistoryQuery)
        ensures
            r.limit == 50,
            r.offset == 0,
    {
        HistoryQuery { limit: default_limit(), offset: 0 }
    }
}

/// What a progress report of a batch leaves in the history and the
/// statistics: a line that went out (`sent`) counts as a success, a line
/// that failed (`error`) as a failure; other reports leave nothing.
pub fn progress_record(p: &SendProgress) -> (r: Option<(String, bool)>)
    ensures
        match r {
            Some((t, ok)) => p.text matches Some(pt) && t@ == pt@
                && ((ok && p.status@ == "sent"@) || (!ok && p.status@ == "error"@)),
            None => p.text is None || (p.status@ != "sent"@ && p.status@ != "error"@),
        },
{
    match &p.text {
        Some(t) => {
            if str_eq(p.status.as_str(), "sent") {
                Some((t.clone(), true))
            } else if str_eq(p.status.as_str(), "error") {
                Some((t.clone(), false))
            } else {
                None
            }
        },
        None => None,
    }
}

} // verus!
