//! Requests of the AI routes.
use vstd::prelude::*;

verus! {

/// A page of the generation history.
#[derive(Debug)]
pub struct HistoryQuery {
    /// How many entries (20 when not given).
    pub limit: usize,
    /// How many to skip (0 when not given).
    pub offset: usize,
}

/// The page size when a request names none.
pub fn default_limit() -> (r: usize)
    ensures
        r == 20,
{
    20
}

impl Default for HistoryQuery {
    fn default() -> (r: HistoryQuery)
        ensures
            r.limit == 20,
            r.offset == 0,
    {
        HistoryQuery { limit: default_limit(), offset: 0 }
    }
}

/// The kind of lines a generation asks for when the request names none.
pub fn default_text_type() -> (r: String)
    ensures
        r@ == "mixed"@,
{
    String::from_str("mixed")
}

} // verus!
