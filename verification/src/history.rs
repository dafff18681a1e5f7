//! Send history: the most recent sent lines, newest first, at most
//! [`MAX_HISTORY`] of them.
use vstd::prelude::*;

use crate::stamp::now_iso;

verus! {

pub const MAX_HISTORY: usize = 200;

/// One sent line.
#[derive(Debug)]
pub struct HistoryEntry {
    pub text: String,
    pub timestamp: String,
    pub success: bool,
    pub source: String,
}

impl HistoryEntry {
    pub fn copy(&self) -> (r: HistoryEntry)
        ensures
            r == *self,
    {
        HistoryEntry {
            text: self.text.clone(),
            timestamp: self.timestamp.clone(),
            success: self.success,
            source: self.source.clone(),
        }
    }
}

/// The stored history, newest entry first.
#[derive(Debug)]
pub struct HistoryStore {
    pub entries: Vec<HistoryEntry>,
}

/// The items of `s` after skipping `offset` of them, at most `limit` of them
/// (`iter().skip(offset).take(limit)`).
pub open spec fn window<T>(s: Seq<T>, limit: nat, offset: nat) -> Seq<T> {
    if offset >= s.len() {
        Seq::empty()
    } else if offset + limit >= s.len() {
        s.subrange(offset as int, s.len() as int)
    } else {
        s.subrange(offset as int, (offset + limit) as int)
    }
}

/// Law (a page is `skip(offset).take(limit)`): a page holds
/// `min(limit, len - offset)` items (none when the offset is past the
/// end), and its `k`-th item is item `offset + k`; so a page from the
/// start at least as large as the history is the whole history.
pub proof fn law_window_is_skip_take<T>(s: Seq<T>, limit: nat, offset: nat)
    ensures
        window(s, limit, offset).len() == (if offset >= s.len() {
            0
        } else if limit < s.len() - offset {
            limit as int
        } else {
            s.len() - offset
        }),
        forall|k: int| 0 <= k < window(s, limit, offset).len() ==> #[trigger] window(s, limit, offset)[k] == s[offset + k],
        limit >= s.len() ==> window(s, limit, 0) == s,
{
    if limit >= s.len() {
        assert(window(s, limit, 0) =~= s);
    }
}

impl HistoryStore {
    pub fn new() -> (r: HistoryStore)
        ensures
            r.entries@ == Seq::<HistoryEntry>::empty(),
    {
        HistoryStore { entries: Vec::new() }
    }
}

/// The length of the history after one more entry was recorded.
pub open spec fn grown_len(n: nat) -> nat {
    if n + 1 <= MAX_HISTORY {
        n + 1
    } else {
        MAX_HISTORY as nat
    }
}

/// Record a sent line at the front, stamped `timestamp`, dropping the
/// oldest entries beyond [`MAX_HISTORY`].
pub fn record_send_at(store: &mut HistoryStore, text: &str, success: bool, source: &str, timestamp: String)
    ensures
        final(store).entries@.len() == grown_len(old(store).entries@.len()),
        final(store).entries@[0].text@ == text@,
        final(store).entries@[0].timestamp == timestamp,
        final(store).entries@[0].success == success,
        final(store).entries@[0].source@ == source@,
        final(store).entries@.subrange(1, final(store).entries@.len() as int) == old(
            store,
        ).entries@.subrange(0, final(store).entries@.len() - 1),
{
    let e = HistoryEntry {
        text: String::from_str(text),
        timestamp,
        success,
        source: String::from_str(source),
    };
    let ghost s0 = store.entries@;
    let ghost s1 = seq![e] + store.entries@;
    store.entries.insert(0, e);
    assert(store.entries@ =~= s1);
    while store.entries.len() > MAX_HISTORY
        invariant
            store.entries@.len() >= 1,
            store.entries@ == s1.subrange(0, store.entries@.len() as int),
            store.entries@.len() <= s1.len(),
            s1.len() == s0.len() + 1,
            store.entries@[0] == e,
            store.entries@.len() >= grown_len(s0.len()),
        decreases store.entries.len(),
    {
        store.entries.pop();
    }
    assert(store.entries@.subrange(1, store.entries@.len() as int) =~= s0.subrange(
        0,
        store.entries@.len() - 1,
    ));
}

/// Record a sent line, stamped with the current time.
pub fn record_send(store: &mut HistoryStore, text: &str, success: bool, source: &str)
    ensures
        final(store).entries@.len() == grown_len(old(store).entries@.len()),
        final(store).entries@[0].text@ == text@,
        final(store).entries@[0].success == success,
        final(store).entries@[0].source@ == source@,
        final(store).entries@.subrange(1, final(store).entries@.len() as int) == old(
            store,
        ).entries@.subrange(0, final(store).entries@.len() - 1),
{
    let now = now_iso();
    record_send_at(store, text, success, source, now);
}

/// The entries after skipping `offset`, at most `limit` of them, newest first.
pub fn get_history(store: &HistoryStore, limit: usize, offset: usize) -> (r: Vec<HistoryEntry>)
    ensures
        r@ == window(store.entries@, limit as nat, offset as nat),
{
    let n = store.entries.len();
    let mut r: Vec<HistoryEntry> = Vec::new();
    if offset >= n {
        return r;
    }
    let end = if limit >= n - offset {
        n
    } else {
        offset + limit
    };
    let mut i = offset;
    while i < end
        invariant
            offset <= i <= end <= n,
            n == store.entries@.len(),
            r@ == store.entries@.subrange(offset as int, i as int),
        decreases end - i,
    {
        r.push(store.entries[i].copy());
        assert(store.entries@.subrange(offset as int, i + 1) =~= store.entries@.subrange(
            offset as int,
            i as int,
        ).push(store.entries@[i as int]));
        i = i + 1;
    }
    r
}

/// The number of stored entries.
pub fn get_total(store: &HistoryStore) -> (r: usize)
    ensures
        r == store.entries@.len(),
{
    store.entries.len()
}

/// Forget every entry.
pub fn clear_history(store: &mut HistoryStore)
    ensures
        final(store).entries@ == Seq::<HistoryEntry>::empty(),
{
    store.entries = Vec::new();
}

} // verus!
