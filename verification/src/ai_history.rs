//! AI generation history: generated line sets, newest first, with stars.
//! Starred entries are never dropped to make room.
use vstd::prelude::*;

use crate::history::window;
use crate::presets::{TextLine, copy_lines};
use crate::stamp::{now_iso, new_uuid};
use crate::text::str_eq;

verus! {

pub const MAX_AI_HISTORY: usize = 100;

/// One generation.
#[derive(Debug)]
pub struct AIHistoryEntry {
    pub id: String,
    pub scenario: String,
    pub texts: Vec<TextLine>,
    pub provider_id: String,
    pub starred: bool,
    pub created_at: String,
}

/// The value of an [`AIHistoryEntry`].
pub struct AIHistoryRecord {
    pub id: Seq<char>,
    pub scenario: Seq<char>,
    pub texts: Seq<TextLine>,
    pub provider_id: Seq<char>,
    pub starred: bool,
    pub created_at: Seq<char>,
}

impl View for AIHistoryEntry {
    type V = AIHistoryRecord;

    open spec fn view(&self) -> AIHistoryRecord {
        AIHistoryRecord {
            id: self.id@,
            scenario: self.scenario@,
            texts: self.texts@,
            provider_id: self.provider_id@,
            starred: self.starred,
            created_at: self.created_at@,
        }
    }
}

impl AIHistoryEntry {
    pub fn copy(&self) -> (r: AIHistoryEntry)
        ensures
            r@ == self@,
    {
        AIHistoryEntry {
            id: self.id.clone(),
            scenario: self.scenario.clone(),
            texts: copy_lines(&self.texts),
            provider_id: self.provider_id.clone(),
            starred: self.starred,
            created_at: self.created_at.clone(),
        }
    }
}

/// The stored generations, newest first.
#[derive(Debug)]
pub struct AIHistoryStore {
    pub entries: Vec<AIHistoryEntry>,
}

pub open spec fn records(s: Seq<AIHistoryEntry>) -> Seq<AIHistoryRecord> {
    s.map_values(|e: AIHistoryEntry| e@)
}

impl AIHistoryStore {
    pub open spec fn model(&self) -> Seq<AIHistoryRecord> {
        records(self.entries@)
    }

    pub fn new() -> (r: AIHistoryStore)
        ensures
            r.model() == Seq::<AIHistoryRecord>::empty(),
    {
        let r = AIHistoryStore { entries: Vec::new() };
        assert(r.model() =~= Seq::<AIHistoryRecord>::empty());
        r
    }
}

/// The index of the last entry that is not starred.
pub open spec fn last_unstarred(s: Seq<AIHistoryRecord>) -> Option<int>
    decreases s.len(),
{
    if s.len() == 0 {
        None
    } else if !s.last().starred {
        Some(s.len() - 1)
    } else {
        last_unstarred(s.drop_last())
    }
}

pub proof fn lemma_last_unstarred(s: Seq<AIHistoryRecord>)
    ensures
        match last_unstarred(s) {
            Some(i) => 0 <= i < s.len() && !s[i].starred && forall|j: int|
                i < j < s.len() ==> (#[trigger] s[j]).starred,
            None => forall|j: int| 0 <= j < s.len() ==> (#[trigger] s[j]).starred,
        },
    decreases s.len(),
{
    if s.len() > 0 && s.last().starred {
        let t = s.drop_last();
        lemma_last_unstarred(t);
        match last_unstarred(t) {
            Some(i) => {
                assert forall|j: int| i < j < s.len() implies (#[trigger] s[j]).starred by {
                    if j < s.len() - 1 {
                        assert(s[j] == t[j]);
                    }
                }
                assert(s[i] == t[i]);
            },
            None => {
                assert forall|j: int| 0 <= j < s.len() implies (#[trigger] s[j]).starred by {
                    if j < s.len() - 1 {
                        assert(s[j] == t[j]);
                    }
                }
            },
        }
    }
}

/// While there are more than [`MAX_AI_HISTORY`] entries, drop the oldest
/// entry that is not starred; stop when only starred ones are left to drop.
pub open spec fn trim_history(s: Seq<AIHistoryRecord>) -> Seq<AIHistoryRecord>
    decreases s.len(),
{
    if s.len() <= MAX_AI_HISTORY {
        s
    } else {
        match last_unstarred(s) {
            Some(i) => if 0 <= i < s.len() {
                trim_history(s.remove(i))
            } else {
                s
            },
            None => s,
        }
    }
}

/// Record `entry` at the front, then trim.
pub fn save_generation_with(store: &mut AIHistoryStore, entry: AIHistoryEntry)
    ensures
        final(store).model() == trim_history(seq![entry@] + old(store).model()),
{
    let ghost e = entry@;
    store.entries.insert(0, entry);
    assert(store.model() =~= seq![e] + old(store).model());
    while store.entries.len() > MAX_AI_HISTORY
        invariant_except_break
            trim_history(store.model()) == trim_history(seq![e] + old(store).model()),
        ensures
            store.model() == trim_history(seq![e] + old(store).model()),
        decreases store.entries.len(),
    {
        let ghost s = store.model();
        proof {
            lemma_last_unstarred(s);
        }
        let mut i = store.entries.len();
        while i > 0 && store.entries[i - 1].starred
            invariant
                0 <= i <= store.entries.len(),
                s == store.model(),
                forall|j: int| i <= j < store.entries.len() ==> (#[trigger] s[j]).starred,
            decreases i,
        {
            i = i - 1;
        }
        if i == 0 {
            proof {
                assert(last_unstarred(s) is None) by {
                    match last_unstarred(s) {
                        Some(k) => {
                            assert(s[k].starred);
                        },
                        None => {},
                    }
                }
            }
            break;
        }
        proof {
            match last_unstarred(s) {
                Some(k) => {
                    assert(!s[i - 1].starred);
                    assert(k == i - 1);
                },
                None => {
                    assert(s[i - 1].starred);
                },
            }
        }
        store.entries.remove(i - 1);
        assert(store.model() =~= s.remove(i - 1));
    }
}

/// Record a generation with a fresh id and the current time.
pub fn save_generation(store: &mut AIHistoryStore, scenario: &str, texts: &Vec<TextLine>, provider_id: &str)
    ensures
        exists|id: Seq<char>, created_at: Seq<char>|
            final(store).model() == trim_history(
                seq![
                    AIHistoryRecord {
                        id,
                        scenario: scenario@,
                        texts: texts@,
                        provider_id: provider_id@,
                        starred: false,
                        created_at,
                    },
                ] + old(store).model(),
            ),
{
    let entry = AIHistoryEntry {
        id: new_uuid(),
        scenario: String::from_str(scenario),
        texts: copy_lines(texts),
        provider_id: String::from_str(provider_id),
        starred: false,
        created_at: now_iso(),
    };
    let ghost e = entry@;
    save_generation_with(store, entry);
    assert(e == AIHistoryRecord {
        id: e.id,
        scenario: scenario@,
        texts: texts@,
        provider_id: provider_id@,
        starred: false,
        created_at: e.created_at,
    });
}

/// The entries after skipping `offset`, at most `limit` of them, newest first.
pub fn list_history(store: &AIHistoryStore, limit: usize, offset: usize) -> (r: Vec<AIHistoryEntry>)
    ensures
        records(r@) == window(store.model(), limit as nat, offset as nat),
{
    let n = store.entries.len();
    let mut r: Vec<AIHistoryEntry> = Vec::new();
    if offset >= n {
        assert(records(r@) =~= Seq::<AIHistoryRecord>::empty());
        return r;
    }
    let end = if limit >= n - offset {
        n
    } else {
        offset + limit
    };
    let mut i = offset;
    assert(records(r@) =~= store.model().subrange(offset as int, offset as int));
    while i < end
        invariant
            offset <= i <= end <= n,
            n == store.entries@.len(),
            records(r@) == store.model().subrange(offset as int, i as int),
        decreases end - i,
    {
        let ghost r0 = r@;
        r.push(store.entries[i].copy());
        assert(records(r@) =~= records(r0).push(store.entries@[i as int]@));
        assert(records(r@) =~= store.model().subrange(offset as int, i + 1));
        i = i + 1;
    }
    r
}

/// The index of the first entry with the id `id`.
pub open spec fn index_of_id(s: Seq<AIHistoryRecord>, id: Seq<char>) -> Option<int>
    decreases s.len(),
{
    if s.len() == 0 {
        None
    } else if s[0].id == id {
        Some(0)
    } else {
        match index_of_id(s.drop_first(), id) {
            Some(i) => Some(i + 1),
            None => None,
        }
    }
}

pub proof fn lemma_index_of_id(s: Seq<AIHistoryRecord>, id: Seq<char>)
    ensures
        match index_of_id(s, id) {
            Some(i) => 0 <= i < s.len() && s[i].id == id && forall|j: int|
                0 <= j < i ==> (#[trigger] s[j]).id != id,
            None => forall|j: int| 0 <= j < s.len() ==> (#[trigger] s[j]).id != id,
        },
    decreases s.len(),
{
    if s.len() > 0 && s[0].id != id {
        let t = s.drop_first();
        lemma_index_of_id(t, id);
        match index_of_id(t, id) {
            Some(i) => {
                assert forall|j: int| 0 <= j < i + 1 implies (#[trigger] s[j]).id != id by {
                    if j > 0 {
                        assert(s[j] == t[j - 1]);
                    }
                }
            },
            None => {
                assert forall|j: int| 0 <= j < s.len() implies (#[trigger] s[j]).id != id by {
                    if j > 0 {
                        assert(s[j] == t[j - 1]);
                    }
                }
            },
        }
    }
}

pub open spec fn flip_star(r: AIHistoryRecord) -> AIHistoryRecord {
    AIHistoryRecord { starred: !r.starred, ..r }
}

/// The store after `toggle_star(id)`.
pub open spec fn toggled(s: Seq<AIHistoryRecord>, id: Seq<char>) -> Seq<AIHistoryRecord> {
    match index_of_id(s, id) {
        Some(i) => if 0 <= i < s.len() {
            s.update(i, flip_star(s[i]))
        } else {
            s
        },
        None => s,
    }
}

fn find_id(store: &AIHistoryStore, gen_id: &str) -> (r: Option<usize>)
    ensures
        index_of_id(store.model(), gen_id@) == match r {
            Some(i) => Some(i as int),
            None => None::<int>,
        },
{
    let mut i: usize = 0;
    while i < store.entries.len()
        invariant
            0 <= i <= store.entries.len(),
            forall|j: int| 0 <= j < i ==> (#[trigger] store.model()[j]).id != gen_id@,
        decreases store.entries.len() - i,
    {
        if str_eq(store.entries[i].id.as_str(), gen_id) {
            proof {
                assert(store.model()[i as int].id == gen_id@);
                lemma_index_of_id(store.model(), gen_id@);
            }
            return Some(i);
        }
        i = i + 1;
    }
    proof {
        lemma_index_of_id(store.model(), gen_id@);
    }
    None
}

/// Star or unstar the first entry with the id `gen_id`; the new state, or
/// `false` when there is no such entry (and nothing changes).
pub fn toggle_star(store: &mut AIHistoryStore, gen_id: &str) -> (r: bool)
    ensures
        final(store).model() == toggled(old(store).model(), gen_id@),
        r == match index_of_id(old(store).model(), gen_id@) {
            Some(i) => !old(store).model()[i].starred,
            None => false,
        },
{
    match find_id(store, gen_id) {
        Some(i) => {
            proof {
                lemma_index_of_id(store.model(), gen_id@);
            }
            let mut e = store.entries.remove(i);
            e.starred = !e.starred;
            let st = e.starred;
            store.entries.insert(i, e);
            assert(store.model() =~= toggled(old(store).model(), gen_id@));
            st
        },
        None => false,
    }
}

/// Law (star toggle): toggling the star of the same entry twice gives the
/// store back as it was.
pub proof fn law_toggle_twice(s: Seq<AIHistoryRecord>, id: Seq<char>)
    ensures
        toggled(toggled(s, id), id) == s,
{
    lemma_index_of_id(s, id);
    match index_of_id(s, id) {
        Some(i) => {
            let t = toggled(s, id);
            assert(t[i].id == id);
            assert forall|j: int| 0 <= j < i implies (#[trigger] t[j]).id != id by {
                assert(t[j] == s[j]);
            }
            lemma_index_of_id(t, id);
            match index_of_id(t, id) {
                Some(k) => {
                    assert(k == i);
                },
                None => {
                    assert(t[i].id == id);
                },
            }
            assert(toggled(t, id) =~= s);
        },
        None => {},
    }
}

/// The entries that do not have the id `id`, in order.
pub open spec fn without_gen(s: Seq<AIHistoryRecord>, id: Seq<char>) -> Seq<AIHistoryRecord>
    decreases s.len(),
{
    if s.len() == 0 {
        s
    } else {
        let r = without_gen(s.drop_last(), id);
        if s.last().id == id {
            r
        } else {
            r.push(s.last())
        }
    }
}

/// The starred entries, in order.
pub open spec fn starred_only(s: Seq<AIHistoryRecord>) -> Seq<AIHistoryRecord>
    decreases s.len(),
{
    if s.len() == 0 {
        s
    } else {
        let r = starred_only(s.drop_last());
        if s.last().starred {
            r.push(s.last())
        } else {
            r
        }
    }
}

pub proof fn lemma_without_gen_len(s: Seq<AIHistoryRecord>, id: Seq<char>)
    ensures
        without_gen(s, id).len() <= s.len(),
    decreases s.len(),
{
    if s.len() > 0 {
        lemma_without_gen_len(s.drop_last(), id);
    }
}

pub proof fn lemma_starred_only_len(s: Seq<AIHistoryRecord>)
    ensures
        starred_only(s).len() <= s.len(),
    decreases s.len(),
{
    if s.len() > 0 {
        lemma_starred_only_len(s.drop_last());
    }
}

/// Remove every entry with the id `gen_id`; whether any was removed.
pub fn delete_entry(store: &mut AIHistoryStore, gen_id: &str) -> (r: bool)
    ensures
        final(store).model() == without_gen(old(store).model(), gen_id@),
        r == (without_gen(old(store).model(), gen_id@).len() < old(store).model().len()),
{
    let ghost s = store.model();
    let mut kept: Vec<AIHistoryEntry> = Vec::new();
    let mut i: usize = 0;
    let n = store.entries.len();
    assert(s.subrange(0, 0) =~= Seq::<AIHistoryRecord>::empty());
    assert(records(kept@) =~= Seq::<AIHistoryRecord>::empty());
    while i < n
        invariant
            0 <= i <= n,
            n == store.entries.len(),
            s == store.model(),
            records(kept@) == without_gen(s.subrange(0, i as int), gen_id@),
        decreases n - i,
    {
        let ghost k0 = records(kept@);
        if !str_eq(store.entries[i].id.as_str(), gen_id) {
            kept.push(store.entries[i].copy());
            assert(records(kept@) =~= k0.push(s[i as int]));
        }
        proof {
            let s1 = s.subrange(0, i + 1);
            assert(s1.drop_last() =~= s.subrange(0, i as int));
            assert(s1.last() == s[i as int]);
        }
        i = i + 1;
    }
    assert(s.subrange(0, n as int) =~= s);
    proof {
        lemma_without_gen_len(s, gen_id@);
    }
    let removed = kept.len() < n;
    store.entries = kept;
    removed
}

/// Remove every entry that is not starred; how many were removed.
pub fn clear_unstarred(store: &mut AIHistoryStore) -> (r: usize)
    ensures
        final(store).model() == starred_only(old(store).model()),
        r == old(store).model().len() - starred_only(old(store).model()).len(),
{
    let ghost s = store.model();
    let mut kept: Vec<AIHistoryEntry> = Vec::new();
    let mut i: usize = 0;
    let n = store.entries.len();
    assert(s.subrange(0, 0) =~= Seq::<AIHistoryRecord>::empty());
    assert(records(kept@) =~= Seq::<AIHistoryRecord>::empty());
    while i < n
        invariant
            0 <= i <= n,
            n == store.entries.len(),
            s == store.model(),
            records(kept@) == starred_only(s.subrange(0, i as int)),
        decreases n - i,
    {
        let ghost k0 = records(kept@);
        if store.entries[i].starred {
            kept.push(store.entries[i].copy());
            assert(records(kept@) =~= k0.push(s[i as int]));
        }
        proof {
            let s1 = s.subrange(0, i + 1);
            assert(s1.drop_last() =~= s.subrange(0, i as int));
            assert(s1.last() == s[i as int]);
        }
        i = i + 1;
    }
    assert(s.subrange(0, n as int) =~= s);
    proof {
        lemma_starred_only_len(s);
    }
    let removed = n - kept.len();
    store.entries = kept;
    removed
}

/// Law (stars protect): trimming the history never drops a starred entry.
pub proof fn law_trim_keeps_starred(s: Seq<AIHistoryRecord>, j: int)
    requires
        0 <= j < s.len(),
        s[j].starred,
    ensures
        trim_history(s).contains(s[j]),
    decreases s.len(),
{
    if s.len() > MAX_AI_HISTORY {
        lemma_last_unstarred(s);
        match last_unstarred(s) {
            Some(i) => {
                let t = s.remove(i);
                assert(i != j);
                let j2 = if j < i { j } else { j - 1 };
                assert(t[j2] == s[j]);
                law_trim_keeps_starred(t, j2);
            },
            None => {
                assert(s[j] == s[j]);
            },
        }
    }
}

/// Law (bounded history): after trimming, there are at most
/// [`MAX_AI_HISTORY`] entries unless every entry left is starred.
pub proof fn law_trim_bounded(s: Seq<AIHistoryRecord>)
    ensures
        trim_history(s).len() <= MAX_AI_HISTORY || forall|j: int|
            0 <= j < trim_history(s).len() ==> (#[trigger] trim_history(s)[j]).starred,
    decreases s.len(),
{
    if s.len() > MAX_AI_HISTORY {
        lemma_last_unstarred(s);
        match last_unstarred(s) {
            Some(i) => {
                law_trim_bounded(s.remove(i));
            },
            None => {
                assert(trim_history(s) == s);
            },
        }
    }
}

/// Law (clearing): after `clear_unstarred`, every entry left is starred,
/// and every starred entry is still there.
pub proof fn law_clear_keeps_exactly_starred(s: Seq<AIHistoryRecord>)
    ensures
        forall|j: int| 0 <= j < starred_only(s).len() ==> (#[trigger] starred_only(s)[j]).starred,
        forall|j: int| 0 <= j < s.len() && (#[trigger] s[j]).starred ==> starred_only(s).contains(s[j]),
    decreases s.len(),
{
    if s.len() > 0 {
        let t = s.drop_last();
        law_clear_keeps_exactly_starred(t);
        let r = starred_only(t);
        if s.last().starred {
            assert forall|j: int| 0 <= j < r.push(s.last()).len() implies (#[trigger] r.push(
                s.last(),
            )[j]).starred by {
                if j < r.len() {
                    assert(r.push(s.last())[j] == r[j]);
                }
            }
            assert forall|j: int| 0 <= j < s.len() && (#[trigger] s[j]).starred implies r.push(
                s.last(),
            ).contains(s[j]) by {
                if j < s.len() - 1 {
                    assert(t[j] == s[j]);
                    assert(r.contains(t[j]));
                    let k = choose|k: int| 0 <= k < r.len() && r[k] == t[j];
                    assert(r.push(s.last())[k] == s[j]);
                } else {
                    assert(r.push(s.last())[r.len() as int] == s[j]);
                }
            }
        } else {
            assert forall|j: int| 0 <= j < s.len() && (#[trigger] s[j]).starred implies r.contains(
                s[j],
            ) by {
                if j < s.len() - 1 {
                    assert(t[j] == s[j]);
                }
            }
        }
    }
}

} // verus!
