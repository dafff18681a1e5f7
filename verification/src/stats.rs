//! Send statistics: counters, per-day counts for the last 30 days, and
//! per-preset usage.
use vstd::prelude::*;

use crate::order::{lex_lt, lex_less, lemma_lex_trans, lemma_lex_total, lemma_lex_asym, lemma_lex_irrefl};
use crate::stamp::today_ymd;
use crate::text::{chars_of, str_eq};

verus! {

/// Record this many sends between two writes of the statistics file.
pub const FLUSH_EVERY: u32 = 10;

/// Keep the counts of this many days.
pub const MAX_DAYS: usize = 30;

/// How many presets the usage ranking shows.
pub const TOP_PRESETS: usize = 5;

/// Counts by name (a preset name, or a day `YYYY-MM-DD`).
pub type Counts = Vec<(String, u64)>;

pub open spec fn counts_view(c: Seq<(String, u64)>) -> Seq<(Seq<char>, u64)> {
    c.map_values(|e: (String, u64)| (e.0@, e.1))
}

/// The persistent statistics.
#[derive(Debug)]
pub struct Stats {
    pub total_sent: u64,
    pub total_success: u64,
    pub total_failed: u64,
    pub total_batches: u64,
    pub preset_usage: Counts,
    pub daily_counts: Counts,
}

/// One entry of the preset ranking.
#[derive(Debug)]
pub struct PresetUsage {
    pub name: String,
    pub count: u64,
}

/// What the statistics page shows. The success rate is in tenths of a
/// percent, rounded half up (`0` when nothing was sent).
#[derive(Debug)]
pub struct StatsResponse {
    pub total_sent: u64,
    pub total_success: u64,
    pub total_failed: u64,
    pub total_batches: u64,
    pub success_rate_tenths: u128,
    pub most_used_presets: Vec<PresetUsage>,
    pub daily_counts: Counts,
}

fn copy_counts(c: &Counts) -> (r: Counts)
    ensures
        r@ == c@,
{
    let mut r: Counts = Vec::new();
    let mut i: usize = 0;
    while i < c.len()
        invariant
            0 <= i <= c.len(),
            r@ == c@.subrange(0, i as int),
        decreases c.len() - i,
    {
        r.push((c[i].0.clone(), c[i].1));
        assert(c@.subrange(0, i + 1) =~= c@.subrange(0, i as int).push(c@[i as int]));
        i = i + 1;
    }
    assert(c@.subrange(0, c.len() as int) =~= c@);
    r
}

impl Stats {
    /// All counters zero, no counts.
    pub fn zero() -> (r: Stats)
        ensures
            r.total_sent == 0 && r.total_success == 0 && r.total_failed == 0 && r.total_batches
                == 0,
            r.preset_usage@.len() == 0,
            r.daily_counts@.len() == 0,
    {
        Stats {
            total_sent: 0,
            total_success: 0,
            total_failed: 0,
            total_batches: 0,
            preset_usage: Vec::new(),
            daily_counts: Vec::new(),
        }
    }

    pub fn copy(&self) -> (r: Stats)
        ensures
            r.total_sent == self.total_sent,
            r.total_success == self.total_success,
            r.total_failed == self.total_failed,
            r.total_batches == self.total_batches,
            r.preset_usage@ == self.preset_usage@,
            r.daily_counts@ == self.daily_counts@,
    {
        Stats {
            total_sent: self.total_sent,
            total_success: self.total_success,
            total_failed: self.total_failed,
            total_batches: self.total_batches,
            preset_usage: copy_counts(&self.preset_usage),
            daily_counts: copy_counts(&self.daily_counts),
        }
    }
}

// ── Counting by name ───────────────────────────────────────────────────

/// The index of the first count under `k`.
pub open spec fn find_name(c: Seq<(Seq<char>, u64)>, k: Seq<char>) -> Option<int>
    decreases c.len(),
{
    if c.len() == 0 {
        None
    } else if c[0].0 == k {
        Some(0)
    } else {
        match find_name(c.drop_first(), k) {
            Some(i) => Some(i + 1),
            None => None,
        }
    }
}

pub proof fn lemma_find_name(c: Seq<(Seq<char>, u64)>, k: Seq<char>)
    ensures
        match find_name(c, k) {
            Some(i) => 0 <= i < c.len() && c[i].0 == k && forall|j: int|
                0 <= j < i ==> (#[trigger] c[j]).0 != k,
            None => forall|j: int| 0 <= j < c.len() ==> (#[trigger] c[j]).0 != k,
        },
    decreases c.len(),
{
    if c.len() > 0 && c[0].0 != k {
        let t = c.drop_first();
        lemma_find_name(t, k);
        match find_name(t, k) {
            Some(i) => {
                assert forall|j: int| 0 <= j < i + 1 implies (#[trigger] c[j]).0 != k by {
                    if j > 0 {
                        assert(c[j] == t[j - 1]);
                    }
                }
            },
            None => {
                assert forall|j: int| 0 <= j < c.len() implies (#[trigger] c[j]).0 != k by {
                    if j > 0 {
                        assert(c[j] == t[j - 1]);
                    }
                }
            },
        }
    }
}

/// The counts with the count under `k` raised by one (a new name starts at one).
pub open spec fn bump(c: Seq<(Seq<char>, u64)>, k: Seq<char>) -> Seq<(Seq<char>, u64)> {
    match find_name(c, k) {
        Some(i) => if 0 <= i < c.len() {
            c.update(i, (c[i].0, (c[i].1 + 1) as u64))
        } else {
            c
        },
        None => c.push((k, 1u64)),
    }
}

/// No name is counted twice.
pub open spec fn names_unique(c: Seq<(Seq<char>, u64)>) -> bool {
    forall|i: int, j: int| 0 <= i < j < c.len() ==> (#[trigger] c[i]).0 != (#[trigger] c[j]).0
}

/// Law (one count per name): raising a count keeps every name counted at
/// most once.
pub proof fn law_bump_names_unique(c: Seq<(Seq<char>, u64)>, k: Seq<char>)
    requires
        names_unique(c),
    ensures
        names_unique(bump(c, k)),
{
    lemma_find_name(c, k);
    let b = bump(c, k);
    match find_name(c, k) {
        Some(f) => {
            assert forall|i: int, j: int| 0 <= i < j < b.len() implies (#[trigger] b[i]).0 != (#[trigger] b[j]).0 by {
                assert(b[i].0 == c[i].0);
                assert(b[j].0 == c[j].0);
            }
        },
        None => {
            assert forall|i: int, j: int| 0 <= i < j < b.len() implies (#[trigger] b[i]).0 != (#[trigger] b[j]).0 by {
                if j < c.len() {
                    assert(b[i] == c[i] && b[j] == c[j]);
                } else {
                    assert(b[i] == c[i]);
                }
            }
        },
    }
}

/// Law (one count per day): dropping old days keeps every day counted at
/// most once.
pub proof fn law_trim_names_unique(c: Seq<(Seq<char>, u64)>)
    requires
        names_unique(c),
    ensures
        names_unique(trim_days(c)),
    decreases c.len(),
{
    if c.len() > MAX_DAYS && 0 <= min_index(c) < c.len() {
        let m = min_index(c);
        let r = c.remove(m);
        assert forall|i: int, j: int| 0 <= i < j < r.len() implies (#[trigger] r[i]).0 != (#[trigger] r[j]).0 by {
            let ci = if i < m { i } else { i + 1 };
            let cj = if j < m { j } else { j + 1 };
            assert(r[i] == c[ci] && r[j] == c[cj]);
        }
        law_trim_names_unique(r);
    }
}

/// Every count can be raised by one without overflow.
pub open spec fn counts_below_max(c: Seq<(Seq<char>, u64)>) -> bool {
    forall|i: int| 0 <= i < c.len() ==> (#[trigger] c[i]).1 < u64::MAX
}

fn bump_exec(c: &mut Counts, k: &str)
    requires
        counts_below_max(counts_view(old(c)@)),
    ensures
        counts_view(final(c)@) == bump(counts_view(old(c)@), k@),
{
    let ghost v = counts_view(c@);
    let mut i: usize = 0;
    while i < c.len()
        invariant
            0 <= i <= c.len(),
            v == counts_view(c@),
            v == counts_view(old(c)@),
            counts_below_max(v),
            forall|j: int| 0 <= j < i ==> (#[trigger] v[j]).0 != k@,
        decreases c.len() - i,
    {
        if str_eq(c[i].0.as_str(), k) {
            proof {
                lemma_find_name(v, k@);
                assert(v[i as int].0 == k@);
                match find_name(v, k@) {
                    Some(f) => {
                        assert(f == i);
                    },
                    None => {},
                }
                assert(v[i as int].1 < u64::MAX);
            }
            let (name, n) = c.remove(i);
            c.insert(i, (name, n + 1));
            assert(counts_view(c@) =~= bump(v, k@));
            return;
        }
        i = i + 1;
    }
    proof {
        lemma_find_name(v, k@);
        match find_name(v, k@) {
            Some(f) => {
                assert(v[f].0 == k@);
            },
            None => {},
        }
    }
    c.push((String::from_str(k), 1));
    assert(counts_view(c@) =~= v.push((k@, 1u64)));
}

// ── Keeping the last 30 days ───────────────────────────────────────────

/// `i` holds the smallest name of `c`, and no earlier entry holds it.
pub open spec fn is_first_min(c: Seq<(Seq<char>, u64)>, i: int) -> bool {
    &&& 0 <= i < c.len()
    &&& forall|j: int| 0 <= j < i ==> lex_lt(c[i].0, (#[trigger] c[j]).0)
    &&& forall|j: int| i < j < c.len() ==> !lex_lt((#[trigger] c[j]).0, c[i].0)
}

pub open spec fn min_index(c: Seq<(Seq<char>, u64)>) -> int {
    choose|i: int| is_first_min(c, i)
}

proof fn lemma_first_min_unique(c: Seq<(Seq<char>, u64)>, i: int, k: int)
    requires
        is_first_min(c, i),
        is_first_min(c, k),
    ensures
        i == k,
{
    if i < k {
        lemma_lex_asym(c[k].0, c[i].0);
    } else if k < i {
        lemma_lex_asym(c[i].0, c[k].0);
    }
}

/// Drop the day that sorts first until at most [`MAX_DAYS`] days are left.
pub open spec fn trim_days(c: Seq<(Seq<char>, u64)>) -> Seq<(Seq<char>, u64)>
    decreases c.len(),
{
    if c.len() <= MAX_DAYS {
        c
    } else if 0 <= min_index(c) < c.len() {
        trim_days(c.remove(min_index(c)))
    } else {
        c
    }
}

fn first_min_exec(c: &Counts) -> (r: usize)
    requires
        c.len() > 0,
    ensures
        is_first_min(counts_view(c@), r as int),
        min_index(counts_view(c@)) == r,
{
    let ghost v = counts_view(c@);
    let mut best: usize = 0;
    let mut best_name = chars_of(c[0].0.as_str());
    let mut j: usize = 1;
    while j < c.len()
        invariant
            1 <= j <= c.len(),
            0 <= best < j,
            v == counts_view(c@),
            best_name@ == v[best as int].0,
            forall|k: int| 0 <= k < best ==> lex_lt(v[best as int].0, (#[trigger] v[k]).0),
            forall|k: int| best < k < j ==> !lex_lt((#[trigger] v[k]).0, v[best as int].0),
        decreases c.len() - j,
    {
        let name = chars_of(c[j].0.as_str());
        if lex_less(&name, &best_name) {
            proof {
                assert forall|k: int| 0 <= k < j implies lex_lt(v[j as int].0, (#[trigger] v[k]).0) by {
                    if k < best {
                        lemma_lex_trans(v[j as int].0, v[best as int].0, v[k].0);
                    } else if k == best {
                    } else {
                        lemma_lex_total(v[k].0, v[best as int].0);
                        if v[k].0 == v[best as int].0 {
                        } else {
                            lemma_lex_trans(v[j as int].0, v[best as int].0, v[k].0);
                        }
                    }
                }
            }
            best = j;
            best_name = name;
        }
        j = j + 1;
    }
    proof {
        assert(is_first_min(v, best as int));
        lemma_first_min_unique(v, best as int, min_index(v));
    }
    best
}

fn trim_days_exec(c: &mut Counts)
    ensures
        counts_view(final(c)@) == trim_days(counts_view(old(c)@)),
{
    while c.len() > MAX_DAYS
        invariant
            trim_days(counts_view(c@)) == trim_days(counts_view(old(c)@)),
        decreases c.len(),
    {
        let ghost v = counts_view(c@);
        let i = first_min_exec(c);
        c.remove(i);
        assert(counts_view(c@) =~= v.remove(i as int));
    }
}

// ── Top presets ────────────────────────────────────────────────────────

pub open spec fn usage_view(u: Seq<PresetUsage>) -> Seq<(Seq<char>, u64)> {
    u.map_values(|e: PresetUsage| (e.name@, e.count))
}

/// `top` is a ranking of the counts `c`: up to [`TOP_PRESETS`] distinct
/// entries of `c`, highest count first, and no entry left out has a higher
/// count than the last one taken. (Among equal counts, which are taken is
/// left open.)
pub open spec fn is_ranking(c: Seq<(Seq<char>, u64)>, top: Seq<(Seq<char>, u64)>) -> bool {
    &&& top.len() == if c.len() < TOP_PRESETS { c.len() } else { TOP_PRESETS as nat }
    &&& forall|i: int, j: int| 0 <= i < j < top.len() ==> (#[trigger] top[i]).1 >= (#[trigger] top[j]).1
    &&& exists|idx: Seq<int>|
        {
            &&& idx.len() == top.len()
            &&& forall|t: int| 0 <= t < idx.len() ==> 0 <= #[trigger] idx[t] < c.len() && c[idx[t]] == top[t]
            &&& forall|s: int, t: int| 0 <= s < t < idx.len() ==> #[trigger] idx[s] != #[trigger] idx[t]
            &&& forall|k: int|
                0 <= k < c.len() && !idx.contains(k) && top.len() > 0 ==> (#[trigger] c[k]).1 <= top.last().1
        }
}

fn rank_presets(c: &Counts) -> (r: Vec<PresetUsage>)
    ensures
        is_ranking(counts_view(c@), usage_view(r@)),
{
    let ghost v = counts_view(c@);
    let n = c.len();
    let want = if n < TOP_PRESETS { n } else { TOP_PRESETS };
    let mut taken: Vec<bool> = Vec::new();
    let mut i: usize = 0;
    while i < n
        invariant
            0 <= i <= n,
            taken.len() == i,
            forall|k: int| 0 <= k < i ==> !(#[trigger] taken@[k]),
        decreases n - i,
    {
        taken.push(false);
        i = i + 1;
    }
    let mut r: Vec<PresetUsage> = Vec::new();
    let ghost mut idx: Seq<int> = Seq::empty();
    while r.len() < want
        invariant
            n == c.len(),
            v == counts_view(c@),
            want == if n < TOP_PRESETS { n } else { TOP_PRESETS },
            want <= n,
            taken.len() == n,
            r.len() <= want,
            idx.len() == r.len(),
            forall|t: int| 0 <= t < idx.len() ==> 0 <= #[trigger] idx[t] < n && v[idx[t]] == usage_view(r@)[t],
            forall|s: int, t: int| 0 <= s < t < idx.len() ==> #[trigger] idx[s] != #[trigger] idx[t],
            forall|k: int| 0 <= k < n ==> (taken@[k] <==> idx.contains(k)),
            forall|a: int, b: int| 0 <= a < b < r.len() ==> (#[trigger] usage_view(r@)[a]).1 >= (#[trigger] usage_view(r@)[b]).1,
            forall|k: int|
                0 <= k < n && !idx.contains(k) && r.len() > 0 ==> (#[trigger] v[k]).1 <= usage_view(r@).last().1,
        decreases want - r.len(),
    {
        // The number of untaken entries is n - r.len() > 0.
        let mut best: usize = n;
        let mut j: usize = 0;
        while j < n
            invariant
                n == c.len(),
                v == counts_view(c@),
                taken.len() == n,
                0 <= j <= n,
                best == n || (best < j && !taken@[best as int]),
                forall|k: int| 0 <= k < j && !(#[trigger] taken@[k]) ==> best < n && v[k].1 <= v[best as int].1,
            decreases n - j,
        {
            assert(v[j as int].1 == c@[j as int].1);
            if best < n {
                assert(v[best as int].1 == c@[best as int].1);
            }
            if !taken[j] && (best == n || c[j].1 > c[best].1) {
                best = j;
            }
            j = j + 1;
        }
        proof {
            if best == n {
                // every entry is taken: idx would hold n distinct indices below n,
                // so r.len() == n >= want, which the loop condition excludes.
                assert forall|k: int| 0 <= k < n implies idx.contains(k) by {
                    assert(taken@[k]);
                }
                lemma_distinct_cover(idx, n as int);
                assert(false);
            }
        }
        let ghost r0 = usage_view(r@);
        let ghost idx0 = idx;
        let ghost taken0 = taken@;
        assert(!taken0[best as int]);
        assert(!idx0.contains(best as int));
        r.push(PresetUsage { name: c[best].0.clone(), count: c[best].1 });
        taken.set(best, true);
        proof {
            idx = idx.push(best as int);
            assert(usage_view(r@) =~= r0.push(v[best as int]));
            assert forall|k: int| 0 <= k < n implies (taken@[k] <==> idx.contains(k)) by {
                if k == best {
                    assert(idx[idx.len() - 1] == k);
                } else {
                    if idx0.contains(k) {
                        let t = choose|t: int| 0 <= t < idx0.len() && idx0[t] == k;
                        assert(idx[t] == k);
                    }
                    if idx.contains(k) {
                        let t = choose|t: int| 0 <= t < idx.len() && idx[t] == k;
                        assert(t < idx0.len());
                        assert(idx0[t] == k);
                    }
                }
            }
            assert forall|s: int, t: int| 0 <= s < t < idx.len() implies #[trigger] idx[s] != #[trigger] idx[t] by {
                if t == idx.len() - 1 {
                    assert(idx[s] == idx0[s]);
                    if idx0[s] == best {
                        assert(idx0.contains(best as int));
                    }
                } else {
                    assert(idx[s] == idx0[s]);
                    assert(idx[t] == idx0[t]);
                }
            }
            assert forall|a: int, b: int| 0 <= a < b < r@.len() implies (#[trigger] usage_view(r@)[a]).1 >= (#[trigger] usage_view(r@)[b]).1 by {
                if b == r@.len() - 1 && a < r0.len() {
                    if r0.len() > 0 {
                        assert(!idx0.contains(best as int));
                        assert(v[best as int].1 <= r0.last().1);
                    }
                }
            }
            assert forall|k: int|
                0 <= k < n && !idx.contains(k) && r@.len() > 0 implies (#[trigger] v[k]).1 <= usage_view(r@).last().1 by {
                assert(!idx0.contains(k)) by {
                    if idx0.contains(k) {
                        let t = choose|t: int| 0 <= t < idx0.len() && idx0[t] == k;
                        assert(idx[t] == k);
                    }
                }
                assert(k != best) by {
                    assert(idx[idx.len() - 1] == best);
                }
                assert(!taken0[k]);
            }
        }
    }
    proof {
        assert(is_ranking(v, usage_view(r@))) by {
            assert(usage_view(r@).len() == r.len());
        }
    }
    r
}

/// `n` distinct indices, all below `n`, cover `0..n` only when there are
/// `n` of them.
proof fn lemma_distinct_cover(idx: Seq<int>, n: int)
    requires
        0 <= n,
        forall|k: int| 0 <= k < n ==> idx.contains(k),
        forall|s: int, t: int| 0 <= s < t < idx.len() ==> #[trigger] idx[s] != #[trigger] idx[t],
    ensures
        idx.len() >= n,
    decreases n,
{
    if n > 0 {
        assert(idx.contains(n - 1));
        let t = choose|t: int| 0 <= t < idx.len() && idx[t] == n - 1;
        let rest = idx.remove(t);
        assert forall|k: int| 0 <= k < n - 1 implies rest.contains(k) by {
            assert(idx.contains(k));
            let s = choose|s: int| 0 <= s < idx.len() && idx[s] == k;
            assert(idx[s] != idx[t]);
            assert(s != t);
            if s < t {
                assert(rest[s] == idx[s]);
            } else {
                assert(rest[s - 1] == idx[s]);
            }
        }
        assert forall|a: int, b: int| 0 <= a < b < rest.len() implies #[trigger] rest[a] != #[trigger] rest[b] by {
            let a2 = if a < t { a } else { a + 1 };
            let b2 = if b < t { b } else { b + 1 };
            assert(rest[a] == idx[a2]);
            assert(rest[b] == idx[b2]);
        }
        lemma_distinct_cover(rest, n - 1);
    }
}


// ── The tracker ────────────────────────────────────────────────────────

/// The statistics in memory, and how many sends were recorded since they
/// were last written out.
#[derive(Debug)]
pub struct StatsTracker {
    pub stats: Stats,
    pub dirty_count: u32,
}

/// Every counter that a send raises can be raised without overflow.
pub open spec fn can_record(s: Stats, dirty: u32) -> bool {
    &&& s.total_sent < u64::MAX
    &&& s.total_success < u64::MAX
    &&& s.total_failed < u64::MAX
    &&& counts_below_max(counts_view(s.preset_usage@))
    &&& counts_below_max(counts_view(s.daily_counts@))
    &&& dirty < FLUSH_EVERY
}

/// Every send counted is counted once, as a success or as a failure.
pub open spec fn totals_consistent(s: Stats) -> bool {
    s.total_sent == s.total_success + s.total_failed
}

/// The success rate in tenths of a percent, rounded half up.
pub open spec fn rate_tenths(success: u64, sent: u64) -> int {
    if sent == 0 {
        0
    } else {
        (2000 * success + sent) / (2 * sent)
    }
}

impl StatsTracker {
    /// A tracker over statistics loaded from disk.
    pub fn new(loaded: Stats) -> (r: StatsTracker)
        ensures
            r.stats == loaded,
            r.dirty_count == 0,
    {
        StatsTracker { stats: loaded, dirty_count: 0 }
    }

    /// Record one sent line on day `today`; whether the statistics are due
    /// to be written out (every [`FLUSH_EVERY`] sends).
    pub fn record_send_on(&mut self, success: bool, preset_name: Option<&str>, today: &str) -> (flush_due: bool)
        requires
            can_record(old(self).stats, old(self).dirty_count),
        ensures
            final(self).stats.total_sent == old(self).stats.total_sent + 1,
            final(self).stats.total_success == old(self).stats.total_success + (if success { 1int } else { 0 }),
            final(self).stats.total_failed == old(self).stats.total_failed + (if success { 0int } else { 1 }),
            final(self).stats.total_batches == old(self).stats.total_batches,
            counts_view(final(self).stats.daily_counts@) == trim_days(
                bump(counts_view(old(self).stats.daily_counts@), today@),
            ),
            counts_view(final(self).stats.preset_usage@) == match preset_name {
                Some(p) => bump(counts_view(old(self).stats.preset_usage@), p@),
                None => counts_view(old(self).stats.preset_usage@),
            },
            names_unique(counts_view(old(self).stats.preset_usage@)) ==> names_unique(counts_view(final(self).stats.preset_usage@)),
            names_unique(counts_view(old(self).stats.daily_counts@)) ==> names_unique(counts_view(final(self).stats.daily_counts@)),
            totals_consistent(old(self).stats) ==> totals_consistent(final(self).stats),
            flush_due == (old(self).dirty_count + 1 >= FLUSH_EVERY),
            final(self).dirty_count == if flush_due { 0 } else { old(self).dirty_count + 1 },
    {
        self.stats.total_sent = self.stats.total_sent + 1;
        if success {
            self.stats.total_success = self.stats.total_success + 1;
        } else {
            self.stats.total_failed = self.stats.total_failed + 1;
        }
        let ghost days0 = counts_view(self.stats.daily_counts@);
        let ghost usage0 = counts_view(self.stats.preset_usage@);
        bump_exec(&mut self.stats.daily_counts, today);
        trim_days_exec(&mut self.stats.daily_counts);
        proof {
            if names_unique(days0) {
                law_bump_names_unique(days0, today@);
                law_trim_names_unique(bump(days0, today@));
            }
            if names_unique(usage0) {
                match preset_name {
                    Some(p) => law_bump_names_unique(usage0, p@),
                    None => {},
                }
            }
        }
        match preset_name {
            Some(p) => bump_exec(&mut self.stats.preset_usage, p),
            None => {},
        }
        self.dirty_count = self.dirty_count + 1;
        if self.dirty_count >= FLUSH_EVERY {
            self.dirty_count = 0;
            true
        } else {
            false
        }
    }

    /// Record one sent line today.
    pub fn record_send(&mut self, success: bool, preset_name: Option<&str>) -> (flush_due: bool)
        requires
            can_record(old(self).stats, old(self).dirty_count),
        ensures
            final(self).stats.total_sent == old(self).stats.total_sent + 1,
            final(self).stats.total_success == old(self).stats.total_success + (if success { 1int } else { 0 }),
            final(self).stats.total_failed == old(self).stats.total_failed + (if success { 0int } else { 1 }),
            final(self).stats.total_batches == old(self).stats.total_batches,
            exists|today: Seq<char>|
                counts_view(#[trigger] final(self).stats.daily_counts@) == trim_days(
                    bump(counts_view(old(self).stats.daily_counts@), today),
                ),
            counts_view(final(self).stats.preset_usage@) == match preset_name {
                Some(p) => bump(counts_view(old(self).stats.preset_usage@), p@),
                None => counts_view(old(self).stats.preset_usage@),
            },
            names_unique(counts_view(old(self).stats.preset_usage@)) ==> names_unique(counts_view(final(self).stats.preset_usage@)),
            names_unique(counts_view(old(self).stats.daily_counts@)) ==> names_unique(counts_view(final(self).stats.daily_counts@)),
            totals_consistent(old(self).stats) ==> totals_consistent(final(self).stats),
            flush_due == (old(self).dirty_count + 1 >= FLUSH_EVERY),
            final(self).dirty_count == if flush_due { 0 } else { old(self).dirty_count + 1 },
    {
        let today = today_ymd();
        self.record_send_on(success, preset_name, today.as_str())
    }

    /// Record one batch.
    pub fn record_batch(&mut self)
        requires
            old(self).stats.total_batches < u64::MAX,
        ensures
            final(self).stats.total_batches == old(self).stats.total_batches + 1,
            final(self).stats.total_sent == old(self).stats.total_sent,
            final(self).stats.total_success == old(self).stats.total_success,
            final(self).stats.total_failed == old(self).stats.total_failed,
            final(self).stats.preset_usage@ == old(self).stats.preset_usage@,
            final(self).stats.daily_counts@ == old(self).stats.daily_counts@,
            final(self).dirty_count == old(self).dirty_count,
            totals_consistent(old(self).stats) ==> totals_consistent(final(self).stats),
    {
        self.stats.total_batches = self.stats.total_batches + 1;
    }

    /// The statistics page: totals, success rate, the five most used
    /// presets and the daily counts.
    pub fn get_stats(&self) -> (r: StatsResponse)
        ensures
            r.total_sent == self.stats.total_sent,
            r.total_success == self.stats.total_success,
            r.total_failed == self.stats.total_failed,
            r.total_batches == self.stats.total_batches,
            r.success_rate_tenths == rate_tenths(self.stats.total_success, self.stats.total_sent),
            is_ranking(counts_view(self.stats.preset_usage@), usage_view(r.most_used_presets@)),
            r.daily_counts@ == self.stats.daily_counts@,
    {
        let rate: u128 = if self.stats.total_sent > 0 {
            let s = self.stats.total_success as u128;
            let t = self.stats.total_sent as u128;
            (2000 * s + t) / (2 * t)
        } else {
            0
        };
        StatsResponse {
            total_sent: self.stats.total_sent,
            total_success: self.stats.total_success,
            total_failed: self.stats.total_failed,
            total_batches: self.stats.total_batches,
            success_rate_tenths: rate,
            most_used_presets: rank_presets(&self.stats.preset_usage),
            daily_counts: copy_counts(&self.stats.daily_counts),
        }
    }

    /// Start over from zero.
    pub fn reset(&mut self)
        ensures
            final(self).stats.total_sent == 0,
            final(self).stats.total_success == 0,
            final(self).stats.total_failed == 0,
            final(self).stats.total_batches == 0,
            final(self).stats.preset_usage@.len() == 0,
            final(self).stats.daily_counts@.len() == 0,
            final(self).dirty_count == 0,
            totals_consistent(final(self).stats),
    {
        self.stats = Stats::zero();
        self.dirty_count = 0;
    }

    /// Mark the statistics as written out; the statistics to write.
    pub fn flush(&mut self) -> (r: Stats)
        ensures
            final(self).dirty_count == 0,
            final(self).stats == old(self).stats,
            r.total_sent == old(self).stats.total_sent,
            r.total_success == old(self).stats.total_success,
            r.total_failed == old(self).stats.total_failed,
            r.total_batches == old(self).stats.total_batches,
            r.preset_usage@ == old(self).stats.preset_usage@,
            r.daily_counts@ == old(self).stats.daily_counts@,
    {
        self.dirty_count = 0;
        self.stats.copy()
    }
}

/// Law (consistent totals): when every send counted so far is either a
/// success or a failure, recording another send keeps it so.
pub proof fn law_totals_consistent(sent: u64, success: u64, failed: u64, ok: bool)
    requires
        sent == success + failed,
    ensures
        sent + 1 == (success + if ok { 1int } else { 0 }) + (failed + if ok { 0int } else { 1 }),
{
}

/// Law (rate bounds): the success rate never exceeds 100 % when the
/// successes are among the sends.
pub proof fn law_rate_at_most_full(success: u64, sent: u64)
    requires
        success <= sent,
    ensures
        0 <= rate_tenths(success, sent) <= 1000,
{
    if sent > 0 {
        assert((2000 * success + sent) / (2 * sent) <= 1000) by (nonlinear_arith)
            requires
                success <= sent,
                sent > 0,
        {
            assert(2000 * success + sent < 2001 * sent + 1);
        }
    }
}

pub proof fn lemma_first_min_exists(c: Seq<(Seq<char>, u64)>)
    requires
        c.len() > 0,
    ensures
        is_first_min(c, min_index(c)),
    decreases c.len(),
{
    if c.len() == 1 {
        assert(is_first_min(c, 0));
    } else {
        let t = c.drop_last();
        lemma_first_min_exists(t);
        let i = min_index(t);
        let l = c.len() - 1;
        assert forall|j: int| 0 <= j < l implies c[j] == #[trigger] t[j] by {}
        if lex_lt(c[l].0, c[i].0) {
            assert forall|j: int| 0 <= j < l implies lex_lt(c[l].0, (#[trigger] c[j]).0) by {
                assert(c[j] == t[j]);
                if j < i {
                    lemma_lex_trans(c[l].0, c[i].0, c[j].0);
                } else if j > i {
                    lemma_lex_total(c[j].0, c[i].0);
                    if c[j].0 != c[i].0 {
                        lemma_lex_trans(c[l].0, c[i].0, c[j].0);
                    }
                }
            }
            assert(is_first_min(c, l));
        } else {
            assert forall|j: int| 0 <= j < i implies lex_lt(c[i].0, (#[trigger] c[j]).0) by {
                assert(c[j] == t[j]);
            }
            assert forall|j: int| i < j < c.len() implies !lex_lt((#[trigger] c[j]).0, c[i].0) by {
                if j < l {
                    assert(c[j] == t[j]);
                }
            }
            assert(is_first_min(c, i));
        }
    }
}

/// Law (days kept): trimming leaves exactly the last [`MAX_DAYS`] days
/// (all of them when there are fewer).
pub proof fn law_trim_days_bounded(c: Seq<(Seq<char>, u64)>)
    ensures
        trim_days(c).len() == if c.len() <= MAX_DAYS { c.len() } else { MAX_DAYS as nat },
    decreases c.len(),
{
    if c.len() > MAX_DAYS {
        lemma_first_min_exists(c);
        law_trim_days_bounded(c.remove(min_index(c)));
    }
}

} // verus!
