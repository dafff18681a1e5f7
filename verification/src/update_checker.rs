//! The update check against GitHub releases: version comparison, the
//! result cache with conditional revalidation, and rate-limit backoff.
use vstd::prelude::*;

use crate::text::{
    chars_of, string_of, slice_chars, trim, trim_chars, split_on, split_chars, all_digits,
    is_ascii_digit, is_digit, parse_unsigned, parse_u64, decimal, decimal_of, str_eq,
    strip_leading, strip_leading_exec,
};

verus! {

/// Cached results stay fresh this long (milliseconds).
pub const CACHE_TTL_MS: u64 = 600_000;

/// Back off this long after a rate limit without `Retry-After` (seconds).
pub const DEFAULT_RATE_LIMIT_BACKOFF_S: u64 = 60;

// ── Versions ───────────────────────────────────────────────────────────

/// A version tag without white space and without its `v`/`V` prefix.
pub open spec fn spec_normalize_version(v: Seq<char>) -> Seq<char> {
    strip_leading(strip_leading(trim(v), 'v'), 'V')
}

pub fn normalize_version(v: &str) -> (r: String)
    ensures
        r@ == spec_normalize_version(v@),
{
    let t = trim_chars(&chars_of(v));
    let a = strip_leading_exec(&t, 'v');
    let b = strip_leading_exec(&a, 'V');
    string_of(&b)
}

/// The number of leading ASCII digits of `s`.
pub open spec fn digit_prefix_len(s: Seq<char>) -> nat
    decreases s.len(),
{
    if s.len() > 0 && is_ascii_digit(s[0]) {
        1 + digit_prefix_len(s.drop_first())
    } else {
        0
    }
}

proof fn lemma_digit_prefix(s: Seq<char>, k: int)
    requires
        0 <= k <= s.len(),
        forall|j: int| 0 <= j < k ==> is_ascii_digit(#[trigger] s[j]),
        k < s.len() ==> !is_ascii_digit(s[k]),
    ensures
        digit_prefix_len(s) == k,
    decreases k,
{
    if k > 0 {
        let t = s.drop_first();
        assert forall|j: int| 0 <= j < k - 1 implies is_ascii_digit(#[trigger] t[j]) by {
            assert(t[j] == s[j + 1]);
        }
        if k - 1 < t.len() {
            assert(t[k - 1] == s[k]);
        }
        lemma_digit_prefix(t, k - 1);
    }
}

/// The number a version part starts with, if it starts with one that fits
/// in a `u64`.
pub open spec fn part_number(p: Seq<char>) -> Option<nat> {
    parse_unsigned(p.subrange(0, digit_prefix_len(p) as int), u64::MAX as nat)
}

/// The numbers of a version's dot-separated parts, skipping parts that do
/// not start with a number.
pub open spec fn numbers_of(parts: Seq<Seq<char>>) -> Seq<nat>
    decreases parts.len(),
{
    if parts.len() == 0 {
        Seq::empty()
    } else {
        let r = numbers_of(parts.drop_last());
        match part_number(parts.last()) {
            Some(n) => r.push(n),
            None => r,
        }
    }
}

pub open spec fn version_numbers(v: Seq<char>) -> Seq<nat> {
    numbers_of(split_on(v, '.'))
}

/// `a < b` for number lists, compared as `Vec<u64>` compares: element by
/// element, a proper prefix first.
pub open spec fn numbers_lt(a: Seq<nat>, b: Seq<nat>) -> bool
    decreases a.len(),
{
    if a.len() == 0 {
        b.len() > 0
    } else if b.len() == 0 {
        false
    } else if a[0] != b[0] {
        a[0] < b[0]
    } else {
        numbers_lt(a.drop_first(), b.drop_first())
    }
}

fn part_number_exec(p: &Vec<char>) -> (r: Option<u64>)
    ensures
        match r {
            Some(n) => part_number(p@) == Some(n as nat),
            None => part_number(p@) is None,
        },
{
    let mut k: usize = 0;
    while k < p.len() && is_digit(p[k])
        invariant
            0 <= k <= p.len(),
            forall|j: int| 0 <= j < k ==> is_ascii_digit(#[trigger] p@[j]),
        decreases p.len() - k,
    {
        k = k + 1;
    }
    proof {
        lemma_digit_prefix(p@, k as int);
    }
    let d = slice_chars(p, 0, k);
    parse_u64(&d)
}

fn version_numbers_exec(v: &str) -> (r: Vec<u64>)
    ensures
        r@.map_values(|x: u64| x as nat) == version_numbers(v@),
{
    let parts = split_chars(&chars_of(v), '.');
    let ghost pv = parts@.map_values(|x: Vec<char>| x@);
    let mut r: Vec<u64> = Vec::new();
    let mut i: usize = 0;
    assert(pv.subrange(0, 0) =~= Seq::<Seq<char>>::empty());
    assert(r@.map_values(|x: u64| x as nat) =~= Seq::<nat>::empty());
    while i < parts.len()
        invariant
            0 <= i <= parts.len(),
            pv == parts@.map_values(|x: Vec<char>| x@),
            pv == split_on(v@, '.'),
            r@.map_values(|x: u64| x as nat) == numbers_of(pv.subrange(0, i as int)),
        decreases parts.len() - i,
    {
        let ghost r0 = r@.map_values(|x: u64| x as nat);
        proof {
            let s1 = pv.subrange(0, i + 1);
            assert(s1.drop_last() =~= pv.subrange(0, i as int));
            assert(s1.last() == parts@[i as int]@);
        }
        match part_number_exec(&parts[i]) {
            Some(n) => {
                r.push(n);
                assert(r@.map_values(|x: u64| x as nat) =~= r0.push(n as nat));
            },
            None => {},
        }
        i = i + 1;
    }
    assert(pv.subrange(0, parts.len() as int) =~= pv);
    r
}

/// Whether `latest` is a newer version than `current`.
pub fn compare_versions(current: &str, latest: &str) -> (r: bool)
    ensures
        r == numbers_lt(version_numbers(current@), version_numbers(latest@)),
{
    let c = version_numbers_exec(current);
    let l = version_numbers_exec(latest);
    let ghost cv = c@.map_values(|x: u64| x as nat);
    let ghost lv = l@.map_values(|x: u64| x as nat);
    let mut i: usize = 0;
    assert(cv.subrange(0, cv.len() as int) =~= cv);
    assert(lv.subrange(0, lv.len() as int) =~= lv);
    loop
        invariant
            0 <= i <= c.len(),
            i <= l.len(),
            cv == c@.map_values(|x: u64| x as nat),
            lv == l@.map_values(|x: u64| x as nat),
            cv == version_numbers(current@),
            lv == version_numbers(latest@),
            numbers_lt(cv, lv) == numbers_lt(
                cv.subrange(i as int, cv.len() as int),
                lv.subrange(i as int, lv.len() as int),
            ),
        decreases c.len() - i,
    {
        let ghost sc = cv.subrange(i as int, cv.len() as int);
        let ghost sl = lv.subrange(i as int, lv.len() as int);
        if i == c.len() {
            return i < l.len();
        }
        if i == l.len() {
            return false;
        }
        if c[i] != l[i] {
            assert(sc[0] == c@[i as int] as nat && sl[0] == l@[i as int] as nat);
            return c[i] < l[i];
        }
        assert(sc.drop_first() =~= cv.subrange(i + 1, cv.len() as int));
        assert(sl.drop_first() =~= lv.subrange(i + 1, lv.len() as int));
        i = i + 1;
    }
}

// ── Results ────────────────────────────────────────────────────────────

/// The outcome of an update check.
#[derive(Debug)]
pub struct UpdateResult {
    pub success: bool,
    pub current_version: String,
    pub latest_version: Option<String>,
    pub update_available: bool,
    pub release_url: Option<String>,
    pub published_at: Option<String>,
    pub message: String,
    pub error_type: Option<String>,
    pub status_code: Option<u16>,
}

fn copy_opt(o: &Option<String>) -> (r: Option<String>)
    ensures
        r == *o,
{
    match o {
        Some(s) => Some(s.clone()),
        None => None,
    }
}

impl UpdateResult {
    pub fn copy(&self) -> (r: UpdateResult)
        ensures
            r == *self,
    {
        UpdateResult {
            success: self.success,
            current_version: self.current_version.clone(),
            latest_version: copy_opt(&self.latest_version),
            update_available: self.update_available,
            release_url: copy_opt(&self.release_url),
            published_at: copy_opt(&self.published_at),
            message: self.message.clone(),
            error_type: copy_opt(&self.error_type),
            status_code: self.status_code,
        }
    }
}

/// A failed check.
pub fn failure_result(current_version: String, message: String, error_type: &str, status_code: Option<u16>) -> (r: UpdateResult)
    ensures
        !r.success,
        r.current_version == current_version,
        r.latest_version is None,
        !r.update_available,
        r.release_url is None,
        r.published_at is None,
        r.message == message,
        r.error_type matches Some(t) && t@ == error_type@,
        r.status_code == status_code,
{
    UpdateResult {
        success: false,
        current_version,
        latest_version: None,
        update_available: false,
        release_url: None,
        published_at: None,
        message,
        error_type: Some(String::from_str(error_type)),
        status_code,
    }
}

// ── Cache and rate limit ───────────────────────────────────────────────

/// The last result, when it was fetched (milliseconds on a monotonic
/// clock) and the validators to revalidate it with.
#[derive(Debug)]
pub struct CacheEntry {
    pub result: UpdateResult,
    pub fetched_at: u64,
    pub etag: Option<String>,
    pub last_modified: Option<String>,
}

/// What the checker remembers between checks.
#[derive(Debug)]
pub struct UpdateCheckState {
    pub cache: Option<CacheEntry>,
    pub rate_limit_until: Option<u128>,
}

/// A result that tells one story: a success carries no error type and no
/// status; a failure no latest version, no update and an error type; an
/// update is offered only by a success whose latest version is newer than
/// the running one.
pub open spec fn result_wf(r: UpdateResult) -> bool {
    &&& r.success ==> r.error_type is None && r.status_code is None
    &&& !r.success ==> r.latest_version is None && !r.update_available && r.error_type is Some
    &&& r.update_available ==> r.success && (r.latest_version matches Some(l)
        && numbers_lt(version_numbers(r.current_version@), version_numbers(l@)))
}

pub open spec fn opt_result_wf(r: Option<UpdateResult>) -> bool {
    match r {
        Some(x) => result_wf(x),
        None => true,
    }
}

/// The checker remembers only results that tell one story.
pub open spec fn cache_wf(state: UpdateCheckState) -> bool {
    match state.cache {
        Some(e) => result_wf(e.result),
        None => true,
    }
}

/// The checker remembers only results made for the running version
/// `current_version`.
pub open spec fn cache_for(state: UpdateCheckState, current_version: Seq<char>) -> bool {
    match state.cache {
        Some(e) => e.result.current_version@ == current_version,
        None => true,
    }
}

impl UpdateCheckState {
    pub fn new() -> (r: UpdateCheckState)
        ensures
            r.cache is None,
            r.rate_limit_until is None,
            forall|v: Seq<char>| cache_for(r, v),
            cache_wf(r),
    {
        UpdateCheckState { cache: None, rate_limit_until: None }
    }
}

/// The cached entry.
pub fn cache(state: &UpdateCheckState) -> (r: &Option<CacheEntry>)
    ensures
        *r == state.cache,
{
    &state.cache
}

/// The end of the current rate-limit backoff.
pub fn rate_limit_until(state: &UpdateCheckState) -> (r: Option<u128>)
    ensures
        r == state.rate_limit_until,
{
    state.rate_limit_until
}

/// Remember `result`, fetched at `now`.
pub fn store_cache(state: &mut UpdateCheckState, result: &UpdateResult, etag: Option<String>, last_modified: Option<String>, now: u64)
    ensures
        final(state).cache matches Some(e) && e.result == *result && e.fetched_at == now && e.etag
            == etag && e.last_modified == last_modified,
        final(state).rate_limit_until == old(state).rate_limit_until,
{
    state.cache = Some(CacheEntry { result: result.copy(), fetched_at: now, etag, last_modified });
}

/// Extend the cached result's lifetime from `now`.
pub fn touch_cache(state: &mut UpdateCheckState, now: u64)
    ensures
        match old(state).cache {
            Some(e) => final(state).cache == Some(CacheEntry { fetched_at: now, ..e }),
            None => final(state).cache is None,
        },
        final(state).rate_limit_until == old(state).rate_limit_until,
{
    match state.cache.take() {
        Some(e) => {
            state.cache = Some(CacheEntry { fetched_at: now, ..e });
        },
        None => {},
    }
}

/// A cached result is fresh while less than [`CACHE_TTL_MS`] has passed
/// since it was fetched (no time passes when the clock seems to go back).
pub open spec fn is_fresh(fetched_at: u64, now: u64) -> bool {
    (if now >= fetched_at { now - fetched_at } else { 0 }) < CACHE_TTL_MS
}

/// The cached result, whether it is fresh, and its validators.
pub fn read_cache(state: &UpdateCheckState, now: u64) -> (r: (Option<UpdateResult>, bool, Option<String>, Option<String>))
    ensures
        match state.cache {
            Some(e) => r.0 == Some(e.result) && r.1 == is_fresh(e.fetched_at, now) && r.2 == e.etag
                && r.3 == e.last_modified,
            None => r.0 is None && !r.1 && r.2 is None && r.3 is None,
        },
{
    match &state.cache {
        Some(e) => {
            let elapsed = if now >= e.fetched_at {
                now - e.fetched_at
            } else {
                0
            };
            (Some(e.result.copy()), elapsed < CACHE_TTL_MS, copy_opt(&e.etag), copy_opt(&e.last_modified))
        },
        None => (None, false, None, None),
    }
}

/// Whether `now` falls inside the rate-limit backoff.
pub fn is_rate_limited(state: &UpdateCheckState, now: u64) -> (r: bool)
    ensures
        r == match state.rate_limit_until {
            Some(until) => (now as int) < until,
            None => false,
        },
{
    match state.rate_limit_until {
        Some(until) => (now as u128) < until,
        None => false,
    }
}

/// The backoff of a rate-limited response: `Retry-After` seconds when it is
/// a number, else the default.
pub open spec fn backoff_secs(retry_after: Option<Seq<char>>) -> nat {
    match retry_after {
        Some(s) => match parse_unsigned(s, u64::MAX as nat) {
            Some(n) => n,
            None => DEFAULT_RATE_LIMIT_BACKOFF_S as nat,
        },
        None => DEFAULT_RATE_LIMIT_BACKOFF_S as nat,
    }
}

/// After a response with HTTP status `status`: when it is 403 or 429, back
/// off from `now`.
pub fn update_rate_limit(state: &mut UpdateCheckState, retry_after: Option<&str>, status: u16, now: u64)
    ensures
        final(state).cache == old(state).cache,
        (status != 403 && status != 429) ==> final(state).rate_limit_until == old(state).rate_limit_until,
        (status == 403 || status == 429) ==> final(state).rate_limit_until == Some(
            (now + backoff_secs(match retry_after {
                Some(s) => Some(s@),
                None => None,
            }) * 1000) as u128,
        ),
{
    if status != 403 && status != 429 {
        return;
    }
    let secs: u64 = match retry_after {
        Some(s) => match parse_u64(&chars_of(s)) {
            Some(n) => n,
            None => DEFAULT_RATE_LIMIT_BACKOFF_S,
        },
        None => DEFAULT_RATE_LIMIT_BACKOFF_S,
    };
    state.rate_limit_until = Some(now as u128 + secs as u128 * 1000);
}


// ── The check, step by step ────────────────────────────────────────────

pub open spec fn opt_str(o: Option<String>) -> Option<Seq<char>> {
    match o {
        Some(s) => Some(s@),
        None => None,
    }
}

/// `r` is the result with these values.
pub open spec fn result_is(
    r: UpdateResult,
    success: bool,
    current: Seq<char>,
    latest: Option<Seq<char>>,
    available: bool,
    url: Option<Seq<char>>,
    published: Option<Seq<char>>,
    message: Seq<char>,
    error_type: Option<Seq<char>>,
    status: Option<u16>,
) -> bool {
    &&& r.success == success
    &&& r.current_version@ == current
    &&& opt_str(r.latest_version) == latest
    &&& r.update_available == available
    &&& opt_str(r.release_url) == url
    &&& opt_str(r.published_at) == published
    &&& r.message@ == message
    &&& opt_str(r.error_type) == error_type
    &&& r.status_code == status
}

/// The result for a found release or tag named `tag`.
pub open spec fn found_result(
    r: UpdateResult,
    current: Seq<char>,
    tag: Seq<char>,
    url: Option<Seq<char>>,
    published: Option<Seq<char>>,
    suffix: Seq<char>,
) -> bool {
    let latest = spec_normalize_version(tag);
    let available = numbers_lt(version_numbers(current), version_numbers(latest));
    result_is(
        r,
        true,
        current,
        Some(latest),
        available,
        url,
        published,
        if available { "发现新版本 v"@ + latest + suffix } else { "已是最新版本"@ },
        None,
        None,
    )
}

fn found(current: &str, tag: &str, url: Option<String>, published: Option<String>, suffix: &str) -> (r: UpdateResult)
    ensures
        found_result(r, current@, tag@, opt_str(url), opt_str(published), suffix@),
{
    let latest = normalize_version(tag);
    let available = compare_versions(current, latest.as_str());
    let message = if available {
        String::from_str("发现新版本 v").concat(latest.as_str()).concat(suffix)
    } else {
        String::from_str("已是最新版本")
    };
    UpdateResult {
        success: true,
        current_version: String::from_str(current),
        latest_version: Some(latest),
        update_available: available,
        release_url: url,
        published_at: published,
        message,
        error_type: None,
        status_code: None,
    }
}

/// What to do first.
#[derive(Debug)]
pub enum CheckStart {
    /// Answer at once.
    Done(UpdateResult),
    /// Ask the release API at `url`, revalidating with the validators.
    Fetch {
        url: String,
        owner: String,
        repo: String,
        etag: Option<String>,
        last_modified: Option<String>,
        cached: Option<UpdateResult>,
    },
}

/// `r` is how a check started at `now` with `state` goes on: answer from
/// the cache while rate-limited or while the cached result is fresh; else
/// ask for the latest release (or for the list of releases when
/// pre-releases count) of `owner/repo`.
pub open spec fn start_is(
    state: UpdateCheckState,
    now: u64,
    current_version: Seq<char>,
    repository: Seq<char>,
    include_prerelease: bool,
    r: CheckStart,
) -> bool {
    let limited = match state.rate_limit_until {
        Some(until) => (now as int) < until,
        None => false,
    };
    let parts = split_on(repository, '/');
    if limited {
        match state.cache {
            Some(e) => r == CheckStart::Done(e.result),
            None => r matches CheckStart::Done(f) && result_is(f, false, current_version, None, false, None, None, "GitHub API 限流中，请稍后再试"@, Some("rate_limit"@), None),
        }
    } else if state.cache matches Some(e) && is_fresh(e.fetched_at, now) {
        r == CheckStart::Done(state.cache->0.result)
    } else if parts.len() != 2 {
        r matches CheckStart::Done(f) && result_is(f, false, current_version, None, false, None, None, "无效的仓库格式"@, Some("config"@), None)
    } else {
        r matches CheckStart::Fetch { url, owner, repo, etag, last_modified, cached }
            && owner@ == parts[0] && repo@ == parts[1]
            && url@ == "https://api.github.com/repos/"@ + parts[0] + "/"@ + parts[1] + (if include_prerelease { "/releases"@ } else { "/releases/latest"@ })
            && match state.cache {
                Some(e) => cached == Some(e.result) && etag == e.etag && last_modified == e.last_modified,
                None => cached is None && etag is None && last_modified is None,
            }
    }
}

/// The first step of a check (see [`start_is`]).
pub fn check_start(state: &UpdateCheckState, now: u64, current_version: &str, repository: &str, include_prerelease: bool) -> (r: CheckStart)
    ensures
        cache_wf(*state) ==> match r {
            CheckStart::Done(f) => result_wf(f),
            CheckStart::Fetch { cached, .. } => opt_result_wf(cached),
        },
        start_is(*state, now, current_version@, repository@, include_prerelease, r),
{
    if is_rate_limited(state, now) {
        let (cached, _, _, _) = read_cache(state, now);
        return match cached {
            Some(c) => CheckStart::Done(c),
            None => CheckStart::Done(failure_result(String::from_str(current_version), String::from_str("GitHub API 限流中，请稍后再试"), "rate_limit", None)),
        };
    }
    let (cached, fresh, etag, last_modified) = read_cache(state, now);
    if fresh {
        return CheckStart::Done(cached.unwrap());
    }
    let parts = split_chars(&chars_of(repository), '/');
    if parts.len() != 2 {
        return CheckStart::Done(failure_result(String::from_str(current_version), String::from_str("无效的仓库格式"), "config", None));
    }
    let owner = string_of(&parts[0]);
    let repo = string_of(&parts[1]);
    let tail = if include_prerelease { "/releases" } else { "/releases/latest" };
    let url = String::from_str("https://api.github.com/repos/").concat(owner.as_str()).concat("/").concat(repo.as_str()).concat(tail);
    CheckStart::Fetch { url, owner, repo, etag, last_modified, cached }
}

/// The release the API answered with (fields as the JSON held them).
#[derive(Debug)]
pub struct ReleaseInfo {
    pub tag_name: Option<String>,
    pub html_url: Option<String>,
    pub published_at: Option<String>,
}

/// An HTTP response, reduced to what the check reads.
#[derive(Debug)]
pub enum ApiResponse {
    /// The request failed; the error's message.
    NetworkError(String),
    /// A response with its status, `Retry-After`, validators and, on
    /// success, the release or tag found (`None`: there is none).
    Status {
        code: u16,
        retry_after: Option<String>,
        etag: Option<String>,
        last_modified: Option<String>,
        found: Option<ReleaseInfo>,
    },
}

pub open spec fn is_success(code: u16) -> bool {
    200 <= code <= 299
}

pub open spec fn tag_of(info: ReleaseInfo) -> Seq<char> {
    match info.tag_name {
        Some(t) => t@,
        None => Seq::empty(),
    }
}

/// The second step: read the release API's answer. `None` means: go on to
/// the tags API.
pub fn on_release_response(state: &mut UpdateCheckState, now: u64, current_version: &str, resp: ApiResponse, cached: Option<UpdateResult>) -> (r: Option<UpdateResult>)
    ensures
        opt_result_wf(cached) ==> opt_result_wf(r),
        cache_for(*old(state), current_version@) ==> cache_for(*final(state), current_version@),
        cache_wf(*old(state)) ==> cache_wf(*final(state)),
        match resp {
            ApiResponse::NetworkError(e) => *final(state) == *old(state) && match cached {
                Some(c) => r == Some(c),
                None => r matches Some(f) && result_is(f, false, current_version@, None, false, None, None, "网络错误: "@ + e@, Some("network"@), None),
            },
            ApiResponse::Status { code, retry_after, etag, last_modified, found } => {
                &&& (code == 403 || code == 429) ==> final(state).rate_limit_until == Some(
                    (now + backoff_secs(opt_str(retry_after)) * 1000) as u128)
                &&& (code != 403 && code != 429) ==> final(state).rate_limit_until == old(state).rate_limit_until
                &&& if code == 304 {
                    &&& match old(state).cache {
                        Some(e) => final(state).cache == Some(CacheEntry { fetched_at: now, ..e }),
                        None => final(state).cache is None,
                    }
                    &&& r == cached
                } else if code == 403 || code == 429 {
                    &&& final(state).cache == old(state).cache
                    &&& match cached {
                        Some(c) => r == Some(c),
                        None => r matches Some(f) && result_is(f, false, current_version@, None, false, None, None, "GitHub API 限流: HTTP "@ + crate::text::decimal(code as nat), Some("rate_limit"@), Some(code)),
                    }
                } else if code == 404 {
                    final(state).cache == old(state).cache && r is None
                } else if !is_success(code) {
                    &&& r matches Some(f) && result_is(f, false, current_version@, None, false, None, None, "GitHub API 错误: HTTP "@ + crate::text::decimal(code as nat), Some("http"@), Some(code))
                    &&& final(state).cache matches Some(e) && Some(e.result) == r && e.fetched_at == now && e.etag is None && e.last_modified is None
                } else {
                    match found {
                        Some(info) => {
                            &&& r matches Some(f) && found_result(f, current_version@, tag_of(info), opt_str(info.html_url), opt_str(info.published_at), Seq::empty())
                            &&& final(state).cache matches Some(e) && Some(e.result) == r && e.fetched_at == now && e.etag == etag && e.last_modified == last_modified
                        },
                        None => final(state).cache == old(state).cache && r is None,
                    }
                }
            },
        },
{
    match resp {
        ApiResponse::NetworkError(e) => match cached {
            Some(c) => Some(c),
            None => Some(failure_result(String::from_str(current_version), String::from_str("网络错误: ").concat(e.as_str()), "network", None)),
        },
        ApiResponse::Status { code, retry_after, etag, last_modified, found: release } => {
            match &retry_after {
                Some(ra) => update_rate_limit(state, Some(ra.as_str()), code, now),
                None => update_rate_limit(state, None, code, now),
            }
            if code == 304 {
                touch_cache(state, now);
                cached
            } else if code == 403 || code == 429 {
                match cached {
                    Some(c) => Some(c),
                    None => {
                        let d = decimal_of(code as u64);
                        Some(failure_result(String::from_str(current_version), String::from_str("GitHub API 限流: HTTP ").concat(d.as_str()), "rate_limit", Some(code)))
                    },
                }
            } else if code == 404 {
                None
            } else if code < 200 || code > 299 {
                let d = decimal_of(code as u64);
                let result = failure_result(String::from_str(current_version), String::from_str("GitHub API 错误: HTTP ").concat(d.as_str()), "http", Some(code));
                store_cache(state, &result, None, None, now);
                Some(result)
            } else {
                match release {
                    Some(info) => {
                        let tag = match &info.tag_name {
                            Some(t) => t.clone(),
                            None => String::new(),
                        };
                        let result = found(current_version, tag.as_str(), info.html_url, info.published_at, "");
                        proof {
                            reveal_strlit("");
                        }
                        store_cache(state, &result, etag, last_modified, now);
                        Some(result)
                    },
                    None => None,
                }
            }
        },
    }
}

/// The last step: read the tags API's answer.
pub fn on_tags_response(state: &mut UpdateCheckState, now: u64, current_version: &str, resp: ApiResponse) -> (r: UpdateResult)
    ensures
        cache_for(*old(state), current_version@) ==> cache_for(*final(state), current_version@),
        cache_wf(*old(state)) ==> cache_wf(*final(state)),
        r.current_version@ == current_version@,
        result_wf(r),
        match resp {
            ApiResponse::NetworkError(e) => *final(state) == *old(state) && result_is(r, false, current_version@, None, false, None, None, "网络错误: "@ + e@, Some("network"@), None),
            ApiResponse::Status { code, retry_after, etag, last_modified, found } => {
                &&& (code == 403 || code == 429) ==> final(state).rate_limit_until == Some(
                    (now + backoff_secs(opt_str(retry_after)) * 1000) as u128)
                &&& (code != 403 && code != 429) ==> final(state).rate_limit_until == old(state).rate_limit_until
                &&& final(state).cache matches Some(e) && e.result == r && e.fetched_at == now && e.etag is None && e.last_modified is None
                &&& if !is_success(code) {
                    result_is(r, false, current_version@, None, false, None, None, "GitHub Tags API 错误: HTTP "@ + crate::text::decimal(code as nat), Some("http"@), Some(code))
                } else {
                    match found {
                        Some(info) => found_result(r, current_version@, tag_of(info), None, None, " (tag)"@),
                        None => result_is(r, true, current_version@, None, false, None, None, "未找到发布版本"@, None, None),
                    }
                }
            },
        },
{
    match resp {
        ApiResponse::NetworkError(e) => failure_result(String::from_str(current_version), String::from_str("网络错误: ").concat(e.as_str()), "network", None),
        ApiResponse::Status { code, retry_after, etag: _, last_modified: _, found: tag } => {
            match &retry_after {
                Some(ra) => update_rate_limit(state, Some(ra.as_str()), code, now),
                None => update_rate_limit(state, None, code, now),
            }
            let result = if code < 200 || code > 299 {
                let d = decimal_of(code as u64);
                failure_result(String::from_str(current_version), String::from_str("GitHub Tags API 错误: HTTP ").concat(d.as_str()), "http", Some(code))
            } else {
                match tag {
                    Some(info) => {
                        let name = match &info.tag_name {
                            Some(t) => t.clone(),
                            None => String::new(),
                        };
                        found(current_version, name.as_str(), None, None, " (tag)")
                    },
                    None => UpdateResult {
                        success: true,
                        current_version: String::from_str(current_version),
                        latest_version: None,
                        update_available: false,
                        release_url: None,
                        published_at: None,
                        message: String::from_str("未找到发布版本"),
                        error_type: None,
                        status_code: None,
                    },
                }
            };
            store_cache(state, &result, None, None, now);
            result
        },
    }
}

/// The tags API address of `owner/repo`.
pub fn tags_url(owner: &str, repo: &str) -> (r: String)
    ensures
        r@ == "https://api.github.com/repos/"@ + owner@ + "/"@ + repo@ + "/tags?per_page=1"@,
{
    String::from_str("https://api.github.com/repos/").concat(owner).concat("/").concat(repo).concat("/tags?per_page=1")
}

/// Law (a stored answer is reused): once a result has been stored at time
/// `stored`, a check started before the cache TTL has run out, while not
/// rate-limited, answers with that result and asks GitHub nothing.
pub proof fn law_stored_answer_reused(
    state: UpdateCheckState,
    stored: u64,
    later: u64,
    current_version: Seq<char>,
    repository: Seq<char>,
    include_prerelease: bool,
    r: CheckStart,
)
    requires
        state.cache matches Some(e) && e.fetched_at == stored,
        stored <= later < stored + CACHE_TTL_MS,
        state.rate_limit_until is None,
        start_is(state, later, current_version, repository, include_prerelease, r),
    ensures
        r == CheckStart::Done(state.cache->0.result),
{
}

/// Law (rate limit answers from the cache): while rate-limited, a check
/// that has a cached result answers with it, fresh or not.
pub proof fn law_rate_limited_uses_cache(
    state: UpdateCheckState,
    now: u64,
    current_version: Seq<char>,
    repository: Seq<char>,
    include_prerelease: bool,
    r: CheckStart,
)
    requires
        state.rate_limit_until matches Some(until) && (now as int) < until,
        state.cache is Some,
        start_is(state, now, current_version, repository, include_prerelease, r),
    ensures
        r == CheckStart::Done(state.cache->0.result),
{
}

/// Law (answers are for the running version): while the checker holds
/// only results for the running version, a check that answers at once
/// answers with a result for that version.
pub proof fn law_answer_for_running_version(
    state: UpdateCheckState,
    now: u64,
    current_version: Seq<char>,
    repository: Seq<char>,
    include_prerelease: bool,
    r: CheckStart,
)
    requires
        cache_for(state, current_version),
        start_is(state, now, current_version, repository, include_prerelease, r),
    ensures
        r matches CheckStart::Done(f) ==> f.current_version@ == current_version,
{
}

/// Law (answers tell one story): while the checker remembers only
/// well-formed results, a check that answers at once answers with a
/// well-formed result.
pub proof fn law_answers_well_formed(
    state: UpdateCheckState,
    now: u64,
    current_version: Seq<char>,
    repository: Seq<char>,
    include_prerelease: bool,
    r: CheckStart,
)
    requires
        cache_wf(state),
        start_is(state, now, current_version, repository, include_prerelease, r),
    ensures
        r matches CheckStart::Done(f) ==> result_wf(f),
{
}

} // verus!
