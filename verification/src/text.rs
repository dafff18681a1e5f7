//! Character and string helpers with their mathematical meaning.
//!
//! Strings are handled as sequences of Unicode scalar values (`Seq<char>`),
//! which is what the view of `str` and `String` gives.
use vstd::prelude::*;

verus! {

// ── Specifications ─────────────────────────────────────────────────────

/// The Unicode `White_Space` property, as `char::is_whitespace` uses it.
pub open spec fn is_ws(c: char) -> bool {
    let u = c as u32;
    ||| 0x09 <= u <= 0x0D
    ||| u == 0x20
    ||| u == 0x85
    ||| u == 0xA0
    ||| u == 0x1680
    ||| 0x2000 <= u <= 0x200A
    ||| u == 0x2028
    ||| u == 0x2029
    ||| u == 0x202F
    ||| u == 0x205F
    ||| u == 0x3000
}

pub open spec fn is_ascii_digit(c: char) -> bool {
    '0' <= c <= '9'
}

pub open spec fn is_ascii_alnum(c: char) -> bool {
    ||| '0' <= c <= '9'
    ||| 'a' <= c <= 'z'
    ||| 'A' <= c <= 'Z'
}

pub open spec fn is_ascii_char(c: char) -> bool {
    (c as u32) < 0x80
}

pub open spec fn all_ascii(s: Seq<char>) -> bool {
    forall|i: int| 0 <= i < s.len() ==> is_ascii_char(#[trigger] s[i])
}

pub open spec fn ascii_lower_char(c: char) -> char {
    if 'A' <= c <= 'Z' {
        ((c as u32) + 32) as char
    } else {
        c
    }
}

pub open spec fn ascii_upper_char(c: char) -> char {
    if 'a' <= c <= 'z' {
        ((c as u32) - 32) as char
    } else {
        c
    }
}

pub open spec fn ascii_lower(s: Seq<char>) -> Seq<char> {
    s.map_values(|c: char| ascii_lower_char(c))
}

pub open spec fn ascii_upper(s: Seq<char>) -> Seq<char> {
    s.map_values(|c: char| ascii_upper_char(c))
}

/// `s` with its leading white space removed.
pub open spec fn trim_start(s: Seq<char>) -> Seq<char>
    decreases s.len(),
{
    if s.len() > 0 && is_ws(s[0]) {
        trim_start(s.drop_first())
    } else {
        s
    }
}

/// `s` with its trailing white space removed.
pub open spec fn trim_end(s: Seq<char>) -> Seq<char>
    decreases s.len(),
{
    if s.len() > 0 && is_ws(s.last()) {
        trim_end(s.drop_last())
    } else {
        s
    }
}

/// `str::trim`: both ends stripped of white space.
pub open spec fn trim(s: Seq<char>) -> Seq<char> {
    trim_end(trim_start(s))
}

pub open spec fn is_prefix(p: Seq<char>, s: Seq<char>) -> bool {
    p.len() <= s.len() && s.subrange(0, p.len() as int) == p
}

pub open spec fn is_suffix(p: Seq<char>, s: Seq<char>) -> bool {
    p.len() <= s.len() && s.subrange(s.len() - p.len(), s.len() as int) == p
}

pub open spec fn occurs_at(s: Seq<char>, p: Seq<char>, i: int) -> bool {
    0 <= i && i + p.len() <= s.len() && s.subrange(i, i + p.len()) == p
}

/// `p` occurs somewhere in `s`.
pub open spec fn contains(s: Seq<char>, p: Seq<char>) -> bool {
    exists|i: int| occurs_at(s, p, i)
}

/// The index of the first `c` in `s`, if any.
pub open spec fn first_index(s: Seq<char>, c: char) -> Option<int>
    decreases s.len(),
{
    if s.len() == 0 {
        None
    } else if s[0] == c {
        Some(0)
    } else {
        match first_index(s.drop_first(), c) {
            Some(i) => Some(i + 1),
            None => None,
        }
    }
}

/// `str::split` on one character: the pieces between the separators.
pub open spec fn split_on(s: Seq<char>, c: char) -> Seq<Seq<char>>
    decreases s.len(),
{
    match first_index(s, c) {
        Some(i) => if 0 <= i < s.len() {
            seq![s.subrange(0, i)] + split_on(s.subrange(i + 1, s.len() as int), c)
        } else {
            seq![s]
        },
        None => seq![s],
    }
}

/// A line as `str::lines` yields it: one trailing `'\r'` dropped.
pub open spec fn strip_cr(l: Seq<char>) -> Seq<char> {
    if l.len() > 0 && l.last() == '\r' {
        l.drop_last()
    } else {
        l
    }
}

/// `str::lines`: split after each `'\n'`, no empty line after a final one.
pub open spec fn lines(s: Seq<char>) -> Seq<Seq<char>>
    decreases s.len(),
{
    if s.len() == 0 {
        seq![]
    } else {
        match first_index(s, '\n') {
            Some(i) => if 0 <= i < s.len() {
                seq![strip_cr(s.subrange(0, i))] + lines(s.subrange(i + 1, s.len() as int))
            } else {
                seq![s]
            },
            None => seq![s],
        }
    }
}

/// `str::split_whitespace`: the maximal runs of non-white-space characters.
pub open spec fn words(s: Seq<char>) -> Seq<Seq<char>>
    decreases s.len(),
{
    let t = trim_start(s);
    if t.len() == 0 {
        seq![]
    } else {
        let n = word_len(t);
        proof {
            lemma_trim_start_len(s);
        }
        if 0 < n <= t.len() {
            seq![t.subrange(0, n as int)] + words(t.subrange(n as int, t.len() as int))
        } else {
            seq![t]
        }
    }
}

/// The number of leading non-white-space characters of `s`.
pub open spec fn word_len(s: Seq<char>) -> nat
    decreases s.len(),
{
    if s.len() == 0 || is_ws(s[0]) {
        0
    } else {
        1 + word_len(s.drop_first())
    }
}

// ── Lemmas ─────────────────────────────────────────────────────────────

pub proof fn lemma_trim_start_skip(s: Seq<char>, i: int)
    requires
        0 <= i <= s.len(),
        forall|j: int| 0 <= j < i ==> is_ws(#[trigger] s[j]),
    ensures
        trim_start(s) == trim_start(s.subrange(i, s.len() as int)),
    decreases i,
{
    if i > 0 {
        assert(s.drop_first() == s.subrange(1, s.len() as int));
        lemma_trim_start_skip(s.drop_first(), i - 1);
        assert(s.drop_first().subrange(i - 1, s.drop_first().len() as int) =~= s.subrange(
            i,
            s.len() as int,
        ));
    } else {
        assert(s.subrange(0, s.len() as int) =~= s);
    }
}

pub proof fn lemma_trim_end_skip(s: Seq<char>, k: int)
    requires
        0 <= k <= s.len(),
        forall|j: int| k <= j < s.len() ==> is_ws(#[trigger] s[j]),
    ensures
        trim_end(s) == trim_end(s.subrange(0, k)),
    decreases s.len() - k,
{
    if k < s.len() {
        lemma_trim_end_skip(s.drop_last(), k);
        assert(s.drop_last().subrange(0, k) =~= s.subrange(0, k));
    } else {
        assert(s.subrange(0, k) =~= s);
    }
}

pub proof fn lemma_trim_start_len(s: Seq<char>)
    ensures
        trim_start(s).len() <= s.len(),
        trim_start(s).len() > 0 ==> !is_ws(trim_start(s)[0]),
        is_suffix(trim_start(s), s),
    decreases s.len(),
{
    if s.len() > 0 && is_ws(s[0]) {
        lemma_trim_start_len(s.drop_first());
        let t = trim_start(s.drop_first());
        assert(s.subrange(s.len() - t.len(), s.len() as int) =~= s.drop_first().subrange(
            s.drop_first().len() - t.len(),
            s.drop_first().len() as int,
        ));
    } else {
        assert(s.subrange(0, s.len() as int) =~= s);
    }
}

pub proof fn lemma_first_index(s: Seq<char>, c: char)
    ensures
        match first_index(s, c) {
            Some(i) => 0 <= i < s.len() && s[i] == c && forall|j: int|
                0 <= j < i ==> #[trigger] s[j] != c,
            None => forall|j: int| 0 <= j < s.len() ==> #[trigger] s[j] != c,
        },
    decreases s.len(),
{
    if s.len() > 0 && s[0] != c {
        lemma_first_index(s.drop_first(), c);
        match first_index(s.drop_first(), c) {
            Some(i) => {
                assert forall|j: int| 0 <= j < i + 1 implies #[trigger] s[j] != c by {
                    if j > 0 {
                        assert(s[j] == s.drop_first()[j - 1]);
                    }
                }
            },
            None => {
                assert forall|j: int| 0 <= j < s.len() implies #[trigger] s[j] != c by {
                    if j > 0 {
                        assert(s[j] == s.drop_first()[j - 1]);
                    }
                }
            },
        }
    }
}

/// The first index is determined by the scan that finds it.
pub proof fn lemma_first_index_is(s: Seq<char>, c: char, i: int)
    requires
        0 <= i <= s.len(),
        forall|j: int| 0 <= j < i ==> #[trigger] s[j] != c,
        i < s.len() ==> s[i] == c,
    ensures
        first_index(s, c) == (if i < s.len() { Some(i) } else { None::<int> }),
{
    lemma_first_index(s, c);
}

// ── Executable helpers ─────────────────────────────────────────────────

/// Appends a character to a `String` (std `String::push`).
#[verifier::external_body]
pub fn push_char(s: &mut String, c: char)
    ensures
        final(s)@ == old(s)@.push(c),
{
    s.push(c);
}

/// The characters of a string slice, in order.
pub fn chars_of(s: &str) -> (v: Vec<char>)
    ensures
        v@ == s@,
{
    let mut v: Vec<char> = Vec::new();
    for c in it: s.chars()
        invariant
            v@ == it.seq().take(it.index() as int),
            it.seq() == s@,
    {
        v.push(c);
    }
    v
}

/// A `String` holding the given characters.
pub fn string_of(v: &Vec<char>) -> (s: String)
    ensures
        s@ == v@,
{
    let mut s = String::new();
    let mut i: usize = 0;
    while i < v.len()
        invariant
            0 <= i <= v.len(),
            s@ == v@.subrange(0, i as int),
        decreases v.len() - i,
    {
        push_char(&mut s, v[i]);
        assert(v@.subrange(0, i + 1) =~= v@.subrange(0, i as int).push(v@[i as int]));
        i = i + 1;
    }
    assert(v@.subrange(0, v.len() as int) =~= v@);
    s
}

/// `v[from..to]` as a new vector.
pub fn slice_chars(v: &Vec<char>, from: usize, to: usize) -> (r: Vec<char>)
    requires
        from <= to <= v.len(),
    ensures
        r@ == v@.subrange(from as int, to as int),
{
    let mut r: Vec<char> = Vec::new();
    let mut i = from;
    while i < to
        invariant
            from <= i <= to <= v.len(),
            r@ == v@.subrange(from as int, i as int),
        decreases to - i,
    {
        r.push(v[i]);
        assert(v@.subrange(from as int, i + 1) =~= v@.subrange(from as int, i as int).push(
            v@[i as int],
        ));
        i = i + 1;
    }
    r
}

/// Concatenation of two character vectors.
pub fn concat(a: &Vec<char>, b: &Vec<char>) -> (r: Vec<char>)
    ensures
        r@ == a@ + b@,
{
    let mut r = a.clone();
    let mut i: usize = 0;
    while i < b.len()
        invariant
            0 <= i <= b.len(),
            r@ == a@ + b@.subrange(0, i as int),
        decreases b.len() - i,
    {
        r.push(b[i]);
        assert(a@ + b@.subrange(0, i + 1) =~= (a@ + b@.subrange(0, i as int)).push(b@[i as int]));
        i = i + 1;
    }
    assert(b@.subrange(0, b.len() as int) =~= b@);
    r
}

/// Equality of two character vectors.
pub fn chars_eq(a: &Vec<char>, b: &Vec<char>) -> (r: bool)
    ensures
        r == (a@ == b@),
{
    if a.len() != b.len() {
        return false;
    }
    let mut i: usize = 0;
    while i < a.len()
        invariant
            a.len() == b.len(),
            0 <= i <= a.len(),
            forall|j: int| 0 <= j < i ==> a@[j] == b@[j],
        decreases a.len() - i,
    {
        if a[i] != b[i] {
            return false;
        }
        i = i + 1;
    }
    assert(a@ =~= b@);
    true
}

/// Equality of a string with a character sequence.
pub fn str_eq(a: &str, b: &str) -> (r: bool)
    ensures
        r == (a@ == b@),
{
    chars_eq(&chars_of(a), &chars_of(b))
}

pub fn is_whitespace(c: char) -> (r: bool)
    ensures
        r == is_ws(c),
{
    let u = c as u32;
    (0x09 <= u && u <= 0x0D) || u == 0x20 || u == 0x85 || u == 0xA0 || u == 0x1680 || (0x2000
        <= u && u <= 0x200A) || u == 0x2028 || u == 0x2029 || u == 0x202F || u == 0x205F || u
        == 0x3000
}

pub fn is_digit(c: char) -> (r: bool)
    ensures
        r == is_ascii_digit(c),
{
    '0' <= c && c <= '9'
}

pub fn is_alnum(c: char) -> (r: bool)
    ensures
        r == is_ascii_alnum(c),
{
    ('0' <= c && c <= '9') || ('a' <= c && c <= 'z') || ('A' <= c && c <= 'Z')
}

/// `str::trim` on a character vector.
pub fn trim_chars(v: &Vec<char>) -> (r: Vec<char>)
    ensures
        r@ == trim(v@),
{
    let n = v.len();
    let mut i: usize = 0;
    while i < n && is_whitespace(v[i])
        invariant
            n == v.len(),
            0 <= i <= n,
            forall|j: int| 0 <= j < i ==> is_ws(#[trigger] v@[j]),
        decreases n - i,
    {
        i = i + 1;
    }
    proof {
        lemma_trim_start_skip(v@, i as int);
    }
    let mut k: usize = n;
    while k > i && is_whitespace(v[k - 1])
        invariant
            n == v.len(),
            0 <= i <= k <= n,
            forall|j: int| k <= j < n ==> is_ws(#[trigger] v@[j]),
        decreases k,
    {
        k = k - 1;
    }
    let r = slice_chars(v, i, k);
    proof {
        let t = v@.subrange(i as int, n as int);
        assert(trim_start(t) == t);
        lemma_trim_end_skip(t, (k - i) as int);
        assert(t.subrange(0, (k - i) as int) =~= r@);
        assert(trim_end(r@) == r@);
    }
    r
}

/// `str::trim`.
pub fn trim_str(s: &str) -> (r: String)
    ensures
        r@ == trim(s@),
{
    string_of(&trim_chars(&chars_of(s)))
}

/// Whether `p` is a prefix of `s`.
pub fn has_prefix(s: &Vec<char>, p: &Vec<char>) -> (r: bool)
    ensures
        r == is_prefix(p@, s@),
{
    if p.len() > s.len() {
        return false;
    }
    let mut i: usize = 0;
    while i < p.len()
        invariant
            p.len() <= s.len(),
            0 <= i <= p.len(),
            forall|j: int| 0 <= j < i ==> s@[j] == p@[j],
        decreases p.len() - i,
    {
        if s[i] != p[i] {
            assert(s@.subrange(0, p.len() as int)[i as int] != p@[i as int]);
            return false;
        }
        i = i + 1;
    }
    assert(s@.subrange(0, p.len() as int) =~= p@);
    true
}

/// Whether `p` is a suffix of `s`.
pub fn has_suffix(s: &Vec<char>, p: &Vec<char>) -> (r: bool)
    ensures
        r == is_suffix(p@, s@),
{
    if p.len() > s.len() {
        return false;
    }
    let off = s.len() - p.len();
    let mut i: usize = 0;
    while i < p.len()
        invariant
            p.len() <= s.len(),
            off == s.len() - p.len(),
            0 <= i <= p.len(),
            forall|j: int| 0 <= j < i ==> s@[off + j] == p@[j],
        decreases p.len() - i,
    {
        if s[off + i] != p[i] {
            assert(s@.subrange(off as int, s.len() as int)[i as int] != p@[i as int]);
            return false;
        }
        i = i + 1;
    }
    assert(s@.subrange(off as int, s.len() as int) =~= p@);
    true
}

/// `str::strip_prefix`.
pub fn strip_prefix(s: &Vec<char>, p: &Vec<char>) -> (r: Option<Vec<char>>)
    ensures
        match r {
            Some(rest) => is_prefix(p@, s@) && rest@ == s@.subrange(p@.len() as int, s@.len() as int),
            None => !is_prefix(p@, s@),
        },
{
    if has_prefix(s, p) {
        Some(slice_chars(s, p.len(), s.len()))
    } else {
        None
    }
}

/// Whether `p` occurs at position `i` of `s`.
pub fn occurs_at_exec(s: &Vec<char>, p: &Vec<char>, i: usize) -> (r: bool)
    ensures
        r == occurs_at(s@, p@, i as int),
{
    if i > s.len() || p.len() > s.len() - i {
        return false;
    }
    let mut j: usize = 0;
    while j < p.len()
        invariant
            i + p.len() <= s.len(),
            0 <= j <= p.len(),
            forall|k: int| 0 <= k < j ==> s@[i + k] == p@[k],
        decreases p.len() - j,
    {
        if s[i + j] != p[j] {
            assert(s@.subrange(i as int, i + p.len())[j as int] != p@[j as int]);
            return false;
        }
        j = j + 1;
    }
    assert(s@.subrange(i as int, i + p.len()) =~= p@);
    true
}

/// Whether `p` occurs in `s` (`str::contains` with a string pattern).
pub fn contains_exec(s: &Vec<char>, p: &Vec<char>) -> (r: bool)
    ensures
        r == contains(s@, p@),
{
    if p.len() > s.len() {
        assert forall|i: int| !occurs_at(s@, p@, i) by {}
        return false;
    }
    let last = s.len() - p.len();
    let mut i: usize = 0;
    loop
        invariant
            p.len() <= s.len(),
            last == s.len() - p.len(),
            0 <= i <= last,
            forall|k: int| 0 <= k < i ==> !occurs_at(s@, p@, k),
        ensures
            forall|k: int| 0 <= k <= last ==> !occurs_at(s@, p@, k),
        decreases last - i,
    {
        if occurs_at_exec(s, p, i) {
            return true;
        }
        if i == last {
            break;
        }
        i = i + 1;
    }
    assert forall|k: int| !occurs_at(s@, p@, k) by {
        if 0 <= k <= last {
        }
    }
    false
}

/// The index of the first `c` in `v` at or after `from`.
pub fn find_char_from(v: &Vec<char>, c: char, from: usize) -> (r: Option<usize>)
    requires
        from <= v.len(),
    ensures
        first_index(v@.subrange(from as int, v.len() as int), c) == match r {
            Some(i) => Some(i - from),
            None => None::<int>,
        },
        r matches Some(i) ==> from <= i < v.len() && v@[i as int] == c,
{
    let mut i = from;
    while i < v.len() && v[i] != c
        invariant
            from <= i <= v.len(),
            forall|j: int| from <= j < i ==> v@[j] != c,
        decreases v.len() - i,
    {
        i = i + 1;
    }
    let ghost t = v@.subrange(from as int, v.len() as int);
    proof {
        assert forall|j: int| 0 <= j < i - from implies #[trigger] t[j] != c by {
            assert(t[j] == v@[from + j]);
        }
        lemma_first_index_is(t, c, (i - from) as int);
    }
    if i < v.len() {
        Some(i)
    } else {
        None
    }
}

/// `str::split` on one character.
pub fn split_chars(v: &Vec<char>, c: char) -> (r: Vec<Vec<char>>)
    ensures
        r@.map_values(|x: Vec<char>| x@) == split_on(v@, c),
{
    let mut r: Vec<Vec<char>> = Vec::new();
    let mut start: usize = 0;
    assert(v@.subrange(0, v.len() as int) =~= v@);
    assert(r@.map_values(|x: Vec<char>| x@) =~= Seq::<Seq<char>>::empty());
    loop
        invariant
            0 <= start <= v.len(),
            r@.map_values(|x: Vec<char>| x@) + split_on(v@.subrange(start as int, v.len() as int), c)
                == split_on(v@, c),
        decreases v.len() - start,
    {
        let ghost rest = v@.subrange(start as int, v.len() as int);
        match find_char_from(v, c, start) {
            Some(i) => {
                let piece = slice_chars(v, start, i);
                proof {
                    assert(piece@ =~= rest.subrange(0, i - start));
                    assert(rest.subrange(i - start + 1, rest.len() as int) =~= v@.subrange(
                        i + 1,
                        v.len() as int,
                    ));
                    assert(split_on(rest, c) == seq![piece@] + split_on(
                        v@.subrange(i + 1, v.len() as int),
                        c,
                    ));
                }
                let ghost old_r = r@;
                r.push(piece);
                proof {
                    assert(r@.map_values(|x: Vec<char>| x@) =~= old_r.map_values(|x: Vec<char>| x@)
                        + seq![piece@]);
                    assert(r@.map_values(|x: Vec<char>| x@) + split_on(
                        v@.subrange(i + 1, v.len() as int),
                        c,
                    ) =~= old_r.map_values(|x: Vec<char>| x@) + split_on(rest, c));
                }
                start = i + 1;
            },
            None => {
                let piece = slice_chars(v, start, v.len());
                let ghost old_r = r@;
                r.push(piece);
                proof {
                    assert(split_on(rest, c) == seq![rest]);
                    assert(r@.map_values(|x: Vec<char>| x@) =~= old_r.map_values(|x: Vec<char>| x@)
                        + split_on(rest, c));
                }
                return r;
            },
        }
    }
}


fn strip_cr_exec(v: Vec<char>) -> (r: Vec<char>)
    ensures
        r@ == strip_cr(v@),
{
    let mut v = v;
    if v.len() > 0 && v[v.len() - 1] == '\r' {
        v.pop();
    }
    v
}

/// `str::lines`.
pub fn lines_exec(v: &Vec<char>) -> (r: Vec<Vec<char>>)
    ensures
        r@.map_values(|x: Vec<char>| x@) == lines(v@),
{
    let mut r: Vec<Vec<char>> = Vec::new();
    let mut start: usize = 0;
    assert(v@.subrange(0, v.len() as int) =~= v@);
    assert(r@.map_values(|x: Vec<char>| x@) =~= Seq::<Seq<char>>::empty());
    while start < v.len()
        invariant
            0 <= start <= v.len(),
            r@.map_values(|x: Vec<char>| x@) + lines(v@.subrange(start as int, v.len() as int)) == lines(v@),
        decreases v.len() - start,
    {
        let ghost rest = v@.subrange(start as int, v.len() as int);
        let ghost old_r = r@;
        match find_char_from(v, '\n', start) {
            Some(i) => {
                let piece = strip_cr_exec(slice_chars(v, start, i));
                proof {
                    assert(v@.subrange(start as int, i as int) =~= rest.subrange(0, i - start));
                    assert(rest.subrange(i - start + 1, rest.len() as int) =~= v@.subrange(
                        i + 1,
                        v.len() as int,
                    ));
                    assert(lines(rest) == seq![piece@] + lines(v@.subrange(i + 1, v.len() as int)));
                }
                r.push(piece);
                proof {
                    assert(r@.map_values(|x: Vec<char>| x@) =~= old_r.map_values(|x: Vec<char>| x@)
                        + seq![piece@]);
                    assert(r@.map_values(|x: Vec<char>| x@) + lines(v@.subrange(i + 1, v.len() as int))
                        =~= old_r.map_values(|x: Vec<char>| x@) + lines(rest));
                }
                start = i + 1;
            },
            None => {
                let piece = slice_chars(v, start, v.len());
                r.push(piece);
                proof {
                    assert(lines(rest) == seq![rest]);
                    assert(r@.map_values(|x: Vec<char>| x@) =~= old_r.map_values(|x: Vec<char>| x@)
                        + lines(rest));
                    assert(v@.subrange(v.len() as int, v.len() as int) =~= Seq::<char>::empty());
                }
                start = v.len();
            },
        }
    }
    proof {
        assert(v@.subrange(start as int, v.len() as int) =~= Seq::<char>::empty());
        assert(r@.map_values(|x: Vec<char>| x@) + Seq::<Seq<char>>::empty() =~= r@.map_values(|x: Vec<char>| x@));
    }
    r
}


/// `s` with every leading `c` removed (`trim_start_matches(c)`).
pub open spec fn strip_leading(s: Seq<char>, c: char) -> Seq<char>
    decreases s.len(),
{
    if s.len() > 0 && s[0] == c {
        strip_leading(s.drop_first(), c)
    } else {
        s
    }
}

/// `s` with every trailing `c` removed (`trim_end_matches(c)`).
pub open spec fn strip_trailing(s: Seq<char>, c: char) -> Seq<char>
    decreases s.len(),
{
    if s.len() > 0 && s.last() == c {
        strip_trailing(s.drop_last(), c)
    } else {
        s
    }
}

pub fn strip_leading_exec(v: &Vec<char>, c: char) -> (r: Vec<char>)
    ensures
        r@ == strip_leading(v@, c),
{
    let mut i: usize = 0;
    assert(v@.subrange(0, v.len() as int) =~= v@);
    while i < v.len() && v[i] == c
        invariant
            0 <= i <= v.len(),
            strip_leading(v@, c) == strip_leading(v@.subrange(i as int, v.len() as int), c),
        decreases v.len() - i,
    {
        assert(v@.subrange(i as int, v.len() as int).drop_first() =~= v@.subrange(i + 1, v.len() as int));
        i = i + 1;
    }
    slice_chars(v, i, v.len())
}

/// `trim_end_matches(c)` on a character vector.
pub fn strip_trailing_exec(v: &Vec<char>, c: char) -> (r: Vec<char>)
    ensures
        r@ == strip_trailing(v@, c),
{
    let mut k: usize = v.len();
    assert(v@.subrange(0, v.len() as int) =~= v@);
    while k > 0 && v[k - 1] == c
        invariant
            0 <= k <= v.len(),
            strip_trailing(v@, c) == strip_trailing(v@.subrange(0, k as int), c),
        decreases k,
    {
        assert(v@.subrange(0, k as int).drop_last() =~= v@.subrange(0, k - 1));
        k = k - 1;
    }
    slice_chars(v, 0, k)
}

/// The word length is fixed by the scan that finds the word's end.
pub proof fn lemma_word_len_is(s: Seq<char>, m: int)
    requires
        0 <= m <= s.len(),
        forall|j: int| 0 <= j < m ==> !is_ws(#[trigger] s[j]),
        m < s.len() ==> is_ws(s[m]),
    ensures
        word_len(s) == m,
    decreases m,
{
    if m > 0 {
        let t = s.drop_first();
        assert forall|j: int| 0 <= j < m - 1 implies !is_ws(#[trigger] t[j]) by {
            assert(t[j] == s[j + 1]);
        }
        if m - 1 < t.len() {
            assert(t[m - 1] == s[m]);
        }
        lemma_word_len_is(t, m - 1);
    }
}

/// `str::split_whitespace`.
pub fn words_exec(v: &Vec<char>) -> (r: Vec<Vec<char>>)
    ensures
        r@.map_values(|x: Vec<char>| x@) == words(v@),
{
    let mut r: Vec<Vec<char>> = Vec::new();
    let mut i: usize = 0;
    assert(v@.subrange(0, v.len() as int) =~= v@);
    assert(r@.map_values(|x: Vec<char>| x@) =~= Seq::<Seq<char>>::empty());
    while i < v.len()
        invariant
            0 <= i <= v.len(),
            r@.map_values(|x: Vec<char>| x@) + words(v@.subrange(i as int, v.len() as int)) == words(v@),
        decreases v.len() - i,
    {
        let ghost rest = v@.subrange(i as int, v.len() as int);
        let ghost old_r = r@;
        let mut j = i;
        while j < v.len() && is_whitespace(v[j])
            invariant
                i <= j <= v.len(),
                forall|q: int| i <= q < j ==> is_ws(v@[q]),
            decreases v.len() - j,
        {
            j = j + 1;
        }
        proof {
            assert forall|q: int| 0 <= q < j - i implies is_ws(#[trigger] rest[q]) by {
                assert(rest[q] == v@[i + q]);
            }
            lemma_trim_start_skip(rest, j - i);
            assert(rest.subrange(j - i, rest.len() as int) =~= v@.subrange(j as int, v.len() as int));
        }
        if j == v.len() {
            proof {
                assert(v@.subrange(j as int, v.len() as int) =~= Seq::<char>::empty());
                assert(trim_start(Seq::<char>::empty()) =~= Seq::<char>::empty());
                assert(words(rest) =~= Seq::<Seq<char>>::empty());
                assert(r@.map_values(|x: Vec<char>| x@) + Seq::<Seq<char>>::empty() =~= r@.map_values(|x: Vec<char>| x@));
                assert(words(v@.subrange(j as int, v.len() as int)) =~= Seq::<Seq<char>>::empty());
            }
            i = j;
        } else {
            let mut k = j;
            while k < v.len() && !is_whitespace(v[k])
                invariant
                    j <= k <= v.len(),
                    forall|q: int| j <= q < k ==> !is_ws(v@[q]),
                decreases v.len() - k,
            {
                k = k + 1;
            }
            let ghost t = v@.subrange(j as int, v.len() as int);
            proof {
                assert(t[0] == v@[j as int]);
                assert forall|q: int| 0 <= q < k - j implies !is_ws(#[trigger] t[q]) by {
                    assert(t[q] == v@[j + q]);
                }
                if k < v.len() {
                    assert(t[k - j] == v@[k as int]);
                }
                lemma_word_len_is(t, k - j);
                assert(trim_start(t) == t);
                assert(t.subrange(0, k - j) =~= v@.subrange(j as int, k as int));
                assert(t.subrange(k - j, t.len() as int) =~= v@.subrange(k as int, v.len() as int));
                assert(words(rest) == seq![v@.subrange(j as int, k as int)] + words(v@.subrange(k as int, v.len() as int)));
            }
            let w = slice_chars(v, j, k);
            r.push(w);
            proof {
                assert(r@.map_values(|x: Vec<char>| x@) =~= old_r.map_values(|x: Vec<char>| x@) + seq![w@]);
                assert(r@.map_values(|x: Vec<char>| x@) + words(v@.subrange(k as int, v.len() as int))
                    =~= old_r.map_values(|x: Vec<char>| x@) + words(rest));
            }
            i = k;
        }
    }
    proof {
        assert(v@.subrange(i as int, v.len() as int) =~= Seq::<char>::empty());
        assert(trim_start(Seq::<char>::empty()) =~= Seq::<char>::empty());
        assert(r@.map_values(|x: Vec<char>| x@) + Seq::<Seq<char>>::empty() =~= r@.map_values(|x: Vec<char>| x@));
    }
    r
}

// ── Decimal numbers ────────────────────────────────────────────────────

pub open spec fn digit_char(d: nat) -> char {
    (('0' as u32) + d) as char
}

/// The decimal text of `n`, without leading zeros.
pub open spec fn decimal(n: nat) -> Seq<char>
    decreases n,
{
    if n < 10 {
        seq![digit_char(n)]
    } else {
        decimal(n / 10) + seq![digit_char(n % 10)]
    }
}

/// The decimal text of a signed number, with a `-` when negative.
pub open spec fn signed_decimal(n: int) -> Seq<char> {
    if n < 0 {
        seq!['-'] + decimal((-n) as nat)
    } else {
        decimal(n as nat)
    }
}

fn digit_exec(d: u64) -> (c: char)
    requires
        d < 10,
    ensures
        c == digit_char(d as nat),
{
    if d == 0 { '0' } else if d == 1 { '1' } else if d == 2 { '2' } else if d == 3 { '3' } else if d
        == 4 { '4' } else if d == 5 { '5' } else if d == 6 { '6' } else if d == 7 { '7' } else if d
        == 8 { '8' } else { '9' }
}

/// `n.to_string()`.
pub fn decimal_of(n: u64) -> (r: String)
    ensures
        r@ == decimal(n as nat),
    decreases n,
{
    if n < 10 {
        let mut s = String::new();
        push_char(&mut s, digit_exec(n));
        assert(s@ =~= seq![digit_char(n as nat)]);
        s
    } else {
        let mut s = decimal_of(n / 10);
        push_char(&mut s, digit_exec(n % 10));
        s
    }
}

/// `n.to_string()` for a signed number.
pub fn signed_decimal_of(n: i64) -> (r: String)
    ensures
        r@ == signed_decimal(n as int),
{
    if n < 0 {
        let m: u64 = if n == i64::MIN {
            0x8000_0000_0000_0000u64
        } else {
            (-n) as u64
        };
        let mut s = String::new();
        push_char(&mut s, '-');
        let d = decimal_of(m);
        let r = s.concat(d.as_str());
        assert(r@ =~= seq!['-'] + decimal((-n) as nat));
        r
    } else {
        decimal_of(n as u64)
    }
}

// ── Joining lines ──────────────────────────────────────────────────────

/// The lines joined with `'\n'` (`[..].join("\n")`).
pub open spec fn join_lines(ls: Seq<Seq<char>>) -> Seq<char>
    decreases ls.len(),
{
    if ls.len() == 0 {
        Seq::empty()
    } else if ls.len() == 1 {
        ls[0]
    } else {
        join_lines(ls.drop_last()) + seq!['\n'] + ls.last()
    }
}

pub fn join_lines_exec(ls: &Vec<Vec<char>>) -> (r: Vec<char>)
    ensures
        r@ == join_lines(ls@.map_values(|x: Vec<char>| x@)),
{
    let ghost lv = ls@.map_values(|x: Vec<char>| x@);
    let mut r: Vec<char> = Vec::new();
    let mut i: usize = 0;
    assert(lv.subrange(0, 0) =~= Seq::<Seq<char>>::empty());
    while i < ls.len()
        invariant
            0 <= i <= ls.len(),
            lv == ls@.map_values(|x: Vec<char>| x@),
            r@ == join_lines(lv.subrange(0, i as int)),
        decreases ls.len() - i,
    {
        let ghost sub1 = lv.subrange(0, i + 1);
        assert(sub1.drop_last() =~= lv.subrange(0, i as int));
        assert(sub1.last() == ls@[i as int]@);
        if i == 0 {
            r = concat(&r, &ls[i]);
            assert(r@ =~= ls@[0]@);
        } else {
            r.push('\n');
            r = concat(&r, &ls[i]);
        }
        i = i + 1;
    }
    assert(lv.subrange(0, ls.len() as int) =~= lv);
    r
}


// ── Case ───────────────────────────────────────────────────────────────

/// What `str::to_lowercase` gives for a string (Unicode lower case).
pub uninterp spec fn lowercase(s: Seq<char>) -> Seq<char>;

/// What `str::to_uppercase` gives for a string (Unicode upper case).
pub uninterp spec fn uppercase(s: Seq<char>) -> Seq<char>;

/// `str::to_lowercase`: the Unicode lower case of `s`; on ASCII text it maps
/// `A`–`Z` to `a`–`z` and leaves every other character as it is.
#[verifier::external_body]
pub fn to_lowercase(s: &str) -> (r: String)
    ensures
        r@ == lowercase(s@),
        all_ascii(s@) ==> r@ == ascii_lower(s@),
{
    s.to_lowercase()
}

/// `str::to_uppercase`: the Unicode upper case of `s`; on ASCII text it maps
/// `a`–`z` to `A`–`Z` and leaves every other character as it is.
#[verifier::external_body]
pub fn to_uppercase(s: &str) -> (r: String)
    ensures
        r@ == uppercase(s@),
        all_ascii(s@) ==> r@ == ascii_upper(s@),
{
    s.to_uppercase()
}

// ── Parsing integers ───────────────────────────────────────────────────

pub open spec fn all_digits(s: Seq<char>) -> bool {
    forall|i: int| 0 <= i < s.len() ==> is_ascii_digit(#[trigger] s[i])
}

/// The value of a string of decimal digits.
pub open spec fn digits_value(s: Seq<char>) -> nat
    decreases s.len(),
{
    if s.len() == 0 {
        0
    } else {
        digits_value(s.drop_last()) * 10 + ((s.last() as u32) - ('0' as u32)) as nat
    }
}

/// The digits of an unsigned number text: an optional `+`, then digits.
pub open spec fn unsigned_digits(s: Seq<char>) -> Seq<char> {
    if s.len() > 0 && s[0] == '+' {
        s.drop_first()
    } else {
        s
    }
}

/// `str::parse` for an unsigned integer type whose largest value is `max`:
/// an optional `+` and one or more digits, of a value up to `max`.
pub open spec fn parse_unsigned(s: Seq<char>, max: nat) -> Option<nat> {
    let d = unsigned_digits(s);
    if d.len() > 0 && all_digits(d) && digits_value(d) <= max {
        Some(digits_value(d))
    } else {
        None
    }
}

/// `str::parse` for a signed integer type of range `min..=max`: an
/// optional sign and one or more digits, of a value in range.
pub open spec fn parse_signed(s: Seq<char>, min: int, max: int) -> Option<int> {
    if s.len() > 0 && s[0] == '-' {
        let d = s.drop_first();
        if d.len() > 0 && all_digits(d) && -(digits_value(d) as int) >= min {
            Some(-(digits_value(d) as int))
        } else {
            None
        }
    } else {
        let d = unsigned_digits(s);
        if d.len() > 0 && all_digits(d) && digits_value(d) <= max {
            Some(digits_value(d) as int)
        } else {
            None
        }
    }
}

/// The value of the digits `d`, when it is at most `u64::MAX`.
fn digits_u64(d: &Vec<char>, from: usize) -> (r: Option<u64>)
    requires
        from <= d.len(),
    ensures
        ({
            let s = d@.subrange(from as int, d.len() as int);
            match r {
                Some(v) => all_digits(s) && v == digits_value(s),
                None => !all_digits(s) || digits_value(s) > u64::MAX,
            }
        }),
{
    let mut acc: u64 = 0;
    let mut over = false;
    let mut i = from;
    assert(d@.subrange(from as int, from as int) =~= Seq::<char>::empty());
    while i < d.len()
        invariant
            from <= i <= d.len(),
            all_digits(d@.subrange(from as int, i as int)),
            !over ==> acc == digits_value(d@.subrange(from as int, i as int)),
            over ==> digits_value(d@.subrange(from as int, i as int)) > u64::MAX,
        decreases d.len() - i,
    {
        let c = d[i];
        let ghost p = d@.subrange(from as int, i as int);
        let ghost p1 = d@.subrange(from as int, i + 1);
        assert(p1.drop_last() =~= p);
        assert(p1.last() == c);
        if !is_digit(c) {
            assert(!all_digits(d@.subrange(from as int, d.len() as int))) by {
                assert(d@.subrange(from as int, d.len() as int)[i - from] == c);
            }
            return None;
        }
        let dv = (c as u32 - '0' as u32) as u64;
        assert(dv == ((c as u32) - ('0' as u32)));
        if !over {
            if acc > (u64::MAX - dv) / 10 {
                over = true;
                assert(digits_value(p1) > u64::MAX) by (nonlinear_arith)
                    requires
                        digits_value(p1) == acc * 10 + dv,
                        acc > (u64::MAX - dv) / 10,
                        dv <= 9,
                {
                }
            } else {
                assert(acc * 10 + dv <= u64::MAX) by (nonlinear_arith)
                    requires
                        acc <= (u64::MAX - dv) / 10,
                        dv <= 9,
                {
                }
                acc = acc * 10 + dv;
            }
        } else {
            assert(digits_value(p1) >= digits_value(p));
        }
        assert forall|k: int| 0 <= k < p1.len() implies is_ascii_digit(#[trigger] p1[k]) by {
            if k < p.len() {
                assert(p1[k] == p[k]);
            }
        }
        i = i + 1;
    }
    if over {
        None
    } else {
        Some(acc)
    }
}

/// `str::parse::<u64>()` on a character vector.
pub fn parse_u64(s: &Vec<char>) -> (r: Option<u64>)
    ensures
        match r {
            Some(v) => parse_unsigned(s@, u64::MAX as nat) == Some(v as nat),
            None => parse_unsigned(s@, u64::MAX as nat) is None,
        },
{
    let from: usize = if s.len() > 0 && s[0] == '+' { 1 } else { 0 };
    proof {
        assert(unsigned_digits(s@) =~= s@.subrange(from as int, s.len() as int));
    }
    if from == s.len() {
        return None;
    }
    digits_u64(s, from)
}

/// `str::parse::<i32>()` on a character vector.
pub fn parse_i32(s: &Vec<char>) -> (r: Option<i32>)
    ensures
        match r {
            Some(v) => parse_signed(s@, i32::MIN as int, i32::MAX as int) == Some(v as int),
            None => parse_signed(s@, i32::MIN as int, i32::MAX as int) is None,
        },
{
    if s.len() > 0 && s[0] == '-' {
        proof {
            assert(s@.drop_first() =~= s@.subrange(1, s.len() as int));
        }
        if s.len() == 1 {
            return None;
        }
        match digits_u64(s, 1) {
            Some(v) => if v <= 0x8000_0000u64 {
                Some((0 - (v as i64)) as i32)
            } else {
                None
            },
            None => None,
        }
    } else {
        match parse_u64(s) {
            Some(v) => if v <= 0x7fff_ffffu64 {
                Some(v as i32)
            } else {
                None
            },
            None => None,
        }
    }
}

/// `str::parse::<i64>()` on a character vector.
pub fn parse_i64(s: &Vec<char>) -> (r: Option<i64>)
    ensures
        match r {
            Some(v) => parse_signed(s@, i64::MIN as int, i64::MAX as int) == Some(v as int),
            None => parse_signed(s@, i64::MIN as int, i64::MAX as int) is None,
        },
{
    if s.len() > 0 && s[0] == '-' {
        proof {
            assert(s@.drop_first() =~= s@.subrange(1, s.len() as int));
        }
        if s.len() == 1 {
            return None;
        }
        match digits_u64(s, 1) {
            Some(v) => if v < 0x8000_0000_0000_0000u64 {
                Some(0 - (v as i64))
            } else if v == 0x8000_0000_0000_0000u64 {
                Some(i64::MIN)
            } else {
                None
            },
            None => None,
        }
    } else {
        match parse_u64(s) {
            Some(v) => if v <= 0x7fff_ffff_ffff_ffffu64 {
                Some(v as i64)
            } else {
                None
            },
            None => None,
        }
    }
}

} // verus!
