//! Text operations on character sequences: searching, trimming, splitting.
//!
//! A `&str` is modelled by its sequence of characters, and positions are
//! character positions.

use vstd::prelude::*;

verus! {

// ── White space ──────────────────────────────────────────────────────────────

/// The characters with the Unicode property `White_Space`.
pub open spec fn white_space(c: char) -> bool {
    let n = c as u32;
    ||| 0x09 <= n <= 0x0d
    ||| n == 0x20
    ||| n == 0x85
    ||| n == 0xa0
    ||| n == 0x1680
    ||| 0x2000 <= n <= 0x200a
    ||| n == 0x2028
    ||| n == 0x2029
    ||| n == 0x202f
    ||| n == 0x205f
    ||| n == 0x3000
}

/// `s` without its leading white space.
pub open spec fn trim_front(s: Seq<char>) -> Seq<char>
    decreases s.len(),
{
    if s.len() > 0 && white_space(s[0]) {
        trim_front(s.skip(1))
    } else {
        s
    }
}

/// `s` without its trailing white space.
pub open spec fn trim_back(s: Seq<char>) -> Seq<char>
    decreases s.len(),
{
    if s.len() > 0 && white_space(s.last()) {
        trim_back(s.drop_last())
    } else {
        s
    }
}

/// `s` without white space at either end.
pub open spec fn trimmed(s: Seq<char>) -> Seq<char> {
    trim_back(trim_front(s))
}

/// `s` has no white space at either end.
pub open spec fn is_trimmed(s: Seq<char>) -> bool {
    s.len() > 0 ==> !white_space(s[0]) && !white_space(s.last())
}

/// Trimming the front leaves an end of the text that does not begin with white
/// space.
proof fn lemma_trim_front(s: Seq<char>)
    ensures
        trim_front(s).len() <= s.len(),
        trim_front(s) == s.skip(s.len() - trim_front(s).len()),
        trim_front(s).len() > 0 ==> !white_space(trim_front(s)[0]),
    decreases s.len(),
{
    if s.len() > 0 && white_space(s[0]) {
        lemma_trim_front(s.skip(1));
        let r = trim_front(s.skip(1));
        assert(s.skip(1).skip(s.len() - 1 - r.len()) == s.skip(s.len() - r.len()));
    } else {
        assert(s.skip(0) == s);
    }
}

/// Trimming the back leaves a beginning of the text that does not end with white
/// space.
proof fn lemma_trim_back(s: Seq<char>)
    ensures
        trim_back(s).len() <= s.len(),
        trim_back(s) == s.take(trim_back(s).len() as int),
        trim_back(s).len() > 0 ==> !white_space(trim_back(s).last()),
        s.len() > 0 && !white_space(s[0]) ==> trim_back(s).len() > 0,
    decreases s.len(),
{
    if s.len() > 0 && white_space(s.last()) {
        lemma_trim_back(s.drop_last());
        let r = trim_back(s.drop_last());
        assert(s.drop_last().take(r.len() as int) == s.take(r.len() as int));
    } else {
        assert(s.take(s.len() as int) == s);
    }
}

/// Trimming leaves no white space at the ends, changes nothing where there is
/// none, and is done after once.
pub proof fn law_trimmed(s: Seq<char>)
    ensures
        is_trimmed(trimmed(s)),
        is_trimmed(s) ==> trimmed(s) == s,
        trimmed(trimmed(s)) == trimmed(s),
{
    lemma_trim_front(s);
    lemma_trim_back(trim_front(s));
    let t = trimmed(s);
    if t.len() > 0 {
        assert(t[0] == trim_front(s)[0]);
    }
    assert(trim_front(t) == t && trim_back(t) == t);
}

/// What follows a beginning that ends the leading white space does not change
/// where the leading white space ends.
pub proof fn lemma_trimmed_keeps_front(s: Seq<char>, n: int)
    requires
        0 < n <= s.len(),
        !white_space(s[0]),
        !white_space(s[n - 1]),
    ensures
        n <= trimmed(s).len() <= s.len(),
        trimmed(s) == s.take(trimmed(s).len() as int),
    decreases s.len(),
{
    assert(trim_front(s) == s);
    lemma_trim_back(s);
    if n < s.len() && white_space(s.last()) {
        let d = s.drop_last();
        lemma_trimmed_keeps_front(d, n);
        assert(trim_front(d) == d);
    }
}

/// Whether `c` is white space.
pub fn is_white_space(c: char) -> (r: bool)
    ensures
        r == white_space(c),
{
    let n: u32 = c as u32;
    (0x09 <= n && n <= 0x0d) || n == 0x20 || n == 0x85 || n == 0xa0 || n == 0x1680 || (0x2000 <= n
        && n <= 0x200a) || n == 0x2028 || n == 0x2029 || n == 0x202f || n == 0x205f || n == 0x3000
}

// ── Characters ───────────────────────────────────────────────────────────────

/// The characters of `s`.
pub fn chars_of(s: &str) -> (r: Vec<char>)
    ensures
        r@ == s@,
{
    let mut out: Vec<char> = Vec::new();
    for c in it: s.chars()
        invariant
            out@ == it.seq().take(it.index() as int),
            it.seq() == s@,
    {
        out.push(c);
    }
    out
}

/// Removes the white space at both ends of `s`.
pub fn trim(s: &str) -> (r: &str)
    ensures
        r@ == trimmed(s@),
{
    let chars = chars_of(s);
    let n: usize = chars.len();
    let mut i: usize = 0;
    assert(s@.subrange(0, n as int) == s@);
    while i < n && is_white_space(chars[i])
        invariant
            i <= n == chars.len(),
            chars@ == s@,
            trim_front(s@) == trim_front(s@.subrange(i as int, n as int)),
        decreases n - i,
    {
        assert(s@.subrange(i as int, n as int).skip(1) == s@.subrange(i + 1, n as int));
        i = i + 1;
    }
    let mut j: usize = n;
    while i < j && is_white_space(chars[j - 1])
        invariant
            i <= j <= n == chars.len(),
            chars@ == s@,
            trimmed(s@) == trim_back(s@.subrange(i as int, j as int)),
        decreases j,
    {
        assert(s@.subrange(i as int, j as int).drop_last() == s@.subrange(i as int, j - 1));
        j = j - 1;
    }
    s.substring_char(i, j)
}

/// Whether `a` and `b` hold the same characters.
pub fn same_text(a: &str, b: &str) -> (r: bool)
    ensures
        r == (a@ == b@),
{
    let x = chars_of(a);
    let y = chars_of(b);
    if x.len() != y.len() {
        return false;
    }
    assert(x@.subrange(0, y@.len() as int) == x@);
    occurs(&x, &y, 0)
}

// ── Searching ────────────────────────────────────────────────────────────────

/// `p` stands in `s` at position `i`.
pub open spec fn occurs_at(s: Seq<char>, p: Seq<char>, i: int) -> bool {
    &&& 0 <= i
    &&& i + p.len() <= s.len()
    &&& s.subrange(i, i + p.len()) == p
}

/// The first position at or after `i` at which `p` stands in `s`.
pub open spec fn find_from(s: Seq<char>, p: Seq<char>, i: int) -> Option<int>
    decreases s.len() + 1 - i,
{
    if i + p.len() > s.len() {
        None
    } else if occurs_at(s, p, i) {
        Some(i)
    } else {
        find_from(s, p, i + 1)
    }
}

/// The first position at which `p` stands in `s`.
pub open spec fn find_text(s: Seq<char>, p: Seq<char>) -> Option<int> {
    find_from(s, p, 0)
}

/// A search from `i` on finds the first occurrence at or after `i`.
proof fn lemma_find_from(s: Seq<char>, p: Seq<char>, i: int)
    requires
        0 <= i,
    ensures
        match find_from(s, p, i) {
            Some(k) => {
                &&& i <= k
                &&& occurs_at(s, p, k)
                &&& forall|j: int| i <= j < k ==> !#[trigger] occurs_at(s, p, j)
            },
            None => forall|j: int| i <= j ==> !#[trigger] occurs_at(s, p, j),
        },
    decreases s.len() + 1 - i,
{
    if i + p.len() <= s.len() && !occurs_at(s, p, i) {
        lemma_find_from(s, p, i + 1);
    }
}

/// A search finds the first occurrence, and finds none only where there is none.
pub proof fn law_find_first(s: Seq<char>, p: Seq<char>)
    ensures
        match find_text(s, p) {
            Some(k) => {
                &&& occurs_at(s, p, k)
                &&& forall|j: int| 0 <= j < k ==> !#[trigger] occurs_at(s, p, j)
            },
            None => forall|j: int| !#[trigger] occurs_at(s, p, j),
        },
{
    lemma_find_from(s, p, 0);
}

/// A backward search from `i` finds the last occurrence at or before `i`.
proof fn lemma_rfind_upto(s: Seq<char>, p: Seq<char>, i: int)
    ensures
        match rfind_upto(s, p, i) {
            Some(k) => {
                &&& k <= i
                &&& occurs_at(s, p, k)
                &&& forall|j: int| k < j <= i ==> !#[trigger] occurs_at(s, p, j)
            },
            None => forall|j: int| j <= i ==> !#[trigger] occurs_at(s, p, j),
        },
    decreases i + 1,
{
    if i >= 0 && !occurs_at(s, p, i) {
        lemma_rfind_upto(s, p, i - 1);
    }
}

/// A backward search finds the last occurrence, and finds none only where there
/// is none.
pub proof fn law_rfind_last(s: Seq<char>, p: Seq<char>)
    ensures
        match rfind_text(s, p) {
            Some(k) => {
                &&& occurs_at(s, p, k)
                &&& forall|j: int| k < j ==> !#[trigger] occurs_at(s, p, j)
            },
            None => forall|j: int| !#[trigger] occurs_at(s, p, j),
        },
{
    lemma_rfind_upto(s, p, s.len() - p.len());
}

/// The last position at or before `i` at which `p` stands in `s`.
pub open spec fn rfind_upto(s: Seq<char>, p: Seq<char>, i: int) -> Option<int>
    decreases i + 1,
{
    if i < 0 {
        None
    } else if occurs_at(s, p, i) {
        Some(i)
    } else {
        rfind_upto(s, p, i - 1)
    }
}

/// The last position at which `p` stands in `s`.
pub open spec fn rfind_text(s: Seq<char>, p: Seq<char>) -> Option<int> {
    rfind_upto(s, p, s.len() - p.len())
}

/// Whether `p` stands in `s` at position `i`.
fn occurs(s: &Vec<char>, p: &Vec<char>, i: usize) -> (r: bool)
    requires
        i <= s.len(),
    ensures
        r == occurs_at(s@, p@, i as int),
{
    if p.len() > s.len() - i {
        return false;
    }
    let mut k: usize = 0;
    while k < p.len()
        invariant
            k <= p.len() <= s.len() - i,
            i <= s.len(),
            forall|j: int| 0 <= j < k ==> s@[i + j] == p@[j],
        decreases p.len() - k,
    {
        if s[i + k] != p[k] {
            assert(s@.subrange(i as int, i + p@.len())[k as int] != p@[k as int]);
            return false;
        }
        k = k + 1;
    }
    assert(s@.subrange(i as int, i + p@.len()) == p@);
    true
}

/// The first position at which `p` stands in `s`.
pub fn find(s: &str, p: &str) -> (r: Option<usize>)
    ensures
        match r {
            Some(i) => find_text(s@, p@) == Some(i as int),
            None => find_text(s@, p@) is None,
        },
        r matches Some(i) ==> i + p@.len() <= s@.len() <= usize::MAX && occurs_at(s@, p@, i as int),
{
    let sc = chars_of(s);
    let pc = chars_of(p);
    if pc.len() > sc.len() {
        return None;
    }
    let last: usize = sc.len() - pc.len();
    let mut i: usize = 0;
    loop
        invariant
            i <= last,
            last + pc.len() == sc.len(),
            sc@ == s@,
            pc@ == p@,
            find_text(s@, p@) == find_from(s@, p@, i as int),
        decreases last - i,
    {
        if occurs(&sc, &pc, i) {
            return Some(i);
        }
        if i == last {
            assert(find_from(s@, p@, i + 1) is None);
            return None;
        }
        i = i + 1;
    }
}

/// The last position at which `p` stands in `s`.
pub fn rfind(s: &str, p: &str) -> (r: Option<usize>)
    ensures
        match r {
            Some(i) => rfind_text(s@, p@) == Some(i as int),
            None => rfind_text(s@, p@) is None,
        },
        r matches Some(i) ==> i + p@.len() <= s@.len() <= usize::MAX && occurs_at(s@, p@, i as int),
{
    let sc = chars_of(s);
    let pc = chars_of(p);
    if pc.len() > sc.len() {
        return None;
    }
    let mut i: usize = sc.len() - pc.len();
    loop
        invariant
            i + pc.len() <= sc.len(),
            sc@ == s@,
            pc@ == p@,
            rfind_text(s@, p@) == rfind_upto(s@, p@, i as int),
        decreases i,
    {
        if occurs(&sc, &pc, i) {
            return Some(i);
        }
        if i == 0 {
            assert(rfind_upto(s@, p@, i - 1) is None);
            return None;
        }
        i = i - 1;
    }
}

/// Whether `p` stands somewhere in `s`.
pub fn contains(s: &str, p: &str) -> (r: bool)
    ensures
        r == (find_text(s@, p@) is Some),
{
    find(s, p).is_some()
}

/// Whether `s` begins with `p`.
pub fn starts_with(s: &str, p: &str) -> (r: bool)
    ensures
        r == occurs_at(s@, p@, 0),
{
    let sc = chars_of(s);
    let pc = chars_of(p);
    occurs(&sc, &pc, 0)
}

// ── Prefixes ─────────────────────────────────────────────────────────────────

/// What follows the prefix `p` in `s`, if `s` begins with `p`.
pub open spec fn after_prefix(s: Seq<char>, p: Seq<char>) -> Option<Seq<char>> {
    if occurs_at(s, p, 0) {
        Some(s.skip(p.len() as int))
    } else {
        None
    }
}

/// `s` with the prefix `p` removed as often as it stands there.
pub open spec fn without_prefixes(s: Seq<char>, p: Seq<char>) -> Seq<char>
    decreases s.len(),
{
    if p.len() > 0 && occurs_at(s, p, 0) {
        without_prefixes(s.skip(p.len() as int), p)
    } else {
        s
    }
}

/// Everything in `s` from position `i` on.
pub fn suffix(s: &str, i: usize) -> (r: &str)
    requires
        i <= s@.len(),
    ensures
        r@ == s@.skip(i as int),
{
    let n: usize = s.unicode_len();
    s.substring_char(i, n)
}

/// What follows the prefix `p` in `s`, if `s` begins with `p`.
pub fn strip_prefix<'a>(s: &'a str, p: &str) -> (r: Option<&'a str>)
    ensures
        match r {
            Some(rest) => after_prefix(s@, p@) == Some(rest@),
            None => after_prefix(s@, p@) is None,
        },
{
    if starts_with(s, p) {
        Some(suffix(s, p.unicode_len()))
    } else {
        None
    }
}

/// Removes the prefix `p` from `s` as often as it stands there.
pub fn trim_start_matches<'a>(s: &'a str, p: &str) -> (r: &'a str)
    ensures
        r@ == without_prefixes(s@, p@),
{
    let width: usize = p.unicode_len();
    let mut rest: &'a str = s;
    if width == 0 {
        return s;
    }
    while starts_with(rest, p)
        invariant
            width == p@.len(),
            width > 0,
            without_prefixes(s@, p@) == without_prefixes(rest@, p@),
        decreases rest@.len(),
    {
        rest = suffix(rest, width);
    }
    rest
}

// ── Splitting ────────────────────────────────────────────────────────────────

/// How many characters stand in `s` before the first one that is in `seps`.
pub open spec fn span_without(s: Seq<char>, seps: Seq<char>) -> nat
    decreases s.len(),
{
    if s.len() == 0 || seps.contains(s[0]) {
        0
    } else {
        1 + span_without(s.skip(1), seps)
    }
}

/// The pieces of `s` between the characters that are in `seps`.
pub open spec fn split_text(s: Seq<char>, seps: Seq<char>) -> Seq<Seq<char>>
    decreases s.len(),
{
    let n = span_without(s, seps);
    if n >= s.len() {
        seq![s]
    } else {
        seq![s.take(n as int)] + split_text(s.skip(n as int + 1), seps)
    }
}

/// The text that each element of `v` holds.
pub open spec fn views(v: Seq<&str>) -> Seq<Seq<char>> {
    v.map_values(|x: &str| x@)
}

/// The texts of a list of strings.
pub open spec fn texts(v: Seq<String>) -> Seq<Seq<char>> {
    v.map_values(|s: String| s@)
}

/// The span before the first separator is at most the whole text, holds no
/// separator, and ends at one unless it is the whole text.
pub proof fn lemma_span_without(s: Seq<char>, seps: Seq<char>)
    ensures
        span_without(s, seps) <= s.len(),
        forall|i: int| 0 <= i < span_without(s, seps) ==> !seps.contains(#[trigger] s[i]),
        span_without(s, seps) < s.len() ==> seps.contains(s[span_without(s, seps) as int]),
    decreases s.len(),
{
    if s.len() > 0 && !seps.contains(s[0]) {
        lemma_span_without(s.skip(1), seps);
        let n = span_without(s.skip(1), seps);
        assert forall|i: int| 0 <= i < n + 1 implies !seps.contains(#[trigger] s[i]) by {
            if i > 0 {
                assert(s.skip(1)[i - 1] == s[i]);
            }
        }
        if n < s.skip(1).len() {
            assert(s.skip(1)[n as int] == s[n as int + 1]);
        }
    }
}

/// No piece of a split text holds a separator.
pub proof fn law_pieces_hold_no_separator(s: Seq<char>, seps: Seq<char>)
    ensures
        split_text(s, seps).len() > 0,
        forall|k: int, i: int|
            #![trigger split_text(s, seps)[k][i]]
            0 <= k < split_text(s, seps).len() && 0 <= i < split_text(s, seps)[k].len()
                ==> !seps.contains(split_text(s, seps)[k][i]),
    decreases s.len(),
{
    lemma_span_without(s, seps);
    let n = span_without(s, seps);
    if n < s.len() {
        let rest = s.skip(n as int + 1);
        law_pieces_hold_no_separator(rest, seps);
        let pieces = split_text(s, seps);
        assert forall|k: int, i: int|
            #![trigger pieces[k][i]]
            0 <= k < pieces.len() && 0 <= i < pieces[k].len() implies !seps.contains(
            pieces[k][i],
        ) by {
            if k == 0 {
                assert(pieces[0][i] == s[i]);
            } else {
                assert(pieces[k] == split_text(rest, seps)[k - 1]);
            }
        }
    } else {
        assert forall|k: int, i: int|
            #![trigger split_text(s, seps)[k][i]]
            0 <= k < split_text(s, seps).len() && 0 <= i < split_text(s, seps)[k].len() implies !seps.contains(
            split_text(s, seps)[k][i],
        ) by {
            assert(split_text(s, seps)[k][i] == s[i]);
        }
    }
}

/// A text before a separator is the first piece, and the pieces of what follows
/// the separator come after it.
pub proof fn lemma_split_at(a: Seq<char>, c: char, b: Seq<char>, seps: Seq<char>)
    requires
        seps.contains(c),
        forall|i: int| 0 <= i < a.len() ==> !seps.contains(#[trigger] a[i]),
    ensures
        split_text(a.push(c) + b, seps) == seq![a] + split_text(b, seps),
{
    let s = a.push(c) + b;
    assert forall|i: int| 0 <= i < a.len() implies !seps.contains(#[trigger] s[i]) by {
        assert(s[i] == a[i]);
    }
    lemma_span_is(s, seps, a.len());
    assert(s.take(a.len() as int) == a);
    assert(s.skip(a.len() as int + 1) == b);
}

/// A text without separators is one piece.
pub proof fn lemma_split_whole(a: Seq<char>, seps: Seq<char>)
    requires
        forall|i: int| 0 <= i < a.len() ==> !seps.contains(#[trigger] a[i]),
    ensures
        split_text(a, seps) == seq![a],
{
    lemma_span_is(a, seps, a.len());
}

/// What is left of a trimmed text stands in the text.
pub proof fn lemma_trimmed_within(s: Seq<char>, i: int)
    requires
        0 <= i < trimmed(s).len(),
    ensures
        s.contains(trimmed(s)[i]),
{
    lemma_trim_front(s);
    lemma_trim_back(trim_front(s));
    let k = s.len() - trim_front(s).len();
    assert(trimmed(s)[i] == s[k + i]);
}

/// A text that differs from `p` at some position of `p` does not begin with `p`.
pub proof fn lemma_differs_at(s: Seq<char>, p: Seq<char>, i: int)
    requires
        0 <= i < p.len(),
        i < s.len(),
        s[i] != p[i],
    ensures
        !occurs_at(s, p, 0),
        after_prefix(s, p) is None,
        without_prefixes(s, p) == s,
{
    if occurs_at(s, p, 0) {
        assert(s.subrange(0, 0 + p.len() as int)[i] == p[i]);
    }
}

/// A prefix that stands once is removed, and no more than that.
pub proof fn lemma_strip_once(p: Seq<char>, rest: Seq<char>)
    requires
        p.len() > 0,
        rest.len() > 0,
        rest[0] != p[0],
    ensures
        after_prefix(p + rest, p) == Some(rest),
        without_prefixes(p + rest, p) == rest,
{
    let s = p + rest;
    assert(s.subrange(0, 0 + p.len() as int) == p);
    assert(s.skip(p.len() as int) == rest);
    lemma_differs_at(rest, p, 0);
}

/// The span before the first separator is where one stands with none before it.
pub proof fn lemma_span_is(s: Seq<char>, seps: Seq<char>, n: nat)
    requires
        n <= s.len(),
        forall|i: int| 0 <= i < n ==> !seps.contains(#[trigger] s[i]),
        n < s.len() ==> seps.contains(s[n as int]),
    ensures
        span_without(s, seps) == n,
{
    lemma_span_without(s, seps);
    let m = span_without(s, seps);
    if m < n {
        assert(!seps.contains(s[m as int]));
    }
    if n < m {
        assert(!seps.contains(s[n as int]));
    }
}

/// Whether `c` is one of `seps`.
fn is_one_of(c: char, seps: &Vec<char>) -> (r: bool)
    ensures
        r == seps@.contains(c),
{
    let mut i: usize = 0;
    while i < seps.len()
        invariant
            i <= seps.len(),
            forall|j: int| 0 <= j < i ==> seps@[j] != c,
        decreases seps.len() - i,
    {
        if seps[i] == c {
            return true;
        }
        i = i + 1;
    }
    false
}

/// Splits `s` at every character that is in `seps`.
pub fn split_any<'a>(s: &'a str, seps: &Vec<char>) -> (r: Vec<&'a str>)
    ensures
        views(r@) == split_text(s@, seps@),
        r.len() > 0,
{
    let chars = chars_of(s);
    let n: usize = chars.len();
    let mut out: Vec<&'a str> = Vec::new();
    let mut start: usize = 0;
    let mut i: usize = 0;
    assert(s@.skip(0) == s@);
    while i < n
        invariant
            start <= i <= n == chars.len(),
            chars@ == s@,
            forall|j: int| start <= j < i ==> !seps@.contains(#[trigger] s@[j]),
            split_text(s@, seps@) == views(out@) + split_text(s@.skip(start as int), seps@),
        decreases n - i,
    {
        if is_one_of(chars[i], seps) {
            let piece: &'a str = s.substring_char(start, i);
            let ghost rest = s@.skip(start as int);
            let ghost before = out@;
            proof {
                assert forall|j: int| 0 <= j < i - start implies !seps@.contains(#[trigger] rest[j]) by {
                    assert(rest[j] == s@[start + j]);
                }
                lemma_span_is(rest, seps@, (i - start) as nat);
                assert(rest.take(i - start) == piece@);
                assert(rest.skip(i - start + 1) == s@.skip(i + 1));
            }
            out.push(piece);
            assert(views(out@) == views(before) + seq![piece@]);
            start = i + 1;
            assert(split_text(s@, seps@) == views(out@) + split_text(s@.skip(start as int), seps@));
        }
        i = i + 1;
    }
    let piece: &'a str = s.substring_char(start, n);
    let ghost rest = s@.skip(start as int);
    let ghost before = out@;
    proof {
        assert forall|j: int| 0 <= j < rest.len() implies !seps@.contains(#[trigger] rest[j]) by {
            assert(rest[j] == s@[start + j]);
        }
        lemma_span_is(rest, seps@, rest.len());
        assert(piece@ == rest);
    }
    out.push(piece);
    assert(views(out@) == views(before) + seq![piece@]);
    out
}

// ── Laws of searching, trimming and splitting ────────────────────────────────

/// A text stands in another at a position exactly where that one is made of something of
/// that length, the text, and something more.
pub proof fn law_occurrence(s: Seq<char>, p: Seq<char>, i: int)
    ensures
        occurs_at(s, p, i) <==> exists|a: Seq<char>, b: Seq<char>|
            a.len() == i && s == #[trigger] ((a + p) + b),
{
    if occurs_at(s, p, i) {
        let a = s.take(i);
        let b = s.skip(i + p.len());
        assert forall|k: int| 0 <= k < s.len() implies s[k] == ((a + p) + b)[k] by {
            if i <= k < i + p.len() {
                assert(s.subrange(i, i + p.len())[k - i] == p[k - i]);
            }
        }
        assert(s =~= (a + p) + b);
    }
    assert forall|a: Seq<char>, b: Seq<char>|
        a.len() == i && s == #[trigger] ((a + p) + b) implies occurs_at(s, p, i) by {
        assert(s.subrange(i, i + p.len()) =~= p);
    }
}

/// Trimming takes away white space and nothing else: a text is what is left of it with
/// white space before and behind.
pub proof fn law_trimming_takes_white_space(s: Seq<char>)
    ensures
        exists|a: Seq<char>, b: Seq<char>|
            {
                &&& s == #[trigger] ((a + trimmed(s)) + b)
                &&& forall|i: int| 0 <= i < a.len() ==> white_space(#[trigger] a[i])
                &&& forall|i: int| 0 <= i < b.len() ==> white_space(#[trigger] b[i])
            },
{
    lemma_front_is_white(s);
    let f = trim_front(s);
    lemma_back_is_white(f);
    lemma_trim_front(s);
    lemma_trim_back(f);
    let a = s.take(s.len() - f.len());
    let b = f.skip(trimmed(s).len() as int);
    assert(s =~= (a + trimmed(s)) + b) by {
        assert(f == s.skip(s.len() - f.len()));
        assert(trimmed(s) == f.take(trimmed(s).len() as int));
    }
}

/// What trimming takes from the front is white space.
proof fn lemma_front_is_white(s: Seq<char>)
    ensures
        forall|i: int| 0 <= i < s.len() - trim_front(s).len() ==> white_space(#[trigger] s[i]),
    decreases s.len(),
{
    if s.len() > 0 && white_space(s[0]) {
        lemma_front_is_white(s.skip(1));
        assert forall|i: int| 0 <= i < s.len() - trim_front(s).len() implies white_space(
            #[trigger] s[i],
        ) by {
            if i > 0 {
                assert(s.skip(1)[i - 1] == s[i]);
            }
        }
    }
}

/// What trimming takes from the back is white space.
proof fn lemma_back_is_white(s: Seq<char>)
    ensures
        forall|i: int| trim_back(s).len() <= i < s.len() ==> white_space(#[trigger] s[i]),
    decreases s.len(),
{
    if s.len() > 0 && white_space(s.last()) {
        lemma_back_is_white(s.drop_last());
        assert forall|i: int| trim_back(s).len() <= i < s.len() implies white_space(
            #[trigger] s[i],
        ) by {
            if i < s.len() - 1 {
                assert(s.drop_last()[i] == s[i]);
            }
        }
    }
}

/// White space before and behind a trimmed text is what trimming takes away.
#[verifier::spinoff_prover]
#[verifier::rlimit(40)]
pub proof fn law_white_space_is_trimmed(a: Seq<char>, t: Seq<char>, b: Seq<char>)
    requires
        is_trimmed(t),
        forall|i: int| 0 <= i < a.len() ==> white_space(#[trigger] a[i]),
        forall|i: int| 0 <= i < b.len() ==> white_space(#[trigger] b[i]),
    ensures
        trimmed(a + t + b) == t,
{
    let s = a + t + b;
    let r = trimmed(s);
    law_trimmed(s);
    law_trimming_takes_white_space(s);
    let (x, y) = choose|x: Seq<char>, y: Seq<char>|
        {
            &&& s == #[trigger] ((x + r) + y)
            &&& forall|i: int| 0 <= i < x.len() ==> white_space(#[trigger] x[i])
            &&& forall|i: int| 0 <= i < y.len() ==> white_space(#[trigger] y[i])
        };
    if t.len() > 0 {
        let first = a.len() as int;
        let last = a.len() + t.len() - 1;
        assert(s[first] == t[0] && s[last] == t.last());
        assert(x.len() <= first) by {
            if first < x.len() {
                assert(s[first] == x[first]);
            }
        }
        assert(x.len() + r.len() > last) by {
            if x.len() + r.len() <= last {
                assert(s[last] == y[last - x.len() - r.len()]);
            }
        }
        assert(r.len() > 0);
        assert(s[x.len() as int] == r[0]);
        assert(s[x.len() + r.len() - 1] == r.last());
        assert(x.len() == first) by {
            if x.len() < first {
                assert(s[x.len() as int] == a[x.len() as int]);
            }
        }
        assert(x.len() + r.len() == last + 1) by {
            if x.len() + r.len() > last + 1 {
                assert(s[x.len() + r.len() - 1] == b[x.len() + r.len() - 1 - a.len() - t.len()]);
            }
        }
        assert forall|i: int| 0 <= i < r.len() implies r[i] == t[i] by {
            assert(s[x.len() + i] == r[i]);
        }
        assert(r =~= t);
    } else {
        if r.len() > 0 {
            let k = x.len() as int;
            assert(s[k] == r[0]);
            if k < a.len() {
                assert(s[k] == a[k]);
            } else {
                assert(s[k] == b[k - a.len()]);
            }
        }
        assert(r =~= t);
    }
}

/// A prefix is removed as often as it stands there, and nothing else is.
pub proof fn law_prefixes_are_removed(s: Seq<char>, p: Seq<char>)
    requires
        p.len() > 0,
    ensures
        without_prefixes(p + s, p) == without_prefixes(s, p),
        !(exists|b: Seq<char>| s == #[trigger] (p + b)) ==> without_prefixes(s, p) == s,
        after_prefix(p + s, p) == Some(s),
        !(exists|b: Seq<char>| s == #[trigger] (p + b)) ==> after_prefix(s, p) is None,
{
    assert((p + s).subrange(0, 0 + p.len() as int) =~= p);
    assert((p + s).skip(p.len() as int) =~= s);
    if occurs_at(s, p, 0) {
        let b = s.skip(p.len() as int);
        assert forall|k: int| 0 <= k < s.len() implies s[k] == (p + b)[k] by {
            if k < p.len() {
                assert(s.subrange(0, 0 + p.len() as int)[k] == p[k]);
            }
        }
        assert(s =~= p + b);
    }
}

/// A text without separators is one piece, and what stands before the first separator is
/// the first piece, with the pieces of what follows behind it.
pub proof fn law_pieces(a: Seq<char>, c: char, b: Seq<char>, seps: Seq<char>)
    requires
        seps.contains(c),
        forall|i: int| 0 <= i < a.len() ==> !seps.contains(#[trigger] a[i]),
    ensures
        split_text(a, seps) == seq![a],
        split_text(a + seq![c] + b, seps) == seq![a] + split_text(b, seps),
{
    lemma_split_whole(a, seps);
    lemma_split_at(a, c, b, seps);
    assert(a.push(c) + b == a + seq![c] + b);
}

/// The model of a list of texts has the texts in their order.
pub proof fn law_list_model(v: Seq<&str>, w: Seq<String>)
    ensures
        views(v).len() == v.len(),
        forall|i: int| 0 <= i < v.len() ==> #[trigger] views(v)[i] == v[i]@,
        texts(w).len() == w.len(),
        forall|i: int| 0 <= i < w.len() ==> #[trigger] texts(w)[i] == w[i]@,
{
}

} // verus!
