//! Character-level string toolkit: the spec vocabulary that the rest of the
//! library states its contracts in, with verified executable counterparts.
use vstd::prelude::*;

verus! {

broadcast use vstd::string::group_string_axioms;

// ---------------------------------------------------------------------------
// Names for std results that the documentation does not spell out.
// ---------------------------------------------------------------------------

/// Whether `char::is_whitespace` holds of `c` (the Unicode White_Space property).
pub uninterp spec fn char_is_whitespace(c: char) -> bool;

/// What `str::to_lowercase` returns for the characters `s`.
pub uninterp spec fn str_lowercase(s: Seq<char>) -> Seq<char>;

/// What `str::to_uppercase` returns for the characters `s`.
pub uninterp spec fn str_uppercase(s: Seq<char>) -> Seq<char>;

/// Trusted: `char::is_whitespace`. The result is the White_Space property of `c`,
/// named `char_is_whitespace`; which characters carry it is not stated here.
#[verifier::external_body]
pub(crate) fn is_whitespace(c: char) -> (b: bool)
    ensures
        b == char_is_whitespace(c),
{
    c.is_whitespace()
}

/// Trusted: `str::to_lowercase`. The result is named `str_lowercase` of the input;
/// the Unicode case tables themselves are not stated.
#[verifier::external_body]
pub(crate) fn to_lowercase(s: &str) -> (r: String)
    ensures
        r@ == str_lowercase(s@),
{
    s.to_lowercase()
}

/// Trusted: `str::to_uppercase`. The result is named `str_uppercase` of the input;
/// the Unicode case tables themselves are not stated.
#[verifier::external_body]
pub(crate) fn to_uppercase(s: &str) -> (r: String)
    ensures
        r@ == str_uppercase(s@),
{
    s.to_uppercase()
}

/// Trusted: `String::push`. Appends `c` to the end of `s`.
#[verifier::external_body]
pub(crate) fn push_char(s: &mut String, c: char)
    ensures
        final(s)@ == old(s)@.push(c),
{
    s.push(c);
}

// ---------------------------------------------------------------------------
// Conversions
// ---------------------------------------------------------------------------

/// The characters of a string, in order.
pub fn chars_of(s: &str) -> (v: Vec<char>)
    ensures
        v@ == s@,
{
    let mut v: Vec<char> = Vec::new();
    for c in it: s.chars()
        invariant
            v@ == it.seq().take(it.index() as int),
            it.seq() == s@,
    {
        v.push(c);
    }
    v
}

/// The string made of the characters `v[from..to]`.
pub fn string_of_range(v: &[char], from: usize, to: usize) -> (s: String)
    requires
        from <= to <= v.len(),
    ensures
        s@ == v@.subrange(from as int, to as int),
{
    let mut s = String::new();
    let mut i: usize = from;
    while i < to
        invariant
            from <= i <= to <= v.len(),
            s@ == v@.subrange(from as int, i as int),
        decreases to - i,
    {
        push_char(&mut s, v[i]);
        assert(v@.subrange(from as int, i + 1) =~= v@.subrange(from as int, i as int).push(
            v@[i as int],
        ));
        i += 1;
    }
    s
}

/// The string made of the given characters.
pub fn string_of(v: &[char]) -> (s: String)
    ensures
        s@ == v@,
{
    let s = string_of_range(v, 0, v.len());
    assert(v@.subrange(0, v@.len() as int) =~= v@);
    s
}

/// A copy of `s`.
pub fn copy_str(s: &str) -> (r: String)
    ensures
        r@ == s@,
{
    String::from_str(s)
}

/// `a` followed by `b`.
pub fn concat2(a: &str, b: &str) -> (r: String)
    ensures
        r@ == a@ + b@,
{
    let mut r = String::from_str(a);
    r.append(b);
    r
}

/// `a`, `b` and `c` one after the other.
pub fn concat3(a: &str, b: &str, c: &str) -> (r: String)
    ensures
        r@ == a@ + b@ + c@,
{
    let mut r = String::from_str(a);
    r.append(b);
    r.append(c);
    r
}

// ---------------------------------------------------------------------------
// Matching
// ---------------------------------------------------------------------------

/// `p` occurs in `s` starting at index `i`.
pub open spec fn occurs_at(s: Seq<char>, p: Seq<char>, i: int) -> bool {
    0 <= i && i + p.len() <= s.len() && s.subrange(i, i + p.len()) == p
}

/// `p` occurs somewhere in `s` (`str::contains`).
pub open spec fn has_substr(s: Seq<char>, p: Seq<char>) -> bool {
    exists|i: int| occurs_at(s, p, i)
}

/// An occurrence in `x` is an occurrence in `x + y` at the same place.
pub proof fn lemma_occurs_in_left(x: Seq<char>, y: Seq<char>, p: Seq<char>, i: int)
    requires
        occurs_at(x, p, i),
    ensures
        occurs_at(x + y, p, i),
{
    assert((x + y).subrange(i, i + p.len()) =~= x.subrange(i, i + p.len()));
}

/// An occurrence in `y` is an occurrence in `x + y`, shifted by the length of `x`.
pub proof fn lemma_occurs_in_right(x: Seq<char>, y: Seq<char>, p: Seq<char>, i: int)
    requires
        occurs_at(y, p, i),
    ensures
        occurs_at(x + y, p, x.len() + i),
{
    assert((x + y).subrange(x.len() + i, x.len() + i + p.len()) =~= y.subrange(i, i + p.len()));
}

/// `s` begins with `p` (`str::starts_with`).
pub open spec fn begins_with(s: Seq<char>, p: Seq<char>) -> bool {
    occurs_at(s, p, 0)
}

/// `s` ends with `p` (`str::ends_with`).
pub open spec fn finishes_with(s: Seq<char>, p: Seq<char>) -> bool {
    occurs_at(s, p, s.len() - p.len())
}

/// `s` without the prefix `p`, when it has it (`str::strip_prefix`).
pub open spec fn without_prefix(s: Seq<char>, p: Seq<char>) -> Option<Seq<char>> {
    if begins_with(s, p) {
        Some(s.subrange(p.len() as int, s.len() as int))
    } else {
        None
    }
}

/// `s` without the suffix `p`, when it has it (`str::strip_suffix`).
pub open spec fn without_suffix(s: Seq<char>, p: Seq<char>) -> Option<Seq<char>> {
    if finishes_with(s, p) {
        Some(s.subrange(0, s.len() - p.len()))
    } else {
        None
    }
}

/// Whether `p` occurs in `s` at `i`, on character vectors.
pub fn match_at(s: &Vec<char>, p: &Vec<char>, i: usize) -> (b: bool)
    ensures
        b == occurs_at(s@, p@, i as int),
{
    if i > s.len() || p.len() > s.len() - i {
        return false;
    }
    let mut k: usize = 0;
    while k < p.len()
        invariant
            i + p.len() <= s.len(),
            k <= p.len(),
            forall|j: int| 0 <= j < k ==> s@[i + j] == p@[j],
        decreases p.len() - k,
    {
        if s[i + k] != p[k] {
            assert(s@.subrange(i as int, i + p.len())[k as int] != p@[k as int]);
            return false;
        }
        k += 1;
    }
    assert(s@.subrange(i as int, i + p.len()) =~= p@);
    true
}

/// The first index at or after `from` where `p` occurs in `s`, if any.
pub fn find_from(s: &Vec<char>, p: &Vec<char>, from: usize) -> (r: Option<usize>)
    ensures
        match r {
            Some(i) => from <= i && occurs_at(s@, p@, i as int) && forall|j: int|
                from <= j < i ==> !occurs_at(s@, p@, j),
            None => forall|j: int| from <= j ==> !occurs_at(s@, p@, j),
        },
{
    let mut i: usize = from;
    while i < s.len()
        invariant
            from <= i,
            forall|j: int| from <= j < i ==> !occurs_at(s@, p@, j),
        decreases s.len() - i,
    {
        if match_at(s, p, i) {
            return Some(i);
        }
        i += 1;
    }
    if i == s.len() && match_at(s, p, i) {
        return Some(i);
    }
    None
}

/// `str::contains` on character vectors.
pub fn vec_contains(s: &Vec<char>, p: &Vec<char>) -> (b: bool)
    ensures
        b == has_substr(s@, p@),
{
    match find_from(s, p, 0) {
        Some(i) => true,
        None => false,
    }
}

/// `str::contains`.
pub fn contains(s: &str, p: &str) -> (b: bool)
    ensures
        b == has_substr(s@, p@),
{
    let sv = chars_of(s);
    let pv = chars_of(p);
    vec_contains(&sv, &pv)
}

/// `str::starts_with`.
pub fn starts_with(s: &str, p: &str) -> (b: bool)
    ensures
        b == begins_with(s@, p@),
{
    let sv = chars_of(s);
    let pv = chars_of(p);
    match_at(&sv, &pv, 0)
}

/// `str::ends_with`.
pub fn ends_with(s: &str, p: &str) -> (b: bool)
    ensures
        b == finishes_with(s@, p@),
{
    let sv = chars_of(s);
    let pv = chars_of(p);
    if pv.len() > sv.len() {
        false
    } else {
        match_at(&sv, &pv, sv.len() - pv.len())
    }
}

/// `str::strip_prefix`.
pub fn strip_prefix(s: &str, p: &str) -> (r: Option<String>)
    ensures
        match r {
            Some(t) => without_prefix(s@, p@) == Some(t@),
            None => without_prefix(s@, p@) is None,
        },
{
    let sv = chars_of(s);
    let pv = chars_of(p);
    if match_at(&sv, &pv, 0) {
        Some(string_of_range(&sv, pv.len(), sv.len()))
    } else {
        None
    }
}

/// `str::strip_suffix`.
pub fn strip_suffix(s: &str, p: &str) -> (r: Option<String>)
    ensures
        match r {
            Some(t) => without_suffix(s@, p@) == Some(t@),
            None => without_suffix(s@, p@) is None,
        },
{
    let sv = chars_of(s);
    let pv = chars_of(p);
    if pv.len() <= sv.len() && match_at(&sv, &pv, sv.len() - pv.len()) {
        Some(string_of_range(&sv, 0, sv.len() - pv.len()))
    } else {
        None
    }
}

/// Two strings with the same characters.
pub fn str_eq(a: &str, b: &str) -> (r: bool)
    ensures
        r == (a@ == b@),
{
    let av = chars_of(a);
    let bv = chars_of(b);
    if av.len() != bv.len() {
        return false;
    }
    let r = match_at(&av, &bv, 0);
    assert(av@.subrange(0, bv@.len() as int) =~= av@);
    r
}


// ---------------------------------------------------------------------------
// Trimming
// ---------------------------------------------------------------------------

/// `s` without the leading characters that satisfy `f`.
pub open spec fn drop_front_while(s: Seq<char>, f: spec_fn(char) -> bool) -> Seq<char>
    decreases s.len(),
{
    if s.len() > 0 && f(s[0]) {
        drop_front_while(s.drop_first(), f)
    } else {
        s
    }
}

/// `s` without the trailing characters that satisfy `f`.
pub open spec fn drop_back_while(s: Seq<char>, f: spec_fn(char) -> bool) -> Seq<char>
    decreases s.len(),
{
    if s.len() > 0 && f(s.last()) {
        drop_back_while(s.drop_last(), f)
    } else {
        s
    }
}

/// The whitespace predicate of `str::trim`.
pub open spec fn ws() -> spec_fn(char) -> bool {
    |c: char| char_is_whitespace(c)
}

/// The predicate "is the character `c`", as used by `trim_matches(c)`.
pub open spec fn is_char(c: char) -> spec_fn(char) -> bool {
    |x: char| x == c
}

/// `str::trim`: `s` without leading and trailing whitespace.
pub open spec fn trim_ws(s: Seq<char>) -> Seq<char> {
    drop_back_while(drop_front_while(s, ws()), ws())
}

/// `str::trim_matches(c)` for a character `c`.
pub open spec fn trim_char(s: Seq<char>, c: char) -> Seq<char> {
    drop_back_while(drop_front_while(s, is_char(c)), is_char(c))
}

/// `str::trim_end_matches(p)`: repeatedly removes the suffix `p`.
pub open spec fn strip_suffixes(s: Seq<char>, p: Seq<char>) -> Seq<char>
    decreases s.len(),
{
    if p.len() > 0 && finishes_with(s, p) {
        strip_suffixes(s.subrange(0, s.len() - p.len()), p)
    } else {
        s
    }
}

proof fn lemma_drop_front(s: Seq<char>, f: spec_fn(char) -> bool, i: int)
    requires
        0 <= i <= s.len(),
        forall|k: int| 0 <= k < i ==> f(#[trigger] s[k]),
        i == s.len() || !f(s[i]),
    ensures
        drop_front_while(s, f) == s.subrange(i, s.len() as int),
    decreases i,
{
    if i == 0 {
        assert(s.subrange(0, s.len() as int) =~= s);
    } else {
        let t = s.drop_first();
        assert forall|k: int| 0 <= k < i - 1 implies f(#[trigger] t[k]) by {
            assert(t[k] == s[k + 1]);
        }
        lemma_drop_front(t, f, i - 1);
        assert(t.subrange(i - 1, t.len() as int) =~= s.subrange(i, s.len() as int));
    }
}

proof fn lemma_drop_back(s: Seq<char>, f: spec_fn(char) -> bool, j: int)
    requires
        0 <= j <= s.len(),
        forall|k: int| j <= k < s.len() ==> f(#[trigger] s[k]),
        j == 0 || !f(s[j - 1]),
    ensures
        drop_back_while(s, f) == s.subrange(0, j),
    decreases s.len() - j,
{
    if j == s.len() {
        assert(s.subrange(0, s.len() as int) =~= s);
    } else {
        let t = s.drop_last();
        assert forall|k: int| j <= k < t.len() implies f(#[trigger] t[k]) by {
            assert(t[k] == s[k]);
        }
        lemma_drop_back(t, f, j);
        assert(t.subrange(0, j) =~= s.subrange(0, j));
    }
}

/// The bounds `(i, j)` with `trim_ws(v) == v[i..j]`.
fn trim_bounds_ws(v: &Vec<char>) -> (r: (usize, usize))
    ensures
        r.0 <= r.1 <= v.len(),
        trim_ws(v@) == v@.subrange(r.0 as int, r.1 as int),
{
    let mut i: usize = 0;
    while i < v.len() && is_whitespace(v[i])
        invariant
            i <= v.len(),
            forall|k: int| 0 <= k < i ==> (ws())(#[trigger] v@[k]),
        decreases v.len() - i,
    {
        i += 1;
    }
    proof {
        lemma_drop_front(v@, ws(), i as int);
    }
    let mut j: usize = v.len();
    while j > i && is_whitespace(v[j - 1])
        invariant
            i <= j <= v.len(),
            forall|k: int| j <= k < v.len() ==> (ws())(#[trigger] v@[k]),
        decreases j,
    {
        j -= 1;
    }
    proof {
        let t = v@.subrange(i as int, v.len() as int);
        assert forall|k: int| j - i <= k < t.len() implies (ws())(#[trigger] t[k]) by {
            assert(t[k] == v@[i + k]);
        }
        lemma_drop_back(t, ws(), j - i);
        assert(t.subrange(0, j - i) =~= v@.subrange(i as int, j as int));
    }
    (i, j)
}

/// `str::trim`.
pub fn trim(s: &str) -> (r: String)
    ensures
        r@ == trim_ws(s@),
{
    let v = chars_of(s);
    let (i, j) = trim_bounds_ws(&v);
    string_of_range(&v, i, j)
}

/// `str::trim_matches(c)` for a character `c`.
pub fn trim_matches_char(s: &str, c: char) -> (r: String)
    ensures
        r@ == trim_char(s@, c),
{
    let v = chars_of(s);
    let mut i: usize = 0;
    while i < v.len() && v[i] == c
        invariant
            i <= v.len(),
            forall|k: int| 0 <= k < i ==> (is_char(c))(#[trigger] v@[k]),
        decreases v.len() - i,
    {
        i += 1;
    }
    proof {
        lemma_drop_front(v@, is_char(c), i as int);
    }
    let mut j: usize = v.len();
    while j > i && v[j - 1] == c
        invariant
            i <= j <= v.len(),
            forall|k: int| j <= k < v.len() ==> (is_char(c))(#[trigger] v@[k]),
        decreases j,
    {
        j -= 1;
    }
    proof {
        let t = v@.subrange(i as int, v.len() as int);
        assert forall|k: int| j - i <= k < t.len() implies (is_char(c))(#[trigger] t[k]) by {
            assert(t[k] == v@[i + k]);
        }
        lemma_drop_back(t, is_char(c), j - i);
        assert(t.subrange(0, j - i) =~= v@.subrange(i as int, j as int));
    }
    string_of_range(&v, i, j)
}

/// `str::trim_end_matches(p)` for a string pattern `p`.
pub fn trim_end_matches(s: &str, p: &str) -> (r: String)
    ensures
        r@ == strip_suffixes(s@, p@),
{
    let v = chars_of(s);
    let pv = chars_of(p);
    let mut end: usize = v.len();
    assert(v@.subrange(0, v.len() as int) =~= v@);
    while pv.len() > 0 && pv.len() <= end && match_at(&v, &pv, end - pv.len())
        invariant
            end <= v.len(),
            v@ == s@,
            pv@ == p@,
            strip_suffixes(s@, p@) == strip_suffixes(v@.subrange(0, end as int), p@),
        decreases end,
    {
        proof {
            let t = v@.subrange(0, end as int);
            assert(t.subrange(end - pv.len(), end as int) =~= v@.subrange(
                end - pv.len(),
                end as int,
            ));
            assert(t.subrange(0, t.len() - pv@.len()) =~= v@.subrange(0, end - pv.len()));
            assert(finishes_with(t, p@));
            assert(strip_suffixes(t, p@) == strip_suffixes(t.subrange(0, t.len() - p@.len()), p@));
        }
        end = end - pv.len();
    }
    proof {
        let t = v@.subrange(0, end as int);
        if pv.len() > 0 && pv.len() <= end {
            assert(t.subrange(end - pv.len(), end as int) =~= v@.subrange(
                end - pv.len(),
                end as int,
            ));
        }
    }
    assert(v@.subrange(0, v.len() as int) =~= v@);
    string_of_range(&v, 0, end)
}

/// `str::replace(from, to)` for a non-empty `from`: the occurrences of `from`,
/// found from the left without overlapping, each replaced by `to`.
pub open spec fn replaced(s: Seq<char>, from: Seq<char>, to: Seq<char>) -> Seq<char>
    decreases s.len(),
{
    if from.len() == 0 || s.len() == 0 {
        s
    } else if begins_with(s, from) {
        to + replaced(s.skip(from.len() as int), from, to)
    } else {
        seq![s[0]] + replaced(s.skip(1), from, to)
    }
}

/// `str::replace` for a non-empty pattern.
pub fn replace(s: &str, from: &str, to: &str) -> (r: String)
    requires
        from@.len() > 0,
    ensures
        r@ == replaced(s@, from@, to@),
{
    let v = chars_of(s);
    let pv = chars_of(from);
    let mut out = String::new();
    let mut i: usize = 0;
    assert(v@.skip(0) =~= v@);
    while i < v.len()
        invariant
            i <= v.len(),
            v@ == s@,
            pv@ == from@,
            pv@.len() > 0,
            out@ + replaced(v@.skip(i as int), from@, to@) == replaced(s@, from@, to@),
        decreases v.len() - i,
    {
        let ghost rest = v@.skip(i as int);
        if match_at(&v, &pv, i) {
            assert(rest.subrange(0, pv@.len() as int) =~= v@.subrange(i as int, i + pv@.len()));
            assert(rest.skip(pv@.len() as int) =~= v@.skip(i + pv.len()));
            let ghost before = out@;
            out.append(to);
            assert(before + (to@ + replaced(rest.skip(from@.len() as int), from@, to@)) =~= out@ + replaced(
                rest.skip(from@.len() as int),
                from@,
                to@,
            ));
            i += pv.len();
        } else {
            proof {
                if pv@.len() <= rest.len() {
                    assert(rest.subrange(0, pv@.len() as int) =~= v@.subrange(i as int, i + pv@.len()));
                }
            }
            assert(rest.skip(1) =~= v@.skip(i + 1));
            assert(rest[0] == v@[i as int]);
            let ghost before = out@;
            push_char(&mut out, v[i]);
            assert(before + (seq![rest[0]] + replaced(rest.skip(1), from@, to@)) =~= out@ + replaced(
                rest.skip(1),
                from@,
                to@,
            ));
            i += 1;
        }
    }
    assert(v@.skip(i as int) =~= Seq::<char>::empty());
    out
}

// ---------------------------------------------------------------------------
// Counting and searching characters
// ---------------------------------------------------------------------------

/// How often `c` occurs in `s` (`str::matches(c).count()`).
pub open spec fn count_char(s: Seq<char>, c: char) -> nat
    decreases s.len(),
{
    if s.len() == 0 {
        0
    } else {
        count_char(s.drop_last(), c) + if s.last() == c {
            1nat
        } else {
            0nat
        }
    }
}

/// A character that does not occur is counted zero times.
pub proof fn lemma_no_char_count(s: Seq<char>, c: char)
    requires
        forall|k: int| 0 <= k < s.len() ==> s[k] != c,
    ensures
        count_char(s, c) == 0,
    decreases s.len(),
{
    if s.len() > 0 {
        lemma_no_char_count(s.drop_last(), c);
    }
}

/// Counting a character over a concatenation adds the counts.
pub proof fn lemma_count_concat(a: Seq<char>, b: Seq<char>, c: char)
    ensures
        count_char(a + b, c) == count_char(a, c) + count_char(b, c),
    decreases b.len(),
{
    if b.len() == 0 {
        assert(a + b =~= a);
    } else {
        lemma_count_concat(a, b.drop_last(), c);
        assert((a + b).drop_last() =~= a + b.drop_last());
    }
}

/// `str::matches(c).count()` for a character `c`.
pub fn count_matches(s: &str, c: char) -> (n: usize)
    ensures
        n == count_char(s@, c),
{
    let v = chars_of(s);
    let mut n: usize = 0;
    let mut i: usize = 0;
    while i < v.len()
        invariant
            i <= v.len(),
            n <= i,
            n == count_char(v@.take(i as int), c),
        decreases v.len() - i,
    {
        assert(v@.take(i + 1).drop_last() =~= v@.take(i as int));
        if v[i] == c {
            n += 1;
        }
        i += 1;
    }
    assert(v@.take(v.len() as int) =~= v@);
    n
}

/// `char::is_ascii_digit`.
pub open spec fn is_ascii_digit(c: char) -> bool {
    '0' <= c && c <= '9'
}

/// Where `f` holds somewhere in `0..n`, it holds at a least such index.
pub proof fn lemma_least_index(f: spec_fn(int) -> bool, n: int)
    requires
        exists|i: int| 0 <= i < n && #[trigger] f(i),
    ensures
        exists|i: int| #![trigger f(i)] 0 <= i < n && f(i) && forall|k: int| 0 <= k < i ==> !#[trigger] f(k),
    decreases n,
{
    if exists|i: int| 0 <= i < n - 1 && #[trigger] f(i) {
        lemma_least_index(f, n - 1);
        let i = choose|i: int| #![trigger f(i)] 0 <= i < n - 1 && f(i) && forall|k: int| 0 <= k < i ==> !#[trigger] f(k);
        assert(0 <= i < n && f(i) && forall|k: int| 0 <= k < i ==> !#[trigger] f(k));
    } else {
        let j = choose|i: int| 0 <= i < n && #[trigger] f(i);
        if j < n - 1 {
            assert(0 <= j < n - 1 && f(j));
        }
        assert(0 <= n - 1 < n && f(n - 1) && forall|k: int| 0 <= k < n - 1 ==> !#[trigger] f(k));
    }
}

/// The index of the first ASCII digit of `s`, if any.
pub open spec fn first_digit(s: Seq<char>) -> Option<int> {
    if exists|i: int| 0 <= i < s.len() && is_ascii_digit(s[i]) {
        Some(
            choose|i: int|
                0 <= i < s.len() && is_ascii_digit(s[i]) && forall|k: int|
                    0 <= k < i ==> !is_ascii_digit(#[trigger] s[k]),
        )
    } else {
        None
    }
}

/// The index of the first ASCII digit in `v`, if any.
pub fn find_first_digit(v: &Vec<char>) -> (r: Option<usize>)
    ensures
        match r {
            Some(i) => i < v.len() && first_digit(v@) == Some(i as int),
            None => first_digit(v@) is None,
        },
{
    let mut i: usize = 0;
    while i < v.len()
        invariant
            i <= v.len(),
            forall|k: int| 0 <= k < i ==> !is_ascii_digit(#[trigger] v@[k]),
        decreases v.len() - i,
    {
        if '0' <= v[i] && v[i] <= '9' {
            proof {
                let w = choose|w: int|
                    0 <= w < v@.len() && is_ascii_digit(v@[w]) && forall|k: int|
                        0 <= k < w ==> !is_ascii_digit(#[trigger] v@[k]);
                assert(0 <= w < v@.len() && is_ascii_digit(v@[w]) && forall|k: int|
                    0 <= k < w ==> !is_ascii_digit(#[trigger] v@[k]));
                if w < i {
                } else if w > i {
                    assert(!is_ascii_digit(v@[i as int]));
                }
            }
            return Some(i);
        }
        i += 1;
    }
    None
}


// ---------------------------------------------------------------------------
// Splitting and joining
// ---------------------------------------------------------------------------

/// The character views of a sequence of strings.
pub open spec fn views(v: Seq<String>) -> Seq<Seq<char>> {
    v.map_values(|x: String| x@)
}

/// `str::split(c)` for a character `c`: the pieces between occurrences of `c`.
pub open spec fn split_on(s: Seq<char>, c: char) -> Seq<Seq<char>>
    decreases s.len(),
{
    if s.len() == 0 {
        seq![Seq::<char>::empty()]
    } else {
        let r = split_on(s.drop_last(), c);
        if s.last() == c {
            r.push(Seq::<char>::empty())
        } else {
            r.update(r.len() - 1, r.last().push(s.last()))
        }
    }
}

/// `split_on` always yields at least one piece.
pub proof fn lemma_split_on_nonempty(s: Seq<char>, c: char)
    ensures
        split_on(s, c).len() >= 1,
    decreases s.len(),
{
    if s.len() > 0 {
        lemma_split_on_nonempty(s.drop_last(), c);
    }
}

/// `str::split(c)` for a character `c`.
pub fn split_char(s: &str, c: char) -> (r: Vec<String>)
    ensures
        views(r@) == split_on(s@, c),
{
    let v = chars_of(s);
    let mut parts: Vec<String> = Vec::new();
    let mut cur: Vec<char> = Vec::new();
    let mut i: usize = 0;
    assert(v@.take(0) =~= Seq::<char>::empty());
    assert(views(parts@).push(cur@) =~= split_on(v@.take(0), c));
    while i < v.len()
        invariant
            i <= v.len(),
            split_on(v@.take(i as int), c) == views(parts@).push(cur@),
        decreases v.len() - i,
    {
        let ghost before = v@.take(i as int);
        assert(v@.take(i + 1).drop_last() =~= before);
        if v[i] == c {
            let piece = string_of(&cur);
            parts.push(piece);
            cur = Vec::new();
            assert(views(parts@).push(cur@) =~= split_on(before, c).push(Seq::<char>::empty()));
        } else {
            cur.push(v[i]);
            assert(views(parts@).push(cur@) =~= split_on(before, c).update(
                split_on(before, c).len() - 1,
                split_on(before, c).last().push(v@[i as int]),
            ));
        }
        i += 1;
    }
    let last = string_of(&cur);
    parts.push(last);
    assert(v@.take(v.len() as int) =~= v@);
    assert(views(parts@) =~= split_on(v@, c));
    parts
}

/// A line with one trailing carriage return removed.
pub open spec fn strip_cr(l: Seq<char>) -> Seq<char> {
    if l.len() > 0 && l.last() == '\r' {
        l.drop_last()
    } else {
        l
    }
}

/// `str::lines`: the pieces between newlines, without a final empty piece,
/// each piece that a newline ends losing one trailing carriage return.
pub open spec fn lines_of(s: Seq<char>) -> Seq<Seq<char>> {
    let parts = split_on(s, '\n');
    let body = parts.drop_last().map_values(|l: Seq<char>| strip_cr(l));
    if parts.last().len() == 0 {
        body
    } else {
        body.push(parts.last())
    }
}

/// `str::lines`.
pub fn lines(s: &str) -> (r: Vec<String>)
    ensures
        views(r@) == lines_of(s@),
{
    let parts = split_char(s, '\n');
    proof {
        lemma_split_on_nonempty(s@, '\n');
    }
    let n = parts.len();
    let mut out: Vec<String> = Vec::new();
    let mut i: usize = 0;
    while i + 1 < n
        invariant
            n == parts.len(),
            n >= 1,
            i + 1 <= n,
            views(parts@) == split_on(s@, '\n'),
            views(out@) == split_on(s@, '\n').take(i as int).map_values(
                |l: Seq<char>| strip_cr(l),
            ),
        decreases n - i,
    {
        let pv = chars_of(parts[i].as_str());
        assert(pv@ == split_on(s@, '\n')[i as int]);
        let line = if pv.len() > 0 && pv[pv.len() - 1] == '\r' {
            assert(pv@.subrange(0, pv.len() - 1) =~= pv@.drop_last());
            string_of_range(&pv, 0, pv.len() - 1)
        } else {
            string_of(&pv)
        };
        assert(line@ == strip_cr(split_on(s@, '\n')[i as int]));
        let ghost old_out = views(out@);
        out.push(line);
        assert(views(out@) =~= old_out.push(line@));
        assert(split_on(s@, '\n').take(i + 1).map_values(|l: Seq<char>| strip_cr(l))
            =~= split_on(s@, '\n').take(i as int).map_values(|l: Seq<char>| strip_cr(l)).push(
            strip_cr(split_on(s@, '\n')[i as int]),
        ));
        assert(views(out@) =~= split_on(s@, '\n').take(i + 1).map_values(
            |l: Seq<char>| strip_cr(l),
        ));
        i += 1;
    }
    let lastv = chars_of(parts[n - 1].as_str());
    assert(split_on(s@, '\n').take(n - 1) =~= split_on(s@, '\n').drop_last());
    if lastv.len() > 0 {
        out.push(string_of(&lastv));
        assert(views(out@) =~= lines_of(s@));
    } else {
        assert(views(out@) =~= lines_of(s@));
    }
    out
}

/// `str::split_whitespace`: the maximal runs of non-whitespace characters.
pub open spec fn words_of(s: Seq<char>) -> Seq<Seq<char>>
    decreases s.len(),
{
    if s.len() == 0 {
        Seq::<Seq<char>>::empty()
    } else {
        let w = words_of(s.drop_last());
        let c = s.last();
        if char_is_whitespace(c) {
            w
        } else if s.len() >= 2 && !char_is_whitespace(s[s.len() - 2]) {
            w.update(w.len() - 1, w.last().push(c))
        } else {
            w.push(seq![c])
        }
    }
}

/// `parts` joined with `sep` between neighbours (`[T]::join`).
pub open spec fn join_with(parts: Seq<Seq<char>>, sep: Seq<char>) -> Seq<char>
    decreases parts.len(),
{
    if parts.len() == 0 {
        Seq::<char>::empty()
    } else if parts.len() == 1 {
        parts[0]
    } else {
        join_with(parts.drop_last(), sep) + sep + parts.last()
    }
}

/// Each part occurs in the joined text; the place is returned.
pub proof fn lemma_join_holds_part(parts: Seq<Seq<char>>, sep: Seq<char>, k: int) -> (i: int)
    requires
        0 <= k < parts.len(),
    ensures
        occurs_at(join_with(parts, sep), parts[k], i),
    decreases parts.len(),
{
    let last = parts.last();
    assert(last.subrange(0, last.len() as int) =~= last);
    if parts.len() == 1 {
        0
    } else {
        let front = join_with(parts.drop_last(), sep);
        if k == parts.len() - 1 {
            lemma_occurs_in_right(front + sep, last, last, 0);
            (front + sep).len() as int
        } else {
            let i = lemma_join_holds_part(parts.drop_last(), sep, k);
            lemma_occurs_in_left(front, sep, parts[k], i);
            lemma_occurs_in_left(front + sep, last, parts[k], i);
            i
        }
    }
}

/// The joined text begins with the first part.
pub proof fn lemma_join_begins_with_first(parts: Seq<Seq<char>>, sep: Seq<char>)
    requires
        parts.len() > 0,
    ensures
        join_with(parts, sep).len() >= parts[0].len(),
        join_with(parts, sep).subrange(0, parts[0].len() as int) =~= parts[0],
    decreases parts.len(),
{
    if parts.len() > 1 {
        lemma_join_begins_with_first(parts.drop_last(), sep);
        let front = join_with(parts.drop_last(), sep);
        assert((front + sep + parts.last()).subrange(0, parts[0].len() as int) =~= front.subrange(0, parts[0].len() as int));
    }
}

/// Neighbouring parts occur in the joined text in their order, with the
/// separator between them; the place is returned.
pub proof fn lemma_join_holds_neighbours(parts: Seq<Seq<char>>, sep: Seq<char>, k: int) -> (i: int)
    requires
        0 <= k && k + 1 < parts.len(),
    ensures
        occurs_at(join_with(parts, sep), parts[k] + sep + parts[k + 1], i),
    decreases parts.len(),
{
    let q = parts.drop_last();
    let last = parts.last();
    let front = join_with(q, sep);
    let w = parts[k] + sep + parts[k + 1];
    assert(w.subrange(0, w.len() as int) =~= w);
    if k + 2 == parts.len() {
        let pre = if q.len() == 1 {
            Seq::<char>::empty()
        } else {
            join_with(q.drop_last(), sep) + sep
        };
        assert(front =~= pre + q.last());
        assert(front + sep + last =~= pre + w);
        lemma_occurs_in_right(pre, w, w, 0);
        pre.len() as int
    } else {
        let i = lemma_join_holds_neighbours(q, sep, k);
        assert(q[k] + sep + q[k + 1] == w);
        lemma_occurs_in_left(front, sep, w, i);
        lemma_occurs_in_left(front + sep, last, w, i);
        i
    }
}

/// `str::split_whitespace().collect::<Vec<_>>().join(" ")`.
pub open spec fn collapse_ws(s: Seq<char>) -> Seq<char> {
    join_with(words_of(s), seq![' '])
}

/// `str::split_whitespace`.
pub fn split_whitespace(s: &str) -> (r: Vec<String>)
    ensures
        views(r@) == words_of(s@),
{
    let v = chars_of(s);
    let mut words: Vec<String> = Vec::new();
    let mut cur: Vec<char> = Vec::new();
    let mut in_word = false;
    let mut i: usize = 0;
    assert(v@.take(0) =~= Seq::<char>::empty());
    while i < v.len()
        invariant
            i <= v.len(),
            in_word == (i > 0 && !char_is_whitespace(v@[i - 1])),
            words_of(v@.take(i as int)) == if in_word {
                views(words@).push(cur@)
            } else {
                views(words@)
            },
        decreases v.len() - i,
    {
        let ghost before = v@.take(i as int);
        assert(v@.take(i + 1).drop_last() =~= before);
        let c = v[i];
        if is_whitespace(c) {
            if in_word {
                let w = string_of(&cur);
                words.push(w);
                cur = Vec::new();
                assert(views(words@) =~= words_of(before));
            }
            in_word = false;
        } else {
            if in_word {
                cur.push(c);
                assert(views(words@).push(cur@) =~= words_of(before).update(
                    words_of(before).len() - 1,
                    words_of(before).last().push(c),
                ));
            } else {
                cur = Vec::new();
                cur.push(c);
                assert(views(words@).push(cur@) =~= words_of(before).push(seq![c]));
            }
            in_word = true;
        }
        i += 1;
    }
    assert(v@.take(v.len() as int) =~= v@);
    if in_word {
        let w = string_of(&cur);
        words.push(w);
        assert(views(words@) =~= words_of(v@));
    }
    words
}

/// `parts.join(sep)`.
pub fn join(parts: &Vec<String>, sep: &str) -> (r: String)
    ensures
        r@ == join_with(views(parts@), sep@),
{
    let mut r = String::new();
    let mut i: usize = 0;
    while i < parts.len()
        invariant
            i <= parts.len(),
            r@ == join_with(views(parts@).take(i as int), sep@),
        decreases parts.len() - i,
    {
        assert(views(parts@).take(i + 1).drop_last() =~= views(parts@).take(i as int));
        if i > 0 {
            r.append(sep);
        } else {
            assert(views(parts@).take(1) =~= seq![views(parts@)[0]]);
        }
        r.append(parts[i].as_str());
        i += 1;
    }
    assert(views(parts@).take(parts.len() as int) =~= views(parts@));
    r
}

/// `str::split_whitespace().collect::<Vec<_>>().join(" ")`.
pub fn collapse_whitespace(s: &str) -> (r: String)
    ensures
        r@ == collapse_ws(s@),
{
    let w = split_whitespace(s);
    proof {
        reveal_strlit(" ");
    }
    assert(" "@ =~= seq![' ']);
    join(&w, " ")
}


// ---------------------------------------------------------------------------
// ASCII case folding
// ---------------------------------------------------------------------------

/// The code of `c` with ASCII upper-case letters folded to lower case.
pub open spec fn ascii_fold(c: char) -> u32 {
    if 'A' <= c && c <= 'Z' {
        (c as u32 + 32) as u32
    } else {
        c as u32
    }
}

/// `str::eq_ignore_ascii_case`.
pub open spec fn eq_ascii_nocase(a: Seq<char>, b: Seq<char>) -> bool {
    a.len() == b.len() && forall|i: int| 0 <= i < a.len() ==> ascii_fold(#[trigger] a[i]) == ascii_fold(b[i])
}

fn fold_char(c: char) -> (r: u32)
    ensures
        r == ascii_fold(c),
{
    if 'A' <= c && c <= 'Z' {
        (c as u32) + 32
    } else {
        c as u32
    }
}

/// `str::eq_ignore_ascii_case`.
pub fn eq_ignore_ascii_case(a: &str, b: &str) -> (r: bool)
    ensures
        r == eq_ascii_nocase(a@, b@),
{
    let av = chars_of(a);
    let bv = chars_of(b);
    if av.len() != bv.len() {
        return false;
    }
    let mut i: usize = 0;
    while i < av.len()
        invariant
            av.len() == bv.len(),
            av@ == a@,
            bv@ == b@,
            i <= av.len(),
            forall|k: int| 0 <= k < i ==> ascii_fold(#[trigger] av@[k]) == ascii_fold(bv@[k]),
        decreases av.len() - i,
    {
        if fold_char(av[i]) != fold_char(bv[i]) {
            assert(ascii_fold(av@[i as int]) != ascii_fold(bv@[i as int]));
            return false;
        }
        i += 1;
    }
    true
}

// ---------------------------------------------------------------------------
// Lexicographic order and sorted sets of strings
// ---------------------------------------------------------------------------

/// `a < b` for `String`s: lexicographic by code point (the byte order of UTF-8).
pub open spec fn str_less(a: Seq<char>, b: Seq<char>) -> bool
    decreases a.len(),
{
    if a.len() == 0 {
        b.len() > 0
    } else if b.len() == 0 {
        false
    } else if a[0] != b[0] {
        (a[0] as u32) < (b[0] as u32)
    } else {
        str_less(a.drop_first(), b.drop_first())
    }
}

/// `str_less` is irreflexive.
pub proof fn lemma_less_irrefl(a: Seq<char>)
    ensures
        !str_less(a, a),
    decreases a.len(),
{
    if a.len() > 0 {
        lemma_less_irrefl(a.drop_first());
    }
}

/// `str_less` is transitive.
pub proof fn lemma_less_trans(a: Seq<char>, b: Seq<char>, c: Seq<char>)
    requires
        str_less(a, b),
        str_less(b, c),
    ensures
        str_less(a, c),
    decreases a.len(),
{
    if a.len() > 0 && b.len() > 0 && c.len() > 0 && a[0] == b[0] && b[0] == c[0] {
        lemma_less_trans(a.drop_first(), b.drop_first(), c.drop_first());
    }
}

/// `str_less` is total on distinct strings and asymmetric.
pub proof fn lemma_less_total(a: Seq<char>, b: Seq<char>)
    ensures
        a != b ==> (str_less(a, b) || str_less(b, a)),
        !(str_less(a, b) && str_less(b, a)),
    decreases a.len(),
{
    if a.len() > 0 && b.len() > 0 {
        if a[0] == b[0] {
            lemma_less_total(a.drop_first(), b.drop_first());
            if a != b {
                assert(a =~= seq![a[0]] + a.drop_first());
                assert(b =~= seq![b[0]] + b.drop_first());
            }
        } else {
            vstd::utf8::char_u32_cast(a[0], a[0] as u32);
            vstd::utf8::char_u32_cast(b[0], b[0] as u32);
        }
    } else if a.len() == 0 && b.len() == 0 {
        assert(a =~= b);
    }
}

proof fn lemma_less_common_prefix(a: Seq<char>, b: Seq<char>, k: int)
    requires
        0 <= k <= a.len(),
        k <= b.len(),
        a.take(k) == b.take(k),
    ensures
        str_less(a, b) == str_less(a.skip(k), b.skip(k)),
    decreases k,
{
    if k > 0 {
        assert(a[0] == a.take(k)[0]);
        assert(b[0] == b.take(k)[0]);
        assert(a.drop_first().take(k - 1) =~= a.take(k).drop_first());
        assert(b.drop_first().take(k - 1) =~= b.take(k).drop_first());
        lemma_less_common_prefix(a.drop_first(), b.drop_first(), k - 1);
        assert(a.drop_first().skip(k - 1) =~= a.skip(k));
        assert(b.drop_first().skip(k - 1) =~= b.skip(k));
    } else {
        assert(a.skip(0) =~= a);
        assert(b.skip(0) =~= b);
    }
}

/// `a < b` for strings.
pub fn less(a: &str, b: &str) -> (r: bool)
    ensures
        r == str_less(a@, b@),
{
    let av = chars_of(a);
    let bv = chars_of(b);
    let mut k: usize = 0;
    while k < av.len() && k < bv.len() && av[k] == bv[k]
        invariant
            k <= av.len(),
            k <= bv.len(),
            av@.take(k as int) == bv@.take(k as int),
        decreases av.len() - k,
    {
        assert(av@.take(k + 1) =~= av@.take(k as int).push(av@[k as int]));
        assert(bv@.take(k + 1) =~= bv@.take(k as int).push(bv@[k as int]));
        k += 1;
    }
    proof {
        lemma_less_common_prefix(av@, bv@, k as int);
    }
    if k == av.len() {
        k < bv.len()
    } else if k == bv.len() {
        false
    } else {
        assert(av@.skip(k as int)[0] == av@[k as int]);
        assert(bv@.skip(k as int)[0] == bv@[k as int]);
        (av[k] as u32) < (bv[k] as u32)
    }
}

/// The strings `s` are in strictly increasing order (so without repeats).
pub open spec fn strictly_sorted(s: Seq<Seq<char>>) -> bool {
    forall|i: int, j: int| 0 <= i < j < s.len() ==> str_less(#[trigger] s[i], #[trigger] s[j])
}

/// Inserts `x` into the strictly sorted `v`, keeping it strictly sorted
/// (`BTreeSet::insert`); nothing changes when `x` is already there.
pub fn sorted_insert(v: &mut Vec<String>, x: String)
    requires
        strictly_sorted(views(old(v)@)),
    ensures
        strictly_sorted(views(final(v)@)),
        views(final(v)@).to_set() == views(old(v)@).to_set().insert(x@),
{
    let ghost old_v = views(v@);
    let mut i: usize = 0;
    while i < v.len() && less(v[i].as_str(), x.as_str())
        invariant
            i <= v.len(),
            views(v@) == old_v,
            strictly_sorted(old_v),
            forall|k: int| 0 <= k < i ==> str_less(#[trigger] old_v[k], x@),
        decreases v.len() - i,
    {
        i += 1;
    }
    if i < v.len() && str_eq(v[i].as_str(), x.as_str()) {
        assert(old_v.to_set().insert(x@) =~= old_v.to_set()) by {
            assert(old_v[i as int] == x@);
        }
        return;
    }
    proof {
        if i < v.len() {
            lemma_less_total(old_v[i as int], x@);
        }
    }
    let ghost xv = x@;
    v.insert(i, x);
    let ghost nv = views(v@);
    assert(nv =~= old_v.insert(i as int, xv));
    assert forall|k: int| i <= k < old_v.len() implies str_less(xv, #[trigger] old_v[k]) by {
        if k > i {
            assert(str_less(old_v[i as int], old_v[k]));
            lemma_less_trans(xv, old_v[i as int], old_v[k]);
        }
    }
    assert forall|a: int, b: int| 0 <= a < b < nv.len() implies str_less(
        #[trigger] nv[a],
        #[trigger] nv[b],
    ) by {
        if b < i {
        } else if a < i && b == i {
        } else if a < i && b > i {
            lemma_less_trans(old_v[a], xv, old_v[b - 1]);
        } else if a == i {
        } else {
        }
    }
    assert(nv.to_set() =~= old_v.to_set().insert(xv)) by {
        assert forall|e: Seq<char>| nv.to_set().contains(e) implies old_v.to_set().insert(
            xv,
        ).contains(e) by {
            let k = choose|k: int| 0 <= k < nv.len() && nv[k] == e;
            if k < i {
                assert(old_v[k] == e);
            } else if k > i {
                assert(old_v[k - 1] == e);
            }
        }
        assert forall|e: Seq<char>| old_v.to_set().insert(xv).contains(e) implies nv.to_set().contains(
            e,
        ) by {
            if e == xv {
                assert(nv[i as int] == e);
            } else {
                let k = choose|k: int| 0 <= k < old_v.len() && old_v[k] == e;
                if k < i {
                    assert(nv[k] == e);
                } else {
                    assert(nv[k + 1] == e);
                }
            }
        }
    }
}

/// Whether some string in `v` equals `x` (`slice::contains`).
pub fn vec_has(v: &Vec<String>, x: &str) -> (r: bool)
    ensures
        r == views(v@).contains(x@),
{
    let mut i: usize = 0;
    while i < v.len()
        invariant
            i <= v.len(),
            forall|k: int| 0 <= k < i ==> views(v@)[k] != x@,
        decreases v.len() - i,
    {
        if str_eq(v[i].as_str(), x) {
            assert(views(v@)[i as int] == x@);
            return true;
        }
        i += 1;
    }
    false
}


/// The piece after the last occurrence of `c` (`split(c).next_back()`).
pub fn last_piece(s: &str, c: char) -> (r: String)
    ensures
        r@ == split_on(s@, c).last(),
{
    let parts = split_char(s, c);
    proof {
        lemma_split_on_nonempty(s@, c);
    }
    let n = parts.len();
    assert(views(parts@)[n - 1] == parts@[n - 1]@);
    copy_str(parts[n - 1].as_str())
}

/// The second piece of `split(c)` (`split(c).nth(1)`), if there is one.
pub fn second_piece(s: &str, c: char) -> (r: Option<String>)
    ensures
        match r {
            Some(t) => split_on(s@, c).len() > 1 && t@ == split_on(s@, c)[1],
            None => split_on(s@, c).len() <= 1,
        },
{
    let parts = split_char(s, c);
    if parts.len() > 1 {
        assert(views(parts@)[1] == parts@[1]@);
        Some(copy_str(parts[1].as_str()))
    } else {
        None
    }
}


/// The characters of an optional string slice.
pub open spec fn opt_str_view(o: Option<&str>) -> Option<Seq<char>> {
    match o {
        Some(s) => Some(s@),
        None => None,
    }
}

/// The characters of an optional string.
pub open spec fn opt_view(o: Option<String>) -> Option<Seq<char>> {
    match o {
        Some(s) => Some(s@),
        None => None,
    }
}

/// A copy of an optional string.
pub fn copy_opt(o: &Option<String>) -> (r: Option<String>)
    ensures
        opt_view(r) == opt_view(*o),
{
    match o {
        Some(s) => Some(copy_str(s.as_str())),
        None => None,
    }
}


/// The values that the `Some` entries of `s` hold.
pub open spec fn somes<T>(s: Seq<Option<T>>) -> Set<T> {
    Set::new(|x: T| s.contains(Some(x)))
}

/// Appending an entry adds its value, if it has one.
pub proof fn lemma_somes_push<T>(s: Seq<Option<T>>, o: Option<T>)
    ensures
        somes(s.push(o)) == match o {
            Some(x) => somes(s).insert(x),
            None => somes(s),
        },
{
    let t = s.push(o);
    match o {
        Some(x) => {
            assert forall|y: T| somes(t).contains(y) implies somes(s).insert(x).contains(y) by {
                let k = choose|k: int| 0 <= k < t.len() && t[k] == Some(y);
                if k < s.len() {
                    assert(s[k] == Some(y));
                }
            }
            assert forall|y: T| somes(s).insert(x).contains(y) implies somes(t).contains(y) by {
                if y == x {
                    assert(t[s.len() as int] == Some(y));
                } else {
                    let k = choose|k: int| 0 <= k < s.len() && s[k] == Some(y);
                    assert(t[k] == Some(y));
                }
            }
            assert(somes(t) =~= somes(s).insert(x));
        },
        None => {
            assert forall|y: T| somes(t).contains(y) implies somes(s).contains(y) by {
                let k = choose|k: int| 0 <= k < t.len() && t[k] == Some(y);
                if k < s.len() {
                    assert(s[k] == Some(y));
                }
            }
            assert forall|y: T| somes(s).contains(y) implies somes(t).contains(y) by {
                let k = choose|k: int| 0 <= k < s.len() && s[k] == Some(y);
                assert(t[k] == Some(y));
            }
            assert(somes(t) =~= somes(s));
        },
    }
}

/// `list` with each of `items` appended, in order, unless already present.
pub open spec fn push_new(list: Seq<Seq<char>>, items: Seq<Seq<char>>) -> Seq<Seq<char>>
    decreases items.len(),
{
    if items.len() == 0 {
        list
    } else {
        let r = push_new(list, items.drop_last());
        if r.contains(items.last()) {
            r
        } else {
            r.push(items.last())
        }
    }
}


/// Two strictly sorted sequences with the same elements are the same sequence.
pub proof fn lemma_sorted_unique(a: Seq<Seq<char>>, b: Seq<Seq<char>>)
    requires
        strictly_sorted(a),
        strictly_sorted(b),
        a.to_set() == b.to_set(),
    ensures
        a == b,
    decreases a.len(),
{
    if a.len() == 0 {
        if b.len() > 0 {
            assert(b.to_set().contains(b[0]));
            assert(!a.to_set().contains(b[0]));
        }
        assert(a =~= b);
    } else {
        assert(a.to_set().contains(a[0]));
        assert(b.to_set().contains(a[0]));
        let j = choose|j: int| 0 <= j < b.len() && b[j] == a[0];
        assert(b.to_set().contains(b[0]));
        assert(a.to_set().contains(b[0]));
        let i = choose|i: int| 0 <= i < a.len() && a[i] == b[0];
        if i > 0 {
            assert(str_less(a[0], a[i]));
            if j > 0 {
                assert(str_less(b[0], b[j]));
                lemma_less_total(a[0], b[0]);
            }
        }
        assert(a[0] == b[0]) by {
            if i > 0 && j > 0 {
                lemma_less_total(a[0], b[0]);
            } else if i > 0 {
                lemma_less_irrefl(a[0]);
            } else if j > 0 {
                lemma_less_irrefl(b[0]);
            }
        }
        let a1 = a.drop_first();
        let b1 = b.drop_first();
        assert forall|x: Seq<char>| a1.to_set().contains(x) implies b1.to_set().contains(x) by {
            let k = choose|k: int| 0 <= k < a1.len() && a1[k] == x;
            assert(str_less(a[0], a[k + 1]));
            lemma_less_irrefl(a[0]);
            assert(b.to_set().contains(x));
            let m = choose|m: int| 0 <= m < b.len() && b[m] == x;
            assert(m != 0);
            assert(b1[m - 1] == x);
        }
        assert forall|x: Seq<char>| b1.to_set().contains(x) implies a1.to_set().contains(x) by {
            let k = choose|k: int| 0 <= k < b1.len() && b1[k] == x;
            assert(str_less(b[0], b[k + 1]));
            lemma_less_irrefl(b[0]);
            assert(a.to_set().contains(x));
            let m = choose|m: int| 0 <= m < a.len() && a[m] == x;
            assert(m != 0);
            assert(a1[m - 1] == x);
        }
        assert(a1.to_set() =~= b1.to_set());
        assert forall|p: int, q: int| 0 <= p < q < a1.len() implies str_less(#[trigger] a1[p], #[trigger] a1[q]) by {
            assert(str_less(a[p + 1], a[q + 1]));
        }
        assert forall|p: int, q: int| 0 <= p < q < b1.len() implies str_less(#[trigger] b1[p], #[trigger] b1[q]) by {
            assert(str_less(b[p + 1], b[q + 1]));
        }
        lemma_sorted_unique(a1, b1);
        assert(a =~= seq![a[0]] + a1);
        assert(b =~= seq![b[0]] + b1);
    }
}

/// The strictly sorted arrangement of a finite set of strings.
pub open spec fn sorted_of(s: Set<Seq<char>>) -> Seq<Seq<char>> {
    choose|q: Seq<Seq<char>>| strictly_sorted(q) && q.to_set() == s
}

/// A strictly sorted sequence is the sorted arrangement of its elements.
pub proof fn lemma_is_sorted_of(q: Seq<Seq<char>>)
    requires
        strictly_sorted(q),
    ensures
        sorted_of(q.to_set()) == q,
{
    let r = sorted_of(q.to_set());
    assert(strictly_sorted(q) && q.to_set() == q.to_set());
    lemma_sorted_unique(r, q);
}


/// `q` with `x` placed before the first element it is less than.
pub open spec fn insert_sorted(q: Seq<Seq<char>>, x: Seq<char>) -> Seq<Seq<char>>
    decreases q.len(),
{
    if q.len() == 0 {
        seq![x]
    } else if str_less(x, q[0]) {
        seq![x] + q
    } else {
        seq![q[0]] + insert_sorted(q.drop_first(), x)
    }
}

/// Placing a new string into a strictly sorted sequence keeps it strictly
/// sorted and adds just that string.
proof fn lemma_insert_sorted(q: Seq<Seq<char>>, x: Seq<char>)
    requires
        strictly_sorted(q),
        !q.contains(x),
    ensures
        strictly_sorted(insert_sorted(q, x)),
        insert_sorted(q, x).to_set() == q.to_set().insert(x),
    decreases q.len(),
{
    let r = insert_sorted(q, x);
    if q.len() == 0 {
        assert(r.to_set() =~= q.to_set().insert(x)) by {
            assert(r[0] == x);
        }
    } else if str_less(x, q[0]) {
        assert forall|i: int, j: int| 0 <= i < j < r.len() implies str_less(#[trigger] r[i], #[trigger] r[j]) by {
            if i == 0 {
                if j > 1 {
                    assert(str_less(q[0], q[j - 1]));
                    lemma_less_trans(x, q[0], q[j - 1]);
                }
            } else {
                assert(r[i] == q[i - 1] && r[j] == q[j - 1]);
            }
        }
        assert forall|y: Seq<char>| r.to_set().contains(y) <==> q.to_set().insert(x).contains(y) by {
            if r.to_set().contains(y) {
                let k = choose|k: int| 0 <= k < r.len() && r[k] == y;
                if k > 0 {
                    assert(q[k - 1] == y);
                }
            }
            if q.to_set().contains(y) {
                let k = choose|k: int| 0 <= k < q.len() && q[k] == y;
                assert(r[k + 1] == y);
            }
            if y == x {
                assert(r[0] == y);
            }
        }
        assert(r.to_set() =~= q.to_set().insert(x));
    } else {
        let t = q.drop_first();
        assert(!t.contains(x)) by {
            if t.contains(x) {
                let k = choose|k: int| 0 <= k < t.len() && t[k] == x;
                assert(q[k + 1] == x);
            }
        }
        assert(strictly_sorted(t)) by {
            assert forall|i: int, j: int| 0 <= i < j < t.len() implies str_less(#[trigger] t[i], #[trigger] t[j]) by {
                assert(t[i] == q[i + 1] && t[j] == q[j + 1]);
            }
        }
        lemma_insert_sorted(t, x);
        let rt = insert_sorted(t, x);
        assert(r == seq![q[0]] + rt);
        assert(q[0] != x) by {
            assert(q[0] == q[0]);
        }
        lemma_less_total(x, q[0]);
        assert forall|k: int| 0 <= k < rt.len() implies str_less(q[0], #[trigger] rt[k]) by {
            assert(rt.to_set().contains(rt[k]));
            if rt[k] != x {
                assert(t.to_set().contains(rt[k]));
                let m = choose|m: int| 0 <= m < t.len() && t[m] == rt[k];
                assert(str_less(q[0], q[m + 1]));
            }
        }
        assert forall|i: int, j: int| 0 <= i < j < r.len() implies str_less(#[trigger] r[i], #[trigger] r[j]) by {
            if i == 0 {
                assert(r[j] == rt[j - 1]);
            } else {
                assert(r[i] == rt[i - 1] && r[j] == rt[j - 1]);
            }
        }
        assert forall|y: Seq<char>| r.to_set().contains(y) <==> q.to_set().insert(x).contains(y) by {
            if r.to_set().contains(y) {
                let k = choose|k: int| 0 <= k < r.len() && r[k] == y;
                if k > 0 {
                    assert(rt[k - 1] == y);
                    assert(rt.to_set().contains(y));
                    if y != x {
                        assert(t.to_set().contains(y));
                        let m = choose|m: int| 0 <= m < t.len() && t[m] == y;
                        assert(q[m + 1] == y);
                    }
                }
            }
            if q.to_set().contains(y) {
                let k = choose|k: int| 0 <= k < q.len() && q[k] == y;
                if k == 0 {
                    assert(r[0] == y);
                } else {
                    assert(t[k - 1] == y);
                    assert(rt.to_set().contains(y));
                    let m = choose|m: int| 0 <= m < rt.len() && rt[m] == y;
                    assert(r[m + 1] == y);
                }
            }
            if y == x {
                assert(rt.to_set().contains(x));
                let m = choose|m: int| 0 <= m < rt.len() && rt[m] == x;
                assert(r[m + 1] == x);
            }
        }
        assert(r.to_set() =~= q.to_set().insert(x));
    }
}

/// Every finite set of strings has its strictly sorted arrangement, which
/// lists each element once: the sorted, repeat-free lists of the spec file
/// (requirements, documentation and license files, systemd units) exist and
/// are unique.
pub proof fn law_sorted_arrangement(s: Set<Seq<char>>)
    requires
        s.finite(),
    ensures
        strictly_sorted(sorted_of(s)),
        sorted_of(s).to_set() == s,
        sorted_of(s).no_duplicates(),
    decreases s.len(),
{
    if s.len() == 0 {
        let e = Seq::<Seq<char>>::empty();
        assert(e.to_set() =~= s);
        assert(strictly_sorted(e) && e.to_set() == s);
    } else {
        let x = s.choose();
        law_sorted_arrangement(s.remove(x));
        let q = sorted_of(s.remove(x));
        assert(!q.contains(x)) by {
            if q.contains(x) {
                let k = choose|k: int| 0 <= k < q.len() && q[k] == x;
                assert(q.to_set().contains(x));
            }
        }
        lemma_insert_sorted(q, x);
        let r = insert_sorted(q, x);
        assert(r.to_set() =~= s);
        assert(strictly_sorted(r) && r.to_set() == s);
    }
    let a = sorted_of(s);
    assert forall|i: int, j: int| 0 <= i < a.len() && 0 <= j < a.len() && i != j implies a[i] != a[j] by {
        if i < j {
            assert(str_less(a[i], a[j]));
        } else {
            assert(str_less(a[j], a[i]));
        }
        lemma_less_irrefl(a[i]);
    }
}


/// `c` occurs nowhere in `s`.
pub open spec fn lacks(s: Seq<char>, c: char) -> bool {
    forall|k: int| 0 <= k < s.len() ==> s[k] != c
}

proof fn lemma_drop_front_lacks(s: Seq<char>, f: spec_fn(char) -> bool, c: char)
    requires
        lacks(s, c),
    ensures
        lacks(drop_front_while(s, f), c),
    decreases s.len(),
{
    if s.len() > 0 && f(s[0]) {
        assert forall|k: int| 0 <= k < s.drop_first().len() implies s.drop_first()[k] != c by {
            assert(s.drop_first()[k] == s[k + 1]);
        }
        lemma_drop_front_lacks(s.drop_first(), f, c);
    }
}

proof fn lemma_drop_back_lacks(s: Seq<char>, f: spec_fn(char) -> bool, c: char)
    requires
        lacks(s, c),
    ensures
        lacks(drop_back_while(s, f), c),
    decreases s.len(),
{
    if s.len() > 0 && f(s.last()) {
        assert forall|k: int| 0 <= k < s.drop_last().len() implies s.drop_last()[k] != c by {
            assert(s.drop_last()[k] == s[k]);
        }
        lemma_drop_back_lacks(s.drop_last(), f, c);
    }
}

/// Trimming adds no character.
pub proof fn lemma_trim_lacks(s: Seq<char>, c: char)
    requires
        lacks(s, c),
    ensures
        lacks(trim_ws(s), c),
{
    lemma_drop_front_lacks(s, ws(), c);
    lemma_drop_back_lacks(drop_front_while(s, ws()), ws(), c);
}

/// The pieces of `split_on(s, c)` do not hold `c`.
pub proof fn lemma_split_lacks(s: Seq<char>, c: char)
    ensures
        forall|k: int| 0 <= k < split_on(s, c).len() ==> lacks(#[trigger] split_on(s, c)[k], c),
    decreases s.len(),
{
    if s.len() > 0 {
        lemma_split_lacks(s.drop_last(), c);
        lemma_split_on_nonempty(s.drop_last(), c);
        let r = split_on(s.drop_last(), c);
        if s.last() != c {
            let t = r.last().push(s.last());
            assert(lacks(r[r.len() - 1], c));
            assert forall|m: int| 0 <= m < t.len() implies t[m] != c by {
                if m < r.last().len() {
                    assert(t[m] == r.last()[m]);
                }
            }
            assert forall|k: int| 0 <= k < split_on(s, c).len() implies lacks(#[trigger] split_on(s, c)[k], c) by {
                if k < r.len() - 1 {
                    assert(split_on(s, c)[k] == r[k]);
                }
            }
        } else {
            assert forall|k: int| 0 <= k < split_on(s, c).len() implies lacks(#[trigger] split_on(s, c)[k], c) by {
                if k < r.len() {
                    assert(split_on(s, c)[k] == r[k]);
                }
            }
        }
    }
}

/// The lines of a text hold no newline.
pub proof fn lemma_lines_lack_newline(s: Seq<char>)
    ensures
        forall|k: int| 0 <= k < lines_of(s).len() ==> lacks(#[trigger] lines_of(s)[k], '\n'),
{
    lemma_split_lacks(s, '\n');
    lemma_split_on_nonempty(s, '\n');
    let parts = split_on(s, '\n');
    let body = parts.drop_last().map_values(|l: Seq<char>| strip_cr(l));
    assert forall|k: int| 0 <= k < body.len() implies lacks(#[trigger] body[k], '\n') by {
        let l = parts[k];
        assert(lacks(l, '\n'));
        assert forall|m: int| 0 <= m < strip_cr(l).len() implies strip_cr(l)[m] != '\n' by {
            assert(strip_cr(l)[m] == l[m]);
        }
    }
    assert(lacks(parts[parts.len() - 1], '\n'));
    assert forall|k: int| 0 <= k < lines_of(s).len() implies lacks(#[trigger] lines_of(s)[k], '\n') by {
        if k < body.len() {
            assert(lines_of(s)[k] == body[k]);
        }
    }
}

}
