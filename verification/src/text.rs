//! Character-level text operations with their mathematical models.
//!
//! Every executable function here works on `Vec<char>` (or on `&str`,
//! converted once) and is proved equal to a spec function over `Seq<char>`.

use vstd::prelude::*;
use vstd::std_specs::iter::IteratorSpec;

verus! {

broadcast use vstd::string::group_string_axioms;

// ---------------------------------------------------------------------------
// Conversions between strings and character vectors
// ---------------------------------------------------------------------------

/// The characters of a string slice, in order.
pub fn chars_of(s: &str) -> (r: Vec<char>)
    ensures
        r@ == s@,
{
    let mut v: Vec<char> = Vec::new();
    let it0 = s.chars();
    for c in it: it0
        invariant
            it.seq() == s@,
            v@ == it.seq().take(it.index()),
    {
        v.push(c);
    }
    v
}

/// `String::push`: appends one character.
#[verifier::external_body]
fn string_push(s: &mut String, c: char)
    ensures
        final(s)@ == old(s)@.push(c),
{
    s.push(c);
}

/// The string made of the given characters.
pub fn string_of(v: &Vec<char>) -> (r: String)
    ensures
        r@ == v@,
{
    let mut s = String::new();
    let mut i: usize = 0;
    while i < v.len()
        invariant
            i <= v.len(),
            s@ == v@.take(i as int),
        decreases v.len() - i,
    {
        string_push(&mut s, v[i]);
        assert(v@.take(i + 1) =~= v@.take(i as int).push(v@[i as int]));
        i = i + 1;
    }
    assert(v@.take(v.len() as int) =~= v@);
    s
}

/// A one-character vector.
pub fn chars1(a: char) -> (r: Vec<char>)
    ensures
        r@ == seq![a],
{
    let mut r = Vec::new();
    r.push(a);
    assert(r@ =~= seq![a]);
    r
}

/// A two-character vector.
pub fn chars2(a: char, b: char) -> (r: Vec<char>)
    ensures
        r@ == seq![a, b],
{
    let mut r = chars1(a);
    r.push(b);
    assert(r@ =~= seq![a, b]);
    r
}

/// A three-character vector.
pub fn chars3(a: char, b: char, c: char) -> (r: Vec<char>)
    ensures
        r@ == seq![a, b, c],
{
    let mut r = chars2(a, b);
    r.push(c);
    assert(r@ =~= seq![a, b, c]);
    r
}

/// A four-character vector.
pub fn chars4(a: char, b: char, c: char, d: char) -> (r: Vec<char>)
    ensures
        r@ == seq![a, b, c, d],
{
    let mut r = chars3(a, b, c);
    r.push(d);
    assert(r@ =~= seq![a, b, c, d]);
    r
}

/// Appends all characters of `w` to `v`.
pub fn extend_chars(v: &mut Vec<char>, w: &Vec<char>)
    ensures
        final(v)@ == old(v)@ + w@,
{
    let mut i: usize = 0;
    while i < w.len()
        invariant
            i <= w.len(),
            v@ == old(v)@ + w@.take(i as int),
        decreases w.len() - i,
    {
        v.push(w[i]);
        assert(w@.take(i + 1) =~= w@.take(i as int).push(w@[i as int]));
        i = i + 1;
    }
    assert(w@.take(w.len() as int) =~= w@);
}

/// Appends all characters of the string `s` to `v`.
pub fn extend_str(v: &mut Vec<char>, s: &str)
    ensures
        final(v)@ == old(v)@ + s@,
{
    let w = chars_of(s);
    extend_chars(v, &w);
}

/// The characters `v[a..b]`.
pub fn sub_chars(v: &Vec<char>, a: usize, b: usize) -> (r: Vec<char>)
    requires
        a <= b <= v.len(),
    ensures
        r@ == v@.subrange(a as int, b as int),
{
    let mut r: Vec<char> = Vec::new();
    let mut i = a;
    while i < b
        invariant
            a <= i <= b <= v.len(),
            r@ == v@.subrange(a as int, i as int),
        decreases b - i,
    {
        r.push(v[i]);
        assert(v@.subrange(a as int, i + 1) =~= v@.subrange(a as int, i as int).push(v@[i as int]));
        i = i + 1;
    }
    r
}

// ---------------------------------------------------------------------------
// Character classes
// ---------------------------------------------------------------------------

/// Unicode `White_Space`, the property that `char::is_whitespace` tests.
pub open spec fn is_ws(c: char) -> bool {
    let u = c as u32;
    ||| u == 0x20
    ||| 0x09 <= u <= 0x0d
    ||| u == 0x85
    ||| u == 0xa0
    ||| u == 0x1680
    ||| 0x2000 <= u <= 0x200a
    ||| u == 0x2028
    ||| u == 0x2029
    ||| u == 0x202f
    ||| u == 0x205f
    ||| u == 0x3000
}

/// Decides `is_ws`.
pub fn is_whitespace(c: char) -> (b: bool)
    ensures
        b == is_ws(c),
{
    let u = c as u32;
    u == 0x20 || (0x09 <= u && u <= 0x0d) || u == 0x85 || u == 0xa0 || u == 0x1680 || (0x2000
        <= u && u <= 0x200a) || u == 0x2028 || u == 0x2029 || u == 0x202f || u == 0x205f || u
        == 0x3000
}

/// ASCII lower-casing of one character (`char::to_ascii_lowercase`).
pub open spec fn ascii_lower(c: char) -> char {
    if 'A' <= c <= 'Z' {
        ((c as u32) + 32) as char
    } else {
        c
    }
}

/// Computes `ascii_lower`.
pub fn to_ascii_lower(c: char) -> (r: char)
    ensures
        r == ascii_lower(c),
{
    if 'A' <= c && c <= 'Z' {
        let u = (c as u32) + 32;
        assert(0x61 <= u <= 0x7a);
        u as u8 as char
    } else {
        c
    }
}

// ---------------------------------------------------------------------------
// Prefixes and searching
// ---------------------------------------------------------------------------

/// `s` begins with `pat`.
pub open spec fn starts_with(s: Seq<char>, pat: Seq<char>) -> bool {
    pat.len() <= s.len() && s.take(pat.len() as int) == pat
}

/// `s` begins with `pat` when both are ASCII-lower-cased.
pub open spec fn starts_with_ci(s: Seq<char>, pat: Seq<char>) -> bool {
    &&& pat.len() <= s.len()
    &&& forall|i: int| 0 <= i < pat.len() ==> ascii_lower(#[trigger] s[i]) == ascii_lower(pat[i])
}

/// The first index at which `pat` occurs in `s`.
pub open spec fn find(s: Seq<char>, pat: Seq<char>) -> Option<int>
    decreases s.len(),
{
    if starts_with(s, pat) {
        Some(0)
    } else if s.len() == 0 {
        None
    } else {
        match find(s.skip(1), pat) {
            Some(i) => Some(i + 1),
            None => None,
        }
    }
}

/// `pat` occurs somewhere in `s`.
pub open spec fn contains(s: Seq<char>, pat: Seq<char>) -> bool {
    find(s, pat) is Some
}

/// Shifts an optional index by `k`.
pub open spec fn shift(o: Option<int>, k: int) -> Option<int> {
    match o {
        Some(i) => Some(i + k),
        None => None,
    }
}

/// Skipping positions that do not start a match shifts the first match.
pub proof fn lemma_find_skip(s: Seq<char>, pat: Seq<char>, k: int)
    requires
        0 <= k <= s.len(),
        forall|j: int| 0 <= j < k ==> !starts_with(#[trigger] s.skip(j), pat),
    ensures
        find(s, pat) == shift(find(s.skip(k), pat), k),
    decreases k,
{
    if k > 0 {
        assert(s.skip(0) =~= s);
        assert forall|j: int| 0 <= j < k - 1 implies !starts_with(#[trigger] s.skip(1).skip(j), pat) by {
            assert(s.skip(1).skip(j) =~= s.skip(j + 1));
        }
        lemma_find_skip(s.skip(1), pat, k - 1);
        assert(s.skip(1).skip(k - 1) =~= s.skip(k));
    } else {
        assert(s.skip(0) =~= s);
    }
}

/// A match at `k` after `k` non-matching positions is the first match.
pub proof fn lemma_find_at(s: Seq<char>, pat: Seq<char>, k: int)
    requires
        0 <= k <= s.len(),
        forall|j: int| 0 <= j < k ==> !starts_with(#[trigger] s.skip(j), pat),
        starts_with(s.skip(k), pat),
    ensures
        find(s, pat) == Some(k),
{
    lemma_find_skip(s, pat, k);
}

/// `pat` starts at position `k` of `v`.
fn matches_at(v: &Vec<char>, pat: &Vec<char>, k: usize) -> (b: bool)
    requires
        k <= v.len(),
    ensures
        b == starts_with(v@.skip(k as int), pat@),
{
    if pat.len() > v.len() - k {
        return false;
    }
    let mut i: usize = 0;
    while i < pat.len()
        invariant
            pat.len() <= v.len() - k,
            i <= pat.len(),
            forall|j: int| 0 <= j < i ==> v@[k + j] == pat@[j],
        decreases pat.len() - i,
    {
        if v[k + i] != pat[i] {
            assert(v@.skip(k as int).take(pat.len() as int)[i as int] != pat@[i as int]);
            return false;
        }
        i = i + 1;
    }
    assert(v@.skip(k as int).take(pat.len() as int) =~= pat@);
    true
}

/// The first occurrence of `pat` in `v` at or after `from`.
pub fn find_from(v: &Vec<char>, pat: &Vec<char>, from: usize) -> (r: Option<usize>)
    requires
        from <= v.len(),
    ensures
        match r {
            Some(i) => from <= i <= v.len() && find(v@.skip(from as int), pat@) == Some(i - from),
            None => find(v@.skip(from as int), pat@) is None,
        },
{
    let mut k = from;
    let ghost t = v@.skip(from as int);
    loop
        invariant
            from <= k <= v.len(),
            t == v@.skip(from as int),
            forall|j: int| 0 <= j < k - from ==> !starts_with(#[trigger] t.skip(j), pat@),
        decreases v.len() - k,
    {
        assert(t.skip(k - from) =~= v@.skip(k as int));
        if matches_at(v, pat, k) {
            proof {
                lemma_find_at(t, pat@, k - from);
            }
            return Some(k);
        }
        if k == v.len() {
            proof {
                lemma_find_skip(t, pat@, k - from);
                assert(t.skip(k - from).len() == 0);
                assert(find(t.skip(k - from), pat@) is None);
            }
            return None;
        }
        k = k + 1;
    }
}

/// Whether `pat` occurs in `v`.
pub fn contains_chars(v: &Vec<char>, pat: &Vec<char>) -> (b: bool)
    ensures
        b == contains(v@, pat@),
{
    assert(v@.skip(0) =~= v@);
    find_from(v, pat, 0).is_some()
}

/// Whether `v` begins with `pat`.
pub fn has_prefix(v: &Vec<char>, pat: &Vec<char>) -> (b: bool)
    ensures
        b == starts_with(v@, pat@),
{
    assert(v@.skip(0) =~= v@);
    matches_at(v, pat, 0)
}

/// Whether `v` begins with `pat`, ignoring ASCII case.
pub fn has_prefix_ci(v: &Vec<char>, pat: &Vec<char>) -> (b: bool)
    ensures
        b == starts_with_ci(v@, pat@),
{
    if pat.len() > v.len() {
        return false;
    }
    let mut i: usize = 0;
    while i < pat.len()
        invariant
            pat.len() <= v.len(),
            i <= pat.len(),
            forall|j: int| 0 <= j < i ==> ascii_lower(#[trigger] v@[j]) == ascii_lower(pat@[j]),
        decreases pat.len() - i,
    {
        if to_ascii_lower(v[i]) != to_ascii_lower(pat[i]) {
            return false;
        }
        i = i + 1;
    }
    true
}

// ---------------------------------------------------------------------------
// Trimming and whitespace removal
// ---------------------------------------------------------------------------

/// `s` without its leading white space.
pub open spec fn trim_start(s: Seq<char>) -> Seq<char>
    decreases s.len(),
{
    if s.len() > 0 && is_ws(s[0]) {
        trim_start(s.skip(1))
    } else {
        s
    }
}

/// `s` without its trailing white space.
pub open spec fn trim_end(s: Seq<char>) -> Seq<char>
    decreases s.len(),
{
    if s.len() > 0 && is_ws(s.last()) {
        trim_end(s.drop_last())
    } else {
        s
    }
}

/// `str::trim`: `s` without leading and trailing white space.
pub open spec fn trim(s: Seq<char>) -> Seq<char> {
    trim_end(trim_start(s))
}

/// Computes `trim`.
pub fn trim_chars(v: &Vec<char>) -> (r: Vec<char>)
    ensures
        r@ == trim(v@),
{
    let mut a: usize = 0;
    assert(v@.skip(0) =~= v@);
    while a < v.len() && is_whitespace(v[a])
        invariant
            a <= v.len(),
            trim_start(v@) == trim_start(v@.skip(a as int)),
        decreases v.len() - a,
    {
        assert(v@.skip(a as int).skip(1) =~= v@.skip(a + 1));
        a = a + 1;
    }
    let ghost t = v@.skip(a as int);
    assert(trim_start(v@) == t);
    let mut b: usize = v.len();
    assert(t.take(t.len() as int) =~= t);
    while b > a && is_whitespace(v[b - 1])
        invariant
            a <= b <= v.len(),
            t == v@.skip(a as int),
            trim_end(t) == trim_end(t.take(b - a)),
        decreases b,
    {
        assert(t.take(b - a).drop_last() =~= t.take(b - a - 1));
        b = b - 1;
    }
    assert(t.take(b - a) =~= v@.subrange(a as int, b as int));
    sub_chars(v, a, b)
}

/// `s` with every white-space character removed.
pub open spec fn remove_ws(s: Seq<char>) -> Seq<char>
    decreases s.len(),
{
    if s.len() == 0 {
        s
    } else if is_ws(s.last()) {
        remove_ws(s.drop_last())
    } else {
        remove_ws(s.drop_last()).push(s.last())
    }
}

/// Computes `remove_ws` (`split_whitespace` followed by concatenation).
pub fn remove_ws_chars(v: &Vec<char>) -> (r: Vec<char>)
    ensures
        r@ == remove_ws(v@),
{
    let mut r: Vec<char> = Vec::new();
    let mut i: usize = 0;
    assert(v@.take(0) =~= Seq::<char>::empty());
    while i < v.len()
        invariant
            i <= v.len(),
            r@ == remove_ws(v@.take(i as int)),
        decreases v.len() - i,
    {
        assert(v@.take(i + 1).drop_last() =~= v@.take(i as int));
        if !is_whitespace(v[i]) {
            r.push(v[i]);
        }
        i = i + 1;
    }
    assert(v@.take(v.len() as int) =~= v@);
    r
}

/// A match found by `find` lies inside `s`.
pub proof fn lemma_find_bound(s: Seq<char>, pat: Seq<char>)
    ensures
        find(s, pat) matches Some(i) ==> 0 <= i && i + pat.len() <= s.len() && starts_with(
            s.skip(i),
            pat,
        ),
    decreases s.len(),
{
    if starts_with(s, pat) {
        assert(s.skip(0) =~= s);
    } else if s.len() > 0 {
        lemma_find_bound(s.skip(1), pat);
        if let Some(i) = find(s.skip(1), pat) {
            assert(s.skip(1).skip(i) =~= s.skip(i + 1));
        }
    }
}

// ---------------------------------------------------------------------------
// Replacing, splitting into lines and fields
// ---------------------------------------------------------------------------

/// `str::replace` for a non-empty pattern: every non-overlapping occurrence of
/// `pat`, scanning from the left, replaced by `rep`.
pub open spec fn replace_all(s: Seq<char>, pat: Seq<char>, rep: Seq<char>) -> Seq<char>
    decreases s.len(),
{
    if s.len() == 0 {
        s
    } else if pat.len() > 0 && starts_with(s, pat) {
        rep + replace_all(s.skip(pat.len() as int), pat, rep)
    } else {
        seq![s[0]] + replace_all(s.skip(1), pat, rep)
    }
}

/// Computes `replace_all`.
pub fn replace_chars(v: &Vec<char>, pat: &Vec<char>, rep: &Vec<char>) -> (r: Vec<char>)
    requires
        pat.len() > 0,
    ensures
        r@ == replace_all(v@, pat@, rep@),
{
    let mut out: Vec<char> = Vec::new();
    let mut i: usize = 0;
    assert(v@.skip(0) =~= v@);
    while i < v.len()
        invariant
            pat.len() > 0,
            i <= v.len(),
            out@ + replace_all(v@.skip(i as int), pat@, rep@) == replace_all(v@, pat@, rep@),
        decreases v.len() - i,
    {
        let ghost t = v@.skip(i as int);
        let ghost o = out@;
        if matches_at(v, pat, i) {
            assert(t.skip(pat.len() as int) =~= v@.skip(i + pat.len()));
            extend_chars(&mut out, rep);
            assert(o + (rep@ + replace_all(t.skip(pat.len() as int), pat@, rep@)) =~= out@
                + replace_all(t.skip(pat.len() as int), pat@, rep@));
            i = i + pat.len();
        } else {
            assert(t.skip(1) =~= v@.skip(i + 1));
            out.push(v[i]);
            assert(o + (seq![t[0]] + replace_all(t.skip(1), pat@, rep@)) =~= out@ + replace_all(
                t.skip(1),
                pat@,
                rep@,
            ));
            i = i + 1;
        }
    }
    assert(v@.skip(i as int) =~= Seq::<char>::empty());
    assert(out@ + Seq::<char>::empty() =~= out@);
    out
}

/// A line without the carriage return that ended it.
pub open spec fn strip_cr(l: Seq<char>) -> Seq<char> {
    if l.len() > 0 && l.last() == '\r' {
        l.drop_last()
    } else {
        l
    }
}

/// `str::lines`: the text split at `\n`, each line stripped of a `\r` that
/// precedes its `\n`; a final line ending adds no empty line.
pub open spec fn lines(s: Seq<char>) -> Seq<Seq<char>>
    decreases s.len(),
{
    if s.len() == 0 {
        seq![]
    } else {
        match find(s, seq!['\n']) {
            Some(i) => {
                proof {
                    lemma_find_bound(s, seq!['\n']);
                }
                seq![strip_cr(s.take(i))] + lines(s.skip(i + 1))
            },
            None => seq![s],
        }
    }
}

/// `str::split` at a single character: the pieces between separators.
pub open spec fn split(s: Seq<char>, c: char) -> Seq<Seq<char>>
    decreases s.len(),
{
    match find(s, seq![c]) {
        Some(i) => {
            proof {
                lemma_find_bound(s, seq![c]);
            }
            seq![s.take(i)] + split(s.skip(i + 1), c)
        },
        None => seq![s],
    }
}

// ---------------------------------------------------------------------------
// Decimal numbers
// ---------------------------------------------------------------------------

/// The decimal digit for `d < 10`.
pub open spec fn digit(d: nat) -> char {
    (48 + d) as char
}

/// The decimal representation of `n`, as `to_string` writes it.
pub open spec fn decimal(n: nat) -> Seq<char>
    decreases n,
{
    if n < 10 {
        seq![digit(n)]
    } else {
        decimal(n / 10).push(digit(n % 10))
    }
}

/// Appends the decimal representation of `n` to `out`.
pub fn push_decimal(out: &mut Vec<char>, n: u64)
    ensures
        final(out)@ == old(out)@ + decimal(n as nat),
    decreases n,
{
    if n >= 10 {
        push_decimal(out, n / 10);
    }
    let d = (n % 10) as u8;
    let c = (48u8 + d) as char;
    assert(c == digit((n % 10) as nat));
    let ghost before = out@;
    out.push(c);
    if n >= 10 {
        assert(out@ =~= old(out)@ + decimal((n / 10) as nat).push(digit((n % 10) as nat)));
    } else {
        assert(out@ =~= old(out)@ + seq![digit(n as nat)]);
    }
}

} // verus!
