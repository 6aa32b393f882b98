//! Text as sequences of Unicode scalars: UTF-8 widths and byte offsets,
//! trimming, prefixes and substring search on spans of a `Vec<char>`, and
//! the std string calls that the library makes.

use vstd::prelude::*;
use vstd::utf8::*;

verus! {

/// Byte offset of the scalar at index `i` in the UTF-8 encoding of `s`.
pub open spec fn byte_offset(s: Seq<char>, i: int) -> nat {
    encode_utf8(s.take(i)).len()
}

/// Bytes that `c` takes in UTF-8.
pub open spec fn char_width(c: char) -> nat {
    encode_scalar(c as u32).len()
}

/// A scalar takes 1 to 4 bytes, by the ranges of its value.
pub proof fn lemma_char_width(c: char)
    ensures
        1 <= char_width(c) <= 4,
        (c as u32) < 0x80 ==> char_width(c) == 1,
        0x80 <= (c as u32) < 0x800 ==> char_width(c) == 2,
        0x800 <= (c as u32) < 0x10000 ==> char_width(c) == 3,
        0x10000 <= (c as u32) ==> char_width(c) == 4,
{
    char_is_scalar(c);
}

/// The encoding of a concatenation is the concatenation of the encodings.
pub proof fn lemma_encode_concat(a: Seq<char>, b: Seq<char>)
    ensures
        encode_utf8(a + b) == encode_utf8(a) + encode_utf8(b),
    decreases a.len(),
{
    if a.len() == 0 {
        assert(a + b =~= b);
        assert(encode_utf8(a) =~= Seq::<u8>::empty());
        assert(encode_utf8(a) + encode_utf8(b) =~= encode_utf8(b));
    } else {
        assert((a + b).drop_first() =~= a.drop_first() + b);
        lemma_encode_concat(a.drop_first(), b);
        assert((a + b)[0] == a[0]);
        assert(encode_utf8(a + b) =~= encode_scalar(a[0] as u32) + (encode_utf8(a.drop_first())
            + encode_utf8(b)));
    }
}

/// Each scalar takes at least one byte.
pub proof fn lemma_encode_len_ge(s: Seq<char>)
    ensures
        encode_utf8(s).len() >= s.len(),
    decreases s.len(),
{
    if s.len() > 0 {
        lemma_encode_len_ge(s.drop_first());
        lemma_char_width(s[0]);
    }
}

/// Adding one scalar to a prefix adds that scalar's width to its byte offset.
pub proof fn lemma_byte_offset_step(s: Seq<char>, i: int)
    requires
        0 <= i < s.len(),
    ensures
        byte_offset(s, i + 1) == byte_offset(s, i) + char_width(s[i]),
        byte_offset(s, i + 1) <= encode_utf8(s).len(),
{
    assert(s.take(i + 1) =~= s.take(i) + seq![s[i]]);
    lemma_encode_concat(s.take(i), seq![s[i]]);
    let one = seq![s[i]];
    assert(one.drop_first() =~= Seq::<char>::empty());
    assert(encode_utf8(one.drop_first()) =~= Seq::<u8>::empty());
    assert(encode_utf8(one) =~= encode_scalar(one[0] as u32));
    assert(s =~= s.take(i + 1) + s.skip(i + 1));
    lemma_encode_concat(s.take(i + 1), s.skip(i + 1));
}

/// One more scalar adds its width to the encoding.
pub proof fn lemma_encode_push(s: Seq<char>, c: char)
    ensures
        encode_utf8(s.push(c)).len() == encode_utf8(s).len() + char_width(c),
{
    lemma_encode_concat(s, seq![c]);
    assert(s.push(c) =~= s + seq![c]);
    let one = seq![c];
    assert(one.drop_first() =~= Seq::<char>::empty());
    assert(encode_utf8(one.drop_first()) =~= Seq::<u8>::empty());
    assert(encode_utf8(one) =~= encode_scalar(one[0] as u32));
}

/// Whether `s` can take one more scalar `c` without passing the
/// `isize::MAX` bytes that a `String` can hold.
pub fn can_grow(s: &String, c: char) -> (b: bool)
    ensures
        b == (encode_utf8(s@.push(c)).len() <= isize::MAX),
{
    proof {
        lemma_encode_push(s@, c);
    }
    let n = byte_len(s.as_str());
    let w = utf8_width(c);
    n <= (isize::MAX as usize) - w
}

/// Exact byte length of `s`.
pub fn byte_len(s: &str) -> (n: usize)
    ensures
        n == encode_utf8(s@).len(),
        n >= s@.len(),
{
    proof {
        lemma_encode_len_ge(s@);
    }
    s.as_bytes().len()
}

/// Bytes that `c` takes in UTF-8.
pub fn utf8_width(c: char) -> (w: usize)
    ensures
        w == char_width(c),
{
    proof {
        lemma_char_width(c);
    }
    let v = c as u32;
    if v < 0x80 {
        1
    } else if v < 0x800 {
        2
    } else if v < 0x10000 {
        3
    } else {
        4
    }
}

/// `String::insert`: puts `c` at byte offset `idx`. The contract claims
/// what std documents: when `idx` is the offset of the boundary before the
/// scalar at index `k`, the new contents are the first `k` scalars, `c`,
/// then the rest. `requires` leaves out the inputs on which it panics (an
/// offset that is no boundary, or a length past `isize::MAX` bytes).
#[verifier::external_body]
pub(crate) fn string_insert(s: &mut String, idx: usize, c: char)
    requires
        exists|k: int| 0 <= k <= old(s)@.len() && idx == #[trigger] byte_offset(old(s)@, k),
        encode_utf8(old(s)@.push(c)).len() <= isize::MAX,
    ensures
        forall|k: int|
            0 <= k <= old(s)@.len() && idx == #[trigger] byte_offset(old(s)@, k) ==> final(s)@
                == old(s)@.take(k).push(c) + old(s)@.skip(k),
{
    s.insert(idx, c)
}

/// `String::remove`: takes out the scalar that starts at byte offset `idx`
/// and returns it. The contract claims what std documents: when `idx` is the
/// offset of the scalar at index `k`, that scalar is returned and removed.
/// `requires` leaves out the offsets on which it panics (no boundary, or at
/// or past the end).
#[verifier::external_body]
pub(crate) fn string_remove(s: &mut String, idx: usize) -> (r: char)
    requires
        exists|k: int| 0 <= k < old(s)@.len() && idx == #[trigger] byte_offset(old(s)@, k),
    ensures
        forall|k: int|
            0 <= k < old(s)@.len() && idx == #[trigger] byte_offset(old(s)@, k) ==> {
                &&& r == old(s)@[k]
                &&& final(s)@ == old(s)@.remove(k)
            },
{
    s.remove(idx)
}

/// What `str::to_lowercase` makes of `s` (Unicode lowercase mapping).
pub uninterp spec fn lowercase(s: Seq<char>) -> Seq<char>;

/// Calls `str::to_lowercase`. The contract names the result (the mapping
/// takes Unicode's tables to state, and depends on `s` alone) and claims
/// that it is empty exactly when `s` is: each scalar maps to one to three
/// scalars.
#[verifier::external_body]
pub(crate) fn to_lowercase(s: &str) -> (r: String)
    ensures
        r@ == lowercase(s@),
        r@.len() == 0 <==> s@.len() == 0,
{
    s.to_lowercase()
}

/// `String::push`: appends `c`.
#[verifier::external_body]
pub(crate) fn string_push(s: &mut String, c: char)
    ensures
        final(s)@ == old(s)@.push(c),
{
    s.push(c)
}

/// The scalars of `s`, one per element.
pub fn chars_of(s: &str) -> (v: Vec<char>)
    ensures
        v@ == s@,
{
    let mut v: Vec<char> = Vec::new();
    for ch in it: s.chars()
        invariant
            it.seq() == s@,
            v@ == s@.take(it.index() as int),
    {
        proof {
            assert(s@.take(it.index() + 1) =~= s@.take(it.index() as int).push(ch));
        }
        v.push(ch);
    }
    assert(s@.take(s@.len() as int) =~= s@);
    v
}

/// Appends `t` to `s`.
pub fn push_str(s: &mut String, t: &str)
    ensures
        final(s)@ == old(s)@ + t@,
{
    let v = chars_of(t);
    let mut i: usize = 0;
    let ghost s0 = s@;
    while i < v.len()
        invariant
            i <= v@.len(),
            v@ == t@,
            s@ == s0 + v@.take(i as int),
            s0 == old(s)@,
        decreases v@.len() - i,
    {
        string_push(s, v[i]);
        assert(v@.take(i + 1) =~= v@.take(i as int).push(v@[i as int]));
        i = i + 1;
    }
    assert(v@.take(v@.len() as int) =~= v@);
}

/// A `String` holding `v[lo..hi]`.
pub fn string_of_span(v: &Vec<char>, lo: usize, hi: usize) -> (s: String)
    requires
        lo <= hi <= v@.len(),
    ensures
        s@ == v@.subrange(lo as int, hi as int),
{
    let mut s = String::new();
    let mut i = lo;
    while i < hi
        invariant
            lo <= i <= hi <= v@.len(),
            s@ == v@.subrange(lo as int, i as int),
        decreases hi - i,
    {
        string_push(&mut s, v[i]);
        assert(v@.subrange(lo as int, i + 1) =~= v@.subrange(lo as int, i as int).push(v@[i as int]));
        i = i + 1;
    }
    s
}

/// Unicode `White_Space`, the set that `char::is_whitespace` and
/// `str::trim` go by.
pub open spec fn is_ws(c: char) -> bool {
    let v = c as u32;
    ||| 0x09 <= v <= 0x0D
    ||| v == 0x20
    ||| v == 0x85
    ||| v == 0xA0
    ||| v == 0x1680
    ||| 0x2000 <= v <= 0x200A
    ||| v == 0x2028
    ||| v == 0x2029
    ||| v == 0x202F
    ||| v == 0x205F
    ||| v == 0x3000
}

/// `char::is_whitespace`.
pub fn is_whitespace(c: char) -> (b: bool)
    ensures
        b == is_ws(c),
{
    let v = c as u32;
    (0x09 <= v && v <= 0x0D) || v == 0x20 || v == 0x85 || v == 0xA0 || v == 0x1680 || (0x2000 <= v
        && v <= 0x200A) || v == 0x2028 || v == 0x2029 || v == 0x202F || v == 0x205F || v == 0x3000
}

/// `s` without the leading scalars that satisfy `f`.
pub open spec fn trim_start_by(s: Seq<char>, f: spec_fn(char) -> bool) -> Seq<char>
    decreases s.len(),
{
    if s.len() > 0 && f(s[0]) {
        trim_start_by(s.drop_first(), f)
    } else {
        s
    }
}

/// `s` without the trailing scalars that satisfy `f`.
pub open spec fn trim_end_by(s: Seq<char>, f: spec_fn(char) -> bool) -> Seq<char>
    decreases s.len(),
{
    if s.len() > 0 && f(s.last()) {
        trim_end_by(s.drop_last(), f)
    } else {
        s
    }
}

/// Whitespace, as a predicate.
pub open spec fn ws() -> spec_fn(char) -> bool {
    |c: char| is_ws(c)
}

/// Being the scalar `c`, as a predicate.
pub open spec fn is_char(c: char) -> spec_fn(char) -> bool {
    |x: char| x == c
}

/// `str::trim`: no leading or trailing whitespace.
pub open spec fn trim(s: Seq<char>) -> Seq<char> {
    trim_end_by(trim_start_by(s, ws()), ws())
}

/// `str::trim_matches(c)` for a single scalar `c`.
pub open spec fn trim_char(s: Seq<char>, c: char) -> Seq<char> {
    trim_end_by(trim_start_by(s, is_char(c)), is_char(c))
}

/// `Some(rest)` when `s` starts with `p`.
pub open spec fn strip_prefix(s: Seq<char>, p: Seq<char>) -> Option<Seq<char>> {
    if p.len() <= s.len() && s.take(p.len() as int) == p {
        Some(s.skip(p.len() as int))
    } else {
        None
    }
}

/// `pat` occurs in `s` at index `i`.
pub open spec fn occurs_at(s: Seq<char>, pat: Seq<char>, i: int) -> bool {
    0 <= i && i + pat.len() <= s.len() && s.subrange(i, i + pat.len()) == pat
}

/// First index at or after `i` at which `pat` occurs in `s`.
pub open spec fn find_from(s: Seq<char>, pat: Seq<char>, i: int) -> Option<int>
    decreases s.len() + 1 - i,
{
    if i < 0 || i + pat.len() > s.len() {
        None
    } else if occurs_at(s, pat, i) {
        Some(i)
    } else {
        find_from(s, pat, i + 1)
    }
}

/// `str::find` with a string pattern, in scalar indices.
pub open spec fn find_first(s: Seq<char>, pat: Seq<char>) -> Option<int> {
    find_from(s, pat, 0)
}

/// What `find_from` finds is an occurrence, and the first one from `j`.
pub proof fn lemma_find_from(s: Seq<char>, pat: Seq<char>, j: int)
    requires
        0 <= j,
    ensures
        find_from(s, pat, j) matches Some(i) ==> j <= i && occurs_at(s, pat, i) && forall|k: int|
            j <= k < i ==> !#[trigger] occurs_at(s, pat, k),
        find_from(s, pat, j) is None ==> forall|k: int| j <= k ==> !#[trigger] occurs_at(s, pat, k),
    decreases s.len() + 1 - j,
{
    if j + pat.len() <= s.len() && !occurs_at(s, pat, j) {
        lemma_find_from(s, pat, j + 1);
    }
}

/// `needle` occurs somewhere in `hay` (`str::contains`).
pub open spec fn contains_seq(hay: Seq<char>, needle: Seq<char>) -> bool {
    find_first(hay, needle) is Some
}

/// Whether `needle` occurs in `hay`.
pub fn str_contains(hay: &str, needle: &str) -> (b: bool)
    ensures
        b == contains_seq(hay@, needle@),
{
    let h = chars_of(hay);
    let n = chars_of(needle);
    assert(h@.subrange(0, h@.len() as int) =~= h@);
    span_find(&h, 0, h.len(), &n).is_some()
}

/// Start of `v[lo..hi]` without the leading whitespace.
pub fn skip_ws_start(v: &Vec<char>, lo: usize, hi: usize) -> (r: usize)
    requires
        lo <= hi <= v@.len(),
    ensures
        lo <= r <= hi,
        v@.subrange(r as int, hi as int) == trim_start_by(v@.subrange(lo as int, hi as int), ws()),
{
    let mut i = lo;
    while i < hi && is_whitespace(v[i])
        invariant
            lo <= i <= hi <= v@.len(),
            trim_start_by(v@.subrange(lo as int, hi as int), ws()) == trim_start_by(
                v@.subrange(i as int, hi as int),
                ws(),
            ),
        decreases hi - i,
    {
        assert(v@.subrange(i as int, hi as int).drop_first() =~= v@.subrange(i + 1, hi as int));
        i = i + 1;
    }
    i
}

/// End of `v[lo..hi]` without the trailing whitespace.
pub fn skip_ws_end(v: &Vec<char>, lo: usize, hi: usize) -> (r: usize)
    requires
        lo <= hi <= v@.len(),
    ensures
        lo <= r <= hi,
        v@.subrange(lo as int, r as int) == trim_end_by(v@.subrange(lo as int, hi as int), ws()),
{
    let mut i = hi;
    while i > lo && is_whitespace(v[i - 1])
        invariant
            lo <= i <= hi <= v@.len(),
            trim_end_by(v@.subrange(lo as int, hi as int), ws()) == trim_end_by(
                v@.subrange(lo as int, i as int),
                ws(),
            ),
        decreases i - lo,
    {
        assert(v@.subrange(lo as int, i as int).drop_last() =~= v@.subrange(lo as int, i - 1));
        i = i - 1;
    }
    i
}

/// Start of `v[lo..hi]` without the leading copies of `c`.
pub fn skip_char_start(v: &Vec<char>, lo: usize, hi: usize, c: char) -> (r: usize)
    requires
        lo <= hi <= v@.len(),
    ensures
        lo <= r <= hi,
        v@.subrange(r as int, hi as int) == trim_start_by(
            v@.subrange(lo as int, hi as int),
            is_char(c),
        ),
{
    let mut i = lo;
    while i < hi && v[i] == c
        invariant
            lo <= i <= hi <= v@.len(),
            trim_start_by(v@.subrange(lo as int, hi as int), is_char(c)) == trim_start_by(
                v@.subrange(i as int, hi as int),
                is_char(c),
            ),
        decreases hi - i,
    {
        assert(v@.subrange(i as int, hi as int).drop_first() =~= v@.subrange(i + 1, hi as int));
        i = i + 1;
    }
    i
}

/// End of `v[lo..hi]` without the trailing copies of `c`.
pub fn skip_char_end(v: &Vec<char>, lo: usize, hi: usize, c: char) -> (r: usize)
    requires
        lo <= hi <= v@.len(),
    ensures
        lo <= r <= hi,
        v@.subrange(lo as int, r as int) == trim_end_by(
            v@.subrange(lo as int, hi as int),
            is_char(c),
        ),
{
    let mut i = hi;
    while i > lo && v[i - 1] == c
        invariant
            lo <= i <= hi <= v@.len(),
            trim_end_by(v@.subrange(lo as int, hi as int), is_char(c)) == trim_end_by(
                v@.subrange(lo as int, i as int),
                is_char(c),
            ),
        decreases i - lo,
    {
        assert(v@.subrange(lo as int, i as int).drop_last() =~= v@.subrange(lo as int, i - 1));
        i = i - 1;
    }
    i
}

/// Whether `v[lo..hi]` starts with `p`.
pub fn span_starts_with(v: &Vec<char>, lo: usize, hi: usize, p: &Vec<char>) -> (b: bool)
    requires
        lo <= hi <= v@.len(),
    ensures
        b == strip_prefix(v@.subrange(lo as int, hi as int), p@) is Some,
{
    let ghost s = v@.subrange(lo as int, hi as int);
    if p.len() > hi - lo {
        return false;
    }
    let mut j: usize = 0;
    while j < p.len()
        invariant
            lo <= hi <= v@.len(),
            p@.len() <= hi - lo,
            s == v@.subrange(lo as int, hi as int),
            j <= p@.len(),
            forall|k: int| 0 <= k < j ==> s[k] == p@[k],
        decreases p@.len() - j,
    {
        if v[lo + j] != p[j] {
            assert(s.take(p@.len() as int)[j as int] != p@[j as int]);
            return false;
        }
        j = j + 1;
    }
    assert(s.take(p@.len() as int) =~= p@);
    true
}

/// Whether `pat` occurs in `v[lo..hi]` at offset `i` (relative to `lo`).
fn span_occurs_at(v: &Vec<char>, lo: usize, hi: usize, pat: &Vec<char>, i: usize) -> (b: bool)
    requires
        lo <= hi <= v@.len(),
        i + pat@.len() <= hi - lo,
    ensures
        b == occurs_at(v@.subrange(lo as int, hi as int), pat@, i as int),
{
    let ghost s = v@.subrange(lo as int, hi as int);
    let mut j: usize = 0;
    while j < pat.len()
        invariant
            lo <= hi <= v@.len(),
            i + pat@.len() <= hi - lo,
            s == v@.subrange(lo as int, hi as int),
            j <= pat@.len(),
            forall|k: int| 0 <= k < j ==> s[i + k] == pat@[k],
        decreases pat@.len() - j,
    {
        if v[lo + i + j] != pat[j] {
            assert(s.subrange(i as int, i + pat@.len())[j as int] != pat@[j as int]);
            return false;
        }
        j = j + 1;
    }
    assert(s.subrange(i as int, i + pat@.len()) =~= pat@);
    true
}

/// First offset (relative to `lo`) at which `pat` occurs in `v[lo..hi]`.
pub fn span_find(v: &Vec<char>, lo: usize, hi: usize, pat: &Vec<char>) -> (r: Option<usize>)
    requires
        lo <= hi <= v@.len(),
    ensures
        r matches Some(i) ==> find_first(v@.subrange(lo as int, hi as int), pat@) == Some(i as int),
        r matches Some(i) ==> i + pat@.len() <= hi - lo,
        r is None ==> find_first(v@.subrange(lo as int, hi as int), pat@) is None,
{
    proof {
        lemma_find_from(v@.subrange(lo as int, hi as int), pat@, 0);
    }
    let ghost s = v@.subrange(lo as int, hi as int);
    if pat.len() > hi - lo {
        return None;
    }
    let last = hi - lo - pat.len();
    let mut i: usize = 0;
    while i <= last
        invariant
            lo <= hi <= v@.len(),
            s == v@.subrange(lo as int, hi as int),
            last + pat@.len() == hi - lo,
            find_first(s, pat@) == find_from(s, pat@, i as int),
        decreases last + 1 - i,
    {
        if span_occurs_at(v, lo, hi, pat, i) {
            return Some(i);
        }
        if i == last {
            assert(find_from(s, pat@, i + 1) is None);
            return None;
        }
        i = i + 1;
    }
    None
}

} // verus!
