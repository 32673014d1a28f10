//! Byte-level helpers shared by the document model: equality, prefix
//! tests, ASCII case folding and whitespace trimming, each with an exact
//! specification. Trimming removes the full Unicode whitespace set,
//! recognized by its UTF-8 byte patterns.

use vstd::prelude::*;

verus! {

/// One-byte whitespace: tab, line feed, vertical tab, form feed,
/// carriage return, space.
pub open spec fn is_ws(b: u8) -> bool {
    b == 32 || (9 <= b && b <= 13)
}

/// Three-byte UTF-8 whitespace: the ogham space mark, the typographic
/// spaces and separators of the general punctuation block, and the
/// ideographic space.
pub open spec fn is_ws3(a: u8, b: u8, c: u8) -> bool {
    ||| (a == 0xE1 && b == 0x9A && c == 0x80)
    ||| (a == 0xE2 && b == 0x80 && (0x80 <= c <= 0x8A || c == 0xA8 || c == 0xA9 || c == 0xAF))
    ||| (a == 0xE2 && b == 0x81 && c == 0x9F)
    ||| (a == 0xE3 && b == 0x80 && c == 0x80)
}

/// Byte length of the whitespace character starting at `i`, or 0 when
/// `s[i]` starts none. Two-byte whitespace is the next line and
/// no-break space characters. In valid UTF-8 the patterns are
/// unambiguous: a lead byte is never a continuation byte.
pub open spec fn ws_len_at(s: Seq<u8>, i: int) -> int {
    if i < 0 || i >= s.len() {
        0
    } else if is_ws(s[i]) {
        1
    } else if i + 2 <= s.len() && s[i] == 0xC2 && (s[i + 1] == 0x85 || s[i + 1] == 0xA0) {
        2
    } else if i + 3 <= s.len() && is_ws3(s[i], s[i + 1], s[i + 2]) {
        3
    } else {
        0
    }
}

/// Byte length of the whitespace character ending right before `j`, or
/// 0 when none ends there.
pub open spec fn ws_len_ending(s: Seq<u8>, j: int) -> int {
    if j < 1 || j > s.len() {
        0
    } else if is_ws(s[j - 1]) {
        1
    } else if j >= 2 && s[j - 2] == 0xC2 && (s[j - 1] == 0x85 || s[j - 1] == 0xA0) {
        2
    } else if j >= 3 && is_ws3(s[j - 3], s[j - 2], s[j - 1]) {
        3
    } else {
        0
    }
}

/// Start of the text once every leading whitespace character from `i`
/// on is skipped.
pub open spec fn trim_front_from(s: Seq<u8>, i: int) -> int
    decreases s.len() - i,
{
    let w = ws_len_at(s, i);
    if w <= 0 {
        i
    } else {
        trim_front_from(s, i + w)
    }
}

/// Exclusive end of the text once every trailing whitespace character
/// before `j` is dropped.
pub open spec fn trim_back_from(s: Seq<u8>, j: int) -> int
    decreases j,
{
    let w = ws_len_ending(s, j);
    if w <= 0 {
        j
    } else {
        trim_back_from(s, j - w)
    }
}

/// `s` with leading and trailing whitespace characters removed.
pub open spec fn trim_spec(s: Seq<u8>) -> Seq<u8> {
    let a = trim_front_from(s, 0);
    let b = trim_back_from(s, s.len() as int);
    if a >= b {
        Seq::empty()
    } else {
        s.subrange(a, b)
    }
}

/// Byte length of the whitespace character starting at `i`.
fn ws_len_at_exec(s: &[u8], i: usize) -> (w: usize)
    requires
        i <= s@.len(),
    ensures
        w == ws_len_at(s@, i as int),
        i + w <= s@.len(),
{
    let n = s.len();
    if i >= n {
        return 0;
    }
    let b = s[i];
    if b == 32 || (9 <= b && b <= 13) {
        1
    } else if n - i >= 2 && b == 0xC2 && (s[i + 1] == 0x85 || s[i + 1] == 0xA0) {
        2
    } else if n - i >= 3 && is_ws3_exec(b, s[i + 1], s[i + 2]) {
        3
    } else {
        0
    }
}

/// Byte length of the whitespace character ending right before `j`.
fn ws_len_ending_exec(s: &[u8], j: usize) -> (w: usize)
    requires
        j <= s@.len(),
    ensures
        w == ws_len_ending(s@, j as int),
        w <= j,
{
    if j < 1 {
        return 0;
    }
    let b = s[j - 1];
    if b == 32 || (9 <= b && b <= 13) {
        1
    } else if j >= 2 && s[j - 2] == 0xC2 && (b == 0x85 || b == 0xA0) {
        2
    } else if j >= 3 && is_ws3_exec(s[j - 3], s[j - 2], b) {
        3
    } else {
        0
    }
}

fn is_ws3_exec(a: u8, b: u8, c: u8) -> (r: bool)
    ensures
        r == is_ws3(a, b, c),
{
    (a == 0xE1 && b == 0x9A && c == 0x80) || (a == 0xE2 && b == 0x80 && ((0x80 <= c && c <= 0x8A)
        || c == 0xA8 || c == 0xA9 || c == 0xAF)) || (a == 0xE2 && b == 0x81 && c == 0x9F) || (a
        == 0xE3 && b == 0x80 && c == 0x80)
}

/// `pre` is a prefix of `s`.
pub open spec fn is_prefix(pre: Seq<u8>, s: Seq<u8>) -> bool {
    pre.len() <= s.len() && s.subrange(0, pre.len() as int) == pre
}

/// ASCII upper-casing of one byte. Case folding is ASCII-only: the
/// workflow vocabulary is matched byte-for-byte, so keywords are
/// expected to be ASCII words; bytes outside the ASCII letters pass
/// through unchanged.
pub open spec fn upper_byte(b: u8) -> u8 {
    if 97 <= b <= 122 {
        (b - 32) as u8
    } else {
        b
    }
}

/// ASCII upper-casing of a byte sequence.
pub open spec fn upper_spec(s: Seq<u8>) -> Seq<u8> {
    Seq::new(s.len(), |i: int| upper_byte(s[i]))
}

/// Exact byte equality of two slices.
pub fn bytes_eq(a: &[u8], b: &[u8]) -> (r: bool)
    ensures
        r <==> a@ == b@,
{
    if a.len() != b.len() {
        return false;
    }
    let n = a.len();
    let mut i: usize = 0;
    while i < n
        invariant
            0 <= i <= n,
            n == a@.len() == b@.len(),
            forall|k: int| 0 <= k < i ==> a@[k] == b@[k],
        decreases n - i,
    {
        if a[i] != b[i] {
            return false;
        }
        i = i + 1;
    }
    proof {
        assert(a@ =~= b@);
    }
    true
}

/// Whether `pre` is a prefix of `s`.
pub fn starts_with_bytes(s: &[u8], pre: &[u8]) -> (r: bool)
    ensures
        r <==> is_prefix(pre@, s@),
{
    if pre.len() > s.len() {
        return false;
    }
    let n = pre.len();
    let mut i: usize = 0;
    while i < n
        invariant
            0 <= i <= n,
            n == pre@.len() <= s@.len(),
            forall|k: int| 0 <= k < i ==> s@[k] == pre@[k],
        decreases n - i,
    {
        if s[i] != pre[i] {
            assert(s@.subrange(0, pre@.len() as int)[i as int] != pre@[i as int]);
            return false;
        }
        i = i + 1;
    }
    proof {
        assert(s@.subrange(0, pre@.len() as int) =~= pre@);
    }
    true
}

/// Copy of `s` upper-cased byte by byte.
pub fn upper_bytes(s: &[u8]) -> (r: Vec<u8>)
    ensures
        r@ == upper_spec(s@),
{
    let n = s.len();
    let mut out: Vec<u8> = Vec::new();
    let mut i: usize = 0;
    while i < n
        invariant
            0 <= i <= n,
            n == s@.len(),
            out@.len() == i,
            forall|k: int| 0 <= k < i ==> out@[k] == upper_byte(s@[k]),
        decreases n - i,
    {
        let b = s[i];
        if 97 <= b && b <= 122 {
            out.push(b - 32);
        } else {
            out.push(b);
        }
        i = i + 1;
    }
    proof {
        assert(out@ =~= upper_spec(s@));
    }
    out
}

/// Copy of `s` with surrounding whitespace characters removed.
pub fn trim_bytes(s: &[u8]) -> (r: Vec<u8>)
    ensures
        r@ == trim_spec(s@),
{
    let n = s.len();
    let mut a: usize = 0;
    let mut wa = ws_len_at_exec(s, a);
    while wa > 0
        invariant
            0 <= a <= n,
            n == s@.len(),
            wa == ws_len_at(s@, a as int),
            a + wa <= n,
            trim_front_from(s@, 0) == trim_front_from(s@, a as int),
        decreases n - a,
    {
        a = a + wa;
        wa = ws_len_at_exec(s, a);
    }
    assert(trim_front_from(s@, 0) == a);
    let mut b: usize = n;
    let mut wb = ws_len_ending_exec(s, b);
    while wb > 0
        invariant
            0 <= b <= n,
            n == s@.len(),
            wb == ws_len_ending(s@, b as int),
            wb <= b,
            trim_back_from(s@, n as int) == trim_back_from(s@, b as int),
        decreases b,
    {
        b = b - wb;
        wb = ws_len_ending_exec(s, b);
    }
    assert(trim_back_from(s@, n as int) == b);
    let mut out: Vec<u8> = Vec::new();
    if a >= b {
        proof {
            assert(out@ =~= trim_spec(s@));
        }
        return out;
    }
    let mut k: usize = a;
    while k < b
        invariant
            a <= k <= b <= n,
            n == s@.len(),
            out@ == s@.subrange(a as int, k as int),
        decreases b - k,
    {
        let x = s[k];
        out.push(x);
        proof {
            assert(out@ =~= s@.subrange(a as int, k + 1 as int));
        }
        k = k + 1;
    }
    proof {
        assert(out@ =~= trim_spec(s@));
    }
    out
}

/// Append `src[from..to]` to `out`.
pub fn push_range(out: &mut Vec<u8>, src: &[u8], from: usize, to: usize)
    requires
        from <= to <= src@.len(),
    ensures
        final(out)@ == old(out)@ + src@.subrange(from as int, to as int),
{
    let mut k: usize = from;
    while k < to
        invariant
            from <= k <= to <= src@.len(),
            out@ == old(out)@ + src@.subrange(from as int, k as int),
        decreases to - k,
    {
        let x = src[k];
        out.push(x);
        proof {
            assert(out@ =~= old(out)@ + src@.subrange(from as int, k + 1 as int));
        }
        k = k + 1;
    }
    proof {
        assert(out@ =~= old(out)@ + src@.subrange(from as int, to as int));
    }
}

} // verus!
