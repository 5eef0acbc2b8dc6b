//! Splitting text into lines and whitespace-separated words.

use vstd::prelude::*;

verus! {

/// ASCII whitespace: space, tab, line feed, vertical tab, form feed and
/// carriage return.
pub open spec fn is_ascii_space(b: u8) -> bool {
    b == 32u8 || (9u8 <= b && b <= 13u8)
}

/// The third byte of a whitespace character encoded as `E2 80 _`: U+2000 to
/// U+200A, U+2028, U+2029 and U+202F.
pub open spec fn is_e280_space(b: u8) -> bool {
    (0x80u8 <= b && b <= 0x8Au8) || b == 0xA8u8 || b == 0xA9u8 || b == 0xAFu8
}

/// The length of the whitespace character whose UTF-8 encoding starts at
/// `s[i]`, or 0 when none does. Whitespace is what Unicode calls
/// White_Space: the ASCII whitespace, U+0085, U+00A0, U+1680, U+2000 to
/// U+200A, U+2028, U+2029, U+202F, U+205F and U+3000.
pub open spec fn space_len(s: Seq<u8>, i: int) -> int {
    if 0 <= i < s.len() && is_ascii_space(s[i]) {
        1
    } else if 0 <= i && i + 1 < s.len() && s[i] == 0xC2u8 && (s[i + 1] == 0x85u8 || s[i + 1]
        == 0xA0u8) {
        2
    } else if 0 <= i && i + 2 < s.len() && ((s[i] == 0xE1u8 && s[i + 1] == 0x9Au8 && s[i + 2]
        == 0x80u8) || (s[i] == 0xE2u8 && s[i + 1] == 0x80u8 && is_e280_space(s[i + 2])) || (s[i]
        == 0xE2u8 && s[i + 1] == 0x81u8 && s[i + 2] == 0x9Fu8) || (s[i] == 0xE3u8 && s[i + 1]
        == 0x80u8 && s[i + 2] == 0x80u8)) {
        3
    } else {
        0
    }
}

/// The words of `s[i..]`, where a word in progress began at `start`
/// (`start == i` when no word is in progress).
pub open spec fn words_from(s: Seq<u8>, start: int, i: int) -> Seq<Seq<u8>>
    decreases s.len() - i,
{
    if i >= s.len() {
        if start < s.len() {
            seq![s.subrange(start, s.len() as int)]
        } else {
            seq![]
        }
    } else if space_len(s, i) > 0 {
        let next = i + space_len(s, i);
        let rest = words_from(s, next, next);
        if start < i {
            seq![s.subrange(start, i)] + rest
        } else {
            rest
        }
    } else {
        words_from(s, start, i + 1)
    }
}

/// The maximal runs of `s` that hold no whitespace character, in order. On
/// UTF-8 text a whitespace encoding can only start at a character boundary,
/// since its first byte is never a continuation byte.
pub open spec fn words(s: Seq<u8>) -> Seq<Seq<u8>> {
    words_from(s, 0, 0)
}

/// The lines of `s[i..]`, where the current line began at `start`. A line
/// ends before a line feed; no empty line follows a final line feed.
pub open spec fn lines_from(s: Seq<u8>, start: int, i: int) -> Seq<Seq<u8>>
    decreases s.len() - i,
{
    if i >= s.len() {
        if start < s.len() {
            seq![s.subrange(start, s.len() as int)]
        } else {
            seq![]
        }
    } else if s[i] == 10u8 {
        seq![s.subrange(start, i)] + lines_from(s, i + 1, i + 1)
    } else {
        lines_from(s, start, i + 1)
    }
}

/// The lines of `s`.
pub open spec fn lines(s: Seq<u8>) -> Seq<Seq<u8>> {
    lines_from(s, 0, 0)
}

/// The contents of a sequence of byte vectors.
pub open spec fn byte_views(v: Seq<Vec<u8>>) -> Seq<Seq<u8>> {
    v.map_values(|w: Vec<u8>| w@)
}

/// The length of the whitespace character that starts at `s[i]` within
/// `s[lo..hi]`, or 0.
pub fn space_len_at(s: &[u8], lo: usize, i: usize, hi: usize) -> (r: usize)
    requires
        lo <= i < hi <= s@.len(),
    ensures
        r == space_len(s@.subrange(lo as int, hi as int), i - lo),
        r <= hi - i,
{
    let ghost t = s@.subrange(lo as int, hi as int);
    let b = s[i];
    assert(t[i - lo] == b);
    if b == 32u8 || (9u8 <= b && b <= 13u8) {
        return 1;
    }
    if i + 1 < hi {
        assert(t[i + 1 - lo] == s@[i + 1]);
        if b == 0xC2u8 && (s[i + 1] == 0x85u8 || s[i + 1] == 0xA0u8) {
            return 2;
        }
    }
    if i + 1 < hi && i + 2 < hi {
        assert(t[i + 1 - lo] == s@[i + 1]);
        assert(t[i + 2 - lo] == s@[i + 2]);
        let c = s[i + 1];
        let d = s[i + 2];
        if (b == 0xE1u8 && c == 0x9Au8 && d == 0x80u8) || (b == 0xE2u8 && c == 0x80u8 && ((0x80u8
            <= d && d <= 0x8Au8) || d == 0xA8u8 || d == 0xA9u8 || d == 0xAFu8)) || (b == 0xE2u8
            && c == 0x81u8 && d == 0x9Fu8) || (b == 0xE3u8 && c == 0x80u8 && d == 0x80u8) {
            return 3;
        }
    }
    0
}

/// A copy of `s[lo..hi]`.
pub fn copy_range(s: &[u8], lo: usize, hi: usize) -> (r: Vec<u8>)
    requires
        lo <= hi <= s@.len(),
    ensures
        r@ == s@.subrange(lo as int, hi as int),
{
    let mut r: Vec<u8> = Vec::new();
    let mut k: usize = lo;
    while k < hi
        invariant
            lo <= k <= hi <= s@.len(),
            r@ == s@.subrange(lo as int, k as int),
        decreases hi - k,
    {
        r.push(s[k]);
        k += 1;
        assert(r@ =~= s@.subrange(lo as int, k as int));
    }
    r
}

/// The words of `s[lo..hi]`.
pub fn split_words(s: &[u8], lo: usize, hi: usize) -> (r: Vec<Vec<u8>>)
    requires
        lo <= hi <= s@.len(),
    ensures
        byte_views(r@) == words(s@.subrange(lo as int, hi as int)),
{
    let ghost t = s@.subrange(lo as int, hi as int);
    let mut out: Vec<Vec<u8>> = Vec::new();
    let mut start: usize = lo;
    let mut i: usize = lo;
    while i < hi
        invariant
            lo <= start <= i <= hi <= s@.len(),
            t == s@.subrange(lo as int, hi as int),
            byte_views(out@) + words_from(t, start - lo, i - lo) == words(t),
        decreases hi - i,
    {
        let k = space_len_at(s, lo, i, hi);
        if k > 0 {
            let ghost before = byte_views(out@);
            let ghost rest = words_from(t, i + k - lo, i + k - lo);
            if start < i {
                let w = copy_range(s, start, i);
                assert(w@ =~= t.subrange(start - lo, i - lo));
                out.push(w);
                assert(byte_views(out@) =~= before.push(w@));
                assert(before + (seq![w@] + rest) =~= before.push(w@) + rest);
            }
            i += k;
            start = i;
        } else {
            i += 1;
        }
    }
    if start < hi {
        let ghost before = byte_views(out@);
        let w = copy_range(s, start, hi);
        assert(w@ =~= t.subrange(start - lo, t.len() as int));
        out.push(w);
        assert(byte_views(out@) =~= before.push(w@));
        assert(before + seq![w@] =~= before.push(w@));
    } else {
        assert(byte_views(out@) + seq![] =~= byte_views(out@));
    }
    out
}

} // verus!
