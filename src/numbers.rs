//! The textual forms of numbers in a mesh file: vertex indices, which are
//! unsigned 16-bit integers, and coordinates, which are floating-point
//! literals.

use vstd::prelude::*;

verus! {

pub open spec fn is_digit(b: u8) -> bool {
    48u8 <= b && b <= 57u8
}

pub open spec fn all_digits(t: Seq<u8>) -> bool {
    forall|k: int| 0 <= k < t.len() ==> is_digit(#[trigger] t[k])
}

/// The value of a string of decimal digits.
pub open spec fn digits_value(t: Seq<u8>) -> nat
    decreases t.len(),
{
    if t.len() == 0 {
        0
    } else {
        digits_value(t.drop_last()) * 10 + (t.last() - 48u8) as nat
    }
}

/// `t` without one leading `+`.
pub open spec fn without_plus(t: Seq<u8>) -> Seq<u8> {
    if t.len() > 0 && t[0] == 43u8 {
        t.drop_first()
    } else {
        t
    }
}

/// `t` without one leading `+` or `-`.
pub open spec fn without_sign(t: Seq<u8>) -> Seq<u8> {
    if t.len() > 0 && (t[0] == 43u8 || t[0] == 45u8) {
        t.drop_first()
    } else {
        t
    }
}

/// The unsigned 16-bit integer that `t` writes: an optional `+`, then one or
/// more decimal digits whose value is at most 65535.
pub open spec fn u16_value(t: Seq<u8>) -> Option<u16> {
    let d = without_plus(t);
    if d.len() > 0 && all_digits(d) && digits_value(d) <= 65535 {
        Some(digits_value(d) as u16)
    } else {
        None
    }
}

proof fn lemma_digits_value_grows(t: Seq<u8>, k: int)
    requires
        0 <= k <= t.len(),
        all_digits(t),
    ensures
        digits_value(t.take(k)) <= digits_value(t),
    decreases t.len(),
{
    if k < t.len() {
        assert(all_digits(t.drop_last())) by {
            assert forall|j: int| 0 <= j < t.drop_last().len() implies is_digit(
                #[trigger] t.drop_last()[j],
            ) by {
                assert(t.drop_last()[j] == t[j]);
            }
        }
        lemma_digits_value_grows(t.drop_last(), k);
        assert(t.drop_last().take(k) =~= t.take(k));
    } else {
        assert(t.take(k) =~= t);
    }
}

/// Reads the vertex index that `t[lo..hi]` writes.
pub fn parse_u16(t: &[u8], lo: usize, hi: usize) -> (r: Option<u16>)
    requires
        lo <= hi <= t@.len(),
    ensures
        r == u16_value(t@.subrange(lo as int, hi as int)),
{
    let ghost s = t@.subrange(lo as int, hi as int);
    let mut k: usize = lo;
    if lo < hi {
        assert(s[0] == t@[lo as int]);
    }
    if lo < hi && t[lo] == 43u8 {
        k = lo + 1;
    }
    let ghost d = without_plus(s);
    assert(d =~= t@.subrange(k as int, hi as int));
    if k >= hi {
        return None;
    }
    let first = k;
    let mut v: u32 = 0;
    while k < hi
        invariant
            lo <= first <= k <= hi <= t@.len(),
            first < hi,
            s == t@.subrange(lo as int, hi as int),
            d == without_plus(s),
            d == t@.subrange(first as int, hi as int),
            all_digits(d.take(k - first)),
            v as nat == digits_value(d.take(k - first)),
            v <= 65535,
        decreases hi - k,
    {
        let b = t[k];
        assert(d[k - first] == b);
        if !(48u8 <= b && b <= 57u8) {
            assert(!is_digit(d[k - first]));
            assert(!all_digits(d));
            return None;
        }
        let next: u32 = v * 10 + (b - 48u8) as u32;
        let ghost pre = d.take(k - first);
        assert(d.take(k + 1 - first).drop_last() =~= pre);
        assert(d.take(k + 1 - first).last() == b);
        assert(next as nat == digits_value(d.take(k + 1 - first)));
        assert(all_digits(d.take(k + 1 - first)));
        k += 1;
        if next > 65535 {
            proof {
                if all_digits(d) {
                    lemma_digits_value_grows(d, (k - first) as int);
                }
            }
            return None;
        }
        v = next;
    }
    assert(d.take(k - first) =~= d);
    Some(v as u16)
}

/// ASCII upper-case letters taken to lower case; other bytes kept.
pub open spec fn lower(b: u8) -> u8 {
    if 65u8 <= b && b <= 90u8 {
        (b + 32) as u8
    } else {
        b
    }
}

pub open spec fn lowered(s: Seq<u8>) -> Seq<u8> {
    s.map_values(|b: u8| lower(b))
}

/// `inf`, `infinity` or `nan`, in any case.
pub open spec fn is_special_float(s: Seq<u8>) -> bool {
    let l = lowered(s);
    l == seq![105u8, 110u8, 102u8] || l == seq![105u8, 110u8, 102u8, 105u8, 110u8, 105u8, 116u8, 121u8]
        || l == seq![110u8, 97u8, 110u8]
}

/// Decimal digits with at most one point among them, at least one of them
/// a digit.
pub open spec fn is_mantissa(m: Seq<u8>) -> bool {
    &&& forall|k: int| 0 <= k < m.len() ==> is_digit(#[trigger] m[k]) || m[k] == 46u8
    &&& forall|j: int, k: int|
        0 <= j < k < m.len() ==> !(#[trigger] m[j] == 46u8 && #[trigger] m[k] == 46u8)
    &&& exists|k: int| 0 <= k < m.len() && is_digit(#[trigger] m[k])
}

pub open spec fn is_exponent_mark(b: u8) -> bool {
    b == 101u8 || b == 69u8
}

/// Empty, or `e` or `E` followed by an optional sign and one or more digits.
pub open spec fn is_exponent(x: Seq<u8>) -> bool {
    x.len() == 0 || (is_exponent_mark(x[0]) && without_sign(x.drop_first()).len() > 0
        && all_digits(without_sign(x.drop_first())))
}

/// A mantissa followed by an optional exponent.
pub open spec fn is_decimal_float(s: Seq<u8>) -> bool {
    exists|e: int| 0 <= e <= s.len() && is_mantissa(#[trigger] s.take(e)) && is_exponent(s.skip(e))
}

/// The text of a floating-point number: an optional sign, then `inf`,
/// `infinity` or `nan` in any case, or a decimal number with an optional
/// exponent.
pub open spec fn is_float_literal(t: Seq<u8>) -> bool {
    is_special_float(without_sign(t)) || is_decimal_float(without_sign(t))
}

fn lower_byte(b: u8) -> (r: u8)
    ensures
        r == lower(b),
{
    if 65u8 <= b && b <= 90u8 {
        b + 32
    } else {
        b
    }
}

/// Whether `t[lo..hi]` is `word` in any case; `word` is lower case.
fn matches_word(t: &[u8], lo: usize, hi: usize, word: &[u8]) -> (r: bool)
    requires
        lo <= hi <= t@.len(),
    ensures
        r == (lowered(t@.subrange(lo as int, hi as int)) == word@),
{
    let ghost l = lowered(t@.subrange(lo as int, hi as int));
    if hi - lo != word.len() {
        assert(l.len() != word@.len());
        return false;
    }
    let mut k: usize = 0;
    while k < word.len()
        invariant
            hi - lo == word@.len(),
            lo <= hi <= t@.len(),
            k <= word@.len(),
            l == lowered(t@.subrange(lo as int, hi as int)),
            forall|j: int| 0 <= j < k ==> l[j] == word@[j],
        decreases word@.len() - k,
    {
        if lower_byte(t[lo + k]) != word[k] {
            assert(l[k as int] != word@[k as int]);
            return false;
        }
        k += 1;
    }
    assert(l =~= word@);
    true
}

/// Whether `t[lo..hi]` is a mantissa.
fn check_mantissa(t: &[u8], lo: usize, hi: usize) -> (r: bool)
    requires
        lo <= hi <= t@.len(),
    ensures
        r == is_mantissa(t@.subrange(lo as int, hi as int)),
{
    let ghost m = t@.subrange(lo as int, hi as int);
    let mut k: usize = lo;
    let mut dot_at: Option<usize> = None;
    let mut digit_at: Option<usize> = None;
    while k < hi
        invariant
            lo <= k <= hi <= t@.len(),
            m == t@.subrange(lo as int, hi as int),
            forall|j: int| 0 <= j < k - lo ==> is_digit(#[trigger] m[j]) || m[j] == 46u8,
            match dot_at {
                Some(p) => lo <= p < k && m[p - lo] == 46u8 && forall|j: int|
                    0 <= j < k - lo && j != p - lo ==> #[trigger] m[j] != 46u8,
                None => forall|j: int| 0 <= j < k - lo ==> #[trigger] m[j] != 46u8,
            },
            match digit_at {
                Some(p) => lo <= p < k && is_digit(m[p - lo]),
                None => forall|j: int| 0 <= j < k - lo ==> !is_digit(#[trigger] m[j]),
            },
        decreases hi - k,
    {
        let b = t[k];
        assert(m[k - lo] == b);
        if b == 46u8 {
            if let Some(p) = dot_at {
                assert(!(m[p - lo] == 46u8 && m[k - lo] == 46u8) ==> false);
                return false;
            }
            dot_at = Some(k);
        } else if 48u8 <= b && b <= 57u8 {
            digit_at = Some(k);
        } else {
            return false;
        }
        k += 1;
    }
    match digit_at {
        Some(p) => {
            assert(is_digit(m[p - lo]));
            true
        },
        None => false,
    }
}

/// Whether `t[lo..hi]` is an exponent.
fn check_exponent(t: &[u8], lo: usize, hi: usize) -> (r: bool)
    requires
        lo <= hi <= t@.len(),
    ensures
        r == is_exponent(t@.subrange(lo as int, hi as int)),
{
    let ghost x = t@.subrange(lo as int, hi as int);
    if lo == hi {
        return true;
    }
    assert(x[0] == t@[lo as int]);
    if !(t[lo] == 101u8 || t[lo] == 69u8) {
        return false;
    }
    let mut k: usize = lo + 1;
    if k < hi {
        assert(x.drop_first()[0] == t@[k as int]);
    }
    if k < hi && (t[k] == 43u8 || t[k] == 45u8) {
        k += 1;
    }
    let ghost d = without_sign(x.drop_first());
    assert(d =~= t@.subrange(k as int, hi as int));
    if k == hi {
        return false;
    }
    let first = k;
    while k < hi
        invariant
            lo < first <= k <= hi <= t@.len(),
            x == t@.subrange(lo as int, hi as int),
            x.len() > 0 && is_exponent_mark(x[0]),
            d == without_sign(x.drop_first()),
            d.len() > 0,
            d == t@.subrange(first as int, hi as int),
            forall|j: int| 0 <= j < k - first ==> is_digit(#[trigger] d[j]),
        decreases hi - k,
    {
        assert(d[k - first] == t@[k as int]);
        if !(48u8 <= t[k] && t[k] <= 57u8) {
            assert(!is_digit(d[k - first]));
            return false;
        }
        k += 1;
    }
    true
}

/// Whether `t[lo..hi]` is the text of a floating-point number.
pub fn check_float(t: &[u8], lo: usize, hi: usize) -> (r: bool)
    requires
        lo <= hi <= t@.len(),
    ensures
        r == is_float_literal(t@.subrange(lo as int, hi as int)),
{
    let ghost s = t@.subrange(lo as int, hi as int);
    let mut b: usize = lo;
    if lo < hi && (t[lo] == 43u8 || t[lo] == 45u8) {
        b = lo + 1;
    }
    let ghost body = without_sign(s);
    assert(body =~= t@.subrange(b as int, hi as int));
    let special = matches_word(t, b, hi, &[105u8, 110u8, 102u8])
        || matches_word(t, b, hi, &[105u8, 110u8, 102u8, 105u8, 110u8, 105u8, 116u8, 121u8])
        || matches_word(t, b, hi, &[110u8, 97u8, 110u8]);
    if special {
        return true;
    }
    let mut e: usize = b;
    while e < hi && !(t[e] == 101u8 || t[e] == 69u8)
        invariant
            b <= e <= hi <= t@.len(),
            body == t@.subrange(b as int, hi as int),
            forall|j: int| 0 <= j < e - b ==> !is_exponent_mark(#[trigger] body[j]),
        decreases hi - e,
    {
        assert(body[e - b] == t@[e as int]);
        e += 1;
    }
    let ghost p = e - b;
    assert(p == body.len() || is_exponent_mark(body[p])) by {
        if e < hi {
            assert(body[p] == t@[e as int]);
        }
    }
    let m = check_mantissa(t, b, e);
    let x = check_exponent(t, e, hi);
    assert(body.take(p) =~= t@.subrange(b as int, e as int));
    assert(body.skip(p) =~= t@.subrange(e as int, hi as int));
    if m && x {
        assert(is_mantissa(body.take(p)));
        return true;
    }
    assert(!is_decimal_float(body)) by {
        if is_decimal_float(body) {
            let q = choose|q: int|
                0 <= q <= body.len() && is_mantissa(#[trigger] body.take(q)) && is_exponent(
                    body.skip(q),
                );
            if q > p {
                assert(body.take(q)[p] == body[p]);
            } else if q < p {
                assert(body.skip(q)[0] == body[q]);
                assert(body.skip(q).len() > 0);
            }
            assert(q == p);
        }
    }
    false
}

} // verus!
