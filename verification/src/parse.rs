//! Verified parsing of the numeric request parameters: unsigned decimal
//! ids and page numbers, and section weights, which are decimal literals
//! with an optional sign and up to six fraction digits, read into the
//! fixed-point form `WEIGHT_SCALE` units per whole unit.

use vstd::prelude::*;

verus! {

/// ASCII decimal digit.
pub open spec fn is_digit(b: u8) -> bool {
    48 <= b <= 57
}

/// Every byte of `s` is a decimal digit.
pub open spec fn all_digits(s: Seq<u8>) -> bool {
    forall|i: int| 0 <= i < s.len() ==> is_digit(#[trigger] s[i])
}

/// The number the digit string `s` denotes, most significant digit first.
pub open spec fn digits_val(s: Seq<u8>) -> int
    decreases s.len(),
{
    if s.len() == 0 {
        0
    } else {
        digits_val(s.drop_last()) * 10 + (s.last() - 48)
    }
}

/// Ten to the `k`-th power (one for `k <= 0`).
pub open spec fn pow10(k: int) -> int
    decreases k,
{
    if k <= 0 {
        1
    } else {
        10 * pow10(k - 1)
    }
}

/// The index of the first `'.'` of `s`, or the length of `s`.
pub open spec fn dot_pos(s: Seq<u8>) -> int
    decreases s.len(),
{
    if s.len() == 0 {
        0
    } else if s[0] == 46 {
        0
    } else {
        1 + dot_pos(s.drop_first())
    }
}

/// An unsigned weight literal: a nonempty run of digits, then optionally a
/// dot and one to six fraction digits.
pub open spec fn weight_body_wf(s: Seq<u8>) -> bool {
    let p = dot_pos(s);
    &&& p >= 1
    &&& all_digits(s.subrange(0, p))
    &&& (p < s.len() ==> 1 <= s.len() - p - 1 <= 6 && all_digits(s.subrange(p + 1, s.len() as int)))
}

/// The magnitude an unsigned weight literal denotes, in fixed-point units:
/// the whole part scaled by a million, plus the fraction digits padded to
/// six places.
pub open spec fn weight_body_val(s: Seq<u8>) -> int {
    let p = dot_pos(s);
    let whole = digits_val(s.subrange(0, p));
    let frac = if p < s.len() {
        digits_val(s.subrange(p + 1, s.len() as int)) * pow10(6 - (s.len() - p - 1))
    } else {
        0
    };
    whole * 1_000_000 + frac
}

/// A weight literal: an optional leading minus sign before the body.
pub open spec fn weight_wf(s: Seq<u8>) -> bool {
    if s.len() > 0 && s[0] == 45 {
        weight_body_wf(s.drop_first())
    } else {
        weight_body_wf(s)
    }
}

/// The signed fixed-point value a weight literal denotes.
pub open spec fn weight_val(s: Seq<u8>) -> int {
    if s.len() > 0 && s[0] == 45 {
        -weight_body_val(s.drop_first())
    } else {
        weight_body_val(s)
    }
}

/// A digit string's value is non-negative and below ten to its length.
pub proof fn lemma_digits_val_bounds(s: Seq<u8>)
    requires
        all_digits(s),
    ensures
        0 <= digits_val(s) < pow10(s.len() as int),
    decreases s.len(),
{
    if s.len() > 0 {
        let sub = s.drop_last();
        assert(forall|i: int| 0 <= i < sub.len() ==> sub[i] == s[i]);
        lemma_digits_val_bounds(sub);
    }
}

/// A digit string denotes at least as much as any of its prefixes.
pub proof fn lemma_digits_val_prefix(s: Seq<u8>, i: int)
    requires
        all_digits(s),
        0 <= i <= s.len(),
    ensures
        digits_val(s.subrange(0, i)) <= digits_val(s),
    decreases s.len() - i,
{
    if i == s.len() {
        assert(s.subrange(0, i) =~= s);
    } else {
        let a = s.subrange(0, i);
        let b = s.subrange(0, i + 1);
        assert(b.drop_last() =~= a);
        assert(forall|j: int| 0 <= j < a.len() ==> a[j] == s[j]);
        lemma_digits_val_bounds(a);
        assert(digits_val(b) == digits_val(a) * 10 + (s[i] - 48));
        lemma_digits_val_prefix(s, i + 1);
    }
}

/// Ten to any power is positive.
proof fn lemma_pow10_pos(k: int)
    ensures
        pow10(k) >= 1,
    decreases k,
{
    if k > 0 {
        lemma_pow10_pos(k - 1);
    }
}

/// Under `weight_body_wf` the denoted magnitude is non-negative and at
/// least the scaled whole part.
proof fn lemma_weight_body_val_parts(s: Seq<u8>)
    requires
        weight_body_wf(s),
    ensures
        weight_body_val(s) >= digits_val(s.subrange(0, dot_pos(s))) * 1_000_000,
        weight_body_val(s) >= 0,
{
    let p = dot_pos(s);
    lemma_digits_val_bounds(s.subrange(0, p));
    if p < s.len() {
        lemma_digits_val_bounds(s.subrange(p + 1, s.len() as int));
        lemma_pow10_pos(6 - (s.len() - p - 1));
        let dv = digits_val(s.subrange(p + 1, s.len() as int));
        let pw = pow10(6 - (s.len() - p - 1));
        assert(dv * pw >= 0) by (nonlinear_arith)
            requires
                dv >= 0,
                pw >= 0,
        ;
    }
}

/// When every byte before `p` differs from `'.'` and `p` is either the end
/// or a `'.'`, then `p` is `dot_pos`.
proof fn lemma_dot_pos_at(s: Seq<u8>, p: int)
    requires
        0 <= p <= s.len(),
        forall|j: int| 0 <= j < p ==> s[j] != 46,
        p < s.len() ==> s[p] == 46,
    ensures
        dot_pos(s) == p,
    decreases s.len(),
{
    if s.len() == 0 {
    } else if s[0] == 46 {
        assert(p == 0);
    } else {
        let sub = s.drop_first();
        assert(forall|j: int| 0 <= j < sub.len() ==> sub[j] == s[j + 1]);
        lemma_dot_pos_at(sub, p - 1);
    }
}

/// The digits of `bytes` between `lo` and `hi`, read as an unsigned
/// number: the value exactly when the range is all digits and the value
/// fits, and nothing otherwise.
fn parse_digits(bytes: &Vec<u8>, lo: usize, hi: usize) -> (r: Option<u64>)
    requires
        lo <= hi <= bytes@.len(),
    ensures
        r is Some <==> all_digits(bytes@.subrange(lo as int, hi as int)) && digits_val(
            bytes@.subrange(lo as int, hi as int),
        ) <= u64::MAX,
        r matches Some(v) ==> v == digits_val(bytes@.subrange(lo as int, hi as int)),
{
    let ghost whole = bytes@.subrange(lo as int, hi as int);
    let mut acc: u64 = 0;
    let mut i: usize = lo;
    while i < hi
        invariant
            lo <= i <= hi <= bytes@.len(),
            whole == bytes@.subrange(lo as int, hi as int),
            all_digits(whole.subrange(0, i - lo)),
            acc == digits_val(whole.subrange(0, i - lo)),
        decreases hi - i,
    {
        let b = bytes[i];
        proof {
            let pre = whole.subrange(0, i - lo);
            let cur = whole.subrange(0, i + 1 - lo);
            assert(cur.drop_last() =~= pre);
            assert(cur.last() == bytes@[i as int]);
        }
        if b < 48 || b > 57 {
            proof {
                assert(!is_digit(whole[i - lo]));
            }
            return None;
        }
        let d = (b - 48) as u64;
        let grown = match acc.checked_mul(10) {
            Some(t) => t.checked_add(d),
            None => None,
        };
        match grown {
            Some(t) => {
                acc = t;
            },
            None => {
                proof {
                    let cur = whole.subrange(0, i + 1 - lo);
                    assert(digits_val(cur) > u64::MAX);
                    if all_digits(whole) {
                        lemma_digits_val_prefix(whole, i + 1 - lo);
                    }
                }
                return None;
            },
        }
        i = i + 1;
    }
    proof {
        assert(whole.subrange(0, hi - lo) =~= whole);
    }
    Some(acc)
}

/// An unsigned decimal parameter (an id or a page number): its value
/// exactly when `bytes` is a nonempty digit string whose value fits in a
/// `u64`, and nothing otherwise.
pub fn parse_u64(bytes: &Vec<u8>) -> (r: Option<u64>)
    ensures
        r is Some <==> bytes@.len() > 0 && all_digits(bytes@) && digits_val(bytes@) <= u64::MAX,
        r matches Some(v) ==> v == digits_val(bytes@),
{
    let n = bytes.len();
    if n == 0 {
        return None;
    }
    proof {
        assert(bytes@.subrange(0, n as int) =~= bytes@);
    }
    parse_digits(bytes, 0, n)
}

/// The index of the first `'.'` of `bytes` at or past `start`, or the
/// length of `bytes`.
fn find_dot(bytes: &Vec<u8>, start: usize) -> (p: usize)
    requires
        start <= bytes@.len(),
    ensures
        start <= p <= bytes@.len(),
        forall|j: int| start <= j < p ==> bytes@[j] != 46,
        p < bytes@.len() ==> bytes@[p as int] == 46,
{
    let n = bytes.len();
    let mut i: usize = start;
    while i < n
        invariant
            start <= i <= n == bytes@.len(),
            forall|j: int| start <= j < i ==> bytes@[j] != 46,
        decreases n - i,
    {
        if bytes[i] == 46 {
            return i;
        }
        i = i + 1;
    }
    n
}

/// A section weight parameter: its fixed-point value exactly when `bytes`
/// is a weight literal whose magnitude fits in an `i64`, and nothing
/// otherwise.
pub fn parse_weight(bytes: &Vec<u8>) -> (r: Option<i64>)
    ensures
        r is Some <==> weight_wf(bytes@) && weight_val(bytes@) <= i64::MAX
            && -weight_val(bytes@) <= i64::MAX,
        r matches Some(v) ==> v == weight_val(bytes@),
{
    let n = bytes.len();
    let neg = n > 0 && bytes[0] == 45;
    let start: usize = if neg {
        1
    } else {
        0
    };
    let ghost body = bytes@.subrange(start as int, n as int);
    proof {
        assert(forall|j: int| 0 <= j < body.len() ==> body[j] == bytes@[j + start]);
        if neg {
            assert(bytes@.drop_first() =~= body);
        } else {
            assert(bytes@ =~= body);
        }
    }
    let p = find_dot(bytes, start);
    proof {
        lemma_dot_pos_at(body, p - start);
    }
    if p == start {
        // An empty whole part: `dot_pos` of the body is zero, so the
        // literal is malformed.
        return None;
    }
    let whole = match parse_digits(bytes, start, p) {
        Some(w) => w,
        None => {
            proof {
                assert(body.subrange(0, p - start) =~= bytes@.subrange(start as int, p as int));
                if weight_wf(bytes@) {
                    lemma_weight_body_val_parts(body);
                    let dv = digits_val(body.subrange(0, p - start));
                    assert(dv > u64::MAX);
                    assert(weight_body_val(body) >= dv * 1_000_000);
                    assert(dv * 1_000_000 >= dv) by (nonlinear_arith)
                        requires
                            dv >= 0,
                    ;
                }
            }
            return None;
        },
    };
    proof {
        assert(body.subrange(0, p - start) =~= bytes@.subrange(start as int, p as int));
    }
    let frac_scaled: u64 = if p < n {
        let flen = n - p - 1;
        if flen < 1 || flen > 6 {
            return None;
        }
        let f = match parse_digits(bytes, p + 1, n) {
            Some(f) => f,
            None => {
                proof {
                    assert(body.subrange(p - start + 1, body.len() as int) =~= bytes@.subrange(
                        p + 1 as int,
                        n as int,
                    ));
                    if all_digits(bytes@.subrange(p + 1 as int, n as int)) {
                        lemma_digits_val_bounds(bytes@.subrange(p + 1 as int, n as int));
                        reveal_with_fuel(pow10, 8);
                    }
                }
                return None;
            },
        };
        proof {
            assert(body.subrange(p - start + 1, body.len() as int) =~= bytes@.subrange(
                p + 1 as int,
                n as int,
            ));
            lemma_digits_val_bounds(bytes@.subrange(p + 1 as int, n as int));
            reveal_with_fuel(pow10, 8);
        }
        if flen == 1 {
            f * 100_000
        } else if flen == 2 {
            f * 10_000
        } else if flen == 3 {
            f * 1_000
        } else if flen == 4 {
            f * 100
        } else if flen == 5 {
            f * 10
        } else {
            f
        }
    } else {
        0
    };
    proof {
        reveal_with_fuel(pow10, 8);
        lemma_digits_val_bounds(bytes@.subrange(start as int, p as int));
        assert(weight_body_wf(body));
        assert(weight_body_val(body) == whole * 1_000_000 + frac_scaled);
        lemma_weight_body_val_parts(body);
    }
    let mag: u64 = match whole.checked_mul(1_000_000) {
        Some(t) => match t.checked_add(frac_scaled) {
            Some(m) => m,
            None => {
                return None;
            },
        },
        None => {
            return None;
        },
    };
    if mag > (i64::MAX as u64) {
        return None;
    }
    if neg {
        Some(-(mag as i64))
    } else {
        Some(mag as i64)
    }
}

} // verus!
