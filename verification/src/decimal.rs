//! Decimal text, and the one shared reading of upstream numeric strings.
//!
//! The upstream service encodes velocities and distances as decimal text
//! (`"65260.5699103704"`). The library reads every such field through
//! [`parse_decimal`], which accepts an optional leading minus sign, digits
//! with at most one decimal point among them, and at least one digit, and
//! returns the whole-number part. Anything else — or a whole-number part
//! that does not fit an `i64` — is the library's single malformed-number
//! failure.

use vstd::prelude::*;

verus! {

/// A decimal digit.
pub open spec fn is_digit(c: char) -> bool {
    48 <= c as u32 <= 57
}

/// The numeric value of one digit.
pub open spec fn digit_val(c: char) -> int {
    c as u32 - 48
}

/// The value of a run of digits, most significant first.
pub open spec fn digits_val(s: Seq<char>) -> int
    decreases s.len(),
{
    if s.len() == 0 {
        0
    } else {
        digits_val(s.drop_last()) * 10 + digit_val(s.last())
    }
}

/// `d` is the position of the single decimal point in `s` (or `s.len()` when
/// there is none); every other character is a digit.
pub open spec fn is_sep_at(s: Seq<char>, d: int) -> bool {
    &&& 0 <= d <= s.len()
    &&& d < s.len() ==> s[d] == '.'
    &&& forall|i: int| 0 <= i < s.len() && i != d ==> is_digit(#[trigger] s[i])
}

/// Whether the text opens with a minus sign.
pub open spec fn decimal_is_neg(s: Seq<char>) -> bool {
    s.len() > 0 && s[0] == '-'
}

/// The text after the optional sign.
pub open spec fn decimal_body(s: Seq<char>) -> Seq<char> {
    if decimal_is_neg(s) {
        s.skip(1)
    } else {
        s
    }
}

/// Well-formed decimal text: an optional minus sign, then digits holding at
/// most one decimal point, with at least one digit among them.
pub open spec fn is_decimal_text(s: Seq<char>) -> bool {
    let body = decimal_body(s);
    &&& body.len() >= 1
    &&& exists|d: int| is_sep_at(body, d) && (body.len() >= 2 || d == body.len())
}

/// The whole-number part of decimal text: the value of the digits before the
/// decimal point, negated after a minus sign. Meaningful for text that
/// satisfies [`is_decimal_text`].
pub open spec fn decimal_int_part(s: Seq<char>) -> int {
    let body = decimal_body(s);
    let d = choose|d: int| is_sep_at(body, d);
    let cut = if 0 <= d <= body.len() { d } else { 0 };
    let mag = digits_val(body.subrange(0, cut));
    if decimal_is_neg(s) {
        -mag
    } else {
        mag
    }
}

/// Well-formed decimal text whose whole-number part fits an `i64`: exactly
/// the strings [`parse_decimal`] accepts.
pub open spec fn parses_to_i64(s: Seq<char>) -> bool {
    &&& is_decimal_text(s)
    &&& i64::MIN <= decimal_int_part(s) <= i64::MAX
}

/// A run of digits has a non-negative value.
pub proof fn lemma_digits_val_nonneg(s: Seq<char>)
    requires
        forall|i: int| 0 <= i < s.len() ==> is_digit(#[trigger] s[i]),
    ensures
        digits_val(s) >= 0,
    decreases s.len(),
{
    if s.len() > 0 {
        lemma_digits_val_nonneg(s.drop_last());
    }
}

/// Extending a run of digits never lowers its value.
pub proof fn lemma_digits_val_prefix_le(s: Seq<char>, j: int, k: int)
    requires
        0 <= j <= k <= s.len(),
        forall|i: int| 0 <= i < s.len() ==> is_digit(#[trigger] s[i]),
    ensures
        digits_val(s.subrange(0, j)) <= digits_val(s.subrange(0, k)),
    decreases k - j,
{
    if j < k {
        let p = s.subrange(0, j + 1);
        assert(p.drop_last() =~= s.subrange(0, j));
        lemma_digits_val_nonneg(s.subrange(0, j));
        assert(digits_val(s.subrange(0, j)) <= digits_val(s.subrange(0, j + 1)));
        lemma_digits_val_prefix_le(s, j + 1, k);
    }
}

/// The decimal-point position of [`is_sep_at`] is unique.
pub proof fn lemma_sep_at_unique(s: Seq<char>, d1: int, d2: int)
    requires
        is_sep_at(s, d1),
        is_sep_at(s, d2),
    ensures
        d1 == d2,
{
    if d1 < d2 {
        assert(s[d1] == '.');
        assert(is_digit(s[d1]));
    }
    if d2 < d1 {
        assert(s[d2] == '.');
        assert(is_digit(s[d2]));
    }
}

/// Reads the whole-number part of decimal text.
///
/// Returns `Some` exactly on well-formed decimal text whose whole-number
/// part fits an `i64`; the result is that whole-number part. This is the
/// library's single parse of upstream numeric strings: both the view-model
/// projection and the statistics counter go through it.
pub fn parse_decimal(s: &str) -> (r: Option<i64>)
    ensures
        r is Some <==> parses_to_i64(s@),
        r matches Some(v) ==> v as int == decimal_int_part(s@),
{
    let n = s.unicode_len();
    if n == 0 {
        return None;
    }
    let neg = s.get_char(0) == '-';
    let start: usize = if neg { 1 } else { 0 };
    if start == n {
        assert(decimal_body(s@).len() == 0);
        return None;
    }
    let ghost body = decimal_body(s@);
    assert(body.len() == n - start);
    assert(forall|k: int| 0 <= k < body.len() ==> body[k] == s@[k + start]);

    let mut i: usize = start;
    let mut mag: u64 = 0;
    let mut saw_dot = false;
    let mut dot: usize = n;

    // Scan the whole-number digits up to the decimal point or the end.
    while i < n && !saw_dot
        invariant
            start <= i <= n,
            n == s@.len(),
            start == if decimal_is_neg(s@) { 1int } else { 0int },
            start < n,
            body == decimal_body(s@),
            body.len() == n - start,
            forall|k: int| 0 <= k < body.len() ==> body[k] == s@[k + start],
            !saw_dot ==> dot == n,
            !saw_dot ==> forall|k: int| start <= k < i ==> is_digit(#[trigger] s@[k]),
            !saw_dot ==> mag == digits_val(s@.subrange(start as int, i as int)),
            saw_dot ==> {
                &&& start <= dot < n
                &&& i == dot + 1
                &&& s@[dot as int] == '.'
                &&& forall|k: int| start <= k < dot ==> is_digit(#[trigger] s@[k])
                &&& mag == digits_val(s@.subrange(start as int, dot as int))
            },
            mag < 10000000000000000000u64,
        decreases n - i + (if saw_dot { 0int } else { 1int }),
    {
        let c = s.get_char(i);
        if c == '.' {
            saw_dot = true;
            dot = i;
            i = i + 1;
        } else {
            let cv = c as u32;
            if !(48 <= cv && cv <= 57) {
                // Not a digit and not the decimal point: malformed.
                proof {
                    if is_decimal_text(s@) {
                        let d = choose|d: int|
                            is_sep_at(body, d) && (body.len() >= 2 || d == body.len());
                        if d == i - start {
                            assert(body[d] == '.');
                        } else {
                            assert(is_digit(body[i - start]));
                        }
                    }
                }
                return None;
            }
            if mag >= 1000000000000000000u64 {
                // Another digit would push the whole-number part past i64.
                proof {
                    if is_decimal_text(s@) {
                        let d = choose|d: int|
                            is_sep_at(body, d) && (body.len() >= 2 || d == body.len());
                        // Everything scanned so far is a digit, so the
                        // decimal point can only sit past this position.
                        assert(d >= i - start + 1) by {
                            if d < i - start + 1 {
                                assert(body[d] == '.');
                                assert(is_digit(body[d]));
                            }
                        }
                        let intpart = body.subrange(0, d);
                        let here = body.subrange(0, i - start + 1);
                        assert(here.drop_last() =~= body.subrange(0, i - start));
                        assert(body.subrange(0, i - start) =~= s@.subrange(
                            start as int,
                            i as int,
                        ));
                        assert(digits_val(here) == mag * 10 + digit_val(s@[i as int]));
                        assert(forall|k: int|
                            0 <= k < intpart.len() ==> is_digit(#[trigger] intpart[k]));
                        lemma_digits_val_prefix_le(intpart, i - start + 1, d);
                        assert(intpart.subrange(0, i - start + 1) =~= here);
                        assert(intpart.subrange(0, d) =~= intpart);
                        assert(digits_val(intpart) >= 10000000000000000000int);
                        let d0 = choose|d0: int| is_sep_at(body, d0);
                        lemma_sep_at_unique(body, d0, d);
                    }
                }
                return None;
            }
            let d64: u64 = (cv - 48) as u64;
            proof {
                let p = s@.subrange(start as int, i + 1 as int);
                assert(p.drop_last() =~= s@.subrange(start as int, i as int));
                assert(p.last() == s@[i as int]);
            }
            mag = mag * 10 + d64;
            i = i + 1;
        }
    }

    // Scan the digits after the decimal point.
    while i < n
        invariant
            start <= i <= n,
            n == s@.len(),
            start == if decimal_is_neg(s@) { 1int } else { 0int },
            start < n,
            body == decimal_body(s@),
            body.len() == n - start,
            forall|k: int| 0 <= k < body.len() ==> body[k] == s@[k + start],
            saw_dot ==> {
                &&& start <= dot < n
                &&& dot < i
                &&& s@[dot as int] == '.'
                &&& forall|k: int| dot < k < i ==> is_digit(#[trigger] s@[k])
            },
            !saw_dot ==> dot == n && i == n,
            forall|k: int| start <= k < dot ==> is_digit(#[trigger] s@[k]),
            mag == digits_val(s@.subrange(start as int, dot as int)),
            mag < 10000000000000000000u64,
        decreases n - i,
    {
        let c = s.get_char(i);
        let cv = c as u32;
        if !(48 <= cv && cv <= 57) {
            // A second decimal point or other stray character: malformed.
            proof {
                if is_decimal_text(s@) {
                    let d = choose|d: int|
                        is_sep_at(body, d) && (body.len() >= 2 || d == body.len());
                    if d == i - start {
                        assert(body[dot - start] == '.');
                        assert(is_digit(body[dot - start]));
                    } else {
                        assert(is_digit(body[i - start]));
                    }
                }
            }
            return None;
        }
        i = i + 1;
    }

    // At least one digit must appear: the lone texts without one that reach
    // this point are "." and "-.".
    if dot == start && dot + 1 == n {
        proof {
            if is_decimal_text(s@) {
                let d = choose|d: int| is_sep_at(body, d) && (body.len() >= 2 || d == body.len());
                assert(body.len() == 1);
                assert(d == 1);
                assert(is_digit(body[0]));
                assert(body[0] == '.');
            }
        }
        return None;
    }

    proof {
        let db: int = dot - start;
        assert(is_sep_at(body, db)) by {
            assert(forall|k: int| 0 <= k < body.len() && k != db ==> is_digit(#[trigger] body[k]))
                by {
                assert(forall|k: int| 0 <= k < db ==> is_digit(#[trigger] body[k]));
                assert(forall|k: int| db < k < body.len() ==> is_digit(#[trigger] body[k]));
            }
        }
        assert(body.len() >= 2 || db == body.len());
        assert(is_decimal_text(s@));
        let d0 = choose|d0: int| is_sep_at(body, d0);
        lemma_sep_at_unique(body, d0, db);
        assert(body.subrange(0, db) =~= s@.subrange(start as int, dot as int));
        assert(decimal_int_part(s@) == if decimal_is_neg(s@) {
            -(mag as int)
        } else {
            mag as int
        });
    }

    if neg {
        if mag > 9223372036854775808u64 {
            return None;
        }
        if mag == 9223372036854775808u64 {
            Some(i64::MIN)
        } else {
            Some(-(mag as i64))
        }
    } else {
        if mag > 9223372036854775807u64 {
            return None;
        }
        Some(mag as i64)
    }
}

} // verus!
