//! Decimal counts as the external platform reports them.

use vstd::prelude::*;
use vstd::string::*;

verus! {

pub open spec fn is_digit(c: char) -> bool {
    '0' <= c <= '9'
}

pub open spec fn all_digits(s: Seq<char>) -> bool {
    forall|i: int| 0 <= i < s.len() ==> is_digit(#[trigger] s[i])
}

/// Value of a string of decimal digits.
pub open spec fn digits_value(s: Seq<char>) -> int
    decreases s.len(),
{
    if s.len() == 0 {
        0
    } else {
        digits_value(s.drop_last()) * 10 + (s.last() as int - '0' as int)
    }
}

/// The integer a decimal text denotes: an optional `+` or `-` followed by
/// at least one digit, and nothing else.
pub open spec fn decimal_value(s: Seq<char>) -> Option<int> {
    if s.len() > 0 && (s[0] == '+' || s[0] == '-') {
        let body = s.subrange(1, s.len() as int);
        if body.len() > 0 && all_digits(body) {
            Some(if s[0] == '-' { -digits_value(body) } else { digits_value(body) })
        } else {
            None
        }
    } else if s.len() > 0 && all_digits(s) {
        Some(digits_value(s))
    } else {
        None
    }
}

/// A count as the library stores it: the denoted integer when it fits an
/// `i64`, and zero for text that is not a decimal or does not fit.
pub open spec fn count_value(s: Seq<char>) -> int {
    match decimal_value(s) {
        Some(v) => if i64::MIN <= v <= i64::MAX { v } else { 0 },
        None => 0,
    }
}

proof fn lemma_digits_value_nonneg(s: Seq<char>)
    requires
        all_digits(s),
    ensures
        digits_value(s) >= 0,
    decreases s.len(),
{
    if s.len() > 0 {
        assert(all_digits(s.drop_last())) by {
            assert forall|i: int| 0 <= i < s.drop_last().len() implies is_digit(#[trigger] s.drop_last()[i]) by {
                assert(s.drop_last()[i] == s[i]);
            }
        }
        lemma_digits_value_nonneg(s.drop_last());
        assert(is_digit(s[s.len() - 1]));
    }
}

/// Magnitude of `i64::MIN`, the largest magnitude an `i64` can take.
pub const MAX_MAGNITUDE: u64 = 9223372036854775808;

/// Any magnitude beyond `MAX_MAGNITUDE` is kept as this value.
pub const MAGNITUDE_CAP: u64 = 9223372036854775809;

/// Largest accumulated magnitude that can take one more digit without
/// passing `MAGNITUDE_CAP`.
pub const MAGNITUDE_STEP_LIMIT: u64 = 922337203685477580;

/// Reads a count; text that is not a decimal integer, or that does not fit
/// an `i64`, reads as zero.
pub fn parse_count(s: &str) -> (r: i64)
    ensures
        r as int == count_value(s@),
{
    let n = s.unicode_len();
    if n == 0 {
        return 0;
    }
    let first = s.get_char(0);
    let signed = first == '+' || first == '-';
    let start: usize = if signed { 1 } else { 0 };
    if start == n {
        return 0;
    }
    let ghost body = s@.subrange(start as int, n as int);
    let mut mag: u64 = 0;
    let mut i: usize = start;
    while i < n
        invariant
            n == s@.len(),
            start <= i <= n,
            start < n,
            first == s@[0],
            signed == (first == '+' || first == '-'),
            start == if signed { 1usize } else { 0usize },
            body == s@.subrange(start as int, n as int),
            all_digits(body.subrange(0, i - start)),
            mag <= MAGNITUDE_CAP,
            mag as int == if digits_value(body.subrange(0, i - start)) < MAGNITUDE_CAP as int {
                digits_value(body.subrange(0, i - start))
            } else {
                MAGNITUDE_CAP as int
            },
        decreases n - i,
    {
        let c = s.get_char(i);
        let ghost pre = body.subrange(0, i - start);
        let ghost next = body.subrange(0, i + 1 - start);
        proof {
            assert(next.drop_last() =~= pre);
            assert(next.last() == c);
            lemma_digits_value_nonneg(pre);
        }
        if !('0' <= c && c <= '9') {
            proof {
                assert(!all_digits(body)) by {
                    assert(body[i - start] == c);
                }
                if signed {
                    assert(s@.subrange(1, s@.len() as int) =~= body);
                } else {
                    assert(!all_digits(s@)) by {
                        assert(s@[i as int] == c);
                    }
                }
            }
            return 0;
        }
        let d = (c as u32 - '0' as u32) as u64;
        let v = if mag > MAGNITUDE_STEP_LIMIT { MAGNITUDE_CAP } else { mag * 10 + d };
        mag = if v < MAGNITUDE_CAP { v } else { MAGNITUDE_CAP };
        proof {
            assert(all_digits(next)) by {
                assert forall|q: int| 0 <= q < next.len() implies is_digit(#[trigger] next[q]) by {
                    if q < pre.len() {
                        assert(next[q] == pre[q]);
                    }
                }
            }
            let pv = digits_value(pre);
            if pv >= MAGNITUDE_CAP as int {
                assert(pv * 10 + d >= MAGNITUDE_CAP as int);
            }
        }
        i = i + 1;
    }
    proof {
        assert(body.subrange(0, n - start) =~= body);
        if signed {
            assert(s@.subrange(1, s@.len() as int) =~= body);
        } else {
            assert(body =~= s@);
        }
    }
    if first == '-' {
        if mag < MAX_MAGNITUDE {
            -(mag as i64)
        } else if mag == MAX_MAGNITUDE {
            i64::MIN
        } else {
            0
        }
    } else if mag < MAX_MAGNITUDE {
        mag as i64
    } else {
        0
    }
}

} // verus!
