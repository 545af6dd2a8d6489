//! Parsing of attribute strings into typed values.
//!
//! Custom components receive their attributes as raw strings and may ask for
//! a typed reading.  The integer reading accepts an optional sign followed by
//! one or more decimal digits, exactly when the value fits the target type;
//! everything else is a parse error, surfaced as a recoverable value.

use vstd::prelude::*;

verus! {

pub open spec fn spec_is_digit(c: char) -> bool {
    '0' <= c && c <= '9'
}

pub open spec fn spec_digit_val(c: char) -> int {
    c as int - '0' as int
}

/// The value of a decimal digit string, most significant digit first.
pub open spec fn spec_digits_value(s: Seq<char>) -> int
    decreases s.len(),
{
    if s.len() == 0 {
        0
    } else {
        spec_digits_value(s.drop_last()) * 10 + spec_digit_val(s.last())
    }
}

pub open spec fn spec_all_digits(s: Seq<char>) -> bool {
    forall|i: int| 0 <= i < s.len() ==> spec_is_digit(#[trigger] s[i])
}

/// What parsing a signed 64-bit integer from a string yields: an optional
/// `+` or `-` sign followed by at least one decimal digit, provided the value
/// fits; anything else — empty input, a stray character, a value out of
/// range — is no integer.
pub open spec fn spec_parse_i64(s: Seq<char>) -> Option<i64> {
    let signed = s.len() > 0 && (s[0] == '-' || s[0] == '+');
    let negative = s.len() > 0 && s[0] == '-';
    let digits = if signed {
        s.drop_first()
    } else {
        s
    };
    if digits.len() > 0 && spec_all_digits(digits) {
        let v = if negative {
            -spec_digits_value(digits)
        } else {
            spec_digits_value(digits)
        };
        if i64::MIN <= v <= i64::MAX {
            Some(v as i64)
        } else {
            None
        }
    } else {
        None
    }
}

/// The value of an all-digit string is never negative.
proof fn lemma_digits_value_nonneg(s: Seq<char>)
    requires
        spec_all_digits(s),
    ensures
        spec_digits_value(s) >= 0,
    decreases s.len(),
{
    if s.len() > 0 {
        assert(spec_all_digits(s.drop_last()));
        lemma_digits_value_nonneg(s.drop_last());
    }
}

/// Reading further digits never shrinks the value of an all-digit string.
proof fn lemma_digits_value_prefix(s: Seq<char>, k: int)
    requires
        spec_all_digits(s),
        0 <= k <= s.len(),
    ensures
        spec_digits_value(s) >= spec_digits_value(s.take(k)),
    decreases s.len(),
{
    if k == s.len() {
        assert(s.take(k) =~= s);
    } else {
        assert(spec_all_digits(s.drop_last()));
        lemma_digits_value_prefix(s.drop_last(), k);
        assert(s.drop_last().take(k) =~= s.take(k));
        lemma_digits_value_nonneg(s.drop_last());
    }
}

/// Parses a signed 64-bit integer from a decimal string: an optional sign,
/// then one or more digits, accepted exactly when the value fits.
pub fn parse_i64(s: &str) -> (r: Option<i64>)
    ensures
        r == spec_parse_i64(s@),
{
    let n = s.unicode_len();
    if n == 0 {
        return None;
    }
    let c0 = s.get_char(0);
    let signed = c0 == '-' || c0 == '+';
    let negative = c0 == '-';
    let start: usize = if signed {
        1
    } else {
        0
    };
    let ghost digits = if signed {
        s@.drop_first()
    } else {
        s@
    };
    proof {
        assert forall|j: int| 0 <= j < digits.len() implies digits[j] == s@[j + start] by {}
    }
    if n == start {
        return None;
    }
    let bound: u64 = if negative {
        9223372036854775808
    } else {
        9223372036854775807
    };
    let mut m: u64 = 0;
    let mut i: usize = start;
    proof {
        assert(digits.take(0) =~= Seq::<char>::empty());
    }
    while i < n
        invariant
            start <= i <= n,
            n == s@.len(),
            start == 1 ==> s@.len() > 0 && (s@[0] == '-' || s@[0] == '+'),
            start == 0 ==> !(s@[0] == '-' || s@[0] == '+'),
            negative == (s@[0] == '-'),
            digits == (if start == 1 {
                s@.drop_first()
            } else {
                s@
            }),
            digits.len() == n - start,
            forall|j: int| 0 <= j < digits.len() ==> digits[j] == s@[j + start],
            spec_all_digits(digits.take(i - start)),
            m == spec_digits_value(digits.take(i - start)),
            m <= bound,
            bound == (if negative {
                9223372036854775808u64
            } else {
                9223372036854775807u64
            }),
        decreases n - i,
    {
        let c = s.get_char(i);
        proof {
            assert(c == digits[i - start]);
        }
        if !(c >= '0' && c <= '9') {
            proof {
                assert(!spec_is_digit(digits[i - start]));
            }
            return None;
        }
        let d: u64 = ((c as u32) - ('0' as u32)) as u64;
        proof {
            assert(d == spec_digit_val(c));
            assert(digits.take(i - start + 1).drop_last() =~= digits.take(i - start));
            assert(digits.take(i - start + 1).last() == digits[i - start]);
        }
        if m > (bound - d) / 10 {
            proof {
                assert(10 * ((bound - d) / 10) + (bound - d) % 10 == bound - d);
                assert(m * 10 + d > bound);
                assert(spec_digits_value(digits.take(i - start + 1)) == m * 10 + d);
                assert(spec_all_digits(digits.take(i - start + 1)));
                assert forall|j: int| 0 <= j < digits.len() implies spec_is_digit(
                    #[trigger] digits[j],
                ) || spec_parse_i64(s@) is None by {}
                if spec_all_digits(digits) {
                    lemma_digits_value_prefix(digits, i - start + 1);
                    assert(spec_digits_value(digits) > bound);
                }
            }
            return None;
        }
        proof {
            assert(10 * ((bound - d) / 10) + (bound - d) % 10 == bound - d);
            assert(m * 10 + d <= bound);
        }
        m = m * 10 + d;
        i = i + 1;
    }
    proof {
        assert(digits.take(n - start) =~= digits);
    }
    if negative {
        if m == 9223372036854775808 {
            Some(i64::MIN)
        } else {
            Some(-(m as i64))
        }
    } else {
        Some(m as i64)
    }
}

} // verus!
