use vstd::prelude::*;

verus! {

/// ASCII decimal digit.
pub open spec fn is_dec_digit(c: char) -> bool {
    '0' <= c && c <= '9'
}

pub open spec fn all_dec_digits(s: Seq<char>) -> bool {
    forall|i: int| 0 <= i < s.len() ==> is_dec_digit(#[trigger] s[i])
}

/// Numeric value of a run of decimal digits, most significant first.
pub open spec fn dec_val(s: Seq<char>) -> int
    decreases s.len(),
{
    if s.len() == 0 {
        0
    } else {
        dec_val(s.drop_last()) * 10 + (s.last() as u32 - 48)
    }
}

/// What `str::parse::<i64>` accepts: an optional sign followed by at least one
/// decimal digit, nothing else, with the value inside i64's range.
pub open spec fn parse_i64_spec(s: Seq<char>) -> Option<i64> {
    let digits = if s.len() > 0 && (s[0] == '+' || s[0] == '-') {
        s.subrange(1, s.len() as int)
    } else {
        s
    };
    let neg = s.len() > 0 && s[0] == '-';
    if digits.len() == 0 || !all_dec_digits(digits) {
        None
    } else {
        let v = if neg {
            -dec_val(digits)
        } else {
            dec_val(digits)
        };
        if i64::MIN <= v <= i64::MAX {
            Some(v as i64)
        } else {
            None
        }
    }
}

proof fn lemma_dec_val_nonneg(s: Seq<char>)
    requires
        all_dec_digits(s),
    ensures
        dec_val(s) >= 0,
    decreases s.len(),
{
    if s.len() > 0 {
        assert(all_dec_digits(s.drop_last()));
        lemma_dec_val_nonneg(s.drop_last());
    }
}

/// A longer run of digits never has a smaller value than its prefix.
proof fn lemma_dec_val_prefix_le(s: Seq<char>, k: int)
    requires
        all_dec_digits(s),
        0 <= k <= s.len(),
    ensures
        dec_val(s.subrange(0, k)) <= dec_val(s),
    decreases s.len() - k,
{
    if k < s.len() {
        assert(all_dec_digits(s.subrange(0, k)));
        lemma_dec_val_nonneg(s.subrange(0, k));
        assert(s.subrange(0, k + 1).drop_last() =~= s.subrange(0, k));
        assert(dec_val(s.subrange(0, k)) <= dec_val(s.subrange(0, k + 1)));
        lemma_dec_val_prefix_le(s, k + 1);
    } else {
        assert(s.subrange(0, k) =~= s);
    }
}

/// Parses a decimal integer exactly as `str::parse::<i64>` does: an optional
/// `+` or `-`, then at least one digit; `None` on anything else or when the
/// value falls outside i64's range.
pub fn parse_i64(s: &str) -> (r: Option<i64>)
    ensures
        r == parse_i64_spec(s@),
{
    let n = s.unicode_len();
    if n == 0 {
        return None;
    }
    let first = s.get_char(0);
    let neg = first == '-';
    let start: usize = if first == '-' || first == '+' {
        1
    } else {
        0
    };
    if n == start {
        return None;
    }
    let ghost digits = s@.subrange(start as int, n as int);
    proof {
        if start == 0 {
            assert(digits =~= s@);
        }
    }
    // The largest magnitude str::parse accepts: one more for `-` because
    // i64::MIN's magnitude exceeds i64::MAX's.
    let limit: u64 = if neg {
        9223372036854775808u64
    } else {
        9223372036854775807u64
    };
    let mut mag: u64 = 0;
    let mut k: usize = start;
    while k < n
        invariant
            n == s@.len(),
            0 < n,
            start <= 1,
            start <= k <= n,
            start < n,
            neg == (s@[0] == '-'),
            (start == 1) == (s@[0] == '-' || s@[0] == '+'),
            digits == s@.subrange(start as int, n as int),
            start == 0 ==> digits == s@,
            limit == if neg {
                9223372036854775808u64
            } else {
                9223372036854775807u64
            },
            all_dec_digits(s@.subrange(start as int, k as int)),
            mag == dec_val(s@.subrange(start as int, k as int)),
            mag <= limit,
        decreases n - k,
    {
        let c = s.get_char(k);
        if !('0' <= c && c <= '9') {
            proof {
                assert(digits[k - start] == s@[k as int]);
                assert(!all_dec_digits(digits));
            }
            return None;
        }
        let d: u64 = (c as u32 - 48) as u64;
        let next: u128 = mag as u128 * 10 + d as u128;
        proof {
            assert(s@.subrange(start as int, k + 1).drop_last() =~= s@.subrange(
                start as int,
                k as int,
            ));
            assert(s@.subrange(start as int, k + 1).last() == s@[k as int]);
        }
        if next > limit as u128 {
            proof {
                let prefix = s@.subrange(start as int, k + 1);
                assert(c == s@[k as int]);
                assert(c as u32 >= 48);
                assert(dec_val(prefix) == mag * 10 + d);
                if all_dec_digits(digits) {
                    assert(digits.subrange(0, k + 1 - start) =~= prefix);
                    lemma_dec_val_prefix_le(digits, k + 1 - start);
                    assert(dec_val(digits) >= dec_val(prefix));
                    assert(dec_val(digits) > limit);
                }
            }
            return None;
        }
        mag = next as u64;
        k = k + 1;
        proof {
            assert(all_dec_digits(s@.subrange(start as int, k as int)));
        }
    }
    proof {
        assert(s@.subrange(start as int, n as int) == digits);
        lemma_dec_val_nonneg(digits);
    }
    if neg {
        if mag == 9223372036854775808u64 {
            assert(i64::MIN as int == -(mag as int));
            Some(i64::MIN)
        } else {
            Some(-(mag as i64))
        }
    } else {
        Some(mag as i64)
    }
}

} // verus!
