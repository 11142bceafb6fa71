//! Parsing a signed decimal integer from a token, with the same acceptance
//! rules as Rust's `i32` string parsing: an optional sign, then one or more
//! decimal digits, and the value must fit in 32 bits.

use vstd::prelude::*;

verus! {

/// A decimal digit; 48 and 57 are the code points of '0' and '9'.
pub open spec fn is_digit(c: char) -> bool {
    48 <= c as int && c as int <= 57
}

/// Every character of the sequence is a decimal digit.
pub open spec fn all_digits(s: Seq<char>) -> bool {
    forall|i: int| 0 <= i < s.len() ==> is_digit(#[trigger] s[i])
}

/// The value of a digit sequence read in base ten.
pub open spec fn digits_val(s: Seq<char>) -> int
    decreases s.len(),
{
    if s.len() == 0 {
        0
    } else {
        digits_val(s.drop_last()) * 10 + (s.last() as int - 48)
    }
}

/// The value denoted by a token under signed 32-bit decimal parsing:
/// an optional leading '+' or '-', then one or more digits, within the
/// `i32` range; anything else denotes nothing.
pub open spec fn parse_i32_spec(s: Seq<char>) -> Option<int> {
    let signed = s.len() > 0 && (s[0] == '+' || s[0] == '-');
    let digits = if signed {
        s.drop_first()
    } else {
        s
    };
    if digits.len() == 0 || !all_digits(digits) {
        None
    } else {
        let v = if s.len() > 0 && s[0] == '-' {
            -digits_val(digits)
        } else {
            digits_val(digits)
        };
        if i32::MIN <= v <= i32::MAX {
            Some(v)
        } else {
            None
        }
    }
}

/// The value of an all-digit sequence is non-negative.
proof fn lemma_digits_val_nonneg(s: Seq<char>)
    requires
        all_digits(s),
    ensures
        digits_val(s) >= 0,
    decreases s.len(),
{
    if s.len() > 0 {
        assert(all_digits(s.drop_last()));
        lemma_digits_val_nonneg(s.drop_last());
        assert(is_digit(s.last()));
    }
}

/// Extending an all-digit sequence to the right never decreases its value.
proof fn lemma_digits_val_prefix(s: Seq<char>, k: int)
    requires
        all_digits(s),
        0 <= k <= s.len(),
    ensures
        digits_val(s) >= digits_val(s.take(k)),
    decreases s.len() - k,
{
    if k == s.len() {
        assert(s.take(k) =~= s);
    } else {
        lemma_digits_val_prefix(s, k + 1);
        assert(s.take(k + 1).drop_last() =~= s.take(k));
        assert(s.take(k + 1).last() == s[k]);
        assert(all_digits(s.take(k)));
        lemma_digits_val_nonneg(s.take(k));
        assert(is_digit(s[k]));
        assert(digits_val(s.take(k + 1)) == digits_val(s.take(k)) * 10 + (s[k] as int - 48));
    }
}

/// Parses a token as a signed 32-bit decimal integer; `None` when the token
/// is not an optional sign followed by digits, or the value is out of range.
pub fn parse_i32(s: &str) -> (r: Option<i32>)
    ensures
        match r {
            Some(v) => parse_i32_spec(s@) == Some(v as int),
            None => parse_i32_spec(s@) is None,
        },
{
    let n = s.unicode_len();
    if n == 0 {
        return None;
    }
    let first = s.get_char(0);
    let neg = first == '-';
    let signed = neg || first == '+';
    let start: usize = if signed {
        1
    } else {
        0
    };
    let ghost digits = if signed {
        s@.drop_first()
    } else {
        s@
    };
    proof {
        assert(digits =~= s@.subrange(start as int, n as int));
    }
    if start == n {
        return None;
    }
    let mut mag: u64 = 0;
    let mut i = start;
    while i < n
        invariant
            n == s@.len(),
            start <= i <= n,
            start < n,
            start <= 1,
            neg == (s@[0] == '-'),
            signed == (s@[0] == '+' || s@[0] == '-'),
            signed == (start == 1),
            digits == (if signed {
                s@.drop_first()
            } else {
                s@
            }),
            digits == s@.subrange(start as int, n as int),
            all_digits(s@.subrange(start as int, i as int)),
            mag == digits_val(s@.subrange(start as int, i as int)),
            mag <= 0x8000_0000,
        decreases n - i,
    {
        let ghost sofar = s@.subrange(start as int, i as int);
        let c = s.get_char(i);
        let cp = c as u32;
        if cp < 48 || cp > 57 {
            proof {
                assert(digits[i - start] == s@[i as int]);
                assert(!all_digits(digits));
            }
            return None;
        }
        let d = (cp - 48) as u64;
        let newmag: u64 = mag * 10 + d;
        proof {
            let upto = s@.subrange(start as int, i as int + 1);
            assert(upto.drop_last() =~= sofar);
            assert(upto.last() == s@[i as int]);
            assert(digits_val(upto) == digits_val(sofar) * 10 + (s@[i as int] as int - 48));
            assert(forall|k: int| 0 <= k < upto.len() ==> is_digit(#[trigger] upto[k]));
        }
        if newmag > 0x8000_0000 {
            proof {
                let upto = s@.subrange(start as int, i as int + 1);
                if all_digits(digits) {
                    lemma_digits_val_prefix(digits, i + 1 - start);
                    assert(digits.take(i + 1 - start) =~= upto);
                    assert(digits_val(digits) >= digits_val(upto));
                    assert(digits_val(digits) > 0x8000_0000);
                }
            }
            return None;
        }
        mag = newmag;
        i = i + 1;
        proof {
            assert(s@.subrange(start as int, i as int) =~= s@.subrange(
                start as int,
                i as int - 1,
            ).push(s@[i as int - 1]));
        }
    }
    proof {
        assert(s@.subrange(start as int, n as int) =~= digits);
        assert(all_digits(digits));
        assert(mag == digits_val(digits));
    }
    if neg {
        if mag == 0x8000_0000 {
            Some(i32::MIN)
        } else {
            Some(-(mag as i32))
        }
    } else {
        if mag > 0x7fff_ffff {
            None
        } else {
            Some(mag as i32)
        }
    }
}

} // verus!
