//! Decimal integer parsing over bytes, mirroring the grammar of Rust's
//! `str::parse` for unsigned and signed integers: an optional sign, then one
//! or more ASCII digits, and the value must fit the target type.

use vstd::prelude::*;

verus! {

/// `b` is an ASCII decimal digit.
pub open spec fn is_digit(b: u8) -> bool {
    48 <= b <= 57
}

/// Every byte of `s` is an ASCII decimal digit.
pub open spec fn all_digits(s: Seq<u8>) -> bool {
    forall|i: int| 0 <= i < s.len() ==> is_digit(s[i])
}

/// The value of a digit string read in base ten.
pub open spec fn digits_val(s: Seq<u8>) -> nat
    decreases s.len(),
{
    if s.len() == 0 {
        0
    } else {
        (digits_val(s.drop_last()) * 10 + (s.last() - 48)) as nat
    }
}

/// Reading one more digit relates a prefix to the next longer prefix.
pub proof fn lemma_digits_val_step(s: Seq<u8>, i: int)
    requires
        0 <= i < s.len(),
        is_digit(s[i]),
    ensures
        digits_val(s.subrange(0, i + 1)) == digits_val(s.subrange(0, i)) * 10 + (s[i] - 48),
{
    let t = s.subrange(0, i + 1);
    assert(t.drop_last() =~= s.subrange(0, i));
    assert(t.last() == s[i]);
}

/// A digit string's value is at least the value of any of its prefixes.
pub proof fn lemma_digits_val_prefix_le(s: Seq<u8>, i: int)
    requires
        0 <= i <= s.len(),
        all_digits(s),
    ensures
        digits_val(s.subrange(0, i)) <= digits_val(s),
    decreases s.len() - i,
{
    if i == s.len() {
        assert(s.subrange(0, i) =~= s);
    } else {
        lemma_digits_val_step(s, i);
        lemma_digits_val_prefix_le(s, i + 1);
        assert(digits_val(s.subrange(0, i)) <= digits_val(s.subrange(0, i + 1)));
    }
}

/// The value of a nonempty all-digit string, provided it stays within
/// `bound`; `None` on an empty string, a non-digit byte, or overflow.
pub fn parse_digits_bounded(d: &[u8], bound: u64) -> (r: Option<u64>)
    ensures
        r == (if d@.len() > 0 && all_digits(d@) && digits_val(d@) <= bound {
            Some(digits_val(d@) as u64)
        } else {
            None::<u64>
        }),
{
    if d.len() == 0 {
        return None;
    }
    let len = d.len();
    let mut acc: u64 = 0;
    let mut i: usize = 0;
    proof {
        assert(d@.subrange(0, 0) =~= Seq::<u8>::empty());
    }
    while i < len
        invariant
            i <= len,
            len == d@.len(),
            forall|m: int| 0 <= m < i ==> is_digit(d@[m]),
            acc == digits_val(d@.subrange(0, i as int)),
            acc <= bound,
        decreases len - i,
    {
        let b = d[i];
        if b < 48 || b > 57 {
            return None;
        }
        let dig: u64 = (b - 48) as u64;
        proof {
            lemma_digits_val_step(d@, i as int);
        }
        let next = match acc.checked_mul(10) {
            Some(m) => m.checked_add(dig),
            None => None,
        };
        match next {
            Some(v) if v <= bound => {
                acc = v;
            },
            _ => {
                // the prefix up to and including this digit already exceeds
                // the bound, so the whole string does
                proof {
                    if all_digits(d@) {
                        lemma_digits_val_prefix_le(d@, i + 1);
                    }
                }
                return None;
            },
        }
        i = i + 1;
    }
    proof {
        assert(d@.subrange(0, len as int) =~= d@);
    }
    Some(acc)
}

/// The result of `str::parse::<u64>` on `s`: an optional leading plus sign,
/// then one or more digits, with the value fitting in 64 bits.
pub open spec fn parsed_u64(s: Seq<u8>) -> Option<u64> {
    let d = if s.len() > 0 && s[0] == 43 {
        s.drop_first()
    } else {
        s
    };
    if d.len() > 0 && all_digits(d) && digits_val(d) <= u64::MAX {
        Some(digits_val(d) as u64)
    } else {
        None
    }
}

/// Parse `s` as a `u64`, accepting exactly what `str::parse::<u64>` accepts.
pub fn parse_u64(s: &[u8]) -> (r: Option<u64>)
    ensures
        r == parsed_u64(s@),
{
    if s.len() > 0 && s[0] == 43 {
        let d = vstd::slice::slice_subrange(s, 1, s.len());
        proof {
            assert(d@ =~= s@.drop_first());
        }
        parse_digits_bounded(d, u64::MAX)
    } else {
        parse_digits_bounded(s, u64::MAX)
    }
}

/// The result of `str::parse::<i64>` on `s`: an optional sign, then one or
/// more digits, with the signed value fitting in 64 bits.
pub open spec fn parsed_i64(s: Seq<u8>) -> Option<i64> {
    let d = if s.len() > 0 && (s[0] == 43 || s[0] == 45) {
        s.drop_first()
    } else {
        s
    };
    let negative = s.len() > 0 && s[0] == 45;
    if d.len() > 0 && all_digits(d) {
        let v = if negative {
            -(digits_val(d) as int)
        } else {
            digits_val(d) as int
        };
        if i64::MIN <= v <= i64::MAX {
            Some(v as i64)
        } else {
            None
        }
    } else {
        None
    }
}

/// Parse `s` as an `i64`, accepting exactly what `str::parse::<i64>` accepts.
pub fn parse_i64(s: &[u8]) -> (r: Option<i64>)
    ensures
        r == parsed_i64(s@),
{
    let negative = s.len() > 0 && s[0] == 45;
    let signed = s.len() > 0 && (s[0] == 43 || s[0] == 45);
    let d = if signed {
        let d = vstd::slice::slice_subrange(s, 1, s.len());
        proof {
            assert(d@ =~= s@.drop_first());
        }
        d
    } else {
        s
    };
    if negative {
        // |i64::MIN| is one more than i64::MAX
        let mag = parse_digits_bounded(d, 9223372036854775808u64);
        match mag {
            Some(m) => {
                if m == 9223372036854775808u64 {
                    Some(i64::MIN)
                } else {
                    Some(-(m as i64))
                }
            },
            None => None,
        }
    } else {
        let mag = parse_digits_bounded(d, i64::MAX as u64);
        match mag {
            Some(m) => Some(m as i64),
            None => None,
        }
    }
}

} // verus!
