//! Decimal integer parsing as `str::parse` does it for the integer types:
//! an optional sign (`+` for unsigned types, `+` or `-` for signed ones)
//! followed by at least one ASCII digit and nothing else, in range.
use vstd::prelude::*;
use crate::text::chars_of;

verus! {

/// An ASCII decimal digit.
pub open spec fn is_digit(c: char) -> bool {
    '0' <= c <= '9'
}

/// Whether every character of `s` is an ASCII digit.
pub open spec fn all_digits(s: Seq<char>) -> bool {
    forall|i: int| 0 <= i < s.len() ==> is_digit(#[trigger] s[i])
}

/// The value of a string of decimal digits.
pub open spec fn digits_value(s: Seq<char>) -> nat
    decreases s.len(),
{
    if s.len() == 0 {
        0
    } else {
        digits_value(s.drop_last()) * 10 + ((s.last() as int) - ('0' as int)) as nat
    }
}

/// The value of `s` as an unsigned integer no greater than `max`: an
/// optional `+`, then one or more digits.
pub open spec fn spec_parse_unsigned(s: Seq<char>, max: int) -> Option<int> {
    let body = if s.len() > 0 && s[0] == '+' {
        s.drop_first()
    } else {
        s
    };
    if body.len() > 0 && all_digits(body) && digits_value(body) <= max {
        Some(digits_value(body) as int)
    } else {
        None
    }
}

/// The value of `s` as an `i64`: an optional `+` or `-`, then one or more
/// digits, within `i64::MIN..=i64::MAX`.
pub open spec fn spec_parse_i64(s: Seq<char>) -> Option<int> {
    let neg = s.len() > 0 && s[0] == '-';
    let body = if s.len() > 0 && (s[0] == '-' || s[0] == '+') {
        s.drop_first()
    } else {
        s
    };
    if body.len() > 0 && all_digits(body) {
        let v: int = if neg {
            -(digits_value(body) as int)
        } else {
            digits_value(body) as int
        };
        if i64::MIN <= v <= i64::MAX {
            Some(v)
        } else {
            None
        }
    } else {
        None
    }
}

/// A prefix of a digit string is worth no more than the whole.
proof fn lemma_prefix_value_le(s: Seq<char>, k: int)
    requires
        all_digits(s),
        0 <= k <= s.len(),
    ensures
        digits_value(s.subrange(0, k)) <= digits_value(s),
    decreases s.len(),
{
    if k < s.len() {
        let t = s.drop_last();
        assert(all_digits(t)) by {
            assert forall|i: int| 0 <= i < t.len() implies is_digit(#[trigger] t[i]) by {
                assert(t[i] == s[i]);
            }
        }
        lemma_prefix_value_le(t, k);
        assert(t.subrange(0, k) =~= s.subrange(0, k));
    } else {
        assert(s.subrange(0, k) =~= s);
    }
}

/// The value of the digits `v[from..]` when they are one or more digits
/// worth at most `max`.
fn parse_digits(v: &Vec<char>, from: usize, max: u128) -> (r: Option<u128>)
    requires
        from <= v.len(),
        max <= u64::MAX as u128 + 1,
    ensures
        ({
            let t = v@.subrange(from as int, v.len() as int);
            match r {
                Some(x) => t.len() > 0 && all_digits(t) && digits_value(t) <= max && x
                    == digits_value(t),
                None => !(t.len() > 0 && all_digits(t) && digits_value(t) <= max),
            }
        }),
{
    let ghost t = v@.subrange(from as int, v.len() as int);
    if from == v.len() {
        return None;
    }
    let mut acc: u128 = 0;
    let mut k: usize = from;
    while k < v.len()
        invariant
            from <= k <= v.len(),
            t == v@.subrange(from as int, v.len() as int),
            max <= u64::MAX as u128 + 1,
            acc <= max,
            all_digits(t.subrange(0, k - from)),
            acc == digits_value(t.subrange(0, k - from)),
        decreases v.len() - k,
    {
        let c = v[k];
        if !('0' <= c && c <= '9') {
            proof {
                assert(t[k - from] == c);
            }
            return None;
        }
        let d: u128 = ((c as u32) - ('0' as u32)) as u128;
        proof {
            let p = t.subrange(0, k + 1 - from);
            assert(p.drop_last() =~= t.subrange(0, k - from));
            assert(p.last() == c);
            assert(all_digits(p)) by {
                assert forall|i: int| 0 <= i < p.len() implies is_digit(#[trigger] p[i]) by {
                    if i < p.len() - 1 {
                        assert(p[i] == t.subrange(0, k - from)[i]);
                    }
                }
            }
        }
        acc = acc * 10 + d;
        if acc > max {
            proof {
                let p = t.subrange(0, k + 1 - from);
                if all_digits(t) {
                    lemma_prefix_value_le(t, k + 1 - from);
                }
            }
            return None;
        }
        k += 1;
    }
    proof {
        assert(t.subrange(0, v.len() - from) =~= t);
    }
    Some(acc)
}

/// `s.parse::<u64>()`, as an option.
pub fn parse_u64(s: &str) -> (r: Option<u64>)
    ensures
        match r {
            Some(x) => spec_parse_unsigned(s@, u64::MAX as int) == Some(x as int),
            None => spec_parse_unsigned(s@, u64::MAX as int) is None,
        },
{
    let v = chars_of(s);
    let from: usize = if v.len() > 0 && v[0] == '+' {
        1
    } else {
        0
    };
    proof {
        if v.len() > 0 && v[0] == '+' {
            assert(v@.subrange(1, v.len() as int) =~= s@.drop_first());
        } else {
            assert(v@.subrange(0, v.len() as int) =~= s@);
        }
    }
    match parse_digits(&v, from, u64::MAX as u128) {
        Some(x) => Some(x as u64),
        None => None,
    }
}

/// `s.parse::<usize>()`, as an option.
pub fn parse_usize(s: &str) -> (r: Option<usize>)
    ensures
        match r {
            Some(x) => spec_parse_unsigned(s@, usize::MAX as int) == Some(x as int),
            None => spec_parse_unsigned(s@, usize::MAX as int) is None,
        },
{
    let v = chars_of(s);
    let from: usize = if v.len() > 0 && v[0] == '+' {
        1
    } else {
        0
    };
    proof {
        if v.len() > 0 && v[0] == '+' {
            assert(v@.subrange(1, v.len() as int) =~= s@.drop_first());
        } else {
            assert(v@.subrange(0, v.len() as int) =~= s@);
        }
    }
    match parse_digits(&v, from, usize::MAX as u128) {
        Some(x) => Some(x as usize),
        None => None,
    }
}

/// `s.parse::<i64>()`, as an option.
pub fn parse_i64(s: &str) -> (r: Option<i64>)
    ensures
        match r {
            Some(x) => spec_parse_i64(s@) == Some(x as int),
            None => spec_parse_i64(s@) is None,
        },
{
    let v = chars_of(s);
    let neg = v.len() > 0 && v[0] == '-';
    let signed = v.len() > 0 && (v[0] == '-' || v[0] == '+');
    let from: usize = if signed {
        1
    } else {
        0
    };
    proof {
        if signed {
            assert(v@.subrange(1, v.len() as int) =~= s@.drop_first());
        } else {
            assert(v@.subrange(0, v.len() as int) =~= s@);
        }
    }
    let max: u128 = if neg {
        9223372036854775808
    } else {
        9223372036854775807
    };
    match parse_digits(&v, from, max) {
        Some(x) => {
            if neg {
                if x == 9223372036854775808 {
                    Some(i64::MIN)
                } else {
                    Some(-(x as i64))
                }
            } else {
                Some(x as i64)
            }
        },
        None => None,
    }
}

} // verus!
