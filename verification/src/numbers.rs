//! Verified parsing of decimal integers and booleans from argument tokens.

use vstd::prelude::*;
use vstd::string::StrSliceExecFns;

verus! {

/// Whether `c` is a decimal digit.
pub open spec fn is_ascii_digit(c: char) -> bool {
    0x30 <= (c as u32) && (c as u32) <= 0x39
}

/// The value of the decimal digit `c`.
pub open spec fn digit_val(c: char) -> nat {
    ((c as u32) - 0x30) as nat
}

/// Whether every character of `s` is a decimal digit.
pub open spec fn all_digits(s: Seq<char>) -> bool {
    forall|i: int| 0 <= i < s.len() ==> is_ascii_digit(s[i])
}

/// The value of `s` read as decimal digits, most significant first.
pub open spec fn digits_value(s: Seq<char>) -> nat
    decreases s.len(),
{
    if s.len() == 0 {
        0
    } else {
        digits_value(s.drop_last()) * 10 + digit_val(s.last())
    }
}

/// Reading more digits never makes the value smaller.
proof fn lemma_digits_value_mono(s: Seq<char>, i: int, j: int)
    requires
        0 <= i <= j <= s.len(),
    ensures
        digits_value(s.subrange(0, i)) <= digits_value(s.subrange(0, j)),
    decreases j - i,
{
    if i < j {
        lemma_digits_value_mono(s, i, j - 1);
        assert(s.subrange(0, j).drop_last() =~= s.subrange(0, j - 1));
        assert(digits_value(s.subrange(0, j)) == digits_value(s.subrange(0, j - 1)) * 10
            + digit_val(s.subrange(0, j).last()));
        assert(digits_value(s.subrange(0, j - 1)) * 10 >= digits_value(s.subrange(0, j - 1)));
    }
}

/// The value of `s` read as a decimal `u64` with an optional leading `+`,
/// as `str::parse::<u64>` reads it: `None` on an empty digit string, a
/// non-digit character, or overflow.
pub open spec fn spec_parse_u64(s: Seq<char>) -> Option<u64> {
    let d = if s.len() > 0 && s[0] == '+' {
        s.skip(1)
    } else {
        s
    };
    if d.len() == 0 || !all_digits(d) {
        None
    } else if digits_value(d) > u64::MAX {
        None
    } else {
        Some(digits_value(d) as u64)
    }
}

/// Parses a decimal `u64` with an optional leading `+`.
pub fn parse_u64(s: &str) -> (r: Option<u64>)
    ensures
        r == spec_parse_u64(s@),
{
    let n = s.unicode_len();
    let mut start: usize = 0;
    if n > 0 && s.get_char(0) == '+' {
        start = 1;
    }
    let ghost d = if s@.len() > 0 && s@[0] == '+' {
        s@.skip(1)
    } else {
        s@
    };
    proof {
        assert(d =~= s@.subrange(start as int, n as int));
    }
    if start == n {
        return None;
    }
    let mut i: usize = start;
    let mut val: u64 = 0;
    while i < n
        invariant
            start <= i <= n,
            n == s@.len(),
            d == s@.subrange(start as int, n as int),
            d == if s@.len() > 0 && s@[0] == '+' {
                s@.skip(1)
            } else {
                s@
            },
            forall|j: int| start <= j < i ==> is_ascii_digit(s@[j]),
            val == digits_value(d.subrange(0, i - start)),
        decreases n - i,
    {
        let c = s.get_char(i);
        let u: u32 = c as u32;
        if u < 0x30 || u > 0x39 {
            proof {
                assert(d[i - start] == s@[i as int]);
                assert(!is_ascii_digit(d[i - start]));
            }
            return None;
        }
        let dg: u64 = (u - 0x30) as u64;
        if val > (u64::MAX - dg) / 10 {
            proof {
                assert(val * 10 + dg > u64::MAX) by (nonlinear_arith)
                    requires
                        val > (u64::MAX - dg) / 10,
                        dg <= 9,
                ;
                assert(d.subrange(0, i - start + 1).drop_last() =~= d.subrange(0, i - start));
                assert(d.subrange(0, i - start + 1).last() == s@[i as int]);
                assert(digits_value(d.subrange(0, i - start + 1)) == val * 10 + dg);
                lemma_digits_value_mono(d, i - start + 1, d.len() as int);
                assert(d.subrange(0, d.len() as int) =~= d);
                assert(digits_value(d) > u64::MAX);
            }
            return None;
        }
        proof {
            assert(d.subrange(0, i - start + 1).drop_last() =~= d.subrange(0, i - start));
            assert(d.subrange(0, i - start + 1).last() == s@[i as int]);
        }
        val = val * 10 + dg;
        i = i + 1;
    }
    proof {
        assert(d.subrange(0, d.len() as int) =~= d);
        assert(all_digits(d));
    }
    Some(val)
}

/// The value of `s` read as a decimal `i64` with an optional leading `+` or
/// `-`, as `str::parse::<i64>` reads it.
pub open spec fn spec_parse_i64(s: Seq<char>) -> Option<i64> {
    let neg = s.len() > 0 && s[0] == '-';
    let d = if s.len() > 0 && (s[0] == '-' || s[0] == '+') {
        s.skip(1)
    } else {
        s
    };
    if d.len() == 0 || !all_digits(d) {
        None
    } else if neg {
        if digits_value(d) > 0x8000_0000_0000_0000 {
            None
        } else {
            Some((0 - digits_value(d) as int) as i64)
        }
    } else {
        if digits_value(d) > i64::MAX {
            None
        } else {
            Some(digits_value(d) as i64)
        }
    }
}

/// Parses a decimal `i64` with an optional leading `+` or `-`.
pub fn parse_i64(s: &str) -> (r: Option<i64>)
    ensures
        r == spec_parse_i64(s@),
{
    let n = s.unicode_len();
    let mut neg = false;
    let mut start: usize = 0;
    if n > 0 {
        let c0 = s.get_char(0);
        if c0 == '-' {
            neg = true;
            start = 1;
        } else if c0 == '+' {
            start = 1;
        }
    }
    let ghost d = if s@.len() > 0 && (s@[0] == '-' || s@[0] == '+') {
        s@.skip(1)
    } else {
        s@
    };
    proof {
        assert(d =~= s@.subrange(start as int, n as int));
    }
    if start == n {
        return None;
    }
    let limit: u64 = if neg {
        0x8000_0000_0000_0000
    } else {
        0x7FFF_FFFF_FFFF_FFFF
    };
    let mut i: usize = start;
    let mut val: u64 = 0;
    while i < n
        invariant
            start <= i <= n,
            n == s@.len(),
            d == s@.subrange(start as int, n as int),
            d == if s@.len() > 0 && (s@[0] == '-' || s@[0] == '+') {
                s@.skip(1)
            } else {
                s@
            },
            neg == (s@.len() > 0 && s@[0] == '-'),
            limit == if neg {
                0x8000_0000_0000_0000u64
            } else {
                0x7FFF_FFFF_FFFF_FFFFu64
            },
            forall|j: int| start <= j < i ==> is_ascii_digit(s@[j]),
            val == digits_value(d.subrange(0, i - start)),
            val <= limit,
        decreases n - i,
    {
        let c = s.get_char(i);
        let u: u32 = c as u32;
        if u < 0x30 || u > 0x39 {
            proof {
                assert(d[i - start] == s@[i as int]);
                assert(!is_ascii_digit(d[i - start]));
            }
            return None;
        }
        let dg: u64 = (u - 0x30) as u64;
        if val > (limit - dg) / 10 {
            proof {
                assert(val * 10 + dg > limit) by (nonlinear_arith)
                    requires
                        val > (limit - dg) / 10,
                        dg <= 9,
                        limit >= 10,
                ;
                assert(d.subrange(0, i - start + 1).drop_last() =~= d.subrange(0, i - start));
                assert(d.subrange(0, i - start + 1).last() == s@[i as int]);
                assert(digits_value(d.subrange(0, i - start + 1)) == val * 10 + dg);
                lemma_digits_value_mono(d, i - start + 1, d.len() as int);
                assert(d.subrange(0, d.len() as int) =~= d);
                assert(digits_value(d) > limit);
            }
            return None;
        }
        proof {
            assert(d.subrange(0, i - start + 1).drop_last() =~= d.subrange(0, i - start));
            assert(d.subrange(0, i - start + 1).last() == s@[i as int]);
        }
        val = val * 10 + dg;
        i = i + 1;
    }
    proof {
        assert(d.subrange(0, d.len() as int) =~= d);
        assert(all_digits(d));
    }
    if neg {
        if val == 0x8000_0000_0000_0000 {
            Some(i64::MIN)
        } else {
            Some(0 - (val as i64))
        }
    } else {
        Some(val as i64)
    }
}

/// `c` with an ASCII capital letter folded to lower case, as a code point.
pub open spec fn lower_u(c: char) -> u32 {
    let u = c as u32;
    if 0x41 <= u && u <= 0x5A {
        (u + 0x20) as u32
    } else {
        u
    }
}

fn lower_u_exec(c: char) -> (r: u32)
    ensures
        r == lower_u(c),
{
    let u: u32 = c as u32;
    if 0x41 <= u && u <= 0x5A {
        u + 0x20
    } else {
        u
    }
}

/// The value of `s` read as a boolean: `true` or `false` in any ASCII case
/// mix, as lowercasing and then `str::parse::<bool>` reads it.
pub open spec fn spec_parse_bool(s: Seq<char>) -> Option<bool> {
    if s.len() == 4 && lower_u(s[0]) == 0x74 && lower_u(s[1]) == 0x72 && lower_u(s[2]) == 0x75
        && lower_u(s[3]) == 0x65 {
        Some(true)
    } else if s.len() == 5 && lower_u(s[0]) == 0x66 && lower_u(s[1]) == 0x61 && lower_u(s[2])
        == 0x6C && lower_u(s[3]) == 0x73 && lower_u(s[4]) == 0x65 {
        Some(false)
    } else {
        None
    }
}

/// Parses a boolean token, ignoring ASCII case.
pub fn parse_bool(s: &str) -> (r: Option<bool>)
    ensures
        r == spec_parse_bool(s@),
{
    let n = s.unicode_len();
    if n == 4 {
        if lower_u_exec(s.get_char(0)) == 0x74 && lower_u_exec(s.get_char(1)) == 0x72
            && lower_u_exec(s.get_char(2)) == 0x75 && lower_u_exec(s.get_char(3)) == 0x65 {
            return Some(true);
        }
        None
    } else if n == 5 {
        if lower_u_exec(s.get_char(0)) == 0x66 && lower_u_exec(s.get_char(1)) == 0x61
            && lower_u_exec(s.get_char(2)) == 0x6C && lower_u_exec(s.get_char(3)) == 0x73
            && lower_u_exec(s.get_char(4)) == 0x65 {
            return Some(false);
        }
        None
    } else {
        None
    }
}

} // verus!
