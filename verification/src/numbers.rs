//! Decimal parsing for the integer-valued inputs: RGB components,
//! the needy-mode exit code, and the recursion counter.
//!
//! The accepted shape mirrors the standard library's integer parsing:
//! an optional sign (only `+` for the unsigned forms), then one or more
//! ASCII digits, with out-of-range values rejected.

use vstd::prelude::*;

verus! {

/// An ASCII decimal digit.
pub open spec fn is_dec_digit(c: char) -> bool {
    48 <= c as u32 <= 57
}

/// The value of one digit.
pub open spec fn digit_val(c: char) -> int {
    c as u32 - 48
}

/// Every character is an ASCII digit.
pub open spec fn all_digits(s: Seq<char>) -> bool {
    forall|i: int| 0 <= i < s.len() ==> is_dec_digit(#[trigger] s[i])
}

/// The numeric value of a digit string, most significant first.
pub open spec fn dec_val(s: Seq<char>) -> int
    decreases s.len(),
{
    if s.len() == 0 {
        0
    } else {
        dec_val(s.drop_last()) * 10 + digit_val(s.last())
    }
}

proof fn lemma_dec_val_nonneg(s: Seq<char>)
    requires
        all_digits(s),
    ensures
        dec_val(s) >= 0,
    decreases s.len(),
{
    if s.len() > 0 {
        assert(all_digits(s.drop_last()));
        lemma_dec_val_nonneg(s.drop_last());
    }
}

proof fn lemma_dec_val_prefix(s: Seq<char>, i: int)
    requires
        all_digits(s),
        0 <= i <= s.len(),
    ensures
        dec_val(s.take(i)) <= dec_val(s),
    decreases s.len() - i,
{
    if i < s.len() {
        lemma_dec_val_prefix(s, i + 1);
        assert(s.take(i + 1).drop_last() =~= s.take(i));
        assert(all_digits(s.take(i)));
        lemma_dec_val_nonneg(s.take(i));
        assert(dec_val(s.take(i + 1)) == dec_val(s.take(i)) * 10 + digit_val(s.take(i + 1).last()));
        assert(dec_val(s.take(i)) * 10 >= dec_val(s.take(i)));
    } else {
        assert(s.take(i) =~= s);
    }
}

/// The value of an unsigned decimal string: an optional leading `+`,
/// then at least one digit.
pub open spec fn parse_uint_val(s: Seq<char>) -> Option<int> {
    let b = if s.len() > 0 && s[0] == '+' {
        s.skip(1)
    } else {
        s
    };
    if b.len() > 0 && all_digits(b) {
        Some(dec_val(b))
    } else {
        None
    }
}

/// What `str::parse::<usize>` returns.
pub open spec fn parse_usize_spec(s: Seq<char>) -> Option<usize> {
    match parse_uint_val(s) {
        Some(v) => if v <= usize::MAX {
            Some(v as usize)
        } else {
            None
        },
        None => None,
    }
}

/// What `str::parse::<u8>` returns.
pub open spec fn parse_u8_spec(s: Seq<char>) -> Option<u8> {
    match parse_uint_val(s) {
        Some(v) => if v <= u8::MAX {
            Some(v as u8)
        } else {
            None
        },
        None => None,
    }
}

/// What `str::parse::<i32>` returns: an optional sign, then at least one
/// digit, within the `i32` range.
pub open spec fn parse_i32_spec(s: Seq<char>) -> Option<i32> {
    let neg = s.len() > 0 && s[0] == '-';
    let b = if s.len() > 0 && (s[0] == '-' || s[0] == '+') {
        s.skip(1)
    } else {
        s
    };
    if b.len() > 0 && all_digits(b) {
        let v = if neg {
            -dec_val(b)
        } else {
            dec_val(b)
        };
        if i32::MIN <= v <= i32::MAX {
            Some(v as i32)
        } else {
            None
        }
    } else {
        None
    }
}

/// The value of the digit run `v[from..to]`, or `None` when the run is
/// empty, holds a non-digit, or does not fit in `u64`.
fn dec_value_of(v: &Vec<char>, from: usize, to: usize) -> (r: Option<u64>)
    requires
        from <= to <= v@.len(),
    ensures
        ({
            let b = v@.subrange(from as int, to as int);
            match r {
                Some(x) => to > from && all_digits(b) && x == dec_val(b),
                None => !(to > from && all_digits(b) && dec_val(b) <= u64::MAX),
            }
        }),
{
    let ghost b = v@.subrange(from as int, to as int);
    if to == from {
        return None;
    }
    let mut acc: u64 = 0;
    let mut j: usize = from;
    assert(b.take(0) =~= Seq::<char>::empty());
    while j < to
        invariant
            from <= j <= to <= v@.len(),
            b == v@.subrange(from as int, to as int),
            all_digits(b.take(j - from)),
            acc == dec_val(b.take(j - from)),
        decreases to - j,
    {
        let c = v[j];
        let u = c as u32;
        assert(b[j - from] == v@[j as int]);
        if u < 48 || u > 57 {
            assert(!is_dec_digit(b[j - from]));
            return None;
        }
        let d = (u - 48) as u64;
        assert(b.take(j - from + 1).drop_last() =~= b.take(j - from));
        assert(b.take(j - from + 1).last() == b[j - from]);
        if acc > (u64::MAX - d) / 10 {
            proof {
                let t = b.take(j - from + 1);
                assert(dec_val(t) == acc * 10 + d);
                assert(acc >= (u64::MAX - d) / 10 + 1);
                assert(acc * 10 + d > u64::MAX) by (nonlinear_arith)
                    requires
                        acc >= (u64::MAX - d) / 10 + 1,
                        0 <= d <= 9,
                ;
                if all_digits(b) {
                    lemma_dec_val_prefix(b, j - from + 1);
                    lemma_dec_val_nonneg(t);
                    assert(dec_val(b) > u64::MAX);
                }
            }
            return None;
        }
        assert(acc * 10 + d <= u64::MAX) by (nonlinear_arith)
            requires
                acc <= (u64::MAX - d) / 10,
                0 <= d <= 9,
        ;
        acc = acc * 10 + d;
        j += 1;
    }
    assert(b.take(to - from) =~= b);
    Some(acc)
}

/// The `usize` that the string denotes, if any.
pub fn parse_usize(s: &str) -> (r: Option<usize>)
    ensures
        r == parse_usize_spec(s@),
{
    let v = crate::strings::chars_of(s);
    let from: usize = if v.len() > 0 && v[0] == '+' {
        1
    } else {
        0
    };
    proof {
        if v@.len() > 0 && v@[0] == '+' {
            assert(v@.subrange(1, v@.len() as int) =~= v@.skip(1));
        } else {
            assert(v@.subrange(0, v@.len() as int) =~= v@);
        }
    }
    match dec_value_of(&v, from, v.len()) {
        Some(x) => {
            if x <= usize::MAX as u64 {
                Some(x as usize)
            } else {
                None
            }
        },
        None => None,
    }
}

/// The `u8` that the string denotes, if any.
pub fn parse_u8_chars(v: &Vec<char>) -> (r: Option<u8>)
    ensures
        r == parse_u8_spec(v@),
{
    let from: usize = if v.len() > 0 && v[0] == '+' {
        1
    } else {
        0
    };
    proof {
        if v@.len() > 0 && v@[0] == '+' {
            assert(v@.subrange(1, v@.len() as int) =~= v@.skip(1));
        } else {
            assert(v@.subrange(0, v@.len() as int) =~= v@);
        }
    }
    match dec_value_of(v, from, v.len()) {
        Some(x) => {
            if x <= u8::MAX as u64 {
                Some(x as u8)
            } else {
                None
            }
        },
        None => None,
    }
}

/// The `i32` that the string denotes, if any.
pub fn parse_i32(s: &str) -> (r: Option<i32>)
    ensures
        r == parse_i32_spec(s@),
{
    let v = crate::strings::chars_of(s);
    let neg = v.len() > 0 && v[0] == '-';
    let from: usize = if v.len() > 0 && (v[0] == '-' || v[0] == '+') {
        1
    } else {
        0
    };
    proof {
        if v@.len() > 0 && (v@[0] == '-' || v@[0] == '+') {
            assert(v@.subrange(1, v@.len() as int) =~= v@.skip(1));
        } else {
            assert(v@.subrange(0, v@.len() as int) =~= v@);
        }
    }
    match dec_value_of(&v, from, v.len()) {
        Some(x) => {
            if neg {
                if x <= 2147483648u64 {
                    Some((-(x as i64)) as i32)
                } else {
                    None
                }
            } else {
                if x <= 2147483647u64 {
                    Some(x as i32)
                } else {
                    None
                }
            }
        },
        None => None,
    }
}

} // verus!
