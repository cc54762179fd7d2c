//! Integer literals: parsing with the rules of Rust's `from_str_radix`, and
//! decimal formatting.
use vstd::prelude::*;
use crate::text::push_char;

verus! {

/// The value of the digit `c` in base `radix` (10 or 16), if it is one.
pub open spec fn digit_value(c: char, radix: nat) -> Option<nat> {
    let u = c as u32;
    if 0x30 <= u <= 0x39 {
        Some((u - 0x30) as nat)
    } else if radix == 16 && 0x61 <= u <= 0x66 {
        Some((u - 0x61 + 10) as nat)
    } else if radix == 16 && 0x41 <= u <= 0x46 {
        Some((u - 0x41 + 10) as nat)
    } else {
        None
    }
}

/// The value of the digit string `s` in base `radix`, if every character is a digit.
pub open spec fn digits_value(s: Seq<char>, radix: nat) -> Option<nat>
    decreases s.len(),
{
    if s.len() == 0 {
        Some(0)
    } else {
        match (digits_value(s.drop_last(), radix), digit_value(s.last(), radix)) {
            (Some(a), Some(d)) => Some(a * radix + d),
            _ => None,
        }
    }
}

/// The integer that `from_str_radix` reads from `s` before any range check: an
/// optional `+` (or `-` when `signed`), then at least one digit.
pub open spec fn from_str_radix(s: Seq<char>, radix: nat, signed: bool) -> Option<int> {
    if s.len() == 0 {
        None
    } else if (s[0] == '+' || s[0] == '-') && s.len() == 1 {
        None
    } else {
        let neg = signed && s[0] == '-';
        let digits = if s[0] == '+' || neg {
            s.drop_first()
        } else {
            s
        };
        match digits_value(digits, radix) {
            Some(n) => Some(
                if neg {
                    -n
                } else {
                    n as int
                },
            ),
            None => None,
        }
    }
}

/// `o` if its value lies within `lo..=hi`.
pub open spec fn bounded(o: Option<int>, lo: int, hi: int) -> Option<int> {
    match o {
        Some(v) => if lo <= v <= hi {
            Some(v)
        } else {
            None
        },
        None => None,
    }
}

/// `s.parse::<u16>()`, as an option.
pub open spec fn spec_parse_u16(s: Seq<char>) -> Option<u16> {
    match bounded(from_str_radix(s, 10, false), 0, 0xffff) {
        Some(v) => Some(v as u16),
        None => None,
    }
}

/// `s.parse::<u32>()`, as an option.
pub open spec fn spec_parse_u32(s: Seq<char>) -> Option<u32> {
    match bounded(from_str_radix(s, 10, false), 0, 0xffff_ffff) {
        Some(v) => Some(v as u32),
        None => None,
    }
}

/// `i64::from_str_radix(s, radix)`, as an option.
pub open spec fn spec_parse_i64_radix(s: Seq<char>, radix: nat) -> Option<i64> {
    match bounded(from_str_radix(s, radix, true), i64::MIN as int, i64::MAX as int) {
        Some(v) => Some(v as i64),
        None => None,
    }
}

pub proof fn lemma_digits_prefix(s: Seq<char>, radix: nat, k: int)
    requires
        0 <= k <= s.len(),
        radix >= 1,
    ensures
        digits_value(s.take(k), radix) is None ==> digits_value(s, radix) is None,
        digits_value(s, radix) matches Some(n) ==> (digits_value(s.take(k), radix) matches Some(
            m,
        ) && m <= n),
    decreases s.len(),
{
    if k == s.len() {
        assert(s.take(k) =~= s);
    } else {
        lemma_digits_prefix(s.drop_last(), radix, k);
        assert(s.drop_last().take(k) =~= s.take(k));
        if let Some(n) = digits_value(s, radix) {
            let a = digits_value(s.drop_last(), radix).unwrap();
            assert(a <= a * radix) by (nonlinear_arith)
                requires
                    radix >= 1,
            ;
        }
    }
}

/// Reads an integer from `s` as `from_str_radix` does, accepting it only within `lo..=hi`.
pub fn parse_radix(s: &[char], radix: u32, signed: bool, lo: i128, hi: i128) -> (r: Option<i128>)
    requires
        radix == 10 || radix == 16,
        -0xffff_ffff_ffff_ffff <= lo <= 0 <= hi <= 0xffff_ffff_ffff_ffff,
    ensures
        r matches Some(v) ==> bounded(from_str_radix(s@, radix as nat, signed), lo as int, hi as int)
            == Some(v as int),
        r is None ==> bounded(from_str_radix(s@, radix as nat, signed), lo as int, hi as int) is None,
{
    if s.len() == 0 {
        return None;
    }
    if (s[0] == '+' || s[0] == '-') && s.len() == 1 {
        return None;
    }
    let neg = signed && s[0] == '-';
    let start: usize = if s[0] == '+' || neg {
        1
    } else {
        0
    };
    let digits = &s[start..s.len()];
    assert(digits@ =~= (if s@[0] == '+' || neg {
        s@.drop_first()
    } else {
        s@
    }));
    let bound: u128 = if neg {
        (0 - lo) as u128
    } else {
        hi as u128
    };
    let mut acc: u128 = 0;
    let mut k: usize = 0;
    assert(digits@.take(0) =~= Seq::<char>::empty());
    while k < digits.len()
        invariant
            k <= digits.len(),
            radix == 10 || radix == 16,
            s@.len() > 0,
            !((s@[0] == '+' || s@[0] == '-') && s@.len() == 1),
            neg == (signed && s@[0] == '-'),
            digits@ == (if s@[0] == '+' || neg {
                s@.drop_first()
            } else {
                s@
            }),
            bound == (if neg {
                -lo
            } else {
                hi as int
            }),
            -0xffff_ffff_ffff_ffff <= lo <= 0 <= hi <= 0xffff_ffff_ffff_ffff,
            bound <= 0xffff_ffff_ffff_ffff,
            digits_value(digits@.take(k as int), radix as nat) == Some(acc as nat),
            acc <= bound,
        decreases digits.len() - k,
    {
        let c = digits[k];
        let u = c as u32;
        let d: u32 = if 0x30 <= u && u <= 0x39 {
            u - 0x30
        } else if radix == 16 && 0x61 <= u && u <= 0x66 {
            u - 0x61 + 10
        } else if radix == 16 && 0x41 <= u && u <= 0x46 {
            u - 0x41 + 10
        } else {
            proof {
                assert(digits@.take(k + 1).drop_last() =~= digits@.take(k as int));
                assert(digits@.take(k + 1).last() == c);
                assert(digit_value(c, radix as nat) is None);
                lemma_digits_prefix(digits@, radix as nat, k + 1);
            }
            return None;
        };
        proof {
            assert(digits@.take(k + 1).drop_last() =~= digits@.take(k as int));
            assert(digits@.take(k + 1).last() == c);
        }
        assert(acc * (radix as u128) <= 0xffff_ffff_ffff_ffff * 16) by (nonlinear_arith)
            requires
                acc <= 0xffff_ffff_ffff_ffff,
                radix <= 16,
        ;
        let next: u128 = acc * (radix as u128) + (d as u128);
        k = k + 1;
        if next > bound {
            proof {
                lemma_digits_prefix(digits@, radix as nat, k as int);
            }
            return None;
        }
        acc = next;
    }
    assert(digits@.take(k as int) =~= digits@);
    if neg {
        Some(0 - (acc as i128))
    } else {
        Some(acc as i128)
    }
}

/// `s.parse::<u16>()`.
pub fn parse_u16(s: &[char]) -> (r: Option<u16>)
    ensures
        r == spec_parse_u16(s@),
{
    match parse_radix(s, 10, false, 0, 0xffff) {
        Some(v) => Some(v as u16),
        None => None,
    }
}

/// `s.parse::<u32>()`.
pub fn parse_u32(s: &[char]) -> (r: Option<u32>)
    ensures
        r == spec_parse_u32(s@),
{
    match parse_radix(s, 10, false, 0, 0xffff_ffff) {
        Some(v) => Some(v as u32),
        None => None,
    }
}

/// `i64::from_str_radix(s, radix)`.
pub fn parse_i64_radix(s: &[char], radix: u32) -> (r: Option<i64>)
    requires
        radix == 10 || radix == 16,
    ensures
        r == spec_parse_i64_radix(s@, radix as nat),
{
    match parse_radix(s, radix, true, -0x8000_0000_0000_0000, 0x7fff_ffff_ffff_ffff) {
        Some(v) => Some(v as i64),
        None => None,
    }
}

/// The decimal digit character for `d < 10`.
pub open spec fn digit_char(d: nat) -> char {
    ((d + 0x30) as u8) as char
}

/// The decimal representation of `n`, without leading zeros.
pub open spec fn dec_str(n: nat) -> Seq<char>
    decreases n,
{
    if n < 10 {
        seq![digit_char(n)]
    } else {
        dec_str(n / 10).push(digit_char(n % 10))
    }
}

/// The decimal representation of `i`, with a `-` when negative.
pub open spec fn signed_dec_str(i: int) -> Seq<char> {
    if i < 0 {
        seq!['-'] + dec_str((-i) as nat)
    } else {
        dec_str(i as nat)
    }
}

/// Appends the decimal digits of `v` to `out`.
pub fn push_dec(out: &mut String, v: u64)
    ensures
        final(out)@ == old(out)@ + dec_str(v as nat),
    decreases v,
{
    if v >= 10 {
        push_dec(out, v / 10);
    }
    let d = (v % 10) as u8;
    let c = (0x30u8 + d) as char;
    push_char(out, c);
    proof {
        if v < 10 {
            assert(old(out)@ + dec_str(v as nat) =~= old(out)@.push(digit_char(v as nat)));
        } else {
            assert(old(out)@ + dec_str(v as nat) =~= (old(out)@ + dec_str((v / 10) as nat)).push(
                digit_char((v % 10) as nat),
            ));
        }
    }
}

/// Appends the decimal representation of `v` to `out`, with a `-` when negative.
pub fn push_signed_dec(out: &mut String, v: i64)
    ensures
        final(out)@ == old(out)@ + signed_dec_str(v as int),
{
    if v < 0 {
        push_char(out, '-');
        let mag: u64 = (0 - (v as i128)) as u64;
        push_dec(out, mag);
        assert(final(out)@ =~= old(out)@ + signed_dec_str(v as int));
    } else {
        push_dec(out, v as u64);
    }
}

} // verus!
