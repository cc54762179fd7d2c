//! Reading bytecode written as hexadecimal text.
use vstd::prelude::*;
use crate::number::{bounded, from_str_radix, parse_radix};
use crate::text::{chars_of, is_whitespace, is_ws};

verus! {

/// `s` without its whitespace characters.
pub open spec fn strip_ws(s: Seq<char>) -> Seq<char>
    decreases s.len(),
{
    if s.len() == 0 {
        seq![]
    } else if is_ws(s.last()) {
        strip_ws(s.drop_last())
    } else {
        strip_ws(s.drop_last()).push(s.last())
    }
}

/// The number of bytes of the UTF-8 encoding of `c`.
pub open spec fn utf8_width(c: char) -> nat {
    let u = c as u32;
    if u < 0x80 {
        1
    } else if u < 0x800 {
        2
    } else if u < 0x10000 {
        3
    } else {
        4
    }
}

/// The number of bytes of the UTF-8 encoding of `t`.
pub open spec fn utf8_len(t: Seq<char>) -> nat
    decreases t.len(),
{
    if t.len() == 0 {
        0
    } else {
        utf8_len(t.drop_last()) + utf8_width(t.last())
    }
}

/// The message for text whose byte length is odd.
pub open spec fn odd_msg() -> Seq<char> {
    "hex string must have an even number of nibbles"@
}

/// The message for a pair that is not a hexadecimal byte.
pub open spec fn digit_msg() -> Seq<char> {
    "invalid hex digit"@
}

/// Reading two-byte pieces of `t` from character `k` on, where every character
/// before `k` is ASCII (so character and byte positions agree). Each piece is read
/// as `u8::from_str_radix(piece, 16)`; a piece that ends inside a multi-byte
/// character cannot be sliced off, and gives nothing.
pub open spec fn hex_pairs(t: Seq<char>, k: int) -> Option<Result<Seq<u8>, Seq<char>>>
    decreases t.len() - k,
{
    if k < 0 || k >= t.len() {
        Some(Ok(seq![]))
    } else if t[k] as u32 >= 0x80 {
        if utf8_width(t[k]) == 2 {
            Some(Err(digit_msg()))
        } else {
            None
        }
    } else if k + 1 >= t.len() {
        Some(Ok(seq![]))
    } else if t[k + 1] as u32 >= 0x80 {
        None
    } else {
        match bounded(from_str_radix(t.subrange(k, k + 2), 16, false), 0, 255) {
            None => Some(Err(digit_msg())),
            Some(v) => match hex_pairs(t, k + 2) {
                Some(Ok(rest)) => Some(Ok(seq![v as u8] + rest)),
                other => other,
            },
        }
    }
}

/// The bytes that hexadecimal text `s` denotes (whitespace ignored), or the error
/// message; nothing where a two-byte piece would split a multi-byte character.
pub open spec fn spec_parse_hex(s: Seq<char>) -> Option<Result<Seq<u8>, Seq<char>>> {
    let t = strip_ws(s);
    if utf8_len(t) % 2 != 0 {
        Some(Err(odd_msg()))
    } else {
        hex_pairs(t, 0)
    }
}

/// Reads hexadecimal bytecode such as `700001000000` or `70 00 01 00`; `None` where a
/// two-byte piece of the text would end inside a multi-byte character.
pub fn read_hex(s: &str) -> (r: Option<Result<Vec<u8>, String>>)
    ensures
        match r {
            Some(Ok(v)) => spec_parse_hex(s@) == Some(Ok::<Seq<u8>, Seq<char>>(v@)),
            Some(Err(e)) => spec_parse_hex(s@) == Some(Err::<Seq<u8>, Seq<char>>(e@)),
            None => spec_parse_hex(s@) is None,
        },
{
    let cs = chars_of(s);
    let mut t: Vec<char> = Vec::new();
    let mut odd = false;
    let mut i: usize = 0;
    while i < cs.len()
        invariant
            i <= cs.len(),
            cs@ == s@,
            t@ == strip_ws(cs@.take(i as int)),
            odd == (utf8_len(t@) % 2 == 1),
        decreases cs.len() - i,
    {
        let c = cs[i];
        assert(cs@.take(i + 1).drop_last() =~= cs@.take(i as int));
        assert(cs@.take(i + 1).last() == c);
        if !is_whitespace(c) {
            let u = c as u32;
            let w_odd = u < 0x80 || (0x800 <= u && u < 0x10000);
            assert(t@.push(c).drop_last() =~= t@);
            t.push(c);
            odd = odd != w_odd;
        }
        i = i + 1;
    }
    assert(cs@.take(i as int) =~= s@);
    if odd {
        return Some(Err(String::from_str("hex string must have an even number of nibbles")));
    }
    let mut out: Vec<u8> = Vec::new();
    let mut k: usize = 0;
    while k < t.len()
        invariant
            t@ == strip_ws(s@),
            utf8_len(t@) % 2 == 0,
            spec_parse_hex(s@) == match hex_pairs(t@, k as int) {
                Some(Ok(rest)) => Some(Ok(out@ + rest)),
                other => other,
            },
        decreases t.len() - k,
    {
        if t[k] as u32 >= 0x80 {
            let u = t[k] as u32;
            if u < 0x800 {
                assert(utf8_width(t@[k as int]) == 2);
                return Some(Err(String::from_str("invalid hex digit")));
            }
            return None;
        }
        if k + 1 >= t.len() {
            assert(out@ + Seq::<u8>::empty() =~= out@);
            return Some(Ok(out));
        }
        if t[k + 1] as u32 >= 0x80 {
            return None;
        }
        let pair = &t.as_slice()[k..k + 2];
        assert(pair@ =~= t@.subrange(k as int, k + 2));
        match parse_radix(pair, 16, false, 0, 255) {
            None => {
                return Some(Err(String::from_str("invalid hex digit")));
            },
            Some(v) => {
                let ghost old_out = out@;
                out.push(v as u8);
                proof {
                    match hex_pairs(t@, k + 2) {
                        Some(Ok(rest)) => {
                            assert(old_out + (seq![v as u8] + rest) =~= out@ + rest);
                        },
                        _ => {},
                    }
                }
            },
        }
        k = k + 2;
    }
    assert(out@ + Seq::<u8>::empty() =~= out@);
    Some(Ok(out))
}

/// Reads hexadecimal bytecode such as `700001000000` or `70 00 01 00`.
pub fn parse_hex(s: &str) -> (r: Result<Vec<u8>, String>)
    requires
        spec_parse_hex(s@) is Some,
    ensures
        match r {
            Ok(v) => spec_parse_hex(s@) == Some(Ok::<Seq<u8>, Seq<char>>(v@)),
            Err(e) => spec_parse_hex(s@) == Some(Err::<Seq<u8>, Seq<char>>(e@)),
        },
{
    match read_hex(s) {
        Some(r) => r,
        None => Err(String::new()),
    }
}

} // verus!
