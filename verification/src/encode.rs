//! Encode Dalvik instructions from mnemonic + operand text.
use vstd::prelude::*;
use crate::error::{rv, DexError};
use crate::opcodes::{
    format_length, get_opcode_entry, spec_format, spec_format_length, spec_mnemonic,
    spec_ref_kind, Format, RefKind,
};
use crate::operands::{
    err_with, parse_4rcc, parse_branch_token, parse_i64, parse_indexed_ref, parse_range_invoke,
    parse_reg, parse_reg_list, parse_reg_range, parse_regs, parse_u32_literal,
    spec_parse_4rcc, spec_parse_branch_token, spec_parse_i64, spec_parse_indexed_ref,
    spec_parse_range_invoke, spec_parse_reg, spec_parse_reg_list, spec_parse_reg_range,
    spec_parse_regs, spec_parse_u32_literal, spec_split_operands, split_operands,
};
use crate::text::{
    chars_of, find_char, find_char_slice, join, join_slices, split_ws, split_ws_slice,
    string_of, trim, trim_end_char, trim_end_char_slice, trim_slice, trim_start_char,
    trim_start_char_slice, views,
};

verus! {

/// The view of a resolver's answer or an encoding: the value, or the error's message.
pub open spec fn bv(r: Result<Vec<u8>, DexError>) -> Result<Seq<u8>, Seq<char>> {
    match r {
        Ok(v) => Ok(v@),
        Err(e) => Err(e@),
    }
}

/// Resolve constant-pool references while encoding.
///
/// `spec_resolve` says what each method answers: the index that a token
/// names, or the message of the error it gives.
///
/// `resolve_callsite` has no default body: Verus cannot prove one against
/// `spec_resolve`, which each implementor defines. A resolver without call-site
/// references implements it as a call of `unsupported_callsite`, which refuses every
/// such reference with `unsupported callsite ref: ` followed by the token.
pub trait EncodeResolve {
    /// The answer for the token `tok` read as a reference of kind `kind`.
    spec fn spec_resolve(&self, kind: RefKind, tok: Seq<char>) -> Result<u32, Seq<char>>;

    fn resolve_string(&self, s: &str) -> (r: Result<u32, DexError>)
        ensures
            rv(r) == self.spec_resolve(RefKind::String, s@),
    ;

    fn resolve_type(&self, s: &str) -> (r: Result<u32, DexError>)
        ensures
            rv(r) == self.spec_resolve(RefKind::Type, s@),
    ;

    fn resolve_field(&self, s: &str) -> (r: Result<u32, DexError>)
        ensures
            rv(r) == self.spec_resolve(RefKind::Field, s@),
    ;

    fn resolve_method(&self, s: &str) -> (r: Result<u32, DexError>)
        ensures
            rv(r) == self.spec_resolve(RefKind::Method, s@),
    ;

    fn resolve_proto(&self, s: &str) -> (r: Result<u32, DexError>)
        ensures
            rv(r) == self.spec_resolve(RefKind::MethodProto, s@),
    ;

    fn resolve_callsite(&self, s: &str) -> (r: Result<u32, DexError>)
        ensures
            rv(r) == self.spec_resolve(RefKind::CallSite, s@),
    ;
}

/// The answer of a resolver that supports no call-site references.
pub open spec fn spec_unsupported_callsite(tok: Seq<char>) -> Result<u32, Seq<char>> {
    Err("unsupported callsite ref: "@ + tok)
}

/// Refuses a call-site reference: for resolvers without call-site support.
pub fn unsupported_callsite(s: &str) -> (r: Result<u32, DexError>)
    ensures
        rv(r) == spec_unsupported_callsite(s@),
{
    let mut m = String::from_str("unsupported callsite ref: ");
    m.append(s);
    Err(DexError::invalid_owned(m))
}

/// Index-only resolver (refs already look like `string@5` / numeric).
pub struct IndexResolve;

/// What the index-only resolver answers.
pub open spec fn spec_index_resolve(kind: RefKind, tok: Seq<char>) -> Result<u32, Seq<char>> {
    match kind {
        RefKind::String => spec_parse_indexed_ref(tok, "string"@),
        RefKind::Type => match spec_parse_indexed_ref(tok, "type"@) {
            Ok(v) => Ok(v),
            Err(_) => spec_parse_u32_literal(tok),
        },
        RefKind::Field => spec_parse_indexed_ref(tok, "field"@),
        RefKind::Method => spec_parse_indexed_ref(tok, "method"@),
        RefKind::MethodProto => spec_parse_indexed_ref(tok, "proto"@),
        RefKind::CallSite => spec_parse_indexed_ref(tok, "callsite"@),
        _ => spec_parse_u32_literal(tok),
    }
}

impl EncodeResolve for IndexResolve {
    open spec fn spec_resolve(&self, kind: RefKind, tok: Seq<char>) -> Result<u32, Seq<char>> {
        spec_index_resolve(kind, tok)
    }

    fn resolve_string(&self, s: &str) -> (r: Result<u32, DexError>) {
        parse_indexed_ref(chars_of(s).as_slice(), "string")
    }

    fn resolve_type(&self, s: &str) -> (r: Result<u32, DexError>) {
        let cs = chars_of(s);
        match parse_indexed_ref(cs.as_slice(), "type") {
            Ok(v) => Ok(v),
            Err(_) => parse_u32_literal(cs.as_slice()),
        }
    }

    fn resolve_field(&self, s: &str) -> (r: Result<u32, DexError>) {
        parse_indexed_ref(chars_of(s).as_slice(), "field")
    }

    fn resolve_method(&self, s: &str) -> (r: Result<u32, DexError>) {
        parse_indexed_ref(chars_of(s).as_slice(), "method")
    }

    fn resolve_proto(&self, s: &str) -> (r: Result<u32, DexError>) {
        parse_indexed_ref(chars_of(s).as_slice(), "proto")
    }

    fn resolve_callsite(&self, s: &str) -> (r: Result<u32, DexError>) {
        parse_indexed_ref(chars_of(s).as_slice(), "callsite")
    }
}

/// Asks the resolver about `tok` with the method for `kind`.
fn call_resolve<R: EncodeResolve>(res: &R, kind: RefKind, tok: &[char]) -> (r: Result<u32, DexError>)
    requires
        kind != RefKind::NoRef,
        kind != RefKind::Varies,
    ensures
        rv(r) == res.spec_resolve(kind, tok@),
{
    let s = string_of(tok);
    match kind {
        RefKind::String => res.resolve_string(s.as_str()),
        RefKind::Type => res.resolve_type(s.as_str()),
        RefKind::Field => res.resolve_field(s.as_str()),
        RefKind::Method => res.resolve_method(s.as_str()),
        RefKind::MethodProto => res.resolve_proto(s.as_str()),
        _ => res.resolve_callsite(s.as_str()),
    }
}

/// The index a reference token resolves to: a literal for kinds without a pool.
pub open spec fn spec_resolve_ref<R: EncodeResolve>(res: &R, kind: RefKind, tok0: Seq<char>) -> Result<
    u32,
    Seq<char>,
> {
    let tok = trim_end_char(trim(tok0), ',');
    match kind {
        RefKind::NoRef | RefKind::Varies => spec_parse_u32_literal(tok),
        _ => res.spec_resolve(kind, tok),
    }
}

fn resolve_ref<R: EncodeResolve>(kind: RefKind, tok0: &[char], res: &R) -> (r: Result<u32, DexError>)
    ensures
        rv(r) == spec_resolve_ref(res, kind, tok0@),
{
    let tok = trim_end_char_slice(trim_slice(tok0), ',');
    match kind {
        RefKind::NoRef | RefKind::Varies => parse_u32_literal(tok),
        _ => call_resolve(res, kind, tok),
    }
}

/// The `k`-th token, or `d` when there are fewer tokens.
pub open spec fn tok_or(ops: Seq<Seq<char>>, k: int, d: Seq<char>) -> Seq<char> {
    if 0 <= k < ops.len() {
        ops[k]
    } else {
        d
    }
}

/// The `k`-th token, if there is one.
pub open spec fn tok_at(ops: Seq<Seq<char>>, k: int) -> Option<Seq<char>> {
    if 0 <= k < ops.len() {
        Some(ops[k])
    } else {
        None
    }
}

/// The branch offset: the one given, else the one read from the token.
pub open spec fn branch_or(branch: Option<i32>, tok: Option<Seq<char>>) -> Option<i32> {
    match branch {
        Some(b) => Some(b),
        None => match tok {
            Some(t) => spec_parse_branch_token(t),
            None => None,
        },
    }
}

/// Little-endian bytes of a 16-bit value.
pub open spec fn le16(x: u16) -> Seq<u8> {
    seq![(x & 0xff) as u8, (x >> 8u16) as u8]
}

/// Little-endian bytes of a 32-bit value.
pub open spec fn le32(x: u32) -> Seq<u8> {
    seq![
        (x & 0xff) as u8,
        ((x >> 8u32) & 0xff) as u8,
        ((x >> 16u32) & 0xff) as u8,
        (x >> 24u32) as u8,
    ]
}

/// Little-endian bytes of a 64-bit value.
pub open spec fn le64(x: u64) -> Seq<u8> {
    le32((x & 0xffff_ffff) as u32) + le32((x >> 32u64) as u32)
}

fn push_le16(out: &mut Vec<u8>, x: u16)
    ensures
        final(out)@ == old(out)@ + le16(x),
{
    out.push((x & 0xff) as u8);
    out.push((x >> 8u16) as u8);
    assert(final(out)@ =~= old(out)@ + le16(x));
}

fn push_le32(out: &mut Vec<u8>, x: u32)
    ensures
        final(out)@ == old(out)@ + le32(x),
{
    out.push((x & 0xff) as u8);
    out.push(((x >> 8u32) & 0xff) as u8);
    out.push(((x >> 16u32) & 0xff) as u8);
    out.push((x >> 24u32) as u8);
    assert(final(out)@ =~= old(out)@ + le32(x));
}

fn push_le64(out: &mut Vec<u8>, x: u64)
    ensures
        final(out)@ == old(out)@ + le64(x),
{
    push_le32(out, (x & 0xffff_ffff) as u32);
    push_le32(out, (x >> 32u64) as u32);
    assert(final(out)@ =~= old(out)@ + le64(x));
}

/// Register `k` of a register list, or 0.
pub open spec fn reg_or0(regs: Seq<u16>, k: int) -> u16 {
    if 0 <= k < regs.len() {
        regs[k]
    } else {
        0
    }
}

/// The `A|G|op BBBB F|E|D|C` layout of up to five registers and a 16-bit index.
pub open spec fn pack_35c(op: u8, regs: Seq<u16>, idx: u16) -> Seq<u8> {
    let a = regs.len() as u8;
    let g = reg_or0(regs, 4) as u8;
    let c = reg_or0(regs, 0) as u8;
    let d = reg_or0(regs, 1) as u8;
    let e = reg_or0(regs, 2) as u8;
    let f = reg_or0(regs, 3) as u8;
    seq![op, (a << 4u8) | (g & 0x0f)] + le16(idx) + seq![
        (c & 0x0f) | ((d & 0x0f) << 4u8),
        (e & 0x0f) | ((f & 0x0f) << 4u8),
    ]
}

/// Encoding of format 10t: `op AA` with an 8-bit branch offset.
pub open spec fn spec_enc_10t(op: u8, ops: Seq<Seq<char>>, branch: Option<i32>) -> Result<Seq<u8>, Seq<char>> {
    match branch_or(branch, tok_at(ops, 0)) {
        None => Err("F10t missing branch"@),
        Some(rel) => if -128 <= rel <= 127 {
            Ok(seq![op, (rel as i8) as u8])
        } else {
            Err("F10t branch out of range"@)
        },
    }
}

/// Encoding of format 11n: `B|A|op`, a register below 16 and a literal in `-8..=7`.
pub open spec fn spec_enc_11n(op: u8, ops: Seq<Seq<char>>) -> Result<Seq<u8>, Seq<char>> {
    match spec_parse_reg(tok_or(ops, 0, seq![])) {
        Err(e) => Err(e),
        Ok(r) => match spec_parse_i64(tok_or(ops, 1, seq!['0'])) {
            Err(e) => Err(e),
            Ok(lit) => if r > 0xf || !(-8 <= lit <= 7) {
                Err("F11n range"@)
            } else {
                Ok(seq![op, (r as u8) | (((lit as i8) as u8) << 4u8)])
            },
        },
    }
}

/// Encoding of format 11x: `AA|op`.
pub open spec fn spec_enc_11x(op: u8, ops: Seq<Seq<char>>) -> Result<Seq<u8>, Seq<char>> {
    match spec_parse_reg(tok_or(ops, 0, seq![])) {
        Err(e) => Err(e),
        Ok(r) => Ok(seq![op, r as u8]),
    }
}

/// Encoding of format 12x: `B|A|op`.
pub open spec fn spec_enc_12x(op: u8, ops: Seq<Seq<char>>) -> Result<Seq<u8>, Seq<char>> {
    match spec_parse_reg(tok_or(ops, 0, seq![])) {
        Err(e) => Err(e),
        Ok(a) => match spec_parse_reg(tok_or(ops, 1, seq![])) {
            Err(e) => Err(e),
            Ok(b) => Ok(seq![op, (a as u8) | ((b as u8) << 4u8)]),
        },
    }
}

/// Encoding of format 20t: `op 00 AAAA` with a 16-bit branch offset.
pub open spec fn spec_enc_20t(op: u8, ops: Seq<Seq<char>>, branch: Option<i32>) -> Result<Seq<u8>, Seq<char>> {
    match branch_or(branch, tok_at(ops, 0)) {
        None => Err("F20t missing branch"@),
        Some(rel) => if -32768 <= rel <= 32767 {
            Ok(seq![op, 0] + le16((rel as i16) as u16))
        } else {
            Err("F20t branch out of range"@)
        },
    }
}

/// Encoding of formats 21c, 31c and 20bc: `AA|op` and a reference index.
pub open spec fn spec_enc_ref_aa<R: EncodeResolve>(
    op: u8,
    fmt: Format,
    kind: RefKind,
    ops: Seq<Seq<char>>,
    res: &R,
) -> Result<Seq<u8>, Seq<char>> {
    let aa = if fmt == Format::F20bc {
        match spec_parse_u32_literal(tok_or(ops, 0, seq!['0'])) {
            Ok(v) => Ok(v as u8),
            Err(e) => Err(e),
        }
    } else {
        match spec_parse_reg(tok_or(ops, 0, seq![])) {
            Ok(v) => Ok(v as u8),
            Err(e) => Err(e),
        }
    };
    match aa {
        Err(e) => Err(e),
        Ok(aa) => match spec_resolve_ref(res, kind, tok_or(ops, 1, seq![])) {
            Err(e) => Err(e),
            Ok(idx) => if fmt == Format::F31c {
                Ok(seq![op, aa] + le32(idx))
            } else if idx > 0xffff {
                Err("ref index > u16"@)
            } else {
                Ok(seq![op, aa] + le16(idx as u16))
            },
        },
    }
}

/// The 16 bits that format 21h stores: the top bits of the literal for the `high16` opcodes.
pub open spec fn high16_stored(op: u8, lit: i64) -> i16 {
    if op == 0x15 {
        (lit >> 16i64) as i16
    } else if op == 0x19 {
        (lit >> 48i64) as i16
    } else {
        lit as i16
    }
}

/// Encoding of format 21h: `AA|op BBBB`.
pub open spec fn spec_enc_21h(op: u8, ops: Seq<Seq<char>>) -> Result<Seq<u8>, Seq<char>> {
    match spec_parse_reg(tok_or(ops, 0, seq![])) {
        Err(e) => Err(e),
        Ok(aa) => match spec_parse_i64(tok_or(ops, 1, seq!['0'])) {
            Err(e) => Err(e),
            Ok(lit) => Ok(seq![op, aa as u8] + le16(high16_stored(op, lit) as u16)),
        },
    }
}

/// Encoding of format 21s: `AA|op BBBB` with a 16-bit literal.
pub open spec fn spec_enc_21s(op: u8, ops: Seq<Seq<char>>) -> Result<Seq<u8>, Seq<char>> {
    match spec_parse_reg(tok_or(ops, 0, seq![])) {
        Err(e) => Err(e),
        Ok(aa) => match spec_parse_i64(tok_or(ops, 1, seq!['0'])) {
            Err(e) => Err(e),
            Ok(lit) => Ok(seq![op, aa as u8] + le16((lit as i16) as u16)),
        },
    }
}

/// Encoding of format 21t: `AA|op BBBB` with a 16-bit branch offset.
pub open spec fn spec_enc_21t(op: u8, ops: Seq<Seq<char>>, branch: Option<i32>) -> Result<Seq<u8>, Seq<char>> {
    match spec_parse_reg(tok_or(ops, 0, seq![])) {
        Err(e) => Err(e),
        Ok(aa) => match branch_or(branch, tok_at(ops, 1)) {
            None => Err("F21t missing branch"@),
            Some(rel) => if -32768 <= rel <= 32767 {
                Ok(seq![op, aa as u8] + le16((rel as i16) as u16))
            } else {
                Err("F21t branch out of range"@)
            },
        },
    }
}

/// Encoding of format 22b: `AA|op CC|BB` with an 8-bit literal.
pub open spec fn spec_enc_22b(op: u8, ops: Seq<Seq<char>>) -> Result<Seq<u8>, Seq<char>> {
    match spec_parse_reg(tok_or(ops, 0, seq![])) {
        Err(e) => Err(e),
        Ok(a) => match spec_parse_reg(tok_or(ops, 1, seq![])) {
            Err(e) => Err(e),
            Ok(b) => match spec_parse_i64(tok_or(ops, 2, seq!['0'])) {
                Err(e) => Err(e),
                Ok(c) => Ok(seq![op, a as u8, b as u8, (c as i8) as u8]),
            },
        },
    }
}

/// Encoding of format 22x: `AA|op BBBB`.
pub open spec fn spec_enc_22x(op: u8, ops: Seq<Seq<char>>) -> Result<Seq<u8>, Seq<char>> {
    match spec_parse_reg(tok_or(ops, 0, seq![])) {
        Err(e) => Err(e),
        Ok(a) => match spec_parse_reg(tok_or(ops, 1, seq![])) {
            Err(e) => Err(e),
            Ok(b) => Ok(seq![op, a as u8] + le16(b)),
        },
    }
}

/// Encoding of formats 22c and 22cs: `B|A|op CCCC` with a reference index.
pub open spec fn spec_enc_22c<R: EncodeResolve>(op: u8, kind: RefKind, ops: Seq<Seq<char>>, res: &R) -> Result<
    Seq<u8>,
    Seq<char>,
> {
    match spec_parse_reg(tok_or(ops, 0, seq![])) {
        Err(e) => Err(e),
        Ok(a) => match spec_parse_reg(tok_or(ops, 1, seq![])) {
            Err(e) => Err(e),
            Ok(b) => match spec_resolve_ref(res, kind, tok_or(ops, 2, seq![])) {
                Err(e) => Err(e),
                Ok(idx) => if idx > 0xffff {
                    Err("ref index > u16"@)
                } else {
                    Ok(seq![op, (a as u8) | ((b as u8) << 4u8)] + le16(idx as u16))
                },
            },
        },
    }
}

/// Encoding of format 22s: `B|A|op CCCC` with a 16-bit literal.
pub open spec fn spec_enc_22s(op: u8, ops: Seq<Seq<char>>) -> Result<Seq<u8>, Seq<char>> {
    match spec_parse_reg(tok_or(ops, 0, seq![])) {
        Err(e) => Err(e),
        Ok(a) => match spec_parse_reg(tok_or(ops, 1, seq![])) {
            Err(e) => Err(e),
            Ok(b) => match spec_parse_i64(tok_or(ops, 2, seq!['0'])) {
                Err(e) => Err(e),
                Ok(lit) => Ok(seq![op, (a as u8) | ((b as u8) << 4u8)] + le16((lit as i16) as u16)),
            },
        },
    }
}

/// Encoding of format 22t: `B|A|op CCCC` with a 16-bit branch offset.
pub open spec fn spec_enc_22t(op: u8, ops: Seq<Seq<char>>, branch: Option<i32>) -> Result<Seq<u8>, Seq<char>> {
    match spec_parse_reg(tok_or(ops, 0, seq![])) {
        Err(e) => Err(e),
        Ok(a) => match spec_parse_reg(tok_or(ops, 1, seq![])) {
            Err(e) => Err(e),
            Ok(b) => match branch_or(branch, tok_at(ops, 2)) {
                None => Err("F22t missing branch"@),
                Some(rel) => if -32768 <= rel <= 32767 {
                    Ok(seq![op, (a as u8) | ((b as u8) << 4u8)] + le16((rel as i16) as u16))
                } else {
                    Err("F22t branch out of range"@)
                },
            },
        },
    }
}

/// Encoding of format 23x: `AA|op CC|BB`.
pub open spec fn spec_enc_23x(op: u8, ops: Seq<Seq<char>>) -> Result<Seq<u8>, Seq<char>> {
    match spec_parse_reg(tok_or(ops, 0, seq![])) {
        Err(e) => Err(e),
        Ok(a) => match spec_parse_reg(tok_or(ops, 1, seq![])) {
            Err(e) => Err(e),
            Ok(b) => match spec_parse_reg(tok_or(ops, 2, seq![])) {
                Err(e) => Err(e),
                Ok(c) => Ok(seq![op, a as u8, b as u8, c as u8]),
            },
        },
    }
}

/// Encoding of format 30t: `op 00 AAAAAAAA` with a 32-bit branch offset.
pub open spec fn spec_enc_30t(op: u8, ops: Seq<Seq<char>>, branch: Option<i32>) -> Result<Seq<u8>, Seq<char>> {
    match branch_or(branch, tok_at(ops, 0)) {
        None => Err("F30t missing branch"@),
        Some(rel) => Ok(seq![op, 0] + le32(rel as u32)),
    }
}

/// Encoding of format 31i: `AA|op BBBBBBBB` with a 32-bit literal.
pub open spec fn spec_enc_31i(op: u8, ops: Seq<Seq<char>>) -> Result<Seq<u8>, Seq<char>> {
    match spec_parse_reg(tok_or(ops, 0, seq![])) {
        Err(e) => Err(e),
        Ok(aa) => match spec_parse_i64(tok_or(ops, 1, seq!['0'])) {
            Err(e) => Err(e),
            Ok(lit) => Ok(seq![op, aa as u8] + le32((lit as i32) as u32)),
        },
    }
}

/// Encoding of format 31t: `AA|op BBBBBBBB` with a 32-bit branch offset.
pub open spec fn spec_enc_31t(op: u8, ops: Seq<Seq<char>>, branch: Option<i32>) -> Result<Seq<u8>, Seq<char>> {
    match spec_parse_reg(tok_or(ops, 0, seq![])) {
        Err(e) => Err(e),
        Ok(aa) => match branch_or(branch, tok_at(ops, 1)) {
            None => Err("F31t missing branch"@),
            Some(rel) => Ok(seq![op, aa as u8] + le32(rel as u32)),
        },
    }
}

/// Encoding of format 32x: `op 00 AAAA BBBB`.
pub open spec fn spec_enc_32x(op: u8, ops: Seq<Seq<char>>) -> Result<Seq<u8>, Seq<char>> {
    match spec_parse_reg(tok_or(ops, 0, seq![])) {
        Err(e) => Err(e),
        Ok(a) => match spec_parse_reg(tok_or(ops, 1, seq![])) {
            Err(e) => Err(e),
            Ok(b) => Ok(seq![op, 0] + le16(a) + le16(b)),
        },
    }
}

/// Encoding of format 51l: `AA|op` and a 64-bit literal.
pub open spec fn spec_enc_51l(op: u8, ops: Seq<Seq<char>>) -> Result<Seq<u8>, Seq<char>> {
    match spec_parse_reg(tok_or(ops, 0, seq![])) {
        Err(e) => Err(e),
        Ok(aa) => match spec_parse_i64(tok_or(ops, 1, seq!['0'])) {
            Err(e) => Err(e),
            Ok(lit) => Ok(seq![op, aa as u8] + le64(lit as u64)),
        },
    }
}

/// The braced register group at the front of joined operand text, and the text after it.
pub open spec fn spec_braced(joined: Seq<char>) -> Option<(Seq<char>, Seq<char>)> {
    match find_char(joined, '}') {
        Some(close) => Some(
            (
                joined.subrange(0, close + 1),
                trim(trim_start_char(trim(joined.subrange(close + 1, joined.len() as int)), ',')),
            ),
        ),
        None => None,
    }
}

/// The registers and reference token of a 35c-style operand list.
pub open spec fn spec_35c_regs(ops: Seq<Seq<char>>) -> Result<(Seq<u16>, Seq<char>), Seq<char>> {
    if ops.len() == 0 {
        Ok((seq![], seq![]))
    } else if ops[0].len() > 0 && ops[0][0] == '{' {
        match spec_braced(join(ops, seq![' '])) {
            Some((regs_part, rest)) => match spec_parse_reg_list(regs_part) {
                Ok(regs) => Ok((regs, rest)),
                Err(e) => Err(e),
            },
            None => Err("unclosed register list"@),
        }
    } else {
        let n = ops.len() as int;
        match spec_parse_regs(ops.subrange(0, n - 1)) {
            Ok(regs) => Ok((regs, ops[n - 1])),
            Err(e) => Err(e),
        }
    }
}

/// Encoding of formats 35c, 35mi and 35ms: up to five registers and a reference.
pub open spec fn spec_enc_35c<R: EncodeResolve>(op: u8, kind: RefKind, ops: Seq<Seq<char>>, res: &R) -> Result<
    Seq<u8>,
    Seq<char>,
> {
    match spec_35c_regs(ops) {
        Err(e) => Err(e),
        Ok((regs, ref_tok)) => if regs.len() > 5 {
            Err("F35c max 5 registers"@)
        } else {
            match spec_resolve_ref(res, kind, ref_tok) {
                Err(e) => Err(e),
                Ok(idx) => if idx > 0xffff {
                    Err("ref index > u16"@)
                } else {
                    Ok(pack_35c(op, regs, idx as u16))
                },
            }
        },
    }
}

/// Encoding of format 45cc from registers, a method token and a proto token.
pub open spec fn spec_45cc_regs<R: EncodeResolve>(
    op: u8,
    regs: Seq<u16>,
    method_tok: Seq<char>,
    proto_tok: Seq<char>,
    res: &R,
) -> Result<Seq<u8>, Seq<char>> {
    if regs.len() > 5 {
        Err("F45cc max 5 registers"@)
    } else {
        match res.spec_resolve(RefKind::Method, method_tok) {
            Err(e) => Err(e),
            Ok(m) => match res.spec_resolve(RefKind::MethodProto, proto_tok) {
                Err(e) => Err(e),
                Ok(p) => if m > 0xffff {
                    Err("method idx"@)
                } else if p > 0xffff {
                    Err("proto idx"@)
                } else {
                    Ok(pack_35c(op, regs, m as u16) + le16(p as u16))
                },
            },
        }
    }
}

/// Encoding of format 45cc: `A|G|op BBBB F|E|D|C HHHH`.
pub open spec fn spec_enc_45cc<R: EncodeResolve>(op: u8, ops: Seq<Seq<char>>, res: &R) -> Result<
    Seq<u8>,
    Seq<char>,
> {
    match spec_braced(join(ops, seq![' '])) {
        Some((regs_part, rest)) => match spec_parse_reg_list(regs_part) {
            Err(e) => Err(e),
            Ok(regs) => {
                let parts = split_ws(rest);
                spec_45cc_regs(op, regs, tok_or(parts, 0, seq![]), tok_or(parts, 1, seq![]), res)
            },
        },
        None => if ops.len() >= 3 {
            let n = ops.len() as int;
            match spec_parse_regs(ops.subrange(0, n - 2)) {
                Err(e) => Err(e),
                Ok(regs) => spec_45cc_regs(op, regs, ops[n - 2], ops[n - 1], res),
            }
        } else {
            Err("F45cc bad operands"@)
        },
    }
}

/// Encoding of format 4rcc: `AA|op BBBB CCCC HHHH`.
pub open spec fn spec_enc_4rcc<R: EncodeResolve>(op: u8, ops: Seq<Seq<char>>, res: &R) -> Result<
    Seq<u8>,
    Seq<char>,
> {
    match spec_parse_4rcc(join(ops, seq![' '])) {
        Err(e) => Err(e),
        Ok((start, count, mt, pt)) => match res.spec_resolve(RefKind::Method, mt) {
            Err(e) => Err(e),
            Ok(m) => match res.spec_resolve(RefKind::MethodProto, pt) {
                Err(e) => Err(e),
                Ok(p) => if m > 0xffff {
                    Err("method idx"@)
                } else if p > 0xffff {
                    Err("proto idx"@)
                } else {
                    Ok(seq![op, count] + le16(m as u16) + le16(start) + le16(p as u16))
                },
            },
        },
    }
}

/// The register span and reference token of a 3rc-style operand list.
pub open spec fn spec_3rc_span(ops: Seq<Seq<char>>) -> Result<(u16, u8, Seq<char>), Seq<char>> {
    if ops.len() >= 2 {
        let n = ops.len() as int;
        match spec_parse_reg_range(join(ops.subrange(0, n - 1), seq![' '])) {
            Ok((start, count)) => Ok((start, count, ops[n - 1])),
            Err(e) => Err(e),
        }
    } else {
        spec_parse_range_invoke(join(ops, seq![' ']))
    }
}

/// Encoding of formats 3rc, 3rmi and 3rms: `AA|op BBBB CCCC`.
pub open spec fn spec_enc_3rc<R: EncodeResolve>(op: u8, kind: RefKind, ops: Seq<Seq<char>>, res: &R) -> Result<
    Seq<u8>,
    Seq<char>,
> {
    match spec_3rc_span(ops) {
        Err(e) => Err(e),
        Ok((start, count, rt)) => match spec_resolve_ref(res, kind, rt) {
            Err(e) => Err(e),
            Ok(idx) => if idx > 0xffff {
                Err("ref index > u16"@)
            } else {
                Ok(seq![op, count] + le16(idx as u16) + le16(start))
            },
        },
    }
}

/// Encoding of format 40sc: `op 00 BBBBBBBB AAAA`.
pub open spec fn spec_enc_40sc<R: EncodeResolve>(op: u8, kind: RefKind, ops: Seq<Seq<char>>, res: &R) -> Result<
    Seq<u8>,
    Seq<char>,
> {
    match spec_parse_u32_literal(tok_or(ops, 0, seq!['0'])) {
        Err(e) => Err(e),
        Ok(aa) => match spec_resolve_ref(res, kind, tok_or(ops, 1, seq![])) {
            Err(e) => Err(e),
            Ok(idx) => Ok(seq![op, 0] + le32(idx) + le16(aa as u16)),
        },
    }
}

/// Encoding of format 41c: `op 00 BBBBBBBB AAAA`, register `vAAAA`.
pub open spec fn spec_enc_41c<R: EncodeResolve>(op: u8, kind: RefKind, ops: Seq<Seq<char>>, res: &R) -> Result<
    Seq<u8>,
    Seq<char>,
> {
    match spec_parse_reg(tok_or(ops, 0, seq!['v', '0'])) {
        Err(e) => Err(e),
        Ok(aa) => match spec_resolve_ref(res, kind, tok_or(ops, 1, seq![])) {
            Err(e) => Err(e),
            Ok(idx) => Ok(seq![op, 0] + le32(idx) + le16(aa)),
        },
    }
}

/// Encoding of format 52c: `op 00 CCCCCCCC AAAA BBBB`.
pub open spec fn spec_enc_52c<R: EncodeResolve>(op: u8, kind: RefKind, ops: Seq<Seq<char>>, res: &R) -> Result<
    Seq<u8>,
    Seq<char>,
> {
    match spec_parse_reg(tok_or(ops, 0, seq!['v', '0'])) {
        Err(e) => Err(e),
        Ok(a) => match spec_parse_reg(tok_or(ops, 1, seq!['v', '0'])) {
            Err(e) => Err(e),
            Ok(b) => match spec_resolve_ref(res, kind, tok_or(ops, 2, seq![])) {
                Err(e) => Err(e),
                Ok(idx) => Ok(seq![op, 0] + le32(idx) + le16(a) + le16(b)),
            },
        },
    }
}

/// Encoding of format 5rc: `op 00 BBBBBBBB AAAA CCCC`.
pub open spec fn spec_enc_5rc<R: EncodeResolve>(op: u8, kind: RefKind, ops: Seq<Seq<char>>, res: &R) -> Result<
    Seq<u8>,
    Seq<char>,
> {
    match spec_parse_range_invoke(join(ops, seq![' '])) {
        Err(e) => Err(e),
        Ok((start, count, rt)) => match spec_resolve_ref(res, kind, rt) {
            Err(e) => Err(e),
            Ok(idx) => Ok(seq![op, 0] + le32(idx) + le16(count as u16) + le16(start)),
        },
    }
}

/// The bytes of instruction `op` (of format `fmt` and reference kind `kind`) for operand tokens `ops`.
pub open spec fn spec_encode_into<R: EncodeResolve>(
    op: u8,
    fmt: Format,
    kind: RefKind,
    ops: Seq<Seq<char>>,
    res: &R,
    branch: Option<i32>,
) -> Result<Seq<u8>, Seq<char>> {
    match fmt {
        Format::F10x => Ok(seq![op, 0]),
        Format::F10t => spec_enc_10t(op, ops, branch),
        Format::F11n => spec_enc_11n(op, ops),
        Format::F11x => spec_enc_11x(op, ops),
        Format::F12x => spec_enc_12x(op, ops),
        Format::F20t => spec_enc_20t(op, ops, branch),
        Format::F21c | Format::F31c | Format::F20bc => spec_enc_ref_aa(op, fmt, kind, ops, res),
        Format::F21h => spec_enc_21h(op, ops),
        Format::F21s => spec_enc_21s(op, ops),
        Format::F21t => spec_enc_21t(op, ops, branch),
        Format::F22b => spec_enc_22b(op, ops),
        Format::F22x => spec_enc_22x(op, ops),
        Format::F22c | Format::F22cs => spec_enc_22c(op, kind, ops, res),
        Format::F22s => spec_enc_22s(op, ops),
        Format::F22t => spec_enc_22t(op, ops, branch),
        Format::F23x => spec_enc_23x(op, ops),
        Format::F30t => spec_enc_30t(op, ops, branch),
        Format::F31i => spec_enc_31i(op, ops),
        Format::F31t => spec_enc_31t(op, ops, branch),
        Format::F32x => spec_enc_32x(op, ops),
        Format::F35c | Format::F35mi | Format::F35ms => spec_enc_35c(op, kind, ops, res),
        Format::F3rc | Format::F3rmi | Format::F3rms => spec_enc_3rc(op, kind, ops, res),
        Format::F51l => spec_enc_51l(op, ops),
        Format::F45cc => spec_enc_45cc(op, ops, res),
        Format::F4rcc => spec_enc_4rcc(op, ops, res),
        Format::F40sc => spec_enc_40sc(op, kind, ops, res),
        Format::F41c => spec_enc_41c(op, kind, ops, res),
        Format::F52c => spec_enc_52c(op, kind, ops, res),
        Format::F5rc => spec_enc_5rc(op, kind, ops, res),
        Format::F00x => Err("cannot encode unused opcode"@),
    }
}

/// Whether opcode `op` can be named by its mnemonic when encoding.
pub open spec fn encodable(op: u8) -> bool {
    spec_format(op) != Format::F00x && spec_mnemonic(op) != "unused"@
}

/// The least encodable opcode from `i` on whose mnemonic is `m`.
pub open spec fn opcode_from(m: Seq<char>, i: int) -> Option<u8>
    decreases 256 - i,
{
    if i < 0 || i > 255 {
        None
    } else if encodable(i as u8) && spec_mnemonic(i as u8) == m {
        Some(i as u8)
    } else {
        opcode_from(m, i + 1)
    }
}

/// The opcode of mnemonic `m`: the first encodable opcode with that mnemonic.
pub open spec fn spec_opcode_for_mnemonic(m: Seq<char>) -> Option<u8> {
    opcode_from(m, 0)
}

/// The bytes (or the error message) of encoding mnemonic `m` with operand text `operands`.
pub open spec fn spec_encode_instruction<R: EncodeResolve>(
    m: Seq<char>,
    operands: Seq<char>,
    res: &R,
    branch: Option<i32>,
) -> Result<Seq<u8>, Seq<char>> {
    match spec_opcode_for_mnemonic(m) {
        None => Err("unknown mnemonic: "@ + m),
        Some(op) => spec_encode_into(
            op,
            spec_format(op),
            spec_ref_kind(op),
            spec_split_operands(operands),
            res,
            branch,
        ),
    }
}

fn tok_or_exec<'a>(ops: &[&'a [char]], k: usize, d: &'a [char]) -> (t: &'a [char])
    ensures
        t@ == tok_or(views(ops@), k as int, d@),
{
    if k < ops.len() {
        ops[k]
    } else {
        d
    }
}

fn branch_at(branch: Option<i32>, ops: &[&[char]], k: usize) -> (r: Option<i32>)
    ensures
        r == branch_or(branch, tok_at(views(ops@), k as int)),
{
    match branch {
        Some(b) => Some(b),
        None => if k < ops.len() {
            parse_branch_token(ops[k])
        } else {
            None
        },
    }
}

fn reg_at(ops: &[&[char]], k: usize) -> (r: Result<u16, DexError>)
    ensures
        rv(r) == spec_parse_reg(tok_or(views(ops@), k as int, seq![])),
{
    let empty: Vec<char> = Vec::new();
    assert(empty@ =~= Seq::<char>::empty());
    parse_reg(tok_or_exec(ops, k, empty.as_slice()))
}

fn reg_at_or_v0(ops: &[&[char]], k: usize) -> (r: Result<u16, DexError>)
    ensures
        rv(r) == spec_parse_reg(tok_or(views(ops@), k as int, seq!['v', '0'])),
{
    let v0: Vec<char> = vec!['v', '0'];
    assert(v0@ =~= seq!['v', '0']);
    parse_reg(tok_or_exec(ops, k, v0.as_slice()))
}

fn lit_at(ops: &[&[char]], k: usize) -> (r: Result<i64, DexError>)
    ensures
        rv(r) == spec_parse_i64(tok_or(views(ops@), k as int, seq!['0'])),
{
    let zero: Vec<char> = vec!['0'];
    assert(zero@ =~= seq!['0']);
    parse_i64(tok_or_exec(ops, k, zero.as_slice()))
}

fn u32_lit_at(ops: &[&[char]], k: usize) -> (r: Result<u32, DexError>)
    ensures
        rv(r) == spec_parse_u32_literal(tok_or(views(ops@), k as int, seq!['0'])),
{
    let zero: Vec<char> = vec!['0'];
    assert(zero@ =~= seq!['0']);
    parse_u32_literal(tok_or_exec(ops, k, zero.as_slice()))
}

fn ref_at<R: EncodeResolve>(kind: RefKind, ops: &[&[char]], k: usize, res: &R) -> (r: Result<u32, DexError>)
    ensures
        rv(r) == spec_resolve_ref(res, kind, tok_or(views(ops@), k as int, seq![])),
{
    let empty: Vec<char> = Vec::new();
    assert(empty@ =~= Seq::<char>::empty());
    resolve_ref(kind, tok_or_exec(ops, k, empty.as_slice()), res)
}

fn bytes2(a: u8, b: u8) -> (v: Vec<u8>)
    ensures
        v@ == seq![a, b],
{
    let mut v: Vec<u8> = Vec::new();
    v.push(a);
    v.push(b);
    assert(v@ =~= seq![a, b]);
    v
}

fn enc_10t(op: u8, ops: &[&[char]], branch: Option<i32>) -> (r: Result<Vec<u8>, DexError>)
    ensures
        bv(r) == spec_enc_10t(op, views(ops@), branch),
{
    match branch_at(branch, ops, 0) {
        None => Err(DexError::invalid("F10t missing branch")),
        Some(rel) => if -128 <= rel && rel <= 127 {
            Ok(bytes2(op, (rel as i8) as u8))
        } else {
            Err(DexError::invalid("F10t branch out of range"))
        },
    }
}

fn enc_11n(op: u8, ops: &[&[char]]) -> (r: Result<Vec<u8>, DexError>)
    ensures
        bv(r) == spec_enc_11n(op, views(ops@)),
{
    let r = match reg_at(ops, 0) {
        Ok(v) => v,
        Err(e) => return Err(e),
    };
    let lit = match lit_at(ops, 1) {
        Ok(v) => v,
        Err(e) => return Err(e),
    };
    if r > 0xf || !(-8 <= lit && lit <= 7) {
        return Err(DexError::invalid("F11n range"));
    }
    Ok(bytes2(op, (r as u8) | (((lit as i8) as u8) << 4u8)))
}

fn enc_11x(op: u8, ops: &[&[char]]) -> (r: Result<Vec<u8>, DexError>)
    ensures
        bv(r) == spec_enc_11x(op, views(ops@)),
{
    match reg_at(ops, 0) {
        Ok(v) => Ok(bytes2(op, v as u8)),
        Err(e) => Err(e),
    }
}

fn enc_12x(op: u8, ops: &[&[char]]) -> (r: Result<Vec<u8>, DexError>)
    ensures
        bv(r) == spec_enc_12x(op, views(ops@)),
{
    let a = match reg_at(ops, 0) {
        Ok(v) => v,
        Err(e) => return Err(e),
    };
    let b = match reg_at(ops, 1) {
        Ok(v) => v,
        Err(e) => return Err(e),
    };
    Ok(bytes2(op, (a as u8) | ((b as u8) << 4u8)))
}

fn enc_20t(op: u8, ops: &[&[char]], branch: Option<i32>) -> (r: Result<Vec<u8>, DexError>)
    ensures
        bv(r) == spec_enc_20t(op, views(ops@), branch),
{
    match branch_at(branch, ops, 0) {
        None => Err(DexError::invalid("F20t missing branch")),
        Some(rel) => if -32768 <= rel && rel <= 32767 {
            let mut out = bytes2(op, 0);
            push_le16(&mut out, (rel as i16) as u16);
            Ok(out)
        } else {
            Err(DexError::invalid("F20t branch out of range"))
        },
    }
}

fn enc_ref_aa<R: EncodeResolve>(op: u8, fmt: Format, kind: RefKind, ops: &[&[char]], res: &R) -> (r: Result<
    Vec<u8>,
    DexError,
>)
    ensures
        bv(r) == spec_enc_ref_aa(op, fmt, kind, views(ops@), res),
{
    let aa: u8 = if fmt == Format::F20bc {
        match u32_lit_at(ops, 0) {
            Ok(v) => v as u8,
            Err(e) => return Err(e),
        }
    } else {
        match reg_at(ops, 0) {
            Ok(v) => v as u8,
            Err(e) => return Err(e),
        }
    };
    let idx = match ref_at(kind, ops, 1, res) {
        Ok(v) => v,
        Err(e) => return Err(e),
    };
    let mut out = bytes2(op, aa);
    if fmt == Format::F31c {
        push_le32(&mut out, idx);
    } else {
        if idx > 0xffff {
            return Err(DexError::invalid("ref index > u16"));
        }
        push_le16(&mut out, idx as u16);
    }
    Ok(out)
}

fn enc_21h(op: u8, ops: &[&[char]]) -> (r: Result<Vec<u8>, DexError>)
    ensures
        bv(r) == spec_enc_21h(op, views(ops@)),
{
    let aa = match reg_at(ops, 0) {
        Ok(v) => v,
        Err(e) => return Err(e),
    };
    let lit = match lit_at(ops, 1) {
        Ok(v) => v,
        Err(e) => return Err(e),
    };
    let stored: i16 = if op == 0x15 {
        (lit >> 16i64) as i16
    } else if op == 0x19 {
        (lit >> 48i64) as i16
    } else {
        lit as i16
    };
    let mut out = bytes2(op, aa as u8);
    push_le16(&mut out, stored as u16);
    Ok(out)
}

fn enc_21s(op: u8, ops: &[&[char]]) -> (r: Result<Vec<u8>, DexError>)
    ensures
        bv(r) == spec_enc_21s(op, views(ops@)),
{
    let aa = match reg_at(ops, 0) {
        Ok(v) => v,
        Err(e) => return Err(e),
    };
    let lit = match lit_at(ops, 1) {
        Ok(v) => v,
        Err(e) => return Err(e),
    };
    let mut out = bytes2(op, aa as u8);
    push_le16(&mut out, (lit as i16) as u16);
    Ok(out)
}

fn enc_21t(op: u8, ops: &[&[char]], branch: Option<i32>) -> (r: Result<Vec<u8>, DexError>)
    ensures
        bv(r) == spec_enc_21t(op, views(ops@), branch),
{
    let aa = match reg_at(ops, 0) {
        Ok(v) => v,
        Err(e) => return Err(e),
    };
    match branch_at(branch, ops, 1) {
        None => Err(DexError::invalid("F21t missing branch")),
        Some(rel) => if -32768 <= rel && rel <= 32767 {
            let mut out = bytes2(op, aa as u8);
            push_le16(&mut out, (rel as i16) as u16);
            Ok(out)
        } else {
            Err(DexError::invalid("F21t branch out of range"))
        },
    }
}

fn enc_22b(op: u8, ops: &[&[char]]) -> (r: Result<Vec<u8>, DexError>)
    ensures
        bv(r) == spec_enc_22b(op, views(ops@)),
{
    let a = match reg_at(ops, 0) {
        Ok(v) => v,
        Err(e) => return Err(e),
    };
    let b = match reg_at(ops, 1) {
        Ok(v) => v,
        Err(e) => return Err(e),
    };
    let c = match lit_at(ops, 2) {
        Ok(v) => v,
        Err(e) => return Err(e),
    };
    let mut out = bytes2(op, a as u8);
    out.push(b as u8);
    out.push((c as i8) as u8);
    assert(out@ =~= seq![op, a as u8, b as u8, (c as i8) as u8]);
    Ok(out)
}

fn enc_22x(op: u8, ops: &[&[char]]) -> (r: Result<Vec<u8>, DexError>)
    ensures
        bv(r) == spec_enc_22x(op, views(ops@)),
{
    let a = match reg_at(ops, 0) {
        Ok(v) => v,
        Err(e) => return Err(e),
    };
    let b = match reg_at(ops, 1) {
        Ok(v) => v,
        Err(e) => return Err(e),
    };
    let mut out = bytes2(op, a as u8);
    push_le16(&mut out, b);
    Ok(out)
}

fn enc_22c<R: EncodeResolve>(op: u8, kind: RefKind, ops: &[&[char]], res: &R) -> (r: Result<Vec<u8>, DexError>)
    ensures
        bv(r) == spec_enc_22c(op, kind, views(ops@), res),
{
    let a = match reg_at(ops, 0) {
        Ok(v) => v,
        Err(e) => return Err(e),
    };
    let b = match reg_at(ops, 1) {
        Ok(v) => v,
        Err(e) => return Err(e),
    };
    let idx = match ref_at(kind, ops, 2, res) {
        Ok(v) => v,
        Err(e) => return Err(e),
    };
    if idx > 0xffff {
        return Err(DexError::invalid("ref index > u16"));
    }
    let mut out = bytes2(op, (a as u8) | ((b as u8) << 4u8));
    push_le16(&mut out, idx as u16);
    Ok(out)
}

fn enc_22s(op: u8, ops: &[&[char]]) -> (r: Result<Vec<u8>, DexError>)
    ensures
        bv(r) == spec_enc_22s(op, views(ops@)),
{
    let a = match reg_at(ops, 0) {
        Ok(v) => v,
        Err(e) => return Err(e),
    };
    let b = match reg_at(ops, 1) {
        Ok(v) => v,
        Err(e) => return Err(e),
    };
    let lit = match lit_at(ops, 2) {
        Ok(v) => v,
        Err(e) => return Err(e),
    };
    let mut out = bytes2(op, (a as u8) | ((b as u8) << 4u8));
    push_le16(&mut out, (lit as i16) as u16);
    Ok(out)
}

fn enc_22t(op: u8, ops: &[&[char]], branch: Option<i32>) -> (r: Result<Vec<u8>, DexError>)
    ensures
        bv(r) == spec_enc_22t(op, views(ops@), branch),
{
    let a = match reg_at(ops, 0) {
        Ok(v) => v,
        Err(e) => return Err(e),
    };
    let b = match reg_at(ops, 1) {
        Ok(v) => v,
        Err(e) => return Err(e),
    };
    match branch_at(branch, ops, 2) {
        None => Err(DexError::invalid("F22t missing branch")),
        Some(rel) => if -32768 <= rel && rel <= 32767 {
            let mut out = bytes2(op, (a as u8) | ((b as u8) << 4u8));
            push_le16(&mut out, (rel as i16) as u16);
            Ok(out)
        } else {
            Err(DexError::invalid("F22t branch out of range"))
        },
    }
}

fn enc_23x(op: u8, ops: &[&[char]]) -> (r: Result<Vec<u8>, DexError>)
    ensures
        bv(r) == spec_enc_23x(op, views(ops@)),
{
    let a = match reg_at(ops, 0) {
        Ok(v) => v,
        Err(e) => return Err(e),
    };
    let b = match reg_at(ops, 1) {
        Ok(v) => v,
        Err(e) => return Err(e),
    };
    let c = match reg_at(ops, 2) {
        Ok(v) => v,
        Err(e) => return Err(e),
    };
    let mut out = bytes2(op, a as u8);
    out.push(b as u8);
    out.push(c as u8);
    assert(out@ =~= seq![op, a as u8, b as u8, c as u8]);
    Ok(out)
}

fn enc_30t(op: u8, ops: &[&[char]], branch: Option<i32>) -> (r: Result<Vec<u8>, DexError>)
    ensures
        bv(r) == spec_enc_30t(op, views(ops@), branch),
{
    match branch_at(branch, ops, 0) {
        None => Err(DexError::invalid("F30t missing branch")),
        Some(rel) => {
            let mut out = bytes2(op, 0);
            push_le32(&mut out, rel as u32);
            Ok(out)
        },
    }
}

fn enc_31i(op: u8, ops: &[&[char]]) -> (r: Result<Vec<u8>, DexError>)
    ensures
        bv(r) == spec_enc_31i(op, views(ops@)),
{
    let aa = match reg_at(ops, 0) {
        Ok(v) => v,
        Err(e) => return Err(e),
    };
    let lit = match lit_at(ops, 1) {
        Ok(v) => v,
        Err(e) => return Err(e),
    };
    let mut out = bytes2(op, aa as u8);
    push_le32(&mut out, (lit as i32) as u32);
    Ok(out)
}

fn enc_31t(op: u8, ops: &[&[char]], branch: Option<i32>) -> (r: Result<Vec<u8>, DexError>)
    ensures
        bv(r) == spec_enc_31t(op, views(ops@), branch),
{
    let aa = match reg_at(ops, 0) {
        Ok(v) => v,
        Err(e) => return Err(e),
    };
    match branch_at(branch, ops, 1) {
        None => Err(DexError::invalid("F31t missing branch")),
        Some(rel) => {
            let mut out = bytes2(op, aa as u8);
            push_le32(&mut out, rel as u32);
            Ok(out)
        },
    }
}

fn enc_32x(op: u8, ops: &[&[char]]) -> (r: Result<Vec<u8>, DexError>)
    ensures
        bv(r) == spec_enc_32x(op, views(ops@)),
{
    let a = match reg_at(ops, 0) {
        Ok(v) => v,
        Err(e) => return Err(e),
    };
    let b = match reg_at(ops, 1) {
        Ok(v) => v,
        Err(e) => return Err(e),
    };
    let mut out = bytes2(op, 0);
    push_le16(&mut out, a);
    push_le16(&mut out, b);
    Ok(out)
}

fn enc_51l(op: u8, ops: &[&[char]]) -> (r: Result<Vec<u8>, DexError>)
    ensures
        bv(r) == spec_enc_51l(op, views(ops@)),
{
    let aa = match reg_at(ops, 0) {
        Ok(v) => v,
        Err(e) => return Err(e),
    };
    let lit = match lit_at(ops, 1) {
        Ok(v) => v,
        Err(e) => return Err(e),
    };
    let mut out = bytes2(op, aa as u8);
    push_le64(&mut out, lit as u64);
    Ok(out)
}

fn reg_or0_exec(regs: &[u16], k: usize) -> (r: u16)
    ensures
        r == reg_or0(regs@, k as int),
{
    if k < regs.len() {
        regs[k]
    } else {
        0
    }
}

fn push_pack_35c(out: &mut Vec<u8>, op: u8, regs: &[u16], idx: u16)
    requires
        regs.len() <= 5,
    ensures
        final(out)@ == old(out)@ + pack_35c(op, regs@, idx),
{
    let a = regs.len() as u8;
    let g = reg_or0_exec(regs, 4) as u8;
    let c = reg_or0_exec(regs, 0) as u8;
    let d = reg_or0_exec(regs, 1) as u8;
    let e = reg_or0_exec(regs, 2) as u8;
    let f = reg_or0_exec(regs, 3) as u8;
    out.push(op);
    out.push((a << 4u8) | (g & 0x0f));
    push_le16(out, idx);
    out.push((c & 0x0f) | ((d & 0x0f) << 4u8));
    out.push((e & 0x0f) | ((f & 0x0f) << 4u8));
    assert(final(out)@ =~= old(out)@ + pack_35c(op, regs@, idx));
}

/// Splits joined operand text after its first `}`: the braced group and the rest.
fn braced<'a>(joined: &'a [char]) -> (r: Option<(&'a [char], &'a [char])>)
    ensures
        r matches Some((a, b)) ==> spec_braced(joined@) == Some((a@, b@)),
        r is None ==> spec_braced(joined@) is None,
{
    match find_char_slice(joined, '}') {
        Some(close) => {
            proof {
                crate::text::lemma_find_in_range(joined@, '}', 0);
                assert(close < joined.len());
            }
            let regs_part = &joined[0..close + 1];
            let rest = trim_slice(
                trim_start_char_slice(trim_slice(&joined[close + 1..joined.len()]), ','),
            );
            Some((regs_part, rest))
        },
        None => None,
    }
}

fn regs_35c<'a>(ops: &[&'a [char]], joined: &'a [char]) -> (r: Result<(Vec<u16>, Vec<char>), DexError>)
    requires
        joined@ == join(views(ops@), seq![' ']),
    ensures
        match r {
            Ok((regs, t)) => spec_35c_regs(views(ops@)) == Ok::<(Seq<u16>, Seq<char>), Seq<char>>(
                (regs@, t@),
            ),
            Err(e) => spec_35c_regs(views(ops@)) == Err::<(Seq<u16>, Seq<char>), Seq<char>>(e@),
        },
{
    if ops.len() == 0 {
        let regs: Vec<u16> = Vec::new();
        let t: Vec<char> = Vec::new();
        assert(regs@ =~= Seq::<u16>::empty());
        assert(t@ =~= Seq::<char>::empty());
        return Ok((regs, t));
    }
    assert(views(ops@)[0] == ops@[0]@);
    if ops[0].len() > 0 && ops[0][0] == '{' {
        match braced(joined) {
            Some((regs_part, rest)) => match parse_reg_list(regs_part) {
                Ok(regs) => Ok((regs, vstd::slice::slice_to_vec(rest))),
                Err(e) => Err(e),
            },
            None => Err(DexError::invalid("unclosed register list")),
        }
    } else {
        let n = ops.len();
        let head = &ops[0..n - 1];
        assert(views(head@) =~= views(ops@).subrange(0, n - 1));
        match parse_regs(head) {
            Ok(regs) => Ok((regs, vstd::slice::slice_to_vec(ops[n - 1]))),
            Err(e) => Err(e),
        }
    }
}

fn enc_35c<R: EncodeResolve>(op: u8, kind: RefKind, ops: &[&[char]], res: &R) -> (r: Result<Vec<u8>, DexError>)
    ensures
        bv(r) == spec_enc_35c(op, kind, views(ops@), res),
{
    let joined = join_slices(ops, ' ');
    let (regs, ref_tok) = match regs_35c(ops, joined.as_slice()) {
        Ok(p) => p,
        Err(e) => return Err(e),
    };
    if regs.len() > 5 {
        return Err(DexError::invalid("F35c max 5 registers"));
    }
    let idx = match resolve_ref(kind, ref_tok.as_slice(), res) {
        Ok(v) => v,
        Err(e) => return Err(e),
    };
    if idx > 0xffff {
        return Err(DexError::invalid("ref index > u16"));
    }
    let mut out: Vec<u8> = Vec::new();
    push_pack_35c(&mut out, op, regs.as_slice(), idx as u16);
    assert(out@ =~= pack_35c(op, regs@, idx as u16));
    Ok(out)
}

fn enc_45cc_regs<R: EncodeResolve>(op: u8, regs: &[u16], method_tok: &[char], proto_tok: &[char], res: &R) -> (r: Result<
    Vec<u8>,
    DexError,
>)
    ensures
        bv(r) == spec_45cc_regs(op, regs@, method_tok@, proto_tok@, res),
{
    if regs.len() > 5 {
        return Err(DexError::invalid("F45cc max 5 registers"));
    }
    let m = match call_resolve(res, RefKind::Method, method_tok) {
        Ok(v) => v,
        Err(e) => return Err(e),
    };
    let p = match call_resolve(res, RefKind::MethodProto, proto_tok) {
        Ok(v) => v,
        Err(e) => return Err(e),
    };
    if m > 0xffff {
        return Err(DexError::invalid("method idx"));
    }
    if p > 0xffff {
        return Err(DexError::invalid("proto idx"));
    }
    let mut out: Vec<u8> = Vec::new();
    push_pack_35c(&mut out, op, regs, m as u16);
    push_le16(&mut out, p as u16);
    assert(out@ =~= pack_35c(op, regs@, m as u16) + le16(p as u16));
    Ok(out)
}

fn enc_45cc<R: EncodeResolve>(op: u8, ops: &[&[char]], res: &R) -> (r: Result<Vec<u8>, DexError>)
    ensures
        bv(r) == spec_enc_45cc(op, views(ops@), res),
{
    let joined = join_slices(ops, ' ');
    match braced(joined.as_slice()) {
        Some((regs_part, rest)) => {
            let regs = match parse_reg_list(regs_part) {
                Ok(v) => v,
                Err(e) => return Err(e),
            };
            let parts = split_ws_slice(rest);
            let empty: Vec<char> = Vec::new();
            assert(empty@ =~= Seq::<char>::empty());
            let mt = tok_or_exec(parts.as_slice(), 0, empty.as_slice());
            let pt = tok_or_exec(parts.as_slice(), 1, empty.as_slice());
            enc_45cc_regs(op, regs.as_slice(), mt, pt, res)
        },
        None => if ops.len() >= 3 {
            let n = ops.len();
            let head = &ops[0..n - 2];
            assert(views(head@) =~= views(ops@).subrange(0, n - 2));
            assert(views(ops@)[n - 2] == ops@[n - 2]@);
            assert(views(ops@)[n - 1] == ops@[n - 1]@);
            let regs = match parse_regs(head) {
                Ok(v) => v,
                Err(e) => return Err(e),
            };
            enc_45cc_regs(op, regs.as_slice(), ops[n - 2], ops[n - 1], res)
        } else {
            Err(DexError::invalid("F45cc bad operands"))
        },
    }
}

fn enc_4rcc<R: EncodeResolve>(op: u8, ops: &[&[char]], res: &R) -> (r: Result<Vec<u8>, DexError>)
    ensures
        bv(r) == spec_enc_4rcc(op, views(ops@), res),
{
    let joined = join_slices(ops, ' ');
    let (start, count, mt, pt) = match parse_4rcc(joined.as_slice()) {
        Ok(v) => v,
        Err(e) => return Err(e),
    };
    let m = match call_resolve(res, RefKind::Method, mt.as_slice()) {
        Ok(v) => v,
        Err(e) => return Err(e),
    };
    let p = match call_resolve(res, RefKind::MethodProto, pt.as_slice()) {
        Ok(v) => v,
        Err(e) => return Err(e),
    };
    if m > 0xffff {
        return Err(DexError::invalid("method idx"));
    }
    if p > 0xffff {
        return Err(DexError::invalid("proto idx"));
    }
    let mut out = bytes2(op, count);
    push_le16(&mut out, m as u16);
    push_le16(&mut out, start);
    push_le16(&mut out, p as u16);
    Ok(out)
}

fn span_3rc<'a>(ops: &[&'a [char]]) -> (r: Result<(u16, u8, Vec<char>), DexError>)
    ensures
        match r {
            Ok((st, c, t)) => spec_3rc_span(views(ops@)) == Ok::<(u16, u8, Seq<char>), Seq<char>>(
                (st, c, t@),
            ),
            Err(e) => spec_3rc_span(views(ops@)) == Err::<(u16, u8, Seq<char>), Seq<char>>(e@),
        },
{
    if ops.len() >= 2 {
        let n = ops.len();
        let head = &ops[0..n - 1];
        assert(views(head@) =~= views(ops@).subrange(0, n - 1));
        assert(views(ops@)[n - 1] == ops@[n - 1]@);
        let regs = join_slices(head, ' ');
        match parse_reg_range(regs.as_slice()) {
            Ok((start, count)) => Ok((start, count, vstd::slice::slice_to_vec(ops[n - 1]))),
            Err(e) => Err(e),
        }
    } else {
        let joined = join_slices(ops, ' ');
        match parse_range_invoke(joined.as_slice()) {
            Ok((start, count, t)) => Ok((start, count, vstd::slice::slice_to_vec(t))),
            Err(e) => Err(e),
        }
    }
}

fn enc_3rc<R: EncodeResolve>(op: u8, kind: RefKind, ops: &[&[char]], res: &R) -> (r: Result<Vec<u8>, DexError>)
    ensures
        bv(r) == spec_enc_3rc(op, kind, views(ops@), res),
{
    let (start, count, rt) = match span_3rc(ops) {
        Ok(v) => v,
        Err(e) => return Err(e),
    };
    let idx = match resolve_ref(kind, rt.as_slice(), res) {
        Ok(v) => v,
        Err(e) => return Err(e),
    };
    if idx > 0xffff {
        return Err(DexError::invalid("ref index > u16"));
    }
    let mut out = bytes2(op, count);
    push_le16(&mut out, idx as u16);
    push_le16(&mut out, start);
    Ok(out)
}

fn enc_40sc<R: EncodeResolve>(op: u8, kind: RefKind, ops: &[&[char]], res: &R) -> (r: Result<Vec<u8>, DexError>)
    ensures
        bv(r) == spec_enc_40sc(op, kind, views(ops@), res),
{
    let aa = match u32_lit_at(ops, 0) {
        Ok(v) => v,
        Err(e) => return Err(e),
    };
    let idx = match ref_at(kind, ops, 1, res) {
        Ok(v) => v,
        Err(e) => return Err(e),
    };
    let mut out = bytes2(op, 0);
    push_le32(&mut out, idx);
    push_le16(&mut out, aa as u16);
    Ok(out)
}

fn enc_41c<R: EncodeResolve>(op: u8, kind: RefKind, ops: &[&[char]], res: &R) -> (r: Result<Vec<u8>, DexError>)
    ensures
        bv(r) == spec_enc_41c(op, kind, views(ops@), res),
{
    let aa = match reg_at_or_v0(ops, 0) {
        Ok(v) => v,
        Err(e) => return Err(e),
    };
    let idx = match ref_at(kind, ops, 1, res) {
        Ok(v) => v,
        Err(e) => return Err(e),
    };
    let mut out = bytes2(op, 0);
    push_le32(&mut out, idx);
    push_le16(&mut out, aa);
    Ok(out)
}

fn enc_52c<R: EncodeResolve>(op: u8, kind: RefKind, ops: &[&[char]], res: &R) -> (r: Result<Vec<u8>, DexError>)
    ensures
        bv(r) == spec_enc_52c(op, kind, views(ops@), res),
{
    let a = match reg_at_or_v0(ops, 0) {
        Ok(v) => v,
        Err(e) => return Err(e),
    };
    let b = match reg_at_or_v0(ops, 1) {
        Ok(v) => v,
        Err(e) => return Err(e),
    };
    let idx = match ref_at(kind, ops, 2, res) {
        Ok(v) => v,
        Err(e) => return Err(e),
    };
    let mut out = bytes2(op, 0);
    push_le32(&mut out, idx);
    push_le16(&mut out, a);
    push_le16(&mut out, b);
    Ok(out)
}

fn enc_5rc<R: EncodeResolve>(op: u8, kind: RefKind, ops: &[&[char]], res: &R) -> (r: Result<Vec<u8>, DexError>)
    ensures
        bv(r) == spec_enc_5rc(op, kind, views(ops@), res),
{
    let joined = join_slices(ops, ' ');
    let (start, count, rt) = match parse_range_invoke(joined.as_slice()) {
        Ok(v) => v,
        Err(e) => return Err(e),
    };
    let idx = match resolve_ref(kind, rt, res) {
        Ok(v) => v,
        Err(e) => return Err(e),
    };
    let mut out = bytes2(op, 0);
    push_le32(&mut out, idx);
    push_le16(&mut out, count as u16);
    push_le16(&mut out, start);
    Ok(out)
}

/// Encodes the operands of instruction `op` (format `fmt`, reference kind `kind`).
fn encode_into<R: EncodeResolve>(
    op: u8,
    fmt: Format,
    kind: RefKind,
    ops: &[&[char]],
    res: &R,
    branch: Option<i32>,
) -> (r: Result<Vec<u8>, DexError>)
    ensures
        bv(r) == spec_encode_into(op, fmt, kind, views(ops@), res, branch),
{
    match fmt {
        Format::F10x => Ok(bytes2(op, 0)),
        Format::F10t => enc_10t(op, ops, branch),
        Format::F11n => enc_11n(op, ops),
        Format::F11x => enc_11x(op, ops),
        Format::F12x => enc_12x(op, ops),
        Format::F20t => enc_20t(op, ops, branch),
        Format::F21c | Format::F31c | Format::F20bc => enc_ref_aa(op, fmt, kind, ops, res),
        Format::F21h => enc_21h(op, ops),
        Format::F21s => enc_21s(op, ops),
        Format::F21t => enc_21t(op, ops, branch),
        Format::F22b => enc_22b(op, ops),
        Format::F22x => enc_22x(op, ops),
        Format::F22c | Format::F22cs => enc_22c(op, kind, ops, res),
        Format::F22s => enc_22s(op, ops),
        Format::F22t => enc_22t(op, ops, branch),
        Format::F23x => enc_23x(op, ops),
        Format::F30t => enc_30t(op, ops, branch),
        Format::F31i => enc_31i(op, ops),
        Format::F31t => enc_31t(op, ops, branch),
        Format::F32x => enc_32x(op, ops),
        Format::F35c | Format::F35mi | Format::F35ms => enc_35c(op, kind, ops, res),
        Format::F3rc | Format::F3rmi | Format::F3rms => enc_3rc(op, kind, ops, res),
        Format::F51l => enc_51l(op, ops),
        Format::F45cc => enc_45cc(op, ops, res),
        Format::F4rcc => enc_4rcc(op, ops, res),
        Format::F40sc => enc_40sc(op, kind, ops, res),
        Format::F41c => enc_41c(op, kind, ops, res),
        Format::F52c => enc_52c(op, kind, ops, res),
        Format::F5rc => enc_5rc(op, kind, ops, res),
        Format::F00x => Err(DexError::invalid("cannot encode unused opcode")),
    }
}

/// Whether two string slices hold the same characters.
pub fn str_eq(a: &str, b: &str) -> (r: bool)
    ensures
        r == (a@ == b@),
{
    let x = a.as_bytes();
    let y = b.as_bytes();
    proof {
        vstd::utf8::encode_utf8_decode_utf8(a@);
        vstd::utf8::encode_utf8_decode_utf8(b@);
    }
    if x.len() != y.len() {
        return false;
    }
    let mut i: usize = 0;
    while i < x.len()
        invariant
            i <= x.len(),
            x.len() == y.len(),
            x@ == vstd::utf8::encode_utf8(a@),
            y@ == vstd::utf8::encode_utf8(b@),
            forall|k: int| 0 <= k < i ==> x@[k] == y@[k],
        decreases x.len() - i,
    {
        if x[i] != y[i] {
            assert(x@ != y@);
            return false;
        }
        i = i + 1;
    }
    assert(x@ =~= y@);
    true
}

/// Look up opcode byte for a mnemonic.
pub fn opcode_for_mnemonic(mnemonic: &str) -> (r: Option<u8>)
    ensures
        r == spec_opcode_for_mnemonic(mnemonic@),
{
    let mut i: u16 = 0;
    while i < 256
        invariant
            i <= 256,
            spec_opcode_for_mnemonic(mnemonic@) == opcode_from(mnemonic@, i as int),
        decreases 256 - i,
    {
        let op = i as u8;
        let e = get_opcode_entry(op);
        if e.format != Format::F00x && !str_eq(e.mnemonic, "unused") && str_eq(e.mnemonic, mnemonic) {
            return Some(op);
        }
        i = i + 1;
    }
    None
}

/// Encode one instruction. `branch_rel_units` is the Dalvik relative offset in
/// 16-bit code units for branch formats (ignored otherwise).
pub fn encode_instruction<R: EncodeResolve>(
    mnemonic: &str,
    operands: &str,
    resolve: &R,
    branch_rel_units: Option<i32>,
) -> (r: Result<Vec<u8>, DexError>)
    ensures
        bv(r) == spec_encode_instruction(mnemonic@, operands@, resolve, branch_rel_units),
{
    let op = match opcode_for_mnemonic(mnemonic) {
        Some(op) => op,
        None => {
            let mut m = String::from_str("unknown mnemonic: ");
            m.append(mnemonic);
            return Err(DexError::invalid_owned(m));
        },
    };
    let entry = get_opcode_entry(op);
    let text = chars_of(operands);
    let ops = split_operands(text.as_slice());
    encode_into(op, entry.format, entry.ref_kind, ops.as_slice(), resolve, branch_rel_units)
}

/// The bytes of `nop`.
pub fn encode_nop() -> (r: [u8; 2])
    ensures
        r@ == seq![0x00u8, 0x00u8],
{
    [0x00, 0x00]
}

/// The bytes of `return-void`.
pub fn encode_return_void() -> (r: [u8; 2])
    ensures
        r@ == seq![0x0eu8, 0x00u8],
{
    [0x0e, 0x00]
}

/// The bytes of `goto` with a branch of `rel_units` 16-bit code units.
pub fn encode_goto(rel_units: i8) -> (r: [u8; 2])
    ensures
        r@ == seq![0x28u8, rel_units as u8],
{
    [0x28, rel_units as u8]
}

} // verus!
