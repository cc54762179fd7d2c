//! Decoding of Dalvik instructions into mnemonic and operand text.
use vstd::prelude::*;
use crate::error::DexError;
use crate::number::{dec_str, push_dec, push_signed_dec, signed_dec_str};
use crate::opcodes::{
    format_length, get_opcode_entry, spec_format, spec_format_length, spec_mnemonic,
    spec_ref_kind, Format, RefKind,
};
use crate::text::push_char;

verus! {

/// A decoder over a byte buffer, with the instruction pointer it was given.
pub struct Decoder<'a> {
    // The instruction pointer given at construction.
    ip: u64,
    // The bytes to decode, as given at construction.
    data: &'a [u8],
}

impl<'a> Decoder<'a> {
    /// The instruction pointer of this decoder.
    pub closed spec fn spec_ip(&self) -> u64 {
        self.ip
    }

    /// The bytes this decoder reads.
    pub closed spec fn spec_data(&self) -> Seq<u8> {
        self.data@
    }

    pub fn with_ip(data: &'a [u8], ip: u64, options: u32) -> (d: Decoder<'a>)
        ensures
            d.spec_ip() == ip,
            d.spec_data() == data@,
    {
        match Decoder::try_with_ip(data, ip, options) {
            Ok(d) => d,
            Err(e) => {
                assert(false);
                Decoder { ip, data }
            },
        }
    }

    pub fn try_with_ip(data: &'a [u8], ip: u64, options: u32) -> (r: Result<Decoder<'a>, DexError>)
        ensures
            r matches Ok(d) && d.spec_ip() == ip && d.spec_data() == data@,
    {
        Ok(Decoder { ip, data })
    }

    pub fn ip(&self) -> (r: u64)
        ensures
            r == self.spec_ip(),
    {
        self.ip
    }
}

/// One decoded instruction.
pub struct Instruction {
    /// Byte offset of the instruction in the decoded buffer.
    pub offset: usize,
    /// Size of the instruction in bytes.
    pub length: usize,
    /// The opcode byte.
    pub opcode: u8,
    /// The opcode's mnemonic, such as `move` or `invoke-virtual`.
    pub mnemonic: &'static str,
    /// The operand text, such as `v0, v1` or `v0, string@5`.
    pub operands: String,
}

impl Instruction {
    pub fn length(&self) -> (r: usize)
        ensures
            r == self.length,
    {
        self.length
    }

    pub fn opcode(&self) -> (r: u8)
        ensures
            r == self.opcode,
    {
        self.opcode
    }

    pub fn mnemonic(&self) -> (r: &'static str)
        ensures
            r@ == self.mnemonic@,
    {
        self.mnemonic
    }

    pub fn operands(&self) -> (r: &str)
        ensures
            r@ == self.operands@,
    {
        self.operands.as_str()
    }
}

/// The little-endian 16-bit value at `k`.
pub open spec fn rd16(b: Seq<u8>, k: int) -> u16 {
    (b[k] as u16) | ((b[k + 1] as u16) << 8u16)
}

/// The little-endian 32-bit value at `k`.
pub open spec fn rd32(b: Seq<u8>, k: int) -> u32 {
    (rd16(b, k) as u32) | ((rd16(b, k + 2) as u32) << 16u32)
}

/// The little-endian 64-bit value at `k`.
pub open spec fn rd64(b: Seq<u8>, k: int) -> u64 {
    (rd32(b, k) as u64) | ((rd32(b, k + 4) as u64) << 32u64)
}

/// The low four bits of a byte.
pub open spec fn lo4(x: u8) -> u8 {
    x & 0x0f
}

/// The high four bits of a byte.
pub open spec fn hi4(x: u8) -> u8 {
    x >> 4u8
}

/// A four-bit two's-complement value.
pub open spec fn nibble_signed(x: u8) -> int {
    if x >= 8 {
        x - 16
    } else {
        x as int
    }
}

/// The text of register `n`.
pub open spec fn reg_text(n: nat) -> Seq<char> {
    seq!['v'] + dec_str(n)
}

/// The text of a literal.
pub open spec fn lit_text(i: int) -> Seq<char> {
    signed_dec_str(i)
}

/// The text of a branch offset: always signed.
pub open spec fn branch_text(i: int) -> Seq<char> {
    if i < 0 {
        signed_dec_str(i)
    } else {
        seq!['+'] + dec_str(i as nat)
    }
}

/// The text of a reference of kind `kind` to index `idx`.
pub open spec fn ref_text(kind: RefKind, idx: nat) -> Seq<char> {
    match kind {
        RefKind::String => "string@"@ + dec_str(idx),
        RefKind::Type => "type@"@ + dec_str(idx),
        RefKind::Field => "field@"@ + dec_str(idx),
        RefKind::Method => "method@"@ + dec_str(idx),
        RefKind::MethodProto => "proto@"@ + dec_str(idx),
        RefKind::CallSite => "callsite@"@ + dec_str(idx),
        _ => dec_str(idx),
    }
}

/// The operand separator.
pub open spec fn sep() -> Seq<char> {
    seq![',', ' ']
}

/// Register texts separated by `, `.
pub open spec fn regs_text(regs: Seq<nat>) -> Seq<char>
    decreases regs.len(),
{
    if regs.len() == 0 {
        seq![]
    } else if regs.len() == 1 {
        reg_text(regs[0])
    } else {
        regs_text(regs.drop_last()) + sep() + reg_text(regs.last())
    }
}

/// The registers `C, D, E, F, G` of a 35c-style instruction, as many as its count.
pub open spec fn regs_35c(b: Seq<u8>) -> Seq<nat> {
    seq![
        lo4(b[4]) as nat,
        hi4(b[4]) as nat,
        lo4(b[5]) as nat,
        hi4(b[5]) as nat,
        lo4(b[1]) as nat,
    ].take(hi4(b[1]) as int)
}

/// The text of a register range starting at `start` with `count` registers.
pub open spec fn range_text(start: u16, count: nat) -> Seq<char> {
    reg_text(start as nat) + seq![' ', '.', '.', ' '] + reg_text(
        ((start + count - 1) % 0x10000) as nat,
    )
}

/// The operand text of an instruction whose bytes begin `b` (as long as its format),
/// or nothing when a register count is out of range.
pub open spec fn spec_operands_text(op: u8, fmt: Format, kind: RefKind, b: Seq<u8>) -> Option<Seq<char>> {
    match fmt {
        Format::F00x | Format::F10x => Some(seq![]),
        Format::F10t => Some(branch_text((b[1] as i8) as int)),
        Format::F11n => Some(reg_text(lo4(b[1]) as nat) + sep() + lit_text(nibble_signed(hi4(b[1])))),
        Format::F11x => Some(reg_text(b[1] as nat)),
        Format::F12x => Some(reg_text(lo4(b[1]) as nat) + sep() + reg_text(hi4(b[1]) as nat)),
        Format::F20t => Some(branch_text((rd16(b, 2) as i16) as int)),
        Format::F20bc => Some(dec_str(b[1] as nat) + sep() + ref_text(kind, rd16(b, 2) as nat)),
        Format::F21c => Some(reg_text(b[1] as nat) + sep() + ref_text(kind, rd16(b, 2) as nat)),
        Format::F21h => Some(
            reg_text(b[1] as nat) + sep() + lit_text(
                if op == 0x15 {
                    (rd16(b, 2) as i16) * 0x10000
                } else if op == 0x19 {
                    (rd16(b, 2) as i16) * 0x1_0000_0000_0000
                } else {
                    (rd16(b, 2) as i16) as int
                },
            ),
        ),
        Format::F21s => Some(reg_text(b[1] as nat) + sep() + lit_text((rd16(b, 2) as i16) as int)),
        Format::F21t => Some(reg_text(b[1] as nat) + sep() + branch_text((rd16(b, 2) as i16) as int)),
        Format::F22b => Some(
            reg_text(b[1] as nat) + sep() + reg_text(b[2] as nat) + sep() + lit_text(
                (b[3] as i8) as int,
            ),
        ),
        Format::F22x => Some(reg_text(b[1] as nat) + sep() + reg_text(rd16(b, 2) as nat)),
        Format::F22c | Format::F22cs => Some(
            reg_text(lo4(b[1]) as nat) + sep() + reg_text(hi4(b[1]) as nat) + sep() + ref_text(
                kind,
                rd16(b, 2) as nat,
            ),
        ),
        Format::F22s => Some(
            reg_text(lo4(b[1]) as nat) + sep() + reg_text(hi4(b[1]) as nat) + sep() + lit_text(
                (rd16(b, 2) as i16) as int,
            ),
        ),
        Format::F22t => Some(
            reg_text(lo4(b[1]) as nat) + sep() + reg_text(hi4(b[1]) as nat) + sep() + branch_text(
                (rd16(b, 2) as i16) as int,
            ),
        ),
        Format::F23x => Some(
            reg_text(b[1] as nat) + sep() + reg_text(b[2] as nat) + sep() + reg_text(b[3] as nat),
        ),
        Format::F30t => Some(branch_text((rd32(b, 2) as i32) as int)),
        Format::F31c => Some(reg_text(b[1] as nat) + sep() + ref_text(kind, rd32(b, 2) as nat)),
        Format::F31i => Some(reg_text(b[1] as nat) + sep() + lit_text((rd32(b, 2) as i32) as int)),
        Format::F31t => Some(reg_text(b[1] as nat) + sep() + branch_text((rd32(b, 2) as i32) as int)),
        Format::F32x => Some(reg_text(rd16(b, 2) as nat) + sep() + reg_text(rd16(b, 4) as nat)),
        Format::F35c | Format::F35mi | Format::F35ms => if hi4(b[1]) > 5 {
            None
        } else if hi4(b[1]) == 0 {
            Some(ref_text(kind, rd16(b, 2) as nat))
        } else {
            Some(regs_text(regs_35c(b)) + sep() + ref_text(kind, rd16(b, 2) as nat))
        },
        Format::F3rc | Format::F3rmi | Format::F3rms => Some(
            range_text(rd16(b, 4), b[1] as nat) + sep() + ref_text(kind, rd16(b, 2) as nat),
        ),
        Format::F45cc => if hi4(b[1]) > 5 {
            None
        } else {
            Some(
                seq!['{'] + regs_text(regs_35c(b)) + seq!['}'] + sep() + ref_text(
                    RefKind::Method,
                    rd16(b, 2) as nat,
                ) + sep() + ref_text(RefKind::MethodProto, rd16(b, 6) as nat),
            )
        },
        Format::F4rcc => Some(
            range_text(rd16(b, 4), b[1] as nat) + sep() + ref_text(
                RefKind::Method,
                rd16(b, 2) as nat,
            ) + sep() + ref_text(RefKind::MethodProto, rd16(b, 6) as nat),
        ),
        Format::F51l => Some(reg_text(b[1] as nat) + sep() + lit_text((rd64(b, 2) as i64) as int)),
        Format::F40sc => Some(dec_str(rd16(b, 6) as nat) + sep() + ref_text(kind, rd32(b, 2) as nat)),
        Format::F41c => Some(reg_text(rd16(b, 6) as nat) + sep() + ref_text(kind, rd32(b, 2) as nat)),
        Format::F52c => Some(
            reg_text(rd16(b, 6) as nat) + sep() + reg_text(rd16(b, 8) as nat) + sep() + ref_text(
                kind,
                rd32(b, 2) as nat,
            ),
        ),
        Format::F5rc => Some(
            range_text(rd16(b, 8), rd16(b, 6) as nat) + sep() + ref_text(kind, rd32(b, 2) as nat),
        ),
    }
}

/// Decoding at `offset`: the opcode, the instruction's length in bytes and its operand text,
/// or the message of the error.
pub open spec fn spec_decode(data: Seq<u8>, offset: int) -> Result<(u8, nat, Seq<char>), Seq<char>> {
    if offset < 0 || offset >= data.len() {
        Err("offset past end of data"@)
    } else {
        let op = data[offset];
        let fmt = spec_format(op);
        let len = spec_format_length(fmt);
        if fmt == Format::F00x {
            Err("unused opcode"@)
        } else if offset + len > data.len() {
            Err("truncated instruction"@)
        } else if op == 0 && data[offset + 1] != 0 {
            Err("payload pseudo-instruction"@)
        } else {
            match spec_operands_text(op, fmt, spec_ref_kind(op), data.subrange(offset, offset + len)) {
                Some(t) => Ok((op, len, t)),
                None => Err("invalid register count"@),
            }
        }
    }
}

fn exec_rd16(b: &[u8], k: usize) -> (r: u16)
    requires
        k + 2 <= b.len(),
    ensures
        r == rd16(b@, k as int),
{
    (b[k] as u16) | ((b[k + 1] as u16) << 8u16)
}

fn exec_rd32(b: &[u8], k: usize) -> (r: u32)
    requires
        k + 4 <= b.len(),
    ensures
        r == rd32(b@, k as int),
{
    (exec_rd16(b, k) as u32) | ((exec_rd16(b, k + 2) as u32) << 16u32)
}

fn exec_rd64(b: &[u8], k: usize) -> (r: u64)
    requires
        k + 8 <= b.len(),
    ensures
        r == rd64(b@, k as int),
{
    (exec_rd32(b, k) as u64) | ((exec_rd32(b, k + 4) as u64) << 32u64)
}

fn push_reg(out: &mut String, n: u64)
    ensures
        final(out)@ == old(out)@ + reg_text(n as nat),
{
    push_char(out, 'v');
    push_dec(out, n);
    assert(final(out)@ =~= old(out)@ + reg_text(n as nat));
}

fn push_lit(out: &mut String, i: i64)
    ensures
        final(out)@ == old(out)@ + lit_text(i as int),
{
    push_signed_dec(out, i);
}

fn push_branch(out: &mut String, i: i64)
    ensures
        final(out)@ == old(out)@ + branch_text(i as int),
{
    if i < 0 {
        push_signed_dec(out, i);
    } else {
        push_char(out, '+');
        push_dec(out, i as u64);
        assert(final(out)@ =~= old(out)@ + branch_text(i as int));
    }
}

fn push_sep(out: &mut String)
    ensures
        final(out)@ == old(out)@ + sep(),
{
    push_char(out, ',');
    push_char(out, ' ');
    assert(final(out)@ =~= old(out)@ + sep());
}

fn push_ref(out: &mut String, kind: RefKind, idx: u64)
    ensures
        final(out)@ == old(out)@ + ref_text(kind, idx as nat),
{
    match kind {
        RefKind::String => out.append("string@"),
        RefKind::Type => out.append("type@"),
        RefKind::Field => out.append("field@"),
        RefKind::Method => out.append("method@"),
        RefKind::MethodProto => out.append("proto@"),
        RefKind::CallSite => out.append("callsite@"),
        _ => {},
    }
    push_dec(out, idx);
    assert(final(out)@ =~= old(out)@ + ref_text(kind, idx as nat));
}

fn push_regs(out: &mut String, regs: &[u8])
    ensures
        final(out)@ == old(out)@ + regs_text(regs@.map_values(|x: u8| x as nat)),
{
    let ghost start = out@;
    let mut i: usize = 0;
    while i < regs.len()
        invariant
            i <= regs.len(),
            out@ == start + regs_text(regs@.map_values(|x: u8| x as nat).take(i as int)),
        decreases regs.len() - i,
    {
        let ghost rs = regs@.map_values(|x: u8| x as nat);
        assert(rs.take(i + 1).drop_last() =~= rs.take(i as int));
        if i > 0 {
            push_sep(out);
        }
        push_reg(out, regs[i] as u64);
        if i == 0 {
            assert(out@ =~= start + regs_text(rs.take(i + 1)));
        } else {
            assert(out@ =~= start + regs_text(rs.take(i + 1)));
        }
        i = i + 1;
    }
    assert(regs@.map_values(|x: u8| x as nat).take(i as int) =~= regs@.map_values(
        |x: u8| x as nat,
    ));
}

fn push_range(out: &mut String, start: u16, count: u64)
    requires
        count <= 0xffff,
    ensures
        final(out)@ == old(out)@ + range_text(start, count as nat),
{
    push_reg(out, start as u64);
    push_char(out, ' ');
    push_char(out, '.');
    push_char(out, '.');
    push_char(out, ' ');
    let end: u64 = ((start as u64) + count + 0xffff) % 0x10000;
    assert(end == ((start + count - 1) % 0x10000)) by (nonlinear_arith)
        requires
            end == ((start as u64) + count + 0xffff) % 0x10000,
            count <= 0xffff,
    ;
    push_reg(out, end);
    assert(final(out)@ =~= old(out)@ + range_text(start, count as nat));
}

/// The registers `C, D, E, F, G` of a 35c-style instruction, as many as its count.
fn exec_regs_35c(b: &[u8]) -> (r: Vec<u8>)
    requires
        b.len() >= 6,
        hi4(b@[1]) <= 5,
    ensures
        r@.map_values(|x: u8| x as nat) == regs_35c(b@),
{
    let count = (b[1] >> 4u8) as usize;
    let all: [u8; 5] = [b[4] & 0x0f, b[4] >> 4u8, b[5] & 0x0f, b[5] >> 4u8, b[1] & 0x0f];
    let mut r: Vec<u8> = Vec::new();
    let mut i: usize = 0;
    while i < count
        invariant
            count <= 5,
            i <= count,
            r@.len() == i,
            forall|k: int| 0 <= k < i ==> r@[k] == all@[k],
        decreases count - i,
    {
        r.push(all[i]);
        i = i + 1;
    }
    assert(r@.map_values(|x: u8| x as nat) =~= regs_35c(b@));
    r
}

/// The operand text of an instruction of format `fmt` whose bytes are `b`.
fn operands_text(op: u8, fmt: Format, kind: RefKind, b: &[u8]) -> (r: Option<String>)
    requires
        b.len() == spec_format_length(fmt),
    ensures
        match r {
            Some(t) => spec_operands_text(op, fmt, kind, b@) == Some(t@),
            None => spec_operands_text(op, fmt, kind, b@) is None,
        },
{
    let mut out = String::new();
    match fmt {
        Format::F00x | Format::F10x => {},
        Format::F10t => {
            push_branch(&mut out, (b[1] as i8) as i64);
        },
        Format::F11n => {
            push_reg(&mut out, (b[1] & 0x0f) as u64);
            push_sep(&mut out);
            let h = b[1] >> 4u8;
            let v: i64 = if h >= 8 {
                (h as i64) - 16
            } else {
                h as i64
            };
            push_lit(&mut out, v);
        },
        Format::F11x => {
            push_reg(&mut out, b[1] as u64);
        },
        Format::F12x => {
            push_reg(&mut out, (b[1] & 0x0f) as u64);
            push_sep(&mut out);
            push_reg(&mut out, (b[1] >> 4u8) as u64);
        },
        Format::F20t => {
            push_branch(&mut out, (exec_rd16(b, 2) as i16) as i64);
        },
        Format::F20bc => {
            push_dec(&mut out, b[1] as u64);
            push_sep(&mut out);
            push_ref(&mut out, kind, exec_rd16(b, 2) as u64);
        },
        Format::F21c => {
            push_reg(&mut out, b[1] as u64);
            push_sep(&mut out);
            push_ref(&mut out, kind, exec_rd16(b, 2) as u64);
        },
        Format::F21h => {
            push_reg(&mut out, b[1] as u64);
            push_sep(&mut out);
            let v = (exec_rd16(b, 2) as i16) as i64;
            let lit: i64 = if op == 0x15 {
                v * 0x10000
            } else if op == 0x19 {
                v * 0x1_0000_0000_0000
            } else {
                v
            };
            push_lit(&mut out, lit);
        },
        Format::F21s => {
            push_reg(&mut out, b[1] as u64);
            push_sep(&mut out);
            push_lit(&mut out, (exec_rd16(b, 2) as i16) as i64);
        },
        Format::F21t => {
            push_reg(&mut out, b[1] as u64);
            push_sep(&mut out);
            push_branch(&mut out, (exec_rd16(b, 2) as i16) as i64);
        },
        Format::F22b => {
            push_reg(&mut out, b[1] as u64);
            push_sep(&mut out);
            push_reg(&mut out, b[2] as u64);
            push_sep(&mut out);
            push_lit(&mut out, (b[3] as i8) as i64);
        },
        Format::F22x => {
            push_reg(&mut out, b[1] as u64);
            push_sep(&mut out);
            push_reg(&mut out, exec_rd16(b, 2) as u64);
        },
        Format::F22c | Format::F22cs => {
            push_reg(&mut out, (b[1] & 0x0f) as u64);
            push_sep(&mut out);
            push_reg(&mut out, (b[1] >> 4u8) as u64);
            push_sep(&mut out);
            push_ref(&mut out, kind, exec_rd16(b, 2) as u64);
        },
        Format::F22s => {
            push_reg(&mut out, (b[1] & 0x0f) as u64);
            push_sep(&mut out);
            push_reg(&mut out, (b[1] >> 4u8) as u64);
            push_sep(&mut out);
            push_lit(&mut out, (exec_rd16(b, 2) as i16) as i64);
        },
        Format::F22t => {
            push_reg(&mut out, (b[1] & 0x0f) as u64);
            push_sep(&mut out);
            push_reg(&mut out, (b[1] >> 4u8) as u64);
            push_sep(&mut out);
            push_branch(&mut out, (exec_rd16(b, 2) as i16) as i64);
        },
        Format::F23x => {
            push_reg(&mut out, b[1] as u64);
            push_sep(&mut out);
            push_reg(&mut out, b[2] as u64);
            push_sep(&mut out);
            push_reg(&mut out, b[3] as u64);
        },
        Format::F30t => {
            push_branch(&mut out, (exec_rd32(b, 2) as i32) as i64);
        },
        Format::F31c => {
            push_reg(&mut out, b[1] as u64);
            push_sep(&mut out);
            push_ref(&mut out, kind, exec_rd32(b, 2) as u64);
        },
        Format::F31i => {
            push_reg(&mut out, b[1] as u64);
            push_sep(&mut out);
            push_lit(&mut out, (exec_rd32(b, 2) as i32) as i64);
        },
        Format::F31t => {
            push_reg(&mut out, b[1] as u64);
            push_sep(&mut out);
            push_branch(&mut out, (exec_rd32(b, 2) as i32) as i64);
        },
        Format::F32x => {
            push_reg(&mut out, exec_rd16(b, 2) as u64);
            push_sep(&mut out);
            push_reg(&mut out, exec_rd16(b, 4) as u64);
        },
        Format::F35c | Format::F35mi | Format::F35ms => {
            if (b[1] >> 4u8) > 5 {
                return None;
            }
            if (b[1] >> 4u8) != 0 {
                let regs = exec_regs_35c(b);
                push_regs(&mut out, regs.as_slice());
                push_sep(&mut out);
            }
            push_ref(&mut out, kind, exec_rd16(b, 2) as u64);
        },
        Format::F3rc | Format::F3rmi | Format::F3rms => {
            push_range(&mut out, exec_rd16(b, 4), b[1] as u64);
            push_sep(&mut out);
            push_ref(&mut out, kind, exec_rd16(b, 2) as u64);
        },
        Format::F45cc => {
            if (b[1] >> 4u8) > 5 {
                return None;
            }
            let regs = exec_regs_35c(b);
            push_char(&mut out, '{');
            push_regs(&mut out, regs.as_slice());
            push_char(&mut out, '}');
            push_sep(&mut out);
            push_ref(&mut out, RefKind::Method, exec_rd16(b, 2) as u64);
            push_sep(&mut out);
            push_ref(&mut out, RefKind::MethodProto, exec_rd16(b, 6) as u64);
        },
        Format::F4rcc => {
            push_range(&mut out, exec_rd16(b, 4), b[1] as u64);
            push_sep(&mut out);
            push_ref(&mut out, RefKind::Method, exec_rd16(b, 2) as u64);
            push_sep(&mut out);
            push_ref(&mut out, RefKind::MethodProto, exec_rd16(b, 6) as u64);
        },
        Format::F51l => {
            push_reg(&mut out, b[1] as u64);
            push_sep(&mut out);
            push_lit(&mut out, exec_rd64(b, 2) as i64);
        },
        Format::F40sc => {
            push_dec(&mut out, exec_rd16(b, 6) as u64);
            push_sep(&mut out);
            push_ref(&mut out, kind, exec_rd32(b, 2) as u64);
        },
        Format::F41c => {
            push_reg(&mut out, exec_rd16(b, 6) as u64);
            push_sep(&mut out);
            push_ref(&mut out, kind, exec_rd32(b, 2) as u64);
        },
        Format::F52c => {
            push_reg(&mut out, exec_rd16(b, 6) as u64);
            push_sep(&mut out);
            push_reg(&mut out, exec_rd16(b, 8) as u64);
            push_sep(&mut out);
            push_ref(&mut out, kind, exec_rd32(b, 2) as u64);
        },
        Format::F5rc => {
            push_range(&mut out, exec_rd16(b, 8), exec_rd16(b, 6) as u64);
            push_sep(&mut out);
            push_ref(&mut out, kind, exec_rd32(b, 2) as u64);
        },
    }
    Some(out)
}

/// Decodes the instruction that starts at byte `offset` of `data`.
pub fn decode_one(data: &[u8], offset: usize) -> (r: Result<Instruction, DexError>)
    ensures
        match r {
            Ok(ins) => {
                &&& spec_decode(data@, offset as int) == Ok::<(u8, nat, Seq<char>), Seq<char>>(
                    (ins.opcode, ins.length as nat, ins.operands@),
                )
                &&& ins.offset == offset
                &&& ins.mnemonic@ == spec_mnemonic(ins.opcode)
            },
            Err(e) => spec_decode(data@, offset as int) == Err::<(u8, nat, Seq<char>), Seq<char>>(
                e@,
            ),
        },
{
    if offset >= data.len() {
        return Err(DexError::invalid("offset past end of data"));
    }
    let op = data[offset];
    let entry = get_opcode_entry(op);
    let len = format_length(entry.format) as usize;
    if entry.format == Format::F00x {
        return Err(DexError::invalid("unused opcode"));
    }
    if len > data.len() - offset {
        return Err(DexError::invalid("truncated instruction"));
    }
    if op == 0 && data[offset + 1] != 0 {
        return Err(DexError::invalid("payload pseudo-instruction"));
    }
    let b = &data[offset..offset + len];
    match operands_text(op, entry.format, entry.ref_kind, b) {
        Some(t) => Ok(
            Instruction { offset, length: len, opcode: op, mnemonic: entry.mnemonic, operands: t },
        ),
        None => Err(DexError::invalid("invalid register count")),
    }
}


/// What the caller sees of a decoded instruction: its offset, opcode, length and operand text.
pub open spec fn ins_view(ins: Instruction) -> (nat, u8, nat, Seq<char>) {
    (ins.offset as nat, ins.opcode, ins.length as nat, ins.operands@)
}

/// `acc` followed by the instructions of `r`, or the error of `r`.
pub open spec fn prepend(
    acc: Seq<(nat, u8, nat, Seq<char>)>,
    r: Result<Seq<(nat, u8, nat, Seq<char>)>, Seq<char>>,
) -> Result<Seq<(nat, u8, nat, Seq<char>)>, Seq<char>> {
    match r {
        Ok(rest) => Ok(acc + rest),
        Err(e) => Err(e),
    }
}

/// The instructions that follow one another from byte `offset` of `data` to its end, each as
/// (offset, opcode, length, operand text), or the error of the first one that does not decode.
pub open spec fn spec_decode_all(data: Seq<u8>, offset: int) -> Result<Seq<(nat, u8, nat, Seq<char>)>, Seq<char>>
    decreases data.len() - offset,
{
    if offset < 0 || offset >= data.len() {
        Ok(seq![])
    } else {
        let len = spec_format_length(spec_format(data[offset]));
        match spec_decode(data, offset) {
            Err(e) => Err(e),
            Ok((op, _, t)) => prepend(seq![(offset as nat, op, len, t)], spec_decode_all(data, offset + len)),
        }
    }
}

/// Decodes the instructions that follow one another from byte `offset` of `data` to its end.
pub fn decode_all(data: &[u8], offset: usize) -> (r: Result<Vec<Instruction>, DexError>)
    ensures
        match r {
            Ok(v) => {
                &&& spec_decode_all(data@, offset as int) == Ok::<Seq<(nat, u8, nat, Seq<char>)>, Seq<char>>(
                    v@.map_values(|ins: Instruction| ins_view(ins)),
                )
                &&& forall|k: int| 0 <= k < v.len() ==> (#[trigger] v@[k]).mnemonic@ == spec_mnemonic(v@[k].opcode)
            },
            Err(e) => spec_decode_all(data@, offset as int) == Err::<Seq<(nat, u8, nat, Seq<char>)>, Seq<char>>(e@),
        },
{
    let mut out: Vec<Instruction> = Vec::new();
    let mut pos: usize = offset;
    while pos < data.len()
        invariant
            spec_decode_all(data@, offset as int) == prepend(
                out@.map_values(|ins: Instruction| ins_view(ins)),
                spec_decode_all(data@, pos as int),
            ),
            forall|k: int| 0 <= k < out.len() ==> (#[trigger] out@[k]).mnemonic@ == spec_mnemonic(out@[k].opcode),
        decreases data.len() - pos,
    {
        let ghost before = out@.map_values(|ins: Instruction| ins_view(ins));
        match decode_one(data, pos) {
            Ok(ins) => {
                let len = ins.length;
                proof {
                    let x = ins_view(ins);
                    let tail = spec_decode_all(data@, pos + len);
                    assert(spec_decode_all(data@, pos as int) == prepend(seq![x], tail));
                    match tail {
                        Ok(rest) => {
                            assert(before + (seq![x] + rest) =~= (before + seq![x]) + rest);
                        },
                        Err(_) => {},
                    }
                }
                out.push(ins);
                proof {
                    assert(out@.map_values(|ins: Instruction| ins_view(ins)) =~= before + seq![ins_view(out@[out.len() - 1])]);
                }
                pos = pos + len;
            },
            Err(e) => {
                return Err(e);
            },
        }
    }
    assert(out@.map_values(|ins: Instruction| ins_view(ins)) + seq![] =~= out@.map_values(|ins: Instruction| ins_view(ins)));
    Ok(out)
}

/// Decoding a whole buffer tiles it: the first instruction starts at `offset`, each one starts
/// where the one before it ends, the last one ends at the end of the buffer, and each is what
/// decoding at its own offset gives.
pub proof fn law_decode_all_tiles(data: Seq<u8>, offset: int)
    requires
        0 <= offset < data.len(),
        spec_decode_all(data, offset) is Ok,
    ensures
        ({
            let v = spec_decode_all(data, offset)->Ok_0;
            &&& v.len() > 0
            &&& v[0].0 == offset
            &&& v.last().0 + v.last().2 == data.len()
            &&& forall|k: int| 0 <= k < v.len() - 1 ==> #[trigger] v[k + 1].0 == v[k].0 + v[k].2
            &&& forall|k: int|
                0 <= k < v.len() ==> spec_decode(data, #[trigger] v[k].0 as int) == Ok::<
                    (u8, nat, Seq<char>),
                    Seq<char>,
                >((v[k].1, v[k].2, v[k].3))
        }),
    decreases data.len() - offset,
{
    let len = spec_format_length(spec_format(data[offset]));
    let d = spec_decode(data, offset)->Ok_0;
    let x = (offset as nat, d.0, len, d.2);
    let v = spec_decode_all(data, offset)->Ok_0;
    if offset + len < data.len() {
        law_decode_all_tiles(data, offset + len);
        let rest = spec_decode_all(data, offset + len)->Ok_0;
        assert(v == seq![x] + rest);
        assert forall|k: int| 0 <= k < v.len() - 1 implies #[trigger] v[k + 1].0 == v[k].0 + v[k].2 by {
            assert(v[k + 1] == rest[k]);
            if k > 0 {
                assert(v[k] == rest[k - 1]);
                assert(rest[(k - 1) + 1].0 == rest[k - 1].0 + rest[k - 1].2);
            } else {
                assert(v[0] == x);
                assert(rest[0].0 == offset + len);
            }
        }
        assert forall|k: int| 0 <= k < v.len() implies spec_decode(data, #[trigger] v[k].0 as int) == Ok::<
            (u8, nat, Seq<char>),
            Seq<char>,
        >((v[k].1, v[k].2, v[k].3)) by {
            if k > 0 {
                assert(v[k] == rest[k - 1]);
            }
        }
    } else {
        assert(spec_decode_all(data, offset + len) == Ok::<Seq<(nat, u8, nat, Seq<char>)>, Seq<char>>(seq![]));
        assert(v =~= seq![x]);
    }
}

} // verus!
