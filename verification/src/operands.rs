//! Parsing of instruction operand text: registers, literals, branch offsets,
//! indexed references, register lists and ranges.
use vstd::prelude::*;
use crate::error::{rv, DexError};
use crate::number::{parse_i64_radix, parse_u16, parse_u32, spec_parse_i64_radix, spec_parse_u16, spec_parse_u32};
use crate::text::{
    chars_of, concat_lit, join, join_slices, push_chars, rsplit_once_char, rsplit_once_char_slice,
    split_char, split_char_slice, split_once_seq, split_once_slice, split_ws, split_ws_slice,
    starts_with, starts_with_slice, trim, trim_end_char, trim_end_char_slice, trim_slice,
    trim_start_char, trim_start_char_slice, views,
};

verus! {

/// `v` negated as a two's-complement `i64` (so the most negative value stays itself).
pub open spec fn neg_wrap(v: i64) -> i64 {
    if v == i64::MIN {
        v
    } else {
        (-v) as i64
    }
}

/// A register token `vN` or `pN` (surrounding whitespace and trailing commas ignored).
pub open spec fn spec_parse_reg(tok0: Seq<char>) -> Result<u16, Seq<char>> {
    let tok = trim_end_char(trim(tok0), ',');
    if tok.len() > 0 && (tok[0] == 'v' || tok[0] == 'p') {
        match spec_parse_u16(tok.drop_first()) {
            Some(v) => Ok(v),
            None => Err("bad register: "@ + tok),
        }
    } else {
        Err("expected register: "@ + tok)
    }
}

/// An integer literal: `0x..` hexadecimal (trailing `h`s ignored), `..h`
/// hexadecimal with an optional sign, or decimal.
pub open spec fn spec_parse_i64(tok0: Seq<char>) -> Result<i64, Seq<char>> {
    let tok = trim_end_char(trim(tok0), ',');
    let err = "bad literal: "@ + tok;
    if tok.len() >= 2 && tok[0] == '0' && (tok[1] == 'x' || tok[1] == 'X') {
        match spec_parse_i64_radix(trim_end_char(tok.subrange(2, tok.len() as int), 'h'), 16) {
            Some(v) => Ok(v),
            None => Err(err),
        }
    } else if tok.len() > 0 && tok.last() == 'h' {
        let body = trim_end_char(tok, 'h');
        let neg = body.len() > 0 && body[0] != '+' && body[0] == '-';
        let digits = if body.len() > 0 && (body[0] == '+' || body[0] == '-') {
            body.drop_first()
        } else {
            body
        };
        match spec_parse_i64_radix(digits, 16) {
            Some(v) => Ok(
                if neg {
                    neg_wrap(v)
                } else {
                    v
                },
            ),
            None => Err(err),
        }
    } else {
        match spec_parse_i64_radix(tok, 10) {
            Some(v) => Ok(v),
            None => Err(err),
        }
    }
}

/// A literal truncated to 32 bits.
pub open spec fn spec_parse_u32_literal(tok: Seq<char>) -> Result<u32, Seq<char>> {
    match spec_parse_i64(tok) {
        Ok(v) => Ok(v as u32),
        Err(e) => Err(e),
    }
}

/// A branch offset token; a label (`:...`) or an unreadable token gives nothing.
pub open spec fn spec_parse_branch_token(tok0: Seq<char>) -> Option<i32> {
    let tok = trim(tok0);
    if tok.len() > 0 && tok[0] == ':' {
        None
    } else {
        match spec_parse_i64(tok) {
            Ok(v) => Some(v as i32),
            Err(_) => None,
        }
    }
}

/// A reference `prefix@N`.
pub open spec fn spec_parse_indexed_ref(tok: Seq<char>, prefix: Seq<char>) -> Result<u32, Seq<char>> {
    let p = prefix.push('@');
    if starts_with(tok, p) {
        match spec_parse_u32(tok.subrange(p.len() as int, tok.len() as int)) {
            Some(v) => Ok(v),
            None => Err("bad "@ + prefix + " ref: "@ + tok),
        }
    } else {
        Err("expected "@ + prefix + "@N, got "@ + tok)
    }
}

/// The state machine that splits operand text at top-level commas, keeping
/// braced groups and double-quoted strings (with `\` escapes) together; empty
/// pieces are dropped and the others trimmed.
pub open spec fn split_ops_from(
    s: Seq<char>,
    i: int,
    start: int,
    depth: i32,
    in_str: bool,
    escape: bool,
    acc: Seq<Seq<char>>,
) -> Seq<Seq<char>>
    decreases s.len() - i,
{
    if i < 0 || i >= s.len() {
        let tok = trim(s.subrange(start, s.len() as int));
        if tok.len() > 0 {
            acc.push(tok)
        } else {
            acc
        }
    } else {
        let b = s[i];
        if in_str {
            if escape {
                split_ops_from(s, i + 1, start, depth, true, false, acc)
            } else if b == '\\' {
                split_ops_from(s, i + 1, start, depth, true, true, acc)
            } else if b == '"' {
                split_ops_from(s, i + 1, start, depth, false, false, acc)
            } else {
                split_ops_from(s, i + 1, start, depth, true, false, acc)
            }
        } else if b == '"' {
            split_ops_from(s, i + 1, start, depth, true, escape, acc)
        } else if b == '{' {
            split_ops_from(s, i + 1, start, depth_inc(depth), false, escape, acc)
        } else if b == '}' {
            split_ops_from(s, i + 1, start, depth_dec(depth), false, escape, acc)
        } else if b == ',' && depth == 0 {
            let tok = trim(s.subrange(start, i));
            let acc2 = if tok.len() > 0 {
                acc.push(tok)
            } else {
                acc
            };
            split_ops_from(s, i + 1, i + 1, depth, false, escape, acc2)
        } else {
            split_ops_from(s, i + 1, start, depth, false, escape, acc)
        }
    }
}

/// Brace depth after an opening brace (wrapping at the `i32` limit).
pub open spec fn depth_inc(d: i32) -> i32 {
    if d == i32::MAX {
        i32::MIN
    } else {
        (d + 1) as i32
    }
}

/// Brace depth after a closing brace (wrapping at the `i32` limit).
pub open spec fn depth_dec(d: i32) -> i32 {
    if d == i32::MIN {
        i32::MAX
    } else {
        (d - 1) as i32
    }
}

/// The operand tokens of operand text.
pub open spec fn spec_split_operands(s: Seq<char>) -> Seq<Seq<char>> {
    split_ops_from(s, 0, 0, 0, false, false, seq![])
}

/// Registers read from each token in order; the first failure is the result.
pub open spec fn spec_parse_regs(toks: Seq<Seq<char>>) -> Result<Seq<u16>, Seq<char>>
    decreases toks.len(),
{
    if toks.len() == 0 {
        Ok(seq![])
    } else {
        match spec_parse_regs(toks.drop_last()) {
            Err(e) => Err(e),
            Ok(v) => match spec_parse_reg(toks.last()) {
                Ok(r) => Ok(v.push(r)),
                Err(e) => Err(e),
            },
        }
    }
}

/// A register list `{vA, vB, ...}` (braces optional).
pub open spec fn spec_parse_reg_list(s0: Seq<char>) -> Result<Seq<u16>, Seq<char>> {
    let s = trim_end_char(trim_start_char(trim(s0), '{'), '}');
    if s.len() == 0 {
        Ok(seq![])
    } else {
        spec_parse_regs(split_char(s, ',').map_values(|t: Seq<char>| trim(t)))
    }
}

/// The register count `end - start + 1` in 16-bit wrapping arithmetic, kept to
/// its low eight bits.
pub open spec fn span_count(start: u16, end: u16) -> u8 {
    ((end + 0x10000 - start + 1) % 0x100) as u8
}

/// A register span: `vA ... vB` (with `B >= A`), `vA .. vB`, or a single register.
pub open spec fn spec_reg_span(regs: Seq<char>) -> Result<(u16, u8), Seq<char>> {
    match split_once_seq(regs, seq!['.', '.', '.']) {
        Some((a, b)) => match spec_parse_reg(trim(a)) {
            Err(e) => Err(e),
            Ok(start) => match spec_parse_reg(trim(b)) {
                Err(e) => Err(e),
                Ok(end) => if end < start {
                    Err("bad register range"@)
                } else {
                    Ok((start, span_count(start, end)))
                },
            },
        },
        None => match split_once_seq(regs, seq!['.', '.']) {
            Some((a, b)) => match spec_parse_reg(trim(a)) {
                Err(e) => Err(e),
                Ok(start) => match spec_parse_reg(trim(b)) {
                    Err(e) => Err(e),
                    Ok(end) => Ok((start, span_count(start, end))),
                },
            },
            None => match spec_parse_reg(regs) {
                Ok(r) => Ok((r, 1u8)),
                Err(e) => Err(e),
            },
        },
    }
}

/// A register range (surrounding whitespace ignored): first register and count.
pub open spec fn spec_parse_reg_range(regs: Seq<char>) -> Result<(u16, u8), Seq<char>> {
    spec_reg_span(trim(regs))
}

/// A range invocation `regs, ref`: first register, count and reference token.
pub open spec fn spec_parse_range_invoke(s0: Seq<char>) -> Result<(u16, u8, Seq<char>), Seq<char>> {
    let s = trim(s0);
    match rsplit_once_char(s, ',') {
        Some((regs, rest)) => match spec_reg_span(trim(regs)) {
            Ok((start, count)) => Ok((start, count, trim(rest))),
            Err(e) => Err(e),
        },
        None => Err("bad range invoke: "@ + s),
    }
}

/// The `regs, method, proto` reading of a range polymorphic invocation, if it has two commas.
pub open spec fn spec_4rcc_commas(s: Seq<char>) -> Option<
    Result<(u16, u8, Seq<char>, Seq<char>), Seq<char>>,
> {
    match rsplit_once_char(s, ',') {
        Some((left, proto)) => match rsplit_once_char(left, ',') {
            Some((regs, method)) => Some(
                match spec_parse_reg_range(trim(regs)) {
                    Ok((start, count)) => Ok((start, count, trim(method), trim(proto))),
                    Err(e) => Err(e),
                },
            ),
            None => None,
        },
        None => None,
    }
}

/// A range polymorphic invocation: first register, count, method token and proto token.
pub open spec fn spec_parse_4rcc(s0: Seq<char>) -> Result<(u16, u8, Seq<char>, Seq<char>), Seq<char>> {
    let s = trim(s0);
    match spec_4rcc_commas(s) {
        Some(r) => r,
        None => {
            let parts = split_ws(s);
            let n = parts.len() as int;
            if n >= 3 {
                match spec_parse_reg_range(join(parts.subrange(0, n - 2), seq![' '])) {
                    Ok((start, count)) => Ok((start, count, parts[n - 2], parts[n - 1])),
                    Err(e) => Err(e),
                }
            } else {
                Err("bad F4rcc: "@ + s)
            }
        },
    }
}

/// A `DexError` whose message is `lit` followed by `cs`.
pub fn err_with(lit: &str, cs: &[char]) -> (e: DexError)
    ensures
        e@ == lit@ + cs@,
{
    DexError::invalid_owned(concat_lit(lit, cs))
}

/// Reads a register token.
pub fn parse_reg(tok0: &[char]) -> (r: Result<u16, DexError>)
    ensures
        rv(r) == spec_parse_reg(tok0@),
{
    let tok = trim_end_char_slice(trim_slice(tok0), ',');
    if tok.len() > 0 && (tok[0] == 'v' || tok[0] == 'p') {
        let rest = &tok[1..tok.len()];
        assert(rest@ =~= tok@.drop_first());
        match parse_u16(rest) {
            Some(v) => Ok(v),
            None => Err(err_with("bad register: ", tok)),
        }
    } else {
        Err(err_with("expected register: ", tok))
    }
}

/// Reads an integer literal.
pub fn parse_i64(tok0: &[char]) -> (r: Result<i64, DexError>)
    ensures
        rv(r) == spec_parse_i64(tok0@),
{
    let tok = trim_end_char_slice(trim_slice(tok0), ',');
    if tok.len() >= 2 && tok[0] == '0' && (tok[1] == 'x' || tok[1] == 'X') {
        let hex = trim_end_char_slice(&tok[2..tok.len()], 'h');
        match parse_i64_radix(hex, 16) {
            Some(v) => Ok(v),
            None => Err(err_with("bad literal: ", tok)),
        }
    } else if tok.len() > 0 && tok[tok.len() - 1] == 'h' {
        let body = trim_end_char_slice(tok, 'h');
        let neg = body.len() > 0 && body[0] != '+' && body[0] == '-';
        let digits = if body.len() > 0 && (body[0] == '+' || body[0] == '-') {
            &body[1..body.len()]
        } else {
            body
        };
        assert(digits@ =~= (if body@.len() > 0 && (body@[0] == '+' || body@[0] == '-') {
            body@.drop_first()
        } else {
            body@
        }));
        match parse_i64_radix(digits, 16) {
            Some(v) => Ok(
                if neg {
                    if v == i64::MIN {
                        v
                    } else {
                        -v
                    }
                } else {
                    v
                },
            ),
            None => Err(err_with("bad literal: ", tok)),
        }
    } else {
        match parse_i64_radix(tok, 10) {
            Some(v) => Ok(v),
            None => Err(err_with("bad literal: ", tok)),
        }
    }
}

/// Reads a literal truncated to 32 bits.
pub fn parse_u32_literal(tok: &[char]) -> (r: Result<u32, DexError>)
    ensures
        rv(r) == spec_parse_u32_literal(tok@),
{
    match parse_i64(tok) {
        Ok(v) => Ok(v as u32),
        Err(e) => Err(e),
    }
}

/// Reads a branch offset token.
pub fn parse_branch_token(tok0: &[char]) -> (r: Option<i32>)
    ensures
        r == spec_parse_branch_token(tok0@),
{
    let tok = trim_slice(tok0);
    if tok.len() > 0 && tok[0] == ':' {
        return None;
    }
    match parse_i64(tok) {
        Ok(v) => Some(v as i32),
        Err(_) => None,
    }
}

/// Reads a reference `prefix@N`.
pub fn parse_indexed_ref(tok: &[char], prefix: &str) -> (r: Result<u32, DexError>)
    ensures
        rv(r) == spec_parse_indexed_ref(tok@, prefix@),
{
    let mut p = chars_of(prefix);
    p.push('@');
    let pv = p.as_slice();
    if starts_with_slice(tok, pv) {
        let rest = &tok[pv.len()..tok.len()];
        match parse_u32(rest) {
            Some(v) => Ok(v),
            None => {
                let mut m = String::from_str("bad ");
                m.append(prefix);
                m.append(" ref: ");
                push_chars(&mut m, tok);
                Err(DexError::invalid_owned(m))
            },
        }
    } else {
        let mut m = String::from_str("expected ");
        m.append(prefix);
        m.append("@N, got ");
        push_chars(&mut m, tok);
        Err(DexError::invalid_owned(m))
    }
}

/// Splits operand text into tokens at top-level commas.
pub fn split_operands<'a>(s: &'a [char]) -> (r: Vec<&'a [char]>)
    ensures
        views(r@) == spec_split_operands(s@),
{
    let mut out: Vec<&'a [char]> = Vec::new();
    let mut start: usize = 0;
    let mut depth: i32 = 0;
    let mut in_str = false;
    let mut escape = false;
    let mut i: usize = 0;
    assert(views(out@) =~= Seq::<Seq<char>>::empty());
    while i < s.len()
        invariant
            start <= i <= s.len(),
            spec_split_operands(s@) == split_ops_from(
                s@,
                i as int,
                start as int,
                depth,
                in_str,
                escape,
                views(out@),
            ),
        decreases s.len() - i,
    {
        let b = s[i];
        if in_str {
            if escape {
                escape = false;
            } else if b == '\\' {
                escape = true;
            } else if b == '"' {
                in_str = false;
            }
        } else if b == '"' {
            in_str = true;
        } else if b == '{' {
            depth = if depth == i32::MAX {
                i32::MIN
            } else {
                depth + 1
            };
        } else if b == '}' {
            depth = if depth == i32::MIN {
                i32::MAX
            } else {
                depth - 1
            };
        } else if b == ',' && depth == 0 {
            let tok = trim_slice(&s[start..i]);
            if tok.len() > 0 {
                let ghost old_out = out@;
                out.push(tok);
                assert(views(out@) =~= views(old_out).push(tok@));
            }
            start = i + 1;
        }
        i = i + 1;
    }
    let tok = trim_slice(&s[start..s.len()]);
    if tok.len() > 0 {
        let ghost old_out = out@;
        out.push(tok);
        assert(views(out@) =~= views(old_out).push(tok@));
    }
    out
}

/// Reads a register from each token in order.
pub fn parse_regs(toks: &[&[char]]) -> (r: Result<Vec<u16>, DexError>)
    ensures
        match r {
            Ok(v) => spec_parse_regs(views(toks@)) == Ok::<Seq<u16>, Seq<char>>(v@),
            Err(e) => spec_parse_regs(views(toks@)) == Err::<Seq<u16>, Seq<char>>(e@),
        },
{
    let mut out: Vec<u16> = Vec::new();
    let mut i: usize = 0;
    while i < toks.len()
        invariant
            i <= toks.len(),
            spec_parse_regs(views(toks@).take(i as int)) == Ok::<Seq<u16>, Seq<char>>(out@),
        decreases toks.len() - i,
    {
        let ghost vs = views(toks@);
        assert(vs.take(i + 1).drop_last() =~= vs.take(i as int));
        match parse_reg(toks[i]) {
            Ok(r) => {
                out.push(r);
            },
            Err(e) => {
                proof {
                    lemma_parse_regs_prefix_err(vs, i + 1);
                }
                return Err(e);
            },
        }
        i = i + 1;
    }
    assert(views(toks@).take(i as int) =~= views(toks@));
    Ok(out)
}

pub proof fn lemma_parse_regs_prefix_err(toks: Seq<Seq<char>>, k: int)
    requires
        0 <= k <= toks.len(),
        spec_parse_regs(toks.take(k)) is Err,
    ensures
        spec_parse_regs(toks) == spec_parse_regs(toks.take(k)),
    decreases toks.len(),
{
    if k == toks.len() {
        assert(toks.take(k) =~= toks);
    } else {
        assert(toks.drop_last().take(k) =~= toks.take(k));
        lemma_parse_regs_prefix_err(toks.drop_last(), k);
    }
}

/// Reads a register list `{vA, vB, ...}`.
pub fn parse_reg_list(s0: &[char]) -> (r: Result<Vec<u16>, DexError>)
    ensures
        match r {
            Ok(v) => spec_parse_reg_list(s0@) == Ok::<Seq<u16>, Seq<char>>(v@),
            Err(e) => spec_parse_reg_list(s0@) == Err::<Seq<u16>, Seq<char>>(e@),
        },
{
    let s = trim_end_char_slice(trim_start_char_slice(trim_slice(s0), '{'), '}');
    if s.len() == 0 {
        let v: Vec<u16> = Vec::new();
        assert(v@ =~= Seq::<u16>::empty());
        return Ok(v);
    }
    let pieces = split_char_slice(s, ',');
    let mut trimmed: Vec<&[char]> = Vec::new();
    let mut i: usize = 0;
    while i < pieces.len()
        invariant
            i <= pieces.len(),
            views(trimmed@) == views(pieces@).take(i as int).map_values(|t: Seq<char>| trim(t)),
        decreases pieces.len() - i,
    {
        let t = trim_slice(pieces[i]);
        let ghost old = trimmed@;
        trimmed.push(t);
        let ghost vp = views(pieces@);
        assert(vp[i as int] == pieces@[i as int]@);
        assert(vp.take(i + 1).map_values(|t: Seq<char>| trim(t)) =~= vp.take(i as int).map_values(
            |t: Seq<char>| trim(t),
        ).push(trim(vp[i as int])));
        assert(views(trimmed@) =~= views(old).push(t@));
        i = i + 1;
    }
    assert(views(pieces@).take(i as int) =~= views(pieces@));
    parse_regs(trimmed.as_slice())
}

/// Reads a register span (no trimming of the whole text).
fn reg_span(regs: &[char]) -> (r: Result<(u16, u8), DexError>)
    ensures
        rv(r) == spec_reg_span(regs@),
{
    let dots3 = vec!['.', '.', '.'];
    let dots2 = vec!['.', '.'];
    assert(dots3@ =~= seq!['.', '.', '.']);
    assert(dots2@ =~= seq!['.', '.']);
    match split_once_slice(regs, dots3.as_slice()) {
        Some((a, b)) => {
            let start = match parse_reg(trim_slice(a)) {
                Ok(v) => v,
                Err(e) => return Err(e),
            };
            let end = match parse_reg(trim_slice(b)) {
                Ok(v) => v,
                Err(e) => return Err(e),
            };
            if end < start {
                return Err(DexError::invalid("bad register range"));
            }
            Ok((start, (((end as u32) + 0x10000 - (start as u32) + 1) % 0x100) as u8))
        },
        None => match split_once_slice(regs, dots2.as_slice()) {
            Some((a, b)) => {
                let start = match parse_reg(trim_slice(a)) {
                    Ok(v) => v,
                    Err(e) => return Err(e),
                };
                let end = match parse_reg(trim_slice(b)) {
                    Ok(v) => v,
                    Err(e) => return Err(e),
                };
                Ok((start, (((end as u32) + 0x10000 - (start as u32) + 1) % 0x100) as u8))
            },
            None => match parse_reg(regs) {
                Ok(r) => Ok((r, 1u8)),
                Err(e) => Err(e),
            },
        },
    }
}

/// Reads a register range: first register and count.
pub fn parse_reg_range(regs: &[char]) -> (r: Result<(u16, u8), DexError>)
    ensures
        rv(r) == spec_parse_reg_range(regs@),
{
    reg_span(trim_slice(regs))
}

/// Reads a range invocation `regs, ref`.
pub fn parse_range_invoke<'a>(s0: &'a [char]) -> (r: Result<(u16, u8, &'a [char]), DexError>)
    ensures
        match r {
            Ok((st, c, t)) => spec_parse_range_invoke(s0@) == Ok::<
                (u16, u8, Seq<char>),
                Seq<char>,
            >((st, c, t@)),
            Err(e) => spec_parse_range_invoke(s0@) == Err::<(u16, u8, Seq<char>), Seq<char>>(e@),
        },
{
    let s = trim_slice(s0);
    match rsplit_once_char_slice(s, ',') {
        Some((regs, rest)) => match reg_span(trim_slice(regs)) {
            Ok((start, count)) => Ok((start, count, trim_slice(rest))),
            Err(e) => Err(e),
        },
        None => Err(err_with("bad range invoke: ", s)),
    }
}

/// Reads a range polymorphic invocation: first register, count, method and proto tokens.
pub fn parse_4rcc(s0: &[char]) -> (r: Result<(u16, u8, Vec<char>, Vec<char>), DexError>)
    ensures
        match r {
            Ok((st, c, m, p)) => spec_parse_4rcc(s0@) == Ok::<
                (u16, u8, Seq<char>, Seq<char>),
                Seq<char>,
            >((st, c, m@, p@)),
            Err(e) => spec_parse_4rcc(s0@) == Err::<(u16, u8, Seq<char>, Seq<char>), Seq<char>>(
                e@,
            ),
        },
{
    let s = trim_slice(s0);
    if let Some((left, proto)) = rsplit_once_char_slice(s, ',') {
        if let Some((regs, method)) = rsplit_once_char_slice(left, ',') {
            return match parse_reg_range(trim_slice(regs)) {
                Ok((start, count)) => {
                    let m = vstd::slice::slice_to_vec(trim_slice(method));
                    let p = vstd::slice::slice_to_vec(trim_slice(proto));
                    Ok((start, count, m, p))
                },
                Err(e) => Err(e),
            };
        }
    }
    let parts = split_ws_slice(s);
    let n = parts.len();
    if n >= 3 {
        let head = &parts.as_slice()[0..n - 2];
        let joined = join_slices(head, ' ');
        assert(views(head@) =~= views(parts@).subrange(0, n - 2));
        match parse_reg_range(joined.as_slice()) {
            Ok((start, count)) => {
                let m = vstd::slice::slice_to_vec(parts[n - 2]);
                let p = vstd::slice::slice_to_vec(parts[n - 1]);
                Ok((start, count, m, p))
            },
            Err(e) => Err(e),
        }
    } else {
        Err(err_with("bad F4rcc: ", s))
    }
}

} // verus!
