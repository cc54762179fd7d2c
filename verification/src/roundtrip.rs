//! Decoding an encoded instruction gives text that encodes back to the same bytes.
use vstd::prelude::*;
use crate::number::{digit_char, digit_value, digits_value, dec_str, from_str_radix, signed_dec_str, spec_parse_u16, spec_parse_u32, spec_parse_i64_radix, bounded};
use crate::text::{rsplit_once_char, find_char_from, find_char, rfind_char, rfind_char_before, split_char, split_ws, ws_end_from, find_seq_from, split_once_seq, is_ws, join, trim, trim_start, trim_end, trim_end_char, trim_start_char, starts_with};
use crate::operands::{spec_parse_4rcc, spec_4rcc_commas, spec_parse_reg_list, spec_parse_regs, span_count, spec_reg_span, spec_parse_reg_range, split_ops_from, spec_split_operands, depth_inc, depth_dec, spec_parse_reg, spec_parse_i64, spec_parse_branch_token, spec_parse_u32_literal, spec_parse_indexed_ref};
use crate::decoder::{reg_text, lit_text, branch_text, ref_text, sep, spec_operands_text, lo4, hi4, rd16, rd32, rd64, nibble_signed, regs_text, regs_35c, range_text, spec_decode};
use crate::encode::{
    branch_or, encodable, high16_stored, le16, le32, le64, opcode_from, pack_35c, reg_or0,
    spec_35c_regs, spec_3rc_span, spec_45cc_regs, spec_braced, spec_enc_10t, spec_enc_11n,
    spec_enc_11x, spec_enc_12x, spec_enc_20t, spec_enc_21h, spec_enc_21s, spec_enc_21t,
    spec_enc_22b, spec_enc_22c, spec_enc_22s, spec_enc_22t, spec_enc_22x, spec_enc_23x,
    spec_enc_30t, spec_enc_31i, spec_enc_31t, spec_enc_32x, spec_enc_35c, spec_enc_3rc,
    spec_enc_40sc, spec_enc_41c, spec_enc_45cc, spec_enc_4rcc, spec_enc_51l, spec_enc_52c,
    spec_enc_5rc, spec_enc_ref_aa, spec_encode_instruction, spec_encode_into, spec_index_resolve,
    spec_opcode_for_mnemonic, spec_resolve_ref, tok_at, tok_or, EncodeResolve, IndexResolve,
};
use crate::opcodes::{RefKind, Format, spec_format, spec_format_length, spec_mnemonic, spec_ref_kind};

verus! {

/// Whether `c` is a decimal digit.
pub(crate) open spec fn is_digit(c: char) -> bool {
    0x30 <= c as u32 <= 0x39
}

proof fn lemma_digit_char(d: nat)
    requires
        d < 10,
    ensures
        digit_char(d) as u32 == d + 0x30,
        is_digit(digit_char(d)),
        digit_value(digit_char(d), 10) == Some(d),
        digit_char(d) == '0' <==> d == 0,
{
}

pub(crate) proof fn lemma_dec_str(n: nat)
    ensures
        dec_str(n).len() >= 1,
        forall|i: int| 0 <= i < dec_str(n).len() ==> is_digit(#[trigger] dec_str(n)[i]),
        digits_value(dec_str(n), 10) == Some(n),
        dec_str(n)[0] == '0' ==> n == 0 && dec_str(n).len() == 1,
    decreases n,
{
    if n < 10 {
        lemma_digit_char(n);
        assert(dec_str(n).drop_last() =~= Seq::<char>::empty());
        assert(digits_value(dec_str(n).drop_last(), 10) == Some(0nat));
        assert(dec_str(n).last() == digit_char(n));
    } else {
        lemma_dec_str(n / 10);
        lemma_digit_char(n % 10);
        assert(dec_str(n).drop_last() =~= dec_str(n / 10));
        assert(dec_str(n).last() == digit_char(n % 10));
        assert(n / 10 * 10 + n % 10 == n);
        assert(digits_value(dec_str(n), 10) == Some(((n / 10) * 10 + n % 10) as nat));
    }
}

/// Text that begins and ends with a non-whitespace character.
pub(crate) open spec fn plain(t: Seq<char>) -> bool {
    t.len() > 0 && !is_ws(t[0]) && !is_ws(t.last())
}

proof fn lemma_trim_plain(t: Seq<char>)
    requires
        plain(t),
    ensures
        trim(t) == t,
        trim(seq![' '] + t) == t,
{
    assert((seq![' '] + t).drop_first() =~= t);
    assert(trim_start(seq![' '] + t) == trim_start(t));
}

proof fn lemma_trim_end_char_keep(t: Seq<char>, c: char)
    requires
        t.len() > 0 ==> t.last() != c,
    ensures
        trim_end_char(t, c) == t,
{
}

proof fn lemma_dec_plain(n: nat)
    ensures
        plain(dec_str(n)),
        dec_str(n).last() != ',',
        dec_str(n).last() != 'h',
        is_digit(dec_str(n)[0]),
        is_digit(dec_str(n).last()),
{
    lemma_dec_str(n);
    let d = dec_str(n);
    assert(is_digit(d[d.len() - 1]));
    assert(is_digit(d[0]));
}

pub(crate) proof fn lemma_from_str_dec(n: nat, signed: bool)
    ensures
        from_str_radix(dec_str(n), 10, signed) == Some(n as int),
        from_str_radix(seq!['+'] + dec_str(n), 10, signed) == Some(n as int),
        n > 0 ==> from_str_radix(seq!['-'] + dec_str(n), 10, true) == Some(-(n as int)),
{
    lemma_dec_str(n);
    let d = dec_str(n);
    assert(is_digit(d[0]));
    assert((seq!['+'] + d).drop_first() =~= d);
    assert((seq!['-'] + d).drop_first() =~= d);
}

proof fn lemma_parse_reg_text(n: nat)
    requires
        n <= 0xffff,
    ensures
        spec_parse_reg(reg_text(n)) == Ok::<u16, Seq<char>>(n as u16),
        plain(reg_text(n)),
        reg_text(n)[0] == 'v',
{
    lemma_dec_plain(n);
    lemma_from_str_dec(n, false);
    let t = reg_text(n);
    assert(t.last() == dec_str(n).last());
    lemma_trim_plain(t);
    lemma_trim_end_char_keep(t, ',');
    assert(t.drop_first() =~= dec_str(n));
}

pub(crate) proof fn lemma_parse_lit_text(i: int)
    requires
        i64::MIN <= i <= i64::MAX,
    ensures
        spec_parse_i64(lit_text(i)) == Ok::<i64, Seq<char>>(i as i64),
        plain(lit_text(i)),
{
    let t = lit_text(i);
    if i < 0 {
        let n = (-i) as nat;
        lemma_dec_plain(n);
        lemma_from_str_dec(n, true);
        assert(t.last() == dec_str(n).last());
        assert(t[0] == '-');
        assert(t[1] == dec_str(n)[0]);
    } else {
        let n = i as nat;
        lemma_dec_plain(n);
        lemma_from_str_dec(n, true);
        lemma_dec_str(n);
    }
    lemma_trim_plain(t);
    lemma_trim_end_char_keep(t, ',');
}

proof fn lemma_parse_branch_text(i: int)
    requires
        i32::MIN <= i <= i32::MAX,
    ensures
        spec_parse_branch_token(branch_text(i)) == Some(i as i32),
        plain(branch_text(i)),
        branch_text(i)[0] != '{',
{
    let t = branch_text(i);
    if i < 0 {
        lemma_parse_lit_text(i);
        assert(t[0] == '-');
    } else {
        let n = i as nat;
        lemma_dec_plain(n);
        lemma_from_str_dec(n, true);
        assert(t.last() == dec_str(n).last());
        assert(t[0] == '+');
        lemma_trim_plain(t);
        lemma_trim_end_char_keep(t, ',');
    }
}

proof fn lemma_parse_u32_dec(n: nat)
    requires
        n <= 0xffff_ffff,
    ensures
        spec_parse_u32(dec_str(n)) == Some(n as u32),
        spec_parse_u32_literal(dec_str(n)) == Ok::<u32, Seq<char>>(n as u32),
{
    lemma_from_str_dec(n, false);
    lemma_parse_lit_text(n as int);
}

pub(crate) proof fn lemma_parse_indexed(prefix: Seq<char>, lit: Seq<char>, n: nat)
    requires
        n <= 0xffff_ffff,
        lit == prefix.push('@'),
    ensures
        spec_parse_indexed_ref(lit + dec_str(n), prefix) == Ok::<u32, Seq<char>>(n as u32),
{
    let tok = lit + dec_str(n);
    assert(tok.subrange(0, lit.len() as int) =~= lit);
    assert(tok.subrange(lit.len() as int, tok.len() as int) =~= dec_str(n));
    lemma_parse_u32_dec(n);
}

proof fn lemma_resolve_ref_text(kind: RefKind, n: nat)
    requires
        n <= 0xffff_ffff,
    ensures
        spec_resolve_ref(&IndexResolve, kind, ref_text(kind, n)) == Ok::<u32, Seq<char>>(n as u32),
        plain(ref_text(kind, n)),
        ref_text(kind, n)[0] != '{',
        forall|i: int| 0 <= i < ref_text(kind, n).len() ==> !is_ws(#[trigger] ref_text(kind, n)[i]) && ref_text(kind, n)[i] != ',' && ref_text(kind, n)[i] != '"' && ref_text(kind, n)[i] != '{' && ref_text(kind, n)[i] != '}',
{
    reveal_strlit("string");
    reveal_strlit("string@");
    reveal_strlit("type");
    reveal_strlit("type@");
    reveal_strlit("field");
    reveal_strlit("field@");
    reveal_strlit("method");
    reveal_strlit("method@");
    reveal_strlit("proto");
    reveal_strlit("proto@");
    reveal_strlit("callsite");
    reveal_strlit("callsite@");
    lemma_dec_plain(n);
    lemma_dec_str(n);
    lemma_parse_u32_dec(n);
    let t = ref_text(kind, n);
    let d = dec_str(n);
    assert(t.last() == d.last());
    lemma_trim_plain(t);
    lemma_trim_end_char_keep(t, ',');
    match kind {
        RefKind::String => {
            assert("string@"@ =~= "string"@.push('@'));
            lemma_parse_indexed("string"@, "string@"@, n);
        },
        RefKind::Type => {
            assert("type@"@ =~= "type"@.push('@'));
            lemma_parse_indexed("type"@, "type@"@, n);
        },
        RefKind::Field => {
            assert("field@"@ =~= "field"@.push('@'));
            lemma_parse_indexed("field"@, "field@"@, n);
        },
        RefKind::Method => {
            assert("method@"@ =~= "method"@.push('@'));
            lemma_parse_indexed("method"@, "method@"@, n);
        },
        RefKind::MethodProto => {
            assert("proto@"@ =~= "proto"@.push('@'));
            lemma_parse_indexed("proto"@, "proto@"@, n);
        },
        RefKind::CallSite => {
            assert("callsite@"@ =~= "callsite"@.push('@'));
            lemma_parse_indexed("callsite"@, "callsite@"@, n);
        },
        _ => {},
    }
    assert forall|i: int| 0 <= i < t.len() implies !is_ws(#[trigger] t[i]) && t[i] != ',' && t[i] != '"' && t[i] != '{' && t[i] != '}' by {
        if i >= t.len() - d.len() {
            assert(t[i] == d[i - (t.len() - d.len())]);
            assert(is_digit(d[i - (t.len() - d.len())]));
        }
    }
}

/// Text without the characters that the operand splitter treats specially.
pub(crate) open spec fn no_special(t: Seq<char>) -> bool {
    forall|i: int|
        0 <= i < t.len() ==> #[trigger] t[i] != ',' && t[i] != '"' && t[i] != '{' && t[i] != '}'
}

/// A non-empty token without whitespace or special characters.
spec fn word(t: Seq<char>) -> bool {
    t.len() > 0 && no_special(t) && forall|i: int| 0 <= i < t.len() ==> !is_ws(#[trigger] t[i])
}

/// A braced group `{...}` holding no quotes or further braces.
pub(crate) open spec fn braced_tok(t: Seq<char>) -> bool {
    &&& t.len() >= 2
    &&& t[0] == '{'
    &&& t.last() == '}'
    &&& forall|i: int| 1 <= i < t.len() - 1 ==> #[trigger] t[i] != '"' && t[i] != '{' && t[i] != '}'
}

/// A token the operand splitter passes over whole.
#[verifier::opaque]
spec fn passable(t: Seq<char>) -> bool {
    (plain(t) && no_special(t)) || braced_tok(t)
}

proof fn lemma_word_passable(t: Seq<char>)
    requires
        word(t),
    ensures
        passable(t),
        plain(t),
{
    reveal(passable);
    assert(!is_ws(t[0]));
    assert(!is_ws(t[t.len() - 1]));
}

proof fn lemma_pass_depth(s: Seq<char>, i: int, j: int, start: int, d: i32, acc: Seq<Seq<char>>)
    requires
        0 <= i <= j <= s.len(),
        forall|k: int|
            i <= k < j ==> #[trigger] s[k] != '"' && s[k] != '{' && s[k] != '}' && (d == 0 ==> s[k]
                != ','),
    ensures
        split_ops_from(s, i, start, d, false, false, acc) == split_ops_from(
            s,
            j,
            start,
            d,
            false,
            false,
            acc,
        ),
    decreases j - i,
{
    if i < j {
        assert(s[i] != '"' && s[i] != '{' && s[i] != '}');
        lemma_pass_depth(s, i + 1, j, start, d, acc);
    }
}

proof fn lemma_pass_token(s: Seq<char>, i: int, t: Seq<char>, start: int, acc: Seq<Seq<char>>)
    requires
        0 <= i,
        i + t.len() <= s.len(),
        s.subrange(i, i + t.len()) == t,
        passable(t),
    ensures
        split_ops_from(s, i, start, 0, false, false, acc) == split_ops_from(
            s,
            i + t.len(),
            start,
            0,
            false,
            false,
            acc,
        ),
{
    reveal(passable);
    if plain(t) && no_special(t) {
        assert forall|k: int| i <= k < i + t.len() implies #[trigger] s[k] != '"' && s[k] != '{'
            && s[k] != '}' && s[k] != ',' by {
            assert(s[k] == t[k - i]);
        }
        lemma_pass_depth(s, i, i + t.len(), start, 0, acc);
    } else {
        let j = i + t.len();
        assert(s[i] == t[0]);
        assert(s[j - 1] == t[t.len() - 1]);
        assert forall|k: int| i + 1 <= k < j - 1 implies #[trigger] s[k] != '"' && s[k] != '{'
            && s[k] != '}' by {
            assert(s[k] == t[k - i]);
        }
        assert(depth_inc(0) == 1);
        lemma_pass_depth(s, i + 1, j - 1, start, 1, acc);
        assert(depth_dec(1) == 0);
    }
}

proof fn lemma_join_front(toks: Seq<Seq<char>>, sp: Seq<char>)
    requires
        toks.len() >= 2,
    ensures
        join(toks, sp) == toks[0] + sp + join(toks.drop_first(), sp),
    decreases toks.len(),
{
    if toks.len() == 2 {
        assert(toks.drop_last().len() == 1);
        assert(toks.drop_first().len() == 1);
        assert(join(toks.drop_first(), sp) == toks.drop_first()[0]);
        assert(join(toks.drop_last(), sp) == toks.drop_last()[0]);
        assert(toks.drop_last()[0] == toks[0]);
        assert(toks.drop_first()[0] == toks.last());
    } else {
        lemma_join_front(toks.drop_last(), sp);
        assert(toks.drop_last().drop_first() =~= toks.drop_first().drop_last());
        assert(toks.drop_first().last() == toks.last());
        assert(join(toks, sp) =~= toks[0] + sp + join(toks.drop_first(), sp));
    }
}

proof fn lemma_passable_plain(t: Seq<char>)
    requires
        passable(t),
    ensures
        plain(t),
{
    reveal(passable);
}

proof fn lemma_split_join(
    s: Seq<char>,
    start: int,
    lead: Seq<char>,
    toks: Seq<Seq<char>>,
    acc: Seq<Seq<char>>,
)
    requires
        0 <= start <= s.len(),
        lead == Seq::<char>::empty() || lead == seq![' '],
        toks.len() >= 1,
        forall|k: int| 0 <= k < toks.len() ==> passable(#[trigger] toks[k]),
        s.subrange(start, s.len() as int) == lead + join(toks, sep()),
    ensures
        split_ops_from(s, start, start, 0, false, false, acc) == acc + toks,
    decreases toks.len(),
{
    let t0 = toks[0];
    assert(passable(toks[0]));
    lemma_passable_plain(t0);
    let ss = s.subrange(start, s.len() as int);
    let jn = join(toks, sep());
    assert(ss.len() == s.len() - start);
    assert(ss.len() == lead.len() + jn.len());
    let i1 = start + lead.len();
    assert forall|k: int| start <= k < i1 implies #[trigger] s[k] != '"' && s[k] != '{' && s[k]
        != '}' && s[k] != ',' by {
        assert(s[k] == ss[k - start]);
        assert(ss[k - start] == lead[k - start]);
    }
    lemma_pass_depth(s, start, i1, start, 0, acc);
    let p = i1 + t0.len();
    if toks.len() == 1 {
        assert(join(toks, sep()) == t0);
        assert(ss =~= lead + t0);
        assert(s.subrange(i1, p) =~= ss.subrange(lead.len() as int, (lead.len() + t0.len()) as int));
        assert(s.subrange(i1, p) =~= t0);
        lemma_pass_token(s, i1, t0, start, acc);
        assert(s.subrange(start, s.len() as int) =~= lead + t0);
        lemma_trim_plain(t0);
        assert(acc.push(t0) =~= acc + toks);
    } else {
        lemma_join_front(toks, sep());
        let rest = toks.drop_first();
        let jr = join(rest, sep());
        assert(ss =~= lead + t0 + sep() + jr);
        assert(s.subrange(i1, p) =~= ss.subrange(lead.len() as int, (lead.len() + t0.len()) as int));
        assert(s.subrange(i1, p) =~= t0);
        lemma_pass_token(s, i1, t0, start, acc);
        assert(s[p] == ss[p - start]);
        assert(ss[p - start] == sep()[0]);
        assert(s[p] == ',');
        assert(s.subrange(start, p) =~= lead + t0);
        lemma_trim_plain(t0);
        let acc2 = acc.push(t0);
        assert(s.subrange(p + 1, s.len() as int) =~= ss.subrange(p + 1 - start, ss.len() as int));
        assert(ss.subrange(p + 1 - start, ss.len() as int) =~= seq![' '] + jr);
        assert forall|k: int| 0 <= k < rest.len() implies passable(#[trigger] rest[k]) by {
            assert(rest[k] == toks[k + 1]);
        }
        lemma_split_join(s, p + 1, seq![' '], rest, acc2);
        assert(acc2 + rest =~= acc + toks);
    }
}

proof fn lemma_split_operands_join(toks: Seq<Seq<char>>)
    requires
        toks.len() >= 1,
        forall|k: int| 0 <= k < toks.len() ==> passable(#[trigger] toks[k]),
    ensures
        spec_split_operands(join(toks, sep())) == toks,
{
    let s = join(toks, sep());
    assert(s.subrange(0, s.len() as int) =~= Seq::<char>::empty() + s);
    lemma_split_join(s, 0, Seq::<char>::empty(), toks, seq![]);
    assert(Seq::<Seq<char>>::empty() + toks =~= toks);
}

proof fn lemma_dec_word(n: nat)
    ensures
        word(dec_str(n)),
{
    lemma_dec_str(n);
    let d = dec_str(n);
    assert forall|i: int| 0 <= i < d.len() implies #[trigger] d[i] != ',' && d[i] != '"' && d[i]
        != '{' && d[i] != '}' && !is_ws(d[i]) by {
        assert(is_digit(d[i]));
    }
}

proof fn lemma_reg_word(n: nat)
    ensures
        word(reg_text(n)),
{
    lemma_dec_word(n);
    let t = reg_text(n);
    assert forall|i: int| 0 <= i < t.len() implies #[trigger] t[i] != ',' && t[i] != '"' && t[i]
        != '{' && t[i] != '}' && !is_ws(t[i]) by {
        if i > 0 {
            assert(t[i] == dec_str(n)[i - 1]);
        }
    }
}

proof fn lemma_lit_word(i: int)
    ensures
        word(lit_text(i)),
        word(branch_text(i)),
{
    let n = if i < 0 {
        (-i) as nat
    } else {
        i as nat
    };
    lemma_dec_word(n);
    let d = dec_str(n);
    let t = lit_text(i);
    let b = branch_text(i);
    assert forall|k: int| 0 <= k < t.len() implies #[trigger] t[k] != ',' && t[k] != '"' && t[k]
        != '{' && t[k] != '}' && !is_ws(t[k]) by {
        if i < 0 && k > 0 {
            assert(t[k] == d[k - 1]);
        } else if i >= 0 {
            assert(t[k] == d[k]);
        }
    }
    assert forall|k: int| 0 <= k < b.len() implies #[trigger] b[k] != ',' && b[k] != '"' && b[k]
        != '{' && b[k] != '}' && !is_ws(b[k]) by {
        if k > 0 {
            assert(b[k] == d[k - 1]);
        }
    }
}

proof fn lemma_ref_word(kind: RefKind, n: nat)
    requires
        n <= 0xffff_ffff,
    ensures
        word(ref_text(kind, n)),
{
    lemma_resolve_ref_text(kind, n);
}

proof fn lemma_join2(a: Seq<char>, b: Seq<char>, sp: Seq<char>)
    ensures
        join(seq![a, b], sp) == a + sp + b,
{
    assert(seq![a, b].drop_last() =~= seq![a]);
    assert(join(seq![a], sp) == a);
    assert(seq![a, b].last() == b);
}

proof fn lemma_join3(a: Seq<char>, b: Seq<char>, c: Seq<char>, sp: Seq<char>)
    ensures
        join(seq![a, b, c], sp) == a + sp + b + sp + c,
{
    assert(seq![a, b, c].drop_last() =~= seq![a, b]);
    lemma_join2(a, b, sp);
}

proof fn lemma_join4(a: Seq<char>, b: Seq<char>, c: Seq<char>, d: Seq<char>, sp: Seq<char>)
    ensures
        join(seq![a, b, c, d], sp) == a + sp + b + sp + c + sp + d,
{
    assert(seq![a, b, c, d].drop_last() =~= seq![a, b, c]);
    lemma_join3(a, b, c, sp);
}

proof fn lemma_bits_le16(x: u16)
    ensures
        ((((x & 0xff) as u8) as u16) | ((((x >> 8u16) as u8) as u16) << 8u16)) == x,
{
    assert(((((x & 0xff) as u8) as u16) | ((((x >> 8u16) as u8) as u16) << 8u16)) == x)
        by (bit_vector);
}

proof fn lemma_bits_le32(x: u32)
    ensures
        (((((x & 0xff) as u8) as u16) | (((((x >> 8u32) & 0xff) as u8) as u16) << 8u16)) as u32)
            | (((((((x >> 16u32) & 0xff) as u8) as u16) | ((((x >> 24u32) as u8) as u16)
            << 8u16)) as u32) << 16u32) == x,
{
    assert((((((x & 0xff) as u8) as u16) | (((((x >> 8u32) & 0xff) as u8) as u16) << 8u16))
        as u32) | (((((((x >> 16u32) & 0xff) as u8) as u16) | ((((x >> 24u32) as u8) as u16)
        << 8u16)) as u32) << 16u32) == x) by (bit_vector);
}

proof fn lemma_bits_le64(x: u64)
    ensures
        ((((x & 0xffff_ffff) as u32) as u64) | ((((x >> 32u64) as u32) as u64) << 32u64)) == x,
{
    assert(((((x & 0xffff_ffff) as u32) as u64) | ((((x >> 32u64) as u32) as u64) << 32u64))
        == x) by (bit_vector);
}

proof fn lemma_bits_casts(a: u8, b: u16, c: u32, d: u64)
    ensures
        ((a as i8) as u8) == a,
        ((b as i16) as u16) == b,
        ((c as i32) as u32) == c,
        ((d as i64) as u64) == d,
{
    assert(((a as i8) as u8) == a) by (bit_vector);
    assert(((b as i16) as u16) == b) by (bit_vector);
    assert(((c as i32) as u32) == c) by (bit_vector);
    assert(((d as i64) as u64) == d) by (bit_vector);
}

proof fn lemma_bits_nibbles(x: u8)
    ensures
        ((x & 0x0f) | ((x >> 4u8) << 4u8)) == x,
        (x & 0x0f) < 16,
        (x >> 4u8) < 16,
        ((x & 0x0f) & 0x0f) == (x & 0x0f),
        ((x >> 4u8) & 0x0f) == (x >> 4u8),
{
    assert(((x & 0x0f) | ((x >> 4u8) << 4u8)) == x) by (bit_vector);
    assert((x & 0x0f) < 16) by (bit_vector);
    assert((x >> 4u8) < 16) by (bit_vector);
    assert(((x & 0x0f) & 0x0f) == (x & 0x0f)) by (bit_vector);
    assert(((x >> 4u8) & 0x0f) == (x >> 4u8)) by (bit_vector);
}

proof fn lemma_bits_pack(c: u8, d: u8)
    ensures
        (((c & 0x0f) | ((d & 0x0f) << 4u8)) & 0x0f) == (c & 0x0f),
        (((c & 0x0f) | ((d & 0x0f) << 4u8)) >> 4u8) == (d & 0x0f),
        ((c & 0x0f) | ((0u8 & 0x0f) << 4u8)) == (c & 0x0f),
{
    assert((((c & 0x0f) | ((d & 0x0f) << 4u8)) & 0x0f) == (c & 0x0f)) by (bit_vector);
    assert((((c & 0x0f) | ((d & 0x0f) << 4u8)) >> 4u8) == (d & 0x0f)) by (bit_vector);
    assert(((c & 0x0f) | ((0u8 & 0x0f) << 4u8)) == (c & 0x0f)) by (bit_vector);
}

proof fn lemma_bits_count(a: u8, g: u8)
    requires
        a <= 5,
    ensures
        (((a << 4u8) | (g & 0x0f)) >> 4u8) == a,
        (((a << 4u8) | (g & 0x0f)) & 0x0f) == (g & 0x0f),
        ((a << 4u8) | (0u8 & 0x0f)) == (a << 4u8),
{
    assert(a <= 5 ==> (((a << 4u8) | (g & 0x0f)) >> 4u8) == a) by (bit_vector);
    assert((((a << 4u8) | (g & 0x0f)) & 0x0f) == (g & 0x0f)) by (bit_vector);
    assert(((a << 4u8) | (0u8 & 0x0f)) == (a << 4u8)) by (bit_vector);
}

/// Re-encoding the text decoded from `bytes`, with index references, gives `bytes` back.
spec fn reencodes(op: u8, fmt: Format, kind: RefKind, bytes: Seq<u8>, branch: Option<i32>) -> bool {
    match spec_operands_text(op, fmt, kind, bytes) {
        Some(t) => spec_encode_into(op, fmt, kind, spec_split_operands(t), &IndexResolve, branch)
            == Ok::<Seq<u8>, Seq<char>>(bytes),
        None => false,
    }
}

proof fn lemma_split2(a: Seq<char>, b: Seq<char>)
    requires
        passable(a),
        passable(b),
    ensures
        spec_split_operands(a + sep() + b) == seq![a, b],
{
    lemma_join2(a, b, sep());
    lemma_split_operands_join(seq![a, b]);
}

proof fn lemma_split3(a: Seq<char>, b: Seq<char>, c: Seq<char>)
    requires
        passable(a),
        passable(b),
        passable(c),
    ensures
        spec_split_operands(a + sep() + b + sep() + c) == seq![a, b, c],
{
    lemma_join3(a, b, c, sep());
    lemma_split_operands_join(seq![a, b, c]);
}

#[verifier::spinoff_prover]
#[verifier::rlimit(40)]
proof fn lemma_rt_12x(op: u8, kind: RefKind, ops: Seq<Seq<char>>, branch: Option<i32>)
    requires
        spec_enc_12x(op, ops) is Ok,
    ensures
        reencodes(op, Format::F12x, kind, spec_enc_12x(op, ops)->Ok_0, branch),
        spec_enc_12x(op, ops)->Ok_0.len() == 2,
        spec_enc_12x(op, ops)->Ok_0[0] == op,
{
    let bytes = spec_enc_12x(op, ops)->Ok_0;
    let x = bytes[1];
    lemma_bits_nibbles(x);
    let a = lo4(x) as nat;
    let b = hi4(x) as nat;
    lemma_reg_word(a);
    lemma_reg_word(b);
    lemma_word_passable(reg_text(a));
    lemma_word_passable(reg_text(b));
    lemma_split2(reg_text(a), reg_text(b));
    lemma_parse_reg_text(a);
    lemma_parse_reg_text(b);
    let toks = seq![reg_text(a), reg_text(b)];
    assert(spec_enc_12x(op, toks) == Ok::<Seq<u8>, Seq<char>>(seq![op, ((a as u16) as u8) | (((b as u16) as u8) << 4u8)]));
    assert(seq![op, ((a as u16) as u8) | (((b as u16) as u8) << 4u8)] =~= bytes);
}

proof fn lemma_bits_scasts(a: i8, b: i16, c: i32, d: i64)
    ensures
        ((a as u8) as i8) == a,
        ((b as u16) as i16) == b,
        ((c as u32) as i32) == c,
        ((d as u64) as i64) == d,
{
    assert(((a as u8) as i8) == a) by (bit_vector);
    assert(((b as u16) as i16) == b) by (bit_vector);
    assert(((c as u32) as i32) == c) by (bit_vector);
    assert(((d as u64) as i64) == d) by (bit_vector);
}

proof fn lemma_rd16_at(bytes: Seq<u8>, k: int, x: u16)
    requires
        0 <= k,
        k + 2 <= bytes.len(),
        bytes.subrange(k, k + 2) == le16(x),
    ensures
        rd16(bytes, k) == x,
{
    assert(bytes[k] == le16(x)[0]);
    assert(bytes[k + 1] == le16(x)[1]);
    lemma_bits_le16(x);
}

proof fn lemma_rd32_at(bytes: Seq<u8>, k: int, x: u32)
    requires
        0 <= k,
        k + 4 <= bytes.len(),
        bytes.subrange(k, k + 4) == le32(x),
    ensures
        rd32(bytes, k) == x,
{
    assert(bytes[k] == le32(x)[0]);
    assert(bytes[k + 1] == le32(x)[1]);
    assert(bytes[k + 2] == le32(x)[2]);
    assert(bytes[k + 3] == le32(x)[3]);
    lemma_bits_le32(x);
}

proof fn lemma_rd64_at(bytes: Seq<u8>, k: int, x: u64)
    requires
        0 <= k,
        k + 8 <= bytes.len(),
        bytes.subrange(k, k + 8) == le64(x),
    ensures
        rd64(bytes, k) == x,
{
    let lo = (x & 0xffff_ffff) as u32;
    let hi = (x >> 32u64) as u32;
    assert(bytes.subrange(k, k + 4) =~= le64(x).subrange(0, 4));
    assert(le64(x).subrange(0, 4) =~= le32(lo));
    assert(bytes.subrange(k + 4, k + 8) =~= le64(x).subrange(4, 8));
    assert(le64(x).subrange(4, 8) =~= le32(hi));
    lemma_rd32_at(bytes, k, lo);
    lemma_rd32_at(bytes, k + 4, hi);
    lemma_bits_le64(x);
}

proof fn lemma_split1(a: Seq<char>)
    requires
        passable(a),
    ensures
        spec_split_operands(a) == seq![a],
{
    assert(join(seq![a], sep()) == a);
    lemma_split_operands_join(seq![a]);
}

proof fn lemma_reg_tok(n: nat)
    requires
        n <= 0xffff,
    ensures
        passable(reg_text(n)),
        spec_parse_reg(reg_text(n)) == Ok::<u16, Seq<char>>(n as u16),
{
    lemma_reg_word(n);
    lemma_word_passable(reg_text(n));
    lemma_parse_reg_text(n);
}

proof fn lemma_lit_tok(i: int)
    requires
        i64::MIN <= i <= i64::MAX,
    ensures
        passable(lit_text(i)),
        spec_parse_i64(lit_text(i)) == Ok::<i64, Seq<char>>(i as i64),
{
    lemma_lit_word(i);
    lemma_word_passable(lit_text(i));
    lemma_parse_lit_text(i);
}

proof fn lemma_branch_tok(i: int)
    requires
        i32::MIN <= i <= i32::MAX,
    ensures
        passable(branch_text(i)),
        spec_parse_branch_token(branch_text(i)) == Some(i as i32),
{
    lemma_lit_word(i);
    lemma_word_passable(branch_text(i));
    lemma_parse_branch_text(i);
}

proof fn lemma_ref_tok(kind: RefKind, n: nat)
    requires
        n <= 0xffff_ffff,
    ensures
        passable(ref_text(kind, n)),
        spec_resolve_ref(&IndexResolve, kind, ref_text(kind, n)) == Ok::<u32, Seq<char>>(n as u32),
{
    lemma_ref_word(kind, n);
    lemma_word_passable(ref_text(kind, n));
    lemma_resolve_ref_text(kind, n);
}

proof fn lemma_dec_tok(n: nat)
    requires
        n <= 0xffff_ffff,
    ensures
        passable(dec_str(n)),
        spec_parse_u32_literal(dec_str(n)) == Ok::<u32, Seq<char>>(n as u32),
{
    lemma_dec_word(n);
    lemma_word_passable(dec_str(n));
    lemma_parse_u32_dec(n);
}

#[verifier::spinoff_prover]
#[verifier::rlimit(40)]
proof fn lemma_rt_10t(op: u8, kind: RefKind, ops: Seq<Seq<char>>, branch: Option<i32>)
    requires
        spec_enc_10t(op, ops, branch) is Ok,
    ensures
        reencodes(op, Format::F10t, kind, spec_enc_10t(op, ops, branch)->Ok_0, branch),
        spec_enc_10t(op, ops, branch)->Ok_0.len() == 2,
        spec_enc_10t(op, ops, branch)->Ok_0[0] == op,
{
    let bytes = spec_enc_10t(op, ops, branch)->Ok_0;
    let rel = branch_or(branch, tok_at(ops, 0))->Some_0;
    lemma_bits_scasts(rel as i8, 0, 0, 0);
    let v = (bytes[1] as i8) as int;
    assert(v == rel);
    lemma_branch_tok(v);
    lemma_split1(branch_text(v));
}

proof fn lemma_bits_11n(r8: u8, l8: i8, x: u8)
    requires
        r8 < 16,
        -8 <= l8 <= 7,
        x == r8 | ((l8 as u8) << 4u8),
    ensures
        (x & 0x0f) == r8,
        l8 >= 0 ==> (x >> 4u8) < 8 && (x >> 4u8) == l8,
        l8 < 0 ==> (x >> 4u8) >= 8 && (x >> 4u8) - 16 == l8,
{
    assert(r8 < 16 && -8 <= l8 <= 7 && x == r8 | ((l8 as u8) << 4u8) ==> {
        &&& (x & 0x0f) == r8
        &&& (l8 >= 0 ==> (x >> 4u8) < 8 && (x >> 4u8) == l8)
        &&& (l8 < 0 ==> (x >> 4u8) >= 8 && (x >> 4u8) - 16 == l8)
    }) by (bit_vector);
}

#[verifier::spinoff_prover]
#[verifier::rlimit(40)]
proof fn lemma_rt_11n(op: u8, kind: RefKind, ops: Seq<Seq<char>>, branch: Option<i32>)
    requires
        spec_enc_11n(op, ops) is Ok,
    ensures
        reencodes(op, Format::F11n, kind, spec_enc_11n(op, ops)->Ok_0, branch),
        spec_enc_11n(op, ops)->Ok_0.len() == 2,
        spec_enc_11n(op, ops)->Ok_0[0] == op,
{
    let bytes = spec_enc_11n(op, ops)->Ok_0;
    let r = spec_parse_reg(tok_or(ops, 0, seq![]))->Ok_0;
    let lit = spec_parse_i64(tok_or(ops, 1, seq!['0']))->Ok_0;
    let r8 = r as u8;
    let l8 = lit as i8;
    let x = bytes[1];
    assert(x == r8 | ((l8 as u8) << 4u8));
    lemma_bits_11n(r8, l8, x);
    assert(lo4(x) == r8);
    assert(nibble_signed(hi4(x)) == lit);
    let t0 = reg_text(lo4(x) as nat);
    let t1 = lit_text(lit as int);
    lemma_reg_tok(lo4(x) as nat);
    lemma_lit_tok(lit as int);
    lemma_split2(t0, t1);
    assert(spec_operands_text(op, Format::F11n, kind, bytes) == Some(t0 + sep() + t1));
    let toks = seq![t0, t1];
    assert(tok_or(toks, 0, seq![]) == t0);
    assert(tok_or(toks, 1, seq!['0']) == t1);
    assert(spec_enc_11n(op, toks) == spec_enc_11n(op, ops));
}

#[verifier::spinoff_prover]
#[verifier::rlimit(40)]
proof fn lemma_rt_11x(op: u8, kind: RefKind, ops: Seq<Seq<char>>, branch: Option<i32>)
    requires
        spec_enc_11x(op, ops) is Ok,
    ensures
        reencodes(op, Format::F11x, kind, spec_enc_11x(op, ops)->Ok_0, branch),
        spec_enc_11x(op, ops)->Ok_0.len() == 2,
        spec_enc_11x(op, ops)->Ok_0[0] == op,
{
    let bytes = spec_enc_11x(op, ops)->Ok_0;
    let t = reg_text(bytes[1] as nat);
    lemma_reg_tok(bytes[1] as nat);
    lemma_split1(t);
    assert(spec_operands_text(op, Format::F11x, kind, bytes) == Some(t));
    assert(tok_or(seq![t], 0, seq![]) == t);
    assert(spec_enc_11x(op, seq![t]) == Ok::<Seq<u8>, Seq<char>>(seq![op, ((bytes[1] as nat) as u16) as u8]));
    assert(seq![op, ((bytes[1] as nat) as u16) as u8] =~= bytes);
}

#[verifier::spinoff_prover]
#[verifier::rlimit(40)]
proof fn lemma_rt_20t(op: u8, kind: RefKind, ops: Seq<Seq<char>>, branch: Option<i32>)
    requires
        spec_enc_20t(op, ops, branch) is Ok,
    ensures
        reencodes(op, Format::F20t, kind, spec_enc_20t(op, ops, branch)->Ok_0, branch),
        spec_enc_20t(op, ops, branch)->Ok_0.len() == 4,
        spec_enc_20t(op, ops, branch)->Ok_0[0] == op,
{
    let bytes = spec_enc_20t(op, ops, branch)->Ok_0;
    let rel = branch_or(branch, tok_at(ops, 0))->Some_0;
    let u = (rel as i16) as u16;
    assert(bytes.subrange(2, 4) =~= le16(u));
    lemma_rd16_at(bytes, 2, u);
    lemma_bits_scasts(0, rel as i16, 0, 0);
    let v = (rd16(bytes, 2) as i16) as int;
    assert(v == rel);
    lemma_branch_tok(v);
    lemma_split1(branch_text(v));
    assert(seq![op, 0u8] + le16(u) =~= bytes);
}

#[verifier::spinoff_prover]
#[verifier::rlimit(40)]
proof fn lemma_rt_31c<R: EncodeResolve>(
    op: u8,
    kind: RefKind,
    ops: Seq<Seq<char>>,
    res: &R,
    branch: Option<i32>,
)
    requires
        spec_enc_ref_aa(op, Format::F31c, kind, ops, res) is Ok,
    ensures
        reencodes(op, Format::F31c, kind, spec_enc_ref_aa(op, Format::F31c, kind, ops, res)->Ok_0, branch),
        spec_enc_ref_aa(op, Format::F31c, kind, ops, res)->Ok_0.len() == 6,
        spec_enc_ref_aa(op, Format::F31c, kind, ops, res)->Ok_0[0] == op,
{
    let fmt = Format::F31c;
    let bytes = spec_enc_ref_aa(op, fmt, kind, ops, res)->Ok_0;
    let idx = spec_resolve_ref(res, kind, tok_or(ops, 1, seq![]))->Ok_0;
    let aa = bytes[1];
    let t0 = reg_text(aa as nat);
    lemma_reg_tok(aa as nat);
    assert(bytes.subrange(2, 6) =~= le32(idx));
    lemma_rd32_at(bytes, 2, idx);
    let t1 = ref_text(kind, idx as nat);
    lemma_ref_tok(kind, idx as nat);
    lemma_split2(t0, t1);
    let toks = seq![t0, t1];
    assert(spec_operands_text(op, fmt, kind, bytes) == Some(t0 + sep() + t1));
    assert(tok_or(toks, 0, seq![]) == t0);
    assert(tok_or(toks, 1, seq![]) == t1);
    assert(spec_enc_ref_aa(op, fmt, kind, toks, &IndexResolve) == Ok::<Seq<u8>, Seq<char>>(
        seq![op, ((aa as nat) as u16) as u8] + le32(idx),
    ));
    assert(seq![op, ((aa as nat) as u16) as u8] + le32(idx) =~= bytes);
}

#[verifier::spinoff_prover]
#[verifier::rlimit(40)]
proof fn lemma_rt_21c<R: EncodeResolve>(
    op: u8,
    kind: RefKind,
    ops: Seq<Seq<char>>,
    res: &R,
    branch: Option<i32>,
)
    requires
        spec_enc_ref_aa(op, Format::F21c, kind, ops, res) is Ok,
    ensures
        reencodes(op, Format::F21c, kind, spec_enc_ref_aa(op, Format::F21c, kind, ops, res)->Ok_0, branch),
        spec_enc_ref_aa(op, Format::F21c, kind, ops, res)->Ok_0.len() == 4,
        spec_enc_ref_aa(op, Format::F21c, kind, ops, res)->Ok_0[0] == op,
{
    let fmt = Format::F21c;
    let bytes = spec_enc_ref_aa(op, fmt, kind, ops, res)->Ok_0;
    let idx = spec_resolve_ref(res, kind, tok_or(ops, 1, seq![]))->Ok_0;
    let aa = bytes[1];
    let t0 = reg_text(aa as nat);
    lemma_reg_tok(aa as nat);
    let i16v = idx as u16;
    assert(bytes.subrange(2, 4) =~= le16(i16v));
    lemma_rd16_at(bytes, 2, i16v);
    let t1 = ref_text(kind, i16v as nat);
    lemma_ref_tok(kind, i16v as nat);
    lemma_split2(t0, t1);
    let toks = seq![t0, t1];
    assert(spec_operands_text(op, fmt, kind, bytes) == Some(t0 + sep() + t1));
    assert(tok_or(toks, 0, seq![]) == t0);
    assert(tok_or(toks, 1, seq![]) == t1);
    assert(spec_parse_reg(tok_or(toks, 0, seq![])) == Ok::<u16, Seq<char>>((aa as nat) as u16));
    assert(spec_resolve_ref(&IndexResolve, kind, tok_or(toks, 1, seq![])) == Ok::<u32, Seq<char>>(
        (i16v as nat) as u32,
    ));
    assert((i16v as nat) as u32 <= 0xffff);
    assert(spec_enc_ref_aa(op, fmt, kind, toks, &IndexResolve) == Ok::<Seq<u8>, Seq<char>>(
        seq![op, ((aa as nat) as u16) as u8] + le16(i16v),
    ));
    assert(seq![op, ((aa as nat) as u16) as u8] + le16(i16v) =~= bytes);
}

#[verifier::spinoff_prover]
#[verifier::rlimit(40)]
proof fn lemma_rt_20bc<R: EncodeResolve>(
    op: u8,
    kind: RefKind,
    ops: Seq<Seq<char>>,
    res: &R,
    branch: Option<i32>,
)
    requires
        spec_enc_ref_aa(op, Format::F20bc, kind, ops, res) is Ok,
    ensures
        reencodes(op, Format::F20bc, kind, spec_enc_ref_aa(op, Format::F20bc, kind, ops, res)->Ok_0, branch),
        spec_enc_ref_aa(op, Format::F20bc, kind, ops, res)->Ok_0.len() == 4,
        spec_enc_ref_aa(op, Format::F20bc, kind, ops, res)->Ok_0[0] == op,
{
    let fmt = Format::F20bc;
    let bytes = spec_enc_ref_aa(op, fmt, kind, ops, res)->Ok_0;
    let idx = spec_resolve_ref(res, kind, tok_or(ops, 1, seq![]))->Ok_0;
    let aa = bytes[1];
    let t0 = dec_str(aa as nat);
    lemma_dec_tok(aa as nat);
    let i16v = idx as u16;
    assert(bytes.subrange(2, 4) =~= le16(i16v));
    lemma_rd16_at(bytes, 2, i16v);
    let t1 = ref_text(kind, i16v as nat);
    lemma_ref_tok(kind, i16v as nat);
    lemma_split2(t0, t1);
    let toks = seq![t0, t1];
    assert(spec_operands_text(op, fmt, kind, bytes) == Some(t0 + sep() + t1));
    assert(tok_or(toks, 0, seq!['0']) == t0);
    assert(tok_or(toks, 1, seq![]) == t1);
    assert(spec_parse_u32_literal(tok_or(toks, 0, seq!['0'])) == Ok::<u32, Seq<char>>((aa as nat) as u32));
    assert(spec_resolve_ref(&IndexResolve, kind, tok_or(toks, 1, seq![])) == Ok::<u32, Seq<char>>(
        (i16v as nat) as u32,
    ));
    assert(spec_enc_ref_aa(op, fmt, kind, toks, &IndexResolve) == Ok::<Seq<u8>, Seq<char>>(
        seq![op, ((aa as nat) as u32) as u8] + le16(i16v),
    ));
    assert(seq![op, ((aa as nat) as u32) as u8] + le16(i16v) =~= bytes);
}

proof fn lemma_bits_high16(s: i16)
    ensures
        ((((s as i64) * 0x10000) as i64) >> 16i64) as i16 == s,
        ((((s as i64) * 0x1_0000_0000_0000) as i64) >> 48i64) as i16 == s,
{
    assert(((((s as i64) * 0x10000) as i64) >> 16i64) as i16 == s) by (bit_vector);
    assert(((((s as i64) * 0x1_0000_0000_0000) as i64) >> 48i64) as i16 == s) by (bit_vector);
}

#[verifier::spinoff_prover]
#[verifier::rlimit(40)]
proof fn lemma_rt_21h(op: u8, kind: RefKind, ops: Seq<Seq<char>>, branch: Option<i32>)
    requires
        spec_enc_21h(op, ops) is Ok,
    ensures
        reencodes(op, Format::F21h, kind, spec_enc_21h(op, ops)->Ok_0, branch),
        spec_enc_21h(op, ops)->Ok_0.len() == 4,
        spec_enc_21h(op, ops)->Ok_0[0] == op,
{
    let bytes = spec_enc_21h(op, ops)->Ok_0;
    let lit = spec_parse_i64(tok_or(ops, 1, seq!['0']))->Ok_0;
    let st = high16_stored(op, lit);
    let u = st as u16;
    assert(bytes.subrange(2, 4) =~= le16(u));
    lemma_rd16_at(bytes, 2, u);
    lemma_bits_scasts(0, st, 0, 0);
    let sv = rd16(bytes, 2) as i16;
    assert(sv == st);
    let value: int = if op == 0x15 {
        sv * 0x10000
    } else if op == 0x19 {
        sv * 0x1_0000_0000_0000
    } else {
        sv as int
    };
    assert(i64::MIN <= value <= i64::MAX) by (nonlinear_arith)
        requires
            -0x8000 <= sv <= 0x7fff,
            value == sv * 0x10000 || value == sv * 0x1_0000_0000_0000 || value == sv as int,
    ;
    lemma_bits_high16(sv);
    assert(high16_stored(op, value as i64) == st);
    let aa = bytes[1];
    let t0 = reg_text(aa as nat);
    let t1 = lit_text(value);
    lemma_reg_tok(aa as nat);
    lemma_lit_tok(value);
    lemma_split2(t0, t1);
    let toks = seq![t0, t1];
    assert(spec_operands_text(op, Format::F21h, kind, bytes) == Some(t0 + sep() + t1));
    assert(tok_or(toks, 0, seq![]) == t0);
    assert(tok_or(toks, 1, seq!['0']) == t1);
    assert(spec_enc_21h(op, toks) == Ok::<Seq<u8>, Seq<char>>(
        seq![op, ((aa as nat) as u16) as u8] + le16(u),
    ));
    assert(seq![op, ((aa as nat) as u16) as u8] + le16(u) =~= bytes);
}

#[verifier::spinoff_prover]
#[verifier::rlimit(40)]
proof fn lemma_rt_21s(op: u8, kind: RefKind, ops: Seq<Seq<char>>, branch: Option<i32>)
    requires
        spec_enc_21s(op, ops) is Ok,
    ensures
        reencodes(op, Format::F21s, kind, spec_enc_21s(op, ops)->Ok_0, branch),
        spec_enc_21s(op, ops)->Ok_0.len() == 4,
        spec_enc_21s(op, ops)->Ok_0[0] == op,
{
    let bytes = spec_enc_21s(op, ops)->Ok_0;
    let lit = spec_parse_i64(tok_or(ops, 1, seq!['0']))->Ok_0;
    let u = (lit as i16) as u16;
    assert(bytes.subrange(2, 4) =~= le16(u));
    lemma_rd16_at(bytes, 2, u);
    lemma_bits_scasts(0, lit as i16, 0, 0);
    let sv = (rd16(bytes, 2) as i16) as int;
    assert(sv == (lit as i16) as int);
    let aa = bytes[1];
    let t0 = reg_text(aa as nat);
    let t1 = lit_text(sv);
    lemma_reg_tok(aa as nat);
    lemma_lit_tok(sv);
    lemma_split2(t0, t1);
    let toks = seq![t0, t1];
    assert(spec_operands_text(op, Format::F21s, kind, bytes) == Some(t0 + sep() + t1));
    assert(tok_or(toks, 0, seq![]) == t0);
    assert(tok_or(toks, 1, seq!['0']) == t1);
    assert(spec_parse_reg(tok_or(toks, 0, seq![])) == Ok::<u16, Seq<char>>((aa as nat) as u16));
    assert(spec_parse_i64(tok_or(toks, 1, seq!['0'])) == Ok::<i64, Seq<char>>(sv as i64));
    assert(((sv as i64) as i16) as u16 == u);
    assert(spec_enc_21s(op, toks) == Ok::<Seq<u8>, Seq<char>>(
        seq![op, ((aa as nat) as u16) as u8] + le16(u),
    ));
    assert(seq![op, ((aa as nat) as u16) as u8] + le16(u) =~= bytes);
}

#[verifier::spinoff_prover]
#[verifier::rlimit(40)]
proof fn lemma_rt_21t(op: u8, kind: RefKind, ops: Seq<Seq<char>>, branch: Option<i32>)
    requires
        spec_enc_21t(op, ops, branch) is Ok,
    ensures
        reencodes(op, Format::F21t, kind, spec_enc_21t(op, ops, branch)->Ok_0, branch),
        spec_enc_21t(op, ops, branch)->Ok_0.len() == 4,
        spec_enc_21t(op, ops, branch)->Ok_0[0] == op,
{
    let bytes = spec_enc_21t(op, ops, branch)->Ok_0;
    let rel = branch_or(branch, tok_at(ops, 1))->Some_0;
    let u = (rel as i16) as u16;
    assert(bytes.subrange(2, 4) =~= le16(u));
    lemma_rd16_at(bytes, 2, u);
    lemma_bits_scasts(0, rel as i16, 0, 0);
    let sv = (rd16(bytes, 2) as i16) as int;
    assert(sv == rel);
    let aa = bytes[1];
    let t0 = reg_text(aa as nat);
    let t1 = branch_text(sv);
    lemma_reg_tok(aa as nat);
    lemma_branch_tok(sv);
    lemma_split2(t0, t1);
    let toks = seq![t0, t1];
    assert(spec_operands_text(op, Format::F21t, kind, bytes) == Some(t0 + sep() + t1));
    assert(tok_or(toks, 0, seq![]) == t0);
    assert(tok_at(toks, 1) == Some(t1));
    assert(spec_parse_reg(tok_or(toks, 0, seq![])) == Ok::<u16, Seq<char>>((aa as nat) as u16));
    assert(branch_or(branch, tok_at(toks, 1)) == Some(rel));
    assert(spec_enc_21t(op, toks, branch) == Ok::<Seq<u8>, Seq<char>>(
        seq![op, ((aa as nat) as u16) as u8] + le16(u),
    ));
    assert(seq![op, ((aa as nat) as u16) as u8] + le16(u) =~= bytes);
}

#[verifier::spinoff_prover]
#[verifier::rlimit(40)]
proof fn lemma_rt_22b(op: u8, kind: RefKind, ops: Seq<Seq<char>>, branch: Option<i32>)
    requires
        spec_enc_22b(op, ops) is Ok,
    ensures
        reencodes(op, Format::F22b, kind, spec_enc_22b(op, ops)->Ok_0, branch),
        spec_enc_22b(op, ops)->Ok_0.len() == 4,
        spec_enc_22b(op, ops)->Ok_0[0] == op,
{
    let bytes = spec_enc_22b(op, ops)->Ok_0;
    let a = bytes[1];
    let b = bytes[2];
    let c = bytes[3];
    lemma_bits_casts(c, 0, 0, 0);
    let cv = (c as i8) as int;
    let t0 = reg_text(a as nat);
    let t1 = reg_text(b as nat);
    let t2 = lit_text(cv);
    lemma_reg_tok(a as nat);
    lemma_reg_tok(b as nat);
    lemma_lit_tok(cv);
    lemma_split3(t0, t1, t2);
    let toks = seq![t0, t1, t2];
    assert(spec_operands_text(op, Format::F22b, kind, bytes) == Some(t0 + sep() + t1 + sep() + t2));
    assert(tok_or(toks, 0, seq![]) == t0);
    assert(tok_or(toks, 1, seq![]) == t1);
    assert(tok_or(toks, 2, seq!['0']) == t2);
    assert(spec_parse_reg(tok_or(toks, 0, seq![])) == Ok::<u16, Seq<char>>((a as nat) as u16));
    assert(spec_parse_reg(tok_or(toks, 1, seq![])) == Ok::<u16, Seq<char>>((b as nat) as u16));
    assert(spec_parse_i64(tok_or(toks, 2, seq!['0'])) == Ok::<i64, Seq<char>>(cv as i64));
    assert(((cv as i64) as i8) as u8 == c);
    assert(spec_enc_22b(op, toks) == Ok::<Seq<u8>, Seq<char>>(
        seq![op, ((a as nat) as u16) as u8, ((b as nat) as u16) as u8, ((cv as i64) as i8) as u8],
    ));
    assert(seq![op, ((a as nat) as u16) as u8, ((b as nat) as u16) as u8, ((cv as i64) as i8) as u8] =~= bytes);
}

#[verifier::spinoff_prover]
#[verifier::rlimit(40)]
proof fn lemma_rt_22x(op: u8, kind: RefKind, ops: Seq<Seq<char>>, branch: Option<i32>)
    requires
        spec_enc_22x(op, ops) is Ok,
    ensures
        reencodes(op, Format::F22x, kind, spec_enc_22x(op, ops)->Ok_0, branch),
        spec_enc_22x(op, ops)->Ok_0.len() == 4,
        spec_enc_22x(op, ops)->Ok_0[0] == op,
{
    let bytes = spec_enc_22x(op, ops)->Ok_0;
    let b = spec_parse_reg(tok_or(ops, 1, seq![]))->Ok_0;
    assert(bytes.subrange(2, 4) =~= le16(b));
    lemma_rd16_at(bytes, 2, b);
    let a = bytes[1];
    let t0 = reg_text(a as nat);
    let t1 = reg_text(b as nat);
    lemma_reg_tok(a as nat);
    lemma_reg_tok(b as nat);
    lemma_split2(t0, t1);
    let toks = seq![t0, t1];
    assert(spec_operands_text(op, Format::F22x, kind, bytes) == Some(t0 + sep() + t1));
    assert(tok_or(toks, 0, seq![]) == t0);
    assert(tok_or(toks, 1, seq![]) == t1);
    assert(spec_parse_reg(tok_or(toks, 0, seq![])) == Ok::<u16, Seq<char>>((a as nat) as u16));
    assert(spec_parse_reg(tok_or(toks, 1, seq![])) == Ok::<u16, Seq<char>>(b));
    assert(spec_enc_22x(op, toks) == Ok::<Seq<u8>, Seq<char>>(
        seq![op, ((a as nat) as u16) as u8] + le16(b),
    ));
    assert(seq![op, ((a as nat) as u16) as u8] + le16(b) =~= bytes);
}

#[verifier::spinoff_prover]
#[verifier::rlimit(40)]
proof fn lemma_rt_22c<R: EncodeResolve>(
    op: u8,
    kind: RefKind,
    ops: Seq<Seq<char>>,
    res: &R,
    branch: Option<i32>,
    fmt: Format,
)
    requires
        fmt == Format::F22c || fmt == Format::F22cs,
        spec_enc_22c(op, kind, ops, res) is Ok,
    ensures
        reencodes(op, fmt, kind, spec_enc_22c(op, kind, ops, res)->Ok_0, branch),
        spec_enc_22c(op, kind, ops, res)->Ok_0.len() == 4,
        spec_enc_22c(op, kind, ops, res)->Ok_0[0] == op,
{
    let bytes = spec_enc_22c(op, kind, ops, res)->Ok_0;
    let idx = spec_resolve_ref(res, kind, tok_or(ops, 2, seq![]))->Ok_0;
    let i16v = idx as u16;
    assert(bytes.subrange(2, 4) =~= le16(i16v));
    lemma_rd16_at(bytes, 2, i16v);
    let x = bytes[1];
    lemma_bits_nibbles(x);
    let a = lo4(x);
    let b = hi4(x);
    let t0 = reg_text(a as nat);
    let t1 = reg_text(b as nat);
    let t2 = ref_text(kind, i16v as nat);
    lemma_reg_tok(a as nat);
    lemma_reg_tok(b as nat);
    lemma_ref_tok(kind, i16v as nat);
    lemma_split3(t0, t1, t2);
    let toks = seq![t0, t1, t2];
    assert(spec_operands_text(op, fmt, kind, bytes) == Some(t0 + sep() + t1 + sep() + t2));
    assert(tok_or(toks, 0, seq![]) == t0);
    assert(tok_or(toks, 1, seq![]) == t1);
    assert(tok_or(toks, 2, seq![]) == t2);
    assert(spec_parse_reg(tok_or(toks, 0, seq![])) == Ok::<u16, Seq<char>>((a as nat) as u16));
    assert(spec_parse_reg(tok_or(toks, 1, seq![])) == Ok::<u16, Seq<char>>((b as nat) as u16));
    assert(spec_resolve_ref(&IndexResolve, kind, tok_or(toks, 2, seq![])) == Ok::<u32, Seq<char>>(
        (i16v as nat) as u32,
    ));
    assert(spec_enc_22c(op, kind, toks, &IndexResolve) == Ok::<Seq<u8>, Seq<char>>(
        seq![op, (((a as nat) as u16) as u8) | ((((b as nat) as u16) as u8) << 4u8)] + le16(i16v),
    ));
    assert(seq![op, (((a as nat) as u16) as u8) | ((((b as nat) as u16) as u8) << 4u8)] + le16(i16v) =~= bytes);
}

#[verifier::spinoff_prover]
#[verifier::rlimit(40)]
proof fn lemma_rt_22s(op: u8, kind: RefKind, ops: Seq<Seq<char>>, branch: Option<i32>)
    requires
        spec_enc_22s(op, ops) is Ok,
    ensures
        reencodes(op, Format::F22s, kind, spec_enc_22s(op, ops)->Ok_0, branch),
        spec_enc_22s(op, ops)->Ok_0.len() == 4,
        spec_enc_22s(op, ops)->Ok_0[0] == op,
{
    let bytes = spec_enc_22s(op, ops)->Ok_0;
    let lit = spec_parse_i64(tok_or(ops, 2, seq!['0']))->Ok_0;
    let u = (lit as i16) as u16;
    assert(bytes.subrange(2, 4) =~= le16(u));
    lemma_rd16_at(bytes, 2, u);
    lemma_bits_scasts(0, lit as i16, 0, 0);
    let sv = (rd16(bytes, 2) as i16) as int;
    let x = bytes[1];
    lemma_bits_nibbles(x);
    let a = lo4(x);
    let b = hi4(x);
    let t0 = reg_text(a as nat);
    let t1 = reg_text(b as nat);
    let t2 = lit_text(sv);
    lemma_reg_tok(a as nat);
    lemma_reg_tok(b as nat);
    lemma_lit_tok(sv);
    lemma_split3(t0, t1, t2);
    let toks = seq![t0, t1, t2];
    assert(spec_operands_text(op, Format::F22s, kind, bytes) == Some(t0 + sep() + t1 + sep() + t2));
    assert(tok_or(toks, 0, seq![]) == t0);
    assert(tok_or(toks, 1, seq![]) == t1);
    assert(tok_or(toks, 2, seq!['0']) == t2);
    assert(spec_parse_reg(tok_or(toks, 0, seq![])) == Ok::<u16, Seq<char>>((a as nat) as u16));
    assert(spec_parse_reg(tok_or(toks, 1, seq![])) == Ok::<u16, Seq<char>>((b as nat) as u16));
    assert(spec_parse_i64(tok_or(toks, 2, seq!['0'])) == Ok::<i64, Seq<char>>(sv as i64));
    assert(((sv as i64) as i16) as u16 == u);
    assert(spec_enc_22s(op, toks) == Ok::<Seq<u8>, Seq<char>>(
        seq![op, (((a as nat) as u16) as u8) | ((((b as nat) as u16) as u8) << 4u8)] + le16(u),
    ));
    assert(seq![op, (((a as nat) as u16) as u8) | ((((b as nat) as u16) as u8) << 4u8)] + le16(u) =~= bytes);
}

#[verifier::spinoff_prover]
#[verifier::rlimit(40)]
proof fn lemma_rt_22t(op: u8, kind: RefKind, ops: Seq<Seq<char>>, branch: Option<i32>)
    requires
        spec_enc_22t(op, ops, branch) is Ok,
    ensures
        reencodes(op, Format::F22t, kind, spec_enc_22t(op, ops, branch)->Ok_0, branch),
        spec_enc_22t(op, ops, branch)->Ok_0.len() == 4,
        spec_enc_22t(op, ops, branch)->Ok_0[0] == op,
{
    let bytes = spec_enc_22t(op, ops, branch)->Ok_0;
    let rel = branch_or(branch, tok_at(ops, 2))->Some_0;
    let u = (rel as i16) as u16;
    assert(bytes.subrange(2, 4) =~= le16(u));
    lemma_rd16_at(bytes, 2, u);
    lemma_bits_scasts(0, rel as i16, 0, 0);
    let sv = (rd16(bytes, 2) as i16) as int;
    assert(sv == rel);
    let x = bytes[1];
    lemma_bits_nibbles(x);
    let a = lo4(x);
    let b = hi4(x);
    let t0 = reg_text(a as nat);
    let t1 = reg_text(b as nat);
    let t2 = branch_text(sv);
    lemma_reg_tok(a as nat);
    lemma_reg_tok(b as nat);
    lemma_branch_tok(sv);
    lemma_split3(t0, t1, t2);
    let toks = seq![t0, t1, t2];
    assert(spec_operands_text(op, Format::F22t, kind, bytes) == Some(t0 + sep() + t1 + sep() + t2));
    assert(tok_or(toks, 0, seq![]) == t0);
    assert(tok_or(toks, 1, seq![]) == t1);
    assert(tok_at(toks, 2) == Some(t2));
    assert(spec_parse_reg(tok_or(toks, 0, seq![])) == Ok::<u16, Seq<char>>((a as nat) as u16));
    assert(spec_parse_reg(tok_or(toks, 1, seq![])) == Ok::<u16, Seq<char>>((b as nat) as u16));
    assert(branch_or(branch, tok_at(toks, 2)) == Some(rel));
    assert(spec_enc_22t(op, toks, branch) == Ok::<Seq<u8>, Seq<char>>(
        seq![op, (((a as nat) as u16) as u8) | ((((b as nat) as u16) as u8) << 4u8)] + le16(u),
    ));
    assert(seq![op, (((a as nat) as u16) as u8) | ((((b as nat) as u16) as u8) << 4u8)] + le16(u) =~= bytes);
}

#[verifier::spinoff_prover]
#[verifier::rlimit(40)]
proof fn lemma_rt_23x(op: u8, kind: RefKind, ops: Seq<Seq<char>>, branch: Option<i32>)
    requires
        spec_enc_23x(op, ops) is Ok,
    ensures
        reencodes(op, Format::F23x, kind, spec_enc_23x(op, ops)->Ok_0, branch),
        spec_enc_23x(op, ops)->Ok_0.len() == 4,
        spec_enc_23x(op, ops)->Ok_0[0] == op,
{
    let bytes = spec_enc_23x(op, ops)->Ok_0;
    let a = bytes[1];
    let b = bytes[2];
    let c = bytes[3];
    let t0 = reg_text(a as nat);
    let t1 = reg_text(b as nat);
    let t2 = reg_text(c as nat);
    lemma_reg_tok(a as nat);
    lemma_reg_tok(b as nat);
    lemma_reg_tok(c as nat);
    lemma_split3(t0, t1, t2);
    let toks = seq![t0, t1, t2];
    assert(spec_operands_text(op, Format::F23x, kind, bytes) == Some(t0 + sep() + t1 + sep() + t2));
    assert(tok_or(toks, 0, seq![]) == t0);
    assert(tok_or(toks, 1, seq![]) == t1);
    assert(tok_or(toks, 2, seq![]) == t2);
    assert(spec_parse_reg(tok_or(toks, 0, seq![])) == Ok::<u16, Seq<char>>((a as nat) as u16));
    assert(spec_parse_reg(tok_or(toks, 1, seq![])) == Ok::<u16, Seq<char>>((b as nat) as u16));
    assert(spec_parse_reg(tok_or(toks, 2, seq![])) == Ok::<u16, Seq<char>>((c as nat) as u16));
    assert(spec_enc_23x(op, toks) == Ok::<Seq<u8>, Seq<char>>(
        seq![op, ((a as nat) as u16) as u8, ((b as nat) as u16) as u8, ((c as nat) as u16) as u8],
    ));
    assert(seq![op, ((a as nat) as u16) as u8, ((b as nat) as u16) as u8, ((c as nat) as u16) as u8] =~= bytes);
}

#[verifier::spinoff_prover]
#[verifier::rlimit(40)]
proof fn lemma_rt_30t(op: u8, kind: RefKind, ops: Seq<Seq<char>>, branch: Option<i32>)
    requires
        spec_enc_30t(op, ops, branch) is Ok,
    ensures
        reencodes(op, Format::F30t, kind, spec_enc_30t(op, ops, branch)->Ok_0, branch),
        spec_enc_30t(op, ops, branch)->Ok_0.len() == 6,
        spec_enc_30t(op, ops, branch)->Ok_0[0] == op,
{
    let bytes = spec_enc_30t(op, ops, branch)->Ok_0;
    let rel = branch_or(branch, tok_at(ops, 0))->Some_0;
    let u = rel as u32;
    assert(bytes.subrange(2, 6) =~= le32(u));
    lemma_rd32_at(bytes, 2, u);
    lemma_bits_scasts(0, 0, rel, 0);
    let sv = (rd32(bytes, 2) as i32) as int;
    assert(sv == rel);
    let t0 = branch_text(sv);
    lemma_branch_tok(sv);
    lemma_split1(t0);
    let toks = seq![t0];
    assert(spec_operands_text(op, Format::F30t, kind, bytes) == Some(t0));
    assert(tok_at(toks, 0) == Some(t0));
    assert(branch_or(branch, tok_at(toks, 0)) == Some(rel));
    assert(spec_enc_30t(op, toks, branch) == Ok::<Seq<u8>, Seq<char>>(seq![op, 0u8] + le32(u)));
    assert(seq![op, 0u8] + le32(u) =~= bytes);
}

#[verifier::spinoff_prover]
#[verifier::rlimit(40)]
proof fn lemma_rt_31i(op: u8, kind: RefKind, ops: Seq<Seq<char>>, branch: Option<i32>)
    requires
        spec_enc_31i(op, ops) is Ok,
    ensures
        reencodes(op, Format::F31i, kind, spec_enc_31i(op, ops)->Ok_0, branch),
        spec_enc_31i(op, ops)->Ok_0.len() == 6,
        spec_enc_31i(op, ops)->Ok_0[0] == op,
{
    let bytes = spec_enc_31i(op, ops)->Ok_0;
    let lit = spec_parse_i64(tok_or(ops, 1, seq!['0']))->Ok_0;
    let u = (lit as i32) as u32;
    assert(bytes.subrange(2, 6) =~= le32(u));
    lemma_rd32_at(bytes, 2, u);
    lemma_bits_scasts(0, 0, lit as i32, 0);
    let sv = (rd32(bytes, 2) as i32) as int;
    assert(sv == (lit as i32) as int);
    let aa = bytes[1];
    let t0 = reg_text(aa as nat);
    let t1 = lit_text(sv);
    lemma_reg_tok(aa as nat);
    lemma_lit_tok(sv);
    lemma_split2(t0, t1);
    let toks = seq![t0, t1];
    assert(spec_operands_text(op, Format::F31i, kind, bytes) == Some(t0 + sep() + t1));
    assert(tok_or(toks, 0, seq![]) == t0);
    assert(tok_or(toks, 1, seq!['0']) == t1);
    assert(spec_parse_reg(tok_or(toks, 0, seq![])) == Ok::<u16, Seq<char>>((aa as nat) as u16));
    assert(spec_parse_i64(tok_or(toks, 1, seq!['0'])) == Ok::<i64, Seq<char>>(sv as i64));
    assert(((sv as i64) as i32) as u32 == u);
    assert(spec_enc_31i(op, toks) == Ok::<Seq<u8>, Seq<char>>(
        seq![op, ((aa as nat) as u16) as u8] + le32(u),
    ));
    assert(seq![op, ((aa as nat) as u16) as u8] + le32(u) =~= bytes);
}

#[verifier::spinoff_prover]
#[verifier::rlimit(40)]
proof fn lemma_rt_31t(op: u8, kind: RefKind, ops: Seq<Seq<char>>, branch: Option<i32>)
    requires
        spec_enc_31t(op, ops, branch) is Ok,
    ensures
        reencodes(op, Format::F31t, kind, spec_enc_31t(op, ops, branch)->Ok_0, branch),
        spec_enc_31t(op, ops, branch)->Ok_0.len() == 6,
        spec_enc_31t(op, ops, branch)->Ok_0[0] == op,
{
    let bytes = spec_enc_31t(op, ops, branch)->Ok_0;
    let rel = branch_or(branch, tok_at(ops, 1))->Some_0;
    let u = rel as u32;
    assert(bytes.subrange(2, 6) =~= le32(u));
    lemma_rd32_at(bytes, 2, u);
    lemma_bits_scasts(0, 0, rel, 0);
    let sv = (rd32(bytes, 2) as i32) as int;
    assert(sv == rel);
    let aa = bytes[1];
    let t0 = reg_text(aa as nat);
    let t1 = branch_text(sv);
    lemma_reg_tok(aa as nat);
    lemma_branch_tok(sv);
    lemma_split2(t0, t1);
    let toks = seq![t0, t1];
    assert(spec_operands_text(op, Format::F31t, kind, bytes) == Some(t0 + sep() + t1));
    assert(tok_or(toks, 0, seq![]) == t0);
    assert(tok_at(toks, 1) == Some(t1));
    assert(spec_parse_reg(tok_or(toks, 0, seq![])) == Ok::<u16, Seq<char>>((aa as nat) as u16));
    assert(branch_or(branch, tok_at(toks, 1)) == Some(rel));
    assert(spec_enc_31t(op, toks, branch) == Ok::<Seq<u8>, Seq<char>>(
        seq![op, ((aa as nat) as u16) as u8] + le32(u),
    ));
    assert(seq![op, ((aa as nat) as u16) as u8] + le32(u) =~= bytes);
}

#[verifier::spinoff_prover]
#[verifier::rlimit(40)]
proof fn lemma_rt_32x(op: u8, kind: RefKind, ops: Seq<Seq<char>>, branch: Option<i32>)
    requires
        spec_enc_32x(op, ops) is Ok,
    ensures
        reencodes(op, Format::F32x, kind, spec_enc_32x(op, ops)->Ok_0, branch),
        spec_enc_32x(op, ops)->Ok_0.len() == 6,
        spec_enc_32x(op, ops)->Ok_0[0] == op,
{
    let bytes = spec_enc_32x(op, ops)->Ok_0;
    let a = spec_parse_reg(tok_or(ops, 0, seq![]))->Ok_0;
    let b = spec_parse_reg(tok_or(ops, 1, seq![]))->Ok_0;
    assert(bytes.subrange(2, 4) =~= le16(a));
    assert(bytes.subrange(4, 6) =~= le16(b));
    lemma_rd16_at(bytes, 2, a);
    lemma_rd16_at(bytes, 4, b);
    let t0 = reg_text(a as nat);
    let t1 = reg_text(b as nat);
    lemma_reg_tok(a as nat);
    lemma_reg_tok(b as nat);
    lemma_split2(t0, t1);
    let toks = seq![t0, t1];
    assert(spec_operands_text(op, Format::F32x, kind, bytes) == Some(t0 + sep() + t1));
    assert(tok_or(toks, 0, seq![]) == t0);
    assert(tok_or(toks, 1, seq![]) == t1);
    assert(spec_parse_reg(tok_or(toks, 0, seq![])) == Ok::<u16, Seq<char>>(a));
    assert(spec_parse_reg(tok_or(toks, 1, seq![])) == Ok::<u16, Seq<char>>(b));
    assert(spec_enc_32x(op, toks) == Ok::<Seq<u8>, Seq<char>>(seq![op, 0u8] + le16(a) + le16(b)));
    assert(seq![op, 0u8] + le16(a) + le16(b) =~= bytes);
}

#[verifier::spinoff_prover]
#[verifier::rlimit(40)]
proof fn lemma_rt_51l(op: u8, kind: RefKind, ops: Seq<Seq<char>>, branch: Option<i32>)
    requires
        spec_enc_51l(op, ops) is Ok,
    ensures
        reencodes(op, Format::F51l, kind, spec_enc_51l(op, ops)->Ok_0, branch),
        spec_enc_51l(op, ops)->Ok_0.len() == 10,
        spec_enc_51l(op, ops)->Ok_0[0] == op,
{
    let bytes = spec_enc_51l(op, ops)->Ok_0;
    let lit = spec_parse_i64(tok_or(ops, 1, seq!['0']))->Ok_0;
    let u = lit as u64;
    assert(bytes.subrange(2, 10) =~= le64(u));
    lemma_rd64_at(bytes, 2, u);
    lemma_bits_scasts(0, 0, 0, lit);
    let sv = (rd64(bytes, 2) as i64) as int;
    assert(sv == lit);
    let aa = bytes[1];
    let t0 = reg_text(aa as nat);
    let t1 = lit_text(sv);
    lemma_reg_tok(aa as nat);
    lemma_lit_tok(sv);
    lemma_split2(t0, t1);
    let toks = seq![t0, t1];
    assert(spec_operands_text(op, Format::F51l, kind, bytes) == Some(t0 + sep() + t1));
    assert(tok_or(toks, 0, seq![]) == t0);
    assert(tok_or(toks, 1, seq!['0']) == t1);
    assert(spec_parse_reg(tok_or(toks, 0, seq![])) == Ok::<u16, Seq<char>>((aa as nat) as u16));
    assert(spec_parse_i64(tok_or(toks, 1, seq!['0'])) == Ok::<i64, Seq<char>>(lit));
    assert(spec_enc_51l(op, toks) == Ok::<Seq<u8>, Seq<char>>(
        seq![op, ((aa as nat) as u16) as u8] + le64(u),
    ));
    assert(seq![op, ((aa as nat) as u16) as u8] + le64(u) =~= bytes);
}

#[verifier::spinoff_prover]
#[verifier::rlimit(40)]
proof fn lemma_rt_40sc<R: EncodeResolve>(
    op: u8,
    kind: RefKind,
    ops: Seq<Seq<char>>,
    res: &R,
    branch: Option<i32>,
)
    requires
        spec_enc_40sc(op, kind, ops, res) is Ok,
    ensures
        reencodes(op, Format::F40sc, kind, spec_enc_40sc(op, kind, ops, res)->Ok_0, branch),
        spec_enc_40sc(op, kind, ops, res)->Ok_0.len() == 8,
        spec_enc_40sc(op, kind, ops, res)->Ok_0[0] == op,
{
    let bytes = spec_enc_40sc(op, kind, ops, res)->Ok_0;
    let aa = spec_parse_u32_literal(tok_or(ops, 0, seq!['0']))->Ok_0;
    let idx = spec_resolve_ref(res, kind, tok_or(ops, 1, seq![]))->Ok_0;
    let a16 = aa as u16;
    assert(bytes.subrange(2, 6) =~= le32(idx));
    assert(bytes.subrange(6, 8) =~= le16(a16));
    lemma_rd32_at(bytes, 2, idx);
    lemma_rd16_at(bytes, 6, a16);
    let t0 = dec_str(a16 as nat);
    let t1 = ref_text(kind, idx as nat);
    lemma_dec_tok(a16 as nat);
    lemma_ref_tok(kind, idx as nat);
    lemma_split2(t0, t1);
    let toks = seq![t0, t1];
    assert(spec_operands_text(op, Format::F40sc, kind, bytes) == Some(t0 + sep() + t1));
    assert(tok_or(toks, 0, seq!['0']) == t0);
    assert(tok_or(toks, 1, seq![]) == t1);
    assert(spec_parse_u32_literal(tok_or(toks, 0, seq!['0'])) == Ok::<u32, Seq<char>>((a16 as nat) as u32));
    assert(spec_resolve_ref(&IndexResolve, kind, tok_or(toks, 1, seq![])) == Ok::<u32, Seq<char>>(idx));
    assert(spec_enc_40sc(op, kind, toks, &IndexResolve) == Ok::<Seq<u8>, Seq<char>>(
        seq![op, 0u8] + le32(idx) + le16(((a16 as nat) as u32) as u16),
    ));
    assert(seq![op, 0u8] + le32(idx) + le16(((a16 as nat) as u32) as u16) =~= bytes);
}

#[verifier::spinoff_prover]
#[verifier::rlimit(40)]
proof fn lemma_rt_41c<R: EncodeResolve>(
    op: u8,
    kind: RefKind,
    ops: Seq<Seq<char>>,
    res: &R,
    branch: Option<i32>,
)
    requires
        spec_enc_41c(op, kind, ops, res) is Ok,
    ensures
        reencodes(op, Format::F41c, kind, spec_enc_41c(op, kind, ops, res)->Ok_0, branch),
        spec_enc_41c(op, kind, ops, res)->Ok_0.len() == 8,
        spec_enc_41c(op, kind, ops, res)->Ok_0[0] == op,
{
    let bytes = spec_enc_41c(op, kind, ops, res)->Ok_0;
    let aa = spec_parse_reg(tok_or(ops, 0, seq!['v', '0']))->Ok_0;
    let idx = spec_resolve_ref(res, kind, tok_or(ops, 1, seq![]))->Ok_0;
    assert(bytes.subrange(2, 6) =~= le32(idx));
    assert(bytes.subrange(6, 8) =~= le16(aa));
    lemma_rd32_at(bytes, 2, idx);
    lemma_rd16_at(bytes, 6, aa);
    let t0 = reg_text(aa as nat);
    let t1 = ref_text(kind, idx as nat);
    lemma_reg_tok(aa as nat);
    lemma_ref_tok(kind, idx as nat);
    lemma_split2(t0, t1);
    let toks = seq![t0, t1];
    assert(spec_operands_text(op, Format::F41c, kind, bytes) == Some(t0 + sep() + t1));
    assert(tok_or(toks, 0, seq!['v', '0']) == t0);
    assert(tok_or(toks, 1, seq![]) == t1);
    assert(spec_parse_reg(tok_or(toks, 0, seq!['v', '0'])) == Ok::<u16, Seq<char>>(aa));
    assert(spec_resolve_ref(&IndexResolve, kind, tok_or(toks, 1, seq![])) == Ok::<u32, Seq<char>>(idx));
    assert(spec_enc_41c(op, kind, toks, &IndexResolve) == Ok::<Seq<u8>, Seq<char>>(
        seq![op, 0u8] + le32(idx) + le16(aa),
    ));
    assert(seq![op, 0u8] + le32(idx) + le16(aa) =~= bytes);
}

#[verifier::spinoff_prover]
#[verifier::rlimit(40)]
proof fn lemma_rt_52c<R: EncodeResolve>(
    op: u8,
    kind: RefKind,
    ops: Seq<Seq<char>>,
    res: &R,
    branch: Option<i32>,
)
    requires
        spec_enc_52c(op, kind, ops, res) is Ok,
    ensures
        reencodes(op, Format::F52c, kind, spec_enc_52c(op, kind, ops, res)->Ok_0, branch),
        spec_enc_52c(op, kind, ops, res)->Ok_0.len() == 10,
        spec_enc_52c(op, kind, ops, res)->Ok_0[0] == op,
{
    let bytes = spec_enc_52c(op, kind, ops, res)->Ok_0;
    let a = spec_parse_reg(tok_or(ops, 0, seq!['v', '0']))->Ok_0;
    let b = spec_parse_reg(tok_or(ops, 1, seq!['v', '0']))->Ok_0;
    let idx = spec_resolve_ref(res, kind, tok_or(ops, 2, seq![]))->Ok_0;
    assert(bytes.subrange(2, 6) =~= le32(idx));
    assert(bytes.subrange(6, 8) =~= le16(a));
    assert(bytes.subrange(8, 10) =~= le16(b));
    lemma_rd32_at(bytes, 2, idx);
    lemma_rd16_at(bytes, 6, a);
    lemma_rd16_at(bytes, 8, b);
    let t0 = reg_text(a as nat);
    let t1 = reg_text(b as nat);
    let t2 = ref_text(kind, idx as nat);
    lemma_reg_tok(a as nat);
    lemma_reg_tok(b as nat);
    lemma_ref_tok(kind, idx as nat);
    lemma_split3(t0, t1, t2);
    let toks = seq![t0, t1, t2];
    assert(spec_operands_text(op, Format::F52c, kind, bytes) == Some(t0 + sep() + t1 + sep() + t2));
    assert(tok_or(toks, 0, seq!['v', '0']) == t0);
    assert(tok_or(toks, 1, seq!['v', '0']) == t1);
    assert(tok_or(toks, 2, seq![]) == t2);
    assert(spec_parse_reg(tok_or(toks, 0, seq!['v', '0'])) == Ok::<u16, Seq<char>>(a));
    assert(spec_parse_reg(tok_or(toks, 1, seq!['v', '0'])) == Ok::<u16, Seq<char>>(b));
    assert(spec_resolve_ref(&IndexResolve, kind, tok_or(toks, 2, seq![])) == Ok::<u32, Seq<char>>(idx));
    assert(spec_enc_52c(op, kind, toks, &IndexResolve) == Ok::<Seq<u8>, Seq<char>>(
        seq![op, 0u8] + le32(idx) + le16(a) + le16(b),
    ));
    assert(seq![op, 0u8] + le32(idx) + le16(a) + le16(b) =~= bytes);
}

pub(crate) proof fn lemma_find_seq_skip(s: Seq<char>, p: Seq<char>, i: int, j: int)
    requires
        0 <= i <= j,
        forall|k: int| i <= k < j ==> k + p.len() > s.len() || #[trigger] s.subrange(k, k + p.len()) != p,
    ensures
        find_seq_from(s, p, i) == find_seq_from(s, p, j),
    decreases j - i,
{
    if i < j {
        lemma_find_seq_skip(s, p, i + 1, j);
    }
}

proof fn lemma_reg_chars(n: nat)
    ensures
        forall|i: int| 0 <= i < reg_text(n).len() ==> #[trigger] reg_text(n)[i] == 'v' || is_digit(reg_text(n)[i]),
        reg_text(n)[0] == 'v',
        is_digit(reg_text(n).last()),
{
    lemma_dec_str(n);
    let t = reg_text(n);
    assert forall|i: int| 0 <= i < t.len() implies #[trigger] t[i] == 'v' || is_digit(t[i]) by {
        if i > 0 {
            assert(t[i] == dec_str(n)[i - 1]);
        }
    }
    assert(is_digit(t[t.len() - 1]));
}

proof fn lemma_trim_trailing_space(t: Seq<char>)
    requires
        plain(t),
    ensures
        trim(t + seq![' ']) == t,
{
    let u = t + seq![' '];
    assert(trim_start(u) == u);
    assert(u.drop_last() =~= t);
    assert(trim_end(u) == trim_end(t));
    lemma_trim_plain(t);
}

proof fn lemma_span(st: u16, c: nat)
    requires
        c <= 255,
    ensures
        span_count(st, ((st + c - 1) % 0x10000) as u16) == c as u8,
{
    let e = ((st + c - 1) % 0x10000) as u16;
    if st + c - 1 < 0 {
        assert(e == 0xffff);
    } else if st + c - 1 < 0x10000 {
        assert(e == st + c - 1);
    } else {
        assert(e == st + c - 1 - 0x10000);
    }
    assert((e + 0x10000 - st + 1) % 0x100 == c);
}

/// The text of a register range.
proof fn lemma_range_tok(st: u16, c: nat)
    requires
        c <= 255,
    ensures
        passable(range_text(st, c)),
        plain(range_text(st, c)),
        spec_parse_reg_range(range_text(st, c)) == Ok::<(u16, u8), Seq<char>>((st, c as u8)),
        forall|i: int| 0 <= i < range_text(st, c).len() ==> #[trigger] range_text(st, c)[i] != ',',
{
    let e = ((st + c - 1) % 0x10000) as nat;
    let r = reg_text(st as nat);
    let en = reg_text(e);
    let mid = seq![' ', '.', '.', ' '];
    let rt = range_text(st, c);
    assert(rt == r + mid + en);
    lemma_reg_chars(st as nat);
    lemma_reg_chars(e);
    let rl = r.len() as int;
    assert forall|i: int| 0 <= i < rt.len() implies (#[trigger] rt[i] == 'v' || is_digit(rt[i]) || (
    rl <= i < rl + 4 && rt[i] == mid[i - rl])) by {
        if i < rl {
            assert(rt[i] == r[i]);
        } else if i >= rl + 4 {
            assert(rt[i] == en[i - rl - 4]);
        }
    }
    assert(rt[0] == 'v');
    assert(rt.last() == en.last());
    assert(plain(rt));
    assert(no_special(rt));
    reveal(passable);
    lemma_trim_plain(rt);
    let d3 = seq!['.', '.', '.'];
    let d2 = seq!['.', '.'];
    assert forall|k: int| 0 <= k < rt.len() + 1 implies k + d3.len() > rt.len() || #[trigger] rt.subrange(k, k + d3.len()) != d3 by {
        if k + 3 <= rt.len() {
            if k < rl || k > rl + 3 {
                assert(rt.subrange(k, k + 3)[0] == rt[k]);
            } else if k == rl || k == rl + 3 {
                assert(rt.subrange(k, k + 3)[0] == rt[k]);
            } else if k == rl + 1 {
                assert(rt.subrange(k, k + 3)[2] == rt[k + 2]);
            } else {
                assert(rt.subrange(k, k + 3)[1] == rt[k + 1]);
            }
        }
    }
    lemma_find_seq_skip(rt, d3, 0, (rt.len() + 1) as int);
    assert(split_once_seq(rt, d3) is None);
    assert forall|k: int| 0 <= k < rl + 1 implies k + d2.len() > rt.len() || #[trigger] rt.subrange(k, k + d2.len()) != d2 by {
        assert(rt.subrange(k, k + 2)[0] == rt[k]);
    }
    lemma_find_seq_skip(rt, d2, 0, rl + 1);
    assert(rt.subrange(rl + 1, rl + 3) =~= d2);
    assert(find_seq_from(rt, d2, rl + 1) == Some(rl + 1));
    assert(rt.subrange(0, rl + 1) =~= r + seq![' ']);
    assert(rt.subrange(rl + 3, rt.len() as int) =~= seq![' '] + en);
    lemma_reg_tok(st as nat);
    lemma_reg_tok(e);
    lemma_parse_reg_text(st as nat);
    lemma_parse_reg_text(e);
    lemma_trim_trailing_space(r);
    lemma_trim_plain(en);
    lemma_span(st, c);
    assert(spec_reg_span(rt) == Ok::<(u16, u8), Seq<char>>((st, span_count(st, e as u16))));
}

proof fn lemma_3rc_span2(t0: Seq<char>, t1: Seq<char>, start: u16, count: u8)
    requires
        spec_parse_reg_range(t0) == Ok::<(u16, u8), Seq<char>>((start, count)),
    ensures
        spec_3rc_span(seq![t0, t1]) == Ok::<(u16, u8, Seq<char>), Seq<char>>((start, count, t1)),
{
    let toks = seq![t0, t1];
    assert(toks.subrange(0, 1) =~= seq![t0]);
    assert(join(seq![t0], seq![' ']) == t0);
}

#[verifier::spinoff_prover]
#[verifier::rlimit(40)]
proof fn lemma_rt_3rc<R: EncodeResolve>(
    op: u8,
    kind: RefKind,
    ops: Seq<Seq<char>>,
    res: &R,
    branch: Option<i32>,
    fmt: Format,
)
    requires
        fmt == Format::F3rc || fmt == Format::F3rmi || fmt == Format::F3rms,
        spec_enc_3rc(op, kind, ops, res) is Ok,
    ensures
        reencodes(op, fmt, kind, spec_enc_3rc(op, kind, ops, res)->Ok_0, branch),
        spec_enc_3rc(op, kind, ops, res)->Ok_0.len() == 6,
        spec_enc_3rc(op, kind, ops, res)->Ok_0[0] == op,
{
    let bytes = spec_enc_3rc(op, kind, ops, res)->Ok_0;
    let span = spec_3rc_span(ops)->Ok_0;
    let start = span.0;
    let count = span.1;
    let idx = spec_resolve_ref(res, kind, span.2)->Ok_0;
    let i16v = idx as u16;
    assert(bytes =~= seq![op, count] + le16(i16v) + le16(start));
    assert(bytes.subrange(2, 4) =~= le16(i16v));
    assert(bytes.subrange(4, 6) =~= le16(start));
    lemma_rd16_at(bytes, 2, i16v);
    lemma_rd16_at(bytes, 4, start);
    let t0 = range_text(start, count as nat);
    let t1 = ref_text(kind, i16v as nat);
    lemma_range_tok(start, count as nat);
    lemma_ref_tok(kind, i16v as nat);
    lemma_split2(t0, t1);
    let toks = seq![t0, t1];
    assert(spec_operands_text(op, fmt, kind, bytes) == Some(t0 + sep() + t1));
    lemma_3rc_span2(t0, t1, start, count);
    assert(spec_resolve_ref(&IndexResolve, kind, t1) == Ok::<u32, Seq<char>>((i16v as nat) as u32));
    assert(spec_enc_3rc(op, kind, toks, &IndexResolve) == Ok::<Seq<u8>, Seq<char>>(
        seq![op, count] + le16(i16v) + le16(start),
    ));
}

/// The register texts of a list of registers.
spec fn reg_texts(l: Seq<nat>) -> Seq<Seq<char>> {
    l.map_values(|n: nat| reg_text(n))
}

proof fn lemma_regs_text_join(l: Seq<nat>)
    ensures
        regs_text(l) == join(reg_texts(l), sep()),
    decreases l.len(),
{
    if l.len() >= 2 {
        lemma_regs_text_join(l.drop_last());
        assert(reg_texts(l).drop_last() =~= reg_texts(l.drop_last()));
    } else if l.len() == 1 {
        assert(reg_texts(l).len() == 1);
    } else {
        assert(reg_texts(l).len() == 0);
    }
}

proof fn lemma_parse_reg_texts(l: Seq<nat>)
    requires
        forall|k: int| 0 <= k < l.len() ==> #[trigger] l[k] <= 0xffff,
    ensures
        spec_parse_regs(reg_texts(l)) == Ok::<Seq<u16>, Seq<char>>(l.map_values(|n: nat| n as u16)),
    decreases l.len(),
{
    if l.len() > 0 {
        lemma_parse_reg_texts(l.drop_last());
        assert(reg_texts(l).drop_last() =~= reg_texts(l.drop_last()));
        lemma_parse_reg_text(l.last());
        assert(reg_texts(l).last() == reg_text(l.last()));
        assert(l.drop_last().map_values(|n: nat| n as u16).push(l.last() as u16) =~= l.map_values(
            |n: nat| n as u16,
        ));
    } else {
        assert(l.map_values(|n: nat| n as u16) =~= Seq::<u16>::empty());
    }
}

proof fn lemma_pack_eq(op: u8, a: Seq<u16>, b: Seq<u16>, idx: u16)
    requires
        a.len() == b.len(),
        forall|k: int| 0 <= k < 5 ==> ((reg_or0(a, k) as u8) & 0x0f) == #[trigger] ((reg_or0(b, k) as u8) & 0x0f),
    ensures
        pack_35c(op, a, idx) == pack_35c(op, b, idx),
{
    assert(((reg_or0(a, 0) as u8) & 0x0f) == ((reg_or0(b, 0) as u8) & 0x0f));
    assert(((reg_or0(a, 1) as u8) & 0x0f) == ((reg_or0(b, 1) as u8) & 0x0f));
    assert(((reg_or0(a, 2) as u8) & 0x0f) == ((reg_or0(b, 2) as u8) & 0x0f));
    assert(((reg_or0(a, 3) as u8) & 0x0f) == ((reg_or0(b, 3) as u8) & 0x0f));
    assert(((reg_or0(a, 4) as u8) & 0x0f) == ((reg_or0(b, 4) as u8) & 0x0f));
}

/// The registers decoded from a 35c-style layout are the encoded ones, cut to four bits.
proof fn lemma_decode_pack(op: u8, regs: Seq<u16>, idx: u16)
    requires
        regs.len() <= 5,
    ensures
        ({
            let bytes = pack_35c(op, regs, idx);
            let l = regs_35c(bytes);
            &&& bytes.len() == 6
            &&& bytes[0] == op
            &&& hi4(bytes[1]) == regs.len()
            &&& bytes.subrange(2, 4) == le16(idx)
            &&& l.len() == regs.len()
            &&& forall|k: int| 0 <= k < l.len() ==> #[trigger] l[k] == ((regs[k] as u8) & 0x0f) as nat
            &&& forall|k: int| 0 <= k < l.len() ==> #[trigger] l[k] <= 0xffff
            &&& pack_35c(op, l.map_values(|n: nat| n as u16), idx) == bytes
        }),
{
    let bytes = pack_35c(op, regs, idx);
    let a = regs.len() as u8;
    let g = reg_or0(regs, 4) as u8;
    let c = reg_or0(regs, 0) as u8;
    let d = reg_or0(regs, 1) as u8;
    let e = reg_or0(regs, 2) as u8;
    let f = reg_or0(regs, 3) as u8;
    lemma_bits_count(a, g);
    lemma_bits_pack(c, d);
    lemma_bits_pack(e, f);
    assert(bytes[1] == (a << 4u8) | (g & 0x0f));
    assert(bytes[4] == (c & 0x0f) | ((d & 0x0f) << 4u8));
    assert(bytes[5] == (e & 0x0f) | ((f & 0x0f) << 4u8));
    assert(bytes.subrange(2, 4) =~= le16(idx));
    let l = regs_35c(bytes);
    let m = seq![(c & 0x0f) as nat, (d & 0x0f) as nat, (e & 0x0f) as nat, (f & 0x0f) as nat, (g & 0x0f) as nat];
    assert(l =~= m.take(regs.len() as int));
    let r2 = l.map_values(|n: nat| n as u16);
    assert forall|k: int| 0 <= k < 5 implies ((reg_or0(regs, k) as u8) & 0x0f) == #[trigger] ((reg_or0(r2, k) as u8) & 0x0f) by {
        let x = reg_or0(regs, k) as u8;
        lemma_bits_nibbles(x);
        if k < regs.len() {
            assert(r2[k] == (x & 0x0f) as u16);
        }
    }
    lemma_pack_eq(op, regs, r2, idx);
}

/// The tokens of a register list followed by one more token.
proof fn lemma_split_regs_then(l: Seq<nat>, t: Seq<char>)
    requires
        l.len() >= 1,
        forall|k: int| 0 <= k < l.len() ==> #[trigger] l[k] <= 0xffff,
        passable(t),
    ensures
        spec_split_operands(regs_text(l) + sep() + t) == reg_texts(l).push(t),
        reg_texts(l).push(t).subrange(0, l.len() as int) == reg_texts(l),
{
    let x = reg_texts(l);
    lemma_regs_text_join(l);
    assert(x.push(t).drop_last() =~= x);
    assert(join(x.push(t), sep()) == join(x, sep()) + sep() + t);
    assert forall|k: int| 0 <= k < x.push(t).len() implies passable(#[trigger] x.push(t)[k]) by {
        if k < l.len() {
            lemma_reg_tok(l[k]);
            assert(x.push(t)[k] == reg_text(l[k]));
        }
    }
    lemma_split_operands_join(x.push(t));
    assert(x.push(t).subrange(0, l.len() as int) =~= x);
}

#[verifier::spinoff_prover]
#[verifier::rlimit(40)]
proof fn lemma_rt_35c<R: EncodeResolve>(
    op: u8,
    kind: RefKind,
    ops: Seq<Seq<char>>,
    res: &R,
    branch: Option<i32>,
    fmt: Format,
)
    requires
        fmt == Format::F35c || fmt == Format::F35mi || fmt == Format::F35ms,
        spec_enc_35c(op, kind, ops, res) is Ok,
    ensures
        reencodes(op, fmt, kind, spec_enc_35c(op, kind, ops, res)->Ok_0, branch),
        spec_enc_35c(op, kind, ops, res)->Ok_0.len() == 6,
        spec_enc_35c(op, kind, ops, res)->Ok_0[0] == op,
{
    let bytes = spec_enc_35c(op, kind, ops, res)->Ok_0;
    let pr = spec_35c_regs(ops)->Ok_0;
    let regs = pr.0;
    let idx = spec_resolve_ref(res, kind, pr.1)->Ok_0;
    let i16v = idx as u16;
    assert(bytes == pack_35c(op, regs, i16v));
    lemma_decode_pack(op, regs, i16v);
    lemma_rd16_at(bytes, 2, i16v);
    let l = regs_35c(bytes);
    let r2 = l.map_values(|n: nat| n as u16);
    let t1 = ref_text(kind, i16v as nat);
    lemma_ref_tok(kind, i16v as nat);
    lemma_resolve_ref_text(kind, i16v as nat);
    if l.len() == 0 {
        lemma_split1(t1);
        let toks = seq![t1];
        assert(spec_operands_text(op, fmt, kind, bytes) == Some(t1));
        assert(toks.subrange(0, 0) =~= Seq::<Seq<char>>::empty());
        assert(r2 =~= Seq::<u16>::empty());
        assert(spec_35c_regs(toks) == Ok::<(Seq<u16>, Seq<char>), Seq<char>>((r2, t1)));
    } else {
        lemma_split_regs_then(l, t1);
        let toks = reg_texts(l).push(t1);
        assert(spec_operands_text(op, fmt, kind, bytes) == Some(regs_text(l) + sep() + t1));
        lemma_parse_reg_texts(l);
        lemma_reg_chars(l[0]);
        assert(toks[0] == reg_text(l[0]));
        assert(toks[toks.len() - 1] == t1);
        assert(spec_35c_regs(toks) == Ok::<(Seq<u16>, Seq<char>), Seq<char>>((r2, t1)));
    }
    assert(spec_resolve_ref(&IndexResolve, kind, t1) == Ok::<u32, Seq<char>>((i16v as nat) as u32));
}

proof fn lemma_find_char_skip(s: Seq<char>, c: char, i: int, j: int)
    requires
        0 <= i <= j <= s.len(),
        forall|k: int| i <= k < j ==> #[trigger] s[k] != c,
    ensures
        find_char_from(s, c, i) == find_char_from(s, c, j),
    decreases j - i,
{
    if i < j {
        lemma_find_char_skip(s, c, i + 1, j);
    }
}

proof fn lemma_rfind_none(s: Seq<char>, c: char, i: int)
    requires
        0 <= i <= s.len(),
        forall|k: int| 0 <= k < i ==> #[trigger] s[k] != c,
    ensures
        rfind_char_before(s, c, i) is None,
    decreases i,
{
    if i > 0 {
        lemma_rfind_none(s, c, i - 1);
    }
}

proof fn lemma_ws_end_skip(s: Seq<char>, i: int, j: int)
    requires
        0 <= i <= j <= s.len(),
        forall|k: int| i <= k < j ==> !is_ws(#[trigger] s[k]),
    ensures
        ws_end_from(s, i) == ws_end_from(s, j),
    decreases j - i,
{
    if i < j {
        lemma_ws_end_skip(s, i + 1, j);
    }
}

/// Words: non-empty text without whitespace or commas.
spec fn nows(t: Seq<char>) -> bool {
    t.len() > 0 && forall|i: int| 0 <= i < t.len() ==> !is_ws(#[trigger] t[i]) && t[i] != ','
}

proof fn lemma_split_ws_join(s: Seq<char>, words: Seq<Seq<char>>)
    requires
        words.len() >= 1,
        forall|k: int| 0 <= k < words.len() ==> nows(#[trigger] words[k]),
        s == join(words, seq![' ']) || s == seq![' '] + join(words, seq![' ']),
    ensures
        split_ws(s) == words,
    decreases words.len(),
{
    let j = join(words, seq![' ']);
    let w0 = words[0];
    assert(nows(words[0]));
    if s == seq![' '] + j {
        assert(s.drop_first() =~= j);
        assert(trim_start(s) == trim_start(j));
    }
    assert(split_ws(s) == split_ws(j));
    if words.len() == 1 {
        assert(j == w0);
        assert(trim_start(j) == j);
        lemma_ws_end_skip(j, 0, j.len() as int);
        assert(j.subrange(j.len() as int, j.len() as int) =~= Seq::<char>::empty());
        assert(split_ws(Seq::<char>::empty()) == Seq::<Seq<char>>::empty());
        assert(j.subrange(0, j.len() as int) =~= w0);
        assert(split_ws(j) =~= words);
    } else {
        lemma_join_front(words, seq![' ']);
        let rest = words.drop_first();
        let jr = join(rest, seq![' ']);
        assert(j =~= w0 + seq![' '] + jr);
        assert(j[0] == w0[0]);
        assert(trim_start(j) == j);
        assert forall|k: int| 0 <= k < w0.len() implies !is_ws(#[trigger] j[k]) by {
            assert(j[k] == w0[k]);
        }
        lemma_ws_end_skip(j, 0, w0.len() as int);
        assert(j[w0.len() as int] == ' ');
        assert(ws_end_from(j, w0.len() as int) == w0.len());
        assert(j.subrange(0, w0.len() as int) =~= w0);
        assert(j.subrange(w0.len() as int, j.len() as int) =~= seq![' '] + jr);
        assert forall|k: int| 0 <= k < rest.len() implies nows(#[trigger] rest[k]) by {
            assert(rest[k] == words[k + 1]);
        }
        lemma_split_ws_join(seq![' '] + jr, rest);
        assert(split_ws(j) =~= words);
    }
}

proof fn lemma_split_char_join(s: Seq<char>, lead: Seq<char>, words: Seq<Seq<char>>)
    requires
        words.len() >= 1,
        forall|k: int| 0 <= k < words.len() ==> nows(#[trigger] words[k]),
        lead == Seq::<char>::empty() || lead == seq![' '],
        s == lead + join(words, sep()),
    ensures
        split_char(s, ',').map_values(|t: Seq<char>| trim(t)) == words,
    decreases words.len(),
{
    let w0 = words[0];
    assert(nows(words[0]));
    assert(plain(w0)) by {
        assert(!is_ws(w0[0]));
        assert(!is_ws(w0[w0.len() - 1]));
    }
    let p: int = (lead.len() + w0.len()) as int;
    if words.len() == 1 {
        assert(s =~= lead + w0);
        assert forall|k: int| 0 <= k < s.len() implies #[trigger] s[k] != ',' by {
            if k >= lead.len() {
                assert(s[k] == w0[k - lead.len()]);
            }
        }
        lemma_find_char_skip(s, ',', 0, s.len() as int);
        assert(split_char(s, ',') == seq![s]);
        lemma_trim_plain(w0);
        assert(split_char(s, ',').map_values(|t: Seq<char>| trim(t)) =~= words);
    } else {
        lemma_join_front(words, sep());
        let rest = words.drop_first();
        let jr = join(rest, sep());
        assert(s =~= lead + w0 + sep() + jr);
        assert forall|k: int| 0 <= k < p implies #[trigger] s[k] != ',' by {
            if k >= lead.len() {
                assert(s[k] == w0[k - lead.len()]);
            }
        }
        lemma_find_char_skip(s, ',', 0, p as int);
        assert(s[p as int] == ',');
        assert(find_char(s, ',') == Some(p as int));
        let s2 = s.subrange(p + 1, s.len() as int);
        assert(s2 =~= seq![' '] + jr);
        assert(s.subrange(0, p as int) =~= lead + w0);
        assert forall|k: int| 0 <= k < rest.len() implies nows(#[trigger] rest[k]) by {
            assert(rest[k] == words[k + 1]);
        }
        lemma_split_char_join(s2, seq![' '], rest);
        lemma_trim_plain(w0);
        let piece = s.subrange(0, p as int);
        let sp = split_char(s2, ',');
        assert(split_char(s, ',') == seq![piece] + sp);
        assert((seq![piece] + sp).map_values(|t: Seq<char>| trim(t)) =~= seq![trim(piece)] + sp.map_values(
            |t: Seq<char>| trim(t),
        ));
        assert(words =~= seq![w0] + rest);
        assert(split_char(s, ',').map_values(|t: Seq<char>| trim(t)) =~= words);
    }
}

proof fn lemma_index_resolve_text(kind: RefKind, n: nat)
    requires
        n <= 0xffff_ffff,
        kind != RefKind::NoRef,
        kind != RefKind::Varies,
    ensures
        (&IndexResolve).spec_resolve(kind, ref_text(kind, n)) == Ok::<u32, Seq<char>>(n as u32),
        nows(ref_text(kind, n)),
{
    lemma_resolve_ref_text(kind, n);
    let t = ref_text(kind, n);
    lemma_trim_plain(t);
    lemma_dec_plain(n);
    assert(t.last() == dec_str(n).last());
    lemma_trim_end_char_keep(t, ',');
}

proof fn lemma_join_no_comma(words: Seq<Seq<char>>)
    requires
        forall|k: int| 0 <= k < words.len() ==> nows(#[trigger] words[k]),
    ensures
        forall|i: int| 0 <= i < join(words, seq![' ']).len() ==> #[trigger] join(words, seq![' '])[i] != ',',
    decreases words.len(),
{
    if words.len() >= 2 {
        lemma_join_no_comma(words.drop_last());
        let a = join(words.drop_last(), seq![' ']);
        let b = words.last();
        assert(nows(words[words.len() - 1]));
        let j = join(words, seq![' ']);
        assert(j == a + seq![' '] + b);
        assert forall|i: int| 0 <= i < j.len() implies #[trigger] j[i] != ',' by {
            if i < a.len() {
                assert(j[i] == a[i]);
            } else if i > a.len() {
                assert(j[i] == b[i - a.len() - 1]);
            }
        }
    } else if words.len() == 1 {
        assert(nows(words[0]));
    }
}

proof fn lemma_reg_nows(n: nat)
    ensures
        nows(reg_text(n)),
{
    lemma_reg_word(n);
}

#[verifier::spinoff_prover]
#[verifier::rlimit(40)]
proof fn lemma_rt_4rcc<R: EncodeResolve>(op: u8, kind: RefKind, ops: Seq<Seq<char>>, res: &R, branch: Option<i32>)
    requires
        spec_enc_4rcc(op, ops, res) is Ok,
    ensures
        reencodes(op, Format::F4rcc, kind, spec_enc_4rcc(op, ops, res)->Ok_0, branch),
        spec_enc_4rcc(op, ops, res)->Ok_0.len() == 8,
        spec_enc_4rcc(op, ops, res)->Ok_0[0] == op,
{
    let bytes = spec_enc_4rcc(op, ops, res)->Ok_0;
    let q = spec_parse_4rcc(join(ops, seq![' ']))->Ok_0;
    let start = q.0;
    let count = q.1;
    let m = res.spec_resolve(RefKind::Method, q.2)->Ok_0;
    let pp = res.spec_resolve(RefKind::MethodProto, q.3)->Ok_0;
    let m16 = m as u16;
    let p16 = pp as u16;
    assert(bytes =~= seq![op, count] + le16(m16) + le16(start) + le16(p16));
    assert(bytes.subrange(2, 4) =~= le16(m16));
    assert(bytes.subrange(4, 6) =~= le16(start));
    assert(bytes.subrange(6, 8) =~= le16(p16));
    lemma_rd16_at(bytes, 2, m16);
    lemma_rd16_at(bytes, 4, start);
    lemma_rd16_at(bytes, 6, p16);
    let t0 = range_text(start, count as nat);
    let t1 = ref_text(RefKind::Method, m16 as nat);
    let t2 = ref_text(RefKind::MethodProto, p16 as nat);
    lemma_range_tok(start, count as nat);
    lemma_ref_tok(RefKind::Method, m16 as nat);
    lemma_ref_tok(RefKind::MethodProto, p16 as nat);
    lemma_index_resolve_text(RefKind::Method, m16 as nat);
    lemma_index_resolve_text(RefKind::MethodProto, p16 as nat);
    lemma_split3(t0, t1, t2);
    let toks = seq![t0, t1, t2];
    assert(spec_operands_text(op, Format::F4rcc, kind, bytes) == Some(t0 + sep() + t1 + sep() + t2));
    let e = ((start + count - 1) % 0x10000) as nat;
    let r = reg_text(start as nat);
    let en = reg_text(e);
    let dd = seq!['.', '.'];
    lemma_reg_nows(start as nat);
    lemma_reg_nows(e);
    let words = seq![r, dd, en, t1, t2];
    assert forall|k: int| 0 <= k < words.len() implies nows(#[trigger] words[k]) by {
        if k == 1 {
            assert(nows(dd));
        }
    }
    lemma_join3(t0, t1, t2, seq![' ']);
    lemma_join4(r, dd, en, t1, seq![' ']);
    assert(words.drop_last() =~= seq![r, dd, en, t1]);
    let joined = join(toks, seq![' ']);
    assert(t0 =~= r + seq![' '] + dd + seq![' '] + en);
    assert(joined =~= join(words, seq![' ']));
    lemma_join_no_comma(words);
    lemma_rfind_none(joined, ',', joined.len() as int);
    assert(rsplit_once_char(joined, ',') is None);
    assert(joined[0] == r[0]);
    assert(joined.last() == t2.last());
    lemma_trim_plain(joined);
    lemma_split_ws_join(joined, words);
    assert(words.subrange(0, 3) =~= seq![r, dd, en]);
    lemma_join3(r, dd, en, seq![' ']);
    assert(spec_parse_4rcc(joined) == Ok::<(u16, u8, Seq<char>, Seq<char>), Seq<char>>((start, count, t1, t2)));
    assert(spec_enc_4rcc(op, toks, &IndexResolve) == Ok::<Seq<u8>, Seq<char>>(
        seq![op, count] + le16(m16) + le16(start) + le16(p16),
    ));
}

proof fn lemma_regs_text_chars(l: Seq<nat>)
    ensures
        forall|i: int|
            0 <= i < regs_text(l).len() ==> #[trigger] regs_text(l)[i] != '"' && regs_text(l)[i] != '{'
                && regs_text(l)[i] != '}',
        l.len() > 0 ==> regs_text(l)[0] == 'v' && is_digit(regs_text(l).last()),
    decreases l.len(),
{
    if l.len() == 1 {
        lemma_reg_chars(l[0]);
        let t = reg_text(l[0]);
        assert forall|i: int| 0 <= i < t.len() implies #[trigger] t[i] != '"' && t[i] != '{' && t[i] != '}' by {
            assert(t[i] == 'v' || is_digit(t[i]));
        }
    } else if l.len() >= 2 {
        lemma_regs_text_chars(l.drop_last());
        let a = regs_text(l.drop_last());
        let b = reg_text(l.last());
        lemma_reg_chars(l.last());
        let t = regs_text(l);
        assert(t == a + sep() + b);
        assert forall|i: int| 0 <= i < t.len() implies #[trigger] t[i] != '"' && t[i] != '{' && t[i] != '}' by {
            if i < a.len() {
                assert(t[i] == a[i]);
            } else if i >= a.len() + 2 {
                assert(t[i] == b[i - a.len() - 2]);
                assert(b[i - a.len() - 2] == 'v' || is_digit(b[i - a.len() - 2]));
            }
        }
        assert(t[0] == a[0]);
        assert(t.last() == b.last());
    }
}

pub(crate) proof fn lemma_parse_braced_list(l: Seq<nat>)
    requires
        forall|k: int| 0 <= k < l.len() ==> #[trigger] l[k] <= 0xffff,
    ensures
        spec_parse_reg_list(seq!['{'] + regs_text(l) + seq!['}']) == Ok::<Seq<u16>, Seq<char>>(
            l.map_values(|n: nat| n as u16),
        ),
        braced_tok(seq!['{'] + regs_text(l) + seq!['}']),
{
    let rt = regs_text(l);
    let b = seq!['{'] + rt + seq!['}'];
    lemma_regs_text_chars(l);
    assert forall|i: int| 1 <= i < b.len() - 1 implies #[trigger] b[i] != '"' && b[i] != '{' && b[i] != '}' by {
        assert(b[i] == rt[i - 1]);
    }
    assert(plain(b));
    lemma_trim_plain(b);
    assert(b.drop_first() =~= rt + seq!['}']);
    let c = rt + seq!['}'];
    assert(c.len() > 0);
    if rt.len() > 0 {
        assert(c[0] == rt[0]);
    } else {
        assert(c[0] == '}');
    }
    assert(c[0] != '{');
    assert(b.len() > 0 && b[0] == '{');
    assert(trim_start_char(c, '{') == c);
    assert(trim_start_char(b, '{') == trim_start_char(b.drop_first(), '{'));
    assert(trim_start_char(b, '{') == c);
    assert(c.drop_last() =~= rt);
    assert(c.last() == '}');
    assert(trim_end_char(c, '}') == trim_end_char(c.drop_last(), '}'));
    if l.len() == 0 {
        assert(rt.len() == 0);
        lemma_trim_end_char_keep(rt, '}');
        assert(trim_end_char(c, '}') == rt);
        assert(l.map_values(|n: nat| n as u16) =~= Seq::<u16>::empty());
    } else {
        assert(rt.last() != '}');
        lemma_trim_end_char_keep(rt, '}');
        assert(trim_end_char(c, '}') == rt);
        lemma_regs_text_join(l);
        assert forall|k: int| 0 <= k < reg_texts(l).len() implies nows(#[trigger] reg_texts(l)[k]) by {
            lemma_reg_nows(l[k]);
        }
        lemma_split_char_join(rt, Seq::<char>::empty(), reg_texts(l));
        assert(Seq::<char>::empty() + rt =~= rt);
        lemma_parse_reg_texts(l);
    }
}

#[verifier::spinoff_prover]
#[verifier::rlimit(40)]
proof fn lemma_rt_45cc_regs<R: EncodeResolve>(
    op: u8,
    regs: Seq<u16>,
    mt: Seq<char>,
    pt: Seq<char>,
    res: &R,
    kind: RefKind,
    branch: Option<i32>,
)
    requires
        spec_45cc_regs(op, regs, mt, pt, res) is Ok,
    ensures
        reencodes(op, Format::F45cc, kind, spec_45cc_regs(op, regs, mt, pt, res)->Ok_0, branch),
        spec_45cc_regs(op, regs, mt, pt, res)->Ok_0.len() == 8,
        spec_45cc_regs(op, regs, mt, pt, res)->Ok_0[0] == op,
{
    let bytes = spec_45cc_regs(op, regs, mt, pt, res)->Ok_0;
    let m = res.spec_resolve(RefKind::Method, mt)->Ok_0;
    let pp = res.spec_resolve(RefKind::MethodProto, pt)->Ok_0;
    let m16 = m as u16;
    let p16 = pp as u16;
    let pk = pack_35c(op, regs, m16);
    assert(bytes == pk + le16(p16));
    lemma_decode_pack(op, regs, m16);
    assert(bytes.subrange(2, 4) =~= pk.subrange(2, 4));
    assert(bytes.subrange(6, 8) =~= le16(p16));
    lemma_rd16_at(bytes, 2, m16);
    lemma_rd16_at(bytes, 6, p16);
    assert(regs_35c(bytes) =~= regs_35c(pk));
    let l = regs_35c(bytes);
    let b = seq!['{'] + regs_text(l) + seq!['}'];
    let mm = ref_text(RefKind::Method, m16 as nat);
    let ppt = ref_text(RefKind::MethodProto, p16 as nat);
    lemma_parse_braced_list(l);
    lemma_ref_tok(RefKind::Method, m16 as nat);
    lemma_ref_tok(RefKind::MethodProto, p16 as nat);
    lemma_index_resolve_text(RefKind::Method, m16 as nat);
    lemma_index_resolve_text(RefKind::MethodProto, p16 as nat);
    assert(passable(b)) by {
        reveal(passable);
    }
    lemma_split3(b, mm, ppt);
    let toks = seq![b, mm, ppt];
    assert(spec_operands_text(op, Format::F45cc, kind, bytes) == Some(b + sep() + mm + sep() + ppt));
    lemma_join3(b, mm, ppt, seq![' ']);
    let joined = join(toks, seq![' ']);
    assert(joined == b + seq![' '] + mm + seq![' '] + ppt);
    assert forall|k: int| 0 <= k < b.len() - 1 implies #[trigger] joined[k] != '}' by {
        assert(joined[k] == b[k]);
    }
    lemma_find_char_skip(joined, '}', 0, b.len() - 1);
    assert(joined[b.len() - 1] == '}');
    assert(find_char(joined, '}') == Some(b.len() - 1));
    assert(joined.subrange(0, b.len() as int) =~= b);
    let x = mm + seq![' '] + ppt;
    assert(joined.subrange(b.len() as int, joined.len() as int) =~= seq![' '] + x);
    assert(x[0] == mm[0]);
    assert(x.last() == ppt.last());
    assert(plain(x));
    lemma_trim_plain(x);
    assert(trim_start_char(x, ',') == x);
    assert(spec_braced(joined) == Some((b, x)));
    lemma_join2(mm, ppt, seq![' ']);
    lemma_split_ws_join(x, seq![mm, ppt]);
    assert(tok_or(seq![mm, ppt], 0, seq![]) == mm);
    assert(tok_or(seq![mm, ppt], 1, seq![]) == ppt);
    let r2 = l.map_values(|n: nat| n as u16);
    assert(spec_45cc_regs(op, r2, mm, ppt, &IndexResolve) == Ok::<Seq<u8>, Seq<char>>(
        pack_35c(op, r2, m16) + le16(p16),
    ));
    assert(spec_enc_45cc(op, toks, &IndexResolve) == Ok::<Seq<u8>, Seq<char>>(
        pack_35c(op, r2, m16) + le16(p16),
    ));
}

#[verifier::spinoff_prover]
#[verifier::rlimit(40)]
proof fn lemma_rt_45cc<R: EncodeResolve>(op: u8, kind: RefKind, ops: Seq<Seq<char>>, res: &R, branch: Option<i32>)
    requires
        spec_enc_45cc(op, ops, res) is Ok,
    ensures
        reencodes(op, Format::F45cc, kind, spec_enc_45cc(op, ops, res)->Ok_0, branch),
        spec_enc_45cc(op, ops, res)->Ok_0.len() == 8,
        spec_enc_45cc(op, ops, res)->Ok_0[0] == op,
{
    match spec_braced(join(ops, seq![' '])) {
        Some((rp, rest)) => {
            let regs = spec_parse_reg_list(rp)->Ok_0;
            let parts = split_ws(rest);
            lemma_rt_45cc_regs(op, regs, tok_or(parts, 0, seq![]), tok_or(parts, 1, seq![]), res, kind, branch);
        },
        None => {
            let n = ops.len() as int;
            let regs = spec_parse_regs(ops.subrange(0, n - 2))->Ok_0;
            lemma_rt_45cc_regs(op, regs, ops[n - 2], ops[n - 1], res, kind, branch);
        },
    }
}


/// For every format but 5rc: what `spec_encode_into` produces has the format's length, starts
/// with the opcode, and re-encodes from the decoder's operand text.
#[verifier::spinoff_prover]
#[verifier::rlimit(40)]
proof fn lemma_rt_format<R: EncodeResolve>(
    op: u8,
    fmt: Format,
    kind: RefKind,
    ops: Seq<Seq<char>>,
    res: &R,
    branch: Option<i32>,
)
    requires
        fmt != Format::F5rc,
        spec_encode_into(op, fmt, kind, ops, res, branch) is Ok,
    ensures
        reencodes(op, fmt, kind, spec_encode_into(op, fmt, kind, ops, res, branch)->Ok_0, branch),
        spec_encode_into(op, fmt, kind, ops, res, branch)->Ok_0.len() == spec_format_length(fmt),
        spec_encode_into(op, fmt, kind, ops, res, branch)->Ok_0[0] == op,
        fmt == Format::F10x ==> spec_encode_into(op, fmt, kind, ops, res, branch)->Ok_0[1] == 0,
{
    match fmt {
        Format::F10x => {
            let bytes = seq![op, 0u8];
            assert(spec_operands_text(op, fmt, kind, bytes) == Some(Seq::<char>::empty()));
        },
        Format::F10t => lemma_rt_10t(op, kind, ops, branch),
        Format::F11n => lemma_rt_11n(op, kind, ops, branch),
        Format::F11x => lemma_rt_11x(op, kind, ops, branch),
        Format::F12x => lemma_rt_12x(op, kind, ops, branch),
        Format::F20t => lemma_rt_20t(op, kind, ops, branch),
        Format::F21c => lemma_rt_21c(op, kind, ops, res, branch),
        Format::F31c => lemma_rt_31c(op, kind, ops, res, branch),
        Format::F20bc => lemma_rt_20bc(op, kind, ops, res, branch),
        Format::F21h => lemma_rt_21h(op, kind, ops, branch),
        Format::F21s => lemma_rt_21s(op, kind, ops, branch),
        Format::F21t => lemma_rt_21t(op, kind, ops, branch),
        Format::F22b => lemma_rt_22b(op, kind, ops, branch),
        Format::F22x => lemma_rt_22x(op, kind, ops, branch),
        Format::F22c | Format::F22cs => lemma_rt_22c(op, kind, ops, res, branch, fmt),
        Format::F22s => lemma_rt_22s(op, kind, ops, branch),
        Format::F22t => lemma_rt_22t(op, kind, ops, branch),
        Format::F23x => lemma_rt_23x(op, kind, ops, branch),
        Format::F30t => lemma_rt_30t(op, kind, ops, branch),
        Format::F31i => lemma_rt_31i(op, kind, ops, branch),
        Format::F31t => lemma_rt_31t(op, kind, ops, branch),
        Format::F32x => lemma_rt_32x(op, kind, ops, branch),
        Format::F35c | Format::F35mi | Format::F35ms => lemma_rt_35c(op, kind, ops, res, branch, fmt),
        Format::F3rc | Format::F3rmi | Format::F3rms => lemma_rt_3rc(op, kind, ops, res, branch, fmt),
        Format::F51l => lemma_rt_51l(op, kind, ops, branch),
        Format::F45cc => lemma_rt_45cc(op, kind, ops, res, branch),
        Format::F4rcc => lemma_rt_4rcc(op, kind, ops, res, branch),
        Format::F40sc => lemma_rt_40sc(op, kind, ops, res, branch),
        Format::F41c => lemma_rt_41c(op, kind, ops, res, branch),
        Format::F52c => lemma_rt_52c(op, kind, ops, res, branch),
        Format::F5rc => {},
        Format::F00x => {},
    }
}

/// The opcode that the search from `i` finds is encodable, has mnemonic `m`, and is the first
/// such opcode from `i` on.
proof fn lemma_opcode_from(m: Seq<char>, i: int)
    requires
        0 <= i,
        opcode_from(m, i) is Some,
    ensures
        i <= opcode_from(m, i)->Some_0,
        encodable(opcode_from(m, i)->Some_0),
        spec_mnemonic(opcode_from(m, i)->Some_0) == m,
        forall|j: u8| i <= j < opcode_from(m, i)->Some_0 ==> !(encodable(j) && #[trigger] spec_mnemonic(j) == m),
    decreases 256 - i,
{
    if 0 <= i <= 255 && !(encodable(i as u8) && spec_mnemonic(i as u8) == m) {
        lemma_opcode_from(m, i + 1);
        assert forall|j: u8| i <= j < opcode_from(m, i)->Some_0 implies !(encodable(j) && #[trigger] spec_mnemonic(j) == m) by {
            if j == i {
                assert(j == i as u8);
            }
        }
    }
}

/// Looking a mnemonic up finds an opcode that can be encoded and carries that mnemonic, and
/// where several do, the first of them.
pub proof fn law_lookup_finds_first(m: Seq<char>)
    requires
        spec_opcode_for_mnemonic(m) is Some,
    ensures
        encodable(spec_opcode_for_mnemonic(m)->Some_0),
        spec_mnemonic(spec_opcode_for_mnemonic(m)->Some_0) == m,
        forall|j: u8| j < spec_opcode_for_mnemonic(m)->Some_0 ==> !(encodable(j) && #[trigger] spec_mnemonic(j) == m),
{
    lemma_opcode_from(m, 0);
}

/// A mnemonic that no encodable opcode carries is not found.
pub proof fn law_lookup_misses_unknown(m: Seq<char>)
    requires
        forall|j: u8| !(encodable(j) && #[trigger] spec_mnemonic(j) == m),
    ensures
        spec_opcode_for_mnemonic(m) is None,
{
    if spec_opcode_for_mnemonic(m) is Some {
        lemma_opcode_from(m, 0);
        let op = spec_opcode_for_mnemonic(m)->Some_0;
        assert(encodable(op) && spec_mnemonic(op) == m);
    }
}

/// No opcode of the table has format 5rc.
proof fn lemma_no_5rc(op: u8)
    ensures
        spec_format(op) != Format::F5rc,
{
}

/// Encoding, then decoding, then encoding again: the bytes that encoding mnemonic `m` with
/// `operands` produces decode, at offset 0, to one instruction of mnemonic `m` that spans all of
/// them, and encoding `m` with the decoded operand text, its indices taken as written, gives the
/// same bytes again.
#[verifier::rlimit(40)]
pub proof fn law_encode_decode_roundtrip<R: EncodeResolve>(
    m: Seq<char>,
    operands: Seq<char>,
    res: &R,
    branch: Option<i32>,
)
    requires
        spec_encode_instruction(m, operands, res, branch) is Ok,
    ensures
        ({
            let bytes = spec_encode_instruction(m, operands, res, branch)->Ok_0;
            let d = spec_decode(bytes, 0);
            &&& d is Ok
            &&& spec_mnemonic(d->Ok_0.0) == m
            &&& d->Ok_0.1 == bytes.len()
            &&& spec_encode_instruction(m, d->Ok_0.2, &IndexResolve, branch) == Ok::<Seq<u8>, Seq<char>>(bytes)
        }),
{
    let op = spec_opcode_for_mnemonic(m)->Some_0;
    lemma_opcode_from(m, 0);
    lemma_no_5rc(op);
    let fmt = spec_format(op);
    let kind = spec_ref_kind(op);
    let ops = spec_split_operands(operands);
    lemma_rt_format(op, fmt, kind, ops, res, branch);
    let bytes = spec_encode_into(op, fmt, kind, ops, res, branch)->Ok_0;
    assert(bytes.subrange(0, bytes.len() as int) =~= bytes);
    if op == 0 {
        assert(fmt == Format::F10x);
    }
}

/// The fixed encodings decode to what they are named after: `nop`, `return-void`, and a
/// `goto` whose operand is the branch it was given.
pub proof fn law_fixed_encodings_decode(rel: i8)
    ensures
        spec_decode(seq![0x00u8, 0x00u8], 0) == Ok::<(u8, nat, Seq<char>), Seq<char>>((0x00u8, 2nat, seq![])),
        spec_mnemonic(0x00u8) == "nop"@,
        spec_decode(seq![0x0eu8, 0x00u8], 0) == Ok::<(u8, nat, Seq<char>), Seq<char>>((0x0eu8, 2nat, seq![])),
        spec_mnemonic(0x0eu8) == "return-void"@,
        spec_decode(seq![0x28u8, rel as u8], 0) == Ok::<(u8, nat, Seq<char>), Seq<char>>(
            (0x28u8, 2nat, branch_text(rel as int)),
        ),
        spec_mnemonic(0x28u8) == "goto"@,
{
    lemma_bits_scasts(rel, 0, 0, 0);
    let g = seq![0x28u8, rel as u8];
    assert(g.subrange(0, 2) =~= g);
    assert(seq![0x00u8, 0x00u8].subrange(0, 2) =~= seq![0x00u8, 0x00u8]);
    assert(seq![0x0eu8, 0x00u8].subrange(0, 2) =~= seq![0x0eu8, 0x00u8]);
}

/// A 5rc encoding is ten bytes long and starts with its opcode.
proof fn lemma_shape_5rc<R: EncodeResolve>(op: u8, kind: RefKind, ops: Seq<Seq<char>>, res: &R)
    requires
        spec_enc_5rc(op, kind, ops, res) is Ok,
    ensures
        spec_enc_5rc(op, kind, ops, res)->Ok_0.len() == 10,
        spec_enc_5rc(op, kind, ops, res)->Ok_0[0] == op,
{
}

/// Every encoding has its format's length and starts with its opcode. (The bytes are a
/// function of the opcode, format, reference kind, tokens, the resolver's answers and the
/// branch offset alone: `spec_encode_into` is that function.)
#[verifier::spinoff_prover]
pub proof fn law_encoding_shape<R: EncodeResolve>(
    op: u8,
    fmt: Format,
    kind: RefKind,
    ops: Seq<Seq<char>>,
    res: &R,
    branch: Option<i32>,
)
    requires
        spec_encode_into(op, fmt, kind, ops, res, branch) is Ok,
    ensures
        spec_encode_into(op, fmt, kind, ops, res, branch)->Ok_0.len() == spec_format_length(fmt),
        spec_encode_into(op, fmt, kind, ops, res, branch)->Ok_0[0] == op,
{
    match fmt {
        Format::F5rc => lemma_shape_5rc(op, kind, ops, res),
        _ => lemma_rt_format(op, fmt, kind, ops, res, branch),
    }
}

/// The operand position of the branch offset in each branch format (`-1` for the others).
pub open spec fn branch_operand(fmt: Format) -> int {
    match fmt {
        Format::F10t | Format::F20t | Format::F30t => 0,
        Format::F21t | Format::F31t => 1,
        Format::F22t => 2,
        _ => -1,
    }
}

/// A branch offset that the caller gives is used as given: the branch token is never read,
/// so two token lists that agree before the branch position encode alike.
pub proof fn law_given_branch_ignores_token<R: EncodeResolve>(
    op: u8,
    fmt: Format,
    kind: RefKind,
    ops: Seq<Seq<char>>,
    ops2: Seq<Seq<char>>,
    res: &R,
    x: i32,
)
    requires
        branch_operand(fmt) >= 0,
        forall|k: int| 0 <= k < branch_operand(fmt) ==> #[trigger] tok_at(ops2, k) == tok_at(ops, k),
    ensures
        spec_encode_into(op, fmt, kind, ops2, res, Some(x)) == spec_encode_into(op, fmt, kind, ops, res, Some(x)),
{
    if branch_operand(fmt) >= 1 {
        assert(tok_at(ops2, 0) == tok_at(ops, 0));
        assert(tok_or(ops2, 0, seq![]) == tok_or(ops, 0, seq![]));
    }
    if branch_operand(fmt) >= 2 {
        assert(tok_at(ops2, 1) == tok_at(ops, 1));
        assert(tok_or(ops2, 1, seq![]) == tok_or(ops, 1, seq![]));
    }
}

/// A range invocation written `vA ... vB, ref` (with `A <= B`) encodes as the opcode, the
/// register count `B - A + 1` (held in a byte), the reference index and the first register
/// `A`, each 16-bit value low byte first.
#[verifier::spinoff_prover]
#[verifier::rlimit(40)]
pub proof fn law_range_invoke_bytes<R: EncodeResolve>(
    op: u8,
    kind: RefKind,
    a: u16,
    b: u16,
    r: Seq<char>,
    res: &R,
    idx: u32,
)
    requires
        a <= b,
        spec_resolve_ref(res, kind, r) == Ok::<u32, Seq<char>>(idx),
        idx <= 0xffff,
    ensures
        spec_enc_3rc(
            op,
            kind,
            seq![seq!['v'] + dec_str(a as nat) + seq![' ', '.', '.', '.', ' ', 'v'] + dec_str(b as nat), r],
            res,
        ) == Ok::<Seq<u8>, Seq<char>>(
            seq![op, ((b - a + 1) % 256) as u8, (idx % 256) as u8, (idx / 256) as u8, (a % 256) as u8, (a / 256) as u8],
        ),
{
    let e = Seq::<char>::empty();
    let span = seq!['v'] + dec_str(a as nat) + seq![' ', '.', '.', '.', ' ', 'v'] + dec_str(b as nat);
    let ops = seq![span, r];
    crate::readback::law_register_span_reads_back(a, b, 'v', 'v', seq!['.', '.', '.'], e, seq![' '], seq![' '], e);
    assert(e + seq!['v'] + dec_str(a as nat) + seq![' '] + seq!['.', '.', '.'] + seq![' '] + seq!['v'] + dec_str(b as nat) + e
        =~= span);
    assert(ops.subrange(0, 1) =~= seq![span]);
    assert(join(seq![span], seq![' ']) == span);
    assert(spec_3rc_span(ops) == Ok::<(u16, u8, Seq<char>), Seq<char>>((a, ((b - a + 1) % 256) as u8, r)));
    let i16 = idx as u16;
    assert((i16 & 0xff) as u8 == (i16 % 256) as u8 && (i16 >> 8u16) as u8 == (i16 / 256) as u8) by (bit_vector);
    assert((a & 0xff) as u8 == (a % 256) as u8 && (a >> 8u16) as u8 == (a / 256) as u8) by (bit_vector);
    assert(seq![op, ((b - a + 1) % 256) as u8] + le16(i16) + le16(a) =~= seq![
        op,
        ((b - a + 1) % 256) as u8,
        (idx % 256) as u8,
        (idx / 256) as u8,
        (a % 256) as u8,
        (a / 256) as u8,
    ]);
}

/// The low nibble `x`, the high nibble `y`: the byte `x + 16 * y`.
proof fn lemma_nibble_pair(x: u8, y: u8)
    requires
        x < 16,
        y < 16,
    ensures
        (x & 0x0f) | ((y & 0x0f) << 4u8) == x + 16 * y,
        (y << 4u8) | (x & 0x0f) == x + 16 * y,
{
    assert((x & 0x0f) | ((y & 0x0f) << 4u8) == x + 16 * y) by (bit_vector)
        requires
            x < 16,
            y < 16,
    ;
    assert((y << 4u8) | (x & 0x0f) == x + 16 * y) by (bit_vector)
        requires
            x < 16,
            y < 16,
    ;
}

/// An invocation written `{vC, vD, vE, vF, vG}, ref` (up to five registers below 16) encodes
/// as the opcode; the register count in the high nibble and the fifth register (or 0) in the
/// low one; the reference index, low byte first; then the first and second register as the
/// low and high nibble of one byte, and the third and fourth likewise (missing ones as 0).
#[verifier::spinoff_prover]
#[verifier::rlimit(40)]
pub proof fn law_braced_invoke_bytes<R: EncodeResolve>(
    op: u8,
    kind: RefKind,
    ns: Seq<u16>,
    r: Seq<char>,
    res: &R,
    idx: u32,
)
    requires
        ns.len() <= 5,
        forall|k: int| 0 <= k < ns.len() ==> #[trigger] ns[k] < 16,
        r.len() > 0,
        !is_ws(r[0]),
        r[0] != ',',
        !is_ws(r.last()),
        spec_resolve_ref(res, kind, r) == Ok::<u32, Seq<char>>(idx),
        idx <= 0xffff,
    ensures
        ({
            let arg = |k: int| if k < ns.len() { ns[k] as int } else { 0int };
            spec_enc_35c(
                op,
                kind,
                seq![seq!['{'] + regs_text(ns.map_values(|n: u16| n as nat)) + seq!['}'], r],
                res,
            ) == Ok::<Seq<u8>, Seq<char>>(
                seq![
                    op,
                    (16 * ns.len() + arg(4)) as u8,
                    (idx % 256) as u8,
                    (idx / 256) as u8,
                    (arg(0) + 16 * arg(1)) as u8,
                    (arg(2) + 16 * arg(3)) as u8,
                ],
            )
        }),
{
    let l = ns.map_values(|n: u16| n as nat);
    let b = seq!['{'] + regs_text(l) + seq!['}'];
    crate::readback::law_register_list_reads_back(ns);
    lemma_regs_text_chars(l);
    let ops = seq![b, r];
    assert(ops[0][0] == '{');
    lemma_join2(b, r, seq![' ']);
    let joined = b + seq![' '] + r;
    assert forall|k: int| 0 <= k < b.len() - 1 implies #[trigger] joined[k] != '}' by {
        assert(joined[k] == b[k]);
        if k > 0 {
            assert(b[k] == regs_text(l)[k - 1]);
        }
    }
    lemma_find_char_skip(joined, '}', 0, b.len() - 1);
    assert(joined[b.len() - 1] == '}');
    assert(find_char(joined, '}') == Some(b.len() - 1));
    assert(joined.subrange(0, b.len() as int) =~= b);
    assert(joined.subrange(b.len() as int, joined.len() as int) =~= seq![' '] + r);
    assert(r.last() == r[r.len() - 1]);
    assert(plain(r));
    lemma_trim_plain(r);
    assert(trim_start_char(r, ',') == r);
    assert(spec_braced(joined) == Some((b, r)));
    assert(spec_35c_regs(ops) == Ok::<(Seq<u16>, Seq<char>), Seq<char>>((ns, r)));
    let i16 = idx as u16;
    assert((i16 & 0xff) as u8 == (i16 % 256) as u8 && (i16 >> 8u16) as u8 == (i16 / 256) as u8) by (bit_vector);
    let g = reg_or0(ns, 4) as u8;
    let c = reg_or0(ns, 0) as u8;
    let d = reg_or0(ns, 1) as u8;
    let e = reg_or0(ns, 2) as u8;
    let f = reg_or0(ns, 3) as u8;
    lemma_nibble_pair(g, ns.len() as u8);
    lemma_nibble_pair(c, d);
    lemma_nibble_pair(e, f);
    let arg = |k: int| if k < ns.len() { ns[k] as int } else { 0int };
    assert(g == arg(4) && c == arg(0) && d == arg(1) && e == arg(2) && f == arg(3));
    assert(spec_enc_35c(op, kind, ops, res) == Ok::<Seq<u8>, Seq<char>>(pack_35c(op, ns, i16)));
    assert(pack_35c(op, ns, i16) =~= seq![
        op,
        (16 * ns.len() + arg(4)) as u8,
        (idx % 256) as u8,
        (idx / 256) as u8,
        (arg(0) + 16 * arg(1)) as u8,
        (arg(2) + 16 * arg(3)) as u8,
    ]);
}

} // verus!
