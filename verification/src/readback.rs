//! Text that the decoder writes, or that a user writes in the same shape, reads back to
//! the values it spells: registers, register lists, indexed references and hex bytes.
use vstd::prelude::*;
use crate::number::{signed_dec_str, dec_str, digit_value, digits_value, from_str_radix, bounded};
use crate::text::{is_ws, trim, trim_start, trim_end, trim_end_char, find_seq_from, split_once_seq};
use crate::operands::{spec_parse_i64, spec_parse_reg, spec_parse_reg_list, spec_parse_indexed_ref, spec_parse_reg_range, spec_reg_span, span_count};
use crate::decoder::regs_text;
use crate::hex::{hex_pairs, spec_parse_hex, strip_ws, utf8_len, utf8_width};
use crate::roundtrip::{is_digit, lemma_parse_lit_text, lemma_find_seq_skip, lemma_dec_str, lemma_from_str_dec, lemma_parse_braced_list, lemma_parse_indexed};

verus! {

/// Whitespace in front of a token that starts with something else is trimmed away.
proof fn lemma_trim_start_ws_prefix(pre: Seq<char>, x: Seq<char>)
    requires
        forall|i: int| 0 <= i < pre.len() ==> is_ws(#[trigger] pre[i]),
        x.len() > 0,
        !is_ws(x[0]),
    ensures
        trim_start(pre + x) == x,
    decreases pre.len(),
{
    if pre.len() == 0 {
        assert(pre + x =~= x);
    } else {
        assert((pre + x)[0] == pre[0]);
        assert((pre + x).drop_first() =~= pre.drop_first() + x);
        lemma_trim_start_ws_prefix(pre.drop_first(), x);
    }
}

/// Whitespace behind a token that ends with something else is trimmed away.
proof fn lemma_trim_end_ws_suffix(y: Seq<char>, post: Seq<char>)
    requires
        forall|i: int| 0 <= i < post.len() ==> is_ws(#[trigger] post[i]),
        y.len() > 0,
        !is_ws(y.last()),
    ensures
        trim_end(y + post) == y,
    decreases post.len(),
{
    if post.len() == 0 {
        assert(y + post =~= y);
    } else {
        assert((y + post).last() == post.last());
        assert((y + post).drop_last() =~= y + post.drop_last());
        lemma_trim_end_ws_suffix(y, post.drop_last());
    }
}

/// Trailing commas behind a token that ends with something else are trimmed away.
proof fn lemma_trim_end_commas(x: Seq<char>, commas: Seq<char>)
    requires
        forall|i: int| 0 <= i < commas.len() ==> #[trigger] commas[i] == ',',
        x.len() > 0,
        x.last() != ',',
    ensures
        trim_end_char(x + commas, ',') == x,
    decreases commas.len(),
{
    if commas.len() == 0 {
        assert(x + commas =~= x);
    } else {
        assert((x + commas).last() == ',');
        assert((x + commas).drop_last() =~= x + commas.drop_last());
        lemma_trim_end_commas(x, commas.drop_last());
    }
}

/// A register written `vN` or `pN`, with whitespace around it and commas behind it, reads
/// back as register `N`.
pub proof fn law_register_text_reads_back(
    n: u16,
    c: char,
    pre: Seq<char>,
    commas: Seq<char>,
    post: Seq<char>,
)
    requires
        c == 'v' || c == 'p',
        forall|i: int| 0 <= i < pre.len() ==> is_ws(#[trigger] pre[i]),
        forall|i: int| 0 <= i < commas.len() ==> #[trigger] commas[i] == ',',
        forall|i: int| 0 <= i < post.len() ==> is_ws(#[trigger] post[i]),
    ensures
        spec_parse_reg(pre + seq![c] + dec_str(n as nat) + commas + post) == Ok::<u16, Seq<char>>(n),
{
    let d = dec_str(n as nat);
    lemma_dec_str(n as nat);
    lemma_from_str_dec(n as nat, false);
    let name = seq![c] + d;
    let core = name + commas;
    assert(name.last() == d.last());
    assert(core[0] == c);
    if commas.len() > 0 {
        assert(core.last() == ',');
    } else {
        assert(core =~= name);
    }
    assert(pre + seq![c] + d + commas + post =~= pre + (core + post));
    assert((core + post)[0] == c);
    lemma_trim_start_ws_prefix(pre, core + post);
    lemma_trim_end_ws_suffix(core, post);
    assert(trim(pre + (core + post)) == core);
    lemma_trim_end_commas(name, commas);
    assert(name.drop_first() =~= d);
}

/// A register list written `{vA, vB, ...}`, as the decoder writes one, reads back as that list.
pub proof fn law_register_list_reads_back(ns: Seq<u16>)
    ensures
        spec_parse_reg_list(seq!['{'] + regs_text(ns.map_values(|n: u16| n as nat)) + seq!['}'])
            == Ok::<Seq<u16>, Seq<char>>(ns),
{
    let l = ns.map_values(|n: u16| n as nat);
    assert forall|k: int| 0 <= k < l.len() implies #[trigger] l[k] <= 0xffff by {
        assert(l[k] == ns[k] as nat);
    }
    lemma_parse_braced_list(l);
    assert(l.map_values(|n: nat| n as u16) =~= ns);
}

/// A reference written `prefix@N` reads back as index `N`.
pub proof fn law_indexed_ref_reads_back(prefix: Seq<char>, n: u32)
    ensures
        spec_parse_indexed_ref(prefix.push('@') + dec_str(n as nat), prefix) == Ok::<u32, Seq<char>>(n),
{
    lemma_parse_indexed(prefix, prefix.push('@'), n as nat);
}

/// Whether `t` spells the bytes `b`: two hexadecimal digits per byte, high digit first,
/// each in either letter case.
pub open spec fn spells_hex(t: Seq<char>, b: Seq<u8>) -> bool {
    &&& t.len() == 2 * b.len()
    &&& forall|i: int|
        0 <= i < b.len() ==> {
            &&& digit_value(#[trigger] t[2 * i], 16) == Some((b[i] / 16) as nat)
            &&& digit_value(t[2 * i + 1], 16) == Some((b[i] % 16) as nat)
        }
}

/// Text made of ASCII characters is as long in bytes as in characters.
proof fn lemma_utf8_len_ascii(t: Seq<char>)
    requires
        forall|j: int| 0 <= j < t.len() ==> (#[trigger] t[j] as u32) < 0x80,
    ensures
        utf8_len(t) == t.len(),
    decreases t.len(),
{
    if t.len() > 0 {
        assert(t.last() == t[t.len() - 1]);
        lemma_utf8_len_ascii(t.drop_last());
    }
}

/// Two hexadecimal digits read as the byte they spell.
proof fn lemma_hex_pair(c1: char, c2: char, x: u8)
    requires
        digit_value(c1, 16) == Some((x / 16) as nat),
        digit_value(c2, 16) == Some((x % 16) as nat),
    ensures
        bounded(from_str_radix(seq![c1, c2], 16, false), 0, 255) == Some(x as int),
{
    let p = seq![c1, c2];
    assert(p.drop_last() =~= seq![c1]);
    assert(seq![c1].drop_last() =~= Seq::<char>::empty());
    assert(digits_value(Seq::<char>::empty(), 16) == Some(0nat));
    assert(seq![c1].last() == c1);
    assert(p.last() == c2);
    assert(digits_value(seq![c1], 16) == Some((0 * 16 + x / 16) as nat));
    assert(digits_value(seq![c1], 16) == Some((x / 16) as nat));
    assert(digits_value(p, 16) == Some(((x / 16) * 16 + x % 16) as nat));
    assert((x / 16) * 16 + x % 16 == x);
    assert(p[0] != '+' && p[0] != '-');
}

/// The pairs from digit `2 * i` on read as the bytes from `i` on.
proof fn lemma_hex_pairs_spell(t: Seq<char>, b: Seq<u8>, i: int)
    requires
        spells_hex(t, b),
        0 <= i <= b.len(),
    ensures
        hex_pairs(t, 2 * i) == Some(Ok::<Seq<u8>, Seq<char>>(b.subrange(i, b.len() as int))),
    decreases b.len() - i,
{
    let k = 2 * i;
    if i == b.len() {
        assert(b.subrange(i, b.len() as int) =~= Seq::<u8>::empty());
    } else {
        assert(digit_value(t[2 * i], 16) == Some((b[i] / 16) as nat));
        assert(t.subrange(k, k + 2) =~= seq![t[k], t[k + 1]]);
        lemma_hex_pair(t[k], t[k + 1], b[i]);
        lemma_hex_pairs_spell(t, b, i + 1);
        assert(seq![b[i]] + b.subrange(i + 1, b.len() as int) =~= b.subrange(i, b.len() as int));
    }
}

/// Hex text that spells bytes `b`, with any whitespace anywhere, reads back as `b`.
pub proof fn law_hex_reads_back(s: Seq<char>, b: Seq<u8>)
    requires
        spells_hex(strip_ws(s), b),
    ensures
        spec_parse_hex(s) == Some(Ok::<Seq<u8>, Seq<char>>(b)),
{
    let t = strip_ws(s);
    assert forall|j: int| 0 <= j < t.len() implies (#[trigger] t[j] as u32) < 0x80 by {
        let i = j / 2;
        assert(j == 2 * i || j == 2 * i + 1);
        assert(digit_value(t[2 * i], 16) is Some);
        assert(digit_value(t[2 * i + 1], 16) is Some);
    }
    lemma_utf8_len_ascii(t);
    lemma_hex_pairs_spell(t, b, 0);
    assert(b.subrange(0, b.len() as int) =~= b);
}

/// A register name `cN` has no dot and no whitespace, and ends in a digit.
proof fn lemma_reg_name(c: char, n: u16)
    requires
        c == 'v' || c == 'p',
    ensures
        ({
            let r = seq![c] + dec_str(n as nat);
            &&& r.len() >= 2
            &&& r[0] == c
            &&& is_digit(r.last())
            &&& forall|i: int| 0 <= i < r.len() ==> #[trigger] r[i] != '.' && !is_ws(r[i])
        }),
{
    lemma_dec_str(n as nat);
    let r = seq![c] + dec_str(n as nat);
    assert forall|i: int| 0 <= i < r.len() implies #[trigger] r[i] != '.' && !is_ws(r[i]) by {
        if i > 0 {
            assert(r[i] == dec_str(n as nat)[i - 1]);
        }
    }
    assert(r.last() == dec_str(n as nat).last());
}

/// Trimming `pre + x + post` leaves `x` when `pre` and `post` are whitespace and `x`
/// neither starts nor ends with whitespace.
proof fn lemma_trim_padded(pre: Seq<char>, x: Seq<char>, post: Seq<char>)
    requires
        forall|i: int| 0 <= i < pre.len() ==> is_ws(#[trigger] pre[i]),
        forall|i: int| 0 <= i < post.len() ==> is_ws(#[trigger] post[i]),
        x.len() > 0,
        !is_ws(x[0]),
        !is_ws(x.last()),
    ensures
        trim(pre + x + post) == x,
{
    assert(pre + x + post =~= pre + (x + post));
    assert((x + post)[0] == x[0]);
    lemma_trim_start_ws_prefix(pre, x + post);
    lemma_trim_end_ws_suffix(x, post);
}

/// Splitting `left + dots + right` at the first `...` (then at the first `..`), where only
/// `dots` holds dots, gives back `left` and `right`.
proof fn lemma_span_split(left: Seq<char>, dots: Seq<char>, right: Seq<char>)
    requires
        dots == seq!['.', '.', '.'] || dots == seq!['.', '.'],
        forall|i: int| 0 <= i < left.len() ==> #[trigger] left[i] != '.',
        forall|i: int| 0 <= i < right.len() ==> #[trigger] right[i] != '.',
    ensures
        dots.len() == 3 ==> split_once_seq(left + dots + right, seq!['.', '.', '.']) == Some((left, right)),
        dots.len() == 2 ==> split_once_seq(left + dots + right, seq!['.', '.', '.']) is None,
        dots.len() == 2 ==> split_once_seq(left + dots + right, seq!['.', '.']) == Some((left, right)),
{
    let t = left + dots + right;
    let p0 = left.len() as int;
    let dl = dots.len() as int;
    assert forall|k: int| 0 <= k < t.len() implies (#[trigger] t[k] == '.') == (p0 <= k < p0 + dl) by {
        if k < p0 {
            assert(t[k] == left[k]);
        } else if k < p0 + dl {
            assert(t[k] == dots[k - p0]);
        } else {
            assert(t[k] == right[k - p0 - dl]);
        }
    }
    let d3 = seq!['.', '.', '.'];
    let d2 = seq!['.', '.'];
    assert forall|k: int| 0 <= k < p0 implies k + 3 > t.len() || #[trigger] t.subrange(k, k + 3) != d3 by {
        if k + 3 <= t.len() {
            assert(t.subrange(k, k + 3)[0] == t[k]);
        }
    }
    lemma_find_seq_skip(t, d3, 0, p0);
    assert(t.subrange(0, p0) =~= left);
    assert(t.subrange(p0 + dl, t.len() as int) =~= right);
    if dl == 3 {
        assert(t.subrange(p0, p0 + 3) =~= d3);
    } else {
        assert forall|k: int| p0 <= k < t.len() implies k + 3 > t.len() || #[trigger] t.subrange(k, k + 3) != d3 by {
            if k + 3 <= t.len() && t.subrange(k, k + 3) == d3 {
                assert(t.subrange(k, k + 3)[2] == t[k + 2]);
            }
        }
        lemma_find_seq_skip(t, d3, p0, t.len() as int);
        assert forall|k: int| 0 <= k < p0 implies k + 2 > t.len() || #[trigger] t.subrange(k, k + 2) != d2 by {
            if k + 2 <= t.len() {
                assert(t.subrange(k, k + 2)[0] == t[k]);
            }
        }
        lemma_find_seq_skip(t, d2, 0, p0);
        assert(t.subrange(p0, p0 + 2) =~= d2);
    }
}

/// A register name padded by whitespace on the right (or the left) trims to the name and
/// reads as its register.
proof fn lemma_padded_reg(c: char, n: u16, pre: Seq<char>, post: Seq<char>)
    requires
        c == 'v' || c == 'p',
        forall|i: int| 0 <= i < pre.len() ==> is_ws(#[trigger] pre[i]),
        forall|i: int| 0 <= i < post.len() ==> is_ws(#[trigger] post[i]),
    ensures
        ({
            let r = seq![c] + dec_str(n as nat);
            &&& spec_parse_reg(trim(pre + r + post)) == Ok::<u16, Seq<char>>(n)
            &&& forall|i: int| 0 <= i < (pre + r + post).len() ==> #[trigger] (pre + r + post)[i] != '.'
        }),
{
    let r = seq![c] + dec_str(n as nat);
    lemma_reg_name(c, n);
    lemma_trim_padded(pre, r, post);
    let e = Seq::<char>::empty();
    law_register_text_reads_back(n, c, e, e, e);
    assert(e + seq![c] + dec_str(n as nat) + e + e =~= r);
    let x = pre + r + post;
    assert forall|i: int| 0 <= i < x.len() implies #[trigger] x[i] != '.' by {
        if i < pre.len() {
            assert(x[i] == pre[i]);
        } else if i < pre.len() + r.len() {
            assert(x[i] == r[i - pre.len()]);
        } else {
            assert(x[i] == post[i - pre.len() - r.len()]);
        }
    }
}

/// The stored count of a span is `B - A + 1` modulo 256.
proof fn lemma_span_count(a: u16, b: u16)
    ensures
        span_count(a, b) == ((b - a + 1) % 256) as u8,
{
    assert(((b + 0x10000 - a + 1) % 0x100) == ((b - a + 1) % 256)) by (nonlinear_arith);
}

/// What a span reads as, once it is split into its two registers.
proof fn lemma_reg_span_of(t: Seq<char>, left: Seq<char>, dots: Seq<char>, right: Seq<char>, a: u16, b: u16)
    requires
        dots.len() == 3 ==> split_once_seq(t, seq!['.', '.', '.']) == Some((left, right)),
        dots.len() == 2 ==> split_once_seq(t, seq!['.', '.', '.']) is None,
        dots.len() == 2 ==> split_once_seq(t, seq!['.', '.']) == Some((left, right)),
        dots.len() == 3 || dots.len() == 2,
        spec_parse_reg(trim(left)) == Ok::<u16, Seq<char>>(a),
        spec_parse_reg(trim(right)) == Ok::<u16, Seq<char>>(b),
    ensures
        if dots.len() == 3 && b < a {
            spec_reg_span(t) == Err::<(u16, u8), Seq<char>>("bad register range"@)
        } else {
            spec_reg_span(t) == Ok::<(u16, u8), Seq<char>>((a, ((b - a + 1) % 256) as u8))
        },
{
    lemma_span_count(a, b);
}

/// A register span written `vA ... vB` or `vA .. vB` (either register also as `pN`, with
/// any whitespace around the registers) reads back as first register `A` and count
/// `B - A + 1`, the count held in a `u8` (so taken modulo 256). The three-dot form refuses
/// a span whose last register is below its first; the two-dot form counts it round the
/// `u16` registers.
#[verifier::spinoff_prover]
#[verifier::rlimit(40)]
pub proof fn law_register_span_reads_back(
    a: u16,
    b: u16,
    ca: char,
    cb: char,
    dots: Seq<char>,
    pre: Seq<char>,
    mid1: Seq<char>,
    mid2: Seq<char>,
    post: Seq<char>,
)
    requires
        ca == 'v' || ca == 'p',
        cb == 'v' || cb == 'p',
        dots == seq!['.', '.', '.'] || dots == seq!['.', '.'],
        forall|i: int| 0 <= i < pre.len() ==> is_ws(#[trigger] pre[i]),
        forall|i: int| 0 <= i < mid1.len() ==> is_ws(#[trigger] mid1[i]),
        forall|i: int| 0 <= i < mid2.len() ==> is_ws(#[trigger] mid2[i]),
        forall|i: int| 0 <= i < post.len() ==> is_ws(#[trigger] post[i]),
    ensures
        ({
            let text = pre + seq![ca] + dec_str(a as nat) + mid1 + dots + mid2 + seq![cb] + dec_str(b as nat) + post;
            if dots.len() == 3 && b < a {
                spec_parse_reg_range(text) == Err::<(u16, u8), Seq<char>>("bad register range"@)
            } else {
                spec_parse_reg_range(text) == Ok::<(u16, u8), Seq<char>>((a, ((b - a + 1) % 256) as u8))
            }
        }),
{
    let e = Seq::<char>::empty();
    let ra = seq![ca] + dec_str(a as nat);
    let rb = seq![cb] + dec_str(b as nat);
    let left = e + ra + mid1;
    let right = mid2 + rb + e;
    let t = left + dots + right;
    let text = pre + seq![ca] + dec_str(a as nat) + mid1 + dots + mid2 + seq![cb] + dec_str(b as nat) + post;
    assert(trim(text) == t) by {
        lemma_reg_name(ca, a);
        lemma_reg_name(cb, b);
        assert(text =~= pre + t + post);
        assert(t[0] == ca);
        assert(t.last() == rb.last());
        lemma_trim_padded(pre, t, post);
    }
    assert(spec_parse_reg(trim(left)) == Ok::<u16, Seq<char>>(a)
        && forall|i: int| 0 <= i < left.len() ==> #[trigger] left[i] != '.') by {
        lemma_padded_reg(ca, a, e, mid1);
    }
    assert(spec_parse_reg(trim(right)) == Ok::<u16, Seq<char>>(b)
        && forall|i: int| 0 <= i < right.len() ==> #[trigger] right[i] != '.') by {
        lemma_padded_reg(cb, b, mid2, e);
    }
    lemma_span_split(left, dots, right);
    assert(dots.len() == 3 ==> split_once_seq(t, seq!['.', '.', '.']) == Some((left, right)));
    assert(dots.len() == 2 ==> split_once_seq(t, seq!['.', '.', '.']) is None);
    assert(dots.len() == 2 ==> split_once_seq(t, seq!['.', '.']) == Some((left, right)));
    assert(dots.len() == 3 || dots.len() == 2);
    assert(spec_parse_reg(trim(left)) == Ok::<u16, Seq<char>>(a));
    assert(spec_parse_reg(trim(right)) == Ok::<u16, Seq<char>>(b));
    lemma_reg_span_of(t, left, dots, right, a, b);
}

/// The lowercase hexadecimal digit of `d < 16`.
pub open spec fn hex_char(d: nat) -> char {
    if d < 10 {
        ((d + 0x30) as u8) as char
    } else {
        ((d - 10 + 0x61) as u8) as char
    }
}

/// The lowercase hexadecimal representation of `n`, without leading zeros.
pub open spec fn hex_str(n: nat) -> Seq<char>
    decreases n,
{
    if n < 16 {
        seq![hex_char(n)]
    } else {
        hex_str(n / 16).push(hex_char(n % 16))
    }
}

/// `hex_str(n)` is made of hexadecimal digits that read as `n`.
proof fn lemma_hex_str(n: nat)
    ensures
        hex_str(n).len() >= 1,
        digits_value(hex_str(n), 16) == Some(n),
        forall|i: int| 0 <= i < hex_str(n).len() ==> {
            let u = #[trigger] hex_str(n)[i] as u32;
            (0x30 <= u <= 0x39) || (0x61 <= u <= 0x66)
        },
    decreases n,
{
    if n < 16 {
        assert(hex_str(n).drop_last() =~= Seq::<char>::empty());
        assert(hex_str(n).last() == hex_char(n));
        assert(digits_value(Seq::<char>::empty(), 16) == Some(0nat));
    } else {
        lemma_hex_str(n / 16);
        let t = hex_str(n);
        assert(t.drop_last() =~= hex_str(n / 16));
        assert(t.last() == hex_char(n % 16));
        assert((n / 16) * 16 + n % 16 == n);
        assert forall|i: int| 0 <= i < t.len() implies {
            let u = #[trigger] t[i] as u32;
            (0x30 <= u <= 0x39) || (0x61 <= u <= 0x66)
        } by {
            if i < t.len() - 1 {
                assert(t[i] == hex_str(n / 16)[i]);
            }
        }
    }
}

/// A decimal literal, with `-` when negative, reads back as its value.
pub proof fn law_decimal_literal_reads_back(v: i64)
    ensures
        spec_parse_i64(signed_dec_str(v as int)) == Ok::<i64, Seq<char>>(v),
{
    lemma_parse_lit_text(v as int);
}

/// A hexadecimal literal written `0xN`, `Nh`, `+Nh` or `-Nh` reads back as `N` (negated for
/// `-Nh`).
pub proof fn law_hex_literal_reads_back(n: u64)
    requires
        n <= i64::MAX,
    ensures
        spec_parse_i64(seq!['0', 'x'] + hex_str(n as nat)) == Ok::<i64, Seq<char>>(n as i64),
        spec_parse_i64(hex_str(n as nat) + seq!['h']) == Ok::<i64, Seq<char>>(n as i64),
        spec_parse_i64(seq!['+'] + hex_str(n as nat) + seq!['h']) == Ok::<i64, Seq<char>>(n as i64),
        spec_parse_i64(seq!['-'] + hex_str(n as nat) + seq!['h']) == Ok::<i64, Seq<char>>((-(n as int)) as i64),
{
    let h = hex_str(n as nat);
    lemma_hex_str(n as nat);
    assert(h[0] == h[0]);
    assert(h.last() == h[h.len() - 1]);
    assert(from_str_radix(h, 16, true) == Some(n as int));
    lemma_plain_word(seq!['0', 'x'] + h);
    lemma_plain_word(h + seq!['h']);
    lemma_plain_word(seq!['+'] + h + seq!['h']);
    lemma_plain_word(seq!['-'] + h + seq!['h']);
    // `0xN`
    let t1 = seq!['0', 'x'] + h;
    assert(t1.last() == h.last());
    assert(t1.subrange(2, t1.len() as int) =~= h);
    assert(trim_end_char(h, 'h') == h);
    // `Nh`, `+Nh`, `-Nh`
    let t2 = h + seq!['h'];
    assert(t2.drop_last() =~= h);
    assert(trim_end_char(t2, 'h') == h);
    assert(h.len() >= 2 ==> !(h[0] == '0' && h[1] == 'x'));
    assert(t2[0] == h[0]);
    if h.len() == 1 {
        assert(t2[1] == 'h');
    } else {
        assert(t2[1] == h[1]);
    }
    let t3 = seq!['+'] + h + seq!['h'];
    assert(t3.drop_last() =~= seq!['+'] + h);
    assert((seq!['+'] + h).last() == h.last());
    assert(trim_end_char(seq!['+'] + h, 'h') == seq!['+'] + h);
    assert(trim_end_char(t3, 'h') == seq!['+'] + h);
    assert((seq!['+'] + h).drop_first() =~= h);
    let t4 = seq!['-'] + h + seq!['h'];
    assert(t4.drop_last() =~= seq!['-'] + h);
    assert((seq!['-'] + h).last() == h.last());
    assert(trim_end_char(seq!['-'] + h, 'h') == seq!['-'] + h);
    assert(trim_end_char(t4, 'h') == seq!['-'] + h);
    assert((seq!['-'] + h).drop_first() =~= h);
}

/// A token that neither starts nor ends with whitespace, and does not end with a comma,
/// is left alone by the trimming that literals go through.
proof fn lemma_plain_word(t: Seq<char>)
    requires
        t.len() > 0,
        !is_ws(t[0]),
        !is_ws(t.last()),
        t.last() != ',',
    ensures
        trim_end_char(trim(t), ',') == t,
{
    lemma_trim_padded(Seq::<char>::empty(), t, Seq::<char>::empty());
    assert(Seq::<char>::empty() + t + Seq::<char>::empty() =~= t);
}

} // verus!
