//! Choices of the disassembler's command line.
use vstd::prelude::*;
use crate::text::chars_of;

verus! {

/// When the disassembler colors its output.
#[derive(Clone, Copy, Debug, PartialEq, Eq)]
pub enum ColorWhen {
    Always,
    Never,
    Auto,
}

/// `c` with ASCII capitals made small.
pub open spec fn ascii_lower(c: char) -> char {
    if 'A' <= c <= 'Z' {
        ((c as u32) + 32) as char
    } else {
        c
    }
}

/// Whether `s` equals `w` once its ASCII capitals are made small.
///
/// For the all-lowercase ASCII words compared here, this is what comparing
/// `s.to_lowercase()` with `w` gives: no other character lowercases to one of
/// their letters.
pub open spec fn lower_eq(s: Seq<char>, w: Seq<char>) -> bool {
    s.len() == w.len() && forall|i: int| 0 <= i < s.len() ==> ascii_lower(#[trigger] s[i]) == w[i]
}

/// The color choice that `s` names, or the error message.
pub open spec fn spec_parse_color_when(s: Seq<char>) -> Result<ColorWhen, Seq<char>> {
    if lower_eq(s, "always"@) || lower_eq(s, "yes"@) || lower_eq(s, "true"@) {
        Ok(ColorWhen::Always)
    } else if lower_eq(s, "never"@) || lower_eq(s, "no"@) || lower_eq(s, "false"@) {
        Ok(ColorWhen::Never)
    } else if lower_eq(s, "auto"@) {
        Ok(ColorWhen::Auto)
    } else {
        Err("must be always, never, or auto"@)
    }
}

fn lower_char(c: char) -> (r: char)
    ensures
        r == ascii_lower(c),
{
    if 'A' <= c && c <= 'Z' {
        let u = (c as u32) + 32;
        (u as u8) as char
    } else {
        c
    }
}

/// Whether `s` equals the word `w` once its ASCII capitals are made small.
fn lower_eq_exec(s: &[char], w: &str) -> (r: bool)
    ensures
        r == lower_eq(s@, w@),
{
    let wc = chars_of(w);
    if s.len() != wc.len() {
        return false;
    }
    let mut i: usize = 0;
    while i < s.len()
        invariant
            i <= s.len(),
            s.len() == wc.len(),
            wc@ == w@,
            forall|k: int| 0 <= k < i ==> ascii_lower(#[trigger] s@[k]) == wc@[k],
        decreases s.len() - i,
    {
        if lower_char(s[i]) != wc[i] {
            return false;
        }
        i = i + 1;
    }
    true
}

/// Reads a color choice: `always`/`yes`/`true`, `never`/`no`/`false` or `auto`,
/// in any letter case.
pub fn parse_color_when(s: &str) -> (r: Result<ColorWhen, String>)
    ensures
        match r {
            Ok(c) => spec_parse_color_when(s@) == Ok::<ColorWhen, Seq<char>>(c),
            Err(e) => spec_parse_color_when(s@) == Err::<ColorWhen, Seq<char>>(e@),
        },
{
    let cs = chars_of(s);
    let v = cs.as_slice();
    if lower_eq_exec(v, "always") || lower_eq_exec(v, "yes") || lower_eq_exec(v, "true") {
        Ok(ColorWhen::Always)
    } else if lower_eq_exec(v, "never") || lower_eq_exec(v, "no") || lower_eq_exec(v, "false") {
        Ok(ColorWhen::Never)
    } else if lower_eq_exec(v, "auto") {
        Ok(ColorWhen::Auto)
    } else {
        Err(String::from_str("must be always, never, or auto"))
    }
}

impl std::str::FromStr for ColorWhen {
    type Err = String;

    fn from_str(s: &str) -> (r: Result<Self, Self::Err>)
        ensures
            match r {
                Ok(c) => spec_parse_color_when(s@) == Ok::<ColorWhen, Seq<char>>(c),
                Err(e) => spec_parse_color_when(s@) == Err::<ColorWhen, Seq<char>>(e@),
            },
    {
        parse_color_when(s)
    }
}

/// Whether `s` is the lowercase word `w` with any of its letters written as capitals.
pub open spec fn caseless(s: Seq<char>, w: Seq<char>) -> bool {
    &&& s.len() == w.len()
    &&& forall|i: int| 0 <= i < s.len() ==> #[trigger] s[i] == w[i] || (s[i] as u32) + 32 == (w[i] as u32)
}

/// For a word of small ASCII letters, comparing after making capitals small is comparing up
/// to letter case.
proof fn lemma_caseless(s: Seq<char>, w: Seq<char>)
    requires
        forall|i: int| 0 <= i < w.len() ==> 'a' <= #[trigger] w[i] <= 'z',
    ensures
        lower_eq(s, w) == caseless(s, w),
{
    if s.len() == w.len() {
        if lower_eq(s, w) {
            assert forall|i: int| 0 <= i < s.len() implies #[trigger] s[i] == w[i] || (s[i] as u32) + 32 == (w[i] as u32) by {
                assert(ascii_lower(s[i]) == w[i]);
            }
        }
        if caseless(s, w) {
            assert forall|i: int| 0 <= i < s.len() implies ascii_lower(#[trigger] s[i]) == w[i] by {
                assert(s[i] == w[i] || (s[i] as u32) + 32 == (w[i] as u32));
                assert('a' <= w[i] <= 'z');
            }
        }
    }
}

/// The color words name their choice in any letter case: `always`, `yes` and `true` name
/// `Always`; `never`, `no` and `false` name `Never`; `auto` names `Auto`; any other text is
/// refused.
pub proof fn law_color_words(s: Seq<char>)
    ensures
        caseless(s, "always"@) || caseless(s, "yes"@) || caseless(s, "true"@) ==> spec_parse_color_when(s)
            == Ok::<ColorWhen, Seq<char>>(ColorWhen::Always),
        caseless(s, "never"@) || caseless(s, "no"@) || caseless(s, "false"@) ==> spec_parse_color_when(s)
            == Ok::<ColorWhen, Seq<char>>(ColorWhen::Never),
        caseless(s, "auto"@) ==> spec_parse_color_when(s) == Ok::<ColorWhen, Seq<char>>(ColorWhen::Auto),
        !(caseless(s, "always"@) || caseless(s, "yes"@) || caseless(s, "true"@) || caseless(s, "never"@)
            || caseless(s, "no"@) || caseless(s, "false"@) || caseless(s, "auto"@)) ==> spec_parse_color_when(s)
            == Err::<ColorWhen, Seq<char>>("must be always, never, or auto"@),
{
    reveal_strlit("always");
    reveal_strlit("yes");
    reveal_strlit("true");
    reveal_strlit("never");
    reveal_strlit("no");
    reveal_strlit("false");
    reveal_strlit("auto");
    lemma_caseless(s, "always"@);
    lemma_caseless(s, "yes"@);
    lemma_caseless(s, "true"@);
    lemma_caseless(s, "never"@);
    lemma_caseless(s, "no"@);
    lemma_caseless(s, "false"@);
    lemma_caseless(s, "auto"@);
    if caseless(s, "auto"@) {
        assert(s[0] == 'a' || (s[0] as u32) + 32 == 0x61);
        assert(!caseless(s, "true"@)) by {
            if caseless(s, "true"@) {
                assert(s[0] == 't' || (s[0] as u32) + 32 == 0x74);
            }
        }
    }
}

} // verus!
