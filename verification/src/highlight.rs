//! The code highlighter bridge: resolves a language definition for a fenced
//! block and adapts the external line tokenizer's (style, substring) stream
//! into the local style model.
//!
//! The external tokenizer is isolated behind a handful of trusted items.
//! Nothing about token boundaries or token styles is assumed: the bridge
//! checks in verified code that the tokens reassemble the block's literal
//! text, and falls back to the plain literal whenever they do not, so a
//! fenced block always contributes exactly its literal text to the output.

use vstd::prelude::*;
use syntect::easy::HighlightLines;
use syntect::highlighting::Theme;
use syntect::parsing::{SyntaxReference, SyntaxSet};
use crate::chars::{first_token, split_lines, str_eq_chars, trim_start};
use crate::style::{BaseColor, EffectSet, Style, TermColor};
use crate::text::{StyledText, lemma_text_of_push, text_of};

verus! {

/// The external syntax-definition table, opaque here: a collection of
/// language definitions with lookup by token, by first line, and by name.
#[verifier::external_type_specification]
#[verifier::external_body]
pub struct ExSyntaxSet(SyntaxSet);

/// One external language definition, opaque here; it only flows from a
/// lookup into the tokenizer's constructor.
#[verifier::external_type_specification]
#[verifier::external_body]
pub struct ExSyntaxReference(SyntaxReference);

/// The external highlighting theme, opaque here; the renderer only passes
/// it through to the tokenizer.
#[verifier::external_type_specification]
#[verifier::external_body]
pub struct ExTheme(Theme);

/// The external stateful line tokenizer, opaque here; its state advances
/// with each line it is fed.
#[verifier::external_type_specification]
#[verifier::external_body]
pub struct ExHighlightLines<'a>(HighlightLines<'a>);

/// Whether a syntax table is fit for lookups and tokenization: every regular
/// expression it carries (first-line matchers and context patterns) was
/// pre-tested when the table was loaded, as the tables produced by the
/// external library's own loaders are.
pub uninterp spec fn syntax_set_wf(ss: SyntaxSet) -> bool;

/// Whether a language definition was obtained by a lookup in the given
/// syntax table, and so belongs to it. Tokenizing with a definition from a
/// different table would make the parser resolve contexts the table does
/// not hold, which it does not survive; the lookup wrappers establish this
/// for every definition they hand out.
pub uninterp spec fn from_set(syntax: SyntaxReference, ss: SyntaxSet) -> bool;

/// Whether a line tokenizer was seeded with a definition belonging to the
/// given syntax table. Feeding it lines under that same table keeps it so.
pub uninterp spec fn seeded_from(hl: HighlightLines, ss: SyntaxSet) -> bool;

/// Relies on `SyntaxSet::load_defaults_newlines`: decodes the syntax table
/// shipped with the external library, whose patterns were compile-checked
/// when that table was built. The check holds under the regular-expression
/// engine this crate selects, which the shipped table is maintained for.
#[verifier::external_body]
pub fn load_default_syntax_set() -> (r: SyntaxSet)
    ensures
        syntax_set_wf(r),
{
    SyntaxSet::load_defaults_newlines()
}

/// Relies on `SyntaxSet::find_syntax_by_token`: looks the token up among the
/// table's file extensions and names; returns `None` on a miss. A hit
/// belongs to the table it was looked up in.
#[verifier::external_body]
fn find_syntax_token<'s>(ss: &'s SyntaxSet, token: &str) -> (r: Option<&'s SyntaxReference>)
    ensures
        r matches Some(sx) ==> from_set(*sx, *ss),
{
    ss.find_syntax_by_token(token)
}

/// Relies on `SyntaxSet::find_syntax_by_first_line`: matches the line
/// against the table's first-line patterns; returns `None` on a miss. The
/// patterns must be pre-tested, which `syntax_set_wf` records.
#[verifier::external_body]
fn find_syntax_first_line<'s>(ss: &'s SyntaxSet, line: &str) -> (r: Option<&'s SyntaxReference>)
    requires
        syntax_set_wf(*ss),
    ensures
        r matches Some(sx) ==> from_set(*sx, *ss),
{
    ss.find_syntax_by_first_line(line)
}

/// Relies on `SyntaxSet::find_syntax_by_name`: looks a syntax up by its
/// name, ignoring ASCII case; returns `None` on a miss. A hit belongs to
/// the table it was looked up in.
#[verifier::external_body]
fn find_syntax_name<'s>(ss: &'s SyntaxSet, name: &str) -> (r: Option<&'s SyntaxReference>)
    ensures
        r matches Some(sx) ==> from_set(*sx, *ss),
{
    ss.find_syntax_by_name(name)
}

/// Relies on `HighlightLines::new`: a fresh stateful line tokenizer seeded
/// with the resolved definition and the theme. The definition must belong
/// to `ss` (the constructor reads the definition's own context table, which
/// only a definition handed out by a real table carries), and the tokenizer
/// it returns is seeded from `ss`.
#[verifier::external_body]
fn new_highlight_lines<'t>(
    ss: &SyntaxSet,
    syntax: &SyntaxReference,
    theme: &'t Theme,
) -> (r: HighlightLines<'t>)
    requires
        from_set(*syntax, *ss),
    ensures
        seeded_from(r, *ss),
{
    HighlightLines::new(syntax, theme)
}

/// One tokenizer output token, reduced to the plain values the style
/// translation reads: the foreground's red and alpha channels, the
/// font-style bitmask, and the token's text.
pub struct RawToken {
    pub fg_r: u8,
    pub fg_a: u8,
    pub font_bits: u8,
    pub text: String,
}

/// Relies on `HighlightLines::highlight_line`: tokenizes one line under the
/// table, advancing the tokenizer's internal state, and yields each token's
/// style and substring; a tokenization error becomes `None`. Nothing is
/// assumed about the tokens themselves: the caller checks that their texts
/// reassemble the line. The table's patterns must be pre-tested
/// (`syntax_set_wf`) and the tokenizer must have been seeded with a
/// definition belonging to this same table (`seeded_from`): fed a foreign
/// tokenizer, the parser would resolve contexts the table does not hold.
/// The call leaves the tokenizer seeded from the same table.
#[verifier::external_body]
fn highlight_line_tokens(hl: &mut HighlightLines, line: &str, ss: &SyntaxSet) -> (r: Option<
    Vec<RawToken>,
>)
    requires
        syntax_set_wf(*ss),
        seeded_from(*old(hl), *ss),
    ensures
        seeded_from(*final(hl), *ss),
{
    match hl.highlight_line(line, ss) {
        Ok(toks) => Some(
            toks.into_iter().map(
                |(st, t): (syntect::highlighting::Style, &str)| RawToken {
                    fg_r: st.foreground.r,
                    fg_a: st.foreground.a,
                    font_bits: st.font_style.bits(),
                    text: t.to_string(),
                },
            ).collect(),
        ),
        Err(_) => None,
    }
}

/// The local effect set for a tokenizer font-style bitmask: bit 0 is bold,
/// bit 1 is underline, bit 2 is italic.
pub open spec fn effects_of_bits(bits: u8) -> EffectSet {
    EffectSet {
        bold: bits & 1 != 0,
        italic: bits & 4 != 0,
        underline: bits & 2 != 0,
        dim: false,
        strikethrough: false,
    }
}

/// The ANSI palette color for an index taken modulo sixteen: the first
/// eight are the dark base colors, the next eight the light ones.
pub open spec fn ansi_color(idx: u8) -> TermColor {
    let i = idx % 16;
    if i == 0 { TermColor::Dark(BaseColor::Black) }
    else if i == 1 { TermColor::Dark(BaseColor::Red) }
    else if i == 2 { TermColor::Dark(BaseColor::Green) }
    else if i == 3 { TermColor::Dark(BaseColor::Yellow) }
    else if i == 4 { TermColor::Dark(BaseColor::Blue) }
    else if i == 5 { TermColor::Dark(BaseColor::Magenta) }
    else if i == 6 { TermColor::Dark(BaseColor::Cyan) }
    else if i == 7 { TermColor::Dark(BaseColor::White) }
    else if i == 8 { TermColor::Light(BaseColor::Black) }
    else if i == 9 { TermColor::Light(BaseColor::Red) }
    else if i == 10 { TermColor::Light(BaseColor::Green) }
    else if i == 11 { TermColor::Light(BaseColor::Yellow) }
    else if i == 12 { TermColor::Light(BaseColor::Blue) }
    else if i == 13 { TermColor::Light(BaseColor::Magenta) }
    else if i == 14 { TermColor::Light(BaseColor::Cyan) }
    else { TermColor::Light(BaseColor::White) }
}

/// What any style inside a rendered code block satisfies: the background
/// is the terminal's own default (explicit backgrounds are discarded), and
/// neither dim nor strikethrough is ever applied there. Every translated
/// token style and the plain fallback style satisfy it.
pub open spec fn block_style_ok(s: Style) -> bool {
    s.bg == TermColor::TerminalDefault && !s.effects.dim && !s.effects.strikethrough
}

/// The local style of a tokenizer token: a zero alpha channel marks the
/// foreground's red channel as an ANSI palette index; any other alpha keeps
/// the terminal's own default foreground. Explicit backgrounds are
/// discarded for terminal portability.
pub open spec fn translate_style_spec(fg_r: u8, fg_a: u8, font_bits: u8) -> Style {
    Style {
        effects: effects_of_bits(font_bits),
        fg: if fg_a == 0 {
            ansi_color(fg_r)
        } else {
            TermColor::TerminalDefault
        },
        bg: TermColor::TerminalDefault,
    }
}

/// Translates a token's foreign style fields into the local style model.
pub fn translate_style(fg_r: u8, fg_a: u8, font_bits: u8) -> (r: Style)
    ensures
        r == translate_style_spec(fg_r, fg_a, font_bits),
{
    let effects = EffectSet {
        bold: font_bits & 1 != 0,
        italic: font_bits & 4 != 0,
        underline: font_bits & 2 != 0,
        dim: false,
        strikethrough: false,
    };
    let fg = if fg_a == 0 {
        let i = fg_r % 16;
        if i == 0 { TermColor::Dark(BaseColor::Black) }
        else if i == 1 { TermColor::Dark(BaseColor::Red) }
        else if i == 2 { TermColor::Dark(BaseColor::Green) }
        else if i == 3 { TermColor::Dark(BaseColor::Yellow) }
        else if i == 4 { TermColor::Dark(BaseColor::Blue) }
        else if i == 5 { TermColor::Dark(BaseColor::Magenta) }
        else if i == 6 { TermColor::Dark(BaseColor::Cyan) }
        else if i == 7 { TermColor::Dark(BaseColor::White) }
        else if i == 8 { TermColor::Light(BaseColor::Black) }
        else if i == 9 { TermColor::Light(BaseColor::Red) }
        else if i == 10 { TermColor::Light(BaseColor::Green) }
        else if i == 11 { TermColor::Light(BaseColor::Yellow) }
        else if i == 12 { TermColor::Light(BaseColor::Blue) }
        else if i == 13 { TermColor::Light(BaseColor::Magenta) }
        else if i == 14 { TermColor::Light(BaseColor::Cyan) }
        else { TermColor::Light(BaseColor::White) }
    } else {
        TermColor::TerminalDefault
    };
    Style { effects, fg, bg: TermColor::TerminalDefault }
}

/// Tokenizes the lines of `literal` with the resolved syntax, building
/// highlighted spans. Returns `None` if any line fails to tokenize or the
/// tokens do not reassemble the literal exactly.
fn highlight_spans(
    syntax: &SyntaxReference,
    theme: &Theme,
    ss: &SyntaxSet,
    literal: &str,
) -> (r: Option<StyledText>)
    requires
        syntax_set_wf(*ss),
        from_set(*syntax, *ss),
    ensures
        r matches Some(t) ==> text_of(t@) == literal@,
        r matches Some(t) ==> forall|i: int|
            0 <= i < t@.len() ==> block_style_ok((#[trigger] t@[i]).style),
{
    let mut hl = new_highlight_lines(ss, syntax, theme);
    let lines = split_lines(literal);
    let mut out = StyledText::new();
    let mut acc = String::new();
    let ghost all_lines = lines@.map(|i: int, p: &str| p@);
    let mut i: usize = 0;
    while i < lines.len()
        invariant
            syntax_set_wf(*ss),
            seeded_from(hl, *ss),
            i <= lines.len(),
            all_lines == lines@.map(|k: int, p: &str| p@),
            crate::chars::concat_seqs(all_lines) == literal@,
            acc@ == text_of(out@),
            forall|k: int| 0 <= k < out@.len() ==> block_style_ok((#[trigger] out@[k]).style),
        decreases lines.len() - i,
    {
        let line: &str = lines[i];
        match highlight_line_tokens(&mut hl, line, ss) {
            Some(toks) => {
                let mut j: usize = 0;
                while j < toks.len()
                    invariant
                        j <= toks.len(),
                        acc@ == text_of(out@),
                        forall|k: int| 0 <= k < out@.len() ==> block_style_ok((#[trigger] out@[k]).style),
                    decreases toks.len() - j,
                {
                    let text = toks[j].text.clone();
                    let style = translate_style(toks[j].fg_r, toks[j].fg_a, toks[j].font_bits);
                    acc.append(text.as_str());
                    let ghost pre = out@;
                    out.push_span(text, style);
                    proof {
                        lemma_text_of_push(pre, out@.last());
                    }
                    j = j + 1;
                }
            },
            None => {
                return None;
            },
        }
        i = i + 1;
    }
    if str_eq_chars(acc.as_str(), literal) {
        Some(out)
    } else {
        None
    }
}

/// Renders one fenced code block: resolves a language definition for the
/// info string's first token (falling back to a first-line sniff of the
/// literal, then to the table's plain-text definition), feeds the literal
/// line by line through the external tokenizer, and translates each token's
/// style. If resolution or tokenization fails in any way, the raw literal
/// is appended as plain, unstyled text instead. Either way the block
/// contributes exactly its literal text.
pub fn highlight_block(ss: &SyntaxSet, theme: &Theme, info: &str, literal: &str) -> (r: StyledText)
    requires
        syntax_set_wf(*ss),
    ensures
        text_of(r@) == literal@,
        forall|i: int| 0 <= i < r@.len() ==> block_style_ok((#[trigger] r@[i]).style),
{
    let token = first_token(info);
    let by_token = find_syntax_token(ss, token);
    let resolved = match by_token {
        Some(sx) => Some(sx),
        None => {
            let by_line = find_syntax_first_line(ss, trim_start(literal));
            match by_line {
                Some(sx) => Some(sx),
                None => find_syntax_name(ss, "Plain Text"),
            }
        },
    };
    let highlighted = match resolved {
        Some(syntax) => highlight_spans(syntax, theme, ss, literal),
        None => None,
    };
    match highlighted {
        Some(t) => t,
        None => {
            let mut out = StyledText::new();
            let ghost pre = out@;
            out.push_str(literal, Style::plain());
            proof {
                lemma_text_of_push(pre, out@.last());
                assert(text_of(pre) + literal@ =~= literal@);
            }
            out
        },
    }
}

} // verus!
