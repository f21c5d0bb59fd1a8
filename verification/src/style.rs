//! The style model: effect sets, terminal colors, resolved span styles, and
//! the stack of style frames whose merge gives the effective style at any
//! traversal point.

use vstd::prelude::*;

verus! {

/// One of the eight base terminal colors.
#[derive(Clone, Copy, Debug, PartialEq, Eq)]
pub enum BaseColor {
    Black,
    Red,
    Green,
    Yellow,
    Blue,
    Magenta,
    Cyan,
    White,
}

/// A resolved color of a styled span: either the terminal's own default or
/// one of the sixteen ANSI palette entries (a base color, dark or light).
#[derive(Clone, Copy, Debug, PartialEq, Eq)]
pub enum TermColor {
    TerminalDefault,
    Dark(BaseColor),
    Light(BaseColor),
}

/// The set of text effects a span can carry.
#[derive(Clone, Copy, Debug, PartialEq, Eq)]
pub struct EffectSet {
    pub bold: bool,
    pub italic: bool,
    pub underline: bool,
    pub dim: bool,
    pub strikethrough: bool,
}

impl EffectSet {
    /// The empty effect set.
    pub open spec fn spec_none() -> EffectSet {
        EffectSet { bold: false, italic: false, underline: false, dim: false, strikethrough: false }
    }

    #[verifier::when_used_as_spec(spec_none)]
    pub fn none() -> (r: EffectSet)
        ensures
            r == EffectSet::spec_none(),
    {
        EffectSet { bold: false, italic: false, underline: false, dim: false, strikethrough: false }
    }

    /// The union of two effect sets.
    pub open spec fn spec_union(self, other: EffectSet) -> EffectSet {
        EffectSet {
            bold: self.bold || other.bold,
            italic: self.italic || other.italic,
            underline: self.underline || other.underline,
            dim: self.dim || other.dim,
            strikethrough: self.strikethrough || other.strikethrough,
        }
    }

    #[verifier::when_used_as_spec(spec_union)]
    pub fn union(self, other: EffectSet) -> (r: EffectSet)
        ensures
            r == self.spec_union(other),
    {
        EffectSet {
            bold: self.bold || other.bold,
            italic: self.italic || other.italic,
            underline: self.underline || other.underline,
            dim: self.dim || other.dim,
            strikethrough: self.strikethrough || other.strikethrough,
        }
    }
}

/// The resolved style of one output span.
#[derive(Clone, Copy, Debug, PartialEq, Eq)]
pub struct Style {
    pub effects: EffectSet,
    pub fg: TermColor,
    pub bg: TermColor,
}

impl Style {
    /// The plain (ambient) style: no effects, terminal-default colors.
    pub open spec fn spec_plain() -> Style {
        Style {
            effects: EffectSet::spec_none(),
            fg: TermColor::TerminalDefault,
            bg: TermColor::TerminalDefault,
        }
    }

    #[verifier::when_used_as_spec(spec_plain)]
    pub fn plain() -> (r: Style)
        ensures
            r == Style::spec_plain(),
    {
        Style { effects: EffectSet::none(), fg: TermColor::TerminalDefault, bg: TermColor::TerminalDefault }
    }
}

/// One frame of the style stack: the effects it adds and, optionally, a
/// foreground color it sets. A `None` foreground inherits from the frames
/// below it.
#[derive(Clone, Copy, Debug, PartialEq, Eq)]
pub struct StyleFrame {
    pub effects: EffectSet,
    pub fg: Option<TermColor>,
}

/// The effective style of a frame stack: effect sets union over all frames;
/// the foreground is the most recently pushed frame color that is not
/// inherited, defaulting to the terminal default; the background is always
/// the terminal default. An empty stack yields the plain style.
pub open spec fn effective(stack: Seq<StyleFrame>) -> Style
    decreases stack.len(),
{
    if stack.len() == 0 {
        Style::spec_plain()
    } else {
        let below = effective(stack.drop_last());
        let top = stack.last();
        Style {
            effects: below.effects.spec_union(top.effects),
            fg: match top.fg {
                Some(c) => c,
                None => below.fg,
            },
            bg: TermColor::TerminalDefault,
        }
    }
}

/// Whatever the frame stack holds, the effective background is the
/// terminal's own default.
pub proof fn lemma_effective_bg(stack: Seq<StyleFrame>)
    ensures
        effective(stack).bg == TermColor::TerminalDefault,
{
}

/// Computes the effective style of the current frame stack.
pub fn effective_style(stack: &Vec<StyleFrame>) -> (r: Style)
    ensures
        r == effective(stack@),
{
    let mut r = Style::plain();
    let mut i: usize = 0;
    while i < stack.len()
        invariant
            i <= stack.len(),
            r == effective(stack@.take(i as int)),
        decreases stack.len() - i,
    {
        let top = stack[i];
        let below = r;
        r = Style {
            effects: below.effects.union(top.effects),
            fg: match top.fg {
                Some(c) => c,
                None => below.fg,
            },
            bg: TermColor::TerminalDefault,
        };
        i = i + 1;
        proof {
            assert(stack@.take(i as int).drop_last() =~= stack@.take(i - 1));
            assert(stack@.take(i as int).last() == stack@[i - 1]);
        }
    }
    proof {
        assert(stack@.take(stack@.len() as int) =~= stack@);
    }
    r
}

} // verus!
