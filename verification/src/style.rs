//! Colors, modifiers and styles for terminal cells.

use vstd::prelude::*;

verus! {

/// A terminal color. Each variant has exactly one encoding rule; values are
/// never converted from one variant to another, and indexed or RGB values are
/// passed through unvalidated.
#[derive(Clone, Copy, Debug, PartialEq, Eq, Structural)]
pub enum Color {
    Reset,
    Black,
    Red,
    Green,
    Yellow,
    Blue,
    Magenta,
    Cyan,
    Gray,
    LightRed,
    LightGreen,
    LightYellow,
    LightBlue,
    LightMagenta,
    LightCyan,
    LightGray,
    White,
    Indexed(u8),
    Rgb(u8, u8, u8),
}

/// The set of text modifiers a cell can carry.
#[derive(Clone, Copy, Debug, PartialEq, Eq, Structural)]
pub struct Modifiers {
    pub bold: bool,
    pub italic: bool,
    pub reversed: bool,
}

impl Modifiers {
    /// The empty modifier set.
    pub fn none() -> (r: Modifiers)
        ensures
            r == (Modifiers { bold: false, italic: false, reversed: false }),
    {
        Modifiers { bold: false, italic: false, reversed: false }
    }
}

/// How a cell is underlined. The output backend accepts it but does not emit
/// a sequence for it; it exists so that styles can carry it through.
#[derive(Clone, Copy, Debug, PartialEq, Eq, Structural)]
pub enum UnderlineStyle {
    Reset,
    Line,
    Curl,
    Dotted,
    Dashed,
    DoubleLine,
}

/// One styled character position: the text unit (as UTF-8 bytes) plus its
/// rendering attributes. Immutable for the duration of a frame.
#[derive(Clone, Debug)]
pub struct Cell {
    pub symbol: Vec<u8>,
    pub fg: Color,
    pub bg: Color,
    pub modifiers: Modifiers,
    pub underline: UnderlineStyle,
}

/// A partial style: each attribute is either set or left open. Styles are
/// combined by attribute-wise overlay, so a later style overrides only the
/// attributes it sets.
#[derive(Clone, Copy, Debug, PartialEq, Eq)]
pub struct Style {
    pub fg: Option<Color>,
    pub bg: Option<Color>,
    pub modifiers: Option<Modifiers>,
    pub underline: Option<UnderlineStyle>,
}

/// Attribute-wise overlay: every attribute that `over` sets replaces the one
/// in `base`; every attribute it leaves open keeps the value from `base`.
pub open spec fn spec_patch(base: Style, over: Style) -> Style {
    Style {
        fg: if over.fg is Some {
            over.fg
        } else {
            base.fg
        },
        bg: if over.bg is Some {
            over.bg
        } else {
            base.bg
        },
        modifiers: if over.modifiers is Some {
            over.modifiers
        } else {
            base.modifiers
        },
        underline: if over.underline is Some {
            over.underline
        } else {
            base.underline
        },
    }
}

impl Style {
    /// A style that sets nothing.
    pub fn empty() -> (r: Style)
        ensures
            r == (Style { fg: None, bg: None, modifiers: None, underline: None }),
    {
        Style { fg: None, bg: None, modifiers: None, underline: None }
    }

    /// Overlay `over` onto `self` attribute by attribute.
    pub fn patch(&self, over: &Style) -> (r: Style)
        ensures
            r == spec_patch(*self, *over),
    {
        Style {
            fg: if over.fg.is_some() {
                over.fg
            } else {
                self.fg
            },
            bg: if over.bg.is_some() {
                over.bg
            } else {
                self.bg
            },
            modifiers: if over.modifiers.is_some() {
                over.modifiers
            } else {
                self.modifiers
            },
            underline: if over.underline.is_some() {
                over.underline
            } else {
                self.underline
            },
        }
    }
}

} // verus!
