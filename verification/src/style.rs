//! Colors and styles of terminal cells, as plain values.
//!
//! A [`Style`] says which colors and text modifiers a cell gets. Every part
//! of it may be left unset, so that styles can be laid over each other with
//! [`Style::patch`].
use vstd::prelude::*;

verus! {

/// A terminal color.
#[derive(Debug, Clone, Copy, PartialEq, Eq, Structural)]
pub enum Color {
    Reset,
    Black,
    Red,
    Green,
    Yellow,
    Blue,
    Magenta,
    Cyan,
    Gray,
    DarkGray,
    LightRed,
    LightGreen,
    LightYellow,
    LightBlue,
    LightMagenta,
    LightCyan,
    White,
    Rgb(u8, u8, u8),
    Indexed(u8),
}

/// Text modifiers are a set of bits, one bit each, held in a `u16`.
pub const BOLD: u16 = 0x0001;

pub const DIM: u16 = 0x0002;

pub const ITALIC: u16 = 0x0004;

pub const UNDERLINED: u16 = 0x0008;

pub const SLOW_BLINK: u16 = 0x0010;

pub const RAPID_BLINK: u16 = 0x0020;

pub const REVERSED: u16 = 0x0040;

pub const HIDDEN: u16 = 0x0080;

pub const CROSSED_OUT: u16 = 0x0100;

/// The set of all modifiers.
pub const ALL_MODIFIERS: u16 = 0x01ff;

/// How a cell looks: its colors, the modifiers to switch on and those to
/// switch off. A color that is `None` is left as it was.
#[derive(Debug, Clone, Copy, PartialEq, Eq, Structural)]
pub struct Style {
    pub fg: Option<Color>,
    pub bg: Option<Color>,
    pub add_modifier: u16,
    pub sub_modifier: u16,
}

impl Style {
    /// The style that changes nothing.
    pub open spec fn unset() -> Style {
        Style {
            fg: None,
            bg: None,
            add_modifier: 0,
            sub_modifier: 0,
        }
    }

    /// This style with `other` laid over it: what `other` sets wins, what it
    /// leaves unset stays.
    pub open spec fn patched(self, other: Style) -> Style {
        Style {
            fg: if other.fg is Some {
                other.fg
            } else {
                self.fg
            },
            bg: if other.bg is Some {
                other.bg
            } else {
                self.bg
            },
            add_modifier: (self.add_modifier & !other.sub_modifier) | other.add_modifier,
            sub_modifier: (self.sub_modifier & !other.add_modifier) | other.sub_modifier,
        }
    }

    /// The style that sets both colors back to the terminal's own and
    /// switches every modifier off.
    pub fn reset() -> (res: Style)
        ensures
            res == (Style {
                fg: Some(Color::Reset),
                bg: Some(Color::Reset),
                add_modifier: 0,
                sub_modifier: ALL_MODIFIERS,
            }),
    {
        Style {
            fg: Some(Color::Reset),
            bg: Some(Color::Reset),
            add_modifier: 0,
            sub_modifier: ALL_MODIFIERS,
        }
    }

    /// Sets the foreground color.
    pub fn fg(self, color: Color) -> (res: Style)
        ensures
            res == (Style { fg: Some(color), ..self }),
    {
        Style { fg: Some(color), ..self }
    }

    /// Sets the background color.
    pub fn bg(self, color: Color) -> (res: Style)
        ensures
            res == (Style { bg: Some(color), ..self }),
    {
        Style { bg: Some(color), ..self }
    }

    /// Switches the given modifiers on.
    pub fn add_modifier(self, modifier: u16) -> (res: Style)
        ensures
            res == (Style {
                add_modifier: self.add_modifier | modifier,
                sub_modifier: self.sub_modifier & !modifier,
                ..self
            }),
    {
        Style {
            add_modifier: self.add_modifier | modifier,
            sub_modifier: self.sub_modifier & !modifier,
            ..self
        }
    }

    /// Switches the given modifiers off.
    pub fn remove_modifier(self, modifier: u16) -> (res: Style)
        ensures
            res == (Style {
                add_modifier: self.add_modifier & !modifier,
                sub_modifier: self.sub_modifier | modifier,
                ..self
            }),
    {
        Style {
            add_modifier: self.add_modifier & !modifier,
            sub_modifier: self.sub_modifier | modifier,
            ..self
        }
    }

    /// Lays `other` over this style: see [`Self::patched`].
    pub fn patch(self, other: Style) -> (res: Style)
        ensures
            res == self.patched(other),
    {
        Style {
            fg: if other.fg.is_some() {
                other.fg
            } else {
                self.fg
            },
            bg: if other.bg.is_some() {
                other.bg
            } else {
                self.bg
            },
            add_modifier: (self.add_modifier & !other.sub_modifier) | other.add_modifier,
            sub_modifier: (self.sub_modifier & !other.add_modifier) | other.sub_modifier,
        }
    }
}

impl Default for Style {
    fn default() -> (res: Style)
        ensures
            res == Style::unset(),
    {
        Style { fg: None, bg: None, add_modifier: 0, sub_modifier: 0 }
    }
}

/// Patching with the unset style changes nothing, and a patch sets exactly
/// the colors that the upper style sets.
pub proof fn lemma_patch_unset(s: Style)
    ensures
        s.patched(Style::unset()) == s,
        Style::unset().patched(s).fg == s.fg,
        Style::unset().patched(s).bg == s.bg,
{
    let b = s.add_modifier;
    let c = s.sub_modifier;
    assert((b & !0u16) | 0u16 == b) by (bit_vector);
    assert((c & !0u16) | 0u16 == c) by (bit_vector);
}

} // verus!
