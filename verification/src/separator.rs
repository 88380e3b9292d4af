//! Separator lines: the rows that divide the items of a list.
//!
//! A separator is a row of lower half blocks. Its background is the
//! background of the item above it and its foreground is the background of
//! the item below it, so that the row blends the two. Above the first and
//! below the last item, the list's own background takes the place of the
//! missing neighbor.
use vstd::prelude::*;
use crate::display_line::{DisplayLine, DisplayLineView};
use crate::style::{Color, Style, ALL_MODIFIERS};
use crate::text::{plain_line, Spans};

verus! {

/// A run of `n` lower half blocks.
pub open spec fn half_run(n: nat) -> Seq<char> {
    Seq::new(n, |i: int| '\u{2584}')
}

/// A string of `width` lower half blocks, made by `str::repeat` from the
/// block character that `tui::symbols::bar::HALF` holds.
#[verifier::external_body]
fn gen_line(width: u16) -> (res: String)
    ensures
        res@ == half_run(width as nat),
{
    tui::symbols::bar::HALF.repeat(width as usize)
}

/// Makes the separator lines of one pass over a list.
///
/// It remembers the colors of the separator it made last. For the next one,
/// the foreground of the last becomes the background, and the background of
/// the item that follows becomes the foreground.
#[derive(Clone, Copy, Debug, PartialEq, Eq, Structural)]
pub struct Separator {
    /// Number of cells in a separator line.
    pub width: u16,
    /// The colors at the two ends of the list.
    pub default_style: Style,
    /// The colors of the separator line made last.
    pub curr_style: Style,
}

impl Separator {
    /// The separator at the start of a list whose default style is `style`.
    pub open spec fn start(width: u16, style: Style) -> Separator {
        let init = match style.bg {
            Some(c) => Style {
                fg: Some(c),
                bg: Some(c),
                add_modifier: 0,
                sub_modifier: ALL_MODIFIERS,
            },
            None => Style::unset(),
        };
        Separator { width, default_style: init, curr_style: init }
    }

    /// The separator after its colors moved on towards an item with the
    /// background `c`.
    pub open spec fn cycled(self, c: Option<Color>) -> Separator {
        Separator { curr_style: Style { bg: self.curr_style.fg, fg: c, ..self.curr_style }, ..self }
    }

    /// The separator after its colors moved on towards the end of the list.
    pub open spec fn cycled_default(self) -> Separator {
        self.cycled(self.default_style.bg)
    }

    /// The separator line in the current colors.
    pub open spec fn line_view(self, must_display: bool) -> DisplayLineView {
        DisplayLineView {
            style: self.curr_style,
            line: plain_line(half_run(self.width as nat)),
            must_display,
            left_indicator: plain_line(half_run(1)),
            right_indicator: plain_line(half_run(1)),
        }
    }

    /// A separator for lines of `width` cells in a list whose default style is
    /// `style`.
    pub fn new(width: u16, style: Style) -> (res: Self)
        ensures
            res == Separator::start(width, style),
    {
        let init = match style.bg {
            Some(c) => Style::reset().bg(c).fg(c),
            None => Style::default(),
        };
        Separator { width, default_style: init, curr_style: init }
    }

    /// Moves the colors on: the foreground becomes the background, and `c`,
    /// the background of the item that comes next, the foreground.
    pub fn cycle_color(&mut self, c: Option<Color>)
        ensures
            *final(self) == old(self).cycled(c),
    {
        self.curr_style.bg = self.curr_style.fg;
        self.curr_style.fg = c;
    }

    /// Moves the colors on at the end of the list, where the list's own
    /// background comes next.
    pub fn cycle_default(&mut self)
        ensures
            *final(self) == old(self).cycled_default(),
    {
        self.curr_style.bg = self.curr_style.fg;
        self.curr_style.fg = self.default_style.bg;
    }

    /// The separator line in the current colors. `must_display` says whether
    /// the line borders on the selected item.
    pub fn display_line(&self, must_display: bool) -> (res: DisplayLine)
        ensures
            res@ == self.line_view(must_display),
    {
        let run = gen_line(self.width);
        let half = gen_line(1);
        DisplayLine {
            style: self.curr_style,
            line: Spans::raw(run.as_str()),
            must_display,
            left_indicator: Spans::raw(half.as_str()),
            right_indicator: Spans::raw(half.as_str()),
        }
    }
}

/// A separator line has the background that the line before it showed as its
/// foreground, and the color it was cycled to as its foreground.
pub proof fn lemma_separator_blends(sep: Separator, c: Option<Color>, must_display: bool)
    ensures
        sep.cycled(c).line_view(must_display).style.bg == sep.curr_style.fg,
        sep.cycled(c).line_view(must_display).style.fg == c,
        sep.cycled(c).line_view(must_display).must_display == must_display,
        sep.cycled(c).width == sep.width,
        sep.cycled(c).default_style == sep.default_style,
{
}

} // verus!
