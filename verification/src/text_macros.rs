//! Helpers for building and styling text.
use vstd::prelude::*;
use crate::style::{Color, Style, BOLD, ITALIC, UNDERLINED};
use crate::text::{plain_line, raw_lines, LineView, Span, SpanView, Spans, Text};

verus! {

/// The run with the given modifiers switched on.
pub open spec fn with_modifier(s: SpanView, modifier: u16) -> SpanView {
    SpanView {
        content: s.content,
        style: Style {
            add_modifier: s.style.add_modifier | modifier,
            sub_modifier: s.style.sub_modifier & !modifier,
            ..s.style
        },
    }
}

/// The run in bold.
pub fn bold(s: Span) -> (res: Span)
    ensures
        res@ == with_modifier(s@, BOLD),
{
    Span { content: s.content, style: s.style.add_modifier(BOLD) }
}

/// The run in italics.
pub fn italic(s: Span) -> (res: Span)
    ensures
        res@ == with_modifier(s@, ITALIC),
{
    Span { content: s.content, style: s.style.add_modifier(ITALIC) }
}

/// The run underlined.
pub fn underlined(s: Span) -> (res: Span)
    ensures
        res@ == with_modifier(s@, UNDERLINED),
{
    Span { content: s.content, style: s.style.add_modifier(UNDERLINED) }
}

/// The run with the foreground color `c`.
pub fn fg(s: Span, c: Color) -> (res: Span)
    ensures
        res@ == (SpanView { content: s@.content, style: Style { fg: Some(c), ..s@.style } }),
{
    Span { content: s.content, style: s.style.fg(c) }
}

/// The run with the background color `c`.
pub fn bg(s: Span, c: Color) -> (res: Span)
    ensures
        res@ == (SpanView { content: s@.content, style: Style { bg: Some(c), ..s@.style } }),
{
    Span { content: s.content, style: s.style.bg(c) }
}

/// The lines of a string, each as a line of text without a style.
pub fn split(s: &str) -> (res: Vec<Spans>)
    ensures
        res@.map_values(|l: Spans| l@) == raw_lines(s@).map_values(|l: Seq<char>| plain_line(l)),
{
    Text::raw(s).lines
}

/// One line of text made of the given runs. With this, a line can have
/// several styles.
pub fn line(runs: Vec<Span>) -> (res: Spans)
    ensures
        res.0 == runs,
{
    Spans(runs)
}

/// Adding lines to a text, for every kind of value that can be a line or
/// several lines.
pub trait AddLines<T>: View<V = Seq<LineView>> {
    /// The lines of the text after `to_add` has been added.
    spec fn with_lines(lines: Seq<LineView>, to_add: T) -> Seq<LineView>;

    /// Adds `to_add` at the end of the text.
    fn add_lines(&mut self, to_add: T)
        ensures
            final(self)@ == Self::with_lines(old(self)@, to_add),
    ;
}

impl<'a> AddLines<&'a str> for Text {
    /// A string is added as one line without a style.
    open spec fn with_lines(lines: Seq<LineView>, to_add: &'a str) -> Seq<LineView> {
        lines.push(plain_line(to_add@))
    }

    fn add_lines(&mut self, to_add: &'a str) {
        let ghost before = self@;
        self.lines.push(Spans::raw(to_add));
        assert(self@ =~= before.push(plain_line(to_add@)));
    }
}

impl AddLines<String> for Text {
    /// A string is added as one line without a style.
    open spec fn with_lines(lines: Seq<LineView>, to_add: String) -> Seq<LineView> {
        lines.push(plain_line(to_add@))
    }

    fn add_lines(&mut self, to_add: String) {
        let ghost before = self@;
        self.lines.push(Spans::raw(to_add.as_str()));
        assert(self@ =~= before.push(plain_line(to_add@)));
    }
}

impl AddLines<Span> for Text {
    /// A run is added as a line of its own.
    open spec fn with_lines(lines: Seq<LineView>, to_add: Span) -> Seq<LineView> {
        lines.push(seq![to_add@])
    }

    fn add_lines(&mut self, to_add: Span) {
        let ghost before = self@;
        self.lines.push(Spans::from_span(to_add));
        assert(self@ =~= before.push(seq![to_add@]));
    }
}

impl AddLines<Spans> for Text {
    /// A line is added as it is.
    open spec fn with_lines(lines: Seq<LineView>, to_add: Spans) -> Seq<LineView> {
        lines.push(to_add@)
    }

    fn add_lines(&mut self, to_add: Spans) {
        let ghost before = self@;
        self.lines.push(to_add);
        assert(self@ =~= before.push(to_add@));
    }
}

impl AddLines<Vec<Spans>> for Text {
    /// Several lines are added in their order.
    open spec fn with_lines(lines: Seq<LineView>, to_add: Vec<Spans>) -> Seq<LineView> {
        lines + to_add@.map_values(|l: Spans| l@)
    }

    fn add_lines(&mut self, to_add: Vec<Spans>) {
        let ghost before = self@;
        let mut to_add = to_add;
        let ghost added = to_add@;
        self.lines.append(&mut to_add);
        assert(self@ =~= before + added.map_values(|l: Spans| l@));
    }
}

} // verus!
