//! Styled text as plain values: a [`Span`] is a run of characters in one
//! style, a [`Spans`] is one line made of such runs, and a [`Text`] is a
//! sequence of lines.
use vstd::prelude::*;
use std::collections::VecDeque;
use crate::style::Style;

verus! {

/// A run of characters in one style, as a mathematical value.
pub struct SpanView {
    pub content: Seq<char>,
    pub style: Style,
}

/// One line of text as a mathematical value: its runs, from left to right.
pub type LineView = Seq<SpanView>;

/// The line that holds `content` as a single run without a style.
pub open spec fn plain_line(content: Seq<char>) -> LineView {
    seq![SpanView { content, style: Style::unset() }]
}

/// A run of characters in one style.
#[derive(Debug, Clone, PartialEq, Eq)]
pub struct Span {
    pub content: String,
    pub style: Style,
}

impl View for Span {
    type V = SpanView;

    open spec fn view(&self) -> SpanView {
        SpanView { content: self.content@, style: self.style }
    }
}

impl Span {
    /// A run without a style.
    pub fn raw(content: &str) -> (res: Span)
        ensures
            res@ == (SpanView { content: content@, style: Style::unset() }),
    {
        Span { content: content.to_owned(), style: Style::default() }
    }

    /// A run in the given style.
    pub fn styled(content: &str, style: Style) -> (res: Span)
        ensures
            res@ == (SpanView { content: content@, style }),
    {
        Span { content: content.to_owned(), style }
    }
}

/// One line of text: runs of characters, each in a style of its own.
#[derive(Debug, Clone, PartialEq, Eq)]
pub struct Spans(pub Vec<Span>);

impl View for Spans {
    type V = LineView;

    open spec fn view(&self) -> LineView {
        self.0@.map_values(|s: Span| s@)
    }
}

impl Spans {
    /// The line that holds `content` as a single run without a style.
    pub fn raw(content: &str) -> (res: Spans)
        ensures
            res@ == plain_line(content@),
    {
        Spans::from_span(Span::raw(content))
    }

    /// A copy of this line.
    pub fn duplicate(&self) -> (res: Spans)
        ensures
            res@ == self@,
    {
        let mut runs: Vec<Span> = Vec::new();
        let mut i: usize = 0;
        while i < self.0.len()
            invariant
                i <= self.0@.len(),
                runs@.len() == i,
                forall|j: int| 0 <= j < i ==> (#[trigger] runs@[j])@ == self.0@[j]@,
            decreases self.0@.len() - i,
        {
            runs.push(Span { content: self.0[i].content.clone(), style: self.0[i].style });
            i += 1;
        }
        let res = Spans(runs);
        assert(res@ =~= self@);
        res
    }

    /// The line that holds the one run `span`.
    pub fn from_span(span: Span) -> (res: Spans)
        ensures
            res@ == seq![span@],
    {
        let mut runs: Vec<Span> = Vec::new();
        runs.push(span);
        let res = Spans(runs);
        assert(res@ =~= seq![span@]);
        res
    }
}

/// The contents of the lines into which `tui::text::Text::raw` splits a
/// string, one sequence of characters per line.
pub uninterp spec fn raw_lines(content: Seq<char>) -> Seq<Seq<char>>;

/// Splits a string into its lines with `tui::text::Text::raw`, and hands each
/// line out as a string by `String::from`, which joins the runs of a line.
/// The contract gives the result a name; it depends on `content` alone.
#[verifier::external_body]
fn split_raw_lines(content: &str) -> (lines: Vec<String>)
    ensures
        lines@.len() == raw_lines(content@).len(),
        forall|i: int| 0 <= i < lines@.len() ==> (#[trigger] lines@[i])@ == raw_lines(content@)[i],
{
    tui::text::Text::raw(content).lines.into_iter().map(String::from).collect()
}

/// The same elements in the same order, held in a queue that hands them out
/// from the front.
pub(crate) fn into_deque<T>(v: Vec<T>) -> (res: VecDeque<T>)
    ensures
        res@ == v@,
{
    let mut v = v;
    let ghost all = v@;
    let mut res: VecDeque<T> = VecDeque::new();
    while v.len() > 0
        invariant
            v@ + res@ == all,
        decreases v@.len(),
    {
        let ghost before = v@;
        let ghost tail = res@;
        let last = v.pop();
        if let Some(x) = last {
            res.push_front(x);
            assert(v@ + res@ =~= before + tail);
        }
    }
    assert(res@ =~= v@ + res@);
    res
}

/// Several lines of styled text.
#[derive(Debug, Clone, PartialEq, Eq)]
pub struct Text {
    pub lines: Vec<Spans>,
}

impl View for Text {
    type V = Seq<LineView>;

    open spec fn view(&self) -> Seq<LineView> {
        self.lines@.map_values(|l: Spans| l@)
    }
}

impl Text {
    /// The text made of the given lines.
    pub fn from_lines(lines: Vec<Spans>) -> (res: Text)
        ensures
            res@ == lines@.map_values(|l: Spans| l@),
            res.lines == lines,
    {
        Text { lines }
    }

    /// The text with one line without a style for each of the given strings.
    pub fn from_strings(strings: Vec<String>) -> (res: Text)
        ensures
            res@ == strings@.map_values(|l: String| plain_line(l@)),
    {
        let ghost all = strings@;
        let mut rest: VecDeque<String> = into_deque(strings);
        let mut lines: Vec<Spans> = Vec::new();
        while rest.len() > 0
            invariant
                rest@.len() + lines@.len() == all.len(),
                forall|j: int| 0 <= j < rest@.len() ==> #[trigger] rest@[j] == all[lines@.len() + j],
                forall|j: int|
                    0 <= j < lines@.len() ==> (#[trigger] lines@[j])@ == plain_line(all[j]@),
            decreases rest@.len(),
        {
            let first = rest.pop_front();
            if let Some(line) = first {
                lines.push(Spans::raw(line.as_str()));
            }
        }
        let res = Text { lines };
        assert(res@ =~= all.map_values(|l: String| plain_line(l@)));
        res
    }

    /// The text of a string: one line without a style for each line of the
    /// string.
    pub fn raw(content: &str) -> (res: Text)
        ensures
            res@ == raw_lines(content@).map_values(|l: Seq<char>| plain_line(l)),
    {
        let strings = split_raw_lines(content);
        let res = Text::from_strings(strings);
        assert(res@ =~= raw_lines(content@).map_values(|l: Seq<char>| plain_line(l)));
        res
    }

    /// Number of lines.
    pub fn height(&self) -> (res: usize)
        ensures
            res == self@.len(),
    {
        self.lines.len()
    }
}

impl Default for Text {
    /// The text without a line.
    fn default() -> (res: Text)
        ensures
            res@ == Seq::<LineView>::empty(),
    {
        let res = Text { lines: Vec::new() };
        assert(res@ =~= Seq::<LineView>::empty());
        res
    }
}

} // verus!
