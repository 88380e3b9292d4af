//! Display lines: the rows that a list is drawn from. Every line of an item
//! becomes one display line, and so does every separator.
use vstd::prelude::*;
use std::collections::VecDeque;
use crate::style::Style;
use crate::text::{into_deque, plain_line, LineView, Spans};

verus! {

/// A display line as a mathematical value.
pub struct DisplayLineView {
    /// The style of the whole row.
    pub style: Style,
    /// The text of the row.
    pub line: LineView,
    /// Whether the row belongs to the selected item, or borders on it.
    pub must_display: bool,
    /// What the left indicator column shows on this row.
    pub left_indicator: LineView,
    /// What the right indicator column shows on this row.
    pub right_indicator: LineView,
}

/// A row without a style that shows `x` as its text and in both indicator
/// columns, and is no part of the selection.
pub open spec fn filler_view(x: Seq<char>) -> DisplayLineView {
    DisplayLineView {
        style: Style::unset(),
        line: plain_line(x),
        must_display: false,
        left_indicator: plain_line(x),
        right_indicator: plain_line(x),
    }
}

/// One row of the list as it is drawn. Several display lines may come from
/// one item.
#[derive(Clone, Debug, PartialEq)]
pub struct DisplayLine {
    pub style: Style,
    pub line: Spans,
    pub must_display: bool,
    pub left_indicator: Spans,
    pub right_indicator: Spans,
}

impl View for DisplayLine {
    type V = DisplayLineView;

    open spec fn view(&self) -> DisplayLineView {
        DisplayLineView {
            style: self.style,
            line: self.line@,
            must_display: self.must_display,
            left_indicator: self.left_indicator@,
            right_indicator: self.right_indicator@,
        }
    }
}

impl DisplayLine {
    /// A row to fill a gap with: see [`filler_view`].
    pub fn filler(x: &'static str) -> (res: Self)
        ensures
            res@ == filler_view(x@),
    {
        DisplayLine {
            style: Style::default(),
            line: Spans::raw(x),
            must_display: false,
            left_indicator: Spans::raw(x),
            right_indicator: Spans::raw(x),
        }
    }
}

/// The views of a sequence of display lines.
pub open spec fn line_views(lines: Seq<DisplayLine>) -> Seq<DisplayLineView> {
    lines.map_values(|l: DisplayLine| l@)
}

/// Something that hands out display lines one by one, from the top of the
/// list downwards.
pub trait LineSource {
    /// What the source needs to work.
    spec fn wf(&self) -> bool;

    /// The lines that the source has yet to hand out, in order.
    spec fn pending(&self) -> Seq<DisplayLineView>;

    /// Hands out the next line, or `None` when there is none left.
    fn next(&mut self) -> (res: Option<DisplayLine>)
        requires
            old(self).wf(),
        ensures
            final(self).wf(),
            res is Some <==> old(self).pending().len() > 0,
            res matches Some(l) ==> l@ == old(self).pending()[0] && final(self).pending() == old(
                self,
            ).pending().drop_first(),
            res is None ==> final(self).pending() == old(self).pending(),
    ;
}

/// A source that hands out the lines of a vector.
pub struct VecSource {
    lines: VecDeque<DisplayLine>,
}

impl VecSource {
    /// The source of the given lines.
    pub fn new(lines: Vec<DisplayLine>) -> (res: Self)
        ensures
            res.wf(),
            res.pending() == line_views(lines@),
            res.pending().len() <= usize::MAX,
    {
        assert(lines@.len() <= usize::MAX) by {
            assert(lines.len() >= 0);
        }
        VecSource { lines: into_deque(lines) }
    }
}

impl LineSource for VecSource {
    open spec fn wf(&self) -> bool {
        true
    }

    closed spec fn pending(&self) -> Seq<DisplayLineView> {
        line_views(self.lines@)
    }

    fn next(&mut self) -> (res: Option<DisplayLine>) {
        let ghost before = self.lines@;
        let res = self.lines.pop_front();
        proof {
            if res is Some {
                assert(line_views(self.lines@) =~= line_views(before).drop_first());
            }
        }
        res
    }
}

/// Takes every line that is left out of a source.
pub fn collect_lines<S: LineSource>(source: S) -> (res: Vec<DisplayLine>)
    requires
        source.wf(),
    ensures
        line_views(res@) == source.pending(),
{
    let mut source = source;
    let ghost all = source.pending();
    let mut res: Vec<DisplayLine> = Vec::new();
    loop
        invariant
            source.wf(),
            line_views(res@) + source.pending() == all,
        ensures
            line_views(res@) == all,
        decreases source.pending().len(),
    {
        let ghost done = res@;
        let ghost rest = source.pending();
        match source.next() {
            Some(l) => {
                res.push(l);
                assert(line_views(res@) =~= line_views(done).push(l@));
                assert(line_views(res@) + source.pending() =~= line_views(done) + rest);
            },
            None => {
                assert(line_views(res@) =~= line_views(res@) + source.pending());
                break ;
            },
        }
    }
    res
}

} // verus!
