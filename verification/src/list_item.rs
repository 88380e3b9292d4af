//! The items of a list: styled text of one or more lines, with a mark in the
//! column to its left and to its right.
use vstd::prelude::*;
use vstd::math::min;
use crate::style::Style;
use crate::text::{LineView, Text};

verus! {

/// The mark of an item in an indicator column.
///
/// An indicator column is one cell wide and runs down beside the items. An
/// item may span several lines, so the variants say on which of its lines the
/// mark stands; the other lines show a blank.
#[derive(Copy, Clone, PartialEq, Debug)]
pub enum Indicator {
    /// Every line of the item shows the mark.
    Char(&'static str),
    /// The last line of the item shows the mark.
    LastLine(&'static str),
    /// The first line of the item shows the mark.
    FirstLine(&'static str),
    /// The line with the given index shows the mark. Where the item has fewer
    /// lines, its last line shows it.
    IdxOrLast(usize, &'static str),
}

impl Indicator {
    /// The mark itself.
    pub open spec fn mark(self) -> Seq<char> {
        match self {
            Indicator::Char(c) => c@,
            Indicator::LastLine(c) => c@,
            Indicator::FirstLine(c) => c@,
            Indicator::IdxOrLast(_, c) => c@,
        }
    }

    /// Whether line `line_idx` of an item of `lines` lines shows the mark.
    pub open spec fn marks(self, line_idx: nat, lines: nat) -> bool {
        match self {
            Indicator::Char(_) => true,
            Indicator::FirstLine(_) => line_idx == 0,
            Indicator::LastLine(_) => lines >= 1 && line_idx == lines - 1,
            Indicator::IdxOrLast(target, _) => line_idx == target || (lines >= 1 && line_idx
                == min(target as int, lines - 1)),
        }
    }

    /// What line `line_idx` of an item of `lines` lines shows in the column:
    /// the mark or a blank.
    pub open spec fn glyph(self, line_idx: nat, lines: nat) -> Seq<char> {
        if self.marks(line_idx, lines) {
            self.mark()
        } else {
            " "@
        }
    }

    /// The text to show in the indicator column on line `line_idx` of an item
    /// that has `lines` lines.
    pub fn fill_char(&self, line_idx: usize, lines: usize) -> (res: &'static str)
        ensures
            res@ == self.glyph(line_idx as nat, lines as nat),
    {
        match *self {
            Indicator::Char(c) => c,
            Indicator::FirstLine(c) => {
                if line_idx == 0 {
                    c
                } else {
                    " "
                }
            },
            Indicator::LastLine(c) => {
                if lines >= 1 && line_idx == lines - 1 {
                    c
                } else {
                    " "
                }
            },
            Indicator::IdxOrLast(target, c) => {
                if line_idx == target || (lines >= 1 && line_idx == if target < lines {
                    target
                } else {
                    lines - 1
                }) {
                    c
                } else {
                    " "
                }
            },
        }
    }
}

impl Default for Indicator {
    /// A blank on every line.
    fn default() -> (res: Indicator)
        ensures
            res == Indicator::Char(" "),
    {
        Indicator::Char(" ")
    }
}

/// Among the lines of an item, `IdxOrLast` marks exactly one: the line with
/// the given index, or the last line where the item is shorter than that.
pub proof fn lemma_idx_or_last_marks_one_line(target: usize, c: &'static str, lines: nat)
    requires
        lines >= 1,
    ensures
        forall|i: nat|
            i < lines ==> (#[trigger] Indicator::IdxOrLast(target, c).marks(i, lines) <==> i
                == min(target as int, lines - 1)),
{
}

/// `FirstLine` marks the first line only and `LastLine` the last line only;
/// `Char` marks every line.
pub proof fn lemma_first_last_mark_one_line(c: &'static str, lines: nat)
    requires
        lines >= 1,
    ensures
        forall|i: nat| i < lines ==> (#[trigger] Indicator::FirstLine(c).marks(i, lines) <==> i == 0),
        forall|i: nat|
            i < lines ==> (#[trigger] Indicator::LastLine(c).marks(i, lines) <==> i == lines - 1),
        forall|i: nat| i < lines ==> #[trigger] Indicator::Char(c).marks(i, lines),
{
}

/// The indicators of the left and of the right indicator column.
#[derive(Copy, Clone, PartialEq, Debug)]
pub struct LineIndicators {
    pub left: Indicator,
    pub right: Indicator,
}

impl LineIndicators {
    /// Blanks in both columns.
    pub open spec fn blank() -> LineIndicators {
        LineIndicators { left: Indicator::Char(" "), right: Indicator::Char(" ") }
    }

    /// Sets the indicator of the left column.
    pub fn set_left(self, left: Indicator) -> (res: Self)
        ensures
            res == (LineIndicators { left, right: self.right }),
    {
        LineIndicators { left, right: self.right }
    }

    /// Sets the indicator of the right column.
    pub fn set_right(self, right: Indicator) -> (res: Self)
        ensures
            res == (LineIndicators { left: self.left, right }),
    {
        LineIndicators { left: self.left, right }
    }
}

impl Default for LineIndicators {
    /// Blanks in both columns.
    fn default() -> (res: LineIndicators)
        ensures
            res == LineIndicators::blank(),
    {
        LineIndicators { left: Indicator::Char(" "), right: Indicator::Char(" ") }
    }
}

/// An item of the list.
#[derive(Debug, Clone, PartialEq)]
pub struct ListItem {
    pub content: Text,
    pub style: Style,
    pub indicators: LineIndicators,
}

impl ListItem {
    /// The lines of the item's text.
    pub open spec fn lines(&self) -> Seq<LineView> {
        self.content@
    }

    /// An item that shows `content`, without a style of its own and with
    /// blank indicators.
    pub fn new(content: Text) -> (res: ListItem)
        ensures
            res.content == content,
            res.style == Style::unset(),
            res.indicators == LineIndicators::blank(),
    {
        ListItem { content, style: Style::default(), indicators: LineIndicators::default() }
    }

    /// Sets the style of this item. When the list is drawn, this style is
    /// laid over the list's default style, and the style of the selection is
    /// laid over it.
    pub fn style(self, style: Style) -> (res: ListItem)
        ensures
            res == (ListItem { style, ..self }),
    {
        ListItem { content: self.content, style, indicators: self.indicators }
    }

    /// How many rows this item takes on display.
    pub fn height(&self) -> (res: usize)
        ensures
            res == self.lines().len(),
    {
        self.content.height()
    }

    /// Sets the indicators of this item. On the selected item the list's own
    /// indicators for the selection take their place.
    pub fn indicators(self, indicators: LineIndicators) -> (res: ListItem)
        ensures
            res == (ListItem { indicators, ..self }),
    {
        ListItem { content: self.content, style: self.style, indicators }
    }
}

/// Number of lines of the first `k` items of a list.
pub open spec fn lines_sum(items: Seq<ListItem>, k: int) -> nat
    decreases k,
{
    if k <= 0 {
        0
    } else {
        lines_sum(items, k - 1) + items[k - 1].lines().len()
    }
}

/// More items have no fewer lines.
pub proof fn lemma_lines_sum_monotonic(items: Seq<ListItem>, i: int, k: int)
    requires
        0 <= i <= k,
    ensures
        lines_sum(items, i) <= lines_sum(items, k),
    decreases k - i,
{
    if i < k {
        lemma_lines_sum_monotonic(items, i, k - 1);
    }
}

/// Counts the lines of all the items, if they can be counted.
pub fn count_lines(items: &Vec<ListItem>) -> (res: Option<usize>)
    ensures
        res matches Some(n) ==> n == lines_sum(items@, items@.len() as int),
        res is None <==> lines_sum(items@, items@.len() as int) > usize::MAX,
{
    let mut total: usize = 0;
    let mut k: usize = 0;
    while k < items.len()
        invariant
            k <= items@.len(),
            total == lines_sum(items@, k as int),
        decreases items@.len() - k,
    {
        match total.checked_add(items[k].height()) {
            Some(t) => {
                total = t;
            },
            None => {
                proof {
                    lemma_lines_sum_monotonic(items@, k + 1, items@.len() as int);
                }
                return None;
            },
        }
        k += 1;
    }
    Some(total)
}

} // verus!
