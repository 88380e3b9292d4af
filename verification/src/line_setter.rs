//! Placing the window by the positions of the items.
//!
//! Here every item knows the index of its first display line. The window
//! is then placed by arithmetic on the position of the selected item, and
//! its lines are taken from the items, without a pass over the lines above
//! the window.
use vstd::prelude::*;
use vstd::math::{max, min};
use crate::display_line::{line_views, DisplayLine, DisplayLineView};
use crate::line_iters::item_line;
use crate::list_item::{lemma_lines_sum_monotonic, lines_sum, LineIndicators, ListItem};
use crate::list_state::{ListState, ListStateView};
use crate::separator::{half_run, Separator};
use crate::style::Style;
use crate::text::{into_deque, plain_line, LineView, Spans, Text};
use crate::window_type::{first_marked, lemma_span_bounds, scroll_top, span_end};

verus! {

/// An item together with its place among the display lines.
#[derive(Debug, Clone, PartialEq)]
pub struct DisplayItem {
    pub item: ListItem,
    /// Index of the item's first display line.
    pub line_pos: usize,
    /// Whether the item is the selected one.
    pub selected: bool,
    /// Whether a separator line stands before and after the item.
    pub separated: bool,
}

impl DisplayItem {
    /// Index of the first line that must be in view with the item: its first
    /// line, or the separator before it.
    pub open spec fn first_shown(self) -> int {
        if self.separated {
            max(self.line_pos - 1, 0)
        } else {
            self.line_pos as int
        }
    }

    /// Index of the last line that must be in view with the item: its last
    /// line, or the separator after it.
    pub open spec fn last_shown(self) -> int {
        if self.separated {
            self.line_pos + self.item.lines().len()
        } else {
            max(self.line_pos + self.item.lines().len() - 1, 0)
        }
    }

    /// How many rows the item takes on display.
    pub fn height(&self) -> (res: usize)
        ensures
            res == self.item.lines().len(),
    {
        self.item.height()
    }

    /// Index of the item's last display line.
    pub fn last_line(&self) -> (res: usize)
        requires
            1 <= self.line_pos + self.item.lines().len() <= usize::MAX,
        ensures
            res == self.line_pos + self.item.lines().len() - 1,
    {
        self.line_pos + self.height() - 1
    }

    /// See [`Self::first_shown`].
    pub fn first_display_line(&self) -> (res: usize)
        ensures
            res == self.first_shown(),
    {
        if self.separated {
            self.line_pos.saturating_sub(1)
        } else {
            self.line_pos
        }
    }

    /// See [`Self::last_shown`].
    pub fn last_display_line(&self) -> (res: usize)
        requires
            self.line_pos + self.item.lines().len() <= usize::MAX,
        ensures
            res == self.last_shown(),
    {
        if self.separated {
            self.line_pos + self.height()
        } else {
            (self.line_pos + self.height()).saturating_sub(1)
        }
    }
}

/// The rows of the screen that show the list: `height` rows, of which the
/// first shows the display line `pos`.
#[derive(Debug, Clone, Copy, PartialEq, Eq, Structural)]
pub struct ViewPort {
    pub pos: usize,
    pub height: usize,
}

impl ViewPort {
    /// Index of the display line on the last row, as far as it can be
    /// counted.
    pub open spec fn last_row(self) -> int {
        min(self.pos + max(self.height - 1, 0), usize::MAX as int)
    }

    /// The viewport moved as little as it takes to hold the lines from
    /// `first` to `last`. Where they do not all fit, it holds them from the
    /// first.
    pub open spec fn moved_to_hold(self, first: int, last: int) -> ViewPort {
        let down = if last > self.last_row() {
            last - max(self.height - 1, 0)
        } else {
            self.pos as int
        };
        ViewPort {
            pos: if first < down {
                first as usize
            } else {
                down as usize
            },
            height: self.height,
        }
    }

    /// Index of the display line on the first row.
    pub fn top(&self) -> (res: usize)
        ensures
            res == self.pos,
    {
        self.pos
    }

    /// Index of the display line on the last row.
    pub fn bottom(&self) -> (res: usize)
        ensures
            res == self.last_row(),
    {
        self.pos.saturating_add(self.height.saturating_sub(1))
    }

    /// Moves the viewport so that it holds `item`.
    pub fn move_to_hold(&mut self, item: &DisplayItem)
        requires
            item.line_pos + item.item.lines().len() <= usize::MAX,
        ensures
            *final(self) == old(self).moved_to_hold(item.first_shown(), item.last_shown()),
    {
        // If the last line to show is below the viewport, move down to it.
        if item.last_display_line() > self.bottom() {
            self.pos = item.last_display_line() - self.height.saturating_sub(1);
        }
        // Now the viewport may still be too low, because the selection moved
        // up, or the item may be larger than the viewport. In either case
        // the start of the item is shown.

        if item.first_display_line() < self.pos {
            self.pos = item.first_display_line();
        }
    }
}

/// Number of display lines of the first `k` items.
pub open spec fn height_sum(items: Seq<DisplayItem>, k: int) -> nat
    decreases k,
{
    if k <= 0 {
        0
    } else {
        height_sum(items, k - 1) + items[k - 1].item.lines().len()
    }
}

/// Item `k` of a list as it is placed first: after the items before it, in
/// the style of the selection if it is the selected one and in the default
/// style if it is not.
pub open spec fn placed_item(
    items: Seq<ListItem>,
    k: int,
    selected: nat,
    default_style: Style,
    selected_style: Style,
) -> DisplayItem {
    DisplayItem {
        item: ListItem {
            content: items[k].content,
            style: if k == selected {
                selected_style
            } else {
                default_style
            },
            indicators: items[k].indicators,
        },
        line_pos: lines_sum(items, k) as usize,
        selected: k == selected,
        separated: false,
    }
}

/// The display lines of a placed item: its lines in its style, flagged if it
/// is selected.
pub open spec fn item_rows(item: DisplayItem) -> Seq<DisplayLineView> {
    Seq::new(
        item.item.lines().len(),
        |j: int|
            item_line(
                item.item.lines()[j],
                item.item.style,
                item.item.indicators,
                item.selected,
                j as nat,
                item.item.lines().len(),
            ),
    )
}

/// The display lines of the first `k` items.
pub open spec fn rows_upto(items: Seq<DisplayItem>, k: int) -> Seq<DisplayLineView>
    decreases k,
{
    if k <= 0 {
        Seq::empty()
    } else {
        rows_upto(items, k - 1) + item_rows(items[k - 1])
    }
}

/// The separator as it stands after the first `k` items.
pub open spec fn separator_after(items: Seq<DisplayItem>, start: Separator, k: int) -> Separator
    decreases k,
{
    if k <= 0 {
        start
    } else {
        separator_after(items, start, k - 1).cycled(items[k - 1].item.style.bg)
    }
}

/// The item that stands for a separator line in the colors of `sep`.
pub open spec fn is_separator_item(d: DisplayItem, sep: Separator, line_pos: int) -> bool {
    &&& d.item.lines() == seq![plain_line(half_run(sep.width as nat))]
    &&& d.item.style == sep.curr_style
    &&& d.item.indicators == LineIndicators::blank()
    &&& d.line_pos == line_pos
    &&& !d.selected
    &&& d.separated
}

/// Index of the first selected item, or the number of items if none is
/// selected.
pub open spec fn selected_index(items: Seq<DisplayItem>) -> int
    decreases items.len(),
{
    if items.len() == 0 {
        0
    } else if items[0].selected {
        0
    } else {
        1 + selected_index(items.drop_first())
    }
}

proof fn lemma_selected_index(items: Seq<DisplayItem>)
    ensures
        0 <= selected_index(items) <= items.len(),
        forall|j: int| 0 <= j < selected_index(items) ==> !(#[trigger] items[j]).selected,
        selected_index(items) < items.len() ==> items[selected_index(items)].selected,
    decreases items.len(),
{
    if items.len() > 0 && !items[0].selected {
        let tail = items.drop_first();
        lemma_selected_index(tail);
        assert forall|j: int| 0 <= j < selected_index(items) implies !(#[trigger] items[j]).selected by {
            if j > 0 {
                assert(items[j] == tail[j - 1]);
            }
        }
    }
}

proof fn lemma_height_sum_monotonic(items: Seq<DisplayItem>, i: int, k: int)
    requires
        0 <= i <= k,
    ensures
        height_sum(items, i) <= height_sum(items, k),
    decreases k - i,
{
    if i < k {
        lemma_height_sum_monotonic(items, i, k - 1);
    }
}

proof fn lemma_rows_upto(items: Seq<DisplayItem>, k: int)
    requires
        0 <= k <= items.len(),
    ensures
        rows_upto(items, k).len() == height_sum(items, k),
        forall|i: int, j: int|
            0 <= i < k && 0 <= j < items[i].item.lines().len() ==> rows_upto(
                items,
                k,
            )[height_sum(items, i) + j] == #[trigger] item_rows(items[i])[j],
    decreases k,
{
    if k > 0 {
        lemma_rows_upto(items, k - 1);
        assert forall|i: int, j: int|
            0 <= i < k && 0 <= j < items[i].item.lines().len() implies rows_upto(
            items,
            k,
        )[height_sum(items, i) + j] == #[trigger] item_rows(items[i])[j] by {
            if i < k - 1 {
                lemma_height_sum_monotonic(items, i + 1, k - 1);
            }
        }
    }
}

/// Lays out the items of a list for a window of `height` rows.
pub struct LineSetter {
    /// Number of cells in a row.
    pub width: u16,
    /// Number of rows of the window.
    pub height: u16,
    /// The items with their places.
    pub items: Vec<DisplayItem>,
    /// Number of display lines of all items.
    pub raw_height: usize,
    /// Whether separators stand between the items.
    pub separate: bool,
    /// The style of the items that are not selected.
    pub default_style: Style,
}

impl LineSetter {
    /// Every item starts where the items before it end, and every item knows
    /// whether the list is separated.
    pub open spec fn wf(&self) -> bool {
        &&& self.raw_height == height_sum(self.items@, self.items@.len() as int)
        &&& forall|k: int|
            0 <= k < self.items@.len() ==> (#[trigger] self.items@[k]).line_pos == height_sum(
                self.items@,
                k,
            ) && self.items@[k].separated == self.separate
    }

    /// Whether one of the items is selected.
    pub open spec fn has_selected(&self) -> bool {
        selected_index(self.items@) < self.items@.len()
    }

    /// All the display lines of the list.
    pub open spec fn all_rows(&self) -> Seq<DisplayLineView> {
        rows_upto(self.items@, self.items@.len() as int)
    }

    /// Index of the line at the top of the window, when it was at `goal`
    /// before: the window moves as little as it takes to hold the selected
    /// item, with the separators around it if there are any.
    pub open spec fn window_top(&self, goal: nat) -> int {
        let selected = self.items@[selected_index(self.items@)];
        (ViewPort { pos: goal as usize, height: self.height as usize }).moved_to_hold(
            selected.first_shown(),
            selected.last_shown(),
        ).pos as int
    }

    /// The lines in the window whose top is at `top`.
    pub open spec fn rows_from(&self, top: int) -> Seq<DisplayLineView> {
        self.all_rows().subrange(top, min(self.all_rows().len() as int, top + self.height))
    }

    /// Places the items one after the other. The item that `state` selects
    /// gets `selected_style`, the others get `default_style`.
    pub fn new(
        width: u16,
        height: u16,
        items: Vec<ListItem>,
        state: &ListState,
        default_style: Style,
        selected_style: Style,
    ) -> (res: Self)
        requires
            lines_sum(items@, items@.len() as int) <= usize::MAX,
        ensures
            res.wf(),
            res.width == width,
            res.height == height,
            res.default_style == default_style,
            !res.separate,
            res.raw_height == lines_sum(items@, items@.len() as int),
            res.items@.len() == items@.len(),
            forall|k: int|
                0 <= k < items@.len() ==> #[trigger] res.items@[k] == placed_item(
                    items@,
                    k,
                    state@.selected,
                    default_style,
                    selected_style,
                ),
    {
        let ghost given = items@;
        let selected = state.selected();
        let count = items.len();
        let mut rest = into_deque(items);
        let mut placed: Vec<DisplayItem> = Vec::new();
        let mut raw_height: usize = 0;
        let mut n: usize = 0;
        proof {
            assert(given.skip(0) =~= given);
        }
        loop
            invariant_except_break
                n == placed@.len(),
                n <= given.len() == count,
                rest@ == given.skip(n as int),
                raw_height == lines_sum(given, n as int),
                lines_sum(given, given.len() as int) <= usize::MAX,
                forall|k: int|
                    0 <= k < n ==> #[trigger] placed@[k] == placed_item(
                        given,
                        k,
                        selected as nat,
                        default_style,
                        selected_style,
                    ),
            ensures
                n == given.len(),
                n == placed@.len(),
                raw_height == lines_sum(given, n as int),
                forall|k: int|
                    0 <= k < n ==> #[trigger] placed@[k] == placed_item(
                        given,
                        k,
                        selected as nat,
                        default_style,
                        selected_style,
                    ),
            decreases rest@.len(),
        {
            match rest.pop_front() {
                None => {
                    break ;
                },
                Some(it) => {
                    assert(it == given[n as int]);
                    assert(given.skip(n as int).drop_first() =~= given.skip(n + 1));
                    proof {
                        lemma_lines_sum_monotonic(given, n + 1, given.len() as int);
                    }
                    let h = it.height();
                    let is_selected = n == selected;
                    let d = DisplayItem {
                        item: ListItem {
                            content: it.content,
                            style: if is_selected {
                                selected_style
                            } else {
                                default_style
                            },
                            indicators: it.indicators,
                        },
                        line_pos: raw_height,
                        selected: is_selected,
                        separated: false,
                    };
                    assert(d == placed_item(
                        given,
                        n as int,
                        selected as nat,
                        default_style,
                        selected_style,
                    ));
                    placed.push(d);
                    raw_height = raw_height + h;
                    n += 1;
                },
            }
        }
        proof {
            assert forall|k: int| 0 <= k <= n implies height_sum(placed@, k) == lines_sum(given, k) by {
                lemma_sums_agree(placed@, given, k);
            }
            assert forall|k: int| 0 <= k < n implies lines_sum(given, k) <= usize::MAX by {
                lemma_lines_sum_monotonic(given, k, n as int);
            }
        }
        LineSetter { width, height, items: placed, raw_height, separate: false, default_style }
    }

    /// Index of the first selected item, if an item is selected.
    pub fn selected_position(&self) -> (res: Option<usize>)
        ensures
            res is Some <==> self.has_selected(),
            res matches Some(k) ==> k == selected_index(self.items@),
    {
        let mut k: usize = 0;
        proof {
            lemma_selected_index(self.items@);
        }
        while k < self.items.len()
            invariant
                k <= self.items@.len(),
                forall|j: int| 0 <= j < k ==> !(#[trigger] self.items@[j]).selected,
                0 <= selected_index(self.items@) <= self.items@.len(),
                forall|j: int|
                    0 <= j < selected_index(self.items@) ==> !(#[trigger] self.items@[j]).selected,
                selected_index(self.items@) < self.items@.len() ==> self.items@[selected_index(
                    self.items@,
                )].selected,
            decreases self.items@.len() - k,
        {
            if self.items[k].selected {
                return Some(k);
            }
            k += 1;
        }
        None
    }

    /// Places the window and remembers its place in `state`: see
    /// [`Self::window_top`].
    pub fn first_display_line(&self, state: &mut ListState) -> (res: usize)
        requires
            self.wf(),
            self.has_selected(),
        ensures
            res == self.window_top(old(state)@.window_first),
            final(state)@ == (ListStateView { window_first: res as nat, ..old(state)@ }),
    {
        let mut view = ViewPort { pos: state.window_first(), height: self.height as usize };
        match self.selected_position() {
            Some(sel) => {
                proof {
                    lemma_height_sum_monotonic(self.items@, sel + 1, self.items@.len() as int);
                }
                view.move_to_hold(&self.items[sel]);
            },
            None => {},
        }
        state.set_pos(view.top());
        view.top()
    }

    /// The lines in the window, after the window has been placed: see
    /// [`Self::first_display_line`].
    pub fn get_spans(&self, state: &mut ListState) -> (res: Vec<DisplayLine>)
        requires
            self.wf(),
            self.has_selected(),
        ensures
            line_views(res@) == self.rows_from(self.window_top(old(state)@.window_first)),
            final(state)@ == (ListStateView {
                window_first: self.window_top(old(state)@.window_first) as nat,
                ..old(state)@
            }),
    {
        let first = self.first_display_line(state);
        let h: usize = self.height as usize;
        let ghost all = self.all_rows();
        let ghost end = min(all.len() as int, first + h);
        let mut spans: Vec<DisplayLine> = Vec::new();
        let mut k: usize = 0;
        proof {
            lemma_rows_upto(self.items@, self.items@.len() as int);
            lemma_selected_index(self.items@);
            lemma_height_sum_monotonic(
                self.items@,
                selected_index(self.items@),
                self.items@.len() as int,
            );
            assert(first <= all.len());
            assert(line_views(spans@) =~= all.subrange(first as int, first as int));
        }
        while k < self.items.len() && spans.len() < h
            invariant
                self.wf(),
                all == self.all_rows(),
                all.len() == height_sum(self.items@, self.items@.len() as int),
                all.len() <= usize::MAX,
                first <= all.len(),
                end == min(all.len() as int, first + h),
                k <= self.items@.len(),
                forall|i: int, j: int|
                    0 <= i < self.items@.len() && 0 <= j < self.items@[i].item.lines().len()
                        ==> all[height_sum(self.items@, i) + j] == #[trigger] item_rows(
                        self.items@[i],
                    )[j],
                line_views(spans@) == all.subrange(
                    first as int,
                    min(max(height_sum(self.items@, k as int) as int, first as int), end),
                ),
            decreases self.items@.len() - k,
        {
            let item = &self.items[k];
            let count = item.item.content.lines.len();
            proof {
                lemma_height_sum_monotonic(self.items@, k + 1, self.items@.len() as int);
            }
            // An item that ends above the window has no line in it.
            if item.line_pos + count > first {
                let mut j: usize = 0;
                while j < count && spans.len() < h
                    invariant
                        item == self.items@[k as int],
                        count == item.item.lines().len(),
                        j <= count,
                        item.line_pos == height_sum(self.items@, k as int),
                        item.line_pos + count <= all.len() <= usize::MAX,
                        first <= all.len(),
                        end == min(all.len() as int, first + h),
                        forall|j: int|
                            0 <= j < count ==> all[item.line_pos + j] == #[trigger] item_rows(
                                *item,
                            )[j],
                        line_views(spans@) == all.subrange(
                            first as int,
                            min(max(item.line_pos + j, first as int), end),
                        ),
                    decreases count - j,
                {
                    if item.line_pos + j >= first {
                        let ghost before = spans@;
                        let line = item.item.content.lines[j].duplicate();
                        spans.push(
                            DisplayLine {
                                style: item.item.style,
                                line,
                                must_display: item.selected,
                                left_indicator: Spans::raw(
                                    item.item.indicators.left.fill_char(j, count),
                                ),
                                right_indicator: Spans::raw(
                                    item.item.indicators.right.fill_char(j, count),
                                ),
                            },
                        );
                        proof {
                            assert(spans@.last()@ == item_rows(*item)[j as int]);
                            assert(line_views(spans@) =~= line_views(before).push(spans@.last()@));
                            assert(line_views(spans@) =~= all.subrange(
                                first as int,
                                item.line_pos + j + 1,
                            ));
                        }
                    }
                    j += 1;
                }
            }
            k += 1;
        }
        spans
    }

    /// Puts a separator before every item and one after the last item. Each
    /// separator is an item of one line in the colors that blend the items
    /// around it.
    pub fn add_separators(self) -> (res: Self)
        requires
            self.wf(),
            !self.separate,
            self.raw_height + self.items@.len() + 1 <= usize::MAX,
        ensures
            res.wf(),
            res.separate,
            res.width == self.width,
            res.height == self.height,
            res.default_style == self.default_style,
            res.raw_height == self.raw_height + self.items@.len() + 1,
            res.items@.len() == 2 * self.items@.len() + 1,
            forall|i: int|
                0 <= i < self.items@.len() ==> #[trigger] res.items@[2 * i + 1] == (DisplayItem {
                    line_pos: (self.items@[i].line_pos + i + 1) as usize,
                    separated: true,
                    ..self.items@[i]
                }),
            forall|i: int|
                0 <= i < self.items@.len() ==> is_separator_item(
                    #[trigger] res.items@[2 * i],
                    separator_after(
                        self.items@,
                        Separator::start(self.width, self.default_style),
                        i + 1,
                    ),
                    self.items@[i].line_pos + i,
                ),
            is_separator_item(
                res.items@[2 * (self.items@.len() as int)],
                separator_after(
                    self.items@,
                    Separator::start(self.width, self.default_style),
                    self.items@.len() as int,
                ).cycled(self.default_style.bg),
                self.raw_height + self.items@.len(),
            ),
    {
        let ghost old_items = self.items@;
        let ghost start = Separator::start(self.width, self.default_style);
        let LineSetter { width, height, items, raw_height, separate: _, default_style } = self;
        let old_len = items.len();
        let mut rest = into_deque(items);
        let mut new_items: Vec<DisplayItem> = Vec::new();
        let mut sep = Separator::new(width, default_style);
        let mut i: usize = 0;
        proof {
            assert(old_items.skip(0) =~= old_items);
        }
        loop
            invariant_except_break
                i <= old_items.len() == old_len,
                rest@ == old_items.skip(i as int),
                new_items@.len() == 2 * i,
                sep == separator_after(old_items, start, i as int),
                sep.width == width,
                raw_height == height_sum(old_items, old_items.len() as int),
                raw_height + old_items.len() + 1 <= usize::MAX,
                forall|k: int|
                    0 <= k < old_items.len() ==> (#[trigger] old_items[k]).line_pos == height_sum(
                        old_items,
                        k,
                    ),
                height_sum(new_items@, 2 * i) == height_sum(old_items, i as int) + i,
                forall|k: int|
                    0 <= k < 2 * i ==> (#[trigger] new_items@[k]).line_pos == height_sum(
                        new_items@,
                        k,
                    ) && new_items@[k].separated,
                forall|k: int|
                    0 <= k < i ==> #[trigger] new_items@[2 * k + 1] == (DisplayItem {
                        line_pos: (old_items[k].line_pos + k + 1) as usize,
                        separated: true,
                        ..old_items[k]
                    }),
                forall|k: int|
                    0 <= k < i ==> is_separator_item(
                        #[trigger] new_items@[2 * k],
                        separator_after(old_items, start, k + 1),
                        old_items[k].line_pos + k,
                    ),
            ensures
                i == old_items.len(),
                rest@.len() == 0,
                new_items@.len() == 2 * i,
                sep == separator_after(old_items, start, i as int),
                sep.width == width,
                height_sum(new_items@, 2 * i) == height_sum(old_items, i as int) + i,
                forall|k: int|
                    0 <= k < 2 * i ==> (#[trigger] new_items@[k]).line_pos == height_sum(
                        new_items@,
                        k,
                    ) && new_items@[k].separated,
                forall|k: int|
                    0 <= k < i ==> #[trigger] new_items@[2 * k + 1] == (DisplayItem {
                        line_pos: (old_items[k].line_pos + k + 1) as usize,
                        separated: true,
                        ..old_items[k]
                    }),
                forall|k: int|
                    0 <= k < i ==> is_separator_item(
                        #[trigger] new_items@[2 * k],
                        separator_after(old_items, start, k + 1),
                        old_items[k].line_pos + k,
                    ),
            decreases rest@.len(),
        {
            let ghost before = new_items@;
            match rest.pop_front() {
                None => {
                    break ;
                },
                Some(li) => {
                    assert(li == old_items[i as int]);
                    assert(old_items.skip(i as int).drop_first() =~= old_items.skip(i + 1));
                    proof {
                        lemma_height_sum_monotonic(old_items, i + 1, old_items.len() as int);
                    }
                    sep.cycle_color(li.item.style.bg);
                    let line = separator_item(&sep, li.line_pos + i);
                    new_items.push(line);
                    let ghost mid = new_items@;
                    let moved = DisplayItem {
                        item: li.item,
                        line_pos: li.line_pos + i + 1,
                        selected: li.selected,
                        separated: true,
                    };
                    new_items.push(moved);
                    proof {
                        lemma_height_sum_prefix(before, mid, 2 * i);
                        lemma_height_sum_prefix(mid, new_items@, 2 * i + 1);
                        assert(height_sum(new_items@, 2 * i + 2) == height_sum(
                            new_items@,
                            2 * i + 1,
                        ) + new_items@[2 * i + 1].item.lines().len());
                        assert(height_sum(mid, 2 * i + 1) == height_sum(mid, 2 * i)
                            + mid[2 * i].item.lines().len());
                        assert forall|k: int| 0 <= k < 2 * i + 2 implies (#[trigger] new_items@[k]).line_pos
                            == height_sum(new_items@, k) && new_items@[k].separated by {
                            if k < 2 * i {
                                assert(new_items@[k] == before[k]);
                                lemma_height_sum_prefix(before, mid, k);
                                lemma_height_sum_prefix(mid, new_items@, k);
                            } else if k == 2 * i {
                                lemma_height_sum_prefix(mid, new_items@, k);
                            }
                        }
                        assert forall|k: int| 0 <= k < i + 1 implies #[trigger] new_items@[2 * k + 1]
                            == (DisplayItem {
                            line_pos: (old_items[k].line_pos + k + 1) as usize,
                            separated: true,
                            ..old_items[k]
                        }) by {
                            if k < i {
                                assert(new_items@[2 * k + 1] == before[2 * k + 1]);
                            }
                        }
                        assert forall|k: int| 0 <= k < i + 1 implies is_separator_item(
                            #[trigger] new_items@[2 * k],
                            separator_after(old_items, start, k + 1),
                            old_items[k].line_pos + k,
                        ) by {
                            if k < i {
                                assert(new_items@[2 * k] == before[2 * k]);
                            }
                        }
                    }
                    i += 1;
                },
            }
        }
        sep.cycle_color(default_style.bg);
        let ghost before = new_items@;
        let last = separator_item(&sep, raw_height + old_len);
        new_items.push(last);
        proof {
            lemma_height_sum_prefix(before, new_items@, 2 * i);
            assert(height_sum(new_items@, 2 * i + 1) == height_sum(new_items@, 2 * i)
                + new_items@[2 * i].item.lines().len());
            assert forall|k: int| 0 <= k < new_items@.len() implies (#[trigger] new_items@[k]).line_pos
                == height_sum(new_items@, k) && new_items@[k].separated == true by {
                if k < 2 * i {
                    assert(new_items@[k] == before[k]);
                    lemma_height_sum_prefix(before, new_items@, k);
                }
            }
            assert forall|k: int| 0 <= k < i implies #[trigger] new_items@[2 * k + 1] == (DisplayItem {
                line_pos: (old_items[k].line_pos + k + 1) as usize,
                separated: true,
                ..old_items[k]
            }) by {
                assert(new_items@[2 * k + 1] == before[2 * k + 1]);
            }
            assert forall|k: int| 0 <= k < i implies is_separator_item(
                #[trigger] new_items@[2 * k],
                separator_after(old_items, start, k + 1),
                old_items[k].line_pos + k,
            ) by {
                assert(new_items@[2 * k] == before[2 * k]);
            }
        }
        LineSetter {
            width,
            height,
            items: new_items,
            raw_height: raw_height + old_len + 1,
            separate: true,
            default_style,
        }
    }
}

/// The item that stands for the separator line of `sep` at `line_pos`.
fn separator_item(sep: &Separator, line_pos: usize) -> (res: DisplayItem)
    ensures
        is_separator_item(res, *sep, line_pos as int),
{
    let mut lines: Vec<Spans> = Vec::new();
    lines.push(sep.display_line(false).line);
    let content = Text::from_lines(lines);
    assert(content@ =~= seq![plain_line(half_run(sep.width as nat))]);
    DisplayItem {
        item: ListItem { content, style: sep.curr_style, indicators: LineIndicators::default() },
        line_pos,
        selected: false,
        separated: true,
    }
}

proof fn lemma_sums_agree(placed: Seq<DisplayItem>, given: Seq<ListItem>, k: int)
    requires
        0 <= k <= placed.len() == given.len(),
        forall|j: int| 0 <= j < placed.len() ==> (#[trigger] placed[j]).item.content == given[j].content,
    ensures
        height_sum(placed, k) == lines_sum(given, k),
    decreases k,
{
    if k > 0 {
        lemma_sums_agree(placed, given, k - 1);
    }
}

/// The heights of the first `k` items do not depend on the items after them.
proof fn lemma_height_sum_prefix(a: Seq<DisplayItem>, b: Seq<DisplayItem>, k: int)
    requires
        0 <= k <= a.len() <= b.len(),
        forall|j: int| 0 <= j < a.len() ==> a[j] == b[j],
    ensures
        height_sum(a, k) == height_sum(b, k),
    decreases k,
{
    if k > 0 {
        lemma_height_sum_prefix(a, b, k - 1);
    }
}

/// Placing the window by the position of the selection agrees with the
/// window that follows the selection: where the old window lies within the
/// lines, both put the top of the new window on the same line.
pub proof fn lemma_move_to_hold_is_scroll_top(
    lines: Seq<DisplayLineView>,
    window_size: usize,
    goal: usize,
)
    requires
        first_marked(lines) < lines.len() <= usize::MAX,
        window_size >= 1,
        goal + window_size <= lines.len(),
    ensures
        (ViewPort { pos: goal, height: window_size }).moved_to_hold(
            first_marked(lines) as int,
            span_end(lines) - 1,
        ).pos == scroll_top(lines, window_size as nat, goal as nat),
{
    lemma_span_bounds(lines);
}

} // verus!
