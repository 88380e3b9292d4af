//! A list with many options for its display.
//!
//! The list is drawn by turning all its items into display lines and moving
//! a window over these lines. [`SeparatedList`] holds the items and the
//! options, and [`SeparatedList::display_lines`] computes the rows to draw:
//!
//! 1. every item gets its style, and the selected item its indicators;
//! 2. the items become display lines, with separators where the display asks
//!    for them;
//! 3. the window picks the lines that are in view.
use vstd::prelude::*;
use vstd::math::min;
use crate::display_line::{line_views, DisplayLine, DisplayLineView, LineSource};
use crate::line_iters::{
    all_wf,
    item_lines,
    lemma_line_counts,
    lemma_separated_layout,
    separator_index,
    to_lines_views,
    total_height,
    ItemDisplay,
    ToLines,
    ToLinesView,
};
use crate::list_item::{count_lines, lines_sum, LineIndicators, ListItem};
use crate::list_state::{ListState, ListStateView};
use crate::selection_span::{
    lemma_basic_selection_span,
    lemma_separated_selection_span,
    no_item_empty,
    selects,
};
use crate::separator::Separator;
use crate::style::Style;
use crate::text::into_deque;
use crate::window_type::{
    lemma_scroll_window_in_range,
    lemma_selection_in_window,
    scroll_top,
    WindowType,
};

verus! {

/// Where the parts of a row go, as offsets from the left edge of the list.
#[derive(Debug, Clone, Copy, PartialEq, Eq, Structural)]
pub struct RowLayout {
    /// Offset of the left indicator, if it is drawn.
    pub left: Option<u16>,
    /// Offset of the right indicator, if it is drawn.
    pub right: Option<u16>,
    /// Offset of the text.
    pub text_offset: u16,
    /// Number of cells for the text.
    pub text_width: u16,
}

/// The layout of a row of `width` cells. An indicator that is shown takes
/// one cell at its edge of the row, the left one first, as long as there is
/// a cell left; the text gets the cells between them.
pub open spec fn row_layout_of(width: u16, show_left: bool, show_right: bool) -> RowLayout {
    let left_cells: int = if show_left && width >= 1 {
        1
    } else {
        0
    };
    let right_cells: int = if show_right && width - left_cells >= 1 {
        1
    } else {
        0
    };
    RowLayout {
        left: if left_cells == 1 {
            Some(0u16)
        } else {
            None
        },
        right: if right_cells == 1 {
            Some((width - 1) as u16)
        } else {
            None
        },
        text_offset: left_cells as u16,
        text_width: (width - left_cells - right_cells) as u16,
    }
}

/// A general purpose list that has several modes of display.
pub struct SeparatedList {
    /// The style of the items that are not selected. The style of an item is
    /// laid over it.
    pub default_style: Style,
    /// The style of the selected item. It is laid over the item's own style.
    pub selected_style: Style,
    /// The indicators of the selected item. They take the place of the
    /// item's own.
    pub selected_indicator: LineIndicators,
    /// Whether the left indicator column is drawn.
    pub show_left_indicator: bool,
    /// Whether the right indicator column is drawn.
    pub show_right_indicator: bool,
    /// How the window moves over the lines.
    pub window_type: WindowType,
    /// How the items become lines.
    pub item_display: ItemDisplay,
    /// The items, from the top of the list.
    pub items: Vec<ListItem>,
}

impl SeparatedList {
    /// The style in which an item is drawn. On the selected item the style
    /// of the selection lies over the item's style, and that over the
    /// default style; on any other item the item's style lies over the
    /// default style.
    pub open spec fn item_style(self, item: ListItem, is_selected: bool) -> Style {
        if is_selected {
            self.default_style.patched(item.style.patched(self.selected_style))
        } else {
            self.default_style.patched(item.style)
        }
    }

    /// The indicators with which an item is drawn: the list's indicators of
    /// the selection on the selected item, the item's own on any other.
    pub open spec fn item_indicators(self, item: ListItem, is_selected: bool) -> LineIndicators {
        if is_selected {
            self.selected_indicator
        } else {
            item.indicators
        }
    }

    /// Item `i` as it is drawn when item `selected` is the selected one.
    pub open spec fn styled_item(self, i: int, selected: nat) -> ToLinesView {
        let item = self.items@[i];
        let style = self.item_style(item, i == selected);
        ToLinesView {
            style,
            selected: i == selected,
            pending: item_lines(
                item.lines(),
                style,
                self.item_indicators(item, i == selected),
                i == selected,
            ),
        }
    }

    /// The items as they are drawn when item `selected` is the selected one.
    pub open spec fn styled_items(self, selected: nat) -> Seq<ToLinesView> {
        Seq::new(self.items@.len(), |i: int| self.styled_item(i, selected))
    }

    /// All the display lines of the list when it is `width` cells wide.
    pub open spec fn all_lines(self, width: u16, selected: nat) -> Seq<DisplayLineView> {
        self.item_display.lines(
            self.styled_items(selected),
            Separator::start(width, self.default_style),
        )
    }

    /// The rows that are drawn into `height` rows of `width` cells: the lines
    /// in the window, and no more of them than there are rows.
    pub open spec fn visible_lines(self, width: u16, height: u16, state: ListStateView) -> Seq<
        DisplayLineView,
    > {
        let window = self.window_type.window(
            self.all_lines(width, state.selected),
            height as nat,
            state.window_first,
        );
        window.take(min(height as int, window.len() as int))
    }

    /// A list of the given items: in the basic display, with a window that
    /// follows the selection, without styles and without indicator columns.
    pub fn new(items: Vec<ListItem>) -> (res: Self)
        ensures
            res.items == items,
            res.default_style == Style::unset(),
            res.selected_style == Style::unset(),
            res.selected_indicator == LineIndicators::blank(),
            !res.show_left_indicator,
            !res.show_right_indicator,
            res.window_type == WindowType::SelectionScroll,
            res.item_display == ItemDisplay::Basic,
    {
        SeparatedList {
            items,
            default_style: Style::default(),
            selected_style: Style::default(),
            selected_indicator: LineIndicators::default(),
            show_left_indicator: false,
            show_right_indicator: false,
            window_type: WindowType::SelectionScroll,
            item_display: ItemDisplay::Basic,
        }
    }

    /// Sets the items of the list.
    pub fn items(self, items: Vec<ListItem>) -> (res: Self)
        ensures
            res == (SeparatedList { items, ..self }),
    {
        SeparatedList { items, ..self }
    }

    /// Sets the style for the items that are not selected. The style of an
    /// item is laid over it.
    pub fn default_style(self, s: Style) -> (res: Self)
        ensures
            res == (SeparatedList { default_style: s, ..self }),
    {
        SeparatedList { default_style: s, ..self }
    }

    /// Sets the style for the lines of the selected item. In the separated
    /// display the separators around the item show it too.
    pub fn selected_style(self, s: Style) -> (res: Self)
        ensures
            res == (SeparatedList { selected_style: s, ..self }),
    {
        SeparatedList { selected_style: s, ..self }
    }

    /// Sets the indicators for the selected item.
    pub fn selected_indicator(self, indicator: LineIndicators) -> (res: Self)
        ensures
            res == (SeparatedList { selected_indicator: indicator, ..self }),
    {
        SeparatedList { selected_indicator: indicator, ..self }
    }

    /// Shows the left indicator column.
    pub fn show_left_indicator(self) -> (res: Self)
        ensures
            res == (SeparatedList { show_left_indicator: true, ..self }),
    {
        SeparatedList { show_left_indicator: true, ..self }
    }

    /// Shows the right indicator column.
    pub fn show_right_indicator(self) -> (res: Self)
        ensures
            res == (SeparatedList { show_right_indicator: true, ..self }),
    {
        SeparatedList { show_right_indicator: true, ..self }
    }

    /// Sets how the window moves over the lines.
    pub fn window_type(self, wt: WindowType) -> (res: Self)
        ensures
            res == (SeparatedList { window_type: wt, ..self }),
    {
        SeparatedList { window_type: wt, ..self }
    }

    /// Sets how the items become lines.
    pub fn item_display(self, it: ItemDisplay) -> (res: Self)
        ensures
            res == (SeparatedList { item_display: it, ..self }),
    {
        SeparatedList { item_display: it, ..self }
    }

    /// Where the indicators and the text of a row go in a list that is
    /// `width` cells wide: see [`row_layout_of`].
    pub fn row_layout(&self, width: u16) -> (res: RowLayout)
        ensures
            res == row_layout_of(width, self.show_left_indicator, self.show_right_indicator),
    {
        let mut text_offset: u16 = 0;
        let mut text_width: u16 = width;
        let mut left: Option<u16> = None;
        let mut right: Option<u16> = None;
        if self.show_left_indicator && text_width >= 1 {
            left = Some(0);
            text_offset = 1;
            text_width = text_width - 1;
        }
        if self.show_right_indicator && text_width >= 1 {
            right = Some(text_offset + text_width - 1);
            text_width = text_width - 1;
        }
        RowLayout { left, right, text_offset, text_width }
    }

    /// Index of the first display line of item `selected`, when it is the
    /// selected one.
    pub open spec fn selected_start(self, selected: nat) -> nat {
        match self.item_display {
            ItemDisplay::Basic => total_height(self.styled_items(selected).take(selected as int)),
            ItemDisplay::Separated => separator_index(self.styled_items(selected), selected) + 1,
        }
    }

    /// Number of lines of all the items.
    pub open spec fn line_count(self) -> nat {
        lines_sum(self.items@, self.items@.len() as int)
    }

    /// The rows to draw into `height` rows of `width` cells, from the top.
    ///
    /// `state` says which item is selected and where the window was when the
    /// list was drawn last; the place of the window is updated in it. The
    /// list must not have more display lines than can be counted: these are
    /// the lines of the items, and a separator for each item and one more.
    pub fn display_lines(self, width: u16, height: u16, state: &mut ListState) -> (res: Vec<
        DisplayLine,
    >)
        requires
            self.line_count() + self.items@.len() + 1 <= usize::MAX,
        ensures
            line_views(res@) == self.visible_lines(width, height, old(state)@),
            res@.len() <= height,
            final(state)@ == (ListStateView {
                window_first: self.window_type.anchor(
                    self.all_lines(width, old(state)@.selected),
                    height as nat,
                    old(state)@.window_first,
                ),
                ..old(state)@
            }),
    {
        let ghost list = self;
        let ghost styled = self.styled_items(state@.selected);
        let SeparatedList {
            default_style,
            selected_style,
            selected_indicator,
            show_left_indicator: _,
            show_right_indicator: _,
            window_type,
            item_display,
            items,
        } = self;
        let sep = Separator::new(width, default_style);

        // Every item gets its style, and the selected one its indicators.
        let selected = state.selected();
        let mut rest = into_deque(items);
        let mut sources: Vec<ToLines> = Vec::new();
        let mut i: usize = 0;
        loop
            invariant_except_break
                list.default_style == default_style,
                list.selected_style == selected_style,
                list.selected_indicator == selected_indicator,
                styled == list.styled_items(selected as nat),
                i == sources@.len(),
                i <= list.items@.len() < usize::MAX,
                rest@ == list.items@.skip(i as int),
                all_wf(sources@),
                forall|j: int| 0 <= j < i ==> (#[trigger] sources@[j])@ == styled[j],
            ensures
                all_wf(sources@),
                to_lines_views(sources@) == styled,
            decreases rest@.len(),
        {
            match rest.pop_front() {
                None => {
                    assert(to_lines_views(sources@) =~= styled);
                    break ;
                },
                Some(it) => {
                    assert(i < list.items@.len());
                    assert(it == list.items@[i as int]);
                    assert(styled[i as int] == list.styled_item(i as int, selected as nat));
                    assert(list.items@.skip(i as int).drop_first() =~= list.items@.skip(i + 1));
                    let is_selected = i == selected;
                    let styled_it = if is_selected {
                        ListItem {
                            content: it.content,
                            style: default_style.patch(it.style.patch(selected_style)),
                            indicators: selected_indicator,
                        }
                    } else {
                        ListItem {
                            content: it.content,
                            style: default_style.patch(it.style),
                            indicators: it.indicators,
                        }
                    };
                    sources.push(ToLines::new(styled_it, is_selected));
                    i += 1;
                },
            }
        }

        // The items become lines, and the window picks the lines in view.
        proof {
            lemma_line_counts(styled, sep);
            lemma_total_height(styled, list.items@, list.items@.len() as int);
            assert(styled.take(list.items@.len() as int) =~= styled);
        }
        let lines = item_display.display_iter(sources, sep);
        let mut window = window_type.get_display_lines(lines, height, state);
        if window.len() > height as usize {
            let ghost full = window@;
            window.truncate(height as usize);
            assert(line_views(window@) =~= line_views(full).take(height as int));
        } else {
            assert(line_views(window@).take(window@.len() as int) =~= line_views(window@));
        }
        window
    }

    /// Whether the display lines of the list can be counted: the lines of
    /// the items, and a separator for each item and one more.
    pub fn lines_fit(&self) -> (res: bool)
        ensures
            res == (self.line_count() + self.items@.len() + 1 <= usize::MAX),
    {
        match count_lines(&self.items) {
            Some(n) => match n.checked_add(self.items.len()) {
                Some(m) => m < usize::MAX,
                None => false,
            },
            None => false,
        }
    }

    /// Like [`Self::display_lines`], for any list: where the display lines
    /// cannot be counted, nothing is drawn, the state is left as it is, and
    /// the result is `None`.
    pub fn try_display_lines(self, width: u16, height: u16, state: &mut ListState) -> (res:
        Option<Vec<DisplayLine>>)
        ensures
            res is Some <==> self.line_count() + self.items@.len() + 1 <= usize::MAX,
            res matches Some(lines) ==> lines@.len() <= height && line_views(lines@)
                == self.visible_lines(width, height, old(state)@) && final(state)@
                == (ListStateView {
                window_first: self.window_type.anchor(
                    self.all_lines(width, old(state)@.selected),
                    height as nat,
                    old(state)@.window_first,
                ),
                ..old(state)@
            }),
            res is None ==> final(state)@ == old(state)@,
    {
        if self.lines_fit() {
            Some(self.display_lines(width, height, state))
        } else {
            None
        }
    }

    /// The rows to draw for a list that keeps no state: the first item
    /// counts as selected and the window starts at the top.
    pub fn display_lines_stateless(self, width: u16, height: u16) -> (res: Vec<DisplayLine>)
        requires
            self.line_count() + self.items@.len() + 1 <= usize::MAX,
        ensures
            line_views(res@) == self.visible_lines(
                width,
                height,
                ListStateView { size: 1, selected: 0, window_first: 0 },
            ),
    {
        let mut state = ListState::default();
        self.display_lines(width, height, &mut state)
    }
}

impl Default for SeparatedList {
    /// A list without items.
    fn default() -> (res: Self)
        ensures
            res.items@.len() == 0,
    {
        SeparatedList::new(Vec::new())
    }
}

/// The styled items have the lines of the items they were made of.
proof fn lemma_total_height(styled: Seq<ToLinesView>, items: Seq<ListItem>, k: int)
    requires
        0 <= k <= styled.len() == items.len(),
        forall|i: int|
            0 <= i < items.len() ==> (#[trigger] styled[i]).pending.len() == items[i].lines().len(),
    ensures
        total_height(styled.take(k)) == lines_sum(items, k),
    decreases k,
{
    if k > 0 {
        lemma_total_height(styled, items, k - 1);
        lemma_total_height_push(styled.take(k - 1), styled[k - 1]);
        assert(styled.take(k - 1).push(styled[k - 1]) =~= styled.take(k));
    }
}

proof fn lemma_total_height_push(items: Seq<ToLinesView>, last: ToLinesView)
    ensures
        total_height(items.push(last)) == total_height(items) + last.pending.len(),
    decreases items.len(),
{
    let longer = items.push(last);
    if items.len() > 0 {
        lemma_total_height_push(items.drop_first(), last);
        assert(longer.drop_first() =~= items.drop_first().push(last));
        assert(longer[0] == items[0]);
    } else {
        assert(longer.drop_first() =~= Seq::<ToLinesView>::empty());
        assert(total_height(longer.drop_first()) == 0);
        assert(longer[0] == last);
    }
}

/// A list whose window follows the selection shows the selected item with
/// all its lines, if the window has the rows for it: in a separated list,
/// where the separators around the item are shown with it, two rows more
/// than the item has lines.
///
/// The selected item must have a line, and in a separated list every item
/// must have one.
pub proof fn lemma_selected_item_in_view(
    list: SeparatedList,
    width: u16,
    height: u16,
    state: ListStateView,
)
    requires
        list.window_type == WindowType::SelectionScroll,
        state.selected < list.items@.len(),
        list.items@[state.selected as int].lines().len() >= 1,
        list.item_display == ItemDisplay::Basic ==> list.items@[state.selected as int].lines().len()
            <= height,
        list.item_display == ItemDisplay::Separated ==> list.items@[state.selected as int].lines().len()
            + 2 <= height && forall|k: int|
            0 <= k < list.items@.len() ==> (#[trigger] list.items@[k]).lines().len() >= 1,
    ensures
        ({
            let all = list.all_lines(width, state.selected);
            let top = scroll_top(all, height as nat, state.window_first);
            let start = list.selected_start(state.selected);
            let shown = list.visible_lines(width, height, state);
            let item = list.styled_item(state.selected as int, state.selected);
            &&& top <= start
            &&& start + item.pending.len() <= top + shown.len()
            &&& forall|i: int|
                0 <= i < item.pending.len() ==> shown[start - top + i] == #[trigger] item.pending[i]
                    && item.pending[i].must_display
        }),
{
    let selected = state.selected as int;
    let styled = list.styled_items(state.selected);
    let sep = Separator::start(width, list.default_style);
    let all = list.all_lines(width, state.selected);
    let top = scroll_top(all, height as nat, state.window_first) as int;
    let start = list.selected_start(state.selected) as int;
    let item = list.styled_item(selected, state.selected);
    assert(styled[selected] == item);
    assert(selects(styled, selected));
    lemma_scroll_window_in_range(all, height as nat, state.window_first);
    match list.item_display {
        ItemDisplay::Basic => {
            lemma_basic_selection_span(styled, selected);
            lemma_line_counts(styled, sep);
        },
        ItemDisplay::Separated => {
            assert(no_item_empty(styled));
            lemma_separated_selection_span(styled, sep, selected);
            lemma_separated_layout(styled, sep);
            lemma_line_counts(styled, sep);
        },
    }
    crate::window_type::lemma_span_bounds(all);
    lemma_selection_in_window(all, height as nat, state.window_first);
    let window = list.window_type.window(all, height as nat, state.window_first);
    assert(list.visible_lines(width, height, state) =~= window);
    assert forall|i: int| 0 <= i < item.pending.len() implies window[start - top + i]
        == #[trigger] item.pending[i] && item.pending[i].must_display by {
        assert(all[start + i] == item.pending[i]);
        assert(all[start + i].must_display);
    }
}

} // verus!
