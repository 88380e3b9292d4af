//! From items to display lines.
//!
//! [`ToLines`] hands out the lines of one item. [`Basic`] strings the lines
//! of all items together; [`Separated`] also puts a separator line before the
//! first item, between any two items and after the last item.
use vstd::prelude::*;
use std::collections::VecDeque;
use crate::display_line::{DisplayLine, DisplayLineView, LineSource};
use crate::list_item::{LineIndicators, ListItem};
use crate::separator::{half_run, Separator};
use crate::style::Style;
use crate::text::{into_deque, plain_line, LineView, Spans};

verus! {

/// The display line for line `idx` of an item that has `count` lines.
pub open spec fn item_line(
    line: LineView,
    style: Style,
    indicators: LineIndicators,
    selected: bool,
    idx: nat,
    count: nat,
) -> DisplayLineView {
    DisplayLineView {
        style,
        line,
        must_display: selected,
        left_indicator: plain_line(indicators.left.glyph(idx, count)),
        right_indicator: plain_line(indicators.right.glyph(idx, count)),
    }
}

/// The display lines of an item: one for each line of its text, all in the
/// item's style and flagged if the item is selected.
pub open spec fn item_lines(
    content: Seq<LineView>,
    style: Style,
    indicators: LineIndicators,
    selected: bool,
) -> Seq<DisplayLineView> {
    Seq::new(
        content.len(),
        |k: int| item_line(content[k], style, indicators, selected, k as nat, content.len()),
    )
}

/// What a [`ToLines`] stands for: the style of its item, whether the item is
/// selected, and the display lines that are left of it.
pub struct ToLinesView {
    pub style: Style,
    pub selected: bool,
    pub pending: Seq<DisplayLineView>,
}

/// Hands out the display lines of one item.
pub struct ToLines {
    /// Whether the item is the selected one.
    pub selected: bool,
    style: Style,
    text_items: VecDeque<Spans>,
    next_idx: usize,
    indicators: LineIndicators,
    line_count: usize,
}

impl View for ToLines {
    type V = ToLinesView;

    closed spec fn view(&self) -> ToLinesView {
        ToLinesView {
            style: self.style,
            selected: self.selected,
            pending: Seq::new(
                self.text_items@.len(),
                |k: int|
                    item_line(
                        self.text_items@[k]@,
                        self.style,
                        self.indicators,
                        self.selected,
                        (self.next_idx + k) as nat,
                        self.line_count as nat,
                    ),
            ),
        }
    }
}

/// The views of a sequence of sources.
pub open spec fn to_lines_views(items: Seq<ToLines>) -> Seq<ToLinesView> {
    items.map_values(|t: ToLines| t@)
}

impl ToLines {
    /// The source of the lines of `item`.
    pub fn new(item: ListItem, selected: bool) -> (res: Self)
        ensures
            res.wf(),
            res@ == (ToLinesView {
                style: item.style,
                selected,
                pending: item_lines(item.lines(), item.style, item.indicators, selected),
            }),
            res.pending().len() <= usize::MAX,
    {
        let line_count = item.height();
        let text_items = into_deque(item.content.lines);
        let res = ToLines {
            style: item.style,
            selected,
            text_items,
            next_idx: 0,
            indicators: item.indicators,
            line_count,
        };
        assert(res@.pending =~= item_lines(
            item.lines(),
            item.style,
            item.indicators,
            selected,
        ));
        res
    }

    /// A source without lines that still says whether its item is selected.
    pub fn empty_with_selection(selected: bool) -> (res: Self)
        ensures
            res.wf(),
            res@ == (ToLinesView {
                style: Style::unset(),
                selected,
                pending: Seq::<DisplayLineView>::empty(),
            }),
    {
        let res = ToLines {
            style: Style::default(),
            selected,
            text_items: VecDeque::new(),
            next_idx: 0,
            indicators: LineIndicators::default(),
            line_count: 0,
        };
        assert(res@.pending =~= Seq::<DisplayLineView>::empty());
        res
    }

    /// Every line that is left carries the item's style and its selection
    /// flag.
    pub proof fn lemma_pending_lines(&self)
        ensures
            forall|k: int|
                0 <= k < self@.pending.len() ==> (#[trigger] self@.pending[k]).style
                    == self@.style && self@.pending[k].must_display == self@.selected,
    {
    }
}

impl LineSource for ToLines {
    closed spec fn wf(&self) -> bool {
        self.next_idx + self.text_items@.len() == self.line_count
    }

    open spec fn pending(&self) -> Seq<DisplayLineView> {
        self@.pending
    }

    fn next(&mut self) -> (res: Option<DisplayLine>)
        ensures
            final(self)@.style == old(self)@.style,
            final(self)@.selected == old(self)@.selected,
    {
        let ghost before = *self;
        match self.text_items.pop_front() {
            None => None,
            Some(line) => {
                let i: usize = self.next_idx;
                self.next_idx = i + 1;
                let res = DisplayLine {
                    style: self.style,
                    line,
                    must_display: self.selected,
                    left_indicator: Spans::raw(self.indicators.left.fill_char(i, self.line_count)),
                    right_indicator: Spans::raw(
                        self.indicators.right.fill_char(i, self.line_count),
                    ),
                };
                assert(self.pending() =~= before.pending().drop_first());
                Some(res)
            },
        }
    }
}

/// The lines of all the given sources, one source after the other.
pub open spec fn flat_lines(items: Seq<ToLinesView>) -> Seq<DisplayLineView>
    decreases items.len(),
{
    if items.len() == 0 {
        Seq::empty()
    } else {
        items[0].pending + flat_lines(items.drop_first())
    }
}

/// Whether every source of the sequence can work.
pub open spec fn all_wf(items: Seq<ToLines>) -> bool {
    forall|i: int| 0 <= i < items.len() ==> (#[trigger] items[i]).wf()
}

/// The lines that are left of the source at hand, if there is one.
pub open spec fn current_lines(current: Option<ToLines>) -> Seq<DisplayLineView> {
    match current {
        Some(c) => c.pending(),
        None => Seq::empty(),
    }
}

/// Hands out the lines of the items in order, and nothing else.
pub struct Basic {
    items: VecDeque<ToLines>,
    current: Option<ToLines>,
}

impl Basic {
    /// The source of the lines of all `items`.
    pub fn new(items: Vec<ToLines>) -> (res: Self)
        requires
            all_wf(items@),
        ensures
            res.wf(),
            res.pending() == flat_lines(to_lines_views(items@)),
    {
        let res = Basic { items: into_deque(items), current: None };
        assert(res.pending() =~= flat_lines(to_lines_views(items@)));
        res
    }
}

impl LineSource for Basic {
    closed spec fn wf(&self) -> bool {
        &&& all_wf(self.items@)
        &&& self.current matches Some(c) ==> c.wf()
    }

    closed spec fn pending(&self) -> Seq<DisplayLineView> {
        current_lines(self.current) + flat_lines(to_lines_views(self.items@))
    }

    fn next(&mut self) -> (res: Option<DisplayLine>) {
        let ghost all = self.pending();
        loop
            invariant
                self.wf(),
                self.pending() == all,
                all == old(self).pending(),
            decreases self.items@.len(),
        {
            let from_current = match &mut self.current {
                Some(c) => c.next(),
                None => None,
            };
            match from_current {
                Some(l) => {
                    assert(self.pending() =~= all.drop_first());
                    return Some(l);
                },
                None => {
                    assert(current_lines(self.current) =~= Seq::<DisplayLineView>::empty());
                },
            }
            let ghost queue = self.items@;
            match self.items.pop_front() {
                Some(n) => {
                    assert(to_lines_views(self.items@) =~= to_lines_views(queue).drop_first());
                    self.current = Some(n);
                    assert(self.pending() =~= all);
                },
                None => {
                    assert(all =~= Seq::<DisplayLineView>::empty());
                    return None;
                },
            }
        }
    }
}

/// Whether the separator after a source borders on the selection: the flag
/// of the source's lines if it has any, else the flag that came before it.
pub open spec fn flag_after(item: ToLinesView, before: bool) -> bool {
    if item.pending.len() > 0 {
        item.selected
    } else {
        before
    }
}

/// The lines that follow once the lines of one item have been handed out: a
/// separator, and then each further item's lines followed by a separator.
///
/// `sep` is the separator as it stands before these lines and `prev` says
/// whether the line before them was flagged. A separator is flagged if the
/// line before it is, or if the item after it is selected.
pub open spec fn rest_lines(items: Seq<ToLinesView>, sep: Separator, prev: bool) -> Seq<
    DisplayLineView,
>
    decreases items.len(),
{
    if items.len() == 0 {
        seq![sep.cycled_default().line_view(prev)]
    } else {
        let next = items[0];
        let must = next.selected || prev;
        let sep2 = sep.cycled(next.style.bg);
        seq![sep2.line_view(must)] + next.pending + rest_lines(
            items.drop_first(),
            sep2,
            flag_after(next, must),
        )
    }
}

/// The lines of a separated list: a separator, then each item's lines
/// followed by a separator. A list without items has no lines at all.
pub open spec fn separated_lines(items: Seq<ToLinesView>, sep: Separator) -> Seq<DisplayLineView> {
    if items.len() == 0 {
        Seq::empty()
    } else {
        rest_lines(items, sep, false)
    }
}

/// Hands out the lines of the items in order, with a separator line before
/// the first item, between any two items, and after the last item.
pub struct Separated {
    tolines_iter: VecDeque<ToLines>,
    lines_iter: Option<ToLines>,
    separator: Separator,
    prev_was_selected: bool,
}

impl Separated {
    /// The source of the lines of all `items`, divided by lines that
    /// `separator` makes.
    pub fn new(items: Vec<ToLines>, separator: Separator) -> (res: Self)
        requires
            all_wf(items@),
        ensures
            res.wf(),
            res.pending() == separated_lines(to_lines_views(items@), separator),
    {
        let lines_iter = if items.len() > 0 {
            Some(ToLines::empty_with_selection(items[0].selected))
        } else {
            None
        };
        let res = Separated {
            tolines_iter: into_deque(items),
            lines_iter,
            separator,
            prev_was_selected: false,
        };
        assert(res.pending() =~= separated_lines(to_lines_views(items@), separator));
        res
    }
}

impl LineSource for Separated {
    closed spec fn wf(&self) -> bool {
        &&& all_wf(self.tolines_iter@)
        &&& self.lines_iter matches Some(c) ==> c.wf()
    }

    closed spec fn pending(&self) -> Seq<DisplayLineView> {
        match self.lines_iter {
            None => Seq::empty(),
            Some(cur) => cur.pending() + rest_lines(
                to_lines_views(self.tolines_iter@),
                self.separator,
                flag_after(cur@, self.prev_was_selected),
            ),
        }
    }

    fn next(&mut self) -> (res: Option<DisplayLine>) {
        let ghost before = *self;
        let from_item = match &mut self.lines_iter {
            None => {
                return None;
            },
            Some(lines) => lines.next(),
        };
        let ghost cur = before.lines_iter->0;
        let ghost queue = to_lines_views(before.tolines_iter@);
        let res = match from_item {
            Some(l) => {
                proof {
                    cur.lemma_pending_lines();
                    let rest = rest_lines(queue, before.separator, cur@.selected);
                    assert((cur.pending() + rest).drop_first() =~= cur.pending().drop_first()
                        + rest);
                }
                l
            },
            None => {
                assert(before.pending() =~= rest_lines(
                    queue,
                    before.separator,
                    before.prev_was_selected,
                ));
                match self.tolines_iter.pop_front() {
                    Some(next) => {
                        let must = next.selected || self.prev_was_selected;
                        self.separator.cycle_color(next.style.bg);
                        proof {
                            assert(to_lines_views(self.tolines_iter@) =~= queue.drop_first());
                            let tail = rest_lines(
                                queue.drop_first(),
                                self.separator,
                                flag_after(next@, must),
                            );
                            assert((seq![self.separator.line_view(must)] + next.pending()
                                + tail).drop_first() =~= next.pending() + tail);
                        }
                        self.lines_iter = Some(next);
                        self.separator.display_line(must)
                    },
                    None => {
                        self.lines_iter = None;
                        self.separator.cycle_default();
                        assert(before.pending().drop_first() =~= Seq::<DisplayLineView>::empty());
                        self.separator.display_line(self.prev_was_selected)
                    },
                }
            },
        };
        self.prev_was_selected = res.must_display;
        Some(res)
    }
}

/// How the items of a list become display lines.
#[derive(Debug, Copy, Clone, PartialEq, Eq, Structural)]
pub enum ItemDisplay {
    /// Every line of every item becomes a display line, and there are no
    /// other lines.
    Basic,
    /// As `Basic`, with a separator between the items and at both ends: the
    /// items A, B, C are drawn as `S A1 A2 S B1 S C1 S`.
    Separated,
}

impl ItemDisplay {
    /// The lines that a list of the given items has under this display.
    pub open spec fn lines(self, items: Seq<ToLinesView>, sep: Separator) -> Seq<DisplayLineView> {
        match self {
            ItemDisplay::Basic => flat_lines(items),
            ItemDisplay::Separated => separated_lines(items, sep),
        }
    }

    /// The source of the display lines of `items` under this display.
    pub fn display_iter(self, items: Vec<ToLines>, sep: Separator) -> (res: DisplayIter)
        requires
            all_wf(items@),
        ensures
            res.wf(),
            res.pending() == self.lines(to_lines_views(items@), sep),
    {
        match self {
            ItemDisplay::Basic => DisplayIter::Basic(Basic::new(items)),
            ItemDisplay::Separated => DisplayIter::Separated(Separated::new(items, sep)),
        }
    }
}

/// A source of display lines under either display.
pub enum DisplayIter {
    Basic(Basic),
    Separated(Separated),
}

impl LineSource for DisplayIter {
    open spec fn wf(&self) -> bool {
        match self {
            DisplayIter::Basic(b) => b.wf(),
            DisplayIter::Separated(s) => s.wf(),
        }
    }

    open spec fn pending(&self) -> Seq<DisplayLineView> {
        match self {
            DisplayIter::Basic(b) => b.pending(),
            DisplayIter::Separated(s) => s.pending(),
        }
    }

    fn next(&mut self) -> (res: Option<DisplayLine>) {
        match self {
            DisplayIter::Basic(b) => b.next(),
            DisplayIter::Separated(s) => s.next(),
        }
    }
}

/// Index of the separator before item `k` among the lines of a separated
/// list. With `k` the number of items, it is the index of the last line.
pub open spec fn separator_index(items: Seq<ToLinesView>, k: nat) -> nat
    decreases k,
{
    if k == 0 {
        0
    } else {
        separator_index(items, (k - 1) as nat) + items[k - 1].pending.len() + 1
    }
}

/// Whether `line` is a separator line of the given width that blends the
/// background `above` into the background `below`.
pub open spec fn is_separator(
    line: DisplayLineView,
    width: u16,
    above: Option<crate::style::Color>,
    below: Option<crate::style::Color>,
) -> bool {
    &&& line.line == plain_line(half_run(width as nat))
    &&& line.left_indicator == plain_line(half_run(1))
    &&& line.right_indicator == plain_line(half_run(1))
    &&& line.style.bg == above
    &&& line.style.fg == below
}

/// The background above separator `k`: that of the item before it, or what
/// the separator brings along at the start of the list.
pub open spec fn background_above(items: Seq<ToLinesView>, sep: Separator, k: nat) -> Option<
    crate::style::Color,
> {
    if k == 0 {
        sep.curr_style.fg
    } else {
        items[k - 1].style.bg
    }
}

/// The background below separator `k`: that of the item after it, or the
/// list's own at the end of the list.
pub open spec fn background_below(items: Seq<ToLinesView>, sep: Separator, k: nat) -> Option<
    crate::style::Color,
> {
    if k < items.len() {
        items[k as int].style.bg
    } else {
        sep.default_style.bg
    }
}

/// Whether separator `k` borders on the selection: whether the item before
/// it or the item after it is selected. Before the first item, `prev` stands
/// for the item that is not there.
pub open spec fn borders_selection(items: Seq<ToLinesView>, prev: bool, k: nat) -> bool {
    (if k == 0 {
        prev
    } else {
        items[k - 1].selected
    }) || (k < items.len() && items[k as int].selected)
}

/// Whether every item has a line.
pub open spec fn no_empty_item(items: Seq<ToLinesView>) -> bool {
    forall|j: int| 0 <= j < items.len() ==> (#[trigger] items[j]).pending.len() > 0
}

pub proof fn lemma_separator_index_shift(items: Seq<ToLinesView>, k: nat)
    requires
        1 <= k <= items.len(),
    ensures
        separator_index(items, k) == items[0].pending.len() + 1 + separator_index(
            items.drop_first(),
            (k - 1) as nat,
        ),
    decreases k,
{
    let tail = items.drop_first();
    if k > 1 {
        lemma_separator_index_shift(items, (k - 1) as nat);
        assert(tail[k - 2] == items[k - 1]);
        assert(separator_index(tail, (k - 1) as nat) == separator_index(tail, (k - 2) as nat)
            + tail[k - 2].pending.len() + 1);
    } else {
        assert(separator_index(items, 0) == 0);
        assert(separator_index(tail, 0) == 0);
    }
}

proof fn lemma_rest_len(items: Seq<ToLinesView>, sep: Separator, prev: bool)
    ensures
        rest_lines(items, sep, prev).len() == separator_index(items, items.len()) + 1,
    decreases items.len(),
{
    if items.len() > 0 {
        let next = items[0];
        let must = next.selected || prev;
        lemma_rest_len(items.drop_first(), sep.cycled(next.style.bg), flag_after(next, must));
        lemma_separator_index_shift(items, items.len());
    }
}

proof fn lemma_rest_separator(items: Seq<ToLinesView>, sep: Separator, prev: bool, k: nat)
    requires
        k <= items.len(),
    ensures
        separator_index(items, k) < rest_lines(items, sep, prev).len(),
        is_separator(
            rest_lines(items, sep, prev)[separator_index(items, k) as int],
            sep.width,
            background_above(items, sep, k),
            background_below(items, sep, k),
        ),
        no_empty_item(items) ==> rest_lines(items, sep, prev)[separator_index(
            items,
            k,
        ) as int].must_display == borders_selection(items, prev, k),
    decreases items.len(),
{
    lemma_rest_len(items, sep, prev);
    if items.len() > 0 {
        let next = items[0];
        let must = next.selected || prev;
        let sep2 = sep.cycled(next.style.bg);
        let tail = items.drop_first();
        let rest = rest_lines(tail, sep2, flag_after(next, must));
        let head = seq![sep2.line_view(must)] + next.pending;
        assert(rest_lines(items, sep, prev) == head + rest);
        if k > 0 {
            lemma_separator_index_shift(items, k);
            lemma_rest_separator(tail, sep2, flag_after(next, must), (k - 1) as nat);
            let at = separator_index(tail, (k - 1) as nat) as int;
            assert((head + rest)[head.len() + at] == rest[at]);
            if k > 1 {
                assert(tail[k - 2] == items[k - 1]);
            }
            if k < items.len() {
                assert(tail[k - 1] == items[k as int]);
            }
            if no_empty_item(items) {
                assert forall|j: int| 0 <= j < tail.len() implies (#[trigger] tail[j]).pending.len()
                    > 0 by {
                    assert(tail[j] == items[j + 1]);
                }
            }
        } else {
            assert((head + rest)[0] == sep2.line_view(must));
        }
    }
}

proof fn lemma_rest_item_line(items: Seq<ToLinesView>, sep: Separator, prev: bool, k: nat, i: int)
    requires
        k < items.len(),
        0 <= i < items[k as int].pending.len(),
    ensures
        separator_index(items, k) + 1 + i < rest_lines(items, sep, prev).len(),
        rest_lines(items, sep, prev)[separator_index(items, k) + 1 + i] == items[k as int].pending[i],
    decreases items.len(),
{
    lemma_rest_len(items, sep, prev);
    let next = items[0];
    let must = next.selected || prev;
    let sep2 = sep.cycled(next.style.bg);
    let tail = items.drop_first();
    let rest = rest_lines(tail, sep2, flag_after(next, must));
    let head = seq![sep2.line_view(must)] + next.pending;
    assert(rest_lines(items, sep, prev) == head + rest);
    lemma_rest_len(tail, sep2, flag_after(next, must));
    if k > 0 {
        lemma_separator_index_shift(items, k);
        assert(tail[k - 1] == items[k as int]);
        lemma_rest_item_line(tail, sep2, flag_after(next, must), (k - 1) as nat, i);
        let at = separator_index(tail, (k - 1) as nat) + 1 + i;
        assert((head + rest)[head.len() + at] == rest[at]);
    } else {
        assert((head + rest)[1 + i] == next.pending[i]);
    }
}

/// A separated list of `n` items, `n` at least one, has `n + 1` separator
/// lines and between them the lines of the items, in the order of the items:
/// a separator stands before every item and after the last, and the lines of
/// an item follow the separator before it.
///
/// Each separator has the background of the item above it and, as its
/// foreground, the background of the item below it. Where no item is empty,
/// a separator is flagged exactly if it borders on the selected item.
pub proof fn lemma_separated_layout(items: Seq<ToLinesView>, sep: Separator)
    requires
        items.len() >= 1,
    ensures
        separated_lines(items, sep).len() == separator_index(items, items.len()) + 1,
        forall|k: nat|
            k <= items.len() ==> is_separator(
                #[trigger] separated_lines(items, sep)[separator_index(items, k) as int],
                sep.width,
                background_above(items, sep, k),
                background_below(items, sep, k),
            ),
        forall|k: nat, i: int|
            k < items.len() && 0 <= i < items[k as int].pending.len() ==> separated_lines(
                items,
                sep,
            )[separator_index(items, k) + 1 + i] == #[trigger] items[k as int].pending[i],
        no_empty_item(items) ==> forall|k: nat|
            k <= items.len() ==> (#[trigger] separated_lines(items, sep)[separator_index(
                items,
                k,
            ) as int]).must_display == borders_selection(items, false, k),
{
    lemma_rest_len(items, sep, false);
    assert forall|k: nat| k <= items.len() implies is_separator(
        #[trigger] separated_lines(items, sep)[separator_index(items, k) as int],
        sep.width,
        background_above(items, sep, k),
        background_below(items, sep, k),
    ) by {
        lemma_rest_separator(items, sep, false, k);
    }
    assert forall|k: nat, i: int|
        k < items.len() && 0 <= i < items[k as int].pending.len() implies separated_lines(
        items,
        sep,
    )[separator_index(items, k) + 1 + i] == #[trigger] items[k as int].pending[i] by {
        lemma_rest_item_line(items, sep, false, k, i);
    }
    if no_empty_item(items) {
        assert forall|k: nat| k <= items.len() implies (#[trigger] separated_lines(
            items,
            sep,
        )[separator_index(items, k) as int]).must_display == borders_selection(items, false, k) by {
            lemma_rest_separator(items, sep, false, k);
        }
    }
}

/// The lines of a basic list are the lines of its items and nothing else:
/// there are as many as the items have lines together.
pub open spec fn total_height(items: Seq<ToLinesView>) -> nat
    decreases items.len(),
{
    if items.len() == 0 {
        0
    } else {
        items[0].pending.len() + total_height(items.drop_first())
    }
}

/// A basic list has as many lines as its items have together, and a
/// separated list of at least one item has one more line for each item and
/// one more for the end.
pub proof fn lemma_line_counts(items: Seq<ToLinesView>, sep: Separator)
    ensures
        flat_lines(items).len() == total_height(items),
        items.len() >= 1 ==> separated_lines(items, sep).len() == total_height(items)
            + items.len() + 1,
        items.len() == 0 ==> separated_lines(items, sep).len() == 0,
        separator_index(items, items.len()) == total_height(items) + items.len(),
    decreases items.len(),
{
    lemma_rest_len(items, sep, false);
    if items.len() > 0 {
        lemma_line_counts(items.drop_first(), sep);
        lemma_separator_index_shift(items, items.len());
    }
}

} // verus!
