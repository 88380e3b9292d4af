//! The window: which of the display lines of a list are drawn.
//!
//! A list may have more display lines than the screen has rows for it. The
//! functions of this file pick the lines to draw, in one pass over the lines
//! and without looking at more of them than they need.
use vstd::prelude::*;
use vstd::math::{max, min};
use crate::display_line::{filler_view, line_views, DisplayLine, DisplayLineView, LineSource};
use crate::line_buffer::{
    buffer_into_vec,
    buffer_is_full,
    buffer_lines,
    buffer_max_len,
    buffer_new,
    buffer_of_copies,
    buffer_push_back,
    buffer_set_max_len,
};
use crate::list_state::{ListState, ListStateView};

verus! {

/// How far a pass over the display lines has come with the selection.
///
/// The lines of the selection are the first unbroken run of flagged lines.
/// `NotSeen` holds until the first flagged line; `Started` holds from there,
/// with the index of that line, as long as the lines are flagged; `Complete`
/// holds from the first line after the run to the end.
#[derive(Clone, Copy, Debug, PartialEq, Eq, Structural)]
pub enum SelectionState {
    NotSeen,
    Started(usize),
    Complete,
}

/// Short name of [`SelectionState`].
pub type SelState = SelectionState;

impl SelectionState {
    /// The state after a line with the given flag and index.
    pub open spec fn toggled(self, item_selected: bool, index: usize) -> SelectionState {
        match (self, item_selected) {
            (SelectionState::NotSeen, true) => SelectionState::Started(index),
            (SelectionState::Started(_), false) => SelectionState::Complete,
            _ => self,
        }
    }

    /// Takes note of the line with the given index, which is flagged or not.
    pub fn toggle(&mut self, item_selected: bool, index: usize)
        ensures
            *final(self) == old(self).toggled(item_selected, index),
    {
        *self = match (*self, item_selected) {
            (SelectionState::NotSeen, true) => SelectionState::Started(index),
            (SelectionState::Started(_), false) => SelectionState::Complete,
            _ => *self,
        };
    }
}

impl Default for SelectionState {
    fn default() -> (res: Self)
        ensures
            res == SelectionState::NotSeen,
    {
        SelectionState::NotSeen
    }
}

/// The place of the window while it slides down the lines. `top` is the
/// index of the first line in the window.
///
/// Where possible the window stays where it was when the list was drawn
/// last, which is `goal`. It moves past the goal only to show the selection.
/// The restriction is the first line of the selection: the top goes no
/// further than that, so that the selection is shown from its start.
#[derive(Clone, Copy, Debug, PartialEq, Eq, Structural)]
pub struct Window {
    pub goal: usize,
    pub top: usize,
    pub restriction: Option<usize>,
}

impl Window {
    /// The window after it took note of the state of the pass.
    pub open spec fn restricted(self, state: SelectionState) -> Window {
        match (self.restriction, state) {
            (None, SelectionState::Started(i)) => Window { restriction: Some(i), ..self },
            _ => self,
        }
    }

    /// A window at the first line that aims for `goal`.
    pub fn new(goal: usize) -> (res: Self)
        ensures
            res == (Window { goal, top: 0, restriction: None }),
    {
        Window { goal, top: 0, restriction: None }
    }

    /// Restricts the window to the start of the selection, the first time
    /// that it is called in the state `Started`. Later calls change nothing.
    pub fn restrict(&mut self, state: SelectionState)
        ensures
            *final(self) == old(self).restricted(state),
    {
        if self.restriction.is_none() {
            if let SelectionState::Started(i) = state {
                self.restriction = Some(i);
            }
        }
    }

    /// Moves the top of the window one line down.
    pub fn advance(&mut self)
        requires
            old(self).top < usize::MAX,
        ensures
            *final(self) == (Window { top: (old(self).top + 1) as usize, ..*old(self) }),
    {
        self.top += 1;
    }

    /// Has the top reached or passed the goal?
    pub fn is_aligned(&self) -> (res: bool)
        ensures
            res == (self.top >= self.goal),
    {
        self.top >= self.goal
    }

    /// Has the top reached the restriction?
    pub fn is_restricted(&self) -> (res: bool)
        ensures
            res == (self.restriction matches Some(s) && self.top >= s),
    {
        match self.restriction {
            Some(s) => self.top >= s,
            None => false,
        }
    }
}

/// Index of the first flagged line, or the number of lines if none is
/// flagged.
pub open spec fn first_marked(lines: Seq<DisplayLineView>) -> nat
    decreases lines.len(),
{
    if lines.len() == 0 {
        0
    } else {
        let head = lines.drop_last();
        if first_marked(head) < head.len() {
            first_marked(head)
        } else if lines.last().must_display {
            head.len()
        } else {
            lines.len()
        }
    }
}

/// Index of the line after the first run of flagged lines, or the number of
/// lines if the run goes on to the end or if there is none.
pub open spec fn span_end(lines: Seq<DisplayLineView>) -> nat
    decreases lines.len(),
{
    if lines.len() == 0 {
        0
    } else {
        let head = lines.drop_last();
        if span_end(head) < head.len() {
            span_end(head)
        } else if first_marked(head) < head.len() && !lines.last().must_display {
            head.len()
        } else {
            lines.len()
        }
    }
}

/// Index of the line at the top of the window that follows the selection.
///
/// Lines that fit the window are shown from the first. Otherwise the window
/// starts at the goal, or at the start of the selection if that comes
/// first; it moves down as far as it must to show the end of the selection,
/// but neither beyond the start of the selection nor beyond the place where
/// the last line is at its bottom.
pub open spec fn scroll_top(lines: Seq<DisplayLineView>, window_size: nat, goal: nat) -> nat {
    let n = lines.len() as int;
    let s = first_marked(lines) as int;
    let e = span_end(lines) as int;
    if n <= window_size {
        0
    } else {
        min(n - window_size, min(s, max(e - window_size, min(goal as int, s)))) as nat
    }
}

/// The lines in the window that follows the selection.
pub open spec fn scroll_window(lines: Seq<DisplayLineView>, window_size: nat, goal: nat) -> Seq<
    DisplayLineView,
> {
    if lines.len() <= window_size {
        lines
    } else {
        let top = scroll_top(lines, window_size, goal) as int;
        lines.subrange(top, top + window_size)
    }
}

/// The first flagged line comes before the end of its run, and both lie
/// within the lines.
pub proof fn lemma_span_bounds(lines: Seq<DisplayLineView>)
    ensures
        first_marked(lines) <= span_end(lines) <= lines.len(),
        first_marked(lines) < lines.len() ==> first_marked(lines) < span_end(lines),
    decreases lines.len(),
{
    if lines.len() > 0 {
        lemma_span_bounds(lines.drop_last());
    }
}

/// What [`first_marked`] and [`span_end`] mean: no line before the first
/// flagged one is flagged, every line from there to the end of the run is,
/// and the line at the end of the run is not.
pub proof fn lemma_selection_span(lines: Seq<DisplayLineView>)
    ensures
        forall|j: int| 0 <= j < first_marked(lines) ==> !(#[trigger] lines[j]).must_display,
        forall|j: int|
            first_marked(lines) <= j < span_end(lines) ==> (#[trigger] lines[j]).must_display,
        first_marked(lines) < lines.len() ==> lines[first_marked(lines) as int].must_display,
        span_end(lines) < lines.len() ==> !lines[span_end(lines) as int].must_display,
    decreases lines.len(),
{
    lemma_span_bounds(lines);
    if lines.len() > 0 {
        let head = lines.drop_last();
        lemma_selection_span(head);
        lemma_span_bounds(head);
        assert forall|j: int| 0 <= j < first_marked(lines) implies !(#[trigger] lines[j]).must_display by {
            if j < head.len() {
                assert(lines[j] == head[j]);
            }
        }
        assert forall|j: int| first_marked(lines) <= j < span_end(lines) implies (#[trigger] lines[j]).must_display by {
            if j < head.len() {
                assert(lines[j] == head[j]);
            }
        }
        if span_end(lines) < lines.len() {
            if span_end(head) < head.len() {
                assert(lines[span_end(lines) as int] == head[span_end(head) as int]);
            }
        }
        if first_marked(head) < head.len() {
            assert(lines[first_marked(lines) as int] == head[first_marked(head) as int]);
        }
    }
}

/// How the first flagged line and the end of its run change when one more
/// line is looked at.
proof fn lemma_prefix_step(all: Seq<DisplayLineView>, i: int)
    requires
        0 <= i < all.len(),
    ensures
        first_marked(all.take(i + 1)) == (if first_marked(all.take(i)) < i {
            first_marked(all.take(i))
        } else if all[i].must_display {
            i as nat
        } else {
            (i + 1) as nat
        }),
        span_end(all.take(i + 1)) == (if span_end(all.take(i)) < i {
            span_end(all.take(i))
        } else if first_marked(all.take(i)) < i && !all[i].must_display {
            i as nat
        } else {
            (i + 1) as nat
        }),
        first_marked(all.take(i)) <= span_end(all.take(i)) <= i,
        first_marked(all.take(i)) < i ==> first_marked(all.take(i)) < span_end(all.take(i)),
{
    assert(all.take(i + 1).drop_last() =~= all.take(i));
    assert(all.take(i + 1).last() == all[i]);
    lemma_span_bounds(all.take(i));
}

/// A first flagged line and an end of its run that were found among the
/// first `k` lines stay what they are when more lines are looked at.
proof fn lemma_prefix_stable(all: Seq<DisplayLineView>, k: int)
    requires
        0 <= k <= all.len(),
    ensures
        first_marked(all.take(k)) < k ==> first_marked(all) == first_marked(all.take(k)),
        first_marked(all.take(k)) >= k ==> first_marked(all) >= k,
        span_end(all.take(k)) < k ==> span_end(all) == span_end(all.take(k)),
        span_end(all.take(k)) >= k ==> span_end(all) >= k,
    decreases all.len() - k,
{
    if k < all.len() {
        lemma_prefix_step(all, k);
        lemma_prefix_stable(all, k + 1);
    } else {
        assert(all.take(k) =~= all);
    }
}

/// The window slides on: with `i` lines in view and the next line read, the
/// top moves one line down unless the selection says otherwise.
proof fn lemma_scroll_advance(all: Seq<DisplayLineView>, i: int, w: nat, goal: nat)
    requires
        0 <= i < all.len(),
        i >= w,
        ({
            let s = first_marked(all.take(i + 1));
            let e = span_end(all.take(i + 1));
            ||| s == i + 1
            ||| (s <= i && e == i + 1 && i - w < s)
            ||| (s <= i && e <= i && i - w < goal && i - w < s)
        }),
    ensures
        scroll_top(all.take(i + 1), w, goal) == i + 1 - w,
{
    lemma_span_bounds(all.take(i + 1));
}

/// The window stops: once the selection is in view as far as it can be, the
/// lines that follow do not move the top any more.
proof fn lemma_scroll_stop(all: Seq<DisplayLineView>, i: int, w: nat, goal: nat)
    requires
        0 <= i < all.len(),
        i >= w,
        scroll_top(all.take(i), w, goal) == i - w,
        ({
            let s = first_marked(all.take(i + 1));
            let e = span_end(all.take(i + 1));
            ||| (s <= i && e == i + 1 && i - w >= s)
            ||| (s <= i && e <= i && (i - w >= goal || i - w >= s))
        }),
    ensures
        scroll_top(all, w, goal) == i - w,
{
    lemma_prefix_step(all, i);
    lemma_prefix_stable(all, i + 1);
    lemma_span_bounds(all);
}

/// Whether the state of a pass and its window fit the lines seen so far.
spec fn tracks(state: SelectionState, window: Window, seen: Seq<DisplayLineView>, goal: nat) -> bool {
    let s = first_marked(seen);
    let e = span_end(seen);
    &&& window.goal == goal
    &&& match state {
        SelectionState::NotSeen => s == seen.len(),
        SelectionState::Started(x) => x == s && s < seen.len() && e == seen.len(),
        SelectionState::Complete => s < seen.len() && e < seen.len(),
    }
    &&& window.restriction == (if s < seen.len() {
        Some(s as usize)
    } else {
        None
    })
}

/// Picks the lines to draw so that the window follows the selection.
///
/// The window has `window_size` rows, and `list_state` remembers where its
/// top was when the list was drawn last. The result is the window of
/// [`scroll_window`], and its top, [`scroll_top`], is remembered in
/// `list_state` for the next time.
pub fn selection_scroll<S: LineSource>(items: S, window_size: u16, list_state: &mut ListState) -> (res:
    Vec<DisplayLine>)
    requires
        items.wf(),
        items.pending().len() <= usize::MAX,
    ensures
        line_views(res@) == scroll_window(
            items.pending(),
            window_size as nat,
            old(list_state)@.window_first,
        ),
        final(list_state)@ == (ListStateView {
            window_first: scroll_top(
                items.pending(),
                window_size as nat,
                old(list_state)@.window_first,
            ),
            ..old(list_state)@
        }),
{
    let mut items = items;
    let ghost all = items.pending();
    let ghost goal = list_state@.window_first;
    let w: usize = window_size as usize;
    let mut window = Window::new(list_state.window_first());
    let mut sel_state = SelectionState::NotSeen;

    // The lines of the window, as far as the pass has come.
    let mut buffer = buffer_new(w);
    let mut i: usize = 0;
    proof {
        assert(all.skip(0) =~= all);
        assert(buffer_lines(buffer) =~= all.subrange(0, 0));
    }
    loop
        invariant_except_break
            items.wf(),
            i <= all.len() <= usize::MAX,
            items.pending() == all.skip(i as int),
            tracks(sel_state, window, all.take(i as int), goal),
            window.top == scroll_top(all.take(i as int), w as nat, goal),
            window.top == (if i <= w {
                0
            } else {
                i - w
            }),
            buffer_max_len(buffer) == w,
            buffer_lines(buffer) == all.subrange(window.top as int, i as int),
        ensures
            window.top == scroll_top(all, w as nat, goal),
            buffer_lines(buffer) == scroll_window(all, w as nat, goal),
        decreases all.len() - i,
    {
        let l = match items.next() {
            Some(l) => l,
            None => {
                proof {
                    assert(all.take(i as int) =~= all);
                    assert(all.subrange(window.top as int, i as int) =~= scroll_window(
                        all,
                        w as nat,
                        goal,
                    ));
                }
                break ;
            },
        };
        proof {
            assert(l@ == all[i as int]);
            assert(all.skip(i as int).drop_first() =~= all.skip(i + 1));
            lemma_prefix_step(all, i as int);
        }
        sel_state.toggle(l.must_display, i);
        window.restrict(sel_state);
        assert(tracks(sel_state, window, all.take(i + 1), goal));

        // The window is filled before it moves.
        if !buffer_is_full(&buffer) {
            let _ = buffer_push_back(&mut buffer, l);
            proof {
                assert(buffer_lines(buffer) =~= all.subrange(0, i + 1));
            }
            i += 1;
            continue ;
        }
        // The window is full: what happens next depends on the selection.

        match sel_state {
            // Before the selection the window slides on.
            SelectionState::NotSeen => {},
            // Within the selection it slides on until the start of the
            // selection is at its top.
            SelectionState::Started(_) => {
                if window.is_restricted() {
                    proof {
                        lemma_scroll_stop(all, i as int, w as nat, goal);
                        assert(all.subrange(window.top as int, i as int) =~= scroll_window(
                            all,
                            w as nat,
                            goal,
                        ));
                    }
                    break ;
                }
            },
            // After the selection it slides on until it is back where it
            // was, or until the start of the selection is at its top.
            SelectionState::Complete => {
                if window.is_aligned() || window.is_restricted() {
                    proof {
                        lemma_scroll_stop(all, i as int, w as nat, goal);
                        assert(all.subrange(window.top as int, i as int) =~= scroll_window(
                            all,
                            w as nat,
                            goal,
                        ));
                    }
                    break ;
                }
            },
        }
        proof {
            lemma_scroll_advance(all, i as int, w as nat, goal);
        }
        window.advance();
        let _ = buffer_push_back(&mut buffer, l);
        proof {
            assert(buffer_lines(buffer) =~= all.subrange(window.top as int, i + 1));
        }
        i += 1;
    }

    list_state.set_pos(window.top);
    buffer_into_vec(buffer)
}

/// `count` rows that fill a gap: see [`filler_view`].
pub open spec fn fillers(count: nat) -> Seq<DisplayLineView> {
    Seq::new(count, |i: int| filler_view(""@))
}

/// The last `count` of the given lines.
pub open spec fn last_n(lines: Seq<DisplayLineView>, count: nat) -> Seq<DisplayLineView> {
    lines.skip(lines.len() - count)
}

/// The `at` rows that come before the selection: the lines above it, with
/// filler rows before them where there are fewer than `at` such lines.
/// Without a selection these are the last `at` lines of the list.
pub open spec fn lead_in(lines: Seq<DisplayLineView>, at: nat) -> Seq<DisplayLineView> {
    last_n(fillers(at) + lines.take(first_marked(lines) as int), at)
}

/// The lines in the window that keeps the selection on row `at`.
///
/// The window starts with the `at` rows before the selection and goes on
/// with the selection and what follows it, to at most `window_size` rows.
/// Where `at` is no row of the window, the rows before the selection are cut
/// to the size of the window, and the last of them that is left gives way to
/// the first line of the selection. A list without a selection shows its
/// last `at` lines.
pub open spec fn fixed_window(lines: Seq<DisplayLineView>, at: nat, window_size: nat) -> Seq<
    DisplayLineView,
> {
    let s = first_marked(lines) as int;
    let n = lines.len() as int;
    let lead = lead_in(lines, at);
    if s >= n {
        lead
    } else if window_size == 0 {
        Seq::empty()
    } else if at >= window_size {
        lead.take(window_size as int).drop_first().push(lines[s])
    } else {
        lead + lines.subrange(s, min(n, s + window_size - at))
    }
}

/// The last `at` lines, after one more line has come.
proof fn lemma_last_n_push(x: Seq<DisplayLineView>, a: DisplayLineView, at: nat)
    requires
        x.len() >= at,
    ensures
        at == 0 ==> last_n(x.push(a), at) == last_n(x, at),
        at > 0 ==> last_n(x.push(a), at) == last_n(x, at).drop_first().push(a),
{
    if at == 0 {
        assert(last_n(x.push(a), at) =~= last_n(x, at));
    } else {
        assert(last_n(x.push(a), at) =~= last_n(x, at).drop_first().push(a));
    }
}

/// The rows before the selection do not depend on the lines after its
/// start.
proof fn lemma_lead_in_prefix(all: Seq<DisplayLineView>, k: int, at: nat)
    requires
        0 <= k <= all.len(),
        first_marked(all.take(k)) < k,
    ensures
        first_marked(all) == first_marked(all.take(k)),
        lead_in(all, at) == lead_in(all.take(k), at),
{
    lemma_prefix_stable(all, k);
    let s = first_marked(all) as int;
    assert(all.take(k).take(s) =~= all.take(s));
}

/// Picks the lines to draw so that the selection starts on row `at` of the
/// window, whatever its place in the list.
///
/// The result is the window of [`fixed_window`]. The state of the list is
/// left as it is.
pub fn fixed<S: LineSource>(items: S, at: u16, window_size: u16, list_state: &mut ListState) -> (res:
    Vec<DisplayLine>)
    requires
        items.wf(),
        items.pending().len() <= usize::MAX,
    ensures
        line_views(res@) == fixed_window(items.pending(), at as nat, window_size as nat),
        *final(list_state) == *old(list_state),
{
    let mut items = items;
    let ghost all = items.pending();
    let w: usize = window_size as usize;
    let mut sel_state = SelectionState::default();

    // A queue of blank rows as long as the rows before the selection. Should
    // the selection start with the first line of the list, it is still drawn
    // on its row.
    let mut buffer = buffer_of_copies(DisplayLine::filler(""), at as usize);
    let mut i: usize = 0;
    proof {
        assert(all.skip(0) =~= all);
        assert(buffer_lines(buffer) =~= last_n(fillers(at as nat) + all.take(0), at as nat));
    }
    loop
        invariant_except_break
            items.wf(),
            i <= all.len() <= usize::MAX,
            items.pending() == all.skip(i as int),
            first_marked(all.take(i as int)) <= i,
            sel_state is NotSeen <==> first_marked(all.take(i as int)) == i,
            sel_state is NotSeen ==> buffer_max_len(buffer) == at && buffer_lines(
                buffer,
            ) == last_n(fillers(at as nat) + all.take(i as int), at as nat),
            !(sel_state is NotSeen) ==> buffer_max_len(buffer) == w && at + (i - first_marked(
                all.take(i as int),
            )) < w && buffer_lines(buffer) == lead_in(all.take(i as int), at as nat)
                + all.subrange(first_marked(all.take(i as int)) as int, i as int),
        ensures
            buffer_lines(buffer) == fixed_window(all, at as nat, w as nat),
        decreases all.len() - i,
    {
        let ghost held = buffer_lines(buffer);
        let ghost seen_before = !(sel_state is NotSeen);
        let dl = match items.next() {
            Some(dl) => dl,
            None => {
                proof {
                    assert(all.take(i as int) =~= all);
                    if seen_before {
                        assert(held =~= fixed_window(all, at as nat, w as nat));
                    }
                }
                break ;
            },
        };
        proof {
            assert(dl@ == all[i as int]);
            assert(all.skip(i as int).drop_first() =~= all.skip(i + 1));
            lemma_prefix_step(all, i as int);
            assert(fillers(at as nat) + all.take(i + 1) =~= (fillers(at as nat) + all.take(
                i as int,
            )).push(dl@));
        }
        let ghost s = first_marked(all.take(i + 1)) as int;
        sel_state.toggle(dl.must_display, i);
        match sel_state {
            // The selection has not begun: the rows before it move up.
            SelectionState::NotSeen => {
                let _ = buffer_push_back(&mut buffer, dl);
                proof {
                    lemma_last_n_push(fillers(at as nat) + all.take(i as int), dl@, at as nat);
                }
            },
            // The selection has begun: the window grows to its full size
            // and takes lines until it is full.
            _ => {
                buffer_set_max_len(&mut buffer, w);
                let ghost cut = buffer_lines(buffer);
                let _ = buffer_push_back(&mut buffer, dl);
                proof {
                    let lead = lead_in(all.take(i + 1), at as nat);
                    assert(all.take(i + 1).take(s) =~= all.take(i as int).take(s));
                    assert(all.take(i as int).take(i as int) =~= all.take(i as int));
                    if !seen_before {
                        assert(s == i);
                        assert(held == lead);
                        if held.len() <= w {
                            assert(cut =~= lead.take(at as int));
                        }
                    } else {
                        assert(lead == lead_in(all.take(i as int), at as nat));
                    }
                    if w > 0 && at >= w {
                        assert(cut =~= lead.take(w as int));
                    } else if w > 0 {
                        assert(buffer_lines(buffer) =~= lead + all.subrange(s, i + 1));
                    }
                }
                if buffer_is_full(&buffer) {
                    proof {
                        lemma_lead_in_prefix(all, i + 1, at as nat);
                        if w == 0 {
                            assert(buffer_lines(buffer) =~= Seq::<
                                DisplayLineView,
                            >::empty());
                        }
                    }
                    break ;
                }
            },
        }
        i += 1;
    }
    buffer_into_vec(buffer)
}

/// Where the window is with respect to the lines of the list.
#[derive(Debug, Copy, Clone, PartialEq, Eq, Structural)]
pub enum WindowType {
    /// The window follows the selection: it moves only when the selection
    /// would otherwise be out of view, as one expects of a list.
    SelectionScroll,
    /// The selection is always drawn on the same row of the window, which is
    /// given here: the list moves about the selection.
    Fixed(u16),
}

impl WindowType {
    /// The lines in the window, of `window_size` rows, over the given lines.
    pub open spec fn window(self, lines: Seq<DisplayLineView>, window_size: nat, goal: nat) -> Seq<
        DisplayLineView,
    > {
        match self {
            WindowType::SelectionScroll => scroll_window(lines, window_size, goal),
            WindowType::Fixed(at) => fixed_window(lines, at as nat, window_size),
        }
    }

    /// The line at the top of the window that is remembered for the next
    /// time: a window that follows the selection remembers where it is, the
    /// other remembers what it was given.
    pub open spec fn anchor(self, lines: Seq<DisplayLineView>, window_size: nat, goal: nat) -> nat {
        match self {
            WindowType::SelectionScroll => scroll_top(lines, window_size, goal),
            WindowType::Fixed(_) => goal,
        }
    }

    /// Goes through the display lines and picks the ones to be shown in the
    /// window.
    pub fn get_display_lines<S: LineSource>(
        self,
        items: S,
        window_size: u16,
        list_state: &mut ListState,
    ) -> (res: Vec<DisplayLine>)
        requires
            items.wf(),
            items.pending().len() <= usize::MAX,
        ensures
            line_views(res@) == self.window(
                items.pending(),
                window_size as nat,
                old(list_state)@.window_first,
            ),
            final(list_state)@ == (ListStateView {
                window_first: self.anchor(
                    items.pending(),
                    window_size as nat,
                    old(list_state)@.window_first,
                ),
                ..old(list_state)@
            }),
    {
        match self {
            WindowType::SelectionScroll => selection_scroll(items, window_size, list_state),
            WindowType::Fixed(at) => fixed(items, at, window_size, list_state),
        }
    }
}

/// The window that follows the selection is as long as the screen allows
/// and lies within the lines. Unless the window or the list is empty, the
/// line at its top is a line of the list.
pub proof fn lemma_scroll_window_in_range(lines: Seq<DisplayLineView>, window_size: nat, goal: nat)
    ensures
        scroll_window(lines, window_size, goal).len() == min(
            window_size as int,
            lines.len() as int,
        ),
        scroll_top(lines, window_size, goal) + scroll_window(lines, window_size, goal).len()
            <= lines.len(),
        window_size >= 1 && lines.len() >= 1 ==> scroll_top(lines, window_size, goal)
            < lines.len(),
        forall|j: int|
            0 <= j < scroll_window(lines, window_size, goal).len() ==> #[trigger] scroll_window(
                lines,
                window_size,
                goal,
            )[j] == lines[scroll_top(lines, window_size, goal) + j],
{
    lemma_span_bounds(lines);
}

/// A selection that fits the window is in the window with all its lines,
/// wherever the window was before.
pub proof fn lemma_selection_in_window(lines: Seq<DisplayLineView>, window_size: nat, goal: nat)
    requires
        first_marked(lines) < lines.len(),
        span_end(lines) - first_marked(lines) <= window_size,
    ensures
        scroll_top(lines, window_size, goal) <= first_marked(lines),
        span_end(lines) <= scroll_top(lines, window_size, goal) + scroll_window(
            lines,
            window_size,
            goal,
        ).len(),
        forall|j: int|
            first_marked(lines) <= j < span_end(lines) ==> scroll_window(
                lines,
                window_size,
                goal,
            )[j - scroll_top(lines, window_size, goal)] == #[trigger] lines[j]
                && lines[j].must_display,
{
    lemma_span_bounds(lines);
    lemma_selection_span(lines);
    lemma_scroll_window_in_range(lines, window_size, goal);
}

/// A selection that is longer than the window is shown from its first line:
/// the window starts there, and all its lines are lines of the selection.
pub proof fn lemma_long_selection_pinned(lines: Seq<DisplayLineView>, window_size: nat, goal: nat)
    requires
        span_end(lines) - first_marked(lines) > window_size,
    ensures
        scroll_top(lines, window_size, goal) == first_marked(lines),
        scroll_window(lines, window_size, goal).len() == window_size,
        forall|j: int|
            0 <= j < window_size ==> (#[trigger] scroll_window(
                lines,
                window_size,
                goal,
            )[j]).must_display,
{
    lemma_span_bounds(lines);
    lemma_selection_span(lines);
    lemma_scroll_window_in_range(lines, window_size, goal);
    let top = scroll_top(lines, window_size, goal) as int;
    assert forall|j: int| 0 <= j < window_size implies (#[trigger] scroll_window(
        lines,
        window_size,
        goal,
    )[j]).must_display by {
        assert(lines[top + j].must_display);
    }
}

/// A window that shows the whole selection stays where it is: if the window
/// at `goal` lies within the lines and holds every line of the selection,
/// the top of the new window is `goal` again.
pub proof fn lemma_window_stays(lines: Seq<DisplayLineView>, window_size: nat, goal: nat)
    requires
        first_marked(lines) < lines.len(),
        goal <= first_marked(lines),
        span_end(lines) <= goal + window_size,
        goal + window_size <= lines.len(),
    ensures
        scroll_top(lines, window_size, goal) == goal,
{
    lemma_span_bounds(lines);
}

/// Drawing the same lines again does not move the window: the top that one
/// pass settles on is the top that the next pass settles on.
pub proof fn lemma_scroll_top_settles(lines: Seq<DisplayLineView>, window_size: nat, goal: nat)
    ensures
        scroll_top(lines, window_size, scroll_top(lines, window_size, goal)) == scroll_top(
            lines,
            window_size,
            goal,
        ),
{
    lemma_span_bounds(lines);
}

/// Where row `at` is a row of the window, the window that keeps the
/// selection in place shows the first line of the selection on that row, and
/// is no longer than the screen allows.
pub proof fn lemma_fixed_window_row(lines: Seq<DisplayLineView>, at: nat, window_size: nat)
    requires
        first_marked(lines) < lines.len(),
        at < window_size,
    ensures
        fixed_window(lines, at, window_size).len() <= window_size,
        fixed_window(lines, at, window_size).len() > at,
        fixed_window(lines, at, window_size)[at as int] == lines[first_marked(lines) as int],
        fixed_window(lines, at, window_size)[at as int].must_display,
{
    lemma_span_bounds(lines);
    lemma_selection_span(lines);
}

} // verus!
