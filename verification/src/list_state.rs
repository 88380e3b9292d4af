//! The state that a list keeps between two renders: how many items there are,
//! which of them is selected, and which display line was at the top of the
//! window when the list was last drawn.
use vstd::prelude::*;

verus! {

/// What a [`ListState`] holds, as mathematical integers.
pub struct ListStateView {
    /// Number of items in the list.
    pub size: nat,
    /// Index of the selected item.
    pub selected: nat,
    /// Index of the display line that was last drawn at the top of the window.
    pub window_first: nat,
}

impl ListStateView {
    /// A state is valid when the list is not empty and the selection is one of
    /// its items.
    pub open spec fn wf(self) -> bool {
        1 <= self.size && self.selected < self.size
    }

    /// The selection moved one item down, wrapping from the last to the first.
    pub open spec fn cycled_next(self) -> ListStateView {
        ListStateView { selected: (self.selected + 1) % self.size, ..self }
    }

    /// The selection moved one item up, wrapping from the first to the last.
    pub open spec fn cycled_prev(self) -> ListStateView {
        ListStateView {
            selected: ((self.selected + self.size - 1) % (self.size as int)) as nat,
            ..self
        }
    }

    /// `n` steps of [`Self::cycled_next`].
    pub open spec fn cycled_next_by(self, n: nat) -> ListStateView
        decreases n,
    {
        if n == 0 {
            self
        } else {
            self.cycled_next_by((n - 1) as nat).cycled_next()
        }
    }

    /// `n` steps of [`Self::cycled_prev`].
    pub open spec fn cycled_prev_by(self, n: nat) -> ListStateView
        decreases n,
    {
        if n == 0 {
            self
        } else {
            self.cycled_prev_by((n - 1) as nat).cycled_prev()
        }
    }

    /// The selection moved one item down, staying on the last item.
    pub open spec fn moved_next(self) -> ListStateView {
        ListStateView {
            selected: if self.selected + 1 < self.size {
                self.selected + 1
            } else {
                (self.size - 1) as nat
            },
            ..self
        }
    }

    /// The selection moved one item up, staying on the first item.
    pub open spec fn moved_prev(self) -> ListStateView {
        ListStateView {
            selected: if self.selected >= 1 {
                (self.selected - 1) as nat
            } else {
                0
            },
            ..self
        }
    }

    /// The selection set to item `n`, or to the last item when `n` is beyond it.
    pub open spec fn with_selected(self, n: nat) -> ListStateView {
        ListStateView {
            selected: if n < self.size {
                n
            } else {
                (self.size - 1) as nat
            },
            ..self
        }
    }

    /// The list resized to `size` items; a selection that no longer exists
    /// becomes the last item.
    pub open spec fn resized(self, size: nat) -> ListStateView {
        ListStateView {
            size,
            selected: if self.selected < size {
                self.selected
            } else {
                (size - 1) as nat
            },
            ..self
        }
    }
}

/// State of a list: tracks the selected item and offers the moves between
/// items. `size` is the number of items to cycle through.
#[derive(Debug)]
pub struct ListState {
    size: usize,
    selected: usize,
    window_first: usize,
}

impl View for ListState {
    type V = ListStateView;

    closed spec fn view(&self) -> ListStateView {
        ListStateView {
            size: self.size as nat,
            selected: self.selected as nat,
            window_first: self.window_first as nat,
        }
    }
}

impl ListState {
    /// Validity of the state: see [`ListStateView::wf`].
    pub open spec fn wf(&self) -> bool {
        self@.wf()
    }

    /// Creates the state of a list of `size` items, with the first item
    /// selected and the window at the top.
    pub fn new(size: usize) -> (res: Self)
        requires
            size >= 1,
        ensures
            res.wf(),
            res@ == (ListStateView { size: size as nat, selected: 0, window_first: 0 }),
    {
        let mut res = ListState { size: 1, selected: 0, window_first: 0 };
        res.resize(size);
        res
    }

    /// Like [`Self::new`], for a size that may be zero: an empty list has no
    /// state.
    pub fn try_new(size: usize) -> (res: Option<Self>)
        ensures
            size == 0 <==> res is None,
            res matches Some(s) ==> s.wf() && s@ == (ListStateView {
                size: size as nat,
                selected: 0,
                window_first: 0,
            }),
    {
        if size == 0 {
            None
        } else {
            Some(ListState::new(size))
        }
    }

    /// Records the display line that is at the top of the window.
    pub fn set_pos(&mut self, pos: usize)
        ensures
            final(self)@ == (ListStateView { window_first: pos as nat, ..old(self)@ }),
    {
        self.window_first = pos;
    }

    /// Selects the next item without wrapping.
    pub fn next(&mut self)
        requires
            old(self).wf(),
        ensures
            final(self).wf(),
            final(self)@ == old(self)@.moved_next(),
    {
        if self.selected + 1 < self.size {
            self.selected = self.selected + 1;
        } else {
            self.selected = self.size - 1;
        }
    }

    /// Selects the previous item without wrapping.
    pub fn prev(&mut self)
        requires
            old(self).wf(),
        ensures
            final(self).wf(),
            final(self)@ == old(self)@.moved_prev(),
    {
        self.selected = self.selected.saturating_sub(1);
    }

    /// Selects the next item; from the last item the selection moves to the
    /// first.
    pub fn cycle_next(&mut self)
        requires
            old(self).wf(),
        ensures
            final(self).wf(),
            final(self)@ == old(self)@.cycled_next(),
    {
        proof {
            lemma_cycled_next_cases(self@);
        }
        self.selected = (self.selected + 1) % self.size;
    }

    /// Selects the previous item; from the first item the selection moves to
    /// the last.
    pub fn cycle_prev(&mut self)
        requires
            old(self).wf(),
        ensures
            final(self).wf(),
            final(self)@ == old(self)@.cycled_prev(),
    {
        proof {
            lemma_cycled_prev_cases(self@);
        }
        if self.selected == 0 {
            self.selected = self.size - 1;
        } else {
            self.selected = self.selected - 1;
        }
    }

    /// Selects item `n`. Beyond the end of the list the last item is selected.
    pub fn select(&mut self, n: usize)
        requires
            old(self).wf(),
        ensures
            final(self).wf(),
            final(self)@ == old(self)@.with_selected(n as nat),
    {
        self.selected = n;
        if self.selected >= self.size {
            self.selected = self.size.saturating_sub(1);
        }
    }

    /// Index of the selected item.
    pub fn selected(&self) -> (res: usize)
        ensures
            res == self@.selected,
    {
        self.selected
    }

    /// Number of items in the list.
    pub fn size(&self) -> (res: usize)
        ensures
            res == self@.size,
    {
        self.size
    }

    /// Index of the display line that was last drawn at the top of the window.
    pub fn window_first(&self) -> (res: usize)
        ensures
            res == self@.window_first,
    {
        self.window_first
    }

    /// Sets the number of items in the list. A selection beyond the new end
    /// moves to the last item.
    pub fn resize(&mut self, size: usize)
        requires
            size >= 1,
        ensures
            final(self).wf(),
            final(self)@.selected < size,
            final(self)@ == old(self)@.resized(size as nat),
    {
        self.size = size;
        if self.selected >= self.size {
            self.selected = self.size.saturating_sub(1);
        }
    }

    /// Like [`Self::resize`], for a size that may be zero: the state is then
    /// left as it is, and the result is `false`.
    pub fn try_resize(&mut self, size: usize) -> (done: bool)
        requires
            old(self).wf(),
        ensures
            done == (size >= 1),
            final(self).wf(),
            done ==> final(self)@ == old(self)@.resized(size as nat),
            !done ==> final(self)@ == old(self)@,
    {
        if size == 0 {
            false
        } else {
            self.resize(size);
            true
        }
    }

    /// The three integers of the state: size, selection and window top, in
    /// this order. They are what has to be stored to keep a state beyond the
    /// run of a program.
    pub fn to_parts(&self) -> (res: (usize, usize, usize))
        ensures
            res.0 == self@.size,
            res.1 == self@.selected,
            res.2 == self@.window_first,
    {
        (self.size, self.selected, self.window_first)
    }

    /// Rebuilds a state from its three integers. A selection beyond the end of
    /// the list becomes the last item.
    pub fn from_parts(size: usize, selected: usize, window_first: usize) -> (res: Self)
        requires
            size >= 1,
        ensures
            res.wf(),
            res@ == (ListStateView {
                size: size as nat,
                selected: 0,
                window_first: window_first as nat,
            }).with_selected(selected as nat),
            selected < size ==> res@ == (ListStateView {
                size: size as nat,
                selected: selected as nat,
                window_first: window_first as nat,
            }),
    {
        let mut res = ListState::new(size);
        res.select(selected);
        res.set_pos(window_first);
        res
    }
}

impl Default for ListState {
    /// The state of a list of one item.
    fn default() -> (res: Self)
        ensures
            res.wf(),
            res@ == (ListStateView { size: 1, selected: 0, window_first: 0 }),
    {
        ListState::new(1)
    }
}

/// On a valid state, moving down with wrapping is: one further, or back to
/// the first item from the last.
pub proof fn lemma_cycled_next_cases(v: ListStateView)
    requires
        v.wf(),
    ensures
        v.cycled_next().wf(),
        v.cycled_next().selected == (if v.selected + 1 == v.size {
            0
        } else {
            v.selected + 1
        }),
{
    let n = v.size as int;
    if v.selected + 1 == v.size {
        vstd::arithmetic::div_mod::lemma_mod_self_0(n);
    } else {
        vstd::arithmetic::div_mod::lemma_small_mod((v.selected + 1) as nat, v.size);
    }
}

/// On a valid state, moving up with wrapping is: one back, or on to the last
/// item from the first.
pub proof fn lemma_cycled_prev_cases(v: ListStateView)
    requires
        v.wf(),
    ensures
        v.cycled_prev().wf(),
        v.cycled_prev().selected == (if v.selected == 0 {
            (v.size - 1) as nat
        } else {
            (v.selected - 1) as nat
        }),
{
    let n = v.size as int;
    if v.selected == 0 {
        vstd::arithmetic::div_mod::lemma_small_mod((v.size - 1) as nat, v.size);
    } else {
        vstd::arithmetic::div_mod::lemma_mod_add_multiples_vanish(v.selected - 1, n);
        vstd::arithmetic::div_mod::lemma_small_mod((v.selected - 1) as nat, v.size);
    }
}

/// After `k` moves down with wrapping, the selection is `k` items further,
/// counted round the list.
pub proof fn lemma_cycled_next_by(v: ListStateView, k: nat)
    requires
        v.wf(),
        k <= v.size,
    ensures
        v.cycled_next_by(k).wf(),
        v.cycled_next_by(k).size == v.size,
        v.cycled_next_by(k).window_first == v.window_first,
        v.cycled_next_by(k).selected == (if v.selected + k < v.size {
            v.selected + k
        } else {
            (v.selected + k - v.size) as nat
        }),
    decreases k,
{
    if k > 0 {
        lemma_cycled_next_by(v, (k - 1) as nat);
        lemma_cycled_next_cases(v.cycled_next_by((k - 1) as nat));
    }
}

/// After `k` moves up with wrapping, the selection is `k` items back, counted
/// round the list.
pub proof fn lemma_cycled_prev_by(v: ListStateView, k: nat)
    requires
        v.wf(),
        k <= v.size,
    ensures
        v.cycled_prev_by(k).wf(),
        v.cycled_prev_by(k).size == v.size,
        v.cycled_prev_by(k).window_first == v.window_first,
        v.cycled_prev_by(k).selected == (if v.selected >= k {
            (v.selected - k) as nat
        } else {
            (v.selected + v.size - k) as nat
        }),
    decreases k,
{
    if k > 0 {
        lemma_cycled_prev_by(v, (k - 1) as nat);
        lemma_cycled_prev_cases(v.cycled_prev_by((k - 1) as nat));
    }
}

/// Cycling forward once for every item of the list brings the selection back
/// to where it started.
pub proof fn lemma_cycle_next_full_turn(v: ListStateView)
    requires
        v.wf(),
    ensures
        v.cycled_next_by(v.size) == v,
{
    lemma_cycled_next_by(v, v.size);
}

/// Cycling backward once for every item of the list brings the selection back
/// to where it started.
pub proof fn lemma_cycle_prev_full_turn(v: ListStateView)
    requires
        v.wf(),
    ensures
        v.cycled_prev_by(v.size) == v,
{
    lemma_cycled_prev_by(v, v.size);
}

/// One move down and one move up with wrapping undo each other.
pub proof fn lemma_cycle_next_prev_inverse(v: ListStateView)
    requires
        v.wf(),
    ensures
        v.cycled_next().cycled_prev() == v,
        v.cycled_prev().cycled_next() == v,
{
    lemma_cycled_next_cases(v);
    lemma_cycled_prev_cases(v);
    lemma_cycled_next_cases(v.cycled_prev());
    lemma_cycled_prev_cases(v.cycled_next());
}

/// Taking a valid state apart and rebuilding it from its three integers gives
/// the same state.
pub proof fn lemma_parts_round_trip(v: ListStateView)
    requires
        v.wf(),
    ensures
        (ListStateView { size: v.size, selected: 0, window_first: v.window_first }).with_selected(
            v.selected,
        ) == v,
{
}

} // verus!
