//! Where the selection lies among the display lines of a list.
//!
//! The window looks for the first run of flagged lines. Here it is shown
//! which lines that run is: in a basic list the lines of the selected item,
//! and in a separated list these lines with the separators around them.
use vstd::prelude::*;
use crate::display_line::DisplayLineView;
use crate::line_iters::{
    flag_after,
    flat_lines,
    lemma_line_counts,
    rest_lines,
    separated_lines,
    separator_index,
    total_height,
    ToLinesView,
};
use crate::separator::Separator;
use crate::window_type::{first_marked, lemma_selection_span, lemma_span_bounds, span_end};

verus! {

/// Whether the lines of every item carry the flag of the item, and item
/// `selected` is the one item that is selected.
pub open spec fn selects(items: Seq<ToLinesView>, selected: int) -> bool {
    &&& forall|k: int| 0 <= k < items.len() ==> (#[trigger] items[k]).selected == (k == selected)
    &&& forall|k: int, i: int|
        0 <= k < items.len() && 0 <= i < items[k].pending.len() ==> (
        #[trigger] items[k].pending[i]).must_display == items[k].selected
}

/// Whether every item has a line.
pub open spec fn no_item_empty(items: Seq<ToLinesView>) -> bool {
    forall|k: int| 0 <= k < items.len() ==> (#[trigger] items[k]).pending.len() >= 1
}

/// A run of flagged lines with no flagged line before it is the run that
/// [`first_marked`] and [`span_end`] find.
pub proof fn lemma_span_unique(lines: Seq<DisplayLineView>, s: int, e: int)
    requires
        0 <= s < e <= lines.len(),
        forall|j: int| 0 <= j < s ==> !(#[trigger] lines[j]).must_display,
        forall|j: int| s <= j < e ==> (#[trigger] lines[j]).must_display,
        e < lines.len() ==> !lines[e].must_display,
    ensures
        first_marked(lines) == s,
        span_end(lines) == e,
{
    lemma_selection_span(lines);
    lemma_span_bounds(lines);
    let s1 = first_marked(lines) as int;
    let e1 = span_end(lines) as int;
    assert(lines[s].must_display);
    assert(s1 <= s);
    assert(lines[s1].must_display);
    assert(s1 == s);
    if e1 < e {
        assert(lines[e1].must_display);
    }
    if e1 > e {
        assert(lines[e].must_display);
    }
}

/// The lines of two lists of items in a row are the lines of the one list
/// and then the lines of the other.
pub proof fn lemma_flat_lines_concat(a: Seq<ToLinesView>, b: Seq<ToLinesView>)
    ensures
        flat_lines(a + b) == flat_lines(a) + flat_lines(b),
        total_height(a + b) == total_height(a) + total_height(b),
    decreases a.len(),
{
    if a.len() == 0 {
        assert(a + b =~= b);
        assert(flat_lines(a) + flat_lines(b) =~= flat_lines(b));
    } else {
        lemma_flat_lines_concat(a.drop_first(), b);
        assert((a + b).drop_first() =~= a.drop_first() + b);
        assert((a + b)[0] == a[0]);
        assert(flat_lines(a + b) =~= flat_lines(a) + flat_lines(b));
    }
}

/// Items that are not selected have no flagged line.
proof fn lemma_flat_unflagged(items: Seq<ToLinesView>)
    requires
        selects(items, -1),
    ensures
        forall|j: int| 0 <= j < flat_lines(items).len() ==> !(#[trigger] flat_lines(
            items,
        )[j]).must_display,
    decreases items.len(),
{
    if items.len() > 0 {
        let tail = items.drop_first();
        assert forall|k: int| 0 <= k < tail.len() implies (#[trigger] tail[k]).selected == (k == -1) by {
            assert(tail[k] == items[k + 1]);
        }
        assert forall|k: int, i: int| 0 <= k < tail.len() && 0 <= i < tail[k].pending.len() implies (
        #[trigger] tail[k].pending[i]).must_display == tail[k].selected by {
            assert(tail[k] == items[k + 1]);
        }
        lemma_flat_unflagged(tail);
        assert forall|j: int| 0 <= j < flat_lines(items).len() implies !(#[trigger] flat_lines(
            items,
        )[j]).must_display by {
            if j < items[0].pending.len() {
                assert(flat_lines(items)[j] == items[0].pending[j]);
            } else {
                assert(flat_lines(items)[j] == flat_lines(tail)[j - items[0].pending.len()]);
            }
        }
    }
}

/// In a basic list the first run of flagged lines is the selected item:
/// it starts after the lines of the items before it and has the lines of
/// the item.
pub proof fn lemma_basic_selection_span(items: Seq<ToLinesView>, selected: int)
    requires
        0 <= selected < items.len(),
        selects(items, selected),
        items[selected].pending.len() >= 1,
    ensures
        first_marked(flat_lines(items)) == total_height(items.take(selected)),
        span_end(flat_lines(items)) == total_height(items.take(selected))
            + items[selected].pending.len(),
        forall|i: int|
            0 <= i < items[selected].pending.len() ==> flat_lines(items)[total_height(
                items.take(selected),
            ) + i] == #[trigger] items[selected].pending[i],
{
    let before = items.take(selected);
    let it = seq![items[selected]];
    let after = items.skip(selected + 1);
    let sep = Separator::start(0, crate::style::Style::unset());
    assert(items =~= before + it + after);
    lemma_flat_lines_concat(before + it, after);
    lemma_flat_lines_concat(before, it);
    lemma_line_counts(before, sep);
    lemma_line_counts(after, sep);
    assert(flat_lines(it) =~= items[selected].pending) by {
        assert(it.drop_first() =~= Seq::<ToLinesView>::empty());
        assert(flat_lines(it.drop_first()) =~= Seq::<DisplayLineView>::empty());
    }
    assert(selects(before, -1)) by {
        assert forall|k: int| 0 <= k < before.len() implies (#[trigger] before[k]).selected == (k
            == -1) by {
            assert(before[k] == items[k]);
        }
        assert forall|k: int, i: int|
            0 <= k < before.len() && 0 <= i < before[k].pending.len() implies (
        #[trigger] before[k].pending[i]).must_display == before[k].selected by {
            assert(before[k] == items[k]);
        }
    }
    assert(selects(after, -1)) by {
        assert forall|k: int| 0 <= k < after.len() implies (#[trigger] after[k]).selected == (k
            == -1) by {
            assert(after[k] == items[k + selected + 1]);
        }
        assert forall|k: int, i: int|
            0 <= k < after.len() && 0 <= i < after[k].pending.len() implies (
        #[trigger] after[k].pending[i]).must_display == after[k].selected by {
            assert(after[k] == items[k + selected + 1]);
        }
    }
    lemma_flat_unflagged(before);
    lemma_flat_unflagged(after);
    let lines = flat_lines(items);
    let s = total_height(before) as int;
    let e = s + items[selected].pending.len();
    assert(lines == flat_lines(before) + items[selected].pending + flat_lines(after));
    assert forall|j: int| 0 <= j < s implies !(#[trigger] lines[j]).must_display by {
        assert(lines[j] == flat_lines(before)[j]);
    }
    assert forall|j: int| s <= j < e implies (#[trigger] lines[j]).must_display by {
        assert(lines[j] == items[selected].pending[j - s]);
    }
    if e < lines.len() {
        assert(lines[e] == flat_lines(after)[0]);
    }
    lemma_span_unique(lines, s, e);
    assert forall|i: int| 0 <= i < items[selected].pending.len() implies lines[s + i]
        == #[trigger] items[selected].pending[i] by {}
}

/// The flags of the lines that follow an item in a separated list, where
/// none of the items to come is selected: only the first of them, the
/// separator, can be flagged, and it is if the line before it was.
proof fn lemma_rest_unselected(items: Seq<ToLinesView>, sep: Separator, prev: bool)
    requires
        selects(items, -1),
        no_item_empty(items),
    ensures
        rest_lines(items, sep, prev)[0].must_display == prev,
        forall|j: int|
            1 <= j < rest_lines(items, sep, prev).len() ==> !(#[trigger] rest_lines(
                items,
                sep,
                prev,
            )[j]).must_display,
    decreases items.len(),
{
    if items.len() > 0 {
        let next = items[0];
        let must = next.selected || prev;
        let sep2 = sep.cycled(next.style.bg);
        let tail = items.drop_first();
        let rest = rest_lines(tail, sep2, flag_after(next, must));
        let head = seq![sep2.line_view(must)] + next.pending;
        assert(rest_lines(items, sep, prev) == head + rest);
        assert(selects(tail, -1) && no_item_empty(tail)) by {
            assert forall|k: int| 0 <= k < tail.len() implies (#[trigger] tail[k]).selected == (k
                == -1) && tail[k].pending.len() >= 1 by {
                assert(tail[k] == items[k + 1]);
            }
            assert forall|k: int, i: int|
                0 <= k < tail.len() && 0 <= i < tail[k].pending.len() implies (
            #[trigger] tail[k].pending[i]).must_display == tail[k].selected by {
                assert(tail[k] == items[k + 1]);
            }
        }
        lemma_rest_unselected(tail, sep2, flag_after(next, must));
        assert((head + rest)[0] == sep2.line_view(must));
        assert forall|j: int| 1 <= j < (head + rest).len() implies !(#[trigger] (head
            + rest)[j]).must_display by {
            if j < head.len() {
                assert((head + rest)[j] == next.pending[j - 1]);
            } else {
                assert((head + rest)[j] == rest[j - head.len()]);
            }
        }
    }
}

/// The flags of the lines that follow an item in a separated list, where
/// item `selected` of the items to come is the selected one and the line
/// before was not flagged: the flagged lines are the separator before that
/// item, its lines and the separator after it.
proof fn lemma_rest_selection_span(items: Seq<ToLinesView>, sep: Separator, selected: int)
    requires
        0 <= selected < items.len(),
        selects(items, selected),
        no_item_empty(items),
    ensures
        separator_index(items, (selected + 1) as nat) < rest_lines(items, sep, false).len(),
        forall|j: int|
            0 <= j < separator_index(items, selected as nat) ==> !(#[trigger] rest_lines(
                items,
                sep,
                false,
            )[j]).must_display,
        forall|j: int|
            separator_index(items, selected as nat) <= j <= separator_index(
                items,
                (selected + 1) as nat,
            ) ==> (#[trigger] rest_lines(items, sep, false)[j]).must_display,
        forall|j: int|
            separator_index(items, (selected + 1) as nat) < j < rest_lines(
                items,
                sep,
                false,
            ).len() ==> !(#[trigger] rest_lines(items, sep, false)[j]).must_display,
    decreases items.len(),
{
    let next = items[0];
    let must = next.selected;
    let sep2 = sep.cycled(next.style.bg);
    let tail = items.drop_first();
    let rest = rest_lines(tail, sep2, flag_after(next, must));
    let head = seq![sep2.line_view(must)] + next.pending;
    let all = rest_lines(items, sep, false);
    assert(all == head + rest);
    assert(no_item_empty(tail)) by {
        assert forall|k: int| 0 <= k < tail.len() implies (#[trigger] tail[k]).pending.len() >= 1 by {
            assert(tail[k] == items[k + 1]);
        }
    }
    assert forall|k: int, i: int| 0 <= k < tail.len() && 0 <= i < tail[k].pending.len() implies (
    #[trigger] tail[k].pending[i]).must_display == tail[k].selected by {
        assert(tail[k] == items[k + 1]);
    }
    lemma_line_counts(items, sep);
    lemma_line_counts(tail, sep2);
    crate::line_iters::lemma_separator_index_shift(items, (selected + 1) as nat);
    assert(separator_index(items, 0) == 0);
    if selected == 0 {
        assert forall|k: int| 0 <= k < tail.len() implies (#[trigger] tail[k]).selected == (k == -1) by {
            assert(tail[k] == items[k + 1]);
        }
        lemma_rest_unselected(tail, sep2, true);
        assert(separator_index(tail, 0) == 0);
        assert forall|j: int| 0 <= j <= separator_index(items, 1) implies (#[trigger] all[j]).must_display by {
            if j == 0 {
                assert(all[0] == sep2.line_view(must));
            } else if j < head.len() {
                assert(all[j] == next.pending[j - 1]);
            } else {
                assert(all[j] == rest[0]);
            }
        }
        assert forall|j: int| separator_index(items, 1) < j < all.len() implies !(#[trigger] all[j]).must_display by {
            assert(all[j] == rest[j - head.len()]);
        }
    } else {
        assert forall|k: int| 0 <= k < tail.len() implies (#[trigger] tail[k]).selected == (k
            == selected - 1) by {
            assert(tail[k] == items[k + 1]);
        }
        lemma_rest_selection_span(tail, sep2, selected - 1);
        crate::line_iters::lemma_separator_index_shift(items, selected as nat);
        let shift = head.len() as int;
        assert forall|j: int| 0 <= j < separator_index(items, selected as nat) implies !(#[trigger] all[j]).must_display by {
            if j == 0 {
                assert(all[0] == sep2.line_view(must));
            } else if j < shift {
                assert(all[j] == next.pending[j - 1]);
            } else {
                assert(all[j] == rest[j - shift]);
            }
        }
        assert forall|j: int|
            separator_index(items, selected as nat) <= j <= separator_index(
                items,
                (selected + 1) as nat,
            ) implies (#[trigger] all[j]).must_display by {
            assert(all[j] == rest[j - shift]);
        }
        assert forall|j: int|
            separator_index(items, (selected + 1) as nat) < j < all.len() implies !(#[trigger] all[j]).must_display by {
            assert(all[j] == rest[j - shift]);
        }
    }
}

/// In a separated list without empty items the first run of flagged lines
/// is the selected item with the separators around it: it starts with the
/// separator before the item and ends with the separator after it.
pub proof fn lemma_separated_selection_span(
    items: Seq<ToLinesView>,
    sep: Separator,
    selected: int,
)
    requires
        0 <= selected < items.len(),
        selects(items, selected),
        no_item_empty(items),
    ensures
        first_marked(separated_lines(items, sep)) == separator_index(items, selected as nat),
        span_end(separated_lines(items, sep)) == separator_index(items, (selected + 1) as nat)
            + 1,
        span_end(separated_lines(items, sep)) - first_marked(separated_lines(items, sep))
            == items[selected].pending.len() + 2,
{
    lemma_rest_selection_span(items, sep, selected);
    lemma_line_counts(items, sep);
    let lines = separated_lines(items, sep);
    let s = separator_index(items, selected as nat) as int;
    let e = (separator_index(items, (selected + 1) as nat) + 1) as int;
    assert(separator_index(items, (selected + 1) as nat) == s + items[selected].pending.len() + 1);
    lemma_span_unique(lines, s, e);
}

} // verus!
