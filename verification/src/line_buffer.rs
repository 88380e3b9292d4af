//! The buffer that a window is collected in: a `BoundedVecDeque` of display
//! lines from the crate `bounded_vec_deque`, a queue with a limit on its
//! length that gives up lines at its front to take new ones at its back.
//!
//! Nothing in this file is proved. Each function here makes one call of the
//! queue and states what that call does, as the queue's source has it.
use vstd::prelude::*;
use bounded_vec_deque::BoundedVecDeque;
use crate::display_line::{line_views, DisplayLine, DisplayLineView};

verus! {

/// The type `bounded_vec_deque::BoundedVecDeque`, of which nothing but the
/// two names below is known here.
#[verifier::external_type_specification]
#[verifier::external_body]
#[verifier::reject_recursive_types(T)]
pub struct ExBoundedVecDeque<T>(BoundedVecDeque<T>);

/// The lines that a buffer holds, from front to back.
pub uninterp spec fn buffer_lines(buffer: BoundedVecDeque<DisplayLine>) -> Seq<DisplayLineView>;

/// The limit on the number of lines that a buffer holds at a time.
pub uninterp spec fn buffer_max_len(buffer: BoundedVecDeque<DisplayLine>) -> nat;

/// `BoundedVecDeque::new`: an empty buffer with the given limit. The buffer
/// reserves room for `max_len` lines at once, so the limit is kept small
/// enough for that to succeed.
#[verifier::external_body]
pub(crate) fn buffer_new(max_len: usize) -> (res: BoundedVecDeque<DisplayLine>)
    requires
        max_len <= u16::MAX,
    ensures
        buffer_lines(res) == Seq::<DisplayLineView>::empty(),
        buffer_max_len(res) == max_len,
{
    BoundedVecDeque::new(max_len)
}

/// `BoundedVecDeque::from_iter` on `count` copies of `line`, with `count` as
/// the limit: the buffer holds `count` lines that each look like `line`.
#[verifier::external_body]
pub(crate) fn buffer_of_copies(line: DisplayLine, count: usize) -> (res: BoundedVecDeque<
    DisplayLine,
>)
    requires
        count <= u16::MAX,
    ensures
        buffer_lines(res) == Seq::new(count as nat, |i: int| line@),
        buffer_max_len(res) == count,
{
    BoundedVecDeque::from_iter(std::iter::repeat(line).take(count), count)
}

/// `BoundedVecDeque::is_full`: whether the buffer holds as many lines as its
/// limit allows.
#[verifier::external_body]
pub(crate) fn buffer_is_full(buffer: &BoundedVecDeque<DisplayLine>) -> (res: bool)
    ensures
        res == (buffer_lines(*buffer).len() >= buffer_max_len(*buffer)),
{
    buffer.is_full()
}

/// `BoundedVecDeque::push_back`: puts a line at the back. A full buffer first
/// gives up the line at its front, which is returned. A buffer with the limit
/// zero stays as it is and returns the line itself.
#[verifier::external_body]
pub(crate) fn buffer_push_back(buffer: &mut BoundedVecDeque<DisplayLine>, line: DisplayLine) -> (res:
    Option<DisplayLine>)
    ensures
        buffer_max_len(*final(buffer)) == buffer_max_len(*old(buffer)),
        buffer_max_len(*old(buffer)) == 0 ==> buffer_lines(*final(buffer)) == buffer_lines(
            *old(buffer),
        ) && res == Some(line),
        buffer_max_len(*old(buffer)) > 0 && buffer_lines(*old(buffer)).len() >= buffer_max_len(
            *old(buffer),
        ) ==> buffer_lines(*final(buffer)) == buffer_lines(*old(buffer)).drop_first().push(line@)
            && (res matches Some(l) && l@ == buffer_lines(*old(buffer))[0]),
        buffer_lines(*old(buffer)).len() < buffer_max_len(*old(buffer)) ==> buffer_lines(
            *final(buffer),
        ) == buffer_lines(*old(buffer)).push(line@) && res is None,
{
    buffer.push_back(line)
}

/// `BoundedVecDeque::set_max_len`: changes the limit. Lines beyond the new
/// limit leave the buffer at its back. They are dropped here.
#[verifier::external_body]
pub(crate) fn buffer_set_max_len(buffer: &mut BoundedVecDeque<DisplayLine>, max_len: usize)
    ensures
        buffer_max_len(*final(buffer)) == max_len,
        buffer_lines(*old(buffer)).len() <= max_len ==> buffer_lines(*final(buffer))
            == buffer_lines(*old(buffer)),
        buffer_lines(*old(buffer)).len() > max_len ==> buffer_lines(*final(buffer))
            == buffer_lines(*old(buffer)).take(max_len as int),
{
    let _ = buffer.set_max_len(max_len);
}

/// `BoundedVecDeque::into_iter`, collected: the lines of the buffer from
/// front to back.
#[verifier::external_body]
pub(crate) fn buffer_into_vec(buffer: BoundedVecDeque<DisplayLine>) -> (res: Vec<DisplayLine>)
    ensures
        line_views(res@) == buffer_lines(buffer),
{
    buffer.into_iter().collect()
}

} // verus!
