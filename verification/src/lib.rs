//! Extra widgets for terminal user interfaces: the logic of a list view whose
//! items span several rows each, may be divided by separator rows, and are
//! shown through a window that follows the selection.
//!
//! Everything in this crate is verified: each function states what it returns
//! and is proved to do so. Drawing into a screen buffer is left to the caller,
//! who gets the rows to draw as plain values.
//!
//! A list is drawn in three steps:
//!
//! 1. the items ([`ListItem`]) get their styles ([`Style`]), and the item
//!    that the state of the list ([`ListState`]) selects gets the style and
//!    the indicators of the selection;
//! 2. the items become display lines ([`DisplayLine`]), either one after the
//!    other ([`Basic`]) or with separator lines between them
//!    ([`Separated`], [`Separator`]);
//! 3. a window over the display lines picks the lines to draw: it follows the
//!    selection ([`selection_scroll`]) or keeps the selection on one row
//!    ([`fixed`]).
//!
//! [`SeparatedList`] holds the items and the options of a list and goes
//! through these steps. [`LineSetter`] places the window in another way, by
//! arithmetic on the positions of the items.
pub mod display_line;
pub mod line_buffer;
pub mod line_iters;
pub mod line_setter;
pub mod list_item;
pub mod list_state;
pub mod selection_span;
pub mod separated_list;
pub mod separator;
pub mod style;
pub mod text;
pub mod text_macros;
pub mod window_type;

pub use display_line::{DisplayLine, DisplayLineView, LineSource, VecSource};
pub use line_iters::{Basic, DisplayIter, ItemDisplay, Separated, ToLines};
pub use line_setter::{DisplayItem, LineSetter, ViewPort};
pub use list_item::{Indicator, LineIndicators, ListItem};
pub use list_state::{ListState, ListStateView};
pub use separated_list::{RowLayout, SeparatedList};
pub use separator::Separator;
pub use style::{Color, Style};
pub use text::{LineView, Span, SpanView, Spans, Text};
pub use text_macros::AddLines;
pub use window_type::{fixed, selection_scroll, SelState, SelectionState, Window, WindowType};
