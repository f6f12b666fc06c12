//! The model of a terminal pager: text wrapped into display lines that fit
//! the screen, a scroll position that stays inside the text, and substring
//! search with highlighting.
//!
//! The crate neither reads nor writes a terminal. A caller hands it the text
//! and the terminal's events, and draws the frames it returns.

pub mod screen;
pub mod search;
pub mod session;
pub mod text;
pub mod width;
pub mod wrap;

pub use screen::{Frame, MoveUnit, Screen};
pub use search::Segment;
pub use session::{Command, Event, Key, Pager};
pub use wrap::LineBreaker;
