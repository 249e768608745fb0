//! A text-mode display driver for a fixed 80x25 character grid.
//!
//! The grid holds one cell per position: a displayable byte together
//! with a packed color attribute. A [`writer::Writer`] owns the grid,
//! keeps a cursor column on the bottom row, and renders a stream of
//! bytes into cells, wrapping lines and scrolling the whole grid up
//! when a row fills or a newline arrives.

pub mod color;
pub mod laws;
pub mod writer;

pub use color::Color;
pub use color::ColorCode;
pub use writer::ScreenChar;
pub use writer::Writer;
