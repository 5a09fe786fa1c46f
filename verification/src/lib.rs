//! Text-buffer and cursor-navigation core for a code/text editor widget.
//!
//! The library maintains an editable sequence of lines, each an ordered
//! sequence of Unicode grapheme clusters, together with a caret position in
//! logical (row, column) and visual (pixel x-offset) coordinates. Pixel
//! measurement is abstracted behind the `LayoutProvider` capability;
//! rendering, windowing and font rasterization are external collaborators
//! and are not part of this crate.

pub mod buffer;

pub mod cursor;

pub mod input;

pub mod layout;

pub mod line;

pub mod metrics;

pub mod segment;
