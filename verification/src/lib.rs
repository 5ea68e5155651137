//! A character-cell terminal for an electronic-paper panel.
//!
//! The crate holds the screen model (cursor, wrapping, backspace), the glyph
//! cache, the renderer that turns a glyph into pixel writes and a refresh
//! request, and the rule that ends a connection at the escape byte. It does
//! no input or output itself: every function maps plain values to plain
//! values, and the caller carries the pixels to the panel.

pub mod glyph;
pub mod render;
pub mod screen;
pub mod ingest;
