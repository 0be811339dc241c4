//! A terminal text-editing engine: documents of tab-aware lines, cursor
//! motion, editing, incremental search, key decoding and screen drawing.

pub mod line;
pub mod keys;
pub mod text;
pub mod tab;
pub mod editor;
pub mod screen;
pub mod terminal;
