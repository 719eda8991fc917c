//! A glyph outline editor core: skeleton contours with procedural contour
//! operations, a derived-outline build engine, and a selection-aware
//! structural edit engine (copy, paste, delete, simplify, reverse).

pub mod codec;
pub mod contour_operations;
pub mod editor;
pub mod geometry;
pub mod outline;
pub mod partition;
pub mod payload;
pub mod tools;
pub mod util;
