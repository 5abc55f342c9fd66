//! Pictures of text on a fixed grid of character cells.
//!
//! The library lays out highlighted source code or a table of cells for a
//! fixed-width font, computes the exact size of the picture, and paints
//! what is flat: the background, the header and row backgrounds, and the
//! grid lines. The texts come out as a list of runs, each with its place
//! and colour, for a glyph rasteriser to draw on the finished canvas.
//!
//! Widths are kept as exact fractions of a pixel, so that the geometry is a
//! function of the input alone. The executable functions are verified
//! against specifications over sequences of characters and integers; what
//! outside crates do for them (the pixel buffer, the highlighter, the
//! markdown renderer) stands behind small wrappers whose contracts are
//! believed, each with a comment that says what it claims.

pub mod browser;
pub mod canvas;
pub mod color;
pub mod draw;
pub mod error;
pub mod grid;
pub mod highlight;
pub mod lines;
pub mod metrics;
pub mod page;
pub mod render;
pub mod table;
pub mod text;
pub mod theme;
pub mod writing;
