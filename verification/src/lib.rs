//! An adaptive terminal-dashboard layout library.
//!
//! Given a terminal viewport and the sizes of a fixed set of content panels,
//! the layout engine deterministically partitions the viewport into disjoint
//! regions, one per panel, honoring fixed, minimum, percentage and
//! content-driven size constraints and switching topology with the terminal's
//! orientation. A small state machine drives the render loop's lifecycle, and
//! helper routines build the text lines that fill the panels.

pub mod constraints;
pub mod engine;
pub mod geometry;
pub mod render;
pub mod split;
pub mod text;
