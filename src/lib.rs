//! A graph drawing: vertices placed on a canvas, undirected edges between
//! them, the tools that edit the drawing from pointer events, a count of the
//! crossings between edges, and an export of the drawing as a TikZ picture.

pub mod crossings;
pub mod geometry;
pub mod graph;
pub mod interaction;
pub mod tikz;
