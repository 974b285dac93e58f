//! Structural statistics over JSON values: which types each field takes,
//! an example of each, and the range of values seen, rendered as a tree.

pub mod text;
pub mod number;
pub mod stats;
pub mod merge;
pub mod counts;
pub mod values;
pub mod render;
pub mod laws;
