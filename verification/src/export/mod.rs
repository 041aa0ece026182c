//! Views of a causal graph for people.

pub mod count;
pub mod drawable;
pub mod escape;
pub mod faithful;
pub mod format;
pub mod graph;
pub mod html;
pub mod listing;
pub mod seated;
pub mod source;
pub mod svg;
pub mod text;
