//! The observer of a research record: what it is told, and what becomes of its proposals.

pub mod apply;
pub mod brief;
pub mod input;
pub mod lines;
pub mod summary;
pub mod task;
