//! The summary of a graph that stands in a context slot.

pub mod backbone;
pub mod budget;
pub mod grounded;
pub mod longest;
pub mod parts;
pub mod publication;
pub mod shown;
pub mod wording;
