//! The graph of an accepted research record: questions are its roots, and every other entity
//! hangs below the one that its strongest relation names.

pub mod artifact;
pub mod drawn;
pub mod edges;
pub mod joined;
pub mod meaning;
pub mod placement;
pub mod presentation;
