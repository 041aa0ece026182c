//! Graphs projected from the events of a session.

pub mod drawn;
pub mod fields;
pub mod forest;
pub mod hints;
pub mod labels;
pub mod lineage;
pub mod linked;
pub mod records;
pub mod revision;
pub mod semantic;
pub mod sources;
pub mod structure;
pub mod told;
