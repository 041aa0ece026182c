//! The planner of the next research objective: its brief, and what becomes of its report.

pub mod brief;
pub mod promises;
pub mod report;
