//! The durable record of research: what happened, what was proposed, and what was accepted.

pub mod append;
pub mod evidence;
pub mod forms;
pub mod ledger;
pub mod queries;
pub mod record;
pub mod standards;
pub mod types;
