//! Causal graphs and research records of agent sessions.

pub mod active_state;
pub mod aliases;
pub mod autoresearch;
pub mod commands;
pub mod construction;
pub mod digest;
pub mod event;
pub mod export;
pub mod inputs;
pub mod json;
pub mod observe;
pub mod observer_apply;
pub mod path;
pub mod projection;
pub mod record_observation;
pub mod refresh;
pub mod research_enable;
pub mod research_observer;
pub mod research_projection;
pub mod research_record;
pub mod research_state;
pub mod schema;
pub mod sdk;
pub mod slot_summary;
pub mod table;
pub mod text;
pub mod update;
pub mod view;
