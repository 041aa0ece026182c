//! Names of schemas, media types and commands.

use vstd::prelude::*;

verus! {

pub const EXTENSION_ID: &'static str = "causal-dag";

pub const SCHEMA_NAME: &'static str = "euler.causal_dag.v3";

pub const HINTS_SCHEMA_NAME: &'static str = "euler.causal_dag.hints.v2";

pub const MEDIA_TYPE_JSON: &'static str = "application/vnd.euler.causal-dag.v3+json";

pub const PRIOR_MEDIA_TYPE_JSON: &'static str = "application/vnd.euler.causal-dag.v2+json";

pub const LEGACY_MEDIA_TYPE_JSON: &'static str = "application/vnd.euler.causal-dag.v1+json";

pub const RESEARCH_RECORD_SCHEMA: &'static str = "euler.research_record.v1";

pub const RESEARCH_RECORD_MEDIA_TYPE: &'static str = "application/vnd.euler.research-record.v1+json";

pub const RESEARCH_PROPOSALS_SCHEMA: &'static str = "euler.research_record.proposals.v1";

pub const RESEARCH_DAG_SCHEMA: &'static str = "euler.causal_dag.v4";

pub const RESEARCH_DAG_MEDIA_TYPE: &'static str = "application/vnd.euler.causal-dag.v4+json";

pub const DISPLAY_NAME: &'static str = "Causal DAG";

pub const UPDATE_COMMAND_NAME: &'static str = "update";

pub const CATCH_UP_COMMAND_NAME: &'static str = "catch-up";

pub const OBSERVE_COMMAND_NAME: &'static str = "observe";

pub const EXPORT_COMMAND_NAME: &'static str = "export";

pub const VIEW_COMMAND_NAME: &'static str = "view";

pub const REFRESH_COMMAND_NAME: &'static str = "refresh";

pub const RESEARCH_ENABLE_COMMAND_NAME: &'static str = "research-enable";

pub const OBSERVER_BRIEF_COMMAND_NAME: &'static str = "observer-brief";

pub const OBSERVER_APPLY_COMMAND_NAME: &'static str = "observer-apply";

pub const RECORD_OBSERVATION_COMMAND_NAME: &'static str = "record-observation";

pub const UPDATE_CHECKPOINT_NAME: &'static str = "main";

} // verus!
