//! The record-observation command: an audit of an artifact that stands in the page.

use crate::event::{Event, EventEnvelope, EventKind};
use crate::inputs::{
    filled_field, limit_field, optional_non_empty_string, optional_string, parse_limit,
    parse_positive_usize, positive_field, reject_unknown_fields, text_field, unknown_field,
};
use crate::json::{
    find_text, json_text, optional_text, text_member, write_json, Json, Members, Numeral,
    NumberModel, Tree,
};
use crate::projection::sources::{event_index, find_event};
use crate::schema::{EXTENSION_ID, MEDIA_TYPE_JSON, RECORD_OBSERVATION_COMMAND_NAME, SCHEMA_NAME};
use crate::sdk::{
    answers, fault, input_error, scan_or_default, Capability, ExtensionError, HostAgentBudget,
    HostAgentRecord, HostAgentTask, Page, ProvenancePage, ProvenanceQuery,
};
use crate::table::{find, member};
use crate::text::{
    byte_count, byte_len, chars_of, control, decimal, decimal_text, is_control, join2, join3, same,
};
use vstd::prelude::*;

verus! {

pub const OBSERVATION_RECORD_SCHEMA_NAME: &'static str = "euler.causal_dag.observation_record.v1";

pub const OBSERVER_TASK: &'static str = "record completed post-hoc causal DAG observation";

pub const OBSERVER_PERSONA: &'static str = "causal-dag-observer";

pub const DEFAULT_OBSERVER_PROVIDER: &'static str = "manual";

pub const DEFAULT_OBSERVER_MODEL: &'static str = "provided-hints";

/// The most bytes of the text of an audit.
pub const OBSERVER_RESULT_OUTPUT_MAX_BYTES: usize = 2048;

/// The most bytes of the name of a provider or a model.
pub const OBSERVER_LABEL_MAX_BYTES: usize = 128;

/// The most bytes of the id of an artifact.
pub const ARTIFACT_EVENT_ID_MAX_BYTES: usize = 256;

/// Whether a text holds a control character.
pub open spec fn has_control(s: Seq<char>) -> bool {
    exists|i: int| 0 <= i < s.len() && is_control(#[trigger] s[i])
}

fn holds_control(s: &str) -> (r: bool)
    ensures
        r == has_control(s@),
{
    let v = chars_of(s);
    let mut i: usize = 0;
    while i < v.len()
        invariant
            v@ == s@,
            i <= v@.len(),
            forall|j: int| 0 <= j < i ==> !is_control(#[trigger] v@[j]),
        decreases v@.len() - i,
    {
        if control(v[i]) {
            return true;
        }
        i += 1;
    }
    false
}

/// A printable text of bounded length.
pub open spec fn label_of(value: Tree, field: Seq<char>, max: nat) -> Result<Seq<char>, Seq<char>> {
    match value {
        Tree::Text(text) => if text.len() == 0 {
            Err(field + " must not be empty"@)
        } else if byte_len(text) > max {
            Err(field + " must be at most "@ + decimal(max) + " bytes"@)
        } else if has_control(text) {
            Err(field + " must not contain control characters"@)
        } else {
            Ok(text)
        },
        _ => Err(field + " must be a string"@),
    }
}

fn bounded_string_value(value: &Json, field: &str, max_bytes: usize) -> (r: Result<
    String,
    ExtensionError,
>)
    ensures
        answers(r, label_of(value@, field@, max_bytes as nat)),
{
    let text = match value {
        Json::Text(text) => text,
        _ => return Err(fault(join2(field, " must be a string"))),
    };
    if text.as_str().is_empty() {
        return Err(fault(join2(field, " must not be empty")));
    }
    if byte_count(text) > max_bytes {
        let mut message = join2(field, " must be at most ");
        message.push_str(&decimal_text(max_bytes as u64));
        message.push_str(" bytes");
        return Err(fault(message));
    }
    if holds_control(text) {
        return Err(fault(join2(field, " must not contain control characters")));
    }
    Ok(text.clone())
}

/// A printable text of bounded length that is required.
pub open spec fn required_label(o: Seq<(Seq<char>, Tree)>, field: Seq<char>, max: nat) -> Result<
    Seq<char>,
    Seq<char>,
> {
    match member(o, field) {
        None => Err(field + " is required"@),
        Some(value) => label_of(value, field, max),
    }
}

fn required_bounded_string(o: &Members, field: &str, max_bytes: usize) -> (r: Result<
    String,
    ExtensionError,
>)
    ensures
        answers(r, required_label(o.deep_view(), field@, max_bytes as nat)),
{
    match find(o, field) {
        None => Err(fault(join2(field, " is required"))),
        Some(value) => bounded_string_value(value, field, max_bytes),
    }
}

/// A printable text of bounded length, or what stands for it.
pub open spec fn label_or(
    o: Seq<(Seq<char>, Tree)>,
    field: Seq<char>,
    default: Seq<char>,
) -> Result<Seq<char>, Seq<char>> {
    match member(o, field) {
        None => Ok(default),
        Some(Tree::Null) => Ok(default),
        Some(value) => label_of(value, field, OBSERVER_LABEL_MAX_BYTES as nat),
    }
}

fn optional_label(o: &Members, field: &str, default: &str) -> (r: Result<String, ExtensionError>)
    ensures
        answers(r, label_or(o.deep_view(), field@, default@)),
{
    match find(o, field) {
        None => Ok(default.to_owned()),
        Some(Json::Null) => Ok(default.to_owned()),
        Some(value) => bounded_string_value(value, field, OBSERVER_LABEL_MAX_BYTES),
    }
}

/// Who observed.
#[derive(Debug, PartialEq, Eq)]
pub struct ObserverRecordInput {
    pub provider: String,
    pub model: String,
}

impl DeepView for ObserverRecordInput {
    type V = (Seq<char>, Seq<char>);

    open spec fn deep_view(&self) -> (Seq<char>, Seq<char>) {
        (self.provider@, self.model@)
    }
}

/// What is said of the first field, from position `i` on, that an observer does not have.
pub open spec fn unknown_observer_field(o: Seq<(Seq<char>, Tree)>, i: nat) -> Option<Seq<char>>
    decreases o.len() - i,
{
    if i >= o.len() {
        None
    } else if o[i as int].0 != "provider"@ && o[i as int].0 != "model"@ {
        Some("unknown observer field `"@ + o[i as int].0 + "`"@)
    } else {
        unknown_observer_field(o, i + 1)
    }
}

/// Who observed where nothing is said.
pub open spec fn default_observer() -> (Seq<char>, Seq<char>) {
    (DEFAULT_OBSERVER_PROVIDER@, DEFAULT_OBSERVER_MODEL@)
}

/// Who observed.
pub open spec fn observer_of(value: Option<Tree>) -> Result<(Seq<char>, Seq<char>), Seq<char>> {
    match value {
        None => Ok(default_observer()),
        Some(Tree::Null) => Ok(default_observer()),
        Some(Tree::Object(o)) => match unknown_observer_field(o, 0) {
            Some(e) => Err(e),
            None => match label_or(o, "provider"@, DEFAULT_OBSERVER_PROVIDER@) {
                Err(e) => Err(e),
                Ok(provider) => match label_or(o, "model"@, DEFAULT_OBSERVER_MODEL@) {
                    Err(e) => Err(e),
                    Ok(model) => Ok((provider, model)),
                },
            },
        },
        Some(_) => Err("causal-dag record-observation observer must be a JSON object"@),
    }
}

impl Default for ObserverRecordInput {
    fn default() -> (r: Self)
        ensures
            r.deep_view() == default_observer(),
    {
        ObserverRecordInput {
            provider: DEFAULT_OBSERVER_PROVIDER.to_owned(),
            model: DEFAULT_OBSERVER_MODEL.to_owned(),
        }
    }
}

fn check_observer_fields(o: &Members) -> (r: Result<(), ExtensionError>)
    ensures
        crate::sdk::passes(r, unknown_observer_field(o.deep_view(), 0)),
{
    let mut i: usize = 0;
    while i < o.len()
        invariant
            i <= o@.len(),
            unknown_observer_field(o.deep_view(), 0) == unknown_observer_field(
                o.deep_view(),
                i as nat,
            ),
        decreases o@.len() - i,
    {
        assert(o.deep_view()[i as int].0 == o@[i as int].0@);
        if !same(&o[i].0, "provider") && !same(&o[i].0, "model") {
            return Err(fault(join3("unknown observer field `", &o[i].0, "`")));
        }
        i += 1;
    }
    Ok(())
}

impl ObserverRecordInput {
    pub fn parse(value: Option<&Json>) -> (r: Result<Self, ExtensionError>)
        ensures
            answers(r, observer_of(value.deep_view())),
    {
        broadcast use crate::json::object_model;

        let o = match value {
            None => return Ok(Self::default()),
            Some(Json::Null) => return Ok(Self::default()),
            Some(Json::Object(o)) => o,
            Some(_) => {
                return Err(
                    input_error("causal-dag record-observation observer must be a JSON object"),
                );
            },
        };
        check_observer_fields(o)?;
        let provider = optional_label(o, "provider", DEFAULT_OBSERVER_PROVIDER)?;
        let model = optional_label(o, "model", DEFAULT_OBSERVER_MODEL)?;
        Ok(ObserverRecordInput { provider, model })
    }

    /// The task that is recorded as done.
    pub fn task(&self) -> (r: HostAgentTask)
        ensures
            r.task@ == OBSERVER_TASK@,
            r.persona@ == OBSERVER_PERSONA@,
            r.provider@ == self.provider@,
            r.model@ == self.model@,
            r.capabilities@ == seq![Capability::ProvenanceRead],
            r.budget.max_turns == Some(1u32),
            r.budget.max_tool_calls == Some(1u32),
            r.budget.max_tokens == Some(2048u64),
            r.result_schema.deep_view() == Some(result_schema()),
    {
        let capabilities = vec![Capability::ProvenanceRead];
        assert(capabilities@ =~= seq![Capability::ProvenanceRead]);
        HostAgentTask {
            task: OBSERVER_TASK.to_owned(),
            persona: OBSERVER_PERSONA.to_owned(),
            provider: self.provider.clone(),
            model: self.model.clone(),
            capabilities,
            budget: HostAgentBudget {
                max_turns: Some(1),
                max_tool_calls: Some(1),
                max_tokens: Some(2048),
            },
            result_schema: Some(observation_record_result_schema()),
        }
    }
}

/// What the record-observation command is asked for.
#[derive(Debug, PartialEq, Eq)]
pub struct RecordObservationInput {
    pub artifact_event_id: String,
    pub limit: usize,
    pub scan_limit: Option<usize>,
    pub after_event_id: Option<String>,
    pub session_id: Option<String>,
    pub observer: ObserverRecordInput,
}

/// What a [`RecordObservationInput`] holds.
#[verifier::ext_equal]
pub struct Audit {
    pub artifact_event_id: Seq<char>,
    pub limit: usize,
    pub scan_limit: Option<usize>,
    pub after_event_id: Option<Seq<char>>,
    pub session_id: Option<Seq<char>>,
    pub observer: (Seq<char>, Seq<char>),
}

impl DeepView for RecordObservationInput {
    type V = Audit;

    open spec fn deep_view(&self) -> Audit {
        Audit {
            artifact_event_id: self.artifact_event_id@,
            limit: self.limit,
            scan_limit: self.scan_limit,
            after_event_id: self.after_event_id.deep_view(),
            session_id: self.session_id.deep_view(),
            observer: self.observer.deep_view(),
        }
    }
}

/// The fields that an audit may name.
pub open spec fn audit_fields() -> Seq<Seq<char>> {
    seq![
        "limit"@,
        "scan_limit"@,
        "after_event_id"@,
        "session_id"@,
        "artifact_event_id"@,
        "observer"@,
    ]
}

/// An audit by its fields.
pub open spec fn audit_of_fields(o: Seq<(Seq<char>, Tree)>) -> Result<Audit, Seq<char>> {
    match unknown_field(o, audit_fields(), 0) {
        Some(e) => Err(e),
        None => match required_label(
            o,
            "artifact_event_id"@,
            ARTIFACT_EVENT_ID_MAX_BYTES as nat,
        ) {
            Err(e) => Err(e),
            Ok(artifact_event_id) => match limit_field(o) {
                Err(e) => Err(e),
                Ok(limit) => match positive_field(o, "scan_limit"@, None, None) {
                    Err(e) => Err(e),
                    Ok(scan_limit) => match text_field(o, "after_event_id"@) {
                        Err(e) => Err(e),
                        Ok(after_event_id) => match filled_field(o, "session_id"@) {
                            Err(e) => Err(e),
                            Ok(session_id) => match observer_of(member(o, "observer"@)) {
                                Err(e) => Err(e),
                                Ok(observer) => Ok(
                                    Audit {
                                        artifact_event_id,
                                        limit,
                                        scan_limit,
                                        after_event_id,
                                        session_id,
                                        observer,
                                    },
                                ),
                            },
                        },
                    },
                },
            },
        },
    }
}

/// The input of the record-observation command.
pub open spec fn audit_of(value: Tree) -> Result<Audit, Seq<char>> {
    match value {
        Tree::Object(o) => audit_of_fields(o),
        _ => Err("causal-dag record-observation input must be a JSON object"@),
    }
}

impl RecordObservationInput {
    pub fn parse(value: &Json) -> (r: Result<Self, ExtensionError>)
        ensures
            answers(r, audit_of(value@)),
    {
        broadcast use crate::json::object_model;

        let o = match value {
            Json::Object(o) => o,
            _ => {
                return Err(
                    input_error("causal-dag record-observation input must be a JSON object"),
                );
            },
        };
        let allowed = vec![
            "limit",
            "scan_limit",
            "after_event_id",
            "session_id",
            "artifact_event_id",
            "observer",
        ];
        assert(allowed.deep_view() =~= audit_fields());
        reject_unknown_fields(o, &allowed)?;
        let artifact_event_id = required_bounded_string(
            o,
            "artifact_event_id",
            ARTIFACT_EVENT_ID_MAX_BYTES,
        )?;
        let limit: usize = parse_limit(o)?;
        let scan_limit = parse_positive_usize(o, "scan_limit", None, None)?;
        let after_event_id = optional_string(o, "after_event_id")?;
        let session_id = optional_non_empty_string(o, "session_id")?;
        let observer = ObserverRecordInput::parse(find(o, "observer"))?;
        Ok(
            RecordObservationInput {
                artifact_event_id,
                limit,
                scan_limit,
                after_event_id,
                session_id,
                observer,
            },
        )
    }

    /// The query for the page of the audit.
    pub fn query(&self) -> (r: ProvenanceQuery)
        ensures
            r.asks(
                self.deep_view().after_event_id,
                self.limit,
                scan_or_default(self.scan_limit),
            ),
    {
        ProvenanceQuery::page(self.limit, self.scan_limit, &self.after_event_id)
    }
}

/// An artifact that was found in a page, with what its event says of it.
#[derive(Debug, PartialEq, Eq)]
pub struct VerifiedGraphArtifact {
    pub event_id: String,
    pub sha256: String,
    pub byte_len: u64,
    pub source_event_count: usize,
    pub node_count: u64,
    pub edge_count: u64,
    pub degraded: bool,
    pub artifact_truncated: bool,
    pub watermark_event_id: Option<String>,
    pub query_watermark_event_id: Option<String>,
}

/// What a [`VerifiedGraphArtifact`] holds.
#[verifier::ext_equal]
pub struct Verified {
    pub event_id: Seq<char>,
    pub sha256: Seq<char>,
    pub byte_len: u64,
    pub source_event_count: nat,
    pub node_count: u64,
    pub edge_count: u64,
    pub degraded: bool,
    pub artifact_truncated: bool,
    pub watermark_event_id: Option<Seq<char>>,
    pub query_watermark_event_id: Option<Seq<char>>,
}

impl DeepView for VerifiedGraphArtifact {
    type V = Verified;

    open spec fn deep_view(&self) -> Verified {
        Verified {
            event_id: self.event_id@,
            sha256: self.sha256@,
            byte_len: self.byte_len,
            source_event_count: self.source_event_count as nat,
            node_count: self.node_count,
            edge_count: self.edge_count,
            degraded: self.degraded,
            artifact_truncated: self.artifact_truncated,
            watermark_event_id: self.watermark_event_id.deep_view(),
            query_watermark_event_id: self.query_watermark_event_id.deep_view(),
        }
    }
}

/// What is said of an artifact event that lacks a field.
pub open spec fn malformed(field: Seq<char>) -> Seq<char> {
    "malformed extension.artifact event: "@ + field
}

fn malformed_event(field: &str) -> (r: ExtensionError)
    ensures
        r is Message,
        r->Message_0@ == malformed(field@),
{
    fault(join2("malformed extension.artifact event: ", field))
}

/// What is said of the metadata of an artifact that lack a field.
pub open spec fn malformed_metadata(field: Seq<char>) -> Seq<char> {
    "malformed extension.artifact metadata: "@ + field
}

fn malformed_metadata_error(field: &str) -> (r: ExtensionError)
    ensures
        r is Message,
        r->Message_0@ == malformed_metadata(field@),
{
    fault(join2("malformed extension.artifact metadata: ", field))
}

/// A text of the payload of an artifact event.
pub open spec fn payload_text(event: Event, field: Seq<char>) -> Result<Seq<char>, Seq<char>> {
    match text_member(event.payload, field) {
        Some(text) => Ok(text),
        None => Err(malformed(field)),
    }
}

fn required_payload_text(event: &EventEnvelope, field: &str) -> (r: Result<
    String,
    ExtensionError,
>)
    ensures
        answers(r, payload_text(event@, field@)),
{
    match find_text(&event.payload, field) {
        Some(text) => Ok(text.clone()),
        None => Err(malformed_event(field)),
    }
}

/// A count of the metadata of an artifact.
pub open spec fn metadata_count(o: Seq<(Seq<char>, Tree)>, field: Seq<char>) -> Result<
    u64,
    Seq<char>,
> {
    match member(o, field) {
        Some(value) => match value.count() {
            Some(n) => Ok(n),
            None => Err(malformed_metadata(field)),
        },
        None => Err(malformed_metadata(field)),
    }
}

fn required_metadata_u64(o: &Members, field: &str) -> (r: Result<u64, ExtensionError>)
    ensures
        answers(r, metadata_count(o.deep_view(), field@)),
{
    match find(o, field) {
        Some(value) => match value.as_count() {
            Some(n) => Ok(n),
            None => Err(malformed_metadata_error(field)),
        },
        None => Err(malformed_metadata_error(field)),
    }
}

/// A flag of the metadata of an artifact.
pub open spec fn metadata_flag(o: Seq<(Seq<char>, Tree)>, field: Seq<char>) -> Result<
    bool,
    Seq<char>,
> {
    match member(o, field) {
        Some(Tree::Bool(flag)) => Ok(flag),
        _ => Err(malformed_metadata(field)),
    }
}

fn required_metadata_bool(o: &Members, field: &str) -> (r: Result<bool, ExtensionError>)
    ensures
        answers(r, metadata_flag(o.deep_view(), field@)),
{
    match find(o, field) {
        Some(Json::Bool(flag)) => Ok(*flag),
        _ => Err(malformed_metadata_error(field)),
    }
}

/// A text of the metadata of an artifact, or none.
pub open spec fn metadata_text(o: Seq<(Seq<char>, Tree)>, field: Seq<char>) -> Result<
    Option<Seq<char>>,
    Seq<char>,
> {
    match member(o, field) {
        None => Ok(None),
        Some(Tree::Null) => Ok(None),
        Some(Tree::Text(text)) => Ok(Some(text)),
        Some(_) => Err(malformed_metadata(field)),
    }
}

fn optional_metadata_string(o: &Members, field: &str) -> (r: Result<
    Option<String>,
    ExtensionError,
>)
    ensures
        answers(r, metadata_text(o.deep_view(), field@)),
{
    match find(o, field) {
        None => Ok(None),
        Some(Json::Null) => Ok(None),
        Some(Json::Text(text)) => Ok(Some(text.clone())),
        Some(_) => Err(malformed_metadata_error(field)),
    }
}

/// What the metadata of an artifact say, with what its event says.
pub open spec fn verified_metadata(
    o: Seq<(Seq<char>, Tree)>,
    event_id: Seq<char>,
    sha256: Seq<char>,
    byte_len: u64,
    sources: nat,
) -> Result<Verified, Seq<char>> {
    match metadata_count(o, "node_count"@) {
        Err(e) => Err(e),
        Ok(node_count) => match metadata_count(o, "edge_count"@) {
            Err(e) => Err(e),
            Ok(edge_count) => match metadata_flag(o, "degraded"@) {
                Err(e) => Err(e),
                Ok(degraded) => match metadata_flag(o, "truncated"@) {
                    Err(e) => Err(e),
                    Ok(artifact_truncated) => match metadata_text(o, "watermark_event_id"@) {
                        Err(e) => Err(e),
                        Ok(watermark_event_id) => match metadata_text(
                            o,
                            "query_watermark_event_id"@,
                        ) {
                            Err(e) => Err(e),
                            Ok(query_watermark_event_id) => Ok(
                                Verified {
                                    event_id,
                                    sha256,
                                    byte_len,
                                    source_event_count: sources,
                                    node_count,
                                    edge_count,
                                    degraded,
                                    artifact_truncated,
                                    watermark_event_id,
                                    query_watermark_event_id,
                                },
                            ),
                        },
                    },
                },
            },
        },
    }
}

/// What an artifact event with metadata of the right schema says.
pub open spec fn verified_payload(event: Event, metadata: Seq<(Seq<char>, Tree)>) -> Result<
    Verified,
    Seq<char>,
> {
    match payload_text(event, "sha256"@) {
        Err(e) => Err(e),
        Ok(sha256) => match member(event.payload, "byte_len"@) {
            None => Err(malformed("byte_len"@)),
            Some(value) => match value.count() {
                None => Err(malformed("byte_len"@)),
                Some(byte_len) => match member(event.payload, "source_event_ids"@) {
                    Some(Tree::List(sources)) => verified_metadata(
                        metadata,
                        event.id,
                        sha256,
                        byte_len,
                        sources.len(),
                    ),
                    _ => Err(malformed("source_event_ids"@)),
                },
            },
        },
    }
}

/// What an event says of the artifact that it is to be.
pub open spec fn verified_event(event: Event, session: Option<Seq<char>>) -> Result<
    Verified,
    Seq<char>,
> {
    if session is Some && session != Some(event.session) {
        Err("causal-dag record-observation artifact_event_id belongs to a different session"@)
    } else if event.kind != EventKind::EXTENSION_ARTIFACT@ {
        Err("causal-dag record-observation target event is not an extension.artifact"@)
    } else {
        match payload_text(event, "extension_id"@) {
            Err(e) => Err(e),
            Ok(extension_id) => if extension_id != EXTENSION_ID@ {
                Err(
                    "causal-dag record-observation target artifact is not owned by causal-dag"@,
                )
            } else {
                match payload_text(event, "media_type"@) {
                    Err(e) => Err(e),
                    Ok(media_type) => if media_type != MEDIA_TYPE_JSON@ {
                        Err(
                            "causal-dag record-observation target artifact is not a Causal DAG graph artifact"@,
                        )
                    } else {
                        match member(event.payload, "metadata"@) {
                            Some(Tree::Object(metadata)) => match text_member(
                                metadata,
                                "schema"@,
                            ) {
                                None => Err(malformed_metadata("schema"@)),
                                Some(schema) => if schema != SCHEMA_NAME@ {
                                    Err(
                                        "causal-dag record-observation target artifact metadata has unexpected schema"@,
                                    )
                                } else {
                                    verified_payload(event, metadata)
                                },
                            },
                            _ => Err(malformed("metadata"@)),
                        }
                    },
                }
            },
        }
    }
}

/// The artifact that an audit is about.
pub open spec fn verified(events: Seq<Event>, id: Seq<char>, session: Option<Seq<char>>) -> Result<
    Verified,
    Seq<char>,
> {
    match event_index(events, id, 0) {
        None => Err(
            "causal-dag record-observation artifact_event_id not found in bounded provenance page"@,
        ),
        Some(k) => verified_event(events[k], session),
    }
}

fn verify_metadata(
    o: &Members,
    event_id: &str,
    sha256: String,
    byte_len: u64,
    source_event_count: usize,
) -> (r: Result<VerifiedGraphArtifact, ExtensionError>)
    ensures
        answers(
            r,
            verified_metadata(
                o.deep_view(),
                event_id@,
                sha256@,
                byte_len,
                source_event_count as nat,
            ),
        ),
{
    let node_count: u64 = required_metadata_u64(o, "node_count")?;
    let edge_count: u64 = required_metadata_u64(o, "edge_count")?;
    let degraded = required_metadata_bool(o, "degraded")?;
    let artifact_truncated = required_metadata_bool(o, "truncated")?;
    let watermark_event_id = optional_metadata_string(o, "watermark_event_id")?;
    let query_watermark_event_id = optional_metadata_string(o, "query_watermark_event_id")?;
    Ok(
        VerifiedGraphArtifact {
            event_id: event_id.to_owned(),
            sha256,
            byte_len,
            source_event_count,
            node_count,
            edge_count,
            degraded,
            artifact_truncated,
            watermark_event_id,
            query_watermark_event_id,
        },
    )
}

fn verify_payload(event: &EventEnvelope, metadata: &Members) -> (r: Result<
    VerifiedGraphArtifact,
    ExtensionError,
>)
    ensures
        answers(r, verified_payload(event@, metadata.deep_view())),
{
    broadcast use crate::json::list_model;

    let sha256 = required_payload_text(event, "sha256")?;
    let byte_len: u64 = match find(&event.payload, "byte_len") {
        Some(value) => match value.as_count() {
            Some(n) => n,
            None => return Err(malformed_event("byte_len")),
        },
        None => return Err(malformed_event("byte_len")),
    };
    let sources: usize = match find(&event.payload, "source_event_ids") {
        Some(Json::List(list)) => {
            assert(list.deep_view().len() == list@.len());
            list.len()
        },
        _ => return Err(malformed_event("source_event_ids")),
    };
    verify_metadata(metadata, &event.id, sha256, byte_len, sources)
}

impl VerifiedGraphArtifact {
    pub fn find(page: &ProvenancePage, artifact_event_id: &str, session_id: &Option<String>) -> (r:
        Result<Self, ExtensionError>)
        ensures
            answers(
                r,
                verified(page.events.deep_view(), artifact_event_id@, session_id.deep_view()),
            ),
    {
        broadcast use crate::json::object_model;

        let event = match find_event(&page.events, artifact_event_id) {
            Some(k) => {
                assert(page.events.deep_view()[k as int] == page.events@[k as int]@);
                &page.events[k]
            },
            None => {
                return Err(
                    input_error(
                        "causal-dag record-observation artifact_event_id not found in bounded provenance page",
                    ),
                );
            },
        };
        if let Some(session_id) = session_id {
            if !same(&event.session, session_id) {
                return Err(
                    input_error(
                        "causal-dag record-observation artifact_event_id belongs to a different session",
                    ),
                );
            }
        }
        if !same(event.kind.as_str(), EventKind::EXTENSION_ARTIFACT) {
            return Err(
                input_error(
                    "causal-dag record-observation target event is not an extension.artifact",
                ),
            );
        }
        let extension_id = required_payload_text(event, "extension_id")?;
        if !same(&extension_id, EXTENSION_ID) {
            return Err(
                input_error(
                    "causal-dag record-observation target artifact is not owned by causal-dag",
                ),
            );
        }
        let media_type = required_payload_text(event, "media_type")?;
        if !same(&media_type, MEDIA_TYPE_JSON) {
            return Err(
                input_error(
                    "causal-dag record-observation target artifact is not a Causal DAG graph artifact",
                ),
            );
        }
        let metadata = match find(&event.payload, "metadata") {
            Some(Json::Object(metadata)) => metadata,
            _ => return Err(malformed_event("metadata")),
        };
        match find_text(metadata, "schema") {
            None => return Err(malformed_metadata_error("schema")),
            Some(schema) => {
                if !same(schema, SCHEMA_NAME) {
                    return Err(
                        input_error(
                            "causal-dag record-observation target artifact metadata has unexpected schema",
                        ),
                    );
                }
            },
        }
        verify_payload(event, metadata)
    }
}

/// The audit of an artifact.
pub open spec fn audit_tree(v: Verified, page: Page) -> Tree {
    Tree::Object(
        seq![
            ("artifact_byte_len"@, Tree::Number(NumberModel::Positive(v.byte_len))),
            ("artifact_event_id"@, Tree::Text(v.event_id)),
            ("artifact_sha256"@, Tree::Text(v.sha256)),
            ("artifact_truncated"@, Tree::Bool(v.artifact_truncated)),
            ("command"@, Tree::Text(RECORD_OBSERVATION_COMMAND_NAME@)),
            ("degraded"@, Tree::Bool(v.degraded)),
            ("edge_count"@, Tree::Number(NumberModel::Positive(v.edge_count))),
            ("node_count"@, Tree::Number(NumberModel::Positive(v.node_count))),
            ("post_hoc"@, Tree::Bool(true)),
            ("query_watermark_event_id"@, optional_text(v.query_watermark_event_id)),
            ("record_kind"@, Tree::Text("post_hoc_observer_audit"@)),
            ("schema"@, Tree::Text(OBSERVATION_RECORD_SCHEMA_NAME@)),
            ("source_event_count"@, crate::json::counted(v.source_event_count)),
            ("verification_truncated"@, Tree::Bool(page.truncated)),
            ("verification_watermark_event_id"@, optional_text(page.watermark_event_id)),
            ("watermark_event_id"@, optional_text(v.watermark_event_id)),
        ],
    )
}

impl VerifiedGraphArtifact {
    /// The audit of the artifact.
    pub fn summary(&self, page: &ProvenancePage) -> (r: Json)
        ensures
            r@ == audit_tree(self.deep_view(), page.deep_view()),
    {
        broadcast use crate::json::object_model;

        let rows = vec![
            ("artifact_byte_len".to_owned(), Json::Number(Numeral::Positive(self.byte_len))),
            ("artifact_event_id".to_owned(), Json::of_text(&self.event_id)),
            ("artifact_sha256".to_owned(), Json::of_text(&self.sha256)),
            ("artifact_truncated".to_owned(), Json::Bool(self.artifact_truncated)),
            ("command".to_owned(), Json::of_text(RECORD_OBSERVATION_COMMAND_NAME)),
            ("degraded".to_owned(), Json::Bool(self.degraded)),
            ("edge_count".to_owned(), Json::Number(Numeral::Positive(self.edge_count))),
            ("node_count".to_owned(), Json::Number(Numeral::Positive(self.node_count))),
            ("post_hoc".to_owned(), Json::Bool(true)),
            (
                "query_watermark_event_id".to_owned(),
                Json::of_optional_text(&self.query_watermark_event_id),
            ),
            ("record_kind".to_owned(), Json::of_text("post_hoc_observer_audit")),
            ("schema".to_owned(), Json::of_text(OBSERVATION_RECORD_SCHEMA_NAME)),
            ("source_event_count".to_owned(), Json::of_count(self.source_event_count)),
            ("verification_truncated".to_owned(), Json::Bool(page.truncated)),
            (
                "verification_watermark_event_id".to_owned(),
                Json::of_optional_text(&page.watermark_event_id),
            ),
            (
                "watermark_event_id".to_owned(),
                Json::of_optional_text(&self.watermark_event_id),
            ),
        ];
        assert(rows.deep_view() =~= audit_tree(self.deep_view(), page.deep_view())->Object_0);
        Json::Object(rows)
    }
}

/// The text of an audit, once it is written: it must not be too long.
pub open spec fn bounded_output(text: Seq<char>) -> Result<Seq<char>, Seq<char>> {
    if byte_len(text) > OBSERVER_RESULT_OUTPUT_MAX_BYTES {
        Err("causal-dag record-observation result exceeds 2048 bytes"@)
    } else {
        Ok(text)
    }
}

/// The text of an audit.
pub fn observation_result_output(summary: &Json) -> (r: Result<String, ExtensionError>)
    ensures
        answers(r, bounded_output(json_text(summary@))),
{
    bound_output(write_json(summary))
}

/// The text, unless it is too long.
pub fn bound_output(text: String) -> (r: Result<String, ExtensionError>)
    ensures
        answers(r, bounded_output(text@)),
{
    if byte_count(&text) > OBSERVER_RESULT_OUTPUT_MAX_BYTES {
        return Err(input_error("causal-dag record-observation result exceeds 2048 bytes"));
    }
    Ok(text)
}

/// What the record-observation command says.
pub open spec fn recorded_tree(
    summary: Tree,
    child: Seq<char>,
    spawn: Seq<char>,
    result: Seq<char>,
) -> Tree {
    Tree::Object(
        seq![
            ("child_agent_id"@, Tree::Text(child)),
            ("command"@, Tree::Text(RECORD_OBSERVATION_COMMAND_NAME@)),
            ("observer_result"@, summary),
            ("result_event_id"@, Tree::Text(result)),
            ("schema"@, Tree::Text(OBSERVATION_RECORD_SCHEMA_NAME@)),
            ("spawn_event_id"@, Tree::Text(spawn)),
        ],
    )
}

pub fn record_observation_output(summary: &Json, record: &HostAgentRecord) -> (r: Json)
    ensures
        r@ == recorded_tree(
            summary@,
            record.child_agent_id@,
            record.spawn_event_id@,
            record.result_event_id@,
        ),
{
    broadcast use crate::json::object_model;

    let rows = vec![
        ("child_agent_id".to_owned(), Json::of_text(&record.child_agent_id)),
        ("command".to_owned(), Json::of_text(RECORD_OBSERVATION_COMMAND_NAME)),
        ("observer_result".to_owned(), summary.clone()),
        ("result_event_id".to_owned(), Json::of_text(&record.result_event_id)),
        ("schema".to_owned(), Json::of_text(OBSERVATION_RECORD_SCHEMA_NAME)),
        ("spawn_event_id".to_owned(), Json::of_text(&record.spawn_event_id)),
    ];
    assert(rows.deep_view() =~= recorded_tree(
        summary@,
        record.child_agent_id@,
        record.spawn_event_id@,
        record.result_event_id@,
    )->Object_0);
    Json::Object(rows)
}

/// A schema that a constant fits.
pub open spec fn const_schema(value: Tree) -> Tree {
    Tree::Object(seq![("const"@, value)])
}

fn const_value(value: Json) -> (r: Json)
    ensures
        r@ == const_schema(value@),
{
    broadcast use crate::json::object_model;

    let ghost model = value@;
    let rows = vec![("const".to_owned(), value)];
    assert(rows.deep_view() =~= const_schema(model)->Object_0);
    Json::Object(rows)
}

/// A schema that the values of a type fit.
pub open spec fn type_schema(name: Seq<char>) -> Tree {
    Tree::Object(seq![("type"@, Tree::Text(name))])
}

fn type_value(name: &str) -> (r: Json)
    ensures
        r@ == type_schema(name@),
{
    broadcast use crate::json::object_model;

    let rows = vec![("type".to_owned(), Json::of_text(name))];
    assert(rows.deep_view() =~= type_schema(name@)->Object_0);
    Json::Object(rows)
}

/// A schema that counts fit.
pub open spec fn count_schema() -> Tree {
    Tree::Object(
        seq![
            ("minimum"@, Tree::Number(NumberModel::Positive(0))),
            ("type"@, Tree::Text("integer"@)),
        ],
    )
}

fn count_value() -> (r: Json)
    ensures
        r@ == count_schema(),
{
    broadcast use crate::json::object_model;

    let rows = vec![
        ("minimum".to_owned(), Json::Number(Numeral::Positive(0))),
        ("type".to_owned(), Json::of_text("integer")),
    ];
    assert(rows.deep_view() =~= count_schema()->Object_0);
    Json::Object(rows)
}

/// A schema that texts and null fit.
pub open spec fn optional_schema() -> Tree {
    Tree::Object(seq![("type"@, crate::json::texts(seq!["string"@, "null"@]))])
}

fn optional_value() -> (r: Json)
    ensures
        r@ == optional_schema(),
{
    broadcast use crate::json::object_model;

    let names = vec!["string".to_owned(), "null".to_owned()];
    assert(names.deep_view() =~= seq!["string"@, "null"@]);
    let rows = vec![("type".to_owned(), Json::of_texts(&names))];
    assert(rows.deep_view() =~= optional_schema()->Object_0);
    Json::Object(rows)
}

/// The schemas of the members of an audit.
pub open spec fn audit_schemas() -> Seq<(Seq<char>, Tree)> {
    seq![
        ("artifact_byte_len"@, count_schema()),
        ("artifact_event_id"@, type_schema("string"@)),
        ("artifact_sha256"@, type_schema("string"@)),
        ("artifact_truncated"@, type_schema("boolean"@)),
        ("command"@, const_schema(Tree::Text(RECORD_OBSERVATION_COMMAND_NAME@))),
        ("degraded"@, type_schema("boolean"@)),
        ("edge_count"@, count_schema()),
        ("node_count"@, count_schema()),
        ("post_hoc"@, const_schema(Tree::Bool(true))),
        ("query_watermark_event_id"@, optional_schema()),
        ("record_kind"@, const_schema(Tree::Text("post_hoc_observer_audit"@))),
        ("schema"@, const_schema(Tree::Text(OBSERVATION_RECORD_SCHEMA_NAME@))),
        ("source_event_count"@, count_schema()),
        ("verification_truncated"@, type_schema("boolean"@)),
        ("verification_watermark_event_id"@, optional_schema()),
        ("watermark_event_id"@, optional_schema()),
    ]
}

/// The members that an audit must have.
pub open spec fn audit_required() -> Seq<Seq<char>> {
    seq![
        "schema"@,
        "record_kind"@,
        "post_hoc"@,
        "command"@,
        "artifact_event_id"@,
        "artifact_sha256"@,
        "artifact_byte_len"@,
        "source_event_count"@,
        "node_count"@,
        "edge_count"@,
        "degraded"@,
        "artifact_truncated"@,
        "watermark_event_id"@,
        "query_watermark_event_id"@,
        "verification_watermark_event_id"@,
        "verification_truncated"@,
    ]
}

/// The schema of an audit.
pub open spec fn result_schema() -> Tree {
    Tree::Object(
        seq![
            ("additionalProperties"@, Tree::Bool(false)),
            ("properties"@, Tree::Object(audit_schemas())),
            ("required"@, crate::json::texts(audit_required())),
            ("type"@, Tree::Text("object"@)),
        ],
    )
}

pub fn observation_record_result_schema() -> (r: Json)
    ensures
        r@ == result_schema(),
{
    broadcast use crate::json::object_model;

    let properties = vec![
        ("artifact_byte_len".to_owned(), count_value()),
        ("artifact_event_id".to_owned(), type_value("string")),
        ("artifact_sha256".to_owned(), type_value("string")),
        ("artifact_truncated".to_owned(), type_value("boolean")),
        ("command".to_owned(), const_value(Json::of_text(RECORD_OBSERVATION_COMMAND_NAME))),
        ("degraded".to_owned(), type_value("boolean")),
        ("edge_count".to_owned(), count_value()),
        ("node_count".to_owned(), count_value()),
        ("post_hoc".to_owned(), const_value(Json::Bool(true))),
        ("query_watermark_event_id".to_owned(), optional_value()),
        ("record_kind".to_owned(), const_value(Json::of_text("post_hoc_observer_audit"))),
        ("schema".to_owned(), const_value(Json::of_text(OBSERVATION_RECORD_SCHEMA_NAME))),
        ("source_event_count".to_owned(), count_value()),
        ("verification_truncated".to_owned(), type_value("boolean")),
        ("verification_watermark_event_id".to_owned(), optional_value()),
        ("watermark_event_id".to_owned(), optional_value()),
    ];
    assert(properties.deep_view() =~= audit_schemas());
    let required = vec![
        "schema".to_owned(),
        "record_kind".to_owned(),
        "post_hoc".to_owned(),
        "command".to_owned(),
        "artifact_event_id".to_owned(),
        "artifact_sha256".to_owned(),
        "artifact_byte_len".to_owned(),
        "source_event_count".to_owned(),
        "node_count".to_owned(),
        "edge_count".to_owned(),
        "degraded".to_owned(),
        "artifact_truncated".to_owned(),
        "watermark_event_id".to_owned(),
        "query_watermark_event_id".to_owned(),
        "verification_watermark_event_id".to_owned(),
        "verification_truncated".to_owned(),
    ];
    assert(required.deep_view() =~= audit_required());
    let rows = vec![
        ("additionalProperties".to_owned(), Json::Bool(false)),
        ("properties".to_owned(), Json::Object(properties)),
        ("required".to_owned(), Json::of_texts(&required)),
        ("type".to_owned(), Json::of_text("object")),
    ];
    assert(rows.deep_view() =~= result_schema()->Object_0);
    Json::Object(rows)
}

/// An observation is recorded only of an artifact of this extension: one of the session that was
/// asked for, of the media type and the schema of a graph. What is told of it is what its event
/// says.
pub proof fn audits_are_of_own_graphs(events: Seq<Event>, id: Seq<char>, session: Option<Seq<char>>)
    requires
        verified(events, id, session) is Ok,
    ensures
        ({
            let v = verified(events, id, session)->Ok_0;
            exists|k: int| 0 <= k < events.len() && #[trigger] audited(events[k], session, id, v)
        }),
{
    lemma_index(events, id, 0);
    let k = event_index(events, id, 0)->0;
    assert(audited(events[k], session, id, verified(events, id, session)->Ok_0));
}

/// Whether an event is that of a graph of this extension, and says what was told of it.
pub open spec fn audited(
    event: Event,
    session: Option<Seq<char>>,
    id: Seq<char>,
    v: Verified,
) -> bool {
    let metadata = member(event.payload, "metadata"@)->0;
    &&& event.id == id && v.event_id == id
    &&& session is None || session == Some(event.session)
    &&& event.kind == "extension.artifact"@
    &&& text_member(event.payload, "extension_id"@) == Some("causal-dag"@)
    &&& text_member(event.payload, "media_type"@) == Some(
        "application/vnd.euler.causal-dag.v3+json"@,
    )
    &&& text_member(event.payload, "sha256"@) == Some(v.sha256)
    &&& member(event.payload, "byte_len"@) is Some
    &&& member(event.payload, "byte_len"@)->0.count() == Some(v.byte_len)
    &&& member(event.payload, "source_event_ids"@) matches Some(Tree::List(list))
    &&& v.source_event_count == list.len()
    &&& metadata.text_at("schema"@) == Some("euler.causal_dag.v3"@)
    &&& metadata.at("node_count"@).count() == Some(v.node_count)
    &&& metadata.at("edge_count"@).count() == Some(v.edge_count)
    &&& metadata.flag_at("degraded"@) == Some(v.degraded)
    &&& metadata.flag_at("truncated"@) == Some(v.artifact_truncated)
    &&& metadata.text_at("watermark_event_id"@) == v.watermark_event_id
    &&& metadata.text_at("query_watermark_event_id"@) == v.query_watermark_event_id
}

proof fn lemma_index(events: Seq<Event>, id: Seq<char>, i: nat)
    requires
        i <= events.len(),
    ensures
        event_index(events, id, i) matches Some(k) ==> i <= k < events.len() && events[k].id == id,
    decreases events.len() - i,
{
    if i < events.len() && events[i as int].id != id {
        lemma_index(events, id, i + 1);
    }
}

/// What is recorded of an artifact is what was found of it, marked as told after the fact.
pub proof fn audits_tell_what_was_found(v: Verified, page: Page)
    ensures
        ({
            let out = audit_tree(v, page);
            &&& out.at("artifact_byte_len"@).count() == Some(v.byte_len)
            &&& out.at("edge_count"@).count() == Some(v.edge_count)
            &&& out.at("node_count"@).count() == Some(v.node_count)
            &&& out.at("artifact_event_id"@) == Tree::Text(v.event_id)
            &&& out.at("artifact_sha256"@) == Tree::Text(v.sha256)
            &&& out.at("artifact_truncated"@) == Tree::Bool(v.artifact_truncated)
            &&& out.at("command"@) == Tree::Text("record-observation"@)
            &&& out.at("degraded"@) == Tree::Bool(v.degraded)
            &&& out.at("post_hoc"@) == Tree::Bool(true)
            &&& out.at("record_kind"@) == Tree::Text("post_hoc_observer_audit"@)
            &&& out.at("schema"@) == Tree::Text("euler.causal_dag.observation_record.v1"@)
            &&& out.at("source_event_count"@) == crate::json::counted(v.source_event_count)
            &&& out.at("verification_truncated"@) == Tree::Bool(page.truncated)
            &&& out.at("verification_watermark_event_id"@) == optional_text(page.watermark_event_id)
            &&& out.at("query_watermark_event_id"@) == optional_text(v.query_watermark_event_id)
            &&& out.at("watermark_event_id"@) == optional_text(v.watermark_event_id)
        }),
{
    let o = audit_tree(v, page)->Object_0;
    reveal_strlit("artifact_byte_len");
    reveal_strlit("artifact_event_id");
    reveal_strlit("artifact_sha256");
    reveal_strlit("artifact_truncated");
    reveal_strlit("command");
    reveal_strlit("degraded");
    reveal_strlit("edge_count");
    reveal_strlit("node_count");
    reveal_strlit("post_hoc");
    reveal_strlit("query_watermark_event_id");
    reveal_strlit("record_kind");
    reveal_strlit("schema");
    reveal_strlit("source_event_count");
    reveal_strlit("verification_truncated");
    reveal_strlit("verification_watermark_event_id");
    reveal_strlit("watermark_event_id");
    crate::table::lemma_first_row(o, "artifact_byte_len"@, 0);
    assert(o[0].0[9] == 'b' && "artifact_event_id"@.len() == 17 && "artifact_event_id"@[9] == 'e');
    crate::table::lemma_first_row(o, "artifact_event_id"@, 1);
    assert(o[0].0.len() == 17 && o[1].0.len() == 17 && "artifact_sha256"@.len() == 15);
    crate::table::lemma_first_row(o, "artifact_sha256"@, 2);
    assert(o[0].0.len() == 17 && o[1].0.len() == 17 && o[2].0.len() == 15 && "artifact_truncated"@.len() == 18);
    crate::table::lemma_first_row(o, "artifact_truncated"@, 3);
    assert(o[0].0.len() == 17 && o[1].0.len() == 17 && o[2].0.len() == 15 && o[3].0.len() == 18 && "command"@.len() == 7);
    crate::table::lemma_first_row(o, "command"@, 4);
    assert(o[0].0.len() == 17 && o[1].0.len() == 17 && o[2].0.len() == 15 && o[3].0.len() == 18 && o[4].0.len() == 7 && "degraded"@.len() == 8);
    crate::table::lemma_first_row(o, "degraded"@, 5);
    assert(o[0].0.len() == 17 && o[1].0.len() == 17 && o[2].0.len() == 15 && o[3].0.len() == 18 && o[4].0.len() == 7 && o[5].0.len() == 8 && "edge_count"@.len() == 10);
    crate::table::lemma_first_row(o, "edge_count"@, 6);
    assert(o[0].0.len() == 17 && o[1].0.len() == 17 && o[2].0.len() == 15 && o[3].0.len() == 18 && o[4].0.len() == 7 && o[5].0.len() == 8 && o[6].0[0] == 'e' && "node_count"@.len() == 10 && "node_count"@[0] == 'n');
    crate::table::lemma_first_row(o, "node_count"@, 7);
    assert(o[0].0.len() == 17 && o[1].0.len() == 17 && o[2].0.len() == 15 && o[3].0.len() == 18 && o[4].0.len() == 7 && o[5].0[0] == 'd' && o[6].0.len() == 10 && o[7].0.len() == 10 && "post_hoc"@.len() == 8 && "post_hoc"@[0] == 'p');
    crate::table::lemma_first_row(o, "post_hoc"@, 8);
    assert(o[0].0.len() == 17 && o[1].0.len() == 17 && o[2].0.len() == 15 && o[3].0.len() == 18 && o[4].0.len() == 7 && o[5].0.len() == 8 && o[6].0.len() == 10 && o[7].0.len() == 10 && o[8].0.len() == 8 && "query_watermark_event_id"@.len() == 24);
    crate::table::lemma_first_row(o, "query_watermark_event_id"@, 9);
    assert(o[0].0.len() == 17 && o[1].0.len() == 17 && o[2].0.len() == 15 && o[3].0.len() == 18 && o[4].0.len() == 7 && o[5].0.len() == 8 && o[6].0.len() == 10 && o[7].0.len() == 10 && o[8].0.len() == 8 && o[9].0.len() == 24 && "record_kind"@.len() == 11);
    crate::table::lemma_first_row(o, "record_kind"@, 10);
    assert(o[0].0.len() == 17 && o[1].0.len() == 17 && o[2].0.len() == 15 && o[3].0.len() == 18 && o[4].0.len() == 7 && o[5].0.len() == 8 && o[6].0.len() == 10 && o[7].0.len() == 10 && o[8].0.len() == 8 && o[9].0.len() == 24 && o[10].0.len() == 11 && "schema"@.len() == 6);
    crate::table::lemma_first_row(o, "schema"@, 11);
    assert(o[0].0.len() == 17 && o[1].0.len() == 17 && o[2].0.len() == 15 && o[3].0[0] == 'a' && o[4].0.len() == 7 && o[5].0.len() == 8 && o[6].0.len() == 10 && o[7].0.len() == 10 && o[8].0.len() == 8 && o[9].0.len() == 24 && o[10].0.len() == 11 && o[11].0.len() == 6 && "source_event_count"@.len() == 18 && "source_event_count"@[0] == 's');
    crate::table::lemma_first_row(o, "source_event_count"@, 12);
    assert(o[0].0.len() == 17 && o[1].0.len() == 17 && o[2].0.len() == 15 && o[3].0.len() == 18 && o[4].0.len() == 7 && o[5].0.len() == 8 && o[6].0.len() == 10 && o[7].0.len() == 10 && o[8].0.len() == 8 && o[9].0.len() == 24 && o[10].0.len() == 11 && o[11].0.len() == 6 && o[12].0.len() == 18 && "verification_truncated"@.len() == 22);
    crate::table::lemma_first_row(o, "verification_truncated"@, 13);
    assert(o[0].0.len() == 17 && o[1].0.len() == 17 && o[2].0.len() == 15 && o[3].0.len() == 18 && o[4].0.len() == 7 && o[5].0.len() == 8 && o[6].0.len() == 10 && o[7].0.len() == 10 && o[8].0.len() == 8 && o[9].0.len() == 24 && o[10].0.len() == 11 && o[11].0.len() == 6 && o[12].0.len() == 18 && o[13].0.len() == 22 && "verification_watermark_event_id"@.len() == 31);
    crate::table::lemma_first_row(o, "verification_watermark_event_id"@, 14);
    assert(o[0].0.len() == 17 && o[1].0.len() == 17 && o[2].0.len() == 15 && o[3].0[0] == 'a' && o[4].0.len() == 7 && o[5].0.len() == 8 && o[6].0.len() == 10 && o[7].0.len() == 10 && o[8].0.len() == 8 && o[9].0.len() == 24 && o[10].0.len() == 11 && o[11].0.len() == 6 && o[12].0[0] == 's' && o[13].0.len() == 22 && o[14].0.len() == 31 && "watermark_event_id"@.len() == 18 && "watermark_event_id"@[0] == 'w');
    crate::table::lemma_first_row(o, "watermark_event_id"@, 15);
}

/// What comes back names the observer that was recorded and holds what was recorded of it.
pub proof fn recorded_observers_are_named(
    summary: Tree,
    child: Seq<char>,
    spawn: Seq<char>,
    result: Seq<char>,
)
    ensures
        ({
            let t = recorded_tree(summary, child, spawn, result);
            &&& t.text_at("child_agent_id"@) == Some(child)
            &&& t.text_at("command"@) == Some("record-observation"@)
            &&& t.at("observer_result"@) == summary
            &&& t.text_at("result_event_id"@) == Some(result)
            &&& t.text_at("schema"@) == Some("euler.causal_dag.observation_record.v1"@)
            &&& t.text_at("spawn_event_id"@) == Some(spawn)
        }),
{
    let o = recorded_tree(summary, child, spawn, result)->Object_0;
    reveal_strlit("child_agent_id");
    reveal_strlit("command");
    reveal_strlit("observer_result");
    reveal_strlit("result_event_id");
    reveal_strlit("schema");
    reveal_strlit("spawn_event_id");
    crate::table::lemma_first_row(o, "child_agent_id"@, 0);
    assert(o[0].0.len() == 14 && "command"@.len() == 7);
    crate::table::lemma_first_row(o, "command"@, 1);
    assert(o[0].0.len() == 14 && o[1].0.len() == 7 && "observer_result"@.len() == 15);
    crate::table::lemma_first_row(o, "observer_result"@, 2);
    assert(o[0].0.len() == 14 && o[1].0.len() == 7 && o[2].0[0] == 'o' && "result_event_id"@.len() == 15 && "result_event_id"@[0] == 'r');
    crate::table::lemma_first_row(o, "result_event_id"@, 3);
    assert(o[0].0.len() == 14 && o[1].0.len() == 7 && o[2].0.len() == 15 && o[3].0.len() == 15 && "schema"@.len() == 6);
    crate::table::lemma_first_row(o, "schema"@, 4);
    assert(o[0].0[0] == 'c' && o[1].0.len() == 7 && o[2].0.len() == 15 && o[3].0.len() == 15 && o[4].0.len() == 6 && "spawn_event_id"@.len() == 14 && "spawn_event_id"@[0] == 's');
    crate::table::lemma_first_row(o, "spawn_event_id"@, 5);
}

/// An observer that is not named is the manual one with the hints that were provided. A name is
/// taken as it is given, if it is a text that is not empty, not too long and without control
/// characters.
pub proof fn observers_are_named_or_manual(o: Seq<(Seq<char>, Tree)>)
    ensures
        observer_of(None) == Ok::<(Seq<char>, Seq<char>), Seq<char>>(
            ("manual"@, "provided-hints"@),
        ),
        observer_of(Some(Tree::Object(o))) matches Ok(named) ==> {
            &&& named.0 == "manual"@ || member(o, "provider"@) == Some(Tree::Text(named.0))
            &&& named.1 == "provided-hints"@ || member(o, "model"@) == Some(Tree::Text(named.1))
            &&& member(o, "provider"@) is None ==> named.0 == "manual"@
            &&& member(o, "model"@) is None ==> named.1 == "provided-hints"@
        },
        audit_of_fields(o) matches Ok(audit) ==> {
            &&& member(o, "artifact_event_id"@) == Some(Tree::Text(audit.artifact_event_id))
            &&& 0 < audit.artifact_event_id.len() && byte_len(audit.artifact_event_id) <= 256
            &&& !has_control(audit.artifact_event_id)
            &&& member(o, "limit"@) is None ==> audit.limit == 64
            &&& member(o, "after_event_id"@) is None ==> audit.after_event_id is None
            &&& member(o, "after_event_id"@) matches Some(Tree::Text(id)) ==> audit.after_event_id
                == Some(id)
            &&& member(o, "session_id"@) matches Some(Tree::Text(id)) ==> audit.session_id == Some(
                id,
            ) && id.len() > 0
        },
{
}

} // verus!
