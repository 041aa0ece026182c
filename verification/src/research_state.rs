//! Which record and which graph are selected, and how far the events were observed.

use crate::active_state::StateFile;
use crate::digest::{hash_form, matches_but_case, same_but_case, sha256, sha256_hex, valid_sha256};
use crate::json::{json_text, write_json, Json, Tree};
use crate::path::{plain_relative, valid_relative_path};
use crate::research_projection::artifact::MAX_RESEARCH_DAG_ARTIFACT_BYTES;
use crate::research_record::forms::{event_id_form, valid_event_id};
use crate::research_record::record::MAX_RESEARCH_RECORD_ARTIFACT_BYTES;
use crate::research_record::types::{Record, ResearchRecord};
use crate::schema::{RESEARCH_DAG_SCHEMA, RESEARCH_RECORD_SCHEMA};
use crate::sdk::{answers, input_error, passes, ArtifactRecord, ExtensionError, Stored};
use crate::table::lemma_first_row;
use crate::text::{byte_count, byte_len, same};
use vstd::prelude::*;
use vstd::utf8::encode_utf8;

verus! {

pub const RESEARCH_STATE_SCHEMA: &'static str = "euler.research_record.active.v1";

pub const RESEARCH_STATE_FILE: &'static str = "active-research-record.json";

/// The most bytes of the file of a state.
pub const MAX_RESEARCH_STATE_BYTES: u64 = 4194304;

/// An artifact that is selected, with its content.
pub struct StoredArtifact {
    pub persisted_event_id: String,
    pub sha256: String,
    pub relative_path: String,
    pub byte_len: usize,
    pub artifact: Json,
}

/// What a [`StoredArtifact`] holds.
#[verifier::ext_equal]
pub struct Kept {
    pub record: Stored,
    pub artifact: Tree,
}

impl DeepView for StoredArtifact {
    type V = Kept;

    open spec fn deep_view(&self) -> Kept {
        Kept {
            record: Stored {
                persisted_event_id: self.persisted_event_id@,
                relative_path: self.relative_path@,
                sha256: self.sha256@,
                byte_len: self.byte_len,
            },
            artifact: self.artifact@,
        }
    }
}

impl Clone for StoredArtifact {
    fn clone(&self) -> (r: Self)
        ensures
            r.deep_view() == self.deep_view(),
    {
        StoredArtifact {
            persisted_event_id: self.persisted_event_id.clone(),
            sha256: self.sha256.clone(),
            relative_path: self.relative_path.clone(),
            byte_len: self.byte_len,
            artifact: self.artifact.clone(),
        }
    }
}

/// Whether the record of an artifact can be selected.
pub open spec fn record_form(r: Stored) -> bool {
    event_id_form(r.persisted_event_id) && hash_form(r.sha256) && plain_relative(r.relative_path)
        && r.byte_len > 0
}

/// An artifact that is to be selected.
pub open spec fn kept(record: Stored, artifact: Tree) -> Result<Kept, Seq<char>> {
    if record_form(record) {
        Ok(Kept { record, artifact })
    } else {
        Err("research-record artifact record is invalid"@)
    }
}

/// The text of an artifact.
pub open spec fn artifact_text(artifact: Tree) -> Seq<char> {
    json_text(artifact).push('\n')
}

/// What is wrong with an artifact that is selected, whose content has so many bytes and this hash.
pub open spec fn kept_fault(
    kept: Kept,
    schema: Seq<char>,
    max: nat,
    bytes: nat,
    hash: Seq<char>,
) -> Option<Seq<char>> {
    if !record_form(kept.record) || kept.artifact.text_at("schema"@) != Some(schema) {
        Some("research-record selected artifact is invalid"@)
    } else if bytes > max {
        Some("research-record selected artifact exceeds the size limit"@)
    } else if kept.record.byte_len != bytes || !same_but_case(hash, kept.record.sha256) {
        Some("research-record selected artifact cache does not match its metadata"@)
    } else {
        None
    }
}

/// What is wrong with an artifact that is selected.
pub open spec fn stored_fault(kept: Kept, schema: Seq<char>, max: nat) -> Option<Seq<char>> {
    let text = artifact_text(kept.artifact);
    kept_fault(kept, schema, max, byte_len(text), sha256_hex(encode_utf8(text)))
}

impl StoredArtifact {
    pub fn from_record(record: &ArtifactRecord, artifact: Json) -> (r: Result<
        Self,
        ExtensionError,
    >)
        ensures
            answers(r, kept(record@, artifact@)),
    {
        let stored = StoredArtifact {
            persisted_event_id: record.persisted_event_id.clone(),
            sha256: record.sha256.clone(),
            relative_path: record.relative_path.clone(),
            byte_len: record.byte_len,
            artifact,
        };
        if !stored.has_record_form() {
            return Err(input_error("research-record artifact record is invalid"));
        }
        Ok(stored)
    }

    fn has_record_form(&self) -> (r: bool)
        ensures
            r == record_form(self.deep_view().record),
    {
        valid_event_id(&self.persisted_event_id) && valid_sha256(&self.sha256)
            && valid_relative_path(&self.relative_path) && self.byte_len > 0
    }

    /// Checks the artifact, whose content has so many bytes and this hash.
    pub fn check(&self, schema: &str, max_bytes: usize, bytes: usize, hash: &str) -> (r: Result<
        (),
        ExtensionError,
    >)
        ensures
            passes(
                r,
                kept_fault(
                    self.deep_view(),
                    schema@,
                    max_bytes as nat,
                    bytes as nat,
                    hash@,
                ),
            ),
    {
        let named = match self.artifact.text_at("schema") {
            Some(text) => same(text, schema),
            None => false,
        };
        if !self.has_record_form() || !named {
            return Err(input_error("research-record selected artifact is invalid"));
        }
        if bytes > max_bytes {
            return Err(input_error("research-record selected artifact exceeds the size limit"));
        }
        if self.byte_len != bytes || !matches_but_case(hash, &self.sha256) {
            return Err(
                input_error(
                    "research-record selected artifact cache does not match its metadata",
                ),
            );
        }
        Ok(())
    }

    pub fn validate(&self, schema: &str, max_bytes: usize) -> (r: Result<(), ExtensionError>)
        ensures
            passes(r, stored_fault(self.deep_view(), schema@, max_bytes as nat)),
    {
        let mut text = write_json(&self.artifact);
        text.push('\n');
        let hash = sha256(text.as_str().as_bytes());
        self.check(schema, max_bytes, byte_count(&text), &hash)
    }

    pub fn record(&self) -> (r: ArtifactRecord)
        ensures
            r@ == self.deep_view().record,
    {
        ArtifactRecord {
            persisted_event_id: self.persisted_event_id.clone(),
            relative_path: self.relative_path.clone(),
            sha256: self.sha256.clone(),
            byte_len: self.byte_len,
        }
    }
}

/// Which record and which graph are selected.
pub struct ResearchState {
    pub observed_through_event_id: Option<String>,
    pub record: Option<StoredArtifact>,
    pub graph: Option<StoredArtifact>,
}

/// What a [`ResearchState`] holds.
#[verifier::ext_equal]
pub struct Selected {
    pub observed_through_event_id: Option<Seq<char>>,
    pub record: Option<Kept>,
    pub graph: Option<Kept>,
}

impl DeepView for ResearchState {
    type V = Selected;

    open spec fn deep_view(&self) -> Selected {
        Selected {
            observed_through_event_id: self.observed_through_event_id.deep_view(),
            record: self.record.deep_view(),
            graph: self.graph.deep_view(),
        }
    }
}

fn copy_stored(stored: &Option<StoredArtifact>) -> (r: Option<StoredArtifact>)
    ensures
        r.deep_view() == stored.deep_view(),
{
    match stored {
        Some(stored) => Some(stored.clone()),
        None => None,
    }
}

impl Clone for ResearchState {
    fn clone(&self) -> (r: Self)
        ensures
            r.deep_view() == self.deep_view(),
    {
        ResearchState {
            observed_through_event_id: self.observed_through_event_id.clone(),
            record: copy_stored(&self.record),
            graph: copy_stored(&self.graph),
        }
    }
}

/// What is wrong with what is selected, before the content of the record is read.
pub open spec fn selection_fault(s: Selected) -> Option<Seq<char>> {
    if s.observed_through_event_id is Some && !event_id_form(s.observed_through_event_id->0) {
        Some("research-record state cursor is invalid"@)
    } else if s.record is Some != s.graph is Some {
        Some("research-record state must select both record and graph artifacts"@)
    } else {
        match s.record {
            Some(record) => stored_fault(
                record,
                RESEARCH_RECORD_SCHEMA@,
                MAX_RESEARCH_RECORD_ARTIFACT_BYTES as nat,
            ),
            None => None,
        }
    }
}

/// Whether a graph is the one of a record.
pub open spec fn belongs(graph: Tree, event_id: Seq<char>, record: Record) -> bool {
    &&& graph.at("projection"@).text_at("record_artifact_event_id"@) == Some(event_id)
    &&& graph.at("session"@).text_at("id"@) == Some(record.session.id)
    &&& graph.at("projection"@).text_at("record_watermark_event_id"@) == Some(
        record.session.provenance_watermark_event_id,
    )
}

/// What is wrong with what is selected, once the content of the record is read.
pub open spec fn pair_fault(s: Selected, record: Option<Record>) -> Option<Seq<char>> {
    match s.graph {
        None => None,
        Some(graph) => match stored_fault(
            graph,
            RESEARCH_DAG_SCHEMA@,
            MAX_RESEARCH_DAG_ARTIFACT_BYTES as nat,
        ) {
            Some(e) => Some(e),
            None => match (s.record, record) {
                (Some(kept), Some(record)) => if belongs(
                    graph.artifact,
                    kept.record.persisted_event_id,
                    record,
                ) {
                    None
                } else {
                    Some("research-record state graph does not match its selected record"@)
                },
                _ => None,
            },
        },
    }
}

fn is_text_of(value: Option<&Json>, name: &str, text: &str) -> (r: bool)
    ensures
        r == match value.deep_view() {
            Some(tree) => tree.text_at(name@) == Some(text@),
            None => false,
        },
{
    match value {
        Some(value) => match value.text_at(name) {
            Some(found) => same(found, text),
            None => false,
        },
        None => false,
    }
}

fn graph_belongs(graph: &Json, event_id: &str, record: &ResearchRecord) -> (r: bool)
    ensures
        r == belongs(graph@, event_id@, record.deep_view()),
{
    let projection = graph.get("projection");
    is_text_of(projection, "record_artifact_event_id", event_id) && is_text_of(
        graph.get("session"),
        "id",
        &record.session.id,
    ) && is_text_of(
        projection,
        "record_watermark_event_id",
        &record.session.provenance_watermark_event_id,
    )
}

/// What is selected once a record and its graph were written.
pub open spec fn committed(
    record: Stored,
    record_value: Tree,
    graph: Stored,
    graph_value: Tree,
    observed: Seq<char>,
) -> Result<Selected, Seq<char>> {
    match kept(record, record_value) {
        Err(e) => Err(e),
        Ok(record) => match kept(graph, graph_value) {
            Err(e) => Err(e),
            Ok(graph) => {
                let state = Selected {
                    observed_through_event_id: Some(observed),
                    record: Some(record),
                    graph: Some(graph),
                };
                match selection_fault(state) {
                    Some(e) => Err(e),
                    None => Ok(state),
                }
            },
        },
    }
}

/// What a state that was read selects.
pub open spec fn selected(schema: Seq<char>, state: Selected) -> Result<Selected, Seq<char>> {
    if schema != RESEARCH_STATE_SCHEMA@ {
        Err("research-record state schema is unsupported"@)
    } else {
        match selection_fault(state) {
            Some(e) => Err(e),
            None => Ok(state),
        }
    }
}

impl ResearchState {
    /// Before anything is selected.
    pub fn empty() -> (r: Self)
        ensures
            r.deep_view() == (Selected {
                observed_through_event_id: None,
                record: None,
                graph: None,
            }),
    {
        ResearchState { observed_through_event_id: None, record: None, graph: None }
    }

    /// Checks what is selected, before the content of the record is read.
    pub fn validate_selection(&self) -> (r: Result<(), ExtensionError>)
        ensures
            passes(r, selection_fault(self.deep_view())),
    {
        if let Some(id) = &self.observed_through_event_id {
            if !valid_event_id(id) {
                return Err(input_error("research-record state cursor is invalid"));
            }
        }
        if self.record.is_some() != self.graph.is_some() {
            return Err(
                input_error("research-record state must select both record and graph artifacts"),
            );
        }
        match &self.record {
            Some(record) => record.validate(
                RESEARCH_RECORD_SCHEMA,
                MAX_RESEARCH_RECORD_ARTIFACT_BYTES,
            ),
            None => Ok(()),
        }
    }

    /// Checks what is selected, once the content of the record is read.
    pub fn validate_pair(&self, record: Option<&ResearchRecord>) -> (r: Result<
        (),
        ExtensionError,
    >)
        ensures
            passes(r, pair_fault(self.deep_view(), record.deep_view())),
    {
        let graph = match &self.graph {
            Some(graph) => graph,
            None => {
                return Ok(());
            },
        };
        graph.validate(RESEARCH_DAG_SCHEMA, MAX_RESEARCH_DAG_ARTIFACT_BYTES)?;
        if let Some(stored) = &self.record {
            if let Some(record) = record {
                if !graph_belongs(&graph.artifact, &stored.persisted_event_id, record) {
                    return Err(
                        input_error(
                            "research-record state graph does not match its selected record",
                        ),
                    );
                }
            }
        }
        Ok(())
    }

    /// What a state that was read selects. The content of the record is still to be read.
    pub fn from_disk(schema: &str, state: ResearchState) -> (r: Result<Self, ExtensionError>)
        ensures
            answers(r, selected(schema@, state.deep_view())),
    {
        if !same(schema, RESEARCH_STATE_SCHEMA) {
            return Err(input_error("research-record state schema is unsupported"));
        }
        state.validate_selection()?;
        Ok(state)
    }

    /// What is selected once a record and its graph were written.
    pub fn commit(
        record: &ArtifactRecord,
        record_value: Json,
        graph: &ArtifactRecord,
        graph_value: Json,
        observed_through_event_id: &str,
    ) -> (r: Result<Self, ExtensionError>)
        ensures
            answers(
                r,
                committed(
                    record@,
                    record_value@,
                    graph@,
                    graph_value@,
                    observed_through_event_id@,
                ),
            ),
    {
        let record = StoredArtifact::from_record(record, record_value)?;
        let graph = StoredArtifact::from_record(graph, graph_value)?;
        let state = ResearchState {
            observed_through_event_id: Some(observed_through_event_id.to_owned()),
            record: Some(record),
            graph: Some(graph),
        };
        state.validate_selection()?;
        Ok(state)
    }

    /// The same selection, observed further.
    pub fn advance_cursor(&self, observed_through_event_id: &str) -> (r: Result<
        Self,
        ExtensionError,
    >)
        ensures
            answers(
                r,
                if event_id_form(observed_through_event_id@) {
                    Ok(
                        Selected {
                            observed_through_event_id: Some(observed_through_event_id@),
                            ..self.deep_view()
                        },
                    )
                } else {
                    Err("research-record cursor is invalid"@)
                },
            ),
    {
        if !valid_event_id(observed_through_event_id) {
            return Err(input_error("research-record cursor is invalid"));
        }
        let mut state = self.clone();
        state.observed_through_event_id = Some(observed_through_event_id.to_owned());
        Ok(state)
    }

    pub fn observed_through_event_id(&self) -> (r: &Option<String>)
        ensures
            r.deep_view() == self.deep_view().observed_through_event_id,
    {
        &self.observed_through_event_id
    }

    pub fn record_artifact_event_id(&self) -> (r: Option<&String>)
        ensures
            r.deep_view() == event_of(self.deep_view().record),
    {
        match &self.record {
            Some(stored) => Some(&stored.persisted_event_id),
            None => None,
        }
    }

    pub fn record_value(&self) -> (r: Option<&Json>)
        ensures
            r.deep_view() == content_of(self.deep_view().record),
    {
        match &self.record {
            Some(stored) => Some(&stored.artifact),
            None => None,
        }
    }

    pub fn record_record(&self) -> (r: Option<ArtifactRecord>)
        ensures
            r.deep_view() == written_of(self.deep_view().record),
    {
        match &self.record {
            Some(stored) => Some(stored.record()),
            None => None,
        }
    }

    pub fn graph_value(&self) -> (r: Option<&Json>)
        ensures
            r.deep_view() == content_of(self.deep_view().graph),
    {
        match &self.graph {
            Some(stored) => Some(&stored.artifact),
            None => None,
        }
    }

    pub fn graph_artifact_event_id(&self) -> (r: Option<&String>)
        ensures
            r.deep_view() == event_of(self.deep_view().graph),
    {
        match &self.graph {
            Some(stored) => Some(&stored.persisted_event_id),
            None => None,
        }
    }

    pub fn graph_record(&self) -> (r: Option<ArtifactRecord>)
        ensures
            r.deep_view() == written_of(self.deep_view().graph),
    {
        match &self.graph {
            Some(stored) => Some(stored.record()),
            None => None,
        }
    }

    /// Whether a record and a graph are selected.
    pub fn active(&self) -> (r: bool)
        ensures
            r == (self.deep_view().record is Some && self.deep_view().graph is Some),
    {
        self.record.is_some() && self.graph.is_some()
    }
}

/// The event of an artifact that is selected.
pub open spec fn event_of(kept: Option<Kept>) -> Option<Seq<char>> {
    match kept {
        Some(kept) => Some(kept.record.persisted_event_id),
        None => None,
    }
}

/// The content of an artifact that is selected.
pub open spec fn content_of(kept: Option<Kept>) -> Option<Tree> {
    match kept {
        Some(kept) => Some(kept.artifact),
        None => None,
    }
}

/// The record of an artifact that is selected.
pub open spec fn written_of(kept: Option<Kept>) -> Option<Stored> {
    match kept {
        Some(kept) => Some(kept.record),
        None => None,
    }
}

/// Checks what stands where the file of a state is looked for; whether there is a text to read.
pub fn check_state_file(file: StateFile) -> (r: Result<bool, ExtensionError>)
    ensures
        answers(
            r,
            match file {
                StateFile::Missing => Ok(false),
                StateFile::Irregular => Err("research-record state is not a regular file"@),
                StateFile::Oversize => Err("research-record state exceeds the size limit"@),
                StateFile::Readable => Ok(true),
            },
        ),
{
    match file {
        StateFile::Missing => Ok(false),
        StateFile::Irregular => Err(input_error("research-record state is not a regular file")),
        StateFile::Oversize => Err(input_error("research-record state exceeds the size limit")),
        StateFile::Readable => Ok(true),
    }
}

/// Checks that a state of so many bytes can be written with a line end behind it.
pub fn check_state_bytes(bytes: usize) -> (r: Result<(), ExtensionError>)
    ensures
        passes(
            r,
            if bytes + 1 > MAX_RESEARCH_STATE_BYTES {
                Some("research-record state exceeds the size limit"@)
            } else {
                None
            },
        ),
{
    if bytes.saturating_add(1) as u64 > MAX_RESEARCH_STATE_BYTES {
        return Err(input_error("research-record state exceeds the size limit"));
    }
    Ok(())
}

/// A selection that passes holds a record and a graph together or neither, and each matches what
/// was written of it.
pub proof fn selections_are_whole(s: Selected, record: Option<Record>)
    requires
        selection_fault(s) is None,
        pair_fault(s, record) is None,
    ensures
        s.record is Some == s.graph is Some,
        s.record matches Some(kept) ==> record_form(kept.record) && kept.record.byte_len
            == byte_len(artifact_text(kept.artifact)) && same_but_case(
            sha256_hex(encode_utf8(artifact_text(kept.artifact))),
            kept.record.sha256,
        ),
        s.graph matches Some(kept) ==> record_form(kept.record) && kept.record.byte_len
            == byte_len(artifact_text(kept.artifact)) && same_but_case(
            sha256_hex(encode_utf8(artifact_text(kept.artifact))),
            kept.record.sha256,
        ),
        s.graph is Some && s.record is Some && record is Some ==> belongs(
            s.graph->0.artifact,
            s.record->0.record.persisted_event_id,
            record->0,
        ),
{
}

/// The graph of a record belongs to it.
pub proof fn graphs_belong_to_their_records(r: Record, id: Seq<char>)
    requires
        crate::research_projection::artifact::research_graph(r, id) is Ok,
    ensures
        belongs(crate::research_projection::artifact::research_graph(r, id)->Ok_0.0, id, r),
{
    let tree = crate::research_projection::artifact::research_graph(r, id)->Ok_0.0;
    let a = crate::research_record::ledger::accepted_of(r.ledger)->Ok_0;
    let nodes = crate::research_projection::artifact::nodes_of(r, a)->Ok_0;
    assert(tree == crate::research_projection::artifact::graph_tree(r, a, nodes, id));
    let rows = tree->Object_0;
    let projection = crate::research_projection::artifact::projection_tree(r, id)->Object_0;
    let session = crate::research_projection::artifact::session_tree(r)->Object_0;
    reveal_strlit("construction");
    reveal_strlit("diagnostics");
    reveal_strlit("forest");
    reveal_strlit("generated_at");
    reveal_strlit("media_type");
    reveal_strlit("projection");
    reveal_strlit("schema");
    reveal_strlit("session");
    reveal_strlit("degraded");
    reveal_strlit("extension_id");
    reveal_strlit("profile");
    reveal_strlit("record_artifact_event_id");
    reveal_strlit("record_watermark_event_id");
    reveal_strlit("event_range");
    reveal_strlit("id");
    assert(rows[0].0 == "construction"@ && rows[1].0 == "diagnostics"@ && rows[2].0 == "forest"@
        && rows[3].0 == "generated_at"@ && rows[4].0 == "media_type"@ && rows[5].0
        == "projection"@ && rows[6].0 == "schema"@ && rows[7].0 == "session"@);
    assert("media_type"@[0] != "projection"@[0]);
    assert(projection[0].0 == "degraded"@ && projection[1].0 == "extension_id"@ && projection[2].0
        == "profile"@ && projection[3].0 == "record_artifact_event_id"@ && projection[4].0
        == "record_watermark_event_id"@);
    assert(session[0].0 == "event_range"@ && session[1].0 == "id"@);
    lemma_first_row(rows, "projection"@, 5);
    lemma_first_row(rows, "session"@, 7);
    lemma_first_row(projection, "record_artifact_event_id"@, 3);
    lemma_first_row(projection, "record_watermark_event_id"@, 4);
    lemma_first_row(session, "id"@, 1);
}

/// A committed selection is of the two artifacts that were written, and has seen as far as it was
/// told. Both are in the forms that go with them.
pub proof fn commits_select_both_artifacts(
    record: Stored,
    record_value: Tree,
    graph: Stored,
    graph_value: Tree,
    observed: Seq<char>,
)
    ensures
        committed(record, record_value, graph, graph_value, observed) matches Ok(s) ==> {
            &&& s.observed_through_event_id == Some(observed)
            &&& s.record is Some && s.graph is Some
            &&& s.record->0.record == record && s.record->0.artifact == record_value
            &&& s.graph->0.record == graph && s.graph->0.artifact == graph_value
            &&& record_value.text_at("schema"@) == Some("euler.research_record.v1"@)
            &&& record.byte_len > 0 && graph.byte_len > 0
        },
        selected("euler.research_record.active.v1"@, Selected {
            observed_through_event_id: None,
            record: None,
            graph: None,
        }) is Ok,
{
}

} // verus!
