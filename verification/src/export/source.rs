//! The graph that an export starts from, what is kept of the export, and what is answered.

use super::format::{canonical_json_text, ExportFormat};
use super::graph::{annotations, edge_total, Dag, ViewerDag};
use crate::active_state::{Active, ActiveGraphState};
use crate::json::{counted, json_text, optional_text, Json, Tree};
use crate::research_state::{ResearchState, Selected};
use crate::schema::{DISPLAY_NAME, RESEARCH_DAG_SCHEMA, SCHEMA_NAME};
use crate::sdk::{
    answers, input_error, ArtifactRecord, ArtifactWrite, ExtensionError, Stored,
};
use crate::text::{byte_count, byte_len, join3};
use crate::view::{artifact_session, session_of};
use vstd::prelude::*;

verus! {

pub const EXPORT_METADATA_SCHEMA: &'static str = "euler.causal_dag.export.v1";

/// The graph that an export starts from.
pub struct GraphSource {
    pub artifact: Json,
    pub artifact_event_id: String,
    pub record: Option<ArtifactRecord>,
    pub active: bool,
    pub source_schema: String,
}

/// What a [`GraphSource`] holds.
#[verifier::ext_equal]
pub struct Source {
    pub artifact: Tree,
    pub artifact_event_id: Seq<char>,
    pub record: Option<Stored>,
    pub active: bool,
    pub source_schema: Seq<char>,
}

impl DeepView for GraphSource {
    type V = Source;

    open spec fn deep_view(&self) -> Source {
        Source {
            artifact: self.artifact@,
            artifact_event_id: self.artifact_event_id@,
            record: self.record.deep_view(),
            active: self.active,
            source_schema: self.source_schema@,
        }
    }
}

/// The graph of a record that an export starts from.
pub open spec fn research_source(state: Selected, expected: Option<Seq<char>>) -> Result<
    Source,
    Seq<char>,
> {
    match state.graph {
        None => Err(
            "research-record pilot has no accepted projection yet; run an observed pilot turn before exporting"@,
        ),
        Some(graph) => match session_of(graph.artifact, expected, RESEARCH_DAG_SCHEMA@) {
            Err(e) => Err(e),
            Ok(_) => Ok(
                Source {
                    artifact: graph.artifact,
                    artifact_event_id: graph.record.persisted_event_id,
                    record: Some(graph.record),
                    active: true,
                    source_schema: RESEARCH_DAG_SCHEMA@,
                },
            ),
        },
    }
}

/// The active graph that an export starts from.
pub open spec fn active_source(active: Active, expected: Option<Seq<char>>) -> Result<
    Source,
    Seq<char>,
> {
    match session_of(active.artifact, expected, SCHEMA_NAME@) {
        Err(e) => Err(e),
        Ok(_) => Ok(
            Source {
                artifact: active.artifact,
                artifact_event_id: active.artifact_event_id,
                record: match active.artifact_relative_path {
                    None => None,
                    Some(path) => Some(
                        Stored {
                            persisted_event_id: active.artifact_event_id,
                            relative_path: path,
                            sha256: active.artifact_sha256,
                            byte_len: byte_len(json_text(active.artifact).push('\n')) as usize,
                        },
                    ),
                },
                active: true,
                source_schema: SCHEMA_NAME@,
            },
        ),
    }
}

impl GraphSource {
    /// The graph of a record that an export starts from.
    pub fn from_research(state: &ResearchState, session_id: &Option<String>) -> (r: Result<
        Self,
        ExtensionError,
    >)
        ensures
            answers(r, research_source(state.deep_view(), session_id.deep_view())),
    {
        match (state.graph_value(), state.graph_record()) {
            (Some(artifact), Some(record)) => {
                artifact_session(artifact, session_id, RESEARCH_DAG_SCHEMA)?;
                Ok(
                    GraphSource {
                        artifact: artifact.clone(),
                        artifact_event_id: record.persisted_event_id.clone(),
                        record: Some(record),
                        active: true,
                        source_schema: RESEARCH_DAG_SCHEMA.to_owned(),
                    },
                )
            },
            _ => Err(
                input_error(
                    "research-record pilot has no accepted projection yet; run an observed pilot turn before exporting",
                ),
            ),
        }
    }

    /// The active graph that an export starts from.
    pub fn from_active(active: &ActiveGraphState, session_id: &Option<String>) -> (r: Result<
        Self,
        ExtensionError,
    >)
        ensures
            answers(r, active_source(active.deep_view(), session_id.deep_view())),
    {
        artifact_session(active.artifact(), session_id, SCHEMA_NAME)?;
        let text = canonical_json_text(active.artifact());
        let byte_len: usize = byte_count(&text);
        let record = match active.artifact_relative_path() {
            None => None,
            Some(path) => Some(
                ArtifactRecord {
                    persisted_event_id: active.artifact_event_id().to_owned(),
                    relative_path: path.clone(),
                    sha256: active.artifact_sha256().to_owned(),
                    byte_len,
                },
            ),
        };
        Ok(
            GraphSource {
                artifact: active.artifact().clone(),
                artifact_event_id: active.artifact_event_id().to_owned(),
                record,
                active: true,
                source_schema: SCHEMA_NAME.to_owned(),
            },
        )
    }

    /// The graph that was projected for the export and written as an artifact.
    pub fn from_snapshot(artifact: Json, record: ArtifactRecord) -> (r: Self)
        ensures
            r.deep_view() == (Source {
                artifact: artifact@,
                artifact_event_id: record@.persisted_event_id,
                record: Some(record@),
                active: false,
                source_schema: SCHEMA_NAME@,
            }),
    {
        GraphSource {
            artifact,
            artifact_event_id: record.persisted_event_id.clone(),
            record: Some(record),
            active: false,
            source_schema: SCHEMA_NAME.to_owned(),
        }
    }

    /// The artifact that an export is already kept in: the graph itself where it is exported as
    /// it is.
    pub fn kept_record(&self, format: ExportFormat) -> (r: Option<ArtifactRecord>)
        ensures
            r.deep_view() == (if format == ExportFormat::Json {
                self.deep_view().record
            } else {
                None
            }),
    {
        match format {
            ExportFormat::Json => match &self.record {
                Some(record) => Some(record.clone()),
                None => None,
            },
            _ => None,
        }
    }
}

/// The file name that an export suggests.
pub open spec fn suggested(dag: Dag, format: ExportFormat) -> Seq<char> {
    "dag-"@ + super::graph::file_session(dag.session_id) + "."@ + format.ending()
}

/// The file name that an export suggests.
pub fn suggested_name(dag: &ViewerDag, format: ExportFormat) -> (r: String)
    ensures
        r@ == suggested(dag.deep_view(), format),
{
    join3(&dag.suggested_stem(), ".", format.extension())
}

/// What the artifact of an export is written with.
pub open spec fn export_metadata(
    source: Source,
    dag: Dag,
    format: ExportFormat,
    name: Seq<char>,
) -> Seq<(Seq<char>, Tree)> {
    seq![
        ("cross_arc_count"@, counted(annotations(dag.arcs, dag.arcs.len()))),
        ("edge_count"@, counted(edge_total(dag))),
        ("format"@, Tree::Text(format.name())),
        ("node_count"@, counted(dag.nodes.len())),
        ("schema"@, Tree::Text(EXPORT_METADATA_SCHEMA@)),
        ("self_contained"@, Tree::Bool(format == ExportFormat::Html)),
        ("source_artifact_event_id"@, Tree::Text(source.artifact_event_id)),
        ("source_schema"@, Tree::Text(source.source_schema)),
        ("suggested_name"@, Tree::Text(name)),
    ]
}

/// The artifact of an export.
pub fn view_artifact(
    source: &GraphSource,
    dag: &ViewerDag,
    format: ExportFormat,
    suggested_name: &str,
    bytes: Vec<u8>,
) -> (r: ArtifactWrite)
    requires
        edge_total(dag.deep_view()) <= usize::MAX,
    ensures
        r.display_name@ == DISPLAY_NAME@ + " "@ + format.name() + " export"@,
        r.media_type@ == format.media(source.source_schema@),
        r.bytes == bytes,
        r.source_event_ids.deep_view() == seq![source.artifact_event_id@],
        r.metadata.deep_view() == export_metadata(
            source.deep_view(),
            dag.deep_view(),
            format,
            suggested_name@,
        ),
{
    assert(dag.deep_view().arcs.len() == dag.arcs@.len());
    let metadata = vec![
        ("cross_arc_count".to_owned(), Json::of_count(dag.cross_arc_count())),
        ("edge_count".to_owned(), Json::of_count(dag.edge_count())),
        ("format".to_owned(), Json::of_text(format.as_str())),
        ("node_count".to_owned(), Json::of_count(dag.node_count())),
        ("schema".to_owned(), Json::of_text(EXPORT_METADATA_SCHEMA)),
        ("self_contained".to_owned(), Json::Bool(is_html(format))),
        ("source_artifact_event_id".to_owned(), Json::of_text(&source.artifact_event_id)),
        ("source_schema".to_owned(), Json::of_text(&source.source_schema)),
        ("suggested_name".to_owned(), Json::of_text(suggested_name)),
    ];
    assert(metadata.deep_view() =~= export_metadata(
        source.deep_view(),
        dag.deep_view(),
        format,
        suggested_name@,
    ));
    let sources = vec![source.artifact_event_id.clone()];
    assert(sources.deep_view() =~= seq![source.artifact_event_id@]);
    let start = join3(DISPLAY_NAME, " ", format.as_str());
    ArtifactWrite {
        display_name: crate::text::join2(&start, " export"),
        media_type: format.media_type(&source.source_schema).to_owned(),
        bytes,
        source_event_ids: sources,
        metadata,
    }
}

fn is_html(format: ExportFormat) -> (r: bool)
    ensures
        r == (format == ExportFormat::Html),
{
    match format {
        ExportFormat::Html => true,
        _ => false,
    }
}

/// What is answered to an export.
pub open spec fn exported(
    source: Source,
    dag: Dag,
    record: Stored,
    format: ExportFormat,
    name: Seq<char>,
    out_path: Option<Seq<char>>,
) -> Tree {
    Tree::Object(
        seq![
            ("active_graph"@, Tree::Bool(source.active)),
            ("byte_len"@, counted(record.byte_len as nat)),
            ("cross_arc_count"@, counted(annotations(dag.arcs, dag.arcs.len()))),
            ("edge_count"@, counted(edge_total(dag))),
            ("format"@, Tree::Text(format.name())),
            ("node_count"@, counted(dag.nodes.len())),
            ("out_path"@, optional_text(out_path)),
            ("persisted_event_id"@, Tree::Text(record.persisted_event_id)),
            ("relative_path"@, Tree::Text(record.relative_path)),
            ("schema"@, Tree::Text(EXPORT_METADATA_SCHEMA@)),
            ("self_contained"@, Tree::Bool(format == ExportFormat::Html)),
            ("sha256"@, Tree::Text(record.sha256)),
            ("source_artifact_event_id"@, Tree::Text(source.artifact_event_id)),
            ("source_schema"@, Tree::Text(source.source_schema)),
            ("suggested_name"@, Tree::Text(name)),
        ],
    )
}

/// What is answered to an export.
pub fn export_output(
    dag: &ViewerDag,
    source: &GraphSource,
    record: &ArtifactRecord,
    format: ExportFormat,
    suggested_name: &str,
    out_path: &Option<String>,
) -> (r: Json)
    requires
        edge_total(dag.deep_view()) <= usize::MAX,
    ensures
        r@ == exported(
            source.deep_view(),
            dag.deep_view(),
            record@,
            format,
            suggested_name@,
            out_path.deep_view(),
        ),
{
    broadcast use crate::json::object_model;

    assert(dag.deep_view().arcs.len() == dag.arcs@.len());
    let rows = vec![
        ("active_graph".to_owned(), Json::Bool(source.active)),
        ("byte_len".to_owned(), Json::of_count(record.byte_len)),
        ("cross_arc_count".to_owned(), Json::of_count(dag.cross_arc_count())),
        ("edge_count".to_owned(), Json::of_count(dag.edge_count())),
        ("format".to_owned(), Json::of_text(format.as_str())),
        ("node_count".to_owned(), Json::of_count(dag.node_count())),
        ("out_path".to_owned(), Json::of_optional_text(out_path)),
        ("persisted_event_id".to_owned(), Json::of_text(&record.persisted_event_id)),
        ("relative_path".to_owned(), Json::of_text(&record.relative_path)),
        ("schema".to_owned(), Json::of_text(EXPORT_METADATA_SCHEMA)),
        ("self_contained".to_owned(), Json::Bool(is_html(format))),
        ("sha256".to_owned(), Json::of_text(&record.sha256)),
        ("source_artifact_event_id".to_owned(), Json::of_text(&source.artifact_event_id)),
        ("source_schema".to_owned(), Json::of_text(&source.source_schema)),
        ("suggested_name".to_owned(), Json::of_text(suggested_name)),
    ];
    assert(rows.deep_view() =~= exported(
        source.deep_view(),
        dag.deep_view(),
        record@,
        format,
        suggested_name@,
        out_path.deep_view(),
    )->Object_0);
    Json::Object(rows)
}

/// What is exported is the selected graph of the research record, or the active graph, of the
/// session that was asked for, under the schema that goes with it.
pub proof fn exports_are_of_the_selected_graph(
    state: Selected,
    active: Active,
    expected: Option<Seq<char>>,
)
    ensures
        research_source(state, expected) matches Ok(s) ==> {
            &&& state.graph is Some
            &&& s.artifact == state.graph->0.artifact
            &&& s.artifact_event_id == state.graph->0.record.persisted_event_id
            &&& s.record == Some(state.graph->0.record)
            &&& s.active && s.source_schema == "euler.causal_dag.v4"@
            &&& expected is Some ==> s.artifact.at("session"@).text_at("id"@) == expected
        },
        active_source(active, expected) matches Ok(s) ==> {
            &&& s.artifact == active.artifact
            &&& s.artifact_event_id == active.artifact_event_id
            &&& s.active && s.source_schema == "euler.causal_dag.v3"@
            &&& s.record is Some <==> active.artifact_relative_path is Some
            &&& s.record matches Some(r) ==> r.persisted_event_id == active.artifact_event_id
                && Some(r.relative_path) == active.artifact_relative_path && r.sha256
                == active.artifact_sha256
            &&& expected is Some ==> s.artifact.at("session"@).text_at("id"@) == expected
        },
{
}

/// An export tells what the graph holds, in which format it was written and from which artifact;
/// only a page of HTML holds all that it needs. Its name is made of the session and the ending of
/// its format.
pub proof fn exports_tell_what_they_hold(
    source: Source,
    dag: Dag,
    record: Stored,
    format: ExportFormat,
    name: Seq<char>,
    out_path: Option<Seq<char>>,
)
    ensures
        ({
            let t = exported(source, dag, record, format, name, out_path);
            &&& t.flag_at("self_contained"@) == Some(format == ExportFormat::Html)
            &&& t.at("active_graph"@) == Tree::Bool(source.active)
            &&& t.at("byte_len"@) == counted(record.byte_len as nat)
            &&& t.at("cross_arc_count"@) == counted(annotations(dag.arcs, dag.arcs.len()))
            &&& t.at("edge_count"@) == counted(edge_total(dag))
            &&& t.at("format"@) == Tree::Text(format.name())
            &&& t.at("node_count"@) == counted(dag.nodes.len())
            &&& t.at("out_path"@) == optional_text(out_path)
            &&& t.at("persisted_event_id"@) == Tree::Text(record.persisted_event_id)
            &&& t.at("relative_path"@) == Tree::Text(record.relative_path)
            &&& t.at("schema"@) == Tree::Text("euler.causal_dag.export.v1"@)
            &&& t.at("sha256"@) == Tree::Text(record.sha256)
            &&& t.at("source_artifact_event_id"@) == Tree::Text(source.artifact_event_id)
            &&& t.at("source_schema"@) == Tree::Text(source.source_schema)
            &&& t.at("suggested_name"@) == Tree::Text(name)
        }),
        ({
            let t = Tree::Object(export_metadata(source, dag, format, name));
            &&& t.flag_at("self_contained"@) == Some(format == ExportFormat::Html)
            &&& t.at("cross_arc_count"@) == counted(annotations(dag.arcs, dag.arcs.len()))
            &&& t.at("edge_count"@) == counted(edge_total(dag))
            &&& t.at("format"@) == Tree::Text(format.name())
            &&& t.at("node_count"@) == counted(dag.nodes.len())
            &&& t.at("schema"@) == Tree::Text("euler.causal_dag.export.v1"@)
            &&& t.at("source_artifact_event_id"@) == Tree::Text(source.artifact_event_id)
            &&& t.at("source_schema"@) == Tree::Text(source.source_schema)
            &&& t.at("suggested_name"@) == Tree::Text(name)
        }),
        suggested(dag, format) == "dag-"@ + super::graph::file_session(dag.session_id) + "."@
            + format.ending(),
{
    let o = exported(source, dag, record, format, name, out_path)->Object_0;
    reveal_strlit("active_graph");
    reveal_strlit("byte_len");
    reveal_strlit("cross_arc_count");
    reveal_strlit("edge_count");
    reveal_strlit("format");
    reveal_strlit("node_count");
    reveal_strlit("out_path");
    reveal_strlit("persisted_event_id");
    reveal_strlit("relative_path");
    reveal_strlit("schema");
    reveal_strlit("self_contained");
    reveal_strlit("sha256");
    reveal_strlit("source_artifact_event_id");
    reveal_strlit("source_schema");
    reveal_strlit("suggested_name");
    crate::table::lemma_first_row(o, "active_graph"@, 0);
    assert(o[0].0.len() == 12 && "byte_len"@.len() == 8);
    crate::table::lemma_first_row(o, "byte_len"@, 1);
    assert(o[0].0.len() == 12 && o[1].0.len() == 8 && "cross_arc_count"@.len() == 15);
    crate::table::lemma_first_row(o, "cross_arc_count"@, 2);
    assert(o[0].0.len() == 12 && o[1].0.len() == 8 && o[2].0.len() == 15 && "edge_count"@.len() == 10);
    crate::table::lemma_first_row(o, "edge_count"@, 3);
    assert(o[0].0.len() == 12 && o[1].0.len() == 8 && o[2].0.len() == 15 && o[3].0.len() == 10 && "format"@.len() == 6);
    crate::table::lemma_first_row(o, "format"@, 4);
    assert(o[0].0.len() == 12 && o[1].0.len() == 8 && o[2].0.len() == 15 && o[3].0[0] == 'e' && o[4].0.len() == 6 && "node_count"@.len() == 10 && "node_count"@[0] == 'n');
    crate::table::lemma_first_row(o, "node_count"@, 5);
    assert(o[0].0.len() == 12 && o[1].0[0] == 'b' && o[2].0.len() == 15 && o[3].0.len() == 10 && o[4].0.len() == 6 && o[5].0.len() == 10 && "out_path"@.len() == 8 && "out_path"@[0] == 'o');
    crate::table::lemma_first_row(o, "out_path"@, 6);
    assert(o[0].0.len() == 12 && o[1].0.len() == 8 && o[2].0.len() == 15 && o[3].0.len() == 10 && o[4].0.len() == 6 && o[5].0.len() == 10 && o[6].0.len() == 8 && "persisted_event_id"@.len() == 18);
    crate::table::lemma_first_row(o, "persisted_event_id"@, 7);
    assert(o[0].0.len() == 12 && o[1].0.len() == 8 && o[2].0.len() == 15 && o[3].0.len() == 10 && o[4].0.len() == 6 && o[5].0.len() == 10 && o[6].0.len() == 8 && o[7].0.len() == 18 && "relative_path"@.len() == 13);
    crate::table::lemma_first_row(o, "relative_path"@, 8);
    assert(o[0].0.len() == 12 && o[1].0.len() == 8 && o[2].0.len() == 15 && o[3].0.len() == 10 && o[4].0[0] == 'f' && o[5].0.len() == 10 && o[6].0.len() == 8 && o[7].0.len() == 18 && o[8].0.len() == 13 && "schema"@.len() == 6 && "schema"@[0] == 's');
    crate::table::lemma_first_row(o, "schema"@, 9);
    assert(o[0].0.len() == 12 && o[1].0.len() == 8 && o[2].0.len() == 15 && o[3].0.len() == 10 && o[4].0.len() == 6 && o[5].0.len() == 10 && o[6].0.len() == 8 && o[7].0.len() == 18 && o[8].0.len() == 13 && o[9].0.len() == 6 && "self_contained"@.len() == 14);
    crate::table::lemma_first_row(o, "self_contained"@, 10);
    assert(o[0].0.len() == 12 && o[1].0.len() == 8 && o[2].0.len() == 15 && o[3].0.len() == 10 && o[4].0[0] == 'f' && o[5].0.len() == 10 && o[6].0.len() == 8 && o[7].0.len() == 18 && o[8].0.len() == 13 && o[9].0[1] == 'c' && o[10].0.len() == 14 && "sha256"@.len() == 6 && "sha256"@[0] == 's' && "sha256"@[1] == 'h');
    crate::table::lemma_first_row(o, "sha256"@, 11);
    assert(o[0].0.len() == 12 && o[1].0.len() == 8 && o[2].0.len() == 15 && o[3].0.len() == 10 && o[4].0.len() == 6 && o[5].0.len() == 10 && o[6].0.len() == 8 && o[7].0.len() == 18 && o[8].0.len() == 13 && o[9].0.len() == 6 && o[10].0.len() == 14 && o[11].0.len() == 6 && "source_artifact_event_id"@.len() == 24);
    crate::table::lemma_first_row(o, "source_artifact_event_id"@, 12);
    assert(o[0].0.len() == 12 && o[1].0.len() == 8 && o[2].0.len() == 15 && o[3].0.len() == 10 && o[4].0.len() == 6 && o[5].0.len() == 10 && o[6].0.len() == 8 && o[7].0.len() == 18 && o[8].0[0] == 'r' && o[9].0.len() == 6 && o[10].0.len() == 14 && o[11].0.len() == 6 && o[12].0.len() == 24 && "source_schema"@.len() == 13 && "source_schema"@[0] == 's');
    crate::table::lemma_first_row(o, "source_schema"@, 13);
    assert(o[0].0.len() == 12 && o[1].0.len() == 8 && o[2].0.len() == 15 && o[3].0.len() == 10 && o[4].0.len() == 6 && o[5].0.len() == 10 && o[6].0.len() == 8 && o[7].0.len() == 18 && o[8].0.len() == 13 && o[9].0.len() == 6 && o[10].0[1] == 'e' && o[11].0.len() == 6 && o[12].0.len() == 24 && o[13].0.len() == 13 && "suggested_name"@.len() == 14 && "suggested_name"@[1] == 'u');
    crate::table::lemma_first_row(o, "suggested_name"@, 14);
    let m = export_metadata(source, dag, format, name);
    reveal_strlit("cross_arc_count");
    reveal_strlit("edge_count");
    reveal_strlit("format");
    reveal_strlit("node_count");
    reveal_strlit("schema");
    reveal_strlit("self_contained");
    reveal_strlit("source_artifact_event_id");
    reveal_strlit("source_schema");
    reveal_strlit("suggested_name");
    crate::table::lemma_first_row(m, "cross_arc_count"@, 0);
    assert(m[0].0.len() == 15 && "edge_count"@.len() == 10);
    crate::table::lemma_first_row(m, "edge_count"@, 1);
    assert(m[0].0.len() == 15 && m[1].0.len() == 10 && "format"@.len() == 6);
    crate::table::lemma_first_row(m, "format"@, 2);
    assert(m[0].0.len() == 15 && m[1].0[0] == 'e' && m[2].0.len() == 6 && "node_count"@.len() == 10 && "node_count"@[0] == 'n');
    crate::table::lemma_first_row(m, "node_count"@, 3);
    assert(m[0].0.len() == 15 && m[1].0.len() == 10 && m[2].0[0] == 'f' && m[3].0.len() == 10 && "schema"@.len() == 6 && "schema"@[0] == 's');
    crate::table::lemma_first_row(m, "schema"@, 4);
    assert(m[0].0.len() == 15 && m[1].0.len() == 10 && m[2].0.len() == 6 && m[3].0.len() == 10 && m[4].0.len() == 6 && "self_contained"@.len() == 14);
    crate::table::lemma_first_row(m, "self_contained"@, 5);
    assert(m[0].0.len() == 15 && m[1].0.len() == 10 && m[2].0.len() == 6 && m[3].0.len() == 10 && m[4].0.len() == 6 && m[5].0.len() == 14 && "source_artifact_event_id"@.len() == 24);
    crate::table::lemma_first_row(m, "source_artifact_event_id"@, 6);
    assert(m[0].0.len() == 15 && m[1].0.len() == 10 && m[2].0.len() == 6 && m[3].0.len() == 10 && m[4].0.len() == 6 && m[5].0.len() == 14 && m[6].0.len() == 24 && "source_schema"@.len() == 13);
    crate::table::lemma_first_row(m, "source_schema"@, 7);
    assert(m[0].0.len() == 15 && m[1].0.len() == 10 && m[2].0.len() == 6 && m[3].0.len() == 10 && m[4].0.len() == 6 && m[5].0[1] == 'e' && m[6].0.len() == 24 && m[7].0.len() == 13 && "suggested_name"@.len() == 14 && "suggested_name"@[1] == 'u');
    crate::table::lemma_first_row(m, "suggested_name"@, 8);
}

} // verus!
