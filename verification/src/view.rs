//! A short look at the graph that is selected.

use crate::active_state::{Active, ActiveGraphState};
use crate::export::count::edges_of_artifact;
use crate::export::graph::{annotations, drawn, edge_total, Dag, ViewerDag};
use crate::json::{counted, Json, Members, Tree};
use crate::research_state::{ResearchState, Selected};
use crate::schema::{RESEARCH_DAG_SCHEMA, SCHEMA_NAME};
use crate::sdk::{answers, fault, input_error, ExtensionError};
use crate::slot_summary::budget::{artifact_summary, render_artifact_summary};
use crate::slot_summary::grounded::drawn_graphs_are_summarised;
use crate::table::{find, member};
use crate::text::{byte_count, join2, lemma_byte_len_bounds, same};
use vstd::prelude::*;

verus! {

pub const VIEW_SCHEMA: &'static str = "euler.causal_dag.view.v1";

/// What a graph of a schema is called.
pub open spec fn source_words(schema: Seq<char>) -> Seq<char> {
    if schema == RESEARCH_DAG_SCHEMA@ {
        "selected research projection"@
    } else {
        "active causal-dag graph"@
    }
}

fn source_name(schema: &str) -> (r: &'static str)
    ensures
        r@ == source_words(schema@),
{
    if same(schema, RESEARCH_DAG_SCHEMA) {
        "selected research projection"
    } else {
        "active causal-dag graph"
    }
}

/// The session of an artifact, where it is the one that is asked for.
pub open spec fn session_of(
    artifact: Tree,
    expected: Option<Seq<char>>,
    schema: Seq<char>,
) -> Result<Seq<char>, Seq<char>> {
    match artifact.at("session"@).text_at("id"@) {
        None => Err(source_words(schema) + " has no session id"@),
        Some(session) => if expected is Some && expected->0 != session {
            Err("session_id does not match the "@ + source_words(schema))
        } else {
            Ok(session)
        },
    }
}

/// The session of an artifact, where it is the one that is asked for.
pub fn artifact_session(artifact: &Json, expected: &Option<String>, schema: &str) -> (r: Result<
    String,
    ExtensionError,
>)
    ensures
        answers(r, session_of(artifact@, expected.deep_view(), schema@)),
{
    let found = match artifact.get("session") {
        Some(session) => session.text_at("id"),
        None => None,
    };
    let session = match found {
        Some(session) => session,
        None => {
            return Err(fault(join2(source_name(schema), " has no session id")));
        },
    };
    if let Some(expected) = expected {
        if !same(expected, session) {
            return Err(fault(join2("session_id does not match the ", source_name(schema))));
        }
    }
    Ok(session.clone())
}

/// What is wrong with the members of the input: none but `session_id` is taken.
pub open spec fn has_other(o: Seq<(Seq<char>, Tree)>, i: nat) -> bool
    decreases o.len() - i,
{
    i < o.len() && (o[i as int].0 != "session_id"@ || has_other(o, i + 1))
}

/// The session that a view is asked for.
pub open spec fn view_of(input: Tree) -> Result<Option<Seq<char>>, Seq<char>> {
    match input {
        Tree::Null => Ok(None),
        Tree::Object(o) => if has_other(o, 0) {
            Err("causal-dag view accepts only `session_id`"@)
        } else {
            match member(o, "session_id"@) {
                None => Ok(None),
                Some(Tree::Null) => Ok(None),
                Some(Tree::Text(id)) => if id.len() > 0 {
                    Ok(Some(id))
                } else {
                    Err("session_id must be a non-empty string"@)
                },
                Some(_) => Err("session_id must be a non-empty string"@),
            }
        },
        _ => Err("causal-dag view input must be a JSON object"@),
    }
}

fn names_other(o: &Members) -> (r: bool)
    ensures
        r == has_other(o.deep_view(), 0),
{
    let mut i: usize = 0;
    while i < o.len()
        invariant
            i <= o@.len(),
            has_other(o.deep_view(), 0) == has_other(o.deep_view(), i as nat),
        decreases o@.len() - i,
    {
        assert(o.deep_view()[i as int].0 == o@[i as int].0@);
        if !same(&o[i].0, "session_id") {
            return true;
        }
        i += 1;
    }
    false
}

/// The session that a view is asked for.
pub fn parse_session_id(input: &Json) -> (r: Result<Option<String>, ExtensionError>)
    ensures
        answers(r, view_of(input@)),
{
    broadcast use crate::json::object_model;

    let o = match input {
        Json::Null => {
            return Ok(None);
        },
        Json::Object(o) => o,
        _ => {
            return Err(input_error("causal-dag view input must be a JSON object"));
        },
    };
    if names_other(o) {
        return Err(input_error("causal-dag view accepts only `session_id`"));
    }
    match find(o, "session_id") {
        None => Ok(None),
        Some(Json::Null) => Ok(None),
        Some(Json::Text(id)) => {
            proof {
                lemma_byte_len_bounds(id@);
            }
            if byte_count(id) > 0 {
                Ok(Some(id.clone()))
            } else {
                Err(input_error("session_id must be a non-empty string"))
            }
        },
        Some(_) => Err(input_error("session_id must be a non-empty string")),
    }
}

/// What a view shows.
pub open spec fn view_rows(
    dag: Dag,
    event: Seq<char>,
    schema: Seq<char>,
    session: Seq<char>,
    summary: Seq<char>,
) -> Seq<(Seq<char>, Tree)> {
    seq![
        ("cross_arc_count"@, counted(annotations(dag.arcs, dag.arcs.len()))),
        ("edge_count"@, counted(edge_total(dag))),
        ("node_count"@, counted(dag.nodes.len())),
        ("schema"@, Tree::Text(VIEW_SCHEMA@)),
        ("session_id"@, Tree::Text(session)),
        ("source_artifact_event_id"@, Tree::Text(event)),
        ("source_schema"@, Tree::Text(schema)),
        ("summary"@, Tree::Text(summary)),
    ]
}

/// What a view of an artifact shows. A graph that can be drawn has a summary.
pub open spec fn viewed(
    artifact: Tree,
    event: Seq<char>,
    schema: Seq<char>,
    expected: Option<Seq<char>>,
) -> Result<Tree, Seq<char>> {
    match session_of(artifact, expected, schema) {
        Err(e) => Err(e),
        Ok(session) => match drawn(artifact) {
            Err(e) => Err(e),
            Ok(dag) => match artifact_summary(artifact) {
                Err(e) => Err(e),
                Ok(summary) => Ok(
                    Tree::Object(view_rows(dag, event, schema, session, summary->0)),
                ),
            },
        },
    }
}

/// What a view of an artifact shows.
pub fn view_output(
    artifact: &Json,
    artifact_event_id: &str,
    source_schema: &str,
    session_id: &Option<String>,
) -> (r: Result<Json, ExtensionError>)
    ensures
        answers(
            r,
            viewed(artifact@, artifact_event_id@, source_schema@, session_id.deep_view()),
        ),
{
    broadcast use crate::json::object_model;

    let session = artifact_session(artifact, session_id, source_schema)?;
    let dag = ViewerDag::from_artifact(artifact)?;
    proof {
        drawn_graphs_are_summarised(artifact@);
    }
    let summary = match render_artifact_summary(artifact)? {
        Some(summary) => summary,
        None => String::new(),
    };
    let edges: usize = edges_of_artifact(&dag, artifact);
    assert(dag.deep_view().arcs.len() == dag.arcs@.len());
    let rows = vec![
        ("cross_arc_count".to_owned(), Json::of_count(dag.cross_arc_count())),
        ("edge_count".to_owned(), Json::of_count(edges)),
        ("node_count".to_owned(), Json::of_count(dag.node_count())),
        ("schema".to_owned(), Json::of_text(VIEW_SCHEMA)),
        ("session_id".to_owned(), Json::of_text(&session)),
        ("source_artifact_event_id".to_owned(), Json::of_text(artifact_event_id)),
        ("source_schema".to_owned(), Json::of_text(source_schema)),
        ("summary".to_owned(), Json::of_text(&summary)),
    ];
    assert(rows.deep_view() =~= view_rows(
        drawn(artifact@)->Ok_0,
        artifact_event_id@,
        source_schema@,
        session@,
        summary@,
    ));
    Ok(Json::Object(rows))
}

/// What a view of a research state shows.
pub open spec fn research_viewed(state: Selected, expected: Option<Seq<char>>) -> Result<
    Tree,
    Seq<char>,
> {
    match state.graph {
        None => Err(
            "research-record pilot has no accepted projection yet; run an observed pilot turn before viewing"@,
        ),
        Some(graph) => viewed(
            graph.artifact,
            graph.record.persisted_event_id,
            RESEARCH_DAG_SCHEMA@,
            expected,
        ),
    }
}

/// What a view of a research state shows.
pub fn view_research(state: &ResearchState, session_id: &Option<String>) -> (r: Result<
    Json,
    ExtensionError,
>)
    ensures
        answers(r, research_viewed(state.deep_view(), session_id.deep_view())),
{
    match (state.graph_value(), state.graph_artifact_event_id()) {
        (Some(artifact), Some(event)) => view_output(
            artifact,
            event,
            RESEARCH_DAG_SCHEMA,
            session_id,
        ),
        _ => Err(
            input_error(
                "research-record pilot has no accepted projection yet; run an observed pilot turn before viewing",
            ),
        ),
    }
}

/// What a view of the active graph shows.
pub open spec fn active_viewed(active: Option<Active>, expected: Option<Seq<char>>) -> Result<
    Tree,
    Seq<char>,
> {
    match active {
        None => Err("no active causal DAG; run causal-dag.refresh before viewing"@),
        Some(active) => viewed(
            active.artifact,
            active.artifact_event_id,
            SCHEMA_NAME@,
            expected,
        ),
    }
}

/// What a view of the active graph shows.
pub fn view_active(active: &Option<ActiveGraphState>, session_id: &Option<String>) -> (r: Result<
    Json,
    ExtensionError,
>)
    ensures
        answers(r, active_viewed(active.deep_view(), session_id.deep_view())),
{
    match active {
        Some(active) => view_output(
            active.artifact(),
            active.artifact_event_id(),
            SCHEMA_NAME,
            session_id,
        ),
        None => Err(
            input_error("no active causal DAG; run causal-dag.refresh before viewing"),
        ),
    }
}

/// A view is of the session that was asked for, and tells what the graph holds, from which
/// artifact and by which schema it was read, and its summary.
pub proof fn views_tell_what_the_graph_holds(
    artifact: Tree,
    event: Seq<char>,
    schema: Seq<char>,
    expected: Option<Seq<char>>,
)
    requires
        viewed(artifact, event, schema, expected) is Ok,
    ensures
        ({
            let t = viewed(artifact, event, schema, expected)->Ok_0;
            let dag = drawn(artifact)->Ok_0;
            &&& artifact.at("session"@).text_at("id"@) is Some
            &&& expected is Some ==> artifact.at("session"@).text_at("id"@) == expected
            &&& t.text_at("session_id"@) == artifact.at("session"@).text_at("id"@)
            &&& t.at("node_count"@) == counted(dag.nodes.len())
            &&& t.at("edge_count"@) == counted(edge_total(dag))
            &&& t.at("cross_arc_count"@) == counted(annotations(dag.arcs, dag.arcs.len()))
            &&& t.text_at("schema"@) == Some("euler.causal_dag.view.v1"@)
            &&& t.text_at("source_artifact_event_id"@) == Some(event)
            &&& t.text_at("source_schema"@) == Some(schema)
            &&& t.text_at("summary"@) == Some(artifact_summary(artifact)->Ok_0->0)
        }),
{
    let o = viewed(artifact, event, schema, expected)->Ok_0->Object_0;
    reveal_strlit("cross_arc_count");
    reveal_strlit("edge_count");
    reveal_strlit("node_count");
    reveal_strlit("schema");
    reveal_strlit("session_id");
    reveal_strlit("source_artifact_event_id");
    reveal_strlit("source_schema");
    reveal_strlit("summary");
    crate::table::lemma_first_row(o, "cross_arc_count"@, 0);
    assert(o[0].0.len() == 15 && "edge_count"@.len() == 10);
    crate::table::lemma_first_row(o, "edge_count"@, 1);
    assert(o[0].0.len() == 15 && o[1].0[0] == 'e' && "node_count"@.len() == 10 && "node_count"@[0] == 'n');
    crate::table::lemma_first_row(o, "node_count"@, 2);
    assert(o[0].0.len() == 15 && o[1].0.len() == 10 && o[2].0.len() == 10 && "schema"@.len() == 6);
    crate::table::lemma_first_row(o, "schema"@, 3);
    assert(o[0].0.len() == 15 && o[1].0[0] == 'e' && o[2].0[0] == 'n' && o[3].0.len() == 6 && "session_id"@.len() == 10 && "session_id"@[0] == 's');
    crate::table::lemma_first_row(o, "session_id"@, 4);
    assert(o[0].0.len() == 15 && o[1].0.len() == 10 && o[2].0.len() == 10 && o[3].0.len() == 6 && o[4].0.len() == 10 && "source_artifact_event_id"@.len() == 24);
    crate::table::lemma_first_row(o, "source_artifact_event_id"@, 5);
    assert(o[0].0.len() == 15 && o[1].0.len() == 10 && o[2].0.len() == 10 && o[3].0.len() == 6 && o[4].0.len() == 10 && o[5].0.len() == 24 && "source_schema"@.len() == 13);
    crate::table::lemma_first_row(o, "source_schema"@, 6);
    assert(o[0].0.len() == 15 && o[1].0.len() == 10 && o[2].0.len() == 10 && o[3].0.len() == 6 && o[4].0.len() == 10 && o[5].0.len() == 24 && o[6].0.len() == 13 && "summary"@.len() == 7);
    crate::table::lemma_first_row(o, "summary"@, 7);
}

/// What is viewed is the selected graph of the research record where that is kept, else the
/// active graph; and nothing where there is none.
pub proof fn the_selected_graph_is_viewed(
    state: Selected,
    active: Option<Active>,
    expected: Option<Seq<char>>,
)
    ensures
        state.graph is None ==> research_viewed(state, expected) is Err,
        state.graph matches Some(graph) ==> research_viewed(state, expected) == viewed(
            graph.artifact,
            graph.record.persisted_event_id,
            "euler.causal_dag.v4"@,
            expected,
        ),
        active is None ==> active_viewed(active, expected) is Err,
        active matches Some(now) ==> active_viewed(active, expected) == viewed(
            now.artifact,
            now.artifact_event_id,
            "euler.causal_dag.v3"@,
            expected,
        ),
{
}

proof fn lemma_has_other(o: Seq<(Seq<char>, Tree)>, i: nat)
    ensures
        has_other(o, i) <==> exists|k: int|
            i <= k < o.len() && (#[trigger] o[k]).0 != "session_id"@,
    decreases o.len() - i,
{
    if i < o.len() {
        lemma_has_other(o, i + 1);
    }
}

/// A view is asked of the graph of a session, or of whichever is selected; nothing else can be
/// asked of it.
pub proof fn views_are_asked_by_session(o: Seq<(Seq<char>, Tree)>)
    ensures
        view_of(Tree::Null) == Ok::<Option<Seq<char>>, Seq<char>>(None),
        (exists|k: int| 0 <= k < o.len() && (#[trigger] o[k]).0 != "session_id"@) ==> view_of(
            Tree::Object(o),
        ) is Err,
        view_of(Tree::Object(o)) matches Ok(Some(id)) ==> id.len() > 0 && member(o, "session_id"@)
            == Some(Tree::Text(id)),
        view_of(Tree::Object(o)) == Ok::<Option<Seq<char>>, Seq<char>>(None) ==> member(
            o,
            "session_id"@,
        ) is None || member(o, "session_id"@) == Some(Tree::Null),
{
    lemma_has_other(o, 0);
}

/// A graph is called by what it is: the projection of the record, or the active graph.
pub proof fn graphs_are_called_by_what_they_are(schema: Seq<char>)
    ensures
        source_words("euler.causal_dag.v4"@) == "selected research projection"@,
        schema != "euler.causal_dag.v4"@ ==> source_words(schema) == "active causal-dag graph"@,
{
}

} // verus!
