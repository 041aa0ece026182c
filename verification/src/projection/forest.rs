//! Projections of session events: the forest of an artifact and what is said about it.

use super::hints::{
    carries_hint, has_semantic_hints, hint_headers_fault, validate_semantic_hint_headers,
};
use super::labels::{
    backbone_label, line_label, node_id, node_name, structural_backbone_label, tree_label,
};
use super::records::{
    chronology_warnings, degraded_warnings, event_edge, event_edge_value, event_node,
    event_node_value, warning, warning_tree, Linkage,
};
use super::semantic::{
    graph_of_events, graph_of_hint, ProjectionDiagnostics, Semantic, SemanticGraph,
};
use super::structure::{
    chronology_counted, links_of, nothing_counted, root_of, tree_counted, within,
    StructuralTopology,
};
use super::revision::values_of;
use crate::active_state::{Active, ActiveGraphState};
use crate::construction::{
    making_tree, snapshot_making, Construction, ConstructionOperation, Making,
};
use crate::event::{Event, EventEnvelope};
use crate::json::{
    counted, json_text, optional_text, texts, write_json, Json, Members, Tree,
};
use crate::schema::{EXTENSION_ID, MEDIA_TYPE_JSON, SCHEMA_NAME};
use crate::sdk::{answers, input_error, ExtensionError, Page, ProvenancePage};
use crate::table::{in_order, put_in_order};
use crate::text::same;
use vstd::prelude::*;

verus! {

/// When an artifact without events says it was generated.
pub const EMPTY_GENERATED_AT: &'static str = "1970-01-01T00:00:00Z";

/// A projected graph.
pub struct Projection {
    session_id: String,
    generated_at: String,
    event_range_start: Json,
    event_range_end: Json,
    event_range_complete: bool,
    watermark_event_id: Json,
    construction: Construction,
    roots: Vec<String>,
    nodes: Vec<Json>,
    edges: Vec<Json>,
    warnings: Vec<Json>,
    degraded: bool,
    degraded_chronology: bool,
    diagnostics: ProjectionDiagnostics,
}

/// What a [`Projection`] holds.
#[verifier::ext_equal]
pub struct Projected {
    pub session_id: Seq<char>,
    pub generated_at: Seq<char>,
    pub event_range_start: Tree,
    pub event_range_end: Tree,
    pub event_range_complete: bool,
    pub watermark_event_id: Tree,
    pub construction: Making,
    pub roots: Seq<Seq<char>>,
    pub nodes: Seq<Tree>,
    pub edges: Seq<Tree>,
    pub warnings: Seq<Tree>,
    pub degraded: bool,
    pub degraded_chronology: bool,
    pub diagnostics: ProjectionDiagnostics,
}

impl DeepView for Projection {
    type V = Projected;

    closed spec fn deep_view(&self) -> Projected {
        Projected {
            session_id: self.session_id@,
            generated_at: self.generated_at@,
            event_range_start: self.event_range_start@,
            event_range_end: self.event_range_end@,
            event_range_complete: self.event_range_complete,
            watermark_event_id: self.watermark_event_id@,
            construction: self.construction.deep_view(),
            roots: self.roots.deep_view(),
            nodes: self.nodes.deep_view(),
            edges: self.edges.deep_view(),
            warnings: self.warnings.deep_view(),
            degraded: self.degraded,
            degraded_chronology: self.degraded_chronology,
            diagnostics: self.diagnostics,
        }
    }
}

/// The projection of a page without events.
pub open spec fn projected_empty(session: Option<Seq<char>>) -> Result<Projected, Seq<char>> {
    match session {
        None => Err("empty causal-dag export requires a session_id"@),
        Some(session_id) => Ok(
            Projected {
                session_id,
                generated_at: EMPTY_GENERATED_AT@,
                event_range_start: Tree::Null,
                event_range_end: Tree::Null,
                event_range_complete: true,
                watermark_event_id: Tree::Null,
                construction: snapshot_making(),
                roots: Seq::empty(),
                nodes: Seq::empty(),
                edges: Seq::empty(),
                warnings: seq![
                    warning_tree(
                        "empty_forest"@,
                        "info"@,
                        "bounded provenance query returned no events"@,
                        Seq::empty(),
                        Seq::empty(),
                    ),
                ],
                degraded: false,
                degraded_chronology: false,
                diagnostics: nothing_counted(),
            },
        ),
    }
}

/// The nodes of a chronology.
pub open spec fn chronology_nodes(events: Seq<Event>) -> Seq<Tree> {
    Seq::new(
        events.len(),
        |i: int|
            event_node(Linkage::Order, i as nat, events[i], 0, line_label(i as nat)),
    )
}

/// The edges of a chronology: from each event to the next.
pub open spec fn chronology_edges(events: Seq<Event>) -> Seq<Tree> {
    Seq::new(
        (events.len() - 1) as nat,
        |i: int|
            event_edge(
                Linkage::Order,
                i as nat,
                i as nat,
                events[i],
                (i + 1) as nat,
                events[i + 1],
            ),
    )
}

/// The projection of some events by their order.
pub open spec fn projected_chronology(
    events: Seq<Event>,
    session_id: Seq<char>,
    complete: bool,
) -> Projected {
    let last = events[events.len() - 1];
    let edges = (events.len() - 1) as nat;
    Projected {
        session_id,
        generated_at: last.ts,
        event_range_start: Tree::Text(events[0].id),
        event_range_end: Tree::Text(last.id),
        event_range_complete: complete,
        watermark_event_id: Tree::Text(last.id),
        construction: snapshot_making(),
        roots: seq![node_name(0)],
        nodes: chronology_nodes(events),
        edges: chronology_edges(events),
        warnings: chronology_warnings(events.len(), edges),
        degraded: true,
        degraded_chronology: edges > 0,
        diagnostics: chronology_counted(events.len(), edges),
    }
}

/// The nodes of a tree of events.
pub open spec fn tree_nodes(events: Seq<Event>, ups: Seq<Option<usize>>) -> Seq<Tree> {
    Seq::new(
        events.len(),
        |i: int|
            event_node(
                Linkage::Parents,
                i as nat,
                events[i],
                root_of(ups, 0),
                tree_label(ups, i, ups.len()),
            ),
    )
}

/// The edges of a tree of events, from event `i` on: one for each event that has a parent, in
/// the order of the events.
pub open spec fn tree_edges(
    events: Seq<Event>,
    ups: Seq<Option<usize>>,
    i: nat,
    edges: Seq<Tree>,
) -> Seq<Tree>
    decreases ups.len() - i,
{
    if i >= ups.len() {
        edges
    } else {
        match ups[i as int] {
            None => tree_edges(events, ups, i + 1, edges),
            Some(p) => tree_edges(
                events,
                ups,
                i + 1,
                edges.push(
                    event_edge(
                        Linkage::Parents,
                        edges.len(),
                        p as nat,
                        events[p as int],
                        i,
                        events[i as int],
                    ),
                ),
            ),
        }
    }
}

/// The projection of some events by their parents.
pub open spec fn projected_tree(
    events: Seq<Event>,
    ups: Seq<Option<usize>>,
    session_id: Seq<char>,
    complete: bool,
) -> Projected {
    let last = events[events.len() - 1];
    let edges = tree_edges(events, ups, 0, Seq::empty());
    Projected {
        session_id,
        generated_at: last.ts,
        event_range_start: Tree::Text(events[0].id),
        event_range_end: Tree::Text(last.id),
        event_range_complete: complete,
        watermark_event_id: Tree::Text(last.id),
        construction: snapshot_making(),
        roots: seq![node_name(root_of(ups, 0))],
        nodes: tree_nodes(events, ups),
        edges,
        warnings: Seq::empty(),
        degraded: false,
        degraded_chronology: false,
        diagnostics: tree_counted(ups, edges.len()),
    }
}

/// A value of the artifact that is selected.
pub open spec fn of_active(active: Option<Active>, part: Seq<char>, name: Seq<char>) -> Option<
    Tree,
> {
    match active {
        None => None,
        Some(state) => state.artifact.at(part).get(name),
    }
}

/// A value of the range of events of the artifact that is selected.
pub open spec fn of_range(active: Option<Active>, name: Seq<char>) -> Option<Tree> {
    match active {
        None => None,
        Some(state) => state.artifact.at("session"@).at("event_range"@).get(name),
    }
}

/// The session of the artifact that is selected.
pub open spec fn active_session(active: Option<Active>) -> Option<Seq<char>> {
    match of_active(active, "session"@, "id"@) {
        Some(Tree::Text(id)) => Some(id),
        _ => None,
    }
}

/// The projection of a semantic graph over the events it was made of, on top of the graph that
/// is selected.
pub open spec fn projected_semantic(
    events: Seq<Event>,
    session_id: Seq<char>,
    complete: bool,
    graph: Semantic,
    construction: Making,
    active: Option<Active>,
) -> Projected {
    Projected {
        session_id,
        generated_at: if events.len() > 0 {
            events[events.len() - 1].ts
        } else {
            match active {
                Some(state) => match state.artifact.text_at("generated_at"@) {
                    Some(at) => at,
                    None => EMPTY_GENERATED_AT@,
                },
                None => EMPTY_GENERATED_AT@,
            }
        },
        event_range_start: match of_range(active, "start"@) {
            Some(start) => start,
            None => if events.len() > 0 {
                Tree::Text(events[0].id)
            } else {
                Tree::Null
            },
        },
        event_range_end: last_id_or(events, of_range(active, "end"@)),
        event_range_complete: complete,
        watermark_event_id: last_id_or(
            events,
            of_active(active, "projection"@, "watermark_event_id"@),
        ),
        construction,
        roots: graph.roots,
        nodes: values_of(graph.nodes),
        edges: values_of(graph.edges),
        warnings: Seq::empty(),
        degraded: false,
        degraded_chronology: false,
        diagnostics: graph.diagnostics,
    }
}

/// The id of the last event, or else a value that is at hand, or else null.
pub open spec fn last_id_or(events: Seq<Event>, other: Option<Tree>) -> Tree {
    if events.len() > 0 {
        Tree::Text(events[events.len() - 1].id)
    } else {
        match other {
            Some(value) => value,
            None => Tree::Null,
        }
    }
}

/// Whether all events are of one session.
pub open spec fn one_session(events: Seq<Event>, session: Seq<char>) -> bool {
    forall|i: int| 0 <= i < events.len() ==> (#[trigger] events[i]).session == session
}

/// The projection of a page of events: by the hints that they carry, or else by their parents
/// where these make one tree, or else by their order.
pub open spec fn projected(
    events: Seq<Event>,
    session: Option<Seq<char>>,
    complete: bool,
) -> Result<Projected, Seq<char>> {
    if events.len() == 0 {
        projected_empty(session)
    } else {
        let id = events[0].session;
        if session is Some && session != Some(id) {
            Err("session_id does not match bounded event page"@)
        } else if !one_session(events, id) {
            Err("causal-dag export requires events from one session"@)
        } else if exists|i: int| 0 <= i < events.len() && carries_hint(#[trigger] events[i]) {
            match hint_headers_fault(events, 0) {
                Some(e) => Err(e),
                None => if !complete {
                    Err("causal-dag semantic hints require a complete bounded event page"@)
                } else {
                    match graph_of_events(events) {
                        Err(e) => Err(e),
                        Ok(graph) => Ok(
                            projected_semantic(
                                events,
                                id,
                                complete,
                                graph,
                                snapshot_making(),
                                None,
                            ),
                        ),
                    }
                },
            }
        } else {
            match links_of(events) {
                Some(ups) => Ok(projected_tree(events, ups, id, complete)),
                None => Ok(projected_chronology(events, id, complete)),
            }
        }
    }
}

/// The session that an observation speaks of.
pub open spec fn observed_session(events: Seq<Event>, active: Option<Active>) -> Option<
    Seq<char>,
> {
    if events.len() > 0 {
        Some(events[0].session)
    } else {
        active_session(active)
    }
}

/// The projection of an observation on top of the graph that is selected.
pub open spec fn revised(
    events: Seq<Event>,
    hints: Tree,
    session: Option<Seq<char>>,
    active: Option<Active>,
    construction: Making,
) -> Result<Projected, Seq<char>> {
    match observed_session(events, active) {
        None => Err("causal-dag observer revision requires events or an active graph"@),
        Some(id) => if session is Some && session != Some(id) {
            Err("session_id does not match bounded event page"@)
        } else if !one_session(events, id) {
            Err("causal-dag observer revision requires events from one session"@)
        } else if active_session(active) is Some && active_session(active) != Some(id) {
            Err("active causal-dag graph belongs to a different session"@)
        } else {
            match graph_of_hint(
                events,
                hints,
                active,
                construction.operation == ConstructionOperation::Incremental,
            ) {
                Err(e) => Err(e),
                Ok(graph) => Ok(
                    projected_semantic(events, id, true, graph, construction, active),
                ),
            }
        },
    }
}

fn same_as_first(events: &Vec<EventEnvelope>, session: &str) -> (r: bool)
    ensures
        r == one_session(events.deep_view(), session@),
{
    let mut i: usize = 0;
    while i < events.len()
        invariant
            i <= events@.len(),
            forall|j: int| 0 <= j < i ==> (#[trigger] events.deep_view()[j]).session == session@,
        decreases events@.len() - i,
    {
        assert(events.deep_view()[i as int].session == events@[i as int].session@);
        if !same(&events[i].session, session) {
            return false;
        }
        i += 1;
    }
    true
}

fn active_value(active: Option<&ActiveGraphState>, part: &str, name: &str) -> (r: Option<Json>)
    ensures
        r.deep_view() == of_active(active.deep_view(), part@, name@),
{
    let state = match active {
        Some(state) => state,
        None => return None,
    };
    match state.artifact().get(part) {
        Some(value) => match value.get(name) {
            Some(value) => Some(value.clone()),
            None => None,
        },
        None => None,
    }
}

fn range_value(active: Option<&ActiveGraphState>, name: &str) -> (r: Option<Json>)
    ensures
        r.deep_view() == of_range(active.deep_view(), name@),
{
    match active_value(active, "session", "event_range") {
        Some(range) => match range.get(name) {
            Some(value) => Some(value.clone()),
            None => None,
        },
        None => None,
    }
}

fn session_of_active(active: Option<&ActiveGraphState>) -> (r: Option<String>)
    ensures
        r.deep_view() == active_session(active.deep_view()),
{
    match active_value(active, "session", "id") {
        Some(Json::Text(id)) => Some(id),
        _ => None,
    }
}

fn last_id(events: &Vec<EventEnvelope>, other: Option<Json>) -> (r: Json)
    ensures
        r@ == last_id_or(events.deep_view(), other.deep_view()),
{
    if events.len() > 0 {
        assert(events.deep_view()[events@.len() - 1] == events@[events@.len() - 1]@);
        Json::of_text(&events[events.len() - 1].id)
    } else {
        match other {
            Some(value) => value,
            None => Json::Null,
        }
    }
}

fn values(rows: Members) -> (r: Vec<Json>)
    ensures
        r.deep_view() == values_of(rows.deep_view()),
{
    let mut out: Vec<Json> = Vec::new();
    let mut i: usize = 0;
    while i < rows.len()
        invariant
            i <= rows@.len(),
            out@.len() == i,
            forall|j: int| 0 <= j < i ==> (#[trigger] out@[j])@ == rows@[j].1@,
        decreases rows@.len() - i,
    {
        out.push(rows[i].1.clone());
        i += 1;
    }
    assert(out.deep_view() =~= values_of(rows.deep_view()));
    out
}

impl Projection {
    pub fn from_events(
        events: &Vec<EventEnvelope>,
        input_session_id: &Option<String>,
        event_range_complete: bool,
    ) -> (r: Result<Self, ExtensionError>)
        ensures
            answers(
                r,
                projected(
                    events.deep_view(),
                    input_session_id.deep_view(),
                    event_range_complete,
                ),
            ),
    {
        if events.len() == 0 {
            assert(events.deep_view().len() == 0);
            return Self::empty(input_session_id);
        }
        assert(events.deep_view().len() > 0);
        assert(events.deep_view()[0] == events@[0]@);
        let session_id = events[0].session.clone();
        if let Some(input_session_id) = input_session_id {
            if !same(input_session_id, &session_id) {
                return Err(input_error("session_id does not match bounded event page"));
            }
        }
        if !same_as_first(events, &session_id) {
            return Err(input_error("causal-dag export requires events from one session"));
        }
        if has_semantic_hints(events) {
            validate_semantic_hint_headers(events)?;
            if !event_range_complete {
                return Err(
                    input_error("causal-dag semantic hints require a complete bounded event page"),
                );
            }
            let graph = SemanticGraph::from_events(events)?;
            return Ok(
                Self::semantic_graph(
                    events,
                    session_id,
                    event_range_complete,
                    graph,
                    Construction::snapshot(),
                    None,
                ),
            );
        }
        match StructuralTopology::from_events(events) {
            Some(topology) => Ok(
                Self::structural(events, session_id, event_range_complete, topology),
            ),
            None => Ok(Self::chronology(events, session_id, event_range_complete)),
        }
    }

    pub fn from_observer_revision(
        events: &Vec<EventEnvelope>,
        hints: &Json,
        input_session_id: &Option<String>,
        active: Option<&ActiveGraphState>,
        construction: Construction,
    ) -> (r: Result<Self, ExtensionError>)
        ensures
            answers(
                r,
                revised(
                    events.deep_view(),
                    hints@,
                    input_session_id.deep_view(),
                    active.deep_view(),
                    construction.deep_view(),
                ),
            ),
    {
        let session = if events.len() > 0 {
            assert(events.deep_view()[0] == events@[0]@);
            Some(events[0].session.clone())
        } else {
            session_of_active(active)
        };
        assert(session.deep_view() == observed_session(
            events.deep_view(),
            active.deep_view(),
        ));
        let session_id = match session {
            Some(id) => id,
            None => {
                return Err(
                    input_error("causal-dag observer revision requires events or an active graph"),
                );
            },
        };
        if let Some(input_session_id) = input_session_id {
            if !same(input_session_id, &session_id) {
                return Err(input_error("session_id does not match bounded event page"));
            }
        }
        if !same_as_first(events, &session_id) {
            return Err(
                input_error("causal-dag observer revision requires events from one session"),
            );
        }
        if let Some(active_session) = session_of_active(active) {
            if !same(&active_session, &session_id) {
                return Err(input_error("active causal-dag graph belongs to a different session"));
            }
        }
        let fold_prior = construction.operation() == ConstructionOperation::Incremental;
        let graph = SemanticGraph::from_hint_value(events, hints, active, fold_prior)?;
        Ok(Self::semantic_graph(events, session_id, true, graph, construction, active))
    }

    fn semantic_graph(
        events: &Vec<EventEnvelope>,
        session_id: String,
        event_range_complete: bool,
        graph: SemanticGraph,
        construction: Construction,
        active: Option<&ActiveGraphState>,
    ) -> (r: Self)
        ensures
            r.deep_view() == projected_semantic(
                events.deep_view(),
                session_id@,
                event_range_complete,
                graph.deep_view(),
                construction.deep_view(),
                active.deep_view(),
            ),
    {
        let generated_at = if events.len() > 0 {
            assert(events.deep_view()[events@.len() - 1] == events@[events@.len() - 1]@);
            events[events.len() - 1].ts.clone()
        } else {
            match active {
                Some(state) => match state.artifact().text_at("generated_at") {
                    Some(at) => at.clone(),
                    None => EMPTY_GENERATED_AT.to_owned(),
                },
                None => EMPTY_GENERATED_AT.to_owned(),
            }
        };
        let event_range_start = match range_value(active, "start") {
            Some(start) => start,
            None => {
                if events.len() > 0 {
                    assert(events.deep_view()[0] == events@[0]@);
                    Json::of_text(&events[0].id)
                } else {
                    Json::Null
                }
            },
        };
        Projection {
            session_id,
            generated_at,
            event_range_start,
            event_range_end: last_id(events, range_value(active, "end")),
            event_range_complete,
            watermark_event_id: last_id(
                events,
                active_value(active, "projection", "watermark_event_id"),
            ),
            construction,
            roots: graph.roots,
            nodes: values(graph.nodes),
            edges: values(graph.edges),
            warnings: nothing(),
            degraded: false,
            degraded_chronology: false,
            diagnostics: graph.diagnostics,
        }
    }

    fn chronology(
        events: &Vec<EventEnvelope>,
        session_id: String,
        event_range_complete: bool,
    ) -> (r: Self)
        requires
            events@.len() > 0,
        ensures
            r.deep_view() == projected_chronology(
                events.deep_view(),
                session_id@,
                event_range_complete,
            ),
    {
        let n: usize = events.len();
        let mut nodes: Vec<Json> = Vec::new();
        let mut i: usize = 0;
        while i < n
            invariant
                i <= n == events@.len(),
                nodes@.len() == i,
                forall|j: int|
                    0 <= j < i ==> (#[trigger] nodes@[j])@ == event_node(
                        Linkage::Order,
                        j as nat,
                        events.deep_view()[j],
                        0,
                        line_label(j as nat),
                    ),
            decreases n - i,
        {
            nodes.push(event_node_value(Linkage::Order, i, &events[i], 0, &backbone_label(i)));
            i += 1;
        }
        let mut edges: Vec<Json> = Vec::new();
        let mut k: usize = 0;
        while k < n - 1
            invariant
                k <= n - 1,
                n == events@.len(),
                edges@.len() == k,
                forall|j: int|
                    0 <= j < k ==> (#[trigger] edges@[j])@ == event_edge(
                        Linkage::Order,
                        j as nat,
                        j as nat,
                        events.deep_view()[j],
                        (j + 1) as nat,
                        events.deep_view()[j + 1],
                    ),
            decreases n - k,
        {
            edges.push(
                event_edge_value(Linkage::Order, k, k, &events[k], k + 1, &events[k + 1]),
            );
            k += 1;
        }
        assert(nodes.deep_view() =~= chronology_nodes(events.deep_view()));
        assert(edges.deep_view() =~= chronology_edges(events.deep_view()));
        let roots = vec![node_id(0)];
        assert(roots.deep_view() =~= seq![node_name(0)]);
        let last = &events[n - 1];
        assert(events.deep_view()[n - 1] == last@);
        assert(events.deep_view()[0] == events@[0]@);
        Projection {
            session_id,
            generated_at: last.ts.clone(),
            event_range_start: Json::of_text(&events[0].id),
            event_range_end: Json::of_text(&last.id),
            event_range_complete,
            watermark_event_id: Json::of_text(&last.id),
            construction: Construction::snapshot(),
            roots,
            nodes,
            edges,
            warnings: degraded_warnings(n, n - 1),
            degraded: true,
            degraded_chronology: n > 1,
            diagnostics: ProjectionDiagnostics::degraded(n, n - 1),
        }
    }

    fn structural(
        events: &Vec<EventEnvelope>,
        session_id: String,
        event_range_complete: bool,
        topology: StructuralTopology,
    ) -> (r: Self)
        requires
            events@.len() > 0,
            links_of(events.deep_view()) == Some(topology.ups@),
            topology.ups@.len() == events@.len(),
            within(topology.ups@),
        ensures
            r.deep_view() == projected_tree(
                events.deep_view(),
                topology.ups@,
                session_id@,
                event_range_complete,
            ),
    {
        let n: usize = events.len();
        let root: usize = topology.root_index();
        let ghost ups = topology.ups@;
        let mut nodes: Vec<Json> = Vec::new();
        let mut i: usize = 0;
        while i < n
            invariant
                i <= n == events@.len(),
                ups == topology.ups@,
                ups.len() == n,
                within(ups),
                root == root_of(ups, 0),
                nodes@.len() == i,
                forall|j: int|
                    0 <= j < i ==> (#[trigger] nodes@[j])@ == event_node(
                        Linkage::Parents,
                        j as nat,
                        events.deep_view()[j],
                        root_of(ups, 0),
                        tree_label(ups, j, n as nat),
                    ),
            decreases n - i,
        {
            let label = structural_backbone_label(&topology.ups, i, n);
            nodes.push(event_node_value(Linkage::Parents, i, &events[i], root, &label));
            i += 1;
        }
        let mut edges: Vec<Json> = Vec::new();
        let mut k: usize = 0;
        assert(edges.deep_view() =~= Seq::empty());
        while k < n
            invariant
                k <= n == events@.len(),
                ups == topology.ups@,
                ups.len() == n,
                within(ups),
                edges@.len() <= k,
                tree_edges(events.deep_view(), ups, 0, Seq::empty()) == tree_edges(
                    events.deep_view(),
                    ups,
                    k as nat,
                    edges.deep_view(),
                ),
            decreases n - k,
        {
            if let Some(p) = topology.ups[k] {
                assert(ups[k as int] matches Some(q) && q == p);
                assert(events.deep_view()[p as int] == events@[p as int]@);
                assert(events.deep_view()[k as int] == events@[k as int]@);
                let ghost was = edges.deep_view();
                let edge = event_edge_value(
                    Linkage::Parents,
                    edges.len(),
                    p,
                    &events[p],
                    k,
                    &events[k],
                );
                let ghost model = edge@;
                edges.push(edge);
                assert(edges.deep_view() =~= was.push(model));
            }
            k += 1;
        }
        assert(nodes.deep_view() =~= tree_nodes(events.deep_view(), ups));
        assert(edges.deep_view().len() == edges@.len());
        let diagnostics = ProjectionDiagnostics::structural(&topology, edges.len());
        let roots = vec![node_id(root)];
        assert(roots.deep_view() =~= seq![node_name(root as nat)]);
        let last = &events[n - 1];
        assert(events.deep_view()[n - 1] == last@);
        assert(events.deep_view()[0] == events@[0]@);
        Projection {
            session_id,
            generated_at: last.ts.clone(),
            event_range_start: Json::of_text(&events[0].id),
            event_range_end: Json::of_text(&last.id),
            event_range_complete,
            watermark_event_id: Json::of_text(&last.id),
            construction: Construction::snapshot(),
            roots,
            nodes,
            edges,
            warnings: nothing(),
            degraded: false,
            degraded_chronology: false,
            diagnostics,
        }
    }

    fn empty(input_session_id: &Option<String>) -> (r: Result<Self, ExtensionError>)
        ensures
            answers(r, projected_empty(input_session_id.deep_view())),
    {
        let session_id = match input_session_id {
            Some(id) => id.clone(),
            None => {
                return Err(input_error("empty causal-dag export requires a session_id"));
            },
        };
        let none: Vec<String> = Vec::new();
        assert(none.deep_view() =~= Seq::empty());
        let warnings = vec![
            warning(
                "empty_forest",
                "info",
                "bounded provenance query returned no events",
                &none,
                &none,
            ),
        ];
        assert(warnings.deep_view() =~= projected_empty(input_session_id.deep_view())->Ok_0.warnings);
        Ok(
            Projection {
                session_id,
                generated_at: EMPTY_GENERATED_AT.to_owned(),
                event_range_start: Json::Null,
                event_range_end: Json::Null,
                event_range_complete: true,
                watermark_event_id: Json::Null,
                construction: Construction::snapshot(),
                roots: none,
                nodes: nothing(),
                edges: nothing(),
                warnings,
                degraded: false,
                degraded_chronology: false,
                diagnostics: ProjectionDiagnostics::empty(),
            },
        )
    }
}

fn nothing() -> (r: Vec<Json>)
    ensures
        r.deep_view() == Seq::<Tree>::empty(),
{
    let none: Vec<Json> = Vec::new();
    assert(none.deep_view() =~= Seq::empty());
    none
}

/// The quotients that an artifact names, as JSON numbers.
pub struct Ratios {
    pub branching: Json,
    pub sequence: Json,
}

/// What an artifact says of the counts of its forest.
pub open spec fn diagnostics_tree(p: Projected, branching: Tree, sequence: Tree) -> Tree {
    let d = p.diagnostics;
    Tree::Object(
        seq![
            ("annotation_edge_count"@, counted(d.annotation_edge_count as nat)),
            ("backbone_edge_count"@, counted(d.backbone_edge_count as nat)),
            ("branching_ratio"@, branching),
            ("degraded_chronology"@, Tree::Bool(p.degraded_chronology)),
            ("edge_count"@, counted(p.edges.len())),
            ("fork_count"@, counted(d.fork_count as nat)),
            ("inferred_edge_count"@, counted(d.inferred_edge_count as nat)),
            ("leaf_count"@, counted(d.leaf_count as nat)),
            ("maximum_depth"@, counted(d.maximum_depth as nat)),
            ("missing_source_ref_count"@, counted(0)),
            ("node_count"@, counted(p.nodes.len())),
            ("projection_heavy_branching"@, Tree::Bool(d.projection_heavy_branching)),
            ("root_count"@, counted(p.roots.len())),
            ("sequence_edge_count"@, counted(d.sequence_edge_count as nat)),
            ("sequence_edge_ratio"@, sequence),
            ("source_backed_edge_count"@, counted(d.source_backed_edge_count as nat)),
            ("structural_edge_count"@, counted(d.structural_edge_count as nat)),
            ("warnings"@, Tree::List(p.warnings)),
        ],
    )
}

/// The first root, if there is one.
pub open spec fn first_root(p: Projected) -> Option<Seq<char>> {
    if p.roots.len() > 0 {
        Some(p.roots[0])
    } else {
        None
    }
}

/// The forest of an artifact.
pub open spec fn forest_tree(p: Projected) -> Tree {
    Tree::Object(
        seq![
            ("active_root"@, optional_text(first_root(p))),
            ("edges"@, Tree::List(p.edges)),
            ("nodes"@, Tree::List(p.nodes)),
            ("roots"@, texts(p.roots)),
        ],
    )
}

/// What an artifact says of the projection.
pub open spec fn projection_tree(p: Projected) -> Tree {
    Tree::Object(
        seq![
            ("basis"@, Tree::Text("bounded_provenance_query"@)),
            ("degraded"@, Tree::Bool(p.degraded)),
            ("extension_id"@, Tree::Text(EXTENSION_ID@)),
            ("watermark_event_id"@, p.watermark_event_id),
        ],
    )
}

/// What an artifact says of the session.
pub open spec fn session_tree(p: Projected) -> Tree {
    Tree::Object(
        seq![
            (
                "event_range"@,
                Tree::Object(
                    seq![
                        ("complete"@, Tree::Bool(p.event_range_complete)),
                        ("end"@, p.event_range_end),
                        ("start"@, p.event_range_start),
                    ],
                ),
            ),
            ("id"@, Tree::Text(p.session_id)),
        ],
    )
}

/// The artifact of a projection.
pub open spec fn artifact_tree(p: Projected, branching: Tree, sequence: Tree) -> Tree {
    Tree::Object(
        seq![
            ("construction"@, making_tree(p.construction)),
            ("diagnostics"@, diagnostics_tree(p, branching, sequence)),
            ("forest"@, forest_tree(p)),
            ("generated_at"@, Tree::Text(p.generated_at)),
            ("media_type"@, Tree::Text(MEDIA_TYPE_JSON@)),
            ("projection"@, projection_tree(p)),
            ("schema"@, Tree::Text(SCHEMA_NAME@)),
            ("session"@, session_tree(p)),
        ],
    )
}

/// What the host is told of an artifact, and of the page that it was made of.
pub open spec fn metadata_of(p: Projected, page: Page) -> Seq<(Seq<char>, Tree)> {
    seq![
        ("annotation_edge_count"@, counted(p.diagnostics.annotation_edge_count as nat)),
        ("applied_limit"@, counted(page.applied_limit as nat)),
        ("applied_scan_limit"@, counted(page.applied_scan_limit as nat)),
        ("construction"@, making_tree(p.construction)),
        ("degraded"@, Tree::Bool(p.degraded)),
        ("edge_count"@, counted(p.edges.len())),
        ("next_after_event_id"@, optional_text(page.next_after_event_id)),
        ("node_count"@, counted(p.nodes.len())),
        ("query_watermark_event_id"@, optional_text(page.watermark_event_id)),
        ("scanned_events"@, counted(page.scanned_events as nat)),
        ("schema"@, Tree::Text(SCHEMA_NAME@)),
        ("truncated"@, Tree::Bool(page.truncated)),
        ("watermark_event_id"@, p.watermark_event_id),
    ]
}

/// The events that the sources of a record name.
pub open spec fn cited_in(record: Tree) -> Seq<Seq<char>> {
    match record.list_at("source_refs"@) {
        None => Seq::empty(),
        Some(list) => cited_among(list, list.len()),
    }
}

/// The events that the first `n` sources name.
pub open spec fn cited_among(list: Seq<Tree>, n: nat) -> Seq<Seq<char>>
    decreases n,
{
    if n == 0 {
        Seq::empty()
    } else {
        let rest = cited_among(list, (n - 1) as nat);
        match list[n - 1].text_at("event_id"@) {
            Some(id) => rest.push(id),
            None => rest,
        }
    }
}

/// The events that the first `n` records name, behind those found so far.
pub open spec fn cited_by(records: Seq<Tree>, n: nat, found: Seq<Seq<char>>) -> Seq<Seq<char>>
    decreases n,
{
    if n == 0 {
        found
    } else {
        cited_by(records, (n - 1) as nat, found) + cited_in(records[n - 1])
    }
}

/// The events that a projection cites, in ascending order.
pub open spec fn cited(p: Projected) -> Seq<Seq<char>> {
    in_order(cited_by(p.edges, p.edges.len(), cited_by(p.nodes, p.nodes.len(), Seq::empty())))
}

fn note_cited(record: &Json, found: &mut Vec<String>)
    ensures
        final(found).deep_view() == old(found).deep_view() + cited_in(record@),
{
    let ghost was = found.deep_view();
    let list = match record.list_at("source_refs") {
        Some(list) => list,
        None => {
            assert(found.deep_view() =~= was + cited_in(record@));
            return;
        },
    };
    let mut i: usize = 0;
    assert(found.deep_view() =~= was + cited_among(list.deep_view(), 0));
    while i < list.len()
        invariant
            i <= list@.len(),
            found.deep_view() == was + cited_among(list.deep_view(), i as nat),
        decreases list@.len() - i,
    {
        assert(list.deep_view()[i as int] == list@[i as int]@);
        if let Some(id) = list[i].text_at("event_id") {
            let ghost prior = found.deep_view();
            found.push(id.clone());
            assert(found.deep_view() =~= prior.push(id@));
            assert(found.deep_view() =~= was + cited_among(list.deep_view(), (i + 1) as nat));
        }
        i += 1;
    }
}

fn note_all_cited(records: &Vec<Json>, found: Vec<String>) -> (r: Vec<String>)
    ensures
        r.deep_view() == cited_by(records.deep_view(), records@.len(), found.deep_view()),
{
    let ghost start = found.deep_view();
    let mut out = found;
    let mut i: usize = 0;
    while i < records.len()
        invariant
            i <= records@.len(),
            out.deep_view() == cited_by(records.deep_view(), i as nat, start),
        decreases records@.len() - i,
    {
        assert(records.deep_view()[i as int] == records@[i as int]@);
        note_cited(&records[i], &mut out);
        i += 1;
    }
    out
}

fn copy_list(list: &Vec<Json>) -> (r: Vec<Json>)
    ensures
        r.deep_view() == list.deep_view(),
{
    let mut out: Vec<Json> = Vec::new();
    let mut i: usize = 0;
    while i < list.len()
        invariant
            i <= list@.len(),
            out@.len() == i,
            forall|j: int| 0 <= j < i ==> (#[trigger] out@[j])@ == list@[j]@,
        decreases list@.len() - i,
    {
        out.push(list[i].clone());
        i += 1;
    }
    assert(out.deep_view() =~= list.deep_view());
    out
}

impl Projection {
    pub fn node_count(&self) -> (r: usize)
        ensures
            r == self.deep_view().nodes.len(),
    {
        self.nodes.len()
    }

    pub fn edge_count(&self) -> (r: usize)
        ensures
            r == self.deep_view().edges.len(),
    {
        self.edges.len()
    }

    /// The first root, if there is one.
    pub fn active_root_id(&self) -> (r: Option<&String>)
        ensures
            r.deep_view() == first_root(self.deep_view()),
    {
        if self.roots.len() > 0 {
            assert(self.roots.deep_view()[0] == self.roots@[0]@);
            Some(&self.roots[0])
        } else {
            None
        }
    }

    pub fn root_ids(&self) -> (r: &Vec<String>)
        ensures
            r.deep_view() == self.deep_view().roots,
    {
        &self.roots
    }

    pub fn nodes(&self) -> (r: &Vec<Json>)
        ensures
            r.deep_view() == self.deep_view().nodes,
    {
        &self.nodes
    }

    pub fn edges(&self) -> (r: &Vec<Json>)
        ensures
            r.deep_view() == self.deep_view().edges,
    {
        &self.edges
    }

    pub fn degraded(&self) -> (r: bool)
        ensures
            r == self.deep_view().degraded,
    {
        self.degraded
    }

    pub fn watermark_event_id(&self) -> (r: Json)
        ensures
            r@ == self.deep_view().watermark_event_id,
    {
        self.watermark_event_id.clone()
    }

    pub fn construction_value(&self) -> (r: Json)
        ensures
            r@ == making_tree(self.deep_view().construction),
    {
        self.construction.to_value()
    }

    pub fn diagnostics(&self) -> (r: ProjectionDiagnostics)
        ensures
            r == self.deep_view().diagnostics,
    {
        self.diagnostics
    }

    /// The events that the projection cites, in ascending order.
    pub fn cited_event_ids(&self) -> (r: Vec<String>)
        ensures
            r.deep_view() == cited(self.deep_view()),
    {
        let none: Vec<String> = Vec::new();
        assert(none.deep_view() =~= Seq::empty());
        let found = note_all_cited(&self.nodes, none);
        let found = note_all_cited(&self.edges, found);
        put_in_order(&found)
    }

    fn diagnostics_value(&self, ratios: &Ratios) -> (r: Json)
        ensures
            r@ == diagnostics_tree(self.deep_view(), ratios.branching@, ratios.sequence@),
    {
        broadcast use {crate::json::object_model, crate::json::list_model};

        let d = &self.diagnostics;
        let rows = vec![
            ("annotation_edge_count".to_owned(), Json::of_count(d.annotation_edge_count)),
            ("backbone_edge_count".to_owned(), Json::of_count(d.backbone_edge_count)),
            ("branching_ratio".to_owned(), ratios.branching.clone()),
            ("degraded_chronology".to_owned(), Json::Bool(self.degraded_chronology)),
            ("edge_count".to_owned(), Json::of_count(self.edges.len())),
            ("fork_count".to_owned(), Json::of_count(d.fork_count)),
            ("inferred_edge_count".to_owned(), Json::of_count(d.inferred_edge_count)),
            ("leaf_count".to_owned(), Json::of_count(d.leaf_count)),
            ("maximum_depth".to_owned(), Json::of_count(d.maximum_depth)),
            ("missing_source_ref_count".to_owned(), Json::of_count(0)),
            ("node_count".to_owned(), Json::of_count(self.nodes.len())),
            (
                "projection_heavy_branching".to_owned(),
                Json::Bool(d.projection_heavy_branching),
            ),
            ("root_count".to_owned(), Json::of_count(self.roots.len())),
            ("sequence_edge_count".to_owned(), Json::of_count(d.sequence_edge_count)),
            ("sequence_edge_ratio".to_owned(), ratios.sequence.clone()),
            ("source_backed_edge_count".to_owned(), Json::of_count(d.source_backed_edge_count)),
            ("structural_edge_count".to_owned(), Json::of_count(d.structural_edge_count)),
            ("warnings".to_owned(), Json::List(copy_list(&self.warnings))),
        ];
        assert(rows.deep_view() =~= diagnostics_tree(
            self.deep_view(),
            ratios.branching@,
            ratios.sequence@,
        )->Object_0);
        Json::Object(rows)
    }

    fn forest_value(&self) -> (r: Json)
        ensures
            r@ == forest_tree(self.deep_view()),
    {
        broadcast use {crate::json::object_model, crate::json::list_model};

        let active_root = match self.active_root_id() {
            Some(root) => Json::of_text(root),
            None => Json::Null,
        };
        let rows = vec![
            ("active_root".to_owned(), active_root),
            ("edges".to_owned(), Json::List(copy_list(&self.edges))),
            ("nodes".to_owned(), Json::List(copy_list(&self.nodes))),
            ("roots".to_owned(), Json::of_texts(&self.roots)),
        ];
        assert(rows.deep_view() =~= forest_tree(self.deep_view())->Object_0);
        Json::Object(rows)
    }

    fn projection_value(&self) -> (r: Json)
        ensures
            r@ == projection_tree(self.deep_view()),
    {
        broadcast use crate::json::object_model;

        let rows = vec![
            ("basis".to_owned(), Json::of_text("bounded_provenance_query")),
            ("degraded".to_owned(), Json::Bool(self.degraded)),
            ("extension_id".to_owned(), Json::of_text(EXTENSION_ID)),
            ("watermark_event_id".to_owned(), self.watermark_event_id.clone()),
        ];
        assert(rows.deep_view() =~= projection_tree(self.deep_view())->Object_0);
        Json::Object(rows)
    }

    fn session_value(&self) -> (r: Json)
        ensures
            r@ == session_tree(self.deep_view()),
    {
        broadcast use crate::json::object_model;

        let range = vec![
            ("complete".to_owned(), Json::Bool(self.event_range_complete)),
            ("end".to_owned(), self.event_range_end.clone()),
            ("start".to_owned(), self.event_range_start.clone()),
        ];
        assert(range.deep_view() =~= session_tree(
            self.deep_view(),
        )->Object_0[0].1->Object_0);
        let rows = vec![
            ("event_range".to_owned(), Json::Object(range)),
            ("id".to_owned(), Json::of_text(&self.session_id)),
        ];
        assert(rows.deep_view() =~= session_tree(self.deep_view())->Object_0);
        Json::Object(rows)
    }

    /// The artifact of the projection.
    pub fn artifact_value(&self, ratios: &Ratios) -> (r: Json)
        ensures
            r@ == artifact_tree(self.deep_view(), ratios.branching@, ratios.sequence@),
    {
        broadcast use crate::json::object_model;

        let rows = vec![
            ("construction".to_owned(), self.construction.to_value()),
            ("diagnostics".to_owned(), self.diagnostics_value(ratios)),
            ("forest".to_owned(), self.forest_value()),
            ("generated_at".to_owned(), Json::of_text(&self.generated_at)),
            ("media_type".to_owned(), Json::of_text(MEDIA_TYPE_JSON)),
            ("projection".to_owned(), self.projection_value()),
            ("schema".to_owned(), Json::of_text(SCHEMA_NAME)),
            ("session".to_owned(), self.session_value()),
        ];
        assert(rows.deep_view() =~= artifact_tree(
            self.deep_view(),
            ratios.branching@,
            ratios.sequence@,
        )->Object_0);
        Json::Object(rows)
    }

    /// The artifact of the projection as a text of one line.
    pub fn artifact_text(&self, ratios: &Ratios) -> (r: String)
        ensures
            r@ == json_text(
                artifact_tree(self.deep_view(), ratios.branching@, ratios.sequence@),
            ).push('\n'),
    {
        let mut text = write_json(&self.artifact_value(ratios));
        text.push('\n');
        text
    }

    /// What the host is told of the artifact.
    pub fn artifact_metadata(&self, page: &ProvenancePage) -> (r: Members)
        ensures
            r.deep_view() == metadata_of(self.deep_view(), page.deep_view()),
    {
        let rows = vec![
            (
                "annotation_edge_count".to_owned(),
                Json::of_count(self.diagnostics.annotation_edge_count),
            ),
            ("applied_limit".to_owned(), Json::of_count(page.applied_limit)),
            ("applied_scan_limit".to_owned(), Json::of_count(page.applied_scan_limit)),
            ("construction".to_owned(), self.construction.to_value()),
            ("degraded".to_owned(), Json::Bool(self.degraded)),
            ("edge_count".to_owned(), Json::of_count(self.edges.len())),
            (
                "next_after_event_id".to_owned(),
                Json::of_optional_text(&page.next_after_event_id),
            ),
            ("node_count".to_owned(), Json::of_count(self.nodes.len())),
            (
                "query_watermark_event_id".to_owned(),
                Json::of_optional_text(&page.watermark_event_id),
            ),
            ("scanned_events".to_owned(), Json::of_count(page.scanned_events)),
            ("schema".to_owned(), Json::of_text(SCHEMA_NAME)),
            ("truncated".to_owned(), Json::Bool(page.truncated)),
            ("watermark_event_id".to_owned(), self.watermark_event_id.clone()),
        ];
        assert(rows.deep_view() =~= metadata_of(self.deep_view(), page.deep_view()));
        rows
    }
}

/// The artifact of a graph holds the graph whole: how it was made, its forest with the first root
/// as the active one, what was counted of it, the session and the events that it covers.
pub proof fn artifacts_hold_their_graphs(p: Projected, branching: Tree, sequence: Tree)
    ensures
        ({
            let t = artifact_tree(p, branching, sequence);
            let d = t.at("diagnostics"@);
            &&& t.at("construction"@) == making_tree(p.construction)
            &&& t.text_at("generated_at"@) == Some(p.generated_at)
            &&& t.text_at("media_type"@) == Some("application/vnd.euler.causal-dag.v3+json"@)
            &&& t.text_at("schema"@) == Some("euler.causal_dag.v3"@)
            &&& t.at("forest"@).list_at("nodes"@) == Some(p.nodes)
            &&& t.at("forest"@).list_at("edges"@) == Some(p.edges)
            &&& t.at("forest"@).at("roots"@) == texts(p.roots)
            &&& p.roots.len() > 0 ==> t.at("forest"@).at("active_root"@) == Tree::Text(p.roots[0])
            &&& p.roots.len() == 0 ==> t.at("forest"@).at("active_root"@) == Tree::Null
            &&& t.at("projection"@).text_at("basis"@) == Some("bounded_provenance_query"@)
            &&& t.at("projection"@).flag_at("degraded"@) == Some(p.degraded)
            &&& t.at("projection"@).text_at("extension_id"@) == Some("causal-dag"@)
            &&& t.at("projection"@).at("watermark_event_id"@) == p.watermark_event_id
            &&& t.at("session"@).text_at("id"@) == Some(p.session_id)
            &&& t.at("session"@).at("event_range"@).flag_at("complete"@) == Some(
                p.event_range_complete,
            )
            &&& t.at("session"@).at("event_range"@).at("end"@) == p.event_range_end
            &&& t.at("session"@).at("event_range"@).at("start"@) == p.event_range_start
            &&& d.at("node_count"@) == counted(p.nodes.len())
            &&& d.at("edge_count"@) == counted(p.edges.len())
            &&& d.at("root_count"@) == counted(p.roots.len())
            &&& d.at("leaf_count"@) == counted(p.diagnostics.leaf_count as nat)
            &&& d.at("fork_count"@) == counted(p.diagnostics.fork_count as nat)
            &&& d.at("maximum_depth"@) == counted(p.diagnostics.maximum_depth as nat)
            &&& d.at("backbone_edge_count"@) == counted(p.diagnostics.backbone_edge_count as nat)
            &&& d.at("structural_edge_count"@) == counted(
                p.diagnostics.structural_edge_count as nat,
            )
            &&& d.at("annotation_edge_count"@) == counted(
                p.diagnostics.annotation_edge_count as nat,
            )
            &&& d.at("sequence_edge_count"@) == counted(p.diagnostics.sequence_edge_count as nat)
            &&& d.at("inferred_edge_count"@) == counted(p.diagnostics.inferred_edge_count as nat)
            &&& d.at("source_backed_edge_count"@) == counted(
                p.diagnostics.source_backed_edge_count as nat,
            )
            &&& d.at("missing_source_ref_count"@) == counted(0)
            &&& d.at("branching_ratio"@) == branching
            &&& d.at("sequence_edge_ratio"@) == sequence
            &&& d.flag_at("degraded_chronology"@) == Some(p.degraded_chronology)
            &&& d.flag_at("projection_heavy_branching"@) == Some(
                p.diagnostics.projection_heavy_branching,
            )
            &&& d.list_at("warnings"@) == Some(p.warnings)
        }),
{
    let t = artifact_tree(p, branching, sequence);
    let o = t->Object_0;
    reveal_strlit("construction");
    reveal_strlit("diagnostics");
    reveal_strlit("forest");
    reveal_strlit("generated_at");
    reveal_strlit("media_type");
    reveal_strlit("projection");
    reveal_strlit("schema");
    reveal_strlit("session");
    crate::table::lemma_first_row(o, "construction"@, 0);
    assert(o[0].0.len() == 12 && "diagnostics"@.len() == 11);
    crate::table::lemma_first_row(o, "diagnostics"@, 1);
    assert(o[0].0.len() == 12 && o[1].0.len() == 11 && "forest"@.len() == 6);
    crate::table::lemma_first_row(o, "forest"@, 2);
    assert(o[0].0[0] == 'c' && o[1].0.len() == 11 && o[2].0.len() == 6 && "generated_at"@.len() == 12 && "generated_at"@[0] == 'g');
    crate::table::lemma_first_row(o, "generated_at"@, 3);
    assert(o[0].0.len() == 12 && o[1].0.len() == 11 && o[2].0.len() == 6 && o[3].0.len() == 12 && "media_type"@.len() == 10);
    crate::table::lemma_first_row(o, "media_type"@, 4);
    assert(o[0].0.len() == 12 && o[1].0.len() == 11 && o[2].0.len() == 6 && o[3].0.len() == 12 && o[4].0[0] == 'm' && "projection"@.len() == 10 && "projection"@[0] == 'p');
    crate::table::lemma_first_row(o, "projection"@, 5);
    assert(o[0].0.len() == 12 && o[1].0.len() == 11 && o[2].0[0] == 'f' && o[3].0.len() == 12 && o[4].0.len() == 10 && o[5].0.len() == 10 && "schema"@.len() == 6 && "schema"@[0] == 's');
    crate::table::lemma_first_row(o, "schema"@, 6);
    assert(o[0].0.len() == 12 && o[1].0.len() == 11 && o[2].0.len() == 6 && o[3].0.len() == 12 && o[4].0.len() == 10 && o[5].0.len() == 10 && o[6].0.len() == 6 && "session"@.len() == 7);
    crate::table::lemma_first_row(o, "session"@, 7);
    let f = forest_tree(p)->Object_0;
    reveal_strlit("active_root");
    reveal_strlit("edges");
    reveal_strlit("nodes");
    reveal_strlit("roots");
    crate::table::lemma_first_row(f, "active_root"@, 0);
    assert(f[0].0.len() == 11 && "edges"@.len() == 5);
    crate::table::lemma_first_row(f, "edges"@, 1);
    assert(f[0].0.len() == 11 && f[1].0[0] == 'e' && "nodes"@.len() == 5 && "nodes"@[0] == 'n');
    crate::table::lemma_first_row(f, "nodes"@, 2);
    assert(f[0].0.len() == 11 && f[1].0[0] == 'e' && f[2].0[0] == 'n' && "roots"@.len() == 5 && "roots"@[0] == 'r');
    crate::table::lemma_first_row(f, "roots"@, 3);
    let q = projection_tree(p)->Object_0;
    reveal_strlit("basis");
    reveal_strlit("degraded");
    reveal_strlit("extension_id");
    reveal_strlit("watermark_event_id");
    crate::table::lemma_first_row(q, "basis"@, 0);
    assert(q[0].0.len() == 5 && "degraded"@.len() == 8);
    crate::table::lemma_first_row(q, "degraded"@, 1);
    assert(q[0].0.len() == 5 && q[1].0.len() == 8 && "extension_id"@.len() == 12);
    crate::table::lemma_first_row(q, "extension_id"@, 2);
    assert(q[0].0.len() == 5 && q[1].0.len() == 8 && q[2].0.len() == 12 && "watermark_event_id"@.len() == 18);
    crate::table::lemma_first_row(q, "watermark_event_id"@, 3);
    let s = session_tree(p)->Object_0;
    reveal_strlit("event_range");
    reveal_strlit("id");
    crate::table::lemma_first_row(s, "event_range"@, 0);
    assert(s[0].0.len() == 11 && "id"@.len() == 2);
    crate::table::lemma_first_row(s, "id"@, 1);
    let r = session_tree(p).at("event_range"@)->Object_0;
    reveal_strlit("complete");
    reveal_strlit("end");
    reveal_strlit("start");
    crate::table::lemma_first_row(r, "complete"@, 0);
    assert(r[0].0.len() == 8 && "end"@.len() == 3);
    crate::table::lemma_first_row(r, "end"@, 1);
    assert(r[0].0.len() == 8 && r[1].0.len() == 3 && "start"@.len() == 5);
    crate::table::lemma_first_row(r, "start"@, 2);
    let d = diagnostics_tree(p, branching, sequence)->Object_0;
    reveal_strlit("annotation_edge_count");
    reveal_strlit("backbone_edge_count");
    reveal_strlit("branching_ratio");
    reveal_strlit("degraded_chronology");
    reveal_strlit("edge_count");
    reveal_strlit("fork_count");
    reveal_strlit("inferred_edge_count");
    reveal_strlit("leaf_count");
    reveal_strlit("maximum_depth");
    reveal_strlit("missing_source_ref_count");
    reveal_strlit("node_count");
    reveal_strlit("projection_heavy_branching");
    reveal_strlit("root_count");
    reveal_strlit("sequence_edge_count");
    reveal_strlit("sequence_edge_ratio");
    reveal_strlit("source_backed_edge_count");
    reveal_strlit("structural_edge_count");
    reveal_strlit("warnings");
    crate::table::lemma_first_row(d, "annotation_edge_count"@, 0);
    assert(d[0].0.len() == 21 && "backbone_edge_count"@.len() == 19);
    crate::table::lemma_first_row(d, "backbone_edge_count"@, 1);
    assert(d[0].0.len() == 21 && d[1].0.len() == 19 && "branching_ratio"@.len() == 15);
    crate::table::lemma_first_row(d, "branching_ratio"@, 2);
    assert(d[0].0.len() == 21 && d[1].0[0] == 'b' && d[2].0.len() == 15 && "degraded_chronology"@.len() == 19 && "degraded_chronology"@[0] == 'd');
    crate::table::lemma_first_row(d, "degraded_chronology"@, 3);
    assert(d[0].0.len() == 21 && d[1].0.len() == 19 && d[2].0.len() == 15 && d[3].0.len() == 19 && "edge_count"@.len() == 10);
    crate::table::lemma_first_row(d, "edge_count"@, 4);
    assert(d[0].0.len() == 21 && d[1].0.len() == 19 && d[2].0.len() == 15 && d[3].0.len() == 19 && d[4].0[0] == 'e' && "fork_count"@.len() == 10 && "fork_count"@[0] == 'f');
    crate::table::lemma_first_row(d, "fork_count"@, 5);
    assert(d[0].0.len() == 21 && d[1].0[0] == 'b' && d[2].0.len() == 15 && d[3].0[0] == 'd' && d[4].0.len() == 10 && d[5].0.len() == 10 && "inferred_edge_count"@.len() == 19 && "inferred_edge_count"@[0] == 'i');
    crate::table::lemma_first_row(d, "inferred_edge_count"@, 6);
    assert(d[0].0.len() == 21 && d[1].0.len() == 19 && d[2].0.len() == 15 && d[3].0.len() == 19 && d[4].0[0] == 'e' && d[5].0[0] == 'f' && d[6].0.len() == 19 && "leaf_count"@.len() == 10 && "leaf_count"@[0] == 'l');
    crate::table::lemma_first_row(d, "leaf_count"@, 7);
    assert(d[0].0.len() == 21 && d[1].0.len() == 19 && d[2].0.len() == 15 && d[3].0.len() == 19 && d[4].0.len() == 10 && d[5].0.len() == 10 && d[6].0.len() == 19 && d[7].0.len() == 10 && "maximum_depth"@.len() == 13);
    crate::table::lemma_first_row(d, "maximum_depth"@, 8);
    assert(d[0].0.len() == 21 && d[1].0.len() == 19 && d[2].0.len() == 15 && d[3].0.len() == 19 && d[4].0.len() == 10 && d[5].0.len() == 10 && d[6].0.len() == 19 && d[7].0.len() == 10 && d[8].0.len() == 13 && "missing_source_ref_count"@.len() == 24);
    crate::table::lemma_first_row(d, "missing_source_ref_count"@, 9);
    assert(d[0].0.len() == 21 && d[1].0.len() == 19 && d[2].0.len() == 15 && d[3].0.len() == 19 && d[4].0[0] == 'e' && d[5].0[0] == 'f' && d[6].0.len() == 19 && d[7].0[0] == 'l' && d[8].0.len() == 13 && d[9].0.len() == 24 && "node_count"@.len() == 10 && "node_count"@[0] == 'n');
    crate::table::lemma_first_row(d, "node_count"@, 10);
    assert(d[0].0.len() == 21 && d[1].0.len() == 19 && d[2].0.len() == 15 && d[3].0.len() == 19 && d[4].0.len() == 10 && d[5].0.len() == 10 && d[6].0.len() == 19 && d[7].0.len() == 10 && d[8].0.len() == 13 && d[9].0.len() == 24 && d[10].0.len() == 10 && "projection_heavy_branching"@.len() == 26);
    crate::table::lemma_first_row(d, "projection_heavy_branching"@, 11);
    assert(d[0].0.len() == 21 && d[1].0.len() == 19 && d[2].0.len() == 15 && d[3].0.len() == 19 && d[4].0[0] == 'e' && d[5].0[0] == 'f' && d[6].0.len() == 19 && d[7].0[0] == 'l' && d[8].0.len() == 13 && d[9].0.len() == 24 && d[10].0[0] == 'n' && d[11].0.len() == 26 && "root_count"@.len() == 10 && "root_count"@[0] == 'r');
    crate::table::lemma_first_row(d, "root_count"@, 12);
    assert(d[0].0.len() == 21 && d[1].0[0] == 'b' && d[2].0.len() == 15 && d[3].0[0] == 'd' && d[4].0.len() == 10 && d[5].0.len() == 10 && d[6].0[0] == 'i' && d[7].0.len() == 10 && d[8].0.len() == 13 && d[9].0.len() == 24 && d[10].0.len() == 10 && d[11].0.len() == 26 && d[12].0.len() == 10 && "sequence_edge_count"@.len() == 19 && "sequence_edge_count"@[0] == 's');
    crate::table::lemma_first_row(d, "sequence_edge_count"@, 13);
    assert(d[0].0.len() == 21 && d[1].0[0] == 'b' && d[2].0.len() == 15 && d[3].0[0] == 'd' && d[4].0.len() == 10 && d[5].0.len() == 10 && d[6].0[0] == 'i' && d[7].0.len() == 10 && d[8].0.len() == 13 && d[9].0.len() == 24 && d[10].0.len() == 10 && d[11].0.len() == 26 && d[12].0.len() == 10 && d[13].0[14] == 'c' && "sequence_edge_ratio"@.len() == 19 && "sequence_edge_ratio"@[0] == 's' && "sequence_edge_ratio"@[14] == 'r');
    crate::table::lemma_first_row(d, "sequence_edge_ratio"@, 14);
    assert(d[0].0.len() == 21 && d[1].0.len() == 19 && d[2].0.len() == 15 && d[3].0.len() == 19 && d[4].0.len() == 10 && d[5].0.len() == 10 && d[6].0.len() == 19 && d[7].0.len() == 10 && d[8].0.len() == 13 && d[9].0[0] == 'm' && d[10].0.len() == 10 && d[11].0.len() == 26 && d[12].0.len() == 10 && d[13].0.len() == 19 && d[14].0.len() == 19 && "source_backed_edge_count"@.len() == 24 && "source_backed_edge_count"@[0] == 's');
    crate::table::lemma_first_row(d, "source_backed_edge_count"@, 15);
    assert(d[0].0[0] == 'a' && d[1].0.len() == 19 && d[2].0.len() == 15 && d[3].0.len() == 19 && d[4].0.len() == 10 && d[5].0.len() == 10 && d[6].0.len() == 19 && d[7].0.len() == 10 && d[8].0.len() == 13 && d[9].0.len() == 24 && d[10].0.len() == 10 && d[11].0.len() == 26 && d[12].0.len() == 10 && d[13].0.len() == 19 && d[14].0.len() == 19 && d[15].0.len() == 24 && "structural_edge_count"@.len() == 21 && "structural_edge_count"@[0] == 's');
    crate::table::lemma_first_row(d, "structural_edge_count"@, 16);
    assert(d[0].0.len() == 21 && d[1].0.len() == 19 && d[2].0.len() == 15 && d[3].0.len() == 19 && d[4].0.len() == 10 && d[5].0.len() == 10 && d[6].0.len() == 19 && d[7].0.len() == 10 && d[8].0.len() == 13 && d[9].0.len() == 24 && d[10].0.len() == 10 && d[11].0.len() == 26 && d[12].0.len() == 10 && d[13].0.len() == 19 && d[14].0.len() == 19 && d[15].0.len() == 24 && d[16].0.len() == 21 && "warnings"@.len() == 8);
    crate::table::lemma_first_row(d, "warnings"@, 17);
}

/// What is noted beside an artifact is what its graph and its page are.
pub proof fn artifacts_are_noted_as_they_are(p: Projected, page: Page)
    ensures
        ({
            let t = Tree::Object(metadata_of(p, page));
            &&& t.at("annotation_edge_count"@) == counted(p.diagnostics.annotation_edge_count as nat)
            &&& t.at("applied_limit"@) == counted(page.applied_limit as nat)
            &&& t.at("applied_scan_limit"@) == counted(page.applied_scan_limit as nat)
            &&& t.at("construction"@) == making_tree(p.construction)
            &&& t.at("degraded"@) == Tree::Bool(p.degraded)
            &&& t.at("edge_count"@) == counted(p.edges.len())
            &&& t.at("next_after_event_id"@) == optional_text(page.next_after_event_id)
            &&& t.at("node_count"@) == counted(p.nodes.len())
            &&& t.at("query_watermark_event_id"@) == optional_text(page.watermark_event_id)
            &&& t.at("scanned_events"@) == counted(page.scanned_events as nat)
            &&& t.at("schema"@) == Tree::Text("euler.causal_dag.v3"@)
            &&& t.at("truncated"@) == Tree::Bool(page.truncated)
            &&& t.at("watermark_event_id"@) == p.watermark_event_id
        }),
{
    let o = metadata_of(p, page);
    reveal_strlit("annotation_edge_count");
    reveal_strlit("applied_limit");
    reveal_strlit("applied_scan_limit");
    reveal_strlit("construction");
    reveal_strlit("degraded");
    reveal_strlit("edge_count");
    reveal_strlit("next_after_event_id");
    reveal_strlit("node_count");
    reveal_strlit("query_watermark_event_id");
    reveal_strlit("scanned_events");
    reveal_strlit("schema");
    reveal_strlit("truncated");
    reveal_strlit("watermark_event_id");
    crate::table::lemma_first_row(o, "annotation_edge_count"@, 0);
    assert(o[0].0.len() == 21 && "applied_limit"@.len() == 13);
    crate::table::lemma_first_row(o, "applied_limit"@, 1);
    assert(o[0].0.len() == 21 && o[1].0.len() == 13 && "applied_scan_limit"@.len() == 18);
    crate::table::lemma_first_row(o, "applied_scan_limit"@, 2);
    assert(o[0].0.len() == 21 && o[1].0.len() == 13 && o[2].0.len() == 18 && "construction"@.len() == 12);
    crate::table::lemma_first_row(o, "construction"@, 3);
    assert(o[0].0.len() == 21 && o[1].0.len() == 13 && o[2].0.len() == 18 && o[3].0.len() == 12 && "degraded"@.len() == 8);
    crate::table::lemma_first_row(o, "degraded"@, 4);
    assert(o[0].0.len() == 21 && o[1].0.len() == 13 && o[2].0.len() == 18 && o[3].0.len() == 12 && o[4].0.len() == 8 && "edge_count"@.len() == 10);
    crate::table::lemma_first_row(o, "edge_count"@, 5);
    assert(o[0].0.len() == 21 && o[1].0.len() == 13 && o[2].0.len() == 18 && o[3].0.len() == 12 && o[4].0.len() == 8 && o[5].0.len() == 10 && "next_after_event_id"@.len() == 19);
    crate::table::lemma_first_row(o, "next_after_event_id"@, 6);
    assert(o[0].0.len() == 21 && o[1].0.len() == 13 && o[2].0.len() == 18 && o[3].0.len() == 12 && o[4].0.len() == 8 && o[5].0[0] == 'e' && o[6].0.len() == 19 && "node_count"@.len() == 10 && "node_count"@[0] == 'n');
    crate::table::lemma_first_row(o, "node_count"@, 7);
    assert(o[0].0.len() == 21 && o[1].0.len() == 13 && o[2].0.len() == 18 && o[3].0.len() == 12 && o[4].0.len() == 8 && o[5].0.len() == 10 && o[6].0.len() == 19 && o[7].0.len() == 10 && "query_watermark_event_id"@.len() == 24);
    crate::table::lemma_first_row(o, "query_watermark_event_id"@, 8);
    assert(o[0].0.len() == 21 && o[1].0.len() == 13 && o[2].0.len() == 18 && o[3].0.len() == 12 && o[4].0.len() == 8 && o[5].0.len() == 10 && o[6].0.len() == 19 && o[7].0.len() == 10 && o[8].0.len() == 24 && "scanned_events"@.len() == 14);
    crate::table::lemma_first_row(o, "scanned_events"@, 9);
    assert(o[0].0.len() == 21 && o[1].0.len() == 13 && o[2].0.len() == 18 && o[3].0.len() == 12 && o[4].0.len() == 8 && o[5].0.len() == 10 && o[6].0.len() == 19 && o[7].0.len() == 10 && o[8].0.len() == 24 && o[9].0.len() == 14 && "schema"@.len() == 6);
    crate::table::lemma_first_row(o, "schema"@, 10);
    assert(o[0].0.len() == 21 && o[1].0.len() == 13 && o[2].0.len() == 18 && o[3].0.len() == 12 && o[4].0.len() == 8 && o[5].0.len() == 10 && o[6].0.len() == 19 && o[7].0.len() == 10 && o[8].0.len() == 24 && o[9].0.len() == 14 && o[10].0.len() == 6 && "truncated"@.len() == 9);
    crate::table::lemma_first_row(o, "truncated"@, 11);
    assert(o[0].0.len() == 21 && o[1].0.len() == 13 && o[2].0[0] == 'a' && o[3].0.len() == 12 && o[4].0.len() == 8 && o[5].0.len() == 10 && o[6].0.len() == 19 && o[7].0.len() == 10 && o[8].0.len() == 24 && o[9].0.len() == 14 && o[10].0.len() == 6 && o[11].0.len() == 9 && "watermark_event_id"@.len() == 18 && "watermark_event_id"@[0] == 'w');
    crate::table::lemma_first_row(o, "watermark_event_id"@, 12);
}

/// A graph that was revised is of the session of its events, or of the graph that it grew from;
/// it is as of the last event, or else of what it grew from, and starts where that started. No
/// graph of another session is revised.
pub proof fn revisions_keep_to_their_session(
    events: Seq<Event>,
    hints: Tree,
    session: Option<Seq<char>>,
    active: Option<Active>,
    construction: Making,
)
    requires
        revised(events, hints, session, active, construction) is Ok,
    ensures
        ({
            let p = revised(events, hints, session, active, construction)->Ok_0;
            &&& session is Some ==> session == Some(p.session_id)
            &&& forall|i: int|
                0 <= i < events.len() ==> (#[trigger] events[i]).session == p.session_id
            &&& active matches Some(state) ==> (state.artifact.at("session"@).text_at("id"@) matches Some(
                id,
            ) ==> id == p.session_id)
            &&& p.construction == construction
            &&& p.event_range_complete && !p.degraded && !p.degraded_chronology
            &&& p.warnings.len() == 0
            &&& events.len() > 0 ==> p.generated_at == events[events.len() - 1].ts
                && p.watermark_event_id == Tree::Text(events[events.len() - 1].id)
                && p.event_range_end == Tree::Text(events[events.len() - 1].id)
            &&& active is None && events.len() > 0 ==> p.event_range_start == Tree::Text(
                events[0].id,
            )
        }),
{
}

/// A graph is of the one session of its events, and covers them from the first to the last. It is
/// made from the start. Where the events tell no parents, it is degraded and says so.
pub proof fn graphs_cover_their_events(
    events: Seq<Event>,
    session: Option<Seq<char>>,
    complete: bool,
)
    requires
        projected(events, session, complete) is Ok,
        events.len() > 0,
    ensures
        ({
            let p = projected(events, session, complete)->Ok_0;
            let last = events[events.len() - 1];
            let hinted = exists|i: int|
                0 <= i < events.len() && carries_hint(#[trigger] events[i]);
            &&& p.session_id == events[0].session
            &&& session is Some ==> session == Some(p.session_id)
            &&& forall|i: int|
                0 <= i < events.len() ==> (#[trigger] events[i]).session == p.session_id
            &&& p.generated_at == last.ts
            &&& p.event_range_start == Tree::Text(events[0].id)
            &&& p.event_range_end == Tree::Text(last.id)
            &&& p.watermark_event_id == Tree::Text(last.id)
            &&& p.event_range_complete == complete
            &&& p.construction == snapshot_making()
            &&& hinted ==> complete
            &&& p.degraded <==> !hinted && links_of(events) is None
            &&& p.degraded_chronology <==> !hinted && links_of(events) is None && events.len() > 1
            &&& !p.degraded ==> p.warnings.len() == 0
            &&& p.degraded ==> p.warnings.len() == (if events.len() > 1 {
                2int
            } else {
                1
            })
        }),
{
}

/// A graph of nothing is empty, of the session that was asked for, and says that it is empty.
pub proof fn graphs_of_nothing_are_empty(session: Option<Seq<char>>, complete: bool)
    ensures
        projected(Seq::empty(), session, complete) is Ok <==> session is Some,
        projected(Seq::empty(), session, complete) matches Ok(p) ==> {
            &&& session == Some(p.session_id)
            &&& p.nodes.len() == 0 && p.edges.len() == 0 && p.roots.len() == 0
            &&& p.generated_at == "1970-01-01T00:00:00Z"@
            &&& p.event_range_start is Null && p.event_range_end is Null
            &&& p.watermark_event_id is Null
            &&& p.event_range_complete && !p.degraded && !p.degraded_chronology
            &&& p.warnings.len() == 1
            &&& p.diagnostics.leaf_count == 0 && p.diagnostics.maximum_depth == 0
        },
{
}

proof fn lemma_cited_among(list: Seq<Tree>, n: nat, name: Seq<char>)
    requires
        n <= list.len(),
    ensures
        cited_among(list, n).contains(name) <==> exists|k: int|
            0 <= k < n && (#[trigger] list[k]).text_at("event_id"@) == Some(name),
    decreases n,
{
    if n > 0 {
        let m = (n - 1) as nat;
        lemma_cited_among(list, m, name);
        let rest = cited_among(list, m);
        let all = cited_among(list, n);
        if rest.contains(name) {
            let k = choose|k: int| 0 <= k < rest.len() && rest[k] == name;
            assert(all[k] == name);
        }
        if all.len() > rest.len() {
            assert(all[rest.len() as int] == list[n - 1].text_at("event_id"@)->0);
        }
        if all.contains(name) {
            let k = choose|k: int| 0 <= k < all.len() && all[k] == name;
            if k < rest.len() {
                assert(rest[k] == name);
            }
        }
    }
}

/// Whether a record cites an event.
pub open spec fn names_event(record: Tree, name: Seq<char>) -> bool {
    &&& record.list_at("source_refs"@) is Some
    &&& exists|k: int|
        0 <= k < record.list_at("source_refs"@)->0.len() && (#[trigger] record.list_at(
            "source_refs"@,
        )->0[k]).text_at("event_id"@) == Some(name)
}

proof fn lemma_cited_by(records: Seq<Tree>, n: nat, found: Seq<Seq<char>>, name: Seq<char>)
    requires
        n <= records.len(),
    ensures
        cited_by(records, n, found).contains(name) <==> found.contains(name) || exists|i: int|
            0 <= i < n && names_event(#[trigger] records[i], name),
    decreases n,
{
    if n > 0 {
        let m = (n - 1) as nat;
        lemma_cited_by(records, m, found, name);
        let rest = cited_by(records, m, found);
        let here = cited_in(records[n - 1]);
        let all = cited_by(records, n, found);
        if records[n - 1].list_at("source_refs"@) is Some {
            let list = records[n - 1].list_at("source_refs"@)->0;
            lemma_cited_among(list, list.len(), name);
        }
        assert(here.contains(name) <==> names_event(records[n - 1], name));
        if rest.contains(name) {
            let k = choose|k: int| 0 <= k < rest.len() && rest[k] == name;
            assert(all[k] == name);
        }
        if here.contains(name) {
            let k = choose|k: int| 0 <= k < here.len() && here[k] == name;
            assert(all[rest.len() + k] == name);
        }
        if all.contains(name) {
            let k = choose|k: int| 0 <= k < all.len() && all[k] == name;
            if k < rest.len() {
                assert(rest[k] == name);
            } else {
                assert(here[k - rest.len()] == name);
            }
        }
    }
}

/// The sources of a graph are the events that its nodes and its edges cite, and no others.
pub proof fn graphs_name_what_they_cite(p: Projected, name: Seq<char>)
    ensures
        cited(p).contains(name) <==> (exists|i: int|
            0 <= i < p.nodes.len() && names_event(#[trigger] p.nodes[i], name)) || (exists|i: int|
            0 <= i < p.edges.len() && names_event(#[trigger] p.edges[i], name)),
        crate::table::sorted(cited(p)),
{
    let nodes = cited_by(p.nodes, p.nodes.len(), Seq::empty());
    lemma_cited_by(p.nodes, p.nodes.len(), Seq::empty(), name);
    lemma_cited_by(p.edges, p.edges.len(), nodes, name);
    crate::table::in_order_keeps_names(cited_by(p.edges, p.edges.len(), nodes), name);
}

} // verus!
