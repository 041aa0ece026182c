//! The artifact of the graph of a record.

use super::edges::{edges_of, list_edges, Drawn, ResearchEdge};
use super::placement::{place_entities, placed_of, Place, Placement};
use super::presentation::{node_id, node_name, node_tree, node_value};
use crate::export::graph::{climb, way_end};
use crate::json::{
    counted, json_text, optional_text, texts, write_json, Json, Members, Tree,
};
use crate::research_record::ledger::{accepted_of, Accepted, AcceptedRecord};
use crate::research_record::record::named_artifact_sources;
use crate::research_record::types::{
    Entity, EntityKind, Episode, Happening, Record, ResearchEntity, ResearchRecord,
};
use crate::schema::{EXTENSION_ID, RESEARCH_DAG_MEDIA_TYPE, RESEARCH_DAG_SCHEMA};
use crate::sdk::{answers, input_error, passes, ExtensionError};
use crate::table::{has_row, holds, in_order, member, put, put_in_order, put_row};
use crate::text::{byte_count, byte_len, same};
use vstd::prelude::*;

verus! {

/// How the graph of a record is made.
pub const RESEARCH_PROFILE: &'static str = "research-causal-summary.v1";

/// The most bytes of the artifact of a graph.
pub const MAX_RESEARCH_DAG_ARTIFACT_BYTES: usize = 2097152;

/// The kinds of the events that the first `n` episodes begin with.
pub open spec fn kinds_among(episodes: Seq<Happening>, n: nat) -> Seq<(Seq<char>, Seq<char>)>
    decreases n,
{
    if n == 0 {
        Seq::empty()
    } else {
        let rest = kinds_among(episodes, (n - 1) as nat);
        let e = episodes[n - 1];
        if e.source_event_ids.len() > 0 {
            put(rest, e.source_event_ids[0], e.event_kind)
        } else {
            rest
        }
    }
}

fn event_kinds(episodes: &Vec<Episode>) -> (r: Vec<(String, String)>)
    ensures
        r.deep_view() == kinds_among(episodes.deep_view(), episodes@.len()),
{
    let mut out: Vec<(String, String)> = Vec::new();
    let mut i: usize = 0;
    assert(out.deep_view() =~= Seq::empty());
    while i < episodes.len()
        invariant
            i <= episodes@.len(),
            out.deep_view() == kinds_among(episodes.deep_view(), i as nat),
        decreases episodes@.len() - i,
    {
        let e = &episodes[i];
        assert(episodes.deep_view()[i as int] == e.deep_view());
        assert(e.deep_view().source_event_ids.len() == e.source_event_ids@.len());
        if e.source_event_ids.len() > 0 {
            assert(e.deep_view().source_event_ids[0] == e.source_event_ids@[0]@);
            put_row(&mut out, &e.source_event_ids[0], e.event_kind.clone());
        }
        i += 1;
    }
    out
}

/// The nodes of the entities from position `i` on.
pub open spec fn nodes_from(
    a: Accepted,
    placed: Seq<(Seq<char>, Place)>,
    kinds: Seq<(Seq<char>, Seq<char>)>,
    i: nat,
    made: Seq<Tree>,
) -> Result<Seq<Tree>, Seq<char>>
    decreases placed.len() - i,
{
    if i >= placed.len() {
        Ok(made)
    } else {
        match node_tree(a, placed[i as int].0, placed[i as int].1, kinds) {
            Err(e) => Err(e),
            Ok(node) => nodes_from(a, placed, kinds, i + 1, made.push(node)),
        }
    }
}

fn node_values(
    a: &AcceptedRecord,
    placed: &Vec<(String, Placement)>,
    kinds: &Vec<(String, String)>,
) -> (r: Result<Vec<Json>, ExtensionError>)
    ensures
        answers(
            r,
            nodes_from(
                a.deep_view(),
                placed.deep_view(),
                kinds.deep_view(),
                0,
                Seq::empty(),
            ),
        ),
{
    let mut out: Vec<Json> = Vec::new();
    let mut i: usize = 0;
    assert(out.deep_view() =~= Seq::empty());
    assert(placed.deep_view().len() == placed@.len());
    while i < placed.len()
        invariant
            i <= placed@.len(),
            placed.deep_view().len() == placed@.len(),
            nodes_from(
                a.deep_view(),
                placed.deep_view(),
                kinds.deep_view(),
                0,
                Seq::empty(),
            ) == nodes_from(
                a.deep_view(),
                placed.deep_view(),
                kinds.deep_view(),
                i as nat,
                out.deep_view(),
            ),
        decreases placed@.len() - i,
    {
        let row = &placed[i];
        assert(placed.deep_view()[i as int] == (row.0@, row.1.deep_view()));
        let node = node_value(a, &row.0, &row.1, kinds)?;
        let ghost was = out.deep_view();
        let ghost tree = node@;
        out.push(node);
        assert(out.deep_view() =~= was.push(tree));
        i += 1;
    }
    Ok(out)
}

/// The nodes of the questions among the first `n` entities.
pub open spec fn roots_among(entities: Seq<(Seq<char>, Entity)>, n: nat) -> Seq<Seq<char>>
    decreases n,
{
    if n == 0 {
        Seq::empty()
    } else {
        let rest = roots_among(entities, (n - 1) as nat);
        if entities[n - 1].1.kind == EntityKind::Question {
            rest.push(node_name(entities[n - 1].1.id))
        } else {
            rest
        }
    }
}

fn root_ids(entities: &Vec<(String, ResearchEntity)>) -> (r: Vec<String>)
    ensures
        r.deep_view() == roots_among(entities.deep_view(), entities@.len()),
{
    let mut out: Vec<String> = Vec::new();
    let mut i: usize = 0;
    assert(out.deep_view() =~= Seq::empty());
    while i < entities.len()
        invariant
            i <= entities@.len(),
            out.deep_view() == roots_among(entities.deep_view(), i as nat),
        decreases entities@.len() - i,
    {
        let entity = &entities[i].1;
        assert(entities.deep_view()[i as int].1 == entity.deep_view());
        if entity.kind == EntityKind::Question {
            let ghost was = out.deep_view();
            out.push(node_id(&entity.id));
            assert(out.deep_view() =~= was.push(node_name(entity.id@)));
        }
        i += 1;
    }
    out
}

/// How many of the first `n` nodes are roots.
pub open spec fn root_count(nodes: Seq<Tree>, n: nat) -> nat
    decreases n,
{
    if n == 0 {
        0
    } else {
        root_count(nodes, (n - 1) as nat) + if nodes[n - 1].text_at("kind"@) == Some("root"@) {
            1nat
        } else {
            0nat
        }
    }
}

/// How many of the first `n` edges are of the backbone.
pub open spec fn backbone_count(edges: Seq<Drawn>, n: nat) -> nat
    decreases n,
{
    if n == 0 {
        0
    } else {
        backbone_count(edges, (n - 1) as nat) + if edges[n - 1].backbone {
            1nat
        } else {
            0nat
        }
    }
}

/// The ids of the first `n` entities that stand nowhere.
pub open spec fn omitted_among(
    entities: Seq<(Seq<char>, Entity)>,
    placed: Seq<(Seq<char>, Place)>,
    n: nat,
) -> Seq<Seq<char>>
    decreases n,
{
    if n == 0 {
        Seq::empty()
    } else {
        let rest = omitted_among(entities, placed, (n - 1) as nat);
        if member(placed, entities[n - 1].0) is None {
            rest.push(entities[n - 1].0)
        } else {
            rest
        }
    }
}

/// What is counted of a graph, and what is left out of it.
pub open spec fn diagnostics_tree(
    nodes: Seq<Tree>,
    edges: Seq<Drawn>,
    a: Accepted,
    placed: Seq<(Seq<char>, Place)>,
) -> Tree {
    let backbone = backbone_count(edges, edges.len());
    Tree::Object(
        seq![
            ("annotation_edge_count"@, counted((edges.len() - backbone) as nat)),
            ("backbone_edge_count"@, counted(backbone)),
            ("degraded"@, Tree::Bool(false)),
            ("edge_count"@, counted(edges.len())),
            ("node_count"@, counted(nodes.len())),
            ("omitted_entity_ids"@, texts(omitted_among(a.entities, placed, a.entities.len()))),
            ("root_count"@, counted(root_count(nodes, nodes.len()))),
        ],
    )
}

fn count_roots(nodes: &Vec<Json>) -> (r: usize)
    ensures
        r == root_count(nodes.deep_view(), nodes@.len()),
{
    let mut r: usize = 0;
    let mut i: usize = 0;
    while i < nodes.len()
        invariant
            i <= nodes@.len(),
            r <= i,
            r == root_count(nodes.deep_view(), i as nat),
        decreases nodes@.len() - i,
    {
        assert(nodes.deep_view()[i as int] == nodes@[i as int]@);
        if let Some(kind) = nodes[i].text_at("kind") {
            if same(kind, "root") {
                r += 1;
            }
        }
        i += 1;
    }
    r
}

fn count_backbone(edges: &Vec<ResearchEdge>) -> (r: usize)
    ensures
        r == backbone_count(edges.deep_view(), edges@.len()),
        r <= edges@.len(),
{
    let mut r: usize = 0;
    let mut i: usize = 0;
    while i < edges.len()
        invariant
            i <= edges@.len(),
            r <= i,
            r == backbone_count(edges.deep_view(), i as nat),
        decreases edges@.len() - i,
    {
        assert(edges.deep_view()[i as int] == edges@[i as int].deep_view());
        if edges[i].backbone {
            r += 1;
        }
        i += 1;
    }
    r
}

fn omitted_ids(entities: &Vec<(String, ResearchEntity)>, placed: &Vec<(String, Placement)>) -> (r:
    Vec<String>)
    ensures
        r.deep_view() == omitted_among(
            entities.deep_view(),
            placed.deep_view(),
            entities@.len(),
        ),
{
    let mut out: Vec<String> = Vec::new();
    let mut i: usize = 0;
    assert(out.deep_view() =~= Seq::empty());
    while i < entities.len()
        invariant
            i <= entities@.len(),
            out.deep_view() == omitted_among(
                entities.deep_view(),
                placed.deep_view(),
                i as nat,
            ),
        decreases entities@.len() - i,
    {
        assert(entities.deep_view()[i as int].0 == entities@[i as int].0@);
        if !has_row(placed, &entities[i].0) {
            let ghost was = out.deep_view();
            out.push(entities[i].0.clone());
            assert(out.deep_view() =~= was.push(entities@[i as int].0@));
        }
        i += 1;
    }
    out
}

fn diagnostics_value(
    nodes: &Vec<Json>,
    edges: &Vec<ResearchEdge>,
    a: &AcceptedRecord,
    placed: &Vec<(String, Placement)>,
) -> (r: Json)
    ensures
        r@ == diagnostics_tree(
            nodes.deep_view(),
            edges.deep_view(),
            a.deep_view(),
            placed.deep_view(),
        ),
{
    broadcast use crate::json::object_model;

    let backbone = count_backbone(edges);
    let annotations: usize = edges.len() - backbone;
    assert(edges.deep_view().len() == edges@.len());
    assert(nodes.deep_view().len() == nodes@.len());
    assert(a.deep_view().entities.len() == a.entities@.len());
    let rows = vec![
        ("annotation_edge_count".to_owned(), Json::of_count(annotations)),
        ("backbone_edge_count".to_owned(), Json::of_count(backbone)),
        ("degraded".to_owned(), Json::Bool(false)),
        ("edge_count".to_owned(), Json::of_count(edges.len())),
        ("node_count".to_owned(), Json::of_count(nodes.len())),
        ("omitted_entity_ids".to_owned(), Json::of_texts(&omitted_ids(&a.entities, placed))),
        ("root_count".to_owned(), Json::of_count(count_roots(nodes))),
    ];
    assert(rows.deep_view() =~= diagnostics_tree(
        nodes.deep_view(),
        edges.deep_view(),
        a.deep_view(),
        placed.deep_view(),
    )->Object_0);
    Json::Object(rows)
}

/// The session of a graph.
pub open spec fn session_tree(r: Record) -> Tree {
    Tree::Object(
        seq![
            (
                "event_range"@,
                Tree::Object(
                    seq![
                        ("complete"@, Tree::Bool(true)),
                        ("end"@, Tree::Text(r.session.provenance_watermark_event_id)),
                        (
                            "start"@,
                            if r.episodes.len() > 0 && r.episodes[0].source_event_ids.len() > 0 {
                                Tree::Text(r.episodes[0].source_event_ids[0])
                            } else {
                                Tree::Null
                            },
                        ),
                    ],
                ),
            ),
            ("id"@, Tree::Text(r.session.id)),
        ],
    )
}

/// Where a graph comes from.
pub open spec fn projection_tree(r: Record, id: Seq<char>) -> Tree {
    Tree::Object(
        seq![
            ("degraded"@, Tree::Bool(false)),
            ("extension_id"@, Tree::Text(EXTENSION_ID@)),
            ("profile"@, Tree::Text(RESEARCH_PROFILE@)),
            ("record_artifact_event_id"@, Tree::Text(id)),
            (
                "record_watermark_event_id"@,
                Tree::Text(r.session.provenance_watermark_event_id),
            ),
        ],
    )
}

/// How a graph was made.
pub open spec fn construction_tree(r: Record) -> Tree {
    Tree::Object(
        seq![
            (
                "observer_result_event_id"@,
                optional_text(r.construction.observer_result_event_id),
            ),
            ("operation"@, Tree::Text("research_record"@)),
            ("policy"@, Tree::Text("accepted_record"@)),
            (
                "predecessor_artifact_event_id"@,
                optional_text(r.construction.predecessor_record_artifact_event_id),
            ),
            (
                "predecessor_watermark_event_id"@,
                optional_text(r.construction.predecessor_record_watermark_event_id),
            ),
            ("trigger"@, Tree::Text("observer"@)),
        ],
    )
}

/// The trees of edges.
pub open spec fn edge_trees(edges: Seq<Drawn>) -> Seq<Tree> {
    Seq::new(edges.len(), |i: int| edges[i].tree)
}

/// The forest of a graph.
pub open spec fn forest_tree(roots: Seq<Seq<char>>, nodes: Seq<Tree>, edges: Seq<Drawn>) -> Tree {
    Tree::Object(
        seq![
            (
                "active_root"@,
                if roots.len() > 0 {
                    Tree::Text(roots[0])
                } else {
                    Tree::Null
                },
            ),
            ("edges"@, Tree::List(edge_trees(edges))),
            ("nodes"@, Tree::List(nodes)),
            ("roots"@, texts(roots)),
        ],
    )
}

/// The artifact of a graph with given nodes.
pub open spec fn graph_tree(r: Record, a: Accepted, nodes: Seq<Tree>, id: Seq<char>) -> Tree {
    let placed = placed_of(a);
    let kinds = kinds_among(r.episodes, r.episodes.len());
    let edges = edges_of(a, placed, kinds);
    Tree::Object(
        seq![
            ("construction"@, construction_tree(r)),
            ("diagnostics"@, diagnostics_tree(nodes, edges, a, placed)),
            (
                "forest"@,
                forest_tree(roots_among(a.entities, a.entities.len()), nodes, edges),
            ),
            ("generated_at"@, Tree::Text(r.generated_at)),
            ("media_type"@, Tree::Text(RESEARCH_DAG_MEDIA_TYPE@)),
            ("projection"@, projection_tree(r, id)),
            ("schema"@, Tree::Text(RESEARCH_DAG_SCHEMA@)),
            ("session"@, session_tree(r)),
        ],
    )
}

/// The nodes of the graph of a record.
pub open spec fn nodes_of(r: Record, a: Accepted) -> Result<Seq<Tree>, Seq<char>> {
    nodes_from(
        a,
        placed_of(a),
        kinds_among(r.episodes, r.episodes.len()),
        0,
        Seq::empty(),
    )
}

fn session_value(r: &ResearchRecord) -> (json: Json)
    ensures
        json@ == session_tree(r.deep_view()),
{
    broadcast use crate::json::object_model;

    let ghost model = r.deep_view();
    assert(model.episodes.len() == r.episodes@.len());
    let start = if r.episodes.len() > 0 {
        let first = &r.episodes[0];
        assert(model.episodes[0] == first.deep_view());
        assert(first.deep_view().source_event_ids.len() == first.source_event_ids@.len());
        if first.source_event_ids.len() > 0 {
            assert(first.deep_view().source_event_ids[0] == first.source_event_ids@[0]@);
            Json::of_text(&first.source_event_ids[0])
        } else {
            Json::Null
        }
    } else {
        Json::Null
    };
    let range = vec![
        ("complete".to_owned(), Json::Bool(true)),
        ("end".to_owned(), Json::of_text(&r.session.provenance_watermark_event_id)),
        ("start".to_owned(), start),
    ];
    assert(range.deep_view() =~= session_tree(model)->Object_0[0].1->Object_0);
    let rows = vec![
        ("event_range".to_owned(), Json::Object(range)),
        ("id".to_owned(), Json::of_text(&r.session.id)),
    ];
    assert(rows.deep_view() =~= session_tree(model)->Object_0);
    Json::Object(rows)
}

fn projection_value(r: &ResearchRecord, id: &str) -> (json: Json)
    ensures
        json@ == projection_tree(r.deep_view(), id@),
{
    broadcast use crate::json::object_model;

    let rows = vec![
        ("degraded".to_owned(), Json::Bool(false)),
        ("extension_id".to_owned(), Json::of_text(EXTENSION_ID)),
        ("profile".to_owned(), Json::of_text(RESEARCH_PROFILE)),
        ("record_artifact_event_id".to_owned(), Json::of_text(id)),
        (
            "record_watermark_event_id".to_owned(),
            Json::of_text(&r.session.provenance_watermark_event_id),
        ),
    ];
    assert(rows.deep_view() =~= projection_tree(r.deep_view(), id@)->Object_0);
    Json::Object(rows)
}

fn construction_value(r: &ResearchRecord) -> (json: Json)
    ensures
        json@ == construction_tree(r.deep_view()),
{
    broadcast use crate::json::object_model;

    let c = &r.construction;
    let rows = vec![
        (
            "observer_result_event_id".to_owned(),
            Json::of_optional_text(&c.observer_result_event_id),
        ),
        ("operation".to_owned(), Json::of_text("research_record")),
        ("policy".to_owned(), Json::of_text("accepted_record")),
        (
            "predecessor_artifact_event_id".to_owned(),
            Json::of_optional_text(&c.predecessor_record_artifact_event_id),
        ),
        (
            "predecessor_watermark_event_id".to_owned(),
            Json::of_optional_text(&c.predecessor_record_watermark_event_id),
        ),
        ("trigger".to_owned(), Json::of_text("observer")),
    ];
    assert(rows.deep_view() =~= construction_tree(r.deep_view())->Object_0);
    Json::Object(rows)
}

fn forest_value(roots: &Vec<String>, nodes: Vec<Json>, edges: &Vec<ResearchEdge>) -> (json: Json)
    ensures
        json@ == forest_tree(roots.deep_view(), nodes.deep_view(), edges.deep_view()),
{
    broadcast use {crate::json::object_model, crate::json::list_model};

    let ghost all_nodes = nodes.deep_view();
    let mut values: Vec<Json> = Vec::new();
    let mut i: usize = 0;
    while i < edges.len()
        invariant
            i <= edges@.len(),
            values@.len() == i,
            forall|j: int| 0 <= j < i ==> (#[trigger] values@[j])@ == edges@[j].value@,
        decreases edges@.len() - i,
    {
        values.push(edges[i].value.clone());
        i += 1;
    }
    assert(values.deep_view() =~= edge_trees(edges.deep_view()));
    assert(roots.deep_view().len() == roots@.len());
    let active = if roots.len() > 0 {
        assert(roots.deep_view()[0] == roots@[0]@);
        Json::of_text(&roots[0])
    } else {
        Json::Null
    };
    let rows = vec![
        ("active_root".to_owned(), active),
        ("edges".to_owned(), Json::List(values)),
        ("nodes".to_owned(), Json::List(nodes)),
        ("roots".to_owned(), Json::of_texts(roots)),
    ];
    assert(rows.deep_view() =~= forest_tree(
        roots.deep_view(),
        all_nodes,
        edges.deep_view(),
    )->Object_0);
    Json::Object(rows)
}

/// The artifact of the graph of a record.
pub open spec fn graph_of(r: Record, a: Accepted, id: Seq<char>) -> Result<Tree, Seq<char>> {
    match nodes_of(r, a) {
        Err(e) => Err(e),
        Ok(nodes) => Ok(graph_tree(r, a, nodes, id)),
    }
}

fn build_artifact(r: &ResearchRecord, a: &AcceptedRecord, id: &str) -> (x: Result<
    Json,
    ExtensionError,
>)
    ensures
        answers(x, graph_of(r.deep_view(), a.deep_view(), id@)),
{
    broadcast use crate::json::object_model;

    let ghost record = r.deep_view();
    let ghost accepted = a.deep_view();
    let placed = place_entities(a);
    let kinds = event_kinds(&r.episodes);
    assert(record.episodes.len() == r.episodes@.len());
    assert(accepted.entities.len() == a.entities@.len());
    let nodes = node_values(a, &placed, &kinds)?;
    let ghost all = nodes.deep_view();
    let roots = root_ids(&a.entities);
    let edges = list_edges(a, &placed, &kinds);
    let diagnostics = diagnostics_value(&nodes, &edges, a, &placed);
    let forest = forest_value(&roots, nodes, &edges);
    let rows = vec![
        ("construction".to_owned(), construction_value(r)),
        ("diagnostics".to_owned(), diagnostics),
        ("forest".to_owned(), forest),
        ("generated_at".to_owned(), Json::of_text(&r.generated_at)),
        ("media_type".to_owned(), Json::of_text(RESEARCH_DAG_MEDIA_TYPE)),
        ("projection".to_owned(), projection_value(r, id)),
        ("schema".to_owned(), Json::of_text(RESEARCH_DAG_SCHEMA)),
        ("session".to_owned(), session_value(r)),
    ];
    assert(rows.deep_view() =~= graph_tree(record, accepted, all, id@)->Object_0);
    Ok(Json::Object(rows))
}

/// The texts among the first `n` of a list.
pub open spec fn texts_among(list: Seq<Tree>, n: nat) -> Seq<Seq<char>>
    decreases n,
{
    if n == 0 {
        Seq::empty()
    } else {
        let rest = texts_among(list, (n - 1) as nat);
        match list[n - 1].text() {
            Some(text) => rest.push(text),
            None => rest,
        }
    }
}

/// The ids of the first `n` nodes.
pub open spec fn ids_among(nodes: Seq<Tree>, n: nat) -> Seq<Seq<char>>
    decreases n,
{
    if n == 0 {
        Seq::empty()
    } else {
        let rest = ids_among(nodes, (n - 1) as nat);
        match nodes[n - 1].text_at("id"@) {
            Some(id) => rest.push(id),
            None => rest,
        }
    }
}

/// The parents that the edges of the backbone name, from position `i` on.
pub open spec fn parents_from(
    edges: Seq<Tree>,
    ids: Seq<Seq<char>>,
    i: nat,
    parents: Seq<(Seq<char>, Seq<char>)>,
) -> Result<Seq<(Seq<char>, Seq<char>)>, Seq<char>>
    decreases edges.len() - i,
{
    if i >= edges.len() {
        Ok(parents)
    } else {
        let edge = edges[i as int];
        if edge.flag_at("canonical_backbone"@) != Some(true) {
            parents_from(edges, ids, i + 1, parents)
        } else {
            match edge.text_at("from"@) {
                None => Err("research projection edge has no source"@),
                Some(from) => match edge.text_at("to"@) {
                    None => Err("research projection edge has no target"@),
                    Some(to) => if !ids.contains(from) || !ids.contains(to) || member(
                        parents,
                        to,
                    ) is Some {
                        Err("research projection backbone is invalid"@)
                    } else {
                        parents_from(edges, ids, i + 1, put(parents, to, from))
                    },
                },
            }
        }
    }
}

/// What is wrong with the ways up from the nodes from position `i` on: a node has a parent or is
/// a root, and its way up ends at a root.
pub open spec fn ways_fault(
    ids: Seq<Seq<char>>,
    roots: Seq<Seq<char>>,
    parents: Seq<(Seq<char>, Seq<char>)>,
    i: nat,
) -> Option<Seq<char>>
    decreases ids.len() - i,
{
    if i >= ids.len() {
        None
    } else {
        let id = ids[i as int];
        if roots.contains(id) == (member(parents, id) is Some) {
            Some("research projection has invalid backbone parentage"@)
        } else {
            match climb(parents, id, parents.len()) {
                None => Some("research projection backbone contains a cycle"@),
                Some(end) => if roots.contains(end) {
                    ways_fault(ids, roots, parents, i + 1)
                } else {
                    Some("research projection node is detached from a question"@)
                },
            }
        }
    }
}

/// What is wrong with a forest of nodes and edges.
pub open spec fn forest_fault(nodes: Seq<Tree>, edges: Seq<Tree>, roots: Seq<Tree>) -> Option<
    Seq<char>,
> {
    let named = in_order(texts_among(roots, roots.len()));
    let ids = in_order(ids_among(nodes, nodes.len()));
    if ids.len() != nodes.len() || named.len() == 0 || exists|i: int|
        0 <= i < named.len() && !ids.contains(#[trigger] named[i]) {
        Some("research projection root or node identity is invalid"@)
    } else {
        match parents_from(edges, ids, 0, Seq::empty()) {
            Err(e) => Some(e),
            Ok(parents) => ways_fault(ids, named, parents, 0),
        }
    }
}

/// What is wrong with the artifact of a graph.
pub open spec fn projection_fault(artifact: Tree) -> Option<Seq<char>> {
    let forest = artifact.at("forest"@);
    if artifact.text_at("schema"@) != Some(RESEARCH_DAG_SCHEMA@) {
        Some("research projection has an invalid schema"@)
    } else if forest.object() is None {
        Some("research projection has no forest"@)
    } else {
        match forest.list_at("nodes"@) {
            None => Some("research projection has no nodes"@),
            Some(nodes) => match forest.list_at("edges"@) {
                None => Some("research projection has no edges"@),
                Some(edges) => match forest.list_at("roots"@) {
                    None => Some("research projection has no roots"@),
                    Some(roots) => forest_fault(nodes, edges, roots),
                },
            },
        }
    }
}

fn list_texts(list: &Vec<Json>) -> (r: Vec<String>)
    ensures
        r.deep_view() == texts_among(list.deep_view(), list@.len()),
{
    let mut out: Vec<String> = Vec::new();
    let mut i: usize = 0;
    assert(out.deep_view() =~= Seq::empty());
    while i < list.len()
        invariant
            i <= list@.len(),
            out.deep_view() == texts_among(list.deep_view(), i as nat),
        decreases list@.len() - i,
    {
        assert(list.deep_view()[i as int] == list@[i as int]@);
        if let Some(text) = list[i].as_text() {
            let ghost was = out.deep_view();
            out.push(text.clone());
            assert(out.deep_view() =~= was.push(text@));
        }
        i += 1;
    }
    out
}

fn list_ids(nodes: &Vec<Json>) -> (r: Vec<String>)
    ensures
        r.deep_view() == ids_among(nodes.deep_view(), nodes@.len()),
{
    let mut out: Vec<String> = Vec::new();
    let mut i: usize = 0;
    assert(out.deep_view() =~= Seq::empty());
    while i < nodes.len()
        invariant
            i <= nodes@.len(),
            out.deep_view() == ids_among(nodes.deep_view(), i as nat),
        decreases nodes@.len() - i,
    {
        assert(nodes.deep_view()[i as int] == nodes@[i as int]@);
        if let Some(id) = nodes[i].text_at("id") {
            let ghost was = out.deep_view();
            out.push(id.clone());
            assert(out.deep_view() =~= was.push(id@));
        }
        i += 1;
    }
    out
}

fn holds_all(ids: &Vec<String>, names: &Vec<String>) -> (r: bool)
    ensures
        r == !exists|i: int|
            0 <= i < names.deep_view().len() && !ids.deep_view().contains(
                #[trigger] names.deep_view()[i],
            ),
{
    let mut i: usize = 0;
    while i < names.len()
        invariant
            i <= names@.len(),
            forall|j: int|
                0 <= j < i ==> ids.deep_view().contains(#[trigger] names.deep_view()[j]),
        decreases names@.len() - i,
    {
        assert(names.deep_view()[i as int] == names@[i as int]@);
        if !holds(ids, &names[i]) {
            return false;
        }
        i += 1;
    }
    true
}

fn backbone_parents(edges: &Vec<Json>, ids: &Vec<String>) -> (r: Result<
    Vec<(String, String)>,
    ExtensionError,
>)
    ensures
        answers(r, parents_from(edges.deep_view(), ids.deep_view(), 0, Seq::empty())),
{
    let mut parents: Vec<(String, String)> = Vec::new();
    let mut i: usize = 0;
    assert(parents.deep_view() =~= Seq::empty());
    assert(edges.deep_view().len() == edges@.len());
    while i < edges.len()
        invariant
            i <= edges@.len(),
            edges.deep_view().len() == edges@.len(),
            parents_from(edges.deep_view(), ids.deep_view(), 0, Seq::empty()) == parents_from(
                edges.deep_view(),
                ids.deep_view(),
                i as nat,
                parents.deep_view(),
            ),
        decreases edges@.len() - i,
    {
        let edge = &edges[i];
        assert(edges.deep_view()[i as int] == edge@);
        let backbone = match edge.flag_at("canonical_backbone") {
            Some(flag) => flag,
            None => false,
        };
        if backbone {
            let from = match edge.text_at("from") {
                Some(from) => from,
                None => {
                    return Err(input_error("research projection edge has no source"));
                },
            };
            let to = match edge.text_at("to") {
                Some(to) => to,
                None => {
                    return Err(input_error("research projection edge has no target"));
                },
            };
            if !holds(ids, from) || !holds(ids, to) || has_row(&parents, to) {
                return Err(input_error("research projection backbone is invalid"));
            }
            put_row(&mut parents, to, from.clone());
        }
        i += 1;
    }
    Ok(parents)
}

fn check_ways(ids: &Vec<String>, roots: &Vec<String>, parents: &Vec<(String, String)>) -> (r:
    Result<(), ExtensionError>)
    ensures
        passes(r, ways_fault(ids.deep_view(), roots.deep_view(), parents.deep_view(), 0)),
{
    let mut i: usize = 0;
    assert(ids.deep_view().len() == ids@.len());
    assert(parents.deep_view().len() == parents@.len());
    while i < ids.len()
        invariant
            i <= ids@.len(),
            ids.deep_view().len() == ids@.len(),
            parents.deep_view().len() == parents@.len(),
            ways_fault(ids.deep_view(), roots.deep_view(), parents.deep_view(), 0)
                == ways_fault(
                ids.deep_view(),
                roots.deep_view(),
                parents.deep_view(),
                i as nat,
            ),
        decreases ids@.len() - i,
    {
        let id = &ids[i];
        assert(ids.deep_view()[i as int] == id@);
        if holds(roots, id) == has_row(parents, id) {
            return Err(input_error("research projection has invalid backbone parentage"));
        }
        match way_end(parents, id) {
            None => {
                return Err(input_error("research projection backbone contains a cycle"));
            },
            Some(end) => {
                if !holds(roots, &end) {
                    return Err(
                        input_error("research projection node is detached from a question"),
                    );
                }
            },
        }
        i += 1;
    }
    Ok(())
}

/// Checks that the artifact of a graph is one: each node is a root or has one parent, and every
/// way up ends at a root.
pub fn validate_projection(artifact: &Json) -> (r: Result<(), ExtensionError>)
    ensures
        passes(r, projection_fault(artifact@)),
{
    let known = match artifact.text_at("schema") {
        Some(schema) => same(schema, RESEARCH_DAG_SCHEMA),
        None => false,
    };
    if !known {
        return Err(input_error("research projection has an invalid schema"));
    }
    let forest = match artifact.get("forest") {
        Some(forest) => forest,
        None => {
            return Err(input_error("research projection has no forest"));
        },
    };
    if forest.as_object().is_none() {
        return Err(input_error("research projection has no forest"));
    }
    let nodes = match forest.list_at("nodes") {
        Some(nodes) => nodes,
        None => {
            return Err(input_error("research projection has no nodes"));
        },
    };
    let edges = match forest.list_at("edges") {
        Some(edges) => edges,
        None => {
            return Err(input_error("research projection has no edges"));
        },
    };
    let roots = match forest.list_at("roots") {
        Some(roots) => roots,
        None => {
            return Err(input_error("research projection has no roots"));
        },
    };
    let named = put_in_order(&list_texts(roots));
    let ids = put_in_order(&list_ids(nodes));
    assert(roots.deep_view().len() == roots@.len());
    assert(nodes.deep_view().len() == nodes@.len());
    assert(named.deep_view().len() == named@.len());
    assert(ids.deep_view().len() == ids@.len());
    if ids.len() != nodes.len() || named.len() == 0 || !holds_all(&ids, &named) {
        return Err(input_error("research projection root or node identity is invalid"));
    }
    let parents = backbone_parents(edges, &ids)?;
    check_ways(&ids, &named, &parents)
}

/// The graph of a record.
pub struct ResearchProjection {
    artifact: Json,
    source_event_ids: Vec<String>,
}

impl DeepView for ResearchProjection {
    type V = (Tree, Seq<Seq<char>>);

    closed spec fn deep_view(&self) -> (Tree, Seq<Seq<char>>) {
        (self.artifact@, self.source_event_ids.deep_view())
    }
}

/// The graph of a record, and the events that it rests on.
pub open spec fn research_graph(r: Record, id: Seq<char>) -> Result<
    (Tree, Seq<Seq<char>>),
    Seq<char>,
> {
    match accepted_of(r.ledger) {
        Err(e) => Err(e),
        Ok(a) => match graph_of(r, a, id) {
            Err(e) => Err(e),
            Ok(artifact) => match projection_fault(artifact) {
                Some(e) => Err(e),
                None => Ok((artifact, in_order(named_artifact_sources(r)).push(id))),
            },
        },
    }
}

/// The text of the artifact of a graph.
pub open spec fn graph_text(artifact: Tree) -> Seq<char> {
    json_text(artifact).push('\n')
}

/// What the artifact of a graph is written with.
pub open spec fn graph_metadata(artifact: Tree, id: Seq<char>) -> Seq<(Seq<char>, Tree)> {
    seq![
        ("profile"@, Tree::Text(RESEARCH_PROFILE@)),
        ("record_artifact_event_id"@, Tree::Text(id)),
        (
            "record_watermark_event_id"@,
            artifact.at("projection"@).at("record_watermark_event_id"@),
        ),
        ("schema"@, Tree::Text(RESEARCH_DAG_SCHEMA@)),
    ]
}

impl ResearchProjection {
    /// The graph of a record whose own artifact is the given one.
    pub fn from_record(record: &ResearchRecord, record_artifact_event_id: &str) -> (r: Result<
        Self,
        ExtensionError,
    >)
        ensures
            answers(r, research_graph(record.deep_view(), record_artifact_event_id@)),
    {
        let accepted = record.accepted()?;
        let artifact = build_artifact(record, &accepted, record_artifact_event_id)?;
        validate_projection(&artifact)?;
        let mut source_event_ids = record.artifact_source_event_ids();
        let ghost was = source_event_ids.deep_view();
        source_event_ids.push(record_artifact_event_id.to_owned());
        assert(source_event_ids.deep_view() =~= was.push(record_artifact_event_id@));
        Ok(ResearchProjection { artifact, source_event_ids })
    }

    pub fn artifact_value(&self) -> (r: Json)
        ensures
            r@ == self.deep_view().0,
    {
        self.artifact.clone()
    }

    /// The text of the artifact.
    pub fn artifact_text(&self) -> (r: Result<String, ExtensionError>)
        ensures
            answers(r, bounded_graph_text(graph_text(self.deep_view().0))),
    {
        let mut text = write_json(&self.artifact);
        text.push('\n');
        bound_graph_text(text)
    }

    pub fn source_event_ids(&self) -> (r: &Vec<String>)
        ensures
            r.deep_view() == self.deep_view().1,
    {
        &self.source_event_ids
    }

    /// What the artifact is written with.
    pub fn artifact_metadata(&self, record_artifact_event_id: &str) -> (r: Members)
        ensures
            r.deep_view() == graph_metadata(self.deep_view().0, record_artifact_event_id@),
    {
        let watermark = match self.artifact.get("projection") {
            Some(projection) => match projection.get("record_watermark_event_id") {
                Some(watermark) => watermark.clone(),
                None => Json::Null,
            },
            None => Json::Null,
        };
        let rows = vec![
            ("profile".to_owned(), Json::of_text(RESEARCH_PROFILE)),
            ("record_artifact_event_id".to_owned(), Json::of_text(record_artifact_event_id)),
            ("record_watermark_event_id".to_owned(), watermark),
            ("schema".to_owned(), Json::of_text(RESEARCH_DAG_SCHEMA)),
        ];
        assert(rows.deep_view() =~= graph_metadata(
            self.deep_view().0,
            record_artifact_event_id@,
        ));
        rows
    }
}

/// The text of a graph, unless it is too long.
pub open spec fn bounded_graph_text(text: Seq<char>) -> Result<Seq<char>, Seq<char>> {
    if byte_len(text) > MAX_RESEARCH_DAG_ARTIFACT_BYTES {
        Err("research projection exceeds the artifact size limit"@)
    } else {
        Ok(text)
    }
}

/// The text of a graph, unless it is too long.
pub fn bound_graph_text(text: String) -> (r: Result<String, ExtensionError>)
    ensures
        answers(r, bounded_graph_text(text@)),
{
    if byte_count(&text) > MAX_RESEARCH_DAG_ARTIFACT_BYTES {
        return Err(input_error("research projection exceeds the artifact size limit"));
    }
    Ok(text)
}

proof fn lemma_roots_named(entities: Seq<(Seq<char>, Entity)>, n: nat, name: Seq<char>)
    requires
        n <= entities.len(),
    ensures
        roots_among(entities, n).contains(name) <==> exists|i: int|
            0 <= i < n && (#[trigger] entities[i]).1.kind == EntityKind::Question && name == "node-"@
                + entities[i].1.id,
    decreases n,
{
    if n > 0 {
        let m = (n - 1) as nat;
        lemma_roots_named(entities, m, name);
        let rest = roots_among(entities, m);
        let all = roots_among(entities, n);
        if rest.contains(name) {
            let i = choose|i: int| 0 <= i < rest.len() && rest[i] == name;
            assert(all[i] == name);
        }
        if entities[n - 1].1.kind == EntityKind::Question {
            assert(all[rest.len() as int] == "node-"@ + entities[n - 1].1.id);
        }
        if all.contains(name) {
            let i = choose|i: int| 0 <= i < all.len() && all[i] == name;
            if i < rest.len() {
                assert(rest[i] == name);
            }
        }
    }
}

proof fn lemma_omitted(
    entities: Seq<(Seq<char>, Entity)>,
    placed: Seq<(Seq<char>, super::placement::Place)>,
    n: nat,
    id: Seq<char>,
)
    requires
        n <= entities.len(),
    ensures
        omitted_among(entities, placed, n).contains(id) <==> exists|i: int|
            0 <= i < n && (#[trigger] entities[i]).0 == id && member(placed, id) is None,
    decreases n,
{
    if n > 0 {
        let m = (n - 1) as nat;
        lemma_omitted(entities, placed, m, id);
        let rest = omitted_among(entities, placed, m);
        let all = omitted_among(entities, placed, n);
        if rest.contains(id) {
            let i = choose|i: int| 0 <= i < rest.len() && rest[i] == id;
            assert(all[i] == id);
        }
        if member(placed, entities[n - 1].0) is None {
            assert(all[rest.len() as int] == entities[n - 1].0);
        }
        if all.contains(id) {
            let i = choose|i: int| 0 <= i < all.len() && all[i] == id;
            if i < rest.len() {
                assert(rest[i] == id);
            }
        }
    }
}

/// The graph of a record names the record that it was made of, how far that has seen and where it
/// came from. Its roots are the questions, and just those; the first of them is active. It counts
/// its nodes and edges, and names each entity that it leaves out.
pub proof fn graphs_name_their_records(r: Record, id: Seq<char>, name: Seq<char>)
    requires
        research_graph(r, id) is Ok,
    ensures
        ({
            let (t, sources) = research_graph(r, id)->Ok_0;
            let a = accepted_of(r.ledger)->Ok_0;
            let nodes = nodes_of(r, a)->Ok_0;
            let edges = edges_of(a, placed_of(a), kinds_among(r.episodes, r.episodes.len()));
            let roots = roots_among(a.entities, a.entities.len());
            let omitted = omitted_among(a.entities, placed_of(a), a.entities.len());
            &&& t.text_at("schema"@) == Some("euler.causal_dag.v4"@)
            &&& t.text_at("media_type"@) == Some("application/vnd.euler.causal-dag.v4+json"@)
            &&& t.text_at("generated_at"@) == Some(r.generated_at)
            &&& t.at("projection"@).text_at("record_artifact_event_id"@) == Some(id)
            &&& t.at("projection"@).text_at("record_watermark_event_id"@) == Some(
                r.session.provenance_watermark_event_id,
            )
            &&& t.at("projection"@).text_at("extension_id"@) == Some("causal-dag"@)
            &&& t.at("projection"@).text_at("profile"@) == Some("research-causal-summary.v1"@)
            &&& t.at("projection"@).flag_at("degraded"@) == Some(false)
            &&& t.at("session"@).text_at("id"@) == Some(r.session.id)
            &&& t.at("session"@).at("event_range"@).text_at("end"@) == Some(
                r.session.provenance_watermark_event_id,
            )
            &&& t.at("session"@).at("event_range"@).flag_at("complete"@) == Some(true)
            &&& t.at("construction"@).text_at("operation"@) == Some("research_record"@)
            &&& t.at("construction"@).text_at("policy"@) == Some("accepted_record"@)
            &&& t.at("construction"@).text_at("trigger"@) == Some("observer"@)
            &&& t.at("construction"@).at("observer_result_event_id"@) == optional_text(
                r.construction.observer_result_event_id,
            )
            &&& t.at("construction"@).at("predecessor_artifact_event_id"@) == optional_text(
                r.construction.predecessor_record_artifact_event_id,
            )
            &&& t.at("construction"@).at("predecessor_watermark_event_id"@) == optional_text(
                r.construction.predecessor_record_watermark_event_id,
            )
            &&& t.at("forest"@).at("roots"@) == texts(roots)
            &&& roots.len() > 0 ==> t.at("forest"@).at("active_root"@) == Tree::Text(roots[0])
            &&& roots.contains(name) <==> exists|i: int|
                0 <= i < a.entities.len() && (#[trigger] a.entities[i]).1.kind
                    == EntityKind::Question && name == "node-"@ + a.entities[i].1.id
            &&& t.at("diagnostics"@).at("node_count"@) == counted(nodes.len())
            &&& t.at("diagnostics"@).at("edge_count"@) == counted(edges.len())
            &&& t.at("diagnostics"@).at("omitted_entity_ids"@) == texts(omitted)
            &&& omitted.contains(name) <==> exists|i: int|
                0 <= i < a.entities.len() && (#[trigger] a.entities[i]).0 == name && member(
                    placed_of(a),
                    name,
                ) is None
            &&& sources.contains(name) <==> named_artifact_sources(r).contains(name) || name == id
        }),
{
    let (t, sources) = research_graph(r, id)->Ok_0;
    let a = accepted_of(r.ledger)->Ok_0;
    lemma_roots_named(a.entities, a.entities.len(), name);
    lemma_omitted(a.entities, placed_of(a), a.entities.len(), name);
    let first = in_order(named_artifact_sources(r));
    crate::table::in_order_keeps_names(named_artifact_sources(r), name);
    assert(sources[first.len() as int] == id);
    if first.contains(name) {
        let i = choose|i: int| 0 <= i < first.len() && first[i] == name;
        assert(sources[i] == name);
    }
    if sources.contains(name) && name != id {
        let i = choose|i: int| 0 <= i < sources.len() && sources[i] == name;
        assert(first[i] == name);
    }
    let o = t->Object_0;
    reveal_strlit("construction");
    reveal_strlit("diagnostics");
    reveal_strlit("forest");
    reveal_strlit("generated_at");
    reveal_strlit("media_type");
    reveal_strlit("projection");
    reveal_strlit("schema");
    reveal_strlit("session");
    crate::table::lemma_first_row(o, "construction"@, 0);
    assert(o[0].0.len() == 12 && "diagnostics"@.len() == 11);
    crate::table::lemma_first_row(o, "diagnostics"@, 1);
    assert(o[0].0.len() == 12 && o[1].0.len() == 11 && "forest"@.len() == 6);
    crate::table::lemma_first_row(o, "forest"@, 2);
    assert(o[0].0[0] == 'c' && o[1].0.len() == 11 && o[2].0.len() == 6 && "generated_at"@.len() == 12 && "generated_at"@[0] == 'g');
    crate::table::lemma_first_row(o, "generated_at"@, 3);
    assert(o[0].0.len() == 12 && o[1].0.len() == 11 && o[2].0.len() == 6 && o[3].0.len() == 12 && "media_type"@.len() == 10);
    crate::table::lemma_first_row(o, "media_type"@, 4);
    assert(o[0].0.len() == 12 && o[1].0.len() == 11 && o[2].0.len() == 6 && o[3].0.len() == 12 && o[4].0[0] == 'm' && "projection"@.len() == 10 && "projection"@[0] == 'p');
    crate::table::lemma_first_row(o, "projection"@, 5);
    assert(o[0].0.len() == 12 && o[1].0.len() == 11 && o[2].0[0] == 'f' && o[3].0.len() == 12 && o[4].0.len() == 10 && o[5].0.len() == 10 && "schema"@.len() == 6 && "schema"@[0] == 's');
    crate::table::lemma_first_row(o, "schema"@, 6);
    assert(o[0].0.len() == 12 && o[1].0.len() == 11 && o[2].0.len() == 6 && o[3].0.len() == 12 && o[4].0.len() == 10 && o[5].0.len() == 10 && o[6].0.len() == 6 && "session"@.len() == 7);
    crate::table::lemma_first_row(o, "session"@, 7);
    let f = t.at("forest"@)->Object_0;
    reveal_strlit("active_root");
    reveal_strlit("edges");
    reveal_strlit("nodes");
    reveal_strlit("roots");
    crate::table::lemma_first_row(f, "active_root"@, 0);
    assert(f[0].0.len() == 11 && "edges"@.len() == 5);
    crate::table::lemma_first_row(f, "edges"@, 1);
    assert(f[0].0.len() == 11 && f[1].0[0] == 'e' && "nodes"@.len() == 5 && "nodes"@[0] == 'n');
    crate::table::lemma_first_row(f, "nodes"@, 2);
    assert(f[0].0.len() == 11 && f[1].0[0] == 'e' && f[2].0[0] == 'n' && "roots"@.len() == 5 && "roots"@[0] == 'r');
    crate::table::lemma_first_row(f, "roots"@, 3);
    let p = projection_tree(r, id)->Object_0;
    reveal_strlit("degraded");
    reveal_strlit("extension_id");
    reveal_strlit("profile");
    reveal_strlit("record_artifact_event_id");
    reveal_strlit("record_watermark_event_id");
    crate::table::lemma_first_row(p, "degraded"@, 0);
    assert(p[0].0.len() == 8 && "extension_id"@.len() == 12);
    crate::table::lemma_first_row(p, "extension_id"@, 1);
    assert(p[0].0.len() == 8 && p[1].0.len() == 12 && "profile"@.len() == 7);
    crate::table::lemma_first_row(p, "profile"@, 2);
    assert(p[0].0.len() == 8 && p[1].0.len() == 12 && p[2].0.len() == 7 && "record_artifact_event_id"@.len() == 24);
    crate::table::lemma_first_row(p, "record_artifact_event_id"@, 3);
    assert(p[0].0.len() == 8 && p[1].0.len() == 12 && p[2].0.len() == 7 && p[3].0.len() == 24 && "record_watermark_event_id"@.len() == 25);
    crate::table::lemma_first_row(p, "record_watermark_event_id"@, 4);
    let s = session_tree(r)->Object_0;
    reveal_strlit("event_range");
    reveal_strlit("id");
    crate::table::lemma_first_row(s, "event_range"@, 0);
    assert(s[0].0.len() == 11 && "id"@.len() == 2);
    crate::table::lemma_first_row(s, "id"@, 1);
    let e = session_tree(r).at("event_range"@)->Object_0;
    reveal_strlit("complete");
    reveal_strlit("end");
    crate::table::lemma_first_row(e, "complete"@, 0);
    assert(e[0].0.len() == 8 && "end"@.len() == 3);
    crate::table::lemma_first_row(e, "end"@, 1);
    let c = construction_tree(r)->Object_0;
    reveal_strlit("observer_result_event_id");
    reveal_strlit("operation");
    reveal_strlit("policy");
    reveal_strlit("predecessor_artifact_event_id");
    reveal_strlit("predecessor_watermark_event_id");
    reveal_strlit("trigger");
    crate::table::lemma_first_row(c, "observer_result_event_id"@, 0);
    assert(c[0].0.len() == 24 && "operation"@.len() == 9);
    crate::table::lemma_first_row(c, "operation"@, 1);
    assert(c[0].0.len() == 24 && c[1].0.len() == 9 && "policy"@.len() == 6);
    crate::table::lemma_first_row(c, "policy"@, 2);
    assert(c[0].0.len() == 24 && c[1].0.len() == 9 && c[2].0.len() == 6 && "predecessor_artifact_event_id"@.len() == 29);
    crate::table::lemma_first_row(c, "predecessor_artifact_event_id"@, 3);
    assert(c[0].0.len() == 24 && c[1].0.len() == 9 && c[2].0.len() == 6 && c[3].0.len() == 29 && "predecessor_watermark_event_id"@.len() == 30);
    crate::table::lemma_first_row(c, "predecessor_watermark_event_id"@, 4);
    assert(c[0].0.len() == 24 && c[1].0.len() == 9 && c[2].0.len() == 6 && c[3].0.len() == 29 && c[4].0.len() == 30 && "trigger"@.len() == 7);
    crate::table::lemma_first_row(c, "trigger"@, 5);
    let d = t.at("diagnostics"@)->Object_0;
    reveal_strlit("annotation_edge_count");
    reveal_strlit("backbone_edge_count");
    reveal_strlit("degraded");
    reveal_strlit("edge_count");
    reveal_strlit("node_count");
    reveal_strlit("omitted_entity_ids");
    assert(d[0].0.len() == 21 && d[1].0.len() == 19 && d[2].0.len() == 8 && "edge_count"@.len() == 10);
    crate::table::lemma_first_row(d, "edge_count"@, 3);
    assert(d[0].0.len() == 21 && d[1].0.len() == 19 && d[2].0.len() == 8 && d[3].0[0] == 'e' && "node_count"@.len() == 10 && "node_count"@[0] == 'n');
    crate::table::lemma_first_row(d, "node_count"@, 4);
    assert(d[0].0.len() == 21 && d[1].0.len() == 19 && d[2].0.len() == 8 && d[3].0.len() == 10 && d[4].0.len() == 10 && "omitted_entity_ids"@.len() == 18);
    crate::table::lemma_first_row(d, "omitted_entity_ids"@, 5);
}

/// Beside the graph of a record stand its form, its profile and the record that it was made of.
pub proof fn graphs_are_noted_with_their_record(artifact: Tree, id: Seq<char>)
    ensures
        ({
            let t = Tree::Object(graph_metadata(artifact, id));
            &&& t.text_at("profile"@) == Some("research-causal-summary.v1"@)
            &&& t.text_at("record_artifact_event_id"@) == Some(id)
            &&& t.at("record_watermark_event_id"@) == artifact.at("projection"@).at(
                "record_watermark_event_id"@,
            )
            &&& t.text_at("schema"@) == Some("euler.causal_dag.v4"@)
            &&& graph_text(artifact) == json_text(artifact).push('\n')
        }),
{
    let o = graph_metadata(artifact, id);
    reveal_strlit("profile");
    reveal_strlit("record_artifact_event_id");
    reveal_strlit("record_watermark_event_id");
    reveal_strlit("schema");
    crate::table::lemma_first_row(o, "profile"@, 0);
    assert(o[0].0.len() == 7 && "record_artifact_event_id"@.len() == 24);
    crate::table::lemma_first_row(o, "record_artifact_event_id"@, 1);
    assert(o[0].0.len() == 7 && o[1].0.len() == 24 && "record_watermark_event_id"@.len() == 25);
    crate::table::lemma_first_row(o, "record_watermark_event_id"@, 2);
    assert(o[0].0.len() == 7 && o[1].0.len() == 24 && o[2].0.len() == 25 && "schema"@.len() == 6);
    crate::table::lemma_first_row(o, "schema"@, 3);
}

} // verus!
