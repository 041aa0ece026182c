//! A graph that can be drawn can be summarised.

use super::backbone::{all_shallow, kids_of, kin_of, link_of, shallow, Kin};
use super::budget::artifact_summary;
use super::parts::{finite, path_start, root_texts, summarised_artifact};
use crate::export::graph::{
    backbone_edge, climb, drawn, ids_of, lemma_forest, on_backbone, parents_from, required_each,
    text_each,
};
use crate::json::Tree;
use crate::table::{
    enter, lemma_enter_members, lemma_found_is_row, member, put, put_then_member,
};
use vstd::prelude::*;

verus! {

/// The parents of the nodes.
type Above = Seq<(Seq<char>, Seq<char>)>;

/// How many steps the way up from a node takes, if it ends within a number of steps.
spec fn rise(parents: Above, id: Seq<char>, steps: nat) -> nat
    decreases steps,
{
    match member(parents, id) {
        None => 0,
        Some(parent) => if steps == 0 {
            0
        } else {
            1 + rise(parents, parent, (steps - 1) as nat)
        },
    }
}

proof fn lemma_rise_settles(parents: Above, id: Seq<char>, steps: nat)
    requires
        climb(parents, id, steps) is Some,
    ensures
        climb(parents, id, steps + 1) is Some,
        rise(parents, id, steps + 1) == rise(parents, id, steps),
    decreases steps,
{
    if let Some(parent) = member(parents, id) {
        lemma_rise_settles(parents, parent, (steps - 1) as nat);
    }
}

/// How many of the first `n` parents stand at least so many steps below a root.
spec fn deep_rows(kin: Kin, parents: Above, depth: nat, n: nat) -> nat
    decreases n,
{
    if n == 0 {
        0
    } else {
        deep_rows(kin, parents, depth, (n - 1) as nat) + (if rise(
            parents,
            kin[n - 1].0,
            parents.len(),
        ) >= depth {
            1nat
        } else {
            0
        })
    }
}

proof fn lemma_deep_rows(kin: Kin, parents: Above, depth: nat, n: nat, k: int)
    requires
        n <= kin.len(),
    ensures
        deep_rows(kin, parents, depth, n) <= n,
        deep_rows(kin, parents, depth + 1, n) <= deep_rows(kin, parents, depth, n),
        0 <= k < n && rise(parents, kin[k].0, parents.len()) == depth ==> deep_rows(
            kin,
            parents,
            depth + 1,
            n,
        ) < deep_rows(kin, parents, depth, n),
    decreases n,
{
    if n > 0 {
        lemma_deep_rows(kin, parents, depth, (n - 1) as nat, k);
    }
}

/// Whether a table of children says of each child what the table of parents says.
spec fn agrees(kin: Kin, parents: Above) -> bool {
    &&& forall|node: Seq<char>| #[trigger]
        member(kin, node) is Some ==> climb(parents, node, parents.len()) is Some
    &&& forall|node: Seq<char>, kid: Seq<char>| #[trigger]
        kids_of(kin, node).contains(kid) ==> member(parents, kid) == Some(node) && climb(
            parents,
            kid,
            parents.len(),
        ) is Some
}

proof fn lemma_shallow(kin: Kin, parents: Above, node: Seq<char>, steps: nat)
    requires
        agrees(kin, parents),
        deep_rows(kin, parents, rise(parents, node, parents.len()), kin.len()) <= steps,
    ensures
        shallow(kin, node, steps),
    decreases steps, 0int,
{
    if let Some(kids) = member(kin, node) {
        lemma_found_is_row(kin, node);
        let k = choose|k: int| 0 <= k < kin.len() && #[trigger] kin[k] == (node, kids);
        let depth = rise(parents, node, parents.len());
        lemma_deep_rows(kin, parents, depth, kin.len(), k);
        assert forall|j: int| 0 <= j < kids.len() implies rise(
            parents,
            #[trigger] kids[j],
            parents.len(),
        ) == depth + 1 by {
            let kid = kids[j];
            assert(kids_of(kin, node).contains(kid));
            assert(member(parents, kid) == Some(node));
            lemma_rise_settles(parents, node, (parents.len() - 1) as nat);
        }
        lemma_all_shallow(kin, parents, kids, kids.len(), depth + 1, (steps - 1) as nat);
    }
}

proof fn lemma_all_shallow(
    kin: Kin,
    parents: Above,
    nodes: Seq<Seq<char>>,
    n: nat,
    depth: nat,
    steps: nat,
)
    requires
        agrees(kin, parents),
        n <= nodes.len(),
        deep_rows(kin, parents, depth, kin.len()) <= steps,
        forall|j: int|
            0 <= j < nodes.len() ==> rise(parents, #[trigger] nodes[j], parents.len()) == depth,
    ensures
        all_shallow(kin, nodes, n, steps),
    decreases steps, n + 1,
{
    if n > 0 {
        lemma_all_shallow(kin, parents, nodes, (n - 1) as nat, depth, steps);
        lemma_shallow(kin, parents, nodes[n - 1], steps);
    }
}

/// A parent that was read stays.
proof fn lemma_parent_stays(
    edges: Seq<Tree>,
    node_ids: Seq<Seq<char>>,
    i: nat,
    parents: Above,
    id: Seq<char>,
)
    requires
        parents_from(edges, node_ids, i, parents) is Ok,
        member(parents, id) is Some,
    ensures
        member(parents_from(edges, node_ids, i, parents)->Ok_0, id) == member(parents, id),
    decreases edges.len() - i,
{
    if i < edges.len() {
        if !on_backbone(edges[i as int]) {
            lemma_parent_stays(edges, node_ids, i + 1, parents, id);
        } else {
            let (to, from) = backbone_edge(edges[i as int], node_ids)->Ok_0;
            put_then_member(parents, to, from, id);
            lemma_parent_stays(edges, node_ids, i + 1, put(parents, to, from), id);
        }
    }
}

/// What an edge of the backbone says stands in the table of parents.
proof fn lemma_edge_is_read(
    edges: Seq<Tree>,
    node_ids: Seq<Seq<char>>,
    i: nat,
    parents: Above,
    k: int,
)
    requires
        parents_from(edges, node_ids, i, parents) is Ok,
        i <= k < edges.len(),
        on_backbone(edges[k]),
    ensures
        backbone_edge(edges[k], node_ids) is Ok,
        ({
            let (to, from) = backbone_edge(edges[k], node_ids)->Ok_0;
            member(parents_from(edges, node_ids, i, parents)->Ok_0, to) == Some(from)
        }),
    decreases edges.len() - i,
{
    if !on_backbone(edges[i as int]) {
        lemma_edge_is_read(edges, node_ids, i + 1, parents, k);
    } else {
        let (to, from) = backbone_edge(edges[i as int], node_ids)->Ok_0;
        put_then_member(parents, to, from, to);
        if i < k {
            lemma_edge_is_read(edges, node_ids, i + 1, put(parents, to, from), k);
        } else {
            lemma_parent_stays(edges, node_ids, i + 1, put(parents, to, from), to);
        }
    }
}

/// What a table of children says comes from an edge.
proof fn lemma_kin_comes_from_edges(edges: Seq<Tree>, n: nat, node: Seq<char>, kid: Seq<char>)
    requires
        n <= edges.len(),
    ensures
        kids_of(kin_of(edges, n), node).contains(kid) ==> exists|k: int|
            0 <= k < n && link_of(#[trigger] edges[k]) == Some((node, kid)),
        member(kin_of(edges, n), node) is Some ==> exists|k: int|
            0 <= k < n && link_of(#[trigger] edges[k]) is Some && (link_of(edges[k])->0).0 == node,
    decreases n,
{
    if n > 0 {
        let was = kin_of(edges, (n - 1) as nat);
        lemma_kin_comes_from_edges(edges, (n - 1) as nat, node, kid);
        if let Some((from, to)) = link_of(edges[n - 1]) {
            put_then_member(was, from, enter(kids_of(was, from), to), node);
            lemma_enter_members(kids_of(was, from), to, kid);
            if node == from {
                assert(link_of(edges[n - 1]) is Some && (link_of(edges[n - 1])->0).0 == node);
                if kid == to {
                    assert(link_of(edges[n - 1]) == Some((node, kid)));
                }
            }
        }
    }
}

proof fn lemma_roots_are_texts(
    list: Seq<Tree>,
    field: Seq<char>,
    i: nat,
    found: Seq<Seq<char>>,
)
    requires
        text_each(list, field, i, found) is Ok,
    ensures
        root_texts(list, i, found) is Ok,
    decreases list.len() - i,
{
    if i < list.len() {
        lemma_roots_are_texts(list, field, i + 1, found.push(list[i as int].text()->0));
    }
}

/// A graph that can be drawn can be summarised.
pub proof fn drawn_graphs_are_summarised(artifact: Tree)
    requires
        drawn(artifact) is Ok,
    ensures
        artifact_summary(artifact) is Ok,
        artifact_summary(artifact)->Ok_0 is Some,
{
    let forest = artifact.at("forest"@);
    let raw_nodes = forest.list_at("nodes"@)->0;
    let raw_edges = forest.list_at("edges"@)->0;
    let dag = drawn(artifact)->Ok_0;
    let node_ids = required_each(raw_nodes, "id"@, "node"@, 0, Seq::empty())->Ok_0;
    let parents = parents_from(raw_edges, node_ids, 0, Seq::empty())->Ok_0;
    lemma_forest(raw_nodes, raw_edges, dag.roots, node_ids, parents, dag.nodes);
    lemma_roots_are_texts(
        forest.list_at("roots"@)->0,
        "forest.roots"@,
        0,
        Seq::empty(),
    );
    let graph = summarised_artifact(artifact)->Ok_0;
    let kin = kin_of(raw_edges, raw_edges.len());
    assert forall|node: Seq<char>| #[trigger] member(kin, node) is Some implies climb(
        parents,
        node,
        parents.len(),
    ) is Some by {
        lemma_kin_comes_from_edges(raw_edges, raw_edges.len(), node, node);
        let k = choose|k: int|
            0 <= k < raw_edges.len() && link_of(#[trigger] raw_edges[k]) is Some && (link_of(
                raw_edges[k],
            )->0).0 == node;
        lemma_edge_is_read(raw_edges, node_ids, 0, Seq::empty(), k);
        lemma_named_climbs(dag.nodes, parents, node);
    }
    assert forall|node: Seq<char>, kid: Seq<char>| #[trigger]
        kids_of(kin, node).contains(kid) implies member(parents, kid) == Some(node) && climb(
        parents,
        kid,
        parents.len(),
    ) is Some by {
        lemma_kin_comes_from_edges(raw_edges, raw_edges.len(), node, kid);
        let k = choose|k: int|
            0 <= k < raw_edges.len() && link_of(#[trigger] raw_edges[k]) == Some((node, kid));
        lemma_edge_is_read(raw_edges, node_ids, 0, Seq::empty(), k);
        lemma_named_climbs(dag.nodes, parents, kid);
    }
    if let Some(start) = path_start(graph) {
        lemma_deep_rows(
            kin,
            parents,
            rise(parents, start, parents.len()),
            kin.len(),
            0,
        );
        lemma_shallow(kin, parents, start, kin.len());
    }
    assert(finite(graph));
}

proof fn lemma_named_climbs(
    nodes: Seq<crate::export::graph::Node>,
    parents: Above,
    id: Seq<char>,
)
    requires
        crate::export::graph::forest(nodes, parents),
        ids_of(nodes).contains(id),
    ensures
        climb(parents, id, parents.len()) is Some,
{
    let k = choose|k: int| 0 <= k < ids_of(nodes).len() && ids_of(nodes)[k] == id;
    assert(nodes[k].id == id);
}

proof fn lemma_root_texts(roots: Seq<Seq<char>>, i: nat, found: Seq<Seq<char>>)
    requires
        found == roots.take(i as int),
        i <= roots.len(),
    ensures
        super::parts::root_texts(crate::json::texts(roots)->List_0, i, found) == Ok::<
            Seq<Seq<char>>,
            Seq<char>,
        >(roots),
    decreases roots.len() - i,
{
    if i < roots.len() {
        assert(roots.take(i as int).push(roots[i as int]) =~= roots.take((i + 1) as int));
        lemma_root_texts(roots, i + 1, found.push(roots[i as int]));
    } else {
        assert(roots.take(i as int) =~= roots);
    }
}

/// A graph is summarised the same before and after it is written as an artifact.
pub proof fn artifacts_are_summarised_as_their_graphs(
    p: crate::projection::forest::Projected,
    branching: Tree,
    sequence: Tree,
)
    ensures
        super::parts::summarised_artifact(
            crate::projection::forest::artifact_tree(p, branching, sequence),
        ) == Ok::<super::parts::Summarised, Seq<char>>(super::parts::summarised_projection(p)),
{
    crate::projection::forest::artifacts_hold_their_graphs(p, branching, sequence);
    assert(p.roots.take(0) =~= Seq::empty());
    lemma_root_texts(p.roots, 0, Seq::empty());
}

} // verus!
