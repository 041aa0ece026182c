//! How many edges a graph has.

use super::graph::{
    annotations, arc_of, arcs_from, backbone_edge, drawn, edge_total, ids_of, on_backbone, parents_from,
    required_each, root_membership_fault, roots_fault, unnamed_root, Arc, Node, ViewerDag,
};
use crate::json::{Json, Tree};
use crate::table::{
    ascending, lemma_found_is_row, lemma_put_len, lemma_row_is_found, member, put,
    put_stays_ascending, put_then_member,
};
use crate::text::lemma_before_irreflexive;
use vstd::prelude::*;

verus! {

/// Every edge is either drawn as a parent or as an arc.
proof fn lemma_edges_are_split(
    edges: Seq<Tree>,
    node_ids: Seq<Seq<char>>,
    i: nat,
    parents: Seq<(Seq<char>, Seq<char>)>,
    arcs: Seq<Arc>,
)
    requires
        i <= edges.len(),
        ascending(parents),
        forall|k: int| 0 <= k < parents.len() ==> node_ids.contains((#[trigger] parents[k]).0),
        parents_from(edges, node_ids, i, parents) is Ok,
        arcs_from(edges, node_ids, i, arcs) is Ok,
    ensures
        ({
            let above = parents_from(edges, node_ids, i, parents)->Ok_0;
            let across = arcs_from(edges, node_ids, i, arcs)->Ok_0;
            &&& ascending(above)
            &&& forall|k: int| 0 <= k < above.len() ==> node_ids.contains((#[trigger] above[k]).0)
            &&& above.len() + across.len() == parents.len() + arcs.len() + edges.len() - i
        }),
    decreases edges.len() - i,
{
    if i < edges.len() {
        if on_backbone(edges[i as int]) {
            let (to, from) = backbone_edge(edges[i as int], node_ids)->Ok_0;
            let next = put(parents, to, from);
            put_stays_ascending(parents, to, from);
            lemma_put_len(parents, to, from);
            assert forall|k: int| 0 <= k < next.len() implies node_ids.contains(
                (#[trigger] next[k]).0,
            ) by {
                let name = next[k].0;
                if name != to {
                    lemma_row_is_found(next, k);
                    put_then_member(parents, to, from, name);
                    lemma_found_is_row(parents, name);
                }
            }
            lemma_edges_are_split(edges, node_ids, i + 1, next, arcs);
        } else {
            let arc = arc_of(edges[i as int], node_ids)->Ok_0;
            lemma_edges_are_split(edges, node_ids, i + 1, parents, arcs.push(arc));
        }
    }
}

pub(crate) proof fn lemma_roots_are_named(roots: Seq<Seq<char>>, ids: Seq<Seq<char>>, i: nat, k: int)
    requires
        unnamed_root(roots, ids, i) is None,
        i <= k < roots.len(),
    ensures
        ids.contains(roots[k]),
    decreases roots.len() - i,
{
    if i < k {
        lemma_roots_are_named(roots, ids, i + 1, k);
    }
}

pub(crate) proof fn lemma_root_or_child(
    roots: Seq<Seq<char>>,
    nodes: Seq<Node>,
    parents: Seq<(Seq<char>, Seq<char>)>,
    i: nat,
    k: int,
)
    requires
        root_membership_fault(roots, nodes, parents, i) is None,
        i <= k < nodes.len(),
    ensures
        roots.contains(nodes[k].id) != (member(parents, nodes[k].id) is Some),
    decreases nodes.len() - i,
{
    if i < k {
        lemma_root_or_child(roots, nodes, parents, i + 1, k);
    }
}

/// The names of a table.
spec fn names_of(parents: Seq<(Seq<char>, Seq<char>)>) -> Seq<Seq<char>> {
    Seq::new(parents.len(), |k: int| parents[k].0)
}

/// The nodes are the roots and the nodes that have a parent.
proof fn lemma_nodes_are_split(
    roots: Seq<Seq<char>>,
    nodes: Seq<Node>,
    parents: Seq<(Seq<char>, Seq<char>)>,
)
    requires
        ids_of(nodes).no_duplicates(),
        ascending(parents),
        forall|k: int|
            0 <= k < parents.len() ==> ids_of(nodes).contains((#[trigger] parents[k]).0),
        roots_fault(roots, nodes, parents) is None,
    ensures
        nodes.len() == roots.len() + parents.len(),
{
    let ids = ids_of(nodes);
    let names = names_of(parents);
    assert(names.no_duplicates()) by {
        assert forall|a: int, b: int|
            0 <= a < names.len() && 0 <= b < names.len() && a != b implies names[a] != names[b] by {
            lemma_before_irreflexive(parents[a].0);
            if a < b {
                assert(crate::text::before(parents[a].0, parents[b].0));
            } else {
                assert(crate::text::before(parents[b].0, parents[a].0));
            }
        }
    }
    ids.unique_seq_to_set();
    names.unique_seq_to_set();
    roots.unique_seq_to_set();
    vstd::seq_lib::seq_to_set_is_finite(names);
    vstd::seq_lib::seq_to_set_is_finite(roots);
    assert forall|id: Seq<char>| #[trigger] ids.to_set().contains(id) implies (
    roots.to_set() + names.to_set()).contains(id) by {
        let k = choose|k: int| 0 <= k < ids.len() && ids[k] == id;
        assert(nodes[k].id == id);
        lemma_root_or_child(roots, nodes, parents, 0, k);
        if !roots.contains(id) {
            lemma_found_is_row(parents, id);
            let row = choose|row: int|
                0 <= row < parents.len() && #[trigger] parents[row] == (id, member(parents, id)->0);
            assert(names[row] == id);
        }
    }
    assert forall|id: Seq<char>| #[trigger]
        (roots.to_set() + names.to_set()).contains(id) implies ids.to_set().contains(id) by {
        if roots.contains(id) {
            let k = choose|k: int| 0 <= k < roots.len() && roots[k] == id;
            lemma_roots_are_named(roots, ids, 0, k);
        } else {
            let k = choose|k: int| 0 <= k < names.len() && names[k] == id;
            assert(ids.contains(parents[k].0));
        }
    }
    assert(ids.to_set() =~= roots.to_set() + names.to_set());
    assert forall|id: Seq<char>| roots.to_set().contains(id) implies !(#[trigger]
    names.to_set().contains(id)) by {
        if names.contains(id) {
            let k = choose|k: int| 0 <= k < names.len() && names[k] == id;
            lemma_row_is_found(parents, k);
            assert(ids.contains(parents[k].0));
            let n = choose|n: int| 0 <= n < ids.len() && ids[n] == id;
            assert(nodes[n].id == id);
            lemma_root_or_child(roots, nodes, parents, 0, n);
        }
    }
    assert(roots.to_set().disjoint(names.to_set()));
    vstd::set_lib::lemma_set_disjoint_lens(roots.to_set(), names.to_set());
}

/// A graph that is drawn has just as many edges as the artifact lists, and just as many nodes.
pub proof fn every_edge_is_counted(artifact: Tree)
    requires
        drawn(artifact) is Ok,
    ensures
        edge_total(drawn(artifact)->Ok_0) == artifact.at("forest"@).list_at("edges"@)->0.len(),
        drawn(artifact)->Ok_0.nodes.len() == artifact.at("forest"@).list_at("nodes"@)->0.len(),
{
    let raw_nodes = artifact.at("forest"@).list_at("nodes"@)->0;
    let raw_edges = artifact.at("forest"@).list_at("edges"@)->0;
    let dag = drawn(artifact)->Ok_0;
    let node_ids = required_each(raw_nodes, "id"@, "node"@, 0, Seq::empty())->Ok_0;
    let parents = parents_from(raw_edges, node_ids, 0, Seq::empty())->Ok_0;
    lemma_edges_are_split(raw_edges, node_ids, 0, Seq::empty(), Seq::empty());
    super::graph::lemma_forest(
        raw_nodes,
        raw_edges,
        dag.roots,
        node_ids,
        parents,
        dag.nodes,
    );
    lemma_nodes_are_split(dag.roots, dag.nodes, parents);
}

/// The number of annotations among the edges from position `i` on.
pub open spec fn annotation_edges(edges: Seq<Tree>, i: nat) -> nat
    decreases edges.len() - i,
{
    if i >= edges.len() {
        0
    } else {
        annotation_edges(edges, i + 1) + (if edges[i as int].text_at("class"@) == Some(
            "annotation"@,
        ) {
            1nat
        } else {
            0
        })
    }
}

proof fn lemma_annotations_push(arcs: Seq<Arc>, arc: Arc, n: nat)
    requires
        n <= arcs.len(),
    ensures
        annotations(arcs.push(arc), n) == annotations(arcs, n),
    decreases n,
{
    if n > 0 {
        lemma_annotations_push(arcs, arc, (n - 1) as nat);
        assert(arcs.push(arc)[n - 1] == arcs[n - 1]);
    }
}

proof fn lemma_annotations_are_arcs(
    edges: Seq<Tree>,
    node_ids: Seq<Seq<char>>,
    i: nat,
    parents: Seq<(Seq<char>, Seq<char>)>,
    arcs: Seq<Arc>,
)
    requires
        i <= edges.len(),
        parents_from(edges, node_ids, i, parents) is Ok,
        arcs_from(edges, node_ids, i, arcs) is Ok,
    ensures
        ({
            let across = arcs_from(edges, node_ids, i, arcs)->Ok_0;
            annotations(across, across.len()) == annotations(arcs, arcs.len()) + annotation_edges(
                edges,
                i,
            )
        }),
    decreases edges.len() - i,
{
    if i < edges.len() {
        if on_backbone(edges[i as int]) {
            let (to, from) = backbone_edge(edges[i as int], node_ids)->Ok_0;
            lemma_annotations_are_arcs(edges, node_ids, i + 1, put(parents, to, from), arcs);
        } else {
            let arc = arc_of(edges[i as int], node_ids)->Ok_0;
            lemma_annotations_push(arcs, arc, arcs.len());
            assert(arcs.push(arc)[arcs.len() as int] == arc);
            lemma_annotations_are_arcs(edges, node_ids, i + 1, parents, arcs.push(arc));
        }
    }
}

/// A graph that is drawn has just as many cross-arcs as the artifact lists annotations.
pub proof fn every_annotation_is_a_cross_arc(artifact: Tree)
    requires
        drawn(artifact) is Ok,
    ensures
        annotations(drawn(artifact)->Ok_0.arcs, drawn(artifact)->Ok_0.arcs.len())
            == annotation_edges(artifact.at("forest"@).list_at("edges"@)->0, 0),
{
    let raw_nodes = artifact.at("forest"@).list_at("nodes"@)->0;
    let raw_edges = artifact.at("forest"@).list_at("edges"@)->0;
    let node_ids = required_each(raw_nodes, "id"@, "node"@, 0, Seq::empty())->Ok_0;
    lemma_annotations_are_arcs(raw_edges, node_ids, 0, Seq::empty(), Seq::empty());
}

/// The number of edges of a graph that was drawn from an artifact.
pub(crate) fn edges_of_artifact(dag: &ViewerDag, artifact: &Json) -> (r: usize)
    requires
        super::graph::draws(Ok(*dag), artifact@),
    ensures
        r == edge_total(dag.deep_view()),
{
    proof {
        every_edge_is_counted(artifact@);
    }
    if let Some(forest) = artifact.get("forest") {
        if let Some(edges) = forest.list_at("edges") {
            assert(edges.deep_view().len() == edges@.len());
            return edges.len();
        }
    }
    0
}

} // verus!
