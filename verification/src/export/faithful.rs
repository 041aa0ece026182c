//! What is drawn is what the artifact says: each node and each edge of it, and nothing else.

use super::graph::{
    arc_of, arcs_from, backbone_edge, drawn, node_of, nodes_from, on_backbone, parents_from,
    required_each, Arc, Node,
};
use crate::json::Tree;
use crate::table::{member, put_then_member};
use vstd::prelude::*;

verus! {

proof fn lemma_nodes(
    list: Seq<Tree>,
    parents: Seq<(Seq<char>, Seq<char>)>,
    i: nat,
    made: Seq<Node>,
    k: int,
)
    requires
        nodes_from(list, parents, i, made) is Ok,
        i <= list.len(),
    ensures
        ({
            let out = nodes_from(list, parents, i, made)->Ok_0;
            &&& out.len() == made.len() + list.len() - i
            &&& 0 <= k < made.len() ==> out[k] == made[k]
            &&& made.len() <= k < out.len() ==> node_of(list[i + k - made.len()], parents) == Ok::<
                Node,
                Seq<char>,
            >(out[k])
        }),
    decreases list.len() - i,
{
    if i < list.len() {
        let node = node_of(list[i as int], parents)->Ok_0;
        lemma_nodes(list, parents, i + 1, made.push(node), k);
    }
}

/// Whether one of the edges from position `i` on is of the backbone and leads from one node to
/// another.
pub open spec fn hangs(edges: Seq<Tree>, i: int, child: Seq<char>, parent: Seq<char>) -> bool {
    exists|k: int|
        i <= k < edges.len() && #[trigger] edges[k].flag_at("canonical_backbone"@) == Some(true)
            && edges[k].text_at("from"@) == Some(parent) && edges[k].text_at("to"@) == Some(child)
}

proof fn lemma_parents(
    edges: Seq<Tree>,
    ids: Seq<Seq<char>>,
    i: nat,
    parents: Seq<(Seq<char>, Seq<char>)>,
    child: Seq<char>,
    parent: Seq<char>,
)
    requires
        parents_from(edges, ids, i, parents) is Ok,
        i <= edges.len(),
    ensures
        ({
            let out = parents_from(edges, ids, i, parents)->Ok_0;
            &&& member(parents, child) is Some ==> member(out, child) == member(parents, child)
            &&& member(out, child) == Some(parent) <==> member(parents, child) == Some(parent)
                || hangs(edges, i as int, child, parent)
        }),
    decreases edges.len() - i,
{
    if i < edges.len() {
        let e = edges[i as int];
        let flagged = e.flag_at("canonical_backbone"@);
        if !on_backbone(e) {
            lemma_parents(edges, ids, i + 1, parents, child, parent);
            if hangs(edges, i as int, child, parent) {
                let k = choose|k: int|
                    i <= k < edges.len() && #[trigger] edges[k].flag_at("canonical_backbone"@)
                        == Some(true) && edges[k].text_at("from"@) == Some(parent)
                        && edges[k].text_at("to"@) == Some(child);
                assert(k != i);
            }
        } else {
            let (to, from) = backbone_edge(e, ids)->Ok_0;
            let next = crate::table::put(parents, to, from);
            lemma_parents(edges, ids, i + 1, next, child, parent);
            lemma_parents(edges, ids, i + 1, next, child, from);
            put_then_member(parents, to, from, child);
            assert(e.text_at("from"@) == Some(from) && e.text_at("to"@) == Some(to));
            if child == to {
                assert(edges[i as int].flag_at("canonical_backbone"@) == Some(true));
                assert(hangs(edges, i as int, child, from));
            }
            if hangs(edges, i as int, child, parent) {
                let k = choose|k: int|
                    i <= k < edges.len() && #[trigger] edges[k].flag_at("canonical_backbone"@)
                        == Some(true) && edges[k].text_at("from"@) == Some(parent)
                        && edges[k].text_at("to"@) == Some(child);
                if k > i {
                    assert(hangs(edges, i as int + 1, child, parent));
                }
            }
            if hangs(edges, i as int + 1, child, parent) {
                let k = choose|k: int|
                    i + 1 <= k < edges.len() && #[trigger] edges[k].flag_at("canonical_backbone"@)
                        == Some(true) && edges[k].text_at("from"@) == Some(parent)
                        && edges[k].text_at("to"@) == Some(child);
                assert(hangs(edges, i as int, child, parent));
            }
        }
    }
}

/// Whether an edge is drawn as a cross-arc.
pub open spec fn crosses(e: Tree, arc: Arc) -> bool {
    &&& e.flag_at("canonical_backbone"@) == Some(false)
    &&& e.text_at("id"@) == Some(arc.id)
    &&& e.text_at("from"@) == Some(arc.from)
    &&& e.text_at("to"@) == Some(arc.to)
    &&& e.text_at("class"@) == Some(arc.class)
    &&& e.text_at("kind"@) == Some(arc.kind)
    &&& arc.note == match e.at("basis"@).text_at("summary"@) {
        Some(note) => note,
        None => Seq::empty(),
    }
}

proof fn lemma_arcs(edges: Seq<Tree>, ids: Seq<Seq<char>>, i: nat, made: Seq<Arc>, arc: Arc)
    requires
        arcs_from(edges, ids, i, made) is Ok,
        i <= edges.len(),
    ensures
        arcs_from(edges, ids, i, made)->Ok_0.contains(arc) <==> made.contains(arc) || exists|k: int|
            i <= k < edges.len() && !on_backbone(#[trigger] edges[k]) && arc_of(edges[k], ids)
                == Ok::<Arc, Seq<char>>(arc),
        forall|k: int|
            i <= k < edges.len() && !on_backbone(#[trigger] edges[k]) ==> arc_of(
                edges[k],
                ids,
            ) is Ok,
    decreases edges.len() - i,
{
    if i < edges.len() {
        if on_backbone(edges[i as int]) {
            lemma_arcs(edges, ids, i + 1, made, arc);
        } else {
            let here = arc_of(edges[i as int], ids)->Ok_0;
            let more = made.push(here);
            lemma_arcs(edges, ids, i + 1, more, arc);
            assert(more[made.len() as int] == here);
            if made.contains(arc) {
                let k = choose|k: int| 0 <= k < made.len() && made[k] == arc;
                assert(more[k] == arc);
            }
            if more.contains(arc) && arc != here {
                let k = choose|k: int| 0 <= k < more.len() && more[k] == arc;
                assert(made[k] == arc);
            }
        }
    }
}

/// Whether a class of edges has a kind.
pub open spec fn belongs(class: Seq<char>, kind: Seq<char>) -> bool {
    ||| class == "structural"@ && (kind == "continuation"@ || kind == "decomposition"@ || kind
        == "fork"@ || kind == "integration"@ || kind == "refinement"@ || kind == "repair"@ || kind
        == "verification"@)
    ||| class == "annotation"@ && (kind == "artifact_use"@ || kind == "evidence"@ || kind
        == "pivot"@ || kind == "refutation"@ || kind == "related"@ || kind == "supersedes"@)
    ||| class == "chronology"@ && kind == "sequence"@
}

/// A node is drawn for each node of the artifact, in its place: under its id, with its title, its
/// summary and its kind. Its status is its own, but for two older names, which are drawn as
/// `inconclusive` and `dead_end`. It hangs below the node from which an edge of the backbone
/// leads to it, if one does.
pub proof fn nodes_are_drawn_as_they_are(artifact: Tree, k: int, parent: Seq<char>)
    requires
        drawn(artifact) is Ok,
    ensures
        ({
            let dag = drawn(artifact)->Ok_0;
            let forest = artifact.at("forest"@);
            let raw = forest.list_at("nodes"@)->0;
            let edges = forest.list_at("edges"@)->0;
            let n = dag.nodes[k];
            &&& forest.list_at("nodes"@) is Some
            &&& forest.list_at("edges"@) is Some
            &&& dag.nodes.len() == raw.len()
            &&& 0 <= k < raw.len() ==> {
                let status = raw[k].text_at("status"@);
                &&& raw[k].text_at("id"@) == Some(n.id)
                &&& raw[k].text_at("title"@) == Some(n.title)
                &&& raw[k].text_at("summary"@) == Some(n.summary)
                &&& raw[k].text_at("kind"@) == Some(n.kind)
                &&& n.kind == "root"@ || n.kind == "attempt"@ || n.kind == "claim"@ || n.kind
                    == "checkpoint"@ || n.kind == "synthesis"@
                &&& status == Some("promising"@) ==> n.status == "inconclusive"@
                &&& status == Some("dead"@) ==> n.status == "dead_end"@
                &&& status != Some("promising"@) && status != Some("dead"@) ==> status == Some(
                    n.status,
                )
                &&& n.status == "open"@ || n.status == "blocked"@ || n.status == "dead_end"@
                    || n.status == "inconclusive"@ || n.status == "success"@ || n.status
                    == "verified"@ || n.status == "superseded"@ || n.status == "abandoned"@
                &&& n.parent == Some(parent) <==> hangs(edges, 0, n.id, parent)
            }
        }),
{
    let forest = artifact.at("forest"@);
    let raw = forest.list_at("nodes"@)->0;
    let edges = forest.list_at("edges"@)->0;
    let ids = required_each(raw, "id"@, "node"@, 0, Seq::empty())->Ok_0;
    let parents = parents_from(edges, ids, 0, Seq::empty())->Ok_0;
    let dag = drawn(artifact)->Ok_0;
    lemma_nodes(raw, parents, 0, Seq::empty(), k);
    reveal_strlit("promising");
    reveal_strlit("dead");
    assert("promising"@.len() == 9 && "dead"@.len() == 4);
    if 0 <= k < raw.len() {
        assert(node_of(raw[k], parents) == Ok::<Node, Seq<char>>(dag.nodes[k]));
        lemma_parents(edges, ids, 0, Seq::empty(), dag.nodes[k].id, parent);
    }
}

/// A cross-arc is drawn for each edge of the artifact that is not of the backbone, and for no
/// other: from the same node to the same node, of the same class and kind, with its summary as
/// its note. The kind is one of its class, and no annotation is of the backbone.
pub proof fn edges_are_drawn_as_they_are(artifact: Tree, arc: Arc, k: int)
    requires
        drawn(artifact) is Ok,
    ensures
        ({
            let dag = drawn(artifact)->Ok_0;
            let edges = artifact.at("forest"@).list_at("edges"@)->0;
            &&& dag.arcs.contains(arc) <==> exists|j: int|
                0 <= j < edges.len() && #[trigger] crosses(edges[j], arc)
            &&& dag.arcs.contains(arc) ==> belongs(arc.class, arc.kind)
            &&& 0 <= k < edges.len() && edges[k].flag_at("canonical_backbone"@) == Some(true)
                ==> edges[k].text_at("class"@) is Some && edges[k].text_at("kind"@) is Some
                && belongs(edges[k].text_at("class"@)->0, edges[k].text_at("kind"@)->0)
                && edges[k].text_at("class"@) != Some("annotation"@)
        }),
{
    let edges = artifact.at("forest"@).list_at("edges"@)->0;
    let raw = artifact.at("forest"@).list_at("nodes"@)->0;
    let ids = required_each(raw, "id"@, "node"@, 0, Seq::empty())->Ok_0;
    let dag = drawn(artifact)->Ok_0;
    lemma_arcs(edges, ids, 0, Seq::empty(), arc);
    lemma_backbone(edges, ids, 0, Seq::empty(), k);
    if dag.arcs.contains(arc) {
        let j = choose|j: int|
            0 <= j < edges.len() && !on_backbone(#[trigger] edges[j]) && arc_of(edges[j], ids)
                == Ok::<Arc, Seq<char>>(arc);
        assert(crosses(edges[j], arc));
    }
    if exists|j: int| 0 <= j < edges.len() && #[trigger] crosses(edges[j], arc) {
        let j = choose|j: int| 0 <= j < edges.len() && #[trigger] crosses(edges[j], arc);
        assert(!on_backbone(edges[j]));
        assert(arc_of(edges[j], ids)->Ok_0 == arc);
    }
}

proof fn lemma_backbone(
    edges: Seq<Tree>,
    ids: Seq<Seq<char>>,
    i: nat,
    parents: Seq<(Seq<char>, Seq<char>)>,
    k: int,
)
    requires
        parents_from(edges, ids, i, parents) is Ok,
        i <= edges.len(),
    ensures
        i <= k < edges.len() && edges[k].flag_at("canonical_backbone"@) == Some(true)
            ==> backbone_edge(edges[k], ids) is Ok,
    decreases edges.len() - i,
{
    if i < edges.len() {
        if on_backbone(edges[i as int]) {
            let (to, from) = backbone_edge(edges[i as int], ids)->Ok_0;
            lemma_backbone(edges, ids, i + 1, crate::table::put(parents, to, from), k);
        } else {
            lemma_backbone(edges, ids, i + 1, parents, k);
        }
    }
}

/// A graph that is drawn is told by its session, by how it was made, and by the title of its
/// active root, or else of its first root.
pub proof fn graphs_are_told_by_their_root(artifact: Tree)
    requires
        drawn(artifact) is Ok,
    ensures
        ({
            let dag = drawn(artifact)->Ok_0;
            let made = artifact.at("construction"@).text_at("operation"@);
            &&& artifact.text_at("schema"@) == Some("euler.causal_dag.v3"@) || artifact.text_at(
                "schema"@,
            ) == Some("euler.causal_dag.v4"@)
            &&& artifact.at("session"@).text_at("id"@) == Some(dag.session_id)
            &&& made is Some ==> dag.operation == made->0
            &&& made is None ==> dag.operation == "snapshot"@
            &&& artifact.at("forest"@).text_at("active_root"@) == dag.active_root
            &&& dag.active_root matches Some(root) ==> dag.roots.contains(root)
            &&& dag.active_root matches Some(root) ==> forall|k: int|
                0 <= k < dag.nodes.len() && (#[trigger] dag.nodes[k]).id == root && (forall|j: int|
                    0 <= j < k ==> (#[trigger] dag.nodes[j]).id != root) ==> dag.title
                    == dag.nodes[k].title
        }),
{
    let dag = drawn(artifact)->Ok_0;
    if let Some(root) = dag.active_root {
        assert forall|k: int|
            0 <= k < dag.nodes.len() && (#[trigger] dag.nodes[k]).id == root && (forall|j: int|
                0 <= j < k ==> (#[trigger] dag.nodes[j]).id != root) implies dag.title
            == dag.nodes[k].title by {
            lemma_named(dag.nodes, root, 0, k);
        }
    }
}

proof fn lemma_named(nodes: Seq<Node>, id: Seq<char>, i: nat, k: int)
    requires
        i <= k < nodes.len(),
        nodes[k].id == id,
        forall|j: int| 0 <= j < k ==> (#[trigger] nodes[j]).id != id,
    ensures
        super::graph::node_named(nodes, id, i) == Some(nodes[k]),
    decreases k - i,
{
    if i < k {
        lemma_named(nodes, id, i + 1, k);
    }
}

} // verus!
