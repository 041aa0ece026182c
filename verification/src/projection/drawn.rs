//! Projections can be drawn.

use super::forest::{
    artifact_tree, chronology_edges, chronology_nodes, forest_tree, projected, session_tree,
    tree_edges, tree_nodes, Projected,
};
use super::hints::carries_hint;
use super::labels::{edge_name, line_label, names_tell_numbers_apart, node_name, tree_label};
use super::records::{basis_tree, event_edge, event_node, label_tree, one_source, Linkage};
use super::sources::event_index;
use super::structure::{ends, links_of, one_tree, orphans, root_of, ups_from, within};
use crate::event::Event;
use crate::export::drawable::{
    backbone_of, edge_fits, hangs_together, node_fits, root_named, told, ways_are_short,
    what_hangs_together_can_be_drawn,
};
use crate::export::graph::{climb, drawn, on_backbone, text_each};
use crate::json::{optional_text, texts, Tree};
use crate::projection::revision::{names_of, values_of};
use crate::schema::SCHEMA_NAME;
use crate::table::{lemma_first_row, lemma_no_row, member};
use vstd::prelude::*;

verus! {

/// The record of a node.
pub open spec fn node_tree(
    basis: Tree,
    id: Seq<char>,
    kind: Seq<char>,
    metadata: Tree,
    root_id: Seq<char>,
    sources: Tree,
    status: Seq<char>,
    summary: Seq<char>,
    title: Seq<char>,
) -> Tree {
    Tree::Object(
        seq![
            ("basis"@, basis),
            ("id"@, Tree::Text(id)),
            ("kind"@, Tree::Text(kind)),
            ("metadata"@, metadata),
            ("root_id"@, Tree::Text(root_id)),
            ("source_refs"@, sources),
            ("status"@, Tree::Text(status)),
            ("summary"@, Tree::Text(summary)),
            ("title"@, Tree::Text(title)),
        ],
    )
}

pub(crate) proof fn lemma_node_tree(
    basis: Tree,
    id: Seq<char>,
    kind: Seq<char>,
    metadata: Tree,
    root_id: Seq<char>,
    sources: Tree,
    status: Seq<char>,
    summary: Seq<char>,
    title: Seq<char>,
)
    ensures
        ({
            let node = node_tree(
                basis,
                id,
                kind,
                metadata,
                root_id,
                sources,
                status,
                summary,
                title,
            );
            &&& node.get("id"@) == Some(Tree::Text(id))
            &&& node.get("kind"@) == Some(Tree::Text(kind))
            &&& node.get("root_id"@) == Some(Tree::Text(root_id))
            &&& node.get("status"@) == Some(Tree::Text(status))
            &&& node.get("summary"@) == Some(Tree::Text(summary))
            &&& node.get("title"@) == Some(Tree::Text(title))
        }),
{
    let node = node_tree(basis, id, kind, metadata, root_id, sources, status, summary, title);
    let o = node->Object_0;
    reveal_strlit("basis");
    reveal_strlit("id");
    reveal_strlit("kind");
    reveal_strlit("metadata");
    reveal_strlit("root_id");
    reveal_strlit("source_refs");
    reveal_strlit("status");
    reveal_strlit("summary");
    reveal_strlit("title");
    assert(o[0].0[0] == 'b' && o[1].0[0] == 'i' && o[2].0[0] == 'k' && o[3].0[0] == 'm'
        && o[4].0[0] == 'r' && o[5].0[0] == 's' && o[6].0[0] == 's' && o[7].0[0] == 's'
        && o[8].0[0] == 't');
    assert(o[5].0.len() == 11 && o[6].0.len() == 6 && o[7].0.len() == 7);
    lemma_first_row(o, "id"@, 1);
    lemma_first_row(o, "kind"@, 2);
    lemma_first_row(o, "root_id"@, 4);
    lemma_first_row(o, "status"@, 6);
    lemma_first_row(o, "summary"@, 7);
    lemma_first_row(o, "title"@, 8);
}

/// The record of an edge.
pub open spec fn edge_tree(
    basis: Tree,
    canonical: bool,
    class: Seq<char>,
    from: Seq<char>,
    id: Seq<char>,
    kind: Seq<char>,
    metadata: Tree,
    sources: Tree,
    to: Seq<char>,
) -> Tree {
    Tree::Object(
        seq![
            ("basis"@, basis),
            ("canonical_backbone"@, Tree::Bool(canonical)),
            ("class"@, Tree::Text(class)),
            ("from"@, Tree::Text(from)),
            ("id"@, Tree::Text(id)),
            ("kind"@, Tree::Text(kind)),
            ("metadata"@, metadata),
            ("source_refs"@, sources),
            ("to"@, Tree::Text(to)),
        ],
    )
}

pub(crate) proof fn lemma_edge_tree(
    basis: Tree,
    canonical: bool,
    class: Seq<char>,
    from: Seq<char>,
    id: Seq<char>,
    kind: Seq<char>,
    metadata: Tree,
    sources: Tree,
    to: Seq<char>,
)
    ensures
        ({
            let edge = edge_tree(
                basis,
                canonical,
                class,
                from,
                id,
                kind,
                metadata,
                sources,
                to,
            );
            &&& edge.get("canonical_backbone"@) == Some(Tree::Bool(canonical))
            &&& edge.get("class"@) == Some(Tree::Text(class))
            &&& edge.get("from"@) == Some(Tree::Text(from))
            &&& edge.get("id"@) == Some(Tree::Text(id))
            &&& edge.get("kind"@) == Some(Tree::Text(kind))
            &&& edge.get("to"@) == Some(Tree::Text(to))
        }),
{
    let edge = edge_tree(basis, canonical, class, from, id, kind, metadata, sources, to);
    let o = edge->Object_0;
    reveal_strlit("basis");
    reveal_strlit("canonical_backbone");
    reveal_strlit("class");
    reveal_strlit("from");
    reveal_strlit("id");
    reveal_strlit("kind");
    reveal_strlit("metadata");
    reveal_strlit("source_refs");
    reveal_strlit("to");
    assert(o[0].0[0] == 'b' && o[1].0[0] == 'c' && o[2].0[0] == 'c' && o[3].0[0] == 'f'
        && o[4].0[0] == 'i' && o[5].0[0] == 'k' && o[6].0[0] == 'm' && o[7].0[0] == 's'
        && o[8].0[0] == 't');
    assert(o[1].0.len() == 18 && o[2].0.len() == 5);
    lemma_first_row(o, "canonical_backbone"@, 1);
    lemma_first_row(o, "class"@, 2);
    lemma_first_row(o, "from"@, 3);
    lemma_first_row(o, "id"@, 4);
    lemma_first_row(o, "kind"@, 5);
    lemma_first_row(o, "to"@, 8);
}

/// What the artifact of a projection says of its forest.
pub(crate) proof fn lemma_artifact(p: Projected, branching: Tree, sequence: Tree)
    ensures
        ({
            let artifact = artifact_tree(p, branching, sequence);
            let forest = artifact.at("forest"@);
            &&& artifact.text_at("schema"@) == Some(SCHEMA_NAME@)
            &&& artifact.at("session"@).text_at("id"@) == Some(p.session_id)
            &&& forest.list_at("nodes"@) == Some(p.nodes)
            &&& forest.list_at("edges"@) == Some(p.edges)
            &&& forest.get("roots"@) == Some(texts(p.roots))
            &&& forest.get("active_root"@) == Some(
                optional_text(super::forest::first_root(p)),
            )
        }),
{
    let artifact = artifact_tree(p, branching, sequence);
    let o = artifact->Object_0;
    reveal_strlit("construction");
    reveal_strlit("diagnostics");
    reveal_strlit("forest");
    reveal_strlit("generated_at");
    reveal_strlit("media_type");
    reveal_strlit("projection");
    reveal_strlit("schema");
    reveal_strlit("session");
    assert(o[0].0[0] == 'c' && o[1].0[0] == 'd' && o[2].0[0] == 'f' && o[3].0[0] == 'g'
        && o[4].0[0] == 'm' && o[5].0[0] == 'p' && o[6].0[0] == 's' && o[7].0[0] == 's');
    assert(o[6].0.len() == 6 && o[7].0.len() == 7);
    lemma_first_row(o, "forest"@, 2);
    lemma_first_row(o, "schema"@, 6);
    lemma_first_row(o, "session"@, 7);
    let f = forest_tree(p)->Object_0;
    reveal_strlit("active_root");
    reveal_strlit("edges");
    reveal_strlit("nodes");
    reveal_strlit("roots");
    assert(f[0].0[0] == 'a' && f[1].0[0] == 'e' && f[2].0[0] == 'n' && f[3].0[0] == 'r');
    lemma_first_row(f, "active_root"@, 0);
    lemma_first_row(f, "edges"@, 1);
    lemma_first_row(f, "nodes"@, 2);
    lemma_first_row(f, "roots"@, 3);
    let s = session_tree(p)->Object_0;
    reveal_strlit("event_range");
    reveal_strlit("id");
    assert(s[0].0[0] == 'e' && s[1].0[0] == 'i');
    lemma_first_row(s, "id"@, 1);
}

pub(crate) proof fn lemma_texts_are_read(v: Seq<Seq<char>>, field: Seq<char>, i: nat)
    requires
        i <= v.len(),
        forall|k: int| 0 <= k < v.len() ==> (#[trigger] v[k]).len() > 0,
    ensures
        text_each(texts(v)->List_0, field, i, v.take(i as int)) == Ok::<
            Seq<Seq<char>>,
            Seq<char>,
        >(v),
    decreases v.len() - i,
{
    if i < v.len() {
        assert(texts(v)->List_0[i as int].text() == Some(v[i as int]));
        assert(v[i as int].len() > 0);
        assert(v.take(i as int).push(v[i as int]) =~= v.take(i as int + 1));
        lemma_texts_are_read(v, field, i + 1);
    } else {
        assert(v.take(i as int) =~= v);
    }
}

/// A projection whose graph hangs together can be drawn.
pub(crate) proof fn lemma_drawn(
    p: Projected,
    nodes: Seq<(Seq<char>, Tree)>,
    edges: Seq<(Seq<char>, Tree)>,
    branching: Tree,
    sequence: Tree,
)
    requires
        p.nodes == values_of(nodes),
        p.edges == values_of(edges),
        hangs_together(p.roots, nodes, edges),
    ensures
        drawn(artifact_tree(p, branching, sequence)) is Ok,
{
    let artifact = artifact_tree(p, branching, sequence);
    lemma_artifact(p, branching, sequence);
    assert forall|k: int| 0 <= k < p.roots.len() implies (#[trigger] p.roots[k]).len() > 0 by {
        assert(names_of(nodes).contains(p.roots[k]));
        let j = choose|j: int| 0 <= j < nodes.len() && names_of(nodes)[j] == p.roots[k];
        assert(node_fits(nodes[j].0, nodes[j].1, p.roots));
    }
    lemma_texts_are_read(p.roots, "forest.roots"@, 0);
    assert(p.roots.take(0) =~= Seq::empty());
    what_hangs_together_can_be_drawn(artifact, p.roots, nodes, edges);
}

/// The node of an event that can be drawn.
proof fn lemma_event_node(
    linkage: Linkage,
    index: nat,
    event: Event,
    root: nat,
    label: Option<Seq<char>>,
)
    ensures
        node_fits(
            node_name(index),
            event_node(linkage, index, event, root, label),
            seq![node_name(root)],
        ) <==> ((label is None) == (index == root)),
        told(event_node(linkage, index, event, root, label), "root_id"@) == (if label is None {
            node_name(index)
        } else {
            node_name(root)
        }),
{
    let node = event_node(linkage, index, event, root, label);
    let source = super::labels::node_source_name(index);
    let kind = if label is None {
        "root"@
    } else {
        "checkpoint"@
    };
    let root_id = if label is None {
        node_name(index)
    } else {
        node_name(root)
    };
    let summary = linkage.node_lead() + event.kind + " at "@ + event.ts + "."@;
    let title = "Event "@ + super::labels::padded(index + 1) + ": "@ + event.kind;
    let made = node_tree(
        basis_tree(linkage.basis_kind(), source, linkage.node_basis()),
        node_name(index),
        kind,
        label_tree(linkage, label),
        root_id,
        one_source(source, event),
        "open"@,
        summary,
        title,
    );
    assert(node =~= made);
    lemma_node_tree(
        basis_tree(linkage.basis_kind(), source, linkage.node_basis()),
        node_name(index),
        kind,
        label_tree(linkage, label),
        root_id,
        one_source(source, event),
        "open"@,
        summary,
        title,
    );
    names_tell_numbers_apart(index, root);
    reveal_strlit("node-");
    reveal_strlit("root");
    reveal_strlit("checkpoint");
    reveal_strlit("open");
    reveal_strlit(".");
    reveal_strlit("Event ");
    assert("root"@.len() == 4 && "checkpoint"@.len() == 10);
    assert(node_name(index).len() > 0 && node_name(root).len() > 0);
    assert(summary.len() > 0 && title.len() > 0);
    let roots = seq![node_name(root)];
    assert(roots[0] == node_name(root));
    assert(roots.contains(node_name(root)));
    assert(roots.contains(node_name(index)) == (index == root));
}

/// The edge between two events can be drawn where their nodes are.
proof fn lemma_event_edge(
    linkage: Linkage,
    index: nat,
    from: nat,
    from_event: Event,
    to: nat,
    to_event: Event,
    ids: Seq<Seq<char>>,
)
    requires
        ids.contains(node_name(from)),
        ids.contains(node_name(to)),
    ensures
        ({
            let edge = event_edge(linkage, index, from, from_event, to, to_event);
            &&& edge_fits(edge_name(index), edge, ids)
            &&& on_backbone(edge)
            &&& told(edge, "from"@) == node_name(from)
            &&& told(edge, "to"@) == node_name(to)
        }),
{
    let edge = event_edge(linkage, index, from, from_event, to, to_event);
    let source = super::labels::edge_source_name(index);
    let basis = basis_tree(
        linkage.basis_kind(),
        source,
        linkage.edge_summary(from_event, to_event),
    );
    let made = edge_tree(
        basis,
        true,
        linkage.class(),
        node_name(from),
        edge_name(index),
        linkage.edge_kind(),
        Tree::Object(Seq::empty()),
        one_source(source, to_event),
        node_name(to),
    );
    assert(edge =~= made);
    lemma_edge_tree(
        basis,
        true,
        linkage.class(),
        node_name(from),
        edge_name(index),
        linkage.edge_kind(),
        Tree::Object(Seq::empty()),
        one_source(source, to_event),
        node_name(to),
    );
    reveal_strlit("node-");
    reveal_strlit("edge-");
    reveal_strlit("chronology");
    reveal_strlit("structural");
    reveal_strlit("annotation");
    reveal_strlit("sequence");
    reveal_strlit("continuation");
    assert("structural"@[0] == 's' && "annotation"@[0] == 'a' && "chronology"@[0] == 'c');
    assert(node_name(from).len() > 0 && node_name(to).len() > 0 && edge_name(index).len() > 0);
}

/// The nodes of a chronology by id.
spec fn line_nodes(events: Seq<Event>) -> Seq<(Seq<char>, Tree)> {
    Seq::new(events.len(), |i: int| (node_name(i as nat), chronology_nodes(events)[i]))
}

/// The edges of a chronology by id.
spec fn line_edges(events: Seq<Event>) -> Seq<(Seq<char>, Tree)> {
    Seq::new(
        (events.len() - 1) as nat,
        |i: int| (edge_name(i as nat), chronology_edges(events)[i]),
    )
}

proof fn lemma_line_backbone(events: Seq<Event>, n: nat)
    requires
        n < events.len(),
    ensures
        ({
            let steps = backbone_of(line_edges(events), n);
            &&& steps.len() == n
            &&& forall|k: int|
                0 <= k < n ==> #[trigger] steps[k] == (
                    node_name((k + 1) as nat),
                    node_name(k as nat),
                )
        }),
    decreases n,
{
    if n > 0 {
        lemma_line_backbone(events, (n - 1) as nat);
        let k = n - 1;
        let ids = seq![node_name(k as nat), node_name(n)];
        assert(ids[0] == node_name(k as nat) && ids[1] == node_name(n));
        lemma_event_edge(
            Linkage::Order,
            k as nat,
            k as nat,
            events[k],
            n,
            events[k + 1],
            ids,
        );
        assert(line_edges(events)[k].1 == event_edge(
            Linkage::Order,
            k as nat,
            k as nat,
            events[k],
            n,
            events[k + 1],
        ));
    }
}

proof fn lemma_line_climb(steps: Seq<(Seq<char>, Seq<char>)>, i: nat, n: nat)
    requires
        i <= steps.len(),
        i <= n,
        forall|k: int|
            0 <= k < steps.len() ==> #[trigger] steps[k] == (
                node_name((k + 1) as nat),
                node_name(k as nat),
            ),
    ensures
        i > 0 ==> member(steps, node_name(i)) == Some(node_name((i - 1) as nat)),
        member(steps, node_name(0)) is None,
        climb(steps, node_name(i), n) is Some,
    decreases i,
{
    assert forall|k: int| 0 <= k < steps.len() implies (#[trigger] steps[k]).0 != node_name(0) by {
        names_tell_numbers_apart((k + 1) as nat, 0);
    }
    lemma_no_row(steps, node_name(0));
    if i > 0 {
        assert forall|k: int| 0 <= k < i - 1 implies (#[trigger] steps[k]).0 != node_name(i) by {
            names_tell_numbers_apart((k + 1) as nat, i);
        }
        assert(steps[i - 1].0 == node_name(i));
        lemma_first_row(steps, node_name(i), i - 1);
        lemma_line_climb(steps, (i - 1) as nat, (n - 1) as nat);
    }
}

/// The chronology of some events hangs together.
proof fn lemma_line_hangs_together(events: Seq<Event>)
    requires
        events.len() > 0,
    ensures
        hangs_together(seq![node_name(0)], line_nodes(events), line_edges(events)),
{
    let roots = seq![node_name(0)];
    let nodes = line_nodes(events);
    let edges = line_edges(events);
    let ids = names_of(nodes);
    let steps = backbone_of(edges, edges.len());
    assert(roots[0] == node_name(0) && ids[0] == node_name(0));
    assert forall|i: int, j: int| 0 <= i < ids.len() && 0 <= j < ids.len() && i != j implies ids[i]
        != ids[j] by {
        names_tell_numbers_apart(i as nat, j as nat);
    }
    let edge_ids = names_of(edges);
    assert forall|i: int, j: int|
        0 <= i < edge_ids.len() && 0 <= j < edge_ids.len() && i != j implies edge_ids[i]
        != edge_ids[j] by {
        names_tell_numbers_apart(i as nat, j as nat);
    }
    assert forall|i: int| 0 <= i < nodes.len() implies node_fits(
        (#[trigger] nodes[i]).0,
        nodes[i].1,
        roots,
    ) && told(nodes[i].1, "root_id"@) == node_name(0) by {
        lemma_event_node(Linkage::Order, i as nat, events[i], 0, line_label(i as nat));
    }
    assert forall|i: int| 0 <= i < edges.len() implies edge_fits(
        (#[trigger] edges[i]).0,
        edges[i].1,
        ids,
    ) by {
        assert(ids[i] == node_name(i as nat) && ids[i + 1] == node_name((i + 1) as nat));
        lemma_event_edge(
            Linkage::Order,
            i as nat,
            i as nat,
            events[i],
            (i + 1) as nat,
            events[i + 1],
            ids,
        );
    }
    lemma_line_backbone(events, (events.len() - 1) as nat);
    let children = names_of(steps);
    assert forall|i: int, j: int|
        0 <= i < children.len() && 0 <= j < children.len() && i != j implies children[i]
        != children[j] by {
        assert(steps[i].0 == node_name((i + 1) as nat) && steps[j].0 == node_name((j + 1) as nat));
        names_tell_numbers_apart((i + 1) as nat, (j + 1) as nat);
    }
    assert forall|i: int| 0 <= i < nodes.len() implies roots.contains((#[trigger] nodes[i]).0) == (
    member(steps, nodes[i].0) is None) && climb(steps, nodes[i].0, steps.len()) is Some by {
        lemma_line_climb(steps, i as nat, steps.len());
        names_tell_numbers_apart(i as nat, 0);
    }
    assert forall|i: int| 0 <= i < nodes.len() implies root_named(nodes, (#[trigger] nodes[i]).0)
        == Some(node_name(0)) by {
        assert forall|j: int| 0 <= j < i implies (#[trigger] nodes[j]).0 != nodes[i].0 by {
            names_tell_numbers_apart(i as nat, j as nat);
        }
        lemma_first_row(nodes, nodes[i].0, i);
    }
    assert forall|i: int| 0 <= i < steps.len() implies root_named(nodes, (#[trigger] steps[i]).0)
        == root_named(nodes, steps[i].1) by {
        assert(nodes[i].0 == steps[i].1 && nodes[i + 1].0 == steps[i].0);
    }
}

/// Links from events to their parents.
type Links = Seq<Option<usize>>;

proof fn lemma_orphans(ups: Links, i: int, j: int, n: nat)
    requires
        n <= ups.len(),
    ensures
        0 <= i < n && ups[i] is None ==> orphans(ups, n) >= 1,
        0 <= i < j < n && ups[i] is None && ups[j] is None ==> orphans(ups, n) >= 2,
    decreases n,
{
    if n > 0 {
        lemma_orphans(ups, i, j, (n - 1) as nat);
    }
}

proof fn lemma_no_orphans(ups: Links, n: nat)
    requires
        n <= ups.len(),
        forall|i: int| 0 <= i < n ==> (#[trigger] ups[i]) is Some,
    ensures
        orphans(ups, n) == 0,
    decreases n,
{
    if n > 0 {
        lemma_no_orphans(ups, (n - 1) as nat);
    }
}

proof fn lemma_root_of(ups: Links, i: nat)
    requires
        i <= ups.len(),
        forall|k: int| 0 <= k < i ==> (#[trigger] ups[k]) is Some,
    ensures
        i <= root_of(ups, i) <= ups.len(),
        root_of(ups, i) < ups.len() ==> ups[root_of(ups, i) as int] is None,
        forall|k: int| 0 <= k < root_of(ups, i) ==> (#[trigger] ups[k]) is Some,
    decreases ups.len() - i,
{
    if i < ups.len() && ups[i as int] is Some {
        lemma_root_of(ups, i + 1);
    }
}

/// In one tree, the root is the one event without a parent.
proof fn lemma_the_root(ups: Links, i: int)
    requires
        one_tree(ups),
        0 <= i < ups.len(),
    ensures
        root_of(ups, 0) < ups.len(),
        ups[i] is None <==> i == root_of(ups, 0),
{
    let root = root_of(ups, 0) as int;
    lemma_root_of(ups, 0);
    if root >= ups.len() {
        lemma_no_orphans(ups, ups.len());
    }
    if ups[i] is None && i != root {
        if i < root {
            lemma_orphans(ups, i, root, ups.len());
        } else {
            lemma_orphans(ups, root, i, ups.len());
        }
    }
}

/// The positions of the first `n` events that have a parent.
spec fn linked(ups: Links, n: nat) -> Seq<int>
    decreases n,
{
    if n == 0 {
        Seq::empty()
    } else if ups[n - 1] is Some {
        linked(ups, (n - 1) as nat).push(n - 1)
    } else {
        linked(ups, (n - 1) as nat)
    }
}

proof fn lemma_linked(ups: Links, n: nat)
    requires
        n <= ups.len(),
    ensures
        linked(ups, n).len() + orphans(ups, n) == n,
        forall|k: int|
            0 <= k < linked(ups, n).len() ==> 0 <= #[trigger] linked(ups, n)[k] < n
                && ups[linked(ups, n)[k]] is Some,
        forall|k: int, l: int|
            0 <= k < l < linked(ups, n).len() ==> #[trigger] linked(ups, n)[k]
                < #[trigger] linked(ups, n)[l],
        forall|i: int| 0 <= i < n && ups[i] is Some ==> linked(ups, n).contains(i),
    decreases n,
{
    if n > 0 {
        lemma_linked(ups, (n - 1) as nat);
        let was = linked(ups, (n - 1) as nat);
        let now = linked(ups, n);
        assert forall|i: int| 0 <= i < n && ups[i] is Some implies now.contains(i) by {
            if i == n - 1 {
                assert(now[was.len() as int] == i);
            } else {
                assert(was.contains(i));
                let k = choose|k: int| 0 <= k < was.len() && was[k] == i;
                assert(now[k] == i);
            }
        }
    }
}

/// The edge of an event that has a parent.
spec fn link_edge(events: Seq<Event>, ups: Links, at: int, index: nat) -> Tree {
    let up = ups[at]->0;
    event_edge(Linkage::Parents, index, up as nat, events[up as int], at as nat, events[at])
}

spec fn link_edges(events: Seq<Event>, ups: Links, list: Seq<int>) -> Seq<Tree> {
    Seq::new(list.len(), |k: int| link_edge(events, ups, list[k], k as nat))
}

proof fn lemma_tree_edges(events: Seq<Event>, ups: Links, i: nat)
    requires
        i <= ups.len(),
    ensures
        tree_edges(events, ups, i, link_edges(events, ups, linked(ups, i))) == link_edges(
            events,
            ups,
            linked(ups, ups.len()),
        ),
    decreases ups.len() - i,
{
    if i < ups.len() {
        lemma_tree_edges(events, ups, i + 1);
        let was = linked(ups, i);
        if ups[i as int] is Some {
            assert(link_edges(events, ups, linked(ups, i + 1)) =~= link_edges(
                events,
                ups,
                was,
            ).push(link_edge(events, ups, i as int, was.len())));
        }
    }
}

/// The nodes of a tree of events by id.
spec fn tree_node_rows(events: Seq<Event>, ups: Links) -> Seq<(Seq<char>, Tree)> {
    Seq::new(events.len(), |i: int| (node_name(i as nat), tree_nodes(events, ups)[i]))
}

/// The edges of a tree of events by id.
spec fn tree_edge_rows(events: Seq<Event>, ups: Links) -> Seq<(Seq<char>, Tree)> {
    let edges = link_edges(events, ups, linked(ups, ups.len()));
    Seq::new(edges.len(), |i: int| (edge_name(i as nat), edges[i]))
}

proof fn lemma_tree_edge(events: Seq<Event>, ups: Links, k: int, ids: Seq<Seq<char>>)
    requires
        within(ups),
        0 <= k < linked(ups, ups.len()).len(),
        forall|i: int| 0 <= i < ups.len() ==> #[trigger] ids.contains(node_name(i as nat)),
    ensures
        ({
            let at = linked(ups, ups.len())[k];
            let edge = tree_edge_rows(events, ups)[k].1;
            &&& edge_fits(edge_name(k as nat), edge, ids)
            &&& on_backbone(edge)
            &&& told(edge, "from"@) == node_name(ups[at]->0 as nat)
            &&& told(edge, "to"@) == node_name(at as nat)
        }),
{
    lemma_linked(ups, ups.len());
    let at = linked(ups, ups.len())[k];
    let up = ups[at]->0;
    let i = up as int;
    assert(0 <= at < ups.len() && ups[at] is Some);
    assert(0 <= i < ups.len());
    assert(ids.contains(node_name(i as nat)));
    assert(ids.contains(node_name(at as nat)));
    lemma_event_edge(
        Linkage::Parents,
        k as nat,
        up as nat,
        events[up as int],
        at as nat,
        events[at],
        ids,
    );
}

proof fn lemma_tree_backbone(events: Seq<Event>, ups: Links, ids: Seq<Seq<char>>, n: nat)
    requires
        within(ups),
        n <= linked(ups, ups.len()).len(),
        forall|i: int| 0 <= i < ups.len() ==> #[trigger] ids.contains(node_name(i as nat)),
    ensures
        ({
            let steps = backbone_of(tree_edge_rows(events, ups), n);
            let list = linked(ups, ups.len());
            &&& steps.len() == n
            &&& forall|k: int|
                0 <= k < n ==> #[trigger] steps[k] == (
                    node_name(list[k] as nat),
                    node_name(ups[list[k]]->0 as nat),
                )
        }),
    decreases n,
{
    if n > 0 {
        lemma_tree_backbone(events, ups, ids, (n - 1) as nat);
        lemma_tree_edge(events, ups, n - 1, ids);
    }
}

/// What steps tell of the tree of some events.
spec fn steps_of(steps: Seq<(Seq<char>, Seq<char>)>, ups: Links) -> bool {
    let list = linked(ups, ups.len());
    &&& steps.len() == list.len()
    &&& forall|k: int|
        0 <= k < steps.len() ==> #[trigger] steps[k] == (
            node_name(list[k] as nat),
            node_name(ups[list[k]]->0 as nat),
        )
}

proof fn lemma_tree_step(steps: Seq<(Seq<char>, Seq<char>)>, ups: Links, i: int)
    requires
        within(ups),
        steps_of(steps, ups),
        0 <= i < ups.len(),
    ensures
        member(steps, node_name(i as nat)) == (match ups[i] {
            None => None::<Seq<char>>,
            Some(p) => Some(node_name(p as nat)),
        }),
{
    let list = linked(ups, ups.len());
    lemma_linked(ups, ups.len());
    match ups[i] {
        None => {
            assert forall|k: int| 0 <= k < steps.len() implies (#[trigger] steps[k]).0 != node_name(
                i as nat,
            ) by {
                assert(ups[list[k]] is Some);
                names_tell_numbers_apart(list[k] as nat, i as nat);
            }
            lemma_no_row(steps, node_name(i as nat));
        },
        Some(p) => {
            assert(list.contains(i));
            let at = choose|at: int| 0 <= at < list.len() && list[at] == i;
            assert forall|k: int| 0 <= k < at implies (#[trigger] steps[k]).0 != node_name(
                i as nat,
            ) by {
                assert(list[k] < list[at]);
                names_tell_numbers_apart(list[k] as nat, i as nat);
            }
            assert(steps[at].0 == node_name(i as nat));
            lemma_first_row(steps, node_name(i as nat), at);
        },
    }
}

proof fn lemma_tree_climb(steps: Seq<(Seq<char>, Seq<char>)>, ups: Links, i: int, n: nat)
    requires
        within(ups),
        steps_of(steps, ups),
        0 <= i < ups.len(),
        ends(ups, i, n),
    ensures
        climb(steps, node_name(i as nat), n) is Some,
    decreases n,
{
    lemma_tree_step(steps, ups, i);
    if let Some(p) = ups[i] {
        assert(ups[i] matches Some(p) ==> p < ups.len());
        lemma_tree_climb(steps, ups, p as int, (n - 1) as nat);
    }
}

/// The tree of some events hangs together.
proof fn lemma_tree_hangs_together(events: Seq<Event>, ups: Links)
    requires
        within(ups),
        one_tree(ups),
        ups.len() == events.len(),
    ensures
        hangs_together(
            seq![node_name(root_of(ups, 0))],
            tree_node_rows(events, ups),
            tree_edge_rows(events, ups),
        ),
{
    let root = root_of(ups, 0);
    let roots = seq![node_name(root)];
    let nodes = tree_node_rows(events, ups);
    let edges = tree_edge_rows(events, ups);
    let ids = names_of(nodes);
    let steps = backbone_of(edges, edges.len());
    lemma_the_root(ups, 0);
    lemma_linked(ups, ups.len());
    assert(roots[0] == node_name(root) && ids[root as int] == node_name(root));
    assert forall|i: int, j: int| 0 <= i < ids.len() && 0 <= j < ids.len() && i != j implies ids[i]
        != ids[j] by {
        names_tell_numbers_apart(i as nat, j as nat);
    }
    let edge_ids = names_of(edges);
    assert forall|i: int, j: int|
        0 <= i < edge_ids.len() && 0 <= j < edge_ids.len() && i != j implies edge_ids[i]
        != edge_ids[j] by {
        names_tell_numbers_apart(i as nat, j as nat);
    }
    assert forall|i: int| 0 <= i < ups.len() implies #[trigger] ids.contains(node_name(i as nat)) by {
        assert(ids[i] == node_name(i as nat));
    }
    assert forall|i: int| 0 <= i < nodes.len() implies node_fits(
        (#[trigger] nodes[i]).0,
        nodes[i].1,
        roots,
    ) && told(nodes[i].1, "root_id"@) == node_name(root) by {
        lemma_the_root(ups, i);
        lemma_event_node(
            Linkage::Parents,
            i as nat,
            events[i],
            root,
            tree_label(ups, i, ups.len()),
        );
    }
    assert forall|i: int| 0 <= i < edges.len() implies edge_fits(
        (#[trigger] edges[i]).0,
        edges[i].1,
        ids,
    ) by {
        lemma_tree_edge(events, ups, i, ids);
    }
    lemma_tree_backbone(events, ups, ids, edges.len());
    let list = linked(ups, ups.len());
    let children = names_of(steps);
    assert forall|i: int, j: int|
        0 <= i < children.len() && 0 <= j < children.len() && i != j implies children[i]
        != children[j] by {
        assert(steps[i].0 == node_name(list[i] as nat) && steps[j].0 == node_name(list[j] as nat));
        names_tell_numbers_apart(list[i] as nat, list[j] as nat);
        if i < j {
            assert(list[i] < list[j]);
        } else {
            assert(list[j] < list[i]);
        }
    }
    assert(steps_of(steps, ups));
    assert forall|i: int| 0 <= i < nodes.len() implies roots.contains((#[trigger] nodes[i]).0) == (
    member(steps, nodes[i].0) is None) && climb(steps, nodes[i].0, steps.len()) is Some by {
        lemma_tree_step(steps, ups, i);
        lemma_the_root(ups, i);
        names_tell_numbers_apart(i as nat, root);
        assert(ends(ups, i, ups.len()));
        lemma_tree_climb(steps, ups, i, ups.len());
        ways_are_short(steps, node_name(i as nat), ups.len());
    }
    assert forall|i: int| 0 <= i < nodes.len() implies root_named(nodes, (#[trigger] nodes[i]).0)
        == Some(node_name(root)) by {
        assert forall|j: int| 0 <= j < i implies (#[trigger] nodes[j]).0 != nodes[i].0 by {
            names_tell_numbers_apart(i as nat, j as nat);
        }
        lemma_first_row(nodes, nodes[i].0, i);
    }
    assert forall|k: int| 0 <= k < steps.len() implies root_named(nodes, (#[trigger] steps[k]).0)
        == root_named(nodes, steps[k].1) by {
        let up = ups[list[k]]->0 as int;
        assert(ups[list[k]] matches Some(p) ==> p < ups.len());
        assert(nodes[list[k]].0 == steps[k].0 && nodes[up].0 == steps[k].1);
    }
}

proof fn lemma_event_index(events: Seq<Event>, id: Seq<char>, i: nat)
    ensures
        event_index(events, id, i) matches Some(p) ==> 0 <= p < events.len(),
    decreases events.len() - i,
{
    if i < events.len() {
        lemma_event_index(events, id, i + 1);
    }
}

proof fn lemma_ups(events: Seq<Event>, i: nat, ups: Links)
    requires
        i <= events.len(),
        events.len() <= usize::MAX,
        ups.len() == i,
        forall|j: int| 0 <= j < i ==> (#[trigger] ups[j] matches Some(p) ==> p < events.len()),
    ensures
        ups_from(events, i, ups) matches Some(all) ==> all.len() == events.len() && within(all),
    decreases events.len() - i,
{
    if i < events.len() {
        match events[i as int].parent {
            None => lemma_ups(events, i + 1, ups.push(None)),
            Some(id) => {
                lemma_event_index(events, id, 0);
                if let Some(p) = event_index(events, id, 0) {
                    lemma_ups(events, i + 1, ups.push(Some(p as usize)));
                }
            },
        }
    }
}

/// The projection of events that carry no hints can be drawn.
pub proof fn event_graphs_can_be_drawn(
    events: Seq<Event>,
    session: Option<Seq<char>>,
    complete: bool,
    branching: Tree,
    sequence: Tree,
)
    requires
        events.len() <= usize::MAX,
        forall|i: int| 0 <= i < events.len() ==> !carries_hint(#[trigger] events[i]),
        projected(events, session, complete) is Ok,
    ensures
        drawn(artifact_tree(projected(events, session, complete)->Ok_0, branching, sequence)) is Ok,
{
    let p = projected(events, session, complete)->Ok_0;
    if events.len() == 0 {
        let none = Seq::<(Seq<char>, Tree)>::empty();
        assert(p.nodes =~= values_of(none));
        assert(p.edges =~= values_of(none));
        assert(backbone_of(none, 0) =~= Seq::empty());
        lemma_drawn(p, none, none, branching, sequence);
    } else {
        match links_of(events) {
            Some(ups) => {
                lemma_ups(events, 0, Seq::empty());
                lemma_tree_hangs_together(events, ups);
                lemma_tree_edges(events, ups, 0);
                assert(link_edges(events, ups, linked(ups, 0)) =~= Seq::empty());
                assert(p.nodes =~= values_of(tree_node_rows(events, ups)));
                assert(p.edges =~= values_of(tree_edge_rows(events, ups)));
                lemma_drawn(
                    p,
                    tree_node_rows(events, ups),
                    tree_edge_rows(events, ups),
                    branching,
                    sequence,
                );
            },
            None => {
                lemma_line_hangs_together(events);
                assert(p.nodes =~= values_of(line_nodes(events)));
                assert(p.edges =~= values_of(line_edges(events)));
                lemma_drawn(p, line_nodes(events), line_edges(events), branching, sequence);
            },
        }
    }
}

} // verus!
