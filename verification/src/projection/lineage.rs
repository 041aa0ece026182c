//! The graphs that observers make, one on top of the other, can be drawn.

use super::drawn::{
    edge_tree, lemma_artifact, lemma_drawn, lemma_edge_tree, lemma_node_tree, node_tree,
};
use super::fields::{need_flag, need_text, text_in};
use super::forest::{artifact_tree, projected, revised, Projected};
use super::hints::{
    carries_hint, collected_from, collected_with, edge_kind_fault, edge_of_hint,
    evidence_of_hint, node_form_fault, node_of_hint, proposed, start_collected, Collected, Ground,
};
use super::revision::{anchored, names_of, revised_record, values_of, with_sources};
use super::semantic::{
    backbone_from, backbone_step, collected_of_events, every_node_has_its_parent,
    every_node_is_reached, finished, frame_of, graph_of_events, graph_of_hint, parents_of,
    root_names_fault, roots_among, Semantic,
};
use super::sources::{nothing_prior, prior_of, records_from, with_member};
use crate::active_state::Active;
use crate::construction::{ConstructionOperation, Making};
use crate::event::Event;
use crate::export::drawable::{
    backbone_of, edge_fits, hangs_together, lemma_step_of_edge, node_fits, root_named, said, told,
};
use crate::export::graph::{class_allows, climb, drawn, known_kind, on_backbone, status_of};
use crate::json::Tree;
use crate::table::{
    ascending, lemma_found_is_row, lemma_row_is_found, member, put, put_stays_ascending,
    put_then_member,
};
use vstd::prelude::*;

verus! {

type Records = Seq<(Seq<char>, Tree)>;

/// Whether a record is a node with all its parts.
pub open spec fn node_shaped(node: Tree) -> bool {
    &&& node.text_at("id"@) is Some
    &&& node.text_at("root_id"@) is Some
    &&& node.text_at("title"@) is Some
    &&& node.text_at("summary"@) is Some
    &&& node.text_at("kind"@) is Some
    &&& node.text_at("status"@) is Some
    &&& node_form_fault(node.text_at("kind"@)->0, node.text_at("status"@)->0) is None
}

/// Whether a record is an edge with all its parts.
pub open spec fn edge_shaped(edge: Tree) -> bool {
    &&& edge.text_at("id"@) is Some
    &&& edge.text_at("from"@) is Some
    &&& edge.text_at("to"@) is Some
    &&& edge.text_at("class"@) is Some
    &&& edge.text_at("kind"@) is Some
    &&& edge.flag_at("canonical_backbone"@) is Some
    &&& edge_kind_fault(
        edge.text_at("class"@)->0,
        edge.text_at("kind"@)->0,
        on_backbone(edge),
    ) is None
}

/// Whether a record is a node, or an edge, with all its parts.
pub open spec fn shaped(record: Tree, node: bool) -> bool {
    if node {
        node_shaped(record)
    } else {
        edge_shaped(record)
    }
}

/// Whether each record of a table has all its parts and the id under which it stands.
pub open spec fn all_shaped(records: Records, node: bool) -> bool {
    &&& ascending(records)
    &&& forall|i: int|
        0 <= i < records.len() ==> shaped((#[trigger] records[i]).1, node)
            && records[i].1.text_at("id"@) == Some(records[i].0)
}

/// Whether the nodes and edges of an artifact have all their parts.
pub open spec fn well_formed(artifact: Tree) -> bool {
    let forest = artifact.at("forest"@);
    &&& forest.list_at("nodes"@) matches Some(nodes) && forall|i: int|
        0 <= i < nodes.len() ==> node_shaped(#[trigger] nodes[i])
    &&& forest.list_at("edges"@) matches Some(edges) && forall|i: int|
        0 <= i < edges.len() ==> edge_shaped(#[trigger] edges[i])
}

/// Whether the nodes and edges of a projection say who they are: nothing that a drawing shows
/// of them is empty.
pub open spec fn speaks(p: Projected) -> bool {
    &&& forall|i: int|
        0 <= i < p.nodes.len() ==> said(#[trigger] p.nodes[i], "id"@) && said(p.nodes[i], "title"@)
            && said(p.nodes[i], "summary"@)
    &&& forall|i: int| 0 <= i < p.edges.len() ==> said(#[trigger] p.edges[i], "id"@)
}

proof fn lemma_node_of_hint(value: Tree, ground: Ground)
    requires
        node_of_hint(value, ground.events, ground.prior) is Ok,
    ensures
        node_shaped(node_of_hint(value, ground.events, ground.prior)->Ok_0),
{
    reveal(node_of_hint);
    let context = "causal-dag node hint"@;
    let node = node_of_hint(value, ground.events, ground.prior)->Ok_0;
    let o = value->Object_0;
    let (sources, ids, basis, metadata) = evidence_of_hint(
        o,
        context,
        ground.events,
        ground.prior,
    )->Ok_0;
    lemma_node_tree(
        basis,
        need_text(o, "id"@, context)->Ok_0,
        need_text(o, "kind"@, context)->Ok_0,
        metadata,
        need_text(o, "root_id"@, context)->Ok_0,
        Tree::List(sources),
        need_text(o, "status"@, context)->Ok_0,
        need_text(o, "summary"@, context)->Ok_0,
        need_text(o, "title"@, context)->Ok_0,
    );
    assert(node =~= node_tree(
        basis,
        need_text(o, "id"@, context)->Ok_0,
        need_text(o, "kind"@, context)->Ok_0,
        metadata,
        need_text(o, "root_id"@, context)->Ok_0,
        Tree::List(sources),
        need_text(o, "status"@, context)->Ok_0,
        need_text(o, "summary"@, context)->Ok_0,
        need_text(o, "title"@, context)->Ok_0,
    ));
}

proof fn lemma_edge_of_hint(value: Tree, ground: Ground)
    requires
        edge_of_hint(value, ground.events, ground.prior) is Ok,
    ensures
        edge_shaped(edge_of_hint(value, ground.events, ground.prior)->Ok_0),
{
    reveal(edge_of_hint);
    let context = "causal-dag edge hint"@;
    let edge = edge_of_hint(value, ground.events, ground.prior)->Ok_0;
    let o = value->Object_0;
    let (sources, ids, basis, metadata) = evidence_of_hint(
        o,
        context,
        ground.events,
        ground.prior,
    )->Ok_0;
    lemma_edge_tree(
        basis,
        need_flag(o, "canonical_backbone"@, context)->Ok_0,
        need_text(o, "class"@, context)->Ok_0,
        need_text(o, "from"@, context)->Ok_0,
        need_text(o, "id"@, context)->Ok_0,
        need_text(o, "kind"@, context)->Ok_0,
        metadata,
        Tree::List(sources),
        need_text(o, "to"@, context)->Ok_0,
    );
    assert(edge =~= edge_tree(
        basis,
        need_flag(o, "canonical_backbone"@, context)->Ok_0,
        need_text(o, "class"@, context)->Ok_0,
        need_text(o, "from"@, context)->Ok_0,
        need_text(o, "id"@, context)->Ok_0,
        need_text(o, "kind"@, context)->Ok_0,
        metadata,
        Tree::List(sources),
        need_text(o, "to"@, context)->Ok_0,
    ));
}

/// What a hint proposes has all its parts and the id under which it is proposed.
proof fn lemma_proposed(value: Tree, node: bool, ground: Ground)
    requires
        proposed(value, node, ground) is Ok,
    ensures
        shaped(proposed(value, node, ground)->Ok_0.1, node),
        proposed(value, node, ground)->Ok_0.1.text_at("id"@) == Some(
            proposed(value, node, ground)->Ok_0.0,
        ),
{
    reveal(proposed);
    if node {
        lemma_node_of_hint(value, ground);
    } else {
        lemma_edge_of_hint(value, ground);
    }
}

/// Whether a member is one that a revision may set.
spec fn settable(name: Seq<char>) -> bool {
    name == "metadata"@ || name == "source_refs"@ || name == "basis"@
}

/// Setting what a revision may set leaves everything else as it was.
proof fn lemma_set(record: Tree, name: Seq<char>, value: Tree, node: bool)
    requires
        shaped(record, node),
        settable(name),
    ensures
        shaped(with_member(record, name, value), node),
        with_member(record, name, value).text_at("id"@) == record.text_at("id"@),
{
    reveal_strlit("metadata");
    reveal_strlit("source_refs");
    reveal_strlit("basis");
    reveal_strlit("id");
    reveal_strlit("root_id");
    reveal_strlit("title");
    reveal_strlit("summary");
    reveal_strlit("kind");
    reveal_strlit("status");
    reveal_strlit("from");
    reveal_strlit("to");
    reveal_strlit("class");
    reveal_strlit("canonical_backbone");
    assert("metadata"@[0] == 'm' && "source_refs"@[0] == 's' && "basis"@[0] == 'b' && "id"@[0]
        == 'i' && "root_id"@[0] == 'r' && "title"@[0] == 't' && "summary"@[0] == 's' && "kind"@[0]
        == 'k' && "status"@[0] == 's' && "from"@[0] == 'f' && "to"@[0] == 't' && "class"@[0] == 'c'
        && "canonical_backbone"@[0] == 'c');
    assert("source_refs"@.len() == 11 && "summary"@.len() == 7 && "status"@.len() == 6);
    let o = record->Object_0;
    assert(record is Object);
    put_then_member(o, name, value, "id"@);
    put_then_member(o, name, value, "root_id"@);
    put_then_member(o, name, value, "title"@);
    put_then_member(o, name, value, "summary"@);
    put_then_member(o, name, value, "kind"@);
    put_then_member(o, name, value, "status"@);
    put_then_member(o, name, value, "from"@);
    put_then_member(o, name, value, "to"@);
    put_then_member(o, name, value, "class"@);
    put_then_member(o, name, value, "canonical_backbone"@);
}

proof fn lemma_revised_record(previous: Tree, record: Tree, node: bool)
    requires
        shaped(record, node),
        revised_record(previous, record) is Ok,
    ensures
        shaped(revised_record(previous, record)->Ok_0, node),
        revised_record(previous, record)->Ok_0.text_at("id"@) == record.text_at("id"@),
{
    reveal(revised_record);
    let anchor = previous.at("metadata"@).text_at(
        super::sources::OCCURRENCE_SOURCE_REF_ID@,
    );
    let kept = anchored(previous, record)->Ok_0;
    if kept != record {
        lemma_set(
            record,
            "metadata"@,
            with_member(
                record.at("metadata"@),
                super::sources::OCCURRENCE_SOURCE_REF_ID@,
                Tree::Text(anchor->0),
            ),
            node,
        );
    }
    let merged = revised_record(previous, record)->Ok_0;
    let all = super::revision::merge_from(
        kept.list_at("source_refs"@)->0,
        0,
        super::revision::merge_from(
            previous.list_at("source_refs"@)->0,
            0,
            Seq::empty(),
            Seq::empty(),
        )->Ok_0.0,
        super::revision::merge_from(
            previous.list_at("source_refs"@)->0,
            0,
            Seq::empty(),
            Seq::empty(),
        )->Ok_0.1,
    )->Ok_0.0;
    assert(merged == with_sources(kept, all));
    let listed = with_member(kept, "source_refs"@, Tree::List(values_of(all)));
    lemma_set(kept, "source_refs"@, Tree::List(values_of(all)), node);
    lemma_set(
        listed,
        "basis"@,
        with_member(
            listed.at("basis"@),
            "source_ref_ids"@,
            crate::json::texts(names_of(all)),
        ),
        node,
    );
}

proof fn lemma_put_shaped(records: Records, id: Seq<char>, record: Tree, node: bool)
    requires
        all_shaped(records, node),
        shaped(record, node),
        record.text_at("id"@) == Some(id),
    ensures
        all_shaped(put(records, id, record), node),
{
    let next = put(records, id, record);
    put_stays_ascending(records, id, record);
    assert forall|i: int| 0 <= i < next.len() implies shaped((#[trigger] next[i]).1, node)
        && next[i].1.text_at("id"@) == Some(next[i].0) by {
        lemma_row_is_found(next, i);
        put_then_member(records, id, record, next[i].0);
        if next[i].0 != id {
            lemma_found_is_row(records, next[i].0);
            let j = choose|j: int|
                0 <= j < records.len() && #[trigger] records[j] == (
                    next[i].0,
                    member(records, next[i].0)->0,
                );
            assert(shaped(records[j].1, node));
        }
    }
}

proof fn lemma_collected_from(
    list: Seq<Tree>,
    node: bool,
    ground: Ground,
    i: nat,
    records: Records,
    seen: Seq<Seq<char>>,
)
    requires
        all_shaped(records, node),
        collected_from(list, node, ground, i, records, seen) is Ok,
    ensures
        all_shaped(collected_from(list, node, ground, i, records, seen)->Ok_0.0, node),
    decreases list.len() - i,
{
    if i < list.len() {
        lemma_proposed(list[i as int], node, ground);
        let (id, record) = proposed(list[i as int], node, ground)->Ok_0;
        match member(records, id) {
            None => {
                lemma_put_shaped(records, id, record, node);
                lemma_collected_from(
                    list,
                    node,
                    ground,
                    i + 1,
                    put(records, id, record),
                    seen.push(id),
                );
            },
            Some(previous) => {
                let merged = revised_record(previous, record)->Ok_0;
                lemma_revised_record(previous, record, node);
                lemma_put_shaped(records, id, merged, node);
                lemma_collected_from(
                    list,
                    node,
                    ground,
                    i + 1,
                    put(records, id, merged),
                    seen.push(id),
                );
            },
        }
    }
}

/// Whether all that is collected has all its parts.
pub open spec fn collected_shaped(state: Collected) -> bool {
    all_shaped(state.nodes, true) && all_shaped(state.edges, false)
}

proof fn lemma_collected_with(state: Collected, hints: Tree, ground: Ground)
    requires
        collected_shaped(state),
        collected_with(state, hints, ground) is Ok,
    ensures
        collected_shaped(collected_with(state, hints, ground)->Ok_0),
{
    let o = hints->Object_0;
    let nodes = super::fields::list_or_none(o, "nodes"@, "causal-dag hint"@)->Ok_0;
    let edges = super::fields::list_or_none(o, "edges"@, "causal-dag hint"@)->Ok_0;
    lemma_collected_from(nodes, true, ground, 0, state.nodes, state.seen_node_ids);
    lemma_collected_from(edges, false, ground, 0, state.edges, state.seen_edge_ids);
}

proof fn lemma_collected_of_events(
    events: Seq<Event>,
    ground: Ground,
    i: nat,
    state: Collected,
)
    requires
        collected_shaped(state),
        collected_of_events(events, ground, i, state) is Ok,
    ensures
        collected_shaped(collected_of_events(events, ground, i, state)->Ok_0),
    decreases events.len() - i,
{
    if i < events.len() {
        match member(events[i as int].payload, super::hints::HINTS_KEY@) {
            None => lemma_collected_of_events(events, ground, i + 1, state),
            Some(hints) => {
                lemma_collected_with(state, hints, ground);
                lemma_collected_of_events(
                    events,
                    ground,
                    i + 1,
                    collected_with(state, hints, ground)->Ok_0,
                );
            },
        }
    }
}

proof fn lemma_records_from(
    list: Seq<Tree>,
    kind: Seq<char>,
    i: nat,
    records: Records,
    node: bool,
)
    requires
        forall|k: int| 0 <= k < list.len() ==> shaped(#[trigger] list[k], node),
        all_shaped(records, node),
        records_from(list, kind, i, records) is Ok,
    ensures
        all_shaped(records_from(list, kind, i, records)->Ok_0, node),
    decreases list.len() - i,
{
    if i < list.len() {
        let record = list[i as int];
        assert(shaped(record, node));
        let id = text_in(record, "id"@, "active causal-dag "@ + kind)->Ok_0;
        lemma_put_shaped(records, id, record, node);
        lemma_records_from(list, kind, i + 1, put(records, id, record), node);
    }
}

/// Whether one of the first `n` records has an id.
spec fn stands(records: Records, n: int, id: Seq<char>) -> bool {
    exists|k: int| 0 <= k < n && (#[trigger] records[k]).0 == id
}

proof fn lemma_roots_among(nodes: Records, n: nat)
    requires
        n <= nodes.len(),
        all_shaped(nodes, true),
    ensures
        roots_among(nodes, n).no_duplicates(),
        forall|k: int|
            0 <= k < n ==> roots_among(nodes, n).contains((#[trigger] nodes[k]).0) == (told(
                nodes[k].1,
                "kind"@,
            ) == "root"@),
        forall|j: int|
            0 <= j < roots_among(nodes, n).len() ==> stands(
                nodes,
                n as int,
                #[trigger] roots_among(nodes, n)[j],
            ),
    decreases n,
{
    if n > 0 {
        lemma_roots_among(nodes, (n - 1) as nat);
        let was = roots_among(nodes, (n - 1) as nat);
        let now = roots_among(nodes, n);
        let (id, node) = nodes[n - 1];
        assert(shaped(node, true));
        let is_root = told(node, "kind"@) == "root"@;
        assert(text_in(node, "kind"@, "causal-dag node"@) == Ok::<Seq<char>, Seq<char>>(
            told(node, "kind"@),
        ));
        assert(now == if is_root {
            was.push(id)
        } else {
            was
        });
        assert forall|k: int| 0 <= k < n - 1 implies (#[trigger] nodes[k]).0 != id by {
            assert(crate::text::before(nodes[k].0, nodes[n - 1].0));
            crate::text::lemma_before_irreflexive(id);
        }
        assert(!was.contains(id)) by {
            if was.contains(id) {
                let j = choose|j: int| 0 <= j < was.len() && was[j] == id;
                assert(stands(nodes, n - 1, was[j]));
                let k = choose|k: int| 0 <= k < n - 1 && (#[trigger] nodes[k]).0 == was[j];
                assert(nodes[k].0 == id);
            }
        }
        assert forall|k: int| 0 <= k < n implies now.contains((#[trigger] nodes[k]).0) == (told(
            nodes[k].1,
            "kind"@,
        ) == "root"@) by {
            if k == n - 1 {
                if is_root {
                    assert(now[was.len() as int] == id);
                }
            } else {
                assert(was.contains(nodes[k].0) == (told(nodes[k].1, "kind"@) == "root"@));
                if was.contains(nodes[k].0) {
                    let j = choose|j: int| 0 <= j < was.len() && was[j] == nodes[k].0;
                    assert(now[j] == nodes[k].0);
                } else if now.contains(nodes[k].0) {
                    let j = choose|j: int| 0 <= j < now.len() && now[j] == nodes[k].0;
                    if j < was.len() {
                        assert(was[j] == nodes[k].0);
                    }
                }
            }
        }
        assert forall|j: int| 0 <= j < now.len() implies stands(
            nodes,
            n as int,
            #[trigger] now[j],
        ) by {
            if j < was.len() {
                assert(stands(nodes, n - 1, was[j]));
                let k = choose|k: int| 0 <= k < n - 1 && (#[trigger] nodes[k]).0 == was[j];
                assert(nodes[k].0 == now[j]);
            } else {
                assert(nodes[n - 1].0 == now[j]);
            }
        }
    }
}

proof fn lemma_root_names(nodes: Records, roots: Seq<Seq<char>>, i: nat, k: int)
    requires
        all_shaped(nodes, true),
        root_names_fault(nodes, roots, i) is None,
        i <= k < nodes.len(),
    ensures
        told(nodes[k].1, "kind"@) == "root"@ ==> told(nodes[k].1, "root_id"@) == nodes[k].0,
        told(nodes[k].1, "kind"@) != "root"@ ==> roots.contains(told(nodes[k].1, "root_id"@)),
    decreases k - i,
{
    let (id, node) = nodes[i as int];
    assert(shaped(node, true));
    assert(text_in(node, "kind"@, "causal-dag node"@) == Ok::<Seq<char>, Seq<char>>(
        told(node, "kind"@),
    ));
    assert(text_in(node, "root_id"@, "causal-dag node"@) == Ok::<Seq<char>, Seq<char>>(
        told(node, "root_id"@),
    ));
    if i < k {
        lemma_root_names(nodes, roots, i + 1, k);
    }
}

/// What a step of the backbone of a graph is.
proof fn lemma_backbone_step(nodes: Records, id: Seq<char>, edge: Tree)
    requires
        all_shaped(nodes, true),
        edge_shaped(edge),
        backbone_step(nodes, id, edge) is Ok,
    ensures
        member(nodes, told(edge, "from"@)) is Some,
        member(nodes, told(edge, "to"@)) is Some,
        backbone_step(nodes, id, edge)->Ok_0 == (if on_backbone(edge) {
            Some((told(edge, "to"@), told(edge, "from"@)))
        } else {
            None
        }),
        on_backbone(edge) ==> root_named(nodes, told(edge, "from"@)) == root_named(
            nodes,
            told(edge, "to"@),
        ),
{
    let from = told(edge, "from"@);
    let to = told(edge, "to"@);
    assert(text_in(edge, "from"@, "causal-dag edge"@) == Ok::<Seq<char>, Seq<char>>(from));
    assert(text_in(edge, "to"@, "causal-dag edge"@) == Ok::<Seq<char>, Seq<char>>(to));
    assert(text_in(edge, "class"@, "causal-dag edge"@) == Ok::<Seq<char>, Seq<char>>(
        told(edge, "class"@),
    ));
    assert(super::fields::flag_in(edge, "canonical_backbone"@, "causal-dag edge"@) == Ok::<
        bool,
        Seq<char>,
    >(on_backbone(edge)));
    lemma_found_is_row(nodes, from);
    lemma_found_is_row(nodes, to);
    let f = choose|f: int|
        0 <= f < nodes.len() && #[trigger] nodes[f] == (from, member(nodes, from)->0);
    let t = choose|t: int| 0 <= t < nodes.len() && #[trigger] nodes[t] == (to, member(nodes, to)->0);
    assert(shaped(nodes[f].1, true) && shaped(nodes[t].1, true));
    assert(text_in(nodes[f].1, "root_id"@, "causal-dag node"@) == Ok::<Seq<char>, Seq<char>>(
        told(nodes[f].1, "root_id"@),
    ));
    assert(text_in(nodes[t].1, "root_id"@, "causal-dag node"@) == Ok::<Seq<char>, Seq<char>>(
        told(nodes[t].1, "root_id"@),
    ));
}

proof fn lemma_backbone_is_read(nodes: Records, edges: Records, i: nat)
    requires
        i <= edges.len(),
        all_shaped(nodes, true),
        all_shaped(edges, false),
        backbone_from(nodes, edges, i, backbone_of(edges, i)) is Ok,
    ensures
        backbone_from(nodes, edges, i, backbone_of(edges, i))->Ok_0 == backbone_of(
            edges,
            edges.len(),
        ),
        forall|k: int|
            i <= k < edges.len() ==> backbone_step(nodes, (#[trigger] edges[k]).0, edges[k].1) is Ok,
    decreases edges.len() - i,
{
    if i < edges.len() {
        let (id, edge) = edges[i as int];
        assert(shaped(edge, false));
        lemma_backbone_step(nodes, id, edge);
        lemma_backbone_is_read(nodes, edges, i + 1);
    }
}

proof fn lemma_parents_of(
    steps: Seq<(Seq<char>, Seq<char>)>,
    child: Seq<char>,
    i: int,
    j: int,
    n: nat,
)
    requires
        n <= steps.len(),
    ensures
        0 <= i < n && steps[i].0 == child ==> parents_of(steps, child, n) >= 1,
        0 <= i < j < n && steps[i].0 == child && steps[j].0 == child ==> parents_of(
            steps,
            child,
            n,
        ) >= 2,
    decreases n,
{
    if n > 0 {
        lemma_parents_of(steps, child, i, j, (n - 1) as nat);
    }
}

proof fn lemma_no_parents(steps: Seq<(Seq<char>, Seq<char>)>, child: Seq<char>, n: nat)
    requires
        n <= steps.len(),
        forall|i: int| 0 <= i < n ==> (#[trigger] steps[i]).0 != child,
    ensures
        parents_of(steps, child, n) == 0,
    decreases n,
{
    if n > 0 {
        lemma_no_parents(steps, child, (n - 1) as nat);
    }
}

/// A class and a kind that are allowed are not empty.
proof fn lemma_class_is_said(class: Seq<char>, kind: Seq<char>)
    requires
        class_allows(class, kind),
    ensures
        class.len() > 0,
        kind.len() > 0,
{
    reveal_strlit("structural");
    reveal_strlit("annotation");
    reveal_strlit("chronology");
    reveal_strlit("continuation");
    reveal_strlit("refinement");
    reveal_strlit("repair");
    reveal_strlit("fork");
    reveal_strlit("decomposition");
    reveal_strlit("integration");
    reveal_strlit("verification");
    reveal_strlit("evidence");
    reveal_strlit("refutation");
    reveal_strlit("artifact_use");
    reveal_strlit("pivot");
    reveal_strlit("related");
    reveal_strlit("supersedes");
    reveal_strlit("sequence");
}

/// A known kind and a known status are not empty, and the views know the status.
proof fn lemma_form_is_said(kind: Seq<char>, status: Seq<char>)
    requires
        node_form_fault(kind, status) is None,
    ensures
        kind.len() > 0,
        status.len() > 0,
        known_kind(kind),
        status_of(status) is Ok,
{
    reveal_strlit("root");
    reveal_strlit("attempt");
    reveal_strlit("claim");
    reveal_strlit("checkpoint");
    reveal_strlit("synthesis");
    reveal_strlit("open");
    reveal_strlit("blocked");
    reveal_strlit("dead_end");
    reveal_strlit("inconclusive");
    reveal_strlit("success");
    reveal_strlit("verified");
    reveal_strlit("superseded");
    reveal_strlit("abandoned");
}

/// The parts of a graph that was accepted fit.
proof fn lemma_parts_fit(nodes: Records, edges: Records)
    requires
        all_shaped(nodes, true),
        all_shaped(edges, false),
        frame_of(nodes, edges) is Ok,
        forall|i: int|
            0 <= i < nodes.len() ==> said((#[trigger] nodes[i]).1, "id"@) && said(
                nodes[i].1,
                "title"@,
            ) && said(nodes[i].1, "summary"@),
        forall|i: int| 0 <= i < edges.len() ==> said((#[trigger] edges[i]).1, "id"@),
    ensures
        ({
            let roots = frame_of(nodes, edges)->Ok_0.0;
            &&& roots.no_duplicates()
            &&& forall|i: int| 0 <= i < roots.len() ==> names_of(nodes).contains(#[trigger] roots[i])
            &&& forall|i: int|
                0 <= i < nodes.len() ==> node_fits((#[trigger] nodes[i]).0, nodes[i].1, roots)
            &&& forall|i: int|
                0 <= i < edges.len() ==> edge_fits(
                    (#[trigger] edges[i]).0,
                    edges[i].1,
                    names_of(nodes),
                )
        }),
{
    let (roots, steps) = frame_of(nodes, edges)->Ok_0;
    let ids = names_of(nodes);
    assert(roots == roots_among(nodes, nodes.len()));
    lemma_roots_among(nodes, nodes.len());
    assert forall|i: int| 0 <= i < roots.len() implies ids.contains(#[trigger] roots[i]) by {
        assert(stands(nodes, nodes.len() as int, roots[i]));
        let k = choose|k: int| 0 <= k < nodes.len() && (#[trigger] nodes[k]).0 == roots[i];
        assert(ids[k] == roots[i]);
    }
    assert forall|i: int| 0 <= i < nodes.len() implies node_fits(
        (#[trigger] nodes[i]).0,
        nodes[i].1,
        roots,
    ) by {
        let (id, node) = nodes[i];
        assert(shaped(node, true));
        assert(said(nodes[i].1, "id"@));
        lemma_form_is_said(told(node, "kind"@), told(node, "status"@));
        lemma_root_names(nodes, roots, 0, i);
        assert(roots.contains(nodes[i].0) == (told(nodes[i].1, "kind"@) == "root"@));
        let root = told(node, "root_id"@);
        assert(roots.contains(root));
        let j = choose|j: int| 0 <= j < roots.len() && roots[j] == root;
        assert(stands(nodes, nodes.len() as int, roots[j]));
        let k = choose|k: int| 0 <= k < nodes.len() && (#[trigger] nodes[k]).0 == roots[j];
        assert(said(nodes[k].1, "id"@));
    }
    lemma_backbone_is_read(nodes, edges, 0);
    assert forall|i: int| 0 <= i < edges.len() implies edge_fits(
        (#[trigger] edges[i]).0,
        edges[i].1,
        ids,
    ) by {
        let (id, edge) = edges[i];
        assert(shaped(edge, false));
        assert(said(edges[i].1, "id"@));
        assert(backbone_step(nodes, edges[i].0, edges[i].1) is Ok);
        lemma_backbone_step(nodes, id, edge);
        lemma_class_is_said(told(edge, "class"@), told(edge, "kind"@));
        let from = told(edge, "from"@);
        let to = told(edge, "to"@);
        lemma_found_is_row(nodes, from);
        lemma_found_is_row(nodes, to);
        let f = choose|f: int|
            0 <= f < nodes.len() && #[trigger] nodes[f] == (from, member(nodes, from)->0);
        let t = choose|t: int|
            0 <= t < nodes.len() && #[trigger] nodes[t] == (to, member(nodes, to)->0);
        assert(said(nodes[f].1, "id"@) && said(nodes[t].1, "id"@));
        assert(ids[f] == from && ids[t] == to);
        reveal_strlit("structural");
        reveal_strlit("annotation");
        assert("structural"@[0] == 's' && "annotation"@[0] == 'a');
    }
}

proof fn lemma_names_differ(records: Records)
    requires
        ascending(records),
    ensures
        names_of(records).no_duplicates(),
{
    let names = names_of(records);
    assert forall|i: int, j: int| 0 <= i < names.len() && 0 <= j < names.len() && i != j implies
        names[i] != names[j] by {
        crate::text::lemma_before_irreflexive(names[i]);
        if i < j {
            assert(crate::text::before(records[i].0, records[j].0));
        } else {
            assert(crate::text::before(records[j].0, records[i].0));
        }
    }
}

/// A graph that was accepted hangs together.
proof fn lemma_accepted_hangs_together(nodes: Records, edges: Records)
    requires
        all_shaped(nodes, true),
        all_shaped(edges, false),
        frame_of(nodes, edges) is Ok,
        forall|i: int|
            0 <= i < nodes.len() ==> said((#[trigger] nodes[i]).1, "id"@) && said(
                nodes[i].1,
                "title"@,
            ) && said(nodes[i].1, "summary"@),
        forall|i: int| 0 <= i < edges.len() ==> said((#[trigger] edges[i]).1, "id"@),
    ensures
        hangs_together(frame_of(nodes, edges)->Ok_0.0, nodes, edges),
{
    let (roots, steps) = frame_of(nodes, edges)->Ok_0;
    lemma_parts_fit(nodes, edges);
    lemma_names_differ(nodes);
    lemma_names_differ(edges);
    lemma_backbone_is_read(nodes, edges, 0);
    assert(steps == backbone_of(edges, edges.len()));
    assert forall|k: int| 0 <= k < steps.len() implies root_named(nodes, (#[trigger] steps[k]).0)
        == root_named(nodes, steps[k].1) && member(nodes, steps[k].0) is Some by {
        lemma_step_of_edge(edges, edges.len(), k);
        let j = choose|j: int|
            0 <= j < edges.len() && on_backbone((#[trigger] edges[j]).1) && steps[k] == (
                told(edges[j].1, "to"@),
                told(edges[j].1, "from"@),
            );
        assert(shaped(edges[j].1, false));
        assert(backbone_step(nodes, edges[j].0, edges[j].1) is Ok);
        lemma_backbone_step(nodes, edges[j].0, edges[j].1);
    }
    let children = names_of(steps);
    assert forall|i: int, j: int|
        0 <= i < children.len() && 0 <= j < children.len() && i != j implies children[i]
        != children[j] by {
        if children[i] == children[j] {
            let child = steps[i].0;
            assert(steps[j].0 == child);
            assert(member(nodes, steps[i].0) is Some);
            lemma_found_is_row(nodes, child);
            let k = choose|k: int|
                0 <= k < nodes.len() && #[trigger] nodes[k] == (child, member(nodes, child)->0);
            every_node_has_its_parent(nodes, edges, k);
            if i < j {
                lemma_parents_of(steps, child, i, j, steps.len());
            } else {
                lemma_parents_of(steps, child, j, i, steps.len());
            }
        }
    }
    assert forall|i: int| 0 <= i < nodes.len() implies roots.contains((#[trigger] nodes[i]).0) == (
    member(steps, nodes[i].0) is None) && climb(steps, nodes[i].0, steps.len()) is Some by {
        let id = nodes[i].0;
        every_node_has_its_parent(nodes, edges, i);
        every_node_is_reached(nodes, edges, i);
        if member(steps, id) is Some {
            lemma_found_is_row(steps, id);
            let k = choose|k: int|
                0 <= k < steps.len() && #[trigger] steps[k] == (id, member(steps, id)->0);
            lemma_parents_of(steps, id, k, k, steps.len());
        } else {
            assert forall|k: int| 0 <= k < steps.len() implies (#[trigger] steps[k]).0 != id by {
                if steps[k].0 == id {
                    lemma_some_row(steps, k);
                }
            }
            lemma_no_parents(steps, id, steps.len());
        }
    }
}

proof fn lemma_some_row(steps: Seq<(Seq<char>, Seq<char>)>, k: int)
    requires
        0 <= k < steps.len(),
    ensures
        member(steps, steps[k].0) is Some,
    decreases k,
{
    if steps[0].0 != steps[k].0 {
        assert(steps.drop_first()[k - 1] == steps[k]);
        lemma_some_row(steps.drop_first(), k - 1);
    }
}

/// The projection of a graph that was accepted can be drawn, and its records have all their
/// parts.
proof fn lemma_semantic(p: Projected, graph: Semantic, branching: Tree, sequence: Tree)
    requires
        collected_shaped(
            (Collected {
                seen_node_ids: Seq::empty(),
                seen_edge_ids: Seq::empty(),
                nodes: graph.nodes,
                edges: graph.edges,
            }),
        ),
        finished(graph.nodes, graph.edges) == Ok::<Semantic, Seq<char>>(graph),
        p.roots == graph.roots,
        p.nodes == values_of(graph.nodes),
        p.edges == values_of(graph.edges),
        speaks(p),
    ensures
        drawn(artifact_tree(p, branching, sequence)) is Ok,
        well_formed(artifact_tree(p, branching, sequence)),
{
    assert forall|i: int| 0 <= i < graph.nodes.len() implies said(
        (#[trigger] graph.nodes[i]).1,
        "id"@,
    ) && said(graph.nodes[i].1, "title"@) && said(graph.nodes[i].1, "summary"@) by {
        assert(p.nodes[i] == graph.nodes[i].1);
    }
    assert forall|i: int| 0 <= i < graph.edges.len() implies said(
        (#[trigger] graph.edges[i]).1,
        "id"@,
    ) by {
        assert(p.edges[i] == graph.edges[i].1);
    }
    lemma_accepted_hangs_together(graph.nodes, graph.edges);
    lemma_drawn(p, graph.nodes, graph.edges, branching, sequence);
    lemma_artifact(p, branching, sequence);
    assert forall|i: int| 0 <= i < p.nodes.len() implies node_shaped(#[trigger] p.nodes[i]) by {
        assert(shaped(graph.nodes[i].1, true));
    }
    assert forall|i: int| 0 <= i < p.edges.len() implies edge_shaped(#[trigger] p.edges[i]) by {
        assert(shaped(graph.edges[i].1, false));
    }
}

/// The projection of events that carry hints can be drawn, where what it shows is not empty.
pub proof fn hinted_graphs_can_be_drawn(
    events: Seq<Event>,
    session: Option<Seq<char>>,
    complete: bool,
    branching: Tree,
    sequence: Tree,
)
    requires
        exists|i: int| 0 <= i < events.len() && carries_hint(#[trigger] events[i]),
        projected(events, session, complete) is Ok,
        speaks(projected(events, session, complete)->Ok_0),
    ensures
        drawn(artifact_tree(projected(events, session, complete)->Ok_0, branching, sequence)) is Ok,
        well_formed(
            artifact_tree(projected(events, session, complete)->Ok_0, branching, sequence),
        ),
{
    let p = projected(events, session, complete)->Ok_0;
    let ground = Ground { events, prior: Seq::empty(), revises: false };
    let start = start_collected(nothing_prior(), false);
    lemma_collected_of_events(events, ground, 0, start);
    let graph = graph_of_events(events)->Ok_0;
    lemma_semantic(p, graph, branching, sequence);
}

/// A revision of a graph whose records have all their parts can be drawn, and its own records
/// have all their parts again, where what it shows is not empty.
pub proof fn revisions_can_be_drawn(
    events: Seq<Event>,
    hints: Tree,
    session: Option<Seq<char>>,
    active: Option<Active>,
    construction: Making,
    branching: Tree,
    sequence: Tree,
)
    requires
        active is Some && construction.operation == ConstructionOperation::Incremental
            ==> well_formed(active->0.artifact),
        revised(events, hints, session, active, construction) is Ok,
        speaks(revised(events, hints, session, active, construction)->Ok_0),
    ensures
        drawn(
            artifact_tree(
                revised(events, hints, session, active, construction)->Ok_0,
                branching,
                sequence,
            ),
        ) is Ok,
        well_formed(
            artifact_tree(
                revised(events, hints, session, active, construction)->Ok_0,
                branching,
                sequence,
            ),
        ),
{
    let p = revised(events, hints, session, active, construction)->Ok_0;
    let fold_prior = construction.operation == ConstructionOperation::Incremental;
    let prior = prior_of(active)->Ok_0;
    let start = start_collected(prior, fold_prior);
    if let Some(state) = active {
        if fold_prior {
            let forest = state.artifact.at("forest"@);
            let none = Seq::<(Seq<char>, Tree)>::empty();
            let nodes = forest.list_at("nodes"@)->0;
            let edges = forest.list_at("edges"@)->0;
            assert forall|k: int| 0 <= k < nodes.len() implies shaped(#[trigger] nodes[k], true) by {
                assert(node_shaped(nodes[k]));
            }
            assert forall|k: int| 0 <= k < edges.len() implies shaped(#[trigger] edges[k], false) by {
                assert(edge_shaped(edges[k]));
            }
            lemma_records_from(nodes, "node"@, 0, none, true);
            lemma_records_from(edges, "edge"@, 0, none, false);
        }
    }
    assert(collected_shaped(start));
    let ground = Ground { events, prior: prior.sources, revises: fold_prior };
    lemma_collected_with(start, hints, ground);
    let graph = graph_of_hint(events, hints, active, fold_prior)->Ok_0;
    lemma_semantic(p, graph, branching, sequence);
}

} // verus!
