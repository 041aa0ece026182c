//! A graph says what the hints say of it, and nothing else.

use super::drawn::{lemma_edge_tree, lemma_node_tree};
use super::fields::{list_or_none, need_flag, need_text};
use super::forest::{projected, revised};
use super::hints::{
    collected_from, collected_with, edge_of_hint, evidence_of_hint, node_of_hint, proposed,
    start_collected, Collected, Ground,
};
use super::revision::{anchored, merge_from, names_of, revised_record, values_of, with_sources};
use super::semantic::{collected_of_events, graph_of_events, graph_of_hint};
use super::sources::{nothing_prior, prior_of, records_from, with_member};
use crate::active_state::Active;
use crate::construction::{ConstructionOperation, Making};
use crate::event::Event;
use crate::json::Tree;
use crate::table::{
    ascending, lemma_first_row, lemma_found_is_row, lemma_row_is_found, member, put,
    put_stays_ascending, put_then_member,
};
use vstd::prelude::*;

verus! {

type Records = Seq<(Seq<char>, Tree)>;

/// Whether two records say the same under a name: both have a text there, the same one.
pub open spec fn agree(a: Tree, b: Tree, name: Seq<char>) -> bool {
    a.text_at(name) is Some && a.text_at(name) == b.text_at(name)
}

/// Whether the basis of a record is of the kind that a hint gives it, and in its words.
pub open spec fn same_basis(record: Tree, hint: Tree) -> bool {
    agree(record.at("basis"@), hint.at("basis"@), "kind"@) && agree(
        record.at("basis"@),
        hint.at("basis"@),
        "summary"@,
    )
}

/// Whether a node is the one that a hint tells of: it has the hint's own id, root, kind, status,
/// title and summary, and its basis.
pub open spec fn node_told(node: Tree, hint: Tree) -> bool {
    &&& agree(node, hint, "id"@)
    &&& agree(node, hint, "root_id"@)
    &&& agree(node, hint, "kind"@)
    &&& agree(node, hint, "status"@)
    &&& agree(node, hint, "title"@)
    &&& agree(node, hint, "summary"@)
    &&& same_basis(node, hint)
}

/// Whether an edge is the one that a hint tells of: it has the hint's own id, ends, class and
/// kind, is of the backbone where the hint says so, and has its basis.
pub open spec fn edge_told(edge: Tree, hint: Tree) -> bool {
    &&& agree(edge, hint, "id"@)
    &&& agree(edge, hint, "from"@)
    &&& agree(edge, hint, "to"@)
    &&& agree(edge, hint, "class"@)
    &&& agree(edge, hint, "kind"@)
    &&& edge.flag_at("canonical_backbone"@) is Some
    &&& edge.flag_at("canonical_backbone"@) == hint.flag_at("canonical_backbone"@)
    &&& same_basis(edge, hint)
}

/// Whether a node, or an edge, is the one that a hint tells of.
pub open spec fn told(record: Tree, hint: Tree, node: bool) -> bool {
    if node {
        node_told(record, hint)
    } else {
        edge_told(record, hint)
    }
}

proof fn lemma_basis(o: Records, ids: Seq<Seq<char>>)
    requires
        super::hints::basis_of(o, ids) is Ok,
    ensures
        ({
            let made = super::hints::basis_of(o, ids)->Ok_0;
            &&& agree(made, Tree::Object(o).at("basis"@), "kind"@)
            &&& agree(made, Tree::Object(o).at("basis"@), "summary"@)
        }),
{
    let made = super::hints::basis_of(o, ids)->Ok_0;
    let rows = made->Object_0;
    reveal_strlit("kind");
    reveal_strlit("source_ref_ids");
    reveal_strlit("summary");
    assert(rows[0].0[0] == 'k' && rows[1].0[1] == 'o' && rows[2].0[1] == 'u');
    lemma_first_row(rows, "kind"@, 0);
    lemma_first_row(rows, "summary"@, 2);
}

proof fn lemma_proposed(value: Tree, node: bool, ground: Ground)
    requires
        proposed(value, node, ground) is Ok,
    ensures
        ({
            let (id, record) = proposed(value, node, ground)->Ok_0;
            &&& record is Object
            &&& told(record, value, node)
            &&& record.text_at("id"@) == Some(id)
        }),
{
    reveal(proposed);
    let record = proposed(value, node, ground)->Ok_0.1;
    let o = value->Object_0;
    if node {
        reveal(node_of_hint);
        let context = "causal-dag node hint"@;
        let (sources, ids, basis, metadata) = evidence_of_hint(
            o,
            context,
            ground.events,
            ground.prior,
        )->Ok_0;
        lemma_node_tree(
            basis,
            need_text(o, "id"@, context)->Ok_0,
            need_text(o, "kind"@, context)->Ok_0,
            metadata,
            need_text(o, "root_id"@, context)->Ok_0,
            Tree::List(sources),
            need_text(o, "status"@, context)->Ok_0,
            need_text(o, "summary"@, context)->Ok_0,
            need_text(o, "title"@, context)->Ok_0,
        );
        lemma_basis(o, ids);
        lemma_first_row(record->Object_0, "basis"@, 0);
    } else {
        reveal(edge_of_hint);
        let context = "causal-dag edge hint"@;
        let (sources, ids, basis, metadata) = evidence_of_hint(
            o,
            context,
            ground.events,
            ground.prior,
        )->Ok_0;
        lemma_edge_tree(
            basis,
            need_flag(o, "canonical_backbone"@, context)->Ok_0,
            need_text(o, "class"@, context)->Ok_0,
            need_text(o, "from"@, context)->Ok_0,
            need_text(o, "id"@, context)->Ok_0,
            need_text(o, "kind"@, context)->Ok_0,
            metadata,
            Tree::List(sources),
            need_text(o, "to"@, context)->Ok_0,
        );
        lemma_basis(o, ids);
        lemma_first_row(record->Object_0, "basis"@, 0);
    }
}

/// Setting a member leaves the others as they were.
proof fn lemma_others_stay(record: Tree, name: Seq<char>, value: Tree, other: Seq<char>)
    requires
        record is Object,
        name != other,
    ensures
        with_member(record, name, value).get(other) == record.get(other),
        with_member(record, name, value).get(name) == Some(value),
{
    put_then_member(record->Object_0, name, value, other);
    put_then_member(record->Object_0, name, value, name);
}

proof fn lemma_set(record: Tree, name: Seq<char>, value: Tree, hint: Tree, node: bool)
    requires
        record is Object,
        told(record, hint, node),
        name == "metadata"@ || name == "source_refs"@,
    ensures
        told(with_member(record, name, value), hint, node),
        with_member(record, name, value).text_at("id"@) == record.text_at("id"@),
{
    lemma_names();
    lemma_others_stay(record, name, value, "id"@);
    lemma_others_stay(record, name, value, "root_id"@);
    lemma_others_stay(record, name, value, "kind"@);
    lemma_others_stay(record, name, value, "status"@);
    lemma_others_stay(record, name, value, "title"@);
    lemma_others_stay(record, name, value, "summary"@);
    lemma_others_stay(record, name, value, "from"@);
    lemma_others_stay(record, name, value, "to"@);
    lemma_others_stay(record, name, value, "class"@);
    lemma_others_stay(record, name, value, "canonical_backbone"@);
    lemma_others_stay(record, name, value, "basis"@);
}

/// The names of the members of records differ.
proof fn lemma_names()
    ensures
        "metadata"@[0] == 'm',
        "source_refs"@[0] == 's',
        "source_refs"@[1] == 'o',
        "source_ref_ids"@[0] == 's',
        "source_ref_ids"@[1] == 'o',
        "basis"@[0] == 'b',
        "id"@[0] == 'i',
        "root_id"@[0] == 'r',
        "kind"@[0] == 'k',
        "status"@[0] == 's',
        "status"@[1] == 't',
        "title"@[0] == 't',
        "summary"@[0] == 's',
        "summary"@[1] == 'u',
        "from"@[0] == 'f',
        "to"@[0] == 't',
        "class"@[0] == 'c',
        "canonical_backbone"@[0] == 'c',
{
    reveal_strlit("metadata");
    reveal_strlit("source_refs");
    reveal_strlit("source_ref_ids");
    reveal_strlit("basis");
    reveal_strlit("id");
    reveal_strlit("root_id");
    reveal_strlit("kind");
    reveal_strlit("status");
    reveal_strlit("title");
    reveal_strlit("summary");
    reveal_strlit("from");
    reveal_strlit("to");
    reveal_strlit("class");
    reveal_strlit("canonical_backbone");
}

proof fn lemma_set_basis(record: Tree, ids: Tree, hint: Tree, node: bool)
    requires
        record is Object,
        told(record, hint, node),
    ensures
        ({
            let basis = with_member(record.at("basis"@), "source_ref_ids"@, ids);
            &&& told(with_member(record, "basis"@, basis), hint, node)
            &&& with_member(record, "basis"@, basis).text_at("id"@) == record.text_at("id"@)
        }),
{
    lemma_names();
    let old_basis = record.at("basis"@);
    let basis = with_member(old_basis, "source_ref_ids"@, ids);
    assert(old_basis is Object);
    lemma_others_stay(old_basis, "source_ref_ids"@, ids, "kind"@);
    lemma_others_stay(old_basis, "source_ref_ids"@, ids, "summary"@);
    lemma_others_stay(record, "basis"@, basis, "id"@);
    lemma_others_stay(record, "basis"@, basis, "root_id"@);
    lemma_others_stay(record, "basis"@, basis, "kind"@);
    lemma_others_stay(record, "basis"@, basis, "status"@);
    lemma_others_stay(record, "basis"@, basis, "title"@);
    lemma_others_stay(record, "basis"@, basis, "summary"@);
    lemma_others_stay(record, "basis"@, basis, "from"@);
    lemma_others_stay(record, "basis"@, basis, "to"@);
    lemma_others_stay(record, "basis"@, basis, "class"@);
    lemma_others_stay(record, "basis"@, basis, "canonical_backbone"@);
}

proof fn lemma_revised(previous: Tree, record: Tree, hint: Tree, node: bool)
    requires
        record is Object,
        told(record, hint, node),
        revised_record(previous, record) is Ok,
    ensures
        told(revised_record(previous, record)->Ok_0, hint, node),
        revised_record(previous, record)->Ok_0.text_at("id"@) == record.text_at("id"@),
{
    reveal(revised_record);
    let kept = anchored(previous, record)->Ok_0;
    if kept != record {
        lemma_set(record, "metadata"@, kept.at("metadata"@), hint, node);
        let anchor = previous.at("metadata"@).text_at(super::sources::OCCURRENCE_SOURCE_REF_ID@)->0;
        lemma_set(
            record,
            "metadata"@,
            with_member(
                record.at("metadata"@),
                super::sources::OCCURRENCE_SOURCE_REF_ID@,
                Tree::Text(anchor),
            ),
            hint,
            node,
        );
    }
    let (by_id, by_key) = merge_from(
        previous.list_at("source_refs"@)->0,
        0,
        Seq::empty(),
        Seq::empty(),
    )->Ok_0;
    let all = merge_from(kept.list_at("source_refs"@)->0, 0, by_id, by_key)->Ok_0.0;
    assert(revised_record(previous, record)->Ok_0 == with_sources(kept, all));
    lemma_set(kept, "source_refs"@, Tree::List(values_of(all)), hint, node);
    let listed = with_member(kept, "source_refs"@, Tree::List(values_of(all)));
    lemma_set_basis(listed, crate::json::texts(names_of(all)), hint, node);
}

/// Whether a hint of a list, from position `i` on, has an id.
pub open spec fn hinted(list: Seq<Tree>, i: int, id: Seq<char>) -> bool {
    exists|k: int| i <= k < list.len() && (#[trigger] list[k]).text_at("id"@) == Some(id)
}

/// What a list of hints makes of the records: each hint is told by the record of its id, and the
/// other records stay.
proof fn lemma_collected_from(
    list: Seq<Tree>,
    node: bool,
    ground: Ground,
    i: nat,
    records: Records,
    seen: Seq<Seq<char>>,
)
    requires
        collected_from(list, node, ground, i, records, seen) is Ok,
    ensures
        ({
            let (out, now) = collected_from(list, node, ground, i, records, seen)->Ok_0;
            &&& forall|k: int|
                i <= k < list.len() ==> (#[trigger] list[k]).text_at("id"@) is Some && member(
                    out,
                    list[k].text_at("id"@)->0,
                ) is Some && told(member(out, list[k].text_at("id"@)->0)->0, list[k], node)
                    && now.contains(list[k].text_at("id"@)->0)
            &&& forall|id: Seq<char>|
                !hinted(list, i as int, id) ==> #[trigger] member(out, id) == member(records, id)
            &&& forall|id: Seq<char>| #[trigger]
                seen.contains(id) ==> !hinted(list, i as int, id) && now.contains(id)
            &&& ascending(records) ==> ascending(out)
        }),
    decreases list.len() - i,
{
    let (out, now) = collected_from(list, node, ground, i, records, seen)->Ok_0;
    if i < list.len() {
        let value = list[i as int];
        lemma_proposed(value, node, ground);
        let (id, record) = proposed(value, node, ground)->Ok_0;
        let kept = match member(records, id) {
            None => record,
            Some(previous) => revised_record(previous, record)->Ok_0,
        };
        if let Some(previous) = member(records, id) {
            lemma_revised(previous, record, value, node);
        }
        let next = put(records, id, kept);
        let more = seen.push(id);
        lemma_collected_from(list, node, ground, i + 1, next, more);
        if ascending(records) {
            put_stays_ascending(records, id, kept);
        }
        put_then_member(records, id, kept, id);
        assert(more[seen.len() as int] == id);
        assert(more.contains(id));
        assert(!hinted(list, i as int + 1, id));
        assert(member(out, id) == member(next, id));
        assert(now.contains(id));
        assert forall|other: Seq<char>| !hinted(list, i as int, other) implies #[trigger] member(
            out,
            other,
        ) == member(records, other) by {
            assert(list[i as int].text_at("id"@) == Some(id));
            assert(other != id);
            if hinted(list, i as int + 1, other) {
                let k = choose|k: int|
                    i + 1 <= k < list.len() && (#[trigger] list[k]).text_at("id"@) == Some(other);
                assert(list[k].text_at("id"@) == Some(other));
            }
            put_then_member(records, id, kept, other);
        }
        assert forall|other: Seq<char>| #[trigger] seen.contains(other) implies !hinted(
            list,
            i as int,
            other,
        ) && now.contains(other) by {
            let s = choose|s: int| 0 <= s < seen.len() && seen[s] == other;
            assert(more[s] == other);
            assert(more.contains(other));
            if hinted(list, i as int, other) {
                let k = choose|k: int|
                    i <= k < list.len() && (#[trigger] list[k]).text_at("id"@) == Some(other);
                if k > i {
                    assert(hinted(list, i as int + 1, other));
                }
            }
        }
    }
}

/// The list of node hints, or of edge hints, of a hint: none where there is none.
pub open spec fn hints_in(hints: Tree, node: bool) -> Seq<Tree> {
    match hints.list_at(if node { "nodes"@ } else { "edges"@ }) {
        Some(list) => list,
        None => Seq::empty(),
    }
}

spec fn records_in(state: Collected, node: bool) -> Records {
    if node {
        state.nodes
    } else {
        state.edges
    }
}

spec fn seen_in(state: Collected, node: bool) -> Seq<Seq<char>> {
    if node {
        state.seen_node_ids
    } else {
        state.seen_edge_ids
    }
}

proof fn lemma_collected_with(state: Collected, hints: Tree, ground: Ground, node: bool)
    requires
        collected_with(state, hints, ground) is Ok,
    ensures
        ({
            let next = collected_with(state, hints, ground)->Ok_0;
            let list = hints_in(hints, node);
            let out = records_in(next, node);
            &&& forall|k: int|
                0 <= k < list.len() ==> (#[trigger] list[k]).text_at("id"@) is Some && member(
                    out,
                    list[k].text_at("id"@)->0,
                ) is Some && told(member(out, list[k].text_at("id"@)->0)->0, list[k], node)
                    && seen_in(next, node).contains(list[k].text_at("id"@)->0)
            &&& forall|id: Seq<char>|
                !hinted(list, 0, id) ==> #[trigger] member(out, id) == member(
                    records_in(state, node),
                    id,
                )
            &&& forall|id: Seq<char>| #[trigger]
                seen_in(state, node).contains(id) ==> !hinted(list, 0, id) && seen_in(
                    next,
                    node,
                ).contains(id)
            &&& ascending(records_in(state, node)) ==> ascending(out)
        }),
{
    let o = hints->Object_0;
    let nodes = list_or_none(o, "nodes"@, "causal-dag hint"@)->Ok_0;
    let edges = list_or_none(o, "edges"@, "causal-dag hint"@)->Ok_0;
    if node {
        assert(hints_in(hints, node) =~= nodes);
        lemma_collected_from(nodes, true, ground, 0, state.nodes, state.seen_node_ids);
    } else {
        assert(hints_in(hints, node) =~= edges);
        lemma_collected_from(edges, false, ground, 0, state.edges, state.seen_edge_ids);
    }
}

/// What an event hints at: nothing where it carries no hint.
pub open spec fn hints_of(event: Event, node: bool) -> Seq<Tree> {
    match member(event.payload, "causal_dag"@) {
        Some(hints) => hints_in(hints, node),
        None => Seq::empty(),
    }
}

/// Whether a hint that an event from `i` on carries has an id.
pub open spec fn hinted_by(events: Seq<Event>, i: int, id: Seq<char>, node: bool) -> bool {
    exists|e: int| i <= e < events.len() && hinted(hints_of(#[trigger] events[e], node), 0, id)
}

/// Whether hint `k` of event `e` is told by the record of its id.
spec fn event_told(
    events: Seq<Event>,
    out: Records,
    seen: Seq<Seq<char>>,
    e: int,
    k: int,
    node: bool,
) -> bool {
    let hint = hints_of(events[e], node)[k];
    &&& hint.text_at("id"@) is Some
    &&& member(out, hint.text_at("id"@)->0) is Some
    &&& told(member(out, hint.text_at("id"@)->0)->0, hint, node)
    &&& seen.contains(hint.text_at("id"@)->0)
}

proof fn lemma_collected_of_events(
    events: Seq<Event>,
    ground: Ground,
    i: nat,
    state: Collected,
    node: bool,
)
    requires
        collected_of_events(events, ground, i, state) is Ok,
    ensures
        ({
            let next = collected_of_events(events, ground, i, state)->Ok_0;
            let out = records_in(next, node);
            &&& forall|e: int, k: int|
                i <= e < events.len() && 0 <= k < hints_of(events[e], node).len()
                    ==> #[trigger] event_told(events, out, seen_in(next, node), e, k, node)
            &&& forall|id: Seq<char>|
                !hinted_by(events, i as int, id, node) ==> #[trigger] member(out, id) == member(
                    records_in(state, node),
                    id,
                )
            &&& forall|id: Seq<char>| #[trigger]
                seen_in(state, node).contains(id) ==> !hinted_by(events, i as int, id, node)
                    && seen_in(next, node).contains(id)
            &&& ascending(records_in(state, node)) ==> ascending(out)
        }),
    decreases events.len() - i,
{
    let next = collected_of_events(events, ground, i, state)->Ok_0;
    let out = records_in(next, node);
    let seen = seen_in(next, node);
    if i < events.len() {
        let here = hints_of(events[i as int], node);
        let mid = match member(events[i as int].payload, super::hints::HINTS_KEY@) {
            None => state,
            Some(hints) => collected_with(state, hints, ground)->Ok_0,
        };
        if let Some(hints) = member(events[i as int].payload, super::hints::HINTS_KEY@) {
            lemma_collected_with(state, hints, ground, node);
        }
        lemma_collected_of_events(events, ground, i + 1, mid, node);
        assert forall|e: int, k: int|
            i <= e < events.len() && 0 <= k < hints_of(events[e], node).len() implies #[trigger] event_told(
            events,
            out,
            seen,
            e,
            k,
            node,
        ) by {
            if e == i {
                let hint = here[k];
                let id = hint.text_at("id"@)->0;
                assert(seen_in(mid, node).contains(id));
                assert(!hinted_by(events, i as int + 1, id, node));
                assert(member(out, id) == member(records_in(mid, node), id));
            }
        }
        assert forall|id: Seq<char>|
            !hinted_by(events, i as int, id, node) implies #[trigger] member(out, id) == member(
            records_in(state, node),
            id,
        ) by {
            if hinted_by(events, i as int + 1, id, node) {
                let e = choose|e: int|
                    i + 1 <= e < events.len() && hinted(hints_of(#[trigger] events[e], node), 0, id);
                assert(hinted(hints_of(events[e], node), 0, id));
            }
            assert(!hinted(hints_of(events[i as int], node), 0, id));
            assert(member(out, id) == member(records_in(mid, node), id));
        }
        assert forall|id: Seq<char>| #[trigger] seen_in(state, node).contains(id) implies !hinted_by(
            events,
            i as int,
            id,
            node,
        ) && seen.contains(id) by {
            assert(seen_in(mid, node).contains(id));
            if hinted_by(events, i as int, id, node) {
                let e = choose|e: int|
                    i <= e < events.len() && hinted(hints_of(#[trigger] events[e], node), 0, id);
                if e > i {
                    assert(hinted_by(events, i as int + 1, id, node));
                }
            }
        }
    }
}

/// Whether one of some records is the one that a hint tells of.
pub open spec fn told_among(records: Seq<Tree>, hint: Tree, node: bool) -> bool {
    exists|j: int| 0 <= j < records.len() && told(#[trigger] records[j], hint, node)
}

/// Whether a record is the one that some hint of some event tells of.
pub open spec fn told_by_an_event(record: Tree, events: Seq<Event>, node: bool) -> bool {
    exists|e: int, k: int|
        #![trigger hints_of(events[e], node)[k]]
        0 <= e < events.len() && 0 <= k < hints_of(events[e], node).len() && told(
            record,
            hints_of(events[e], node)[k],
            node,
        )
}

/// The nodes of a graph, or its edges.
pub open spec fn parts(p: super::forest::Projected, node: bool) -> Seq<Tree> {
    if node {
        p.nodes
    } else {
        p.edges
    }
}

/// The graph of events that carry hints tells all that the hints say, and nothing else: each hint
/// for a node has a node with its own id, root, kind, status, title, summary and basis, each hint
/// for an edge an edge with its own ends, class, kind and place, and no node and no edge stands in
/// the graph that no hint tells of.
pub proof fn hinted_graphs_say_what_the_hints_say(
    events: Seq<Event>,
    session: Option<Seq<char>>,
    complete: bool,
    node: bool,
)
    requires
        projected(events, session, complete) is Ok,
        exists|i: int|
            0 <= i < events.len() && member((#[trigger] events[i]).payload, "causal_dag"@) is Some,
    ensures
        forall|e: int, k: int|
            0 <= e < events.len() && 0 <= k < hints_of(events[e], node).len() ==> told_among(
                parts(projected(events, session, complete)->Ok_0, node),
                #[trigger] hints_of(events[e], node)[k],
                node,
            ),
        forall|j: int|
            0 <= j < parts(projected(events, session, complete)->Ok_0, node).len()
                ==> told_by_an_event(
                #[trigger] parts(projected(events, session, complete)->Ok_0, node)[j],
                events,
                node,
            ),
{
    let p = projected(events, session, complete)->Ok_0;
    let i = choose|i: int|
        0 <= i < events.len() && member((#[trigger] events[i]).payload, "causal_dag"@) is Some;
    assert(super::hints::carries_hint(events[i]));
    let ground = Ground { events, prior: Seq::empty(), revises: false };
    let start = start_collected(nothing_prior(), false);
    lemma_collected_of_events(events, ground, 0, start, node);
    let state = collected_of_events(events, ground, 0, start)->Ok_0;
    let graph = graph_of_events(events)->Ok_0;
    let out = records_in(state, node);
    assert(parts(p, node) =~= values_of(out));
    assert forall|e: int, k: int|
        0 <= e < events.len() && 0 <= k < hints_of(events[e], node).len() implies told_among(
        parts(p, node),
        #[trigger] hints_of(events[e], node)[k],
        node,
    ) by {
        assert(event_told(events, out, seen_in(state, node), e, k, node));
        lemma_row_among(out, hints_of(events[e], node)[k], node);
    }
    assert forall|j: int| 0 <= j < parts(p, node).len() implies told_by_an_event(
        #[trigger] parts(p, node)[j],
        events,
        node,
    ) by {
        let id = out[j].0;
        lemma_row_is_found(out, j);
        assert(hinted_by(events, 0, id, node));
        let e = choose|e: int|
            0 <= e < events.len() && hinted(hints_of(#[trigger] events[e], node), 0, id);
        let list = hints_of(events[e], node);
        let k = choose|k: int|
            0 <= k < list.len() && (#[trigger] list[k]).text_at("id"@) == Some(id);
        assert(event_told(events, out, seen_in(state, node), e, k, node));
        assert(told(parts(p, node)[j], hints_of(events[e], node)[k], node));
    }
}

proof fn lemma_row_among(out: Records, hint: Tree, node: bool)
    requires
        hint.text_at("id"@) is Some,
        member(out, hint.text_at("id"@)->0) is Some,
        told(member(out, hint.text_at("id"@)->0)->0, hint, node),
    ensures
        told_among(values_of(out), hint, node),
{
    let id = hint.text_at("id"@)->0;
    lemma_found_is_row(out, id);
    let j = choose|j: int| 0 <= j < out.len() && #[trigger] out[j] == (id, member(out, id)->0);
    assert(values_of(out)[j] == out[j].1);
    assert(told(values_of(out)[j], hint, node));
}

proof fn lemma_records_from(list: Seq<Tree>, kind: Seq<char>, i: nat, records: Records)
    requires
        records_from(list, kind, i, records) is Ok,
        ascending(records),
    ensures
        ({
            let out = records_from(list, kind, i, records)->Ok_0;
            &&& ascending(out)
            &&& forall|id: Seq<char>| #[trigger]
                member(records, id) is Some ==> member(out, id) == member(records, id)
            &&& forall|k: int|
                i <= k < list.len() ==> (#[trigger] list[k]).text_at("id"@) is Some && member(
                    out,
                    list[k].text_at("id"@)->0,
                ) == Some(list[k])
            &&& forall|id: Seq<char>| #[trigger]
                member(out, id) is Some ==> member(records, id) is Some || hinted(
                    list,
                    i as int,
                    id,
                )
        }),
    decreases list.len() - i,
{
    if i < list.len() {
        let id = list[i as int].text_at("id"@)->0;
        let next = put(records, id, list[i as int]);
        put_stays_ascending(records, id, list[i as int]);
        put_then_member(records, id, list[i as int], id);
        lemma_records_from(list, kind, i + 1, next);
        let out = records_from(list, kind, i, records)->Ok_0;
        assert(member(next, id) is Some);
        assert forall|other: Seq<char>| #[trigger] member(records, other) is Some implies member(
            out,
            other,
        ) == member(records, other) by {
            put_then_member(records, id, list[i as int], other);
            assert(member(next, other) is Some);
        }
        assert forall|other: Seq<char>| #[trigger] member(out, other) is Some implies member(
            records,
            other,
        ) is Some || hinted(list, i as int, other) by {
            put_then_member(records, id, list[i as int], other);
            if other == id {
                assert(list[i as int].text_at("id"@) == Some(other));
            } else if hinted(list, i as int + 1, other) {
                let k = choose|k: int|
                    i + 1 <= k < list.len() && (#[trigger] list[k]).text_at("id"@) == Some(other);
                assert(list[k].text_at("id"@) == Some(other));
            }
        }
    }
}

/// The nodes, or the edges, that the selected graph has: none where no graph is selected.
pub open spec fn selected_parts(active: Option<Active>, node: bool) -> Seq<Tree> {
    match active {
        None => Seq::empty(),
        Some(state) => match state.artifact.at("forest"@).list_at(
            if node { "nodes"@ } else { "edges"@ },
        ) {
            Some(list) => list,
            None => Seq::empty(),
        },
    }
}

/// A revision of a graph tells all that its hint says. Where it adds to the selected graph, the
/// records of that graph that the hint does not speak of stay just as they were; nothing else
/// stands in the graph.
pub proof fn revisions_say_what_the_hint_says(
    events: Seq<Event>,
    hints: Tree,
    session: Option<Seq<char>>,
    active: Option<Active>,
    construction: Making,
    node: bool,
)
    requires
        revised(events, hints, session, active, construction) is Ok,
    ensures
        ({
            let made = parts(revised(events, hints, session, active, construction)->Ok_0, node);
            let list = hints_in(hints, node);
            let adds = construction.operation == ConstructionOperation::Incremental;
            &&& forall|k: int| 0 <= k < list.len() ==> told_among(made, #[trigger] list[k], node)
            &&& forall|k: int|
                0 <= k < selected_parts(active, node).len() && adds && !hinted(
                    list,
                    0,
                    (#[trigger] selected_parts(active, node)[k]).text_at("id"@)->0,
                ) ==> made.contains(selected_parts(active, node)[k])
            &&& forall|j: int|
                0 <= j < made.len() ==> (exists|k: int|
                    0 <= k < list.len() && told(#[trigger] made[j], #[trigger] list[k], node)) || (
                adds && selected_parts(active, node).contains(made[j]))
        }),
{
    let p = revised(events, hints, session, active, construction)->Ok_0;
    let adds = construction.operation == ConstructionOperation::Incremental;
    let prior = prior_of(active)->Ok_0;
    let start = start_collected(prior, adds);
    let ground = Ground { events, prior: prior.sources, revises: adds };
    let state = collected_with(start, hints, ground)->Ok_0;
    let graph = graph_of_hint(events, hints, active, adds)->Ok_0;
    let out = records_in(state, node);
    let before = records_in(start, node);
    let made = parts(p, node);
    let list = hints_in(hints, node);
    let old = selected_parts(active, node);
    assert(made =~= values_of(out));
    if active is Some {
        let raw = if node {
            active->0.artifact.at("forest"@).list_at("nodes"@)->0
        } else {
            active->0.artifact.at("forest"@).list_at("edges"@)->0
        };
        assert(old == raw);
        lemma_records_from(raw, if node { "node"@ } else { "edge"@ }, 0, Seq::empty());
        let kept = records_from(raw, if node { "node"@ } else { "edge"@ }, 0, Seq::empty())->Ok_0;
        assert(adds ==> before == kept);
    }
    lemma_collected_with(start, hints, ground, node);
    assert forall|k: int| 0 <= k < list.len() implies told_among(made, #[trigger] list[k], node) by {
        lemma_row_among(out, list[k], node);
    }
    assert forall|k: int|
        0 <= k < old.len() && adds && !hinted(
            list,
            0,
            (#[trigger] old[k]).text_at("id"@)->0,
        ) implies made.contains(old[k]) by {
        let id = old[k].text_at("id"@)->0;
        assert(member(before, id) == Some(old[k]));
        assert(member(out, id) == member(before, id));
        lemma_found_is_row(out, id);
        let j = choose|j: int| 0 <= j < out.len() && #[trigger] out[j] == (id, member(out, id)->0);
        assert(made[j] == old[k]);
    }
    assert forall|j: int| 0 <= j < made.len() implies (exists|k: int|
        0 <= k < list.len() && told(#[trigger] made[j], #[trigger] list[k], node)) || (adds
        && old.contains(made[j])) by {
        let id = out[j].0;
        lemma_row_is_found(out, j);
        if hinted(list, 0, id) {
            let k = choose|k: int|
                0 <= k < list.len() && (#[trigger] list[k]).text_at("id"@) == Some(id);
            assert(told(made[j], list[k], node));
        } else {
            assert(member(before, id) is Some);
            assert(hinted(old, 0, id));
            let k = choose|k: int|
                0 <= k < old.len() && (#[trigger] old[k]).text_at("id"@) == Some(id);
            assert(member(before, id) == Some(old[k]));
        }
    }
}

} // verus!
