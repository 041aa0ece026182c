//! What a graph without hints says: one node for each event, and edges as the events follow one
//! another or name their parents.

use super::forest::{projected, tree_edges, Projected};
use super::hints::carries_hint;
use super::labels::{line_label, padded, tree_label};
use super::records::{event_edge, event_node, Linkage};
use super::sources::{event_index, source_at, source_of_parts, source_tree, with_member, SourceKey};
use super::structure::{links_of, root_of, ups_from};
use crate::event::Event;
use crate::json::{optional_text, Tree};
use crate::table::{lemma_first_row, put_then_member};
use vstd::prelude::*;

verus! {

/// Whether a tree cites one event, whole.
pub open spec fn cites(t: Tree, event: Event) -> bool {
    &&& t.list_at("source_refs"@) matches Some(list)
    &&& list.len() == 1
    &&& list[0].text_at("event_id"@) == Some(event.id)
    &&& list[0].text_at("event_kind"@) == Some(event.kind)
    &&& list[0].text_at("kind"@) == Some("event"@)
    &&& list[0].at("payload_pointer"@) == Tree::Null
}

proof fn lemma_source(
    id: Seq<char>,
    kind: Seq<char>,
    event: Event,
    pointer: Option<Seq<char>>,
    artifact: Tree,
)
    ensures
        ({
            let t = source_tree(id, kind, event, pointer, artifact);
            &&& t.at("artifact"@) == artifact
            &&& t.text_at("event_id"@) == Some(event.id)
            &&& t.text_at("event_kind"@) == Some(event.kind)
            &&& t.text_at("id"@) == Some(id)
            &&& t.text_at("kind"@) == Some(kind)
            &&& t.at("payload_pointer"@) == optional_text(pointer)
        }),
{
    let o = source_tree(id, kind, event, pointer, artifact)->Object_0;
    reveal_strlit("artifact");
    reveal_strlit("blob");
    reveal_strlit("event_id");
    reveal_strlit("event_kind");
    reveal_strlit("id");
    reveal_strlit("kind");
    reveal_strlit("payload_pointer");
    lemma_first_row(o, "artifact"@, 0);
    assert(o[0].0[0] == 'a' && o[1].0.len() == 4 && "event_id"@.len() == 8 && "event_id"@[0] == 'e');
    lemma_first_row(o, "event_id"@, 2);
    assert(o[0].0.len() == 8 && o[1].0.len() == 4 && o[2].0.len() == 8 && "event_kind"@.len() == 10);
    lemma_first_row(o, "event_kind"@, 3);
    assert(o[0].0.len() == 8 && o[1].0.len() == 4 && o[2].0.len() == 8 && o[3].0.len() == 10 && "id"@.len() == 2);
    lemma_first_row(o, "id"@, 4);
    assert(o[0].0.len() == 8 && o[1].0[0] == 'b' && o[2].0.len() == 8 && o[3].0.len() == 10 && o[4].0.len() == 2 && "kind"@.len() == 4 && "kind"@[0] == 'k');
    lemma_first_row(o, "kind"@, 5);
    assert(o[0].0.len() == 8 && o[1].0.len() == 4 && o[2].0.len() == 8 && o[3].0.len() == 10 && o[4].0.len() == 2 && o[5].0.len() == 4 && "payload_pointer"@.len() == 15);
    lemma_first_row(o, "payload_pointer"@, 6);
}

/// Whether a node tells of the event at a position: under a number, open, by its kind and time.
pub open spec fn tells(node: Tree, index: nat, event: Event, linked: bool) -> bool {
    &&& node.text_at("id"@) == Some("node-"@ + padded(index + 1))
    &&& node.text_at("title"@) == Some("Event "@ + padded(index + 1) + ": "@ + event.kind)
    &&& node.text_at("status"@) == Some("open"@)
    &&& node.text_at("summary"@) == Some(
        (if linked {
            "Projected from parent-linked provenance event "@
        } else {
            "Projected from bounded provenance event "@
        }) + event.kind + " at "@ + event.ts + "."@,
    )
    &&& node.at("basis"@).text_at("kind"@) == Some(
        if linked {
            "direct"@
        } else {
            "chronology"@
        },
    )
    &&& cites(node, event)
}

/// Whether an edge leads from the node of one position to that of another.
pub open spec fn joins(edge: Tree, from: nat, to: nat, event: Event, linked: bool) -> bool {
    &&& edge.text_at("from"@) == Some("node-"@ + padded(from + 1))
    &&& edge.text_at("to"@) == Some("node-"@ + padded(to + 1))
    &&& edge.flag_at("canonical_backbone"@) == Some(true)
    &&& linked ==> edge.text_at("class"@) == Some("structural"@) && edge.text_at("kind"@) == Some(
        "continuation"@,
    )
    &&& !linked ==> edge.text_at("class"@) == Some("chronology"@) && edge.text_at("kind"@) == Some(
        "sequence"@,
    )
    &&& cites(edge, event)
}

proof fn lemma_node(
    linkage: Linkage,
    index: nat,
    event: Event,
    root: nat,
    label: Option<Seq<char>>,
)
    ensures
        tells(
            event_node(linkage, index, event, root, label),
            index,
            event,
            linkage == Linkage::Parents,
        ),
        event_node(linkage, index, event, root, label).text_at("kind"@) == Some(
            if label is None {
                "root"@
            } else {
                "checkpoint"@
            },
        ),
        event_node(linkage, index, event, root, label).text_at("root_id"@) == Some(
            "node-"@ + padded(
                (if label is None {
                    index
                } else {
                    root
                }) + 1,
            ),
        ),
{
    let node = event_node(linkage, index, event, root, label);
    let o = node->Object_0;
    reveal_strlit("basis");
    reveal_strlit("id");
    reveal_strlit("kind");
    reveal_strlit("metadata");
    reveal_strlit("root_id");
    reveal_strlit("source_refs");
    reveal_strlit("status");
    reveal_strlit("summary");
    reveal_strlit("title");
    lemma_first_row(o, "basis"@, 0);
    assert(o[0].0.len() == 5 && "id"@.len() == 2);
    lemma_first_row(o, "id"@, 1);
    assert(o[0].0.len() == 5 && o[1].0.len() == 2 && "kind"@.len() == 4);
    lemma_first_row(o, "kind"@, 2);
    assert(o[0].0.len() == 5 && o[1].0.len() == 2 && o[2].0.len() == 4 && o[3].0.len() == 8 && "root_id"@.len() == 7);
    lemma_first_row(o, "root_id"@, 4);
    assert(o[0].0.len() == 5 && o[1].0.len() == 2 && o[2].0.len() == 4 && o[3].0.len() == 8 && o[4].0.len() == 7 && "source_refs"@.len() == 11);
    lemma_first_row(o, "source_refs"@, 5);
    assert(o[0].0.len() == 5 && o[1].0.len() == 2 && o[2].0.len() == 4 && o[3].0.len() == 8 && o[4].0.len() == 7 && o[5].0.len() == 11 && "status"@.len() == 6);
    lemma_first_row(o, "status"@, 6);
    assert(o[0].0.len() == 5 && o[1].0.len() == 2 && o[2].0.len() == 4 && o[3].0.len() == 8 && o[4].0[0] == 'r' && o[5].0.len() == 11 && o[6].0.len() == 6 && "summary"@.len() == 7 && "summary"@[0] == 's');
    lemma_first_row(o, "summary"@, 7);
    assert(o[0].0[0] == 'b' && o[1].0.len() == 2 && o[2].0.len() == 4 && o[3].0.len() == 8 && o[4].0.len() == 7 && o[5].0.len() == 11 && o[6].0.len() == 6 && o[7].0.len() == 7 && "title"@.len() == 5 && "title"@[0] == 't');
    lemma_first_row(o, "title"@, 8);
    let b = node.at("basis"@)->Object_0;
    lemma_first_row(b, "kind"@, 0);
    lemma_source(super::labels::node_source_name(index), "event"@, event, None, Tree::Null);
}

proof fn lemma_edge(
    linkage: Linkage,
    index: nat,
    from: nat,
    from_event: Event,
    to: nat,
    to_event: Event,
)
    ensures
        joins(
            event_edge(linkage, index, from, from_event, to, to_event),
            from,
            to,
            to_event,
            linkage == Linkage::Parents,
        ),
{
    let edge = event_edge(linkage, index, from, from_event, to, to_event);
    let o = edge->Object_0;
    reveal_strlit("basis");
    reveal_strlit("canonical_backbone");
    reveal_strlit("class");
    reveal_strlit("from");
    reveal_strlit("id");
    reveal_strlit("kind");
    reveal_strlit("metadata");
    reveal_strlit("source_refs");
    reveal_strlit("to");
    assert(o[0].0.len() == 5 && "canonical_backbone"@.len() == 18);
    lemma_first_row(o, "canonical_backbone"@, 1);
    assert(o[0].0[0] == 'b' && o[1].0.len() == 18 && "class"@.len() == 5 && "class"@[0] == 'c');
    lemma_first_row(o, "class"@, 2);
    assert(o[0].0.len() == 5 && o[1].0.len() == 18 && o[2].0.len() == 5 && "from"@.len() == 4);
    lemma_first_row(o, "from"@, 3);
    assert(o[0].0.len() == 5 && o[1].0.len() == 18 && o[2].0.len() == 5 && o[3].0[0] == 'f' && o[4].0.len() == 2 && "kind"@.len() == 4 && "kind"@[0] == 'k');
    lemma_first_row(o, "kind"@, 5);
    assert(o[0].0.len() == 5 && o[1].0.len() == 18 && o[2].0.len() == 5 && o[3].0.len() == 4 && o[4].0.len() == 2 && o[5].0.len() == 4 && o[6].0.len() == 8 && "source_refs"@.len() == 11);
    lemma_first_row(o, "source_refs"@, 7);
    assert(o[0].0.len() == 5 && o[1].0.len() == 18 && o[2].0.len() == 5 && o[3].0.len() == 4 && o[4].0[0] == 'i' && o[5].0.len() == 4 && o[6].0.len() == 8 && o[7].0.len() == 11 && "to"@.len() == 2 && "to"@[0] == 't');
    lemma_first_row(o, "to"@, 8);
    lemma_source(super::labels::edge_source_name(index), "event"@, to_event, None, Tree::Null);
}

proof fn lemma_index(events: Seq<Event>, id: Seq<char>, i: nat)
    requires
        i <= events.len(),
    ensures
        event_index(events, id, i) matches Some(k) ==> i <= k < events.len() && events[k].id == id,
        event_index(events, id, i) is None ==> forall|k: int|
            i <= k < events.len() ==> (#[trigger] events[k]).id != id,
    decreases events.len() - i,
{
    if i < events.len() && events[i as int].id != id {
        lemma_index(events, id, i + 1);
    }
}

proof fn lemma_ups(events: Seq<Event>, i: nat, ups: Seq<Option<usize>>, k: int)
    requires
        ups_from(events, i, ups) is Some,
        i <= events.len() <= usize::MAX,
        ups.len() == i,
    ensures
        ({
            let out = ups_from(events, i, ups)->0;
            &&& out.len() == events.len()
            &&& 0 <= k < i ==> out[k] == ups[k]
            &&& i <= k < events.len() ==> match out[k] {
                None => events[k].parent is None,
                Some(p) => p < events.len() && events[k].parent == Some(events[p as int].id),
            }
        }),
    decreases events.len() - i,
{
    if i < events.len() {
        match events[i as int].parent {
            None => {
                lemma_ups(events, i + 1, ups.push(None), k);
            },
            Some(id) => {
                lemma_index(events, id, 0);
                let p = event_index(events, id, 0)->0;
                lemma_ups(events, i + 1, ups.push(Some(p as usize)), k);
            },
        }
    }
}

/// Whether one of some edges leads to the node of a position from that of its parent.
pub open spec fn some_joins(
    edges: Seq<Tree>,
    events: Seq<Event>,
    ups: Seq<Option<usize>>,
    k: int,
) -> bool {
    exists|n: int|
        0 <= n < edges.len() && joins(
            #[trigger] edges[n],
            ups[k]->0 as nat,
            k as nat,
            events[k],
            true,
        )
}

/// Whether an edge leads to the node of some position from that of its parent.
pub open spec fn joins_some(edge: Tree, events: Seq<Event>, ups: Seq<Option<usize>>) -> bool {
    exists|m: int|
        0 <= m < ups.len() && (#[trigger] ups[m]) is Some && joins(
            edge,
            ups[m]->0 as nat,
            m as nat,
            events[m],
            true,
        )
}

proof fn lemma_tree_edges(
    events: Seq<Event>,
    ups: Seq<Option<usize>>,
    i: nat,
    edges: Seq<Tree>,
    k: int,
    j: int,
)
    requires
        i <= ups.len(),
    ensures
        tree_edges(events, ups, i, edges).len() >= edges.len(),
        0 <= j < edges.len() ==> tree_edges(events, ups, i, edges)[j] == edges[j],
        i <= k < ups.len() && ups[k] is Some ==> some_joins(
            tree_edges(events, ups, i, edges),
            events,
            ups,
            k,
        ),
        edges.len() <= j < tree_edges(events, ups, i, edges).len() ==> joins_some(
            tree_edges(events, ups, i, edges)[j],
            events,
            ups,
        ),
    decreases ups.len() - i,
{
    if i < ups.len() {
        match ups[i as int] {
            None => {
                lemma_tree_edges(events, ups, i + 1, edges, k, j);
            },
            Some(p) => {
                let edge = event_edge(
                    Linkage::Parents,
                    edges.len(),
                    p as nat,
                    events[p as int],
                    i,
                    events[i as int],
                );
                let more = edges.push(edge);
                lemma_edge(
                    Linkage::Parents,
                    edges.len(),
                    p as nat,
                    events[p as int],
                    i,
                    events[i as int],
                );
                lemma_tree_edges(events, ups, i + 1, more, k, j);
                lemma_tree_edges(events, ups, i + 1, more, k, edges.len() as int);
                let out = tree_edges(events, ups, i, edges);
                assert(out[edges.len() as int] == edge);
                assert(joins(
                    out[edges.len() as int],
                    ups[i as int]->0 as nat,
                    i,
                    events[i as int],
                    true,
                ));
                assert(edges.len() < out.len());
                if j == edges.len() {
                    assert(ups[i as int] is Some);
                    assert(joins_some(out[j], events, ups));
                } else if 0 <= j < edges.len() {
                    assert(more[j] == edges[j]);
                }
            },
        }
    }
}

/// A graph that no hint says anything of has one node for each event, in their order, open, told
/// by its kind and time, and citing it. Where the events make one tree by the parents that they
/// name, an edge leads from the node of each parent to the node of its child, and no other edge
/// is there; the root is the event without a parent. Where they do not, each node is followed by
/// the next, the first is the root, and the graph says that this is order alone.
pub proof fn events_become_nodes(
    events: Seq<Event>,
    session: Option<Seq<char>>,
    complete: bool,
    i: int,
    j: int,
)
    requires
        0 < events.len() <= usize::MAX,
        forall|i: int| 0 <= i < events.len() ==> !carries_hint(#[trigger] events[i]),
        projected(events, session, complete) is Ok,
    ensures
        ({
            let p = projected(events, session, complete)->Ok_0;
            let linked = links_of(events) is Some;
            let last = events[events.len() - 1];
            &&& p.session_id == events[0].session && p.generated_at == last.ts
            &&& p.watermark_event_id == Tree::Text(last.id) && p.event_range_end == Tree::Text(
                last.id,
            ) && p.event_range_start == Tree::Text(events[0].id)
            &&& p.event_range_complete == complete
            &&& p.degraded <==> !linked
            &&& p.degraded_chronology <==> !linked && events.len() > 1
            &&& p.nodes.len() == events.len()
            &&& p.roots.len() == 1
            &&& 0 <= i < events.len() ==> {
                let kind = p.nodes[i].text_at("kind"@);
                &&& tells(p.nodes[i], i as nat, events[i], linked)
                &&& kind == Some("root"@) || kind == Some("checkpoint"@)
                &&& !linked ==> (kind == Some("root"@) <==> i == 0)
                &&& p.nodes[i].text_at("root_id"@) == Some(p.roots[0])
                &&& linked && events[i].parent is None ==> kind == Some("root"@)
            }
            &&& !linked ==> p.edges.len() == events.len() - 1 && (0 <= j < p.edges.len() ==> joins(
                p.edges[j],
                j as nat,
                (j + 1) as nat,
                events[j + 1],
                false,
            ))
            &&& linked && 0 <= i < events.len() && events[i].parent is Some ==> exists|n: int, q: int|
                0 <= n < p.edges.len() && 0 <= q < events.len() && events[i].parent == Some(
                    (#[trigger] events[q]).id,
                ) && joins(#[trigger] p.edges[n], q as nat, i as nat, events[i], true)
            &&& linked && 0 <= j < p.edges.len() ==> exists|q: int, m: int|
                0 <= q < events.len() && 0 <= m < events.len() && (#[trigger] events[m]).parent
                    == Some((#[trigger] events[q]).id) && joins(
                    p.edges[j],
                    q as nat,
                    m as nat,
                    events[m],
                    true,
                )
        }),
{
    let p = projected(events, session, complete)->Ok_0;
    reveal_strlit("root");
    reveal_strlit("checkpoint");
    assert("root"@.len() == 4 && "checkpoint"@.len() == 10);
    match links_of(events) {
        None => {
            if 0 <= i < events.len() {
                lemma_node(Linkage::Order, i as nat, events[i], 0, line_label(i as nat));
            }
            if 0 <= j < p.edges.len() {
                lemma_edge(
                    Linkage::Order,
                    j as nat,
                    j as nat,
                    events[j],
                    (j + 1) as nat,
                    events[j + 1],
                );
            }
        },
        Some(ups) => {
            lemma_ups(events, 0, Seq::empty(), i);
            let root = root_of(ups, 0);
            if 0 <= i < events.len() {
                lemma_node(
                    Linkage::Parents,
                    i as nat,
                    events[i],
                    root,
                    tree_label(ups, i, ups.len()),
                );
                lemma_rooted(events, ups, i);
                lemma_tree_edges(events, ups, 0, Seq::empty(), i, j);
                if events[i].parent is Some {
                    let q = ups[i]->0 as int;
                    let n = choose|n: int|
                        0 <= n < p.edges.len() && joins(
                            #[trigger] p.edges[n],
                            ups[i]->0 as nat,
                            i as nat,
                            events[i],
                            true,
                        );
                    assert(events[i].parent == Some(events[q].id));
                    assert(joins(p.edges[n], q as nat, i as nat, events[i], true));
                }
            }
            if 0 <= j < p.edges.len() {
                lemma_tree_edges(events, ups, 0, Seq::empty(), 0, j);
                let m = choose|m: int|
                    0 <= m < ups.len() && (#[trigger] ups[m]) is Some && joins(
                        p.edges[j],
                        ups[m]->0 as nat,
                        m as nat,
                        events[m],
                        true,
                    );
                lemma_ups(events, 0, Seq::empty(), m);
                let q = ups[m]->0 as int;
                assert(events[m].parent == Some(events[q].id));
            }
        },
    }
}

proof fn lemma_rooted(events: Seq<Event>, ups: Seq<Option<usize>>, i: int)
    requires
        0 <= i < events.len() <= usize::MAX,
        links_of(events) == Some(ups),
    ensures
        tree_label(ups, i, ups.len()) is None ==> root_of(ups, 0) == i,
        events[i].parent is None ==> tree_label(ups, i, ups.len()) is None,
{
    lemma_ups(events, 0, Seq::empty(), i);
    if ups[i] is None {
        lemma_only(ups, i);
    } else {
        assert(tree_label(ups, i, ups.len()) is Some);
    }
}

proof fn lemma_only(ups: Seq<Option<usize>>, i: int)
    requires
        0 <= i < ups.len(),
        ups[i] is None,
        super::structure::orphans(ups, ups.len()) == 1,
    ensures
        root_of(ups, 0) == i,
{
    lemma_first(ups, 0, i);
    let r = root_of(ups, 0);
    if r < i {
        lemma_two(ups, r as int, i, ups.len());
    }
}

proof fn lemma_first(ups: Seq<Option<usize>>, n: nat, i: int)
    requires
        n <= i < ups.len(),
        ups[i] is None,
    ensures
        n <= root_of(ups, n) <= i,
        ups[root_of(ups, n) as int] is None,
    decreases i - n,
{
    if ups[n as int] is Some {
        lemma_first(ups, n + 1, i);
    }
}

proof fn lemma_two(ups: Seq<Option<usize>>, a: int, b: int, n: nat)
    requires
        0 <= a < b,
        n <= ups.len(),
        ups[a] is None,
        ups[b] is None,
    ensures
        n > b ==> super::structure::orphans(ups, n) >= 2,
        n > a ==> super::structure::orphans(ups, n) >= 1,
    decreases n,
{
    if n > 0 {
        lemma_two(ups, a, b, (n - 1) as nat);
    }
}

/// The source that a hint names is the event of that id, told by its own kind, and as an artifact
/// if and only if it is one; its pointer is the one that was hinted. Where the event is not at
/// hand, it is what an earlier graph cited of it, under the name that the hint gives it.
pub proof fn hinted_sources_are_their_events(
    id: Seq<char>,
    event_id: Seq<char>,
    pointer: Option<Seq<char>>,
    events: Seq<Event>,
    prior: Seq<(SourceKey, Tree)>,
)
    requires
        source_of_parts(id, event_id, pointer, events, prior) is Ok,
    ensures
        ({
            let t = source_of_parts(id, event_id, pointer, events, prior)->Ok_0;
            &&& t.text_at("id"@) == Some(id)
            &&& (exists|k: int| 0 <= k < events.len() && (#[trigger] events[k]).id == event_id)
                ==> exists|k: int|
                0 <= k < events.len() && (#[trigger] events[k]).id == event_id && t.text_at(
                    "event_id"@,
                ) == Some(event_id) && t.text_at("event_kind"@) == Some(events[k].kind)
                    && t.at("payload_pointer"@) == optional_text(pointer) && t.text_at("kind"@)
                    == Some(
                    if events[k].kind == "extension.artifact"@ {
                        "artifact"@
                    } else {
                        "event"@
                    },
                )
            &&& !(exists|k: int| 0 <= k < events.len() && (#[trigger] events[k]).id == event_id)
                ==> source_at(prior, (event_id, pointer), prior.len()) is Some && t == with_member(
                source_at(prior, (event_id, pointer), prior.len())->0,
                "id"@,
                Tree::Text(id),
            )
        }),
{
    lemma_index(events, event_id, 0);
    let t = source_of_parts(id, event_id, pointer, events, prior)->Ok_0;
    match event_index(events, event_id, 0) {
        Some(k) => {
            let event = events[k];
            lemma_source(id, "event"@, event, pointer, Tree::Null);
            lemma_source(
                id,
                "artifact"@,
                event,
                None,
                super::sources::artifact_ref_of(event)->Ok_0,
            );
            assert(events[k].id == event_id);
        },
        None => {
            let previous = source_at(prior, (event_id, pointer), prior.len())->0;
            put_then_member(super::sources::rows(previous), "id"@, Tree::Text(id), "id"@);
        },
    }
}

} // verus!
