//! What a summary shows of a graph: which nodes stand under which heading.

use super::budget::{
    fitted, longest_reason, shortened, summary_of, with_short_reasons, without_dead_ends,
    without_open, without_path,
};
use super::parts::{
    active_path, brief_of, briefs, briefs_of, bullets, by_place, dead_end_lines,
    dead_ends, nodes_are_listed_by_place, open_titles, parts_of, path_titles, rendered, section,
    too_long, Brief, Parts, Summarised,
};
use super::wording::{bounded, line_of, reason_of};
use crate::json::Tree;
use crate::table::{
    ascending, joined, lemma_found_is_row, lemma_row_is_found, member, put_stays_ascending,
    put_then_member,
};
use crate::text::decimal;
use vstd::prelude::*;

verus! {

/// Whether a node is one that a summary of the first `n` nodes can tell of: it has an id and a
/// title, and none behind it has the same id and a title.
pub open spec fn told_among(nodes: Seq<Tree>, k: int, n: int) -> bool {
    &&& 0 <= k < n
    &&& nodes[k].text_at("id"@) is Some
    &&& nodes[k].text_at("title"@) is Some
    &&& forall|j: int|
        k < j < n && (#[trigger] nodes[j]).text_at("title"@) is Some ==> nodes[j].text_at("id"@)
            != nodes[k].text_at("id"@)
}

/// Whether a node is one that a summary can tell of, and has one of three statuses.
pub open spec fn told_with(nodes: Seq<Tree>, k: int, a: Seq<char>, b: Seq<char>, c: Seq<char>) -> bool {
    &&& told_among(nodes, k, nodes.len() as int)
    &&& nodes[k].text_at("status"@) == Some(a) || nodes[k].text_at("status"@) == Some(b)
        || nodes[k].text_at("status"@) == Some(c)
}

/// The title of a node on one line of bounded length.
pub open spec fn title_of(node: Tree) -> Seq<char> {
    bounded(line_of(node.text_at("title"@)->0), 120)
}

/// The first sentence of the summary of a node on one line of bounded length.
pub open spec fn why_of(node: Tree) -> Seq<char> {
    bounded(
        reason_of(
            match node.text_at("summary"@) {
                Some(text) => text,
                None => Seq::empty(),
            },
        ),
        360,
    )
}

proof fn lemma_briefs(nodes: Seq<Tree>, order: Seq<(Seq<char>, usize)>, n: nat, id: Seq<char>)
    requires
        n <= nodes.len(),
    ensures
        ascending(briefs(nodes, order, n)),
        forall|k: int|
            #[trigger] told_among(nodes, k, n as int) && nodes[k].text_at("id"@) == Some(id)
                ==> brief_of(nodes[k], order) == Some((id, member(briefs(nodes, order, n), id)->0))
                && member(briefs(nodes, order, n), id) is Some,
        member(briefs(nodes, order, n), id) is Some ==> exists|k: int|
            #[trigger] told_among(nodes, k, n as int) && nodes[k].text_at("id"@) == Some(id),
    decreases n,
{
    if n > 0 {
        let m = (n - 1) as nat;
        let rest = briefs(nodes, order, m);
        lemma_briefs(nodes, order, m, id);
        let last = brief_of(nodes[n - 1], order);
        let (named, brief) = last->0;
        if last is Some {
            put_stays_ascending(rest, named, brief);
            put_then_member(rest, named, brief, id);
        }
        if last is Some && named == id {
            assert(told_among(nodes, n - 1, n as int));
            assert forall|k: int|
                #[trigger] told_among(nodes, k, n as int) && nodes[k].text_at("id"@) == Some(
                    id,
                ) implies k == n - 1 by {
                if k < n - 1 {
                    assert(nodes[n - 1].text_at("title"@) is Some);
                }
            }
        } else {
            assert forall|k: int|
                #[trigger] told_among(nodes, k, n as int) && nodes[k].text_at("id"@) == Some(
                    id,
                ) implies told_among(nodes, k, m as int) by {}
            if member(rest, id) is Some {
                let k = choose|k: int|
                    #[trigger] told_among(nodes, k, m as int) && nodes[k].text_at("id"@) == Some(id);
                assert(told_among(nodes, k, n as int)) by {
                    assert forall|j: int|
                        k < j < n && (#[trigger] nodes[j]).text_at(
                            "title"@,
                        ) is Some implies nodes[j].text_at("id"@) != nodes[k].text_at("id"@) by {}
                }
            }
        }
    } else {
        assert(briefs(nodes, order, n).len() == 0);
    }
}

proof fn lemma_listed(nodes: Seq<(Seq<char>, Brief)>, b: Brief)
    ensures
        by_place(nodes, nodes.len()).contains(b) <==> exists|i: int|
            0 <= i < nodes.len() && (#[trigger] nodes[i]).1 == b,
{
    broadcast use vstd::seq_lib::group_to_multiset_ensures;

    let n = nodes.len();
    let plain = Seq::new(n, |i: int| nodes[i].1);
    let listed = by_place(nodes, n);
    nodes_are_listed_by_place(nodes, n);
    assert(listed.contains(b) <==> listed.to_multiset().count(b) > 0);
    assert(plain.contains(b) <==> plain.to_multiset().count(b) > 0);
    if plain.contains(b) {
        let i = choose|i: int| 0 <= i < plain.len() && plain[i] == b;
        assert(nodes[i].1 == b);
    }
    if exists|i: int| 0 <= i < nodes.len() && (#[trigger] nodes[i]).1 == b {
        let i = choose|i: int| 0 <= i < nodes.len() && (#[trigger] nodes[i]).1 == b;
        assert(plain[i] == b);
    }
}

proof fn lemma_open(nodes: Seq<Brief>, n: nat, t: Seq<char>)
    requires
        n <= nodes.len(),
    ensures
        open_titles(nodes, n).contains(t) <==> exists|i: int|
            0 <= i < n && (#[trigger] nodes[i]).status == "open"@ && nodes[i].title == t,
    decreases n,
{
    if n > 0 {
        let m = (n - 1) as nat;
        lemma_open(nodes, m, t);
        let rest = open_titles(nodes, m);
        let all = open_titles(nodes, n);
        if rest.contains(t) {
            let i = choose|i: int| 0 <= i < rest.len() && rest[i] == t;
            assert(all[i] == t);
        }
        if nodes[n - 1].status == "open"@ {
            assert(all[rest.len() as int] == nodes[n - 1].title);
        }
        if all.contains(t) {
            let i = choose|i: int| 0 <= i < all.len() && all[i] == t;
            if i < rest.len() {
                assert(rest[i] == t);
            } else {
                assert(nodes[n - 1].title == t);
            }
        }
    }
}

/// Whether a status is that of a dead end.
pub open spec fn is_end(status: Seq<char>) -> bool {
    status == "dead_end"@ || status == "abandoned"@ || status == "superseded"@
}

proof fn lemma_ends(nodes: Seq<Brief>, n: nat, e: (Seq<char>, Seq<char>))
    requires
        n <= nodes.len(),
    ensures
        dead_ends(nodes, n).contains(e) <==> exists|i: int|
            0 <= i < n && is_end((#[trigger] nodes[i]).status) && (nodes[i].title, nodes[i].reason)
                == e,
    decreases n,
{
    if n > 0 {
        let m = (n - 1) as nat;
        lemma_ends(nodes, m, e);
        let rest = dead_ends(nodes, m);
        let all = dead_ends(nodes, n);
        if rest.contains(e) {
            let i = choose|i: int| 0 <= i < rest.len() && rest[i] == e;
            assert(all[i] == e);
        }
        if is_end(nodes[n - 1].status) {
            assert(all[rest.len() as int] == (nodes[n - 1].title, nodes[n - 1].reason));
        }
        if all.contains(e) {
            let i = choose|i: int| 0 <= i < all.len() && all[i] == e;
            if i < rest.len() {
                assert(rest[i] == e);
            } else {
                assert((nodes[n - 1].title, nodes[n - 1].reason) == e);
            }
        }
    }
}

proof fn lemma_row(graph: Summarised, i: int) -> (k: int)
    requires
        0 <= i < briefs_of(graph).len(),
    ensures
        ({
            let b = briefs_of(graph)[i].1;
            &&& told_among(graph.nodes, k, graph.nodes.len() as int)
            &&& b.title == title_of(graph.nodes[k])
            &&& b.reason == why_of(graph.nodes[k])
            &&& b.status == match graph.nodes[k].text_at("status"@) {
                Some(status) => status,
                None => Seq::empty(),
            }
        }),
{
    let rows = briefs_of(graph);
    let kin = super::backbone::kin_of(graph.edges, graph.edges.len());
    let order = super::backbone::places(kin, graph.roots, graph.roots.len());
    let id = rows[i].0;
    lemma_briefs(graph.nodes, order, graph.nodes.len(), id);
    lemma_row_is_found(rows, i);
    choose|k: int|
        #[trigger] told_among(graph.nodes, k, graph.nodes.len() as int) && graph.nodes[k].text_at(
            "id"@,
        ) == Some(id)
}

proof fn lemma_node(graph: Summarised, k: int) -> (i: int)
    requires
        told_among(graph.nodes, k, graph.nodes.len() as int),
    ensures
        0 <= i < briefs_of(graph).len(),
        ({
            let b = briefs_of(graph)[i].1;
            &&& b.title == title_of(graph.nodes[k])
            &&& b.reason == why_of(graph.nodes[k])
            &&& b.status == match graph.nodes[k].text_at("status"@) {
                Some(status) => status,
                None => Seq::empty(),
            }
        }),
{
    let rows = briefs_of(graph);
    let kin = super::backbone::kin_of(graph.edges, graph.edges.len());
    let order = super::backbone::places(kin, graph.roots, graph.roots.len());
    let id = graph.nodes[k].text_at("id"@)->0;
    lemma_briefs(graph.nodes, order, graph.nodes.len(), id);
    lemma_found_is_row(rows, id);
    choose|i: int| 0 <= i < rows.len() && #[trigger] rows[i] == (id, member(rows, id)->0)
}

/// Before anything is left out, a title is open if and only if it is that of a node whose status
/// is `open`, and an entry is a dead end if and only if it tells of a node whose status is
/// `dead_end`, `abandoned` or `superseded`.
pub proof fn nodes_are_sorted_by_status(graph: Summarised, t: Seq<char>, why: Seq<char>)
    ensures
        parts_of(graph).open.contains(t) <==> exists|k: int|
            #[trigger] told_with(graph.nodes, k, "open"@, "open"@, "open"@) && title_of(
                graph.nodes[k],
            ) == t,
        parts_of(graph).dead_ends.contains((t, why)) <==> exists|k: int|
            #[trigger] told_with(graph.nodes, k, "dead_end"@, "abandoned"@, "superseded"@)
                && title_of(graph.nodes[k]) == t && why_of(graph.nodes[k]) == why,
{
    reveal_strlit("open");
    reveal_strlit("dead_end");
    reveal_strlit("abandoned");
    reveal_strlit("superseded");
    let rows = briefs_of(graph);
    let listed = by_place(rows, rows.len());
    let nodes = graph.nodes;
    lemma_open(listed, listed.len(), t);
    lemma_ends(listed, listed.len(), (t, why));
    if parts_of(graph).open.contains(t) {
        let j = choose|j: int|
            0 <= j < listed.len() && (#[trigger] listed[j]).status == "open"@ && listed[j].title == t;
        lemma_listed(rows, listed[j]);
        assert(listed.contains(listed[j]));
        let i = choose|i: int| 0 <= i < rows.len() && (#[trigger] rows[i]).1 == listed[j];
        let k = lemma_row(graph, i);
        assert(told_with(nodes, k, "open"@, "open"@, "open"@));
    }
    if exists|k: int|
        #[trigger] told_with(nodes, k, "open"@, "open"@, "open"@) && title_of(nodes[k]) == t {
        let k = choose|k: int|
            #[trigger] told_with(nodes, k, "open"@, "open"@, "open"@) && title_of(nodes[k]) == t;
        let i = lemma_node(graph, k);
        lemma_listed(rows, rows[i].1);
        let j = choose|j: int| 0 <= j < listed.len() && listed[j] == rows[i].1;
        assert(listed[j].status == "open"@ && listed[j].title == t);
    }
    if parts_of(graph).dead_ends.contains((t, why)) {
        let j = choose|j: int|
            0 <= j < listed.len() && is_end((#[trigger] listed[j]).status) && (
                listed[j].title,
                listed[j].reason,
            ) == (t, why);
        lemma_listed(rows, listed[j]);
        assert(listed.contains(listed[j]));
        let i = choose|i: int| 0 <= i < rows.len() && (#[trigger] rows[i]).1 == listed[j];
        let k = lemma_row(graph, i);
        assert(told_with(nodes, k, "dead_end"@, "abandoned"@, "superseded"@));
    }
    if exists|k: int|
        #[trigger] told_with(nodes, k, "dead_end"@, "abandoned"@, "superseded"@) && title_of(
            nodes[k],
        ) == t && why_of(nodes[k]) == why {
        let k = choose|k: int|
            #[trigger] told_with(nodes, k, "dead_end"@, "abandoned"@, "superseded"@) && title_of(
                nodes[k],
            ) == t && why_of(nodes[k]) == why;
        let i = lemma_node(graph, k);
        lemma_listed(rows, rows[i].1);
        let j = choose|j: int| 0 <= j < listed.len() && listed[j] == rows[i].1;
        assert(is_end(listed[j].status) && (listed[j].title, listed[j].reason) == (t, why));
    }
}

proof fn lemma_without_open(p: Parts)
    ensures
        ({
            let q = without_open(p);
            &&& q.header == p.header
            &&& q.active_path == p.active_path
            &&& q.active_hidden == p.active_hidden
            &&& q.dead_ends == p.dead_ends
            &&& q.dead_hidden == p.dead_hidden
            &&& q.open.is_prefix_of(p.open)
            &&& q.open.len() + q.open_hidden == p.open.len() + p.open_hidden
            &&& too_long(q) ==> q.open.len() == 0
            &&& !too_long(p) ==> q == p
        }),
    decreases p.open.len(),
{
    if too_long(p) && p.open.len() > 0 {
        let next = Parts { open: p.open.drop_last(), open_hidden: p.open_hidden + 1, ..p };
        lemma_without_open(next);
        let q = without_open(p);
        assert(q.open =~= p.open.take(q.open.len() as int)) by {
            assert(q.open =~= next.open.take(q.open.len() as int));
        }
    } else {
        assert(p.open =~= p.open.take(p.open.len() as int));
    }
}

proof fn lemma_without_path(p: Parts)
    ensures
        ({
            let q = without_path(p);
            &&& q.header == p.header
            &&& q.open == p.open
            &&& q.open_hidden == p.open_hidden
            &&& q.dead_ends == p.dead_ends
            &&& q.dead_hidden == p.dead_hidden
            &&& q.active_path.len() <= p.active_path.len()
            &&& q.active_path == p.active_path.skip(p.active_path.len() - q.active_path.len())
            &&& q.active_path.len() + q.active_hidden == p.active_path.len() + p.active_hidden
            &&& !too_long(p) ==> q == p
        }),
    decreases p.active_path.len(),
{
    if too_long(p) && p.active_path.len() > 0 {
        let next = Parts {
            active_path: p.active_path.drop_first(),
            active_hidden: p.active_hidden + 1,
            ..p
        };
        lemma_without_path(next);
        let q = without_path(p);
        assert(q.active_path =~= p.active_path.skip(p.active_path.len() - q.active_path.len()));
    } else {
        assert(p.active_path =~= p.active_path.skip(0));
    }
}

proof fn lemma_short_reasons(p: Parts)
    ensures
        ({
            let q = with_short_reasons(p);
            &&& q.header == p.header
            &&& q.open == p.open
            &&& q.open_hidden == p.open_hidden
            &&& q.active_path == p.active_path
            &&& q.active_hidden == p.active_hidden
            &&& q.dead_hidden == p.dead_hidden
            &&& q.dead_ends.len() == p.dead_ends.len()
            &&& forall|i: int|
                0 <= i < p.dead_ends.len() ==> (#[trigger] q.dead_ends[i]).0 == p.dead_ends[i].0
            &&& !too_long(p) ==> q == p
        }),
    decreases super::budget::reason_bytes(p.dead_ends),
{
    super::budget::lemma_longest_reason(p.dead_ends, p.dead_ends.len());
    super::budget::lemma_shortened(p.dead_ends);
    if let Some(k) = longest_reason(p.dead_ends, p.dead_ends.len()) {
        if too_long(p) {
            lemma_short_reasons(Parts { dead_ends: shortened(p.dead_ends, k), ..p });
        }
    }
}

proof fn lemma_without_ends(p: Parts)
    ensures
        ({
            let q = without_dead_ends(p);
            &&& q.header == p.header
            &&& q.open == p.open
            &&& q.open_hidden == p.open_hidden
            &&& q.active_path == p.active_path
            &&& q.active_hidden == p.active_hidden
            &&& q.dead_ends.is_prefix_of(p.dead_ends)
            &&& q.dead_ends.len() + q.dead_hidden == p.dead_ends.len() + p.dead_hidden
            &&& !too_long(p) ==> q == p
        }),
    decreases p.dead_ends.len(),
{
    if too_long(p) && p.dead_ends.len() > 0 {
        let next = Parts {
            dead_ends: p.dead_ends.drop_last(),
            dead_hidden: p.dead_hidden + 1,
            ..p
        };
        lemma_without_ends(next);
        let q = without_dead_ends(p);
        assert(q.dead_ends =~= p.dead_ends.take(q.dead_ends.len() as int)) by {
            assert(q.dead_ends =~= next.dead_ends.take(q.dead_ends.len() as int));
        }
    } else {
        assert(p.dead_ends =~= p.dead_ends.take(p.dead_ends.len() as int));
    }
}

/// Under a heading: how many entries were left out, if any were, and then those that were not.
pub open spec fn under(heading: Seq<char>, hidden: nat, entries: Seq<Seq<char>>) -> Seq<Seq<char>> {
    seq![""@, heading] + (if hidden == 0 {
        Seq::empty()
    } else {
        seq!["… "@ + decimal(hidden) + " more"@]
    }) + entries
}

/// What a summary shows: under `DEAD ENDS`, `ACTIVE PATH` and `OPEN` stand entries, and each of
/// the three tells how many it left out. A title stands under `OPEN` only if it is that of a node
/// whose status is `open`, and where none was left out, the title of each such node stands there;
/// and the same of `DEAD ENDS` with nodes whose status is `dead_end`, `abandoned` or `superseded`.
/// Open entries go first where the text would be too long: while one is shown, nothing else was
/// left out or shortened.
pub proof fn summaries_show_what_is_open(graph: Summarised, t: Seq<char>)
    ensures
        ({
            let p = fitted(parts_of(graph));
            &&& summary_of(graph) == joined(
                seq![p.header] + under("DEAD ENDS:"@, p.dead_hidden, dead_end_lines(p.dead_ends))
                    + under(
                    "ACTIVE PATH:"@,
                    p.active_hidden,
                    Seq::new(p.active_path.len(), |i: int| "- "@ + p.active_path[i]),
                ) + under(
                    "OPEN:"@,
                    p.open_hidden,
                    Seq::new(p.open.len(), |i: int| "- "@ + p.open[i]),
                ),
                "\n"@,
            )
            &&& forall|i: int|
                0 <= i < p.dead_ends.len() ==> (#[trigger] dead_end_lines(p.dead_ends)[i]) == "- "@
                    + p.dead_ends[i].0 + (if p.dead_ends[i].1.len() == 0 {
                    Seq::empty()
                } else {
                    " — "@ + p.dead_ends[i].1
                })
            &&& p.open.contains(t) ==> exists|k: int|
                #[trigger] told_with(graph.nodes, k, "open"@, "open"@, "open"@) && title_of(
                    graph.nodes[k],
                ) == t
            &&& p.open_hidden == 0 ==> (p.open.contains(t) <==> exists|k: int|
                #[trigger] told_with(graph.nodes, k, "open"@, "open"@, "open"@) && title_of(
                    graph.nodes[k],
                ) == t)
            &&& forall|i: int|
                0 <= i < p.dead_ends.len() && (#[trigger] p.dead_ends[i]).0 == t ==> exists|k: int|
                    #[trigger] told_with(graph.nodes, k, "dead_end"@, "abandoned"@, "superseded"@)
                        && title_of(graph.nodes[k]) == t
            &&& p.dead_hidden == 0 ==> forall|k: int|
                #[trigger] told_with(graph.nodes, k, "dead_end"@, "abandoned"@, "superseded"@)
                    && title_of(graph.nodes[k]) == t ==> exists|i: int|
                    0 <= i < p.dead_ends.len() && (#[trigger] p.dead_ends[i]).0 == t
            &&& p.open.len() > 0 ==> p.dead_hidden == 0 && p.dead_ends == parts_of(graph).dead_ends
                && p.active_path == parts_of(graph).active_path
            &&& p.active_path.len() <= 8
            &&& p.open.len() + p.open_hidden == parts_of(graph).open.len()
            &&& p.dead_ends.len() + p.dead_hidden == parts_of(graph).dead_ends.len()
            &&& p.active_path.len() + p.active_hidden == path_titles(
                active_path(graph),
                briefs_of(graph),
                active_path(graph).len(),
            ).len()
        }),
{
    let all = parts_of(graph);
    let a = without_open(all);
    let b = without_path(a);
    let c = with_short_reasons(b);
    let p = without_dead_ends(c);
    lemma_without_open(all);
    lemma_without_path(a);
    lemma_short_reasons(b);
    lemma_without_ends(c);
    nodes_are_sorted_by_status(graph, t, Seq::empty());
    if p.open.contains(t) {
        let i = choose|i: int| 0 <= i < p.open.len() && p.open[i] == t;
        assert(p.open[i] == all.open.take(p.open.len() as int)[i]);
        assert(all.open[i] == t);
    }
    if p.open_hidden == 0 {
        assert(p.open =~= all.open);
    }
    assert forall|i: int| 0 <= i < p.dead_ends.len() && (#[trigger] p.dead_ends[i]).0
        == t implies exists|k: int|
        #[trigger] told_with(graph.nodes, k, "dead_end"@, "abandoned"@, "superseded"@) && title_of(
            graph.nodes[k],
        ) == t by {
        assert(p.dead_ends[i] == c.dead_ends.take(p.dead_ends.len() as int)[i]);
        assert(c.dead_ends[i].0 == all.dead_ends[i].0);
        let why = all.dead_ends[i].1;
        assert(all.dead_ends[i] == (t, why));
        nodes_are_sorted_by_status(graph, t, why);
        assert(all.dead_ends.contains((t, why)));
    }
    if p.dead_hidden == 0 {
        assert forall|k: int|
            #[trigger] told_with(graph.nodes, k, "dead_end"@, "abandoned"@, "superseded"@)
                && title_of(graph.nodes[k]) == t implies exists|i: int|
            0 <= i < p.dead_ends.len() && (#[trigger] p.dead_ends[i]).0 == t by {
            let why = why_of(graph.nodes[k]);
            nodes_are_sorted_by_status(graph, t, why);
            let i = choose|i: int| 0 <= i < all.dead_ends.len() && all.dead_ends[i] == (t, why);
            assert(p.dead_ends =~= c.dead_ends);
            assert(c.dead_ends[i].0 == all.dead_ends[i].0);
            assert(p.dead_ends[i].0 == t);
        }
    }
    reveal(rendered);
    reveal_strlit("");
    reveal_strlit(":");
    reveal_strlit("DEAD ENDS");
    reveal_strlit("DEAD ENDS:");
    reveal_strlit("ACTIVE PATH");
    reveal_strlit("ACTIVE PATH:");
    reveal_strlit("OPEN");
    reveal_strlit("OPEN:");
    assert("DEAD ENDS"@ + ":"@ =~= "DEAD ENDS:"@);
    assert("ACTIVE PATH"@ + ":"@ =~= "ACTIVE PATH:"@);
    assert("OPEN"@ + ":"@ =~= "OPEN:"@);
    assert(""@ =~= Seq::<char>::empty());
    let paths = Seq::new(p.active_path.len(), |i: int| "- "@ + p.active_path[i]);
    let opens = Seq::new(p.open.len(), |i: int| "- "@ + p.open[i]);
    assert(bullets(p.active_path) =~= paths);
    assert(bullets(p.open) =~= opens);
    lemma_under("DEAD ENDS"@, "DEAD ENDS:"@, p.dead_hidden, dead_end_lines(p.dead_ends));
    lemma_under("ACTIVE PATH"@, "ACTIVE PATH:"@, p.active_hidden, paths);
    lemma_under("OPEN"@, "OPEN:"@, p.open_hidden, opens);
    assert forall|i: int| 0 <= i < p.dead_ends.len() implies (#[trigger] dead_end_lines(
        p.dead_ends,
    )[i]) == "- "@ + p.dead_ends[i].0 + (if p.dead_ends[i].1.len() == 0 {
        Seq::empty()
    } else {
        " — "@ + p.dead_ends[i].1
    }) by {
        if p.dead_ends[i].1.len() == 0 {
            assert("- "@ + p.dead_ends[i].0 + Seq::<char>::empty() =~= "- "@ + p.dead_ends[i].0);
        } else {
            assert("- "@ + p.dead_ends[i].0 + " — "@ + p.dead_ends[i].1 =~= "- "@
                + p.dead_ends[i].0 + (" — "@ + p.dead_ends[i].1));
        }
    }
}

proof fn lemma_under(name: Seq<char>, heading: Seq<char>, hidden: nat, body: Seq<Seq<char>>)
    requires
        name + ":"@ == heading,
        ""@ == Seq::<char>::empty(),
    ensures
        section(name, hidden, body) == under(heading, hidden, body),
{
    assert(section(name, hidden, body) =~= under(heading, hidden, body));
}

} // verus!
