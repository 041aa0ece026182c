//! The way that a summary follows is the longest one, and of the longest ones the first.

use super::backbone::{
    all_shallow, better, kids_of, kin_of, list_before, longest_of, longest_way, shallow, Kin,
};
use super::parts::{active_path, finite, path_start, Summarised};
use crate::table::{lemma_found_is_row, member};
use crate::text::{lemma_before_irreflexive, lemma_before_total, lemma_before_transitive};
use vstd::prelude::*;

verus! {

/// Whether a list of nodes leads down the backbone: each is a child of the one before it.
pub open spec fn leads_down(kin: Kin, path: Seq<Seq<char>>) -> bool
    decreases path.len(),
{
    path.len() <= 1 || (kids_of(kin, path[0]).contains(path[1]) && leads_down(
        kin,
        path.drop_first(),
    ))
}

/// Whether a list of nodes is a way down from a node.
pub open spec fn way_from(kin: Kin, node: Seq<char>, path: Seq<Seq<char>>) -> bool {
    path.len() > 0 && path[0] == node && leads_down(kin, path)
}

/// The order of lists of names is a strict total order.
proof fn lemma_list_before_total(a: Seq<Seq<char>>, b: Seq<Seq<char>>)
    ensures
        a == b || list_before(a, b) || list_before(b, a),
    decreases a.len(),
{
    if a.len() > 0 && b.len() > 0 {
        if a[0] != b[0] {
            lemma_before_total(a[0], b[0]);
        } else {
            lemma_list_before_total(a.drop_first(), b.drop_first());
            if a.drop_first() == b.drop_first() {
                assert(a =~= seq![a[0]] + a.drop_first());
                assert(b =~= seq![b[0]] + b.drop_first());
            }
        }
    } else {
        assert(a.len() == 0 && b.len() == 0 ==> a =~= b);
    }
}

proof fn lemma_list_before_transitive(
    a: Seq<Seq<char>>,
    b: Seq<Seq<char>>,
    c: Seq<Seq<char>>,
)
    requires
        list_before(a, b),
        list_before(b, c),
    ensures
        list_before(a, c),
    decreases a.len(),
{
    if a.len() > 0 {
        if a[0] == b[0] && b[0] == c[0] {
            lemma_list_before_transitive(a.drop_first(), b.drop_first(), c.drop_first());
        } else if a[0] != b[0] && b[0] != c[0] {
            lemma_before_transitive(a[0], b[0], c[0]);
            lemma_before_irreflexive(a[0]);
        }
    }
}

proof fn lemma_better_transitive(a: Seq<Seq<char>>, b: Seq<Seq<char>>, c: Seq<Seq<char>>)
    requires
        better(a, b),
        better(b, c),
    ensures
        better(a, c),
{
    if a.len() == b.len() && b.len() == c.len() {
        lemma_list_before_transitive(a, b, c);
    }
}

/// The way that is followed is a way down.
proof fn lemma_is_way(kin: Kin, node: Seq<char>, steps: nat)
    ensures
        way_from(kin, node, longest_way(kin, node, steps)),
    decreases steps, 0int,
{
    if let Some(kids) = member(kin, node) {
        if steps > 0 {
            let rest = longest_of(kin, kids, kids.len(), (steps - 1) as nat);
            lemma_is_way_of(kin, kids, kids.len(), (steps - 1) as nat);
            let path = longest_way(kin, node, steps);
            assert(path.drop_first() =~= rest);
            if rest.len() > 0 {
                assert(path[1] == rest[0]);
            }
        }
    }
}

proof fn lemma_is_way_of(kin: Kin, nodes: Seq<Seq<char>>, n: nat, steps: nat)
    requires
        n <= nodes.len(),
    ensures
        n > 0 ==> longest_of(kin, nodes, n, steps).len() > 0 && nodes.contains(
            longest_of(kin, nodes, n, steps)[0],
        ),
        leads_down(kin, longest_of(kin, nodes, n, steps)),
    decreases steps, n + 1,
{
    if n > 0 {
        lemma_is_way_of(kin, nodes, (n - 1) as nat, steps);
        lemma_is_way(kin, nodes[n - 1], steps);
    }
}

/// Of the ways down from some nodes the one that is followed is not behind any.
proof fn lemma_best_of(kin: Kin, nodes: Seq<Seq<char>>, n: nat, steps: nat, j: int)
    requires
        0 <= j < n <= nodes.len(),
    ensures
        longest_of(kin, nodes, n, steps) == longest_way(kin, nodes[j], steps) || better(
            longest_of(kin, nodes, n, steps),
            longest_way(kin, nodes[j], steps),
        ),
    decreases n,
{
    let prior = longest_of(kin, nodes, (n - 1) as nat, steps);
    let candidate = longest_way(kin, nodes[n - 1], steps);
    if j < n - 1 {
        lemma_best_of(kin, nodes, (n - 1) as nat, steps, j);
        if better(candidate, prior) && prior != longest_way(kin, nodes[j], steps) {
            lemma_better_transitive(candidate, prior, longest_way(kin, nodes[j], steps));
        }
    } else {
        lemma_list_before_total(candidate, prior);
    }
}

proof fn lemma_one_shallow(kin: Kin, nodes: Seq<Seq<char>>, n: nat, steps: nat, j: int)
    requires
        all_shallow(kin, nodes, n, steps),
        0 <= j < n <= nodes.len(),
    ensures
        shallow(kin, nodes[j], steps),
    decreases n,
{
    if j < n - 1 {
        lemma_one_shallow(kin, nodes, (n - 1) as nat, steps, j);
    }
}

/// Where no way down from a node runs in a circle, the way that is followed is a way down from
/// it, no way down from it is longer, and of those as long it is the first by its names.
pub proof fn the_way_followed_is_the_longest(
    kin: Kin,
    node: Seq<char>,
    steps: nat,
    path: Seq<Seq<char>>,
)
    requires
        shallow(kin, node, steps),
        way_from(kin, node, path),
    ensures
        way_from(kin, node, longest_way(kin, node, steps)),
        path.len() <= longest_way(kin, node, steps).len(),
        path.len() == longest_way(kin, node, steps).len() ==> path == longest_way(
            kin,
            node,
            steps,
        ) || list_before(longest_way(kin, node, steps), path),
    decreases steps,
{
    let followed = longest_way(kin, node, steps);
    lemma_is_way(kin, node, steps);
    if path.len() == 1 {
        if followed.len() == 1 {
            assert(path =~= followed);
        }
    } else {
        let kids = member(kin, node)->0;
        let rest = path.drop_first();
        let j = choose|j: int| 0 <= j < kids.len() && kids[j] == path[1];
        let lower = (steps - 1) as nat;
        lemma_one_shallow(kin, kids, kids.len(), lower, j);
        the_way_followed_is_the_longest(kin, kids[j], lower, rest);
        lemma_best_of(kin, kids, kids.len(), lower, j);
        let best = longest_of(kin, kids, kids.len(), lower);
        let under = longest_way(kin, kids[j], lower);
        assert(followed.drop_first() =~= best);
        if best != under && under != rest && rest.len() == best.len() {
            lemma_list_before_transitive(best, under, rest);
        }
        if best == rest {
            assert(path =~= seq![node] + rest);
        }
    }
}

/// Whether no way down from a node comes by a node twice.
pub open spec fn circle_free(kin: Kin, node: Seq<char>) -> bool {
    forall|path: Seq<Seq<char>>| #[trigger] way_from(kin, node, path) ==> path.no_duplicates()
}

/// Whether each node of a way has children.
spec fn goes_on(kin: Kin, path: Seq<Seq<char>>) -> bool {
    forall|i: int| 0 <= i < path.len() ==> member(kin, #[trigger] path[i]) is Some
}

/// The node below which there are ways of more than so many steps.
proof fn lemma_one_deep(kin: Kin, nodes: Seq<Seq<char>>, n: nat, steps: nat) -> (j: int)
    requires
        !all_shallow(kin, nodes, n, steps),
        n <= nodes.len(),
    ensures
        0 <= j < n,
        !shallow(kin, nodes[j], steps),
    decreases n,
{
    if shallow(kin, nodes[n - 1], steps) {
        lemma_one_deep(kin, nodes, (n - 1) as nat, steps)
    } else {
        n - 1
    }
}

/// A way of more than so many steps.
proof fn lemma_deep_way(kin: Kin, node: Seq<char>, steps: nat) -> (path: Seq<Seq<char>>)
    requires
        !shallow(kin, node, steps),
    ensures
        way_from(kin, node, path),
        path.len() == steps + 1,
        goes_on(kin, path),
    decreases steps,
{
    if steps == 0 {
        seq![node]
    } else {
        let kids = member(kin, node)->0;
        let j = lemma_one_deep(kin, kids, kids.len(), (steps - 1) as nat);
        let rest = lemma_deep_way(kin, kids[j], (steps - 1) as nat);
        let path = seq![node] + rest;
        assert(path.drop_first() =~= rest);
        assert forall|i: int| 0 <= i < path.len() implies member(kin, #[trigger] path[i]) is Some by {
            if i > 0 {
                assert(path[i] == rest[i - 1]);
            }
        }
        path
    }
}

/// Where no way down from a node comes by a node twice, each takes at most as many steps as
/// there are nodes with children.
pub proof fn ways_without_circles_end(kin: Kin, node: Seq<char>)
    requires
        circle_free(kin, node),
    ensures
        shallow(kin, node, kin.len()),
{
    if !shallow(kin, node, kin.len()) {
        let path = lemma_deep_way(kin, node, kin.len());
        let names = Seq::new(kin.len(), |i: int| kin[i].0);
        assert forall|i: int| 0 <= i < path.len() implies names.contains(#[trigger] path[i]) by {
            let kids = member(kin, path[i])->0;
            lemma_found_is_row(kin, path[i]);
            let k = choose|k: int| 0 <= k < kin.len() && #[trigger] kin[k] == (path[i], kids);
            assert(names[k] == path[i]);
        }
        assert(way_from(kin, node, path));
        path.unique_seq_to_set();
        names.lemma_cardinality_of_set();
        assert(path.to_set().subset_of(names.to_set())) by {
            assert forall|x: Seq<char>| path.to_set().contains(x) implies names.to_set().contains(
                x,
            ) by {
                let i = choose|i: int| 0 <= i < path.len() && path[i] == x;
                assert(names.contains(path[i]));
            }
        }
        vstd::set_lib::lemma_len_subset(path.to_set(), names.to_set());
    }
}

/// The active path of a graph whose ways down from its start come by no node twice: it is a way
/// down from there, no way down from there is longer, and of those as long it is the first by
/// its names.
pub proof fn the_active_path_is_the_longest(graph: Summarised, path: Seq<Seq<char>>)
    requires
        path_start(graph) is Some,
        circle_free(kin_of(graph.edges, graph.edges.len()), path_start(graph)->0),
        way_from(kin_of(graph.edges, graph.edges.len()), path_start(graph)->0, path),
    ensures
        finite(graph),
        way_from(
            kin_of(graph.edges, graph.edges.len()),
            path_start(graph)->0,
            active_path(graph),
        ),
        path.len() <= active_path(graph).len(),
        path.len() == active_path(graph).len() ==> path == active_path(graph) || list_before(
            active_path(graph),
            path,
        ),
{
    let kin = kin_of(graph.edges, graph.edges.len());
    let root = path_start(graph)->0;
    ways_without_circles_end(kin, root);
    the_way_followed_is_the_longest(kin, root, kin.len(), path);
}

} // verus!
