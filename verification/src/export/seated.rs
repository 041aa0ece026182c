//! A graph that can be drawn has a layout, in which each node has one spot.

use super::count::{lemma_root_or_child, lemma_roots_are_named};
use super::graph::{
    climb, drawn, forest, ids_of, lemma_forest, parents_from, required_each, roots_fault,
    unnumbered, Dag, Node,
};
use super::svg::{bare, layout_of, seat, seat_each, seat_roots, Laid, Seated};
use super::text::{below, children_of};
use crate::json::Tree;
use crate::table::{in_order_keeps_names, member};
use crate::text::lemma_before_irreflexive;
use vstd::prelude::*;

verus! {

type Steps = Seq<(Seq<char>, Seq<char>)>;

/// The way down to a node from the end of its way up, if that ends within a number of steps.
pub open spec fn path(parents: Steps, id: Seq<char>, n: nat) -> Seq<Seq<char>>
    decreases n,
{
    match member(parents, id) {
        None => seq![id],
        Some(parent) => if n == 0 {
            seq![id]
        } else {
            path(parents, parent, (n - 1) as nat).push(id)
        },
    }
}

/// The way down to a node.
pub open spec fn way(parents: Steps, id: Seq<char>) -> Seq<Seq<char>> {
    path(parents, id, parents.len())
}

proof fn lemma_path_settles(parents: Steps, id: Seq<char>, n: nat, more: nat)
    requires
        climb(parents, id, n) is Some,
        n <= more,
    ensures
        climb(parents, id, more) is Some,
        path(parents, id, more) == path(parents, id, n),
    decreases n,
{
    if let Some(parent) = member(parents, id) {
        lemma_path_settles(parents, parent, (n - 1) as nat, (more - 1) as nat);
    }
}

/// The way down to a node is that to its parent, and then the node.
proof fn lemma_way(parents: Steps, id: Seq<char>)
    requires
        climb(parents, id, parents.len()) is Some,
    ensures
        way(parents, id).len() > 0,
        way(parents, id).last() == id,
        match member(parents, id) {
            None => way(parents, id) == seq![id],
            Some(parent) => climb(parents, parent, parents.len()) is Some && way(parents, id)
                == way(parents, parent).push(id),
        },
{
    if let Some(parent) = member(parents, id) {
        lemma_path_settles(parents, parent, (parents.len() - 1) as nat, parents.len());
    }
}

/// The way down to a node of a way is the start of that.
proof fn lemma_way_starts(parents: Steps, id: Seq<char>, n: nat, k: int)
    requires
        climb(parents, id, n) is Some,
        n <= parents.len(),
        0 <= k < path(parents, id, n).len(),
    ensures
        climb(parents, path(parents, id, n)[k], parents.len()) is Some,
        way(parents, path(parents, id, n)[k]) == path(parents, id, n).take(k + 1),
    decreases n,
{
    let whole = path(parents, id, n);
    match member(parents, id) {
        None => {
            lemma_way(parents, id);
            assert(whole.take(1) =~= whole);
        },
        Some(parent) => {
            let less = path(parents, parent, (n - 1) as nat);
            if k < less.len() {
                lemma_way_starts(parents, parent, (n - 1) as nat, k);
                assert(whole[k] == less[k]);
                assert(whole.take(k + 1) =~= less.take(k + 1));
            } else {
                lemma_path_settles(parents, id, n, parents.len());
                assert(whole.take(k + 1) =~= whole);
            }
        },
    }
}

/// No node stands twice on a way.
proof fn lemma_way_is_plain(parents: Steps, id: Seq<char>)
    requires
        climb(parents, id, parents.len()) is Some,
    ensures
        way(parents, id).no_duplicates(),
{
    let whole = way(parents, id);
    assert forall|i: int, j: int| 0 <= i < whole.len() && 0 <= j < whole.len() && i != j implies
        whole[i] != whole[j] by {
        lemma_way_starts(parents, id, parents.len(), i);
        lemma_way_starts(parents, id, parents.len(), j);
        if whole[i] == whole[j] {
            assert(whole.take(i + 1).len() == whole.take(j + 1).len());
        }
    }
}

/// Whether one node stands on the way down to another.
pub open spec fn over(parents: Steps, id: Seq<char>, other: Seq<char>) -> bool {
    way(parents, other).contains(id)
}

/// Whether a name is that of a node.
pub open spec fn is_node(nodes: Seq<Node>, id: Seq<char>) -> bool {
    ids_of(nodes).contains(id)
}

proof fn lemma_node(nodes: Seq<Node>, parents: Steps, id: Seq<char>)
    requires
        forest(nodes, parents),
        is_node(nodes, id),
    ensures
        climb(parents, id, parents.len()) is Some,
        member(parents, id) matches Some(parent) ==> is_node(nodes, parent),
{
    let i = choose|i: int| 0 <= i < nodes.len() && ids_of(nodes)[i] == id;
    assert(nodes[i].parent == member(parents, nodes[i].id));
    assert(climb(parents, nodes[i].id, parents.len()) is Some);
}

/// A way down leads over nodes only.
proof fn lemma_way_of_nodes(nodes: Seq<Node>, parents: Steps, id: Seq<char>, n: nat)
    requires
        forest(nodes, parents),
        is_node(nodes, id),
    ensures
        forall|k: int|
            0 <= k < path(parents, id, n).len() ==> is_node(nodes, #[trigger] path(parents, id, n)[k]),
    decreases n,
{
    lemma_node(nodes, parents, id);
    if let Some(parent) = member(parents, id) {
        if n > 0 {
            lemma_way_of_nodes(nodes, parents, parent, (n - 1) as nat);
            let less = path(parents, parent, (n - 1) as nat);
            let whole = path(parents, id, n);
            assert forall|k: int| 0 <= k < whole.len() implies is_node(nodes, #[trigger] whole[k]) by {
                if k < less.len() {
                    assert(whole[k] == less[k]);
                }
            }
        }
    }
}

/// A way down is no longer than there are nodes.
proof fn lemma_way_is_short(nodes: Seq<Node>, parents: Steps, id: Seq<char>)
    requires
        forest(nodes, parents),
        is_node(nodes, id),
    ensures
        way(parents, id).len() <= nodes.len(),
{
    let whole = way(parents, id);
    let ids = ids_of(nodes);
    lemma_node(nodes, parents, id);
    lemma_way_is_plain(parents, id);
    lemma_way_of_nodes(nodes, parents, id, parents.len());
    whole.unique_seq_to_set();
    ids.unique_seq_to_set();
    assert(whole.to_set().subset_of(ids.to_set())) by {
        assert forall|x: Seq<char>| whole.to_set().contains(x) implies ids.to_set().contains(x) by {
            let k = choose|k: int| 0 <= k < whole.len() && whole[k] == x;
            assert(is_node(nodes, whole[k]));
        }
    }
    vstd::seq_lib::seq_to_set_is_finite(ids);
    vstd::set_lib::lemma_len_subset(whole.to_set(), ids.to_set());
}

proof fn lemma_below(nodes: Seq<Node>, id: Seq<char>, n: nat, other: Seq<char>)
    requires
        n <= nodes.len(),
    ensures
        below(nodes, id, n).contains(other) == exists|k: int|
            0 <= k < n && (#[trigger] nodes[k]).id == other && nodes[k].parent == Some(id),
    decreases n,
{
    if n > 0 {
        let m = (n - 1) as nat;
        lemma_below(nodes, id, m, other);
        let was = below(nodes, id, m);
        let now = below(nodes, id, n);
        if was.contains(other) {
            let k = choose|k: int|
                0 <= k < m && (#[trigger] nodes[k]).id == other && nodes[k].parent == Some(id);
            assert(nodes[k].id == other);
            let i = choose|i: int| 0 <= i < was.len() && was[i] == other;
            assert(now[i] == other);
        }
        if nodes[n - 1].parent == Some(id) {
            assert(now[was.len() as int] == nodes[n - 1].id);
        }
        if now.contains(other) {
            let i = choose|i: int| 0 <= i < now.len() && now[i] == other;
            if i < was.len() {
                assert(was[i] == other);
            } else {
                assert(nodes[n - 1].id == other);
            }
        }
        if exists|k: int|
            0 <= k < n && (#[trigger] nodes[k]).id == other && nodes[k].parent == Some(id) {
            let k = choose|k: int|
                0 <= k < n && (#[trigger] nodes[k]).id == other && nodes[k].parent == Some(id);
            if k < m {
                assert(was.contains(other));
            }
        }
    }
}

/// The children of a node are the nodes that have it as their parent, each once.
proof fn lemma_children(nodes: Seq<Node>, parents: Steps, id: Seq<char>, other: Seq<char>)
    requires
        forest(nodes, parents),
    ensures
        children_of(nodes, id).no_duplicates(),
        children_of(nodes, id).contains(other) == (is_node(nodes, other) && member(parents, other)
            == Some(id)),
{
    let list = below(nodes, id, nodes.len());
    let kids = children_of(nodes, id);
    lemma_below(nodes, id, nodes.len(), other);
    in_order_keeps_names(list, other);
    assert forall|i: int, j: int| 0 <= i < kids.len() && 0 <= j < kids.len() && i != j implies
        kids[i] != kids[j] by {
        lemma_before_irreflexive(kids[i]);
        if i < j {
            assert(crate::text::before(kids[i], kids[j]));
        } else {
            assert(crate::text::before(kids[j], kids[i]));
        }
    }
    if list.contains(other) {
        let k = choose|k: int|
            0 <= k < nodes.len() && (#[trigger] nodes[k]).id == other && nodes[k].parent == Some(id);
        assert(ids_of(nodes)[k] == other);
        assert(nodes[k].parent == member(parents, nodes[k].id));
    }
    if is_node(nodes, other) && member(parents, other) == Some(id) {
        let k = choose|k: int| 0 <= k < nodes.len() && ids_of(nodes)[k] == other;
        assert(nodes[k].parent == member(parents, nodes[k].id));
        assert(nodes[k].id == other);
    }
}

/// A node stands over itself and over what its children stand over.
proof fn lemma_over(nodes: Seq<Node>, parents: Steps, id: Seq<char>, other: Seq<char>)
    requires
        forest(nodes, parents),
        is_node(nodes, id),
        is_node(nodes, other),
    ensures
        over(parents, id, id),
        forall|child: Seq<char>|
            is_node(nodes, child) && member(parents, child) == Some(id) && #[trigger] over(
                parents,
                child,
                other,
            ) ==> over(parents, id, other) && other != id,
        over(parents, id, other) && other != id ==> exists|child: Seq<char>|
            is_node(nodes, child) && member(parents, child) == Some(id) && #[trigger] over(
                parents,
                child,
                other,
            ),
{
    lemma_node(nodes, parents, id);
    lemma_node(nodes, parents, other);
    lemma_way(parents, id);
    lemma_way(parents, other);
    let whole = way(parents, other);
    let own = way(parents, id);
    assert(own[own.len() - 1] == id);
    assert forall|child: Seq<char>|
        is_node(nodes, child) && member(parents, child) == Some(id) && #[trigger] over(
            parents,
            child,
            other,
        ) implies over(parents, id, other) && other != id by {
        let k = choose|k: int| 0 <= k < whole.len() && whole[k] == child;
        lemma_way_starts(parents, other, parents.len(), k);
        lemma_node(nodes, parents, child);
        lemma_way(parents, child);
        assert(way(parents, child) == own.push(child));
        assert(whole.take(k + 1) == own.push(child));
        assert(whole[own.len() - 1] == own.push(child)[own.len() - 1]);
        assert(whole[own.len() - 1] == id);
        lemma_way_is_plain(parents, other);
        assert(whole[whole.len() - 1] == other);
    }
    if over(parents, id, other) && other != id {
        let k = choose|k: int| 0 <= k < whole.len() && whole[k] == id;
        assert(whole[whole.len() - 1] == other);
        assert(k + 1 < whole.len());
        let child = whole[k + 1];
        lemma_way_starts(parents, other, parents.len(), k);
        lemma_way_starts(parents, other, parents.len(), k + 1);
        lemma_way_of_nodes(nodes, parents, other, parents.len());
        assert(is_node(nodes, whole[k + 1]));
        lemma_node(nodes, parents, child);
        lemma_way(parents, child);
        let down = whole.take(k + 2);
        assert(way(parents, child) == down);
        match member(parents, child) {
            None => {
                assert(down.len() == 1);
            },
            Some(parent) => {
                assert(down == way(parents, parent).push(child));
                lemma_way(parents, parent);
                assert(down[k] == id);
                assert(way(parents, parent)[k] == down[k]);
                assert(way(parents, parent).len() == k + 1);
                assert(parent == id);
            },
        }
        assert(over(parents, child, other));
    }
}

/// Two children of one node stand over nothing in common.
proof fn lemma_apart(
    nodes: Seq<Node>,
    parents: Steps,
    one: Seq<char>,
    two: Seq<char>,
    other: Seq<char>,
)
    requires
        forest(nodes, parents),
        is_node(nodes, one),
        is_node(nodes, two),
        is_node(nodes, other),
        member(parents, one) == member(parents, two),
        over(parents, one, other),
        over(parents, two, other),
    ensures
        one == two,
{
    lemma_node(nodes, parents, one);
    lemma_node(nodes, parents, two);
    lemma_node(nodes, parents, other);
    lemma_way(parents, one);
    lemma_way(parents, two);
    let whole = way(parents, other);
    let j = choose|j: int| 0 <= j < whole.len() && whole[j] == one;
    let k = choose|k: int| 0 <= k < whole.len() && whole[k] == two;
    lemma_way_starts(parents, other, parents.len(), j);
    lemma_way_starts(parents, other, parents.len(), k);
    assert(whole.take(j + 1).len() == way(parents, one).len());
    assert(whole.take(k + 1).len() == way(parents, two).len());
}

/// Whether a node has been come to.
pub open spec fn reached(laid: Laid, id: Seq<char>) -> bool {
    laid.visited.contains(id)
}

/// Whether a layout gives a node its spot.
pub open spec fn has_spot(nodes: Seq<Node>, parents: Steps, laid: Laid, id: Seq<char>) -> bool {
    exists|k: int|
        0 <= k < laid.spots.len() && (#[trigger] laid.spots[k]).id == id && laid.spots[k].depth
            == way(parents, id).len() - 1
}

/// What a layout does on its way through some nodes: it comes to just those, each once, and
/// gives each a spot.
pub open spec fn lays(
    nodes: Seq<Node>,
    parents: Steps,
    was: Laid,
    now: Laid,
    these: spec_fn(Seq<char>) -> bool,
) -> bool {
    &&& was.visited.no_duplicates() ==> now.visited.no_duplicates()
    &&& now.visited.len() - was.visited.len() == now.spots.len() - was.spots.len()
    &&& forall|id: Seq<char>| #[trigger]
        reached(now, id) == (reached(was, id) || (is_node(nodes, id) && these(id)))
    &&& forall|id: Seq<char>| #[trigger]
        has_spot(nodes, parents, was, id) ==> has_spot(nodes, parents, now, id)
    &&& forall|id: Seq<char>|
        is_node(nodes, id) && these(id) ==> #[trigger] has_spot(nodes, parents, now, id)
}

/// A layout with one more spot, and what a step before it did.
proof fn lemma_spot(
    nodes: Seq<Node>,
    parents: Steps,
    was: Laid,
    spot: Seated,
    leaves: nat,
)
    requires
        spot.depth == way(parents, spot.id).len() - 1,
    ensures
        ({
            let now = Laid { spots: was.spots.push(spot), leaves, ..was };
            &&& has_spot(nodes, parents, now, spot.id)
            &&& forall|id: Seq<char>| #[trigger]
                has_spot(nodes, parents, was, id) ==> has_spot(nodes, parents, now, id)
        }),
{
    let now = Laid { spots: was.spots.push(spot), leaves, ..was };
    assert(now.spots[was.spots.len() as int] == spot);
    assert forall|id: Seq<char>| #[trigger] has_spot(nodes, parents, was, id) implies has_spot(
        nodes,
        parents,
        now,
        id,
    ) by {
        let k = choose|k: int|
            0 <= k < was.spots.len() && (#[trigger] was.spots[k]).id == id && was.spots[k].depth
                == way(parents, id).len() - 1;
        assert(now.spots[k] == was.spots[k]);
    }
}

/// The layout of a node and all below it.
proof fn lemma_seat(
    nodes: Seq<Node>,
    parents: Steps,
    id: Seq<char>,
    levels: nat,
    roots: nat,
    laid: Laid,
)
    requires
        forest(nodes, parents),
        is_node(nodes, id),
        way(parents, id).len() - 1 + levels == nodes.len(),
        forall|other: Seq<char>|
            is_node(nodes, other) && over(parents, id, other) ==> !#[trigger] reached(laid, other),
    ensures
        ({
            let trail = way(parents, id).drop_last();
            let now = seat(nodes, id, trail.len(), levels, roots, trail, laid);
            &&& now is Ok
            &&& lays(nodes, parents, laid, now->Ok_0, |other: Seq<char>| over(parents, id, other))
        }),
    decreases levels, 0nat,
{
    let whole = way(parents, id);
    let trail = whole.drop_last();
    let kids = children_of(nodes, id);
    let these = |other: Seq<char>| over(parents, id, other);
    lemma_node(nodes, parents, id);
    lemma_way(parents, id);
    lemma_way_is_plain(parents, id);
    lemma_over(nodes, parents, id, id);
    assert(!trail.contains(id)) by {
        if trail.contains(id) {
            let k = choose|k: int| 0 <= k < trail.len() && trail[k] == id;
            assert(whole[k] == whole[whole.len() - 1]);
        }
    }
    assert(!reached(laid, id));
    let come = Laid { visited: laid.visited.push(id), ..laid };
    assert(come.visited[laid.visited.len() as int] == id);
    assert forall|other: Seq<char>| #[trigger] reached(come, other) == (reached(laid, other)
        || other == id) by {
        if reached(laid, other) {
            let k = choose|k: int| 0 <= k < laid.visited.len() && laid.visited[k] == other;
            assert(come.visited[k] == other);
        }
        if reached(come, other) {
            let k = choose|k: int| 0 <= k < come.visited.len() && come.visited[k] == other;
            if k < laid.visited.len() {
                assert(laid.visited[k] == other);
            }
        }
    }
    assert(laid.visited.no_duplicates() ==> come.visited.no_duplicates()) by {
        if laid.visited.no_duplicates() {
            assert forall|i: int, j: int|
                0 <= i < come.visited.len() && 0 <= j < come.visited.len() && i != j implies
                come.visited[i] != come.visited[j] by {
                if i < laid.visited.len() && j < laid.visited.len() {
                    assert(laid.visited[i] != laid.visited[j]);
                } else if i < laid.visited.len() {
                    assert(laid.visited.contains(laid.visited[i]));
                } else if j < laid.visited.len() {
                    assert(laid.visited.contains(laid.visited[j]));
                }
            }
        }
    }
    if kids.len() == 0 {
        let spot = Seated {
            id,
            depth: trail.len(),
            at: super::svg::At::Leaf { leaves: laid.leaves, roots },
        };
        lemma_spot(nodes, parents, come, spot, laid.leaves + 1);
        let now = Laid { spots: come.spots.push(spot), leaves: laid.leaves + 1, ..come };
        assert(seat(nodes, id, trail.len(), levels, roots, trail, laid) == Ok::<
            Laid,
            Seq<char>,
        >(now));
        assert forall|other: Seq<char>| is_node(nodes, other) && these(other) implies other == id by {
            lemma_over(nodes, parents, id, other);
            if other != id {
                let child = choose|child: Seq<char>|
                    is_node(nodes, child) && member(parents, child) == Some(id) && #[trigger] over(
                        parents,
                        child,
                        other,
                    );
                lemma_children(nodes, parents, id, child);
            }
        }
        assert forall|other: Seq<char>| #[trigger] reached(now, other) == (reached(laid, other) || (
        is_node(nodes, other) && these(other))) by {
            assert(reached(come, other) == (reached(laid, other) || other == id));
        }
        assert forall|other: Seq<char>| #[trigger] has_spot(nodes, parents, laid, other) implies
            has_spot(nodes, parents, now, other) by {
            assert(has_spot(nodes, parents, come, other)) by {
                let k = choose|k: int|
                    0 <= k < laid.spots.len() && (#[trigger] laid.spots[k]).id == other
                        && laid.spots[k].depth == way(parents, other).len() - 1;
                assert(come.spots[k].id == other);
            }
        }
    } else {
        let child = kids[0];
        lemma_children(nodes, parents, id, child);
        assert(kids.contains(child));
        lemma_node(nodes, parents, child);
        lemma_way(parents, child);
        lemma_way_is_short(nodes, parents, child);
        assert(trail.push(id) =~= whole);
        assert forall|j: int, other: Seq<char>|
            0 <= j < kids.len() && is_node(nodes, other) && #[trigger] over(
                parents,
                kids[j],
                other,
            ) implies !reached(come, other) by {
            lemma_children(nodes, parents, id, kids[j]);
            assert(kids.contains(kids[j]));
            lemma_over(nodes, parents, id, other);
            assert(reached(come, other) == (reached(laid, other) || other == id));
        }
        lemma_seat_each(nodes, parents, id, 0, (levels - 1) as nat, roots, come, 0);
        let (under, first) = seat_each(
            nodes,
            kids,
            0,
            whole.len(),
            (levels - 1) as nat,
            roots,
            whole,
            come,
            0,
        )->Ok_0;
        let spot = Seated {
            id,
            depth: trail.len(),
            at: super::svg::At::Between { first, last: (under.spots.len() - 1) as nat },
        };
        lemma_spot(nodes, parents, under, spot, under.leaves);
        let now = Laid { spots: under.spots.push(spot), leaves: under.leaves, ..under };
        assert(seat(nodes, id, trail.len(), levels, roots, trail, laid) == Ok::<
            Laid,
            Seq<char>,
        >(now));
        assert forall|other: Seq<char>| is_node(nodes, other) implies these(other) == (other == id
            || child_over(parents, kids, 0, other)) by {
            lemma_over(nodes, parents, id, other);
            if these(other) && other != id {
                let child = choose|child: Seq<char>|
                    is_node(nodes, child) && member(parents, child) == Some(id) && #[trigger] over(
                        parents,
                        child,
                        other,
                    );
                lemma_children(nodes, parents, id, child);
                let j = choose|j: int| 0 <= j < kids.len() && kids[j] == child;
                assert(over(parents, kids[j], other));
            }
            if child_over(parents, kids, 0, other) {
                let j = choose|j: int|
                    0 <= j < kids.len() && over(parents, #[trigger] kids[j], other);
                lemma_children(nodes, parents, id, kids[j]);
                assert(kids.contains(kids[j]));
            }
        }
        assert forall|other: Seq<char>| #[trigger] reached(now, other) == (reached(laid, other) || (
        is_node(nodes, other) && these(other))) by {
            assert(reached(under, other) == (reached(come, other) || (is_node(nodes, other)
                && child_over(parents, kids, 0, other))));
            assert(reached(come, other) == (reached(laid, other) || other == id));
        }
        assert forall|other: Seq<char>| #[trigger] has_spot(nodes, parents, laid, other) implies
            has_spot(nodes, parents, now, other) by {
            assert(has_spot(nodes, parents, come, other)) by {
                let k = choose|k: int|
                    0 <= k < laid.spots.len() && (#[trigger] laid.spots[k]).id == other
                        && laid.spots[k].depth == way(parents, other).len() - 1;
                assert(come.spots[k].id == other);
            }
            assert(has_spot(nodes, parents, under, other));
        }
        assert forall|other: Seq<char>| is_node(nodes, other) && these(other) implies #[trigger] has_spot(
            nodes,
            parents,
            now,
            other,
        ) by {
            if other != id {
                assert(child_over(parents, kids, 0, other));
                assert(has_spot(nodes, parents, under, other));
            }
        }
    }
}

/// Whether one of some nodes, from position `i` on, stands over another.
spec fn child_over(parents: Steps, kids: Seq<Seq<char>>, i: int, other: Seq<char>) -> bool {
    exists|j: int| i <= j < kids.len() && over(parents, #[trigger] kids[j], other)
}

/// The layout of the children of a node, from position `i` on, and all below them.
proof fn lemma_seat_each(
    nodes: Seq<Node>,
    parents: Steps,
    id: Seq<char>,
    i: nat,
    levels: nat,
    roots: nat,
    laid: Laid,
    first: nat,
)
    requires
        forest(nodes, parents),
        is_node(nodes, id),
        i <= children_of(nodes, id).len(),
        way(parents, id).len() + levels == nodes.len(),
        forall|j: int, other: Seq<char>|
            i <= j < children_of(nodes, id).len() && is_node(nodes, other) && #[trigger] over(
                parents,
                children_of(nodes, id)[j],
                other,
            ) ==> !reached(laid, other),
    ensures
        ({
            let kids = children_of(nodes, id);
            let whole = way(parents, id);
            let now = seat_each(nodes, kids, i, whole.len(), levels, roots, whole, laid, first);
            &&& now is Ok
            &&& lays(
                nodes,
                parents,
                laid,
                (now->Ok_0).0,
                |other: Seq<char>| child_over(parents, kids, i as int, other),
            )
        }),
    decreases levels, children_of(nodes, id).len() - i + 1,
{
    let kids = children_of(nodes, id);
    let whole = way(parents, id);
    let these = |other: Seq<char>| child_over(parents, kids, i as int, other);
    if i < kids.len() {
        let child = kids[i as int];
        lemma_children(nodes, parents, id, child);
        assert(kids.contains(child));
        lemma_node(nodes, parents, child);
        lemma_way(parents, child);
        assert(way(parents, child) == whole.push(child));
        assert(whole.push(child).drop_last() =~= whole);
        assert forall|other: Seq<char>| is_node(nodes, other) && over(parents, child, other) implies
            !#[trigger] reached(laid, other) by {
            assert(over(parents, kids[i as int], other));
        }
        lemma_seat(nodes, parents, child, levels, roots, laid);
        let next = seat(nodes, child, whole.len(), levels, roots, whole, laid)->Ok_0;
        let position = if i == 0 {
            (next.spots.len() - 1) as nat
        } else {
            first
        };
        assert forall|j: int, other: Seq<char>|
            i + 1 <= j < kids.len() && is_node(nodes, other) && #[trigger] over(
                parents,
                kids[j],
                other,
            ) implies !reached(next, other) by {
            assert(reached(next, other) == (reached(laid, other) || (is_node(nodes, other) && over(
                parents,
                child,
                other,
            ))));
            if over(parents, child, other) {
                lemma_children(nodes, parents, id, kids[j]);
                assert(kids.contains(kids[j]));
                lemma_apart(nodes, parents, child, kids[j], other);
            }
        }
        lemma_seat_each(nodes, parents, id, i + 1, levels, roots, next, position);
        let now = (seat_each(
            nodes,
            kids,
            i + 1,
            whole.len(),
            levels,
            roots,
            whole,
            next,
            position,
        )->Ok_0).0;
        assert forall|other: Seq<char>| these(other) == (over(parents, child, other) || child_over(
            parents,
            kids,
            i as int + 1,
            other,
        )) by {
            if these(other) {
                let j = choose|j: int|
                    i <= j < kids.len() && over(parents, #[trigger] kids[j], other);
                if j > i {
                    assert(over(parents, kids[j], other));
                }
            }
            if child_over(parents, kids, i as int + 1, other) {
                let j = choose|j: int|
                    i + 1 <= j < kids.len() && over(parents, #[trigger] kids[j], other);
                assert(over(parents, kids[j], other));
            }
            if over(parents, child, other) {
                assert(over(parents, kids[i as int], other));
            }
        }
        assert forall|other: Seq<char>| #[trigger] reached(now, other) == (reached(laid, other) || (
        is_node(nodes, other) && these(other))) by {
            assert(reached(next, other) == (reached(laid, other) || (is_node(nodes, other) && over(
                parents,
                child,
                other,
            ))));
            assert(reached(now, other) == (reached(next, other) || (is_node(nodes, other)
                && child_over(parents, kids, i as int + 1, other))));
        }
        assert forall|other: Seq<char>| #[trigger] has_spot(nodes, parents, laid, other) implies
            has_spot(nodes, parents, now, other) by {
            assert(has_spot(nodes, parents, next, other));
        }
        assert forall|other: Seq<char>| is_node(nodes, other) && these(other) implies #[trigger] has_spot(
            nodes,
            parents,
            now,
            other,
        ) by {
            if over(parents, child, other) {
                assert(has_spot(nodes, parents, next, other));
            }
        }
    }
}

/// Whether the roots of a graph are its nodes without a parent, each once.
pub open spec fn rooted(dag: Dag, parents: Steps) -> bool {
    &&& dag.roots.no_duplicates()
    &&& forall|i: int| 0 <= i < dag.roots.len() ==> is_node(dag.nodes, #[trigger] dag.roots[i])
    &&& forall|i: int|
        0 <= i < dag.nodes.len() ==> dag.roots.contains((#[trigger] dag.nodes[i]).id) == (member(
            parents,
            dag.nodes[i].id,
        ) is None)
}

proof fn lemma_root(dag: Dag, parents: Steps, id: Seq<char>)
    requires
        rooted(dag, parents),
        is_node(dag.nodes, id),
    ensures
        dag.roots.contains(id) == (member(parents, id) is None),
{
    let k = choose|k: int| 0 <= k < dag.nodes.len() && ids_of(dag.nodes)[k] == id;
    assert(dag.nodes[k].id == id);
}

/// The layout of the roots from position `i` on and all below them.
proof fn lemma_seat_roots(dag: Dag, parents: Steps, i: nat, laid: Laid)
    requires
        forest(dag.nodes, parents),
        rooted(dag, parents),
        i <= dag.roots.len(),
        forall|j: int, other: Seq<char>|
            i <= j < dag.roots.len() && is_node(dag.nodes, other) && #[trigger] over(
                parents,
                dag.roots[j],
                other,
            ) ==> !reached(laid, other),
    ensures
        seat_roots(dag, i, laid) is Ok,
        lays(
            dag.nodes,
            parents,
            laid,
            seat_roots(dag, i, laid)->Ok_0,
            |other: Seq<char>| child_over(parents, dag.roots, i as int, other),
        ),
    decreases dag.roots.len() - i,
{
    let nodes = dag.nodes;
    let roots = dag.roots;
    let these = |other: Seq<char>| child_over(parents, roots, i as int, other);
    if i < roots.len() {
        let root = roots[i as int];
        assert(is_node(nodes, roots[i as int]));
        lemma_root(dag, parents, root);
        assert(roots.contains(root));
        lemma_node(nodes, parents, root);
        lemma_way(parents, root);
        assert(way(parents, root) == seq![root]);
        assert(seq![root].drop_last() =~= Seq::empty());
        assert forall|other: Seq<char>| is_node(nodes, other) && over(parents, root, other) implies
            !#[trigger] reached(laid, other) by {
            assert(over(parents, roots[i as int], other));
        }
        lemma_seat(nodes, parents, root, nodes.len(), i, laid);
        let next = seat(nodes, root, 0, nodes.len(), i, Seq::empty(), laid)->Ok_0;
        assert forall|j: int, other: Seq<char>|
            i + 1 <= j < roots.len() && is_node(nodes, other) && #[trigger] over(
                parents,
                roots[j],
                other,
            ) implies !reached(next, other) by {
            assert(reached(next, other) == (reached(laid, other) || (is_node(nodes, other) && over(
                parents,
                root,
                other,
            ))));
            if over(parents, root, other) {
                assert(is_node(nodes, roots[j]));
                lemma_root(dag, parents, roots[j]);
                assert(roots.contains(roots[j]));
                lemma_apart(nodes, parents, root, roots[j], other);
            }
        }
        lemma_seat_roots(dag, parents, i + 1, next);
        let now = seat_roots(dag, i + 1, next)->Ok_0;
        assert forall|other: Seq<char>| these(other) == (over(parents, root, other) || child_over(
            parents,
            roots,
            i as int + 1,
            other,
        )) by {
            if these(other) {
                let j = choose|j: int|
                    i <= j < roots.len() && over(parents, #[trigger] roots[j], other);
                if j > i {
                    assert(over(parents, roots[j], other));
                }
            }
            if child_over(parents, roots, i as int + 1, other) {
                let j = choose|j: int|
                    i + 1 <= j < roots.len() && over(parents, #[trigger] roots[j], other);
                assert(over(parents, roots[j], other));
            }
            if over(parents, root, other) {
                assert(over(parents, roots[i as int], other));
            }
        }
        assert forall|other: Seq<char>| #[trigger] reached(now, other) == (reached(laid, other) || (
        is_node(nodes, other) && these(other))) by {
            assert(reached(next, other) == (reached(laid, other) || (is_node(nodes, other) && over(
                parents,
                root,
                other,
            ))));
            assert(reached(now, other) == (reached(next, other) || (is_node(nodes, other)
                && child_over(parents, roots, i as int + 1, other))));
        }
        assert forall|other: Seq<char>| #[trigger] has_spot(nodes, parents, laid, other) implies
            has_spot(nodes, parents, now, other) by {
            assert(has_spot(nodes, parents, next, other));
        }
        assert forall|other: Seq<char>| is_node(nodes, other) && these(other) implies #[trigger] has_spot(
            nodes,
            parents,
            now,
            other,
        ) by {
            if over(parents, root, other) {
                assert(has_spot(nodes, parents, next, other));
            }
        }
    }
}

/// The way down to a node starts at a root.
proof fn lemma_top(dag: Dag, parents: Steps, id: Seq<char>)
    requires
        forest(dag.nodes, parents),
        rooted(dag, parents),
        is_node(dag.nodes, id),
    ensures
        child_over(parents, dag.roots, 0, id),
{
    let whole = way(parents, id);
    lemma_node(dag.nodes, parents, id);
    lemma_way(parents, id);
    lemma_way_starts(parents, id, parents.len(), 0);
    lemma_way_of_nodes(dag.nodes, parents, id, parents.len());
    let top = whole[0];
    assert(is_node(dag.nodes, whole[0]));
    lemma_node(dag.nodes, parents, top);
    lemma_way(parents, top);
    assert(whole.take(1).len() == 1);
    if let Some(parent) = member(parents, top) {
        lemma_way(parents, parent);
    }
    lemma_root(dag, parents, top);
    let j = choose|j: int| 0 <= j < dag.roots.len() && dag.roots[j] == top;
    assert(over(parents, dag.roots[j], id));
}

/// A forest has a layout, in which each node has one spot, as deep as its way down is long.
proof fn lemma_forest_is_laid_out(dag: Dag, parents: Steps)
    requires
        forest(dag.nodes, parents),
        rooted(dag, parents),
    ensures
        layout_of(dag) is Ok,
        layout_of(dag)->Ok_0.len() == dag.nodes.len(),
        forall|i: int|
            0 <= i < dag.nodes.len() ==> spotted(
                layout_of(dag)->Ok_0,
                (#[trigger] dag.nodes[i]).id,
                (way(parents, dag.nodes[i].id).len() - 1) as nat,
            ),
{
    if dag.nodes.len() > 0 {
        lemma_seat_roots(dag, parents, 0, bare());
        let last = seat_roots(dag, 0, bare())->Ok_0;
        let ids = ids_of(dag.nodes);
        assert forall|id: Seq<char>| last.visited.contains(id) == ids.contains(id) by {
            assert(reached(last, id) == (reached(bare(), id) || (is_node(dag.nodes, id)
                && child_over(parents, dag.roots, 0, id))));
            if is_node(dag.nodes, id) {
                lemma_top(dag, parents, id);
            }
        }
        assert(bare().visited.no_duplicates());
        last.visited.unique_seq_to_set();
        ids.unique_seq_to_set();
        assert(last.visited.to_set() =~= ids.to_set());
        assert forall|i: int| 0 <= i < dag.nodes.len() implies spotted(
            last.spots,
            (#[trigger] dag.nodes[i]).id,
            (way(parents, dag.nodes[i].id).len() - 1) as nat,
        ) by {
            let id = dag.nodes[i].id;
            assert(ids[i] == id);
            lemma_top(dag, parents, id);
            assert(has_spot(dag.nodes, parents, last, id));
            let k = choose|k: int|
                0 <= k < last.spots.len() && (#[trigger] last.spots[k]).id == id
                    && last.spots[k].depth == way(parents, id).len() - 1;
            assert(last.spots[k].id == id);
        }
    }
}

/// Whether a node has a spot at a depth.
pub open spec fn spotted(spots: Seq<Seated>, id: Seq<char>, depth: nat) -> bool {
    exists|k: int| 0 <= k < spots.len() && (#[trigger] spots[k]).id == id && spots[k].depth == depth
}

/// The parents of the nodes of an artifact.
pub open spec fn parents_in(artifact: Tree) -> Seq<(Seq<char>, Seq<char>)> {
    let forest = artifact.at("forest"@);
    let ids = required_each(
        forest.list_at("nodes"@)->0,
        "id"@,
        "node"@,
        0,
        Seq::empty(),
    )->Ok_0;
    parents_from(forest.list_at("edges"@)->0, ids, 0, Seq::empty())->Ok_0
}

/// The graph of an artifact has a layout: each node has one spot, as deep as the way down to it
/// from its root is long.
pub proof fn drawn_graphs_are_laid_out(artifact: Tree, dag: Dag)
    requires
        drawn(artifact) == Ok::<Dag, Seq<char>>(Dag { nodes: unnumbered(dag.nodes), ..dag }),
    ensures
        layout_of(dag) is Ok,
        layout_of(dag)->Ok_0.len() == dag.nodes.len(),
        forall|i: int|
            0 <= i < dag.nodes.len() ==> spotted(
                layout_of(dag)->Ok_0,
                (#[trigger] dag.nodes[i]).id,
                (way(parents_in(artifact), dag.nodes[i].id).len() - 1) as nat,
            ),
{
    let forest_tree = artifact.at("forest"@);
    let raw_nodes = forest_tree.list_at("nodes"@)->0;
    let raw_edges = forest_tree.list_at("edges"@)->0;
    let ids = required_each(raw_nodes, "id"@, "node"@, 0, Seq::empty())->Ok_0;
    let parents = parents_in(artifact);
    let plain = unnumbered(dag.nodes);
    lemma_forest(raw_nodes, raw_edges, dag.roots, ids, parents, plain);
    assert(roots_fault(dag.roots, plain, parents) is None);
    assert(ids_of(dag.nodes) =~= ids_of(plain));
    assert forall|i: int| 0 <= i < dag.nodes.len() implies (#[trigger] dag.nodes[i]).parent
        == member(parents, dag.nodes[i].id) && climb(parents, dag.nodes[i].id, parents.len())
        is Some && (dag.nodes[i].parent is Some ==> ids_of(dag.nodes).contains(
        dag.nodes[i].parent->0,
    )) && dag.roots.contains(dag.nodes[i].id) == (member(parents, dag.nodes[i].id) is None) by {
        assert(plain[i].id == dag.nodes[i].id && plain[i].parent == dag.nodes[i].parent);
        lemma_root_or_child(dag.roots, plain, parents, 0, i);
    }
    assert forall|i: int| 0 <= i < dag.roots.len() implies is_node(
        dag.nodes,
        #[trigger] dag.roots[i],
    ) by {
        lemma_roots_are_named(dag.roots, ids_of(plain), 0, i);
    }
    lemma_forest_is_laid_out(dag, parents);
}

} // verus!
