//! What graphs can be drawn: those that hang together, and with them the projections.

use super::graph::{
    arc_of, arcs_from, backbone_edge, backbone_fault, class_allows, climb, crossing_fault, drawn,
    drawn_of_parts, ids_of, known_kind, node_of, node_roots_from, nodes_from, on_backbone,
    optional_field, parents_from, required_each, root_membership_fault, roots_fault, status_of,
    text_list, unnamed_root, way_fault, ways_fault, Arc, Node,
};
use crate::json::Tree;
use crate::projection::revision::{names_of, values_of};
use crate::schema::{RESEARCH_DAG_SCHEMA, SCHEMA_NAME};
use crate::table::{
    ascending, lemma_first_row, lemma_found_is_row, lemma_no_row, lemma_put_len,
    lemma_row_is_found, member, put, put_stays_ascending, put_then_member,
};
use vstd::prelude::*;

verus! {

type Records = Seq<(Seq<char>, Tree)>;

type Steps = Seq<(Seq<char>, Seq<char>)>;

/// A text that is there and not empty.
pub open spec fn said(tree: Tree, name: Seq<char>) -> bool {
    tree.text_at(name) is Some && tree.text_at(name)->0.len() > 0
}

/// The text of a member that says something.
pub open spec fn told(tree: Tree, name: Seq<char>) -> Seq<char> {
    tree.text_at(name)->0
}

/// Whether a node can be drawn in a graph of some roots.
pub open spec fn node_fits(id: Seq<char>, node: Tree, roots: Seq<Seq<char>>) -> bool {
    &&& said(node, "id"@) && told(node, "id"@) == id
    &&& said(node, "status"@) && status_of(told(node, "status"@)) is Ok
    &&& said(node, "kind"@) && known_kind(told(node, "kind"@))
    &&& roots.contains(id) == (told(node, "kind"@) == "root"@)
    &&& said(node, "title"@)
    &&& said(node, "summary"@)
    &&& said(node, "root_id"@) && roots.contains(told(node, "root_id"@))
    &&& roots.contains(id) ==> told(node, "root_id"@) == id
}

/// Whether an edge can be drawn in a graph of some nodes.
pub open spec fn edge_fits(id: Seq<char>, edge: Tree, ids: Seq<Seq<char>>) -> bool {
    &&& said(edge, "id"@) && told(edge, "id"@) == id
    &&& said(edge, "from"@) && ids.contains(told(edge, "from"@))
    &&& said(edge, "to"@) && ids.contains(told(edge, "to"@))
    &&& said(edge, "class"@) && said(edge, "kind"@)
    &&& class_allows(told(edge, "class"@), told(edge, "kind"@))
    &&& edge.flag_at("canonical_backbone"@) is Some
    &&& on_backbone(edge) ==> told(edge, "class"@) != "annotation"@
}

/// The backbone of the first `n` edges: each child with its parent.
pub open spec fn backbone_of(edges: Records, n: nat) -> Steps
    decreases n,
{
    if n == 0 {
        Seq::empty()
    } else if on_backbone(edges[n - 1].1) {
        backbone_of(edges, (n - 1) as nat).push(
            (told(edges[n - 1].1, "to"@), told(edges[n - 1].1, "from"@)),
        )
    } else {
        backbone_of(edges, (n - 1) as nat)
    }
}

/// The root that a node names.
pub open spec fn root_named(nodes: Records, id: Seq<char>) -> Option<Seq<char>> {
    match member(nodes, id) {
        None => None,
        Some(node) => Some(told(node, "root_id"@)),
    }
}

/// Whether a graph hangs together as a forest: each part fits, each node but the roots is the
/// child of one backbone edge, none of these crosses roots, and each way up ends.
pub open spec fn hangs_together(roots: Seq<Seq<char>>, nodes: Records, edges: Records) -> bool {
    let ids = names_of(nodes);
    let steps = backbone_of(edges, edges.len());
    &&& ids.no_duplicates()
    &&& names_of(edges).no_duplicates()
    &&& roots.no_duplicates()
    &&& forall|i: int| 0 <= i < roots.len() ==> ids.contains(#[trigger] roots[i])
    &&& forall|i: int|
        0 <= i < nodes.len() ==> node_fits((#[trigger] nodes[i]).0, nodes[i].1, roots)
    &&& forall|i: int|
        0 <= i < edges.len() ==> edge_fits((#[trigger] edges[i]).0, edges[i].1, ids)
    &&& names_of(steps).no_duplicates()
    &&& forall|i: int|
        0 <= i < nodes.len() ==> roots.contains((#[trigger] nodes[i]).0) == (member(
            steps,
            nodes[i].0,
        ) is None)
    &&& forall|i: int|
        0 <= i < steps.len() ==> root_named(nodes, (#[trigger] steps[i]).0) == root_named(
            nodes,
            steps[i].1,
        )
    &&& forall|i: int|
        0 <= i < nodes.len() ==> climb(steps, (#[trigger] nodes[i]).0, steps.len()) is Some
}

proof fn lemma_ids_are_read(rows: Records, owner: Seq<char>, i: nat)
    requires
        i <= rows.len(),
        forall|k: int|
            0 <= k < rows.len() ==> said((#[trigger] rows[k]).1, "id"@) && told(rows[k].1, "id"@)
                == rows[k].0,
    ensures
        required_each(values_of(rows), "id"@, owner, i, names_of(rows).take(i as int)) == Ok::<
            Seq<Seq<char>>,
            Seq<char>,
        >(names_of(rows)),
    decreases rows.len() - i,
{
    let names = names_of(rows);
    if i < rows.len() {
        assert(said(rows[i as int].1, "id"@));
        assert(values_of(rows)[i as int] == rows[i as int].1);
        assert(names.take(i as int).push(rows[i as int].0) =~= names.take(i as int + 1));
        lemma_ids_are_read(rows, owner, i + 1);
    } else {
        assert(names.take(i as int) =~= names);
    }
}

/// The backbone of the first edges stands at the start of the backbone of more of them.
proof fn lemma_backbone_grows(edges: Records, n: nat, m: nat)
    requires
        n <= m,
    ensures
        backbone_of(edges, n).len() <= backbone_of(edges, m).len(),
        forall|k: int|
            0 <= k < backbone_of(edges, n).len() ==> #[trigger] backbone_of(edges, n)[k]
                == backbone_of(edges, m)[k],
    decreases m - n,
{
    if n < m {
        lemma_backbone_grows(edges, n, (m - 1) as nat);
    }
}

/// A step of the backbone comes from an edge.
pub(crate) proof fn lemma_step_of_edge(edges: Records, n: nat, k: int)
    requires
        n <= edges.len(),
        0 <= k < backbone_of(edges, n).len(),
    ensures
        exists|j: int|
            0 <= j < n && on_backbone((#[trigger] edges[j]).1) && backbone_of(edges, n)[k] == (
                told(edges[j].1, "to"@),
                told(edges[j].1, "from"@),
            ),
    decreases n,
{
    if n > 0 {
        let was = backbone_of(edges, (n - 1) as nat);
        if k < was.len() {
            lemma_step_of_edge(edges, (n - 1) as nat, k);
            let j = choose|j: int|
                0 <= j < n - 1 && on_backbone((#[trigger] edges[j]).1) && was[k] == (
                    told(edges[j].1, "to"@),
                    told(edges[j].1, "from"@),
                );
            assert(on_backbone(edges[j].1));
        } else {
            assert(on_backbone(edges[n - 1].1));
        }
    }
}

/// An edge of the backbone gives a step.
pub(crate) proof fn lemma_edge_gives_step(edges: Records, n: nat, j: int)
    requires
        n <= edges.len(),
        0 <= j < n,
        on_backbone(edges[j].1),
    ensures
        backbone_of(edges, n).contains((told(edges[j].1, "to"@), told(edges[j].1, "from"@))),
    decreases n,
{
    let step = (told(edges[j].1, "to"@), told(edges[j].1, "from"@));
    let was = backbone_of(edges, (n - 1) as nat);
    let now = backbone_of(edges, n);
    if j == n - 1 {
        assert(now[was.len() as int] == step);
    } else {
        lemma_edge_gives_step(edges, (n - 1) as nat, j);
        let k = choose|k: int| 0 <= k < was.len() && was[k] == step;
        assert(now[k] == step);
    }
}

/// Where no two edges of the backbone lead to one child, no child stands twice.
pub(crate) proof fn lemma_children_differ(edges: Records, n: nat)
    requires
        n <= edges.len(),
        forall|i: int, j: int|
            #![trigger edges[i], edges[j]]
            0 <= i < j < edges.len() && on_backbone(edges[i].1) && on_backbone(edges[j].1) ==> told(
                edges[i].1,
                "to"@,
            ) != told(edges[j].1, "to"@),
    ensures
        names_of(backbone_of(edges, n)).no_duplicates(),
    decreases n,
{
    if n > 0 {
        lemma_children_differ(edges, (n - 1) as nat);
        let was = backbone_of(edges, (n - 1) as nat);
        let now = backbone_of(edges, n);
        if on_backbone(edges[n - 1].1) {
            let names = names_of(now);
            assert forall|k: int| 0 <= k < was.len() implies (#[trigger] now[k]).0 != told(
                edges[n - 1].1,
                "to"@,
            ) by {
                lemma_step_of_edge(edges, (n - 1) as nat, k);
                let j = choose|j: int|
                    0 <= j < n - 1 && on_backbone((#[trigger] edges[j]).1) && was[k] == (
                        told(edges[j].1, "to"@),
                        told(edges[j].1, "from"@),
                    );
                assert(on_backbone(edges[j].1));
            }
            assert forall|i: int, j: int|
                0 <= i < names.len() && 0 <= j < names.len() && i != j implies names[i]
                != names[j] by {
                if i < was.len() && j < was.len() {
                    assert(names_of(was)[i] == names[i] && names_of(was)[j] == names[j]);
                } else if i < was.len() {
                    assert(now[i].0 != told(edges[n - 1].1, "to"@));
                } else {
                    assert(now[j].0 != told(edges[n - 1].1, "to"@));
                }
            }
        }
    }
}

pub(crate) proof fn lemma_step_is_found(steps: Steps, k: int)
    requires
        names_of(steps).no_duplicates(),
        0 <= k < steps.len(),
    ensures
        member(steps, steps[k].0) == Some(steps[k].1),
{
    let names = names_of(steps);
    assert forall|j: int| 0 <= j < k implies (#[trigger] steps[j]).0 != steps[k].0 by {
        assert(names[j] == steps[j].0 && names[k] == steps[k].0);
    }
    lemma_first_row(steps, steps[k].0, k);
}

/// Whether a table of parents tells what steps tell.
pub open spec fn tells(parents: Steps, steps: Steps) -> bool {
    &&& ascending(parents)
    &&& parents.len() == steps.len()
    &&& forall|id: Seq<char>| #[trigger] member(parents, id) == member(steps, id)
}

pub(crate) proof fn lemma_parents_are_read(
    edges: Records,
    ids: Seq<Seq<char>>,
    i: nat,
    parents: Steps,
)
    requires
        i <= edges.len(),
        forall|k: int| 0 <= k < edges.len() ==> edge_fits((#[trigger] edges[k]).0, edges[k].1, ids),
        names_of(backbone_of(edges, edges.len())).no_duplicates(),
        tells(parents, backbone_of(edges, i)),
    ensures
        parents_from(values_of(edges), ids, i, parents) is Ok,
        tells(
            parents_from(values_of(edges), ids, i, parents)->Ok_0,
            backbone_of(edges, edges.len()),
        ),
    decreases edges.len() - i,
{
    if i < edges.len() {
        let edge = edges[i as int].1;
        assert(edge_fits(edges[i as int].0, edge, ids));
        assert(values_of(edges)[i as int] == edge);
        if on_backbone(edge) {
            let to = told(edge, "to"@);
            let from = told(edge, "from"@);
            let was = backbone_of(edges, i);
            let now = backbone_of(edges, i + 1);
            assert(now == was.push((to, from)));
            assert(backbone_edge(edge, ids) == Ok::<(Seq<char>, Seq<char>), Seq<char>>((to, from)));
            lemma_backbone_grows(edges, i + 1, edges.len());
            let all = backbone_of(edges, edges.len());
            let names = names_of(all);
            assert forall|j: int| 0 <= j < was.len() implies (#[trigger] was[j]).0 != to by {
                assert(now[j] == all[j] && now[was.len() as int] == all[was.len() as int]);
                assert(names[j] == all[j].0 && names[was.len() as int] == to);
            }
            lemma_no_row(was, to);
            assert(member(parents, to) is None);
            let next = put(parents, to, from);
            put_stays_ascending(parents, to, from);
            lemma_put_len(parents, to, from);
            assert forall|id: Seq<char>| #[trigger] member(next, id) == member(now, id) by {
                put_then_member(parents, to, from, id);
                crate::table::lemma_member_add(was, seq![(to, from)], id);
                crate::table::lemma_one_row((to, from), id);
                assert(was + seq![(to, from)] =~= now);
            }
            lemma_parents_are_read(edges, ids, i + 1, next);
        } else {
            lemma_parents_are_read(edges, ids, i + 1, parents);
        }
    }
}

proof fn lemma_nodes_are_made(
    nodes: Records,
    roots: Seq<Seq<char>>,
    parents: Steps,
    i: nat,
    made: Seq<Node>,
)
    requires
        i <= nodes.len(),
        made.len() == i,
        forall|k: int|
            0 <= k < nodes.len() ==> node_fits((#[trigger] nodes[k]).0, nodes[k].1, roots),
        forall|k: int|
            0 <= k < i ==> (#[trigger] made[k]).id == nodes[k].0 && made[k].kind == told(
                nodes[k].1,
                "kind"@,
            ),
    ensures
        ({
            let all = nodes_from(values_of(nodes), parents, i, made);
            &&& all is Ok
            &&& all->Ok_0.len() == nodes.len()
            &&& forall|k: int|
                0 <= k < nodes.len() ==> (#[trigger] all->Ok_0[k]).id == nodes[k].0
                    && all->Ok_0[k].kind == told(nodes[k].1, "kind"@)
        }),
    decreases nodes.len() - i,
{
    if i < nodes.len() {
        let node = nodes[i as int].1;
        assert(node_fits(nodes[i as int].0, node, roots));
        assert(values_of(nodes)[i as int] == node);
        assert(node_of(node, parents) is Ok);
        let next = made.push(node_of(node, parents)->Ok_0);
        assert forall|k: int| 0 <= k < i + 1 implies (#[trigger] next[k]).id == nodes[k].0
            && next[k].kind == told(nodes[k].1, "kind"@) by {
            if k < i {
                assert(next[k] == made[k]);
            }
        }
        lemma_nodes_are_made(nodes, roots, parents, i + 1, next);
    }
}

proof fn lemma_roots_are_named(roots: Seq<Seq<char>>, ids: Seq<Seq<char>>, i: nat)
    requires
        forall|k: int| 0 <= k < roots.len() ==> ids.contains(#[trigger] roots[k]),
    ensures
        unnamed_root(roots, ids, i) is None,
    decreases roots.len() - i,
{
    if i < roots.len() {
        assert(ids.contains(roots[i as int]));
        lemma_roots_are_named(roots, ids, i + 1);
    }
}

proof fn lemma_roots_are_right(
    roots: Seq<Seq<char>>,
    made: Seq<Node>,
    parents: Steps,
    i: nat,
)
    requires
        forall|k: int|
            0 <= k < made.len() ==> roots.contains((#[trigger] made[k]).id) == (made[k].kind
                == "root"@) && roots.contains(made[k].id) == (member(parents, made[k].id) is None),
    ensures
        root_membership_fault(roots, made, parents, i) is None,
    decreases made.len() - i,
{
    if i < made.len() {
        assert(roots.contains(made[i as int].id) == (made[i as int].kind == "root"@));
        lemma_roots_are_right(roots, made, parents, i + 1);
    }
}

/// Whether a table names the roots of the first `n` nodes.
spec fn names_roots(named: Steps, nodes: Records, n: nat) -> bool {
    &&& ascending(named)
    &&& forall|id: Seq<char>|
        #[trigger] member(named, id) is Some ==> member(named, id) == root_named(nodes, id)
    &&& forall|k: int| 0 <= k < n ==> member(named, (#[trigger] nodes[k]).0) is Some
}

pub(crate) proof fn lemma_node_is_found(nodes: Records, k: int)
    requires
        names_of(nodes).no_duplicates(),
        0 <= k < nodes.len(),
    ensures
        member(nodes, nodes[k].0) == Some(nodes[k].1),
{
    let names = names_of(nodes);
    assert forall|j: int| 0 <= j < k implies (#[trigger] nodes[j]).0 != nodes[k].0 by {
        assert(names[j] == nodes[j].0 && names[k] == nodes[k].0);
    }
    lemma_first_row(nodes, nodes[k].0, k);
}

proof fn lemma_roots_are_read(
    nodes: Records,
    roots: Seq<Seq<char>>,
    i: nat,
    named: Steps,
)
    requires
        i <= nodes.len(),
        names_of(nodes).no_duplicates(),
        forall|k: int|
            0 <= k < nodes.len() ==> node_fits((#[trigger] nodes[k]).0, nodes[k].1, roots),
        names_roots(named, nodes, i),
    ensures
        node_roots_from(values_of(nodes), roots, i, named) is Ok,
        names_roots(
            node_roots_from(values_of(nodes), roots, i, named)->Ok_0,
            nodes,
            nodes.len(),
        ),
    decreases nodes.len() - i,
{
    if i < nodes.len() {
        let id = nodes[i as int].0;
        let node = nodes[i as int].1;
        assert(node_fits(id, node, roots));
        assert(values_of(nodes)[i as int] == node);
        let root = told(node, "root_id"@);
        let next = put(named, id, root);
        put_stays_ascending(named, id, root);
        lemma_node_is_found(nodes, i as int);
        assert forall|other: Seq<char>| #[trigger] member(next, other) is Some implies member(
            next,
            other,
        ) == root_named(nodes, other) by {
            put_then_member(named, id, root, other);
        }
        assert forall|k: int| 0 <= k < i + 1 implies member(next, (#[trigger] nodes[k]).0) is Some by {
            put_then_member(named, id, root, nodes[k].0);
        }
        lemma_roots_are_read(nodes, roots, i + 1, next);
    }
}

proof fn lemma_nothing_crosses(parents: Steps, named: Steps, i: nat)
    requires
        forall|k: int|
            0 <= k < parents.len() ==> member(named, (#[trigger] parents[k]).0) == member(
                named,
                parents[k].1,
            ),
    ensures
        crossing_fault(parents, named, i) is None,
    decreases parents.len() - i,
{
    if i < parents.len() {
        assert(member(named, parents[i as int].0) == member(named, parents[i as int].1));
        lemma_nothing_crosses(parents, named, i + 1);
    }
}

pub(crate) proof fn lemma_climbs_agree(parents: Steps, steps: Steps, id: Seq<char>, n: nat)
    requires
        tells(parents, steps),
    ensures
        climb(parents, id, n) == climb(steps, id, n),
    decreases n,
{
    assert(member(parents, id) == member(steps, id));
    if let Some(parent) = member(steps, id) {
        if n > 0 {
            lemma_climbs_agree(parents, steps, parent, (n - 1) as nat);
        }
    }
}

/// The way up from a node ends at a node without a parent that names the same root.
pub(crate) proof fn lemma_climb_ends(nodes: Records, steps: Steps, id: Seq<char>, n: nat)
    requires
        climb(steps, id, n) is Some,
        root_named(nodes, id) is Some,
        forall|i: int|
            0 <= i < steps.len() ==> root_named(nodes, (#[trigger] steps[i]).0) == root_named(
                nodes,
                steps[i].1,
            ),
    ensures
        member(steps, climb(steps, id, n)->0) is None,
        root_named(nodes, climb(steps, id, n)->0) == root_named(nodes, id),
    decreases n,
{
    if let Some(parent) = member(steps, id) {
        lemma_found_is_row(steps, id);
        let k = choose|k: int|
            0 <= k < steps.len() && #[trigger] steps[k] == (id, member(steps, id)->0);
        assert(root_named(nodes, steps[k].0) == root_named(nodes, steps[k].1));
        lemma_climb_ends(nodes, steps, parent, (n - 1) as nat);
    }
}

proof fn lemma_ways_end(parents: Steps, roots: Seq<Seq<char>>, named: Steps, i: nat)
    requires
        forall|k: int|
            0 <= k < named.len() ==> way_fault(
                parents,
                roots,
                (#[trigger] named[k]).0,
                named[k].1,
            ) is None,
    ensures
        ways_fault(parents, roots, named, i) is None,
    decreases named.len() - i,
{
    if i < named.len() {
        assert(way_fault(parents, roots, named[i as int].0, named[i as int].1) is None);
        lemma_ways_end(parents, roots, named, i + 1);
    }
}

proof fn lemma_arcs_are_made(edges: Records, ids: Seq<Seq<char>>, i: nat, made: Seq<Arc>)
    requires
        forall|k: int| 0 <= k < edges.len() ==> edge_fits((#[trigger] edges[k]).0, edges[k].1, ids),
    ensures
        arcs_from(values_of(edges), ids, i, made) is Ok,
    decreases edges.len() - i,
{
    if i < edges.len() {
        let edge = edges[i as int].1;
        assert(edge_fits(edges[i as int].0, edge, ids));
        assert(values_of(edges)[i as int] == edge);
        if on_backbone(edge) {
            lemma_arcs_are_made(edges, ids, i + 1, made);
        } else {
            assert(edge.flag_at("canonical_backbone"@) == Some(false));
            assert(arc_of(edge, ids) is Ok);
            lemma_arcs_are_made(edges, ids, i + 1, made.push(arc_of(edge, ids)->Ok_0));
        }
    }
}

/// The backbone of a graph that hangs together passes its checks.
proof fn lemma_backbone_holds(
    roots: Seq<Seq<char>>,
    nodes: Records,
    edges: Records,
    parents: Steps,
)
    requires
        hangs_together(roots, nodes, edges),
        tells(parents, backbone_of(edges, edges.len())),
    ensures
        backbone_fault(values_of(nodes), roots, parents) is None,
{
    let steps = backbone_of(edges, edges.len());
    let none = Seq::<(Seq<char>, Seq<char>)>::empty();
    assert forall|id: Seq<char>| member(none, id) is None by {
        lemma_no_row(none, id);
    }
    lemma_roots_are_read(nodes, roots, 0, none);
    let named = node_roots_from(values_of(nodes), roots, 0, none)->Ok_0;
    assert forall|k: int| 0 <= k < nodes.len() implies member(named, (#[trigger] nodes[k]).0)
        == root_named(nodes, nodes[k].0) by {
        assert(member(named, nodes[k].0) is Some);
    }
    assert forall|id: Seq<char>| root_named(nodes, id) is Some implies #[trigger] member(named, id)
        == root_named(nodes, id) by {
        lemma_found_is_row(nodes, id);
        let k = choose|k: int|
            0 <= k < nodes.len() && #[trigger] nodes[k] == (id, member(nodes, id)->0);
        assert(member(named, nodes[k].0) is Some);
    }
    assert forall|id: Seq<char>| root_named(nodes, id) is None implies #[trigger] member(named, id)
        is None by {}
    assert forall|k: int| 0 <= k < parents.len() implies member(named, (#[trigger] parents[k]).0)
        == member(named, parents[k].1) by {
        lemma_row_is_found(parents, k);
        assert(member(steps, parents[k].0) == Some(parents[k].1));
        lemma_found_is_row(steps, parents[k].0);
        let j = choose|j: int|
            0 <= j < steps.len() && #[trigger] steps[j] == (
                parents[k].0,
                member(steps, parents[k].0)->0,
            );
        assert(root_named(nodes, steps[j].0) == root_named(nodes, steps[j].1));
        let (a, b) = (parents[k].0, parents[k].1);
        assert(root_named(nodes, a) == root_named(nodes, b));
        if root_named(nodes, a) is Some {
            assert(member(named, a) == root_named(nodes, a));
            assert(member(named, b) == root_named(nodes, b));
        } else {
            assert(member(named, a) is None);
            assert(member(named, b) is None);
        }
    }
    lemma_nothing_crosses(parents, named, 0);
    assert forall|k: int| 0 <= k < named.len() implies way_fault(
        parents,
        roots,
        (#[trigger] named[k]).0,
        named[k].1,
    ) is None by {
        let id = named[k].0;
        lemma_row_is_found(named, k);
        assert(member(named, id) == root_named(nodes, id));
        lemma_found_is_row(nodes, id);
        let at = choose|at: int|
            0 <= at < nodes.len() && #[trigger] nodes[at] == (id, member(nodes, id)->0);
        assert(climb(steps, nodes[at].0, steps.len()) is Some);
        lemma_climbs_agree(parents, steps, id, steps.len());
        lemma_climb_ends(nodes, steps, id, steps.len());
        let end = climb(steps, id, steps.len())->0;
        lemma_found_is_row(nodes, end);
        let last = choose|last: int|
            0 <= last < nodes.len() && #[trigger] nodes[last] == (end, member(nodes, end)->0);
        assert(roots.contains(nodes[last].0) == (member(steps, nodes[last].0) is None));
        assert(node_fits(nodes[last].0, nodes[last].1, roots));
    }
    lemma_ways_end(parents, roots, named, 0);
}

/// How many steps the way up from a node takes, if it ends within a number of steps.
spec fn rise(steps: Steps, id: Seq<char>, n: nat) -> nat
    decreases n,
{
    match member(steps, id) {
        None => 0,
        Some(parent) => if n == 0 {
            0
        } else {
            1 + rise(steps, parent, (n - 1) as nat)
        },
    }
}

proof fn lemma_rise_settles(steps: Steps, id: Seq<char>, n: nat, more: nat)
    requires
        climb(steps, id, n) is Some,
        n <= more,
    ensures
        climb(steps, id, more) == climb(steps, id, n),
        rise(steps, id, more) == rise(steps, id, n),
        rise(steps, id, n) <= n,
        climb(steps, id, rise(steps, id, n)) is Some,
    decreases n,
{
    if let Some(parent) = member(steps, id) {
        lemma_rise_settles(steps, parent, (n - 1) as nat, (more - 1) as nat);
    }
}

/// Whether the way up from a child ends, and takes at least so many steps.
spec fn deep(steps: Steps, n: nat, depth: nat, id: Seq<char>) -> bool {
    climb(steps, id, n) is Some && rise(steps, id, n) >= depth
}

/// How many of the first `k` children stand so deep.
spec fn deep_count(steps: Steps, n: nat, depth: nat, k: nat) -> nat
    decreases k,
{
    if k == 0 {
        0
    } else {
        deep_count(steps, n, depth, (k - 1) as nat) + (if deep(steps, n, depth, steps[k - 1].0) {
            1nat
        } else {
            0
        })
    }
}

proof fn lemma_deep_count(steps: Steps, n: nat, depth: nat, k: nat, j: int)
    requires
        k <= steps.len(),
    ensures
        deep_count(steps, n, depth, k) <= k,
        deep_count(steps, n, depth + 1, k) <= deep_count(steps, n, depth, k),
        0 <= j < k && deep(steps, n, depth, steps[j].0) ==> deep_count(steps, n, depth, k) >= 1,
        0 <= j < k && climb(steps, steps[j].0, n) is Some && rise(steps, steps[j].0, n) == depth
            ==> deep_count(steps, n, depth + 1, k) < deep_count(steps, n, depth, k),
    decreases k,
{
    if k > 0 {
        lemma_deep_count(steps, n, depth, (k - 1) as nat, j);
    }
}

/// Whether a child stands just so deep.
spec fn level(steps: Steps, n: nat, depth: nat, j: int) -> bool {
    0 <= j < steps.len() && climb(steps, steps[j].0, n) is Some && rise(steps, steps[j].0, n)
        == depth
}

/// Above a node there is a child on each level, so there are as many children as levels.
proof fn lemma_levels(steps: Steps, n: nat, id: Seq<char>, depth: nat)
    requires
        climb(steps, id, n) is Some,
        1 <= depth <= rise(steps, id, n),
    ensures
        deep_count(steps, n, depth, steps.len()) >= rise(steps, id, n) - depth + 1,
        exists|j: int| level(steps, n, depth, j),
    decreases rise(steps, id, n) - depth,
{
    let top = rise(steps, id, n);
    let here = if depth == top {
        id
    } else {
        lemma_levels(steps, n, id, depth + 1);
        let below = depth + 1;
        let j = choose|j: int| level(steps, n, below, j);
        let child = steps[j].0;
        let parent = member(steps, child)->0;
        lemma_rise_settles(steps, parent, (n - 1) as nat, n);
        parent
    };
    assert(climb(steps, here, n) is Some && rise(steps, here, n) == depth);
    lemma_found_is_row(steps, here);
    let j = choose|j: int|
        0 <= j < steps.len() && #[trigger] steps[j] == (here, member(steps, here)->0);
    assert(level(steps, n, depth, j));
    lemma_deep_count(steps, n, depth, steps.len(), j);
}

/// A way up that ends takes no more steps than there are children.
pub proof fn ways_are_short(steps: Seq<(Seq<char>, Seq<char>)>, id: Seq<char>, n: nat)
    requires
        climb(steps, id, n) is Some,
    ensures
        climb(steps, id, steps.len()) == climb(steps, id, n),
{
    let top = rise(steps, id, n);
    lemma_rise_settles(steps, id, n, n);
    if top > 0 {
        lemma_levels(steps, n, id, 1);
        lemma_deep_count(steps, n, 1, steps.len(), 0);
    }
    lemma_rise_settles(steps, id, top, steps.len());
    lemma_rise_settles(steps, id, top, n);
}

/// A graph that hangs together can be drawn.
pub proof fn what_hangs_together_can_be_drawn(
    artifact: Tree,
    roots: Seq<Seq<char>>,
    nodes: Seq<(Seq<char>, Tree)>,
    edges: Seq<(Seq<char>, Tree)>,
)
    requires
        artifact.text_at("schema"@) == Some(SCHEMA_NAME@) || artifact.text_at("schema"@) == Some(
            RESEARCH_DAG_SCHEMA@,
        ),
        artifact.at("session"@).text_at("id"@) is Some,
        artifact.at("forest"@).list_at("nodes"@) == Some(values_of(nodes)),
        artifact.at("forest"@).list_at("edges"@) == Some(values_of(edges)),
        text_list(artifact.at("forest"@).get("roots"@), "forest.roots"@) == Ok::<
            Seq<Seq<char>>,
            Seq<char>,
        >(roots),
        optional_field(artifact.at("forest"@).get("active_root"@), "forest.active_root"@) matches Ok(
            active,
        ) && (active is Some ==> roots.contains(active->0)),
        hangs_together(roots, nodes, edges),
    ensures
        drawn(artifact) is Ok,
{
    let ids = names_of(nodes);
    let steps = backbone_of(edges, edges.len());
    let none = Seq::<(Seq<char>, Seq<char>)>::empty();
    assert forall|k: int| 0 <= k < nodes.len() implies said((#[trigger] nodes[k]).1, "id"@)
        && told(nodes[k].1, "id"@) == nodes[k].0 by {
        assert(node_fits(nodes[k].0, nodes[k].1, roots));
    }
    assert forall|k: int| 0 <= k < edges.len() implies said((#[trigger] edges[k]).1, "id"@)
        && told(edges[k].1, "id"@) == edges[k].0 by {
        assert(edge_fits(edges[k].0, edges[k].1, ids));
    }
    lemma_ids_are_read(nodes, "node"@, 0);
    lemma_ids_are_read(edges, "edge"@, 0);
    assert(ids.take(0) =~= Seq::empty());
    assert(names_of(edges).take(0) =~= Seq::empty());
    lemma_parents_are_read(edges, ids, 0, none);
    let parents = parents_from(values_of(edges), ids, 0, none)->Ok_0;
    lemma_nodes_are_made(nodes, roots, parents, 0, Seq::empty());
    let made = nodes_from(values_of(nodes), parents, 0, Seq::empty())->Ok_0;
    assert(ids_of(made) =~= ids);
    lemma_roots_are_named(roots, ids, 0);
    assert forall|k: int| 0 <= k < made.len() implies roots.contains((#[trigger] made[k]).id) == (
    made[k].kind == "root"@) && roots.contains(made[k].id) == (member(parents, made[k].id)
        is None) by {
        assert(node_fits(nodes[k].0, nodes[k].1, roots));
        assert(roots.contains(nodes[k].0) == (member(steps, nodes[k].0) is None));
        assert(member(parents, nodes[k].0) == member(steps, nodes[k].0));
    }
    lemma_roots_are_right(roots, made, parents, 0);
    assert(roots_fault(roots, made, parents) is None);
    lemma_backbone_holds(roots, nodes, edges, parents);
    lemma_arcs_are_made(edges, ids, 0, Seq::empty());
    assert(artifact.at("forest"@).object() is Some);
    assert(drawn_of_parts(
        artifact,
        values_of(nodes),
        values_of(edges),
        roots,
        optional_field(artifact.at("forest"@).get("active_root"@), "forest.active_root"@)->Ok_0,
        ids,
    ) is Ok);
}

} // verus!
