//! The backbone of a graph: the children of its nodes, their order, and the longest way down.

use crate::json::{Json, Tree};
use crate::table::{
    copy_texts, enter, enter_name, find, has_row, lemma_found_is_row, member, put, put_row,
    put_then_member, sorted,
};
use crate::text::{before, precedes, same};
use vstd::prelude::*;

verus! {

/// The children of each parent, each list in ascending order.
pub type Kin = Seq<(Seq<char>, Seq<Seq<char>>)>;

/// The children so far of a parent.
pub open spec fn kids_of(kin: Kin, parent: Seq<char>) -> Seq<Seq<char>> {
    match member(kin, parent) {
        Some(kids) => kids,
        None => Seq::empty(),
    }
}

/// The parent and the child of an edge of the backbone.
pub open spec fn link_of(edge: Tree) -> Option<(Seq<char>, Seq<char>)> {
    if edge.flag_at("canonical_backbone"@) != Some(true) {
        None
    } else {
        match (edge.text_at("from"@), edge.text_at("to"@)) {
            (Some(from), Some(to)) => Some((from, to)),
            _ => None,
        }
    }
}

/// The children by the first `n` edges.
pub open spec fn kin_of(edges: Seq<Tree>, n: nat) -> Kin
    decreases n,
{
    if n == 0 {
        Seq::empty()
    } else {
        let kin = kin_of(edges, (n - 1) as nat);
        match link_of(edges[n - 1]) {
            None => kin,
            Some((from, to)) => put(kin, from, enter(kids_of(kin, from), to)),
        }
    }
}

/// Whether each list of children ascends.
pub open spec fn kin_sorted(kin: Kin) -> bool {
    forall|name: Seq<char>| sorted(#[trigger] kids_of(kin, name))
}

pub fn backbone_children(edges: &Vec<Json>) -> (kin: Vec<(String, Vec<String>)>)
    ensures
        kin.deep_view() == kin_of(edges.deep_view(), edges@.len()),
{
    let mut kin: Vec<(String, Vec<String>)> = Vec::new();
    let mut i: usize = 0;
    assert(kin.deep_view() =~= Seq::empty());
    while i < edges.len()
        invariant
            i <= edges@.len(),
            kin.deep_view() == kin_of(edges.deep_view(), i as nat),
            kin_sorted(kin.deep_view()),
        decreases edges@.len() - i,
    {
        assert(edges.deep_view()[i as int] == edges@[i as int]@);
        let on_backbone = match edges[i].flag_at("canonical_backbone") {
            Some(flag) => flag,
            None => false,
        };
        if on_backbone {
            if let Some(from) = edges[i].text_at("from") {
                if let Some(to) = edges[i].text_at("to") {
                    let ghost was = kin.deep_view();
                    let mut kids = match find(&kin, from) {
                        Some(kids) => copy_texts(kids),
                        None => {
                            let none: Vec<String> = Vec::new();
                            assert(none.deep_view() =~= Seq::empty());
                            none
                        },
                    };
                    assert(kids.deep_view() == kids_of(was, from@));
                    let _ = enter_name(&mut kids, to);
                    let ghost list = kids.deep_view();
                    put_row(&mut kin, from, kids);
                    assert forall|name: Seq<char>| sorted(
                        #[trigger] kids_of(kin.deep_view(), name),
                    ) by {
                        put_then_member(was, from@, list, name);
                        assert(sorted(kids_of(was, name)));
                    }
                }
            }
        }
        i += 1;
    }
    kin
}

/// How many of the first `n` parents have no place yet.
pub open spec fn unplaced(kin: Kin, order: Seq<(Seq<char>, usize)>, n: nat) -> nat
    decreases n,
{
    if n == 0 {
        0
    } else {
        unplaced(kin, order, (n - 1) as nat) + (if member(order, kin[n - 1].0) is None {
            1nat
        } else {
            0
        })
    }
}

pub proof fn lemma_unplaced(kin: Kin, order: Seq<(Seq<char>, usize)>, name: Seq<char>, value: usize, n: nat)
    requires
        n <= kin.len(),
    ensures
        unplaced(kin, put(order, name, value), n) <= unplaced(kin, order, n),
        member(order, name) is None && (exists|i: int| 0 <= i < n && (#[trigger] kin[i]).0 == name)
            ==> unplaced(kin, put(order, name, value), n) < unplaced(kin, order, n),
    decreases n,
{
    if n > 0 {
        lemma_unplaced(kin, order, name, value, (n - 1) as nat);
        put_then_member(order, name, value, kin[n - 1].0);
    }
}

/// The places of the nodes, breadth first: the first node of the queue takes the next place,
/// and where it had none its children join the queue.
pub open spec fn visited(
    kin: Kin,
    queue: Seq<Seq<char>>,
    order: Seq<(Seq<char>, usize)>,
) -> Seq<(Seq<char>, usize)>
    decreases unplaced(kin, order, kin.len()), queue.len(),
{
    if queue.len() == 0 {
        order
    } else {
        let node = queue[0];
        let next = put(order, node, order.len() as usize);
        proof {
            lemma_unplaced(kin, order, node, order.len() as usize, kin.len());
            if member(kin, node) is Some {
                lemma_found_is_row(kin, node);
            }
        }
        if member(order, node) is Some {
            visited(kin, queue.drop_first(), next)
        } else {
            match member(kin, node) {
                Some(kids) => visited(kin, queue.drop_first() + kids, next),
                None => visited(kin, queue.drop_first(), next),
            }
        }
    }
}

/// The places of the nodes below the first `n` roots.
pub open spec fn places(kin: Kin, roots: Seq<Seq<char>>, n: nat) -> Seq<(Seq<char>, usize)>
    decreases n,
{
    if n == 0 {
        Seq::empty()
    } else {
        visited(kin, seq![roots[n - 1]], places(kin, roots, (n - 1) as nat))
    }
}

fn assign_order(
    root: &str,
    kin: &Vec<(String, Vec<String>)>,
    order: Vec<(String, usize)>,
) -> (r: Vec<(String, usize)>)
    ensures
        r.deep_view() == visited(kin.deep_view(), seq![root@], order.deep_view()),
{
    let ghost goal = visited(kin.deep_view(), seq![root@], order.deep_view());
    let ghost rows = kin.deep_view();
    let mut order = order;
    let mut queue: Vec<String> = vec![root.to_owned()];
    let mut head: usize = 0;
    assert(queue.deep_view().skip(0) =~= seq![root@]);
    while head < queue.len()
        invariant
            head <= queue@.len(),
            rows == kin.deep_view(),
            visited(rows, queue.deep_view().skip(head as int), order.deep_view()) == goal,
        decreases unplaced(rows, order.deep_view(), rows.len()), queue@.len() - head,
    {
        let ghost line = queue.deep_view();
        let node = queue[head].clone();
        assert(line[head as int] == node@);
        assert(line.skip(head as int)[0] == node@);
        assert(line.skip(head as int).drop_first() =~= line.skip(head + 1));
        let ghost was = order.deep_view();
        let place: usize = order.len();
        assert(place == was.len());
        proof {
            lemma_unplaced(rows, was, node@, place, rows.len());
            if member(rows, node@) is Some {
                lemma_found_is_row(rows, node@);
            }
        }
        let known = has_row(&order, &node);
        put_row(&mut order, &node, place);
        head += 1;
        if !known {
            if let Some(kids) = find(kin, &node) {
                let mut i: usize = 0;
                let ghost more = kids.deep_view();
                assert(queue.deep_view() =~= line + more.take(0));
                while i < kids.len()
                    invariant
                        i <= kids@.len(),
                        more == kids.deep_view(),
                        queue.deep_view() == line + more.take(i as int),
                    decreases kids@.len() - i,
                {
                    let ghost prior = queue.deep_view();
                    queue.push(kids[i].clone());
                    assert(queue.deep_view() =~= prior.push(more[i as int]));
                    assert(more.take(i + 1) =~= more.take(i as int).push(more[i as int]));
                    assert(queue.deep_view() =~= line + more.take(i + 1));
                    i += 1;
                }
                assert(more.take(more.len() as int) =~= more);
                assert(queue.deep_view().skip(head as int) =~= line.skip(head as int) + more);
                assert(queue@.len() == line.len() + more.len()) by {
                    assert(queue.deep_view().len() == queue@.len());
                }
            }
        }
    }
    assert(queue.deep_view().skip(head as int) =~= Seq::empty());
    order
}

/// The places of the nodes below the roots.
pub fn assign_places(roots: &Vec<String>, kin: &Vec<(String, Vec<String>)>) -> (r: Vec<
    (String, usize),
>)
    ensures
        r.deep_view() == places(kin.deep_view(), roots.deep_view(), roots@.len()),
{
    let mut order: Vec<(String, usize)> = Vec::new();
    let mut i: usize = 0;
    assert(order.deep_view() =~= Seq::empty());
    while i < roots.len()
        invariant
            i <= roots@.len(),
            order.deep_view() == places(kin.deep_view(), roots.deep_view(), i as nat),
        decreases roots@.len() - i,
    {
        assert(roots.deep_view()[i as int] == roots@[i as int]@);
        order = assign_order(&roots[i], kin, order);
        i += 1;
    }
    order
}

/// Whether no way down from a node takes more than so many steps.
pub open spec fn shallow(kin: Kin, node: Seq<char>, steps: nat) -> bool
    decreases steps, 0int,
{
    match member(kin, node) {
        None => true,
        Some(kids) => steps > 0 && all_shallow(kin, kids, kids.len(), (steps - 1) as nat),
    }
}

/// Whether no way down from one of the first `n` nodes takes more than so many steps.
pub open spec fn all_shallow(kin: Kin, nodes: Seq<Seq<char>>, n: nat, steps: nat) -> bool
    decreases steps, n + 1,
{
    n > 0 ==> all_shallow(kin, nodes, (n - 1) as nat, steps) && shallow(kin, nodes[n - 1], steps)
}

/// Whether no way down from the node takes more than so many steps.
pub fn is_shallow(kin: &Vec<(String, Vec<String>)>, node: &str, steps: usize) -> (r: bool)
    ensures
        r == shallow(kin.deep_view(), node@, steps as nat),
    decreases steps, 0int,
{
    match find(kin, node) {
        None => true,
        Some(kids) => {
            assert(kids.deep_view().len() == kids@.len());
            steps > 0 && are_shallow(kin, kids, kids.len(), steps - 1)
        },
    }
}

fn are_shallow(
    kin: &Vec<(String, Vec<String>)>,
    nodes: &Vec<String>,
    n: usize,
    steps: usize,
) -> (r: bool)
    requires
        n <= nodes@.len(),
    ensures
        r == all_shallow(kin.deep_view(), nodes.deep_view(), n as nat, steps as nat),
    decreases steps, n + 1,
{
    if n == 0 {
        return true;
    }
    assert(nodes.deep_view()[n - 1] == nodes@[n - 1]@);
    are_shallow(kin, nodes, n - 1, steps) && is_shallow(kin, &nodes[n - 1], steps)
}

/// Whether one list of names comes before another, name by name.
pub open spec fn list_before(a: Seq<Seq<char>>, b: Seq<Seq<char>>) -> bool
    decreases a.len(),
{
    if b.len() == 0 {
        false
    } else if a.len() == 0 {
        true
    } else if a[0] != b[0] {
        before(a[0], b[0])
    } else {
        list_before(a.drop_first(), b.drop_first())
    }
}

fn list_precedes(a: &Vec<String>, b: &Vec<String>) -> (r: bool)
    ensures
        r == list_before(a.deep_view(), b.deep_view()),
{
    let ghost x = a.deep_view();
    let ghost y = b.deep_view();
    let mut i: usize = 0;
    assert(x.skip(0) =~= x && y.skip(0) =~= y);
    while i < a.len() && i < b.len()
        invariant
            i <= a@.len(),
            i <= b@.len(),
            x == a.deep_view(),
            y == b.deep_view(),
            list_before(x, y) == list_before(x.skip(i as int), y.skip(i as int)),
        decreases a@.len() - i,
    {
        assert(x.skip(i as int)[0] == a@[i as int]@);
        assert(y.skip(i as int)[0] == b@[i as int]@);
        assert(x.skip(i as int).drop_first() =~= x.skip(i + 1));
        assert(y.skip(i as int).drop_first() =~= y.skip(i + 1));
        if !same(&a[i], &b[i]) {
            return precedes(&a[i], &b[i]);
        }
        i += 1;
    }
    a.len() < b.len()
}

/// Whether a way is longer than another, or as long and before it.
pub open spec fn better(a: Seq<Seq<char>>, b: Seq<Seq<char>>) -> bool {
    a.len() > b.len() || (a.len() == b.len() && list_before(a, b))
}

/// The longest way down from a node, and of those of one length the first by its names; it is
/// followed for at most `steps` steps.
pub open spec fn longest_way(kin: Kin, node: Seq<char>, steps: nat) -> Seq<Seq<char>>
    decreases steps, 0int,
{
    match member(kin, node) {
        None => seq![node],
        Some(kids) => if steps == 0 {
            seq![node]
        } else {
            seq![node] + longest_of(kin, kids, kids.len(), (steps - 1) as nat)
        },
    }
}

/// The longest way down from one of the first `n` nodes.
pub open spec fn longest_of(kin: Kin, nodes: Seq<Seq<char>>, n: nat, steps: nat) -> Seq<Seq<char>>
    decreases steps, n + 1,
{
    if n == 0 {
        Seq::empty()
    } else {
        let prior = longest_of(kin, nodes, (n - 1) as nat, steps);
        let candidate = longest_way(kin, nodes[n - 1], steps);
        if better(candidate, prior) {
            candidate
        } else {
            prior
        }
    }
}

/// The longest way down from the node.
pub fn best_path(root: &str, kin: &Vec<(String, Vec<String>)>, steps: usize) -> (r: Vec<String>)
    ensures
        r.deep_view() == longest_way(kin.deep_view(), root@, steps as nat),
    decreases steps, 1int,
{
    let mut path: Vec<String> = vec![root.to_owned()];
    assert(path.deep_view() =~= seq![root@]);
    match find(kin, root) {
        None => path,
        Some(kids) => {
            if steps == 0 {
                return path;
            }
            let best = best_of(kids, kin, steps - 1);
            let ghost more = best.deep_view();
            let mut i: usize = 0;
            assert(path.deep_view() =~= seq![root@] + more.take(0));
            while i < best.len()
                invariant
                    i <= best@.len(),
                    more == best.deep_view(),
                    path.deep_view() == seq![root@] + more.take(i as int),
                decreases best@.len() - i,
            {
                let ghost prior = path.deep_view();
                path.push(best[i].clone());
                assert(path.deep_view() =~= prior.push(more[i as int]));
                assert(more.take(i + 1) =~= more.take(i as int).push(more[i as int]));
                assert(path.deep_view() =~= seq![root@] + more.take(i + 1));
                i += 1;
            }
            assert(more.take(more.len() as int) =~= more);
            path
        },
    }
}

fn best_of(nodes: &Vec<String>, kin: &Vec<(String, Vec<String>)>, steps: usize) -> (r: Vec<String>)
    ensures
        r.deep_view() == longest_of(
            kin.deep_view(),
            nodes.deep_view(),
            nodes@.len(),
            steps as nat,
        ),
    decreases steps, 2int,
{
    let mut best: Vec<String> = Vec::new();
    let mut i: usize = 0;
    assert(best.deep_view() =~= Seq::empty());
    while i < nodes.len()
        invariant
            i <= nodes@.len(),
            best.deep_view() == longest_of(
                kin.deep_view(),
                nodes.deep_view(),
                i as nat,
                steps as nat,
            ),
        decreases nodes@.len() - i,
    {
        assert(nodes.deep_view()[i as int] == nodes@[i as int]@);
        let candidate = best_path(&nodes[i], kin, steps);
        assert(candidate.deep_view().len() == candidate@.len());
        assert(best.deep_view().len() == best@.len());
        if candidate.len() > best.len() || (candidate.len() == best.len() && list_precedes(
            &candidate,
            &best,
        )) {
            best = candidate;
        }
        i += 1;
    }
    best
}

/// Below a node stand those that an edge of the backbone leads to from it, and no others.
pub proof fn kin_are_joined_by_the_backbone(
    edges: Seq<Tree>,
    n: nat,
    from: Seq<char>,
    to: Seq<char>,
)
    requires
        n <= edges.len(),
    ensures
        kids_of(kin_of(edges, n), from).contains(to) <==> exists|k: int|
            0 <= k < n && (#[trigger] edges[k]).flag_at("canonical_backbone"@) == Some(true)
                && edges[k].text_at("from"@) == Some(from) && edges[k].text_at("to"@) == Some(to),
    decreases n,
{
    if n > 0 {
        let m = (n - 1) as nat;
        kin_are_joined_by_the_backbone(edges, m, from, to);
        let kin = kin_of(edges, m);
        match link_of(edges[n - 1]) {
            None => {},
            Some((a, b)) => {
                crate::table::put_then_member(
                    kin,
                    a,
                    crate::table::enter(kids_of(kin, a), b),
                    from,
                );
                crate::table::lemma_enter_members(kids_of(kin, a), b, to);
            },
        }
    }
}

} // verus!
