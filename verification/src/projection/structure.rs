//! The tree that the parent links of a page of events make.

use super::hints::{citable, ids_are_citable};
use super::semantic::ProjectionDiagnostics;
use super::sources::{event_index, find_event};
use crate::event::{Event, EventEnvelope};
use crate::text::same;
use vstd::prelude::*;

verus! {

/// The positions of the parents of the events from position `i` on, behind those found so far;
/// none where a link does not lead to another event of the page.
pub open spec fn ups_from(events: Seq<Event>, i: nat, ups: Seq<Option<usize>>) -> Option<
    Seq<Option<usize>>,
>
    decreases events.len() - i,
{
    if i >= events.len() {
        Some(ups)
    } else {
        match events[i as int].parent {
            None => ups_from(events, i + 1, ups.push(None)),
            Some(id) => if id == events[i as int].id {
                None
            } else {
                match event_index(events, id, 0) {
                    None => None,
                    Some(p) => ups_from(events, i + 1, ups.push(Some(p as usize))),
                }
            },
        }
    }
}

/// How many of the first `n` events have no parent.
pub open spec fn orphans(ups: Seq<Option<usize>>, n: nat) -> nat
    decreases n,
{
    if n == 0 {
        0
    } else {
        orphans(ups, (n - 1) as nat) + (if ups[n - 1] is None {
            1nat
        } else {
            0
        })
    }
}

/// Whether the way up from an event ends within so many steps.
pub open spec fn ends(ups: Seq<Option<usize>>, i: int, steps: nat) -> bool
    decreases steps,
{
    match ups[i] {
        None => true,
        Some(p) => steps > 0 && ends(ups, p as int, (steps - 1) as nat),
    }
}

/// Whether each link leads to an event of the page.
pub open spec fn within(ups: Seq<Option<usize>>) -> bool {
    forall|j: int| 0 <= j < ups.len() ==> (#[trigger] ups[j] matches Some(p) ==> p < ups.len())
}

/// Whether links make one tree of more than one event.
pub open spec fn one_tree(ups: Seq<Option<usize>>) -> bool {
    &&& ups.len() > 1
    &&& orphans(ups, ups.len()) == 1
    &&& forall|i: int| 0 <= i < ups.len() ==> #[trigger] ends(ups, i, ups.len())
}

/// The links of a page whose events make one tree; none where anything is ambiguous.
pub open spec fn links_of(events: Seq<Event>) -> Option<Seq<Option<usize>>> {
    if !citable(events) {
        None
    } else {
        match ups_from(events, 0, Seq::empty()) {
            None => None,
            Some(ups) => if one_tree(ups) {
                Some(ups)
            } else {
                None
            },
        }
    }
}

/// The tree of a page of events, by the position of each event's parent.
pub struct StructuralTopology {
    pub ups: Vec<Option<usize>>,
}

fn parent_positions(events: &Vec<EventEnvelope>) -> (r: Option<Vec<Option<usize>>>)
    ensures
        match r {
            Some(ups) => ups_from(events.deep_view(), 0, Seq::empty()) == Some(ups@) && ups@.len()
                == events@.len() && within(ups@),
            None => ups_from(events.deep_view(), 0, Seq::empty()) is None,
        },
{
    let mut ups: Vec<Option<usize>> = Vec::new();
    let mut i: usize = 0;
    while i < events.len()
        invariant
            i <= events@.len(),
            ups@.len() == i,
            forall|j: int|
                0 <= j < i ==> (#[trigger] ups@[j] matches Some(p) ==> p < events@.len()),
            ups_from(events.deep_view(), 0, Seq::empty()) == ups_from(
                events.deep_view(),
                i as nat,
                ups@,
            ),
        decreases events@.len() - i,
    {
        assert(events.deep_view()[i as int] == events@[i as int]@);
        match &events[i].parent {
            None => {
                ups.push(None);
            },
            Some(id) => {
                if same(id, &events[i].id) {
                    return None;
                }
                match find_event(events, id) {
                    None => {
                        return None;
                    },
                    Some(p) => {
                        ups.push(Some(p));
                    },
                }
            },
        }
        i += 1;
    }
    Some(ups)
}

fn count_orphans(ups: &Vec<Option<usize>>) -> (r: usize)
    ensures
        r == orphans(ups@, ups@.len()),
{
    let mut count: usize = 0;
    let mut i: usize = 0;
    while i < ups.len()
        invariant
            i <= ups@.len(),
            count <= i,
            count == orphans(ups@, i as nat),
        decreases ups@.len() - i,
    {
        if ups[i].is_none() {
            count += 1;
        }
        i += 1;
    }
    count
}

fn way_ends(ups: &Vec<Option<usize>>, i: usize) -> (r: bool)
    requires
        i < ups@.len(),
        within(ups@),
    ensures
        r == ends(ups@, i as int, ups@.len()),
{
    let mut at: usize = i;
    let mut steps: usize = ups.len();
    loop
        invariant
            at < ups@.len(),
            within(ups@),
            ends(ups@, i as int, ups@.len()) == ends(ups@, at as int, steps as nat),
        decreases steps,
    {
        match ups[at] {
            None => {
                return true;
            },
            Some(p) => {
                assert(ups@[at as int] matches Some(q) && q == p);
                if steps == 0 {
                    return false;
                }
                at = p;
                steps -= 1;
            },
        }
    }
}

impl StructuralTopology {
    pub fn from_events(events: &Vec<EventEnvelope>) -> (r: Option<Self>)
        ensures
            match r {
                Some(topology) => links_of(events.deep_view()) == Some(topology.ups@)
                    && topology.ups@.len() == events@.len() && within(topology.ups@),
                None => links_of(events.deep_view()) is None,
            },
    {
        if !ids_are_citable(events) {
            return None;
        }
        let ups = parent_positions(events)?;
        if ups.len() <= 1 || count_orphans(&ups) != 1 {
            return None;
        }
        let mut i: usize = 0;
        while i < ups.len()
            invariant
                i <= ups@.len(),
                within(ups@),
                citable(events.deep_view()),
                ups_from(events.deep_view(), 0, Seq::empty()) == Some(ups@),
                forall|j: int| 0 <= j < i ==> #[trigger] ends(ups@, j, ups@.len()),
            decreases ups@.len() - i,
        {
            if !way_ends(&ups, i) {
                return None;
            }
            i += 1;
        }
        Some(StructuralTopology { ups })
    }

    /// The position of the event that has no parent.
    pub fn root_index(&self) -> (r: usize)
        requires
            orphans(self.ups@, self.ups@.len()) == 1,
        ensures
            r == root_of(self.ups@, 0),
            r < self.ups@.len(),
    {
        let mut i: usize = 0;
        while i < self.ups.len()
            invariant
                i <= self.ups@.len(),
                orphans(self.ups@, self.ups@.len()) == 1,
                orphans(self.ups@, i as nat) == 0,
                root_of(self.ups@, 0) == root_of(self.ups@, i as nat),
            decreases self.ups@.len() - i,
        {
            if self.ups[i].is_none() {
                return i;
            }
            i += 1;
        }
        0
    }
}

/// The position of the first event without a parent, from `i` on.
pub open spec fn root_of(ups: Seq<Option<usize>>, i: nat) -> nat
    decreases ups.len() - i,
{
    if i >= ups.len() || ups[i as int] is None {
        i
    } else {
        root_of(ups, i + 1)
    }
}

/// How many of the first `n` events have event `i` as their parent.
pub open spec fn kids(ups: Seq<Option<usize>>, i: nat, n: nat) -> nat
    decreases n,
{
    if n == 0 {
        0
    } else {
        kids(ups, i, (n - 1) as nat) + (if ups[n - 1] matches Some(p) && p == i {
            1nat
        } else {
            0
        })
    }
}

fn count_kids(ups: &Vec<Option<usize>>, i: usize) -> (r: usize)
    ensures
        r == kids(ups@, i as nat, ups@.len()),
{
    let mut count: usize = 0;
    let mut j: usize = 0;
    while j < ups.len()
        invariant
            j <= ups@.len(),
            count <= j,
            count == kids(ups@, i as nat, j as nat),
        decreases ups@.len() - j,
    {
        if let Some(p) = ups[j] {
            if p == i {
                count += 1;
            }
        }
        j += 1;
    }
    count
}

/// How many of the first `n` events have no child, or else more than one.
pub open spec fn formed(ups: Seq<Option<usize>>, leaf: bool, n: nat) -> nat
    decreases n,
{
    if n == 0 {
        0
    } else {
        let children = kids(ups, (n - 1) as nat, ups.len());
        formed(ups, leaf, (n - 1) as nat) + (if (leaf && children == 0) || (!leaf && children > 1) {
            1nat
        } else {
            0
        })
    }
}

fn count_formed(ups: &Vec<Option<usize>>, leaf: bool) -> (r: usize)
    ensures
        r == formed(ups@, leaf, ups@.len()),
{
    let mut count: usize = 0;
    let mut i: usize = 0;
    while i < ups.len()
        invariant
            i <= ups@.len(),
            count <= i,
            count == formed(ups@, leaf, i as nat),
        decreases ups@.len() - i,
    {
        let children: usize = count_kids(ups, i);
        if (leaf && children == 0) || (!leaf && children > 1) {
            count += 1;
        }
        i += 1;
    }
    count
}

/// How many steps the way up from an event takes, at most `steps`.
pub open spec fn height(ups: Seq<Option<usize>>, i: int, steps: nat) -> nat
    decreases steps,
{
    match ups[i] {
        None => 0,
        Some(p) => if steps == 0 {
            0
        } else {
            1 + height(ups, p as int, (steps - 1) as nat)
        },
    }
}

fn measure_height(ups: &Vec<Option<usize>>, i: usize) -> (r: usize)
    requires
        i < ups@.len(),
        within(ups@),
    ensures
        r == height(ups@, i as int, ups@.len()),
{
    let mut at: usize = i;
    let n: usize = ups.len();
    let mut steps: usize = 0;
    while steps < n
        invariant
            n == ups@.len(),
            steps <= n,
            at < ups@.len(),
            within(ups@),
            height(ups@, i as int, n as nat) == steps + height(
                ups@,
                at as int,
                (n - steps) as nat,
            ),
        decreases n - steps,
    {
        match ups[at] {
            None => {
                return steps;
            },
            Some(p) => {
                assert(ups@[at as int] matches Some(q) && q == p);
                at = p;
                steps += 1;
            },
        }
    }
    steps
}

/// The greatest height of the first `n` events.
pub open spec fn highest(ups: Seq<Option<usize>>, n: nat) -> nat
    decreases n,
{
    if n == 0 {
        0
    } else {
        let here = height(ups, n - 1, ups.len());
        let before = highest(ups, (n - 1) as nat);
        if here > before {
            here
        } else {
            before
        }
    }
}

fn measure_highest(ups: &Vec<Option<usize>>) -> (r: usize)
    requires
        within(ups@),
    ensures
        r == highest(ups@, ups@.len()),
{
    let mut most: usize = 0;
    let mut i: usize = 0;
    while i < ups.len()
        invariant
            i <= ups@.len(),
            within(ups@),
            most == highest(ups@, i as nat),
        decreases ups@.len() - i,
    {
        let here: usize = measure_height(ups, i);
        if here > most {
            most = here;
        }
        i += 1;
    }
    most
}

/// The counts of a graph without events.
pub open spec fn nothing_counted() -> ProjectionDiagnostics {
    ProjectionDiagnostics {
        leaf_count: 0,
        fork_count: 0,
        maximum_depth: 0,
        branching: (0, 0),
        backbone_edge_count: 0,
        structural_edge_count: 0,
        annotation_edge_count: 0,
        sequence_edge_count: 0,
        sequence: (0, 0),
        source_backed_edge_count: 0,
        inferred_edge_count: 0,
        projection_heavy_branching: false,
    }
}

/// The counts of a chronology: its edges carry the backbone, but no source backs them.
pub open spec fn chronology_counted(nodes: nat, edges: nat) -> ProjectionDiagnostics {
    ProjectionDiagnostics {
        leaf_count: if nodes == 0 {
            0
        } else {
            1
        },
        maximum_depth: (if nodes == 0 {
            0
        } else {
            nodes - 1
        }) as usize,
        backbone_edge_count: edges as usize,
        sequence_edge_count: edges as usize,
        sequence: (edges as usize, edges as usize),
        inferred_edge_count: edges as usize,
        projection_heavy_branching: edges > 0,
        ..nothing_counted()
    }
}

/// The counts of a tree.
pub open spec fn tree_counted(ups: Seq<Option<usize>>, edges: nat) -> ProjectionDiagnostics {
    ProjectionDiagnostics {
        leaf_count: formed(ups, true, ups.len()) as usize,
        fork_count: formed(ups, false, ups.len()) as usize,
        maximum_depth: highest(ups, ups.len()) as usize,
        branching: (
            formed(ups, false, ups.len()) as usize,
            (if ups.len() > 1 {
                ups.len() - 1
            } else {
                1
            }) as usize,
        ),
        backbone_edge_count: edges as usize,
        structural_edge_count: edges as usize,
        source_backed_edge_count: edges as usize,
        ..nothing_counted()
    }
}

impl ProjectionDiagnostics {
    pub fn empty() -> (r: Self)
        ensures
            r == nothing_counted(),
    {
        ProjectionDiagnostics {
            leaf_count: 0,
            fork_count: 0,
            maximum_depth: 0,
            branching: (0, 0),
            backbone_edge_count: 0,
            structural_edge_count: 0,
            annotation_edge_count: 0,
            sequence_edge_count: 0,
            sequence: (0, 0),
            source_backed_edge_count: 0,
            inferred_edge_count: 0,
            projection_heavy_branching: false,
        }
    }

    pub fn degraded(node_count: usize, edge_count: usize) -> (r: Self)
        ensures
            r == chronology_counted(node_count as nat, edge_count as nat),
    {
        let mut counts = Self::empty();
        if node_count > 0 {
            counts.leaf_count = 1;
            counts.maximum_depth = node_count - 1;
        }
        counts.backbone_edge_count = edge_count;
        counts.sequence_edge_count = edge_count;
        counts.sequence = (edge_count, edge_count);
        counts.inferred_edge_count = edge_count;
        counts.projection_heavy_branching = edge_count > 0;
        counts
    }

    pub fn structural(topology: &StructuralTopology, edge_count: usize) -> (r: Self)
        requires
            within(topology.ups@),
        ensures
            r == tree_counted(topology.ups@, edge_count as nat),
    {
        let n: usize = topology.ups.len();
        let mut counts = Self::empty();
        counts.leaf_count = count_formed(&topology.ups, true);
        counts.fork_count = count_formed(&topology.ups, false);
        counts.maximum_depth = measure_highest(&topology.ups);
        counts.branching = (
            counts.fork_count,
            if n > 1 {
                n - 1
            } else {
                1
            },
        );
        counts.backbone_edge_count = edge_count;
        counts.structural_edge_count = edge_count;
        counts.source_backed_edge_count = edge_count;
        counts
    }
}

/// Whether no event names another as its parent.
pub open spec fn barren(ups: Seq<Option<usize>>, i: int, n: nat) -> bool {
    forall|k: int| 0 <= k < n ==> (#[trigger] ups[k] matches Some(p) ==> p != i)
}

/// Whether two events name the same one as their parent.
pub open spec fn forks(ups: Seq<Option<usize>>, i: int, n: nat) -> bool {
    exists|j: int, k: int|
        0 <= j < k < n && #[trigger] ups[j] == Some(i as usize) && #[trigger] ups[k] == Some(
            i as usize,
        )
}

proof fn lemma_kids(ups: Seq<Option<usize>>, i: nat, n: nat)
    requires
        n <= ups.len(),
        i <= usize::MAX,
    ensures
        kids(ups, i, n) == 0 <==> barren(ups, i as int, n),
        kids(ups, i, n) > 1 <==> forks(ups, i as int, n),
    decreases n,
{
    if n > 0 {
        let m = (n - 1) as nat;
        lemma_kids(ups, i, m);
        if ups[n - 1] == Some(i as usize) {
            if !barren(ups, i as int, m) {
                let k = choose|k: int|
                    0 <= k < m && !(#[trigger] ups[k] matches Some(p) ==> p != i);
                assert(0 <= k < n - 1 && ups[k] == Some(i as usize) && ups[n - 1] == Some(
                    i as usize,
                ));
                assert(forks(ups, i as int, n));
            }
        }
        if forks(ups, i as int, m) {
            let (j, k) = choose|j: int, k: int|
                0 <= j < k < m && #[trigger] ups[j] == Some(i as usize) && #[trigger] ups[k]
                    == Some(i as usize);
            assert(0 <= j < k < n && ups[j] == Some(i as usize) && ups[k] == Some(i as usize));
        }
    }
}

proof fn lemma_formed(ups: Seq<Option<usize>>, n: nat)
    requires
        n <= ups.len() <= usize::MAX,
    ensures
        formed(ups, true, n) == super::semantic::tally(|i: int| barren(ups, i, ups.len()), n),
        formed(ups, false, n) == super::semantic::tally(|i: int| forks(ups, i, ups.len()), n),
        formed(ups, true, n) <= n,
        formed(ups, false, n) <= n,
    decreases n,
{
    if n > 0 {
        lemma_formed(ups, (n - 1) as nat);
        lemma_kids(ups, (n - 1) as nat, ups.len());
    }
}

proof fn lemma_highest(ups: Seq<Option<usize>>, n: nat)
    requires
        0 < n <= ups.len(),
    ensures
        forall|i: int| 0 <= i < n ==> #[trigger] height(ups, i, ups.len()) <= highest(ups, n),
        exists|i: int| 0 <= i < n && #[trigger] height(ups, i, ups.len()) == highest(ups, n),
    decreases n,
{
    if n > 1 {
        lemma_highest(ups, (n - 1) as nat);
        let k = choose|i: int|
            0 <= i < n - 1 && #[trigger] height(ups, i, ups.len()) == highest(ups, (n - 1) as nat);
        assert(height(ups, k, ups.len()) == highest(ups, n) || height(ups, n - 1, ups.len())
            == highest(ups, n));
    } else {
        assert(highest(ups, 0) == 0);
        assert(height(ups, 0, ups.len()) == highest(ups, n));
    }
}

/// A tree of events is counted as it stands: its leaves are the events that are nobody's parent,
/// its forks those that are the parent of more than one, and it is as deep as its deepest event.
pub proof fn trees_are_counted_as_they_stand(ups: Seq<Option<usize>>, edges: nat)
    requires
        0 < ups.len() <= usize::MAX,
        edges <= usize::MAX,
    ensures
        ({
            let d = tree_counted(ups, edges);
            &&& d.leaf_count == super::semantic::tally(
                |i: int| barren(ups, i, ups.len()),
                ups.len(),
            )
            &&& d.fork_count == super::semantic::tally(
                |i: int| forks(ups, i, ups.len()),
                ups.len(),
            )
            &&& d.backbone_edge_count == edges && d.structural_edge_count == edges
            &&& d.source_backed_edge_count == edges
            &&& d.sequence_edge_count == 0 && d.annotation_edge_count == 0
            &&& d.inferred_edge_count == 0 && !d.projection_heavy_branching
            &&& forall|i: int|
                0 <= i < ups.len() ==> #[trigger] height(ups, i, ups.len()) <= highest(
                    ups,
                    ups.len(),
                )
            &&& exists|i: int|
                0 <= i < ups.len() && #[trigger] height(ups, i, ups.len()) == highest(
                    ups,
                    ups.len(),
                )
        }),
{
    lemma_formed(ups, ups.len());
    lemma_highest(ups, ups.len());
}

/// A line of events has one leaf and no fork, and is as deep as it is long; all its edges are
/// steps in time, none is backed by a source.
pub proof fn lines_are_counted_as_they_stand(nodes: nat)
    requires
        0 < nodes <= usize::MAX,
    ensures
        ({
            let d = chronology_counted(nodes, (nodes - 1) as nat);
            &&& d.leaf_count == 1 && d.fork_count == 0
            &&& d.maximum_depth == nodes - 1
            &&& d.backbone_edge_count == nodes - 1 && d.sequence_edge_count == nodes - 1
            &&& d.inferred_edge_count == nodes - 1
            &&& d.structural_edge_count == 0 && d.annotation_edge_count == 0
            &&& d.source_backed_edge_count == 0
            &&& d.projection_heavy_branching <==> nodes > 1
        }),
{
}

} // verus!
