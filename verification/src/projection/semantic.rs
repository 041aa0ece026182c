//! Semantic graphs: collected records that hang together as a forest.

use super::fields::{flag_in, required_json_bool, required_json_str, text_in};
use super::hints::{
    citable, collected_with, ids_are_citable, start_collected, Collected, Ground, HintCollector,
    HINTS_KEY,
};
use super::sources::{prior_graph, prior_of, PriorGraph};
use crate::active_state::{Active, ActiveGraphState};
use crate::event::{Event, EventEnvelope};
use crate::export::graph::{climb, way_end};
use crate::json::{Json, Members, Tree};
use crate::sdk::{answers, fault, input_error, passes, ExtensionError};
use crate::table::{find, holds, member};
use crate::text::{join3, join5, same};
use vstd::prelude::*;

verus! {

/// Counts that describe a graph. A ratio is kept by what is divided.
#[derive(Clone, Copy, Debug, PartialEq, Eq)]
pub struct ProjectionDiagnostics {
    pub leaf_count: usize,
    pub fork_count: usize,
    pub maximum_depth: usize,
    pub branching: (usize, usize),
    pub backbone_edge_count: usize,
    pub structural_edge_count: usize,
    pub annotation_edge_count: usize,
    pub sequence_edge_count: usize,
    pub sequence: (usize, usize),
    pub source_backed_edge_count: usize,
    pub inferred_edge_count: usize,
    pub projection_heavy_branching: bool,
}

impl DeepView for ProjectionDiagnostics {
    type V = ProjectionDiagnostics;

    open spec fn deep_view(&self) -> ProjectionDiagnostics {
        *self
    }
}

/// The ids of the nodes that are roots, among the first `n`.
pub open spec fn roots_among(nodes: Seq<(Seq<char>, Tree)>, n: nat) -> Seq<Seq<char>>
    decreases n,
{
    if n == 0 {
        Seq::empty()
    } else if text_in(nodes[n - 1].1, "kind"@, "causal-dag node"@) == Ok::<Seq<char>, Seq<char>>(
        "root"@,
    ) {
        roots_among(nodes, (n - 1) as nat).push(nodes[n - 1].0)
    } else {
        roots_among(nodes, (n - 1) as nat)
    }
}

/// The roots of a graph: there is at least one.
pub open spec fn roots_of(nodes: Seq<(Seq<char>, Tree)>) -> Result<Seq<Seq<char>>, Seq<char>> {
    let roots = roots_among(nodes, nodes.len());
    if roots.len() == 0 {
        Err("causal-dag semantic hints produced no roots"@)
    } else {
        Ok(roots)
    }
}

pub fn semantic_roots(nodes: &Members) -> (r: Result<Vec<String>, ExtensionError>)
    ensures
        answers(r, roots_of(nodes.deep_view())),
{
    let mut roots: Vec<String> = Vec::new();
    let mut i: usize = 0;
    assert(roots.deep_view() =~= Seq::empty());
    while i < nodes.len()
        invariant
            i <= nodes@.len(),
            roots.deep_view() == roots_among(nodes.deep_view(), i as nat),
        decreases nodes@.len() - i,
    {
        assert(nodes.deep_view()[i as int] == (nodes@[i as int].0@, nodes@[i as int].1@));
        let is_root = match required_json_str(&nodes[i].1, "kind", "causal-dag node") {
            Ok(kind) => same(kind, "root"),
            Err(_) => false,
        };
        if is_root {
            let ghost was = roots.deep_view();
            roots.push(nodes[i].0.clone());
            assert(roots.deep_view() =~= was.push(nodes.deep_view()[i as int].0));
        }
        i += 1;
    }
    if roots.len() == 0 {
        assert(roots.deep_view().len() == 0);
        return Err(input_error("causal-dag semantic hints produced no roots"));
    }
    assert(roots.deep_view().len() > 0);
    Ok(roots)
}

/// What is wrong with the roots that the nodes name, from node `i` on.
pub open spec fn root_names_fault(
    nodes: Seq<(Seq<char>, Tree)>,
    roots: Seq<Seq<char>>,
    i: nat,
) -> Option<Seq<char>>
    decreases nodes.len() - i,
{
    if i >= nodes.len() {
        None
    } else {
        let (id, node) = nodes[i as int];
        match text_in(node, "root_id"@, "causal-dag node"@) {
            Err(e) => Some(e),
            Ok(root_id) => match text_in(node, "kind"@, "causal-dag node"@) {
                Err(e) => Some(e),
                Ok(kind) => if kind == "root"@ && root_id != id {
                    Some("root node `"@ + id + "` must use itself as root_id"@)
                } else if kind != "root"@ && !roots.contains(root_id) {
                    Some("node `"@ + id + "` names unknown root `"@ + root_id + "`"@)
                } else {
                    root_names_fault(nodes, roots, i + 1)
                },
            },
        }
    }
}

/// What an edge is to the backbone: its child and parent where it belongs to it.
pub open spec fn backbone_step(
    nodes: Seq<(Seq<char>, Tree)>,
    id: Seq<char>,
    edge: Tree,
) -> Result<Option<(Seq<char>, Seq<char>)>, Seq<char>> {
    match text_in(edge, "from"@, "causal-dag edge"@) {
        Err(e) => Err(e),
        Ok(from) => match text_in(edge, "to"@, "causal-dag edge"@) {
            Err(e) => Err(e),
            Ok(to) => if from == to {
                Err("causal-dag edge `"@ + id + "` is a self-edge"@)
            } else {
                match (member(nodes, from), member(nodes, to)) {
                    (None, _) => Err(
                        "causal-dag edge `"@ + id + "` references missing source node `"@ + from
                            + "`"@,
                    ),
                    (Some(_), None) => Err(
                        "causal-dag edge `"@ + id + "` references missing target node `"@ + to
                            + "`"@,
                    ),
                    (Some(from_node), Some(to_node)) => match text_in(
                        edge,
                        "class"@,
                        "causal-dag edge"@,
                    ) {
                        Err(e) => Err(e),
                        Ok(class) => match flag_in(
                            edge,
                            "canonical_backbone"@,
                            "causal-dag edge"@,
                        ) {
                            Err(e) => Err(e),
                            Ok(false) => Ok(None),
                            Ok(true) => if class != "structural"@ {
                                Err(
                                    "causal-dag edge `"@ + id
                                        + "` uses canonical_backbone outside structural class"@,
                                )
                            } else {
                                match text_in(from_node, "root_id"@, "causal-dag node"@) {
                                    Err(e) => Err(e),
                                    Ok(from_root) => match text_in(
                                        to_node,
                                        "root_id"@,
                                        "causal-dag node"@,
                                    ) {
                                        Err(e) => Err(e),
                                        Ok(to_root) => if from_root != to_root {
                                            Err(
                                                "causal-dag backbone edge `"@ + id
                                                    + "` crosses roots"@,
                                            )
                                        } else {
                                            Ok(Some((to, from)))
                                        },
                                    },
                                }
                            },
                        },
                    },
                }
            },
        },
    }
}

fn read_step(nodes: &Members, id: &str, edge: &Json) -> (r: Result<
    Option<(String, String)>,
    ExtensionError,
>)
    ensures
        answers(r, backbone_step(nodes.deep_view(), id@, edge@)),
{
    let from = required_json_str(edge, "from", "causal-dag edge")?;
    let to = required_json_str(edge, "to", "causal-dag edge")?;
    if same(from, to) {
        return Err(fault(join3("causal-dag edge `", id, "` is a self-edge")));
    }
    let from_node = match find(nodes, from) {
        Some(node) => node,
        None => {
            return Err(
                fault(
                    join5(
                        "causal-dag edge `",
                        id,
                        "` references missing source node `",
                        from,
                        "`",
                    ),
                ),
            );
        },
    };
    let to_node = match find(nodes, to) {
        Some(node) => node,
        None => {
            return Err(
                fault(
                    join5(
                        "causal-dag edge `",
                        id,
                        "` references missing target node `",
                        to,
                        "`",
                    ),
                ),
            );
        },
    };
    let class = required_json_str(edge, "class", "causal-dag edge")?;
    let canonical = required_json_bool(edge, "canonical_backbone", "causal-dag edge")?;
    if !canonical {
        return Ok(None);
    }
    if !same(class, "structural") {
        return Err(
            fault(
                join3(
                    "causal-dag edge `",
                    id,
                    "` uses canonical_backbone outside structural class",
                ),
            ),
        );
    }
    let from_root = required_json_str(from_node, "root_id", "causal-dag node")?;
    let to_root = required_json_str(to_node, "root_id", "causal-dag node")?;
    if !same(from_root, to_root) {
        return Err(fault(join3("causal-dag backbone edge `", id, "` crosses roots")));
    }
    Ok(Some((to.clone(), from.clone())))
}

/// The backbone by the edges from position `i` on: each child with a parent.
pub open spec fn backbone_from(
    nodes: Seq<(Seq<char>, Tree)>,
    edges: Seq<(Seq<char>, Tree)>,
    i: nat,
    found: Seq<(Seq<char>, Seq<char>)>,
) -> Result<Seq<(Seq<char>, Seq<char>)>, Seq<char>>
    decreases edges.len() - i,
{
    if i >= edges.len() {
        Ok(found)
    } else {
        match backbone_step(nodes, edges[i as int].0, edges[i as int].1) {
            Err(e) => Err(e),
            Ok(None) => backbone_from(nodes, edges, i + 1, found),
            Ok(Some(step)) => backbone_from(nodes, edges, i + 1, found.push(step)),
        }
    }
}

fn read_backbone(nodes: &Members, edges: &Members) -> (r: Result<
    Vec<(String, String)>,
    ExtensionError,
>)
    ensures
        answers(r, backbone_from(nodes.deep_view(), edges.deep_view(), 0, Seq::empty())),
{
    let mut found: Vec<(String, String)> = Vec::new();
    let mut i: usize = 0;
    assert(found.deep_view() =~= Seq::empty());
    while i < edges.len()
        invariant
            i <= edges@.len(),
            backbone_from(nodes.deep_view(), edges.deep_view(), 0, Seq::empty()) == backbone_from(
                nodes.deep_view(),
                edges.deep_view(),
                i as nat,
                found.deep_view(),
            ),
        decreases edges@.len() - i,
    {
        assert(edges.deep_view()[i as int] == (edges@[i as int].0@, edges@[i as int].1@));
        if let Some(step) = read_step(nodes, &edges[i].0, &edges[i].1)? {
            let ghost was = found.deep_view();
            let ghost model = step.deep_view();
            found.push(step);
            assert(found.deep_view() =~= was.push(model));
        }
        i += 1;
    }
    Ok(found)
}

/// How many of the first `n` steps lead to a child.
pub open spec fn parents_of(backbone: Seq<(Seq<char>, Seq<char>)>, child: Seq<char>, n: nat) -> nat
    decreases n,
{
    if n == 0 {
        0
    } else {
        parents_of(backbone, child, (n - 1) as nat) + (if backbone[n - 1].0 == child {
            1nat
        } else {
            0
        })
    }
}

/// How many of the first `n` steps lead from a parent.
pub open spec fn children_of(
    backbone: Seq<(Seq<char>, Seq<char>)>,
    parent: Seq<char>,
    n: nat,
) -> nat
    decreases n,
{
    if n == 0 {
        0
    } else {
        children_of(backbone, parent, (n - 1) as nat) + (if backbone[n - 1].1 == parent {
            1nat
        } else {
            0
        })
    }
}

fn count_parents(backbone: &Vec<(String, String)>, child: &str) -> (r: usize)
    ensures
        r == parents_of(backbone.deep_view(), child@, backbone@.len()),
{
    let mut count: usize = 0;
    let mut i: usize = 0;
    while i < backbone.len()
        invariant
            i <= backbone@.len(),
            count <= i,
            count == parents_of(backbone.deep_view(), child@, i as nat),
        decreases backbone@.len() - i,
    {
        assert(backbone.deep_view()[i as int].0 == backbone@[i as int].0@);
        if same(&backbone[i].0, child) {
            count += 1;
        }
        i += 1;
    }
    count
}

fn count_children(backbone: &Vec<(String, String)>, parent: &str) -> (r: usize)
    ensures
        r == children_of(backbone.deep_view(), parent@, backbone@.len()),
{
    let mut count: usize = 0;
    let mut i: usize = 0;
    while i < backbone.len()
        invariant
            i <= backbone@.len(),
            count <= i,
            count == children_of(backbone.deep_view(), parent@, i as nat),
        decreases backbone@.len() - i,
    {
        assert(backbone.deep_view()[i as int].1 == backbone@[i as int].1@);
        if same(&backbone[i].1, parent) {
            count += 1;
        }
        i += 1;
    }
    count
}

/// What is wrong with the parents of the nodes, from node `i` on: a root has none, every other
/// node has one.
pub open spec fn parentage_fault(
    nodes: Seq<(Seq<char>, Tree)>,
    roots: Seq<Seq<char>>,
    backbone: Seq<(Seq<char>, Seq<char>)>,
    i: nat,
) -> Option<Seq<char>>
    decreases nodes.len() - i,
{
    if i >= nodes.len() {
        None
    } else {
        let id = nodes[i as int].0;
        let parents = parents_of(backbone, id, backbone.len());
        if roots.contains(id) && parents != 0 {
            Some("root node `"@ + id + "` must not have a backbone parent"@)
        } else if !roots.contains(id) && parents != 1 {
            Some("non-root node `"@ + id + "` must have exactly one backbone parent"@)
        } else {
            parentage_fault(nodes, roots, backbone, i + 1)
        }
    }
}

/// Whether the way up from each node ends, from node `i` on. Where each node has one parent and
/// the roots have none, just those nodes are reached from a root.
pub open spec fn all_reached(
    nodes: Seq<(Seq<char>, Tree)>,
    backbone: Seq<(Seq<char>, Seq<char>)>,
    i: nat,
) -> bool
    decreases nodes.len() - i,
{
    i < nodes.len() ==> climb(backbone, nodes[i as int].0, backbone.len()) is Some && all_reached(
        nodes,
        backbone,
        i + 1,
    )
}

/// The roots and the backbone of a graph that hangs together as a forest.
pub open spec fn frame_of(nodes: Seq<(Seq<char>, Tree)>, edges: Seq<(Seq<char>, Tree)>) -> Result<
    (Seq<Seq<char>>, Seq<(Seq<char>, Seq<char>)>),
    Seq<char>,
> {
    if nodes.len() == 0 {
        Err("causal-dag semantic hints produced no nodes"@)
    } else {
        match roots_of(nodes) {
            Err(e) => Err(e),
            Ok(roots) => match root_names_fault(nodes, roots, 0) {
                Some(e) => Err(e),
                None => match backbone_from(nodes, edges, 0, Seq::empty()) {
                    Err(e) => Err(e),
                    Ok(backbone) => match parentage_fault(nodes, roots, backbone, 0) {
                        Some(e) => Err(e),
                        None => if !all_reached(nodes, backbone, 0) {
                            Err("causal-dag backbone does not reach every semantic node"@)
                        } else {
                            Ok((roots, backbone))
                        },
                    },
                },
            },
        }
    }
}

fn check_root_names(nodes: &Members, roots: &Vec<String>) -> (r: Result<(), ExtensionError>)
    ensures
        passes(r, root_names_fault(nodes.deep_view(), roots.deep_view(), 0)),
{
    let mut i: usize = 0;
    while i < nodes.len()
        invariant
            i <= nodes@.len(),
            root_names_fault(nodes.deep_view(), roots.deep_view(), 0) == root_names_fault(
                nodes.deep_view(),
                roots.deep_view(),
                i as nat,
            ),
        decreases nodes@.len() - i,
    {
        let id = &nodes[i].0;
        assert(nodes.deep_view()[i as int] == (id@, nodes@[i as int].1@));
        let root_id = required_json_str(&nodes[i].1, "root_id", "causal-dag node")?;
        let kind = required_json_str(&nodes[i].1, "kind", "causal-dag node")?;
        if same(kind, "root") {
            if !same(root_id, id) {
                return Err(fault(join3("root node `", id, "` must use itself as root_id")));
            }
        } else if !holds(roots, root_id) {
            return Err(fault(join5("node `", id, "` names unknown root `", root_id, "`")));
        }
        i += 1;
    }
    Ok(())
}

fn check_parentage(nodes: &Members, roots: &Vec<String>, backbone: &Vec<(String, String)>) -> (r:
    Result<(), ExtensionError>)
    ensures
        passes(
            r,
            parentage_fault(nodes.deep_view(), roots.deep_view(), backbone.deep_view(), 0),
        ),
{
    let mut i: usize = 0;
    while i < nodes.len()
        invariant
            i <= nodes@.len(),
            parentage_fault(nodes.deep_view(), roots.deep_view(), backbone.deep_view(), 0)
                == parentage_fault(
                nodes.deep_view(),
                roots.deep_view(),
                backbone.deep_view(),
                i as nat,
            ),
        decreases nodes@.len() - i,
    {
        let id = &nodes[i].0;
        assert(nodes.deep_view()[i as int].0 == id@);
        let parents: usize = count_parents(backbone, id);
        if holds(roots, id) {
            if parents != 0 {
                return Err(
                    fault(join3("root node `", id, "` must not have a backbone parent")),
                );
            }
        } else if parents != 1 {
            return Err(
                fault(
                    join3("non-root node `", id, "` must have exactly one backbone parent"),
                ),
            );
        }
        i += 1;
    }
    Ok(())
}

fn reaches_all(nodes: &Members, backbone: &Vec<(String, String)>) -> (r: bool)
    ensures
        r == all_reached(nodes.deep_view(), backbone.deep_view(), 0),
{
    let mut i: usize = 0;
    while i < nodes.len()
        invariant
            i <= nodes@.len(),
            all_reached(nodes.deep_view(), backbone.deep_view(), 0) == all_reached(
                nodes.deep_view(),
                backbone.deep_view(),
                i as nat,
            ),
        decreases nodes@.len() - i,
    {
        assert(nodes.deep_view()[i as int].0 == nodes@[i as int].0@);
        if way_end(backbone, &nodes[i].0).is_none() {
            return false;
        }
        i += 1;
    }
    true
}

/// Checks that a graph hangs together as a forest; its roots and its backbone.
pub fn validate_semantic_graph(nodes: &Members, edges: &Members) -> (r: Result<
    (Vec<String>, Vec<(String, String)>),
    ExtensionError,
>)
    ensures
        answers(r, frame_of(nodes.deep_view(), edges.deep_view())),
{
    if nodes.len() == 0 {
        assert(nodes.deep_view().len() == 0);
        return Err(input_error("causal-dag semantic hints produced no nodes"));
    }
    assert(nodes.deep_view().len() > 0);
    let roots = semantic_roots(nodes)?;
    check_root_names(nodes, &roots)?;
    let backbone = read_backbone(nodes, edges)?;
    check_parentage(nodes, &roots, &backbone)?;
    if !reaches_all(nodes, &backbone) {
        return Err(input_error("causal-dag backbone does not reach every semantic node"));
    }
    Ok((roots, backbone))
}

/// In a graph that hangs together, the way up from each node ends.
pub proof fn every_node_is_reached(
    nodes: Seq<(Seq<char>, Tree)>,
    edges: Seq<(Seq<char>, Tree)>,
    k: int,
)
    requires
        frame_of(nodes, edges) is Ok,
        0 <= k < nodes.len(),
    ensures
        ({
            let backbone = frame_of(nodes, edges)->Ok_0.1;
            climb(backbone, nodes[k].0, backbone.len()) is Some
        }),
{
    lemma_reached(nodes, frame_of(nodes, edges)->Ok_0.1, 0, k);
}

proof fn lemma_reached(
    nodes: Seq<(Seq<char>, Tree)>,
    backbone: Seq<(Seq<char>, Seq<char>)>,
    i: nat,
    k: int,
)
    requires
        all_reached(nodes, backbone, i),
        i <= k < nodes.len(),
    ensures
        climb(backbone, nodes[k].0, backbone.len()) is Some,
    decreases k - i,
{
    if i < k {
        lemma_reached(nodes, backbone, i + 1, k);
    }
}

/// In a graph that hangs together, a root has no parent and every other node has one.
pub proof fn every_node_has_its_parent(
    nodes: Seq<(Seq<char>, Tree)>,
    edges: Seq<(Seq<char>, Tree)>,
    k: int,
)
    requires
        frame_of(nodes, edges) is Ok,
        0 <= k < nodes.len(),
    ensures
        ({
            let (roots, backbone) = frame_of(nodes, edges)->Ok_0;
            parents_of(backbone, nodes[k].0, backbone.len()) == (if roots.contains(nodes[k].0) {
                0nat
            } else {
                1nat
            })
        }),
{
    let (roots, backbone) = frame_of(nodes, edges)->Ok_0;
    lemma_parentage(nodes, roots, backbone, 0, k);
}

proof fn lemma_parentage(
    nodes: Seq<(Seq<char>, Tree)>,
    roots: Seq<Seq<char>>,
    backbone: Seq<(Seq<char>, Seq<char>)>,
    i: nat,
    k: int,
)
    requires
        parentage_fault(nodes, roots, backbone, i) is None,
        i <= k < nodes.len(),
    ensures
        parents_of(backbone, nodes[k].0, backbone.len()) == (if roots.contains(nodes[k].0) {
            0nat
        } else {
            1nat
        }),
    decreases k - i,
{
    if i < k {
        lemma_parentage(nodes, roots, backbone, i + 1, k);
    }
}

/// How many of the first `n` edges are of a class.
pub open spec fn of_class(edges: Seq<(Seq<char>, Tree)>, class: Seq<char>, n: nat) -> nat
    decreases n,
{
    if n == 0 {
        0
    } else {
        of_class(edges, class, (n - 1) as nat) + (if edges[n - 1].1.text_at("class"@) == Some(
            class,
        ) {
            1nat
        } else {
            0
        })
    }
}

fn count_class(edges: &Members, class: &str) -> (r: usize)
    ensures
        r == of_class(edges.deep_view(), class@, edges@.len()),
{
    let mut count: usize = 0;
    let mut i: usize = 0;
    while i < edges.len()
        invariant
            i <= edges@.len(),
            count <= i,
            count == of_class(edges.deep_view(), class@, i as nat),
        decreases edges@.len() - i,
    {
        assert(edges.deep_view()[i as int].1 == edges@[i as int].1@);
        if let Some(found) = edges[i].1.text_at("class") {
            if same(found, class) {
                count += 1;
            }
        }
        i += 1;
    }
    count
}

/// How many of the first `n` nodes have so many children: none, or else more than one.
pub open spec fn shaped(
    nodes: Seq<(Seq<char>, Tree)>,
    backbone: Seq<(Seq<char>, Seq<char>)>,
    leaf: bool,
    n: nat,
) -> nat
    decreases n,
{
    if n == 0 {
        0
    } else {
        let children = children_of(backbone, nodes[n - 1].0, backbone.len());
        shaped(nodes, backbone, leaf, (n - 1) as nat) + (if (leaf && children == 0) || (!leaf
            && children > 1) {
            1nat
        } else {
            0
        })
    }
}

fn count_shaped(nodes: &Members, backbone: &Vec<(String, String)>, leaf: bool) -> (r: usize)
    ensures
        r == shaped(nodes.deep_view(), backbone.deep_view(), leaf, nodes@.len()),
{
    let mut count: usize = 0;
    let mut i: usize = 0;
    while i < nodes.len()
        invariant
            i <= nodes@.len(),
            count <= i,
            count == shaped(nodes.deep_view(), backbone.deep_view(), leaf, i as nat),
        decreases nodes@.len() - i,
    {
        assert(nodes.deep_view()[i as int].0 == nodes@[i as int].0@);
        let children: usize = count_children(backbone, &nodes[i].0);
        if (leaf && children == 0) || (!leaf && children > 1) {
            count += 1;
        }
        i += 1;
    }
    count
}

/// How many steps the way up from a node takes, at most `steps`.
pub open spec fn depth_of(
    backbone: Seq<(Seq<char>, Seq<char>)>,
    id: Seq<char>,
    steps: nat,
) -> nat
    decreases steps,
{
    match member(backbone, id) {
        None => 0,
        Some(parent) => if steps == 0 {
            0
        } else {
            1 + depth_of(backbone, parent, (steps - 1) as nat)
        },
    }
}

fn measure_depth(backbone: &Vec<(String, String)>, id: &str) -> (r: usize)
    ensures
        r == depth_of(backbone.deep_view(), id@, backbone@.len()),
        r <= backbone@.len(),
{
    let mut current = id.to_owned();
    let mut depth: usize = 0;
    let n: usize = backbone.len();
    while depth < n
        invariant
            depth <= n == backbone@.len(),
            depth_of(backbone.deep_view(), id@, n as nat) == depth + depth_of(
                backbone.deep_view(),
                current@,
                (n - depth) as nat,
            ),
        decreases n - depth,
    {
        match find(backbone, &current) {
            None => return depth,
            Some(parent) => {
                current = parent.clone();
                depth += 1;
            },
        }
    }
    depth
}

/// The greatest depth of the first `n` nodes.
pub open spec fn deepest(
    nodes: Seq<(Seq<char>, Tree)>,
    backbone: Seq<(Seq<char>, Seq<char>)>,
    n: nat,
) -> nat
    decreases n,
{
    if n == 0 {
        0
    } else {
        let here = depth_of(backbone, nodes[n - 1].0, backbone.len());
        let before = deepest(nodes, backbone, (n - 1) as nat);
        if here > before {
            here
        } else {
            before
        }
    }
}

fn measure_deepest(nodes: &Members, backbone: &Vec<(String, String)>) -> (r: usize)
    ensures
        r == deepest(nodes.deep_view(), backbone.deep_view(), nodes@.len()),
{
    let mut most: usize = 0;
    let mut i: usize = 0;
    while i < nodes.len()
        invariant
            i <= nodes@.len(),
            most == deepest(nodes.deep_view(), backbone.deep_view(), i as nat),
        decreases nodes@.len() - i,
    {
        assert(nodes.deep_view()[i as int].0 == nodes@[i as int].0@);
        let here: usize = measure_depth(backbone, &nodes[i].0);
        if here > most {
            most = here;
        }
        i += 1;
    }
    most
}

/// The counts that describe a semantic graph.
pub open spec fn diagnosed(
    nodes: Seq<(Seq<char>, Tree)>,
    edges: Seq<(Seq<char>, Tree)>,
    backbone: Seq<(Seq<char>, Seq<char>)>,
) -> ProjectionDiagnostics {
    ProjectionDiagnostics {
        leaf_count: shaped(nodes, backbone, true, nodes.len()) as usize,
        fork_count: shaped(nodes, backbone, false, nodes.len()) as usize,
        maximum_depth: deepest(nodes, backbone, nodes.len()) as usize,
        branching: (
            shaped(nodes, backbone, false, nodes.len()) as usize,
            (if backbone.len() > 0 {
                backbone.len()
            } else {
                1
            }) as usize,
        ),
        backbone_edge_count: backbone.len() as usize,
        structural_edge_count: of_class(edges, "structural"@, edges.len()) as usize,
        annotation_edge_count: of_class(edges, "annotation"@, edges.len()) as usize,
        sequence_edge_count: 0,
        sequence: (0, 0),
        source_backed_edge_count: edges.len() as usize,
        inferred_edge_count: 0,
        projection_heavy_branching: false,
    }
}

fn semantic_diagnostics(nodes: &Members, edges: &Members, backbone: &Vec<(String, String)>) -> (r:
    ProjectionDiagnostics)
    ensures
        r == diagnosed(nodes.deep_view(), edges.deep_view(), backbone.deep_view()),
{
    assert(backbone.deep_view().len() == backbone@.len());
    assert(edges.deep_view().len() == edges@.len());
    let forks: usize = count_shaped(nodes, backbone, false);
    ProjectionDiagnostics {
        leaf_count: count_shaped(nodes, backbone, true),
        fork_count: forks,
        maximum_depth: measure_deepest(nodes, backbone),
        branching: (
            forks,
            if backbone.len() > 0 {
                backbone.len()
            } else {
                1
            },
        ),
        backbone_edge_count: backbone.len(),
        structural_edge_count: count_class(edges, "structural"),
        annotation_edge_count: count_class(edges, "annotation"),
        sequence_edge_count: 0,
        sequence: (0, 0),
        source_backed_edge_count: edges.len(),
        inferred_edge_count: 0,
        projection_heavy_branching: false,
    }
}

/// A semantic graph.
pub struct SemanticGraph {
    pub roots: Vec<String>,
    pub nodes: Members,
    pub edges: Members,
    pub diagnostics: ProjectionDiagnostics,
}

/// What a [`SemanticGraph`] holds.
#[verifier::ext_equal]
pub struct Semantic {
    pub roots: Seq<Seq<char>>,
    pub nodes: Seq<(Seq<char>, Tree)>,
    pub edges: Seq<(Seq<char>, Tree)>,
    pub diagnostics: ProjectionDiagnostics,
}

impl DeepView for SemanticGraph {
    type V = Semantic;

    open spec fn deep_view(&self) -> Semantic {
        Semantic {
            roots: self.roots.deep_view(),
            nodes: self.nodes.deep_view(),
            edges: self.edges.deep_view(),
            diagnostics: self.diagnostics,
        }
    }
}

/// The graph of collected records.
pub open spec fn finished(nodes: Seq<(Seq<char>, Tree)>, edges: Seq<(Seq<char>, Tree)>) -> Result<
    Semantic,
    Seq<char>,
> {
    match frame_of(nodes, edges) {
        Err(e) => Err(e),
        Ok((roots, backbone)) => Ok(
            Semantic { roots, nodes, edges, diagnostics: diagnosed(nodes, edges, backbone) },
        ),
    }
}

fn finish_graph(nodes: Members, edges: Members) -> (r: Result<SemanticGraph, ExtensionError>)
    ensures
        answers(r, finished(nodes.deep_view(), edges.deep_view())),
{
    let (roots, backbone) = validate_semantic_graph(&nodes, &edges)?;
    let diagnostics = semantic_diagnostics(&nodes, &edges, &backbone);
    Ok(SemanticGraph { roots, nodes, edges, diagnostics })
}

/// What is collected of the hints that events carry, from event `i` on.
pub open spec fn collected_of_events(
    events: Seq<Event>,
    ground: Ground,
    i: nat,
    state: Collected,
) -> Result<Collected, Seq<char>>
    decreases events.len() - i,
{
    if i >= events.len() {
        Ok(state)
    } else {
        match member(events[i as int].payload, HINTS_KEY@) {
            None => collected_of_events(events, ground, i + 1, state),
            Some(hints) => match collected_with(state, hints, ground) {
                Err(e) => Err(e),
                Ok(state) => collected_of_events(events, ground, i + 1, state),
            },
        }
    }
}

/// The graph of the hints that events carry.
pub open spec fn graph_of_events(events: Seq<Event>) -> Result<Semantic, Seq<char>> {
    if !citable(events) {
        Err("causal-dag semantic hints require unique non-empty event ids"@)
    } else {
        match collected_of_events(
            events,
            Ground { events, prior: Seq::empty(), revises: false },
            0,
            start_collected(super::sources::nothing_prior(), false),
        ) {
            Err(e) => Err(e),
            Ok(state) => finished(state.nodes, state.edges),
        }
    }
}

/// The graph of a hint, folded into the selected graph where that is asked for.
pub open spec fn graph_of_hint(
    events: Seq<Event>,
    hints: Tree,
    active: Option<Active>,
    fold_prior: bool,
) -> Result<Semantic, Seq<char>> {
    match prior_of(active) {
        Err(e) => Err(e),
        Ok(prior) => if !citable(events) {
            Err("causal-dag semantic hints require unique non-empty event ids"@)
        } else {
            match collected_with(
                start_collected(prior, fold_prior),
                hints,
                Ground { events, prior: prior.sources, revises: fold_prior },
            ) {
                Err(e) => Err(e),
                Ok(state) => finished(state.nodes, state.edges),
            }
        },
    }
}

impl SemanticGraph {
    pub fn from_events(events: &Vec<EventEnvelope>) -> (r: Result<Self, ExtensionError>)
        ensures
            answers(r, graph_of_events(events.deep_view())),
    {
        if !ids_are_citable(events) {
            return Err(
                input_error("causal-dag semantic hints require unique non-empty event ids"),
            );
        }
        let prior = PriorGraph::nothing();
        let mut collector = HintCollector::new(prior.nodes, prior.edges, false);
        let none = prior.sources;
        let ghost all = events.deep_view();
        let ghost ground = Ground { events: all, prior: Seq::empty(), revises: false };
        let ghost start = start_collected(super::sources::nothing_prior(), false);
        let mut i: usize = 0;
        while i < events.len()
            invariant
                i <= events@.len(),
                all == events.deep_view(),
                citable(all),
                none.deep_view() == Seq::<(super::sources::SourceKey, Tree)>::empty(),
                ground == (Ground { events: all, prior: Seq::empty(), revises: false }),
                start == start_collected(super::sources::nothing_prior(), false),
                collected_of_events(all, ground, 0, start) == collected_of_events(
                    all,
                    ground,
                    i as nat,
                    collector.deep_view(),
                ),
            decreases events@.len() - i,
        {
            assert(all[i as int] == events@[i as int]@);
            if let Some(hints) = find(&events[i].payload, HINTS_KEY) {
                collector = collector.collect(hints, events, &none, false)?;
            }
            i += 1;
        }
        finish_graph(collector.nodes, collector.edges)
    }

    pub fn from_hint_value(
        events: &Vec<EventEnvelope>,
        hints: &Json,
        active: Option<&ActiveGraphState>,
        fold_prior: bool,
    ) -> (r: Result<Self, ExtensionError>)
        ensures
            answers(
                r,
                graph_of_hint(events.deep_view(), hints@, active.deep_view(), fold_prior),
            ),
    {
        let prior = prior_graph(active)?;
        if !ids_are_citable(events) {
            return Err(
                input_error("causal-dag semantic hints require unique non-empty event ids"),
            );
        }
        let collector = HintCollector::new(prior.nodes, prior.edges, fold_prior);
        let collector = collector.collect(hints, events, &prior.sources, fold_prior)?;
        finish_graph(collector.nodes, collector.edges)
    }
}

/// How many of the first `n` positions have a property.
pub open spec fn tally(p: spec_fn(int) -> bool, n: nat) -> nat
    decreases n,
{
    if n == 0 {
        0
    } else {
        tally(p, (n - 1) as nat) + (if p(n - 1) {
            1nat
        } else {
            0
        })
    }
}

/// Whether nothing hangs below a node.
pub open spec fn childless(backbone: Seq<(Seq<char>, Seq<char>)>, id: Seq<char>, n: nat) -> bool {
    forall|k: int| 0 <= k < n ==> (#[trigger] backbone[k]).1 != id
}

/// Whether two steps lead down from a node.
pub open spec fn branches(backbone: Seq<(Seq<char>, Seq<char>)>, id: Seq<char>, n: nat) -> bool {
    exists|j: int, k: int|
        0 <= j < k < n && (#[trigger] backbone[j]).1 == id && (#[trigger] backbone[k]).1 == id
}

proof fn lemma_children(backbone: Seq<(Seq<char>, Seq<char>)>, id: Seq<char>, n: nat)
    requires
        n <= backbone.len(),
    ensures
        children_of(backbone, id, n) == 0 <==> childless(backbone, id, n),
        children_of(backbone, id, n) > 1 <==> branches(backbone, id, n),
    decreases n,
{
    if n > 0 {
        let m = (n - 1) as nat;
        lemma_children(backbone, id, m);
        if backbone[n - 1].1 == id {
            if !childless(backbone, id, m) {
                let k = choose|k: int| 0 <= k < m && (#[trigger] backbone[k]).1 == id;
                assert(0 <= k < n - 1 && backbone[k].1 == id && backbone[n - 1].1 == id);
                assert(branches(backbone, id, n));
            }
        }
        if branches(backbone, id, m) {
            let (j, k) = choose|j: int, k: int|
                0 <= j < k < m && (#[trigger] backbone[j]).1 == id && (#[trigger] backbone[k]).1
                    == id;
            assert(0 <= j < k < n && backbone[j].1 == id && backbone[k].1 == id);
        }
    }
}

proof fn lemma_shaped(
    nodes: Seq<(Seq<char>, Tree)>,
    backbone: Seq<(Seq<char>, Seq<char>)>,
    n: nat,
)
    requires
        n <= nodes.len(),
    ensures
        shaped(nodes, backbone, true, n) == tally(
            |i: int| childless(backbone, nodes[i].0, backbone.len()),
            n,
        ),
        shaped(nodes, backbone, false, n) == tally(
            |i: int| branches(backbone, nodes[i].0, backbone.len()),
            n,
        ),
        shaped(nodes, backbone, true, n) <= n,
        shaped(nodes, backbone, false, n) <= n,
    decreases n,
{
    if n > 0 {
        lemma_shaped(nodes, backbone, (n - 1) as nat);
        lemma_children(backbone, nodes[n - 1].0, backbone.len());
    }
}

proof fn lemma_of_class(edges: Seq<(Seq<char>, Tree)>, class: Seq<char>, n: nat)
    requires
        n <= edges.len(),
    ensures
        of_class(edges, class, n) == tally(
            |i: int| edges[i].1.text_at("class"@) == Some(class),
            n,
        ),
        of_class(edges, class, n) <= n,
    decreases n,
{
    if n > 0 {
        lemma_of_class(edges, class, (n - 1) as nat);
    }
}

proof fn lemma_deepest(
    nodes: Seq<(Seq<char>, Tree)>,
    backbone: Seq<(Seq<char>, Seq<char>)>,
    n: nat,
)
    requires
        0 < n <= nodes.len(),
    ensures
        forall|i: int|
            0 <= i < n ==> depth_of(backbone, (#[trigger] nodes[i]).0, backbone.len()) <= deepest(
                nodes,
                backbone,
                n,
            ),
        exists|i: int|
            0 <= i < n && depth_of(backbone, (#[trigger] nodes[i]).0, backbone.len()) == deepest(
                nodes,
                backbone,
                n,
            ),
    decreases n,
{
    if n > 1 {
        let m = (n - 1) as nat;
        lemma_deepest(nodes, backbone, m);
        let k = choose|i: int|
            0 <= i < m && depth_of(backbone, (#[trigger] nodes[i]).0, backbone.len()) == deepest(
                nodes,
                backbone,
                m,
            );
        if depth_of(backbone, nodes[n - 1].0, backbone.len()) > deepest(nodes, backbone, m) {
            assert(nodes[n - 1] == nodes[n - 1]);
        } else {
            assert(nodes[k] == nodes[k]);
        }
    } else {
        assert(deepest(nodes, backbone, 0) == 0);
        assert(nodes[0] == nodes[0]);
    }
}

/// Whether an edge of the backbone leads down to one node from another.
pub open spec fn leads(edge: Tree, to: Seq<char>, from: Seq<char>) -> bool {
    edge.flag_at("canonical_backbone"@) == Some(true) && edge.text_at("to"@) == Some(to)
        && edge.text_at("from"@) == Some(from)
}

proof fn lemma_backbone(
    nodes: Seq<(Seq<char>, Tree)>,
    edges: Seq<(Seq<char>, Tree)>,
    i: nat,
    found: Seq<(Seq<char>, Seq<char>)>,
    to: Seq<char>,
    from: Seq<char>,
)
    requires
        backbone_from(nodes, edges, i, found) is Ok,
    ensures
        backbone_from(nodes, edges, i, found)->Ok_0.contains((to, from)) <==> found.contains(
            (to, from),
        ) || exists|k: int| i <= k < edges.len() && leads((#[trigger] edges[k]).1, to, from),
    decreases edges.len() - i,
{
    if i < edges.len() {
        let step = backbone_step(nodes, edges[i as int].0, edges[i as int].1)->Ok_0;
        let next = match step {
            None => found,
            Some(pair) => found.push(pair),
        };
        lemma_backbone(nodes, edges, i + 1, next, to, from);
        assert(step == Some((to, from)) <==> leads(edges[i as int].1, to, from));
        if step is Some {
            assert(next[found.len() as int] == step->0);
            if found.contains((to, from)) {
                let k = choose|k: int| 0 <= k < found.len() && found[k] == (to, from);
                assert(next[k] == (to, from));
            }
            if next.contains((to, from)) && step != Some((to, from)) {
                let k = choose|k: int| 0 <= k < next.len() && next[k] == (to, from);
                assert(found[k] == (to, from));
            }
        }
    }
}

/// A graph is counted as it stands: the nodes with nothing below them are its leaves, those with
/// more than one step down its forks, and its edges are counted by their classes. It is as deep
/// as its deepest node. The steps of the backbone are the edges that are said to be of it.
pub proof fn graphs_are_counted_as_they_stand(
    nodes: Seq<(Seq<char>, Tree)>,
    edges: Seq<(Seq<char>, Tree)>,
    to: Seq<char>,
    from: Seq<char>,
)
    requires
        finished(nodes, edges) is Ok,
        nodes.len() <= usize::MAX,
        edges.len() <= usize::MAX,
    ensures
        ({
            let d = finished(nodes, edges)->Ok_0.diagnostics;
            let (roots, backbone) = frame_of(nodes, edges)->Ok_0;
            &&& d.leaf_count == tally(
                |i: int| childless(backbone, nodes[i].0, backbone.len()),
                nodes.len(),
            )
            &&& d.fork_count == tally(
                |i: int| branches(backbone, nodes[i].0, backbone.len()),
                nodes.len(),
            )
            &&& d.structural_edge_count == tally(
                |i: int| edges[i].1.text_at("class"@) == Some("structural"@),
                edges.len(),
            )
            &&& d.annotation_edge_count == tally(
                |i: int| edges[i].1.text_at("class"@) == Some("annotation"@),
                edges.len(),
            )
            &&& d.source_backed_edge_count == edges.len()
            &&& d.sequence_edge_count == 0 && d.inferred_edge_count == 0
            &&& !d.projection_heavy_branching
            &&& backbone.contains((to, from)) <==> exists|k: int|
                0 <= k < edges.len() && leads((#[trigger] edges[k]).1, to, from)
            &&& forall|i: int|
                0 <= i < nodes.len() ==> depth_of(
                    backbone,
                    (#[trigger] nodes[i]).0,
                    backbone.len(),
                ) <= deepest(nodes, backbone, nodes.len())
            &&& exists|i: int|
                0 <= i < nodes.len() && depth_of(
                    backbone,
                    (#[trigger] nodes[i]).0,
                    backbone.len(),
                ) == deepest(nodes, backbone, nodes.len())
        }),
{
    let (roots, backbone) = frame_of(nodes, edges)->Ok_0;
    lemma_shaped(nodes, backbone, nodes.len());
    lemma_of_class(edges, "structural"@, edges.len());
    lemma_of_class(edges, "annotation"@, edges.len());
    lemma_deepest(nodes, backbone, nodes.len());
    lemma_backbone(nodes, edges, 0, Seq::empty(), to, from);
}

} // verus!
