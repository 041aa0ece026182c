//! The parts of a summary, and how they are made to fit.

use super::backbone::{
    assign_places, backbone_children, best_path, kin_of, longest_way, places, shallow,
};
use super::wording::{bounded, bounded_text, line_of, line_text, reason_of, reason_text};
use crate::json::{Json, Tree};
use crate::projection::forest::{first_root, Projected, Projection};
use crate::sdk::{answers, input_error, ExtensionError};
use crate::table::{copy_texts, find, join, joined, member, put, put_row};
use crate::text::{byte_count, byte_len, decimal, decimal_text, join2, join3, same};
use vstd::prelude::*;

verus! {

/// The name of the slot.
pub const GRAPH_SLOT_NAME: &'static str = "graph";

/// The most bytes that a summary takes.
pub const MAX_SLOT_BYTES: usize = 4096;

/// The most titles of the active path that are shown.
pub const ACTIVE_PATH_LIMIT: usize = 8;

pub const TITLE_BYTES: usize = 120;

pub const ROOT_TITLE_BYTES: usize = 160;

pub const REASON_BYTES: usize = 360;

/// A graph that is summarised.
pub struct SummaryGraph {
    pub active_root: Option<String>,
    pub roots: Vec<String>,
    pub nodes: Vec<Json>,
    pub edges: Vec<Json>,
}

/// What a [`SummaryGraph`] holds.
#[verifier::ext_equal]
pub struct Summarised {
    pub active_root: Option<Seq<char>>,
    pub roots: Seq<Seq<char>>,
    pub nodes: Seq<Tree>,
    pub edges: Seq<Tree>,
}

impl DeepView for SummaryGraph {
    type V = Summarised;

    open spec fn deep_view(&self) -> Summarised {
        Summarised {
            active_root: self.active_root.deep_view(),
            roots: self.roots.deep_view(),
            nodes: self.nodes.deep_view(),
            edges: self.edges.deep_view(),
        }
    }
}

/// The graph of a projection.
pub open spec fn summarised_projection(p: Projected) -> Summarised {
    Summarised { active_root: first_root(p), roots: p.roots, nodes: p.nodes, edges: p.edges }
}

/// The roots that a list names, from position `i` on.
pub open spec fn root_texts(list: Seq<Tree>, i: nat, found: Seq<Seq<char>>) -> Result<
    Seq<Seq<char>>,
    Seq<char>,
>
    decreases list.len() - i,
{
    if i >= list.len() {
        Ok(found)
    } else {
        match list[i as int].text() {
            None => Err("causal-dag forest.roots must contain strings"@),
            Some(root) => root_texts(list, i + 1, found.push(root)),
        }
    }
}

/// The graph of an artifact.
pub open spec fn summarised_artifact(artifact: Tree) -> Result<Summarised, Seq<char>> {
    match artifact.at("forest"@).object() {
        None => Err("causal-dag artifact is missing `forest`"@),
        Some(_) => {
            let forest = artifact.at("forest"@);
            match forest.list_at("roots"@) {
                None => Err("causal-dag artifact is missing `forest.roots`"@),
                Some(list) => match root_texts(list, 0, Seq::empty()) {
                    Err(e) => Err(e),
                    Ok(roots) => match active_root_of(forest.at("active_root"@)) {
                        None => Err("causal-dag forest.active_root is invalid"@),
                        Some(active_root) => match forest.list_at("nodes"@) {
                            None => Err("causal-dag artifact is missing `forest.nodes`"@),
                            Some(nodes) => match forest.list_at("edges"@) {
                                None => Err("causal-dag artifact is missing `forest.edges`"@),
                                Some(edges) => Ok(
                                    Summarised { active_root, roots, nodes, edges },
                                ),
                            },
                        },
                    },
                },
            }
        },
    }
}

/// The root that is active, if there is one; none where the value is no name.
pub open spec fn active_root_of(value: Tree) -> Option<Option<Seq<char>>> {
    match value {
        Tree::Null => Some(None),
        Tree::Text(root) => Some(Some(root)),
        _ => None,
    }
}

fn copy_list(list: &Vec<Json>) -> (r: Vec<Json>)
    ensures
        r.deep_view() == list.deep_view(),
{
    let mut out: Vec<Json> = Vec::new();
    let mut i: usize = 0;
    while i < list.len()
        invariant
            i <= list@.len(),
            out@.len() == i,
            forall|j: int| 0 <= j < i ==> (#[trigger] out@[j])@ == list@[j]@,
        decreases list@.len() - i,
    {
        out.push(list[i].clone());
        i += 1;
    }
    assert(out.deep_view() =~= list.deep_view());
    out
}

fn read_roots(list: &Vec<Json>) -> (r: Result<Vec<String>, ExtensionError>)
    ensures
        answers(r, root_texts(list.deep_view(), 0, Seq::empty())),
{
    let mut roots: Vec<String> = Vec::new();
    let mut i: usize = 0;
    assert(roots.deep_view() =~= Seq::empty());
    while i < list.len()
        invariant
            i <= list@.len(),
            root_texts(list.deep_view(), 0, Seq::empty()) == root_texts(
                list.deep_view(),
                i as nat,
                roots.deep_view(),
            ),
        decreases list@.len() - i,
    {
        assert(list.deep_view()[i as int] == list@[i as int]@);
        match list[i].as_text() {
            Some(root) => {
                let ghost was = roots.deep_view();
                roots.push(root.clone());
                assert(roots.deep_view() =~= was.push(root@));
            },
            None => {
                return Err(input_error("causal-dag forest.roots must contain strings"));
            },
        }
        i += 1;
    }
    Ok(roots)
}

impl SummaryGraph {
    pub fn from_projection(projection: &Projection) -> (r: Self)
        ensures
            r.deep_view() == summarised_projection(projection.deep_view()),
    {
        let active_root = match projection.active_root_id() {
            Some(root) => Some(root.clone()),
            None => None,
        };
        SummaryGraph {
            active_root,
            roots: copy_texts(projection.root_ids()),
            nodes: copy_list(projection.nodes()),
            edges: copy_list(projection.edges()),
        }
    }

    pub fn from_artifact(artifact: &Json) -> (r: Result<Self, ExtensionError>)
        ensures
            answers(r, summarised_artifact(artifact@)),
    {
        let forest = match artifact.get("forest") {
            Some(forest) => forest,
            None => {
                return Err(input_error("causal-dag artifact is missing `forest`"));
            },
        };
        if forest.as_object().is_none() {
            return Err(input_error("causal-dag artifact is missing `forest`"));
        }
        let list = match forest.list_at("roots") {
            Some(list) => list,
            None => {
                return Err(input_error("causal-dag artifact is missing `forest.roots`"));
            },
        };
        let roots = read_roots(list)?;
        let active_root = match forest.get("active_root") {
            None | Some(Json::Null) => None,
            Some(Json::Text(root)) => Some(root.clone()),
            _ => {
                return Err(input_error("causal-dag forest.active_root is invalid"));
            },
        };
        let nodes = match forest.list_at("nodes") {
            Some(list) => copy_list(list),
            None => {
                return Err(input_error("causal-dag artifact is missing `forest.nodes`"));
            },
        };
        let edges = match forest.list_at("edges") {
            Some(list) => copy_list(list),
            None => {
                return Err(input_error("causal-dag artifact is missing `forest.edges`"));
            },
        };
        Ok(SummaryGraph { active_root, roots, nodes, edges })
    }
}

/// What a summary says of a node.
pub struct NodeSummary {
    pub status: String,
    pub title: String,
    pub reason: String,
    pub order: usize,
}

/// What a [`NodeSummary`] holds.
#[verifier::ext_equal]
pub struct Brief {
    pub status: Seq<char>,
    pub title: Seq<char>,
    pub reason: Seq<char>,
    pub order: usize,
}

impl DeepView for NodeSummary {
    type V = Brief;

    open spec fn deep_view(&self) -> Brief {
        Brief {
            status: self.status@,
            title: self.title@,
            reason: self.reason@,
            order: self.order,
        }
    }
}

/// The text of a field, or nothing.
pub open spec fn text_or_empty(value: Tree, name: Seq<char>) -> Seq<char> {
    match value.text_at(name) {
        Some(text) => text,
        None => Seq::empty(),
    }
}

/// What a summary says of a node; none of one without an id or a title.
pub open spec fn brief_of(node: Tree, order: Seq<(Seq<char>, usize)>) -> Option<
    (Seq<char>, Brief),
> {
    match (node.text_at("id"@), node.text_at("title"@)) {
        (Some(id), Some(title)) => Some(
            (
                id,
                Brief {
                    status: text_or_empty(node, "status"@),
                    title: bounded(line_of(title), TITLE_BYTES as nat),
                    reason: bounded(
                        reason_of(text_or_empty(node, "summary"@)),
                        REASON_BYTES as nat,
                    ),
                    order: match member(order, id) {
                        Some(place) => place,
                        None => usize::MAX,
                    },
                },
            ),
        ),
        _ => None,
    }
}

/// What a summary says of the first `n` nodes, by ascending id.
pub open spec fn briefs(nodes: Seq<Tree>, order: Seq<(Seq<char>, usize)>, n: nat) -> Seq<
    (Seq<char>, Brief),
>
    decreases n,
{
    if n == 0 {
        Seq::empty()
    } else {
        let rest = briefs(nodes, order, (n - 1) as nat);
        match brief_of(nodes[n - 1], order) {
            None => rest,
            Some((id, brief)) => put(rest, id, brief),
        }
    }
}

fn field_or_empty(value: &Json, name: &str) -> (r: String)
    ensures
        r@ == text_or_empty(value@, name@),
{
    match value.text_at(name) {
        Some(text) => text.clone(),
        None => String::new(),
    }
}

fn projection_nodes(nodes: &Vec<Json>, order: &Vec<(String, usize)>) -> (r: Vec<
    (String, NodeSummary),
>)
    ensures
        r.deep_view() == briefs(nodes.deep_view(), order.deep_view(), nodes@.len()),
{
    let mut out: Vec<(String, NodeSummary)> = Vec::new();
    let mut i: usize = 0;
    assert(out.deep_view() =~= Seq::empty());
    while i < nodes.len()
        invariant
            i <= nodes@.len(),
            out.deep_view() == briefs(nodes.deep_view(), order.deep_view(), i as nat),
        decreases nodes@.len() - i,
    {
        let node = &nodes[i];
        assert(nodes.deep_view()[i as int] == node@);
        if let Some(id) = node.text_at("id") {
            if let Some(title) = node.text_at("title") {
                let place: usize = match find(order, id) {
                    Some(place) => *place,
                    None => usize::MAX,
                };
                let brief = NodeSummary {
                    status: field_or_empty(node, "status"),
                    title: bounded_text(&line_text(title), TITLE_BYTES),
                    reason: bounded_text(
                        &reason_text(&field_or_empty(node, "summary")),
                        REASON_BYTES,
                    ),
                    order: place,
                };
                put_row(&mut out, id, brief);
            }
        }
        i += 1;
    }
    out
}

/// A list of nodes with one more, behind all that do not come after it.
pub open spec fn placed(list: Seq<Brief>, node: Brief) -> Seq<Brief>
    decreases list.len(),
{
    if list.len() == 0 || list.last().order <= node.order {
        list.push(node)
    } else {
        placed(list.drop_last(), node).push(list.last())
    }
}

/// The first `n` nodes by their places; those of one place stay as they stand, by their ids.
pub open spec fn by_place(nodes: Seq<(Seq<char>, Brief)>, n: nat) -> Seq<Brief>
    decreases n,
{
    if n == 0 {
        Seq::empty()
    } else {
        placed(by_place(nodes, (n - 1) as nat), nodes[n - 1].1)
    }
}

/// Nodes in order stay in order with one more.
pub proof fn lemma_placed_sorted(list: Seq<Brief>, node: Brief)
    requires
        forall|i: int, j: int|
            0 <= i < j < list.len() ==> (#[trigger] list[i]).order <= (#[trigger] list[j]).order,
    ensures
        placed(list, node).len() == list.len() + 1,
        forall|i: int, j: int|
            0 <= i < j < placed(list, node).len() ==> (#[trigger] placed(list, node)[i]).order <= (
            #[trigger] placed(list, node)[j]).order,
        placed(list, node).to_multiset() == list.to_multiset().insert(node),
        forall|i: int|
            0 <= i < placed(list, node).len() ==> (#[trigger] placed(list, node)[i]).order
                <= node.order || (list.len() > 0 && placed(list, node)[i].order
                <= list.last().order),
    decreases list.len(),
{
    broadcast use vstd::seq_lib::group_to_multiset_ensures;

    if list.len() == 0 || list.last().order <= node.order {
    } else {
        lemma_placed_sorted(list.drop_last(), node);
        assert(list.drop_last().push(list.last()) =~= list);
    }
}

/// The nodes of a summary are listed by their places, each once.
pub proof fn nodes_are_listed_by_place(nodes: Seq<(Seq<char>, Brief)>, n: nat)
    requires
        n <= nodes.len(),
    ensures
        by_place(nodes, n).len() == n,
        by_place(nodes, n).to_multiset() == Seq::new(n, |i: int| nodes[i].1).to_multiset(),
        forall|i: int, j: int|
            0 <= i < j < n ==> (#[trigger] by_place(nodes, n)[i]).order <= (
            #[trigger] by_place(nodes, n)[j]).order,
    decreases n,
{
    broadcast use vstd::seq_lib::group_to_multiset_ensures;

    if n == 0 {
        assert(Seq::new(0, |i: int| nodes[i].1) =~= by_place(nodes, 0));
    } else {
        nodes_are_listed_by_place(nodes, (n - 1) as nat);
        lemma_placed_sorted(by_place(nodes, (n - 1) as nat), nodes[n - 1].1);
        assert(Seq::new(n, |i: int| nodes[i].1) =~= Seq::new(
            (n - 1) as nat,
            |i: int| nodes[i].1,
        ).push(nodes[n - 1].1));
    }
}

fn nodes_by_place(nodes: &Vec<(String, NodeSummary)>) -> (r: Vec<NodeSummary>)
    ensures
        r.deep_view() == by_place(nodes.deep_view(), nodes@.len()),
{
    let mut out: Vec<NodeSummary> = Vec::new();
    let mut i: usize = 0;
    assert(out.deep_view() =~= Seq::empty());
    while i < nodes.len()
        invariant
            i <= nodes@.len(),
            out.deep_view() == by_place(nodes.deep_view(), i as nat),
        decreases nodes@.len() - i,
    {
        let found = &nodes[i].1;
        let node = NodeSummary {
            status: found.status.clone(),
            title: found.title.clone(),
            reason: found.reason.clone(),
            order: found.order,
        };
        let ghost brief = node.deep_view();
        assert(nodes.deep_view()[i as int].1 == brief);
        let ghost list = out.deep_view();
        let mut j: usize = out.len();
        assert(list.take(j as int) =~= list);
        assert(list.skip(j as int) =~= Seq::empty());
        assert(placed(list, brief) + Seq::<Brief>::empty() =~= placed(list, brief));
        while j > 0 && out[j - 1].order > node.order
            invariant
                j <= out@.len(),
                list == out.deep_view(),
                brief == node.deep_view(),
                placed(list, brief) == placed(list.take(j as int), brief) + list.skip(j as int),
            decreases j,
        {
            let ghost head = list.take(j as int);
            assert(head.last() == out@[j - 1].deep_view());
            assert(head.drop_last() =~= list.take(j - 1));
            assert(list.skip(j - 1) =~= seq![head.last()] + list.skip(j as int));
            assert(placed(list, brief) =~= placed(list.take(j - 1), brief) + list.skip(j - 1));
            j -= 1;
        }
        proof {
            let head = list.take(j as int);
            if j > 0 {
                assert(head.last() == out@[j - 1].deep_view());
            }
            assert(placed(head, brief) == head.push(brief));
        }
        out.insert(j, node);
        assert(out.deep_view() =~= list.take(j as int).push(brief) + list.skip(j as int));
        i += 1;
    }
    out
}

/// Whether a node of this status is open.
pub open spec fn is_open(status: Seq<char>) -> bool {
    status == "open"@
}

/// Whether a node of this status is a dead end.
pub open spec fn is_dead_end(status: Seq<char>) -> bool {
    status == "dead_end"@ || status == "abandoned"@ || status == "superseded"@
}

/// The titles of the open nodes among the first `n`.
pub open spec fn open_titles(nodes: Seq<Brief>, n: nat) -> Seq<Seq<char>>
    decreases n,
{
    if n == 0 {
        Seq::empty()
    } else if is_open(nodes[n - 1].status) {
        open_titles(nodes, (n - 1) as nat).push(nodes[n - 1].title)
    } else {
        open_titles(nodes, (n - 1) as nat)
    }
}

/// The titles and the reasons of the dead ends among the first `n` nodes.
pub open spec fn dead_ends(nodes: Seq<Brief>, n: nat) -> Seq<(Seq<char>, Seq<char>)>
    decreases n,
{
    if n == 0 {
        Seq::empty()
    } else if is_dead_end(nodes[n - 1].status) {
        dead_ends(nodes, (n - 1) as nat).push((nodes[n - 1].title, nodes[n - 1].reason))
    } else {
        dead_ends(nodes, (n - 1) as nat)
    }
}

fn list_open(nodes: &Vec<NodeSummary>) -> (r: Vec<String>)
    ensures
        r.deep_view() == open_titles(nodes.deep_view(), nodes@.len()),
{
    let mut out: Vec<String> = Vec::new();
    let mut i: usize = 0;
    assert(out.deep_view() =~= Seq::empty());
    while i < nodes.len()
        invariant
            i <= nodes@.len(),
            out.deep_view() == open_titles(nodes.deep_view(), i as nat),
        decreases nodes@.len() - i,
    {
        assert(nodes.deep_view()[i as int] == nodes@[i as int].deep_view());
        if same(&nodes[i].status, "open") {
            let ghost was = out.deep_view();
            out.push(nodes[i].title.clone());
            assert(out.deep_view() =~= was.push(nodes.deep_view()[i as int].title));
        }
        i += 1;
    }
    out
}

fn list_dead_ends(nodes: &Vec<NodeSummary>) -> (r: Vec<(String, String)>)
    ensures
        r.deep_view() == dead_ends(nodes.deep_view(), nodes@.len()),
{
    let mut out: Vec<(String, String)> = Vec::new();
    let mut i: usize = 0;
    assert(out.deep_view() =~= Seq::empty());
    while i < nodes.len()
        invariant
            i <= nodes@.len(),
            out.deep_view() == dead_ends(nodes.deep_view(), i as nat),
        decreases nodes@.len() - i,
    {
        let node = &nodes[i];
        assert(nodes.deep_view()[i as int] == node.deep_view());
        if same(&node.status, "dead_end") || same(&node.status, "abandoned") || same(
            &node.status,
            "superseded",
        ) {
            let ghost was = out.deep_view();
            out.push((node.title.clone(), node.reason.clone()));
            assert(out.deep_view() =~= was.push((node.title@, node.reason@)));
        }
        i += 1;
    }
    out
}

/// The titles of the first `n` nodes of a path, as far as they are known.
pub open spec fn path_titles(
    path: Seq<Seq<char>>,
    nodes: Seq<(Seq<char>, Brief)>,
    n: nat,
) -> Seq<Seq<char>>
    decreases n,
{
    if n == 0 {
        Seq::empty()
    } else {
        let rest = path_titles(path, nodes, (n - 1) as nat);
        match member(nodes, path[n - 1]) {
            None => rest,
            Some(node) => rest.push(node.title),
        }
    }
}

fn list_path(path: &Vec<String>, nodes: &Vec<(String, NodeSummary)>) -> (r: Vec<String>)
    ensures
        r.deep_view() == path_titles(path.deep_view(), nodes.deep_view(), path@.len()),
{
    let mut out: Vec<String> = Vec::new();
    let mut i: usize = 0;
    assert(out.deep_view() =~= Seq::empty());
    while i < path.len()
        invariant
            i <= path@.len(),
            out.deep_view() == path_titles(path.deep_view(), nodes.deep_view(), i as nat),
        decreases path@.len() - i,
    {
        assert(path.deep_view()[i as int] == path@[i as int]@);
        if let Some(node) = find(nodes, &path[i]) {
            let ghost was = out.deep_view();
            out.push(node.title.clone());
            assert(out.deep_view() =~= was.push(node.title@));
        }
        i += 1;
    }
    out
}

/// The title of the first root that is known, from position `i` on.
pub open spec fn first_known(
    roots: Seq<Seq<char>>,
    nodes: Seq<(Seq<char>, Brief)>,
    i: nat,
) -> Option<Seq<char>>
    decreases roots.len() - i,
{
    if i >= roots.len() {
        None
    } else {
        match member(nodes, roots[i as int]) {
            Some(node) => Some(node.title),
            None => first_known(roots, nodes, i + 1),
        }
    }
}

/// The title of a graph.
pub open spec fn graph_title(graph: Summarised, nodes: Seq<(Seq<char>, Brief)>) -> Seq<char> {
    let active = match graph.active_root {
        Some(id) => member(nodes, id),
        None => None,
    };
    match active {
        Some(node) => node.title,
        None => match first_known(graph.roots, nodes, 0) {
            Some(title) => title,
            None => "empty graph"@,
        },
    }
}

fn root_title(graph: &SummaryGraph, nodes: &Vec<(String, NodeSummary)>) -> (r: String)
    ensures
        r@ == graph_title(graph.deep_view(), nodes.deep_view()),
{
    if let Some(id) = &graph.active_root {
        if let Some(node) = find(nodes, id) {
            return node.title.clone();
        }
    }
    let mut i: usize = 0;
    while i < graph.roots.len()
        invariant
            i <= graph.roots@.len(),
            first_known(graph.roots.deep_view(), nodes.deep_view(), 0) == first_known(
                graph.roots.deep_view(),
                nodes.deep_view(),
                i as nat,
            ),
            match graph.active_root.deep_view() {
                Some(id) => member(nodes.deep_view(), id) is None,
                None => true,
            },
        decreases graph.roots@.len() - i,
    {
        assert(graph.roots.deep_view()[i as int] == graph.roots@[i as int]@);
        if let Some(node) = find(nodes, &graph.roots[i]) {
            return node.title.clone();
        }
        i += 1;
    }
    "empty graph".to_owned()
}

/// The parts of a summary.
pub struct SummaryParts {
    pub header: String,
    pub active_path: Vec<String>,
    pub active_hidden: usize,
    pub open: Vec<String>,
    pub open_hidden: usize,
    pub dead_ends: Vec<(String, String)>,
    pub dead_hidden: usize,
}

/// What [`SummaryParts`] hold.
#[verifier::ext_equal]
pub struct Parts {
    pub header: Seq<char>,
    pub active_path: Seq<Seq<char>>,
    pub active_hidden: nat,
    pub open: Seq<Seq<char>>,
    pub open_hidden: nat,
    pub dead_ends: Seq<(Seq<char>, Seq<char>)>,
    pub dead_hidden: nat,
}

impl DeepView for SummaryParts {
    type V = Parts;

    open spec fn deep_view(&self) -> Parts {
        Parts {
            header: self.header@,
            active_path: self.active_path.deep_view(),
            active_hidden: self.active_hidden as nat,
            open: self.open.deep_view(),
            open_hidden: self.open_hidden as nat,
            dead_ends: self.dead_ends.deep_view(),
            dead_hidden: self.dead_hidden as nat,
        }
    }
}

/// The node at which the active path starts.
pub open spec fn path_start(graph: Summarised) -> Option<Seq<char>> {
    match graph.active_root {
        Some(root) => Some(root),
        None => if graph.roots.len() > 0 {
            Some(graph.roots[0])
        } else {
            None
        },
    }
}

/// Whether no way down from the start of the active path runs in a circle: it takes no more
/// steps than there are parents.
pub open spec fn finite(graph: Summarised) -> bool {
    let kin = kin_of(graph.edges, graph.edges.len());
    match path_start(graph) {
        Some(root) => shallow(kin, root, kin.len()),
        None => true,
    }
}

/// The nodes of the active path.
pub open spec fn active_path(graph: Summarised) -> Seq<Seq<char>> {
    let kin = kin_of(graph.edges, graph.edges.len());
    match path_start(graph) {
        Some(root) => longest_way(kin, root, kin.len()),
        None => Seq::empty(),
    }
}

/// What a summary says of the nodes of a graph.
pub open spec fn briefs_of(graph: Summarised) -> Seq<(Seq<char>, Brief)> {
    let kin = kin_of(graph.edges, graph.edges.len());
    briefs(graph.nodes, places(kin, graph.roots, graph.roots.len()), graph.nodes.len())
}

/// The first line of a summary.
pub open spec fn header_of(graph: Summarised) -> Seq<char> {
    "GRAPH: "@ + bounded(graph_title(graph, briefs_of(graph)), ROOT_TITLE_BYTES as nat) + " ("@
        + decimal(graph.nodes.len()) + " nodes, "@ + decimal(graph.edges.len()) + " edges)"@
}

/// The parts of the summary of a graph, before they are made to fit.
pub open spec fn parts_of(graph: Summarised) -> Parts {
    let nodes = briefs_of(graph);
    let path = active_path(graph);
    let titles = path_titles(path, nodes, path.len());
    let hidden = if titles.len() > ACTIVE_PATH_LIMIT {
        (titles.len() - ACTIVE_PATH_LIMIT) as nat
    } else {
        0
    };
    let listed = by_place(nodes, nodes.len());
    Parts {
        header: header_of(graph),
        active_path: titles.skip(hidden as int),
        active_hidden: hidden,
        open: open_titles(listed, listed.len()),
        open_hidden: 0,
        dead_ends: dead_ends(listed, listed.len()),
        dead_hidden: 0,
    }
}

/// An entry of a list.
pub open spec fn bullet(title: Seq<char>) -> Seq<char> {
    "- "@ + title
}

/// The entry of a dead end.
pub open spec fn dead_end_line(entry: (Seq<char>, Seq<char>)) -> Seq<char> {
    if entry.1.len() == 0 {
        bullet(entry.0)
    } else {
        bullet(entry.0) + " — "@ + entry.1
    }
}

/// The lines of a section.
pub open spec fn section(heading: Seq<char>, hidden: nat, body: Seq<Seq<char>>) -> Seq<Seq<char>> {
    let head = seq![Seq::<char>::empty(), heading + ":"@];
    if hidden > 0 {
        head.push("… "@ + decimal(hidden) + " more"@) + body
    } else {
        head + body
    }
}

/// The entries of a list.
pub open spec fn bullets(titles: Seq<Seq<char>>) -> Seq<Seq<char>> {
    Seq::new(titles.len(), |i: int| bullet(titles[i]))
}

/// The entries of the dead ends.
pub open spec fn dead_end_lines(entries: Seq<(Seq<char>, Seq<char>)>) -> Seq<Seq<char>> {
    Seq::new(entries.len(), |i: int| dead_end_line(entries[i]))
}

/// The lines of a summary.
pub open spec fn summary_lines(p: Parts) -> Seq<Seq<char>> {
    seq![p.header] + section("DEAD ENDS"@, p.dead_hidden, dead_end_lines(p.dead_ends)) + section(
        "ACTIVE PATH"@,
        p.active_hidden,
        bullets(p.active_path),
    ) + section("OPEN"@, p.open_hidden, bullets(p.open))
}

/// The text of a summary.
#[verifier::opaque]
pub open spec fn rendered(p: Parts) -> Seq<char> {
    joined(summary_lines(p), "\n"@)
}

/// Whether the text of a summary is too long.
pub open spec fn too_long(p: Parts) -> bool {
    byte_len(rendered(p)) > MAX_SLOT_BYTES
}

fn push_section(lines: Vec<String>, heading: &str, hidden: usize, body: Vec<String>) -> (r: Vec<
    String,
>)
    ensures
        r.deep_view() == lines.deep_view() + section(
            heading@,
            hidden as nat,
            body.deep_view(),
        ),
{
    let ghost start = lines.deep_view();
    let mut out = lines;
    out.push(String::new());
    out.push(join2(heading, ":"));
    let ghost head = seq![Seq::<char>::empty(), heading@ + ":"@];
    assert(out.deep_view() =~= start + head);
    if hidden > 0 {
        out.push(join3("… ", &decimal_text(hidden as u64), " more"));
        assert(out.deep_view() =~= start + head.push(
            "… "@ + decimal(hidden as nat) + " more"@,
        ));
    }
    let ghost opened = out.deep_view();
    let ghost all = body.deep_view();
    let mut i: usize = 0;
    assert(opened + all.take(0) =~= opened);
    while i < body.len()
        invariant
            i <= body@.len(),
            all == body.deep_view(),
            out.deep_view() == opened + all.take(i as int),
        decreases body@.len() - i,
    {
        let ghost was = out.deep_view();
        out.push(body[i].clone());
        assert(out.deep_view() =~= was.push(all[i as int]));
        assert(all.take(i + 1) =~= all.take(i as int).push(all[i as int]));
        assert(out.deep_view() =~= opened + all.take(i + 1));
        i += 1;
    }
    assert(all.take(all.len() as int) =~= all);
    assert(out.deep_view() =~= start + section(heading@, hidden as nat, all));
    out
}

fn bullet_lines(titles: &Vec<String>) -> (r: Vec<String>)
    ensures
        r.deep_view() == bullets(titles.deep_view()),
{
    let mut out: Vec<String> = Vec::new();
    let mut i: usize = 0;
    while i < titles.len()
        invariant
            i <= titles@.len(),
            out@.len() == i,
            forall|j: int| 0 <= j < i ==> (#[trigger] out@[j])@ == bullet(titles@[j]@),
        decreases titles@.len() - i,
    {
        out.push(join2("- ", &titles[i]));
        i += 1;
    }
    assert(out.deep_view() =~= bullets(titles.deep_view()));
    out
}

fn render_dead_ends(entries: &Vec<(String, String)>) -> (r: Vec<String>)
    ensures
        r.deep_view() == dead_end_lines(entries.deep_view()),
{
    let mut out: Vec<String> = Vec::new();
    let mut i: usize = 0;
    while i < entries.len()
        invariant
            i <= entries@.len(),
            out@.len() == i,
            forall|j: int|
                0 <= j < i ==> (#[trigger] out@[j])@ == dead_end_line(entries.deep_view()[j]),
        decreases entries@.len() - i,
    {
        let entry = &entries[i];
        assert(entries.deep_view()[i as int] == (entry.0@, entry.1@));
        let mut line = join2("- ", &entry.0);
        if entry.1.as_str().unicode_len() > 0 {
            line.push_str(" — ");
            line.push_str(&entry.1);
        }
        out.push(line);
        i += 1;
    }
    assert(out.deep_view() =~= dead_end_lines(entries.deep_view()));
    out
}

impl SummaryParts {
    /// The parts of the summary of a graph.
    pub fn from_graph(graph: &SummaryGraph) -> (r: Self)
        ensures
            r.deep_view() == parts_of(graph.deep_view()),
            r.active_hidden + r.active_path@.len() <= usize::MAX,
    {
        let kin = backbone_children(&graph.edges);
        assert(kin.deep_view().len() == kin@.len());
        let order = assign_places(&graph.roots, &kin);
        let nodes = projection_nodes(&graph.nodes, &order);
        let path = match &graph.active_root {
            Some(root) => best_path(root, &kin, kin.len()),
            None => {
                if graph.roots.len() > 0 {
                    assert(graph.roots.deep_view()[0] == graph.roots@[0]@);
                    best_path(&graph.roots[0], &kin, kin.len())
                } else {
                    let none: Vec<String> = Vec::new();
                    assert(none.deep_view() =~= Seq::empty());
                    none
                }
            },
        };
        let ghost model = graph.deep_view();
        assert(path.deep_view() == active_path(model));
        assert(nodes.deep_view() == briefs_of(model));
        let titles = list_path(&path, &nodes);
        let hidden: usize = if titles.len() > ACTIVE_PATH_LIMIT {
            titles.len() - ACTIVE_PATH_LIMIT
        } else {
            0
        };
        let ghost all = titles.deep_view();
        let mut shown: Vec<String> = Vec::new();
        let mut i: usize = hidden;
        assert(shown.deep_view() =~= all.subrange(hidden as int, hidden as int));
        while i < titles.len()
            invariant
                hidden <= i <= titles@.len(),
                all == titles.deep_view(),
                shown@.len() == i - hidden,
                shown.deep_view() == all.subrange(hidden as int, i as int),
            decreases titles@.len() - i,
        {
            let ghost was = shown.deep_view();
            shown.push(titles[i].clone());
            assert(shown.deep_view() =~= was.push(all[i as int]));
            assert(shown.deep_view() =~= all.subrange(hidden as int, i + 1));
            i += 1;
        }
        assert(all.subrange(hidden as int, all.len() as int) =~= all.skip(hidden as int));
        let listed = nodes_by_place(&nodes);
        let title = bounded_text(&root_title(graph, &nodes), ROOT_TITLE_BYTES);
        let mut header = join3("GRAPH: ", &title, " (");
        header.push_str(&decimal_text(graph.nodes.len() as u64));
        header.push_str(" nodes, ");
        header.push_str(&decimal_text(graph.edges.len() as u64));
        header.push_str(" edges)");
        SummaryParts {
            header,
            active_path: shown,
            active_hidden: hidden,
            open: list_open(&listed),
            open_hidden: 0,
            dead_ends: list_dead_ends(&listed),
            dead_hidden: 0,
        }
    }

    pub fn render(&self) -> (r: String)
        ensures
            r@ == rendered(self.deep_view()),
    {
        let start = vec![self.header.clone()];
        assert(start.deep_view() =~= seq![self.header@]);
        let lines = push_section(
            start,
            "DEAD ENDS",
            self.dead_hidden,
            render_dead_ends(&self.dead_ends),
        );
        let lines = push_section(
            lines,
            "ACTIVE PATH",
            self.active_hidden,
            bullet_lines(&self.active_path),
        );
        let lines = push_section(lines, "OPEN", self.open_hidden, bullet_lines(&self.open));
        proof {
            reveal(rendered);
        }
        join(&lines, "\n")
    }

    pub fn is_too_long(&self) -> (r: bool)
        ensures
            r == too_long(self.deep_view()),
    {
        byte_count(&self.render()) > MAX_SLOT_BYTES
    }
}

proof fn lemma_first_known(roots: Seq<Seq<char>>, nodes: Seq<(Seq<char>, Brief)>, i: nat, k: int)
    requires
        i <= k < roots.len(),
        member(nodes, roots[k]) is Some,
        forall|j: int| i <= j < k ==> member(nodes, #[trigger] roots[j]) is None,
    ensures
        first_known(roots, nodes, i) == Some(member(nodes, roots[k])->0.title),
    decreases k - i,
{
    if i < k {
        assert(member(nodes, roots[i as int]) is None);
        lemma_first_known(roots, nodes, i + 1, k);
    }
}

/// A summary starts with the title of the active root, or else of the first root, and with how
/// many nodes and edges there are. Of the active path the last steps are shown.
pub proof fn summaries_start_with_their_root(graph: Summarised)
    ensures
        ({
            let nodes = briefs_of(graph);
            let p = parts_of(graph);
            let path = active_path(graph);
            let titles = path_titles(path, nodes, path.len());
            &&& p.header == "GRAPH: "@ + bounded(
                graph_title(graph, nodes),
                160,
            ) + " ("@ + decimal(graph.nodes.len()) + " nodes, "@ + decimal(graph.edges.len())
                + " edges)"@
            &&& graph.active_root is Some && member(nodes, graph.active_root->0) is Some
                ==> graph_title(graph, nodes) == member(nodes, graph.active_root->0)->0.title
            &&& graph.active_root is None && graph.roots.len() > 0 && member(nodes, graph.roots[0])
                is Some ==> graph_title(graph, nodes) == member(nodes, graph.roots[0])->0.title
            &&& graph.active_root is None && graph.roots.len() == 0 ==> graph_title(graph, nodes)
                == "empty graph"@
            &&& p.active_hidden + p.active_path.len() == titles.len()
            &&& p.active_path.len() <= 8
            &&& p.active_hidden > 0 ==> p.active_path.len() == 8
            &&& p.active_path == titles.skip(p.active_hidden as int)
            &&& p.open_hidden == 0 && p.dead_hidden == 0
        }),
{
    let nodes = briefs_of(graph);
    if graph.roots.len() > 0 && member(nodes, graph.roots[0]) is Some {
        lemma_first_known(graph.roots, nodes, 0, 0);
    }
}

} // verus!
