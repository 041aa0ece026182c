//! The graph that the views draw: nodes with their backbone parents, and cross-arcs.

use crate::json::{Json, Tree};
use crate::schema::{RESEARCH_DAG_SCHEMA, SCHEMA_NAME};
use crate::sdk::{answers, fault, input_error, passes, ExtensionError};
use crate::table::{
    all_differ, find, has_row, holds, in_order, join, join_some, joined, member, put, put_in_order,
    put_row,
};
use crate::text::{
    before, chars_of, decimal, decimal_text, join2, join3, join5, join7, lemma_before_irreflexive,
    lemma_before_total, lemma_before_transitive, precedes, prefix, prefix_text, same, slice_text,
};
use vstd::prelude::*;

verus! {

/// A node as the views draw it.
pub struct ViewerNode {
    pub id: String,
    pub parent: Option<String>,
    pub sequence: usize,
    pub status: String,
    pub kind: String,
    pub title: String,
    pub summary: String,
    pub ev: String,
}

/// An edge that is no part of the backbone.
pub struct ViewerArc {
    pub id: String,
    pub from: String,
    pub to: String,
    pub class: String,
    pub kind: String,
    pub note: String,
}

/// A causal graph as the views draw it.
pub struct ViewerDag {
    pub session_id: String,
    pub title: String,
    pub operation: String,
    pub active_root: Option<String>,
    pub roots: Vec<String>,
    pub nodes: Vec<ViewerNode>,
    pub arcs: Vec<ViewerArc>,
}

/// What a [`ViewerNode`] holds.
#[verifier::ext_equal]
pub struct Node {
    pub id: Seq<char>,
    pub parent: Option<Seq<char>>,
    pub sequence: usize,
    pub status: Seq<char>,
    pub kind: Seq<char>,
    pub title: Seq<char>,
    pub summary: Seq<char>,
    pub ev: Seq<char>,
}

/// What a [`ViewerArc`] holds.
#[verifier::ext_equal]
pub struct Arc {
    pub id: Seq<char>,
    pub from: Seq<char>,
    pub to: Seq<char>,
    pub class: Seq<char>,
    pub kind: Seq<char>,
    pub note: Seq<char>,
}

/// What a [`ViewerDag`] holds.
#[verifier::ext_equal]
pub struct Dag {
    pub session_id: Seq<char>,
    pub title: Seq<char>,
    pub operation: Seq<char>,
    pub active_root: Option<Seq<char>>,
    pub roots: Seq<Seq<char>>,
    pub nodes: Seq<Node>,
    pub arcs: Seq<Arc>,
}

impl DeepView for ViewerNode {
    type V = Node;

    open spec fn deep_view(&self) -> Node {
        Node {
            id: self.id@,
            parent: self.parent.deep_view(),
            sequence: self.sequence,
            status: self.status@,
            kind: self.kind@,
            title: self.title@,
            summary: self.summary@,
            ev: self.ev@,
        }
    }
}

impl DeepView for ViewerArc {
    type V = Arc;

    open spec fn deep_view(&self) -> Arc {
        Arc {
            id: self.id@,
            from: self.from@,
            to: self.to@,
            class: self.class@,
            kind: self.kind@,
            note: self.note@,
        }
    }
}

impl DeepView for ViewerDag {
    type V = Dag;

    open spec fn deep_view(&self) -> Dag {
        Dag {
            session_id: self.session_id@,
            title: self.title@,
            operation: self.operation@,
            active_root: self.active_root.deep_view(),
            roots: self.roots.deep_view(),
            nodes: self.nodes.deep_view(),
            arcs: self.arcs.deep_view(),
        }
    }
}

/// The text of a field that must be there and not empty.
pub open spec fn required(value: Tree, key: Seq<char>, owner: Seq<char>) -> Result<
    Seq<char>,
    Seq<char>,
> {
    let text = value.text_at(key);
    if text is Some && text->0.len() > 0 {
        Ok(text->0)
    } else {
        Err("causal-dag "@ + owner + " is missing `"@ + key + "`"@)
    }
}

fn required_string(value: &Json, key: &str, owner: &str) -> (r: Result<String, ExtensionError>)
    ensures
        answers(r, required(value@, key@, owner@)),
{
    match value.text_at(key) {
        Some(text) if !text.as_str().is_empty() => Ok(text.clone()),
        _ => Err(fault(join5("causal-dag ", owner, " is missing `", key, "`"))),
    }
}

/// That field of each value of a list, from position `i` on behind those found.
pub open spec fn required_each(
    list: Seq<Tree>,
    key: Seq<char>,
    owner: Seq<char>,
    i: nat,
    found: Seq<Seq<char>>,
) -> Result<Seq<Seq<char>>, Seq<char>>
    decreases list.len() - i,
{
    if i >= list.len() {
        Ok(found)
    } else {
        match required(list[i as int], key, owner) {
            Ok(text) => required_each(list, key, owner, i + 1, found.push(text)),
            Err(e) => Err(e),
        }
    }
}

fn required_strings(list: &Vec<Json>, key: &str, owner: &str) -> (r: Result<
    Vec<String>,
    ExtensionError,
>)
    ensures
        answers(r, required_each(list.deep_view(), key@, owner@, 0, Seq::empty())),
{
    let mut out: Vec<String> = Vec::new();
    let mut i: usize = 0;
    assert(out.deep_view() =~= Seq::empty());
    while i < list.len()
        invariant
            i <= list@.len(),
            required_each(list.deep_view(), key@, owner@, 0, Seq::empty()) == required_each(
                list.deep_view(),
                key@,
                owner@,
                i as nat,
                out.deep_view(),
            ),
        decreases list@.len() - i,
    {
        match required_string(&list[i], key, owner) {
            Ok(text) => {
                let ghost was = out.deep_view();
                out.push(text);
                assert(out.deep_view() =~= was.push(text@));
            },
            Err(e) => {
                return Err(e);
            },
        }
        i += 1;
    }
    Ok(out)
}

/// A text that may be missing or null, but not empty.
pub open spec fn optional_field(value: Option<Tree>, field: Seq<char>) -> Result<
    Option<Seq<char>>,
    Seq<char>,
> {
    match value {
        None => Ok(None),
        Some(Tree::Null) => Ok(None),
        Some(Tree::Text(text)) => if text.len() > 0 {
            Ok(Some(text))
        } else {
            Err("causal-dag artifact `"@ + field + "` must be a string or null"@)
        },
        Some(_) => Err("causal-dag artifact `"@ + field + "` must be a string or null"@),
    }
}

fn optional_string(value: Option<&Json>, field: &str) -> (r: Result<
    Option<String>,
    ExtensionError,
>)
    ensures
        answers(r, optional_field(value.deep_view(), field@)),
{
    match value {
        None => Ok(None),
        Some(Json::Null) => Ok(None),
        Some(Json::Text(text)) if !text.as_str().is_empty() => Ok(Some(text.clone())),
        _ => Err(fault(join3("causal-dag artifact `", field, "` must be a string or null"))),
    }
}

/// The texts of a list, from position `i` on behind those found.
pub open spec fn text_each(
    list: Seq<Tree>,
    field: Seq<char>,
    i: nat,
    found: Seq<Seq<char>>,
) -> Result<Seq<Seq<char>>, Seq<char>>
    decreases list.len() - i,
{
    if i >= list.len() {
        Ok(found)
    } else {
        let text = list[i as int].text();
        if text is Some && text->0.len() > 0 {
            text_each(list, field, i + 1, found.push(text->0))
        } else {
            Err("causal-dag `"@ + field + "` must contain strings"@)
        }
    }
}

/// A list of texts, none of them empty.
pub open spec fn text_list(value: Option<Tree>, field: Seq<char>) -> Result<
    Seq<Seq<char>>,
    Seq<char>,
> {
    match value {
        Some(Tree::List(list)) => text_each(list, field, 0, Seq::empty()),
        _ => Err("causal-dag artifact is missing `"@ + field + "`"@),
    }
}

fn string_array(value: Option<&Json>, field: &str) -> (r: Result<Vec<String>, ExtensionError>)
    ensures
        answers(r, text_list(value.deep_view(), field@)),
{
    broadcast use crate::json::list_model;

    let list = match value {
        Some(Json::List(list)) => list,
        _ => {
            return Err(fault(join3("causal-dag artifact is missing `", field, "`")));
        },
    };
    let mut out: Vec<String> = Vec::new();
    let mut i: usize = 0;
    assert(out.deep_view() =~= Seq::empty());
    while i < list.len()
        invariant
            i <= list@.len(),
            text_list(value.deep_view(), field@) == text_each(
                list.deep_view(),
                field@,
                i as nat,
                out.deep_view(),
            ),
        decreases list@.len() - i,
    {
        match list[i].as_text() {
            Some(text) if !text.as_str().is_empty() => {
                let ghost was = out.deep_view();
                out.push(text.clone());
                assert(out.deep_view() =~= was.push(text@));
            },
            _ => {
                return Err(fault(join3("causal-dag `", field, "` must contain strings")));
            },
        }
        i += 1;
    }
    Ok(out)
}

/// Whether an edge of a class can be of a kind.
pub open spec fn class_allows(class: Seq<char>, kind: Seq<char>) -> bool {
    ||| class == "structural"@ && (kind == "continuation"@ || kind == "refinement"@ || kind
        == "repair"@ || kind == "fork"@ || kind == "decomposition"@ || kind == "integration"@
        || kind == "verification"@)
    ||| class == "annotation"@ && (kind == "evidence"@ || kind == "refutation"@ || kind
        == "artifact_use"@ || kind == "pivot"@ || kind == "related"@ || kind == "supersedes"@)
    ||| class == "chronology"@ && kind == "sequence"@
}

/// What is wrong with the class and the kind of an edge.
pub open spec fn class_fault(
    id: Seq<char>,
    class: Seq<char>,
    kind: Seq<char>,
    canonical_backbone: bool,
) -> Option<Seq<char>> {
    if !class_allows(class, kind) {
        Some(
            "causal-dag edge `"@ + id + "` has invalid class/kind `"@ + class + "/"@ + kind + "`"@,
        )
    } else if canonical_backbone && class == "annotation"@ {
        Some("causal-dag annotation edge `"@ + id + "` cannot be a backbone parent"@)
    } else {
        None
    }
}

fn validate_edge_class_kind(id: &str, class: &str, kind: &str, canonical_backbone: bool) -> (r:
    Result<(), ExtensionError>)
    ensures
        passes(r, class_fault(id@, class@, kind@, canonical_backbone)),
{
    let valid = if same(class, "structural") {
        same(kind, "continuation") || same(kind, "refinement") || same(kind, "repair") || same(
            kind,
            "fork",
        ) || same(kind, "decomposition") || same(kind, "integration") || same(kind, "verification")
    } else if same(class, "annotation") {
        same(kind, "evidence") || same(kind, "refutation") || same(kind, "artifact_use") || same(
            kind,
            "pivot",
        ) || same(kind, "related") || same(kind, "supersedes")
    } else if same(class, "chronology") {
        same(kind, "sequence")
    } else {
        false
    };
    proof {
        reveal_strlit("structural");
        reveal_strlit("annotation");
        reveal_strlit("chronology");
        assert("structural"@[0] == 's' && "annotation"@[0] == 'a' && "chronology"@[0] == 'c');
    }
    if !valid {
        return Err(
            fault(
                join7("causal-dag edge `", id, "` has invalid class/kind `", class, "/", kind, "`"),
            ),
        );
    }
    if canonical_backbone && same(class, "annotation") {
        return Err(
            fault(join3("causal-dag annotation edge `", id, "` cannot be a backbone parent")),
        );
    }
    Ok(())
}

/// What a backbone edge says: the child and its parent.
pub open spec fn backbone_edge(edge: Tree, node_ids: Seq<Seq<char>>) -> Result<
    (Seq<char>, Seq<char>),
    Seq<char>,
> {
    match required(edge, "id"@, "edge"@) {
        Err(e) => Err(e),
        Ok(id) => match required(edge, "from"@, "edge"@) {
            Err(e) => Err(e),
            Ok(from) => match required(edge, "to"@, "edge"@) {
                Err(e) => Err(e),
                Ok(to) => match required(edge, "class"@, "edge"@) {
                    Err(e) => Err(e),
                    Ok(class) => match required(edge, "kind"@, "edge"@) {
                        Err(e) => Err(e),
                        Ok(kind) => match class_fault(id, class, kind, true) {
                            Some(e) => Err(e),
                            None => if !node_ids.contains(from) || !node_ids.contains(to) {
                                Err(
                                    "causal-dag backbone edge `"@ + id
                                        + "` references a missing node"@,
                                )
                            } else {
                                Ok((to, from))
                            },
                        },
                    },
                },
            },
        },
    }
}

fn read_backbone_edge(edge: &Json, node_ids: &Vec<String>) -> (r: Result<
    (String, String),
    ExtensionError,
>)
    ensures
        answers(r, backbone_edge(edge@, node_ids.deep_view())),
{
    let id = match required_string(edge, "id", "edge") {
        Ok(text) => text,
        Err(e) => return Err(e),
    };
    let from = match required_string(edge, "from", "edge") {
        Ok(text) => text,
        Err(e) => return Err(e),
    };
    let to = match required_string(edge, "to", "edge") {
        Ok(text) => text,
        Err(e) => return Err(e),
    };
    let class = match required_string(edge, "class", "edge") {
        Ok(text) => text,
        Err(e) => return Err(e),
    };
    let kind = match required_string(edge, "kind", "edge") {
        Ok(text) => text,
        Err(e) => return Err(e),
    };
    match validate_edge_class_kind(&id, &class, &kind, true) {
        Ok(()) => {},
        Err(e) => return Err(e),
    }
    if !holds(node_ids, &from) || !holds(node_ids, &to) {
        return Err(
            fault(join3("causal-dag backbone edge `", &id, "` references a missing node")),
        );
    }
    Ok((to, from))
}

/// Whether an edge is marked as one of the backbone.
pub open spec fn on_backbone(edge: Tree) -> bool {
    edge.flag_at("canonical_backbone"@) == Some(true)
}

/// The parent of each node that has one, by the backbone edges from position `i` on.
pub open spec fn parents_from(
    edges: Seq<Tree>,
    node_ids: Seq<Seq<char>>,
    i: nat,
    parents: Seq<(Seq<char>, Seq<char>)>,
) -> Result<Seq<(Seq<char>, Seq<char>)>, Seq<char>>
    decreases edges.len() - i,
{
    if i >= edges.len() {
        Ok(parents)
    } else if !on_backbone(edges[i as int]) {
        parents_from(edges, node_ids, i + 1, parents)
    } else {
        match backbone_edge(edges[i as int], node_ids) {
            Err(e) => Err(e),
            Ok((to, from)) => if member(parents, to) is Some {
                Err("causal-dag node `"@ + to + "` has multiple backbone parents"@)
            } else {
                parents_from(edges, node_ids, i + 1, put(parents, to, from))
            },
        }
    }
}

fn backbone_parents(edges: &Vec<Json>, node_ids: &Vec<String>) -> (r: Result<
    Vec<(String, String)>,
    ExtensionError,
>)
    ensures
        answers(r, parents_from(edges.deep_view(), node_ids.deep_view(), 0, Seq::empty())),
{
    let mut parents: Vec<(String, String)> = Vec::new();
    let mut i: usize = 0;
    assert(parents.deep_view() =~= Seq::empty());
    while i < edges.len()
        invariant
            i <= edges@.len(),
            parents_from(edges.deep_view(), node_ids.deep_view(), 0, Seq::empty())
                == parents_from(
                edges.deep_view(),
                node_ids.deep_view(),
                i as nat,
                parents.deep_view(),
            ),
        decreases edges@.len() - i,
    {
        let on = match edges[i].flag_at("canonical_backbone") {
            Some(flag) => flag,
            None => false,
        };
        if on {
            match read_backbone_edge(&edges[i], node_ids) {
                Err(e) => return Err(e),
                Ok((to, from)) => {
                    if has_row(&parents, &to) {
                        return Err(
                            fault(
                                join3("causal-dag node `", &to, "` has multiple backbone parents"),
                            ),
                        );
                    }
                    put_row(&mut parents, &to, from);
                },
            }
        }
        i += 1;
    }
    Ok(parents)
}

/// The status that the views know, older names mapped onto it.
pub open spec fn status_of(status: Seq<char>) -> Result<Seq<char>, Seq<char>> {
    if status == "promising"@ {
        Ok("inconclusive"@)
    } else if status == "dead"@ {
        Ok("dead_end"@)
    } else if status == "open"@ || status == "blocked"@ || status == "dead_end"@ || status
        == "inconclusive"@ || status == "success"@ || status == "verified"@ || status
        == "superseded"@ || status == "abandoned"@ {
        Ok(status)
    } else {
        Err("causal-dag visualization does not recognize node status `"@ + status + "`"@)
    }
}

/// Normalizing a status again changes nothing: the two older names map onto names that map onto
/// themselves, as all that the views know do.
pub proof fn statuses_are_normalized_once(status: Seq<char>)
    requires
        status_of(status) is Ok,
    ensures
        status_of(status_of(status)->Ok_0) == status_of(status),
        status_of(status)->Ok_0 != "promising"@,
        status_of(status)->Ok_0 != "dead"@,
{
    reveal_strlit("promising");
    reveal_strlit("dead");
    reveal_strlit("dead_end");
    reveal_strlit("inconclusive");
    assert("promising"@.len() == 9 && "dead"@.len() == 4);
    assert("dead_end"@.len() == 8 && "inconclusive"@.len() == 12);
}

/// A status as the views know it.
pub fn normalize_status(status: &str) -> (r: Result<String, ExtensionError>)
    ensures
        answers(r, status_of(status@)),
{
    if same(status, "promising") {
        Ok("inconclusive".to_owned())
    } else if same(status, "dead") {
        Ok("dead_end".to_owned())
    } else if same(status, "open") || same(status, "blocked") || same(status, "dead_end") || same(
        status,
        "inconclusive",
    ) || same(status, "success") || same(status, "verified") || same(status, "superseded") || same(
        status,
        "abandoned",
    ) {
        Ok(status.to_owned())
    } else {
        Err(
            fault(
                join3(
                    "causal-dag visualization does not recognize node status `",
                    status,
                    "`",
                ),
            ),
        )
    }
}

/// An event id, or its last eight characters where it has more than ten.
pub open spec fn short_event(id: Seq<char>) -> Seq<char> {
    if id.len() <= 10 {
        id
    } else {
        id.skip(id.len() - 8)
    }
}

fn short_event_id(event_id: &str) -> (r: String)
    ensures
        r@ == short_event(event_id@),
{
    let v = chars_of(event_id);
    if v.len() <= 10 {
        event_id.to_owned()
    } else {
        assert(v@.subrange(v@.len() - 8, v@.len() as int) =~= v@.skip(v@.len() - 8));
        slice_text(&v, v.len() - 8, v.len())
    }
}

/// The short ids of the events that the sources cite, from position `i` on.
pub open spec fn cited_short(sources: Seq<Tree>, i: nat) -> Seq<Seq<char>>
    decreases i,
{
    if i == 0 {
        Seq::empty()
    } else {
        match sources[i - 1].text_at("event_id"@) {
            Some(id) => cited_short(sources, (i - 1) as nat).push(short_event(id)),
            None => cited_short(sources, (i - 1) as nat),
        }
    }
}

/// The events that a value cites, in short: at most three ids, and how many more there are.
pub open spec fn evidence_of(value: Tree) -> Seq<char> {
    match value.list_at("source_refs"@) {
        None => "none"@,
        Some(sources) => {
            let ids = in_order(cited_short(sources, sources.len()));
            if ids.len() == 0 {
                "none"@
            } else if ids.len() <= 3 {
                joined(ids, ", "@)
            } else {
                joined(ids.take(3), ", "@) + " +"@ + decimal((ids.len() - 3) as nat)
            }
        },
    }
}

fn evidence_label(value: &Json) -> (r: String)
    ensures
        r@ == evidence_of(value@),
{
    let sources = match value.list_at("source_refs") {
        Some(sources) => sources,
        None => return "none".to_owned(),
    };
    let mut ids: Vec<String> = Vec::new();
    let mut i: usize = 0;
    assert(ids.deep_view() =~= Seq::empty());
    while i < sources.len()
        invariant
            i <= sources@.len(),
            ids.deep_view() == cited_short(sources.deep_view(), i as nat),
        decreases sources@.len() - i,
    {
        if let Some(id) = sources[i].text_at("event_id") {
            let ghost was = ids.deep_view();
            let short = short_event_id(id);
            ids.push(short);
            assert(ids.deep_view() =~= was.push(short@));
        }
        i += 1;
    }
    let ids = put_in_order(&ids);
    if ids.len() == 0 {
        "none".to_owned()
    } else if ids.len() <= 3 {
        join(&ids, ", ")
    } else {
        let shown = join_some(&ids, 3, ", ");
        join3(&shown, " +", &decimal_text((ids.len() - 3) as u64))
    }
}

/// Whether the views know a kind of node.
pub open spec fn known_kind(kind: Seq<char>) -> bool {
    kind == "root"@ || kind == "attempt"@ || kind == "claim"@ || kind == "checkpoint"@ || kind
        == "synthesis"@
}

/// A node as the views draw it, not yet numbered.
pub open spec fn node_of(node: Tree, parents: Seq<(Seq<char>, Seq<char>)>) -> Result<
    Node,
    Seq<char>,
> {
    match required(node, "id"@, "node"@) {
        Err(e) => Err(e),
        Ok(id) => match required(node, "status"@, "node"@) {
            Err(e) => Err(e),
            Ok(raw) => match status_of(raw) {
                Err(e) => Err(e),
                Ok(status) => match required(node, "kind"@, "node"@) {
                    Err(e) => Err(e),
                    Ok(kind) => if !known_kind(kind) {
                        Err(
                            "causal-dag visualization does not recognize node kind `"@ + kind
                                + "`"@,
                        )
                    } else {
                        match required(node, "title"@, "node"@) {
                            Err(e) => Err(e),
                            Ok(title) => match required(node, "summary"@, "node"@) {
                                Err(e) => Err(e),
                                Ok(summary) => Ok(
                                    Node {
                                        id,
                                        parent: member(parents, id),
                                        sequence: 0,
                                        status,
                                        kind,
                                        title,
                                        summary,
                                        ev: evidence_of(node),
                                    },
                                ),
                            },
                        }
                    },
                },
            },
        },
    }
}

fn viewer_node(node: &Json, parents: &Vec<(String, String)>) -> (r: Result<
    ViewerNode,
    ExtensionError,
>)
    ensures
        answers(r, node_of(node@, parents.deep_view())),
{
    let id = match required_string(node, "id", "node") {
        Ok(text) => text,
        Err(e) => return Err(e),
    };
    let raw = match required_string(node, "status", "node") {
        Ok(text) => text,
        Err(e) => return Err(e),
    };
    let status = match normalize_status(&raw) {
        Ok(text) => text,
        Err(e) => return Err(e),
    };
    let kind = match required_string(node, "kind", "node") {
        Ok(text) => text,
        Err(e) => return Err(e),
    };
    if !(same(&kind, "root") || same(&kind, "attempt") || same(&kind, "claim") || same(
        &kind,
        "checkpoint",
    ) || same(&kind, "synthesis")) {
        return Err(
            fault(
                join3("causal-dag visualization does not recognize node kind `", &kind, "`"),
            ),
        );
    }
    let title = match required_string(node, "title", "node") {
        Ok(text) => text,
        Err(e) => return Err(e),
    };
    let summary = match required_string(node, "summary", "node") {
        Ok(text) => text,
        Err(e) => return Err(e),
    };
    let parent = match find(parents, &id) {
        Some(parent) => Some(parent.clone()),
        None => None,
    };
    Ok(ViewerNode { id, parent, sequence: 0, status, kind, title, summary, ev: evidence_label(node) })
}

/// The nodes as the views draw them, from position `i` on behind those made.
pub open spec fn nodes_from(
    list: Seq<Tree>,
    parents: Seq<(Seq<char>, Seq<char>)>,
    i: nat,
    made: Seq<Node>,
) -> Result<Seq<Node>, Seq<char>>
    decreases list.len() - i,
{
    if i >= list.len() {
        Ok(made)
    } else {
        match node_of(list[i as int], parents) {
            Ok(node) => nodes_from(list, parents, i + 1, made.push(node)),
            Err(e) => Err(e),
        }
    }
}

fn viewer_nodes(list: &Vec<Json>, parents: &Vec<(String, String)>) -> (r: Result<
    Vec<ViewerNode>,
    ExtensionError,
>)
    ensures
        answers(r, nodes_from(list.deep_view(), parents.deep_view(), 0, Seq::empty())),
{
    let mut out: Vec<ViewerNode> = Vec::new();
    let mut i: usize = 0;
    assert(out.deep_view() =~= Seq::empty());
    while i < list.len()
        invariant
            i <= list@.len(),
            nodes_from(list.deep_view(), parents.deep_view(), 0, Seq::empty()) == nodes_from(
                list.deep_view(),
                parents.deep_view(),
                i as nat,
                out.deep_view(),
            ),
        decreases list@.len() - i,
    {
        match viewer_node(&list[i], parents) {
            Ok(node) => {
                let ghost was = out.deep_view();
                out.push(node);
                assert(out.deep_view() =~= was.push(node.deep_view()));
            },
            Err(e) => return Err(e),
        }
        i += 1;
    }
    Ok(out)
}

/// An edge that is no part of the backbone, as the views draw it.
pub open spec fn arc_of(edge: Tree, node_ids: Seq<Seq<char>>) -> Result<Arc, Seq<char>> {
    match required(edge, "id"@, "edge"@) {
        Err(e) => Err(e),
        Ok(id) => if edge.flag_at("canonical_backbone"@) != Some(false) {
            Err("causal-dag edge `"@ + id + "` has invalid canonical_backbone"@)
        } else {
            match required(edge, "from"@, "edge"@) {
                Err(e) => Err(e),
                Ok(from) => match required(edge, "to"@, "edge"@) {
                    Err(e) => Err(e),
                    Ok(to) => match required(edge, "class"@, "edge"@) {
                        Err(e) => Err(e),
                        Ok(class) => match required(edge, "kind"@, "edge"@) {
                            Err(e) => Err(e),
                            Ok(kind) => match class_fault(id, class, kind, false) {
                                Some(e) => Err(e),
                                None => if !node_ids.contains(from) || !node_ids.contains(to) {
                                    Err(
                                        "causal-dag edge `"@ + id
                                            + "` references a missing node"@,
                                    )
                                } else {
                                    Ok(
                                        Arc {
                                            id,
                                            from,
                                            to,
                                            class,
                                            kind,
                                            note: match edge.at("basis"@).text_at("summary"@) {
                                                Some(note) => note,
                                                None => Seq::empty(),
                                            },
                                        },
                                    )
                                },
                            },
                        },
                    },
                },
            }
        },
    }
}

fn viewer_arc(edge: &Json, node_ids: &Vec<String>) -> (r: Result<ViewerArc, ExtensionError>)
    ensures
        answers(r, arc_of(edge@, node_ids.deep_view())),
{
    let id = match required_string(edge, "id", "edge") {
        Ok(text) => text,
        Err(e) => return Err(e),
    };
    match edge.flag_at("canonical_backbone") {
        Some(false) => {},
        _ => {
            return Err(fault(join3("causal-dag edge `", &id, "` has invalid canonical_backbone")));
        },
    }
    let from = match required_string(edge, "from", "edge") {
        Ok(text) => text,
        Err(e) => return Err(e),
    };
    let to = match required_string(edge, "to", "edge") {
        Ok(text) => text,
        Err(e) => return Err(e),
    };
    let class = match required_string(edge, "class", "edge") {
        Ok(text) => text,
        Err(e) => return Err(e),
    };
    let kind = match required_string(edge, "kind", "edge") {
        Ok(text) => text,
        Err(e) => return Err(e),
    };
    match validate_edge_class_kind(&id, &class, &kind, false) {
        Ok(()) => {},
        Err(e) => return Err(e),
    }
    if !holds(node_ids, &from) || !holds(node_ids, &to) {
        return Err(fault(join3("causal-dag edge `", &id, "` references a missing node")));
    }
    let note = match edge.get("basis") {
        Some(basis) => match basis.text_at("summary") {
            Some(note) => note.clone(),
            None => String::new(),
        },
        None => String::new(),
    };
    Ok(ViewerArc { id, from, to, class, kind, note })
}

/// The cross-arcs, from position `i` on behind those made.
pub open spec fn arcs_from(
    edges: Seq<Tree>,
    node_ids: Seq<Seq<char>>,
    i: nat,
    made: Seq<Arc>,
) -> Result<Seq<Arc>, Seq<char>>
    decreases edges.len() - i,
{
    if i >= edges.len() {
        Ok(made)
    } else if on_backbone(edges[i as int]) {
        arcs_from(edges, node_ids, i + 1, made)
    } else {
        match arc_of(edges[i as int], node_ids) {
            Ok(arc) => arcs_from(edges, node_ids, i + 1, made.push(arc)),
            Err(e) => Err(e),
        }
    }
}

fn viewer_arcs(edges: &Vec<Json>, node_ids: &Vec<String>) -> (r: Result<
    Vec<ViewerArc>,
    ExtensionError,
>)
    ensures
        answers(r, arcs_from(edges.deep_view(), node_ids.deep_view(), 0, Seq::empty())),
{
    let mut out: Vec<ViewerArc> = Vec::new();
    let mut i: usize = 0;
    assert(out.deep_view() =~= Seq::empty());
    while i < edges.len()
        invariant
            i <= edges@.len(),
            arcs_from(edges.deep_view(), node_ids.deep_view(), 0, Seq::empty()) == arcs_from(
                edges.deep_view(),
                node_ids.deep_view(),
                i as nat,
                out.deep_view(),
            ),
        decreases edges@.len() - i,
    {
        let on = match edges[i].flag_at("canonical_backbone") {
            Some(flag) => flag,
            None => false,
        };
        if !on {
            match viewer_arc(&edges[i], node_ids) {
                Ok(arc) => {
                    let ghost was = out.deep_view();
                    out.push(arc);
                    assert(out.deep_view() =~= was.push(arc.deep_view()));
                },
                Err(e) => return Err(e),
            }
        }
        i += 1;
    }
    Ok(out)
}

/// The position of the first root, from `i` on, that names no node.
pub open spec fn unnamed_root(
    roots: Seq<Seq<char>>,
    ids: Seq<Seq<char>>,
    i: nat,
) -> Option<Seq<char>>
    decreases roots.len() - i,
{
    if i >= roots.len() {
        None
    } else if !ids.contains(roots[i as int]) {
        Some("causal-dag forest root `"@ + roots[i as int] + "` does not name a node"@)
    } else {
        unnamed_root(roots, ids, i + 1)
    }
}

/// What is wrong with the nodes, from position `i` on, as roots or as children.
pub open spec fn root_membership_fault(
    roots: Seq<Seq<char>>,
    nodes: Seq<Node>,
    parents: Seq<(Seq<char>, Seq<char>)>,
    i: nat,
) -> Option<Seq<char>>
    decreases nodes.len() - i,
{
    if i >= nodes.len() {
        None
    } else {
        let node = nodes[i as int];
        let is_root = roots.contains(node.id);
        if is_root != (node.kind == "root"@) {
            Some("causal-dag root membership disagrees for node `"@ + node.id + "`"@)
        } else if is_root == (member(parents, node.id) is Some) {
            Some("causal-dag backbone parent invariant failed for node `"@ + node.id + "`"@)
        } else {
            root_membership_fault(roots, nodes, parents, i + 1)
        }
    }
}

/// The ids of nodes.
pub open spec fn ids_of(nodes: Seq<Node>) -> Seq<Seq<char>> {
    Seq::new(nodes.len(), |i: int| nodes[i].id)
}

/// What is wrong with the roots: each names one node of kind `root`, and just those have no
/// backbone parent.
pub open spec fn roots_fault(
    roots: Seq<Seq<char>>,
    nodes: Seq<Node>,
    parents: Seq<(Seq<char>, Seq<char>)>,
) -> Option<Seq<char>> {
    if !roots.no_duplicates() {
        Some("causal-dag artifact has duplicate roots"@)
    } else {
        match unnamed_root(roots, ids_of(nodes), 0) {
            Some(e) => Some(e),
            None => root_membership_fault(roots, nodes, parents, 0),
        }
    }
}

/// The position of the node of an id.
fn position(nodes: &Vec<ViewerNode>, id: &str) -> (r: Option<usize>)
    ensures
        match r {
            Some(i) => i < nodes@.len() && nodes.deep_view()[i as int].id == id@ && forall|j: int|
                0 <= j < i ==> (#[trigger] nodes.deep_view()[j]).id != id@,
            None => forall|j: int|
                0 <= j < nodes@.len() ==> (#[trigger] nodes.deep_view()[j]).id != id@,
        },
{
    let mut i: usize = 0;
    while i < nodes.len()
        invariant
            i <= nodes@.len(),
            forall|j: int| 0 <= j < i ==> (#[trigger] nodes.deep_view()[j]).id != id@,
        decreases nodes@.len() - i,
    {
        if same(&nodes[i].id, id) {
            return Some(i);
        }
        i += 1;
    }
    None
}

fn validate_roots(
    roots: &Vec<String>,
    nodes: &Vec<ViewerNode>,
    parents: &Vec<(String, String)>,
) -> (r: Result<(), ExtensionError>)
    ensures
        passes(r, roots_fault(roots.deep_view(), nodes.deep_view(), parents.deep_view())),
{
    if !all_differ(roots) {
        return Err(input_error("causal-dag artifact has duplicate roots"));
    }
    let ghost ids = ids_of(nodes.deep_view());
    let mut i: usize = 0;
    while i < roots.len()
        invariant
            i <= roots@.len(),
            roots.deep_view().no_duplicates(),
            ids == ids_of(nodes.deep_view()),
            unnamed_root(roots.deep_view(), ids, 0) == unnamed_root(
                roots.deep_view(),
                ids,
                i as nat,
            ),
        decreases roots@.len() - i,
    {
        match position(nodes, &roots[i]) {
            Some(j) => {
                assert(ids[j as int] == roots.deep_view()[i as int]);
            },
            None => {
                assert(!ids.contains(roots.deep_view()[i as int])) by {
                    if ids.contains(roots.deep_view()[i as int]) {
                        let j = choose|j: int|
                            0 <= j < ids.len() && ids[j] == roots.deep_view()[i as int];
                        assert(nodes.deep_view()[j].id == roots.deep_view()[i as int]);
                    }
                }
                return Err(
                    fault(join3("causal-dag forest root `", &roots[i], "` does not name a node")),
                );
            },
        }
        i += 1;
    }
    let mut k: usize = 0;
    while k < nodes.len()
        invariant
            k <= nodes@.len(),
            roots_fault(roots.deep_view(), nodes.deep_view(), parents.deep_view())
                == root_membership_fault(
                roots.deep_view(),
                nodes.deep_view(),
                parents.deep_view(),
                k as nat,
            ),
        decreases nodes@.len() - k,
    {
        let id = &nodes[k].id;
        assert(nodes.deep_view()[k as int].id == id@);
        let is_root = holds(roots, id);
        if is_root != same(&nodes[k].kind, "root") {
            return Err(
                fault(join3("causal-dag root membership disagrees for node `", id, "`")),
            );
        }
        if is_root == has_row(parents, id) {
            return Err(
                fault(join3("causal-dag backbone parent invariant failed for node `", id, "`")),
            );
        }
        k += 1;
    }
    Ok(())
}

/// The root that each node names, by the nodes from position `i` on.
pub open spec fn node_roots_from(
    nodes: Seq<Tree>,
    roots: Seq<Seq<char>>,
    i: nat,
    named: Seq<(Seq<char>, Seq<char>)>,
) -> Result<Seq<(Seq<char>, Seq<char>)>, Seq<char>>
    decreases nodes.len() - i,
{
    if i >= nodes.len() {
        Ok(named)
    } else {
        match required(nodes[i as int], "id"@, "node"@) {
            Err(e) => Err(e),
            Ok(id) => match required(nodes[i as int], "root_id"@, "node"@) {
                Err(e) => Err(e),
                Ok(root) => if !roots.contains(root) {
                    Err("causal-dag node `"@ + id + "` references a missing root"@)
                } else {
                    node_roots_from(nodes, roots, i + 1, put(named, id, root))
                },
            },
        }
    }
}

fn node_roots(nodes: &Vec<Json>, roots: &Vec<String>) -> (r: Result<
    Vec<(String, String)>,
    ExtensionError,
>)
    ensures
        answers(r, node_roots_from(nodes.deep_view(), roots.deep_view(), 0, Seq::empty())),
{
    let mut named: Vec<(String, String)> = Vec::new();
    let mut i: usize = 0;
    assert(named.deep_view() =~= Seq::empty());
    while i < nodes.len()
        invariant
            i <= nodes@.len(),
            node_roots_from(nodes.deep_view(), roots.deep_view(), 0, Seq::empty())
                == node_roots_from(
                nodes.deep_view(),
                roots.deep_view(),
                i as nat,
                named.deep_view(),
            ),
        decreases nodes@.len() - i,
    {
        let id = match required_string(&nodes[i], "id", "node") {
            Ok(text) => text,
            Err(e) => return Err(e),
        };
        let root = match required_string(&nodes[i], "root_id", "node") {
            Ok(text) => text,
            Err(e) => return Err(e),
        };
        if !holds(roots, &root) {
            return Err(fault(join3("causal-dag node `", &id, "` references a missing root")));
        }
        put_row(&mut named, &id, root);
        i += 1;
    }
    Ok(named)
}

/// What is wrong with the backbone edges, from position `i` on: none may cross roots.
pub open spec fn crossing_fault(
    parents: Seq<(Seq<char>, Seq<char>)>,
    named: Seq<(Seq<char>, Seq<char>)>,
    i: nat,
) -> Option<Seq<char>>
    decreases parents.len() - i,
{
    if i >= parents.len() {
        None
    } else {
        let (child, parent) = parents[i as int];
        if member(named, child) != member(named, parent) {
            Some(
                "causal-dag backbone edge `"@ + parent + "` → `"@ + child + "` crosses roots"@,
            )
        } else {
            crossing_fault(parents, named, i + 1)
        }
    }
}

/// Where the way up from a node ends, if it ends within a number of steps.
pub open spec fn climb(
    parents: Seq<(Seq<char>, Seq<char>)>,
    id: Seq<char>,
    steps: nat,
) -> Option<Seq<char>>
    decreases steps,
{
    match member(parents, id) {
        None => Some(id),
        Some(parent) => if steps == 0 {
            None
        } else {
            climb(parents, parent, (steps - 1) as nat)
        },
    }
}

/// What is wrong with the way up from a node: it ends at the root that the node names. A way
/// that meets no node twice takes no more steps than there are parents.
pub open spec fn way_fault(
    parents: Seq<(Seq<char>, Seq<char>)>,
    roots: Seq<Seq<char>>,
    id: Seq<char>,
    root: Seq<char>,
) -> Option<Seq<char>> {
    match climb(parents, id, parents.len()) {
        None => Some("causal-dag backbone contains a cycle"@),
        Some(end) => if !roots.contains(end) {
            Some("causal-dag node `"@ + id + "` is unreachable from a forest root"@)
        } else if root != end {
            Some("causal-dag node `"@ + id + "` root_id disagrees with its backbone root"@)
        } else {
            None
        },
    }
}

/// What is wrong with the ways up from the nodes, from position `i` on.
pub open spec fn ways_fault(
    parents: Seq<(Seq<char>, Seq<char>)>,
    roots: Seq<Seq<char>>,
    named: Seq<(Seq<char>, Seq<char>)>,
    i: nat,
) -> Option<Seq<char>>
    decreases named.len() - i,
{
    if i >= named.len() {
        None
    } else {
        match way_fault(parents, roots, named[i as int].0, named[i as int].1) {
            Some(e) => Some(e),
            None => ways_fault(parents, roots, named, i + 1),
        }
    }
}

/// What is wrong with the backbone: each node names a root, no edge crosses roots, and the way
/// up from each node ends at the root that it names.
pub open spec fn backbone_fault(
    nodes: Seq<Tree>,
    roots: Seq<Seq<char>>,
    parents: Seq<(Seq<char>, Seq<char>)>,
) -> Option<Seq<char>> {
    match node_roots_from(nodes, roots, 0, Seq::empty()) {
        Err(e) => Some(e),
        Ok(named) => match crossing_fault(parents, named, 0) {
            Some(e) => Some(e),
            None => ways_fault(parents, roots, named, 0),
        },
    }
}

fn same_optional(a: Option<&String>, b: Option<&String>) -> (r: bool)
    ensures
        r == (a.deep_view() == b.deep_view()),
{
    match (a, b) {
        (Some(a), Some(b)) => same(a, b),
        (None, None) => true,
        _ => false,
    }
}

/// Where the way up from a node ends, if it does not run in a circle.
pub fn way_end(parents: &Vec<(String, String)>, id: &str) -> (r: Option<String>)
    ensures
        r.deep_view() == climb(parents.deep_view(), id@, parents@.len()),
{
    let mut current = id.to_owned();
    let mut steps: usize = parents.len();
    loop
        invariant
            steps <= parents@.len(),
            climb(parents.deep_view(), id@, parents@.len()) == climb(
                parents.deep_view(),
                current@,
                steps as nat,
            ),
        decreases steps,
    {
        match find(parents, &current) {
            None => return Some(current),
            Some(parent) => {
                if steps == 0 {
                    return None;
                }
                current = parent.clone();
                steps -= 1;
            },
        }
    }
}

/// Checks the backbone of a graph.
pub fn validate_backbone(
    nodes: &Vec<Json>,
    roots: &Vec<String>,
    parents: &Vec<(String, String)>,
) -> (r: Result<(), ExtensionError>)
    ensures
        passes(r, backbone_fault(nodes.deep_view(), roots.deep_view(), parents.deep_view())),
{
    let named = match node_roots(nodes, roots) {
        Ok(named) => named,
        Err(e) => return Err(e),
    };
    let ghost p = parents.deep_view();
    let ghost n = named.deep_view();
    let mut i: usize = 0;
    while i < parents.len()
        invariant
            i <= parents@.len(),
            p == parents.deep_view(),
            n == named.deep_view(),
            node_roots_from(nodes.deep_view(), roots.deep_view(), 0, Seq::empty()) == Ok::<
                Seq<(Seq<char>, Seq<char>)>,
                Seq<char>,
            >(n),
            crossing_fault(p, n, 0) == crossing_fault(p, n, i as nat),
        decreases parents@.len() - i,
    {
        let child = &parents[i].0;
        let parent = &parents[i].1;
        assert(p[i as int] == (child@, parent@));
        if !same_optional(find(&named, child), find(&named, parent)) {
            return Err(
                fault(
                    join5(
                        "causal-dag backbone edge `",
                        parent,
                        "` → `",
                        child,
                        "` crosses roots",
                    ),
                ),
            );
        }
        i += 1;
    }
    let mut k: usize = 0;
    while k < named.len()
        invariant
            k <= named@.len(),
            p == parents.deep_view(),
            n == named.deep_view(),
            backbone_fault(nodes.deep_view(), roots.deep_view(), p) == ways_fault(
                p,
                roots.deep_view(),
                n,
                k as nat,
            ),
        decreases named@.len() - k,
    {
        let id = &named[k].0;
        let root = &named[k].1;
        assert(n[k as int] == (id@, root@));
        match way_end(parents, id) {
            None => return Err(input_error("causal-dag backbone contains a cycle")),
            Some(end) => {
                if !holds(roots, &end) {
                    return Err(
                        fault(
                            join3(
                                "causal-dag node `",
                                id,
                                "` is unreachable from a forest root",
                            ),
                        ),
                    );
                }
                if !same(root, &end) {
                    return Err(
                        fault(
                            join3(
                                "causal-dag node `",
                                id,
                                "` root_id disagrees with its backbone root",
                            ),
                        ),
                    );
                }
            },
        }
        k += 1;
    }
    Ok(())
}

/// Whether a character stands for a digit of Crockford's base 32, in either case.
pub open spec fn is_base32(c: char) -> bool {
    let u = c as u32;
    ||| 0x30 <= u <= 0x39
    ||| 0x41 <= u <= 0x5a && u != 0x49 && u != 0x4c && u != 0x4f && u != 0x55
    ||| 0x61 <= u <= 0x7a && u != 0x69 && u != 0x6c && u != 0x6f && u != 0x75
}

/// Whether a text is a ULID: 26 digits of Crockford's base 32, the first at most 7.
pub open spec fn ulid(s: Seq<char>) -> bool {
    &&& s.len() == 26
    &&& 0x30 <= s[0] as u32 <= 0x37
    &&& forall|i: int| 0 <= i < s.len() ==> is_base32(#[trigger] s[i])
}

fn is_ulid(value: &str) -> (r: bool)
    ensures
        r == ulid(value@),
{
    let v = chars_of(value);
    if v.len() != 26 {
        return false;
    }
    let first: u32 = v[0] as u32;
    if first < 0x30 || first > 0x37 {
        return false;
    }
    let mut i: usize = 0;
    while i < v.len()
        invariant
            i <= v@.len(),
            v@ == value@,
            forall|j: int| 0 <= j < i ==> is_base32(#[trigger] v@[j]),
        decreases v@.len() - i,
    {
        let u: u32 = v[i] as u32;
        let digit = (0x30 <= u && u <= 0x39) || (0x41 <= u && u <= 0x5a && u != 0x49 && u != 0x4c
            && u != 0x4f && u != 0x55) || (0x61 <= u && u <= 0x7a && u != 0x69 && u != 0x6c && u
            != 0x6f && u != 0x75);
        if !digit {
            assert(!is_base32(value@[i as int]));
            return false;
        }
        i += 1;
    }
    true
}

/// The event that a source cites, where it is a ULID.
pub open spec fn cited_ulid(source: Tree) -> Option<Seq<char>> {
    match source.text_at("event_id"@) {
        Some(id) => if ulid(id) {
            Some(id)
        } else {
            None
        },
        None => None,
    }
}

fn source_ulid(source: &Json) -> (r: Option<String>)
    ensures
        r.deep_view() == cited_ulid(source@),
{
    match source.text_at("event_id") {
        Some(id) => if is_ulid(id) {
            Some(id.clone())
        } else {
            None
        },
        None => None,
    }
}

/// The first source of an id, from position `i` on.
pub open spec fn source_named(sources: Seq<Tree>, id: Seq<char>, i: nat) -> Option<Tree>
    decreases sources.len() - i,
{
    if i >= sources.len() {
        None
    } else if sources[i as int].text_at("id"@) == Some(id) {
        Some(sources[i as int])
    } else {
        source_named(sources, id, i + 1)
    }
}

/// The least ULID that the first `n` sources cite.
pub open spec fn least_ulid(sources: Seq<Tree>, n: nat) -> Option<Seq<char>>
    decreases n,
{
    if n == 0 {
        None
    } else {
        let least = least_ulid(sources, (n - 1) as nat);
        match (cited_ulid(sources[n - 1]), least) {
            (None, _) => least,
            (Some(id), None) => Some(id),
            (Some(id), Some(m)) => if before(id, m) {
                Some(id)
            } else {
                least
            },
        }
    }
}

/// When a node came about: the ULID of its occurrence source, or else the least ULID that it
/// cites.
pub open spec fn anchor_of(node: Tree) -> Option<Seq<char>> {
    match node.list_at("source_refs"@) {
        None => None,
        Some(sources) => {
            let explicit = match node.at("metadata"@).text_at("occurrence_source_ref_id"@) {
                None => None,
                Some(id) => match source_named(sources, id, 0) {
                    None => None,
                    Some(source) => cited_ulid(source),
                },
            };
            match explicit {
                Some(id) => Some(id),
                None => least_ulid(sources, sources.len()),
            }
        },
    }
}

fn find_source<'a>(sources: &'a Vec<Json>, id: &str) -> (r: Option<&'a Json>)
    ensures
        r.deep_view() == source_named(sources.deep_view(), id@, 0),
{
    let mut i: usize = 0;
    while i < sources.len()
        invariant
            i <= sources@.len(),
            source_named(sources.deep_view(), id@, 0) == source_named(
                sources.deep_view(),
                id@,
                i as nat,
            ),
        decreases sources@.len() - i,
    {
        if let Some(found) = sources[i].text_at("id") {
            if same(found, id) {
                return Some(&sources[i]);
            }
        }
        i += 1;
    }
    None
}

fn sequence_anchor(node: &Json) -> (r: Option<String>)
    ensures
        r.deep_view() == anchor_of(node@),
{
    let sources = match node.list_at("source_refs") {
        Some(sources) => sources,
        None => return None,
    };
    let occurrence = match node.get("metadata") {
        Some(metadata) => metadata.text_at("occurrence_source_ref_id"),
        None => None,
    };
    if let Some(id) = occurrence {
        if let Some(source) = find_source(sources, id) {
            if let Some(explicit) = source_ulid(source) {
                return Some(explicit);
            }
        }
    }
    let mut least: Option<String> = None;
    let mut i: usize = 0;
    while i < sources.len()
        invariant
            i <= sources@.len(),
            least.deep_view() == least_ulid(sources.deep_view(), i as nat),
        decreases sources@.len() - i,
    {
        if let Some(id) = source_ulid(&sources[i]) {
            let less = match &least {
                None => true,
                Some(m) => precedes(&id, m),
            };
            if less {
                least = Some(id);
            }
        }
        i += 1;
    }
    least
}

/// The anchors of nodes.
pub open spec fn anchors_of(nodes: Seq<Tree>) -> Seq<Option<Seq<char>>> {
    Seq::new(nodes.len(), |i: int| anchor_of(nodes[i]))
}

fn sequence_anchors(nodes: &Vec<Json>) -> (r: Vec<Option<String>>)
    ensures
        r.deep_view() == anchors_of(nodes.deep_view()),
{
    let mut out: Vec<Option<String>> = Vec::new();
    let mut i: usize = 0;
    while i < nodes.len()
        invariant
            i <= nodes@.len(),
            out@.len() == i,
            forall|j: int|
                0 <= j < i ==> (#[trigger] out@[j]).deep_view() == anchor_of(nodes.deep_view()[j]),
        decreases nodes@.len() - i,
    {
        out.push(sequence_anchor(&nodes[i]));
        i += 1;
    }
    assert(out.deep_view() =~= anchors_of(nodes.deep_view()));
    out
}

/// Whether node `i` is to be numbered before node `j`, where both could be: the active root
/// first, then by anchor, nodes without one last, and else by position.
pub open spec fn earlier(
    nodes: Seq<Node>,
    anchors: Seq<Option<Seq<char>>>,
    root: Option<Seq<char>>,
    i: int,
    j: int,
) -> bool {
    let i_is_root = root == Some(nodes[i].id);
    let j_is_root = root == Some(nodes[j].id);
    if i_is_root != j_is_root {
        i_is_root
    } else {
        match (anchors[i], anchors[j]) {
            (Some(a), Some(b)) => before(a, b) || (a == b && i < j),
            (Some(_), None) => true,
            (None, Some(_)) => false,
            (None, None) => i < j,
        }
    }
}

/// Whether the parent of node `i`, where it has one, has a number below `k`.
pub open spec fn parent_placed(nodes: Seq<Node>, i: int, k: int) -> bool {
    match nodes[i].parent {
        None => true,
        Some(parent) => exists|q: int|
            0 <= q < nodes.len() && (#[trigger] nodes[q]).id == parent && nodes[q].sequence < k,
    }
}

/// Whether the nodes are numbered as they came about: each number stands once, a parent comes
/// before its children, and of the nodes whose parents are numbered the earliest comes next.
pub open spec fn numbered(
    nodes: Seq<Node>,
    anchors: Seq<Option<Seq<char>>>,
    root: Option<Seq<char>>,
) -> bool {
    &&& forall|i: int| 0 <= i < nodes.len() ==> (#[trigger] nodes[i]).sequence < nodes.len()
    &&& forall|i: int, j: int|
        0 <= i < j < nodes.len() ==> (#[trigger] nodes[i]).sequence != (
        #[trigger] nodes[j]).sequence
    &&& forall|i: int|
        0 <= i < nodes.len() ==> parent_placed(nodes, i, (#[trigger] nodes[i]).sequence as int)
    &&& forall|i: int, j: int|
        0 <= i < nodes.len() && 0 <= j < nodes.len() && (#[trigger] nodes[i]).sequence < (
        #[trigger] nodes[j]).sequence && parent_placed(nodes, j, nodes[i].sequence as int)
            ==> earlier(nodes, anchors, root, i, j)
}

proof fn lemma_earlier_transitive(
    nodes: Seq<Node>,
    anchors: Seq<Option<Seq<char>>>,
    root: Option<Seq<char>>,
    i: int,
    j: int,
    k: int,
)
    requires
        earlier(nodes, anchors, root, i, j),
        earlier(nodes, anchors, root, j, k),
    ensures
        earlier(nodes, anchors, root, i, k),
{
    if anchors[i] is Some && anchors[j] is Some && anchors[k] is Some {
        let a = anchors[i]->0;
        let b = anchors[j]->0;
        let c = anchors[k]->0;
        if before(a, b) && before(b, c) {
            lemma_before_transitive(a, b, c);
        }
    }
}

proof fn lemma_earlier_total(
    nodes: Seq<Node>,
    anchors: Seq<Option<Seq<char>>>,
    root: Option<Seq<char>>,
    i: int,
    j: int,
)
    requires
        i != j,
        !earlier(nodes, anchors, root, i, j),
    ensures
        earlier(nodes, anchors, root, j, i),
{
    if anchors[i] is Some && anchors[j] is Some {
        lemma_before_total(anchors[i]->0, anchors[j]->0);
    }
}

/// The order in which nodes are numbered is a strict total order: no node comes before itself,
/// of two nodes just one comes before the other, and what comes before a node comes before all
/// behind it. The active root comes first. Of two others one with an anchor comes before one
/// without, the lesser anchor comes first, and else the lesser position.
pub proof fn numbering_is_a_strict_total_order(
    nodes: Seq<Node>,
    anchors: Seq<Option<Seq<char>>>,
    root: Option<Seq<char>>,
    i: int,
    j: int,
    k: int,
)
    requires
        ids_of(nodes).no_duplicates(),
        anchors.len() == nodes.len(),
        0 <= i < nodes.len(),
        0 <= j < nodes.len(),
        0 <= k < nodes.len(),
    ensures
        !earlier(nodes, anchors, root, i, i),
        i != j ==> earlier(nodes, anchors, root, i, j) != earlier(nodes, anchors, root, j, i),
        earlier(nodes, anchors, root, i, j) && earlier(nodes, anchors, root, j, k) ==> earlier(
            nodes,
            anchors,
            root,
            i,
            k,
        ),
        root == Some(nodes[i].id) && i != j ==> earlier(nodes, anchors, root, i, j),
        root != Some(nodes[i].id) && root != Some(nodes[j].id) ==> earlier(
            nodes,
            anchors,
            root,
            i,
            j,
        ) == match (anchors[i], anchors[j]) {
            (Some(a), Some(b)) => before(a, b) || (a == b && i < j),
            (Some(_), None) => true,
            (None, Some(_)) => false,
            (None, None) => i < j,
        },
{
    if earlier(nodes, anchors, root, i, j) && earlier(nodes, anchors, root, j, k) {
        lemma_earlier_transitive(nodes, anchors, root, i, j, k);
    }
    if !earlier(nodes, anchors, root, i, j) && i != j {
        lemma_earlier_total(nodes, anchors, root, i, j);
    }
    if anchors[i] is Some {
        lemma_before_irreflexive(anchors[i]->0);
        if anchors[j] is Some && before(anchors[i]->0, anchors[j]->0) && before(
            anchors[j]->0,
            anchors[i]->0,
        ) {
            lemma_before_transitive(anchors[i]->0, anchors[j]->0, anchors[i]->0);
        }
        if anchors[j] is Some {
            lemma_before_irreflexive(anchors[j]->0);
        }
    }
    assert(ids_of(nodes)[i] == nodes[i].id && ids_of(nodes)[j] == nodes[j].id);
}

/// Whether node `i` is to be numbered before node `j`.
fn comes_first(
    nodes: &Vec<ViewerNode>,
    anchors: &Vec<Option<String>>,
    root: Option<&String>,
    i: usize,
    j: usize,
) -> (r: bool)
    requires
        i < nodes@.len(),
        j < nodes@.len(),
        anchors@.len() == nodes@.len(),
    ensures
        r == earlier(
            nodes.deep_view(),
            anchors.deep_view(),
            root.deep_view(),
            i as int,
            j as int,
        ),
{
    assert(nodes.deep_view()[i as int].id == nodes@[i as int].id@);
    assert(nodes.deep_view()[j as int].id == nodes@[j as int].id@);
    assert(anchors.deep_view()[i as int] == anchors@[i as int].deep_view());
    assert(anchors.deep_view()[j as int] == anchors@[j as int].deep_view());
    let (i_is_root, j_is_root) = match root {
        Some(root) => (same(root, &nodes[i].id), same(root, &nodes[j].id)),
        None => (false, false),
    };
    if i_is_root != j_is_root {
        return i_is_root;
    }
    match (&anchors[i], &anchors[j]) {
        (Some(a), Some(b)) => precedes(a, b) || (same(a, b) && i < j),
        (Some(_), None) => true,
        (None, Some(_)) => false,
        (None, None) => i < j,
    }
}

proof fn lemma_all_placed(order: Seq<int>, n: nat)
    requires
        order.no_duplicates(),
        forall|t: int| 0 <= t < order.len() ==> 0 <= #[trigger] order[t] < n,
    ensures
        order.len() <= n,
        order.len() == n ==> forall|i: int| 0 <= i < n ==> #[trigger] order.contains(i),
        order.len() < n ==> exists|i: int| 0 <= i < n && !#[trigger] order.contains(i),
{
    let all = vstd::set_lib::set_int_range(0, n as int);
    vstd::set_lib::lemma_int_range(0, n as int);
    order.unique_seq_to_set();
    let used = order.to_set();
    assert forall|i: int| used.contains(i) implies all.contains(i) by {
        let t = choose|t: int| 0 <= t < order.len() && order[t] == i;
    }
    vstd::set_lib::lemma_len_subset(used, all);
    if order.len() == n {
        vstd::set_lib::lemma_subset_equality(used, all);
        assert forall|i: int| 0 <= i < n implies #[trigger] order.contains(i) by {
            assert(all.contains(i));
            assert(used.contains(i));
        }
    } else if forall|i: int| 0 <= i < n ==> #[trigger] order.contains(i) {
        assert forall|i: int| all.contains(i) implies used.contains(i) by {
            assert(order.contains(i));
        }
        vstd::set_lib::lemma_len_subset(all, used);
    }
}

/// Whether the nodes hang together as a forest: no id stands twice, each node has the parent
/// that the table gives it, each parent is a node, and no way up runs in a circle.
pub open spec fn forest(nodes: Seq<Node>, parents: Seq<(Seq<char>, Seq<char>)>) -> bool {
    &&& ids_of(nodes).no_duplicates()
    &&& forall|i: int|
        0 <= i < nodes.len() ==> (#[trigger] nodes[i]).parent == member(parents, nodes[i].id)
    &&& forall|i: int|
        0 <= i < nodes.len() && (#[trigger] nodes[i]).parent is Some ==> ids_of(nodes).contains(
            nodes[i].parent->0,
        )
    &&& forall|i: int|
        0 <= i < nodes.len() ==> climb(parents, (#[trigger] nodes[i]).id, parents.len()) is Some
}

/// In a forest in which some node is not placed, there is one whose parent is.
proof fn lemma_ready(
    nodes: Seq<Node>,
    parents: Seq<(Seq<char>, Seq<char>)>,
    up: Seq<Option<usize>>,
    placed: Seq<bool>,
    i: int,
    steps: nat,
)
    requires
        forest(nodes, parents),
        up.len() == nodes.len(),
        placed.len() == nodes.len(),
        linked(nodes, up),
        0 <= i < nodes.len(),
        !placed[i],
        climb(parents, nodes[i].id, steps) is Some,
    ensures
        exists|j: int| 0 <= j < nodes.len() && #[trigger] free(up, placed, j),
    decreases steps,
{
    if free(up, placed, i) {
    } else {
        let q = up[i]->0 as int;
        assert(nodes[i].parent == Some(nodes[q].id));
        lemma_ready(nodes, parents, up, placed, q, (steps - 1) as nat);
    }
}

/// Whether `up` gives the position of each node's parent.
pub open spec fn linked(nodes: Seq<Node>, up: Seq<Option<usize>>) -> bool {
    &&& up.len() == nodes.len()
    &&& forall|i: int|
        0 <= i < nodes.len() ==> match #[trigger] up[i] {
            None => nodes[i].parent is None,
            Some(q) => q < nodes.len() && nodes[i].parent == Some(nodes[q as int].id),
        }
}

/// Whether node `j` can be placed next.
pub open spec fn free(up: Seq<Option<usize>>, placed: Seq<bool>, j: int) -> bool {
    !placed[j] && (up[j] is None || placed[up[j]->0 as int])
}

/// Whether the parent of node `j` is placed with a number below `k`.
pub open spec fn up_placed(
    up: Seq<Option<usize>>,
    placed: Seq<bool>,
    numbers: Seq<usize>,
    j: int,
    k: int,
) -> bool {
    up[j] is None || (placed[up[j]->0 as int] && numbers[up[j]->0 as int] < k)
}

/// The positions of the nodes' parents.
fn parent_positions(nodes: &Vec<ViewerNode>) -> (up: Vec<Option<usize>>)
    requires
        forall|i: int|
            0 <= i < nodes@.len() && (#[trigger] nodes.deep_view()[i]).parent is Some ==> ids_of(
                nodes.deep_view(),
            ).contains(nodes.deep_view()[i].parent->0),
    ensures
        linked(nodes.deep_view(), up@),
{
    let mut up: Vec<Option<usize>> = Vec::new();
    let ghost all = nodes.deep_view();
    let mut i: usize = 0;
    while i < nodes.len()
        invariant
            i <= nodes@.len(),
            all == nodes.deep_view(),
            up@.len() == i,
            forall|i: int|
                0 <= i < nodes@.len() && (#[trigger] all[i]).parent is Some ==> ids_of(
                    all,
                ).contains(all[i].parent->0),
            forall|j: int|
                0 <= j < i ==> match #[trigger] up@[j] {
                    None => all[j].parent is None,
                    Some(q) => q < all.len() && all[j].parent == Some(all[q as int].id),
                },
        decreases nodes@.len() - i,
    {
        assert(all[i as int].parent == nodes@[i as int].parent.deep_view());
        match &nodes[i].parent {
            None => up.push(None),
            Some(parent) => {
                let found = position(nodes, parent);
                proof {
                    let ids = ids_of(all);
                    assert(ids.contains(parent@));
                    let q = choose|q: int| 0 <= q < ids.len() && ids[q] == parent@;
                    assert(all[q].id == parent@);
                }
                up.push(found);
            },
        }
        i += 1;
    }
    up
}

/// Numbers the nodes as they came about.
fn assign_sequence(
    nodes: &mut Vec<ViewerNode>,
    anchors: &Vec<Option<String>>,
    parents: &Vec<(String, String)>,
    root: Option<&String>,
)
    requires
        forest(old(nodes).deep_view(), parents.deep_view()),
        anchors@.len() == old(nodes)@.len(),
        forall|i: int| 0 <= i < old(nodes)@.len() ==> (#[trigger] old(nodes)@[i]).sequence == 0,
    ensures
        numbered(final(nodes).deep_view(), anchors.deep_view(), root.deep_view()),
        unnumbered(final(nodes).deep_view()) == old(nodes).deep_view(),
{
    let n: usize = nodes.len();
    let up = parent_positions(nodes);
    let mut placed: Vec<bool> = Vec::new();
    let mut numbers: Vec<usize> = Vec::new();
    let mut i: usize = 0;
    while i < n
        invariant
            i <= n,
            placed@.len() == i,
            numbers@.len() == i,
            forall|j: int| 0 <= j < i ==> !placed@[j],
        decreases n - i,
    {
        placed.push(false);
        numbers.push(0);
        i += 1;
    }
    let ghost all = nodes.deep_view();
    let ghost marks = anchors.deep_view();
    let ghost top = root.deep_view();
    let ghost mut order: Seq<int> = Seq::empty();
    let mut k: usize = 0;
    while k < n
        invariant
            k <= n,
            n == nodes@.len(),
            *nodes == *old(nodes),
            all == nodes.deep_view(),
            marks == anchors.deep_view(),
            top == root.deep_view(),
            anchors@.len() == n,
            forest(all, parents.deep_view()),
            linked(all, up@),
            placed@.len() == n,
            numbers@.len() == n,
            order.len() == k,
            order.no_duplicates(),
            forall|t: int| 0 <= t < k ==> 0 <= #[trigger] order[t] < n,
            forall|i: int| 0 <= i < n ==> #[trigger] placed@[i] == order.contains(i),
            forall|i: int| 0 <= i < n && #[trigger] placed@[i] ==> numbers@[i] < k,
            forall|i: int, j: int|
                0 <= i < j < n && #[trigger] placed@[i] && #[trigger] placed@[j] ==> numbers@[i]
                    != numbers@[j],
            forall|i: int|
                0 <= i < n && #[trigger] placed@[i] ==> up_placed(
                    up@,
                    placed@,
                    numbers@,
                    i,
                    numbers@[i] as int,
                ),
            forall|i: int, j: int|
                0 <= i < n && 0 <= j < n && i != j && #[trigger] placed@[i] && (
                !#[trigger] placed@[j] || numbers@[i] < numbers@[j]) && up_placed(
                    up@,
                    placed@,
                    numbers@,
                    j,
                    numbers@[i] as int,
                ) ==> earlier(all, marks, top, i, j),
        decreases n - k,
    {
        proof {
            lemma_all_placed(order, n as nat);
            let miss = choose|i: int| 0 <= i < n && !#[trigger] order.contains(i);
            assert(!placed@[miss]);
            lemma_ready(
                all,
                parents.deep_view(),
                up@,
                placed@,
                miss,
                parents.deep_view().len(),
            );
        }
        let mut best: Option<usize> = None;
        let mut c: usize = 0;
        while c < n
            invariant
                c <= n,
                n == nodes@.len(),
                all == nodes.deep_view(),
                marks == anchors.deep_view(),
                top == root.deep_view(),
                anchors@.len() == n,
                linked(all, up@),
                placed@.len() == n,
                best is None ==> forall|j: int| 0 <= j < c ==> !#[trigger] free(up@, placed@, j),
                best matches Some(b) ==> b < c && free(up@, placed@, b as int) && forall|j: int|
                    0 <= j < c && j != b && #[trigger] free(up@, placed@, j) ==> earlier(
                        all,
                        marks,
                        top,
                        b as int,
                        j,
                    ),
            decreases n - c,
        {
            let open = !placed[c] && match up[c] {
                None => true,
                Some(q) => {
                    assert(up@[c as int] == Some(q));
                    placed[q]
                },
            };
            assert(open == free(up@, placed@, c as int));
            if open {
                match best {
                    None => {
                        best = Some(c);
                    },
                    Some(b) => {
                        if comes_first(nodes, anchors, root, c, b) {
                            proof {
                                assert forall|j: int|
                                    0 <= j < c && #[trigger] free(up@, placed@, j) implies earlier(
                                    all,
                                    marks,
                                    top,
                                    c as int,
                                    j,
                                ) by {
                                    if j != b {
                                        lemma_earlier_transitive(
                                            all,
                                            marks,
                                            top,
                                            c as int,
                                            b as int,
                                            j,
                                        );
                                    }
                                }
                            }
                            best = Some(c);
                        } else {
                            proof {
                                lemma_earlier_total(all, marks, top, c as int, b as int);
                            }
                        }
                    },
                }
            }
            c += 1;
        }
        if let Some(b) = best {
            let ghost was_placed = placed@;
            let ghost was_numbers = numbers@;
            placed.set(b, true);
            numbers.set(b, k);
            proof {
                assert(!order.contains(b as int));
                let now = order.push(b as int);
                assert forall|i: int| 0 <= i < n implies #[trigger] placed@[i]
                    == now.contains(i) by {
                    if order.contains(i) {
                        let t = choose|t: int| 0 <= t < order.len() && order[t] == i;
                        assert(now[t] == i);
                    }
                    if i == b {
                        assert(now[order.len() as int] == i);
                    }
                    assert(was_placed[i] == order.contains(i));
                }
                assert forall|i: int| 0 <= i < n && #[trigger] placed@[i] implies up_placed(
                    up@,
                    placed@,
                    numbers@,
                    i,
                    numbers@[i] as int,
                ) by {
                    if i != b {
                        assert(was_placed[i]);
                        assert(up_placed(up@, was_placed, was_numbers, i, was_numbers[i] as int));
                    }
                }
                assert forall|i: int, j: int|
                    0 <= i < n && 0 <= j < n && i != j && #[trigger] placed@[i] && (
                    !#[trigger] placed@[j] || numbers@[i] < numbers@[j]) && up_placed(
                        up@,
                        placed@,
                        numbers@,
                        j,
                        numbers@[i] as int,
                    ) implies earlier(all, marks, top, i, j) by {
                    if i == b {
                        // the one that was placed just now: `j` is still open
                        assert(numbers@[i] == k);
                        if placed@[j] {
                            assert(was_placed[j]);
                            assert(was_numbers[j] < k);
                        }
                        assert(!was_placed[j]);
                        assert(free(up@, was_placed, j));
                        assert(earlier(all, marks, top, b as int, j));
                    } else {
                        assert(was_placed[i]);
                        assert(was_numbers[i] < k);
                        assert(up_placed(up@, was_placed, was_numbers, j, was_numbers[i] as int));
                        assert(!was_placed[j] || was_numbers[i] < was_numbers[j]);
                        assert(earlier(all, marks, top, i, j));
                    }
                }
                order = now;
            }
        }
        k += 1;
    }
    proof {
        lemma_all_placed(order, n as nat);
        assert forall|i: int| 0 <= i < n implies placed@[i] by {
            assert(order.contains(i));
        }
    }
    let mut m: usize = 0;
    while m < n
        invariant
            m <= n,
            n == nodes@.len(),
            numbers@.len() == n,
            all == old(nodes).deep_view(),
            all.len() == n,
            forall|i: int| 0 <= i < old(nodes)@.len() ==> (#[trigger] old(nodes)@[i]).sequence == 0,
            forall|i: int|
                0 <= i < m ==> (#[trigger] nodes.deep_view()[i]) == (Node {
                    sequence: numbers@[i],
                    ..all[i]
                }),
            forall|i: int| m <= i < n ==> (#[trigger] nodes.deep_view()[i]) == all[i],
        decreases n - m,
    {
        let ghost was = nodes.deep_view();
        let number: usize = numbers[m];
        nodes[m].sequence = number;
        assert forall|i: int| 0 <= i < n implies (#[trigger] nodes.deep_view()[i]) == (if i == m {
            Node { sequence: number, ..all[i] }
        } else {
            was[i]
        }) by {}
        m += 1;
    }
    proof {
        let now = nodes.deep_view();
        assert(unnumbered(now) =~= all);
        lemma_numbered(all, now, marks, top, up@, placed@, numbers@);
    }
}

/// The nodes without their numbers.
pub open spec fn unnumbered(nodes: Seq<Node>) -> Seq<Node> {
    Seq::new(nodes.len(), |i: int| Node { sequence: 0, ..nodes[i] })
}

proof fn lemma_numbered(
    all: Seq<Node>,
    now: Seq<Node>,
    marks: Seq<Option<Seq<char>>>,
    top: Option<Seq<char>>,
    up: Seq<Option<usize>>,
    placed: Seq<bool>,
    numbers: Seq<usize>,
)
    requires
        ids_of(all).no_duplicates(),
        linked(all, up),
        now.len() == all.len(),
        placed.len() == all.len(),
        numbers.len() == all.len(),
        forall|i: int|
            0 <= i < all.len() ==> (#[trigger] now[i]) == (Node { sequence: numbers[i], ..all[i] }),
        forall|i: int| 0 <= i < all.len() ==> placed[i],
        forall|i: int| 0 <= i < all.len() && #[trigger] placed[i] ==> numbers[i] < all.len(),
        forall|i: int, j: int|
            0 <= i < j < all.len() && #[trigger] placed[i] && #[trigger] placed[j] ==> numbers[i]
                != numbers[j],
        forall|i: int|
            0 <= i < all.len() && #[trigger] placed[i] ==> up_placed(
                up,
                placed,
                numbers,
                i,
                numbers[i] as int,
            ),
        forall|i: int, j: int|
            0 <= i < all.len() && 0 <= j < all.len() && i != j && #[trigger] placed[i] && (
            !#[trigger] placed[j] || numbers[i] < numbers[j]) && up_placed(
                up,
                placed,
                numbers,
                j,
                numbers[i] as int,
            ) ==> earlier(all, marks, top, i, j),
    ensures
        numbered(now, marks, top),
{
    assert forall|i: int, k: int| 0 <= i < all.len() implies parent_placed(now, i, k) == up_placed(
        up,
        placed,
        numbers,
        i,
        k,
    ) by {
        assert(now[i].parent == all[i].parent);
        if up[i] is Some {
            let q = up[i]->0 as int;
            assert(now[q].id == all[q].id);
            if parent_placed(now, i, k) {
                let p = choose|p: int|
                    0 <= p < now.len() && (#[trigger] now[p]).id == now[i].parent->0
                        && now[p].sequence < k;
                assert(ids_of(all)[p] == ids_of(all)[q]);
                assert(p == q);
            }
            if up_placed(up, placed, numbers, i, k) {
                assert(now[q].id == now[i].parent->0 && now[q].sequence < k);
            }
        }
    }
    assert forall|i: int| 0 <= i < now.len() implies (#[trigger] now[i]).sequence < now.len() by {
        assert(placed[i]);
    }
    assert forall|i: int, j: int| 0 <= i < j < now.len() implies (#[trigger] now[i]).sequence != (
    #[trigger] now[j]).sequence by {
        assert(placed[i] && placed[j]);
    }
    assert forall|i: int| 0 <= i < now.len() implies parent_placed(
        now,
        i,
        (#[trigger] now[i]).sequence as int,
    ) by {
        assert(placed[i]);
    }
    assert forall|i: int, j: int|
        0 <= i < now.len() && 0 <= j < now.len() && (#[trigger] now[i]).sequence < (
        #[trigger] now[j]).sequence && parent_placed(
            now,
            j,
            now[i].sequence as int,
        ) implies earlier(now, marks, top, i, j) by {
        assert(placed[i] && placed[j]);
        assert(now[i].id == all[i].id && now[j].id == all[j].id);
        assert(earlier(all, marks, top, i, j));
    }
}

proof fn lemma_required_each(
    list: Seq<Tree>,
    key: Seq<char>,
    owner: Seq<char>,
    i: nat,
    found: Seq<Seq<char>>,
)
    requires
        i <= list.len(),
        required_each(list, key, owner, i, found) is Ok,
    ensures
        ({
            let all = required_each(list, key, owner, i, found)->Ok_0;
            &&& all.len() == found.len() + list.len() - i
            &&& forall|k: int| 0 <= k < found.len() ==> #[trigger] all[k] == found[k]
            &&& forall|k: int|
                found.len() <= k < all.len() ==> required(list[i + k - found.len()], key, owner)
                    == Ok::<Seq<char>, Seq<char>>(#[trigger] all[k])
        }),
    decreases list.len() - i,
{
    if i < list.len() {
        let text = required(list[i as int], key, owner)->Ok_0;
        lemma_required_each(list, key, owner, i + 1, found.push(text));
        let all = required_each(list, key, owner, i, found)->Ok_0;
        assert(all[found.len() as int] == found.push(text)[found.len() as int]);
        assert forall|k: int| 0 <= k < found.len() implies #[trigger] all[k] == found[k] by {
            assert(all[k] == found.push(text)[k]);
        }
    }
}

proof fn lemma_nodes_from(
    list: Seq<Tree>,
    parents: Seq<(Seq<char>, Seq<char>)>,
    i: nat,
    made: Seq<Node>,
)
    requires
        i <= list.len(),
        nodes_from(list, parents, i, made) is Ok,
    ensures
        ({
            let all = nodes_from(list, parents, i, made)->Ok_0;
            &&& all.len() == made.len() + list.len() - i
            &&& forall|k: int| 0 <= k < made.len() ==> #[trigger] all[k] == made[k]
            &&& forall|k: int|
                made.len() <= k < all.len() ==> node_of(list[i + k - made.len()], parents) == Ok::<
                    Node,
                    Seq<char>,
                >(#[trigger] all[k])
        }),
    decreases list.len() - i,
{
    if i < list.len() {
        let node = node_of(list[i as int], parents)->Ok_0;
        lemma_nodes_from(list, parents, i + 1, made.push(node));
        let all = nodes_from(list, parents, i, made)->Ok_0;
        assert(all[made.len() as int] == made.push(node)[made.len() as int]);
        assert forall|k: int| 0 <= k < made.len() implies #[trigger] all[k] == made[k] by {
            assert(all[k] == made.push(node)[k]);
        }
    }
}

/// The parents of a backbone are nodes.
proof fn lemma_parents_are_nodes(
    edges: Seq<Tree>,
    node_ids: Seq<Seq<char>>,
    i: nat,
    parents: Seq<(Seq<char>, Seq<char>)>,
    id: Seq<char>,
)
    requires
        i <= edges.len(),
        parents_from(edges, node_ids, i, parents) is Ok,
        member(parents, id) is Some ==> node_ids.contains(member(parents, id)->0),
    ensures
        ({
            let all = parents_from(edges, node_ids, i, parents)->Ok_0;
            member(all, id) is Some ==> node_ids.contains(member(all, id)->0)
        }),
    decreases edges.len() - i,
{
    if i < edges.len() {
        if !on_backbone(edges[i as int]) {
            lemma_parents_are_nodes(edges, node_ids, i + 1, parents, id);
        } else {
            let (to, from) = backbone_edge(edges[i as int], node_ids)->Ok_0;
            crate::table::put_then_member(parents, to, from, id);
            lemma_parents_are_nodes(edges, node_ids, i + 1, put(parents, to, from), id);
        }
    }
}

/// Each node's id is in the table of the roots that the nodes name.
proof fn lemma_node_roots(
    nodes: Seq<Tree>,
    roots: Seq<Seq<char>>,
    i: nat,
    named: Seq<(Seq<char>, Seq<char>)>,
    id: Seq<char>,
)
    requires
        i <= nodes.len(),
        node_roots_from(nodes, roots, i, named) is Ok,
        member(named, id) is Some || exists|k: int|
            i <= k < nodes.len() && required(#[trigger] nodes[k], "id"@, "node"@) == Ok::<
                Seq<char>,
                Seq<char>,
            >(id),
    ensures
        member(node_roots_from(nodes, roots, i, named)->Ok_0, id) is Some,
    decreases nodes.len() - i,
{
    if i < nodes.len() {
        let here = required(nodes[i as int], "id"@, "node"@)->Ok_0;
        let root = required(nodes[i as int], "root_id"@, "node"@)->Ok_0;
        crate::table::put_then_member(named, here, root, id);
        let next = put(named, here, root);
        if member(next, id) is None {
            let k = choose|k: int|
                i <= k < nodes.len() && required(#[trigger] nodes[k], "id"@, "node"@) == Ok::<
                    Seq<char>,
                    Seq<char>,
                >(id);
            assert(k != i);
            assert(i + 1 <= k < nodes.len() && required(nodes[k], "id"@, "node"@) == Ok::<
                Seq<char>,
                Seq<char>,
            >(id));
        }
        lemma_node_roots(nodes, roots, i + 1, next, id);
    }
}

proof fn lemma_ways(
    parents: Seq<(Seq<char>, Seq<char>)>,
    roots: Seq<Seq<char>>,
    named: Seq<(Seq<char>, Seq<char>)>,
    i: nat,
    k: int,
)
    requires
        ways_fault(parents, roots, named, i) is None,
        i <= k < named.len(),
    ensures
        way_fault(parents, roots, named[k].0, named[k].1) is None,
    decreases k - i,
{
    if i < k {
        lemma_ways(parents, roots, named, i + 1, k);
    }
}

/// A graph that passes the checks hangs together as a forest.
pub proof fn lemma_forest(
    raw_nodes: Seq<Tree>,
    raw_edges: Seq<Tree>,
    roots: Seq<Seq<char>>,
    node_ids: Seq<Seq<char>>,
    parents: Seq<(Seq<char>, Seq<char>)>,
    nodes: Seq<Node>,
)
    requires
        required_each(raw_nodes, "id"@, "node"@, 0, Seq::empty()) == Ok::<
            Seq<Seq<char>>,
            Seq<char>,
        >(node_ids),
        node_ids.no_duplicates(),
        parents_from(raw_edges, node_ids, 0, Seq::empty()) == Ok::<
            Seq<(Seq<char>, Seq<char>)>,
            Seq<char>,
        >(parents),
        nodes_from(raw_nodes, parents, 0, Seq::empty()) == Ok::<Seq<Node>, Seq<char>>(nodes),
        backbone_fault(raw_nodes, roots, parents) is None,
    ensures
        forest(nodes, parents),
        ids_of(nodes) == node_ids,
        nodes.len() == raw_nodes.len(),
        forall|i: int| 0 <= i < nodes.len() ==> (#[trigger] nodes[i]).sequence == 0,
{
    lemma_required_each(raw_nodes, "id"@, "node"@, 0, Seq::empty());
    lemma_nodes_from(raw_nodes, parents, 0, Seq::empty());
    assert forall|k: int| 0 <= k < nodes.len() implies (#[trigger] nodes[k]).id == node_ids[k]
        && nodes[k].parent == member(parents, nodes[k].id) && nodes[k].sequence == 0 by {
        assert(node_of(raw_nodes[k], parents) == Ok::<Node, Seq<char>>(nodes[k]));
        assert(required(raw_nodes[k], "id"@, "node"@) == Ok::<Seq<char>, Seq<char>>(node_ids[k]));
    }
    assert(ids_of(nodes) =~= node_ids);
    assert forall|k: int|
        0 <= k < nodes.len() && (#[trigger] nodes[k]).parent is Some implies ids_of(
        nodes,
    ).contains(nodes[k].parent->0) by {
        lemma_parents_are_nodes(raw_edges, node_ids, 0, Seq::empty(), nodes[k].id);
    }
    let named = node_roots_from(raw_nodes, roots, 0, Seq::empty())->Ok_0;
    assert forall|k: int| 0 <= k < nodes.len() implies climb(
        parents,
        (#[trigger] nodes[k]).id,
        parents.len(),
    ) is Some by {
        assert(required(raw_nodes[k], "id"@, "node"@) == Ok::<Seq<char>, Seq<char>>(node_ids[k]));
        lemma_node_roots(raw_nodes, roots, 0, Seq::empty(), nodes[k].id);
        crate::table::lemma_found_is_row(named, nodes[k].id);
        let row = choose|row: int|
            0 <= row < named.len() && #[trigger] named[row] == (
                nodes[k].id,
                member(named, nodes[k].id)->0,
            );
        lemma_ways(parents, roots, named, 0, row);
    }
}

/// The first node of an id.
pub open spec fn node_named(nodes: Seq<Node>, id: Seq<char>, i: nat) -> Option<Node>
    decreases nodes.len() - i,
{
    if i >= nodes.len() {
        None
    } else if nodes[i as int].id == id {
        Some(nodes[i as int])
    } else {
        node_named(nodes, id, i + 1)
    }
}

fn find_node<'a>(nodes: &'a Vec<ViewerNode>, id: &str) -> (r: Option<&'a ViewerNode>)
    ensures
        r.deep_view() == node_named(nodes.deep_view(), id@, 0),
{
    let mut i: usize = 0;
    while i < nodes.len()
        invariant
            i <= nodes@.len(),
            node_named(nodes.deep_view(), id@, 0) == node_named(
                nodes.deep_view(),
                id@,
                i as nat,
            ),
        decreases nodes@.len() - i,
    {
        assert(nodes.deep_view()[i as int] == nodes@[i as int].deep_view());
        if same(&nodes[i].id, id) {
            return Some(&nodes[i]);
        }
        i += 1;
    }
    None
}

/// The title of a graph: that of its active root, or else of its first root, or else one made
/// of the session.
pub open spec fn title_of(
    nodes: Seq<Node>,
    active_root: Option<Seq<char>>,
    roots: Seq<Seq<char>>,
    session_id: Seq<char>,
) -> Seq<char> {
    let active = match active_root {
        Some(id) => node_named(nodes, id, 0),
        None => None,
    };
    let first = if roots.len() > 0 {
        node_named(nodes, roots[0], 0)
    } else {
        None
    };
    match (active, first) {
        (Some(node), _) => node.title,
        (None, Some(node)) => node.title,
        (None, None) => "Causal DAG · "@ + prefix(session_id, 8),
    }
}

fn graph_title(
    nodes: &Vec<ViewerNode>,
    active_root: &Option<String>,
    roots: &Vec<String>,
    session_id: &str,
) -> (r: String)
    ensures
        r@ == title_of(
            nodes.deep_view(),
            active_root.deep_view(),
            roots.deep_view(),
            session_id@,
        ),
{
    if let Some(id) = active_root {
        if let Some(node) = find_node(nodes, id) {
            return node.title.clone();
        }
    }
    if roots.len() > 0 {
        assert(roots.deep_view()[0] == roots@[0]@);
        if let Some(node) = find_node(nodes, &roots[0]) {
            return node.title.clone();
        }
    }
    join2("Causal DAG · ", &prefix_text(session_id, 8))
}

/// A title does not look at the numbers of the nodes.
proof fn lemma_title_unnumbered(
    nodes: Seq<Node>,
    active_root: Option<Seq<char>>,
    roots: Seq<Seq<char>>,
    session_id: Seq<char>,
)
    ensures
        title_of(nodes, active_root, roots, session_id) == title_of(
            unnumbered(nodes),
            active_root,
            roots,
            session_id,
        ),
{
    if active_root is Some {
        lemma_named_unnumbered(nodes, active_root->0, 0);
    }
    if roots.len() > 0 {
        lemma_named_unnumbered(nodes, roots[0], 0);
    }
}

proof fn lemma_named_unnumbered(nodes: Seq<Node>, id: Seq<char>, i: nat)
    ensures
        match node_named(nodes, id, i) {
            Some(node) => node_named(unnumbered(nodes), id, i) == Some(Node { sequence: 0, ..node }),
            None => node_named(unnumbered(nodes), id, i) is None,
        },
    decreases nodes.len() - i,
{
    if i < nodes.len() {
        assert(unnumbered(nodes)[i as int].id == nodes[i as int].id);
        lemma_named_unnumbered(nodes, id, i + 1);
    }
}

/// What is read of the lists of a graph artifact: all but the numbers of the nodes.
pub open spec fn drawn_of_lists(
    artifact: Tree,
    raw_nodes: Seq<Tree>,
    raw_edges: Seq<Tree>,
) -> Result<Dag, Seq<char>> {
    let forest = artifact.at("forest"@);
    match text_list(forest.get("roots"@), "forest.roots"@) {
        Err(e) => Err(e),
        Ok(roots) => match optional_field(forest.get("active_root"@), "forest.active_root"@) {
            Err(e) => Err(e),
            Ok(active_root) => match required_each(raw_nodes, "id"@, "node"@, 0, Seq::empty()) {
                Err(e) => Err(e),
                Ok(node_ids) => if !node_ids.no_duplicates() {
                    Err("causal-dag artifact has duplicate node ids"@)
                } else {
                    match required_each(raw_edges, "id"@, "edge"@, 0, Seq::empty()) {
                        Err(e) => Err(e),
                        Ok(edge_ids) => if !edge_ids.no_duplicates() {
                            Err("causal-dag artifact has duplicate edge ids"@)
                        } else {
                            drawn_of_parts(
                                artifact,
                                raw_nodes,
                                raw_edges,
                                roots,
                                active_root,
                                node_ids,
                            )
                        },
                    }
                },
            },
        },
    }
}

/// What is read of the lists, once roots and ids are known.
pub open spec fn drawn_of_parts(
    artifact: Tree,
    raw_nodes: Seq<Tree>,
    raw_edges: Seq<Tree>,
    roots: Seq<Seq<char>>,
    active_root: Option<Seq<char>>,
    node_ids: Seq<Seq<char>>,
) -> Result<Dag, Seq<char>> {
    match parents_from(raw_edges, node_ids, 0, Seq::empty()) {
        Err(e) => Err(e),
        Ok(parents) => match nodes_from(raw_nodes, parents, 0, Seq::empty()) {
            Err(e) => Err(e),
            Ok(nodes) => match roots_fault(roots, nodes, parents) {
                Some(e) => Err(e),
                None => match backbone_fault(raw_nodes, roots, parents) {
                    Some(e) => Err(e),
                    None => if active_root is Some && !roots.contains(active_root->0) {
                        Err("causal-dag artifact active_root is not one of forest.roots"@)
                    } else {
                        match arcs_from(raw_edges, node_ids, 0, Seq::empty()) {
                            Err(e) => Err(e),
                            Ok(arcs) => match artifact.at("session"@).text_at("id"@) {
                                None => Err("causal-dag artifact is missing session.id"@),
                                Some(session_id) => Ok(
                                    Dag {
                                        session_id,
                                        title: title_of(nodes, active_root, roots, session_id),
                                        operation: match artifact.at("construction"@).text_at(
                                            "operation"@,
                                        ) {
                                            Some(operation) => operation,
                                            None => "snapshot"@,
                                        },
                                        active_root,
                                        roots,
                                        nodes,
                                        arcs,
                                    },
                                ),
                            },
                        }
                    },
                },
            },
        },
    }
}

/// What is read of a graph artifact: all but the numbers of the nodes.
pub open spec fn drawn(artifact: Tree) -> Result<Dag, Seq<char>> {
    let schema = artifact.text_at("schema"@);
    if schema != Some(SCHEMA_NAME@) && schema != Some(RESEARCH_DAG_SCHEMA@) {
        Err(
            "causal-dag visualization requires `"@ + SCHEMA_NAME@ + "` or `"@
                + RESEARCH_DAG_SCHEMA@ + "`"@,
        )
    } else if artifact.at("forest"@).object() is None {
        Err("causal-dag artifact is missing `forest`"@)
    } else {
        match artifact.at("forest"@).list_at("nodes"@) {
            None => Err("causal-dag artifact is missing `forest.nodes`"@),
            Some(raw_nodes) => match artifact.at("forest"@).list_at("edges"@) {
                None => Err("causal-dag artifact is missing `forest.edges`"@),
                Some(raw_edges) => drawn_of_lists(artifact, raw_nodes, raw_edges),
            },
        }
    }
}

/// The root from which a graph is numbered.
pub open spec fn sequence_root(dag: Dag) -> Option<Seq<char>> {
    match dag.active_root {
        Some(id) => Some(id),
        None => if dag.roots.len() > 0 {
            Some(dag.roots[0])
        } else {
            None
        },
    }
}

/// Whether an outcome is the graph of an artifact: what is read of it, with the nodes numbered
/// as they came about; or the fault of the artifact.
pub open spec fn draws(r: Result<ViewerDag, ExtensionError>, artifact: Tree) -> bool {
    match r {
        Ok(dag) => {
            let now = dag.deep_view();
            &&& drawn(artifact) == Ok::<Dag, Seq<char>>(Dag { nodes: unnumbered(now.nodes), ..now })
            &&& numbered(
                now.nodes,
                anchors_of(artifact.at("forest"@).list_at("nodes"@)->0),
                sequence_root(now),
            )
        },
        Err(e) => e is Message && drawn(artifact) == Err::<Dag, Seq<char>>(e->Message_0@),
    }
}

fn dag_of_lists(artifact: &Json, raw_nodes: &Vec<Json>, raw_edges: &Vec<Json>, forest: &Json) -> (r:
    Result<ViewerDag, ExtensionError>)
    requires
        forest@ == artifact@.at("forest"@),
    ensures
        match r {
            Ok(dag) => {
                let now = dag.deep_view();
                &&& drawn_of_lists(artifact@, raw_nodes.deep_view(), raw_edges.deep_view()) == Ok::<
                    Dag,
                    Seq<char>,
                >(Dag { nodes: unnumbered(now.nodes), ..now })
                &&& numbered(
                    now.nodes,
                    anchors_of(raw_nodes.deep_view()),
                    sequence_root(now),
                )
            },
            Err(e) => e is Message && drawn_of_lists(
                artifact@,
                raw_nodes.deep_view(),
                raw_edges.deep_view(),
            ) == Err::<Dag, Seq<char>>(e->Message_0@),
        },
{
    let roots = match string_array(forest.get("roots"), "forest.roots") {
        Ok(roots) => roots,
        Err(e) => return Err(e),
    };
    let active_root = match optional_string(forest.get("active_root"), "forest.active_root") {
        Ok(root) => root,
        Err(e) => return Err(e),
    };
    let node_ids = match required_strings(raw_nodes, "id", "node") {
        Ok(ids) => ids,
        Err(e) => return Err(e),
    };
    if !all_differ(&node_ids) {
        return Err(input_error("causal-dag artifact has duplicate node ids"));
    }
    let edge_ids = match required_strings(raw_edges, "id", "edge") {
        Ok(ids) => ids,
        Err(e) => return Err(e),
    };
    if !all_differ(&edge_ids) {
        return Err(input_error("causal-dag artifact has duplicate edge ids"));
    }
    let parents = match backbone_parents(raw_edges, &node_ids) {
        Ok(parents) => parents,
        Err(e) => return Err(e),
    };
    let mut nodes = match viewer_nodes(raw_nodes, &parents) {
        Ok(nodes) => nodes,
        Err(e) => return Err(e),
    };
    match validate_roots(&roots, &nodes, &parents) {
        Ok(()) => {},
        Err(e) => return Err(e),
    }
    match validate_backbone(raw_nodes, &roots, &parents) {
        Ok(()) => {},
        Err(e) => return Err(e),
    }
    if let Some(root) = &active_root {
        if !holds(&roots, root) {
            return Err(
                input_error("causal-dag artifact active_root is not one of forest.roots"),
            );
        }
    }
    let ghost plain = nodes.deep_view();
    proof {
        lemma_forest(
            raw_nodes.deep_view(),
            raw_edges.deep_view(),
            roots.deep_view(),
            node_ids.deep_view(),
            parents.deep_view(),
            plain,
        );
        assert forall|i: int| 0 <= i < nodes@.len() implies (#[trigger] nodes@[i]).sequence
            == 0 by {
            assert(plain[i].sequence == 0);
        }
    }
    let anchors = sequence_anchors(raw_nodes);
    assert(anchors.deep_view().len() == anchors@.len());
    let first = if roots.len() > 0 {
        assert(roots.deep_view()[0] == roots@[0]@);
        Some(&roots[0])
    } else {
        None
    };
    let root = match &active_root {
        Some(root) => Some(root),
        None => first,
    };
    assign_sequence(&mut nodes, &anchors, &parents, root);
    let arcs = match viewer_arcs(raw_edges, &node_ids) {
        Ok(arcs) => arcs,
        Err(e) => return Err(e),
    };
    let session = match artifact.get("session") {
        Some(session) => session.text_at("id"),
        None => None,
    };
    let session_id = match session {
        Some(id) => id.clone(),
        None => return Err(input_error("causal-dag artifact is missing session.id")),
    };
    let found = match artifact.get("construction") {
        Some(construction) => construction.text_at("operation"),
        None => None,
    };
    let operation = match found {
        Some(operation) => operation.clone(),
        None => "snapshot".to_owned(),
    };
    let title = graph_title(&nodes, &active_root, &roots, &session_id);
    proof {
        lemma_title_unnumbered(
            nodes.deep_view(),
            active_root.deep_view(),
            roots.deep_view(),
            session_id@,
        );
    }
    Ok(ViewerDag { session_id, title, operation, active_root, roots, nodes, arcs })
}

impl ViewerDag {
    /// The graph of an artifact as the views draw it.
    pub fn from_artifact(artifact: &Json) -> (r: Result<Self, ExtensionError>)
        ensures
            draws(r, artifact@),
    {
        let known = match artifact.text_at("schema") {
            Some(schema) => same(schema, SCHEMA_NAME) || same(schema, RESEARCH_DAG_SCHEMA),
            None => false,
        };
        if !known {
            return Err(
                fault(
                    join5(
                        "causal-dag visualization requires `",
                        SCHEMA_NAME,
                        "` or `",
                        RESEARCH_DAG_SCHEMA,
                        "`",
                    ),
                ),
            );
        }
        let forest = match artifact.get("forest") {
            Some(forest) => forest,
            None => return Err(input_error("causal-dag artifact is missing `forest`")),
        };
        match forest.as_object() {
            Some(_) => {},
            None => return Err(input_error("causal-dag artifact is missing `forest`")),
        }
        let raw_nodes = match forest.list_at("nodes") {
            Some(list) => list,
            None => return Err(input_error("causal-dag artifact is missing `forest.nodes`")),
        };
        let raw_edges = match forest.list_at("edges") {
            Some(list) => list,
            None => return Err(input_error("causal-dag artifact is missing `forest.edges`")),
        };
        dag_of_lists(artifact, raw_nodes, raw_edges, forest)
    }

    pub fn node_count(&self) -> (r: usize)
        ensures
            r == self.deep_view().nodes.len(),
    {
        self.nodes.len()
    }

    /// The number of edges: one for each node that is no root, and the cross-arcs.
    pub fn edge_count(&self) -> (r: usize)
        requires
            edge_total(self.deep_view()) <= usize::MAX,
        ensures
            r == edge_total(self.deep_view()),
    {
        let below = if self.nodes.len() >= self.roots.len() {
            self.nodes.len() - self.roots.len()
        } else {
            0
        };
        below + self.arcs.len()
    }

    /// The number of cross-arcs that are annotations.
    pub fn cross_arc_count(&self) -> (r: usize)
        ensures
            r == annotations(self.deep_view().arcs, self.arcs@.len()),
    {
        let mut count: usize = 0;
        let mut i: usize = 0;
        while i < self.arcs.len()
            invariant
                i <= self.arcs@.len(),
                count <= i,
                count == annotations(self.arcs.deep_view(), i as nat),
            decreases self.arcs@.len() - i,
        {
            assert(self.arcs.deep_view()[i as int].class == self.arcs@[i as int].class@);
            if same(&self.arcs[i].class, "annotation") {
                count += 1;
            }
            i += 1;
        }
        count
    }

    /// A file name for the graph, without its extension.
    pub fn suggested_stem(&self) -> (r: String)
        ensures
            r@ == "dag-"@ + file_session(self.session_id@),
    {
        join2("dag-", &filename_session_id(&self.session_id))
    }

    /// The first node of an id.
    pub fn node_by_id(&self, id: &str) -> (r: Option<&ViewerNode>)
        ensures
            r.deep_view() == node_named(self.deep_view().nodes, id@, 0),
    {
        find_node(&self.nodes, id)
    }
}

/// The number of edges of a graph.
pub open spec fn edge_total(dag: Dag) -> nat {
    (if dag.nodes.len() >= dag.roots.len() {
        (dag.nodes.len() - dag.roots.len()) as nat
    } else {
        0
    }) + dag.arcs.len()
}

/// The number of annotations among the first `n` arcs.
pub open spec fn annotations(arcs: Seq<Arc>, n: nat) -> nat
    decreases n,
{
    if n == 0 {
        0
    } else {
        annotations(arcs, (n - 1) as nat) + (if arcs[n - 1].class == "annotation"@ {
            1nat
        } else {
            0
        })
    }
}

/// Whether a character is an ASCII letter or digit.
pub open spec fn is_alphanumeric(c: char) -> bool {
    let u = c as u32;
    0x30 <= u <= 0x39 || 0x41 <= u <= 0x5a || 0x61 <= u <= 0x7a
}

pub fn alphanumeric(c: char) -> (r: bool)
    ensures
        r == is_alphanumeric(c),
{
    let u: u32 = c as u32;
    (0x30 <= u && u <= 0x39) || (0x41 <= u && u <= 0x5a) || (0x61 <= u && u <= 0x7a)
}

/// The first eight characters, a hyphen for each that is no ASCII letter or digit.
pub open spec fn slug(s: Seq<char>) -> Seq<char> {
    Seq::new(
        prefix(s, 8).len(),
        |i: int|
            if is_alphanumeric(s[i]) {
                s[i]
            } else {
                '-'
            },
    )
}

/// A text without the hyphens at its start.
pub open spec fn from_hyphens(s: Seq<char>) -> Seq<char>
    decreases s.len(),
{
    if s.len() > 0 && s[0] == '-' {
        from_hyphens(s.drop_first())
    } else {
        s
    }
}

/// A text without the hyphens at its end.
pub open spec fn to_hyphens(s: Seq<char>) -> Seq<char>
    decreases s.len(),
{
    if s.len() > 0 && s.last() == '-' {
        to_hyphens(s.drop_last())
    } else {
        s
    }
}

/// A session id as a part of a file name.
pub open spec fn file_session(id: Seq<char>) -> Seq<char> {
    let s = to_hyphens(from_hyphens(slug(id)));
    if s.len() == 0 {
        "session"@
    } else {
        s
    }
}

/// A session id as a part of a file name.
pub fn filename_session_id(session_id: &str) -> (r: String)
    ensures
        r@ == file_session(session_id@),
{
    let all = chars_of(session_id);
    let n: usize = if all.len() <= 8 {
        all.len()
    } else {
        8
    };
    let mut v: Vec<char> = Vec::new();
    let mut i: usize = 0;
    while i < n
        invariant
            i <= n <= all@.len(),
            all@ == session_id@,
            v@.len() == i,
            forall|j: int|
                0 <= j < i ==> #[trigger] v@[j] == (if is_alphanumeric(all@[j]) {
                    all@[j]
                } else {
                    '-'
                }),
        decreases n - i,
    {
        v.push(
            if alphanumeric(all[i]) {
                all[i]
            } else {
                '-'
            },
        );
        i += 1;
    }
    assert(v@ =~= slug(session_id@));
    let mut from: usize = 0;
    assert(v@.subrange(0, n as int) =~= v@);
    while from < n && v[from] == '-'
        invariant
            from <= n == v@.len(),
            from_hyphens(v@.subrange(from as int, n as int)) == from_hyphens(v@),
        decreases n - from,
    {
        assert(v@.subrange(from as int, n as int).drop_first() =~= v@.subrange(
            from + 1,
            n as int,
        ));
        from += 1;
    }
    let ghost start = v@.subrange(from as int, n as int);
    assert(from_hyphens(v@) == start);
    let mut to: usize = n;
    while to > from && v[to - 1] == '-'
        invariant
            from <= to <= n == v@.len(),
            to_hyphens(v@.subrange(from as int, to as int)) == to_hyphens(start),
        decreases to,
    {
        assert(v@.subrange(from as int, to as int).drop_last() =~= v@.subrange(
            from as int,
            to - 1,
        ));
        to -= 1;
    }
    if from == to {
        assert(v@.subrange(from as int, to as int).len() == 0);
        return "session".to_owned();
    }
    slice_text(&v, from, to)
}

/// A file name part is never empty, has at most eight characters or is the word for a session,
/// and holds ASCII letters, digits and hyphens alone.
pub proof fn file_session_is_portable(id: Seq<char>)
    ensures
        1 <= file_session(id).len() <= 8,
        forall|i: int|
            0 <= i < file_session(id).len() ==> is_alphanumeric(#[trigger] file_session(id)[i])
                || file_session(id)[i] == '-',
{
    reveal_strlit("session");
    let s = slug(id);
    lemma_from_hyphens(s);
    lemma_to_hyphens(from_hyphens(s));
}

proof fn lemma_from_hyphens(s: Seq<char>)
    ensures
        from_hyphens(s).len() <= s.len(),
        forall|i: int| 0 <= i < from_hyphens(s).len() ==> s.contains(#[trigger] from_hyphens(s)[i]),
    decreases s.len(),
{
    if s.len() > 0 && s[0] == '-' {
        lemma_from_hyphens(s.drop_first());
        assert forall|i: int| 0 <= i < from_hyphens(s).len() implies s.contains(
            #[trigger] from_hyphens(s)[i],
        ) by {
            let c = from_hyphens(s.drop_first())[i];
            assert(s.drop_first().contains(c));
            let k = choose|k: int| 0 <= k < s.drop_first().len() && s.drop_first()[k] == c;
            assert(s[k + 1] == c);
        }
    }
}

proof fn lemma_to_hyphens(s: Seq<char>)
    ensures
        to_hyphens(s).len() <= s.len(),
        forall|i: int| 0 <= i < to_hyphens(s).len() ==> s.contains(#[trigger] to_hyphens(s)[i]),
    decreases s.len(),
{
    if s.len() > 0 && s.last() == '-' {
        lemma_to_hyphens(s.drop_last());
        assert forall|i: int| 0 <= i < to_hyphens(s).len() implies s.contains(
            #[trigger] to_hyphens(s)[i],
        ) by {
            let c = to_hyphens(s.drop_last())[i];
            assert(s.drop_last().contains(c));
            let k = choose|k: int| 0 <= k < s.drop_last().len() && s.drop_last()[k] == c;
            assert(s[k] == c);
        }
    }
}

proof fn lemma_least_ulid(sources: Seq<Tree>, n: nat)
    requires
        n <= sources.len(),
    ensures
        least_ulid(sources, n) is None ==> forall|k: int|
            0 <= k < n ==> cited_ulid(#[trigger] sources[k]) is None,
        least_ulid(sources, n) matches Some(id) ==> {
            &&& exists|k: int| 0 <= k < n && cited_ulid(#[trigger] sources[k]) == Some(id)
            &&& forall|k: int|
                0 <= k < n ==> (cited_ulid(#[trigger] sources[k]) matches Some(other) ==> !before(
                    other,
                    id,
                ))
        },
    decreases n,
{
    if n > 0 {
        let m = (n - 1) as nat;
        lemma_least_ulid(sources, m);
        let here = cited_ulid(sources[n - 1]);
        let was = least_ulid(sources, m);
        if here is Some {
            lemma_before_irreflexive(here->0);
        }
        if here is Some && was is Some && before(here->0, was->0) {
            assert forall|k: int| 0 <= k < n implies (cited_ulid(#[trigger] sources[k]) matches Some(
                other,
            ) ==> !before(other, here->0)) by {
                if k < m && cited_ulid(sources[k]) is Some && before(
                    cited_ulid(sources[k])->0,
                    here->0,
                ) {
                    lemma_before_transitive(cited_ulid(sources[k])->0, here->0, was->0);
                }
            }
            assert(cited_ulid(sources[n - 1]) == least_ulid(sources, n));
        } else if was is None {
            if here is Some {
                assert(cited_ulid(sources[n - 1]) == least_ulid(sources, n));
            }
        } else {
            let k = choose|k: int| 0 <= k < m && cited_ulid(#[trigger] sources[k]) == Some(was->0);
            assert(cited_ulid(sources[k]) == least_ulid(sources, n));
        }
    }
}

proof fn lemma_source_named(sources: Seq<Tree>, id: Seq<char>, i: nat)
    ensures
        source_named(sources, id, i) matches Some(source) ==> source.text_at("id"@) == Some(id)
            && exists|k: int| i <= k < sources.len() && #[trigger] sources[k] == source,
    decreases sources.len() - i,
{
    if i < sources.len() {
        if sources[i as int].text_at("id"@) == Some(id) {
            assert(sources[i as int] == source_named(sources, id, i)->0);
        } else {
            lemma_source_named(sources, id, i + 1);
        }
    }
}

/// A node is placed in time by the event that it says it occurred with, and else by the earliest
/// that it cites: an event that it cites in any case, under an id of twenty-six characters of
/// Crockford's alphabet.
pub proof fn nodes_occur_with_an_event_that_they_cite(node: Tree)
    ensures
        anchor_of(node) matches Some(id) ==> {
            &&& id.len() == 26
            &&& '0' as u32 <= id[0] as u32 <= '7' as u32
            &&& forall|i: int|
                0 <= i < 26 ==> is_base32(#[trigger] id[i]) && id[i] != 'I' && id[i] != 'L' && id[i]
                    != 'O' && id[i] != 'U'
            &&& node.list_at("source_refs"@) is Some
            &&& exists|k: int|
                0 <= k < node.list_at("source_refs"@)->0.len() && (#[trigger] node.list_at(
                    "source_refs"@,
                )->0[k]).text_at("event_id"@) == Some(id)
            &&& node.at("metadata"@).text_at("occurrence_source_ref_id"@) is None ==> forall|k: int|
                0 <= k < node.list_at("source_refs"@)->0.len() ==> (cited_ulid(
                    #[trigger] node.list_at("source_refs"@)->0[k],
                ) matches Some(other) ==> !before(other, id))
        },
{
    if anchor_of(node) is Some {
        let sources = node.list_at("source_refs"@)->0;
        let id = anchor_of(node)->0;
        lemma_least_ulid(sources, sources.len());
        let named = node.at("metadata"@).text_at("occurrence_source_ref_id"@);
        let explicit = named is Some && source_named(sources, named->0, 0) is Some && cited_ulid(
            source_named(sources, named->0, 0)->0,
        ) is Some;
        if explicit {
            lemma_source_named(sources, named->0, 0);
            let source = source_named(sources, named->0, 0)->0;
            let k = choose|k: int| 0 <= k < sources.len() && #[trigger] sources[k] == source;
            assert(sources[k].text_at("event_id"@) == Some(id));
        } else {
            let k = choose|k: int|
                0 <= k < sources.len() && cited_ulid(#[trigger] sources[k]) == Some(id);
            assert(sources[k].text_at("event_id"@) == Some(id));
        }
    }
}

/// Nodes are numbered from the active root, or where none is active from the first root. The
/// evidence of a node is the ends of the ids that it cites: the last eight characters of each that
/// is longer than ten, the first three of them in order, and how many more there are.
pub proof fn evidence_is_told_in_short(dag: Dag, id: Seq<char>, value: Tree)
    ensures
        dag.active_root is Some ==> sequence_root(dag) == dag.active_root,
        dag.active_root is None && dag.roots.len() > 0 ==> sequence_root(dag) == Some(dag.roots[0]),
        id.len() <= 10 ==> short_event(id) == id,
        id.len() > 10 ==> short_event(id).len() == 8 && short_event(id) == id.skip(id.len() - 8),
        value.list_at("source_refs"@) is None ==> evidence_of(value) == "none"@,
        value.list_at("source_refs"@) matches Some(sources) ==> {
            let ids = in_order(cited_short(sources, sources.len()));
            &&& ids.len() == 0 ==> evidence_of(value) == "none"@
            &&& ids.len() == 1 ==> evidence_of(value) == ids[0]
            &&& 1 < ids.len() <= 3 ==> evidence_of(value) == joined(ids, ", "@)
            &&& ids.len() > 3 ==> evidence_of(value) == joined(ids.take(3), ", "@) + " +"@ + decimal(
                (ids.len() - 3) as nat,
            )
        },
{
}

} // verus!
