//! The nodes, edges and warnings of graphs that are projected from events.

use super::labels::{
    edge_id, edge_name, edge_source_name, edge_source_ref_id, node_id, node_name,
    node_source_name, node_source_ref_id, padded, padded_number,
};
use super::sources::{source_tree, source_value};
use crate::event::{Event, EventEnvelope};
use crate::json::{texts, Json, Tree};
use crate::text::{join2, join5};
use vstd::prelude::*;

verus! {

/// What a graph of events goes by.
#[derive(Clone, Copy, Debug, PartialEq, Eq, Structural)]
pub enum Linkage {
    Order,
    Parents,
}

impl Linkage {
    pub open spec fn node_lead(self) -> Seq<char> {
        match self {
            Linkage::Order => "Projected from bounded provenance event "@,
            Linkage::Parents => "Projected from parent-linked provenance event "@,
        }
    }

    pub open spec fn basis_kind(self) -> Seq<char> {
        match self {
            Linkage::Order => "chronology"@,
            Linkage::Parents => "direct"@,
        }
    }

    pub open spec fn node_basis(self) -> Seq<char> {
        match self {
            Linkage::Order => {
                "v0 chronology projection from bounded provenance order; not causal lineage"@
            },
            Linkage::Parents => {
                "v0 structural projection from EventEnvelope.parent links in the bounded provenance page"@
            },
        }
    }

    pub open spec fn basis_name(self, root: bool) -> Seq<char> {
        match (self, root) {
            (Linkage::Order, false) => "bounded_chronology"@,
            (Linkage::Order, true) => "bounded_chronology_root"@,
            (Linkage::Parents, false) => "event_parent"@,
            (Linkage::Parents, true) => "event_parent_root"@,
        }
    }

    pub open spec fn class(self) -> Seq<char> {
        match self {
            Linkage::Order => "chronology"@,
            Linkage::Parents => "structural"@,
        }
    }

    pub open spec fn edge_kind(self) -> Seq<char> {
        match self {
            Linkage::Order => "sequence"@,
            Linkage::Parents => "continuation"@,
        }
    }

    pub open spec fn edge_summary(self, from: Event, to: Event) -> Seq<char> {
        match self {
            Linkage::Order => "Event "@ + to.id + " follows event "@ + from.id
                + " in the bounded provenance page; this is ordering, not causal lineage."@,
            Linkage::Parents => "Event "@ + to.id + " declares event "@ + from.id
                + " as its provenance parent."@,
        }
    }
}

/// The basis of a record: what kind it is, the one source it names, and a summary.
pub open spec fn basis_tree(kind: Seq<char>, source: Seq<char>, summary: Seq<char>) -> Tree {
    Tree::Object(
        seq![
            ("kind"@, Tree::Text(kind)),
            ("source_ref_ids"@, texts(seq![source])),
            ("summary"@, Tree::Text(summary)),
        ],
    )
}

fn basis_value(kind: &str, source: &str, summary: &str) -> (r: Json)
    ensures
        r@ == basis_tree(kind@, source@, summary@),
{
    broadcast use crate::json::object_model;

    let sources = vec![source.to_owned()];
    assert(sources.deep_view() =~= seq![source@]);
    let rows = vec![
        ("kind".to_owned(), Json::of_text(kind)),
        ("source_ref_ids".to_owned(), Json::of_texts(&sources)),
        ("summary".to_owned(), Json::of_text(summary)),
    ];
    assert(rows.deep_view() =~= basis_tree(kind@, source@, summary@)->Object_0);
    Json::Object(rows)
}

/// The one source of a record.
pub open spec fn one_source(source: Seq<char>, event: Event) -> Tree {
    Tree::List(seq![source_tree(source, "event"@, event, None, Tree::Null)])
}

fn one_source_value(source: &str, event: &EventEnvelope) -> (r: Json)
    ensures
        r@ == one_source(source@, event@),
{
    broadcast use crate::json::list_model;

    let list = vec![source_value(source, "event", event, &None, Json::Null)];
    assert(list.deep_view() =~= one_source(source@, event@)->List_0);
    Json::List(list)
}

/// What a node says of its label.
pub open spec fn label_tree(linkage: Linkage, label: Option<Seq<char>>) -> Tree {
    match label {
        None => Tree::Object(seq![("projection_basis"@, Tree::Text(linkage.basis_name(true)))]),
        Some(label) => Tree::Object(
            seq![
                ("backbone_label"@, Tree::Text(label)),
                ("projection_basis"@, Tree::Text(linkage.basis_name(false))),
            ],
        ),
    }
}

fn label_value(linkage: Linkage, label: &Option<String>) -> (r: Json)
    ensures
        r@ == label_tree(linkage, label.deep_view()),
{
    broadcast use crate::json::object_model;

    let basis = match (linkage, label.is_none()) {
        (Linkage::Order, false) => "bounded_chronology",
        (Linkage::Order, true) => "bounded_chronology_root",
        (Linkage::Parents, false) => "event_parent",
        (Linkage::Parents, true) => "event_parent_root",
    };
    let basis = ("projection_basis".to_owned(), Json::of_text(basis));
    let rows = match label {
        None => vec![basis],
        Some(label) => vec![("backbone_label".to_owned(), Json::of_text(label)), basis],
    };
    assert(rows.deep_view() =~= label_tree(linkage, label.deep_view())->Object_0);
    Json::Object(rows)
}

/// The node of an event. An event without a label is the root.
pub open spec fn event_node(
    linkage: Linkage,
    index: nat,
    event: Event,
    root: nat,
    label: Option<Seq<char>>,
) -> Tree {
    Tree::Object(
        seq![
            (
                "basis"@,
                basis_tree(linkage.basis_kind(), node_source_name(index), linkage.node_basis()),
            ),
            ("id"@, Tree::Text(node_name(index))),
            (
                "kind"@,
                Tree::Text(
                    if label is None {
                        "root"@
                    } else {
                        "checkpoint"@
                    },
                ),
            ),
            ("metadata"@, label_tree(linkage, label)),
            (
                "root_id"@,
                Tree::Text(
                    if label is None {
                        node_name(index)
                    } else {
                        node_name(root)
                    },
                ),
            ),
            ("source_refs"@, one_source(node_source_name(index), event)),
            ("status"@, Tree::Text("open"@)),
            ("summary"@, Tree::Text(linkage.node_lead() + event.kind + " at "@ + event.ts + "."@)),
            ("title"@, Tree::Text("Event "@ + padded(index + 1) + ": "@ + event.kind)),
        ],
    )
}

pub fn event_node_value(
    linkage: Linkage,
    index: usize,
    event: &EventEnvelope,
    root: usize,
    label: &Option<String>,
) -> (r: Json)
    ensures
        r@ == event_node(linkage, index as nat, event@, root as nat, label.deep_view()),
{
    broadcast use crate::json::object_model;

    let source = node_source_ref_id(index);
    let id = node_id(index);
    let root_id = match label {
        None => node_id(index),
        Some(_) => node_id(root),
    };
    let kind = match label {
        None => "root",
        Some(_) => "checkpoint",
    };
    let (lead, basis_kind, basis) = match linkage {
        Linkage::Order => (
            "Projected from bounded provenance event ",
            "chronology",
            "v0 chronology projection from bounded provenance order; not causal lineage",
        ),
        Linkage::Parents => (
            "Projected from parent-linked provenance event ",
            "direct",
            "v0 structural projection from EventEnvelope.parent links in the bounded provenance page",
        ),
    };
    let mut title = join2("Event ", &padded_number(index));
    title.push_str(": ");
    title.push_str(event.kind.as_str());
    let rows = vec![
        ("basis".to_owned(), basis_value(basis_kind, &source, basis)),
        ("id".to_owned(), Json::Text(id)),
        ("kind".to_owned(), Json::of_text(kind)),
        ("metadata".to_owned(), label_value(linkage, label)),
        ("root_id".to_owned(), Json::Text(root_id)),
        ("source_refs".to_owned(), one_source_value(&source, event)),
        ("status".to_owned(), Json::of_text("open")),
        (
            "summary".to_owned(),
            Json::Text(join5(lead, event.kind.as_str(), " at ", &event.ts, ".")),
        ),
        ("title".to_owned(), Json::Text(title)),
    ];
    assert(rows.deep_view() =~= event_node(
        linkage,
        index as nat,
        event@,
        root as nat,
        label.deep_view(),
    )->Object_0);
    Json::Object(rows)
}

/// The edge between two events, which cites the later one.
pub open spec fn event_edge(
    linkage: Linkage,
    index: nat,
    from: nat,
    from_event: Event,
    to: nat,
    to_event: Event,
) -> Tree {
    Tree::Object(
        seq![
            (
                "basis"@,
                basis_tree(
                    linkage.basis_kind(),
                    edge_source_name(index),
                    linkage.edge_summary(from_event, to_event),
                ),
            ),
            ("canonical_backbone"@, Tree::Bool(true)),
            ("class"@, Tree::Text(linkage.class())),
            ("from"@, Tree::Text(node_name(from))),
            ("id"@, Tree::Text(edge_name(index))),
            ("kind"@, Tree::Text(linkage.edge_kind())),
            ("metadata"@, Tree::Object(Seq::empty())),
            ("source_refs"@, one_source(edge_source_name(index), to_event)),
            ("to"@, Tree::Text(node_name(to))),
        ],
    )
}

pub fn event_edge_value(
    linkage: Linkage,
    index: usize,
    from: usize,
    from_event: &EventEnvelope,
    to: usize,
    to_event: &EventEnvelope,
) -> (r: Json)
    ensures
        r@ == event_edge(
            linkage,
            index as nat,
            from as nat,
            from_event@,
            to as nat,
            to_event@,
        ),
{
    broadcast use crate::json::object_model;

    let source = edge_source_ref_id(index);
    let (class, kind, basis_kind, relation, tail) = match linkage {
        Linkage::Order => (
            "chronology",
            "sequence",
            "chronology",
            " follows event ",
            " in the bounded provenance page; this is ordering, not causal lineage.",
        ),
        Linkage::Parents => (
            "structural",
            "continuation",
            "direct",
            " declares event ",
            " as its provenance parent.",
        ),
    };
    let summary = join5("Event ", &to_event.id, relation, &from_event.id, tail);
    let nothing: Vec<(String, Json)> = Vec::new();
    assert(nothing.deep_view() =~= Seq::empty());
    let rows = vec![
        ("basis".to_owned(), basis_value(basis_kind, &source, &summary)),
        ("canonical_backbone".to_owned(), Json::Bool(true)),
        ("class".to_owned(), Json::of_text(class)),
        ("from".to_owned(), Json::Text(node_id(from))),
        ("id".to_owned(), Json::Text(edge_id(index))),
        ("kind".to_owned(), Json::of_text(kind)),
        ("metadata".to_owned(), Json::Object(nothing)),
        ("source_refs".to_owned(), one_source_value(&source, to_event)),
        ("to".to_owned(), Json::Text(node_id(to))),
    ];
    assert(rows.deep_view() =~= event_edge(
        linkage,
        index as nat,
        from as nat,
        from_event@,
        to as nat,
        to_event@,
    )->Object_0);
    Json::Object(rows)
}

/// A warning of a projection.
pub open spec fn warning_tree(
    code: Seq<char>,
    severity: Seq<char>,
    message: Seq<char>,
    node_ids: Seq<Seq<char>>,
    edge_ids: Seq<Seq<char>>,
) -> Tree {
    Tree::Object(
        seq![
            ("code"@, Tree::Text(code)),
            ("edge_ids"@, texts(edge_ids)),
            ("message"@, Tree::Text(message)),
            ("node_ids"@, texts(node_ids)),
            ("severity"@, Tree::Text(severity)),
            ("source_ref_ids"@, texts(Seq::empty())),
        ],
    )
}

pub fn warning(
    code: &str,
    severity: &str,
    message: &str,
    node_ids: &Vec<String>,
    edge_ids: &Vec<String>,
) -> (r: Json)
    ensures
        r@ == warning_tree(
            code@,
            severity@,
            message@,
            node_ids.deep_view(),
            edge_ids.deep_view(),
        ),
{
    broadcast use crate::json::object_model;

    let none: Vec<String> = Vec::new();
    assert(none.deep_view() =~= Seq::empty());
    let rows = vec![
        ("code".to_owned(), Json::of_text(code)),
        ("edge_ids".to_owned(), Json::of_texts(edge_ids)),
        ("message".to_owned(), Json::of_text(message)),
        ("node_ids".to_owned(), Json::of_texts(node_ids)),
        ("severity".to_owned(), Json::of_text(severity)),
        ("source_ref_ids".to_owned(), Json::of_texts(&none)),
    ];
    assert(rows.deep_view() =~= warning_tree(
        code@,
        severity@,
        message@,
        node_ids.deep_view(),
        edge_ids.deep_view(),
    )->Object_0);
    Json::Object(rows)
}

/// The ids of the first nodes.
pub open spec fn node_names(n: nat) -> Seq<Seq<char>> {
    Seq::new(n, |i: int| node_name(i as nat))
}

pub fn node_ids(n: usize) -> (r: Vec<String>)
    ensures
        r.deep_view() == node_names(n as nat),
{
    let mut out: Vec<String> = Vec::new();
    let mut i: usize = 0;
    while i < n
        invariant
            i <= n,
            out@.len() == i,
            forall|j: int| 0 <= j < i ==> (#[trigger] out@[j])@ == node_name(j as nat),
        decreases n - i,
    {
        out.push(node_id(i));
        i += 1;
    }
    assert(out.deep_view() =~= node_names(n as nat));
    out
}

/// The ids of the first edges.
pub open spec fn edge_names(n: nat) -> Seq<Seq<char>> {
    Seq::new(n, |i: int| edge_name(i as nat))
}

pub fn edge_ids(n: usize) -> (r: Vec<String>)
    ensures
        r.deep_view() == edge_names(n as nat),
{
    let mut out: Vec<String> = Vec::new();
    let mut i: usize = 0;
    while i < n
        invariant
            i <= n,
            out@.len() == i,
            forall|j: int| 0 <= j < i ==> (#[trigger] out@[j])@ == edge_name(j as nat),
        decreases n - i,
    {
        out.push(edge_id(i));
        i += 1;
    }
    assert(out.deep_view() =~= edge_names(n as nat));
    out
}

/// The warnings of a chronology.
pub open spec fn chronology_warnings(nodes: nat, edges: nat) -> Seq<Tree> {
    let general = warning_tree(
        "v0_degraded_projection"@,
        "warning"@,
        "export v0 does not infer source-backed causal parentage"@,
        node_names(nodes),
        Seq::empty(),
    );
    if edges == 0 {
        seq![general]
    } else {
        seq![
            warning_tree(
                "degraded_chronology"@,
                "warning"@,
                "v0 export uses event order as a degraded chronology projection"@,
                Seq::empty(),
                edge_names(edges),
            ),
            general,
        ]
    }
}

pub fn degraded_warnings(nodes: usize, edges: usize) -> (r: Vec<Json>)
    ensures
        r.deep_view() == chronology_warnings(nodes as nat, edges as nat),
{
    let none: Vec<String> = Vec::new();
    assert(none.deep_view() =~= Seq::empty());
    let general = warning(
        "v0_degraded_projection",
        "warning",
        "export v0 does not infer source-backed causal parentage",
        &node_ids(nodes),
        &none,
    );
    let warnings = if edges == 0 {
        vec![general]
    } else {
        vec![
            warning(
                "degraded_chronology",
                "warning",
                "v0 export uses event order as a degraded chronology projection",
                &none,
                &edge_ids(edges),
            ),
            general,
        ]
    };
    assert(warnings.deep_view() =~= chronology_warnings(nodes as nat, edges as nat));
    warnings
}

/// What is made of events says how it was made: by their order, which is no causal lineage, or by
/// the parents that they declare. An edge leads from the earlier event, or the parent, to the
/// other.
pub proof fn records_of_events_say_how_they_were_made(from: Event, to: Event)
    ensures
        Linkage::Order.edge_summary(from, to) == "Event "@ + to.id + " follows event "@ + from.id
            + " in the bounded provenance page; this is ordering, not causal lineage."@,
        Linkage::Parents.edge_summary(from, to) == "Event "@ + to.id + " declares event "@ + from.id
            + " as its provenance parent."@,
        Linkage::Order.node_basis()
            == "v0 chronology projection from bounded provenance order; not causal lineage"@,
        Linkage::Parents.node_basis()
            == "v0 structural projection from EventEnvelope.parent links in the bounded provenance page"@,
        Linkage::Order.basis_kind() == "chronology"@ && Linkage::Parents.basis_kind() == "direct"@,
        Linkage::Order.class() == "chronology"@ && Linkage::Parents.class() == "structural"@,
        Linkage::Order.edge_kind() == "sequence"@ && Linkage::Parents.edge_kind()
            == "continuation"@,
        Linkage::Order.basis_name(false) == "bounded_chronology"@,
        Linkage::Order.basis_name(true) == "bounded_chronology_root"@,
        Linkage::Parents.basis_name(false) == "event_parent"@,
        Linkage::Parents.basis_name(true) == "event_parent_root"@,
{
}

} // verus!
