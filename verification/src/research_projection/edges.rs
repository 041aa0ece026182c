//! The edges of the graph of a record.

use super::placement::{Link, ParentLink, Place, Placement};
use super::presentation::{
    basis_tree, basis_value, node_id, node_name, ref_names, refs_tree, source_refs,
};
use crate::json::{Json, Tree};
use crate::research_record::ledger::{Accepted, AcceptedRecord};
use crate::research_record::types::{Relation, RelationKind, ResearchRelation};
use crate::table::{has_row, holds, member};
use crate::text::{before, join2, precedes};
use vstd::prelude::*;

verus! {

/// An edge of the graph, and whether it is part of its backbone.
pub struct ResearchEdge {
    pub id: String,
    pub backbone: bool,
    pub value: Json,
}

/// What a [`ResearchEdge`] holds.
#[verifier::ext_equal]
pub struct Drawn {
    pub id: Seq<char>,
    pub backbone: bool,
    pub tree: Tree,
}

impl DeepView for ResearchEdge {
    type V = Drawn;

    open spec fn deep_view(&self) -> Drawn {
        Drawn { id: self.id@, backbone: self.backbone, tree: self.value@ }
    }
}

/// The members of an edge.
pub open spec fn edge_tree(
    id: Seq<char>,
    ends: (Seq<char>, Seq<char>),
    class: (Seq<char>, Seq<char>, bool),
    metadata: Tree,
    r: Relation,
    prefix: Seq<char>,
    kinds: Seq<(Seq<char>, Seq<char>)>,
) -> Tree {
    Tree::Object(
        seq![
            ("basis"@, basis_tree(r.summary, ref_names(prefix, r.source_event_ids.len()))),
            ("canonical_backbone"@, Tree::Bool(class.2)),
            ("class"@, Tree::Text(class.0)),
            ("from"@, Tree::Text(node_name(ends.0))),
            ("id"@, Tree::Text(id)),
            ("kind"@, Tree::Text(class.1)),
            ("metadata"@, metadata),
            ("source_refs"@, refs_tree(prefix, r.source_event_ids, kinds)),
            ("to"@, Tree::Text(node_name(ends.1))),
        ],
    )
}

fn edge_value(
    id: &str,
    ends: (&str, &str),
    class: (&str, &str, bool),
    metadata: Json,
    r: &ResearchRelation,
    prefix: &str,
    kinds: &Vec<(String, String)>,
) -> (json: Json)
    ensures
        json@ == edge_tree(
            id@,
            (ends.0@, ends.1@),
            (class.0@, class.1@, class.2),
            metadata@,
            r.deep_view(),
            prefix@,
            kinds.deep_view(),
        ),
{
    broadcast use crate::json::object_model;

    let (refs, names) = source_refs(prefix, &r.source_event_ids, kinds);
    assert(r.deep_view().source_event_ids.len() == r.source_event_ids@.len());
    let rows = vec![
        ("basis".to_owned(), basis_value(&r.summary, &names)),
        ("canonical_backbone".to_owned(), Json::Bool(class.2)),
        ("class".to_owned(), Json::of_text(class.0)),
        ("from".to_owned(), Json::of_text(&node_id(ends.0))),
        ("id".to_owned(), Json::of_text(id)),
        ("kind".to_owned(), Json::of_text(class.1)),
        ("metadata".to_owned(), metadata),
        ("source_refs".to_owned(), refs),
        ("to".to_owned(), Json::of_text(&node_id(ends.1))),
    ];
    assert(rows.deep_view() =~= edge_tree(
        id@,
        (ends.0@, ends.1@),
        (class.0@, class.1@, class.2),
        rows@[6].1@,
        r.deep_view(),
        prefix@,
        kinds.deep_view(),
    )->Object_0);
    Json::Object(rows)
}

/// The edge from the parent of an entity to it.
pub open spec fn backbone_edge(
    id: Seq<char>,
    root: Seq<char>,
    link: Link,
    kinds: Seq<(Seq<char>, Seq<char>)>,
) -> Drawn {
    let r = link.relation;
    Drawn {
        id: "edge-"@ + r.id,
        backbone: true,
        tree: edge_tree(
            "edge-"@ + r.id,
            (link.parent, id),
            ("structural"@, link.edge_kind, true),
            Tree::Object(
                seq![
                    ("relation_id"@, Tree::Text(r.id)),
                    ("root_entity_id"@, Tree::Text(root)),
                ],
            ),
            r,
            "src-edge-"@ + r.id,
            kinds,
        ),
    }
}

fn canonical_edge_value(
    id: &str,
    root: &str,
    link: &ParentLink,
    kinds: &Vec<(String, String)>,
) -> (r: ResearchEdge)
    ensures
        r.deep_view() == backbone_edge(id@, root@, link.deep_view(), kinds.deep_view()),
{
    broadcast use crate::json::object_model;

    let relation = &link.relation;
    let edge_id = join2("edge-", &relation.id);
    let rows = vec![
        ("relation_id".to_owned(), Json::of_text(&relation.id)),
        ("root_entity_id".to_owned(), Json::of_text(root)),
    ];
    assert(rows.deep_view() =~= seq![
        ("relation_id"@, Tree::Text(relation.id@)),
        ("root_entity_id"@, Tree::Text(root@)),
    ]);
    let value = edge_value(
        &edge_id,
        (&link.parent_entity_id, id),
        ("structural", link.edge_kind, true),
        Json::Object(rows),
        relation,
        &join2("src-edge-", &relation.id),
        kinds,
    );
    ResearchEdge { id: edge_id, backbone: true, value }
}

/// The edges between the first `n` entities that are placed and their parents.
pub open spec fn backbone_among(
    placed: Seq<(Seq<char>, Place)>,
    kinds: Seq<(Seq<char>, Seq<char>)>,
    n: nat,
) -> Seq<Drawn>
    decreases n,
{
    if n == 0 {
        Seq::empty()
    } else {
        let rest = backbone_among(placed, kinds, (n - 1) as nat);
        let (id, place) = placed[n - 1];
        match place.parent {
            Some(link) => rest.push(backbone_edge(id, place.root, link, kinds)),
            None => rest,
        }
    }
}

/// The relations that the first `n` entities that are placed hang by.
pub open spec fn used_among(placed: Seq<(Seq<char>, Place)>, n: nat) -> Seq<Seq<char>>
    decreases n,
{
    if n == 0 {
        Seq::empty()
    } else {
        let rest = used_among(placed, (n - 1) as nat);
        match placed[n - 1].1.parent {
            Some(link) => rest.push(link.relation.id),
            None => rest,
        }
    }
}

fn backbone_edges(placed: &Vec<(String, Placement)>, kinds: &Vec<(String, String)>) -> (r: (
    Vec<ResearchEdge>,
    Vec<String>,
))
    ensures
        r.0.deep_view() == backbone_among(placed.deep_view(), kinds.deep_view(), placed@.len()),
        r.1.deep_view() == used_among(placed.deep_view(), placed@.len()),
{
    let mut out: Vec<ResearchEdge> = Vec::new();
    let mut used: Vec<String> = Vec::new();
    let mut i: usize = 0;
    assert(out.deep_view() =~= Seq::empty());
    assert(used.deep_view() =~= Seq::empty());
    while i < placed.len()
        invariant
            i <= placed@.len(),
            out.deep_view() == backbone_among(placed.deep_view(), kinds.deep_view(), i as nat),
            used.deep_view() == used_among(placed.deep_view(), i as nat),
        decreases placed@.len() - i,
    {
        let row = &placed[i];
        assert(placed.deep_view()[i as int] == (row.0@, row.1.deep_view()));
        if let Some(link) = &row.1.parent {
            let ghost was = out.deep_view();
            let ghost named = used.deep_view();
            let edge = canonical_edge_value(&row.0, &row.1.root_entity_id, link, kinds);
            out.push(edge);
            assert(out.deep_view() =~= was.push(edge.deep_view()));
            used.push(link.relation.id.clone());
            assert(used.deep_view() =~= named.push(link.relation.id@));
        }
        i += 1;
    }
    (out, used)
}

/// How a relation that no entity hangs by is drawn: from where, to where, and as what.
pub open spec fn annotation_ends(r: Relation) -> Option<(Seq<char>, Seq<char>, Seq<char>)> {
    match r.kind {
        RelationKind::PivotsFrom => Some((r.to, r.from, "pivot"@)),
        RelationKind::EvidenceFor => Some((r.from, r.to, "evidence"@)),
        RelationKind::EvidenceAgainst => Some((r.from, r.to, "refutation"@)),
        RelationKind::Produces => Some((r.from, r.to, "artifact_use"@)),
        RelationKind::Addresses => Some((r.to, r.from, "related"@)),
        RelationKind::Integrates => Some((r.to, r.from, "related"@)),
        RelationKind::Investigates => None,
        RelationKind::Repairs => None,
        RelationKind::ContinuesFrom => None,
        RelationKind::Decomposes => None,
    }
}

/// The edge of a relation that no entity hangs by, if both its ends are placed.
pub open spec fn annotation_edge(
    r: Relation,
    placed: Seq<(Seq<char>, Place)>,
    kinds: Seq<(Seq<char>, Seq<char>)>,
) -> Option<Drawn> {
    match annotation_ends(r) {
        None => None,
        Some((from, to, kind)) => if member(placed, from) is None || member(placed, to) is None {
            None
        } else {
            Some(
                Drawn {
                    id: "annotation-"@ + r.id,
                    backbone: false,
                    tree: edge_tree(
                        "annotation-"@ + r.id,
                        (from, to),
                        ("annotation"@, kind, false),
                        Tree::Object(seq![("relation_id"@, Tree::Text(r.id))]),
                        r,
                        "src-ann-"@ + r.id,
                        kinds,
                    ),
                },
            )
        },
    }
}

fn annotation_edge_value(
    r: &ResearchRelation,
    placed: &Vec<(String, Placement)>,
    kinds: &Vec<(String, String)>,
) -> (edge: Option<ResearchEdge>)
    ensures
        edge.deep_view() == annotation_edge(
            r.deep_view(),
            placed.deep_view(),
            kinds.deep_view(),
        ),
{
    broadcast use crate::json::object_model;

    let (from, to, kind) = match r.kind {
        RelationKind::PivotsFrom => (&r.to, &r.from, "pivot"),
        RelationKind::EvidenceFor => (&r.from, &r.to, "evidence"),
        RelationKind::EvidenceAgainst => (&r.from, &r.to, "refutation"),
        RelationKind::Produces => (&r.from, &r.to, "artifact_use"),
        RelationKind::Addresses => (&r.to, &r.from, "related"),
        RelationKind::Integrates => (&r.to, &r.from, "related"),
        RelationKind::Investigates => return None,
        RelationKind::Repairs => return None,
        RelationKind::ContinuesFrom => return None,
        RelationKind::Decomposes => return None,
    };
    if !has_row(placed, from) || !has_row(placed, to) {
        return None;
    }
    let id = join2("annotation-", &r.id);
    let rows = vec![("relation_id".to_owned(), Json::of_text(&r.id))];
    assert(rows.deep_view() =~= seq![("relation_id"@, Tree::Text(r.id@))]);
    let value = edge_value(
        &id,
        (from, to),
        ("annotation", kind, false),
        Json::Object(rows),
        r,
        &join2("src-ann-", &r.id),
        kinds,
    );
    Some(ResearchEdge { id, backbone: false, value })
}

/// Edges, with those of the first `n` relations that no entity hangs by.
pub open spec fn annotated(
    edges: Seq<Drawn>,
    used: Seq<Seq<char>>,
    relations: Seq<(Seq<char>, Relation)>,
    placed: Seq<(Seq<char>, Place)>,
    kinds: Seq<(Seq<char>, Seq<char>)>,
    n: nat,
) -> Seq<Drawn>
    decreases n,
{
    if n == 0 {
        edges
    } else {
        let rest = annotated(edges, used, relations, placed, kinds, (n - 1) as nat);
        let r = relations[n - 1].1;
        match annotation_edge(r, placed, kinds) {
            Some(edge) => if used.contains(r.id) {
                rest
            } else {
                rest.push(edge)
            },
            None => rest,
        }
    }
}

/// Edges in the order of their ids, with one more behind all that do not come after it.
pub open spec fn ranked(list: Seq<Drawn>, edge: Drawn) -> Seq<Drawn>
    decreases list.len(),
{
    if list.len() == 0 || !before(edge.id, list.last().id) {
        list.push(edge)
    } else {
        ranked(list.drop_last(), edge).push(list.last())
    }
}

/// The first `n` edges in the order of their ids.
pub open spec fn by_id(list: Seq<Drawn>, n: nat) -> Seq<Drawn>
    decreases n,
{
    if n == 0 {
        Seq::empty()
    } else {
        ranked(by_id(list, (n - 1) as nat), list[n - 1])
    }
}

/// The edges of a graph before they are put in order.
pub open spec fn all_edges(
    a: Accepted,
    placed: Seq<(Seq<char>, Place)>,
    kinds: Seq<(Seq<char>, Seq<char>)>,
) -> Seq<Drawn> {
    annotated(
        backbone_among(placed, kinds, placed.len()),
        used_among(placed, placed.len()),
        a.relations,
        placed,
        kinds,
        a.relations.len(),
    )
}

/// The edges of a graph: those of its backbone and the annotations, in the order of their ids.
pub open spec fn edges_of(
    a: Accepted,
    placed: Seq<(Seq<char>, Place)>,
    kinds: Seq<(Seq<char>, Seq<char>)>,
) -> Seq<Drawn> {
    by_id(all_edges(a, placed, kinds), all_edges(a, placed, kinds).len())
}

fn sort_edges(list: Vec<ResearchEdge>) -> (r: Vec<ResearchEdge>)
    ensures
        r.deep_view() == by_id(list.deep_view(), list@.len()),
{
    let ghost given = list.deep_view();
    let ghost n = list@.len();
    let mut list = list;
    let mut out: Vec<ResearchEdge> = Vec::new();
    let ghost mut i: nat = 0;
    assert(out.deep_view() =~= Seq::empty());
    assert(given.skip(0) =~= given);
    while list.len() > 0
        invariant
            i + list@.len() == n == given.len(),
            list.deep_view() == given.skip(i as int),
            out.deep_view() == by_id(given, i),
        decreases list@.len(),
    {
        assert(list.deep_view()[0] == list@[0].deep_view());
        assert(given.skip(i as int)[0] == given[i as int]);
        let ghost had = list@;
        let edge = list.remove(0);
        let ghost model = edge.deep_view();
        assert forall|j: int| 0 <= j < list@.len() implies #[trigger] list.deep_view()[j]
            == given.skip(i as int + 1)[j] by {
            assert(list@[j] == had[j + 1]);
            assert(given.skip(i as int)[j + 1] == had[j + 1].deep_view());
        }
        assert(list.deep_view() =~= given.skip(i as int + 1));
        let ghost all = out.deep_view();
        let mut j: usize = out.len();
        assert(all.take(j as int) =~= all);
        assert(all.skip(j as int) =~= Seq::empty());
        assert(ranked(all, model) + Seq::<Drawn>::empty() =~= ranked(all, model));
        while j > 0 && precedes(&edge.id, &out[j - 1].id)
            invariant
                j <= out@.len(),
                all == out.deep_view(),
                model == edge.deep_view(),
                ranked(all, model) == ranked(all.take(j as int), model) + all.skip(j as int),
            decreases j,
        {
            let ghost head = all.take(j as int);
            assert(head.last() == out@[j - 1].deep_view());
            assert(head.drop_last() =~= all.take(j - 1));
            assert(all.skip(j - 1) =~= seq![head.last()] + all.skip(j as int));
            assert(ranked(all, model) =~= ranked(all.take(j - 1), model) + all.skip(j - 1));
            j -= 1;
        }
        proof {
            let head = all.take(j as int);
            if j > 0 {
                assert(head.last() == out@[j - 1].deep_view());
            }
            assert(ranked(head, model) == head.push(model));
            i = i + 1;
        }
        out.insert(j, edge);
        assert(out.deep_view() =~= all.take(j as int).push(model) + all.skip(j as int));
    }
    out
}

/// The edges of a graph, in the order of their ids.
pub fn list_edges(
    a: &AcceptedRecord,
    placed: &Vec<(String, Placement)>,
    kinds: &Vec<(String, String)>,
) -> (r: Vec<ResearchEdge>)
    ensures
        r.deep_view() == edges_of(a.deep_view(), placed.deep_view(), kinds.deep_view()),
{
    let (mut edges, used) = backbone_edges(placed, kinds);
    assert(placed.deep_view().len() == placed@.len());
    assert(a.deep_view().relations.len() == a.relations@.len());
    let ghost start = edges.deep_view();
    let mut i: usize = 0;
    while i < a.relations.len()
        invariant
            i <= a.relations@.len(),
            edges.deep_view() == annotated(
                start,
                used.deep_view(),
                a.deep_view().relations,
                placed.deep_view(),
                kinds.deep_view(),
                i as nat,
            ),
        decreases a.relations@.len() - i,
    {
        let relation = &a.relations[i].1;
        assert(a.deep_view().relations[i as int].1 == relation.deep_view());
        if !holds(&used, &relation.id) {
            if let Some(edge) = annotation_edge_value(relation, placed, kinds) {
                let ghost was = edges.deep_view();
                edges.push(edge);
                assert(edges.deep_view() =~= was.push(edge.deep_view()));
            }
        }
        i += 1;
    }
    assert(edges.deep_view().len() == edges@.len());
    sort_edges(edges)
}

} // verus!
