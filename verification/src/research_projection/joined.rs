//! How the entities of a research record are joined in its graph: which edge a relation becomes.

use super::artifact::{edge_trees, kinds_among, research_graph};
use super::drawn::{
    accepted_things_stand_under_their_ids, edge_at, keyed, lemma_annotated, lemma_by_id,
    lemma_edges, lemma_placed, lemma_strongest, made_by, of_place,
};
use super::edges::{
    all_edges, annotated, annotation_edge, backbone_among, edge_tree, edges_of, used_among, Drawn,
};
use super::meaning::lemma_forest;
use super::placement::{entities_are_well_placed, first_tied, placed_of, ties, Link, Place, Tie};
use crate::json::Tree;
use crate::research_record::ledger::{accepted_of, Accepted};
use crate::research_record::queries::latest_outcome;
use crate::research_record::types::{
    EntityKind, InvestigationOutcome, Record, Relation, RelationKind,
};
use crate::table::{lemma_first_row, lemma_row_is_found, member};
use vstd::prelude::*;

verus! {

/// Whether an edge leads from the node of one entity to that of another, and is of a class, of a
/// kind, and of the backbone or not.
pub open spec fn leads(
    e: Tree,
    from: Seq<char>,
    to: Seq<char>,
    class: Seq<char>,
    kind: Seq<char>,
    backbone: bool,
) -> bool {
    &&& e.text_at("from"@) == Some("node-"@ + from)
    &&& e.text_at("to"@) == Some("node-"@ + to)
    &&& e.text_at("class"@) == Some(class)
    &&& e.text_at("kind"@) == Some(kind)
    &&& e.flag_at("canonical_backbone"@) == Some(backbone)
}

/// Whether an entity is known and of a kind.
pub open spec fn known_as(a: Accepted, id: Seq<char>, kind: EntityKind) -> bool {
    member(a.entities, id) is Some && member(a.entities, id)->0.kind == kind
}

/// Whether an edge is one that a relation can become.
pub open spec fn carries(e: Tree, a: Accepted, r: Relation) -> bool {
    match r.kind {
        RelationKind::Repairs => leads(e, r.to, r.from, "structural"@, "repair"@, true),
        RelationKind::ContinuesFrom => leads(
            e,
            r.to,
            r.from,
            "structural"@,
            "continuation"@,
            true,
        ),
        RelationKind::Decomposes => leads(
            e,
            r.from,
            r.to,
            "structural"@,
            "decomposition"@,
            true,
        ),
        RelationKind::Investigates => {
            ||| known_as(a, r.to, EntityKind::Question) && leads(
                e,
                r.to,
                r.from,
                "structural"@,
                "fork"@,
                true,
            )
            ||| known_as(a, r.to, EntityKind::Claim) && leads(
                e,
                r.from,
                r.to,
                "structural"@,
                "refinement"@,
                true,
            )
        },
        RelationKind::Produces => {
            ||| known_as(a, r.to, EntityKind::Claim) && leads(
                e,
                r.from,
                r.to,
                "structural"@,
                "refinement"@,
                true,
            )
            ||| !known_as(a, r.to, EntityKind::Claim) && leads(
                e,
                r.from,
                r.to,
                "structural"@,
                "verification"@,
                true,
            )
            ||| leads(e, r.from, r.to, "annotation"@, "artifact_use"@, false)
        },
        RelationKind::Addresses => {
            ||| leads(e, r.to, r.from, "structural"@, "integration"@, true)
            ||| leads(e, r.to, r.from, "annotation"@, "related"@, false)
        },
        RelationKind::PivotsFrom => leads(e, r.to, r.from, "annotation"@, "pivot"@, false),
        RelationKind::EvidenceFor => leads(e, r.from, r.to, "annotation"@, "evidence"@, false),
        RelationKind::EvidenceAgainst => leads(
            e,
            r.from,
            r.to,
            "annotation"@,
            "refutation"@,
            false,
        ),
        RelationKind::Integrates => leads(e, r.to, r.from, "annotation"@, "related"@, false),
    }
}

/// Whether an edge is what a relation became: it also names the relation and gives its summary.
pub open spec fn becomes(e: Tree, a: Accepted, r: Relation) -> bool {
    &&& carries(e, a, r)
    &&& e.at("metadata"@).text_at("relation_id"@) == Some(r.id)
    &&& e.at("basis"@).text_at("summary"@) == Some(r.summary)
}

proof fn lemma_edge_tree(
    id: Seq<char>,
    ends: (Seq<char>, Seq<char>),
    class: (Seq<char>, Seq<char>, bool),
    metadata: Tree,
    r: Relation,
    prefix: Seq<char>,
    kinds: Seq<(Seq<char>, Seq<char>)>,
)
    ensures
        ({
            let e = edge_tree(id, ends, class, metadata, r, prefix, kinds);
            &&& leads(e, ends.0, ends.1, class.0, class.1, class.2)
            &&& e.text_at("id"@) == Some(id)
            &&& e.at("metadata"@) == metadata
            &&& e.at("basis"@).text_at("summary"@) == Some(r.summary)
        }),
{
    let e = edge_tree(id, ends, class, metadata, r, prefix, kinds);
    let o = e->Object_0;
    reveal_strlit("basis");
    reveal_strlit("canonical_backbone");
    reveal_strlit("class");
    reveal_strlit("from");
    reveal_strlit("id");
    reveal_strlit("kind");
    reveal_strlit("metadata");
    reveal_strlit("source_refs");
    reveal_strlit("to");
    lemma_first_row(o, "basis"@, 0);
    assert(o[0].0.len() == 5 && "canonical_backbone"@.len() == 18);
    lemma_first_row(o, "canonical_backbone"@, 1);
    assert(o[0].0[0] == 'b' && o[1].0.len() == 18 && "class"@.len() == 5 && "class"@[0] == 'c');
    lemma_first_row(o, "class"@, 2);
    assert(o[0].0.len() == 5 && o[1].0.len() == 18 && o[2].0.len() == 5 && "from"@.len() == 4);
    lemma_first_row(o, "from"@, 3);
    assert(o[0].0.len() == 5 && o[1].0.len() == 18 && o[2].0.len() == 5 && o[3].0.len() == 4 && "id"@.len() == 2);
    lemma_first_row(o, "id"@, 4);
    assert(o[0].0.len() == 5 && o[1].0.len() == 18 && o[2].0.len() == 5 && o[3].0[0] == 'f' && o[4].0.len() == 2 && "kind"@.len() == 4 && "kind"@[0] == 'k');
    lemma_first_row(o, "kind"@, 5);
    assert(o[0].0.len() == 5 && o[1].0.len() == 18 && o[2].0.len() == 5 && o[3].0.len() == 4 && o[4].0.len() == 2 && o[5].0.len() == 4 && "metadata"@.len() == 8);
    lemma_first_row(o, "metadata"@, 6);
    assert(o[0].0.len() == 5 && o[1].0.len() == 18 && o[2].0.len() == 5 && o[3].0.len() == 4 && o[4].0[0] == 'i' && o[5].0.len() == 4 && o[6].0.len() == 8 && o[7].0.len() == 11 && "to"@.len() == 2 && "to"@[0] == 't');
    lemma_first_row(o, "to"@, 8);
    let b = e.at("basis"@)->Object_0;
    reveal_strlit("kind");
    reveal_strlit("source_ref_ids");
    reveal_strlit("summary");
    assert(b[0].0.len() == 4 && b[1].0.len() == 14 && "summary"@.len() == 7);
    lemma_first_row(b, "summary"@, 2);
}

proof fn lemma_becomes_backbone(a: Accepted, kinds: Seq<(Seq<char>, Seq<char>)>, k: int) -> (j: int)
    requires
        keyed(a),
        0 <= k < placed_of(a).len(),
        placed_of(a)[k].1.parent is Some,
    ensures
        0 <= j < a.relations.len(),
        becomes(edge_at(a, kinds, k).tree, a, a.relations[j].1),
        placed_of(a)[k].1.parent->0.relation == a.relations[j].1,
        edge_at(a, kinds, k).tree.text_at("to"@) == Some("node-"@ + placed_of(a)[k].0),
        edge_at(a, kinds, k).tree.flag_at("canonical_backbone"@) == Some(true),
{
    let (id, place) = placed_of(a)[k];
    let link = place.parent->0;
    lemma_placed(a, id);
    lemma_row_is_found(placed_of(a), k);
    entities_are_well_placed(a, id);
    lemma_strongest(a, id);
    let (tie, j) = choose|tie: Tie, j: int| made_by(a, id, link, tie, j);
    let r = link.relation;
    let metadata = Tree::Object(
        seq![("relation_id"@, Tree::Text(r.id)), ("root_entity_id"@, Tree::Text(place.root))],
    );
    lemma_edge_tree(
        "edge-"@ + r.id,
        (link.parent, id),
        ("structural"@, link.edge_kind, true),
        metadata,
        r,
        "src-edge-"@ + r.id,
        kinds,
    );
    lemma_first_row(metadata->Object_0, "relation_id"@, 0);
    j
}

proof fn lemma_becomes_annotation(a: Accepted, kinds: Seq<(Seq<char>, Seq<char>)>, j: int)
    requires
        0 <= j < a.relations.len(),
        annotation_edge(a.relations[j].1, placed_of(a), kinds) is Some,
    ensures
        becomes(
            annotation_edge(a.relations[j].1, placed_of(a), kinds)->0.tree,
            a,
            a.relations[j].1,
        ),
{
    let r = a.relations[j].1;
    let (from, to, kind) = super::edges::annotation_ends(r)->0;
    let metadata = Tree::Object(seq![("relation_id"@, Tree::Text(r.id))]);
    lemma_edge_tree(
        "annotation-"@ + r.id,
        (from, to),
        ("annotation"@, kind, false),
        metadata,
        r,
        "src-ann-"@ + r.id,
        kinds,
    );
    lemma_first_row(metadata->Object_0, "relation_id"@, 0);
}

/// Whether an edge is what one of the relations became.
pub open spec fn comes_of_one(e: Tree, a: Accepted) -> bool {
    exists|j: int| 0 <= j < a.relations.len() && becomes(e, a, (#[trigger] a.relations[j]).1)
}

/// Every edge of the graph of a record is what one of the relations became that were accepted:
/// it leads the way that the relation says, is of the kind that goes with it, names it, and gives
/// its summary. What was repaired, continued or taken apart, what an investigation asked into and
/// what it brought forth, and what a synthesis answers make the backbone; a pivot, evidence for
/// or against a claim, and what a synthesis takes up are annotations.
pub proof fn edges_come_of_relations(r: Record, id: Seq<char>, i: int)
    requires
        research_graph(r, id) is Ok,
    ensures
        ({
            let forest = research_graph(r, id)->Ok_0.0.at("forest"@);
            let a = accepted_of(r.ledger)->Ok_0;
            &&& forest.list_at("edges"@) is Some
            &&& 0 <= i < forest.list_at("edges"@)->0.len() ==> comes_of_one(
                forest.list_at("edges"@)->0[i],
                a,
            )
        }),
{
    let a = accepted_of(r.ledger)->Ok_0;
    let kinds = kinds_among(r.episodes, r.episodes.len());
    lemma_forest(r, id);
    accepted_things_stand_under_their_ids(r.ledger);
    let edges = edges_of(a, placed_of(a), kinds);
    lemma_edges(a, kinds);
    if 0 <= i < edges.len() {
        let e = edges[i];
        assert(edge_trees(edges)[i] == e.tree);
        if of_place(a, kinds, placed_of(a).len(), e) {
            let k = choose|k: int|
                0 <= k < placed_of(a).len() && (#[trigger] placed_of(a)[k]).1.parent is Some && e
                    == edge_at(a, kinds, k);
            let j = lemma_becomes_backbone(a, kinds, k);
            assert(becomes(e.tree, a, a.relations[j].1));
        } else {
            let j = choose|j: int|
                0 <= j < a.relations.len() && annotation_edge(
                    (#[trigger] a.relations[j]).1,
                    placed_of(a),
                    kinds,
                ) == Some(e);
            lemma_becomes_annotation(a, kinds, j);
            assert(becomes(e.tree, a, a.relations[j].1));
        }
    }
}

proof fn lemma_annotated_holds(
    a: Accepted,
    edges: Seq<Drawn>,
    used: Seq<Seq<char>>,
    kinds: Seq<(Seq<char>, Seq<char>)>,
    n: nat,
    e: Drawn,
)
    requires
        n <= a.relations.len(),
    ensures
        edges.contains(e) ==> annotated(edges, used, a.relations, placed_of(a), kinds, n).contains(
            e,
        ),
        (exists|j: int|
            0 <= j < n && annotation_edge((#[trigger] a.relations[j]).1, placed_of(a), kinds)
                == Some(e) && !used.contains(a.relations[j].1.id)) ==> annotated(
            edges,
            used,
            a.relations,
            placed_of(a),
            kinds,
            n,
        ).contains(e),
    decreases n,
{
    if n > 0 {
        let m = (n - 1) as nat;
        lemma_annotated_holds(a, edges, used, kinds, m, e);
        let rest = annotated(edges, used, a.relations, placed_of(a), kinds, m);
        let all = annotated(edges, used, a.relations, placed_of(a), kinds, n);
        if rest.contains(e) {
            let i = choose|i: int| 0 <= i < rest.len() && rest[i] == e;
            assert(all[i] == e);
        }
        let last = a.relations[n - 1].1;
        if annotation_edge(last, placed_of(a), kinds) == Some(e) && !used.contains(last.id) {
            assert(all[rest.len() as int] == e);
        }
    }
}

proof fn lemma_used(placed: Seq<(Seq<char>, Place)>, n: nat, id: Seq<char>)
    requires
        n <= placed.len(),
        used_among(placed, n).contains(id),
    ensures
        exists|k: int|
            0 <= k < n && (#[trigger] placed[k]).1.parent is Some && placed[k].1.parent->0.relation.id
                == id,
    decreases n,
{
    let m = (n - 1) as nat;
    let rest = used_among(placed, m);
    let all = used_among(placed, n);
    let i = choose|i: int| 0 <= i < all.len() && all[i] == id;
    if placed[n - 1].1.parent is Some {
        if i < rest.len() {
            assert(rest[i] == id);
            lemma_used(placed, m, id);
        } else {
            assert(placed[n - 1].1.parent->0.relation.id == id);
        }
    } else {
        lemma_used(placed, m, id);
    }
}

/// A relation that brings forth, answers, takes up, speaks for or against, or turns away from
/// something is drawn wherever both of its entities stand in the graph: none of them is lost.
pub proof fn such_relations_are_drawn(r: Record, id: Seq<char>, j: int)
    requires
        research_graph(r, id) is Ok,
        ({
            let a = accepted_of(r.ledger)->Ok_0;
            let x = a.relations[j].1;
            &&& 0 <= j < a.relations.len()
            &&& member(placed_of(a), x.from) is Some
            &&& member(placed_of(a), x.to) is Some
            &&& x.kind == RelationKind::Produces || x.kind == RelationKind::Addresses || x.kind
                == RelationKind::Integrates || x.kind == RelationKind::EvidenceFor || x.kind
                == RelationKind::EvidenceAgainst || x.kind == RelationKind::PivotsFrom
        }),
    ensures
        ({
            let edges = research_graph(r, id)->Ok_0.0.at("forest"@).list_at("edges"@)->0;
            let a = accepted_of(r.ledger)->Ok_0;
            exists|i: int| 0 <= i < edges.len() && becomes(#[trigger] edges[i], a, a.relations[j].1)
        }),
{
    let a = accepted_of(r.ledger)->Ok_0;
    let x = a.relations[j].1;
    let kinds = kinds_among(r.episodes, r.episodes.len());
    let placed = placed_of(a);
    lemma_forest(r, id);
    accepted_things_stand_under_their_ids(r.ledger);
    let edges = edges_of(a, placed, kinds);
    let trees = edge_trees(edges);
    let used = used_among(placed, placed.len());
    lemma_edges(a, kinds);
    if used.contains(x.id) {
        lemma_used(placed, placed.len(), x.id);
        let k = choose|k: int|
            0 <= k < placed.len() && (#[trigger] placed[k]).1.parent is Some
                && placed[k].1.parent->0.relation.id == x.id;
        let o = lemma_becomes_backbone(a, kinds, k);
        assert(a.relations[o].0 == a.relations[o].1.id && a.relations[j].0 == x.id);
        lemma_row_is_found(a.relations, o);
        lemma_row_is_found(a.relations, j);
        assert(a.relations[o].1 == x);
        let e = edge_at(a, kinds, k);
        assert(edges.contains(e));
        let i = choose|i: int| 0 <= i < edges.len() && edges[i] == e;
        assert(trees[i] == e.tree);
    } else {
        let e = annotation_edge(x, placed, kinds)->0;
        lemma_becomes_annotation(a, kinds, j);
        let list = all_edges(a, placed, kinds);
        assert(annotation_edge(a.relations[j].1, placed, kinds) == Some(e));
        lemma_annotated_holds(
            a,
            backbone_among(placed, kinds, placed.len()),
            used,
            kinds,
            a.relations.len(),
            e,
        );
        assert(list.take(list.len() as int) =~= list);
        lemma_annotated(a, kinds, a.relations.len());
        lemma_by_id(list, list.len(), e);
        let i = choose|i: int| 0 <= i < edges.len() && edges[i] == e;
        assert(trees[i] == e.tree);
    }
}

proof fn lemma_tied(a: Accepted, tie: Tie, id: Seq<char>, i: nat, j: int)
    requires
        i <= j < a.relations.len(),
        ties(a, tie, a.relations[j].1, id),
    ensures
        first_tied(a, tie, id, i) is Some,
    decreases a.relations.len() - i,
{
    if i < j && !ties(a, tie, a.relations[i as int].1, id) {
        lemma_tied(a, tie, id, i + 1, j);
    }
}

proof fn lemma_not_tied(a: Accepted, tie: Tie, id: Seq<char>, i: nat)
    requires
        first_tied(a, tie, id, i) is Some,
    ensures
        exists|j: int|
            i <= j < a.relations.len() && ties(a, tie, (#[trigger] a.relations[j]).1, id)
                && first_tied(a, tie, id, i)->0.relation == a.relations[j].1,
    decreases a.relations.len() - i,
{
    if ties(a, tie, a.relations[i as int].1, id) {
        assert(a.relations[i as int].1 == first_tied(a, tie, id, i)->0.relation);
    } else {
        lemma_not_tied(a, tie, id, i + 1);
    }
}

/// Whether a relation of a kind leads from an entity.
pub open spec fn some_from(a: Accepted, kind: RelationKind, id: Seq<char>) -> bool {
    exists|j: int|
        0 <= j < a.relations.len() && (#[trigger] a.relations[j]).1.kind == kind
            && a.relations[j].1.from == id
}

/// Whether an investigation was taken apart into another, and did not end blocked, at a dead end
/// or abandoned.
pub open spec fn taken_apart(a: Accepted, id: Seq<char>, j: int) -> bool {
    let r = a.relations[j].1;
    &&& 0 <= j < a.relations.len()
    &&& r.kind == RelationKind::Decomposes
    &&& r.to == id
    &&& latest_outcome(a, r.from) is Some ==> latest_outcome(a, r.from)->0.outcome
        == InvestigationOutcome::Active || latest_outcome(a, r.from)->0.outcome
        == InvestigationOutcome::Completed
}

/// An investigation that repairs another hangs below that one. Else one that continues another
/// hangs below what it continues; else one that another was taken apart into hangs below that,
/// unless it ended blocked, at a dead end or abandoned; else it hangs below a question.
pub proof fn investigations_hang_by_their_strongest_tie(r: Record, id: Seq<char>)
    requires
        accepted_of(r.ledger) is Ok,
        known_as(accepted_of(r.ledger)->Ok_0, id, EntityKind::Investigation),
        member(placed_of(accepted_of(r.ledger)->Ok_0), id) is Some,
    ensures
        ({
            let a = accepted_of(r.ledger)->Ok_0;
            let place = member(placed_of(a), id)->0;
            let link = place.parent->0;
            let x = link.relation;
            &&& place.parent is Some
            &&& link.edge_kind == "repair"@ || link.edge_kind == "continuation"@ || link.edge_kind
                == "decomposition"@ || link.edge_kind == "fork"@
            &&& some_from(a, RelationKind::Repairs, id) ==> x.kind == RelationKind::Repairs
                && x.from == id && link.parent == x.to
            &&& !some_from(a, RelationKind::Repairs, id) && some_from(
                a,
                RelationKind::ContinuesFrom,
                id,
            ) ==> x.kind == RelationKind::ContinuesFrom && x.from == id && link.parent == x.to
            &&& !some_from(a, RelationKind::Repairs, id) && !some_from(
                a,
                RelationKind::ContinuesFrom,
                id,
            ) && (exists|j: int| #[trigger] taken_apart(a, id, j)) ==> x.kind
                == RelationKind::Decomposes && x.to == id && link.parent == x.from
            &&& !some_from(a, RelationKind::Repairs, id) && !some_from(
                a,
                RelationKind::ContinuesFrom,
                id,
            ) && !(exists|j: int| #[trigger] taken_apart(a, id, j)) ==> x.kind
                == RelationKind::Investigates && x.from == id && link.parent == x.to && known_as(
                a,
                x.to,
                EntityKind::Question,
            )
        }),
{
    let a = accepted_of(r.ledger)->Ok_0;
    accepted_things_stand_under_their_ids(r.ledger);
    lemma_placed(a, id);
    entities_are_well_placed(a, id);
    let place = member(placed_of(a), id)->0;
    if some_from(a, RelationKind::Repairs, id) {
        let j = choose|j: int|
            0 <= j < a.relations.len() && (#[trigger] a.relations[j]).1.kind
                == RelationKind::Repairs && a.relations[j].1.from == id;
        lemma_tied(a, Tie::Repair, id, 0, j);
    }
    if first_tied(a, Tie::Repair, id, 0) is Some {
        lemma_not_tied(a, Tie::Repair, id, 0);
    }
    if some_from(a, RelationKind::ContinuesFrom, id) {
        let j = choose|j: int|
            0 <= j < a.relations.len() && (#[trigger] a.relations[j]).1.kind
                == RelationKind::ContinuesFrom && a.relations[j].1.from == id;
        lemma_tied(a, Tie::Continuation, id, 0, j);
    }
    if first_tied(a, Tie::Continuation, id, 0) is Some {
        lemma_not_tied(a, Tie::Continuation, id, 0);
    }
    if exists|j: int| #[trigger] taken_apart(a, id, j) {
        let j = choose|j: int| #[trigger] taken_apart(a, id, j);
        lemma_tied(a, Tie::Decomposition, id, 0, j);
    }
    if first_tied(a, Tie::Decomposition, id, 0) is Some {
        lemma_not_tied(a, Tie::Decomposition, id, 0);
        let j = choose|j: int|
            0 <= j < a.relations.len() && ties(
                a,
                Tie::Decomposition,
                (#[trigger] a.relations[j]).1,
                id,
            );
        assert(taken_apart(a, id, j));
    }
    if first_tied(a, Tie::Fork, id, 0) is Some {
        lemma_not_tied(a, Tie::Fork, id, 0);
    }
    lemma_tie_links(a, id);
}

proof fn lemma_tie_links(a: Accepted, id: Seq<char>)
    ensures
        forall|tie: Tie|
            (#[trigger] first_tied(a, tie, id, 0)) is Some ==> exists|j: int|
                made_by_any(a, id, first_tied(a, tie, id, 0)->0, tie, j),
{
    assert forall|tie: Tie|
        (#[trigger] first_tied(a, tie, id, 0)) is Some implies exists|j: int|
        made_by_any(a, id, first_tied(a, tie, id, 0)->0, tie, j) by {
        lemma_made(a, tie, id, 0);
    }
}

/// Whether a link is made by a tie of the relation at a position.
pub open spec fn made_by_any(a: Accepted, id: Seq<char>, link: Link, tie: Tie, j: int) -> bool {
    &&& 0 <= j < a.relations.len()
    &&& ties(a, tie, a.relations[j].1, id)
    &&& link == super::placement::tied(a, tie, a.relations[j].1, id)
}

proof fn lemma_made(a: Accepted, tie: Tie, id: Seq<char>, i: nat)
    requires
        first_tied(a, tie, id, i) is Some,
    ensures
        exists|j: int| made_by_any(a, id, first_tied(a, tie, id, i)->0, tie, j),
    decreases a.relations.len() - i,
{
    if ties(a, tie, a.relations[i as int].1, id) {
        assert(made_by_any(a, id, first_tied(a, tie, id, i)->0, tie, i as int));
    } else {
        lemma_made(a, tie, id, i + 1);
    }
}

} // verus!
