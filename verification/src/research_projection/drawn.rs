//! The graph of a research record can be drawn.

use super::artifact::{
    edge_trees, forest_fault, forest_tree, graph_of, graph_tree, ids_among, kinds_among,
    nodes_from, nodes_of, parents_from, projection_fault, research_graph, roots_among,
    session_tree, texts_among, ways_fault,
};
use super::edges::{
    all_edges, annotated, annotation_edge, annotation_ends, backbone_among, backbone_edge, by_id,
    edges_of, ranked, used_among, Drawn,
};
use super::placement::{
    entities_are_well_placed, first_ready, first_tied, is_kind, place_of,
    placed_entities_are_grounded, placed_of, reaches_root, rooted, settled, strongest, tied, ties,
    unrooted, Link, Place, Tie,
};
use super::presentation::{
    assessments_shown, entity_node, graph_kind_of, node_name, node_sources, outcome_shown, shown,
    standing_of,
};
use crate::export::drawable::{
    backbone_of, edge_fits, hangs_together, lemma_children_differ, lemma_climb_ends,
    lemma_climbs_agree, lemma_edge_gives_step, lemma_node_is_found, lemma_parents_are_read,
    lemma_step_is_found, lemma_step_of_edge, node_fits, root_named, told, ways_are_short,
    what_hangs_together_can_be_drawn,
};
use crate::export::graph::{climb, drawn, on_backbone, status_of};
use crate::json::{texts, Tree};
use crate::projection::drawn::{
    edge_tree, lemma_edge_tree, lemma_node_tree, lemma_texts_are_read, node_tree,
};
use crate::projection::revision::{names_of, values_of};
use crate::research_record::ledger::{
    accepted_from, accepted_of, accepting, docket_of, nothing_accepted, Accepted, Docket,
};
use crate::research_record::types::{Entity, EntityKind, Entry, Record, Relation, Semantic};
use crate::schema::RESEARCH_DAG_SCHEMA;
use crate::table::{
    ascending, enter, in_order, in_order_keeps_names, lemma_first_row, lemma_found_is_row,
    lemma_no_row, lemma_row_is_found, member, put, put_stays_ascending, put_then_member,
};
use crate::text::{before, lemma_before_irreflexive};
use vstd::prelude::*;

verus! {

type Placed = Seq<(Seq<char>, Place)>;

type Kinds = Seq<(Seq<char>, Seq<char>)>;

/// Whether what was accepted stands in order under its own ids.
pub open spec fn keyed(a: Accepted) -> bool {
    &&& ascending(a.entities)
    &&& ascending(a.relations)
    &&& forall|i: int|
        0 <= i < a.entities.len() ==> (#[trigger] a.entities[i]).1.id == a.entities[i].0
    &&& forall|i: int|
        0 <= i < a.relations.len() ==> (#[trigger] a.relations[i]).1.id == a.relations[i].0
}

proof fn lemma_accepting(a: Accepted, semantic: Semantic)
    requires
        keyed(a),
    ensures
        keyed(accepting(a, semantic)),
{
    let next = accepting(a, semantic);
    match semantic {
        Semantic::Entity(value) => {
            put_stays_ascending(a.entities, value.id, value);
            assert forall|i: int| 0 <= i < next.entities.len() implies (#[trigger] next.entities[i]).1.id
                == next.entities[i].0 by {
                lemma_row_is_found(next.entities, i);
                put_then_member(a.entities, value.id, value, next.entities[i].0);
                if next.entities[i].0 != value.id {
                    lemma_found_is_row(a.entities, next.entities[i].0);
                    let j = choose|j: int|
                        0 <= j < a.entities.len() && #[trigger] a.entities[j] == (
                            next.entities[i].0,
                            member(a.entities, next.entities[i].0)->0,
                        );
                    assert(a.entities[j].1.id == a.entities[j].0);
                }
            }
        },
        Semantic::Relation(value) => {
            put_stays_ascending(a.relations, value.id, value);
            assert forall|i: int|
                0 <= i < next.relations.len() implies (#[trigger] next.relations[i]).1.id
                == next.relations[i].0 by {
                lemma_row_is_found(next.relations, i);
                put_then_member(a.relations, value.id, value, next.relations[i].0);
                if next.relations[i].0 != value.id {
                    lemma_found_is_row(a.relations, next.relations[i].0);
                    let j = choose|j: int|
                        0 <= j < a.relations.len() && #[trigger] a.relations[j] == (
                            next.relations[i].0,
                            member(a.relations, next.relations[i].0)->0,
                        );
                    assert(a.relations[j].1.id == a.relations[j].0);
                }
            }
        },
        _ => {},
    }
}

proof fn lemma_accepted_from(d: Docket, i: nat, ids: Seq<Seq<char>>, a: Accepted)
    requires
        keyed(a),
        accepted_from(d, i, ids, a) is Ok,
    ensures
        keyed(accepted_from(d, i, ids, a)->Ok_0),
    decreases d.accepted.len() - i,
{
    if i < d.accepted.len() {
        match member(d.proposals, d.accepted[i as int]) {
            None => lemma_accepted_from(d, i + 1, ids, a),
            Some(semantic) => {
                lemma_accepting(a, semantic);
                lemma_accepted_from(d, i + 1, ids.push(semantic.id()), accepting(a, semantic));
            },
        }
    }
}

/// What a ledger accepted stands in order under its own ids.
pub proof fn accepted_things_stand_under_their_ids(ledger: Seq<Entry>)
    requires
        accepted_of(ledger) is Ok,
    ensures
        keyed(accepted_of(ledger)->Ok_0),
{
    lemma_accepted_from(docket_of(ledger)->Ok_0, 0, Seq::empty(), nothing_accepted());
}

pub(crate) proof fn lemma_entity(a: Accepted, id: Seq<char>)
    requires
        keyed(a),
        member(a.entities, id) is Some,
    ensures
        member(a.entities, id)->0.id == id,
        exists|j: int|
            0 <= j < a.entities.len() && #[trigger] a.entities[j] == (id, member(a.entities, id)->0),
{
    lemma_found_is_row(a.entities, id);
    let j = choose|j: int|
        0 <= j < a.entities.len() && #[trigger] a.entities[j] == (id, member(a.entities, id)->0);
    assert(a.entities[j].1.id == a.entities[j].0);
}

proof fn lemma_settled_keeps(a: Accepted, pending: Seq<Seq<char>>, placed: Placed, id: Seq<char>)
    requires
        ascending(placed),
    ensures
        ascending(settled(a, pending, placed)),
        member(placed, id) is Some ==> member(settled(a, pending, placed), id) is Some,
    decreases pending.len(),
{
    let k = first_ready(a, pending, placed, 0);
    if k < pending.len() {
        let next = pending[k as int];
        let place = place_of(a, next, placed);
        put_stays_ascending(placed, next, place);
        put_then_member(placed, next, place, id);
        lemma_settled_keeps(
            a,
            pending.take(k as int) + pending.skip(k as int + 1),
            put(placed, next, place),
            id,
        );
    }
}

proof fn lemma_rooted(entities: Seq<(Seq<char>, Entity)>, n: nat, j: int)
    requires
        n <= entities.len(),
    ensures
        ascending(rooted(entities, n)),
        0 <= j < n && entities[j].1.kind == EntityKind::Question ==> member(
            rooted(entities, n),
            entities[j].0,
        ) is Some,
    decreases n,
{
    if n > 0 {
        let m = (n - 1) as nat;
        lemma_rooted(entities, m, j);
        let (id, entity) = entities[n - 1];
        if entity.kind == EntityKind::Question {
            let place = Place { root: id, parent: None };
            put_stays_ascending(rooted(entities, m), id, place);
            if 0 <= j < n {
                put_then_member(rooted(entities, m), id, place, entities[j].0);
            }
        }
    }
}

/// The table of placements ascends, holds each question, and holds entities only.
pub(crate) proof fn lemma_placed(a: Accepted, id: Seq<char>)
    requires
        keyed(a),
    ensures
        ascending(placed_of(a)),
        is_kind(a, id, EntityKind::Question) ==> member(placed_of(a), id) is Some,
        member(placed_of(a), id) is Some ==> member(a.entities, id) is Some,
        is_kind(a, id, EntityKind::Question) ==> member(placed_of(a), id) == Some(
            Place { root: id, parent: None },
        ),
{
    let n = a.entities.len();
    let start = rooted(a.entities, n);
    lemma_rooted(a.entities, n, 0);
    lemma_settled_keeps(a, unrooted(a.entities, n), start, id);
    entities_are_well_placed(a, id);
    if is_kind(a, id, EntityKind::Question) {
        lemma_entity(a, id);
        let j = choose|j: int|
            0 <= j < n && #[trigger] a.entities[j] == (id, member(a.entities, id)->0);
        lemma_rooted(a.entities, n, j);
        lemma_settled_keeps(a, unrooted(a.entities, n), start, id);
        assert(strongest(a, id) is None);
    }
}

/// The root of an entity that is placed is a question.
proof fn lemma_root_is_question(a: Accepted, id: Seq<char>, root: Seq<char>, steps: nat)
    requires
        keyed(a),
        reaches_root(placed_of(a), id, root, steps),
    ensures
        is_kind(a, root, EntityKind::Question),
    decreases steps,
{
    entities_are_well_placed(a, id);
    if let Some(link) = member(placed_of(a), id)->0.parent {
        lemma_root_is_question(a, link.parent, root, (steps - 1) as nat);
    }
}

pub(crate) proof fn lemma_place(a: Accepted, id: Seq<char>)
    requires
        keyed(a),
        member(placed_of(a), id) is Some,
    ensures
        is_kind(a, member(placed_of(a), id)->0.root, EntityKind::Question),
{
    placed_entities_are_grounded(a, id);
    let root = member(placed_of(a), id)->0.root;
    let steps = choose|steps: nat| #[trigger] reaches_root(placed_of(a), id, root, steps);
    lemma_root_is_question(a, id, root, steps);
}

pub(crate) proof fn lemma_names(a: Seq<char>, b: Seq<char>)
    ensures
        node_name(a) == node_name(b) ==> a == b,
        node_name(a).len() > 0,
{
    reveal_strlit("node-");
    let lead = "node-"@.len() as int;
    if node_name(a) == node_name(b) {
        assert(node_name(a).skip(lead) =~= a);
        assert(node_name(b).skip(lead) =~= b);
    }
}

proof fn lemma_roots_among(a: Accepted, n: nat)
    requires
        keyed(a),
        n <= a.entities.len(),
    ensures
        roots_among(a.entities, n).no_duplicates(),
        forall|j: int|
            0 <= j < n && (#[trigger] a.entities[j]).1.kind == EntityKind::Question ==> roots_among(
                a.entities,
                n,
            ).contains(node_name(a.entities[j].0)),
        forall|k: int|
            0 <= k < roots_among(a.entities, n).len() ==> names_question(
                a,
                n,
                #[trigger] roots_among(a.entities, n)[k],
            ),
    decreases n,
{
    if n > 0 {
        let m = (n - 1) as nat;
        lemma_roots_among(a, m);
        let was = roots_among(a.entities, m);
        let now = roots_among(a.entities, n);
        let (id, entity) = a.entities[n - 1];
        assert(a.entities[n - 1].1.id == id);
        assert forall|k: int| 0 <= k < was.len() implies names_question(
            a,
            n,
            #[trigger] was[k],
        ) && was[k] != node_name(id) by {
            assert(names_question(a, m, was[k]));
            let j = choose|j: int|
                0 <= j < m && (#[trigger] a.entities[j]).1.kind == EntityKind::Question
                    && node_name(a.entities[j].0) == was[k];
            assert(a.entities[j].1.kind == EntityKind::Question);
            lemma_names(a.entities[j].0, id);
            assert(before(a.entities[j].0, a.entities[n - 1].0));
            lemma_before_irreflexive(id);
        }
        assert forall|j: int|
            0 <= j < n && (#[trigger] a.entities[j]).1.kind
                == EntityKind::Question implies now.contains(node_name(a.entities[j].0)) by {
            if j == n - 1 {
                assert(now[was.len() as int] == node_name(id));
            } else {
                assert(was.contains(node_name(a.entities[j].0)));
                let k = choose|k: int|
                    0 <= k < was.len() && was[k] == node_name(a.entities[j].0);
                assert(now[k] == was[k]);
            }
        }
        assert forall|k: int| 0 <= k < now.len() implies names_question(
            a,
            n,
            #[trigger] now[k],
        ) by {
            if k < was.len() {
                assert(names_question(a, n, was[k]));
            } else {
                assert(a.entities[n - 1].1.kind == EntityKind::Question);
            }
        }
        if entity.kind == EntityKind::Question {
            assert(now == was.push(node_name(id)));
        }
    }
}

/// Whether a node is that of a question among the first `n` entities.
spec fn names_question(a: Accepted, n: nat, name: Seq<char>) -> bool {
    exists|j: int|
        0 <= j < n && (#[trigger] a.entities[j]).1.kind == EntityKind::Question && node_name(
            a.entities[j].0,
        ) == name
}

/// The roots of a graph are the nodes of the questions.
proof fn lemma_is_root(a: Accepted, id: Seq<char>)
    requires
        keyed(a),
    ensures
        roots_among(a.entities, a.entities.len()).contains(node_name(id)) == is_kind(
            a,
            id,
            EntityKind::Question,
        ),
{
    let n = a.entities.len();
    let roots = roots_among(a.entities, n);
    lemma_roots_among(a, n);
    if is_kind(a, id, EntityKind::Question) {
        lemma_entity(a, id);
        let j = choose|j: int|
            0 <= j < n && #[trigger] a.entities[j] == (id, member(a.entities, id)->0);
        assert(a.entities[j].1.kind == EntityKind::Question);
    }
    if roots.contains(node_name(id)) {
        let k = choose|k: int| 0 <= k < roots.len() && roots[k] == node_name(id);
        assert(names_question(a, n, roots[k]));
        let j = choose|j: int|
            0 <= j < n && (#[trigger] a.entities[j]).1.kind == EntityKind::Question && node_name(
                a.entities[j].0,
            ) == roots[k];
        lemma_names(a.entities[j].0, id);
        lemma_row_is_found(a.entities, j);
    }
}

/// Whether the entities of a record say what they are.
pub open spec fn entities_speak(a: Accepted) -> bool {
    forall|i: int|
        0 <= i < a.entities.len() ==> (#[trigger] a.entities[i]).1.title.len() > 0
            && a.entities[i].1.summary.len() > 0
}

proof fn lemma_entity_node(a: Accepted, id: Seq<char>, kinds: Kinds)
    requires
        keyed(a),
        entities_speak(a),
        member(placed_of(a), id) is Some,
    ensures
        ({
            let entity = member(a.entities, id)->0;
            let place = member(placed_of(a), id)->0;
            let node = entity_node(a, entity, place, kinds);
            &&& node_fits(node_name(id), node, roots_among(a.entities, a.entities.len()))
            &&& told(node, "root_id"@) == node_name(place.root)
        }),
{
    let entity = member(a.entities, id)->0;
    let place = member(placed_of(a), id)->0;
    let node = entity_node(a, entity, place, kinds);
    lemma_placed(a, id);
    lemma_entity(a, id);
    lemma_place(a, id);
    lemma_is_root(a, id);
    lemma_is_root(a, place.root);
    lemma_names(id, place.root);
    lemma_names(place.root, id);
    let j = choose|j: int|
        0 <= j < a.entities.len() && #[trigger] a.entities[j] == (id, member(a.entities, id)->0);
    assert(a.entities[j].1.title.len() > 0);
    let list = assessments_shown(a, entity);
    let outcome = outcome_shown(a, entity);
    let standing = standing_of(list);
    let sources = node_sources(entity, outcome, list);
    let prefix = "src-node-"@ + entity.id;
    let basis = super::presentation::basis_tree(
        "Accepted research-record entity."@,
        super::presentation::ref_names(prefix, sources.len()),
    );
    let metadata = super::presentation::metadata_tree(entity, outcome, list, standing);
    let refs = super::presentation::refs_tree(prefix, sources, kinds);
    let (status, summary) = shown(entity, outcome, standing);
    lemma_node_tree(
        basis,
        node_name(entity.id),
        graph_kind_of(entity.kind),
        metadata,
        node_name(place.root),
        refs,
        status,
        summary,
        entity.title,
    );
    assert(node =~= node_tree(
        basis,
        node_name(entity.id),
        graph_kind_of(entity.kind),
        metadata,
        node_name(place.root),
        refs,
        status,
        summary,
        entity.title,
    ));
    reveal_strlit("root");
    reveal_strlit("attempt");
    reveal_strlit("claim");
    reveal_strlit("checkpoint");
    reveal_strlit("synthesis");
    reveal_strlit("open");
    reveal_strlit("blocked");
    reveal_strlit("dead_end");
    reveal_strlit("inconclusive");
    reveal_strlit("success");
    reveal_strlit("verified");
    reveal_strlit("abandoned");
    assert("root"@[0] == 'r' && "attempt"@[0] == 'a' && "claim"@[0] == 'c' && "checkpoint"@[0]
        == 'c' && "synthesis"@[0] == 's');
    assert(summary.len() > 0);
    assert(status.len() > 0 && status_of(status) is Ok);
}

pub(crate) proof fn lemma_nodes_from(a: Accepted, kinds: Kinds, i: nat, made: Seq<Tree>)
    requires
        keyed(a),
        i <= placed_of(a).len(),
        made.len() == i,
        forall|k: int| 0 <= k < i ==> #[trigger] made[k] == node_at(a, kinds, k),
    ensures
        ({
            let all = nodes_from(a, placed_of(a), kinds, i, made);
            &&& all is Ok
            &&& all->Ok_0.len() == placed_of(a).len()
            &&& forall|k: int|
                0 <= k < placed_of(a).len() ==> #[trigger] all->Ok_0[k] == node_at(a, kinds, k)
        }),
    decreases placed_of(a).len() - i,
{
    let placed = placed_of(a);
    if i < placed.len() {
        let id = placed[i as int].0;
        lemma_placed(a, id);
        lemma_row_is_found(placed, i as int);
        lemma_nodes_from(a, kinds, i + 1, made.push(node_at(a, kinds, i as int)));
    }
}

/// The node of the entity that is placed at a position.
pub open spec fn node_at(a: Accepted, kinds: Kinds, k: int) -> Tree {
    let (id, place) = placed_of(a)[k];
    entity_node(a, member(a.entities, id)->0, place, kinds)
}

/// The nodes of a graph by id.
spec fn node_rows(a: Accepted, kinds: Kinds) -> Seq<(Seq<char>, Tree)> {
    Seq::new(
        placed_of(a).len(),
        |k: int| (node_name(placed_of(a)[k].0), node_at(a, kinds, k)),
    )
}

/// Whether a link is made by the relation at a position.
pub open spec fn made_by(a: Accepted, id: Seq<char>, link: Link, tie: Tie, j: int) -> bool {
    &&& 0 <= j < a.relations.len()
    &&& ties(a, tie, a.relations[j].1, id)
    &&& link == tied(a, tie, a.relations[j].1, id)
    &&& tie == Tie::Subject ==> is_kind(a, id, EntityKind::Claim)
}

pub(crate) proof fn lemma_first_tied(a: Accepted, tie: Tie, id: Seq<char>, i: nat)
    requires
        tie == Tie::Subject ==> is_kind(a, id, EntityKind::Claim),
        first_tied(a, tie, id, i) is Some,
    ensures
        exists|j: int| made_by(a, id, first_tied(a, tie, id, i)->0, tie, j),
    decreases a.relations.len() - i,
{
    if ties(a, tie, a.relations[i as int].1, id) {
        assert(made_by(a, id, first_tied(a, tie, id, i)->0, tie, i as int));
    } else {
        lemma_first_tied(a, tie, id, i + 1);
    }
}

pub(crate) proof fn lemma_strongest(a: Accepted, id: Seq<char>)
    requires
        strongest(a, id) is Some,
    ensures
        exists|tie: Tie, j: int| made_by(a, id, strongest(a, id)->0, tie, j),
{
    let entity = member(a.entities, id)->0;
    let tie = match entity.kind {
        EntityKind::Investigation => if first_tied(a, Tie::Repair, id, 0) is Some {
            Tie::Repair
        } else if first_tied(a, Tie::Continuation, id, 0) is Some {
            Tie::Continuation
        } else if first_tied(a, Tie::Decomposition, id, 0) is Some {
            Tie::Decomposition
        } else {
            Tie::Fork
        },
        EntityKind::Observation => Tie::Product,
        EntityKind::Artifact => Tie::Product,
        EntityKind::Claim => if first_tied(a, Tie::Product, id, 0) is Some {
            Tie::Product
        } else {
            Tie::Subject
        },
        EntityKind::Synthesis => Tie::Answer,
        EntityKind::Question => Tie::Answer,
    };
    lemma_first_tied(a, tie, id, 0);
    let j = choose|j: int| made_by(a, id, first_tied(a, tie, id, 0)->0, tie, j);
    assert(made_by(a, id, strongest(a, id)->0, tie, j));
}

/// Different entities hang by different relations.
proof fn lemma_links_differ(a: Accepted, one: Seq<char>, other: Seq<char>)
    requires
        keyed(a),
        strongest(a, one) is Some,
        strongest(a, other) is Some,
        strongest(a, one)->0.relation.id == strongest(a, other)->0.relation.id,
    ensures
        one == other,
{
    lemma_strongest(a, one);
    lemma_strongest(a, other);
    let (s, i) = choose|tie: Tie, j: int| made_by(a, one, strongest(a, one)->0, tie, j);
    let (t, j) = choose|tie: Tie, j: int| made_by(a, other, strongest(a, other)->0, tie, j);
    assert(a.relations[i].1.id == a.relations[i].0 && a.relations[j].1.id == a.relations[j].0);
    lemma_row_is_found(a.relations, i);
    lemma_row_is_found(a.relations, j);
    assert(a.relations[i].1 == a.relations[j].1);
}

/// The edge to the entity that is placed at a position.
pub open spec fn edge_at(a: Accepted, kinds: Kinds, k: int) -> Drawn {
    let (id, place) = placed_of(a)[k];
    backbone_edge(id, place.root, place.parent->0, kinds)
}

/// Whether an edge is that to one of the first `n` entities that are placed.
pub open spec fn of_place(a: Accepted, kinds: Kinds, n: nat, edge: Drawn) -> bool {
    exists|k: int|
        0 <= k < n && (#[trigger] placed_of(a)[k]).1.parent is Some && edge == edge_at(a, kinds, k)
}

/// The ids of edges.
pub open spec fn drawn_ids(list: Seq<Drawn>) -> Seq<Seq<char>> {
    Seq::new(list.len(), |i: int| list[i].id)
}

proof fn lemma_edge_ids(a: Seq<char>, b: Seq<char>)
    ensures
        "edge-"@ + a == "edge-"@ + b ==> a == b,
        "annotation-"@ + a == "annotation-"@ + b ==> a == b,
        "edge-"@ + a != "annotation-"@ + b,
        ("edge-"@ + a).len() > 0,
        ("annotation-"@ + b).len() > 0,
{
    reveal_strlit("edge-");
    reveal_strlit("annotation-");
    let e = "edge-"@.len() as int;
    let n = "annotation-"@.len() as int;
    assert(("edge-"@ + a)[0] == 'e' && ("annotation-"@ + b)[0] == 'a');
    assert(("edge-"@ + a).skip(e) =~= a && ("edge-"@ + b).skip(e) =~= b);
    assert(("annotation-"@ + a).skip(n) =~= a && ("annotation-"@ + b).skip(n) =~= b);
}

proof fn lemma_backbone_among(a: Accepted, kinds: Kinds, n: nat)
    requires
        keyed(a),
        n <= placed_of(a).len(),
    ensures
        ({
            let list = backbone_among(placed_of(a), kinds, n);
            &&& drawn_ids(list).no_duplicates()
            &&& forall|i: int| 0 <= i < list.len() ==> of_place(a, kinds, n, #[trigger] list[i])
            &&& forall|k: int|
                0 <= k < n && (#[trigger] placed_of(a)[k]).1.parent is Some ==> list.contains(
                    edge_at(a, kinds, k),
                )
        }),
    decreases n,
{
    let placed = placed_of(a);
    if n > 0 {
        let m = (n - 1) as nat;
        lemma_backbone_among(a, kinds, m);
        let was = backbone_among(placed, kinds, m);
        let now = backbone_among(placed, kinds, n);
        let (id, place) = placed[n - 1];
        lemma_placed(a, id);
        lemma_row_is_found(placed, n - 1);
        entities_are_well_placed(a, id);
        assert forall|i: int| 0 <= i < was.len() implies of_place(a, kinds, n, #[trigger] was[i])
            && (place.parent is Some ==> was[i].id != edge_at(a, kinds, n - 1).id) by {
            assert(of_place(a, kinds, m, was[i]));
            let k = choose|k: int|
                0 <= k < m && (#[trigger] placed[k]).1.parent is Some && was[i] == edge_at(
                    a,
                    kinds,
                    k,
                );
            assert(placed[k].1.parent is Some);
            if place.parent is Some && was[i].id == edge_at(a, kinds, n - 1).id {
                lemma_row_is_found(placed, k);
                entities_are_well_placed(a, placed[k].0);
                lemma_edge_ids(
                    placed[k].1.parent->0.relation.id,
                    place.parent->0.relation.id,
                );
                lemma_links_differ(a, placed[k].0, id);
                assert(before(placed[k].0, placed[n - 1].0));
                lemma_before_irreflexive(id);
            }
        }
        assert forall|i: int| 0 <= i < now.len() implies of_place(a, kinds, n, #[trigger] now[i]) by {
            if i < was.len() {
                assert(of_place(a, kinds, n, was[i]));
            } else {
                assert(placed[n - 1].1.parent is Some);
            }
        }
        assert forall|k: int|
            0 <= k < n && (#[trigger] placed[k]).1.parent is Some implies now.contains(
            edge_at(a, kinds, k),
        ) by {
            if k == n - 1 {
                assert(now[was.len() as int] == edge_at(a, kinds, k));
            } else {
                assert(was.contains(edge_at(a, kinds, k)));
                let i = choose|i: int| 0 <= i < was.len() && was[i] == edge_at(a, kinds, k);
                assert(now[i] == was[i]);
            }
        }
        let ids = drawn_ids(now);
        assert forall|i: int, j: int| 0 <= i < ids.len() && 0 <= j < ids.len() && i != j implies
            ids[i] != ids[j] by {
            if i < was.len() && j < was.len() {
                assert(drawn_ids(was)[i] == ids[i] && drawn_ids(was)[j] == ids[j]);
            } else if i < was.len() {
                assert(was[i].id != edge_at(a, kinds, n - 1).id);
            } else if j < was.len() {
                assert(was[j].id != edge_at(a, kinds, n - 1).id);
            }
        }
    }
}

/// Whether an edge is the annotation of one of the first `n` relations.
pub open spec fn of_relation(a: Accepted, kinds: Kinds, n: nat, edge: Drawn) -> bool {
    exists|j: int|
        0 <= j < n && annotation_edge((#[trigger] a.relations[j]).1, placed_of(a), kinds) == Some(
            edge,
        )
}

pub(crate) proof fn lemma_annotated(a: Accepted, kinds: Kinds, n: nat)
    requires
        keyed(a),
        n <= a.relations.len(),
    ensures
        ({
            let placed = placed_of(a);
            let first = backbone_among(placed, kinds, placed.len());
            let list = annotated(
                first,
                used_among(placed, placed.len()),
                a.relations,
                placed,
                kinds,
                n,
            );
            &&& drawn_ids(list).no_duplicates()
            &&& forall|i: int|
                0 <= i < list.len() ==> of_place(a, kinds, placed.len(), #[trigger] list[i])
                    || of_relation(a, kinds, n, list[i])
            &&& forall|k: int|
                0 <= k < placed.len() && (#[trigger] placed[k]).1.parent is Some ==> list.contains(
                    edge_at(a, kinds, k),
                )
        }),
    decreases n,
{
    let placed = placed_of(a);
    let first = backbone_among(placed, kinds, placed.len());
    let used = used_among(placed, placed.len());
    let now = annotated(first, used, a.relations, placed, kinds, n);
    if n == 0 {
        lemma_backbone_among(a, kinds, placed.len());
    } else {
        let m = (n - 1) as nat;
        lemma_annotated(a, kinds, m);
        let was = annotated(first, used, a.relations, placed, kinds, m);
        let r = a.relations[n - 1].1;
        assert forall|i: int| 0 <= i < was.len() implies (of_place(
            a,
            kinds,
            placed.len(),
            #[trigger] was[i],
        ) || of_relation(a, kinds, n, was[i])) && was[i].id != "annotation-"@ + r.id by {
            if of_place(a, kinds, placed.len(), was[i]) {
                let k = choose|k: int|
                    0 <= k < placed.len() && (#[trigger] placed[k]).1.parent is Some && was[i]
                        == edge_at(a, kinds, k);
                lemma_edge_ids(placed[k].1.parent->0.relation.id, r.id);
            } else {
                assert(of_relation(a, kinds, m, was[i]));
                let j = choose|j: int|
                    0 <= j < m && annotation_edge((#[trigger] a.relations[j]).1, placed, kinds)
                        == Some(was[i]);
                assert(annotation_edge(a.relations[j].1, placed, kinds) == Some(was[i]));
                lemma_edge_ids(a.relations[j].1.id, r.id);
                assert(a.relations[j].1.id == a.relations[j].0 && a.relations[n - 1].1.id
                    == a.relations[n - 1].0);
                assert(before(a.relations[j].0, a.relations[n - 1].0));
                lemma_before_irreflexive(r.id);
            }
        }
        if now != was {
            let edge = annotation_edge(r, placed, kinds)->0;
            assert(now == was.push(edge));
            assert(edge.id == "annotation-"@ + r.id);
            assert(annotation_edge(a.relations[n - 1].1, placed, kinds) == Some(edge));
            assert(of_relation(a, kinds, n, edge));
            assert forall|k: int|
                0 <= k < placed.len() && (#[trigger] placed[k]).1.parent is Some implies
                now.contains(edge_at(a, kinds, k)) by {
                assert(was.contains(edge_at(a, kinds, k)));
                let i = choose|i: int| 0 <= i < was.len() && was[i] == edge_at(a, kinds, k);
                assert(now[i] == was[i]);
            }
            assert forall|i: int| 0 <= i < now.len() implies of_place(
                a,
                kinds,
                placed.len(),
                #[trigger] now[i],
            ) || of_relation(a, kinds, n, now[i]) by {
                if i < was.len() {
                    assert(now[i] == was[i]);
                }
            }
            let ids = drawn_ids(now);
            assert forall|i: int, j: int|
                0 <= i < ids.len() && 0 <= j < ids.len() && i != j implies ids[i] != ids[j] by {
                if i < was.len() && j < was.len() {
                    assert(drawn_ids(was)[i] == ids[i] && drawn_ids(was)[j] == ids[j]);
                } else if i < was.len() {
                    assert(was[i].id != edge.id);
                } else if j < was.len() {
                    assert(was[j].id != edge.id);
                }
            }
        }
    }
}

proof fn lemma_ranked(list: Seq<Drawn>, edge: Drawn, other: Drawn)
    requires
        drawn_ids(list).no_duplicates(),
        !drawn_ids(list).contains(edge.id),
    ensures
        ranked(list, edge).len() == list.len() + 1,
        ranked(list, edge).contains(other) == (list.contains(other) || other == edge),
        drawn_ids(ranked(list, edge)).no_duplicates(),
        forall|id: Seq<char>| #[trigger]
            drawn_ids(ranked(list, edge)).contains(id) == (drawn_ids(list).contains(id) || id
                == edge.id),
    decreases list.len(),
{
    let now = ranked(list, edge);
    let ids = drawn_ids(list);
    if list.len() == 0 || !before(edge.id, list.last().id) {
        assert(now == list.push(edge));
        let more = drawn_ids(now);
        assert(more =~= ids.push(edge.id));
        assert(now[list.len() as int] == edge);
        if list.contains(other) {
            let i = choose|i: int| 0 <= i < list.len() && list[i] == other;
            assert(now[i] == other);
        }
        if now.contains(other) && other != edge {
            let i = choose|i: int| 0 <= i < now.len() && now[i] == other;
            assert(list[i] == other);
        }
        assert forall|id: Seq<char>| #[trigger] more.contains(id) == (ids.contains(id) || id
            == edge.id) by {
            assert(more[list.len() as int] == edge.id);
            if ids.contains(id) {
                let i = choose|i: int| 0 <= i < ids.len() && ids[i] == id;
                assert(more[i] == id);
            }
            if more.contains(id) && id != edge.id {
                let i = choose|i: int| 0 <= i < more.len() && more[i] == id;
                assert(ids[i] == id);
            }
        }
        assert forall|i: int, j: int|
            0 <= i < more.len() && 0 <= j < more.len() && i != j implies more[i] != more[j] by {
            if i < ids.len() && j < ids.len() {
                assert(ids[i] == more[i] && ids[j] == more[j]);
            } else if i < ids.len() {
                assert(ids[i] == more[i]);
                assert(ids.contains(more[i]));
            } else if j < ids.len() {
                assert(ids[j] == more[j]);
                assert(ids.contains(more[j]));
            }
        }
    } else {
        let rest = list.drop_last();
        let last = list.last();
        let less = drawn_ids(rest);
        assert(less =~= ids.drop_last());
        assert(!less.contains(edge.id)) by {
            if less.contains(edge.id) {
                let i = choose|i: int| 0 <= i < less.len() && less[i] == edge.id;
                assert(ids[i] == edge.id);
            }
        }
        assert(!less.contains(last.id)) by {
            if less.contains(last.id) {
                let i = choose|i: int| 0 <= i < less.len() && less[i] == last.id;
                assert(ids[i] == last.id && ids[list.len() - 1] == last.id);
            }
        }
        assert(less.no_duplicates());
        lemma_ranked(rest, edge, other);
        let inner = ranked(rest, edge);
        assert(now == inner.push(last));
        let within = drawn_ids(inner);
        let more = drawn_ids(now);
        assert(more =~= within.push(last.id));
        assert(ids[list.len() - 1] == last.id);
        assert(edge.id != last.id) by {
            if edge.id == last.id {
                assert(ids.contains(edge.id));
            }
        }
        assert(now[inner.len() as int] == last);
        if list.contains(other) {
            let i = choose|i: int| 0 <= i < list.len() && list[i] == other;
            if i < rest.len() {
                assert(rest[i] == other);
            }
        }
        if inner.contains(other) {
            let i = choose|i: int| 0 <= i < inner.len() && inner[i] == other;
            assert(now[i] == other);
            if rest.contains(other) {
                let k = choose|k: int| 0 <= k < rest.len() && rest[k] == other;
                assert(list[k] == other);
            }
        }
        if now.contains(other) {
            let i = choose|i: int| 0 <= i < now.len() && now[i] == other;
            if i < inner.len() {
                assert(inner[i] == other);
            } else {
                assert(list[list.len() - 1] == other);
            }
        }
        assert forall|id: Seq<char>| #[trigger] more.contains(id) == (ids.contains(id) || id
            == edge.id) by {
            assert(within.contains(id) == (less.contains(id) || id == edge.id));
            assert(more[within.len() as int] == last.id);
            if ids.contains(id) {
                let i = choose|i: int| 0 <= i < ids.len() && ids[i] == id;
                if i < less.len() {
                    assert(less[i] == id);
                }
            }
            if less.contains(id) {
                let i = choose|i: int| 0 <= i < less.len() && less[i] == id;
                assert(ids[i] == id);
            }
            if within.contains(id) {
                let i = choose|i: int| 0 <= i < within.len() && within[i] == id;
                assert(more[i] == id);
            }
            if more.contains(id) {
                let i = choose|i: int| 0 <= i < more.len() && more[i] == id;
                if i < within.len() {
                    assert(within[i] == id);
                }
            }
        }
        assert(!within.contains(last.id));
        assert forall|i: int, j: int|
            0 <= i < more.len() && 0 <= j < more.len() && i != j implies more[i] != more[j] by {
            if i < within.len() && j < within.len() {
                assert(within[i] == more[i] && within[j] == more[j]);
            } else if i < within.len() {
                assert(within[i] == more[i]);
                assert(within.contains(more[i]));
            } else if j < within.len() {
                assert(within[j] == more[j]);
                assert(within.contains(more[j]));
            }
        }
    }
}

pub(crate) proof fn lemma_by_id(list: Seq<Drawn>, n: nat, other: Drawn)
    requires
        drawn_ids(list).no_duplicates(),
        n <= list.len(),
    ensures
        by_id(list, n).len() == n,
        by_id(list, n).contains(other) == list.take(n as int).contains(other),
        drawn_ids(by_id(list, n)).no_duplicates(),
        forall|id: Seq<char>| #[trigger]
            drawn_ids(by_id(list, n)).contains(id) == drawn_ids(list.take(n as int)).contains(id),
    decreases n,
{
    if n == 0 {
        assert(drawn_ids(by_id(list, 0)) =~= drawn_ids(list.take(0)));
        assert(by_id(list, 0) =~= list.take(0));
    } else {
        let m = (n - 1) as nat;
        let edge = list[n - 1];
        let was = list.take(m as int);
        let now = list.take(n as int);
        lemma_by_id(list, m, other);
        let ids = drawn_ids(list);
        let had = drawn_ids(was);
        assert(!had.contains(edge.id)) by {
            if had.contains(edge.id) {
                let i = choose|i: int| 0 <= i < had.len() && had[i] == edge.id;
                assert(ids[i] == edge.id && ids[n - 1] == edge.id);
            }
        }
        assert(drawn_ids(by_id(list, m)).contains(edge.id) == had.contains(edge.id));
        lemma_ranked(by_id(list, m), edge, other);
        assert(now =~= was.push(edge));
        assert(now[m as int] == edge);
        if was.contains(other) {
            let i = choose|i: int| 0 <= i < was.len() && was[i] == other;
            assert(now[i] == other);
        }
        if now.contains(other) {
            let i = choose|i: int| 0 <= i < now.len() && now[i] == other;
            if i < was.len() {
                assert(was[i] == other);
            }
        }
        let have = drawn_ids(now);
        assert(have =~= had.push(edge.id));
        assert forall|id: Seq<char>| #[trigger] drawn_ids(by_id(list, n)).contains(id)
            == have.contains(id) by {
            assert(drawn_ids(by_id(list, m)).contains(id) == had.contains(id));
            assert(have[m as int] == edge.id);
            if had.contains(id) {
                let i = choose|i: int| 0 <= i < had.len() && had[i] == id;
                assert(have[i] == id);
            }
            if have.contains(id) {
                let i = choose|i: int| 0 <= i < have.len() && have[i] == id;
                if i < had.len() {
                    assert(had[i] == id);
                }
            }
        }
    }
}

/// What the edges of a graph are: each leads to an entity that is placed, or is the annotation of
/// a relation; each entity that hangs below another has its edge; and no two have one id.
pub(crate) proof fn lemma_edges(a: Accepted, kinds: Kinds)
    requires
        keyed(a),
    ensures
        ({
            let placed = placed_of(a);
            let edges = edges_of(a, placed, kinds);
            &&& drawn_ids(edges).no_duplicates()
            &&& forall|i: int|
                0 <= i < edges.len() ==> of_place(a, kinds, placed.len(), #[trigger] edges[i])
                    || of_relation(a, kinds, a.relations.len(), edges[i])
            &&& forall|k: int|
                0 <= k < placed.len() && (#[trigger] placed[k]).1.parent is Some ==> edges.contains(
                    edge_at(a, kinds, k),
                )
        }),
{
    let placed = placed_of(a);
    let list = all_edges(a, placed, kinds);
    let edges = edges_of(a, placed, kinds);
    lemma_annotated(a, kinds, a.relations.len());
    assert(list.take(list.len() as int) =~= list);
    assert forall|i: int| 0 <= i < edges.len() implies of_place(
        a,
        kinds,
        placed.len(),
        #[trigger] edges[i],
    ) || of_relation(a, kinds, a.relations.len(), edges[i]) by {
        lemma_by_id(list, list.len(), edges[i]);
        assert(edges.contains(edges[i]));
        let j = choose|j: int| 0 <= j < list.len() && list[j] == edges[i];
        assert(of_place(a, kinds, placed.len(), list[j]) || of_relation(
            a,
            kinds,
            a.relations.len(),
            list[j],
        ));
    }
    assert forall|k: int| 0 <= k < placed.len() && (#[trigger] placed[k]).1.parent is Some implies
        edges.contains(edge_at(a, kinds, k)) by {
        assert(list.contains(edge_at(a, kinds, k)));
        lemma_by_id(list, list.len(), edge_at(a, kinds, k));
    }
    lemma_by_id(list, list.len(), arbitrary());
}

/// The edges of a graph by id.
spec fn edge_rows(a: Accepted, kinds: Kinds) -> Seq<(Seq<char>, Tree)> {
    let edges = edges_of(a, placed_of(a), kinds);
    Seq::new(edges.len(), |i: int| (edges[i].id, edges[i].tree))
}

/// The node of an entity that is placed is one of the graph.
proof fn lemma_node_stands(a: Accepted, kinds: Kinds, id: Seq<char>)
    requires
        keyed(a),
        entities_speak(a),
        member(placed_of(a), id) is Some,
    ensures
        names_of(node_rows(a, kinds)).contains(node_name(id)),
        root_named(node_rows(a, kinds), node_name(id)) == Some(
            node_name(member(placed_of(a), id)->0.root),
        ),
{
    let placed = placed_of(a);
    let nodes = node_rows(a, kinds);
    lemma_placed(a, id);
    lemma_found_is_row(placed, id);
    let k = choose|k: int|
        0 <= k < placed.len() && #[trigger] placed[k] == (id, member(placed, id)->0);
    assert(names_of(nodes)[k] == node_name(id));
    assert forall|j: int| 0 <= j < k implies (#[trigger] nodes[j]).0 != node_name(id) by {
        lemma_names(placed[j].0, id);
        assert(before(placed[j].0, placed[k].0));
        lemma_before_irreflexive(id);
    }
    lemma_first_row(nodes, node_name(id), k);
    lemma_entity_node(a, id, kinds);
}

/// The edge to an entity that hangs below another.
proof fn lemma_backbone_edge(a: Accepted, kinds: Kinds, k: int)
    requires
        keyed(a),
        entities_speak(a),
        0 <= k < placed_of(a).len(),
        placed_of(a)[k].1.parent is Some,
    ensures
        ({
            let (id, place) = placed_of(a)[k];
            let edge = edge_at(a, kinds, k);
            &&& edge_fits(edge.id, edge.tree, names_of(node_rows(a, kinds)))
            &&& on_backbone(edge.tree)
            &&& told(edge.tree, "to"@) == node_name(id)
            &&& told(edge.tree, "from"@) == node_name(place.parent->0.parent)
        }),
{
    let placed = placed_of(a);
    let (id, place) = placed[k];
    let link = place.parent->0;
    let edge = edge_at(a, kinds, k);
    lemma_placed(a, id);
    lemma_row_is_found(placed, k);
    entities_are_well_placed(a, id);
    lemma_node_stands(a, kinds, id);
    lemma_node_stands(a, kinds, link.parent);
    lemma_strongest(a, id);
    let (tie, j) = choose|tie: Tie, j: int| made_by(a, id, strongest(a, id)->0, tie, j);
    let r = link.relation;
    let prefix = "src-edge-"@ + r.id;
    let basis = super::presentation::basis_tree(
        r.summary,
        super::presentation::ref_names(prefix, r.source_event_ids.len()),
    );
    let metadata = Tree::Object(
        seq![("relation_id"@, Tree::Text(r.id)), ("root_entity_id"@, Tree::Text(place.root))],
    );
    let refs = super::presentation::refs_tree(prefix, r.source_event_ids, kinds);
    lemma_edge_tree(
        basis,
        true,
        "structural"@,
        node_name(link.parent),
        "edge-"@ + r.id,
        link.edge_kind,
        metadata,
        refs,
        node_name(id),
    );
    assert(edge.tree =~= edge_tree(
        basis,
        true,
        "structural"@,
        node_name(link.parent),
        "edge-"@ + r.id,
        link.edge_kind,
        metadata,
        refs,
        node_name(id),
    ));
    lemma_names(id, link.parent);
    lemma_names(link.parent, id);
    lemma_edge_ids(r.id, r.id);
    reveal_strlit("structural");
    reveal_strlit("annotation");
    reveal_strlit("repair");
    reveal_strlit("continuation");
    reveal_strlit("decomposition");
    reveal_strlit("fork");
    reveal_strlit("refinement");
    reveal_strlit("verification");
    reveal_strlit("integration");
    assert("structural"@[0] == 's' && "annotation"@[0] == 'a');
}

/// The annotation of a relation.
proof fn lemma_annotation_edge(a: Accepted, kinds: Kinds, j: int, edge: Drawn)
    requires
        keyed(a),
        entities_speak(a),
        0 <= j < a.relations.len(),
        annotation_edge(a.relations[j].1, placed_of(a), kinds) == Some(edge),
    ensures
        edge_fits(edge.id, edge.tree, names_of(node_rows(a, kinds))),
        !on_backbone(edge.tree),
{
    let r = a.relations[j].1;
    let (from, to, kind) = annotation_ends(r)->0;
    lemma_node_stands(a, kinds, from);
    lemma_node_stands(a, kinds, to);
    let prefix = "src-ann-"@ + r.id;
    let basis = super::presentation::basis_tree(
        r.summary,
        super::presentation::ref_names(prefix, r.source_event_ids.len()),
    );
    let metadata = Tree::Object(seq![("relation_id"@, Tree::Text(r.id))]);
    let refs = super::presentation::refs_tree(prefix, r.source_event_ids, kinds);
    lemma_edge_tree(
        basis,
        false,
        "annotation"@,
        node_name(from),
        "annotation-"@ + r.id,
        kind,
        metadata,
        refs,
        node_name(to),
    );
    assert(edge.tree =~= edge_tree(
        basis,
        false,
        "annotation"@,
        node_name(from),
        "annotation-"@ + r.id,
        kind,
        metadata,
        refs,
        node_name(to),
    ));
    lemma_names(from, to);
    lemma_names(to, from);
    lemma_edge_ids(r.id, r.id);
    reveal_strlit("annotation");
    reveal_strlit("pivot");
    reveal_strlit("evidence");
    reveal_strlit("refutation");
    reveal_strlit("artifact_use");
    reveal_strlit("related");
}

/// Whether steps lead from each entity that hangs below another to that one.
spec fn steps_up(a: Accepted, steps: Seq<(Seq<char>, Seq<char>)>) -> bool {
    forall|id: Seq<char>|
        member(placed_of(a), id) is Some ==> #[trigger] member(steps, node_name(id)) == (
        match member(placed_of(a), id)->0.parent {
            None => None::<Seq<char>>,
            Some(link) => Some(node_name(link.parent)),
        })
}

proof fn lemma_climb(
    a: Accepted,
    steps: Seq<(Seq<char>, Seq<char>)>,
    id: Seq<char>,
    root: Seq<char>,
    n: nat,
)
    requires
        steps_up(a, steps),
        reaches_root(placed_of(a), id, root, n),
    ensures
        climb(steps, node_name(id), n) is Some,
    decreases n,
{
    assert(member(steps, node_name(id)) == (match member(placed_of(a), id)->0.parent {
        None => None::<Seq<char>>,
        Some(link) => Some(node_name(link.parent)),
    }));
    if let Some(link) = member(placed_of(a), id)->0.parent {
        lemma_climb(a, steps, link.parent, root, (n - 1) as nat);
    }
}

/// What the backbone of a graph is.
proof fn lemma_steps(a: Accepted, kinds: Kinds)
    requires
        keyed(a),
        entities_speak(a),
    ensures
        ({
            let edges = edge_rows(a, kinds);
            let steps = backbone_of(edges, edges.len());
            &&& names_of(steps).no_duplicates()
            &&& steps_up(a, steps)
            &&& forall|k: int|
                0 <= k < steps.len() ==> root_named(node_rows(a, kinds), (#[trigger] steps[k]).0)
                    == root_named(node_rows(a, kinds), steps[k].1)
        }),
{
    let placed = placed_of(a);
    let list = edges_of(a, placed, kinds);
    let edges = edge_rows(a, kinds);
    let nodes = node_rows(a, kinds);
    let steps = backbone_of(edges, edges.len());
    lemma_edges(a, kinds);
    assert forall|i: int| 0 <= i < edges.len() && on_backbone((#[trigger] edges[i]).1) implies of_place(
        a,
        kinds,
        placed.len(),
        list[i],
    ) by {
        if of_relation(a, kinds, a.relations.len(), list[i]) {
            let j = choose|j: int|
                0 <= j < a.relations.len() && annotation_edge(
                    (#[trigger] a.relations[j]).1,
                    placed,
                    kinds,
                ) == Some(list[i]);
            lemma_annotation_edge(a, kinds, j, list[i]);
        }
    }
    assert forall|i: int, j: int|
        #![trigger edges[i], edges[j]]
        0 <= i < j < edges.len() && on_backbone(edges[i].1) && on_backbone(edges[j].1) implies told(
        edges[i].1,
        "to"@,
    ) != told(edges[j].1, "to"@) by {
        let k = choose|k: int|
            0 <= k < placed.len() && (#[trigger] placed[k]).1.parent is Some && list[i] == edge_at(
                a,
                kinds,
                k,
            );
        let l = choose|l: int|
            0 <= l < placed.len() && (#[trigger] placed[l]).1.parent is Some && list[j] == edge_at(
                a,
                kinds,
                l,
            );
        lemma_backbone_edge(a, kinds, k);
        lemma_backbone_edge(a, kinds, l);
        if told(edges[i].1, "to"@) == told(edges[j].1, "to"@) {
            lemma_names(placed[k].0, placed[l].0);
            lemma_placed(a, placed[k].0);
            lemma_row_is_found(placed, k);
            lemma_row_is_found(placed, l);
            assert(list[i] == list[j]);
            assert(drawn_ids(list)[i] == drawn_ids(list)[j]);
        }
    }
    lemma_children_differ(edges, edges.len());
    assert forall|k: int| 0 <= k < steps.len() implies root_named(nodes, (#[trigger] steps[k]).0)
        == root_named(nodes, steps[k].1) && step_to(a, steps[k]) by {
        lemma_step_of_edge(edges, edges.len(), k);
        let i = choose|i: int|
            0 <= i < edges.len() && on_backbone((#[trigger] edges[i]).1) && steps[k] == (
                told(edges[i].1, "to"@),
                told(edges[i].1, "from"@),
            );
        let at = choose|at: int|
            0 <= at < placed.len() && (#[trigger] placed[at]).1.parent is Some && list[i]
                == edge_at(a, kinds, at);
        lemma_backbone_edge(a, kinds, at);
        let id = placed[at].0;
        lemma_placed(a, id);
        lemma_row_is_found(placed, at);
        entities_are_well_placed(a, id);
        lemma_node_stands(a, kinds, id);
        lemma_node_stands(a, kinds, placed[at].1.parent->0.parent);
        assert(member(placed, id) is Some);
    }
    assert forall|id: Seq<char>| member(placed, id) is Some implies #[trigger] member(
        steps,
        node_name(id),
    ) == (match member(placed, id)->0.parent {
        None => None::<Seq<char>>,
        Some(link) => Some(node_name(link.parent)),
    }) by {
        match member(placed, id)->0.parent {
            None => {
                assert forall|k: int| 0 <= k < steps.len() implies (#[trigger] steps[k]).0
                    != node_name(id) by {
                    assert(step_to(a, steps[k]));
                    let other = choose|other: Seq<char>|
                        (#[trigger] member(placed, other)) is Some && member(
                            placed,
                            other,
                        )->0.parent is Some && steps[k].0 == node_name(other);
                    lemma_names(other, id);
                }
                lemma_no_row(steps, node_name(id));
            },
            Some(link) => {
                lemma_found_is_row(placed, id);
                let at = choose|at: int|
                    0 <= at < placed.len() && #[trigger] placed[at] == (id, member(placed, id)->0);
                assert(placed[at].1.parent is Some);
                assert(list.contains(edge_at(a, kinds, at)));
                let i = choose|i: int| 0 <= i < list.len() && list[i] == edge_at(a, kinds, at);
                lemma_backbone_edge(a, kinds, at);
                assert(edges[i].1 == list[i].tree);
                lemma_edge_gives_step(edges, edges.len(), i);
                let step = (node_name(id), node_name(link.parent));
                let k = choose|k: int| 0 <= k < steps.len() && steps[k] == step;
                lemma_step_is_found(steps, k);
            },
        }
    }
}

/// Whether a step leads to an entity that hangs below another.
spec fn step_to(a: Accepted, step: (Seq<char>, Seq<char>)) -> bool {
    exists|id: Seq<char>|
        (#[trigger] member(placed_of(a), id)) is Some && member(placed_of(a), id)->0.parent is Some
            && step.0 == node_name(id)
}

/// The graph of a record hangs together.
proof fn lemma_graph_hangs_together(a: Accepted, kinds: Kinds)
    requires
        keyed(a),
        entities_speak(a),
    ensures
        hangs_together(
            roots_among(a.entities, a.entities.len()),
            node_rows(a, kinds),
            edge_rows(a, kinds),
        ),
{
    let placed = placed_of(a);
    let roots = roots_among(a.entities, a.entities.len());
    let nodes = node_rows(a, kinds);
    let edges = edge_rows(a, kinds);
    let list = edges_of(a, placed, kinds);
    let ids = names_of(nodes);
    let steps = backbone_of(edges, edges.len());
    lemma_edges(a, kinds);
    lemma_steps(a, kinds);
    lemma_roots_among(a, a.entities.len());
    assert(names_of(edges) =~= drawn_ids(list));
    assert forall|i: int, j: int| 0 <= i < ids.len() && 0 <= j < ids.len() && i != j implies ids[i]
        != ids[j] by {
        lemma_names(placed[i].0, placed[j].0);
        lemma_placed(a, placed[i].0);
        lemma_before_irreflexive(placed[i].0);
        if i < j {
            assert(before(placed[i].0, placed[j].0));
        } else {
            assert(before(placed[j].0, placed[i].0));
        }
    }
    assert forall|i: int| 0 <= i < roots.len() implies ids.contains(#[trigger] roots[i]) by {
        assert(names_question(a, a.entities.len(), roots[i]));
        let j = choose|j: int|
            0 <= j < a.entities.len() && (#[trigger] a.entities[j]).1.kind == EntityKind::Question
                && node_name(a.entities[j].0) == roots[i];
        lemma_row_is_found(a.entities, j);
        lemma_placed(a, a.entities[j].0);
        lemma_node_stands(a, kinds, a.entities[j].0);
    }
    assert forall|i: int| 0 <= i < nodes.len() implies node_fits(
        (#[trigger] nodes[i]).0,
        nodes[i].1,
        roots,
    ) && roots.contains(nodes[i].0) == (member(steps, nodes[i].0) is None) && climb(
        steps,
        nodes[i].0,
        steps.len(),
    ) is Some by {
        let id = placed[i].0;
        lemma_placed(a, id);
        lemma_row_is_found(placed, i);
        lemma_entity_node(a, id, kinds);
        lemma_is_root(a, id);
        entities_are_well_placed(a, id);
        placed_entities_are_grounded(a, id);
        let root = placed[i].1.root;
        let n = choose|n: nat| #[trigger] reaches_root(placed, id, root, n);
        lemma_climb(a, steps, id, root, n);
        ways_are_short(steps, node_name(id), n);
        assert(member(steps, node_name(id)) == (match member(placed, id)->0.parent {
            None => None::<Seq<char>>,
            Some(link) => Some(node_name(link.parent)),
        }));
    }
    assert forall|i: int| 0 <= i < edges.len() implies edge_fits(
        (#[trigger] edges[i]).0,
        edges[i].1,
        ids,
    ) by {
        if of_place(a, kinds, placed.len(), list[i]) {
            let k = choose|k: int|
                0 <= k < placed.len() && (#[trigger] placed[k]).1.parent is Some && list[i]
                    == edge_at(a, kinds, k);
            lemma_backbone_edge(a, kinds, k);
        } else {
            assert(of_relation(a, kinds, a.relations.len(), list[i]));
            let j = choose|j: int|
                0 <= j < a.relations.len() && annotation_edge(
                    (#[trigger] a.relations[j]).1,
                    placed,
                    kinds,
                ) == Some(list[i]);
            lemma_annotation_edge(a, kinds, j, list[i]);
        }
    }
}

/// What the artifact of a graph says of its forest.
proof fn lemma_artifact(r: Record, a: Accepted, nodes: Seq<Tree>, id: Seq<char>)
    ensures
        ({
            let artifact = graph_tree(r, a, nodes, id);
            let forest = artifact.at("forest"@);
            let kinds = kinds_among(r.episodes, r.episodes.len());
            let roots = roots_among(a.entities, a.entities.len());
            &&& artifact.text_at("schema"@) == Some(RESEARCH_DAG_SCHEMA@)
            &&& artifact.at("session"@).text_at("id"@) == Some(r.session.id)
            &&& forest is Object
            &&& forest.list_at("nodes"@) == Some(nodes)
            &&& forest.list_at("edges"@) == Some(edge_trees(edges_of(a, placed_of(a), kinds)))
            &&& forest.get("roots"@) == Some(texts(roots))
            &&& forest.get("active_root"@) == Some(
                if roots.len() > 0 {
                    Tree::Text(roots[0])
                } else {
                    Tree::Null
                },
            )
        }),
{
    let artifact = graph_tree(r, a, nodes, id);
    let kinds = kinds_among(r.episodes, r.episodes.len());
    let roots = roots_among(a.entities, a.entities.len());
    let o = artifact->Object_0;
    reveal_strlit("construction");
    reveal_strlit("diagnostics");
    reveal_strlit("forest");
    reveal_strlit("generated_at");
    reveal_strlit("media_type");
    reveal_strlit("projection");
    reveal_strlit("schema");
    reveal_strlit("session");
    assert(o[0].0[0] == 'c' && o[1].0[0] == 'd' && o[2].0[0] == 'f' && o[3].0[0] == 'g'
        && o[4].0[0] == 'm' && o[5].0[0] == 'p' && o[6].0[0] == 's' && o[7].0[0] == 's');
    assert(o[6].0.len() == 6 && o[7].0.len() == 7);
    lemma_first_row(o, "forest"@, 2);
    lemma_first_row(o, "schema"@, 6);
    lemma_first_row(o, "session"@, 7);
    let f = forest_tree(roots, nodes, edges_of(a, placed_of(a), kinds))->Object_0;
    reveal_strlit("active_root");
    reveal_strlit("edges");
    reveal_strlit("nodes");
    reveal_strlit("roots");
    assert(f[0].0[0] == 'a' && f[1].0[0] == 'e' && f[2].0[0] == 'n' && f[3].0[0] == 'r');
    lemma_first_row(f, "active_root"@, 0);
    lemma_first_row(f, "edges"@, 1);
    lemma_first_row(f, "nodes"@, 2);
    lemma_first_row(f, "roots"@, 3);
    let s = session_tree(r)->Object_0;
    reveal_strlit("event_range");
    reveal_strlit("id");
    assert(s[0].0[0] == 'e' && s[1].0[0] == 'i');
    lemma_first_row(s, "id"@, 1);
}

proof fn lemma_enter_len(v: Seq<Seq<char>>, name: Seq<char>)
    requires
        !v.contains(name),
    ensures
        enter(v, name).len() == v.len() + 1,
    decreases v.len(),
{
    if v.len() > 0 {
        assert(v[0] != name);
        if !before(name, v[0]) {
            let rest = v.drop_first();
            assert(!rest.contains(name)) by {
                if rest.contains(name) {
                    let i = choose|i: int| 0 <= i < rest.len() && rest[i] == name;
                    assert(v[i + 1] == name);
                }
            }
            lemma_enter_len(rest, name);
        }
    }
}

/// Names of which none stands twice are as many in order.
proof fn lemma_in_order_len(names: Seq<Seq<char>>)
    requires
        names.no_duplicates(),
    ensures
        in_order(names).len() == names.len(),
    decreases names.len(),
{
    if names.len() > 0 {
        let rest = names.drop_last();
        lemma_in_order_len(rest);
        in_order_keeps_names(rest, names.last());
        assert(!rest.contains(names.last())) by {
            if rest.contains(names.last()) {
                let i = choose|i: int| 0 <= i < rest.len() && rest[i] == names.last();
                assert(names[i] == names[names.len() - 1]);
            }
        }
        lemma_enter_len(in_order(rest), names.last());
    }
}

proof fn lemma_texts_among(v: Seq<Seq<char>>, n: nat)
    requires
        n <= v.len(),
    ensures
        texts_among(texts(v)->List_0, n) == v.take(n as int),
    decreases n,
{
    if n > 0 {
        lemma_texts_among(v, (n - 1) as nat);
        assert(texts(v)->List_0[n - 1].text() == Some(v[n - 1]));
        assert(v.take(n as int) =~= v.take(n - 1).push(v[n - 1]));
    } else {
        assert(v.take(0) =~= Seq::empty());
    }
}

proof fn lemma_ids_among(nodes: Seq<(Seq<char>, Tree)>, n: nat)
    requires
        n <= nodes.len(),
        forall|i: int|
            0 <= i < nodes.len() ==> (#[trigger] nodes[i]).1.text_at("id"@) == Some(nodes[i].0),
    ensures
        ids_among(values_of(nodes), n) == names_of(nodes).take(n as int),
    decreases n,
{
    let names = names_of(nodes);
    if n > 0 {
        lemma_ids_among(nodes, (n - 1) as nat);
        assert(nodes[n - 1].1.text_at("id"@) == Some(nodes[n - 1].0));
        assert(names.take(n as int) =~= names.take(n - 1).push(names[n - 1]));
    } else {
        assert(names.take(0) =~= Seq::empty());
    }
}

proof fn lemma_parents_from(
    edges: Seq<(Seq<char>, Tree)>,
    ids: Seq<Seq<char>>,
    kept: Seq<Seq<char>>,
    i: nat,
    parents: Seq<(Seq<char>, Seq<char>)>,
)
    requires
        i <= edges.len(),
        forall|k: int| 0 <= k < edges.len() ==> edge_fits((#[trigger] edges[k]).0, edges[k].1, ids),
        forall|id: Seq<char>| ids.contains(id) ==> #[trigger] kept.contains(id),
        crate::export::graph::parents_from(values_of(edges), ids, i, parents) is Ok,
    ensures
        parents_from(values_of(edges), kept, i, parents) == crate::export::graph::parents_from(
            values_of(edges),
            ids,
            i,
            parents,
        ),
    decreases edges.len() - i,
{
    if i < edges.len() {
        let edge = edges[i as int].1;
        assert(edge_fits(edges[i as int].0, edge, ids));
        assert(values_of(edges)[i as int] == edge);
        if on_backbone(edge) {
            let to = told(edge, "to"@);
            let from = told(edge, "from"@);
            assert(kept.contains(to) && kept.contains(from));
            assert(crate::export::graph::backbone_edge(edge, ids) == Ok::<
                (Seq<char>, Seq<char>),
                Seq<char>,
            >((to, from)));
            lemma_parents_from(edges, ids, kept, i + 1, put(parents, to, from));
        } else {
            lemma_parents_from(edges, ids, kept, i + 1, parents);
        }
    }
}

proof fn lemma_ways(
    ids: Seq<Seq<char>>,
    roots: Seq<Seq<char>>,
    parents: Seq<(Seq<char>, Seq<char>)>,
    i: nat,
)
    requires
        forall|k: int|
            0 <= k < ids.len() ==> roots.contains(#[trigger] ids[k]) == (member(parents, ids[k])
                is None) && climb(parents, ids[k], parents.len()) is Some && roots.contains(
                climb(parents, ids[k], parents.len())->0,
            ),
    ensures
        ways_fault(ids, roots, parents, i) is None,
    decreases ids.len() - i,
{
    if i < ids.len() {
        assert(roots.contains(ids[i as int]) == (member(parents, ids[i as int]) is None));
        lemma_ways(ids, roots, parents, i + 1);
    }
}

/// A graph that hangs together, with a root, passes the checks of a forest.
proof fn lemma_forest_passes(
    roots: Seq<Seq<char>>,
    nodes: Seq<(Seq<char>, Tree)>,
    edges: Seq<(Seq<char>, Tree)>,
)
    requires
        hangs_together(roots, nodes, edges),
        roots.len() > 0,
    ensures
        forest_fault(values_of(nodes), values_of(edges), texts(roots)->List_0) is None,
{
    let ids = names_of(nodes);
    let steps = backbone_of(edges, edges.len());
    let none = Seq::<(Seq<char>, Seq<char>)>::empty();
    assert forall|i: int| 0 <= i < nodes.len() implies (#[trigger] nodes[i]).1.text_at("id"@)
        == Some(nodes[i].0) by {
        assert(node_fits(nodes[i].0, nodes[i].1, roots));
    }
    lemma_texts_among(roots, roots.len());
    lemma_ids_among(nodes, nodes.len());
    assert(roots.take(roots.len() as int) =~= roots);
    assert(ids.take(ids.len() as int) =~= ids);
    let named = in_order(roots);
    let kept = in_order(ids);
    lemma_in_order_len(roots);
    lemma_in_order_len(ids);
    assert forall|id: Seq<char>| #[trigger] kept.contains(id) == ids.contains(id) by {
        in_order_keeps_names(ids, id);
    }
    assert forall|id: Seq<char>| #[trigger] named.contains(id) == roots.contains(id) by {
        in_order_keeps_names(roots, id);
    }
    assert forall|i: int| 0 <= i < named.len() implies kept.contains(#[trigger] named[i]) by {
        assert(named.contains(named[i]));
        let j = choose|j: int| 0 <= j < roots.len() && roots[j] == named[i];
        assert(ids.contains(roots[j]));
    }
    assert(backbone_of(edges, 0) =~= none);
    lemma_parents_are_read(edges, ids, 0, none);
    let parents = crate::export::graph::parents_from(values_of(edges), ids, 0, none)->Ok_0;
    lemma_parents_from(edges, ids, kept, 0, none);
    assert forall|k: int| 0 <= k < kept.len() implies named.contains(#[trigger] kept[k]) == (member(
        parents,
        kept[k],
    ) is None) && climb(parents, kept[k], parents.len()) is Some && named.contains(
        climb(parents, kept[k], parents.len())->0,
    ) by {
        let id = kept[k];
        assert(kept.contains(id));
        let i = choose|i: int| 0 <= i < ids.len() && ids[i] == id;
        assert(nodes[i].0 == id);
        assert(roots.contains(nodes[i].0) == (member(steps, nodes[i].0) is None));
        assert(named.contains(id) == roots.contains(id));
        assert(member(parents, id) == member(steps, id));
        assert(climb(steps, nodes[i].0, steps.len()) is Some);
        lemma_climbs_agree(parents, steps, id, steps.len());
        lemma_node_is_found(nodes, i);
        lemma_climb_ends(nodes, steps, id, steps.len());
        let end = climb(steps, id, steps.len())->0;
        lemma_found_is_row(nodes, end);
        let last = choose|last: int|
            0 <= last < nodes.len() && #[trigger] nodes[last] == (end, member(nodes, end)->0);
        assert(roots.contains(nodes[last].0) == (member(steps, nodes[last].0) is None));
        assert(named.contains(end) == roots.contains(end));
    }
    lemma_ways(kept, named, parents, 0);
}

/// A record with a question has a graph, and the graph can be drawn, where each entity has a
/// title and a summary.
pub proof fn records_have_graphs_that_can_be_drawn(r: Record, id: Seq<char>)
    requires
        accepted_of(r.ledger) is Ok,
        entities_speak(accepted_of(r.ledger)->Ok_0),
        exists|j: int|
            0 <= j < accepted_of(r.ledger)->Ok_0.entities.len() && (
            #[trigger] accepted_of(r.ledger)->Ok_0.entities[j]).1.kind == EntityKind::Question,
    ensures
        research_graph(r, id) is Ok,
        drawn((research_graph(r, id)->Ok_0).0) is Ok,
{
    let a = accepted_of(r.ledger)->Ok_0;
    let kinds = kinds_among(r.episodes, r.episodes.len());
    let roots = roots_among(a.entities, a.entities.len());
    accepted_things_stand_under_their_ids(r.ledger);
    lemma_nodes_from(a, kinds, 0, Seq::empty());
    let made = nodes_of(r, a)->Ok_0;
    let nodes = node_rows(a, kinds);
    let edges = edge_rows(a, kinds);
    assert(made =~= values_of(nodes));
    assert(edge_trees(edges_of(a, placed_of(a), kinds)) =~= values_of(edges));
    lemma_artifact(r, a, made, id);
    lemma_graph_hangs_together(a, kinds);
    let j = choose|j: int|
        0 <= j < a.entities.len() && (#[trigger] a.entities[j]).1.kind == EntityKind::Question;
    lemma_roots_among(a, a.entities.len());
    assert(roots.contains(node_name(a.entities[j].0)));
    assert(roots.len() > 0);
    lemma_forest_passes(roots, nodes, edges);
    let artifact = graph_tree(r, a, made, id);
    assert(graph_of(r, a, id) == Ok::<Tree, Seq<char>>(artifact));
    assert(projection_fault(artifact) is None);
    assert forall|k: int| 0 <= k < roots.len() implies (#[trigger] roots[k]).len() > 0 by {
        assert(names_of(nodes).contains(roots[k]));
        let i = choose|i: int| 0 <= i < nodes.len() && names_of(nodes)[i] == roots[k];
        assert(node_fits(nodes[i].0, nodes[i].1, roots));
    }
    lemma_texts_are_read(roots, "forest.roots"@, 0);
    assert(roots.take(0) =~= Seq::empty());
    assert(roots.contains(roots[0]));
    what_hangs_together_can_be_drawn(artifact, roots, nodes, edges);
}

} // verus!
