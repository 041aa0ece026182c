//! What holds of everything that a record accepts: on which evidence a verdict may rest, what a
//! relation may join, and that nothing is accepted but what was proposed.

use super::append::{
    assessments_of, by_id, drafted, evidence_of, prepared, ranked, taken_ids, with_assessments,
    with_entities, with_outcomes, with_relations, Append, Drafted,
};
use super::evidence::{current_among, endpoints_fault, grounded, Evidence};
use super::ledger::{accepted_of, Accepted};
use super::queries::accepted_sources;
use super::record::named_sources;
use super::types::{
    Assessment, AssessmentVerdict, Entity, EntityKind, Outcome, Relation, RelationKind, Semantic,
};
use crate::projection::revision::names_of;
use crate::table::{in_order, in_order_keeps_names, lemma_found_is_row, member, put_then_member};
use crate::text::before;
use crate::update::ids_of;
use vstd::prelude::*;

verus! {

/// Whether an id of a table is taken in a draft.
pub open spec fn covered(d: Drafted, id: Seq<char>) -> bool {
    (member(d.accepted.entities, id) is Some || member(d.accepted.outcomes, id) is Some || member(
        d.accepted.relations,
        id,
    ) is Some || member(d.accepted.assessments, id) is Some) ==> d.ids.contains(id)
}

/// Whether a draft knows the ids of all that it holds.
pub open spec fn covering(d: Drafted) -> bool {
    forall|id: Seq<char>| #[trigger] covered(d, id)
}

proof fn lemma_drafted(d: Drafted, s: Semantic, id: Seq<char>)
    requires
        covering(d),
    ensures
        covering(drafted(d, s)),
        d.ids.contains(id) ==> drafted(d, s).ids.contains(id),
        drafted(d, s).ids.contains(s.id()),
{
    let next = drafted(d, s);
    assert(next.ids[d.ids.len() as int] == s.id());
    assert forall|other: Seq<char>| #[trigger] covered(next, other) by {
        assert(covered(d, other));
        match s {
            Semantic::Entity(v) => put_then_member(d.accepted.entities, v.id, v, other),
            Semantic::InvestigationOutcome(v) => put_then_member(
                d.accepted.outcomes,
                v.id,
                v,
                other,
            ),
            Semantic::Relation(v) => put_then_member(d.accepted.relations, v.id, v, other),
            Semantic::Assessment(v) => put_then_member(d.accepted.assessments, v.id, v, other),
        }
        if d.ids.contains(other) {
            let i = choose|i: int| 0 <= i < d.ids.len() && d.ids[i] == other;
            assert(next.ids[i] == other);
        }
    }
    if d.ids.contains(id) {
        let i = choose|i: int| 0 <= i < d.ids.len() && d.ids[i] == id;
        assert(next.ids[i] == id);
    }
}

proof fn lemma_taken(a: Accepted)
    ensures
        covering(Drafted { accepted: a, ids: taken_ids(a) }),
{
    let d = Drafted { accepted: a, ids: taken_ids(a) };
    let first = names_of(a.entities);
    let second = first + names_of(a.outcomes);
    let third = second + names_of(a.relations);
    assert forall|id: Seq<char>| #[trigger] covered(d, id) by {
        if member(a.entities, id) is Some {
            lemma_found_is_row(a.entities, id);
            let i = choose|i: int|
                0 <= i < a.entities.len() && #[trigger] a.entities[i] == (
                    id,
                    member(a.entities, id)->0,
                );
            assert(taken_ids(a)[i] == id);
        }
        if member(a.outcomes, id) is Some {
            lemma_found_is_row(a.outcomes, id);
            let i = choose|i: int|
                0 <= i < a.outcomes.len() && #[trigger] a.outcomes[i] == (
                    id,
                    member(a.outcomes, id)->0,
                );
            assert(taken_ids(a)[first.len() + i] == id);
        }
        if member(a.relations, id) is Some {
            lemma_found_is_row(a.relations, id);
            let i = choose|i: int|
                0 <= i < a.relations.len() && #[trigger] a.relations[i] == (
                    id,
                    member(a.relations, id)->0,
                );
            assert(taken_ids(a)[second.len() + i] == id);
        }
        if member(a.assessments, id) is Some {
            lemma_found_is_row(a.assessments, id);
            let i = choose|i: int|
                0 <= i < a.assessments.len() && #[trigger] a.assessments[i] == (
                    id,
                    member(a.assessments, id)->0,
                );
            assert(taken_ids(a)[third.len() + i] == id);
        }
    }
}

proof fn lemma_entities(list: Seq<Entity>, i: nat, evidence: Evidence, d: Drafted, id: Seq<char>)
    requires
        with_entities(list, i, evidence, d) is Ok,
        covering(d),
    ensures
        ({
            let out = with_entities(list, i, evidence, d)->Ok_0;
            &&& covering(out)
            &&& out.accepted.outcomes == d.accepted.outcomes
            &&& out.accepted.relations == d.accepted.relations
            &&& out.accepted.assessments == d.accepted.assessments
            &&& out.accepted.outcome_order == d.accepted.outcome_order
            &&& d.ids.contains(id) ==> out.ids.contains(id)
            &&& member(d.accepted.entities, id) is Some ==> member(out.accepted.entities, id)
                == member(d.accepted.entities, id)
            &&& member(out.accepted.entities, id) is Some && member(d.accepted.entities, id) is None
                ==> exists|k: int| i <= k < list.len() && #[trigger] list[k] == member(
                out.accepted.entities,
                id,
            )->0 && list[k].id == id
        }),
    decreases list.len() - i,
{
    if i < list.len() {
        let e = list[i as int];
        let next = drafted(d, Semantic::Entity(e));
        lemma_drafted(d, Semantic::Entity(e), id);
        lemma_entities(list, i + 1, evidence, next, id);
        put_then_member(d.accepted.entities, e.id, e, id);
        assert(covered(d, e.id));
        if id == e.id {
            assert(list[i as int] == e);
        }
    }
}

proof fn lemma_entity(list: Seq<Entity>, i: nat, evidence: Evidence, d: Drafted, k: int)
    requires
        with_entities(list, i, evidence, d) is Ok,
        covering(d),
        i <= k < list.len(),
    ensures
        ({
            let out = with_entities(list, i, evidence, d)->Ok_0;
            let e = list[k];
            &&& member(out.accepted.entities, e.id) == Some(e)
            &&& !d.ids.contains(e.id)
            &&& grounded(e.source_event_ids, evidence)
        }),
    decreases list.len() - i,
{
    let e = list[i as int];
    let next = drafted(d, Semantic::Entity(e));
    lemma_drafted(d, Semantic::Entity(e), list[k].id);
    if k == i {
        lemma_entities(list, i + 1, evidence, next, e.id);
        put_then_member(d.accepted.entities, e.id, e, e.id);
    } else {
        lemma_entity(list, i + 1, evidence, next, k);
    }
}

proof fn lemma_outcomes(
    list: Seq<Outcome>,
    i: nat,
    evidence: Evidence,
    targets: Seq<Seq<char>>,
    d: Drafted,
    id: Seq<char>,
)
    requires
        with_outcomes(list, i, evidence, targets, d) is Ok,
        covering(d),
    ensures
        ({
            let out = with_outcomes(list, i, evidence, targets, d)->Ok_0;
            &&& covering(out)
            &&& out.accepted.entities == d.accepted.entities
            &&& out.accepted.relations == d.accepted.relations
            &&& out.accepted.assessments == d.accepted.assessments
            &&& d.ids.contains(id) ==> out.ids.contains(id)
            &&& member(d.accepted.outcomes, id) is Some ==> member(out.accepted.outcomes, id)
                == member(d.accepted.outcomes, id)
            &&& member(out.accepted.outcomes, id) is Some && member(d.accepted.outcomes, id) is None
                ==> exists|k: int| i <= k < list.len() && #[trigger] list[k] == member(
                out.accepted.outcomes,
                id,
            )->0 && list[k].id == id
        }),
    decreases list.len() - i,
{
    if i < list.len() {
        let o = list[i as int];
        let next = drafted(d, Semantic::InvestigationOutcome(o));
        lemma_drafted(d, Semantic::InvestigationOutcome(o), id);
        lemma_outcomes(list, i + 1, evidence, targets.push(o.investigation_id), next, id);
        put_then_member(d.accepted.outcomes, o.id, o, id);
        assert(covered(d, o.id));
        if id == o.id {
            assert(list[i as int] == o);
        }
    }
}

proof fn lemma_current_stays(d: Drafted, o: Outcome, investigation: Seq<char>, n: nat)
    requires
        n <= d.accepted.outcome_order.len(),
        member(d.accepted.outcomes, o.id) is None,
        investigation != o.investigation_id,
    ensures
        current_among(
            drafted(d, Semantic::InvestigationOutcome(o)).accepted,
            investigation,
            n,
        ) == current_among(d.accepted, investigation, n),
    decreases n,
{
    if n > 0 {
        lemma_current_stays(d, o, investigation, (n - 1) as nat);
        put_then_member(d.accepted.outcomes, o.id, o, d.accepted.outcome_order[n - 1]);
    }
}

proof fn lemma_outcome(
    list: Seq<Outcome>,
    i: nat,
    evidence: Evidence,
    targets: Seq<Seq<char>>,
    d: Drafted,
    k: int,
)
    requires
        with_outcomes(list, i, evidence, targets, d) is Ok,
        covering(d),
        i <= k < list.len(),
    ensures
        ({
            let out = with_outcomes(list, i, evidence, targets, d)->Ok_0;
            let o = list[k];
            &&& member(out.accepted.outcomes, o.id) == Some(o)
            &&& !d.ids.contains(o.id)
            &&& !targets.contains(o.investigation_id)
            &&& grounded(o.source_event_ids, evidence)
            &&& o.source_event_ids.len() > 0
            &&& evidence.new_ids.contains(o.source_event_ids[0])
            &&& member(d.accepted.entities, o.investigation_id) is Some
            &&& member(d.accepted.entities, o.investigation_id)->0.kind
                == EntityKind::Investigation
            &&& o.supersedes_outcome_id == current_among(
                d.accepted,
                o.investigation_id,
                d.accepted.outcome_order.len(),
            )
        }),
    decreases list.len() - i,
{
    let o = list[i as int];
    let s = Semantic::InvestigationOutcome(o);
    let next = drafted(d, s);
    let more = targets.push(o.investigation_id);
    lemma_drafted(d, s, list[k].id);
    if k == i {
        lemma_outcomes(list, i + 1, evidence, more, next, o.id);
        put_then_member(d.accepted.outcomes, o.id, o, o.id);
    } else {
        lemma_outcome(list, i + 1, evidence, more, next, k);
        let investigation = list[k].investigation_id;
        if targets.contains(investigation) {
            let j = choose|j: int| 0 <= j < targets.len() && targets[j] == investigation;
            assert(more[j] == investigation);
        }
        assert(more[targets.len() as int] == o.investigation_id);
        assert(covered(d, o.id));
        let n = d.accepted.outcome_order.len();
        lemma_current_stays(d, o, investigation, n);
        put_then_member(d.accepted.outcomes, o.id, o, o.id);
        assert(next.accepted.outcome_order[n as int] == o.id);
        assert(current_among(next.accepted, investigation, n + 1) == current_among(
            next.accepted,
            investigation,
            n,
        ));
    }
}

proof fn lemma_relations(
    list: Seq<Relation>,
    i: nat,
    evidence: Evidence,
    d: Drafted,
    id: Seq<char>,
)
    requires
        with_relations(list, i, evidence, d) is Ok,
        covering(d),
    ensures
        ({
            let out = with_relations(list, i, evidence, d)->Ok_0;
            &&& covering(out)
            &&& out.accepted.entities == d.accepted.entities
            &&& out.accepted.outcomes == d.accepted.outcomes
            &&& out.accepted.outcome_order == d.accepted.outcome_order
            &&& out.accepted.assessments == d.accepted.assessments
            &&& d.ids.contains(id) ==> out.ids.contains(id)
            &&& member(d.accepted.relations, id) is Some ==> member(out.accepted.relations, id)
                == member(d.accepted.relations, id)
            &&& member(out.accepted.relations, id) is Some && member(
                d.accepted.relations,
                id,
            ) is None ==> exists|k: int| i <= k < list.len() && #[trigger] list[k] == member(
                out.accepted.relations,
                id,
            )->0 && list[k].id == id
        }),
    decreases list.len() - i,
{
    if i < list.len() {
        let r = list[i as int];
        let next = drafted(d, Semantic::Relation(r));
        lemma_drafted(d, Semantic::Relation(r), id);
        lemma_relations(list, i + 1, evidence, next, id);
        put_then_member(d.accepted.relations, r.id, r, id);
        assert(covered(d, r.id));
        if id == r.id {
            assert(list[i as int] == r);
        }
    }
}

proof fn lemma_relation(list: Seq<Relation>, i: nat, evidence: Evidence, d: Drafted, k: int)
    requires
        with_relations(list, i, evidence, d) is Ok,
        covering(d),
        i <= k < list.len(),
    ensures
        ({
            let out = with_relations(list, i, evidence, d)->Ok_0;
            let r = list[k];
            &&& member(out.accepted.relations, r.id) == Some(r)
            &&& !d.ids.contains(r.id)
            &&& grounded(r.source_event_ids, evidence)
            &&& r.from != r.to
            &&& endpoints_fault(r, out.accepted) is None
        }),
    decreases list.len() - i,
{
    let r = list[i as int];
    let next = drafted(d, Semantic::Relation(r));
    lemma_drafted(d, Semantic::Relation(r), list[k].id);
    if k == i {
        lemma_relations(list, i + 1, evidence, next, r.id);
        put_then_member(d.accepted.relations, r.id, r, r.id);
    } else {
        lemma_relation(list, i + 1, evidence, next, k);
    }
}

proof fn lemma_assessments(
    list: Seq<Semantic>,
    i: nat,
    evidence: Evidence,
    d: Drafted,
    id: Seq<char>,
)
    requires
        with_assessments(list, i, evidence, d) is Ok,
        covering(d),
    ensures
        ({
            let out = with_assessments(list, i, evidence, d)->Ok_0;
            &&& covering(out)
            &&& out.accepted.entities == d.accepted.entities
            &&& out.accepted.outcomes == d.accepted.outcomes
            &&& out.accepted.outcome_order == d.accepted.outcome_order
            &&& out.accepted.relations == d.accepted.relations
            &&& d.ids.contains(id) ==> out.ids.contains(id)
            &&& member(d.accepted.assessments, id) is Some ==> member(out.accepted.assessments, id)
                == member(d.accepted.assessments, id)
            &&& member(out.accepted.assessments, id) is Some && member(
                d.accepted.assessments,
                id,
            ) is None ==> exists|k: int| i <= k < list.len() && #[trigger] list[k]
                == Semantic::Assessment(member(out.accepted.assessments, id)->0) && list[k].id()
                == id
        }),
    decreases list.len() - i,
{
    if i < list.len() {
        match list[i as int] {
            Semantic::Assessment(s) => {
                let next = drafted(d, Semantic::Assessment(s));
                lemma_drafted(d, Semantic::Assessment(s), id);
                lemma_assessments(list, i + 1, evidence, next, id);
                put_then_member(d.accepted.assessments, s.id, s, id);
                assert(covered(d, s.id));
                if id == s.id {
                    assert(list[i as int] == Semantic::Assessment(s));
                }
            },
            _ => {
                lemma_assessments(list, i + 1, evidence, d, id);
            },
        }
    }
}

proof fn lemma_assessment(list: Seq<Semantic>, i: nat, evidence: Evidence, d: Drafted, k: int)
    requires
        with_assessments(list, i, evidence, d) is Ok,
        covering(d),
        i <= k < list.len(),
        list[k] is Assessment,
    ensures
        ({
            let out = with_assessments(list, i, evidence, d)->Ok_0;
            let s = list[k]->Assessment_0;
            &&& member(out.accepted.assessments, s.id) == Some(s)
            &&& !d.ids.contains(s.id)
            &&& grounded(s.source_event_ids, evidence)
            &&& super::evidence::compatible(s.verdict, s.standard)
            &&& super::evidence::is_of_kind(d.accepted, s.claim_id, EntityKind::Claim)
            &&& s.supersedes_assessment_id is Some ==> ({
                let prior = member(out.accepted.assessments, s.supersedes_assessment_id->0);
                &&& prior is Some
                &&& prior->0.claim_id == s.claim_id
                &&& prior->0.scope == s.scope
                &&& s.supersedes_assessment_id->0 != s.id
            })
        }),
    decreases list.len() - i,
{
    let s = list[k]->Assessment_0;
    match list[i as int] {
        Semantic::Assessment(first) => {
            let next = drafted(d, Semantic::Assessment(first));
            lemma_drafted(d, Semantic::Assessment(first), s.id);
            if k == i {
                lemma_assessments(list, i + 1, evidence, next, s.id);
                put_then_member(d.accepted.assessments, s.id, s, s.id);
                if s.supersedes_assessment_id is Some {
                    let prior = s.supersedes_assessment_id->0;
                    assert(covered(d, prior));
                    put_then_member(d.accepted.assessments, s.id, s, prior);
                    lemma_assessments(list, i + 1, evidence, next, prior);
                }
            } else {
                lemma_assessment(list, i + 1, evidence, next, k);
            }
        },
        _ => {
            lemma_assessment(list, i + 1, evidence, d, k);
        },
    }
}

proof fn lemma_ranked(list: Seq<Semantic>, s: Semantic, other: Semantic)
    ensures
        ranked(list, s).contains(other) <==> list.contains(other) || other == s,
        ranked(list, s).len() == list.len() + 1,
    decreases list.len(),
{
    let out = ranked(list, s);
    if list.len() == 0 || !before(s.id(), list.last().id()) {
        assert(out[list.len() as int] == s);
        if list.contains(other) {
            let i = choose|i: int| 0 <= i < list.len() && list[i] == other;
            assert(out[i] == other);
        }
        if out.contains(other) && other != s {
            let i = choose|i: int| 0 <= i < out.len() && out[i] == other;
            assert(list[i] == other);
        }
    } else {
        let shorter = list.drop_last();
        lemma_ranked(shorter, s, other);
        let inner = ranked(shorter, s);
        assert(out[inner.len() as int] == list.last());
        if list.contains(other) {
            let i = choose|i: int| 0 <= i < list.len() && list[i] == other;
            if i < shorter.len() {
                assert(shorter[i] == other);
                let j = choose|j: int| 0 <= j < inner.len() && inner[j] == other;
                assert(out[j] == other);
            }
        }
        if other == s {
            let j = choose|j: int| 0 <= j < inner.len() && inner[j] == other;
            assert(out[j] == other);
        }
        if out.contains(other) {
            let i = choose|i: int| 0 <= i < out.len() && out[i] == other;
            if i < inner.len() {
                assert(inner[i] == other);
                if shorter.contains(other) {
                    let j = choose|j: int| 0 <= j < shorter.len() && shorter[j] == other;
                    assert(list[j] == other);
                }
            } else {
                assert(list[list.len() - 1] == other);
            }
        }
    }
}

pub(crate) proof fn lemma_by_id(list: Seq<Semantic>, n: nat, other: Semantic)
    requires
        n <= list.len(),
    ensures
        by_id(list, n).contains(other) <==> list.take(n as int).contains(other),
        by_id(list, n).len() == n,
    decreases n,
{
    if n > 0 {
        let m = (n - 1) as nat;
        lemma_by_id(list, m, other);
        lemma_ranked(by_id(list, m), list[n - 1], other);
        let shorter = list.take(m as int);
        let all = list.take(n as int);
        assert(all[n - 1] == list[n - 1]);
        if shorter.contains(other) {
            let i = choose|i: int| 0 <= i < shorter.len() && shorter[i] == other;
            assert(all[i] == other);
        }
        if all.contains(other) {
            let i = choose|i: int| 0 <= i < all.len() && all[i] == other;
            if i < m {
                assert(shorter[i] == other);
            }
        }
    }
}

/// What a batch makes of what was accepted, step by step.
pub open spec fn steps(x: Append) -> (Drafted, Drafted, Drafted, Drafted, Drafted) {
    let record = prepared(x)->Ok_0.0;
    let a = accepted_of(record.ledger)->Ok_0;
    let evidence = evidence_of(record, a, x.events);
    let d0 = Drafted { accepted: a, ids: taken_ids(a) };
    let d1 = with_entities(x.batch.entities, 0, evidence, d0)->Ok_0;
    let d2 = with_outcomes(x.batch.outcomes, 0, evidence, Seq::empty(), d1)->Ok_0;
    let d3 = with_relations(x.batch.relations, 0, evidence, d2)->Ok_0;
    let d4 = with_assessments(
        by_id(assessments_of(x.batch.assessments), x.batch.assessments.len()),
        0,
        evidence,
        d3,
    )->Ok_0;
    (d0, d1, d2, d3, d4)
}

proof fn lemma_steps(x: Append, id: Seq<char>)
    requires
        prepared(x) is Ok,
    ensures
        ({
            let (d0, d1, d2, d3, d4) = steps(x);
            let (record, now) = prepared(x)->Ok_0;
            &&& now == d4.accepted
            &&& covering(d0) && covering(d1) && covering(d2) && covering(d3)
            &&& d0.ids.contains(id) ==> d1.ids.contains(id)
            &&& d1.ids.contains(id) ==> d2.ids.contains(id)
            &&& d2.ids.contains(id) ==> d3.ids.contains(id)
            &&& d1.accepted.outcomes == d0.accepted.outcomes
            &&& d1.accepted.outcome_order == d0.accepted.outcome_order
            &&& d1.accepted.entities == now.entities
            &&& d2.accepted.entities == now.entities
            &&& d3.accepted.entities == now.entities
            &&& d2.accepted.outcomes == now.outcomes
            &&& d2.accepted.relations == d0.accepted.relations
            &&& d3.accepted.relations == now.relations
            &&& d3.accepted.assessments == d0.accepted.assessments
        }),
{
    let (d0, d1, d2, d3, d4) = steps(x);
    let record = prepared(x)->Ok_0.0;
    let evidence = evidence_of(record, d0.accepted, x.events);
    lemma_taken(d0.accepted);
    lemma_entities(x.batch.entities, 0, evidence, d0, id);
    lemma_outcomes(x.batch.outcomes, 0, evidence, Seq::empty(), d1, id);
    lemma_relations(x.batch.relations, 0, evidence, d2, id);
    lemma_assessments(
        by_id(assessments_of(x.batch.assessments), x.batch.assessments.len()),
        0,
        evidence,
        d3,
        id,
    );
}

/// Whether sources are of what is known, and one of them is an event that was just observed.
pub open spec fn cited(x: Append, sources: Seq<Seq<char>>) -> bool {
    let record = prepared(x)->Ok_0.0;
    let earlier = accepted_of(record.ledger)->Ok_0;
    &&& exists|i: int, j: int|
        0 <= i < sources.len() && 0 <= j < x.events.len() && #[trigger] sources[i] == (
        #[trigger] x.events[j]).id
    &&& forall|i: int|
        0 <= i < sources.len() ==> named_sources(record).contains(#[trigger] sources[i])
            || accepted_sources(earlier).contains(sources[i]) || exists|j: int|
            0 <= j < x.events.len() && (#[trigger] x.events[j]).id == sources[i]
}

proof fn lemma_cited(x: Append, sources: Seq<Seq<char>>)
    requires
        prepared(x) is Ok,
        ({
            let record = prepared(x)->Ok_0.0;
            grounded(sources, evidence_of(record, accepted_of(record.ledger)->Ok_0, x.events))
        }),
    ensures
        cited(x, sources),
{
    let record = prepared(x)->Ok_0.0;
    let earlier = accepted_of(record.ledger)->Ok_0;
    let evidence = evidence_of(record, earlier, x.events);
    let fresh = ids_of(x.events);
    let i = choose|i: int| 0 <= i < sources.len() && evidence.new_ids.contains(#[trigger] sources[i]);
    let j = choose|j: int| 0 <= j < fresh.len() && fresh[j] == sources[i];
    assert(x.events[j].id == sources[i]);
    assert forall|i: int| 0 <= i < sources.len() implies named_sources(record).contains(
        #[trigger] sources[i],
    ) || accepted_sources(earlier).contains(sources[i]) || exists|j: int|
        0 <= j < x.events.len() && (#[trigger] x.events[j]).id == sources[i] by {
        let known = evidence.known_ids;
        assert(known.contains(sources[i]));
        in_order_keeps_names(named_sources(record), sources[i]);
        in_order_keeps_names(accepted_sources(earlier), sources[i]);
        let j = choose|j: int| 0 <= j < known.len() && known[j] == sources[i];
        let a = in_order(named_sources(record));
        let b = in_order(accepted_sources(earlier));
        if j < a.len() {
            assert(a[j] == sources[i]);
        } else if j < a.len() + b.len() {
            assert(b[j - a.len()] == sources[i]);
        } else {
            assert(fresh[j - a.len() - b.len()] == sources[i]);
            assert(x.events[j - a.len() - b.len()].id == sources[i]);
        }
    }
}

/// An assessment that is accepted stands as it was proposed, under an id that nothing had before.
/// It is of a claim, and cites known evidence of which one event is new. What is said to be
/// proven rests on a formal proof, what is said to be refuted on a counterexample or a formal
/// proof, what is said to be corroborated on a replication. It may take the place of an
/// assessment of the same claim and scope only.
pub proof fn verdicts_rest_on_their_standards(x: Append, k: int)
    requires
        prepared(x) is Ok,
        0 <= k < x.batch.assessments.len(),
    ensures
        ({
            let (record, now) = prepared(x)->Ok_0;
            let earlier = accepted_of(record.ledger)->Ok_0;
            let s = x.batch.assessments[k];
            &&& member(now.assessments, s.id) == Some(s)
            &&& member(earlier.assessments, s.id) is None
            &&& member(earlier.entities, s.id) is None
            &&& member(earlier.outcomes, s.id) is None
            &&& member(earlier.relations, s.id) is None
            &&& s.verdict == AssessmentVerdict::Proven ==> s.standard == "formal_proof"@
            &&& s.verdict == AssessmentVerdict::Refuted ==> s.standard == "counterexample"@
                || s.standard == "formal_proof"@
            &&& s.verdict == AssessmentVerdict::Corroborated ==> s.standard == "replication"@
            &&& s.standard == "formal_proof"@ || s.standard == "counterexample"@ || s.standard
                == "derivation"@ || s.standard == "experiment"@ || s.standard == "replication"@
                || s.standard == "measurement"@ || s.standard == "benchmark"@ || s.standard
                == "simulation"@ || s.standard == "computation"@ || s.standard == "argument"@
                || s.standard == "review"@
            &&& member(now.entities, s.claim_id) is Some
            &&& member(now.entities, s.claim_id)->0.kind == EntityKind::Claim
            &&& cited(x, s.source_event_ids)
            &&& s.supersedes_assessment_id is Some ==> ({
                let prior = member(now.assessments, s.supersedes_assessment_id->0);
                &&& prior is Some
                &&& s.supersedes_assessment_id != Some(s.id)
                &&& prior->0.claim_id == s.claim_id
                &&& prior->0.scope == s.scope
            })
        }),
{
    let (d0, d1, d2, d3, d4) = steps(x);
    let (record, now) = prepared(x)->Ok_0;
    let evidence = evidence_of(record, d0.accepted, x.events);
    let s = x.batch.assessments[k];
    let all = assessments_of(x.batch.assessments);
    let list = by_id(all, x.batch.assessments.len());
    lemma_steps(x, s.id);
    lemma_by_id(all, all.len(), Semantic::Assessment(s));
    assert(all.take(all.len() as int) =~= all);
    assert(all[k] == Semantic::Assessment(s));
    let j = choose|j: int| 0 <= j < list.len() && list[j] == Semantic::Assessment(s);
    lemma_assessment(list, 0, evidence, d3, j);
    assert(covered(d0, s.id));
    lemma_cited(x, s.source_event_ids);
}

/// Whether an assessment rests on evidence that its verdict can rest on.
pub open spec fn well_founded(s: Assessment) -> bool {
    match s.verdict {
        AssessmentVerdict::Proven => s.standard == "formal_proof"@,
        AssessmentVerdict::Refuted => s.standard == "counterexample"@ || s.standard
            == "formal_proof"@,
        AssessmentVerdict::Corroborated => s.standard == "replication"@,
        _ => true,
    }
}

/// A verdict is taken with each of these standards: a proof only with a formal proof, a refutation
/// with a counterexample too, a corroboration with a replication, and a claim that is supported or
/// left open with any. A relation is taken between any two entities whose kinds it can join.
pub proof fn what_is_sound_is_taken(verdict: AssessmentVerdict, r: Relation, a: Accepted)
    requires
        member(a.entities, r.from) is Some,
        member(a.entities, r.to) is Some,
    ensures
        super::evidence::compatible(AssessmentVerdict::Proven, "formal_proof"@),
        super::evidence::compatible(AssessmentVerdict::Refuted, "formal_proof"@),
        super::evidence::compatible(AssessmentVerdict::Refuted, "counterexample"@),
        super::evidence::compatible(AssessmentVerdict::Corroborated, "replication"@),
        verdict == AssessmentVerdict::Supported || verdict == AssessmentVerdict::Inconclusive
            ==> super::evidence::compatible(verdict, "formal_proof"@)
            && super::evidence::compatible(verdict, "counterexample"@)
            && super::evidence::compatible(verdict, "derivation"@)
            && super::evidence::compatible(verdict, "experiment"@)
            && super::evidence::compatible(verdict, "replication"@)
            && super::evidence::compatible(verdict, "measurement"@)
            && super::evidence::compatible(verdict, "benchmark"@)
            && super::evidence::compatible(verdict, "simulation"@)
            && super::evidence::compatible(verdict, "computation"@)
            && super::evidence::compatible(verdict, "argument"@)
            && super::evidence::compatible(verdict, "review"@),
        ({
            let from = member(a.entities, r.from)->0.kind;
            let to = member(a.entities, r.to)->0.kind;
            let taken = endpoints_fault(r, a) is None;
            let evidence = from == EntityKind::Observation || from == EntityKind::Artifact || from
                == EntityKind::Investigation;
            &&& from == EntityKind::Investigation && to == EntityKind::Investigation && (r.kind
                == RelationKind::Repairs || r.kind == RelationKind::PivotsFrom || r.kind
                == RelationKind::ContinuesFrom || r.kind == RelationKind::Decomposes) ==> taken
            &&& from == EntityKind::Investigation && r.kind == RelationKind::Investigates && (to
                == EntityKind::Question || to == EntityKind::Claim) ==> taken
            &&& from == EntityKind::Investigation && r.kind == RelationKind::Produces && (to
                == EntityKind::Observation || to == EntityKind::Artifact || to == EntityKind::Claim)
                ==> taken
            &&& evidence && to == EntityKind::Claim && (r.kind == RelationKind::EvidenceFor || r.kind
                == RelationKind::EvidenceAgainst) ==> taken
            &&& from == EntityKind::Synthesis && to == EntityKind::Question && r.kind
                == RelationKind::Addresses ==> taken
            &&& from == EntityKind::Synthesis && r.kind == RelationKind::Integrates && (to
                == EntityKind::Investigation || to == EntityKind::Claim || to
                == EntityKind::Observation) ==> taken
        }),
{
}

/// In a record that grew from nothing by what was accepted, each assessment that is proven rests
/// on a formal proof, each that is refuted on a counterexample or a formal proof, each that is
/// corroborated on a replication: a first batch leaves only such assessments, and a later one
/// adds only such to those that were there.
pub proof fn every_verdict_rests_on_its_standard(x: Append, id: Seq<char>)
    requires
        prepared(x) is Ok,
        ({
            let earlier = accepted_of(prepared(x)->Ok_0.0.ledger)->Ok_0;
            x.prior is Some && member(earlier.assessments, id) is Some ==> well_founded(
                member(earlier.assessments, id)->0,
            )
        }),
    ensures
        ({
            let now = prepared(x)->Ok_0.1;
            member(now.assessments, id) is Some ==> well_founded(member(now.assessments, id)->0)
        }),
{
    let (record, now) = prepared(x)->Ok_0;
    let earlier = accepted_of(record.ledger)->Ok_0;
    nothing_else_is_accepted(x, id);
    if x.prior is None {
        lemma_new_record(x);
    }
    if member(now.assessments, id) is Some && member(earlier.assessments, id) is None {
        let k = choose|k: int|
            0 <= k < x.batch.assessments.len() && #[trigger] x.batch.assessments[k] == member(
                now.assessments,
                id,
            )->0;
        verdicts_rest_on_their_standards(x, k);
    }
}

proof fn lemma_new_record(x: Append)
    requires
        prepared(x) is Ok,
        x.prior is None,
    ensures
        accepted_of(prepared(x)->Ok_0.0.ledger)->Ok_0 == super::ledger::nothing_accepted(),
{
}

/// What was accepted stays as it was, and what is accepted beside it is what the batch proposes:
/// nothing is left out, changed or made up.
pub proof fn nothing_else_is_accepted(x: Append, id: Seq<char>)
    requires
        prepared(x) is Ok,
    ensures
        ({
            let (record, now) = prepared(x)->Ok_0;
            let earlier = accepted_of(record.ledger)->Ok_0;
            &&& member(earlier.entities, id) is Some ==> member(now.entities, id) == member(
                earlier.entities,
                id,
            )
            &&& member(earlier.outcomes, id) is Some ==> member(now.outcomes, id) == member(
                earlier.outcomes,
                id,
            )
            &&& member(earlier.relations, id) is Some ==> member(now.relations, id) == member(
                earlier.relations,
                id,
            )
            &&& member(earlier.assessments, id) is Some ==> member(now.assessments, id) == member(
                earlier.assessments,
                id,
            )
            &&& member(earlier.entities, id) is None && member(now.entities, id) is Some
                ==> exists|k: int| 0 <= k < x.batch.entities.len() && #[trigger] x.batch.entities[k]
                == member(now.entities, id)->0 && x.batch.entities[k].id == id
            &&& member(earlier.outcomes, id) is None && member(now.outcomes, id) is Some
                ==> exists|k: int| 0 <= k < x.batch.outcomes.len() && #[trigger] x.batch.outcomes[k]
                == member(now.outcomes, id)->0 && x.batch.outcomes[k].id == id
            &&& member(earlier.relations, id) is None && member(now.relations, id) is Some
                ==> exists|k: int|
                0 <= k < x.batch.relations.len() && #[trigger] x.batch.relations[k] == member(
                    now.relations,
                    id,
                )->0 && x.batch.relations[k].id == id
            &&& member(earlier.assessments, id) is None && member(now.assessments, id) is Some
                ==> exists|k: int|
                0 <= k < x.batch.assessments.len() && #[trigger] x.batch.assessments[k] == member(
                    now.assessments,
                    id,
                )->0 && x.batch.assessments[k].id == id
        }),
{
    let (d0, d1, d2, d3, d4) = steps(x);
    let (record, now) = prepared(x)->Ok_0;
    let evidence = evidence_of(record, d0.accepted, x.events);
    lemma_steps(x, id);
    lemma_entities(x.batch.entities, 0, evidence, d0, id);
    lemma_outcomes(x.batch.outcomes, 0, evidence, Seq::empty(), d1, id);
    lemma_relations(x.batch.relations, 0, evidence, d2, id);
    let all = assessments_of(x.batch.assessments);
    let list = by_id(all, x.batch.assessments.len());
    lemma_assessments(list, 0, evidence, d3, id);
    if member(d0.accepted.assessments, id) is None && member(now.assessments, id) is Some {
        let s = Semantic::Assessment(member(now.assessments, id)->0);
        let j = choose|j: int| 0 <= j < list.len() && #[trigger] list[j] == s && list[j].id() == id;
        lemma_by_id(all, all.len(), s);
        assert(list.contains(s));
        assert(all.take(all.len() as int) =~= all);
        let k = choose|k: int| 0 <= k < all.len() && all[k] == s;
        assert(x.batch.assessments[k] == s->Assessment_0);
    }
}

/// An entity that is accepted stands as it was proposed, under an id that nothing had before, and
/// cites known evidence of which one event is new.
pub proof fn entities_stand_as_proposed(x: Append, k: int)
    requires
        prepared(x) is Ok,
        0 <= k < x.batch.entities.len(),
    ensures
        ({
            let (record, now) = prepared(x)->Ok_0;
            let earlier = accepted_of(record.ledger)->Ok_0;
            let e = x.batch.entities[k];
            &&& member(now.entities, e.id) == Some(e)
            &&& member(earlier.entities, e.id) is None
            &&& member(earlier.outcomes, e.id) is None
            &&& member(earlier.relations, e.id) is None
            &&& member(earlier.assessments, e.id) is None
            &&& cited(x, e.source_event_ids)
        }),
{
    let (d0, d1, d2, d3, d4) = steps(x);
    let (record, now) = prepared(x)->Ok_0;
    let evidence = evidence_of(record, d0.accepted, x.events);
    lemma_steps(x, x.batch.entities[k].id);
    lemma_entity(x.batch.entities, 0, evidence, d0, k);
    assert(covered(d0, x.batch.entities[k].id));
    lemma_cited(x, x.batch.entities[k].source_event_ids);
}

/// An outcome that is accepted is of an investigation, and its first source is an event that was
/// just observed. The first outcome of an investigation takes the place of none; each later one
/// takes the place of the one that stood last. No other outcome of that investigation comes in
/// the same batch.
pub proof fn outcomes_follow_one_another(x: Append, k: int)
    requires
        prepared(x) is Ok,
        0 <= k < x.batch.outcomes.len(),
    ensures
        ({
            let (record, now) = prepared(x)->Ok_0;
            let earlier = accepted_of(record.ledger)->Ok_0;
            let o = x.batch.outcomes[k];
            &&& member(now.outcomes, o.id) == Some(o)
            &&& member(earlier.entities, o.id) is None
            &&& member(earlier.outcomes, o.id) is None
            &&& member(earlier.relations, o.id) is None
            &&& member(earlier.assessments, o.id) is None
            &&& member(now.entities, o.investigation_id) is Some
            &&& member(now.entities, o.investigation_id)->0.kind == EntityKind::Investigation
            &&& cited(x, o.source_event_ids)
            &&& exists|j: int|
                0 <= j < x.events.len() && (#[trigger] x.events[j]).id == o.source_event_ids[0]
            &&& o.supersedes_outcome_id is None ==> forall|i: int|
                0 <= i < earlier.outcome_order.len() && member(
                    earlier.outcomes,
                    #[trigger] earlier.outcome_order[i],
                ) is Some ==> member(earlier.outcomes, earlier.outcome_order[i])->0.investigation_id
                    != o.investigation_id
            &&& o.supersedes_outcome_id is Some ==> ({
                let prior = member(earlier.outcomes, o.supersedes_outcome_id->0);
                &&& prior is Some
                &&& prior->0.investigation_id == o.investigation_id
                &&& exists|n: int| #[trigger] last_of(earlier, o, n)
            })
        }),
{
    let (d0, d1, d2, d3, d4) = steps(x);
    let (record, now) = prepared(x)->Ok_0;
    let evidence = evidence_of(record, d0.accepted, x.events);
    let o = x.batch.outcomes[k];
    lemma_steps(x, o.id);
    lemma_outcome(x.batch.outcomes, 0, evidence, Seq::empty(), d1, k);
    assert(covered(d0, o.id));
    lemma_cited(x, o.source_event_ids);
    let fresh = ids_of(x.events);
    let j = choose|j: int| 0 <= j < fresh.len() && fresh[j] == o.source_event_ids[0];
    assert(x.events[j].id == o.source_event_ids[0]);
    lemma_current(d0.accepted, d1.accepted, o, d0.accepted.outcome_order.len());
}

/// Whether the outcome at a position of the order is the one whose place another takes, and no
/// later one is of the same investigation.
pub open spec fn last_of(a: Accepted, o: Outcome, n: int) -> bool {
    &&& 0 <= n < a.outcome_order.len()
    &&& Some(a.outcome_order[n]) == o.supersedes_outcome_id
    &&& forall|i: int|
        n < i < a.outcome_order.len() && member(a.outcomes, #[trigger] a.outcome_order[i]) is Some
            ==> member(a.outcomes, a.outcome_order[i])->0.investigation_id != o.investigation_id
}

proof fn lemma_current(a: Accepted, b: Accepted, o: Outcome, n: nat)
    requires
        a.outcomes == b.outcomes,
        a.outcome_order == b.outcome_order,
        n <= a.outcome_order.len(),
        o.supersedes_outcome_id == current_among(b, o.investigation_id, n),
        forall|i: int|
            n <= i < a.outcome_order.len() && member(
                a.outcomes,
                #[trigger] a.outcome_order[i],
            ) is Some ==> member(a.outcomes, a.outcome_order[i])->0.investigation_id
                != o.investigation_id,
    ensures
        o.supersedes_outcome_id is None ==> forall|i: int|
            0 <= i < a.outcome_order.len() && member(
                a.outcomes,
                #[trigger] a.outcome_order[i],
            ) is Some ==> member(a.outcomes, a.outcome_order[i])->0.investigation_id
                != o.investigation_id,
        o.supersedes_outcome_id is Some ==> ({
            let prior = member(a.outcomes, o.supersedes_outcome_id->0);
            &&& prior is Some
            &&& prior->0.investigation_id == o.investigation_id
            &&& exists|n: int| #[trigger] last_of(a, o, n)
        }),
    decreases n,
{
    if n > 0 {
        let id = b.outcome_order[n - 1];
        if member(b.outcomes, id) is Some && member(b.outcomes, id)->0.investigation_id
            == o.investigation_id {
            assert(last_of(a, o, n - 1));
        } else {
            lemma_current(a, b, o, (n - 1) as nat);
        }
    }
}

/// A relation that is accepted stands as it was proposed and joins two entities that are known:
/// an investigation with what it asks into or brings forth, evidence with a claim, investigations
/// with one another, a synthesis with the question it answers or with what it takes up.
pub proof fn relations_join_what_they_can(x: Append, k: int)
    requires
        prepared(x) is Ok,
        0 <= k < x.batch.relations.len(),
    ensures
        ({
            let (record, now) = prepared(x)->Ok_0;
            let earlier = accepted_of(record.ledger)->Ok_0;
            let r = x.batch.relations[k];
            &&& member(now.relations, r.id) == Some(r)
            &&& member(earlier.entities, r.id) is None
            &&& member(earlier.outcomes, r.id) is None
            &&& member(earlier.relations, r.id) is None
            &&& member(earlier.assessments, r.id) is None
            &&& r.from != r.to
            &&& cited(x, r.source_event_ids)
            &&& member(now.entities, r.from) is Some
            &&& member(now.entities, r.to) is Some
            &&& ({
                let from = member(now.entities, r.from)->0.kind;
                let to = member(now.entities, r.to)->0.kind;
                &&& from == EntityKind::Question || from == EntityKind::Claim ==> false
                &&& r.kind == RelationKind::Investigates ==> from == EntityKind::Investigation && (
                to == EntityKind::Question || to == EntityKind::Claim)
                &&& r.kind == RelationKind::Produces ==> from == EntityKind::Investigation && (to
                    == EntityKind::Observation || to == EntityKind::Artifact || to
                    == EntityKind::Claim)
                &&& r.kind == RelationKind::EvidenceFor || r.kind == RelationKind::EvidenceAgainst
                    ==> to == EntityKind::Claim && from != EntityKind::Synthesis
                &&& r.kind == RelationKind::Repairs || r.kind == RelationKind::PivotsFrom || r.kind
                    == RelationKind::ContinuesFrom || r.kind == RelationKind::Decomposes ==> from
                    == EntityKind::Investigation && to == EntityKind::Investigation
                &&& r.kind == RelationKind::Addresses ==> from == EntityKind::Synthesis && to
                    == EntityKind::Question
                &&& r.kind == RelationKind::Integrates ==> from == EntityKind::Synthesis && (to
                    == EntityKind::Investigation || to == EntityKind::Claim || to
                    == EntityKind::Observation)
            })
        }),
{
    let (d0, d1, d2, d3, d4) = steps(x);
    let (record, now) = prepared(x)->Ok_0;
    let evidence = evidence_of(record, d0.accepted, x.events);
    let r = x.batch.relations[k];
    lemma_steps(x, r.id);
    lemma_relation(x.batch.relations, 0, evidence, d2, k);
    assert(covered(d0, r.id));
    lemma_cited(x, r.source_event_ids);
}

} // verus!
