//! What can be asked of what was accepted.

use super::ledger::{accepting, Accepted, AcceptedRecord};
use super::types::{
    Assessment, EntityKind, InvestigationOutcome, Outcome, Relation, RelationKind,
    ResearchAssessment, ResearchEntity, ResearchOutcome, ResearchRelation, Semantic, Sourced,
};
use super::record::append_texts;
use crate::sdk::{fault, ExtensionError};
use crate::table::{find, holds, in_order, member, put_in_order, put_then_member};
use crate::text::{join3, same};
use vstd::prelude::*;

verus! {

/// Whether an assessment of a claim supersedes another.
pub open spec fn superseded(a: Accepted, claim: Seq<char>, id: Seq<char>) -> bool {
    exists|i: int|
        0 <= i < a.assessments.len() && (#[trigger] a.assessments[i]).1.claim_id == claim
            && a.assessments[i].1.supersedes_assessment_id == Some(id)
}

/// Whether an assessment of a claim is active: it is known, of that claim, and not superseded.
pub open spec fn active_assessment(a: Accepted, claim: Seq<char>, id: Seq<char>) -> bool {
    match member(a.assessments, id) {
        Some(assessment) => !superseded(a, claim, id) && assessment.claim_id == claim,
        None => false,
    }
}

/// The active assessments of a claim among the first `n` that were accepted.
pub open spec fn active_among(a: Accepted, claim: Seq<char>, n: nat) -> Seq<Assessment>
    decreases n,
{
    if n == 0 {
        Seq::empty()
    } else {
        let rest = active_among(a, claim, (n - 1) as nat);
        let id = a.assessment_order[n - 1];
        if active_assessment(a, claim, id) {
            rest.push(member(a.assessments, id)->0)
        } else {
            rest
        }
    }
}

/// The active assessments of a claim, in the order in which they were accepted.
pub open spec fn active_assessments(a: Accepted, claim: Seq<char>) -> Seq<Assessment> {
    active_among(a, claim, a.assessment_order.len())
}

/// The last outcome of an investigation among the first `n` that were accepted.
pub open spec fn latest_among(a: Accepted, investigation: Seq<char>, n: nat) -> Option<Outcome>
    decreases n,
{
    if n == 0 {
        None
    } else {
        match member(a.outcomes, a.outcome_order[n - 1]) {
            Some(outcome) => if outcome.investigation_id == investigation {
                Some(outcome)
            } else {
                latest_among(a, investigation, (n - 1) as nat)
            },
            None => latest_among(a, investigation, (n - 1) as nat),
        }
    }
}

/// The current outcome of an investigation.
pub open spec fn latest_outcome(a: Accepted, investigation: Seq<char>) -> Option<Outcome> {
    latest_among(a, investigation, a.outcome_order.len())
}

/// The event that a new lineage from an investigation rests on: the first source of its current
/// outcome.
pub open spec fn lineage_anchor(a: Accepted, investigation: Seq<char>) -> Option<Seq<char>> {
    match latest_outcome(a, investigation) {
        Some(outcome) => if outcome.source_event_ids.len() > 0 {
            Some(outcome.source_event_ids[0])
        } else {
            None
        },
        None => None,
    }
}

/// Whether an outcome of an investigation starts with one of some sources.
pub open spec fn anchored(outcome: Outcome, investigation: Seq<char>, sources: Seq<Seq<char>>) -> bool {
    outcome.investigation_id == investigation && outcome.source_event_ids.len() > 0
        && sources.contains(outcome.source_event_ids[0])
}

/// The last outcome among the first `n` that is anchored by one of some sources.
pub open spec fn anchored_among(
    a: Accepted,
    investigation: Seq<char>,
    sources: Seq<Seq<char>>,
    n: nat,
) -> Option<Outcome>
    decreases n,
{
    if n == 0 {
        None
    } else {
        match member(a.outcomes, a.outcome_order[n - 1]) {
            Some(outcome) => if anchored(outcome, investigation, sources) {
                Some(outcome)
            } else {
                anchored_among(a, investigation, sources, (n - 1) as nat)
            },
            None => anchored_among(a, investigation, sources, (n - 1) as nat),
        }
    }
}

/// Whether a relation says that an investigation produced something.
pub open spec fn is_product(a: Accepted, relation: Relation, investigation: Seq<char>) -> bool {
    relation.kind == RelationKind::Produces && relation.from == investigation && match member(
        a.entities,
        relation.to,
    ) {
        Some(entity) => entity.kind == EntityKind::Observation || entity.kind
            == EntityKind::Artifact || entity.kind == EntityKind::Claim,
        None => false,
    }
}

/// Whether an investigation produced something.
pub open spec fn productive(a: Accepted, investigation: Seq<char>) -> bool {
    exists|i: int|
        0 <= i < a.relations.len() && is_product(a, (#[trigger] a.relations[i]).1, investigation)
}

/// Whether an investigation may be taken apart into others.
pub open spec fn viable_parent(a: Accepted, id: Seq<char>) -> bool {
    match latest_outcome(a, id) {
        Some(outcome) => outcome.outcome != InvestigationOutcome::Blocked && outcome.outcome
            != InvestigationOutcome::DeadEnd && outcome.outcome != InvestigationOutcome::Abandoned,
        None => true,
    }
}

/// The events that the first `n` rows cite.
pub open spec fn cited_in<T: Sourced>(rows: Seq<(Seq<char>, T::V)>, n: nat) -> Seq<Seq<char>>
    decreases n,
{
    if n == 0 {
        Seq::empty()
    } else {
        cited_in::<T>(rows, (n - 1) as nat) + T::cited(rows[n - 1].1)
    }
}

/// The events that what was accepted cites.
pub open spec fn accepted_sources(a: Accepted) -> Seq<Seq<char>> {
    cited_in::<ResearchEntity>(a.entities, a.entities.len()) + cited_in::<ResearchOutcome>(
        a.outcomes,
        a.outcomes.len(),
    ) + cited_in::<ResearchRelation>(a.relations, a.relations.len())
        + cited_in::<ResearchAssessment>(a.assessments, a.assessments.len())
}

fn list_cited<T: Sourced>(rows: &Vec<(String, T)>) -> (r: Vec<String>)
    ensures
        r.deep_view() == cited_in::<T>(rows.deep_view(), rows@.len()),
{
    let mut out: Vec<String> = Vec::new();
    let mut i: usize = 0;
    assert(out.deep_view() =~= Seq::empty());
    while i < rows.len()
        invariant
            i <= rows@.len(),
            out.deep_view() == cited_in::<T>(rows.deep_view(), i as nat),
        decreases rows@.len() - i,
    {
        assert(rows.deep_view()[i as int].1 == rows@[i as int].1.deep_view());
        append_texts(&mut out, rows[i].1.cited_events());
        i += 1;
    }
    out
}

impl AcceptedRecord {
    pub fn entity(&self, id: &str) -> (r: Result<&ResearchEntity, ExtensionError>)
        ensures
            match member(self.deep_view().entities, id@) {
                Some(entity) => r matches Ok(found) && found.deep_view() == entity,
                None => r matches Err(e) && e is Message && e->Message_0@
                    == "research-record references unknown entity `"@ + id@ + "`"@,
            },
    {
        match find(&self.entities, id) {
            Some(entity) => Ok(entity),
            None => Err(fault(join3("research-record references unknown entity `", id, "`"))),
        }
    }

    /// The events that what was accepted cites, in ascending order.
    pub fn source_event_ids(&self) -> (r: Vec<String>)
        ensures
            r.deep_view() == in_order(accepted_sources(self.deep_view())),
    {
        let mut out = list_cited(&self.entities);
        append_texts(&mut out, &list_cited(&self.outcomes));
        append_texts(&mut out, &list_cited(&self.relations));
        append_texts(&mut out, &list_cited(&self.assessments));
        assert(self.deep_view().entities.len() == self.entities@.len());
        assert(self.deep_view().outcomes.len() == self.outcomes@.len());
        assert(self.deep_view().relations.len() == self.relations@.len());
        assert(self.deep_view().assessments.len() == self.assessments@.len());
        put_in_order(&out)
    }

    fn is_superseded(&self, claim_id: &str, id: &str) -> (r: bool)
        ensures
            r == superseded(self.deep_view(), claim_id@, id@),
    {
        let mut i: usize = 0;
        while i < self.assessments.len()
            invariant
                i <= self.assessments@.len(),
                forall|j: int|
                    0 <= j < i ==> !((#[trigger] self.deep_view().assessments[j]).1.claim_id
                        == claim_id@ && self.deep_view().assessments[j].1.supersedes_assessment_id
                        == Some(id@)),
            decreases self.assessments@.len() - i,
        {
            let other = &self.assessments[i].1;
            assert(self.deep_view().assessments[i as int].1 == other.deep_view());
            if same(&other.claim_id, claim_id) {
                if let Some(named) = &other.supersedes_assessment_id {
                    if same(named, id) {
                        return true;
                    }
                }
            }
            i += 1;
        }
        false
    }

    /// The active assessments of a claim, in the order in which they were accepted.
    pub fn active_assessments_for(&self, claim_id: &str) -> (r: Vec<ResearchAssessment>)
        ensures
            r.deep_view() == active_assessments(self.deep_view(), claim_id@),
    {
        let mut out: Vec<ResearchAssessment> = Vec::new();
        let mut i: usize = 0;
        assert(out.deep_view() =~= Seq::empty());
        while i < self.assessment_order.len()
            invariant
                i <= self.assessment_order@.len(),
                out.deep_view() == active_among(self.deep_view(), claim_id@, i as nat),
            decreases self.assessment_order@.len() - i,
        {
            assert(self.deep_view().assessment_order[i as int] == self.assessment_order@[i as int]@);
            if let Some(assessment) = find(&self.assessments, &self.assessment_order[i]) {
                if same(&assessment.claim_id, claim_id) && !self.is_superseded(
                    claim_id,
                    &self.assessment_order[i],
                ) {
                    let ghost was = out.deep_view();
                    out.push(assessment.clone());
                    assert(out.deep_view() =~= was.push(assessment.deep_view()));
                }
            }
            i += 1;
        }
        assert(self.deep_view().assessment_order.len() == self.assessment_order@.len());
        out
    }

    /// The current outcome of an investigation.
    pub fn latest_outcome_for(&self, investigation_id: &str) -> (r: Option<&ResearchOutcome>)
        ensures
            r.deep_view() == latest_outcome(self.deep_view(), investigation_id@),
    {
        let mut n: usize = self.outcome_order.len();
        assert(self.deep_view().outcome_order.len() == self.outcome_order@.len());
        while n > 0
            invariant
                n <= self.outcome_order@.len(),
                latest_outcome(self.deep_view(), investigation_id@) == latest_among(
                    self.deep_view(),
                    investigation_id@,
                    n as nat,
                ),
            decreases n,
        {
            n -= 1;
            assert(self.deep_view().outcome_order[n as int] == self.outcome_order@[n as int]@);
            if let Some(outcome) = find(&self.outcomes, &self.outcome_order[n]) {
                if same(&outcome.investigation_id, investigation_id) {
                    return Some(outcome);
                }
            }
        }
        None
    }

    /// The event that a new lineage from an investigation rests on.
    pub fn lineage_anchor_for(&self, investigation_id: &str) -> (r: Option<&String>)
        ensures
            r.deep_view() == lineage_anchor(self.deep_view(), investigation_id@),
    {
        match self.latest_outcome_for(investigation_id) {
            Some(outcome) => {
                assert(outcome.deep_view().source_event_ids.len()
                    == outcome.source_event_ids@.len());
                if outcome.source_event_ids.len() > 0 {
                    assert(outcome.deep_view().source_event_ids[0]
                        == outcome.source_event_ids@[0]@);
                    Some(&outcome.source_event_ids[0])
                } else {
                    None
                }
            },
            None => None,
        }
    }

    /// The last outcome of an investigation that is anchored by one of some sources.
    pub fn latest_outcome_anchored_by(
        &self,
        investigation_id: &str,
        source_event_ids: &Vec<String>,
    ) -> (r: Option<&ResearchOutcome>)
        ensures
            r.deep_view() == anchored_among(
                self.deep_view(),
                investigation_id@,
                source_event_ids.deep_view(),
                self.outcome_order@.len(),
            ),
    {
        let mut n: usize = self.outcome_order.len();
        while n > 0
            invariant
                n <= self.outcome_order@.len(),
                anchored_among(
                    self.deep_view(),
                    investigation_id@,
                    source_event_ids.deep_view(),
                    self.outcome_order@.len(),
                ) == anchored_among(
                    self.deep_view(),
                    investigation_id@,
                    source_event_ids.deep_view(),
                    n as nat,
                ),
            decreases n,
        {
            n -= 1;
            assert(self.deep_view().outcome_order[n as int] == self.outcome_order@[n as int]@);
            if let Some(outcome) = find(&self.outcomes, &self.outcome_order[n]) {
                assert(outcome.deep_view().source_event_ids.len()
                    == outcome.source_event_ids@.len());
                if same(&outcome.investigation_id, investigation_id)
                    && outcome.source_event_ids.len() > 0 {
                    assert(outcome.deep_view().source_event_ids[0]
                        == outcome.source_event_ids@[0]@);
                    if holds(source_event_ids, &outcome.source_event_ids[0]) {
                        return Some(outcome);
                    }
                }
            }
        }
        None
    }

    pub fn is_productive_investigation(&self, investigation_id: &str) -> (r: bool)
        ensures
            r == productive(self.deep_view(), investigation_id@),
    {
        let mut i: usize = 0;
        while i < self.relations.len()
            invariant
                i <= self.relations@.len(),
                forall|j: int|
                    0 <= j < i ==> !is_product(
                        self.deep_view(),
                        (#[trigger] self.deep_view().relations[j]).1,
                        investigation_id@,
                    ),
            decreases self.relations@.len() - i,
        {
            let relation = &self.relations[i].1;
            assert(self.deep_view().relations[i as int].1 == relation.deep_view());
            if relation.kind == RelationKind::Produces && same(&relation.from, investigation_id) {
                if let Some(entity) = find(&self.entities, &relation.to) {
                    if entity.kind == EntityKind::Observation || entity.kind
                        == EntityKind::Artifact || entity.kind == EntityKind::Claim {
                        return true;
                    }
                }
            }
            i += 1;
        }
        false
    }

    pub fn viable_decomposition_parent(&self, entity_id: &str) -> (r: bool)
        ensures
            r == viable_parent(self.deep_view(), entity_id@),
    {
        match self.latest_outcome_for(entity_id) {
            Some(outcome) => outcome.outcome != InvestigationOutcome::Blocked && outcome.outcome
                != InvestigationOutcome::DeadEnd && outcome.outcome
                != InvestigationOutcome::Abandoned,
            None => true,
        }
    }
}

/// An active assessment is about the claim that was asked for, and no other assessment of that
/// claim supersedes it.
pub proof fn active_assessments_stand(a: Accepted, claim: Seq<char>, n: nat, k: int)
    requires
        0 <= k < active_among(a, claim, n).len(),
        n <= a.assessment_order.len(),
        forall|i: int|
            0 <= i < a.assessments.len() ==> (#[trigger] a.assessments[i]).1.id
                == a.assessments[i].0,
    ensures
        active_among(a, claim, n)[k].claim_id == claim,
        !superseded(a, claim, active_among(a, claim, n)[k].id),
    decreases n,
{
    let rest = active_among(a, claim, (n - 1) as nat);
    if k < rest.len() {
        active_assessments_stand(a, claim, (n - 1) as nat, k);
    } else {
        crate::table::lemma_found_is_row(a.assessments, a.assessment_order[n - 1]);
    }
}

/// Whether outcome `j` of those accepted is anchored by one of some sources.
pub open spec fn anchored_at(
    a: Accepted,
    investigation: Seq<char>,
    sources: Seq<Seq<char>>,
    j: int,
) -> bool {
    match member(a.outcomes, a.outcome_order[j]) {
        Some(outcome) => anchored(outcome, investigation, sources),
        None => false,
    }
}

/// The anchored outcome is the last one accepted that is anchored; where there is none, no
/// outcome is.
pub proof fn the_anchored_outcome_is_the_last(
    a: Accepted,
    investigation: Seq<char>,
    sources: Seq<Seq<char>>,
    n: nat,
)
    requires
        n <= a.outcome_order.len(),
    ensures
        match anchored_among(a, investigation, sources, n) {
            Some(outcome) => exists|k: int|
                0 <= k < n && #[trigger] anchored_at(a, investigation, sources, k) && member(
                    a.outcomes,
                    a.outcome_order[k],
                ) == Some(outcome) && forall|j: int|
                    k < j < n ==> !#[trigger] anchored_at(a, investigation, sources, j),
            None => forall|j: int|
                0 <= j < n ==> !#[trigger] anchored_at(a, investigation, sources, j),
        },
    decreases n,
{
    if n > 0 {
        if anchored_at(a, investigation, sources, n - 1) {
            assert(forall|j: int|
                n - 1 < j < n ==> !#[trigger] anchored_at(a, investigation, sources, j));
        } else {
            the_anchored_outcome_is_the_last(a, investigation, sources, (n - 1) as nat);
            if let Some(outcome) = anchored_among(a, investigation, sources, n) {
                let k = choose|k: int|
                    0 <= k < n - 1 && #[trigger] anchored_at(a, investigation, sources, k)
                        && member(a.outcomes, a.outcome_order[k]) == Some(outcome) && forall|j: int|
                        k < j < n - 1 ==> !#[trigger] anchored_at(a, investigation, sources, j);
                assert(anchored_at(a, investigation, sources, k));
                assert(forall|j: int|
                    k < j < n ==> !#[trigger] anchored_at(a, investigation, sources, j));
            }
        }
    }
}

proof fn lemma_anchored_among_before(
    a: Accepted,
    later: Outcome,
    investigation: Seq<char>,
    sources: Seq<Seq<char>>,
    n: nat,
)
    requires
        n <= a.outcome_order.len(),
        !a.outcome_order.contains(later.id),
    ensures
        anchored_among(
            accepting(a, Semantic::InvestigationOutcome(later)),
            investigation,
            sources,
            n,
        ) == anchored_among(a, investigation, sources, n),
    decreases n,
{
    if n > 0 {
        let now = accepting(a, Semantic::InvestigationOutcome(later));
        assert(now.outcome_order[n - 1] == a.outcome_order[n - 1]);
        assert(a.outcome_order.contains(a.outcome_order[n - 1]));
        put_then_member(a.outcomes, later.id, later, a.outcome_order[n - 1]);
        lemma_anchored_among_before(a, later, investigation, sources, (n - 1) as nat);
    }
}

/// Old lineage is not rewritten: accepting a later outcome, under an id of its own, that does not
/// start with one of the sources leaves the outcome that they anchor as it was, whatever the
/// later one supersedes.
pub proof fn later_outcomes_leave_the_anchored_one(
    a: Accepted,
    later: Outcome,
    investigation: Seq<char>,
    sources: Seq<Seq<char>>,
)
    requires
        !a.outcome_order.contains(later.id),
        later.source_event_ids.len() == 0 || !sources.contains(later.source_event_ids[0]),
    ensures
        ({
            let now = accepting(a, Semantic::InvestigationOutcome(later));
            anchored_among(now, investigation, sources, now.outcome_order.len())
                == anchored_among(a, investigation, sources, a.outcome_order.len())
        }),
{
    let now = accepting(a, Semantic::InvestigationOutcome(later));
    let n = a.outcome_order.len();
    put_then_member(a.outcomes, later.id, later, later.id);
    assert(now.outcome_order[n as int] == later.id);
    lemma_anchored_among_before(a, later, investigation, sources, n);
}

/// An investigation is productive if and only if some relation says that it produced an
/// observation, an artifact or a claim that was accepted. Where it last ended blocked, at a dead
/// end or abandoned, nothing can be taken apart from it; else it can.
pub proof fn productive_investigations_produced_something(a: Accepted, id: Seq<char>)
    ensures
        productive(a, id) <==> exists|i: int|
            0 <= i < a.relations.len() && (#[trigger] a.relations[i]).1.kind
                == RelationKind::Produces && a.relations[i].1.from == id && member(
                a.entities,
                a.relations[i].1.to,
            ) is Some && (member(a.entities, a.relations[i].1.to)->0.kind
                == EntityKind::Observation || member(a.entities, a.relations[i].1.to)->0.kind
                == EntityKind::Artifact || member(a.entities, a.relations[i].1.to)->0.kind
                == EntityKind::Claim),
        viable_parent(a, id) <==> (latest_outcome(a, id) matches Some(o) ==> o.outcome
            == InvestigationOutcome::Active || o.outcome == InvestigationOutcome::Completed),
        lineage_anchor(a, id) is Some <==> latest_outcome(a, id) is Some && latest_outcome(
            a,
            id,
        )->0.source_event_ids.len() > 0,
        lineage_anchor(a, id) matches Some(anchor) ==> anchor == latest_outcome(
            a,
            id,
        )->0.source_event_ids[0],
{
}

} // verus!
