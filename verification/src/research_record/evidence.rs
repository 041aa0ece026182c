//! What an observer may cite, and what is checked of each proposal.

use super::forms::{
    id_form, sources_form, text_form, valid_id, valid_source_ids, valid_text, MAX_SCOPE_BYTES,
    MAX_STANDARD_BYTES, MAX_SUMMARY_BYTES, MAX_TITLE_BYTES,
};
use super::ledger::{Accepted, AcceptedRecord};
use super::queries::latest_among;
use super::types::{
    Assessment, AssessmentVerdict, Entity, EntityKind, Outcome, Relation, RelationKind,
    ResearchAssessment, ResearchEntity, ResearchOutcome, ResearchRelation,
};
use crate::sdk::{fault, input_error, passes, ExtensionError};
use crate::table::{find, holds, member};
use crate::text::{join3, same};
use vstd::prelude::*;

verus! {

/// The events that an observer may cite: those that are new, and all that are known.
pub struct SourceContext {
    pub new_ids: Vec<String>,
    pub known_ids: Vec<String>,
}

/// What a [`SourceContext`] holds.
#[verifier::ext_equal]
pub struct Evidence {
    pub new_ids: Seq<Seq<char>>,
    pub known_ids: Seq<Seq<char>>,
}

impl DeepView for SourceContext {
    type V = Evidence;

    open spec fn deep_view(&self) -> Evidence {
        Evidence { new_ids: self.new_ids.deep_view(), known_ids: self.known_ids.deep_view() }
    }
}

/// Whether sources are in order, all known, and one of them is new.
pub open spec fn grounded(sources: Seq<Seq<char>>, evidence: Evidence) -> bool {
    &&& sources_form(sources)
    &&& forall|i: int|
        0 <= i < sources.len() ==> evidence.known_ids.contains(#[trigger] sources[i])
    &&& exists|i: int| 0 <= i < sources.len() && evidence.new_ids.contains(#[trigger] sources[i])
}

/// What is wrong with the sources of something.
pub open spec fn sources_fault(
    sources: Seq<Seq<char>>,
    owner: Seq<char>,
    evidence: Evidence,
) -> Option<Seq<char>> {
    if grounded(sources, evidence) {
        None
    } else {
        Some(
            "research observer "@ + owner
                + " must cite known evidence and at least one newly observed event"@,
        )
    }
}

impl SourceContext {
    fn is_grounded(&self, sources: &Vec<String>) -> (r: bool)
        ensures
            r == grounded(sources.deep_view(), self.deep_view()),
    {
        if !valid_source_ids(sources) {
            return false;
        }
        let mut some_new = false;
        let mut i: usize = 0;
        while i < sources.len()
            invariant
                i <= sources@.len(),
                sources_form(sources.deep_view()),
                forall|j: int|
                    0 <= j < i ==> self.deep_view().known_ids.contains(
                        #[trigger] sources.deep_view()[j],
                    ),
                some_new == exists|j: int|
                    0 <= j < i && self.deep_view().new_ids.contains(
                        #[trigger] sources.deep_view()[j],
                    ),
            decreases sources@.len() - i,
        {
            assert(sources.deep_view()[i as int] == sources@[i as int]@);
            if !holds(&self.known_ids, &sources[i]) {
                return false;
            }
            if holds(&self.new_ids, &sources[i]) {
                some_new = true;
            }
            i += 1;
        }
        some_new
    }

    pub fn validate(&self, sources: &Vec<String>, owner: &str) -> (r: Result<(), ExtensionError>)
        ensures
            passes(r, sources_fault(sources.deep_view(), owner@, self.deep_view())),
    {
        if self.is_grounded(sources) {
            return Ok(());
        }
        Err(
            fault(
                join3(
                    "research observer ",
                    owner,
                    " must cite known evidence and at least one newly observed event",
                ),
            ),
        )
    }

    pub fn is_new(&self, source_event_id: &str) -> (r: bool)
        ensures
            r == self.deep_view().new_ids.contains(source_event_id@),
    {
        holds(&self.new_ids, source_event_id)
    }
}

/// What is wrong with an entity.
pub open spec fn entity_fault(e: Entity, evidence: Evidence) -> Option<Seq<char>> {
    if !id_form(e.id) || !text_form(e.title, MAX_TITLE_BYTES as nat) || !text_form(
        e.summary,
        MAX_SUMMARY_BYTES as nat,
    ) {
        Some("research observer entity has invalid text or id"@)
    } else {
        sources_fault(e.source_event_ids, "entity"@, evidence)
    }
}

pub fn validate_entity(e: &ResearchEntity, sources: &SourceContext) -> (r: Result<
    (),
    ExtensionError,
>)
    ensures
        passes(r, entity_fault(e.deep_view(), sources.deep_view())),
{
    if !valid_id(&e.id) || !valid_text(&e.title, MAX_TITLE_BYTES) || !valid_text(
        &e.summary,
        MAX_SUMMARY_BYTES,
    ) {
        return Err(input_error("research observer entity has invalid text or id"));
    }
    sources.validate(&e.source_event_ids, "entity")
}

/// Whether an entity of a kind is known.
pub open spec fn is_of_kind(a: Accepted, id: Seq<char>, kind: EntityKind) -> bool {
    match member(a.entities, id) {
        Some(entity) => entity.kind == kind,
        None => false,
    }
}

fn has_kind(a: &AcceptedRecord, id: &str, kind: EntityKind) -> (r: bool)
    ensures
        r == is_of_kind(a.deep_view(), id@, kind),
{
    match find(&a.entities, id) {
        Some(entity) => entity.kind == kind,
        None => false,
    }
}

/// The id of the current outcome of an investigation among the first `n` that were accepted.
pub open spec fn current_among(a: Accepted, investigation: Seq<char>, n: nat) -> Option<Seq<char>>
    decreases n,
{
    if n == 0 {
        None
    } else {
        let id = a.outcome_order[n - 1];
        match member(a.outcomes, id) {
            Some(outcome) => if outcome.investigation_id == investigation {
                Some(id)
            } else {
                current_among(a, investigation, (n - 1) as nat)
            },
            None => current_among(a, investigation, (n - 1) as nat),
        }
    }
}

/// What is wrong with what an outcome supersedes.
pub open spec fn succession_fault(
    current: Option<Seq<char>>,
    superseded: Option<Seq<char>>,
) -> Option<Seq<char>> {
    match (current, superseded) {
        (None, None) => None,
        (None, Some(_)) => Some("first investigation outcome must not supersede another outcome"@),
        (Some(_), None) => Some("later investigation outcome must supersede the current outcome"@),
        (Some(current), Some(superseded)) => if current == superseded {
            None
        } else {
            Some("investigation outcome must supersede the current outcome for its target"@)
        },
    }
}

/// What is wrong with an outcome.
pub open spec fn outcome_fault(o: Outcome, evidence: Evidence, a: Accepted) -> Option<Seq<char>> {
    if !id_form(o.id) || !id_form(o.investigation_id) || !text_form(
        o.summary,
        MAX_SUMMARY_BYTES as nat,
    ) {
        Some("research investigation outcome has invalid fields"@)
    } else if !is_of_kind(a, o.investigation_id, EntityKind::Investigation) {
        Some("research investigation outcome must target an existing investigation"@)
    } else {
        match sources_fault(o.source_event_ids, "investigation outcome"@, evidence) {
            Some(e) => Some(e),
            None => if !(o.source_event_ids.len() > 0 && evidence.new_ids.contains(
                o.source_event_ids[0],
            )) {
                Some(
                    "research investigation outcome must use a newly observed event as its first lineage anchor"@,
                )
            } else {
                succession_fault(
                    current_among(a, o.investigation_id, a.outcome_order.len()),
                    o.supersedes_outcome_id,
                )
            },
        }
    }
}

fn current_outcome<'a>(a: &'a AcceptedRecord, investigation: &str) -> (r: Option<&'a String>)
    ensures
        r.deep_view() == current_among(
            a.deep_view(),
            investigation@,
            a.outcome_order@.len(),
        ),
{
    let mut n: usize = a.outcome_order.len();
    while n > 0
        invariant
            n <= a.outcome_order@.len(),
            current_among(a.deep_view(), investigation@, a.outcome_order@.len())
                == current_among(a.deep_view(), investigation@, n as nat),
        decreases n,
    {
        n -= 1;
        assert(a.deep_view().outcome_order[n as int] == a.outcome_order@[n as int]@);
        if let Some(outcome) = find(&a.outcomes, &a.outcome_order[n]) {
            if same(&outcome.investigation_id, investigation) {
                return Some(&a.outcome_order[n]);
            }
        }
    }
    None
}

pub fn validate_outcome(o: &ResearchOutcome, sources: &SourceContext, a: &AcceptedRecord) -> (r:
    Result<(), ExtensionError>)
    ensures
        passes(r, outcome_fault(o.deep_view(), sources.deep_view(), a.deep_view())),
{
    if !valid_id(&o.id) || !valid_id(&o.investigation_id) || !valid_text(
        &o.summary,
        MAX_SUMMARY_BYTES,
    ) {
        return Err(input_error("research investigation outcome has invalid fields"));
    }
    if !has_kind(a, &o.investigation_id, EntityKind::Investigation) {
        return Err(
            input_error("research investigation outcome must target an existing investigation"),
        );
    }
    sources.validate(&o.source_event_ids, "investigation outcome")?;
    assert(o.deep_view().source_event_ids.len() == o.source_event_ids@.len());
    assert(o.source_event_ids@.len() > 0 ==> o.deep_view().source_event_ids[0]
        == o.source_event_ids@[0]@);
    if o.source_event_ids.len() == 0 || !sources.is_new(&o.source_event_ids[0]) {
        return Err(
            input_error(
                "research investigation outcome must use a newly observed event as its first lineage anchor",
            ),
        );
    }
    assert(a.deep_view().outcome_order.len() == a.outcome_order@.len());
    match (current_outcome(a, &o.investigation_id), &o.supersedes_outcome_id) {
        (None, None) => Ok(()),
        (None, Some(_)) => Err(
            input_error("first investigation outcome must not supersede another outcome"),
        ),
        (Some(_), None) => Err(
            input_error("later investigation outcome must supersede the current outcome"),
        ),
        (Some(current), Some(superseded)) => {
            if same(current, superseded) {
                Ok(())
            } else {
                Err(
                    input_error(
                        "investigation outcome must supersede the current outcome for its target",
                    ),
                )
            }
        },
    }
}

/// What is wrong with the shape of a relation.
pub open spec fn relation_shape_fault(r: Relation, evidence: Evidence) -> Option<Seq<char>> {
    if !id_form(r.id) || !id_form(r.from) || !id_form(r.to) || r.from == r.to || !text_form(
        r.summary,
        MAX_SUMMARY_BYTES as nat,
    ) {
        Some("research observer relation has invalid fields"@)
    } else {
        sources_fault(r.source_event_ids, "relation"@, evidence)
    }
}

pub fn validate_relation_shape(r: &ResearchRelation, sources: &SourceContext) -> (x: Result<
    (),
    ExtensionError,
>)
    ensures
        passes(x, relation_shape_fault(r.deep_view(), sources.deep_view())),
{
    if !valid_id(&r.id) || !valid_id(&r.from) || !valid_id(&r.to) || same(&r.from, &r.to)
        || !valid_text(&r.summary, MAX_SUMMARY_BYTES) {
        return Err(input_error("research observer relation has invalid fields"));
    }
    sources.validate(&r.source_event_ids, "relation")
}

/// Whether a relation of a kind can lead from an entity of one kind to one of another.
pub open spec fn relates(kind: RelationKind, from: EntityKind, to: EntityKind) -> bool {
    match kind {
        RelationKind::Investigates => from == EntityKind::Investigation && (to
            == EntityKind::Question || to == EntityKind::Claim),
        RelationKind::Produces => from == EntityKind::Investigation && (to
            == EntityKind::Observation || to == EntityKind::Artifact || to == EntityKind::Claim),
        RelationKind::EvidenceFor | RelationKind::EvidenceAgainst => (from
            == EntityKind::Observation || from == EntityKind::Artifact || from
            == EntityKind::Investigation) && to == EntityKind::Claim,
        RelationKind::Repairs | RelationKind::PivotsFrom | RelationKind::ContinuesFrom
        | RelationKind::Decomposes => from == EntityKind::Investigation && to
            == EntityKind::Investigation,
        RelationKind::Addresses => from == EntityKind::Synthesis && to == EntityKind::Question,
        RelationKind::Integrates => from == EntityKind::Synthesis && (to
            == EntityKind::Investigation || to == EntityKind::Claim || to
            == EntityKind::Observation),
    }
}

fn can_relate(kind: RelationKind, from: EntityKind, to: EntityKind) -> (r: bool)
    ensures
        r == relates(kind, from, to),
{
    match kind {
        RelationKind::Investigates => from == EntityKind::Investigation && (to
            == EntityKind::Question || to == EntityKind::Claim),
        RelationKind::Produces => from == EntityKind::Investigation && (to
            == EntityKind::Observation || to == EntityKind::Artifact || to == EntityKind::Claim),
        RelationKind::EvidenceFor | RelationKind::EvidenceAgainst => (from
            == EntityKind::Observation || from == EntityKind::Artifact || from
            == EntityKind::Investigation) && to == EntityKind::Claim,
        RelationKind::Repairs | RelationKind::PivotsFrom | RelationKind::ContinuesFrom
        | RelationKind::Decomposes => from == EntityKind::Investigation && to
            == EntityKind::Investigation,
        RelationKind::Addresses => from == EntityKind::Synthesis && to == EntityKind::Question,
        RelationKind::Integrates => from == EntityKind::Synthesis && (to
            == EntityKind::Investigation || to == EntityKind::Claim || to
            == EntityKind::Observation),
    }
}

/// What is wrong with the ends of a relation.
pub open spec fn endpoints_fault(r: Relation, a: Accepted) -> Option<Seq<char>> {
    match (member(a.entities, r.from), member(a.entities, r.to)) {
        (None, _) => Some("research relation has unknown source `"@ + r.from + "`"@),
        (_, None) => Some("research relation has unknown target `"@ + r.to + "`"@),
        (Some(from), Some(to)) => if relates(r.kind, from.kind, to.kind) {
            None
        } else {
            Some("research relation `"@ + r.id + "` has incompatible endpoint kinds"@)
        },
    }
}

pub fn validate_relation_endpoints(r: &ResearchRelation, a: &AcceptedRecord) -> (x: Result<
    (),
    ExtensionError,
>)
    ensures
        passes(x, endpoints_fault(r.deep_view(), a.deep_view())),
{
    let from = match find(&a.entities, &r.from) {
        Some(from) => from.kind,
        None => {
            return Err(fault(join3("research relation has unknown source `", &r.from, "`")));
        },
    };
    let to = match find(&a.entities, &r.to) {
        Some(to) => to.kind,
        None => {
            return Err(fault(join3("research relation has unknown target `", &r.to, "`")));
        },
    };
    if !can_relate(r.kind, from, to) {
        return Err(
            fault(join3("research relation `", &r.id, "` has incompatible endpoint kinds")),
        );
    }
    Ok(())
}

/// Whether a standard of evidence is known.
pub open spec fn known_standard(standard: Seq<char>) -> bool {
    standard == "formal_proof"@ || standard == "counterexample"@ || standard == "derivation"@
        || standard == "experiment"@ || standard == "replication"@ || standard == "measurement"@
        || standard == "benchmark"@ || standard == "simulation"@ || standard == "computation"@
        || standard == "argument"@ || standard == "review"@
}

/// Whether a verdict can rest on a standard of evidence.
pub open spec fn compatible(verdict: AssessmentVerdict, standard: Seq<char>) -> bool {
    match verdict {
        AssessmentVerdict::Proven => standard == "formal_proof"@,
        AssessmentVerdict::Refuted => standard == "counterexample"@ || standard
            == "formal_proof"@,
        AssessmentVerdict::Corroborated => standard == "replication"@,
        AssessmentVerdict::Supported | AssessmentVerdict::Inconclusive => known_standard(standard),
    }
}

fn is_compatible(verdict: AssessmentVerdict, standard: &str) -> (r: bool)
    ensures
        r == compatible(verdict, standard@),
{
    match verdict {
        AssessmentVerdict::Proven => same(standard, "formal_proof"),
        AssessmentVerdict::Refuted => same(standard, "counterexample") || same(
            standard,
            "formal_proof",
        ),
        AssessmentVerdict::Corroborated => same(standard, "replication"),
        AssessmentVerdict::Supported | AssessmentVerdict::Inconclusive => {
            same(standard, "formal_proof") || same(standard, "counterexample") || same(
                standard,
                "derivation",
            ) || same(standard, "experiment") || same(standard, "replication") || same(
                standard,
                "measurement",
            ) || same(standard, "benchmark") || same(standard, "simulation") || same(
                standard,
                "computation",
            ) || same(standard, "argument") || same(standard, "review")
        },
    }
}

/// What is wrong with the fields of an assessment.
pub open spec fn assessment_fields_fault(a: Assessment) -> Option<Seq<char>> {
    if !id_form(a.id) || !id_form(a.claim_id) || !text_form(a.scope, MAX_SCOPE_BYTES as nat)
        || !text_form(a.standard, MAX_STANDARD_BYTES as nat) || !text_form(
        a.summary,
        MAX_SUMMARY_BYTES as nat,
    ) || (a.supersedes_assessment_id is Some && !id_form(a.supersedes_assessment_id->0))
        || !sources_form(a.source_event_ids) {
        Some("research assessment has invalid fields"@)
    } else if compatible(a.verdict, a.standard) {
        None
    } else {
        Some("research assessment verdict is incompatible with its evidence standard"@)
    }
}

pub fn validate_assessment_fields(a: &ResearchAssessment) -> (r: Result<(), ExtensionError>)
    ensures
        passes(r, assessment_fields_fault(a.deep_view())),
{
    let supersedes = match &a.supersedes_assessment_id {
        Some(id) => valid_id(id),
        None => true,
    };
    if !valid_id(&a.id) || !valid_id(&a.claim_id) || !valid_text(&a.scope, MAX_SCOPE_BYTES)
        || !valid_text(&a.standard, MAX_STANDARD_BYTES) || !valid_text(
        &a.summary,
        MAX_SUMMARY_BYTES,
    ) || !supersedes || !valid_source_ids(&a.source_event_ids) {
        return Err(input_error("research assessment has invalid fields"));
    }
    if is_compatible(a.verdict, &a.standard) {
        Ok(())
    } else {
        Err(
            input_error("research assessment verdict is incompatible with its evidence standard"),
        )
    }
}

/// What is wrong with an assessment.
pub open spec fn assessment_fault(s: Assessment, evidence: Evidence, a: Accepted) -> Option<
    Seq<char>,
> {
    match assessment_fields_fault(s) {
        Some(e) => Some(e),
        None => if !is_of_kind(a, s.claim_id, EntityKind::Claim) {
            Some("research assessment must target an existing claim"@)
        } else {
            sources_fault(s.source_event_ids, "assessment"@, evidence)
        },
    }
}

pub fn validate_assessment(
    s: &ResearchAssessment,
    sources: &SourceContext,
    a: &AcceptedRecord,
) -> (r: Result<(), ExtensionError>)
    ensures
        passes(r, assessment_fault(s.deep_view(), sources.deep_view(), a.deep_view())),
{
    validate_assessment_fields(s)?;
    if !has_kind(a, &s.claim_id, EntityKind::Claim) {
        return Err(input_error("research assessment must target an existing claim"));
    }
    sources.validate(&s.source_event_ids, "assessment")
}

/// Whether some assessment supersedes another.
pub open spec fn is_superseded(a: Accepted, id: Seq<char>) -> bool {
    exists|i: int|
        0 <= i < a.assessments.len() && (#[trigger] a.assessments[i]).1.supersedes_assessment_id
            == Some(id)
}

/// What is wrong with what an assessment supersedes.
pub open spec fn supersession_fault(s: Assessment, a: Accepted) -> Option<Seq<char>> {
    match s.supersedes_assessment_id {
        None => None,
        Some(id) => match member(a.assessments, id) {
            None => Some(
                "research assessment supersession must name an earlier accepted assessment"@,
            ),
            Some(prior) => if prior.claim_id != s.claim_id || prior.scope != s.scope {
                Some("research assessment supersession must preserve claim and exact scope"@)
            } else if is_superseded(a, id) {
                Some("research assessment supersession must name an active assessment"@)
            } else {
                None
            },
        },
    }
}

fn has_successor(a: &AcceptedRecord, id: &str) -> (r: bool)
    ensures
        r == is_superseded(a.deep_view(), id@),
{
    let mut i: usize = 0;
    while i < a.assessments.len()
        invariant
            i <= a.assessments@.len(),
            forall|j: int|
                0 <= j < i ==> (#[trigger] a.deep_view().assessments[j]).1.supersedes_assessment_id
                    != Some(id@),
        decreases a.assessments@.len() - i,
    {
        let other = &a.assessments[i].1;
        assert(a.deep_view().assessments[i as int].1 == other.deep_view());
        if let Some(named) = &other.supersedes_assessment_id {
            if same(named, id) {
                return true;
            }
        }
        i += 1;
    }
    false
}

pub fn validate_assessment_supersession(s: &ResearchAssessment, a: &AcceptedRecord) -> (r: Result<
    (),
    ExtensionError,
>)
    ensures
        passes(r, supersession_fault(s.deep_view(), a.deep_view())),
{
    let id = match &s.supersedes_assessment_id {
        None => return Ok(()),
        Some(id) => id,
    };
    let prior = match find(&a.assessments, id) {
        None => {
            return Err(
                input_error(
                    "research assessment supersession must name an earlier accepted assessment",
                ),
            );
        },
        Some(prior) => prior,
    };
    if !same(&prior.claim_id, &s.claim_id) || !same(&prior.scope, &s.scope) {
        return Err(
            input_error("research assessment supersession must preserve claim and exact scope"),
        );
    }
    if has_successor(a, id) {
        return Err(
            input_error("research assessment supersession must name an active assessment"),
        );
    }
    Ok(())
}

/// The current outcome by its id is the latest outcome.
pub proof fn current_is_latest(a: Accepted, investigation: Seq<char>, n: nat)
    requires
        n <= a.outcome_order.len(),
    ensures
        match current_among(a, investigation, n) {
            Some(id) => latest_among(a, investigation, n) == member(a.outcomes, id),
            None => latest_among(a, investigation, n) is None,
        },
    decreases n,
{
    if n > 0 {
        current_is_latest(a, investigation, (n - 1) as nat);
    }
}

} // verus!
