//! Appending what an observer proposed to a record.

use super::evidence::{
    assessment_fault, endpoints_fault, entity_fault, outcome_fault, relation_shape_fault,
    supersession_fault, validate_assessment, validate_assessment_supersession, validate_entity,
    validate_outcome, validate_relation_endpoints, validate_relation_shape, Evidence,
    SourceContext,
};
use super::forms::{event_id_form, id_form, valid_event_id, valid_id};
use super::ledger::{accepted_of, Accepted, AcceptedRecord, AUTO_ACCEPT_POLICY};
use super::queries::accepted_sources;
use super::record::{
    append_texts, episode_sources, list_episode_sources, named_sources, new_record, record_text,
    shape_fault, sound_record,
};
use super::types::{
    Assessment, Batch, DecisionOutcome, Entity, Entry, Episode, EpisodeCaptureClass, Happening,
    LedgerEntry, ObserverProposalBatch, Outcome, Provenance, Record, RecordConstruction,
    RecordOperation, Relation, ResearchAssessment, ResearchEntity, ResearchOutcome,
    ResearchRecord, ResearchRelation, Semantic, SemanticRecord, Session,
};
use crate::digest::{sha256, sha256_hex};
use crate::event::{Event, EventEnvelope, EventKind};
use crate::schema::RESEARCH_PROPOSALS_SCHEMA;
use crate::sdk::{answers, fault, input_error, passes, ExtensionError};
use crate::table::{copy_texts, holds, in_order, put_in_order};
use crate::text::{before, join2, join3, precedes, same};
use crate::update::{event_ids, ids_of};
use vstd::prelude::*;
use vstd::utf8::encode_utf8;

verus! {

/// What is appended, and to what.
pub struct AppendInput {
    pub prior: Option<ResearchRecord>,
    pub predecessor_record_artifact_event_id: Option<String>,
    pub events: Vec<EventEnvelope>,
    pub batch: ObserverProposalBatch,
    pub watermark_event_id: String,
    pub generated_at: String,
    pub session_id: Option<String>,
    pub observer_result_event_id: Option<String>,
}

/// What an [`AppendInput`] holds.
#[verifier::ext_equal]
pub struct Append {
    pub prior: Option<Record>,
    pub predecessor: Option<Seq<char>>,
    pub events: Seq<Event>,
    pub batch: Batch,
    pub watermark: Seq<char>,
    pub generated_at: Seq<char>,
    pub session: Option<Seq<char>>,
    pub observer_result: Option<Seq<char>>,
}

impl DeepView for AppendInput {
    type V = Append;

    open spec fn deep_view(&self) -> Append {
        Append {
            prior: self.prior.deep_view(),
            predecessor: self.predecessor_record_artifact_event_id.deep_view(),
            events: self.events.deep_view(),
            batch: self.batch.deep_view(),
            watermark: self.watermark_event_id@,
            generated_at: self.generated_at@,
            session: self.session_id.deep_view(),
            observer_result: self.observer_result_event_id.deep_view(),
        }
    }
}

/// What is wrong with the header of what is proposed.
pub open spec fn batch_header_fault(b: Batch, reconciles: bool) -> Option<Seq<char>> {
    if b.schema != RESEARCH_PROPOSALS_SCHEMA@ {
        Some("research observer output must use `euler.research_record.proposals.v1`"@)
    } else if !reconciles && b.entities.len() == 0 && b.outcomes.len() == 0 && b.relations.len()
        == 0 && b.assessments.len() == 0 {
        Some("initial research-record capture requires at least one proposal"@)
    } else {
        None
    }
}

fn validate_batch_header(b: &ObserverProposalBatch, reconciles: bool) -> (r: Result<
    (),
    ExtensionError,
>)
    ensures
        passes(r, batch_header_fault(b.deep_view(), reconciles)),
{
    if !same(&b.schema, RESEARCH_PROPOSALS_SCHEMA) {
        return Err(
            input_error(
                "research observer output must use `euler.research_record.proposals.v1`",
            ),
        );
    }
    assert(b.deep_view().entities.len() == b.entities@.len());
    assert(b.deep_view().outcomes.len() == b.outcomes@.len());
    assert(b.deep_view().relations.len() == b.relations@.len());
    assert(b.deep_view().assessments.len() == b.assessments@.len());
    if !reconciles && b.entities.len() == 0 && b.outcomes.len() == 0 && b.relations.len() == 0
        && b.assessments.len() == 0 {
        return Err(
            input_error("initial research-record capture requires at least one proposal"),
        );
    }
    Ok(())
}

/// The record that is appended to.
pub open spec fn base_record(x: Append) -> Result<Record, Seq<char>> {
    if x.events.len() == 0 {
        Err("research-record apply requires source events"@)
    } else {
        let session = x.events[0].session;
        if !crate::projection::forest::one_session(x.events, session) {
            Err("research-record apply requires one session"@)
        } else if x.session is Some && x.session != Some(session) {
            Err("session_id does not match the research-record event window"@)
        } else if x.watermark != x.events[x.events.len() - 1].id {
            Err("research-record apply watermark does not end the source window"@)
        } else {
            match x.prior {
                Some(prior) => if prior.session.id != session {
                    Err("research-record state belongs to another session"@)
                } else if !(x.predecessor is Some && event_id_form(x.predecessor->0)) {
                    Err("research-record reconcile requires its predecessor artifact event id"@)
                } else {
                    Ok(prior)
                },
                None => if x.predecessor is Some {
                    Err("initial research-record capture must not name a predecessor artifact"@)
                } else {
                    Ok(new_record(session, x.watermark, x.generated_at))
                },
            }
        }
    }
}

fn of_one_session(events: &Vec<EventEnvelope>, session: &str) -> (r: bool)
    ensures
        r == crate::projection::forest::one_session(events.deep_view(), session@),
{
    let mut i: usize = 0;
    while i < events.len()
        invariant
            i <= events@.len(),
            forall|j: int| 0 <= j < i ==> (#[trigger] events.deep_view()[j]).session == session@,
        decreases events@.len() - i,
    {
        assert(events.deep_view()[i as int].session == events@[i as int].session@);
        if !same(&events[i].session, session) {
            return false;
        }
        i += 1;
    }
    true
}

fn record_for_append(x: &AppendInput) -> (r: Result<ResearchRecord, ExtensionError>)
    ensures
        answers(r, base_record(x.deep_view())),
{
    assert(x.deep_view().events.len() == x.events@.len());
    if x.events.len() == 0 {
        return Err(input_error("research-record apply requires source events"));
    }
    let last: usize = x.events.len() - 1;
    assert(x.deep_view().events[0] == x.events@[0]@);
    assert(x.deep_view().events[last as int] == x.events@[last as int]@);
    let session = &x.events[0].session;
    if !of_one_session(&x.events, session) {
        return Err(input_error("research-record apply requires one session"));
    }
    if let Some(named) = &x.session_id {
        if !same(named, session) {
            return Err(
                input_error("session_id does not match the research-record event window"),
            );
        }
    }
    if !same(&x.watermark_event_id, &x.events[last].id) {
        return Err(
            input_error("research-record apply watermark does not end the source window"),
        );
    }
    match &x.prior {
        Some(prior) => {
            if !same(&prior.session.id, session) {
                return Err(input_error("research-record state belongs to another session"));
            }
            let named = match &x.predecessor_record_artifact_event_id {
                Some(id) => valid_event_id(id),
                None => false,
            };
            if !named {
                return Err(
                    input_error(
                        "research-record reconcile requires its predecessor artifact event id",
                    ),
                );
            }
            Ok(prior.clone())
        },
        None => {
            if x.predecessor_record_artifact_event_id.is_some() {
                return Err(
                    input_error(
                        "initial research-record capture must not name a predecessor artifact",
                    ),
                );
            }
            Ok(ResearchRecord::new(session, &x.watermark_event_id, &x.generated_at))
        },
    }
}

/// What may be cited: the sources of the record and of what it accepted, and the new events.
pub open spec fn evidence_of(r: Record, a: Accepted, events: Seq<Event>) -> Evidence {
    Evidence {
        new_ids: ids_of(events),
        known_ids: in_order(named_sources(r)) + in_order(accepted_sources(a)) + ids_of(events),
    }
}

impl SourceContext {
    pub fn new(
        record: &ResearchRecord,
        accepted: &AcceptedRecord,
        events: &Vec<EventEnvelope>,
    ) -> (r: Self)
        ensures
            r.deep_view() == evidence_of(
                record.deep_view(),
                accepted.deep_view(),
                events.deep_view(),
            ),
    {
        let new_ids = event_ids(events);
        let mut known_ids = record.source_event_ids();
        append_texts(&mut known_ids, &accepted.source_event_ids());
        append_texts(&mut known_ids, &new_ids);
        SourceContext { new_ids, known_ids }
    }
}

/// What is accepted so far, with the ids that are taken.
pub struct Draft {
    pub accepted: AcceptedRecord,
    pub ids: Vec<String>,
}

/// What a [`Draft`] holds.
#[verifier::ext_equal]
pub struct Drafted {
    pub accepted: Accepted,
    pub ids: Seq<Seq<char>>,
}

impl DeepView for Draft {
    type V = Drafted;

    open spec fn deep_view(&self) -> Drafted {
        Drafted { accepted: self.accepted.deep_view(), ids: self.ids.deep_view() }
    }
}

/// What is said of an id that is taken.
pub open spec fn reused(id: Seq<char>) -> Seq<char> {
    "research observer reuses semantic id `"@ + id + "`"@
}

fn reused_error(id: &str) -> (r: ExtensionError)
    ensures
        r is Message,
        r->Message_0@ == reused(id@),
{
    fault(join3("research observer reuses semantic id `", id, "`"))
}

/// A draft with one more thing.
pub open spec fn drafted(d: Drafted, s: Semantic) -> Drafted {
    Drafted { accepted: super::ledger::accepting(d.accepted, s), ids: d.ids.push(s.id()) }
}

/// A draft with the entities from position `i` on.
pub open spec fn with_entities(list: Seq<Entity>, i: nat, evidence: Evidence, d: Drafted) -> Result<
    Drafted,
    Seq<char>,
>
    decreases list.len() - i,
{
    if i >= list.len() {
        Ok(d)
    } else {
        let e = list[i as int];
        match entity_fault(e, evidence) {
            Some(fault) => Err(fault),
            None => if d.ids.contains(e.id) {
                Err(reused(e.id))
            } else {
                with_entities(list, i + 1, evidence, drafted(d, Semantic::Entity(e)))
            },
        }
    }
}

/// A draft with the outcomes from position `i` on; one investigation has only one.
pub open spec fn with_outcomes(
    list: Seq<Outcome>,
    i: nat,
    evidence: Evidence,
    targets: Seq<Seq<char>>,
    d: Drafted,
) -> Result<Drafted, Seq<char>>
    decreases list.len() - i,
{
    if i >= list.len() {
        Ok(d)
    } else {
        let o = list[i as int];
        if d.ids.contains(o.id) {
            Err(reused(o.id))
        } else if targets.contains(o.investigation_id) {
            Err("research observer may assert only one outcome per investigation in one batch"@)
        } else {
            match outcome_fault(o, evidence, d.accepted) {
                Some(fault) => Err(fault),
                None => with_outcomes(
                    list,
                    i + 1,
                    evidence,
                    targets.push(o.investigation_id),
                    drafted(d, Semantic::InvestigationOutcome(o)),
                ),
            }
        }
    }
}

/// A draft with the relations from position `i` on.
pub open spec fn with_relations(list: Seq<Relation>, i: nat, evidence: Evidence, d: Drafted) -> Result<
    Drafted,
    Seq<char>,
>
    decreases list.len() - i,
{
    if i >= list.len() {
        Ok(d)
    } else {
        let r = list[i as int];
        match relation_shape_fault(r, evidence) {
            Some(fault) => Err(fault),
            None => if d.ids.contains(r.id) {
                Err(reused(r.id))
            } else {
                match endpoints_fault(r, d.accepted) {
                    Some(fault) => Err(fault),
                    None => with_relations(
                        list,
                        i + 1,
                        evidence,
                        drafted(d, Semantic::Relation(r)),
                    ),
                }
            },
        }
    }
}

/// A draft with the assessments from position `i` on.
pub open spec fn with_assessments(
    list: Seq<Semantic>,
    i: nat,
    evidence: Evidence,
    d: Drafted,
) -> Result<Drafted, Seq<char>>
    decreases list.len() - i,
{
    if i >= list.len() {
        Ok(d)
    } else {
        match list[i as int] {
            Semantic::Assessment(s) => if d.ids.contains(s.id) {
                Err(reused(s.id))
            } else {
                match assessment_fault(s, evidence, d.accepted) {
                    Some(fault) => Err(fault),
                    None => match supersession_fault(s, d.accepted) {
                        Some(fault) => Err(fault),
                        None => with_assessments(
                            list,
                            i + 1,
                            evidence,
                            drafted(d, Semantic::Assessment(s)),
                        ),
                    },
                }
            },
            _ => with_assessments(list, i + 1, evidence, d),
        }
    }
}

/// Things in the order of their ids, with one more behind all that do not come after it.
pub open spec fn ranked(list: Seq<Semantic>, s: Semantic) -> Seq<Semantic>
    decreases list.len(),
{
    if list.len() == 0 || !before(s.id(), list.last().id()) {
        list.push(s)
    } else {
        ranked(list.drop_last(), s).push(list.last())
    }
}

/// The first `n` things in the order of their ids.
pub open spec fn by_id(list: Seq<Semantic>, n: nat) -> Seq<Semantic>
    decreases n,
{
    if n == 0 {
        Seq::empty()
    } else {
        ranked(by_id(list, (n - 1) as nat), list[n - 1])
    }
}

fn sort_by_id(list: &Vec<SemanticRecord>) -> (r: Vec<SemanticRecord>)
    ensures
        r.deep_view() == by_id(list.deep_view(), list@.len()),
{
    let mut out: Vec<SemanticRecord> = Vec::new();
    let mut i: usize = 0;
    assert(out.deep_view() =~= Seq::empty());
    while i < list.len()
        invariant
            i <= list@.len(),
            out.deep_view() == by_id(list.deep_view(), i as nat),
        decreases list@.len() - i,
    {
        let s = list[i].clone();
        let ghost model = s.deep_view();
        assert(list.deep_view()[i as int] == model);
        let ghost all = out.deep_view();
        let mut j: usize = out.len();
        assert(all.take(j as int) =~= all);
        assert(all.skip(j as int) =~= Seq::empty());
        assert(ranked(all, model) + Seq::<Semantic>::empty() =~= ranked(all, model));
        while j > 0 && precedes(s.id(), out[j - 1].id())
            invariant
                j <= out@.len(),
                all == out.deep_view(),
                model == s.deep_view(),
                ranked(all, model) == ranked(all.take(j as int), model) + all.skip(j as int),
            decreases j,
        {
            let ghost head = all.take(j as int);
            assert(head.last() == out@[j - 1].deep_view());
            assert(head.drop_last() =~= all.take(j - 1));
            assert(all.skip(j - 1) =~= seq![head.last()] + all.skip(j as int));
            assert(ranked(all, model) =~= ranked(all.take(j - 1), model) + all.skip(j - 1));
            j -= 1;
        }
        proof {
            let head = all.take(j as int);
            if j > 0 {
                assert(head.last() == out@[j - 1].deep_view());
            }
            assert(ranked(head, model) == head.push(model));
        }
        out.insert(j, s);
        assert(out.deep_view() =~= all.take(j as int).push(model) + all.skip(j as int));
        i += 1;
    }
    out
}

/// The assessments of a batch as things that are proposed.
pub open spec fn assessments_of(list: Seq<Assessment>) -> Seq<Semantic> {
    Seq::new(list.len(), |i: int| Semantic::Assessment(list[i]))
}

/// All that a batch proposes: entities, outcomes, relations, assessments.
pub open spec fn proposals_of(b: Batch) -> Seq<Semantic> {
    Seq::new(b.entities.len(), |i: int| Semantic::Entity(b.entities[i])) + Seq::new(
        b.outcomes.len(),
        |i: int| Semantic::InvestigationOutcome(b.outcomes[i]),
    ) + Seq::new(b.relations.len(), |i: int| Semantic::Relation(b.relations[i])) + assessments_of(
        b.assessments,
    )
}

fn list_assessments(list: &Vec<ResearchAssessment>) -> (r: Vec<SemanticRecord>)
    ensures
        r.deep_view() == assessments_of(list.deep_view()),
{
    let mut out: Vec<SemanticRecord> = Vec::new();
    let mut i: usize = 0;
    while i < list.len()
        invariant
            i <= list@.len(),
            out@.len() == i,
            forall|j: int|
                0 <= j < i ==> (#[trigger] out@[j]).deep_view() == Semantic::Assessment(
                    list@[j].deep_view(),
                ),
        decreases list@.len() - i,
    {
        out.push(SemanticRecord::Assessment(list[i].clone()));
        i += 1;
    }
    assert(out.deep_view() =~= assessments_of(list.deep_view()));
    out
}

fn list_proposals(b: &ObserverProposalBatch) -> (r: Vec<SemanticRecord>)
    ensures
        r.deep_view() == proposals_of(b.deep_view()),
{
    let ghost model = b.deep_view();
    let mut out: Vec<SemanticRecord> = Vec::new();
    let mut i: usize = 0;
    while i < b.entities.len()
        invariant
            i <= b.entities@.len(),
            out@.len() == i,
            forall|j: int|
                0 <= j < i ==> (#[trigger] out@[j]).deep_view() == Semantic::Entity(
                    b.entities@[j].deep_view(),
                ),
        decreases b.entities@.len() - i,
    {
        out.push(SemanticRecord::Entity(b.entities[i].clone()));
        i += 1;
    }
    let ghost first = Seq::new(model.entities.len(), |i: int| Semantic::Entity(model.entities[i]));
    assert(out.deep_view() =~= first);
    let ghost n1 = out@.len();
    let mut k: usize = 0;
    while k < b.outcomes.len()
        invariant
            k <= b.outcomes@.len(),
            n1 == first.len(),
            out@.len() == n1 + k,
            forall|j: int| 0 <= j < n1 ==> (#[trigger] out@[j]).deep_view() == first[j],
            forall|j: int|
                n1 <= j < n1 + k ==> (#[trigger] out@[j]).deep_view()
                    == Semantic::InvestigationOutcome(b.outcomes@[j - n1].deep_view()),
        decreases b.outcomes@.len() - k,
    {
        out.push(SemanticRecord::InvestigationOutcome(b.outcomes[k].clone()));
        k += 1;
    }
    let ghost second = first + Seq::new(
        model.outcomes.len(),
        |i: int| Semantic::InvestigationOutcome(model.outcomes[i]),
    );
    assert(out.deep_view() =~= second);
    let ghost n2 = out@.len();
    let mut m: usize = 0;
    while m < b.relations.len()
        invariant
            m <= b.relations@.len(),
            n2 == second.len(),
            out@.len() == n2 + m,
            forall|j: int| 0 <= j < n2 ==> (#[trigger] out@[j]).deep_view() == second[j],
            forall|j: int|
                n2 <= j < n2 + m ==> (#[trigger] out@[j]).deep_view() == Semantic::Relation(
                    b.relations@[j - n2].deep_view(),
                ),
        decreases b.relations@.len() - m,
    {
        out.push(SemanticRecord::Relation(b.relations[m].clone()));
        m += 1;
    }
    let ghost third = second + Seq::new(
        model.relations.len(),
        |i: int| Semantic::Relation(model.relations[i]),
    );
    assert(out.deep_view() =~= third);
    let ghost n3 = out@.len();
    let mut p: usize = 0;
    while p < b.assessments.len()
        invariant
            p <= b.assessments@.len(),
            n3 == third.len(),
            out@.len() == n3 + p,
            forall|j: int| 0 <= j < n3 ==> (#[trigger] out@[j]).deep_view() == third[j],
            forall|j: int|
                n3 <= j < n3 + p ==> (#[trigger] out@[j]).deep_view() == Semantic::Assessment(
                    b.assessments@[j - n3].deep_view(),
                ),
        decreases b.assessments@.len() - p,
    {
        out.push(SemanticRecord::Assessment(b.assessments[p].clone()));
        p += 1;
    }
    assert(out.deep_view() =~= proposals_of(model));
    out
}

impl Draft {
    fn add(&mut self, s: &SemanticRecord)
        ensures
            final(self).deep_view() == drafted(old(self).deep_view(), s.deep_view()),
    {
        let ghost was = self.deep_view();
        self.accepted.accept(s);
        self.ids.push(s.id().clone());
        assert(self.ids.deep_view() =~= was.ids.push(s.deep_view().id()));
    }
}

fn draft_entities(list: &Vec<ResearchEntity>, sources: &SourceContext, given: Draft) -> (r: Result<
    Draft,
    ExtensionError,
>)
    ensures
        answers(
            r,
            with_entities(list.deep_view(), 0, sources.deep_view(), given.deep_view()),
        ),
{
    let mut draft = given;
    let mut i: usize = 0;
    while i < list.len()
        invariant
            i <= list@.len(),
            with_entities(list.deep_view(), 0, sources.deep_view(), given.deep_view()) == with_entities(
                list.deep_view(),
                i as nat,
                sources.deep_view(),
                draft.deep_view(),
            ),
        decreases list@.len() - i,
    {
        let e = &list[i];
        assert(list.deep_view()[i as int] == e.deep_view());
        validate_entity(e, sources)?;
        if holds(&draft.ids, &e.id) {
            return Err(reused_error(&e.id));
        }
        draft.add(&SemanticRecord::Entity(e.clone()));
        i += 1;
    }
    Ok(draft)
}

fn draft_outcomes(list: &Vec<ResearchOutcome>, sources: &SourceContext, given: Draft) -> (r: Result<
    Draft,
    ExtensionError,
>)
    ensures
        answers(
            r,
            with_outcomes(
                list.deep_view(),
                0,
                sources.deep_view(),
                Seq::empty(),
                given.deep_view(),
            ),
        ),
{
    let mut draft = given;
    let mut targets: Vec<String> = Vec::new();
    let mut i: usize = 0;
    assert(targets.deep_view() =~= Seq::empty());
    while i < list.len()
        invariant
            i <= list@.len(),
            with_outcomes(list.deep_view(), 0, sources.deep_view(), Seq::empty(), given.deep_view())
                == with_outcomes(
                list.deep_view(),
                i as nat,
                sources.deep_view(),
                targets.deep_view(),
                draft.deep_view(),
            ),
        decreases list@.len() - i,
    {
        let o = &list[i];
        assert(list.deep_view()[i as int] == o.deep_view());
        if holds(&draft.ids, &o.id) {
            return Err(reused_error(&o.id));
        }
        if holds(&targets, &o.investigation_id) {
            return Err(
                input_error(
                    "research observer may assert only one outcome per investigation in one batch",
                ),
            );
        }
        validate_outcome(o, sources, &draft.accepted)?;
        let ghost was = targets.deep_view();
        targets.push(o.investigation_id.clone());
        assert(targets.deep_view() =~= was.push(o.investigation_id@));
        draft.add(&SemanticRecord::InvestigationOutcome(o.clone()));
        i += 1;
    }
    Ok(draft)
}

fn draft_relations(list: &Vec<ResearchRelation>, sources: &SourceContext, given: Draft) -> (r:
    Result<Draft, ExtensionError>)
    ensures
        answers(
            r,
            with_relations(list.deep_view(), 0, sources.deep_view(), given.deep_view()),
        ),
{
    let mut draft = given;
    let mut i: usize = 0;
    while i < list.len()
        invariant
            i <= list@.len(),
            with_relations(list.deep_view(), 0, sources.deep_view(), given.deep_view()) == with_relations(
                list.deep_view(),
                i as nat,
                sources.deep_view(),
                draft.deep_view(),
            ),
        decreases list@.len() - i,
    {
        let relation = &list[i];
        assert(list.deep_view()[i as int] == relation.deep_view());
        validate_relation_shape(relation, sources)?;
        if holds(&draft.ids, &relation.id) {
            return Err(reused_error(&relation.id));
        }
        validate_relation_endpoints(relation, &draft.accepted)?;
        draft.add(&SemanticRecord::Relation(relation.clone()));
        i += 1;
    }
    Ok(draft)
}

fn draft_assessments(list: &Vec<SemanticRecord>, sources: &SourceContext, given: Draft) -> (r:
    Result<Draft, ExtensionError>)
    ensures
        answers(
            r,
            with_assessments(list.deep_view(), 0, sources.deep_view(), given.deep_view()),
        ),
{
    let mut draft = given;
    let mut i: usize = 0;
    while i < list.len()
        invariant
            i <= list@.len(),
            with_assessments(list.deep_view(), 0, sources.deep_view(), given.deep_view())
                == with_assessments(
                list.deep_view(),
                i as nat,
                sources.deep_view(),
                draft.deep_view(),
            ),
        decreases list@.len() - i,
    {
        assert(list.deep_view()[i as int] == list@[i as int].deep_view());
        if let SemanticRecord::Assessment(s) = &list[i] {
            if holds(&draft.ids, &s.id) {
                return Err(reused_error(&s.id));
            }
            validate_assessment(s, sources, &draft.accepted)?;
            validate_assessment_supersession(s, &draft.accepted)?;
            draft.add(&list[i]);
        }
        i += 1;
    }
    Ok(draft)
}

/// The ids that are taken.
pub open spec fn taken_ids(a: Accepted) -> Seq<Seq<char>> {
    crate::projection::revision::names_of(a.entities) + crate::projection::revision::names_of(
        a.outcomes,
    ) + crate::projection::revision::names_of(a.relations)
        + crate::projection::revision::names_of(a.assessments)
}

fn names<V: DeepView>(rows: &Vec<(String, V)>) -> (r: Vec<String>)
    ensures
        r.deep_view() == crate::projection::revision::names_of(rows.deep_view()),
{
    let mut out: Vec<String> = Vec::new();
    let mut i: usize = 0;
    while i < rows.len()
        invariant
            i <= rows@.len(),
            out@.len() == i,
            forall|j: int| 0 <= j < i ==> (#[trigger] out@[j])@ == rows@[j].0@,
        decreases rows@.len() - i,
    {
        out.push(rows[i].0.clone());
        i += 1;
    }
    assert(out.deep_view() =~= crate::projection::revision::names_of(rows.deep_view()));
    out
}

pub fn semantic_ids(a: &AcceptedRecord) -> (r: Vec<String>)
    ensures
        r.deep_view() == taken_ids(a.deep_view()),
{
    let mut out = names(&a.entities);
    append_texts(&mut out, &names(&a.outcomes));
    append_texts(&mut out, &names(&a.relations));
    append_texts(&mut out, &names(&a.assessments));
    out
}

/// What would be accepted with a batch: entities first, then outcomes and relations, and at last
/// assessments in the order of their ids.
pub open spec fn candidate_of(b: Batch, a: Accepted, evidence: Evidence) -> Result<
    Accepted,
    Seq<char>,
> {
    match with_entities(b.entities, 0, evidence, Drafted { accepted: a, ids: taken_ids(a) }) {
        Err(e) => Err(e),
        Ok(d) => match with_outcomes(b.outcomes, 0, evidence, Seq::empty(), d) {
            Err(e) => Err(e),
            Ok(d) => match with_relations(b.relations, 0, evidence, d) {
                Err(e) => Err(e),
                Ok(d) => match with_assessments(
                    by_id(assessments_of(b.assessments), b.assessments.len()),
                    0,
                    evidence,
                    d,
                ) {
                    Err(e) => Err(e),
                    Ok(d) => Ok(d.accepted),
                },
            },
        },
    }
}

fn validate_batch(b: &ObserverProposalBatch, a: AcceptedRecord, sources: &SourceContext) -> (r:
    Result<AcceptedRecord, ExtensionError>)
    ensures
        answers(r, candidate_of(b.deep_view(), a.deep_view(), sources.deep_view())),
{
    let ids = semantic_ids(&a);
    let draft = draft_entities(&b.entities, sources, Draft { accepted: a, ids })?;
    let draft = draft_outcomes(&b.outcomes, sources, draft)?;
    let draft = draft_relations(&b.relations, sources, draft)?;
    let listed = list_assessments(&b.assessments);
    assert(listed.deep_view().len() == b.assessments@.len());
    let sorted = sort_by_id(&listed);
    assert(b.deep_view().assessments.len() == b.assessments@.len());
    let draft = draft_assessments(&sorted, sources, draft)?;
    Ok(draft.accepted)
}

/// A record that is appended to, and what would be accepted in it.
pub struct Candidate {
    pub record: ResearchRecord,
    pub accepted: AcceptedRecord,
}

impl DeepView for Candidate {
    type V = (Record, Accepted);

    open spec fn deep_view(&self) -> (Record, Accepted) {
        (self.record.deep_view(), self.accepted.deep_view())
    }
}

/// The record that is appended to, and what would be accepted in it.
pub open spec fn prepared(x: Append) -> Result<(Record, Accepted), Seq<char>> {
    match batch_header_fault(x.batch, x.prior is Some) {
        Some(e) => Err(e),
        None => match base_record(x) {
            Err(e) => Err(e),
            Ok(record) => match accepted_of(record.ledger) {
                Err(e) => Err(e),
                Ok(a) => match candidate_of(x.batch, a, evidence_of(record, a, x.events)) {
                    Err(e) => Err(e),
                    Ok(candidate) => Ok((record, candidate)),
                },
            },
        },
    }
}

/// The record that is appended to, and what would be accepted in it. The rules on what may be
/// accepted together are for the caller to hold against that.
pub fn prepare_append(x: &AppendInput) -> (r: Result<Candidate, ExtensionError>)
    ensures
        answers(r, prepared(x.deep_view())),
{
    validate_batch_header(&x.batch, x.prior.is_some())?;
    let record = record_for_append(x)?;
    let accepted = record.accepted()?;
    let sources = SourceContext::new(&record, &accepted, &x.events);
    let accepted = validate_batch(&x.batch, accepted, &sources)?;
    Ok(Candidate { record, accepted })
}

/// The id of the episode of an event.
pub open spec fn episode_name(event: Seq<char>) -> Seq<char> {
    "episode-"@ + sha256_hex(encode_utf8(event))
}

fn episode_id(event_id: &str) -> (r: String)
    ensures
        r@ == episode_name(event_id@),
{
    join2("episode-", &sha256(event_id.as_bytes()))
}

/// What kind of happening an event is.
pub open spec fn class_of(kind: Seq<char>) -> EpisodeCaptureClass {
    if kind == EventKind::USER_MESSAGE@ || kind == EventKind::ASSISTANT_MESSAGE@ {
        EpisodeCaptureClass::Proposition
    } else if kind == EventKind::TOOL_CALL@ || kind == EventKind::CHECK_STARTED@ {
        EpisodeCaptureClass::Execution
    } else if kind == EventKind::EXTENSION_ARTIFACT@ || kind == EventKind::PATCH_APPLIED@ || kind
        == EventKind::FILE_CHANGE@ || kind == EventKind::FILE_DIFF@ {
        EpisodeCaptureClass::Artifact
    } else if kind == EventKind::PLAN_UPDATE@ || kind == EventKind::PERMISSION_DECISION@ {
        EpisodeCaptureClass::Decision
    } else {
        EpisodeCaptureClass::Result
    }
}

pub fn episode_capture_class(kind: &str) -> (r: EpisodeCaptureClass)
    ensures
        r == class_of(kind@),
{
    if same(kind, EventKind::USER_MESSAGE) || same(kind, EventKind::ASSISTANT_MESSAGE) {
        EpisodeCaptureClass::Proposition
    } else if same(kind, EventKind::TOOL_CALL) || same(kind, EventKind::CHECK_STARTED) {
        EpisodeCaptureClass::Execution
    } else if same(kind, EventKind::EXTENSION_ARTIFACT) || same(kind, EventKind::PATCH_APPLIED)
        || same(kind, EventKind::FILE_CHANGE) || same(kind, EventKind::FILE_DIFF) {
        EpisodeCaptureClass::Artifact
    } else if same(kind, EventKind::PLAN_UPDATE) || same(kind, EventKind::PERMISSION_DECISION) {
        EpisodeCaptureClass::Decision
    } else {
        EpisodeCaptureClass::Result
    }
}

/// The episode of an event.
pub open spec fn episode_of(event: Event) -> Happening {
    Happening {
        id: episode_name(event.id),
        capture_class: class_of(event.kind),
        event_kind: event.kind,
        source_event_ids: seq![event.id],
    }
}

/// The episodes with those of the events from position `i` on; none is captured twice.
pub open spec fn with_episodes(
    events: Seq<Event>,
    i: nat,
    seen: Seq<Seq<char>>,
    episodes: Seq<Happening>,
) -> Result<Seq<Happening>, Seq<char>>
    decreases events.len() - i,
{
    if i >= events.len() {
        Ok(episodes)
    } else if seen.contains(events[i as int].id) {
        Err("research-record observer attempted to recapture an existing event"@)
    } else {
        with_episodes(
            events,
            i + 1,
            seen.push(events[i as int].id),
            episodes.push(episode_of(events[i as int])),
        )
    }
}

fn append_new_episodes(episodes: Vec<Episode>, events: &Vec<EventEnvelope>) -> (r: Result<
    Vec<Episode>,
    ExtensionError,
>)
    ensures
        answers(
            r,
            with_episodes(
                events.deep_view(),
                0,
                episode_sources(episodes.deep_view(), episodes@.len()),
                episodes.deep_view(),
            ),
        ),
{
    let mut seen = list_episode_sources(&episodes);
    let ghost first = seen.deep_view();
    let mut out = episodes;
    let mut i: usize = 0;
    while i < events.len()
        invariant
            i <= events@.len(),
            first == episode_sources(episodes.deep_view(), episodes@.len()),
            with_episodes(events.deep_view(), 0, first, episodes.deep_view()) == with_episodes(
                events.deep_view(),
                i as nat,
                seen.deep_view(),
                out.deep_view(),
            ),
        decreases events@.len() - i,
    {
        let event = &events[i];
        assert(events.deep_view()[i as int] == event@);
        if holds(&seen, &event.id) {
            return Err(
                input_error("research-record observer attempted to recapture an existing event"),
            );
        }
        let ghost names = seen.deep_view();
        seen.push(event.id.clone());
        assert(seen.deep_view() =~= names.push(event.id@));
        let sources = vec![event.id.clone()];
        assert(sources.deep_view() =~= seq![event.id@]);
        let episode = Episode {
            id: episode_id(&event.id),
            capture_class: episode_capture_class(event.kind.as_str()),
            event_kind: event.kind.as_str().to_owned(),
            source_event_ids: sources,
        };
        let ghost was = out.deep_view();
        assert(episode.deep_view() == episode_of(event@));
        out.push(episode);
        assert(out.deep_view() =~= was.push(episode_of(event@)));
        i += 1;
    }
    Ok(out)
}

/// The proposal of a thing.
pub open spec fn proposal_entry(s: Semantic) -> Entry {
    Entry::Proposal { id: "proposal-"@ + s.id(), semantic: s }
}

/// The acceptance of a thing.
pub open spec fn decision_entry(s: Semantic) -> Entry {
    Entry::Decision {
        id: "decision-"@ + s.id(),
        proposal_id: "proposal-"@ + s.id(),
        outcome: DecisionOutcome::Accepted,
        policy: AUTO_ACCEPT_POLICY@,
        source_event_ids: s.sources(),
    }
}

/// The ids of the proposals among the first `n` entries.
pub open spec fn proposal_ids(ledger: Seq<Entry>, n: nat) -> Seq<Seq<char>>
    decreases n,
{
    if n == 0 {
        Seq::empty()
    } else {
        let rest = proposal_ids(ledger, (n - 1) as nat);
        match ledger[n - 1] {
            Entry::Proposal { id, semantic: _ } => rest.push(id),
            _ => rest,
        }
    }
}

/// The ledger with proposal and acceptance of the things from position `i` on.
pub open spec fn with_proposals(
    list: Seq<Semantic>,
    i: nat,
    taken: Seq<Seq<char>>,
    ledger: Seq<Entry>,
) -> Result<Seq<Entry>, Seq<char>>
    decreases list.len() - i,
{
    if i >= list.len() {
        Ok(ledger)
    } else {
        let s = list[i as int];
        let id = "proposal-"@ + s.id();
        if !id_form(id) || !id_form("decision-"@ + s.id()) || taken.contains(id) {
            Err("research-record ledger id collision"@)
        } else {
            with_proposals(
                list,
                i + 1,
                taken.push(id),
                ledger.push(proposal_entry(s)).push(decision_entry(s)),
            )
        }
    }
}

fn list_proposal_ids(ledger: &Vec<LedgerEntry>) -> (r: Vec<String>)
    ensures
        r.deep_view() == proposal_ids(ledger.deep_view(), ledger@.len()),
{
    let mut out: Vec<String> = Vec::new();
    let mut i: usize = 0;
    assert(out.deep_view() =~= Seq::empty());
    while i < ledger.len()
        invariant
            i <= ledger@.len(),
            out.deep_view() == proposal_ids(ledger.deep_view(), i as nat),
        decreases ledger@.len() - i,
    {
        assert(ledger.deep_view()[i as int] == ledger@[i as int].deep_view());
        if let LedgerEntry::Proposal { id, semantic: _ } = &ledger[i] {
            let ghost was = out.deep_view();
            out.push(id.clone());
            assert(out.deep_view() =~= was.push(id@));
        }
        i += 1;
    }
    out
}

fn append_batch_ledger(ledger: Vec<LedgerEntry>, b: &ObserverProposalBatch) -> (r: Result<
    Vec<LedgerEntry>,
    ExtensionError,
>)
    ensures
        answers(
            r,
            with_proposals(
                by_id(proposals_of(b.deep_view()), proposals_of(b.deep_view()).len()),
                0,
                proposal_ids(ledger.deep_view(), ledger@.len()),
                ledger.deep_view(),
            ),
        ),
{
    let listed = list_proposals(b);
    assert(listed.deep_view().len() == listed@.len());
    let list = sort_by_id(&listed);
    let mut taken = list_proposal_ids(&ledger);
    let ghost first = taken.deep_view();
    let mut out = ledger;
    let mut i: usize = 0;
    while i < list.len()
        invariant
            i <= list@.len(),
            first == proposal_ids(ledger.deep_view(), ledger@.len()),
            list.deep_view() == by_id(
                proposals_of(b.deep_view()),
                proposals_of(b.deep_view()).len(),
            ),
            with_proposals(list.deep_view(), 0, first, ledger.deep_view()) == with_proposals(
                list.deep_view(),
                i as nat,
                taken.deep_view(),
                out.deep_view(),
            ),
        decreases list@.len() - i,
    {
        let s = &list[i];
        let ghost model = s.deep_view();
        assert(list.deep_view()[i as int] == model);
        let proposal_id = join2("proposal-", s.id());
        let decision_id = join2("decision-", s.id());
        if !valid_id(&proposal_id) || !valid_id(&decision_id) || holds(&taken, &proposal_id) {
            return Err(input_error("research-record ledger id collision"));
        }
        let ghost names = taken.deep_view();
        taken.push(proposal_id.clone());
        assert(taken.deep_view() =~= names.push(proposal_id@));
        let ghost was = out.deep_view();
        out.push(LedgerEntry::Proposal { id: proposal_id.clone(), semantic: s.clone() });
        assert(out.deep_view() =~= was.push(proposal_entry(model)));
        out.push(
            LedgerEntry::Decision {
                id: decision_id,
                proposal_id,
                outcome: DecisionOutcome::Accepted,
                policy: AUTO_ACCEPT_POLICY.to_owned(),
                source_event_ids: copy_texts(s.source_event_ids()),
            },
        );
        assert(out.deep_view() =~= was.push(proposal_entry(model)).push(decision_entry(model)));
        i += 1;
    }
    Ok(out)
}

/// A record with new episodes and new entries.
pub open spec fn extended(x: Append, base: Record, episodes: Seq<Happening>, ledger: Seq<Entry>) -> Record {
    Record {
        generated_at: x.generated_at,
        session: Session {
            id: base.session.id,
            provenance_watermark_event_id: x.watermark,
            observed_through_event_id: x.watermark,
        },
        construction: Provenance {
            operation: if x.prior is Some {
                RecordOperation::Reconcile
            } else {
                RecordOperation::Capture
            },
            predecessor_record_artifact_event_id: x.predecessor,
            predecessor_record_watermark_event_id: match x.prior {
                Some(prior) => Some(prior.session.provenance_watermark_event_id),
                None => None,
            },
            proposal_source_event_ids: in_order(ids_of(x.events)),
            observer_result_event_id: x.observer_result,
        },
        episodes,
        ledger,
        ..base
    }
}

/// The record with what was proposed, before its shape is looked at.
pub open spec fn appended(x: Append, base: Record) -> Result<Record, Seq<char>> {
    match with_episodes(
        x.events,
        0,
        episode_sources(base.episodes, base.episodes.len()),
        base.episodes,
    ) {
        Err(e) => Err(e),
        Ok(episodes) => {
            let list = proposals_of(x.batch);
            match with_proposals(
                by_id(list, list.len()),
                0,
                proposal_ids(base.ledger, base.ledger.len()),
                base.ledger,
            ) {
                Err(e) => Err(e),
                Ok(ledger) => Ok(extended(x, base, episodes, ledger)),
            }
        },
    }
}

/// The record with what was proposed, before its shape is looked at.
pub fn extend(x: &AppendInput, base: ResearchRecord) -> (r: Result<ResearchRecord, ExtensionError>)
    ensures
        answers(r, appended(x.deep_view(), base.deep_view())),
{
    let ghost given = base.deep_view();
    assert(given.episodes.len() == base.episodes@.len());
    assert(given.ledger.len() == base.ledger@.len());
    let episodes = append_new_episodes(base.episodes, &x.events)?;
    let ledger = append_batch_ledger(base.ledger, &x.batch)?;
    let mut session = base.session;
    session.provenance_watermark_event_id = x.watermark_event_id.clone();
    session.observed_through_event_id = x.watermark_event_id.clone();
    let (operation, watermark) = match &x.prior {
        Some(prior) => (
            RecordOperation::Reconcile,
            Some(prior.session.provenance_watermark_event_id.clone()),
        ),
        None => (RecordOperation::Capture, None),
    };
    Ok(
        ResearchRecord {
            schema: base.schema,
            media_type: base.media_type,
            generated_at: x.generated_at.clone(),
            session,
            construction: RecordConstruction {
                operation,
                predecessor_record_artifact_event_id: x.predecessor_record_artifact_event_id.clone(),
                predecessor_record_watermark_event_id: watermark,
                proposal_source_event_ids: put_in_order(&event_ids(&x.events)),
                observer_result_event_id: x.observer_result_event_id.clone(),
            },
            episodes,
            ledger,
        },
    )
}

/// The record with what was proposed, and what it accepts.
pub open spec fn completed(x: Append, base: Record) -> Result<(Record, Accepted), Seq<char>> {
    match appended(x, base) {
        Err(e) => Err(e),
        Ok(record) => match sound_record(record) {
            Err(e) => Err(e),
            Ok(accepted) => Ok((record, accepted)),
        },
    }
}

/// The record with what was proposed, and what it accepts.
pub fn complete_append(x: &AppendInput, base: ResearchRecord) -> (r: Result<
    Candidate,
    ExtensionError,
>)
    ensures
        answers(r, completed(x.deep_view(), base.deep_view())),
{
    let record = extend(x, base)?;
    let accepted = record.check()?;
    Ok(Candidate { record, accepted })
}

proof fn lemma_with_episodes(
    events: Seq<Event>,
    i: nat,
    seen: Seq<Seq<char>>,
    episodes: Seq<Happening>,
)
    requires
        with_episodes(events, i, seen, episodes) is Ok,
        i <= events.len(),
    ensures
        ({
            let out = with_episodes(events, i, seen, episodes)->Ok_0;
            &&& episodes.is_prefix_of(out)
            &&& out.len() == episodes.len() + (events.len() - i)
            &&& forall|k: int|
                i <= k < events.len() ==> out[episodes.len() + (k - i)] == episode_of(
                    #[trigger] events[k],
                )
        }),
    decreases events.len() - i,
{
    if i < events.len() {
        let more = episodes.push(episode_of(events[i as int]));
        let out = with_episodes(events, i, seen, episodes)->Ok_0;
        lemma_with_episodes(events, i + 1, seen.push(events[i as int].id), more);
        assert(more =~= out.take(more.len() as int));
        assert(episodes =~= more.take(episodes.len() as int));
        assert(out[episodes.len() as int] == more[episodes.len() as int]);
    }
}

proof fn lemma_with_proposals(
    list: Seq<Semantic>,
    i: nat,
    taken: Seq<Seq<char>>,
    ledger: Seq<Entry>,
)
    requires
        with_proposals(list, i, taken, ledger) is Ok,
        i <= list.len(),
    ensures
        ({
            let out = with_proposals(list, i, taken, ledger)->Ok_0;
            &&& ledger.is_prefix_of(out)
            &&& out.len() == ledger.len() + 2 * (list.len() - i)
        }),
    decreases list.len() - i,
{
    if i < list.len() {
        let s = list[i as int];
        let more = ledger.push(proposal_entry(s)).push(decision_entry(s));
        let out = with_proposals(list, i, taken, ledger)->Ok_0;
        lemma_with_proposals(list, i + 1, taken.push("proposal-"@ + s.id()), more);
        assert(more =~= out.take(more.len() as int));
        assert(ledger =~= more.take(ledger.len() as int));
    }
}

/// A record only grows: what stood in it stands in it still, and each new event has one episode
/// behind those that were there.
pub proof fn records_only_grow(x: Append, base: Record)
    requires
        completed(x, base) is Ok,
    ensures
        ({
            let record = completed(x, base)->Ok_0.0;
            &&& base.episodes.is_prefix_of(record.episodes)
            &&& base.ledger.is_prefix_of(record.ledger)
            &&& record.episodes.len() == base.episodes.len() + x.events.len()
            &&& forall|k: int|
                0 <= k < x.events.len() ==> record.episodes[base.episodes.len() + k]
                    == episode_of(#[trigger] x.events[k])
            &&& record.session.id == base.session.id
        }),
{
    lemma_with_episodes(
        x.events,
        0,
        episode_sources(base.episodes, base.episodes.len()),
        base.episodes,
    );
    let list = proposals_of(x.batch);
    lemma_with_proposals(
        by_id(list, list.len()),
        0,
        proposal_ids(base.ledger, base.ledger.len()),
        base.ledger,
    );
}

/// A record that was appended to is of the form that records have, and names where it came from.
pub proof fn appended_records_are_sound(x: Append, base: Record)
    requires
        completed(x, base) is Ok,
    ensures
        ({
            let (record, accepted) = completed(x, base)->Ok_0;
            &&& shape_fault(record, crate::text::byte_len(record_text(record))) is None
            &&& accepted_of(record.ledger) == Ok::<Accepted, Seq<char>>(accepted)
            &&& record.construction.predecessor_record_artifact_event_id == x.predecessor
            &&& record.session.provenance_watermark_event_id == x.watermark
        }),
{
}

/// What a user or the agent said is a proposition; a tool that was called or a check that was
/// started is an execution; an artifact, a patch, a file that changed and its difference are
/// artifacts; a plan and what was permitted are decisions; all else is a result.
pub proof fn happenings_are_classed_by_their_kind(kind: Seq<char>)
    ensures
        class_of(kind) == EpisodeCaptureClass::Proposition <==> kind == "user.message"@ || kind
            == "assistant.message"@,
        class_of(kind) == EpisodeCaptureClass::Execution <==> kind == "tool.call"@ || kind
            == "check.started"@,
        class_of(kind) == EpisodeCaptureClass::Artifact <==> kind == "extension.artifact"@ || kind
            == "patch.applied"@ || kind == "file.change"@ || kind == "file.diff"@,
        class_of(kind) == EpisodeCaptureClass::Decision <==> kind == "plan.update"@ || kind
            == "permission.decision"@,
{
    reveal_strlit("user.message");
    reveal_strlit("assistant.message");
    reveal_strlit("tool.call");
    reveal_strlit("check.started");
    reveal_strlit("extension.artifact");
    reveal_strlit("patch.applied");
    reveal_strlit("file.change");
    reveal_strlit("file.diff");
    reveal_strlit("plan.update");
    reveal_strlit("permission.decision");
    assert("user.message"@[0] == 'u' && "assistant.message"@[0] == 'a' && "tool.call"@[0] == 't'
        && "check.started"@[0] == 'c' && "extension.artifact"@[0] == 'e' && "patch.applied"@[0]
        == 'p' && "file.change"@[0] == 'f' && "file.diff"@[0] == 'f' && "plan.update"@[0] == 'p'
        && "permission.decision"@[0] == 'p');
    assert("patch.applied"@[1] == 'a' && "plan.update"@[1] == 'l' && "permission.decision"@[1]
        == 'e');
}

proof fn lemma_proposed(
    list: Seq<Semantic>,
    i: nat,
    taken: Seq<Seq<char>>,
    ledger: Seq<Entry>,
    k: int,
)
    requires
        with_proposals(list, i, taken, ledger) is Ok,
        i <= k < list.len(),
    ensures
        ({
            let out = with_proposals(list, i, taken, ledger)->Ok_0;
            let at = ledger.len() + 2 * (k - i);
            &&& at + 1 < out.len()
            &&& out[at] == proposal_entry(list[k])
            &&& out[at + 1] == decision_entry(list[k])
        }),
    decreases list.len() - i,
{
    let s = list[i as int];
    let more = ledger.push(proposal_entry(s)).push(decision_entry(s));
    let next = taken.push("proposal-"@ + s.id());
    if k == i {
        lemma_with_proposals(list, i + 1, next, more);
        let out = with_proposals(list, i, taken, ledger)->Ok_0;
        assert(more == out.take(more.len() as int));
        assert(out[ledger.len() as int] == more[ledger.len() as int]);
        assert(out[ledger.len() as int + 1] == more[ledger.len() as int + 1]);
    } else {
        lemma_proposed(list, i + 1, next, more, k);
    }
}

/// Whether a ledger holds the proposal of a thing and, right behind it, its acceptance under the
/// policy by which what is grounded in sources is accepted.
pub open spec fn enters(ledger: Seq<Entry>, s: Semantic, n: int) -> bool {
    &&& 0 <= n < ledger.len() - 1
    &&& ledger[n] == (Entry::Proposal { id: "proposal-"@ + s.id(), semantic: s })
    &&& ledger[n + 1] == (Entry::Decision {
        id: "decision-"@ + s.id(),
        proposal_id: "proposal-"@ + s.id(),
        outcome: DecisionOutcome::Accepted,
        policy: "source-grounded-auto-accept-v1"@,
        source_event_ids: s.sources(),
    })
}

/// Each thing that a batch proposes is entered in the ledger as it was proposed, and accepted.
pub proof fn what_is_proposed_is_entered(x: Append, base: Record, s: Semantic)
    requires
        completed(x, base) is Ok,
        proposals_of(x.batch).contains(s),
    ensures
        exists|n: int| #[trigger] enters(completed(x, base)->Ok_0.0.ledger, s, n),
{
    let record = completed(x, base)->Ok_0.0;
    let list = proposals_of(x.batch);
    let sorted = by_id(list, list.len());
    super::standards::lemma_by_id(list, list.len(), s);
    assert(list.take(list.len() as int) =~= list);
    let k = choose|k: int| 0 <= k < sorted.len() && sorted[k] == s;
    lemma_proposed(sorted, 0, proposal_ids(base.ledger, base.ledger.len()), base.ledger, k);
    assert(enters(record.ledger, s, base.ledger.len() + 2 * k));
}

/// Everything in a batch is proposed.
pub proof fn batches_are_proposed_whole(b: Batch, k: int)
    ensures
        0 <= k < b.entities.len() ==> proposals_of(b).contains(Semantic::Entity(b.entities[k])),
        0 <= k < b.outcomes.len() ==> proposals_of(b).contains(
            Semantic::InvestigationOutcome(b.outcomes[k]),
        ),
        0 <= k < b.relations.len() ==> proposals_of(b).contains(Semantic::Relation(b.relations[k])),
        0 <= k < b.assessments.len() ==> proposals_of(b).contains(
            Semantic::Assessment(b.assessments[k]),
        ),
        proposals_of(b).len() == b.entities.len() + b.outcomes.len() + b.relations.len()
            + b.assessments.len(),
{
    let all = proposals_of(b);
    let e = b.entities.len();
    let o = b.outcomes.len();
    let r = b.relations.len();
    if 0 <= k < e {
        assert(all[k] == Semantic::Entity(b.entities[k]));
    }
    if 0 <= k < o {
        assert(all[e + k] == Semantic::InvestigationOutcome(b.outcomes[k]));
    }
    if 0 <= k < r {
        assert(all[e + o + k] == Semantic::Relation(b.relations[k]));
    }
    if 0 <= k < b.assessments.len() {
        assert(all[e + o + r + k] == Semantic::Assessment(b.assessments[k]));
    }
}

/// A record tells how it grew: it was reconciled if it had a predecessor and else captured, names
/// that predecessor and how far that had seen, the events that were proposed from, the result of
/// the observer, and how far it has seen now. Each event stands as an episode of its own, under a
/// name made of its id, with its kind.
pub proof fn records_tell_how_they_grew(x: Append, base: Record, k: int, id: Seq<char>)
    requires
        completed(x, base) is Ok,
    ensures
        ({
            let record = completed(x, base)->Ok_0.0;
            &&& x.prior is Some <==> record.construction.operation == RecordOperation::Reconcile
            &&& x.prior is None <==> record.construction.operation == RecordOperation::Capture
            &&& record.construction.predecessor_record_artifact_event_id == x.predecessor
            &&& x.prior matches Some(prior)
                ==> record.construction.predecessor_record_watermark_event_id == Some(
                prior.session.provenance_watermark_event_id,
            )
            &&& x.prior is None ==> record.construction.predecessor_record_watermark_event_id is None
            &&& record.construction.observer_result_event_id == x.observer_result
            &&& record.construction.proposal_source_event_ids.contains(id) <==> exists|i: int|
                0 <= i < x.events.len() && (#[trigger] x.events[i]).id == id
            &&& record.generated_at == x.generated_at
            &&& record.session.id == base.session.id
            &&& record.session.provenance_watermark_event_id == x.watermark
            &&& record.session.observed_through_event_id == x.watermark
            &&& record.schema == base.schema && record.media_type == base.media_type
            &&& 0 <= k < x.events.len() ==> ({
                let e = record.episodes[base.episodes.len() + k];
                &&& e.id == "episode-"@ + sha256_hex(encode_utf8(x.events[k].id))
                &&& e.event_kind == x.events[k].kind
                &&& e.capture_class == class_of(x.events[k].kind)
                &&& e.source_event_ids == seq![x.events[k].id]
            })
        }),
{
    records_only_grow(x, base);
    let names = ids_of(x.events);
    crate::table::in_order_keeps_names(names, id);
    if names.contains(id) {
        let i = choose|i: int| 0 <= i < names.len() && names[i] == id;
        assert(x.events[i].id == id);
    }
    if exists|i: int| 0 <= i < x.events.len() && (#[trigger] x.events[i]).id == id {
        let i = choose|i: int| 0 <= i < x.events.len() && (#[trigger] x.events[i]).id == id;
        assert(names[i] == id);
    }
    if 0 <= k < x.events.len() {
        assert(completed(x, base)->Ok_0.0.episodes[base.episodes.len() + k] == episode_of(
            x.events[k],
        ));
    }
}

} // verus!
