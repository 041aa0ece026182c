//! What a research record is made of.

use crate::table::copy_texts;
use vstd::prelude::*;

verus! {

/// How a snapshot of a record was made.
#[derive(Clone, Copy, Debug, PartialEq, Eq, PartialOrd, Ord, Structural)]
pub enum RecordOperation {
    Capture,
    Reconcile,
}

impl RecordOperation {
    pub open spec fn name(self) -> Seq<char> {
        match self {
            RecordOperation::Capture => "capture"@,
            RecordOperation::Reconcile => "reconcile"@,
        }
    }

    pub fn as_str(self) -> (r: &'static str)
        ensures
            r@ == self.name(),
    {
        match self {
            RecordOperation::Capture => "capture",
            RecordOperation::Reconcile => "reconcile",
        }
    }
}

/// What kind of happening an episode is.
#[derive(Clone, Copy, Debug, PartialEq, Eq, PartialOrd, Ord, Structural)]
pub enum EpisodeCaptureClass {
    Proposition,
    Execution,
    Result,
    Artifact,
    Decision,
}

impl EpisodeCaptureClass {
    pub open spec fn name(self) -> Seq<char> {
        match self {
            EpisodeCaptureClass::Proposition => "proposition"@,
            EpisodeCaptureClass::Execution => "execution"@,
            EpisodeCaptureClass::Result => "result"@,
            EpisodeCaptureClass::Artifact => "artifact"@,
            EpisodeCaptureClass::Decision => "decision"@,
        }
    }

    pub fn as_str(self) -> (r: &'static str)
        ensures
            r@ == self.name(),
    {
        match self {
            EpisodeCaptureClass::Proposition => "proposition",
            EpisodeCaptureClass::Execution => "execution",
            EpisodeCaptureClass::Result => "result",
            EpisodeCaptureClass::Artifact => "artifact",
            EpisodeCaptureClass::Decision => "decision",
        }
    }
}

/// What was decided about a proposal.
#[derive(Clone, Copy, Debug, PartialEq, Eq, PartialOrd, Ord, Structural)]
pub enum DecisionOutcome {
    Accepted,
    Rejected,
}

impl DecisionOutcome {
    pub open spec fn name(self) -> Seq<char> {
        match self {
            DecisionOutcome::Accepted => "accepted"@,
            DecisionOutcome::Rejected => "rejected"@,
        }
    }

    pub fn as_str(self) -> (r: &'static str)
        ensures
            r@ == self.name(),
    {
        match self {
            DecisionOutcome::Accepted => "accepted",
            DecisionOutcome::Rejected => "rejected",
        }
    }
}

/// What kind of thing an entity is.
#[derive(Clone, Copy, Debug, PartialEq, Eq, PartialOrd, Ord, Structural)]
pub enum EntityKind {
    Question,
    Claim,
    Investigation,
    Observation,
    Artifact,
    Synthesis,
}

impl EntityKind {
    pub open spec fn name(self) -> Seq<char> {
        match self {
            EntityKind::Question => "question"@,
            EntityKind::Claim => "claim"@,
            EntityKind::Investigation => "investigation"@,
            EntityKind::Observation => "observation"@,
            EntityKind::Artifact => "artifact"@,
            EntityKind::Synthesis => "synthesis"@,
        }
    }

    pub fn as_str(self) -> (r: &'static str)
        ensures
            r@ == self.name(),
    {
        match self {
            EntityKind::Question => "question",
            EntityKind::Claim => "claim",
            EntityKind::Investigation => "investigation",
            EntityKind::Observation => "observation",
            EntityKind::Artifact => "artifact",
            EntityKind::Synthesis => "synthesis",
        }
    }
}

/// Where an entity stands in its life.
#[derive(Clone, Copy, Debug, PartialEq, Eq, PartialOrd, Ord, Structural)]
pub enum EntityLifecycle {
    Draft,
    Active,
    Withdrawn,
    Archived,
}

impl EntityLifecycle {
    pub open spec fn name(self) -> Seq<char> {
        match self {
            EntityLifecycle::Draft => "draft"@,
            EntityLifecycle::Active => "active"@,
            EntityLifecycle::Withdrawn => "withdrawn"@,
            EntityLifecycle::Archived => "archived"@,
        }
    }

    pub fn as_str(self) -> (r: &'static str)
        ensures
            r@ == self.name(),
    {
        match self {
            EntityLifecycle::Draft => "draft",
            EntityLifecycle::Active => "active",
            EntityLifecycle::Withdrawn => "withdrawn",
            EntityLifecycle::Archived => "archived",
        }
    }
}

/// How an investigation stands.
#[derive(Clone, Copy, Debug, PartialEq, Eq, PartialOrd, Ord, Structural)]
pub enum InvestigationOutcome {
    Active,
    Blocked,
    DeadEnd,
    Completed,
    Abandoned,
}

impl InvestigationOutcome {
    pub open spec fn name(self) -> Seq<char> {
        match self {
            InvestigationOutcome::Active => "active"@,
            InvestigationOutcome::Blocked => "blocked"@,
            InvestigationOutcome::DeadEnd => "dead_end"@,
            InvestigationOutcome::Completed => "completed"@,
            InvestigationOutcome::Abandoned => "abandoned"@,
        }
    }

    pub fn as_str(self) -> (r: &'static str)
        ensures
            r@ == self.name(),
    {
        match self {
            InvestigationOutcome::Active => "active",
            InvestigationOutcome::Blocked => "blocked",
            InvestigationOutcome::DeadEnd => "dead_end",
            InvestigationOutcome::Completed => "completed",
            InvestigationOutcome::Abandoned => "abandoned",
        }
    }
}

/// How two entities are related.
#[derive(Clone, Copy, Debug, PartialEq, Eq, PartialOrd, Ord, Structural)]
pub enum RelationKind {
    Investigates,
    Produces,
    EvidenceFor,
    EvidenceAgainst,
    Repairs,
    ContinuesFrom,
    PivotsFrom,
    Decomposes,
    Addresses,
    Integrates,
}

impl RelationKind {
    pub open spec fn name(self) -> Seq<char> {
        match self {
            RelationKind::Investigates => "investigates"@,
            RelationKind::Produces => "produces"@,
            RelationKind::EvidenceFor => "evidence_for"@,
            RelationKind::EvidenceAgainst => "evidence_against"@,
            RelationKind::Repairs => "repairs"@,
            RelationKind::ContinuesFrom => "continues_from"@,
            RelationKind::PivotsFrom => "pivots_from"@,
            RelationKind::Decomposes => "decomposes"@,
            RelationKind::Addresses => "addresses"@,
            RelationKind::Integrates => "integrates"@,
        }
    }

    pub fn as_str(self) -> (r: &'static str)
        ensures
            r@ == self.name(),
    {
        match self {
            RelationKind::Investigates => "investigates",
            RelationKind::Produces => "produces",
            RelationKind::EvidenceFor => "evidence_for",
            RelationKind::EvidenceAgainst => "evidence_against",
            RelationKind::Repairs => "repairs",
            RelationKind::ContinuesFrom => "continues_from",
            RelationKind::PivotsFrom => "pivots_from",
            RelationKind::Decomposes => "decomposes",
            RelationKind::Addresses => "addresses",
            RelationKind::Integrates => "integrates",
        }
    }
}

/// What is held of a claim.
#[derive(Clone, Copy, Debug, PartialEq, Eq, PartialOrd, Ord, Structural)]
pub enum AssessmentVerdict {
    Supported,
    Corroborated,
    Proven,
    Refuted,
    Inconclusive,
}

impl AssessmentVerdict {
    pub open spec fn name(self) -> Seq<char> {
        match self {
            AssessmentVerdict::Supported => "supported"@,
            AssessmentVerdict::Corroborated => "corroborated"@,
            AssessmentVerdict::Proven => "proven"@,
            AssessmentVerdict::Refuted => "refuted"@,
            AssessmentVerdict::Inconclusive => "inconclusive"@,
        }
    }

    pub fn as_str(self) -> (r: &'static str)
        ensures
            r@ == self.name(),
    {
        match self {
            AssessmentVerdict::Supported => "supported",
            AssessmentVerdict::Corroborated => "corroborated",
            AssessmentVerdict::Proven => "proven",
            AssessmentVerdict::Refuted => "refuted",
            AssessmentVerdict::Inconclusive => "inconclusive",
        }
    }
}

/// The session of a record, and how far it has been observed.
#[derive(Debug, PartialEq, Eq)]
pub struct RecordSession {
    pub id: String,
    pub provenance_watermark_event_id: String,
    pub observed_through_event_id: String,
}

/// What a [`RecordSession`] holds.
#[verifier::ext_equal]
pub struct Session {
    pub id: Seq<char>,
    pub provenance_watermark_event_id: Seq<char>,
    pub observed_through_event_id: Seq<char>,
}

impl DeepView for RecordSession {
    type V = Session;

    open spec fn deep_view(&self) -> Session {
        Session {
            id: self.id@,
            provenance_watermark_event_id: self.provenance_watermark_event_id@,
            observed_through_event_id: self.observed_through_event_id@,
        }
    }
}

impl Clone for RecordSession {
    fn clone(&self) -> (r: Self)
        ensures
            r.deep_view() == self.deep_view(),
    {
        RecordSession {
            id: self.id.clone(),
            provenance_watermark_event_id: self.provenance_watermark_event_id.clone(),
            observed_through_event_id: self.observed_through_event_id.clone(),
        }
    }
}

/// How a snapshot of a record was made from its predecessor.
#[derive(Debug, PartialEq, Eq)]
pub struct RecordConstruction {
    pub operation: RecordOperation,
    pub predecessor_record_artifact_event_id: Option<String>,
    pub predecessor_record_watermark_event_id: Option<String>,
    pub proposal_source_event_ids: Vec<String>,
    pub observer_result_event_id: Option<String>,
}

/// What a [`RecordConstruction`] holds.
#[verifier::ext_equal]
pub struct Provenance {
    pub operation: RecordOperation,
    pub predecessor_record_artifact_event_id: Option<Seq<char>>,
    pub predecessor_record_watermark_event_id: Option<Seq<char>>,
    pub proposal_source_event_ids: Seq<Seq<char>>,
    pub observer_result_event_id: Option<Seq<char>>,
}

impl DeepView for RecordConstruction {
    type V = Provenance;

    open spec fn deep_view(&self) -> Provenance {
        Provenance {
            operation: self.operation,
            predecessor_record_artifact_event_id: self.predecessor_record_artifact_event_id.deep_view(),
            predecessor_record_watermark_event_id: self.predecessor_record_watermark_event_id.deep_view(),
            proposal_source_event_ids: self.proposal_source_event_ids.deep_view(),
            observer_result_event_id: self.observer_result_event_id.deep_view(),
        }
    }
}

impl Clone for RecordConstruction {
    fn clone(&self) -> (r: Self)
        ensures
            r.deep_view() == self.deep_view(),
    {
        RecordConstruction {
            operation: self.operation,
            predecessor_record_artifact_event_id: self.predecessor_record_artifact_event_id.clone(),
            predecessor_record_watermark_event_id: self.predecessor_record_watermark_event_id.clone(),
            proposal_source_event_ids: copy_texts(&self.proposal_source_event_ids),
            observer_result_event_id: self.observer_result_event_id.clone(),
        }
    }
}

/// Something that happened.
#[derive(Debug, PartialEq, Eq)]
pub struct Episode {
    pub id: String,
    pub capture_class: EpisodeCaptureClass,
    pub event_kind: String,
    pub source_event_ids: Vec<String>,
}

/// What a [`Episode`] holds.
#[verifier::ext_equal]
pub struct Happening {
    pub id: Seq<char>,
    pub capture_class: EpisodeCaptureClass,
    pub event_kind: Seq<char>,
    pub source_event_ids: Seq<Seq<char>>,
}

impl DeepView for Episode {
    type V = Happening;

    open spec fn deep_view(&self) -> Happening {
        Happening {
            id: self.id@,
            capture_class: self.capture_class,
            event_kind: self.event_kind@,
            source_event_ids: self.source_event_ids.deep_view(),
        }
    }
}

impl Clone for Episode {
    fn clone(&self) -> (r: Self)
        ensures
            r.deep_view() == self.deep_view(),
    {
        Episode {
            id: self.id.clone(),
            capture_class: self.capture_class,
            event_kind: self.event_kind.clone(),
            source_event_ids: copy_texts(&self.source_event_ids),
        }
    }
}

/// A thing that research is about.
#[derive(Debug, PartialEq, Eq)]
pub struct ResearchEntity {
    pub id: String,
    pub kind: EntityKind,
    pub title: String,
    pub summary: String,
    pub lifecycle: Option<EntityLifecycle>,
    pub source_event_ids: Vec<String>,
}

/// What a [`ResearchEntity`] holds.
#[verifier::ext_equal]
pub struct Entity {
    pub id: Seq<char>,
    pub kind: EntityKind,
    pub title: Seq<char>,
    pub summary: Seq<char>,
    pub lifecycle: Option<EntityLifecycle>,
    pub source_event_ids: Seq<Seq<char>>,
}

impl DeepView for ResearchEntity {
    type V = Entity;

    open spec fn deep_view(&self) -> Entity {
        Entity {
            id: self.id@,
            kind: self.kind,
            title: self.title@,
            summary: self.summary@,
            lifecycle: self.lifecycle,
            source_event_ids: self.source_event_ids.deep_view(),
        }
    }
}

impl Clone for ResearchEntity {
    fn clone(&self) -> (r: Self)
        ensures
            r.deep_view() == self.deep_view(),
    {
        ResearchEntity {
            id: self.id.clone(),
            kind: self.kind,
            title: self.title.clone(),
            summary: self.summary.clone(),
            lifecycle: self.lifecycle,
            source_event_ids: copy_texts(&self.source_event_ids),
        }
    }
}

/// How an investigation stands, and what that rests on.
#[derive(Debug, PartialEq, Eq)]
pub struct ResearchOutcome {
    pub id: String,
    pub investigation_id: String,
    pub outcome: InvestigationOutcome,
    pub summary: String,
    pub supersedes_outcome_id: Option<String>,
    pub source_event_ids: Vec<String>,
}

/// What a [`ResearchOutcome`] holds.
#[verifier::ext_equal]
pub struct Outcome {
    pub id: Seq<char>,
    pub investigation_id: Seq<char>,
    pub outcome: InvestigationOutcome,
    pub summary: Seq<char>,
    pub supersedes_outcome_id: Option<Seq<char>>,
    pub source_event_ids: Seq<Seq<char>>,
}

impl DeepView for ResearchOutcome {
    type V = Outcome;

    open spec fn deep_view(&self) -> Outcome {
        Outcome {
            id: self.id@,
            investigation_id: self.investigation_id@,
            outcome: self.outcome,
            summary: self.summary@,
            supersedes_outcome_id: self.supersedes_outcome_id.deep_view(),
            source_event_ids: self.source_event_ids.deep_view(),
        }
    }
}

impl Clone for ResearchOutcome {
    fn clone(&self) -> (r: Self)
        ensures
            r.deep_view() == self.deep_view(),
    {
        ResearchOutcome {
            id: self.id.clone(),
            investigation_id: self.investigation_id.clone(),
            outcome: self.outcome,
            summary: self.summary.clone(),
            supersedes_outcome_id: self.supersedes_outcome_id.clone(),
            source_event_ids: copy_texts(&self.source_event_ids),
        }
    }
}

/// How two entities are related, and what that rests on.
#[derive(Debug, PartialEq, Eq)]
pub struct ResearchRelation {
    pub id: String,
    pub kind: RelationKind,
    pub from: String,
    pub to: String,
    pub summary: String,
    pub source_event_ids: Vec<String>,
}

/// What a [`ResearchRelation`] holds.
#[verifier::ext_equal]
pub struct Relation {
    pub id: Seq<char>,
    pub kind: RelationKind,
    pub from: Seq<char>,
    pub to: Seq<char>,
    pub summary: Seq<char>,
    pub source_event_ids: Seq<Seq<char>>,
}

impl DeepView for ResearchRelation {
    type V = Relation;

    open spec fn deep_view(&self) -> Relation {
        Relation {
            id: self.id@,
            kind: self.kind,
            from: self.from@,
            to: self.to@,
            summary: self.summary@,
            source_event_ids: self.source_event_ids.deep_view(),
        }
    }
}

impl Clone for ResearchRelation {
    fn clone(&self) -> (r: Self)
        ensures
            r.deep_view() == self.deep_view(),
    {
        ResearchRelation {
            id: self.id.clone(),
            kind: self.kind,
            from: self.from.clone(),
            to: self.to.clone(),
            summary: self.summary.clone(),
            source_event_ids: copy_texts(&self.source_event_ids),
        }
    }
}

/// What is held of a claim, and what that rests on.
#[derive(Debug, PartialEq, Eq)]
pub struct ResearchAssessment {
    pub id: String,
    pub claim_id: String,
    pub scope: String,
    pub verdict: AssessmentVerdict,
    pub standard: String,
    pub summary: String,
    pub supersedes_assessment_id: Option<String>,
    pub source_event_ids: Vec<String>,
}

/// What a [`ResearchAssessment`] holds.
#[verifier::ext_equal]
pub struct Assessment {
    pub id: Seq<char>,
    pub claim_id: Seq<char>,
    pub scope: Seq<char>,
    pub verdict: AssessmentVerdict,
    pub standard: Seq<char>,
    pub summary: Seq<char>,
    pub supersedes_assessment_id: Option<Seq<char>>,
    pub source_event_ids: Seq<Seq<char>>,
}

impl DeepView for ResearchAssessment {
    type V = Assessment;

    open spec fn deep_view(&self) -> Assessment {
        Assessment {
            id: self.id@,
            claim_id: self.claim_id@,
            scope: self.scope@,
            verdict: self.verdict,
            standard: self.standard@,
            summary: self.summary@,
            supersedes_assessment_id: self.supersedes_assessment_id.deep_view(),
            source_event_ids: self.source_event_ids.deep_view(),
        }
    }
}

impl Clone for ResearchAssessment {
    fn clone(&self) -> (r: Self)
        ensures
            r.deep_view() == self.deep_view(),
    {
        ResearchAssessment {
            id: self.id.clone(),
            claim_id: self.claim_id.clone(),
            scope: self.scope.clone(),
            verdict: self.verdict,
            standard: self.standard.clone(),
            summary: self.summary.clone(),
            supersedes_assessment_id: self.supersedes_assessment_id.clone(),
            source_event_ids: copy_texts(&self.source_event_ids),
        }
    }
}

/// Something that an observer can propose.
#[derive(Debug, PartialEq, Eq)]
pub enum SemanticRecord {
    Entity(ResearchEntity),
    InvestigationOutcome(ResearchOutcome),
    Relation(ResearchRelation),
    Assessment(ResearchAssessment),
}

/// What a [`SemanticRecord`] holds.
#[verifier::ext_equal]
pub enum Semantic {
    Entity(Entity),
    InvestigationOutcome(Outcome),
    Relation(Relation),
    Assessment(Assessment),
}

impl DeepView for SemanticRecord {
    type V = Semantic;

    open spec fn deep_view(&self) -> Semantic {
        match self {
            SemanticRecord::Entity(value) => Semantic::Entity(value.deep_view()),
            SemanticRecord::InvestigationOutcome(value) => Semantic::InvestigationOutcome(
                value.deep_view(),
            ),
            SemanticRecord::Relation(value) => Semantic::Relation(value.deep_view()),
            SemanticRecord::Assessment(value) => Semantic::Assessment(value.deep_view()),
        }
    }
}

impl Clone for SemanticRecord {
    fn clone(&self) -> (r: Self)
        ensures
            r.deep_view() == self.deep_view(),
    {
        match self {
            SemanticRecord::Entity(value) => SemanticRecord::Entity(value.clone()),
            SemanticRecord::InvestigationOutcome(value) => SemanticRecord::InvestigationOutcome(
                value.clone(),
            ),
            SemanticRecord::Relation(value) => SemanticRecord::Relation(value.clone()),
            SemanticRecord::Assessment(value) => SemanticRecord::Assessment(value.clone()),
        }
    }
}

impl Semantic {
    pub open spec fn id(self) -> Seq<char> {
        match self {
            Semantic::Entity(value) => value.id,
            Semantic::InvestigationOutcome(value) => value.id,
            Semantic::Relation(value) => value.id,
            Semantic::Assessment(value) => value.id,
        }
    }

    pub open spec fn sources(self) -> Seq<Seq<char>> {
        match self {
            Semantic::Entity(value) => value.source_event_ids,
            Semantic::InvestigationOutcome(value) => value.source_event_ids,
            Semantic::Relation(value) => value.source_event_ids,
            Semantic::Assessment(value) => value.source_event_ids,
        }
    }
}

impl SemanticRecord {
    pub fn id(&self) -> (r: &String)
        ensures
            r@ == self.deep_view().id(),
    {
        match self {
            SemanticRecord::Entity(value) => &value.id,
            SemanticRecord::InvestigationOutcome(value) => &value.id,
            SemanticRecord::Relation(value) => &value.id,
            SemanticRecord::Assessment(value) => &value.id,
        }
    }

    pub fn source_event_ids(&self) -> (r: &Vec<String>)
        ensures
            r.deep_view() == self.deep_view().sources(),
    {
        match self {
            SemanticRecord::Entity(value) => &value.source_event_ids,
            SemanticRecord::InvestigationOutcome(value) => &value.source_event_ids,
            SemanticRecord::Relation(value) => &value.source_event_ids,
            SemanticRecord::Assessment(value) => &value.source_event_ids,
        }
    }
}

/// An entry of the ledger: a proposal, or what was decided about one.
#[derive(Debug, PartialEq, Eq)]
pub enum LedgerEntry {
    Proposal { id: String, semantic: SemanticRecord },
    Decision {
        id: String,
        proposal_id: String,
        outcome: DecisionOutcome,
        policy: String,
        source_event_ids: Vec<String>,
    },
}

/// What a [`LedgerEntry`] holds.
#[verifier::ext_equal]
pub enum Entry {
    Proposal { id: Seq<char>, semantic: Semantic },
    Decision {
        id: Seq<char>,
        proposal_id: Seq<char>,
        outcome: DecisionOutcome,
        policy: Seq<char>,
        source_event_ids: Seq<Seq<char>>,
    },
}

impl DeepView for LedgerEntry {
    type V = Entry;

    open spec fn deep_view(&self) -> Entry {
        match self {
            LedgerEntry::Proposal { id, semantic } => Entry::Proposal {
                id: id@,
                semantic: semantic.deep_view(),
            },
            LedgerEntry::Decision { id, proposal_id, outcome, policy, source_event_ids } => {
                Entry::Decision {
                    id: id@,
                    proposal_id: proposal_id@,
                    outcome: *outcome,
                    policy: policy@,
                    source_event_ids: source_event_ids.deep_view(),
                }
            },
        }
    }
}

impl Clone for LedgerEntry {
    fn clone(&self) -> (r: Self)
        ensures
            r.deep_view() == self.deep_view(),
    {
        match self {
            LedgerEntry::Proposal { id, semantic } => LedgerEntry::Proposal {
                id: id.clone(),
                semantic: semantic.clone(),
            },
            LedgerEntry::Decision { id, proposal_id, outcome, policy, source_event_ids } => {
                LedgerEntry::Decision {
                    id: id.clone(),
                    proposal_id: proposal_id.clone(),
                    outcome: *outcome,
                    policy: policy.clone(),
                    source_event_ids: copy_texts(source_event_ids),
                }
            },
        }
    }
}

/// The durable record of what happened in a session, what was proposed about it and what was
/// accepted.
#[derive(Debug, PartialEq, Eq)]
pub struct ResearchRecord {
    pub schema: String,
    pub media_type: String,
    pub generated_at: String,
    pub session: RecordSession,
    pub construction: RecordConstruction,
    pub episodes: Vec<Episode>,
    pub ledger: Vec<LedgerEntry>,
}

/// What a [`ResearchRecord`] holds.
#[verifier::ext_equal]
pub struct Record {
    pub schema: Seq<char>,
    pub media_type: Seq<char>,
    pub generated_at: Seq<char>,
    pub session: Session,
    pub construction: Provenance,
    pub episodes: Seq<Happening>,
    pub ledger: Seq<Entry>,
}

impl DeepView for ResearchRecord {
    type V = Record;

    open spec fn deep_view(&self) -> Record {
        Record {
            schema: self.schema@,
            media_type: self.media_type@,
            generated_at: self.generated_at@,
            session: self.session.deep_view(),
            construction: self.construction.deep_view(),
            episodes: self.episodes.deep_view(),
            ledger: self.ledger.deep_view(),
        }
    }
}

fn copy_episodes(list: &Vec<Episode>) -> (r: Vec<Episode>)
    ensures
        r.deep_view() == list.deep_view(),
{
    let mut out: Vec<Episode> = Vec::new();
    let mut i: usize = 0;
    while i < list.len()
        invariant
            i <= list@.len(),
            out@.len() == i,
            forall|j: int| 0 <= j < i ==> (#[trigger] out@[j]).deep_view() == list@[j].deep_view(),
        decreases list@.len() - i,
    {
        out.push(list[i].clone());
        i += 1;
    }
    assert(out.deep_view() =~= list.deep_view());
    out
}

fn copy_ledger(list: &Vec<LedgerEntry>) -> (r: Vec<LedgerEntry>)
    ensures
        r.deep_view() == list.deep_view(),
{
    let mut out: Vec<LedgerEntry> = Vec::new();
    let mut i: usize = 0;
    while i < list.len()
        invariant
            i <= list@.len(),
            out@.len() == i,
            forall|j: int| 0 <= j < i ==> (#[trigger] out@[j]).deep_view() == list@[j].deep_view(),
        decreases list@.len() - i,
    {
        out.push(list[i].clone());
        i += 1;
    }
    assert(out.deep_view() =~= list.deep_view());
    out
}

impl Clone for ResearchRecord {
    fn clone(&self) -> (r: Self)
        ensures
            r.deep_view() == self.deep_view(),
    {
        ResearchRecord {
            schema: self.schema.clone(),
            media_type: self.media_type.clone(),
            generated_at: self.generated_at.clone(),
            session: self.session.clone(),
            construction: self.construction.clone(),
            episodes: copy_episodes(&self.episodes),
            ledger: copy_ledger(&self.ledger),
        }
    }
}

/// What an observer proposes.
#[derive(Debug, PartialEq, Eq)]
pub struct ObserverProposalBatch {
    pub schema: String,
    pub entities: Vec<ResearchEntity>,
    pub outcomes: Vec<ResearchOutcome>,
    pub relations: Vec<ResearchRelation>,
    pub assessments: Vec<ResearchAssessment>,
}

/// What an [`ObserverProposalBatch`] holds.
#[verifier::ext_equal]
pub struct Batch {
    pub schema: Seq<char>,
    pub entities: Seq<Entity>,
    pub outcomes: Seq<Outcome>,
    pub relations: Seq<Relation>,
    pub assessments: Seq<Assessment>,
}

impl DeepView for ObserverProposalBatch {
    type V = Batch;

    open spec fn deep_view(&self) -> Batch {
        Batch {
            schema: self.schema@,
            entities: self.entities.deep_view(),
            outcomes: self.outcomes.deep_view(),
            relations: self.relations.deep_view(),
            assessments: self.assessments.deep_view(),
        }
    }
}

/// What cites events.
pub trait Sourced: DeepView {
    /// The events that are cited.
    spec fn cited(value: Self::V) -> Seq<Seq<char>>;

    fn cited_events(&self) -> (r: &Vec<String>)
        ensures
            r.deep_view() == Self::cited(self.deep_view()),
    ;
}

impl Sourced for ResearchEntity {
    open spec fn cited(value: Entity) -> Seq<Seq<char>> {
        value.source_event_ids
    }

    fn cited_events(&self) -> (r: &Vec<String>) {
        &self.source_event_ids
    }
}

impl Sourced for ResearchOutcome {
    open spec fn cited(value: Outcome) -> Seq<Seq<char>> {
        value.source_event_ids
    }

    fn cited_events(&self) -> (r: &Vec<String>) {
        &self.source_event_ids
    }
}

impl Sourced for ResearchRelation {
    open spec fn cited(value: Relation) -> Seq<Seq<char>> {
        value.source_event_ids
    }

    fn cited_events(&self) -> (r: &Vec<String>) {
        &self.source_event_ids
    }
}

impl Sourced for ResearchAssessment {
    open spec fn cited(value: Assessment) -> Seq<Seq<char>> {
        value.source_event_ids
    }

    fn cited_events(&self) -> (r: &Vec<String>) {
        &self.source_event_ids
    }
}

/// Everything in a record is written by these names.
pub proof fn things_are_written_by_these_names()
    ensures
        RecordOperation::Capture.name() == "capture"@,
        RecordOperation::Reconcile.name() == "reconcile"@,
        EpisodeCaptureClass::Proposition.name() == "proposition"@,
        EpisodeCaptureClass::Execution.name() == "execution"@,
        EpisodeCaptureClass::Result.name() == "result"@,
        EpisodeCaptureClass::Artifact.name() == "artifact"@,
        EpisodeCaptureClass::Decision.name() == "decision"@,
        DecisionOutcome::Accepted.name() == "accepted"@,
        DecisionOutcome::Rejected.name() == "rejected"@,
        EntityKind::Question.name() == "question"@,
        EntityKind::Claim.name() == "claim"@,
        EntityKind::Investigation.name() == "investigation"@,
        EntityKind::Observation.name() == "observation"@,
        EntityKind::Artifact.name() == "artifact"@,
        EntityKind::Synthesis.name() == "synthesis"@,
        EntityLifecycle::Draft.name() == "draft"@,
        EntityLifecycle::Active.name() == "active"@,
        EntityLifecycle::Withdrawn.name() == "withdrawn"@,
        EntityLifecycle::Archived.name() == "archived"@,
        InvestigationOutcome::Active.name() == "active"@,
        InvestigationOutcome::Blocked.name() == "blocked"@,
        InvestigationOutcome::DeadEnd.name() == "dead_end"@,
        InvestigationOutcome::Completed.name() == "completed"@,
        InvestigationOutcome::Abandoned.name() == "abandoned"@,
        RelationKind::Investigates.name() == "investigates"@,
        RelationKind::Produces.name() == "produces"@,
        RelationKind::EvidenceFor.name() == "evidence_for"@,
        RelationKind::EvidenceAgainst.name() == "evidence_against"@,
        RelationKind::Repairs.name() == "repairs"@,
        RelationKind::ContinuesFrom.name() == "continues_from"@,
        RelationKind::PivotsFrom.name() == "pivots_from"@,
        RelationKind::Decomposes.name() == "decomposes"@,
        RelationKind::Addresses.name() == "addresses"@,
        RelationKind::Integrates.name() == "integrates"@,
        AssessmentVerdict::Supported.name() == "supported"@,
        AssessmentVerdict::Corroborated.name() == "corroborated"@,
        AssessmentVerdict::Proven.name() == "proven"@,
        AssessmentVerdict::Refuted.name() == "refuted"@,
        AssessmentVerdict::Inconclusive.name() == "inconclusive"@,
{
}

} // verus!
