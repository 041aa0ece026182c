//! The lines in which an accepted record is told to its observer.

use crate::research_record::forms::token_char;
use crate::research_record::types::{
    Assessment, AssessmentVerdict, Entity, EntityKind, EntityLifecycle, InvestigationOutcome,
    Outcome, Relation, RelationKind, ResearchAssessment, ResearchEntity, ResearchOutcome,
    ResearchRelation,
};
use crate::text::{compact, compacted, decimal, decimal_text, join2, join3, join5, join7};
use vstd::prelude::*;

verus! {

pub const MAX_KNOWN_ENTITIES: usize = 96;

pub const MAX_KNOWN_RELATIONS: usize = 128;

pub const MAX_KNOWN_ASSESSMENTS: usize = 64;

pub const MAX_CURRENT_INVESTIGATIONS: usize = 32;

pub const MAX_RECENT_SEMANTIC_IDS: usize = 24;

pub const MAX_RECENT_SEMANTIC_ID_BYTES: usize = 1536;

/// What the `Debug` form of a text is.
pub uninterp spec fn quoted(s: Seq<char>) -> Seq<char>;

/// Whether a text holds nothing but letters and digits of ASCII, hyphens and underscores.
pub open spec fn plain(s: Seq<char>) -> bool {
    forall|i: int| 0 <= i < s.len() ==> token_char(#[trigger] s[i])
}

/// The `Debug` form of a `str`: the text between quotation marks, with escapes. Letters and
/// digits of ASCII, hyphens and underscores are not escaped.
#[verifier::external_body]
fn quote(s: &str) -> (r: String)
    ensures
        r@ == quoted(s@),
        plain(s@) ==> r@ == seq!['"'] + s@ + seq!['"'],
{
    format!("{s:?}")
}

/// The `Debug` form of an optional text.
pub open spec fn quoted_option(s: Option<Seq<char>>) -> Seq<char> {
    match s {
        Some(s) => "Some("@ + quoted(s) + ")"@,
        None => "None"@,
    }
}

fn quote_option(s: &Option<String>) -> (r: String)
    ensures
        r@ == quoted_option(s.deep_view()),
{
    match s {
        Some(s) => join3("Some(", &quote(s), ")"),
        None => "None".to_owned(),
    }
}

/// The name of the variant of a kind of entity.
pub open spec fn kind_variant(kind: EntityKind) -> Seq<char> {
    match kind {
        EntityKind::Question => "Question"@,
        EntityKind::Claim => "Claim"@,
        EntityKind::Investigation => "Investigation"@,
        EntityKind::Observation => "Observation"@,
        EntityKind::Artifact => "Artifact"@,
        EntityKind::Synthesis => "Synthesis"@,
    }
}

fn name_kind(kind: EntityKind) -> (r: &'static str)
    ensures
        r@ == kind_variant(kind),
{
    match kind {
        EntityKind::Question => "Question",
        EntityKind::Claim => "Claim",
        EntityKind::Investigation => "Investigation",
        EntityKind::Observation => "Observation",
        EntityKind::Artifact => "Artifact",
        EntityKind::Synthesis => "Synthesis",
    }
}

/// The name of an optional state of life.
pub open spec fn lifecycle_variant(lifecycle: Option<EntityLifecycle>) -> Seq<char> {
    match lifecycle {
        None => "None"@,
        Some(EntityLifecycle::Draft) => "Some(Draft)"@,
        Some(EntityLifecycle::Active) => "Some(Active)"@,
        Some(EntityLifecycle::Withdrawn) => "Some(Withdrawn)"@,
        Some(EntityLifecycle::Archived) => "Some(Archived)"@,
    }
}

fn name_lifecycle(lifecycle: Option<EntityLifecycle>) -> (r: &'static str)
    ensures
        r@ == lifecycle_variant(lifecycle),
{
    match lifecycle {
        None => "None",
        Some(EntityLifecycle::Draft) => "Some(Draft)",
        Some(EntityLifecycle::Active) => "Some(Active)",
        Some(EntityLifecycle::Withdrawn) => "Some(Withdrawn)",
        Some(EntityLifecycle::Archived) => "Some(Archived)",
    }
}

/// The name of the variant of an outcome.
pub open spec fn outcome_variant(outcome: InvestigationOutcome) -> Seq<char> {
    match outcome {
        InvestigationOutcome::Active => "Active"@,
        InvestigationOutcome::Blocked => "Blocked"@,
        InvestigationOutcome::DeadEnd => "DeadEnd"@,
        InvestigationOutcome::Completed => "Completed"@,
        InvestigationOutcome::Abandoned => "Abandoned"@,
    }
}

fn name_outcome(outcome: InvestigationOutcome) -> (r: &'static str)
    ensures
        r@ == outcome_variant(outcome),
{
    match outcome {
        InvestigationOutcome::Active => "Active",
        InvestigationOutcome::Blocked => "Blocked",
        InvestigationOutcome::DeadEnd => "DeadEnd",
        InvestigationOutcome::Completed => "Completed",
        InvestigationOutcome::Abandoned => "Abandoned",
    }
}

/// The name of the variant of a kind of relation.
pub open spec fn relation_variant(kind: RelationKind) -> Seq<char> {
    match kind {
        RelationKind::Investigates => "Investigates"@,
        RelationKind::Produces => "Produces"@,
        RelationKind::EvidenceFor => "EvidenceFor"@,
        RelationKind::EvidenceAgainst => "EvidenceAgainst"@,
        RelationKind::Repairs => "Repairs"@,
        RelationKind::ContinuesFrom => "ContinuesFrom"@,
        RelationKind::PivotsFrom => "PivotsFrom"@,
        RelationKind::Decomposes => "Decomposes"@,
        RelationKind::Addresses => "Addresses"@,
        RelationKind::Integrates => "Integrates"@,
    }
}

fn name_relation(kind: RelationKind) -> (r: &'static str)
    ensures
        r@ == relation_variant(kind),
{
    match kind {
        RelationKind::Investigates => "Investigates",
        RelationKind::Produces => "Produces",
        RelationKind::EvidenceFor => "EvidenceFor",
        RelationKind::EvidenceAgainst => "EvidenceAgainst",
        RelationKind::Repairs => "Repairs",
        RelationKind::ContinuesFrom => "ContinuesFrom",
        RelationKind::PivotsFrom => "PivotsFrom",
        RelationKind::Decomposes => "Decomposes",
        RelationKind::Addresses => "Addresses",
        RelationKind::Integrates => "Integrates",
    }
}

/// The name of the variant of a verdict.
pub open spec fn verdict_variant(verdict: AssessmentVerdict) -> Seq<char> {
    match verdict {
        AssessmentVerdict::Supported => "Supported"@,
        AssessmentVerdict::Corroborated => "Corroborated"@,
        AssessmentVerdict::Proven => "Proven"@,
        AssessmentVerdict::Refuted => "Refuted"@,
        AssessmentVerdict::Inconclusive => "Inconclusive"@,
    }
}

fn name_verdict(verdict: AssessmentVerdict) -> (r: &'static str)
    ensures
        r@ == verdict_variant(verdict),
{
    match verdict {
        AssessmentVerdict::Supported => "Supported",
        AssessmentVerdict::Corroborated => "Corroborated",
        AssessmentVerdict::Proven => "Proven",
        AssessmentVerdict::Refuted => "Refuted",
        AssessmentVerdict::Inconclusive => "Inconclusive",
    }
}

/// The first and the last source, and how many lie between them.
pub open spec fn excerpt(sources: Seq<Seq<char>>) -> Seq<char> {
    if sources.len() == 0 {
        "-"@
    } else if sources.len() == 1 {
        sources[0]
    } else if sources.len() == 2 {
        sources[0] + ","@ + sources[1]
    } else {
        sources[0] + ","@ + sources.last() + " (+"@ + decimal((sources.len() - 2) as nat)
            + " more)"@
    }
}

fn source_excerpt(sources: &Vec<String>) -> (r: String)
    ensures
        r@ == excerpt(sources.deep_view()),
{
    let n = sources.len();
    let ghost all = sources.deep_view();
    assert(all.len() == n);
    if n == 0 {
        return "-".to_owned();
    }
    assert(all[0] == sources@[0]@);
    if n == 1 {
        return sources[0].clone();
    }
    let last: usize = n - 1;
    assert(all[last as int] == sources@[last as int]@);
    if n == 2 {
        return join3(&sources[0], ",", &sources[last]);
    }
    let between = decimal_text((n - 2) as u64);
    let start = join3(&sources[0], ",", &sources[last]);
    join2(&join3(&start, " (+", &between), " more)")
}

/// The line of an entity.
pub open spec fn entity_line(e: Entity) -> Seq<char> {
    "ENTITY id="@ + e.id + " kind="@ + kind_variant(e.kind) + " lifecycle="@ + lifecycle_variant(
        e.lifecycle,
    ) + " sources="@ + excerpt(e.source_event_ids) + " title="@ + compacted(e.title, 96)
}

fn render_entity(e: &ResearchEntity) -> (r: String)
    ensures
        r@ == entity_line(e.deep_view()),
{
    let start = join7(
        "ENTITY id=",
        &e.id,
        " kind=",
        name_kind(e.kind),
        " lifecycle=",
        name_lifecycle(e.lifecycle),
        " sources=",
    );
    let sources = source_excerpt(&e.source_event_ids);
    let title = compact(&e.title, 96);
    let line = join2(&join3(&start, &sources, " title="), &title);
    line
}

/// The line of an outcome.
pub open spec fn outcome_line(o: Outcome) -> Seq<char> {
    "OUTCOME id="@ + o.id + " investigation="@ + o.investigation_id + " outcome="@
        + outcome_variant(o.outcome) + " supersedes="@ + quoted_option(o.supersedes_outcome_id)
        + " sources="@ + excerpt(o.source_event_ids) + " summary="@ + compacted(o.summary, 80)
}

fn render_outcome(o: &ResearchOutcome) -> (r: String)
    ensures
        r@ == outcome_line(o.deep_view()),
{
    let start = join7(
        "OUTCOME id=",
        &o.id,
        " investigation=",
        &o.investigation_id,
        " outcome=",
        name_outcome(o.outcome),
        " supersedes=",
    );
    let supersedes = quote_option(&o.supersedes_outcome_id);
    let sources = source_excerpt(&o.source_event_ids);
    let summary = compact(&o.summary, 80);
    let middle = join5(&start, &supersedes, " sources=", &sources, " summary=");
    let line = join2(&middle, &summary);
    line
}

/// The line of a relation.
pub open spec fn relation_line(r: Relation) -> Seq<char> {
    "RELATION id="@ + r.id + " kind="@ + relation_variant(r.kind) + " from="@ + r.from + " to="@
        + r.to + " sources="@ + excerpt(r.source_event_ids)
}

fn render_relation(r: &ResearchRelation) -> (line: String)
    ensures
        line@ == relation_line(r.deep_view()),
{
    let start = join7("RELATION id=", &r.id, " kind=", name_relation(r.kind), " from=", &r.from, " to=");
    let sources = source_excerpt(&r.source_event_ids);
    let line = join2(&join3(&start, &r.to, " sources="), &sources);
    line
}

/// The line of an assessment.
pub open spec fn assessment_line(a: Assessment) -> Seq<char> {
    "ASSESSMENT id="@ + a.id + " claim="@ + a.claim_id + " verdict="@ + verdict_variant(a.verdict)
        + " scope="@ + compacted(a.scope, 100) + " supersedes="@ + quoted_option(
        a.supersedes_assessment_id,
    ) + " sources="@ + excerpt(a.source_event_ids)
}

fn render_assessment(a: &ResearchAssessment) -> (r: String)
    ensures
        r@ == assessment_line(a.deep_view()),
{
    let start = join7(
        "ASSESSMENT id=",
        &a.id,
        " claim=",
        &a.claim_id,
        " verdict=",
        name_verdict(a.verdict),
        " scope=",
    );
    let scope = compact(&a.scope, 100);
    let supersedes = quote_option(&a.supersedes_assessment_id);
    let sources = source_excerpt(&a.source_event_ids);
    let middle = join5(&start, &scope, " supersedes=", &supersedes, " sources=");
    let line = join2(&middle, &sources);
    line
}

/// Whether an entity is told first: a question or an investigation.
pub open spec fn core_kind(kind: EntityKind) -> bool {
    kind == EntityKind::Question || kind == EntityKind::Investigation
}

/// The lines of the entities among the first `n` that are told first, or of the others; no more
/// than so many.
pub open spec fn entity_lines(entities: Seq<(Seq<char>, Entity)>, core: bool, n: nat) -> Seq<
    Seq<char>,
>
    decreases n,
{
    if n == 0 {
        Seq::empty()
    } else {
        let rest = entity_lines(entities, core, (n - 1) as nat);
        let e = entities[n - 1].1;
        if core_kind(e.kind) == core && rest.len() < MAX_KNOWN_ENTITIES {
            rest.push(entity_line(e))
        } else {
            rest
        }
    }
}

pub fn entity_summary_lines(entities: &Vec<(String, ResearchEntity)>, core: bool) -> (r: Vec<String>)
    ensures
        r.deep_view() == entity_lines(entities.deep_view(), core, entities@.len()),
{
    let mut out: Vec<String> = Vec::new();
    let mut i: usize = 0;
    assert(out.deep_view() =~= Seq::empty());
    while i < entities.len()
        invariant
            i <= entities@.len(),
            out.deep_view() == entity_lines(entities.deep_view(), core, i as nat),
        decreases entities@.len() - i,
    {
        let e = &entities[i].1;
        assert(entities.deep_view()[i as int].1 == e.deep_view());
        assert(out.deep_view().len() == out@.len());
        let is_core = e.kind == EntityKind::Question || e.kind == EntityKind::Investigation;
        if is_core == core && out.len() < MAX_KNOWN_ENTITIES {
            let ghost was = out.deep_view();
            out.push(render_entity(e));
            assert(out.deep_view() =~= was.push(entity_line(e.deep_view())));
        }
        i += 1;
    }
    out
}

/// How many of so many things are told.
pub open spec fn told(count: nat, max: nat) -> nat {
    if count < max {
        count
    } else {
        max
    }
}

/// The lines of outcomes.
pub open spec fn outcome_lines(outcomes: Seq<(Seq<char>, Outcome)>) -> Seq<Seq<char>> {
    Seq::new(
        told(outcomes.len(), MAX_KNOWN_ENTITIES as nat),
        |i: int| outcome_line(outcomes[i].1),
    )
}

pub fn outcome_summary_lines(outcomes: &Vec<(String, ResearchOutcome)>) -> (r: Vec<String>)
    ensures
        r.deep_view() == outcome_lines(outcomes.deep_view()),
{
    let mut out: Vec<String> = Vec::new();
    let mut i: usize = 0;
    while i < outcomes.len() && i < MAX_KNOWN_ENTITIES
        invariant
            i <= outcomes@.len(),
            i <= MAX_KNOWN_ENTITIES,
            out@.len() == i,
            forall|j: int|
                0 <= j < i ==> (#[trigger] out@[j])@ == outcome_line(outcomes@[j].1.deep_view()),
        decreases outcomes@.len() - i,
    {
        out.push(render_outcome(&outcomes[i].1));
        i += 1;
    }
    assert(out.deep_view() =~= outcome_lines(outcomes.deep_view()));
    out
}

/// The lines of relations.
pub open spec fn relation_lines(relations: Seq<(Seq<char>, Relation)>) -> Seq<Seq<char>> {
    Seq::new(
        told(relations.len(), MAX_KNOWN_RELATIONS as nat),
        |i: int| relation_line(relations[i].1),
    )
}

pub fn relation_summary_lines(relations: &Vec<(String, ResearchRelation)>) -> (r: Vec<String>)
    ensures
        r.deep_view() == relation_lines(relations.deep_view()),
{
    let mut out: Vec<String> = Vec::new();
    let mut i: usize = 0;
    while i < relations.len() && i < MAX_KNOWN_RELATIONS
        invariant
            i <= relations@.len(),
            i <= MAX_KNOWN_RELATIONS,
            out@.len() == i,
            forall|j: int|
                0 <= j < i ==> (#[trigger] out@[j])@ == relation_line(relations@[j].1.deep_view()),
        decreases relations@.len() - i,
    {
        out.push(render_relation(&relations[i].1));
        i += 1;
    }
    assert(out.deep_view() =~= relation_lines(relations.deep_view()));
    out
}

/// The lines of assessments.
pub open spec fn assessment_lines(assessments: Seq<(Seq<char>, Assessment)>) -> Seq<Seq<char>> {
    Seq::new(
        told(assessments.len(), MAX_KNOWN_ASSESSMENTS as nat),
        |i: int| assessment_line(assessments[i].1),
    )
}

pub fn assessment_summary_lines(assessments: &Vec<(String, ResearchAssessment)>) -> (r: Vec<String>)
    ensures
        r.deep_view() == assessment_lines(assessments.deep_view()),
{
    let mut out: Vec<String> = Vec::new();
    let mut i: usize = 0;
    while i < assessments.len() && i < MAX_KNOWN_ASSESSMENTS
        invariant
            i <= assessments@.len(),
            i <= MAX_KNOWN_ASSESSMENTS,
            out@.len() == i,
            forall|j: int|
                0 <= j < i ==> (#[trigger] out@[j])@ == assessment_line(
                    assessments@[j].1.deep_view(),
                ),
        decreases assessments@.len() - i,
    {
        out.push(render_assessment(&assessments[i].1));
        i += 1;
    }
    assert(out.deep_view() =~= assessment_lines(assessments.deep_view()));
    out
}

/// What is known is told under these names.
pub proof fn things_are_told_by_their_names()
    ensures
        kind_variant(EntityKind::Question) == "Question"@,
        kind_variant(EntityKind::Claim) == "Claim"@,
        kind_variant(EntityKind::Investigation) == "Investigation"@,
        kind_variant(EntityKind::Observation) == "Observation"@,
        kind_variant(EntityKind::Artifact) == "Artifact"@,
        kind_variant(EntityKind::Synthesis) == "Synthesis"@,
        lifecycle_variant(None) == "None"@,
        lifecycle_variant(Some(EntityLifecycle::Draft)) == "Some(Draft)"@,
        lifecycle_variant(Some(EntityLifecycle::Active)) == "Some(Active)"@,
        lifecycle_variant(Some(EntityLifecycle::Withdrawn)) == "Some(Withdrawn)"@,
        lifecycle_variant(Some(EntityLifecycle::Archived)) == "Some(Archived)"@,
        outcome_variant(InvestigationOutcome::Active) == "Active"@,
        outcome_variant(InvestigationOutcome::Blocked) == "Blocked"@,
        outcome_variant(InvestigationOutcome::DeadEnd) == "DeadEnd"@,
        outcome_variant(InvestigationOutcome::Completed) == "Completed"@,
        outcome_variant(InvestigationOutcome::Abandoned) == "Abandoned"@,
        relation_variant(RelationKind::Investigates) == "Investigates"@,
        relation_variant(RelationKind::Produces) == "Produces"@,
        relation_variant(RelationKind::EvidenceFor) == "EvidenceFor"@,
        relation_variant(RelationKind::EvidenceAgainst) == "EvidenceAgainst"@,
        relation_variant(RelationKind::Repairs) == "Repairs"@,
        relation_variant(RelationKind::ContinuesFrom) == "ContinuesFrom"@,
        relation_variant(RelationKind::PivotsFrom) == "PivotsFrom"@,
        relation_variant(RelationKind::Decomposes) == "Decomposes"@,
        relation_variant(RelationKind::Addresses) == "Addresses"@,
        relation_variant(RelationKind::Integrates) == "Integrates"@,
        verdict_variant(AssessmentVerdict::Supported) == "Supported"@,
        verdict_variant(AssessmentVerdict::Corroborated) == "Corroborated"@,
        verdict_variant(AssessmentVerdict::Proven) == "Proven"@,
        verdict_variant(AssessmentVerdict::Refuted) == "Refuted"@,
        verdict_variant(AssessmentVerdict::Inconclusive) == "Inconclusive"@,
{
}

/// Each line names what it tells of, and by which events that is backed: one or two of them, or
/// the first and the last.
pub proof fn lines_name_what_they_tell_of(
    e: Entity,
    o: Outcome,
    r: Relation,
    a: Assessment,
    sources: Seq<Seq<char>>,
)
    ensures
        entity_line(e) == "ENTITY id="@ + e.id + " kind="@ + kind_variant(e.kind) + " lifecycle="@
            + lifecycle_variant(e.lifecycle) + " sources="@ + excerpt(e.source_event_ids)
            + " title="@ + compacted(e.title, 96),
        outcome_line(o) == "OUTCOME id="@ + o.id + " investigation="@ + o.investigation_id
            + " outcome="@ + outcome_variant(o.outcome) + " supersedes="@ + quoted_option(
            o.supersedes_outcome_id,
        ) + " sources="@ + excerpt(o.source_event_ids) + " summary="@ + compacted(o.summary, 80),
        relation_line(r) == "RELATION id="@ + r.id + " kind="@ + relation_variant(r.kind)
            + " from="@ + r.from + " to="@ + r.to + " sources="@ + excerpt(r.source_event_ids),
        assessment_line(a) == "ASSESSMENT id="@ + a.id + " claim="@ + a.claim_id + " verdict="@
            + verdict_variant(a.verdict) + " scope="@ + compacted(a.scope, 100) + " supersedes="@
            + quoted_option(a.supersedes_assessment_id) + " sources="@ + excerpt(
            a.source_event_ids,
        ),
        sources.len() == 0 ==> excerpt(sources) == "-"@,
        sources.len() == 1 ==> excerpt(sources) == sources[0],
        sources.len() == 2 ==> excerpt(sources) == sources[0] + ","@ + sources[1],
        sources.len() > 2 ==> excerpt(sources) == sources[0] + ","@ + sources[sources.len() - 1]
            + " (+"@ + decimal((sources.len() - 2) as nat) + " more)"@,
{
}

/// Each line of entities is of one of them: of a question or an investigation among the first,
/// and of none of these among the others. No more are told than may be.
pub proof fn entities_are_told_by_their_kind(
    entities: Seq<(Seq<char>, Entity)>,
    core: bool,
    n: nat,
    k: int,
)
    requires
        n <= entities.len(),
    ensures
        entity_lines(entities, core, n).len() <= 96,
        0 <= k < entity_lines(entities, core, n).len() ==> exists|i: int|
            0 <= i < n && entity_lines(entities, core, n)[k] == entity_line(
                (#[trigger] entities[i]).1,
            ) && core == (entities[i].1.kind == EntityKind::Question || entities[i].1.kind
                == EntityKind::Investigation),
    decreases n,
{
    if n > 0 {
        let m = (n - 1) as nat;
        entities_are_told_by_their_kind(entities, core, m, k);
        if 0 <= k < entity_lines(entities, core, n).len() {
            if k < entity_lines(entities, core, m).len() {
                let i = choose|i: int|
                    0 <= i < m && entity_lines(entities, core, m)[k] == entity_line(
                        (#[trigger] entities[i]).1,
                    ) && core == (entities[i].1.kind == EntityKind::Question || entities[i].1.kind
                        == EntityKind::Investigation);
                assert(entities[i] == entities[i]);
            } else {
                assert(entities[n - 1] == entities[n - 1]);
            }
        }
    }
}

/// Outcomes, relations and assessments are told one by one in their order, as many as may be.
pub proof fn the_rest_is_told_in_order(
    outcomes: Seq<(Seq<char>, Outcome)>,
    relations: Seq<(Seq<char>, Relation)>,
    assessments: Seq<(Seq<char>, Assessment)>,
    k: int,
)
    ensures
        outcome_lines(outcomes).len() == (if outcomes.len() < 96 {
            outcomes.len() as int
        } else {
            96
        }),
        relation_lines(relations).len() == (if relations.len() < 128 {
            relations.len() as int
        } else {
            128
        }),
        assessment_lines(assessments).len() == (if assessments.len() < 64 {
            assessments.len() as int
        } else {
            64
        }),
        0 <= k < outcome_lines(outcomes).len() ==> outcome_lines(outcomes)[k] == outcome_line(
            outcomes[k].1,
        ),
        0 <= k < relation_lines(relations).len() ==> relation_lines(relations)[k] == relation_line(
            relations[k].1,
        ),
        0 <= k < assessment_lines(assessments).len() ==> assessment_lines(assessments)[k]
            == assessment_line(assessments[k].1),
{
}

} // verus!
