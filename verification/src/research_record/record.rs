//! A research record as a whole: how it starts, its tree, its sources and its shape.

use super::forms::{
    event_id_form, id_form, sources_form, token_form, valid_event_id, valid_id, valid_source_ids,
    valid_token, MAX_ID_BYTES,
};
use super::ledger::{accepted_in, accepted_of, AcceptedRecord};
use super::types::{
    Assessment, Entity, Entry, Episode, Happening, LedgerEntry, Outcome, Provenance, Record,
    RecordConstruction, RecordOperation, RecordSession, Relation, ResearchAssessment,
    ResearchEntity, ResearchOutcome, ResearchRecord, ResearchRelation, Semantic, SemanticRecord,
    Session,
};
use crate::json::{json_text, optional_text, texts, write_json, Json, Tree};
use crate::schema::{RESEARCH_RECORD_MEDIA_TYPE, RESEARCH_RECORD_SCHEMA};
use crate::sdk::{answers, input_error, passes, ExtensionError};
use crate::table::{holds, in_order, put_in_order};
use crate::text::{byte_count, byte_len, same};
use vstd::prelude::*;

verus! {

/// The most bytes of the artifact of a record.
pub const MAX_RESEARCH_RECORD_ARTIFACT_BYTES: usize = 1048576;

/// A record before its first event.
pub open spec fn new_record(session: Seq<char>, watermark: Seq<char>, generated_at: Seq<char>) -> Record {
    Record {
        schema: RESEARCH_RECORD_SCHEMA@,
        media_type: RESEARCH_RECORD_MEDIA_TYPE@,
        generated_at,
        session: Session {
            id: session,
            provenance_watermark_event_id: watermark,
            observed_through_event_id: watermark,
        },
        construction: Provenance {
            operation: RecordOperation::Capture,
            predecessor_record_artifact_event_id: None,
            predecessor_record_watermark_event_id: None,
            proposal_source_event_ids: Seq::empty(),
            observer_result_event_id: None,
        },
        episodes: Seq::empty(),
        ledger: Seq::empty(),
    }
}

/// The tree of an entity.
pub open spec fn entity_tree(e: Entity) -> Tree {
    Tree::Object(
        seq![
            ("id"@, Tree::Text(e.id)),
            ("kind"@, Tree::Text(e.kind.name())),
            (
                "lifecycle"@,
                match e.lifecycle {
                    Some(lifecycle) => Tree::Text(lifecycle.name()),
                    None => Tree::Null,
                },
            ),
            ("source_event_ids"@, texts(e.source_event_ids)),
            ("summary"@, Tree::Text(e.summary)),
            ("title"@, Tree::Text(e.title)),
        ],
    )
}

/// The tree of an outcome.
pub open spec fn outcome_tree(o: Outcome) -> Tree {
    Tree::Object(
        seq![
            ("id"@, Tree::Text(o.id)),
            ("investigation_id"@, Tree::Text(o.investigation_id)),
            ("outcome"@, Tree::Text(o.outcome.name())),
            ("source_event_ids"@, texts(o.source_event_ids)),
            ("summary"@, Tree::Text(o.summary)),
            ("supersedes_outcome_id"@, optional_text(o.supersedes_outcome_id)),
        ],
    )
}

/// The tree of a relation.
pub open spec fn relation_tree(r: Relation) -> Tree {
    Tree::Object(
        seq![
            ("from"@, Tree::Text(r.from)),
            ("id"@, Tree::Text(r.id)),
            ("kind"@, Tree::Text(r.kind.name())),
            ("source_event_ids"@, texts(r.source_event_ids)),
            ("summary"@, Tree::Text(r.summary)),
            ("to"@, Tree::Text(r.to)),
        ],
    )
}

/// The tree of an assessment.
pub open spec fn assessment_tree(a: Assessment) -> Tree {
    Tree::Object(
        seq![
            ("claim_id"@, Tree::Text(a.claim_id)),
            ("id"@, Tree::Text(a.id)),
            ("scope"@, Tree::Text(a.scope)),
            ("source_event_ids"@, texts(a.source_event_ids)),
            ("standard"@, Tree::Text(a.standard)),
            ("summary"@, Tree::Text(a.summary)),
            ("supersedes_assessment_id"@, optional_text(a.supersedes_assessment_id)),
            ("verdict"@, Tree::Text(a.verdict.name())),
        ],
    )
}

/// The tree of something that was proposed.
pub open spec fn semantic_tree(s: Semantic) -> Tree {
    let (kind, value) = match s {
        Semantic::Entity(value) => ("entity"@, entity_tree(value)),
        Semantic::InvestigationOutcome(value) => ("investigation_outcome"@, outcome_tree(value)),
        Semantic::Relation(value) => ("relation"@, relation_tree(value)),
        Semantic::Assessment(value) => ("assessment"@, assessment_tree(value)),
    };
    Tree::Object(seq![("kind"@, Tree::Text(kind)), ("value"@, value)])
}

/// The tree of an entry of the ledger.
pub open spec fn entry_tree(e: Entry) -> Tree {
    match e {
        Entry::Proposal { id, semantic } => Tree::Object(
            seq![
                ("entry_kind"@, Tree::Text("proposal"@)),
                ("id"@, Tree::Text(id)),
                ("semantic"@, semantic_tree(semantic)),
            ],
        ),
        Entry::Decision { id, proposal_id, outcome, policy, source_event_ids } => Tree::Object(
            seq![
                ("entry_kind"@, Tree::Text("decision"@)),
                ("id"@, Tree::Text(id)),
                ("outcome"@, Tree::Text(outcome.name())),
                ("policy"@, Tree::Text(policy)),
                ("proposal_id"@, Tree::Text(proposal_id)),
                ("source_event_ids"@, texts(source_event_ids)),
            ],
        ),
    }
}

/// The tree of an episode.
pub open spec fn episode_tree(e: Happening) -> Tree {
    Tree::Object(
        seq![
            ("capture_class"@, Tree::Text(e.capture_class.name())),
            ("event_kind"@, Tree::Text(e.event_kind)),
            ("id"@, Tree::Text(e.id)),
            ("source_event_ids"@, texts(e.source_event_ids)),
        ],
    )
}

/// The tree of the session of a record.
pub open spec fn session_tree(s: Session) -> Tree {
    Tree::Object(
        seq![
            ("id"@, Tree::Text(s.id)),
            ("observed_through_event_id"@, Tree::Text(s.observed_through_event_id)),
            ("provenance_watermark_event_id"@, Tree::Text(s.provenance_watermark_event_id)),
        ],
    )
}

/// The tree of how a record was made.
pub open spec fn provenance_tree(p: Provenance) -> Tree {
    Tree::Object(
        seq![
            ("observer_result_event_id"@, optional_text(p.observer_result_event_id)),
            ("operation"@, Tree::Text(p.operation.name())),
            (
                "predecessor_record_artifact_event_id"@,
                optional_text(p.predecessor_record_artifact_event_id),
            ),
            (
                "predecessor_record_watermark_event_id"@,
                optional_text(p.predecessor_record_watermark_event_id),
            ),
            ("proposal_source_event_ids"@, texts(p.proposal_source_event_ids)),
        ],
    )
}

/// The tree of a record.
pub open spec fn record_tree(r: Record) -> Tree {
    Tree::Object(
        seq![
            ("construction"@, provenance_tree(r.construction)),
            (
                "episodes"@,
                Tree::List(Seq::new(r.episodes.len(), |i: int| episode_tree(r.episodes[i]))),
            ),
            ("generated_at"@, Tree::Text(r.generated_at)),
            (
                "ledger"@,
                Tree::List(Seq::new(r.ledger.len(), |i: int| entry_tree(r.ledger[i]))),
            ),
            ("media_type"@, Tree::Text(r.media_type)),
            ("schema"@, Tree::Text(r.schema)),
            ("session"@, session_tree(r.session)),
        ],
    )
}

fn entity_value(e: &ResearchEntity) -> (r: Json)
    ensures
        r@ == entity_tree(e.deep_view()),
{
    broadcast use crate::json::object_model;

    let lifecycle = match e.lifecycle {
        Some(lifecycle) => Json::of_text(lifecycle.as_str()),
        None => Json::Null,
    };
    let rows = vec![
        ("id".to_owned(), Json::of_text(&e.id)),
        ("kind".to_owned(), Json::of_text(e.kind.as_str())),
        ("lifecycle".to_owned(), lifecycle),
        ("source_event_ids".to_owned(), Json::of_texts(&e.source_event_ids)),
        ("summary".to_owned(), Json::of_text(&e.summary)),
        ("title".to_owned(), Json::of_text(&e.title)),
    ];
    assert(rows.deep_view() =~= entity_tree(e.deep_view())->Object_0);
    Json::Object(rows)
}

fn outcome_value(o: &ResearchOutcome) -> (r: Json)
    ensures
        r@ == outcome_tree(o.deep_view()),
{
    broadcast use crate::json::object_model;

    let rows = vec![
        ("id".to_owned(), Json::of_text(&o.id)),
        ("investigation_id".to_owned(), Json::of_text(&o.investigation_id)),
        ("outcome".to_owned(), Json::of_text(o.outcome.as_str())),
        ("source_event_ids".to_owned(), Json::of_texts(&o.source_event_ids)),
        ("summary".to_owned(), Json::of_text(&o.summary)),
        (
            "supersedes_outcome_id".to_owned(),
            Json::of_optional_text(&o.supersedes_outcome_id),
        ),
    ];
    assert(rows.deep_view() =~= outcome_tree(o.deep_view())->Object_0);
    Json::Object(rows)
}

fn relation_value(r: &ResearchRelation) -> (json: Json)
    ensures
        json@ == relation_tree(r.deep_view()),
{
    broadcast use crate::json::object_model;

    let rows = vec![
        ("from".to_owned(), Json::of_text(&r.from)),
        ("id".to_owned(), Json::of_text(&r.id)),
        ("kind".to_owned(), Json::of_text(r.kind.as_str())),
        ("source_event_ids".to_owned(), Json::of_texts(&r.source_event_ids)),
        ("summary".to_owned(), Json::of_text(&r.summary)),
        ("to".to_owned(), Json::of_text(&r.to)),
    ];
    assert(rows.deep_view() =~= relation_tree(r.deep_view())->Object_0);
    Json::Object(rows)
}

fn assessment_value(a: &ResearchAssessment) -> (r: Json)
    ensures
        r@ == assessment_tree(a.deep_view()),
{
    broadcast use crate::json::object_model;

    let rows = vec![
        ("claim_id".to_owned(), Json::of_text(&a.claim_id)),
        ("id".to_owned(), Json::of_text(&a.id)),
        ("scope".to_owned(), Json::of_text(&a.scope)),
        ("source_event_ids".to_owned(), Json::of_texts(&a.source_event_ids)),
        ("standard".to_owned(), Json::of_text(&a.standard)),
        ("summary".to_owned(), Json::of_text(&a.summary)),
        (
            "supersedes_assessment_id".to_owned(),
            Json::of_optional_text(&a.supersedes_assessment_id),
        ),
        ("verdict".to_owned(), Json::of_text(a.verdict.as_str())),
    ];
    assert(rows.deep_view() =~= assessment_tree(a.deep_view())->Object_0);
    Json::Object(rows)
}

fn semantic_value(s: &SemanticRecord) -> (r: Json)
    ensures
        r@ == semantic_tree(s.deep_view()),
{
    broadcast use crate::json::object_model;

    let (kind, value) = match s {
        SemanticRecord::Entity(value) => ("entity", entity_value(value)),
        SemanticRecord::InvestigationOutcome(value) => (
            "investigation_outcome",
            outcome_value(value),
        ),
        SemanticRecord::Relation(value) => ("relation", relation_value(value)),
        SemanticRecord::Assessment(value) => ("assessment", assessment_value(value)),
    };
    let rows = vec![("kind".to_owned(), Json::of_text(kind)), ("value".to_owned(), value)];
    assert(rows.deep_view() =~= semantic_tree(s.deep_view())->Object_0);
    Json::Object(rows)
}

fn entry_value(e: &LedgerEntry) -> (r: Json)
    ensures
        r@ == entry_tree(e.deep_view()),
{
    broadcast use crate::json::object_model;

    let rows = match e {
        LedgerEntry::Proposal { id, semantic } => vec![
            ("entry_kind".to_owned(), Json::of_text("proposal")),
            ("id".to_owned(), Json::of_text(id)),
            ("semantic".to_owned(), semantic_value(semantic)),
        ],
        LedgerEntry::Decision { id, proposal_id, outcome, policy, source_event_ids } => vec![
            ("entry_kind".to_owned(), Json::of_text("decision")),
            ("id".to_owned(), Json::of_text(id)),
            ("outcome".to_owned(), Json::of_text(outcome.as_str())),
            ("policy".to_owned(), Json::of_text(policy)),
            ("proposal_id".to_owned(), Json::of_text(proposal_id)),
            ("source_event_ids".to_owned(), Json::of_texts(source_event_ids)),
        ],
    };
    assert(rows.deep_view() =~= entry_tree(e.deep_view())->Object_0);
    Json::Object(rows)
}

fn episode_value(e: &Episode) -> (r: Json)
    ensures
        r@ == episode_tree(e.deep_view()),
{
    broadcast use crate::json::object_model;

    let rows = vec![
        ("capture_class".to_owned(), Json::of_text(e.capture_class.as_str())),
        ("event_kind".to_owned(), Json::of_text(&e.event_kind)),
        ("id".to_owned(), Json::of_text(&e.id)),
        ("source_event_ids".to_owned(), Json::of_texts(&e.source_event_ids)),
    ];
    assert(rows.deep_view() =~= episode_tree(e.deep_view())->Object_0);
    Json::Object(rows)
}

fn session_value(s: &RecordSession) -> (r: Json)
    ensures
        r@ == session_tree(s.deep_view()),
{
    broadcast use crate::json::object_model;

    let rows = vec![
        ("id".to_owned(), Json::of_text(&s.id)),
        ("observed_through_event_id".to_owned(), Json::of_text(&s.observed_through_event_id)),
        (
            "provenance_watermark_event_id".to_owned(),
            Json::of_text(&s.provenance_watermark_event_id),
        ),
    ];
    assert(rows.deep_view() =~= session_tree(s.deep_view())->Object_0);
    Json::Object(rows)
}

fn provenance_value(p: &RecordConstruction) -> (r: Json)
    ensures
        r@ == provenance_tree(p.deep_view()),
{
    broadcast use crate::json::object_model;

    let rows = vec![
        (
            "observer_result_event_id".to_owned(),
            Json::of_optional_text(&p.observer_result_event_id),
        ),
        ("operation".to_owned(), Json::of_text(p.operation.as_str())),
        (
            "predecessor_record_artifact_event_id".to_owned(),
            Json::of_optional_text(&p.predecessor_record_artifact_event_id),
        ),
        (
            "predecessor_record_watermark_event_id".to_owned(),
            Json::of_optional_text(&p.predecessor_record_watermark_event_id),
        ),
        ("proposal_source_event_ids".to_owned(), Json::of_texts(&p.proposal_source_event_ids)),
    ];
    assert(rows.deep_view() =~= provenance_tree(p.deep_view())->Object_0);
    Json::Object(rows)
}

/// The names behind each other.
pub open spec fn episode_sources(episodes: Seq<Happening>, n: nat) -> Seq<Seq<char>>
    decreases n,
{
    if n == 0 {
        Seq::empty()
    } else {
        episode_sources(episodes, (n - 1) as nat) + episodes[n - 1].source_event_ids
    }
}

/// The sources that an entry of the ledger names.
pub open spec fn entry_sources(e: Entry) -> Seq<Seq<char>> {
    match e {
        Entry::Proposal { id: _, semantic } => semantic.sources(),
        Entry::Decision { id: _, proposal_id: _, outcome: _, policy: _, source_event_ids } => {
            source_event_ids
        },
    }
}

/// The sources that the first `n` entries of a ledger name.
pub open spec fn ledger_sources(ledger: Seq<Entry>, n: nat) -> Seq<Seq<char>>
    decreases n,
{
    if n == 0 {
        Seq::empty()
    } else {
        ledger_sources(ledger, (n - 1) as nat) + entry_sources(ledger[n - 1])
    }
}

/// The sources that a record names, as they stand in it.
pub open spec fn named_sources(r: Record) -> Seq<Seq<char>> {
    episode_sources(r.episodes, r.episodes.len()) + ledger_sources(r.ledger, r.ledger.len())
}

/// A name, if there is one.
pub open spec fn maybe(name: Option<Seq<char>>) -> Seq<Seq<char>> {
    match name {
        Some(name) => seq![name],
        None => Seq::empty(),
    }
}

/// The sources of the artifact of a record, as they stand in it.
pub open spec fn named_artifact_sources(r: Record) -> Seq<Seq<char>> {
    named_sources(r) + r.construction.proposal_source_event_ids + maybe(
        r.construction.predecessor_record_artifact_event_id,
    ) + maybe(r.construction.observer_result_event_id)
}

pub fn append_texts(out: &mut Vec<String>, more: &Vec<String>)
    ensures
        final(out).deep_view() == old(out).deep_view() + more.deep_view(),
{
    let ghost was = out.deep_view();
    let ghost all = more.deep_view();
    let mut i: usize = 0;
    assert(was + all.take(0) =~= was);
    while i < more.len()
        invariant
            i <= more@.len(),
            all == more.deep_view(),
            out.deep_view() == was + all.take(i as int),
        decreases more@.len() - i,
    {
        let ghost prior = out.deep_view();
        out.push(more[i].clone());
        assert(out.deep_view() =~= prior.push(all[i as int]));
        assert(all.take(i + 1) =~= all.take(i as int).push(all[i as int]));
        assert(out.deep_view() =~= was + all.take(i + 1));
        i += 1;
    }
    assert(all.take(all.len() as int) =~= all);
}

fn append_some(out: &mut Vec<String>, more: &Option<String>)
    ensures
        final(out).deep_view() == old(out).deep_view() + maybe(more.deep_view()),
{
    let ghost was = out.deep_view();
    if let Some(name) = more {
        out.push(name.clone());
        assert(out.deep_view() =~= was + seq![name@]);
    } else {
        assert(was + Seq::<Seq<char>>::empty() =~= was);
    }
}

/// The sources that the episodes name.
pub fn list_episode_sources(episodes: &Vec<Episode>) -> (r: Vec<String>)
    ensures
        r.deep_view() == episode_sources(episodes.deep_view(), episodes@.len()),
{
    let mut out: Vec<String> = Vec::new();
    let mut i: usize = 0;
    assert(out.deep_view() =~= Seq::empty());
    while i < episodes.len()
        invariant
            i <= episodes@.len(),
            out.deep_view() == episode_sources(episodes.deep_view(), i as nat),
        decreases episodes@.len() - i,
    {
        assert(episodes.deep_view()[i as int] == episodes@[i as int].deep_view());
        append_texts(&mut out, &episodes[i].source_event_ids);
        i += 1;
    }
    out
}

fn list_ledger_sources(ledger: &Vec<LedgerEntry>) -> (r: Vec<String>)
    ensures
        r.deep_view() == ledger_sources(ledger.deep_view(), ledger@.len()),
{
    let mut out: Vec<String> = Vec::new();
    let mut i: usize = 0;
    assert(out.deep_view() =~= Seq::empty());
    while i < ledger.len()
        invariant
            i <= ledger@.len(),
            out.deep_view() == ledger_sources(ledger.deep_view(), i as nat),
        decreases ledger@.len() - i,
    {
        assert(ledger.deep_view()[i as int] == ledger@[i as int].deep_view());
        match &ledger[i] {
            LedgerEntry::Proposal { id: _, semantic } => {
                append_texts(&mut out, semantic.source_event_ids());
            },
            LedgerEntry::Decision {
                id: _,
                proposal_id: _,
                outcome: _,
                policy: _,
                source_event_ids,
            } => {
                append_texts(&mut out, source_event_ids);
            },
        }
        i += 1;
    }
    out
}

/// What is wrong with how a record was made.
pub open spec fn construction_fault(p: Provenance) -> Option<Seq<char>> {
    if !sources_form(p.proposal_source_event_ids) || (p.observer_result_event_id is Some
        && !event_id_form(p.observer_result_event_id->0)) {
        Some("research-record construction is invalid"@)
    } else {
        let artifact = p.predecessor_record_artifact_event_id;
        let watermark = p.predecessor_record_watermark_event_id;
        let sound = match p.operation {
            RecordOperation::Capture => artifact is None && watermark is None,
            RecordOperation::Reconcile => artifact is Some && event_id_form(artifact->0)
                && watermark is Some && event_id_form(watermark->0),
        };
        if sound {
            None
        } else {
            Some("research-record construction lineage is invalid"@)
        }
    }
}

fn is_event_id(id: &Option<String>) -> (r: bool)
    ensures
        r == (id.deep_view() is Some && event_id_form(id.deep_view()->0)),
{
    match id {
        Some(id) => valid_event_id(id),
        None => false,
    }
}

fn validate_construction(p: &RecordConstruction) -> (r: Result<(), ExtensionError>)
    ensures
        passes(r, construction_fault(p.deep_view())),
{
    if !valid_source_ids(&p.proposal_source_event_ids) || (p.observer_result_event_id.is_some()
        && !is_event_id(&p.observer_result_event_id)) {
        return Err(input_error("research-record construction is invalid"));
    }
    let sound = match p.operation {
        RecordOperation::Capture => p.predecessor_record_artifact_event_id.is_none()
            && p.predecessor_record_watermark_event_id.is_none(),
        RecordOperation::Reconcile => is_event_id(&p.predecessor_record_artifact_event_id)
            && is_event_id(&p.predecessor_record_watermark_event_id),
    };
    if sound {
        Ok(())
    } else {
        Err(input_error("research-record construction lineage is invalid"))
    }
}

/// Whether an episode is in order, but for its sources being its own.
pub open spec fn episode_form(e: Happening) -> bool {
    id_form(e.id) && e.event_kind.len() > 0 && sources_form(e.source_event_ids)
}

/// Whether one of the names from position `k` on is among names that were seen, these included.
pub open spec fn names_again(names: Seq<Seq<char>>, seen: Seq<Seq<char>>, k: nat) -> bool
    decreases names.len() - k,
{
    if k >= names.len() {
        false
    } else {
        seen.contains(names[k as int]) || names_again(names, seen.push(names[k as int]), k + 1)
    }
}

/// What is wrong with the episodes from position `i` on.
pub open spec fn episodes_fault(
    episodes: Seq<Happening>,
    i: nat,
    ids: Seq<Seq<char>>,
    sources: Seq<Seq<char>>,
) -> Option<Seq<char>>
    decreases episodes.len() - i,
{
    if i >= episodes.len() {
        None
    } else {
        let e = episodes[i as int];
        if !episode_form(e) || ids.contains(e.id) {
            Some("research-record episode is invalid"@)
        } else if names_again(e.source_event_ids, sources, 0) {
            Some("research-record event belongs to more than one factual episode"@)
        } else {
            episodes_fault(episodes, i + 1, ids.push(e.id), sources + e.source_event_ids)
        }
    }
}

fn names_one_again(names: &Vec<String>, seen: &Vec<String>) -> (r: bool)
    ensures
        r == names_again(names.deep_view(), seen.deep_view(), 0),
{
    let ghost all = names.deep_view();
    let mut known = crate::table::copy_texts(seen);
    let mut k: usize = 0;
    while k < names.len()
        invariant
            k <= names@.len(),
            all == names.deep_view(),
            names_again(all, seen.deep_view(), 0) == names_again(
                all,
                known.deep_view(),
                k as nat,
            ),
        decreases names@.len() - k,
    {
        assert(all[k as int] == names@[k as int]@);
        if holds(&known, &names[k]) {
            return true;
        }
        let ghost was = known.deep_view();
        known.push(names[k].clone());
        assert(known.deep_view() =~= was.push(all[k as int]));
        k += 1;
    }
    false
}

fn validate_episodes(episodes: &Vec<Episode>) -> (r: Result<(), ExtensionError>)
    ensures
        passes(r, episodes_fault(episodes.deep_view(), 0, Seq::empty(), Seq::empty())),
{
    let mut ids: Vec<String> = Vec::new();
    let mut sources: Vec<String> = Vec::new();
    let mut i: usize = 0;
    assert(ids.deep_view() =~= Seq::empty());
    assert(sources.deep_view() =~= Seq::empty());
    while i < episodes.len()
        invariant
            i <= episodes@.len(),
            episodes_fault(episodes.deep_view(), 0, Seq::empty(), Seq::empty())
                == episodes_fault(
                episodes.deep_view(),
                i as nat,
                ids.deep_view(),
                sources.deep_view(),
            ),
        decreases episodes@.len() - i,
    {
        let e = &episodes[i];
        assert(episodes.deep_view()[i as int] == e.deep_view());
        if !valid_id(&e.id) || e.event_kind.as_str().is_empty() || !valid_source_ids(
            &e.source_event_ids,
        ) || holds(&ids, &e.id) {
            return Err(input_error("research-record episode is invalid"));
        }
        if names_one_again(&e.source_event_ids, &sources) {
            return Err(
                input_error("research-record event belongs to more than one factual episode"),
            );
        }
        let ghost was = ids.deep_view();
        ids.push(e.id.clone());
        assert(ids.deep_view() =~= was.push(e.id@));
        append_texts(&mut sources, &e.source_event_ids);
        i += 1;
    }
    Ok(())
}

/// What is wrong with the shape of a record whose artifact has so many bytes.
pub open spec fn shape_fault(r: Record, bytes: nat) -> Option<Seq<char>> {
    if r.schema != RESEARCH_RECORD_SCHEMA@ || r.media_type != RESEARCH_RECORD_MEDIA_TYPE@ {
        Some("research-record schema or media type is unsupported"@)
    } else if !token_form(r.session.id, MAX_ID_BYTES as nat) || !event_id_form(
        r.session.provenance_watermark_event_id,
    ) || !event_id_form(r.session.observed_through_event_id) || r.generated_at.len() == 0 {
        Some("research-record session header is invalid"@)
    } else {
        match construction_fault(r.construction) {
            Some(e) => Some(e),
            None => match episodes_fault(r.episodes, 0, Seq::empty(), Seq::empty()) {
                Some(e) => Some(e),
                None => if bytes > MAX_RESEARCH_RECORD_ARTIFACT_BYTES {
                    Some("research-record exceeds the artifact size limit"@)
                } else {
                    None
                },
            },
        }
    }
}

/// The text of a record as an artifact.
pub open spec fn record_text(r: Record) -> Seq<char> {
    json_text(record_tree(r)).push('\n')
}

impl ResearchRecord {
    pub fn new(session_id: &str, watermark_event_id: &str, generated_at: &str) -> (r: Self)
        ensures
            r.deep_view() == new_record(session_id@, watermark_event_id@, generated_at@),
    {
        let r = ResearchRecord {
            schema: RESEARCH_RECORD_SCHEMA.to_owned(),
            media_type: RESEARCH_RECORD_MEDIA_TYPE.to_owned(),
            generated_at: generated_at.to_owned(),
            session: RecordSession {
                id: session_id.to_owned(),
                provenance_watermark_event_id: watermark_event_id.to_owned(),
                observed_through_event_id: watermark_event_id.to_owned(),
            },
            construction: RecordConstruction {
                operation: RecordOperation::Capture,
                predecessor_record_artifact_event_id: None,
                predecessor_record_watermark_event_id: None,
                proposal_source_event_ids: Vec::new(),
                observer_result_event_id: None,
            },
            episodes: Vec::new(),
            ledger: Vec::new(),
        };
        assert(r.deep_view() =~= new_record(session_id@, watermark_event_id@, generated_at@));
        r
    }

    /// The tree of the record.
    pub fn value(&self) -> (r: Json)
        ensures
            r@ == record_tree(self.deep_view()),
    {
        broadcast use {crate::json::object_model, crate::json::list_model};

        let mut episodes: Vec<Json> = Vec::new();
        let mut i: usize = 0;
        while i < self.episodes.len()
            invariant
                i <= self.episodes@.len(),
                episodes@.len() == i,
                forall|j: int|
                    0 <= j < i ==> (#[trigger] episodes@[j])@ == episode_tree(
                        self.episodes@[j].deep_view(),
                    ),
            decreases self.episodes@.len() - i,
        {
            episodes.push(episode_value(&self.episodes[i]));
            i += 1;
        }
        let mut ledger: Vec<Json> = Vec::new();
        let mut k: usize = 0;
        while k < self.ledger.len()
            invariant
                k <= self.ledger@.len(),
                ledger@.len() == k,
                forall|j: int|
                    0 <= j < k ==> (#[trigger] ledger@[j])@ == entry_tree(
                        self.ledger@[j].deep_view(),
                    ),
            decreases self.ledger@.len() - k,
        {
            ledger.push(entry_value(&self.ledger[k]));
            k += 1;
        }
        let ghost model = self.deep_view();
        assert(episodes.deep_view() =~= Seq::new(
            model.episodes.len(),
            |i: int| episode_tree(model.episodes[i]),
        ));
        assert(ledger.deep_view() =~= Seq::new(
            model.ledger.len(),
            |i: int| entry_tree(model.ledger[i]),
        ));
        let rows = vec![
            ("construction".to_owned(), provenance_value(&self.construction)),
            ("episodes".to_owned(), Json::List(episodes)),
            ("generated_at".to_owned(), Json::of_text(&self.generated_at)),
            ("ledger".to_owned(), Json::List(ledger)),
            ("media_type".to_owned(), Json::of_text(&self.media_type)),
            ("schema".to_owned(), Json::of_text(&self.schema)),
            ("session".to_owned(), session_value(&self.session)),
        ];
        assert(rows.deep_view() =~= record_tree(model)->Object_0);
        Json::Object(rows)
    }

    /// The text of the record as an artifact.
    pub fn artifact_text(&self) -> (r: String)
        ensures
            r@ == record_text(self.deep_view()),
    {
        let mut text = write_json(&self.value());
        text.push('\n');
        text
    }

    pub fn accepted(&self) -> (r: Result<AcceptedRecord, ExtensionError>)
        ensures
            answers(r, accepted_of(self.deep_view().ledger)),
    {
        accepted_in(&self.ledger)
    }

    fn list_sources(&self) -> (r: Vec<String>)
        ensures
            r.deep_view() == named_sources(self.deep_view()),
    {
        let mut out = list_episode_sources(&self.episodes);
        append_texts(&mut out, &list_ledger_sources(&self.ledger));
        assert(self.deep_view().episodes.len() == self.episodes@.len());
        assert(self.deep_view().ledger.len() == self.ledger@.len());
        out
    }

    /// The sources that the record names, in ascending order.
    pub fn source_event_ids(&self) -> (r: Vec<String>)
        ensures
            r.deep_view() == in_order(named_sources(self.deep_view())),
    {
        put_in_order(&self.list_sources())
    }

    /// The sources of the artifact of the record, in ascending order.
    pub fn artifact_source_event_ids(&self) -> (r: Vec<String>)
        ensures
            r.deep_view() == in_order(named_artifact_sources(self.deep_view())),
    {
        let mut out = self.list_sources();
        append_texts(&mut out, &self.construction.proposal_source_event_ids);
        append_some(&mut out, &self.construction.predecessor_record_artifact_event_id);
        append_some(&mut out, &self.construction.observer_result_event_id);
        put_in_order(&out)
    }

    /// Checks the shape of the record, whose artifact has so many bytes.
    pub fn check_shape(&self, bytes: usize) -> (r: Result<(), ExtensionError>)
        ensures
            passes(r, shape_fault(self.deep_view(), bytes as nat)),
    {
        if !same(&self.schema, RESEARCH_RECORD_SCHEMA) || !same(
            &self.media_type,
            RESEARCH_RECORD_MEDIA_TYPE,
        ) {
            return Err(input_error("research-record schema or media type is unsupported"));
        }
        if !valid_token(&self.session.id) || !valid_event_id(
            &self.session.provenance_watermark_event_id,
        ) || !valid_event_id(&self.session.observed_through_event_id)
            || self.generated_at.as_str().is_empty() {
            return Err(input_error("research-record session header is invalid"));
        }
        validate_construction(&self.construction)?;
        validate_episodes(&self.episodes)?;
        if bytes > MAX_RESEARCH_RECORD_ARTIFACT_BYTES {
            return Err(input_error("research-record exceeds the artifact size limit"));
        }
        Ok(())
    }

    pub fn validate_shape(&self) -> (r: Result<(), ExtensionError>)
        ensures
            passes(r, shape_fault(self.deep_view(), byte_len(record_text(self.deep_view())))),
    {
        self.check_shape(byte_count(&self.artifact_text()))
    }
}

/// A record that is to be used: what it accepted, once its shape is in order.
pub open spec fn sound_record(r: Record) -> Result<super::ledger::Accepted, Seq<char>> {
    match shape_fault(r, byte_len(record_text(r))) {
        Some(e) => Err(e),
        None => accepted_of(r.ledger),
    }
}

impl ResearchRecord {
    /// What the record accepted, once its shape is in order.
    pub fn check(&self) -> (r: Result<AcceptedRecord, ExtensionError>)
        ensures
            answers(r, sound_record(self.deep_view())),
    {
        self.validate_shape()?;
        self.accepted()
    }
}

/// An entity is written whole.
pub proof fn entities_are_written_whole(e: Entity)
    ensures
        ({
            let t = entity_tree(e);
            &&& t.at("id"@) == Tree::Text(e.id)
            &&& t.at("kind"@) == Tree::Text(e.kind.name())
            &&& t.at("source_event_ids"@) == texts(e.source_event_ids)
            &&& t.at("summary"@) == Tree::Text(e.summary)
            &&& t.at("title"@) == Tree::Text(e.title)
            &&& t.at("lifecycle"@) == (if e.lifecycle is Some { Tree::Text(e.lifecycle->0.name()) } else { Tree::Null })
        }),
{
    let o = entity_tree(e)->Object_0;
    reveal_strlit("id");
    reveal_strlit("kind");
    reveal_strlit("lifecycle");
    reveal_strlit("source_event_ids");
    reveal_strlit("summary");
    reveal_strlit("title");
    crate::table::lemma_first_row(o, "id"@, 0);
    assert(o[0].0.len() == 2 && "kind"@.len() == 4);
    crate::table::lemma_first_row(o, "kind"@, 1);
    assert(o[0].0.len() == 2 && o[1].0.len() == 4 && "lifecycle"@.len() == 9);
    crate::table::lemma_first_row(o, "lifecycle"@, 2);
    assert(o[0].0.len() == 2 && o[1].0.len() == 4 && o[2].0.len() == 9 && "source_event_ids"@.len() == 16);
    crate::table::lemma_first_row(o, "source_event_ids"@, 3);
    assert(o[0].0.len() == 2 && o[1].0.len() == 4 && o[2].0.len() == 9 && o[3].0.len() == 16 && "summary"@.len() == 7);
    crate::table::lemma_first_row(o, "summary"@, 4);
    assert(o[0].0.len() == 2 && o[1].0.len() == 4 && o[2].0.len() == 9 && o[3].0.len() == 16 && o[4].0.len() == 7 && "title"@.len() == 5);
    crate::table::lemma_first_row(o, "title"@, 5);
}

/// An outcome is written whole.
pub proof fn outcomes_are_written_whole(x: Outcome)
    ensures
        ({
            let t = outcome_tree(x);
            &&& t.at("id"@) == Tree::Text(x.id)
            &&& t.at("investigation_id"@) == Tree::Text(x.investigation_id)
            &&& t.at("outcome"@) == Tree::Text(x.outcome.name())
            &&& t.at("source_event_ids"@) == texts(x.source_event_ids)
            &&& t.at("summary"@) == Tree::Text(x.summary)
            &&& t.at("supersedes_outcome_id"@) == optional_text(x.supersedes_outcome_id)
        }),
{
    let o = outcome_tree(x)->Object_0;
    reveal_strlit("id");
    reveal_strlit("investigation_id");
    reveal_strlit("outcome");
    reveal_strlit("source_event_ids");
    reveal_strlit("summary");
    reveal_strlit("supersedes_outcome_id");
    crate::table::lemma_first_row(o, "id"@, 0);
    assert(o[0].0.len() == 2 && "investigation_id"@.len() == 16);
    crate::table::lemma_first_row(o, "investigation_id"@, 1);
    assert(o[0].0.len() == 2 && o[1].0.len() == 16 && "outcome"@.len() == 7);
    crate::table::lemma_first_row(o, "outcome"@, 2);
    assert(o[0].0.len() == 2 && o[1].0[0] == 'i' && o[2].0.len() == 7 && "source_event_ids"@.len() == 16 && "source_event_ids"@[0] == 's');
    crate::table::lemma_first_row(o, "source_event_ids"@, 3);
    assert(o[0].0.len() == 2 && o[1].0.len() == 16 && o[2].0[0] == 'o' && o[3].0.len() == 16 && "summary"@.len() == 7 && "summary"@[0] == 's');
    crate::table::lemma_first_row(o, "summary"@, 4);
    assert(o[0].0.len() == 2 && o[1].0.len() == 16 && o[2].0.len() == 7 && o[3].0.len() == 16 && o[4].0.len() == 7 && "supersedes_outcome_id"@.len() == 21);
    crate::table::lemma_first_row(o, "supersedes_outcome_id"@, 5);
}

/// A relation is written whole.
pub proof fn relations_are_written_whole(r: Relation)
    ensures
        ({
            let t = relation_tree(r);
            &&& t.at("from"@) == Tree::Text(r.from)
            &&& t.at("id"@) == Tree::Text(r.id)
            &&& t.at("kind"@) == Tree::Text(r.kind.name())
            &&& t.at("source_event_ids"@) == texts(r.source_event_ids)
            &&& t.at("summary"@) == Tree::Text(r.summary)
            &&& t.at("to"@) == Tree::Text(r.to)
        }),
{
    let o = relation_tree(r)->Object_0;
    reveal_strlit("from");
    reveal_strlit("id");
    reveal_strlit("kind");
    reveal_strlit("source_event_ids");
    reveal_strlit("summary");
    reveal_strlit("to");
    crate::table::lemma_first_row(o, "from"@, 0);
    assert(o[0].0.len() == 4 && "id"@.len() == 2);
    crate::table::lemma_first_row(o, "id"@, 1);
    assert(o[0].0[0] == 'f' && o[1].0.len() == 2 && "kind"@.len() == 4 && "kind"@[0] == 'k');
    crate::table::lemma_first_row(o, "kind"@, 2);
    assert(o[0].0.len() == 4 && o[1].0.len() == 2 && o[2].0.len() == 4 && "source_event_ids"@.len() == 16);
    crate::table::lemma_first_row(o, "source_event_ids"@, 3);
    assert(o[0].0.len() == 4 && o[1].0.len() == 2 && o[2].0.len() == 4 && o[3].0.len() == 16 && "summary"@.len() == 7);
    crate::table::lemma_first_row(o, "summary"@, 4);
    assert(o[0].0.len() == 4 && o[1].0[0] == 'i' && o[2].0.len() == 4 && o[3].0.len() == 16 && o[4].0.len() == 7 && "to"@.len() == 2 && "to"@[0] == 't');
    crate::table::lemma_first_row(o, "to"@, 5);
}

/// An assessment is written whole.
pub proof fn assessments_are_written_whole(a: Assessment)
    ensures
        ({
            let t = assessment_tree(a);
            &&& t.at("claim_id"@) == Tree::Text(a.claim_id)
            &&& t.at("id"@) == Tree::Text(a.id)
            &&& t.at("scope"@) == Tree::Text(a.scope)
            &&& t.at("source_event_ids"@) == texts(a.source_event_ids)
            &&& t.at("standard"@) == Tree::Text(a.standard)
            &&& t.at("summary"@) == Tree::Text(a.summary)
            &&& t.at("supersedes_assessment_id"@) == optional_text(a.supersedes_assessment_id)
            &&& t.at("verdict"@) == Tree::Text(a.verdict.name())
        }),
{
    let o = assessment_tree(a)->Object_0;
    reveal_strlit("claim_id");
    reveal_strlit("id");
    reveal_strlit("scope");
    reveal_strlit("source_event_ids");
    reveal_strlit("standard");
    reveal_strlit("summary");
    reveal_strlit("supersedes_assessment_id");
    reveal_strlit("verdict");
    crate::table::lemma_first_row(o, "claim_id"@, 0);
    assert(o[0].0.len() == 8 && "id"@.len() == 2);
    crate::table::lemma_first_row(o, "id"@, 1);
    assert(o[0].0.len() == 8 && o[1].0.len() == 2 && "scope"@.len() == 5);
    crate::table::lemma_first_row(o, "scope"@, 2);
    assert(o[0].0.len() == 8 && o[1].0.len() == 2 && o[2].0.len() == 5 && "source_event_ids"@.len() == 16);
    crate::table::lemma_first_row(o, "source_event_ids"@, 3);
    assert(o[0].0[0] == 'c' && o[1].0.len() == 2 && o[2].0.len() == 5 && o[3].0.len() == 16 && "standard"@.len() == 8 && "standard"@[0] == 's');
    crate::table::lemma_first_row(o, "standard"@, 4);
    assert(o[0].0.len() == 8 && o[1].0.len() == 2 && o[2].0.len() == 5 && o[3].0.len() == 16 && o[4].0.len() == 8 && "summary"@.len() == 7);
    crate::table::lemma_first_row(o, "summary"@, 5);
    assert(o[0].0.len() == 8 && o[1].0.len() == 2 && o[2].0.len() == 5 && o[3].0.len() == 16 && o[4].0.len() == 8 && o[5].0.len() == 7 && "supersedes_assessment_id"@.len() == 24);
    crate::table::lemma_first_row(o, "supersedes_assessment_id"@, 6);
    assert(o[0].0.len() == 8 && o[1].0.len() == 2 && o[2].0.len() == 5 && o[3].0.len() == 16 && o[4].0.len() == 8 && o[5].0[0] == 's' && o[6].0.len() == 24 && "verdict"@.len() == 7 && "verdict"@[0] == 'v');
    crate::table::lemma_first_row(o, "verdict"@, 7);
}

/// A proposal is written with what it proposes, and a decision with what it decides; each by its
/// kind.
pub proof fn entries_are_written_whole(e: Entry, s: Semantic)
    ensures
        ({
            let t = semantic_tree(s);
            &&& s matches Semantic::Entity(v) ==> t.text_at("kind"@) == Some("entity"@) && t.at(
                "value"@,
            ) == entity_tree(v)
            &&& s matches Semantic::InvestigationOutcome(v) ==> t.text_at("kind"@) == Some(
                "investigation_outcome"@,
            ) && t.at("value"@) == outcome_tree(v)
            &&& s matches Semantic::Relation(v) ==> t.text_at("kind"@) == Some("relation"@) && t.at(
                "value"@,
            ) == relation_tree(v)
            &&& s matches Semantic::Assessment(v) ==> t.text_at("kind"@) == Some("assessment"@)
                && t.at("value"@) == assessment_tree(v)
        }),
        ({
            let t = entry_tree(e);
            &&& e matches Entry::Proposal { id, semantic } ==> t.text_at("entry_kind"@) == Some(
                "proposal"@,
            ) && t.text_at("id"@) == Some(id) && t.at("semantic"@) == semantic_tree(semantic)
            &&& e matches Entry::Decision { id, proposal_id, outcome, policy, source_event_ids }
                ==> t.text_at("entry_kind"@) == Some("decision"@) && t.text_at("id"@) == Some(id)
                && t.text_at("outcome"@) == Some(outcome.name()) && t.text_at("policy"@) == Some(
                policy,
            ) && t.text_at("proposal_id"@) == Some(proposal_id) && t.at("source_event_ids"@)
                == texts(source_event_ids)
        }),
{
    let p = semantic_tree(s)->Object_0;
    reveal_strlit("kind");
    reveal_strlit("value");
    crate::table::lemma_first_row(p, "kind"@, 0);
    assert(p[0].0.len() == 4 && "value"@.len() == 5);
    crate::table::lemma_first_row(p, "value"@, 1);
    let o = entry_tree(e)->Object_0;
    match e {
        Entry::Proposal { id, semantic } => {
            reveal_strlit("entry_kind");
            reveal_strlit("id");
            reveal_strlit("semantic");
            crate::table::lemma_first_row(o, "entry_kind"@, 0);
            assert(o[0].0.len() == 10 && "id"@.len() == 2);
            crate::table::lemma_first_row(o, "id"@, 1);
            assert(o[0].0.len() == 10 && o[1].0.len() == 2 && "semantic"@.len() == 8);
            crate::table::lemma_first_row(o, "semantic"@, 2);
        },
        Entry::Decision { id, proposal_id, outcome, policy, source_event_ids } => {
            reveal_strlit("entry_kind");
            reveal_strlit("id");
            reveal_strlit("outcome");
            reveal_strlit("policy");
            reveal_strlit("proposal_id");
            reveal_strlit("source_event_ids");
            crate::table::lemma_first_row(o, "entry_kind"@, 0);
            assert(o[0].0.len() == 10 && "id"@.len() == 2);
            crate::table::lemma_first_row(o, "id"@, 1);
            assert(o[0].0.len() == 10 && o[1].0.len() == 2 && "outcome"@.len() == 7);
            crate::table::lemma_first_row(o, "outcome"@, 2);
            assert(o[0].0.len() == 10 && o[1].0.len() == 2 && o[2].0.len() == 7 && "policy"@.len() == 6);
            crate::table::lemma_first_row(o, "policy"@, 3);
            assert(o[0].0.len() == 10 && o[1].0.len() == 2 && o[2].0.len() == 7 && o[3].0.len() == 6 && "proposal_id"@.len() == 11);
            crate::table::lemma_first_row(o, "proposal_id"@, 4);
            assert(o[0].0.len() == 10 && o[1].0.len() == 2 && o[2].0.len() == 7 && o[3].0.len() == 6 && o[4].0.len() == 11 && "source_event_ids"@.len() == 16);
            crate::table::lemma_first_row(o, "source_event_ids"@, 5);
        },
    }
}

/// A record is written whole: its header, every episode and every entry.
pub proof fn records_are_written_whole(r: Record, e: Happening)
    ensures
        ({
            let t = record_tree(r);
            &&& t.text_at("schema"@) == Some(r.schema)
            &&& t.text_at("media_type"@) == Some(r.media_type)
            &&& t.text_at("generated_at"@) == Some(r.generated_at)
            &&& t.list_at("episodes"@) matches Some(list) && list.len() == r.episodes.len()
                && forall|i: int| 0 <= i < list.len() ==> #[trigger] list[i] == episode_tree(r.episodes[i])
            &&& t.list_at("ledger"@) matches Some(list) && list.len() == r.ledger.len() && forall|
                i: int,
            | 0 <= i < list.len() ==> #[trigger] list[i] == entry_tree(r.ledger[i])
            &&& t.at("session"@).text_at("id"@) == Some(r.session.id)
            &&& t.at("session"@).text_at("observed_through_event_id"@) == Some(
                r.session.observed_through_event_id,
            )
            &&& t.at("session"@).text_at("provenance_watermark_event_id"@) == Some(
                r.session.provenance_watermark_event_id,
            )
            &&& t.at("construction"@).text_at("operation"@) == Some(r.construction.operation.name())
            &&& t.at("construction"@).at("observer_result_event_id"@) == optional_text(
                r.construction.observer_result_event_id,
            )
            &&& t.at("construction"@).at("predecessor_record_artifact_event_id"@) == optional_text(
                r.construction.predecessor_record_artifact_event_id,
            )
            &&& t.at("construction"@).at("predecessor_record_watermark_event_id"@) == optional_text(
                r.construction.predecessor_record_watermark_event_id,
            )
            &&& t.at("construction"@).at("proposal_source_event_ids"@) == texts(
                r.construction.proposal_source_event_ids,
            )
            &&& episode_tree(e).text_at("capture_class"@) == Some(e.capture_class.name())
            &&& episode_tree(e).text_at("event_kind"@) == Some(e.event_kind)
            &&& episode_tree(e).text_at("id"@) == Some(e.id)
            &&& episode_tree(e).at("source_event_ids"@) == texts(e.source_event_ids)
        }),
{
    let o = record_tree(r)->Object_0;
    reveal_strlit("construction");
    reveal_strlit("episodes");
    reveal_strlit("generated_at");
    reveal_strlit("ledger");
    reveal_strlit("media_type");
    reveal_strlit("schema");
    reveal_strlit("session");
    crate::table::lemma_first_row(o, "construction"@, 0);
    assert(o[0].0.len() == 12 && "episodes"@.len() == 8);
    crate::table::lemma_first_row(o, "episodes"@, 1);
    assert(o[0].0[0] == 'c' && o[1].0.len() == 8 && "generated_at"@.len() == 12 && "generated_at"@[0] == 'g');
    crate::table::lemma_first_row(o, "generated_at"@, 2);
    assert(o[0].0.len() == 12 && o[1].0.len() == 8 && o[2].0.len() == 12 && "ledger"@.len() == 6);
    crate::table::lemma_first_row(o, "ledger"@, 3);
    assert(o[0].0.len() == 12 && o[1].0.len() == 8 && o[2].0.len() == 12 && o[3].0.len() == 6 && "media_type"@.len() == 10);
    crate::table::lemma_first_row(o, "media_type"@, 4);
    assert(o[0].0.len() == 12 && o[1].0.len() == 8 && o[2].0.len() == 12 && o[3].0[0] == 'l' && o[4].0.len() == 10 && "schema"@.len() == 6 && "schema"@[0] == 's');
    crate::table::lemma_first_row(o, "schema"@, 5);
    assert(o[0].0.len() == 12 && o[1].0.len() == 8 && o[2].0.len() == 12 && o[3].0.len() == 6 && o[4].0.len() == 10 && o[5].0.len() == 6 && "session"@.len() == 7);
    crate::table::lemma_first_row(o, "session"@, 6);
    let s = session_tree(r.session)->Object_0;
    reveal_strlit("id");
    reveal_strlit("observed_through_event_id");
    reveal_strlit("provenance_watermark_event_id");
    crate::table::lemma_first_row(s, "id"@, 0);
    assert(s[0].0.len() == 2 && "observed_through_event_id"@.len() == 25);
    crate::table::lemma_first_row(s, "observed_through_event_id"@, 1);
    assert(s[0].0.len() == 2 && s[1].0.len() == 25 && "provenance_watermark_event_id"@.len() == 29);
    crate::table::lemma_first_row(s, "provenance_watermark_event_id"@, 2);
    let c = provenance_tree(r.construction)->Object_0;
    reveal_strlit("observer_result_event_id");
    reveal_strlit("operation");
    reveal_strlit("predecessor_record_artifact_event_id");
    reveal_strlit("predecessor_record_watermark_event_id");
    reveal_strlit("proposal_source_event_ids");
    crate::table::lemma_first_row(c, "observer_result_event_id"@, 0);
    assert(c[0].0.len() == 24 && "operation"@.len() == 9);
    crate::table::lemma_first_row(c, "operation"@, 1);
    assert(c[0].0.len() == 24 && c[1].0.len() == 9 && "predecessor_record_artifact_event_id"@.len() == 36);
    crate::table::lemma_first_row(c, "predecessor_record_artifact_event_id"@, 2);
    assert(c[0].0.len() == 24 && c[1].0.len() == 9 && c[2].0.len() == 36 && "predecessor_record_watermark_event_id"@.len() == 37);
    crate::table::lemma_first_row(c, "predecessor_record_watermark_event_id"@, 3);
    assert(c[0].0.len() == 24 && c[1].0.len() == 9 && c[2].0.len() == 36 && c[3].0.len() == 37 && "proposal_source_event_ids"@.len() == 25);
    crate::table::lemma_first_row(c, "proposal_source_event_ids"@, 4);
    let h = episode_tree(e)->Object_0;
    reveal_strlit("capture_class");
    reveal_strlit("event_kind");
    reveal_strlit("id");
    reveal_strlit("source_event_ids");
    crate::table::lemma_first_row(h, "capture_class"@, 0);
    assert(h[0].0.len() == 13 && "event_kind"@.len() == 10);
    crate::table::lemma_first_row(h, "event_kind"@, 1);
    assert(h[0].0.len() == 13 && h[1].0.len() == 10 && "id"@.len() == 2);
    crate::table::lemma_first_row(h, "id"@, 2);
    assert(h[0].0.len() == 13 && h[1].0.len() == 10 && h[2].0.len() == 2 && "source_event_ids"@.len() == 16);
    crate::table::lemma_first_row(h, "source_event_ids"@, 3);
}

/// A new record is empty: captured, of no predecessor, and seen up to its watermark.
pub proof fn new_records_are_empty(session: Seq<char>, watermark: Seq<char>, at: Seq<char>)
    ensures
        ({
            let r = new_record(session, watermark, at);
            &&& r.schema == "euler.research_record.v1"@
            &&& r.media_type == "application/vnd.euler.research-record.v1+json"@
            &&& r.generated_at == at && r.session.id == session
            &&& r.session.provenance_watermark_event_id == watermark
            &&& r.session.observed_through_event_id == watermark
            &&& r.construction.operation == RecordOperation::Capture
            &&& r.construction.predecessor_record_artifact_event_id is None
            &&& r.construction.predecessor_record_watermark_event_id is None
            &&& r.construction.observer_result_event_id is None
            &&& r.construction.proposal_source_event_ids.len() == 0
            &&& r.episodes.len() == 0 && r.ledger.len() == 0
        }),
{
}

proof fn lemma_fresh(names: Seq<Seq<char>>, seen: Seq<Seq<char>>, k: nat, j: int)
    requires
        !names_again(names, seen, k),
        k <= j < names.len(),
    ensures
        !seen.contains(names[j]),
    decreases names.len() - k,
{
    if k < j {
        let more = seen.push(names[k as int]);
        lemma_fresh(names, more, k + 1, j);
        if seen.contains(names[j]) {
            let i = choose|i: int| 0 <= i < seen.len() && seen[i] == names[j];
            assert(more[i] == names[j]);
        }
    }
}

proof fn lemma_episode(
    episodes: Seq<Happening>,
    i: nat,
    ids: Seq<Seq<char>>,
    sources: Seq<Seq<char>>,
    j: int,
    k: int,
)
    requires
        episodes_fault(episodes, i, ids, sources) is None,
        i <= j < episodes.len(),
        0 <= k < episodes[j].source_event_ids.len(),
    ensures
        episode_form(episodes[j]),
        !ids.contains(episodes[j].id),
        !sources.contains(episodes[j].source_event_ids[k]),
    decreases episodes.len() - i,
{
    let e = episodes[i as int];
    if i == j {
        lemma_fresh(e.source_event_ids, sources, 0, k);
    } else {
        let more = ids.push(e.id);
        let all = sources + e.source_event_ids;
        lemma_episode(episodes, i + 1, more, all, j, k);
        if ids.contains(episodes[j].id) {
            let n = choose|n: int| 0 <= n < ids.len() && ids[n] == episodes[j].id;
            assert(more[n] == episodes[j].id);
        }
        let name = episodes[j].source_event_ids[k];
        if sources.contains(name) {
            let n = choose|n: int| 0 <= n < sources.len() && sources[n] == name;
            assert(all[n] == name);
        }
    }
}

proof fn lemma_two_episodes(
    episodes: Seq<Happening>,
    i: nat,
    ids: Seq<Seq<char>>,
    sources: Seq<Seq<char>>,
    a: int,
    b: int,
    m: int,
    k: int,
)
    requires
        episodes_fault(episodes, i, ids, sources) is None,
        i <= a < b < episodes.len(),
        0 <= m < episodes[a].source_event_ids.len(),
        0 <= k < episodes[b].source_event_ids.len(),
    ensures
        episodes[a].id != episodes[b].id,
        episodes[a].source_event_ids[m] != episodes[b].source_event_ids[k],
    decreases episodes.len() - i,
{
    let e = episodes[i as int];
    let more = ids.push(e.id);
    let all = sources + e.source_event_ids;
    if i == a {
        lemma_episode(episodes, i + 1, more, all, b, k);
        assert(more[ids.len() as int] == e.id);
        assert(all[sources.len() + m] == e.source_event_ids[m]);
    } else {
        lemma_two_episodes(episodes, i + 1, more, all, a, b, m, k);
    }
}

/// A record of the right form is of its schema and its media type, is not too long, and tells no
/// event in two episodes. It names a predecessor, with its watermark, if and only if it was
/// reconciled.
pub proof fn records_of_the_right_form(r: Record, bytes: nat, a: int, b: int, m: int, k: int)
    requires
        shape_fault(r, bytes) is None,
    ensures
        r.schema == "euler.research_record.v1"@,
        r.media_type == "application/vnd.euler.research-record.v1+json"@,
        bytes <= 1048576,
        r.generated_at.len() > 0,
        r.construction.operation == RecordOperation::Capture <==>
            r.construction.predecessor_record_artifact_event_id is None,
        r.construction.operation == RecordOperation::Capture <==>
            r.construction.predecessor_record_watermark_event_id is None,
        0 <= a < b < r.episodes.len() && 0 <= m < r.episodes[a].source_event_ids.len() && 0 <= k
            < r.episodes[b].source_event_ids.len() ==> r.episodes[a].id != r.episodes[b].id
            && r.episodes[a].source_event_ids[m] != r.episodes[b].source_event_ids[k],
{
    if 0 <= a < b < r.episodes.len() && 0 <= m < r.episodes[a].source_event_ids.len() && 0 <= k
        < r.episodes[b].source_event_ids.len() {
        lemma_two_episodes(r.episodes, 0, Seq::empty(), Seq::empty(), a, b, m, k);
    }
}

proof fn lemma_episode_sources(episodes: Seq<Happening>, n: nat, id: Seq<char>)
    requires
        n <= episodes.len(),
    ensures
        episode_sources(episodes, n).contains(id) <==> exists|i: int|
            0 <= i < n && (#[trigger] episodes[i]).source_event_ids.contains(id),
    decreases n,
{
    if n > 0 {
        let m = (n - 1) as nat;
        lemma_episode_sources(episodes, m, id);
        lemma_in_both(episode_sources(episodes, m), episodes[n - 1].source_event_ids, id);
    }
}

proof fn lemma_ledger_sources(ledger: Seq<Entry>, n: nat, id: Seq<char>)
    requires
        n <= ledger.len(),
    ensures
        ledger_sources(ledger, n).contains(id) <==> exists|i: int|
            0 <= i < n && entry_sources(#[trigger] ledger[i]).contains(id),
    decreases n,
{
    if n > 0 {
        let m = (n - 1) as nat;
        lemma_ledger_sources(ledger, m, id);
        lemma_in_both(ledger_sources(ledger, m), entry_sources(ledger[n - 1]), id);
    }
}

proof fn lemma_in_both(a: Seq<Seq<char>>, b: Seq<Seq<char>>, id: Seq<char>)
    ensures
        (a + b).contains(id) <==> a.contains(id) || b.contains(id),
{
    let c = a + b;
    if a.contains(id) {
        let i = choose|i: int| 0 <= i < a.len() && a[i] == id;
        assert(c[i] == id);
    }
    if b.contains(id) {
        let i = choose|i: int| 0 <= i < b.len() && b[i] == id;
        assert(c[a.len() + i] == id);
    }
    if c.contains(id) {
        let i = choose|i: int| 0 <= i < c.len() && c[i] == id;
        if i < a.len() {
            assert(a[i] == id);
        } else {
            assert(b[i - a.len()] == id);
        }
    }
}

/// What a record names as its sources is what its episodes and the entries of its ledger cite.
/// Its artifact also names the events that were proposed from, its predecessor and the result of
/// its observer.
pub proof fn records_name_their_sources(r: Record, id: Seq<char>)
    ensures
        named_sources(r).contains(id) <==> (exists|i: int|
            0 <= i < r.episodes.len() && (#[trigger] r.episodes[i]).source_event_ids.contains(id))
            || exists|i: int|
            0 <= i < r.ledger.len() && entry_sources(#[trigger] r.ledger[i]).contains(id),
        named_artifact_sources(r).contains(id) <==> named_sources(r).contains(id)
            || r.construction.proposal_source_event_ids.contains(id)
            || r.construction.predecessor_record_artifact_event_id == Some(id)
            || r.construction.observer_result_event_id == Some(id),
{
    lemma_episode_sources(r.episodes, r.episodes.len(), id);
    lemma_ledger_sources(r.ledger, r.ledger.len(), id);
    let e = episode_sources(r.episodes, r.episodes.len());
    let l = ledger_sources(r.ledger, r.ledger.len());
    lemma_in_both(e, l, id);
    let a = named_sources(r);
    let b = r.construction.proposal_source_event_ids;
    let c = maybe(r.construction.predecessor_record_artifact_event_id);
    let d = maybe(r.construction.observer_result_event_id);
    lemma_in_both(a, b, id);
    lemma_in_both(a + b, c, id);
    lemma_in_both(a + b + c, d, id);
    if r.construction.predecessor_record_artifact_event_id is Some {
        assert(c[0] == r.construction.predecessor_record_artifact_event_id->0);
    }
    if r.construction.observer_result_event_id is Some {
        assert(d[0] == r.construction.observer_result_event_id->0);
    }
}

} // verus!
