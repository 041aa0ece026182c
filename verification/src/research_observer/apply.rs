//! What becomes of the proposals of an observer.

use super::brief::validate_session;
use super::input::{Apply, ApplyInput, Companion, CompanionOutput, RefreshOperation, RESEARCH_MODE};
use crate::event::{Event, EventEnvelope};
use crate::json::{counted, optional_text, Json, Tree};
use crate::projection::sources::{event_index, find_event, with_field, with_member};
use crate::research_projection::artifact::{
    bounded_graph_text, graph_metadata, graph_text, ResearchProjection,
};
use crate::research_record::append::{Append, AppendInput};
use crate::research_record::ledger::{Accepted, AcceptedRecord};
use crate::research_record::record::{named_artifact_sources, record_text};
use crate::research_record::types::{Batch, ObserverProposalBatch, Record, ResearchRecord};
use crate::research_state::{event_of, ResearchState, Selected};
use crate::schema::{
    RESEARCH_DAG_MEDIA_TYPE, RESEARCH_RECORD_MEDIA_TYPE, RESEARCH_RECORD_SCHEMA,
};
use crate::sdk::{
    answers, fault, input_error, passes, scan_or_default, ArtifactRecord, ArtifactWrite,
    ExtensionError, Page, ProvenancePage, ProvenanceQuery, Stored,
};
use crate::slot_summary::publication::{with_publication, with_slot_publication, SlotPublication};
use crate::table::in_order;
use crate::text::{
    byte_count, byte_len, bytes_of, chars_of, join2, same, slice_text, trim, trimmed,
};
use crate::update::{event_ids, ids_of};
use vstd::prelude::*;
use vstd::utf8::encode_utf8;

verus! {

pub const RESEARCH_APPLY_SCHEMA: &'static str = "euler.research_record.apply.v1";

pub const RESEARCH_REFRESH_SCHEMA: &'static str = "euler.research_record.refresh.v1";

/// The most bytes of what an observer gives back.
pub const MAX_OBSERVER_OUTPUT_BYTES: usize = 65536;

/// What is wrong with a state that is not the one that the observer was briefed on.
pub open spec fn stale_fault(s: Option<Selected>, a: Apply) -> Option<Seq<char>> {
    match s {
        None => Some("research-record pilot state disappeared before observer apply"@),
        Some(s) => if event_of(s.record) != a.expected {
            Some("research-record active state changed between observer brief and apply"@)
        } else if s.observed_through_event_id != a.after {
            Some("research-record observer cursor changed between brief and apply"@)
        } else {
            None
        },
    }
}

/// A page that is cut at the event that the observer was shown last.
pub open spec fn applied_page(page: Page, a: Apply) -> Result<Page, Seq<char>> {
    if a.after == Some(a.watermark) {
        Ok(
            Page {
                events: Seq::empty(),
                scanned_events: 0,
                watermark_event_id: Some(a.watermark),
                next_after_event_id: None,
                truncated: false,
                ..page
            },
        )
    } else {
        match event_index(page.events, a.watermark, 0) {
            None => Err(
                "research-record observer apply did not reach the brief watermark in its bounded page"@,
            ),
            Some(k) => Ok(
                Page {
                    events: page.events.take(k + 1),
                    watermark_event_id: Some(a.watermark),
                    next_after_event_id: None,
                    truncated: false,
                    ..page
                },
            ),
        }
    }
}

/// What is wrong with events that are not the ones that the observer was shown.
pub open spec fn events_fault(a: Apply, events: Seq<Event>) -> Option<Seq<char>> {
    match super::brief::window_session_fault(a.session, events) {
        Some(e) => Some(e),
        None => if ids_of(events) == a.observed {
            None
        } else {
            Some("research-record observer apply does not match the brief's source window"@)
        },
    }
}

fn same_texts(a: &Vec<String>, b: &Vec<String>) -> (r: bool)
    ensures
        r == (a.deep_view() == b.deep_view()),
{
    assert(a.deep_view().len() == a@.len());
    assert(b.deep_view().len() == b@.len());
    if a.len() != b.len() {
        return false;
    }
    let mut i: usize = 0;
    while i < a.len()
        invariant
            i <= a@.len() == b@.len(),
            forall|j: int| 0 <= j < i ==> a.deep_view()[j] == b.deep_view()[j],
        decreases a@.len() - i,
    {
        assert(a.deep_view()[i as int] == a@[i as int]@);
        assert(b.deep_view()[i as int] == b@[i as int]@);
        if !same(&a[i], &b[i]) {
            return false;
        }
        i += 1;
    }
    assert(a.deep_view() =~= b.deep_view());
    true
}

fn same_maybe(a: Option<&String>, b: &Option<String>) -> (r: bool)
    ensures
        r == (a.deep_view() == b.deep_view()),
{
    match a {
        Some(a) => match b {
            Some(b) => same(a, b),
            None => false,
        },
        None => b.is_none(),
    }
}

impl ApplyInput {
    /// Checks that the state is the one that the observer was briefed on.
    pub fn check_state(&self, state: Option<&ResearchState>) -> (r: Result<(), ExtensionError>)
        ensures
            passes(r, stale_fault(state.deep_view(), self.deep_view())),
    {
        let state = match state {
            Some(state) => state,
            None => {
                return Err(
                    input_error("research-record pilot state disappeared before observer apply"),
                );
            },
        };
        if !same_maybe(state.record_artifact_event_id(), &self.expected_record_artifact_event_id) {
            return Err(
                input_error(
                    "research-record active state changed between observer brief and apply",
                ),
            );
        }
        let observed = match &state.observed_through_event_id {
            Some(id) => Some(id),
            None => None,
        };
        if !same_maybe(observed, &self.after_event_id) {
            return Err(
                input_error("research-record observer cursor changed between brief and apply"),
            );
        }
        Ok(())
    }

    pub fn query(&self) -> (r: ProvenanceQuery)
        ensures
            r.asks(
                self.deep_view().after,
                self.limit,
                scan_or_default(self.scan_limit),
            ),
    {
        ProvenanceQuery::page(self.limit, self.scan_limit, &self.after_event_id)
    }

    /// The page, cut at the event that the observer was shown last.
    pub fn cut_page(&self, page: ProvenancePage) -> (r: Result<ProvenancePage, ExtensionError>)
        ensures
            answers(r, applied_page(page.deep_view(), self.deep_view())),
    {
        let ghost given = page.deep_view();
        let mut page = page;
        let at_start = match &self.after_event_id {
            Some(after) => same(after, &self.watermark_event_id),
            None => false,
        };
        if at_start {
            page.events = Vec::new();
            page.scanned_events = 0;
            page.watermark_event_id = Some(self.watermark_event_id.clone());
            page.next_after_event_id = None;
            page.truncated = false;
            assert(page.events.deep_view() =~= Seq::empty());
            return Ok(page);
        }
        let count = page.events.len();
        match find_event(&page.events, &self.watermark_event_id) {
            None => Err(
                input_error(
                    "research-record observer apply did not reach the brief watermark in its bounded page",
                ),
            ),
            Some(k) => {
                assert(k < count);
                page.events.truncate(k + 1);
                assert(page.events.deep_view() =~= given.events.take(k + 1));
                page.watermark_event_id = Some(self.watermark_event_id.clone());
                page.next_after_event_id = None;
                page.truncated = false;
                Ok(page)
            },
        }
    }

    /// Checks that the events are the ones that the observer was shown.
    pub fn check_events(&self, events: &Vec<EventEnvelope>) -> (r: Result<(), ExtensionError>)
        ensures
            passes(r, events_fault(self.deep_view(), events.deep_view())),
    {
        validate_session(&self.session_id, events)?;
        if !same_texts(&event_ids(events), &self.observed_event_ids) {
            return Err(
                input_error(
                    "research-record observer apply does not match the brief's source window",
                ),
            );
        }
        Ok(())
    }
}

/// Whether a text starts with another.
pub open spec fn starts(s: Seq<char>, start: Seq<char>) -> bool {
    start.len() <= s.len() && s.take(start.len() as int) == start
}

/// A text without the fence that it opens with, and without the one at its end.
pub open spec fn bare(s: Seq<char>) -> Seq<char> {
    let t = trimmed(s);
    let rest = if starts(t, seq!['`', '`', '`', 'j', 's', 'o', 'n']) || starts(
        t,
        seq!['`', '`', '`', 'J', 'S', 'O', 'N'],
    ) {
        t.skip(7)
    } else {
        t.skip(3)
    };
    if !starts(t, seq!['`', '`', '`']) {
        t
    } else if rest.len() >= 3 && rest.skip(rest.len() - 3) == seq!['`', '`', '`'] {
        trimmed(rest.take(rest.len() - 3))
    } else {
        trimmed(rest)
    }
}

fn starts_with(v: &Vec<char>, start: &Vec<char>) -> (r: bool)
    ensures
        r == starts(v@, start@),
{
    if start.len() > v.len() {
        return false;
    }
    let mut i: usize = 0;
    while i < start.len()
        invariant
            i <= start@.len() <= v@.len(),
            forall|j: int| 0 <= j < i ==> v@[j] == start@[j],
        decreases start@.len() - i,
    {
        if v[i] != start[i] {
            assert(v@.take(start@.len() as int)[i as int] != start@[i as int]);
            return false;
        }
        i += 1;
    }
    assert(v@.take(start@.len() as int) =~= start@);
    true
}

/// A text without the fence that it opens with, and without the one at its end.
pub fn strip_json_fence(value: &str) -> (r: String)
    ensures
        r@ == bare(value@),
{
    let t = trim(value);
    let v = chars_of(&t);
    let tick = vec!['`', '`', '`'];
    let lower = vec!['`', '`', '`', 'j', 's', 'o', 'n'];
    let upper = vec!['`', '`', '`', 'J', 'S', 'O', 'N'];
    assert(tick@ =~= seq!['`', '`', '`']);
    assert(lower@ =~= seq!['`', '`', '`', 'j', 's', 'o', 'n']);
    assert(upper@ =~= seq!['`', '`', '`', 'J', 'S', 'O', 'N']);
    if !starts_with(&v, &tick) {
        return t;
    }
    let from: usize = if starts_with(&v, &lower) || starts_with(&v, &upper) {
        7
    } else {
        3
    };
    let n = v.len();
    let ghost rest = v@.skip(from as int);
    if n - from >= 3 && v[n - 3] == '`' && v[n - 2] == '`' && v[n - 1] == '`' {
        assert(rest.skip(rest.len() - 3) =~= seq!['`', '`', '`']);
        assert(v@.subrange(from as int, n - 3) =~= rest.take(rest.len() - 3));
        return trim(&slice_text(&v, from, n - 3));
    }
    proof {
        if rest.len() >= 3 && rest.skip(rest.len() - 3) == seq!['`', '`', '`'] {
            let end = rest.skip(rest.len() - 3);
            assert(end[0] == v@[n - 3] && end[1] == v@[n - 2] && end[2] == v@[n - 1]);
        }
        assert(v@.subrange(from as int, n as int) =~= rest);
    }
    trim(&slice_text(&v, from, n))
}

/// The text of the proposals in what an observer gave back.
pub open spec fn proposals_in(output: Seq<char>) -> Result<Seq<char>, Seq<char>> {
    if byte_len(output) > MAX_OBSERVER_OUTPUT_BYTES {
        Err("research observer output exceeds 65536 bytes"@)
    } else {
        Ok(bare(output))
    }
}

/// The text of the proposals in what an observer gave back.
pub fn proposals_text(output: &str) -> (r: Result<String, ExtensionError>)
    ensures
        answers(r, proposals_in(output@)),
{
    if byte_count(output) > MAX_OBSERVER_OUTPUT_BYTES {
        return Err(input_error("research observer output exceeds 65536 bytes"));
    }
    Ok(strip_json_fence(output))
}

/// What is said of proposals that cannot be read.
pub fn unreadable_proposals(error: &str) -> (r: ExtensionError)
    ensures
        r is Message,
        r->Message_0@
            == "research observer output must be `euler.research_record.proposals.v1` JSON: "@
            + error@,
{
    fault(
        join2(
            "research observer output must be `euler.research_record.proposals.v1` JSON: ",
            error,
        ),
    )
}

/// What is appended to the record of a state.
pub open spec fn append_of(
    s: Selected,
    prior: Option<Record>,
    events: Seq<Event>,
    batch: Batch,
    a: Apply,
    c: Companion,
) -> Result<Append, Seq<char>> {
    if events.len() == 0 {
        Err("research-record observer apply has no source events"@)
    } else {
        Ok(
            Append {
                prior,
                predecessor: event_of(s.record),
                events,
                batch,
                watermark: a.watermark,
                generated_at: events.last().ts,
                session: a.session,
                observer_result: Some(c.result),
            },
        )
    }
}

/// What is appended to the record of a state.
pub fn append_input(
    state: &ResearchState,
    prior: Option<ResearchRecord>,
    events: Vec<EventEnvelope>,
    batch: ObserverProposalBatch,
    apply: &ApplyInput,
    companion: &CompanionOutput,
) -> (r: Result<AppendInput, ExtensionError>)
    ensures
        answers(
            r,
            append_of(
                state.deep_view(),
                prior.deep_view(),
                events.deep_view(),
                batch.deep_view(),
                apply.deep_view(),
                companion.deep_view(),
            ),
        ),
{
    assert(events.deep_view().len() == events@.len());
    if events.len() == 0 {
        return Err(input_error("research-record observer apply has no source events"));
    }
    let last: usize = events.len() - 1;
    assert(events.deep_view()[last as int] == events@[last as int]@);
    let generated_at = events[last].ts.clone();
    let predecessor = match state.record_artifact_event_id() {
        Some(id) => Some(id.clone()),
        None => None,
    };
    Ok(
        AppendInput {
            prior,
            predecessor_record_artifact_event_id: predecessor,
            events,
            batch,
            watermark_event_id: apply.watermark_event_id.clone(),
            generated_at,
            session_id: apply.session_id.clone(),
            observer_result_event_id: Some(companion.result_event_id.clone()),
        },
    )
}

/// What the artifact of a record is written with.
pub open spec fn record_metadata(r: Record, c: Companion) -> Seq<(Seq<char>, Tree)> {
    seq![
        ("observer_result_event_id"@, Tree::Text(c.result)),
        ("operation"@, Tree::Text(r.construction.operation.name())),
        (
            "predecessor_record_artifact_event_id"@,
            optional_text(r.construction.predecessor_record_artifact_event_id),
        ),
        (
            "predecessor_record_watermark_event_id"@,
            optional_text(r.construction.predecessor_record_watermark_event_id),
        ),
        (
            "provenance_watermark_event_id"@,
            Tree::Text(r.session.provenance_watermark_event_id),
        ),
        ("schema"@, Tree::Text(RESEARCH_RECORD_SCHEMA@)),
    ]
}

/// The artifact of a record.
pub fn record_artifact(record: &ResearchRecord, companion: &CompanionOutput) -> (r: ArtifactWrite)
    ensures
        r.display_name@ == "Durable research record"@,
        r.media_type@ == RESEARCH_RECORD_MEDIA_TYPE@,
        r.bytes@ == encode_utf8(record_text(record.deep_view())),
        r.source_event_ids.deep_view() == in_order(named_artifact_sources(record.deep_view())),
        r.metadata.deep_view() == record_metadata(record.deep_view(), companion.deep_view()),
{
    let c = &record.construction;
    let metadata = vec![
        ("observer_result_event_id".to_owned(), Json::of_text(&companion.result_event_id)),
        ("operation".to_owned(), Json::of_text(c.operation.as_str())),
        (
            "predecessor_record_artifact_event_id".to_owned(),
            Json::of_optional_text(&c.predecessor_record_artifact_event_id),
        ),
        (
            "predecessor_record_watermark_event_id".to_owned(),
            Json::of_optional_text(&c.predecessor_record_watermark_event_id),
        ),
        (
            "provenance_watermark_event_id".to_owned(),
            Json::of_text(&record.session.provenance_watermark_event_id),
        ),
        ("schema".to_owned(), Json::of_text(RESEARCH_RECORD_SCHEMA)),
    ];
    assert(metadata.deep_view() =~= record_metadata(record.deep_view(), companion.deep_view()));
    ArtifactWrite {
        display_name: "Durable research record".to_owned(),
        media_type: RESEARCH_RECORD_MEDIA_TYPE.to_owned(),
        bytes: bytes_of(&record.artifact_text()),
        source_event_ids: record.artifact_source_event_ids(),
        metadata,
    }
}

/// The artifact of the graph of a record.
pub fn graph_artifact(projection: &ResearchProjection, record_artifact: &ArtifactRecord) -> (r:
    Result<ArtifactWrite, ExtensionError>)
    ensures
        match bounded_graph_text(graph_text(projection.deep_view().0)) {
            Ok(text) => r matches Ok(w) && {
                &&& w.display_name@ == "Causal DAG research projection"@
                &&& w.media_type@ == RESEARCH_DAG_MEDIA_TYPE@
                &&& w.bytes@ == encode_utf8(text)
                &&& w.source_event_ids.deep_view() == projection.deep_view().1
                &&& w.metadata.deep_view() == graph_metadata(
                    projection.deep_view().0,
                    record_artifact@.persisted_event_id,
                )
            },
            Err(message) => r matches Err(e) && e is Message && e->Message_0@ == message,
        },
{
    let text = projection.artifact_text()?;
    Ok(
        ArtifactWrite {
            display_name: "Causal DAG research projection".to_owned(),
            media_type: RESEARCH_DAG_MEDIA_TYPE.to_owned(),
            bytes: bytes_of(&text),
            source_event_ids: crate::table::copy_texts(projection.source_event_ids()),
            metadata: projection.artifact_metadata(&record_artifact.persisted_event_id),
        },
    )
}

/// An artifact in an answer.
pub open spec fn artifact_tree(r: Stored) -> Tree {
    Tree::Object(
        seq![
            ("byte_len"@, counted(r.byte_len as nat)),
            ("persisted_event_id"@, Tree::Text(r.persisted_event_id)),
            ("relative_path"@, Tree::Text(r.relative_path)),
            ("sha256"@, Tree::Text(r.sha256)),
        ],
    )
}

fn artifact_output(record: &ArtifactRecord) -> (r: Json)
    ensures
        r@ == artifact_tree(record@),
{
    broadcast use crate::json::object_model;

    let rows = vec![
        ("byte_len".to_owned(), Json::of_count(record.byte_len)),
        ("persisted_event_id".to_owned(), Json::of_text(&record.persisted_event_id)),
        ("relative_path".to_owned(), Json::of_text(&record.relative_path)),
        ("sha256".to_owned(), Json::of_text(&record.sha256)),
    ];
    assert(rows.deep_view() =~= artifact_tree(record@)->Object_0);
    Json::Object(rows)
}

/// An observer in an answer.
pub open spec fn companion_tree(c: Companion) -> Tree {
    Tree::Object(
        seq![
            ("child_agent_id"@, optional_text(c.child)),
            ("result_event_id"@, Tree::Text(c.result)),
            ("spawn_event_id"@, optional_text(c.spawn)),
        ],
    )
}

fn companion_attribution(c: &CompanionOutput) -> (r: Json)
    ensures
        r@ == companion_tree(c.deep_view()),
{
    broadcast use crate::json::object_model;

    let rows = vec![
        ("child_agent_id".to_owned(), Json::of_optional_text(&c.child_agent_id)),
        ("result_event_id".to_owned(), Json::of_text(&c.result_event_id)),
        ("spawn_event_id".to_owned(), Json::of_optional_text(&c.spawn_event_id)),
    ];
    assert(rows.deep_view() =~= companion_tree(c.deep_view())->Object_0);
    Json::Object(rows)
}

/// What is answered once proposals were applied.
pub open spec fn applied_rows(
    r: Record,
    a: Accepted,
    record: Stored,
    graph: Stored,
    s: Selected,
    c: Companion,
) -> Seq<(Seq<char>, Tree)> {
    seq![
        ("assessment_count"@, counted(a.assessments.len())),
        ("companion"@, companion_tree(c)),
        ("entity_count"@, counted(a.entities.len())),
        ("episode_count"@, counted(r.episodes.len())),
        ("graph"@, artifact_tree(graph)),
        ("ledger_entry_count"@, counted(r.ledger.len())),
        ("mode"@, Tree::Text(RESEARCH_MODE@)),
        ("record"@, artifact_tree(record)),
        ("relation_count"@, counted(a.relations.len())),
        ("schema"@, Tree::Text(RESEARCH_APPLY_SCHEMA@)),
        ("watermark_event_id"@, optional_text(s.observed_through_event_id)),
    ]
}

/// What is answered once proposals were applied.
pub fn applied_output(
    record: &ResearchRecord,
    accepted: &AcceptedRecord,
    record_artifact: &ArtifactRecord,
    graph_artifact: &ArtifactRecord,
    state: &ResearchState,
    companion: &CompanionOutput,
    slot_publication: &SlotPublication,
) -> (r: Json)
    ensures
        r@ == Tree::Object(
            with_publication(
                applied_rows(
                    record.deep_view(),
                    accepted.deep_view(),
                    record_artifact@,
                    graph_artifact@,
                    state.deep_view(),
                    companion.deep_view(),
                ),
                slot_publication.deep_view(),
            ),
        ),
{
    assert(record.deep_view().episodes.len() == record.episodes@.len());
    assert(record.deep_view().ledger.len() == record.ledger@.len());
    assert(accepted.deep_view().entities.len() == accepted.entities@.len());
    assert(accepted.deep_view().relations.len() == accepted.relations@.len());
    assert(accepted.deep_view().assessments.len() == accepted.assessments@.len());
    let rows = vec![
        ("assessment_count".to_owned(), Json::of_count(accepted.assessments.len())),
        ("companion".to_owned(), companion_attribution(companion)),
        ("entity_count".to_owned(), Json::of_count(accepted.entities.len())),
        ("episode_count".to_owned(), Json::of_count(record.episodes.len())),
        ("graph".to_owned(), artifact_output(graph_artifact)),
        ("ledger_entry_count".to_owned(), Json::of_count(record.ledger.len())),
        ("mode".to_owned(), Json::of_text(RESEARCH_MODE)),
        ("record".to_owned(), artifact_output(record_artifact)),
        ("relation_count".to_owned(), Json::of_count(accepted.relations.len())),
        ("schema".to_owned(), Json::of_text(RESEARCH_APPLY_SCHEMA)),
        (
            "watermark_event_id".to_owned(),
            Json::of_optional_text(&state.observed_through_event_id),
        ),
    ];
    assert(rows.deep_view() =~= applied_rows(
        record.deep_view(),
        accepted.deep_view(),
        record_artifact@,
        graph_artifact@,
        state.deep_view(),
        companion.deep_view(),
    ));
    with_slot_publication(rows, slot_publication)
}

/// What is answered to a refresh whose proposals were applied.
pub fn refreshed_output(applied: &Json, operation: RefreshOperation) -> (r: Json)
    ensures
        r@ == with_member(
            with_member(applied@, "refresh_schema"@, Tree::Text(RESEARCH_REFRESH_SCHEMA@)),
            "refresh_operation"@,
            Tree::Text(operation.name()),
        ),
{
    let named = with_field(applied, "refresh_schema", Json::of_text(RESEARCH_REFRESH_SCHEMA));
    with_field(&named, "refresh_operation", Json::of_text(operation.as_str()))
}

/// What a refresh without new events does.
#[derive(Clone, Copy, Debug, PartialEq, Eq, Structural)]
pub enum QuietRefresh {
    Nothing,
    Reframe,
}

/// What a refresh without new events does: where nothing is selected, and for an incremental one,
/// nothing.
pub fn quiet_refresh(operation: RefreshOperation, state: &ResearchState) -> (r: QuietRefresh)
    ensures
        r == (if operation == RefreshOperation::Incremental || !(state.deep_view().record is Some
            && state.deep_view().graph is Some) {
            QuietRefresh::Nothing
        } else {
            QuietRefresh::Reframe
        }),
{
    if operation == RefreshOperation::Incremental || !state.active() {
        QuietRefresh::Nothing
    } else {
        QuietRefresh::Reframe
    }
}

/// What is answered to a refresh that did nothing.
pub open spec fn unchanged_tree(operation: RefreshOperation) -> Tree {
    Tree::Object(
        seq![
            ("mode"@, Tree::Text(RESEARCH_MODE@)),
            ("reason"@, Tree::Text("no new observable pilot events"@)),
            ("refresh_operation"@, Tree::Text(operation.name())),
            ("schema"@, Tree::Text(RESEARCH_REFRESH_SCHEMA@)),
            ("updated"@, Tree::Bool(false)),
        ],
    )
}

/// What is answered to a refresh that did nothing.
pub fn unchanged_output(operation: RefreshOperation) -> (r: Json)
    ensures
        r@ == unchanged_tree(operation),
{
    broadcast use crate::json::object_model;

    let rows = vec![
        ("mode".to_owned(), Json::of_text(RESEARCH_MODE)),
        ("reason".to_owned(), Json::of_text("no new observable pilot events")),
        ("refresh_operation".to_owned(), Json::of_text(operation.as_str())),
        ("schema".to_owned(), Json::of_text(RESEARCH_REFRESH_SCHEMA)),
        ("updated".to_owned(), Json::Bool(false)),
    ];
    assert(rows.deep_view() =~= unchanged_tree(operation)->Object_0);
    Json::Object(rows)
}

/// The event that a selection was observed through.
pub fn selected_cursor(state: &ResearchState) -> (r: Result<&String, ExtensionError>)
    ensures
        match state.deep_view().observed_through_event_id {
            Some(id) => r matches Ok(found) && found@ == id,
            None => r matches Err(e) && e is Message && e->Message_0@
                == "research-record state has no cursor"@,
        },
{
    match &state.observed_through_event_id {
        Some(id) => Ok(id),
        None => Err(input_error("research-record state has no cursor")),
    }
}

/// What is answered to a refresh that drew the graph anew.
pub open spec fn reframed_rows(
    operation: RefreshOperation,
    record: Stored,
    graph: Stored,
    s: Selected,
) -> Seq<(Seq<char>, Tree)> {
    seq![
        ("graph"@, artifact_tree(graph)),
        ("mode"@, Tree::Text(RESEARCH_MODE@)),
        ("record"@, artifact_tree(record)),
        ("reframed"@, Tree::Bool(true)),
        ("refresh_operation"@, Tree::Text(operation.name())),
        ("schema"@, Tree::Text(RESEARCH_REFRESH_SCHEMA@)),
        ("updated"@, Tree::Bool(true)),
        ("watermark_event_id"@, optional_text(s.observed_through_event_id)),
    ]
}

/// What is answered to a refresh that drew the graph anew.
pub fn reframed_output(
    operation: RefreshOperation,
    record_artifact: &ArtifactRecord,
    graph_artifact: &ArtifactRecord,
    state: &ResearchState,
    slot_publication: &SlotPublication,
) -> (r: Json)
    ensures
        r@ == Tree::Object(
            with_publication(
                reframed_rows(operation, record_artifact@, graph_artifact@, state.deep_view()),
                slot_publication.deep_view(),
            ),
        ),
{
    let rows = vec![
        ("graph".to_owned(), artifact_output(graph_artifact)),
        ("mode".to_owned(), Json::of_text(RESEARCH_MODE)),
        ("record".to_owned(), artifact_output(record_artifact)),
        ("reframed".to_owned(), Json::Bool(true)),
        ("refresh_operation".to_owned(), Json::of_text(operation.as_str())),
        ("schema".to_owned(), Json::of_text(RESEARCH_REFRESH_SCHEMA)),
        ("updated".to_owned(), Json::Bool(true)),
        (
            "watermark_event_id".to_owned(),
            Json::of_optional_text(&state.observed_through_event_id),
        ),
    ];
    assert(rows.deep_view() =~= reframed_rows(
        operation,
        record_artifact@,
        graph_artifact@,
        state.deep_view(),
    ));
    with_slot_publication(rows, slot_publication)
}

/// Events that pass are the ones that the observer was shown, and end at their watermark: what
/// a record then names as observed is what was shown.
pub proof fn applied_events_are_the_shown_ones(
    b: super::input::Brief,
    s: Selected,
    after: Option<Seq<char>>,
    fence: crate::refresh::PageFence,
    listed: Seq<Event>,
    record: Option<Record>,
    events: Seq<Event>,
)
    requires
        listed.len() <= usize::MAX,
        super::brief::step_of(b, s, after, fence, listed, record) matches Ok(
            super::brief::Step::Ready(p),
        ),
        events_fault(
            super::brief::step_of(b, s, after, fence, listed, record)->Ok_0->Ready_0.apply,
            events,
        ) is None,
    ensures
        events.len() > 0,
        ids_of(events).is_prefix_of(ids_of(listed)),
        super::brief::step_of(
            b,
            s,
            after,
            fence,
            listed,
            record,
        )->Ok_0->Ready_0.apply.watermark == events.last().id,
{
    super::brief::tasks_end_at_their_watermark(b, s, after, fence, listed, record);
}

/// An answer is applied only to the state that its brief was made of: the same record is active,
/// and the cursor has not moved.
pub proof fn stale_answers_are_refused(s: Option<Selected>, a: Apply)
    ensures
        stale_fault(s, a) is None <==> s is Some && (match s->0.record {
            Some(kept) => a.expected == Some(kept.record.persisted_event_id),
            None => a.expected is None,
        }) && s->0.observed_through_event_id == a.after,
{
}

/// What is appended is what was proposed of these events: to the record that is active, up to the
/// watermark of the brief, at the time of the last event, and citing the result of the observer.
pub proof fn what_was_proposed_is_appended(
    s: Selected,
    prior: Option<Record>,
    events: Seq<Event>,
    batch: Batch,
    a: Apply,
    c: Companion,
)
    ensures
        append_of(s, prior, events, batch, a, c) is Ok <==> events.len() > 0,
        append_of(s, prior, events, batch, a, c) matches Ok(x) ==> {
            &&& x.prior == prior && x.events == events && x.batch == batch
            &&& x.watermark == a.watermark && x.session == a.session
            &&& x.observer_result == Some(c.result)
            &&& x.generated_at == events[events.len() - 1].ts
            &&& s.record is None ==> x.predecessor is None
            &&& s.record matches Some(kept) ==> x.predecessor == Some(kept.record.persisted_event_id)
        },
{
}

/// An artifact is told by where it stands, and an observer by its names.
pub proof fn artifacts_and_observers_are_told(r: Stored, c: Companion)
    ensures
        artifact_tree(r).at("byte_len"@) == counted(r.byte_len as nat),
        artifact_tree(r).text_at("persisted_event_id"@) == Some(r.persisted_event_id),
        artifact_tree(r).text_at("relative_path"@) == Some(r.relative_path),
        artifact_tree(r).text_at("sha256"@) == Some(r.sha256),
        companion_tree(c).at("child_agent_id"@) == optional_text(c.child),
        companion_tree(c).text_at("result_event_id"@) == Some(c.result),
        companion_tree(c).at("spawn_event_id"@) == optional_text(c.spawn),
{
    let o = artifact_tree(r)->Object_0;
    reveal_strlit("byte_len");
    reveal_strlit("persisted_event_id");
    reveal_strlit("relative_path");
    reveal_strlit("sha256");
    crate::table::lemma_first_row(o, "byte_len"@, 0);
    assert(o[0].0.len() == 8 && "persisted_event_id"@.len() == 18);
    crate::table::lemma_first_row(o, "persisted_event_id"@, 1);
    assert(o[0].0.len() == 8 && o[1].0.len() == 18 && "relative_path"@.len() == 13);
    crate::table::lemma_first_row(o, "relative_path"@, 2);
    assert(o[0].0.len() == 8 && o[1].0.len() == 18 && o[2].0.len() == 13 && "sha256"@.len() == 6);
    crate::table::lemma_first_row(o, "sha256"@, 3);
    let p = companion_tree(c)->Object_0;
    reveal_strlit("child_agent_id");
    reveal_strlit("result_event_id");
    reveal_strlit("spawn_event_id");
    crate::table::lemma_first_row(p, "child_agent_id"@, 0);
    assert(p[0].0.len() == 14 && "result_event_id"@.len() == 15);
    crate::table::lemma_first_row(p, "result_event_id"@, 1);
    assert(p[0].0[0] == 'c' && p[1].0.len() == 15 && "spawn_event_id"@.len() == 14 && "spawn_event_id"@[0] == 's');
    crate::table::lemma_first_row(p, "spawn_event_id"@, 2);
}

/// What was applied is told: how much the record holds and accepts now, and which artifacts hold
/// the record and its graph.
pub proof fn applied_records_are_told(
    r: Record,
    a: Accepted,
    record: Stored,
    graph: Stored,
    s: Selected,
    c: Companion,
)
    ensures
        ({
            let t = Tree::Object(applied_rows(r, a, record, graph, s, c));
            &&& t.at("assessment_count"@) == counted(a.assessments.len())
            &&& t.at("entity_count"@) == counted(a.entities.len())
            &&& t.at("relation_count"@) == counted(a.relations.len())
            &&& t.at("episode_count"@) == counted(r.episodes.len())
            &&& t.at("ledger_entry_count"@) == counted(r.ledger.len())
            &&& t.at("companion"@) == companion_tree(c)
            &&& t.at("record"@) == artifact_tree(record)
            &&& t.at("graph"@) == artifact_tree(graph)
            &&& t.text_at("mode"@) == Some("research_record_v1"@)
            &&& t.text_at("schema"@) == Some("euler.research_record.apply.v1"@)
            &&& t.at("watermark_event_id"@) == optional_text(s.observed_through_event_id)
        }),
{
    let o = applied_rows(r, a, record, graph, s, c);
    reveal_strlit("assessment_count");
    reveal_strlit("companion");
    reveal_strlit("entity_count");
    reveal_strlit("episode_count");
    reveal_strlit("graph");
    reveal_strlit("ledger_entry_count");
    reveal_strlit("mode");
    reveal_strlit("record");
    reveal_strlit("relation_count");
    reveal_strlit("schema");
    reveal_strlit("watermark_event_id");
    crate::table::lemma_first_row(o, "assessment_count"@, 0);
    assert(o[0].0.len() == 16 && "companion"@.len() == 9);
    crate::table::lemma_first_row(o, "companion"@, 1);
    assert(o[0].0.len() == 16 && o[1].0.len() == 9 && "entity_count"@.len() == 12);
    crate::table::lemma_first_row(o, "entity_count"@, 2);
    assert(o[0].0.len() == 16 && o[1].0.len() == 9 && o[2].0.len() == 12 && "episode_count"@.len() == 13);
    crate::table::lemma_first_row(o, "episode_count"@, 3);
    assert(o[0].0.len() == 16 && o[1].0.len() == 9 && o[2].0.len() == 12 && o[3].0.len() == 13 && "graph"@.len() == 5);
    crate::table::lemma_first_row(o, "graph"@, 4);
    assert(o[0].0.len() == 16 && o[1].0.len() == 9 && o[2].0.len() == 12 && o[3].0.len() == 13 && o[4].0.len() == 5 && "ledger_entry_count"@.len() == 18);
    crate::table::lemma_first_row(o, "ledger_entry_count"@, 5);
    assert(o[0].0.len() == 16 && o[1].0.len() == 9 && o[2].0.len() == 12 && o[3].0.len() == 13 && o[4].0.len() == 5 && o[5].0.len() == 18 && "mode"@.len() == 4);
    crate::table::lemma_first_row(o, "mode"@, 6);
    assert(o[0].0.len() == 16 && o[1].0.len() == 9 && o[2].0.len() == 12 && o[3].0.len() == 13 && o[4].0.len() == 5 && o[5].0.len() == 18 && o[6].0.len() == 4 && "record"@.len() == 6);
    crate::table::lemma_first_row(o, "record"@, 7);
    assert(o[0].0.len() == 16 && o[1].0.len() == 9 && o[2].0.len() == 12 && o[3].0.len() == 13 && o[4].0.len() == 5 && o[5].0.len() == 18 && o[6].0.len() == 4 && o[7].0.len() == 6 && "relation_count"@.len() == 14);
    crate::table::lemma_first_row(o, "relation_count"@, 8);
    assert(o[0].0.len() == 16 && o[1].0.len() == 9 && o[2].0.len() == 12 && o[3].0.len() == 13 && o[4].0.len() == 5 && o[5].0.len() == 18 && o[6].0.len() == 4 && o[7].0[0] == 'r' && o[8].0.len() == 14 && "schema"@.len() == 6 && "schema"@[0] == 's');
    crate::table::lemma_first_row(o, "schema"@, 9);
    assert(o[0].0.len() == 16 && o[1].0.len() == 9 && o[2].0.len() == 12 && o[3].0.len() == 13 && o[4].0.len() == 5 && o[5].0[0] == 'l' && o[6].0.len() == 4 && o[7].0.len() == 6 && o[8].0.len() == 14 && o[9].0.len() == 6 && "watermark_event_id"@.len() == 18 && "watermark_event_id"@[0] == 'w');
    crate::table::lemma_first_row(o, "watermark_event_id"@, 10);
}

/// A refresh that found nothing new says that nothing was updated; one that framed the graph anew
/// says so, and which artifacts hold the record and its graph.
pub proof fn refreshes_are_told(
    operation: RefreshOperation,
    record: Stored,
    graph: Stored,
    s: Selected,
    r: Record,
    c: Companion,
)
    ensures
        ({
            let t = unchanged_tree(operation);
            &&& t.flag_at("updated"@) == Some(false)
            &&& t.text_at("refresh_operation"@) == Some(operation.name())
            &&& t.text_at("mode"@) == Some("research_record_v1"@)
            &&& t.text_at("reason"@) == Some("no new observable pilot events"@)
            &&& t.text_at("schema"@) == Some("euler.research_record.refresh.v1"@)
        }),
        ({
            let t = Tree::Object(reframed_rows(operation, record, graph, s));
            &&& t.flag_at("updated"@) == Some(true)
            &&& t.flag_at("reframed"@) == Some(true)
            &&& t.at("graph"@) == artifact_tree(graph)
            &&& t.at("record"@) == artifact_tree(record)
            &&& t.text_at("refresh_operation"@) == Some(operation.name())
            &&& t.text_at("schema"@) == Some("euler.research_record.refresh.v1"@)
            &&& t.at("watermark_event_id"@) == optional_text(s.observed_through_event_id)
        }),
        ({
            let t = Tree::Object(record_metadata(r, c));
            &&& t.text_at("observer_result_event_id"@) == Some(c.result)
            &&& t.text_at("operation"@) == Some(r.construction.operation.name())
            &&& t.at("predecessor_record_artifact_event_id"@) == optional_text(
                r.construction.predecessor_record_artifact_event_id,
            )
            &&& t.at("predecessor_record_watermark_event_id"@) == optional_text(
                r.construction.predecessor_record_watermark_event_id,
            )
            &&& t.text_at("provenance_watermark_event_id"@) == Some(
                r.session.provenance_watermark_event_id,
            )
            &&& t.text_at("schema"@) == Some("euler.research_record.v1"@)
        }),
{
    let o = unchanged_tree(operation)->Object_0;
    reveal_strlit("mode");
    reveal_strlit("reason");
    reveal_strlit("refresh_operation");
    reveal_strlit("schema");
    reveal_strlit("updated");
    crate::table::lemma_first_row(o, "mode"@, 0);
    assert(o[0].0.len() == 4 && "reason"@.len() == 6);
    crate::table::lemma_first_row(o, "reason"@, 1);
    assert(o[0].0.len() == 4 && o[1].0.len() == 6 && "refresh_operation"@.len() == 17);
    crate::table::lemma_first_row(o, "refresh_operation"@, 2);
    assert(o[0].0.len() == 4 && o[1].0[0] == 'r' && o[2].0.len() == 17 && "schema"@.len() == 6 && "schema"@[0] == 's');
    crate::table::lemma_first_row(o, "schema"@, 3);
    assert(o[0].0.len() == 4 && o[1].0.len() == 6 && o[2].0.len() == 17 && o[3].0.len() == 6 && "updated"@.len() == 7);
    crate::table::lemma_first_row(o, "updated"@, 4);
    let p = reframed_rows(operation, record, graph, s);
    reveal_strlit("graph");
    reveal_strlit("mode");
    reveal_strlit("record");
    reveal_strlit("reframed");
    reveal_strlit("refresh_operation");
    reveal_strlit("schema");
    reveal_strlit("updated");
    reveal_strlit("watermark_event_id");
    crate::table::lemma_first_row(p, "graph"@, 0);
    assert(p[0].0.len() == 5 && "mode"@.len() == 4);
    crate::table::lemma_first_row(p, "mode"@, 1);
    assert(p[0].0.len() == 5 && p[1].0.len() == 4 && "record"@.len() == 6);
    crate::table::lemma_first_row(p, "record"@, 2);
    assert(p[0].0.len() == 5 && p[1].0.len() == 4 && p[2].0.len() == 6 && "reframed"@.len() == 8);
    crate::table::lemma_first_row(p, "reframed"@, 3);
    assert(p[0].0.len() == 5 && p[1].0.len() == 4 && p[2].0.len() == 6 && p[3].0.len() == 8 && "refresh_operation"@.len() == 17);
    crate::table::lemma_first_row(p, "refresh_operation"@, 4);
    assert(p[0].0.len() == 5 && p[1].0.len() == 4 && p[2].0[0] == 'r' && p[3].0.len() == 8 && p[4].0.len() == 17 && "schema"@.len() == 6 && "schema"@[0] == 's');
    crate::table::lemma_first_row(p, "schema"@, 5);
    assert(p[0].0.len() == 5 && p[1].0.len() == 4 && p[2].0.len() == 6 && p[3].0.len() == 8 && p[4].0.len() == 17 && p[5].0.len() == 6 && "updated"@.len() == 7);
    crate::table::lemma_first_row(p, "updated"@, 6);
    assert(p[0].0.len() == 5 && p[1].0.len() == 4 && p[2].0.len() == 6 && p[3].0.len() == 8 && p[4].0.len() == 17 && p[5].0.len() == 6 && p[6].0.len() == 7 && "watermark_event_id"@.len() == 18);
    crate::table::lemma_first_row(p, "watermark_event_id"@, 7);
    let m = record_metadata(r, c);
    reveal_strlit("observer_result_event_id");
    reveal_strlit("operation");
    reveal_strlit("predecessor_record_artifact_event_id");
    reveal_strlit("predecessor_record_watermark_event_id");
    reveal_strlit("provenance_watermark_event_id");
    reveal_strlit("schema");
    crate::table::lemma_first_row(m, "observer_result_event_id"@, 0);
    assert(m[0].0.len() == 24 && "operation"@.len() == 9);
    crate::table::lemma_first_row(m, "operation"@, 1);
    assert(m[0].0.len() == 24 && m[1].0.len() == 9 && "predecessor_record_artifact_event_id"@.len() == 36);
    crate::table::lemma_first_row(m, "predecessor_record_artifact_event_id"@, 2);
    assert(m[0].0.len() == 24 && m[1].0.len() == 9 && m[2].0.len() == 36 && "predecessor_record_watermark_event_id"@.len() == 37);
    crate::table::lemma_first_row(m, "predecessor_record_watermark_event_id"@, 3);
    assert(m[0].0.len() == 24 && m[1].0.len() == 9 && m[2].0.len() == 36 && m[3].0.len() == 37 && "provenance_watermark_event_id"@.len() == 29);
    crate::table::lemma_first_row(m, "provenance_watermark_event_id"@, 4);
    assert(m[0].0.len() == 24 && m[1].0.len() == 9 && m[2].0.len() == 36 && m[3].0.len() == 37 && m[4].0.len() == 29 && "schema"@.len() == 6);
    crate::table::lemma_first_row(m, "schema"@, 5);
}

/// What an observer proposes is read of an answer of at most 65536 bytes, without the fences that
/// it may stand in. The events that its answer is about end with the watermark of its brief; where
/// that is where the record stopped, there are none.
pub proof fn proposals_are_about_their_window(output: Seq<char>, page: Page, a: Apply)
    ensures
        proposals_in(output) is Ok <==> byte_len(output) <= 65536,
        proposals_in(output) matches Ok(text) ==> text == bare(output),
        applied_page(page, a) matches Ok(now) ==> {
            &&& now.watermark_event_id == Some(a.watermark)
            &&& now.next_after_event_id is None && !now.truncated
            &&& now.applied_limit == page.applied_limit && now.applied_scan_limit
                == page.applied_scan_limit
            &&& a.after == Some(a.watermark) ==> now.events.len() == 0 && now.scanned_events == 0
            &&& a.after != Some(a.watermark) ==> {
                &&& 0 < now.events.len() <= page.events.len()
                &&& now.events == page.events.take(now.events.len() as int)
                &&& now.events.last().id == a.watermark
                &&& now.scanned_events == page.scanned_events
            }
        },
{
    lemma_shown_end(page.events, a.watermark, 0);
}

proof fn lemma_shown_end(events: Seq<Event>, id: Seq<char>, i: nat)
    ensures
        event_index(events, id, i) matches Some(k) ==> i <= k < events.len() && events[k].id == id,
    decreases events.len() - i,
{
    if i < events.len() {
        lemma_shown_end(events, id, i + 1);
    }
}

} // verus!
