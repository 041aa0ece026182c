//! The update and catch-up commands: what a page of events asks for, and what is said of it.

use crate::event::{Event, EventEnvelope, EventKind};
use crate::json::{counted, find_text, optional_text, text_member, Json, Tree};
use crate::projection::forest::{
    artifact_tree, metadata_of, projected, Projected, Projection, Ratios,
};
use crate::schema::{
    CATCH_UP_COMMAND_NAME, DISPLAY_NAME, EXTENSION_ID, LEGACY_MEDIA_TYPE_JSON, MEDIA_TYPE_JSON,
    PRIOR_MEDIA_TYPE_JSON, RECORD_OBSERVATION_COMMAND_NAME, RESEARCH_DAG_MEDIA_TYPE,
    RESEARCH_RECORD_MEDIA_TYPE, SCHEMA_NAME, UPDATE_COMMAND_NAME,
};
use crate::sdk::{
    answers, fault, input_error, valid_cursor, ArtifactRecord, ArtifactWrite, EventFeedCheckpoint,
    EventFeedCheckpointError, ExtensionError, Page, ProvenancePage, Stored,
};
use crate::slot_summary::publication::{
    merged, with_publication, with_slot_publication, Publication, SlotPublication,
};
use crate::table::holds;
use crate::text::{bytes_of, join2, same};
use vstd::prelude::*;
use vstd::utf8::encode_utf8;

verus! {

/// Whether a media type is one of the graphs and records that the extension keeps.
pub open spec fn own_media_type(media_type: Seq<char>) -> bool {
    media_type == MEDIA_TYPE_JSON@ || media_type == PRIOR_MEDIA_TYPE_JSON@ || media_type
        == LEGACY_MEDIA_TYPE_JSON@ || media_type == RESEARCH_RECORD_MEDIA_TYPE@ || media_type
        == RESEARCH_DAG_MEDIA_TYPE@
}

/// Whether an event comes of what the extension itself did.
pub open spec fn self_event(event: Event) -> Result<bool, Seq<char>> {
    let source = text_member(event.payload, "source"@);
    let extension = text_member(event.payload, "extension_id"@);
    let command = text_member(event.payload, "command"@);
    if event.kind == EventKind::EXTENSION_ARTIFACT@ {
        match (extension, text_member(event.payload, "media_type"@)) {
            (None, _) => Err("malformed extension.artifact event: extension_id"@),
            (_, None) => Err("malformed extension.artifact event: media_type"@),
            (Some(extension), Some(media_type)) => Ok(
                extension == EXTENSION_ID@ && own_media_type(media_type),
            ),
        }
    } else if event.kind == EventKind::CONTEXT_SLOT_UPDATED@ {
        Ok(extension == Some(EXTENSION_ID@))
    } else if event.kind == EventKind::AGENT_SPAWN@ || event.kind == EventKind::AGENT_RESULT@ {
        Ok(
            source == Some("extension"@) && extension == Some(EXTENSION_ID@) && command == Some(
                RECORD_OBSERVATION_COMMAND_NAME@,
            ),
        )
    } else if event.kind == EventKind::PERMISSION_DECISION@ {
        Ok(source == Some("extension"@) && extension == Some(EXTENSION_ID@))
    } else {
        Ok(false)
    }
}

fn payload_is(event: &EventEnvelope, field: &str, value: &str) -> (r: bool)
    ensures
        r == (text_member(event@.payload, field@) == Some(value@)),
{
    match find_text(&event.payload, field) {
        Some(text) => same(text, value),
        None => false,
    }
}

fn required_artifact_payload_string<'a>(event: &'a EventEnvelope, field: &str) -> (r: Result<
    &'a String,
    ExtensionError,
>)
    ensures
        match text_member(event@.payload, field@) {
            Some(text) => r matches Ok(s) && s@ == text,
            None => r matches Err(e) && e is Message && e->Message_0@
                == "malformed extension.artifact event: "@ + field@,
        },
{
    match find_text(&event.payload, field) {
        Some(text) => Ok(text),
        None => Err(fault(join2("malformed extension.artifact event: ", field))),
    }
}

/// Whether the event comes of what the extension itself did.
pub fn is_causal_dag_self_event(event: &EventEnvelope) -> (r: Result<bool, ExtensionError>)
    ensures
        answers(r, self_event(event@)),
{
    let kind = event.kind.as_str();
    if same(kind, EventKind::EXTENSION_ARTIFACT) {
        proof {
            reveal_strlit("malformed extension.artifact event: ");
            reveal_strlit("extension_id");
            reveal_strlit("media_type");
            reveal_strlit("malformed extension.artifact event: extension_id");
            reveal_strlit("malformed extension.artifact event: media_type");
            assert("malformed extension.artifact event: "@ + "extension_id"@
                =~= "malformed extension.artifact event: extension_id"@);
            assert("malformed extension.artifact event: "@ + "media_type"@
                =~= "malformed extension.artifact event: media_type"@);
        }
        let extension = required_artifact_payload_string(event, "extension_id")?;
        let media_type = required_artifact_payload_string(event, "media_type")?;
        return Ok(
            same(extension, EXTENSION_ID) && (same(media_type, MEDIA_TYPE_JSON) || same(
                media_type,
                PRIOR_MEDIA_TYPE_JSON,
            ) || same(media_type, LEGACY_MEDIA_TYPE_JSON) || same(
                media_type,
                RESEARCH_RECORD_MEDIA_TYPE,
            ) || same(media_type, RESEARCH_DAG_MEDIA_TYPE)),
        );
    }
    let of_extension = payload_is(event, "extension_id", EXTENSION_ID);
    let by_extension = payload_is(event, "source", "extension") && of_extension;
    if same(kind, EventKind::CONTEXT_SLOT_UPDATED) {
        Ok(of_extension)
    } else if same(kind, EventKind::AGENT_SPAWN) || same(kind, EventKind::AGENT_RESULT) {
        Ok(by_extension && payload_is(event, "command", RECORD_OBSERVATION_COMMAND_NAME))
    } else if same(kind, EventKind::PERMISSION_DECISION) {
        Ok(by_extension)
    } else {
        Ok(false)
    }
}

/// The events of a page that are projected, and the ids of those that are left out, from event
/// `i` on.
pub open spec fn split_from(
    events: Seq<Event>,
    i: nat,
    sources: Seq<Event>,
    ignored: Seq<Seq<char>>,
) -> Result<(Seq<Event>, Seq<Seq<char>>), Seq<char>>
    decreases events.len() - i,
{
    if i >= events.len() {
        Ok((sources, ignored))
    } else {
        match self_event(events[i as int]) {
            Err(e) => Err(e),
            Ok(true) => split_from(events, i + 1, sources, ignored.push(events[i as int].id)),
            Ok(false) => split_from(events, i + 1, sources.push(events[i as int]), ignored),
        }
    }
}

/// The events of a page that are projected, and the ids of those that are left out.
pub open spec fn split(events: Seq<Event>) -> Result<(Seq<Event>, Seq<Seq<char>>), Seq<char>> {
    split_from(events, 0, Seq::empty(), Seq::empty())
}

proof fn lemma_split(
    events: Seq<Event>,
    i: nat,
    sources: Seq<Event>,
    ignored: Seq<Seq<char>>,
    k: int,
)
    requires
        split_from(events, i, sources, ignored) is Ok,
        i <= events.len(),
    ensures
        ({
            let (kept, left) = split_from(events, i, sources, ignored)->Ok_0;
            &&& kept.len() + left.len() == sources.len() + ignored.len() + events.len() - i
            &&& sources.is_prefix_of(kept)
            &&& ignored.is_prefix_of(left)
            &&& i <= k < events.len() && self_event(events[k]) == Ok::<bool, Seq<char>>(true)
                ==> left.contains(events[k].id)
            &&& i <= k < events.len() && self_event(events[k]) != Ok::<bool, Seq<char>>(true)
                ==> kept.contains(events[k])
            &&& forall|j: int|
                sources.len() <= j < kept.len() ==> self_event(#[trigger] kept[j]) == Ok::<
                    bool,
                    Seq<char>,
                >(false)
        }),
    decreases events.len() - i,
{
    if i < events.len() {
        let event = events[i as int];
        let (kept, left) = split_from(events, i, sources, ignored)->Ok_0;
        if self_event(event) == Ok::<bool, Seq<char>>(true) {
            let more = ignored.push(event.id);
            lemma_split(events, i + 1, sources, more, k);
            assert(left[more.len() - 1] == event.id) by {
                assert(more[more.len() - 1] == event.id);
            }
            assert(ignored =~= left.take(ignored.len() as int)) by {
                assert(more =~= left.take(more.len() as int));
                assert(ignored =~= more.take(ignored.len() as int));
            }
        } else {
            let more = sources.push(event);
            lemma_split(events, i + 1, more, ignored, k);
            assert(kept[more.len() - 1] == event) by {
                assert(more[more.len() - 1] == event);
            }
            assert(sources =~= kept.take(sources.len() as int)) by {
                assert(more =~= kept.take(more.len() as int));
                assert(sources =~= more.take(sources.len() as int));
            }
        }
    }
}

/// A split leaves no event out: each is projected, or its id is among those left out; and no
/// event of the extension's own is projected.
pub proof fn a_split_accounts_for_every_event(events: Seq<Event>, k: int)
    requires
        split(events) is Ok,
        0 <= k < events.len(),
    ensures
        ({
            let (kept, left) = split(events)->Ok_0;
            &&& kept.len() + left.len() == events.len()
            &&& self_event(events[k]) == Ok::<bool, Seq<char>>(true) ==> left.contains(events[k].id)
            &&& self_event(events[k]) != Ok::<bool, Seq<char>>(true) ==> kept.contains(events[k])
            &&& forall|j: int|
                0 <= j < kept.len() ==> self_event(#[trigger] kept[j]) == Ok::<bool, Seq<char>>(
                    false,
                )
        }),
{
    lemma_split(events, 0, Seq::empty(), Seq::empty(), k);
}

/// The events of a page, split.
pub struct UpdateEventSplit {
    pub source_events: Vec<EventEnvelope>,
    pub ignored_self_event_ids: Vec<String>,
}

impl DeepView for UpdateEventSplit {
    type V = (Seq<Event>, Seq<Seq<char>>);

    open spec fn deep_view(&self) -> (Seq<Event>, Seq<Seq<char>>) {
        (self.source_events.deep_view(), self.ignored_self_event_ids.deep_view())
    }
}

pub fn split_update_events(events: &Vec<EventEnvelope>) -> (r: Result<
    UpdateEventSplit,
    ExtensionError,
>)
    ensures
        answers(r, split(events.deep_view())),
{
    let mut sources: Vec<EventEnvelope> = Vec::new();
    let mut ignored: Vec<String> = Vec::new();
    let mut i: usize = 0;
    assert(sources.deep_view() =~= Seq::empty());
    assert(ignored.deep_view() =~= Seq::empty());
    while i < events.len()
        invariant
            i <= events@.len(),
            split(events.deep_view()) == split_from(
                events.deep_view(),
                i as nat,
                sources.deep_view(),
                ignored.deep_view(),
            ),
        decreases events@.len() - i,
    {
        assert(events.deep_view()[i as int] == events@[i as int]@);
        if is_causal_dag_self_event(&events[i])? {
            let ghost was = ignored.deep_view();
            ignored.push(events[i].id.clone());
            assert(ignored.deep_view() =~= was.push(events.deep_view()[i as int].id));
        } else {
            let ghost was = sources.deep_view();
            sources.push(events[i].clone());
            assert(sources.deep_view() =~= was.push(events.deep_view()[i as int]));
        }
        i += 1;
    }
    Ok(UpdateEventSplit { source_events: sources, ignored_self_event_ids: ignored })
}

/// The ids of events.
pub open spec fn ids_of(events: Seq<Event>) -> Seq<Seq<char>> {
    Seq::new(events.len(), |i: int| events[i].id)
}

pub fn event_ids(events: &Vec<EventEnvelope>) -> (r: Vec<String>)
    ensures
        r.deep_view() == ids_of(events.deep_view()),
{
    let mut out: Vec<String> = Vec::new();
    let mut i: usize = 0;
    while i < events.len()
        invariant
            i <= events@.len(),
            out@.len() == i,
            forall|j: int| 0 <= j < i ==> (#[trigger] out@[j])@ == events@[j].id@,
        decreases events@.len() - i,
    {
        out.push(events[i].id.clone());
        i += 1;
    }
    assert(out.deep_view() =~= ids_of(events.deep_view()));
    out
}

/// What a page asks of an update: nothing to write, or an artifact.
pub enum UpdatePlan {
    Idle { ignored: Vec<String> },
    Write { projection: Projection, source_event_ids: Vec<String>, ignored: Vec<String> },
}

/// What an [`UpdatePlan`] holds.
pub enum Plan {
    Idle { ignored: Seq<Seq<char>> },
    Write { projection: Projected, source_event_ids: Seq<Seq<char>>, ignored: Seq<Seq<char>> },
}

impl DeepView for UpdatePlan {
    type V = Plan;

    open spec fn deep_view(&self) -> Plan {
        match self {
            UpdatePlan::Idle { ignored } => Plan::Idle { ignored: ignored.deep_view() },
            UpdatePlan::Write { projection, source_event_ids, ignored } => Plan::Write {
                projection: projection.deep_view(),
                source_event_ids: source_event_ids.deep_view(),
                ignored: ignored.deep_view(),
            },
        }
    }
}

/// What a page asks of an update.
pub open spec fn planned(
    events: Seq<Event>,
    truncated: bool,
    session: Option<Seq<char>>,
) -> Result<Plan, Seq<char>> {
    match split(events) {
        Err(e) => Err(e),
        Ok((sources, ignored)) => if sources.len() == 0 {
            Ok(Plan::Idle { ignored })
        } else {
            match projected(sources, session, !truncated) {
                Err(e) => Err(e),
                Ok(projection) => Ok(
                    Plan::Write { projection, source_event_ids: ids_of(sources), ignored },
                ),
            }
        },
    }
}

pub fn plan_update(page: &ProvenancePage, session_id: &Option<String>) -> (r: Result<
    UpdatePlan,
    ExtensionError,
>)
    ensures
        answers(
            r,
            planned(page.events.deep_view(), page.truncated, session_id.deep_view()),
        ),
{
    let split = split_update_events(&page.events)?;
    assert(split.source_events.deep_view().len() == split.source_events@.len());
    if split.source_events.len() == 0 {
        return Ok(UpdatePlan::Idle { ignored: split.ignored_self_event_ids });
    }
    let projection = Projection::from_events(&split.source_events, session_id, !page.truncated)?;
    let source_event_ids = event_ids(&split.source_events);
    Ok(
        UpdatePlan::Write {
            projection,
            source_event_ids,
            ignored: split.ignored_self_event_ids,
        },
    )
}

/// The artifact of a projection, as the host is asked to keep it.
pub fn projection_artifact(
    projection: &Projection,
    page: &ProvenancePage,
    source_event_ids: Vec<String>,
    ratios: &Ratios,
) -> (r: ArtifactWrite)
    ensures
        r.display_name@ == DISPLAY_NAME@,
        r.media_type@ == MEDIA_TYPE_JSON@,
        r.bytes@ == encode_utf8(
            crate::json::json_text(
                artifact_tree(projection.deep_view(), ratios.branching@, ratios.sequence@),
            ).push('\n'),
        ),
        r.source_event_ids == source_event_ids,
        r.metadata.deep_view() == metadata_of(projection.deep_view(), page.deep_view()),
{
    ArtifactWrite {
        display_name: DISPLAY_NAME.to_owned(),
        media_type: MEDIA_TYPE_JSON.to_owned(),
        bytes: bytes_of(&projection.artifact_text(ratios)),
        source_event_ids,
        metadata: projection.artifact_metadata(page),
    }
}

/// The checkpoint behind a page.
pub fn page_checkpoint(page: &ProvenancePage) -> (r: Result<EventFeedCheckpoint, ExtensionError>)
    ensures
        match page.deep_view().watermark_event_id {
            None => r matches Err(e) && e is Message && e->Message_0@
                == "causal-dag update page has no checkpoint watermark"@,
            Some(id) => if valid_cursor(id) {
                r matches Ok(c) && c.valid() && c.after_event_id@ == id
            } else {
                r matches Err(e) && e is CheckpointFailed && e->CheckpointFailed_0@
                    == EventFeedCheckpointError::InvalidCursor.text()
            },
        },
{
    match &page.watermark_event_id {
        None => Err(input_error("causal-dag update page has no checkpoint watermark")),
        Some(id) => match EventFeedCheckpoint::new(id.clone()) {
            Ok(checkpoint) => Ok(checkpoint),
            Err(error) => Err(ExtensionError::CheckpointFailed(error.message())),
        },
    }
}

/// The checkpoint of an update without anything to write: none where no events were left out.
pub fn idle_checkpoint(page: &ProvenancePage, ignored: &Vec<String>) -> (r: Result<
    Option<EventFeedCheckpoint>,
    ExtensionError,
>)
    ensures
        if ignored@.len() == 0 {
            r matches Ok(c) && c is None
        } else {
            match page.deep_view().watermark_event_id {
                None => r matches Err(e) && e is Message && e->Message_0@
                    == "causal-dag update page has no checkpoint watermark"@,
                Some(id) => if valid_cursor(id) {
                    r matches Ok(Some(c)) && c.valid() && c.after_event_id@ == id
                } else {
                    r matches Err(e) && e is CheckpointFailed && e->CheckpointFailed_0@
                        == EventFeedCheckpointError::InvalidCursor.text()
                },
            }
        },
{
    if ignored.len() == 0 {
        return Ok(None);
    }
    match page_checkpoint(page) {
        Ok(checkpoint) => Ok(Some(checkpoint)),
        Err(error) => Err(error),
    }
}

/// What came of one update.
pub struct UpdateTick {
    pub output: Json,
    pub updated: bool,
    pub has_more: bool,
    pub persisted_event_id: Option<String>,
    pub checkpoint_after_event_id: Option<String>,
    pub source_event_count: usize,
    pub ignored_self_event_ids: Vec<String>,
    pub slot_publication: SlotPublication,
}

/// What an [`UpdateTick`] holds.
#[verifier::ext_equal]
pub struct Tick {
    pub output: Tree,
    pub updated: bool,
    pub has_more: bool,
    pub persisted_event_id: Option<Seq<char>>,
    pub checkpoint_after_event_id: Option<Seq<char>>,
    pub source_event_count: nat,
    pub ignored_self_event_ids: Seq<Seq<char>>,
    pub slot_publication: Publication,
}

impl DeepView for UpdateTick {
    type V = Tick;

    open spec fn deep_view(&self) -> Tick {
        Tick {
            output: self.output@,
            updated: self.updated,
            has_more: self.has_more,
            persisted_event_id: self.persisted_event_id.deep_view(),
            checkpoint_after_event_id: self.checkpoint_after_event_id.deep_view(),
            source_event_count: self.source_event_count as nat,
            ignored_self_event_ids: self.ignored_self_event_ids.deep_view(),
            slot_publication: self.slot_publication.deep_view(),
        }
    }
}

/// What an update that wrote an artifact says.
pub open spec fn written_rows(
    page: Page,
    p: Projected,
    sources: nat,
    ignored: nat,
    record: Stored,
    checkpoint: Seq<char>,
) -> Seq<(Seq<char>, Tree)> {
    seq![
        ("applied_limit"@, counted(page.applied_limit as nat)),
        ("applied_scan_limit"@, counted(page.applied_scan_limit as nat)),
        ("byte_len"@, counted(record.byte_len as nat)),
        ("checkpoint_advanced"@, Tree::Bool(true)),
        ("checkpoint_after_event_id"@, Tree::Text(checkpoint)),
        ("command"@, Tree::Text(UPDATE_COMMAND_NAME@)),
        ("degraded"@, Tree::Bool(p.degraded)),
        ("edge_count"@, counted(p.edges.len())),
        ("has_more"@, Tree::Bool(page.truncated)),
        ("ignored_event_count"@, counted(ignored)),
        ("next_after_event_id"@, optional_text(page.next_after_event_id)),
        ("node_count"@, counted(p.nodes.len())),
        ("persisted_event_id"@, Tree::Text(record.persisted_event_id)),
        ("query_watermark_event_id"@, optional_text(page.watermark_event_id)),
        ("relative_path"@, Tree::Text(record.relative_path)),
        ("scanned_events"@, counted(page.scanned_events as nat)),
        ("schema"@, Tree::Text(SCHEMA_NAME@)),
        ("sha256"@, Tree::Text(record.sha256)),
        ("source_event_count"@, counted(sources)),
        ("truncated"@, Tree::Bool(page.truncated)),
        ("updated"@, Tree::Bool(true)),
        ("watermark_event_id"@, p.watermark_event_id),
    ]
}

/// What came of an update that wrote an artifact.
pub open spec fn written(
    page: Page,
    p: Projected,
    sources: nat,
    ignored: Seq<Seq<char>>,
    record: Stored,
    checkpoint: Seq<char>,
    publication: Publication,
) -> Tick {
    Tick {
        output: Tree::Object(
            with_publication(
                written_rows(page, p, sources, ignored.len(), record, checkpoint),
                publication,
            ),
        ),
        updated: true,
        has_more: page.truncated,
        persisted_event_id: Some(record.persisted_event_id),
        checkpoint_after_event_id: Some(checkpoint),
        source_event_count: sources,
        ignored_self_event_ids: ignored,
        slot_publication: publication,
    }
}

/// What came of an update that wrote an artifact, where the host keeps it at `record`, the
/// checkpoint stands at `checkpoint`, and the summary was published as said.
pub fn written_tick(
    page: &ProvenancePage,
    projection: &Projection,
    source_event_count: usize,
    ignored: Vec<String>,
    record: &ArtifactRecord,
    checkpoint: &str,
    slot_publication: SlotPublication,
) -> (r: UpdateTick)
    ensures
        r.deep_view() == written(
            page.deep_view(),
            projection.deep_view(),
            source_event_count as nat,
            ignored.deep_view(),
            record@,
            checkpoint@,
            slot_publication.deep_view(),
        ),
{
    assert(ignored.deep_view().len() == ignored@.len());
    let rows = vec![
        ("applied_limit".to_owned(), Json::of_count(page.applied_limit)),
        ("applied_scan_limit".to_owned(), Json::of_count(page.applied_scan_limit)),
        ("byte_len".to_owned(), Json::of_count(record.byte_len)),
        ("checkpoint_advanced".to_owned(), Json::Bool(true)),
        ("checkpoint_after_event_id".to_owned(), Json::of_text(checkpoint)),
        ("command".to_owned(), Json::of_text(UPDATE_COMMAND_NAME)),
        ("degraded".to_owned(), Json::Bool(projection.degraded())),
        ("edge_count".to_owned(), Json::of_count(projection.edge_count())),
        ("has_more".to_owned(), Json::Bool(page.truncated)),
        ("ignored_event_count".to_owned(), Json::of_count(ignored.len())),
        (
            "next_after_event_id".to_owned(),
            Json::of_optional_text(&page.next_after_event_id),
        ),
        ("node_count".to_owned(), Json::of_count(projection.node_count())),
        ("persisted_event_id".to_owned(), Json::of_text(&record.persisted_event_id)),
        (
            "query_watermark_event_id".to_owned(),
            Json::of_optional_text(&page.watermark_event_id),
        ),
        ("relative_path".to_owned(), Json::of_text(&record.relative_path)),
        ("scanned_events".to_owned(), Json::of_count(page.scanned_events)),
        ("schema".to_owned(), Json::of_text(SCHEMA_NAME)),
        ("sha256".to_owned(), Json::of_text(&record.sha256)),
        ("source_event_count".to_owned(), Json::of_count(source_event_count)),
        ("truncated".to_owned(), Json::Bool(page.truncated)),
        ("updated".to_owned(), Json::Bool(true)),
        ("watermark_event_id".to_owned(), projection.watermark_event_id()),
    ];
    assert(rows.deep_view() =~= written_rows(
        page.deep_view(),
        projection.deep_view(),
        source_event_count as nat,
        ignored@.len(),
        record@,
        checkpoint@,
    ));
    UpdateTick {
        output: with_slot_publication(rows, &slot_publication),
        updated: true,
        has_more: page.truncated,
        persisted_event_id: Some(record.persisted_event_id.clone()),
        checkpoint_after_event_id: Some(checkpoint.to_owned()),
        source_event_count,
        ignored_self_event_ids: ignored,
        slot_publication,
    }
}

/// What an update without anything to write says.
pub open spec fn idle_rows(page: Page, ignored: nat, checkpoint: Option<Seq<char>>) -> Seq<
    (Seq<char>, Tree),
> {
    seq![
        ("applied_limit"@, counted(page.applied_limit as nat)),
        ("applied_scan_limit"@, counted(page.applied_scan_limit as nat)),
        ("checkpoint_advanced"@, Tree::Bool(ignored > 0)),
        ("checkpoint_after_event_id"@, optional_text(checkpoint)),
        ("command"@, Tree::Text(UPDATE_COMMAND_NAME@)),
        ("has_more"@, Tree::Bool(page.truncated)),
        ("ignored_event_count"@, counted(ignored)),
        ("next_after_event_id"@, optional_text(page.next_after_event_id)),
        ("query_watermark_event_id"@, optional_text(page.watermark_event_id)),
        ("scanned_events"@, counted(page.scanned_events as nat)),
        ("schema"@, Tree::Text(SCHEMA_NAME@)),
        ("source_event_count"@, counted(0)),
        ("truncated"@, Tree::Bool(page.truncated)),
        ("updated"@, Tree::Bool(false)),
    ]
}

/// What came of an update without anything to write. The checkpoint moves to the watermark of
/// the page where events were left out, and stays where there were none.
pub open spec fn idle(page: Page, ignored: Seq<Seq<char>>) -> Tick {
    let checkpoint = if ignored.len() == 0 {
        None
    } else {
        page.watermark_event_id
    };
    Tick {
        output: Tree::Object(
            with_publication(
                idle_rows(page, ignored.len(), checkpoint),
                Publication::NotAttempted,
            ),
        ),
        updated: false,
        has_more: page.truncated,
        persisted_event_id: None,
        checkpoint_after_event_id: checkpoint,
        source_event_count: 0,
        ignored_self_event_ids: ignored,
        slot_publication: Publication::NotAttempted,
    }
}

pub fn idle_tick(page: &ProvenancePage, ignored: Vec<String>) -> (r: UpdateTick)
    ensures
        r.deep_view() == idle(page.deep_view(), ignored.deep_view()),
{
    assert(ignored.deep_view().len() == ignored@.len());
    let checkpoint = if ignored.len() == 0 {
        None
    } else {
        page.watermark_event_id.clone()
    };
    let rows = vec![
        ("applied_limit".to_owned(), Json::of_count(page.applied_limit)),
        ("applied_scan_limit".to_owned(), Json::of_count(page.applied_scan_limit)),
        ("checkpoint_advanced".to_owned(), Json::Bool(ignored.len() > 0)),
        ("checkpoint_after_event_id".to_owned(), Json::of_optional_text(&checkpoint)),
        ("command".to_owned(), Json::of_text(UPDATE_COMMAND_NAME)),
        ("has_more".to_owned(), Json::Bool(page.truncated)),
        ("ignored_event_count".to_owned(), Json::of_count(ignored.len())),
        (
            "next_after_event_id".to_owned(),
            Json::of_optional_text(&page.next_after_event_id),
        ),
        (
            "query_watermark_event_id".to_owned(),
            Json::of_optional_text(&page.watermark_event_id),
        ),
        ("scanned_events".to_owned(), Json::of_count(page.scanned_events)),
        ("schema".to_owned(), Json::of_text(SCHEMA_NAME)),
        ("source_event_count".to_owned(), Json::of_count(0)),
        ("truncated".to_owned(), Json::Bool(page.truncated)),
        ("updated".to_owned(), Json::Bool(false)),
    ];
    assert(rows.deep_view() =~= idle_rows(page.deep_view(), ignored@.len(), checkpoint.deep_view()));
    UpdateTick {
        output: with_slot_publication(rows, &SlotPublication::NotAttempted),
        updated: false,
        has_more: page.truncated,
        persisted_event_id: None,
        checkpoint_after_event_id: checkpoint,
        source_event_count: 0,
        ignored_self_event_ids: ignored,
        slot_publication: SlotPublication::NotAttempted,
    }
}

/// How far catching up has come.
pub struct CatchUp {
    pub ticks: Vec<Json>,
    pub pending_self_artifact_id: Option<String>,
    pub checkpoint_after_event_id: Option<String>,
    pub has_more: bool,
    pub source_event_count: usize,
    pub ignored_event_count: usize,
    pub artifact_write_count: usize,
    pub caught_up: bool,
    pub slot_publication: SlotPublication,
}

/// What a [`CatchUp`] holds.
#[verifier::ext_equal]
pub struct Chase {
    pub ticks: Seq<Tree>,
    pub pending_self_artifact_id: Option<Seq<char>>,
    pub checkpoint_after_event_id: Option<Seq<char>>,
    pub has_more: bool,
    pub source_event_count: nat,
    pub ignored_event_count: nat,
    pub artifact_write_count: nat,
    pub caught_up: bool,
    pub slot_publication: Publication,
}

impl DeepView for CatchUp {
    type V = Chase;

    open spec fn deep_view(&self) -> Chase {
        Chase {
            ticks: self.ticks.deep_view(),
            pending_self_artifact_id: self.pending_self_artifact_id.deep_view(),
            checkpoint_after_event_id: self.checkpoint_after_event_id.deep_view(),
            has_more: self.has_more,
            source_event_count: self.source_event_count as nat,
            ignored_event_count: self.ignored_event_count as nat,
            artifact_write_count: self.artifact_write_count as nat,
            caught_up: self.caught_up,
            slot_publication: self.slot_publication.deep_view(),
        }
    }
}

/// Catching up before the first update.
pub open spec fn chase_start() -> Chase {
    Chase {
        ticks: Seq::empty(),
        pending_self_artifact_id: None,
        checkpoint_after_event_id: None,
        has_more: false,
        source_event_count: 0,
        ignored_event_count: 0,
        artifact_write_count: 0,
        caught_up: false,
        slot_publication: Publication::NotAttempted,
    }
}

/// The artifact that is still to be seen in the feed, after an update.
pub open spec fn pending_after(pending: Option<Seq<char>>, t: Tick) -> Option<Seq<char>> {
    match t.persisted_event_id {
        Some(id) => Some(id),
        None => match pending {
            Some(id) => if t.ignored_self_event_ids.contains(id) {
                None
            } else {
                pending
            },
            None => None,
        },
    }
}

/// Catching up after one more update.
pub open spec fn chased(c: Chase, t: Tick) -> Chase {
    let pending = pending_after(c.pending_self_artifact_id, t);
    Chase {
        ticks: c.ticks.push(t.output),
        pending_self_artifact_id: pending,
        checkpoint_after_event_id: match t.checkpoint_after_event_id {
            Some(id) => Some(id),
            None => c.checkpoint_after_event_id,
        },
        has_more: t.has_more,
        source_event_count: c.source_event_count + t.source_event_count,
        ignored_event_count: c.ignored_event_count + t.ignored_self_event_ids.len(),
        artifact_write_count: c.artifact_write_count + (if t.persisted_event_id is Some {
            1nat
        } else {
            0
        }),
        caught_up: !t.updated && !t.has_more && pending is None,
        slot_publication: merged(c.slot_publication, t.slot_publication),
    }
}

/// What catching up says in the end.
pub open spec fn chase_rows(c: Chase, max_ticks: nat) -> Seq<(Seq<char>, Tree)> {
    seq![
        ("artifact_write_count"@, counted(c.artifact_write_count)),
        ("caught_up"@, Tree::Bool(c.caught_up)),
        ("checkpoint_after_event_id"@, optional_text(c.checkpoint_after_event_id)),
        ("command"@, Tree::Text(CATCH_UP_COMMAND_NAME@)),
        ("exhausted_tick_budget"@, Tree::Bool(!c.caught_up && c.ticks.len() == max_ticks)),
        ("has_more"@, Tree::Bool(c.has_more)),
        ("ignored_event_count"@, counted(c.ignored_event_count)),
        ("max_ticks"@, counted(max_ticks)),
        ("pending_self_artifact_event_id"@, optional_text(c.pending_self_artifact_id)),
        ("schema"@, Tree::Text(SCHEMA_NAME@)),
        ("source_event_count"@, counted(c.source_event_count)),
        ("tick_count"@, counted(c.ticks.len())),
        ("ticks"@, Tree::List(c.ticks)),
        ("work_remaining"@, Tree::Bool(!c.caught_up)),
    ]
}

impl CatchUp {
    pub fn new() -> (r: Self)
        ensures
            r.deep_view() == chase_start(),
    {
        let ticks: Vec<Json> = Vec::new();
        assert(ticks.deep_view() =~= Seq::empty());
        CatchUp {
            ticks,
            pending_self_artifact_id: None,
            checkpoint_after_event_id: None,
            has_more: false,
            source_event_count: 0,
            ignored_event_count: 0,
            artifact_write_count: 0,
            caught_up: false,
            slot_publication: SlotPublication::NotAttempted,
        }
    }

    /// Whether one more update is to run.
    pub fn goes_on(&self, max_ticks: usize) -> (r: bool)
        ensures
            r == (!self.deep_view().caught_up && self.deep_view().ticks.len() < max_ticks),
    {
        assert(self.ticks.deep_view().len() == self.ticks@.len());
        !self.caught_up && self.ticks.len() < max_ticks
    }

    /// Catching up after one more update.
    pub fn advance(self, tick: UpdateTick) -> (r: Self)
        requires
            self.source_event_count + tick.source_event_count <= usize::MAX,
            self.ignored_event_count + tick.ignored_self_event_ids@.len() <= usize::MAX,
            self.artifact_write_count < usize::MAX,
        ensures
            r.deep_view() == chased(self.deep_view(), tick.deep_view()),
    {
        let ghost c = self.deep_view();
        let ghost t = tick.deep_view();
        assert(tick.ignored_self_event_ids.deep_view().len() == tick.ignored_self_event_ids@.len());
        let seen = match &self.pending_self_artifact_id {
            Some(id) => holds(&tick.ignored_self_event_ids, id),
            None => true,
        };
        let (pending, writes) = match &tick.persisted_event_id {
            Some(id) => (Some(id.clone()), self.artifact_write_count + 1),
            None => (
                if seen {
                    None
                } else {
                    self.pending_self_artifact_id.clone()
                },
                self.artifact_write_count,
            ),
        };
        assert(pending.deep_view() == pending_after(c.pending_self_artifact_id, t));
        let caught_up = !tick.updated && !tick.has_more && pending.is_none();
        let checkpoint = match tick.checkpoint_after_event_id {
            Some(id) => Some(id),
            None => self.checkpoint_after_event_id,
        };
        let mut ticks = self.ticks;
        ticks.push(tick.output);
        assert(ticks.deep_view() =~= c.ticks.push(t.output));
        CatchUp {
            ticks,
            pending_self_artifact_id: pending,
            checkpoint_after_event_id: checkpoint,
            has_more: tick.has_more,
            source_event_count: self.source_event_count + tick.source_event_count,
            ignored_event_count: self.ignored_event_count + tick.ignored_self_event_ids.len(),
            artifact_write_count: writes,
            caught_up,
            slot_publication: self.slot_publication.merge(tick.slot_publication),
        }
    }

    /// What catching up says in the end.
    pub fn output(self, max_ticks: usize) -> (r: Json)
        ensures
            r@ == Tree::Object(
                with_publication(
                    chase_rows(self.deep_view(), max_ticks as nat),
                    self.deep_view().slot_publication,
                ),
            ),
    {
        broadcast use crate::json::list_model;

        let ghost c = self.deep_view();
        assert(self.ticks.deep_view().len() == self.ticks@.len());
        let tick_count: usize = self.ticks.len();
        let rows = vec![
            ("artifact_write_count".to_owned(), Json::of_count(self.artifact_write_count)),
            ("caught_up".to_owned(), Json::Bool(self.caught_up)),
            (
                "checkpoint_after_event_id".to_owned(),
                Json::of_optional_text(&self.checkpoint_after_event_id),
            ),
            ("command".to_owned(), Json::of_text(CATCH_UP_COMMAND_NAME)),
            (
                "exhausted_tick_budget".to_owned(),
                Json::Bool(!self.caught_up && tick_count == max_ticks),
            ),
            ("has_more".to_owned(), Json::Bool(self.has_more)),
            ("ignored_event_count".to_owned(), Json::of_count(self.ignored_event_count)),
            ("max_ticks".to_owned(), Json::of_count(max_ticks)),
            (
                "pending_self_artifact_event_id".to_owned(),
                Json::of_optional_text(&self.pending_self_artifact_id),
            ),
            ("schema".to_owned(), Json::of_text(SCHEMA_NAME)),
            ("source_event_count".to_owned(), Json::of_count(self.source_event_count)),
            ("tick_count".to_owned(), Json::of_count(tick_count)),
            ("ticks".to_owned(), Json::List(self.ticks)),
            ("work_remaining".to_owned(), Json::Bool(!self.caught_up)),
        ];
        assert(rows.deep_view() =~= chase_rows(c, max_ticks as nat));
        with_slot_publication(rows, &self.slot_publication)
    }
}

/// Catching up ends only when the feed has no more events and the last artifact that was
/// written has been seen in it; and then the last update wrote nothing.
pub proof fn caught_up_means_nothing_is_left(c: Chase, t: Tick)
    ensures
        chased(c, t).caught_up ==> !chased(c, t).has_more && chased(
            c,
            t,
        ).pending_self_artifact_id is None && !t.updated,
{
}

/// An artifact that an update wrote is pending until an update leaves its event out.
pub proof fn artifacts_stay_pending_until_seen(c: Chase, t: Tick, id: Seq<char>)
    ensures
        t.persisted_event_id == Some(id) ==> chased(c, t).pending_self_artifact_id == Some(id),
        t.persisted_event_id is None && c.pending_self_artifact_id == Some(id)
            && !t.ignored_self_event_ids.contains(id) ==> chased(c, t).pending_self_artifact_id
            == Some(id),
        t.persisted_event_id is None && c.pending_self_artifact_id == Some(id)
            && t.ignored_self_event_ids.contains(id) ==> chased(
            c,
            t,
        ).pending_self_artifact_id is None,
{
}

/// What the extension itself left behind is no source: its own artifacts of the five media types
/// that it writes or wrote, the slots that it filled, the observers that it recorded, and the
/// decisions on what it asked for. All else is a source, whatever it says. An artifact that names
/// no extension or no media type is refused.
pub proof fn own_traces_are_no_sources(event: Event)
    ensures
        ({
            let source = text_member(event.payload, "source"@);
            let extension = text_member(event.payload, "extension_id"@);
            let command = text_member(event.payload, "command"@);
            let media = text_member(event.payload, "media_type"@);
            let own = self_event(event) == Ok::<bool, Seq<char>>(true);
            &&& event.kind == "extension.artifact"@ ==> (self_event(event) is Err <==> extension is None
                || media is None)
            &&& event.kind != "extension.artifact"@ ==> self_event(event) is Ok
            &&& event.kind == "extension.artifact"@ ==> (own <==> extension == Some("causal-dag"@) && (
            media == Some("application/vnd.euler.causal-dag.v1+json"@) || media == Some(
                "application/vnd.euler.causal-dag.v2+json"@,
            ) || media == Some("application/vnd.euler.causal-dag.v3+json"@) || media == Some(
                "application/vnd.euler.causal-dag.v4+json"@,
            ) || media == Some("application/vnd.euler.research-record.v1+json"@)))
            &&& event.kind == "context.slot.updated"@ ==> (own <==> extension == Some("causal-dag"@))
            &&& event.kind == "agent.spawn"@ || event.kind == "agent.result"@ ==> (own <==> source
                == Some("extension"@) && extension == Some("causal-dag"@) && command == Some(
                "record-observation"@,
            ))
            &&& event.kind == "permission.decision"@ ==> (own <==> source == Some("extension"@)
                && extension == Some("causal-dag"@))
            &&& own ==> event.kind == "extension.artifact"@ || event.kind == "context.slot.updated"@
                || event.kind == "agent.spawn"@ || event.kind == "agent.result"@ || event.kind
                == "permission.decision"@
        }),
{
    reveal_strlit("extension.artifact");
    reveal_strlit("context.slot.updated");
    reveal_strlit("agent.spawn");
    reveal_strlit("agent.result");
    reveal_strlit("permission.decision");
    assert("extension.artifact"@.len() == 18 && "context.slot.updated"@.len() == 20
        && "agent.spawn"@.len() == 11 && "agent.result"@.len() == 12 && "permission.decision"@.len()
        == 19);
}

/// A page is written if and only if it holds a source: then its sources are projected, in their
/// order and as complete as the page was. Where it holds none, nothing is written.
pub proof fn pages_with_sources_are_written(
    events: Seq<Event>,
    truncated: bool,
    session: Option<Seq<char>>,
)
    requires
        split(events) is Ok,
    ensures
        ({
            let (sources, ignored) = split(events)->Ok_0;
            &&& sources.len() == 0 ==> planned(events, truncated, session) == Ok::<Plan, Seq<char>>(
                Plan::Idle { ignored },
            )
            &&& sources.len() > 0 && planned(events, truncated, session) is Ok
                ==> planned(events, truncated, session)->Ok_0 == (Plan::Write {
                projection: projected(sources, session, !truncated)->Ok_0,
                source_event_ids: Seq::new(sources.len(), |i: int| sources[i].id),
                ignored,
            })
            &&& sources.len() > 0 ==> (planned(events, truncated, session) is Ok <==> projected(
                sources,
                session,
                !truncated,
            ) is Ok)
        }),
{
}

/// An update that wrote an artifact tells so: that it is done, how many events it read and left
/// out, what the graph holds, where the artifact stands and where the next update starts.
pub proof fn updates_tell_what_they_wrote(
    page: Page,
    p: Projected,
    sources: nat,
    ignored: Seq<Seq<char>>,
    record: Stored,
    checkpoint: Seq<char>,
)
    ensures
        ({
            let tick = written(
                page,
                p,
                sources,
                ignored,
                record,
                checkpoint,
                Publication::Published,
            );
            let out = Tree::Object(
                written_rows(page, p, sources, ignored.len(), record, checkpoint),
            );
            &&& tick.updated
            &&& tick.has_more == page.truncated
            &&& tick.persisted_event_id == Some(record.persisted_event_id)
            &&& tick.checkpoint_after_event_id == Some(checkpoint)
            &&& tick.source_event_count == sources
            &&& tick.ignored_self_event_ids == ignored
            &&& out.at("updated"@) == Tree::Bool(true)
            &&& out.at("checkpoint_advanced"@) == Tree::Bool(true)
            &&& out.at("checkpoint_after_event_id"@) == Tree::Text(checkpoint)
            &&& out.at("command"@) == Tree::Text("update"@)
            &&& out.at("schema"@) == Tree::Text("euler.causal_dag.v3"@)
            &&& out.at("has_more"@) == Tree::Bool(page.truncated)
            &&& out.at("truncated"@) == Tree::Bool(page.truncated)
            &&& out.at("degraded"@) == Tree::Bool(p.degraded)
            &&& out.at("edge_count"@) == counted(p.edges.len())
            &&& out.at("node_count"@) == counted(p.nodes.len())
            &&& out.at("source_event_count"@) == counted(sources)
            &&& out.at("ignored_event_count"@) == counted(ignored.len())
            &&& out.at("persisted_event_id"@) == Tree::Text(record.persisted_event_id)
            &&& out.at("relative_path"@) == Tree::Text(record.relative_path)
            &&& out.at("sha256"@) == Tree::Text(record.sha256)
            &&& out.at("byte_len"@) == counted(record.byte_len as nat)
            &&& out.at("scanned_events"@) == counted(page.scanned_events as nat)
            &&& out.at("applied_limit"@) == counted(page.applied_limit as nat)
            &&& out.at("applied_scan_limit"@) == counted(page.applied_scan_limit as nat)
            &&& out.at("next_after_event_id"@) == optional_text(page.next_after_event_id)
            &&& out.at("query_watermark_event_id"@) == optional_text(page.watermark_event_id)
            &&& out.at("watermark_event_id"@) == p.watermark_event_id
        }),
{
    let o = written_rows(page, p, sources, ignored.len(), record, checkpoint);
    reveal_strlit("applied_limit");
    reveal_strlit("applied_scan_limit");
    reveal_strlit("byte_len");
    reveal_strlit("checkpoint_advanced");
    reveal_strlit("checkpoint_after_event_id");
    reveal_strlit("command");
    reveal_strlit("degraded");
    reveal_strlit("edge_count");
    reveal_strlit("has_more");
    reveal_strlit("ignored_event_count");
    reveal_strlit("next_after_event_id");
    reveal_strlit("node_count");
    reveal_strlit("persisted_event_id");
    reveal_strlit("query_watermark_event_id");
    reveal_strlit("relative_path");
    reveal_strlit("scanned_events");
    reveal_strlit("schema");
    reveal_strlit("sha256");
    reveal_strlit("source_event_count");
    reveal_strlit("truncated");
    reveal_strlit("updated");
    reveal_strlit("watermark_event_id");
    crate::table::lemma_first_row(o, "applied_limit"@, 0);
    assert(o[0].0.len() == 13 && "applied_scan_limit"@.len() == 18);
    crate::table::lemma_first_row(o, "applied_scan_limit"@, 1);
    assert(o[0].0.len() == 13 && o[1].0.len() == 18 && "byte_len"@.len() == 8);
    crate::table::lemma_first_row(o, "byte_len"@, 2);
    assert(o[0].0.len() == 13 && o[1].0.len() == 18 && o[2].0.len() == 8 && "checkpoint_advanced"@.len() == 19);
    crate::table::lemma_first_row(o, "checkpoint_advanced"@, 3);
    assert(o[0].0.len() == 13 && o[1].0.len() == 18 && o[2].0.len() == 8 && o[3].0.len() == 19 && "checkpoint_after_event_id"@.len() == 25);
    crate::table::lemma_first_row(o, "checkpoint_after_event_id"@, 4);
    assert(o[0].0.len() == 13 && o[1].0.len() == 18 && o[2].0.len() == 8 && o[3].0.len() == 19 && o[4].0.len() == 25 && "command"@.len() == 7);
    crate::table::lemma_first_row(o, "command"@, 5);
    assert(o[0].0.len() == 13 && o[1].0.len() == 18 && o[2].0[0] == 'b' && o[3].0.len() == 19 && o[4].0.len() == 25 && o[5].0.len() == 7 && "degraded"@.len() == 8 && "degraded"@[0] == 'd');
    crate::table::lemma_first_row(o, "degraded"@, 6);
    assert(o[0].0.len() == 13 && o[1].0.len() == 18 && o[2].0.len() == 8 && o[3].0.len() == 19 && o[4].0.len() == 25 && o[5].0.len() == 7 && o[6].0.len() == 8 && "edge_count"@.len() == 10);
    crate::table::lemma_first_row(o, "edge_count"@, 7);
    assert(o[0].0.len() == 13 && o[1].0.len() == 18 && o[2].0[0] == 'b' && o[3].0.len() == 19 && o[4].0.len() == 25 && o[5].0.len() == 7 && o[6].0[0] == 'd' && o[7].0.len() == 10 && "has_more"@.len() == 8 && "has_more"@[0] == 'h');
    crate::table::lemma_first_row(o, "has_more"@, 8);
    assert(o[0].0.len() == 13 && o[1].0.len() == 18 && o[2].0.len() == 8 && o[3].0[0] == 'c' && o[4].0.len() == 25 && o[5].0.len() == 7 && o[6].0.len() == 8 && o[7].0.len() == 10 && o[8].0.len() == 8 && "ignored_event_count"@.len() == 19 && "ignored_event_count"@[0] == 'i');
    crate::table::lemma_first_row(o, "ignored_event_count"@, 9);
    assert(o[0].0.len() == 13 && o[1].0.len() == 18 && o[2].0.len() == 8 && o[3].0[0] == 'c' && o[4].0.len() == 25 && o[5].0.len() == 7 && o[6].0.len() == 8 && o[7].0.len() == 10 && o[8].0.len() == 8 && o[9].0[0] == 'i' && "next_after_event_id"@.len() == 19 && "next_after_event_id"@[0] == 'n');
    crate::table::lemma_first_row(o, "next_after_event_id"@, 10);
    assert(o[0].0.len() == 13 && o[1].0.len() == 18 && o[2].0.len() == 8 && o[3].0.len() == 19 && o[4].0.len() == 25 && o[5].0.len() == 7 && o[6].0.len() == 8 && o[7].0[0] == 'e' && o[8].0.len() == 8 && o[9].0.len() == 19 && o[10].0.len() == 19 && "node_count"@.len() == 10 && "node_count"@[0] == 'n');
    crate::table::lemma_first_row(o, "node_count"@, 11);
    assert(o[0].0.len() == 13 && o[1].0[0] == 'a' && o[2].0.len() == 8 && o[3].0.len() == 19 && o[4].0.len() == 25 && o[5].0.len() == 7 && o[6].0.len() == 8 && o[7].0.len() == 10 && o[8].0.len() == 8 && o[9].0.len() == 19 && o[10].0.len() == 19 && o[11].0.len() == 10 && "persisted_event_id"@.len() == 18 && "persisted_event_id"@[0] == 'p');
    crate::table::lemma_first_row(o, "persisted_event_id"@, 12);
    assert(o[0].0.len() == 13 && o[1].0.len() == 18 && o[2].0.len() == 8 && o[3].0.len() == 19 && o[4].0.len() == 25 && o[5].0.len() == 7 && o[6].0.len() == 8 && o[7].0.len() == 10 && o[8].0.len() == 8 && o[9].0.len() == 19 && o[10].0.len() == 19 && o[11].0.len() == 10 && o[12].0.len() == 18 && "query_watermark_event_id"@.len() == 24);
    crate::table::lemma_first_row(o, "query_watermark_event_id"@, 13);
    assert(o[0].0[0] == 'a' && o[1].0.len() == 18 && o[2].0.len() == 8 && o[3].0.len() == 19 && o[4].0.len() == 25 && o[5].0.len() == 7 && o[6].0.len() == 8 && o[7].0.len() == 10 && o[8].0.len() == 8 && o[9].0.len() == 19 && o[10].0.len() == 19 && o[11].0.len() == 10 && o[12].0.len() == 18 && o[13].0.len() == 24 && "relative_path"@.len() == 13 && "relative_path"@[0] == 'r');
    crate::table::lemma_first_row(o, "relative_path"@, 14);
    assert(o[0].0.len() == 13 && o[1].0.len() == 18 && o[2].0.len() == 8 && o[3].0.len() == 19 && o[4].0.len() == 25 && o[5].0.len() == 7 && o[6].0.len() == 8 && o[7].0.len() == 10 && o[8].0.len() == 8 && o[9].0.len() == 19 && o[10].0.len() == 19 && o[11].0.len() == 10 && o[12].0.len() == 18 && o[13].0.len() == 24 && o[14].0.len() == 13 && "scanned_events"@.len() == 14);
    crate::table::lemma_first_row(o, "scanned_events"@, 15);
    assert(o[0].0.len() == 13 && o[1].0.len() == 18 && o[2].0.len() == 8 && o[3].0.len() == 19 && o[4].0.len() == 25 && o[5].0.len() == 7 && o[6].0.len() == 8 && o[7].0.len() == 10 && o[8].0.len() == 8 && o[9].0.len() == 19 && o[10].0.len() == 19 && o[11].0.len() == 10 && o[12].0.len() == 18 && o[13].0.len() == 24 && o[14].0.len() == 13 && o[15].0.len() == 14 && "schema"@.len() == 6);
    crate::table::lemma_first_row(o, "schema"@, 16);
    assert(o[0].0.len() == 13 && o[1].0.len() == 18 && o[2].0.len() == 8 && o[3].0.len() == 19 && o[4].0.len() == 25 && o[5].0.len() == 7 && o[6].0.len() == 8 && o[7].0.len() == 10 && o[8].0.len() == 8 && o[9].0.len() == 19 && o[10].0.len() == 19 && o[11].0.len() == 10 && o[12].0.len() == 18 && o[13].0.len() == 24 && o[14].0.len() == 13 && o[15].0.len() == 14 && o[16].0[1] == 'c' && "sha256"@.len() == 6 && "sha256"@[1] == 'h');
    crate::table::lemma_first_row(o, "sha256"@, 17);
    assert(o[0].0.len() == 13 && o[1].0[0] == 'a' && o[2].0.len() == 8 && o[3].0.len() == 19 && o[4].0.len() == 25 && o[5].0.len() == 7 && o[6].0.len() == 8 && o[7].0.len() == 10 && o[8].0.len() == 8 && o[9].0.len() == 19 && o[10].0.len() == 19 && o[11].0.len() == 10 && o[12].0[0] == 'p' && o[13].0.len() == 24 && o[14].0.len() == 13 && o[15].0.len() == 14 && o[16].0.len() == 6 && o[17].0.len() == 6 && "source_event_count"@.len() == 18 && "source_event_count"@[0] == 's');
    crate::table::lemma_first_row(o, "source_event_count"@, 18);
    assert(o[0].0.len() == 13 && o[1].0.len() == 18 && o[2].0.len() == 8 && o[3].0.len() == 19 && o[4].0.len() == 25 && o[5].0.len() == 7 && o[6].0.len() == 8 && o[7].0.len() == 10 && o[8].0.len() == 8 && o[9].0.len() == 19 && o[10].0.len() == 19 && o[11].0.len() == 10 && o[12].0.len() == 18 && o[13].0.len() == 24 && o[14].0.len() == 13 && o[15].0.len() == 14 && o[16].0.len() == 6 && o[17].0.len() == 6 && o[18].0.len() == 18 && "truncated"@.len() == 9);
    crate::table::lemma_first_row(o, "truncated"@, 19);
    assert(o[0].0.len() == 13 && o[1].0.len() == 18 && o[2].0.len() == 8 && o[3].0.len() == 19 && o[4].0.len() == 25 && o[5].0[0] == 'c' && o[6].0.len() == 8 && o[7].0.len() == 10 && o[8].0.len() == 8 && o[9].0.len() == 19 && o[10].0.len() == 19 && o[11].0.len() == 10 && o[12].0.len() == 18 && o[13].0.len() == 24 && o[14].0.len() == 13 && o[15].0.len() == 14 && o[16].0.len() == 6 && o[17].0.len() == 6 && o[18].0.len() == 18 && o[19].0.len() == 9 && "updated"@.len() == 7 && "updated"@[0] == 'u');
    crate::table::lemma_first_row(o, "updated"@, 20);
    assert(o[0].0.len() == 13 && o[1].0[0] == 'a' && o[2].0.len() == 8 && o[3].0.len() == 19 && o[4].0.len() == 25 && o[5].0.len() == 7 && o[6].0.len() == 8 && o[7].0.len() == 10 && o[8].0.len() == 8 && o[9].0.len() == 19 && o[10].0.len() == 19 && o[11].0.len() == 10 && o[12].0[0] == 'p' && o[13].0.len() == 24 && o[14].0.len() == 13 && o[15].0.len() == 14 && o[16].0.len() == 6 && o[17].0.len() == 6 && o[18].0[0] == 's' && o[19].0.len() == 9 && o[20].0.len() == 7 && "watermark_event_id"@.len() == 18 && "watermark_event_id"@[0] == 'w');
    crate::table::lemma_first_row(o, "watermark_event_id"@, 21);
}

/// An update without sources tells that it wrote nothing. Its checkpoint moves to the end of the
/// page if it left events out, and else stays.
pub proof fn idle_updates_tell_so(page: Page, ignored: Seq<Seq<char>>)
    ensures
        ({
            let tick = idle(page, ignored);
            let moved = if ignored.len() > 0 {
                page.watermark_event_id
            } else {
                None
            };
            let out = Tree::Object(idle_rows(page, ignored.len(), moved));
            &&& !tick.updated
            &&& tick.has_more == page.truncated
            &&& tick.persisted_event_id is None
            &&& tick.checkpoint_after_event_id == moved
            &&& tick.source_event_count == 0
            &&& tick.ignored_self_event_ids == ignored
            &&& tick.slot_publication == Publication::NotAttempted
            &&& tick.output == Tree::Object(
                with_publication(out->Object_0, Publication::NotAttempted),
            )
            &&& out.at("updated"@) == Tree::Bool(false)
            &&& out.at("checkpoint_advanced"@) == Tree::Bool(ignored.len() > 0)
            &&& out.at("checkpoint_after_event_id"@) == optional_text(moved)
            &&& out.at("command"@) == Tree::Text("update"@)
            &&& out.at("schema"@) == Tree::Text("euler.causal_dag.v3"@)
            &&& out.at("has_more"@) == Tree::Bool(page.truncated)
            &&& out.at("truncated"@) == Tree::Bool(page.truncated)
            &&& out.at("source_event_count"@) == counted(0)
            &&& out.at("ignored_event_count"@) == counted(ignored.len())
            &&& out.at("scanned_events"@) == counted(page.scanned_events as nat)
            &&& out.at("applied_limit"@) == counted(page.applied_limit as nat)
            &&& out.at("applied_scan_limit"@) == counted(page.applied_scan_limit as nat)
            &&& out.at("next_after_event_id"@) == optional_text(page.next_after_event_id)
            &&& out.at("query_watermark_event_id"@) == optional_text(page.watermark_event_id)
        }),
{
    let moved = if ignored.len() > 0 {
        page.watermark_event_id
    } else {
        None
    };
    let o = idle_rows(page, ignored.len(), moved);
    reveal_strlit("applied_limit");
    reveal_strlit("applied_scan_limit");
    reveal_strlit("checkpoint_advanced");
    reveal_strlit("checkpoint_after_event_id");
    reveal_strlit("command");
    reveal_strlit("has_more");
    reveal_strlit("ignored_event_count");
    reveal_strlit("next_after_event_id");
    reveal_strlit("query_watermark_event_id");
    reveal_strlit("scanned_events");
    reveal_strlit("schema");
    reveal_strlit("source_event_count");
    reveal_strlit("truncated");
    reveal_strlit("updated");
    crate::table::lemma_first_row(o, "applied_limit"@, 0);
    assert(o[0].0.len() == 13 && "applied_scan_limit"@.len() == 18);
    crate::table::lemma_first_row(o, "applied_scan_limit"@, 1);
    assert(o[0].0.len() == 13 && o[1].0.len() == 18 && "checkpoint_advanced"@.len() == 19);
    crate::table::lemma_first_row(o, "checkpoint_advanced"@, 2);
    assert(o[0].0.len() == 13 && o[1].0.len() == 18 && o[2].0.len() == 19 && "checkpoint_after_event_id"@.len() == 25);
    crate::table::lemma_first_row(o, "checkpoint_after_event_id"@, 3);
    assert(o[0].0.len() == 13 && o[1].0.len() == 18 && o[2].0.len() == 19 && o[3].0.len() == 25 && "command"@.len() == 7);
    crate::table::lemma_first_row(o, "command"@, 4);
    assert(o[0].0.len() == 13 && o[1].0.len() == 18 && o[2].0.len() == 19 && o[3].0.len() == 25 && o[4].0.len() == 7 && "has_more"@.len() == 8);
    crate::table::lemma_first_row(o, "has_more"@, 5);
    assert(o[0].0.len() == 13 && o[1].0.len() == 18 && o[2].0[0] == 'c' && o[3].0.len() == 25 && o[4].0.len() == 7 && o[5].0.len() == 8 && "ignored_event_count"@.len() == 19 && "ignored_event_count"@[0] == 'i');
    crate::table::lemma_first_row(o, "ignored_event_count"@, 6);
    assert(o[0].0.len() == 13 && o[1].0.len() == 18 && o[2].0[0] == 'c' && o[3].0.len() == 25 && o[4].0.len() == 7 && o[5].0.len() == 8 && o[6].0[0] == 'i' && "next_after_event_id"@.len() == 19 && "next_after_event_id"@[0] == 'n');
    crate::table::lemma_first_row(o, "next_after_event_id"@, 7);
    assert(o[0].0.len() == 13 && o[1].0.len() == 18 && o[2].0.len() == 19 && o[3].0.len() == 25 && o[4].0.len() == 7 && o[5].0.len() == 8 && o[6].0.len() == 19 && o[7].0.len() == 19 && "query_watermark_event_id"@.len() == 24);
    crate::table::lemma_first_row(o, "query_watermark_event_id"@, 8);
    assert(o[0].0.len() == 13 && o[1].0.len() == 18 && o[2].0.len() == 19 && o[3].0.len() == 25 && o[4].0.len() == 7 && o[5].0.len() == 8 && o[6].0.len() == 19 && o[7].0.len() == 19 && o[8].0.len() == 24 && "scanned_events"@.len() == 14);
    crate::table::lemma_first_row(o, "scanned_events"@, 9);
    assert(o[0].0.len() == 13 && o[1].0.len() == 18 && o[2].0.len() == 19 && o[3].0.len() == 25 && o[4].0.len() == 7 && o[5].0.len() == 8 && o[6].0.len() == 19 && o[7].0.len() == 19 && o[8].0.len() == 24 && o[9].0.len() == 14 && "schema"@.len() == 6);
    crate::table::lemma_first_row(o, "schema"@, 10);
    assert(o[0].0.len() == 13 && o[1].0[0] == 'a' && o[2].0.len() == 19 && o[3].0.len() == 25 && o[4].0.len() == 7 && o[5].0.len() == 8 && o[6].0.len() == 19 && o[7].0.len() == 19 && o[8].0.len() == 24 && o[9].0.len() == 14 && o[10].0.len() == 6 && "source_event_count"@.len() == 18 && "source_event_count"@[0] == 's');
    crate::table::lemma_first_row(o, "source_event_count"@, 11);
    assert(o[0].0.len() == 13 && o[1].0.len() == 18 && o[2].0.len() == 19 && o[3].0.len() == 25 && o[4].0.len() == 7 && o[5].0.len() == 8 && o[6].0.len() == 19 && o[7].0.len() == 19 && o[8].0.len() == 24 && o[9].0.len() == 14 && o[10].0.len() == 6 && o[11].0.len() == 18 && "truncated"@.len() == 9);
    crate::table::lemma_first_row(o, "truncated"@, 12);
    assert(o[0].0.len() == 13 && o[1].0.len() == 18 && o[2].0.len() == 19 && o[3].0.len() == 25 && o[4].0[0] == 'c' && o[5].0.len() == 8 && o[6].0.len() == 19 && o[7].0.len() == 19 && o[8].0.len() == 24 && o[9].0.len() == 14 && o[10].0.len() == 6 && o[11].0.len() == 18 && o[12].0.len() == 9 && "updated"@.len() == 7 && "updated"@[0] == 'u');
    crate::table::lemma_first_row(o, "updated"@, 13);
}

/// Each update of a chase is counted: its events, what it left out, and its artifact if it wrote
/// one. The chase stands where its last update that moved stands, and has caught up only when an
/// update wrote nothing, read to the end, and no artifact of the chase is still to be seen.
pub proof fn chases_add_up(c: Chase, t: Tick)
    ensures
        ({
            let next = chased(c, t);
            &&& next.ticks == c.ticks.push(t.output)
            &&& next.source_event_count == c.source_event_count + t.source_event_count
            &&& next.ignored_event_count == c.ignored_event_count + t.ignored_self_event_ids.len()
            &&& t.persisted_event_id is Some ==> next.artifact_write_count == c.artifact_write_count
                + 1
            &&& t.persisted_event_id is None ==> next.artifact_write_count == c.artifact_write_count
            &&& t.checkpoint_after_event_id is Some ==> next.checkpoint_after_event_id
                == t.checkpoint_after_event_id
            &&& t.checkpoint_after_event_id is None ==> next.checkpoint_after_event_id
                == c.checkpoint_after_event_id
            &&& next.has_more == t.has_more
            &&& next.caught_up <==> !t.updated && !t.has_more && next.pending_self_artifact_id is None
            &&& chase_start().ticks.len() == 0 && !chase_start().caught_up
                && chase_start().artifact_write_count == 0 && chase_start().source_event_count == 0
                && chase_start().ignored_event_count == 0
        }),
{
}

/// What a chase tells: what it did in all, and that work remains unless it has caught up; it has
/// used up its budget if it has not caught up after as many updates as were allowed.
pub proof fn chases_tell_what_they_did(c: Chase, max_ticks: nat)
    ensures
        ({
            let out = Tree::Object(chase_rows(c, max_ticks));
            &&& out.at("artifact_write_count"@) == counted(c.artifact_write_count)
            &&& out.at("caught_up"@) == Tree::Bool(c.caught_up)
            &&& out.at("work_remaining"@) == Tree::Bool(!c.caught_up)
            &&& out.at("exhausted_tick_budget"@) == Tree::Bool(!c.caught_up && c.ticks.len() == max_ticks)
            &&& out.at("checkpoint_after_event_id"@) == optional_text(c.checkpoint_after_event_id)
            &&& out.at("command"@) == Tree::Text("catch-up"@)
            &&& out.at("schema"@) == Tree::Text("euler.causal_dag.v3"@)
            &&& out.at("has_more"@) == Tree::Bool(c.has_more)
            &&& out.at("ignored_event_count"@) == counted(c.ignored_event_count)
            &&& out.at("max_ticks"@) == counted(max_ticks)
            &&& out.at("pending_self_artifact_event_id"@) == optional_text(c.pending_self_artifact_id)
            &&& out.at("source_event_count"@) == counted(c.source_event_count)
            &&& out.at("tick_count"@) == counted(c.ticks.len())
            &&& out.at("ticks"@) == Tree::List(c.ticks)
        }),
{
    let o = chase_rows(c, max_ticks);
    reveal_strlit("artifact_write_count");
    reveal_strlit("caught_up");
    reveal_strlit("checkpoint_after_event_id");
    reveal_strlit("command");
    reveal_strlit("exhausted_tick_budget");
    reveal_strlit("has_more");
    reveal_strlit("ignored_event_count");
    reveal_strlit("max_ticks");
    reveal_strlit("pending_self_artifact_event_id");
    reveal_strlit("schema");
    reveal_strlit("source_event_count");
    reveal_strlit("tick_count");
    reveal_strlit("ticks");
    reveal_strlit("work_remaining");
    crate::table::lemma_first_row(o, "artifact_write_count"@, 0);
    assert(o[0].0.len() == 20 && "caught_up"@.len() == 9);
    crate::table::lemma_first_row(o, "caught_up"@, 1);
    assert(o[0].0.len() == 20 && o[1].0.len() == 9 && "checkpoint_after_event_id"@.len() == 25);
    crate::table::lemma_first_row(o, "checkpoint_after_event_id"@, 2);
    assert(o[0].0.len() == 20 && o[1].0.len() == 9 && o[2].0.len() == 25 && "command"@.len() == 7);
    crate::table::lemma_first_row(o, "command"@, 3);
    assert(o[0].0.len() == 20 && o[1].0.len() == 9 && o[2].0.len() == 25 && o[3].0.len() == 7 && "exhausted_tick_budget"@.len() == 21);
    crate::table::lemma_first_row(o, "exhausted_tick_budget"@, 4);
    assert(o[0].0.len() == 20 && o[1].0.len() == 9 && o[2].0.len() == 25 && o[3].0.len() == 7 && o[4].0.len() == 21 && "has_more"@.len() == 8);
    crate::table::lemma_first_row(o, "has_more"@, 5);
    assert(o[0].0.len() == 20 && o[1].0.len() == 9 && o[2].0.len() == 25 && o[3].0.len() == 7 && o[4].0.len() == 21 && o[5].0.len() == 8 && "ignored_event_count"@.len() == 19);
    crate::table::lemma_first_row(o, "ignored_event_count"@, 6);
    assert(o[0].0.len() == 20 && o[1].0[0] == 'c' && o[2].0.len() == 25 && o[3].0.len() == 7 && o[4].0.len() == 21 && o[5].0.len() == 8 && o[6].0.len() == 19 && "max_ticks"@.len() == 9 && "max_ticks"@[0] == 'm');
    crate::table::lemma_first_row(o, "max_ticks"@, 7);
    assert(o[0].0.len() == 20 && o[1].0.len() == 9 && o[2].0.len() == 25 && o[3].0.len() == 7 && o[4].0.len() == 21 && o[5].0.len() == 8 && o[6].0.len() == 19 && o[7].0.len() == 9 && "pending_self_artifact_event_id"@.len() == 30);
    crate::table::lemma_first_row(o, "pending_self_artifact_event_id"@, 8);
    assert(o[0].0.len() == 20 && o[1].0.len() == 9 && o[2].0.len() == 25 && o[3].0.len() == 7 && o[4].0.len() == 21 && o[5].0.len() == 8 && o[6].0.len() == 19 && o[7].0.len() == 9 && o[8].0.len() == 30 && "schema"@.len() == 6);
    crate::table::lemma_first_row(o, "schema"@, 9);
    assert(o[0].0.len() == 20 && o[1].0.len() == 9 && o[2].0.len() == 25 && o[3].0.len() == 7 && o[4].0.len() == 21 && o[5].0.len() == 8 && o[6].0.len() == 19 && o[7].0.len() == 9 && o[8].0.len() == 30 && o[9].0.len() == 6 && "source_event_count"@.len() == 18);
    crate::table::lemma_first_row(o, "source_event_count"@, 10);
    assert(o[0].0.len() == 20 && o[1].0.len() == 9 && o[2].0.len() == 25 && o[3].0.len() == 7 && o[4].0.len() == 21 && o[5].0.len() == 8 && o[6].0.len() == 19 && o[7].0.len() == 9 && o[8].0.len() == 30 && o[9].0.len() == 6 && o[10].0.len() == 18 && "tick_count"@.len() == 10);
    crate::table::lemma_first_row(o, "tick_count"@, 11);
    assert(o[0].0.len() == 20 && o[1].0.len() == 9 && o[2].0.len() == 25 && o[3].0.len() == 7 && o[4].0.len() == 21 && o[5].0.len() == 8 && o[6].0.len() == 19 && o[7].0.len() == 9 && o[8].0.len() == 30 && o[9].0.len() == 6 && o[10].0.len() == 18 && o[11].0.len() == 10 && "ticks"@.len() == 5);
    crate::table::lemma_first_row(o, "ticks"@, 12);
    assert(o[0].0.len() == 20 && o[1].0.len() == 9 && o[2].0.len() == 25 && o[3].0.len() == 7 && o[4].0.len() == 21 && o[5].0.len() == 8 && o[6].0.len() == 19 && o[7].0.len() == 9 && o[8].0.len() == 30 && o[9].0.len() == 6 && o[10].0.len() == 18 && o[11].0.len() == 10 && o[12].0.len() == 5 && "work_remaining"@.len() == 14);
    crate::table::lemma_first_row(o, "work_remaining"@, 13);
}

} // verus!
