use causal_dag::aliases::Aliases;
use causal_dag::construction::{ConstructionOperation, ConstructionPolicy};
use causal_dag::event::{object, EventEnvelope, EventKind};
use causal_dag::json::{read_json, write_json, Json};
use causal_dag::observe::ObservationCommit;
use causal_dag::record_observation::{
    bound_output, observation_result_output, record_observation_output, RecordObservationInput,
    VerifiedGraphArtifact,
};
use causal_dag::refresh::{
    check_refresh_page, refresh_hints, with_refresh_attribution, ObserverBriefMode, PageFence,
    RefreshInput, RefreshWindow,
};
use causal_dag::research_observer::apply::{
    append_input, applied_output, graph_artifact, proposals_text, quiet_refresh, record_artifact,
    reframed_output, refreshed_output, selected_cursor, strip_json_fence, unchanged_output,
    unreadable_proposals, QuietRefresh,
};
use causal_dag::research_observer::brief::{brief_output, enabled, idle_output, BriefStep};
use causal_dag::research_observer::input::{
    parse_apply_envelope, BriefInput, CompanionOutput, RefreshOperation, ResearchRefreshInput,
};
use causal_dag::research_projection::artifact::ResearchProjection;
use causal_dag::research_record::append::{complete_append, prepare_append};
use causal_dag::research_record::types::{EntityKind, ObserverProposalBatch, ResearchEntity};
use causal_dag::research_state::{
    check_state_bytes, check_state_file, ResearchState, StoredArtifact, RESEARCH_STATE_SCHEMA,
};
use causal_dag::active_state::StateFile;
use causal_dag::schema::{RESEARCH_PROPOSALS_SCHEMA, RESEARCH_RECORD_SCHEMA};
use causal_dag::sdk::{AgentOutcome, ArtifactRecord, ExtensionError, HostAgentRecord, ProvenancePage};
use causal_dag::slot_summary::publication::SlotPublication;
use sha2::{Digest, Sha256};

const TOKENS: u64 = 24_576;

fn js(text: &str) -> Json {
    read_json(text).expect("JSON text")
}

fn refused<T>(outcome: Result<T, ExtensionError>) -> String {
    match outcome {
        Ok(_) => panic!("accepted"),
        Err(error) => error.message(),
    }
}

fn done<T>(outcome: Result<T, ExtensionError>) -> T {
    match outcome {
        Ok(value) => value,
        Err(error) => panic!("{}", error.message()),
    }
}

fn event(id: &str) -> EventEnvelope {
    EventEnvelope {
        v: 1,
        id: id.to_owned(),
        ts: "2026-07-14T00:00:00Z".to_owned(),
        session: "session-1".to_owned(),
        agent: "agent".to_owned(),
        parent: None,
        kind: EventKind::new(EventKind::TOOL_RESULT),
        payload: object(vec![("output", Json::of_text("result words"))]),
        blobs: Vec::new(),
    }
}

fn page(events: Vec<EventEnvelope>, truncated: bool) -> ProvenancePage {
    ProvenancePage {
        applied_limit: 64,
        applied_scan_limit: 1024,
        scanned_events: events.len(),
        watermark_event_id: events.last().map(|event| event.id.clone()),
        next_after_event_id: None,
        truncated,
        events,
    }
}

fn fence(len: usize, watermark: &str, stalled: bool) -> PageFence {
    PageFence {
        listable_len: len,
        watermark_event_id: Some(watermark.to_owned()),
        stalled_on_incomplete_observer: stalled,
    }
}

fn outcome(ok: bool, output: &str) -> AgentOutcome {
    AgentOutcome {
        ok,
        summary: "summary".to_owned(),
        output: output.to_owned(),
        error: None,
        provider: "p".to_owned(),
        model: "m".to_owned(),
        child_agent_id: "child".to_owned(),
        spawn_event_id: "spawn".to_owned(),
        result_event_id: "result".to_owned(),
    }
}

fn aliases() -> Aliases {
    Aliases {
        sources: vec![("s0".to_owned(), "event-canonical".to_owned())],
        nodes: vec![("n0".to_owned(), "node-root".to_owned())],
        edges: Vec::new(),
    }
}

fn stored(event: &str, value: &Json) -> ArtifactRecord {
    let text = format!("{}\n", write_json(value));
    let digest = Sha256::digest(text.as_bytes());
    ArtifactRecord {
        persisted_event_id: event.to_owned(),
        relative_path: format!("artifacts/{event}.json"),
        sha256: digest.iter().map(|byte| format!("{byte:02x}")).collect(),
        byte_len: text.len(),
    }
}

#[test]
fn refresh_inputs_are_read() {
    let input = done(RefreshInput::parse(&Json::Null, TOKENS));
    assert_eq!(input.operation, ConstructionOperation::Incremental);
    assert_eq!(input.limit, 64);
    assert_eq!(input.max_tokens, TOKENS);
    assert_eq!(input.effective_operation(None), ConstructionOperation::Reframe);
    assert_eq!(input.brief_mode(None), ObserverBriefMode::Replacement);
    assert!(input.tells_a_prefix());
    let input = done(RefreshInput::parse(
        &js(r#"{"operation":"final","policy":"manual","provider":"p","model":"m","max_tokens":7}"#),
        TOKENS,
    ));
    assert_eq!(input.policy, Some(ConstructionPolicy::Manual));
    assert!(!input.tells_a_prefix());
    let task = input.observer_task("t".to_owned(), "persona", "prompt".to_owned());
    assert_eq!(task.max_tokens, Some(7));
    assert!(task.include_parent_canvas);
    match input.commit(None, "result") {
        ObservationCommit::Explicit { operation, observer_result_event_id, .. } => {
            assert_eq!(operation, ConstructionOperation::Final);
            assert_eq!(observer_result_event_id, "result");
        }
        _ => panic!("explicit commit"),
    }
    assert_eq!(
        refused(RefreshInput::parse(&js(r#"{"provider":"p"}"#), TOKENS)),
        "causal-dag refresh provider and model must be supplied together"
    );
    assert_eq!(
        refused(RefreshInput::parse(&js(r#"{"session_id":""}"#), TOKENS)),
        "session_id must not be empty"
    );
    assert!(RefreshInput::parse(&js(r#"{"operation":"undo"}"#), TOKENS).is_err());
    assert_eq!(
        refused(RefreshInput::parse(&js("1"), TOKENS)),
        "causal-dag refresh input must be a JSON object"
    );
}

#[test]
fn refresh_pages_are_checked() {
    let input = done(RefreshInput::parse(&js(r#"{"operation":"reframe"}"#), TOKENS));
    let cut = page(vec![event("e-1")], true);
    assert_eq!(
        refused(check_refresh_page(&cut, &fence(1, "e-1", true), &input, None)),
        "causal-dag refresh page ends inside a prior observer run; increase limit"
    );
    assert!(refused(check_refresh_page(&cut, &fence(1, "e-1", false), &input, None))
        .starts_with("causal-dag reframe/final has unobserved provenance backlog"));
    let first = done(RefreshInput::parse(&Json::Null, TOKENS));
    assert!(check_refresh_page(&cut, &fence(1, "e-1", false), &first, None).is_ok());
}

#[test]
fn narrowed_windows_end_at_their_last_event() {
    let events = vec![event("e-1"), event("e-2"), event("e-3")];
    let window = done(RefreshWindow::open(
        page(events.clone(), false),
        &fence(3, "e-3", false),
        events,
        None,
    ));
    assert!(!window.prefix_truncated);
    let narrow = window.restrict_to_fitted_prefix(2);
    assert_eq!(narrow.listed.len(), 2);
    assert_eq!(narrow.observed_watermark_event_id.as_deref(), Some("e-2"));
    assert!(narrow.prefix_truncated);
    let output = with_refresh_attribution(&js("{}"), &outcome(true, ""), &narrow);
    assert_eq!(
        write_json(&output),
        r#"{"feed":{"next_after_event_id":"e-2","truncated":true,"watermark_event_id":"e-2"},"observer":{"child_agent_id":"child","model":"m","provider":"p","result_event_id":"result","spawn_event_id":"spawn"}}"#
    );
    assert_eq!(
        refused(RefreshWindow::open(page(Vec::new(), false), &fence(0, "e", false), Vec::new(), None)),
        "causal-dag refresh found no observable events"
    );
}

#[test]
fn refresh_hints_are_resolved() {
    let output = r#"{"schema":"euler.causal_dag.hints.v2","nodes":[{"id":"n0","root_id":"n0"}],"edges":[]}"#;
    let hints = done(refresh_hints(&outcome(true, output), &aliases()));
    assert!(write_json(&hints).contains("node-root"));
    assert_eq!(
        refused(refresh_hints(&outcome(false, output), &aliases())),
        "causal-dag refresh observer failed: summary"
    );
    assert_eq!(
        refused(refresh_hints(&outcome(true, &"x".repeat(65_537)), &aliases())),
        "causal-dag refresh observer output exceeds 65536 bytes"
    );
}

fn graph_event() -> EventEnvelope {
    let mut found = event("artifact-1");
    found.kind = EventKind::new(EventKind::EXTENSION_ARTIFACT);
    found.payload = match js(
        r#"{"extension_id":"causal-dag","media_type":"application/vnd.euler.causal-dag.v3+json","sha256":"SHA","byte_len":5,"source_event_ids":["e-1"],"metadata":{"schema":"euler.causal_dag.v3","node_count":2,"edge_count":1,"degraded":false,"truncated":false,"watermark_event_id":"e-1","query_watermark_event_id":null}}"#,
    ) {
        Json::Object(members) => members,
        _ => panic!("object"),
    };
    for (name, value) in found.payload.iter_mut() {
        if name == "sha256" {
            *value = Json::of_text(&"ab".repeat(32));
        }
    }
    found
}

#[test]
fn recorded_observations_name_their_artifact() {
    let input = done(RecordObservationInput::parse(&js(
        r#"{"artifact_event_id":"artifact-1","observer":{"provider":"p"}}"#,
    )));
    assert_eq!(input.observer.provider, "p");
    assert_eq!(input.observer.model, "provided-hints");
    assert_eq!(input.observer.task().persona, "causal-dag-observer");
    assert_eq!(input.query().limit, 64);
    let whole = page(vec![event("e-1"), graph_event()], false);
    let found = done(VerifiedGraphArtifact::find(&whole, "artifact-1", &None));
    assert_eq!((found.node_count, found.edge_count, found.source_event_count), (2, 1, 1));
    let summary = found.summary(&whole);
    let text = done(observation_result_output(&summary));
    assert!(text.contains("artifact-1"));
    let record = HostAgentRecord {
        child_agent_id: "c".to_owned(),
        spawn_event_id: "s".to_owned(),
        result_event_id: "r".to_owned(),
    };
    let output = record_observation_output(&summary, &record);
    assert_eq!(output.get("observer_result"), Some(&summary));
    assert_eq!(
        refused(VerifiedGraphArtifact::find(&whole, "gone", &None)),
        "causal-dag record-observation artifact_event_id not found in bounded provenance page"
    );
    assert!(VerifiedGraphArtifact::find(&whole, "e-1", &None).is_err());
    assert!(VerifiedGraphArtifact::find(&whole, "artifact-1", &Some("other".to_owned())).is_err());
    assert_eq!(
        refused(bound_output("x".repeat(2049))),
        "causal-dag record-observation result exceeds 2048 bytes"
    );
    assert!(RecordObservationInput::parse(&js("{}")).is_err());
}

fn brief_input() -> BriefInput {
    done(BriefInput::parse(&Json::Null, TOKENS))
}

fn ready(events: &Vec<EventEnvelope>) -> causal_dag::research_observer::brief::PreparedBrief {
    let step = done(brief_input().prepare(
        &ResearchState::empty(),
        &None,
        &fence(events.len(), &events[events.len() - 1].id, false),
        events,
        None,
    ));
    match step {
        BriefStep::Ready(prepared) => prepared,
        BriefStep::Idle(_) => panic!("nothing to observe"),
    }
}

#[test]
fn research_briefs_are_read_back_by_apply() {
    let events = vec![event("e-1"), event("e-2")];
    let prepared = ready(&events);
    let output = brief_output(&brief_input(), &prepared, "observer");
    assert_eq!(output.text_at("watermark_event_id").map(String::as_str), Some("e-2"));
    let envelope = js(&format!(
        r#"{{"apply":{},"companion":{{"ok":true,"output":"{{}}","result_event_id":"result"}}}}"#,
        write_json(output.get("apply").expect("apply"))
    ));
    let (apply, companion) = done(parse_apply_envelope(&envelope));
    assert_eq!(apply.observed_event_ids, ["e-1", "e-2"]);
    assert_eq!(apply.watermark_event_id, "e-2");
    assert_eq!(companion.result_event_id, "result");
    assert!(apply.check_state(Some(&ResearchState::empty())).is_ok());
    assert!(apply.check_state(None).is_err());
    let cut = done(apply.cut_page(page(vec![event("e-1"), event("e-2"), event("e-3")], true)));
    assert_eq!(cut.events.len(), 2);
    assert!(apply.check_events(&cut.events).is_ok());
    assert_eq!(
        refused(apply.check_events(&vec![event("e-2")])),
        "research-record observer apply does not match the brief's source window"
    );
    assert_eq!(
        refused(apply.cut_page(page(vec![event("e-1")], false))),
        "research-record observer apply did not reach the brief watermark in its bounded page"
    );
    let failed = js(&write_json(&envelope).replace("\"ok\":true", "\"ok\":false"));
    assert!(parse_apply_envelope(&failed).is_err());
}

#[test]
fn quiet_windows_are_idle() {
    let state = ResearchState::empty();
    let none: Vec<EventEnvelope> = Vec::new();
    match done(brief_input().prepare(&state, &None, &fence(0, "e-9", false), &none, None)) {
        BriefStep::Idle(cursor) => assert_eq!(cursor.as_deref(), Some("e-9")),
        BriefStep::Ready(_) => panic!("something to observe"),
    }
    assert_eq!(
        write_json(&idle_output(&state)),
        r#"{"listed_event_count":0,"mode":"research_record_v1","schema":"euler.research_record.observer_brief.v1","status":"idle","watermark_event_id":null}"#
    );
    assert!(refused(brief_input().prepare(&state, &None, &fence(0, "e", true), &none, None))
        .contains("increase limit"));
    assert!(enabled(None).is_err());
}

#[test]
fn research_refreshes_without_events_do_nothing_or_reframe() {
    let empty = ResearchState::empty();
    assert_eq!(quiet_refresh(RefreshOperation::Final, &empty), QuietRefresh::Nothing);
    assert_eq!(
        write_json(&unchanged_output(RefreshOperation::Incremental)),
        r#"{"mode":"research_record_v1","reason":"no new observable pilot events","refresh_operation":"incremental","schema":"euler.research_record.refresh.v1","updated":false}"#
    );
    assert_eq!(refused(selected_cursor(&empty)), "research-record state has no cursor");
    let input = done(ResearchRefreshInput::parse(&js(r#"{"operation":"final"}"#), TOKENS));
    assert!(refused(input.observer_task(&ready(&vec![event("e-1")]), "p"))
        .contains("needs provider and model"));
}

fn question_batch() -> ObserverProposalBatch {
    ObserverProposalBatch {
        schema: RESEARCH_PROPOSALS_SCHEMA.to_owned(),
        entities: vec![ResearchEntity {
            id: "q".to_owned(),
            kind: EntityKind::Question,
            title: "Question".to_owned(),
            summary: "The question.".to_owned(),
            lifecycle: None,
            source_event_ids: vec!["e-1".to_owned()],
        }],
        outcomes: Vec::new(),
        relations: Vec::new(),
        assessments: Vec::new(),
    }
}

#[test]
fn applied_proposals_are_selected_and_answered() {
    let events = vec![event("e-1")];
    let prepared = ready(&events);
    let companion = done(CompanionOutput::from_outcome(&outcome(true, "{}")));
    let state = ResearchState::empty();
    let append = done(append_input(
        &state,
        None,
        events,
        question_batch(),
        &prepared.apply,
        &companion,
    ));
    let base = done(prepare_append(&append));
    let candidate = done(complete_append(&append, base.record));
    let record_write = record_artifact(&candidate.record, &companion);
    assert_eq!(record_write.display_name, "Durable research record");
    let record_value = candidate.record.value();
    let record_stored = stored("record-1", &record_value);
    assert_eq!(record_write.bytes.len(), record_stored.byte_len);
    let projection = done(ResearchProjection::from_record(&candidate.record, "record-1"));
    let graph_write = done(graph_artifact(&projection, &record_stored));
    let graph_value = projection.artifact_value();
    let graph_stored = stored("graph-1", &graph_value);
    assert_eq!(graph_write.bytes.len(), graph_stored.byte_len);
    let selected = done(ResearchState::commit(
        &record_stored,
        record_value,
        &graph_stored,
        graph_value,
        "e-1",
    ));
    assert!(selected.active());
    assert!(selected.validate_pair(Some(&candidate.record)).is_ok());
    let output = applied_output(
        &candidate.record,
        &candidate.accepted,
        &record_stored,
        &graph_stored,
        &selected,
        &companion,
        &SlotPublication::Published,
    );
    assert_eq!(output.get("entity_count").and_then(Json::as_count), Some(1));
    assert_eq!(output.get("ledger_entry_count").and_then(Json::as_count), Some(2));
    let refreshed = refreshed_output(&output, RefreshOperation::Final);
    assert_eq!(refreshed.text_at("refresh_operation").map(String::as_str), Some("final"));
    let reframed = reframed_output(
        RefreshOperation::Reframe,
        &record_stored,
        &graph_stored,
        &selected,
        &SlotPublication::NotAttempted,
    );
    assert_eq!(reframed.flag_at("slot_published"), Some(false));
    assert_eq!(quiet_refresh(RefreshOperation::Final, &selected), QuietRefresh::Reframe);
    assert_eq!(selected_cursor(&selected).map(String::as_str), Ok("e-1"));
    let moved = done(selected.advance_cursor("e-2"));
    assert_eq!(moved.observed_through_event_id().as_deref(), Some("e-2"));
    assert_eq!(moved.record_artifact_event_id().map(String::as_str), Some("record-1"));

    let again = done(ResearchState::from_disk(RESEARCH_STATE_SCHEMA, moved));
    assert!(again.active());
    assert_eq!(
        refused(ResearchState::from_disk("other", ResearchState::empty())),
        "research-record state schema is unsupported"
    );
    let mut half = ResearchState::empty();
    half.record = Some(done(StoredArtifact::from_record(&record_stored, candidate.record.value())));
    assert_eq!(
        refused(half.validate_selection()),
        "research-record state must select both record and graph artifacts"
    );
}

#[test]
fn stored_artifacts_match_their_hash() {
    let value = js(&format!(r#"{{"schema":"{RESEARCH_RECORD_SCHEMA}"}}"#));
    let record = ArtifactRecord {
        persisted_event_id: "record-1".to_owned(),
        relative_path: "a/b.json".to_owned(),
        sha256: "B4E256562FD6A25EADD941D779FDE587CF0D745F3267C345BA994328ACA3C648".to_owned(),
        byte_len: 38,
    };
    let kept = done(StoredArtifact::from_record(&record, value));
    assert!(kept.validate(RESEARCH_RECORD_SCHEMA, 100).is_ok());
    assert_eq!(
        refused(kept.validate(RESEARCH_RECORD_SCHEMA, 37)),
        "research-record selected artifact exceeds the size limit"
    );
    assert_eq!(
        refused(kept.validate("other", 100)),
        "research-record selected artifact is invalid"
    );
    assert_eq!(
        refused(kept.check(RESEARCH_RECORD_SCHEMA, 100, 38, &"00".repeat(32))),
        "research-record selected artifact cache does not match its metadata"
    );
    let mut bad = record.clone();
    bad.relative_path = "../b.json".to_owned();
    assert_eq!(
        refused(StoredArtifact::from_record(&bad, Json::Null)),
        "research-record artifact record is invalid"
    );
}

#[test]
fn research_state_files_are_checked() {
    assert_eq!(check_state_file(StateFile::Missing), Ok(false));
    assert_eq!(check_state_file(StateFile::Readable), Ok(true));
    assert_eq!(
        refused(check_state_file(StateFile::Irregular)),
        "research-record state is not a regular file"
    );
    assert_eq!(
        refused(check_state_file(StateFile::Oversize)),
        "research-record state exceeds the size limit"
    );
    assert!(check_state_bytes(4 * 1024 * 1024 - 1).is_ok());
    assert!(check_state_bytes(4 * 1024 * 1024).is_err());
}

#[test]
fn proposals_are_taken_out_of_their_fence() {
    assert_eq!(strip_json_fence("```json\n{}\n```"), "{}");
    assert_eq!(strip_json_fence("```JSON {}"), "{}");
    assert_eq!(strip_json_fence(" {} "), "{}");
    assert_eq!(proposals_text("```\n[]```").as_deref(), Ok("[]"));
    assert_eq!(
        refused(proposals_text(&"x".repeat(65_537))),
        "research observer output exceeds 65536 bytes"
    );
    assert_eq!(
        unreadable_proposals("why").message(),
        "research observer output must be `euler.research_record.proposals.v1` JSON: why"
    );
    assert!(CompanionOutput::from_outcome(&outcome(false, "{}")).is_err());
}
