use causal_dag::active_state::{
    blocks_research_enable, load, state_file, ActiveGraphState, StateFile, MAX_ACTIVE_STATE_BYTES,
};
use causal_dag::construction::{ConstructionOperation, ConstructionPolicy, ConstructionTrigger};
use causal_dag::event::{object, EventEnvelope, EventKind};
use causal_dag::export::graph::ViewerDag;
use causal_dag::export::source::GraphSource;
use causal_dag::export::svg::layout;
use causal_dag::inputs::{CatchUpInput, UpdateInput};
use causal_dag::json::{read_json, write_json, Json, Numeral};
use causal_dag::observe::{
    cut_page_at_watermark, next_cursor, observe_page, revise, revision_output, ObservationCommit,
    ObserveInput, RevisionEvents,
};
use causal_dag::projection::forest::{Projection, Ratios};
use causal_dag::projection::revision::merge_record_sources;
use causal_dag::sdk::{ArtifactRecord, EventFeedCheckpoint, ExtensionError, ProvenancePage};
use causal_dag::slot_summary::backbone::best_path;
use causal_dag::slot_summary::budget::render_slot_summary;
use causal_dag::slot_summary::publication::SlotPublication;
use causal_dag::update::{
    idle_checkpoint, idle_tick, is_causal_dag_self_event, page_checkpoint, plan_update, projection_artifact,
    split_update_events, written_tick, CatchUp, UpdatePlan,
};
use causal_dag::view::view_active;

fn js(text: &str) -> Json {
    read_json(text).expect("JSON text")
}

fn refused<T>(outcome: Result<T, ExtensionError>) -> String {
    match outcome {
        Ok(_) => panic!("accepted"),
        Err(error) => error.message(),
    }
}

fn done<T>(outcome: Result<T, ExtensionError>) -> T {
    match outcome {
        Ok(value) => value,
        Err(error) => panic!("{}", error.message()),
    }
}

fn event(id: &str, parent: Option<&str>, kind: &str, payload: &str) -> EventEnvelope {
    EventEnvelope {
        v: 1,
        id: id.to_owned(),
        ts: format!("2026-07-14T00:00:0{}Z", id.len() % 10),
        session: "session-1".to_owned(),
        agent: "agent".to_owned(),
        parent: parent.map(str::to_owned),
        kind: EventKind::new(kind),
        payload: match js(payload) {
            Json::Object(members) => members,
            _ => object(vec![]),
        },
        blobs: Vec::new(),
    }
}

fn message(id: &str, parent: Option<&str>) -> EventEnvelope {
    event(id, parent, "user.message", r#"{"content":"words"}"#)
}

fn own_artifact(id: &str) -> EventEnvelope {
    event(
        id,
        None,
        "extension.artifact",
        r#"{"extension_id":"causal-dag","media_type":"application/vnd.euler.causal-dag.v3+json"}"#,
    )
}

fn page(events: Vec<EventEnvelope>, truncated: bool) -> ProvenancePage {
    ProvenancePage {
        applied_limit: 64,
        applied_scan_limit: 1024,
        scanned_events: events.len(),
        watermark_event_id: events.last().map(|event| event.id.clone()),
        next_after_event_id: None,
        truncated,
        events,
    }
}

fn ratios() -> Ratios {
    Ratios { branching: js("0.5"), sequence: js("0.0") }
}

fn record(id: &str) -> ArtifactRecord {
    ArtifactRecord {
        persisted_event_id: id.to_owned(),
        relative_path: "artifacts/graph.json".to_owned(),
        sha256: "ab".repeat(32),
        byte_len: 10,
    }
}

fn hints() -> String {
    let source = r#""source_refs":[{"id":"s","event_id":"e-1","payload_pointer":"/payload/content"}],"basis":{"kind":"direct","summary":"Told so."}"#;
    format!(
        r#"{{"schema":"euler.causal_dag.hints.v2","nodes":[{{"id":"root","root_id":"root","kind":"root","status":"open","title":"Goal","summary":"The goal.",{source}}},{{"id":"try","root_id":"root","kind":"attempt","status":"dead_end","title":"Try","summary":"A try.",{source}}}],"edges":[{{"id":"edge-1","from":"root","to":"try","class":"structural","kind":"continuation","canonical_backbone":true,{source}}}]}}"#
    )
}

fn observe_input(hints: &str) -> ObserveInput {
    done(ObserveInput::parse(&js(&format!(r#"{{"causal_dag":{hints}}}"#))))
}

#[test]
fn linear_events_make_a_backbone() {
    let events = vec![message("e-1", None), message("e-2", Some("e-1")), message("e-3", Some("e-1"))];
    let projection = done(Projection::from_events(&events, &None, true));
    assert_eq!(projection.node_count(), 3);
    assert_eq!(projection.edge_count(), 2);
    assert!(!projection.degraded());
    let artifact = projection.artifact_value(&ratios());
    let dag = done(ViewerDag::from_artifact(&artifact));
    assert_eq!(dag.node_count(), 3);
    assert_eq!(dag.edge_count(), 2);
    let labels: Vec<String> = projection
        .nodes()
        .iter()
        .map(|node| match node.get("metadata").and_then(|m| m.text_at("backbone_label")) {
            Some(label) => label.clone(),
            None => "-".to_owned(),
        })
        .collect();
    assert_eq!(labels, ["-", "A", "B"]);
    let summary = render_slot_summary(&projection).expect("finite");
    assert!(summary.starts_with("GRAPH:"), "{summary}");
}

#[test]
fn events_without_one_root_fall_back_to_their_order() {
    let events = vec![message("e-1", None), message("e-2", None)];
    let projection = done(Projection::from_events(&events, &None, true));
    assert!(projection.degraded());
    assert_eq!(projection.edge_count(), 1);
    let text = projection.artifact_text(&ratios());
    assert!(text.contains("\"degraded\":true"), "{text}");
    assert!(text.contains("bounded_chronology"), "{text}");
    assert!(text.ends_with("}\n"));
}

#[test]
fn no_events_make_an_empty_graph() {
    let projection = done(Projection::from_events(&Vec::new(), &Some("session-9".to_owned()), true));
    assert_eq!(projection.node_count(), 0);
    assert_eq!(projection.root_ids().len(), 0);
}

#[test]
fn pages_of_other_sessions_are_refused() {
    assert_eq!(
        refused(Projection::from_events(
            &vec![message("e-1", None)],
            &Some("other".to_owned()),
            true
        )),
        "session_id does not match bounded event page"
    );
}

#[test]
fn hints_in_events_make_a_semantic_graph() {
    let mut events = vec![message("e-1", None), message("e-2", Some("e-1"))];
    events[1].payload = object(vec![("causal_dag", js(&hints()))]);
    let projection = done(Projection::from_events(&events, &None, true));
    assert_eq!(projection.root_ids().clone(), ["root"]);
    assert_eq!(projection.node_count(), 2);
    assert_eq!(projection.cited_event_ids(), ["e-1"]);
    assert!(!projection.degraded());
}

#[test]
fn hints_are_refused_for_each_fault() {
    let good = hints();
    let cases = [
        (good.replace("hints.v2", "hints.v1"), "causal-dag hint schema must be euler.causal_dag.hints.v2"),
        (good.replace("\"kind\":\"root\"", "\"kind\":\"attempt\""), "causal-dag semantic hints produced no roots"),
        (good.replace("\"event_id\":\"e-1\"", "\"event_id\":\"e-9\""), "causal-dag source ref `s` references unknown event `e-9`"),
        (good.replace("/payload/content", "/payload/gone"), "causal-dag source ref `s` payload_pointer does not resolve"),
        (good.replace("/payload/content", "payload"), "causal-dag source ref `s` has invalid payload_pointer"),
        (good.replace("\"to\":\"try\"", "\"to\":\"gone\""), "causal-dag edge `edge-1` references missing target node `gone`"),
        (good.replace("\"to\":\"try\"", "\"to\":\"root\""), "causal-dag edge `edge-1` is a self-edge"),
        (good.replace("\"canonical_backbone\":true", "\"canonical_backbone\":false"), "non-root node `try` must have exactly one backbone parent"),
    ];
    for (text, expected) in cases {
        let mut events = vec![message("e-1", None), message("e-2", Some("e-1"))];
        events[1].payload = object(vec![("causal_dag", js(&text))]);
        assert_eq!(refused(Projection::from_events(&events, &None, true)), expected);
    }
}

#[test]
fn own_events_are_left_out() {
    assert_eq!(is_causal_dag_self_event(&own_artifact("a")), Ok(true));
    assert_eq!(is_causal_dag_self_event(&message("m", None)), Ok(false));
    assert_eq!(
        refused(is_causal_dag_self_event(&event("x", None, "extension.artifact", "{}"))),
        "malformed extension.artifact event: extension_id"
    );
    let slot = event("s", None, "context.slot.updated", r#"{"extension_id":"causal-dag"}"#);
    assert_eq!(is_causal_dag_self_event(&slot), Ok(true));
    let split = done(split_update_events(&vec![own_artifact("a"), message("m", None)]));
    assert_eq!(split.source_events.len(), 1);
    assert_eq!(split.ignored_self_event_ids, ["a"]);
}

#[test]
fn updates_write_and_then_catch_up() {
    let first = page(vec![message("e-1", None)], false);
    let (projection, sources, ignored) = match done(plan_update(&first, &None)) {
        UpdatePlan::Write { projection, source_event_ids, ignored } => {
            (projection, source_event_ids, ignored)
        }
        UpdatePlan::Idle { .. } => panic!("nothing to write"),
    };
    assert_eq!(sources, ["e-1"]);
    let write = projection_artifact(&projection, &first, sources, &ratios());
    assert_eq!(write.display_name, "Causal DAG");
    assert_eq!(write.bytes, projection.artifact_text(&ratios()).into_bytes());
    let checkpoint = done(page_checkpoint(&first));
    assert_eq!(checkpoint, EventFeedCheckpoint::new("e-1".to_owned()).expect("cursor"));
    let tick = written_tick(
        &first,
        &projection,
        1,
        ignored,
        &record("artifact-1"),
        "e-1",
        SlotPublication::Published,
    );
    assert!(tick.updated);
    let chase = CatchUp::new().advance(tick);
    assert!(chase.goes_on(2));
    assert!(!chase.goes_on(1));
    assert_eq!(chase.pending_self_artifact_id.as_deref(), Some("artifact-1"));

    let second = page(vec![own_artifact("artifact-1")], false);
    let ignored = match done(plan_update(&second, &None)) {
        UpdatePlan::Idle { ignored } => ignored,
        UpdatePlan::Write { .. } => panic!("something to write"),
    };
    let chase = chase.advance(idle_tick(&second, ignored));
    assert!(chase.caught_up);
    assert!(!chase.goes_on(9));
    let output = chase.output(9);
    assert_eq!(output.get("tick_count").and_then(Json::as_count), Some(2));
    assert_eq!(output.flag_at("caught_up"), Some(true));
    assert_eq!(output.flag_at("slot_published"), Some(true));
    assert_eq!(output.flag_at("exhausted_tick_budget"), Some(false));
    assert_eq!(output.text_at("checkpoint_after_event_id").map(String::as_str), Some("artifact-1"));
}

#[test]
fn pages_without_a_watermark_have_no_checkpoint() {
    assert_eq!(
        refused(page_checkpoint(&page(Vec::new(), false))),
        "causal-dag update page has no checkpoint watermark"
    );
    let mut odd = page(Vec::new(), false);
    odd.watermark_event_id = Some("two words".to_owned());
    assert_eq!(refused(page_checkpoint(&odd)), "checkpoint failed: invalid checkpoint cursor");
    let ignored = vec!["e-1".to_owned()];
    assert!(done(idle_checkpoint(&odd, &Vec::new())).is_none());
    assert_eq!(
        refused(idle_checkpoint(&odd, &ignored)),
        "checkpoint failed: invalid checkpoint cursor"
    );
    odd.watermark_event_id = Some("e-1".to_owned());
    let kept = done(idle_checkpoint(&odd, &ignored));
    assert_eq!(kept.map(|checkpoint| checkpoint.after_event_id).as_deref(), Some("e-1"));
}

#[test]
fn publications_keep_the_first_failure() {
    let failed = SlotPublication::from_answer(Err(ExtensionError::ContextSlotFailed("full".to_owned())));
    let merged = SlotPublication::Published
        .merge(failed)
        .merge(SlotPublication::Failed("later".to_owned()))
        .merge(SlotPublication::NotAttempted);
    match merged {
        SlotPublication::Failed(error) => assert_eq!(error, "context slot update failed: full"),
        _ => panic!("no failure"),
    }
}

#[test]
fn update_inputs_are_read() {
    assert_eq!(done(UpdateInput::parse(&Json::Null)), UpdateInput::default());
    let input = done(UpdateInput::parse(&js(r#"{"limit":3,"scan_limit":9,"session_id":"s"}"#)));
    let query = input.query(&Some("e".to_owned()));
    assert_eq!((query.limit, query.scan_limit), (3, 9));
    assert_eq!(query.after_event_id.as_deref(), Some("e"));
    assert_eq!(
        refused(UpdateInput::parse(&js(r#"{"after_event_id":"e"}"#))),
        "causal-dag update does not accept after_event_id"
    );
    assert_eq!(
        refused(UpdateInput::parse(&js(r#"{"kinds":[]}"#))),
        "causal-dag update does not accept kinds"
    );
    assert_eq!(refused(UpdateInput::parse(&js(r#"{"limit":0}"#))), "limit must be greater than zero");
    assert_eq!(
        refused(UpdateInput::parse(&js(r#"{"limit":-1}"#))),
        "limit must be a positive integer"
    );
    assert_eq!(done(CatchUpInput::parse(&Json::Null)).max_ticks, 16);
    assert_eq!(
        refused(CatchUpInput::parse(&js(r#"{"max_ticks":129}"#))),
        "max_ticks must be at most 128"
    );
}

#[test]
fn observed_pages_end_at_their_watermark() {
    let events = vec![message("e-1", None), message("e-2", None), message("e-3", None)];
    let cut = done(cut_page_at_watermark(page(events, true), "e-2", &None));
    assert_eq!(cut.events.len(), 2);
    assert_eq!(cut.watermark_event_id.as_deref(), Some("e-2"));
    assert!(cut_page_at_watermark(page(vec![message("e-1", None)], true), "gone", &None).is_err());
    assert_eq!(
        refused(observe_page(page(Vec::new(), true), &observe_input(&hints()), "observe")),
        "causal-dag observe requires a complete bounded event page"
    );
}

#[test]
fn observations_are_folded_into_the_active_graph() {
    let events = vec![message("e-1", None)];
    let whole = page(events.clone(), false);
    let input = observe_input(&hints());
    let own = done(RevisionEvents::own(&whole));
    let first = done(revise(&input, "observe", &ObservationCommit::ManualReframe, None, &own.source_events));
    assert_eq!(first.projection.node_count(), 2);
    let artifact = first.projection.artifact_value(&ratios());
    let active = done(ActiveGraphState::commit(&record("artifact-1"), artifact, &next_cursor(&whole, &input)));
    assert_eq!(active.cursor_event_id(), "e-1");
    let output = revision_output(
        "observe",
        &whole,
        &first.projection,
        (1, 1, 0),
        &record("artifact-1"),
        &active,
        &SlotPublication::Published,
    );
    assert_eq!(output.get("node_count").and_then(Json::as_count), Some(2));
    assert_eq!(output.flag_at("slot_published"), Some(true));

    let source = r#""source_refs":[{"id":"s2","event_id":"e-2"}],"basis":{"kind":"direct","summary":"More."}"#;
    let more = format!(
        r#"{{"schema":"euler.causal_dag.hints.v2","nodes":[{{"id":"again","root_id":"root","kind":"attempt","status":"success","title":"Again","summary":"Once more.",{source}}}],"edges":[{{"id":"edge-2","from":"try","to":"again","class":"structural","kind":"repair","canonical_backbone":true,{source}}}]}}"#
    );
    let mut next = observe_input(&more);
    next.after_event_id = Some("e-1".to_owned());
    let commit = ObservationCommit::Rolling {
        expected_predecessor_artifact_event_id: Some("artifact-1".to_owned()),
        observer_result_event_id: "result-1".to_owned(),
    };
    let second = done(revise(&next, "observer-apply", &commit, Some(&active), &vec![message("e-2", None)]));
    assert_eq!(second.projection.node_count(), 3);
    assert_eq!(second.projection.edge_count(), 2);
    assert_eq!(drawn_nodes(&second.projection.artifact_value(&ratios())), 3);
    assert!(second.source_event_ids.contains(&"result-1".to_owned()));

    let stale = ObservationCommit::Rolling {
        expected_predecessor_artifact_event_id: Some("artifact-0".to_owned()),
        observer_result_event_id: "result-1".to_owned(),
    };
    assert!(revise(&next, "observer-apply", &stale, Some(&active), &vec![message("e-2", None)]).is_err());
    let explicit = ObservationCommit::Explicit {
        operation: ConstructionOperation::Final,
        policy: ConstructionPolicy::Manual,
        trigger: ConstructionTrigger::SessionEnd,
        expected_predecessor_artifact_event_id: Some("artifact-1".to_owned()),
        observer_result_event_id: "result-2".to_owned(),
    };
    let whole_graph = hints();
    let mut last = observe_input(&whole_graph);
    last.after_event_id = Some("e-1".to_owned());
    let third = done(revise(&last, "refresh", &explicit, Some(&active), &vec![message("e-2", None)]));
    assert_eq!(third.projection.node_count(), 2);
    assert!(write_json(&third.projection.construction_value()).contains("\"final\""));
}

#[test]
fn observations_need_events_or_a_graph() {
    assert_eq!(
        refused(revise(
            &observe_input(&hints()),
            "observe",
            &ObservationCommit::ManualReframe,
            None,
            &Vec::new()
        )),
        "causal-dag observe requires a non-empty bounded event page"
    );
}

fn active_state() -> ActiveGraphState {
    let whole = page(vec![message("e-1", None)], false);
    let input = observe_input(&hints());
    let first = done(revise(
        &input,
        "observe",
        &ObservationCommit::ManualReframe,
        None,
        &whole.events,
    ));
    let artifact = first.projection.artifact_value(&ratios());
    done(ActiveGraphState::commit(&record("artifact-1"), artifact, &None))
}

#[test]
fn active_states_are_read_back() {
    let state = active_state();
    let text = done(state.write());
    assert!(text.contains("\"branching_ratio\":0.5"), "{text}");
    let again = ActiveGraphState::read(&text).expect("state");
    assert_eq!(again.to_value(), state.to_value());
    let filed = ActiveGraphState::read(&format!("{text}\n")).expect("state");
    assert_eq!(filed.to_value(), state.to_value());
    assert_eq!(done(again.write()), text);
    let moved = done(state.advance_cursor("e-7"));
    assert_eq!(moved.cursor_event_id(), "e-7");
    assert_eq!(moved.artifact_event_id(), "artifact-1");
    assert!(state.advance_cursor("").is_err());
    assert_eq!(state.artifact_sha256(), "ab".repeat(32));
    assert_eq!(state.watermark_event_id(), "e-1");
}

#[test]
fn state_files_that_are_no_states_stand_for_none() {
    assert!(ActiveGraphState::read("{").is_none());
    assert!(ActiveGraphState::read("{}").is_none());
    let text = done(active_state().write());
    assert!(ActiveGraphState::read(&text.replace("artifact-1", "")).is_none());
    assert_eq!(state_file(false, false, 0, 9), StateFile::Missing);
    assert_eq!(state_file(true, false, 0, 9), StateFile::Irregular);
    assert_eq!(state_file(true, true, 10, 9), StateFile::Oversize);
    assert_eq!(state_file(true, true, 9, 9), StateFile::Readable);
    assert!(blocks_research_enable(StateFile::Readable, &text));
    assert!(!blocks_research_enable(StateFile::Oversize, &text));
    assert!(done(load(StateFile::Missing, "")).is_none());
    assert!(done(load(StateFile::Readable, &text)).is_some());
    assert_eq!(
        refused(load(StateFile::Irregular, "")),
        "state directory failed: active graph state is not a regular file"
    );
    assert_eq!(
        refused(load(StateFile::Oversize, "")),
        "state directory failed: active graph state exceeds the size limit"
    );
    assert_eq!(MAX_ACTIVE_STATE_BYTES, 1024 * 1024);
}

#[test]
fn active_graphs_are_viewed_and_exported() {
    let state = active_state();
    let source = done(GraphSource::from_active(&state, &Some("session-1".to_owned())));
    assert!(source.active);
    let text = write_json(&source.artifact);
    assert_eq!(source.record.as_ref().map(|record| record.byte_len), Some(text.len() + 1));
    assert_eq!(
        refused(GraphSource::from_active(&state, &Some("session-2".to_owned()))),
        "session_id does not match the active causal-dag graph"
    );
    let shown = done(view_active(&Some(state), &None));
    assert_eq!(shown.text_at("source_artifact_event_id").map(String::as_str), Some("artifact-1"));
}

fn drawn_nodes(artifact: &Json) -> usize {
    let dag = done(ViewerDag::from_artifact(artifact));
    let spots = done(layout(&dag));
    assert_eq!(spots.len(), dag.nodes.len());
    for node in &dag.nodes {
        assert_eq!(spots.iter().filter(|spot| spot.id == node.id).count(), 1);
    }
    spots.len()
}

#[test]
fn event_graphs_are_drawn_with_one_spot_for_each_node() {
    let mut chain = vec![message("e-0", None)];
    for i in 1..120 {
        let parent = format!("e-{}", i / 2);
        chain.push(message(&format!("e-{i}"), Some(if i == 1 { "e-0" } else { parent.as_str() })));
    }
    let projection = done(Projection::from_events(&chain, &None, true));
    assert!(!projection.degraded());
    assert_eq!(drawn_nodes(&projection.artifact_value(&ratios())), 120);
    let mut ids: Vec<String> =
        projection.nodes().iter().filter_map(|node| node.text_at("id").cloned()).collect();
    ids.sort();
    ids.dedup();
    assert_eq!(ids.len(), 120);
    let loose: Vec<EventEnvelope> = (0..7).map(|i| message(&format!("e-{i}"), None)).collect();
    let projection = done(Projection::from_events(&loose, &None, true));
    assert!(projection.degraded());
    assert_eq!(drawn_nodes(&projection.artifact_value(&ratios())), 7);
}

#[test]
fn hinted_graphs_are_drawn_unless_a_title_is_empty() {
    let mut events = vec![message("e-1", None), message("e-2", Some("e-1"))];
    events[1].payload = object(vec![("causal_dag", js(&hints()))]);
    let projection = done(Projection::from_events(&events, &None, true));
    assert_eq!(drawn_nodes(&projection.artifact_value(&ratios())), 2);
    let nameless = hints().replace(r#""title":"Try""#, r#""title":"""#);
    events[1].payload = object(vec![("causal_dag", js(&nameless))]);
    let projection = done(Projection::from_events(&events, &None, true));
    assert!(ViewerDag::from_artifact(&projection.artifact_value(&ratios())).is_err());
}

#[test]
fn sources_that_differ_in_the_sign_of_a_zero_say_the_same() {
    let record = |id: &str, weight: &str| {
        js(&format!(
            r#"{{"id":"n","basis":{{}},"source_refs":[{{"id":"{id}","event_id":"e-1","payload_pointer":null,"weight":{weight}}}]}}"#
        ))
    };
    let merged = done(merge_record_sources(&record("s", "0.0"), &record("t", "-0.0")));
    assert_eq!(merged.list_at("source_refs").map(Vec::len), Some(1));
    assert!(write_json(&merged).contains("\"weight\":0.0"));
    assert_eq!(
        refused(merge_record_sources(&record("s", "0.0"), &record("t", "0.5"))),
        "causal-dag source evidence changed meaning during revision"
    );
}

#[test]
fn artifacts_keep_their_ratios() {
    let held = |value: f64| {
        Json::Number(Numeral::Float(serde_json::Number::from_f64(value).expect("finite")))
    };
    let projection = done(Projection::from_events(&vec![message("e-1", None)], &None, true));
    let text = projection.artifact_text(&Ratios {
        branching: held(12.0 / 13.0),
        sequence: held(6.0 / 13.0),
    });
    assert!(text.contains("\"branching_ratio\":0.9230769230769231"), "{text}");
    assert!(text.contains("0.46153846153846156"), "{text}");
}

#[test]
fn the_longest_way_down_is_followed() {
    let kin = |rows: &[(&str, &[&str])]| -> Vec<(String, Vec<String>)> {
        rows.iter()
            .map(|(parent, kids)| {
                let kids = kids.iter().map(|kid| (*kid).to_owned()).collect();
                ((*parent).to_owned(), kids)
            })
            .collect()
    };
    let tree = kin(&[("a", &["d"]), ("b", &["e"]), ("c", &["f"]), ("f", &["g"]), ("r", &["a", "b", "c"])]);
    assert_eq!(best_path("r", &tree, tree.len()), ["r", "c", "f", "g"]);
    let even = kin(&[("a", &["y", "z"]), ("b", &["c"]), ("r", &["a", "b"])]);
    assert_eq!(best_path("r", &even, even.len()), ["r", "a", "y"]);
    assert_eq!(best_path("z", &even, even.len()), ["z"]);
}
