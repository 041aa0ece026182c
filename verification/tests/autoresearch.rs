use causal_dag::autoresearch::brief::{
    build_objective_brief, ObjectiveBriefInput, DEFAULT_MAX_TOKENS, OBJECTIVE_BRIEF_SCHEMA,
    OBJECTIVE_PERSONA, OBJECTIVE_SCHEMA,
};
use causal_dag::autoresearch::report::{
    build_objective_report, objective_artifact, report_output, validate_objective,
    ObjectiveReportInput, OBJECTIVE_MEDIA_TYPE,
};
use causal_dag::json::{read_json, write_json, Json, Numeral};
use causal_dag::sdk::{ExtensionError, DEFAULT_SCAN_LIMIT, MAX_TASK_BYTES};

fn js(text: &str) -> Json {
    read_json(text).expect("JSON text")
}

fn quoted(text: &str) -> String {
    write_json(&Json::of_text(text))
}

fn event(id: &str, parent: Option<&str>, kind: &str, payload: &str) -> String {
    let parent = match parent {
        Some(parent) => quoted(parent),
        None => "null".to_owned(),
    };
    format!(
        r#"{{"v":1,"id":"{id}","ts":"2026-07-05T00:00:00.000Z","session":"session","agent":"agent","parent":{parent},"kind":"{kind}","payload":{payload},"blobs":{{}}}}"#
    )
}

fn page_with(events: &[String], applied_limit: usize) -> Json {
    let watermark = match events.last() {
        Some(last) => quoted(js(last).text_at("id").expect("id")),
        None => "null".to_owned(),
    };
    js(&format!(
        r#"{{"events":[{}],"applied_limit":{applied_limit},"applied_scan_limit":1024,"scanned_events":{},"watermark_event_id":{watermark},"next_after_event_id":null,"truncated":false}}"#,
        events.join(","),
        events.len()
    ))
}

fn page(events: &[String]) -> Json {
    page_with(events, 64)
}

fn source_event(id: &str) -> String {
    event(id, None, "user.message", r#"{"content":"source evidence"}"#)
}

fn spawn_and_result(output: &str) -> (String, String) {
    let spawn = event(
        "event-spawn",
        None,
        "agent.spawn",
        &format!(r#"{{"persona":"{OBJECTIVE_PERSONA}"}}"#),
    );
    let result = event(
        "event-result",
        Some("event-spawn"),
        "agent.result",
        &format!(
            r#"{{"spawn_event_id":"event-spawn","ok":true,"summary":"planned","output":{}}}"#,
            quoted(output)
        ),
    );
    (spawn, result)
}

fn objective(objective_ref: &str, pointer: &str, dead_end_ref: &str, confidence: &str) -> String {
    format!(
        r#"{{"schema":"{OBJECTIVE_SCHEMA}","objectives":[{{"id":"obj-1","title":"Tighten objective validation","rationale":"The log shows validation work is active.","evidence_refs":[{{"event_id":"{objective_ref}","payload_pointer":"{pointer}"}}],"expected_outcome":"A validated next objective artifact exists.","acceptance_checks":["cargo test"]}}],"dead_ends_to_avoid":[{{"summary":"Do not add web research features.","evidence_refs":[{{"event_id":"{dead_end_ref}","payload_pointer":"/payload/content"}}]}}],"recommended_objective_id":"obj-1","confidence":{confidence}}}"#
    )
}

fn valid_objective_json(event_id: &str) -> String {
    objective(
        event_id,
        "/payload/content",
        event_id,
        r#"{"level":"medium","score":0.7}"#,
    )
}

fn objective_json_with_dead_end_ref(event_id: &str) -> String {
    objective(
        "event-spawn",
        "/payload/task",
        event_id,
        r#"{"level":"medium","score":0.7}"#,
    )
}

fn refused<T>(outcome: Result<T, ExtensionError>) -> String {
    match outcome {
        Ok(_) => panic!("accepted"),
        Err(error) => error.message(),
    }
}

fn text<'a>(json: &'a Json, name: &str) -> &'a str {
    json.text_at(name).expect("text member")
}

fn count(json: &Json, name: &str) -> u64 {
    json.get(name).and_then(|value| value.as_count()).expect("count member")
}

#[test]
fn objective_brief_outputs_agent_task_shape_and_window_watermark() {
    let source = event(
        "event-user",
        None,
        "user.message",
        r#"{"content":"find the next useful slice"}"#,
    );
    let output = build_objective_brief(&ObjectiveBriefInput::default(), &page(&[source])).expect("brief");

    assert_eq!(text(&output, "schema"), OBJECTIVE_BRIEF_SCHEMA);
    assert_eq!(text(&output, "persona"), OBJECTIVE_PERSONA);
    assert_eq!(text(&output, "provider"), "");
    assert_eq!(text(&output, "model"), "");
    assert_eq!(output.get("capabilities"), Some(&Json::List(Vec::new())));
    let budget = output.get("budget").expect("budget");
    assert_eq!(count(budget, "max_turns"), 1);
    assert_eq!(count(budget, "max_tool_calls"), 0);
    assert_eq!(count(budget, "max_tokens"), DEFAULT_MAX_TOKENS);
    assert_eq!(text(&output, "watermark_event_id"), "event-user");
    assert!(text(&output, "system_prompt").contains(OBJECTIVE_SCHEMA));
    assert!(text(&output, "task").contains("event-user user.message"));
    assert!(text(&output, "task").len() <= MAX_TASK_BYTES);
}

#[test]
fn objective_brief_rejects_empty_window_and_unknown_input() {
    let empty = refused(build_objective_brief(&ObjectiveBriefInput::default(), &page(&[])));
    assert!(empty.contains("found no events"));

    let unknown = refused(ObjectiveBriefInput::parse(&js(
        r#"{"limit":1,"path":"/tmp/nope"}"#,
    )));
    assert!(unknown.contains("unknown input field `path`"));
}

#[test]
fn objective_brief_maps_limit_scan_and_after_onto_query_and_budget() {
    let input = ObjectiveBriefInput::parse(&js(
        r#"{"limit":10,"scan_limit":20,"after_event_id":"event-cursor","max_tokens":4096}"#,
    ))
    .expect("input");
    let query = input.query(DEFAULT_SCAN_LIMIT as u64);
    assert_eq!(query.limit, 10);
    assert_eq!(query.scan_limit, 20);
    assert_eq!(query.after_event_id.as_deref(), Some("event-cursor"));

    let page = page_with(&[event("event-a", None, "user.message", "{}")], 10);
    let output = build_objective_brief(&input, &page).expect("brief");
    assert_eq!(count(output.get("budget").expect("budget"), "max_tokens"), 4096);
    let window = output.get("objective_window").expect("window");
    assert_eq!(count(window, "applied_limit"), 10);
    assert_eq!(count(window, "limit"), 10);
    assert_eq!(count(window, "scan_limit"), 20);
}

#[test]
fn objective_brief_defaults_and_zero_and_non_integer_are_rejected() {
    assert_eq!(
        ObjectiveBriefInput::parse(&Json::Null).expect("null"),
        ObjectiveBriefInput::default()
    );
    assert!(ObjectiveBriefInput::parse(&js(r#"{"limit":0}"#)).is_err());
    assert!(ObjectiveBriefInput::parse(&js(r#"{"limit":"many"}"#)).is_err());
    assert!(ObjectiveBriefInput::parse(&js(r#"{"scan_limit":0}"#)).is_err());
}

#[test]
fn objective_report_persists_valid_objective_and_publishes_slot() {
    let (spawn, result) = spawn_and_result(&valid_objective_json("event-real"));
    let page = page(&[source_event("event-real"), spawn, result]);

    let plan = build_objective_report(&page, "event-spawn").expect("report");
    let artifact = js(std::str::from_utf8(&plan.bytes).expect("UTF-8"));
    let metadata = Json::Object(plan.metadata.clone());

    assert_eq!(plan.recommended_objective_id, Json::of_text("obj-1"));
    assert_eq!(plan.result_event_id, "event-result");
    assert_eq!(text(&artifact, "schema"), OBJECTIVE_SCHEMA);
    assert_eq!(text(&metadata, "schema"), OBJECTIVE_SCHEMA);
    assert_eq!(text(&metadata, "recommended_objective_id"), "obj-1");
    assert_eq!(count(&metadata, "objective_count"), 1);
    assert!(plan.slot_text.contains("OBJECTIVE: Tighten objective validation"));
    assert!(plan.slot_text.contains("DEAD_ENDS_TO_AVOID: 1"));
}

#[test]
fn objective_report_rejects_malformed_companion_json_and_wrong_schema() {
    let (spawn, result) = spawn_and_result("not json");
    let malformed = refused(build_objective_report(&page(&[spawn, result]), "event-spawn"));
    assert!(malformed.contains("not valid JSON"));

    let (spawn, result) = spawn_and_result(
        r#"{"schema":"wrong.schema","objectives":[],"dead_ends_to_avoid":[],"recommended_objective_id":"obj-1","confidence":{"level":"low","score":0.1}}"#,
    );
    let wrong_schema = refused(build_objective_report(&page(&[spawn, result]), "event-spawn"));
    assert!(wrong_schema.contains("schema must be"));
}

#[test]
fn objective_report_rejects_invented_evidence_ref_event_id() {
    let (spawn, result) = spawn_and_result(&valid_objective_json("invented-event-id"));
    let message = refused(build_objective_report(&page(&[spawn, result]), "event-spawn"));
    assert!(message.contains("objective `obj-1`"));
    assert!(message.contains("invented-event-id"));
    assert!(message.contains("widen the window with limit/scan_limit/after_event_id"));
}

#[test]
fn objective_report_rejects_evidence_ref_outside_report_window() {
    let (spawn, result) = spawn_and_result(&objective_json_with_dead_end_ref("event-outside"));
    let message = refused(build_objective_report(&page(&[spawn, result]), "event-spawn"));
    assert!(message.contains("dead_end `dead_end[0]`"));
    assert!(message.contains("event-outside"));
    assert!(message.contains("bounded provenance window only"));
}

#[test]
fn objective_report_rejects_unpaired_spawn_and_unknown_input() {
    let (spawn, _) = spawn_and_result("{}");
    let unpaired = refused(build_objective_report(&page(&[spawn]), "event-spawn"));
    assert!(unpaired.contains("widen the window"));

    let unknown = refused(ObjectiveReportInput::parse(&js(
        r#"{"spawn_event_id":"event-spawn","path":"nope"}"#,
    )));
    assert!(unknown.contains("unknown input field `path`"));
}

#[test]
fn objective_report_rejects_spawn_with_wrong_persona() {
    let spawn = event(
        "event-spawn",
        None,
        "agent.spawn",
        r#"{"persona":"some-other-persona"}"#,
    );
    let result = event(
        "event-result",
        Some("event-spawn"),
        "agent.result",
        r#"{"spawn_event_id":"event-spawn","ok":true,"output":"{}"}"#,
    );
    let message = refused(build_objective_report(&page(&[spawn, result]), "event-spawn"));
    assert!(message.contains("is not an autoresearch objective brief"));
}

#[test]
fn objective_report_input_maps_onto_query() {
    let input = ObjectiveReportInput::parse(&js(
        r#"{"spawn_event_id":"event-spawn","limit":32,"scan_limit":64,"after_event_id":"cursor"}"#,
    ))
    .expect("input");
    let query = input.query(DEFAULT_SCAN_LIMIT as u64);
    assert_eq!(input.spawn_event_id, "event-spawn");
    assert_eq!(query.limit, 32);
    assert_eq!(query.scan_limit, 64);
    assert_eq!(query.after_event_id.as_deref(), Some("cursor"));
}

#[test]
fn objective_brief_drops_oldest_events_to_fit_the_agent_task_bound() {
    let mut events = Vec::new();
    for index in 0..400 {
        events.push(event(
            &format!("event-{index:04}"),
            None,
            "user.message",
            &format!(r#"{{"content":"{}"}}"#, "long analysis narrative ".repeat(8)),
        ));
    }
    let output = build_objective_brief(&ObjectiveBriefInput::default(), &page(&events)).expect("brief");
    let task = text(&output, "task");
    assert!(
        task.len() <= MAX_TASK_BYTES,
        "task fits the AgentTask bound: {} bytes",
        task.len()
    );
    let listed = count(&output, "listed_event_count");
    let omitted = count(&output, "omitted_event_count");
    assert!(omitted > 0, "oversized window reports omissions");
    assert!(listed > 0);
    assert!(task.contains("event-0399"), "newest events survive");
    assert!(!task.contains("event-0000"), "oldest events are dropped");
}

#[test]
fn objective_events_that_fit_are_all_listed() {
    let events = [source_event("e-1"), source_event("e-2")];
    let output = build_objective_brief(&ObjectiveBriefInput::default(), &page(&events)).expect("brief");
    assert_eq!(
        text(&output, "task"),
        "Choose the next repo-directed research objective from these Euler events.\nCite only listed event ids in evidence_refs.\ne-1 user.message source evidence\ne-2 user.message source evidence"
    );
    assert_eq!(count(&output, "listed_event_count"), 2);
    assert_eq!(count(&output, "omitted_event_count"), 0);
}

#[test]
fn objective_lines_are_told_by_the_kind_of_event() {
    let events = [
        event("e-1", None, "tool.call", r#"{"name":"grep","input":{"q":1}}"#),
        event(
            "e-2",
            None,
            "tool.result",
            r#"{"name":"grep","ok":false,"error":"none","output":"x"}"#,
        ),
        event("e-3", None, "custom", r#"{"b":1,"a":2}"#),
    ];
    let output = build_objective_brief(&ObjectiveBriefInput::default(), &page(&events)).expect("brief");
    let task = text(&output, "task");
    assert!(task.contains("e-1 tool.call name=grep input={\"q\":1}"), "{task}");
    assert!(task.contains("e-2 tool.result name=grep ok=false error=none output=x"), "{task}");
    assert!(task.contains("e-3 custom {\"a\":2,\"b\":1}"), "{task}");
}

#[test]
fn confidence_scores_lie_between_zero_and_one() {
    for (score, accepted) in [
        ("0", true),
        ("1", true),
        ("0.0", true),
        ("1.0", true),
        ("-0.0", true),
        ("0.25", true),
        ("1e-7", true),
        ("0.00001", true),
        ("1e0", true),
        ("1.00", true),
        ("0.9999999999999999", true),
        ("1.0000000000000002", false),
        ("10.0", false),
        ("100.0", false),
        ("1000000.0", false),
        ("1000000000000000.0", false),
        ("1e1", false),
        ("2.0", false),
        ("2", false),
        ("1.01", false),
        ("-1", false),
        ("-0.5", false),
        ("1e20", false),
        ("12.5", false),
        ("1e300", false),
    ] {
        let outcome = validate_objective(&js(&objective(
            "e",
            "",
            "e",
            &format!(r#"{{"level":"low","score":{score}}}"#),
        )));
        assert_eq!(outcome.is_ok(), accepted, "{score}");
        if let Err(error) = outcome {
            assert_eq!(error.message(), "confidence.score must be between 0.0 and 1.0");
        }
    }
}

#[test]
fn objective_outputs_are_refused_for_each_fault() {
    let good = valid_objective_json("e");
    let cases = [
        ("[]".to_owned(), "objective output must be a JSON object"),
        (good.replace("\"schema\"", "\"scheme\""), "missing or invalid `schema`"),
        (good.replace("\"id\":\"obj-1\"", "\"id\":\"\""), "objective id must not be empty"),
        (good.replace("\"title\":\"Tighten objective validation\"", "\"title\":\"\""), "title must not be empty"),
        (good.replace("[\"cargo test\"]", "[]"), "acceptance_checks must not be empty"),
        (good.replace("[\"cargo test\"]", "[\"\"]"), "acceptance_checks must be a non-empty string array"),
        (good.replace("\"/payload/content\"", "\"payload\""), "payload_pointer must be empty or a JSON Pointer"),
        (good.replace("\"recommended_objective_id\":\"obj-1\"", "\"recommended_objective_id\":\"obj-2\""), "recommended_objective_id must match an objective id"),
        (good.replace("\"medium\"", "\"certain\""), "confidence.level must be high, medium, or low"),
        (good.replace("0.7", "\"high\""), "confidence.score must be a number"),
        (good.replace("{\"level\":\"medium\",\"score\":0.7}", "null"), "missing or invalid `confidence`"),
    ];
    for (output, expected) in cases {
        assert_eq!(refused(validate_objective(&js(&output))), expected);
    }
}

#[test]
fn repeated_objectives_and_results_are_refused() {
    let one = r#"{"id":"o","title":"t","rationale":"r","evidence_refs":[{"event_id":"e","payload_pointer":""}],"expected_outcome":"x","acceptance_checks":["c"]}"#;
    let twice = format!(
        r#"{{"schema":"{OBJECTIVE_SCHEMA}","objectives":[{one},{one}],"dead_ends_to_avoid":[],"recommended_objective_id":"o","confidence":{{"level":"low","score":0}}}}"#
    );
    assert_eq!(refused(validate_objective(&js(&twice))), "duplicate objective id `o`");

    let (spawn, result) = spawn_and_result("{}");
    let message = refused(build_objective_report(
        &page(&[spawn, result.clone(), result]),
        "event-spawn",
    ));
    assert_eq!(message, "multiple agent.result events found for spawn_event_id event-spawn");
}

#[test]
fn results_must_belong_to_their_spawn_and_succeed() {
    let (spawn, result) = spawn_and_result("{}");
    let elsewhere = result.replace("\"parent\":\"event-spawn\"", "\"parent\":\"other\"");
    assert_eq!(
        refused(build_objective_report(&page(&[spawn.clone(), elsewhere]), "event-spawn")),
        "agent.result event-result parent does not match spawn_event_id"
    );
    let failed = result.replace("\"ok\":true", "\"ok\":false");
    assert_eq!(
        refused(build_objective_report(&page(&[spawn.clone(), failed]), "event-spawn")),
        "agent.result event-result is not successful"
    );
    let vague = result.replace("\"ok\":true", "\"ok\":\"yes\"");
    assert_eq!(
        refused(build_objective_report(&page(&[spawn, vague]), "event-spawn")),
        "agent.result payload `ok` must be a bool"
    );
}

#[test]
fn shown_objectives_are_plain_and_bounded() {
    let checks = r#"["first\ncheck","zweiter Prüfschritt","third","fourth"]"#;
    let output = valid_objective_json("event-real")
        .replace("[\"cargo test\"]", checks)
        .replace("Tighten objective validation", &format!("Über {}", "x".repeat(5000)));
    let (spawn, result) = spawn_and_result(&output);
    let plan = build_objective_report(
        &page(&[source_event("event-real"), spawn, result]),
        "event-spawn",
    )
    .expect("report");
    assert_eq!(plan.slot_text.len(), 4096);
    assert!(plan.slot_text.starts_with("OBJECTIVE: ber xxx"));
    assert!(plan.slot_text.is_ascii());

    let output = valid_objective_json("event-real").replace("[\"cargo test\"]", checks);
    let (spawn, result) = spawn_and_result(&output);
    let plan = build_objective_report(
        &page(&[source_event("event-real"), spawn, result]),
        "event-spawn",
    )
    .expect("report");
    assert_eq!(
        plan.slot_text,
        "OBJECTIVE: Tighten objective validation\nDEAD_ENDS_TO_AVOID: 1\nACCEPTANCE_CHECKS:\n- first check\n- zweiter Prfschritt\n- third"
    );
}

#[test]
fn reports_answer_with_the_artifact_that_was_written() {
    let (spawn, result) = spawn_and_result(&valid_objective_json("event-real"));
    let plan = build_objective_report(
        &page(&[source_event("event-real"), spawn, result]),
        "event-spawn",
    )
    .expect("report");
    let artifact = objective_artifact(&plan);
    assert_eq!(artifact.media_type, OBJECTIVE_MEDIA_TYPE);
    assert_eq!(artifact.source_event_ids, vec!["event-result".to_owned()]);
    assert_eq!(artifact.bytes, plan.bytes);

    let output = report_output(
        &plan,
        &js(r#"{"persisted_event_id":"p","relative_path":"a/b","byte_len":7}"#),
    );
    assert_eq!(
        write_json(&output),
        r#"{"byte_len":7,"persisted_event_id":"p","recommended_objective_id":"obj-1","relative_path":"a/b","result_event_id":"event-result","sha256":null,"slot_published":true}"#
    );
    assert_eq!(output.get("byte_len"), Some(&Json::Number(Numeral::Positive(7))));
}
