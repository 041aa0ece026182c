use causal_dag::aliases::{parse_aliases, resolve_aliases, Aliases};
use causal_dag::json::{read_json, write_json, Json};
use causal_dag::observe::{ObservationCommit, OBSERVER_HINT_MAX_BYTES};
use causal_dag::observer_apply::{
    parse_hints_output, strip_json_fence, with_companion_attribution, CompanionAttribution,
    ObserverApplyInput,
};
use causal_dag::sdk::ExtensionError;

const HEADER_ONLY_HINTS: &str = r#"{"schema":"euler.causal_dag.hints.v2","nodes":[],"edges":[]}"#;

fn js(text: &str) -> Json {
    read_json(text).expect("JSON text")
}

fn quoted(text: &str) -> String {
    write_json(&Json::of_text(text))
}

fn envelope(apply: &str, companion: &str) -> Json {
    js(&format!(r#"{{"apply":{apply},"companion":{companion}}}"#))
}

fn ok_companion(output: &str) -> String {
    format!(
        r#"{{"ok":true,"summary":"companion completed","output":{},"error":null,"child_agent_id":"agent-observer","spawn_event_id":"evt-spawn","result_event_id":"evt-result"}}"#,
        quoted(output)
    )
}

fn refused<T>(outcome: Result<T, ExtensionError>) -> String {
    match outcome {
        Ok(_) => panic!("accepted"),
        Err(error) => error.message(),
    }
}

fn parsed(input: &Json) -> ObserverApplyInput {
    match ObserverApplyInput::parse(input) {
        Ok(parsed) => parsed,
        Err(error) => panic!("{}", error.message()),
    }
}

fn first<'a>(json: &'a Json, list: &str) -> &'a Json {
    &json.list_at(list).expect("list")[0]
}

fn text<'a>(json: &'a Json, name: &str) -> &'a str {
    json.text_at(name).expect("text member")
}

#[test]
fn parses_the_core_sent_envelope_shape() {
    let input = envelope(
        r#"{"limit":64,"scan_limit":256,"after_event_id":"evt-after","watermark_event_id":"evt-watermark","session_id":"session-1"}"#,
        &ok_companion(HEADER_ONLY_HINTS),
    );

    let parsed = parsed(&input);

    assert_eq!(parsed.observe.limit, 64);
    assert_eq!(parsed.observe.scan_limit, Some(256));
    assert_eq!(parsed.observe.after_event_id.as_deref(), Some("evt-after"));
    assert_eq!(parsed.observe.watermark_event_id.as_deref(), Some("evt-watermark"));
    assert_eq!(parsed.observe.session_id.as_deref(), Some("session-1"));
    assert_eq!(text(&parsed.observe.hints, "schema"), "euler.causal_dag.hints.v2");
    assert_eq!(parsed.companion.child_agent_id.as_deref(), Some("agent-observer"));
    assert_eq!(parsed.companion.spawn_event_id.as_deref(), Some("evt-spawn"));
    assert_eq!(parsed.companion.result_event_id.as_deref(), Some("evt-result"));
}

#[test]
fn strips_a_single_markdown_fence_around_the_hints() {
    for fenced in [
        format!("```json\n{HEADER_ONLY_HINTS}\n```"),
        format!("```\n{HEADER_ONLY_HINTS}\n```"),
        format!("  {HEADER_ONLY_HINTS}  "),
    ] {
        let input = envelope("{}", &ok_companion(&fenced));
        assert_eq!(
            text(&parsed(&input).observe.hints, "schema"),
            "euler.causal_dag.hints.v2",
            "input: {fenced:?}"
        );
    }
}

#[test]
fn resolves_brief_source_and_record_aliases_before_observe_validation() {
    let hints = r#"{"schema":"euler.causal_dag.hints.v2","nodes":[{"id":"n0","root_id":"n0","source_refs":[{"event_id":"s0","payload_pointer":"/payload"}]}],"edges":[{"id":"v0","from":"n0","to":"n1"}]}"#;
    let input = envelope(
        r#"{"source_aliases":{"s0":"event-canonical"},"node_aliases":{"n0":"node-root","n1":"node-child"},"edge_aliases":{"v0":"edge-child"}}"#,
        &ok_companion(hints),
    );

    let parsed = parsed(&input);
    let node = first(&parsed.observe.hints, "nodes");
    assert_eq!(text(node, "id"), "node-root");
    assert_eq!(text(node, "root_id"), "node-root");
    assert_eq!(text(first(node, "source_refs"), "event_id"), "event-canonical");
    let edge = first(&parsed.observe.hints, "edges");
    assert_eq!(text(edge, "id"), "edge-child");
    assert_eq!(text(edge, "from"), "node-root");
    assert_eq!(text(edge, "to"), "node-child");
}

#[test]
fn rejects_malformed_envelopes() {
    let ok = ok_companion(HEADER_ONLY_HINTS);
    let wrapped = quoted(&format!(r#"{{"causal_dag":{HEADER_ONLY_HINTS}}}"#));
    let cases: Vec<(Json, &str)> = vec![
        (js("null"), "must be a JSON object"),
        (js(&format!(r#"{{"companion":{ok}}}"#)), "missing `apply`"),
        (js(r#"{"apply":{}}"#), "missing `companion`"),
        (
            js(&format!(r#"{{"apply":{{}},"companion":{ok},"extra":1}}"#)),
            "unknown input field `extra`",
        ),
        (
            envelope("null", &ok),
            "`apply` must be the observer-brief apply object",
        ),
        (
            envelope(r#"{"causal_dag":{"schema":"euler.causal_dag.hints.v2"}}"#, &ok),
            "must not carry `causal_dag`",
        ),
        (envelope("{}", "\"done\""), "`companion` must be a JSON object"),
        (
            envelope("{}", &format!(r#"{{"output":{}}}"#, quoted(HEADER_ONLY_HINTS))),
            "missing `ok`",
        ),
        (
            envelope("{}", r#"{"ok":true,"output":null}"#),
            "produced no text output",
        ),
        (envelope("{}", r#"{"ok":true,"output":"not json"}"#), "is not JSON"),
        (
            envelope("{}", r#"{"ok":true,"output":"[1,2]"}"#),
            "must be a JSON object",
        ),
        (
            envelope("{}", &format!(r#"{{"ok":true,"output":{wrapped}}}"#)),
            "not wrapped in `causal_dag`",
        ),
        (
            envelope("{}", r#"{"ok":true,"output":"{\"schema\":\"euler.causal_dag.v1\"}"}"#),
            "hint schema must be",
        ),
    ];
    for (input, expected) in cases {
        let error = refused(ObserverApplyInput::parse(&input));
        assert!(
            error.contains(expected),
            "expected error containing {expected:?}, got {error:?} for {}",
            write_json(&input)
        );
    }
}

#[test]
fn failed_companion_error_is_named_and_bounded() {
    let long_error = "x".repeat(4096);
    let input = envelope(
        "{}",
        &format!(r#"{{"ok":false,"summary":"companion failed","error":"{long_error}"}}"#),
    );

    let error = refused(ObserverApplyInput::parse(&input));

    assert!(error.contains("companion failed"));
    assert!(error.len() < 512, "bounded echo, got {} bytes", error.len());
}

#[test]
fn rejects_oversized_companion_output() {
    let padding = "n".repeat(OBSERVER_HINT_MAX_BYTES);
    let oversized =
        format!(r#"{{"schema":"euler.causal_dag.hints.v2","nodes":["{padding}"],"edges":[]}}"#);
    let input = envelope("{}", &format!(r#"{{"ok":true,"output":{}}}"#, quoted(&oversized)));

    let error = refused(ObserverApplyInput::parse(&input));

    assert!(error.contains("exceeds"), "got {error:?}");
}

#[test]
fn only_one_fence_is_stripped() {
    assert_eq!(strip_json_fence("```json\n{}\n```"), "{}");
    assert_eq!(strip_json_fence("```\n {} \n```"), "{}");
    assert_eq!(strip_json_fence("{}"), "{}");
    assert_eq!(strip_json_fence("``````\n{}\n``````"), "``````\n{}\n``````");
}

#[test]
fn hints_are_read_from_an_output() {
    let hints = match parse_hints_output(HEADER_ONLY_HINTS) {
        Ok(hints) => hints,
        Err(error) => panic!("{}", error.message()),
    };
    assert_eq!(write_json(&hints), r#"{"edges":[],"nodes":[],"schema":"euler.causal_dag.hints.v2"}"#);
    assert!(refused(parse_hints_output("{")).contains("is not JSON"));
}

#[test]
fn commits_need_the_result_of_the_companion() {
    let commit = match parsed(&envelope("{}", &ok_companion(HEADER_ONLY_HINTS))).commit() {
        Ok(commit) => commit,
        Err(error) => panic!("{}", error.message()),
    };
    assert!(matches!(commit, ObservationCommit::Rolling { .. }));
    let nameless = envelope(
        "{}",
        &format!(r#"{{"ok":true,"output":{}}}"#, quoted(HEADER_ONLY_HINTS)),
    );
    assert_eq!(
        refused(parsed(&nameless).commit()),
        "causal-dag observer-apply companion is missing `result_event_id`"
    );
}

#[test]
fn outputs_name_the_companion() {
    let companion = CompanionAttribution {
        child_agent_id: Some("a".to_owned()),
        spawn_event_id: None,
        result_event_id: Some("r".to_owned()),
    };
    let output = with_companion_attribution(&js(r#"{"updated":true}"#), &companion);
    assert_eq!(output.get("updated"), Some(&Json::Bool(true)));
    assert!(write_json(&output).contains("\"r\""));
}

#[test]
fn nothing_is_renamed_without_aliases() {
    let hints = js(r#"{"edges":[{"from":"a","id":"v","to":"b"}],"nodes":[{"id":"n"}]}"#);
    let none = Aliases { sources: Vec::new(), nodes: Vec::new(), edges: Vec::new() };
    assert_eq!(resolve_aliases(&hints, &none), hints);
}

#[test]
fn aliases_are_a_letter_and_digits() {
    let table = js(r#"{"s0":"event-a","s12":"event-b"}"#);
    assert_eq!(
        parse_aliases(Some(&table), "source_aliases", &vec!['s']),
        Ok(vec![
            ("s0".to_owned(), "event-a".to_owned()),
            ("s12".to_owned(), "event-b".to_owned())
        ])
    );
    assert_eq!(parse_aliases(None, "source_aliases", &vec!['s']), Ok(Vec::new()));
    assert!(parse_aliases(Some(&js(r#"{"x0":"event-a"}"#)), "source_aliases", &vec!['s']).is_err());
    assert!(parse_aliases(Some(&js("[]")), "source_aliases", &vec!['s']).is_err());
}
