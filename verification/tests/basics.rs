use causal_dag::digest::{matches_but_case, valid_bounded_id, valid_sha256};
use causal_dag::event::{object, EventKind};
use causal_dag::json::{read_json, same_tree, write_json, Json, Numeral};
use causal_dag::path::{split, valid_relative_path};
use causal_dag::sdk::{
    valid_event_feed_cursor, Capability, EventFeedCheckpoint, EventFeedCheckpointError,
    ExtensionError, HostAgentResult, Invocation, ProvenanceQuery,
};
use causal_dag::slot_summary::wording::{bounded_text, line_text, reason_text};
use causal_dag::table::{find, join, put_in_order, put_row};
use causal_dag::text::{blank, byte_count, compact, decimal_text, precedes, prefix_text, squeeze, trim};

#[test]
fn capabilities_are_read_back_by_name() {
    let all = Capability::all();
    let names: Vec<&str> = all.iter().map(|capability| capability.as_str()).collect();
    assert_eq!(
        names,
        [
            "fs-read", "fs-write", "provenance-read", "diagnostics-read", "artifact-write",
            "agent-record", "agent-spawn", "shell-exec", "network", "config-write",
            "secret-resolve", "context-slot",
        ]
    );
    for capability in all {
        assert_eq!(Capability::parse(capability.as_str()), Some(capability));
    }
    assert_eq!(Capability::parse("fs"), None);
    assert_eq!(Invocation::parse("agent-only"), Some(Invocation::AgentOnly));
    assert_eq!(Invocation::parse("agent"), None);
    assert!(Invocation::AgentOnly.is_agent_only());
    assert_eq!(Invocation::default(), Invocation::User);
}

#[test]
fn checkpoints_hold_printable_cursors() {
    assert!(valid_event_feed_cursor("01KX"));
    assert!(!valid_event_feed_cursor(""));
    assert!(!valid_event_feed_cursor("a b"));
    assert!(!valid_event_feed_cursor("é"));
    assert!(valid_event_feed_cursor(&"x".repeat(128)));
    assert!(!valid_event_feed_cursor(&"x".repeat(129)));
    let mut checkpoint = EventFeedCheckpoint::new("e".to_owned()).expect("cursor");
    assert!(checkpoint.validate().is_ok());
    checkpoint.schema_version = 2;
    assert_eq!(
        checkpoint.validate(),
        Err(EventFeedCheckpointError::UnsupportedSchemaVersion)
    );
    assert_eq!(
        EventFeedCheckpoint::new(String::new()),
        Err(EventFeedCheckpointError::InvalidCursor)
    );
}

#[test]
fn errors_are_told_in_words() {
    assert_eq!(
        ExtensionError::CapabilityDenied { capability: Capability::Network }.message(),
        "missing required capability network"
    );
    assert_eq!(
        ExtensionError::QueryFailed("x".to_owned()).message(),
        "provenance query failed: x"
    );
    assert_eq!(
        ExtensionError::ArtifactWriteFailed("x".to_owned()).message(),
        "artifact write failed: x"
    );
    assert_eq!(
        ExtensionError::DiagnosticsReadFailed("x".to_owned()).message(),
        "diagnostics read failed: x"
    );
    assert_eq!(ExtensionError::AgentTaskFailed("x".to_owned()).message(), "agent task failed: x");
    assert_eq!(ExtensionError::Message("x".to_owned()).message(), "x");
}

#[test]
fn queries_and_results_have_their_defaults() {
    let query = ProvenanceQuery::new(7);
    assert_eq!((query.limit, query.scan_limit, query.blob_byte_limit), (7, 1024, 1_048_576));
    assert!(HostAgentResult::success("s".to_owned(), None).ok);
    let failed = HostAgentResult::failure("s".to_owned(), "e".to_owned(), None);
    assert_eq!(failed.error.as_deref(), Some("e"));
}

fn float(value: f64) -> Json {
    Json::Number(Numeral::Float(serde_json::Number::from_f64(value).expect("finite")))
}

#[test]
fn numbers_are_written_as_they_are_held() {
    assert_eq!(write_json(&float(12.0 / 13.0)), "0.9230769230769231");
    assert_eq!(write_json(&float(6.0 / 13.0).clone()), "0.46153846153846156");
    assert_eq!(write_json(&float(2.0)), "2.0");
    assert_eq!(write_json(&float(1e300)), "1e+300");
    assert!(same_tree(&float(0.5), &float(0.5)));
    assert!(!same_tree(&float(0.5), &float(0.25)));
    assert!(!same_tree(&float(2.0), &Json::Number(Numeral::Positive(2))));
}

#[test]
fn zeros_of_either_sign_are_the_same() {
    assert_eq!(write_json(&float(-0.0)), "-0.0");
    assert!(same_tree(&float(0.0), &float(-0.0)));
    let pair = |zero: f64| Json::List(vec![Json::Object(vec![("z".to_owned(), float(zero))])]);
    assert!(same_tree(&pair(0.0), &pair(-0.0)));
    assert!(!same_tree(&pair(0.0), &pair(1.0)));
}

#[test]
fn json_is_read_and_written() {
    let json = read_json(r#" {"b":[1,-2,null,true],"a":"é\n"} "#).expect("JSON");
    assert_eq!(write_json(&json), "{\"a\":\"é\\n\",\"b\":[1,-2,null,true]}");
    assert_eq!(json.get("b").and_then(|list| list.as_list()).map(Vec::len), Some(4));
    assert_eq!(read_json("0.50"), Ok(float(0.5)));
    assert_eq!(read_json("-7"), Ok(Json::Number(Numeral::Negative(-7))));
    assert_eq!(
        read_json("18446744073709551615"),
        Ok(Json::Number(Numeral::Positive(u64::MAX)))
    );
    assert!(read_json("{\"a\":1,").is_err());
    assert!(same_tree(&json, &json.clone()));
    assert!(!same_tree(&json, &Json::Null));
    let again = read_json(&write_json(&json)).expect("JSON");
    assert_eq!(again, json);
}

#[test]
fn objects_are_built_in_order() {
    let members = object(vec![("b", Json::Null), ("a", Json::Bool(true)), ("b", Json::Bool(false))]);
    assert_eq!(write_json(&Json::Object(members)), r#"{"a":true,"b":false}"#);
    assert_eq!(EventKind::new("tool.call").as_str(), EventKind::TOOL_CALL);
}

#[test]
fn tables_keep_their_names_in_order() {
    let mut rows: Vec<(String, usize)> = Vec::new();
    put_row(&mut rows, "b", 1);
    put_row(&mut rows, "a", 2);
    put_row(&mut rows, "b", 3);
    assert_eq!(rows, [("a".to_owned(), 2), ("b".to_owned(), 3)]);
    assert_eq!(find(&rows, "b"), Some(&3));
    let names = vec!["z".to_owned(), "a".to_owned(), "z".to_owned()];
    assert_eq!(put_in_order(&names), ["a", "z"]);
    assert_eq!(join(&names, ", "), "z, a, z");
}

#[test]
fn texts_are_cut_and_squeezed() {
    assert_eq!(byte_count("é"), 2);
    assert_eq!(trim(" \u{2003}a b\n"), "a b");
    assert_eq!(squeeze("  a \t b\n"), "a b");
    assert!(blank(" \n"));
    assert!(!blank("x"));
    assert_eq!(prefix_text("éa", 1), "é");
    assert_eq!(decimal_text(0), "0");
    assert_eq!(decimal_text(u64::MAX), "18446744073709551615");
    assert!(precedes("a", "b") && precedes("a", "aa") && !precedes("b", "a") && !precedes("a", "a"));
    assert!(precedes("Z", "a") && precedes("z", "é"));
    assert!(compact(&"word ".repeat(50), 20).chars().count() <= 21);
}

#[test]
fn summaries_are_worded_on_one_line() {
    assert_eq!(line_text("a\nb\u{7}c"), "a bc");
    assert!(bounded_text(&"é".repeat(50), 20).len() <= 20);
    assert_eq!(bounded_text("short", 20), "short");
    assert!(reason_text("First. Second.").starts_with("First"));
}

#[test]
fn hashes_ids_and_paths_have_their_form() {
    assert!(valid_sha256(&"0a".repeat(32)));
    assert!(!valid_sha256(&"0g".repeat(32)));
    assert!(!valid_sha256("00"));
    assert!(matches_but_case("aB", "Ab"));
    assert!(!matches_but_case("a", "b"));
    assert!(valid_bounded_id("e-1"));
    assert!(!valid_bounded_id(""));
    assert!(valid_relative_path("a/b"));
    assert!(!valid_relative_path("../a"));
    assert!(!valid_relative_path("/a"));
    assert_eq!(split("a//b", '/'), ["a", "", "b"]);
}
