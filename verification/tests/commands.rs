use causal_dag::commands::{
    CausalDagCatchUpCommand, CausalDagExportCommand, CausalDagObserveCommand,
    CausalDagObserverApplyCommand, CausalDagRecordObservationCommand, CausalDagRefreshCommand,
    CausalDagResearchEnableCommand, CausalDagUpdateCommand, CausalDagViewCommand,
};
use causal_dag::json::{read_json, write_json, Json};
use causal_dag::research_enable::{enable, enable_output, ensure_legacy_mode, reject_input, route_apply};
use causal_dag::research_state::ResearchState;
use causal_dag::sdk::{ArgValueKind, Capability, ExtensionError, Invocation};

fn js(text: &str) -> Json {
    read_json(text).expect("JSON text")
}

#[test]
fn enable_accepts_only_empty_input() {
    assert!(reject_input(&js("null")).is_ok());
    assert!(reject_input(&js("{}")).is_ok());
    assert!(reject_input(&js(r#"{"unexpected":true}"#)).is_err());
}

#[test]
fn enable_does_not_advertise_an_unused_session_id() {
    let descriptor = CausalDagResearchEnableCommand.descriptor();
    assert!(!descriptor.accepts_session_id);
    assert_eq!(descriptor.invocation, Invocation::User);
}

#[test]
fn enable_refuses_anything_but_an_object() {
    assert_eq!(
        reject_input(&js("[]")).expect_err("list").message(),
        "causal-dag research-enable input must be a JSON object"
    );
}

#[test]
fn enabling_twice_keeps_the_state() {
    let (first, new) = match enable(None, false) {
        Ok(enabled) => enabled,
        Err(error) => panic!("{}", error.message()),
    };
    assert!(new);
    assert_eq!(
        write_json(&enable_output(&first)),
        r#"{"active":false,"enabled":true,"mode":"research_record_v1","next":"run with --observe causal-dag; observer proposals will populate the durable record","schema":"euler.research_record.enable.v1"}"#
    );
    let (_, again) = match enable(Some(first), true) {
        Ok(enabled) => enabled,
        Err(error) => panic!("{}", error.message()),
    };
    assert!(!again);
}

#[test]
fn enabling_beside_an_active_graph_is_refused() {
    let blocked: Result<(ResearchState, bool), ExtensionError> = enable(None, true);
    match blocked {
        Ok(_) => panic!("accepted"),
        Err(error) => assert!(error.message().contains("while a v3 causal DAG is active")),
    }
}

#[test]
fn envelopes_go_to_the_mode_of_the_session() {
    let research = js(r#"{"apply":{"mode":"research_record_v1"}}"#);
    let plain = js(r#"{"apply":{}}"#);
    assert_eq!(route_apply(true, &research), Ok(true));
    assert_eq!(route_apply(false, &plain), Ok(false));
    assert!(route_apply(true, &plain)
        .expect_err("plain envelope")
        .message()
        .contains("must receive its research-record apply envelope"));
    assert!(route_apply(false, &research)
        .expect_err("research envelope")
        .message()
        .contains("requires causal-dag.research-enable"));
}

#[test]
fn legacy_commands_stop_once_the_record_is_enabled() {
    assert!(ensure_legacy_mode(false).is_ok());
    let error = ensure_legacy_mode(true).expect_err("record enabled");
    assert!(matches!(error, ExtensionError::StateDirFailed(_)));
}

#[test]
fn descriptors_name_their_arguments_and_capabilities() {
    let export = CausalDagExportCommand.descriptor();
    assert_eq!(export.name, "export");
    let flags: Vec<&str> = export.args.iter().map(|arg| arg.flag.as_str()).collect();
    assert_eq!(flags, ["limit", "scan-limit", "after-event-id", "kind", "format", "out"]);
    assert!(export.args[3].repeatable);
    assert_eq!(
        export.args[5].value_kind,
        ArgValueKind::BoundedString { max_bytes: 4096 }
    );

    let view = CausalDagViewCommand.descriptor();
    assert!(view.args.is_empty());
    assert_eq!(view.required_capabilities, [Capability::FsRead, Capability::FsWrite]);

    assert_eq!(CausalDagUpdateCommand.descriptor().args.len(), 2);
    let catch_up = CausalDagCatchUpCommand.descriptor();
    assert_eq!(
        catch_up.args[2].value_kind,
        ArgValueKind::PositiveInt { max: Some(128) }
    );

    let observe = CausalDagObserveCommand.descriptor();
    assert_eq!(observe.args[4].flag, "hints");
    assert!(observe.args[4].required);

    let refresh = CausalDagRefreshCommand.descriptor();
    assert!(refresh.required_capabilities.contains(&Capability::AgentSpawn));
    assert_eq!(refresh.args.len(), 7);

    assert!(!CausalDagObserverApplyCommand.descriptor().accepts_session_id);
    let record = CausalDagRecordObservationCommand.descriptor();
    assert_eq!(record.args[3].input_key, "artifact_event_id");
    assert!(record.args[3].required);
}
