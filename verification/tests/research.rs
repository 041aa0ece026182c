use causal_dag::event::{object, EventEnvelope, EventKind};
use causal_dag::export::graph::ViewerDag;
use causal_dag::export::svg::layout;
use causal_dag::json::{read_json, write_json, Json};
use causal_dag::research_observer::lines::{assessment_summary_lines, relation_summary_lines};
use causal_dag::research_observer::summary::render_record_summary;
use causal_dag::research_observer::task::{fit_lines, fit_task};
use causal_dag::research_projection::artifact::{validate_projection, ResearchProjection};
use causal_dag::research_projection::placement::place_entities;
use causal_dag::research_record::append::{complete_append, prepare_append, AppendInput, Candidate};
use causal_dag::research_record::forms::{valid_event_id, valid_id, valid_text};
use causal_dag::research_record::types::{
    AssessmentVerdict, EntityKind, EntityLifecycle, InvestigationOutcome, ObserverProposalBatch,
    RecordOperation, RelationKind, ResearchAssessment, ResearchEntity, ResearchOutcome,
    ResearchRecord, ResearchRelation,
};
use causal_dag::schema::RESEARCH_PROPOSALS_SCHEMA;
use causal_dag::sdk::ExtensionError;

fn event(id: &str) -> EventEnvelope {
    EventEnvelope {
        v: 1,
        id: id.to_owned(),
        ts: "2026-07-14T00:00:00Z".to_owned(),
        session: "session-knuth".to_owned(),
        agent: "agent".to_owned(),
        parent: None,
        kind: EventKind::new(EventKind::TOOL_RESULT),
        payload: object(vec![]),
        blobs: Vec::new(),
    }
}

fn entity(id: &str, kind: EntityKind, title: &str, summary: &str, source: &str) -> ResearchEntity {
    ResearchEntity {
        id: id.to_owned(),
        kind,
        title: title.to_owned(),
        summary: summary.to_owned(),
        lifecycle: match kind {
            EntityKind::Question => None,
            _ => Some(EntityLifecycle::Active),
        },
        source_event_ids: vec![source.to_owned()],
    }
}

fn relation_of(
    id: &str,
    kind: RelationKind,
    from: &str,
    to: &str,
    summary: &str,
    sources: &[&str],
) -> ResearchRelation {
    ResearchRelation {
        id: id.to_owned(),
        kind,
        from: from.to_owned(),
        to: to.to_owned(),
        summary: summary.to_owned(),
        source_event_ids: sources.iter().map(|source| (*source).to_owned()).collect(),
    }
}

fn relation(id: &str, kind: RelationKind, from: &str, to: &str) -> ResearchRelation {
    relation_of(id, kind, from, to, "Source-grounded relation.", &["event-synthesis"])
}

fn batch(entities: Vec<ResearchEntity>, relations: Vec<ResearchRelation>) -> ObserverProposalBatch {
    ObserverProposalBatch {
        schema: RESEARCH_PROPOSALS_SCHEMA.to_owned(),
        entities,
        outcomes: Vec::new(),
        relations,
        assessments: Vec::new(),
    }
}

fn input(events: Vec<EventEnvelope>, batch: ObserverProposalBatch) -> AppendInput {
    let last = events.last().map(|event| event.id.clone()).unwrap_or_default();
    let stamp = events.last().map(|event| event.ts.clone()).unwrap_or_default();
    AppendInput {
        prior: None,
        predecessor_record_artifact_event_id: None,
        events,
        batch,
        watermark_event_id: last,
        generated_at: stamp,
        session_id: None,
        observer_result_event_id: None,
    }
}

fn append(input: &AppendInput) -> Result<Candidate, ExtensionError> {
    let prepared = prepare_append(input)?;
    complete_append(input, prepared.record)
}

fn refused<T>(outcome: Result<T, ExtensionError>) -> String {
    match outcome {
        Ok(_) => panic!("accepted"),
        Err(error) => error.message(),
    }
}

fn recorded(input: &AppendInput) -> ResearchRecord {
    match append(input) {
        Ok(candidate) => candidate.record,
        Err(error) => panic!("{}", error.message()),
    }
}

fn graph_of(record: &ResearchRecord, event: &str) -> Json {
    match ResearchProjection::from_record(record, event) {
        Ok(projection) => projection.artifact_value(),
        Err(error) => panic!("{}", error.message()),
    }
}

fn list<'a>(graph: &'a Json, name: &str) -> &'a Vec<Json> {
    graph.get("forest").expect("forest").list_at(name).expect("list")
}

fn has_edge(graph: &Json, from: &str, to: &str, member: &str, value: &str, backbone: Option<bool>) -> bool {
    list(graph, "edges").iter().any(|edge| {
        edge.text_at("from").map(String::as_str) == Some(from)
            && edge.text_at("to").map(String::as_str) == Some(to)
            && edge.text_at(member).map(String::as_str) == Some(value)
            && (backbone.is_none() || edge.flag_at("canonical_backbone") == backbone)
    })
}

fn knuth_events() -> Vec<EventEnvelope> {
    vec![event("event-question"), event("event-dead"), event("event-repair")]
}

fn knuth_batch() -> ObserverProposalBatch {
    let mut proposals = batch(
        vec![
            entity("q", EntityKind::Question, "Question", "Question", "event-question"),
            entity("a", EntityKind::Investigation, "Failed recurrence", "Failed", "event-dead"),
            entity("r", EntityKind::Investigation, "Repair", "Repair", "event-repair"),
            entity("b", EntityKind::Investigation, "Sibling pivot", "Alternative", "event-repair"),
        ],
        vec![
            relation_of("a-q", RelationKind::Investigates, "a", "q", "A", &["event-dead"]),
            relation_of("r-q", RelationKind::Investigates, "r", "q", "R", &["event-repair"]),
            relation_of("b-q", RelationKind::Investigates, "b", "q", "B", &["event-repair"]),
            relation_of(
                "repair",
                RelationKind::Repairs,
                "r",
                "a",
                "Reuse failure",
                &["event-dead", "event-repair"],
            ),
            relation_of(
                "pivot",
                RelationKind::PivotsFrom,
                "b",
                "a",
                "Different method",
                &["event-dead", "event-repair"],
            ),
        ],
    );
    proposals.outcomes = vec![ResearchOutcome {
        id: "outcome-a-dead".to_owned(),
        investigation_id: "a".to_owned(),
        outcome: InvestigationOutcome::DeadEnd,
        summary: "The recurrence fails on the generated table.".to_owned(),
        supersedes_outcome_id: None,
        source_event_ids: vec!["event-dead".to_owned()],
    }];
    proposals
}

#[test]
fn pivot_stays_an_annotation_and_repair_is_a_child() {
    let record = recorded(&input(knuth_events(), knuth_batch()));
    let graph = graph_of(&record, "event-record");
    assert!(has_edge(&graph, "node-a", "node-r", "kind", "repair", Some(true)));
    assert!(has_edge(&graph, "node-q", "node-b", "kind", "fork", Some(true)));
    assert!(has_edge(&graph, "node-a", "node-b", "kind", "pivot", Some(false)));
}

#[test]
fn synthesis_is_parented_by_its_question_not_an_integrated_input() {
    let proposals = batch(
        vec![
            entity("q", EntityKind::Question, "Question", "Question", "event-synthesis"),
            entity("i-a", EntityKind::Investigation, "First line", "First line", "event-synthesis"),
            entity("i-b", EntityKind::Investigation, "Second line", "Second line", "event-synthesis"),
            entity("s", EntityKind::Synthesis, "Conclusion", "Integrates both lines.", "event-synthesis"),
        ],
        vec![
            relation("i-a-q", RelationKind::Investigates, "i-a", "q"),
            relation("i-b-q", RelationKind::Investigates, "i-b", "q"),
            relation("a-s-i-a", RelationKind::Integrates, "s", "i-a"),
            relation("b-s-i-b", RelationKind::Integrates, "s", "i-b"),
            relation("z-s-q", RelationKind::Addresses, "s", "q"),
        ],
    );
    let record = recorded(&input(vec![event("event-synthesis")], proposals));
    let graph = graph_of(&record, "record");
    assert!(has_edge(&graph, "node-q", "node-s", "class", "structural", None));
    assert!(has_edge(&graph, "node-i-a", "node-s", "class", "annotation", None));
    assert!(has_edge(&graph, "node-i-a", "node-s", "kind", "related", None));
}

#[test]
fn source_backed_artifact_without_a_backbone_parent_is_reported_not_rejected() {
    let proposals = batch(
        vec![
            entity("q", EntityKind::Question, "Question", "Question", "event-artifact"),
            entity("i", EntityKind::Investigation, "Investigation", "A line of work.", "event-artifact"),
            entity(
                "a-unattached",
                EntityKind::Artifact,
                "Imported checkpoint",
                "Useful source-backed material not yet used by an investigation.",
                "event-artifact",
            ),
        ],
        vec![relation_of(
            "i-q",
            RelationKind::Investigates,
            "i",
            "q",
            "The investigation addresses the question.",
            &["event-artifact"],
        )],
    );
    let record = recorded(&input(vec![event("event-artifact")], proposals));
    let graph = graph_of(&record, "record");
    assert!(list(&graph, "nodes")
        .iter()
        .all(|node| node.text_at("id").map(String::as_str) != Some("node-a-unattached")));
    assert_eq!(
        write_json(
            graph.get("diagnostics").and_then(|d| d.get("omitted_entity_ids")).expect("omitted")
        ),
        r#"["a-unattached"]"#
    );
}

#[test]
fn records_grow_and_keep_what_they_held() {
    let first = recorded(&input(knuth_events(), knuth_batch()));
    assert_eq!(first.episodes.len(), 3);
    assert_eq!(first.construction.operation, RecordOperation::Capture);
    let entries: usize = first.ledger.len();
    let mut more = input(
        vec![event("event-later")],
        batch(
            vec![entity("c", EntityKind::Claim, "Claim", "A claim.", "event-later")],
            Vec::new(),
        ),
    );
    more.batch.assessments = vec![ResearchAssessment {
        id: "as-1".to_owned(),
        claim_id: "c".to_owned(),
        scope: "small tables".to_owned(),
        verdict: AssessmentVerdict::Supported,
        standard: "experiment".to_owned(),
        summary: "Holds so far.".to_owned(),
        supersedes_assessment_id: None,
        source_event_ids: vec!["event-later".to_owned()],
    }];
    more.prior = Some(first);
    more.predecessor_record_artifact_event_id = Some("event-record".to_owned());
    let second = match append(&more) {
        Ok(candidate) => candidate,
        Err(error) => panic!("{}", error.message()),
    };
    assert_eq!(second.record.episodes.len(), 4);
    assert_eq!(second.record.ledger.len(), entries + 4);
    assert_eq!(second.record.construction.operation, RecordOperation::Reconcile);
    assert_eq!(
        second.record.construction.predecessor_record_watermark_event_id.as_deref(),
        Some("event-repair")
    );
    assert_eq!(second.accepted.active_assessments_for("c").len(), 1);
    assert_eq!(
        second.accepted.latest_outcome_for("a").map(|outcome| outcome.outcome),
        Some(InvestigationOutcome::DeadEnd)
    );
    let text = second.record.artifact_text();
    assert!(text.ends_with('\n'));
    assert!(read_json(&text).is_ok());
}

#[test]
fn appends_are_refused_for_each_fault() {
    let mut wrong = input(knuth_events(), knuth_batch());
    wrong.batch.schema = "other".to_owned();
    assert!(prepare_append(&wrong).is_err());
    assert_eq!(
        refused(prepare_append(&input(Vec::new(), knuth_batch()))),
        "research-record apply requires source events"
    );
    let mut mixed = knuth_events();
    mixed[1].session = "other".to_owned();
    assert_eq!(
        refused(prepare_append(&input(mixed, knuth_batch()))),
        "research-record apply requires one session"
    );
    let mut elsewhere = input(knuth_events(), knuth_batch());
    elsewhere.session_id = Some("other".to_owned());
    assert_eq!(
        refused(prepare_append(&elsewhere)),
        "session_id does not match the research-record event window"
    );
    let mut early = input(knuth_events(), knuth_batch());
    early.watermark_event_id = "event-dead".to_owned();
    assert_eq!(
        refused(prepare_append(&early)),
        "research-record apply watermark does not end the source window"
    );
    let mut invented = input(knuth_events(), knuth_batch());
    invented.batch.entities[0].source_event_ids = vec!["event-gone".to_owned()];
    assert!(prepare_append(&invented).is_err());
    let mut twice = input(knuth_events(), knuth_batch());
    twice.batch.entities[1].id = "q".to_owned();
    assert!(prepare_append(&twice).is_err());
}

#[test]
fn projections_are_sound_graphs() {
    let record = recorded(&input(knuth_events(), knuth_batch()));
    let graph = graph_of(&record, "event-record");
    assert!(validate_projection(&graph).is_ok());
    assert_eq!(graph.text_at("schema").map(String::as_str), Some("euler.causal_dag.v4"));
    assert_eq!(write_json(graph.get("forest").and_then(|f| f.get("roots")).expect("roots")), r#"["node-q"]"#);
    assert_eq!(list(&graph, "nodes").len(), 4);
    assert_eq!(list(&graph, "edges").len(), 4);
    let circle = r#"{"schema":"euler.causal_dag.v4","forest":{"roots":["r"],"nodes":[{"id":"r"},{"id":"a"},{"id":"b"}],"edges":[{"canonical_backbone":true,"from":"a","to":"b"},{"canonical_backbone":true,"from":"b","to":"a"}]}}"#;
    assert_eq!(
        refused(validate_projection(&read_json(circle).expect("JSON"))),
        "research projection backbone contains a cycle"
    );
    assert_eq!(
        refused(validate_projection(&Json::Null)),
        "research projection has an invalid schema"
    );
    assert_eq!(
        refused(validate_projection(
            &read_json(&circle.replace(r#"["r"]"#, r#"["x"]"#)).expect("JSON")
        )),
        "research projection root or node identity is invalid"
    );
}

#[test]
fn forms_of_ids_and_texts_are_bounded() {
    assert!(valid_id("q-1_a"));
    assert!(!valid_id(""));
    assert!(!valid_id("q 1"));
    assert!(valid_event_id("event-1"));
    assert!(!valid_event_id(""));
    assert!(valid_text("words", 8));
    assert!(!valid_text("too many words", 8));
    assert!(!valid_text("  ", 8));
}

#[test]
fn summaries_quote_and_keep_to_their_budget() {
    let record = recorded(&input(knuth_events(), knuth_batch()));
    let roomy = render_record_summary(&record, 4096);
    assert!(roomy.iter().any(|line| line.contains("repair")), "{roomy:?}");
    let bytes: usize = roomy.iter().map(|line| line.len() + 1).sum();
    assert!(bytes <= 4096);
    let tight = render_record_summary(&record, 200);
    let bytes: usize = tight.iter().map(|line| line.len() + 1).sum();
    assert!(bytes <= 200, "{tight:?}");
    let lines = relation_summary_lines(&vec![(
        "r".to_owned(),
        relation_of("r", RelationKind::Repairs, "b", "c", "s", &["e"]),
    )]);
    assert_eq!(lines, ["RELATION id=r kind=Repairs from=b to=c sources=e"]);
    let lines = assessment_summary_lines(&vec![(
        "as".to_owned(),
        ResearchAssessment {
            id: "as".to_owned(),
            claim_id: "c".to_owned(),
            scope: "all".to_owned(),
            verdict: AssessmentVerdict::Supported,
            standard: "proof".to_owned(),
            summary: "Holds.".to_owned(),
            supersedes_assessment_id: Some("a\"b".to_owned()),
            source_event_ids: vec!["e".to_owned()],
        },
    )]);
    assert_eq!(
        lines,
        ["ASSESSMENT id=as claim=c verdict=Supported scope=all supersedes=Some(\"a\\\"b\") sources=e"]
    );
}

#[test]
fn observer_tasks_fit_and_tell_a_prefix_of_the_events() {
    let few = vec![event("e-1"), event("e-2")];
    let (task, told) = match fit_task(None, &few) {
        Ok(fitted) => fitted,
        Err(error) => panic!("{}", error.message()),
    };
    assert_eq!(told, 2);
    assert!(task.contains("e-1") && task.contains("e-2"));
    let many: Vec<EventEnvelope> = (0..400).map(|k| event(&format!("event-{k:04}"))).collect();
    let (task, told) = match fit_task(None, &many) {
        Ok(fitted) => fitted,
        Err(error) => panic!("{}", error.message()),
    };
    assert!(task.len() <= 8192);
    assert!(told > 0 && told < 400);
    assert!(task.contains("event-0000"));
    assert!(!task.contains("event-0399"));
    assert!(fit_lines(&vec!["p".repeat(9000)], &vec!["x".to_owned()]).is_err());
}

#[test]
fn record_graphs_are_drawn_with_one_spot_for_each_node() {
    let record = recorded(&input(knuth_events(), knuth_batch()));
    let dag = ViewerDag::from_artifact(&graph_of(&record, "event-record")).expect("graph");
    let depths: Vec<(String, usize)> =
        layout(&dag).expect("layout").into_iter().map(|spot| (spot.id, spot.depth)).collect();
    assert_eq!(
        depths,
        [
            ("node-r".to_owned(), 2),
            ("node-a".to_owned(), 1),
            ("node-b".to_owned(), 1),
            ("node-q".to_owned(), 0)
        ]
    );
}

#[test]
fn outcomes_are_found_by_their_anchor() {
    let candidate = match append(&input(knuth_events(), knuth_batch())) {
        Ok(candidate) => candidate,
        Err(error) => panic!("{}", error.message()),
    };
    let ids = |names: &[&str]| -> Vec<String> { names.iter().map(|name| (*name).to_owned()).collect() };
    let accepted = &candidate.accepted;
    assert_eq!(
        accepted
            .latest_outcome_anchored_by("a", &ids(&["event-repair", "event-dead"]))
            .map(|outcome| outcome.id.as_str()),
        Some("outcome-a-dead")
    );
    assert!(accepted.latest_outcome_anchored_by("a", &ids(&["event-repair"])).is_none());
    assert!(accepted.latest_outcome_anchored_by("r", &ids(&["event-dead"])).is_none());
    assert_eq!(accepted.lineage_anchor_for("a").map(String::as_str), Some("event-dead"));
    let mut more = input(vec![event("event-later")], batch(Vec::new(), Vec::new()));
    more.batch.outcomes = vec![ResearchOutcome {
        id: "outcome-a-again".to_owned(),
        investigation_id: "a".to_owned(),
        outcome: InvestigationOutcome::DeadEnd,
        summary: "It fails on the larger table too.".to_owned(),
        supersedes_outcome_id: Some("outcome-a-dead".to_owned()),
        source_event_ids: vec!["event-later".to_owned()],
    }];
    more.prior = Some(candidate.record);
    more.predecessor_record_artifact_event_id = Some("event-record".to_owned());
    let later = match append(&more) {
        Ok(candidate) => candidate,
        Err(error) => panic!("{}", error.message()),
    };
    assert_eq!(
        later
            .accepted
            .latest_outcome_anchored_by("a", &ids(&["event-dead"]))
            .map(|outcome| outcome.id.as_str()),
        Some("outcome-a-dead")
    );
    assert_eq!(
        later.accepted.latest_outcome_for("a").map(|outcome| outcome.id.as_str()),
        Some("outcome-a-again")
    );
}

#[test]
fn questions_are_their_own_roots() {
    let mut asked = knuth_batch();
    asked.entities.push(entity("q-2", EntityKind::Question, "Alone", "Alone", "event-dead"));
    let candidate = match append(&input(knuth_events(), asked)) {
        Ok(candidate) => candidate,
        Err(error) => panic!("{}", error.message()),
    };
    let placed = place_entities(&candidate.accepted);
    for id in ["q", "q-2"] {
        let (_, place) = placed.iter().find(|(name, _)| name == id).expect("placed");
        assert_eq!(place.root_entity_id, id);
        assert!(place.parent.is_none());
    }
}
