use causal_dag::export::escape::script_safe_json;
use causal_dag::export::format::{
    canonical_json_text, validate_out_path, ExportFormat, ExportInput, Rendering,
};
use causal_dag::export::graph::{
    filename_session_id, normalize_status, validate_backbone, way_end, ViewerDag,
};
use causal_dag::export::html::{render_html, ViewerAssets, PALETTE_MARKER};
use causal_dag::export::source::{export_output, suggested_name, view_artifact, GraphSource};
use causal_dag::export::svg::{layout, render_svg, Canvas, Point, Seat};
use causal_dag::export::text::{render_dot, render_markdown, Palette, StatusStyle};
use causal_dag::json::{read_json, write_json, Json};
use causal_dag::sdk::{ArtifactRecord, ExtensionError};
use causal_dag::slot_summary::budget::render_artifact_summary;
use causal_dag::view::{parse_session_id, view_active, view_output};
use std::collections::BTreeMap;

fn js(text: &str) -> Json {
    read_json(text).expect("JSON text")
}

fn refused<T>(outcome: Result<T, ExtensionError>) -> String {
    match outcome {
        Ok(_) => panic!("accepted"),
        Err(error) => error.message(),
    }
}

fn node(id: &str, kind: &str, root: &str, status: &str, event: &str) -> String {
    format!(
        r#"{{"id":"{id}","kind":"{kind}","root_id":"{root}","status":"{status}","title":"Title of {id}","summary":"Summary of {id}.","source_refs":[{{"id":"occurrence","event_id":"{event}"}}],"metadata":{{"occurrence_source_ref_id":"occurrence"}}}}"#
    )
}

fn edge(id: &str, from: &str, to: &str, class: &str, kind: &str, backbone: bool) -> String {
    format!(
        r#"{{"id":"{id}","from":"{from}","to":"{to}","class":"{class}","kind":"{kind}","canonical_backbone":{backbone},"basis":{{"summary":"Basis of {id}."}}}}"#
    )
}

fn knuth_nodes() -> Vec<String> {
    vec![
        node("node-knuth-deadend", "attempt", "node-knuth-root", "dead_end", "01KXBWD3DYZGR226TBZNH3WG78"),
        node("node-knuth-repair", "attempt", "node-knuth-root", "open", "01KXBWD1DYZGR226TBZNH3WG78"),
        node("node-knuth-root", "root", "node-knuth-root", "open", "01KXBXD1ABFCG2A9PT2K0E8ATW"),
        node("node-knuth-secondary-root", "root", "node-knuth-secondary-root", "open", "01KXBWCZTJDB6N4X35BEF8KT5Z"),
        node("node-knuth-sibling", "attempt", "node-knuth-root", "inconclusive", "01KXBWD7KTYX4ESC5NGEBGDWA7"),
        node("node-knuth-verify", "checkpoint", "node-knuth-root", "verified", "01KXBWY3XJR68XH9PA3YGG8MQX"),
    ]
}

fn knuth_edges() -> Vec<String> {
    vec![
        edge("edge-knuth-deadend", "node-knuth-root", "node-knuth-deadend", "structural", "continuation", true),
        edge("edge-knuth-repair", "node-knuth-deadend", "node-knuth-repair", "structural", "repair", true),
        edge("edge-knuth-sibling", "node-knuth-root", "node-knuth-sibling", "structural", "fork", true),
        edge("edge-knuth-verify", "node-knuth-sibling", "node-knuth-verify", "structural", "verification", true),
        edge("edge-knuth-zz-pivot", "node-knuth-deadend", "node-knuth-sibling", "annotation", "pivot", false),
    ]
}

fn artifact_text(nodes: &[String], edges: &[String], roots: &str, active: &str) -> String {
    format!(
        r#"{{"schema":"euler.causal_dag.v3","session":{{"id":"session-knuth"}},"construction":{{"operation":"final"}},"forest":{{"roots":{roots},"active_root":{active},"nodes":[{}],"edges":[{}]}}}}"#,
        nodes.join(","),
        edges.join(",")
    )
}

const ROOTS: &str = r#"["node-knuth-root","node-knuth-secondary-root"]"#;

fn knuth(nodes: &[String], edges: &[String]) -> Json {
    js(&artifact_text(nodes, edges, ROOTS, r#""node-knuth-root""#))
}

fn artifact() -> Json {
    knuth(&knuth_nodes(), &knuth_edges())
}

fn style(day: &str, glyph: &str) -> StatusStyle {
    StatusStyle { day: day.to_owned(), glyph: glyph.to_owned(), label: glyph.to_owned() }
}

fn palette() -> Palette {
    Palette {
        background: "#fdfcf9".to_owned(),
        root: "#E8B931".to_owned(),
        structural_edges: "#888888".to_owned(),
        cross_arcs: "#7f97a8".to_owned(),
        arc_kinds: vec![("pivot".to_owned(), "#aa00aa".to_owned())],
        statuses: vec![
            ("dead_end".to_owned(), style("#990000", "x")),
            ("inconclusive".to_owned(), style("#666666", "~")),
            ("open".to_owned(), style("#0000aa", "o")),
            ("verified".to_owned(), style("#00aa00", "v")),
        ],
    }
}

fn assets() -> ViewerAssets {
    let page = "<html><!--__EULER_RUNTIME__--><script>const TOKENS = /*__EULER_PALETTE__*/; const __DAG = /*__EULER_DAG__*/;</script></html>";
    ViewerAssets {
        runtime: "runtime()".to_owned(),
        react: "react()".to_owned(),
        react_dom: "react_dom()".to_owned(),
        top_down: page.to_owned(),
        indented_spine: page.to_owned(),
        constellation_3d: page.to_owned(),
        constellation_3_5d: page.to_owned(),
        palette_json: " {\"day\":\"#7f97a8\"}\n".to_owned(),
    }
}

#[test]
fn format_aliases_are_bounded_and_explicit() {
    assert_eq!(ExportFormat::parse(Some("md")).unwrap(), ExportFormat::Markdown);
    assert_eq!(ExportFormat::parse(Some("txt")).unwrap(), ExportFormat::Summary);
    assert!(ExportFormat::parse(Some("pdf")).is_err());
}

#[test]
fn out_paths_stay_relative_without_parent_traversal() {
    assert!(validate_out_path("reports/dag.html").is_ok());
    assert!(validate_out_path("../dag.html").is_err());
    assert!(validate_out_path("/tmp/dag.html").is_err());
}

#[test]
fn paths_name_a_file_inside() {
    for path in ["a", "./a", "a/./b", "a//b", "a/b/.", "a/b/", "...", "a/.b"] {
        assert!(validate_out_path(path).is_ok(), "{path}");
    }
    for path in ["", ".", "./", "..", "a/..", "a/../b", "/", "//a"] {
        assert!(validate_out_path(path).is_err(), "{path}");
    }
    assert!(validate_out_path(&"x".repeat(4096)).is_ok());
    assert!(validate_out_path(&"x".repeat(4097)).is_err());
}

#[test]
fn format_names_and_endings_are_read_back() {
    for format in [
        ExportFormat::Html,
        ExportFormat::Json,
        ExportFormat::Svg,
        ExportFormat::Dot,
        ExportFormat::Markdown,
        ExportFormat::Summary,
    ] {
        assert_eq!(ExportFormat::parse(Some(format.as_str())), Ok(format));
        assert_eq!(ExportFormat::parse(Some(format.extension())), Ok(format));
    }
    assert_eq!(ExportFormat::parse(None), Ok(ExportFormat::Json));
    assert_eq!(
        refused(ExportFormat::parse(Some("pdf"))),
        "causal-dag export format must be html, json, svg, dot, markdown, or summary; got `pdf`"
    );
    assert_eq!(
        ExportFormat::Json.media_type("euler.causal_dag.v4"),
        "application/vnd.euler.causal-dag.v4+json"
    );
    assert_eq!(
        ExportFormat::Json.media_type("euler.causal_dag.v3"),
        "application/vnd.euler.causal-dag.v3+json"
    );
}

#[test]
fn export_inputs_are_read() {
    let input = ExportInput::parse(&js(
        r#"{"format":"md","out":"a/b.md","limit":5,"kinds":["tool.call"],"session_id":"s"}"#,
    ))
    .expect("input");
    assert_eq!(input.format, ExportFormat::Markdown);
    assert_eq!(input.out.as_deref(), Some("a/b.md"));
    let query = input.query();
    assert_eq!(query.limit, 5);
    assert_eq!(query.scan_limit, 1024);
    assert_eq!(query.kinds, ["tool.call"]);
    assert_eq!(ExportInput::parse(&Json::Null).expect("null").limit, 64);
    assert_eq!(
        refused(ExportInput::parse(&js(r#"{"limits":5}"#))),
        "unknown input field `limits`"
    );
    assert_eq!(refused(ExportInput::parse(&js(r#"{"out":""}"#))), "out must not be empty");
    assert_eq!(
        refused(ExportInput::parse(&js("3"))),
        "causal-dag export input must be a JSON object"
    );
}

#[test]
fn every_format_renders_from_the_same_v2_artifact() {
    let artifact = artifact();
    let dag = ViewerDag::from_artifact(&artifact).expect("viewer DAG");
    let cases = [
        (ExportFormat::Html, "<!DOCTYPE html>"),
        (ExportFormat::Json, "\"schema\":\"euler.causal_dag.v3\""),
        (ExportFormat::Dot, "digraph causal_dag"),
        (ExportFormat::Markdown, "## Backbone"),
        (ExportFormat::Summary, "GRAPH:"),
    ];
    for (format, marker) in cases {
        match format.render(&artifact, &dag, &palette(), &assets()) {
            Ok(Rendering::Text(text)) => assert!(
                text.contains(marker),
                "{} output should contain {marker}",
                format.as_str()
            ),
            _ => panic!("{} renders as text", format.as_str()),
        }
    }
    assert!(matches!(
        ExportFormat::Svg.render(&artifact, &dag, &palette(), &assets()),
        Ok(Rendering::Drawing)
    ));
}

#[test]
fn viewer_parent_is_exactly_the_canonical_backbone() {
    let dag = ViewerDag::from_artifact(&artifact()).expect("viewer DAG");
    let parent_count = dag.nodes.iter().filter(|node| node.parent.is_some()).count();
    assert_eq!(parent_count, dag.nodes.len() - dag.roots.len());
    for root in &dag.roots {
        assert!(dag.node_by_id(root).is_some_and(|node| node.parent.is_none()));
    }
    assert_eq!(dag.cross_arc_count(), 1);
}

#[test]
fn legacy_viewer_status_aliases_normalize_at_the_boundary() {
    let mut nodes = knuth_nodes();
    nodes[0] = nodes[0].replace("\"status\":\"dead_end\"", "\"status\":\"promising\"");
    nodes[1] = nodes[1].replace("\"status\":\"open\"", "\"status\":\"dead\"");
    let dag = ViewerDag::from_artifact(&knuth(&nodes, &knuth_edges())).expect("viewer DAG");
    assert_eq!(dag.nodes[0].status, "inconclusive");
    assert_eq!(dag.nodes[1].status, "dead_end");
}

#[test]
fn statuses_are_normalized_once() {
    let status_of = |status: &str| {
        let mut nodes = knuth_nodes();
        nodes[1] = nodes[1].replace("\"status\":\"open\"", &format!("\"status\":\"{status}\""));
        ViewerDag::from_artifact(&knuth(&nodes, &knuth_edges())).map(|dag| dag.nodes[1].status.clone())
    };
    for status in [
        "promising", "dead", "open", "blocked", "dead_end", "inconclusive", "success", "verified",
        "superseded", "abandoned",
    ] {
        let once = status_of(status).expect("status");
        assert_eq!(status_of(&once).expect("status"), once);
    }
    assert!(status_of("pending").is_err());
    assert_eq!(normalize_status("promising").ok().as_deref(), Some("inconclusive"));
    assert_eq!(normalize_status("dead").ok().as_deref(), Some("dead_end"));
    assert!(normalize_status("").is_err());
}

#[test]
fn viewer_sequence_uses_explicit_occurrence_and_keeps_parents_before_children() {
    let mut nodes = knuth_nodes();
    nodes[1] = nodes[1].replace(
        "\"source_refs\":[",
        "\"source_refs\":[{\"id\":\"documentation\",\"event_id\":\"01KXBZKZR6DGEM1FPHKFS5JR7K\"},",
    );
    let dag = ViewerDag::from_artifact(&knuth(&nodes, &knuth_edges())).expect("viewer DAG");
    let ids: Vec<&str> = dag.nodes.iter().map(|node| node.id.as_str()).collect();
    assert_eq!(
        ids,
        [
            "node-knuth-deadend",
            "node-knuth-repair",
            "node-knuth-root",
            "node-knuth-secondary-root",
            "node-knuth-sibling",
            "node-knuth-verify"
        ],
        "sequence metadata must not change structural viewer order"
    );
    let sequence: BTreeMap<&str, usize> =
        dag.nodes.iter().map(|node| (node.id.as_str(), node.sequence)).collect();
    assert_eq!(sequence["node-knuth-root"], 0);
    assert_eq!(sequence["node-knuth-secondary-root"], 1);
    assert_eq!(sequence["node-knuth-deadend"], 2);
    assert_eq!(sequence["node-knuth-repair"], 3);
    assert_eq!(sequence["node-knuth-sibling"], 4);
    assert_eq!(sequence["node-knuth-verify"], 5);
}

#[test]
fn renderer_rejects_cycles_and_cross_root_parentage() {
    let nodes = vec![
        js(r#"{"id":"r1","root_id":"r1"}"#),
        js(r#"{"id":"r2","root_id":"r2"}"#),
        js(r#"{"id":"a","root_id":"r1"}"#),
        js(r#"{"id":"b","root_id":"r1"}"#),
    ];
    let roots = vec!["r1".to_owned(), "r2".to_owned()];
    let cycle = vec![("a".to_owned(), "b".to_owned()), ("b".to_owned(), "a".to_owned())];
    assert!(refused(validate_backbone(&nodes, &roots, &cycle)).contains("cycle"));
    assert_eq!(way_end(&cycle, "a"), None);
    assert_eq!(way_end(&cycle, "r1").as_deref(), Some("r1"));

    let crossing = vec![("a".to_owned(), "r2".to_owned())];
    assert!(refused(validate_backbone(&nodes, &roots, &crossing)).contains("crosses roots"));

    let mislabeled = vec![
        js(r#"{"id":"r1","root_id":"r2"}"#),
        js(r#"{"id":"r2","root_id":"r2"}"#),
    ];
    assert!(refused(validate_backbone(&mislabeled, &roots, &Vec::new()))
        .contains("root_id disagrees"));
}

#[test]
fn renderer_rejects_missing_forest_root_nodes() {
    let artifact = js(&artifact_text(
        &knuth_nodes(),
        &knuth_edges(),
        r#"["missing-root"]"#,
        r#""missing-root""#,
    ));
    assert!(refused(ViewerDag::from_artifact(&artifact)).contains("does not name a node"));
}

#[test]
fn renderer_rejects_duplicate_and_annotation_backbone_edges() {
    let mut edges = knuth_edges();
    edges.push(edges[0].clone());
    assert!(refused(ViewerDag::from_artifact(&knuth(&knuth_nodes(), &edges)))
        .contains("duplicate edge ids"));

    let mut edges = knuth_edges();
    edges[4] = edges[4].replace("\"canonical_backbone\":false", "\"canonical_backbone\":true");
    assert!(refused(ViewerDag::from_artifact(&knuth(&knuth_nodes(), &edges)))
        .contains("cannot be a backbone parent"));
}

#[test]
fn graphs_are_refused_for_each_fault() {
    let good = artifact_text(&knuth_nodes(), &knuth_edges(), ROOTS, r#""node-knuth-root""#);
    let cases = [
        (good.replace("euler.causal_dag.v3", "other"), "causal-dag visualization requires `euler.causal_dag.v3` or `euler.causal_dag.v4`"),
        (good.replace("\"forest\"", "\"trees\""), "causal-dag artifact is missing `forest`"),
        (good.replace("\"nodes\"", "\"knots\""), "causal-dag artifact is missing `forest.nodes`"),
        (good.replace("\"edges\"", "\"arcs\""), "causal-dag artifact is missing `forest.edges`"),
        (good.replace("\"session\":", "\"sitting\":"), "causal-dag artifact is missing session.id"),
        (good.replace("\"active_root\":\"node-knuth-root\"", "\"active_root\":\"node-knuth-repair\""), "causal-dag artifact active_root is not one of forest.roots"),
        (good.replace("\"active_root\":\"node-knuth-root\"", "\"active_root\":7"), "causal-dag artifact `forest.active_root` must be a string or null"),
        (good.replace("\"kind\":\"checkpoint\"", "\"kind\":\"stone\""), "causal-dag visualization does not recognize node kind `stone`"),
        (good.replace("\"status\":\"verified\"", "\"status\":\"fine\""), "causal-dag visualization does not recognize node status `fine`"),
        (good.replace("\"kind\":\"fork\"", "\"kind\":\"pivot\""), "causal-dag edge `edge-knuth-sibling` has invalid class/kind `structural/pivot`"),
        (good.replace("\"from\":\"node-knuth-sibling\"", "\"from\":\"node-gone\""), "causal-dag backbone edge `edge-knuth-verify` references a missing node"),
        (good.replace("\"to\":\"node-knuth-verify\"", "\"to\":\"node-knuth-repair\""), "causal-dag node `node-knuth-repair` has multiple backbone parents"),
    ];
    for (text, expected) in cases {
        assert_eq!(refused(ViewerDag::from_artifact(&js(&text))), expected);
    }
}

#[test]
fn suggested_filename_session_ids_are_short_and_portable() {
    assert_eq!(filename_session_id("01KX8VEXAMPLE"), "01KX8VEX");
    assert_eq!(filename_session_id("session-knuth"), "session");
    assert_eq!(filename_session_id("///"), "session");
}

#[test]
fn every_edge_is_counted() {
    let dag = ViewerDag::from_artifact(&artifact()).expect("viewer DAG");
    assert_eq!(dag.node_count(), 6);
    assert_eq!(dag.edge_count(), 5);
    assert_eq!(dag.session_id, "session-knuth");
    assert_eq!(dag.title, "Title of node-knuth-root");
    assert_eq!(dag.operation, "final");
    let artifact = artifact();
    let edges = artifact.get("forest").and_then(|forest| forest.list_at("edges")).expect("edges");
    assert_eq!(edges.len(), dag.edge_count());
    let annotations = edges
        .iter()
        .filter(|edge| edge.text_at("class").map(String::as_str) == Some("annotation"))
        .count();
    assert_eq!(dag.cross_arc_count(), annotations);
}

#[test]
fn script_json_escapes_html_breakouts() {
    assert_eq!(
        script_safe_json("{\"x\":\"</script>&\"}"),
        "{\"x\":\"\\u003c/script\\u003e\\u0026\"}"
    );
}

#[test]
fn html_is_self_contained_and_injects_all_four_views() {
    let mut nodes = knuth_nodes();
    nodes[0] = nodes[0].replace(
        "Title of node-knuth-deadend",
        "</script><script>window.pwned=true</script>",
    );
    let dag = ViewerDag::from_artifact(&knuth(&nodes, &knuth_edges())).expect("viewer DAG");
    let html = render_html(&dag, &assets()).expect("HTML render");

    for id in [
        "view-top-down",
        "view-indented-spine",
        "view-constellation-3d",
        "view-constellation-3-5d",
    ] {
        assert!(html.contains(&format!("<template id=\"{id}\">")));
    }
    assert_eq!(html.matches("const __DAG =").count(), 4);
    assert!(!html.contains("__EULER_DAG__"));
    assert!(!html.contains("__EULER_PALETTE__"));
    assert!(!html.contains("__EULER_RUNTIME__"));
    assert!(!html.contains("</script><script>window.pwned"));
    assert!(html.contains("\\u003c/script\\u003e\\u003cscript\\u003ewindow.pwned"));
    assert!(html.contains("#7f97a8"));
    assert!(html.contains("connect-src 'none'"));
    assert!(html.contains("<script>\nreact()\n</script>\n<script>\nreact_dom()\n</script>\n<script>\nruntime()\n</script>"));
}

#[test]
fn dag_text_matching_the_palette_marker_remains_data() {
    let mut nodes = knuth_nodes();
    nodes[1] = nodes[1].replace("Title of node-knuth-repair", PALETTE_MARKER);
    let dag = ViewerDag::from_artifact(&knuth(&nodes, &knuth_edges())).expect("viewer DAG");

    let html = render_html(&dag, &assets()).expect("HTML render");

    let marker_as_node_title = format!("\"title\":\"{PALETTE_MARKER}\"");
    assert_eq!(html.matches(&marker_as_node_title).count(), 4);
    assert_eq!(html.matches("const TOKENS = {").count(), 4);
}

#[test]
fn templates_without_their_places_are_refused() {
    let dag = ViewerDag::from_artifact(&artifact()).expect("viewer DAG");
    let mut twice = assets();
    twice.indented_spine.push_str("/*__EULER_DAG__*/");
    assert_eq!(
        refused(render_html(&dag, &twice)),
        "causal-dag viewer template has an invalid `/*__EULER_DAG__*/` injection point"
    );
}

#[test]
fn markdown_tells_the_backbone_and_the_frontier() {
    let dag = ViewerDag::from_artifact(&artifact()).expect("viewer DAG");
    let text = render_markdown(&dag);
    assert!(text.starts_with(
        "# Title of node-knuth-root\n\n- Session: `session-knuth`\n- Construction: `final`\n- Nodes: 6\n- Edges: 5\n- Cross-arcs: 1\n\n## Backbone\n\n- **Title of node-knuth-root** _open_ — Summary of node-knuth-root.\n  - **Title of node-knuth-deadend** _dead\\_end_"
    ), "{text}");
    assert!(text.contains("## Dead Ends\n\n- **Title of node-knuth-deadend**"), "{text}");
    assert!(text.contains("- **pivot:** Title of node-knuth-deadend → Title of node-knuth-sibling — Basis of edge-knuth-zz-pivot."), "{text}");
}

#[test]
fn dot_tells_nodes_and_edges() {
    let dag = ViewerDag::from_artifact(&artifact()).expect("viewer DAG");
    let text = render_dot(&dag, &palette()).expect("DOT");
    assert!(text.starts_with("digraph causal_dag {\n  graph [rankdir=TB, bgcolor=\"#fdfcf9\""), "{text}");
    assert!(text.contains("  \"node-knuth-root\" [label=\"○ Title of node-knuth-root\", shape=circle, color=\"#E8B931\", fontcolor=\"#E8B931\", penwidth=2];\n"), "{text}");
    assert!(text.contains("  \"node-knuth-verify\" [label=\"v Title of node-knuth-verify\", shape=box, color=\"#00aa00\", fontcolor=\"#00aa00\", penwidth=1];\n"), "{text}");
    assert!(text.contains("  \"node-knuth-sibling\" -> \"node-knuth-verify\" [color=\"#888888\"];\n"), "{text}");
    assert!(text.contains("[label=\"pivot\", style=dashed, color=\"#7f97a8\", fontcolor=\"#aa00aa\", constraint=false];\n"), "{text}");
}

#[test]
fn drawn_graphs_have_a_summary() {
    let summary = render_artifact_summary(&artifact()).expect("summary").expect("finite");
    assert!(summary.starts_with("GRAPH: Title of node-knuth-root"), "{summary}");
    assert!(summary.len() <= 4096);
}

#[test]
fn views_show_counts_and_summary() {
    let shown = view_output(&artifact(), "event-a", "euler.causal_dag.v3", &None).expect("view");
    assert_eq!(shown.get("node_count").and_then(Json::as_count), Some(6));
    assert_eq!(shown.get("edge_count").and_then(Json::as_count), Some(5));
    assert_eq!(shown.get("cross_arc_count").and_then(Json::as_count), Some(1));
    assert_eq!(shown.text_at("session_id").map(String::as_str), Some("session-knuth"));
    assert!(shown.text_at("summary").expect("summary").starts_with("GRAPH:"));
    assert_eq!(
        refused(view_output(&artifact(), "e", "euler.causal_dag.v4", &Some("other".to_owned()))),
        "session_id does not match the selected research projection"
    );
    assert_eq!(
        refused(view_output(&js("{}"), "e", "euler.causal_dag.v3", &None)),
        "active causal-dag graph has no session id"
    );
    assert_eq!(
        refused(view_active(&None, &None)),
        "no active causal DAG; run causal-dag.refresh before viewing"
    );
}

#[test]
fn view_inputs_name_a_session_at_most() {
    assert_eq!(parse_session_id(&Json::Null), Ok(None));
    assert_eq!(parse_session_id(&js("{}")), Ok(None));
    assert_eq!(parse_session_id(&js(r#"{"session_id":null}"#)), Ok(None));
    assert_eq!(parse_session_id(&js(r#"{"session_id":"s"}"#)), Ok(Some("s".to_owned())));
    assert_eq!(
        refused(parse_session_id(&js(r#"{"session_id":""}"#))),
        "session_id must be a non-empty string"
    );
    assert_eq!(
        refused(parse_session_id(&js(r#"{"session":"s"}"#))),
        "causal-dag view accepts only `session_id`"
    );
    assert_eq!(
        refused(parse_session_id(&js("7"))),
        "causal-dag view input must be a JSON object"
    );
}

#[test]
fn exports_are_kept_and_answered() {
    let record = ArtifactRecord {
        persisted_event_id: "event-p".to_owned(),
        relative_path: "artifacts/p.json".to_owned(),
        sha256: "ab".repeat(32),
        byte_len: 12,
    };
    let source = GraphSource::from_snapshot(artifact(), record.clone());
    let dag = ViewerDag::from_artifact(&source.artifact).expect("viewer DAG");
    assert_eq!(source.kept_record(ExportFormat::Json), Some(record.clone()));
    assert_eq!(source.kept_record(ExportFormat::Html), None);
    let name = suggested_name(&dag, ExportFormat::Markdown);
    assert_eq!(name, "dag-session.md");
    let write = view_artifact(&source, &dag, ExportFormat::Html, &name, vec![1, 2]);
    assert_eq!(write.display_name, "Causal DAG html export");
    assert_eq!(write.media_type, "text/html; charset=utf-8");
    assert_eq!(write.source_event_ids, ["event-p"]);
    assert_eq!(
        write_json(&Json::Object(write.metadata)),
        r#"{"cross_arc_count":1,"edge_count":5,"format":"html","node_count":6,"schema":"euler.causal_dag.export.v1","self_contained":true,"source_artifact_event_id":"event-p","source_schema":"euler.causal_dag.v3","suggested_name":"dag-session.md"}"#
    );
    let output = export_output(&dag, &source, &record, ExportFormat::Json, &name, &None);
    assert_eq!(output.get("active_graph"), Some(&Json::Bool(false)));
    assert_eq!(output.get("out_path"), Some(&Json::Null));
    assert_eq!(output.get("byte_len").and_then(Json::as_count), Some(12));
    assert_eq!(canonical_json_text(&js(r#"{"b":1,"a":[]}"#)), "{\"a\":[],\"b\":1}\n");
}

fn seats(dag: &ViewerDag) -> Vec<(String, usize, f64)> {
    let mut units: Vec<f64> = Vec::new();
    let mut out = Vec::new();
    for spot in layout(dag).expect("layout") {
        let unit = match spot.seat {
            Seat::Leaf { leaves, roots } => leaves as f64 + roots as f64 / 2.0,
            Seat::Between { first, last } => (units[first] + units[last]) / 2.0,
        };
        units.push(unit);
        out.push((spot.id, spot.depth, unit));
    }
    out
}

fn canvas(dag: &ViewerDag) -> Canvas {
    Canvas {
        width: "720".to_owned(),
        height: "360".to_owned(),
        opacity: "0.60".to_owned(),
        points: seats(dag)
            .into_iter()
            .map(|(id, depth, unit)| {
                let point = Point {
                    x: format!("{:.1}", 90.0 + unit * 190.0),
                    y: format!("{:.1}", 112.0 + depth as f64 * 116.0),
                    caption_y: format!("{:.1}", 146.0 + depth as f64 * 116.0),
                };
                (id, point)
            })
            .collect(),
        bends: dag.arcs.iter().map(|_| ("1.0".to_owned(), "2.0".to_owned())).collect(),
    }
}

#[test]
fn every_node_has_its_seat() {
    let dag = ViewerDag::from_artifact(&artifact()).unwrap();
    let expected = [
        ("node-knuth-repair", 2, 0.0),
        ("node-knuth-deadend", 1, 0.0),
        ("node-knuth-verify", 2, 1.0),
        ("node-knuth-sibling", 1, 1.0),
        ("node-knuth-root", 0, 0.5),
        ("node-knuth-secondary-root", 0, 2.5),
    ];
    let found = seats(&dag);
    assert_eq!(found.len(), expected.len());
    for ((id, depth, unit), expected) in found.iter().zip(expected) {
        assert_eq!((id.as_str(), *depth, *unit), expected);
    }
}

#[test]
fn layouts_are_refused_for_each_fault() {
    let dag = |parents: [Option<&str>; 3], roots: &[&str]| {
        let mut dag = ViewerDag::from_artifact(&artifact()).unwrap();
        dag.nodes.truncate(3);
        for ((node, id), parent) in dag.nodes.iter_mut().zip(["a", "b", "c"]).zip(parents) {
            node.id = id.to_owned();
            node.parent = parent.map(str::to_owned);
        }
        dag.roots = roots.iter().map(|root| (*root).to_owned()).collect();
        dag
    };
    assert!(layout(&dag([None, Some("a"), Some("b")], &["a"])).is_ok());
    assert_eq!(
        refused(layout(&dag([Some("c"), Some("a"), Some("b")], &["a"]))),
        "causal-dag backbone contains a cycle"
    );
    assert_eq!(
        refused(layout(&dag([None, Some("a"), Some("b")], &["a", "b"]))),
        "causal-dag node `b` appears in multiple backbone branches"
    );
    assert_eq!(
        refused(layout(&dag([None, None, Some("b")], &["a"]))),
        "causal-dag backbone contains nodes unreachable from forest roots"
    );
    let mut empty = dag([None, None, None], &["a"]);
    empty.nodes.clear();
    assert_eq!(layout(&empty).unwrap().len(), 0);
}

#[test]
fn static_svg_uses_bare_status_marks_and_a_gold_root() {
    let mut nodes = knuth_nodes();
    nodes[2] = node("node-knuth-root", "root", "node-knuth-root", "verified", "01KXBXD1ABFCG2A9PT2K0E8ATW");
    let dag = ViewerDag::from_artifact(&knuth(&nodes, &knuth_edges())).expect("viewer DAG");
    let svg = render_svg(&dag, &palette(), &canvas(&dag)).expect("SVG render");

    assert!(svg.contains("fill=\"#E8B931\">○</text>"));
    assert!(!svg.contains("<circle"));
}

#[test]
fn drawings_show_nodes_lines_and_arcs() {
    let mut dag = ViewerDag::from_artifact(&artifact()).unwrap();
    dag.nodes[0].title = "A <title> of more than twenty-eight".to_owned();
    let svg = render_svg(&dag, &palette(), &canvas(&dag)).unwrap();
    assert!(svg.starts_with("<svg xmlns=\"http://www.w3.org/2000/svg\" width=\"720\" height=\"360\" viewBox=\"0 0 720 360\" role=\"img\" aria-labelledby=\"title desc\">\n<title id=\"title\">Title of node-knuth-root</title><desc id=\"desc\">Euler causal DAG with 6 nodes and 1 annotation cross-arcs.</desc>\n"));
    assert!(svg.contains("causal DAG · 6 nodes · 1 cross-arcs · final</text>\n"));
    assert!(svg.contains("<line x1=\"185.0\" y1=\"112.0\" x2=\"90.0\" y2=\"228.0\" stroke=\"#888888\" stroke-width=\"1.25\"/>\n"));
    assert!(svg.contains("<path d=\"M 90.0 228.0 Q 1.0 2.0 280.0 228.0\" fill=\"none\" stroke=\"#7f97a8\" stroke-opacity=\"0.60\""));
    assert!(svg.contains("<title>pivot: Basis of edge-knuth-zz-pivot.</title></path>\n"));
    assert!(svg.contains("font-size=\"17\" font-weight=\"400\" fill=\"#990000\">x</text><text x=\"90.0\" y=\"262.0\""));
    assert!(svg.contains(">A &lt;title&gt; of more than twen…</text></g>\n"));
    assert!(svg.ends_with("</g>\n</svg>\n"));

    let mut lost = canvas(&dag);
    lost.points.clear();
    let bare = render_svg(&dag, &palette(), &lost).unwrap();
    assert!(!bare.contains("<line") && !bare.contains("<g>") && !bare.contains("stroke-dasharray"));

    let mut pale = palette();
    pale.statuses.clear();
    assert_eq!(
        refused(render_svg(&dag, &pale, &canvas(&dag))),
        "causal-dag palette has no status `dead_end`"
    );
}
