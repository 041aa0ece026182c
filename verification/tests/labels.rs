use causal_dag::projection::labels::{structural_backbone_label, top_level_backbone_label};
use std::collections::BTreeMap;

struct EdgeRecord {
    from: String,
    to: String,
    canonical_backbone: bool,
}

fn synthetic_backbone_edge(from: &str, to: &str) -> EdgeRecord {
    EdgeRecord { from: from.to_owned(), to: to.to_owned(), canonical_backbone: true }
}

fn synthetic_annotation_edge(from: &str, to: &str) -> EdgeRecord {
    EdgeRecord { from: from.to_owned(), to: to.to_owned(), canonical_backbone: false }
}

fn expected_backbone_labels(
    roots: &[String],
    edges: &BTreeMap<String, EdgeRecord>,
) -> BTreeMap<String, String> {
    let backbone: Vec<&EdgeRecord> = edges.values().filter(|edge| edge.canonical_backbone).collect();
    let mut names: Vec<String> = roots.to_vec();
    names.extend(backbone.iter().map(|edge| edge.to.clone()));
    let mut ups: Vec<Option<usize>> = vec![None; roots.len()];
    for edge in &backbone {
        ups.push(names.iter().position(|name| *name == edge.from));
    }
    let mut labels = BTreeMap::new();
    for (index, name) in names.iter().enumerate() {
        if let Some(label) = structural_backbone_label(&ups, index, ups.len()) {
            labels.insert(name.clone(), label);
        }
    }
    labels
}

#[test]
fn causal_dag_backbone_label_rollover_is_bijective_base_26() {
    assert_eq!(top_level_backbone_label(0), "A");
    assert_eq!(top_level_backbone_label(25), "Z");
    assert_eq!(top_level_backbone_label(26), "AA");
    assert_eq!(top_level_backbone_label(27), "AB");
    assert_eq!(top_level_backbone_label(51), "AZ");
    assert_eq!(top_level_backbone_label(52), "BA");
}

#[test]
fn causal_dag_backbone_labels_use_edge_id_order() {
    let roots = vec!["root".to_owned()];
    let edges = BTreeMap::from([
        ("edge-001".to_owned(), synthetic_backbone_edge("root", "node-b")),
        ("edge-002".to_owned(), synthetic_backbone_edge("root", "node-a")),
    ]);
    let labels = expected_backbone_labels(&roots, &edges);

    assert_eq!(labels.get("node-b").map(String::as_str), Some("A"));
    assert_eq!(labels.get("node-a").map(String::as_str), Some("B"));
}

#[test]
fn causal_dag_backbone_labels_roll_over_in_tree_derivation() {
    let roots = vec!["root".to_owned()];
    let mut edges = BTreeMap::new();
    for index in 0..28 {
        edges.insert(
            format!("edge-{index:03}"),
            synthetic_backbone_edge("root", &format!("child-{index:03}")),
        );
    }
    let labels = expected_backbone_labels(&roots, &edges);

    assert_eq!(labels.get("child-024").map(String::as_str), Some("Y"));
    assert_eq!(labels.get("child-025").map(String::as_str), Some("Z"));
    assert_eq!(labels.get("child-026").map(String::as_str), Some("AA"));
    assert_eq!(labels.get("child-027").map(String::as_str), Some("AB"));
}

#[test]
fn causal_dag_backbone_labels_number_descendant_siblings() {
    let roots = vec!["root".to_owned()];
    let mut edges = BTreeMap::from([(
        "edge-000".to_owned(),
        synthetic_backbone_edge("root", "branch"),
    )]);
    for index in 0..10 {
        edges.insert(
            format!("edge-child-{index:03}"),
            synthetic_backbone_edge("branch", &format!("leaf-{index:03}")),
        );
    }
    let labels = expected_backbone_labels(&roots, &edges);

    assert_eq!(labels.get("branch").map(String::as_str), Some("A"));
    assert_eq!(labels.get("leaf-008").map(String::as_str), Some("A.9"));
    assert_eq!(labels.get("leaf-009").map(String::as_str), Some("A.10"));
}

#[test]
fn causal_dag_backbone_labels_restart_per_root() {
    let roots = vec!["root-a".to_owned(), "root-b".to_owned()];
    let edges = BTreeMap::from([
        ("edge-a-001".to_owned(), synthetic_backbone_edge("root-a", "child-a")),
        ("edge-b-001".to_owned(), synthetic_backbone_edge("root-b", "child-b")),
    ]);
    let labels = expected_backbone_labels(&roots, &edges);

    assert_eq!(labels.get("child-a").map(String::as_str), Some("A"));
    assert_eq!(labels.get("child-b").map(String::as_str), Some("A"));
}

#[test]
fn causal_dag_backbone_labels_ignore_annotation_edges() {
    let roots = vec!["root".to_owned()];
    let edges = BTreeMap::from([
        ("edge-001".to_owned(), synthetic_annotation_edge("root", "annotation-target")),
        ("edge-002".to_owned(), synthetic_backbone_edge("root", "backbone-target")),
    ]);
    let labels = expected_backbone_labels(&roots, &edges);

    assert_eq!(labels.get("annotation-target"), None);
    assert_eq!(labels.get("backbone-target").map(String::as_str), Some("A"));
}

#[test]
fn labels_come_in_order() {
    for index in 0..2000 {
        let (label, next) = (top_level_backbone_label(index), top_level_backbone_label(index + 1));
        assert!((label.len(), &label) < (next.len(), &next), "{label} {next}");
    }
    assert_eq!(top_level_backbone_label(26 + 26 * 26 - 1), "ZZ");
    assert_eq!(top_level_backbone_label(26 + 26 * 26), "AAA");
}
