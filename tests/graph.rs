use native_utils::graph::{
    build_search_index, compute_graph_meta, in_degrees, max_in_degree, search_entry, LinkTarget,
    NodeKey,
};
use native_utils::json::{classify_target, link_target, node_key, precompute_graph_meta, GraphError};
use serde_json::Value;

fn key(id: &str, label: &str) -> NodeKey {
    NodeKey { id: id.to_string(), label: label.to_string() }
}

fn plain(id: &str) -> LinkTarget {
    LinkTarget::PlainId(id.to_string())
}

fn run(input: &str) -> Value {
    let text = precompute_graph_meta(input.to_string()).unwrap();
    serde_json::from_str(&text).unwrap()
}

#[test]
fn in_degrees_count_plain_and_object_targets() {
    let nodes = vec![key("A", ""), key("B", "")];
    let targets = vec![plain("B"), LinkTarget::IdObject("B".to_string()), plain("A"), LinkTarget::Other];
    assert_eq!(in_degrees(&nodes, &targets), vec![1, 2]);
}

#[test]
fn in_degrees_ignore_dangling_targets() {
    let nodes = vec![key("A", "")];
    let targets = vec![plain("C"), plain("C")];
    assert_eq!(in_degrees(&nodes, &targets), vec![0]);
}

#[test]
fn in_degrees_of_duplicate_ids_agree() {
    let nodes = vec![key("A", ""), key("A", "")];
    assert_eq!(in_degrees(&nodes, &vec![plain("A")]), vec![1, 1]);
}

#[test]
fn max_in_degree_of_empty_is_zero() {
    assert_eq!(max_in_degree(&Vec::new()), 0);
}

#[test]
fn max_in_degree_picks_largest() {
    assert_eq!(max_in_degree(&vec![2, 7, 0, 7, 3]), 7);
}

#[test]
fn search_entry_folds_label_and_id() {
    let e = search_entry(&key("Src/Main.TS", "Main File"));
    assert_eq!(e.id, "Src/Main.TS");
    assert_eq!(e.label_lower, "main file");
    assert_eq!(e.path_lower, "src/main.ts");
}

#[test]
fn search_index_follows_node_order() {
    let index = build_search_index(&vec![key("B", "Bee"), key("A", "")]);
    assert_eq!(index.len(), 2);
    assert_eq!(index[0].id, "B");
    assert_eq!(index[0].label_lower, "bee");
    assert_eq!(index[1].id, "A");
    assert_eq!(index[1].label_lower, "");
}

#[test]
fn compute_graph_meta_sums_to_link_count() {
    let nodes = vec![key("A", ""), key("B", ""), key("C", "")];
    let targets = vec![plain("B"), plain("C"), plain("C"), plain("A")];
    let meta = compute_graph_meta(&nodes, &targets);
    assert_eq!(meta.in_degrees, vec![1, 1, 2]);
    assert_eq!(meta.in_degrees.iter().sum::<usize>(), 4);
    assert_eq!(meta.max_in_degree, 2);
    assert_eq!(meta.search_index.len(), 3);
}

#[test]
fn link_target_shapes() {
    let s: Value = serde_json::from_str(r#"{"target":"X"}"#).unwrap();
    assert!(matches!(link_target(&s), LinkTarget::PlainId(ref t) if t == "X"));
    let o: Value = serde_json::from_str(r#"{"target":{"id":"Y"}}"#).unwrap();
    assert!(matches!(link_target(&o), LinkTarget::IdObject(ref t) if t == "Y"));
    let n: Value = serde_json::from_str(r#"{"target":5}"#).unwrap();
    assert!(matches!(link_target(&n), LinkTarget::Other));
    let m: Value = serde_json::from_str(r#"{"target":{"name":"Z"}}"#).unwrap();
    assert!(matches!(link_target(&m), LinkTarget::Other));
    let none: Value = serde_json::from_str(r#"{"source":"A"}"#).unwrap();
    assert!(matches!(link_target(&none), LinkTarget::Other));
}

#[test]
fn node_key_defaults_to_empty() {
    let v: Value = serde_json::from_str(r#"{"id":"A","label":"Alpha"}"#).unwrap();
    let k = node_key(&v);
    assert_eq!((k.id.as_str(), k.label.as_str()), ("A", "Alpha"));
    let w: Value = serde_json::from_str(r#"{"id":3}"#).unwrap();
    let k = node_key(&w);
    assert_eq!((k.id.as_str(), k.label.as_str()), ("", ""));
}

#[test]
fn two_nodes_one_link() {
    let out = run(r#"{"nodes":[{"id":"A"},{"id":"B"}],"links":[{"source":"A","target":"B"}]}"#);
    let nodes = out["graph"]["nodes"].as_array().unwrap();
    assert_eq!(nodes[0]["id"], "A");
    assert_eq!(nodes[0]["inDegree"], 0);
    assert_eq!(nodes[1]["id"], "B");
    assert_eq!(nodes[1]["inDegree"], 1);
    assert_eq!(nodes[1]["gitScore"], 0);
    assert_eq!(out["maxInDegree"], 1);
}

#[test]
fn dangling_object_target_not_reported() {
    let out = run(r#"{"nodes":[{"id":"A"},{"id":"B"}],"links":[{"source":"A","target":{"id":"C"}},{"source":"B","target":{"id":"C"}}]}"#);
    assert_eq!(out["maxInDegree"], 0);
    let nodes = out["graph"]["nodes"].as_array().unwrap();
    assert_eq!(nodes.len(), 2);
    assert!(nodes.iter().all(|n| n["id"] != "C"));
    let index = out["searchIndex"].as_array().unwrap();
    assert_eq!(index.len(), 2);
    assert!(index.iter().all(|e| e["id"] != "C"));
}

#[test]
fn malformed_json_is_invalid_input() {
    let r = precompute_graph_meta("{not json".to_string());
    assert!(matches!(r, Err(GraphError::InvalidInput(_))));
}

#[test]
fn links_and_timestamp_pass_through() {
    let input = r#"{"nodes":[{"id":"A","label":"X","extra":[1,2]}],"links":[{"source":"A","target":"A","weight":2.5},{"target":7}],"timestamp":"2024-01-01"}"#;
    let given: Value = serde_json::from_str(input).unwrap();
    let out = run(input);
    assert_eq!(out["graph"]["links"], given["links"]);
    assert_eq!(out["graph"]["timestamp"], "2024-01-01");
    assert_eq!(out["graph"]["nodes"][0]["extra"], given["nodes"][0]["extra"]);
    assert_eq!(out["graph"]["nodes"][0]["inDegree"], 1);
}

#[test]
fn missing_timestamp_defaults_to_zero() {
    let out = run(r#"{"nodes":[],"links":[]}"#);
    assert_eq!(out["graph"]["timestamp"], 0);
}

#[test]
fn missing_or_odd_arrays_are_empty() {
    let out = run(r#"{"nodes":5}"#);
    assert_eq!(out["graph"]["nodes"].as_array().unwrap().len(), 0);
    assert_eq!(out["graph"]["links"].as_array().unwrap().len(), 0);
    assert_eq!(out["maxInDegree"], 0);
    assert_eq!(out["searchIndex"].as_array().unwrap().len(), 0);
}

#[test]
fn in_degree_sum_equals_resolved_links() {
    let out = run(r#"{"nodes":[{"id":"A"},{"id":"B"},{"id":"C"}],"links":[{"target":"B"},{"target":{"id":"C"}},{"target":"C"},{"target":null}]}"#);
    let total: u64 = out["graph"]["nodes"].as_array().unwrap().iter().map(|n| n["inDegree"].as_u64().unwrap()).sum();
    assert_eq!(total, 3);
    assert_eq!(out["maxInDegree"], 2);
}

#[test]
fn search_index_matches_nodes() {
    let out = run(r#"{"nodes":[{"id":"Docs/Readme.MD","label":"Read ME"},{"id":"b"}],"links":[]}"#);
    let index = out["searchIndex"].as_array().unwrap();
    let nodes = out["graph"]["nodes"].as_array().unwrap();
    assert_eq!(index.len(), nodes.len());
    for (e, n) in index.iter().zip(nodes.iter()) {
        assert_eq!(e["id"], n["id"]);
    }
    assert_eq!(index[0]["labelLower"], "read me");
    assert_eq!(index[0]["pathLower"], "docs/readme.md");
    assert_eq!(index[1]["labelLower"], "");
}

#[test]
fn node_that_is_not_an_object_passes_unchanged() {
    let out = run(r#"{"nodes":["loose"],"links":[{"target":""}]}"#);
    assert_eq!(out["graph"]["nodes"][0], "loose");
    assert_eq!(out["searchIndex"][0]["id"], "");
    assert_eq!(out["maxInDegree"], 1);
}

#[test]
fn classify_target_prefers_text_then_object_id() {
    assert!(matches!(classify_target(Some("A"), false, None), LinkTarget::PlainId(ref t) if t == "A"));
    assert!(matches!(classify_target(None, true, Some("B")), LinkTarget::IdObject(ref t) if t == "B"));
    assert!(matches!(classify_target(None, true, None), LinkTarget::Other));
    assert!(matches!(classify_target(None, false, None), LinkTarget::Other));
}

#[test]
fn empty_object_gives_empty_result() {
    let out = run("{}");
    let expected: Value = serde_json::from_str(
        r#"{"graph":{"nodes":[],"links":[],"timestamp":0},"maxInDegree":0,"searchIndex":[]}"#,
    )
    .unwrap();
    assert_eq!(out, expected);
}

#[test]
fn injected_fields_overwrite_existing_ones() {
    let out = run(r#"{"nodes":[{"id":"A","inDegree":9,"gitScore":5,"k":"v"}],"links":[{"target":{"id":"A"}}]}"#);
    let node = &out["graph"]["nodes"][0];
    assert_eq!(node["inDegree"], 1);
    assert_eq!(node["gitScore"], 0);
    assert_eq!(node["k"], "v");
}
