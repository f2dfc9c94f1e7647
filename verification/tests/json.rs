use num_bigint::BigUint;
use serde_json::Value;
use sigma_hypergraph::hypergraph::{DirectedGraph, DirectedHyperGraph};
use sigma_hypergraph::json::{highest_vertex, new_edge, new_node, to_sigma_json};

fn graph_of(relations: &[&[u64]]) -> DirectedGraph {
    let mut hg = DirectedHyperGraph::new();
    for relation in relations {
        hg.add_relation(relation.iter().map(|v| BigUint::from(*v)).collect());
    }
    hg.unroll_to_graph()
}

fn text(entry: &Value, key: &str) -> String {
    entry
        .get(key)
        .and_then(Value::as_str)
        .map(str::to_string)
        .unwrap_or_else(|| panic!("no text under {}", key))
}

fn entries(document: &Value, key: &str) -> Vec<Value> {
    document
        .get(key)
        .and_then(Value::as_array)
        .cloned()
        .unwrap_or_else(|| panic!("no array under {}", key))
}

fn keys(value: &Value) -> Vec<String> {
    let mut keys: Vec<String> = value
        .as_object()
        .map(|object| object.keys().cloned().collect())
        .unwrap_or_default();
    keys.sort();
    keys
}

#[test]
fn smoke_json() {
    let hg = DirectedHyperGraph::ternary_self_loop();
    let unrolled = hg.unroll_to_graph();

    let json = serde_json::to_string_pretty(&to_sigma_json(unrolled)).expect("wtf");
    println!("{}", json);
}

#[test]
fn self_loop_document_is_exact() {
    let document = to_sigma_json(DirectedHyperGraph::ternary_self_loop().unroll_to_graph());
    let compact = serde_json::to_string(&document).expect("a document of strings serializes");
    let expected = String::from("{\"edges\":[")
        + "{\"id\":\"e0..0\",\"source\":\"n0\",\"target\":\"n0\"},"
        + "{\"id\":\"e0..0\",\"source\":\"n0\",\"target\":\"n0\"}],"
        + "\"nodes\":[{\"id\":\"n0\",\"size\":\"1\"}]}";
    let parsed: Value = serde_json::from_str(&expected).expect("the expected text is JSON");
    assert_eq!(document, parsed);
    assert_eq!(serde_json::from_str::<Value>(&compact).ok(), Some(parsed));
}

#[test]
fn document_has_exactly_nodes_and_edges() {
    let document = to_sigma_json(graph_of(&[&[1, 2, 3]]));
    assert_eq!(keys(&document), vec!["edges".to_string(), "nodes".to_string()]);
    assert!(document["nodes"].is_array());
    assert!(document["edges"].is_array());
}

#[test]
fn graph_without_edges_has_the_zero_node_only() {
    let document = to_sigma_json(DirectedHyperGraph::new().unroll_to_graph());
    let nodes = entries(&document, "nodes");
    assert_eq!(nodes.len(), 1);
    assert_eq!(text(&nodes[0], "id"), "n0");
    assert!(entries(&document, "edges").is_empty());
}

#[test]
fn node_count_is_highest_endpoint_plus_one() {
    let document = to_sigma_json(graph_of(&[&[3, 7], &[2, 5, 1]]));
    assert_eq!(entries(&document, "nodes").len(), 8);
    let document = to_sigma_json(graph_of(&[&[40, 2]]));
    assert_eq!(entries(&document, "nodes").len(), 41);
    let document = to_sigma_json(graph_of(&[&[0, 0]]));
    assert_eq!(entries(&document, "nodes").len(), 1);
}

#[test]
fn nodes_are_dense_and_ascending() {
    let document = to_sigma_json(graph_of(&[&[0, 33]]));
    let nodes = entries(&document, "nodes");
    assert_eq!(nodes.len(), 34);
    for (i, node) in nodes.iter().enumerate() {
        assert_eq!(text(node, "id"), format!("n{:x}", i));
        assert_eq!(text(node, "size"), "1");
        assert_eq!(keys(node), vec!["id".to_string(), "size".to_string()]);
    }
    assert_eq!(text(&nodes[10], "id"), "na");
    assert_eq!(text(&nodes[16], "id"), "n10");
    assert_eq!(text(&nodes[33], "id"), "n21");
}

#[test]
fn node_ids_decode_to_their_position() {
    let document = to_sigma_json(graph_of(&[&[300, 1]]));
    let nodes = entries(&document, "nodes");
    assert_eq!(nodes.len(), 301);
    for (i, node) in nodes.iter().enumerate() {
        let id = text(node, "id");
        assert!(id.starts_with('n'));
        assert_eq!(u64::from_str_radix(&id[1..], 16).ok(), Some(i as u64));
    }
}

#[test]
fn node_id_round_trips_beyond_a_machine_word() {
    let big = BigUint::from(1u8) << 100usize;
    let node = new_node(&big, None);
    let id = text(&node, "id");
    assert_eq!(id, "n10000000000000000000000000");
    assert_eq!(BigUint::parse_bytes(id[1..].as_bytes(), 16), Some(big));

    let odd = BigUint::parse_bytes(b"123456789abcdef0123456789abcdef", 16).expect("hex digits");
    let id = text(&new_node(&odd, None), "id");
    assert_eq!(id, "n123456789abcdef0123456789abcdef");
    assert_eq!(BigUint::parse_bytes(id[1..].as_bytes(), 16), Some(odd));
}

#[test]
fn edge_one_two_is_rendered_exactly() {
    let edge = new_edge(&BigUint::from(1u8), &BigUint::from(2u8));
    assert_eq!(text(&edge, "id"), "e1..2");
    assert_eq!(text(&edge, "source"), "n1");
    assert_eq!(text(&edge, "target"), "n2");
    assert_eq!(
        keys(&edge),
        vec!["id".to_string(), "source".to_string(), "target".to_string()]
    );
}

#[test]
fn edge_ids_use_hexadecimal_ends() {
    let edge = new_edge(&BigUint::from(255u8), &BigUint::from(4096u32));
    assert_eq!(text(&edge, "id"), "eff..1000");
    assert_eq!(text(&edge, "source"), "nff");
    assert_eq!(text(&edge, "target"), "n1000");
}

#[test]
fn edges_of_the_document_keep_the_graph_order() {
    let document = to_sigma_json(graph_of(&[&[1, 2, 3], &[0, 2]]));
    let edges = entries(&document, "edges");
    let ids: Vec<String> = edges.iter().map(|edge| text(edge, "id")).collect();
    assert_eq!(ids, vec!["e1..2", "e2..3", "e0..2"]);
    let sources: Vec<String> = edges.iter().map(|edge| text(edge, "source")).collect();
    assert_eq!(sources, vec!["n1", "n2", "n0"]);
    let targets: Vec<String> = edges.iter().map(|edge| text(edge, "target")).collect();
    assert_eq!(targets, vec!["n2", "n3", "n2"]);
}

#[test]
fn every_edge_end_names_a_listed_node() {
    let document = to_sigma_json(graph_of(&[&[9, 4, 17], &[2, 2]]));
    let nodes: Vec<String> = entries(&document, "nodes")
        .iter()
        .map(|node| text(node, "id"))
        .collect();
    for edge in entries(&document, "edges") {
        assert!(nodes.contains(&text(&edge, "source")));
        assert!(nodes.contains(&text(&edge, "target")));
    }
}

#[test]
fn node_without_label_has_no_label_member() {
    let node = new_node(&BigUint::from(3u8), None);
    assert_eq!(keys(&node), vec!["id".to_string(), "size".to_string()]);
    assert_eq!(text(&node, "id"), "n3");
    assert_eq!(text(&node, "size"), "1");
    assert!(node.get("label").is_none());
}

#[test]
fn node_with_label_carries_it() {
    let node = new_node(&BigUint::from(26u8), Some("hub"));
    assert_eq!(
        keys(&node),
        vec!["id".to_string(), "label".to_string(), "size".to_string()]
    );
    assert_eq!(text(&node, "id"), "n1a");
    assert_eq!(text(&node, "label"), "hub");
    assert_eq!(text(&node, "size"), "1");
}

#[test]
fn highest_vertex_is_the_greatest_endpoint() {
    assert_eq!(highest_vertex(&graph_of(&[])), BigUint::from(0u8));
    assert_eq!(highest_vertex(&graph_of(&[&[0, 0, 0]])), BigUint::from(0u8));
    assert_eq!(highest_vertex(&graph_of(&[&[3, 7], &[2, 5, 1]])), BigUint::from(7u8));
    assert_eq!(highest_vertex(&graph_of(&[&[9, 1], &[2, 5]])), BigUint::from(9u8));
    assert_eq!(highest_vertex(&graph_of(&[&[1, 2], &[2, 11]])), BigUint::from(11u8));
}

#[test]
fn highest_vertex_compares_beyond_a_machine_word() {
    let big = BigUint::from(1u8) << 100usize;
    let mut hg = DirectedHyperGraph::new();
    hg.add_relation(vec![BigUint::from(u64::MAX), big.clone(), BigUint::from(5u8)]);
    assert_eq!(highest_vertex(&hg.unroll_to_graph()), big);
}

#[test]
fn vertex_of_a_single_vertex_relation_gets_no_node_of_its_own() {
    let with = to_sigma_json(graph_of(&[&[0, 0, 0], &[5], &[]]));
    let without = to_sigma_json(graph_of(&[&[0, 0, 0]]));
    assert_eq!(with, without);
    assert_eq!(entries(&with, "nodes").len(), 1);
    assert_eq!(entries(&with, "edges").len(), 2);
}

#[test]
fn single_vertex_relation_below_the_highest_endpoint_has_its_node() {
    let document = to_sigma_json(graph_of(&[&[1, 6], &[4]]));
    let nodes: Vec<String> = entries(&document, "nodes")
        .iter()
        .map(|node| text(node, "id"))
        .collect();
    assert_eq!(nodes.len(), 7);
    assert!(nodes.contains(&"n4".to_string()));
}
