//! Rendering a directed graph as a JSON document of nodes and edges.

use crate::hypergraph::{edge_values, DirectedGraph};
use crate::sigma::{
    edge_entries, edge_entry, edge_id, highest_endpoint, node_entries, node_entry, node_id,
    sigma_document,
};
use crate::value::{
    array_value, json_view, json_views, new_object, object_insert, object_value, text_value,
};
use crate::vertex::{
    copy_vertex, first_vertex, next_vertex, vertex_below, vertex_hex, vertex_value,
};
use num::bigint::BigUint;
use serde_json::Value;
use vstd::prelude::*;
use vstd::string::StringExecFns;

verus! {

/// The text of a label, where there is one.
pub open spec fn label_text(label: Option<&str>) -> Option<Seq<char>> {
    match label {
        Some(text) => Some(text@),
        None => None,
    }
}

/// The identifier of the node for a vertex.
fn node_name(v: &BigUint) -> (name: String)
    ensures
        name@ == node_id(vertex_value(*v)),
{
    let mut name = String::from_str("n");
    proof {
        reveal_strlit("n");
        assert("n"@ =~= seq!['n']);
    }
    let digits = vertex_hex(v);
    name.append(digits.as_str());
    name
}

/// The identifier of the edge between two vertices.
fn edge_name(src: &BigUint, dst: &BigUint) -> (name: String)
    ensures
        name@ == edge_id(vertex_value(*src), vertex_value(*dst)),
{
    let mut name = String::from_str("e");
    proof {
        reveal_strlit("e");
        reveal_strlit("..");
        assert("e"@ =~= seq!['e']);
        assert(".."@ =~= seq!['.', '.']);
    }
    let src_digits = vertex_hex(src);
    let dst_digits = vertex_hex(dst);
    name.append(src_digits.as_str());
    name.append("..");
    name.append(dst_digits.as_str());
    name
}

/// The highest vertex at either end of any edge of the graph; the vertex
/// zero where the graph has no edge.
pub fn highest_vertex(graph: &DirectedGraph) -> (top: BigUint)
    ensures
        vertex_value(top) == highest_endpoint(graph@),
{
    let edges = graph.edges();
    let mut node_top = first_vertex();
    let mut i: usize = 0;
    assert(graph@.take(0) =~= Seq::<(nat, nat)>::empty());
    while i < edges.len()
        invariant
            i <= edges.len(),
            edge_values(edges@) == graph@,
            vertex_value(node_top) == highest_endpoint(graph@.take(i as int)),
        decreases edges.len() - i,
    {
        let lhs = &edges[i].0;
        let rhs = &edges[i].1;
        if vertex_below(&node_top, lhs) {
            node_top = copy_vertex(lhs);
        }
        if vertex_below(&node_top, rhs) {
            node_top = copy_vertex(rhs);
        }
        proof {
            let seen = graph@.take(i + 1);
            assert(seen.drop_last() =~= graph@.take(i as int));
            assert(seen.last() == (vertex_value(*lhs), vertex_value(*rhs)));
        }
        i += 1;
    }
    assert(graph@.take(i as int) =~= graph@);
    node_top
}

/// Makes the node for a vertex, with a label where one is given.
pub fn new_node(id: &BigUint, label: Option<&str>) -> (node: Value)
    ensures
        json_view(node) == node_entry(vertex_value(*id), label_text(label)),
{
    let mut node = new_object();
    object_insert(&mut node, String::from_str("id"), text_value(node_name(id)));
    if let Some(text) = label {
        object_insert(&mut node, String::from_str("label"), text_value(String::from_str(text)));
    }
    object_insert(&mut node, String::from_str("size"), text_value(String::from_str("1")));
    object_value(node)
}

/// Makes the edge from a source to a destination.
pub fn new_edge(src: &BigUint, dst: &BigUint) -> (edge: Value)
    ensures
        json_view(edge) == edge_entry(vertex_value(*src), vertex_value(*dst)),
{
    let mut edge = new_object();
    object_insert(&mut edge, String::from_str("id"), text_value(edge_name(src, dst)));
    object_insert(&mut edge, String::from_str("source"), text_value(node_name(src)));
    object_insert(&mut edge, String::from_str("target"), text_value(node_name(dst)));
    object_value(edge)
}

/// Renders a graph as the document that graph visualizers read: an object
/// whose `nodes` are all vertices from zero to the highest one that an edge
/// touches, and whose `edges` are the graph's edges in order.
pub fn to_sigma_json(graph: DirectedGraph) -> (document: Value)
    ensures
        json_view(document) == sigma_document(graph@),
{
    let mut root = new_object();

    let node_top = highest_vertex(&graph);
    let mut nodes: Vec<Value> = Vec::new();
    let mut i = first_vertex();
    while !vertex_below(&node_top, &i)
        invariant
            vertex_value(node_top) == highest_endpoint(graph@),
            vertex_value(i) <= vertex_value(node_top) + 1,
            nodes@.len() == vertex_value(i),
            forall|v: int|
                0 <= v < nodes@.len() ==> json_view(#[trigger] nodes@[v]) == node_entry(
                    v as nat,
                    None,
                ),
        decreases vertex_value(node_top) + 1 - vertex_value(i),
    {
        nodes.push(new_node(&i, None));
        i = next_vertex(i);
    }
    assert(json_views(nodes@) =~= node_entries(graph@));
    object_insert(&mut root, String::from_str("nodes"), array_value(nodes));

    let sources = graph.edges();
    let mut edges: Vec<Value> = Vec::new();
    let mut k: usize = 0;
    while k < sources.len()
        invariant
            k <= sources.len(),
            edge_values(sources@) == graph@,
            edges@.len() == k,
            forall|j: int|
                0 <= j < k ==> json_view(#[trigger] edges@[j]) == edge_entry(
                    graph@[j].0,
                    graph@[j].1,
                ),
        decreases sources.len() - k,
    {
        edges.push(new_edge(&sources[k].0, &sources[k].1));
        k += 1;
    }
    assert(json_views(edges@) =~= edge_entries(graph@));
    object_insert(&mut root, String::from_str("edges"), array_value(edges));

    object_value(root)
}

} // verus!
