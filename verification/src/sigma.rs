//! The document that a graph is rendered to: what it holds, stated over the
//! numbers of the graph's vertices.
//!
//! The document is an object of two members. `nodes` lists one node for
//! every number from zero up to the highest end of any edge, so that every
//! identifier which an edge mentions names a node. `edges` lists the graph's
//! edges in their order.

use crate::hypergraph::{lemma_short_relation_adds_no_edge, unrolled};
use crate::numeral::{hex, hex_value, lemma_numeral_round_trip, lemma_numeral_shape, HEX_RADIX};
use crate::value::{Json, Members};
use vstd::prelude::*;

verus! {

/// The identifier of the node for vertex `v`: the letter `n`, then `v` in
/// hexadecimal.
pub open spec fn node_id(v: nat) -> Seq<char> {
    seq!['n'] + hex(v)
}

/// The identifier of the edge from `src` to `dst`: the letter `e`, the two
/// vertices in hexadecimal, and two dots between them.
pub open spec fn edge_id(src: nat, dst: nat) -> Seq<char> {
    seq!['e'] + hex(src) + seq!['.', '.'] + hex(dst)
}

/// The vertex that a node identifier names.
pub open spec fn node_id_value(id: Seq<char>) -> nat {
    hex_value(id.skip(1))
}

/// The node for vertex `v`: its identifier, its label where it has one, and
/// the size that every node has.
pub open spec fn node_entry(v: nat, label: Option<Seq<char>>) -> Json {
    let named = Members::empty().insert("id"@, Json::Text(node_id(v)));
    let labelled = match label {
        Some(text) => named.insert("label"@, Json::Text(text)),
        None => named,
    };
    Json::Object(labelled.insert("size"@, Json::Text("1"@)))
}

/// The edge from `src` to `dst`: its identifier and the identifiers of the
/// nodes at its ends.
pub open spec fn edge_entry(src: nat, dst: nat) -> Json {
    Json::Object(
        Members::empty().insert("id"@, Json::Text(edge_id(src, dst))).insert(
            "source"@,
            Json::Text(node_id(src)),
        ).insert("target"@, Json::Text(node_id(dst))),
    )
}

/// The highest number at either end of any edge; zero where there is no
/// edge.
pub open spec fn highest_endpoint(edges: Seq<(nat, nat)>) -> nat
    decreases edges.len(),
{
    if edges.len() == 0 {
        0
    } else {
        let before = highest_endpoint(edges.drop_last());
        let (src, dst) = edges.last();
        if before >= src && before >= dst {
            before
        } else if src >= dst {
            src
        } else {
            dst
        }
    }
}

/// The nodes of the document: one for every number from zero to the highest
/// endpoint, in ascending order, none with a label.
pub open spec fn node_entries(edges: Seq<(nat, nat)>) -> Seq<Json> {
    Seq::new(highest_endpoint(edges) + 1, |v: int| node_entry(v as nat, None))
}

/// The edges of the document: one for every edge of the graph, in order.
pub open spec fn edge_entries(edges: Seq<(nat, nat)>) -> Seq<Json> {
    edges.map_values(|e: (nat, nat)| edge_entry(e.0, e.1))
}

/// The document for a graph with these edges.
pub open spec fn sigma_document(edges: Seq<(nat, nat)>) -> Json {
    Json::Object(
        Members::empty().insert("nodes"@, Json::Array(node_entries(edges))).insert(
            "edges"@,
            Json::Array(edge_entries(edges)),
        ),
    )
}

/// The text that an object holds under a key, where it holds one.
pub open spec fn member_text(entry: Json, key: Seq<char>) -> Option<Seq<char>> {
    match entry {
        Json::Object(members) => if members.contains_key(key) {
            match members[key] {
                Json::Text(text) => Some(text),
                _ => None,
            }
        } else {
            None
        },
        _ => None,
    }
}

/// The array that an object holds under a key, where it holds one.
pub open spec fn member_array(entry: Json, key: Seq<char>) -> Option<Seq<Json>> {
    match entry {
        Json::Object(members) => if members.contains_key(key) {
            match members[key] {
                Json::Array(items) => Some(items),
                _ => None,
            }
        } else {
            None
        },
        _ => None,
    }
}

/// The keys of an object; no key for a value that is no object.
pub open spec fn member_keys(entry: Json) -> Set<Seq<char>> {
    match entry {
        Json::Object(members) => members.dom(),
        _ => Set::empty(),
    }
}

/// The keys that the document and its entries use are different texts.
proof fn lemma_keys_differ()
    ensures
        "id"@ != "label"@,
        "id"@ != "size"@,
        "label"@ != "size"@,
        "id"@ != "source"@,
        "id"@ != "target"@,
        "source"@ != "target"@,
        "nodes"@ != "edges"@,
        "1"@ == seq!['1'],
{
    reveal_strlit("id");
    reveal_strlit("label");
    reveal_strlit("size");
    reveal_strlit("source");
    reveal_strlit("target");
    reveal_strlit("nodes");
    reveal_strlit("edges");
    reveal_strlit("1");
    assert("id"@.len() == 2 && "label"@.len() == 5 && "size"@.len() == 4);
    assert("source"@.len() == 6 && "target"@.len() == 6);
    assert("source"@[0] != "target"@[0]);
    assert("nodes"@[0] != "edges"@[0]);
    assert("1"@ =~= seq!['1']);
}

/// What a node holds: its identifier under `id`, the text `1` under `size`,
/// its label under `label` where it has one, and nothing else.
pub proof fn lemma_node_entry_members(v: nat, label: Option<Seq<char>>)
    ensures
        member_text(node_entry(v, label), "id"@) == Some(node_id(v)),
        member_text(node_entry(v, label), "size"@) == Some(seq!['1']),
        member_text(node_entry(v, label), "label"@) == label,
        label is None ==> member_keys(node_entry(v, label)) == set!["id"@, "size"@],
        label is Some ==> member_keys(node_entry(v, label)) == set!["id"@, "label"@, "size"@],
{
    lemma_keys_differ();
    if label is None {
        assert(member_keys(node_entry(v, label)) =~= set!["id"@, "size"@]);
    } else {
        assert(member_keys(node_entry(v, label)) =~= set!["id"@, "label"@, "size"@]);
    }
}

/// What an edge holds: its identifier under `id`, the identifiers of the
/// nodes at its ends under `source` and `target`, and nothing else.
pub proof fn lemma_edge_entry_members(src: nat, dst: nat)
    ensures
        member_text(edge_entry(src, dst), "id"@) == Some(edge_id(src, dst)),
        member_text(edge_entry(src, dst), "source"@) == Some(node_id(src)),
        member_text(edge_entry(src, dst), "target"@) == Some(node_id(dst)),
        member_keys(edge_entry(src, dst)) == set!["id"@, "source"@, "target"@],
{
    lemma_keys_differ();
    assert(member_keys(edge_entry(src, dst)) =~= set!["id"@, "source"@, "target"@]);
}

/// What the document holds: the nodes under `nodes`, the edges under
/// `edges`, and nothing else.
pub proof fn lemma_document_members(edges: Seq<(nat, nat)>)
    ensures
        member_array(sigma_document(edges), "nodes"@) == Some(node_entries(edges)),
        member_array(sigma_document(edges), "edges"@) == Some(edge_entries(edges)),
        member_keys(sigma_document(edges)) == set!["nodes"@, "edges"@],
        edge_entries(edges).len() == edges.len(),
{
    lemma_keys_differ();
    assert(member_keys(sigma_document(edges)) =~= set!["nodes"@, "edges"@]);
}

/// No end of any edge is above the highest endpoint, and the highest
/// endpoint is zero or an end of some edge.
pub proof fn lemma_highest_endpoint(edges: Seq<(nat, nat)>)
    ensures
        forall|i: int|
            0 <= i < edges.len() ==> (#[trigger] edges[i]).0 <= highest_endpoint(edges)
                && edges[i].1 <= highest_endpoint(edges),
        highest_endpoint(edges) == 0 || exists|i: int|
            0 <= i < edges.len() && ((#[trigger] edges[i]).0 == highest_endpoint(edges)
                || edges[i].1 == highest_endpoint(edges)),
    decreases edges.len(),
{
    if edges.len() > 0 {
        let front = edges.drop_last();
        lemma_highest_endpoint(front);
        let top = highest_endpoint(edges);
        assert forall|i: int| 0 <= i < edges.len() implies (#[trigger] edges[i]).0 <= top
            && edges[i].1 <= top by {
            if i < front.len() {
                assert(edges[i] == front[i]);
            }
        }
        if top != 0 {
            let last = edges.len() - 1;
            if edges[last].0 == top || edges[last].1 == top {
            } else {
                let i = choose|i: int|
                    0 <= i < front.len() && ((#[trigger] front[i]).0 == highest_endpoint(front)
                        || front[i].1 == highest_endpoint(front));
                assert(edges[i] == front[i]);
            }
        }
    }
}

/// The document lists one more node than the highest endpoint: a single
/// node, the one for zero, where the graph has no edge.
pub proof fn lemma_node_count(edges: Seq<(nat, nat)>)
    ensures
        member_array(sigma_document(edges), "nodes"@) == Some(node_entries(edges)),
        node_entries(edges).len() == highest_endpoint(edges) + 1,
        edges.len() == 0 ==> node_entries(edges) == seq![node_entry(0, None)],
{
    lemma_document_members(edges);
    if edges.len() == 0 {
        assert(node_entries(edges) =~= seq![node_entry(0, None)]);
    }
}

/// The identifier of a node names its vertex: reading the hexadecimal text
/// after the first letter gives the vertex back, however large it is.
pub proof fn lemma_node_id_round_trip(v: nat)
    ensures
        node_id(v)[0] == 'n',
        node_id(v).skip(1) == hex(v),
        node_id_value(node_id(v)) == v,
{
    assert(node_id(v).skip(1) =~= hex(v));
    lemma_numeral_round_trip(v, HEX_RADIX as nat);
}

/// Different vertices have different node identifiers.
pub proof fn lemma_node_id_injective(a: nat, b: nat)
    requires
        node_id(a) == node_id(b),
    ensures
        a == b,
{
    lemma_node_id_round_trip(a);
    lemma_node_id_round_trip(b);
}

/// The nodes stand in ascending order without gaps: the node at position
/// `i` carries the identifier of vertex `i`, which names `i`. So each
/// identifier names one more than the one before it.
pub proof fn lemma_nodes_ascending(edges: Seq<(nat, nat)>, i: int)
    requires
        0 <= i < node_entries(edges).len(),
    ensures
        node_entries(edges)[i] == node_entry(i as nat, None),
        member_text(node_entries(edges)[i], "id"@) == Some(node_id(i as nat)),
        node_id_value(node_id(i as nat)) == i,
{
    lemma_node_id_round_trip(i as nat);
    lemma_node_entry_members(i as nat, None);
}

/// The identifier of an edge holds the hexadecimal texts of its two ends,
/// and these never hold a dot: the first dot ends the source.
pub proof fn lemma_edge_id_parts(src: nat, dst: nat)
    ensures
        edge_id(src, dst)[0] == 'e',
        edge_id(src, dst).subrange(1, hex(src).len() as int + 1) == hex(src),
        edge_id(src, dst)[hex(src).len() as int + 1] == '.',
        edge_id(src, dst)[hex(src).len() as int + 2] == '.',
        edge_id(src, dst).skip(hex(src).len() as int + 3) == hex(dst),
        forall|i: int| 0 <= i < hex(src).len() ==> #[trigger] hex(src)[i] != '.',
        forall|i: int| 0 <= i < hex(dst).len() ==> #[trigger] hex(dst)[i] != '.',
{
    let id = edge_id(src, dst);
    assert(id.subrange(1, hex(src).len() as int + 1) =~= hex(src));
    assert(id.skip(hex(src).len() as int + 3) =~= hex(dst));
    lemma_numeral_shape(src, HEX_RADIX as nat);
    lemma_numeral_shape(dst, HEX_RADIX as nat);
}

/// Every end of every edge has its node in the list, at the position of its
/// number.
pub proof fn lemma_edge_ends_are_nodes(edges: Seq<(nat, nat)>, i: int)
    requires
        0 <= i < edges.len(),
    ensures
        edges[i].0 < node_entries(edges).len(),
        edges[i].1 < node_entries(edges).len(),
        node_entries(edges)[edges[i].0 as int] == node_entry(edges[i].0, None),
        node_entries(edges)[edges[i].1 as int] == node_entry(edges[i].1, None),
        edge_entries(edges)[i] == edge_entry(edges[i].0, edges[i].1),
{
    lemma_highest_endpoint(edges);
}

/// A relation of no vertex or of one vertex changes nothing in the
/// document. The nodes follow the edges alone: the vertex of such a relation
/// has a node only where it is at most the highest end of some edge.
pub proof fn lemma_short_relation_keeps_document(relations: Seq<Seq<nat>>, relation: Seq<nat>)
    requires
        relation.len() <= 1,
    ensures
        sigma_document(unrolled(relations.push(relation))) == sigma_document(unrolled(relations)),
        relation.len() == 1 ==> (relation[0] < node_entries(
            unrolled(relations.push(relation)),
        ).len() <==> relation[0] <= highest_endpoint(unrolled(relations))),
{
    lemma_short_relation_adds_no_edge(relations, relation);
}

} // verus!
