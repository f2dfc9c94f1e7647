//! Directed hypergraphs, and the directed graph that unrolling one gives.
//!
//! A hypergraph is a list of relations, each an ordered list of vertex ids.
//! Unrolling replaces every relation by the edges between its consecutive
//! vertices, so that tools which only know edges with two ends can draw it.

use crate::vertex::{copy_vertex, vertex_value, zero_vertex};
use num_bigint::BigUint;
use vstd::prelude::*;

verus! {

/// The numbers of a relation's vertices, in order.
pub open spec fn relation_values(relation: Seq<BigUint>) -> Seq<nat> {
    relation.map_values(|v: BigUint| vertex_value(v))
}

/// The numbers of the two ends of each edge, in order.
pub open spec fn edge_values(edges: Seq<(BigUint, BigUint)>) -> Seq<(nat, nat)> {
    edges.map_values(|e: (BigUint, BigUint)| (vertex_value(e.0), vertex_value(e.1)))
}

/// How many edges a relation of `len` vertices unrolls to.
pub open spec fn pair_count(len: nat) -> nat {
    if len == 0 {
        0
    } else {
        (len - 1) as nat
    }
}

/// The edges of one relation: each vertex paired with the one after it.
pub open spec fn consecutive_pairs(relation: Seq<nat>) -> Seq<(nat, nat)> {
    Seq::new(pair_count(relation.len()), |i: int| (relation[i], relation[i + 1]))
}

/// The edges of a list of relations: those of the first relation, then
/// those of the second, and so on.
pub open spec fn unrolled(relations: Seq<Seq<nat>>) -> Seq<(nat, nat)>
    decreases relations.len(),
{
    if relations.len() == 0 {
        Seq::empty()
    } else {
        unrolled(relations.drop_last()) + consecutive_pairs(relations.last())
    }
}

/// The sum, over the relations, of the number of edges each unrolls to.
pub open spec fn edge_total(relations: Seq<Seq<nat>>) -> nat
    decreases relations.len(),
{
    if relations.len() == 0 {
        0
    } else {
        edge_total(relations.drop_last()) + pair_count(relations.last().len())
    }
}

/// A list of relations describing a hypergraph. Unlike the edge of a graph,
/// a relation can connect any number of vertices.
pub struct DirectedHyperGraph(Vec<Vec<BigUint>>);

/// A directed graph: a list of edges from one vertex to another.
pub struct DirectedGraph(Vec<(BigUint, BigUint)>);

impl View for DirectedHyperGraph {
    type V = Seq<Seq<nat>>;

    /// The relations in insertion order, each as the numbers of its vertices.
    closed spec fn view(&self) -> Seq<Seq<nat>> {
        self.0@.map_values(|relation: Vec<BigUint>| relation_values(relation@))
    }
}

impl View for DirectedGraph {
    type V = Seq<(nat, nat)>;

    /// The edges in order, each as the numbers of its source and target.
    closed spec fn view(&self) -> Seq<(nat, nat)> {
        edge_values(self.0@)
    }
}

impl DirectedHyperGraph {
    /// A hypergraph without relations.
    pub fn new() -> (graph: Self)
        ensures
            graph@ == Seq::<Seq<nat>>::empty(),
    {
        let graph = DirectedHyperGraph(Vec::new());
        assert(graph@ =~= Seq::<Seq<nat>>::empty());
        graph
    }

    /// The simplest ternary hypergraph: the single relation `(0, 0, 0)`.
    pub fn ternary_self_loop() -> (graph: Self)
        ensures
            graph@ == seq![seq![0nat, 0nat, 0nat]],
    {
        let mut relation: Vec<BigUint> = Vec::new();
        relation.push(zero_vertex());
        relation.push(zero_vertex());
        relation.push(zero_vertex());
        assert(relation_values(relation@) =~= seq![0nat, 0nat, 0nat]);
        let mut relations: Vec<Vec<BigUint>> = Vec::new();
        relations.push(relation);
        let graph = DirectedHyperGraph(relations);
        assert(graph@ =~= seq![seq![0nat, 0nat, 0nat]]);
        graph
    }

    /// Appends a relation of any number of vertices. Nothing is asked of it:
    /// it may be empty, and a vertex may occur in it more than once.
    pub fn add_relation(&mut self, rel: Vec<BigUint>)
        ensures
            final(self)@ == old(self)@.push(relation_values(rel@)),
    {
        self.0.push(rel);
        assert(self@ =~= old(self)@.push(relation_values(rel@)));
    }

    /// Turns every relation into the edges between its consecutive vertices.
    /// The edges come relation by relation, in insertion order, and inside a
    /// relation from its first pair to its last.
    pub fn unroll_to_graph(self) -> (graph: DirectedGraph)
        ensures
            graph@ == unrolled(self@),
            graph@.len() == edge_total(self@),
    {
        let mut bin_rels: Vec<(BigUint, BigUint)> = Vec::new();
        let mut r: usize = 0;
        assert(self@.take(0) =~= Seq::<Seq<nat>>::empty());
        while r < self.0.len()
            invariant
                r <= self.0.len(),
                self.0.len() == self@.len(),
                edge_values(bin_rels@) == unrolled(self@.take(r as int)),
            decreases self.0.len() - r,
        {
            let rel = &self.0[r];
            let ghost relation = relation_values(rel@);
            let mut new_rels: Vec<(BigUint, BigUint)> = Vec::new();
            let mut k: usize = 0;
            while k + 1 < rel.len()
                invariant
                    k == 0 || k < rel.len(),
                    relation == relation_values(rel@),
                    new_rels@.len() == k,
                    forall|i: int|
                        0 <= i < k ==> vertex_value((#[trigger] new_rels@[i]).0) == relation[i]
                            && vertex_value(new_rels@[i].1) == relation[i + 1],
                decreases rel.len() - k,
            {
                new_rels.push((copy_vertex(&rel[k]), copy_vertex(&rel[k + 1])));
                k += 1;
            }
            assert(edge_values(new_rels@) =~= consecutive_pairs(relation));
            proof {
                let before = self@.take(r as int);
                let after = self@.take(r + 1);
                assert(after.drop_last() =~= before);
                assert(after.last() == relation);
                assert(edge_values(bin_rels@ + new_rels@) =~= edge_values(bin_rels@) + edge_values(
                    new_rels@,
                ));
            }
            bin_rels.append(&mut new_rels);
            r += 1;
        }
        proof {
            assert(self@.take(r as int) =~= self@);
            lemma_unrolled_len(self@);
        }
        DirectedGraph(bin_rels)
    }
}

impl Default for DirectedHyperGraph {
    /// A hypergraph without relations.
    fn default() -> (graph: Self)
        ensures
            graph@ == Seq::<Seq<nat>>::empty(),
    {
        DirectedHyperGraph::new()
    }
}

impl DirectedGraph {
    /// The number of edges.
    pub fn num_edges(&self) -> (count: usize)
        ensures
            count == self@.len(),
    {
        self.0.len()
    }

    /// The edges, in order.
    pub fn edges(&self) -> (edges: &Vec<(BigUint, BigUint)>)
        ensures
            edge_values(edges@) == self@,
    {
        &self.0
    }
}

/// Unrolling gives as many edges as the relations' lengths add up to: one
/// less than its length for each relation that is not empty.
pub proof fn lemma_unrolled_len(relations: Seq<Seq<nat>>)
    ensures
        unrolled(relations).len() == edge_total(relations),
    decreases relations.len(),
{
    if relations.len() > 0 {
        lemma_unrolled_len(relations.drop_last());
    }
}

/// Unrolling after one more relation was added gives the edges from before,
/// then the pairs of the new relation.
pub proof fn lemma_unrolled_push(relations: Seq<Seq<nat>>, relation: Seq<nat>)
    ensures
        unrolled(relations.push(relation)) == unrolled(relations) + consecutive_pairs(relation),
        edge_total(relations.push(relation)) == edge_total(relations) + pair_count(relation.len()),
{
    assert(relations.push(relation).drop_last() =~= relations);
}

/// Unrolling two lists of relations one after the other gives the edges of
/// the first list, then those of the second: what was added earlier stays
/// in front, whatever is added later.
pub proof fn lemma_unrolled_concat(first: Seq<Seq<nat>>, second: Seq<Seq<nat>>)
    ensures
        unrolled(first + second) == unrolled(first) + unrolled(second),
    decreases second.len(),
{
    if second.len() == 0 {
        assert(first + second =~= first);
        assert(unrolled(first) + unrolled(second) =~= unrolled(first));
    } else {
        lemma_unrolled_concat(first, second.drop_last());
        assert((first + second).drop_last() =~= first + second.drop_last());
        assert((first + second).last() == second.last());
        assert(unrolled(first + second) =~= unrolled(first) + unrolled(second));
    }
}

/// Where each edge comes from: the `i`-th pair of the `k`-th relation stands
/// in the unrolled list right after all edges of the relations before `k`
/// and the `i` pairs before it.
pub proof fn lemma_unrolled_index(relations: Seq<Seq<nat>>, k: int, i: int)
    requires
        0 <= k < relations.len(),
        0 <= i < pair_count(relations[k].len()),
    ensures
        edge_total(relations.take(k)) + i < unrolled(relations).len(),
        unrolled(relations)[edge_total(relations.take(k)) + i] == (
            relations[k][i],
            relations[k][i + 1],
        ),
{
    let before = relations.take(k);
    let rest = relations.skip(k);
    let one = seq![relations[k]];
    let after = relations.skip(k + 1);
    assert(relations =~= before + rest);
    assert(rest =~= one + after);
    lemma_unrolled_concat(before, rest);
    lemma_unrolled_concat(one, after);
    lemma_unrolled_len(before);
    assert(unrolled(one.drop_last()) =~= Seq::<(nat, nat)>::empty());
    assert(unrolled(one) =~= consecutive_pairs(relations[k]));
}

/// A relation of no vertex or of one vertex adds no edge.
pub proof fn lemma_short_relation_adds_no_edge(relations: Seq<Seq<nat>>, relation: Seq<nat>)
    requires
        relation.len() <= 1,
    ensures
        unrolled(relations.push(relation)) == unrolled(relations),
{
    lemma_unrolled_push(relations, relation);
    assert(unrolled(relations.push(relation)) =~= unrolled(relations));
}

} // verus!
