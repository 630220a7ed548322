//! From edge arrays to a graph of the engine, and from the engine's node
//! indices back to the caller's identifiers.

use vstd::prelude::*;
use vstd::string::StringExecFns;
use crate::engine::UndirectedStore;
use crate::engine::undirected_edges;
use crate::engine::undirected_nodes;
use crate::error::OnagerError;
use crate::graph::engine_failure;
use crate::index::NodeTable;
use crate::index::edge_pairs_of;
use crate::index::lemma_first_occurrences;
use crate::index::node_ids_of;
use crate::index::position_of;

verus! {

/// The longest edge list that is turned into a graph of the engine: with this
/// many edges neither the edges nor their endpoints outnumber its capacity.
pub const MAX_EDGES: usize = 0x7fff_ffff;

/// The text of the failure for an edge list of more than [`MAX_EDGES`] edges.
pub open spec fn too_long_text() -> Seq<char> {
    "Edge list exceeds the capacity of the engine"@
}

/// The undirected graph of an edge list, together with the table of its
/// identifiers.
pub(crate) struct EdgeGraph {
    pub(crate) table: NodeTable,
    pub(crate) store: UndirectedStore,
}

impl EdgeGraph {
    /// The external identifiers of the nodes, by node index.
    pub(crate) open spec fn nodes(&self) -> Seq<i64> {
        self.table@
    }

    /// The edges as pairs of node indices, in the order of the edge list.
    pub(crate) open spec fn edges(&self) -> Seq<(int, int)> {
        undirected_edges(self.store)
    }

    /// The table and the engine agree on the nodes.
    pub(crate) open spec fn well_formed(&self) -> bool {
        &&& self.table.well_formed()
        &&& undirected_nodes(self.store) == self.table@
    }

    /// Builds the graph of the edge list `src[i] - dst[i]`: the nodes are
    /// numbered in order of first appearance, sources before targets, and the
    /// edges are inserted in the order of the list, repeated edges and
    /// self-loops included. An edge list of more than [`MAX_EDGES`] edges fails.
    pub(crate) fn build(src: &[i64], dst: &[i64]) -> (outcome: Result<EdgeGraph, OnagerError>)
        requires
            src@.len() == dst@.len(),
        ensures
            src@.len() > MAX_EDGES ==> engine_failure(outcome, too_long_text()),
            src@.len() <= MAX_EDGES ==> match outcome {
                Ok(g) => g.well_formed() && g.nodes() == node_ids_of(src@, dst@) && g.edges()
                    == edge_pairs_of(src@, dst@),
                Err(_) => false,
            },
    {
        if src.len() > MAX_EDGES {
            return Err(
                OnagerError::GraphError(
                    String::from_str("Edge list exceeds the capacity of the engine"),
                ),
            );
        }
        let table = NodeTable::from_edges(src, dst);
        let ghost ids = node_ids_of(src@, dst@);
        proof {
            lemma_first_occurrences(src@ + dst@);
        }
        let mut store = UndirectedStore::new();
        let mut k: usize = 0;
        while k < table.len()
            invariant
                k <= table@.len(),
                table@.len() <= 2 * MAX_EDGES,
                undirected_nodes(store) == table@.take(k as int),
                undirected_edges(store) == Seq::<(int, int)>::empty(),
            decreases table@.len() - k,
        {
            store.add_node(table.id_at(k));
            proof {
                assert(table@.take(k as int).push(table@[k as int]) =~= table@.take(k + 1));
            }
            k += 1;
        }
        proof {
            assert(table@.take(table@.len() as int) =~= table@);
        }
        let mut i: usize = 0;
        while i < src.len()
            invariant
                i <= src@.len(),
                src@.len() == dst@.len(),
                src@.len() <= MAX_EDGES,
                table.well_formed(),
                table@ == ids,
                ids == node_ids_of(src@, dst@),
                forall|x: i64| ids.contains(x) <==> (src@ + dst@).contains(x),
                undirected_nodes(store) == table@,
                undirected_edges(store) == edge_pairs_of(src@, dst@).take(i as int),
            decreases src@.len() - i,
        {
            proof {
                assert((src@ + dst@)[i as int] == src@[i as int]);
                assert((src@ + dst@)[src@.len() + i] == dst@[i as int]);
                assert((src@ + dst@).contains(src@[i as int]));
                assert((src@ + dst@).contains(dst@[i as int]));
            }
            let a = match table.position(src[i]) {
                Some(a) => a,
                None => { return Err(OnagerError::NodeNotFound(src[i])); },
            };
            let b = match table.position(dst[i]) {
                Some(b) => b,
                None => { return Err(OnagerError::NodeNotFound(dst[i])); },
            };
            store.add_edge(a, b);
            proof {
                assert(edge_pairs_of(src@, dst@).take(i as int).push((a as int, b as int))
                    =~= edge_pairs_of(src@, dst@).take(i + 1));
            }
            i += 1;
        }
        proof {
            assert(edge_pairs_of(src@, dst@).take(src@.len() as int) =~= edge_pairs_of(
                src@,
                dst@,
            ));
        }
        Ok(EdgeGraph { table, store })
    }

    /// The number of nodes.
    pub(crate) fn node_count(&self) -> (n: usize)
        ensures
            n == self.nodes().len(),
    {
        self.table.len()
    }

    /// The node index of an external identifier, if the graph holds it.
    pub(crate) fn position(&self, id: i64) -> (found: Option<usize>)
        requires
            self.well_formed(),
        ensures
            match found {
                Some(i) => i < self.nodes().len() && self.nodes()[i as int] == id && i
                    == position_of(self.nodes(), id),
                None => !self.nodes().contains(id),
            },
    {
        self.table.position(id)
    }
}

/// The identifiers at the given node indices, in their order; an index beyond
/// the nodes contributes nothing.
pub open spec fn translated(ids: Seq<i64>, positions: Seq<usize>) -> Seq<i64>
    decreases positions.len(),
{
    if positions.len() == 0 {
        Seq::empty()
    } else {
        let front = translated(ids, positions.drop_last());
        if positions.last() < ids.len() {
            front.push(ids[positions.last() as int])
        } else {
            front
        }
    }
}

/// Where every index names a node, every index is answered, in order.
pub proof fn lemma_translated_total(ids: Seq<i64>, positions: Seq<usize>)
    requires
        forall|k: int| 0 <= k < positions.len() ==> positions[k] < ids.len(),
    ensures
        translated(ids, positions).len() == positions.len(),
        forall|k: int|
            0 <= k < positions.len() ==> translated(ids, positions)[k] == ids[positions[k] as int],
    decreases positions.len(),
{
    if positions.len() > 0 {
        lemma_translated_total(ids, positions.drop_last());
    }
}

/// Translates node indices into external identifiers, in order, skipping
/// indices that name no node.
pub fn external_ids(ids: &Vec<i64>, positions: &Vec<usize>) -> (out: Vec<i64>)
    ensures
        out@ == translated(ids@, positions@),
{
    let mut out: Vec<i64> = Vec::new();
    let mut k: usize = 0;
    while k < positions.len()
        invariant
            k <= positions@.len(),
            out@ == translated(ids@, positions@.take(k as int)),
        decreases positions@.len() - k,
    {
        proof {
            assert(positions@.take(k + 1).drop_last() =~= positions@.take(k as int));
        }
        let p = positions[k];
        if p < ids.len() {
            out.push(ids[p]);
        }
        k += 1;
    }
    proof {
        assert(positions@.take(positions@.len() as int) =~= positions@);
    }
    out
}

} // verus!
