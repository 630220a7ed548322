//! Random graphs from a seed.

use vstd::prelude::*;
use vstd::string::StringExecFns;
use crate::admission::refused_with;
use crate::engine::CAPACITY;
use crate::engine::engine_error;
use crate::error::OnagerError;
use crate::graph::engine_failure;

verus! {

/// Result of graph generation: an edge list over the nodes `0 .. n`.
pub struct GeneratorResult {
    /// The first endpoints of the edges.
    pub src: Vec<i64>,
    /// The second endpoints of the edges.
    pub dst: Vec<i64>,
}

/// The edges of the preferential-attachment graph that the engine grows from
/// `seed`: `n` nodes, each new node joined to `m` earlier ones.
pub uninterp spec fn barabasi_albert_edges(n: nat, m: nat, seed: u64) -> Seq<(usize, usize)>;

/// Whether every edge joins two different nodes below `n`.
pub open spec fn joins_nodes(edges: Seq<(usize, usize)>, n: nat) -> bool {
    forall|i: int|
        0 <= i < edges.len() ==> (#[trigger] edges[i]).0 < n && edges[i].1 < n && edges[i].0
            != edges[i].1
}

/// Calls `graphina::core::generators::barabasi_albert_graph` for an
/// undirected graph and reads off its edges. The generator fails only for
/// `m == 0` or `n < m`, which the bounds exclude; it adds at most `n * m`
/// edges, and the bound keeps that within what the storage can index. All its
/// random draws come from a generator seeded with `seed`, so the edge list is
/// a function of the three arguments and gets its name. The nodes of the
/// graph are `0 .. n`, and no node is joined to itself.
#[verifier::external_body]
pub(crate) fn engine_barabasi_albert(n: usize, m: usize, seed: u64) -> (outcome: Result<
    Vec<(usize, usize)>,
    graphina::core::error::GraphinaError,
>)
    requires
        0 < m <= n,
        n * m <= CAPACITY,
    ensures
        match outcome {
            Ok(edges) => edges@ == barabasi_albert_edges(n as nat, m as nat, seed) && joins_nodes(
                edges@,
                n as nat,
            ),
            Err(_) => false,
        },
{
    let g = graphina::core::generators::barabasi_albert_graph::<graphina::core::types::Undirected>(
        n,
        m,
        seed,
    )?;
    Ok(g.edges().map(|(u, v, _)| (u.index(), v.index())).collect())
}

/// The text with which a count of zero is refused.
pub open spec fn positive_text() -> Seq<char> {
    "n and m must be > 0"@
}

/// The text with which more attachments than nodes are refused.
pub open spec fn attachment_text() -> Seq<char> {
    "m must be <= n"@
}

/// The text of the failure for a graph that the engine cannot index.
pub open spec fn size_text() -> Seq<char> {
    "Graph exceeds the capacity of the engine"@
}

/// The text with which a graph without nodes is refused.
pub open spec fn nodes_text() -> Seq<char> {
    "n must be > 0"@
}

/// The text with which an odd or too large ring degree is refused.
pub open spec fn ring_text() -> Seq<char> {
    "k must be even and < n"@
}

/// Checks the node count of a random graph: a graph has at least one node.
pub fn check_node_count(n: usize) -> (outcome: Result<(), OnagerError>)
    ensures
        if n == 0 {
            refused_with(outcome, nodes_text())
        } else {
            outcome is Ok
        },
{
    if n == 0 {
        return Err(OnagerError::InvalidArgument(String::from_str("n must be > 0")));
    }
    Ok(())
}

/// Checks the shape of a ring lattice of `n` nodes in which every node is
/// joined to its `k` nearest neighbours: there is at least one node, and `k`
/// is even and smaller than `n`.
pub fn check_ring_lattice(n: usize, k: usize) -> (outcome: Result<(), OnagerError>)
    ensures
        if n == 0 {
            refused_with(outcome, nodes_text())
        } else if k % 2 != 0 || k >= n {
            refused_with(outcome, ring_text())
        } else {
            outcome is Ok
        },
{
    if n == 0 {
        return Err(OnagerError::InvalidArgument(String::from_str("n must be > 0")));
    }
    if k % 2 != 0 || k >= n {
        return Err(OnagerError::InvalidArgument(String::from_str("k must be even and < n")));
    }
    Ok(())
}

/// Lists generated edges, given by node index, as an edge list.
pub fn edge_list(edges: &Vec<(usize, usize)>) -> (r: GeneratorResult)
    ensures
        r.src@ == edges@.map_values(|e: (usize, usize)| e.0 as i64),
        r.dst@ == edges@.map_values(|e: (usize, usize)| e.1 as i64),
{
    let mut src: Vec<i64> = Vec::new();
    let mut dst: Vec<i64> = Vec::new();
    let mut i: usize = 0;
    while i < edges.len()
        invariant
            i <= edges@.len(),
            src@ == edges@.take(i as int).map_values(|e: (usize, usize)| e.0 as i64),
            dst@ == edges@.take(i as int).map_values(|e: (usize, usize)| e.1 as i64),
        decreases edges@.len() - i,
    {
        let e = edges[i];
        src.push(e.0 as i64);
        dst.push(e.1 as i64);
        proof {
            assert(src@ =~= edges@.take(i + 1).map_values(|e: (usize, usize)| e.0 as i64));
            assert(dst@ =~= edges@.take(i + 1).map_values(|e: (usize, usize)| e.1 as i64));
        }
        i += 1;
    }
    proof {
        assert(edges@.take(edges@.len() as int) =~= edges@);
    }
    GeneratorResult { src, dst }
}

/// Generate a Barabási-Albert preferential attachment graph of `n` nodes in
/// which every new node attaches to `m` earlier ones.
///
/// Zero nodes or zero attachments are refused, then more attachments than
/// nodes; a graph of more than [`CAPACITY`] possible edges fails. Otherwise
/// the edge list is the one that the engine grows from `seed`: the same
/// arguments give the same edge list.
pub fn generate_barabasi_albert(n: usize, m: usize, seed: u64) -> (outcome: Result<
    GeneratorResult,
    OnagerError,
>)
    ensures
        if n == 0 || m == 0 {
            refused_with(outcome, positive_text())
        } else if m > n {
            refused_with(outcome, attachment_text())
        } else if n * m > CAPACITY {
            engine_failure(outcome, size_text())
        } else {
            let edges = barabasi_albert_edges(n as nat, m as nat, seed);
            match outcome {
                Ok(r) => r.src@ == edges.map_values(|e: (usize, usize)| e.0 as i64) && r.dst@
                    == edges.map_values(|e: (usize, usize)| e.1 as i64) && joins_nodes(
                    edges,
                    n as nat,
                ),
                Err(_) => false,
            }
        },
{
    if n == 0 || m == 0 {
        return Err(OnagerError::InvalidArgument(String::from_str("n and m must be > 0")));
    }
    if m > n {
        return Err(OnagerError::InvalidArgument(String::from_str("m must be <= n")));
    }
    let fits = match n.checked_mul(m) {
        Some(product) => product <= CAPACITY,
        None => false,
    };
    if !fits {
        return Err(
            OnagerError::GraphError(String::from_str("Graph exceeds the capacity of the engine")),
        );
    }
    match engine_barabasi_albert(n, m, seed) {
        Ok(edges) => Ok(edge_list(&edges)),
        Err(e) => Err(engine_error(e)),
    }
}

} // verus!
