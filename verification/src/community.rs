//! Community detection: partitions of the nodes of an undirected graph.
//!
//! Every operation here refuses the empty edge list. Most of the algorithms
//! draw random numbers or break ties by the order of a hash table; of their
//! answers the contracts state what holds of every run.

use vstd::prelude::*;
use vstd::string::StringExecFns;
use crate::admission::Operation;
use crate::admission::Verdict;
use crate::admission::check_lengths;
use crate::admission::refused_with;
use crate::admission::verdict;
use crate::assembly::flatten_groups;
use crate::assembly::grouped_ids;
use crate::assembly::grouped_tags;
use crate::assembly::label_nodes;
use crate::assembly::rows;
use crate::edges::EdgeGraph;
use crate::edges::MAX_EDGES;
use crate::edges::too_long_text;
use crate::engine::UndirectedStore;
use crate::engine::engine_error;
use crate::engine::undirected_edges;
use crate::engine::undirected_nodes;
use crate::error::OnagerError;
use crate::graph::engine_failure;
use crate::index::edge_pairs_of;
use crate::index::node_ids_of;
use crate::traversal::hop_distance;

verus! {

/// The connected components as the engine lists them: each component as the
/// node indices in the order of the search that found it, the components in
/// the order of their first node.
pub uninterp spec fn components_of(nodes: Seq<i64>, edges: Seq<(int, int)>) -> Seq<Seq<usize>>;

/// Whether node `v` is a member of one of the groups.
pub open spec fn is_member(groups: Seq<Seq<usize>>, v: int) -> bool {
    exists|g: int, i: int|
        0 <= g < groups.len() && 0 <= i < groups[g].len() && #[trigger] groups[g][i] == v
}

/// Whether the groups are made of the nodes: every member is a node, and
/// every node is a member.
pub open spec fn covers_nodes(groups: Seq<Seq<usize>>, n: nat) -> bool {
    &&& forall|g: int, i: int|
        0 <= g < groups.len() && 0 <= i < groups[g].len() ==> (#[trigger] groups[g][i]) < n
    &&& forall|v: int| 0 <= v < n ==> #[trigger] is_member(groups, v)
}

/// Whether `groups` lists the connected components of the graph: every
/// member is a node, every node is a member, and two members are in one group
/// exactly if there is a path between them.
pub open spec fn is_component_listing(
    groups: Seq<Seq<usize>>,
    edges: Seq<(int, int)>,
    n: nat,
) -> bool {
    &&& covers_nodes(groups, n)
    &&& forall|g: int, i: int, h: int, j: int|
        0 <= g < groups.len() && 0 <= i < groups[g].len() && 0 <= h < groups.len() && 0 <= j
            < groups[h].len() ==> (g == h <==> hop_distance(
            edges,
            #[trigger] groups[g][i] as int,
            #[trigger] groups[h][j] as int,
        ) is Some)
}

/// Calls `graphina::community::connected_components::connected_components`.
/// The search walks the graph alone, so the listing is a function of the
/// graph, which gets its name. It starts a breadth-first search at every node
/// that no earlier search has reached, and a group is what one search
/// reaches along the edges, followed from either end.
#[verifier::external_body]
pub(crate) fn engine_connected_components(g: &UndirectedStore) -> (groups: Vec<Vec<usize>>)
    ensures
        rows(groups@) == components_of(undirected_nodes(*g), undirected_edges(*g)),
        is_component_listing(rows(groups@), undirected_edges(*g), undirected_nodes(*g).len()),
{
    let found = graphina::community::connected_components::connected_components(&g.inner);
    found.into_iter().map(|c| c.into_iter().map(|node| node.index()).collect()).collect()
}

/// Calls `graphina::community::label_propagation::label_propagation`. It
/// fails only on a graph without nodes or with no round allowed; otherwise it
/// answers with one label per node, each label the index of some node. Which
/// labels come out depends on random draws.
#[verifier::external_body]
pub(crate) fn engine_label_propagation(
    g: &UndirectedStore,
    max_iter: usize,
    seed: Option<u64>,
) -> (outcome: Result<Vec<usize>, graphina::core::error::GraphinaError>)
    ensures
        undirected_nodes(*g).len() > 0 && max_iter > 0 ==> outcome is Ok,
        outcome matches Ok(labels) ==> labels@.len() == undirected_nodes(*g).len() && forall|
            i: int,
        |
            0 <= i < labels@.len() ==> labels@[i] < undirected_nodes(*g).len(),
{
    graphina::community::label_propagation::label_propagation(&g.inner, max_iter, seed)
}

/// Calls `graphina::community::girvan_newman::girvan_newman`. It fails when
/// no community is asked for and when no edge is left to remove before the
/// target is reached. As long as some part holds two nodes there is an edge
/// between two different nodes to remove, so the call succeeds for every
/// target up to the number of nodes and fails for every larger one. When it
/// succeeds there are at least `target` groups, which are the connected parts
/// of what is left of the graph, so that they are made of its nodes. Which
/// edges are removed on ties depends on the order of a hash table.
#[verifier::external_body]
pub(crate) fn engine_girvan_newman(g: &UndirectedStore, target: usize) -> (outcome: Result<
    Vec<Vec<usize>>,
    graphina::core::error::GraphinaError,
>)
    ensures
        0 < target <= undirected_nodes(*g).len() ==> outcome is Ok,
        target > undirected_nodes(*g).len() ==> outcome is Err,
        outcome matches Ok(groups) ==> groups@.len() >= target && covers_nodes(
            rows(groups@),
            undirected_nodes(*g).len(),
        ),
{
    let found = graphina::community::girvan_newman::girvan_newman(&g.inner, target)?;
    Ok(found.into_iter().map(|c| c.into_iter().map(|node| node.index()).collect()).collect())
}

/// The clusters that the engine's spectral clustering finds when its random
/// draws come from a generator seeded with `seed`.
pub uninterp spec fn seeded_clusters(
    nodes: Seq<i64>,
    edges: Seq<(int, int)>,
    k: nat,
    seed: u64,
) -> Seq<Seq<usize>>;

/// Calls `graphina::community::spectral::spectral_clustering`. It fails on a
/// graph without nodes, for no cluster and for more clusters than nodes;
/// otherwise it answers with exactly `k` clusters, some of which may be empty,
/// and every node is put into one of them. Which nodes share a cluster
/// depends on random draws. With a seed the draws come from a generator that
/// is seeded with it, and no hash table is walked, so the clusters are a
/// function of the graph, `k` and the seed, which gets its name; without a
/// seed the generator is seeded by chance.
#[verifier::external_body]
pub(crate) fn engine_spectral_clustering(
    g: &UndirectedStore,
    k: usize,
    seed: Option<u64>,
) -> (outcome: Result<Vec<Vec<usize>>, graphina::core::error::GraphinaError>)
    ensures
        k > undirected_nodes(*g).len() ==> outcome is Err,
        0 < k <= undirected_nodes(*g).len() ==> outcome is Ok,
        outcome matches Ok(groups) ==> groups@.len() == k && covers_nodes(
            rows(groups@),
            undirected_nodes(*g).len(),
        ),
        outcome matches Ok(groups) && seed matches Some(s) ==> rows(groups@) == seeded_clusters(
            undirected_nodes(*g),
            undirected_edges(*g),
            k as nat,
            s,
        ),
{
    let found = graphina::community::spectral::spectral_clustering(&g.inner, k, seed)?;
    Ok(found.into_iter().map(|c| c.into_iter().map(|node| node.index()).collect()).collect())
}

/// Calls `graphina::community::infomap::infomap`. It fails only on a graph
/// without nodes or with no round allowed; otherwise it answers with one
/// module per node, each module the index of some node. Which modules come
/// out depends on random draws.
#[verifier::external_body]
pub(crate) fn engine_infomap(g: &UndirectedStore, max_iter: usize, seed: Option<u64>) -> (outcome:
    Result<Vec<usize>, graphina::core::error::GraphinaError>)
    ensures
        undirected_nodes(*g).len() > 0 && max_iter > 0 ==> outcome is Ok,
        outcome matches Ok(modules) ==> modules@.len() == undirected_nodes(*g).len() && forall|
            i: int,
        |
            0 <= i < modules@.len() ==> modules@[i] < undirected_nodes(*g).len(),
{
    graphina::community::infomap::infomap(&g.inner, max_iter, seed)
}

/// Result of Louvain community detection.
pub struct LouvainResult {
    /// The nodes, community after community.
    pub node_ids: Vec<i64>,
    /// For each listed node the number of its community.
    pub community_ids: Vec<i64>,
}

/// Result of connected components computation.
pub struct ConnectedComponentsResult {
    /// The nodes, component after component.
    pub node_ids: Vec<i64>,
    /// For each listed node the number of its component.
    pub component_ids: Vec<i64>,
}

/// Result of label propagation.
pub struct LabelPropagationResult {
    /// Every node, in order of first appearance in the edge list.
    pub node_ids: Vec<i64>,
    /// For each node its label.
    pub labels: Vec<i64>,
}

/// Result of Girvan-Newman community detection.
pub struct GirvanNewmanResult {
    /// The nodes, community after community.
    pub node_ids: Vec<i64>,
    /// For each listed node the number of its community.
    pub community_ids: Vec<i64>,
}

/// Result of spectral clustering.
pub struct SpectralClusteringResult {
    /// The nodes, cluster after cluster.
    pub node_ids: Vec<i64>,
    /// For each listed node the number of its cluster.
    pub community_ids: Vec<i64>,
}

/// Result of Infomap.
pub struct InfomapResult {
    /// Every node, in order of first appearance in the edge list.
    pub node_ids: Vec<i64>,
    /// For each node its module.
    pub community_ids: Vec<i64>,
}

/// The text with which a target of no community is refused.
pub open spec fn target_text() -> Seq<char> {
    "target_communities must be positive"@
}

/// The text with which zero clusters are refused.
pub open spec fn clusters_text() -> Seq<char> {
    "k must be positive"@
}

/// The text with which zero rounds are refused.
pub open spec fn rounds_text() -> Seq<char> {
    "max_iter must be positive"@
}

/// Checks the number of rounds that an iteration is given: it needs at least
/// one.
pub fn check_rounds(max_iter: usize) -> (outcome: Result<(), OnagerError>)
    ensures
        if max_iter == 0 {
            refused_with(outcome, rounds_text())
        } else {
            outcome is Ok
        },
{
    if max_iter == 0 {
        return Err(OnagerError::InvalidArgument(String::from_str("max_iter must be positive")));
    }
    Ok(())
}

/// The number of rounds that label propagation is given.
pub const LABEL_PROPAGATION_ROUNDS: usize = 100;

/// Lists the communities that a Louvain run found, given as groups of node
/// indices, in the identifiers of `ids`.
pub fn louvain_communities(ids: &Vec<i64>, groups: &Vec<Vec<usize>>) -> (r: LouvainResult)
    ensures
        r.node_ids@ == grouped_ids(ids@, rows(groups@)),
        r.community_ids@ == grouped_tags(ids@, rows(groups@)),
{
    let (node_ids, community_ids) = flatten_groups(ids, groups);
    LouvainResult { node_ids, community_ids }
}

/// Compute connected components.
///
/// Arrays of different lengths and an empty edge list are refused. Otherwise
/// the nodes are listed component by component as the engine found them, each
/// with the number of its component.
pub fn compute_connected_components(src: &[i64], dst: &[i64]) -> (outcome: Result<
    ConnectedComponentsResult,
    OnagerError,
>)
    ensures
        match verdict(Operation::ConnectedComponents, src@.len(), dst@.len(), 0) {
            Verdict::Refused(text) => refused_with(outcome, text),
            _ => if src@.len() > MAX_EDGES {
                engine_failure(outcome, too_long_text())
            } else {
                let ids = node_ids_of(src@, dst@);
                let groups = components_of(ids, edge_pairs_of(src@, dst@));
                match outcome {
                    Ok(r) => r.node_ids@ == grouped_ids(ids, groups) && r.component_ids@
                        == grouped_tags(ids, groups) && is_component_listing(
                        groups,
                        edge_pairs_of(src@, dst@),
                        ids.len(),
                    ),
                    Err(_) => false,
                }
            },
        },
{
    check_lengths(Operation::ConnectedComponents, src.len(), dst.len(), 0)?;
    let g = EdgeGraph::build(src, dst)?;
    let groups = engine_connected_components(&g.store);
    let (node_ids, component_ids) = flatten_groups(g.table.ids(), &groups);
    Ok(ConnectedComponentsResult { node_ids, component_ids })
}

/// Compute label propagation, with at most a hundred rounds.
///
/// Arrays of different lengths and an empty edge list are refused. Otherwise
/// every node is listed with a label, and every label is the index of a node.
pub fn compute_label_propagation(src: &[i64], dst: &[i64]) -> (outcome: Result<
    LabelPropagationResult,
    OnagerError,
>)
    ensures
        match verdict(Operation::LabelPropagation, src@.len(), dst@.len(), 0) {
            Verdict::Refused(text) => refused_with(outcome, text),
            _ => if src@.len() > MAX_EDGES {
                engine_failure(outcome, too_long_text())
            } else {
                let ids = node_ids_of(src@, dst@);
                match outcome {
                    Ok(r) => r.node_ids@ == ids && r.labels@.len() == ids.len() && forall|i: int|
                        0 <= i < ids.len() ==> 0 <= #[trigger] r.labels@[i] < ids.len(),
                    Err(_) => false,
                }
            },
        },
{
    check_lengths(Operation::LabelPropagation, src.len(), dst.len(), 0)?;
    let g = EdgeGraph::build(src, dst)?;
    proof {
        lemma_has_nodes(src@, dst@);
    }
    match engine_label_propagation(&g.store, LABEL_PROPAGATION_ROUNDS, None) {
        Ok(found) => {
            let (node_ids, labels) = label_nodes(g.table.ids(), &found);
            proof {
                crate::index::lemma_first_occurrences(src@ + dst@);
                assert(node_ids@ =~= g.table@);
                assert forall|i: int| 0 <= i < g.table@.len() implies 0 <= #[trigger] labels@[i]
                    < g.table@.len() by {
                    assert(labels@[i] == found@[i] as i64);
                }
            }
            Ok(LabelPropagationResult { node_ids, labels })
        },
        Err(e) => Err(engine_error(e)),
    }
}

/// Compute Girvan-Newman communities.
///
/// Arrays of different lengths and an empty edge list are refused, then a
/// target that is not positive. Otherwise the engine removes edges until the
/// graph falls into at least `target_communities` parts. That succeeds for
/// every target up to the number of nodes, and the nodes are then listed
/// community by community; for a larger target the engine runs out of edges
/// and the call fails with the engine's error.
pub fn compute_girvan_newman(src: &[i64], dst: &[i64], target_communities: i64) -> (outcome:
    Result<GirvanNewmanResult, OnagerError>)
    ensures
        match verdict(Operation::GirvanNewman, src@.len(), dst@.len(), 0) {
            Verdict::Refused(text) => refused_with(outcome, text),
            _ => if target_communities <= 0 {
                refused_with(outcome, target_text())
            } else if src@.len() > MAX_EDGES {
                engine_failure(outcome, too_long_text())
            } else {
                let ids = node_ids_of(src@, dst@);
                if target_communities > ids.len() {
                    outcome matches Err(e) && e is GraphError
                } else {
                    match outcome {
                        Ok(r) => exists|groups: Seq<Seq<usize>>|
                            groups.len() >= target_communities && covers_nodes(groups, ids.len())
                                && r.node_ids@ == grouped_ids(ids, groups) && r.community_ids@
                                == grouped_tags(ids, groups),
                        Err(_) => false,
                    }
                }
            },
        },
{
    check_lengths(Operation::GirvanNewman, src.len(), dst.len(), 0)?;
    if target_communities <= 0 {
        return Err(
            OnagerError::InvalidArgument(String::from_str("target_communities must be positive")),
        );
    }
    let g = EdgeGraph::build(src, dst)?;
    let n = g.node_count();
    if target_communities as u64 > usize::MAX as u64 {
        assert(target_communities > n);
        return Err(
            OnagerError::GraphError(String::from_str("target_communities exceeds the address range")),
        );
    }
    match engine_girvan_newman(&g.store, target_communities as usize) {
        Ok(groups) => {
            let (node_ids, community_ids) = flatten_groups(g.table.ids(), &groups);
            proof {
                let witness = rows(groups@);
                assert(witness.len() >= target_communities && covers_nodes(
                    witness,
                    g.table@.len(),
                ) && node_ids@ == grouped_ids(g.table@, witness) && community_ids@
                    == grouped_tags(g.table@, witness));
            }
            Ok(GirvanNewmanResult { node_ids, community_ids })
        },
        Err(e) => Err(engine_error(e)),
    }
}

/// Compute spectral clustering into `k` clusters.
///
/// Arrays of different lengths and an empty edge list are refused, then
/// `k == 0`. More clusters than nodes fail with the engine's error. Otherwise
/// the nodes are listed cluster by cluster, for exactly `k` clusters; with a
/// seed, the same arguments give the same clusters.
pub fn compute_spectral_clustering(src: &[i64], dst: &[i64], k: usize, seed: Option<u64>) -> (outcome:
    Result<SpectralClusteringResult, OnagerError>)
    ensures
        match verdict(Operation::SpectralClustering, src@.len(), dst@.len(), 0) {
            Verdict::Refused(text) => refused_with(outcome, text),
            _ => if k == 0 {
                refused_with(outcome, clusters_text())
            } else if src@.len() > MAX_EDGES {
                engine_failure(outcome, too_long_text())
            } else {
                let ids = node_ids_of(src@, dst@);
                if k > ids.len() {
                    outcome matches Err(e) && e is GraphError
                } else {
                    match outcome {
                        Ok(r) => exists|groups: Seq<Seq<usize>>|
                            groups.len() == k && covers_nodes(groups, ids.len()) && r.node_ids@
                                == grouped_ids(ids, groups) && r.community_ids@ == grouped_tags(
                                ids,
                                groups,
                            ) && (seed matches Some(s) ==> groups == seeded_clusters(
                                ids,
                                edge_pairs_of(src@, dst@),
                                k as nat,
                                s,
                            )),
                        Err(_) => false,
                    }
                }
            },
        },
{
    check_lengths(Operation::SpectralClustering, src.len(), dst.len(), 0)?;
    if k == 0 {
        return Err(OnagerError::InvalidArgument(String::from_str("k must be positive")));
    }
    let g = EdgeGraph::build(src, dst)?;
    match engine_spectral_clustering(&g.store, k, seed) {
        Ok(groups) => {
            let (node_ids, community_ids) = flatten_groups(g.table.ids(), &groups);
            proof {
                let witness = rows(groups@);
                assert(witness.len() == k && covers_nodes(witness, g.table@.len()) && node_ids@
                    == grouped_ids(g.table@, witness) && community_ids@ == grouped_tags(
                    g.table@,
                    witness,
                ) && (seed matches Some(s) ==> witness == seeded_clusters(
                    g.table@,
                    edge_pairs_of(src@, dst@),
                    k as nat,
                    s,
                )));
            }
            Ok(SpectralClusteringResult { node_ids, community_ids })
        },
        Err(e) => Err(engine_error(e)),
    }
}

/// Compute Infomap modules with at most `max_iter` rounds.
///
/// Arrays of different lengths and an empty edge list are refused, then
/// `max_iter == 0`. Otherwise every node is listed with its module, and every
/// module is the index of a node.
pub fn compute_infomap(src: &[i64], dst: &[i64], max_iter: usize, seed: Option<u64>) -> (outcome:
    Result<InfomapResult, OnagerError>)
    ensures
        match verdict(Operation::Infomap, src@.len(), dst@.len(), 0) {
            Verdict::Refused(text) => refused_with(outcome, text),
            _ => if max_iter == 0 {
                refused_with(outcome, rounds_text())
            } else if src@.len() > MAX_EDGES {
                engine_failure(outcome, too_long_text())
            } else {
                let ids = node_ids_of(src@, dst@);
                match outcome {
                    Ok(r) => r.node_ids@ == ids && r.community_ids@.len() == ids.len() && forall|
                        i: int,
                    |
                        0 <= i < ids.len() ==> 0 <= #[trigger] r.community_ids@[i] < ids.len(),
                    Err(_) => false,
                }
            },
        },
{
    check_lengths(Operation::Infomap, src.len(), dst.len(), 0)?;
    check_rounds(max_iter)?;
    let g = EdgeGraph::build(src, dst)?;
    proof {
        lemma_has_nodes(src@, dst@);
    }
    match engine_infomap(&g.store, max_iter, seed) {
        Ok(found) => {
            let (node_ids, community_ids) = label_nodes(g.table.ids(), &found);
            proof {
                crate::index::lemma_first_occurrences(src@ + dst@);
                assert(node_ids@ =~= g.table@);
                assert forall|i: int| 0 <= i < g.table@.len() implies 0
                    <= #[trigger] community_ids@[i] < g.table@.len() by {
                    assert(community_ids@[i] == found@[i] as i64);
                }
            }
            Ok(InfomapResult { node_ids, community_ids })
        },
        Err(e) => Err(engine_error(e)),
    }
}

/// An edge list that is not empty has a node.
pub proof fn lemma_has_nodes(src: Seq<i64>, dst: Seq<i64>)
    requires
        src.len() > 0,
    ensures
        node_ids_of(src, dst).len() > 0,
        node_ids_of(src, dst).contains(src[0]),
{
    crate::index::lemma_first_occurrences(src + dst);
    assert((src + dst)[0] == src[0]);
    assert((src + dst).contains(src[0]));
}

} // verus!
