//! The input policy of every operation that takes an edge list.
//!
//! Each operation receives parallel arrays of edge sources and targets, some
//! of them an array of weights as well. Before any graph is built the lengths
//! are compared, and an empty edge list is either refused, answered with an
//! empty result, or computed like any other, depending on the operation. This
//! module is the single table of those rules.

use vstd::prelude::*;
use vstd::string::StringExecFns;
use crate::error::OnagerError;

verus! {

/// An operation on an edge list.
#[derive(Clone, Copy, Debug, PartialEq, Eq, Structural)]
pub enum Operation {
    /// Approximate largest clique.
    MaxClique,
    /// Approximate largest independent set.
    IndependentSet,
    /// Approximate smallest vertex cover.
    VertexCover,
    /// Nearest-neighbour tour of all nodes.
    Tsp,
    /// PageRank by power iteration.
    PageRank,
    /// Degree centrality of every node.
    Degree,
    /// Betweenness centrality.
    Betweenness,
    /// Closeness centrality.
    Closeness,
    /// Eigenvector centrality.
    Eigenvector,
    /// Katz centrality.
    Katz,
    /// Harmonic centrality.
    Harmonic,
    /// In- and out-degree of one node.
    NodeDegree,
    /// Election of influential spreaders.
    VoteRank,
    /// Local reaching centrality.
    LocalReaching,
    /// Laplacian centrality.
    Laplacian,
    /// Louvain modularity optimisation.
    Louvain,
    /// Connected components.
    ConnectedComponents,
    /// Label propagation.
    LabelPropagation,
    /// Girvan-Newman edge removal.
    GirvanNewman,
    /// Spectral clustering.
    SpectralClustering,
    /// Infomap.
    Infomap,
    /// Jaccard coefficient of node pairs.
    Jaccard,
    /// Adamic-Adar index of node pairs.
    AdamicAdar,
    /// Preferential attachment score of node pairs.
    PreferentialAttachment,
    /// Resource allocation index of node pairs.
    ResourceAllocation,
    /// Largest eccentricity.
    Diameter,
    /// Smallest eccentricity.
    Radius,
    /// Average clustering coefficient.
    AvgClustering,
    /// Average shortest path length.
    AvgPathLength,
    /// Global transitivity.
    Transitivity,
    /// Triangles through every node.
    TriangleCount,
    /// Degree assortativity.
    Assortativity,
    /// Share of possible edges that are present.
    GraphDensity,
    /// Minimum spanning tree by Prim.
    PrimMst,
    /// Minimum spanning tree by Kruskal.
    KruskalMst,
    /// PageRank on the worker pool.
    PageRankParallel,
    /// Breadth-first order on the worker pool.
    BfsParallel,
    /// Hop distances on the worker pool.
    ShortestPathsParallel,
    /// Connected components on the worker pool.
    ComponentsParallel,
    /// Clustering coefficients on the worker pool.
    ClusteringParallel,
    /// Triangle counts on the worker pool.
    TrianglesParallel,
    /// PageRank with biased restarts.
    PersonalizedPageRank,
    /// Neighbourhood subgraph around a centre.
    EgoGraph,
    /// Nodes within a number of hops.
    KHopNeighbors,
    /// Subgraph induced by a node set.
    InducedSubgraph,
    /// Single-source distances by Dijkstra.
    Dijkstra,
    /// Breadth-first visiting order.
    Bfs,
    /// Depth-first visiting order.
    Dfs,
    /// Distance between two nodes.
    ShortestDistance,
    /// Single-source distances by Bellman-Ford.
    BellmanFord,
    /// All-pairs distances by Floyd-Warshall.
    FloydWarshall,
}

/// The group of operations that share an input policy.
#[derive(Clone, Copy, Debug, PartialEq, Eq, Structural)]
pub enum Family {
    /// Heuristic subset selections: clique, independent set, vertex cover.
    Approximation,
    /// The travelling-salesman tour.
    Tour,
    /// Scores per node.
    Centrality,
    /// Partitions of the node set.
    Community,
    /// Scores per node pair.
    LinkPrediction,
    /// Whole-graph measurements.
    Metrics,
    /// Minimum spanning trees.
    SpanningTree,
    /// Operations that run on the worker pool.
    Parallel,
    /// Extraction of parts of the graph.
    Subgraph,
    /// Visiting orders and shortest paths.
    Traversal,
}

/// What an operation expects of the weight array.
#[derive(Clone, Copy, Debug, PartialEq, Eq, Structural)]
pub enum WeightRule {
    /// The operation takes no weights, or does not look at them.
    Ignored,
    /// One weight per edge.
    Required,
    /// Either no weights at all or one per edge.
    Optional,
}

/// What an operation does with an empty edge list.
#[derive(Clone, Copy, Debug, PartialEq, Eq, Structural)]
pub enum EmptyRule {
    /// The call fails with `InvalidArgument`.
    Rejected,
    /// The call succeeds with an empty result, without building a graph.
    EmptyAnswer,
    /// The call runs on the graph without nodes.
    Computed,
}

/// The outcome of the input check, as a value of the specification.
pub enum Verdict {
    /// The call fails with `InvalidArgument` and this text.
    Refused(Seq<char>),
    /// The call succeeds at once with an empty result.
    EmptyAnswer,
    /// The graph is built and the operation runs.
    Proceed,
}

/// The outcome of a passed input check.
#[derive(Clone, Copy, Debug, PartialEq, Eq, Structural)]
pub enum Admission {
    /// Answer with an empty result.
    EmptyAnswer,
    /// Build the graph and run.
    Proceed,
}

/// The text of the refusal when `src` and `dst` differ in length.
pub open spec fn endpoints_text() -> Seq<char> {
    "src and dst arrays must have same length"@
}

/// The text of the refusal when a required weight array has another length
/// than the edge list.
pub open spec fn weighted_text() -> Seq<char> {
    "src, dst, and weights arrays must have same length"@
}

/// The text of the refusal when an optional weight array is neither empty nor
/// as long as the edge list.
pub open spec fn optional_weights_text() -> Seq<char> {
    "weights must be empty or same length as edges"@
}

impl Operation {
    /// The family of the operation.
    pub open spec fn family(self) -> Family {
        match self {
            Operation::MaxClique => Family::Approximation,
            Operation::IndependentSet => Family::Approximation,
            Operation::VertexCover => Family::Approximation,
            Operation::Tsp => Family::Tour,
            Operation::PageRank => Family::Centrality,
            Operation::Degree => Family::Centrality,
            Operation::Betweenness => Family::Centrality,
            Operation::Closeness => Family::Centrality,
            Operation::Eigenvector => Family::Centrality,
            Operation::Katz => Family::Centrality,
            Operation::Harmonic => Family::Centrality,
            Operation::NodeDegree => Family::Centrality,
            Operation::VoteRank => Family::Centrality,
            Operation::LocalReaching => Family::Centrality,
            Operation::Laplacian => Family::Centrality,
            Operation::Louvain => Family::Community,
            Operation::ConnectedComponents => Family::Community,
            Operation::LabelPropagation => Family::Community,
            Operation::GirvanNewman => Family::Community,
            Operation::SpectralClustering => Family::Community,
            Operation::Infomap => Family::Community,
            Operation::Jaccard => Family::LinkPrediction,
            Operation::AdamicAdar => Family::LinkPrediction,
            Operation::PreferentialAttachment => Family::LinkPrediction,
            Operation::ResourceAllocation => Family::LinkPrediction,
            Operation::Diameter => Family::Metrics,
            Operation::Radius => Family::Metrics,
            Operation::AvgClustering => Family::Metrics,
            Operation::AvgPathLength => Family::Metrics,
            Operation::Transitivity => Family::Metrics,
            Operation::TriangleCount => Family::Metrics,
            Operation::Assortativity => Family::Metrics,
            Operation::GraphDensity => Family::Metrics,
            Operation::PrimMst => Family::SpanningTree,
            Operation::KruskalMst => Family::SpanningTree,
            Operation::PageRankParallel => Family::Parallel,
            Operation::BfsParallel => Family::Parallel,
            Operation::ShortestPathsParallel => Family::Parallel,
            Operation::ComponentsParallel => Family::Parallel,
            Operation::ClusteringParallel => Family::Parallel,
            Operation::TrianglesParallel => Family::Parallel,
            Operation::PersonalizedPageRank => Family::Centrality,
            Operation::EgoGraph => Family::Subgraph,
            Operation::KHopNeighbors => Family::Subgraph,
            Operation::InducedSubgraph => Family::Subgraph,
            Operation::Dijkstra => Family::Traversal,
            Operation::Bfs => Family::Traversal,
            Operation::Dfs => Family::Traversal,
            Operation::ShortestDistance => Family::Traversal,
            Operation::BellmanFord => Family::Traversal,
            Operation::FloydWarshall => Family::Traversal,
        }
    }

    /// What the operation expects of the weight array.
    pub open spec fn weight_rule(self) -> WeightRule {
        match self {
            Operation::Tsp | Operation::PrimMst | Operation::KruskalMst | Operation::BellmanFord | Operation::FloydWarshall => WeightRule::Required,
            Operation::PageRankParallel => WeightRule::Optional,
            _ => WeightRule::Ignored,
        }
    }

    /// What the operation does with an empty edge list.
    pub open spec fn empty_rule(self) -> EmptyRule {
        match self {
            Operation::MaxClique | Operation::IndependentSet | Operation::VertexCover | Operation::VoteRank | Operation::LocalReaching | Operation::Laplacian => EmptyRule::EmptyAnswer,
            Operation::PageRank | Operation::Degree => EmptyRule::Computed,
            _ => EmptyRule::Rejected,
        }
    }

    /// The text with which the operation refuses an empty edge list.
    pub open spec fn empty_text(self) -> Seq<char> {
        match self {
            Operation::Tsp => "Cannot compute TSP on empty graph"@,
            Operation::Betweenness => "Cannot compute betweenness on empty graph"@,
            Operation::Closeness => "Cannot compute closeness on empty graph"@,
            Operation::Eigenvector => "Cannot compute eigenvector on empty graph"@,
            Operation::Katz => "Cannot compute Katz on empty graph"@,
            Operation::Harmonic => "Cannot compute harmonic on empty graph"@,
            _ => "Cannot compute on empty graph"@,
        }
    }

    /// The weight rule of the operation.
    pub fn weights(self) -> (rule: WeightRule)
        ensures
            rule == self.weight_rule(),
    {
        match self {
            Operation::Tsp | Operation::PrimMst | Operation::KruskalMst | Operation::BellmanFord | Operation::FloydWarshall => WeightRule::Required,
            Operation::PageRankParallel => WeightRule::Optional,
            _ => WeightRule::Ignored,
        }
    }

    /// The rule of the operation for an empty edge list.
    pub fn on_empty(self) -> (rule: EmptyRule)
        ensures
            rule == self.empty_rule(),
    {
        match self {
            Operation::MaxClique | Operation::IndependentSet | Operation::VertexCover | Operation::VoteRank | Operation::LocalReaching | Operation::Laplacian => EmptyRule::EmptyAnswer,
            Operation::PageRank | Operation::Degree => EmptyRule::Computed,
            _ => EmptyRule::Rejected,
        }
    }

    /// The refusal text of the operation for an empty edge list.
    pub fn empty_message(self) -> (text: &'static str)
        ensures
            text@ == self.empty_text(),
    {
        match self {
            Operation::Tsp => "Cannot compute TSP on empty graph",
            Operation::Betweenness => "Cannot compute betweenness on empty graph",
            Operation::Closeness => "Cannot compute closeness on empty graph",
            Operation::Eigenvector => "Cannot compute eigenvector on empty graph",
            Operation::Katz => "Cannot compute Katz on empty graph",
            Operation::Harmonic => "Cannot compute harmonic on empty graph",
            _ => "Cannot compute on empty graph",
        }
    }
}

/// The verdict on a call of `op` with `n_src` sources, `n_dst` targets and
/// `n_weights` weights. The lengths of the endpoint arrays are compared first,
/// then the weights, and only then is an empty edge list considered. Where
/// the operation ignores weights, `n_weights` plays no part.
pub open spec fn verdict(op: Operation, n_src: nat, n_dst: nat, n_weights: nat) -> Verdict {
    match op.weight_rule() {
        WeightRule::Required if n_src != n_dst || n_src != n_weights => Verdict::Refused(
            weighted_text(),
        ),
        _ if n_src != n_dst => Verdict::Refused(endpoints_text()),
        WeightRule::Optional if n_weights != 0 && n_weights != n_src => Verdict::Refused(
            optional_weights_text(),
        ),
        _ if n_src != 0 => Verdict::Proceed,
        _ => match op.empty_rule() {
            EmptyRule::Rejected => Verdict::Refused(op.empty_text()),
            EmptyRule::EmptyAnswer => Verdict::EmptyAnswer,
            EmptyRule::Computed => Verdict::Proceed,
        },
    }
}

/// Whether `outcome` is the failure `InvalidArgument` with exactly `text`.
pub open spec fn refused_with<T>(outcome: Result<T, OnagerError>, text: Seq<char>) -> bool {
    match outcome {
        Err(OnagerError::InvalidArgument(t)) => t@ == text,
        _ => false,
    }
}

/// Whether the result of an input check agrees with a verdict.
pub open spec fn agrees(outcome: Result<Admission, OnagerError>, v: Verdict) -> bool {
    match v {
        Verdict::Refused(text) => refused_with(outcome, text),
        Verdict::EmptyAnswer => outcome == Ok::<Admission, OnagerError>(Admission::EmptyAnswer),
        Verdict::Proceed => outcome == Ok::<Admission, OnagerError>(Admission::Proceed),
    }
}

/// Checks the array lengths of a call against the policy of `op`.
pub fn check_lengths(op: Operation, n_src: usize, n_dst: usize, n_weights: usize) -> (outcome: Result<
    Admission,
    OnagerError,
>)
    ensures
        agrees(outcome, verdict(op, n_src as nat, n_dst as nat, n_weights as nat)),
{
    let rule = op.weights();
    if rule == WeightRule::Required && (n_src != n_dst || n_src != n_weights) {
        return Err(
            OnagerError::InvalidArgument(
                String::from_str("src, dst, and weights arrays must have same length"),
            ),
        );
    }
    if n_src != n_dst {
        return Err(
            OnagerError::InvalidArgument(
                String::from_str("src and dst arrays must have same length"),
            ),
        );
    }
    if rule == WeightRule::Optional && n_weights != 0 && n_weights != n_src {
        return Err(
            OnagerError::InvalidArgument(
                String::from_str("weights must be empty or same length as edges"),
            ),
        );
    }
    if n_src != 0 {
        return Ok(Admission::Proceed);
    }
    match op.on_empty() {
        EmptyRule::Rejected => Err(
            OnagerError::InvalidArgument(String::from_str(op.empty_message())),
        ),
        EmptyRule::EmptyAnswer => Ok(Admission::EmptyAnswer),
        EmptyRule::Computed => Ok(Admission::Proceed),
    }
}

/// Endpoint arrays of different lengths are refused as an invalid argument,
/// whatever the operation and whatever else is passed.
pub proof fn law_length_mismatch_is_refused(op: Operation, n_src: nat, n_dst: nat, n_weights: nat)
    requires
        n_src != n_dst,
    ensures
        verdict(op, n_src, n_dst, n_weights) is Refused,
{
}

/// Where weights are required, a weight array of another length than the edge
/// list is refused as an invalid argument.
pub proof fn law_weight_mismatch_is_refused(op: Operation, n_src: nat, n_dst: nat, n_weights: nat)
    requires
        op.weight_rule() == WeightRule::Required,
        n_weights != n_src,
    ensures
        verdict(op, n_src, n_dst, n_weights) is Refused,
{
}

/// The policy for an empty edge list, family by family: the subset selections
/// answer with an empty set; the tour, the traversals, the communities, the
/// spanning trees, the link predictions, the subgraphs, the metrics and the
/// pooled operations refuse it.
pub proof fn law_empty_input_policy(op: Operation)
    ensures
        op.family() == Family::Approximation ==> verdict(op, 0, 0, 0) is EmptyAnswer,
        op.family() == Family::Tour ==> verdict(op, 0, 0, 0) is Refused,
        op.family() == Family::Traversal ==> verdict(op, 0, 0, 0) is Refused,
        op.family() == Family::Community ==> verdict(op, 0, 0, 0) is Refused,
        op.family() == Family::SpanningTree ==> verdict(op, 0, 0, 0) is Refused,
        op.family() == Family::LinkPrediction ==> verdict(op, 0, 0, 0) is Refused,
        op.family() == Family::Subgraph ==> verdict(op, 0, 0, 0) is Refused,
        op.family() == Family::Metrics ==> verdict(op, 0, 0, 0) is Refused,
        op.family() == Family::Parallel ==> verdict(op, 0, 0, 0) is Refused,
{
}

/// Among the centralities the empty edge list is refused by all but five:
/// vote rank, local reaching and Laplacian centrality answer with an empty
/// result, and PageRank and degree centrality run on the graph without nodes.
pub proof fn law_empty_input_centrality(op: Operation)
    requires
        op.family() == Family::Centrality,
    ensures
        verdict(op, 0, 0, 0) == match op {
            Operation::VoteRank | Operation::LocalReaching | Operation::Laplacian =>
                Verdict::EmptyAnswer,
            Operation::PageRank | Operation::Degree => Verdict::Proceed,
            _ => Verdict::Refused(op.empty_text()),
        },
{
}

} // verus!
