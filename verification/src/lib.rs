//! Graph analytics over edge lists with stable external node identifiers.
//!
//! A caller hands in parallel arrays of edge endpoints. The library checks the
//! arrays, numbers the nodes densely in order of first appearance, runs the
//! requested analysis on the graph engine underneath and answers in the
//! caller's own identifiers.

pub mod admission;
pub mod approximation;
pub mod assembly;
pub mod centrality;
pub mod community;
pub mod edges;
pub mod engine;
pub mod error;
pub mod fraction;
pub mod generators;
pub mod graph;
pub mod index;
pub mod links;
pub mod metrics;
pub mod parallel;
pub mod registry;
pub mod subgraphs;
pub mod traversal;
