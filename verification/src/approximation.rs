//! Results of the heuristic subset selections: clique, independent set and
//! vertex cover.
//!
//! The selections themselves are made on floating-point weights outside this
//! library. What is decided here is the form of the answer: the chosen nodes
//! in the caller's identifiers, in ascending order.

use vstd::prelude::*;
use crate::edges::external_ids;
use crate::edges::translated;

verus! {

/// Result of maximum clique computation.
pub struct CliqueResult {
    /// The nodes of the clique, ascending.
    pub node_ids: Vec<i64>,
}

/// Result of independent set computation.
pub struct IndependentSetResult {
    /// The nodes of the set, ascending.
    pub node_ids: Vec<i64>,
}

/// Result of vertex cover computation.
pub struct VertexCoverResult {
    /// The nodes of the cover, ascending.
    pub node_ids: Vec<i64>,
}

/// Whether a sequence ascends, equal neighbours allowed.
pub open spec fn ascending(s: Seq<i64>) -> bool {
    forall|i: int, j: int| 0 <= i < j < s.len() ==> s[i] <= s[j]
}

/// Sorts with std's `sort` on a vector of integers, which orders the elements
/// ascending and keeps every element as often as it was there.
#[verifier::external_body]
pub(crate) fn sort_ascending(v: &mut Vec<i64>)
    ensures
        ascending(final(v)@),
        final(v)@.to_multiset() == old(v)@.to_multiset(),
{
    v.sort();
}

/// The chosen nodes in the caller's identifiers, in ascending order. An index
/// that names no node is passed over; a node chosen twice is listed twice.
pub fn selected_nodes(ids: &Vec<i64>, chosen: &Vec<usize>) -> (out: Vec<i64>)
    ensures
        ascending(out@),
        out@.to_multiset() == translated(ids@, chosen@).to_multiset(),
{
    let mut out = external_ids(ids, chosen);
    sort_ascending(&mut out);
    out
}

impl CliqueResult {
    /// The answer for a clique given by node indices; no indices, an empty
    /// answer.
    pub fn from_selection(ids: &Vec<i64>, chosen: &Vec<usize>) -> (r: CliqueResult)
        ensures
            ascending(r.node_ids@),
            r.node_ids@.to_multiset() == translated(ids@, chosen@).to_multiset(),
    {
        CliqueResult { node_ids: selected_nodes(ids, chosen) }
    }
}

impl IndependentSetResult {
    /// The answer for an independent set given by node indices; no indices,
    /// an empty answer.
    pub fn from_selection(ids: &Vec<i64>, chosen: &Vec<usize>) -> (r: IndependentSetResult)
        ensures
            ascending(r.node_ids@),
            r.node_ids@.to_multiset() == translated(ids@, chosen@).to_multiset(),
    {
        IndependentSetResult { node_ids: selected_nodes(ids, chosen) }
    }
}

impl VertexCoverResult {
    /// The answer for a vertex cover given by node indices; no indices, an
    /// empty answer.
    pub fn from_selection(ids: &Vec<i64>, chosen: &Vec<usize>) -> (r: VertexCoverResult)
        ensures
            ascending(r.node_ids@),
            r.node_ids@.to_multiset() == translated(ids@, chosen@).to_multiset(),
    {
        VertexCoverResult { node_ids: selected_nodes(ids, chosen) }
    }
}

} // verus!
