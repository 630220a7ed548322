//! Dense numbering of external node identifiers.
//!
//! Nodes are numbered in the order in which their identifiers first appear.
//! The table keeps both directions of the numbering: a growable array from
//! index to identifier and a hash map from identifier to index.

use std::collections::HashMap;
use vstd::prelude::*;
use vstd::std_specs::hash::*;

verus! {

broadcast use vstd::std_specs::hash::group_hash_axioms;

/// The identifiers of `s` in order of first appearance, each once.
pub open spec fn first_occurrences(s: Seq<i64>) -> Seq<i64>
    decreases s.len(),
{
    if s.len() == 0 {
        Seq::empty()
    } else {
        let before = first_occurrences(s.drop_last());
        if before.contains(s.last()) {
            before
        } else {
            before.push(s.last())
        }
    }
}

/// The node sequence of the graph that the edge arrays describe: every
/// identifier of `src`, then every identifier of `dst`, each at its first
/// appearance.
pub open spec fn node_ids_of(src: Seq<i64>, dst: Seq<i64>) -> Seq<i64> {
    first_occurrences(src + dst)
}

/// The position of `id` in `ids`; meaningful when `ids` holds `id`.
pub open spec fn position_of(ids: Seq<i64>, id: i64) -> int {
    ids.index_of(id)
}

/// The edges of the arrays as pairs of node positions.
pub open spec fn edge_pairs_of(src: Seq<i64>, dst: Seq<i64>) -> Seq<(int, int)> {
    Seq::new(
        src.len(),
        |i: int| (position_of(node_ids_of(src, dst), src[i]), position_of(node_ids_of(src, dst), dst[i])),
    )
}

/// No identifier occurs twice.
pub open spec fn distinct(ids: Seq<i64>) -> bool {
    forall|i: int, j: int| 0 <= i < j < ids.len() ==> ids[i] != ids[j]
}

/// `first_occurrences` keeps exactly the identifiers of its argument, without
/// repeating any, and never grows longer than its argument.
pub proof fn lemma_first_occurrences(s: Seq<i64>)
    ensures
        distinct(first_occurrences(s)),
        forall|x: i64| first_occurrences(s).contains(x) <==> s.contains(x),
        first_occurrences(s).len() <= s.len(),
    decreases s.len(),
{
    if s.len() > 0 {
        let front = s.drop_last();
        let last = s.last();
        lemma_first_occurrences(front);
        let before = first_occurrences(front);
        let all = first_occurrences(s);
        assert(before.contains(last) <==> front.contains(last));
        assert forall|x: i64| all.contains(x) <==> s.contains(x) by {
            assert(before.contains(x) <==> front.contains(x));
            if s.contains(x) {
                let k = choose|k: int| 0 <= k < s.len() && s[k] == x;
                if k < s.len() - 1 {
                    assert(front[k] == x);
                    assert(front.contains(x));
                    let m = before.index_of(x);
                    assert(all[m] == x);
                } else if !before.contains(last) {
                    assert(all[before.len() as int] == x);
                } else {
                    let m = before.index_of(x);
                    assert(all[m] == x);
                }
            }
            if all.contains(x) {
                let m = all.index_of(x);
                if m < before.len() {
                    assert(before[m] == x);
                    assert(before.contains(x));
                    let k = front.index_of(x);
                    assert(s[k] == x);
                } else {
                    assert(s[s.len() - 1] == x);
                }
            }
        }
        assert forall|i: int, j: int| 0 <= i < j < all.len() implies all[i] != all[j] by {
            if j == before.len() {
                assert(before[i] == all[i]);
                assert(before.contains(all[i]));
            }
        }
    }
}

/// A prefix of a sequence contributes a prefix of the first occurrences.
pub proof fn lemma_first_occurrences_step(s: Seq<i64>, n: int)
    requires
        0 <= n < s.len(),
    ensures
        first_occurrences(s.take(n + 1)) == if first_occurrences(s.take(n)).contains(s[n]) {
            first_occurrences(s.take(n))
        } else {
            first_occurrences(s.take(n)).push(s[n])
        },
{
    assert(s.take(n + 1).drop_last() =~= s.take(n));
    assert(s.take(n + 1).last() == s[n]);
}

/// Every edge of an edge list joins two nodes of its node sequence.
pub proof fn lemma_edge_pairs_in_range(src: Seq<i64>, dst: Seq<i64>)
    requires
        src.len() == dst.len(),
    ensures
        edge_pairs_of(src, dst).len() == src.len(),
        forall|i: int|
            0 <= i < src.len() ==> 0 <= (#[trigger] edge_pairs_of(src, dst)[i]).0 < node_ids_of(
                src,
                dst,
            ).len() && 0 <= edge_pairs_of(src, dst)[i].1 < node_ids_of(src, dst).len()
                && node_ids_of(src, dst)[edge_pairs_of(src, dst)[i].0] == src[i] && node_ids_of(
                src,
                dst,
            )[edge_pairs_of(src, dst)[i].1] == dst[i],
{
    let ids = node_ids_of(src, dst);
    lemma_first_occurrences(src + dst);
    assert forall|i: int| 0 <= i < src.len() implies 0 <= (#[trigger] edge_pairs_of(src, dst)[i]).0
        < ids.len() && 0 <= edge_pairs_of(src, dst)[i].1 < ids.len() && ids[edge_pairs_of(
        src,
        dst,
    )[i].0] == src[i] && ids[edge_pairs_of(src, dst)[i].1] == dst[i] by {
        assert((src + dst)[i] == src[i]);
        assert((src + dst)[src.len() + i] == dst[i]);
        assert((src + dst).contains(src[i]));
        assert((src + dst).contains(dst[i]));
        assert(ids.contains(src[i]));
        assert(ids.contains(dst[i]));
    }
}

/// A two-way table between external identifiers and dense node positions.
pub struct NodeTable {
    ids: Vec<i64>,
    lookup: HashMap<i64, usize>,
}

impl View for NodeTable {
    type V = Seq<i64>;

    closed spec fn view(&self) -> Seq<i64> {
        self.ids@
    }
}

impl NodeTable {
    /// The two directions of the table agree.
    pub closed spec fn well_formed(&self) -> bool {
        &&& forall|i: int|
            0 <= i < self.ids@.len() ==> #[trigger] self.lookup@.contains_key(self.ids@[i])
                && self.lookup@[self.ids@[i]] == i
        &&& forall|k: i64| #[trigger]
            self.lookup@.contains_key(k) ==> self.lookup@[k] < self.ids@.len()
                && self.ids@[self.lookup@[k] as int] == k
    }

    /// In a well-formed table no identifier is listed twice.
    pub proof fn lemma_distinct(&self)
        requires
            self.well_formed(),
        ensures
            distinct(self@),
    {
        assert forall|i: int, j: int| 0 <= i < j < self.ids@.len() implies self.ids@[i]
            != self.ids@[j] by {
            assert(self.lookup@.contains_key(self.ids@[i]));
            assert(self.lookup@.contains_key(self.ids@[j]));
        }
    }

    /// A table without nodes.
    pub fn new() -> (table: NodeTable)
        ensures
            table.well_formed(),
            table@ == Seq::<i64>::empty(),
    {
        NodeTable { ids: Vec::new(), lookup: HashMap::new() }
    }

    /// The number of nodes.
    pub fn len(&self) -> (n: usize)
        ensures
            n == self@.len(),
    {
        self.ids.len()
    }

    /// The position of `id`, if the table holds it.
    pub fn position(&self, id: i64) -> (found: Option<usize>)
        requires
            self.well_formed(),
        ensures
            match found {
                Some(i) => i < self@.len() && self@[i as int] == id && i == position_of(self@, id),
                None => !self@.contains(id),
            },
    {
        match self.lookup.get(&id) {
            Some(i) => {
                proof {
                    self.lemma_distinct();
                    assert(self@.contains(id));
                    let p = self@.index_of(id);
                    assert(self@[p] == id);
                    if p != *i as int {
                        if p < *i as int {
                            assert(self@[p] != self@[*i as int]);
                        } else {
                            assert(self@[*i as int] != self@[p]);
                        }
                    }
                }
                Some(*i)
            },
            None => {
                proof {
                    if self@.contains(id) {
                        let k = choose|k: int| 0 <= k < self@.len() && self@[k] == id;
                        assert(self.lookup@.contains_key(self.ids@[k]));
                    }
                }
                None
            },
        }
    }

    /// Whether the table holds `id`.
    pub fn contains(&self, id: i64) -> (b: bool)
        requires
            self.well_formed(),
        ensures
            b == self@.contains(id),
    {
        self.position(id).is_some()
    }

    /// The identifier at position `i`.
    pub fn id_at(&self, i: usize) -> (id: i64)
        requires
            i < self@.len(),
        ensures
            id == self@[i as int],
    {
        self.ids[i]
    }

    /// Numbers `id` if it is new, and returns its position either way.
    pub fn insert(&mut self, id: i64) -> (i: usize)
        requires
            old(self).well_formed(),
        ensures
            final(self).well_formed(),
            final(self)@ == if old(self)@.contains(id) {
                old(self)@
            } else {
                old(self)@.push(id)
            },
            i < final(self)@.len(),
            final(self)@[i as int] == id,
            i == position_of(final(self)@, id),
    {
        match self.position(id) {
            Some(i) => i,
            None => {
                let i = self.ids.len();
                self.ids.push(id);
                self.lookup.insert(id, i);
                proof {
                    assert forall|k: i64| #[trigger]
                        self.lookup@.contains_key(k) implies self.lookup@[k] < self.ids@.len()
                        && self.ids@[self.lookup@[k] as int] == k by {
                        if k != id {
                            assert(old(self).lookup@.contains_key(k));
                        }
                    }
                    assert forall|j: int| 0 <= j < self.ids@.len() implies #[trigger]
                        self.lookup@.contains_key(self.ids@[j]) && self.lookup@[self.ids@[j]]
                        == j by {
                        if j < i {
                            assert(old(self).lookup@.contains_key(old(self).ids@[j]));
                            assert(old(self).ids@[j] != id) by {
                                assert(old(self)@.contains(old(self).ids@[j]));
                            }
                        }
                    }
                    self.lemma_distinct();
                    let p = self@.index_of(id);
                    assert(self@[i as int] == id);
                    assert(self@.contains(id));
                    assert(self@[p] == id);
                    if p < i {
                        assert(self@[p] != self@[i as int]);
                    }
                }
                i
            },
        }
    }

    /// The identifiers in order of their positions.
    pub fn ids(&self) -> (ids: &Vec<i64>)
        ensures
            ids@ == self@,
    {
        &self.ids
    }

    /// Numbers the nodes of an edge list: the identifiers of `src`, then those
    /// of `dst`, each at its first appearance.
    pub fn from_edges(src: &[i64], dst: &[i64]) -> (table: NodeTable)
        ensures
            table.well_formed(),
            table@ == node_ids_of(src@, dst@),
    {
        let mut table = NodeTable::new();
        let ghost all = src@ + dst@;
        let mut i: usize = 0;
        while i < src.len()
            invariant
                i <= src.len(),
                all == src@ + dst@,
                table.well_formed(),
                table@ == first_occurrences(all.take(i as int)),
            decreases src.len() - i,
        {
            proof {
                lemma_first_occurrences_step(all, i as int);
            }
            table.insert(src[i]);
            i += 1;
        }
        let mut j: usize = 0;
        while j < dst.len()
            invariant
                j <= dst.len(),
                all == src@ + dst@,
                table.well_formed(),
                table@ == first_occurrences(all.take(src.len() + j)),
            decreases dst.len() - j,
        {
            proof {
                lemma_first_occurrences_step(all, src.len() + j);
            }
            table.insert(dst[j]);
            j += 1;
        }
        proof {
            assert(all.take(all.len() as int) =~= all);
        }
        table
    }
}

} // verus!
