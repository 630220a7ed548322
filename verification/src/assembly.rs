//! Assembly of results: from what the engine answers in node indices to
//! arrays in the caller's identifiers.
//!
//! Every function here is total. An index that names no node is passed over,
//! so that no answer of the engine can make a result refer to a node that the
//! caller did not supply.

use vstd::prelude::*;
use crate::edges::translated;
use crate::index::NodeTable;
use crate::index::position_of;

verus! {

/// The members of each group as a sequence.
pub open spec fn rows(groups: Seq<Vec<usize>>) -> Seq<Seq<usize>> {
    groups.map_values(|g: Vec<usize>| g@)
}

/// The identifiers of the members of all groups, group after group.
pub open spec fn grouped_ids(ids: Seq<i64>, groups: Seq<Seq<usize>>) -> Seq<i64>
    decreases groups.len(),
{
    if groups.len() == 0 {
        Seq::empty()
    } else {
        grouped_ids(ids, groups.drop_last()) + translated(ids, groups.last())
    }
}

/// For every listed member the number of its group, counted from zero.
pub open spec fn grouped_tags(ids: Seq<i64>, groups: Seq<Seq<usize>>) -> Seq<i64>
    decreases groups.len(),
{
    if groups.len() == 0 {
        Seq::empty()
    } else {
        grouped_tags(ids, groups.drop_last()) + Seq::new(
            translated(ids, groups.last()).len(),
            |k: int| (groups.len() - 1) as i64,
        )
    }
}

/// Lists the members of the groups with the number of their group: the two
/// arrays are aligned, groups in their order and members in theirs.
pub fn flatten_groups(ids: &Vec<i64>, groups: &Vec<Vec<usize>>) -> (out: (Vec<i64>, Vec<i64>))
    ensures
        out.0@ == grouped_ids(ids@, rows(groups@)),
        out.1@ == grouped_tags(ids@, rows(groups@)),
        out.0@.len() == out.1@.len(),
{
    let mut node_ids: Vec<i64> = Vec::new();
    let mut tags: Vec<i64> = Vec::new();
    let ghost all = rows(groups@);
    let mut g: usize = 0;
    while g < groups.len()
        invariant
            g <= groups@.len(),
            all == rows(groups@),
            node_ids@ == grouped_ids(ids@, all.take(g as int)),
            tags@ == grouped_tags(ids@, all.take(g as int)),
            node_ids@.len() == tags@.len(),
        decreases groups@.len() - g,
    {
        let members = &groups[g];
        let ghost base_ids = node_ids@;
        let ghost base_tags = tags@;
        let mut k: usize = 0;
        while k < members.len()
            invariant
                k <= members@.len(),
                g < groups@.len(),
                node_ids@ == base_ids + translated(ids@, members@.take(k as int)),
                tags@ == base_tags + Seq::new(
                    translated(ids@, members@.take(k as int)).len(),
                    |j: int| g as i64,
                ),
            decreases members@.len() - k,
        {
            proof {
                assert(members@.take(k + 1).drop_last() =~= members@.take(k as int));
            }
            let p = members[k];
            if p < ids.len() {
                node_ids.push(ids[p]);
                tags.push(g as i64);
            }
            proof {
                assert(tags@ =~= base_tags + Seq::new(
                    translated(ids@, members@.take(k + 1)).len(),
                    |j: int| g as i64,
                ));
            }
            k += 1;
        }
        proof {
            assert(members@.take(members@.len() as int) =~= members@);
            assert(all.take(g + 1).drop_last() =~= all.take(g as int));
            assert(all.take(g + 1).last() == members@);
            assert(Seq::new(translated(ids@, members@).len(), |j: int| g as i64) =~= Seq::new(
                translated(ids@, members@).len(),
                |j: int| (all.take(g + 1).len() - 1) as i64,
            ));
        }
        g += 1;
    }
    proof {
        assert(all.take(groups@.len() as int) =~= all);
    }
    (node_ids, tags)
}

/// The labels of the first nodes, as many as there are both nodes and labels.
pub open spec fn labelled(n: nat, labels: Seq<usize>) -> Seq<i64> {
    Seq::new(if labels.len() < n { labels.len() } else { n }, |i: int| labels[i] as i64)
}

/// Aligns a label per node index with the identifiers: entry `i` of the answer
/// is the identifier of node `i` with label `i`. Labels beyond the nodes, and
/// nodes beyond the labels, are left out.
pub fn label_nodes(ids: &Vec<i64>, labels: &Vec<usize>) -> (out: (Vec<i64>, Vec<i64>))
    ensures
        out.0@ == ids@.take(out.1@.len() as int),
        out.1@ == labelled(ids@.len(), labels@),
{
    let mut node_ids: Vec<i64> = Vec::new();
    let mut tags: Vec<i64> = Vec::new();
    let mut i: usize = 0;
    while i < labels.len() && i < ids.len()
        invariant
            i <= labels@.len(),
            i <= ids@.len(),
            node_ids@ == ids@.take(i as int),
            tags@ == Seq::new(i as nat, |k: int| labels@[k] as i64),
        decreases labels@.len() - i,
    {
        node_ids.push(ids[i]);
        tags.push(labels[i] as i64);
        proof {
            assert(node_ids@ =~= ids@.take(i + 1));
            assert(tags@ =~= Seq::new((i + 1) as nat, |k: int| labels@[k] as i64));
        }
        i += 1;
    }
    proof {
        assert(tags@ =~= labelled(ids@.len(), labels@));
    }
    (node_ids, tags)
}

/// The identifiers of the nodes that have a value, by node index.
pub open spec fn listed_ids(ids: Seq<i64>, values: Seq<Option<usize>>) -> Seq<i64>
    decreases values.len(),
{
    if values.len() == 0 {
        Seq::empty()
    } else {
        let front = listed_ids(ids, values.drop_last());
        let i = values.len() - 1;
        if i < ids.len() && values.last() is Some {
            front.push(ids[i])
        } else {
            front
        }
    }
}

/// The values of the nodes that have one, by node index.
pub open spec fn listed_values(ids: Seq<i64>, values: Seq<Option<usize>>) -> Seq<i64>
    decreases values.len(),
{
    if values.len() == 0 {
        Seq::empty()
    } else {
        let front = listed_values(ids, values.drop_last());
        let i = values.len() - 1;
        if i < ids.len() && values.last() is Some {
            front.push(values.last()->Some_0 as i64)
        } else {
            front
        }
    }
}

/// Lists the nodes that have a value, with their values: the two arrays are
/// aligned and follow the node indices.
pub fn list_values(ids: &Vec<i64>, values: &Vec<Option<usize>>) -> (out: (Vec<i64>, Vec<i64>))
    ensures
        out.0@ == listed_ids(ids@, values@),
        out.1@ == listed_values(ids@, values@),
        out.0@.len() == out.1@.len(),
{
    let mut node_ids: Vec<i64> = Vec::new();
    let mut listed: Vec<i64> = Vec::new();
    let mut i: usize = 0;
    while i < values.len()
        invariant
            i <= values@.len(),
            node_ids@ == listed_ids(ids@, values@.take(i as int)),
            listed@ == listed_values(ids@, values@.take(i as int)),
            node_ids@.len() == listed@.len(),
        decreases values@.len() - i,
    {
        proof {
            assert(values@.take(i + 1).drop_last() =~= values@.take(i as int));
        }
        if i < ids.len() {
            match values[i] {
                Some(v) => {
                    node_ids.push(ids[i]);
                    listed.push(v as i64);
                },
                None => {},
            }
        }
        i += 1;
    }
    proof {
        assert(values@.take(values@.len() as int) =~= values@);
    }
    (node_ids, listed)
}

/// Where every node has a value, every node is listed, in order.
pub proof fn lemma_listed_total(ids: Seq<i64>, values: Seq<Option<usize>>)
    requires
        values.len() <= ids.len(),
        forall|i: int| 0 <= i < values.len() ==> values[i] is Some,
    ensures
        listed_ids(ids, values) == ids.take(values.len() as int),
        listed_values(ids, values) == Seq::new(values.len(), |i: int| values[i]->Some_0 as i64),
    decreases values.len(),
{
    if values.len() > 0 {
        lemma_listed_total(ids, values.drop_last());
        assert(listed_ids(ids, values) =~= ids.take(values.len() as int));
        assert(listed_values(ids, values) =~= Seq::new(
            values.len(),
            |i: int| values[i]->Some_0 as i64,
        ));
    } else {
        assert(listed_ids(ids, values) =~= ids.take(values.len() as int));
        assert(listed_values(ids, values) =~= Seq::new(
            values.len(),
            |i: int| values[i]->Some_0 as i64,
        ));
    }
}

/// One value per node: the value that is given for the node, or `default`
/// where none is given.
pub open spec fn filled<T>(values: Seq<Option<T>>, default: T, n: nat) -> Seq<T> {
    Seq::new(
        n,
        |i: int|
            if i < values.len() && values[i] is Some {
                values[i]->Some_0
            } else {
                default
            },
    )
}

/// Completes values by node index to one value for each of `n` nodes: a node
/// without a value, or beyond the values, gets `default`.
pub fn node_values<T: Copy>(n: usize, values: &Vec<Option<T>>, default: T) -> (out: Vec<T>)
    ensures
        out@ == filled(values@, default, n as nat),
{
    let mut out: Vec<T> = Vec::new();
    let mut i: usize = 0;
    while i < n
        invariant
            i <= n,
            out@ == filled(values@, default, i as nat),
        decreases n - i,
    {
        let value = if i < values.len() {
            match values[i] {
                Some(v) => v,
                None => default,
            }
        } else {
            default
        };
        out.push(value);
        proof {
            assert(out@ =~= filled(values@, default, (i + 1) as nat));
        }
        i += 1;
    }
    out
}

/// One value per node, all `zero` but for the nodes that `entries` name: such
/// a node has the value of the last entry that names it. Entries for
/// identifiers outside `ids` have no effect.
pub open spec fn scattered<T>(ids: Seq<i64>, entries: Seq<(i64, T)>, zero: T) -> Seq<T>
    decreases entries.len(),
{
    if entries.len() == 0 {
        Seq::new(ids.len(), |i: int| zero)
    } else {
        let front = scattered(ids, entries.drop_last(), zero);
        let (id, value) = entries.last();
        if ids.contains(id) {
            front.update(position_of(ids, id), value)
        } else {
            front
        }
    }
}

/// Spreads values given by identifier over the nodes of `table`, by node
/// index; see [`scattered`].
pub fn scatter<T: Copy>(table: &NodeTable, entries: &[(i64, T)], zero: T) -> (out: Vec<T>)
    requires
        table.well_formed(),
    ensures
        out@ == scattered(table@, entries@, zero),
        out@.len() == table@.len(),
{
    let n = table.len();
    let mut out: Vec<T> = Vec::new();
    let mut i: usize = 0;
    while i < n
        invariant
            i <= n,
            n == table@.len(),
            out@ == Seq::new(i as nat, |k: int| zero),
        decreases n - i,
    {
        out.push(zero);
        proof {
            assert(out@ =~= Seq::new((i + 1) as nat, |k: int| zero));
        }
        i += 1;
    }
    proof {
        assert(entries@.take(0) =~= Seq::<(i64, T)>::empty());
    }
    let mut e: usize = 0;
    while e < entries.len()
        invariant
            e <= entries@.len(),
            table.well_formed(),
            out@.len() == table@.len(),
            out@ == scattered(table@, entries@.take(e as int), zero),
        decreases entries@.len() - e,
    {
        proof {
            assert(entries@.take(e + 1).drop_last() =~= entries@.take(e as int));
        }
        let entry = entries[e];
        match table.position(entry.0) {
            Some(p) => {
                out.set(p, entry.1);
            },
            None => {},
        }
        e += 1;
    }
    proof {
        assert(entries@.take(entries@.len() as int) =~= entries@);
    }
    out
}

/// The rows whose two indices both name a node, in their order, with the
/// identifiers in place of the indices. With `skip_loops`, a row from a node
/// to itself is left out as well.
pub open spec fn listed_rows<T>(ids: Seq<i64>, rows: Seq<(usize, usize, T)>, skip_loops: bool) -> Seq<
    (i64, i64, T),
>
    decreases rows.len(),
{
    if rows.len() == 0 {
        Seq::empty()
    } else {
        let front = listed_rows(ids, rows.drop_last(), skip_loops);
        let (a, b, value) = rows.last();
        if a < ids.len() && b < ids.len() && !(skip_loops && ids[a as int] == ids[b as int]) {
            front.push((ids[a as int], ids[b as int], value))
        } else {
            front
        }
    }
}

/// Lists rows that are given by two node indices and a value as three aligned
/// arrays in the caller's identifiers; see [`listed_rows`].
pub fn list_rows<T: Copy>(ids: &Vec<i64>, rows: &Vec<(usize, usize, T)>, skip_loops: bool) -> (out: (
    Vec<i64>,
    Vec<i64>,
    Vec<T>,
))
    ensures
        out.0@ == listed_rows(ids@, rows@, skip_loops).map_values(|r: (i64, i64, T)| r.0),
        out.1@ == listed_rows(ids@, rows@, skip_loops).map_values(|r: (i64, i64, T)| r.1),
        out.2@ == listed_rows(ids@, rows@, skip_loops).map_values(|r: (i64, i64, T)| r.2),
{
    let mut first: Vec<i64> = Vec::new();
    let mut second: Vec<i64> = Vec::new();
    let mut third: Vec<T> = Vec::new();
    let mut k: usize = 0;
    while k < rows.len()
        invariant
            k <= rows@.len(),
            first@ == listed_rows(ids@, rows@.take(k as int), skip_loops).map_values(
                |r: (i64, i64, T)| r.0,
            ),
            second@ == listed_rows(ids@, rows@.take(k as int), skip_loops).map_values(
                |r: (i64, i64, T)| r.1,
            ),
            third@ == listed_rows(ids@, rows@.take(k as int), skip_loops).map_values(
                |r: (i64, i64, T)| r.2,
            ),
        decreases rows@.len() - k,
    {
        proof {
            assert(rows@.take(k + 1).drop_last() =~= rows@.take(k as int));
        }
        let row = rows[k];
        if row.0 < ids.len() && row.1 < ids.len() {
            let a = ids[row.0];
            let b = ids[row.1];
            if !(skip_loops && a == b) {
                first.push(a);
                second.push(b);
                third.push(row.2);
            }
        }
        proof {
            let now = listed_rows(ids@, rows@.take(k + 1), skip_loops);
            assert(first@ =~= now.map_values(|r: (i64, i64, T)| r.0));
            assert(second@ =~= now.map_values(|r: (i64, i64, T)| r.1));
            assert(third@ =~= now.map_values(|r: (i64, i64, T)| r.2));
        }
        k += 1;
    }
    proof {
        assert(rows@.take(rows@.len() as int) =~= rows@);
    }
    (first, second, third)
}

} // verus!
