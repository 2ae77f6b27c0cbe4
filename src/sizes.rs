//! Per-column compressed and uncompressed totals over all row groups.

use vstd::prelude::*;
use indexmap::IndexSet;
use crate::metadata::{ColumnChunk, RowGroup};

verus! {

#[verifier::external_type_specification]
#[verifier::external_body]
#[verifier::reject_recursive_types(T)]
#[verifier::reject_recursive_types(S)]
pub struct ExIndexSet<T, S>(IndexSet<T, S>);

/// The paths held by a set of column paths, in insertion order.
pub uninterp spec fn path_keys(s: IndexSet<String>) -> Seq<Seq<char>>;

/// Relies on indexmap::IndexSet::new: a new set is empty.
#[verifier::external_body]
fn new_path_set() -> (r: IndexSet<String>)
    ensures
        path_keys(r) == Seq::<Seq<char>>::empty(),
{
    IndexSet::new()
}

/// Relies on indexmap::IndexSet::insert_full: a path already present keeps its
/// position and its index is returned with `false`; a new path is appended at the
/// end and its index is returned with `true`.
#[verifier::external_body]
fn insert_path(s: &mut IndexSet<String>, p: String) -> (r: (usize, bool))
    ensures
        path_keys(*old(s)).contains(p@) ==> !r.1 && r.0 < path_keys(*old(s)).len()
            && path_keys(*old(s))[r.0 as int] == p@ && path_keys(*final(s)) == path_keys(*old(s)),
        !path_keys(*old(s)).contains(p@) ==> r.1 && r.0 == path_keys(*old(s)).len()
            && path_keys(*final(s)) == path_keys(*old(s)).push(p@),
{
    s.insert_full(p)
}

/// A compression ratio held exactly, as compressed over uncompressed bytes.
#[derive(Debug, Clone, Copy, PartialEq, Eq)]
pub struct Ratio {
    pub numerator: u64,
    pub denominator: u64,
}

/// The accumulated sizes of one column path.
#[derive(Debug, Clone, Copy, PartialEq, Eq)]
pub struct ColumnSize {
    pub compressed_size: u64,
    pub uncompressed_size: u64,
    pub compression_ratio: Option<Ratio>,
}

/// The ratio that two totals give: present exactly when both are nonzero.
pub open spec fn ratio_of(c: u64, u: u64) -> Option<Ratio> {
    if c != 0 && u != 0 {
        Some(Ratio { numerator: c, denominator: u })
    } else {
        None
    }
}

impl ColumnSize {
    /// The ratio is always the one that the two totals give.
    pub open spec fn wf(self) -> bool {
        self.compression_ratio == ratio_of(self.compressed_size, self.uncompressed_size)
    }

    /// Sizes of a first chunk, with their ratio.
    pub fn new(compressed_size: u64, uncompressed_size: u64) -> (r: ColumnSize)
        ensures
            r.compressed_size == compressed_size,
            r.uncompressed_size == uncompressed_size,
            r.wf(),
    {
        ColumnSize {
            compressed_size,
            uncompressed_size,
            compression_ratio: if compressed_size != 0 && uncompressed_size != 0 {
                Some(Ratio { numerator: compressed_size, denominator: uncompressed_size })
            } else {
                None
            },
        }
    }

    /// Adds the sizes of one more chunk and recomputes the ratio.
    pub fn add(&mut self, compressed_size: u64, uncompressed_size: u64)
        requires
            old(self).compressed_size + compressed_size <= u64::MAX,
            old(self).uncompressed_size + uncompressed_size <= u64::MAX,
        ensures
            final(self).compressed_size == old(self).compressed_size + compressed_size,
            final(self).uncompressed_size == old(self).uncompressed_size + uncompressed_size,
            final(self).wf(),
    {
        self.compressed_size = self.compressed_size + compressed_size;
        self.uncompressed_size = self.uncompressed_size + uncompressed_size;
        self.compression_ratio = if self.compressed_size != 0 && self.uncompressed_size != 0 {
            Some(Ratio { numerator: self.compressed_size, denominator: self.uncompressed_size })
        } else {
            None
        };
    }
}

/// The size a chunk counts for: its compressed size, or its uncompressed one,
/// taken as an unsigned 64-bit quantity.
pub open spec fn chunk_size(c: ColumnChunk, uncompressed: bool) -> nat {
    if uncompressed {
        (c.uncompressed_size as u64) as nat
    } else {
        (c.compressed_size as u64) as nat
    }
}

/// All column chunks of the row groups, row group by row group, in chunk order.
pub open spec fn chunks_of(gs: Seq<RowGroup>) -> Seq<ColumnChunk>
    decreases gs.len(),
{
    if gs.len() == 0 {
        Seq::empty()
    } else {
        chunks_of(gs.drop_last()) + gs.last().columns@
    }
}

/// The total size of the chunks of path `p`.
pub open spec fn path_total(cs: Seq<ColumnChunk>, p: Seq<char>, uncompressed: bool) -> nat
    decreases cs.len(),
{
    if cs.len() == 0 {
        0
    } else {
        path_total(cs.drop_last(), p, uncompressed) + if cs.last().column_path@ == p {
            chunk_size(cs.last(), uncompressed)
        } else {
            0
        }
    }
}

/// The total size of all chunks.
pub open spec fn all_total(cs: Seq<ColumnChunk>, uncompressed: bool) -> nat
    decreases cs.len(),
{
    if cs.len() == 0 {
        0
    } else {
        all_total(cs.drop_last(), uncompressed) + chunk_size(cs.last(), uncompressed)
    }
}

/// The distinct paths of the chunks, in order of first appearance.
pub open spec fn first_seen(cs: Seq<ColumnChunk>) -> Seq<Seq<char>>
    decreases cs.len(),
{
    if cs.len() == 0 {
        Seq::empty()
    } else {
        let s = first_seen(cs.drop_last());
        if s.contains(cs.last().column_path@) {
            s
        } else {
            s.push(cs.last().column_path@)
        }
    }
}

proof fn lemma_path_total_bounded(cs: Seq<ColumnChunk>, p: Seq<char>, uncompressed: bool)
    ensures
        path_total(cs, p, uncompressed) <= all_total(cs, uncompressed),
    decreases cs.len(),
{
    if cs.len() > 0 {
        lemma_path_total_bounded(cs.drop_last(), p, uncompressed);
    }
}

proof fn lemma_all_total_prefix(cs: Seq<ColumnChunk>, n: int, uncompressed: bool)
    requires
        0 <= n <= cs.len(),
    ensures
        all_total(cs.take(n), uncompressed) <= all_total(cs, uncompressed),
    decreases cs.len(),
{
    if n < cs.len() {
        assert(cs.drop_last().take(n) == cs.take(n));
        lemma_all_total_prefix(cs.drop_last(), n, uncompressed);
    } else {
        assert(cs.take(n) == cs);
    }
}

proof fn lemma_all_total_concat(a: Seq<ColumnChunk>, b: Seq<ColumnChunk>, uncompressed: bool)
    ensures
        all_total(a + b, uncompressed) == all_total(a, uncompressed) + all_total(b, uncompressed),
    decreases b.len(),
{
    if b.len() == 0 {
        assert(a + b == a);
    } else {
        assert((a + b).drop_last() == a + b.drop_last());
        lemma_all_total_concat(a, b.drop_last(), uncompressed);
    }
}

proof fn lemma_groups_prefix_total(gs: Seq<RowGroup>, n: int, uncompressed: bool)
    requires
        0 <= n <= gs.len(),
    ensures
        all_total(chunks_of(gs.take(n)), uncompressed) <= all_total(chunks_of(gs), uncompressed),
    decreases gs.len(),
{
    if n < gs.len() {
        assert(gs.drop_last().take(n) == gs.take(n));
        lemma_groups_prefix_total(gs.drop_last(), n, uncompressed);
        lemma_all_total_concat(chunks_of(gs.drop_last()), gs.last().columns@, uncompressed);
    } else {
        assert(gs.take(n) == gs);
    }
}

proof fn lemma_unseen_total_zero(cs: Seq<ColumnChunk>, p: Seq<char>, uncompressed: bool)
    requires
        !first_seen(cs).contains(p),
    ensures
        path_total(cs, p, uncompressed) == 0,
    decreases cs.len(),
{
    if cs.len() > 0 {
        let s = first_seen(cs.drop_last());
        if s.contains(cs.last().column_path@) {
        } else {
            assert(s.push(cs.last().column_path@).last() == cs.last().column_path@);
        }
        if s.contains(p) {
            let k = choose|k: int| 0 <= k < s.len() && s[k] == p;
            if !s.contains(cs.last().column_path@) {
                assert(s.push(cs.last().column_path@)[k] == p);
            }
        }
        lemma_unseen_total_zero(cs.drop_last(), p, uncompressed);
    }
}

proof fn lemma_first_seen_distinct(cs: Seq<ColumnChunk>)
    ensures
        first_seen(cs).no_duplicates(),
    decreases cs.len(),
{
    if cs.len() > 0 {
        lemma_first_seen_distinct(cs.drop_last());
    }
}

/// Folds every column chunk of every row group, in file order, into per-path
/// totals; paths come out in order of first appearance, each with its compressed
/// and uncompressed totals and the ratio they give.
pub fn column_sizes(row_groups: &Vec<RowGroup>) -> (r: Vec<(String, ColumnSize)>)
    requires
        all_total(chunks_of(row_groups@), false) <= u64::MAX,
        all_total(chunks_of(row_groups@), true) <= u64::MAX,
    ensures
        r@.len() == first_seen(chunks_of(row_groups@)).len(),
        forall|k: int|
            0 <= k < r@.len() ==> {
                let p = first_seen(chunks_of(row_groups@))[k];
                &&& (#[trigger] r@[k]).0@ == p
                &&& r@[k].1.compressed_size == path_total(chunks_of(row_groups@), p, false)
                &&& r@[k].1.uncompressed_size == path_total(chunks_of(row_groups@), p, true)
                &&& r@[k].1.wf()
            },
{
    let ghost all = chunks_of(row_groups@);
    let mut set = new_path_set();
    let mut out: Vec<(String, ColumnSize)> = Vec::new();
    let mut i: usize = 0;
    while i < row_groups.len()
        invariant
            i <= row_groups@.len(),
            all == chunks_of(row_groups@),
            all_total(all, false) <= u64::MAX,
            all_total(all, true) <= u64::MAX,
            path_keys(set) == first_seen(chunks_of(row_groups@.take(i as int))),
            out@.len() == path_keys(set).len(),
            forall|k: int|
                0 <= k < out@.len() ==> {
                    let p = path_keys(set)[k];
                    let done = chunks_of(row_groups@.take(i as int));
                    &&& (#[trigger] out@[k]).0@ == p
                    &&& out@[k].1.compressed_size == path_total(done, p, false)
                    &&& out@[k].1.uncompressed_size == path_total(done, p, true)
                    &&& out@[k].1.wf()
                },
        decreases row_groups@.len() - i,
    {
        let ghost before = chunks_of(row_groups@.take(i as int));
        assert(row_groups@.take(i + 1).drop_last() == row_groups@.take(i as int));
        assert(chunks_of(row_groups@.take(i + 1)) == before + row_groups@[i as int].columns@);
        proof {
            lemma_groups_prefix_total(row_groups@, i + 1, false);
            lemma_groups_prefix_total(row_groups@, i + 1, true);
        }
        let cols = &row_groups[i].columns;
        let mut j: usize = 0;
        while j < cols.len()
            invariant
                i < row_groups@.len(),
                j <= cols@.len(),
                *cols == row_groups@[i as int].columns,
                all == chunks_of(row_groups@),
                all_total(all, false) <= u64::MAX,
                all_total(all, true) <= u64::MAX,
                before == chunks_of(row_groups@.take(i as int)),
                chunks_of(row_groups@.take(i + 1)) == before + cols@,
                all_total(before + cols@, false) <= u64::MAX,
                all_total(before + cols@, true) <= u64::MAX,
                path_keys(set) == first_seen(before + cols@.take(j as int)),
                out@.len() == path_keys(set).len(),
                forall|k: int|
                    0 <= k < out@.len() ==> {
                        let p = path_keys(set)[k];
                        let done = before + cols@.take(j as int);
                        &&& (#[trigger] out@[k]).0@ == p
                        &&& out@[k].1.compressed_size == path_total(done, p, false)
                        &&& out@[k].1.uncompressed_size == path_total(done, p, true)
                        &&& out@[k].1.wf()
                    },
            decreases cols@.len() - j,
        {
            let ghost done = before + cols@.take(j as int);
            let ghost next = before + cols@.take(j + 1);
            assert(next.drop_last() == done);
            assert(next.last() == cols@[j as int]);
            let c = &cols[j];
            let cs = c.compressed_size as u64;
            let us = c.uncompressed_size as u64;
            proof {
                lemma_first_seen_distinct(done);
                lemma_path_total_bounded(next, c.column_path@, false);
                lemma_path_total_bounded(next, c.column_path@, true);
                assert(all_total(next, false) <= u64::MAX) by {
                    assert((before + cols@).take(before.len() + j + 1) == next);
                    lemma_all_total_prefix(before + cols@, before.len() + j + 1, false);
                }
                assert(all_total(next, true) <= u64::MAX) by {
                    assert((before + cols@).take(before.len() + j + 1) == next);
                    lemma_all_total_prefix(before + cols@, before.len() + j + 1, true);
                }
            }
            let ghost old_keys = path_keys(set);
            let (idx, inserted) = insert_path(&mut set, c.column_path.clone());
            if inserted {
                proof {
                    lemma_unseen_total_zero(done, c.column_path@, false);
                    lemma_unseen_total_zero(done, c.column_path@, true);
                }
                out.push((c.column_path.clone(), ColumnSize::new(cs, us)));
            } else {
                let mut sz = out[idx].1;
                let p = out[idx].0.clone();
                sz.add(cs, us);
                out[idx] = (p, sz);
            }
            proof {
                assert forall|k: int| 0 <= k < out@.len() implies {
                    let p = path_keys(set)[k];
                    &&& (#[trigger] out@[k]).0@ == p
                    &&& out@[k].1.compressed_size == path_total(next, p, false)
                    &&& out@[k].1.uncompressed_size == path_total(next, p, true)
                    &&& out@[k].1.wf()
                } by {
                    if k != idx {
                        assert(old_keys[k] != c.column_path@);
                    }
                }
            }
            j = j + 1;
        }
        assert(cols@.take(cols@.len() as int) == cols@);
        i = i + 1;
    }
    assert(row_groups@.take(row_groups@.len() as int) == row_groups@);
    out
}

/// The totals of path `p`, row group by row group.
pub open spec fn group_path_total(gs: Seq<RowGroup>, p: Seq<char>, uncompressed: bool) -> nat
    decreases gs.len(),
{
    if gs.len() == 0 {
        0
    } else {
        group_path_total(gs.drop_last(), p, uncompressed) + path_total(
            gs.last().columns@,
            p,
            uncompressed,
        )
    }
}

proof fn lemma_path_total_concat(
    a: Seq<ColumnChunk>,
    b: Seq<ColumnChunk>,
    p: Seq<char>,
    uncompressed: bool,
)
    ensures
        path_total(a + b, p, uncompressed) == path_total(a, p, uncompressed) + path_total(
            b,
            p,
            uncompressed,
        ),
    decreases b.len(),
{
    if b.len() == 0 {
        assert(a + b == a);
    } else {
        assert((a + b).drop_last() == a + b.drop_last());
        lemma_path_total_concat(a, b.drop_last(), p, uncompressed);
    }
}

proof fn lemma_chunks_total(gs: Seq<RowGroup>, p: Seq<char>, uncompressed: bool)
    ensures
        path_total(chunks_of(gs), p, uncompressed) == group_path_total(gs, p, uncompressed),
    decreases gs.len(),
{
    if gs.len() > 0 {
        lemma_chunks_total(gs.drop_last(), p, uncompressed);
        lemma_path_total_concat(chunks_of(gs.drop_last()), gs.last().columns@, p, uncompressed);
    }
}

proof fn lemma_group_total_remove(gs: Seq<RowGroup>, k: int, p: Seq<char>, uncompressed: bool)
    requires
        0 <= k < gs.len(),
    ensures
        group_path_total(gs, p, uncompressed) == group_path_total(gs.remove(k), p, uncompressed)
            + path_total(gs[k].columns@, p, uncompressed),
    decreases gs.len(),
{
    if k == gs.len() - 1 {
        assert(gs.remove(k) == gs.drop_last());
    } else {
        assert(gs.remove(k).drop_last() == gs.drop_last().remove(k));
        assert(gs.remove(k).last() == gs.last());
        lemma_group_total_remove(gs.drop_last(), k, p, uncompressed);
    }
}

proof fn lemma_group_total_perm(g1: Seq<RowGroup>, g2: Seq<RowGroup>, p: Seq<char>, uncompressed: bool)
    requires
        g1.to_multiset() == g2.to_multiset(),
    ensures
        group_path_total(g1, p, uncompressed) == group_path_total(g2, p, uncompressed),
    decreases g1.len(),
{
    broadcast use vstd::seq_lib::group_to_multiset_ensures;

    if g1.len() == 0 {
        vstd::seq_lib::to_multiset_len(g1);
        vstd::seq_lib::to_multiset_len(g2);
        assert(g2.len() == 0);
    } else {
        let x = g1.last();
        let rest = g1.drop_last();
        assert(g1 == rest.push(x));
        assert(g1.to_multiset() == rest.to_multiset().insert(x));
        assert(g2.to_multiset().count(x) > 0);
        assert(g2.contains(x));
        let k = choose|k: int| 0 <= k < g2.len() && g2[k] == x;
        let g2r = g2.remove(k);
        assert(g2r.to_multiset() == g2.to_multiset().remove(x));
        assert(rest.to_multiset() =~= g2r.to_multiset());
        lemma_group_total_perm(rest, g2r, p, uncompressed);
        lemma_group_total_remove(g2, k, p, uncompressed);
    }
}

/// Folding the row groups in any order gives every column path the same
/// compressed and uncompressed totals: addition does not depend on order.
pub proof fn lemma_totals_ignore_group_order(
    gs1: Seq<RowGroup>,
    gs2: Seq<RowGroup>,
    p: Seq<char>,
    uncompressed: bool,
)
    requires
        gs1.to_multiset() == gs2.to_multiset(),
    ensures
        path_total(chunks_of(gs1), p, uncompressed) == path_total(chunks_of(gs2), p, uncompressed),
{
    lemma_chunks_total(gs1, p, uncompressed);
    lemma_chunks_total(gs2, p, uncompressed);
    lemma_group_total_perm(gs1, gs2, p, uncompressed);
}

} // verus!
