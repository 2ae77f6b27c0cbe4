//! Read-only operations over one file's captured metadata snapshot.

use vstd::prelude::*;
use crate::metadata::{metadata_doc_ok, ColumnChunk, ParquetMetaData, RowGroup};
use crate::projection::{project_fields, selected, texts};
use crate::sizes::{all_total, chunks_of, column_sizes, first_seen, path_total, ColumnSize};
use crate::value::JsonValue;

verus! {

/// The sum of the row counts of the row groups.
pub open spec fn rows_total(gs: Seq<RowGroup>) -> int
    decreases gs.len(),
{
    if gs.len() == 0 {
        0
    } else {
        rows_total(gs.drop_last()) + gs.last().num_rows
    }
}

/// The sum of the compressed sizes of a row group's column chunks.
pub open spec fn group_compressed(cs: Seq<ColumnChunk>) -> int
    decreases cs.len(),
{
    if cs.len() == 0 {
        0
    } else {
        group_compressed(cs.drop_last()) + cs.last().compressed_size
    }
}

/// The size of a row group: its total byte size when `uncompressed`, else the
/// sum of its chunks' compressed sizes.
pub open spec fn group_size(g: RowGroup, uncompressed: bool) -> int {
    if uncompressed {
        g.total_byte_size as int
    } else {
        group_compressed(g.columns@)
    }
}

/// The sum of the sizes of the row groups.
pub open spec fn size_total(gs: Seq<RowGroup>, uncompressed: bool) -> int
    decreases gs.len(),
{
    if gs.len() == 0 {
        0
    } else {
        size_total(gs.drop_last(), uncompressed) + group_size(gs.last(), uncompressed)
    }
}

pub open spec fn fits_i64(x: int) -> bool {
    i64::MIN <= x <= i64::MAX
}

/// Owns the metadata snapshot of one file and the names of its top-level fields.
pub struct Inspector {
    pub metadata: ParquetMetaData,
    pub field_names: Vec<String>,
}

impl Inspector {
    /// Captures a file's metadata and its top-level field names, in schema order.
    pub fn new(metadata: ParquetMetaData, field_names: Vec<String>) -> (r: Inspector)
        ensures
            r.metadata == metadata,
            r.field_names == field_names,
    {
        Inspector { metadata, field_names }
    }

    /// The number of rows: the sum of the row groups' row counts in the snapshot.
    pub fn row_count(&self) -> (r: i64)
        requires
            fits_i64(rows_total(self.metadata.row_groups@)),
        ensures
            r == rows_total(self.metadata.row_groups@),
    {
        let gs = &self.metadata.row_groups;
        let mut acc: i128 = 0;
        let mut i: usize = 0;
        while i < gs.len()
            invariant
                i <= gs@.len(),
                acc == rows_total(gs@.take(i as int)),
                -(i as int) * 0x8000_0000_0000_0000 <= acc <= (i as int) * 0x8000_0000_0000_0000,
            decreases gs@.len() - i,
        {
            assert(gs@.take(i + 1).drop_last() == gs@.take(i as int));
            acc = acc + gs[i].num_rows as i128;
            i = i + 1;
        }
        assert(gs@.take(gs@.len() as int) == gs@);
        acc as i64
    }

    /// The file size in bytes: the row groups' total byte sizes when
    /// `uncompressed`, else the sums of their chunks' compressed sizes.
    pub fn total_size(&self, uncompressed: bool) -> (r: i64)
        requires
            forall|k: int|
                0 <= k < self.metadata.row_groups@.len() ==> fits_i64(
                    #[trigger] group_size(self.metadata.row_groups@[k], uncompressed),
                ),
            fits_i64(size_total(self.metadata.row_groups@, uncompressed)),
        ensures
            r == size_total(self.metadata.row_groups@, uncompressed),
    {
        let gs = &self.metadata.row_groups;
        let mut acc: i128 = 0;
        let mut i: usize = 0;
        while i < gs.len()
            invariant
                i <= gs@.len(),
                acc == size_total(gs@.take(i as int), uncompressed),
                -(i as int) * 0x8000_0000_0000_0000 <= acc <= (i as int) * 0x8000_0000_0000_0000,
                forall|k: int| 0 <= k < gs@.len() ==> fits_i64(#[trigger] group_size(gs@[k], uncompressed)),
            decreases gs@.len() - i,
        {
            assert(gs@.take(i + 1).drop_last() == gs@.take(i as int));
            let s = if uncompressed {
                gs[i].total_byte_size as i128
            } else {
                compressed_sum(&gs[i].columns)
            };
            assert(fits_i64(group_size(gs@[i as int], uncompressed)));
            acc = acc + s;
            i = i + 1;
        }
        assert(gs@.take(gs@.len() as int) == gs@);
        acc as i64
    }

    /// The per-column totals, paths in order of first appearance.
    pub fn column_sizes(&self) -> (r: Vec<(String, ColumnSize)>)
        requires
            all_total(chunks_of(self.metadata.row_groups@), false) <= u64::MAX,
            all_total(chunks_of(self.metadata.row_groups@), true) <= u64::MAX,
        ensures
            r@.len() == first_seen(chunks_of(self.metadata.row_groups@)).len(),
            forall|k: int|
                0 <= k < r@.len() ==> {
                    let cs = chunks_of(self.metadata.row_groups@);
                    let p = first_seen(cs)[k];
                    &&& (#[trigger] r@[k]).0@ == p
                    &&& r@[k].1.compressed_size == path_total(cs, p, false)
                    &&& r@[k].1.uncompressed_size == path_total(cs, p, true)
                    &&& r@[k].1.wf()
                },
    {
        column_sizes(&self.metadata.row_groups)
    }

    /// The whole metadata snapshot as one document.
    pub fn metadata_value(&self) -> (r: JsonValue)
        ensures
            metadata_doc_ok(r, self.metadata),
    {
        self.metadata.to_json_value()
    }

    /// The projection a preview reads with: none when no column is requested,
    /// else the positions of the requested top-level fields, in schema order.
    pub fn projection(&self, columns: &Vec<String>) -> (r: Option<Vec<usize>>)
        ensures
            columns@.len() == 0 ==> r.is_none(),
            columns@.len() > 0 ==> r.is_some() && r.unwrap()@ == selected(
                texts(self.field_names@),
                columns@,
                self.field_names@.len() as int,
            ),
    {
        if columns.len() == 0 {
            None
        } else {
            Some(project_fields(&self.field_names, columns))
        }
    }
}

/// The sum of the compressed sizes of a row group's chunks, exactly.
fn compressed_sum(cs: &Vec<ColumnChunk>) -> (r: i128)
    ensures
        r == group_compressed(cs@),
        -(cs@.len() as int) * 0x8000_0000_0000_0000 <= r <= (cs@.len() as int)
            * 0x8000_0000_0000_0000,
{
    let mut acc: i128 = 0;
    let mut j: usize = 0;
    while j < cs.len()
        invariant
            j <= cs@.len(),
            acc == group_compressed(cs@.take(j as int)),
            -(j as int) * 0x8000_0000_0000_0000 <= acc <= (j as int) * 0x8000_0000_0000_0000,
        decreases cs@.len() - j,
    {
        assert(cs@.take(j + 1).drop_last() == cs@.take(j as int));
        acc = acc + cs[j].compressed_size as i128;
        j = j + 1;
    }
    assert(cs@.take(cs@.len() as int) == cs@);
    acc
}

} // verus!
