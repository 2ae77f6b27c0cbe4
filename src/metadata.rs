//! A plain model of a table file's metadata, and its rendering as a generic document.

use vstd::prelude::*;
use crate::value::{
    arr_items, embedded_value, embedded_value_ok, entry, has_keys, is_opt_text, is_text, obj_key,
    obj_len, obj_val, opt_int, opt_text, opt_uint, JsonValue,
};

verus! {

/// What the table format's text rendering of a 96-bit integer gives.
pub uninterp spec fn int96_display(a: u32, b: u32, c: u32) -> Seq<char>;

/// What the table format's text rendering of a byte array gives.
pub uninterp spec fn byte_array_display(b: Seq<u8>) -> Seq<char>;

/// Relies on `Display` for parquet::data_type::Int96: the text of its three words.
#[verifier::external_body]
fn int96_text(v: (u32, u32, u32)) -> (r: String)
    ensures
        r@ == int96_display(v.0, v.1, v.2),
{
    let mut x = parquet::data_type::Int96::new();
    x.set_data(v.0, v.1, v.2);
    x.to_string()
}

/// Relies on `Display` for parquet::data_type::ByteArray: the text of its bytes.
/// A fixed-length byte array renders the same way.
#[verifier::external_body]
fn byte_array_text(b: &Vec<u8>) -> (r: String)
    ensures
        r@ == byte_array_display(b@),
{
    parquet::data_type::ByteArray::from(b.clone()).to_string()
}

/// The minimum and maximum of a column chunk, by physical type.
///
/// A 32-bit float is held by its bit pattern, a 64-bit float likewise.
#[derive(Debug, Clone, PartialEq)]
pub enum StatValues {
    Boolean { min: Option<bool>, max: Option<bool> },
    Int32 { min: Option<i32>, max: Option<i32> },
    Int64 { min: Option<i64>, max: Option<i64> },
    Int96 { min: Option<(u32, u32, u32)>, max: Option<(u32, u32, u32)> },
    Float { min: Option<u32>, max: Option<u32> },
    Double { min: Option<u64>, max: Option<u64> },
    ByteArray { min: Option<Vec<u8>>, max: Option<Vec<u8>> },
    FixedLenByteArray { min: Option<Vec<u8>>, max: Option<Vec<u8>> },
}

/// The statistics of one column chunk.
#[derive(Debug, Clone, PartialEq)]
pub struct Statistics {
    pub values: StatValues,
    pub distinct_count: Option<u64>,
    pub null_count: Option<u64>,
    pub is_min_max_deprecated: bool,
}

/// One key/value entry of the file-level metadata.
#[derive(Debug, Clone, PartialEq)]
pub struct KeyValue {
    pub key: String,
    pub value: Option<String>,
}

/// The metadata of one column chunk.
#[derive(Debug, Clone, PartialEq)]
pub struct ColumnChunk {
    pub column_type: String,
    pub column_path: String,
    pub encodings: Vec<String>,
    pub file_path: Option<String>,
    pub file_offset: i64,
    pub num_values: i64,
    pub compression: String,
    pub compressed_size: i64,
    pub uncompressed_size: i64,
    pub data_page_offset: i64,
    pub index_page_offset: Option<i64>,
    pub dictionary_page_offset: Option<i64>,
    pub statistics: Option<Statistics>,
    pub bloom_filter_offset: Option<i64>,
    pub bloom_filter_length: Option<i32>,
    pub offset_index_offset: Option<i64>,
    pub offset_index_length: Option<i32>,
    pub column_index_offset: Option<i64>,
    pub column_index_length: Option<i32>,
}

/// The metadata of one row group; its columns are in chunk order.
#[derive(Debug, Clone, PartialEq)]
pub struct RowGroup {
    pub ordinal: Option<i32>,
    pub total_byte_size: i64,
    pub num_rows: i64,
    pub columns: Vec<ColumnChunk>,
}

/// The file-level metadata.
#[derive(Debug, Clone, PartialEq)]
pub struct FileMetaData {
    pub version: i32,
    pub num_rows: i64,
    pub created_by: Option<String>,
    pub key_value_metadata: Option<Vec<KeyValue>>,
}

/// The whole metadata of a table file; row groups are in file order.
#[derive(Debug, Clone, PartialEq)]
pub struct ParquetMetaData {
    pub file_metadata: FileMetaData,
    pub row_groups: Vec<RowGroup>,
}

pub open spec fn opt_view(o: Option<String>) -> Option<Seq<char>> {
    match o {
        Some(s) => Some(s@),
        None => None,
    }
}

pub open spec fn int_or_null(o: Option<i64>) -> JsonValue {
    match o {
        Some(x) => JsonValue::Int(x),
        None => JsonValue::Null,
    }
}

pub open spec fn uint_or_null(o: Option<u64>) -> JsonValue {
    match o {
        Some(x) => JsonValue::UInt(x),
        None => JsonValue::Null,
    }
}

pub open spec fn i32_or_null(o: Option<i32>) -> JsonValue {
    match o {
        Some(x) => JsonValue::Int(x as i64),
        None => JsonValue::Null,
    }
}

/// The rendered minimum (`pick_min`) or maximum of a set of statistics values:
/// numbers and booleans as themselves, 96-bit integers and byte arrays as text,
/// null where the bound is absent.
pub open spec fn bound_ok(v: JsonValue, s: StatValues, pick_min: bool) -> bool {
    match s {
        StatValues::Boolean { min, max } => {
            let b = if pick_min { min } else { max };
            v == (match b { Some(x) => JsonValue::Bool(x), None => JsonValue::Null })
        },
        StatValues::Int32 { min, max } => v == i32_or_null(if pick_min { min } else { max }),
        StatValues::Int64 { min, max } => v == int_or_null(if pick_min { min } else { max }),
        StatValues::Int96 { min, max } => {
            let b = if pick_min { min } else { max };
            match b {
                Some(x) => is_text(v, int96_display(x.0, x.1, x.2)),
                None => v == JsonValue::Null,
            }
        },
        StatValues::Float { min, max } => {
            let b = if pick_min { min } else { max };
            v == (match b { Some(x) => JsonValue::Float32Bits(x), None => JsonValue::Null })
        },
        StatValues::Double { min, max } => {
            let b = if pick_min { min } else { max };
            v == (match b { Some(x) => JsonValue::Float64Bits(x), None => JsonValue::Null })
        },
        StatValues::ByteArray { min, max } | StatValues::FixedLenByteArray { min, max } => {
            let b = if pick_min { min } else { max };
            match b {
                Some(x) => is_text(v, byte_array_display(x@)),
                None => v == JsonValue::Null,
            }
        },
    }
}

pub open spec fn statistics_keys() -> Seq<Seq<char>> {
    seq!["min"@, "max"@, "distinct_count"@, "null_count"@, "is_min_max_deprecated"@]
}

/// The document of one set of statistics.
pub open spec fn statistics_doc_ok(v: JsonValue, s: Statistics) -> bool {
    &&& has_keys(v, statistics_keys())
    &&& bound_ok(obj_val(v, 0), s.values, true)
    &&& bound_ok(obj_val(v, 1), s.values, false)
    &&& obj_val(v, 2) == uint_or_null(s.distinct_count)
    &&& obj_val(v, 3) == uint_or_null(s.null_count)
    &&& obj_val(v, 4) == JsonValue::Bool(s.is_min_max_deprecated)
}

fn int96_bound(b: &Option<(u32, u32, u32)>) -> (r: JsonValue)
    ensures
        match b {
            Some(x) => is_text(r, int96_display(x.0, x.1, x.2)),
            None => r == JsonValue::Null,
        },
{
    match b {
        Some(x) => JsonValue::Text(int96_text(*x)),
        None => JsonValue::Null,
    }
}

fn bytes_bound(b: &Option<Vec<u8>>) -> (r: JsonValue)
    ensures
        match b {
            Some(x) => is_text(r, byte_array_display(x@)),
            None => r == JsonValue::Null,
        },
{
    match b {
        Some(x) => JsonValue::Text(byte_array_text(x)),
        None => JsonValue::Null,
    }
}

fn bool_bound(b: Option<bool>) -> (r: JsonValue)
    ensures
        r == (match b { Some(x) => JsonValue::Bool(x), None => JsonValue::Null }),
{
    match b {
        Some(x) => JsonValue::Bool(x),
        None => JsonValue::Null,
    }
}

fn i32_bound(b: Option<i32>) -> (r: JsonValue)
    ensures
        r == i32_or_null(b),
{
    match b {
        Some(x) => JsonValue::Int(x as i64),
        None => JsonValue::Null,
    }
}

fn f32_bound(b: Option<u32>) -> (r: JsonValue)
    ensures
        r == (match b { Some(x) => JsonValue::Float32Bits(x), None => JsonValue::Null }),
{
    match b {
        Some(x) => JsonValue::Float32Bits(x),
        None => JsonValue::Null,
    }
}

fn f64_bound(b: Option<u64>) -> (r: JsonValue)
    ensures
        r == (match b { Some(x) => JsonValue::Float64Bits(x), None => JsonValue::Null }),
{
    match b {
        Some(x) => JsonValue::Float64Bits(x),
        None => JsonValue::Null,
    }
}

impl Statistics {
    /// Renders the statistics as an object with `min`, `max`, `distinct_count`,
    /// `null_count` and `is_min_max_deprecated`, in that order.
    pub fn to_json_value(&self) -> (r: JsonValue)
        ensures
            statistics_doc_ok(r, *self),
    {
        let (min, max) = match &self.values {
            StatValues::Boolean { min, max } => (bool_bound(*min), bool_bound(*max)),
            StatValues::Int32 { min, max } => (i32_bound(*min), i32_bound(*max)),
            StatValues::Int64 { min, max } => (opt_int(*min), opt_int(*max)),
            StatValues::Int96 { min, max } => (int96_bound(min), int96_bound(max)),
            StatValues::Float { min, max } => (f32_bound(*min), f32_bound(*max)),
            StatValues::Double { min, max } => (f64_bound(*min), f64_bound(*max)),
            StatValues::ByteArray { min, max } => (bytes_bound(min), bytes_bound(max)),
            StatValues::FixedLenByteArray { min, max } => (bytes_bound(min), bytes_bound(max)),
        };
        let mut es: Vec<(String, JsonValue)> = Vec::new();
        es.push(entry("min", min));
        es.push(entry("max", max));
        es.push(entry("distinct_count", opt_uint(self.distinct_count)));
        es.push(entry("null_count", opt_uint(self.null_count)));
        es.push(entry("is_min_max_deprecated", JsonValue::Bool(self.is_min_max_deprecated)));
        let r = JsonValue::Object(es);
        assert(obj_key(r, 0) == statistics_keys()[0]);
        assert(obj_key(r, 1) == statistics_keys()[1]);
        assert(obj_key(r, 2) == statistics_keys()[2]);
        assert(obj_key(r, 3) == statistics_keys()[3]);
        assert(obj_key(r, 4) == statistics_keys()[4]);
        r
    }
}

pub open spec fn column_keys() -> Seq<Seq<char>> {
    seq![
        "column_type"@, "column_path"@, "encodings"@, "file_path"@, "file_offset"@,
        "num_values"@, "compression"@, "compressed_size"@, "uncompressed_size"@,
        "data_page_offset"@, "index_page_offset"@, "dict_page_offset"@, "statistics"@,
        "bloomfilter_offset"@, "bloomfilter_length"@, "offset_index_offset"@,
        "offset_index_length"@, "column_index_offset"@, "column_index_length"@,
    ]
}

/// `v` is an array of the texts `ts`, in order.
pub open spec fn text_array_ok(v: JsonValue, ts: Seq<String>) -> bool {
    &&& v is Array
    &&& arr_items(v).len() == ts.len()
    &&& forall|i: int| 0 <= i < ts.len() ==> is_text(#[trigger] arr_items(v)[i], ts[i]@)
}

/// The document of one column chunk: its fields in a fixed order, statistics
/// rendered as by `Statistics::to_json_value` or null where absent.
pub open spec fn column_doc_ok(v: JsonValue, c: ColumnChunk) -> bool {
    &&& has_keys(v, column_keys())
    &&& is_text(obj_val(v, 0), c.column_type@)
    &&& is_text(obj_val(v, 1), c.column_path@)
    &&& text_array_ok(obj_val(v, 2), c.encodings@)
    &&& is_opt_text(obj_val(v, 3), opt_view(c.file_path))
    &&& obj_val(v, 4) == JsonValue::Int(c.file_offset)
    &&& obj_val(v, 5) == JsonValue::Int(c.num_values)
    &&& is_text(obj_val(v, 6), c.compression@)
    &&& obj_val(v, 7) == JsonValue::Int(c.compressed_size)
    &&& obj_val(v, 8) == JsonValue::Int(c.uncompressed_size)
    &&& obj_val(v, 9) == JsonValue::Int(c.data_page_offset)
    &&& obj_val(v, 10) == int_or_null(c.index_page_offset)
    &&& obj_val(v, 11) == int_or_null(c.dictionary_page_offset)
    &&& match c.statistics {
        Some(s) => statistics_doc_ok(obj_val(v, 12), s),
        None => obj_val(v, 12) == JsonValue::Null,
    }
    &&& obj_val(v, 13) == int_or_null(c.bloom_filter_offset)
    &&& obj_val(v, 14) == i32_or_null(c.bloom_filter_length)
    &&& obj_val(v, 15) == int_or_null(c.offset_index_offset)
    &&& obj_val(v, 16) == i32_or_null(c.offset_index_length)
    &&& obj_val(v, 17) == int_or_null(c.column_index_offset)
    &&& obj_val(v, 18) == i32_or_null(c.column_index_length)
}

fn text_array(ts: &Vec<String>) -> (r: JsonValue)
    ensures
        text_array_ok(r, ts@),
{
    let mut items: Vec<JsonValue> = Vec::new();
    let mut i: usize = 0;
    while i < ts.len()
        invariant
            i <= ts.len(),
            items@.len() == i,
            forall|k: int| 0 <= k < i ==> is_text(#[trigger] items@[k], ts@[k]@),
        decreases ts.len() - i,
    {
        items.push(JsonValue::Text(ts[i].clone()));
        i = i + 1;
    }
    JsonValue::Array(items)
}

fn opt_i32(o: Option<i32>) -> (r: JsonValue)
    ensures
        r == i32_or_null(o),
{
    match o {
        Some(x) => JsonValue::Int(x as i64),
        None => JsonValue::Null,
    }
}

impl ColumnChunk {
    /// Renders the column chunk's metadata as an object with its fields in a fixed order.
    pub fn to_json_value(&self) -> (r: JsonValue)
        ensures
            column_doc_ok(r, *self),
    {
        let statistics = match &self.statistics {
            Some(s) => s.to_json_value(),
            None => JsonValue::Null,
        };
        let mut es: Vec<(String, JsonValue)> = Vec::new();
        es.push(entry("column_type", JsonValue::Text(self.column_type.clone())));
        es.push(entry("column_path", JsonValue::Text(self.column_path.clone())));
        es.push(entry("encodings", text_array(&self.encodings)));
        es.push(entry("file_path", opt_text(&self.file_path)));
        es.push(entry("file_offset", JsonValue::Int(self.file_offset)));
        es.push(entry("num_values", JsonValue::Int(self.num_values)));
        es.push(entry("compression", JsonValue::Text(self.compression.clone())));
        es.push(entry("compressed_size", JsonValue::Int(self.compressed_size)));
        es.push(entry("uncompressed_size", JsonValue::Int(self.uncompressed_size)));
        es.push(entry("data_page_offset", JsonValue::Int(self.data_page_offset)));
        es.push(entry("index_page_offset", opt_int(self.index_page_offset)));
        es.push(entry("dict_page_offset", opt_int(self.dictionary_page_offset)));
        es.push(entry("statistics", statistics));
        es.push(entry("bloomfilter_offset", opt_int(self.bloom_filter_offset)));
        es.push(entry("bloomfilter_length", opt_i32(self.bloom_filter_length)));
        es.push(entry("offset_index_offset", opt_int(self.offset_index_offset)));
        es.push(entry("offset_index_length", opt_i32(self.offset_index_length)));
        es.push(entry("column_index_offset", opt_int(self.column_index_offset)));
        es.push(entry("column_index_length", opt_i32(self.column_index_length)));
        let r = JsonValue::Object(es);
        assert forall|i: int| 0 <= i < column_keys().len() implies #[trigger] obj_key(r, i)
            == column_keys()[i] by {
            assert(es@[i].0@ == column_keys()[i]);
        }
        r
    }
}

pub open spec fn row_group_keys() -> Seq<Seq<char>> {
    seq!["ordinal"@, "total_byte_size"@, "num_rows"@, "num_columns"@, "columns"@]
}

/// The document of one row group: its fields, then its column chunks in chunk order.
pub open spec fn row_group_doc_ok(v: JsonValue, g: RowGroup) -> bool {
    &&& has_keys(v, row_group_keys())
    &&& obj_val(v, 0) == i32_or_null(g.ordinal)
    &&& obj_val(v, 1) == JsonValue::Int(g.total_byte_size)
    &&& obj_val(v, 2) == JsonValue::Int(g.num_rows)
    &&& obj_val(v, 3) == JsonValue::UInt(g.columns@.len() as u64)
    &&& obj_val(v, 4) is Array
    &&& arr_items(obj_val(v, 4)).len() == g.columns@.len()
    &&& forall|i: int|
        0 <= i < g.columns@.len() ==> column_doc_ok(#[trigger] arr_items(obj_val(v, 4))[i], g.columns@[i])
}

impl RowGroup {
    /// Renders the row group's metadata, with its column chunks in chunk order.
    pub fn to_json_value(&self) -> (r: JsonValue)
        ensures
            row_group_doc_ok(r, *self),
    {
        let mut cols: Vec<JsonValue> = Vec::new();
        let mut i: usize = 0;
        while i < self.columns.len()
            invariant
                i <= self.columns@.len(),
                cols@.len() == i,
                forall|k: int| 0 <= k < i ==> column_doc_ok(#[trigger] cols@[k], self.columns@[k]),
            decreases self.columns@.len() - i,
        {
            cols.push(self.columns[i].to_json_value());
            i = i + 1;
        }
        let mut es: Vec<(String, JsonValue)> = Vec::new();
        es.push(entry("ordinal", opt_i32(self.ordinal)));
        es.push(entry("total_byte_size", JsonValue::Int(self.total_byte_size)));
        es.push(entry("num_rows", JsonValue::Int(self.num_rows)));
        es.push(entry("num_columns", JsonValue::UInt(self.columns.len() as u64)));
        es.push(entry("columns", JsonValue::Array(cols)));
        let r = JsonValue::Object(es);
        assert forall|i: int| 0 <= i < row_group_keys().len() implies #[trigger] obj_key(r, i)
            == row_group_keys()[i] by {
            assert(es@[i].0@ == row_group_keys()[i]);
        }
        r
    }
}

/// Whether some entry of `acc` has the key `k`.
pub open spec fn has_key(acc: Seq<(Seq<char>, Seq<char>)>, k: Seq<char>) -> bool {
    exists|i: int| 0 <= i < acc.len() && (#[trigger] acc[i]).0 == k
}

/// One step of gathering key/value entries: an entry without a value is skipped,
/// a key seen before takes the new value in its old place, a new key goes last.
pub open spec fn kv_step(acc: Seq<(Seq<char>, Seq<char>)>, kv: KeyValue) -> Seq<(Seq<char>, Seq<char>)> {
    match kv.value {
        None => acc,
        Some(val) => if has_key(acc, kv.key@) {
            Seq::new(acc.len(), |i: int| if acc[i].0 == kv.key@ { (kv.key@, val@) } else { acc[i] })
        } else {
            acc.push((kv.key@, val@))
        },
    }
}

/// The key/value entries that have a value, each key once with its last value,
/// keys in order of first appearance.
pub open spec fn kv_pairs(kvs: Seq<KeyValue>) -> Seq<(Seq<char>, Seq<char>)>
    decreases kvs.len(),
{
    if kvs.len() == 0 {
        Seq::empty()
    } else {
        kv_step(kv_pairs(kvs.drop_last()), kvs.last())
    }
}

/// `v` is an object holding `pairs`, each value re-parsed as an embedded document.
pub open spec fn kv_doc_ok(v: JsonValue, pairs: Seq<(Seq<char>, Seq<char>)>) -> bool {
    &&& v is Object
    &&& obj_len(v) == pairs.len()
    &&& forall|i: int| 0 <= i < pairs.len() ==> #[trigger] obj_key(v, i) == pairs[i].0
        && embedded_value_ok(obj_val(v, i), pairs[i].1)
}

pub open spec fn kv_list(o: Option<Vec<KeyValue>>) -> Seq<KeyValue> {
    match o {
        Some(v) => v@,
        None => Seq::empty(),
    }
}

/// Gathers the file's key/value metadata into an object; a value that parses as a
/// document is kept as that document, any other value as its text.
pub fn key_value_document(kvs: &Vec<KeyValue>) -> (r: JsonValue)
    ensures
        kv_doc_ok(r, kv_pairs(kvs@)),
{
    let mut out: Vec<(String, JsonValue)> = Vec::new();
    let mut i: usize = 0;
    while i < kvs.len()
        invariant
            i <= kvs@.len(),
            kv_doc_ok(JsonValue::Object(out), kv_pairs(kvs@.take(i as int))),
        decreases kvs@.len() - i,
    {
        let ghost acc = kv_pairs(kvs@.take(i as int));
        assert(kvs@.take(i + 1).drop_last() == kvs@.take(i as int));
        let kv = &kvs[i];
        match &kv.value {
            None => {},
            Some(val) => {
                let ghost old_out = out@;
                assert forall|k: int| 0 <= k < acc.len() implies #[trigger] out@[k].0@ == acc[k].0 by {
                    assert(obj_key(JsonValue::Object(out), k) == acc[k].0);
                }
                assert forall|k: int| 0 <= k < acc.len() implies embedded_value_ok(
                    #[trigger] old_out[k].1,
                    acc[k].1,
                ) by {
                    assert(obj_key(JsonValue::Object(out), k) == acc[k].0);
                }
                let mut found = false;
                let mut j: usize = 0;
                while j < out.len()
                    invariant
                        j <= out@.len(),
                        out@.len() == old_out.len(),
                        old_out.len() == acc.len(),
                        forall|k: int| 0 <= k < acc.len() ==> #[trigger] out@[k].0@ == acc[k].0,
                        forall|k: int| j <= k < acc.len() ==> #[trigger] out@[k] == old_out[k],
                        forall|k: int| 0 <= k < acc.len() ==> embedded_value_ok(#[trigger] old_out[k].1, acc[k].1),
                        forall|k: int| 0 <= k < j ==> embedded_value_ok(#[trigger] out@[k].1,
                            if acc[k].0 == kv.key@ { val@ } else { acc[k].1 }),
                        found == (exists|k: int| 0 <= k < j && (#[trigger] acc[k]).0 == kv.key@),
                    decreases out@.len() - j,
                {
                    if out[j].0 == kv.key {
                        out[j] = (kv.key.clone(), embedded_value(val));
                        found = true;
                    }
                    j = j + 1;
                }
                if !found {
                    out.push((kv.key.clone(), embedded_value(val)));
                }
                proof {
                    let next = kv_step(acc, *kv);
                    assert(next == kv_pairs(kvs@.take(i + 1)));
                    if found {
                        assert(has_key(acc, kv.key@));
                    } else {
                        assert(!has_key(acc, kv.key@));
                    }
                    assert forall|k: int| 0 <= k < next.len() implies #[trigger] obj_key(
                        JsonValue::Object(out),
                        k,
                    ) == next[k].0 && embedded_value_ok(obj_val(JsonValue::Object(out), k), next[k].1) by {
                        if k < acc.len() {
                            assert(embedded_value_ok(old_out[k].1, acc[k].1));
                        }
                    }
                }
            },
        }
        i = i + 1;
    }
    assert(kvs@.take(kvs@.len() as int) == kvs@);
    JsonValue::Object(out)
}

pub open spec fn file_keys() -> Seq<Seq<char>> {
    seq!["version"@, "num_rows"@, "created_by"@, "metadata"@]
}

/// The document of the file-level metadata.
pub open spec fn file_doc_ok(v: JsonValue, f: FileMetaData) -> bool {
    &&& has_keys(v, file_keys())
    &&& obj_val(v, 0) == JsonValue::Int(f.version as i64)
    &&& obj_val(v, 1) == JsonValue::Int(f.num_rows)
    &&& is_opt_text(obj_val(v, 2), opt_view(f.created_by))
    &&& kv_doc_ok(obj_val(v, 3), kv_pairs(kv_list(f.key_value_metadata)))
}

impl FileMetaData {
    /// Renders the file-level metadata; the key/value entries become one object.
    pub fn to_json_value(&self) -> (r: JsonValue)
        ensures
            file_doc_ok(r, *self),
    {
        let kvs = match &self.key_value_metadata {
            Some(kvs) => key_value_document(kvs),
            None => {
                let empty: Vec<(String, JsonValue)> = Vec::new();
                JsonValue::Object(empty)
            },
        };
        let mut es: Vec<(String, JsonValue)> = Vec::new();
        es.push(entry("version", JsonValue::Int(self.version as i64)));
        es.push(entry("num_rows", JsonValue::Int(self.num_rows)));
        es.push(entry("created_by", opt_text(&self.created_by)));
        es.push(entry("metadata", kvs));
        let r = JsonValue::Object(es);
        assert forall|i: int| 0 <= i < file_keys().len() implies #[trigger] obj_key(r, i)
            == file_keys()[i] by {
            assert(es@[i].0@ == file_keys()[i]);
        }
        r
    }
}

pub open spec fn metadata_keys() -> Seq<Seq<char>> {
    seq!["file_metadata"@, "num_row_groups"@, "row_groups"@]
}

/// The document of a whole file's metadata: the file-level part, the number of
/// row groups, then the row groups in file order.
pub open spec fn metadata_doc_ok(v: JsonValue, m: ParquetMetaData) -> bool {
    &&& has_keys(v, metadata_keys())
    &&& file_doc_ok(obj_val(v, 0), m.file_metadata)
    &&& obj_val(v, 1) == JsonValue::UInt(m.row_groups@.len() as u64)
    &&& obj_val(v, 2) is Array
    &&& arr_items(obj_val(v, 2)).len() == m.row_groups@.len()
    &&& forall|i: int|
        0 <= i < m.row_groups@.len() ==> row_group_doc_ok(
            #[trigger] arr_items(obj_val(v, 2))[i],
            m.row_groups@[i],
        )
}

impl ParquetMetaData {
    /// Renders the whole metadata tree as one document.
    pub fn to_json_value(&self) -> (r: JsonValue)
        ensures
            metadata_doc_ok(r, *self),
    {
        let mut groups: Vec<JsonValue> = Vec::new();
        let mut i: usize = 0;
        while i < self.row_groups.len()
            invariant
                i <= self.row_groups@.len(),
                groups@.len() == i,
                forall|k: int|
                    0 <= k < i ==> row_group_doc_ok(#[trigger] groups@[k], self.row_groups@[k]),
            decreases self.row_groups@.len() - i,
        {
            groups.push(self.row_groups[i].to_json_value());
            i = i + 1;
        }
        let mut es: Vec<(String, JsonValue)> = Vec::new();
        es.push(entry("file_metadata", self.file_metadata.to_json_value()));
        es.push(entry("num_row_groups", JsonValue::UInt(self.row_groups.len() as u64)));
        es.push(entry("row_groups", JsonValue::Array(groups)));
        let r = JsonValue::Object(es);
        assert forall|i: int| 0 <= i < metadata_keys().len() implies #[trigger] obj_key(r, i)
            == metadata_keys()[i] by {
            assert(es@[i].0@ == metadata_keys()[i]);
        }
        r
    }
}

} // verus!
