use parquet_rcli::inspector::Inspector;
use parquet_rcli::metadata::{
    key_value_document, ColumnChunk, FileMetaData, KeyValue, ParquetMetaData, RowGroup, StatValues,
    Statistics,
};
use parquet_rcli::modifier::{CliError, Modifier, SchemaField};
use parquet_rcli::projection::{keep_pulling, project_fields};
use parquet_rcli::sizes::{column_sizes, ColumnSize, Ratio};
use parquet_rcli::value::{embedded_value, JsonValue};

fn chunk(path: &str, compressed: i64, uncompressed: i64) -> ColumnChunk {
    ColumnChunk {
        column_type: "INT32".to_string(),
        column_path: path.to_string(),
        encodings: vec!["PLAIN".to_string(), "RLE".to_string()],
        file_path: None,
        file_offset: 4,
        num_values: 10,
        compression: "SNAPPY".to_string(),
        compressed_size: compressed,
        uncompressed_size: uncompressed,
        data_page_offset: 4,
        index_page_offset: None,
        dictionary_page_offset: Some(8),
        statistics: None,
        bloom_filter_offset: None,
        bloom_filter_length: None,
        offset_index_offset: None,
        offset_index_length: None,
        column_index_offset: None,
        column_index_length: Some(12),
    }
}

fn group(num_rows: i64, total: i64, columns: Vec<ColumnChunk>) -> RowGroup {
    RowGroup { ordinal: Some(0), total_byte_size: total, num_rows, columns }
}

fn metadata(groups: Vec<RowGroup>) -> ParquetMetaData {
    ParquetMetaData {
        file_metadata: FileMetaData {
            version: 1,
            num_rows: groups.iter().map(|g| g.num_rows).sum(),
            created_by: Some("writer".to_string()),
            key_value_metadata: None,
        },
        row_groups: groups,
    }
}

fn field(name: &str, ty: &str) -> SchemaField {
    SchemaField { name: name.to_string(), data_type: ty.to_string(), nullable: true }
}

fn strings(xs: &[&str]) -> Vec<String> {
    xs.iter().map(|s| s.to_string()).collect()
}

fn keys(v: &JsonValue) -> Vec<String> {
    match v {
        JsonValue::Object(es) => es.iter().map(|e| e.0.clone()).collect(),
        _ => panic!("not an object"),
    }
}

fn get<'a>(v: &'a JsonValue, key: &str) -> &'a JsonValue {
    match v {
        JsonValue::Object(es) => &es.iter().find(|e| e.0 == key).unwrap().1,
        _ => panic!("not an object"),
    }
}

#[test]
fn column_size_ratio_present_only_when_both_nonzero() {
    let s = ColumnSize::new(10, 40);
    assert_eq!(s.compression_ratio, Some(Ratio { numerator: 10, denominator: 40 }));
    let z = ColumnSize::new(0, 40);
    assert_eq!(z.compression_ratio, None);
    let mut w = ColumnSize::new(0, 0);
    w.add(5, 0);
    assert_eq!(w.compression_ratio, None);
    w.add(0, 20);
    assert_eq!(w.compressed_size, 5);
    assert_eq!(w.uncompressed_size, 20);
    assert_eq!(w.compression_ratio, Some(Ratio { numerator: 5, denominator: 20 }));
}

#[test]
fn column_sizes_fold_in_first_seen_order() {
    let gs = vec![
        group(2, 100, vec![chunk("b", 10, 20), chunk("a", 1, 2)]),
        group(3, 200, vec![chunk("a", 3, 4), chunk("b", 5, 6), chunk("c.d", 0, 7)]),
    ];
    let r = column_sizes(&gs);
    let paths: Vec<&str> = r.iter().map(|e| e.0.as_str()).collect();
    assert_eq!(paths, vec!["b", "a", "c.d"]);
    assert_eq!(r[0].1, ColumnSize::new(15, 26));
    assert_eq!(r[1].1.compressed_size, 4);
    assert_eq!(r[1].1.uncompressed_size, 6);
    assert_eq!(r[1].1.compression_ratio, Some(Ratio { numerator: 4, denominator: 6 }));
    assert_eq!(r[2].1.compression_ratio, None);
}

#[test]
fn column_sizes_of_no_row_groups_is_empty() {
    assert!(column_sizes(&Vec::new()).is_empty());
}

#[test]
fn column_sizes_totals_ignore_row_group_order() {
    let g1 = group(2, 100, vec![chunk("x", 10, 20), chunk("y", 1, 2)]);
    let g2 = group(3, 200, vec![chunk("y", 3, 4), chunk("x", 5, 6)]);
    let a = column_sizes(&vec![g1.clone(), g2.clone()]);
    let b = column_sizes(&vec![g2, g1]);
    for (p, s) in &a {
        let t = &b.iter().find(|e| &e.0 == p).unwrap().1;
        assert_eq!(s, t);
    }
    assert_eq!(a.len(), b.len());
    assert_eq!(a[0].0, "x");
    assert_eq!(b[0].0, "y");
}

#[test]
fn row_count_sums_row_groups() {
    let m = metadata(vec![group(2, 100, vec![]), group(5, 50, vec![]), group(0, 1, vec![])]);
    let ins = Inspector::new(m, strings(&["x"]));
    assert_eq!(ins.row_count(), 7);
    let empty = Inspector::new(metadata(vec![]), vec![]);
    assert_eq!(empty.row_count(), 0);
}

#[test]
fn total_size_compressed_and_uncompressed_differ() {
    let m = metadata(vec![
        group(2, 100, vec![chunk("a", 10, 20), chunk("b", 1, 2)]),
        group(3, 200, vec![chunk("a", 3, 4)]),
    ]);
    let ins = Inspector::new(m, vec![]);
    assert_eq!(ins.total_size(true), 300);
    assert_eq!(ins.total_size(false), 14);
}

#[test]
fn inspector_column_sizes_match_free_function() {
    let gs = vec![group(2, 100, vec![chunk("a", 10, 20)])];
    let ins = Inspector::new(metadata(gs.clone()), vec![]);
    assert_eq!(ins.column_sizes(), column_sizes(&gs));
}

#[test]
fn statistics_render_numbers_and_nulls() {
    let s = Statistics {
        values: StatValues::Int32 { min: Some(-3), max: Some(9) },
        distinct_count: None,
        null_count: Some(0),
        is_min_max_deprecated: false,
    };
    let v = s.to_json_value();
    assert_eq!(keys(&v), strings(&["min", "max", "distinct_count", "null_count", "is_min_max_deprecated"]));
    assert_eq!(get(&v, "min"), &JsonValue::Int(-3));
    assert_eq!(get(&v, "max"), &JsonValue::Int(9));
    assert_eq!(get(&v, "distinct_count"), &JsonValue::Null);
    assert_eq!(get(&v, "null_count"), &JsonValue::UInt(0));
    assert_eq!(get(&v, "is_min_max_deprecated"), &JsonValue::Bool(false));
}

#[test]
fn statistics_render_int96_as_text() {
    let s = Statistics {
        values: StatValues::Int96 { min: Some((1, 2, 3)), max: None },
        distinct_count: Some(4),
        null_count: None,
        is_min_max_deprecated: true,
    };
    let v = s.to_json_value();
    assert_eq!(get(&v, "min"), &JsonValue::Text("[1, 2, 3]".to_string()));
    assert_eq!(get(&v, "max"), &JsonValue::Null);
    assert_eq!(get(&v, "distinct_count"), &JsonValue::UInt(4));
    assert_eq!(get(&v, "is_min_max_deprecated"), &JsonValue::Bool(true));
}

#[test]
fn statistics_render_byte_arrays_as_text() {
    let s = Statistics {
        values: StatValues::ByteArray { min: Some(b"hi".to_vec()), max: Some(vec![]) },
        distinct_count: None,
        null_count: None,
        is_min_max_deprecated: false,
    };
    let v = s.to_json_value();
    assert_eq!(get(&v, "min"), &JsonValue::Text("[104, 105]".to_string()));
    assert_eq!(get(&v, "max"), &JsonValue::Text("[]".to_string()));
    let f = Statistics {
        values: StatValues::FixedLenByteArray { min: Some(vec![7]), max: None },
        distinct_count: None,
        null_count: None,
        is_min_max_deprecated: false,
    };
    assert_eq!(get(&f.to_json_value(), "min"), &JsonValue::Text("[7]".to_string()));
}

#[test]
fn statistics_render_floats_by_bits() {
    let s = Statistics {
        values: StatValues::Double { min: Some(1.5f64.to_bits()), max: Some(2.0f64.to_bits()) },
        distinct_count: None,
        null_count: None,
        is_min_max_deprecated: false,
    };
    let v = s.to_json_value();
    assert_eq!(get(&v, "min"), &JsonValue::Float64Bits(1.5f64.to_bits()));
    let b = Statistics {
        values: StatValues::Boolean { min: Some(false), max: Some(true) },
        distinct_count: None,
        null_count: None,
        is_min_max_deprecated: false,
    };
    assert_eq!(get(&b.to_json_value(), "max"), &JsonValue::Bool(true));
}

#[test]
fn embedded_value_parses_or_keeps_text() {
    match embedded_value(&"{\"a\": [1, 2]}".to_string()) {
        JsonValue::Parsed(v) => assert_eq!(v["a"][1], 2),
        other => panic!("unexpected {:?}", other),
    }
    assert_eq!(embedded_value(&"not json {".to_string()), JsonValue::Text("not json {".to_string()));
    match embedded_value(&"42".to_string()) {
        JsonValue::Parsed(v) => assert_eq!(v, 42),
        other => panic!("unexpected {:?}", other),
    }
}

#[test]
fn key_value_metadata_last_write_wins() {
    let kvs = vec![
        KeyValue { key: "a".to_string(), value: Some("x".to_string()) },
        KeyValue { key: "b".to_string(), value: None },
        KeyValue { key: "c".to_string(), value: Some("1".to_string()) },
        KeyValue { key: "a".to_string(), value: Some("y".to_string()) },
    ];
    let v = key_value_document(&kvs);
    assert_eq!(keys(&v), strings(&["a", "c"]));
    assert_eq!(get(&v, "a"), &JsonValue::Text("y".to_string()));
    assert!(matches!(get(&v, "c"), JsonValue::Parsed(_)));
}

#[test]
fn column_chunk_fields_in_fixed_order() {
    let v = chunk("a.b", 10, 20).to_json_value();
    assert_eq!(
        keys(&v),
        strings(&[
            "column_type", "column_path", "encodings", "file_path", "file_offset", "num_values",
            "compression", "compressed_size", "uncompressed_size", "data_page_offset",
            "index_page_offset", "dict_page_offset", "statistics", "bloomfilter_offset",
            "bloomfilter_length", "offset_index_offset", "offset_index_length",
            "column_index_offset", "column_index_length",
        ])
    );
    assert_eq!(get(&v, "column_path"), &JsonValue::Text("a.b".to_string()));
    assert_eq!(
        get(&v, "encodings"),
        &JsonValue::Array(vec![JsonValue::Text("PLAIN".to_string()), JsonValue::Text("RLE".to_string())])
    );
    assert_eq!(get(&v, "file_path"), &JsonValue::Null);
    assert_eq!(get(&v, "dict_page_offset"), &JsonValue::Int(8));
    assert_eq!(get(&v, "column_index_length"), &JsonValue::Int(12));
    assert_eq!(get(&v, "statistics"), &JsonValue::Null);
}

#[test]
fn metadata_document_shape() {
    let mut m = metadata(vec![group(2, 100, vec![chunk("a", 1, 2)])]);
    m.file_metadata.key_value_metadata =
        Some(vec![KeyValue { key: "k".to_string(), value: Some("[1]".to_string()) }]);
    let ins = Inspector::new(m, vec![]);
    let v = ins.metadata_value();
    assert_eq!(keys(&v), strings(&["file_metadata", "num_row_groups", "row_groups"]));
    assert_eq!(get(&v, "num_row_groups"), &JsonValue::UInt(1));
    let f = get(&v, "file_metadata");
    assert_eq!(keys(f), strings(&["version", "num_rows", "created_by", "metadata"]));
    assert_eq!(get(f, "num_rows"), &JsonValue::Int(2));
    assert!(matches!(get(get(f, "metadata"), "k"), JsonValue::Parsed(_)));
    match get(&v, "row_groups") {
        JsonValue::Array(gs) => {
            assert_eq!(gs.len(), 1);
            assert_eq!(keys(&gs[0]), strings(&["ordinal", "total_byte_size", "num_rows", "num_columns", "columns"]));
            assert_eq!(get(&gs[0], "num_columns"), &JsonValue::UInt(1));
        }
        other => panic!("unexpected {:?}", other),
    }
}

#[test]
fn projection_keeps_only_requested_fields() {
    let ins = Inspector::new(metadata(vec![]), strings(&["x", "y", "z"]));
    assert_eq!(ins.projection(&strings(&["x"])), Some(vec![0]));
    assert_eq!(ins.projection(&strings(&["z", "x"])), Some(vec![0, 2]));
    assert_eq!(ins.projection(&strings(&["nope"])), Some(vec![]));
    assert_eq!(ins.projection(&vec![]), None);
    assert_eq!(project_fields(&strings(&["x", "y"]), &strings(&["y", "y"])), vec![1]);
}

#[test]
fn preview_limit_boundary() {
    let count = |limit: usize, total: usize| {
        let mut n = 0usize;
        while n < total && keep_pulling(limit, n) {
            n += 1;
        }
        n
    };
    assert_eq!(count(0, 5), 5);
    assert_eq!(count(3, 5), 3);
    assert_eq!(count(9, 5), 5);
    assert_eq!(count(1, 0), 0);
    assert!(!keep_pulling(2, 2));
}

#[test]
fn modifier_rejects_empty_input() {
    assert_eq!(Modifier::new(vec![], "out".to_string(), vec![]).err(), Some(CliError::EmptyInput));
}

#[test]
fn modifier_detects_schema_mismatch() {
    let a = vec![field("x", "Int32"), field("y", "Utf8")];
    let b = vec![field("x", "Int32"), field("z", "Utf8")];
    let r = Modifier::new(strings(&["a", "b", "c"]), "out".to_string(), vec![a.clone(), a.clone(), b]);
    assert_eq!(r.err(), Some(CliError::SchemaMismatch(2)));
    let mut n = a.clone();
    n[0].nullable = false;
    let r = Modifier::new(strings(&["a", "b"]), "out".to_string(), vec![a.clone(), n]);
    assert_eq!(r.err(), Some(CliError::SchemaMismatch(1)));
}

#[test]
fn modifier_accepts_identical_schemas_and_plans_in_order() {
    let a = vec![field("x", "Int32"), field("y", "Utf8"), field("z", "Int64")];
    let m = Modifier::new(strings(&["A", "B"]), "out".to_string(), vec![a.clone(), a.clone()])
        .ok()
        .unwrap();
    let plan = m.rewrite(&vec![]);
    assert_eq!(plan.sources, strings(&["A", "B"]));
    assert_eq!(plan.metadata_source, "A");
    assert_eq!(plan.output_path, "out");
    assert_eq!(plan.kept_fields, None);
    let pruned = m.rewrite(&strings(&["z", "x"]));
    assert_eq!(pruned.kept_fields, Some(vec![0, 2]));
}
