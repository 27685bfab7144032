use autoparq::apply::{column_size_deltas, parse_compression_for_writer, parse_encoding_for_writer, writer_settings};
use autoparq::error::AutoparqError;
use autoparq::profiler::footer::{CompressionKind, EncodingKind};
use autoparq::profiler::metadata::{ColumnMetaSummary, FileProfile};
use autoparq::ratio::Ratio;
use autoparq::recommender::codec::{Engine, Priority};
use autoparq::tuner::report::{engine_to_str, priority_to_str};
use autoparq::tuner::ColumnRecommendation;
use autoparq::wasm::{check_apply_file_size, check_file_size};

fn rec(name: &str, enc: &str, codec: &str, level: Option<i32>) -> ColumnRecommendation {
    ColumnRecommendation {
        column_name: name.to_string(),
        physical_type: "INT64".to_string(),
        logical_type: None,
        cardinality_estimate: 1,
        cardinality_ratio: Ratio::from_int(0),
        null_fraction: Ratio::from_int(0),
        recommended_encoding: enc.to_string(),
        recommended_codec: codec.to_string(),
        recommended_codec_level: level,
        encoding_rule_fired: "PlainDefault".to_string(),
        reason_brief: String::new(),
        confidence: "High".to_string(),
        confidence_reason: String::new(),
        impact_stars: 1,
        engine_compatibility: None,
        caveats: vec![],
        full_explain: None,
    }
}

fn meta(name: &str, compressed: u64, encodings: Vec<&str>, codec: &str) -> ColumnMetaSummary {
    ColumnMetaSummary {
        name: name.to_string(),
        physical_type: "INT64".to_string(),
        logical_type: None,
        encodings: encodings.into_iter().map(String::from).collect(),
        codec: codec.to_string(),
        compressed_bytes: compressed,
        uncompressed_bytes: compressed * 2,
        compression_ratio: Ratio::from_int(2),
        total_null_count: None,
        min_value: None,
        max_value: None,
        statistics_available: false,
        per_row_group_encodings: vec![],
        per_row_group_compressed_bytes: vec![],
        per_row_group_uncompressed_bytes: vec![],
        per_row_group_dict_page_bytes: vec![],
    }
}

fn file(columns: Vec<ColumnMetaSummary>) -> FileProfile {
    FileProfile {
        path: "f.parquet".to_string(),
        file_size_bytes: 1,
        parquet_version: 2,
        num_rows: 1,
        num_row_groups: 0,
        row_group_row_counts: vec![],
        row_group_compressed_bytes: vec![],
        created_by: None,
        columns,
    }
}

#[test]
fn engine_and_priority_names_read_back() {
    for e in [Engine::Spark, Engine::DuckDB, Engine::Polars, Engine::ClickHouse, Engine::Pandas, Engine::Unknown] {
        assert_eq!(Engine::from_str(engine_to_str(&e)), e);
    }
    for p in [Priority::Size, Priority::Speed, Priority::Balanced] {
        assert_eq!(Priority::from_str(priority_to_str(&p)), p);
    }
}

#[test]
fn writer_falls_back_to_plain_and_snappy() {
    assert_eq!(parse_encoding_for_writer("whatever").unwrap(), EncodingKind::Plain);
    assert_eq!(parse_encoding_for_writer("rle_dictionary").unwrap(), EncodingKind::RleDictionary);
    assert_eq!(parse_compression_for_writer("BROTLI", None).unwrap(), CompressionKind::Snappy);
    assert_eq!(parse_compression_for_writer("zstd", Some(6)).unwrap(), CompressionKind::Zstd(6));
    assert!(parse_compression_for_writer("ZSTD", Some(99)).is_err());
}

#[test]
fn writer_settings_follow_recommendations() {
    let recs = vec![rec("a", "RLE_DICTIONARY", "ZSTD", Some(3)), rec("b", "DELTA_BINARY_PACKED", "LZ4", None)];
    let s = writer_settings(&recs).unwrap();
    assert_eq!(s.len(), 2);
    assert!(s[0].dictionary);
    assert_eq!(s[0].compression, CompressionKind::Zstd(3));
    assert!(!s[1].dictionary);
    assert_eq!(s[1].encoding, EncodingKind::DeltaBinaryPacked);
    assert_eq!(s[1].compression, CompressionKind::Lz4);
}

#[test]
fn writer_settings_report_bad_level() {
    let recs = vec![rec("a", "PLAIN", "ZSTD", Some(0))];
    match writer_settings(&recs) {
        Err(AutoparqError::UnsupportedType(_)) => {}
        other => panic!("unexpected {:?}", other.is_ok()),
    }
}

#[test]
fn size_deltas_match_columns_by_name() {
    let before = file(vec![meta("x", 100, vec!["PLAIN"], "SNAPPY"), meta("gone", 5, vec![], "SNAPPY")]);
    let after = file(vec![meta("x", 60, vec!["RLE_DICTIONARY"], "ZSTD:3")]);
    let d = column_size_deltas(&before, &after);
    assert_eq!(d.len(), 1);
    assert_eq!(d[0].column_name, "x");
    assert_eq!((d[0].before_compressed, d[0].after_compressed), (100, 60));
    assert_eq!(d[0].after_encodings, vec!["RLE_DICTIONARY"]);
    assert_eq!(d[0].before_codec, "SNAPPY");
    assert_eq!(d[0].after_codec, "ZSTD:3");
}

#[test]
fn browser_size_checks() {
    assert_eq!(check_file_size(10), "{\"ok\":true,\"warning\":null,\"error\":null}");
    assert!(check_file_size(300 * 1_048_576).contains("Large file (300 MB)"));
    assert!(check_file_size(1_073_741_825).contains("\"ok\":false"));
    assert!(check_apply_file_size(600 * 1_048_576).contains("\"severity\":\"severe\""));
    assert!(check_apply_file_size(250 * 1_048_576).contains("\"severity\":\"mild\""));
    assert!(check_apply_file_size(1).contains("\"severity\":null"));
}

#[test]
fn error_messages() {
    let e = AutoparqError::UnsupportedCodec("LZO".to_string());
    assert_eq!(e.message(), "Unsupported codec: LZO");
}

#[test]
fn fixed_point_rounding() {
    assert_eq!(Ratio::new(1, 8).to_fixed(2), "0.12");
    assert_eq!(Ratio::new(3, 8).to_fixed(2), "0.38");
    assert_eq!(Ratio::new(-5, 4).to_fixed(1), "-1.2");
    assert_eq!(Ratio::new(2, 3).to_fixed(0), "1");
    assert_eq!(Ratio::new(7, 0).to_fixed(1), "0.0");
}

#[test]
fn fixed_point_follows_nearest_double() {
    // 1/2000 and 5/100000 sit just above their decimal ties once held as doubles.
    assert_eq!(Ratio::new(1, 2000).to_fixed(3), "0.001");
    assert_eq!(Ratio::new(5, 100000).to_fixed(4), "0.0001");
    // 1.005 is held just below the tie.
    assert_eq!(Ratio::new(1005, 1000).to_fixed(2), "1.00");
    assert_eq!(Ratio::new(5, 2).to_fixed(0), "2");
    assert_eq!(Ratio::new(1, 2).to_fixed(0), "0");
    assert_eq!(Ratio::new(7, 2).to_fixed(0), "4");
    // Quotients from 2^53 on keep 53 significant bits.
    assert_eq!(Ratio::new(9007199254740993, 1).to_fixed(0), "9007199254740992");
    assert_eq!(Ratio::new(i64::MAX, 1).to_fixed(0), "9223372036854775808");
    assert_eq!(Ratio::new(1, 3).to_fixed(4), "0.3333");
}
