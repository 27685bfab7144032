use autoparq::profiler::metadata::ColumnMetaSummary;
use autoparq::profiler::stats::{ColumnProfile, StringLengthStats};
use autoparq::ratio::Ratio;
use autoparq::recommender::codec::{recommend_codec, CaveatSeverity, CodecRecommendation, Engine, Priority};
use autoparq::recommender::encoding::{recommend_encoding, ConfidenceTier, EncodingRecommendation, RuleName};
use autoparq::recommender::engine::{apply_engine_overrides, check_codec_compatibility, check_encoding_compatibility};

fn r(num: i64, den: u64) -> Ratio {
    Ratio::new(num, den)
}

fn codec_profile() -> ColumnProfile {
    ColumnProfile {
        column_name: "col".to_string(),
        physical_type: "INT64".to_string(),
        logical_type: None,
        sample_rows: 200_000,
        total_file_rows: 1_000_000,
        sample_fraction: r(2, 10),
        cardinality_estimate: 10,
        cardinality_ratio: r(5, 10),
        cardinality_method: "exact".to_string(),
        monotonicity_score: None,
        string_monotonicity_score: None,
        run_length_score: r(0, 1),
        string_length_stats: None,
        uuid_pattern_detected: false,
        json_pattern_detected: false,
        byte_entropy: None,
        null_count_in_sample: 0,
        null_fraction: r(0, 1),
    }
}

fn make_encoding_rec(encoding: &str) -> EncodingRecommendation {
    EncodingRecommendation {
        encoding: encoding.to_string(),
        rule_fired: RuleName::PlainDefault,
        reason_brief: "test".to_string(),
        confidence: ConfidenceTier::High,
        confidence_reason: "test".to_string(),
    }
}

#[test]
fn test_entropy_gate() {
    let mut profile = codec_profile();
    profile.byte_entropy = Some(r(78, 10));
    let enc_rec = make_encoding_rec("PLAIN");
    let rec = recommend_codec(&profile, &enc_rec, &Priority::Balanced, &Engine::Unknown);
    assert_eq!(rec.codec, "UNCOMPRESSED");
    assert_eq!(rec.codec_level, None);
    assert_eq!(rec.caveats.len(), 1);
    assert_eq!(rec.caveats[0].severity, CaveatSeverity::Info);
}

#[test]
fn test_spark_safety() {
    let profile = codec_profile();
    let enc_rec = make_encoding_rec("PLAIN");
    let rec = recommend_codec(&profile, &enc_rec, &Priority::Balanced, &Engine::Spark);
    assert_eq!(rec.codec, "SNAPPY");
    assert_eq!(rec.codec_level, None);
    assert_eq!(rec.caveats.len(), 1);
    assert_eq!(rec.caveats[0].severity, CaveatSeverity::Info);
}

#[test]
fn test_spark_size_override() {
    let profile = codec_profile();
    let enc_rec = make_encoding_rec("PLAIN");
    let rec = recommend_codec(&profile, &enc_rec, &Priority::Size, &Engine::Spark);
    assert_eq!(rec.codec, "ZSTD");
    assert_eq!(rec.codec_level, Some(6));
}

#[test]
fn test_speed_lz4() {
    let profile = codec_profile();
    let enc_rec = make_encoding_rec("PLAIN");
    let rec = recommend_codec(&profile, &enc_rec, &Priority::Speed, &Engine::Unknown);
    assert_eq!(rec.codec, "LZ4");
    assert_eq!(rec.codec_level, None);
    assert!(rec.caveats.is_empty());
}

#[test]
fn test_speed_lz4_delta_warning() {
    let profile = codec_profile();
    let enc_rec = make_encoding_rec("DELTA_BINARY_PACKED");
    let rec = recommend_codec(&profile, &enc_rec, &Priority::Speed, &Engine::Unknown);
    assert_eq!(rec.codec, "LZ4");
    assert_eq!(rec.caveats.len(), 1);
    assert_eq!(rec.caveats[0].severity, CaveatSeverity::Warning);
}

#[test]
fn test_balanced_default() {
    let profile = codec_profile();
    let enc_rec = make_encoding_rec("PLAIN");
    let rec = recommend_codec(&profile, &enc_rec, &Priority::Balanced, &Engine::Unknown);
    assert_eq!(rec.codec, "ZSTD");
    assert_eq!(rec.codec_level, Some(3));
    assert!(rec.caveats.is_empty());
}

#[test]
fn test_size_zstd6() {
    let profile = codec_profile();
    let enc_rec = make_encoding_rec("PLAIN");
    let rec = recommend_codec(&profile, &enc_rec, &Priority::Size, &Engine::Unknown);
    assert_eq!(rec.codec, "ZSTD");
    assert_eq!(rec.codec_level, Some(6));
    assert!(rec.caveats.is_empty());
}

fn make_profile(physical_type: &str, logical_type: Option<&str>) -> (ColumnProfile, ColumnMetaSummary) {
    let profile = ColumnProfile {
        column_name: "col".to_string(),
        physical_type: physical_type.to_string(),
        logical_type: logical_type.map(str::to_string),
        sample_rows: 200_000,
        total_file_rows: 1_000_000,
        sample_fraction: r(2, 10),
        cardinality_estimate: 10,
        cardinality_ratio: r(5, 100_000),
        cardinality_method: "exact".to_string(),
        monotonicity_score: Some(r(0, 1)),
        string_monotonicity_score: None,
        run_length_score: r(0, 1),
        string_length_stats: None,
        uuid_pattern_detected: false,
        json_pattern_detected: false,
        byte_entropy: None,
        null_count_in_sample: 0,
        null_fraction: r(0, 1),
    };
    let meta = ColumnMetaSummary {
        name: "col".to_string(),
        physical_type: physical_type.to_string(),
        logical_type: logical_type.map(str::to_string),
        encodings: vec!["PLAIN".to_string()],
        codec: "SNAPPY".to_string(),
        compressed_bytes: 1000,
        uncompressed_bytes: 2000,
        compression_ratio: r(2, 1),
        total_null_count: Some(0),
        min_value: None,
        max_value: None,
        statistics_available: true,
        per_row_group_encodings: vec![vec!["PLAIN".to_string()]],
        per_row_group_compressed_bytes: vec![1000],
        per_row_group_uncompressed_bytes: vec![2000],
        per_row_group_dict_page_bytes: vec![None],
    };
    (profile, meta)
}

#[test]
fn test_rule1_boolean_fires() {
    let (profile, meta) = make_profile("BOOLEAN", None);
    let rec = recommend_encoding(&profile, &meta);
    assert_eq!(rec.rule_fired, RuleName::BooleanRle);
    assert_eq!(rec.encoding, "RLE");
}

#[test]
fn test_rule2_delta_fires() {
    let (mut profile, meta) = make_profile("INT64", None);
    profile.monotonicity_score = Some(r(95, 100));
    let rec = recommend_encoding(&profile, &meta);
    assert_eq!(rec.rule_fired, RuleName::DeltaMonotonic);
    assert_eq!(rec.encoding, "DELTA_BINARY_PACKED");
}

#[test]
fn test_rule2_delta_no_fire_low_monotonicity() {
    let (mut profile, meta) = make_profile("INT64", None);
    profile.monotonicity_score = Some(r(5, 10));
    let rec = recommend_encoding(&profile, &meta);
    assert_ne!(rec.rule_fired, RuleName::DeltaMonotonic);
}

#[test]
fn test_rule3_rle_dict_fires() {
    let (mut profile, mut meta) = make_profile("BYTE_ARRAY", None);
    profile.cardinality_ratio = r(1, 1000);
    profile.cardinality_estimate = 100;
    meta.physical_type = "BYTE_ARRAY".to_string();
    profile.string_length_stats = None;
    let rec = recommend_encoding(&profile, &meta);
    assert_eq!(rec.rule_fired, RuleName::RleDictionary);
}

#[test]
fn test_rule3_no_fire_high_cardinality() {
    let (mut profile, meta) = make_profile("BYTE_ARRAY", None);
    profile.cardinality_ratio = r(8, 10);
    let rec = recommend_encoding(&profile, &meta);
    assert_ne!(rec.rule_fired, RuleName::RleDictionary);
}

#[test]
fn test_rule4_byte_stream_split() {
    let (mut profile, meta) = make_profile("DOUBLE", None);
    profile.cardinality_ratio = r(9, 10);
    let rec = recommend_encoding(&profile, &meta);
    assert_eq!(rec.rule_fired, RuleName::ByteStreamSplit);
    assert_eq!(rec.encoding, "BYTE_STREAM_SPLIT");
}

#[test]
fn test_rule5_plain_uuid() {
    let (mut profile, meta) = make_profile("BYTE_ARRAY", None);
    profile.uuid_pattern_detected = true;
    profile.cardinality_ratio = r(8, 10);
    let rec = recommend_encoding(&profile, &meta);
    assert_eq!(rec.rule_fired, RuleName::PlainUuid);
    assert_eq!(rec.encoding, "PLAIN");
}

#[test]
fn test_rule6_plain_default() {
    let (mut profile, meta) = make_profile("BYTE_ARRAY", None);
    profile.cardinality_ratio = r(5, 10);
    profile.uuid_pattern_detected = false;
    let rec = recommend_encoding(&profile, &meta);
    assert_eq!(rec.rule_fired, RuleName::PlainDefault);
    assert_eq!(rec.encoding, "PLAIN");
}

#[test]
fn test_rule_priority_delta_beats_dict() {
    let (mut profile, meta) = make_profile("INT64", None);
    profile.monotonicity_score = Some(r(95, 100));
    profile.cardinality_ratio = r(1, 1000);
    profile.cardinality_estimate = 100;
    let rec = recommend_encoding(&profile, &meta);
    assert_eq!(rec.rule_fired, RuleName::DeltaMonotonic);
    assert_eq!(rec.encoding, "DELTA_BINARY_PACKED");
}

#[test]
fn test_confidence_high() {
    let (mut profile, meta) = make_profile("BYTE_ARRAY", None);
    profile.sample_fraction = r(15, 100);
    profile.sample_rows = 200_000;
    profile.cardinality_ratio = r(5, 10);
    profile.uuid_pattern_detected = false;
    let rec = recommend_encoding(&profile, &meta);
    assert_eq!(rec.confidence, ConfidenceTier::High);
}

#[test]
fn test_confidence_medium_low_fraction() {
    let (mut profile, meta) = make_profile("BYTE_ARRAY", None);
    profile.sample_fraction = r(1, 100);
    profile.sample_rows = 200_000;
    profile.cardinality_ratio = r(5, 10);
    profile.uuid_pattern_detected = false;
    let rec = recommend_encoding(&profile, &meta);
    assert_eq!(rec.confidence, ConfidenceTier::Medium);
}

#[test]
fn test_confidence_low() {
    let (mut profile, meta) = make_profile("BYTE_ARRAY", None);
    profile.sample_fraction = r(1, 100);
    profile.sample_rows = 10_000;
    profile.cardinality_ratio = r(5, 10);
    profile.uuid_pattern_detected = false;
    let rec = recommend_encoding(&profile, &meta);
    assert_eq!(rec.confidence, ConfidenceTier::Low);
}

#[test]
fn test_confidence_rle_dict_boundary() {
    let (mut profile, mut meta) = make_profile("INT32", None);
    profile.sample_fraction = r(15, 100);
    profile.sample_rows = 200_000;
    profile.cardinality_ratio = r(9, 100);
    profile.cardinality_estimate = 18_000;
    meta.physical_type = "INT32".to_string();
    let rec = recommend_encoding(&profile, &meta);
    assert_eq!(rec.rule_fired, RuleName::RleDictionary);
    assert_eq!(rec.confidence, ConfidenceTier::Medium);
}

#[test]
fn test_rule3_dict_size_overflow_skips() {
    let (mut profile, mut meta) = make_profile("BYTE_ARRAY", None);
    profile.cardinality_ratio = r(5, 100);
    profile.cardinality_estimate = 6000;
    profile.string_length_stats = Some(StringLengthStats {
        min_len: 90,
        max_len: 110,
        mean_len: r(100, 1),
        len_count: 4,
        len_sum: 400,
        len_sum_sq: 40_100,
    });
    meta.physical_type = "BYTE_ARRAY".to_string();
    let rec = recommend_encoding(&profile, &meta);
    assert_ne!(rec.rule_fired, RuleName::RleDictionary);
}

fn make_codec_rec(codec: &str, level: Option<i32>) -> CodecRecommendation {
    CodecRecommendation { codec: codec.to_string(), codec_level: level, reason_brief: "test".to_string(), caveats: vec![] }
}

#[test]
fn test_spark_zstd_compat() {
    let support = check_codec_compatibility(&Engine::Spark, "ZSTD");
    assert!(support.supported);
    assert_eq!(support.min_version, Some("3.2.0".to_string()));
}

#[test]
fn test_clickhouse_brotli_unsupported() {
    let support = check_codec_compatibility(&Engine::ClickHouse, "BROTLI");
    assert!(!support.supported);
}

#[test]
fn test_apply_overrides_spark_zstd() {
    let mut rec = make_codec_rec("ZSTD", Some(3));
    apply_engine_overrides(&mut rec, &Engine::Spark);
    assert_eq!(rec.codec, "SNAPPY");
    assert!(rec.caveats.len() > 0);
}

#[test]
fn test_delta_spark_min_version() {
    let support = check_encoding_compatibility(&Engine::Spark, "DELTA_BINARY_PACKED");
    assert_eq!(support.min_version, Some("3.2.0".to_string()));
}

#[test]
fn clickhouse_brotli_becomes_zstd3() {
    let mut rec = make_codec_rec("BROTLI", None);
    apply_engine_overrides(&mut rec, &Engine::ClickHouse);
    assert_eq!(rec.codec, "ZSTD");
    assert_eq!(rec.codec_level, Some(3));
    assert_eq!(rec.caveats.len(), 1);
    assert_eq!(rec.caveats[0].severity, CaveatSeverity::Warning);
}

#[test]
fn overrides_leave_other_engines_alone() {
    let mut rec = make_codec_rec("ZSTD", Some(3));
    apply_engine_overrides(&mut rec, &Engine::DuckDB);
    assert_eq!(rec.codec, "ZSTD");
    assert_eq!(rec.codec_level, Some(3));
    assert!(rec.caveats.is_empty());
}

#[test]
fn overrides_applied_twice_change_nothing_more() {
    let mut rec = make_codec_rec("ZSTD", Some(3));
    apply_engine_overrides(&mut rec, &Engine::Spark);
    let once = (rec.codec.clone(), rec.codec_level, rec.caveats.len());
    apply_engine_overrides(&mut rec, &Engine::Spark);
    assert_eq!((rec.codec.clone(), rec.codec_level, rec.caveats.len()), once);
}

#[test]
fn high_entropy_alone_leaves_data_uncompressed() {
    let mut profile = codec_profile();
    profile.byte_entropy = Some(r(75, 10));
    let rec = recommend_codec(&profile, &make_encoding_rec("PLAIN"), &Priority::Balanced, &Engine::Unknown);
    assert_eq!(rec.codec, "ZSTD");
    profile.byte_entropy = Some(r(751, 100));
    let rec = recommend_codec(&profile, &make_encoding_rec("PLAIN"), &Priority::Balanced, &Engine::Unknown);
    assert_eq!(rec.codec, "UNCOMPRESSED");
}

#[test]
fn engine_names_parse() {
    assert_eq!(Engine::from_str("SPARK"), Engine::Spark);
    assert_eq!(Engine::from_str("duckdb"), Engine::DuckDB);
    assert_eq!(Engine::from_str("whatever"), Engine::Unknown);
    assert_eq!(Priority::from_str("Size"), Priority::Size);
    assert_eq!(Priority::from_str("other"), Priority::Balanced);
}

#[test]
fn unknown_engine_supports_everything() {
    let s = check_codec_compatibility(&Engine::Unknown, "BROTLI");
    assert!(s.supported);
    assert_eq!(s.min_version, None);
}

#[test]
fn high_confidence_needs_large_sample() {
    let (mut profile, meta) = make_profile("BYTE_ARRAY", None);
    profile.sample_fraction = r(15, 100);
    profile.sample_rows = 99_999;
    profile.cardinality_ratio = r(5, 10);
    let rec = recommend_encoding(&profile, &meta);
    assert_ne!(rec.confidence, ConfidenceTier::High);
}

#[test]
fn clickhouse_gzip_becomes_zstd3() {
    let mut rec = make_codec_rec("GZIP", None);
    apply_engine_overrides(&mut rec, &Engine::ClickHouse);
    assert_eq!(rec.codec, "ZSTD");
    assert_eq!(rec.codec_level, Some(3));
    assert_eq!(rec.caveats[0].severity, CaveatSeverity::Warning);
    assert!(!check_codec_compatibility(&Engine::ClickHouse, "GZIP").supported);
}
