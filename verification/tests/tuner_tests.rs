use autoparq::profiler::metadata::{ColumnMetaSummary, FileProfile};
use autoparq::profiler::stats::ColumnProfile;
use autoparq::ratio::Ratio;
use autoparq::recommender::codec::{CodecRecommendation, Engine, Priority};
use autoparq::recommender::encoding::{ConfidenceTier, EncodingRecommendation, RuleName};
use autoparq::tuner::impact::{codec_full, compute_impact_stars, predicted_size_reduction_pct};
use autoparq::tuner::report::{build_tune_report_from_profiles, engine_to_str, generate_option_bundles, priority_to_str};

fn mk_enc(encoding: &str) -> EncodingRecommendation {
    EncodingRecommendation {
        encoding: encoding.to_string(),
        rule_fired: RuleName::PlainDefault,
        reason_brief: String::new(),
        confidence: ConfidenceTier::High,
        confidence_reason: String::new(),
    }
}

fn mk_codec(codec: &str, level: Option<i32>) -> CodecRecommendation {
    CodecRecommendation { codec: codec.to_string(), codec_level: level, reason_brief: String::new(), caveats: vec![] }
}

fn mk_meta(encodings: Vec<&str>, codec: &str, uncompressed_bytes: u64) -> ColumnMetaSummary {
    ColumnMetaSummary {
        name: "c".to_string(),
        physical_type: "INT32".to_string(),
        logical_type: None,
        encodings: encodings.into_iter().map(String::from).collect(),
        codec: codec.to_string(),
        compressed_bytes: uncompressed_bytes / 2,
        uncompressed_bytes,
        compression_ratio: Ratio::from_int(2),
        total_null_count: Some(0),
        min_value: None,
        max_value: None,
        statistics_available: true,
        per_row_group_encodings: vec![],
        per_row_group_compressed_bytes: vec![],
        per_row_group_uncompressed_bytes: vec![],
        per_row_group_dict_page_bytes: vec![],
    }
}

#[test]
fn impact_stars_no_change_returns_one() {
    let enc = mk_enc("RLE_DICTIONARY");
    let codec = mk_codec("ZSTD", Some(3));
    let meta = mk_meta(vec!["RLE_DICTIONARY"], "ZSTD:3", 1_000_000);
    assert_eq!(compute_impact_stars(&enc, &codec, &meta, 10_000_000), 1);
}

#[test]
fn impact_stars_codec_only_small_column_returns_one() {
    let enc = mk_enc("RLE_DICTIONARY");
    let codec = mk_codec("ZSTD", Some(3));
    let meta = mk_meta(vec!["RLE_DICTIONARY"], "ZSTD:1", 500_000);
    assert_eq!(compute_impact_stars(&enc, &codec, &meta, 100_000_000), 1);
}

#[test]
fn impact_stars_codec_only_big_column_returns_three() {
    let enc = mk_enc("RLE_DICTIONARY");
    let codec = mk_codec("ZSTD", Some(3));
    let meta = mk_meta(vec!["RLE_DICTIONARY"], "ZSTD:1", 15_000_000);
    assert_eq!(compute_impact_stars(&enc, &codec, &meta, 100_000_000), 3);
}

#[test]
fn impact_stars_encoding_change_big_column_returns_five() {
    let enc = mk_enc("RLE_DICTIONARY");
    let codec = mk_codec("ZSTD", Some(3));
    let meta = mk_meta(vec!["PLAIN"], "ZSTD:3", 20_000_000);
    assert_eq!(compute_impact_stars(&enc, &codec, &meta, 100_000_000), 5);
}

#[test]
fn impact_stars_encoding_change_tiny_column_returns_two() {
    let enc = mk_enc("RLE_DICTIONARY");
    let codec = mk_codec("ZSTD", Some(3));
    let meta = mk_meta(vec!["PLAIN"], "ZSTD:3", 500_000);
    assert_eq!(compute_impact_stars(&enc, &codec, &meta, 100_000_000), 2);
}

fn file_with(columns: Vec<ColumnMetaSummary>) -> FileProfile {
    FileProfile {
        path: "data.parquet".to_string(),
        file_size_bytes: 4096,
        parquet_version: 2,
        num_rows: 1_000_000,
        num_row_groups: 1,
        row_group_row_counts: vec![1_000_000],
        row_group_compressed_bytes: vec![4096],
        created_by: None,
        columns,
    }
}

fn id_profile() -> ColumnProfile {
    ColumnProfile {
        column_name: "id".to_string(),
        physical_type: "INT64".to_string(),
        logical_type: None,
        sample_rows: 200_000,
        total_file_rows: 1_000_000,
        sample_fraction: Ratio::new(2, 10),
        cardinality_estimate: 200_000,
        cardinality_ratio: Ratio::from_int(1),
        cardinality_method: "hyperloglog".to_string(),
        monotonicity_score: Some(Ratio::from_int(1)),
        string_monotonicity_score: None,
        run_length_score: Ratio::from_int(0),
        string_length_stats: None,
        uuid_pattern_detected: false,
        json_pattern_detected: false,
        byte_entropy: None,
        null_count_in_sample: 0,
        null_fraction: Ratio::from_int(0),
    }
}

fn id_meta() -> ColumnMetaSummary {
    let mut m = mk_meta(vec!["PLAIN", "RLE"], "SNAPPY", 8_000_000);
    m.name = "id".to_string();
    m.physical_type = "INT64".to_string();
    m.per_row_group_encodings = vec![vec!["PLAIN".to_string(), "RLE".to_string()]];
    m.per_row_group_compressed_bytes = vec![4_000_000];
    m.per_row_group_uncompressed_bytes = vec![8_000_000];
    m.per_row_group_dict_page_bytes = vec![None];
    m
}

#[test]
fn test_bundle_labels_are_distinct() {
    let fp = file_with(vec![id_meta()]);
    let report = build_tune_report_from_profiles(&fp, &[id_profile()], &Engine::Unknown, &Priority::Balanced, "brief");
    let labels = [&report.options.a.label, &report.options.b.label, &report.options.c.label];
    assert_eq!(labels, [&"Balanced".to_string(), &"Smallest File".to_string(), &"Fastest Reads".to_string()]);
    let unique: std::collections::HashSet<_> = labels.iter().collect();
    assert_eq!(labels.len(), unique.len());
}

#[test]
fn tune_monotonic_ints_recommends_delta() {
    let fp = file_with(vec![id_meta()]);
    let report = build_tune_report_from_profiles(&fp, &[id_profile()], &Engine::Unknown, &Priority::Balanced, "full");
    assert_eq!(report.file_path, "data.parquet");
    assert_eq!(report.engine, "unknown");
    assert_eq!(report.priority, "balanced");
    assert_eq!(report.num_columns, 1);
    assert_eq!(report.current_codec, "SNAPPY");
    let col = &report.columns[0];
    assert_eq!(col.recommended_encoding, "DELTA_BINARY_PACKED");
    assert_eq!(col.encoding_rule_fired, "DeltaMonotonic");
    assert_eq!(col.recommended_codec, "ZSTD");
    assert_eq!(col.recommended_codec_level, Some(3));
    assert_eq!(col.impact_stars, 5);
    let explain = col.full_explain.as_ref().expect("full_explain should be populated for explain=full");
    let fired: Vec<&String> =
        explain.reasoning_chain.iter().filter(|e| e.fired).map(|e| &e.rule_name).collect();
    assert_eq!(fired, vec![&"DeltaMonotonic".to_string()]);
    assert_eq!(explain.reasoning_chain.len(), 8);
    assert_eq!(report.diagnostics.len(), 1);
    // PLAIN with DELTA and a codec change: 3220 / 4830 of the column, 2/3 of the file.
    assert_eq!(report.predicted_size_reduction_pct.to_fixed(2), "66.67");
}

#[test]
fn tune_brief_has_no_explanation() {
    let fp = file_with(vec![id_meta()]);
    let report = build_tune_report_from_profiles(&fp, &[id_profile()], &Engine::Spark, &Priority::Balanced, "brief");
    let col = &report.columns[0];
    assert!(col.full_explain.is_none());
    assert_eq!(col.recommended_codec, "SNAPPY");
    assert!(!col.caveats.is_empty());
    assert_eq!(report.engine, "spark");
}

#[test]
fn tune_skips_profiles_without_columns() {
    let fp = file_with(vec![id_meta()]);
    let mut other = id_profile();
    other.column_name = "ghost".to_string();
    let report =
        build_tune_report_from_profiles(&fp, &[other, id_profile()], &Engine::Unknown, &Priority::Size, "brief");
    assert_eq!(report.columns.len(), 1);
    assert_eq!(report.columns[0].column_name, "id");
    assert_eq!(report.columns[0].recommended_codec_level, Some(6));
}

#[test]
fn reduction_is_zero_for_empty_file() {
    let fp = file_with(vec![]);
    assert_eq!(predicted_size_reduction_pct(&[], &fp).to_fixed(1), "0.0");
}

#[test]
fn names_of_engines_and_priorities() {
    assert_eq!(engine_to_str(&Engine::ClickHouse), "clickhouse");
    assert_eq!(priority_to_str(&Priority::Speed), "speed");
    assert_eq!(codec_full(&"ZSTD".to_string(), Some(3)), "ZSTD:3");
    assert_eq!(codec_full(&"SNAPPY".to_string(), None), "SNAPPY");
}

#[test]
fn bundles_describe_their_codecs() {
    let fp = file_with(vec![id_meta()]);
    let report = build_tune_report_from_profiles(&fp, &[id_profile()], &Engine::Unknown, &Priority::Balanced, "brief");
    let enc = vec![mk_enc("DELTA_BINARY_PACKED")];
    let b = generate_option_bundles(&fp, &report.columns, &Engine::Unknown, &enc);
    assert_eq!(b.a.codec_description, "ZSTD:3");
    assert_eq!(b.b.codec_description, "ZSTD:6");
    assert!(b.b.python_snippet.contains("compression_level"));
}

#[test]
fn report_summary_figures_agree() {
    let fp = file_with(vec![id_meta()]);
    let report = build_tune_report_from_profiles(&fp, &[id_profile()], &Engine::Unknown, &Priority::Balanced, "full");
    assert_eq!(report.num_columns, report.columns.len());
    assert_eq!(report.column_profiles.len(), report.columns.len());
    // 200,000 of 1,000,000 rows sampled.
    assert_eq!(report.sample_fraction.to_fixed(2), "0.20");
    // 1 + 0.7 * (200/3) / 100 = 1.4667
    assert_eq!(report.predicted_read_speedup.to_fixed(4), "1.4667");
    assert!(report.columns.iter().all(|c| c.full_explain.is_some()));
    let mut small = fp.copy();
    small.num_rows = 1000;
    let capped = build_tune_report_from_profiles(&small, &[id_profile()], &Engine::Unknown, &Priority::Balanced, "FULL");
    assert_eq!(capped.sample_fraction.to_fixed(1), "1.0");
    assert!(capped.columns.iter().all(|c| c.full_explain.is_none()));
}
