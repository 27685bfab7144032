use autoparq::advisor::{analyze_row_groups, detect_sort_order, recommended_range_for_engine};
use autoparq::profiler::metadata::FileProfile;
use autoparq::profiler::stats::ColumnProfile;
use autoparq::ratio::Ratio;
use autoparq::recommender::codec::Engine;

fn make_file_profile(rg_bytes: Vec<u64>) -> FileProfile {
    FileProfile {
        path: "test.parquet".to_string(),
        file_size_bytes: rg_bytes.iter().sum(),
        parquet_version: 2,
        num_rows: 1000,
        num_row_groups: rg_bytes.len(),
        row_group_row_counts: rg_bytes.iter().map(|_| 1000_i64).collect(),
        row_group_compressed_bytes: rg_bytes,
        created_by: None,
        columns: Vec::new(),
    }
}

fn make_column_profile(
    column_name: &str,
    physical_type: &str,
    logical_type: Option<String>,
    monotonicity_score: Option<Ratio>,
) -> ColumnProfile {
    ColumnProfile {
        column_name: column_name.to_string(),
        physical_type: physical_type.to_string(),
        logical_type,
        sample_rows: 1000,
        total_file_rows: 1000,
        sample_fraction: Ratio::from_int(1),
        cardinality_estimate: 1000,
        cardinality_ratio: Ratio::from_int(1),
        cardinality_method: "exact".to_string(),
        monotonicity_score,
        string_monotonicity_score: None,
        run_length_score: Ratio::from_int(0),
        string_length_stats: None,
        uuid_pattern_detected: false,
        json_pattern_detected: false,
        byte_entropy: None,
        null_count_in_sample: 0,
        null_fraction: Ratio::from_int(0),
    }
}

#[test]
fn test_rg_advisory_duckdb_too_small() {
    let bytes_12mb: u64 = 12 * 1024 * 1024;
    let profile = make_file_profile(vec![bytes_12mb]);
    let advisory = analyze_row_groups(&profile, &Engine::DuckDB);
    assert!(!advisory.is_within_recommendation);
    assert!(advisory.advice.contains("below"), "advice was: {}", advisory.advice);
}

#[test]
fn test_rg_advisory_spark_within_range() {
    let bytes_200mb: u64 = 200 * 1024 * 1024;
    let profile = make_file_profile(vec![bytes_200mb]);
    let advisory = analyze_row_groups(&profile, &Engine::Spark);
    assert!(advisory.is_within_recommendation);
}

#[test]
fn test_rg_advisory_too_large() {
    let bytes_600mb: u64 = 600 * 1024 * 1024;
    let profile = make_file_profile(vec![bytes_600mb]);
    let advisory = analyze_row_groups(&profile, &Engine::Spark);
    assert!(!advisory.is_within_recommendation);
    assert!(advisory.advice.contains("exceeds"), "advice was: {}", advisory.advice);
}

#[test]
fn test_rg_advisory_empty() {
    let profile = make_file_profile(vec![]);
    let advisory = analyze_row_groups(&profile, &Engine::DuckDB);
    assert!(advisory.is_within_recommendation);
    assert_eq!(advisory.advice, "No row group data available.");
}

#[test]
fn test_sort_inferred_int64() {
    let col = make_column_profile("id", "INT64", None, Some(Ratio::new(97, 100)));
    let file_profile = make_file_profile(vec![]);
    let advisory = detect_sort_order(&file_profile, &[col]);
    assert!(
        advisory.inferred_sort_candidates.contains(&"id".to_string()),
        "candidates: {:?}",
        advisory.inferred_sort_candidates
    );
}

#[test]
fn test_sort_inferred_timestamp() {
    let col = make_column_profile(
        "ts",
        "INT64",
        Some("TIMESTAMP(MICROS, UTC)".to_string()),
        Some(Ratio::new(97, 100)),
    );
    let file_profile = make_file_profile(vec![]);
    let advisory = detect_sort_order(&file_profile, &[col]);
    assert!(
        advisory.inferred_sort_candidates.contains(&"ts".to_string()),
        "candidates: {:?}",
        advisory.inferred_sort_candidates
    );
}

#[test]
fn test_sort_not_inferred_float() {
    let col = make_column_profile("score", "DOUBLE", None, Some(Ratio::new(97, 100)));
    let file_profile = make_file_profile(vec![]);
    let advisory = detect_sort_order(&file_profile, &[col]);
    assert!(
        !advisory.inferred_sort_candidates.contains(&"score".to_string()),
        "candidates: {:?}",
        advisory.inferred_sort_candidates
    );
}

#[test]
fn test_sort_not_inferred_below_threshold() {
    let col = make_column_profile("id", "INT64", None, Some(Ratio::new(93, 100)));
    let file_profile = make_file_profile(vec![]);
    let advisory = detect_sort_order(&file_profile, &[col]);
    assert!(
        !advisory.inferred_sort_candidates.contains(&"id".to_string()),
        "candidates: {:?}",
        advisory.inferred_sort_candidates
    );
}

#[test]
fn test_sort_advice_no_candidates() {
    let col = make_column_profile("score", "DOUBLE", None, Some(Ratio::new(97, 100)));
    let file_profile = make_file_profile(vec![]);
    let advisory = detect_sort_order(&file_profile, &[col]);
    assert!(advisory.advice.contains("No strongly monotonic columns detected"));
}

#[test]
fn rg_advisory_average_is_exact_mib() {
    let profile = make_file_profile(vec![64 * 1024 * 1024, 128 * 1024 * 1024]);
    let advisory = analyze_row_groups(&profile, &Engine::DuckDB);
    assert_eq!(advisory.current_avg_mb.to_fixed(1), "96.0");
    assert_eq!(advisory.current_min_mb.to_fixed(1), "64.0");
    assert_eq!(advisory.current_max_mb.to_fixed(1), "128.0");
    assert_eq!(advisory.recommended_range_mb, (64, 128));
    assert!(advisory.is_within_recommendation);
}

#[test]
fn engine_ranges_by_workload() {
    assert_eq!(recommended_range_for_engine(&Engine::Spark).0, (128, 512));
    assert_eq!(recommended_range_for_engine(&Engine::DuckDB).0, (64, 128));
}

#[test]
fn sort_declares_candidate_in_advice() {
    let col = make_column_profile("id", "INT64", None, Some(Ratio::new(97, 100)));
    let file_profile = make_file_profile(vec![]);
    let advisory = detect_sort_order(&file_profile, &[col]);
    assert!(advisory.declared_sort_columns.is_empty());
    assert!(advisory.advice.contains("id"), "advice was: {}", advisory.advice);
}

#[test]
fn sort_advice_lists_candidates_as_debug_text() {
    let col = make_column_profile("id", "INT64", None, Some(Ratio::new(97, 100)));
    let file_profile = make_file_profile(vec![]);
    let advisory = detect_sort_order(&file_profile, &[col]);
    assert!(advisory.advice.starts_with("Column(s) [\"id\"] appear sorted"), "advice was: {}", advisory.advice);
}
