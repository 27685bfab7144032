use autoparq::advisor::{RowGroupAdvisory, SortOrderAdvisory};
use autoparq::codegen::{generate_snippet, most_common_codec};
use autoparq::profiler::metadata::FileProfile;
use autoparq::profiler::stats::ColumnProfile;
use autoparq::ratio::Ratio;
use autoparq::tuner::report::{Bundle, OptionBundles, TuneReport};
use autoparq::tuner::ColumnRecommendation;

fn make_col(name: &str, codec: &str, level: Option<i32>, encoding: &str) -> ColumnRecommendation {
    ColumnRecommendation {
        column_name: name.to_string(),
        physical_type: "INT64".to_string(),
        logical_type: None,
        cardinality_estimate: 100,
        cardinality_ratio: Ratio::new(1, 100),
        null_fraction: Ratio::from_int(0),
        recommended_encoding: encoding.to_string(),
        recommended_codec: codec.to_string(),
        recommended_codec_level: level,
        encoding_rule_fired: "RleDictionary".to_string(),
        reason_brief: "low cardinality".to_string(),
        confidence: "High".to_string(),
        confidence_reason: "large sample".to_string(),
        impact_stars: 4,
        engine_compatibility: None,
        caveats: vec![],
        full_explain: None,
    }
}

fn bundle() -> Bundle {
    Bundle {
        label: "Balanced".to_string(),
        codec_description: "ZSTD:3".to_string(),
        tradeoff: "balanced".to_string(),
        python_snippet: String::new(),
        caveats: vec![],
    }
}

fn make_report_with(columns: Vec<ColumnRecommendation>) -> TuneReport {
    let fp = FileProfile {
        path: "test.parquet".to_string(),
        file_size_bytes: 1024,
        parquet_version: 2,
        num_rows: 10000,
        num_row_groups: 1,
        row_group_row_counts: vec![10000],
        row_group_compressed_bytes: vec![1024],
        created_by: None,
        columns: vec![],
    };
    let cp = ColumnProfile {
        column_name: "id".to_string(),
        physical_type: "INT64".to_string(),
        logical_type: None,
        sample_rows: 10000,
        total_file_rows: 10000,
        sample_fraction: Ratio::from_int(1),
        cardinality_estimate: 100,
        cardinality_ratio: Ratio::new(1, 100),
        cardinality_method: "exact".to_string(),
        monotonicity_score: None,
        string_monotonicity_score: None,
        run_length_score: Ratio::from_int(0),
        string_length_stats: None,
        uuid_pattern_detected: false,
        json_pattern_detected: false,
        byte_entropy: None,
        null_count_in_sample: 0,
        null_fraction: Ratio::from_int(0),
    };
    TuneReport {
        file_path: "test.parquet".to_string(),
        engine: "unknown".to_string(),
        priority: "balanced".to_string(),
        file_size_bytes: 1024,
        num_rows: 10000,
        num_columns: columns.len(),
        current_codec: "SNAPPY".to_string(),
        scan_time_ms: 100,
        sample_fraction: Ratio::from_int(1),
        predicted_size_reduction_pct: Ratio::from_int(20),
        predicted_read_speedup: Ratio::new(114, 100),
        overall_confidence: "High".to_string(),
        columns,
        file_caveats: vec![],
        python_snippet: String::new(),
        spark_snippet: String::new(),
        options: OptionBundles { a: bundle(), b: bundle(), c: bundle() },
        row_group_advisory: RowGroupAdvisory {
            current_avg_mb: Ratio::from_int(1),
            current_min_mb: Ratio::from_int(1),
            current_max_mb: Ratio::from_int(1),
            recommended_range_mb: (128, 512),
            workload_label: "batch".to_string(),
            is_within_recommendation: false,
            advice: String::new(),
        },
        sort_advisory: SortOrderAdvisory {
            declared_sort_columns: vec![],
            inferred_sort_candidates: vec![],
            advice: String::new(),
        },
        file_profile: fp,
        column_profiles: vec![cp],
        diagnostics: vec![],
    }
}

fn make_report(codec: &str, level: Option<i32>, encoding: &str) -> TuneReport {
    make_report_with(vec![make_col("id", codec, level, encoding)])
}

#[test]
fn test_pyarrow_snippet_contains_compression() {
    let report = make_report("ZSTD", Some(3), "RLE_DICTIONARY");
    let snippet = generate_snippet(&report, "pyarrow");
    assert!(snippet.contains("compression\": \"zstd\""));
    assert!(snippet.contains("compression_level\": 3"));
    assert!(snippet.contains("\"id\": \"RLE_DICTIONARY\""));
}

#[test]
fn test_pyspark_snippet_contains_codec() {
    let report = make_report("ZSTD", Some(3), "PLAIN");
    let snippet = generate_snippet(&report, "spark");
    assert!(snippet.contains("zstd"));
    assert!(snippet.contains("Spark 3.2+"));
}

#[test]
fn test_polars_snippet_contains_compression() {
    let report = make_report("ZSTD", Some(3), "PLAIN");
    let snippet = generate_snippet(&report, "polars");
    assert!(snippet.contains("compression=\"zstd\""));
    assert!(snippet.contains("compression_level=3"));
}

#[test]
fn most_common_codec_counts_columns() {
    let report = make_report_with(vec![
        make_col("a", "SNAPPY", None, "PLAIN"),
        make_col("b", "ZSTD", Some(6), "PLAIN"),
        make_col("c", "ZSTD", Some(6), "PLAIN"),
    ]);
    assert_eq!(most_common_codec(&report), ("ZSTD".to_string(), Some(6)));
}

#[test]
fn most_common_codec_of_no_column_is_zstd3() {
    let report = make_report_with(vec![]);
    assert_eq!(most_common_codec(&report), ("ZSTD".to_string(), Some(3)));
}

#[test]
fn pyarrow_snippet_skips_plain_columns() {
    let report = make_report("SNAPPY", None, "PLAIN");
    let snippet = generate_snippet(&report, "unknown");
    assert!(snippet.contains("compression\": \"snappy\""));
    assert!(!snippet.contains("compression_level"));
    assert!(!snippet.contains("\"id\": "));
}
