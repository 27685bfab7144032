use autoparq::diagnostics::{
    aggregate_data_encodings, cross_rg_dict_mix, diagnose_all, diagnose_column, fmt_rg_list, human_bytes,
    largest_dict_page_bytes, mid_chunk_fallback_rgs, per_row_group_variance_summary, DiagnosticStatus,
};
use autoparq::profiler::metadata::{ColumnMetaSummary, FileProfile};
use autoparq::ratio::Ratio;
use autoparq::tuner::ColumnRecommendation;

#[test]
fn aggregate_filters_level_encodings() {
    let per_rg = vec![
        vec!["PLAIN".to_string(), "RLE".to_string()],
        vec!["RLE_DICTIONARY".to_string(), "RLE".to_string()],
    ];
    let agg = aggregate_data_encodings(&per_rg);
    assert_eq!(agg, vec!["PLAIN", "RLE_DICTIONARY"]);
}

#[test]
fn variance_summary_none_when_identical() {
    let per_rg = vec![vec!["PLAIN".to_string()], vec!["PLAIN".to_string()], vec!["PLAIN".to_string()]];
    assert_eq!(per_row_group_variance_summary(&per_rg), None);
}

#[test]
fn variance_summary_reports_cross_rg_fallback() {
    let per_rg = vec![
        vec!["RLE_DICTIONARY".to_string()],
        vec!["RLE_DICTIONARY".to_string()],
        vec!["PLAIN".to_string()],
        vec!["PLAIN".to_string()],
    ];
    let s = per_row_group_variance_summary(&per_rg).unwrap();
    assert!(s.contains("RLE_DICTIONARY"));
    assert!(s.contains("PLAIN"));
    assert!(s.contains("RGs 0-1"));
    assert!(s.contains("RGs 2-3"));
}

#[test]
fn mid_chunk_fallback_requires_dict_near_limit() {
    let per_rg = vec![
        vec!["PLAIN".to_string(), "RLE_DICTIONARY".to_string()],
        vec!["RLE_DICTIONARY".to_string()],
    ];

    let small = vec![Some(2_000), None];
    assert!(mid_chunk_fallback_rgs(&per_rg, &small).is_empty());

    let near_limit = vec![Some(950_000), None];
    assert_eq!(mid_chunk_fallback_rgs(&per_rg, &near_limit), vec![0]);

    let unknown = vec![None, None];
    assert!(mid_chunk_fallback_rgs(&per_rg, &unknown).is_empty());
}

#[test]
fn cross_rg_mix_detected() {
    let per_rg = vec![vec!["RLE_DICTIONARY".to_string()], vec!["PLAIN".to_string()]];
    let (dict, plain) = cross_rg_dict_mix(&per_rg);
    assert_eq!(dict, vec![0]);
    assert_eq!(plain, vec![1]);
}

/// A column summary whose compression ratio is `num / den`.
fn make_meta(name: &str, per_rg: Vec<Vec<String>>, codec: &str, num: u64, den: u64) -> ColumnMetaSummary {
    let total_compressed: u64 = 1_000_000;
    let total_uncompressed: u64 = total_compressed * num / den;
    let n = per_rg.len() as u64;
    let mut encodings: Vec<String> = Vec::new();
    for rg in &per_rg {
        for e in rg {
            if !encodings.contains(e) {
                encodings.push(e.clone());
            }
        }
    }
    encodings.sort();
    ColumnMetaSummary {
        name: name.to_string(),
        physical_type: "INT64".to_string(),
        logical_type: None,
        encodings,
        codec: codec.to_string(),
        compressed_bytes: total_compressed,
        uncompressed_bytes: total_uncompressed,
        compression_ratio: Ratio::of_counts(num, den),
        total_null_count: Some(0),
        min_value: None,
        max_value: None,
        statistics_available: true,
        per_row_group_compressed_bytes: vec![total_compressed / n; n as usize],
        per_row_group_uncompressed_bytes: vec![total_uncompressed / n; n as usize],
        per_row_group_dict_page_bytes: vec![None; n as usize],
        per_row_group_encodings: per_rg,
    }
}

fn make_rec(col_name: &str, enc: &str, codec: &str, level: Option<i32>) -> ColumnRecommendation {
    ColumnRecommendation {
        column_name: col_name.to_string(),
        physical_type: "INT64".to_string(),
        logical_type: None,
        cardinality_estimate: 100,
        cardinality_ratio: Ratio::new(1, 100),
        null_fraction: Ratio::from_int(0),
        recommended_encoding: enc.to_string(),
        recommended_codec: codec.to_string(),
        recommended_codec_level: level,
        encoding_rule_fired: "Test".to_string(),
        reason_brief: String::new(),
        confidence: "High".to_string(),
        confidence_reason: String::new(),
        impact_stars: 3,
        engine_compatibility: None,
        caveats: vec![],
        full_explain: None,
    }
}

#[test]
fn r1_match_when_encoding_and_codec_align() {
    let meta = make_meta("id", vec![vec!["DELTA_BINARY_PACKED".to_string()]], "ZSTD:3", 5, 1);
    let rec = make_rec("id", "DELTA_BINARY_PACKED", "ZSTD", Some(3));
    let diag = diagnose_column(&meta, &rec);
    assert_eq!(diag.status, DiagnosticStatus::Match);
}

#[test]
fn r2_healthy_dict_column_does_not_flag_as_fallback() {
    let mut meta = make_meta(
        "col",
        vec![vec!["PLAIN".to_string(), "RLE_DICTIONARY".to_string()]],
        "ZSTD:3",
        3,
        1,
    );
    meta.per_row_group_dict_page_bytes = vec![Some(2_000)];
    let rec = make_rec("col", "RLE_DICTIONARY", "ZSTD", Some(3));
    let diag = diagnose_column(&meta, &rec);
    assert_eq!(diag.status, DiagnosticStatus::Match);
}

#[test]
fn r2_mid_chunk_fallback_flagged_when_dict_near_limit() {
    let mut meta = make_meta(
        "col",
        vec![vec!["PLAIN".to_string(), "RLE_DICTIONARY".to_string()]],
        "ZSTD:3",
        3,
        1,
    );
    meta.per_row_group_dict_page_bytes = vec![Some(1_000_000)];
    let rec = make_rec("col", "RLE_DICTIONARY", "ZSTD", Some(3));
    let diag = diagnose_column(&meta, &rec);
    assert_eq!(diag.status, DiagnosticStatus::FallbackDictionary);
    assert!(diag.observation.contains("mid-chunk"));
}

#[test]
fn r2b_cross_rg_fallback_flagged() {
    let meta = make_meta(
        "col",
        vec![vec!["RLE_DICTIONARY".to_string()], vec!["PLAIN".to_string()]],
        "ZSTD:3",
        2,
        1,
    );
    let rec = make_rec("col", "RLE_DICTIONARY", "ZSTD", Some(3));
    let diag = diagnose_column(&meta, &rec);
    assert_eq!(diag.status, DiagnosticStatus::FallbackDictionary);
}

#[test]
fn r3_dictionary_never_attempted() {
    let meta = make_meta("col", vec![vec!["PLAIN".to_string()]], "ZSTD:3", 18, 10);
    let rec = make_rec("col", "RLE_DICTIONARY", "ZSTD", Some(3));
    let diag = diagnose_column(&meta, &rec);
    assert_eq!(diag.status, DiagnosticStatus::Mismatch);
    assert!(diag.observation.contains("did not apply dictionary"));
}

#[test]
fn r4_delta_ineffective() {
    let meta = make_meta("col", vec![vec!["DELTA_BINARY_PACKED".to_string()]], "ZSTD:3", 12, 10);
    let rec = make_rec("col", "PLAIN", "ZSTD", Some(3));
    let diag = diagnose_column(&meta, &rec);
    assert_eq!(diag.status, DiagnosticStatus::IneffectiveEncoding);
}

#[test]
fn r5_bss_ineffective() {
    let mut meta = make_meta("col", vec![vec!["BYTE_STREAM_SPLIT".to_string()]], "ZSTD:3", 105, 100);
    meta.physical_type = "DOUBLE".to_string();
    let rec = make_rec("col", "PLAIN", "ZSTD", Some(3));
    let diag = diagnose_column(&meta, &rec);
    assert_eq!(diag.status, DiagnosticStatus::IneffectiveEncoding);
}

#[test]
fn r6_mismatch_default() {
    let meta = make_meta("col", vec![vec!["PLAIN".to_string()]], "SNAPPY", 2, 1);
    let rec = make_rec("col", "PLAIN", "ZSTD", Some(3));
    let diag = diagnose_column(&meta, &rec);
    assert_eq!(diag.status, DiagnosticStatus::Mismatch);
}

#[test]
fn diagnosis_match_aligns_encoding_and_codec() {
    // A match is only reported when the current encodings include the
    // recommended one and the codec (with level) is the recommended one.
    let meta = make_meta("id", vec![vec!["DELTA_BINARY_PACKED".to_string()]], "ZSTD:1", 5, 1);
    let rec = make_rec("id", "DELTA_BINARY_PACKED", "ZSTD", Some(3));
    assert_ne!(diagnose_column(&meta, &rec).status, DiagnosticStatus::Match);
}

#[test]
fn variance_summary_absent_for_single_row_group() {
    let per_rg = vec![vec!["PLAIN".to_string(), "RLE_DICTIONARY".to_string()]];
    assert_eq!(per_row_group_variance_summary(&per_rg), None);
}

#[test]
fn rg_list_formats_runs() {
    assert_eq!(fmt_rg_list(&[0, 1, 2, 5, 7, 8]), "RGs 0-2,5,7-8");
    assert_eq!(fmt_rg_list(&[4]), "RG 4");
    assert_eq!(fmt_rg_list(&[]), "");
}

#[test]
fn largest_dict_page() {
    assert_eq!(largest_dict_page_bytes(&[Some(10), None, Some(300), Some(2)]), Some(300));
    assert_eq!(largest_dict_page_bytes(&[None, None]), None);
}

#[test]
fn human_readable_sizes() {
    assert_eq!(human_bytes(512), "512 B");
    assert_eq!(human_bytes(2048), "2.0 KB");
    assert_eq!(human_bytes(1_048_576), "1.00 MB");
}

#[test]
fn diagnose_all_skips_unknown_columns() {
    let meta = make_meta("id", vec![vec!["DELTA_BINARY_PACKED".to_string()]], "ZSTD:3", 5, 1);
    let fp = FileProfile {
        path: "t.parquet".to_string(),
        file_size_bytes: 1,
        parquet_version: 2,
        num_rows: 1,
        num_row_groups: 1,
        row_group_row_counts: vec![1],
        row_group_compressed_bytes: vec![1],
        created_by: None,
        columns: vec![meta],
    };
    let recs = vec![
        make_rec("missing", "PLAIN", "ZSTD", Some(3)),
        make_rec("id", "DELTA_BINARY_PACKED", "ZSTD", Some(3)),
    ];
    let d = diagnose_all(&fp, &recs);
    assert_eq!(d.len(), 1);
    assert_eq!(d[0].column_name, "id");
    assert_eq!(d[0].status, DiagnosticStatus::Match);
}
