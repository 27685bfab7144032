use autoparq::profiler::sample::{ColumnSample, SampleValues};
use autoparq::profiler::stats::{byte_histogram, count_distinct, profile_column, ColumnProfile};
use autoparq::ratio::Ratio;

fn make_sample(values: SampleValues, display: Option<Vec<String>>, physical_type: &str) -> ColumnSample {
    let n = match &values {
        SampleValues::Int64(x) => x.len(),
        SampleValues::Utf8(x) => x.len(),
        SampleValues::Boolean(x) => x.len(),
        SampleValues::LargeBinary(x) => x.len(),
        _ => 0,
    };
    ColumnSample {
        column_name: "test".to_string(),
        physical_type: physical_type.to_string(),
        logical_type: None,
        values,
        display,
        total_rows_in_file: 1000,
        sampled_rows: n,
    }
}

fn ints(v: Vec<Option<i64>>) -> ColumnSample {
    let display = v.iter().map(|x| x.map(|i| i.to_string()).unwrap_or_default()).collect();
    make_sample(SampleValues::Int64(v), Some(display), "INT64")
}

fn strings(v: Vec<&str>) -> ColumnSample {
    let display = v.iter().map(|s| s.to_string()).collect();
    make_sample(
        SampleValues::Utf8(v.iter().map(|s| Some(s.to_string())).collect()),
        Some(display),
        "BYTE_ARRAY",
    )
}

fn profile(sample: &ColumnSample) -> ColumnProfile {
    profile_column(sample, None, None)
}

fn as_f64(r: &Ratio) -> f64 {
    r.numerator() as f64 / r.denominator() as f64
}

/// Shannon entropy in bits of a byte histogram.
fn entropy(h: &[u64], total: u64) -> f64 {
    let t = total as f64;
    h.iter().filter(|&&c| c > 0).map(|&c| {
        let p = c as f64 / t;
        -p * p.log2()
    }).sum()
}

#[test]
fn test_string_monotonicity_sorted() {
    let p = profile(&strings(vec!["apple", "banana", "cherry", "date"]));
    assert!(as_f64(&p.string_monotonicity_score.unwrap()) > 0.99);
}

#[test]
fn test_string_monotonicity_reverse_sorted() {
    let p = profile(&strings(vec!["z", "y", "x", "w"]));
    assert_eq!(as_f64(&p.string_monotonicity_score.unwrap()), 0.0);
}

#[test]
fn test_string_monotonicity_none_for_int() {
    let p = profile(&ints(vec![Some(1), Some(2), Some(3)]));
    assert!(p.string_monotonicity_score.is_none());
}

#[test]
fn test_string_monotonicity_none_for_single_value() {
    let p = profile(&strings(vec!["only_one"]));
    assert!(p.string_monotonicity_score.is_none());
}

#[test]
fn test_monotonicity_sequential() {
    let p = profile(&ints(vec![Some(1), Some(2), Some(3), Some(4), Some(5)]));
    assert!(as_f64(&p.monotonicity_score.unwrap()) > 0.99);
}

#[test]
fn test_monotonicity_random() {
    let p = profile(&ints(vec![Some(5), Some(2), Some(8), Some(1), Some(9)]));
    assert!(as_f64(&p.monotonicity_score.unwrap()) < 0.6);
}

#[test]
fn test_run_length_all_same() {
    let p = profile(&ints(vec![Some(1), Some(1), Some(1), Some(1)]));
    assert!(as_f64(&p.run_length_score) > 0.99);
}

#[test]
fn test_cardinality_exact_small() {
    let p = profile(&ints(vec![Some(1), Some(2), Some(3), Some(1), Some(2)]));
    assert_eq!(p.cardinality_method, "exact");
    assert_eq!(p.cardinality_estimate, 3);
}

#[test]
fn test_uuid_detection_positive() {
    let p = profile(&strings(vec![
        "550e8400-e29b-41d4-a716-446655440000",
        "6ba7b810-9dad-11d1-80b4-00c04fd430c8",
        "6ba7b811-9dad-11d1-80b4-00c04fd430c8",
    ]));
    assert!(p.uuid_pattern_detected);
}

#[test]
fn test_uuid_detection_negative() {
    let p = profile(&strings(vec!["hello", "world", "foo"]));
    assert!(!p.uuid_pattern_detected);
}

#[test]
fn test_null_fraction() {
    let p = profile(&ints(vec![Some(1), None, Some(3), None]));
    assert!((as_f64(&p.null_fraction) - 0.5).abs() < 0.01);
}

#[test]
fn test_monotonicity_with_nulls() {
    let p = profile(&ints(vec![Some(1), None, Some(3), Some(4)]));
    let score = as_f64(&p.monotonicity_score.unwrap());
    assert!(score > 0.99, "score was {}", score);
}

#[test]
fn test_boolean_cardinality() {
    let v = vec![Some(true), Some(false), Some(true), Some(true)];
    let display = v.iter().map(|b: &Option<bool>| b.unwrap().to_string()).collect();
    let p = profile(&make_sample(SampleValues::Boolean(v), Some(display), "BOOLEAN"));
    assert_eq!(p.cardinality_estimate, 2);
    assert_eq!(p.cardinality_method, "exact");
}

#[test]
fn test_string_length_stats() {
    let p = profile(&strings(vec!["hi", "hello", "hey"]));
    let sls = p.string_length_stats.unwrap();
    assert_eq!(sls.min_len, 2);
    assert_eq!(sls.max_len, 5);
}

#[test]
fn test_json_detection_positive() {
    let p = profile(&strings(vec![r#"{"key": "value"}"#, r#"{"a": 1}"#, r#"["item1", "item2"]"#]));
    assert!(p.json_pattern_detected);
}

#[test]
fn test_byte_entropy_large_binary() {
    let data: Vec<Option<Vec<u8>>> =
        (0u8..=255u8).map(|b| Some(vec![b, b.wrapping_add(1), b.wrapping_mul(3)])).collect();
    let sample = make_sample(SampleValues::LargeBinary(data), None, "BYTE_ARRAY");
    let (h, total) = byte_histogram(&sample).expect("LargeBinary byte_entropy must be Some");
    let e = entropy(&h, total);
    assert!(e > 6.0, "expected high entropy, got {}", e);
}

#[test]
fn test_byte_entropy_large_binary_high_entropy() {
    let data: Vec<Option<Vec<u8>>> = (0u8..=255u8).map(|b| Some(vec![b])).collect();
    let sample = make_sample(SampleValues::LargeBinary(data), None, "BYTE_ARRAY");
    let (h, total) = byte_histogram(&sample).expect("LargeBinary byte_entropy must be Some");
    let e = entropy(&h, total);
    assert!((e - 8.0).abs() < 0.01, "expected ~8.0, got {}", e);
}

#[test]
fn string_length_mean_and_variance_are_exact() {
    let p = profile(&strings(vec!["hi", "hello", "hey"]));
    let sls = p.string_length_stats.unwrap();
    // lengths 2, 5, 3: mean 10/3, population variance 14/9
    assert_eq!(sls.mean_len.to_fixed(4), "3.3333");
    assert_eq!((sls.len_count, sls.len_sum, sls.len_sum_sq), (3, 10, 38));
    let n = sls.len_count as i64;
    let t = sls.len_sum as i64;
    let variance = Ratio::new(n * sls.len_sum_sq as i64 - t * t, (n * n) as u64);
    assert_eq!(variance.to_fixed(4), "1.5556");
}

#[test]
fn profile_fractions_are_exact() {
    let p = profile(&ints(vec![Some(1), None, Some(3), Some(3)]));
    assert_eq!(p.sample_rows, 4);
    assert_eq!(p.null_count_in_sample, 1);
    assert_eq!(p.null_fraction.to_fixed(2), "0.25");
    assert_eq!(p.sample_fraction.to_fixed(3), "0.004");
    assert_eq!(p.cardinality_estimate, 2);
    assert_eq!(p.cardinality_ratio.to_fixed(4), "0.6667");
}

#[test]
fn hll_estimate_is_used_from_fifty_thousand_values() {
    let v: Vec<Option<i64>> = (0..50_000).map(Some).collect();
    let p = profile_column(&ints(v), Some(49_000), None);
    assert_eq!(p.cardinality_method, "hyperloglog");
    assert_eq!(p.cardinality_estimate, 49_000);
}

#[test]
fn distinct_hashes_are_counted() {
    assert_eq!(count_distinct(&vec![3, 1, 3, 2, 1]), 3);
    assert_eq!(count_distinct(&vec![]), 0);
}

#[test]
fn histogram_absent_for_non_binary() {
    assert!(byte_histogram(&ints(vec![Some(1)])).is_none());
}

#[test]
fn json_detection_skips_leading_white_space() {
    let p = profile(&strings(vec!["  {\"a\": 1}", "\t[1, 2]", "\n {}", "plain"]));
    assert!(!p.uuid_pattern_detected);
    // three of four strings (75%) look like JSON: under the 80% threshold
    assert!(!p.json_pattern_detected);
    let p = profile(&strings(vec!["  {\"a\": 1}", "\t[1, 2]", "\n {}", " [ ]", "x"]));
    assert!(p.json_pattern_detected);
}
