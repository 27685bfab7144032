use autoparq::bench::{
    assemble_benchmark, bench_entry, default_codecs, finish_benchmark, parse_compression, parse_encoding, plan_benchmark,
    valid_encodings_for_type, BenchEntry,
};
use autoparq::error::AutoparqError;
use autoparq::profiler::footer::{CompressionKind, EncodingKind};
use autoparq::ratio::Ratio;

#[test]
fn test_parse_encoding_valid() {
    assert!(parse_encoding("PLAIN").is_ok());
    assert!(parse_encoding("DELTA_BINARY_PACKED").is_ok());
    assert!(parse_encoding("RLE_DICTIONARY").is_ok());
    assert!(parse_encoding("DICT").is_ok());
    assert!(parse_encoding("BYTE_STREAM_SPLIT").is_ok());
    assert!(parse_encoding("RLE").is_ok());
}

#[test]
fn test_parse_encoding_invalid() {
    assert!(parse_encoding("BOGUS_ENCODING").is_err());
}

#[test]
fn test_parse_compression_valid() {
    assert!(parse_compression("SNAPPY", None).is_ok());
    assert!(parse_compression("LZ4", None).is_ok());
    assert!(parse_compression("UNCOMPRESSED", None).is_ok());
    assert!(parse_compression("ZSTD", Some(3)).is_ok());
    assert!(parse_compression("GZIP", None).is_ok());
}

#[test]
fn test_parse_compression_invalid() {
    assert!(parse_compression("BOGUS_CODEC", None).is_err());
}

#[test]
fn test_valid_encodings_for_type() {
    let int_encs = valid_encodings_for_type("INT32");
    assert!(int_encs.contains(&"DELTA_BINARY_PACKED".to_string()));

    let float_encs = valid_encodings_for_type("FLOAT");
    assert!(float_encs.contains(&"BYTE_STREAM_SPLIT".to_string()));

    let bool_encs = valid_encodings_for_type("BOOLEAN");
    assert_eq!(bool_encs, vec!["PLAIN".to_string()]);
}

#[test]
fn test_default_codecs_count() {
    assert_eq!(default_codecs().len(), 6);
}

#[test]
fn parse_encoding_is_case_insensitive_and_exact() {
    assert_eq!(parse_encoding("dict").unwrap(), EncodingKind::RleDictionary);
    assert_eq!(parse_encoding("delta_binary_packed").unwrap(), EncodingKind::DeltaBinaryPacked);
    match parse_encoding("bogus") {
        Err(AutoparqError::UnsupportedType(m)) => assert_eq!(m, "Unknown encoding: BOGUS"),
        other => panic!("unexpected {:?}", other),
    }
}

#[test]
fn parse_compression_levels() {
    assert_eq!(parse_compression("zstd", None).unwrap(), CompressionKind::Zstd(3));
    assert_eq!(parse_compression("ZSTD", Some(6)).unwrap(), CompressionKind::Zstd(6));
    assert_eq!(parse_compression("gzip", None).unwrap(), CompressionKind::Gzip(6));
    assert!(parse_compression("ZSTD", Some(23)).is_err());
    assert!(parse_compression("ZSTD", Some(0)).is_err());
    match parse_compression("brotli", None) {
        Err(e) => assert_eq!(e.message(), "Unsupported type: Unknown codec: BROTLI"),
        Ok(_) => panic!("BROTLI is not benchmarked"),
    }
}

#[test]
fn plan_pairs_every_encoding_with_every_codec() {
    let codecs = default_codecs();
    let encs = valid_encodings_for_type("INT64");
    let plan = plan_benchmark(&codecs, &encs).unwrap();
    assert_eq!(plan.len(), 18);
    assert_eq!(plan[0].encoding, "PLAIN");
    assert_eq!(plan[0].codec, "SNAPPY");
    assert_eq!(plan[6].encoding, "DELTA_BINARY_PACKED");
    assert_eq!(plan[8].compression, CompressionKind::Zstd(3));
    assert_eq!(plan[17].compression, CompressionKind::Uncompressed);
}

#[test]
fn plan_reports_first_bad_encoding() {
    let codecs = default_codecs();
    let encs = vec!["PLAIN".to_string(), "NOPE".to_string()];
    assert!(plan_benchmark(&codecs, &encs).is_err());
}

#[test]
fn bench_entries_sorted_smallest_first_and_stable() {
    let codecs = vec![("SNAPPY".to_string(), None), ("LZ4".to_string(), None), ("ZSTD".to_string(), Some(3))];
    let encs = vec!["PLAIN".to_string()];
    let plan = plan_benchmark(&codecs, &encs).unwrap();
    let entries: Vec<BenchEntry> = vec![
        bench_entry(&plan[0], 500, 1, 1, 1000),
        bench_entry(&plan[1], 300, 1, 1, 1000),
        bench_entry(&plan[2], 500, 1, 1, 1000),
    ];
    let r = finish_benchmark("c", "INT64", 1000, entries);
    assert_eq!(r.entries[0].codec, "LZ4");
    assert_eq!(r.entries[1].codec, "SNAPPY");
    assert_eq!(r.entries[2].codec, "ZSTD");
    assert_eq!(r.entries[0].compression_ratio.to_fixed(4), Ratio::of_counts(10, 3).to_fixed(4));
    assert_eq!(r.entries[0].compression_ratio.to_fixed(4), "3.3333");
}

#[test]
fn bench_entry_with_nothing_written_has_ratio_one() {
    let codecs = vec![("SNAPPY".to_string(), None)];
    let plan = plan_benchmark(&codecs, &["PLAIN".to_string()]).unwrap();
    let e = bench_entry(&plan[0], 0, 0, 0, 1000);
    assert_eq!(e.compression_ratio.to_fixed(2), "1.00");
}

#[test]
fn zstd_level_out_of_range_message() {
    match parse_compression("ZSTD", Some(23)) {
        Err(e) => assert_eq!(e.message(), "Unsupported type: Parquet error: valid compression range 1..=22 exceeded."),
        Ok(_) => panic!("level 23 is out of range"),
    }
}

#[test]
fn benchmark_has_one_entry_per_encoding_and_codec() {
    let codecs = vec![("SNAPPY".to_string(), None), ("ZSTD".to_string(), Some(3))];
    let encs = vec!["PLAIN".to_string(), "RLE_DICTIONARY".to_string()];
    let plan = plan_benchmark(&codecs, &encs).unwrap();
    assert_eq!(plan.len(), 4);
    assert_eq!((plan[1].encoding.as_str(), plan[1].codec.as_str(), plan[1].codec_level), ("PLAIN", "ZSTD", Some(3)));
    assert_eq!(plan[2].encoding, "RLE_DICTIONARY");
    let measured = vec![(400, 5, 6), (250, 7, 8), (300, 1, 2), (250, 3, 4)];
    let r = assemble_benchmark("c", "BYTE_ARRAY", 1000, &plan, &measured);
    assert_eq!(r.column_name, "c");
    assert_eq!(r.uncompressed_bytes, 1000);
    let got: Vec<(String, String, Option<i32>, usize, u64, u64)> = r
        .entries
        .iter()
        .map(|e| (e.encoding.clone(), e.codec.clone(), e.codec_level, e.compressed_bytes, e.write_ms, e.read_ms))
        .collect();
    assert_eq!(
        got,
        vec![
            ("PLAIN".to_string(), "ZSTD".to_string(), Some(3), 250, 7, 8),
            ("RLE_DICTIONARY".to_string(), "ZSTD".to_string(), Some(3), 250, 3, 4),
            ("RLE_DICTIONARY".to_string(), "SNAPPY".to_string(), None, 300, 1, 2),
            ("PLAIN".to_string(), "SNAPPY".to_string(), None, 400, 5, 6),
        ]
    );
    assert_eq!(r.entries[0].compression_ratio.to_fixed(1), "4.0");
}
