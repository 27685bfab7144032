use autoparq::profiler::footer::{
    build_file_profile_from_metadata, decode_stats_value, format_logical_type, CompressionKind, EncodingKind,
    LogicalKind, PhysicalType, RawColumnChunk, RawFileMetadata, RawRowGroup, RawStatistics, StatBound,
    TimeUnitKind,
};

fn chunk(name: &str, compressed: u64, uncompressed: u64, encodings: Vec<EncodingKind>) -> RawColumnChunk {
    RawColumnChunk {
        name: name.to_string(),
        physical_type: PhysicalType::Int32,
        logical_type: None,
        compression: CompressionKind::Zstd(3),
        encodings,
        compressed_size: compressed,
        uncompressed_size: uncompressed,
        dictionary_page_offset: None,
        data_page_offset: 4,
        statistics: None,
    }
}

fn bound(v: i32) -> StatBound {
    StatBound { bytes: v.to_le_bytes().to_vec(), float_text: None }
}

#[test]
fn test_compression_ratio_computation() {
    // compression_ratio = uncompressed / compressed: 100 / 50 = 2.0
    let raw = RawFileMetadata {
        version: 2,
        num_rows: 10,
        created_by: None,
        row_groups: vec![RawRowGroup {
            num_rows: 10,
            compressed_size: 50,
            columns: vec![chunk("c", 50, 100, vec![EncodingKind::Plain])],
        }],
    };
    let fp = build_file_profile_from_metadata(raw, 1000, "f.parquet");
    let ratio = &fp.columns[0].compression_ratio;
    assert_eq!(ratio.numerator() * 1, 100);
    assert_eq!(ratio.denominator(), 50);
    assert_eq!(ratio.to_fixed(1), "2.0");
}

#[test]
fn test_decode_int32() {
    let bytes = 42i32.to_le_bytes();
    let result = decode_stats_value(&bytes, PhysicalType::Int32, &None);
    assert_eq!(result, "42");
}

#[test]
fn test_decode_string_truncation() {
    let long_string = "a".repeat(50);
    let result = decode_stats_value(long_string.as_bytes(), PhysicalType::ByteArray, &None);
    assert!(result.len() <= 42);
    assert!(result.ends_with('…'));
}

#[test]
fn decode_negative_int64_and_booleans() {
    let bytes = (-7i64).to_le_bytes();
    assert_eq!(decode_stats_value(&bytes, PhysicalType::Int64, &None), "-7");
    assert_eq!(decode_stats_value(&[1], PhysicalType::Boolean, &None), "true");
    assert_eq!(decode_stats_value(&[0], PhysicalType::Boolean, &None), "false");
    assert_eq!(
        decode_stats_value(&[1, 2], PhysicalType::Double, &Some("1.5000".to_string())),
        "1.5000"
    );
}

#[test]
fn decode_short_string_is_kept() {
    assert_eq!(decode_stats_value(b"hello", PhysicalType::ByteArray, &None), "hello");
    // Invalid UTF-8 is shown with the replacement character.
    assert_eq!(decode_stats_value(&[0x61, 0xff], PhysicalType::ByteArray, &None), "a\u{FFFD}");
}

#[test]
fn decode_fixed_len_as_hex() {
    assert_eq!(decode_stats_value(&[0xab, 0x01], PhysicalType::FixedLenByteArray, &None), "ab01");
}

#[test]
fn file_profile_sums_row_groups_and_keeps_extremes() {
    let mut c1 = chunk("id", 40, 100, vec![EncodingKind::Plain, EncodingKind::Rle]);
    c1.statistics = Some(RawStatistics { null_count: Some(1), min: Some(bound(5)), max: Some(bound(9)) });
    let mut c2 = chunk("id", 60, 200, vec![EncodingKind::RleDictionary, EncodingKind::Rle]);
    c2.dictionary_page_offset = Some(4);
    c2.data_page_offset = 1004;
    c2.statistics = Some(RawStatistics { null_count: Some(2), min: Some(bound(3)), max: Some(bound(7)) });
    let raw = RawFileMetadata {
        version: 1,
        num_rows: 20,
        created_by: Some("writer".to_string()),
        row_groups: vec![
            RawRowGroup { num_rows: 10, compressed_size: 40, columns: vec![c1] },
            RawRowGroup { num_rows: 10, compressed_size: 60, columns: vec![c2] },
        ],
    };
    let fp = build_file_profile_from_metadata(raw, 500, "x.parquet");
    assert_eq!(fp.path, "x.parquet");
    assert_eq!(fp.num_row_groups, 2);
    assert_eq!(fp.row_group_row_counts, vec![10, 10]);
    assert_eq!(fp.row_group_compressed_bytes, vec![40, 60]);
    assert_eq!(fp.created_by, Some("writer".to_string()));
    let col = &fp.columns[0];
    assert_eq!(col.name, "id");
    assert_eq!(col.physical_type, "INT32");
    assert_eq!(col.codec, "ZSTD:3");
    assert_eq!(col.compressed_bytes, 100);
    assert_eq!(col.uncompressed_bytes, 300);
    assert_eq!(col.encodings, vec!["PLAIN", "RLE", "RLE_DICTIONARY"]);
    assert_eq!(col.per_row_group_encodings[1], vec!["RLE", "RLE_DICTIONARY"]);
    assert_eq!(col.total_null_count, Some(3));
    assert!(col.statistics_available);
    assert_eq!(col.min_value, Some("3".to_string()));
    assert_eq!(col.max_value, Some("9".to_string()));
    assert_eq!(col.per_row_group_dict_page_bytes, vec![None, Some(1000)]);
}

#[test]
fn file_profile_without_statistics() {
    let raw = RawFileMetadata {
        version: 2,
        num_rows: 10,
        created_by: None,
        row_groups: vec![RawRowGroup {
            num_rows: 10,
            compressed_size: 0,
            columns: vec![chunk("c", 0, 0, vec![])],
        }],
    };
    let fp = build_file_profile_from_metadata(raw, 0, "e.parquet");
    let col = &fp.columns[0];
    assert!(!col.statistics_available);
    assert_eq!(col.total_null_count, None);
    assert_eq!(col.min_value, None);
    assert_eq!(col.compression_ratio.to_fixed(1), "1.0");
}

#[test]
fn logical_types_are_named() {
    assert_eq!(
        format_logical_type(&LogicalKind::Timestamp { unit: TimeUnitKind::Micros, utc: true }),
        "TIMESTAMP(MICROS, UTC)"
    );
    assert_eq!(format_logical_type(&LogicalKind::KeyValue), "MAP");
}
