//! The footer of a Parquet file as plain values, the names under which its
//! types, codecs and encodings are reported, and the per-column summary built
//! from it.

use vstd::prelude::*;
use vstd::string::StrSliceExecFns;
use crate::order::{insert_sorted, lemma_is_sorted_list_of, sorted_list_of, strictly_sorted};
use crate::profiler::metadata::{ColumnMetaSummary, FileProfile};
use crate::ratio::Ratio;
use crate::text::{
    bool_string, bool_text, copy_opt_string, int_text, nat_text, opt_text, push_int, push_nat, text,
    views,
};

verus! {

/// Physical storage type of a column.
#[derive(Clone, Copy, Debug, PartialEq, Eq, Structural)]
pub enum PhysicalType {
    Boolean,
    Int32,
    Int64,
    Int96,
    Float,
    Double,
    ByteArray,
    FixedLenByteArray,
}

#[derive(Clone, Copy, Debug, PartialEq, Eq, Structural)]
pub enum TimeUnitKind {
    Millis,
    Micros,
    Nanos,
}

/// Logical type annotation of a column.
#[derive(Clone, Copy, Debug, PartialEq, Eq, Structural)]
pub enum LogicalKind {
    String,
    /// A map of key-value pairs.
    KeyValue,
    List,
    Enum,
    Decimal { scale: i32, precision: i32 },
    Date,
    Time { utc: bool, unit: TimeUnitKind },
    Timestamp { utc: bool, unit: TimeUnitKind },
    Integer { bit_width: i8, signed: bool },
    Unknown,
    Json,
    Bson,
    Uuid,
    Float16,
}

/// Compression codec of a column chunk, with its level where it has one.
#[derive(Clone, Copy, Debug, PartialEq, Eq, Structural)]
pub enum CompressionKind {
    Uncompressed,
    Snappy,
    Gzip(u32),
    Lzo,
    Brotli(u32),
    Lz4,
    Zstd(i32),
    Lz4Raw,
}

/// Encoding used by some page of a column chunk.
#[derive(Clone, Copy, Debug, PartialEq, Eq, Structural)]
pub enum EncodingKind {
    Plain,
    PlainDictionary,
    Rle,
    BitPacked,
    DeltaBinaryPacked,
    DeltaLengthByteArray,
    DeltaByteArray,
    RleDictionary,
    ByteStreamSplit,
}

pub open spec fn physical_type_text(t: PhysicalType) -> Seq<char> {
    match t {
        PhysicalType::Int32 => "INT32"@,
        PhysicalType::Int64 => "INT64"@,
        PhysicalType::Float => "FLOAT"@,
        PhysicalType::Double => "DOUBLE"@,
        PhysicalType::ByteArray => "BYTE_ARRAY"@,
        PhysicalType::FixedLenByteArray => "FIXED_LEN_BYTE_ARRAY"@,
        PhysicalType::Boolean => "BOOLEAN"@,
        PhysicalType::Int96 => "INT96"@,
    }
}

pub fn format_physical_type(t: PhysicalType) -> (s: String)
    ensures
        s@ == physical_type_text(t),
{
    match t {
        PhysicalType::Int32 => text("INT32"),
        PhysicalType::Int64 => text("INT64"),
        PhysicalType::Float => text("FLOAT"),
        PhysicalType::Double => text("DOUBLE"),
        PhysicalType::ByteArray => text("BYTE_ARRAY"),
        PhysicalType::FixedLenByteArray => text("FIXED_LEN_BYTE_ARRAY"),
        PhysicalType::Boolean => text("BOOLEAN"),
        PhysicalType::Int96 => text("INT96"),
    }
}

pub open spec fn time_unit_text(u: TimeUnitKind) -> Seq<char> {
    match u {
        TimeUnitKind::Millis => "MILLIS"@,
        TimeUnitKind::Micros => "MICROS"@,
        TimeUnitKind::Nanos => "NANOS"@,
    }
}

pub open spec fn logical_type_text(lt: LogicalKind) -> Seq<char> {
    match lt {
        LogicalKind::String => "STRING"@,
        LogicalKind::Timestamp { utc, unit } => if utc {
            "TIMESTAMP("@ + time_unit_text(unit) + ", UTC)"@
        } else {
            "TIMESTAMP("@ + time_unit_text(unit) + ")"@
        },
        LogicalKind::Date => "DATE"@,
        LogicalKind::Time { .. } => "TIME"@,
        LogicalKind::Integer { bit_width, signed } => "INT("@ + int_text(bit_width as int) + ", "@
            + bool_text(signed) + ")"@,
        LogicalKind::Decimal { scale, precision } => "DECIMAL("@ + int_text(precision as int) + ", "@
            + int_text(scale as int) + ")"@,
        LogicalKind::List => "LIST"@,
        LogicalKind::KeyValue => "MAP"@,
        LogicalKind::Enum => "ENUM"@,
        LogicalKind::Json => "JSON"@,
        LogicalKind::Bson => "BSON"@,
        LogicalKind::Uuid => "UUID"@,
        LogicalKind::Float16 => "FLOAT16"@,
        LogicalKind::Unknown => "Unknown"@,
    }
}

pub fn format_logical_type(lt: &LogicalKind) -> (s: String)
    ensures
        s@ == logical_type_text(*lt),
{
    match lt {
        LogicalKind::String => text("STRING"),
        LogicalKind::Timestamp { utc, unit } => {
            let mut s = text("TIMESTAMP(");
            s.append(
                match unit {
                    TimeUnitKind::Millis => "MILLIS",
                    TimeUnitKind::Micros => "MICROS",
                    TimeUnitKind::Nanos => "NANOS",
                },
            );
            if *utc {
                s.append(", UTC)");
            } else {
                s.append(")");
            }
            s
        },
        LogicalKind::Date => text("DATE"),
        LogicalKind::Time { .. } => text("TIME"),
        LogicalKind::Integer { bit_width, signed } => {
            let mut s = text("INT(");
            push_int(&mut s, *bit_width as i64);
            s.append(", ");
            let b = bool_string(*signed);
            s.append(b.as_str());
            s.append(")");
            s
        },
        LogicalKind::Decimal { scale, precision } => {
            let mut s = text("DECIMAL(");
            push_int(&mut s, *precision as i64);
            s.append(", ");
            push_int(&mut s, *scale as i64);
            s.append(")");
            s
        },
        LogicalKind::List => text("LIST"),
        LogicalKind::KeyValue => text("MAP"),
        LogicalKind::Enum => text("ENUM"),
        LogicalKind::Json => text("JSON"),
        LogicalKind::Bson => text("BSON"),
        LogicalKind::Uuid => text("UUID"),
        LogicalKind::Float16 => text("FLOAT16"),
        LogicalKind::Unknown => text("Unknown"),
    }
}

pub open spec fn compression_text(c: CompressionKind) -> Seq<char> {
    match c {
        CompressionKind::Snappy => "SNAPPY"@,
        CompressionKind::Gzip(l) => "GZIP:"@ + nat_text(l as nat),
        CompressionKind::Lzo => "LZO"@,
        CompressionKind::Brotli(l) => "BROTLI:"@ + nat_text(l as nat),
        CompressionKind::Lz4 => "LZ4"@,
        CompressionKind::Zstd(l) => "ZSTD:"@ + int_text(l as int),
        CompressionKind::Lz4Raw => "LZ4_RAW"@,
        CompressionKind::Uncompressed => "UNCOMPRESSED"@,
    }
}

pub fn format_compression(c: CompressionKind) -> (s: String)
    ensures
        s@ == compression_text(c),
{
    match c {
        CompressionKind::Snappy => text("SNAPPY"),
        CompressionKind::Gzip(l) => {
            let mut s = text("GZIP:");
            push_nat(&mut s, l as u128);
            s
        },
        CompressionKind::Lzo => text("LZO"),
        CompressionKind::Brotli(l) => {
            let mut s = text("BROTLI:");
            push_nat(&mut s, l as u128);
            s
        },
        CompressionKind::Lz4 => text("LZ4"),
        CompressionKind::Zstd(l) => {
            let mut s = text("ZSTD:");
            push_int(&mut s, l as i64);
            s
        },
        CompressionKind::Lz4Raw => text("LZ4_RAW"),
        CompressionKind::Uncompressed => text("UNCOMPRESSED"),
    }
}

pub open spec fn encoding_text(e: EncodingKind) -> Seq<char> {
    match e {
        EncodingKind::Plain => "PLAIN"@,
        EncodingKind::Rle => "RLE"@,
        EncodingKind::BitPacked => "BIT_PACKED"@,
        EncodingKind::DeltaBinaryPacked => "DELTA_BINARY_PACKED"@,
        EncodingKind::DeltaLengthByteArray => "DELTA_LENGTH_BYTE_ARRAY"@,
        EncodingKind::DeltaByteArray => "DELTA_BYTE_ARRAY"@,
        EncodingKind::RleDictionary => "RLE_DICTIONARY"@,
        EncodingKind::PlainDictionary => "PLAIN_DICTIONARY"@,
        EncodingKind::ByteStreamSplit => "BYTE_STREAM_SPLIT"@,
    }
}

pub fn format_encoding(e: EncodingKind) -> (s: String)
    ensures
        s@ == encoding_text(e),
{
    match e {
        EncodingKind::Plain => text("PLAIN"),
        EncodingKind::Rle => text("RLE"),
        EncodingKind::BitPacked => text("BIT_PACKED"),
        EncodingKind::DeltaBinaryPacked => text("DELTA_BINARY_PACKED"),
        EncodingKind::DeltaLengthByteArray => text("DELTA_LENGTH_BYTE_ARRAY"),
        EncodingKind::DeltaByteArray => text("DELTA_BYTE_ARRAY"),
        EncodingKind::RleDictionary => text("RLE_DICTIONARY"),
        EncodingKind::PlainDictionary => text("PLAIN_DICTIONARY"),
        EncodingKind::ByteStreamSplit => text("BYTE_STREAM_SPLIT"),
    }
}

} // verus!

verus! {

/// What `String::from_utf8_lossy` makes of some bytes.
pub uninterp spec fn utf8_lossy_of(b: Seq<u8>) -> Seq<char>;

/// Calls `String::from_utf8_lossy`, which replaces each invalid UTF-8 sequence
/// with U+FFFD; the text is named `utf8_lossy_of` of the bytes (it depends on
/// them alone).
#[verifier::external_body]
fn utf8_lossy(b: &[u8]) -> (s: String)
    ensures
        s@ == utf8_lossy_of(b@),
{
    String::from_utf8_lossy(b).into_owned()
}

/// `b[0] + 256 b[1] + ...` over the first `n` bytes.
pub open spec fn le_value(b: Seq<u8>, n: nat) -> int
    decreases n,
{
    if n == 0 {
        0
    } else {
        le_value(b, (n - 1) as nat) + b[n - 1] * pow256((n - 1) as nat)
    }
}

pub open spec fn pow256(n: nat) -> int
    decreases n,
{
    if n == 0 { 1 } else { 256 * pow256((n - 1) as nat) }
}

/// The two's-complement value of the first `n` little-endian bytes.
pub open spec fn le_signed(b: Seq<u8>, n: nat) -> int {
    let u = le_value(b, n);
    if u >= pow256(n) / 2 { u - pow256(n) } else { u }
}

pub open spec fn hex_digit(d: int) -> char {
    if d < 10 { crate::text::digit_char(d as nat) }
    else if d == 10 { 'a' }
    else if d == 11 { 'b' }
    else if d == 12 { 'c' }
    else if d == 13 { 'd' }
    else if d == 14 { 'e' }
    else { 'f' }
}

/// Two lowercase hex digits per byte.
pub open spec fn hex_text(b: Seq<u8>) -> Seq<char>
    decreases b.len(),
{
    if b.len() == 0 {
        seq![]
    } else {
        hex_text(b.drop_last()) + seq![hex_digit((b.last() / 16) as int), hex_digit((b.last() % 16) as int)]
    }
}

/// A statistic bound of a column chunk: its raw bytes and, for FLOAT and
/// DOUBLE columns, the value shown with four decimals.
pub struct StatBound {
    pub bytes: Vec<u8>,
    pub float_text: Option<String>,
}

/// The bytes can be shown under the physical type.
pub open spec fn decodable(b: Seq<u8>, t: PhysicalType, float_text: Option<Seq<char>>) -> bool {
    match t {
        PhysicalType::Int32 => b.len() >= 4,
        PhysicalType::Int64 => b.len() >= 8,
        PhysicalType::Float | PhysicalType::Double => float_text is Some,
        _ => true,
    }
}

/// A statistic value for display under the physical type: integers in decimal,
/// floats with four decimals, strings cut to 39 characters and an ellipsis
/// when longer than 40, fixed-length bytes as hex (at most 20 bytes), INT96 as
/// hex, booleans as `true` or `false`.
pub open spec fn decoded_text(b: Seq<u8>, t: PhysicalType, float_text: Option<Seq<char>>) -> Seq<char> {
    match t {
        PhysicalType::Int32 => int_text(le_signed(b, 4)),
        PhysicalType::Int64 => int_text(le_signed(b, 8)),
        PhysicalType::Float | PhysicalType::Double => float_text.unwrap(),
        PhysicalType::ByteArray => {
            let s = utf8_lossy_of(b);
            if s.len() > 40 {
                s.take(39) + "…"@
            } else {
                s
            }
        },
        PhysicalType::FixedLenByteArray => hex_text(b.take(if b.len() < 20 { b.len() as int } else { 20 })),
        PhysicalType::Int96 => hex_text(b),
        PhysicalType::Boolean => if b.len() > 0 && b[0] != 0 {
            "true"@
        } else {
            "false"@
        },
    }
}

fn hex_digit_str(d: u8) -> (s: &'static str)
    requires
        d < 16,
    ensures
        s@ == seq![hex_digit(d as int)],
{
    proof {
        reveal_strlit("a");
        reveal_strlit("b");
        reveal_strlit("c");
        reveal_strlit("d");
        reveal_strlit("e");
        reveal_strlit("f");
    }
    if d < 10 {
        crate::text::digit_str(d as u128)
    } else if d == 10 {
        "a"
    } else if d == 11 {
        "b"
    } else if d == 12 {
        "c"
    } else if d == 13 {
        "d"
    } else if d == 14 {
        "e"
    } else {
        "f"
    }
}

fn hex_string(b: &[u8], n: usize) -> (s: String)
    requires
        n <= b@.len(),
    ensures
        s@ == hex_text(b@.take(n as int)),
{
    let mut s = String::new();
    let mut i: usize = 0;
    proof {
        assert(b@.take(0) =~= Seq::<u8>::empty());
    }
    while i < n
        invariant
            i <= n <= b@.len(),
            s@ == hex_text(b@.take(i as int)),
        decreases n - i,
    {
        let x = b[i];
        let hi = hex_digit_str(x / 16);
        let lo = hex_digit_str(x % 16);
        s.append(hi);
        s.append(lo);
        proof {
            assert(b@.take(i + 1).drop_last() =~= b@.take(i as int));
            assert(b@.take(i + 1).last() == x);
            assert(s@ =~= hex_text(b@.take(i + 1)));
        }
        i = i + 1;
    }
    s
}

fn le_i32(b: &[u8]) -> (v: i64)
    requires
        b@.len() >= 4,
    ensures
        v == le_signed(b@, 4),
{
    let u: u64 = (b[0] as u64) + 256 * (b[1] as u64) + 65536 * (b[2] as u64) + 16777216 * (b[3] as u64);
    proof {
        reveal_with_fuel(le_value, 5);
        reveal_with_fuel(pow256, 5);
        assert(pow256(1) == 256 && pow256(2) == 65536 && pow256(3) == 16777216 && pow256(4) == 0x1_0000_0000);
        assert(le_value(b@, 0) == 0);
        assert(pow256(0) == 1);
        assert(le_value(b@, 1) == le_value(b@, 0) + b@[0] * pow256(0));
        assert(le_value(b@, 1) == b@[0]);
        assert(le_value(b@, 2) == b@[0] + b@[1] * 256);
        assert(le_value(b@, 3) == b@[0] + b@[1] * 256 + b@[2] * 65536);
        assert(u == le_value(b@, 4));
    }
    if u >= 0x8000_0000 {
        (u as i64) - 0x1_0000_0000
    } else {
        u as i64
    }
}

fn le_i64(b: &[u8]) -> (v: i128)
    requires
        b@.len() >= 8,
    ensures
        v == le_signed(b@, 8),
        -0x8000_0000_0000_0000 <= v < 0x8000_0000_0000_0000,
{
    let u: u128 = (b[0] as u128) + 0x100 * (b[1] as u128) + 0x1_0000 * (b[2] as u128) + 0x100_0000 * (
    b[3] as u128) + 0x1_0000_0000 * (b[4] as u128) + 0x100_0000_0000 * (b[5] as u128)
        + 0x1_0000_0000_0000 * (b[6] as u128) + 0x100_0000_0000_0000 * (b[7] as u128);
    proof {
        reveal_with_fuel(le_value, 9);
        reveal_with_fuel(pow256, 9);
        assert(pow256(1) == 0x100 && pow256(2) == 0x1_0000 && pow256(3) == 0x100_0000);
        assert(pow256(4) == 0x1_0000_0000 && pow256(5) == 0x100_0000_0000 && pow256(6) == 0x1_0000_0000_0000);
        assert(pow256(7) == 0x100_0000_0000_0000 && pow256(8) == 0x1_0000_0000_0000_0000);
        assert(le_value(b@, 0) == 0);
        assert(pow256(0) == 1);
        assert(le_value(b@, 1) == le_value(b@, 0) + b@[0] * pow256(0));
        assert(le_value(b@, 1) == b@[0]);
        assert(le_value(b@, 2) == le_value(b@, 1) + b@[1] * 0x100);
        assert(le_value(b@, 3) == le_value(b@, 2) + b@[2] * 0x1_0000);
        assert(le_value(b@, 4) == le_value(b@, 3) + b@[3] * 0x100_0000);
        assert(le_value(b@, 5) == le_value(b@, 4) + b@[4] * 0x1_0000_0000);
        assert(le_value(b@, 6) == le_value(b@, 5) + b@[5] * 0x100_0000_0000);
        assert(le_value(b@, 7) == le_value(b@, 6) + b@[6] * 0x1_0000_0000_0000);
        assert(u == le_value(b@, 8));
    }
    if u >= 0x8000_0000_0000_0000 {
        (u as i128) - 0x1_0000_0000_0000_0000
    } else {
        u as i128
    }
}

/// A statistic value for display under the physical type (see `decoded_text`).
pub fn decode_stats_value(bytes: &[u8], physical_type: PhysicalType, float_text: &Option<String>) -> (s: String)
    requires
        decodable(bytes@, physical_type, opt_text(*float_text)),
    ensures
        s@ == decoded_text(bytes@, physical_type, opt_text(*float_text)),
{
    match physical_type {
        PhysicalType::Int32 => {
            let v = le_i32(bytes);
            let mut s = String::new();
            push_int(&mut s, v);
            proof {
                assert(s@ =~= decoded_text(bytes@, physical_type, opt_text(*float_text)));
            }
            s
        },
        PhysicalType::Int64 => {
            let v = le_i64(bytes);
            let mut s = String::new();
            if v < 0 {
                s.append("-");
                push_nat(&mut s, (-v) as u128);
                proof {
                    reveal_strlit("-");
                }
            } else {
                push_nat(&mut s, v as u128);
            }
            proof {
                assert(s@ =~= decoded_text(bytes@, physical_type, opt_text(*float_text)));
            }
            s
        },
        PhysicalType::Float | PhysicalType::Double => {
            match float_text {
                Some(t) => t.clone(),
                None => String::new(),
            }
        },
        PhysicalType::ByteArray => {
            let s = utf8_lossy(bytes);
            let n = s.as_str().unicode_len();
            if n > 40 {
                let head = s.as_str().substring_char(0, 39);
                let mut t = text(head);
                t.append("…");
                proof {
                    assert(s@.subrange(0, 39) =~= s@.take(39));
                }
                t
            } else {
                s
            }
        },
        PhysicalType::FixedLenByteArray => {
            let limit = if bytes.len() < 20 { bytes.len() } else { 20 };
            hex_string(bytes, limit)
        },
        PhysicalType::Int96 => {
            let s = hex_string(bytes, bytes.len());
            proof {
                assert(bytes@.take(bytes@.len() as int) =~= bytes@);
            }
            s
        },
        PhysicalType::Boolean => {
            if bytes.len() > 0 && bytes[0] != 0 {
                text("true")
            } else {
                text("false")
            }
        },
    }
}

} // verus!

verus! {

/// `a` sorts before `b` byte by byte, a proper prefix first.
pub open spec fn bytes_lt(a: Seq<u8>, b: Seq<u8>) -> bool
    decreases a.len(),
{
    if a.len() == 0 {
        b.len() > 0
    } else if b.len() == 0 {
        false
    } else if a[0] != b[0] {
        a[0] < b[0]
    } else {
        bytes_lt(a.drop_first(), b.drop_first())
    }
}

/// Whether `a` sorts before `b` byte by byte.
pub fn bytes_less(a: &Vec<u8>, b: &Vec<u8>) -> (r: bool)
    ensures
        r == bytes_lt(a@, b@),
{
    let mut i: usize = 0;
    proof {
        assert(a@.skip(0) =~= a@);
        assert(b@.skip(0) =~= b@);
    }
    while i < a.len() && i < b.len()
        invariant
            i <= a@.len(),
            i <= b@.len(),
            bytes_lt(a@, b@) == bytes_lt(a@.skip(i as int), b@.skip(i as int)),
        decreases a@.len() - i,
    {
        let x = a[i];
        let y = b[i];
        proof {
            assert(a@.skip(i as int)[0] == x);
            assert(b@.skip(i as int)[0] == y);
            assert(a@.skip(i as int).drop_first() =~= a@.skip(i + 1));
            assert(b@.skip(i as int).drop_first() =~= b@.skip(i + 1));
        }
        if x != y {
            return x < y;
        }
        i = i + 1;
    }
    proof {
        assert(a@.skip(i as int).len() == a@.len() - i);
        assert(b@.skip(i as int).len() == b@.len() - i);
    }
    i == a.len() && i < b.len()
}

/// Statistics of a column chunk.
pub struct RawStatistics {
    pub null_count: Option<u64>,
    pub min: Option<StatBound>,
    pub max: Option<StatBound>,
}

/// A column chunk as the footer describes it.
pub struct RawColumnChunk {
    pub name: String,
    pub physical_type: PhysicalType,
    pub logical_type: Option<LogicalKind>,
    pub compression: CompressionKind,
    pub encodings: Vec<EncodingKind>,
    pub compressed_size: u64,
    pub uncompressed_size: u64,
    pub dictionary_page_offset: Option<i64>,
    pub data_page_offset: i64,
    pub statistics: Option<RawStatistics>,
}

/// A row group as the footer describes it.
pub struct RawRowGroup {
    pub num_rows: i64,
    pub compressed_size: u64,
    pub columns: Vec<RawColumnChunk>,
}

/// The footer of a Parquet file.
pub struct RawFileMetadata {
    pub version: i32,
    pub num_rows: i64,
    pub created_by: Option<String>,
    pub row_groups: Vec<RawRowGroup>,
}

pub open spec fn chunk(rgs: Seq<RawRowGroup>, r: int, c: int) -> RawColumnChunk {
    rgs[r].columns@[c]
}

/// Compressed bytes of column `c` over the first `n` row groups.
pub open spec fn sum_compressed(rgs: Seq<RawRowGroup>, c: int, n: nat) -> int
    decreases n,
{
    if n == 0 {
        0
    } else {
        sum_compressed(rgs, c, (n - 1) as nat) + chunk(rgs, n - 1, c).compressed_size
    }
}

/// Uncompressed bytes of column `c` over the first `n` row groups.
pub open spec fn sum_uncompressed_rg(rgs: Seq<RawRowGroup>, c: int, n: nat) -> int
    decreases n,
{
    if n == 0 {
        0
    } else {
        sum_uncompressed_rg(rgs, c, (n - 1) as nat) + chunk(rgs, n - 1, c).uncompressed_size
    }
}

/// The names of the encodings a chunk lists.
pub open spec fn chunk_encodings(ch: RawColumnChunk) -> Set<Seq<char>> {
    Set::new(
        |s: Seq<char>|
            exists|i: int| 0 <= i < ch.encodings@.len() && #[trigger] encoding_text(ch.encodings@[i]) == s,
    )
}

/// The names of the encodings column `c` lists in the first `n` row groups.
pub open spec fn encodings_upto(rgs: Seq<RawRowGroup>, c: int, n: nat) -> Set<Seq<char>> {
    Set::new(
        |s: Seq<char>| exists|r: int| 0 <= r < n && #[trigger] chunk_encodings(chunk(rgs, r, c)).contains(s),
    )
}

/// Column `c` has statistics in each of the first `n` row groups.
pub open spec fn stats_upto(rgs: Seq<RawRowGroup>, c: int, n: nat) -> bool {
    forall|r: int| 0 <= r < n ==> (#[trigger] chunk(rgs, r, c)).statistics is Some
}

/// Total null count of column `c` over the first `n` row groups, known only
/// while every row group reports one.
pub open spec fn nulls_upto(rgs: Seq<RawRowGroup>, c: int, n: nat) -> Option<int>
    decreases n,
{
    if n == 0 {
        Some(0)
    } else {
        match (nulls_upto(rgs, c, (n - 1) as nat), chunk(rgs, n - 1, c).statistics) {
            (Some(a), Some(st)) => match st.null_count {
                Some(k) => Some(a + k),
                None => None,
            },
            _ => None,
        }
    }
}

pub open spec fn stat_min(ch: RawColumnChunk) -> Option<StatBound> {
    match ch.statistics {
        Some(st) => st.min,
        None => None,
    }
}

pub open spec fn stat_max(ch: RawColumnChunk) -> Option<StatBound> {
    match ch.statistics {
        Some(st) => st.max,
        None => None,
    }
}

/// The least minimum of column `c` over the first `n` row groups (the first
/// of equal ones).
pub open spec fn min_upto(rgs: Seq<RawRowGroup>, c: int, n: nat) -> Option<StatBound>
    decreases n,
{
    if n == 0 {
        None
    } else {
        match (min_upto(rgs, c, (n - 1) as nat), stat_min(chunk(rgs, n - 1, c))) {
            (p, None) => p,
            (None, Some(x)) => Some(x),
            (Some(p), Some(x)) => if bytes_lt(x.bytes@, p.bytes@) {
                Some(x)
            } else {
                Some(p)
            },
        }
    }
}

/// The greatest maximum of column `c` over the first `n` row groups (the first
/// of equal ones).
pub open spec fn max_upto(rgs: Seq<RawRowGroup>, c: int, n: nat) -> Option<StatBound>
    decreases n,
{
    if n == 0 {
        None
    } else {
        match (max_upto(rgs, c, (n - 1) as nat), stat_max(chunk(rgs, n - 1, c))) {
            (p, None) => p,
            (None, Some(x)) => Some(x),
            (Some(p), Some(x)) => if bytes_lt(p.bytes@, x.bytes@) {
                Some(x)
            } else {
                Some(p)
            },
        }
    }
}

/// Bytes between the dictionary page and the first data page, when positive.
pub open spec fn dict_bytes_of(ch: RawColumnChunk) -> Option<i64> {
    match ch.dictionary_page_offset {
        Some(d) => if ch.data_page_offset - d > 0 {
            Some((ch.data_page_offset - d) as i64)
        } else {
            None
        },
        None => None,
    }
}

pub open spec fn opt_logical_text(lt: Option<LogicalKind>) -> Option<Seq<char>> {
    match lt {
        Some(l) => Some(logical_type_text(l)),
        None => None,
    }
}

pub open spec fn decoded_bound(b: Option<StatBound>, t: PhysicalType) -> Option<Seq<char>> {
    match b {
        Some(x) => Some(decoded_text(x.bytes@, t, opt_text(x.float_text))),
        None => None,
    }
}

pub open spec fn opt_nat(o: Option<u64>) -> Option<int> {
    match o {
        Some(k) => Some(k as int),
        None => None,
    }
}

/// Number of columns: those of the first row group.
pub open spec fn column_count(raw: RawFileMetadata) -> int {
    if raw.row_groups@.len() == 0 {
        0
    } else {
        raw.row_groups@[0].columns@.len() as int
    }
}

/// A footer the summary can be built from without overflow: every row group
/// has the first one's columns, per-column byte totals and running null
/// counts fit in an `i64`, dictionary offsets are comparable, and the chosen
/// statistic bounds can be shown under the column's type.
pub open spec fn summarizable(raw: RawFileMetadata) -> bool {
    forall|c: int| 0 <= c < column_count(raw) ==> #[trigger] column_summarizable(raw, c)
}

/// Column `c` of the footer can be summarized (see `summarizable`).
pub open spec fn column_summarizable(raw: RawFileMetadata, c: int) -> bool {
    let rgs = raw.row_groups@;
    let n = rgs.len();
    &&& forall|r: int| 0 <= r < n ==> c < (#[trigger] rgs[r]).columns@.len()
    &&& sum_compressed(rgs, c, n) <= i64::MAX
    &&& sum_uncompressed_rg(rgs, c, n) <= i64::MAX
    &&& forall|m: nat| m <= n ==> match #[trigger] nulls_upto(rgs, c, m) {
        Some(k) => k <= i64::MAX,
        None => true,
    }
    &&& forall|r: int|
        0 <= r < n ==> match (#[trigger] chunk(rgs, r, c)).dictionary_page_offset {
            Some(d) => i64::MIN <= chunk(rgs, r, c).data_page_offset - d <= i64::MAX,
            None => true,
        }
    &&& match min_upto(rgs, c, n) {
        Some(b) => decodable(b.bytes@, rgs[0].columns@[c].physical_type, opt_text(b.float_text)),
        None => true,
    }
    &&& match max_upto(rgs, c, n) {
        Some(b) => decodable(b.bytes@, rgs[0].columns@[c].physical_type, opt_text(b.float_text)),
        None => true,
    }
}

/// `s` summarizes column `c` of the footer: names and types from the first row
/// group, the union of encodings sorted, byte totals and their ratio (1 when
/// nothing is compressed), statistics availability, null total, the decoded
/// least minimum and greatest maximum, and the per-row-group lists.
pub open spec fn summarizes(s: ColumnMetaSummary, raw: RawFileMetadata, c: int) -> bool {
    let rgs = raw.row_groups@;
    let n = rgs.len();
    let first = rgs[0].columns@[c];
    &&& s.name@ == first.name@
    &&& s.physical_type@ == physical_type_text(first.physical_type)
    &&& opt_text(s.logical_type) == opt_logical_text(first.logical_type)
    &&& views(s.encodings@) == sorted_list_of(encodings_upto(rgs, c, n))
    &&& s.codec@ == compression_text(first.compression)
    &&& s.compressed_bytes == sum_compressed(rgs, c, n)
    &&& s.uncompressed_bytes == sum_uncompressed_rg(rgs, c, n)
    &&& s.compression_ratio@ == if s.compressed_bytes > 0 {
        (s.uncompressed_bytes as int, s.compressed_bytes as int)
    } else {
        (1int, 1int)
    }
    &&& s.statistics_available == stats_upto(rgs, c, n)
    &&& opt_nat(s.total_null_count) == (if stats_upto(rgs, c, n) {
        nulls_upto(rgs, c, n)
    } else {
        None
    })
    &&& opt_text(s.min_value) == decoded_bound(min_upto(rgs, c, n), first.physical_type)
    &&& opt_text(s.max_value) == decoded_bound(max_upto(rgs, c, n), first.physical_type)
    &&& s.per_row_group_encodings@.len() == n
    &&& forall|r: int|
        0 <= r < n ==> views((#[trigger] s.per_row_group_encodings@[r])@) == sorted_list_of(
            chunk_encodings(chunk(rgs, r, c)),
        )
    &&& s.per_row_group_compressed_bytes@ == Seq::new(n, |r: int| chunk(rgs, r, c).compressed_size)
    &&& s.per_row_group_uncompressed_bytes@ == Seq::new(n, |r: int| chunk(rgs, r, c).uncompressed_size)
    &&& s.per_row_group_dict_page_bytes@ == Seq::new(n, |r: int| dict_bytes_of(chunk(rgs, r, c)))
}

proof fn lemma_sums_monotone(rgs: Seq<RawRowGroup>, c: int, m: nat, n: nat)
    requires
        m <= n,
    ensures
        0 <= sum_compressed(rgs, c, m) <= sum_compressed(rgs, c, n),
        0 <= sum_uncompressed_rg(rgs, c, m) <= sum_uncompressed_rg(rgs, c, n),
    decreases n,
{
    if n > 0 {
        if m < n {
            lemma_sums_monotone(rgs, c, m, (n - 1) as nat);
        } else {
            lemma_sums_monotone(rgs, c, (m - 1) as nat, (n - 1) as nat);
        }
    }
}

/// Adds the names of a chunk's encodings to `all`, and returns them sorted
/// and without repeats.
fn chunk_encoding_names(encs: &Vec<EncodingKind>, all: &mut Vec<String>) -> (names: Vec<String>)
    requires
        strictly_sorted(views(old(all)@)),
    ensures
        strictly_sorted(views(final(all)@)),
        strictly_sorted(views(names@)),
        views(names@).to_set() == Set::new(
            |s: Seq<char>| exists|i: int| 0 <= i < encs@.len() && #[trigger] encoding_text(encs@[i]) == s,
        ),
        views(final(all)@).to_set() == views(old(all)@).to_set().union(views(names@).to_set()),
{
    let mut names: Vec<String> = Vec::new();
    let ghost base = views(all@).to_set();
    proof {
        assert(views(names@).to_set() =~= Set::<Seq<char>>::empty());
    }
    let mut i: usize = 0;
    while i < encs.len()
        invariant
            i <= encs@.len(),
            strictly_sorted(views(all@)),
            strictly_sorted(views(names@)),
            base == views(old(all)@).to_set(),
            views(names@).to_set() == Set::new(
                |s: Seq<char>| exists|k: int| 0 <= k < i && #[trigger] encoding_text(encs@[k]) == s,
            ),
            views(all@).to_set() == base.union(views(names@).to_set()),
        decreases encs@.len() - i,
    {
        let name = format_encoding(encs[i]);
        let ghost before = views(names@).to_set();
        insert_sorted(&mut names, name.as_str());
        insert_sorted(all, name.as_str());
        proof {
            assert(views(names@).to_set() =~= Set::new(
                |s: Seq<char>| exists|k: int| 0 <= k < i + 1 && #[trigger] encoding_text(encs@[k]) == s,
            )) by {
                assert forall|s: Seq<char>| (exists|k: int| 0 <= k < i + 1 && #[trigger] encoding_text(encs@[k]) == s)
                    implies before.insert(name@).contains(s) by {
                    let k = choose|k: int| 0 <= k < i + 1 && #[trigger] encoding_text(encs@[k]) == s;
                    if k < i {
                        assert(encoding_text(encs@[k]) == s);
                    }
                }
                assert(encoding_text(encs@[i as int]) == name@);
            }
            assert(views(all@).to_set() =~= base.union(views(names@).to_set()));
        }
        i = i + 1;
    }
    names
}

fn bound_min(rgs: &Vec<RawRowGroup>, k: usize, c: usize) -> (b: &StatBound)
    requires
        k < rgs@.len(),
        c < rgs@[k as int].columns@.len(),
        stat_min(chunk(rgs@, k as int, c as int)) is Some,
    ensures
        stat_min(chunk(rgs@, k as int, c as int)) == Some(*b),
{
    match &rgs[k].columns[c].statistics {
        Some(st) => match &st.min {
            Some(b) => b,
            None => vstd::pervasive::unreached(),
        },
        None => vstd::pervasive::unreached(),
    }
}

fn bound_max(rgs: &Vec<RawRowGroup>, k: usize, c: usize) -> (b: &StatBound)
    requires
        k < rgs@.len(),
        c < rgs@[k as int].columns@.len(),
        stat_max(chunk(rgs@, k as int, c as int)) is Some,
    ensures
        stat_max(chunk(rgs@, k as int, c as int)) == Some(*b),
{
    match &rgs[k].columns[c].statistics {
        Some(st) => match &st.max {
            Some(b) => b,
            None => vstd::pervasive::unreached(),
        },
        None => vstd::pervasive::unreached(),
    }
}

fn has_min(ch: &RawColumnChunk) -> (r: bool)
    ensures
        r == (stat_min(*ch) is Some),
{
    match &ch.statistics {
        Some(st) => st.min.is_some(),
        None => false,
    }
}

fn has_max(ch: &RawColumnChunk) -> (r: bool)
    ensures
        r == (stat_max(*ch) is Some),
{
    match &ch.statistics {
        Some(st) => st.max.is_some(),
        None => false,
    }
}

/// The summary of column `c` over all row groups.
fn summarize_column(raw: &RawFileMetadata, c: usize) -> (s: ColumnMetaSummary)
    requires
        raw.row_groups@.len() > 0,
        c < column_count(*raw),
        summarizable(*raw),
    ensures
        summarizes(s, *raw, c as int),
{
    let rgs = &raw.row_groups;
    let ghost g = rgs@;
    let n = rgs.len();
    proof {
        assert(column_summarizable(*raw, c as int));
        assert(c < g[0].columns@.len());
    }
    let first = &rgs[0].columns[c];
    let mut all: Vec<String> = Vec::new();
    let mut per_rg_encodings: Vec<Vec<String>> = Vec::new();
    let mut per_rg_compressed: Vec<u64> = Vec::new();
    let mut per_rg_uncompressed: Vec<u64> = Vec::new();
    let mut per_rg_dict: Vec<Option<i64>> = Vec::new();
    let mut compressed: u64 = 0;
    let mut uncompressed: u64 = 0;
    let mut stats_ok = true;
    let mut nulls: Option<u64> = Some(0);
    let mut min_at: Option<usize> = None;
    let mut max_at: Option<usize> = None;
    let mut r: usize = 0;
    proof {
        assert(views(all@).to_set() =~= encodings_upto(g, c as int, 0));
        assert(per_rg_compressed@ =~= Seq::new(0, |k: int| chunk(g, k, c as int).compressed_size));
        assert(per_rg_uncompressed@ =~= Seq::new(0, |k: int| chunk(g, k, c as int).uncompressed_size));
        assert(per_rg_dict@ =~= Seq::new(0, |k: int| dict_bytes_of(chunk(g, k, c as int))));
    }
    while r < n
        invariant
            g == rgs@,
            n == g.len(),
            g.len() > 0,
            c < column_count(*raw),
            *rgs == raw.row_groups,
            column_summarizable(*raw, c as int),
            r <= n,
            strictly_sorted(views(all@)),
            views(all@).to_set() == encodings_upto(g, c as int, r as nat),
            per_rg_encodings@.len() == r,
            forall|k: int|
                0 <= k < r ==> views((#[trigger] per_rg_encodings@[k])@) == sorted_list_of(
                    chunk_encodings(chunk(g, k, c as int)),
                ),
            per_rg_compressed@ == Seq::new(r as nat, |k: int| chunk(g, k, c as int).compressed_size),
            per_rg_uncompressed@ == Seq::new(r as nat, |k: int| chunk(g, k, c as int).uncompressed_size),
            per_rg_dict@ == Seq::new(r as nat, |k: int| dict_bytes_of(chunk(g, k, c as int))),
            compressed == sum_compressed(g, c as int, r as nat),
            uncompressed == sum_uncompressed_rg(g, c as int, r as nat),
            stats_ok == stats_upto(g, c as int, r as nat),
            opt_nat(nulls) == nulls_upto(g, c as int, r as nat),
            !stats_ok ==> nulls is None,
            min_upto(g, c as int, r as nat) == match min_at {
                Some(k) => stat_min(chunk(g, k as int, c as int)),
                None => None,
            },
            min_at matches Some(k) ==> k < r && stat_min(chunk(g, k as int, c as int)) is Some,
            max_upto(g, c as int, r as nat) == match max_at {
                Some(k) => stat_max(chunk(g, k as int, c as int)),
                None => None,
            },
            max_at matches Some(k) ==> k < r && stat_max(chunk(g, k as int, c as int)) is Some,
        decreases n - r,
    {
        proof {
            assert(c < (g[r as int]).columns@.len());
            lemma_sums_monotone(g, c as int, (r + 1) as nat, n as nat);
            assert(chunk(g, r as int, c as int) == g[r as int].columns@[c as int]);
        }
        let ch = &rgs[r].columns[c];
        let names = chunk_encoding_names(&ch.encodings, &mut all);
        proof {
            lemma_is_sorted_list_of(views(names@));
            assert(views(names@).to_set() == chunk_encodings(chunk(g, r as int, c as int)));
            assert(encodings_upto(g, c as int, (r + 1) as nat) =~= encodings_upto(g, c as int, r as nat).union(
                chunk_encodings(chunk(g, r as int, c as int)),
            )) by {
                assert forall|x: Seq<char>| encodings_upto(g, c as int, (r + 1) as nat).contains(x) implies
                    encodings_upto(g, c as int, r as nat).contains(x) || chunk_encodings(chunk(g, r as int, c as int)).contains(x) by {
                    let q = choose|q: int| 0 <= q < r + 1 && #[trigger] chunk_encodings(chunk(g, q, c as int)).contains(x);
                    if q < r {
                        assert(chunk_encodings(chunk(g, q, c as int)).contains(x));
                    }
                }
                assert forall|x: Seq<char>| encodings_upto(g, c as int, r as nat).contains(x) implies
                    encodings_upto(g, c as int, (r + 1) as nat).contains(x) by {
                    let q = choose|q: int| 0 <= q < r && #[trigger] chunk_encodings(chunk(g, q, c as int)).contains(x);
                    assert(chunk_encodings(chunk(g, q, c as int)).contains(x));
                }
                assert forall|x: Seq<char>| chunk_encodings(chunk(g, r as int, c as int)).contains(x) implies
                    encodings_upto(g, c as int, (r + 1) as nat).contains(x) by {
                    assert(chunk_encodings(chunk(g, r as int, c as int)).contains(x));
                }
            }
        }
        let ghost old_per = per_rg_encodings@;
        per_rg_encodings.push(names);
        proof {
            assert forall|k: int| 0 <= k < r + 1 implies views((#[trigger] per_rg_encodings@[k])@) == sorted_list_of(
                chunk_encodings(chunk(g, k, c as int)),
            ) by {
                if k < r {
                    assert(per_rg_encodings@[k] == old_per[k]);
                }
            }
        }
        per_rg_compressed.push(ch.compressed_size);
        per_rg_uncompressed.push(ch.uncompressed_size);
        let dict = match ch.dictionary_page_offset {
            Some(off) => {
                let delta = ch.data_page_offset - off;
                if delta > 0 {
                    Some(delta)
                } else {
                    None
                }
            },
            None => None,
        };
        per_rg_dict.push(dict);
        proof {
            assert(per_rg_compressed@ =~= Seq::new((r + 1) as nat, |k: int| chunk(g, k, c as int).compressed_size));
            assert(per_rg_uncompressed@ =~= Seq::new((r + 1) as nat, |k: int| chunk(g, k, c as int).uncompressed_size));
            assert(per_rg_dict@ =~= Seq::new((r + 1) as nat, |k: int| dict_bytes_of(chunk(g, k, c as int))));
        }
        compressed = compressed + ch.compressed_size;
        uncompressed = uncompressed + ch.uncompressed_size;
        match &ch.statistics {
            None => {
                stats_ok = false;
                nulls = None;
            },
            Some(st) => {
                if stats_ok {
                    match st.null_count {
                        None => {
                            nulls = None;
                        },
                        Some(nc) => {
                            match nulls {
                                Some(acc) => {
                                    proof {
                                        assert(nulls_upto(g, c as int, (r + 1) as nat) == Some(acc + nc));
                                        let m: nat = (r + 1) as nat;
                                        assert(m <= n);
                                        assert(match nulls_upto(g, c as int, m) {
                                            Some(k) => k <= i64::MAX,
                                            None => true,
                                        });
                                    }
                                    nulls = Some(acc + nc);
                                },
                                None => {},
                            }
                        },
                    }
                }
            },
        }
        if has_min(ch) {
            match min_at {
                None => {
                    min_at = Some(r);
                },
                Some(k) => {
                    let cur = bound_min(rgs, k, c);
                    let cand = bound_min(rgs, r, c);
                    if bytes_less(&cand.bytes, &cur.bytes) {
                        min_at = Some(r);
                    }
                },
            }
        }
        if has_max(ch) {
            match max_at {
                None => {
                    max_at = Some(r);
                },
                Some(k) => {
                    let cur = bound_max(rgs, k, c);
                    let cand = bound_max(rgs, r, c);
                    if bytes_less(&cur.bytes, &cand.bytes) {
                        max_at = Some(r);
                    }
                },
            }
        }
        r = r + 1;
    }
    proof {
        lemma_is_sorted_list_of(views(all@));
    }
    let compression_ratio = if compressed > 0 {
        Ratio::of_counts(uncompressed, compressed)
    } else {
        Ratio::of_counts(1, 1)
    };
    let min_value = match min_at {
        Some(k) => {
            let b = bound_min(rgs, k, c);
            Some(decode_stats_value(b.bytes.as_slice(), first.physical_type, &b.float_text))
        },
        None => None,
    };
    let max_value = match max_at {
        Some(k) => {
            let b = bound_max(rgs, k, c);
            Some(decode_stats_value(b.bytes.as_slice(), first.physical_type, &b.float_text))
        },
        None => None,
    };
    let logical_type = match &first.logical_type {
        Some(lt) => Some(format_logical_type(lt)),
        None => None,
    };
    ColumnMetaSummary {
        name: first.name.clone(),
        physical_type: format_physical_type(first.physical_type),
        logical_type,
        encodings: all,
        codec: format_compression(first.compression),
        compressed_bytes: compressed,
        uncompressed_bytes: uncompressed,
        compression_ratio,
        total_null_count: if stats_ok { nulls } else { None },
        min_value,
        max_value,
        statistics_available: stats_ok,
        per_row_group_encodings: per_rg_encodings,
        per_row_group_compressed_bytes: per_rg_compressed,
        per_row_group_uncompressed_bytes: per_rg_uncompressed,
        per_row_group_dict_page_bytes: per_rg_dict,
    }
}

/// The file summary built from its footer: file-level facts, the row count and
/// compressed size of each row group, and a summary of each column of the
/// first row group over all row groups (none when there is no row group).
pub fn build_file_profile_from_metadata(metadata: RawFileMetadata, file_size_bytes: u64, path_str: &str) -> (p:
    FileProfile)
    requires
        summarizable(metadata),
    ensures
        p.path@ == path_str@,
        p.file_size_bytes == file_size_bytes,
        p.parquet_version == metadata.version,
        p.num_rows == metadata.num_rows,
        p.num_row_groups == metadata.row_groups@.len(),
        p.row_group_row_counts@ == Seq::new(metadata.row_groups@.len(), |r: int| metadata.row_groups@[r].num_rows),
        p.row_group_compressed_bytes@ == Seq::new(
            metadata.row_groups@.len(),
            |r: int| metadata.row_groups@[r].compressed_size,
        ),
        opt_text(p.created_by) == opt_text(metadata.created_by),
        p.columns@.len() == column_count(metadata),
        forall|c: int| 0 <= c < p.columns@.len() ==> summarizes(#[trigger] p.columns@[c], metadata, c),
{
    let rgs = &metadata.row_groups;
    let n = rgs.len();
    let mut row_group_row_counts: Vec<i64> = Vec::new();
    let mut row_group_compressed_bytes: Vec<u64> = Vec::new();
    let mut r: usize = 0;
    while r < n
        invariant
            n == rgs@.len(),
            r <= n,
            row_group_row_counts@ == Seq::new(r as nat, |k: int| rgs@[k].num_rows),
            row_group_compressed_bytes@ == Seq::new(r as nat, |k: int| rgs@[k].compressed_size),
        decreases n - r,
    {
        row_group_row_counts.push(rgs[r].num_rows);
        row_group_compressed_bytes.push(rgs[r].compressed_size);
        proof {
            assert(row_group_row_counts@ =~= Seq::new((r + 1) as nat, |k: int| rgs@[k].num_rows));
            assert(row_group_compressed_bytes@ =~= Seq::new((r + 1) as nat, |k: int| rgs@[k].compressed_size));
        }
        r = r + 1;
    }
    let mut columns: Vec<ColumnMetaSummary> = Vec::new();
    if n > 0 {
        let num_cols = rgs[0].columns.len();
        let mut c: usize = 0;
        while c < num_cols
            invariant
                n == metadata.row_groups@.len(),
                n > 0,
                num_cols == column_count(metadata),
                summarizable(metadata),
                c <= num_cols,
                columns@.len() == c,
                forall|k: int| 0 <= k < c ==> summarizes(#[trigger] columns@[k], metadata, k),
            decreases num_cols - c,
        {
            let col = summarize_column(&metadata, c);
            columns.push(col);
            c = c + 1;
        }
    }
    FileProfile {
        path: text(path_str),
        file_size_bytes,
        parquet_version: metadata.version,
        num_rows: metadata.num_rows,
        num_row_groups: n,
        row_group_row_counts,
        row_group_compressed_bytes,
        created_by: copy_opt_string(&metadata.created_by),
        columns,
    }
}

} // verus!

verus! {

fn stat_min_ref(ch: &RawColumnChunk) -> (r: Option<&StatBound>)
    ensures
        match r {
            Some(b) => stat_min(*ch) == Some(*b),
            None => stat_min(*ch) is None,
        },
{
    match &ch.statistics {
        Some(st) => match &st.min {
            Some(b) => Some(b),
            None => None,
        },
        None => None,
    }
}

fn stat_max_ref(ch: &RawColumnChunk) -> (r: Option<&StatBound>)
    ensures
        match r {
            Some(b) => stat_max(*ch) == Some(*b),
            None => stat_max(*ch) is None,
        },
{
    match &ch.statistics {
        Some(st) => match &st.max {
            Some(b) => Some(b),
            None => None,
        },
        None => None,
    }
}

fn is_decodable(b: &StatBound, t: PhysicalType) -> (r: bool)
    ensures
        r == decodable(b.bytes@, t, opt_text(b.float_text)),
{
    match t {
        PhysicalType::Int32 => b.bytes.len() >= 4,
        PhysicalType::Int64 => b.bytes.len() >= 8,
        PhysicalType::Float | PhysicalType::Double => b.float_text.is_some(),
        _ => true,
    }
}

/// The least row group (with its bound) among `cur` and row group `r`'s
/// minimum, keeping `cur` on ties.
pub open spec fn bound_at(rgs: Seq<RawRowGroup>, c: int, idx: Option<usize>, is_min: bool) -> Option<StatBound> {
    match idx {
        Some(j) => if is_min {
            stat_min(chunk(rgs, j as int, c))
        } else {
            stat_max(chunk(rgs, j as int, c))
        },
        None => None,
    }
}

proof fn lemma_nulls_none_sticks(rgs: Seq<RawRowGroup>, c: int, m: nat, n: nat)
    requires
        m <= n,
        nulls_upto(rgs, c, m) is None,
    ensures
        nulls_upto(rgs, c, n) is None,
    decreases n,
{
    if n > m {
        lemma_nulls_none_sticks(rgs, c, m, (n - 1) as nat);
    }
}

/// Whether column `c` of the footer can be summarized.
fn column_is_summarizable(raw: &RawFileMetadata, c: usize) -> (ok: bool)
    requires
        raw.row_groups@.len() > 0,
        c < raw.row_groups@[0].columns@.len(),
    ensures
        ok == column_summarizable(*raw, c as int),
{
    let rgs = &raw.row_groups;
    let ghost g = rgs@;
    let ghost ci = c as int;
    let n = rgs.len();
    let mut comp: u128 = 0;
    let mut unc: u128 = 0;
    let mut nulls: Option<u128> = Some(0);
    let mut min_i: Option<usize> = None;
    let mut max_i: Option<usize> = None;
    let mut r: usize = 0;
    while r < n
        invariant
            g == raw.row_groups@,
            g == rgs@,
            ci == c as int,
            n == g.len(),
            r <= n,
            c < g[0].columns@.len(),
            forall|q: int| 0 <= q < r ==> c < (#[trigger] g[q]).columns@.len(),
            comp == sum_compressed(g, ci, r as nat),
            comp <= i64::MAX,
            unc == sum_uncompressed_rg(g, ci, r as nat),
            unc <= i64::MAX,
            match nulls {
                Some(k) => nulls_upto(g, ci, r as nat) == Some(k as int) && k <= i64::MAX,
                None => nulls_upto(g, ci, r as nat) is None,
            },
            forall|m: nat|
                m <= r ==> match #[trigger] nulls_upto(g, ci, m) {
                    Some(k) => k <= i64::MAX,
                    None => true,
                },
            forall|q: int|
                0 <= q < r ==> match (#[trigger] chunk(g, q, ci)).dictionary_page_offset {
                    Some(d) => i64::MIN <= chunk(g, q, ci).data_page_offset - d <= i64::MAX,
                    None => true,
                },
            min_upto(g, ci, r as nat) == bound_at(g, ci, min_i, true),
            max_upto(g, ci, r as nat) == bound_at(g, ci, max_i, false),
            match min_i {
                Some(j) => j < r && c < g[j as int].columns@.len() && stat_min(chunk(g, j as int, ci)) is Some,
                None => true,
            },
            match max_i {
                Some(j) => j < r && c < g[j as int].columns@.len() && stat_max(chunk(g, j as int, ci)) is Some,
                None => true,
            },
        decreases n - r,
    {
        let rg = &rgs[r];
        proof {
            assert(*rg == g[r as int]);
        }
        if c >= rg.columns.len() {
            proof {
                assert(!(c < g[r as int].columns@.len()));
            }
            return false;
        }
        let ch = &rg.columns[c];
        proof {
            assert(*ch == rg.columns@[c as int]);
            assert(chunk(g, r as int, ci) == *ch);
        }
        comp = comp + ch.compressed_size as u128;
        unc = unc + ch.uncompressed_size as u128;
        if comp > 0x7fff_ffff_ffff_ffff || unc > 0x7fff_ffff_ffff_ffff {
            proof {
                lemma_sums_monotone(g, ci, (r + 1) as nat, n as nat);
            }
            return false;
        }
        match ch.dictionary_page_offset {
            Some(d) => {
                let diff: i128 = ch.data_page_offset as i128 - d as i128;
                if diff < -0x8000_0000_0000_0000 || diff > 0x7fff_ffff_ffff_ffff {
                    return false;
                }
            },
            None => {},
        }
        let ghost prev_nulls = nulls;
        match nulls {
            Some(a) => {
                match &ch.statistics {
                    Some(st) => match st.null_count {
                        Some(k) => {
                            let s: u128 = a + k as u128;
                            if s > 0x7fff_ffff_ffff_ffff {
                                proof {
                                    assert(nulls_upto(g, ci, (r + 1) as nat) == Some(s as int));
                                }
                                return false;
                            }
                            nulls = Some(s);
                        },
                        None => {
                            nulls = None;
                        },
                    },
                    None => {
                        nulls = None;
                    },
                }
            },
            None => {},
        }
        proof {
            assert forall|m: nat| m <= r + 1 implies match #[trigger] nulls_upto(g, ci, m) {
                Some(k) => k <= i64::MAX,
                None => true,
            } by {
                if m == r + 1 {
                    match nulls {
                        Some(k) => {},
                        None => {},
                    }
                }
            }
        }
        match stat_min_ref(ch) {
            Some(b) => {
                match min_i {
                    Some(j) => {
                        let cur = stat_min_ref(&rgs[j].columns[c]);
                        match cur {
                            Some(p) => {
                                if bytes_less(&b.bytes, &p.bytes) {
                                    min_i = Some(r);
                                }
                            },
                            None => {
                                proof {
                                    assert(false);
                                }
                            },
                        }
                    },
                    None => {
                        min_i = Some(r);
                    },
                }
            },
            None => {},
        }
        match stat_max_ref(ch) {
            Some(b) => {
                match max_i {
                    Some(j) => {
                        let cur = stat_max_ref(&rgs[j].columns[c]);
                        match cur {
                            Some(p) => {
                                if bytes_less(&p.bytes, &b.bytes) {
                                    max_i = Some(r);
                                }
                            },
                            None => {
                                proof {
                                    assert(false);
                                }
                            },
                        }
                    },
                    None => {
                        max_i = Some(r);
                    },
                }
            },
            None => {},
        }
        r = r + 1;
    }
    let t = rgs[0].columns[c].physical_type;
    let min_ok = match min_i {
        Some(j) => match stat_min_ref(&rgs[j].columns[c]) {
            Some(b) => is_decodable(b, t),
            None => true,
        },
        None => true,
    };
    let max_ok = match max_i {
        Some(j) => match stat_max_ref(&rgs[j].columns[c]) {
            Some(b) => is_decodable(b, t),
            None => true,
        },
        None => true,
    };
    min_ok && max_ok
}

/// Whether the summary can be built from this footer (see `summarizable`).
pub fn is_summarizable(raw: &RawFileMetadata) -> (ok: bool)
    ensures
        ok == summarizable(*raw),
{
    if raw.row_groups.len() == 0 {
        return true;
    }
    let ncols = raw.row_groups[0].columns.len();
    let mut c: usize = 0;
    while c < ncols
        invariant
            raw.row_groups@.len() > 0,
            ncols == column_count(*raw),
            c <= ncols,
            forall|k: int| 0 <= k < c ==> #[trigger] column_summarizable(*raw, k),
        decreases ncols - c,
    {
        if !column_is_summarizable(raw, c) {
            return false;
        }
        c = c + 1;
    }
    true
}

} // verus!
