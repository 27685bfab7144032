//! Benchmark planning: which encodings and codecs to try on a column, how the
//! names given for them are read, and the measured entries sorted by size.

use vstd::prelude::*;
use crate::error::{AutoparqError, ErrorView};
use crate::profiler::footer::{CompressionKind, EncodingKind};
use crate::ratio::Ratio;
use crate::text::{
    ascii_upper_text, concat2, copy_string, is_ascii_text, str_eq, text, to_uppercase, uppercase_of, views,
};

verus! {

/// Checks a ZSTD level with `parquet::basic::ZstdLevel::try_new`, which accepts
/// the levels 1 to 22 and otherwise fails with a `ParquetError::General` that
/// displays as `Parquet error: valid compression range 1..=22 exceeded.`; the
/// error is handed back as that text.
#[verifier::external_body]
fn zstd_level(level: i32) -> (r: Result<i32, String>)
    ensures
        match r {
            Ok(l) => 1 <= level <= 22 && l == level,
            Err(m) => !(1 <= level <= 22) && m@ == "Parquet error: valid compression range 1..=22 exceeded."@,
        },
{
    match parquet::basic::ZstdLevel::try_new(level) {
        Ok(l) => Ok(l.compression_level()),
        Err(e) => Err(e.to_string()),
    }
}

/// The level of `parquet::basic::GzipLevel::default()`, which is 6.
#[verifier::external_body]
fn default_gzip_level() -> (l: u32)
    ensures
        l == 6,
{
    parquet::basic::GzipLevel::default().compression_level()
}

/// The encoding a name stands for (compared in upper case; `DICT` is
/// dictionary encoding), or the error naming it.
pub open spec fn encoding_parse(s: Seq<char>) -> Result<EncodingKind, ErrorView> {
    encoding_named(uppercase_of(s))
}

/// The encoding an uppercase name stands for, or the error naming it.
pub open spec fn encoding_named(u: Seq<char>) -> Result<EncodingKind, ErrorView> {
    if u == "PLAIN"@ {
        Ok(EncodingKind::Plain)
    } else if u == "DELTA_BINARY_PACKED"@ {
        Ok(EncodingKind::DeltaBinaryPacked)
    } else if u == "RLE_DICTIONARY"@ || u == "DICT"@ {
        Ok(EncodingKind::RleDictionary)
    } else if u == "BYTE_STREAM_SPLIT"@ {
        Ok(EncodingKind::ByteStreamSplit)
    } else if u == "RLE"@ {
        Ok(EncodingKind::Rle)
    } else {
        Err(ErrorView::UnsupportedType("Unknown encoding: "@ + u))
    }
}

pub open spec fn result_view<T>(r: Result<T, AutoparqError>) -> Result<T, ErrorView> {
    match r {
        Ok(v) => Ok(v),
        Err(e) => Err(e@),
    }
}

pub fn parse_encoding(s: &str) -> (r: Result<EncodingKind, AutoparqError>)
    ensures
        result_view(r) == encoding_parse(s@),
        is_ascii_text(s@) ==> result_view(r) == encoding_named(ascii_upper_text(s@)),
{
    let u = to_uppercase(s);
    let t = u.as_str();
    if str_eq(t, "PLAIN") {
        Ok(EncodingKind::Plain)
    } else if str_eq(t, "DELTA_BINARY_PACKED") {
        Ok(EncodingKind::DeltaBinaryPacked)
    } else if str_eq(t, "RLE_DICTIONARY") || str_eq(t, "DICT") {
        Ok(EncodingKind::RleDictionary)
    } else if str_eq(t, "BYTE_STREAM_SPLIT") {
        Ok(EncodingKind::ByteStreamSplit)
    } else if str_eq(t, "RLE") {
        Ok(EncodingKind::Rle)
    } else {
        Err(AutoparqError::UnsupportedType(concat2("Unknown encoding: ", t)))
    }
}

/// The compression a codec name stands for (compared in upper case): ZSTD at
/// the given level or 3, GZIP at its default level; an unknown name or an
/// invalid ZSTD level is an error.
pub open spec fn compression_parse(codec: Seq<char>, level: Option<i32>) -> Result<CompressionKind, ErrorView> {
    let u = uppercase_of(codec);
    if u == "SNAPPY"@ {
        Ok(CompressionKind::Snappy)
    } else if u == "LZ4"@ {
        Ok(CompressionKind::Lz4)
    } else if u == "UNCOMPRESSED"@ {
        Ok(CompressionKind::Uncompressed)
    } else if u == "ZSTD"@ {
        let l = match level {
            Some(x) => x,
            None => 3i32,
        };
        if 1 <= l <= 22 {
            Ok(CompressionKind::Zstd(l))
        } else {
            Err(ErrorView::UnsupportedType("Parquet error: valid compression range 1..=22 exceeded."@))
        }
    } else if u == "GZIP"@ {
        Ok(CompressionKind::Gzip(6))
    } else {
        Err(ErrorView::UnsupportedType("Unknown codec: "@ + u))
    }
}

pub fn parse_compression(codec: &str, level: Option<i32>) -> (r: Result<CompressionKind, AutoparqError>)
    ensures
        result_view(r) == compression_parse(codec@, level),
{
    let u = to_uppercase(codec);
    let t = u.as_str();
    if str_eq(t, "SNAPPY") {
        Ok(CompressionKind::Snappy)
    } else if str_eq(t, "LZ4") {
        Ok(CompressionKind::Lz4)
    } else if str_eq(t, "UNCOMPRESSED") {
        Ok(CompressionKind::Uncompressed)
    } else if str_eq(t, "ZSTD") {
        let l = match level {
            Some(x) => x,
            None => 3,
        };
        match zstd_level(l) {
            Ok(v) => Ok(CompressionKind::Zstd(v)),
            Err(m) => Err(AutoparqError::UnsupportedType(m)),
        }
    } else if str_eq(t, "GZIP") {
        Ok(CompressionKind::Gzip(default_gzip_level()))
    } else {
        Err(AutoparqError::UnsupportedType(concat2("Unknown codec: ", t)))
    }
}

/// The encodings worth trying for a physical type (compared in upper case).
pub open spec fn valid_encodings_text(physical_type: Seq<char>) -> Seq<Seq<char>> {
    encodings_for_upper(uppercase_of(physical_type))
}

/// The encodings worth trying for an uppercase type name: PLAIN first, then
/// DELTA_BINARY_PACKED and RLE_DICTIONARY for integers, RLE_DICTIONARY for
/// byte arrays, BYTE_STREAM_SPLIT for floats; PLAIN alone for anything else.
pub open spec fn encodings_for_upper(u: Seq<char>) -> Seq<Seq<char>> {
    if u == "INT32"@ || u == "INT64"@ {
        seq!["PLAIN"@, "DELTA_BINARY_PACKED"@, "RLE_DICTIONARY"@]
    } else if u == "BYTE_ARRAY"@ {
        seq!["PLAIN"@, "RLE_DICTIONARY"@]
    } else if u == "FLOAT"@ || u == "DOUBLE"@ {
        seq!["PLAIN"@, "BYTE_STREAM_SPLIT"@]
    } else {
        seq!["PLAIN"@]
    }
}

fn strings_of(parts: &[&str]) -> (v: Vec<String>)
    ensures
        views(v@) == parts@.map_values(|p: &str| p@),
{
    let mut v: Vec<String> = Vec::new();
    let mut i: usize = 0;
    while i < parts.len()
        invariant
            i <= parts@.len(),
            views(v@) == parts@.take(i as int).map_values(|p: &str| p@),
        decreases parts@.len() - i,
    {
        let ghost before = v@;
        v.push(text(parts[i]));
        proof {
            assert(views(v@) =~= views(before).push(parts@[i as int]@));
            assert(parts@.take(i + 1).map_values(|p: &str| p@) =~= parts@.take(i as int).map_values(
                |p: &str| p@,
            ).push(parts@[i as int]@));
        }
        i = i + 1;
    }
    proof {
        assert(parts@.take(parts@.len() as int) =~= parts@);
    }
    v
}

pub fn valid_encodings_for_type(physical_type: &str) -> (v: Vec<String>)
    ensures
        views(v@) == valid_encodings_text(physical_type@),
        is_ascii_text(physical_type@) ==> views(v@) == encodings_for_upper(ascii_upper_text(physical_type@)),
{
    let u = to_uppercase(physical_type);
    valid_encodings_for_uppercase(u.as_str())
}

/// The encodings worth trying for an already uppercase type name.
pub fn valid_encodings_for_uppercase(t: &str) -> (v: Vec<String>)
    ensures
        views(v@) == encodings_for_upper(t@),
{
    let parts: Vec<&str> = if str_eq(t, "INT32") || str_eq(t, "INT64") {
        vec!["PLAIN", "DELTA_BINARY_PACKED", "RLE_DICTIONARY"]
    } else if str_eq(t, "BYTE_ARRAY") {
        vec!["PLAIN", "RLE_DICTIONARY"]
    } else if str_eq(t, "FLOAT") || str_eq(t, "DOUBLE") {
        vec!["PLAIN", "BYTE_STREAM_SPLIT"]
    } else {
        vec!["PLAIN"]
    };
    let v = strings_of(parts.as_slice());
    proof {
        assert(views(v@) =~= encodings_for_upper(t@));
    }
    v
}

/// The codecs tried by default: SNAPPY, ZSTD at 1, 3 and 6, LZ4, UNCOMPRESSED.
pub open spec fn default_codecs_text() -> Seq<(Seq<char>, Option<i32>)> {
    seq![
        ("SNAPPY"@, None),
        ("ZSTD"@, Some(1i32)),
        ("ZSTD"@, Some(3i32)),
        ("ZSTD"@, Some(6i32)),
        ("LZ4"@, None),
        ("UNCOMPRESSED"@, None),
    ]
}

pub open spec fn codec_list_view(v: Seq<(String, Option<i32>)>) -> Seq<(Seq<char>, Option<i32>)> {
    v.map_values(|c: (String, Option<i32>)| (c.0@, c.1))
}

pub fn default_codecs() -> (v: Vec<(String, Option<i32>)>)
    ensures
        codec_list_view(v@) == default_codecs_text(),
{
    let v: Vec<(String, Option<i32>)> = vec![
        (text("SNAPPY"), None),
        (text("ZSTD"), Some(1)),
        (text("ZSTD"), Some(3)),
        (text("ZSTD"), Some(6)),
        (text("LZ4"), None),
        (text("UNCOMPRESSED"), None),
    ];
    proof {
        assert(codec_list_view(v@) =~= default_codecs_text());
    }
    v
}

/// One encoding and codec to try on a column.
pub struct BenchCase {
    pub encoding: String,
    pub encoding_kind: EncodingKind,
    pub codec: String,
    pub codec_level: Option<i32>,
    pub compression: CompressionKind,
}

pub type CaseView = (Seq<char>, EncodingKind, Seq<char>, Option<i32>, CompressionKind);

impl View for BenchCase {
    type V = CaseView;

    open spec fn view(&self) -> CaseView {
        (self.encoding@, self.encoding_kind, self.codec@, self.codec_level, self.compression)
    }
}

pub open spec fn cases_view(v: Seq<BenchCase>) -> Seq<CaseView> {
    v.map_values(|c: BenchCase| c@)
}

/// The first `k` codecs read, or the first error among them.
pub open spec fn codec_cases(codecs: Seq<(String, Option<i32>)>, k: nat) -> Result<
    Seq<(Seq<char>, Option<i32>, CompressionKind)>,
    ErrorView,
>
    decreases k,
{
    if k == 0 {
        Ok(seq![])
    } else {
        match codec_cases(codecs, (k - 1) as nat) {
            Err(e) => Err(e),
            Ok(prev) => match compression_parse(codecs[k - 1].0@, codecs[k - 1].1) {
                Err(e) => Err(e),
                Ok(c) => Ok(prev.push((codecs[k - 1].0@, codecs[k - 1].1, c))),
            },
        }
    }
}

/// Every codec with each of the first `n` encodings, encoding by encoding, or
/// the first error met in that order.
pub open spec fn plan_upto(encs: Seq<String>, codecs: Seq<(String, Option<i32>)>, n: nat) -> Result<
    Seq<CaseView>,
    ErrorView,
>
    decreases n,
{
    if n == 0 {
        Ok(seq![])
    } else {
        match plan_upto(encs, codecs, (n - 1) as nat) {
            Err(e) => Err(e),
            Ok(prev) => match encoding_parse(encs[n - 1]@) {
                Err(e) => Err(e),
                Ok(ek) => match codec_cases(codecs, codecs.len()) {
                    Err(e) => Err(e),
                    Ok(cs) => Ok(
                        prev + cs.map_values(
                            |c: (Seq<char>, Option<i32>, CompressionKind)| (encs[n - 1]@, ek, c.0, c.1, c.2),
                        ),
                    ),
                },
            },
        }
    }
}

proof fn lemma_codec_error_sticks(codecs: Seq<(String, Option<i32>)>, k: nat, m: nat)
    requires
        k <= m,
        codec_cases(codecs, k) is Err,
    ensures
        codec_cases(codecs, m) == codec_cases(codecs, k),
    decreases m,
{
    if m > k {
        lemma_codec_error_sticks(codecs, k, (m - 1) as nat);
    }
}

proof fn lemma_plan_error_sticks(encs: Seq<String>, codecs: Seq<(String, Option<i32>)>, k: nat, m: nat)
    requires
        k <= m,
        plan_upto(encs, codecs, k) is Err,
    ensures
        plan_upto(encs, codecs, m) == plan_upto(encs, codecs, k),
    decreases m,
{
    if m > k {
        lemma_plan_error_sticks(encs, codecs, k, (m - 1) as nat);
    }
}

/// Each encoding with each codec, encoding by encoding; the first encoding or
/// codec that cannot be read, in that order, is the error.
pub fn plan_benchmark(codecs: &[(String, Option<i32>)], encodings: &[String]) -> (r: Result<
    Vec<BenchCase>,
    AutoparqError,
>)
    ensures
        match r {
            Ok(v) => plan_upto(encodings@, codecs@, encodings@.len()) == Ok::<Seq<CaseView>, ErrorView>(
                cases_view(v@),
            ),
            Err(e) => plan_upto(encodings@, codecs@, encodings@.len()) == Err::<Seq<CaseView>, ErrorView>(e@),
        },
{
    let mut out: Vec<BenchCase> = Vec::new();
    let mut i: usize = 0;
    proof {
        assert(cases_view(out@) =~= Seq::<CaseView>::empty());
    }
    while i < encodings.len()
        invariant
            i <= encodings@.len(),
            plan_upto(encodings@, codecs@, i as nat) == Ok::<Seq<CaseView>, ErrorView>(cases_view(out@)),
        decreases encodings@.len() - i,
    {
        let ek = match parse_encoding(encodings[i].as_str()) {
            Ok(k) => k,
            Err(e) => {
                proof {
                    lemma_plan_error_sticks(encodings@, codecs@, (i + 1) as nat, encodings@.len());
                }
                return Err(e);
            },
        };
        let ghost base = out@;
        let mut j: usize = 0;
        proof {
            assert(cases_view(out@) =~= cases_view(base) + seq![].map_values(
                |c: (Seq<char>, Option<i32>, CompressionKind)| (encodings@[i as int]@, ek, c.0, c.1, c.2),
            ));
        }
        while j < codecs.len()
            invariant
                i < encodings@.len(),
                j <= codecs@.len(),
                encoding_parse(encodings@[i as int]@) == Ok::<EncodingKind, ErrorView>(ek),
                plan_upto(encodings@, codecs@, i as nat) == Ok::<Seq<CaseView>, ErrorView>(cases_view(base)),
                codec_cases(codecs@, j as nat) is Ok,
                cases_view(out@) == cases_view(base) + codec_cases(codecs@, j as nat)->Ok_0.map_values(
                    |c: (Seq<char>, Option<i32>, CompressionKind)| (encodings@[i as int]@, ek, c.0, c.1, c.2),
                ),
            decreases codecs@.len() - j,
        {
            let (codec, level) = (&codecs[j].0, codecs[j].1);
            let compression = match parse_compression(codec.as_str(), level) {
                Ok(c) => c,
                Err(e) => {
                    proof {
                        lemma_codec_error_sticks(codecs@, (j + 1) as nat, codecs@.len());
                        lemma_plan_error_sticks(encodings@, codecs@, (i + 1) as nat, encodings@.len());
                    }
                    return Err(e);
                },
            };
            let case = BenchCase {
                encoding: copy_string(&encodings[i]),
                encoding_kind: ek,
                codec: copy_string(codec),
                codec_level: level,
                compression,
            };
            let ghost prev = out@;
            let ghost cv = case@;
            out.push(case);
            proof {
                let f = |c: (Seq<char>, Option<i32>, CompressionKind)| (encodings@[i as int]@, ek, c.0, c.1, c.2);
                let before = codec_cases(codecs@, j as nat)->Ok_0;
                assert(codec_cases(codecs@, (j + 1) as nat)->Ok_0 == before.push((codec@, level, compression)));
                assert(before.push((codec@, level, compression)).map_values(f) =~= before.map_values(f).push(cv));
                assert(cases_view(out@) =~= cases_view(prev).push(cv));
            }
            j = j + 1;
        }
        proof {
            assert(plan_upto(encodings@, codecs@, (i + 1) as nat) == Ok::<Seq<CaseView>, ErrorView>(cases_view(out@)));
        }
        i = i + 1;
    }
    Ok(out)
}

/// One measured combination of encoding and codec.
pub struct BenchEntry {
    pub encoding: String,
    pub codec: String,
    pub codec_level: Option<i32>,
    pub compressed_bytes: usize,
    pub write_ms: u64,
    pub read_ms: u64,
    pub compression_ratio: Ratio,
}

/// The measured combinations for a column, smallest output first.
pub struct BenchResult {
    pub column_name: String,
    pub physical_type: String,
    pub uncompressed_bytes: usize,
    pub entries: Vec<BenchEntry>,
}

/// The entry for a case once written and read back: its sizes give the
/// compression ratio (1 when nothing was written).
pub fn bench_entry(case: &BenchCase, compressed_bytes: usize, write_ms: u64, read_ms: u64, uncompressed_bytes: usize) -> (e:
    BenchEntry)
    ensures
        e.encoding@ == case.encoding@,
        e.codec@ == case.codec@,
        e.codec_level == case.codec_level,
        e.compressed_bytes == compressed_bytes,
        e.write_ms == write_ms,
        e.read_ms == read_ms,
        e.compression_ratio@ == if compressed_bytes > 0 {
            (uncompressed_bytes as int, compressed_bytes as int)
        } else {
            (1int, 1int)
        },
{
    let compression_ratio = if compressed_bytes > 0 {
        Ratio::of_counts(uncompressed_bytes as u64, compressed_bytes as u64)
    } else {
        Ratio::of_counts(1, 1)
    };
    BenchEntry {
        encoding: copy_string(&case.encoding),
        codec: copy_string(&case.codec),
        codec_level: case.codec_level,
        compressed_bytes,
        write_ms,
        read_ms,
        compression_ratio,
    }
}

/// `e` is the entry for case `c` measured as `m` (compressed size, write and
/// read milliseconds) against `u` uncompressed bytes.
pub open spec fn entry_for(e: BenchEntry, c: BenchCase, m: (usize, u64, u64), u: usize) -> bool {
    &&& e.encoding@ == c.encoding@
    &&& e.codec@ == c.codec@
    &&& e.codec_level == c.codec_level
    &&& e.compressed_bytes == m.0
    &&& e.write_ms == m.1
    &&& e.read_ms == m.2
    &&& e.compression_ratio@ == if m.0 > 0 { (u as int, m.0 as int) } else { (1int, 1int) }
}

/// `r` holds one entry per planned case, the case at `p[k]` giving `r[k]`
/// (each case once), in increasing size, equal sizes in plan order.
pub open spec fn entries_from_plan(
    r: Seq<BenchEntry>,
    plan: Seq<BenchCase>,
    measured: Seq<(usize, u64, u64)>,
    u: usize,
    p: Seq<int>,
) -> bool {
    &&& r.len() == plan.len()
    &&& p.len() == plan.len()
    &&& forall|k: int| 0 <= k < r.len() ==> 0 <= #[trigger] p[k] < plan.len() && entry_for(r[k], plan[p[k]], measured[p[k]], u)
    &&& forall|k: int, l: int| 0 <= k < l < r.len() ==> #[trigger] p[k] != #[trigger] p[l]
    &&& forall|k: int, l: int|
        0 <= k < l < r.len() ==> (#[trigger] r[k]).compressed_bytes < (#[trigger] r[l]).compressed_bytes || (
        r[k].compressed_bytes == r[l].compressed_bytes && p[k] < p[l])
}

/// `r` is `s` reordered by `p` (`r[k]` is `s[p[k]]`, each position once) into
/// increasing size, ties kept in their input order.
pub open spec fn stably_sorted_from(r: Seq<BenchEntry>, s: Seq<BenchEntry>, p: Seq<int>) -> bool {
    &&& r.len() == s.len()
    &&& p.len() == s.len()
    &&& forall|k: int| 0 <= k < r.len() ==> 0 <= #[trigger] p[k] < s.len() && r[k] == s[p[k]]
    &&& forall|k: int, l: int| 0 <= k < l < r.len() ==> #[trigger] p[k] != #[trigger] p[l]
    &&& forall|k: int, l: int|
        0 <= k < l < r.len() ==> (#[trigger] r[k]).compressed_bytes < (#[trigger] r[l]).compressed_bytes || (
        r[k].compressed_bytes == r[l].compressed_bytes && p[k] < p[l])
}

/// The entries sorted by size, smallest first; equal sizes keep their order.
pub fn sort_entries(entries: Vec<BenchEntry>) -> (r: Vec<BenchEntry>)
    ensures
        exists|p: Seq<int>| stably_sorted_from(r@, entries@, p),
{
    let ghost s = entries@;
    let n = entries.len();
    let mut input = entries;
    let mut out: Vec<BenchEntry> = Vec::new();
    let ghost mut p: Seq<int> = seq![];
    let mut i: usize = 0;
    while input.len() > 0
        invariant
            input@ == s.subrange(i as int, s.len() as int),
            n == s.len(),
            i <= s.len(),
            out@.len() == i,
            p.len() == i,
            forall|k: int| 0 <= k < i ==> 0 <= #[trigger] p[k] < i && out@[k] == s[p[k]],
            forall|k: int, l: int| 0 <= k < l < i ==> #[trigger] p[k] != #[trigger] p[l],
            forall|k: int, l: int|
                0 <= k < l < i ==> (#[trigger] out@[k]).compressed_bytes < (#[trigger] out@[l]).compressed_bytes
                    || (out@[k].compressed_bytes == out@[l].compressed_bytes && p[k] < p[l]),
        decreases input@.len(),
    {
        let x = input.remove(0);
        proof {
            assert(x == s[i as int]);
            assert(input@ =~= s.subrange(i + 1, s.len() as int));
        }
        let key = x.compressed_bytes;
        let mut pos: usize = 0;
        while pos < out.len() && out[pos].compressed_bytes <= key
            invariant
                pos <= out@.len(),
                forall|k: int| 0 <= k < pos ==> (#[trigger] out@[k]).compressed_bytes <= key,
            decreases out@.len() - pos,
        {
            pos = pos + 1;
        }
        let ghost old_out = out@;
        let ghost old_p = p;
        out.insert(pos, x);
        proof {
            p = old_p.insert(pos as int, i as int);
            assert forall|l: int| pos <= l < old_out.len() implies key < (#[trigger] old_out[l]).compressed_bytes by {
                if old_out[pos as int].compressed_bytes <= key {
                } else {
                    if l > pos {
                        assert(old_out[pos as int].compressed_bytes <= old_out[l].compressed_bytes);
                    }
                }
            }
            assert forall|k: int| 0 <= k < i + 1 implies 0 <= #[trigger] p[k] < i + 1 && out@[k] == s[p[k]] by {
                if k < pos {
                    assert(out@[k] == old_out[k] && p[k] == old_p[k]);
                } else if k > pos {
                    assert(out@[k] == old_out[k - 1] && p[k] == old_p[k - 1]);
                }
            }
            assert forall|k: int, l: int| 0 <= k < l < i + 1 implies #[trigger] p[k] != #[trigger] p[l] by {
                if k < pos && l < pos {
                    assert(p[k] == old_p[k] && p[l] == old_p[l]);
                } else if k < pos && l == pos {
                    assert(p[k] == old_p[k]);
                } else if k < pos && l > pos {
                    assert(p[k] == old_p[k] && p[l] == old_p[l - 1]);
                } else if k == pos {
                    assert(p[l] == old_p[l - 1]);
                } else {
                    assert(p[k] == old_p[k - 1] && p[l] == old_p[l - 1]);
                }
            }
            assert forall|k: int, l: int| 0 <= k < l < i + 1 implies (#[trigger] out@[k]).compressed_bytes
                < (#[trigger] out@[l]).compressed_bytes || (out@[k].compressed_bytes == out@[l].compressed_bytes
                && p[k] < p[l]) by {
                if k < pos && l < pos {
                    assert(out@[k] == old_out[k] && out@[l] == old_out[l] && p[k] == old_p[k] && p[l] == old_p[l]);
                } else if k < pos && l == pos {
                    assert(out@[k] == old_out[k] && p[k] == old_p[k]);
                } else if k < pos && l > pos {
                    assert(out@[k] == old_out[k] && out@[l] == old_out[l - 1] && p[k] == old_p[k] && p[l] == old_p[l - 1]);
                } else if k == pos {
                    assert(out@[l] == old_out[l - 1]);
                } else {
                    assert(out@[k] == old_out[k - 1] && out@[l] == old_out[l - 1] && p[k] == old_p[k - 1] && p[l] == old_p[l - 1]);
                }
            }
        }
        i = i + 1;
    }
    proof {
        assert(stably_sorted_from(out@, s, p));
    }
    out
}

/// The benchmark result: the measured entries sorted by size, smallest first.
pub fn finish_benchmark(column_name: &str, physical_type: &str, uncompressed_bytes: usize, entries: Vec<BenchEntry>) -> (r:
    BenchResult)
    ensures
        r.column_name@ == column_name@,
        r.physical_type@ == physical_type@,
        r.uncompressed_bytes == uncompressed_bytes,
        exists|p: Seq<int>| stably_sorted_from(r.entries@, entries@, p),
{
    let ghost s = entries@;
    let sorted = sort_entries(entries);
    let ghost p = choose|p: Seq<int>| stably_sorted_from(sorted@, s, p);
    let r = BenchResult {
        column_name: text(column_name),
        physical_type: text(physical_type),
        uncompressed_bytes,
        entries: sorted,
    };
    proof {
        assert(stably_sorted_from(r.entries@, s, p));
    }
    r
}

/// The benchmark result for the planned cases and their measurements, given
/// in plan order: one entry per case, smallest output first.
pub fn assemble_benchmark(
    column_name: &str,
    physical_type: &str,
    uncompressed_bytes: usize,
    plan: &[BenchCase],
    measured: &[(usize, u64, u64)],
) -> (r: BenchResult)
    requires
        plan@.len() == measured@.len(),
    ensures
        r.column_name@ == column_name@,
        r.physical_type@ == physical_type@,
        r.uncompressed_bytes == uncompressed_bytes,
        exists|p: Seq<int>| entries_from_plan(r.entries@, plan@, measured@, uncompressed_bytes, p),
{
    let mut entries: Vec<BenchEntry> = Vec::new();
    let mut i: usize = 0;
    while i < plan.len()
        invariant
            i <= plan@.len(),
            plan@.len() == measured@.len(),
            entries@.len() == i,
            forall|k: int| 0 <= k < i ==> entry_for(#[trigger] entries@[k], plan@[k], measured@[k], uncompressed_bytes),
        decreases plan@.len() - i,
    {
        let (size, write_ms, read_ms) = measured[i];
        let e = bench_entry(&plan[i], size, write_ms, read_ms, uncompressed_bytes);
        entries.push(e);
        i = i + 1;
    }
    let ghost built = entries@;
    let r = finish_benchmark(column_name, physical_type, uncompressed_bytes, entries);
    proof {
        let p = choose|p: Seq<int>| stably_sorted_from(r.entries@, built, p);
        assert forall|k: int| 0 <= k < r.entries@.len() implies 0 <= #[trigger] p[k] < plan@.len() && entry_for(
            r.entries@[k],
            plan@[p[k]],
            measured@[p[k]],
            uncompressed_bytes,
        ) by {
            assert(r.entries@[k] == built[p[k]]);
        }
        assert(entries_from_plan(r.entries@, plan@, measured@, uncompressed_bytes, p));
    }
    r
}

} // verus!
