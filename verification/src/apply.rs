//! Applying a report: the writer settings for each column, and how each
//! column's size and encodings changed in the rewritten file.

use vstd::prelude::*;
use crate::bench::result_view;
use crate::error::{AutoparqError, ErrorView};
use crate::profiler::footer::{CompressionKind, EncodingKind};
use crate::profiler::metadata::{ColumnMetaSummary, FileProfile, find_column, first_named};
use crate::text::{copy_string, copy_strings, str_eq, to_uppercase, uppercase_of};
use crate::tuner::ColumnRecommendation;

verus! {

/// The encoding the writer is asked for (compared in upper case); anything
/// unknown is written PLAIN.
pub open spec fn writer_encoding(s: Seq<char>) -> EncodingKind {
    let u = uppercase_of(s);
    if u == "PLAIN"@ {
        EncodingKind::Plain
    } else if u == "DELTA_BINARY_PACKED"@ {
        EncodingKind::DeltaBinaryPacked
    } else if u == "RLE_DICTIONARY"@ {
        EncodingKind::RleDictionary
    } else if u == "BYTE_STREAM_SPLIT"@ {
        EncodingKind::ByteStreamSplit
    } else if u == "RLE"@ {
        EncodingKind::Rle
    } else {
        EncodingKind::Plain
    }
}

pub fn parse_encoding_for_writer(s: &str) -> (r: Result<EncodingKind, AutoparqError>)
    ensures
        result_view(r) == Ok::<EncodingKind, ErrorView>(writer_encoding(s@)),
{
    let u = to_uppercase(s);
    let t = u.as_str();
    if str_eq(t, "PLAIN") {
        Ok(EncodingKind::Plain)
    } else if str_eq(t, "DELTA_BINARY_PACKED") {
        Ok(EncodingKind::DeltaBinaryPacked)
    } else if str_eq(t, "RLE_DICTIONARY") {
        Ok(EncodingKind::RleDictionary)
    } else if str_eq(t, "BYTE_STREAM_SPLIT") {
        Ok(EncodingKind::ByteStreamSplit)
    } else if str_eq(t, "RLE") {
        Ok(EncodingKind::Rle)
    } else {
        Ok(EncodingKind::Plain)
    }
}

/// The compression the writer is asked for (compared in upper case): ZSTD at
/// the given level or 3 (an invalid level is an error), GZIP at its default
/// level; anything unknown is written SNAPPY.
pub open spec fn writer_compression(codec: Seq<char>, level: Option<i32>) -> Result<CompressionKind, ErrorView> {
    let u = uppercase_of(codec);
    if u == "SNAPPY"@ || u == "LZ4"@ || u == "UNCOMPRESSED"@ || u == "ZSTD"@ || u == "GZIP"@ {
        crate::bench::compression_parse(codec, level)
    } else {
        Ok(CompressionKind::Snappy)
    }
}

pub fn parse_compression_for_writer(codec: &str, level: Option<i32>) -> (r: Result<CompressionKind, AutoparqError>)
    ensures
        result_view(r) == writer_compression(codec@, level),
{
    let u = to_uppercase(codec);
    let t = u.as_str();
    if str_eq(t, "SNAPPY") || str_eq(t, "LZ4") || str_eq(t, "UNCOMPRESSED") || str_eq(t, "ZSTD") || str_eq(
        t,
        "GZIP",
    ) {
        crate::bench::parse_compression(codec, level)
    } else {
        Ok(CompressionKind::Snappy)
    }
}

/// How the writer is to store one column: dictionary encoding, or else the
/// given encoding, and the compression.
pub struct ColumnWriteSetting {
    pub column_name: String,
    pub dictionary: bool,
    pub encoding: EncodingKind,
    pub compression: CompressionKind,
}

pub type SettingView = (Seq<char>, bool, EncodingKind, CompressionKind);

impl View for ColumnWriteSetting {
    type V = SettingView;

    open spec fn view(&self) -> SettingView {
        (self.column_name@, self.dictionary, self.encoding, self.compression)
    }
}

/// The writer settings for the first `n` recommendations, or the first error.
pub open spec fn settings_upto(recs: Seq<ColumnRecommendation>, n: nat) -> Result<Seq<SettingView>, ErrorView>
    decreases n,
{
    if n == 0 {
        Ok(seq![])
    } else {
        match settings_upto(recs, (n - 1) as nat) {
            Err(e) => Err(e),
            Ok(prev) => {
                let c = recs[n - 1];
                let enc = writer_encoding(c.recommended_encoding@);
                match writer_compression(c.recommended_codec@, c.recommended_codec_level) {
                    Err(e) => Err(e),
                    Ok(comp) => Ok(prev.push((c.column_name@, enc == EncodingKind::RleDictionary, enc, comp))),
                }
            },
        }
    }
}

proof fn lemma_settings_error_sticks(recs: Seq<ColumnRecommendation>, k: nat, m: nat)
    requires
        k <= m,
        settings_upto(recs, k) is Err,
    ensures
        settings_upto(recs, m) == settings_upto(recs, k),
    decreases m,
{
    if m > k {
        lemma_settings_error_sticks(recs, k, (m - 1) as nat);
    }
}

/// The writer settings for every recommended column, in order.
pub fn writer_settings(columns: &[ColumnRecommendation]) -> (r: Result<Vec<ColumnWriteSetting>, AutoparqError>)
    ensures
        match r {
            Ok(v) => settings_upto(columns@, columns@.len()) == Ok::<Seq<SettingView>, ErrorView>(
                v@.map_values(|s: ColumnWriteSetting| s@),
            ),
            Err(e) => settings_upto(columns@, columns@.len()) == Err::<Seq<SettingView>, ErrorView>(e@),
        },
{
    let mut out: Vec<ColumnWriteSetting> = Vec::new();
    let mut i: usize = 0;
    proof {
        assert(out@.map_values(|s: ColumnWriteSetting| s@) =~= Seq::<SettingView>::empty());
    }
    while i < columns.len()
        invariant
            i <= columns@.len(),
            settings_upto(columns@, i as nat) == Ok::<Seq<SettingView>, ErrorView>(
                out@.map_values(|s: ColumnWriteSetting| s@),
            ),
        decreases columns@.len() - i,
    {
        let c = &columns[i];
        let enc = match parse_encoding_for_writer(c.recommended_encoding.as_str()) {
            Ok(e) => e,
            Err(e) => {
                return Err(e);
            },
        };
        let comp = match parse_compression_for_writer(c.recommended_codec.as_str(), c.recommended_codec_level) {
            Ok(x) => x,
            Err(e) => {
                proof {
                    lemma_settings_error_sticks(columns@, (i + 1) as nat, columns@.len());
                }
                return Err(e);
            },
        };
        let setting = ColumnWriteSetting {
            column_name: copy_string(&c.column_name),
            dictionary: enc == EncodingKind::RleDictionary,
            encoding: enc,
            compression: comp,
        };
        let ghost before = out@;
        let ghost sv = setting@;
        out.push(setting);
        proof {
            assert(out@.map_values(|s: ColumnWriteSetting| s@) =~= before.map_values(|s: ColumnWriteSetting| s@).push(sv));
        }
        i = i + 1;
    }
    Ok(out)
}

/// How one column changed in the rewritten file.
pub struct ColumnSizeDelta {
    pub column_name: String,
    pub before_compressed: u64,
    pub after_compressed: u64,
    pub before_encodings: Vec<String>,
    pub after_encodings: Vec<String>,
    pub before_codec: String,
    pub after_codec: String,
}

/// `d` compares the column `before` with its counterpart `after`.
pub open spec fn compares(d: ColumnSizeDelta, before: ColumnMetaSummary, after: ColumnMetaSummary) -> bool {
    &&& d.column_name@ == before.name@
    &&& d.before_compressed == before.compressed_bytes
    &&& d.after_compressed == after.compressed_bytes
    &&& d.before_encodings@ == before.encodings@
    &&& d.after_encodings@ == after.encodings@
    &&& d.before_codec@ == before.codec@
    &&& d.after_codec@ == after.codec@
}

/// For each column of the first file that the second has (by name, first
/// match), in order, the positions in both.
pub open spec fn matched_columns(before: Seq<ColumnMetaSummary>, after: Seq<ColumnMetaSummary>) -> Seq<(int, int)>
    decreases before.len(),
{
    if before.len() == 0 {
        seq![]
    } else {
        let prev = matched_columns(before.drop_last(), after);
        match first_named(after, before.last().name@) {
            Some(a) => prev.push((before.len() - 1, a)),
            None => prev,
        }
    }
}

/// For each column of the input file that the rewritten file has, its size,
/// encodings and codec before and after.
pub fn column_size_deltas(before: &FileProfile, after: &FileProfile) -> (r: Vec<ColumnSizeDelta>)
    ensures
        r@.len() == matched_columns(before.columns@, after.columns@).len(),
        forall|k: int|
            0 <= k < r@.len() ==> {
                let m = #[trigger] matched_columns(before.columns@, after.columns@)[k];
                compares(r@[k], before.columns@[m.0], after.columns@[m.1])
            },
{
    let bc = &before.columns;
    let ac = &after.columns;
    let mut out: Vec<ColumnSizeDelta> = Vec::new();
    let mut i: usize = 0;
    while i < bc.len()
        invariant
            i <= bc@.len(),
            bc@ == before.columns@,
            ac@ == after.columns@,
            out@.len() == matched_columns(bc@.take(i as int), ac@).len(),
            forall|k: int|
                0 <= k < out@.len() ==> {
                    let m = #[trigger] matched_columns(bc@.take(i as int), ac@)[k];
                    &&& 0 <= m.0 < i
                    &&& 0 <= m.1 < ac@.len()
                    &&& compares(out@[k], bc@[m.0], ac@[m.1])
                },
        decreases bc@.len() - i,
    {
        let b = &bc[i];
        let ghost prev = matched_columns(bc@.take(i as int), ac@);
        proof {
            assert(bc@.take(i + 1).drop_last() =~= bc@.take(i as int));
            assert(bc@.take(i + 1).last() == *b);
        }
        match find_column(ac, b.name.as_str()) {
            Some(a) => {
                let x = &ac[a];
                let d = ColumnSizeDelta {
                    column_name: copy_string(&b.name),
                    before_compressed: b.compressed_bytes,
                    after_compressed: x.compressed_bytes,
                    before_encodings: copy_strings(&b.encodings),
                    after_encodings: copy_strings(&x.encodings),
                    before_codec: copy_string(&b.codec),
                    after_codec: copy_string(&x.codec),
                };
                let ghost old_out = out@;
                out.push(d);
                proof {
                    let now = matched_columns(bc@.take(i + 1), ac@);
                    assert(now == prev.push((i as int, a as int)));
                    assert forall|k: int| 0 <= k < out@.len() implies {
                        let m = #[trigger] now[k];
                        &&& 0 <= m.0 < i + 1
                        &&& 0 <= m.1 < ac@.len()
                        &&& compares(out@[k], bc@[m.0], ac@[m.1])
                    } by {
                        if k < old_out.len() {
                            assert(now[k] == prev[k]);
                            assert(out@[k] == old_out[k]);
                        }
                    }
                }
            },
            None => {
                proof {
                    let now = matched_columns(bc@.take(i + 1), ac@);
                    assert(now == prev);
                }
            },
        }
        i = i + 1;
    }
    proof {
        assert(bc@.take(bc@.len() as int) =~= bc@);
    }
    out
}

} // verus!
