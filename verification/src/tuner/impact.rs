//! How much a recommendation is expected to matter: per-column impact stars,
//! the engine version it needs, and the predicted size reduction of the file.

use vstd::prelude::*;
use crate::profiler::metadata::{
    ColumnMetaSummary, FileProfile, find_column, first_named, sum_uncompressed, total_uncompressed,
};
use crate::ratio::{Ratio, frac_lt};
use crate::recommender::codec::{CodecRecommendation, Engine};
use crate::recommender::encoding::EncodingRecommendation;
use crate::recommender::engine::{check_encoding_compatibility, encoding_support};
use crate::text::{concat3, int_text, push_int, str_eq, text, vec_has};
use crate::tuner::ColumnRecommendation;

verus! {

/// A codec with its level, as written in a footer: `ZSTD:3`, or `SNAPPY`.
pub open spec fn codec_full_text(codec: Seq<char>, level: Option<i32>) -> Seq<char> {
    match level {
        Some(l) => codec + ":"@ + int_text(l as int),
        None => codec,
    }
}

pub fn codec_full(codec: &String, level: Option<i32>) -> (s: String)
    ensures
        s@ == codec_full_text(codec@, level),
{
    match level {
        Some(l) => {
            let mut s = codec.clone();
            s.append(":");
            push_int(&mut s, l as i64);
            proof {
                reveal_strlit(":");
            }
            s
        },
        None => codec.clone(),
    }
}

/// Some string of `v` equals `x`.
pub open spec fn lists(v: Seq<String>, x: Seq<char>) -> bool {
    exists|i: int| 0 <= i < v.len() && #[trigger] v[i]@ == x
}

/// `part` is at least `a / b` of `total` (never when `total` is zero).
pub open spec fn share_at_least(part: int, total: int, a: int, b: int) -> bool {
    total > 0 && part * b >= a * total
}

/// Stars from 1 to 5: 1 when nothing changes; up to 3 for a codec-only change
/// and up to 5 for an encoding change, by the column's share of the file's
/// uncompressed bytes (10%, 4% and 1% steps).
pub open spec fn impact_stars_of(
    encoding_set: bool,
    codec_set: bool,
    part: int,
    total: int,
) -> int {
    if encoding_set && codec_set {
        1
    } else if encoding_set {
        if share_at_least(part, total, 1, 10) {
            3
        } else if share_at_least(part, total, 1, 25) {
            2
        } else {
            1
        }
    } else if share_at_least(part, total, 1, 10) {
        5
    } else if share_at_least(part, total, 1, 25) {
        4
    } else if share_at_least(part, total, 1, 100) {
        3
    } else {
        2
    }
}

fn share_at_least_exec(part: u64, total: u128, a: u128, b: u128) -> (r: bool)
    requires
        a <= 100,
        b <= 100,
    ensures
        r == share_at_least(part as int, total as int, a as int, b as int),
{
    if total == 0 {
        return false;
    }
    proof {
        assert(part * b <= 0xffff_ffff_ffff_ffff * 100) by (nonlinear_arith)
            requires part <= 0xffff_ffff_ffff_ffff, b <= 100;
    }
    let lhs: u128 = (part as u128) * b;
    match a.checked_mul(total) {
        Some(rhs) => lhs >= rhs,
        None => {
            proof {
                assert(lhs < a * total);
            }
            false
        },
    }
}

/// How much a recommendation changes the column, in stars from 1 to 5.
pub fn compute_impact_stars(
    enc: &EncodingRecommendation,
    codec: &CodecRecommendation,
    meta: &ColumnMetaSummary,
    file_total_uncompressed: u128,
) -> (stars: u8)
    ensures
        stars == impact_stars_of(
            lists(meta.encodings@, enc.encoding@),
            meta.codec@ == codec_full_text(codec.codec@, codec.codec_level),
            meta.uncompressed_bytes as int,
            file_total_uncompressed as int,
        ),
        1 <= stars <= 5,
{
    let enc_already_set = vec_has(&meta.encodings, enc.encoding.as_str());
    let rec_codec_full = codec_full(&codec.codec, codec.codec_level);
    let codec_already_set = str_eq(meta.codec.as_str(), rec_codec_full.as_str());
    if enc_already_set && codec_already_set {
        return 1;
    }
    let part = meta.uncompressed_bytes;
    let total = file_total_uncompressed;
    if enc_already_set {
        if share_at_least_exec(part, total, 1, 10) {
            3
        } else if share_at_least_exec(part, total, 1, 25) {
            2
        } else {
            1
        }
    } else if share_at_least_exec(part, total, 1, 10) {
        5
    } else if share_at_least_exec(part, total, 1, 25) {
        4
    } else if share_at_least_exec(part, total, 1, 100) {
        3
    } else {
        2
    }
}

/// `engine>=version` when the engine needs a minimum version for the encoding.
pub open spec fn engine_compat_text(engine: Engine, encoding: Seq<char>, engine_name: Seq<char>) -> Option<
    Seq<char>,
> {
    match encoding_support(engine, encoding).1 {
        Some(v) => Some(engine_name + ">="@ + v),
        None => None,
    }
}

pub fn compute_engine_compat(enc: &EncodingRecommendation, engine: &Engine, engine_name: &str) -> (r:
    Option<String>)
    ensures
        crate::text::opt_text(r) == engine_compat_text(*engine, enc.encoding@, engine_name@),
{
    let es = check_encoding_compatibility(engine, enc.encoding.as_str());
    match es.min_version {
        Some(v) => Some(concat3(engine_name, ">=", v.as_str())),
        None => None,
    }
}

/// The column is PLAIN without dictionary or delta encoding today.
pub open spec fn currently_plain(m: ColumnMetaSummary) -> bool {
    lists(m.encodings@, "PLAIN"@) && !lists(m.encodings@, "RLE_DICTIONARY"@) && !lists(
        m.encodings@,
        "DELTA_BINARY_PACKED"@,
    )
}

/// The expected saving `1 - 1/factor` of a recommendation, in 4830ths:
/// factor 3 for delta, 10, 5 or 2 for a dictionary by cardinality (below
/// 0.001, below 0.01, otherwise), 1.15 for byte-stream-split, 2.5 for
/// delta-byte-array, 1.05 for delta-length, and for anything else 1.25 on a
/// PLAIN column (1.15 on another) whose codec changes, 1 otherwise.
pub open spec fn saving_4830(rec: &ColumnRecommendation, m: ColumnMetaSummary) -> int {
    let codec_changes = m.codec@ != rec.recommended_codec@;
    let rule = rec.encoding_rule_fired@;
    if currently_plain(m) {
        if rule == "DeltaMonotonic"@ {
            3220
        } else if rule == "RleDictionary"@ {
            if frac_lt(rec.cardinality_ratio@, 1, 1000) {
                4347
            } else if frac_lt(rec.cardinality_ratio@, 1, 100) {
                3864
            } else {
                2415
            }
        } else if rule == "ByteStreamSplit"@ {
            630
        } else if rule == "DeltaByteArray"@ {
            2898
        } else if rule == "DeltaLengthByteArray"@ {
            230
        } else if codec_changes {
            966
        } else {
            0
        }
    } else if codec_changes {
        630
    } else {
        0
    }
}

/// A column's uncompressed bytes times its saving (zero for a column the file lacks).
pub open spec fn weighted_saving(rec: &ColumnRecommendation, cols: Seq<ColumnMetaSummary>) -> int {
    match first_named(cols, rec.column_name@) {
        Some(i) => cols[i].uncompressed_bytes * saving_4830(rec, cols[i]),
        None => 0,
    }
}

pub open spec fn sum_savings(recs: Seq<ColumnRecommendation>, cols: Seq<ColumnMetaSummary>) -> int
    decreases recs.len(),
{
    if recs.len() == 0 {
        0
    } else {
        sum_savings(recs.drop_last(), cols) + weighted_saving(&recs.last(), cols)
    }
}

/// The predicted size reduction in percent, as a fraction: the savings
/// weighted by each column's share of the uncompressed bytes, capped at 90;
/// zero for a file without bytes.
pub open spec fn predicted_reduction(recs: Seq<ColumnRecommendation>, cols: Seq<ColumnMetaSummary>) -> (int, int) {
    let total = sum_uncompressed(cols);
    let s = sum_savings(recs, cols);
    if total == 0 {
        (0, 1)
    } else if 100 * s >= 90 * 4830 * total {
        (90, 1)
    } else {
        (100 * s, 4830 * total)
    }
}

proof fn lemma_savings_monotone(recs: Seq<ColumnRecommendation>, cols: Seq<ColumnMetaSummary>, i: int, j: int)
    requires
        0 <= i <= j <= recs.len(),
    ensures
        sum_savings(recs.take(i), cols) <= sum_savings(recs.take(j), cols),
        sum_savings(recs.take(i), cols) >= 0,
    decreases j,
{
    if j > 0 {
        assert(recs.take(j).drop_last() =~= recs.take(j - 1));
        lemma_weighted_nonneg(&recs.take(j).last(), cols);
        if i < j {
            lemma_savings_monotone(recs, cols, i, j - 1);
        } else {
            lemma_savings_monotone(recs, cols, i - 1, j - 1);
            assert(recs.take(i) =~= recs.take(j));
        }
    } else {
        assert(recs.take(i) =~= recs.take(0));
        assert(recs.take(0) =~= Seq::<ColumnRecommendation>::empty());
    }
}

proof fn lemma_weighted_nonneg(rec: &ColumnRecommendation, cols: Seq<ColumnMetaSummary>)
    ensures
        0 <= weighted_saving(rec, cols),
{
    match first_named(cols, rec.column_name@) {
        Some(i) => {
            let u = cols[i].uncompressed_bytes as int;
            let g = saving_4830(rec, cols[i]);
            assert(0 <= u * g) by (nonlinear_arith)
                requires 0 <= u, 0 <= g;
        },
        None => {},
    }
}

fn saving_exec(rec: &ColumnRecommendation, m: &ColumnMetaSummary) -> (g: u128)
    ensures
        g == saving_4830(rec, *m),
        g <= 4347,
{
    let codec_changes = !str_eq(m.codec.as_str(), rec.recommended_codec.as_str());
    let plain = vec_has(&m.encodings, "PLAIN") && !vec_has(&m.encodings, "RLE_DICTIONARY") && !vec_has(
        &m.encodings,
        "DELTA_BINARY_PACKED",
    );
    let rule = rec.encoding_rule_fired.as_str();
    if plain {
        if str_eq(rule, "DeltaMonotonic") {
            3220
        } else if str_eq(rule, "RleDictionary") {
            if rec.cardinality_ratio.lt_frac(1, 1000) {
                4347
            } else if rec.cardinality_ratio.lt_frac(1, 100) {
                3864
            } else {
                2415
            }
        } else if str_eq(rule, "ByteStreamSplit") {
            630
        } else if str_eq(rule, "DeltaByteArray") {
            2898
        } else if str_eq(rule, "DeltaLengthByteArray") {
            230
        } else if codec_changes {
            966
        } else {
            0
        }
    } else if codec_changes {
        630
    } else {
        0
    }
}

/// The predicted reduction of the file's size in percent, at most 90.
pub fn predicted_size_reduction_pct(columns: &[ColumnRecommendation], file_profile: &FileProfile) -> (pct:
    Ratio)
    requires
        sum_uncompressed(file_profile.columns@) <= 0x7fff_ffff_ffff_ffff,
    ensures
        pct@ == predicted_reduction(columns@, file_profile.columns@),
{
    let total = total_uncompressed(&file_profile.columns);
    if total == 0 {
        return Ratio::of_counts(0, 1);
    }
    let cols = &file_profile.columns;
    assert(0 < total <= 0x7fff_ffff_ffff_ffff);
    let cap: u128 = 434700 * total;
    let mut s: u128 = 0;
    let mut i: usize = 0;
    while i < columns.len()
        invariant
            i <= columns@.len(),
            0 < total <= 0x7fff_ffff_ffff_ffff,
            cols@ == file_profile.columns@,
            total == sum_uncompressed(cols@),
            cap == 434700 * total,
            s == sum_savings(columns@.take(i as int), cols@),
            100 * s < cap,
        decreases columns@.len() - i,
    {
        let rec = &columns[i];
        proof {
            assert(columns@.take(i + 1).drop_last() =~= columns@.take(i as int));
            assert(columns@.take(i + 1).last() == *rec);
        }
        let term: u128 = match find_column(cols, rec.column_name.as_str()) {
            Some(k) => {
                let g = saving_exec(rec, &cols[k]);
                let u = cols[k].uncompressed_bytes;
                proof {
                    assert(u * g <= 0xffff_ffff_ffff_ffff * 4347) by (nonlinear_arith)
                        requires u <= 0xffff_ffff_ffff_ffff, g <= 4347;
                }
                (u as u128) * g
            },
            None => 0,
        };
        assert(term == weighted_saving(rec, cols@));
        assert(term <= 0xffff_ffff_ffff_ffff * 4347);
        s = s + term;
        assert(s == sum_savings(columns@.take(i + 1), cols@));
        if 100 * s >= cap {
            proof {
                lemma_savings_monotone(columns@, cols@, i + 1, columns@.len() as int);
                assert(columns@.take(columns@.len() as int) =~= columns@);
                assert(sum_savings(columns@, cols@) >= s);
                assert(100 * sum_savings(columns@, cols@) >= 90 * 4830 * sum_uncompressed(cols@));
            }
            return Ratio::of_counts(90, 1);
        }
        i = i + 1;
    }
    proof {
        assert(columns@.take(columns@.len() as int) =~= columns@);
    }
    Ratio::from_parts((100 * s) as i128, 4830 * total)
}

/// The predicted reduction is a fraction between 0 and 90 percent whose parts
/// stay within what a file with at most `i64::MAX` uncompressed bytes allows.
pub proof fn lemma_reduction_bounds(recs: Seq<ColumnRecommendation>, cols: Seq<ColumnMetaSummary>)
    requires
        sum_uncompressed(cols) <= 0x7fff_ffff_ffff_ffff,
    ensures
        ({
            let p = predicted_reduction(recs, cols);
            &&& 0 <= p.0 <= 434700 * 0x7fff_ffff_ffff_ffff
            &&& 0 < p.1 <= 4830 * 0x7fff_ffff_ffff_ffff
            &&& p.0 <= 90 * p.1
        }),
{
    lemma_savings_monotone(recs, cols, 0, recs.len() as int);
    assert(recs.take(recs.len() as int) =~= recs);
    assert(recs.take(0) =~= Seq::<ColumnRecommendation>::empty());
    lemma_sum_uncompressed_nonneg(cols);
    let total = sum_uncompressed(cols);
    let s = sum_savings(recs, cols);
    assert(s >= 0);
    if total != 0 && 100 * s < 90 * 4830 * total {
        assert(4830 * total <= 4830 * 0x7fff_ffff_ffff_ffff
            && 100 * s <= 434700 * 0x7fff_ffff_ffff_ffff
            && 100 * s <= 90 * (4830 * total)) by (nonlinear_arith)
            requires
                0 <= total <= 0x7fff_ffff_ffff_ffff,
                0 <= s,
                100 * s < 90 * 4830 * total;
    }
}

proof fn lemma_sum_uncompressed_nonneg(cols: Seq<ColumnMetaSummary>)
    ensures
        sum_uncompressed(cols) >= 0,
    decreases cols.len(),
{
    if cols.len() > 0 {
        lemma_sum_uncompressed_nonneg(cols.drop_last());
    }
}

} // verus!

