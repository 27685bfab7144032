//! Encoding rules, applied in priority order; the first that matches wins.

use vstd::prelude::*;
use crate::profiler::metadata::ColumnMetaSummary;
use crate::profiler::stats::ColumnProfile;
use crate::ratio::{Ratio, fixed_text, frac_le, frac_lt};
use crate::text::{nat_string, nat_text, starts_with, has_prefix, str_eq, text};

verus! {

/// The rule that chose an encoding.
#[derive(Clone, Copy, Debug, PartialEq, Eq, Structural)]
pub enum RuleName {
    BooleanRle,
    DeltaMonotonic,
    RleDictionary,
    ByteStreamSplit,
    PlainUuid,
    DeltaByteArray,
    DeltaLengthByteArray,
    PlainDefault,
}

#[derive(Clone, Copy, Debug, PartialEq, Eq, Structural)]
pub enum ConfidenceTier {
    High,
    Medium,
    Low,
}

/// The encoding chosen for a column, with the rule and confidence behind it.
pub struct EncodingRecommendation {
    pub encoding: String,
    pub rule_fired: RuleName,
    pub reason_brief: String,
    pub confidence: ConfidenceTier,
    pub confidence_reason: String,
}

impl View for EncodingRecommendation {
    type V = (Seq<char>, RuleName, Seq<char>, ConfidenceTier, Seq<char>);

    open spec fn view(&self) -> Self::V {
        (self.encoding@, self.rule_fired, self.reason_brief@, self.confidence, self.confidence_reason@)
    }
}

impl EncodingRecommendation {
    pub fn copy(&self) -> (r: EncodingRecommendation)
        ensures
            r@ == self@,
    {
        EncodingRecommendation {
            encoding: self.encoding.clone(),
            rule_fired: self.rule_fired,
            reason_brief: self.reason_brief.clone(),
            confidence: self.confidence,
            confidence_reason: self.confidence_reason.clone(),
        }
    }
}

/// Fixed-point text of a fraction.
pub open spec fn ratio_text(r: (int, int), places: nat) -> Seq<char> {
    fixed_text(r.0, r.1, places)
}

/// At least 10% of the file and 100,000 rows were sampled.
pub open spec fn sample_is_large(p: &ColumnProfile) -> bool {
    !frac_lt(p.sample_fraction@, 1, 10) && p.sample_rows >= 100_000
}

/// At least 2% of the file or 50,000 rows were sampled.
pub open spec fn sample_is_medium(p: &ColumnProfile) -> bool {
    !frac_lt(p.sample_fraction@, 1, 50) || p.sample_rows >= 50_000
}

/// Dictionary encoding chosen with a cardinality ratio in [0.08, 0.12].
pub open spec fn near_dictionary_boundary(p: &ColumnProfile, rule: RuleName) -> bool {
    rule == RuleName::RleDictionary && !frac_lt(p.cardinality_ratio@, 2, 25) && frac_le(
        p.cardinality_ratio@,
        3,
        25,
    )
}

pub open spec fn confidence_tier(p: &ColumnProfile, rule: RuleName) -> ConfidenceTier {
    if sample_is_large(p) && !near_dictionary_boundary(p, rule) {
        ConfidenceTier::High
    } else if sample_is_medium(p) || near_dictionary_boundary(p, rule) {
        ConfidenceTier::Medium
    } else {
        ConfidenceTier::Low
    }
}

pub open spec fn confidence_text(p: &ColumnProfile, rule: RuleName) -> Seq<char> {
    let sf = ratio_text(p.sample_fraction@, 3);
    let rows = nat_text(p.sample_rows as nat);
    if sample_is_large(p) && !near_dictionary_boundary(p, rule) {
        "sample_fraction="@ + sf + " >= 0.10 and sample_rows="@ + rows + " >= 100,000"@
    } else if near_dictionary_boundary(p, rule) {
        "cardinality_ratio="@ + ratio_text(p.cardinality_ratio@, 4)
            + " is within 20% of 0.10 threshold — boundary case"@
    } else if sample_is_medium(p) {
        "sample_fraction="@ + sf + " or sample_rows="@ + rows + " meets medium threshold"@
    } else {
        "small sample: sample_fraction="@ + sf + " < 0.02 and sample_rows="@ + rows
            + " < 50,000"@
    }
}

fn compute_confidence(profile: &ColumnProfile, rule: RuleName) -> (res: (ConfidenceTier, String))
    ensures
        res.0 == confidence_tier(profile, rule),
        res.1@ == confidence_text(profile, rule),
{
    let high = !profile.sample_fraction.lt_frac(1, 10) && profile.sample_rows >= 100_000;
    let medium = !profile.sample_fraction.lt_frac(1, 50) || profile.sample_rows >= 50_000;
    let near_boundary = rule == RuleName::RleDictionary && !profile.cardinality_ratio.lt_frac(2, 25)
        && profile.cardinality_ratio.le_frac(3, 25);
    let sf = profile.sample_fraction.to_fixed(3);
    let rows = nat_string(profile.sample_rows as u128);
    if high && !near_boundary {
        let mut s = text("sample_fraction=");
        s.append(sf.as_str());
        s.append(" >= 0.10 and sample_rows=");
        s.append(rows.as_str());
        s.append(" >= 100,000");
        proof {
            assert(s@ =~= confidence_text(profile, rule));
        }
        (ConfidenceTier::High, s)
    } else if medium || near_boundary {
        let s = if near_boundary {
            let mut s = text("cardinality_ratio=");
            let cr = profile.cardinality_ratio.to_fixed(4);
            s.append(cr.as_str());
            s.append(" is within 20% of 0.10 threshold — boundary case");
            s
        } else {
            let mut s = text("sample_fraction=");
            s.append(sf.as_str());
            s.append(" or sample_rows=");
            s.append(rows.as_str());
            s.append(" meets medium threshold");
            s
        };
        proof {
            assert(s@ =~= confidence_text(profile, rule));
        }
        (ConfidenceTier::Medium, s)
    } else {
        let mut s = text("small sample: sample_fraction=");
        s.append(sf.as_str());
        s.append(" < 0.02 and sample_rows=");
        s.append(rows.as_str());
        s.append(" < 50,000");
        proof {
            assert(s@ =~= confidence_text(profile, rule));
        }
        (ConfidenceTier::Low, s)
    }
}

/// The column's physical type is INT32 or INT64, or its logical type is a
/// timestamp or a date.
pub open spec fn is_int_or_temporal(meta: &ColumnMetaSummary) -> bool {
    meta.physical_type@ == "INT32"@ || meta.physical_type@ == "INT64"@ || match meta.logical_type {
        Some(lt) => has_prefix(lt@, "TIMESTAMP"@) || has_prefix(lt@, "DATE"@),
        None => false,
    }
}

/// Bytes per value assumed when sizing a dictionary, as a fraction.
pub open spec fn avg_value_bytes(profile: &ColumnProfile, meta: &ColumnMetaSummary) -> (int, int) {
    let t = meta.physical_type@;
    if t == "BYTE_ARRAY"@ {
        match profile.string_length_stats {
            Some(s) => s.mean_len@,
            None => (8, 1),
        }
    } else if t == "INT32"@ || t == "FLOAT"@ {
        (4, 1)
    } else if t == "INT64"@ || t == "DOUBLE"@ {
        (8, 1)
    } else if t == "BOOLEAN"@ {
        (1, 1)
    } else {
        (8, 1)
    }
}

/// The estimated dictionary (distinct values times bytes per value) is under 512 KiB.
pub open spec fn dictionary_fits(profile: &ColumnProfile, meta: &ColumnMetaSummary) -> bool {
    let avg = avg_value_bytes(profile, meta);
    profile.cardinality_estimate * avg.0 < 524_288 * avg.1
}

pub open spec fn delta_applies(profile: &ColumnProfile, meta: &ColumnMetaSummary) -> bool {
    is_int_or_temporal(meta) && match profile.monotonicity_score {
        Some(s) => !frac_lt(s@, 9, 10),
        None => false,
    }
}

pub open spec fn dictionary_applies(profile: &ColumnProfile, meta: &ColumnMetaSummary) -> bool {
    frac_lt(profile.cardinality_ratio@, 1, 10) && dictionary_fits(profile, meta)
}

pub open spec fn byte_stream_split_applies(profile: &ColumnProfile, meta: &ColumnMetaSummary) -> bool {
    (meta.physical_type@ == "FLOAT"@ || meta.physical_type@ == "DOUBLE"@) && !frac_le(
        profile.cardinality_ratio@,
        1,
        2,
    )
}

pub open spec fn plain_uuid_applies(profile: &ColumnProfile, meta: &ColumnMetaSummary) -> bool {
    meta.physical_type@ == "BYTE_ARRAY"@ && profile.uuid_pattern_detected
}

/// The first rule, in priority order, whose condition holds.
pub open spec fn fired_rule(profile: &ColumnProfile, meta: &ColumnMetaSummary) -> RuleName {
    if meta.physical_type@ == "BOOLEAN"@ {
        RuleName::BooleanRle
    } else if delta_applies(profile, meta) {
        RuleName::DeltaMonotonic
    } else if dictionary_applies(profile, meta) {
        RuleName::RleDictionary
    } else if byte_stream_split_applies(profile, meta) {
        RuleName::ByteStreamSplit
    } else if plain_uuid_applies(profile, meta) {
        RuleName::PlainUuid
    } else {
        RuleName::PlainDefault
    }
}

/// The encoding a rule recommends.
pub open spec fn rule_encoding(rule: RuleName) -> Seq<char> {
    match rule {
        RuleName::BooleanRle => "RLE"@,
        RuleName::DeltaMonotonic => "DELTA_BINARY_PACKED"@,
        RuleName::RleDictionary => "RLE_DICTIONARY"@,
        RuleName::ByteStreamSplit => "BYTE_STREAM_SPLIT"@,
        RuleName::DeltaByteArray => "DELTA_BYTE_ARRAY"@,
        RuleName::DeltaLengthByteArray => "DELTA_LENGTH_BYTE_ARRAY"@,
        _ => "PLAIN"@,
    }
}

/// The brief reason given for the rule that fired.
pub open spec fn rule_reason(profile: &ColumnProfile, rule: RuleName) -> Seq<char> {
    match rule {
        RuleName::BooleanRle => "BOOLEAN columns use RLE automatically in all Parquet libraries"@,
        RuleName::DeltaMonotonic => "monotonicity_score="@ + ratio_text(
            profile.monotonicity_score.unwrap()@,
            3,
        ) + " >= threshold 0.90"@,
        RuleName::RleDictionary => "cardinality_ratio="@ + ratio_text(profile.cardinality_ratio@, 4)
            + " ("@ + nat_text(profile.cardinality_estimate as nat) + " distinct / "@ + nat_text(
            profile.sample_rows as nat,
        ) + " rows) < threshold 0.10"@,
        RuleName::ByteStreamSplit => "high-entropy float column (cardinality_ratio="@ + ratio_text(
            profile.cardinality_ratio@,
            3,
        ) + " > 0.50)"@,
        RuleName::PlainUuid => "UUID pattern detected — dictionary encoding would overflow ("@
            + nat_text(profile.cardinality_estimate as nat) + " distinct values)"@,
        _ => "no specific pattern detected; PLAIN with codec is the safe baseline"@,
    }
}

fn logical_is_temporal(lt: &Option<String>) -> (r: bool)
    ensures
        r == match lt {
            Some(l) => has_prefix(l@, "TIMESTAMP"@) || has_prefix(l@, "DATE"@),
            None => false,
        },
{
    match lt {
        Some(l) => starts_with(l.as_str(), "TIMESTAMP") || starts_with(l.as_str(), "DATE"),
        None => false,
    }
}

fn dictionary_fits_exec(profile: &ColumnProfile, meta: &ColumnMetaSummary) -> (r: bool)
    ensures
        r == dictionary_fits(profile, meta),
{
    let t = meta.physical_type.as_str();
    let (num, den): (i128, u128) = if str_eq(t, "BYTE_ARRAY") {
        match &profile.string_length_stats {
            Some(s) => (s.mean_len.numerator(), s.mean_len.denominator()),
            None => (8, 1),
        }
    } else if str_eq(t, "INT32") || str_eq(t, "FLOAT") {
        (4, 1)
    } else if str_eq(t, "INT64") || str_eq(t, "DOUBLE") {
        (8, 1)
    } else if str_eq(t, "BOOLEAN") {
        (1, 1)
    } else {
        (8, 1)
    };
    assert((num as int, den as int) == avg_value_bytes(profile, meta));
    assert(den <= crate::ratio::ratio_bound());
    let card = profile.cardinality_estimate;
    let limit: u128 = 524_288 * den;
    if num <= 0 {
        proof {
            assert(card * num <= 0) by (nonlinear_arith)
                requires num <= 0;
        }
        true
    } else {
        match (card as u128).checked_mul(num as u128) {
            Some(product) => product < limit,
            None => {
                proof {
                    assert(limit < u128::MAX);
                }
                false
            },
        }
    }
}

/// Picks the encoding for a column: the first of BooleanRle, DeltaMonotonic,
/// RleDictionary, ByteStreamSplit, PlainUuid and PlainDefault whose condition
/// holds, with the reason and the confidence of the sample behind it.
pub fn recommend_encoding(profile: &ColumnProfile, meta: &ColumnMetaSummary) -> (rec: EncodingRecommendation)
    ensures
        rec.rule_fired == fired_rule(profile, meta),
        rec.encoding@ == rule_encoding(rec.rule_fired),
        rec.reason_brief@ == rule_reason(profile, rec.rule_fired),
        rec.confidence == confidence_tier(profile, rec.rule_fired),
        rec.confidence_reason@ == confidence_text(profile, rec.rule_fired),
{
    let t = meta.physical_type.as_str();
    // Rule 1: BooleanRle
    if str_eq(t, "BOOLEAN") {
        let rule = RuleName::BooleanRle;
        let (confidence, confidence_reason) = compute_confidence(profile, rule);
        return EncodingRecommendation {
            encoding: text("RLE"),
            rule_fired: rule,
            reason_brief: text("BOOLEAN columns use RLE automatically in all Parquet libraries"),
            confidence,
            confidence_reason,
        };
    }
    // Rule 2: DeltaMonotonic
    let is_int_or_temporal_col = str_eq(t, "INT32") || str_eq(t, "INT64") || logical_is_temporal(
        &meta.logical_type,
    );
    if is_int_or_temporal_col {
        if let Some(score) = &profile.monotonicity_score {
            if !score.lt_frac(9, 10) {
                let rule = RuleName::DeltaMonotonic;
                let (confidence, confidence_reason) = compute_confidence(profile, rule);
                let mut reason = text("monotonicity_score=");
                let shown = score.to_fixed(3);
                reason.append(shown.as_str());
                reason.append(" >= threshold 0.90");
                proof {
                    assert(reason@ =~= rule_reason(profile, rule));
                }
                return EncodingRecommendation {
                    encoding: text("DELTA_BINARY_PACKED"),
                    rule_fired: rule,
                    reason_brief: reason,
                    confidence,
                    confidence_reason,
                };
            }
        }
    }
    // Rule 3: RleDictionary
    if profile.cardinality_ratio.lt_frac(1, 10) && dictionary_fits_exec(profile, meta) {
        let rule = RuleName::RleDictionary;
        let (confidence, confidence_reason) = compute_confidence(profile, rule);
        let mut reason = text("cardinality_ratio=");
        let shown = profile.cardinality_ratio.to_fixed(4);
        reason.append(shown.as_str());
        reason.append(" (");
        let distinct = nat_string(profile.cardinality_estimate as u128);
        reason.append(distinct.as_str());
        reason.append(" distinct / ");
        let rows = nat_string(profile.sample_rows as u128);
        reason.append(rows.as_str());
        reason.append(" rows) < threshold 0.10");
        proof {
            assert(reason@ =~= rule_reason(profile, rule));
        }
        return EncodingRecommendation {
            encoding: text("RLE_DICTIONARY"),
            rule_fired: rule,
            reason_brief: reason,
            confidence,
            confidence_reason,
        };
    }
    // Rule 4: ByteStreamSplit
    if (str_eq(t, "FLOAT") || str_eq(t, "DOUBLE")) && !profile.cardinality_ratio.le_frac(1, 2) {
        let rule = RuleName::ByteStreamSplit;
        let (confidence, confidence_reason) = compute_confidence(profile, rule);
        let mut reason = text("high-entropy float column (cardinality_ratio=");
        let shown = profile.cardinality_ratio.to_fixed(3);
        reason.append(shown.as_str());
        reason.append(" > 0.50)");
        proof {
            assert(reason@ =~= rule_reason(profile, rule));
        }
        return EncodingRecommendation {
            encoding: text("BYTE_STREAM_SPLIT"),
            rule_fired: rule,
            reason_brief: reason,
            confidence,
            confidence_reason,
        };
    }
    // Rule 5: PlainUuid
    if str_eq(t, "BYTE_ARRAY") && profile.uuid_pattern_detected {
        let rule = RuleName::PlainUuid;
        let (confidence, confidence_reason) = compute_confidence(profile, rule);
        let mut reason = text("UUID pattern detected — dictionary encoding would overflow (");
        let distinct = nat_string(profile.cardinality_estimate as u128);
        reason.append(distinct.as_str());
        reason.append(" distinct values)");
        proof {
            assert(reason@ =~= rule_reason(profile, rule));
        }
        return EncodingRecommendation {
            encoding: text("PLAIN"),
            rule_fired: rule,
            reason_brief: reason,
            confidence,
            confidence_reason,
        };
    }
    // Rule 6: PlainDefault (catch-all)
    let rule = RuleName::PlainDefault;
    let (confidence, confidence_reason) = compute_confidence(profile, rule);
    EncodingRecommendation {
        encoding: text("PLAIN"),
        rule_fired: rule,
        reason_brief: text("no specific pattern detected; PLAIN with codec is the safe baseline"),
        confidence,
        confidence_reason,
    }
}

} // verus!
