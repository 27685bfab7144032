//! The full explanation of an encoding choice: the raw statistics, every rule
//! in priority order with its verdict, the rejected alternatives and a short
//! lesson on the encoding that won.

use vstd::prelude::*;
use crate::profiler::stats::{ColumnProfile, StringLengthStats};
use crate::ratio::{Ratio, frac_lt};
use crate::recommender::encoding::{EncodingRecommendation, RuleName, ratio_text};
use crate::text::{bool_text, copy_opt_string, opt_text, str_eq, text};

verus! {

/// How one rule fared: whether it applied to the column, whether it fired,
/// its threshold, the measured value and the verdict.
pub struct RuleEvaluation {
    pub rule_name: String,
    pub evaluated: bool,
    pub fired: bool,
    pub threshold: String,
    pub actual_value: String,
    pub outcome: String,
}

pub type RuleView = (Seq<char>, bool, bool, Seq<char>, Seq<char>, Seq<char>);

impl View for RuleEvaluation {
    type V = RuleView;

    open spec fn view(&self) -> RuleView {
        (self.rule_name@, self.evaluated, self.fired, self.threshold@, self.actual_value@, self.outcome@)
    }
}

/// A rule that applied to the column but did not fire.
pub struct AlternativeExplain {
    pub encoding: String,
    pub rejected_reason: String,
}

impl View for AlternativeExplain {
    type V = (Seq<char>, Seq<char>);

    open spec fn view(&self) -> (Seq<char>, Seq<char>) {
        (self.encoding@, self.rejected_reason@)
    }
}

/// A raw statistic as reported: missing, a count, a fraction, a flag or a text.
pub enum StatValue {
    Null,
    Count(u64),
    Fraction(Ratio),
    Flag(bool),
    Text(String),
}

pub enum StatView {
    Null,
    Count(int),
    Fraction((int, int)),
    Flag(bool),
    Text(Seq<char>),
}

impl View for StatValue {
    type V = StatView;

    open spec fn view(&self) -> StatView {
        match self {
            StatValue::Null => StatView::Null,
            StatValue::Count(n) => StatView::Count(*n as int),
            StatValue::Fraction(r) => StatView::Fraction(r@),
            StatValue::Flag(b) => StatView::Flag(*b),
            StatValue::Text(t) => StatView::Text(t@),
        }
    }
}

/// The explanation attached to a recommendation in full-explain mode.
pub struct FullExplain {
    /// Raw statistics, sorted by name.
    pub raw_stats: Vec<(String, StatValue)>,
    pub reasoning_chain: Vec<RuleEvaluation>,
    pub alternatives_considered: Vec<AlternativeExplain>,
    pub engine_compatibility: Option<String>,
    pub teach_yourself: String,
}

pub type ExplainView = (
    Seq<(Seq<char>, StatView)>,
    Seq<RuleView>,
    Seq<(Seq<char>, Seq<char>)>,
    Option<Seq<char>>,
    Seq<char>,
);

pub open spec fn stats_view(v: Seq<(String, StatValue)>) -> Seq<(Seq<char>, StatView)> {
    v.map_values(|e: (String, StatValue)| (e.0@, e.1@))
}

pub open spec fn rules_view(v: Seq<RuleEvaluation>) -> Seq<RuleView> {
    v.map_values(|r: RuleEvaluation| r@)
}

pub open spec fn alternatives_view(v: Seq<AlternativeExplain>) -> Seq<(Seq<char>, Seq<char>)> {
    v.map_values(|a: AlternativeExplain| a@)
}

impl View for FullExplain {
    type V = ExplainView;

    open spec fn view(&self) -> ExplainView {
        (
            stats_view(self.raw_stats@),
            rules_view(self.reasoning_chain@),
            alternatives_view(self.alternatives_considered@),
            opt_text(self.engine_compatibility),
            self.teach_yourself@,
        )
    }
}

/// The lesson shown for the rule that fired.
pub open spec fn teach_text(rule: RuleName) -> Seq<char> {
    match rule {
        RuleName::BooleanRle => "BOOLEAN columns in Parquet use run-length encoding automatically. The only tuning lever is the codec on top."@,
        RuleName::DeltaMonotonic => "DELTA_BINARY_PACKED stores differences between consecutive values instead of the values themselves. For sorted integers (timestamps, auto-increment IDs), deltas are tiny and pack into very few bits. Rule of thumb: use DELTA on any monotonically increasing integer column."@,
        RuleName::RleDictionary => "Dictionary encoding stores each distinct value once and replaces data values with small integer indices. When cardinality is low (few distinct values), these indices compress extremely well with run-length encoding. Rule of thumb: if cardinality < 10% of row count and the dictionary fits in ~512KB, use dictionary encoding."@,
        RuleName::ByteStreamSplit => "BYTE_STREAM_SPLIT deinterleaves the bytes of floating-point values — writing all MSBs together, then all next bytes, etc. For physically-related floats (measurements in a range), this groups similar bytes together, improving codec compression by 10–30%."@,
        RuleName::PlainUuid => "UUID columns have cardinality equal to row count, so dictionary encoding would require storing every UUID in the dictionary — as large as the original column. PLAIN with ZSTD is optimal for high-cardinality string columns."@,
        RuleName::DeltaByteArray => "DELTA_BYTE_ARRAY stores how much each string shares with the previous one (prefix length) and writes only the differing suffix. For sorted or nearly-sorted string columns, neighboring values share long prefixes, so only tiny byte differences are stored. A column of sorted paths, keys, or date-prefixed IDs can compress to 20–30% of its PLAIN size before any codec is applied. Requires Parquet V2 data pages; Spark 3.3+ can read it but cannot write it via the DataFrame API."@,
        RuleName::DeltaLengthByteArray => "DELTA_LENGTH_BYTE_ARRAY is a two-part encoding: it delta-encodes the sequence of string lengths, then appends all raw string bytes together in one block. Codecs like ZSTD find patterns in the concatenated bytes more effectively than in interleaved length+value PLAIN encoding. The improvement is modest — roughly 2–3% additional size reduction on top of ZSTD — but consistent for high-cardinality short-string columns."@,
        RuleName::PlainDefault => "No specific pattern was detected. PLAIN encoding with a byte-oriented codec (ZSTD) is the safe baseline."@,
    }
}

pub fn teach_yourself_text(rule: &RuleName) -> (s: &'static str)
    ensures
        s@ == teach_text(*rule),
{
    match rule {
        RuleName::BooleanRle => "BOOLEAN columns in Parquet use run-length encoding automatically. The only tuning lever is the codec on top.",
        RuleName::DeltaMonotonic => "DELTA_BINARY_PACKED stores differences between consecutive values instead of the values themselves. For sorted integers (timestamps, auto-increment IDs), deltas are tiny and pack into very few bits. Rule of thumb: use DELTA on any monotonically increasing integer column.",
        RuleName::RleDictionary => "Dictionary encoding stores each distinct value once and replaces data values with small integer indices. When cardinality is low (few distinct values), these indices compress extremely well with run-length encoding. Rule of thumb: if cardinality < 10% of row count and the dictionary fits in ~512KB, use dictionary encoding.",
        RuleName::ByteStreamSplit => "BYTE_STREAM_SPLIT deinterleaves the bytes of floating-point values — writing all MSBs together, then all next bytes, etc. For physically-related floats (measurements in a range), this groups similar bytes together, improving codec compression by 10–30%.",
        RuleName::PlainUuid => "UUID columns have cardinality equal to row count, so dictionary encoding would require storing every UUID in the dictionary — as large as the original column. PLAIN with ZSTD is optimal for high-cardinality string columns.",
        RuleName::DeltaByteArray => "DELTA_BYTE_ARRAY stores how much each string shares with the previous one (prefix length) and writes only the differing suffix. For sorted or nearly-sorted string columns, neighboring values share long prefixes, so only tiny byte differences are stored. A column of sorted paths, keys, or date-prefixed IDs can compress to 20–30% of its PLAIN size before any codec is applied. Requires Parquet V2 data pages; Spark 3.3+ can read it but cannot write it via the DataFrame API.",
        RuleName::DeltaLengthByteArray => "DELTA_LENGTH_BYTE_ARRAY is a two-part encoding: it delta-encodes the sequence of string lengths, then appends all raw string bytes together in one block. Codecs like ZSTD find patterns in the concatenated bytes more effectively than in interleaved length+value PLAIN encoding. The improvement is modest — roughly 2–3% additional size reduction on top of ZSTD — but consistent for high-cardinality short-string columns.",
        RuleName::PlainDefault => "No specific pattern was detected. PLAIN encoding with a byte-oriented codec (ZSTD) is the safe baseline.",
    }
}

/// `4`-place text of an optional fraction, or `null`.
pub open spec fn opt_ratio_text(o: Option<Ratio>, places: nat) -> Seq<char> {
    match o {
        Some(r) => ratio_text(r@, places),
        None => "null"@,
    }
}

fn opt_ratio_string(o: &Option<Ratio>, places: u32) -> (s: String)
    requires
        places <= 4,
    ensures
        s@ == opt_ratio_text(*o, places as nat),
{
    match o {
        Some(r) => r.to_fixed(places),
        None => text("null"),
    }
}

/// One-place text of the mean string length, or `null`.
pub open spec fn mean_len_text(o: Option<StringLengthStats>) -> Seq<char> {
    match o {
        Some(s) => ratio_text(s.mean_len@, 1),
        None => "null"@,
    }
}

fn mean_len_string(o: &Option<StringLengthStats>) -> (s: String)
    ensures
        s@ == mean_len_text(*o),
{
    match o {
        Some(st) => st.mean_len.to_fixed(1),
        None => text("null"),
    }
}

/// The physical or logical type of the profiled column is integer or temporal.
pub open spec fn profile_is_int_or_temporal(p: &ColumnProfile) -> bool {
    p.physical_type@ == "INT32"@ || p.physical_type@ == "INT64"@ || match p.logical_type {
        Some(lt) => crate::text::has_prefix(lt@, "TIMESTAMP"@) || crate::text::has_prefix(lt@, "DATE"@),
        None => false,
    }
}

pub open spec fn profile_is_float(p: &ColumnProfile) -> bool {
    p.physical_type@ == "FLOAT"@ || p.physical_type@ == "DOUBLE"@
}

pub open spec fn profile_is_byte_array(p: &ColumnProfile) -> bool {
    p.physical_type@ == "BYTE_ARRAY"@
}

pub open spec fn skipped(p: &ColumnProfile, what: Seq<char>) -> Seq<char> {
    "Skipped: physical_type="@ + p.physical_type@ + " is not "@ + what
}

pub open spec fn eval_boolean(p: &ColumnProfile, rule: RuleName) -> RuleView {
    let evaluated = p.physical_type@ == "BOOLEAN"@;
    let fired = rule == RuleName::BooleanRle;
    (
        "BooleanRle"@,
        evaluated,
        fired,
        "physical_type == BOOLEAN"@,
        p.physical_type@,
        if fired {
            "Fired: BOOLEAN column → RLE"@
        } else if evaluated {
            "Evaluated but superseded"@
        } else {
            skipped(p, "BOOLEAN"@)
        },
    )
}

pub open spec fn eval_delta(p: &ColumnProfile, rule: RuleName) -> RuleView {
    let evaluated = profile_is_int_or_temporal(p);
    let fired = rule == RuleName::DeltaMonotonic;
    let mono = opt_ratio_text(p.monotonicity_score, 4);
    (
        "DeltaMonotonic"@,
        evaluated,
        fired,
        "0.90"@,
        mono,
        if fired {
            "Fired: monotonicity_score="@ + mono + " >= threshold 0.90 → DELTA_BINARY_PACKED"@
        } else if evaluated {
            match p.monotonicity_score {
                Some(s) => "Rejected: monotonicity_score="@ + ratio_text(s@, 4) + " < threshold 0.90"@,
                None => "Rejected: monotonicity_score not available"@,
            }
        } else {
            skipped(p, "int/temporal"@)
        },
    )
}

pub open spec fn eval_dictionary(p: &ColumnProfile, rule: RuleName) -> RuleView {
    let fired = rule == RuleName::RleDictionary;
    let card = ratio_text(p.cardinality_ratio@, 4);
    (
        "RleDictionary"@,
        true,
        fired,
        "0.10"@,
        card,
        if fired {
            "Fired: cardinality_ratio="@ + card + " < 0.10 → RLE_DICTIONARY"@
        } else {
            "Rejected: cardinality_ratio="@ + card + " >= threshold 0.10"@
        },
    )
}

pub open spec fn eval_byte_stream_split(p: &ColumnProfile, rule: RuleName) -> RuleView {
    let evaluated = profile_is_float(p);
    let fired = rule == RuleName::ByteStreamSplit;
    let card = ratio_text(p.cardinality_ratio@, 4);
    (
        "ByteStreamSplit"@,
        evaluated,
        fired,
        "0.50"@,
        card,
        if fired {
            "Fired: cardinality_ratio="@ + card + " > 0.50 → BYTE_STREAM_SPLIT"@
        } else if evaluated {
            "Rejected: cardinality_ratio="@ + card + " <= threshold 0.50"@
        } else {
            skipped(p, "float"@)
        },
    )
}

pub open spec fn eval_uuid(p: &ColumnProfile, rule: RuleName) -> RuleView {
    let evaluated = profile_is_byte_array(p);
    let fired = rule == RuleName::PlainUuid;
    (
        "PlainUuid"@,
        evaluated,
        fired,
        "90% UUID match"@,
        bool_text(p.uuid_pattern_detected),
        if fired {
            "Fired: UUID pattern detected → PLAIN"@
        } else if evaluated {
            "Rejected: UUID pattern not detected"@
        } else {
            skipped(p, "BYTE_ARRAY"@)
        },
    )
}

pub open spec fn eval_delta_byte_array(p: &ColumnProfile, rule: RuleName) -> RuleView {
    let evaluated = profile_is_byte_array(p);
    let fired = rule == RuleName::DeltaByteArray;
    let sms = opt_ratio_text(p.string_monotonicity_score, 4);
    let ml = mean_len_text(p.string_length_stats);
    (
        "DeltaByteArray"@,
        evaluated,
        fired,
        "string_monotonicity_score >= 0.80 and mean_len <= 50"@,
        "sms="@ + sms + ", mean_len="@ + ml,
        if fired {
            "Fired: string_monotonicity_score="@ + sms + " >= 0.80, mean_len="@ + ml
                + " <= 50 → DELTA_BYTE_ARRAY"@
        } else if evaluated {
            match p.string_monotonicity_score {
                Some(s) => if !frac_lt(s@, 4, 5) {
                    "Rejected: mean_len="@ + ml + " > 50"@
                } else {
                    "Rejected: string_monotonicity_score="@ + ratio_text(s@, 4)
                        + " < threshold 0.80"@
                },
                None => "Rejected: string_monotonicity_score not available"@,
            }
        } else {
            skipped(p, "BYTE_ARRAY"@)
        },
    )
}

pub open spec fn eval_delta_length(p: &ColumnProfile, rule: RuleName) -> RuleView {
    let evaluated = profile_is_byte_array(p);
    let fired = rule == RuleName::DeltaLengthByteArray;
    let ml = mean_len_text(p.string_length_stats);
    let card = ratio_text(p.cardinality_ratio@, 4);
    (
        "DeltaLengthByteArray"@,
        evaluated,
        fired,
        "cardinality_ratio >= 0.10 and mean_len <= 50"@,
        "cardinality_ratio="@ + card + ", mean_len="@ + ml,
        if fired {
            "Fired: cardinality_ratio="@ + card + " >= 0.10, mean_len="@ + ml
                + " <= 50 → DELTA_LENGTH_BYTE_ARRAY"@
        } else if evaluated {
            "Rejected: mean_len="@ + ml + " > 50 or cardinality_ratio="@ + card + " < 0.10"@
        } else {
            skipped(p, "BYTE_ARRAY"@)
        },
    )
}

pub open spec fn eval_default(rule: RuleName) -> RuleView {
    let fired = rule == RuleName::PlainDefault;
    (
        "PlainDefault"@,
        true,
        fired,
        "catch-all"@,
        "n/a"@,
        if fired {
            "Fired: no other rule matched → PLAIN"@
        } else {
            "Not reached: an earlier rule fired"@
        },
    )
}

/// Every rule, in priority order, with its verdict for this column.
pub open spec fn reasoning_chain_of(p: &ColumnProfile, rule: RuleName) -> Seq<RuleView> {
    seq![
        eval_boolean(p, rule),
        eval_delta(p, rule),
        eval_dictionary(p, rule),
        eval_byte_stream_split(p, rule),
        eval_uuid(p, rule),
        eval_delta_byte_array(p, rule),
        eval_delta_length(p, rule),
        eval_default(rule),
    ]
}

/// The rules that applied but did not fire, each with its verdict, in order.
pub open spec fn alternatives_of(chain: Seq<RuleView>) -> Seq<(Seq<char>, Seq<char>)>
    decreases chain.len(),
{
    if chain.len() == 0 {
        seq![]
    } else {
        let before = alternatives_of(chain.drop_last());
        let r = chain.last();
        if r.1 && !r.2 {
            before.push((r.0, r.5))
        } else {
            before
        }
    }
}

pub open spec fn opt_fraction(o: Option<Ratio>) -> StatView {
    match o {
        Some(r) => StatView::Fraction(r@),
        None => StatView::Null,
    }
}

/// The raw statistics of a profile, sorted by name.
pub open spec fn raw_stats_of(p: &ColumnProfile) -> Seq<(Seq<char>, StatView)> {
    seq![
        ("byte_entropy"@, opt_fraction(p.byte_entropy)),
        ("cardinality_estimate"@, StatView::Count(p.cardinality_estimate as int)),
        ("cardinality_method"@, StatView::Text(p.cardinality_method@)),
        ("cardinality_ratio"@, StatView::Fraction(p.cardinality_ratio@)),
        ("json_pattern_detected"@, StatView::Flag(p.json_pattern_detected)),
        ("monotonicity_score"@, opt_fraction(p.monotonicity_score)),
        ("null_fraction"@, StatView::Fraction(p.null_fraction@)),
        ("run_length_score"@, StatView::Fraction(p.run_length_score@)),
        ("sample_fraction"@, StatView::Fraction(p.sample_fraction@)),
        ("sample_rows"@, StatView::Count(p.sample_rows as int)),
        ("string_monotonicity_score"@, opt_fraction(p.string_monotonicity_score)),
        ("uuid_pattern_detected"@, StatView::Flag(p.uuid_pattern_detected)),
    ]
}

/// The full explanation of the rule that fired for a profile.
pub open spec fn full_explain_of(
    p: &ColumnProfile,
    rule: RuleName,
    engine_compat: Option<Seq<char>>,
) -> ExplainView {
    let chain = reasoning_chain_of(p, rule);
    (raw_stats_of(p), chain, alternatives_of(chain), engine_compat, teach_text(rule))
}

} // verus!

verus! {

fn rule_eval(
    name: &str,
    evaluated: bool,
    fired: bool,
    threshold: &str,
    actual_value: String,
    outcome: String,
) -> (r: RuleEvaluation)
    ensures
        r@ == (name@, evaluated, fired, threshold@, actual_value@, outcome@),
{
    RuleEvaluation { rule_name: text(name), evaluated, fired, threshold: text(threshold), actual_value, outcome }
}

fn skipped_string(p: &ColumnProfile, what: &str) -> (s: String)
    ensures
        s@ == skipped(p, what@),
{
    let mut s = text("Skipped: physical_type=");
    s.append(p.physical_type.as_str());
    s.append(" is not ");
    s.append(what);
    s
}

fn opt_fraction_value(o: &Option<Ratio>) -> (v: StatValue)
    ensures
        v@ == opt_fraction(*o),
{
    match o {
        Some(r) => StatValue::Fraction(r.copy()),
        None => StatValue::Null,
    }
}

fn push_stat(v: &mut Vec<(String, StatValue)>, name: &str, value: StatValue)
    ensures
        stats_view(final(v)@) == stats_view(old(v)@).push((name@, value@)),
{
    v.push((text(name), value));
    proof {
        assert(stats_view(v@) =~= stats_view(old(v)@).push((name@, value@)));
    }
}

fn raw_stats(p: &ColumnProfile) -> (v: Vec<(String, StatValue)>)
    ensures
        stats_view(v@) == raw_stats_of(p),
{
    let mut v: Vec<(String, StatValue)> = Vec::new();
    push_stat(&mut v, "byte_entropy", opt_fraction_value(&p.byte_entropy));
    push_stat(&mut v, "cardinality_estimate", StatValue::Count(p.cardinality_estimate));
    push_stat(&mut v, "cardinality_method", StatValue::Text(p.cardinality_method.clone()));
    push_stat(&mut v, "cardinality_ratio", StatValue::Fraction(p.cardinality_ratio.copy()));
    push_stat(&mut v, "json_pattern_detected", StatValue::Flag(p.json_pattern_detected));
    push_stat(&mut v, "monotonicity_score", opt_fraction_value(&p.monotonicity_score));
    push_stat(&mut v, "null_fraction", StatValue::Fraction(p.null_fraction.copy()));
    push_stat(&mut v, "run_length_score", StatValue::Fraction(p.run_length_score.copy()));
    push_stat(&mut v, "sample_fraction", StatValue::Fraction(p.sample_fraction.copy()));
    push_stat(&mut v, "sample_rows", StatValue::Count(p.sample_rows as u64));
    push_stat(&mut v, "string_monotonicity_score", opt_fraction_value(&p.string_monotonicity_score));
    push_stat(&mut v, "uuid_pattern_detected", StatValue::Flag(p.uuid_pattern_detected));
    proof {
        assert(stats_view(v@) =~= raw_stats_of(p));
    }
    v
}

fn eval_boolean_exec(p: &ColumnProfile, rule: RuleName) -> (r: RuleEvaluation)
    ensures
        r@ == eval_boolean(p, rule),
{
    let evaluated = str_eq(p.physical_type.as_str(), "BOOLEAN");
    let fired = rule == RuleName::BooleanRle;
    let outcome = if fired {
        text("Fired: BOOLEAN column → RLE")
    } else if evaluated {
        text("Evaluated but superseded")
    } else {
        skipped_string(p, "BOOLEAN")
    };
    rule_eval("BooleanRle", evaluated, fired, "physical_type == BOOLEAN", p.physical_type.clone(), outcome)
}

fn is_int_or_temporal_profile(p: &ColumnProfile) -> (r: bool)
    ensures
        r == profile_is_int_or_temporal(p),
{
    let t = p.physical_type.as_str();
    if str_eq(t, "INT32") || str_eq(t, "INT64") {
        return true;
    }
    match &p.logical_type {
        Some(lt) => crate::text::starts_with(lt.as_str(), "TIMESTAMP") || crate::text::starts_with(
            lt.as_str(),
            "DATE",
        ),
        None => false,
    }
}

fn eval_delta_exec(p: &ColumnProfile, rule: RuleName) -> (r: RuleEvaluation)
    ensures
        r@ == eval_delta(p, rule),
{
    let evaluated = is_int_or_temporal_profile(p);
    let fired = rule == RuleName::DeltaMonotonic;
    let mono = opt_ratio_string(&p.monotonicity_score, 4);
    let outcome = if fired {
        let mut s = text("Fired: monotonicity_score=");
        s.append(mono.as_str());
        s.append(" >= threshold 0.90 → DELTA_BINARY_PACKED");
        s
    } else if evaluated {
        match &p.monotonicity_score {
            Some(sc) => {
                let mut s = text("Rejected: monotonicity_score=");
                let shown = sc.to_fixed(4);
                s.append(shown.as_str());
                s.append(" < threshold 0.90");
                s
            },
            None => text("Rejected: monotonicity_score not available"),
        }
    } else {
        skipped_string(p, "int/temporal")
    };
    rule_eval("DeltaMonotonic", evaluated, fired, "0.90", mono, outcome)
}

fn eval_dictionary_exec(p: &ColumnProfile, rule: RuleName) -> (r: RuleEvaluation)
    ensures
        r@ == eval_dictionary(p, rule),
{
    let fired = rule == RuleName::RleDictionary;
    let card = p.cardinality_ratio.to_fixed(4);
    let outcome = if fired {
        let mut s = text("Fired: cardinality_ratio=");
        s.append(card.as_str());
        s.append(" < 0.10 → RLE_DICTIONARY");
        s
    } else {
        let mut s = text("Rejected: cardinality_ratio=");
        s.append(card.as_str());
        s.append(" >= threshold 0.10");
        s
    };
    rule_eval("RleDictionary", true, fired, "0.10", card, outcome)
}

fn eval_byte_stream_split_exec(p: &ColumnProfile, rule: RuleName) -> (r: RuleEvaluation)
    ensures
        r@ == eval_byte_stream_split(p, rule),
{
    let evaluated = str_eq(p.physical_type.as_str(), "FLOAT") || str_eq(p.physical_type.as_str(), "DOUBLE");
    let fired = rule == RuleName::ByteStreamSplit;
    let card = p.cardinality_ratio.to_fixed(4);
    let outcome = if fired {
        let mut s = text("Fired: cardinality_ratio=");
        s.append(card.as_str());
        s.append(" > 0.50 → BYTE_STREAM_SPLIT");
        s
    } else if evaluated {
        let mut s = text("Rejected: cardinality_ratio=");
        s.append(card.as_str());
        s.append(" <= threshold 0.50");
        s
    } else {
        skipped_string(p, "float")
    };
    rule_eval("ByteStreamSplit", evaluated, fired, "0.50", card, outcome)
}

fn eval_uuid_exec(p: &ColumnProfile, rule: RuleName) -> (r: RuleEvaluation)
    ensures
        r@ == eval_uuid(p, rule),
{
    let evaluated = str_eq(p.physical_type.as_str(), "BYTE_ARRAY");
    let fired = rule == RuleName::PlainUuid;
    let actual = crate::text::bool_string(p.uuid_pattern_detected);
    let outcome = if fired {
        text("Fired: UUID pattern detected → PLAIN")
    } else if evaluated {
        text("Rejected: UUID pattern not detected")
    } else {
        skipped_string(p, "BYTE_ARRAY")
    };
    rule_eval("PlainUuid", evaluated, fired, "90% UUID match", actual, outcome)
}

fn eval_delta_byte_array_exec(p: &ColumnProfile, rule: RuleName) -> (r: RuleEvaluation)
    ensures
        r@ == eval_delta_byte_array(p, rule),
{
    let evaluated = str_eq(p.physical_type.as_str(), "BYTE_ARRAY");
    let fired = rule == RuleName::DeltaByteArray;
    let sms = opt_ratio_string(&p.string_monotonicity_score, 4);
    let ml = mean_len_string(&p.string_length_stats);
    let outcome = if fired {
        let mut s = text("Fired: string_monotonicity_score=");
        s.append(sms.as_str());
        s.append(" >= 0.80, mean_len=");
        s.append(ml.as_str());
        s.append(" <= 50 → DELTA_BYTE_ARRAY");
        s
    } else if evaluated {
        match &p.string_monotonicity_score {
            Some(sc) => if !sc.lt_frac(4, 5) {
                let mut s = text("Rejected: mean_len=");
                s.append(ml.as_str());
                s.append(" > 50");
                s
            } else {
                let mut s = text("Rejected: string_monotonicity_score=");
                let shown = sc.to_fixed(4);
                s.append(shown.as_str());
                s.append(" < threshold 0.80");
                s
            },
            None => text("Rejected: string_monotonicity_score not available"),
        }
    } else {
        skipped_string(p, "BYTE_ARRAY")
    };
    let mut actual = text("sms=");
    actual.append(sms.as_str());
    actual.append(", mean_len=");
    actual.append(ml.as_str());
    rule_eval(
        "DeltaByteArray",
        evaluated,
        fired,
        "string_monotonicity_score >= 0.80 and mean_len <= 50",
        actual,
        outcome,
    )
}

fn eval_delta_length_exec(p: &ColumnProfile, rule: RuleName) -> (r: RuleEvaluation)
    ensures
        r@ == eval_delta_length(p, rule),
{
    let evaluated = str_eq(p.physical_type.as_str(), "BYTE_ARRAY");
    let fired = rule == RuleName::DeltaLengthByteArray;
    let ml = mean_len_string(&p.string_length_stats);
    let card = p.cardinality_ratio.to_fixed(4);
    let outcome = if fired {
        let mut s = text("Fired: cardinality_ratio=");
        s.append(card.as_str());
        s.append(" >= 0.10, mean_len=");
        s.append(ml.as_str());
        s.append(" <= 50 → DELTA_LENGTH_BYTE_ARRAY");
        s
    } else if evaluated {
        let mut s = text("Rejected: mean_len=");
        s.append(ml.as_str());
        s.append(" > 50 or cardinality_ratio=");
        s.append(card.as_str());
        s.append(" < 0.10");
        s
    } else {
        skipped_string(p, "BYTE_ARRAY")
    };
    let mut actual = text("cardinality_ratio=");
    actual.append(card.as_str());
    actual.append(", mean_len=");
    actual.append(ml.as_str());
    rule_eval(
        "DeltaLengthByteArray",
        evaluated,
        fired,
        "cardinality_ratio >= 0.10 and mean_len <= 50",
        actual,
        outcome,
    )
}

fn eval_default_exec(rule: RuleName) -> (r: RuleEvaluation)
    ensures
        r@ == eval_default(rule),
{
    let fired = rule == RuleName::PlainDefault;
    let outcome = if fired {
        text("Fired: no other rule matched → PLAIN")
    } else {
        text("Not reached: an earlier rule fired")
    };
    rule_eval("PlainDefault", true, fired, "catch-all", text("n/a"), outcome)
}

fn push_rule(v: &mut Vec<RuleEvaluation>, r: RuleEvaluation)
    ensures
        rules_view(final(v)@) == rules_view(old(v)@).push(r@),
{
    let ghost rv = r@;
    v.push(r);
    proof {
        assert(rules_view(v@) =~= rules_view(old(v)@).push(rv));
    }
}

/// The explanation of the encoding chosen for a profile: its raw statistics,
/// the verdict of every rule in priority order, the rules that applied but
/// lost, the engine note and the lesson on the winning rule.
pub fn build_full_explain(
    profile: &ColumnProfile,
    enc_rec: &EncodingRecommendation,
    engine_compat: &Option<String>,
) -> (e: FullExplain)
    ensures
        e@ == full_explain_of(profile, enc_rec.rule_fired, opt_text(*engine_compat)),
{
    let rule_fired = enc_rec.rule_fired;
    let stats = raw_stats(profile);
    let mut chain: Vec<RuleEvaluation> = Vec::new();
    push_rule(&mut chain, eval_boolean_exec(profile, rule_fired));
    push_rule(&mut chain, eval_delta_exec(profile, rule_fired));
    push_rule(&mut chain, eval_dictionary_exec(profile, rule_fired));
    push_rule(&mut chain, eval_byte_stream_split_exec(profile, rule_fired));
    push_rule(&mut chain, eval_uuid_exec(profile, rule_fired));
    push_rule(&mut chain, eval_delta_byte_array_exec(profile, rule_fired));
    push_rule(&mut chain, eval_delta_length_exec(profile, rule_fired));
    push_rule(&mut chain, eval_default_exec(rule_fired));
    let ghost full = reasoning_chain_of(profile, rule_fired);
    proof {
        assert(rules_view(chain@) =~= full);
    }
    let mut alternatives: Vec<AlternativeExplain> = Vec::new();
    let mut i: usize = 0;
    while i < chain.len()
        invariant
            i <= chain@.len(),
            rules_view(chain@) == full,
            alternatives_view(alternatives@) == alternatives_of(full.take(i as int)),
        decreases chain@.len() - i,
    {
        let r = &chain[i];
        proof {
            assert(full.take(i + 1).drop_last() =~= full.take(i as int));
            assert(full.take(i + 1).last() == r@);
        }
        if r.evaluated && !r.fired {
            let a = AlternativeExplain { encoding: r.rule_name.clone(), rejected_reason: r.outcome.clone() };
            let ghost before = alternatives@;
            alternatives.push(a);
            proof {
                assert(alternatives_view(alternatives@) =~= alternatives_view(before).push(
                    (r@.0, r@.5),
                ));
            }
        }
        i = i + 1;
    }
    proof {
        assert(full.take(chain@.len() as int) =~= full);
    }
    FullExplain {
        raw_stats: stats,
        reasoning_chain: chain,
        alternatives_considered: alternatives,
        engine_compatibility: copy_opt_string(engine_compat),
        teach_yourself: text(teach_yourself_text(&rule_fired)),
    }
}

} // verus!
