//! Assembling a tuning report: one recommendation per profiled column, the
//! file-level estimates, the three option bundles and the advisories.

use vstd::prelude::*;
use crate::advisor::{RowGroupAdvisory, SortOrderAdvisory, analyze_row_groups, detect_sort_order, row_group_advises, sort_advises, sum_u64};
use crate::diagnostics::{ColumnDiagnostic, diagnose_all, diagnoses_all};
use crate::profiler::metadata::{
    ColumnMetaSummary, FileProfile, find_column, first_named, same_file_profile, sum_uncompressed,
    total_uncompressed,
};
use crate::profiler::stats::ColumnProfile;
use crate::ratio::{Ratio, frac_or_zero, ratio_bound};
use crate::recommender::codec::{
    Caveat, CaveatSeverity, CodecRecommendation, Engine, Priority, caveats_view, codec_by_priority,
    codec_choice, recommend_codec,
};
use crate::recommender::encoding::{
    ConfidenceTier, EncodingRecommendation, RuleName, confidence_text, confidence_tier, fired_rule,
    recommend_encoding, rule_encoding, rule_reason,
};
use crate::recommender::engine::{apply_engine_overrides, overridden};
use crate::text::{
    copy_opt_string, copy_string, int_text, join, join_strings, lowercase_of, opt_text, push_int,
    str_eq, text, to_lowercase, views,
};
use crate::tuner::ColumnRecommendation;
use crate::tuner::explain::{ExplainView, build_full_explain, full_explain_of};
use crate::tuner::impact::{
    codec_full_text, compute_engine_compat, compute_impact_stars, engine_compat_text, impact_stars_of,
    lists, predicted_reduction, predicted_size_reduction_pct,
};

verus! {

/// The lowercase name of an engine.
pub open spec fn engine_text(e: Engine) -> Seq<char> {
    match e {
        Engine::Spark => "spark"@,
        Engine::DuckDB => "duckdb"@,
        Engine::Polars => "polars"@,
        Engine::ClickHouse => "clickhouse"@,
        Engine::Pandas => "pandas"@,
        Engine::Unknown => "unknown"@,
    }
}

pub fn engine_to_str(engine: &Engine) -> (s: &'static str)
    ensures
        s@ == engine_text(*engine),
{
    match engine {
        Engine::Spark => "spark",
        Engine::DuckDB => "duckdb",
        Engine::Polars => "polars",
        Engine::ClickHouse => "clickhouse",
        Engine::Pandas => "pandas",
        Engine::Unknown => "unknown",
    }
}

/// The lowercase name of a priority.
pub open spec fn priority_text(p: Priority) -> Seq<char> {
    match p {
        Priority::Size => "size"@,
        Priority::Speed => "speed"@,
        Priority::Balanced => "balanced"@,
    }
}

pub fn priority_to_str(priority: &Priority) -> (s: &'static str)
    ensures
        s@ == priority_text(*priority),
{
    match priority {
        Priority::Size => "size",
        Priority::Speed => "speed",
        Priority::Balanced => "balanced",
    }
}

/// The name of a rule as reports show it.
pub open spec fn rule_name_text(r: RuleName) -> Seq<char> {
    match r {
        RuleName::BooleanRle => "BooleanRle"@,
        RuleName::DeltaMonotonic => "DeltaMonotonic"@,
        RuleName::RleDictionary => "RleDictionary"@,
        RuleName::ByteStreamSplit => "ByteStreamSplit"@,
        RuleName::PlainUuid => "PlainUuid"@,
        RuleName::DeltaByteArray => "DeltaByteArray"@,
        RuleName::DeltaLengthByteArray => "DeltaLengthByteArray"@,
        RuleName::PlainDefault => "PlainDefault"@,
    }
}

fn rule_name_string(r: RuleName) -> (s: String)
    ensures
        s@ == rule_name_text(r),
{
    match r {
        RuleName::BooleanRle => text("BooleanRle"),
        RuleName::DeltaMonotonic => text("DeltaMonotonic"),
        RuleName::RleDictionary => text("RleDictionary"),
        RuleName::ByteStreamSplit => text("ByteStreamSplit"),
        RuleName::PlainUuid => text("PlainUuid"),
        RuleName::DeltaByteArray => text("DeltaByteArray"),
        RuleName::DeltaLengthByteArray => text("DeltaLengthByteArray"),
        RuleName::PlainDefault => text("PlainDefault"),
    }
}

/// The name of a confidence tier as reports show it.
pub open spec fn tier_text(t: ConfidenceTier) -> Seq<char> {
    match t {
        ConfidenceTier::High => "High"@,
        ConfidenceTier::Medium => "Medium"@,
        ConfidenceTier::Low => "Low"@,
    }
}

fn tier_string(t: ConfidenceTier) -> (s: String)
    ensures
        s@ == tier_text(t),
{
    match t {
        ConfidenceTier::High => text("High"),
        ConfidenceTier::Medium => text("Medium"),
        ConfidenceTier::Low => text("Low"),
    }
}

/// The profile stood in for a column whose sample could not be read: only
/// names and types from the footer, and the null share of the file when the
/// footer knows it.
pub open spec fn is_fallback_profile(p: ColumnProfile, col_name: Seq<char>, meta: &ColumnMetaSummary, total_rows: i64) -> bool {
    &&& p.column_name@ == col_name
    &&& p.physical_type@ == meta.physical_type@
    &&& opt_text(p.logical_type) == opt_text(meta.logical_type)
    &&& p.sample_rows == 0
    &&& p.total_file_rows == total_rows
    &&& p.sample_fraction@ == (0int, 1int)
    &&& p.cardinality_estimate == 0
    &&& p.cardinality_ratio@ == (0int, 1int)
    &&& p.cardinality_method@ == "unavailable"@
    &&& p.monotonicity_score is None
    &&& p.string_monotonicity_score is None
    &&& p.run_length_score@ == (0int, 1int)
    &&& p.string_length_stats is None
    &&& !p.uuid_pattern_detected
    &&& !p.json_pattern_detected
    &&& p.byte_entropy is None
    &&& p.null_count_in_sample == 0
    &&& p.null_fraction@ == match meta.total_null_count {
        Some(nc) => if total_rows > 0 { (nc as int, total_rows as int) } else { (0int, 1int) },
        None => (0int, 1int),
    }
}

/// A minimal profile from the footer alone, for a column that could not be sampled.
pub fn fallback_profile(col_name: &str, meta: &ColumnMetaSummary, total_rows: i64) -> (p: ColumnProfile)
    ensures
        is_fallback_profile(p, col_name@, meta, total_rows),
{
    let null_fraction = match meta.total_null_count {
        Some(nc) => if total_rows > 0 {
            Ratio::of_counts(nc, total_rows as u64)
        } else {
            Ratio::of_counts(0, 1)
        },
        None => Ratio::of_counts(0, 1),
    };
    ColumnProfile {
        column_name: text(col_name),
        physical_type: copy_string(&meta.physical_type),
        logical_type: copy_opt_string(&meta.logical_type),
        sample_rows: 0,
        total_file_rows: total_rows,
        sample_fraction: Ratio::of_counts(0, 1),
        cardinality_estimate: 0,
        cardinality_ratio: Ratio::of_counts(0, 1),
        cardinality_method: text("unavailable"),
        monotonicity_score: None,
        string_monotonicity_score: None,
        run_length_score: Ratio::of_counts(0, 1),
        string_length_stats: None,
        uuid_pattern_detected: false,
        json_pattern_detected: false,
        byte_entropy: None,
        null_count_in_sample: 0,
        null_fraction,
    }
}

/// How many columns use codec `c`.
pub open spec fn codec_count(cols: Seq<ColumnMetaSummary>, c: Seq<char>) -> int
    decreases cols.len(),
{
    if cols.len() == 0 {
        0
    } else {
        codec_count(cols.drop_last(), c) + if cols.last().codec@ == c { 1int } else { 0int }
    }
}

/// `c` is a most frequent codec among the columns (`UNCOMPRESSED` when there
/// are none).
pub open spec fn is_mode_codec(cols: Seq<ColumnMetaSummary>, c: Seq<char>) -> bool {
    if cols.len() == 0 {
        c == "UNCOMPRESSED"@
    } else {
        &&& exists|i: int| 0 <= i < cols.len() && #[trigger] cols[i].codec@ == c
        &&& forall|j: int| 0 <= j < cols.len() ==> codec_count(cols, #[trigger] cols[j].codec@) <= codec_count(cols, c)
    }
}

fn count_codec(cols: &Vec<ColumnMetaSummary>, c: &str) -> (n: usize)
    ensures
        n == codec_count(cols@, c@),
{
    let mut n: usize = 0;
    let mut i: usize = 0;
    while i < cols.len()
        invariant
            i <= cols@.len(),
            n == codec_count(cols@.take(i as int), c@),
            n <= i,
        decreases cols@.len() - i,
    {
        proof {
            assert(cols@.take(i + 1).drop_last() =~= cols@.take(i as int));
        }
        if str_eq(cols[i].codec.as_str(), c) {
            n = n + 1;
        }
        i = i + 1;
    }
    proof {
        assert(cols@.take(cols@.len() as int) =~= cols@);
    }
    n
}

/// The codec most columns use (`UNCOMPRESSED` for a file without columns).
/// Between codecs used equally often any may come out.
pub fn mode_codec(columns: &Vec<ColumnMetaSummary>) -> (c: String)
    ensures
        is_mode_codec(columns@, c@),
{
    if columns.len() == 0 {
        return text("UNCOMPRESSED");
    }
    let mut best: usize = 0;
    let mut best_count = count_codec(columns, columns[0].codec.as_str());
    let mut i: usize = 1;
    while i < columns.len()
        invariant
            1 <= i <= columns@.len(),
            best < columns@.len(),
            best_count == codec_count(columns@, columns@[best as int].codec@),
            forall|j: int| 0 <= j < i ==> codec_count(columns@, #[trigger] columns@[j].codec@) <= best_count,
        decreases columns@.len() - i,
    {
        let k = count_codec(columns, columns[i].codec.as_str());
        if k > best_count {
            best = i;
            best_count = k;
        }
        i = i + 1;
    }
    copy_string(&columns[best].codec)
}

/// The per-column encoding lines of a write-options snippet, one per column
/// whose encoding is not PLAIN.
pub open spec fn encoding_lines(recs: Seq<ColumnRecommendation>) -> Seq<Seq<char>>
    decreases recs.len(),
{
    if recs.len() == 0 {
        seq![]
    } else {
        let before = encoding_lines(recs.drop_last());
        let c = recs.last();
        if c.recommended_encoding@ != "PLAIN"@ {
            before.push("        \""@ + c.column_name@ + "\": \""@ + c.recommended_encoding@ + "\""@)
        } else {
            before
        }
    }
}

/// A PyArrow `write_table` snippet with the codec, its level and the
/// per-column encodings.
pub open spec fn bundle_snippet_text(recs: Seq<ColumnRecommendation>, codec: Seq<char>, level: Option<i32>) -> Seq<char> {
    let level_line = match level {
        Some(l) => "\n    \"compression_level\": "@ + int_text(l as int) + ","@,
        None => seq![],
    };
    let lines = encoding_lines(recs);
    let block = if lines.len() == 0 {
        "        # no per-column encoding overrides needed"@
    } else {
        join(lines, ",\n"@)
    };
    "PARQUET_WRITE_OPTIONS = {\n    \"compression\": \""@ + lowercase_of(codec) + "\","@ + level_line
        + "\n    \"column_encoding\": {\n"@ + block
        + "\n    }\n}\npq.write_table(table, \"output.parquet\", **PARQUET_WRITE_OPTIONS)"@
}

pub fn bundle_python_snippet(column_recs: &[ColumnRecommendation], codec: &str, codec_level: Option<i32>) -> (s:
    String)
    ensures
        s@ == bundle_snippet_text(column_recs@, codec@, codec_level),
{
    let codec_name = to_lowercase(codec);
    let mut lines: Vec<String> = Vec::new();
    let mut i: usize = 0;
    while i < column_recs.len()
        invariant
            i <= column_recs@.len(),
            views(lines@) == encoding_lines(column_recs@.take(i as int)),
        decreases column_recs@.len() - i,
    {
        let c = &column_recs[i];
        proof {
            assert(column_recs@.take(i + 1).drop_last() =~= column_recs@.take(i as int));
            assert(column_recs@.take(i + 1).last() == *c);
        }
        if !str_eq(c.recommended_encoding.as_str(), "PLAIN") {
            let mut line = text("        \"");
            line.append(c.column_name.as_str());
            line.append("\": \"");
            line.append(c.recommended_encoding.as_str());
            line.append("\"");
            let ghost before = lines@;
            lines.push(line);
            proof {
                assert(views(lines@) =~= views(before).push(line@));
            }
        }
        i = i + 1;
    }
    proof {
        assert(column_recs@.take(column_recs@.len() as int) =~= column_recs@);
    }
    let block = if lines.len() == 0 {
        text("        # no per-column encoding overrides needed")
    } else {
        join_strings(&lines, ",\n")
    };
    let mut s = text("PARQUET_WRITE_OPTIONS = {\n    \"compression\": \"");
    s.append(codec_name.as_str());
    s.append("\",");
    match codec_level {
        Some(l) => {
            s.append("\n    \"compression_level\": ");
            push_int(&mut s, l as i64);
            s.append(",");
        },
        None => {},
    }
    s.append("\n    \"column_encoding\": {\n");
    s.append(block.as_str());
    s.append("\n    }\n}\npq.write_table(table, \"output.parquet\", **PARQUET_WRITE_OPTIONS)");
    proof {
        assert(s@ =~= bundle_snippet_text(column_recs@, codec@, codec_level));
    }
    s
}

/// One of the three ready-made write configurations.
pub struct Bundle {
    pub label: String,
    pub codec_description: String,
    /// A qualitative description of what the configuration trades.
    pub tradeoff: String,
    pub python_snippet: String,
    pub caveats: Vec<Caveat>,
}

pub type BundleView = (Seq<char>, Seq<char>, Seq<char>, Seq<char>, Seq<(CaveatSeverity, Seq<char>)>);

impl View for Bundle {
    type V = BundleView;

    open spec fn view(&self) -> BundleView {
        (self.label@, self.codec_description@, self.tradeoff@, self.python_snippet@, caveats_view(self.caveats@))
    }
}

/// Balanced, smallest-file and fastest-read configurations.
pub struct OptionBundles {
    pub a: Bundle,
    pub b: Bundle,
    pub c: Bundle,
}

/// The codec recommendation for an encoding under a priority, after the
/// engine's adjustments, for a column that is not pre-compressed.
pub open spec fn adjusted_choice(encoding: Seq<char>, priority: Priority, engine: Engine) -> (
    Seq<char>,
    Option<i32>,
    Seq<char>,
    Seq<(CaveatSeverity, Seq<char>)>,
) {
    overridden(codec_by_priority(encoding, priority, engine), engine)
}

/// The caveats of the first `n` encodings' codec recommendations, in order.
pub open spec fn bundle_caveats(encs: Seq<EncodingRecommendation>, n: nat, priority: Priority, engine: Engine) -> Seq<
    (CaveatSeverity, Seq<char>),
>
    decreases n,
{
    if n == 0 {
        seq![]
    } else {
        bundle_caveats(encs, (n - 1) as nat, priority, engine) + adjusted_choice(
            encs[n - 1].encoding@,
            priority,
            engine,
        ).3
    }
}

/// How a bundle names its codec: `ZSTD:3`, `SNAPPY`, or codec and level.
pub open spec fn codec_description_text(codec: Seq<char>, level: Option<i32>) -> Seq<char> {
    if codec == "SNAPPY"@ {
        "SNAPPY"@
    } else {
        codec_full_text(codec, level)
    }
}

/// The codec of the balanced bundle: the first column's balanced choice, or
/// ZSTD:3 when there is no column.
pub open spec fn balanced_codec(encs: Seq<EncodingRecommendation>, n: nat, engine: Engine) -> (Seq<char>, Option<i32>) {
    if n > 0 {
        let c = adjusted_choice(encs[0].encoding@, Priority::Balanced, engine);
        (c.0, c.1)
    } else {
        ("ZSTD"@, Some(3i32))
    }
}

/// The three bundles for a set of column recommendations.
pub open spec fn bundles_of(
    recs: Seq<ColumnRecommendation>,
    encs: Seq<EncodingRecommendation>,
    engine: Engine,
) -> (BundleView, BundleView, BundleView) {
    let n = if recs.len() < encs.len() { recs.len() } else { encs.len() };
    let (codec, level) = balanced_codec(encs, n, engine);
    (
        (
            "Balanced"@,
            codec_description_text(codec, level),
            "Best balance of file size and read speed"@,
            bundle_snippet_text(recs, codec, level),
            bundle_caveats(encs, n, Priority::Balanced, engine),
        ),
        (
            "Smallest File"@,
            "ZSTD:6"@,
            "Smallest file; slower writes, slightly slower reads than ZSTD:3"@,
            bundle_snippet_text(recs, "ZSTD"@, Some(6i32)),
            bundle_caveats(encs, n, Priority::Size, engine),
        ),
        (
            "Fastest Reads"@,
            "LZ4"@,
            "Fastest decompression; files are slightly larger than ZSTD"@,
            bundle_snippet_text(recs, "LZ4"@, None),
            bundle_caveats(encs, n, Priority::Speed, engine),
        ),
    )
}

/// The stand-in profile a bundle's codec is chosen on: the recommendation's
/// names and cardinality, no byte entropy.
fn dummy_profile(cr: &ColumnRecommendation) -> (p: ColumnProfile)
    ensures
        p.byte_entropy is None,
{
    ColumnProfile {
        column_name: copy_string(&cr.column_name),
        physical_type: copy_string(&cr.physical_type),
        logical_type: copy_opt_string(&cr.logical_type),
        sample_rows: 100_000,
        total_file_rows: 1_000_000,
        sample_fraction: Ratio::of_counts(1, 5),
        cardinality_estimate: cr.cardinality_estimate,
        cardinality_ratio: cr.cardinality_ratio.copy(),
        cardinality_method: text("exact"),
        monotonicity_score: None,
        string_monotonicity_score: None,
        run_length_score: Ratio::of_counts(0, 1),
        string_length_stats: None,
        uuid_pattern_detected: false,
        json_pattern_detected: false,
        byte_entropy: None,
        null_count_in_sample: 0,
        null_fraction: cr.null_fraction.copy(),
    }
}

fn adjusted_codec(cr: &ColumnRecommendation, enc: &EncodingRecommendation, priority: Priority, engine: &Engine) -> (c:
    CodecRecommendation)
    ensures
        c@ == adjusted_choice(enc.encoding@, priority, *engine),
{
    let dp = dummy_profile(cr);
    let mut c = recommend_codec(&dp, enc, &priority, engine);
    apply_engine_overrides(&mut c, engine);
    c
}

fn collect_caveats(
    column_recs: &[ColumnRecommendation],
    enc_recs: &[EncodingRecommendation],
    n: usize,
    priority: Priority,
    engine: &Engine,
) -> (v: Vec<Caveat>)
    requires
        n <= column_recs@.len(),
        n <= enc_recs@.len(),
    ensures
        caveats_view(v@) == bundle_caveats(enc_recs@, n as nat, priority, *engine),
{
    let mut v: Vec<Caveat> = Vec::new();
    let mut i: usize = 0;
    proof {
        assert(caveats_view(v@) =~= Seq::<(CaveatSeverity, Seq<char>)>::empty());
    }
    while i < n
        invariant
            i <= n,
            n <= column_recs@.len(),
            n <= enc_recs@.len(),
            caveats_view(v@) == bundle_caveats(enc_recs@, i as nat, priority, *engine),
        decreases n - i,
    {
        let c = adjusted_codec(&column_recs[i], &enc_recs[i], priority, engine);
        let ghost before = v@;
        let mut k: usize = 0;
        while k < c.caveats.len()
            invariant
                k <= c.caveats@.len(),
                caveats_view(v@) == caveats_view(before) + caveats_view(c.caveats@).take(k as int),
            decreases c.caveats@.len() - k,
        {
            let ghost mid = v@;
            let one = c.caveats[k].copy();
            let ghost one_v = one@;
            v.push(one);
            proof {
                assert(caveats_view(v@) =~= caveats_view(mid).push(one_v));
                assert(caveats_view(c.caveats@).take(k + 1) =~= caveats_view(c.caveats@).take(k as int).push(
                    c.caveats@[k as int]@,
                ));
                assert(caveats_view(v@) =~= caveats_view(before) + caveats_view(c.caveats@).take(k + 1));
            }
            k = k + 1;
        }
        proof {
            assert(caveats_view(c.caveats@).take(c.caveats@.len() as int) =~= caveats_view(c.caveats@));
        }
        i = i + 1;
    }
    v
}

/// The balanced, smallest-file and fastest-read bundles: a codec description,
/// a snippet and the caveats the columns' codec choices carry under each
/// priority.
pub fn generate_option_bundles(
    _file_profile: &FileProfile,
    column_recs: &[ColumnRecommendation],
    engine: &Engine,
    current_enc_recs: &[EncodingRecommendation],
) -> (o: OptionBundles)
    ensures
        (o.a@, o.b@, o.c@) == bundles_of(column_recs@, current_enc_recs@, *engine),
{
    let n = if column_recs.len() < current_enc_recs.len() { column_recs.len() } else { current_enc_recs.len() };
    let a_caveats = collect_caveats(column_recs, current_enc_recs, n, Priority::Balanced, engine);
    let (a_codec, a_level) = if n > 0 {
        let c = adjusted_codec(&column_recs[0], &current_enc_recs[0], Priority::Balanced, engine);
        (c.codec, c.codec_level)
    } else {
        (text("ZSTD"), Some(3i32))
    };
    let a_desc = if str_eq(a_codec.as_str(), "SNAPPY") {
        text("SNAPPY")
    } else {
        crate::tuner::impact::codec_full(&a_codec, a_level)
    };
    let a_snippet = bundle_python_snippet(column_recs, a_codec.as_str(), a_level);
    let b_caveats = collect_caveats(column_recs, current_enc_recs, n, Priority::Size, engine);
    let b_snippet = bundle_python_snippet(column_recs, "ZSTD", Some(6));
    let c_caveats = collect_caveats(column_recs, current_enc_recs, n, Priority::Speed, engine);
    let c_snippet = bundle_python_snippet(column_recs, "LZ4", None);
    OptionBundles {
        a: Bundle {
            label: text("Balanced"),
            codec_description: a_desc,
            tradeoff: text("Best balance of file size and read speed"),
            python_snippet: a_snippet,
            caveats: a_caveats,
        },
        b: Bundle {
            label: text("Smallest File"),
            codec_description: text("ZSTD:6"),
            tradeoff: text("Smallest file; slower writes, slightly slower reads than ZSTD:3"),
            python_snippet: b_snippet,
            caveats: b_caveats,
        },
        c: Bundle {
            label: text("Fastest Reads"),
            codec_description: text("LZ4"),
            tradeoff: text("Fastest decompression; files are slightly larger than ZSTD"),
            python_snippet: c_snippet,
            caveats: c_caveats,
        },
    }
}

/// `enc` and `cr` are what the advisor recommends for the profiled column `p`
/// described by `meta`: the first encoding rule that applies, the codec for
/// the priority after the engine's adjustments, the impact against the file's
/// uncompressed total, the engine version needed, and the full explanation
/// when asked for.
pub open spec fn recommendation_for(
    cr: ColumnRecommendation,
    enc: EncodingRecommendation,
    p: &ColumnProfile,
    meta: &ColumnMetaSummary,
    engine: Engine,
    priority: Priority,
    full: bool,
    total: int,
) -> bool {
    let rule = fired_rule(p, meta);
    let encoding = rule_encoding(rule);
    let codec = overridden(codec_choice(p, encoding, priority, engine), engine);
    let compat = engine_compat_text(engine, encoding, engine_text(engine));
    &&& enc.rule_fired == rule
    &&& enc.encoding@ == encoding
    &&& enc.reason_brief@ == rule_reason(p, rule)
    &&& enc.confidence == confidence_tier(p, rule)
    &&& enc.confidence_reason@ == confidence_text(p, rule)
    &&& cr.column_name@ == p.column_name@
    &&& cr.physical_type@ == meta.physical_type@
    &&& opt_text(cr.logical_type) == opt_text(meta.logical_type)
    &&& cr.cardinality_estimate == p.cardinality_estimate
    &&& cr.cardinality_ratio == p.cardinality_ratio
    &&& cr.null_fraction == p.null_fraction
    &&& cr.recommended_encoding@ == encoding
    &&& cr.recommended_codec@ == codec.0
    &&& cr.recommended_codec_level == codec.1
    &&& caveats_view(cr.caveats@) == codec.3
    &&& cr.encoding_rule_fired@ == rule_name_text(rule)
    &&& cr.reason_brief@ == rule_reason(p, rule)
    &&& cr.confidence@ == tier_text(confidence_tier(p, rule))
    &&& cr.confidence_reason@ == confidence_text(p, rule)
    &&& cr.impact_stars == impact_stars_of(
        lists(meta.encodings@, encoding),
        meta.codec@ == codec_full_text(codec.0, codec.1),
        meta.uncompressed_bytes as int,
        total,
    )
    &&& opt_text(cr.engine_compatibility) == compat
    &&& match cr.full_explain {
        Some(e) => full && e@ == full_explain_of(p, rule, compat),
        None => !full,
    }
}

/// The recommendation for one profiled column.
pub fn recommend_column(
    profile: &ColumnProfile,
    meta: &ColumnMetaSummary,
    engine: &Engine,
    priority: &Priority,
    full: bool,
    file_total_uncompressed: u128,
) -> (r: (ColumnRecommendation, EncodingRecommendation))
    ensures
        recommendation_for(r.0, r.1, profile, meta, *engine, *priority, full, file_total_uncompressed as int),
{
    let enc_rec = recommend_encoding(profile, meta);
    let mut codec_rec = recommend_codec(profile, &enc_rec, priority, engine);
    apply_engine_overrides(&mut codec_rec, engine);
    let impact_stars = compute_impact_stars(&enc_rec, &codec_rec, meta, file_total_uncompressed);
    let engine_name = engine_to_str(engine);
    let engine_compatibility = compute_engine_compat(&enc_rec, engine, engine_name);
    let full_explain = if full {
        Some(build_full_explain(profile, &enc_rec, &engine_compatibility))
    } else {
        None
    };
    let col_rec = ColumnRecommendation {
        column_name: copy_string(&profile.column_name),
        physical_type: copy_string(&meta.physical_type),
        logical_type: copy_opt_string(&meta.logical_type),
        cardinality_estimate: profile.cardinality_estimate,
        cardinality_ratio: profile.cardinality_ratio.copy(),
        null_fraction: profile.null_fraction.copy(),
        recommended_encoding: copy_string(&enc_rec.encoding),
        recommended_codec: copy_string(&codec_rec.codec),
        recommended_codec_level: codec_rec.codec_level,
        encoding_rule_fired: rule_name_string(enc_rec.rule_fired),
        reason_brief: copy_string(&enc_rec.reason_brief),
        confidence: tier_string(enc_rec.confidence),
        confidence_reason: copy_string(&enc_rec.confidence_reason),
        impact_stars,
        engine_compatibility,
        caveats: codec_rec.caveats,
        full_explain,
    };
    (col_rec, enc_rec)
}

/// For each profile whose column the file has, in order, the position of the
/// profile and of the first column with its name.
pub open spec fn processed_pairs(profiles: Seq<ColumnProfile>, cols: Seq<ColumnMetaSummary>) -> Seq<(int, int)>
    decreases profiles.len(),
{
    if profiles.len() == 0 {
        seq![]
    } else {
        let before = processed_pairs(profiles.drop_last(), cols);
        match first_named(cols, profiles.last().column_name@) {
            Some(c) => before.push((profiles.len() - 1, c)),
            None => before,
        }
    }
}

/// Every result answers its pair of profile and column.
pub open spec fn processed(
    r: Seq<(ColumnRecommendation, EncodingRecommendation, ColumnProfile)>,
    profiles: Seq<ColumnProfile>,
    cols: Seq<ColumnMetaSummary>,
    engine: Engine,
    priority: Priority,
    explain: Seq<char>,
) -> bool {
    let pairs = processed_pairs(profiles, cols);
    let full = explain == "full"@;
    &&& r.len() == pairs.len()
    &&& forall|k: int|
        0 <= k < r.len() ==> {
            let pr = #[trigger] pairs[k];
            &&& 0 <= pr.0 < profiles.len()
            &&& 0 <= pr.1 < cols.len()
            &&& recommendation_for(r[k].0, r[k].1, &profiles[pr.0], &cols[pr.1], engine, priority, full, sum_uncompressed(cols))
            &&& r[k].2 == profiles[pr.0]
        }
}

/// A recommendation for each profile whose column the file has, with the
/// encoding recommendation and the profile itself.
pub fn process_columns_from_profiles(
    file_profile: &FileProfile,
    column_profiles: &[ColumnProfile],
    engine: &Engine,
    priority: &Priority,
    explain: &str,
) -> (r: Vec<(ColumnRecommendation, EncodingRecommendation, ColumnProfile)>)
    ensures
        processed(r@, column_profiles@, file_profile.columns@, *engine, *priority, explain@),
{
    let cols = &file_profile.columns;
    let total = total_uncompressed(cols);
    let full = str_eq(explain, "full");
    let mut out: Vec<(ColumnRecommendation, EncodingRecommendation, ColumnProfile)> = Vec::new();
    let mut i: usize = 0;
    while i < column_profiles.len()
        invariant
            i <= column_profiles@.len(),
            cols@ == file_profile.columns@,
            total == sum_uncompressed(cols@),
            full == (explain@ == "full"@),
            processed(out@, column_profiles@.take(i as int), cols@, *engine, *priority, explain@),
        decreases column_profiles@.len() - i,
    {
        let p = &column_profiles[i];
        let ghost before = processed_pairs(column_profiles@.take(i as int), cols@);
        proof {
            assert(column_profiles@.take(i + 1).drop_last() =~= column_profiles@.take(i as int));
            assert(column_profiles@.take(i + 1).last() == *p);
            assert forall|k: int| 0 <= k < column_profiles@.take(i as int).len() implies
                column_profiles@.take(i as int)[k] == column_profiles@.take(i + 1)[k] by {}
        }
        match find_column(cols, p.column_name.as_str()) {
            Some(c) => {
                let (cr, enc) = recommend_column(p, &cols[c], engine, priority, full, total);
                let ghost old_out = out@;
                out.push((cr, enc, p.copy()));
                proof {
                    let after = processed_pairs(column_profiles@.take(i + 1), cols@);
                    assert(after == before.push((i as int, c as int)));
                    assert forall|k: int| 0 <= k < out@.len() implies {
                        let pr = #[trigger] after[k];
                        &&& 0 <= pr.0 < column_profiles@.take(i + 1).len()
                        &&& 0 <= pr.1 < cols@.len()
                        &&& recommendation_for(out@[k].0, out@[k].1, &column_profiles@.take(i + 1)[pr.0], &cols@[pr.1], *engine, *priority, full, sum_uncompressed(cols@))
                        &&& out@[k].2 == column_profiles@.take(i + 1)[pr.0]
                    } by {
                        if k < old_out.len() {
                            assert(after[k] == before[k]);
                            assert(out@[k] == old_out[k]);
                        }
                    }
                }
            },
            None => {
                proof {
                    let after = processed_pairs(column_profiles@.take(i + 1), cols@);
                    assert(after == before);
                    assert forall|k: int| 0 <= k < out@.len() implies {
                        let pr = #[trigger] after[k];
                        &&& 0 <= pr.0 < column_profiles@.take(i + 1).len()
                        &&& 0 <= pr.1 < cols@.len()
                        &&& recommendation_for(out@[k].0, out@[k].1, &column_profiles@.take(i + 1)[pr.0], &cols@[pr.1], *engine, *priority, full, sum_uncompressed(cols@))
                        &&& out@[k].2 == column_profiles@.take(i + 1)[pr.0]
                    } by {
                        assert(after[k] == before[k]);
                    }
                }
            },
        }
        i = i + 1;
    }
    proof {
        assert(column_profiles@.take(column_profiles@.len() as int) =~= column_profiles@);
    }
    out
}

/// What the advisor makes of one column: the recommendation, the encoding
/// choice behind it, and the profile it was made from.
pub type ColumnResult = (ColumnRecommendation, EncodingRecommendation, ColumnProfile);

/// The whole tuning report for a file.
pub struct TuneReport {
    pub file_path: String,
    pub engine: String,
    pub priority: String,
    pub file_size_bytes: u64,
    pub num_rows: i64,
    pub num_columns: usize,
    pub current_codec: String,
    /// Milliseconds the analysis took, as the caller measured it.
    pub scan_time_ms: u64,
    pub sample_fraction: Ratio,
    /// Predicted size reduction, in percent.
    pub predicted_size_reduction_pct: Ratio,
    pub predicted_read_speedup: Ratio,
    pub overall_confidence: String,
    pub columns: Vec<ColumnRecommendation>,
    pub file_caveats: Vec<Caveat>,
    pub python_snippet: String,
    pub spark_snippet: String,
    pub options: OptionBundles,
    pub row_group_advisory: RowGroupAdvisory,
    pub sort_advisory: SortOrderAdvisory,
    pub file_profile: FileProfile,
    pub column_profiles: Vec<ColumnProfile>,
    pub diagnostics: Vec<ColumnDiagnostic>,
}

/// Some recommendation has the confidence `t`.
pub open spec fn any_confidence(recs: Seq<ColumnRecommendation>, t: Seq<char>) -> bool {
    exists|i: int| 0 <= i < recs.len() && #[trigger] recs[i].confidence@ == t
}

/// The report's confidence: the lowest of its columns' (High when there are none).
pub open spec fn overall_confidence_of(recs: Seq<ColumnRecommendation>) -> Seq<char> {
    if any_confidence(recs, "Low"@) {
        "Low"@
    } else if any_confidence(recs, "Medium"@) {
        "Medium"@
    } else {
        "High"@
    }
}

fn has_confidence(recs: &Vec<ColumnRecommendation>, t: &str) -> (r: bool)
    ensures
        r == any_confidence(recs@, t@),
{
    let mut i: usize = 0;
    while i < recs.len()
        invariant
            i <= recs@.len(),
            forall|k: int| 0 <= k < i ==> #[trigger] recs@[k].confidence@ != t@,
        decreases recs@.len() - i,
    {
        if str_eq(recs[i].confidence.as_str(), t) {
            return true;
        }
        i = i + 1;
    }
    false
}

/// `1 + 0.7 * pct / 100`: the predicted read speedup for a size reduction in percent.
pub open spec fn speedup_of(pct: (int, int)) -> (int, int) {
    (1000 * pct.1 + 7 * pct.0, 1000 * pct.1)
}

/// The sampled share of the file's rows, at most 1 (1 for a file without rows).
pub open spec fn capped_fraction(sample_rows: int, num_rows: int) -> (int, int) {
    if num_rows > 0 {
        if sample_rows >= num_rows { (1int, 1int) } else { (sample_rows, num_rows) }
    } else {
        (1int, 1int)
    }
}

pub fn capped_sample_fraction(sample_rows: usize, num_rows: i64) -> (r: Ratio)
    ensures
        r@ == capped_fraction(sample_rows as int, num_rows as int),
{
    if num_rows > 0 {
        if sample_rows as u128 >= num_rows as u128 {
            Ratio::of_counts(1, 1)
        } else {
            Ratio::of_counts(sample_rows as u64, num_rows as u64)
        }
    } else {
        Ratio::of_counts(1, 1)
    }
}

/// A file whose totals the report can hold: uncompressed column bytes within
/// an `i64`, and row-group bytes within the fraction bound.
pub open spec fn report_ready(fp: &FileProfile) -> bool {
    sum_uncompressed(fp.columns@) <= 0x7fff_ffff_ffff_ffff && sum_u64(fp.row_group_compressed_bytes@)
        <= ratio_bound()
}

/// `r` is the report built from the per-column results: the recommendations
/// in order, the file's most common codec, the predicted size reduction and
/// read speedup, the lowest confidence, the bundles, the advisories and the
/// diagnostics.
pub open spec fn reports(
    r: TuneReport,
    file_path: Seq<char>,
    fp: &FileProfile,
    results: Seq<(ColumnRecommendation, EncodingRecommendation, ColumnProfile)>,
    engine: Engine,
    priority: Priority,
    sample_fraction: (int, int),
) -> bool {
    let recs = results.map_values(|t: (ColumnRecommendation, EncodingRecommendation, ColumnProfile)| t.0);
    let encs = results.map_values(|t: (ColumnRecommendation, EncodingRecommendation, ColumnProfile)| t.1);
    let profs = results.map_values(|t: (ColumnRecommendation, EncodingRecommendation, ColumnProfile)| t.2);
    let pct = predicted_reduction(recs, fp.columns@);
    &&& r.file_path@ == file_path
    &&& r.engine@ == engine_text(engine)
    &&& r.priority@ == priority_text(priority)
    &&& r.file_size_bytes == fp.file_size_bytes
    &&& r.num_rows == fp.num_rows
    &&& r.num_columns == recs.len()
    &&& is_mode_codec(fp.columns@, r.current_codec@)
    &&& r.scan_time_ms == 0
    &&& r.sample_fraction@ == sample_fraction
    &&& r.predicted_size_reduction_pct@ == pct
    &&& r.predicted_read_speedup@ == speedup_of(pct)
    &&& r.overall_confidence@ == overall_confidence_of(recs)
    &&& r.columns@ == recs
    &&& r.file_caveats@.len() == 0
    &&& r.python_snippet@.len() == 0
    &&& r.spark_snippet@.len() == 0
    &&& (r.options.a@, r.options.b@, r.options.c@) == bundles_of(recs, encs, engine)
    &&& same_file_profile(r.file_profile, *fp)
    &&& r.column_profiles@ == profs
    &&& row_group_advises(r.row_group_advisory, fp, engine)
    &&& sort_advises(r.sort_advisory, profs)
    &&& diagnoses_all(r.diagnostics@, recs, fp.columns@)
}

/// Assembles the report from the per-column results; the caller records the
/// elapsed time in `scan_time_ms`.
pub fn assemble_report(
    file_path: &str,
    file_profile: &FileProfile,
    results: Vec<(ColumnRecommendation, EncodingRecommendation, ColumnProfile)>,
    engine: &Engine,
    priority: &Priority,
    sample_fraction: Ratio,
) -> (r: TuneReport)
    requires
        report_ready(file_profile),
    ensures
        reports(r, file_path@, file_profile, results@, *engine, *priority, sample_fraction@),
{
    let ghost res = results@;
    let mut column_recs: Vec<ColumnRecommendation> = Vec::new();
    let mut enc_recs: Vec<EncodingRecommendation> = Vec::new();
    let mut column_profiles: Vec<ColumnProfile> = Vec::new();
    let mut results = results;
    let n = results.len();
    let mut i: usize = 0;
    while results.len() > 0
        invariant
            n == res.len(),
            results@.len() + i == n,
            results@ == res.subrange(i as int, n as int),
            column_recs@ == res.take(i as int).map_values(|t: (ColumnRecommendation, EncodingRecommendation, ColumnProfile)| t.0),
            enc_recs@ == res.take(i as int).map_values(|t: (ColumnRecommendation, EncodingRecommendation, ColumnProfile)| t.1),
            column_profiles@ == res.take(i as int).map_values(|t: (ColumnRecommendation, EncodingRecommendation, ColumnProfile)| t.2),
        decreases results@.len(),
    {
        let (cr, enc, prof) = results.remove(0);
        column_recs.push(cr);
        enc_recs.push(enc);
        column_profiles.push(prof);
        proof {
            assert(res.take(i + 1) =~= res.take(i as int).push(res[i as int]));
            assert(column_recs@ =~= res.take(i + 1).map_values(|t: (ColumnRecommendation, EncodingRecommendation, ColumnProfile)| t.0));
            assert(enc_recs@ =~= res.take(i + 1).map_values(|t: (ColumnRecommendation, EncodingRecommendation, ColumnProfile)| t.1));
            assert(column_profiles@ =~= res.take(i + 1).map_values(|t: (ColumnRecommendation, EncodingRecommendation, ColumnProfile)| t.2));
            assert(results@ =~= res.subrange(i + 1, n as int));
        }
        i = i + 1;
    }
    proof {
        assert(res.take(n as int) =~= res);
    }
    let current_codec = mode_codec(&file_profile.columns);
    let size_reduction = predicted_size_reduction_pct(column_recs.as_slice(), file_profile);
    let a = size_reduction.numerator();
    let b = size_reduction.denominator();
    proof {
        assert(size_reduction@ == predicted_reduction(column_recs@, file_profile.columns@));
        assert(0 <= a <= 434700 * 0x7fff_ffff_ffff_ffff && 0 < b <= 4830 * 0x7fff_ffff_ffff_ffff) by {
            let total = sum_uncompressed(file_profile.columns@);
            crate::tuner::impact::lemma_reduction_bounds(column_recs@, file_profile.columns@);
        }
    }
    let speedup = Ratio::from_parts(1000 * (b as i128) + 7 * a, 1000 * b);
    let overall_confidence = if has_confidence(&column_recs, "Low") {
        text("Low")
    } else if has_confidence(&column_recs, "Medium") {
        text("Medium")
    } else {
        text("High")
    };
    let options = generate_option_bundles(file_profile, column_recs.as_slice(), engine, enc_recs.as_slice());
    let row_group_advisory = analyze_row_groups(file_profile, engine);
    let sort_advisory = detect_sort_order(file_profile, column_profiles.as_slice());
    let diagnostics = diagnose_all(file_profile, column_recs.as_slice());
    TuneReport {
        file_path: text(file_path),
        engine: text(engine_to_str(engine)),
        priority: text(priority_to_str(priority)),
        file_size_bytes: file_profile.file_size_bytes,
        num_rows: file_profile.num_rows,
        num_columns: column_recs.len(),
        current_codec,
        scan_time_ms: 0,
        sample_fraction,
        predicted_size_reduction_pct: size_reduction,
        predicted_read_speedup: speedup,
        overall_confidence,
        columns: column_recs,
        file_caveats: Vec::new(),
        python_snippet: String::new(),
        spark_snippet: String::new(),
        options,
        row_group_advisory,
        sort_advisory,
        file_profile: file_profile.copy(),
        column_profiles,
        diagnostics,
    }
}

/// The report for a file from profiles already taken (one per column, the
/// file's columns matched by name); the sampled fraction comes from the first
/// profile. The caller records the elapsed time in `scan_time_ms`.
pub fn build_tune_report_from_profiles(
    file_profile: &FileProfile,
    column_profiles: &[ColumnProfile],
    engine: &Engine,
    priority: &Priority,
    explain: &str,
) -> (r: TuneReport)
    requires
        report_ready(file_profile),
    ensures
        exists|results: Seq<ColumnResult>|
            {
                &&& #[trigger] processed(results, column_profiles@, file_profile.columns@, *engine, *priority, explain@)
                &&& reports(
                    r,
                    file_profile.path@,
                    file_profile,
                    results,
                    *engine,
                    *priority,
                    capped_fraction(
                        if column_profiles@.len() > 0 { column_profiles@[0].sample_rows as int } else { 0 },
                        file_profile.num_rows as int,
                    ),
                )
            },
{
    let results = process_columns_from_profiles(file_profile, column_profiles, engine, priority, explain);
    let ghost res = results@;
    let sample_rows = if column_profiles.len() > 0 { column_profiles[0].sample_rows } else { 0 };
    let sample_fraction = capped_sample_fraction(sample_rows, file_profile.num_rows);
    let r = assemble_report(file_profile.path.as_str(), file_profile, results, engine, priority, sample_fraction);
    proof {
        assert(processed(res, column_profiles@, file_profile.columns@, *engine, *priority, explain@));
    }
    r
}

} // verus!

