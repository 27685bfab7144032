//! Properties of the advisor that span several functions or all inputs.

use vstd::prelude::*;
use crate::diagnostics::{
    DiagnosticStatus, current_set, data_encodings, diagnosis, filtered_sets, is_level_encoding_text,
    rg_data_encodings, variance_summary,
};
use crate::order::{sorted_list_of, strictly_sorted};
use crate::profiler::metadata::{ColumnMetaSummary, sum_uncompressed};
use crate::profiler::stats::{ColumnProfile, profiles};
use crate::profiler::sample::{ColumnSample, is_present, nulls_in, sample_len, value_bytes};
use crate::ratio::Ratio;
use crate::ratio::frac_lt;
use crate::recommender::codec::{
    CaveatSeverity, Engine, Priority, codec_by_priority, codec_choice, engine_named, entropy_gate,
    priority_named,
};
use crate::recommender::encoding::{
    ConfidenceTier, RuleName, byte_stream_split_applies, confidence_tier, delta_applies,
    dictionary_applies, fired_rule, plain_uuid_applies, sample_is_large,
};
use crate::recommender::engine::{codec_support, overridden};
use crate::tuner::ColumnRecommendation;
use crate::tuner::explain::reasoning_chain_of;
use crate::tuner::impact::{codec_full_text, lists, predicted_reduction, saving_4830};
use crate::tuner::report::{
    ColumnResult, TuneReport, capped_fraction, engine_text, priority_text, processed, report_ready, reports,
    speedup_of,
};
use crate::profiler::metadata::FileProfile;
use crate::text::{ascii_lower_text, ascii_upper_char, ascii_upper_text, is_ascii_text, uppercase_of};
use crate::bench::{
    valid_encodings_text, BenchCase, BenchEntry, CaseView, cases_view, codec_cases, encoding_named, encodings_for_upper,
    entries_from_plan, plan_upto,
};
use crate::error::ErrorView;
use crate::advisor::{SortOrderAdvisory, sort_advises, sort_candidates};
use crate::text::{has_infix, views};

verus! {

/// The first encoding rule that applies wins: BOOLEAN columns always get RLE;
/// a monotonic integer column gets DELTA even when a dictionary would also
/// fit; a dictionary wins over BYTE_STREAM_SPLIT and UUID detection; PLAIN
/// comes only when no rule applies.
pub proof fn law_first_matching_rule_wins(p: &ColumnProfile, m: &ColumnMetaSummary)
    ensures
        m.physical_type@ == "BOOLEAN"@ ==> fired_rule(p, m) == RuleName::BooleanRle,
        m.physical_type@ != "BOOLEAN"@ && delta_applies(p, m) ==> fired_rule(p, m) == RuleName::DeltaMonotonic,
        fired_rule(p, m) == RuleName::RleDictionary <==> (m.physical_type@ != "BOOLEAN"@ && !delta_applies(p, m)
            && dictionary_applies(p, m)),
        fired_rule(p, m) == RuleName::ByteStreamSplit ==> !dictionary_applies(p, m) && byte_stream_split_applies(
            p,
            m,
        ),
        fired_rule(p, m) == RuleName::PlainUuid ==> !dictionary_applies(p, m) && !byte_stream_split_applies(p, m)
            && plain_uuid_applies(p, m),
        fired_rule(p, m) == RuleName::PlainDefault ==> !delta_applies(p, m) && !dictionary_applies(p, m)
            && !byte_stream_split_applies(p, m) && !plain_uuid_applies(p, m),
        fired_rule(p, m) != RuleName::DeltaByteArray && fired_rule(p, m) != RuleName::DeltaLengthByteArray,
{
}

/// High confidence needs at least 10% and at least 100,000 sampled rows;
/// Low confidence means under 2% and under 50,000 rows were sampled; a large
/// sample is High unless a dictionary was chosen near its cardinality threshold.
pub proof fn law_confidence_levels(p: &ColumnProfile, rule: RuleName)
    ensures
        confidence_tier(p, rule) == ConfidenceTier::High ==> sample_is_large(p),
        confidence_tier(p, rule) == ConfidenceTier::High ==> !frac_lt(p.sample_fraction@, 1, 10)
            && p.sample_rows >= 100_000,
        confidence_tier(p, rule) == ConfidenceTier::Low ==> frac_lt(p.sample_fraction@, 1, 50)
            && p.sample_rows < 50_000,
        sample_is_large(p) && rule != RuleName::RleDictionary ==> confidence_tier(p, rule)
            == ConfidenceTier::High,
{
}

/// The codec table: data that looks pre-compressed stays uncompressed;
/// otherwise Spark gets SNAPPY unless size matters most, speed gets LZ4, size
/// gets ZSTD:6 and a balanced priority ZSTD:3.
pub proof fn law_codec_table(p: &ColumnProfile, encoding: Seq<char>, priority: Priority, engine: Engine)
    ensures
        ({
            let c = codec_choice(p, encoding, priority, engine);
            &&& entropy_gate(p) ==> c.0 == "UNCOMPRESSED"@ && c.1 is None
            &&& !entropy_gate(p) && engine == Engine::Spark && priority != Priority::Size ==> c.0 == "SNAPPY"@
                && c.1 is None
            &&& !entropy_gate(p) && engine != Engine::Spark && priority == Priority::Speed ==> c.0 == "LZ4"@
                && c.1 is None
            &&& !entropy_gate(p) && priority == Priority::Size ==> c.0 == "ZSTD"@ && c.1 == Some(6i32)
            &&& !entropy_gate(p) && engine != Engine::Spark && priority == Priority::Balanced ==> c.0 == "ZSTD"@
                && c.1 == Some(3i32)
        }),
{
}

proof fn lemma_codec_names_distinct()
    ensures
        "UNCOMPRESSED"@ != "SNAPPY"@,
        "UNCOMPRESSED"@ != "LZ4"@,
        "UNCOMPRESSED"@ != "ZSTD"@,
        "SNAPPY"@ != "ZSTD"@,
        "LZ4"@ != "ZSTD"@,
        "SNAPPY"@ != "LZ4"@,
        "SNAPPY"@ != "BROTLI"@,
        "SNAPPY"@ != "GZIP"@,
        "LZ4"@ != "BROTLI"@,
        "LZ4"@ != "GZIP"@,
        "ZSTD"@ != "BROTLI"@,
        "ZSTD"@ != "GZIP"@,
        "UNCOMPRESSED"@ != "BROTLI"@,
        "UNCOMPRESSED"@ != "GZIP"@,
{
    reveal_strlit("UNCOMPRESSED");
    reveal_strlit("SNAPPY");
    reveal_strlit("LZ4");
    reveal_strlit("ZSTD");
    reveal_strlit("BROTLI");
    reveal_strlit("GZIP");
    assert("SNAPPY"@[0] != "ZSTD"@[0]);
    assert("LZ4"@[0] != "ZSTD"@[0]);
    assert("SNAPPY"@[0] != "LZ4"@[0]);
    assert("SNAPPY"@[0] != "BROTLI"@[0]);
    assert("SNAPPY"@[0] != "GZIP"@[0]);
    assert("LZ4"@[0] != "BROTLI"@[0]);
    assert("ZSTD"@[0] != "BROTLI"@[0]);
    assert("ZSTD"@[0] != "GZIP"@[0]);
}

/// Pre-compressed data, and only it, is left uncompressed.
pub proof fn law_uncompressed_iff_high_entropy(p: &ColumnProfile, encoding: Seq<char>, priority: Priority, engine: Engine)
    ensures
        (codec_choice(p, encoding, priority, engine).0 == "UNCOMPRESSED"@) <==> entropy_gate(p),
{
    lemma_codec_names_distinct();
}

/// Every codec the advisor ends with, after the engine's adjustments, is one
/// the engine reads.
pub proof fn law_recommended_codec_is_supported(p: &ColumnProfile, encoding: Seq<char>, priority: Priority, engine: Engine)
    ensures
        codec_support(engine, overridden(codec_choice(p, encoding, priority, engine), engine).0).0,
{
    lemma_codec_names_distinct();
}

/// Spark never ends with ZSTD; ClickHouse never with BROTLI or GZIP, which
/// become ZSTD at level 3.
pub proof fn law_engine_overrides_remove_unreadable_codecs(
    rec: (Seq<char>, Option<i32>, Seq<char>, Seq<(CaveatSeverity, Seq<char>)>),
    engine: Engine,
)
    ensures
        engine == Engine::Spark ==> overridden(rec, engine).0 != "ZSTD"@,
        engine == Engine::ClickHouse ==> overridden(rec, engine).0 != "BROTLI"@ && overridden(rec, engine).0
            != "GZIP"@,
        engine == Engine::ClickHouse && (rec.0 == "BROTLI"@ || rec.0 == "GZIP"@) ==> overridden(rec, engine).0
            == "ZSTD"@ && overridden(rec, engine).1 == Some(3i32),
{
    lemma_codec_names_distinct();
}

/// Adjusting for the engine twice is adjusting once.
pub proof fn law_engine_overrides_idempotent(
    rec: (Seq<char>, Option<i32>, Seq<char>, Seq<(CaveatSeverity, Seq<char>)>),
    engine: Engine,
)
    ensures
        overridden(overridden(rec, engine), engine) == overridden(rec, engine),
{
    lemma_codec_names_distinct();
}

proof fn lemma_engine_names_distinct()
    ensures
        engine_named(engine_text(Engine::Spark)) == Engine::Spark,
        engine_named(engine_text(Engine::DuckDB)) == Engine::DuckDB,
        engine_named(engine_text(Engine::Polars)) == Engine::Polars,
        engine_named(engine_text(Engine::ClickHouse)) == Engine::ClickHouse,
        engine_named(engine_text(Engine::Pandas)) == Engine::Pandas,
        engine_named(engine_text(Engine::Unknown)) == Engine::Unknown,
{
    reveal_strlit("spark");
    reveal_strlit("duckdb");
    reveal_strlit("polars");
    reveal_strlit("clickhouse");
    reveal_strlit("pandas");
    reveal_strlit("unknown");
    assert("duckdb"@[0] != "spark"@[0]);
    assert("polars"@[0] != "spark"@[0] && "polars"@[0] != "duckdb"@[0]);
    assert("clickhouse"@.len() != "spark"@.len() && "clickhouse"@[0] != "duckdb"@[0] && "clickhouse"@[0]
        != "polars"@[0]);
    assert("pandas"@[0] != "spark"@[0] && "pandas"@[0] != "duckdb"@[0] && "pandas"@[1] != "polars"@[1]
        && "pandas"@[0] != "clickhouse"@[0]);
    assert("unknown"@[0] != "spark"@[0] && "unknown"@[0] != "duckdb"@[0] && "unknown"@[0] != "polars"@[0]
        && "unknown"@[0] != "clickhouse"@[0] && "unknown"@[0] != "pandas"@[0]);
}

proof fn lemma_lowercase_word(t: Seq<char>)
    requires
        forall|i: int| 0 <= i < t.len() ==> 'a' <= #[trigger] t[i] && t[i] <= 'z',
    ensures
        is_ascii_text(t),
        ascii_lower_text(t) == t,
{
    assert(ascii_lower_text(t) =~= t);
}

proof fn lemma_engine_names_lowercase(e: Engine)
    ensures
        is_ascii_text(engine_text(e)),
        ascii_lower_text(engine_text(e)) == engine_text(e),
{
    reveal_strlit("spark");
    reveal_strlit("duckdb");
    reveal_strlit("polars");
    reveal_strlit("clickhouse");
    reveal_strlit("pandas");
    reveal_strlit("unknown");
    lemma_lowercase_word(engine_text(e));
}

/// An engine's reported name reads back as the same engine, also through
/// `Engine::from_str`: the name is ASCII and lowercase, so lowercasing it
/// first changes nothing.
pub proof fn law_engine_name_round_trip(e: Engine)
    ensures
        engine_named(engine_text(e)) == e,
        is_ascii_text(engine_text(e)),
        engine_named(ascii_lower_text(engine_text(e))) == e,
{
    lemma_engine_names_distinct();
    lemma_engine_names_lowercase(e);
}

/// A priority's reported name reads back as the same priority, also through
/// `Priority::from_str`.
pub proof fn law_priority_name_round_trip(p: Priority)
    ensures
        priority_named(priority_text(p)) == p,
        is_ascii_text(priority_text(p)),
        priority_named(ascii_lower_text(priority_text(p))) == p,
{
    reveal_strlit("size");
    reveal_strlit("speed");
    reveal_strlit("balanced");
    assert("speed"@[1] != "size"@[1]);
    assert("balanced"@[0] != "size"@[0] && "balanced"@[0] != "speed"@[0]);
    lemma_lowercase_word(priority_text(p));
}

/// The predicted size reduction is between 0 and 90 percent.
pub proof fn law_predicted_reduction_in_range(recs: Seq<ColumnRecommendation>, cols: Seq<ColumnMetaSummary>)
    requires
        sum_uncompressed(cols) <= 0x7fff_ffff_ffff_ffff,
    ensures
        ({
            let p = predicted_reduction(recs, cols);
            &&& p.1 > 0
            &&& 0 <= p.0
            &&& p.0 <= 90 * p.1
        }),
{
    crate::tuner::impact::lemma_reduction_bounds(recs, cols);
}

/// The aggregated encodings are sorted, without repeats or level encodings,
/// and each is listed by some row group.
pub proof fn law_aggregate_encodings_are_data_encodings(per_rg: Seq<Vec<String>>)
    requires
        data_encodings(per_rg).finite(),
    ensures
        strictly_sorted(sorted_list_of(data_encodings(per_rg))),
        forall|k: int|
            0 <= k < sorted_list_of(data_encodings(per_rg)).len() ==> {
                let e = #[trigger] sorted_list_of(data_encodings(per_rg))[k];
                &&& !is_level_encoding_text(e)
                &&& exists|i: int| 0 <= i < per_rg.len() && rg_data_encodings(per_rg[i]@).contains(e)
            },
{
    crate::order::lemma_sorted_list_exists(data_encodings(per_rg));
    let v = sorted_list_of(data_encodings(per_rg));
    assert forall|k: int| 0 <= k < v.len() implies {
        let e = #[trigger] v[k];
        &&& !is_level_encoding_text(e)
        &&& exists|i: int| 0 <= i < per_rg.len() && rg_data_encodings(per_rg[i]@).contains(e)
    } by {
        assert(v.to_set().contains(v[k]));
        assert(data_encodings(per_rg).contains(v[k]));
        let i = choose|i: int| 0 <= i < per_rg.len() && #[trigger] rg_data_encodings(per_rg[i]@).contains(v[k]);
        assert(rg_data_encodings(per_rg[i]@).contains(v[k]));
    }
}

/// With two or more row groups, the variance summary is absent exactly when
/// every row group has the same data encodings.
pub proof fn law_variance_summary_absent_iff_uniform(per_rg: Seq<Vec<String>>)
    requires
        per_rg.len() >= 2,
    ensures
        variance_summary(per_rg) is None <==> (forall|i: int, j: int|
            0 <= i < per_rg.len() && 0 <= j < per_rg.len() ==> #[trigger] filtered_sets(per_rg)[i]
                == #[trigger] filtered_sets(per_rg)[j]),
{
    let f = filtered_sets(per_rg);
    if forall|i: int| 0 <= i < f.len() ==> #[trigger] f[i] == f[0] {
        assert forall|i: int, j: int| 0 <= i < per_rg.len() && 0 <= j < per_rg.len() implies #[trigger] f[i]
            == #[trigger] f[j] by {
            assert(f[i] == f[0]);
            assert(f[j] == f[0]);
        }
    }
}

/// A column is diagnosed a match only when its current encodings include the
/// recommended one and its codec (with level) is the recommended one.
pub proof fn law_match_means_aligned(meta: &ColumnMetaSummary, rec: &ColumnRecommendation)
    ensures
        diagnosis(meta, rec).0 == DiagnosticStatus::Match ==> current_set(meta).contains(rec.recommended_encoding@)
            && meta.codec@ == codec_full_text(rec.recommended_codec@, rec.recommended_codec_level),
{
}

/// The explanation lists eight rules, and exactly the one that won is marked fired.
pub proof fn law_explanation_marks_the_winning_rule(p: &ColumnProfile, rule: RuleName)
    ensures
        reasoning_chain_of(p, rule).len() == 8,
        forall|k: int|
            0 <= k < 8 ==> ((#[trigger] reasoning_chain_of(p, rule)[k]).2 <==> k == rule_position(rule)),
{
    let c = reasoning_chain_of(p, rule);
    assert(c[0].2 == (rule == RuleName::BooleanRle));
    assert(c[1].2 == (rule == RuleName::DeltaMonotonic));
    assert(c[2].2 == (rule == RuleName::RleDictionary));
    assert(c[3].2 == (rule == RuleName::ByteStreamSplit));
    assert(c[4].2 == (rule == RuleName::PlainUuid));
    assert(c[5].2 == (rule == RuleName::DeltaByteArray));
    assert(c[6].2 == (rule == RuleName::DeltaLengthByteArray));
    assert(c[7].2 == (rule == RuleName::PlainDefault));
    assert forall|k: int| 0 <= k < 8 implies ((#[trigger] c[k]).2 <==> k == rule_position(rule)) by {
        if k == 0 {
        } else if k == 1 {
        } else if k == 2 {
        } else if k == 3 {
        } else if k == 4 {
        } else if k == 5 {
        } else if k == 6 {
        } else {
            assert(k == 7);
        }
    }
}

/// Where a rule stands in the explanation.
pub open spec fn rule_position(rule: RuleName) -> int {
    match rule {
        RuleName::BooleanRle => 0,
        RuleName::DeltaMonotonic => 1,
        RuleName::RleDictionary => 2,
        RuleName::ByteStreamSplit => 3,
        RuleName::PlainUuid => 4,
        RuleName::DeltaByteArray => 5,
        RuleName::DeltaLengthByteArray => 6,
        RuleName::PlainDefault => 7,
    }
}

} // verus!

verus! {

proof fn lemma_uppercase_word(t: Seq<char>)
    requires
        forall|i: int| 0 <= i < t.len() ==> ('A' <= #[trigger] t[i] && t[i] <= 'Z') || t[i] == '_',
    ensures
        is_ascii_text(t),
        ascii_upper_text(t) == t,
{
    assert(ascii_upper_text(t) =~= t);
}

proof fn lemma_encodings_for_upper(u: Seq<char>, t: Seq<char>)
    ensures
        encodings_for_upper(u).len() >= 1,
        encodings_for_upper(u)[0] == "PLAIN"@,
        forall|i: int, j: int|
            0 <= i < j < encodings_for_upper(u).len() ==> #[trigger] encodings_for_upper(u)[i]
                != #[trigger] encodings_for_upper(u)[j],
        forall|i: int|
            0 <= i < encodings_for_upper(u).len() ==> is_ascii_text(#[trigger] encodings_for_upper(u)[i])
                && encoding_named(ascii_upper_text(encodings_for_upper(u)[i])) is Ok,
        !(u == "INT32"@ || u == "INT64"@ || u == "BYTE_ARRAY"@ || u == "FLOAT"@ || u == "DOUBLE"@)
            ==> encodings_for_upper(u) == seq!["PLAIN"@],
        is_ascii_text(t) ==> is_ascii_text(ascii_upper_text(t)) && ascii_upper_text(ascii_upper_text(t))
            == ascii_upper_text(t),
{
    reveal_strlit("PLAIN");
    reveal_strlit("DELTA_BINARY_PACKED");
    reveal_strlit("RLE_DICTIONARY");
    reveal_strlit("BYTE_STREAM_SPLIT");
    lemma_uppercase_word("PLAIN"@);
    lemma_uppercase_word("DELTA_BINARY_PACKED"@);
    lemma_uppercase_word("RLE_DICTIONARY"@);
    lemma_uppercase_word("BYTE_STREAM_SPLIT"@);
    assert("PLAIN"@[0] != "DELTA_BINARY_PACKED"@[0]);
    assert("PLAIN"@[0] != "RLE_DICTIONARY"@[0]);
    assert("PLAIN"@[0] != "BYTE_STREAM_SPLIT"@[0]);
    assert("DELTA_BINARY_PACKED"@[0] != "RLE_DICTIONARY"@[0]);
    let v = encodings_for_upper(u);
    assert forall|i: int| 0 <= i < v.len() implies is_ascii_text(#[trigger] v[i])
        && encoding_named(ascii_upper_text(v[i])) is Ok by {
    }
    if is_ascii_text(t) {
        let up = ascii_upper_text(t);
        assert(is_ascii_text(up)) by {
            assert forall|i: int| 0 <= i < up.len() implies (#[trigger] up[i] as u32) < 128 by {
                assert(up[i] == ascii_upper_char(t[i]));
                assert((t[i] as u32) < 128);
            }
        }
        assert(ascii_upper_text(up) =~= up) by {
            assert forall|i: int| 0 <= i < up.len() implies #[trigger] ascii_upper_text(up)[i] == up[i] by {
                assert(up[i] == ascii_upper_char(t[i]));
            }
        }
    }
}

proof fn lemma_codec_cases_shape(codecs: Seq<(String, Option<i32>)>, k: nat)
    requires
        k <= codecs.len(),
        codec_cases(codecs, k) is Ok,
    ensures
        codec_cases(codecs, k)->Ok_0.len() == k,
        forall|j: int|
            0 <= j < k ==> (#[trigger] codec_cases(codecs, k)->Ok_0[j]).0 == codecs[j].0@
                && codec_cases(codecs, k)->Ok_0[j].1 == codecs[j].1,
    decreases k,
{
    if k > 0 {
        lemma_codec_cases_shape(codecs, (k - 1) as nat);
    }
}

proof fn lemma_plan_shape(encs: Seq<String>, codecs: Seq<(String, Option<i32>)>, n: nat)
    requires
        n <= encs.len(),
        plan_upto(encs, codecs, n) is Ok,
    ensures
        plan_upto(encs, codecs, n)->Ok_0.len() == n * codecs.len(),
        forall|i: int, j: int|
            0 <= i < n && 0 <= j < codecs.len() ==> {
                let c = #[trigger] plan_upto(encs, codecs, n)->Ok_0[i * codecs.len() + j];
                &&& c.0 == encs[i]@
                &&& c.2 == codecs[j].0@
                &&& c.3 == codecs[j].1
            },
    decreases n,
{
    if n > 0 {
        let m = (n - 1) as nat;
        lemma_plan_shape(encs, codecs, m);
        let cs = codec_cases(codecs, codecs.len());
        lemma_codec_cases_shape(codecs, codecs.len());
        let prev = plan_upto(encs, codecs, m)->Ok_0;
        let all = plan_upto(encs, codecs, n)->Ok_0;
        let w = codecs.len() as int;
        assert(m * w + w == n * w) by (nonlinear_arith)
            requires m + 1 == n;
        assert forall|i: int, j: int| 0 <= i < n && 0 <= j < w implies {
            let c = #[trigger] all[i * w + j];
            &&& c.0 == encs[i]@
            &&& c.2 == codecs[j].0@
            &&& c.3 == codecs[j].1
        } by {
            if i < m {
                assert(i * w + j < m * w) by (nonlinear_arith)
                    requires i < m, 0 <= j < w, 0 <= i;
                assert(all[i * w + j] == prev[i * w + j]);
            } else {
                let ek = crate::bench::encoding_parse(encs[m as int]@)->Ok_0;
                let c = cs->Ok_0[j];
                assert(i * w + j == m * w + j) by (nonlinear_arith)
                    requires i == m;
                assert(all[i * w + j] == (encs[m as int]@, ek, c.0, c.1, c.2));
            }
        }
    }
}

/// `a` is `b` reordered: `a[k]` is `b[p[k]]`, each position of `b` used once.
proof fn lemma_reordered_multiset<A>(a: Seq<A>, b: Seq<A>, p: Seq<int>)
    requires
        a.len() == b.len(),
        p.len() == a.len(),
        forall|k: int| 0 <= k < a.len() ==> 0 <= #[trigger] p[k] < b.len() && a[k] == b[p[k]],
        forall|k: int, l: int| 0 <= k < l < a.len() ==> #[trigger] p[k] != #[trigger] p[l],
    ensures
        a.to_multiset() == b.to_multiset(),
    decreases a.len(),
{
    if a.len() == 0 {
        assert(a =~= b);
    } else {
        let n = a.len() - 1;
        let j = p[n];
        let a1 = a.drop_last();
        let b1 = b.remove(j);
        let p1 = Seq::new(n as nat, |k: int| if p[k] < j { p[k] } else { p[k] - 1 });
        assert forall|k: int| 0 <= k < a1.len() implies 0 <= #[trigger] p1[k] < b1.len() && a1[k] == b1[p1[k]] by {
            assert(p[k] != p[n]);
        }
        assert forall|k: int, l: int| 0 <= k < l < a1.len() implies #[trigger] p1[k] != #[trigger] p1[l] by {
            assert(p[k] != p[n] && p[l] != p[n] && p[k] != p[l]);
        }
        lemma_reordered_multiset(a1, b1, p1);
        assert(a1.push(a[n]) =~= a);
        vstd::seq_lib::to_multiset_build(a1, a[n]);
        assert(b1.insert(j, b[j]) =~= b);
        vstd::seq_lib::to_multiset_insert(b1, j, b[j]);
    }
}

/// Every encoding with every codec, encoding by encoding, as
/// `(encoding, codec, level)`.
pub open spec fn planned_pairs(encs: Seq<String>, codecs: Seq<(String, Option<i32>)>) -> Seq<
    (Seq<char>, Seq<char>, Option<i32>),
> {
    let w = codecs.len() as int;
    Seq::new(
        (encs.len() * codecs.len()) as nat,
        |c: int| (encs[c / w]@, codecs[c % w].0@, codecs[c % w].1),
    )
}

/// The encoding, codec and level an entry measured.
pub open spec fn entry_key(e: BenchEntry) -> (Seq<char>, Seq<char>, Option<i32>) {
    (e.encoding@, e.codec@, e.codec_level)
}

/// A benchmark measures every encoding with every codec exactly once and
/// lists the entries smallest output first: given the plan `plan_benchmark`
/// made and the result `assemble_benchmark` built from it, there are
/// `encodings × codecs` entries, their sizes never decrease, and the
/// encoding, codec and level they carry are, counted with repeats, exactly
/// the pairs of an encoding with a codec.
pub proof fn law_benchmark_covers_plan(
    encs: Seq<String>,
    codecs: Seq<(String, Option<i32>)>,
    plan: Seq<BenchCase>,
    measured: Seq<(usize, u64, u64)>,
    u: usize,
    r: Seq<BenchEntry>,
)
    requires
        plan_upto(encs, codecs, encs.len()) == Ok::<Seq<CaseView>, ErrorView>(cases_view(plan)),
        exists|p: Seq<int>| entries_from_plan(r, plan, measured, u, p),
    ensures
        plan.len() == encs.len() * codecs.len(),
        r.len() == encs.len() * codecs.len(),
        forall|k: int, l: int|
            0 <= k < l < r.len() ==> (#[trigger] r[k]).compressed_bytes <= (#[trigger] r[l]).compressed_bytes,
        r.map_values(|e: BenchEntry| entry_key(e)).to_multiset() == planned_pairs(encs, codecs).to_multiset(),
{
    let p = choose|p: Seq<int>| entries_from_plan(r, plan, measured, u, p);
    let n = encs.len();
    let w = codecs.len() as int;
    lemma_plan_shape(encs, codecs, n);
    assert(cases_view(plan).len() == plan.len());
    let keys = r.map_values(|e: BenchEntry| entry_key(e));
    let pairs = planned_pairs(encs, codecs);
    assert forall|k: int| 0 <= k < keys.len() implies 0 <= #[trigger] p[k] < pairs.len() && keys[k] == pairs[p[k]] by {
        let c = p[k];
        assert(0 <= c < n * w);
        assert(w > 0) by (nonlinear_arith)
            requires 0 <= c < n * w, n >= 0;
        let i = c / w;
        let j = c % w;
        assert(c == i * w + j && 0 <= j < w && 0 <= i < n) by (nonlinear_arith)
            requires 0 <= c < n * w, w > 0, i == c / w, j == c % w;
        assert(cases_view(plan)[c] == plan[c]@);
        assert(keys[k] == entry_key(r[k]));
    }
    assert forall|k: int, l: int| 0 <= k < l < keys.len() implies #[trigger] p[k] != #[trigger] p[l] by {
    }
    lemma_reordered_multiset(keys, pairs, p);
}

/// A report built from profiles names its engine and priority, counts its
/// columns and holds one profile per recommended column, predicts a size
/// reduction between 0 and 90 percent and a read speedup of
/// `1 + 0.7 * pct / 100`, has sampled at most the whole file, and carries a
/// full explanation on a column exactly when `explain` is `full`.
pub proof fn law_report_summary(
    fp: &FileProfile,
    profiles: Seq<ColumnProfile>,
    engine: Engine,
    priority: Priority,
    explain: Seq<char>,
    r: TuneReport,
)
    requires
        report_ready(fp),
        exists|results: Seq<ColumnResult>|
            {
                &&& #[trigger] processed(results, profiles, fp.columns@, engine, priority, explain)
                &&& reports(
                    r,
                    fp.path@,
                    fp,
                    results,
                    engine,
                    priority,
                    capped_fraction(
                        if profiles.len() > 0 { profiles[0].sample_rows as int } else { 0 },
                        fp.num_rows as int,
                    ),
                )
            },
    ensures
        r.engine@ == engine_text(engine),
        r.priority@ == priority_text(priority),
        r.num_columns == r.columns@.len(),
        r.column_profiles@.len() == r.columns@.len(),
        ({
            let pct = r.predicted_size_reduction_pct@;
            &&& pct.1 > 0
            &&& 0 <= pct.0 <= 90 * pct.1
        }),
        r.predicted_read_speedup@ == speedup_of(r.predicted_size_reduction_pct@),
        ({
            let f = r.sample_fraction@;
            &&& f.1 > 0
            &&& 0 <= f.0 <= f.1
        }),
        forall|k: int|
            0 <= k < r.columns@.len() ==> ((#[trigger] r.columns@[k]).full_explain is Some <==> explain
                == "full"@),
{
    let results = choose|results: Seq<ColumnResult>|
        {
            &&& #[trigger] processed(results, profiles, fp.columns@, engine, priority, explain)
            &&& reports(
                r,
                fp.path@,
                fp,
                results,
                engine,
                priority,
                capped_fraction(
                    if profiles.len() > 0 { profiles[0].sample_rows as int } else { 0 },
                    fp.num_rows as int,
                ),
            )
        };
    let recs = results.map_values(|t: ColumnResult| t.0);
    law_predicted_reduction_in_range(recs, fp.columns@);
    assert forall|k: int| 0 <= k < r.columns@.len() implies ((#[trigger] r.columns@[k]).full_explain is Some
        <==> explain == "full"@) by {
        assert(r.columns@[k] == results[k].0);
        // Naming the k-th pair brings in what `processed` says of result k.
        let pr = crate::tuner::report::processed_pairs(profiles, fp.columns@)[k];
    }
}

/// The encodings `valid_encodings_for_type` gives for a type name `t`: PLAIN
/// comes first, none is listed twice, each is an ASCII name that
/// `parse_encoding` reads, and a type whose uppercase is not INT32, INT64,
/// BYTE_ARRAY, FLOAT or DOUBLE gets PLAIN alone. For an ASCII name the list is
/// the one given for its uppercase, since uppercasing that again changes
/// nothing.
pub proof fn law_valid_encodings(t: Seq<char>, v: Seq<Seq<char>>)
    requires
        v == valid_encodings_text(t),
        is_ascii_text(t) ==> v == encodings_for_upper(ascii_upper_text(t)),
    ensures
        v.len() >= 1,
        v[0] == "PLAIN"@,
        forall|i: int, j: int| 0 <= i < j < v.len() ==> #[trigger] v[i] != #[trigger] v[j],
        forall|i: int|
            0 <= i < v.len() ==> is_ascii_text(#[trigger] v[i]) && encoding_named(ascii_upper_text(v[i])) is Ok,
        ({
            let u = uppercase_of(t);
            !(u == "INT32"@ || u == "INT64"@ || u == "BYTE_ARRAY"@ || u == "FLOAT"@ || u == "DOUBLE"@)
                ==> v == seq!["PLAIN"@]
        }),
        is_ascii_text(t) ==> {
            let up = ascii_upper_text(t);
            &&& is_ascii_text(up)
            &&& v == encodings_for_upper(ascii_upper_text(up))
        },
{
    lemma_encodings_for_upper(uppercase_of(t), t);
}

/// The report's overall confidence is its weakest column's: Low when some
/// column is Low, otherwise Medium when some column is Medium, otherwise High.
pub proof fn law_overall_confidence_is_lowest(
    r: TuneReport,
    file_path: Seq<char>,
    fp: &FileProfile,
    results: Seq<ColumnResult>,
    engine: Engine,
    priority: Priority,
    sample_fraction: (int, int),
)
    requires
        reports(r, file_path, fp, results, engine, priority, sample_fraction),
    ensures
        (exists|k: int| 0 <= k < r.columns@.len() && #[trigger] r.columns@[k].confidence@ == "Low"@)
            ==> r.overall_confidence@ == "Low"@,
        !(exists|k: int| 0 <= k < r.columns@.len() && #[trigger] r.columns@[k].confidence@ == "Low"@) && (exists|
            k: int,
        | 0 <= k < r.columns@.len() && #[trigger] r.columns@[k].confidence@ == "Medium"@)
            ==> r.overall_confidence@ == "Medium"@,
        (forall|k: int|
            0 <= k < r.columns@.len() ==> #[trigger] r.columns@[k].confidence@ != "Low"@ && r.columns@[k].confidence@
                != "Medium"@) ==> r.overall_confidence@ == "High"@,
{
}

/// DuckDB, Polars and Pandas read SNAPPY, ZSTD, LZ4, BROTLI, GZIP and
/// UNCOMPRESSED with no minimum version and no note, and no other codec.
pub proof fn law_common_engines_read_common_codecs(e: Engine, c: Seq<char>)
    requires
        e == Engine::DuckDB || e == Engine::Polars || e == Engine::Pandas,
    ensures
        c == "SNAPPY"@ || c == "ZSTD"@ || c == "LZ4"@ || c == "BROTLI"@ || c == "GZIP"@ || c == "UNCOMPRESSED"@
            ==> codec_support(e, c) == (true, None::<Seq<char>>, None::<Seq<char>>),
        !(c == "SNAPPY"@ || c == "ZSTD"@ || c == "LZ4"@ || c == "BROTLI"@ || c == "GZIP"@ || c == "UNCOMPRESSED"@)
            ==> !codec_support(e, c).0,
{
}

/// A column whose encodings already include RLE_DICTIONARY or
/// DELTA_BINARY_PACKED gains nothing from a new encoding: its saving is the
/// codec change alone, 630/4830 (`1 - 1/1.15`) when the codec changes and
/// nothing otherwise, whatever rule fired.
pub proof fn law_encoded_column_saves_codec_change_only(rec: &ColumnRecommendation, m: ColumnMetaSummary)
    requires
        exists|i: int|
            0 <= i < m.encodings@.len() && (#[trigger] m.encodings@[i]@ == "RLE_DICTIONARY"@ || m.encodings@[i]@
                == "DELTA_BINARY_PACKED"@),
    ensures
        saving_4830(rec, m) == if m.codec@ != rec.recommended_codec@ { 630int } else { 0int },
        saving_4830(rec, m) <= 630,
{
    let i = choose|i: int|
        0 <= i < m.encodings@.len() && (#[trigger] m.encodings@[i]@ == "RLE_DICTIONARY"@ || m.encodings@[i]@
            == "DELTA_BINARY_PACKED"@);
    if m.encodings@[i]@ == "RLE_DICTIONARY"@ {
        assert(lists(m.encodings@, "RLE_DICTIONARY"@));
    } else {
        assert(lists(m.encodings@, "DELTA_BINARY_PACKED"@));
    }
}

/// A profile looks sorted: monotonicity above 0.95 (19/20), on an INT64
/// column or one whose logical type mentions TIMESTAMP.
pub open spec fn looks_sorted(cp: ColumnProfile) -> bool {
    &&& cp.monotonicity_score is Some
    &&& cp.monotonicity_score->0@.0 * 20 > 19 * cp.monotonicity_score->0@.1
    &&& (cp.physical_type@ == "INT64"@ || (cp.logical_type is Some && has_infix(
        cp.logical_type->0@,
        "TIMESTAMP"@,
    )))
}

/// Positions of the profiles that look sorted, in order.
spec fn sorted_positions(v: Seq<ColumnProfile>) -> Seq<int>
    decreases v.len(),
{
    if v.len() == 0 {
        seq![]
    } else {
        let before = sorted_positions(v.drop_last());
        if looks_sorted(v.last()) {
            before.push(v.len() - 1)
        } else {
            before
        }
    }
}

proof fn lemma_sorted_positions(v: Seq<ColumnProfile>)
    ensures
        ({
            let c = sort_candidates(v);
            let idx = sorted_positions(v);
            &&& idx.len() == c.len()
            &&& forall|k: int|
                0 <= k < c.len() ==> 0 <= #[trigger] idx[k] < v.len() && c[k] == v[idx[k]].column_name@
                    && looks_sorted(v[idx[k]])
            &&& forall|k: int, l: int| 0 <= k < l < c.len() ==> #[trigger] idx[k] < #[trigger] idx[l]
            &&& forall|i: int| 0 <= i < v.len() && #[trigger] looks_sorted(v[i]) ==> exists|k: int|
                0 <= k < idx.len() && #[trigger] idx[k] == i
        }),
    decreases v.len(),
{
    if v.len() > 0 {
        let w = v.drop_last();
        lemma_sorted_positions(w);
        let n = v.len() - 1;
        assert(looks_sorted(v.last()) == crate::advisor::sort_candidate(v.last()));
        let c = sort_candidates(v);
        let idx = sorted_positions(v);
        let ib = sorted_positions(w);
        assert forall|k: int| 0 <= k < c.len() implies 0 <= #[trigger] idx[k] < v.len() && c[k]
            == v[idx[k]].column_name@ && looks_sorted(v[idx[k]]) by {
            if k < ib.len() {
                assert(idx[k] == ib[k]);
                assert(w[ib[k]] == v[ib[k]]);
            }
        }
        assert forall|i: int| 0 <= i < v.len() && #[trigger] looks_sorted(v[i]) implies exists|k: int|
            0 <= k < idx.len() && #[trigger] idx[k] == i by {
            if i < n {
                assert(w[i] == v[i]);
                assert(looks_sorted(w[i]));
                let k = choose|k: int| 0 <= k < ib.len() && #[trigger] ib[k] == i;
                assert(idx[k] == i);
            } else {
                assert(idx[idx.len() - 1] == i);
            }
        }
    }
}

/// The sort-order advisory lists exactly the profiles that look sorted
/// (monotonicity above 0.95 on INT64 or a TIMESTAMP column), by name, each
/// once, in the order the profiles come.
pub proof fn law_sort_candidates_are_sorted_looking(a: SortOrderAdvisory, v: Seq<ColumnProfile>)
    requires
        sort_advises(a, v),
    ensures
        exists|idx: Seq<int>|
            #![trigger idx.len()]
            {
                let c = views(a.inferred_sort_candidates@);
                &&& idx.len() == c.len()
                &&& forall|k: int|
                    0 <= k < c.len() ==> 0 <= #[trigger] idx[k] < v.len() && c[k] == v[idx[k]].column_name@
                        && looks_sorted(v[idx[k]])
                &&& forall|k: int, l: int| 0 <= k < l < c.len() ==> #[trigger] idx[k] < #[trigger] idx[l]
                &&& forall|i: int| 0 <= i < v.len() && #[trigger] looks_sorted(v[i]) ==> exists|k: int|
                    0 <= k < idx.len() && #[trigger] idx[k] == i
            },
{
    lemma_sorted_positions(v);
    let idx = sorted_positions(v);
    assert(views(a.inferred_sort_candidates@) == sort_candidates(v));
}

/// Under 50,000 present values a profile counts distinct values exactly: the
/// estimate is the number of different byte strings standing for the values
/// present (so two values count once only when all their bytes agree), and
/// the cardinality ratio is that number over the values present.
pub proof fn law_exact_cardinality(p: ColumnProfile, s: &ColumnSample, hll_estimate: Option<u64>, byte_entropy: Option<Ratio>)
    requires
        profiles(p, s, hll_estimate, byte_entropy),
        sample_len(&s.values) - nulls_in(&s.values, sample_len(&s.values)) < 50_000,
    ensures
        p.cardinality_method@ == "exact"@,
        ({
            let seen = Set::new(
                |b: Seq<u8>|
                    exists|i: int|
                        0 <= i < sample_len(&s.values) && is_present(&s.values, i) && #[trigger] value_bytes(s, i) == b,
            );
            &&& seen.finite()
            &&& p.cardinality_estimate == seen.len()
        }),
        ({
            let non_null = sample_len(&s.values) - nulls_in(&s.values, sample_len(&s.values));
            non_null > 0 ==> p.cardinality_ratio@ == (p.cardinality_estimate as int, non_null)
        }),
{
    let seen = Set::new(
        |b: Seq<u8>|
            exists|i: int| 0 <= i < sample_len(&s.values) && is_present(&s.values, i) && #[trigger] value_bytes(s, i) == b,
    );
    assert(seen =~= crate::profiler::stats::present_values(s));
}

} // verus!
