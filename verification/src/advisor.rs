//! File-level advice: whether row groups have the size an engine reads best,
//! and which columns look sorted.

use vstd::prelude::*;
use crate::profiler::metadata::FileProfile;
use crate::profiler::stats::ColumnProfile;
use crate::ratio::{Ratio, fixed_text, frac_le, frac_lt, ratio_bound};
use crate::recommender::codec::Engine;
use crate::text::{contains, has_infix, join, join_strings, nat_text, push_nat, str_eq, text, views};

verus! {

/// Row-group sizes against what the engine reads best. Sizes are in MiB.
pub struct RowGroupAdvisory {
    pub current_avg_mb: Ratio,
    pub current_min_mb: Ratio,
    pub current_max_mb: Ratio,
    pub recommended_range_mb: (u64, u64),
    pub workload_label: String,
    pub is_within_recommendation: bool,
    pub advice: String,
}

/// Columns that are declared or look sorted, and what to do about it.
pub struct SortOrderAdvisory {
    pub declared_sort_columns: Vec<String>,
    pub inferred_sort_candidates: Vec<String>,
    pub advice: String,
}

/// The row-group size range (MiB) an engine reads best, and its label.
pub open spec fn engine_range(engine: Engine) -> ((u64, u64), Seq<char>) {
    match engine {
        Engine::DuckDB => ((64u64, 128u64), "DuckDB"@),
        Engine::Spark => ((128u64, 512u64), "Spark"@),
        Engine::ClickHouse => ((64u64, 256u64), "ClickHouse"@),
        Engine::Polars => ((64u64, 128u64), "Polars"@),
        Engine::Pandas => ((64u64, 128u64), "Pandas"@),
        Engine::Unknown => ((64u64, 256u64), "general workloads"@),
    }
}

pub fn recommended_range_for_engine(engine: &Engine) -> (r: ((u64, u64), String))
    ensures
        (r.0, r.1@) == engine_range(*engine),
{
    match engine {
        Engine::DuckDB => ((64, 128), text("DuckDB")),
        Engine::Spark => ((128, 512), text("Spark")),
        Engine::ClickHouse => ((64, 256), text("ClickHouse")),
        Engine::Polars => ((64, 128), text("Polars")),
        Engine::Pandas => ((64, 128), text("Pandas")),
        Engine::Unknown => ((64, 256), text("general workloads")),
    }
}

pub open spec fn sum_u64(s: Seq<u64>) -> int
    decreases s.len(),
{
    if s.len() == 0 { 0 } else { sum_u64(s.drop_last()) + s.last() }
}

pub open spec fn min_u64(s: Seq<u64>) -> int
    decreases s.len(),
{
    if s.len() <= 1 {
        s[0] as int
    } else {
        let m = min_u64(s.drop_last());
        if (s.last() as int) < m { s.last() as int } else { m }
    }
}

pub open spec fn max_u64(s: Seq<u64>) -> int
    decreases s.len(),
{
    if s.len() <= 1 {
        s[0] as int
    } else {
        let m = max_u64(s.drop_last());
        if (s.last() as int) > m { s.last() as int } else { m }
    }
}

pub open spec fn mib() -> int {
    1_048_576
}

/// The advice on the average row-group size against the engine's range.
pub open spec fn row_group_advice(avg: (int, int), engine: Engine) -> Seq<char> {
    let ((lo, hi), label) = engine_range(engine);
    let shown = fixed_text(avg.0, avg.1, 0);
    let range = nat_text(lo as nat) + "–"@ + nat_text(hi as nat);
    if !frac_lt(avg, lo as int, 1) && frac_le(avg, hi as int, 1) {
        "Row group size "@ + shown + " MB is within the "@ + range + " MB recommendation for "@ + label + "."@
    } else if frac_lt(avg, lo as int, 1) {
        "Row group size "@ + shown + " MB is below the "@ + range + " MB recommendation for "@ + label
            + ". Small row groups reduce compression effectiveness and increase predicate pushdown overhead."@
    } else {
        "Row group size "@ + shown + " MB exceeds the "@ + range + " MB recommendation for "@ + label
            + ". Large row groups may cause excessive memory pressure during scans."@
    }
}

/// `a` compares the average compressed size of the row groups (in MiB) with
/// the engine's range: the sizes, whether the average is within the range, and
/// the advice saying so (or that there is no row group).
pub open spec fn row_group_advises(a: RowGroupAdvisory, profile: &FileProfile, engine: Engine) -> bool {
    let b = profile.row_group_compressed_bytes@;
    let n = b.len() as int;
    &&& (a.recommended_range_mb, a.workload_label@) == engine_range(engine)
    &&& if n == 0 {
        &&& a.current_avg_mb@ == (0int, 1int)
        &&& a.current_min_mb@ == (0int, 1int)
        &&& a.current_max_mb@ == (0int, 1int)
        &&& a.is_within_recommendation
        &&& a.advice@ == "No row group data available."@
    } else {
        let avg = (sum_u64(b), n * mib());
        let (lo, hi) = a.recommended_range_mb;
        &&& a.current_avg_mb@ == avg
        &&& a.current_min_mb@ == (min_u64(b), mib())
        &&& a.current_max_mb@ == (max_u64(b), mib())
        &&& a.is_within_recommendation == (!frac_lt(avg, lo as int, 1) && frac_le(avg, hi as int, 1))
        &&& a.advice@ == row_group_advice(avg, engine)
    }
}

/// Compares the average compressed size of the row groups (in MiB) with the
/// engine's range; the advice says whether it is within, below or above.
pub fn analyze_row_groups(profile: &FileProfile, engine: &Engine) -> (a: RowGroupAdvisory)
    requires
        sum_u64(profile.row_group_compressed_bytes@) <= ratio_bound(),
    ensures
        row_group_advises(a, profile, *engine),
{
    let bytes = &profile.row_group_compressed_bytes;
    let (recommended_range_mb, workload_label) = recommended_range_for_engine(engine);
    let n = bytes.len();
    if n == 0 {
        return RowGroupAdvisory {
            current_avg_mb: Ratio::of_counts(0, 1),
            current_min_mb: Ratio::of_counts(0, 1),
            current_max_mb: Ratio::of_counts(0, 1),
            recommended_range_mb,
            workload_label,
            is_within_recommendation: true,
            advice: text("No row group data available."),
        };
    }
    let mut sum: u128 = 0;
    let mut min: u64 = bytes[0];
    let mut max: u64 = bytes[0];
    let mut i: usize = 0;
    while i < n
        invariant
            n == bytes@.len(),
            n > 0,
            i <= n,
            sum == sum_u64(bytes@.take(i as int)),
            sum <= i * 0xffff_ffff_ffff_ffff,
            i > 0 ==> min == min_u64(bytes@.take(i as int)),
            i > 0 ==> max == max_u64(bytes@.take(i as int)),
            i == 0 ==> min == bytes@[0] && max == bytes@[0],
        decreases n - i,
    {
        proof {
            assert(bytes@.take(i + 1).drop_last() =~= bytes@.take(i as int));
            assert(bytes@.take(i + 1).last() == bytes@[i as int]);
        }
        let b = bytes[i];
        if i > 0 && b < min {
            min = b;
        }
        if i > 0 && b > max {
            max = b;
        }
        sum = sum + b as u128;
        i = i + 1;
    }
    proof {
        assert(bytes@.take(n as int) =~= bytes@);
    }
    let avg = Ratio::from_parts(sum as i128, (n as u128) * 1_048_576);
    let (rec_min, rec_max) = recommended_range_mb;
    let is_within_recommendation = !avg.lt_frac(rec_min as i64, 1) && avg.le_frac(rec_max as i64, 1);
    let shown = avg.to_fixed(0);
    let mut range = String::new();
    push_nat(&mut range, rec_min as u128);
    range.append("–");
    push_nat(&mut range, rec_max as u128);
    let mut advice = text("Row group size ");
    advice.append(shown.as_str());
    if is_within_recommendation {
        advice.append(" MB is within the ");
        advice.append(range.as_str());
        advice.append(" MB recommendation for ");
        advice.append(workload_label.as_str());
        advice.append(".");
    } else if avg.lt_frac(rec_min as i64, 1) {
        advice.append(" MB is below the ");
        advice.append(range.as_str());
        advice.append(" MB recommendation for ");
        advice.append(workload_label.as_str());
        advice.append(
            ". Small row groups reduce compression effectiveness and increase predicate pushdown overhead.",
        );
    } else {
        advice.append(" MB exceeds the ");
        advice.append(range.as_str());
        advice.append(" MB recommendation for ");
        advice.append(workload_label.as_str());
        advice.append(". Large row groups may cause excessive memory pressure during scans.");
    }
    proof {
        assert(advice@ =~= row_group_advice(avg@, *engine));
    }
    RowGroupAdvisory {
        current_avg_mb: avg,
        current_min_mb: Ratio::of_counts(min, 1_048_576),
        current_max_mb: Ratio::of_counts(max, 1_048_576),
        recommended_range_mb,
        workload_label,
        is_within_recommendation,
        advice,
    }
}

/// What `format!("{:?}", s)` writes for a string: the text quoted, with
/// quotes, backslashes and unprintable characters escaped.
pub uninterp spec fn debug_text_of(s: Seq<char>) -> Seq<char>;

/// Formats a string with `Debug` (`format!("{:?}", s)`); the text is named
/// `debug_text_of` of the string (it depends on the characters alone).
#[verifier::external_body]
fn debug_quoted(s: &str) -> (r: String)
    ensures
        r@ == debug_text_of(s@),
{
    format!("{:?}", s)
}

/// A list of strings as `Debug` shows it: `["a", "b"]`.
pub open spec fn debug_list_text(v: Seq<Seq<char>>) -> Seq<char> {
    "["@ + join(v.map_values(|s: Seq<char>| debug_text_of(s)), ", "@) + "]"@
}

/// A profile looks sorted: monotonicity above 0.95 on an INT64 column or one
/// whose logical type mentions TIMESTAMP.
pub open spec fn sort_candidate(cp: ColumnProfile) -> bool {
    match cp.monotonicity_score {
        Some(s) => !frac_le(s@, 19, 20) && (cp.physical_type@ == "INT64"@ || match cp.logical_type {
            Some(lt) => has_infix(lt@, "TIMESTAMP"@),
            None => false,
        }),
        None => false,
    }
}

/// The names of the columns that look sorted, in order.
pub open spec fn sort_candidates(v: Seq<ColumnProfile>) -> Seq<Seq<char>>
    decreases v.len(),
{
    if v.len() == 0 {
        seq![]
    } else {
        let before = sort_candidates(v.drop_last());
        if sort_candidate(v.last()) {
            before.push(v.last().column_name@)
        } else {
            before
        }
    }
}

fn is_sort_candidate(cp: &ColumnProfile) -> (r: bool)
    ensures
        r == sort_candidate(*cp),
{
    match &cp.monotonicity_score {
        Some(s) => {
            if s.le_frac(19, 20) {
                return false;
            }
            if str_eq(cp.physical_type.as_str(), "INT64") {
                return true;
            }
            match &cp.logical_type {
                Some(lt) => contains(lt.as_str(), "TIMESTAMP"),
                None => false,
            }
        },
        None => false,
    }
}

/// `a` lists the columns that look sorted; no sort order is declared in the
/// footer, so the advice either names them or suggests sorting.
pub open spec fn sort_advises(a: SortOrderAdvisory, column_profiles: Seq<ColumnProfile>) -> bool {
    &&& a.declared_sort_columns@.len() == 0
    &&& views(a.inferred_sort_candidates@) == sort_candidates(column_profiles)
    &&& a.advice@ == if sort_candidates(column_profiles).len() > 0 {
        "Column(s) "@ + debug_list_text(sort_candidates(column_profiles))
            + " appear sorted (monotonicity_score > 0.95) but no sort order is declared in the file metadata. Declaring sort order enables better predicate pushdown."@
    } else {
        "No strongly monotonic columns detected. Consider sorting by your most common filter predicate column before writing."@
    }
}

/// Lists the columns that look sorted; no sort order is declared in the
/// footer, so the advice either names them or suggests sorting.
pub fn detect_sort_order(_profile: &FileProfile, column_profiles: &[ColumnProfile]) -> (a: SortOrderAdvisory)
    ensures
        sort_advises(a, column_profiles@),
{
    let declared_sort_columns: Vec<String> = Vec::new();
    let mut candidates: Vec<String> = Vec::new();
    let mut quoted: Vec<String> = Vec::new();
    let mut i: usize = 0;
    while i < column_profiles.len()
        invariant
            i <= column_profiles@.len(),
            views(candidates@) == sort_candidates(column_profiles@.take(i as int)),
            views(quoted@) == sort_candidates(column_profiles@.take(i as int)).map_values(
                |s: Seq<char>| debug_text_of(s),
            ),
        decreases column_profiles@.len() - i,
    {
        let cp = &column_profiles[i];
        proof {
            assert(column_profiles@.take(i + 1).drop_last() =~= column_profiles@.take(i as int));
            assert(column_profiles@.take(i + 1).last() == *cp);
        }
        if is_sort_candidate(cp) {
            let ghost before_c = candidates@;
            let ghost before_q = quoted@;
            let ghost prev = sort_candidates(column_profiles@.take(i as int));
            candidates.push(cp.column_name.clone());
            quoted.push(debug_quoted(cp.column_name.as_str()));
            proof {
                assert(views(candidates@) =~= views(before_c).push(cp.column_name@));
                assert(views(quoted@) =~= views(before_q).push(debug_text_of(cp.column_name@)));
                assert(prev.push(cp.column_name@).map_values(|s: Seq<char>| debug_text_of(s))
                    =~= prev.map_values(|s: Seq<char>| debug_text_of(s)).push(debug_text_of(cp.column_name@)));
            }
        }
        i = i + 1;
    }
    proof {
        assert(column_profiles@.take(column_profiles@.len() as int) =~= column_profiles@);
    }
    let advice = if candidates.len() > 0 {
        let mut s = text("Column(s) [");
        let listed = join_strings(&quoted, ", ");
        s.append(listed.as_str());
        s.append("] appear sorted (monotonicity_score > 0.95) but no sort order is declared in the file metadata. Declaring sort order enables better predicate pushdown.");
        proof {
            reveal_strlit("[");
            reveal_strlit("Column(s) [");
            reveal_strlit("Column(s) ");
            reveal_strlit("]");
            reveal_strlit("] appear sorted (monotonicity_score > 0.95) but no sort order is declared in the file metadata. Declaring sort order enables better predicate pushdown.");
            reveal_strlit(" appear sorted (monotonicity_score > 0.95) but no sort order is declared in the file metadata. Declaring sort order enables better predicate pushdown.");
            assert(s@ =~= "Column(s) "@ + debug_list_text(sort_candidates(column_profiles@))
                + " appear sorted (monotonicity_score > 0.95) but no sort order is declared in the file metadata. Declaring sort order enables better predicate pushdown."@);
        }
        s
    } else {
        text("No strongly monotonic columns detected. Consider sorting by your most common filter predicate column before writing.")
    };
    SortOrderAdvisory { declared_sort_columns, inferred_sort_candidates: candidates, advice }
}

} // verus!
