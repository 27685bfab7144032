//! Per-column statistics computed from a sample of values.

use vstd::prelude::*;
use crate::order::{seq_lt, str_lt};
use crate::profiler::sample::{
    ColumnSample, SampleValues, get_value_bytes, int_values, ints_of, is_present, null_count, nulls_in,
    opt_int, present, sample_len, sample_length, sample_wf, value_bytes,
};
use crate::profiler::distinct::{count_distinct_values, values_between};
use crate::ratio::Ratio;
use crate::text::{copy_opt_string, copy_string, opt_text, str_eq, text};
use vstd::string::{StrSliceExecFns, StringSliceAdditionalSpecFns};
use vstd::utf8::encode_utf8;

verus! {

/// Byte lengths of the non-null strings of a sample.
pub struct StringLengthStats {
    pub min_len: usize,
    pub max_len: usize,
    /// Mean length.
    pub mean_len: Ratio,
    /// How many strings were measured.
    pub len_count: u64,
    /// Sum of their byte lengths.
    pub len_sum: u64,
    /// Sum of the squares of their byte lengths. With the two fields above it
    /// gives the population variance, `(count * sum_sq - sum * sum) / (count * count)`,
    /// whose square root is the standard deviation.
    pub len_sum_sq: u128,
}

/// What the advisor measured of one column.
pub struct ColumnProfile {
    pub column_name: String,
    pub physical_type: String,
    pub logical_type: Option<String>,
    pub sample_rows: usize,
    pub total_file_rows: i64,
    pub sample_fraction: Ratio,
    pub cardinality_estimate: u64,
    pub cardinality_ratio: Ratio,
    pub cardinality_method: String,
    pub monotonicity_score: Option<Ratio>,
    pub string_monotonicity_score: Option<Ratio>,
    pub run_length_score: Ratio,
    pub string_length_stats: Option<StringLengthStats>,
    pub uuid_pattern_detected: bool,
    pub json_pattern_detected: bool,
    /// Shannon entropy of the bytes of binary values, in bits per byte.
    pub byte_entropy: Option<Ratio>,
    pub null_count_in_sample: usize,
    pub null_fraction: Ratio,
}

} // verus!

verus! {

/// Counts over neighbouring rows that both hold a value: how many do not
/// decrease, and how many there are.
pub open spec fn mono_counts(v: Seq<Option<int>>) -> (int, int)
    decreases v.len(),
{
    if v.len() < 2 {
        (0, 0)
    } else {
        let (a, t) = mono_counts(v.drop_last());
        match (v[v.len() - 2], v.last()) {
            (Some(p), Some(x)) => (a + if x >= p { 1int } else { 0int }, t + 1),
            _ => (a, t),
        }
    }
}

/// The share of neighbouring integer values that do not decrease (0 when no
/// two neighbours hold values); none for a non-integer sample.
pub open spec fn monotonicity_of(s: &ColumnSample) -> Option<(int, int)> {
    match int_values(&s.values) {
        Some(v) => {
            let (a, t) = mono_counts(v);
            Some(if t == 0 { (0int, 1int) } else { (a, t) })
        },
        None => None,
    }
}

proof fn lemma_mono_bound(v: Seq<Option<int>>)
    ensures
        0 <= mono_counts(v).0 <= mono_counts(v).1 <= v.len(),
    decreases v.len(),
{
    if v.len() >= 2 {
        lemma_mono_bound(v.drop_last());
    }
}

fn mono_of_ints(x: &Vec<Option<i64>>) -> (r: Ratio)
    ensures
        ({
            let (a, t) = mono_counts(x@.map_values(|o: Option<i64>| opt_int(o)));
            r@ == if t == 0 { (0int, 1int) } else { (a, t) }
        }),
{
    let ghost v = x@.map_values(|o: Option<i64>| opt_int(o));
    let mut asc: u64 = 0;
    let mut total: u64 = 0;
    let mut i: usize = 1;
    if x.len() < 2 {
        return Ratio::of_counts(0, 1);
    }
    while i < x.len()
        invariant
            1 <= i <= x@.len(),
            v == x@.map_values(|o: Option<i64>| opt_int(o)),
            (asc as int, total as int) == mono_counts(v.take(i as int)),
            total <= i,
        decreases x@.len() - i,
    {
        proof {
            let t = v.take(i + 1);
            assert(t.drop_last() =~= v.take(i as int));
            assert(t[t.len() - 2] == v[i - 1]);
            assert(t.last() == v[i as int]);
            lemma_mono_bound(v.take(i as int));
        }
        match (x[i - 1], x[i]) {
            (Some(p), Some(c)) => {
                total = total + 1;
                if c >= p {
                    asc = asc + 1;
                }
            },
            _ => {},
        }
        i = i + 1;
    }
    proof {
        assert(v.take(x@.len() as int) =~= v);
    }
    Ratio::of_counts(asc, total)
}

/// Share of neighbouring integer values that do not decrease.
pub fn monotonicity_score(sample: &ColumnSample) -> (r: Option<Ratio>)
    ensures
        match r {
            Some(x) => monotonicity_of(sample) == Some(x@),
            None => monotonicity_of(sample) is None,
        },
{
    match ints_of(&sample.values) {
        Some(x) => Some(mono_of_ints(&x)),
        None => None,
    }
}

/// The texts of a string sample.
pub open spec fn text_values(v: &SampleValues) -> Option<Seq<Option<String>>> {
    match v {
        SampleValues::Utf8(x) => Some(x@),
        SampleValues::LargeUtf8(x) => Some(x@),
        _ => None,
    }
}

/// Counts over neighbouring strings that both hold a value: how many are not
/// smaller than the one before, and how many there are.
pub open spec fn str_counts(v: Seq<Option<String>>) -> (int, int)
    decreases v.len(),
{
    if v.len() < 2 {
        (0, 0)
    } else {
        let (a, t) = str_counts(v.drop_last());
        match (v[v.len() - 2], v.last()) {
            (Some(p), Some(x)) => (a + if !seq_lt(x@, p@) { 1int } else { 0int }, t + 1),
            _ => (a, t),
        }
    }
}

/// The share of neighbouring strings in non-decreasing order; none for a
/// non-string sample or when no two neighbours hold values.
pub open spec fn string_monotonicity_of(s: &ColumnSample) -> Option<(int, int)> {
    match text_values(&s.values) {
        Some(v) => {
            let (a, t) = str_counts(v);
            if t == 0 { None } else { Some((a, t)) }
        },
        None => None,
    }
}

fn str_mono(x: &Vec<Option<String>>) -> (r: Option<Ratio>)
    ensures
        ({
            let (a, t) = str_counts(x@);
            match r {
                Some(q) => t != 0 && q@ == (a, t),
                None => t == 0,
            }
        }),
{
    if x.len() < 2 {
        return None;
    }
    let mut asc: u64 = 0;
    let mut total: u64 = 0;
    let mut i: usize = 1;
    while i < x.len()
        invariant
            1 <= i <= x@.len(),
            (asc as int, total as int) == str_counts(x@.take(i as int)),
            asc <= total <= i,
        decreases x@.len() - i,
    {
        proof {
            let t = x@.take(i + 1);
            assert(t.drop_last() =~= x@.take(i as int));
            assert(t[t.len() - 2] == x@[i - 1]);
            assert(t.last() == x@[i as int]);
        }
        match (&x[i - 1], &x[i]) {
            (Some(p), Some(c)) => {
                total = total + 1;
                if !str_lt(c.as_str(), p.as_str()) {
                    asc = asc + 1;
                }
            },
            _ => {},
        }
        i = i + 1;
    }
    proof {
        assert(x@.take(x@.len() as int) =~= x@);
    }
    if total == 0 {
        None
    } else {
        Some(Ratio::of_counts(asc, total))
    }
}

/// Share of neighbouring strings in non-decreasing order.
pub fn string_monotonicity_score(sample: &ColumnSample) -> (r: Option<Ratio>)
    ensures
        match r {
            Some(x) => string_monotonicity_of(sample) == Some(x@),
            None => string_monotonicity_of(sample) is None,
        },
{
    match &sample.values {
        SampleValues::Utf8(x) | SampleValues::LargeUtf8(x) => str_mono(x),
        _ => None,
    }
}

/// Counts over neighbouring rows among the first `n` that both hold a value:
/// how many show the same text, and how many there are.
pub open spec fn rl_counts(v: &SampleValues, d: Seq<String>, n: nat) -> (int, int)
    decreases n,
{
    if n < 2 {
        (0, 0)
    } else {
        let (e, t) = rl_counts(v, d, (n - 1) as nat);
        if is_present(v, n - 2) && is_present(v, n - 1) {
            (e + if d[n - 2]@ == d[n - 1]@ { 1int } else { 0int }, t + 1)
        } else {
            (e, t)
        }
    }
}

/// The share of neighbouring values that repeat the one before (0 without a
/// display, with fewer than two rows, or when no two neighbours hold values).
pub open spec fn run_length_of(s: &ColumnSample) -> (int, int) {
    match s.display {
        None => (0, 1),
        Some(d) => {
            let n = sample_len(&s.values);
            let (e, t) = rl_counts(&s.values, d@, n);
            if n < 2 || t == 0 { (0, 1) } else { (e, t) }
        },
    }
}

/// Share of neighbouring values that repeat the one before.
pub fn run_length_score(sample: &ColumnSample) -> (r: Ratio)
    requires
        sample_wf(sample),
    ensures
        r@ == run_length_of(sample),
{
    let d = match &sample.display {
        Some(d) => d,
        None => {
            return Ratio::of_counts(0, 1);
        },
    };
    let n = sample_length(&sample.values);
    if n < 2 {
        return Ratio::of_counts(0, 1);
    }
    let mut equal: u64 = 0;
    let mut total: u64 = 0;
    let mut i: usize = 1;
    while i < n
        invariant
            n == sample_len(&sample.values),
            d@.len() == n,
            1 <= i <= n,
            (equal as int, total as int) == rl_counts(&sample.values, d@, i as nat),
            equal <= total <= i,
        decreases n - i,
    {
        if present(&sample.values, i - 1) && present(&sample.values, i) {
            total = total + 1;
            if str_eq(d[i - 1].as_str(), d[i].as_str()) {
                equal = equal + 1;
            }
        }
        i = i + 1;
    }
    if total == 0 {
        Ratio::of_counts(0, 1)
    } else {
        Ratio::of_counts(equal, total)
    }
}

} // verus!

verus! {

/// Hashes a value's bytes with `ahash::AHasher::default()` (through
/// `Hash::hash` on the byte slice and `Hasher::finish`). Its keys are drawn
/// once per process, so nothing is stated of the hash.
#[verifier::external_body]
fn hash_bytes(bytes: &[u8]) -> u64 {
    let mut hasher = ahash::AHasher::default();
    std::hash::Hash::hash(bytes, &mut hasher);
    std::hash::Hasher::finish(&hasher)
}

/// Number of distinct hashes.
pub fn count_distinct(hashes: &Vec<u64>) -> (c: u64)
    ensures
        c == hashes@.to_set().len(),
{
    broadcast use vstd::std_specs::hash::group_hash_axioms;
    broadcast use vstd::seq_lib::seq_to_set_is_finite;
    let mut set: std::collections::HashSet<u64> = std::collections::HashSet::new();
    let mut i: usize = 0;
    while i < hashes.len()
        invariant
            i <= hashes@.len(),
            set@ == hashes@.take(i as int).to_set(),
        decreases hashes@.len() - i,
    {
        set.insert(hashes[i]);
        proof {
            assert(hashes@.take(i + 1).to_set() =~= hashes@.take(i as int).to_set().insert(hashes@[i as int])) by {
                assert forall|h: u64| hashes@.take(i + 1).to_set().contains(h) implies
                    hashes@.take(i as int).to_set().insert(hashes@[i as int]).contains(h) by {
                    let k = choose|k: int| 0 <= k < i + 1 && #[trigger] hashes@.take(i + 1)[k] == h;
                    if k < i {
                        assert(hashes@.take(i as int)[k] == h);
                    }
                }
                assert forall|h: u64| hashes@.take(i as int).to_set().contains(h) implies
                    hashes@.take(i + 1).to_set().contains(h) by {
                    let k = choose|k: int| 0 <= k < i && #[trigger] hashes@.take(i as int)[k] == h;
                    assert(hashes@.take(i + 1)[k] == h);
                }
                assert(hashes@.take(i + 1)[i as int] == hashes@[i as int]);
            }
        }
        i = i + 1;
    }
    proof {
        assert(hashes@.take(hashes@.len() as int) =~= hashes@);
        hashes@.lemma_cardinality_of_set();
    }
    set.len() as u64
}

/// Below this many values, distinct values are counted exactly.
pub open spec fn exact_limit() -> int {
    50_000
}

/// The distinct values present in the sample, as the bytes that stand for
/// them (see `value_bytes`).
pub open spec fn present_values(s: &ColumnSample) -> Set<Seq<u8>> {
    Set::new(
        |b: Seq<u8>|
            exists|i: int|
                0 <= i < sample_len(&s.values) && is_present(&s.values, i) && #[trigger] value_bytes(s, i) == b,
    )
}

/// Distinct values of the sample: counted exactly, by the bytes that stand
/// for each value, under 50,000 values; otherwise the HyperLogLog estimate
/// handed in.
pub fn cardinality_info(sample: &ColumnSample, hll_estimate: Option<u64>) -> (r: (u64, String))
    requires
        sample_wf(sample),
        sample_len(&sample.values) - nulls_in(&sample.values, sample_len(&sample.values)) >= exact_limit()
            ==> hll_estimate is Some,
    ensures
        ({
            let non_null = sample_len(&sample.values) - nulls_in(&sample.values, sample_len(&sample.values));
            if non_null < exact_limit() {
                &&& r.1@ == "exact"@
                &&& present_values(sample).finite()
                &&& r.0 == present_values(sample).len()
                &&& r.0 <= non_null
                &&& non_null > 0 ==> r.0 >= 1
            } else {
                &&& r.1@ == "hyperloglog"@
                &&& Some(r.0) == hll_estimate
            }
        }),
{
    let n = sample_length(&sample.values);
    let nulls = null_count(&sample.values);
    let non_null = n - nulls;
    if non_null < 50_000 {
        let mut vals: Vec<Vec<u8>> = Vec::new();
        let mut i: usize = 0;
        proof {
            assert(values_between(vals@, 0, 0) =~= Set::new(
                |b: Seq<u8>| exists|k: int| 0 <= k < 0 && is_present(&sample.values, k) && #[trigger] value_bytes(sample, k) == b,
            ));
        }
        while i < n
            invariant
                n == sample_len(&sample.values),
                sample_wf(sample),
                i <= n,
                vals@.len() == i - nulls_in(&sample.values, i as nat),
                nulls_in(&sample.values, i as nat) <= i,
                values_between(vals@, 0, vals@.len() as int) == Set::new(
                    |b: Seq<u8>|
                        exists|k: int| 0 <= k < i && is_present(&sample.values, k) && #[trigger] value_bytes(sample, k) == b,
                ),
            decreases n - i,
        {
            let ghost old_vals = vals@;
            if present(&sample.values, i) {
                let bytes = get_value_bytes(sample, i);
                vals.push(bytes);
            }
            proof {
                let before = Set::new(
                    |b: Seq<u8>|
                        exists|k: int| 0 <= k < i && is_present(&sample.values, k) && #[trigger] value_bytes(sample, k) == b,
                );
                let after = Set::new(
                    |b: Seq<u8>|
                        exists|k: int| 0 <= k < i + 1 && is_present(&sample.values, k) && #[trigger] value_bytes(sample, k) == b,
                );
                assert(values_between(vals@, 0, vals@.len() as int) =~= after) by {
                    assert forall|y: Seq<u8>| values_between(vals@, 0, vals@.len() as int).contains(y) implies after.contains(y) by {
                        let p = choose|p: int| 0 <= p < vals@.len() && #[trigger] vals@[p]@ == y;
                        if p < old_vals.len() {
                            assert(old_vals[p]@ == y);
                            assert(values_between(old_vals, 0, old_vals.len() as int).contains(y));
                            let k = choose|k: int| 0 <= k < i && is_present(&sample.values, k) && #[trigger] value_bytes(sample, k) == y;
                            assert(after.contains(y));
                        } else {
                            assert(value_bytes(sample, i as int) == y);
                            assert(after.contains(y));
                        }
                    }
                    assert forall|y: Seq<u8>| after.contains(y) implies values_between(vals@, 0, vals@.len() as int).contains(y) by {
                        let k = choose|k: int| 0 <= k < i + 1 && is_present(&sample.values, k) && #[trigger] value_bytes(sample, k) == y;
                        if k < i {
                            assert(before.contains(y));
                            assert(values_between(old_vals, 0, old_vals.len() as int).contains(y));
                            let p = choose|p: int| 0 <= p < old_vals.len() && #[trigger] old_vals[p]@ == y;
                            assert(vals@[p]@ == y);
                        } else {
                            assert(vals@[old_vals.len() as int]@ == y);
                        }
                    }
                }
            }
            i = i + 1;
        }
        let c0 = count_distinct_values(&vals);
        proof {
            assert(values_between(vals@, 0, vals@.len() as int) =~= present_values(sample));
        }
        let c = c0 as u64;
        (c, text("exact"))
    } else {
        let est = match hll_estimate {
            Some(e) => e,
            None => 0,
        };
        (est, text("hyperloglog"))
    }
}

} // verus!

verus! {

/// Length in bytes of a string's UTF-8 encoding, as `str::len` reports it.
pub open spec fn byte_len(s: Seq<char>) -> int {
    (encode_utf8(s).len() as usize) as int
}

/// Byte lengths of the strings present, in order.
pub open spec fn text_lengths(v: Seq<Option<String>>) -> Seq<int>
    decreases v.len(),
{
    if v.len() == 0 {
        seq![]
    } else {
        let before = text_lengths(v.drop_last());
        match v.last() {
            Some(s) => before.push(byte_len(s@)),
            None => before,
        }
    }
}

pub open spec fn seq_sum(s: Seq<int>) -> int
    decreases s.len(),
{
    if s.len() == 0 { 0 } else { seq_sum(s.drop_last()) + s.last() }
}

pub open spec fn seq_sum_sq(s: Seq<int>) -> int
    decreases s.len(),
{
    if s.len() == 0 { 0 } else { seq_sum_sq(s.drop_last()) + s.last() * s.last() }
}

pub open spec fn seq_min(s: Seq<int>) -> int
    decreases s.len(),
{
    if s.len() <= 1 {
        s[0]
    } else {
        let m = seq_min(s.drop_last());
        if s.last() < m { s.last() } else { m }
    }
}

pub open spec fn seq_max(s: Seq<int>) -> int
    decreases s.len(),
{
    if s.len() <= 1 {
        s[0]
    } else {
        let m = seq_max(s.drop_last());
        if s.last() > m { s.last() } else { m }
    }
}

/// Shortest and longest byte length of the strings present, with their
/// number, sum and sum of squares; none for a non-string sample or without
/// strings.
pub open spec fn length_stats_of(s: &ColumnSample) -> Option<(int, int, int, int, int)> {
    match text_values(&s.values) {
        Some(v) => {
            let l = text_lengths(v);
            if l.len() == 0 {
                None
            } else {
                Some((seq_min(l), seq_max(l), l.len() as int, seq_sum(l), seq_sum_sq(l)))
            }
        },
        None => None,
    }
}

/// What a `StringLengthStats` records, in the order of `length_stats_of`.
pub open spec fn length_stats_view(st: StringLengthStats) -> (int, int, int, int, int) {
    (st.min_len as int, st.max_len as int, st.len_count as int, st.len_sum as int, st.len_sum_sq as int)
}

/// The byte lengths of the sample's strings add up to at most `u64::MAX`, as
/// they do for any sample held in memory at once.
pub open spec fn lengths_bounded(s: &ColumnSample) -> bool {
    match text_values(&s.values) {
        Some(v) => seq_sum(text_lengths(v)) <= 0xFFFF_FFFF_FFFF_FFFF,
        None => true,
    }
}

proof fn lemma_sum_push(s: Seq<int>, x: int)
    ensures
        seq_sum(s.push(x)) == seq_sum(s) + x,
        seq_sum_sq(s.push(x)) == seq_sum_sq(s) + x * x,
        s.push(x).drop_last() == s,
        s.len() > 0 ==> seq_min(s.push(x)) == if x < seq_min(s) { x } else { seq_min(s) },
        s.len() > 0 ==> seq_max(s.push(x)) == if x > seq_max(s) { x } else { seq_max(s) },
        s.len() == 0 ==> seq_min(s.push(x)) == x && seq_max(s.push(x)) == x,
{
    assert(s.push(x).drop_last() =~= s);
}

proof fn lemma_lengths_facts(v: Seq<Option<String>>, i: int)
    requires
        0 <= i <= v.len(),
    ensures
        0 <= seq_sum(text_lengths(v.take(i))) <= seq_sum(text_lengths(v)),
        text_lengths(v.take(i)).len() <= text_lengths(v).len(),
    decreases v.len(),
{
    if v.len() > 0 {
        let before = text_lengths(v.drop_last());
        match v.last() {
            Some(t) => {
                lemma_sum_push(before, byte_len(t@));
            },
            None => {},
        }
        if i < v.len() {
            assert(v.drop_last().take(i) =~= v.take(i));
            lemma_lengths_facts(v.drop_last(), i);
        } else {
            assert(v.take(i) =~= v);
            assert(v.drop_last().take(i - 1) =~= v.drop_last());
            lemma_lengths_facts(v.drop_last(), i - 1);
        }
    } else {
        assert(v.take(i) =~= v);
    }
}

pub struct LengthAcc {
    pub count: u64,
    pub sum: u64,
    pub sum_sq: u128,
    pub min: usize,
    pub max: usize,
}

fn length_stats_of_texts(x: &Vec<Option<String>>) -> (r: Option<StringLengthStats>)
    requires
        seq_sum(text_lengths(x@)) <= 0xFFFF_FFFF_FFFF_FFFF,
    ensures
        match r {
            Some(st) => {
                let l = text_lengths(x@);
                &&& l.len() > 0
                &&& length_stats_view(st) == (seq_min(l), seq_max(l), l.len() as int, seq_sum(l), seq_sum_sq(l))
                &&& st.mean_len@ == (st.len_sum as int, st.len_count as int)
            },
            None => text_lengths(x@).len() == 0,
        },
{
    let mut count: u64 = 0;
    let mut sum: u64 = 0;
    let mut sum_sq: u128 = 0;
    let mut min: usize = 0;
    let mut max: usize = 0;
    let mut i: usize = 0;
    while i < x.len()
        invariant
            i <= x@.len(),
            seq_sum(text_lengths(x@)) <= 0xFFFF_FFFF_FFFF_FFFF,
            count <= i,
            count == text_lengths(x@.take(i as int)).len(),
            sum == seq_sum(text_lengths(x@.take(i as int))),
            sum_sq == seq_sum_sq(text_lengths(x@.take(i as int))),
            sum_sq <= 0xFFFF_FFFF_FFFF_FFFF * sum,
            count > 0 ==> min == seq_min(text_lengths(x@.take(i as int))),
            count > 0 ==> max == seq_max(text_lengths(x@.take(i as int))),
        decreases x@.len() - i,
    {
        proof {
            assert(x@.take(i + 1).drop_last() =~= x@.take(i as int));
            lemma_lengths_facts(x@, i + 1);
        }
        match &x[i] {
            Some(t) => {
                let ts = t.as_str();
                let len = ts.len();
                proof {
                    assert(x@.take(i + 1).last() == x@[i as int]);
                    assert(ts@ == t@);
                    assert(len == byte_len(t@));
                    assert(text_lengths(x@.take(i + 1)) == text_lengths(x@.take(i as int)).push(len as int));
                    lemma_sum_push(text_lengths(x@.take(i as int)), len as int);
                    assert(sum + len <= 0xFFFF_FFFF_FFFF_FFFF);
                    assert(sum_sq + len * len <= 0xFFFF_FFFF_FFFF_FFFF * (sum + len)) by (nonlinear_arith)
                        requires
                            len <= 0xFFFF_FFFF_FFFF_FFFF,
                            sum_sq <= 0xFFFF_FFFF_FFFF_FFFF * sum;
                    assert(0xFFFF_FFFF_FFFF_FFFF * (sum + len) <= 0xFFFF_FFFF_FFFF_FFFF * 0xFFFF_FFFF_FFFF_FFFF) by (nonlinear_arith)
                        requires sum + len <= 0xFFFF_FFFF_FFFF_FFFF;
                }
                if count == 0 || len < min {
                    min = len;
                }
                if count == 0 || len > max {
                    max = len;
                }
                count = count + 1;
                sum = sum + len as u64;
                sum_sq = sum_sq + (len as u128) * (len as u128);
            },
            None => {
                proof {
                    assert(x@.take(i + 1).last() == x@[i as int]);
                    assert(text_lengths(x@.take(i + 1)) == text_lengths(x@.take(i as int)));
                }
            },
        }
        i = i + 1;
    }
    proof {
        assert(x@.take(x@.len() as int) =~= x@);
    }
    if count == 0 {
        return None;
    }
    Some(StringLengthStats {
        min_len: min,
        max_len: max,
        mean_len: Ratio::from_parts(sum as i128, count as u128),
        len_count: count,
        len_sum: sum,
        len_sum_sq: sum_sq,
    })
}

/// Shortest, longest and mean byte length of the strings, with the sums that
/// give their variance.
pub fn string_length_stats(sample: &ColumnSample) -> (r: Option<StringLengthStats>)
    requires
        lengths_bounded(sample),
    ensures
        match r {
            Some(st) => {
                &&& length_stats_of(sample) == Some(length_stats_view(st))
                &&& st.mean_len@ == (st.len_sum as int, st.len_count as int)
            },
            None => length_stats_of(sample) is None,
        },
{
    match &sample.values {
        SampleValues::Utf8(x) | SampleValues::LargeUtf8(x) => length_stats_of_texts(x),
        _ => None,
    }
}

} // verus!

verus! {

/// The strings present, in order.
pub open spec fn present_texts(v: Seq<Option<String>>) -> Seq<Seq<char>>
    decreases v.len(),
{
    if v.len() == 0 {
        seq![]
    } else {
        let before = present_texts(v.drop_last());
        match v.last() {
            Some(s) => before.push(s@),
            None => before,
        }
    }
}

/// The first 1,000 strings present.
pub open spec fn first_texts(v: Seq<Option<String>>) -> Seq<Seq<char>> {
    let t = present_texts(v);
    if t.len() > 1000 { t.take(1000) } else { t }
}

/// How many of the texts look like UUIDs.
pub open spec fn count_uuids(s: Seq<Seq<char>>) -> int
    decreases s.len(),
{
    if s.len() == 0 {
        0
    } else {
        count_uuids(s.drop_last()) + if is_uuid_text(s.last()) { 1int } else { 0int }
    }
}

/// How many of the texts look like JSON.
pub open spec fn count_jsons(s: Seq<Seq<char>>) -> int
    decreases s.len(),
{
    if s.len() == 0 {
        0
    } else {
        count_jsons(s.drop_last()) + if json_like(s.last()) { 1int } else { 0int }
    }
}

pub open spec fn is_hex_char(c: char) -> bool {
    ('0' <= c && c <= '9') || ('a' <= c && c <= 'f') || ('A' <= c && c <= 'F')
}

/// Exactly 36 ASCII characters: hex digits, with hyphens at positions 8, 13, 18 and 23.
pub open spec fn is_uuid_text(s: Seq<char>) -> bool {
    s.len() == 36 && forall|i: int|
        0 <= i < 36 ==> if i == 8 || i == 13 || i == 18 || i == 23 {
            s[i] == '-'
        } else {
            is_hex_char(#[trigger] s[i])
        }
}

/// Compiles the pattern `^[0-9a-fA-F]{8}-[0-9a-fA-F]{4}-[0-9a-fA-F]{4}-[0-9a-fA-F]{4}-[0-9a-fA-F]{12}$`
/// with `regex::Regex::new` and tests `s` with `Regex::is_match`: anchored at
/// both ends, the pattern matches exactly the texts of `is_uuid_text`.
#[verifier::external_body]
fn uuid_regex_match(s: &str) -> (r: bool)
    ensures
        r == is_uuid_text(s@),
{
    let pattern = regex::Regex::new(
        r"^[0-9a-fA-F]{8}-[0-9a-fA-F]{4}-[0-9a-fA-F]{4}-[0-9a-fA-F]{4}-[0-9a-fA-F]{12}$",
    ).expect("static UUID regex is valid");
    pattern.is_match(s)
}

/// At least 90% of the first 1,000 strings present look like UUIDs.
pub open spec fn uuid_detected(s: &ColumnSample) -> bool {
    match text_values(&s.values) {
        Some(v) => {
            let t = first_texts(v);
            t.len() > 0 && 10 * count_uuids(t) >= 9 * t.len()
        },
        None => false,
    }
}

/// A character of Unicode's `White_Space` property (25 code points).
pub open spec fn is_white_space(c: char) -> bool {
    ||| '\u{9}' <= c && c <= '\u{d}'
    ||| c == ' '
    ||| c == '\u{85}'
    ||| c == '\u{a0}'
    ||| c == '\u{1680}'
    ||| '\u{2000}' <= c && c <= '\u{200a}'
    ||| c == '\u{2028}'
    ||| c == '\u{2029}'
    ||| c == '\u{202f}'
    ||| c == '\u{205f}'
    ||| c == '\u{3000}'
}

/// The text without its leading run of white space.
pub open spec fn trim_start_text(s: Seq<char>) -> Seq<char>
    decreases s.len(),
{
    if s.len() > 0 && is_white_space(s[0]) {
        trim_start_text(s.drop_first())
    } else {
        s
    }
}

/// Calls `str::trim_start`, which drops the leading characters that have the
/// Unicode `White_Space` property.
#[verifier::external_body]
fn trim_start(s: &str) -> (t: &str)
    ensures
        t@ == trim_start_text(s@),
{
    s.trim_start()
}

/// The text, without leading white space, starts with `{` or `[`.
pub open spec fn json_like(s: Seq<char>) -> bool {
    let t = trim_start_text(s);
    t.len() > 0 && (t[0] == '{' || t[0] == '[')
}

/// At least 80% of the first 1,000 strings present look like JSON.
pub open spec fn json_detected(s: &ColumnSample) -> bool {
    match text_values(&s.values) {
        Some(v) => {
            let t = first_texts(v);
            t.len() > 0 && 10 * count_jsons(t) >= 8 * t.len()
        },
        None => false,
    }
}

fn looks_like_json(s: &str) -> (r: bool)
    ensures
        r == json_like(s@),
{
    let t = trim_start(s);
    let n = t.unicode_len();
    if n == 0 {
        return false;
    }
    let c = t.get_char(0);
    c == '{' || c == '['
}

proof fn lemma_present_texts_step(v: Seq<Option<String>>, i: int)
    requires
        0 <= i < v.len(),
    ensures
        present_texts(v.take(i + 1)) == match v[i] {
            Some(s) => present_texts(v.take(i)).push(s@),
            None => present_texts(v.take(i)),
        },
{
    assert(v.take(i + 1).drop_last() =~= v.take(i));
    assert(v.take(i + 1).last() == v[i]);
}

proof fn lemma_count_push(s: Seq<Seq<char>>, x: Seq<char>)
    ensures
        count_uuids(s.push(x)) == count_uuids(s) + if is_uuid_text(x) { 1int } else { 0int },
        count_jsons(s.push(x)) == count_jsons(s) + if json_like(x) { 1int } else { 0int },
{
    assert(s.push(x).drop_last() =~= s);
}

proof fn lemma_present_texts_grow(v: Seq<Option<String>>, i: int, j: int)
    requires
        0 <= i <= j <= v.len(),
    ensures
        present_texts(v.take(i)).len() <= present_texts(v.take(j)).len(),
        present_texts(v.take(i)) == present_texts(v.take(j)).take(present_texts(v.take(i)).len() as int),
    decreases j - i,
{
    if i < j {
        lemma_present_texts_grow(v, i, j - 1);
        lemma_present_texts_step(v, j - 1);
    } else {
        assert(present_texts(v.take(j)) =~= present_texts(v.take(j)).take(present_texts(v.take(i)).len() as int));
    }
}

/// Counts, among the first 1,000 strings present, those that look like UUIDs
/// and those that look like JSON; with the number of strings counted.
fn pattern_counts(x: &Vec<Option<String>>) -> (r: (u64, u64, u64))
    ensures
        r.0 == first_texts(x@).len(),
        r.1 == count_uuids(first_texts(x@)),
        r.2 == count_jsons(first_texts(x@)),
        r.0 <= 1000,
        r.1 <= r.0,
        r.2 <= r.0,
{
    let mut taken: u64 = 0;
    let mut uuids: u64 = 0;
    let mut jsons: u64 = 0;
    let mut i: usize = 0;
    while i < x.len() && taken < 1000
        invariant
            i <= x@.len(),
            taken == present_texts(x@.take(i as int)).len(),
            taken <= 1000,
            uuids == count_uuids(present_texts(x@.take(i as int))),
            jsons == count_jsons(present_texts(x@.take(i as int))),
            uuids <= taken,
            jsons <= taken,
        decreases x@.len() - i,
    {
        proof {
            lemma_present_texts_step(x@, i as int);
        }
        match &x[i] {
            Some(t) => {
                proof {
                    lemma_count_push(present_texts(x@.take(i as int)), t@);
                }
                taken = taken + 1;
                if uuid_regex_match(t.as_str()) {
                    uuids = uuids + 1;
                }
                if looks_like_json(t.as_str()) {
                    jsons = jsons + 1;
                }
            },
            None => {},
        }
        i = i + 1;
    }
    proof {
        let all = present_texts(x@);
        let sofar = present_texts(x@.take(i as int));
        assert(x@.take(x@.len() as int) =~= x@);
        lemma_present_texts_grow(x@, i as int, x@.len() as int);
        if taken == 1000 {
            assert(sofar == all.take(1000));
            if all.len() == 1000 {
                assert(all.take(1000) =~= all);
            }
        } else {
            assert(i == x@.len());
            assert(sofar == all);
        }
        assert(first_texts(x@) == sofar);
    }
    (taken, uuids, jsons)
}

/// At least 90% of the first 1,000 strings present look like UUIDs.
pub fn uuid_pattern_detected(sample: &ColumnSample) -> (r: bool)
    ensures
        r == uuid_detected(sample),
{
    match &sample.values {
        SampleValues::Utf8(x) | SampleValues::LargeUtf8(x) => {
            let (taken, uuids, _) = pattern_counts(x);
            taken > 0 && 10 * uuids >= 9 * taken
        },
        _ => false,
    }
}

/// At least 80% of the first 1,000 strings present look like JSON.
pub fn json_pattern_detected(sample: &ColumnSample) -> (r: bool)
    ensures
        r == json_detected(sample),
{
    match &sample.values {
        SampleValues::Utf8(x) | SampleValues::LargeUtf8(x) => {
            let (taken, _, jsons) = pattern_counts(x);
            taken > 0 && 10 * jsons >= 8 * taken
        },
        _ => false,
    }
}

} // verus!

verus! {

/// The byte strings of a binary sample.
pub open spec fn binary_values(v: &SampleValues) -> Option<Seq<Option<Vec<u8>>>> {
    match v {
        SampleValues::Binary(x) => Some(x@),
        SampleValues::LargeBinary(x) => Some(x@),
        SampleValues::FixedSizeBinary(x) => Some(x@),
        _ => None,
    }
}

/// How often the byte `x` occurs in `b`.
pub open spec fn occurrences(b: Seq<u8>, x: int) -> int
    decreases b.len(),
{
    if b.len() == 0 {
        0
    } else {
        occurrences(b.drop_last(), x) + if b.last() == x { 1int } else { 0int }
    }
}

/// How often the byte `x` occurs over the values present.
pub open spec fn byte_count(v: Seq<Option<Vec<u8>>>, x: int) -> int
    decreases v.len(),
{
    if v.len() == 0 {
        0
    } else {
        byte_count(v.drop_last(), x) + match v.last() {
            Some(b) => occurrences(b@, x),
            None => 0,
        }
    }
}

/// Number of bytes over the values present.
pub open spec fn total_bytes(v: Seq<Option<Vec<u8>>>) -> int
    decreases v.len(),
{
    if v.len() == 0 {
        0
    } else {
        total_bytes(v.drop_last()) + match v.last() {
            Some(b) => b@.len() as int,
            None => 0,
        }
    }
}

proof fn lemma_total_grow(v: Seq<Option<Vec<u8>>>, i: int)
    requires
        0 <= i <= v.len(),
    ensures
        0 <= total_bytes(v.take(i)) <= total_bytes(v),
    decreases v.len(),
{
    if v.len() > 0 {
        if i < v.len() {
            assert(v.drop_last().take(i) =~= v.take(i));
            lemma_total_grow(v.drop_last(), i);
        } else {
            assert(v.take(i) =~= v);
            assert(v.drop_last().take(i - 1) =~= v.drop_last());
            lemma_total_grow(v.drop_last(), i - 1);
        }
    } else {
        assert(v.take(i) =~= v);
    }
}

/// Counts of each byte value over the binary values present, and their total:
/// what the byte entropy of a binary sample is computed from.
pub fn byte_histogram(sample: &ColumnSample) -> (r: Option<(Vec<u64>, u64)>)
    requires
        match binary_values(&sample.values) {
            Some(v) => total_bytes(v) <= u64::MAX,
            None => true,
        },
    ensures
        match r {
            Some((h, t)) => match binary_values(&sample.values) {
                Some(v) => {
                    &&& h@.len() == 256
                    &&& forall|x: int| 0 <= x < 256 ==> #[trigger] h@[x] == byte_count(v, x)
                    &&& t == total_bytes(v)
                },
                None => false,
            },
            None => binary_values(&sample.values) is None,
        },
{
    let x = match &sample.values {
        SampleValues::Binary(x) | SampleValues::LargeBinary(x) | SampleValues::FixedSizeBinary(x) => x,
        _ => {
            return None;
        },
    };
    let ghost v = x@;
    let mut h: Vec<u64> = Vec::new();
    while h.len() < 256
        invariant
            h@.len() <= 256,
            forall|k: int| 0 <= k < h@.len() ==> h@[k] == 0,
        decreases 256 - h@.len(),
    {
        h.push(0);
    }
    let mut total: u64 = 0;
    let mut i: usize = 0;
    while i < x.len()
        invariant
            v == x@,
            total_bytes(v) <= u64::MAX,
            i <= v.len(),
            h@.len() == 256,
            forall|k: int| 0 <= k < 256 ==> #[trigger] h@[k] == byte_count(v.take(i as int), k),
            forall|k: int| 0 <= k < 256 ==> #[trigger] h@[k] <= total,
            total == total_bytes(v.take(i as int)),
        decreases v.len() - i,
    {
        proof {
            assert(v.take(i + 1).drop_last() =~= v.take(i as int));
            assert(v.take(i + 1).last() == v[i as int]);
            lemma_total_grow(v, i + 1);
        }
        match &x[i] {
            Some(b) => {
                let ghost base = h@;
                let ghost base_total = total;
                let mut j: usize = 0;
                while j < b.len()
                    invariant
                        j <= b@.len(),
                        h@.len() == 256,
                        base.len() == 256,
                        forall|k: int| 0 <= k < 256 ==> #[trigger] h@[k] == base[k] + occurrences(b@.take(j as int), k),
                        forall|k: int| 0 <= k < 256 ==> #[trigger] h@[k] <= total,
                        total == base_total + j,
                        base_total + b@.len() <= u64::MAX,
                    decreases b@.len() - j,
                {
                    let byte = b[j];
                    proof {
                        assert(b@.take(j + 1).drop_last() =~= b@.take(j as int));
                        assert(b@.take(j + 1).last() == byte);
                    }
                    let k = byte as usize;
                    let cur = h[k];
                    h.set(k, cur + 1);
                    total = total + 1;
                    j = j + 1;
                }
                proof {
                    assert(b@.take(b@.len() as int) =~= b@);
                }
            },
            None => {},
        }
        i = i + 1;
    }
    proof {
        assert(v.take(v.len() as int) =~= v);
    }
    Some((h, total))
}

/// The number of rows holding a value.
pub fn non_null_count(sample: &ColumnSample) -> (n: usize)
    ensures
        n == sample_len(&sample.values) - nulls_in(&sample.values, sample_len(&sample.values)),
{
    let n = sample_length(&sample.values);
    let nulls = null_count(&sample.values);
    n - nulls
}

/// `p` is the profile of the sample, given the HyperLogLog estimate and the
/// byte entropy computed outside: the sample's names and sizes, the sampled
/// fraction of the file, distinct values (see `cardinality_info`) and their
/// share of the values present, the monotonicity, run-length, string-length,
/// UUID and JSON measures, and the share of nulls.
pub open spec fn profiles(p: ColumnProfile, s: &ColumnSample, hll_estimate: Option<u64>, byte_entropy: Option<Ratio>) -> bool {
    let n = sample_len(&s.values);
    let nulls = nulls_in(&s.values, n);
    let non_null = n - nulls;
    &&& p.column_name@ == s.column_name@
    &&& p.physical_type@ == s.physical_type@
    &&& opt_text(p.logical_type) == opt_text(s.logical_type)
    &&& p.sample_rows == n
    &&& p.total_file_rows == s.total_rows_in_file
    &&& p.sample_fraction@ == if s.total_rows_in_file > 0 { (n as int, s.total_rows_in_file as int) } else { (0int, 1int) }
    &&& if non_null < exact_limit() {
        &&& p.cardinality_method@ == "exact"@
        &&& present_values(s).finite()
        &&& p.cardinality_estimate == present_values(s).len()
        &&& p.cardinality_estimate <= non_null
        &&& non_null > 0 ==> p.cardinality_estimate >= 1
    } else {
        &&& p.cardinality_method@ == "hyperloglog"@
        &&& Some(p.cardinality_estimate) == hll_estimate
    }
    &&& p.cardinality_ratio@ == if non_null > 0 { (p.cardinality_estimate as int, non_null as int) } else { (0int, 1int) }
    &&& match p.monotonicity_score {
        Some(x) => monotonicity_of(s) == Some(x@),
        None => monotonicity_of(s) is None,
    }
    &&& match p.string_monotonicity_score {
        Some(x) => string_monotonicity_of(s) == Some(x@),
        None => string_monotonicity_of(s) is None,
    }
    &&& p.run_length_score@ == run_length_of(s)
    &&& match p.string_length_stats {
        Some(st) => length_stats_of(s) == Some(length_stats_view(st)) && st.mean_len@ == (st.len_sum as int, st.len_count as int),
        None => length_stats_of(s) is None,
    }
    &&& p.uuid_pattern_detected == uuid_detected(s)
    &&& p.json_pattern_detected == json_detected(s)
    &&& p.byte_entropy == byte_entropy
    &&& p.null_count_in_sample == nulls
    &&& p.null_fraction@ == if n > 0 { (nulls as int, n as int) } else { (0int, 1int) }
}

/// Profiles a sample; the HyperLogLog estimate (needed from 50,000 values on)
/// and the byte entropy are computed outside and handed in.
pub fn profile_column(sample: &ColumnSample, hll_estimate: Option<u64>, byte_entropy: Option<Ratio>) -> (p: ColumnProfile)
    requires
        sample_wf(sample),
        lengths_bounded(sample),
        sample_len(&sample.values) - nulls_in(&sample.values, sample_len(&sample.values)) >= exact_limit()
            ==> hll_estimate is Some,
    ensures
        profiles(p, sample, hll_estimate, byte_entropy),
{
    let sample_rows = sample_length(&sample.values);
    let total_file_rows = sample.total_rows_in_file;
    let sample_fraction = if total_file_rows > 0 {
        Ratio::of_counts(sample_rows as u64, total_file_rows as u64)
    } else {
        Ratio::of_counts(0, 1)
    };
    let null_count_in_sample = null_count(&sample.values);
    let null_fraction = if sample_rows > 0 {
        Ratio::of_counts(null_count_in_sample as u64, sample_rows as u64)
    } else {
        Ratio::of_counts(0, 1)
    };
    let (cardinality_estimate, cardinality_method) = cardinality_info(sample, hll_estimate);
    let non_null = sample_rows - null_count_in_sample;
    let cardinality_ratio = if non_null > 0 {
        Ratio::of_counts(cardinality_estimate, non_null as u64)
    } else {
        Ratio::of_counts(0, 1)
    };
    ColumnProfile {
        column_name: sample.column_name.clone(),
        physical_type: sample.physical_type.clone(),
        logical_type: copy_opt_string(&sample.logical_type),
        sample_rows,
        total_file_rows,
        sample_fraction,
        cardinality_estimate,
        cardinality_ratio,
        cardinality_method,
        monotonicity_score: monotonicity_score(sample),
        string_monotonicity_score: string_monotonicity_score(sample),
        run_length_score: run_length_score(sample),
        string_length_stats: string_length_stats(sample),
        uuid_pattern_detected: uuid_pattern_detected(sample),
        json_pattern_detected: json_pattern_detected(sample),
        byte_entropy,
        null_count_in_sample,
        null_fraction,
    }
}

} // verus!

verus! {

impl StringLengthStats {
    pub fn copy(&self) -> (r: StringLengthStats)
        ensures
            r == *self,
    {
        StringLengthStats {
            min_len: self.min_len,
            max_len: self.max_len,
            mean_len: self.mean_len.copy(),
            len_count: self.len_count,
            len_sum: self.len_sum,
            len_sum_sq: self.len_sum_sq,
        }
    }
}

fn copy_opt_ratio(o: &Option<Ratio>) -> (r: Option<Ratio>)
    ensures
        r == *o,
{
    match o {
        Some(x) => Some(x.copy()),
        None => None,
    }
}

impl ColumnProfile {
    pub fn copy(&self) -> (r: ColumnProfile)
        ensures
            r == *self,
    {
        ColumnProfile {
            column_name: copy_string(&self.column_name),
            physical_type: copy_string(&self.physical_type),
            logical_type: copy_opt_string(&self.logical_type),
            sample_rows: self.sample_rows,
            total_file_rows: self.total_file_rows,
            sample_fraction: self.sample_fraction.copy(),
            cardinality_estimate: self.cardinality_estimate,
            cardinality_ratio: self.cardinality_ratio.copy(),
            cardinality_method: copy_string(&self.cardinality_method),
            monotonicity_score: copy_opt_ratio(&self.monotonicity_score),
            string_monotonicity_score: copy_opt_ratio(&self.string_monotonicity_score),
            run_length_score: self.run_length_score.copy(),
            string_length_stats: match &self.string_length_stats {
                Some(st) => Some(st.copy()),
                None => None,
            },
            uuid_pattern_detected: self.uuid_pattern_detected,
            json_pattern_detected: self.json_pattern_detected,
            byte_entropy: copy_opt_ratio(&self.byte_entropy),
            null_count_in_sample: self.null_count_in_sample,
            null_fraction: self.null_fraction.copy(),
        }
    }
}

} // verus!

