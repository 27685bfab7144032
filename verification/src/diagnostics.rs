//! Footer diagnostics: how the file is encoded today, compared with the
//! recommendation, and why the two may differ.

use vstd::prelude::*;
use crate::order::{insert_sorted, lemma_is_sorted_list_of, sorted_list_of, strictly_sorted};
use crate::profiler::metadata::{ColumnMetaSummary, FileProfile, find_column, first_named};
use crate::ratio::{Ratio, fixed_text, frac_lt};
use crate::recommender::encoding::ratio_text;
use crate::text::{
    int_text, join, join_strings, nat_string, nat_text, opt_text, push_int, push_nat, str_eq, text,
    vec_has, views,
};
use crate::tuner::ColumnRecommendation;
use crate::tuner::impact::{codec_full, codec_full_text, lists};

verus! {

/// Encodings that pack definition and repetition levels, not column data.
pub open spec fn is_level_encoding_text(e: Seq<char>) -> bool {
    e == "RLE"@ || e == "BIT_PACKED"@
}

fn is_level_encoding(enc: &str) -> (r: bool)
    ensures
        r == is_level_encoding_text(enc@),
{
    str_eq(enc, "RLE") || str_eq(enc, "BIT_PACKED")
}

/// The data encodings (level encodings left out) that a row group lists.
pub open spec fn rg_data_encodings(rg: Seq<String>) -> Set<Seq<char>> {
    Set::new(
        |e: Seq<char>|
            !is_level_encoding_text(e) && exists|j: int| 0 <= j < rg.len() && #[trigger] rg[j]@ == e,
    )
}

/// The data encodings that any row group lists.
pub open spec fn data_encodings(per_rg: Seq<Vec<String>>) -> Set<Seq<char>> {
    Set::new(
        |e: Seq<char>|
            exists|i: int| 0 <= i < per_rg.len() && #[trigger] rg_data_encodings(per_rg[i]@).contains(e),
    )
}

spec fn rg_data_upto(rg: Seq<String>, j: int) -> Set<Seq<char>> {
    Set::new(
        |e: Seq<char>|
            !is_level_encoding_text(e) && exists|k: int| 0 <= k < j && #[trigger] rg[k]@ == e,
    )
}

/// Adds the data encodings of one row group to a sorted set.
fn add_rg_encodings(acc: &mut Vec<String>, rg: &[String], Ghost(base): Ghost<Set<Seq<char>>>)
    requires
        strictly_sorted(views(old(acc)@)),
        views(old(acc)@).to_set() == base,
    ensures
        strictly_sorted(views(final(acc)@)),
        views(final(acc)@).to_set() == base.union(rg_data_encodings(rg@)),
{
    let mut j: usize = 0;
    while j < rg.len()
        invariant
            j <= rg@.len(),
            strictly_sorted(views(acc@)),
            views(acc@).to_set() == base.union(rg_data_upto(rg@, j as int)),
        decreases rg@.len() - j,
    {
        let e = rg[j].as_str();
        let ghost before = views(acc@).to_set();
        if !is_level_encoding(e) {
            insert_sorted(acc, e);
        }
        proof {
            assert(base.union(rg_data_upto(rg@, j + 1)) =~= if is_level_encoding_text(e@) {
                before
            } else {
                before.insert(e@)
            }) by {
                assert forall|x: Seq<char>| rg_data_upto(rg@, j + 1).contains(x) implies
                    rg_data_upto(rg@, j as int).contains(x) || (x == e@ && !is_level_encoding_text(e@)) by {
                    let k = choose|k: int| 0 <= k < j + 1 && #[trigger] rg@[k]@ == x;
                    if k < j {
                        assert(rg_data_upto(rg@, j as int).contains(x));
                    }
                }
                assert forall|x: Seq<char>| rg_data_upto(rg@, j as int).contains(x) implies
                    rg_data_upto(rg@, j + 1).contains(x) by {
                    let k = choose|k: int| 0 <= k < j && #[trigger] rg@[k]@ == x;
                    assert(rg@[k]@ == x);
                }
                if !is_level_encoding_text(e@) {
                    assert(rg@[j as int]@ == e@);
                    assert(rg_data_upto(rg@, j + 1).contains(e@));
                }
            }
        }
        j = j + 1;
    }
    proof {
        assert(rg_data_upto(rg@, rg@.len() as int) =~= rg_data_encodings(rg@));
    }
}

/// Union of the data encodings across row groups, sorted and without repeats.
pub fn aggregate_data_encodings(per_rg: &[Vec<String>]) -> (r: Vec<String>)
    ensures
        views(r@) == sorted_list_of(data_encodings(per_rg@)),
{
    let mut acc: Vec<String> = Vec::new();
    let mut i: usize = 0;
    proof {
        assert(views(acc@).to_set() =~= Set::<Seq<char>>::empty());
    }
    while i < per_rg.len()
        invariant
            i <= per_rg@.len(),
            strictly_sorted(views(acc@)),
            views(acc@).to_set() == Set::new(
                |e: Seq<char>|
                    exists|a: int| 0 <= a < i && #[trigger] rg_data_encodings(per_rg@[a]@).contains(e),
            ),
        decreases per_rg@.len() - i,
    {
        let ghost base = views(acc@).to_set();
        add_rg_encodings(&mut acc, per_rg[i].as_slice(), Ghost(base));
        proof {
            assert(views(acc@).to_set() =~= Set::new(
                |e: Seq<char>|
                    exists|a: int| 0 <= a < i + 1 && #[trigger] rg_data_encodings(per_rg@[a]@).contains(e),
            )) by {
                assert forall|e: Seq<char>| rg_data_encodings(per_rg@[i as int]@).contains(e) implies
                    exists|a: int| 0 <= a < i + 1 && #[trigger] rg_data_encodings(per_rg@[a]@).contains(e) by {
                    assert(rg_data_encodings(per_rg@[i as int]@).contains(e));
                }
            }
        }
        i = i + 1;
    }
    proof {
        assert(views(acc@).to_set() =~= data_encodings(per_rg@));
        lemma_is_sorted_list_of(views(acc@));
    }
    acc
}

/// The data encodings of one row group, sorted and without repeats.
pub fn filtered_rg(rg: &[String]) -> (r: Vec<String>)
    ensures
        views(r@) == sorted_list_of(rg_data_encodings(rg@)),
{
    let mut acc: Vec<String> = Vec::new();
    proof {
        assert(views(acc@).to_set() =~= Set::<Seq<char>>::empty());
    }
    add_rg_encodings(&mut acc, rg, Ghost(Set::empty()));
    proof {
        assert(views(acc@).to_set() =~= rg_data_encodings(rg@));
        lemma_is_sorted_list_of(views(acc@));
    }
    acc
}

/// A list of encodings for display: comma-separated, or `(none)`.
pub open spec fn set_text(encs: Seq<Seq<char>>) -> Seq<char> {
    if encs.len() == 0 {
        "(none)"@
    } else {
        join(encs, ","@)
    }
}

pub fn fmt_set(encs: &Vec<String>) -> (r: String)
    ensures
        r@ == set_text(views(encs@)),
{
    if encs.len() == 0 {
        text("(none)")
    } else {
        join_strings(encs, ",")
    }
}

} // verus!

verus! {

/// Maximal runs of consecutive indices, as (first, last) pairs, left to right.
pub open spec fn index_runs(idx: Seq<usize>) -> Seq<(int, int)>
    decreases idx.len(),
{
    if idx.len() == 0 {
        seq![]
    } else {
        let runs = index_runs(idx.drop_last());
        let x = idx.last() as int;
        if runs.len() > 0 && runs.last().1 + 1 == x {
            runs.drop_last().push((runs.last().0, x))
        } else {
            runs.push((x, x))
        }
    }
}

pub open spec fn run_text(r: (int, int)) -> Seq<char> {
    if r.0 == r.1 {
        nat_text(r.0 as nat)
    } else {
        nat_text(r.0 as nat) + "-"@ + nat_text(r.1 as nat)
    }
}

/// A list of row-group indices for display: `RG 3`, or `RGs 0-2,5`.
pub open spec fn rg_list_text(idx: Seq<usize>) -> Seq<char> {
    if idx.len() == 0 {
        seq![]
    } else if idx.len() == 1 {
        "RG "@ + nat_text(idx[0] as nat)
    } else {
        "RGs "@ + join(index_runs(idx).map_values(|r: (int, int)| run_text(r)), ","@)
    }
}

proof fn lemma_push_run(parts: Seq<String>, part: String, done: Seq<(int, int)>, run: (int, int))
    requires
        views(parts) == done.map_values(|r: (int, int)| run_text(r)),
        part@ == run_text(run),
    ensures
        views(parts.push(part)) == done.push(run).map_values(|r: (int, int)| run_text(r)),
{
    assert(views(parts.push(part)) =~= views(parts).push(part@));
    assert(done.push(run).map_values(|r: (int, int)| run_text(r)) =~= done.map_values(
        |r: (int, int)| run_text(r),
    ).push(run_text(run)));
}

fn run_string(first: usize, last: usize) -> (s: String)
    ensures
        s@ == run_text((first as int, last as int)),
{
    let mut s = nat_string(first as u128);
    if first != last {
        s.append("-");
        push_nat(&mut s, last as u128);
    }
    s
}

/// Formats row-group indices compactly, grouping consecutive runs.
pub fn fmt_rg_list(indices: &[usize]) -> (r: String)
    requires
        forall|k: int| 0 <= k < indices@.len() - 1 ==> indices@[k] < usize::MAX,
    ensures
        r@ == rg_list_text(indices@),
{
    if indices.len() == 0 {
        return String::new();
    }
    if indices.len() == 1 {
        let mut s = text("RG ");
        push_nat(&mut s, indices[0] as u128);
        return s;
    }
    let mut parts: Vec<String> = Vec::new();
    let ghost mut done: Seq<(int, int)> = seq![];
    let mut start = indices[0];
    let mut prev = indices[0];
    let mut k: usize = 1;
    proof {
        let t = indices@.take(1);
        assert(t.drop_last() =~= Seq::<usize>::empty());
        assert(index_runs(t.drop_last()) =~= Seq::<(int, int)>::empty());
        assert(t.last() == indices@[0]);
        assert(index_runs(t) =~= seq![(start as int, prev as int)]);
        assert(views(parts@) =~= done.map_values(|r: (int, int)| run_text(r)));
    }
    while k < indices.len()
        invariant
            1 <= k <= indices@.len(),
            forall|q: int| 0 <= q < indices@.len() - 1 ==> indices@[q] < usize::MAX,
            prev == indices@[k - 1],
            index_runs(indices@.take(k as int)) == done.push((start as int, prev as int)),
            views(parts@) == done.map_values(|r: (int, int)| run_text(r)),
        decreases indices@.len() - k,
    {
        let i = indices[k];
        let ghost before = done.push((start as int, prev as int));
        proof {
            let t = indices@.take(k + 1);
            assert(t.drop_last() =~= indices@.take(k as int));
            assert(t.last() == i);
            assert(before.last() == (start as int, prev as int));
            assert(before.drop_last() =~= done);
        }
        if i == prev + 1 {
            prev = i;
        } else {
            let part = run_string(start, prev);
            let ghost old_parts = parts@;
            parts.push(part);
            proof {
                lemma_push_run(old_parts, part, done, (start as int, prev as int));
                done = done.push((start as int, prev as int));
            }
            start = i;
            prev = i;
        }
        proof {
            assert(views(parts@) =~= done.map_values(|r: (int, int)| run_text(r)));
            assert(index_runs(indices@.take(k + 1)) =~= done.push((start as int, prev as int)));
        }
        k = k + 1;
    }
    let part = run_string(start, prev);
    let ghost old_parts = parts@;
    parts.push(part);
    proof {
        assert(indices@.take(indices@.len() as int) =~= indices@);
        lemma_push_run(old_parts, part, done, (start as int, prev as int));
        done = done.push((start as int, prev as int));
        assert(views(parts@) =~= index_runs(indices@).map_values(|r: (int, int)| run_text(r)));
    }
    let joined = join_strings(&parts, ",");
    let mut s = text("RGs ");
    s.append(joined.as_str());
    s
}

/// The data encodings of each row group, sorted and without repeats.
pub open spec fn filtered_sets(per_rg: Seq<Vec<String>>) -> Seq<Seq<Seq<char>>> {
    per_rg.map_values(|r: Vec<String>| sorted_list_of(rg_data_encodings(r@)))
}

/// Consecutive row groups that share one encoding set, as (set, indices) pairs.
pub open spec fn set_groups(f: Seq<Seq<Seq<char>>>) -> Seq<(Seq<Seq<char>>, Seq<usize>)>
    decreases f.len(),
{
    if f.len() == 0 {
        seq![]
    } else {
        let groups = set_groups(f.drop_last());
        let i = (f.len() - 1) as usize;
        if groups.len() > 0 && groups.last().0 == f.last() {
            groups.drop_last().push((groups.last().0, groups.last().1.push(i)))
        } else {
            groups.push((f.last(), seq![i]))
        }
    }
}

pub open spec fn group_text(g: (Seq<Seq<char>>, Seq<usize>)) -> Seq<char> {
    set_text(g.0) + " in "@ + rg_list_text(g.1)
}

/// `None` when every row group has the same data encodings (or there are fewer
/// than two row groups); otherwise the groups of consecutive row groups that
/// share a set, each as `set in RGs ...`, separated by `; `.
pub open spec fn variance_summary(per_rg: Seq<Vec<String>>) -> Option<Seq<char>> {
    let f = filtered_sets(per_rg);
    if per_rg.len() < 2 || (forall|i: int| 0 <= i < f.len() ==> #[trigger] f[i] == f[0]) {
        None
    } else {
        Some(join(set_groups(f).map_values(|g: (Seq<Seq<char>>, Seq<usize>)| group_text(g)), "; "@))
    }
}

/// Whether two lists of strings hold the same strings in the same order.
fn same_strings(a: &Vec<String>, b: &Vec<String>) -> (r: bool)
    ensures
        r == (views(a@) == views(b@)),
{
    if a.len() != b.len() {
        proof {
            assert(views(a@).len() != views(b@).len());
        }
        return false;
    }
    let mut i: usize = 0;
    while i < a.len()
        invariant
            i <= a@.len(),
            a@.len() == b@.len(),
            forall|j: int| 0 <= j < i ==> a@[j]@ == b@[j]@,
        decreases a@.len() - i,
    {
        if !str_eq(a[i].as_str(), b[i].as_str()) {
            proof {
                assert(views(a@)[i as int] != views(b@)[i as int]);
            }
            return false;
        }
        i = i + 1;
    }
    proof {
        assert(views(a@) =~= views(b@));
    }
    true
}

proof fn lemma_push_group(
    parts: Seq<String>,
    part: String,
    done: Seq<(Seq<Seq<char>>, Seq<usize>)>,
    g: (Seq<Seq<char>>, Seq<usize>),
)
    requires
        views(parts) == done.map_values(|x: (Seq<Seq<char>>, Seq<usize>)| group_text(x)),
        part@ == group_text(g),
    ensures
        views(parts.push(part)) == done.push(g).map_values(
            |x: (Seq<Seq<char>>, Seq<usize>)| group_text(x),
        ),
{
    assert(views(parts.push(part)) =~= views(parts).push(part@));
    assert(done.push(g).map_values(|x: (Seq<Seq<char>>, Seq<usize>)| group_text(x))
        =~= done.map_values(|x: (Seq<Seq<char>>, Seq<usize>)| group_text(x)).push(group_text(g)));
}

/// `set in RGs ...` for one group.
fn group_string(set: &Vec<String>, idxs: &Vec<usize>) -> (s: String)
    requires
        forall|k: int| 0 <= k < idxs@.len() ==> idxs@[k] < usize::MAX,
    ensures
        s@ == group_text((views(set@), idxs@)),
{
    let mut s = fmt_set(set);
    s.append(" in ");
    let l = fmt_rg_list(idxs.as_slice());
    s.append(l.as_str());
    s
}

/// `None` when all row groups share one data-encoding set; otherwise a compact
/// description of the groups of consecutive row groups with identical sets.
pub fn per_row_group_variance_summary(per_rg: &[Vec<String>]) -> (r: Option<String>)
    ensures
        opt_text(r) == variance_summary(per_rg@),
{
    if per_rg.len() < 2 {
        return None;
    }
    let ghost f = filtered_sets(per_rg@);
    let mut filtered: Vec<Vec<String>> = Vec::new();
    let mut i: usize = 0;
    while i < per_rg.len()
        invariant
            i <= per_rg@.len(),
            f == filtered_sets(per_rg@),
            filtered@.len() == i,
            forall|j: int| 0 <= j < i ==> views(#[trigger] filtered@[j]@) == f[j],
        decreases per_rg@.len() - i,
    {
        let v = filtered_rg(per_rg[i].as_slice());
        filtered.push(v);
        i = i + 1;
    }
    let mut all_same = true;
    let mut i: usize = 1;
    while i < filtered.len()
        invariant
            1 <= i <= filtered@.len(),
            filtered@.len() == f.len(),
            forall|j: int| 0 <= j < f.len() ==> views(#[trigger] filtered@[j]@) == f[j],
            all_same == (forall|j: int| 0 <= j < i ==> #[trigger] f[j] == f[0]),
        decreases filtered@.len() - i,
    {
        let same = same_strings(&filtered[i], &filtered[0]);
        proof {
            if all_same && same {
                assert forall|j: int| 0 <= j < i + 1 implies #[trigger] f[j] == f[0] by {
                    if j == i {
                        assert(f[j] == views(filtered@[j]@));
                    }
                }
            }
            if !same {
                assert(!(f[i as int] == f[0]));
            }
        }
        all_same = all_same && same;
        i = i + 1;
    }
    if all_same {
        return None;
    }
    let mut parts: Vec<String> = Vec::new();
    let ghost mut done: Seq<(Seq<Seq<char>>, Seq<usize>)> = seq![];
    let mut cur: usize = 0;
    let mut idxs: Vec<usize> = Vec::new();
    idxs.push(0);
    proof {
        let t = f.take(1);
        assert(t.drop_last() =~= Seq::<Seq<Seq<char>>>::empty());
        assert(set_groups(t.drop_last()) =~= Seq::<(Seq<Seq<char>>, Seq<usize>)>::empty());
        assert(set_groups(t) =~= seq![(f[0], seq![0usize])]);
        assert(idxs@ =~= seq![0usize]);
        assert(views(parts@) =~= done.map_values(|x: (Seq<Seq<char>>, Seq<usize>)| group_text(x)));
    }
    let mut k: usize = 1;
    while k < filtered.len()
        invariant
            1 <= k <= filtered@.len(),
            filtered@.len() == f.len(),
            f.len() <= usize::MAX,
            forall|j: int| 0 <= j < f.len() ==> views(#[trigger] filtered@[j]@) == f[j],
            cur < k,
            forall|q: int| 0 <= q < idxs@.len() ==> idxs@[q] < k,
            set_groups(f.take(k as int)) == done.push((f[cur as int], idxs@)),
            views(parts@) == done.map_values(|x: (Seq<Seq<char>>, Seq<usize>)| group_text(x)),
        decreases filtered@.len() - k,
    {
        let ghost before = done.push((f[cur as int], idxs@));
        proof {
            let t = f.take(k + 1);
            assert(t.drop_last() =~= f.take(k as int));
            assert(t.last() == f[k as int]);
            assert(before.last() == (f[cur as int], idxs@));
            assert(before.drop_last() =~= done);
        }
        let same = same_strings(&filtered[k], &filtered[cur]);
        if same {
            idxs.push(k);
        } else {
            let part = group_string(&filtered[cur], &idxs);
            let ghost old_parts = parts@;
            parts.push(part);
            proof {
                lemma_push_group(old_parts, part, done, (f[cur as int], idxs@));
                done = done.push((f[cur as int], idxs@));
            }
            cur = k;
            idxs = Vec::new();
            idxs.push(k);
        }
        proof {
            assert(views(parts@) =~= done.map_values(|x: (Seq<Seq<char>>, Seq<usize>)| group_text(x)));
            assert(set_groups(f.take(k + 1)) =~= done.push((f[cur as int], idxs@)));
        }
        k = k + 1;
    }
    let part = group_string(&filtered[cur], &idxs);
    let ghost old_parts = parts@;
    parts.push(part);
    proof {
        assert(f.take(f.len() as int) =~= f);
        lemma_push_group(old_parts, part, done, (f[cur as int], idxs@));
        done = done.push((f[cur as int], idxs@));
        assert(views(parts@) =~= set_groups(f).map_values(|x: (Seq<Seq<char>>, Seq<usize>)| group_text(x)));
    }
    let joined = join_strings(&parts, "; ");
    Some(joined)
}

} // verus!

verus! {

/// Whether a footer's encodings match the recommendation, and if not, how.
#[derive(Clone, Copy, Debug, PartialEq, Eq, Structural)]
pub enum DiagnosticStatus {
    Match,
    FallbackDictionary,
    IneffectiveEncoding,
    Mismatch,
}

/// How a column is encoded today, compared with what is recommended.
pub struct ColumnDiagnostic {
    pub column_name: String,
    pub current_encodings: Vec<String>,
    pub per_row_group_summary: Option<String>,
    pub current_codec: String,
    pub current_compression_ratio: Ratio,
    pub status: DiagnosticStatus,
    pub observation: String,
    pub cause_hypothesis: Option<String>,
    pub supporting_metric: Option<String>,
}

/// The list holds a dictionary encoding.
pub open spec fn has_dict(encs: Seq<String>) -> bool {
    lists(encs, "RLE_DICTIONARY"@) || lists(encs, "PLAIN_DICTIONARY"@)
}

/// The list holds PLAIN.
pub open spec fn has_plain(encs: Seq<String>) -> bool {
    lists(encs, "PLAIN"@)
}

fn has_dict_encoding(encs: &Vec<String>) -> (r: bool)
    ensures
        r == has_dict(encs@),
{
    vec_has(encs, "RLE_DICTIONARY") || vec_has(encs, "PLAIN_DICTIONARY")
}

fn has_plain_data(encs: &Vec<String>) -> (r: bool)
    ensures
        r == has_plain(encs@),
{
    vec_has(encs, "PLAIN")
}

/// The positions below `n` where `p` holds, in increasing order.
pub open spec fn matching_indices(n: nat, p: spec_fn(int) -> bool) -> Seq<usize>
    decreases n,
{
    if n == 0 {
        seq![]
    } else {
        let before = matching_indices((n - 1) as nat, p);
        if p(n - 1) {
            before.push((n - 1) as usize)
        } else {
            before
        }
    }
}

proof fn lemma_matching_below_all()
    ensures
        forall|n: nat, p: spec_fn(int) -> bool, k: int|
            0 <= k < matching_indices(n, p).len() ==> #[trigger] matching_indices(n, p)[k] < n,
{
    assert forall|n: nat, p: spec_fn(int) -> bool, k: int|
        0 <= k < matching_indices(n, p).len() implies #[trigger] matching_indices(n, p)[k] < n by {
        lemma_matching_below(n, p);
    }
}

proof fn lemma_matching_below(n: nat, p: spec_fn(int) -> bool)
    ensures
        forall|k: int| 0 <= k < matching_indices(n, p).len() ==> #[trigger] matching_indices(n, p)[k] < n,
    decreases n,
{
    if n > 0 {
        lemma_matching_below((n - 1) as nat, p);
        let before = matching_indices((n - 1) as nat, p);
        assert forall|k: int| 0 <= k < matching_indices(n, p).len() implies #[trigger] matching_indices(n, p)[k] < n by {
            if k < before.len() {
                assert(matching_indices(n, p)[k] == before[k]);
            }
        }
    }
}

/// Dictionary pages this large (about 900 KB) show that the dictionary filled up.
pub open spec fn dict_near_limit(b: Option<i64>) -> bool {
    match b {
        Some(x) => x >= 900_000,
        None => false,
    }
}

/// Row groups with both dictionary and PLAIN data whose dictionary page is near the limit.
pub open spec fn mid_chunk_rgs(per_rg: Seq<Vec<String>>, dict: Seq<Option<i64>>) -> Seq<usize> {
    matching_indices(
        per_rg.len(),
        |i: int| has_dict(per_rg[i]@) && has_plain(per_rg[i]@) && i < dict.len() && dict_near_limit(dict[i]),
    )
}

/// Row groups with a dictionary encoding.
pub open spec fn dict_rgs_of(per_rg: Seq<Vec<String>>) -> Seq<usize> {
    matching_indices(per_rg.len(), |i: int| has_dict(per_rg[i]@))
}

/// Row groups with PLAIN data and no dictionary encoding.
pub open spec fn plain_only_rgs_of(per_rg: Seq<Vec<String>>) -> Seq<usize> {
    matching_indices(per_rg.len(), |i: int| !has_dict(per_rg[i]@) && has_plain(per_rg[i]@))
}

/// Row groups whose dictionary overflowed mid-chunk: both encodings present
/// and a known dictionary page of at least 900,000 bytes.
pub fn mid_chunk_fallback_rgs(per_rg: &[Vec<String>], dict_bytes: &[Option<i64>]) -> (r: Vec<usize>)
    ensures
        r@ == mid_chunk_rgs(per_rg@, dict_bytes@),
{
    let ghost p = |i: int| has_dict(per_rg@[i]@) && has_plain(per_rg@[i]@) && i < dict_bytes@.len()
        && dict_near_limit(dict_bytes@[i]);
    let mut r: Vec<usize> = Vec::new();
    let mut i: usize = 0;
    while i < per_rg.len()
        invariant
            i <= per_rg@.len(),
            p == (|i: int| has_dict(per_rg@[i]@) && has_plain(per_rg@[i]@) && i < dict_bytes@.len()
                && dict_near_limit(dict_bytes@[i])),
            r@ == matching_indices(i as nat, p),
        decreases per_rg@.len() - i,
    {
        let encs = &per_rg[i];
        let mut hit = has_dict_encoding(encs) && has_plain_data(encs);
        if hit {
            hit = if i < dict_bytes.len() {
                match dict_bytes[i] {
                    Some(b) => b >= 900_000,
                    None => false,
                }
            } else {
                false
            };
        }
        assert(hit == p(i as int));
        if hit {
            r.push(i);
        }
        i = i + 1;
    }
    r
}

/// Row groups that use a dictionary, and row groups with PLAIN data only.
pub fn cross_rg_dict_mix(per_rg: &[Vec<String>]) -> (r: (Vec<usize>, Vec<usize>))
    ensures
        r.0@ == dict_rgs_of(per_rg@),
        r.1@ == plain_only_rgs_of(per_rg@),
{
    let ghost pd = |i: int| has_dict(per_rg@[i]@);
    let ghost pp = |i: int| !has_dict(per_rg@[i]@) && has_plain(per_rg@[i]@);
    let mut dict_rgs: Vec<usize> = Vec::new();
    let mut plain_only_rgs: Vec<usize> = Vec::new();
    let mut i: usize = 0;
    while i < per_rg.len()
        invariant
            i <= per_rg@.len(),
            pd == (|i: int| has_dict(per_rg@[i]@)),
            pp == (|i: int| !has_dict(per_rg@[i]@) && has_plain(per_rg@[i]@)),
            dict_rgs@ == matching_indices(i as nat, pd),
            plain_only_rgs@ == matching_indices(i as nat, pp),
        decreases per_rg@.len() - i,
    {
        let d = has_dict_encoding(&per_rg[i]);
        let p = has_plain_data(&per_rg[i]);
        if d {
            dict_rgs.push(i);
        }
        if !d && p {
            plain_only_rgs.push(i);
        }
        i = i + 1;
    }
    (dict_rgs, plain_only_rgs)
}

/// The largest known dictionary page size.
pub open spec fn largest_dict(d: Seq<Option<i64>>) -> Option<i64>
    decreases d.len(),
{
    if d.len() == 0 {
        None
    } else {
        let before = largest_dict(d.drop_last());
        match (before, d.last()) {
            (None, x) => x,
            (Some(a), None) => Some(a),
            (Some(a), Some(b)) => Some(if a >= b { a } else { b }),
        }
    }
}

pub fn largest_dict_page_bytes(per_rg_dict: &[Option<i64>]) -> (r: Option<i64>)
    ensures
        r == largest_dict(per_rg_dict@),
{
    let mut best: Option<i64> = None;
    let mut i: usize = 0;
    while i < per_rg_dict.len()
        invariant
            i <= per_rg_dict@.len(),
            best == largest_dict(per_rg_dict@.take(i as int)),
        decreases per_rg_dict@.len() - i,
    {
        proof {
            assert(per_rg_dict@.take(i + 1).drop_last() =~= per_rg_dict@.take(i as int));
        }
        best = match (best, per_rg_dict[i]) {
            (None, x) => x,
            (Some(a), None) => Some(a),
            (Some(a), Some(b)) => Some(if a >= b { a } else { b }),
        };
        i = i + 1;
    }
    proof {
        assert(per_rg_dict@.take(per_rg_dict@.len() as int) =~= per_rg_dict@);
    }
    best
}

/// A byte count for display: `1.50 MB`, `2.0 KB` or `512 B`.
pub open spec fn human_bytes_text(n: i64) -> Seq<char> {
    if n >= 1_048_576 {
        fixed_text(n as int, 1_048_576, 2) + " MB"@
    } else if n >= 1024 {
        fixed_text(n as int, 1024, 1) + " KB"@
    } else {
        int_text(n as int) + " B"@
    }
}

pub fn human_bytes(n: i64) -> (s: String)
    ensures
        s@ == human_bytes_text(n),
{
    if n >= 1_048_576 {
        let mut s = Ratio::new(n, 1_048_576).to_fixed(2);
        s.append(" MB");
        s
    } else if n >= 1024 {
        let mut s = Ratio::new(n, 1024).to_fixed(1);
        s.append(" KB");
        s
    } else {
        let mut s = String::new();
        push_int(&mut s, n);
        s.append(" B");
        proof {
            assert(s@ =~= human_bytes_text(n));
        }
        s
    }
}

/// The recommended codec with its level.
pub fn recommended_codec_full(rec: &ColumnRecommendation) -> (s: String)
    ensures
        s@ == codec_full_text(rec.recommended_codec@, rec.recommended_codec_level),
{
    codec_full(&rec.recommended_codec, rec.recommended_codec_level)
}

} // verus!

verus! {

/// The current data encodings of a column, sorted and without repeats.
pub open spec fn current_set(meta: &ColumnMetaSummary) -> Seq<Seq<char>> {
    sorted_list_of(data_encodings(meta.per_row_group_encodings@))
}

pub open spec fn dict_metric(meta: &ColumnMetaSummary) -> Option<Seq<char>> {
    match largest_dict(meta.per_row_group_dict_page_bytes@) {
        Some(b) => Some("largest dict page ≈ "@ + human_bytes_text(b)),
        None => None,
    }
}

pub open spec fn ratio_metric(meta: &ColumnMetaSummary) -> Seq<char> {
    "ratio="@ + ratio_text(meta.compression_ratio@, 2) + "×"@
}

pub open spec fn diffs_text(enc_match: bool, codec_match: bool) -> Seq<char> {
    if !enc_match && !codec_match {
        "encoding and codec"@
    } else if !enc_match {
        "encoding"@
    } else {
        "codec"@
    }
}

/// The verdict on a column, the first rule that applies winning: a dictionary
/// that overflowed mid-chunk; dictionary in some row groups and PLAIN only in
/// others; a recommended dictionary that the writer never applied; DELTA or
/// BYTE_STREAM_SPLIT applied to at least 10,000 bytes with a ratio under 1.5
/// or 1.1; a match of encoding and codec; otherwise a mismatch.
pub open spec fn diagnosis(meta: &ColumnMetaSummary, rec: &ColumnRecommendation) -> (
    DiagnosticStatus,
    Seq<char>,
    Option<Seq<char>>,
    Option<Seq<char>>,
) {
    let per_rg = meta.per_row_group_encodings@;
    let cur = current_set(meta);
    let cur_codec = meta.codec@;
    let rec_full = codec_full_text(rec.recommended_codec@, rec.recommended_codec_level);
    let mid = mid_chunk_rgs(per_rg, meta.per_row_group_dict_page_bytes@);
    let dict_rgs = dict_rgs_of(per_rg);
    let plain_rgs = plain_only_rgs_of(per_rg);
    let ratio = meta.compression_ratio@;
    let big = meta.uncompressed_bytes >= 10_000;
    let enc_match = cur.contains(rec.recommended_encoding@);
    let codec_match = cur_codec == rec_full;
    if mid.len() > 0 {
        (
            DiagnosticStatus::FallbackDictionary,
            "Dictionary encoding overflowed mid-chunk in "@ + rg_list_text(mid)
                + ". Data pages fell back to PLAIN within those row groups."@,
            Some("Dictionary page exceeded the writer's limit (default 1 MB) — cardinality too high for dictionary encoding."@),
            dict_metric(meta),
        )
    } else if dict_rgs.len() > 0 && plain_rgs.len() > 0 {
        (
            DiagnosticStatus::FallbackDictionary,
            "Dictionary encoding used in "@ + rg_list_text(dict_rgs) + "; fell back to PLAIN in "@
                + rg_list_text(plain_rgs) + "."@,
            Some("Dictionary page filled up in some row groups (likely cardinality overflow) — consider increasing the dictionary page size or accepting PLAIN for this column."@),
            dict_metric(meta),
        )
    } else if rec.recommended_encoding@ == "RLE_DICTIONARY"@ && !(cur.contains("RLE_DICTIONARY"@)
        || cur.contains("PLAIN_DICTIONARY"@)) {
        (
            DiagnosticStatus::Mismatch,
            "Column is currently "@ + set_text(cur) + " + "@ + cur_codec
                + "; writer did not apply dictionary encoding."@,
            Some("Writer did not hint dictionary encoding — applying our recommendation would likely reduce size substantially."@),
            Some("cardinality_ratio="@ + ratio_text(rec.cardinality_ratio@, 4)),
        )
    } else if big && cur.contains("DELTA_BINARY_PACKED"@) && rec.recommended_encoding@
        != "DELTA_BINARY_PACKED"@ && frac_lt(ratio, 3, 2) {
        (
            DiagnosticStatus::IneffectiveEncoding,
            "DELTA_BINARY_PACKED is applied but achieving only "@ + ratio_text(ratio, 2)
                + "× compression — values likely aren't monotonic."@,
            Some("DELTA encoding benefits require monotonic (usually sorted) values. Use PLAIN for arbitrary integer distributions."@),
            Some(ratio_metric(meta)),
        )
    } else if big && cur.contains("BYTE_STREAM_SPLIT"@) && frac_lt(ratio, 11, 10) {
        (
            DiagnosticStatus::IneffectiveEncoding,
            "BYTE_STREAM_SPLIT is applied but achieving only "@ + ratio_text(ratio, 2)
                + "× compression — byte positions aren't well correlated across values."@,
            Some("BSS benefits floats whose same byte-positions have similar distributions (e.g., physical measurements in a range). Arbitrary floats get no benefit."@),
            Some(ratio_metric(meta)),
        )
    } else if enc_match && codec_match {
        (DiagnosticStatus::Match, "File matches recommendation."@, None, Some(ratio_metric(meta)))
    } else {
        (
            DiagnosticStatus::Mismatch,
            "Current "@ + diffs_text(enc_match, codec_match) + " differs from recommendation (have: "@
                + set_text(cur) + " + "@ + cur_codec + "; recommend: "@ + rec.recommended_encoding@
                + " + "@ + rec_full + ")."@,
            None,
            Some(ratio_metric(meta)),
        )
    }
}

/// Whether the list holds `x`.
fn list_has(v: &Vec<String>, x: &str) -> (r: bool)
    ensures
        r == views(v@).contains(x@),
{
    let r = vec_has(v, x);
    proof {
        if r {
            let i = choose|i: int| 0 <= i < v@.len() && #[trigger] v@[i]@ == x@;
            assert(views(v@)[i] == x@);
        }
        if views(v@).contains(x@) {
            let i = choose|i: int| 0 <= i < views(v@).len() && views(v@)[i] == x@;
            assert(v@[i]@ == x@);
        }
    }
    r
}

fn dict_metric_exec(meta: &ColumnMetaSummary) -> (m: Option<String>)
    ensures
        opt_text(m) == dict_metric(meta),
{
    match largest_dict_page_bytes(meta.per_row_group_dict_page_bytes.as_slice()) {
        Some(b) => {
            let mut s = text("largest dict page ≈ ");
            let h = human_bytes(b);
            s.append(h.as_str());
            Some(s)
        },
        None => None,
    }
}

fn ratio_metric_exec(meta: &ColumnMetaSummary) -> (m: String)
    ensures
        m@ == ratio_metric(meta),
{
    let mut s = text("ratio=");
    let r = meta.compression_ratio.to_fixed(2);
    s.append(r.as_str());
    s.append("×");
    s
}

fn diagnosis_exec(
    meta: &ColumnMetaSummary,
    rec: &ColumnRecommendation,
    cur: &Vec<String>,
    rec_full: &String,
) -> (res: (DiagnosticStatus, String, Option<String>, Option<String>))
    requires
        views(cur@) == current_set(meta),
        rec_full@ == codec_full_text(rec.recommended_codec@, rec.recommended_codec_level),
    ensures
        (res.0, res.1@, opt_text(res.2), opt_text(res.3)) == diagnosis(meta, rec),
{
    proof {
        lemma_matching_below_all();
    }
    let per_rg = meta.per_row_group_encodings.as_slice();
    let n_rg = per_rg.len();
    let mid = mid_chunk_fallback_rgs(per_rg, meta.per_row_group_dict_page_bytes.as_slice());
    proof {
        assert forall|k: int| 0 <= k < mid@.len() implies mid@[k] < n_rg by {
            assert(mid@[k] == mid_chunk_rgs(per_rg@, meta.per_row_group_dict_page_bytes@)[k]);
        }
    }
    if mid.len() > 0 {
        let mut obs = text("Dictionary encoding overflowed mid-chunk in ");
        let l = fmt_rg_list(mid.as_slice());
        obs.append(l.as_str());
        obs.append(". Data pages fell back to PLAIN within those row groups.");
        return (
            DiagnosticStatus::FallbackDictionary,
            obs,
            Some(text("Dictionary page exceeded the writer's limit (default 1 MB) — cardinality too high for dictionary encoding.")),
            dict_metric_exec(meta),
        );
    }
    let (dict_rgs, plain_rgs) = cross_rg_dict_mix(per_rg);
    proof {
        assert forall|k: int| 0 <= k < dict_rgs@.len() implies dict_rgs@[k] < n_rg by {
            assert(dict_rgs@[k] == dict_rgs_of(per_rg@)[k]);
        }
        assert forall|k: int| 0 <= k < plain_rgs@.len() implies plain_rgs@[k] < n_rg by {
            assert(plain_rgs@[k] == plain_only_rgs_of(per_rg@)[k]);
        }
    }
    if dict_rgs.len() > 0 && plain_rgs.len() > 0 {
        let mut obs = text("Dictionary encoding used in ");
        let l1 = fmt_rg_list(dict_rgs.as_slice());
        obs.append(l1.as_str());
        obs.append("; fell back to PLAIN in ");
        let l2 = fmt_rg_list(plain_rgs.as_slice());
        obs.append(l2.as_str());
        obs.append(".");
        return (
            DiagnosticStatus::FallbackDictionary,
            obs,
            Some(text("Dictionary page filled up in some row groups (likely cardinality overflow) — consider increasing the dictionary page size or accepting PLAIN for this column.")),
            dict_metric_exec(meta),
        );
    }
    let rec_enc = rec.recommended_encoding.as_str();
    if str_eq(rec_enc, "RLE_DICTIONARY") && !(list_has(cur, "RLE_DICTIONARY") || list_has(
        cur,
        "PLAIN_DICTIONARY",
    )) {
        let mut obs = text("Column is currently ");
        let set = fmt_set(cur);
        obs.append(set.as_str());
        obs.append(" + ");
        obs.append(meta.codec.as_str());
        obs.append("; writer did not apply dictionary encoding.");
        let mut metric = text("cardinality_ratio=");
        let cr = rec.cardinality_ratio.to_fixed(4);
        metric.append(cr.as_str());
        return (
            DiagnosticStatus::Mismatch,
            obs,
            Some(text("Writer did not hint dictionary encoding — applying our recommendation would likely reduce size substantially.")),
            Some(metric),
        );
    }
    let big = meta.uncompressed_bytes >= 10_000;
    let ratio = &meta.compression_ratio;
    if big && list_has(cur, "DELTA_BINARY_PACKED") && !str_eq(rec_enc, "DELTA_BINARY_PACKED")
        && ratio.lt_frac(3, 2) {
        let mut obs = text("DELTA_BINARY_PACKED is applied but achieving only ");
        let r2 = ratio.to_fixed(2);
        obs.append(r2.as_str());
        obs.append("× compression — values likely aren't monotonic.");
        return (
            DiagnosticStatus::IneffectiveEncoding,
            obs,
            Some(text("DELTA encoding benefits require monotonic (usually sorted) values. Use PLAIN for arbitrary integer distributions.")),
            Some(ratio_metric_exec(meta)),
        );
    }
    if big && list_has(cur, "BYTE_STREAM_SPLIT") && ratio.lt_frac(11, 10) {
        let mut obs = text("BYTE_STREAM_SPLIT is applied but achieving only ");
        let r2 = ratio.to_fixed(2);
        obs.append(r2.as_str());
        obs.append("× compression — byte positions aren't well correlated across values.");
        return (
            DiagnosticStatus::IneffectiveEncoding,
            obs,
            Some(text("BSS benefits floats whose same byte-positions have similar distributions (e.g., physical measurements in a range). Arbitrary floats get no benefit.")),
            Some(ratio_metric_exec(meta)),
        );
    }
    let enc_match = list_has(cur, rec_enc);
    let codec_match = str_eq(meta.codec.as_str(), rec_full.as_str());
    if enc_match && codec_match {
        return (
            DiagnosticStatus::Match,
            text("File matches recommendation."),
            None,
            Some(ratio_metric_exec(meta)),
        );
    }
    let diffs = if !enc_match && !codec_match {
        "encoding and codec"
    } else if !enc_match {
        "encoding"
    } else {
        "codec"
    };
    let mut obs = text("Current ");
    obs.append(diffs);
    obs.append(" differs from recommendation (have: ");
    let set = fmt_set(cur);
    obs.append(set.as_str());
    obs.append(" + ");
    obs.append(meta.codec.as_str());
    obs.append("; recommend: ");
    obs.append(rec_enc);
    obs.append(" + ");
    obs.append(rec_full.as_str());
    obs.append(").");
    (DiagnosticStatus::Mismatch, obs, None, Some(ratio_metric_exec(meta)))
}

/// `d` is the diagnostic of `meta` against `rec`.
pub open spec fn diagnoses(d: ColumnDiagnostic, meta: &ColumnMetaSummary, rec: &ColumnRecommendation) -> bool {
    &&& d.column_name@ == meta.name@
    &&& views(d.current_encodings@) == current_set(meta)
    &&& opt_text(d.per_row_group_summary) == variance_summary(meta.per_row_group_encodings@)
    &&& d.current_codec@ == meta.codec@
    &&& d.current_compression_ratio@ == meta.compression_ratio@
    &&& (d.status, d.observation@, opt_text(d.cause_hypothesis), opt_text(d.supporting_metric))
        == diagnosis(meta, rec)
}

/// Compares a column's footer with its recommendation: the verdict of the
/// first rule that applies (see `diagnosis`), with the current encodings,
/// how they vary across row groups, and the current codec and ratio.
pub fn diagnose_column(meta: &ColumnMetaSummary, rec: &ColumnRecommendation) -> (d: ColumnDiagnostic)
    ensures
        d.column_name@ == meta.name@,
        views(d.current_encodings@) == current_set(meta),
        opt_text(d.per_row_group_summary) == variance_summary(meta.per_row_group_encodings@),
        d.current_codec@ == meta.codec@,
        d.current_compression_ratio@ == meta.compression_ratio@,
        (d.status, d.observation@, opt_text(d.cause_hypothesis), opt_text(d.supporting_metric))
            == diagnosis(meta, rec),
        diagnoses(d, meta, rec),
{
    let current_encodings = aggregate_data_encodings(meta.per_row_group_encodings.as_slice());
    let per_row_group_summary = per_row_group_variance_summary(meta.per_row_group_encodings.as_slice());
    let rec_codec_full = recommended_codec_full(rec);
    let (status, observation, cause_hypothesis, supporting_metric) = diagnosis_exec(
        meta,
        rec,
        &current_encodings,
        &rec_codec_full,
    );
    ColumnDiagnostic {
        column_name: meta.name.clone(),
        current_encodings,
        per_row_group_summary,
        current_codec: meta.codec.clone(),
        current_compression_ratio: meta.compression_ratio.copy(),
        status,
        observation,
        cause_hypothesis,
        supporting_metric,
    }
}

/// For each recommendation whose column the file has, in order, the position
/// of the recommendation and of the first column with its name.
pub open spec fn diagnosed_pairs(recs: Seq<ColumnRecommendation>, cols: Seq<ColumnMetaSummary>) -> Seq<
    (int, int),
>
    decreases recs.len(),
{
    if recs.len() == 0 {
        seq![]
    } else {
        let before = diagnosed_pairs(recs.drop_last(), cols);
        match first_named(cols, recs.last().name_view()) {
            Some(c) => before.push((recs.len() - 1, c)),
            None => before,
        }
    }
}

/// `r` holds, in order, the diagnosis of each recommendation whose column the
/// file has (the first column of that name).
pub open spec fn diagnoses_all(
    r: Seq<ColumnDiagnostic>,
    recs: Seq<ColumnRecommendation>,
    cols: Seq<ColumnMetaSummary>,
) -> bool {
    &&& r.len() == diagnosed_pairs(recs, cols).len()
    &&& forall|k: int|
        0 <= k < r.len() ==> {
            let pr = #[trigger] diagnosed_pairs(recs, cols)[k];
            diagnoses(r[k], &cols[pr.1], &recs[pr.0])
        }
}

/// Diagnostics for every recommendation whose column the file has, in the
/// order of the recommendations.
pub fn diagnose_all(file_profile: &FileProfile, recs: &[ColumnRecommendation]) -> (r: Vec<
    ColumnDiagnostic,
>)
    ensures
        diagnoses_all(r@, recs@, file_profile.columns@),
{
    let cols = &file_profile.columns;
    let mut out: Vec<ColumnDiagnostic> = Vec::new();
    let mut i: usize = 0;
    while i < recs.len()
        invariant
            i <= recs@.len(),
            cols@ == file_profile.columns@,
            out@.len() == diagnosed_pairs(recs@.take(i as int), cols@).len(),
            forall|k: int|
                0 <= k < out@.len() ==> {
                    let pr = #[trigger] diagnosed_pairs(recs@.take(i as int), cols@)[k];
                    &&& 0 <= pr.0 < i
                    &&& 0 <= pr.1 < cols@.len()
                    &&& diagnoses(out@[k], &cols@[pr.1], &recs@[pr.0])
                },
        decreases recs@.len() - i,
    {
        let rec = &recs[i];
        let ghost before = diagnosed_pairs(recs@.take(i as int), cols@);
        proof {
            assert(recs@.take(i + 1).drop_last() =~= recs@.take(i as int));
            assert(recs@.take(i + 1).last() == *rec);
        }
        match find_column(cols, rec.column_name.as_str()) {
            Some(c) => {
                let d = diagnose_column(&cols[c], rec);
                out.push(d);
                proof {
                    let after = diagnosed_pairs(recs@.take(i + 1), cols@);
                    assert(after == before.push((i as int, c as int)));
                    assert forall|k: int| 0 <= k < out@.len() implies {
                        let pr = #[trigger] after[k];
                        &&& 0 <= pr.0 < i + 1
                        &&& 0 <= pr.1 < cols@.len()
                        &&& diagnoses(out@[k], &cols@[pr.1], &recs@[pr.0])
                    } by {
                        if k < out@.len() - 1 {
                            assert(after[k] == before[k]);
                        }
                    }
                }
            },
            None => {
                proof {
                    let after = diagnosed_pairs(recs@.take(i + 1), cols@);
                    assert(after == before);
                }
            },
        }
        i = i + 1;
    }
    proof {
        assert(recs@.take(recs@.len() as int) =~= recs@);
    }
    out
}

} // verus!
