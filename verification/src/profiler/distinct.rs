//! Distinct byte strings: their order, and the sorted list of the distinct
//! values among a vector of them.

use vstd::prelude::*;

verus! {

/// `a` sorts before `b`: lexicographic by byte, a proper prefix first.
pub open spec fn bytes_lt(a: Seq<u8>, b: Seq<u8>) -> bool
    decreases a.len(),
{
    if a.len() == 0 {
        b.len() > 0
    } else if b.len() == 0 {
        false
    } else if a[0] < b[0] {
        true
    } else if a[0] == b[0] {
        bytes_lt(a.drop_first(), b.drop_first())
    } else {
        false
    }
}

pub proof fn lemma_bytes_lt_irreflexive(a: Seq<u8>)
    ensures
        !bytes_lt(a, a),
    decreases a.len(),
{
    if a.len() > 0 {
        lemma_bytes_lt_irreflexive(a.drop_first());
    }
}

pub proof fn lemma_bytes_lt_transitive(a: Seq<u8>, b: Seq<u8>, c: Seq<u8>)
    requires
        bytes_lt(a, b),
        bytes_lt(b, c),
    ensures
        bytes_lt(a, c),
    decreases a.len(),
{
    if a.len() > 0 && b.len() > 0 && c.len() > 0 {
        if a[0] == b[0] && b[0] == c[0] {
            lemma_bytes_lt_transitive(a.drop_first(), b.drop_first(), c.drop_first());
        }
    }
}

pub proof fn lemma_bytes_lt_total(a: Seq<u8>, b: Seq<u8>)
    requires
        a != b,
    ensures
        bytes_lt(a, b) || bytes_lt(b, a),
    decreases a.len(),
{
    if a.len() == 0 {
        assert(b.len() > 0) by {
            if b.len() == 0 {
                assert(a =~= b);
            }
        }
    } else if b.len() == 0 {
    } else if a[0] == b[0] {
        if a.drop_first() == b.drop_first() {
            assert(a =~= seq![a[0]] + a.drop_first());
            assert(b =~= seq![b[0]] + b.drop_first());
        }
        lemma_bytes_lt_total(a.drop_first(), b.drop_first());
    }
}

/// Whether `a` sorts before `b`.
pub fn lt_bytes(a: &[u8], b: &[u8]) -> (r: bool)
    ensures
        r == bytes_lt(a@, b@),
{
    let mut i: usize = 0;
    proof {
        assert(a@.skip(0) =~= a@);
        assert(b@.skip(0) =~= b@);
    }
    while i < a.len() && i < b.len()
        invariant
            i <= a@.len(),
            i <= b@.len(),
            bytes_lt(a@, b@) == bytes_lt(a@.skip(i as int), b@.skip(i as int)),
        decreases a@.len() - i,
    {
        let x = a[i];
        let y = b[i];
        proof {
            assert(a@.skip(i as int)[0] == x);
            assert(b@.skip(i as int)[0] == y);
            assert(a@.skip(i as int).drop_first() =~= a@.skip(i + 1));
            assert(b@.skip(i as int).drop_first() =~= b@.skip(i + 1));
        }
        if x < y {
            return true;
        }
        if x != y {
            return false;
        }
        i = i + 1;
    }
    proof {
        assert(a@.skip(i as int).len() == a@.len() - i);
        assert(b@.skip(i as int).len() == b@.len() - i);
    }
    i == a.len() && i < b.len()
}

/// The values at positions `r` of `v`.
pub open spec fn keys_at(v: Seq<Vec<u8>>, r: Seq<usize>) -> Seq<Seq<u8>> {
    r.map_values(|k: usize| v[k as int]@)
}

/// The byte strings are in strictly increasing order.
pub open spec fn strictly_increasing(ks: Seq<Seq<u8>>) -> bool {
    forall|i: int, j: int| 0 <= i < j < ks.len() ==> bytes_lt(#[trigger] ks[i], #[trigger] ks[j])
}

/// The values of `v` at positions `lo` to `hi`, as a set.
pub open spec fn values_between(v: Seq<Vec<u8>>, lo: int, hi: int) -> Set<Seq<u8>> {
    Set::new(|b: Seq<u8>| exists|i: int| lo <= i < hi && #[trigger] v[i]@ == b)
}

/// The values at the first `n` positions of `r`, as a set.
pub open spec fn values_at(v: Seq<Vec<u8>>, r: Seq<usize>, n: int) -> Set<Seq<u8>> {
    Set::new(|b: Seq<u8>| exists|k: int| 0 <= k < n && #[trigger] v[r[k] as int]@ == b)
}

/// Merges two lists of positions whose values strictly increase into one
/// such list holding each value of either once.
fn merge_distinct(v: &Vec<Vec<u8>>, a: &Vec<usize>, b: &Vec<usize>) -> (r: Vec<usize>)
    requires
        forall|k: int| 0 <= k < a@.len() ==> #[trigger] a@[k] < v@.len(),
        forall|k: int| 0 <= k < b@.len() ==> #[trigger] b@[k] < v@.len(),
        strictly_increasing(keys_at(v@, a@)),
        strictly_increasing(keys_at(v@, b@)),
    ensures
        forall|k: int| 0 <= k < r@.len() ==> a@.contains(#[trigger] r@[k]) || b@.contains(r@[k]),
        strictly_increasing(keys_at(v@, r@)),
        values_at(v@, r@, r@.len() as int) == values_at(v@, a@, a@.len() as int).union(
            values_at(v@, b@, b@.len() as int),
        ),
        r@.len() <= a@.len() + b@.len(),
{
    let mut r: Vec<usize> = Vec::new();
    let mut i: usize = 0;
    let mut j: usize = 0;
    proof {
        assert(values_at(v@, r@, 0) =~= values_at(v@, a@, 0).union(values_at(v@, b@, 0)));
    }
    while i < a.len() || j < b.len()
        invariant
            forall|k: int| 0 <= k < a@.len() ==> #[trigger] a@[k] < v@.len(),
            forall|k: int| 0 <= k < b@.len() ==> #[trigger] b@[k] < v@.len(),
            strictly_increasing(keys_at(v@, a@)),
            strictly_increasing(keys_at(v@, b@)),
            i <= a@.len(),
            j <= b@.len(),
            r@.len() <= i + j,
            forall|k: int| 0 <= k < r@.len() ==> a@.contains(#[trigger] r@[k]) || b@.contains(r@[k]),
            strictly_increasing(keys_at(v@, r@)),
            values_at(v@, r@, r@.len() as int) == values_at(v@, a@, i as int).union(values_at(v@, b@, j as int)),
            r@.len() > 0 ==> forall|p: int|
                i <= p < a@.len() ==> bytes_lt(v@[r@.last() as int]@, #[trigger] v@[a@[p] as int]@),
            r@.len() > 0 ==> forall|q: int|
                j <= q < b@.len() ==> bytes_lt(v@[r@.last() as int]@, #[trigger] v@[b@[q] as int]@),
        decreases a@.len() + b@.len() - i - j,
    {
        let ghost old_r = r@;
        let ghost old_i = i;
        let ghost old_j = j;
        // 0: take from a; 1: take from b; 2: both equal, take from a.
        let mut pick: u8 = 0;
        if i < a.len() && j < b.len() {
            let ka = &v[a[i]];
            let kb = &v[b[j]];
            if lt_bytes(ka.as_slice(), kb.as_slice()) {
                pick = 0;
            } else if lt_bytes(kb.as_slice(), ka.as_slice()) {
                pick = 1;
            } else {
                pick = 2;
                proof {
                    if ka@ != kb@ {
                        lemma_bytes_lt_total(ka@, kb@);
                    }
                }
            }
        } else if i < a.len() {
            pick = 0;
        } else {
            pick = 1;
        }
        let x: usize = if pick == 1 { b[j] } else { a[i] };
        let ghost kx = v@[x as int]@;
        proof {
            // Every value still to come lies above `x`'s.
            assert forall|p: int| i < p < a@.len() implies bytes_lt(kx, #[trigger] v@[a@[p] as int]@) by {
                if pick != 1 {
                    assert(keys_at(v@, a@)[i as int] == kx);
                    assert(keys_at(v@, a@)[p] == v@[a@[p] as int]@);
                } else {
                    assert(keys_at(v@, a@)[i as int] == v@[a@[i as int] as int]@);
                    assert(keys_at(v@, a@)[p] == v@[a@[p] as int]@);
                    lemma_bytes_lt_transitive(kx, v@[a@[i as int] as int]@, v@[a@[p] as int]@);
                }
            }
            assert forall|q: int| j < q < b@.len() implies bytes_lt(kx, #[trigger] v@[b@[q] as int]@) by {
                if pick == 1 {
                    assert(keys_at(v@, b@)[j as int] == kx);
                    assert(keys_at(v@, b@)[q] == v@[b@[q] as int]@);
                } else if pick == 2 {
                    assert(keys_at(v@, b@)[j as int] == kx);
                    assert(keys_at(v@, b@)[q] == v@[b@[q] as int]@);
                } else {
                    assert(keys_at(v@, b@)[j as int] == v@[b@[j as int] as int]@);
                    assert(keys_at(v@, b@)[q] == v@[b@[q] as int]@);
                    lemma_bytes_lt_transitive(kx, v@[b@[j as int] as int]@, v@[b@[q] as int]@);
                }
            }
            if pick == 2 {
                assert(v@[b@[j as int] as int]@ == kx);
            }
            if pick == 1 && i < a@.len() {
                assert(bytes_lt(kx, v@[a@[i as int] as int]@));
            }
            if pick == 0 && j < b@.len() {
                assert(bytes_lt(kx, v@[b@[j as int] as int]@));
            }
            // Every value already listed lies below `x`'s.
            if old_r.len() > 0 {
                let last = v@[old_r.last() as int]@;
                if pick == 1 {
                    assert(bytes_lt(last, v@[b@[old_j as int] as int]@));
                } else {
                    assert(bytes_lt(last, v@[a@[old_i as int] as int]@));
                }
                assert forall|k: int| 0 <= k < old_r.len() implies bytes_lt(
                    #[trigger] keys_at(v@, old_r)[k],
                    kx,
                ) by {
                    if k < old_r.len() - 1 {
                        assert(keys_at(v@, old_r)[old_r.len() - 1] == last);
                        lemma_bytes_lt_transitive(keys_at(v@, old_r)[k], last, kx);
                    }
                }
            }
        }
        r.push(x);
        if pick == 0 {
            i = i + 1;
        } else if pick == 1 {
            j = j + 1;
        } else {
            i = i + 1;
            j = j + 1;
        }
        proof {
            assert(keys_at(v@, r@) =~= keys_at(v@, old_r).push(kx));
            assert forall|k: int, l: int| 0 <= k < l < keys_at(v@, r@).len() implies bytes_lt(
                #[trigger] keys_at(v@, r@)[k],
                #[trigger] keys_at(v@, r@)[l],
            ) by {
                if l < old_r.len() {
                    assert(keys_at(v@, r@)[k] == keys_at(v@, old_r)[k]);
                    assert(keys_at(v@, r@)[l] == keys_at(v@, old_r)[l]);
                } else {
                    assert(keys_at(v@, r@)[k] == keys_at(v@, old_r)[k]);
                }
            }
            assert forall|k: int| 0 <= k < r@.len() implies a@.contains(#[trigger] r@[k]) || b@.contains(r@[k]) by {
                if k == old_r.len() {
                    if pick == 1 {
                        assert(b@[old_j as int] == x);
                    } else {
                        assert(a@[old_i as int] == x);
                    }
                } else {
                    assert(r@[k] == old_r[k]);
                }
            }
            assert(values_at(v@, r@, r@.len() as int) =~= values_at(v@, a@, i as int).union(
                values_at(v@, b@, j as int),
            )) by {
                assert forall|y: Seq<u8>| values_at(v@, r@, r@.len() as int).contains(y) implies values_at(
                    v@,
                    a@,
                    i as int,
                ).union(values_at(v@, b@, j as int)).contains(y) by {
                    let k = choose|k: int| 0 <= k < r@.len() && #[trigger] v@[r@[k] as int]@ == y;
                    if k < old_r.len() {
                        assert(r@[k] == old_r[k]);
                        assert(values_at(v@, old_r, old_r.len() as int).contains(y));
                        if values_at(v@, a@, old_i as int).contains(y) {
                            let p = choose|p: int| 0 <= p < old_i && #[trigger] v@[a@[p] as int]@ == y;
                            assert(values_at(v@, a@, i as int).contains(y));
                        } else {
                            let q = choose|q: int| 0 <= q < old_j && #[trigger] v@[b@[q] as int]@ == y;
                            assert(values_at(v@, b@, j as int).contains(y));
                        }
                    } else {
                        if pick == 1 {
                            assert(v@[b@[old_j as int] as int]@ == y);
                            assert(values_at(v@, b@, j as int).contains(y));
                        } else {
                            assert(v@[a@[old_i as int] as int]@ == y);
                            assert(values_at(v@, a@, i as int).contains(y));
                        }
                    }
                }
                assert forall|y: Seq<u8>| values_at(v@, a@, i as int).union(values_at(v@, b@, j as int)).contains(
                    y,
                ) implies values_at(v@, r@, r@.len() as int).contains(y) by {
                    if values_at(v@, a@, i as int).contains(y) {
                        let p = choose|p: int| 0 <= p < i && #[trigger] v@[a@[p] as int]@ == y;
                        if p < old_i {
                            assert(values_at(v@, a@, old_i as int).contains(y));
                            assert(values_at(v@, old_r, old_r.len() as int).contains(y));
                            let k = choose|k: int| 0 <= k < old_r.len() && #[trigger] v@[old_r[k] as int]@ == y;
                            assert(r@[k] == old_r[k]);
                        } else {
                            assert(v@[r@[old_r.len() as int] as int]@ == y);
                        }
                    } else {
                        let q = choose|q: int| 0 <= q < j && #[trigger] v@[b@[q] as int]@ == y;
                        if q < old_j {
                            assert(values_at(v@, b@, old_j as int).contains(y));
                            assert(values_at(v@, old_r, old_r.len() as int).contains(y));
                            let k = choose|k: int| 0 <= k < old_r.len() && #[trigger] v@[old_r[k] as int]@ == y;
                            assert(r@[k] == old_r[k]);
                        } else {
                            assert(v@[r@[old_r.len() as int] as int]@ == y);
                        }
                    }
                }
            }
        }
    }
    r
}

/// Positions in `lo..hi` of the distinct values of `v` there, in increasing
/// order of value.
fn distinct_positions(v: &Vec<Vec<u8>>, lo: usize, hi: usize) -> (r: Vec<usize>)
    requires
        lo <= hi <= v@.len(),
    ensures
        forall|k: int| 0 <= k < r@.len() ==> lo <= #[trigger] r@[k] < hi,
        strictly_increasing(keys_at(v@, r@)),
        values_at(v@, r@, r@.len() as int) == values_between(v@, lo as int, hi as int),
        r@.len() <= hi - lo,
    decreases hi - lo,
{
    if hi - lo == 0 {
        let r: Vec<usize> = Vec::new();
        proof {
            assert(values_at(v@, r@, 0) =~= values_between(v@, lo as int, hi as int));
        }
        r
    } else if hi - lo == 1 {
        let mut r: Vec<usize> = Vec::new();
        r.push(lo);
        proof {
            assert(values_at(v@, r@, 1) =~= values_between(v@, lo as int, hi as int)) by {
                assert forall|y: Seq<u8>| values_between(v@, lo as int, hi as int).contains(y) implies values_at(
                    v@,
                    r@,
                    1,
                ).contains(y) by {
                    let i = choose|i: int| lo <= i < hi && #[trigger] v@[i]@ == y;
                    assert(v@[r@[0] as int]@ == y);
                }
                assert forall|y: Seq<u8>| values_at(v@, r@, 1).contains(y) implies values_between(
                    v@,
                    lo as int,
                    hi as int,
                ).contains(y) by {
                    assert(v@[lo as int]@ == y);
                }
            }
            assert(keys_at(v@, r@).len() == 1);
        }
        r
    } else {
        let mid = lo + (hi - lo) / 2;
        let a = distinct_positions(v, lo, mid);
        let b = distinct_positions(v, mid, hi);
        let r = merge_distinct(v, &a, &b);
        proof {
            assert forall|k: int| 0 <= k < r@.len() implies lo <= #[trigger] r@[k] < hi by {
                if a@.contains(r@[k]) {
                    let p = choose|p: int| 0 <= p < a@.len() && a@[p] == r@[k];
                } else {
                    let q = choose|q: int| 0 <= q < b@.len() && b@[q] == r@[k];
                }
            }
            assert(values_between(v@, lo as int, mid as int).union(values_between(v@, mid as int, hi as int))
                =~= values_between(v@, lo as int, hi as int));
        }
        r
    }
}

/// Number of distinct byte strings in `v`.
pub fn count_distinct_values(v: &Vec<Vec<u8>>) -> (c: usize)
    ensures
        values_between(v@, 0, v@.len() as int).finite(),
        c == values_between(v@, 0, v@.len() as int).len(),
        c <= v@.len(),
        v@.len() > 0 ==> c >= 1,
{
    let r = distinct_positions(v, 0, v.len());
    proof {
        let ks = keys_at(v@, r@);
        assert(ks.no_duplicates()) by {
            assert forall|i: int, j: int| 0 <= i < ks.len() && 0 <= j < ks.len() && i != j implies ks[i]
                != ks[j] by {
                if i < j {
                    assert(bytes_lt(ks[i], ks[j]));
                    lemma_bytes_lt_irreflexive(ks[i]);
                } else {
                    assert(bytes_lt(ks[j], ks[i]));
                    lemma_bytes_lt_irreflexive(ks[j]);
                }
            }
        }
        ks.unique_seq_to_set();
        assert(ks.to_set() =~= values_at(v@, r@, r@.len() as int)) by {
            assert forall|y: Seq<u8>| ks.to_set().contains(y) implies values_at(v@, r@, r@.len() as int).contains(y) by {
                assert(ks.contains(y));
                let k = choose|k: int| 0 <= k < ks.len() && ks[k] == y;
                assert(v@[r@[k] as int]@ == y);
            }
            assert forall|y: Seq<u8>| values_at(v@, r@, r@.len() as int).contains(y) implies ks.to_set().contains(y) by {
                let k = choose|k: int| 0 <= k < r@.len() && #[trigger] v@[r@[k] as int]@ == y;
                assert(ks[k] == y);
            }
        }
        vstd::seq_lib::seq_to_set_is_finite(ks);
        if v@.len() > 0 {
            assert(values_between(v@, 0, v@.len() as int).contains(v@[0]@));
            if r@.len() == 0 {
                assert(values_at(v@, r@, 0) =~= Set::<Seq<u8>>::empty());
            }
        }
    }
    r.len()
}

} // verus!
