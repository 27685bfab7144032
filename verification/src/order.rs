//! The order of strings by their characters' code points, and sorted sets of
//! strings built under it.

use vstd::prelude::*;
use crate::text::{chars_of, str_eq, views};

verus! {

/// `a` sorts before `b`: lexicographic by code point, a proper prefix first.
pub open spec fn seq_lt(a: Seq<char>, b: Seq<char>) -> bool
    decreases a.len(),
{
    if a.len() == 0 {
        b.len() > 0
    } else if b.len() == 0 {
        false
    } else if (a[0] as u32) < (b[0] as u32) {
        true
    } else if a[0] == b[0] {
        seq_lt(a.drop_first(), b.drop_first())
    } else {
        false
    }
}

pub proof fn lemma_lt_irreflexive(a: Seq<char>)
    ensures
        !seq_lt(a, a),
    decreases a.len(),
{
    if a.len() > 0 {
        lemma_lt_irreflexive(a.drop_first());
    }
}

pub proof fn lemma_lt_transitive(a: Seq<char>, b: Seq<char>, c: Seq<char>)
    requires
        seq_lt(a, b),
        seq_lt(b, c),
    ensures
        seq_lt(a, c),
    decreases a.len(),
{
    if a.len() > 0 && b.len() > 0 && c.len() > 0 {
        if a[0] == b[0] && b[0] == c[0] {
            lemma_lt_transitive(a.drop_first(), b.drop_first(), c.drop_first());
        }
    }
}

pub proof fn lemma_lt_total(a: Seq<char>, b: Seq<char>)
    requires
        a != b,
    ensures
        seq_lt(a, b) || seq_lt(b, a),
    decreases a.len(),
{
    if a.len() == 0 {
        assert(b.len() > 0) by {
            if b.len() == 0 {
                assert(a =~= b);
            }
        }
    } else if b.len() == 0 {
    } else if a[0] == b[0] {
        if a.drop_first() == b.drop_first() {
            assert(a =~= seq![a[0]] + a.drop_first());
            assert(b =~= seq![b[0]] + b.drop_first());
        }
        lemma_lt_total(a.drop_first(), b.drop_first());
    } else {
        vstd::utf8::char_u32_cast(a[0], a[0] as u32);
        vstd::utf8::char_u32_cast(b[0], b[0] as u32);
        assert((a[0] as u32) != (b[0] as u32));
    }
}

pub proof fn lemma_lt_asymmetric(a: Seq<char>, b: Seq<char>)
    requires
        seq_lt(a, b),
    ensures
        !seq_lt(b, a),
{
    if seq_lt(b, a) {
        lemma_lt_transitive(a, b, a);
        lemma_lt_irreflexive(a);
    }
}

/// Whether `a` sorts before `b`.
pub fn str_lt(a: &str, b: &str) -> (r: bool)
    ensures
        r == seq_lt(a@, b@),
{
    let av = chars_of(a);
    let bv = chars_of(b);
    let mut i: usize = 0;
    proof {
        assert(a@.skip(0) =~= a@);
        assert(b@.skip(0) =~= b@);
    }
    while i < av.len() && i < bv.len()
        invariant
            av@ == a@,
            bv@ == b@,
            i <= av@.len(),
            i <= bv@.len(),
            seq_lt(a@, b@) == seq_lt(a@.skip(i as int), b@.skip(i as int)),
        decreases av@.len() - i,
    {
        let x = av[i];
        let y = bv[i];
        proof {
            assert(a@.skip(i as int)[0] == x);
            assert(b@.skip(i as int)[0] == y);
            assert(a@.skip(i as int).drop_first() =~= a@.skip(i + 1));
            assert(b@.skip(i as int).drop_first() =~= b@.skip(i + 1));
        }
        if (x as u32) < (y as u32) {
            return true;
        }
        if x != y {
            return false;
        }
        i = i + 1;
    }
    proof {
        assert(a@.skip(i as int).len() == a@.len() - i);
        assert(b@.skip(i as int).len() == b@.len() - i);
    }
    i == av.len() && i < bv.len()
}

/// The strings of `v` are in strictly increasing order.
pub open spec fn strictly_sorted(v: Seq<Seq<char>>) -> bool {
    forall|i: int, j: int| 0 <= i < j < v.len() ==> seq_lt(#[trigger] v[i], #[trigger] v[j])
}


/// Inserts `x` into a strictly sorted list unless it is already there.
pub fn insert_sorted(v: &mut Vec<String>, x: &str)
    requires
        strictly_sorted(views(old(v)@)),
    ensures
        strictly_sorted(views(final(v)@)),
        views(final(v)@).to_set() == views(old(v)@).to_set().insert(x@),
{
    let ghost old_t = views(v@);
    let mut pos: usize = 0;
    while pos < v.len() && str_lt(v[pos].as_str(), x)
        invariant
            pos <= v@.len(),
            v@ == old(v)@,
            old_t == views(v@),
            strictly_sorted(old_t),
            forall|k: int| 0 <= k < pos ==> seq_lt(#[trigger] old_t[k], x@),
        decreases v@.len() - pos,
    {
        pos = pos + 1;
    }
    if pos < v.len() && str_eq(v[pos].as_str(), x) {
        proof {
            assert(old_t[pos as int] == x@);
            assert(views(v@).to_set() =~= old_t.to_set().insert(x@));
        }
        return;
    }
    proof {
        if pos < v@.len() {
            assert(!seq_lt(old_t[pos as int], x@));
            lemma_lt_total(old_t[pos as int], x@);
        }
    }
    v.insert(pos, x.to_owned());
    proof {
        let nt = views(v@);
        assert(nt =~= old_t.insert(pos as int, x@));
        assert forall|i: int, j: int| 0 <= i < j < nt.len() implies seq_lt(#[trigger] nt[i], #[trigger] nt[j]) by {
            if j < pos {
                assert(nt[i] == old_t[i] && nt[j] == old_t[j]);
            } else if j == pos {
                assert(nt[i] == old_t[i]);
            } else if i == pos {
                assert(nt[j] == old_t[j - 1]);
                if j - 1 > pos {
                    lemma_lt_transitive(x@, old_t[pos as int], old_t[j - 1]);
                }
            } else if i < pos {
                assert(nt[i] == old_t[i] && nt[j] == old_t[j - 1]);
            } else {
                assert(nt[i] == old_t[i - 1] && nt[j] == old_t[j - 1]);
            }
        }
        assert(nt.to_set() =~= old_t.to_set().insert(x@)) by {
            assert forall|s: Seq<char>| nt.to_set().contains(s) <==> old_t.to_set().insert(x@).contains(s) by {
                if nt.to_set().contains(s) {
                    let k = choose|k: int| 0 <= k < nt.len() && nt[k] == s;
                    if k < pos {
                        assert(old_t[k] == s);
                    } else if k > pos {
                        assert(old_t[k - 1] == s);
                    }
                }
                if old_t.to_set().contains(s) {
                    let k = choose|k: int| 0 <= k < old_t.len() && old_t[k] == s;
                    if k < pos {
                        assert(nt[k] == s);
                    } else {
                        assert(nt[k + 1] == s);
                    }
                }
                if s == x@ {
                    assert(nt[pos as int] == s);
                }
            }
        }
    }
}

} // verus!

verus! {

/// The strictly sorted list that holds exactly the strings of `s` (for a finite `s`).
pub open spec fn sorted_list_of(s: Set<Seq<char>>) -> Seq<Seq<char>> {
    choose|v: Seq<Seq<char>>| strictly_sorted(v) && v.to_set() == s
}

/// Two strictly sorted lists with the same strings are the same list.
pub proof fn lemma_sorted_unique(a: Seq<Seq<char>>, b: Seq<Seq<char>>)
    requires
        strictly_sorted(a),
        strictly_sorted(b),
        a.to_set() == b.to_set(),
    ensures
        a == b,
    decreases a.len(),
{
    if a.len() == 0 {
        if b.len() > 0 {
            assert(b.to_set().contains(b[0]));
        }
        assert(a =~= b);
    } else {
        assert(a.to_set().contains(a[0]));
        assert(b.len() > 0);
        assert(b.to_set().contains(b[0]));
        let k = choose|k: int| 0 <= k < b.len() && b[k] == a[0];
        let m = choose|m: int| 0 <= m < a.len() && a[m] == b[0];
        if k > 0 {
            assert(seq_lt(b[0], b[k]));
            if m > 0 {
                assert(seq_lt(a[0], a[m]));
                lemma_lt_asymmetric(b[0], a[0]);
            } else {
                lemma_lt_irreflexive(b[0]);
            }
        }
        assert(a[0] == b[0]);
        let a1 = a.drop_first();
        let b1 = b.drop_first();
        assert(strictly_sorted(a1)) by {
            assert forall|i: int, j: int| 0 <= i < j < a1.len() implies seq_lt(#[trigger] a1[i], #[trigger] a1[j]) by {
                assert(a1[i] == a[i + 1] && a1[j] == a[j + 1]);
            }
        }
        assert(strictly_sorted(b1)) by {
            assert forall|i: int, j: int| 0 <= i < j < b1.len() implies seq_lt(#[trigger] b1[i], #[trigger] b1[j]) by {
                assert(b1[i] == b[i + 1] && b1[j] == b[j + 1]);
            }
        }
        assert(a1.to_set() =~= b1.to_set()) by {
            assert forall|x: Seq<char>| a1.to_set().contains(x) implies b1.to_set().contains(x) by {
                let i = choose|i: int| 0 <= i < a1.len() && a1[i] == x;
                assert(a[i + 1] == x);
                assert(seq_lt(a[0], x));
                assert(b.to_set().contains(x));
                let j = choose|j: int| 0 <= j < b.len() && b[j] == x;
                if j == 0 {
                    lemma_lt_irreflexive(x);
                }
                assert(b1[j - 1] == x);
            }
            assert forall|x: Seq<char>| b1.to_set().contains(x) implies a1.to_set().contains(x) by {
                let i = choose|i: int| 0 <= i < b1.len() && b1[i] == x;
                assert(b[i + 1] == x);
                assert(seq_lt(b[0], x));
                assert(a.to_set().contains(x));
                let j = choose|j: int| 0 <= j < a.len() && a[j] == x;
                if j == 0 {
                    lemma_lt_irreflexive(x);
                }
                assert(a1[j - 1] == x);
            }
        }
        lemma_sorted_unique(a1, b1);
        assert(a =~= seq![a[0]] + a1);
        assert(b =~= seq![b[0]] + b1);
    }
}

/// A strictly sorted list is the sorted list of its own strings.
pub proof fn lemma_is_sorted_list_of(v: Seq<Seq<char>>)
    requires
        strictly_sorted(v),
    ensures
        sorted_list_of(v.to_set()) == v,
{
    let c = sorted_list_of(v.to_set());
    assert(strictly_sorted(c) && c.to_set() == v.to_set());
    lemma_sorted_unique(c, v);
}

} // verus!

verus! {

proof fn lemma_least_exists(s: Set<Seq<char>>) -> (m: Seq<char>)
    requires
        s.finite(),
        s.len() > 0,
    ensures
        s.contains(m),
        forall|y: Seq<char>| s.contains(y) && y != m ==> seq_lt(m, y),
    decreases s.len(),
{
    let c = s.choose();
    let rest = s.remove(c);
    if rest.len() == 0 {
        assert forall|y: Seq<char>| s.contains(y) && y != c implies seq_lt(c, y) by {
            assert(rest.contains(y));
        }
        c
    } else {
        let m1 = lemma_least_exists(rest);
        lemma_lt_total(c, m1);
        if seq_lt(c, m1) {
            assert forall|y: Seq<char>| s.contains(y) && y != c implies seq_lt(c, y) by {
                assert(rest.contains(y));
                if y != m1 {
                    lemma_lt_transitive(c, m1, y);
                }
            }
            c
        } else {
            assert forall|y: Seq<char>| s.contains(y) && y != m1 implies seq_lt(m1, y) by {
                if y != c {
                    assert(rest.contains(y));
                }
            }
            m1
        }
    }
}

/// Every finite set of strings has a strictly sorted list that holds exactly its strings.
pub proof fn lemma_sorted_list_exists(s: Set<Seq<char>>)
    requires
        s.finite(),
    ensures
        strictly_sorted(sorted_list_of(s)),
        sorted_list_of(s).to_set() == s,
    decreases s.len(),
{
    if s.len() == 0 {
        let e: Seq<Seq<char>> = Seq::empty();
        assert(e.to_set() =~= s);
        assert(strictly_sorted(e));
    } else {
        let m = lemma_least_exists(s);
        let rest = s.remove(m);
        lemma_sorted_list_exists(rest);
        let v = sorted_list_of(rest);
        let w = seq![m] + v;
        assert(strictly_sorted(w)) by {
            assert forall|i: int, j: int| 0 <= i < j < w.len() implies seq_lt(#[trigger] w[i], #[trigger] w[j]) by {
                assert(w[j] == v[j - 1]);
                if i == 0 {
                    assert(v.to_set().contains(v[j - 1]));
                } else {
                    assert(w[i] == v[i - 1]);
                }
            }
        }
        assert(w.to_set() =~= s) by {
            assert forall|x: Seq<char>| w.to_set().contains(x) implies s.contains(x) by {
                let k = choose|k: int| 0 <= k < w.len() && w[k] == x;
                if k > 0 {
                    assert(v[k - 1] == x);
                    assert(v.to_set().contains(x));
                }
            }
            assert forall|x: Seq<char>| s.contains(x) implies w.to_set().contains(x) by {
                if x == m {
                    assert(w[0] == x);
                } else {
                    assert(rest.contains(x));
                    assert(v.to_set().contains(x));
                    let k = choose|k: int| 0 <= k < v.len() && v[k] == x;
                    assert(w[k + 1] == x);
                }
            }
        }
    }
}

} // verus!
