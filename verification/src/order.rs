//! Stable ordering of a selection of entries by an integer key, as
//! `sort_by_key` leaves entries with equal keys in list order.

use vstd::prelude::*;

verus! {

/// Entry `a` comes before entry `b`: smaller key, or equal key and earlier.
pub open spec fn lex_before(keys: Seq<i128>, a: int, b: int) -> bool {
    keys[a] < keys[b] || (keys[a] == keys[b] && a < b)
}

/// `p` lists exactly the selected entries, ordered by key and, for equal
/// keys, by position in the list.
pub open spec fn is_stable_selection(keys: Seq<i128>, sel: Seq<bool>, p: Seq<usize>) -> bool {
    &&& forall|j: int| #![trigger p[j]] 0 <= j < p.len() ==> (p[j] as int) < keys.len() && sel[p[j] as int]
    &&& forall|i: int|
        0 <= i < keys.len() && #[trigger] sel[i] ==> exists|j: int| 0 <= j < p.len() && p[j] == i
    &&& forall|a: int, b: int| 0 <= a < b < p.len() ==> lex_before(keys, p[a] as int, p[b] as int)
}

/// The stable selection is unique: two lists that both satisfy it are equal.
pub proof fn lemma_stable_selection_unique(keys: Seq<i128>, sel: Seq<bool>, p: Seq<usize>, q: Seq<usize>)
    requires
        sel.len() == keys.len(),
        is_stable_selection(keys, sel, p),
        is_stable_selection(keys, sel, q),
    ensures
        p == q,
    decreases p.len() + q.len(),
{
    if p.len() == 0 {
        if q.len() > 0 {
            let i = q[0] as int;
            assert(sel[i]);
        }
        assert(p =~= q);
    } else if q.len() == 0 {
        let i = p[0] as int;
        assert(sel[i]);
    } else {
        // both first elements are the least selected entry
        let a = p[0] as int;
        let b = q[0] as int;
        assert(sel[a]);
        assert(sel[b]);
        let jb = choose|j: int| 0 <= j < p.len() && p[j] == b;
        let ja = choose|j: int| 0 <= j < q.len() && q[j] == a;
        if a != b {
            assert(jb > 0);
            assert(ja > 0);
            assert(lex_before(keys, a, b));
            assert(lex_before(keys, b, a));
            assert(false);
        }
        let sel2 = sel.update(a, false);
        let p2 = p.drop_first();
        let q2 = q.drop_first();
        assert forall|j: int| #![trigger p2[j]] 0 <= j < p2.len() implies (p2[j] as int) < keys.len() && sel2[p2[j] as int] by {
            assert(p[j + 1] == p2[j]);
            assert(lex_before(keys, p[0] as int, p[j + 1] as int));
            assert(sel[p[j + 1] as int]);
            assert(p2[j] as int != a);
        }
        assert forall|j: int| #![trigger q2[j]] 0 <= j < q2.len() implies (q2[j] as int) < keys.len() && sel2[q2[j] as int] by {
            assert(q[j + 1] == q2[j]);
            assert(lex_before(keys, q[0] as int, q[j + 1] as int));
            assert(sel[q[j + 1] as int]);
            assert(q2[j] as int != a);
        }
        assert forall|i: int| 0 <= i < keys.len() && #[trigger] sel2[i] implies exists|j: int| 0 <= j < p2.len() && p2[j] == i by {
            assert(sel[i]);
            let j = choose|j: int| 0 <= j < p.len() && p[j] == i;
            assert(j != 0);
            assert(p2[j - 1] == i);
        }
        assert forall|i: int| 0 <= i < keys.len() && #[trigger] sel2[i] implies exists|j: int| 0 <= j < q2.len() && q2[j] == i by {
            assert(sel[i]);
            let j = choose|j: int| 0 <= j < q.len() && q[j] == i;
            assert(j != 0);
            assert(q2[j - 1] == i);
        }
        assert forall|x: int, y: int| 0 <= x < y < p2.len() implies lex_before(keys, p2[x] as int, p2[y] as int) by {
            assert(p2[x] == p[x + 1] && p2[y] == p[y + 1]);
        }
        assert forall|x: int, y: int| 0 <= x < y < q2.len() implies lex_before(keys, q2[x] as int, q2[y] as int) by {
            assert(q2[x] == q[x + 1] && q2[y] == q[y + 1]);
        }
        assert(sel2.len() == keys.len());
        assert(is_stable_selection(keys, sel2, p2));
        assert(is_stable_selection(keys, sel2, q2));
        lemma_stable_selection_unique(keys, sel2, p2, q2);
        assert(p2 == q2);
        assert(p2.len() == q2.len());
        assert(p.len() == q.len());
        assert forall|k: int| 0 <= k < p.len() implies p[k] == q[k] by {
            if k > 0 {
                assert(p[k] == p2[k - 1]);
                assert(q[k] == q2[k - 1]);
            }
        }
        assert(p =~= q);
    }
}

/// Positions of the selected entries, ordered by key, ties kept in position
/// order.
pub fn stable_selection(keys: &Vec<i128>, sel: &Vec<bool>) -> (p: Vec<usize>)
    requires
        keys@.len() == sel@.len(),
    ensures
        is_stable_selection(keys@, sel@, p@),
{
    let n = keys.len();
    let mut p: Vec<usize> = Vec::new();
    let mut i: usize = 0;
    while i < n
        invariant
            n == keys@.len(),
            n == sel@.len(),
            i <= n,
            forall|j: int| #![trigger p@[j]] 0 <= j < p@.len() ==> (p@[j] as int) < i && sel@[p@[j] as int],
            forall|k: int|
                0 <= k < i && #[trigger] sel@[k] ==> exists|j: int| 0 <= j < p@.len() && p@[j] == k,
            forall|a: int, b: int|
                0 <= a < b < p@.len() ==> lex_before(keys@, p@[a] as int, p@[b] as int),
        decreases n - i,
    {
        if sel[i] {
            let k = keys[i];
            let mut pos: usize = 0;
            while pos < p.len() && keys[p[pos]] <= k
                invariant
                    pos <= p@.len(),
                    n == keys@.len(),
                    forall|j: int| #![trigger p@[j]] 0 <= j < p@.len() ==> (p@[j] as int) < i,
                    i < n,
                    k == keys@[i as int],
                    forall|j: int| 0 <= j < pos ==> keys@[p@[j] as int] <= k,
                decreases p.len() - pos,
            {
                pos = pos + 1;
            }
            let ghost old_p = p@;
            proof {
                // keys are non-decreasing along p
                assert forall|j: int| pos <= j < old_p.len() implies keys@[old_p[j] as int] > k by {
                    assert(keys@[old_p[pos as int] as int] > k);
                    if j > pos {
                        assert(lex_before(keys@, old_p[pos as int] as int, old_p[j] as int));
                    }
                }
            }
            p.insert(pos, i);
            proof {
                assert forall|a: int, b: int| 0 <= a < b < p@.len() implies lex_before(
                    keys@,
                    p@[a] as int,
                    p@[b] as int,
                ) by {
                    if a < pos && b < pos {
                        assert(p@[a] == old_p[a] && p@[b] == old_p[b]);
                    } else if a < pos && b == pos {
                        assert(p@[a] == old_p[a]);
                    } else if a < pos {
                        assert(p@[a] == old_p[a] && p@[b] == old_p[b - 1]);
                    } else if a == pos {
                        assert(p@[b] == old_p[b - 1]);
                    } else {
                        assert(p@[a] == old_p[a - 1] && p@[b] == old_p[b - 1]);
                    }
                }
                assert forall|kk: int|
                    0 <= kk < i + 1 && #[trigger] sel@[kk] implies exists|j: int|
                    0 <= j < p@.len() && p@[j] == kk by {
                    if kk == i {
                        assert(p@[pos as int] == kk);
                    } else {
                        let j = choose|j: int| 0 <= j < old_p.len() && old_p[j] == kk;
                        if j < pos {
                            assert(p@[j] == kk);
                        } else {
                            assert(p@[j + 1] == kk);
                        }
                    }
                }
                assert forall|j: int| #![trigger p@[j]] 0 <= j < p@.len() implies (p@[j] as int) < i + 1 && sel@[p@[j] as int] by {
                    if j < pos {
                        assert(p@[j] == old_p[j]);
                    } else if j > pos {
                        assert(p@[j] == old_p[j - 1]);
                    }
                }
            }
        }
        i = i + 1;
    }
    p
}

/// Selection of the entries before `i`: the loop invariant of
/// [`stable_selection`].
pub open spec fn is_prefix_selection(keys: Seq<i128>, sel: Seq<bool>, i: int, p: Seq<usize>) -> bool {
    &&& forall|j: int| #![trigger p[j]] 0 <= j < p.len() ==> (p[j] as int) < i && sel[p[j] as int]
    &&& forall|k: int| 0 <= k < i && #[trigger] sel[k] ==> exists|j: int| 0 <= j < p.len() && p[j] == k
    &&& forall|a: int, b: int| 0 <= a < b < p.len() ==> lex_before(keys, p[a] as int, p[b] as int)
}

/// Position of the first listed entry whose key exceeds `k`.
pub open spec fn first_greater(keys: Seq<i128>, p: Seq<usize>, k: i128) -> int
    decreases p.len(),
{
    if p.len() == 0 {
        0
    } else if keys[p[0] as int] > k {
        0
    } else {
        1 + first_greater(keys, p.drop_first(), k)
    }
}

proof fn lemma_first_greater(keys: Seq<i128>, p: Seq<usize>, k: i128)
    ensures
        0 <= first_greater(keys, p, k) <= p.len(),
        forall|j: int| 0 <= j < first_greater(keys, p, k) ==> keys[p[j] as int] <= k,
        first_greater(keys, p, k) < p.len() ==> keys[p[first_greater(keys, p, k)] as int] > k,
    decreases p.len(),
{
    if p.len() > 0 && keys[p[0] as int] <= k {
        lemma_first_greater(keys, p.drop_first(), k);
        assert forall|j: int| 0 <= j < first_greater(keys, p, k) implies keys[p[j] as int] <= k by {
            if j > 0 {
                assert(p[j] == p.drop_first()[j - 1]);
            }
        }
    }
}

proof fn lemma_prefix_selection(keys: Seq<i128>, sel: Seq<bool>, i: int) -> (p: Seq<usize>)
    requires
        keys.len() == sel.len(),
        keys.len() <= usize::MAX,
        0 <= i <= keys.len(),
    ensures
        is_prefix_selection(keys, sel, i, p),
    decreases i,
{
    if i == 0 {
        Seq::empty()
    } else {
        let q = lemma_prefix_selection(keys, sel, i - 1);
        let n = i - 1;
        if !sel[n] {
            assert forall|kk: int| 0 <= kk < i && #[trigger] sel[kk] implies exists|j: int|
                0 <= j < q.len() && q[j] == kk by {
                assert(kk < n);
            }
            q
        } else {
            let k = keys[n];
            let pos = first_greater(keys, q, k);
            lemma_first_greater(keys, q, k);
            assert forall|j: int| pos <= j < q.len() implies keys[q[j] as int] > k by {
                if j > pos {
                    assert(lex_before(keys, q[pos] as int, q[j] as int));
                }
            }
            let r = q.insert(pos, n as usize);
            assert forall|a: int, b: int| 0 <= a < b < r.len() implies lex_before(keys, r[a] as int, r[b] as int) by {
                if a < pos && b < pos {
                    assert(r[a] == q[a] && r[b] == q[b]);
                } else if a < pos && b == pos {
                    assert(r[a] == q[a]);
                } else if a < pos {
                    assert(r[a] == q[a] && r[b] == q[b - 1]);
                } else if a == pos {
                    assert(r[b] == q[b - 1]);
                } else {
                    assert(r[a] == q[a - 1] && r[b] == q[b - 1]);
                }
            }
            assert forall|kk: int| 0 <= kk < i && #[trigger] sel[kk] implies exists|j: int|
                0 <= j < r.len() && r[j] == kk by {
                if kk == n {
                    assert(r[pos] == kk);
                } else {
                    let j = choose|j: int| 0 <= j < q.len() && q[j] == kk;
                    if j < pos {
                        assert(r[j] == kk);
                    } else {
                        assert(r[j + 1] == kk);
                    }
                }
            }
            assert forall|j: int| #![trigger r[j]] 0 <= j < r.len() implies (r[j] as int) < i && sel[r[j] as int] by {
                if j < pos {
                    assert(r[j] == q[j]);
                } else if j > pos {
                    assert(r[j] == q[j - 1]);
                }
            }
            r
        }
    }
}

/// Every selection of entries has a stable ordering.
pub proof fn lemma_stable_selection_exists(keys: Seq<i128>, sel: Seq<bool>)
    requires
        keys.len() == sel.len(),
        keys.len() <= usize::MAX,
    ensures
        exists|p: Seq<usize>| is_stable_selection(keys, sel, p),
{
    let p = lemma_prefix_selection(keys, sel, keys.len() as int);
    assert(is_stable_selection(keys, sel, p));
}

} // verus!
