//! Lists of entries keyed by text, kept in key order with each key once:
//! the ordered maps of the library.

use vstd::prelude::*;

use crate::text::{lemma_str_lt_irreflexive, lemma_str_lt_total, lemma_str_lt_transitive, str_eq, str_less, str_lt};

verus! {

/// Codes strictly increase along the list (so each occurs once).
pub open spec fn keys_sorted<A>(b: Seq<(Seq<char>, A)>) -> bool {
    forall|i: int, j: int| 0 <= i < j < b.len() ==> str_lt(#[trigger] b[i].0, #[trigger] b[j].0)
}

/// Payload stored under a code.
pub open spec fn key_lookup<A>(b: Seq<(Seq<char>, A)>, code: Seq<char>) -> Option<A>
    decreases b.len(),
{
    if b.len() == 0 {
        None
    } else if b[0].0 == code {
        Some(b[0].1)
    } else {
        key_lookup(b.drop_first(), code)
    }
}

/// The list with `code` mapped to `p`: replaced in place, or inserted at its
/// place in code order.
pub open spec fn key_insert<A>(b: Seq<(Seq<char>, A)>, code: Seq<char>, p: A) -> Seq<(Seq<char>, A)>
    decreases b.len(),
{
    if b.len() == 0 {
        seq![(code, p)]
    } else if b[0].0 == code {
        seq![(code, p)] + b.drop_first()
    } else if str_lt(code, b[0].0) {
        seq![(code, p)] + b
    } else {
        seq![b[0]] + key_insert(b.drop_first(), code, p)
    }
}

/// Every code of the inserted list is the new code or an old one.
pub proof fn lemma_insert_keys<A>(b: Seq<(Seq<char>, A)>, code: Seq<char>, p: A)
    ensures
        key_insert(b, code, p).len() <= b.len() + 1,
        forall|i: int| 0 <= i < key_insert(b, code, p).len() ==> (#[trigger] key_insert(b, code, p)[i]).0
            == code || exists|j: int| 0 <= j < b.len() && b[j].0 == key_insert(b, code, p)[i].0,
    decreases b.len(),
{
    if b.len() > 0 && b[0].0 != code && !str_lt(code, b[0].0) {
        let rest = key_insert(b.drop_first(), code, p);
        lemma_insert_keys(b.drop_first(), code, p);
        assert forall|i: int| 0 <= i < key_insert(b, code, p).len() implies (#[trigger] key_insert(
            b,
            code,
            p,
        )[i]).0 == code || exists|j: int| 0 <= j < b.len() && b[j].0 == key_insert(b, code, p)[i].0 by {
            if i == 0 {
                assert(b[0].0 == key_insert(b, code, p)[i].0);
            } else {
                assert(key_insert(b, code, p)[i] == rest[i - 1]);
                if rest[i - 1].0 != code {
                    let j = choose|j: int| 0 <= j < b.len() - 1 && b.drop_first()[j].0 == rest[i - 1].0;
                    assert(b[j + 1].0 == key_insert(b, code, p)[i].0);
                }
            }
        }
    } else if b.len() > 0 && b[0].0 == code {
        assert forall|i: int| 0 <= i < key_insert(b, code, p).len() implies (#[trigger] key_insert(
            b,
            code,
            p,
        )[i]).0 == code || exists|j: int| 0 <= j < b.len() && b[j].0 == key_insert(b, code, p)[i].0 by {
            if i > 0 {
                assert(b[i].0 == key_insert(b, code, p)[i].0);
            }
        }
    } else if b.len() > 0 {
        assert forall|i: int| 0 <= i < key_insert(b, code, p).len() implies (#[trigger] key_insert(
            b,
            code,
            p,
        )[i]).0 == code || exists|j: int| 0 <= j < b.len() && b[j].0 == key_insert(b, code, p)[i].0 by {
            if i > 0 {
                assert(b[i - 1].0 == key_insert(b, code, p)[i].0);
            }
        }
    }
}

/// Inserting keeps the codes in order.
pub proof fn lemma_insert_wf<A>(b: Seq<(Seq<char>, A)>, code: Seq<char>, p: A)
    requires
        keys_sorted(b),
    ensures
        keys_sorted(key_insert(b, code, p)),
    decreases b.len(),
{
    let r = key_insert(b, code, p);
    if b.len() == 0 {
    } else if b[0].0 == code {
        assert forall|i: int, j: int| 0 <= i < j < r.len() implies str_lt(#[trigger] r[i].0, #[trigger] r[j].0) by {
            assert(r[i].0 == b[i].0);
            assert(r[j].0 == b[j].0);
        }
    } else if str_lt(code, b[0].0) {
        assert forall|i: int, j: int| 0 <= i < j < r.len() implies str_lt(#[trigger] r[i].0, #[trigger] r[j].0) by {
            if i == 0 {
                if j > 1 {
                    lemma_str_lt_transitive(code, b[0].0, b[j - 1].0);
                }
            } else {
                assert(r[i] == b[i - 1]);
                assert(r[j] == b[j - 1]);
            }
        }
    } else {
        lemma_str_lt_total(code, b[0].0);
        let tail = b.drop_first();
        assert(keys_sorted(tail)) by {
            assert forall|i: int, j: int| 0 <= i < j < tail.len() implies str_lt(#[trigger] tail[i].0, #[trigger] tail[j].0) by {
                assert(tail[i] == b[i + 1]);
                assert(tail[j] == b[j + 1]);
            }
        }
        lemma_insert_wf(tail, code, p);
        lemma_insert_keys(tail, code, p);
        let rest = key_insert(tail, code, p);
        assert forall|i: int, j: int| 0 <= i < j < r.len() implies str_lt(#[trigger] r[i].0, #[trigger] r[j].0) by {
            if i == 0 {
                assert(r[j] == rest[j - 1]);
                if rest[j - 1].0 != code {
                    let k = choose|k: int| 0 <= k < tail.len() && tail[k].0 == rest[j - 1].0;
                    assert(tail[k] == b[k + 1]);
                }
            } else {
                assert(r[i] == rest[i - 1]);
                assert(r[j] == rest[j - 1]);
            }
        }
    }
}

/// After an insert, the code reads back the inserted payload.
pub proof fn lemma_insert_lookup_same<A>(b: Seq<(Seq<char>, A)>, code: Seq<char>, p: A)
    ensures
        key_lookup(key_insert(b, code, p), code) == Some(p),
    decreases b.len(),
{
    let r = key_insert(b, code, p);
    if b.len() > 0 && b[0].0 != code && !str_lt(code, b[0].0) {
        lemma_insert_lookup_same(b.drop_first(), code, p);
        assert(r.drop_first() =~= key_insert(b.drop_first(), code, p));
    }
}

/// An insert leaves every other code as it was.
pub proof fn lemma_insert_lookup_other<A>(b: Seq<(Seq<char>, A)>, code: Seq<char>, p: A, other: Seq<char>)
    requires
        other != code,
    ensures
        key_lookup(key_insert(b, code, p), other) == key_lookup(b, other),
    decreases b.len(),
{
    let r = key_insert(b, code, p);
    if b.len() == 0 {
        assert(r[0].0 == code);
        assert(r.drop_first() =~= Seq::<(Seq<char>, A)>::empty());
        assert(key_lookup(r.drop_first(), other) is None);
        assert(key_lookup(r, other) == key_lookup(r.drop_first(), other));
    } else if b[0].0 == code {
        assert(r[0].0 == code);
        assert(r.drop_first() =~= b.drop_first());
        assert(key_lookup(r, other) == key_lookup(r.drop_first(), other));
        assert(key_lookup(b, other) == key_lookup(b.drop_first(), other));
    } else if str_lt(code, b[0].0) {
        assert(r[0].0 == code);
        assert(r.drop_first() =~= b);
        assert(key_lookup(r, other) == key_lookup(r.drop_first(), other));
    } else {
        lemma_insert_lookup_other(b.drop_first(), code, p, other);
        assert(r[0] == b[0]);
        assert(r.drop_first() =~= key_insert(b.drop_first(), code, p));
        if b[0].0 != other {
            assert(key_lookup(r, other) == key_lookup(r.drop_first(), other));
            assert(key_lookup(b, other) == key_lookup(b.drop_first(), other));
        }
    }
}

/// The list as a scan for the first key not below `code` builds it.
pub proof fn lemma_insert_at<A>(b: Seq<(Seq<char>, A)>, code: Seq<char>, p: A, i: int)
    requires
        keys_sorted(b),
        0 <= i <= b.len(),
        forall|k: int| 0 <= k < i ==> str_lt(#[trigger] b[k].0, code),
        i < b.len() ==> !str_lt(b[i].0, code),
    ensures
        key_insert(b, code, p) == (if i < b.len() && b[i].0 == code {
            b.subrange(0, i) + seq![(code, p)] + b.subrange(i + 1, b.len() as int)
        } else {
            b.subrange(0, i) + seq![(code, p)] + b.subrange(i, b.len() as int)
        }),
    decreases i,
{
    if i == 0 {
        if b.len() > 0 {
            if b[0].0 != code {
                lemma_str_lt_total(b[0].0, code);
            }
            assert(b.subrange(1, b.len() as int) =~= b.drop_first());
            assert(b.subrange(0, b.len() as int) =~= b);
        }
        assert(b.subrange(0, 0) =~= Seq::<(Seq<char>, A)>::empty());
    } else {
        let tail = b.drop_first();
        assert(keys_sorted(tail)) by {
            assert forall|x: int, y: int| 0 <= x < y < tail.len() implies str_lt(#[trigger] tail[x].0, #[trigger] tail[y].0) by {
                assert(tail[x] == b[x + 1]);
                assert(tail[y] == b[y + 1]);
            }
        }
        assert forall|k: int| 0 <= k < i - 1 implies str_lt(#[trigger] tail[k].0, code) by {
            assert(tail[k] == b[k + 1]);
        }
        lemma_insert_at(tail, code, p, i - 1);
        lemma_str_lt_irreflexive(code);
        assert(str_lt(b[0].0, code));
        assert(b[0].0 != code);
        if str_lt(code, b[0].0) {
            lemma_str_lt_transitive(code, b[0].0, code);
        }
        if i < b.len() && b[i].0 == code {
            assert(key_insert(b, code, p) =~= b.subrange(0, i) + seq![(code, p)] + b.subrange(
                i + 1,
                b.len() as int,
            ));
        } else {
            assert(key_insert(b, code, p) =~= b.subrange(0, i) + seq![(code, p)] + b.subrange(
                i,
                b.len() as int,
            ));
        }
    }
}


/// Position of the entry with the key, if any.
pub fn keyed_position<V: DeepView>(v: &Vec<(String, V)>, code: &str) -> (r: Option<usize>)
    ensures
        match r {
            Some(i) => i < v@.len() && v.deep_view()[i as int].0 == code@ && key_lookup(v.deep_view(), code@)
                == Some(v.deep_view()[i as int].1),
            None => key_lookup(v.deep_view(), code@) is None,
        },
{
    let ghost b = v.deep_view();
    let mut i: usize = 0;
    assert(b.subrange(0, b.len() as int) =~= b);
    while i < v.len()
        invariant
            i <= v@.len(),
            b == v.deep_view(),
            key_lookup(b, code@) == key_lookup(b.subrange(i as int, b.len() as int), code@),
        decreases v.len() - i,
    {
        let ghost rest = b.subrange(i as int, b.len() as int);
        assert(rest.drop_first() =~= b.subrange(i + 1, b.len() as int));
        assert(rest[0] == b[i as int]);
        if str_eq(v[i].0.as_str(), code) {
            return Some(i);
        }
        i = i + 1;
    }
    None
}

/// Maps `code` to `val`: replaced in place, or inserted in key order.
pub fn keyed_insert<V: DeepView>(v: &mut Vec<(String, V)>, code: String, val: V)
    requires
        keys_sorted(old(v).deep_view()),
    ensures
        final(v).deep_view() == key_insert(old(v).deep_view(), code@, val.deep_view()),
        keys_sorted(final(v).deep_view()),
{
    let ghost b = v.deep_view();
    let ghost p = val.deep_view();
    let ghost c = code@;
    let mut i: usize = 0;
    while i < v.len() && str_less(v[i].0.as_str(), code.as_str())
        invariant
            i <= v@.len(),
            b == v.deep_view(),
            forall|k: int| 0 <= k < i ==> str_lt(#[trigger] b[k].0, code@),
        decreases v.len() - i,
    {
        i = i + 1;
    }
    proof {
        lemma_insert_at(b, c, p, i as int);
        lemma_insert_wf(b, c, p);
    }
    if i < v.len() && str_eq(v[i].0.as_str(), code.as_str()) {
        v.remove(i);
        v.insert(i, (code, val));
        assert(v.deep_view() =~= b.subrange(0, i as int) + seq![(c, p)] + b.subrange(i + 1, b.len() as int));
    } else {
        v.insert(i, (code, val));
        assert(v.deep_view() =~= b.subrange(0, i as int) + seq![(c, p)] + b.subrange(i as int, b.len() as int));
    }
}

/// The list without the entry of `code`.
pub open spec fn key_remove<A>(b: Seq<(Seq<char>, A)>, code: Seq<char>) -> Seq<(Seq<char>, A)> {
    b.filter(key_differs(code))
}

/// Entries with another key.
pub open spec fn key_differs<A>(code: Seq<char>) -> spec_fn((Seq<char>, A)) -> bool {
    |e: (Seq<char>, A)| e.0 != code
}

/// Removes the entry of `code`, if any.
pub fn keyed_remove<V: DeepView>(v: &mut Vec<(String, V)>, code: &str)
    requires
        keys_sorted(old(v).deep_view()),
    ensures
        final(v).deep_view() == key_remove(old(v).deep_view(), code@),
        keys_sorted(final(v).deep_view()),
{
    let ghost b = v.deep_view();
    match keyed_position(v, code) {
        Some(i) => {
            v.remove(i);
            proof {
                lemma_remove_at(b, code@, i as int);
            }
        },
        None => {
            proof {
                lemma_remove_absent(b, code@);
            }
        },
    }
}

/// The entry at `i` holds the only occurrence of its key.
proof fn lemma_remove_at<A>(b: Seq<(Seq<char>, A)>, code: Seq<char>, i: int)
    requires
        keys_sorted(b),
        0 <= i < b.len(),
        b[i].0 == code,
    ensures
        key_remove(b, code) == b.subrange(0, i) + b.subrange(i + 1, b.len() as int),
        keys_sorted(b.subrange(0, i) + b.subrange(i + 1, b.len() as int)),
{
    let r = b.subrange(0, i) + b.subrange(i + 1, b.len() as int);
    let pred = key_differs::<A>(code);
    assert forall|k: int| 0 <= k < b.len() && k != i implies (#[trigger] b[k]).0 != code by {
        lemma_str_lt_irreflexive(code);
        if k < i {
            assert(str_lt(b[k].0, b[i].0));
        } else {
            assert(str_lt(b[i].0, b[k].0));
        }
    }
    lemma_filter_skip(b, pred, i);
    assert forall|x: int, y: int| 0 <= x < y < r.len() implies str_lt(#[trigger] r[x].0, #[trigger] r[y].0) by {
        let bx = if x < i { x } else { x + 1 };
        let by = if y < i { y } else { y + 1 };
        assert(r[x] == b[bx]);
        assert(r[y] == b[by]);
    }
}

/// Filtering out exactly the entry at `i`.
proof fn lemma_filter_skip<A>(b: Seq<(Seq<char>, A)>, pred: spec_fn((Seq<char>, A)) -> bool, i: int)
    requires
        0 <= i < b.len(),
        !pred(b[i]),
        forall|k: int| 0 <= k < b.len() && k != i ==> pred(#[trigger] b[k]),
    ensures
        b.filter(pred) == b.subrange(0, i) + b.subrange(i + 1, b.len() as int),
    decreases b.len(),
{
    reveal(Seq::filter);
    if i == b.len() - 1 {
        lemma_filter_all(b.drop_last(), pred);
        assert(b.drop_last() =~= b.subrange(0, i));
        assert(b.subrange(i + 1, b.len() as int) =~= Seq::<(Seq<char>, A)>::empty());
        assert(b.subrange(0, i) + b.subrange(i + 1, b.len() as int) =~= b.subrange(0, i));
    } else {
        lemma_filter_skip(b.drop_last(), pred, i);
        assert(b.drop_last().subrange(0, i) =~= b.subrange(0, i));
        assert(b.drop_last().subrange(i + 1, b.len() - 1) + seq![b.last()] =~= b.subrange(i + 1, b.len() as int));
        assert(b.subrange(0, i) + b.subrange(i + 1, b.len() as int) =~= (b.drop_last().subrange(0, i)
            + b.drop_last().subrange(i + 1, b.len() - 1)).push(b.last()));
    }
}

/// A filter that keeps everything.
proof fn lemma_filter_all<A>(b: Seq<(Seq<char>, A)>, pred: spec_fn((Seq<char>, A)) -> bool)
    requires
        forall|k: int| 0 <= k < b.len() ==> pred(#[trigger] b[k]),
    ensures
        b.filter(pred) == b,
    decreases b.len(),
{
    reveal(Seq::filter);
    if b.len() > 0 {
        lemma_filter_all(b.drop_last(), pred);
        assert(b.drop_last().push(b.last()) =~= b);
    } else {
        assert(b.filter(pred) =~= b);
    }
}

/// Removing an absent key changes nothing.
proof fn lemma_remove_absent<A>(b: Seq<(Seq<char>, A)>, code: Seq<char>)
    requires
        key_lookup(b, code) is None,
    ensures
        key_remove(b, code) == b,
    decreases b.len(),
{
    lemma_lookup_none(b, code);
    lemma_filter_all(b, key_differs::<A>(code));
}

/// No entry has a key the lookup does not find.
pub proof fn lemma_lookup_none<A>(b: Seq<(Seq<char>, A)>, code: Seq<char>)
    requires
        key_lookup(b, code) is None,
    ensures
        forall|k: int| 0 <= k < b.len() ==> (#[trigger] b[k]).0 != code,
    decreases b.len(),
{
    if b.len() > 0 {
        lemma_lookup_none(b.drop_first(), code);
        assert forall|k: int| 0 <= k < b.len() implies (#[trigger] b[k]).0 != code by {
            if k > 0 {
                assert(b[k] == b.drop_first()[k - 1]);
            }
        }
    }
}

/// After a removal, the code is not found, and every other code reads as
/// before.
pub proof fn lemma_remove_lookup<A>(b: Seq<(Seq<char>, A)>, code: Seq<char>, other: Seq<char>)
    ensures
        key_lookup(key_remove(b, code), code) is None,
        other != code ==> key_lookup(key_remove(b, code), other) == key_lookup(b, other),
    decreases b.len(),
{
    if b.len() > 0 {
        let t = b.drop_first();
        assert(seq![b[0]] + t =~= b);
        t.lemma_filter_prepend(b[0], key_differs::<A>(code));
        lemma_remove_lookup(t, code, other);
        let r = key_remove(b, code);
        if b[0].0 != code {
            assert(r =~= seq![b[0]] + key_remove(t, code));
            assert(r.drop_first() =~= key_remove(t, code));
        } else {
            assert(r =~= key_remove(t, code));
        }
    }
}

} // verus!
