//! What guests see of the checklist: progress, and the checkout tips of the
//! guest emails.

use vstd::prelude::*;

use crate::appliances::tiptap::{join, join_parts};
use crate::checklist::labels::{
    get_label, item_labels, labels_from_item, pick_label, picked_label, ChecklistItem,
};
use crate::checklist::storage::ItemModel;
use crate::keyed::key_lookup;
use crate::order::{is_stable_selection, lemma_stable_selection_unique, stable_selection};
use crate::text::{blank, is_blank, lang_code_of, trim, trim_str};

verus! {

/// At most this many tips in an email.
pub const MAX_TIPS: usize = 3;

/// The item is among the completed ids.
pub open spec fn completed_in(ids: Seq<u128>, id: u128) -> bool {
    exists|k: int| 0 <= k < ids.len() && ids[k] == id
}

/// Items the stay completed.
pub open spec fn done_count(items: Seq<ItemModel>, ids: Seq<u128>) -> nat {
    items.filter(|i: ItemModel| completed_in(ids, i.id)).len()
}

/// Percent of the items completed, rounded down; 0 without items.
pub open spec fn percent_of(done: nat, total: nat) -> int {
    if total == 0 {
        0
    } else {
        ((done * 100) / total) as int
    }
}

/// Progress of a stay on the guest card: items completed, items, percent.
pub fn guest_progress(items: &Vec<ChecklistItem>, completed: &Vec<u128>) -> (r: (usize, usize, u8))
    requires
        items@.len() * 100 <= usize::MAX,
    ensures
        r.0 == done_count(items.deep_view(), completed@),
        r.1 == items@.len(),
        r.2 == percent_of(r.0 as nat, r.1 as nat),
        r.2 <= 100,
{
    let ghost d = items.deep_view();
    let ghost pred = |i: ItemModel| completed_in(completed@, i.id);
    let mut done: usize = 0;
    let mut i: usize = 0;
    while i < items.len()
        invariant
            i <= items@.len(),
            d == items.deep_view(),
            pred == (|i: ItemModel| completed_in(completed@, i.id)),
            done == d.subrange(0, i as int).filter(pred).len(),
            done <= i,
        decreases items.len() - i,
    {
        proof {
            reveal(Seq::filter);
            assert(d.subrange(0, i + 1).drop_last() =~= d.subrange(0, i as int));
        }
        let mut hit = false;
        let mut k: usize = 0;
        while k < completed.len()
            invariant
                k <= completed@.len(),
                i < items@.len(),
                hit == exists|j: int| 0 <= j < k && completed@[j] == items@[i as int].id,
            decreases completed.len() - k,
        {
            if completed[k] == items[i].id {
                hit = true;
            }
            k = k + 1;
            assert(hit == exists|j: int| 0 <= j < k && completed@[j] == items@[i as int].id) by {
                if hit && completed@[k - 1] != items@[i as int].id {
                    let j = choose|j: int| 0 <= j < k - 1 && completed@[j] == items@[i as int].id;
                    assert(0 <= j < k);
                }
            }
        }
        assert(d[i as int].id == items@[i as int].id);
        if hit {
            done = done + 1;
        }
        i = i + 1;
    }
    assert(d.subrange(0, i as int) =~= d);
    let total = items.len();
    if total == 0 {
        return (done, total, 0);
    }
    assert(done * 100 <= total * 100) by (nonlinear_arith)
        requires
            done <= total,
    ;
    let p = (done * 100) / total;
    assert(p <= 100) by (nonlinear_arith)
        requires
            p as int == (done as int * 100) / (total as int),
            done * 100 <= total * 100,
            total > 0,
    ;
    (done, total, p as u8)
}

/// Sort keys by `sort_order` alone.
pub open spec fn order_keys(items: Seq<ItemModel>) -> Seq<i128> {
    items.map_values(|i: ItemModel| i.sort_order as i128)
}

/// Every item.
pub open spec fn every(items: Seq<ItemModel>) -> Seq<bool> {
    items.map_values(|i: ItemModel| true)
}

/// The items by `sort_order`, ties in list order.
pub open spec fn by_sort_order(items: Seq<ItemModel>) -> Seq<ItemModel> {
    let p = choose|p: Seq<usize>| is_stable_selection(order_keys(items), every(items), p);
    p.map_values(|k: usize| items[k as int])
}

/// The tip of an item: its label for the guest (trimmed), else its label in
/// the guest's language; none when both are blank.
pub open spec fn item_tip(i: ItemModel, locale: Seq<char>, property_locale: Seq<char>) -> Option<Seq<char>> {
    let labels = item_labels(i.label_fr, i.label_en);
    let picked = trim(picked_label(labels, locale, property_locale));
    if picked.len() > 0 {
        Some(picked)
    } else {
        let fallback = trim(
            match key_lookup(labels, lang_code_of(locale)) {
                Some(v) => v,
                None => Seq::empty(),
            },
        );
        if fallback.len() > 0 {
            Some(fallback)
        } else {
            None
        }
    }
}

/// Tips of the items in order, at most `limit`.
pub open spec fn tips_of(items: Seq<ItemModel>, locale: Seq<char>, property_locale: Seq<char>, limit: nat) -> Seq<
    Seq<char>,
>
    decreases items.len(),
{
    if items.len() == 0 || limit == 0 {
        Seq::empty()
    } else {
        match item_tip(items[0], locale, property_locale) {
            Some(t) => seq![t] + tips_of(items.drop_first(), locale, property_locale, (limit - 1) as nat),
            None => tips_of(items.drop_first(), locale, property_locale, limit),
        }
    }
}

/// The checkout tips of an email: the first three item tips by
/// `sort_order`, one per line; none when there is no tip.
pub open spec fn checkout_tips_of(items: Seq<ItemModel>, locale: Seq<char>, property_locale: Seq<char>) -> Option<
    Seq<char>,
> {
    let tips = tips_of(by_sort_order(items), locale, property_locale, 3);
    if tips.len() == 0 {
        None
    } else {
        Some(join(tips, "\n"@))
    }
}

fn item_tip_exec(item: &ChecklistItem, locale: &str, property_locale: &str) -> (r: Option<String>)
    ensures
        r.deep_view() == item_tip(item.deep_view(), locale@, property_locale@),
{
    let labels = labels_from_item(item);
    let picked = pick_label(&labels, locale, property_locale);
    let t = trim_str(picked.as_str());
    if t.unicode_len() > 0 {
        return Some(t.to_owned());
    }
    let fallback = get_label(item, locale);
    let f = trim_str(fallback.as_str());
    if f.unicode_len() > 0 {
        Some(f.to_owned())
    } else {
        None
    }
}

proof fn lemma_tips_step(items: Seq<ItemModel>, locale: Seq<char>, property_locale: Seq<char>, limit: nat, i: int)
    requires
        0 <= i < items.len(),
        limit > 0,
    ensures
        tips_of(items.subrange(i, items.len() as int), locale, property_locale, limit) == match item_tip(
            items[i],
            locale,
            property_locale,
        ) {
            Some(t) => seq![t] + tips_of(items.subrange(i + 1, items.len() as int), locale, property_locale, (limit - 1) as nat),
            None => tips_of(items.subrange(i + 1, items.len() as int), locale, property_locale, limit),
        },
{
    let s = items.subrange(i, items.len() as int);
    assert(s.drop_first() =~= items.subrange(i + 1, items.len() as int));
    assert(s[0] == items[i]);
}

/// The checkout tips of an email (see [`checkout_tips_of`]).
pub fn checkout_tips(items: &Vec<ChecklistItem>, locale: &str, property_locale: &str) -> (r: Option<String>)
    ensures
        r.deep_view() == checkout_tips_of(items.deep_view(), locale@, property_locale@),
{
    let ghost d = items.deep_view();
    let mut keys: Vec<i128> = Vec::new();
    let mut marks: Vec<bool> = Vec::new();
    let mut i: usize = 0;
    while i < items.len()
        invariant
            i <= items@.len(),
            d == items.deep_view(),
            keys@ == order_keys(d).subrange(0, i as int),
            marks@ == every(d).subrange(0, i as int),
        decreases items.len() - i,
    {
        keys.push(items[i].sort_order as i128);
        marks.push(true);
        i = i + 1;
        assert(keys@ =~= order_keys(d).subrange(0, i as int));
        assert(marks@ =~= every(d).subrange(0, i as int));
    }
    assert(keys@ =~= order_keys(d));
    assert(marks@ =~= every(d));
    let p = stable_selection(&keys, &marks);
    let ghost sorted = p@.map_values(|k: usize| d[k as int]);
    proof {
        let q = choose|q: Seq<usize>| is_stable_selection(order_keys(d), every(d), q);
        assert(is_stable_selection(order_keys(d), every(d), q));
        lemma_stable_selection_unique(order_keys(d), every(d), p@, q);
        assert(sorted == by_sort_order(d));
        assert(sorted.subrange(0, sorted.len() as int) =~= sorted);
    }
    let mut tips: Vec<String> = Vec::new();
    let mut limit: usize = MAX_TIPS;
    let mut j: usize = 0;
    while j < p.len() && limit > 0
        invariant
            j <= p@.len(),
            limit <= 3,
            d == items.deep_view(),
            sorted == p@.map_values(|k: usize| d[k as int]),
            is_stable_selection(order_keys(d), every(d), p@),
            tips.deep_view() + tips_of(sorted.subrange(j as int, sorted.len() as int), locale@, property_locale@, limit as nat)
                == tips_of(sorted, locale@, property_locale@, 3),
        decreases p.len() - j,
    {
        assert((p@[j as int] as int) < d.len());
        proof {
            lemma_tips_step(sorted, locale@, property_locale@, limit as nat, j as int);
        }
        assert(sorted[j as int] == d[p@[j as int] as int]);
        let ghost before = tips.deep_view();
        match item_tip_exec(&items[p[j]], locale, property_locale) {
            Some(t) => {
                tips.push(t);
                assert(tips.deep_view() =~= before.push(t@));
                limit = limit - 1;
                assert(tips.deep_view() + tips_of(sorted.subrange(j + 1, sorted.len() as int), locale@, property_locale@, limit as nat)
                    =~= before + (seq![t@] + tips_of(sorted.subrange(j + 1, sorted.len() as int), locale@, property_locale@, limit as nat)));
            },
            None => {},
        }
        j = j + 1;
    }
    proof {
        let rest = sorted.subrange(j as int, sorted.len() as int);
        if j == p.len() {
            assert(rest.len() == 0);
        }
        assert(tips_of(rest, locale@, property_locale@, limit as nat) =~= Seq::<Seq<char>>::empty());
        assert(tips.deep_view() + Seq::<Seq<char>>::empty() =~= tips.deep_view());
    }
    if tips.len() == 0 {
        return None;
    }
    Some(join_parts(&tips, "\n"))
}

} // verus!
