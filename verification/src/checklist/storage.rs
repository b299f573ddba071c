//! The checklist store: items, ordered for display, and the completions of
//! each stay. Every operation takes the store as loaded and leaves it as it
//! is to be saved.

use vstd::prelude::*;

use crate::checklist::labels::ChecklistItem;
use crate::ids::new_uuid_u128;
use crate::order::{is_stable_selection, lemma_stable_selection_unique, stable_selection};

verus! {

/// A stay's completion of an item.
#[derive(Debug, Clone, Copy, PartialEq, Eq, Structural)]
pub struct ChecklistCompletion {
    pub id: u128,
    pub stay_id: u128,
    pub item_id: u128,
    /// Completion instant (microseconds since the Unix epoch).
    pub completed_at: i64,
}

/// [`ChecklistItem`] with texts as sequences.
pub struct ItemModel {
    pub id: u128,
    pub label_fr: Seq<char>,
    pub label_en: Seq<char>,
    pub sort_order: i32,
    pub created_at: i64,
}

impl DeepView for ChecklistItem {
    type V = ItemModel;

    open spec fn deep_view(&self) -> ItemModel {
        ItemModel {
            id: self.id,
            label_fr: self.label_fr@,
            label_en: self.label_en@,
            sort_order: self.sort_order,
            created_at: self.created_at,
        }
    }
}

/// Items and completions.
#[derive(Debug)]
pub struct ChecklistStore {
    pub items: Vec<ChecklistItem>,
    pub completions: Vec<ChecklistCompletion>,
}

/// Why a command was refused.
#[derive(Debug, Clone, Copy, PartialEq, Eq, Structural)]
pub enum ChecklistError {
    ItemNotFound,
}

/// Display key of an item: `sort_order`, then `created_at` (one integer that
/// orders as the pair does).
pub open spec fn item_key(i: ItemModel) -> i128 {
    (i.sort_order as int * 18446744073709551616 + (i.created_at as int + 9223372036854775808)) as i128
}

/// Display keys of the items.
pub open spec fn item_keys(items: Seq<ItemModel>) -> Seq<i128> {
    items.map_values(|i: ItemModel| item_key(i))
}

/// Every item.
pub open spec fn all_items(items: Seq<ItemModel>) -> Seq<bool> {
    items.map_values(|i: ItemModel| true)
}

/// The items in display order: by `sort_order`, then `created_at`, ties in
/// stored order.
pub open spec fn display_order(items: Seq<ItemModel>) -> Seq<ItemModel> {
    let p = choose|p: Seq<usize>| is_stable_selection(item_keys(items), all_items(items), p);
    p.map_values(|k: usize| items[k as int])
}

fn duplicate_item(i: &ChecklistItem) -> (r: ChecklistItem)
    ensures
        r.deep_view() == i.deep_view(),
{
    ChecklistItem {
        id: i.id,
        label_fr: i.label_fr.clone(),
        label_en: i.label_en.clone(),
        sort_order: i.sort_order,
        created_at: i.created_at,
    }
}

/// The items in display order.
pub fn list_items(items: &Vec<ChecklistItem>) -> (r: Vec<ChecklistItem>)
    ensures
        r.deep_view() == display_order(items.deep_view()),
{
    let ghost d = items.deep_view();
    let mut keys: Vec<i128> = Vec::new();
    let mut marks: Vec<bool> = Vec::new();
    let mut i: usize = 0;
    while i < items.len()
        invariant
            i <= items@.len(),
            d == items.deep_view(),
            keys@ == item_keys(d).subrange(0, i as int),
            marks@ == all_items(d).subrange(0, i as int),
        decreases items.len() - i,
    {
        let k: i128 = (items[i].sort_order as i128) * 18446744073709551616 + (items[i].created_at as i128
            + 9223372036854775808);
        keys.push(k);
        marks.push(true);
        i = i + 1;
        assert(keys@ =~= item_keys(d).subrange(0, i as int));
        assert(marks@ =~= all_items(d).subrange(0, i as int));
    }
    assert(keys@ =~= item_keys(d));
    assert(marks@ =~= all_items(d));
    let p = stable_selection(&keys, &marks);
    proof {
        let q = choose|q: Seq<usize>| is_stable_selection(item_keys(d), all_items(d), q);
        assert(is_stable_selection(item_keys(d), all_items(d), q));
        lemma_stable_selection_unique(item_keys(d), all_items(d), p@, q);
    }
    let mut out: Vec<ChecklistItem> = Vec::new();
    let mut j: usize = 0;
    while j < p.len()
        invariant
            j <= p@.len(),
            d == items.deep_view(),
            is_stable_selection(item_keys(d), all_items(d), p@),
            out.deep_view() == p@.subrange(0, j as int).map_values(|k: usize| d[k as int]),
        decreases p.len() - j,
    {
        assert((p@[j as int] as int) < d.len());
        let ghost before = out.deep_view();
        out.push(duplicate_item(&items[p[j]]));
        assert(out.deep_view() =~= before.push(d[p@[j as int] as int]));
        j = j + 1;
        assert(out.deep_view() =~= p@.subrange(0, j as int).map_values(|k: usize| d[k as int]));
    }
    assert(p@.subrange(0, j as int) =~= p@);
    out
}

/// The completions of a stay, in stored order.
pub open spec fn stay_completions(c: Seq<ChecklistCompletion>, stay: u128) -> Seq<ChecklistCompletion> {
    c.filter(|x: ChecklistCompletion| x.stay_id == stay)
}

/// The completions of a stay.
pub fn list_completions(completions: &Vec<ChecklistCompletion>, stay_id: u128) -> (r: Vec<ChecklistCompletion>)
    ensures
        r@ == stay_completions(completions@, stay_id),
{
    let mut out: Vec<ChecklistCompletion> = Vec::new();
    let mut i: usize = 0;
    while i < completions.len()
        invariant
            i <= completions@.len(),
            out@ == completions@.subrange(0, i as int).filter(|x: ChecklistCompletion| x.stay_id == stay_id),
        decreases completions.len() - i,
    {
        proof {
            reveal(Seq::filter);
            assert(completions@.subrange(0, i + 1).drop_last() =~= completions@.subrange(0, i as int));
        }
        if completions[i].stay_id == stay_id {
            out.push(completions[i]);
        }
        i = i + 1;
    }
    assert(completions@.subrange(0, i as int) =~= completions@);
    out
}

/// The ids of the items a stay completed, in completion order.
pub fn list_completed_item_ids(completions: &Vec<ChecklistCompletion>, stay_id: u128) -> (r: Vec<u128>)
    ensures
        r@ == stay_completions(completions@, stay_id).map_values(|x: ChecklistCompletion| x.item_id),
{
    let rows = list_completions(completions, stay_id);
    let mut out: Vec<u128> = Vec::new();
    let mut i: usize = 0;
    while i < rows.len()
        invariant
            i <= rows@.len(),
            out@ == rows@.subrange(0, i as int).map_values(|x: ChecklistCompletion| x.item_id),
        decreases rows.len() - i,
    {
        out.push(rows[i].item_id);
        i = i + 1;
        assert(out@ =~= rows@.subrange(0, i as int).map_values(|x: ChecklistCompletion| x.item_id));
    }
    assert(rows@.subrange(0, i as int) =~= rows@);
    out
}

/// Some item has the id.
pub open spec fn has_item(items: Seq<ItemModel>, id: u128) -> bool {
    exists|k: int| 0 <= k < items.len() && items[k].id == id
}

/// The stay completed the item.
pub open spec fn is_completed(c: Seq<ChecklistCompletion>, stay: u128, item: u128) -> bool {
    exists|k: int| 0 <= k < c.len() && c[k].stay_id == stay && c[k].item_id == item
}

/// The completions after a stay completes an item: refused for an unknown
/// item; unchanged when already completed; else one completion appended.
pub open spec fn completed_store(
    items: Seq<ItemModel>,
    c: Seq<ChecklistCompletion>,
    stay: u128,
    item: u128,
    id: u128,
    now: i64,
) -> Result<Seq<ChecklistCompletion>, ChecklistError> {
    if !has_item(items, item) {
        Err(ChecklistError::ItemNotFound)
    } else if is_completed(c, stay, item) {
        Ok(c)
    } else {
        Ok(c.push(ChecklistCompletion { id: id, stay_id: stay, item_id: item, completed_at: now }))
    }
}

/// The completions after a stay uncompletes an item: every completion of
/// that stay and item removed.
pub open spec fn uncompleted_store(c: Seq<ChecklistCompletion>, stay: u128, item: u128) -> Seq<ChecklistCompletion> {
    c.filter(|x: ChecklistCompletion| !(x.stay_id == stay && x.item_id == item))
}

impl ChecklistStore {
    /// Marks an item complete for the stay, with a fresh completion id
    /// (idempotent; see [`completed_store`]).
    pub fn complete_item(&mut self, stay_id: u128, item_id: u128, now: i64) -> (r: Result<(), ChecklistError>)
        ensures
            final(self).items.deep_view() == old(self).items.deep_view(),
            exists|id: u128|
                #![trigger completed_store(old(self).items.deep_view(), old(self).completions@, stay_id, item_id, id, now)]
                match completed_store(old(self).items.deep_view(), old(self).completions@, stay_id, item_id, id, now) {
                    Ok(c) => r is Ok && final(self).completions@ == c,
                    Err(e) => r == Err::<(), ChecklistError>(e) && final(self).completions@ == old(self).completions@,
                },
    {
        let ghost d = self.items.deep_view();
        let mut found = false;
        let mut i: usize = 0;
        while i < self.items.len()
            invariant
                i <= self.items@.len(),
                d == self.items.deep_view(),
                found == exists|k: int| 0 <= k < i && d[k].id == item_id,
            decreases self.items.len() - i,
        {
            assert(d[i as int].id == self.items@[i as int].id);
            if self.items[i].id == item_id {
                found = true;
            }
            i = i + 1;
            assert(found == exists|k: int| 0 <= k < i && d[k].id == item_id) by {
                if found && !(d[i - 1].id == item_id) {
                    let k = choose|k: int| 0 <= k < i - 1 && d[k].id == item_id;
                    assert(0 <= k < i && d[k].id == item_id);
                }
            }
        }
        if !found {
            assert(completed_store(d, self.completions@, stay_id, item_id, 0, now) is Err);
            return Err(ChecklistError::ItemNotFound);
        }
        let mut done = false;
        let mut k: usize = 0;
        while k < self.completions.len()
            invariant
                k <= self.completions@.len(),
                done == exists|j: int|
                    0 <= j < k && self.completions@[j].stay_id == stay_id && self.completions@[j].item_id == item_id,
            decreases self.completions.len() - k,
        {
            if self.completions[k].stay_id == stay_id && self.completions[k].item_id == item_id {
                done = true;
            }
            k = k + 1;
        }
        if done {
            assert(completed_store(d, self.completions@, stay_id, item_id, 0, now) == Ok::<
                Seq<ChecklistCompletion>,
                ChecklistError,
            >(self.completions@));
            return Ok(());
        }
        let id = new_uuid_u128();
        let ghost before = self.completions@;
        self.completions.push(ChecklistCompletion { id, stay_id, item_id, completed_at: now });
        assert(has_item(d, item_id));
        assert(!is_completed(before, stay_id, item_id));
        assert(completed_store(d, before, stay_id, item_id, id, now) == Ok::<
            Seq<ChecklistCompletion>,
            ChecklistError,
        >(self.completions@));
        Ok(())
    }

    /// Removes the stay's completions of an item (idempotent).
    pub fn uncomplete_item(&mut self, stay_id: u128, item_id: u128)
        ensures
            final(self).items.deep_view() == old(self).items.deep_view(),
            final(self).completions@ == uncompleted_store(old(self).completions@, stay_id, item_id),
    {
        let c = self.completions.clone();
        let mut out: Vec<ChecklistCompletion> = Vec::new();
        let mut i: usize = 0;
        while i < c.len()
            invariant
                i <= c@.len(),
                out@ == c@.subrange(0, i as int).filter(
                    |x: ChecklistCompletion| !(x.stay_id == stay_id && x.item_id == item_id),
                ),
            decreases c.len() - i,
        {
            proof {
                reveal(Seq::filter);
                assert(c@.subrange(0, i + 1).drop_last() =~= c@.subrange(0, i as int));
            }
            if !(c[i].stay_id == stay_id && c[i].item_id == item_id) {
                out.push(c[i]);
            }
            i = i + 1;
        }
        assert(c@.subrange(0, i as int) =~= c@);
        self.completions = out;
    }
}

/// The items of the checklist that the stay completed.
pub open spec fn completed_items(items: Seq<ItemModel>, c: Seq<ChecklistCompletion>, stay: u128) -> Seq<ItemModel> {
    items.filter(|i: ItemModel| is_completed(c, stay, i.id))
}

/// Progress of a stay in percent, from 0 to 100: the items it completed over
/// all items, rounded down; 0 without items. Completions of items no longer
/// in the checklist do not count.
pub open spec fn progress_of(items: Seq<ItemModel>, c: Seq<ChecklistCompletion>, stay: u128) -> int {
    if items.len() == 0 {
        0
    } else {
        ((completed_items(items, c, stay).len() * 100) as int) / (items.len() as int)
    }
}

/// Whether the stay completed the item.
fn completed_by(completions: &Vec<ChecklistCompletion>, stay_id: u128, item_id: u128) -> (r: bool)
    ensures
        r == is_completed(completions@, stay_id, item_id),
{
    let mut k: usize = 0;
    while k < completions.len()
        invariant
            k <= completions@.len(),
            forall|j: int|
                0 <= j < k ==> !(completions@[j].stay_id == stay_id && completions@[j].item_id == item_id),
        decreases completions.len() - k,
    {
        if completions[k].stay_id == stay_id && completions[k].item_id == item_id {
            return true;
        }
        k = k + 1;
    }
    false
}

/// Progress of a stay in percent (see [`progress_of`]).
pub fn progress_percent(store: &ChecklistStore, stay_id: u128) -> (r: u8)
    ensures
        r == progress_of(store.items.deep_view(), store.completions@, stay_id),
        r <= 100,
{
    let ghost d = store.items.deep_view();
    let ghost pred = |i: ItemModel| is_completed(store.completions@, stay_id, i.id);
    if store.items.len() == 0 {
        return 0;
    }
    let mut done: usize = 0;
    let mut i: usize = 0;
    while i < store.items.len()
        invariant
            i <= store.items@.len(),
            d == store.items.deep_view(),
            pred == (|i: ItemModel| is_completed(store.completions@, stay_id, i.id)),
            done == d.subrange(0, i as int).filter(pred).len(),
            done <= i,
        decreases store.items.len() - i,
    {
        proof {
            reveal(Seq::filter);
            assert(d.subrange(0, i + 1).drop_last() =~= d.subrange(0, i as int));
        }
        assert(d[i as int].id == store.items@[i as int].id);
        if completed_by(&store.completions, stay_id, store.items[i].id) {
            done = done + 1;
        }
        i = i + 1;
    }
    assert(d.subrange(0, i as int) =~= d);
    let total = store.items.len();
    proof {
        lemma_progress_bounded(d, store.completions@, stay_id);
    }
    assert(done <= total);
    let pct: u128 = (done as u128 * 100) / (total as u128);
    assert(pct == progress_of(d, store.completions@, stay_id));
    pct as u8
}

/// Completing twice is completing once, and uncompleting after completing
/// leaves the stay without a completion of that item.
pub proof fn lemma_complete_idempotent(
    items: Seq<ItemModel>,
    c: Seq<ChecklistCompletion>,
    stay: u128,
    item: u128,
    id1: u128,
    id2: u128,
    now1: i64,
    now2: i64,
)
    ensures
        completed_store(items, c, stay, item, id1, now1) matches Ok(c1) ==> completed_store(
            items,
            c1,
            stay,
            item,
            id2,
            now2,
        ) == Ok::<Seq<ChecklistCompletion>, ChecklistError>(c1),
        completed_store(items, c, stay, item, id1, now1) matches Ok(c1) ==> !is_completed(
            uncompleted_store(c1, stay, item),
            stay,
            item,
        ),
        !is_completed(uncompleted_store(c, stay, item), stay, item),
{
    lemma_uncompleted_clear(c, stay, item);
    if let Ok(c1) = completed_store(items, c, stay, item, id1, now1) {
        if !is_completed(c, stay, item) {
            assert(c1[c.len() as int].stay_id == stay && c1[c.len() as int].item_id == item);
        }
        lemma_uncompleted_clear(c1, stay, item);
    }
}

proof fn lemma_uncompleted_clear(c: Seq<ChecklistCompletion>, stay: u128, item: u128)
    ensures
        !is_completed(uncompleted_store(c, stay, item), stay, item),
{
    let pred = |x: ChecklistCompletion| !(x.stay_id == stay && x.item_id == item);
    let u = c.filter(pred);
    assert forall|k: int| 0 <= k < u.len() implies !(u[k].stay_id == stay && u[k].item_id == item) by {
        c.lemma_filter_pred(pred, k);
    }
}

proof fn lemma_filter_push_one<A>(t: Seq<A>, x: A, p: spec_fn(A) -> bool)
    ensures
        t.push(x).filter(p) == (if p(x) { t.filter(p).push(x) } else { t.filter(p) }),
{
    reveal(Seq::filter);
    assert(t.push(x).drop_last() =~= t);
}

proof fn lemma_filter_keeps_all<A>(s: Seq<A>, p: spec_fn(A) -> bool)
    requires
        forall|k: int| 0 <= k < s.len() ==> p(#[trigger] s[k]),
    ensures
        s.filter(p) == s,
    decreases s.len(),
{
    reveal(Seq::filter);
    if s.len() > 0 {
        lemma_filter_keeps_all(s.drop_last(), p);
        assert(s.drop_last().push(s.last()) =~= s);
    }
}

proof fn lemma_filter_absorb<A>(s: Seq<A>, p: spec_fn(A) -> bool, q: spec_fn(A) -> bool)
    requires
        forall|x: A| #[trigger] q(x) ==> p(x),
    ensures
        s.filter(p).filter(q) == s.filter(q),
    decreases s.len(),
{
    if s.len() > 0 {
        let t = s.drop_last();
        let x = s.last();
        assert(t.push(x) =~= s);
        lemma_filter_absorb(t, p, q);
        lemma_filter_push_one(t, x, p);
        lemma_filter_push_one(t, x, q);
        if p(x) {
            lemma_filter_push_one(t.filter(p), x, q);
        }
    } else {
        reveal(Seq::filter);
    }
}

/// Completing then uncompleting an item the stay had not completed puts the
/// completions back as they were; both leave the rows of every other stay
/// as they were.
pub proof fn lemma_complete_uncomplete_roundtrip(
    items: Seq<ItemModel>,
    c: Seq<ChecklistCompletion>,
    stay: u128,
    item: u128,
    id: u128,
    now: i64,
    other: u128,
)
    requires
        other != stay,
    ensures
        !is_completed(c, stay, item) ==> (completed_store(items, c, stay, item, id, now) matches Ok(c1)
            ==> uncompleted_store(c1, stay, item) == c),
        completed_store(items, c, stay, item, id, now) matches Ok(c1) ==> stay_completions(c1, other)
            == stay_completions(c, other),
        stay_completions(uncompleted_store(c, stay, item), other) == stay_completions(c, other),
{
    let p = |x: ChecklistCompletion| !(x.stay_id == stay && x.item_id == item);
    let q = |x: ChecklistCompletion| x.stay_id == other;
    lemma_filter_absorb(c, p, q);
    let row = ChecklistCompletion { id: id, stay_id: stay, item_id: item, completed_at: now };
    lemma_filter_push_one(c, row, q);
    if !is_completed(c, stay, item) {
        assert forall|k: int| 0 <= k < c.len() implies p(#[trigger] c[k]) by {
            if !p(c[k]) {
                assert(c[k].stay_id == stay && c[k].item_id == item);
            }
        }
        lemma_filter_keeps_all(c, p);
        lemma_filter_push_one(c, row, p);
    }
}

/// Progress stays within 0..=100 on every store: only completed items of
/// the checklist count, each once.
pub proof fn lemma_progress_bounded(items: Seq<ItemModel>, c: Seq<ChecklistCompletion>, stay: u128)
    ensures
        0 <= progress_of(items, c, stay) <= 100,
        completed_items(items, c, stay).len() <= items.len(),
{
    items.lemma_filter_len(|i: ItemModel| is_completed(c, stay, i.id));
    if items.len() > 0 {
        let n = completed_items(items, c, stay).len();
        let t = items.len();
        assert(n * 100 <= t * 100) by (nonlinear_arith)
            requires
                n <= t,
        ;
        assert(((n * 100) as int) / (t as int) <= 100) by (nonlinear_arith)
            requires
                n * 100 <= t * 100,
                t > 0,
        ;
    }
}

} // verus!
