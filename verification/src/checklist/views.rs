//! What the checklist screens show, as plain values: the guest card with
//! its progress line and one toggle per item, and the host editor's item
//! slots.

use vstd::prelude::*;

use crate::checklist::guest::{completed_in, done_count, guest_progress, percent_of};
use crate::checklist::labels::{
    get_label, item_labels, labels_from_item, pick_label, picked_label, ChecklistItem,
};
use crate::checklist::storage::ItemModel;
use crate::keyed::key_lookup;
use crate::text::{decimal_of, lang_code_of, push_decimal};

verus! {

/// Item slots of the host editor.
pub const ITEM_SLOTS: usize = 6;

/// What the guest card is built from.
#[derive(Debug)]
pub struct GuestChecklistData {
    pub items: Vec<ChecklistItem>,
    /// Items the stay completed.
    pub completed: Vec<u128>,
    pub locale: String,
    pub property_locale: String,
    pub done: usize,
    pub total: usize,
    pub percent: u8,
}

/// The guest card data of the listed items; `None` (no item) gives the
/// empty card.
pub fn load_guest_checklist(
    items: Vec<ChecklistItem>,
    completed: Vec<u128>,
    locale: &str,
    property_locale: &str,
) -> (r: Option<GuestChecklistData>)
    requires
        items@.len() * 100 <= usize::MAX,
    ensures
        items@.len() == 0 ==> r is None,
        items@.len() > 0 ==> (r matches Some(d) && {
            &&& d.items@ == items@
            &&& d.completed@ == completed@
            &&& d.locale@ == locale@
            &&& d.property_locale@ == property_locale@
            &&& d.done == done_count(items.deep_view(), completed@)
            &&& d.total == items@.len()
            &&& d.percent == percent_of(d.done as nat, d.total as nat)
            &&& d.percent <= 100
        }),
{
    if items.len() == 0 {
        return None;
    }
    let (done, total, percent) = guest_progress(&items, &completed);
    Some(GuestChecklistData {
        items,
        completed,
        locale: locale.to_owned(),
        property_locale: property_locale.to_owned(),
        done,
        total,
        percent,
    })
}

/// One toggle of the guest card: the item, its label and whether it is
/// done (the toggle completes or uncompletes it).
#[derive(Debug, Clone)]
pub struct ChecklistRow {
    pub item_id: u128,
    pub label: String,
    pub checked: bool,
}

/// [`ChecklistRow`] with the label as a sequence.
pub struct ChecklistRowModel {
    pub item_id: u128,
    pub label: Seq<char>,
    pub checked: bool,
}

impl DeepView for ChecklistRow {
    type V = ChecklistRowModel;

    open spec fn deep_view(&self) -> ChecklistRowModel {
        ChecklistRowModel { item_id: self.item_id, label: self.label@, checked: self.checked }
    }
}

/// The guest card: the progress line and the toggles.
#[derive(Debug)]
pub struct HomeCard {
    /// `done / total — percent%`.
    pub progress: String,
    pub rows: Vec<ChecklistRow>,
}

/// The progress line.
pub open spec fn progress_text(done: nat, total: nat, percent: nat) -> Seq<char> {
    decimal_of(done) + " / "@ + decimal_of(total) + " — "@ + decimal_of(percent) + "%"@
}

/// The toggle of an item.
pub open spec fn row_model(i: ItemModel, completed: Seq<u128>, locale: Seq<char>, property_locale: Seq<char>) -> ChecklistRowModel {
    ChecklistRowModel {
        item_id: i.id,
        label: picked_label(item_labels(i.label_fr, i.label_en), locale, property_locale),
        checked: completed_in(completed, i.id),
    }
}

fn contains_id(ids: &Vec<u128>, id: u128) -> (r: bool)
    ensures
        r == completed_in(ids@, id),
{
    let mut k: usize = 0;
    while k < ids.len()
        invariant
            k <= ids@.len(),
            forall|j: int| 0 <= j < k ==> ids@[j] != id,
        decreases ids.len() - k,
    {
        if ids[k] == id {
            return true;
        }
        k = k + 1;
    }
    false
}

/// The guest card (see [`progress_text`] and [`row_model`]).
pub fn build_home_card(data: &GuestChecklistData) -> (r: HomeCard)
    ensures
        r.progress@ == progress_text(data.done as nat, data.total as nat, data.percent as nat),
        r.rows.deep_view() == Seq::new(
            data.items@.len(),
            |k: int| row_model(data.items.deep_view()[k], data.completed@, data.locale@, data.property_locale@),
        ),
{
    let mut progress = String::new();
    push_decimal(&mut progress, data.done);
    progress.append(" / ");
    push_decimal(&mut progress, data.total);
    progress.append(" — ");
    push_decimal(&mut progress, data.percent as usize);
    progress.append("%");
    let ghost d = data.items.deep_view();
    let ghost want = Seq::new(
        data.items@.len(),
        |k: int| row_model(d[k], data.completed@, data.locale@, data.property_locale@),
    );
    let mut rows: Vec<ChecklistRow> = Vec::new();
    let mut i: usize = 0;
    while i < data.items.len()
        invariant
            i <= data.items@.len(),
            d == data.items.deep_view(),
            want == Seq::new(
                data.items@.len(),
                |k: int| row_model(d[k], data.completed@, data.locale@, data.property_locale@),
            ),
            rows.deep_view() =~= want.subrange(0, i as int),
        decreases data.items.len() - i,
    {
        let item = &data.items[i];
        let label = pick_label(&labels_from_item(item), data.locale.as_str(), data.property_locale.as_str());
        let row = ChecklistRow { item_id: item.id, label, checked: contains_id(&data.completed, item.id) };
        let ghost before = rows.deep_view();
        rows.push(row);
        assert(rows.deep_view() =~= before.push(row.deep_view()));
        i = i + 1;
    }
    HomeCard { progress, rows }
}

/// The host editor's slot labels: the label in the editor's language of
/// each of the first [`ITEM_SLOTS`] listed items, empty for a free slot.
pub open spec fn slot_labels(items: Seq<ItemModel>, lang: Seq<char>) -> Seq<Seq<char>> {
    Seq::new(
        6,
        |k: int| if k < items.len() {
            match key_lookup(item_labels(items[k].label_fr, items[k].label_en), lang_code_of(lang)) {
                Some(v) => v,
                None => Seq::empty(),
            }
        } else {
            Seq::empty()
        },
    )
}

/// The host editor's slot labels (see [`slot_labels`]).
pub fn host_item_slots(items: &Vec<ChecklistItem>, lang: &str) -> (r: Vec<String>)
    ensures
        r.deep_view() == slot_labels(items.deep_view(), lang@),
{
    let ghost d = items.deep_view();
    let mut out: Vec<String> = Vec::new();
    let mut k: usize = 0;
    while k < ITEM_SLOTS
        invariant
            k <= 6,
            d == items.deep_view(),
            out.deep_view() =~= slot_labels(d, lang@).subrange(0, k as int),
        decreases 6 - k,
    {
        let label = if k < items.len() {
            get_label(&items[k], lang)
        } else {
            String::new()
        };
        let ghost before = out.deep_view();
        out.push(label);
        assert(out.deep_view() =~= before.push(label@));
        k = k + 1;
    }
    out
}

} // verus!
