//! The host's replacement of the item list.

use vstd::prelude::*;

use crate::appliances::codec::{
    array_getter, field_member, fields_distinct, member_fields, object_getter, opt_ref, order_value,
    str_value,
};
use crate::checklist::labels::ChecklistItem;
use crate::checklist::storage::{display_order, list_items, ChecklistStore, ItemModel};
use crate::ids::new_uuid_u128;
use crate::json::{i32_of_text, parse_i32_text, parse_json, json_parse, JsonValue};
use crate::text::{blank, is_blank, str_eq, trim, trim_str, trimmed_owned};

verus! {

/// One item of the host form.
#[derive(Debug, Clone)]
pub struct ChecklistItemInput {
    pub label_fr: String,
    pub label_en: String,
    pub sort_order: i32,
}

/// [`ChecklistItemInput`] with texts as sequences.
pub struct InputModel {
    pub label_fr: Seq<char>,
    pub label_en: Seq<char>,
    pub sort_order: i32,
}

impl DeepView for ChecklistItemInput {
    type V = InputModel;

    open spec fn deep_view(&self) -> InputModel {
        InputModel { label_fr: self.label_fr@, label_en: self.label_en@, sort_order: self.sort_order }
    }
}

/// The host form: items, or a pasted JSON list of items.
#[derive(Debug, Clone)]
pub struct ReplaceItemsArgs {
    pub items: Vec<ChecklistItemInput>,
    pub items_json: Option<String>,
}

/// Why the form was refused.
#[derive(Debug, Clone, Copy, PartialEq, Eq, Structural)]
pub enum ReplaceError {
    /// The pasted list is not a JSON list of items.
    InvalidItemsJson,
}

/// Order of the item at `index`: its own, or its position when 0 (the first
/// keeps 0).
pub open spec fn input_order(sort_order: i32, index: int) -> i32 {
    if sort_order == 0 && index > 0 {
        index as i32
    } else {
        sort_order
    }
}

/// The items of the form: those with a label, trimmed, a 0 order replaced by
/// the position.
pub open spec fn form_items(items: Seq<ChecklistItemInput>) -> Seq<InputModel>
    decreases items.len(),
{
    if items.len() == 0 {
        Seq::empty()
    } else {
        let k = items.len() - 1;
        let it = items.last();
        form_items(items.drop_last()) + if is_blank(it.label_fr@) && is_blank(it.label_en@) {
            Seq::<InputModel>::empty()
        } else {
            seq![
                InputModel {
                    label_fr: trim(it.label_fr@),
                    label_en: trim(it.label_en@),
                    sort_order: if it.sort_order == 0 {
                        k as i32
                    } else {
                        it.sort_order
                    },
                },
            ]
        }
    }
}

/// Field index of an item member (`labelFr`, `labelEn`, `sortOrder` are
/// aliases); -1 when unknown.
pub open spec fn input_field(k: Seq<char>) -> int {
    if k == "label_fr"@ || k == "labelFr"@ {
        0
    } else if k == "label_en"@ || k == "labelEn"@ {
        1
    } else if k == "sort_order"@ || k == "sortOrder"@ {
        2
    } else {
        -1
    }
}

/// Item field naming as a function.
pub open spec fn input_keys() -> spec_fn(Seq<char>) -> int {
    |k: Seq<char>| input_field(k)
}

/// A value of the right type for item field `f`.
pub open spec fn input_field_valid(f: int, v: JsonValue) -> bool {
    if f == 2 {
        v matches JsonValue::Number(t) && i32_of_text(t@) is Some
    } else {
        v is Str
    }
}

/// An item from its field values (missing ones default).
pub open spec fn input_from(get: spec_fn(int) -> Option<JsonValue>) -> InputModel {
    InputModel { label_fr: str_value(get(0)), label_en: str_value(get(1)), sort_order: order_value(get(2)) }
}

/// An item as serde reads it.
pub open spec fn decode_input(v: JsonValue) -> Option<InputModel> {
    match v {
        JsonValue::Object(m) => {
            let keys = member_fields(m@, input_keys());
            if (forall|i: int| 0 <= i < m@.len() && keys[i] >= 0 ==> input_field_valid(keys[i], #[trigger] m@[i].1))
                && fields_distinct(keys) {
                Some(input_from(object_getter(m@, input_keys())))
            } else {
                None
            }
        },
        JsonValue::Array(a) => if a@.len() <= 3 && forall|i: int|
            0 <= i < a@.len() ==> input_field_valid(i, #[trigger] a@[i]) {
            Some(input_from(array_getter(a@)))
        } else {
            None
        },
        _ => None,
    }
}

/// A list of items as serde reads it.
pub open spec fn decode_inputs(v: JsonValue) -> Option<Seq<InputModel>> {
    match v {
        JsonValue::Array(a) => if forall|i: int| 0 <= i < a@.len() ==> (#[trigger] decode_input(a@[i])) is Some {
            Some(a@.map_values(|x: JsonValue| decode_input(x)->0))
        } else {
            None
        },
        _ => None,
    }
}

/// The items the form stores: its own items when it has some (or no JSON
/// list); else the pasted list as given (none when blank), refused when it is
/// not a list of items.
pub open spec fn resolved_items(items: Seq<ChecklistItemInput>, items_json: Option<Seq<char>>) -> Result<
    Seq<InputModel>,
    ReplaceError,
> {
    let from_array = form_items(items);
    if from_array.len() > 0 || items_json is None {
        Ok(from_array)
    } else {
        let t = trim(items_json->0);
        if t.len() == 0 {
            Ok(Seq::empty())
        } else {
            match json_parse(t) {
                Some(v) => match decode_inputs(v) {
                    Some(list) => Ok(list),
                    None => Err(ReplaceError::InvalidItemsJson),
                },
                None => Err(ReplaceError::InvalidItemsJson),
            }
        }
    }
}

fn input_field_of(k: &str) -> (r: i64)
    ensures
        r == input_field(k@),
{
    if str_eq(k, "label_fr") || str_eq(k, "labelFr") {
        0
    } else if str_eq(k, "label_en") || str_eq(k, "labelEn") {
        1
    } else if str_eq(k, "sort_order") || str_eq(k, "sortOrder") {
        2
    } else {
        -1
    }
}

fn input_field_valid_exec(f: i64, v: &JsonValue) -> (r: bool)
    ensures
        r == input_field_valid(f as int, *v),
{
    if f == 2 {
        match v {
            JsonValue::Number(t) => parse_i32_text(t.as_str()).is_some(),
            _ => false,
        }
    } else {
        matches!(v, JsonValue::Str(_))
    }
}

fn find_input_field(m: &Vec<(String, JsonValue)>, f: i64) -> (r: Option<&JsonValue>)
    ensures
        opt_ref(r) == field_member(m@, input_keys(), f as int),
{
    let mut i: usize = 0;
    assert(m@.subrange(0, m@.len() as int) =~= m@);
    while i < m.len()
        invariant
            i <= m@.len(),
            field_member(m@, input_keys(), f as int) == field_member(
                m@.subrange(i as int, m@.len() as int),
                input_keys(),
                f as int,
            ),
        decreases m.len() - i,
    {
        let ghost rest = m@.subrange(i as int, m@.len() as int);
        assert(rest.drop_first() =~= m@.subrange(i + 1, m@.len() as int));
        assert(rest[0] == m@[i as int]);
        if input_field_of(m[i].0.as_str()) == f {
            return Some(&m[i].1);
        }
        i = i + 1;
    }
    None
}

fn str_of_opt(o: Option<&JsonValue>) -> (r: String)
    ensures
        r@ == str_value(opt_ref(o)),
{
    match o {
        Some(JsonValue::Str(s)) => s.clone(),
        _ => String::new(),
    }
}

fn order_of_opt(o: Option<&JsonValue>) -> (r: i32)
    ensures
        r == order_value(opt_ref(o)),
{
    match o {
        Some(JsonValue::Number(t)) => match parse_i32_text(t.as_str()) {
            Some(x) => x,
            None => 0,
        },
        _ => 0,
    }
}

/// Reads an item (see [`decode_input`]).
pub fn decode_input_exec(v: &JsonValue) -> (r: Option<ChecklistItemInput>)
    ensures
        r.deep_view() == decode_input(*v),
{
    match v {
        JsonValue::Object(m) => {
            let ghost keys = member_fields(m@, input_keys());
            let mut seen: Vec<bool> = vec![false, false, false];
            let mut i: usize = 0;
            while i < m.len()
                invariant
                    i <= m@.len(),
                    *v == JsonValue::Object(*m),
                    keys == member_fields(m@, input_keys()),
                    seen@.len() == 3,
                    forall|k: int| 0 <= k < i && keys[k] >= 0 ==> input_field_valid(keys[k], #[trigger] m@[k].1),
                    forall|a: int, b: int| 0 <= a < b < i && keys[a] >= 0 ==> keys[a] != keys[b],
                    forall|c: int| 0 <= c < 3 ==> (#[trigger] seen@[c] <==> exists|k: int| 0 <= k < i && keys[k] == c),
                    forall|k: int| 0 <= k < m@.len() ==> -1 <= #[trigger] keys[k] < 3,
                decreases m.len() - i,
            {
                let c = input_field_of(m[i].0.as_str());
                assert(c == keys[i as int]);
                if c >= 0 {
                    let cu = c as usize;
                    if seen[cu] {
                        proof {
                            let k = choose|k: int| 0 <= k < i && keys[k] == c;
                            assert(keys[k] == keys[i as int]);
                        }
                        return None;
                    }
                    if !input_field_valid_exec(c, &m[i].1) {
                        return None;
                    }
                    seen.set(cu, true);
                }
                i = i + 1;
                proof {
                    assert forall|cc: int| 0 <= cc < 3 implies (#[trigger] seen@[cc] <==> exists|k: int|
                        0 <= k < i && keys[k] == cc) by {
                        if cc == c {
                            assert(keys[i - 1] == cc);
                        } else if seen@[cc] {
                            let k = choose|k: int| 0 <= k < i - 1 && keys[k] == cc;
                            assert(0 <= k < i && keys[k] == cc);
                        }
                    }
                }
            }
            let r = ChecklistItemInput {
                label_fr: str_of_opt(find_input_field(m, 0)),
                label_en: str_of_opt(find_input_field(m, 1)),
                sort_order: order_of_opt(find_input_field(m, 2)),
            };
            assert(r.deep_view() == input_from(object_getter(m@, input_keys())));
            Some(r)
        },
        JsonValue::Array(a) => {
            if a.len() > 3 {
                return None;
            }
            let mut i: usize = 0;
            while i < a.len()
                invariant
                    i <= a@.len(),
                    a@.len() <= 3,
                    *v == JsonValue::Array(*a),
                    forall|k: int| 0 <= k < i ==> input_field_valid(k, #[trigger] a@[k]),
                decreases a.len() - i,
            {
                if !input_field_valid_exec(i as i64, &a[i]) {
                    assert(!input_field_valid(i as int, a@[i as int]));
                    return None;
                }
                i = i + 1;
            }
            let r = ChecklistItemInput {
                label_fr: str_of_opt(if 0 < a.len() { Some(&a[0]) } else { None }),
                label_en: str_of_opt(if 1 < a.len() { Some(&a[1]) } else { None }),
                sort_order: order_of_opt(if 2 < a.len() { Some(&a[2]) } else { None }),
            };
            assert(r.deep_view() == input_from(array_getter(a@)));
            Some(r)
        },
        _ => None,
    }
}

/// The items the form stores (see [`resolved_items`]).
pub fn resolve_items(args: &ReplaceItemsArgs) -> (r: Result<Vec<ChecklistItemInput>, ReplaceError>)
    ensures
        match r {
            Ok(v) => resolved_items(args.items@, args.items_json.deep_view()) == Ok::<
                Seq<InputModel>,
                ReplaceError,
            >(v.deep_view()),
            Err(e) => resolved_items(args.items@, args.items_json.deep_view()) == Err::<
                Seq<InputModel>,
                ReplaceError,
            >(e),
        },
{
    let mut from_array: Vec<ChecklistItemInput> = Vec::new();
    let mut index: usize = 0;
    while index < args.items.len()
        invariant
            index <= args.items@.len(),
            from_array.deep_view() == form_items(args.items@.subrange(0, index as int)),
        decreases args.items.len() - index,
    {
        assert(args.items@.subrange(0, index + 1).drop_last() =~= args.items@.subrange(0, index as int));
        let item = &args.items[index];
        let ghost before = from_array.deep_view();
        if !(blank(item.label_fr.as_str()) && blank(item.label_en.as_str())) {
            let it = ChecklistItemInput {
                label_fr: trimmed_owned(item.label_fr.as_str()),
                label_en: trimmed_owned(item.label_en.as_str()),
                sort_order: if item.sort_order == 0 {
                    index as i32
                } else {
                    item.sort_order
                },
            };
            from_array.push(it);
            assert(from_array.deep_view() =~= before.push(it.deep_view()));
        }
        index = index + 1;
        assert(from_array.deep_view() =~= form_items(args.items@.subrange(0, index as int)));
    }
    assert(args.items@.subrange(0, index as int) =~= args.items@);
    if from_array.len() > 0 || args.items_json.is_none() {
        return Ok(from_array);
    }
    let raw = match &args.items_json {
        Some(r) => trim_str(r.as_str()),
        None => return Ok(from_array),
    };
    if raw.unicode_len() == 0 {
        let e: Vec<ChecklistItemInput> = Vec::new();
        assert(e.deep_view() =~= Seq::<InputModel>::empty());
        return Ok(e);
    }
    let v = match parse_json(raw) {
        Some(v) => v,
        None => return Err(ReplaceError::InvalidItemsJson),
    };
    match &v {
        JsonValue::Array(a) => {
            let mut out: Vec<ChecklistItemInput> = Vec::new();
            let mut i: usize = 0;
            while i < a.len()
                invariant
                    i <= a@.len(),
                    v == JsonValue::Array(*a),
                    form_items(args.items@).len() == 0,
                    args.items_json.deep_view() matches Some(j) && trim(j) == raw@,
                    raw@.len() > 0,
                    json_parse(raw@) == Some(v),
                    forall|k: int| 0 <= k < i ==> (#[trigger] decode_input(a@[k])) is Some,
                    out.deep_view() == a@.subrange(0, i as int).map_values(|x: JsonValue| decode_input(x)->0),
                decreases a.len() - i,
            {
                match decode_input_exec(&a[i]) {
                    Some(c) => {
                        let ghost before = out.deep_view();
                        out.push(c);
                        assert(out.deep_view() =~= before.push(decode_input(a@[i as int])->0));
                    },
                    None => {
                        assert(decode_input(a@[i as int]) is None);
                        assert(decode_inputs(v) is None);
                        return Err(ReplaceError::InvalidItemsJson);
                    },
                }
                i = i + 1;
                assert(out.deep_view() =~= a@.subrange(0, i as int).map_values(|x: JsonValue| decode_input(x)->0));
            }
            assert(a@.subrange(0, i as int) =~= a@);
            Ok(out)
        },
        _ => Err(ReplaceError::InvalidItemsJson),
    }
}

/// One item to store: its id when it already exists, its labels and order.
#[derive(Debug, Clone)]
pub struct ReplaceInput {
    pub id: Option<u128>,
    pub label_fr: String,
    pub label_en: String,
    pub sort_order: i32,
}

/// The stored item kept: its id is among the given ones.
pub open spec fn kept(ids: Seq<ReplaceInput>) -> spec_fn(ItemModel) -> bool {
    |r: ItemModel| exists|k: int| 0 <= k < ids.len() && ids[k].id == Some(r.id)
}

/// Creation instant of an item: that of the first listed item with the id,
/// else `now`.
pub open spec fn created_of(existing: Seq<ItemModel>, id: u128, now: i64) -> i64
    decreases existing.len(),
{
    if existing.len() == 0 {
        now
    } else if existing[0].id == id {
        existing[0].created_at
    } else {
        created_of(existing.drop_first(), id, now)
    }
}

/// First position of an id.
pub open spec fn item_index(items: Seq<ItemModel>, id: u128) -> Option<int>
    decreases items.len(),
{
    if items.len() == 0 {
        None
    } else if items[0].id == id {
        Some(0)
    } else {
        match item_index(items.drop_first(), id) {
            Some(i) => Some(i + 1),
            None => None,
        }
    }
}

/// The list with the item replacing the first one with its id, or appended.
pub open spec fn upsert_item(items: Seq<ItemModel>, it: ItemModel) -> Seq<ItemModel> {
    match item_index(items, it.id) {
        Some(i) => items.update(i, it),
        None => items.push(it),
    }
}

/// The items written over `base`, inputs in order: each input's id or the
/// fresh one at its position; its creation instant from `existing`, else
/// `now`; its order from [`input_order`].
pub open spec fn written_items(
    base: Seq<ItemModel>,
    inputs: Seq<ReplaceInput>,
    fresh: Seq<u128>,
    now: i64,
    existing: Seq<ItemModel>,
) -> Seq<ItemModel>
    decreases inputs.len(),
{
    if inputs.len() == 0 {
        base
    } else {
        let k = inputs.len() - 1;
        let it = inputs.last();
        let id = match it.id {
            Some(i) => i,
            None => fresh[k],
        };
        upsert_item(
            written_items(base, inputs.drop_last(), fresh, now, existing),
            ItemModel {
                id: id,
                label_fr: it.label_fr@,
                label_en: it.label_en@,
                sort_order: input_order(it.sort_order, k),
                created_at: created_of(existing, id, now),
            },
        )
    }
}

/// The stored items after the replacement: items whose id is given are
/// kept, the others deleted; then each input is written (see
/// [`written_items`]), creation instants taken from the items as listed.
pub open spec fn replaced_items(items: Seq<ItemModel>, inputs: Seq<ReplaceInput>, fresh: Seq<u128>, now: i64) -> Seq<
    ItemModel,
> {
    written_items(items.filter(kept(inputs)), inputs, fresh, now, display_order(items))
}

fn created_of_exec(existing: &Vec<ChecklistItem>, id: u128, now: i64) -> (r: i64)
    ensures
        r == created_of(existing.deep_view(), id, now),
{
    let ghost d = existing.deep_view();
    let mut i: usize = 0;
    assert(d.subrange(0, d.len() as int) =~= d);
    while i < existing.len()
        invariant
            i <= existing@.len(),
            d == existing.deep_view(),
            created_of(d, id, now) == created_of(d.subrange(i as int, d.len() as int), id, now),
        decreases existing.len() - i,
    {
        let ghost rest = d.subrange(i as int, d.len() as int);
        assert(rest.drop_first() =~= d.subrange(i + 1, d.len() as int));
        assert(rest[0] == d[i as int]);
        if existing[i].id == id {
            return existing[i].created_at;
        }
        i = i + 1;
    }
    now
}

fn item_position(items: &Vec<ChecklistItem>, id: u128) -> (r: Option<usize>)
    ensures
        match r {
            Some(i) => i < items@.len() && item_index(items.deep_view(), id) == Some(i as int),
            None => item_index(items.deep_view(), id) is None,
        },
{
    let ghost d = items.deep_view();
    let mut i: usize = 0;
    assert(d.subrange(0, d.len() as int) =~= d);
    while i < items.len()
        invariant
            i <= items@.len(),
            d == items.deep_view(),
            item_index(d, id) == match item_index(d.subrange(i as int, d.len() as int), id) {
                Some(k) => Some(k + i),
                None => None,
            },
        decreases items.len() - i,
    {
        let ghost rest = d.subrange(i as int, d.len() as int);
        assert(rest.drop_first() =~= d.subrange(i + 1, d.len() as int));
        assert(rest[0] == d[i as int]);
        if items[i].id == id {
            return Some(i);
        }
        i = i + 1;
    }
    None
}

fn is_kept(inputs: &Vec<ReplaceInput>, id: u128) -> (r: bool)
    ensures
        r == exists|k: int| 0 <= k < inputs@.len() && inputs@[k].id == Some(id),
{
    let mut i: usize = 0;
    while i < inputs.len()
        invariant
            i <= inputs@.len(),
            forall|k: int| 0 <= k < i ==> inputs@[k].id != Some(id),
        decreases inputs.len() - i,
    {
        match inputs[i].id {
            Some(x) => if x == id {
                return true;
            },
            None => {},
        }
        i = i + 1;
    }
    false
}

impl ChecklistStore {
    /// Replaces the items, keeping the given ids (and so the stays'
    /// completions of those items): see [`replaced_items`]; an input without
    /// id gets a fresh UUID.
    pub fn replace_items_preserving_ids(&mut self, inputs: Vec<ReplaceInput>, now: i64)
        ensures
            final(self).completions@ == old(self).completions@,
            exists|fresh: Seq<u128>|
                fresh.len() == inputs@.len() && final(self).items.deep_view() == replaced_items(
                    old(self).items.deep_view(),
                    inputs@,
                    fresh,
                    now,
                ),
    {
        let ghost d = self.items.deep_view();
        let existing = list_items(&self.items);
        let mut items: Vec<ChecklistItem> = Vec::new();
        let mut i: usize = 0;
        while i < self.items.len()
            invariant
                i <= self.items@.len(),
                d == self.items.deep_view(),
                items.deep_view() == d.subrange(0, i as int).filter(kept(inputs@)),
            decreases self.items.len() - i,
        {
            proof {
                reveal(Seq::filter);
                assert(d.subrange(0, i + 1).drop_last() =~= d.subrange(0, i as int));
            }
            if is_kept(&inputs, self.items[i].id) {
                let ghost before = items.deep_view();
                items.push(ChecklistItem {
                    id: self.items[i].id,
                    label_fr: self.items[i].label_fr.clone(),
                    label_en: self.items[i].label_en.clone(),
                    sort_order: self.items[i].sort_order,
                    created_at: self.items[i].created_at,
                });
                assert(items.deep_view() =~= before.push(d[i as int]));
            }
            i = i + 1;
        }
        assert(d.subrange(0, i as int) =~= d);
        let ghost base = items.deep_view();
        let ghost mut fresh: Seq<u128> = Seq::empty();
        let mut k: usize = 0;
        while k < inputs.len()
            invariant
                k <= inputs@.len(),
                fresh.len() == k,
                existing.deep_view() == display_order(d),
                base == d.filter(kept(inputs@)),
                items.deep_view() == written_items(base, inputs@.subrange(0, k as int), fresh, now, existing.deep_view()),
            decreases inputs.len() - k,
        {
            let it = &inputs[k];
            let ghost prev_fresh = fresh;
            let id = match it.id {
                Some(x) => {
                    proof {
                        fresh = fresh.push(0);
                    }
                    x
                },
                None => {
                    let u = new_uuid_u128();
                    proof {
                        fresh = fresh.push(u);
                    }
                    u
                },
            };
            proof {
                let sub = inputs@.subrange(0, k + 1);
                assert(sub.drop_last() =~= inputs@.subrange(0, k as int));
                lemma_written_fresh(base, inputs@.subrange(0, k as int), prev_fresh, fresh, now, existing.deep_view());
            }
            let order: i32 = if it.sort_order == 0 && k > 0 {
                k as i32
            } else {
                it.sort_order
            };
            let row = ChecklistItem {
                id,
                label_fr: it.label_fr.clone(),
                label_en: it.label_en.clone(),
                sort_order: order,
                created_at: created_of_exec(&existing, id, now),
            };
            let ghost before = items.deep_view();
            match item_position(&items, id) {
                Some(p) => {
                    items.set(p, row);
                    assert(items.deep_view() =~= before.update(p as int, row.deep_view()));
                },
                None => {
                    items.push(row);
                    assert(items.deep_view() =~= before.push(row.deep_view()));
                },
            }
            k = k + 1;
        }
        assert(inputs@.subrange(0, k as int) =~= inputs@);
        assert(items.deep_view() == replaced_items(d, inputs@, fresh, now));
        self.items = items;
        assert(self.items.deep_view() == replaced_items(old(self).items.deep_view(), inputs@, fresh, now));
    }
}

/// Written items depend on the fresh ids of the written inputs only.
proof fn lemma_written_fresh(
    base: Seq<ItemModel>,
    inputs: Seq<ReplaceInput>,
    f1: Seq<u128>,
    f2: Seq<u128>,
    now: i64,
    existing: Seq<ItemModel>,
)
    requires
        f1.len() >= inputs.len(),
        f2.len() >= inputs.len(),
        forall|k: int| 0 <= k < inputs.len() ==> f1[k] == f2[k],
    ensures
        written_items(base, inputs, f1, now, existing) == written_items(base, inputs, f2, now, existing),
    decreases inputs.len(),
{
    if inputs.len() > 0 {
        lemma_written_fresh(base, inputs.drop_last(), f1, f2, now, existing);
    }
}

} // verus!
