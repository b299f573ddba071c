//! The first stored shape of the appliances payload (`title`, `steps`,
//! `tip`, snake_case `safety_notice`), recognised and migrated, and the
//! reading of a stored payload text.

use vstd::prelude::*;

use crate::appliances::codec::{decode_payload, decode_payload_exec};
use crate::appliances::content::{
    empty_payload, Appliance, ApplianceModel, ApplianceStatus, AppliancesPayload, PayloadModel,
};
use crate::appliances::tiptap::text_or;
use crate::json::{
    array_member, get_array, get_of, get_str, json_array, json_object1, json_object2, json_parse,
    json_str, json_text, lemma_models_push, model_of, models_of, parse_json, str_of, write_json,
    JsonModel, JsonValue,
};
use crate::text::{blank, chars_of, decimal_of, is_blank, push_decimal, trim, trim_str};

verus! {

/// String member `key` of a value (empty when missing or not a string).
pub open spec fn field_text(v: JsonValue, key: Seq<char>) -> Seq<char> {
    text_or(str_of(get_of(v, key)), Seq::empty())
}

/// A TipTap text node.
pub open spec fn text_node(t: Seq<char>) -> JsonModel {
    JsonModel::Object(seq![("type"@, JsonModel::Str("text"@)), ("text"@, JsonModel::Str(t))])
}

/// A TipTap paragraph holding one text.
pub open spec fn paragraph_of(t: Seq<char>) -> JsonModel {
    JsonModel::Object(
        seq![("type"@, JsonModel::Str("paragraph"@)), ("content"@, JsonModel::Array(seq![text_node(t)]))],
    )
}

/// An empty TipTap paragraph.
pub open spec fn empty_paragraph() -> JsonModel {
    JsonModel::Object(seq![("type"@, JsonModel::Str("paragraph"@))])
}

/// A TipTap list item holding one paragraph.
pub open spec fn list_item_of(t: Seq<char>) -> JsonModel {
    JsonModel::Object(
        seq![("type"@, JsonModel::Str("listItem"@)), ("content"@, JsonModel::Array(seq![paragraph_of(t)]))],
    )
}

/// A TipTap bullet list.
pub open spec fn bullet_list_of(items: Seq<JsonModel>) -> JsonModel {
    JsonModel::Object(seq![("type"@, JsonModel::Str("bulletList"@)), ("content"@, JsonModel::Array(items))])
}

/// A TipTap document.
pub open spec fn doc_model(content: Seq<JsonModel>) -> JsonModel {
    JsonModel::Object(seq![("type"@, JsonModel::Str("doc"@)), ("content"@, JsonModel::Array(content))])
}

/// A plain text as a one-paragraph TipTap document (trimmed); blank gives
/// nothing.
pub open spec fn plain_text_tiptap(text: Seq<char>) -> Seq<char> {
    if is_blank(text) {
        Seq::empty()
    } else {
        json_text(doc_model(seq![paragraph_of(trim(text))]))
    }
}

/// List items of the non-blank steps, trimmed, in order.
pub open spec fn step_items(steps: Seq<Seq<char>>) -> Seq<JsonModel>
    decreases steps.len(),
{
    if steps.len() == 0 {
        Seq::empty()
    } else {
        step_items(steps.drop_last()) + if is_blank(steps.last()) {
            Seq::empty()
        } else {
            seq![list_item_of(trim(steps.last()))]
        }
    }
}

/// Blocks of a legacy description: the steps as a bullet list, then the tip
/// as a paragraph; an empty paragraph when there is neither.
pub open spec fn steps_tip_blocks(steps: Seq<Seq<char>>, tip: Seq<char>) -> Seq<JsonModel> {
    let items = step_items(steps);
    let blocks = (if items.len() > 0 {
        seq![bullet_list_of(items)]
    } else {
        Seq::empty()
    }) + (if is_blank(tip) {
        Seq::empty()
    } else {
        seq![paragraph_of(trim(tip))]
    });
    if blocks.len() == 0 {
        seq![empty_paragraph()]
    } else {
        blocks
    }
}

/// Legacy steps and tip as TipTap document text.
pub open spec fn steps_tip_tiptap(steps: Seq<Seq<char>>, tip: Seq<char>) -> Seq<char> {
    json_text(doc_model(steps_tip_blocks(steps, tip)))
}

/// ASCII letter or digit.
pub open spec fn is_ascii_alnum(c: char) -> bool {
    ('a' <= c && c <= 'z') || ('A' <= c && c <= 'Z') || ('0' <= c && c <= '9')
}

/// A character of an icon-library name (`washing-machine`, `tv_2`).
pub open spec fn is_icon_name_char(c: char) -> bool {
    is_ascii_alnum(c) || c == '-' || c == '_'
}

/// Emoji of a legacy icon: icon-library names become empty, any other glyph
/// is kept (trimmed).
pub open spec fn emoji_of_icon(icon: Seq<char>) -> Seq<char> {
    let t = trim(icon);
    if t.len() == 0 || forall|i: int| 0 <= i < t.len() ==> is_icon_name_char(#[trigger] t[i]) {
        Seq::empty()
    } else {
        t
    }
}

/// String elements of a list, in order (others skipped).
pub open spec fn strings_in(a: Seq<JsonValue>) -> Seq<Seq<char>>
    decreases a.len(),
{
    if a.len() == 0 {
        Seq::empty()
    } else {
        strings_in(a.drop_last()) + match a.last() {
            JsonValue::Str(s) => seq![s@],
            _ => Seq::empty(),
        }
    }
}

/// The `steps` of a legacy device.
pub open spec fn legacy_steps(device: JsonValue) -> Seq<Seq<char>> {
    match array_member(device, "steps"@) {
        Some(a) => strings_in(a),
        None => Seq::empty(),
    }
}

/// Id of a legacy device: its own, or `device-N` (N counted from 1).
pub open spec fn legacy_id(device: JsonValue, index: int) -> Seq<char> {
    let raw = field_text(device, "id"@);
    if raw.len() == 0 {
        "device-"@ + decimal_of((index + 1) as nat)
    } else {
        raw
    }
}

/// A legacy device is dropped when both its title and its id are blank.
pub open spec fn keeps_legacy_device(device: JsonValue, index: int) -> bool {
    !(is_blank(field_text(device, "title"@)) && is_blank(legacy_id(device, index)))
}

/// The appliance a legacy device at `index` becomes.
pub open spec fn migrate_device(device: JsonValue, index: int) -> ApplianceModel {
    ApplianceModel {
        id: legacy_id(device, index),
        name: field_text(device, "title"@),
        emoji: emoji_of_icon(field_text(device, "icon"@)),
        description: steps_tip_tiptap(legacy_steps(device), field_text(device, "tip"@)),
        featured: false,
        order: index as i32,
        location: field_text(device, "subtitle"@),
        manual_url: field_text(device, "manualUrl"@),
        safety_note: Seq::empty(),
        status: ApplianceStatus::Active,
    }
}

/// The kept legacy devices, migrated, in order.
pub open spec fn migrated_devices(d: Seq<JsonValue>) -> Seq<ApplianceModel>
    decreases d.len(),
{
    if d.len() == 0 {
        Seq::empty()
    } else {
        let i = d.len() - 1;
        migrated_devices(d.drop_last()) + if keeps_legacy_device(d.last(), i) {
            seq![migrate_device(d.last(), i)]
        } else {
            Seq::empty()
        }
    }
}

/// A legacy payload in the current shape.
pub open spec fn migrated_payload(v: JsonValue) -> PayloadModel {
    PayloadModel {
        devices: migrated_devices(
            match array_member(v, "devices"@) {
                Some(a) => a,
                None => Seq::empty(),
            },
        ),
        safety_notice: plain_text_tiptap(field_text(v, "safety_notice"@)),
    }
}

/// A device in the legacy shape: a `title` without a `name`, or `steps`.
pub open spec fn legacy_device(d: JsonValue) -> bool {
    (get_of(d, "title"@) is Some && get_of(d, "name"@) is None) || get_of(d, "steps"@) is Some
}

/// Only the legacy snake_case notice: `safety_notice` without `safetyNotice`.
pub open spec fn legacy_notice_only(v: JsonValue) -> bool {
    get_of(v, "safety_notice"@) is Some && get_of(v, "safetyNotice"@) is None
}

/// A stored value in the legacy shape: a device list with a legacy device,
/// or no devices and only the legacy notice.
pub open spec fn looks_legacy_of(v: JsonValue) -> bool {
    match array_member(v, "devices"@) {
        Some(d) => if d.len() == 0 {
            legacy_notice_only(v)
        } else {
            exists|i: int| 0 <= i < d.len() && legacy_device(#[trigger] d[i])
        },
        None => legacy_notice_only(v),
    }
}

/// The payload a stored text holds: nothing when blank or not JSON, the
/// legacy shape migrated, the current shape as serde reads it (nothing when
/// serde refuses it).
pub open spec fn parsed_payload(raw: Seq<char>) -> PayloadModel {
    let t = trim(raw);
    if t.len() == 0 {
        empty_payload()
    } else {
        match json_parse(t) {
            None => empty_payload(),
            Some(v) => if looks_legacy_of(v) {
                migrated_payload(v)
            } else {
                match decode_payload(v) {
                    Some(p) => p,
                    None => empty_payload(),
                }
            },
        }
    }
}

/// String member `key` of a value, or empty.
pub fn string_field(value: &JsonValue, key: &str) -> (r: String)
    ensures
        r@ == field_text(*value, key@),
{
    match get_str(value, key) {
        Some(s) => s.to_owned(),
        None => String::new(),
    }
}

fn text_node_exec(t: &str) -> (r: JsonValue)
    ensures
        model_of(r) == text_node(t@),
{
    json_object2("type", json_str("text"), "text", json_str(t))
}

fn one_item(v: JsonValue) -> (r: Vec<JsonValue>)
    ensures
        models_of(r@) == seq![model_of(v)],
{
    let mut out: Vec<JsonValue> = Vec::new();
    let ghost mv = model_of(v);
    proof {
        lemma_models_push(out@, v);
        assert(models_of(Seq::<JsonValue>::empty()) =~= Seq::<JsonModel>::empty());
    }
    let ghost before = out@;
    out.push(v);
    assert(out@ =~= before.push(v));
    assert(models_of(out@) =~= seq![mv]);
    out
}

fn paragraph_exec(t: &str) -> (r: JsonValue)
    ensures
        model_of(r) == paragraph_of(t@),
{
    let content = json_array(one_item(text_node_exec(t)));
    json_object2("type", json_str("paragraph"), "content", content)
}

fn doc_exec(content: Vec<JsonValue>) -> (r: JsonValue)
    ensures
        model_of(r) == doc_model(models_of(content@)),
{
    json_object2("type", json_str("doc"), "content", json_array(content))
}

/// A plain text as a one-paragraph TipTap document (blank gives nothing).
pub fn plain_text_to_tiptap(text: &str) -> (r: String)
    ensures
        r@ == plain_text_tiptap(text@),
{
    let t = trim_str(text);
    if t.unicode_len() == 0 {
        return String::new();
    }
    let doc = doc_exec(one_item(paragraph_exec(t)));
    write_json(&doc)
}

/// Legacy steps and tip as a TipTap document: a bullet list of the non-blank
/// steps, then the tip paragraph.
pub fn steps_and_tip_to_tiptap(steps: &Vec<String>, tip: &str) -> (r: String)
    ensures
        r@ == steps_tip_tiptap(steps.deep_view(), tip@),
{
    let mut items: Vec<JsonValue> = Vec::new();
    let mut i: usize = 0;
    while i < steps.len()
        invariant
            i <= steps@.len(),
            models_of(items@) == step_items(steps.deep_view().subrange(0, i as int)),
        decreases steps.len() - i,
    {
        assert(steps.deep_view().subrange(0, i + 1).drop_last() =~= steps.deep_view().subrange(0, i as int));
        let s = trim_str(steps[i].as_str());
        if s.unicode_len() > 0 {
            let item = json_object2("type", json_str("listItem"), "content", json_array(one_item(paragraph_exec(s))));
            proof {
                lemma_models_push(items@, item);
            }
            items.push(item);
        }
        i = i + 1;
    }
    assert(steps.deep_view().subrange(0, i as int) =~= steps.deep_view());
    let ghost item_models = models_of(items@);
    let has_items = items.len() > 0;
    let mut content: Vec<JsonValue> = Vec::new();
    if has_items {
        content = one_item(json_object2("type", json_str("bulletList"), "content", json_array(items)));
    }
    proof {
        assert(models_of(Seq::<JsonValue>::empty()) =~= Seq::<JsonModel>::empty());
    }
    let t = trim_str(tip);
    if t.unicode_len() > 0 {
        let p = paragraph_exec(t);
        proof {
            lemma_models_push(content@, p);
        }
        content.push(p);
    }
    if content.len() == 0 {
        content = one_item(json_object1("type", json_str("paragraph")));
    }
    assert(models_of(content@) =~= steps_tip_blocks(steps.deep_view(), tip@));
    write_json(&doc_exec(content))
}

/// Emoji of a legacy icon: icon-library names (ASCII letters, digits, `-`,
/// `_`) are dropped, other glyphs kept.
pub fn emoji_from_legacy_icon(icon: &str) -> (r: String)
    ensures
        r@ == emoji_of_icon(icon@),
{
    let t = trim_str(icon);
    let c = chars_of(t);
    if c.len() == 0 {
        return String::new();
    }
    let mut i: usize = 0;
    while i < c.len()
        invariant
            c@ == t@,
            t@ == trim(icon@),
            i <= c@.len(),
            forall|k: int| 0 <= k < i ==> is_icon_name_char(#[trigger] c@[k]),
        decreases c.len() - i,
    {
        let ch = c[i];
        let name_char = (ch >= 'a' && ch <= 'z') || (ch >= 'A' && ch <= 'Z') || (ch >= '0' && ch <= '9')
            || ch == '-' || ch == '_';
        if !name_char {
            assert(!is_icon_name_char(t@[i as int]));
            return t.to_owned();
        }
        i = i + 1;
    }
    String::new()
}

/// String elements of a list.
fn strings_of(a: &Vec<JsonValue>) -> (r: Vec<String>)
    ensures
        r.deep_view() == strings_in(a@),
{
    let mut out: Vec<String> = Vec::new();
    let mut i: usize = 0;
    while i < a.len()
        invariant
            i <= a@.len(),
            out.deep_view() == strings_in(a@.subrange(0, i as int)),
        decreases a.len() - i,
    {
        assert(a@.subrange(0, i + 1).drop_last() =~= a@.subrange(0, i as int));
        let ghost before = out.deep_view();
        match &a[i] {
            JsonValue::Str(s) => {
                out.push(s.clone());
                assert(out.deep_view() =~= before.push(s@));
            },
            _ => {},
        }
        i = i + 1;
        assert(out.deep_view() =~= strings_in(a@.subrange(0, i as int)));
    }
    assert(a@.subrange(0, i as int) =~= a@);
    out
}

fn legacy_id_exec(device: &JsonValue, index: usize) -> (r: String)
    requires
        index < usize::MAX,
    ensures
        r@ == legacy_id(*device, index as int),
{
    let raw = string_field(device, "id");
    if raw.unicode_len() == 0 {
        let mut id = String::new();
        id.append("device-");
        push_decimal(&mut id, index + 1);
        id
    } else {
        raw
    }
}

/// A legacy payload in the current shape: kept devices get their position
/// as order, steps and tip become the description, the notice becomes a
/// TipTap paragraph.
pub fn migrate_legacy(value: &JsonValue) -> (r: AppliancesPayload)
    ensures
        r.deep_view() == migrated_payload(*value),
{
    let empty: Vec<JsonValue> = Vec::new();
    let devices: &Vec<JsonValue> = match get_array(value, "devices") {
        Some(d) => d,
        None => &empty,
    };
    let mut migrated: Vec<Appliance> = Vec::new();
    let mut index: usize = 0;
    while index < devices.len()
        invariant
            index <= devices@.len(),
            migrated.deep_view() == migrated_devices(devices@.subrange(0, index as int)),
        decreases devices.len() - index,
    {
        assert(devices@.subrange(0, index + 1).drop_last() =~= devices@.subrange(0, index as int));
        let device = &devices[index];
        let title = string_field(device, "title");
        let id = legacy_id_exec(device, index);
        if !(blank(title.as_str()) && blank(id.as_str())) {
            let steps = match get_array(device, "steps") {
                Some(a) => strings_of(a),
                None => Vec::new(),
            };
            assert(steps.deep_view() =~= legacy_steps(*device));
            let tip = string_field(device, "tip");
            let icon = string_field(device, "icon");
            let a = Appliance {
                id,
                name: title,
                emoji: emoji_from_legacy_icon(icon.as_str()),
                description: steps_and_tip_to_tiptap(&steps, tip.as_str()),
                featured: false,
                order: index as i32,
                location: string_field(device, "subtitle"),
                manual_url: string_field(device, "manualUrl"),
                safety_note: String::new(),
                status: ApplianceStatus::Active,
            };
            let ghost before = migrated.deep_view();
            assert(a.deep_view() == migrate_device(*device, index as int));
            migrated.push(a);
            assert(migrated.deep_view() =~= before.push(migrate_device(*device, index as int)));
        }
        index = index + 1;
        assert(migrated.deep_view() =~= migrated_devices(devices@.subrange(0, index as int)));
    }
    assert(devices@.subrange(0, index as int) =~= devices@);
    let legacy_safety = string_field(value, "safety_notice");
    AppliancesPayload { devices: migrated, safety_notice: plain_text_to_tiptap(legacy_safety.as_str()) }
}

fn legacy_notice_only_exec(value: &JsonValue) -> (r: bool)
    ensures
        r == legacy_notice_only(*value),
{
    value.get("safety_notice").is_some() && value.get("safetyNotice").is_none()
}

/// True for a stored value in the legacy shape.
pub fn looks_legacy(value: &JsonValue) -> (r: bool)
    ensures
        r == looks_legacy_of(*value),
{
    let devices = match get_array(value, "devices") {
        Some(d) => d,
        None => return legacy_notice_only_exec(value),
    };
    if devices.len() == 0 {
        return legacy_notice_only_exec(value);
    }
    let mut i: usize = 0;
    while i < devices.len()
        invariant
            i <= devices@.len(),
            devices@.len() > 0,
            array_member(*value, "devices"@) == Some(devices@),
            forall|k: int| 0 <= k < i ==> !legacy_device(#[trigger] devices@[k]),
        decreases devices.len() - i,
    {
        let d = &devices[i];
        let has_title = d.get("title").is_some();
        let has_name = d.get("name").is_some();
        let has_steps = d.get("steps").is_some();
        if (has_title && !has_name) || has_steps {
            assert(legacy_device(devices@[i as int]));
            return true;
        }
        i = i + 1;
    }
    false
}

impl AppliancesPayload {
    /// Reads a stored payload text: blank or invalid JSON gives the empty
    /// payload, the legacy shape is migrated, the current shape is read as
    /// serde reads it (the empty payload when serde refuses it).
    pub fn parse(raw: &str) -> (r: AppliancesPayload)
        ensures
            r.deep_view() == parsed_payload(raw@),
    {
        let trimmed = trim_str(raw);
        if trimmed.unicode_len() == 0 {
            return AppliancesPayload::default();
        }
        let value = match parse_json(trimmed) {
            Some(v) => v,
            None => return AppliancesPayload::default(),
        };
        if looks_legacy(&value) {
            return migrate_legacy(&value);
        }
        match decode_payload_exec(&value) {
            Some(p) => p,
            None => AppliancesPayload::default(),
        }
    }
}

} // verus!
