//! Item labels in several languages: a JSON map in `label_fr`, with the
//! legacy plain `label_fr` / `label_en` pair read as French and English.

use vstd::prelude::*;

use crate::json::{
    json_parse, json_text, members_model_of, model_of, parse_json, push_member, write_json,
    JsonModel, JsonValue,
};
use crate::keyed::{key_insert, key_lookup, keyed_insert, keyed_position, keys_sorted};
use crate::text::{blank, is_blank, lang_code_of, trim, trim_str};

verus! {

/// A checklist item.
#[derive(Debug, Clone)]
pub struct ChecklistItem {
    /// The item's UUID.
    pub id: u128,
    /// JSON map of labels by language, or a legacy French label.
    pub label_fr: String,
    /// Legacy English label.
    pub label_en: String,
    pub sort_order: i32,
    /// Creation instant (microseconds since the Unix epoch).
    pub created_at: i64,
}

/// Labels by language code, in code order, each code once.
pub type LabelsModel = Seq<(Seq<char>, Seq<char>)>;

/// Short language code of a locale (`fr-FR` to `fr`, blank to `fr`).
pub fn lang_code(locale: &str) -> (r: String)
    ensures
        r@ == lang_code_of(locale@),
{
    crate::text::lang_code(locale)
}

/// Non-blank string members of a JSON map, by language code, trimmed (a
/// later member of the same code wins).
pub open spec fn json_labels(m: Seq<(String, JsonValue)>) -> LabelsModel
    decreases m.len(),
{
    if m.len() == 0 {
        Seq::empty()
    } else {
        let prev = json_labels(m.drop_last());
        match m.last().1 {
            JsonValue::Str(s) => if is_blank(s@) {
                prev
            } else {
                key_insert(prev, lang_code_of(m.last().0@), trim(s@))
            },
            _ => prev,
        }
    }
}

/// The legacy pair as French and English labels (blank ones left out).
pub open spec fn legacy_labels(fr: Seq<char>, en: Seq<char>) -> LabelsModel {
    let a: LabelsModel = if is_blank(fr) {
        Seq::empty()
    } else {
        key_insert(Seq::empty(), "fr"@, trim(fr))
    };
    if is_blank(en) {
        a
    } else {
        key_insert(a, "en"@, trim(en))
    }
}

/// The labels of an item: the JSON map in `label_fr` when it has a label
/// (the legacy English label filling a missing `en`), else the legacy pair.
pub open spec fn item_labels(fr: Seq<char>, en: Seq<char>) -> LabelsModel {
    match json_parse(trim(fr)) {
        Some(JsonValue::Object(m)) => {
            let out = json_labels(m@);
            if out.len() > 0 {
                if !is_blank(en) && key_lookup(out, "en"@) is None {
                    key_insert(out, "en"@, trim(en))
                } else {
                    out
                }
            } else {
                legacy_labels(fr, en)
            }
        },
        _ => legacy_labels(fr, en),
    }
}

fn legacy_labels_exec(fr: &str, en: &str) -> (r: Vec<(String, String)>)
    ensures
        r.deep_view() == legacy_labels(fr@, en@),
        keys_sorted(r.deep_view()),
{
    let mut out: Vec<(String, String)> = Vec::new();
    if !blank(fr) {
        keyed_insert(&mut out, "fr".to_owned(), trim_str(fr).to_owned());
    }
    if !blank(en) {
        keyed_insert(&mut out, "en".to_owned(), trim_str(en).to_owned());
    }
    out
}

/// The labels of an item (see [`item_labels`]).
pub fn labels_from_item(item: &ChecklistItem) -> (r: Vec<(String, String)>)
    ensures
        r.deep_view() == item_labels(item.label_fr@, item.label_en@),
        keys_sorted(r.deep_view()),
{
    let trimmed = trim_str(item.label_fr.as_str());
    match parse_json(trimmed) {
        Some(JsonValue::Object(m)) => {
            let mut out: Vec<(String, String)> = Vec::new();
            let mut i: usize = 0;
            while i < m.len()
                invariant
                    i <= m@.len(),
                    keys_sorted(out.deep_view()),
                    out.deep_view() == json_labels(m@.subrange(0, i as int)),
                decreases m.len() - i,
            {
                assert(m@.subrange(0, i + 1).drop_last() =~= m@.subrange(0, i as int));
                match &m[i].1 {
                    JsonValue::Str(s) => if !blank(s.as_str()) {
                        keyed_insert(&mut out, lang_code(m[i].0.as_str()), trim_str(s.as_str()).to_owned());
                    },
                    _ => {},
                }
                i = i + 1;
            }
            assert(m@.subrange(0, i as int) =~= m@);
            if out.len() > 0 {
                if !blank(item.label_en.as_str()) && keyed_position(&out, "en").is_none() {
                    keyed_insert(&mut out, "en".to_owned(), trim_str(item.label_en.as_str()).to_owned());
                }
                return out;
            }
            legacy_labels_exec(item.label_fr.as_str(), item.label_en.as_str())
        },
        _ => legacy_labels_exec(item.label_fr.as_str(), item.label_en.as_str()),
    }
}

/// The non-blank labels, by language code of their key, trimmed (a later
/// key of the same code wins).
pub open spec fn cleaned_labels(l: LabelsModel) -> LabelsModel
    decreases l.len(),
{
    if l.len() == 0 {
        Seq::empty()
    } else {
        let prev = cleaned_labels(l.drop_last());
        if is_blank(l.last().1) {
            prev
        } else {
            key_insert(prev, lang_code_of(l.last().0), trim(l.last().1))
        }
    }
}

/// The JSON map of labels.
pub open spec fn labels_json(l: LabelsModel) -> JsonModel {
    JsonModel::Object(l.map_values(|e: (Seq<char>, Seq<char>)| (e.0, JsonModel::Str(e.1))))
}

/// The stored form of labels: the JSON map of the cleaned labels in
/// `label_fr`, and an empty `label_en`.
pub fn encode_labels(labels: &Vec<(String, String)>) -> (r: (String, String))
    ensures
        r.0@ == json_text(labels_json(cleaned_labels(labels.deep_view()))),
        r.1@ == Seq::<char>::empty(),
{
    let ghost l = labels.deep_view();
    let mut cleaned: Vec<(String, String)> = Vec::new();
    let mut i: usize = 0;
    while i < labels.len()
        invariant
            i <= labels@.len(),
            l == labels.deep_view(),
            keys_sorted(cleaned.deep_view()),
            cleaned.deep_view() == cleaned_labels(l.subrange(0, i as int)),
        decreases labels.len() - i,
    {
        assert(l.subrange(0, i + 1).drop_last() =~= l.subrange(0, i as int));
        if !blank(labels[i].1.as_str()) {
            keyed_insert(&mut cleaned, lang_code(labels[i].0.as_str()), trim_str(labels[i].1.as_str()).to_owned());
        }
        i = i + 1;
    }
    assert(l.subrange(0, i as int) =~= l);
    let ghost c = cleaned.deep_view();
    let mut m: Vec<(String, JsonValue)> = Vec::new();
    let mut k: usize = 0;
    proof {
        assert(members_model_of(m@) =~= Seq::<(Seq<char>, JsonModel)>::empty());
    }
    while k < cleaned.len()
        invariant
            k <= cleaned@.len(),
            c == cleaned.deep_view(),
            members_model_of(m@) == c.subrange(0, k as int).map_values(
                |e: (Seq<char>, Seq<char>)| (e.0, JsonModel::Str(e.1)),
            ),
        decreases cleaned.len() - k,
    {
        push_member(&mut m, cleaned[k].0.as_str(), JsonValue::Str(cleaned[k].1.clone()));
        k = k + 1;
        assert(members_model_of(m@) =~= c.subrange(0, k as int).map_values(
            |e: (Seq<char>, Seq<char>)| (e.0, JsonModel::Str(e.1)),
        ));
    }
    assert(c.subrange(0, k as int) =~= c);
    let v = JsonValue::Object(m);
    assert(model_of(v) == labels_json(c));
    (write_json(&v), String::new())
}

/// First non-blank label in code order.
pub open spec fn first_label(l: LabelsModel) -> Option<Seq<char>>
    decreases l.len(),
{
    if l.len() == 0 {
        None
    } else if !is_blank(l[0].1) {
        Some(l[0].1)
    } else {
        first_label(l.drop_first())
    }
}

/// A present, non-blank label of a code.
pub open spec fn usable(l: LabelsModel, code: Seq<char>) -> Option<Seq<char>> {
    match key_lookup(l, code) {
        Some(v) => if is_blank(v) {
            None
        } else {
            Some(v)
        },
        None => None,
    }
}

/// The label shown: the guest's language, the property's, French, then the
/// first label in code order; empty when all are blank.
pub open spec fn picked_label(l: LabelsModel, guest: Seq<char>, property: Seq<char>) -> Seq<char> {
    match usable(l, lang_code_of(guest)) {
        Some(v) => v,
        None => match usable(l, lang_code_of(property)) {
            Some(v) => v,
            None => match usable(l, "fr"@) {
                Some(v) => v,
                None => match first_label(l) {
                    Some(v) => v,
                    None => Seq::empty(),
                },
            },
        },
    }
}

fn usable_exec(labels: &Vec<(String, String)>, code: &str) -> (r: Option<String>)
    ensures
        r.deep_view() == usable(labels.deep_view(), code@),
{
    match keyed_position(labels, code) {
        Some(i) => if blank(labels[i].1.as_str()) {
            None
        } else {
            Some(labels[i].1.clone())
        },
        None => None,
    }
}

/// The label shown (see [`picked_label`]).
pub fn pick_label(labels: &Vec<(String, String)>, guest_locale: &str, property_locale: &str) -> (r: String)
    requires
        keys_sorted(labels.deep_view()),
    ensures
        r@ == picked_label(labels.deep_view(), guest_locale@, property_locale@),
{
    match usable_exec(labels, lang_code(guest_locale).as_str()) {
        Some(v) => return v,
        None => {},
    }
    match usable_exec(labels, lang_code(property_locale).as_str()) {
        Some(v) => return v,
        None => {},
    }
    match usable_exec(labels, "fr") {
        Some(v) => return v,
        None => {},
    }
    let ghost l = labels.deep_view();
    let mut i: usize = 0;
    assert(l.subrange(0, l.len() as int) =~= l);
    while i < labels.len()
        invariant
            i <= labels@.len(),
            l == labels.deep_view(),
            usable(l, lang_code_of(guest_locale@)) is None,
            usable(l, lang_code_of(property_locale@)) is None,
            usable(l, "fr"@) is None,
            first_label(l) == first_label(l.subrange(i as int, l.len() as int)),
        decreases labels.len() - i,
    {
        let ghost rest = l.subrange(i as int, l.len() as int);
        assert(rest.drop_first() =~= l.subrange(i + 1, l.len() as int));
        assert(rest[0] == l[i as int]);
        if !blank(labels[i].1.as_str()) {
            return labels[i].1.clone();
        }
        i = i + 1;
    }
    String::new()
}

/// The label of a locale's language (empty when there is none).
pub fn get_label(item: &ChecklistItem, locale: &str) -> (r: String)
    ensures
        r@ == (match key_lookup(item_labels(item.label_fr@, item.label_en@), lang_code_of(locale@)) {
            Some(v) => v,
            None => Seq::empty(),
        }),
{
    let labels = labels_from_item(item);
    match keyed_position(&labels, lang_code(locale).as_str()) {
        Some(i) => labels[i].1.clone(),
        None => String::new(),
    }
}

} // verus!
