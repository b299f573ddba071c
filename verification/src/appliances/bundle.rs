//! Payloads of several languages, kept in language-code order.

use vstd::prelude::*;

use crate::appliances::codec::{
    decode_payload, decode_payload_exec, field_member, fields_distinct, member_fields, opt_ref,
    payload_json, payload_to_json,
};
use crate::appliances::content::{
    all_marks, device_index, device_position, empty_payload, full_order, has_content,
    lemma_device_index, lemma_full_order, orders_of, sorted_by_order, Appliance, ApplianceModel, AppliancesPayload,
    PayloadModel,
};
use crate::appliances::legacy::parsed_payload;
use crate::json::{
    json_parse, json_text, lemma_members_push, member, members_model_of, model_of, parse_json,
    push_member, write_json, JsonModel, JsonValue,
};
use crate::keyed::{
    key_insert, key_lookup, keyed_insert, keyed_position, keys_sorted, lemma_insert_lookup_other,
    lemma_insert_lookup_same, lemma_insert_wf,
};
use crate::text::{blank, is_blank, lang_code_of, str_eq, str_lt, trim, trim_str};

verus! {

/// Payloads by language code.
pub type BundleModel = Seq<(Seq<char>, PayloadModel)>;

/// Per-language payloads, ordered by language code, each code once.
#[derive(Debug)]
pub struct AppliancesBundle {
    pub by_lang: Vec<(String, AppliancesPayload)>,
}

impl DeepView for AppliancesBundle {
    type V = BundleModel;

    open spec fn deep_view(&self) -> BundleModel {
        self.by_lang.deep_view()
    }
}

/// Payload of a locale's language (empty when none is stored).
pub open spec fn bundle_get(b: BundleModel, locale: Seq<char>) -> PayloadModel {
    match key_lookup(b, lang_code_of(locale)) {
        Some(p) => p,
        None => empty_payload(),
    }
}

impl AppliancesBundle {
    /// The empty bundle.
    pub fn new() -> (r: AppliancesBundle)
        ensures
            r.deep_view() == Seq::<(Seq<char>, PayloadModel)>::empty(),
    {
        AppliancesBundle { by_lang: Vec::new() }
    }

    /// Short language code of a locale (`fr-FR` to `fr`, blank to `fr`).
    pub fn lang_code(locale: &str) -> (r: String)
        ensures
            r@ == lang_code_of(locale@),
    {
        crate::text::lang_code(locale)
    }

    /// The payload of a locale's language (empty when none is stored).
    pub fn get(&self, lang: &str) -> (r: AppliancesPayload)
        ensures
            r.deep_view() == bundle_get(self.deep_view(), lang@),
    {
        let code = Self::lang_code(lang);
        match keyed_position(&self.by_lang, code.as_str()) {
            Some(i) => self.by_lang[i].1.duplicate(),
            None => AppliancesPayload::default(),
        }
    }

    /// Stores the payload under a language code, replacing the one stored
    /// there.
    pub fn insert_code(&mut self, code: String, payload: AppliancesPayload)
        requires
            keys_sorted(old(self).deep_view()),
        ensures
            final(self).deep_view() == key_insert(old(self).deep_view(), code@, payload.deep_view()),
            keys_sorted(final(self).deep_view()),
    {
        keyed_insert(&mut self.by_lang, code, payload);
    }

    /// Stores the payload under the locale's language code, replacing the
    /// one stored there.
    pub fn set(&mut self, lang: &str, payload: AppliancesPayload)
        requires
            keys_sorted(old(self).deep_view()),
        ensures
            final(self).deep_view() == key_insert(
                old(self).deep_view(),
                lang_code_of(lang@),
                payload.deep_view(),
            ),
            keys_sorted(final(self).deep_view()),
    {
        let code = Self::lang_code(lang);
        self.insert_code(code, payload);
    }
}

/// A device with the shared fields (emoji, featured, order, manual, status)
/// of the first source device with its id; unchanged when there is none.
pub open spec fn synced_device(d: ApplianceModel, src: Seq<ApplianceModel>) -> ApplianceModel {
    match device_index(src, d.id) {
        Some(i) => ApplianceModel {
            id: d.id,
            name: d.name,
            emoji: src[i].emoji,
            description: d.description,
            featured: src[i].featured,
            order: src[i].order,
            location: d.location,
            manual_url: src[i].manual_url,
            safety_note: d.safety_note,
            status: src[i].status,
        },
        None => d,
    }
}

/// A source device with its per-language texts cleared.
pub open spec fn blank_copy(s: ApplianceModel) -> ApplianceModel {
    ApplianceModel {
        id: s.id,
        name: Seq::empty(),
        emoji: s.emoji,
        description: Seq::empty(),
        featured: s.featured,
        order: s.order,
        location: Seq::empty(),
        manual_url: s.manual_url,
        safety_note: Seq::empty(),
        status: s.status,
    }
}

/// Some device has the id.
pub open spec fn has_id(d: Seq<ApplianceModel>, id: Seq<char>) -> bool {
    device_index(d, id) is Some
}

/// Source devices whose id is missing are appended, blank, in source order.
pub open spec fn add_missing(acc: Seq<ApplianceModel>, srcs: Seq<ApplianceModel>) -> Seq<ApplianceModel>
    decreases srcs.len(),
{
    if srcs.len() == 0 {
        acc
    } else {
        let a = add_missing(acc, srcs.drop_last());
        if has_id(a, srcs.last().id) {
            a
        } else {
            a.push(blank_copy(srcs.last()))
        }
    }
}

/// Devices whose id the source has.
pub open spec fn in_source(src: Seq<ApplianceModel>) -> spec_fn(ApplianceModel) -> bool {
    |d: ApplianceModel| has_id(src, d.id)
}

/// A payload aligned on the source: shared fields copied, missing devices
/// added blank, devices unknown to the source dropped, ordered by `order`.
pub open spec fn synced_payload(p: PayloadModel, src: Seq<ApplianceModel>) -> PayloadModel {
    let updated = p.devices.map_values(|d: ApplianceModel| synced_device(d, src));
    let kept = add_missing(updated, src).filter(in_source(src));
    PayloadModel { devices: sorted_by_order(kept), safety_notice: p.safety_notice }
}

/// Every language's payload aligned on the source.
pub open spec fn synced_bundle(b: BundleModel, src: Seq<ApplianceModel>) -> BundleModel {
    b.map_values(|e: (Seq<char>, PayloadModel)| (e.0, synced_payload(e.1, src)))
}

fn synced_device_exec(d: &Appliance, src: &Vec<Appliance>) -> (r: Appliance)
    ensures
        r.deep_view() == synced_device(d.deep_view(), src.deep_view()),
{
    match device_position(src, d.id.as_str()) {
        Some(i) => {
            let s = &src[i];
            Appliance {
                id: d.id.clone(),
                name: d.name.clone(),
                emoji: s.emoji.clone(),
                description: d.description.clone(),
                featured: s.featured,
                order: s.order,
                location: d.location.clone(),
                manual_url: s.manual_url.clone(),
                safety_note: d.safety_note.clone(),
                status: s.status,
            }
        },
        None => d.duplicate(),
    }
}

/// A payload aligned on the source devices.
pub fn sync_payload(p: &AppliancesPayload, src: &Vec<Appliance>) -> (r: AppliancesPayload)
    ensures
        r.deep_view() == synced_payload(p.deep_view(), src.deep_view()),
{
    let ghost sv = src.deep_view();
    let ghost updated = p.devices.deep_view().map_values(|d: ApplianceModel| synced_device(d, sv));
    let mut acc: Vec<Appliance> = Vec::new();
    let mut i: usize = 0;
    while i < p.devices.len()
        invariant
            i <= p.devices@.len(),
            sv == src.deep_view(),
            updated == p.devices.deep_view().map_values(|d: ApplianceModel| synced_device(d, sv)),
            acc.deep_view() == updated.subrange(0, i as int),
        decreases p.devices.len() - i,
    {
        let ghost before = acc.deep_view();
        acc.push(synced_device_exec(&p.devices[i], src));
        assert(acc.deep_view() =~= before.push(updated[i as int]));
        i = i + 1;
        assert(acc.deep_view() =~= updated.subrange(0, i as int));
    }
    assert(acc.deep_view() =~= updated);
    let mut j: usize = 0;
    while j < src.len()
        invariant
            j <= src@.len(),
            sv == src.deep_view(),
            acc.deep_view() == add_missing(updated, sv.subrange(0, j as int)),
        decreases src.len() - j,
    {
        assert(sv.subrange(0, j + 1).drop_last() =~= sv.subrange(0, j as int));
        let s = &src[j];
        if device_position(&acc, s.id.as_str()).is_none() {
            let ghost before = acc.deep_view();
            acc.push(Appliance {
                id: s.id.clone(),
                name: String::new(),
                emoji: s.emoji.clone(),
                description: String::new(),
                featured: s.featured,
                order: s.order,
                location: String::new(),
                manual_url: s.manual_url.clone(),
                safety_note: String::new(),
                status: s.status,
            });
            assert(acc.deep_view() =~= before.push(blank_copy(sv[j as int])));
        }
        j = j + 1;
    }
    assert(sv.subrange(0, j as int) =~= sv);
    let ghost all = acc.deep_view();
    let mut kept: Vec<Appliance> = Vec::new();
    let mut k: usize = 0;
    while k < acc.len()
        invariant
            k <= acc@.len(),
            sv == src.deep_view(),
            all == acc.deep_view(),
            kept.deep_view() == all.subrange(0, k as int).filter(in_source(sv)),
        decreases acc.len() - k,
    {
        proof {
            reveal(Seq::filter);
            assert(all.subrange(0, k + 1).drop_last() =~= all.subrange(0, k as int));
        }
        if device_position(src, acc[k].id.as_str()).is_some() {
            let ghost before = kept.deep_view();
            kept.push(acc[k].duplicate());
            assert(kept.deep_view() =~= before.push(all[k as int]));
        }
        k = k + 1;
    }
    assert(all.subrange(0, k as int) =~= all);
    let mut out = AppliancesPayload { devices: kept, safety_notice: p.safety_notice.clone() };
    out.sort_by_order();
    out
}

impl AppliancesBundle {
    /// Aligns every language's payload on `source`: shared device fields
    /// (emoji, featured, order, manual link, status) copied by id, devices
    /// missing from a language added with blank texts, devices unknown to
    /// the source dropped, each list ordered by `order`.
    pub fn sync_shared_from(&mut self, source: &AppliancesPayload)
        requires
            keys_sorted(old(self).deep_view()),
        ensures
            final(self).deep_view() == synced_bundle(old(self).deep_view(), source.devices.deep_view()),
            keys_sorted(final(self).deep_view()),
    {
        let ghost b = self.deep_view();
        let mut next: Vec<(String, AppliancesPayload)> = Vec::new();
        let mut i: usize = 0;
        while i < self.by_lang.len()
            invariant
                i <= self.by_lang@.len(),
                b == self.deep_view(),
                next.deep_view() == synced_bundle(b, source.devices.deep_view()).subrange(0, i as int),
            decreases self.by_lang.len() - i,
        {
            let ghost before = next.deep_view();
            let entry = (self.by_lang[i].0.clone(), sync_payload(&self.by_lang[i].1, &source.devices));
            next.push(entry);
            assert(next.deep_view() =~= before.push(synced_bundle(b, source.devices.deep_view())[i as int]));
            i = i + 1;
            assert(next.deep_view() =~= synced_bundle(b, source.devices.deep_view()).subrange(0, i as int));
        }
        assert(next.deep_view() =~= synced_bundle(b, source.devices.deep_view()));
        self.by_lang = next;
        assert forall|x: int, y: int| 0 <= x < y < self.deep_view().len() implies str_lt(
            #[trigger] self.deep_view()[x].0,
            #[trigger] self.deep_view()[y].0,
        ) by {
            assert(self.deep_view()[x].0 == b[x].0);
            assert(self.deep_view()[y].0 == b[y].0);
        }
    }
}


/// A payload worth showing: a named device or a safety notice.
pub fn payload_has_content(p: &AppliancesPayload) -> (r: bool)
    ensures
        r == has_content(p.deep_view()),
{
    !p.is_empty() || !blank(p.safety_notice.as_str())
}

/// First stored payload (in code order) worth showing.
pub open spec fn first_with_content(b: BundleModel) -> Option<PayloadModel>
    decreases b.len(),
{
    if b.len() == 0 {
        None
    } else if has_content(b[0].1) {
        Some(b[0].1)
    } else {
        first_with_content(b.drop_first())
    }
}

/// The payload shown for a guest: the guest's language, else the
/// property's, else French, else the first stored language with content,
/// else the empty payload.
pub open spec fn bundle_pick(b: BundleModel, guest_locale: Seq<char>, property_locale: Seq<char>) -> PayloadModel {
    let g = bundle_get(b, lang_code_of(guest_locale));
    let p = bundle_get(b, lang_code_of(property_locale));
    let f = bundle_get(b, "fr"@);
    if has_content(g) {
        g
    } else if has_content(p) {
        p
    } else if has_content(f) {
        f
    } else {
        match first_with_content(b) {
            Some(x) => x,
            None => empty_payload(),
        }
    }
}

/// The languages that have content, French then English, from the two
/// stored slots.
pub open spec fn slots_bundle(content_fr: Seq<char>, content_en: Seq<char>) -> BundleModel {
    let fr = parsed_payload(content_fr);
    let en = parsed_payload(content_en);
    let b1: BundleModel = if has_content(fr) {
        key_insert(Seq::empty(), "fr"@, fr)
    } else {
        Seq::empty()
    };
    if has_content(en) {
        key_insert(b1, "en"@, en)
    } else {
        b1
    }
}

/// Serde field index of a bundle member name; -1 when unknown.
pub open spec fn bundle_field(k: Seq<char>) -> int {
    if k == "by_lang"@ {
        0
    } else {
        -1
    }
}

/// Bundle field naming as a function.
pub open spec fn bundle_keys() -> spec_fn(Seq<char>) -> int {
    |k: Seq<char>| bundle_field(k)
}

/// A language map: an object whose every value reads as a payload.
pub open spec fn lang_map_valid(v: JsonValue) -> bool {
    v matches JsonValue::Object(m) && forall|i: int|
        0 <= i < m@.len() ==> (#[trigger] decode_payload(m@[i].1)) is Some
}

/// The decoded payload of a value (empty when serde refuses it).
pub open spec fn payload_or_empty(v: JsonValue) -> PayloadModel {
    match decode_payload(v) {
        Some(p) => p,
        None => empty_payload(),
    }
}

/// A language map read into a bundle: members inserted in order, a later
/// code replacing an earlier one.
pub open spec fn lang_map_bundle(m: Seq<(String, JsonValue)>) -> BundleModel
    decreases m.len(),
{
    if m.len() == 0 {
        Seq::empty()
    } else {
        key_insert(lang_map_bundle(m.drop_last()), m.last().0@, payload_or_empty(m.last().1))
    }
}

/// Members of a bundle object: `by_lang` once, and a language map.
pub open spec fn bundle_members_ok(m: Seq<(String, JsonValue)>) -> bool {
    let keys = member_fields(m, bundle_keys());
    &&& forall|i: int| 0 <= i < m.len() && keys[i] >= 0 ==> lang_map_valid(#[trigger] m[i].1)
    &&& fields_distinct(keys)
}

/// The bundle a stored object holds under `by_lang`.
pub open spec fn by_lang_bundle(m: Seq<(String, JsonValue)>) -> BundleModel {
    match field_member(m, bundle_keys(), 0) {
        Some(JsonValue::Object(lm)) => lang_map_bundle(lm@),
        _ => Seq::empty(),
    }
}

/// The bundle of a stored row: the `by_lang` bundle of the French slot when
/// it holds one that serde reads, else the two slots as French and English.
pub open spec fn row_bundle(content_fr: Seq<char>, content_en: Seq<char>) -> BundleModel {
    match json_parse(trim(content_fr)) {
        Some(JsonValue::Object(m)) => if member(m@, "by_lang"@) is Some && bundle_members_ok(m@) {
            by_lang_bundle(m@)
        } else {
            slots_bundle(content_fr, content_en)
        },
        _ => slots_bundle(content_fr, content_en),
    }
}

/// The JSON form of a bundle.
pub open spec fn bundle_json(b: BundleModel) -> JsonModel {
    JsonModel::Object(
        seq![("by_lang"@, JsonModel::Object(b.map_values(|e: (Seq<char>, PayloadModel)| (e.0, payload_json(e.1)))))],
    )
}

proof fn lemma_lang_map_wf(m: Seq<(String, JsonValue)>)
    ensures
        keys_sorted(lang_map_bundle(m)),
    decreases m.len(),
{
    if m.len() > 0 {
        lemma_lang_map_wf(m.drop_last());
        lemma_insert_wf(lang_map_bundle(m.drop_last()), m.last().0@, payload_or_empty(m.last().1));
    }
}

/// The first `by_lang` member.
fn find_bundle_field(m: &Vec<(String, JsonValue)>) -> (r: Option<&JsonValue>)
    ensures
        opt_ref(r) == field_member(m@, bundle_keys(), 0),
{
    let mut i: usize = 0;
    assert(m@.subrange(0, m@.len() as int) =~= m@);
    while i < m.len()
        invariant
            i <= m@.len(),
            field_member(m@, bundle_keys(), 0) == field_member(
                m@.subrange(i as int, m@.len() as int),
                bundle_keys(),
                0,
            ),
        decreases m.len() - i,
    {
        let ghost rest = m@.subrange(i as int, m@.len() as int);
        assert(rest.drop_first() =~= m@.subrange(i + 1, m@.len() as int));
        assert(rest[0] == m@[i as int]);
        if str_eq(m[i].0.as_str(), "by_lang") {
            return Some(&m[i].1);
        }
        i = i + 1;
    }
    None
}

fn lang_map_valid_exec(v: &JsonValue) -> (r: bool)
    ensures
        r == lang_map_valid(*v),
{
    match v {
        JsonValue::Object(m) => {
            let mut i: usize = 0;
            while i < m.len()
                invariant
                    i <= m@.len(),
                    *v == JsonValue::Object(*m),
                    forall|k: int| 0 <= k < i ==> (#[trigger] decode_payload(m@[k].1)) is Some,
                decreases m.len() - i,
            {
                if decode_payload_exec(&m[i].1).is_none() {
                    assert(decode_payload(m@[i as int].1) is None);
                    return false;
                }
                i = i + 1;
            }
            true
        },
        _ => false,
    }
}

fn bundle_members_ok_exec(m: &Vec<(String, JsonValue)>) -> (r: bool)
    ensures
        r == bundle_members_ok(m@),
{
    let ghost keys = member_fields(m@, bundle_keys());
    let mut seen = false;
    let mut i: usize = 0;
    while i < m.len()
        invariant
            i <= m@.len(),
            keys == member_fields(m@, bundle_keys()),
            forall|k: int| 0 <= k < i && keys[k] >= 0 ==> lang_map_valid(#[trigger] m@[k].1),
            forall|a: int, b: int| 0 <= a < b < i && keys[a] >= 0 ==> keys[a] != keys[b],
            seen <==> exists|k: int| 0 <= k < i && keys[k] == 0,
            forall|k: int| 0 <= k < m@.len() ==> -1 <= #[trigger] keys[k] < 1,
        decreases m.len() - i,
    {
        let is_field = str_eq(m[i].0.as_str(), "by_lang");
        assert(is_field == (keys[i as int] == 0));
        if is_field {
            if seen {
                proof {
                    let k = choose|k: int| 0 <= k < i && keys[k] == 0;
                    assert(keys[k] == keys[i as int]);
                }
                return false;
            }
            if !lang_map_valid_exec(&m[i].1) {
                return false;
            }
            seen = true;
        }
        i = i + 1;
    }
    true
}

impl AppliancesBundle {
    /// The payload shown for a guest: the guest's language, else the
    /// property's, else French, else the first stored language with
    /// content, else the empty payload.
    pub fn pick(&self, guest_locale: &str, property_locale: &str) -> (r: AppliancesPayload)
        requires
            keys_sorted(self.deep_view()),
        ensures
            r.deep_view() == bundle_pick(self.deep_view(), guest_locale@, property_locale@),
    {
        let g = self.get(Self::lang_code(guest_locale).as_str());
        if payload_has_content(&g) {
            return g;
        }
        let p = self.get(Self::lang_code(property_locale).as_str());
        if payload_has_content(&p) {
            return p;
        }
        let f = self.get("fr");
        if payload_has_content(&f) {
            return f;
        }
        let ghost b = self.deep_view();
        let mut i: usize = 0;
        assert(b.subrange(0, b.len() as int) =~= b);
        while i < self.by_lang.len()
            invariant
                i <= self.by_lang@.len(),
                b == self.deep_view(),
                !has_content(bundle_get(b, lang_code_of(guest_locale@))),
                !has_content(bundle_get(b, lang_code_of(property_locale@))),
                !has_content(bundle_get(b, "fr"@)),
                first_with_content(b) == first_with_content(b.subrange(i as int, b.len() as int)),
            decreases self.by_lang.len() - i,
        {
            let ghost rest = b.subrange(i as int, b.len() as int);
            assert(rest.drop_first() =~= b.subrange(i + 1, b.len() as int));
            assert(rest[0] == b[i as int]);
            if payload_has_content(&self.by_lang[i].1) {
                assert(first_with_content(rest) == Some(b[i as int].1));
                return self.by_lang[i].1.duplicate();
            }
            i = i + 1;
        }
        AppliancesPayload::default()
    }

    /// The two stored slots as French and English, each kept when it has
    /// content.
    fn from_slots(content_fr: &str, content_en: &str) -> (r: AppliancesBundle)
        ensures
            r.deep_view() == slots_bundle(content_fr@, content_en@),
            keys_sorted(r.deep_view()),
    {
        let mut bundle = AppliancesBundle::new();
        let fr = AppliancesPayload::parse(content_fr);
        if payload_has_content(&fr) {
            bundle.insert_code("fr".to_owned(), fr);
        }
        let en = AppliancesPayload::parse(content_en);
        if payload_has_content(&en) {
            bundle.insert_code("en".to_owned(), en);
        }
        bundle
    }

    /// Reads the bundle of a stored row: the `by_lang` bundle held in the
    /// French slot, else the two slots as French and English.
    pub fn from_row(content_fr: &str, content_en: &str) -> (r: AppliancesBundle)
        ensures
            r.deep_view() == row_bundle(content_fr@, content_en@),
            keys_sorted(r.deep_view()),
    {
        let trimmed = trim_str(content_fr);
        let value = match parse_json(trimmed) {
            Some(v) => v,
            None => return Self::from_slots(content_fr, content_en),
        };
        let m = match &value {
            JsonValue::Object(m) => m,
            _ => return Self::from_slots(content_fr, content_en),
        };
        if value.get("by_lang").is_none() || !bundle_members_ok_exec(m) {
            return Self::from_slots(content_fr, content_en);
        }
        match find_bundle_field(m) {
            Some(JsonValue::Object(lm)) => {
                let mut next = AppliancesBundle::new();
                let mut k: usize = 0;
                while k < lm.len()
                    invariant
                        k <= lm@.len(),
                        keys_sorted(next.deep_view()),
                        next.deep_view() == lang_map_bundle(lm@.subrange(0, k as int)),
                    decreases lm.len() - k,
                {
                    assert(lm@.subrange(0, k + 1).drop_last() =~= lm@.subrange(0, k as int));
                    let p = match decode_payload_exec(&lm[k].1) {
                        Some(p) => p,
                        None => AppliancesPayload::default(),
                    };
                    next.insert_code(lm[k].0.clone(), p);
                    k = k + 1;
                }
                assert(lm@.subrange(0, k as int) =~= lm@);
                next
            },
            _ => AppliancesBundle::new(),
        }
    }

    /// The bundle's JSON text (`serde_json::to_string`; it cannot fail).
    pub fn to_json_string(&self) -> (r: Result<String, serde_json::Error>)
        ensures
            r matches Ok(s) && s@ == json_text(bundle_json(self.deep_view())),
    {
        let ghost b = self.deep_view();
        let mut langs: Vec<(String, JsonValue)> = Vec::new();
        let mut i: usize = 0;
        proof {
            assert(members_model_of(langs@) =~= Seq::<(Seq<char>, JsonModel)>::empty());
        }
        while i < self.by_lang.len()
            invariant
                i <= self.by_lang@.len(),
                b == self.deep_view(),
                members_model_of(langs@) == b.subrange(0, i as int).map_values(
                    |e: (Seq<char>, PayloadModel)| (e.0, payload_json(e.1)),
                ),
            decreases self.by_lang.len() - i,
        {
            push_member(&mut langs, self.by_lang[i].0.as_str(), payload_to_json(&self.by_lang[i].1));
            i = i + 1;
            assert(members_model_of(langs@) =~= b.subrange(0, i as int).map_values(
                |e: (Seq<char>, PayloadModel)| (e.0, payload_json(e.1)),
            ));
        }
        assert(b.subrange(0, i as int) =~= b);
        let inner = JsonValue::Object(langs);
        let mut top: Vec<(String, JsonValue)> = Vec::new();
        proof {
            assert(members_model_of(top@) =~= Seq::<(Seq<char>, JsonModel)>::empty());
        }
        push_member(&mut top, "by_lang", inner);
        let v = JsonValue::Object(top);
        assert(members_model_of(top@) =~= seq![("by_lang"@, model_of(inner))]);
        assert(model_of(v) == bundle_json(b));
        Ok(write_json(&v))
    }
}

/// What a read gives back of a write: after `set(lang, p)`, `get` of any
/// locale with the same language code gives `p`; other languages are
/// untouched.
pub proof fn lemma_get_after_set(b: BundleModel, lang: Seq<char>, p: PayloadModel, other: Seq<char>)
    ensures
        lang_code_of(other) == lang_code_of(lang) ==> bundle_get(key_insert(b, lang_code_of(lang), p), other) == p,
        lang_code_of(other) != lang_code_of(lang) ==> bundle_get(key_insert(b, lang_code_of(lang), p), other)
            == bundle_get(b, other),
{
    lemma_insert_lookup_same(b, lang_code_of(lang), p);
    if lang_code_of(other) != lang_code_of(lang) {
        lemma_insert_lookup_other(b, lang_code_of(lang), p, lang_code_of(other));
    }
}

// ── Every language aligned on the saved list ────────────────────────────────

/// A device carries the shared fields of a source device.
pub open spec fn shares_fields(d: ApplianceModel, s: ApplianceModel) -> bool {
    &&& d.id == s.id
    &&& d.emoji == s.emoji
    &&& d.featured == s.featured
    &&& d.order == s.order
    &&& d.manual_url == s.manual_url
    &&& d.status == s.status
}

/// A list aligned on the source: a device for every source id, and every
/// device known to the source with the shared fields of the source's first
/// device of its id.
pub open spec fn aligned_on(devices: Seq<ApplianceModel>, src: Seq<ApplianceModel>) -> bool {
    &&& forall|k: int|
        #![trigger src[k]]
        0 <= k < src.len() ==> exists|j: int| #![trigger devices[j]] 0 <= j < devices.len() && devices[j].id == src[k].id
    &&& forall|j: int|
        #![trigger devices[j]]
        0 <= j < devices.len() ==> (device_index(src, devices[j].id) matches Some(i) && shares_fields(
            devices[j],
            src[i],
        ))
}

/// The first device of an id in a list is the first in any longer list
/// starting with it.
proof fn lemma_device_index_prefix(s: Seq<ApplianceModel>, id: Seq<char>, k: int)
    requires
        s.len() > 0,
        device_index(s.drop_last(), id) == Some(k),
    ensures
        device_index(s, id) == Some(k),
{
    lemma_device_index(s.drop_last(), id);
    lemma_device_index(s, id);
    assert(s[k] == s.drop_last()[k]);
    match device_index(s, id) {
        Some(i) => {
            if i < k {
                assert(s.drop_last()[i] == s[i]);
            }
        },
        None => {},
    }
}


/// Some device of the list has the id.
proof fn lemma_has_id_of(d: Seq<ApplianceModel>, id: Seq<char>, j: int)
    requires
        0 <= j < d.len(),
        d[j].id == id,
    ensures
        has_id(d, id),
{
    lemma_device_index(d, id);
}

proof fn lemma_add_missing_prefix(acc: Seq<ApplianceModel>, srcs: Seq<ApplianceModel>)
    ensures
        acc.len() <= add_missing(acc, srcs).len() <= acc.len() + srcs.len(),
        forall|j: int| 0 <= j < acc.len() ==> #[trigger] add_missing(acc, srcs)[j] == acc[j],
    decreases srcs.len(),
{
    if srcs.len() > 0 {
        lemma_add_missing_prefix(acc, srcs.drop_last());
    }
}

proof fn lemma_add_missing_covers(acc: Seq<ApplianceModel>, srcs: Seq<ApplianceModel>, k: int)
    requires
        0 <= k < srcs.len(),
    ensures
        has_id(add_missing(acc, srcs), srcs[k].id),
    decreases srcs.len(),
{
    let pre = srcs.drop_last();
    let a = add_missing(acc, pre);
    let n = srcs.len() - 1;
    let out = add_missing(acc, srcs);
    if has_id(a, srcs[n].id) {
        assert(out == a);
        if k < n {
            assert(pre[k] == srcs[k]);
            lemma_add_missing_covers(acc, pre, k);
        }
    } else {
        assert(out == a.push(blank_copy(srcs[n])));
        if k == n {
            lemma_has_id_of(out, srcs[k].id, a.len() as int);
        } else {
            assert(pre[k] == srcs[k]);
            lemma_add_missing_covers(acc, pre, k);
            lemma_device_index(a, srcs[k].id);
            let i = device_index(a, srcs[k].id)->0;
            assert(out[i] == a[i]);
            lemma_has_id_of(out, srcs[k].id, i);
        }
    }
}

/// A device that `add_missing` appends is the blank copy of the first
/// source device of its id.
proof fn lemma_add_missing_new(acc: Seq<ApplianceModel>, srcs: Seq<ApplianceModel>, j: int) -> (k: int)
    requires
        acc.len() <= j < add_missing(acc, srcs).len(),
    ensures
        0 <= k < srcs.len(),
        device_index(srcs, srcs[k].id) == Some(k),
        add_missing(acc, srcs)[j] == blank_copy(srcs[k]),
    decreases srcs.len(),
{
    let pre = srcs.drop_last();
    let a = add_missing(acc, pre);
    let n = srcs.len() - 1;
    let out = add_missing(acc, srcs);
    lemma_add_missing_prefix(acc, pre);
    if has_id(a, srcs[n].id) {
        assert(out == a);
        let k = lemma_add_missing_new(acc, pre, j);
        assert(pre[k] == srcs[k]);
        lemma_device_index_prefix(srcs, srcs[k].id, k);
        k
    } else {
        assert(out == a.push(blank_copy(srcs[n])));
        if j < a.len() {
            assert(out[j] == a[j]);
            let k = lemma_add_missing_new(acc, pre, j);
            assert(pre[k] == srcs[k]);
            lemma_device_index_prefix(srcs, srcs[k].id, k);
            k
        } else {
            lemma_device_index(srcs, srcs[n].id);
            match device_index(srcs, srcs[n].id) {
                Some(i) => {
                    if i < n {
                        assert(pre[i] == srcs[i]);
                        lemma_add_missing_covers(acc, pre, i);
                        assert(false);
                    }
                },
                None => {},
            }
            n
        }
    }
}

proof fn lemma_filter_from(s: Seq<ApplianceModel>, pred: spec_fn(ApplianceModel) -> bool)
    ensures
        forall|j: int|
            #![trigger s.filter(pred)[j]]
            0 <= j < s.filter(pred).len() ==> exists|i: int| #![trigger s[i]] 0 <= i < s.len() && s[i] == s.filter(pred)[j],
    decreases s.len(),
{
    reveal(Seq::filter);
    if s.len() > 0 {
        let pre = s.drop_last();
        lemma_filter_from(pre, pred);
        assert forall|j: int| #![trigger s.filter(pred)[j]] 0 <= j < s.filter(pred).len() implies exists|i: int|
            #![trigger s[i]]
            0 <= i < s.len() && s[i] == s.filter(pred)[j] by {
            if j < pre.filter(pred).len() {
                assert(s.filter(pred)[j] == pre.filter(pred)[j]);
                let i = choose|i: int| 0 <= i < pre.len() && pre[i] == pre.filter(pred)[j];
                assert(s[i] == pre[i]);
            } else {
                assert(s.filter(pred)[j] == s[s.len() - 1]);
            }
        }
    }
}

/// The devices a payload keeps when aligned on a list, before ordering.
pub open spec fn kept_devices(p: PayloadModel, src: Seq<ApplianceModel>) -> Seq<ApplianceModel> {
    add_missing(p.devices.map_values(|d: ApplianceModel| synced_device(d, src)), src).filter(in_source(src))
}

proof fn lemma_kept_aligned(p: PayloadModel, src: Seq<ApplianceModel>, i1: int)
    requires
        0 <= i1 < kept_devices(p, src).len(),
    ensures
        device_index(src, kept_devices(p, src)[i1].id) matches Some(i) && shares_fields(
            kept_devices(p, src)[i1],
            src[i],
        ),
{
    let updated = p.devices.map_values(|d: ApplianceModel| synced_device(d, src));
    let added = add_missing(updated, src);
    let pred = in_source(src);
    let kept = added.filter(pred);
    lemma_filter_from(added, pred);
    added.lemma_filter_pred(pred, i1);
    let i2 = choose|i: int| #![trigger added[i]] 0 <= i < added.len() && added[i] == kept[i1];
    let e = added[i2];
    assert(has_id(src, e.id));
    lemma_device_index(src, e.id);
    lemma_add_missing_prefix(updated, src);
    if i2 < updated.len() {
        assert(added[i2] == updated[i2]);
        assert(e == synced_device(p.devices[i2], src));
    } else {
        let k = lemma_add_missing_new(updated, src, i2);
        assert(e.id == src[k].id);
    }
}

proof fn lemma_listed(p: PayloadModel, src: Seq<ApplianceModel>, k: int) -> (i1: int)
    requires
        0 <= k < src.len(),
    ensures
        0 <= i1 < kept_devices(p, src).len(),
        kept_devices(p, src)[i1].id == src[k].id,
{
    let updated = p.devices.map_values(|d: ApplianceModel| synced_device(d, src));
    let added = add_missing(updated, src);
    let pred = in_source(src);
    let kept = added.filter(pred);
    lemma_add_missing_covers(updated, src, k);
    lemma_device_index(added, src[k].id);
    let i = device_index(added, src[k].id)->0;
    lemma_has_id_of(src, added[i].id, k);
    assert(pred(added[i]));
    added.lemma_filter_contains(pred, i);
    let i1 = choose|i1: int| 0 <= i1 < kept.len() && kept[i1] == added[i];
    i1
}

/// Aligning one language's payload on a list gives a payload aligned on it.
pub proof fn lemma_synced_payload_aligned(p: PayloadModel, src: Seq<ApplianceModel>)
    requires
        p.devices.len() + src.len() <= usize::MAX,
    ensures
        aligned_on(synced_payload(p, src).devices, src),
{
    let updated = p.devices.map_values(|d: ApplianceModel| synced_device(d, src));
    let added = add_missing(updated, src);
    let kept = kept_devices(p, src);
    lemma_add_missing_prefix(updated, src);
    added.lemma_filter_len(in_source(src));
    lemma_full_order(kept);
    let ord = full_order(kept);
    let out = synced_payload(p, src).devices;
    assert(out == sorted_by_order(kept));
    assert forall|j: int| #![trigger out[j]] 0 <= j < out.len() implies (device_index(src, out[j].id) matches Some(i)
        && shares_fields(out[j], src[i])) by {
        assert((ord[j] as int) < orders_of(kept).len());
        assert(out[j] == kept[ord[j] as int]);
        lemma_kept_aligned(p, src, ord[j] as int);
    }
    assert forall|k: int| #![trigger src[k]] 0 <= k < src.len() implies exists|j: int|
        #![trigger out[j]]
        0 <= j < out.len() && out[j].id == src[k].id by {
        let i1 = lemma_listed(p, src, k);
        assert(all_marks(kept)[i1]);
        let j = choose|j: int| 0 <= j < ord.len() && ord[j] == i1;
        assert(out[j] == kept[i1]);
    }
}

/// Saving one language's list aligns every stored language on it: each
/// lists a device for every id of the saved list and none whose id it
/// lacks, with the emoji, featured flag, order, manual link and status of
/// the saved list's device of that id.
pub proof fn lemma_sync_aligns_languages(b: BundleModel, src: Seq<ApplianceModel>)
    requires
        forall|k: int| 0 <= k < b.len() ==> #[trigger] b[k].1.devices.len() + src.len() <= usize::MAX,
    ensures
        synced_bundle(b, src).len() == b.len(),
        forall|k: int| 0 <= k < b.len() ==> #[trigger] synced_bundle(b, src)[k].0 == b[k].0,
        forall|k: int| 0 <= k < b.len() ==> aligned_on(#[trigger] synced_bundle(b, src)[k].1.devices, src),
{
    assert forall|k: int| 0 <= k < b.len() implies aligned_on(#[trigger] synced_bundle(b, src)[k].1.devices, src) by {
        lemma_synced_payload_aligned(b[k].1, src);
    }
}

/// A guest gets their own language when it has content; failing that, the
/// property's language; failing that, French; and only when none of the
/// three has content, the first language in code order that has some
/// (empty content when none has).
pub proof fn lemma_pick_prefers_guest_language(b: BundleModel, guest: Seq<char>, property: Seq<char>)
    ensures
        has_content(bundle_get(b, guest)) ==> bundle_pick(b, guest, property) == bundle_get(b, guest),
        !has_content(bundle_get(b, guest)) && has_content(bundle_get(b, property)) ==> bundle_pick(
            b,
            guest,
            property,
        ) == bundle_get(b, property),
        !has_content(bundle_get(b, guest)) && !has_content(bundle_get(b, property)) && has_content(
            bundle_get(b, "fr"@),
        ) ==> bundle_pick(b, guest, property) == bundle_get(b, "fr"@),
        has_content(bundle_pick(b, guest, property)) || bundle_pick(b, guest, property) == empty_payload(),
{
    crate::text::lemma_lang_code_normal(guest);
    crate::text::lemma_lang_code_normal(property);
    lemma_first_with_content(b);
}

proof fn lemma_first_with_content(b: BundleModel)
    ensures
        first_with_content(b) matches Some(x) ==> has_content(x),
    decreases b.len(),
{
    if b.len() > 0 && !has_content(b[0].1) {
        lemma_first_with_content(b.drop_first());
    }
}

} // verus!
