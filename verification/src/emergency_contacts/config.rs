//! Emergency contacts configuration: the contact rows, the legacy JSON slot
//! they are migrated from, and the host phone.

use vstd::prelude::*;

use crate::appliances::codec::{
    array_getter, field_member, fields_distinct, member_fields, object_getter, opt_ref, str_value,
};
use crate::emergency_contacts::localized::{empty_localized, localized_wf, Localized, LocalizedModel};
use crate::json::{parse_json, json_parse, JsonValue};
use crate::keyed::{key_insert, keyed_insert, keys_sorted, lemma_insert_wf};
use crate::text::{blank, is_blank, nonempty_of, nonempty_owned, str_eq, trim, trim_str};

verus! {

/// One emergency contact.
#[derive(Debug)]
pub struct ContactRow {
    pub id: String,
    pub label: Localized,
    pub phone: String,
    pub note: Option<Localized>,
    pub category: Option<String>,
}

/// [`ContactRow`] with texts as sequences.
pub struct ContactModel {
    pub id: Seq<char>,
    pub label: LocalizedModel,
    pub phone: Seq<char>,
    pub note: Option<LocalizedModel>,
    pub category: Option<Seq<char>>,
}

impl DeepView for ContactRow {
    type V = ContactModel;

    open spec fn deep_view(&self) -> ContactModel {
        ContactModel {
            id: self.id@,
            label: self.label.deep_view(),
            phone: self.phone@,
            note: self.note.deep_view(),
            category: self.category.deep_view(),
        }
    }
}

impl ContactRow {
    /// Copy of this row.
    pub fn duplicate(&self) -> (r: ContactRow)
        ensures
            r.deep_view() == self.deep_view(),
    {
        ContactRow {
            id: self.id.clone(),
            label: self.label.duplicate(),
            phone: self.phone.clone(),
            note: match &self.note {
                Some(n) => Some(n.duplicate()),
                None => None,
            },
            category: self.category.clone(),
        }
    }
}

/// A row guests see: it has an id and a phone.
pub open spec fn is_listed(c: ContactModel) -> bool {
    !is_blank(c.id) && !is_blank(c.phone)
}

/// The listed rows, in order.
pub open spec fn listed(rows: Seq<ContactModel>) -> Seq<ContactModel> {
    rows.filter(|c: ContactModel| is_listed(c))
}

/// The module configuration.
#[derive(Debug)]
pub struct ModuleConfig {
    pub contacts: Vec<ContactRow>,
    /// Legacy JSON list of contacts, read once when `contacts` is empty.
    pub contacts_json: String,
    pub host_visible_phone: String,
}

/// [`ModuleConfig`] with texts as sequences.
pub struct ConfigModel {
    pub contacts: Seq<ContactModel>,
    pub contacts_json: Seq<char>,
    pub host_visible_phone: Seq<char>,
}

impl DeepView for ModuleConfig {
    type V = ConfigModel;

    open spec fn deep_view(&self) -> ConfigModel {
        ConfigModel {
            contacts: self.contacts.deep_view(),
            contacts_json: self.contacts_json@,
            host_visible_phone: self.host_visible_phone@,
        }
    }
}

/// The listed rows of a list.
pub fn listed_rows(rows: &Vec<ContactRow>) -> (r: Vec<ContactRow>)
    ensures
        r.deep_view() == listed(rows.deep_view()),
{
    let ghost d = rows.deep_view();
    let mut out: Vec<ContactRow> = Vec::new();
    let mut i: usize = 0;
    while i < rows.len()
        invariant
            i <= rows@.len(),
            d == rows.deep_view(),
            out.deep_view() == d.subrange(0, i as int).filter(|c: ContactModel| is_listed(c)),
        decreases rows.len() - i,
    {
        proof {
            reveal(Seq::filter);
            assert(d.subrange(0, i + 1).drop_last() =~= d.subrange(0, i as int));
        }
        if !blank(rows[i].id.as_str()) && !blank(rows[i].phone.as_str()) {
            let ghost before = out.deep_view();
            out.push(rows[i].duplicate());
            assert(out.deep_view() =~= before.push(d[i as int]));
        }
        i = i + 1;
    }
    assert(d.subrange(0, i as int) =~= d);
    out
}

// ── Reading contacts from JSON, as their serde definitions read them ────────

/// Field index of a language member (`fr`, `en`); -1 for another language.
pub open spec fn localized_field(k: Seq<char>) -> int {
    if k == "fr"@ {
        0
    } else if k == "en"@ {
        1
    } else {
        -1
    }
}

/// Language field naming as a function.
pub open spec fn localized_keys() -> spec_fn(Seq<char>) -> int {
    |k: Seq<char>| localized_field(k)
}

/// The other languages of an object's members, in member order (a later
/// code replaces an earlier one).
pub open spec fn other_languages(m: Seq<(String, JsonValue)>) -> Seq<(Seq<char>, Seq<char>)>
    decreases m.len(),
{
    if m.len() == 0 {
        Seq::empty()
    } else {
        let prev = other_languages(m.drop_last());
        if localized_field(m.last().0@) >= 0 {
            prev
        } else {
            key_insert(prev, m.last().0@, str_value(Some(m.last().1)))
        }
    }
}

/// Texts per language as serde reads them: an object whose members are all
/// strings, `fr` and `en` at most once.
pub open spec fn decode_localized(v: JsonValue) -> Option<LocalizedModel> {
    match v {
        JsonValue::Object(m) => if (forall|i: int| 0 <= i < m@.len() ==> (#[trigger] m@[i]).1 is Str) && fields_distinct(
            member_fields(m@, localized_keys()),
        ) {
            Some(
                LocalizedModel {
                    fr: str_value(field_member(m@, localized_keys(), 0)),
                    en: str_value(field_member(m@, localized_keys(), 1)),
                    other: other_languages(m@),
                },
            )
        } else {
            None
        },
        _ => None,
    }
}

/// Field index of a contact member name; -1 when unknown.
pub open spec fn contact_field(k: Seq<char>) -> int {
    if k == "id"@ {
        0
    } else if k == "label"@ {
        1
    } else if k == "phone"@ {
        2
    } else if k == "note"@ {
        3
    } else if k == "category"@ {
        4
    } else {
        -1
    }
}

/// Contact field naming as a function.
pub open spec fn contact_keys() -> spec_fn(Seq<char>) -> int {
    |k: Seq<char>| contact_field(k)
}

/// A value of the right type for contact field `f` (`null` stands for an
/// absent note or category).
pub open spec fn contact_field_valid(f: int, v: JsonValue) -> bool {
    if f == 1 {
        decode_localized(v) is Some
    } else if f == 3 {
        v is Null || decode_localized(v) is Some
    } else if f == 4 {
        v is Null || v is Str
    } else {
        v is Str
    }
}

/// A contact from its field values.
pub open spec fn contact_from(get: spec_fn(int) -> Option<JsonValue>) -> ContactModel {
    ContactModel {
        id: str_value(get(0)),
        label: match get(1) {
            Some(v) => match decode_localized(v) {
                Some(l) => l,
                None => empty_localized(),
            },
            None => empty_localized(),
        },
        phone: str_value(get(2)),
        note: match get(3) {
            Some(v) => decode_localized(v),
            None => None,
        },
        category: match get(4) {
            Some(JsonValue::Str(s)) => Some(s@),
            _ => None,
        },
    }
}

/// A contact as serde reads it: `id`, `label` and `phone` required, `note`
/// and `category` optional; by name (an object) or by position (an array).
pub open spec fn decode_contact(v: JsonValue) -> Option<ContactModel> {
    match v {
        JsonValue::Object(m) => {
            let keys = member_fields(m@, contact_keys());
            if (forall|i: int| 0 <= i < m@.len() && keys[i] >= 0 ==> contact_field_valid(keys[i], #[trigger] m@[i].1))
                && fields_distinct(keys) && field_member(m@, contact_keys(), 0) is Some && field_member(
                m@,
                contact_keys(),
                1,
            ) is Some && field_member(m@, contact_keys(), 2) is Some {
                Some(contact_from(object_getter(m@, contact_keys())))
            } else {
                None
            }
        },
        JsonValue::Array(a) => if 3 <= a@.len() <= 5 && forall|i: int|
            0 <= i < a@.len() ==> contact_field_valid(i, #[trigger] a@[i]) {
            Some(contact_from(array_getter(a@)))
        } else {
            None
        },
        _ => None,
    }
}

/// A list of contacts as serde reads it (`None` when any entry is refused).
pub open spec fn decode_contacts(v: JsonValue) -> Option<Seq<ContactModel>> {
    match v {
        JsonValue::Array(a) => if forall|i: int| 0 <= i < a@.len() ==> (#[trigger] decode_contact(a@[i])) is Some {
            Some(a@.map_values(|x: JsonValue| decode_contact(x)->0))
        } else {
            None
        },
        _ => None,
    }
}

/// The contacts of a JSON text (`None` when it is not a contact list).
pub open spec fn contacts_of_text(t: Seq<char>) -> Option<Seq<ContactModel>> {
    match json_parse(t) {
        Some(v) => decode_contacts(v),
        None => None,
    }
}

fn localized_field_of(k: &str) -> (r: i64)
    ensures
        r == localized_field(k@),
{
    if str_eq(k, "fr") {
        0
    } else if str_eq(k, "en") {
        1
    } else {
        -1
    }
}

fn contact_field_of(k: &str) -> (r: i64)
    ensures
        r == contact_field(k@),
{
    if str_eq(k, "id") {
        0
    } else if str_eq(k, "label") {
        1
    } else if str_eq(k, "phone") {
        2
    } else if str_eq(k, "note") {
        3
    } else if str_eq(k, "category") {
        4
    } else {
        -1
    }
}

fn find_field(m: &Vec<(String, JsonValue)>, f: i64, contact: bool) -> (r: Option<&JsonValue>)
    ensures
        opt_ref(r) == field_member(m@, if contact { contact_keys() } else { localized_keys() }, f as int),
{
    let ghost keys = if contact { contact_keys() } else { localized_keys() };
    let mut i: usize = 0;
    assert(m@.subrange(0, m@.len() as int) =~= m@);
    while i < m.len()
        invariant
            i <= m@.len(),
            keys == (if contact { contact_keys() } else { localized_keys() }),
            field_member(m@, keys, f as int) == field_member(m@.subrange(i as int, m@.len() as int), keys, f as int),
        decreases m.len() - i,
    {
        let ghost rest = m@.subrange(i as int, m@.len() as int);
        assert(rest.drop_first() =~= m@.subrange(i + 1, m@.len() as int));
        assert(rest[0] == m@[i as int]);
        let k = if contact {
            contact_field_of(m[i].0.as_str())
        } else {
            localized_field_of(m[i].0.as_str())
        };
        if k == f {
            return Some(&m[i].1);
        }
        i = i + 1;
    }
    None
}

fn str_value_of(o: Option<&JsonValue>) -> (r: String)
    ensures
        r@ == str_value(opt_ref(o)),
{
    match o {
        Some(JsonValue::Str(s)) => s.clone(),
        _ => String::new(),
    }
}

/// Reads texts per language (see [`decode_localized`]).
pub fn decode_localized_exec(v: &JsonValue) -> (r: Option<Localized>)
    ensures
        r.deep_view() == decode_localized(*v),
        r matches Some(l) ==> localized_wf(l.deep_view()),
{
    let m = match v {
        JsonValue::Object(m) => m,
        _ => return None,
    };
    let ghost keys = member_fields(m@, localized_keys());
    let mut seen_fr = false;
    let mut seen_en = false;
    let mut other: Vec<(String, String)> = Vec::new();
    let mut i: usize = 0;
    while i < m.len()
        invariant
            i <= m@.len(),
            *v == JsonValue::Object(*m),
            keys == member_fields(m@, localized_keys()),
            forall|k: int| 0 <= k < i ==> (#[trigger] m@[k]).1 is Str,
            forall|a: int, b: int| 0 <= a < b < i && keys[a] >= 0 ==> keys[a] != keys[b],
            seen_fr <==> exists|k: int| 0 <= k < i && keys[k] == 0,
            seen_en <==> exists|k: int| 0 <= k < i && keys[k] == 1,
            forall|k: int| 0 <= k < m@.len() ==> -1 <= #[trigger] keys[k] < 2,
            other.deep_view() == other_languages(m@.subrange(0, i as int)),
            keys_sorted(other.deep_view()),
        decreases m.len() - i,
    {
        assert(m@.subrange(0, i + 1).drop_last() =~= m@.subrange(0, i as int));
        let s = match &m[i].1 {
            JsonValue::Str(s) => s,
            _ => {
                assert(!(m@[i as int].1 is Str));
                return None;
            },
        };
        let c = localized_field_of(m[i].0.as_str());
        assert(c == keys[i as int]);
        if c == 0 {
            if seen_fr {
                proof {
                    let k = choose|k: int| 0 <= k < i && keys[k] == 0;
                    assert(keys[k] == keys[i as int]);
                }
                return None;
            }
            seen_fr = true;
        } else if c == 1 {
            if seen_en {
                proof {
                    let k = choose|k: int| 0 <= k < i && keys[k] == 1;
                    assert(keys[k] == keys[i as int]);
                }
                return None;
            }
            seen_en = true;
        } else {
            keyed_insert(&mut other, m[i].0.clone(), s.clone());
        }
        i = i + 1;
    }
    assert(m@.subrange(0, i as int) =~= m@);
    let l = Localized {
        fr: str_value_of(find_field(m, 0, false)),
        en: str_value_of(find_field(m, 1, false)),
        other,
    };
    Some(l)
}

fn contact_field_valid_exec(f: i64, v: &JsonValue) -> (r: bool)
    ensures
        r == contact_field_valid(f as int, *v),
{
    if f == 1 {
        decode_localized_exec(v).is_some()
    } else if f == 3 {
        matches!(v, JsonValue::Null) || decode_localized_exec(v).is_some()
    } else if f == 4 {
        matches!(v, JsonValue::Null) || matches!(v, JsonValue::Str(_))
    } else {
        matches!(v, JsonValue::Str(_))
    }
}

fn contact_from_values(
    id: Option<&JsonValue>,
    label: Option<&JsonValue>,
    phone: Option<&JsonValue>,
    note: Option<&JsonValue>,
    category: Option<&JsonValue>,
    Ghost(get): Ghost<spec_fn(int) -> Option<JsonValue>>,
) -> (r: ContactRow)
    requires
        opt_ref(id) == get(0),
        opt_ref(label) == get(1),
        opt_ref(phone) == get(2),
        opt_ref(note) == get(3),
        opt_ref(category) == get(4),
    ensures
        r.deep_view() == contact_from(get),
{
    let label_l = match label {
        Some(v) => match decode_localized_exec(v) {
            Some(l) => l,
            None => Localized::new(),
        },
        None => Localized::new(),
    };
    let note_l = match note {
        Some(v) => decode_localized_exec(v),
        None => None,
    };
    let category_s = match category {
        Some(JsonValue::Str(s)) => Some(s.clone()),
        _ => None,
    };
    ContactRow {
        id: str_value_of(id),
        label: label_l,
        phone: str_value_of(phone),
        note: note_l,
        category: category_s,
    }
}

/// Reads a contact (see [`decode_contact`]).
pub fn decode_contact_exec(v: &JsonValue) -> (r: Option<ContactRow>)
    ensures
        r.deep_view() == decode_contact(*v),
{
    match v {
        JsonValue::Object(m) => {
            let ghost keys = member_fields(m@, contact_keys());
            let mut seen: Vec<bool> = vec![false, false, false, false, false];
            let mut i: usize = 0;
            while i < m.len()
                invariant
                    i <= m@.len(),
                    *v == JsonValue::Object(*m),
                    keys == member_fields(m@, contact_keys()),
                    seen@.len() == 5,
                    forall|k: int| 0 <= k < i && keys[k] >= 0 ==> contact_field_valid(keys[k], #[trigger] m@[k].1),
                    forall|a: int, b: int| 0 <= a < b < i && keys[a] >= 0 ==> keys[a] != keys[b],
                    forall|c: int| 0 <= c < 5 ==> (#[trigger] seen@[c] <==> exists|k: int| 0 <= k < i && keys[k] == c),
                    forall|k: int| 0 <= k < m@.len() ==> -1 <= #[trigger] keys[k] < 5,
                decreases m.len() - i,
            {
                let c = contact_field_of(m[i].0.as_str());
                assert(c == keys[i as int]);
                if c >= 0 {
                    let cu = c as usize;
                    if seen[cu] {
                        proof {
                            let k = choose|k: int| 0 <= k < i && keys[k] == c;
                            assert(keys[k] == keys[i as int]);
                        }
                        return None;
                    }
                    if !contact_field_valid_exec(c, &m[i].1) {
                        return None;
                    }
                    seen.set(cu, true);
                }
                i = i + 1;
                proof {
                    assert forall|cc: int| 0 <= cc < 5 implies (#[trigger] seen@[cc] <==> exists|k: int|
                        0 <= k < i && keys[k] == cc) by {
                        if cc == c {
                            assert(keys[i - 1] == cc);
                        } else if seen@[cc] {
                            let k = choose|k: int| 0 <= k < i - 1 && keys[k] == cc;
                            assert(0 <= k < i && keys[k] == cc);
                        }
                    }
                }
            }
            let id = find_field(m, 0, true);
            let label = find_field(m, 1, true);
            let phone = find_field(m, 2, true);
            if id.is_none() || label.is_none() || phone.is_none() {
                return None;
            }
            Some(
                contact_from_values(
                    id,
                    label,
                    phone,
                    find_field(m, 3, true),
                    find_field(m, 4, true),
                    Ghost(object_getter(m@, contact_keys())),
                ),
            )
        },
        JsonValue::Array(a) => {
            if a.len() < 3 || a.len() > 5 {
                return None;
            }
            let mut i: usize = 0;
            while i < a.len()
                invariant
                    i <= a@.len(),
                    a@.len() <= 5,
                    *v == JsonValue::Array(*a),
                    forall|k: int| 0 <= k < i ==> contact_field_valid(k, #[trigger] a@[k]),
                decreases a.len() - i,
            {
                if !contact_field_valid_exec(i as i64, &a[i]) {
                    assert(!contact_field_valid(i as int, a@[i as int]));
                    return None;
                }
                i = i + 1;
            }
            Some(
                contact_from_values(
                    Some(&a[0]),
                    Some(&a[1]),
                    Some(&a[2]),
                    if 3 < a.len() { Some(&a[3]) } else { None },
                    if 4 < a.len() { Some(&a[4]) } else { None },
                    Ghost(array_getter(a@)),
                ),
            )
        },
        _ => None,
    }
}

/// Reads a list of contacts (see [`decode_contacts`]).
pub fn decode_contacts_exec(v: &JsonValue) -> (r: Option<Vec<ContactRow>>)
    ensures
        r.deep_view() == decode_contacts(*v),
{
    match v {
        JsonValue::Array(a) => {
            let mut out: Vec<ContactRow> = Vec::new();
            let mut i: usize = 0;
            while i < a.len()
                invariant
                    i <= a@.len(),
                    *v == JsonValue::Array(*a),
                    forall|k: int| 0 <= k < i ==> (#[trigger] decode_contact(a@[k])) is Some,
                    out.deep_view() == a@.subrange(0, i as int).map_values(|x: JsonValue| decode_contact(x)->0),
                decreases a.len() - i,
            {
                match decode_contact_exec(&a[i]) {
                    Some(c) => {
                        let ghost before = out.deep_view();
                        out.push(c);
                        assert(out.deep_view() =~= before.push(decode_contact(a@[i as int])->0));
                    },
                    None => {
                        assert(decode_contact(a@[i as int]) is None);
                        return None;
                    },
                }
                i = i + 1;
                assert(out.deep_view() =~= a@.subrange(0, i as int).map_values(|x: JsonValue| decode_contact(x)->0));
            }
            assert(a@.subrange(0, i as int) =~= a@);
            Some(out)
        },
        _ => None,
    }
}

/// The contacts of a JSON text (see [`contacts_of_text`]).
pub fn contacts_from_text(t: &str) -> (r: Option<Vec<ContactRow>>)
    ensures
        r.deep_view() == contacts_of_text(t@),
{
    match parse_json(t) {
        Some(v) => decode_contacts_exec(&v),
        None => None,
    }
}

// ── The configuration ───────────────────────────────────────────────────────

/// Nothing to show: no listed contact and no host phone.
pub open spec fn config_is_empty(c: ConfigModel) -> bool {
    listed(c.contacts).len() == 0 && is_blank(c.host_visible_phone)
}

/// The configuration after reading the legacy slot: when there are no
/// contacts and the slot holds a contact list, its listed rows become the
/// contacts and the slot is cleared; otherwise nothing changes.
pub open spec fn migrated_config(c: ConfigModel) -> ConfigModel {
    if c.contacts.len() > 0 || is_blank(c.contacts_json) {
        c
    } else {
        match contacts_of_text(trim(c.contacts_json)) {
            Some(rows) => ConfigModel {
                contacts: listed(rows),
                contacts_json: Seq::empty(),
                host_visible_phone: c.host_visible_phone,
            },
            None => c,
        }
    }
}

impl ModuleConfig {
    /// The rows guests see: those with an id and a phone.
    pub fn parse_contacts(&self) -> (r: Vec<ContactRow>)
        ensures
            r.deep_view() == listed(self.contacts.deep_view()),
    {
        listed_rows(&self.contacts)
    }

    /// Nothing to show: no listed contact and no host phone.
    pub fn is_empty(&self) -> (r: bool)
        ensures
            r == config_is_empty(self.deep_view()),
    {
        self.parse_contacts().len() == 0 && blank(self.host_visible_phone.as_str())
    }

    /// Reads the legacy slot (see [`migrated_config`]).
    pub fn migrate_legacy(&mut self)
        ensures
            final(self).deep_view() == migrated_config(old(self).deep_view()),
    {
        if self.contacts.len() > 0 {
            return;
        }
        let raw = trim_str(self.contacts_json.as_str());
        if raw.unicode_len() == 0 {
            return;
        }
        match contacts_from_text(raw) {
            Some(rows) => {
                self.contacts = listed_rows(&rows);
                self.contacts_json = String::new();
            },
            None => {},
        }
    }
}

/// The emails that carry the host phone: no template named, `arrival`,
/// `arrival-day`, `post-arrival` and `lost-found`.
pub open spec fn phone_template(template: Option<Seq<char>>) -> bool {
    match template {
        None => true,
        Some(t) => t == "arrival"@ || t == "arrival-day"@ || t == "post-arrival"@ || t == "lost-found"@,
    }
}

/// Whether the email template (its wire id) carries the host phone.
pub fn template_wants_phone(template: Option<&str>) -> (r: bool)
    ensures
        r == phone_template(crate::access_guide::config::opt_view(template)),
{
    match template {
        None => true,
        Some(t) => str_eq(t, "arrival") || str_eq(t, "arrival-day") || str_eq(t, "post-arrival") || str_eq(
            t,
            "lost-found",
        ),
    }
}

/// The host phone for a guest email, when the template asks for it and one
/// is set (trimmed).
pub fn email_host_phone(template_wants_phone: bool, config: &ModuleConfig) -> (r: Option<String>)
    ensures
        r.deep_view() == (if template_wants_phone {
            nonempty_of(config.host_visible_phone@)
        } else {
            None
        }),
{
    if !template_wants_phone {
        return None;
    }
    nonempty_owned(config.host_visible_phone.as_str())
}

/// The `tel:` link of a phone: `tel:` and the number without whitespace.
pub open spec fn tel_link(phone: Seq<char>) -> Seq<char> {
    "tel:"@ + phone.filter(|c: char| !crate::text::is_ws(c))
}

/// The `tel:` link of a phone (see [`tel_link`]).
pub fn tel_url(phone: &str) -> (r: String)
    ensures
        r@ == tel_link(phone@),
{
    let c = crate::text::chars_of(phone);
    let mut digits = String::new();
    let mut i: usize = 0;
    while i < c.len()
        invariant
            c@ == phone@,
            i <= c@.len(),
            digits@ == c@.subrange(0, i as int).filter(|ch: char| !crate::text::is_ws(ch)),
        decreases c.len() - i,
    {
        proof {
            reveal(Seq::filter);
            assert(c@.subrange(0, i + 1).drop_last() =~= c@.subrange(0, i as int));
        }
        if !crate::text::char_is_ws(c[i]) {
            crate::text::push_char(&mut digits, c[i]);
        }
        i = i + 1;
    }
    assert(c@.subrange(0, i as int) =~= c@);
    let mut out = "tel:".to_owned();
    out.append(digits.as_str());
    out
}

} // verus!
