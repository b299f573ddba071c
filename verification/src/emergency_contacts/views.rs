//! What the guest sees of the emergency contacts, entry by entry: the
//! emergency banner, the host's phone, each contact, and the 112 link. Each
//! entry that calls carries its `tel:` link.

use vstd::prelude::*;

use crate::emergency_contacts::config::{
    config_is_empty, listed, tel_link, tel_url, ConfigModel, ContactModel, ContactRow, ModuleConfig,
};
use crate::emergency_contacts::commands::ContactInput;
use crate::emergency_contacts::localized::{localized_get, localized_pick};
use crate::text::{blank, is_blank, trim, trim_str};

verus! {

/// What a guest page is built from.
#[derive(Debug)]
pub struct GuestData {
    pub contacts: Vec<ContactRow>,
    /// The host's phone as shown (trimmed; empty when not shared).
    pub host_phone: String,
    pub locale: String,
}

/// One entry of the guest page, top to bottom.
#[derive(Debug, Clone)]
pub enum ContactEntry {
    /// The "in an emergency" banner.
    EmergencyBanner,
    /// A phone to call: the label, the number, the category and note when
    /// given, and the `tel:` link.
    Call { title: String, phone: String, leading: Option<String>, note: Option<String>, tel: String },
    /// The link that dials 112.
    Dial112 { tel: String },
}

/// [`ContactEntry`] with texts as sequences.
pub enum ContactEntryModel {
    EmergencyBanner,
    Call {
        title: Seq<char>,
        phone: Seq<char>,
        leading: Option<Seq<char>>,
        note: Option<Seq<char>>,
        tel: Seq<char>,
    },
    Dial112 { tel: Seq<char> },
}

impl DeepView for ContactEntry {
    type V = ContactEntryModel;

    open spec fn deep_view(&self) -> ContactEntryModel {
        match self {
            ContactEntry::EmergencyBanner => ContactEntryModel::EmergencyBanner,
            ContactEntry::Call { title, phone, leading, note, tel } => ContactEntryModel::Call {
                title: title@,
                phone: phone@,
                leading: leading.deep_view(),
                note: note.deep_view(),
                tel: tel@,
            },
            ContactEntry::Dial112 { tel } => ContactEntryModel::Dial112 { tel: tel@ },
        }
    }
}

/// The entry of one contact: its label and note in the guest's language
/// (French as fallback), the category when not blank.
pub open spec fn contact_entry(c: ContactModel, locale: Seq<char>) -> ContactEntryModel {
    ContactEntryModel::Call {
        title: localized_pick(c.label, locale, "fr"@),
        phone: c.phone,
        leading: match c.category {
            Some(k) => if is_blank(k) {
                None
            } else {
                Some(k)
            },
            None => None,
        },
        note: match c.note {
            Some(n) => if is_blank(localized_pick(n, locale, "fr"@)) {
                None
            } else {
                Some(localized_pick(n, locale, "fr"@))
            },
            None => None,
        },
        tel: tel_link(c.phone),
    }
}

/// The guest page: the banner and 112 link when asked for, the host's
/// phone when shared, then every contact in order.
pub open spec fn body_entries(
    contacts: Seq<ContactModel>,
    host_phone: Seq<char>,
    locale: Seq<char>,
    show_emergency_banner: bool,
) -> Seq<ContactEntryModel> {
    (if show_emergency_banner { seq![ContactEntryModel::EmergencyBanner] } else { Seq::empty() })
        + (if host_phone.len() == 0 {
        Seq::empty()
    } else {
        seq![ContactEntryModel::Call {
            title: "i18n:guest.host.label"@,
            phone: host_phone,
            leading: None,
            note: None,
            tel: tel_link(host_phone),
        }]
    }) + Seq::new(contacts.len(), |i: int| contact_entry(contacts[i], locale)) + (if show_emergency_banner {
        seq![ContactEntryModel::Dial112 { tel: tel_link("112"@) }]
    } else {
        Seq::empty()
    })
}

fn push_entry(entries: &mut Vec<ContactEntry>, e: ContactEntry)
    ensures
        final(entries).deep_view() == old(entries).deep_view().push(e.deep_view()),
{
    let ghost before = entries.deep_view();
    entries.push(e);
    assert(entries.deep_view() =~= before.push(e.deep_view()));
}

fn entry_of(contact: &ContactRow, locale: &str) -> (r: ContactEntry)
    ensures
        r.deep_view() == contact_entry(contact.deep_view(), locale@),
{
    let leading = match &contact.category {
        Some(k) => if blank(k.as_str()) {
            None
        } else {
            Some(k.clone())
        },
        None => None,
    };
    let note = match &contact.note {
        Some(n) => {
            let t = n.pick(locale);
            if blank(t.as_str()) {
                None
            } else {
                Some(t)
            }
        },
        None => None,
    };
    ContactEntry::Call {
        title: contact.label.pick(locale),
        phone: contact.phone.clone(),
        leading,
        note,
        tel: tel_url(contact.phone.as_str()),
    }
}

/// The guest page entries (see [`body_entries`]).
pub fn build_contacts_body(data: &GuestData, show_emergency_banner: bool) -> (r: Vec<ContactEntry>)
    ensures
        r.deep_view() == body_entries(
            data.contacts.deep_view(),
            data.host_phone@,
            data.locale@,
            show_emergency_banner,
        ),
{
    let ghost cs = data.contacts.deep_view();
    let mut out: Vec<ContactEntry> = Vec::new();
    if show_emergency_banner {
        push_entry(&mut out, ContactEntry::EmergencyBanner);
    }
    if data.host_phone.unicode_len() > 0 {
        push_entry(&mut out, ContactEntry::Call {
            title: "i18n:guest.host.label".to_owned(),
            phone: data.host_phone.clone(),
            leading: None,
            note: None,
            tel: tel_url(data.host_phone.as_str()),
        });
    }
    let ghost head = out.deep_view();
    let ghost each = Seq::new(cs.len(), |i: int| contact_entry(cs[i], data.locale@));
    let mut i: usize = 0;
    while i < data.contacts.len()
        invariant
            i <= data.contacts@.len(),
            cs == data.contacts.deep_view(),
            each == Seq::new(cs.len(), |i: int| contact_entry(cs[i], data.locale@)),
            out.deep_view() =~= head + each.subrange(0, i as int),
        decreases data.contacts.len() - i,
    {
        push_entry(&mut out, entry_of(&data.contacts[i], data.locale.as_str()));
        i = i + 1;
    }
    let ghost body = out.deep_view();
    if show_emergency_banner {
        push_entry(&mut out, ContactEntry::Dial112 { tel: tel_url("112") });
    }
    proof {
        assert(each.subrange(0, each.len() as int) =~= each);
        assert(out.deep_view() =~= body_entries(cs, data.host_phone@, data.locale@, show_emergency_banner));
    }
    out
}

/// What a guest page shows of a configuration: nothing when it is empty,
/// else the listed contacts and the trimmed host phone.
pub open spec fn guest_model(c: ConfigModel) -> Option<(Seq<ContactModel>, Seq<char>)> {
    if config_is_empty(c) {
        None
    } else {
        Some((listed(c.contacts), trim(c.host_visible_phone)))
    }
}

/// The guest page data of a stored configuration; `None` gives the empty
/// state (see [`guest_model`]).
pub fn load_guest_data(config: &ModuleConfig, locale: &str) -> (r: Option<GuestData>)
    ensures
        match guest_model(config.deep_view()) {
            None => r is None,
            Some((contacts, phone)) => r matches Some(d) && d.contacts.deep_view() == contacts
                && d.host_phone@ == phone && d.locale@ == locale@,
        },
{
    if config.is_empty() {
        return None;
    }
    Some(GuestData {
        contacts: config.parse_contacts(),
        host_phone: trim_str(config.host_visible_phone.as_str()).to_owned(),
        locale: locale.to_owned(),
    })
}

// ── Host form ───────────────────────────────────────────────────────────────

/// Contact slots of the host form.
pub const CONTACT_SLOTS: usize = 6;

/// The host form rows submitted for the listed contacts: each label in the
/// host's language and the phone.
pub open spec fn submitted_rows(contacts: Seq<ContactModel>, lang: Seq<char>) -> Seq<(Seq<char>, Seq<char>)> {
    Seq::new(contacts.len(), |i: int| (localized_get(contacts[i].label, lang), contacts[i].phone))
}

/// The host form rows of the listed contacts (see [`submitted_rows`]); the
/// French and English labels stay empty.
pub fn contacts_to_submit(contacts: &Vec<ContactRow>, lang: &str) -> (r: Vec<ContactInput>)
    ensures
        r@.len() == contacts@.len(),
        forall|i: int|
            0 <= i < r@.len() ==> (#[trigger] r@[i].label@, r@[i].phone@) == submitted_rows(contacts.deep_view(), lang@)[i]
                && r@[i].label_fr@.len() == 0 && r@[i].label_en@.len() == 0,
{
    let ghost d = contacts.deep_view();
    let mut out: Vec<ContactInput> = Vec::new();
    let mut i: usize = 0;
    while i < contacts.len()
        invariant
            i <= contacts@.len(),
            d == contacts.deep_view(),
            out@.len() == i,
            forall|k: int|
                0 <= k < i ==> (#[trigger] out@[k].label@, out@[k].phone@) == submitted_rows(d, lang@)[k]
                    && out@[k].label_fr@.len() == 0 && out@[k].label_en@.len() == 0,
        decreases contacts.len() - i,
    {
        let c = &contacts[i];
        out.push(ContactInput {
            label: c.label.get(lang).to_owned(),
            label_fr: String::new(),
            label_en: String::new(),
            phone: c.phone.clone(),
        });
        i = i + 1;
    }
    out
}

/// The host form's slots: label in the host's language and phone of each of
/// the first [`CONTACT_SLOTS`] listed contacts, empty for a free slot.
pub open spec fn slot_values(contacts: Seq<ContactModel>, lang: Seq<char>) -> Seq<(Seq<char>, Seq<char>)> {
    Seq::new(
        6,
        |k: int| if k < contacts.len() {
            (localized_get(contacts[k].label, lang), contacts[k].phone)
        } else {
            (Seq::empty(), Seq::empty())
        },
    )
}

/// The host form's slots (see [`slot_values`]).
pub fn contact_slots(contacts: &Vec<ContactRow>, lang: &str) -> (r: Vec<(String, String)>)
    ensures
        r.deep_view() == slot_values(contacts.deep_view(), lang@),
{
    let ghost d = contacts.deep_view();
    let mut out: Vec<(String, String)> = Vec::new();
    let mut k: usize = 0;
    while k < CONTACT_SLOTS
        invariant
            k <= 6,
            d == contacts.deep_view(),
            out.deep_view() =~= slot_values(d, lang@).subrange(0, k as int),
        decreases 6 - k,
    {
        let slot = if k < contacts.len() {
            (contacts[k].label.get(lang).to_owned(), contacts[k].phone.clone())
        } else {
            (String::new(), String::new())
        };
        let ghost before = out.deep_view();
        out.push(slot);
        assert(out.deep_view() =~= before.push((slot.0@, slot.1@)));
        k = k + 1;
    }
    out
}

} // verus!
