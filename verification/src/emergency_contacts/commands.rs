//! The host form of the emergency contacts: rows edited in the host's
//! language, or a pasted JSON list.

use vstd::prelude::*;

use crate::emergency_contacts::config::{
    contacts_from_text, contacts_of_text, listed, listed_rows, ContactModel, ContactRow,
    ModuleConfig,
};
use crate::emergency_contacts::localized::{
    empty_localized, localized_is_empty, localized_set, localized_wf, Localized, LocalizedModel,
};
use crate::text::{blank, decimal_of, is_blank, push_decimal, trim, trim_str};

verus! {

/// One row of the host form.
#[derive(Debug, Default)]
pub struct ContactInput {
    pub label: String,
    pub label_fr: String,
    pub label_en: String,
    pub phone: String,
}

/// The host form.
#[derive(Debug)]
pub struct UpdateConfigArgs {
    pub contacts: Vec<ContactInput>,
    pub contacts_json: String,
    pub host_visible_phone: String,
}

/// Labels of a form row over the previous ones: the single label sets the
/// host's language; without it, the French and English labels set theirs.
pub open spec fn merged_label(base: LocalizedModel, input: ContactInput, lang: Seq<char>) -> LocalizedModel {
    if !is_blank(input.label@) {
        localized_set(base, lang, trim(input.label@))
    } else {
        let a = if !is_blank(input.label_fr@) {
            localized_set(base, "fr"@, trim(input.label_fr@))
        } else {
            base
        };
        if !is_blank(input.label_en@) {
            localized_set(a, "en"@, trim(input.label_en@))
        } else {
            a
        }
    }
}

/// The contact a form row at `index` becomes over the row stored at that
/// position: none without a phone or without any label; the stored id (else
/// `contact-N`, N from 1), note and category are kept.
pub open spec fn merged_contact(
    input: ContactInput,
    previous: Option<ContactModel>,
    index: int,
    lang: Seq<char>,
) -> Option<ContactModel> {
    let base = match previous {
        Some(p) => p.label,
        None => empty_localized(),
    };
    let label = merged_label(base, input, lang);
    if is_blank(input.phone@) || localized_is_empty(label) {
        None
    } else {
        Some(
            ContactModel {
                id: match previous {
                    Some(p) => p.id,
                    None => "contact-"@ + decimal_of((index + 1) as nat),
                },
                label: label,
                phone: trim(input.phone@),
                note: match previous {
                    Some(p) => p.note,
                    None => None,
                },
                category: match previous {
                    Some(p) => p.category,
                    None => None,
                },
            },
        )
    }
}

/// The contacts of the form rows, in order.
pub open spec fn merged_rows(inputs: Seq<ContactInput>, existing: Seq<ContactModel>, lang: Seq<char>) -> Seq<
    ContactModel,
>
    decreases inputs.len(),
{
    if inputs.len() == 0 {
        Seq::empty()
    } else {
        let k = inputs.len() - 1;
        let prev = if k < existing.len() {
            Some(existing[k])
        } else {
            None
        };
        merged_rows(inputs.drop_last(), existing, lang) + match merged_contact(inputs.last(), prev, k, lang) {
            Some(c) => seq![c],
            None => Seq::empty(),
        }
    }
}

/// The contacts the form stores: its rows when it has some, else the listed
/// rows of the pasted JSON list (none when blank or not a list).
pub open spec fn resolved_contacts(
    inputs: Seq<ContactInput>,
    contacts_json: Seq<char>,
    existing: Seq<ContactModel>,
    lang: Seq<char>,
) -> Seq<ContactModel> {
    if inputs.len() > 0 {
        merged_rows(inputs, existing, lang)
    } else if is_blank(contacts_json) {
        Seq::empty()
    } else {
        match contacts_of_text(trim(contacts_json)) {
            Some(rows) => listed(rows),
            None => Seq::empty(),
        }
    }
}

/// Labels of every stored row keep their languages in code order.
pub open spec fn labels_wf(rows: Seq<ContactModel>) -> bool {
    forall|i: int| 0 <= i < rows.len() ==> localized_wf(#[trigger] rows[i].label)
}

/// The contact a form row becomes (see [`merged_contact`]).
pub fn merge_contact(input: &ContactInput, previous: Option<&ContactRow>, index: usize, lang: &str) -> (r: Option<
    ContactRow,
>)
    requires
        index < usize::MAX,
        previous matches Some(p) ==> localized_wf(p.label.deep_view()),
    ensures
        r.deep_view() == merged_contact(
            *input,
            match previous {
                Some(p) => Some(p.deep_view()),
                None => None,
            },
            index as int,
            lang@,
        ),
{
    let phone = trim_str(input.phone.as_str());
    let mut label = match previous {
        Some(p) => p.label.duplicate(),
        None => Localized::new(),
    };
    let single = trim_str(input.label.as_str());
    if single.unicode_len() > 0 {
        label.set(lang, single.to_owned());
    } else {
        if !blank(input.label_fr.as_str()) {
            label.set("fr", trim_str(input.label_fr.as_str()).to_owned());
        }
        if !blank(input.label_en.as_str()) {
            label.set("en", trim_str(input.label_en.as_str()).to_owned());
        }
    }
    if phone.unicode_len() == 0 || label.is_empty() {
        return None;
    }
    let id = match previous {
        Some(p) => p.id.clone(),
        None => {
            let mut s = "contact-".to_owned();
            push_decimal(&mut s, index + 1);
            s
        },
    };
    Some(ContactRow {
        id,
        label,
        phone: phone.to_owned(),
        note: match previous {
            Some(p) => match &p.note {
                Some(n) => Some(n.duplicate()),
                None => None,
            },
            None => None,
        },
        category: match previous {
            Some(p) => p.category.clone(),
            None => None,
        },
    })
}

/// The contacts the form stores (see [`resolved_contacts`]).
pub fn resolve_contacts(args: &UpdateConfigArgs, existing: &Vec<ContactRow>, lang: &str) -> (r: Vec<ContactRow>)
    requires
        labels_wf(existing.deep_view()),
    ensures
        r.deep_view() == resolved_contacts(args.contacts@, args.contacts_json@, existing.deep_view(), lang@),
{
    if args.contacts.len() > 0 {
        let ghost ex = existing.deep_view();
        let mut out: Vec<ContactRow> = Vec::new();
        let mut i: usize = 0;
        while i < args.contacts.len()
            invariant
                i <= args.contacts@.len(),
                ex == existing.deep_view(),
                labels_wf(ex),
                out.deep_view() == merged_rows(args.contacts@.subrange(0, i as int), ex, lang@),
            decreases args.contacts.len() - i,
        {
            assert(args.contacts@.subrange(0, i + 1).drop_last() =~= args.contacts@.subrange(0, i as int));
            let prev = if i < existing.len() {
                Some(&existing[i])
            } else {
                None
            };
            proof {
                if i < ex.len() {
                    assert(localized_wf(ex[i as int].label));
                }
            }
            let ghost before = out.deep_view();
            match merge_contact(&args.contacts[i], prev, i, lang) {
                Some(c) => {
                    out.push(c);
                    assert(out.deep_view() =~= before.push(c.deep_view()));
                },
                None => {},
            }
            i = i + 1;
            assert(out.deep_view() =~= merged_rows(args.contacts@.subrange(0, i as int), ex, lang@));
        }
        assert(args.contacts@.subrange(0, i as int) =~= args.contacts@);
        return out;
    }
    let raw = trim_str(args.contacts_json.as_str());
    if raw.unicode_len() == 0 {
        return Vec::new();
    }
    match contacts_from_text(raw) {
        Some(rows) => listed_rows(&rows),
        None => Vec::new(),
    }
}

/// The configuration the host form stores: the resolved contacts, the legacy
/// slot cleared, the host phone as given.
pub fn update_config(args: &UpdateConfigArgs, existing: &ModuleConfig, lang: &str) -> (r: ModuleConfig)
    requires
        labels_wf(existing.contacts.deep_view()),
    ensures
        r.contacts.deep_view() == resolved_contacts(
            args.contacts@,
            args.contacts_json@,
            existing.contacts.deep_view(),
            lang@,
        ),
        r.contacts_json@ == Seq::<char>::empty(),
        r.host_visible_phone@ == args.host_visible_phone@,
{
    ModuleConfig {
        contacts: resolve_contacts(args, &existing.contacts, lang),
        contacts_json: String::new(),
        host_visible_phone: args.host_visible_phone.clone(),
    }
}

} // verus!
