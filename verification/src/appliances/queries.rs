//! What the appliances module reads back from and writes to its stored row:
//! the content a host tool asks for, and the row text after one language's
//! payload is saved.

use vstd::prelude::*;

use crate::appliances::bundle::{bundle_json, bundle_pick, row_bundle, synced_bundle, AppliancesBundle, BundleModel};
use crate::appliances::codec::payload_json;
use crate::appliances::content::{Appliance, ApplianceModel, AppliancesPayload};
use crate::json::json_text;
use crate::keyed::{key_insert, keys_sorted};
use crate::text::lang_code_of;

verus! {

/// The content of one language with the stored slots.
#[derive(Debug)]
pub struct AppliancesContentView {
    pub devices: Vec<Appliance>,
    pub safety_notice: String,
    /// The language's payload as JSON text.
    pub content: String,
    pub content_fr: String,
    pub content_en: String,
}

/// The content a host tool gets: the payload picked for the locale from the
/// stored row (an absent row reads as two empty slots), its JSON text, and
/// the raw slots.
pub fn get_content(row: Option<(String, String)>, locale: &str, property_locale: &str) -> (r: AppliancesContentView)
    ensures
        ({
            let (fr, en) = match row {
                Some((a, b)) => (a@, b@),
                None => (Seq::<char>::empty(), Seq::<char>::empty()),
            };
            let p = bundle_pick(row_bundle(fr, en), locale@, property_locale@);
            &&& r.devices.deep_view() == p.devices
            &&& r.safety_notice@ == p.safety_notice
            &&& r.content@ == json_text(payload_json(p))
            &&& r.content_fr@ == fr
            &&& r.content_en@ == en
        }),
{
    let (content_fr, content_en) = match row {
        Some((a, b)) => (a, b),
        None => (String::new(), String::new()),
    };
    let payload = AppliancesBundle::from_row(content_fr.as_str(), content_en.as_str()).pick(locale, property_locale);
    let content = match payload.to_json_string() {
        Ok(s) => s,
        Err(_) => content_fr.clone(),
    };
    AppliancesContentView {
        devices: payload.devices,
        safety_notice: payload.safety_notice,
        content,
        content_fr,
        content_en,
    }
}

/// The bundle after saving one language's payload: the payload stored under
/// the locale's language, then every language aligned on its devices.
pub open spec fn saved_bundle(b: BundleModel, locale: Seq<char>, p: crate::appliances::content::PayloadModel) -> BundleModel {
    synced_bundle(key_insert(b, lang_code_of(locale), p), p.devices)
}

/// The row text after saving one language's payload into the stored bundle
/// (see [`saved_bundle`]); the English slot is emptied by the caller.
pub fn save_payload_for(bundle: AppliancesBundle, locale: &str, payload: &AppliancesPayload) -> (r: String)
    requires
        keys_sorted(bundle.deep_view()),
    ensures
        r@ == json_text(bundle_json(saved_bundle(bundle.deep_view(), locale@, payload.deep_view()))),
{
    let mut b = bundle;
    b.set(locale, payload.duplicate());
    b.sync_shared_from(payload);
    match b.to_json_string() {
        Ok(s) => s,
        Err(_) => String::new(),
    }
}

} // verus!
