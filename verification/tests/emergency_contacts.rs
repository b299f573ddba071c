use portaki_modules::emergency_contacts::commands::{resolve_contacts, ContactInput, UpdateConfigArgs};
use portaki_modules::emergency_contacts::config::{email_host_phone, tel_url, template_wants_phone, ModuleConfig};
use portaki_modules::emergency_contacts::localized::Localized;
use portaki_modules::json::JsonValue;

fn config(phone: &str) -> ModuleConfig {
    ModuleConfig { contacts: Vec::new(), contacts_json: String::new(), host_visible_phone: phone.into() }
}

#[test]
fn when_arrival_then_returns_host_phone() {
    let out = email_host_phone(true, &config("+33 6 12 34 56 78"));
    assert_eq!(out.as_deref(), Some("+33 6 12 34 56 78"));
}

#[test]
fn when_wrong_template_then_empty() {
    assert!(email_host_phone(false, &config("+33 6 12 34 56 78")).is_none());
}

#[test]
fn localized_get_set_and_pick() {
    let mut l = Localized::singleton("fr-FR", "Pompiers".into());
    l.set("de", "Feuerwehr".into());
    assert_eq!(l.get("FR"), "Pompiers");
    assert_eq!(l.get("de_AT"), "Feuerwehr");
    assert_eq!(l.pick("it"), "Pompiers");
    assert_eq!(l.pick_with_fallback("en", "de"), "Feuerwehr");
    l.set("de", "  ".into());
    assert_eq!(l.get("de"), "");
    assert!(!l.is_empty());
    assert!(Localized::new().is_empty());
    let v = JsonValue::parse(r#"{"fr":" Police ","es":"Policía","x":3}"#).expect("json");
    let m = Localized::from_value(&v);
    assert_eq!(m.get("fr"), "Police");
    assert_eq!(m.get("es"), "Policía");
}

#[test]
fn legacy_contacts_migrate_once() {
    let mut c = config("");
    c.contacts_json = r#"[{"id":"c1","label":{"fr":"Médecin"},"phone":"15"},{"id":"","label":{},"phone":"1"}]"#.into();
    c.migrate_legacy();
    assert_eq!(c.contacts.len(), 1);
    assert_eq!(c.contacts[0].label.get("fr"), "Médecin");
    assert_eq!(c.contacts_json, "");
    assert!(!c.is_empty());
    assert_eq!(tel_url("+33 6 12"), "tel:+33612");
}

#[test]
fn form_rows_merge_over_stored_rows() {
    let args = UpdateConfigArgs {
        contacts: vec![
            ContactInput { label: " SAMU ".into(), phone: " 15 ".into(), ..ContactInput::default() },
            ContactInput { label: "".into(), label_fr: "".into(), label_en: "".into(), phone: "18".into() },
        ],
        contacts_json: String::new(),
        host_visible_phone: String::new(),
    };
    let rows = resolve_contacts(&args, &Vec::new(), "fr");
    assert_eq!(rows.len(), 1);
    assert_eq!(rows[0].id, "contact-1");
    assert_eq!(rows[0].phone, "15");
    assert_eq!(rows[0].label.get("fr"), "SAMU");
}

#[test]
fn host_phone_templates() {
    for t in ["arrival", "arrival-day", "post-arrival", "lost-found"] {
        assert!(template_wants_phone(Some(t)), "{t}");
    }
    assert!(template_wants_phone(None));
    assert!(!template_wants_phone(Some("stay-link")));
}

#[test]
fn set_then_get_reads_back_and_keeps_other_languages() {
    let mut loc = Localized::singleton("fr", "Bonjour".into());
    loc.set("de-CH", "Hallo".into());
    loc.set("it", "Ciao".into());
    assert_eq!(loc.get("de"), "Hallo");
    loc.set("DE", "  ".into());
    assert_eq!(loc.get("de"), "");
    assert!(loc.other.iter().all(|(k, _)| k != "de"));
    assert_eq!(loc.get("it"), "Ciao");
    assert_eq!(loc.get("fr-FR"), "Bonjour");
    loc.set("en", "  ".into());
    assert_eq!(loc.get("en"), "  ");
}
