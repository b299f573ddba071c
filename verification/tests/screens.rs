use portaki_modules::checklist::labels::ChecklistItem;
use portaki_modules::checklist::views::{build_home_card, host_item_slots, load_guest_checklist};
use portaki_modules::emergency_contacts::config::{ContactRow, ModuleConfig as ContactsConfig};
use portaki_modules::emergency_contacts::localized::Localized;
use portaki_modules::emergency_contacts::views::{
    build_contacts_body, contact_slots, contacts_to_submit, load_guest_data, ContactEntry, GuestData,
};
use portaki_modules::ev_parking::config::{
    host_form_args, optional_trimmed, update_config, ModuleConfig as ParkingConfig, RevealPolicy,
};

fn contact(id: &str, fr: &str, phone: &str) -> ContactRow {
    ContactRow {
        id: id.into(),
        label: Localized::singleton("fr", fr.into()),
        phone: phone.into(),
        note: None,
        category: None,
    }
}

#[test]
fn contacts_body_with_banner_host_and_112() {
    let mut pharmacy = contact("p", "Pharmacie", "01 23");
    pharmacy.category = Some("  ".into());
    pharmacy.note = Some(Localized::singleton("fr", "Ouverte 24h".into()));
    let data = GuestData { contacts: vec![pharmacy], host_phone: "06 00".into(), locale: "fr-FR".into() };
    let body = build_contacts_body(&data, true);
    assert_eq!(body.len(), 4);
    assert!(matches!(body[0], ContactEntry::EmergencyBanner));
    assert!(matches!(&body[1], ContactEntry::Call { title, tel, .. } if title == "i18n:guest.host.label" && tel == "tel:0600"));
    assert!(matches!(&body[2], ContactEntry::Call { title, leading, note, tel, .. }
        if title == "Pharmacie" && leading.is_none() && note.as_deref() == Some("Ouverte 24h") && tel == "tel:0123"));
    assert!(matches!(&body[3], ContactEntry::Dial112 { tel } if tel == "tel:112"));
    let plain = build_contacts_body(&GuestData { contacts: Vec::new(), host_phone: String::new(), locale: "fr".into() }, false);
    assert!(plain.is_empty());
}

#[test]
fn contacts_guest_data_of_config() {
    let empty = ContactsConfig { contacts: Vec::new(), contacts_json: String::new(), host_visible_phone: "  ".into() };
    assert!(load_guest_data(&empty, "fr").is_none());
    let cfg = ContactsConfig {
        contacts: vec![contact("a", "SAMU", "15"), contact("", "Sans id", "18")],
        contacts_json: String::new(),
        host_visible_phone: " 06 ".into(),
    };
    let d = load_guest_data(&cfg, "en").unwrap();
    assert_eq!(d.contacts.len(), 1);
    assert_eq!(d.host_phone, "06");
}

#[test]
fn contacts_host_form_values() {
    let rows = vec![contact("a", "SAMU", "15")];
    let submit = contacts_to_submit(&rows, "fr-FR");
    assert_eq!(submit.len(), 1);
    assert_eq!(submit[0].label, "SAMU");
    assert_eq!(submit[0].phone, "15");
    let slots = contact_slots(&rows, "fr");
    assert_eq!(slots.len(), 6);
    assert_eq!(slots[0], ("SAMU".to_string(), "15".to_string()));
    assert_eq!(slots[5], (String::new(), String::new()));
}

fn item(id: u128, fr: &str, order: i32) -> ChecklistItem {
    ChecklistItem { id, label_fr: fr.into(), label_en: String::new(), sort_order: order, created_at: 0 }
}

#[test]
fn checklist_home_card_progress_and_toggles() {
    assert!(load_guest_checklist(Vec::new(), vec![1], "fr", "fr").is_none());
    let data = load_guest_checklist(vec![item(1, "Vaisselle", 0), item(2, "Poubelles", 1), item(3, "Clés", 2)], vec![2, 9], "fr", "fr")
        .unwrap();
    assert_eq!((data.done, data.total, data.percent), (1, 3, 33));
    let card = build_home_card(&data);
    assert_eq!(card.progress, "1 / 3 — 33%");
    assert_eq!(card.rows.len(), 3);
    assert!(!card.rows[0].checked);
    assert!(card.rows[1].checked);
    assert_eq!(card.rows[1].label, "Poubelles");
}

#[test]
fn checklist_host_slots() {
    let slots = host_item_slots(&vec![item(1, "Vaisselle", 0)], "fr-FR");
    assert_eq!(slots, vec!["Vaisselle", "", "", "", "", ""]);
    let en = host_item_slots(&vec![item(1, "Vaisselle", 0)], "en");
    assert_eq!(en[0], "");
}

#[test]
fn parking_host_form_never_shows_secrets_and_keeps_them() {
    let cfg = ParkingConfig {
        spot_label: "B12".into(),
        charger_pin: "1234".into(),
        parking_code: "9876".into(),
        map_url: Some("https://m".into()),
        instructions: None,
        reveal_policy: RevealPolicy::AtCheckin,
    };
    let args = host_form_args(&cfg);
    assert_eq!(args.charger_pin, "");
    assert_eq!(args.parking_code, "");
    assert_eq!(args.map_url, "https://m");
    assert_eq!(args.instructions, "");
    let saved = update_config(&cfg, args);
    assert_eq!(saved.charger_pin, "1234");
    assert_eq!(saved.parking_code, "9876");
    assert_eq!(saved.map_url.as_deref(), Some("https://m"));
    assert_eq!(saved.instructions, None);
}

#[test]
fn optional_trimmed_drops_blank() {
    assert_eq!(optional_trimmed("  x "), Some("x".to_string()));
    assert_eq!(optional_trimmed("   "), None);
}
