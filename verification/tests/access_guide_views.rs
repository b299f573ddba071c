use portaki_modules::access_guide::config::{
    AccessStep, ArrivalGuide, BuildingAccess, DoorCodeTarget, MethodFields, ModuleConfig, ParkingLayer,
    PrimaryMethod, RevealPolicy,
};
use portaki_modules::access_guide::email::{door_code_label, locked_banner};
use portaki_modules::access_guide::texts::{guest_texts_order, ModuleTexts, StepText};
use portaki_modules::access_guide::views::{
    build_access_detail, build_access_glance, load_guest_data, maps_url, AccessRow, GuestCoords, GuestData,
};
use portaki_modules::timed_reveal::{format_available_from, RevealDecision};

const MASK: &str = "••••••";

fn keybox_config() -> ModuleConfig {
    ModuleConfig {
        primary_method: PrimaryMethod::Keybox,
        method: MethodFields::Keybox { location: " Porte ".into(), code: Some(" 4821 ".into()) },
        building_access: Some(BuildingAccess { gate_code: Some("A17".into()), intercom: None }),
        parking: Some(ParkingLayer { map_url: " https://plan.example ".into(), code: Some("P9".into()) }),
        ..ModuleConfig::default()
    }
}

fn data(config: ModuleConfig, texts: ModuleTexts, revealed: bool) -> GuestData {
    GuestData {
        config,
        texts,
        address: "1 rue A".into(),
        secrets_revealed: revealed,
        reveal_locked_message: Some("Plus tard".into()),
        meeting_coords_label: None,
        has_map: true,
        coords_maps_url: Some("https://maps.example/?q=1,2".into()),
    }
}

fn codes(rows: &[AccessRow]) -> Vec<(String, String)> {
    rows.iter()
        .filter_map(|r| match r {
            AccessRow::Code { key, value } => Some((key.clone(), value.clone())),
            _ => None,
        })
        .collect()
}

#[test]
fn locked_glance_masks_every_code() {
    let rows = build_access_glance(&data(keybox_config(), ModuleTexts::default(), false));
    assert!(matches!(&rows[0], AccessRow::InfoBanner { message, .. } if message == "Plus tard"));
    assert!(matches!(rows[1], AccessRow::PropertyMap));
    let shown = codes(&rows);
    assert_eq!(shown.len(), 3);
    assert!(shown.iter().all(|(_, v)| v == MASK));
    assert!(rows.iter().all(|r| !matches!(r, AccessRow::SmartLock { .. })));
    assert!(matches!(rows.last().unwrap(), AccessRow::OpenMaps { url } if url == "https://plan.example"));
}

#[test]
fn revealed_glance_shows_trimmed_codes() {
    let rows = build_access_glance(&data(keybox_config(), ModuleTexts::default(), true));
    assert!(!rows.iter().any(|r| matches!(r, AccessRow::InfoBanner { .. })));
    let shown = codes(&rows);
    assert_eq!(
        shown,
        vec![
            ("i18n:guest.keybox.code".to_string(), "4821".to_string()),
            ("i18n:guest.building.gateCode".to_string(), "A17".to_string()),
            ("i18n:guest.parking.code".to_string(), "P9".to_string()),
        ]
    );
}

#[test]
fn smart_lock_offers_commands_only_once_revealed() {
    let config = ModuleConfig {
        primary_method: PrimaryMethod::SmartLock,
        method: MethodFields::SmartLock { manual_code: Some("1234".into()) },
        smart_lock_provider_module_id: Some(" nuki ".into()),
        ..ModuleConfig::default()
    };
    let texts = ModuleTexts { method_instructions: Some("Badge".into()), ..ModuleTexts::default() };
    let locked = build_access_glance(&data(config.clone(), texts.clone(), false));
    assert!(!locked.iter().any(|r| matches!(r, AccessRow::SmartLock { .. })));
    let open = build_access_glance(&data(config, texts, true));
    let providers: Vec<(String, bool)> = open
        .iter()
        .filter_map(|r| match r {
            AccessRow::SmartLock { provider, credential } => Some((provider.clone(), *credential)),
            _ => None,
        })
        .collect();
    assert_eq!(providers, vec![("nuki".to_string(), false), ("nuki".to_string(), true)]);
    // With a provider the card leaves the instructions to the full page.
    assert!(!open.iter().any(|r| matches!(r, AccessRow::KeyValue { key, .. } if key == "i18n:guest.instructions")));
}

#[test]
fn detail_adds_note_video_and_steps() {
    let mut config = ModuleConfig {
        primary_method: PrimaryMethod::DoorCode,
        method: MethodFields::DoorCode { target: DoorCodeTarget::Gate, code: "77".into() },
        ..ModuleConfig::default()
    };
    config.arrival = ArrivalGuide {
        address: String::new(),
        steps: vec![
            AccessStep { id: "1".into(), kind: Some("parking".into()) },
            AccessStep { id: "2".into(), kind: None },
        ],
        arrival_video_url: " https://v.example ".into(),
    };
    let texts = ModuleTexts {
        global_note: " Bienvenue ".into(),
        steps: vec![
            StepText { id: "1".into(), title: " Se garer ".into(), detail: Some(" Niveau -1 ".into()) },
            StepText { id: "2".into(), title: "  ".into(), detail: None },
        ],
        ..ModuleTexts::default()
    };
    let mut d = data(config, texts, true);
    d.has_map = false;
    d.address = String::new();
    let rows = build_access_detail(&d);
    assert!(matches!(&rows[0], AccessRow::InfoBanner { title, message }
        if title == "i18n:guest.note.title" && message == "Bienvenue"));
    assert!(matches!(&rows[1], AccessRow::KeyValue { value, .. } if value == "i18n:guest.doorCode.gate"));
    assert!(rows.iter().any(|r| matches!(r, AccessRow::Video { url } if url == "https://v.example")));
    let steps: Vec<&AccessRow> = rows.iter().filter(|r| matches!(r, AccessRow::Step { .. })).collect();
    assert_eq!(steps.len(), 1);
    assert!(matches!(steps[0], AccessRow::Step { title, badge, detail }
        if title == "Se garer" && badge == "i18n:host.step.kind.parking" && detail.as_deref() == Some("Niveau -1")));
}

#[test]
fn maps_url_prefers_the_parking_plan() {
    let d = data(keybox_config(), ModuleTexts::default(), true);
    assert_eq!(maps_url(&d).as_deref(), Some("https://plan.example"));
    let mut other = data(ModuleConfig::default(), ModuleTexts::default(), true);
    other.coords_maps_url = None;
    assert_eq!(maps_url(&other), None);
}

#[test]
fn load_guest_data_picks_address_and_decision() {
    let coords = || GuestCoords { meeting_coords_label: None, has_map: false, maps_url: None };
    assert!(load_guest_data(
        ModuleConfig::default(),
        ModuleTexts::default(),
        None,
        false,
        0,
        None,
        "UTC",
        coords()
    )
    .is_none());
    let mut config = keybox_config();
    config.reveal_policy = RevealPolicy::AtCheckin;
    let d = load_guest_data(config, ModuleTexts::default(), Some("2 av B".into()), true, 100, Some(200), "UTC", coords())
        .unwrap();
    assert_eq!(d.address, "2 av B");
    assert!(!d.secrets_revealed);
    // 200 s after the epoch, in UTC.
    assert_eq!(d.reveal_locked_message.as_deref(), Some("Available from 01/01/1970 00:03."));
}

#[test]
fn available_from_is_local_time() {
    // 2024-07-01 14:00 UTC is 16:00 in Paris (summer time).
    assert_eq!(format_available_from(1_719_842_400, "Europe/Paris").as_deref(), Some("01/07/2024 16:00"));
    assert_eq!(format_available_from(1_719_842_400, "UTC").as_deref(), Some("01/07/2024 14:00"));
}

#[test]
fn locked_banner_only_while_hidden() {
    let open = RevealDecision { revealed: true, available_from: Some(0) };
    assert_eq!(locked_banner(&open, "UTC", false), None);
    let hidden = RevealDecision { revealed: false, available_from: None };
    assert!(locked_banner(&hidden, "UTC", false).is_some());
}

#[test]
fn door_code_labels() {
    assert_eq!(door_code_label(DoorCodeTarget::Gate, true), "Gate code");
    assert_eq!(door_code_label(DoorCodeTarget::Apartment, false), "Code appartement");
}

#[test]
fn guest_texts_are_tried_in_fallback_order() {
    let keys = vec!["texts/it".to_string(), "other".to_string(), "texts/de".to_string(), "texts/fr".to_string(), "texts/".to_string()];
    assert_eq!(guest_texts_order("en-GB", "fr-FR", &keys), vec!["en", "fr", "de", "it"]);
    assert_eq!(guest_texts_order("de", "de", &Vec::new()), vec!["de", "fr"]);
}
