use portaki_modules::access_guide::commands::UpdateConfigArgs;
use portaki_modules::access_guide::config::{
    migrate_legacy, ArrivalGuide, BuildingAccess, MethodFields, ModuleConfig, ParkingLayer, PrimaryMethod,
    RawConfig, RawStep, RevealPolicy,
};
use portaki_modules::access_guide::texts::{extract_embedded_texts, ModuleTexts, StepText};
use portaki_modules::access_guide::views::{
    build_access_detail, build_access_glance, load_guest_data, AccessRow, GuestCoords, GuestData,
};
use portaki_modules::access_guide::host::host_form;
use portaki_modules::json::JsonValue;

/// 2025-06-15T12:00:00Z.
const NOW: i64 = 1_749_988_800;
const MASK: &str = "••••••";

fn coords() -> GuestCoords {
    GuestCoords {
        meeting_coords_label: None,
        has_map: true,
        maps_url: Some("https://www.google.com/maps/search/?api=1&query=43.5,7.1".into()),
    }
}

fn guest(config: ModuleConfig, texts: ModuleTexts, checkin: Option<i64>) -> GuestData {
    load_guest_data(config, texts, None, false, NOW, checkin, "Europe/Paris", coords()).expect("content")
}

/// The legacy stored document of the sample configuration.
const SAMPLE_DOC: &str = r#"{"address":"Ch. des Douaniers","gate_code":"A17B","keybox_code":"4821","parking_info":"Résident · rue Aubernon","parking_map_url":"https://maps.example.com","arrival_video_url":"https://video.example.com","global_note":"Sonnette à gauche","steps_json":"[{\"id\":\"1\",\"kind\":\"parking\",\"title\":{\"fr\":\"Se garer\",\"en\":\"Park\"},\"detail\":{\"fr\":\"Place résident\",\"en\":\"Resident spot\"}}]"}"#;

fn sample_guest() -> GuestData {
    let raw = RawConfig {
        address: "Ch. des Douaniers".into(),
        gate_code: "A17B".into(),
        keybox_code: "4821".into(),
        parking_info: "Résident · rue Aubernon".into(),
        parking_map_url: "https://maps.example.com".into(),
        arrival_video_url: "https://video.example.com".into(),
        global_note: "Sonnette à gauche".into(),
        steps_json: r#"[{"id":"1","kind":"parking","title":{"fr":"Se garer","en":"Park"},"detail":{"fr":"Place résident","en":"Resident spot"}}]"#.into(),
        ..RawConfig::default()
    };
    let doc = JsonValue::parse(SAMPLE_DOC).expect("config json");
    let (texts_fr, _) = extract_embedded_texts(&doc);
    guest(migrate_legacy(raw), texts_fr, None)
}

fn always_reveal_config() -> ModuleConfig {
    migrate_legacy(RawConfig {
        primary_method: Some(PrimaryMethod::Keybox),
        method: Some(MethodFields::Keybox { location: "À droite de la porte".into(), code: Some("4821".into()) }),
        building_access: Some(BuildingAccess { gate_code: Some("A17B".into()), intercom: None }),
        parking: Some(ParkingLayer { map_url: "https://maps.example.com".into(), code: None }),
        arrival: Some(ArrivalGuide {
            address: "Ch. des Douaniers".into(),
            steps: Vec::new(),
            arrival_video_url: "https://video.example.com".into(),
        }),
        steps: vec![RawStep { id: "1".into(), kind: Some("parking".into()) }],
        reveal_policy: Some(RevealPolicy::Always),
        ..RawConfig::default()
    })
}

fn always_reveal_texts_fr() -> ModuleTexts {
    ModuleTexts {
        parking_info: "Rue A".into(),
        global_note: "Sonnette à gauche".into(),
        steps: vec![StepText { id: "1".into(), title: "Se garer".into(), detail: Some("Place résident".into()) }],
        ..ModuleTexts::default()
    }
}

fn smart_lock_config(provider: Option<&str>, policy: RevealPolicy) -> ModuleConfig {
    migrate_legacy(RawConfig {
        primary_method: Some(PrimaryMethod::SmartLock),
        method: Some(MethodFields::SmartLock { manual_code: Some("9999".into()) }),
        arrival: Some(ArrivalGuide { address: "1 rue Test".into(), steps: Vec::new(), arrival_video_url: String::new() }),
        reveal_policy: Some(policy),
        smart_lock_provider_module_id: provider.map(|p| p.to_string()),
        ..RawConfig::default()
    })
}

fn smart_lock_texts_fr() -> ModuleTexts {
    ModuleTexts { method_instructions: Some("Appuyer sur unlock".into()), ..ModuleTexts::default() }
}

fn shows(rows: &[AccessRow], text: &str) -> bool {
    rows.iter().any(|r| match r {
        AccessRow::InfoBanner { title, message } => title.contains(text) || message.contains(text),
        AccessRow::KeyValue { key, value, .. } | AccessRow::Code { key, value } => {
            key.contains(text) || value.contains(text)
        }
        AccessRow::SmartLock { provider, .. } => provider.contains(text),
        AccessRow::OpenMaps { url } | AccessRow::Video { url } => url.contains(text),
        AccessRow::Step { title, badge, detail } => {
            title.contains(text) || badge.contains(text) || detail.as_deref().is_some_and(|d| d.contains(text))
        }
        AccessRow::PropertyMap => false,
    })
}

fn smart_lock_commands(rows: &[AccessRow]) -> Vec<(String, bool)> {
    rows.iter()
        .filter_map(|r| match r {
            AccessRow::SmartLock { provider, credential } => Some((provider.clone(), *credential)),
            _ => None,
        })
        .collect()
}

#[test]
fn home_card_empty_without_config() {
    let data = load_guest_data(
        ModuleConfig::default(),
        ModuleTexts::default(),
        None,
        false,
        NOW,
        None,
        "Europe/Paris",
        coords(),
    );
    assert!(data.is_none());
}

#[test]
fn home_card_masks_secrets_without_stay() {
    let rows = build_access_glance(&sample_guest());
    assert!(rows.iter().any(|r| matches!(r, AccessRow::KeyValue { .. } | AccessRow::Code { .. })));
    assert!(rows.iter().any(|r| matches!(r, AccessRow::OpenMaps { .. })));
    assert!(rows.iter().any(|r| matches!(r, AccessRow::PropertyMap)));
    assert!(rows.iter().any(|r| matches!(r, AccessRow::InfoBanner { .. })));
    assert!(shows(&rows, "i18n:guest.method"));
    assert!(!shows(&rows, "4821"));
    assert!(!shows(&rows, "A17B"));
    assert!(rows.iter().any(|r| matches!(r, AccessRow::Code { value, .. } if value == MASK)));
}

#[test]
fn home_card_emits_keybox_location_i18n_when_configured() {
    let rows = build_access_glance(&guest(always_reveal_config(), always_reveal_texts_fr(), None));
    assert!(rows.iter().any(|r| matches!(r, AccessRow::KeyValue { key, value, .. }
        if key == "i18n:guest.keybox.location" && value == "À droite de la porte")));
    assert!(rows.iter().any(|r| matches!(r, AccessRow::Code { key, .. } if key == "i18n:guest.keybox.code")));
}

#[test]
fn home_card_reveals_secrets_when_policy_always() {
    let rows = build_access_glance(&guest(always_reveal_config(), always_reveal_texts_fr(), None));
    assert!(shows(&rows, "4821"));
    assert!(shows(&rows, "A17B"));
    assert!(!shows(&rows, MASK));
}

#[test]
fn detail_has_steps_and_video() {
    let rows = build_access_detail(&guest(always_reveal_config(), always_reveal_texts_fr(), None));
    assert!(rows.iter().any(|r| matches!(r, AccessRow::Step { badge, .. } if !badge.is_empty())));
    assert!(rows.iter().any(|r| matches!(r, AccessRow::Video { url } if url == "https://video.example.com")));
    assert!(shows(&rows, "Se garer"));
}

#[test]
fn smart_lock_provider_emits_unlock_commands_when_revealed() {
    let rows = build_access_detail(&guest(smart_lock_config(Some("nuki"), RevealPolicy::Always), smart_lock_texts_fr(), None));
    assert_eq!(smart_lock_commands(&rows), vec![("nuki".to_string(), false), ("nuki".to_string(), true)]);
    assert!(shows(&rows, "9999"));
}

#[test]
fn smart_lock_without_provider_shows_manual_fallback_only() {
    let rows = build_access_detail(&guest(smart_lock_config(None, RevealPolicy::Always), smart_lock_texts_fr(), None));
    assert!(shows(&rows, "9999"));
    assert!(shows(&rows, "Appuyer sur unlock"));
    assert!(smart_lock_commands(&rows).is_empty());
}

#[test]
fn smart_lock_provider_hides_cta_when_not_revealed() {
    let checkin = 4_070_962_800; // 2099-01-01T15:00:00Z
    let rows = build_access_glance(&guest(
        smart_lock_config(Some("nuki"), RevealPolicy::AtCheckin),
        ModuleTexts::default(),
        Some(checkin),
    ));
    assert!(smart_lock_commands(&rows).is_empty());
    assert!(!shows(&rows, "9999"));
    assert!(rows.iter().any(|r| matches!(r, AccessRow::Code { value, .. } if value == MASK)));
}

#[test]
fn host_main_prefills_the_flat_fields() {
    let form = host_form(&always_reveal_config(), &always_reveal_texts_fr());
    assert_eq!(form.address, "Ch. des Douaniers");
    assert_eq!(form.gate_code, "A17B");
    assert_eq!(form.keybox_code, "4821");
    assert_eq!(form.parking_info, "Rue A");
    assert_eq!(form.parking_map_url, "https://maps.example.com");
    assert_eq!(form.arrival_video_url, "https://video.example.com");
    assert_eq!(form.global_note, "Sonnette à gauche");
    let steps = JsonValue::parse(&form.steps_json).expect("steps json");
    match steps {
        JsonValue::Array(items) => {
            assert_eq!(items.len(), 1);
            assert!(form.steps_json.contains("\"title\":\"Se garer\""));
            assert!(form.steps_json.contains("\"kind\":\"parking\""));
        }
        _ => panic!("expected a list"),
    }
    let empty = host_form(&ModuleConfig::default(), &ModuleTexts::default());
    assert_eq!(empty.gate_code, "");
    assert_eq!(empty.steps_json, "[]");
}

#[test]
fn update_config_legacy_args_migrate_to_new_shape() {
    let args = UpdateConfigArgs { address: "Rue X".into(), gate_code: "1".into(), ..UpdateConfigArgs::default() };
    let (config, _) = args.into_config_and_texts((None, None));
    assert_eq!(config.arrival.address, "Rue X");
    assert_eq!(config.primary_method, PrimaryMethod::DoorCode);
    assert_eq!(config.reveal_policy, RevealPolicy::DayBefore16h);
    match &config.method {
        MethodFields::DoorCode { code, .. } => assert_eq!(code, "1"),
        other => panic!("expected DoorCode, got {other:?}"),
    }
}

#[test]
fn load_legacy_kv_migrates_keybox_primary_and_seeds_texts_fr() {
    let raw = RawConfig {
        address: "Ch. des Douaniers".into(),
        gate_code: "A17B".into(),
        keybox_code: "4821".into(),
        parking_info: "Résident · rue Aubernon".into(),
        parking_map_url: "https://maps.example.com".into(),
        arrival_video_url: "https://video.example.com".into(),
        global_note: "Sonnette à gauche".into(),
        steps_json: r#"[{"id":"1","kind":"parking","title":{"fr":"Se garer","en":"Park"},"detail":{"fr":"Place résident","en":"Resident spot"}}]"#.into(),
        ..RawConfig::default()
    };
    let config = migrate_legacy(raw);
    assert_eq!(config.primary_method, PrimaryMethod::Keybox);
    assert_eq!(config.keybox_code(), Some("4821"));
    assert_eq!(config.building_access.as_ref().and_then(|b| b.gate_code.as_deref()), Some("A17B"));
    assert_eq!(config.reveal_policy, RevealPolicy::DayBefore16h);
    assert_eq!(config.parse_steps().len(), 1);
    assert_eq!(portaki_modules::access_guide::texts::lang_code("fr"), "fr");
    let doc = JsonValue::parse(SAMPLE_DOC).expect("config json");
    assert!(portaki_modules::access_guide::config::document_has_embedded_texts(&doc));
    let (texts, _) = extract_embedded_texts(&doc);
    assert_eq!(texts.global_note, "Sonnette à gauche");
    assert_eq!(texts.parking_info, "Résident · rue Aubernon");
    assert_eq!(texts.steps[0].title, "Se garer");
}

#[test]
fn update_config_saves_texts_for_active_locale() {
    let lang = portaki_modules::access_guide::texts::lang_code("en-US");
    assert_eq!(lang, "en");
    let args = UpdateConfigArgs {
        primary_method: Some(PrimaryMethod::Other),
        other_instructions: "Ring the bell".into(),
        global_note: "Note EN".into(),
        ..UpdateConfigArgs::default()
    };
    let (_, texts) = args.into_config_and_texts((None, None));
    assert_eq!(texts.method_instructions.as_deref(), Some("Ring the bell"));
    assert_eq!(texts.global_note, "Note EN");
    assert!(!texts.is_empty());
}
