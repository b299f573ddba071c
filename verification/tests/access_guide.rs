use portaki_modules::access_guide::commands::{entry_codes_changed, entry_codes_fingerprint, StepInput, UpdateConfigArgs};
use portaki_modules::access_guide::config::{
    migrate_legacy, AccessStep, ArrivalGuide, BuildingAccess, DoorCodeTarget, MethodFields,
    ModuleConfig, PrimaryMethod, RawConfig, RawStep, RevealPolicy,
};
use portaki_modules::access_guide::email::{build_email_context, EmailContextResponse};
use portaki_modules::access_guide::texts::{
    extract_embedded_texts, first_nonempty_texts, lang_code, should_seed_texts, ModuleTexts, StepText,
};
use portaki_modules::json::JsonValue;

#[test]
fn migrate_keybox_wins_and_gate_becomes_building_access() {
    let raw = RawConfig {
        keybox_code: "4821".into(),
        gate_code: "A17B".into(),
        parking_info: "Rue A".into(),
        parking_map_url: "https://maps.example.com".into(),
        address: "Ch. des Douaniers".into(),
        arrival_video_url: "https://video.example.com".into(),
        global_note: "Sonnette".into(),
        steps_json: r#"[{"id":"1","kind":"parking","title":{"fr":"Se garer","en":"Park"}}]"#.into(),
        ..RawConfig::default()
    };
    let cfg = migrate_legacy(raw);
    assert_eq!(cfg.primary_method, PrimaryMethod::Keybox);
    assert_eq!(cfg.keybox_code(), Some("4821"));
    assert_eq!(cfg.building_access.as_ref().and_then(|b| b.gate_code.as_deref()), Some("A17B"));
    assert!(cfg.parking.is_some());
    assert_eq!(cfg.arrival.address, "Ch. des Douaniers");
    assert_eq!(cfg.parse_steps().len(), 1);
    assert_eq!(cfg.parse_steps()[0].id, "1");
    assert_eq!(cfg.parse_steps()[0].kind.as_deref(), Some("parking"));
    assert_eq!(cfg.reveal_policy, RevealPolicy::DayBefore16h);
}

#[test]
fn migrate_gate_only_to_door_code_building() {
    let raw = RawConfig { gate_code: "9999".into(), ..RawConfig::default() };
    let cfg = migrate_legacy(raw);
    assert_eq!(cfg.primary_method, PrimaryMethod::DoorCode);
    match &cfg.method {
        MethodFields::DoorCode { target, code } => {
            assert_eq!(*target, DoorCodeTarget::Building);
            assert_eq!(code, "9999");
        }
        other => panic!("expected DoorCode, got {other:?}"),
    }
    assert!(cfg.building_access.is_none());
}

#[test]
fn migrate_steps_only_to_other() {
    let raw = RawConfig {
        steps: vec![RawStep { id: "1".into(), kind: Some("door".into()) }],
        parking_info: "Sous-sol".into(),
        ..RawConfig::default()
    };
    let cfg = migrate_legacy(raw);
    assert_eq!(cfg.primary_method, PrimaryMethod::Other);
    assert_eq!(cfg.parse_steps().len(), 1);
    assert!(cfg.parking.is_some());
}

#[test]
fn default_reveal_policy_is_day_before_16h() {
    assert_eq!(ModuleConfig::default().reveal_policy, RevealPolicy::DayBefore16h);
}

#[test]
fn involves_access_code_for_code_methods_only() {
    assert!(PrimaryMethod::Keybox.involves_access_code());
    assert!(PrimaryMethod::DoorCode.involves_access_code());
    assert!(PrimaryMethod::SmartLock.involves_access_code());
    assert!(!PrimaryMethod::InPerson.involves_access_code());
    assert!(!PrimaryMethod::BuildingStaff.involves_access_code());
    assert!(!PrimaryMethod::HostGreets.involves_access_code());
    assert!(!PrimaryMethod::Other.involves_access_code());
}

#[test]
fn resolve_steps_merges_texts_by_id() {
    let cfg = ModuleConfig {
        arrival: ArrivalGuide {
            steps: vec![AccessStep { id: "1".into(), kind: Some("parking".into()) }],
            ..ArrivalGuide::default()
        },
        ..ModuleConfig::default()
    };
    let texts = ModuleTexts {
        steps: vec![StepText { id: "1".into(), title: "Se garer".into(), detail: Some("Place résident".into()) }],
        ..ModuleTexts::default()
    };
    let resolved = cfg.resolve_steps(&texts);
    assert_eq!(resolved[0].title, "Se garer");
    assert_eq!(resolved[0].detail.as_deref(), Some("Place résident"));
    assert_eq!(resolved[0].kind.as_deref(), Some("parking"));
}

#[test]
fn assemble_host_form_splits_texts() {
    let args = UpdateConfigArgs {
        primary_method: Some(PrimaryMethod::Keybox),
        keybox_location: "Porte".into(),
        keybox_code: "4821".into(),
        keybox_instructions: "Tourner".into(),
        building_access_enabled: Some(true),
        building_access_note: "Sonnette".into(),
        parking_enabled: Some(true),
        parking_info: "Rue A".into(),
        global_note: "Note".into(),
        steps: vec![StepInput {
            kind: "parking".into(),
            title: "Se garer".into(),
            detail: "Place".into(),
            ..StepInput::default()
        }],
        ..UpdateConfigArgs::default()
    };
    let (config, texts) = args.into_config_and_texts((None, None));
    assert_eq!(config.primary_method, PrimaryMethod::Keybox);
    match &config.method {
        MethodFields::Keybox { location, code } => {
            assert_eq!(location, "Porte");
            assert_eq!(code.as_deref(), Some("4821"));
        }
        other => panic!("expected Keybox, got {other:?}"),
    }
    assert_eq!(texts.method_instructions.as_deref(), Some("Tourner"));
    assert_eq!(texts.building_note.as_deref(), Some("Sonnette"));
    assert_eq!(texts.parking_info, "Rue A");
    assert_eq!(texts.global_note, "Note");
    assert_eq!(texts.steps[0].title, "Se garer");
    assert_eq!(config.parse_steps()[0].kind.as_deref(), Some("parking"));
}

#[test]
fn lang_code_from_bcp47() {
    assert_eq!(lang_code("fr-FR"), "fr");
    assert_eq!(lang_code("en-US"), "en");
    assert_eq!(lang_code("en_GB"), "en");
    assert_eq!(lang_code("FR"), "fr");
    assert_eq!(lang_code(""), "fr");
}

#[test]
fn extract_splits_bilingual_steps_and_plain_strings() {
    let root = JsonValue::parse(
        r#"{
            "method": { "kind": "keybox", "instructions": "Tourner à droite" },
            "building_access": { "note": { "fr": "Sonnette", "en": "Bell" } },
            "parking": { "info": "Rue A" },
            "arrival": {
                "global_note": { "fr": "Note FR", "en": "Note EN" },
                "steps": [{
                    "id": "1",
                    "kind": "parking",
                    "title": { "fr": "Se garer", "en": "Park" },
                    "detail": { "fr": "Place résident", "en": "Resident spot" }
                }]
            }
        }"#,
    )
    .expect("json");
    let (fr, en) = extract_embedded_texts(&root);
    assert_eq!(fr.method_instructions.as_deref(), Some("Tourner à droite"));
    assert!(en.method_instructions.is_none());
    assert_eq!(fr.building_note.as_deref(), Some("Sonnette"));
    assert_eq!(en.building_note.as_deref(), Some("Bell"));
    assert_eq!(fr.parking_info, "Rue A");
    assert_eq!(fr.global_note, "Note FR");
    assert_eq!(en.global_note, "Note EN");
    assert_eq!(fr.steps[0].title, "Se garer");
    assert_eq!(en.steps[0].title, "Park");
    assert_eq!(fr.steps[0].detail.as_deref(), Some("Place résident"));
    assert_eq!(en.steps[0].detail.as_deref(), Some("Resident spot"));
}

// ── Guest emails ────────────────────────────────────────────────────────────

/// 2025-06-15T12:00:00Z.
const NOW: i64 = 1_749_988_800;
/// 2099-01-01T15:00:00Z.
const FAR_CHECKIN: i64 = 4_070_962_800;

fn keybox_config(policy: RevealPolicy) -> ModuleConfig {
    ModuleConfig {
        primary_method: PrimaryMethod::Keybox,
        method: MethodFields::Keybox { location: "Sous le pot".into(), code: Some("4821".into()) },
        building_access: Some(BuildingAccess { gate_code: Some("A17B".into()), intercom: None }),
        reveal_policy: policy,
        ..ModuleConfig::default()
    }
}

fn email(config: &ModuleConfig, template: &str, checkin: Option<i64>) -> EmailContextResponse {
    build_email_context(config, Some(template), Some("16:00"), "fr", NOW, checkin, "Europe/Paris")
}

#[test]
fn revealed_keybox_returns_code_and_callout() {
    let response = email(&keybox_config(RevealPolicy::Always), "arrival", None);
    assert!(response.secrets_revealed);
    assert_eq!(response.entry_access_code.as_deref(), Some("4821"));
    assert_eq!(response.access_code_label.as_deref(), Some("Code boîte à clés"));
    assert!(response.arrival_callout.as_deref().unwrap_or("").contains("boîte à clés"));
    assert!(response.arrival_callout.as_deref().unwrap_or("").contains("16:00"));
}

#[test]
fn locked_policy_omits_plaintext_code() {
    let response = email(&keybox_config(RevealPolicy::AtCheckin), "arrival", Some(FAR_CHECKIN));
    assert!(!response.secrets_revealed);
    assert!(response.entry_access_code.is_none());
    assert!(response.arrival_callout.as_deref().unwrap_or("").contains("Disponible"));
    assert!(!response.arrival_callout.as_deref().unwrap_or("").contains("4821"));
}

#[test]
fn arrival_day_returns_code_without_callout() {
    let response = email(&keybox_config(RevealPolicy::Always), "arrival-day", None);
    assert!(response.arrival_callout.is_none());
    assert_eq!(response.entry_access_code.as_deref(), Some("4821"));
}

#[test]
fn stay_link_returns_callout_and_code_when_revealed() {
    let response = email(&keybox_config(RevealPolicy::Always), "stay-link", None);
    assert!(response.secrets_revealed);
    assert_eq!(response.entry_access_code.as_deref(), Some("4821"));
    assert!(response.arrival_callout.as_deref().unwrap_or("").contains("boîte à clés"));
}

#[test]
fn stay_link_locked_omits_plaintext_code() {
    let response = email(&keybox_config(RevealPolicy::AtCheckin), "stay-link", Some(FAR_CHECKIN));
    assert!(!response.secrets_revealed);
    assert!(response.entry_access_code.is_none());
    assert!(response.arrival_callout.is_some());
    assert!(!response.arrival_callout.as_deref().unwrap_or("").contains("4821"));
}

#[test]
fn code_change_is_detected_on_any_entry_code() {
    let before = keybox_config(RevealPolicy::Always);
    assert_eq!(entry_codes_fingerprint(&before), "4821|A17B||");
    let mut padded = before.clone();
    padded.method = MethodFields::Keybox { location: "À droite".into(), code: Some(" 4821 ".into()) };
    assert!(!entry_codes_changed(&before, &padded));
    let mut parking = before.clone();
    parking.parking = Some(portaki_modules::access_guide::config::ParkingLayer {
        map_url: String::new(),
        code: Some("P9".into()),
    });
    assert!(entry_codes_changed(&before, &parking));
    assert_eq!(entry_codes_fingerprint(&parking), "4821|A17B||P9");
    let mut gate = before.clone();
    gate.building_access = Some(BuildingAccess { gate_code: Some("A17".into()), intercom: None });
    assert!(entry_codes_changed(&before, &gate));
}

#[test]
fn guest_reads_the_first_texts_with_copy() {
    let blank = ModuleTexts { global_note: "  ".into(), ..ModuleTexts::default() };
    let en = ModuleTexts { global_note: "Welcome".into(), ..ModuleTexts::default() };
    let fr = ModuleTexts { global_note: "Bienvenue".into(), ..ModuleTexts::default() };
    assert_eq!(first_nonempty_texts(&vec![blank.clone(), en.clone(), fr.clone()]).global_note, "Welcome");
    assert!(first_nonempty_texts(&vec![blank.clone()]).is_empty());
    assert!(should_seed_texts(&fr, &blank));
    assert!(!should_seed_texts(&fr, &en));
    assert!(!should_seed_texts(&blank, &blank));
}

#[test]
fn language_codes_are_normal() {
    for locale in ["  EN-us ", "fr_FR", "", "   ", "De", "-x"] {
        let code = lang_code(locale);
        assert!(!code.is_empty());
        assert_eq!(code, code.trim());
        assert!(!code.contains('-') && !code.contains('_'));
        assert!(!code.chars().any(|c| c.is_ascii_uppercase()));
        assert_eq!(lang_code(&code), code);
    }
    assert_eq!(lang_code("   "), "fr");
    assert_eq!(lang_code("  EN-us "), "en");
}
