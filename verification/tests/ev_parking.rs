use portaki_modules::ev_parking::config::{email_spot, template_wants_spot, ModuleConfig, RevealPolicy};
use portaki_modules::ev_parking::guest::{build_ev_parking_body, GuestRow};
use portaki_modules::timed_reveal::{evaluate_reveal, reveal_at, RevealTiming};

/// 2025-06-15T12:00:00Z.
const NOW: i64 = 1_749_988_800;

#[test]
fn config_default_reveal_policy_is_day_before_16h() {
    assert_eq!(ModuleConfig::default().reveal_policy, RevealPolicy::DayBefore16h);
}

#[test]
fn config_reveal_policy_choice_list_values_deserialize() {
    for wire in ["always", "hours_before_24", "day_before_16h", "at_checkin"] {
        let parsed = RevealPolicy::from_wire(wire).unwrap_or_else(|| panic!("value {wire:?} must parse"));
        assert_eq!(parsed.as_wire(), wire);
    }
}

#[test]
fn is_empty_requires_spot_pin_and_code() {
    let mut config = ModuleConfig::default();
    assert!(config.is_empty());
    config.spot_label = "P2 / 14".into();
    assert!(!config.is_empty());
    config = ModuleConfig::default();
    config.charger_pin = "1234".into();
    assert!(!config.is_empty());
    config = ModuleConfig::default();
    config.parking_code = "5678".into();
    assert!(!config.is_empty());
    config = ModuleConfig::default();
    config.map_url = Some("https://maps.example".into());
    config.instructions = Some("Turn left".into());
    assert!(config.is_empty());
}

#[test]
fn when_arrival_then_returns_ev_parking_spot() {
    let mut config = ModuleConfig::default();
    config.spot_label = "P2 / Place 14".into();
    config.charger_pin = "4821".into();
    assert_eq!(email_spot(true, &config).as_deref(), Some("P2 / Place 14"));
}

#[test]
fn email_context_when_wrong_template_then_empty() {
    let mut config = ModuleConfig::default();
    config.spot_label = "P2 / Place 14".into();
    assert!(email_spot(false, &config).is_none());
}

#[test]
fn always_reveals_without_checkin() {
    let d = evaluate_reveal(RevealTiming::Always, NOW, None, "Europe/Paris");
    assert!(d.revealed);
    assert!(d.available_from.is_none());
}

#[test]
fn missing_checkin_locks_timed_policies() {
    for timing in [RevealTiming::HoursBefore24, RevealTiming::DayBefore16h, RevealTiming::AtCheckin] {
        let d = evaluate_reveal(timing, NOW, None, "Europe/Paris");
        assert!(!d.revealed, "{timing:?}");
        assert!(d.available_from.is_none());
    }
}

#[test]
fn hours_before_24() {
    let checkin = 1_784_556_000; // 2026-07-20T14:00:00Z
    let at = reveal_at(RevealTiming::HoursBefore24, checkin, "Europe/Paris").unwrap();
    assert_eq!(at, 1_784_469_600); // 2026-07-19T14:00:00Z
}

#[test]
fn day_before_16h_paris_summer() {
    let checkin = 1_784_556_000; // 2026-07-20T14:00:00Z
    let at = reveal_at(RevealTiming::DayBefore16h, checkin, "Europe/Paris").unwrap();
    assert_eq!(at, 1_784_469_600); // 2026-07-19T14:00:00Z
}

#[test]
fn day_before_16h_paris_winter_and_utc() {
    let checkin = 1_768_485_600; // 2026-01-15T14:00:00Z
    assert_eq!(reveal_at(RevealTiming::DayBefore16h, checkin, "Europe/Paris"), Some(1_768_402_800)); // 2026-01-14T15:00Z
    assert_eq!(reveal_at(RevealTiming::DayBefore16h, checkin, "utc"), Some(1_768_406_400)); // 2026-01-14T16:00Z
}

#[test]
fn hidden_secrets_are_masked_on_the_card() {
    let mut config = ModuleConfig::default();
    config.parking_code = " 5678 ".into();
    config.spot_label = "P2".into();
    let rows = build_ev_parking_body(&config, false, Some("Later".into()));
    assert!(matches!(&rows[0], GuestRow::RevealBanner { message } if message == "Later"));
    assert!(rows.iter().all(|r| !matches!(r, GuestRow::CopyButton { .. })));
    assert!(matches!(&rows[2], GuestRow::KeyValue { value, mono: true, .. } if value == "••••••"));
    let shown = build_ev_parking_body(&config, true, None);
    assert!(matches!(&shown[1], GuestRow::KeyValue { value, .. } if value == "5678"));
    assert!(matches!(&shown[2], GuestRow::CopyButton { value, .. } if value == "5678"));
}

#[test]
fn once_revealed_stays_revealed_later() {
    let checkin = 1_784_556_000; // 2026-07-20T14:00:00Z
    let before = evaluate_reveal(RevealTiming::HoursBefore24, 1_784_469_599, Some(checkin), "Europe/Paris");
    assert!(!before.revealed);
    let at = evaluate_reveal(RevealTiming::HoursBefore24, 1_784_469_600, Some(checkin), "Europe/Paris");
    assert!(at.revealed);
    let later = evaluate_reveal(RevealTiming::HoursBefore24, checkin + 86_400, Some(checkin), "Europe/Paris");
    assert!(later.revealed);
    assert_eq!(at.available_from, later.available_from);
}

#[test]
fn spot_templates() {
    assert!(template_wants_spot(None));
    assert!(template_wants_spot(Some("arrival")));
    assert!(template_wants_spot(Some("arrival-day")));
    assert!(!template_wants_spot(Some("post-arrival")));
}
