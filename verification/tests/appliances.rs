use portaki_modules::appliances::bundle::AppliancesBundle;
use portaki_modules::appliances::commands::{
    build_replacement, delete_appliance, normalize_description, parse_boolish, reorder_appliances,
    save_appliance, save_safety_notice, ApplianceError, ReplaceDeviceSlot, ReplaceDevicesArgs,
    SaveApplianceArgs,
};
use portaki_modules::appliances::content::{Appliance, ApplianceStatus, AppliancesPayload};
use portaki_modules::appliances::legacy::emoji_from_legacy_icon;
use portaki_modules::appliances::tiptap::{
    description_plain_text, description_to_html, escape_html, extract_howto_steps,
};
use portaki_modules::json::JsonValue;

#[test]
fn migrates_legacy_fr_slots() {
    let raw = r#"{
        "safety_notice": "Coupez l'eau.",
        "devices": [
            {
                "id": "tv",
                "icon": "📺",
                "title": "Télévision",
                "subtitle": "Salon",
                "steps": ["Allumez", "HDMI 1"],
                "tip": "Remote on stand"
            },
            {
                "id": "washer",
                "icon": "washing-machine",
                "title": "Lave-linge",
                "steps": ["ECO 30"]
            }
        ]
    }"#;
    let payload = AppliancesPayload::parse(raw);
    assert_eq!(payload.devices.len(), 2);
    assert_eq!(payload.devices[0].name, "Télévision");
    assert_eq!(payload.devices[0].emoji, "📺");
    assert!(!payload.devices[0].featured);
    assert_eq!(payload.devices[0].location, "Salon");
    assert!(payload.devices[0].description.contains("bulletList"));
    assert!(payload.devices[0].description.contains("Allumez"));
    assert!(payload.devices[0].description.contains("Remote on stand"));
    assert_eq!(payload.devices[1].emoji, "");
    assert_eq!(payload.devices[1].order, 1);
    assert!(payload.safety_notice.contains("Coupez l'eau."));
    assert!(payload.safety_notice.contains("paragraph"));
}

#[test]
fn parses_v2_without_migration() {
    let raw = r#"{
        "safetyNotice": "{\"type\":\"doc\",\"content\":[{\"type\":\"paragraph\",\"content\":[{\"type\":\"text\",\"text\":\"Global\"}]}]}",
        "devices": [{
            "id": "a1",
            "name": "Oven",
            "emoji": "🔥",
            "description": "{\"type\":\"doc\",\"content\":[{\"type\":\"paragraph\"}]}",
            "featured": true,
            "order": 0,
            "location": "Kitchen",
            "manualUrl": "https://example.com",
            "safetyNote": "Hot",
            "status": "active"
        }]
    }"#;
    let payload = AppliancesPayload::parse(raw);
    assert_eq!(payload.devices.len(), 1);
    assert_eq!(payload.devices[0].name, "Oven");
    assert!(payload.devices[0].featured);
    assert_eq!(payload.devices[0].manual_url, "https://example.com");
    assert!(payload.safety_notice.contains("Global"));
}

fn device(id: &str, name: &str, status: ApplianceStatus, featured: bool, order: i32) -> Appliance {
    Appliance {
        id: id.into(),
        name: name.into(),
        status,
        featured,
        order,
        ..Default::default()
    }
}

#[test]
fn guest_devices_exclude_hidden() {
    let payload = AppliancesPayload {
        devices: vec![
            device("1", "Visible", ApplianceStatus::Active, true, 1),
            device("2", "Hidden", ApplianceStatus::Hidden, true, 0),
        ],
        ..Default::default()
    };
    let guest = payload.guest_devices();
    assert_eq!(guest.len(), 1);
    assert_eq!(guest[0].id, "1");
    assert_eq!(payload.featured_guest_devices().len(), 1);
}

#[test]
fn description_to_html_renders_steps_and_marks() {
    let doc = r#"{"type":"doc","content":[{"type":"paragraph","content":[{"type":"text","text":"Avant","marks":[{"type":"bold"}]}]},{"type":"bulletList","content":[{"type":"listItem","content":[{"type":"paragraph","content":[{"type":"text","text":"Allumez"}]}]}]}]}"#;
    let html = description_to_html(doc);
    assert!(html.contains("<strong>Avant</strong>"));
    assert!(html.contains("class=\"appliance-steps\""));
    assert!(html.contains("<li>Allumez</li>"));
}

// ── Own scenarios ───────────────────────────────────────────────────────────

#[test]
fn html_of_plain_text_is_one_escaped_paragraph() {
    assert_eq!(description_to_html("  a < b & 'c'  "), "<p>a &lt; b &amp; &#39;c&#39;</p>");
    assert_eq!(description_to_html("   "), "");
    assert_eq!(escape_html("\"x\">"), "&quot;x&quot;&gt;");
}

#[test]
fn html_renders_heading_link_and_clamped_level() {
    let doc = r#"{"type":"doc","content":[{"type":"heading","attrs":{"level":7},"content":[{"type":"text","text":"T"}]},{"type":"paragraph","content":[{"type":"text","text":"go","marks":[{"type":"link","attrs":{"href":"https://x.example/?a=1&b=2"}}]}]},{"type":"horizontalRule"}]}"#;
    assert_eq!(
        description_to_html(doc),
        "<h3>T</h3><p><a href=\"https://x.example/?a=1&amp;b=2\" rel=\"noopener noreferrer\" target=\"_blank\">go</a></p><hr/>"
    );
}

#[test]
fn plain_text_and_steps_of_a_document() {
    let doc = r#"{"type":"doc","content":[{"type":"paragraph","content":[{"type":"text","text":"Intro"}]},{"type":"orderedList","content":[{"type":"listItem","content":[{"type":"paragraph","content":[{"type":"text","text":"  Un "},{"type":"text","text":"deux"}]}]},{"type":"listItem","content":[{"type":"paragraph"}]}]}]}"#;
    assert_eq!(description_plain_text(doc), "Intro\n  Un \ndeux");
    assert_eq!(extract_howto_steps(doc), vec!["Un  deux".to_string()]);
    assert_eq!(description_plain_text(" not json "), "not json");
    assert!(extract_howto_steps("not json").is_empty());
}

#[test]
fn legacy_icon_names_are_dropped() {
    assert_eq!(emoji_from_legacy_icon("washing-machine"), "");
    assert_eq!(emoji_from_legacy_icon(" 📺 "), "📺");
    assert_eq!(emoji_from_legacy_icon(""), "");
}

#[test]
fn v2_payload_refused_on_wrong_type_or_duplicate_notice() {
    let wrong = r#"{"devices":[{"name":"Oven","order":"first"}]}"#;
    assert!(AppliancesPayload::parse(wrong).devices.is_empty());
    let dup = r#"{"devices":[{"name":"Oven"}],"safetyNotice":"a","safety_notice":"b"}"#;
    assert!(AppliancesPayload::parse(dup).devices.is_empty());
    let hidden = r#"{"devices":[{"name":"Oven","status":"hidden","order":-3}]}"#;
    let p = AppliancesPayload::parse(hidden);
    assert_eq!(p.devices[0].status, ApplianceStatus::Hidden);
    assert_eq!(p.devices[0].order, -3);
}

#[test]
fn payload_json_round_trip() {
    let payload = AppliancesPayload {
        devices: vec![device("a", "Four", ApplianceStatus::Hidden, true, -2)],
        safety_notice: "N".into(),
    };
    let text = payload.to_json_string().expect("json");
    let back = AppliancesPayload::parse(&text);
    assert_eq!(back, payload);
}

fn save_args(id: Option<&str>, name: &str, featured: bool) -> SaveApplianceArgs {
    SaveApplianceArgs {
        id: id.map(|s| s.to_string()),
        name: name.into(),
        emoji: " 🔥 ".into(),
        description: "Chauffer".into(),
        featured,
        order: None,
        location: "".into(),
        manual_url: "".into(),
        safety_note: "".into(),
        status: ApplianceStatus::Active,
    }
}

#[test]
fn save_appliance_creates_updates_and_limits() {
    let empty = AppliancesPayload::default();
    assert!(matches!(save_appliance(&empty, &save_args(None, "  ", false)), Err(ApplianceError::NameRequired)));
    let (p1, a) = save_appliance(&empty, &save_args(Some(" oven "), "Four", false)).expect("save");
    assert_eq!(a.id, "oven");
    assert_eq!(a.emoji, "🔥");
    assert_eq!(a.order, 0);
    assert!(a.description.contains("Chauffer"));
    let (p2, b) = save_appliance(&p1, &save_args(None, "Frigo", false)).expect("save");
    assert_eq!(b.id.len(), 36);
    assert_eq!(b.order, 1);
    assert_eq!(p2.devices.len(), 2);
    let (p3, _) = save_appliance(&p2, &save_args(Some("oven"), "Four 2", false)).expect("update");
    assert_eq!(p3.devices.len(), 2);
    // Without an order, an update also moves the device after the others.
    assert_eq!(p3.devices[1].name, "Four 2");
    assert_eq!(p3.devices[1].order, 2);
    let mut full = AppliancesPayload::default();
    for i in 0..10 {
        full.devices.push(device(&format!("d{i}"), "x", ApplianceStatus::Active, i < 5, i));
    }
    assert!(matches!(save_appliance(&full, &save_args(Some("new"), "y", false)), Err(ApplianceError::TooManyAppliances)));
    assert!(matches!(save_appliance(&full, &save_args(Some("d7"), "y", true)), Err(ApplianceError::TooManyFeatured)));
    assert_eq!(ApplianceError::TooManyFeatured.message(), "max 5 featured appliances allowed");
}

#[test]
fn delete_reorder_and_notice() {
    let p = AppliancesPayload {
        devices: vec![
            device("a", "A", ApplianceStatus::Active, false, 0),
            device("b", "B", ApplianceStatus::Active, false, 1),
        ],
        ..Default::default()
    };
    assert!(matches!(delete_appliance(&p, " "), Err(ApplianceError::IdRequired)));
    match delete_appliance(&p, "zz") {
        Err(e) => assert_eq!(e.message(), "appliance not found: zz"),
        Ok(_) => panic!("expected an error"),
    }
    let d = delete_appliance(&p, " a ").expect("delete");
    assert_eq!(d.devices.len(), 1);
    assert_eq!(d.devices[0].id, "b");
    let r = reorder_appliances(&p, &vec!["b".to_string(), "a".to_string()]);
    assert_eq!(r.devices[0].id, "b");
    assert_eq!(r.devices[1].order, 1);
    let n = save_safety_notice(&p, "");
    assert_eq!(n.safety_notice, "{\"type\":\"doc\",\"content\":[{\"type\":\"paragraph\"}]}");
    let doc = "{\"type\":\"doc\",\"content\":[]}";
    assert_eq!(normalize_description(&format!("  {doc} ")), doc);
}

fn slot(id: &str, name: &str, featured: JsonValue, status: &str) -> ReplaceDeviceSlot {
    ReplaceDeviceSlot {
        id: id.into(),
        name: name.into(),
        emoji: "".into(),
        description: "".into(),
        featured,
        location: "".into(),
        manual_url: "".into(),
        status: status.into(),
    }
}

#[test]
fn replacement_drops_unnamed_and_reads_flags() {
    assert!(parse_boolish(&JsonValue::Str(" YES ".into())));
    assert!(parse_boolish(&JsonValue::Number("1".into())));
    assert!(!parse_boolish(&JsonValue::Number("1.0".into())));
    let args = ReplaceDevicesArgs {
        safety_notice: "".into(),
        devices: vec![
            slot("a", "A", JsonValue::Bool(true), " Hidden "),
            slot("", " ", JsonValue::Null, ""),
            slot("", "C", JsonValue::Str("on".into()), "active"),
        ],
    };
    let devices = build_replacement(&args).expect("build");
    assert_eq!(devices.len(), 2);
    assert_eq!(devices[0].status, ApplianceStatus::Hidden);
    assert_eq!(devices[1].order, 2);
    assert!(devices[1].featured);
    assert_eq!(devices[1].id.len(), 36);
}

#[test]
fn bundle_get_after_set_and_pick() {
    let mut bundle = AppliancesBundle::new();
    let mut en = AppliancesPayload::default();
    en.devices.push(device("x", "Oven", ApplianceStatus::Active, false, 0));
    bundle.set("en-GB", en.duplicate());
    assert_eq!(bundle.get("EN"), en);
    assert!(bundle.get("de").devices.is_empty());
    assert_eq!(bundle.pick("de", "it"), en);
    let text = bundle.to_json_string().expect("json");
    let back = AppliancesBundle::from_row(&text, "");
    assert_eq!(back.get("en"), en);
    let legacy = AppliancesBundle::from_row(r#"{"devices":[{"name":"Four"}]}"#, "");
    assert_eq!(legacy.get("fr").devices[0].name, "Four");
}

#[test]
fn sync_aligns_other_languages() {
    let mut bundle = AppliancesBundle::new();
    let mut fr = AppliancesPayload::default();
    fr.devices.push(device("x", "Four", ApplianceStatus::Active, false, 0));
    fr.devices.push(device("gone", "Vieux", ApplianceStatus::Active, false, 1));
    bundle.set("fr", fr);
    let mut source = AppliancesPayload::default();
    source.devices.push(device("y", "Fridge", ApplianceStatus::Hidden, true, 0));
    source.devices.push(device("x", "Oven", ApplianceStatus::Active, true, 5));
    bundle.sync_shared_from(&source);
    let fr = bundle.get("fr");
    assert_eq!(fr.devices.len(), 2);
    assert_eq!(fr.devices[0].id, "y");
    assert_eq!(fr.devices[0].name, "");
    assert_eq!(fr.devices[1].name, "Four");
    assert!(fr.devices[1].featured);
    assert_eq!(fr.devices[1].order, 5);
}
