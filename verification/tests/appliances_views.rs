use portaki_modules::appliances::bundle::AppliancesBundle;
use portaki_modules::appliances::commands::{replace_devices, ReplaceDeviceSlot, ReplaceDevicesArgs};
use portaki_modules::appliances::content::{Appliance, ApplianceStatus, AppliancesPayload};
use portaki_modules::appliances::queries::{get_content, save_payload_for};
use portaki_modules::appliances::views::{
    build_detail_panel, build_device_list, build_home_card, build_item_detail, device_detail_children,
    devices_list, editor_value, selected_id_from_input, DetailPanel, HowTo,
};
use portaki_modules::json::JsonValue;

fn dev(id: &str, name: &str, status: ApplianceStatus, featured: bool, order: i32) -> Appliance {
    Appliance {
        id: id.into(),
        name: name.into(),
        status,
        featured,
        order,
        ..Default::default()
    }
}

const EMPTY_DOC: &str = r#"{"type":"doc","content":[{"type":"paragraph"}]}"#;

#[test]
fn selected_id_is_trimmed_or_empty() {
    let input = JsonValue::Object(vec![("selectedId".into(), JsonValue::Str("  tv ".into()))]);
    assert_eq!(selected_id_from_input(&input), "tv");
    let other = JsonValue::Object(vec![("selectedId".into(), JsonValue::Bool(true))]);
    assert_eq!(selected_id_from_input(&other), "");
    assert_eq!(selected_id_from_input(&JsonValue::Null), "");
}

#[test]
fn editor_value_of_blank_is_the_empty_document() {
    assert_eq!(editor_value("   "), EMPTY_DOC);
    assert_eq!(editor_value("  {\"type\":\"doc\"} "), "{\"type\":\"doc\"}");
}

#[test]
fn device_list_marks_selection_and_room_to_add() {
    let mut a = dev("a", "Four", ApplianceStatus::Active, false, 0);
    a.emoji = "🔥".into();
    a.location = "  ".into();
    let b = dev("b", "TV", ApplianceStatus::Hidden, false, 1);
    let list = build_device_list(&vec![a, b], "b");
    assert_eq!(list.rows.len(), 2);
    assert_eq!(list.rows[0].leading.as_deref(), Some("🔥"));
    assert_eq!(list.rows[0].subtitle, None);
    assert!(!list.rows[0].selected);
    assert!(list.rows[1].selected);
    assert!(list.can_add);
    assert!(!list.add_selected);

    let full: Vec<Appliance> = (0..10).map(|i| dev(&i.to_string(), "x", ApplianceStatus::Active, false, i)).collect();
    let list = build_device_list(&full, "__new__");
    assert!(!list.can_add);
    assert!(list.add_selected);
}

#[test]
fn detail_panel_cases() {
    let mut a = dev("a", "Four", ApplianceStatus::Hidden, true, 0);
    a.description = "  ".into();
    let devices = vec![a];
    assert!(matches!(build_detail_panel(&devices, ""), DetailPanel::NothingSelected));
    assert!(matches!(build_detail_panel(&devices, "zz"), DetailPanel::Missing));
    match build_detail_panel(&devices, "__new__") {
        DetailPanel::Editor(f) => {
            assert!(f.is_new);
            assert_eq!(f.status, "active");
            assert_eq!(f.description, EMPTY_DOC);
            assert_eq!(f.delete_id, None);
        }
        _ => panic!("expected the new form"),
    }
    match build_detail_panel(&devices, "a") {
        DetailPanel::Editor(f) => {
            assert!(!f.is_new);
            assert_eq!(f.name, "Four");
            assert_eq!(f.status, "hidden");
            assert!(f.featured);
            assert_eq!(f.description, EMPTY_DOC);
            assert_eq!(f.delete_id.as_deref(), Some("a"));
        }
        _ => panic!("expected the device form"),
    }
}

#[test]
fn guest_lists_follow_order_and_featured_limit() {
    let payload = AppliancesPayload {
        devices: vec![
            dev("late", "Late", ApplianceStatus::Active, true, 5),
            dev("hidden", "Hidden", ApplianceStatus::Hidden, true, 0),
            dev("early", "Early", ApplianceStatus::Active, false, 1),
        ],
        ..Default::default()
    };
    let rows = devices_list(&payload);
    let ids: Vec<&str> = rows.iter().map(|r| r.id.as_str()).collect();
    assert_eq!(ids, vec!["early", "late"]);
    let home = build_home_card(&payload);
    assert_eq!(home.len(), 1);
    assert_eq!(home[0].id, "late");
}

#[test]
fn device_page_prefers_steps_then_html() {
    let mut d = dev("tv", "TV", ApplianceStatus::Active, false, 0);
    d.description = r#"{"type":"doc","content":[{"type":"bulletList","content":[{"type":"listItem","content":[{"type":"paragraph","content":[{"type":"text","text":"Allumer"}]}]}]}]}"#.into();
    d.manual_url = "  https://m.example  ".into();
    d.safety_note = "Attention".into();
    let page = device_detail_children(&d);
    match &page.howto {
        HowTo::Steps(s) => assert_eq!(s, &vec!["Allumer".to_string()]),
        _ => panic!("expected steps"),
    }
    assert_eq!(page.manual_url.as_deref(), Some("https://m.example"));
    assert_eq!(page.safety_note.as_deref(), Some("Attention"));
    assert_eq!(page.contact_context, "Allumer");

    d.description = "Appuyer <fort>".into();
    let page = device_detail_children(&d);
    match &page.howto {
        HowTo::Html(h) => assert_eq!(h, "<p>Appuyer &lt;fort&gt;</p>"),
        _ => panic!("expected html"),
    }
    d.description = String::new();
    assert!(matches!(device_detail_children(&d).howto, HowTo::Nothing));
}

#[test]
fn item_page_finds_active_devices_only() {
    let payload = AppliancesPayload {
        devices: vec![
            dev("h", "Hidden", ApplianceStatus::Hidden, false, 0),
            dev("n", "  ", ApplianceStatus::Active, false, 1),
            dev("v", "Visible", ApplianceStatus::Active, false, 2),
        ],
        ..Default::default()
    };
    assert!(build_item_detail(&payload, None).is_none());
    assert!(build_item_detail(&payload, Some("h")).is_none());
    assert_eq!(build_item_detail(&payload, Some("v")).unwrap().name, "Visible");
    // Active but unnamed: not a guest device, still found by id.
    assert_eq!(build_item_detail(&payload, Some("n")).unwrap().id, "n");
    assert!(build_item_detail(&payload, Some("zz")).is_none());
}

fn slot(id: &str, name: &str) -> ReplaceDeviceSlot {
    ReplaceDeviceSlot {
        id: id.into(),
        name: name.into(),
        emoji: String::new(),
        description: String::new(),
        featured: JsonValue::Null,
        location: String::new(),
        manual_url: String::new(),
        status: String::new(),
    }
}

#[test]
fn replace_devices_builds_the_payload() {
    let args = ReplaceDevicesArgs {
        safety_notice: "  ".into(),
        devices: vec![slot("b", "B"), slot("", " "), slot("a", "A")],
    };
    let payload = replace_devices(&args).unwrap();
    let ids: Vec<&str> = payload.devices.iter().map(|d| d.id.as_str()).collect();
    assert_eq!(ids, vec!["b", "a"]);
    assert_eq!(payload.devices[1].order, 2);
    assert_eq!(payload.safety_notice, EMPTY_DOC);
}

#[test]
fn get_content_reads_the_picked_language() {
    let fr = r#"{"devices":[{"id":"tv","name":"Télé"}],"safety_notice":"Note"}"#;
    let view = get_content(Some((fr.to_string(), String::new())), "fr-FR", "fr");
    assert_eq!(view.devices.len(), 1);
    assert_eq!(view.devices[0].name, "Télé");
    assert_eq!(view.safety_notice, "Note");
    assert_eq!(view.content_fr, fr);
    assert!(view.content.contains("\"tv\""));
    let empty = get_content(None, "fr", "fr");
    assert!(empty.devices.is_empty());
    assert_eq!(empty.content_fr, "");
}

#[test]
fn save_payload_for_writes_every_language() {
    let bundle = AppliancesBundle::from_row("", "");
    let payload = AppliancesPayload {
        devices: vec![dev("tv", "TV", ApplianceStatus::Active, false, 0)],
        ..Default::default()
    };
    let text = save_payload_for(bundle, "en-GB", &payload);
    let back = AppliancesBundle::from_row(&text, "");
    assert_eq!(back.get("en").devices[0].name, "TV");
}

#[test]
fn saving_one_language_aligns_the_others() {
    let mut bundle = AppliancesBundle::from_row("", "");
    let mut fr_tv = dev("tv", "Télé", ApplianceStatus::Active, false, 0);
    fr_tv.location = "Salon".into();
    let old = dev("old", "Ancien", ApplianceStatus::Active, false, 1);
    bundle.set("fr", AppliancesPayload { devices: vec![fr_tv, old], ..Default::default() });
    let mut en_tv = dev("tv", "TV", ApplianceStatus::Hidden, true, 3);
    en_tv.emoji = "📺".into();
    let oven = dev("oven", "Oven", ApplianceStatus::Active, false, 2);
    let saved = AppliancesPayload { devices: vec![en_tv, oven], ..Default::default() };
    let text = save_payload_for(bundle, "en", &saved);
    let back = AppliancesBundle::from_row(&text, "");
    let fr = back.get("fr");
    let ids: Vec<&str> = fr.devices.iter().map(|d| d.id.as_str()).collect();
    // `old` is dropped, `oven` added blank, shared fields copied, order by `order`.
    assert_eq!(ids, vec!["oven", "tv"]);
    assert_eq!(fr.devices[0].name, "");
    assert_eq!(fr.devices[1].name, "Télé");
    assert_eq!(fr.devices[1].location, "Salon");
    assert_eq!(fr.devices[1].emoji, "📺");
    assert!(fr.devices[1].featured);
    assert_eq!(fr.devices[1].status, ApplianceStatus::Hidden);
    assert_eq!(fr.devices[1].order, 3);
}
