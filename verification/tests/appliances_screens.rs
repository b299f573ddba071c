use portaki_modules::appliances::bundle::AppliancesBundle;
use portaki_modules::appliances::commands::{check_appliance_name, save_appliance, ApplianceError, SaveApplianceArgs};
use portaki_modules::appliances::content::{ApplianceStatus, AppliancesPayload};
use portaki_modules::appliances::queries::{get_content, save_payload_for};
use portaki_modules::appliances::views::{build_home_card, build_item_detail, devices_list, HowTo};

/// The stored row: French and English content slots.
type Row = (String, String);

fn save(row: Row, args: SaveApplianceArgs) -> Row {
    check_appliance_name(&args).expect("name");
    let bundle = AppliancesBundle::from_row(&row.0, &row.1);
    let payload = bundle.pick("fr", "fr");
    let (next, _) = save_appliance(&payload, &args).expect("save");
    (save_payload_for(bundle, "fr", &next), String::new())
}

fn seed_two_devices() -> Row {
    let row = save(
        (String::new(), String::new()),
        SaveApplianceArgs {
            id: Some("tv".into()),
            name: "Télévision".into(),
            emoji: "📺".into(),
            description: r#"{"type":"doc","content":[{"type":"bulletList","content":[{"type":"listItem","content":[{"type":"paragraph","content":[{"type":"text","text":"Allumez avec la télécommande."}]}]}]}]}"#.into(),
            featured: true,
            order: Some(0),
            location: "Salon · Samsung 55\"".into(),
            manual_url: "https://example.com/tv-manual".into(),
            safety_note: String::new(),
            status: ApplianceStatus::Active,
        },
    );
    save(
        row,
        SaveApplianceArgs {
            id: Some("washer".into()),
            name: "Lave-linge".into(),
            emoji: "🌀".into(),
            description: r#"{"type":"doc","content":[{"type":"paragraph","content":[{"type":"text","text":"ECO 30°"}]}]}"#.into(),
            featured: false,
            order: Some(1),
            location: "Salle de bain · Bosch".into(),
            manual_url: String::new(),
            safety_note: "Pas de machine après 21 h.".into(),
            status: ApplianceStatus::Active,
        },
    )
}

fn guest_payload(row: Option<Row>) -> AppliancesPayload {
    let view = get_content(row, "fr-FR", "fr");
    AppliancesPayload { devices: view.devices, safety_notice: view.safety_notice }
}

#[test]
fn home_card_empty_without_content() {
    let payload = guest_payload(None);
    assert!(payload.is_empty_for_guest());
    assert!(build_home_card(&payload).is_empty());
}

#[test]
fn home_card_featured_only_and_detail_list() {
    let payload = guest_payload(Some(seed_two_devices()));
    let card = build_home_card(&payload);
    assert!(!card.is_empty());
    assert!(card.iter().any(|r| r.title.contains("Télévision") && r.id == "tv"));
    assert!(!card.iter().any(|r| r.title.contains("Lave-linge")));
    let detail = devices_list(&payload);
    assert!(detail.iter().any(|r| r.title.contains("Télévision")));
    assert!(detail.iter().any(|r| r.title.contains("Lave-linge") && r.id == "washer"));
}

#[test]
fn explore_item_uses_device_id_and_howto_steps() {
    let payload = guest_payload(Some(seed_two_devices()));
    let tv = build_item_detail(&payload, Some("tv")).expect("tv");
    assert_eq!(tv.name, "Télévision");
    match &tv.howto {
        HowTo::Steps(steps) => assert!(steps.iter().any(|s| s.contains("Allumez avec la télécommande."))),
        _ => panic!("expected steps"),
    }
    assert_eq!(tv.manual_url.as_deref(), Some("https://example.com/tv-manual"));
    assert!(!tv.name.contains("Lave-linge"));

    let washer = build_item_detail(&payload, Some("washer")).expect("washer");
    assert_eq!(washer.name, "Lave-linge");
    assert_eq!(washer.safety_note.as_deref(), Some("Pas de machine après 21 h."));
    match &washer.howto {
        HowTo::Html(html) => assert!(html.contains("ECO 30")),
        _ => panic!("expected html"),
    }
}

#[test]
fn explore_item_missing_device_id_is_not_found() {
    let payload = guest_payload(Some(seed_two_devices()));
    assert!(build_item_detail(&payload, None).is_none());
}

#[test]
fn get_content_returns_devices() {
    let view = get_content(Some(seed_two_devices()), "fr-FR", "fr");
    assert_eq!(view.devices.len(), 2);
    assert!(view.devices.iter().any(|d| d.name.contains("Télévision")));
}

#[test]
fn migrates_legacy_payload_on_read() {
    let legacy = r#"{"safety_notice":"Coupez l'eau en cas de fuite.","devices":[{"id":"tv","icon":"📺","title":"Télévision","subtitle":"Salon","steps":["Allumez","HDMI 1"],"tip":"Remote on stand"}]}"#;
    let view = get_content(Some((legacy.to_string(), String::new())), "fr-FR", "fr");
    assert_eq!(view.devices.len(), 1);
    assert_eq!(view.devices[0].name, "Télévision");
    assert_eq!(view.devices[0].emoji, "📺");
    assert!(!view.devices[0].featured);
    assert!(view.devices[0].description.contains("bulletList"));
    assert!(view.safety_notice.contains("Coupez l'eau"));
    let payload = AppliancesPayload { devices: view.devices, safety_notice: view.safety_notice };
    assert!(build_home_card(&payload).is_empty());
}

#[test]
fn blank_name_is_refused_before_anything_is_read() {
    let args = SaveApplianceArgs {
        id: None,
        name: "  ".into(),
        emoji: String::new(),
        description: String::new(),
        featured: false,
        order: None,
        location: String::new(),
        manual_url: String::new(),
        safety_note: String::new(),
        status: ApplianceStatus::Active,
    };
    assert!(matches!(check_appliance_name(&args), Err(ApplianceError::NameRequired)));
}
