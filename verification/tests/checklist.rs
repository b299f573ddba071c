use portaki_modules::checklist::commands::{
    resolve_items, ChecklistItemInput, ReplaceError, ReplaceInput, ReplaceItemsArgs,
};
use portaki_modules::checklist::guest::{checkout_tips, guest_progress};
use portaki_modules::checklist::views::{build_home_card, host_item_slots, load_guest_checklist};
use portaki_modules::checklist::labels::{
    encode_labels, get_label, labels_from_item, lang_code, pick_label, ChecklistItem,
};
use portaki_modules::checklist::storage::{
    list_completed_item_ids, list_items, progress_percent, ChecklistCompletion, ChecklistError, ChecklistStore,
};

fn item(id: u128, fr: &str, en: &str, order: i32, created: i64) -> ChecklistItem {
    ChecklistItem { id, label_fr: fr.into(), label_en: en.into(), sort_order: order, created_at: created }
}

fn replace_inputs(items: &[(&str, &str, i32)]) -> Vec<ReplaceInput> {
    items
        .iter()
        .map(|(fr, en, o)| ReplaceInput { id: None, label_fr: fr.to_string(), label_en: en.to_string(), sort_order: *o })
        .collect()
}

#[test]
fn when_lost_found_then_returns_top_tips() {
    let items = vec![item(1, "Vider le frigo", "Empty the fridge", 0, 100), item(2, "Fermer les volets", "Close shutters", 1, 100)];
    let tips = checkout_tips(&items, "fr", "fr").expect("tips");
    assert!(tips.contains("Vider le frigo"));
    assert!(tips.contains("Fermer les volets"));
}

#[test]
fn complete_and_uncomplete_roundtrip() {
    let mut store = ChecklistStore { items: Vec::new(), completions: Vec::new() };
    store.replace_items_preserving_ids(replace_inputs(&[("Clés", "Keys", 0)]), 100);
    let items = list_items(&store.items);
    assert_eq!(items.len(), 1);
    let item_id = items[0].id;
    let stay = 42u128;
    store.complete_item(stay, item_id, 200).expect("complete");
    let done = list_completed_item_ids(&store.completions, stay);
    assert_eq!(done, vec![item_id]);
    store.uncomplete_item(stay, item_id);
    let done = list_completed_item_ids(&store.completions, stay);
    assert!(done.is_empty());
}

#[test]
fn labels_from_json_map_and_legacy_pair() {
    assert_eq!(lang_code("de-CH"), "de");
    let json_item = item(1, r#"{"fr-FR":" Clés ","de":"Schlüssel","it":"  "}"#, "Keys", 0, 0);
    let labels = labels_from_item(&json_item);
    assert_eq!(
        labels,
        vec![("de".to_string(), "Schlüssel".to_string()), ("en".to_string(), "Keys".to_string()), ("fr".to_string(), "Clés".to_string())]
    );
    assert_eq!(pick_label(&labels, "it", "de"), "Schlüssel");
    assert_eq!(pick_label(&labels, "en-US", "de"), "Keys");
    assert_eq!(get_label(&json_item, "es"), "");
    let legacy = item(2, " Poubelles ", "", 0, 0);
    assert_eq!(labels_from_item(&legacy), vec![("fr".to_string(), "Poubelles".to_string())]);
    let (json, en) = encode_labels(&vec![("EN-us".to_string(), " Bins ".to_string()), ("fr".to_string(), " ".to_string())]);
    assert_eq!(json, r#"{"en":"Bins"}"#);
    assert_eq!(en, "");
}

#[test]
fn items_listed_by_order_then_creation() {
    let items = vec![item(1, "b", "", 1, 50), item(2, "a", "", 0, 90), item(3, "c", "", 1, 10)];
    let listed: Vec<u128> = list_items(&items).iter().map(|i| i.id).collect();
    assert_eq!(listed, vec![2, 3, 1]);
}

#[test]
fn complete_is_idempotent_and_checks_the_item() {
    let mut store = ChecklistStore { items: vec![item(7, "x", "", 0, 0), item(8, "y", "", 1, 0)], completions: Vec::new() };
    assert_eq!(store.complete_item(1, 99, 5), Err(ChecklistError::ItemNotFound));
    store.complete_item(1, 7, 5).expect("complete");
    store.complete_item(1, 7, 6).expect("again");
    assert_eq!(store.completions.len(), 1);
    assert_eq!(progress_percent(&store, 1), 50);
    assert_eq!(progress_percent(&store, 2), 0);
    assert_eq!(guest_progress(&store.items, &vec![7, 8]), (2, 2, 100));
}

#[test]
fn replace_keeps_given_ids_and_creation() {
    let mut store = ChecklistStore { items: vec![item(7, "x", "", 0, 11), item(8, "y", "", 1, 12)], completions: Vec::new() };
    let inputs = vec![
        ReplaceInput { id: Some(8), label_fr: "Y".into(), label_en: "".into(), sort_order: 0 },
        ReplaceInput { id: None, label_fr: "Z".into(), label_en: "".into(), sort_order: 0 },
    ];
    store.replace_items_preserving_ids(inputs, 99);
    assert_eq!(store.items.len(), 2);
    assert_eq!(store.items[0].id, 8);
    assert_eq!(store.items[0].created_at, 12);
    assert_eq!(store.items[0].label_fr, "Y");
    assert_eq!(store.items[1].sort_order, 1);
    assert_eq!(store.items[1].created_at, 99);
}

#[test]
fn resolve_items_from_form_or_json() {
    let args = ReplaceItemsArgs {
        items: vec![
            ChecklistItemInput { label_fr: " ".into(), label_en: "".into(), sort_order: 4 },
            ChecklistItemInput { label_fr: " A ".into(), label_en: "".into(), sort_order: 0 },
        ],
        items_json: None,
    };
    let r = resolve_items(&args).expect("ok");
    assert_eq!(r.len(), 1);
    assert_eq!(r[0].label_fr, "A");
    assert_eq!(r[0].sort_order, 1);
    let json = ReplaceItemsArgs { items: Vec::new(), items_json: Some(r#"[{"labelFr":"B","sortOrder":3}]"#.into()) };
    let r = resolve_items(&json).expect("ok");
    assert_eq!(r[0].label_fr, "B");
    assert_eq!(r[0].sort_order, 3);
    let bad = ReplaceItemsArgs { items: Vec::new(), items_json: Some("{".into()) };
    assert_eq!(resolve_items(&bad).err(), Some(ReplaceError::InvalidItemsJson));
}

#[test]
fn progress_ignores_completions_of_deleted_items() {
    let row = |id: u128, item_id: u128| ChecklistCompletion { id, stay_id: 1, item_id, completed_at: 0 };
    let store = ChecklistStore { items: vec![item(7, "x", "", 0, 0)], completions: vec![row(1, 7), row(2, 99)] };
    assert_eq!(progress_percent(&store, 1), 100);
    let duplicated = ChecklistStore {
        items: vec![item(7, "x", "", 0, 0), item(8, "y", "", 1, 0), item(9, "z", "", 2, 0)],
        completions: vec![row(1, 7), row(2, 7), row(3, 7)],
    };
    assert_eq!(progress_percent(&duplicated, 1), 33);
    let empty = ChecklistStore { items: Vec::new(), completions: vec![row(1, 7)] };
    assert_eq!(progress_percent(&empty, 1), 0);
}

fn guest_card_of(store: &ChecklistStore, stay: u128) -> Option<portaki_modules::checklist::views::HomeCard> {
    let items = list_items(&store.items);
    let completed = list_completed_item_ids(&store.completions, stay);
    load_guest_checklist(items, completed, "fr", "fr").map(|data| build_home_card(&data))
}

#[test]
fn home_card_empty_when_no_items() {
    let store = ChecklistStore { items: Vec::new(), completions: Vec::new() };
    assert!(guest_card_of(&store, 1).is_none());
}

#[test]
fn home_card_renders_toggles_with_items() {
    let args = ReplaceItemsArgs {
        items: vec![
            ChecklistItemInput { label_fr: "Fermer les volets".into(), label_en: "Close shutters".into(), sort_order: 0 },
            ChecklistItemInput { label_fr: "Sortir les poubelles".into(), label_en: "Take out bins".into(), sort_order: 1 },
        ],
        items_json: None,
    };
    let items = resolve_items(&args).expect("replace");
    let mut store = ChecklistStore { items: Vec::new(), completions: Vec::new() };
    store.replace_items_preserving_ids(
        items
            .into_iter()
            .map(|i| ReplaceInput { id: None, label_fr: i.label_fr, label_en: i.label_en, sort_order: i.sort_order })
            .collect(),
        100,
    );
    let card = guest_card_of(&store, 1).expect("card");
    assert_eq!(card.rows.len(), 2);
    assert!(card.rows.iter().any(|r| r.label == "Fermer les volets" || r.label == "Close shutters"));
    // Unchecked rows carry the complete command.
    assert!(card.rows.iter().all(|r| !r.checked));
    assert_eq!(card.progress, "0 / 2 — 0%");
}

#[test]
fn host_main_renders_form() {
    let slots = host_item_slots(&Vec::new(), "fr");
    assert_eq!(slots.len(), 6);
    assert!(slots.iter().all(|s| s.is_empty()));
}

#[test]
fn uncomplete_leaves_other_stays_untouched() {
    let mut store = ChecklistStore { items: vec![item(7, "x", "", 0, 0)], completions: Vec::new() };
    store.complete_item(1, 7, 5).expect("stay 1");
    store.complete_item(2, 7, 6).expect("stay 2");
    let before = store.completions.clone();
    store.complete_item(3, 7, 7).expect("stay 3");
    store.uncomplete_item(3, 7);
    assert_eq!(store.completions, before);
    store.uncomplete_item(1, 7);
    assert_eq!(list_completed_item_ids(&store.completions, 2), vec![7]);
    assert!(list_completed_item_ids(&store.completions, 1).is_empty());
}
