use pasteharbor::settings::{AppSettings, ClipboardItemSummary};
use serde_json::Value;

fn summary_to_json(item: &ClipboardItemSummary) -> String {
    let mut map = serde_json::Map::new();
    map.insert("id".into(), Value::from(item.id));
    map.insert("created_at".into(), Value::from(item.created_at.clone()));
    map.insert("last_used_at".into(), Value::from(item.last_used_at.clone()));
    map.insert("kind".into(), Value::from(item.kind.clone()));
    map.insert("preview_text".into(), Value::from(item.preview_text.clone()));
    map.insert(
        "source_app".into(),
        match &item.source_app {
            Some(app) => Value::from(app.clone()),
            None => Value::Null,
        },
    );
    map.insert("size_bytes".into(), Value::from(item.size_bytes));
    serde_json::to_string(&Value::Object(map)).unwrap()
}

fn summary_from_json(json: &str) -> ClipboardItemSummary {
    let value: Value = serde_json::from_str(json).unwrap();
    let text = |key: &str| value[key].as_str().unwrap().to_string();
    ClipboardItemSummary {
        id: value["id"].as_i64().unwrap(),
        created_at: text("created_at"),
        last_used_at: text("last_used_at"),
        kind: text("kind"),
        preview_text: text("preview_text"),
        source_app: value["source_app"].as_str().map(str::to_string),
        size_bytes: value["size_bytes"].as_i64().unwrap(),
    }
}

#[test]
fn clipboard_item_summary_round_trips_json() {
    let item = ClipboardItemSummary {
        id: 42,
        created_at: "2026-06-05T10:00:00Z".to_string(),
        last_used_at: "2026-06-05T10:01:00Z".to_string(),
        kind: "text".to_string(),
        preview_text: "hello from PasteHarbor".to_string(),
        source_app: Some("gnome-shell".to_string()),
        size_bytes: 22,
    };

    let json = summary_to_json(&item);
    let decoded = summary_from_json(&json);

    assert_eq!(decoded, item);
}

#[test]
fn app_settings_round_trips_json() {
    let settings = AppSettings { max_history: 250 };

    let mut map = serde_json::Map::new();
    map.insert("max_history".into(), Value::from(settings.max_history));
    let json = serde_json::to_string(&Value::Object(map)).unwrap();
    let value: Value = serde_json::from_str(&json).unwrap();
    let decoded = AppSettings {
        max_history: value["max_history"].as_u64().unwrap() as u32,
    };

    assert_eq!(decoded, settings);
}
