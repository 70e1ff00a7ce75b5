use pasteharbor::settings::{
    max_history_from_setting, max_history_setting_text, normalize_max_history, parse_u32,
    prepare_max_history, AppSettings, ClipboardItemSummary, DEFAULT_MAX_HISTORY,
    MAX_MAX_HISTORY, MIN_MAX_HISTORY,
};

#[test]
fn normalizes_max_history_bounds() {
    assert_eq!(normalize_max_history(0), MIN_MAX_HISTORY);
    assert_eq!(
        normalize_max_history(DEFAULT_MAX_HISTORY),
        DEFAULT_MAX_HISTORY
    );
    assert_eq!(normalize_max_history(u32::MAX), MAX_MAX_HISTORY);
}

#[test]
fn normalize_edges() {
    assert_eq!(normalize_max_history(9), 10);
    assert_eq!(normalize_max_history(10), 10);
    assert_eq!(normalize_max_history(10_000), 10_000);
    assert_eq!(normalize_max_history(10_001), 10_000);
    assert_eq!(normalize_max_history(normalize_max_history(3)), normalize_max_history(3));
}

#[test]
fn parses_like_std() {
    for text in [
        "", "+", "-", "0", "+0", "-0", "42", "+42", "007", "4294967295", "4294967296",
        "99999999999", " 5", "5 ", "1_000", "12a", "+-1", "++1",
    ] {
        assert_eq!(parse_u32(text), text.parse::<u32>().ok(), "{text:?}");
    }
}

#[test]
fn reads_stored_history_size() {
    assert_eq!(max_history_from_setting(None), DEFAULT_MAX_HISTORY);
    assert_eq!(max_history_from_setting(Some("250")), 250);
    assert_eq!(max_history_from_setting(Some("abc")), DEFAULT_MAX_HISTORY);
    assert_eq!(max_history_from_setting(Some("3")), MIN_MAX_HISTORY);
    assert_eq!(max_history_from_setting(Some("123456")), MAX_MAX_HISTORY);
    assert_eq!(max_history_from_setting(Some("99999999999")), DEFAULT_MAX_HISTORY);
}

#[test]
fn stored_history_size_round_trips() {
    for requested in [0u32, 9, 10, 250, 500, 10_000, 10_001, u32::MAX] {
        let (value, text) = prepare_max_history(requested);
        assert_eq!(value, normalize_max_history(requested));
        assert_eq!(text, value.to_string());
        assert_eq!(max_history_from_setting(Some(&text)), value);
    }
    assert_eq!(max_history_setting_text(0), "0");
}

#[test]
fn summary_and_settings_hold_their_fields() {
    let item = ClipboardItemSummary {
        id: 42,
        created_at: "2026-06-05T10:00:00Z".to_string(),
        last_used_at: "2026-06-05T10:01:00Z".to_string(),
        kind: "text".to_string(),
        preview_text: "hello from PasteHarbor".to_string(),
        source_app: Some("gnome-shell".to_string()),
        size_bytes: 22,
    };
    assert_eq!(item.clone(), item);
    let settings = AppSettings { max_history: 250 };
    assert_eq!(settings, AppSettings { max_history: 250 });
}
