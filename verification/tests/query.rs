use pasteharbor::settings::{normalize_max_history, DEFAULT_MAX_HISTORY};
use pasteharbor::query::{
    item_not_found_message, missing_column_statements, query_limit, search_pattern,
    stored_image_mime,
};
use pasteharbor::service::{
    choose_app_program, choose_data_dir_base, watchdog_decision, AppProgram, DataDirBase,
    WatchdogAction, APP_PROGRAM_NAME, DATABASE_FILE_NAME, DATA_DIR_NAME, HOME_DATA_DIR,
};

#[test]
fn limits_are_capped() {
    assert_eq!(query_limit(0), 1);
    assert_eq!(query_limit(1), 1);
    assert_eq!(query_limit(75), 75);
    assert_eq!(query_limit(250), 250);
    assert_eq!(query_limit(500), 500);
    assert_eq!(query_limit(10_000), 10_000);
    assert_eq!(query_limit(10_001), 10_000);
    assert_eq!(query_limit(u32::MAX), 10_000);
}

#[test]
fn search_patterns_wrap_trimmed_query() {
    assert_eq!(search_pattern(None), None);
    assert_eq!(search_pattern(Some("")), None);
    assert_eq!(search_pattern(Some(" \t ")), None);
    assert_eq!(search_pattern(Some(" foo bar ")), Some("%foo bar%".to_string()));
}

#[test]
fn image_mime_defaults_to_png() {
    assert_eq!(stored_image_mime(None), "image/png");
    assert_eq!(stored_image_mime(Some("image/gif".into())), "image/gif");
}

#[test]
fn upgrades_add_only_missing_columns() {
    let all = missing_column_statements(&vec![]);
    assert_eq!(
        all,
        vec![
            "ALTER TABLE clipboard_items ADD COLUMN content_blob BLOB",
            "ALTER TABLE clipboard_items ADD COLUMN thumbnail BLOB",
            "ALTER TABLE clipboard_items ADD COLUMN mime_type TEXT",
            "ALTER TABLE clipboard_items ADD COLUMN width INTEGER",
            "ALTER TABLE clipboard_items ADD COLUMN height INTEGER",
        ]
    );
    let some = missing_column_statements(&vec!["id".into(), "thumbnail".into(), "width".into()]);
    assert_eq!(
        some,
        vec![
            "ALTER TABLE clipboard_items ADD COLUMN content_blob BLOB",
            "ALTER TABLE clipboard_items ADD COLUMN mime_type TEXT",
            "ALTER TABLE clipboard_items ADD COLUMN height INTEGER",
        ]
    );
    let none = missing_column_statements(&vec![
        "content_blob".into(),
        "thumbnail".into(),
        "mime_type".into(),
        "width".into(),
        "height".into(),
    ]);
    assert!(none.is_empty());
}

#[test]
fn not_found_message_names_the_item() {
    assert_eq!(item_not_found_message(7), "clipboard item 7 not found");
    assert_eq!(item_not_found_message(-1), "clipboard item -1 not found");
}

#[test]
fn app_program_choice() {
    assert_eq!(choose_app_program(true, true), AppProgram::Configured);
    assert_eq!(choose_app_program(true, false), AppProgram::Configured);
    assert_eq!(choose_app_program(false, true), AppProgram::Sibling);
    assert_eq!(choose_app_program(false, false), AppProgram::OnSearchPath);
    assert_eq!(APP_PROGRAM_NAME, "pasteharbor-app");
}

#[test]
fn data_directory_choice() {
    assert_eq!(choose_data_dir_base(true, true), DataDirBase::XdgDataHome);
    assert_eq!(choose_data_dir_base(true, false), DataDirBase::XdgDataHome);
    assert_eq!(choose_data_dir_base(false, true), DataDirBase::HomeDataDir);
    assert_eq!(choose_data_dir_base(false, false), DataDirBase::CurrentDir);
    assert_eq!((HOME_DATA_DIR, DATA_DIR_NAME, DATABASE_FILE_NAME), (".local/share", "pasteharbor", "pasteharbor.db"));
}

#[test]
fn watchdog_exits_when_name_is_lost() {
    assert_eq!(watchdog_decision(Some(true)), WatchdogAction::KeepServing);
    assert_eq!(watchdog_decision(Some(false)), WatchdogAction::ExitForRestart);
    assert_eq!(watchdog_decision(None), WatchdogAction::ExitAfterFailedCheck);
}

#[test]
fn surrounding_space_does_not_change_search() {
    assert_eq!(search_pattern(Some("\tfoo ")), search_pattern(Some("foo")));
}

#[test]
fn listing_at_the_history_size_returns_the_whole_history() {
    for size in [DEFAULT_MAX_HISTORY, 10, 10_000, 777] {
        let max_history = normalize_max_history(size);
        assert!(query_limit(max_history) >= max_history as i64);
    }
}
