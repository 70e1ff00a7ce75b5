use pasteharbor::view::{
    cleared_status, clear_confirmed, delete_outcome, desktop_id_candidates, item_count_status,
    items_request, leading_visual, opens_new_window, page_for_answer, refreshes_on_tick,
    DeleteOutcome, ItemsRequest, LeadingVisual, ListCache, Page, RefreshAction, UiSettings,
    DEFAULT_ROW_LIMIT,
};

#[test]
fn blank_query_lists_recent_entries() {
    assert_eq!(items_request(""), ItemsRequest::ListRecent);
    assert_eq!(items_request("  \n"), ItemsRequest::ListRecent);
    assert_eq!(items_request(" foo "), ItemsRequest::Search);
}

#[test]
fn same_answer_keeps_the_list() {
    let mut cache = ListCache::new();
    assert_eq!(cache.on_answer(Some("")), RefreshAction::KeepList);
    assert_eq!(cache.on_answer(Some("[]")), RefreshAction::Rebuild);
    assert_eq!(cache.on_answer(Some("[]")), RefreshAction::KeepList);
    assert_eq!(cache.on_answer(None), RefreshAction::ShowUnavailable);
    assert_eq!(cache.on_answer(Some("[]")), RefreshAction::KeepList);
    assert_eq!(cache.on_answer(Some("[1]")), RefreshAction::Rebuild);
    cache.invalidate();
    assert_eq!(cache.on_answer(Some("[1]")), RefreshAction::Rebuild);
    cache.invalidate();
    assert_eq!(cache.on_answer(Some("")), RefreshAction::KeepList);
}

#[test]
fn status_texts() {
    assert_eq!(item_count_status(0), "0 item(s)");
    assert_eq!(item_count_status(12), "12 item(s)");
    assert_eq!(cleared_status(3), "Cleared 3 item(s)");
}

#[test]
fn new_window_settings() {
    let settings = UiSettings::default();
    assert!(settings.auto_refresh);
    assert_eq!(settings.row_limit, DEFAULT_ROW_LIMIT);
    assert_eq!(DEFAULT_ROW_LIMIT, 75);
}

#[test]
fn thumbnail_only_for_images_that_have_one() {
    assert_eq!(leading_visual("image", true), LeadingVisual::Thumbnail);
    assert_eq!(leading_visual("image", false), LeadingVisual::KindIcon);
    assert_eq!(leading_visual("text", true), LeadingVisual::KindIcon);
}

#[test]
fn desktop_ids_to_try() {
    assert_eq!(desktop_id_candidates("firefox"), vec!["firefox", "firefox.desktop"]);
    assert_eq!(desktop_id_candidates("org.gnome.Nautilus.desktop"), vec!["org.gnome.Nautilus.desktop"]);
    assert_eq!(desktop_id_candidates(""), vec!["", ".desktop"]);
    assert_eq!(desktop_id_candidates("x.deskto"), vec!["x.deskto", "x.deskto.desktop"]);
}

#[test]
fn page_follows_the_answer() {
    let c = page_for_answer(false, None);
    assert_eq!((c.page, c.status.as_deref()), (Page::Unavailable, Some("Disconnected")));
    let c = page_for_answer(true, None);
    assert_eq!((c.page, c.status.as_deref()), (Page::Unreadable, None));
    let c = page_for_answer(true, Some(0));
    assert_eq!((c.page, c.status.as_deref()), (Page::EmptyHistory, Some("Empty")));
    let c = page_for_answer(true, Some(3));
    assert_eq!((c.page, c.status.as_deref()), (Page::Entries, Some("3 item(s)")));
}

#[test]
fn window_reactions() {
    assert_eq!(delete_outcome(Some(true)), DeleteOutcome::RemoveRow);
    assert_eq!(delete_outcome(Some(false)), DeleteOutcome::AlreadyGone);
    assert_eq!(delete_outcome(None), DeleteOutcome::Failed);
    assert!(clear_confirmed("clear"));
    assert!(!clear_confirmed("cancel"));
    assert!(!clear_confirmed("Clear"));
    assert!(refreshes_on_tick(&UiSettings { auto_refresh: true, row_limit: 75 }));
    assert!(!refreshes_on_tick(&UiSettings { auto_refresh: false, row_limit: 75 }));
    assert!(opens_new_window(false));
    assert!(!opens_new_window(true));
}
