use clipforge::{
    AppEvent, AppState, ClipboardContentType, ClipboardEntry, ClipboardItemView, ContentTypeError,
    ItemType, Selection, Settings, UiAction,
};

fn entry(id: i64, content: &str, content_type: ClipboardContentType, pinned: bool) -> ClipboardEntry {
    ClipboardEntry { id, content: content.to_string(), content_type, created_at: 1000, pinned }
}

fn text(id: i64, pinned: bool) -> ClipboardEntry {
    entry(id, "x", ClipboardContentType::Text, pinned)
}

#[test]
fn content_type_names_round_trip() {
    for t in [ClipboardContentType::Text, ClipboardContentType::Image, ClipboardContentType::File] {
        assert_eq!(ClipboardContentType::column_result(t.to_sql()), Ok(t));
    }
    assert_eq!(ClipboardContentType::Text.to_sql(), "text");
    assert_eq!(ClipboardContentType::Image.to_sql(), "image");
    assert_eq!(ClipboardContentType::File.to_sql(), "file");
}

#[test]
fn unknown_content_type_is_refused() {
    assert_eq!(ClipboardContentType::column_result("blob"), Err(ContentTypeError::InvalidType));
    assert_eq!(ClipboardContentType::column_result("Text"), Err(ContentTypeError::InvalidType));
    assert_eq!(ClipboardContentType::column_result(""), Err(ContentTypeError::InvalidType));
}

#[test]
fn default_settings() {
    let s = Settings::default();
    assert_eq!(s.window_width, 1000);
    assert_eq!(s.window_height, 700);
    assert_eq!(s.max_history_items, 10);
    assert_eq!(s.poll_interval, 1000);
}

#[test]
fn settings_display_text() {
    let s = Settings::default();
    assert_eq!(
        s.display_text(),
        "Settings {\n    window_width: 1000,\n    window_height: 700,\n    max_history_items: 10,\n    poll_interval: 1000\n}"
    );
    let t = Settings { window_width: 0, window_height: 1, max_history_items: 25, poll_interval: 250 };
    assert_eq!(
        t.display_text(),
        "Settings {\n    window_width: 0,\n    window_height: 1,\n    max_history_items: 25,\n    poll_interval: 250\n}"
    );
}

#[test]
fn item_view_of_short_text() {
    let e = entry(3, "hello", ClipboardContentType::Text, true);
    let v = ClipboardItemView::from_at(&e, 1000 + 90);
    assert_eq!(v.id, 3);
    assert_eq!(v.content_preview, "hello");
    assert_eq!(v.timestamp, "1m ago");
    assert_eq!(v.item_type, ItemType::Text);
    assert_eq!(v.full_content, "hello");
    assert!(v.pinned);
}

#[test]
fn long_text_preview_is_cut() {
    let long = "a".repeat(200);
    let e = entry(1, &long, ClipboardContentType::Text, false);
    let v = ClipboardItemView::from_at(&e, 1000);
    assert_eq!(v.content_preview, format!("{}...", "a".repeat(120)));
    assert_eq!(v.full_content, long);
    assert_eq!(v.timestamp, "Just now");
}

#[test]
fn preview_cut_counts_bytes() {
    let exact = "a".repeat(120);
    let v = ClipboardItemView::from_at(&entry(1, &exact, ClipboardContentType::Text, false), 0);
    assert_eq!(v.content_preview, exact);
    let accents = "é".repeat(60);
    let v = ClipboardItemView::from_at(&entry(1, &accents, ClipboardContentType::Text, false), 0);
    assert_eq!(v.content_preview, accents);
    let more = "é".repeat(61);
    let v = ClipboardItemView::from_at(&entry(1, &more, ClipboardContentType::Text, false), 0);
    assert_eq!(v.content_preview, format!("{}...", "é".repeat(60)));
}

#[test]
fn item_types() {
    let t = |c: &str, k: ClipboardContentType| ClipboardItemView::from_at(&entry(1, c, k, false), 0).item_type;
    assert_eq!(t("http://example.com", ClipboardContentType::Text), ItemType::Link);
    assert_eq!(t("https://example.com", ClipboardContentType::Text), ItemType::Link);
    assert_eq!(t("see https://example.com", ClipboardContentType::Text), ItemType::Text);
    assert_eq!(t("x data:image/png;base64,AAAA", ClipboardContentType::Text), ItemType::Image);
    assert_eq!(t("plain", ClipboardContentType::Text), ItemType::Text);
    assert_eq!(t("plain", ClipboardContentType::Image), ItemType::Image);
    assert_eq!(t("https://x", ClipboardContentType::File), ItemType::File);
}

#[test]
fn item_view_from_now() {
    let mut e = entry(9, "now", ClipboardContentType::Text, false);
    e.created_at = clipforge::unix_now();
    let v = ClipboardItemView::from(&e);
    assert_eq!(v.timestamp, "Just now");
    assert_eq!(v.id, 9);
}

#[test]
fn select_next_stops_at_last_row() {
    let mut s = Selection::new();
    assert_eq!(s.selected_index, Some(0));
    s.select_next(3);
    assert_eq!(s.selected_index, Some(1));
    s.select_next(3);
    s.select_next(3);
    assert_eq!(s.selected_index, Some(2));
    s.select_next(0);
    assert_eq!(s.selected_index, Some(2));
    let mut n = Selection { selected_index: None };
    n.select_next(5);
    assert_eq!(n.selected_index, Some(1));
    let mut far = Selection { selected_index: Some(10) };
    far.select_next(4);
    assert_eq!(far.selected_index, Some(3));
}

#[test]
fn select_previous_stops_at_first_row() {
    let mut s = Selection { selected_index: Some(2) };
    s.select_previous();
    assert_eq!(s.selected_index, Some(1));
    s.select_previous();
    s.select_previous();
    assert_eq!(s.selected_index, Some(0));
    let mut n = Selection { selected_index: None };
    n.select_previous();
    assert_eq!(n.selected_index, Some(0));
    n.select(4);
    assert_eq!(n.selected_index, Some(4));
}

#[test]
fn actions_on_selected_row() {
    let items = vec![text(10, false), text(11, true), text(12, false)];
    let s = Selection { selected_index: Some(1) };
    assert_eq!(s.copy_selected(&items), Some(11));
    assert!(matches!(s.toggle_pin_selected(&items), Some(UiAction::TogglePin(11, false))));
    let out = Selection { selected_index: Some(3) };
    assert_eq!(out.copy_selected(&items), None);
    assert!(out.toggle_pin_selected(&items).is_none());
    let none = Selection { selected_index: None };
    assert_eq!(none.copy_selected(&items), None);
}

#[test]
fn deleting_last_row_moves_selection_up() {
    let items = vec![text(10, false), text(11, true), text(12, false)];
    let mut s = Selection { selected_index: Some(2) };
    assert!(matches!(s.delete_selected(&items), Some(UiAction::Delete(12))));
    assert_eq!(s.selected_index, Some(1));
    let mut m = Selection { selected_index: Some(1) };
    assert!(matches!(m.delete_selected(&items), Some(UiAction::Delete(11))));
    assert_eq!(m.selected_index, Some(1));
    let one = vec![text(7, false)];
    let mut f = Selection { selected_index: Some(0) };
    assert!(matches!(f.delete_selected(&one), Some(UiAction::Delete(7))));
    assert_eq!(f.selected_index, Some(0));
    let mut o = Selection { selected_index: Some(5) };
    assert!(o.delete_selected(&one).is_none());
    assert_eq!(o.selected_index, Some(5));
}

#[test]
fn app_state_holds_items() {
    let mut st = AppState::new(Settings::default(), vec![text(1, false)]);
    assert_eq!(st.get_items().len(), 1);
    st.set_items(vec![text(2, false), text(3, true)]);
    let ids: Vec<i64> = st.get_items().iter().map(|e| e.id).collect();
    assert_eq!(ids, vec![2, 3]);
    assert_eq!(st.settings, Settings::default());
}

#[test]
fn events_carry_their_data() {
    let ev = AppEvent::HistoryUpdated(vec![text(1, false)]);
    match ev {
        AppEvent::HistoryUpdated(items) => assert_eq!(items[0].id, 1),
    }
    let a = UiAction::Search("q".to_string());
    assert!(matches!(a, UiAction::Search(ref q) if q == "q"));
}
