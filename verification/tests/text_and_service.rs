use clipforge::{
    entry_to_insert, format_time_ago, format_time_ago_at, fts_query, history_query_for, normalize,
    prepare_clipboard_text, unix_now, ClipboardContentType, ClipboardEntry, HistoryQuery,
    ListenerState, HISTORY_REFRESH_LIMIT,
};
use clipforge::decimal::to_decimal;
use clipforge::text::{contains, starts_with, str_eq, trim};

fn entry(id: i64, content: &str, pinned: bool) -> ClipboardEntry {
    ClipboardEntry {
        id,
        content: content.to_string(),
        content_type: ClipboardContentType::Text,
        created_at: 1_700_000_000,
        pinned,
    }
}

#[test]
fn normalize_collapses_white_space() {
    assert_eq!(normalize("  hello   world \n".to_string()), "hello world");
    assert_eq!(normalize("a\tb\r\nc".to_string()), "a b c");
    assert_eq!(normalize("one".to_string()), "one");
}

#[test]
fn normalize_of_blank_text_is_empty() {
    assert_eq!(normalize(String::new()), "");
    assert_eq!(normalize(" \t\n  ".to_string()), "");
}

#[test]
fn normalize_handles_unicode_white_space() {
    assert_eq!(normalize("a\u{3000}b\u{00A0}\u{2003}c".to_string()), "a b c");
    assert_eq!(normalize("\u{85}x\u{2028}".to_string()), "x");
    assert_eq!(normalize("çé  ü".to_string()), "çé ü");
}

#[test]
fn normalize_is_idempotent() {
    for raw in ["  a  b  ", "x", "", "\n\n q \t r s\u{3000}", "héllo   wörld"] {
        let once = normalize(raw.to_string());
        let twice = normalize(once.clone());
        assert_eq!(once, twice);
    }
}

#[test]
fn trim_and_full_text_query() {
    assert_eq!(trim("  foo bar \n"), "foo bar");
    assert_eq!(trim("   "), "");
    assert_eq!(fts_query("  foo "), "foo*");
    assert_eq!(fts_query(""), "*");
    assert_eq!(fts_query("a b"), "a b*");
}

#[test]
fn string_helpers() {
    assert!(str_eq("abc", "abc"));
    assert!(!str_eq("abc", "abd"));
    assert!(!str_eq("abc", "ab"));
    assert!(starts_with("https://x", "https://"));
    assert!(!starts_with("http", "http://"));
    assert!(contains("xx data:image/png", "data:image"));
    assert!(!contains("data:imag", "data:image"));
    assert!(contains("abc", ""));
}

#[test]
fn decimal_rendering() {
    assert_eq!(to_decimal(0), "0");
    assert_eq!(to_decimal(7), "7");
    assert_eq!(to_decimal(10), "10");
    assert_eq!(to_decimal(1234567890), "1234567890");
    assert_eq!(to_decimal(u64::MAX), "18446744073709551615");
}

#[test]
fn blank_clipboard_text_is_not_recorded() {
    assert_eq!(prepare_clipboard_text("   \n\t".to_string()), None);
    assert_eq!(prepare_clipboard_text(String::new()), None);
    assert_eq!(prepare_clipboard_text("  a \n b ".to_string()), Some("a b".to_string()));
}

#[test]
fn repeated_text_is_not_inserted() {
    let latest = vec![entry(5, "same text", false), entry(4, "older", true)];
    assert!(entry_to_insert("same text".to_string(), &latest, 10).is_none());
}

#[test]
fn new_text_is_inserted() {
    let latest = vec![entry(5, "older", true)];
    let e = entry_to_insert("fresh".to_string(), &latest, 1234).expect("inserted");
    assert_eq!(e.id, 0);
    assert_eq!(e.content, "fresh");
    assert_eq!(e.content_type, ClipboardContentType::Text);
    assert_eq!(e.created_at, 1234);
    assert!(!e.pinned);
    assert!(entry_to_insert("first".to_string(), &[], 1).is_some());
    // only the newest entry counts
    let latest = vec![entry(5, "a", false), entry(4, "b", false)];
    assert!(entry_to_insert("b".to_string(), &latest, 1).is_some());
}

#[test]
fn recording_the_same_reading_twice_inserts_once() {
    let raw = "  copied   text ".to_string();
    let content = prepare_clipboard_text(raw.clone()).unwrap();
    let first = entry_to_insert(content, &[], 100).unwrap();
    let latest = vec![first.clone()];
    let again = prepare_clipboard_text(raw).unwrap();
    assert!(entry_to_insert(again, &latest, 200).is_none());
    let recopied = prepare_clipboard_text(first.content.clone()).unwrap();
    assert_eq!(recopied, first.content);
    assert!(entry_to_insert(recopied, &latest, 300).is_none());
}

#[test]
fn search_of_blank_text_shows_latest() {
    assert_eq!(
        history_query_for("   ".to_string()),
        HistoryQuery::Latest { limit: 100, offset: 0 }
    );
    assert_eq!(history_query_for(String::new()), HistoryQuery::Latest { limit: 100, offset: 0 });
    assert_eq!(HISTORY_REFRESH_LIMIT, 100);
}

#[test]
fn search_of_text_keeps_query() {
    assert_eq!(
        history_query_for(" rust ".to_string()),
        HistoryQuery::Search { query: " rust ".to_string(), limit: 100, offset: 0 }
    );
}

#[test]
fn time_ago_labels() {
    assert_eq!(format_time_ago_at(100, 105), "Just now");
    assert_eq!(format_time_ago_at(100, 100), "Just now");
    assert_eq!(format_time_ago_at(159, 100), "Just now");
    assert_eq!(format_time_ago_at(160, 100), "1m ago");
    assert_eq!(format_time_ago_at(3599, 0), "59m ago");
    assert_eq!(format_time_ago_at(3600, 0), "1h ago");
    assert_eq!(format_time_ago_at(86399, 0), "23h ago");
    assert_eq!(format_time_ago_at(86400, 0), "1d ago");
    assert_eq!(format_time_ago_at(200_000, 0), "2d ago");
}

#[test]
fn time_ago_extremes_do_not_overflow() {
    assert_eq!(format_time_ago_at(i64::MAX, i64::MIN), "213503982334601d ago");
    assert_eq!(format_time_ago_at(i64::MIN, i64::MAX), "Just now");
}

#[test]
fn clock_reads_the_present() {
    let now = unix_now();
    assert!(now > 1_600_000_000);
    assert_eq!(format_time_ago(now), "Just now");
    assert_eq!(format_time_ago(now - 7200), "2h ago");
}

#[test]
fn listener_handles_only_new_text() {
    let mut state = ListenerState::new();
    assert!(!state.should_handle(""));
    assert!(state.should_handle("hello"));
    state.record_saved("hello".to_string());
    assert!(!state.should_handle("hello"));
    assert!(state.should_handle("hello!"));
}

#[test]
fn normalized_text_is_single_spaced() {
    for raw in ["  a \t\t b\n\nc  ", "\u{2003}x\u{3000}\u{3000}y\u{85}", "   ", "word"] {
        let n = normalize(raw.to_string());
        assert!(!n.starts_with(' ') && !n.ends_with(' '), "{:?}", n);
        assert!(!n.contains("  "), "{:?}", n);
        assert!(n.chars().all(|c| c == ' ' || !c.is_whitespace()), "{:?}", n);
    }
}

#[test]
fn normalize_agrees_with_split_whitespace() {
    for raw in ["  a \t\t b\n\nc  ", "\u{2003}x\u{3000}\u{3000}y\u{85}z\u{a0}", "", "w\u{1680}v\u{205f}u"] {
        let want = raw.trim().split_whitespace().collect::<Vec<_>>().join(" ");
        assert_eq!(normalize(raw.to_string()), want);
    }
}

#[test]
fn whitespace_class_matches_char_is_whitespace() {
    for u in 0u32..=0x10FFFF {
        if let Some(c) = char::from_u32(u) {
            assert_eq!(clipforge::text::is_whitespace(c), c.is_whitespace(), "U+{:04X}", u);
        }
    }
}

#[test]
fn trim_agrees_with_str_trim() {
    for raw in ["  a b  ", "\u{3000}x\u{85}", "", " ", "abc", "\t\na\u{2028}"] {
        assert_eq!(trim(raw), raw.trim());
    }
}
