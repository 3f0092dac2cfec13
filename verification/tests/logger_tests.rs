use key_speed_logger::clock::{timestamp_text, ClockTime};
use key_speed_logger::display::{
    average_latency_class, bracketed, counts_line, entry_latency_class, padded_key,
    target_banner, LatencyClass,
};
use key_speed_logger::entry::LogEntry;
use key_speed_logger::export::{csv_document_text, entry_fields, latency_cell_text};
use key_speed_logger::keys::{char_key_name, key_name, keys_from_events, InputEvent, NamedKey};
use key_speed_logger::logger::{ExportOutcome, ExportPlan, KeySpeedApp};
use key_speed_logger::platform;
use key_speed_logger::text::{
    count_chars, count_words, decimal_string, is_ascii_graphic, is_control, is_whitespace,
};

const MS: u64 = 1_000_000;

fn clock(hour: u32, minute: u32, second: u32, millis: u32) -> ClockTime {
    ClockTime { hour, minute, second, nanosecond: millis * 1_000_000 }
}

#[test]
fn counts_characters_and_words() {
    assert_eq!(count_chars(""), 0);
    assert_eq!(count_chars("héllo wörld"), 11);
    assert_eq!(count_words(""), 0);
    assert_eq!(count_words("   \t\n"), 0);
    assert_eq!(count_words("hello"), 1);
    assert_eq!(count_words("  hello  world\tfoo\n"), 3);
    assert_eq!(count_words("a\u{3000}b\u{a0}c"), 3);
    assert_eq!(count_words("héllo wörld"), 2);
}

#[test]
fn character_classes_match_std() {
    for c in ['a', ' ', '\n', '\u{7}', '\u{7f}', '\u{85}', '\u{9f}', '\u{a0}', 'é', '~', '!', '\u{3000}', '\u{200b}', '\u{2029}'] {
        assert_eq!(is_control(c), c.is_control(), "{:?}", c);
        assert_eq!(is_ascii_graphic(c), c.is_ascii_graphic(), "{:?}", c);
        assert_eq!(is_whitespace(c), c.is_whitespace(), "{:?}", c);
    }
}

#[test]
fn decimal_strings() {
    assert_eq!(decimal_string(0), "0");
    assert_eq!(decimal_string(7), "7");
    assert_eq!(decimal_string(1234), "1234");
    assert_eq!(decimal_string(u64::MAX), u64::MAX.to_string());
}

#[test]
fn timestamps_are_zero_padded() {
    assert_eq!(timestamp_text(&clock(9, 5, 7, 45)), "09:05:07.045");
    assert_eq!(timestamp_text(&clock(23, 59, 58, 999)), "23:59:58.999");
    assert_eq!(timestamp_text(&ClockTime { hour: 0, minute: 0, second: 0, nanosecond: 999_999 }), "00:00:00.000");
    // A leap second shows as second 60.
    assert_eq!(
        timestamp_text(&ClockTime { hour: 23, minute: 59, second: 59, nanosecond: 1_500_000_000 }),
        "23:59:60.500"
    );
}

#[test]
fn key_names() {
    let all = [
        (NamedKey::Space, "Space"),
        (NamedKey::Enter, "Enter"),
        (NamedKey::Backspace, "Backspace"),
        (NamedKey::Tab, "Tab"),
        (NamedKey::Escape, "<Escape>"),
        (NamedKey::Delete, "<Delete>"),
        (NamedKey::ArrowUp, "<Up>"),
        (NamedKey::ArrowDown, "<Down>"),
        (NamedKey::ArrowLeft, "<Left>"),
        (NamedKey::ArrowRight, "<Right>"),
    ];
    for (k, name) in all {
        assert_eq!(key_name(k), name);
    }
    assert_eq!(char_key_name('a'), "'a'");
    assert_eq!(char_key_name('é'), "'é'");
}

#[test]
fn keys_from_a_frame_of_events() {
    let events = vec![
        InputEvent::Key { key: Some(NamedKey::Space), pressed: true },
        InputEvent::Key { key: Some(NamedKey::Enter), pressed: false },
        InputEvent::Key { key: None, pressed: true },
        InputEvent::Text("a b\u{7}é".to_string()),
        InputEvent::Other,
        InputEvent::Key { key: Some(NamedKey::ArrowLeft), pressed: true },
    ];
    let keys = keys_from_events(&events);
    assert_eq!(keys, vec!["Space", "'a'", "'b'", "'é'", "<Left>"]);
    assert!(keys_from_events(&Vec::new()).is_empty());
}

#[test]
fn first_key_then_timed_keys() {
    let mut app = KeySpeedApp::new();
    assert_eq!(app.total_keys(), 0);
    assert_eq!(app.avg_latency(), 0);
    app.record_keypress("'h'".to_string(), 1_000 * MS, &clock(10, 0, 0, 0));
    assert_eq!(app.total_keys(), 1);
    assert_eq!(app.latency_count(), 0);
    let first = &app.logs()[0];
    assert_eq!(first.timestamp, "10:00:00.000");
    assert_eq!(first.key, "'h'");
    assert_eq!(first.latency_ms, None);
    assert_eq!(first.latency_str, "First");

    // 300.5 ms later: the interval is rounded down.
    app.record_keypress("'i'".to_string(), 1_300 * MS + 500_000, &clock(10, 0, 0, 300));
    // 1499.9 ms later: still the same session.
    app.record_keypress("Space".to_string(), 2_800 * MS + 400_000, &clock(10, 0, 1, 800));
    assert_eq!(app.total_keys(), 3);
    assert_eq!(app.latency_count(), 2);
    assert_eq!(app.logs()[1].latency_ms, Some(300));
    assert_eq!(app.logs()[1].latency_str, "+300ms");
    assert_eq!(app.logs()[2].latency_ms, Some(1499));
    assert_eq!(app.logs()[2].latency_str, "+1499ms");
    assert_eq!(app.total_latency_ns(), 1_800_400_000);
    assert_eq!(app.avg_latency(), 900_200_000);
    assert_eq!(app.avg_latency_class(), LatencyClass::Slow);
    assert!(app.take_scroll_request());
    assert!(!app.take_scroll_request());
}

#[test]
fn pause_of_one_and_a_half_seconds_starts_a_new_session() {
    let mut app = KeySpeedApp::new();
    app.record_keypress("'a'".to_string(), 0, &clock(8, 0, 0, 0));
    app.record_keypress("'b'".to_string(), 100 * MS, &clock(8, 0, 0, 100));
    app.record_keypress("'c'".to_string(), 1_600 * MS, &clock(8, 0, 1, 600));
    assert_eq!(app.total_keys(), 1);
    assert_eq!(app.latency_count(), 0);
    assert_eq!(app.total_latency_ns(), 0);
    assert_eq!(app.logs().len(), 1);
    assert_eq!(app.logs()[0].key, "'c'");
    assert_eq!(app.logs()[0].latency_str, "First");
    assert_eq!(app.avg_latency(), 0);
}

#[test]
fn clock_going_backwards_counts_as_no_pause() {
    let mut app = KeySpeedApp::new();
    app.record_keypress("'a'".to_string(), 5_000 * MS, &clock(8, 0, 0, 0));
    app.record_keypress("'b'".to_string(), 4_000 * MS, &clock(8, 0, 0, 0));
    assert_eq!(app.logs()[1].latency_ms, Some(0));
    assert_eq!(app.logs()[1].latency_str, "+0ms");
}

#[test]
fn average_latency_classes() {
    let mut app = KeySpeedApp::new();
    assert_eq!(app.avg_latency_class(), LatencyClass::Fast);
    app.record_keypress("'a'".to_string(), 0, &clock(8, 0, 0, 0));
    app.record_keypress("'b'".to_string(), 249 * MS, &clock(8, 0, 0, 249));
    assert_eq!(app.avg_latency_class(), LatencyClass::Fast);
    app.record_keypress("'c'".to_string(), 249 * MS + 251 * MS, &clock(8, 0, 0, 500));
    // Average exactly 250 ms.
    assert_eq!(app.avg_latency(), 250 * MS);
    assert_eq!(app.avg_latency_class(), LatencyClass::Medium);
    assert_eq!(average_latency_class(1_200 * MS as u128 + 1, 2), LatencyClass::Slow);
    assert_eq!(average_latency_class(1_200 * MS as u128, 2), LatencyClass::Medium);
    assert_eq!(average_latency_class(600_000_000, 1), LatencyClass::Medium);
    assert_eq!(average_latency_class(600_000_001, 1), LatencyClass::Slow);
    assert_eq!(average_latency_class(1_199 * MS as u128, 2), LatencyClass::Medium);
    assert_eq!(average_latency_class(0, 0), LatencyClass::Fast);
    assert_eq!(entry_latency_class(None), None);
    assert_eq!(entry_latency_class(Some(249)), Some(LatencyClass::Fast));
    assert_eq!(entry_latency_class(Some(250)), Some(LatencyClass::Medium));
    assert_eq!(entry_latency_class(Some(599)), Some(LatencyClass::Medium));
    assert_eq!(entry_latency_class(Some(600)), Some(LatencyClass::Medium));
    assert_eq!(entry_latency_class(Some(601)), Some(LatencyClass::Slow));
}

#[test]
fn record_keys_in_order() {
    let mut app = KeySpeedApp::new();
    let keys = vec!["'x'".to_string(), "'y'".to_string(), "Enter".to_string()];
    app.record_keys(&keys, 42 * MS, &clock(12, 30, 15, 1));
    assert_eq!(app.total_keys(), 3);
    let names: Vec<&str> = app.logs().iter().map(|e| e.key.as_str()).collect();
    assert_eq!(names, vec!["'x'", "'y'", "Enter"]);
    assert_eq!(app.logs()[1].latency_str, "+0ms");
    assert_eq!(app.logs()[2].timestamp, "12:30:15.001");
}

#[test]
fn clearing() {
    let mut app = KeySpeedApp::new();
    assert!(app.take_focus_request());
    assert!(!app.take_focus_request());
    app.set_editor_text("some words here".to_string());
    assert_eq!(app.char_count(), 15);
    assert_eq!(app.word_count(), 3);
    assert_eq!(app.status_bar_text(), "Chars: 15 | Words: 3");
    app.record_keypress("'a'".to_string(), 0, &clock(8, 0, 0, 0));
    app.record_keypress("'b'".to_string(), 10 * MS, &clock(8, 0, 0, 10));
    app.clear_log();
    assert_eq!(app.total_keys(), 0);
    assert_eq!(app.latency_count(), 0);
    assert_eq!(app.total_latency_ns(), 0);
    assert!(app.logs().is_empty());
    assert_eq!(app.last_keypress_ns(), None);
    assert_eq!(app.editor_text(), "some words here");
    app.record_keypress("'c'".to_string(), 20 * MS, &clock(8, 0, 0, 20));
    assert_eq!(app.logs()[0].latency_str, "First");
    app.clear_all();
    assert_eq!(app.editor_text(), "");
    assert!(app.logs().is_empty());
    assert!(app.take_focus_request());
    assert_eq!(app.status_bar_text(), "Chars: 0 | Words: 0");
}

#[test]
fn exporting_an_empty_log() {
    let mut app = KeySpeedApp::new();
    assert!(matches!(app.export_csv(7 * MS), ExportPlan::NothingToExport));
    assert_eq!(app.visible_status(7 * MS).map(|s| s.as_str()), Some("Log is empty. Nothing to export."));
    assert!(app.visible_status(7 * MS + 3_999_999_999).is_some());
    assert!(app.visible_status(7 * MS + 4_000_000_000).is_none());
}

#[test]
fn exporting_a_log() {
    let mut app = KeySpeedApp::new();
    app.record_keypress("'a'".to_string(), 0, &clock(9, 0, 0, 0));
    app.record_keypress("','".to_string(), 120 * MS, &clock(9, 0, 0, 120));
    app.record_keypress("'\"'".to_string(), 250 * MS, &clock(9, 0, 0, 250));
    app.record_keypress("Space".to_string(), 1_000 * MS, &clock(9, 0, 1, 0));
    match app.export_csv(2_000 * MS) {
        ExportPlan::Document(doc) => assert_eq!(
            doc,
            "timestamp,key,latency_ms\n\
             09:00:00.000,'a',\n\
             09:00:00.120,\"','\",120\n\
             09:00:00.250,\"'\"\"'\",130\n\
             09:00:01.000,Space,750\n"
        ),
        _ => panic!("expected a document"),
    }
    assert!(app.visible_status(2_000 * MS).is_none());
    app.finish_export(ExportOutcome::Cancelled, 2_000 * MS);
    assert!(app.visible_status(2_000 * MS).is_none());
    app.finish_export(ExportOutcome::Saved("/tmp/keystroke_log.csv".to_string()), 2_000 * MS);
    assert_eq!(app.visible_status(2_001 * MS).map(|s| s.as_str()), Some("Exported to /tmp/keystroke_log.csv"));
    app.finish_export(ExportOutcome::Failed("permission denied".to_string()), 3_000 * MS);
    assert_eq!(
        app.visible_status(3_000 * MS).map(|s| s.as_str()),
        Some("Failed to export CSV: permission denied")
    );
}

#[test]
fn csv_rows_and_quoting() {
    let entry = LogEntry {
        timestamp: "01:02:03.004".to_string(),
        key: "'\n'".to_string(),
        latency_ms: Some(5),
        latency_str: "+5ms".to_string(),
    };
    assert_eq!(entry_fields(&entry), vec!["01:02:03.004", "'\n'", "5"]);
    assert_eq!(latency_cell_text(None), "");
    assert_eq!(
        csv_document_text(&vec![entry]).unwrap(),
        "timestamp,key,latency_ms\n01:02:03.004,\"'\n'\",5\n"
    );
    assert_eq!(csv_document_text(&Vec::new()).unwrap(), "timestamp,key,latency_ms\n");
}

#[test]
fn display_texts() {
    assert_eq!(padded_key("'a'"), "'a'       ");
    assert_eq!(padded_key("Backspace"), "Backspace ");
    assert_eq!(padded_key("<Escape>xyz"), "<Escape>xyz");
    assert_eq!(padded_key("'é'"), format!("{:10}", "'é'"));
    assert_eq!(bracketed("10:00:00.000"), "[10:00:00.000]");
    assert_eq!(target_banner("Linux"), "Target: Linux");
    assert_eq!(counts_line(12, 3), "Chars: 12 | Words: 3");
}

#[test]
fn platform_names_and_line_endings() {
    assert_eq!(platform::linux::get_platform_name(), "Linux");
    assert_eq!(platform::linux::csv_line_ending(), "\n");
    assert_eq!(platform::windows::get_platform_name(), "Windows");
    assert_eq!(platform::windows::csv_line_ending(), "\r\n");
    assert_eq!(platform::get_platform_name(), "Other OS");
    assert_eq!(platform::csv_line_ending(), "\n");
}

#[test]
fn clearing_twice_is_clearing_once() {
    let mut app = KeySpeedApp::new();
    app.record_keypress("'a'".to_string(), 0, &clock(8, 0, 0, 0));
    app.clear_log();
    app.clear_log();
    assert_eq!(app.total_keys(), 0);
    assert!(app.logs().is_empty());
    app.record_keypress("'b'".to_string(), 10_000 * MS, &clock(8, 0, 10, 0));
    assert_eq!(app.logs()[0].latency_str, "First");
}

#[test]
fn words_add_up_across_white_space() {
    let a = "one two";
    let b = "three  four five";
    assert_eq!(count_words(&format!("{} {}", a, b)), count_words(a) + count_words(b));
    assert!(count_words("a b c") <= count_chars("a b c"));
}

#[test]
fn average_stays_below_the_reset_pause() {
    let mut app = KeySpeedApp::new();
    let mut now = 0;
    app.record_keypress("'a'".to_string(), now, &clock(8, 0, 0, 0));
    for _ in 0..5 {
        now += 1_499_999_999;
        app.record_keypress("'a'".to_string(), now, &clock(8, 0, 0, 0));
    }
    assert_eq!(app.latency_count(), 5);
    assert_eq!(app.avg_latency(), 1_499_999_999);
    assert!(app.logs().iter().skip(1).all(|e| e.latency_ms == Some(1499)));
}

#[test]
fn events_without_logged_keys_change_nothing() {
    let mut app = KeySpeedApp::new();
    app.record_keypress("'a'".to_string(), 0, &clock(8, 0, 0, 0));
    let events = vec![
        InputEvent::Key { key: Some(NamedKey::Space), pressed: false },
        InputEvent::Key { key: None, pressed: true },
        InputEvent::Text(" \u{7}".to_string()),
        InputEvent::Other,
    ];
    app.record_events(&events, 5_000 * MS, &clock(8, 0, 5, 0));
    assert_eq!(app.total_keys(), 1);
    assert_eq!(app.last_keypress_ns(), Some(0));
    let events = vec![InputEvent::Text("hi".to_string()), InputEvent::Key { key: Some(NamedKey::Enter), pressed: true }];
    app.record_events(&events, 100 * MS, &clock(8, 0, 0, 100));
    let names: Vec<&str> = app.logs().iter().map(|e| e.key.as_str()).collect();
    assert_eq!(names, vec!["'a'", "'h'", "'i'", "Enter"]);
}
