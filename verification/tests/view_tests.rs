use pomolife::font::{font_name, render_time, FONT_COUNT};
use pomolife::storage::{jsonl_line, jsonl_records_of, JsonlStore};
use pomolife::timer::{Phase, TimeSpan, TimerSnapshot};
use pomolife::ui::MouseAction;
use pomolife::view::{footer_buttons, format_duration, garden, mascot, progress_cells, status_line};

#[test]
fn durations_as_minutes_and_seconds() {
    assert_eq!(format_duration(TimeSpan::from_secs(0)), "00:00");
    assert_eq!(format_duration(TimeSpan::from_secs(25 * 60)), "25:00");
    assert_eq!(format_duration(TimeSpan::from_secs(61)), "01:01");
    assert_eq!(format_duration(TimeSpan::from_secs(6000)), "100:00");
    assert_eq!(format_duration(TimeSpan::from_nanos(59_999_999_999)), "00:59");
}

#[test]
fn progress_bar_cells() {
    assert_eq!(progress_cells(3, 5, 4, false), "███░░");
    assert_eq!(progress_cells(3, 5, 1, true), "▓▓▓░░");
    assert_eq!(progress_cells(3, 5, 2, true), "███░░");
    assert_eq!(progress_cells(9, 2, 0, false), "██");
    assert_eq!(progress_cells(0, 0, 0, true), "");
}

#[test]
fn garden_grows_with_cycles() {
    assert_eq!(garden(0), ".");
    assert_eq!(garden(1), ".");
    assert_eq!(garden(2), "|\n|");
    assert_eq!(garden(4), "\\|/\n\\|/");
    assert_eq!(garden(99), "\\|/\n\\|/_");
}

#[test]
fn mascot_by_label() {
    assert!(mascot("Focus").contains("focus"));
    assert!(mascot("Paused").contains("paused"));
    assert!(mascot("Short break").contains("break"));
}

#[test]
fn status_line_text() {
    let s = TimerSnapshot {
        phase: Phase::Focus,
        remaining: TimeSpan::from_secs(10),
        elapsed: TimeSpan::from_secs(5),
        total: TimeSpan::from_secs(15),
        cycle: 2,
        cycle_target: 4,
        running: true,
        label: "Pomodoro".to_string(),
    };
    assert_eq!(
        status_line(&s, "nord", "block"),
        "Running | cycle 2 / 4 | Focus | theme nord | font block"
    );
}

#[test]
fn fonts_and_big_digits() {
    assert_eq!(FONT_COUNT, 8);
    assert_eq!(font_name(0), "digital");
    assert_eq!(font_name(7), "slant");
    assert_eq!(render_time("12:34", "digital", 40), vec!["12:34".to_string()]);
    assert_eq!(render_time("12:34", "tiny", 200), vec!["12:34".to_string()]);
    let small = render_time("1", "rounded", 50);
    assert_eq!(small.len(), 5);
    assert_eq!(small[0], "  █   ");
    assert_eq!(small[4], " ███  ");
    let large = render_time("0", "block", 60);
    assert_eq!(large.len(), 7);
    assert_eq!(large[0], " █████  ");
    let unknown = render_time("x", "slant", 50);
    assert_eq!(unknown[0], "      ");
}

#[test]
fn jsonl_records_skip_blank_lines() {
    let r = jsonl_records_of("{\"a\":1}\r\n\n   \n{\"b\":2}\n");
    assert_eq!(r, vec!["{\"a\":1}".to_string(), "{\"b\":2}".to_string()]);
    assert!(jsonl_records_of("").is_empty());
    assert_eq!(jsonl_records_of("x"), vec!["x".to_string()]);
    assert_eq!(jsonl_records_of(" x \r"), vec![" x \r".to_string()]);
}

#[test]
fn tasks_file_beside_sessions_file() {
    let store = JsonlStore::new("/data/pomo/sessions.jsonl".to_string());
    assert_eq!(store.sessions_path(), "/data/pomo/sessions.jsonl");
    assert_eq!(store.tasks_path(), "/data/pomo/tasks.jsonl");
    let bare = JsonlStore::new("sessions.jsonl".to_string());
    assert_eq!(bare.tasks_path(), "tasks.jsonl");
}

#[test]
fn appended_record_reads_back_last() {
    let mut content = String::new();
    let mut expected: Vec<String> = Vec::new();
    for record in ["{\"a\":1}", " {\"b\":2} ", "{\"c\":3}"] {
        assert_eq!(jsonl_line(record), format!("{record}\n"));
        content.push_str(&jsonl_line(record));
        expected.push(record.to_string());
        assert_eq!(jsonl_records_of(&content), expected);
    }
    content.push_str("\n  \n");
    assert_eq!(jsonl_records_of(&(content.clone() + &jsonl_line("{}"))).last().unwrap(), "{}");
}

#[test]
fn footer_buttons_in_order() {
    let b = footer_buttons();
    assert_eq!(b.len(), 6);
    assert_eq!(b[0], ("Start", MouseAction::Start));
    assert_eq!(b[3], ("Skip", MouseAction::Skip));
    assert_eq!(b[5], ("Help", MouseAction::Help));
}
