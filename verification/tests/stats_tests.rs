use pomolife::session::SessionRecord;
use pomolife::stats::{summary_ok, weekday_label, StatsSummary};
use pomolife::time::Timestamp;

const DAY: i64 = 19723; // 2024-01-01, a Monday

fn at(day: i64, hour: i64) -> Timestamp {
    Timestamp { secs: day * 86400 + hour * 3600, nanos: 0, offset: 0 }
}

fn record(kind: &str, day: i64, hour: i64, secs: u64, done: bool, task: Option<&str>, tags: &[&str]) -> SessionRecord {
    SessionRecord {
        started_at: at(day, hour - 1),
        ended_at: at(day, hour),
        planned_seconds: secs,
        actual_seconds: secs,
        session_type: kind.to_string(),
        task: task.map(|t| t.to_string()),
        tags: tags.iter().map(|t| t.to_string()).collect(),
        completed: done,
        profile: "default".to_string(),
        theme: None,
        energy: None,
        mood: None,
        intention: None,
        note: None,
    }
}

fn sample() -> Vec<SessionRecord> {
    vec![
        record("Focus", DAY, 10, 1500, true, Some("write"), &["deep"]),
        record("Focus", DAY, 10, 1200, true, Some("write"), &["deep", "x"]),
        record("Short break", DAY - 1, 14, 300, true, None, &[]),
        record("Focus", DAY, 9, 100, false, Some("read"), &[]),
    ]
}

#[test]
fn summary_counts_sessions() {
    let rs = sample();
    assert!(summary_ok(&rs, DAY));
    let s = StatsSummary::from_sessions_on(&rs, DAY);
    assert_eq!(s.completed_sessions, 3);
    assert_eq!(s.skipped_sessions, 1);
    assert_eq!(s.pomodoros_today, 2);
    assert_eq!(s.focus_minutes_today, 45);
    assert_eq!(s.best_hour, Some(10));
    assert_eq!(s.most_frequent_task.as_deref(), Some("write"));
    assert_eq!(s.by_tag.get("deep"), Some(45));
    assert_eq!(s.by_tag.get("x"), Some(20));
    assert_eq!(s.by_tag.get("none"), None);
    assert_eq!(s.streak_days, 2);
}

#[test]
fn last_seven_days_end_today() {
    let s = StatsSummary::from_sessions_on(&sample(), DAY);
    assert_eq!(s.last_7_days.len(), 7);
    let labels: Vec<&str> = s.last_7_days.iter().map(|d| d.label.as_str()).collect();
    assert_eq!(labels, vec!["Tue", "Wed", "Thu", "Fri", "Sat", "Sun", "Mon"]);
    let counts: Vec<usize> = s.last_7_days.iter().map(|d| d.count).collect();
    assert_eq!(counts, vec![0, 0, 0, 0, 0, 1, 2]);
    assert_eq!(s.last_7_days[6].date, DAY);
    assert_eq!(s.last_7_days[0].date, DAY - 6);
}

#[test]
fn streak_breaks_on_an_empty_day() {
    let rs = vec![
        record("Focus", DAY, 8, 1500, true, None, &[]),
        record("Focus", DAY - 2, 8, 1500, true, None, &[]),
    ];
    let s = StatsSummary::from_sessions_on(&rs, DAY);
    assert_eq!(s.streak_days, 1);
    let none_today = StatsSummary::from_sessions_on(&rs, DAY + 1);
    assert_eq!(none_today.streak_days, 0);
    assert_eq!(none_today.pomodoros_today, 0);
}

#[test]
fn best_hour_prefers_the_later_hour_on_a_tie() {
    let rs = vec![
        record("Focus", DAY, 8, 60, true, Some("a"), &[]),
        record("Focus", DAY, 15, 60, true, Some("b"), &[]),
    ];
    let s = StatsSummary::from_sessions_on(&rs, DAY);
    assert_eq!(s.best_hour, Some(15));
    assert_eq!(s.most_frequent_task.as_deref(), Some("b"));
}

#[test]
fn empty_summary() {
    let s = StatsSummary::from_sessions_on(&[], DAY);
    assert_eq!(s.completed_sessions, 0);
    assert_eq!(s.best_hour, None);
    assert_eq!(s.most_frequent_task, None);
    assert_eq!(s.streak_days, 0);
    assert_eq!(s.by_tag.len(), 0);
    let d = StatsSummary::default();
    assert_eq!(d.last_7_days.len(), 0);
}

#[test]
fn report_text() {
    let s = StatsSummary::from_sessions_on(&sample(), DAY);
    let mut expected = String::from(
        "Pomodoros today: 2\nFocus minutes today: 45\nDaily streak: 2\nCompleted / skipped: 3 / 1\nBest hour: 10:00\nMost frequent task: write\nLast 7 days:",
    );
    for d in &s.last_7_days {
        expected.push('\n');
        expected.push_str(&format!("{:>3}  {:<10} {}", d.label, "█".repeat(d.count), d.count));
    }
    assert_eq!(s.render_text(true, false), expected);
    assert!(s.render_text(false, true).ends_with("Mon  ██         2"));
}

#[test]
fn weekday_names() {
    assert_eq!(weekday_label(0), "Thu");
    assert_eq!(weekday_label(DAY), "Mon");
    assert_eq!(weekday_label(-1), "Wed");
}

#[test]
fn summary_does_not_depend_on_record_order() {
    let rs = sample();
    let mut reversed = rs.clone();
    reversed.reverse();
    let a = StatsSummary::from_sessions_on(&rs, DAY);
    let b = StatsSummary::from_sessions_on(&reversed, DAY);
    assert_eq!(a.render_text(true, true), b.render_text(true, true));
    assert_eq!(a.by_tag.get("deep"), b.by_tag.get("deep"));
    assert_eq!(a.by_tag.get("x"), b.by_tag.get("x"));
    assert_eq!(a.skipped_sessions, b.skipped_sessions);
}
