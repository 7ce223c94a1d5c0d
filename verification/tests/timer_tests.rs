use pomolife::profile::Profile;
use pomolife::time::Timestamp;
use pomolife::timer::{event_seconds_left, Phase, TimeSpan, TimerEngine, TimerMode};

fn wall(secs: i64) -> Timestamp {
    Timestamp { secs, nanos: 0, offset: 0 }
}

#[test]
fn default_pomodoro_starts_in_focus() {
    let engine = TimerEngine::pomodoro(Profile::default());
    let snapshot = engine.snapshot().unwrap();
    assert_eq!(snapshot.phase, Phase::Focus);
    assert_eq!(snapshot.remaining.as_secs(), 25 * 60);
    assert_eq!(snapshot.cycle, 1);
}

#[test]
fn skip_focus_goes_to_short_break() {
    let mut engine = TimerEngine::pomodoro(Profile::default());
    engine.skip();
    let snapshot = engine.snapshot().unwrap();
    assert_eq!(snapshot.phase, Phase::ShortBreak);
    assert_eq!(snapshot.remaining.as_secs(), 5 * 60);
}

#[test]
fn fourth_focus_goes_to_long_break() {
    let mut engine = TimerEngine::pomodoro(Profile::default());
    for _ in 0..3 {
        engine.skip();
        engine.skip();
    }
    engine.skip();
    assert_eq!(engine.snapshot().unwrap().phase, Phase::LongBreak);
}

#[test]
fn pause_preserves_phase() {
    let mut engine = TimerEngine::pomodoro(Profile::default());
    engine.start();
    engine.pause();
    assert_eq!(engine.snapshot().unwrap().phase, Phase::Paused);
    engine.start();
    assert_eq!(engine.snapshot().unwrap().phase, Phase::Focus);
}

#[test]
fn long_break_comes_back_to_focus_of_next_cycle() {
    let mut engine = TimerEngine::pomodoro(Profile::default());
    for _ in 0..7 {
        engine.skip();
    }
    let s = engine.snapshot().unwrap();
    assert_eq!(s.phase, Phase::LongBreak);
    assert_eq!(s.remaining.as_secs(), 15 * 60);
    assert_eq!(s.cycle, 4);
    engine.skip();
    let s = engine.snapshot().unwrap();
    assert_eq!(s.phase, Phase::Focus);
    assert_eq!(s.cycle, 5);
    assert_eq!(s.cycle_target, 4);
}

#[test]
fn deep_work_long_break_every_third() {
    let mut engine = TimerEngine::pomodoro(Profile::deep_work());
    assert_eq!(engine.snapshot().unwrap().remaining.as_secs(), 50 * 60);
    for _ in 0..4 {
        engine.skip();
    }
    engine.skip();
    let s = engine.snapshot().unwrap();
    assert_eq!(s.phase, Phase::LongBreak);
    assert_eq!(s.remaining.as_secs(), 25 * 60);
}

#[test]
fn minutes_are_added_and_removed() {
    let mut engine = TimerEngine::pomodoro(Profile::default());
    assert!(engine.has_room_for_minute());
    engine.add_minute();
    assert_eq!(engine.snapshot().unwrap().total.as_secs(), 26 * 60);
    engine.remove_minute();
    assert_eq!(engine.snapshot().unwrap().total.as_secs(), 25 * 60);
}

#[test]
fn remove_minute_stops_at_zero() {
    let mut engine = TimerEngine::new(TimerMode::Countdown { seconds: 90 });
    engine.remove_minute();
    assert_eq!(engine.snapshot().unwrap().total.as_secs(), 30);
    engine.remove_minute();
    assert_eq!(engine.snapshot().unwrap().total.as_secs(), 0);
}

#[test]
fn toggle_twice_is_paused_in_same_phase() {
    let mut engine = TimerEngine::pomodoro(Profile::micro());
    engine.toggle();
    assert!(engine.snapshot().unwrap().running);
    engine.toggle();
    let s = engine.snapshot().unwrap();
    assert!(!s.running);
    assert_eq!(s.phase, Phase::Paused);
    assert_eq!(s.total.as_secs(), 10 * 60);
}

#[test]
fn countdown_and_stopwatch_labels() {
    let c = TimerEngine::new(TimerMode::Countdown { seconds: 90 });
    let s = c.snapshot().unwrap();
    assert_eq!(s.label, "Countdown");
    assert_eq!(s.remaining.as_secs(), 90);
    assert_eq!(s.cycle_target, 1);
    let w = TimerEngine::new(TimerMode::Stopwatch);
    let s = w.snapshot().unwrap();
    assert_eq!(s.label, "Stopwatch");
    assert_eq!(s.remaining.as_secs(), 0);
    let p = TimerEngine::pomodoro(Profile::default());
    assert_eq!(p.snapshot().unwrap().label, "Pomodoro");
}

#[test]
fn skip_finishes_a_countdown() {
    let mut c = TimerEngine::new(TimerMode::Countdown { seconds: 30 });
    c.skip();
    let s = c.snapshot().unwrap();
    assert_eq!(s.phase, Phase::Finished);
    assert!(!s.running);
}

#[test]
fn reset_restores_the_first_focus() {
    let mut engine = TimerEngine::pomodoro(Profile::default());
    engine.skip();
    engine.skip();
    engine.reset();
    let s = engine.snapshot().unwrap();
    assert_eq!(s.phase, Phase::Focus);
    assert_eq!(s.cycle, 1);
    assert_eq!(s.remaining.as_secs(), 25 * 60);
}

#[test]
fn tick_at_fires_when_the_phase_runs_out() {
    let w = wall(1_700_000_000);
    let mut engine = TimerEngine::new_at(TimerMode::Countdown { seconds: 2 }, w);
    engine.start_at(0, w);
    assert!(engine.tick_ok_at(1_000_000_000, w));
    assert!(!engine.tick_at(1_000_000_000, w));
    let s = engine.snapshot_at(1_000_000_000, w);
    assert_eq!(s.remaining.as_secs(), 1);
    assert_eq!(s.elapsed.as_secs(), 1);
    assert!(engine.tick_at(2_000_000_000, w));
    assert_eq!(engine.snapshot_at(2_000_000_000, w).phase, Phase::Finished);
}

#[test]
fn pause_at_keeps_the_elapsed_time() {
    let w = wall(1_700_000_000);
    let mut engine = TimerEngine::new_at(TimerMode::Countdown { seconds: 100 }, w);
    engine.start_at(5_000_000_000, w);
    engine.pause_at(15_000_000_000);
    let s = engine.snapshot_at(99_000_000_000, w);
    assert_eq!(s.elapsed.as_secs(), 10);
    assert_eq!(s.remaining.as_secs(), 90);
    assert!(!s.running);
}

#[test]
fn event_countdown_counts_to_the_event() {
    let now = wall(1_700_000_000);
    let at = wall(1_700_000_000 + 3600);
    assert_eq!(event_seconds_left(&at, &now), 3600);
    assert_eq!(event_seconds_left(&now, &at), 0);
    let engine = TimerEngine::new_at(
        TimerMode::EventCountdown { name: "launch".to_string(), at },
        now,
    );
    let s = engine.snapshot_at(0, now);
    assert_eq!(s.label, "launch");
    assert_eq!(s.total.as_secs(), 3600);
}

#[test]
fn time_span_conversions() {
    let t = TimeSpan::from_secs(90);
    assert_eq!(t.as_secs(), 90);
    assert_eq!(t.as_nanos(), 90_000_000_000);
    assert_eq!(TimeSpan::from_nanos(1_999_999_999).as_secs(), 1);
}

#[test]
fn phase_labels() {
    assert_eq!(Phase::Focus.label(), "Focus");
    assert_eq!(Phase::ShortBreak.label(), "Short break");
    assert_eq!(Phase::LongBreak.label(), "Long break");
    assert_eq!(Phase::Paused.label(), "Paused");
    assert_eq!(Phase::Finished.label(), "Finished");
}

#[test]
fn skipping_a_paused_focus_goes_to_its_break() {
    let mut engine = TimerEngine::pomodoro(Profile::default());
    engine.start();
    engine.pause();
    engine.skip();
    let s = engine.snapshot().unwrap();
    assert_eq!(s.phase, Phase::ShortBreak);
    assert_eq!(s.cycle, 1);
    engine.start();
    engine.pause();
    engine.skip();
    let s = engine.snapshot().unwrap();
    assert_eq!(s.phase, Phase::Focus);
    assert_eq!(s.cycle, 2);
}

#[test]
fn event_countdown_ends_at_the_event() {
    let start = wall(1_700_000_000);
    let at = wall(1_700_000_100);
    let mut engine = TimerEngine::new_at(
        TimerMode::EventCountdown { name: "launch".to_string(), at },
        start,
    );
    engine.start_at(0, start);
    let sixty = wall(1_700_000_060);
    assert!(engine.tick_ok_at(60_000_000_000, sixty));
    assert!(!engine.tick_at(60_000_000_000, sixty));
    let s = engine.snapshot_at(60_000_000_000, sixty);
    assert_eq!(s.remaining.as_secs(), 40);
    assert_eq!(s.phase, Phase::Focus);
    let ninety_nine = wall(1_700_000_099);
    assert!(!engine.tick_at(99_000_000_000, ninety_nine));
    assert!(engine.tick_at(100_000_000_000, at));
    assert_eq!(engine.snapshot_at(100_000_000_000, at).phase, Phase::Finished);
}

#[test]
fn progress_of_the_running_phase() {
    let w = wall(1_700_000_000);
    let mut engine = TimerEngine::new_at(TimerMode::Countdown { seconds: 10 }, w);
    engine.start_at(0, w);
    let (phase, total, run) = engine.progress_at(4_000_000_000, w);
    assert_eq!(phase, Phase::Focus);
    assert_eq!(total.as_secs(), 10);
    assert_eq!(run.as_secs(), 4);
    let (_, _, capped) = engine.progress_at(25_000_000_000, w);
    assert_eq!(capped.as_secs(), 10);
    assert!(engine.reading() < 60_000_000_000);
}
