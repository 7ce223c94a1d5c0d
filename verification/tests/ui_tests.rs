use pomolife::app::{decide, finished_session, handle_input, input_ok, note_line, run_timer_view, run_tui, task_line, task_listing, tick_session, Decision, EngineCommand, UiCommand};
use pomolife::config::Config;
use pomolife::note::Note;
use pomolife::stats::StatsSummary;
use pomolife::task::Task;
use pomolife::time::Timestamp;
use pomolife::timer::{Phase, TimeSpan, TimerMode};
use pomolife::ui::{input_event, InputEvent, InputMode, Key, MouseAction, Rect, Tab, TermEvent, UiState};
use pomolife::view::header_zones;

fn ts(secs: i64) -> Timestamp {
    Timestamp { secs, nanos: 0, offset: 0 }
}

fn state() -> UiState {
    UiState::new(Config::default(), None, Vec::new(), Vec::new(), StatsSummary::default())
}

#[test]
fn new_state_uses_configured_theme_and_font() {
    let s = state();
    assert_eq!(s.theme_name(), "catppuccin-mocha");
    assert_eq!(s.font(), "digital");
    assert_eq!(s.tab(), Tab::Timer);
    assert_eq!(s.task(), "No task selected");
    assert_eq!(s.event_status(), "No event countdown configured");
    assert!(s.input_mode().is_none());
    let mut c = Config::default();
    c.visuals.theme = "no-such".to_string();
    c.visuals.font = "slant".to_string();
    let t = UiState::new(c, Some("write".to_string()), Vec::new(), Vec::new(), StatsSummary::default());
    assert_eq!(t.theme_name(), "gruvbox-dark");
    assert_eq!(t.font(), "slant");
    assert_eq!(t.task(), "write");
}

#[test]
fn tick_rate_follows_animation_speed() {
    let mut c = Config::default();
    assert_eq!(state().tick_rate().as_nanos(), 250_000_000);
    c.visuals.animation_speed = "fast".to_string();
    let s = UiState::new(c.clone(), None, Vec::new(), Vec::new(), StatsSummary::default());
    assert_eq!(s.tick_rate().as_nanos(), 120_000_000);
    c.visuals.animations = false;
    let s = UiState::new(c, None, Vec::new(), Vec::new(), StatsSummary::default());
    assert_eq!(s.tick_rate().as_nanos(), 750_000_000);
}

#[test]
fn tabs_cycle_back_after_six() {
    let mut s = state();
    let order = [Tab::Tasks, Tab::Notes, Tab::Stats, Tab::Event, Tab::Settings, Tab::Timer];
    for t in order {
        s.next_tab();
        assert_eq!(s.tab(), t);
    }
}

#[test]
fn themes_and_fonts_cycle() {
    let mut s = state();
    for _ in 0..10 {
        s.next_theme();
    }
    assert_eq!(s.theme_name(), "catppuccin-mocha");
    for _ in 0..8 {
        s.next_font();
    }
    assert_eq!(s.font(), "digital");
    s.next_font();
    assert_eq!(s.font(), "block");
}

#[test]
fn typing_and_taking_input() {
    let mut s = state();
    s.push_input('x');
    assert_eq!(s.input_buffer(), "");
    s.open_task_input();
    for c in "  buy milk \u{7}".chars() {
        s.push_input(c);
    }
    assert_eq!(s.input_buffer(), "  buy milk ");
    s.pop_input();
    assert_eq!(s.input_buffer(), "  buy milk");
    let (mode, text) = s.take_input().unwrap();
    assert_eq!(mode, InputMode::Task);
    assert_eq!(text, "buy milk");
    assert!(s.input_mode().is_none());
    assert!(s.take_input().is_none());
    s.open_note_input();
    s.push_input('a');
    s.cancel_input();
    assert_eq!(s.input_buffer(), "");
    assert!(s.input_mode().is_none());
}

#[test]
fn editing_the_latest_note() {
    let mut s = state();
    s.open_edit_latest_note();
    assert!(s.input_mode().is_none());
    s.set_notes(vec![Note::new_at(7, "hello".to_string(), ts(0))]);
    s.open_edit_latest_note();
    assert_eq!(s.input_mode(), Some(&InputMode::EditNote(7)));
    assert_eq!(s.input_buffer(), "hello");
}

#[test]
fn terminal_events_become_inputs() {
    assert_eq!(input_event(TermEvent::KeyPress(Key::Char('s'))), InputEvent::Start);
    assert_eq!(input_event(TermEvent::KeyPress(Key::Char(' '))), InputEvent::PauseResume);
    assert_eq!(input_event(TermEvent::KeyPress(Key::Char('+'))), InputEvent::AddMinute);
    assert_eq!(input_event(TermEvent::KeyPress(Key::Char('z'))), InputEvent::NoInput);
    assert_eq!(input_event(TermEvent::KeyPress(Key::Esc)), InputEvent::Quit);
    assert_eq!(input_event(TermEvent::KeyPress(Key::Tab)), InputEvent::Tab);
    assert_eq!(input_event(TermEvent::MouseDown(3, 4)), InputEvent::Mouse(3, 4));
    assert_eq!(input_event(TermEvent::Other), InputEvent::NoInput);
}

#[test]
fn clicks_hit_the_first_zone() {
    let mut s = state();
    let zones = header_zones(Rect { x: 0, y: 0, width: 80, height: 1 });
    assert_eq!(zones.len(), 4);
    assert_eq!(zones[1].0, Rect { x: 20, y: 0, width: 20, height: 1 });
    for (r, a) in zones {
        s.mouse_zones_mut().add(r, a);
    }
    s.mouse_zones_mut().add(Rect { x: 0, y: 0, width: 80, height: 1 }, MouseAction::Help);
    assert_eq!(s.mouse_action(25, 0), Some(MouseAction::Tab(Tab::Stats)));
    assert_eq!(s.mouse_action(79, 0), Some(MouseAction::Tab(Tab::Settings)));
    assert_eq!(s.mouse_action(5, 1), None);
    assert_eq!(decide(&s, InputEvent::Mouse(65, 0)), Decision::Ui(UiCommand::SetTab(Tab::Settings)));
    assert_eq!(decide(&s, InputEvent::Mouse(0, 9)), Decision::Nothing);
    s.mouse_zones_mut().clear();
    assert_eq!(s.mouse_action(25, 0), None);
}

#[test]
fn inputs_lead_to_commands() {
    let s = state();
    assert_eq!(decide(&s, InputEvent::Start), Decision::Engine(EngineCommand::Start));
    assert_eq!(decide(&s, InputEvent::PauseResume), Decision::Engine(EngineCommand::Toggle));
    assert_eq!(decide(&s, InputEvent::Mode), Decision::Ui(UiCommand::NextTab));
    assert_eq!(decide(&s, InputEvent::Quit), Decision::Quit);
    assert_eq!(decide(&s, InputEvent::NoInput), Decision::Nothing);
}

#[test]
fn handling_inputs_changes_engine_or_interface() {
    let config = Config::default();
    let mut session = run_tui(config.clone(), None, Some("write".to_string()));
    assert_eq!(session.profile_name.as_deref(), Some("default"));
    let mut s = UiState::new(config, None, Vec::new(), Vec::new(), StatsSummary::default());
    assert!(input_ok(&session.engine, &s, InputEvent::Skip));
    assert!(!handle_input(&mut session.engine, &mut s, InputEvent::Skip));
    assert_eq!(session.engine.snapshot().unwrap().phase, Phase::ShortBreak);
    assert!(!handle_input(&mut session.engine, &mut s, InputEvent::Help));
    assert!(s.show_help());
    assert!(!handle_input(&mut session.engine, &mut s, InputEvent::AddMinute));
    assert_eq!(session.engine.snapshot().unwrap().total.as_secs(), 6 * 60);
    assert!(handle_input(&mut session.engine, &mut s, InputEvent::Quit));
}

#[test]
fn sessions_under_named_profiles() {
    let session = run_tui(Config::default(), Some("deep-work".to_string()), None);
    assert_eq!(session.engine.snapshot().unwrap().total.as_secs(), 50 * 60);
    let unknown = run_tui(Config::default(), Some("nope".to_string()), None);
    assert_eq!(unknown.profile_name.as_deref(), Some("nope"));
    assert_eq!(unknown.engine.snapshot().unwrap().total.as_secs(), 25 * 60);
    let countdown = run_timer_view(Config::default(), TimerMode::Countdown { seconds: 600 }, None);
    assert!(countdown.profile_name.is_none());
    assert_eq!(countdown.engine.snapshot().unwrap().total.as_secs(), 600);
}

#[test]
fn finished_session_record() {
    let r = finished_session(
        Phase::Focus,
        TimeSpan::from_secs(1500),
        TimeSpan::from_secs(1502),
        ts(100),
        ts(1600),
        &Some("write".to_string()),
        &None,
        "nord".to_string(),
    );
    assert_eq!(r.planned_seconds, 1500);
    assert_eq!(r.actual_seconds, 1500);
    assert_eq!(r.session_type, "Focus");
    assert_eq!(r.tags, vec!["custom".to_string()]);
    assert_eq!(r.profile, "ad-hoc");
    assert_eq!(r.theme.as_deref(), Some("nord"));
    assert!(r.completed);
    let r2 = finished_session(
        Phase::ShortBreak,
        TimeSpan::from_secs(300),
        TimeSpan::from_secs(120),
        ts(0),
        ts(1),
        &None,
        &Some("micro".to_string()),
        "x".to_string(),
    );
    assert_eq!(r2.actual_seconds, 120);
    assert_eq!(r2.session_type, "Short break");
    assert!(r2.tags.is_empty());
    assert_eq!(r2.profile, "micro");
}

#[test]
fn task_and_note_lines() {
    let mut t = Task::new_at("write".to_string(), None, ts(0));
    assert_eq!(task_line(&t), "[ ] write (custom)");
    t.done = true;
    assert_eq!(task_line(&t), "[x] write (custom)");
    let t2 = Task::new("read".to_string(), Some("study".to_string()));
    assert_eq!(task_line(&t2), "[ ] read (study)");
    let n = Note::new(12, "remember".to_string());
    assert_eq!(note_line(&n), "#12 remember");
    assert_eq!(n.created_at, n.updated_at);
}

#[test]
fn a_tick_records_the_finished_phase() {
    let mut session = run_timer_view(Config::default(), TimerMode::Countdown { seconds: 0 }, None);
    let mut s = state();
    let idle = tick_session(&mut session.engine, &mut s, ts(5), &None, &None);
    assert!(idle.record.is_none());
    assert!(!idle.notify && !idle.sound);
    assert_eq!(s.frame(), 1);
    session.engine.start();
    let task = Some("write".to_string());
    let done = tick_session(&mut session.engine, &mut s, ts(5), &task, &None);
    let record = done.record.expect("a zero countdown finishes at the first tick");
    assert_eq!(record.session_type, "Focus");
    assert_eq!(record.planned_seconds, 0);
    assert_eq!(record.actual_seconds, 0);
    assert_eq!(record.started_at, ts(5));
    assert!(record.ended_at.is_valid());
    assert_eq!(record.task, task);
    assert_eq!(record.profile, "ad-hoc");
    assert_eq!(record.theme.as_deref(), Some("catppuccin-mocha"));
    assert!(done.notify && done.sound);
    assert_eq!(s.frame(), 2);
    assert_eq!(session.engine.snapshot().unwrap().phase, Phase::Finished);
}

#[test]
fn listing_tasks() {
    assert_eq!(task_listing(&[]), vec!["No tasks yet.".to_string()]);
    let tasks = vec![
        Task::new_at("a".to_string(), None, ts(0)),
        Task::new_at("b".to_string(), Some("home".to_string()), ts(0)),
    ];
    assert_eq!(
        task_listing(&tasks),
        vec!["[ ] a (custom)".to_string(), "[ ] b (home)".to_string()]
    );
}

#[test]
fn a_finished_focus_is_recorded_as_focus() {
    let mut c = Config::default();
    c.profiles.insert("instant".to_string(), pomolife::profile::Profile {
        focus_minutes: 0,
        short_break_minutes: 5,
        long_break_minutes: 15,
        long_break_every: 4,
    });
    let mut session = run_tui(c, Some("instant".to_string()), None);
    let mut s = state();
    session.engine.start();
    let done = tick_session(&mut session.engine, &mut s, ts(0), &None, &session.profile_name);
    let record = done.record.unwrap();
    assert_eq!(record.session_type, "Focus");
    assert_eq!(record.profile, "instant");
    assert_eq!(session.engine.snapshot().unwrap().phase, Phase::ShortBreak);
}
