//! The decisions of the application around its terminal: which engine a session runs,
//! what each key or click does, what a finished session records, and how tasks and
//! notes are listed.
use vstd::prelude::*;

use crate::clock::local_now;
use crate::config::{chosen_profile, Config};
use crate::theme::catalog_name;
use crate::note::Note;
use crate::session::SessionRecord;
use crate::task::Task;
use crate::text::{decimal, decimal_string, push_str};
use crate::time::Timestamp;
use crate::timer::{
    focus_fits, fresh, initial_total, mode_ok, run_capped, EngineView, ModeView, Phase, TimeSpan,
    TimerEngine, TimerMode, NANOS_PER_MINUTE, MAX_SPAN_NANOS,
};
use crate::ui::{first_hit, tab_after, InputEvent, MouseAction, Tab, UiState, UiView};

verus! {

/// A terminal session about to run: the configuration, the engine, the profile's name
/// (none for ad-hoc timers) and the task.
pub struct TuiSession {
    pub config: Config,
    pub engine: TimerEngine,
    pub profile_name: Option<String>,
    pub task: Option<String>,
}

/// The profile name that a Pomodoro session runs under.
pub open spec fn session_profile_name(profile: Option<String>) -> Seq<char> {
    match profile {
        Some(p) => p@,
        None => "default"@,
    }
}

/// A Pomodoro session: the named profile (`default` where none is given), looked up as
/// `Config::profile` does.
pub fn run_tui(config: Config, profile: Option<String>, task: Option<String>) -> (s: TuiSession)
    requires
        config.profiles.wf(),
        focus_fits(chosen_profile(config.profiles@, Some(session_profile_name(profile)))),
    ensures
        s.engine.wf(),
        s.engine@ == fresh(
            ModeView::Pomodoro(chosen_profile(config.profiles@, Some(session_profile_name(profile)))),
            chosen_profile(config.profiles@, Some(session_profile_name(profile))).focus_minutes * 60
                * 1_000_000_000,
        ),
        s.profile_name matches Some(n) && n@ == session_profile_name(profile),
        s.task == task,
        s.config == config,
{
    let profile_name = match profile {
        Some(p) => p,
        None => String::from_str("default"),
    };
    let timer_profile = config.profile(Some(profile_name.as_str()));
    let engine = TimerEngine::pomodoro(timer_profile);
    TuiSession { config, engine, profile_name: Some(profile_name), task }
}

/// A session of a countdown, stopwatch or event timer, with no profile.
pub fn run_timer_view(config: Config, mode: TimerMode, task: Option<String>) -> (s: TuiSession)
    requires
        mode_ok(mode@),
    ensures
        s.engine.wf(),
        exists|wall: Timestamp| wall.wf() && s.engine@ == fresh(mode@, initial_total(mode@, wall)),
        s.profile_name is None,
        s.task == task,
        s.config == config,
{
    TuiSession { config, engine: TimerEngine::new(mode), profile_name: None, task }
}

/// A command to the engine.
#[derive(Clone, Copy, Debug, PartialEq, Eq, Structural)]
pub enum EngineCommand {
    Start,
    Toggle,
    Reset,
    Skip,
    AddMinute,
    RemoveMinute,
}

/// A command to the interface.
#[derive(Clone, Copy, Debug, PartialEq, Eq, Structural)]
pub enum UiCommand {
    NextTheme,
    NextFont,
    NextTab,
    ToggleHelp,
    SetTab(Tab),
}

/// What an input leads to.
#[derive(Clone, Copy, Debug, PartialEq, Eq, Structural)]
pub enum Decision {
    Engine(EngineCommand),
    Ui(UiCommand),
    Quit,
    Nothing,
}

/// What a click on a zone's action leads to.
pub open spec fn click_decision(a: Option<MouseAction>) -> Decision {
    match a {
        Some(MouseAction::Start) => Decision::Engine(EngineCommand::Start),
        Some(MouseAction::Pause) => Decision::Engine(EngineCommand::Toggle),
        Some(MouseAction::Reset) => Decision::Engine(EngineCommand::Reset),
        Some(MouseAction::Skip) => Decision::Engine(EngineCommand::Skip),
        Some(MouseAction::Theme) => Decision::Ui(UiCommand::NextTheme),
        Some(MouseAction::Help) => Decision::Ui(UiCommand::ToggleHelp),
        Some(MouseAction::Tab(t)) => Decision::Ui(UiCommand::SetTab(t)),
        _ => Decision::Nothing,
    }
}

/// What an input leads to, given the click zones.
pub open spec fn decision_for(event: InputEvent, zones: Seq<(crate::ui::Rect, MouseAction)>) -> Decision {
    match event {
        InputEvent::Start => Decision::Engine(EngineCommand::Start),
        InputEvent::PauseResume => Decision::Engine(EngineCommand::Toggle),
        InputEvent::Reset => Decision::Engine(EngineCommand::Reset),
        InputEvent::Skip => Decision::Engine(EngineCommand::Skip),
        InputEvent::AddMinute => Decision::Engine(EngineCommand::AddMinute),
        InputEvent::RemoveMinute => Decision::Engine(EngineCommand::RemoveMinute),
        InputEvent::Theme => Decision::Ui(UiCommand::NextTheme),
        InputEvent::Font => Decision::Ui(UiCommand::NextFont),
        InputEvent::Mode => Decision::Ui(UiCommand::NextTab),
        InputEvent::Tab => Decision::Ui(UiCommand::NextTab),
        InputEvent::Help => Decision::Ui(UiCommand::ToggleHelp),
        InputEvent::Mouse(x, y) => click_decision(first_hit(zones, x, y)),
        InputEvent::Quit => Decision::Quit,
        InputEvent::NoInput => Decision::Nothing,
    }
}

/// What an input leads to.
pub fn decide(state: &UiState, event: InputEvent) -> (d: Decision)
    ensures
        d == decision_for(event, state@.zones),
{
    match event {
        InputEvent::Start => Decision::Engine(EngineCommand::Start),
        InputEvent::PauseResume => Decision::Engine(EngineCommand::Toggle),
        InputEvent::Reset => Decision::Engine(EngineCommand::Reset),
        InputEvent::Skip => Decision::Engine(EngineCommand::Skip),
        InputEvent::AddMinute => Decision::Engine(EngineCommand::AddMinute),
        InputEvent::RemoveMinute => Decision::Engine(EngineCommand::RemoveMinute),
        InputEvent::Theme => Decision::Ui(UiCommand::NextTheme),
        InputEvent::Font => Decision::Ui(UiCommand::NextFont),
        InputEvent::Mode => Decision::Ui(UiCommand::NextTab),
        InputEvent::Tab => Decision::Ui(UiCommand::NextTab),
        InputEvent::Help => Decision::Ui(UiCommand::ToggleHelp),
        InputEvent::Mouse(x, y) => match state.mouse_action(x, y) {
            Some(MouseAction::Start) => Decision::Engine(EngineCommand::Start),
            Some(MouseAction::Pause) => Decision::Engine(EngineCommand::Toggle),
            Some(MouseAction::Reset) => Decision::Engine(EngineCommand::Reset),
            Some(MouseAction::Skip) => Decision::Engine(EngineCommand::Skip),
            Some(MouseAction::Theme) => Decision::Ui(UiCommand::NextTheme),
            Some(MouseAction::Help) => Decision::Ui(UiCommand::ToggleHelp),
            Some(MouseAction::Tab(t)) => Decision::Ui(UiCommand::SetTab(t)),
            _ => Decision::Nothing,
        },
        InputEvent::Quit => Decision::Quit,
        InputEvent::NoInput => Decision::Nothing,
    }
}

/// The engine went from `before` to `after` by the command, at some clock readings.
pub open spec fn engine_did(c: EngineCommand, before: EngineView, after: EngineView) -> bool {
    match c {
        EngineCommand::Start => exists|now: int, wall: Timestamp|
            wall.wf() && after == before.start(now, wall),
        EngineCommand::Toggle => exists|now: int, wall: Timestamp|
            {
                &&& wall.wf()
                &&& {
                    ||| !(before.running() && !before.elapsed_fits(now)) && after == before.toggle(
                        now,
                        wall,
                    )
                    ||| before.running() && !before.elapsed_fits(now) && after == before
                }
            },
        EngineCommand::Reset => exists|wall: Timestamp| wall.wf() && after == before.reset(wall),
        EngineCommand::Skip => after == before.skip(),
        EngineCommand::AddMinute => after == before.add_minute(),
        EngineCommand::RemoveMinute => after == before.remove_minute(),
    }
}

/// The interface went from `before` to `after` by the command.
pub open spec fn ui_did(c: UiCommand, before: UiView, after: UiView) -> bool {
    match c {
        UiCommand::NextTheme => after == (UiView { theme_index: (before.theme_index + 1) % 10, ..before }),
        UiCommand::NextFont => after == (UiView { font_index: (before.font_index + 1) % 8, ..before }),
        UiCommand::NextTab => after == (UiView { tab: tab_after(before.tab), ..before }),
        UiCommand::ToggleHelp => after == (UiView { show_help: !before.show_help, ..before }),
        UiCommand::SetTab(t) => after == (UiView { tab: t, ..before }),
    }
}

/// The command can run within the machine's integers.
pub open spec fn command_ok(c: EngineCommand, e: EngineView) -> bool {
    match c {
        EngineCommand::Skip => e.can_skip(),
        EngineCommand::AddMinute => e.total + NANOS_PER_MINUTE <= MAX_SPAN_NANOS,
        _ => true,
    }
}

/// Tests whether the input can be handled within the machine's integers.
pub fn input_ok(engine: &TimerEngine, state: &UiState, event: InputEvent) -> (r: bool)
    requires
        engine.wf(),
    ensures
        r == (decision_for(event, state@.zones) matches Decision::Engine(c) ==> command_ok(c, engine@)),
{
    match decide(state, event) {
        Decision::Engine(EngineCommand::Skip) => engine.skip_ok(),
        Decision::Engine(EngineCommand::AddMinute) => engine.has_room_for_minute(),
        _ => true,
    }
}

/// Handles one input: an engine command runs on the engine, an interface command on the
/// interface; returns whether the input asks to quit.
pub fn handle_input(engine: &mut TimerEngine, state: &mut UiState, event: InputEvent) -> (quit: bool)
    requires
        old(engine).wf(),
        old(state).wf(),
        decision_for(event, old(state)@.zones) matches Decision::Engine(c) ==> command_ok(c, old(engine)@),
    ensures
        final(engine).wf(),
        final(state).wf(),
        quit == (decision_for(event, old(state)@.zones) == Decision::Quit),
        match decision_for(event, old(state)@.zones) {
            Decision::Engine(c) => engine_did(c, old(engine)@, final(engine)@) && final(state)@ == old(state)@,
            Decision::Ui(c) => ui_did(c, old(state)@, final(state)@) && final(engine)@ == old(engine)@,
            _ => final(engine)@ == old(engine)@ && final(state)@ == old(state)@,
        },
{
    match decide(state, event) {
        Decision::Engine(c) => {
            match c {
                EngineCommand::Start => engine.start(),
                EngineCommand::Toggle => engine.toggle(),
                EngineCommand::Reset => engine.reset(),
                EngineCommand::Skip => engine.skip(),
                EngineCommand::AddMinute => engine.add_minute(),
                EngineCommand::RemoveMinute => engine.remove_minute(),
            }
            false
        },
        Decision::Ui(c) => {
            match c {
                UiCommand::NextTheme => state.next_theme(),
                UiCommand::NextFont => state.next_font(),
                UiCommand::NextTab => state.next_tab(),
                UiCommand::ToggleHelp => state.toggle_help(),
                UiCommand::SetTab(t) => state.set_tab(t),
            }
            false
        },
        Decision::Quit => true,
        Decision::Nothing => false,
    }
}

/// The text of an optional string.
pub open spec fn text_or(s: Option<String>, default: Seq<char>) -> Seq<char> {
    match s {
        Some(t) => t@,
        None => default,
    }
}

/// `r` records a finished phase: planned and actual whole seconds (the actual ones never
/// above the planned), the label of the phase that finished, the task and a `custom` tag
/// where there is a task, the profile (`ad-hoc` without one) and the theme; completed,
/// with no mood, energy, intention or note. `total` and `run` are the phase's length and
/// the time run in it, in nanoseconds.
pub open spec fn records_phase(
    r: SessionRecord,
    phase: Phase,
    total: int,
    run: int,
    started_at: Timestamp,
    ended_at: Timestamp,
    task: Option<String>,
    profile_name: Option<String>,
    theme_name: Seq<char>,
) -> bool {
    &&& r.started_at == started_at
    &&& r.ended_at == ended_at
    &&& r.planned_seconds == total / 1_000_000_000
    &&& r.actual_seconds == if run / 1_000_000_000 <= total / 1_000_000_000 {
        run / 1_000_000_000
    } else {
        total / 1_000_000_000
    }
    &&& r.session_type@ == phase.label_text()
    &&& r.task == task
    &&& (task is Some ==> r.tags@.len() == 1 && r.tags@[0]@ == "custom"@)
    &&& (task is None ==> r.tags@.len() == 0)
    &&& r.completed
    &&& r.profile@ == text_or(profile_name, "ad-hoc"@)
    &&& (r.theme matches Some(t) && t@ == theme_name)
    &&& r.energy is None
    &&& r.mood is None
    &&& r.intention is None
    &&& r.note is None
}

/// What a finished phase records (see `records_phase`), given the phase, its length and
/// the time run in it.
pub fn finished_session(
    phase: Phase,
    total: TimeSpan,
    run: TimeSpan,
    started_at: Timestamp,
    ended_at: Timestamp,
    task: &Option<String>,
    profile_name: &Option<String>,
    theme_name: String,
) -> (r: SessionRecord)
    ensures
        records_phase(r, phase, total@, run@, started_at, ended_at, *task, *profile_name, theme_name@),
{
    let planned = total.as_secs();
    let elapsed = run.as_secs();
    let actual = if elapsed <= planned {
        elapsed
    } else {
        planned
    };
    let mut tags: Vec<String> = Vec::new();
    if task.is_some() {
        tags.push(String::from_str("custom"));
    }
    let profile = match profile_name {
        Some(p) => p.clone(),
        None => String::from_str("ad-hoc"),
    };
    SessionRecord {
        started_at,
        ended_at,
        planned_seconds: planned,
        actual_seconds: actual,
        session_type: String::from_str(phase.label()),
        task: task.clone(),
        tags,
        completed: true,
        profile,
        theme: Some(theme_name),
        energy: None,
        mood: None,
        intention: None,
        note: None,
    }
}

/// What the program is asked to do after a tick: record the phase that finished, if
/// one did, and give the notification and the sound where they are switched on.
pub struct TickOutcome {
    pub record: Option<SessionRecord>,
    pub notify: bool,
    pub sound: bool,
}

/// One tick of a running session: the animation advances, the engine ticks at one
/// reading of each clock, and a phase that finished is recorded, as it stood at that
/// reading and as ending at that wall-clock time, with the notification and the sound
/// the configuration asks for. Where the tick would leave the machine's integers the
/// engine is left as it was; that cannot happen while nothing is accumulated from before
/// a pause and the skip fits.
pub fn tick_session(
    engine: &mut TimerEngine,
    state: &mut UiState,
    started_at: Timestamp,
    task: &Option<String>,
    profile_name: &Option<String>,
) -> (r: TickOutcome)
    requires
        old(engine).wf(),
        old(state).wf(),
    ensures
        final(engine).wf(),
        final(state).wf(),
        final(state)@ == (UiView {
            frame: if old(state)@.frame == u64::MAX {
                0
            } else {
                (old(state)@.frame + 1) as u64
            },
            ..old(state)@
        }),
        exists|now: int, wall: Timestamp|
            {
                &&& 0 <= now <= MAX_SPAN_NANOS
                &&& wall.wf()
                &&& (old(engine)@.accumulated == 0 && old(engine)@.can_skip() ==> old(
                    engine,
                )@.tick_ok(now, wall))
                &&& {
                    ||| old(engine)@.tick_ok(now, wall) && final(engine)@ == old(engine)@.tick(
                        now,
                        wall,
                    ) && (r.record is Some <==> old(engine)@.tick_fires(now, wall)) && (
                    r.record matches Some(rec) ==> records_phase(
                        rec,
                        old(engine)@.phase,
                        old(engine)@.refresh(wall).total,
                        run_capped(old(engine)@.refresh(wall), now),
                        started_at,
                        wall,
                        *task,
                        *profile_name,
                        catalog_name(old(state)@.theme_index),
                    ))
                    ||| !old(engine)@.tick_ok(now, wall) && final(engine)@ == old(engine)@
                        && r.record is None
                }
            },
        r.notify == (r.record is Some && old(state)@.config.notifications.enabled),
        r.sound == (r.record is Some && old(state)@.config.notifications.sound),
{
    state.tick();
    let now = engine.reading();
    let wall = local_now();
    if !engine.tick_ok_at(now, wall) {
        return TickOutcome { record: None, notify: false, sound: false };
    }
    let (phase, total, run) = engine.progress_at(now, wall);
    if !engine.tick_at(now, wall) {
        return TickOutcome { record: None, notify: false, sound: false };
    }
    let record = finished_session(phase, total, run, started_at, wall, task, profile_name, state.theme_name());
    let notify = state.notifications_enabled();
    let sound = state.sound_enabled();
    TickOutcome { record: Some(record), notify, sound }
}

/// A task as listed: `[x]` when done, `[ ]` otherwise, then the title and the tag in
/// brackets.
pub open spec fn task_text(task: Task) -> Seq<char> {
    "["@ + (if task.done {
        "x"@
    } else {
        " "@
    }) + "] "@ + task.title@ + " ("@ + task.tag@ + ")"@
}

/// A task as listed (see `task_text`).
pub fn task_line(task: &Task) -> (r: String)
    ensures
        r@ == task_text(*task),
{
    let mut s = String::from_str("[");
    push_str(&mut s, if task.done {
        "x"
    } else {
        " "
    });
    push_str(&mut s, "] ");
    push_str(&mut s, task.title.as_str());
    push_str(&mut s, " (");
    push_str(&mut s, task.tag.as_str());
    push_str(&mut s, ")");
    s
}

/// A note as listed: `#`, its number, and its text.
pub fn note_line(note: &Note) -> (r: String)
    ensures
        r@ == "#"@ + decimal(note.id as nat) + " "@ + note.body@,
{
    let mut s = String::from_str("#");
    push_str(&mut s, decimal_string(note.id).as_str());
    push_str(&mut s, " ");
    push_str(&mut s, note.body.as_str());
    s
}

/// The lines that list the tasks: one per task, or a note that there are none.
pub fn task_listing(tasks: &[Task]) -> (r: Vec<String>)
    ensures
        tasks@.len() == 0 ==> r@.len() == 1 && r@[0]@ == "No tasks yet."@,
        tasks@.len() > 0 ==> r@.len() == tasks@.len() && forall|k: int|
            0 <= k < tasks@.len() ==> #[trigger] r@[k]@ == task_text(tasks@[k]),
{
    let mut lines: Vec<String> = Vec::new();
    if tasks.len() == 0 {
        lines.push(String::from_str("No tasks yet."));
        return lines;
    }
    let mut i: usize = 0;
    while i < tasks.len()
        invariant
            i <= tasks@.len(),
            lines@.len() == i,
            forall|k: int| 0 <= k < i ==> #[trigger] lines@[k]@ == task_text(tasks@[k]),
        decreases tasks@.len() - i,
    {
        lines.push(task_line(&tasks[i]));
        i = i + 1;
    }
    lines
}

} // verus!
