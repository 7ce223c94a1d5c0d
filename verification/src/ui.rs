//! The state of the terminal interface: tabs, theme and font choice, help, text input,
//! click zones, and the keys and clicks that drive it.
use vstd::prelude::*;

use crate::config::Config;
use crate::font::{font_name, font_names, FONT_COUNT};
use crate::note::Note;
use crate::stats::StatsSummary;
use crate::task::Task;
use crate::text::{push_char, str_eq, trim, trim_chars, chars_of, string_of};
use crate::theme::{catalog_name, catalog_palette, theme_matches, Theme};
use crate::timer::TimeSpan;

verus! {

/// How many themes the catalogue holds.
pub const THEME_COUNT: usize = 10;

#[derive(Clone, Copy, Debug, PartialEq, Eq, Structural)]
pub enum Tab {
    Timer,
    Tasks,
    Notes,
    Stats,
    Event,
    Settings,
}

/// The tab after `t`, cycling back to the timer.
pub open spec fn tab_after(t: Tab) -> Tab {
    match t {
        Tab::Timer => Tab::Tasks,
        Tab::Tasks => Tab::Notes,
        Tab::Notes => Tab::Stats,
        Tab::Stats => Tab::Event,
        Tab::Event => Tab::Settings,
        Tab::Settings => Tab::Timer,
    }
}

#[derive(Clone, Copy, Debug, PartialEq, Eq, Structural)]
pub enum InputMode {
    Task,
    Note,
    EditNote(u64),
    Event,
}

#[derive(Clone, Copy, Debug, PartialEq, Eq, Structural)]
pub enum MouseAction {
    Start,
    Pause,
    Reset,
    Skip,
    Theme,
    Help,
    Tab(Tab),
    AddTask,
    CompleteTask,
    DeleteTask,
    AddNote,
    CompleteNote,
    EditNote,
    DeleteNote,
    AddEvent,
    SelectTask(usize),
}

/// A rectangle of terminal cells.
#[derive(Clone, Copy, Debug, PartialEq, Eq, Structural)]
pub struct Rect {
    pub x: u16,
    pub y: u16,
    pub width: u16,
    pub height: u16,
}

/// `a + b`, or the largest `u16` where that does not fit.
pub open spec fn sat_add(a: u16, b: u16) -> int {
    if a + b > u16::MAX {
        u16::MAX as int
    } else {
        a + b
    }
}

/// The cell (x, y) lies in the rectangle (whose far edges are cut at the largest `u16`).
pub open spec fn covers(r: Rect, x: u16, y: u16) -> bool {
    &&& x >= r.x
    &&& x < sat_add(r.x, r.width)
    &&& y >= r.y
    &&& y < sat_add(r.y, r.height)
}

/// The click zones drawn in the last frame, in drawing order.
#[derive(Clone, Debug)]
pub struct MouseZones {
    zones: Vec<(Rect, MouseAction)>,
}

impl View for MouseZones {
    type V = Seq<(Rect, MouseAction)>;

    closed spec fn view(&self) -> Seq<(Rect, MouseAction)> {
        self.zones@
    }
}

/// The action of the first zone that covers (x, y).
pub open spec fn first_hit(zones: Seq<(Rect, MouseAction)>, x: u16, y: u16) -> Option<MouseAction>
    decreases zones.len(),
{
    if zones.len() == 0 {
        None
    } else if covers(zones[0].0, x, y) {
        Some(zones[0].1)
    } else {
        first_hit(zones.drop_first(), x, y)
    }
}

impl Default for MouseZones {
    fn default() -> (z: Self)
        ensures
            z@ == Seq::<(Rect, MouseAction)>::empty(),
    {
        MouseZones { zones: Vec::new() }
    }
}

impl MouseZones {
    /// Forgets every zone.
    pub fn clear(&mut self)
        ensures
            final(self)@ == Seq::<(Rect, MouseAction)>::empty(),
    {
        self.zones = Vec::new();
    }

    /// Adds a zone after the others.
    pub fn add(&mut self, rect: Rect, action: MouseAction)
        ensures
            final(self)@ == old(self)@.push((rect, action)),
    {
        self.zones.push((rect, action));
    }

    /// The action of the first zone that covers (x, y).
    pub fn hit(&self, x: u16, y: u16) -> (r: Option<MouseAction>)
        ensures
            r == first_hit(self@, x, y),
    {
        let mut i: usize = 0;
        assert(self@.skip(0) =~= self@);
        while i < self.zones.len()
            invariant
                i <= self.zones@.len(),
                first_hit(self@, x, y) == first_hit(self@.skip(i as int), x, y),
            decreases self.zones@.len() - i,
        {
            let (rect, action) = self.zones[i];
            let right: u16 = rect.x.saturating_add(rect.width);
            let bottom: u16 = rect.y.saturating_add(rect.height);
            proof {
                assert(self@.skip(i as int)[0] == self.zones@[i as int]);
            }
            if x >= rect.x && x < right && y >= rect.y && y < bottom {
                return Some(action);
            }
            assert(self@.skip(i as int).drop_first() =~= self@.skip(i + 1));
            i = i + 1;
        }
        None
    }
}

#[derive(Clone, Copy, Debug, PartialEq, Eq, Structural)]
pub enum InputEvent {
    Start,
    PauseResume,
    Reset,
    Skip,
    Quit,
    Help,
    Theme,
    Font,
    Mode,
    AddMinute,
    RemoveMinute,
    Tab,
    Mouse(u16, u16),
    NoInput,
}

/// A key as the terminal reports it.
#[derive(Clone, Copy, Debug, PartialEq, Eq, Structural)]
pub enum Key {
    Char(char),
    Esc,
    Tab,
    Other,
}

/// What the terminal reports: a key pressed, a mouse button pressed at a cell, or
/// anything else (a key released or repeated, a mouse move, a resize).
#[derive(Clone, Copy, Debug, PartialEq, Eq, Structural)]
pub enum TermEvent {
    KeyPress(Key),
    MouseDown(u16, u16),
    Other,
}

/// The input that a terminal event stands for.
pub open spec fn input_for(e: TermEvent) -> InputEvent {
    match e {
        TermEvent::KeyPress(Key::Char(c)) => if c == 's' {
            InputEvent::Start
        } else if c == ' ' {
            InputEvent::PauseResume
        } else if c == 'r' {
            InputEvent::Reset
        } else if c == 'n' {
            InputEvent::Skip
        } else if c == 'q' {
            InputEvent::Quit
        } else if c == '?' {
            InputEvent::Help
        } else if c == 't' {
            InputEvent::Theme
        } else if c == 'a' {
            InputEvent::Font
        } else if c == 'm' {
            InputEvent::Mode
        } else if c == '+' {
            InputEvent::AddMinute
        } else if c == '-' {
            InputEvent::RemoveMinute
        } else {
            InputEvent::NoInput
        },
        TermEvent::KeyPress(Key::Esc) => InputEvent::Quit,
        TermEvent::KeyPress(Key::Tab) => InputEvent::Tab,
        TermEvent::KeyPress(Key::Other) => InputEvent::NoInput,
        TermEvent::MouseDown(col, row) => InputEvent::Mouse(col, row),
        TermEvent::Other => InputEvent::NoInput,
    }
}

/// The input that a terminal event stands for.
pub fn input_event(e: TermEvent) -> (r: InputEvent)
    ensures
        r == input_for(e),
{
    match e {
        TermEvent::KeyPress(Key::Char(c)) => {
            if c == 's' {
                InputEvent::Start
            } else if c == ' ' {
                InputEvent::PauseResume
            } else if c == 'r' {
                InputEvent::Reset
            } else if c == 'n' {
                InputEvent::Skip
            } else if c == 'q' {
                InputEvent::Quit
            } else if c == '?' {
                InputEvent::Help
            } else if c == 't' {
                InputEvent::Theme
            } else if c == 'a' {
                InputEvent::Font
            } else if c == 'm' {
                InputEvent::Mode
            } else if c == '+' {
                InputEvent::AddMinute
            } else if c == '-' {
                InputEvent::RemoveMinute
            } else {
                InputEvent::NoInput
            }
        },
        TermEvent::KeyPress(Key::Esc) => InputEvent::Quit,
        TermEvent::KeyPress(Key::Tab) => InputEvent::Tab,
        TermEvent::KeyPress(Key::Other) => InputEvent::NoInput,
        TermEvent::MouseDown(col, row) => InputEvent::Mouse(col, row),
        TermEvent::Other => InputEvent::NoInput,
    }
}

/// A control character (Unicode general category Cc), what `char::is_control` tests.
pub open spec fn is_control(c: char) -> bool {
    (c as u32) < 0x20 || 0x7F <= (c as u32) < 0xA0
}

/// The first theme with that name, or the first theme.
pub open spec fn theme_index_of(name: Seq<char>, i: int) -> int
    decreases 10 - i,
{
    if i >= 10 {
        0
    } else if catalog_name(i) == name {
        i
    } else {
        theme_index_of(name, i + 1)
    }
}

/// The first font with that name, or the first font.
pub open spec fn font_index_of(name: Seq<char>, i: int) -> int
    decreases 8 - i,
{
    if i >= 8 {
        0
    } else if font_names()[i] == name {
        i
    } else {
        font_index_of(name, i + 1)
    }
}

/// What the interface holds, as values.
pub struct UiView {
    pub config: Config,
    pub task: Option<Seq<char>>,
    pub tasks: Seq<Task>,
    pub notes: Seq<Note>,
    pub stats: StatsSummary,
    pub event_status: Option<Seq<char>>,
    pub theme_index: int,
    pub font_index: int,
    pub frame: u64,
    pub show_help: bool,
    pub tab: Tab,
    pub input_mode: Option<InputMode>,
    pub input_buffer: Seq<char>,
    pub zones: Seq<(Rect, MouseAction)>,
}

impl UiView {
    /// The theme and font are among the built-in ones.
    pub open spec fn wf(self) -> bool {
        &&& 0 <= self.theme_index < 10
        &&& 0 <= self.font_index < 8
    }
}

pub struct UiState {
    config: Config,
    task: Option<String>,
    tasks: Vec<Task>,
    notes: Vec<Note>,
    stats: StatsSummary,
    event_status: Option<String>,
    theme_index: usize,
    font_index: usize,
    frame: u64,
    show_help: bool,
    tab: Tab,
    input_mode: Option<InputMode>,
    input_buffer: String,
    mouse_zones: MouseZones,
}

/// The text of an optional string.
pub open spec fn opt_text(s: Option<String>) -> Option<Seq<char>> {
    match s {
        Some(t) => Some(t@),
        None => None,
    }
}

impl View for UiState {
    type V = UiView;

    closed spec fn view(&self) -> UiView {
        UiView {
            config: self.config,
            task: opt_text(self.task),
            tasks: self.tasks@,
            notes: self.notes@,
            stats: self.stats,
            event_status: opt_text(self.event_status),
            theme_index: self.theme_index as int,
            font_index: self.font_index as int,
            frame: self.frame,
            show_help: self.show_help,
            tab: self.tab,
            input_mode: self.input_mode,
            input_buffer: self.input_buffer@,
            zones: self.mouse_zones@,
        }
    }
}

/// Removes the last character (calls `String::pop`).
#[verifier::external_body]
fn pop_char(s: &mut String) -> (r: Option<char>)
    ensures
        old(s)@.len() == 0 ==> r is None && final(s)@ == old(s)@,
        old(s)@.len() > 0 ==> r == Some(old(s)@.last()) && final(s)@ == old(s)@.drop_last(),
{
    s.pop()
}

impl UiState {
    pub open spec fn wf(&self) -> bool {
        self@.wf()
    }

    /// A fresh interface on the timer tab, with the configured theme and font where they
    /// are built in (the first ones otherwise).
    pub fn new(
        config: Config,
        task: Option<String>,
        tasks: Vec<Task>,
        notes: Vec<Note>,
        stats: StatsSummary,
    ) -> (s: Self)
        ensures
            s.wf(),
            s@.theme_index == theme_index_of(config.visuals.theme@, 0),
            s@.font_index == font_index_of(config.visuals.font@, 0),
            s@.config == config,
            s@.task == opt_text(task),
            s@.tasks == tasks@,
            s@.notes == notes@,
            s@.stats == stats,
            s@.event_status is None,
            s@.frame == 0,
            !s@.show_help,
            s@.tab == Tab::Timer,
            s@.input_mode is None,
            s@.input_buffer == Seq::<char>::empty(),
            s@.zones == Seq::<(Rect, MouseAction)>::empty(),
    {
        let mut theme_index: usize = 0;
        let mut i: usize = 0;
        let mut found = false;
        while i < THEME_COUNT && !found
            invariant
                i <= 10,
                found ==> theme_index < 10 && theme_index_of(config.visuals.theme@, 0)
                    == theme_index,
                !found ==> theme_index_of(config.visuals.theme@, 0) == theme_index_of(
                    config.visuals.theme@,
                    i as int,
                ),
                !found ==> theme_index == 0,
            decreases 10 - i + (if found {
                0int
            } else {
                1int
            }),
        {
            let t = Theme::at(i);
            if str_eq(t.name.as_str(), config.visuals.theme.as_str()) {
                theme_index = i;
                found = true;
            } else {
                i = i + 1;
            }
        }
        let mut font_index: usize = 0;
        let mut j: usize = 0;
        let mut found_font = false;
        while j < FONT_COUNT && !found_font
            invariant
                j <= 8,
                found_font ==> font_index < 8 && font_index_of(config.visuals.font@, 0)
                    == font_index,
                !found_font ==> font_index_of(config.visuals.font@, 0) == font_index_of(
                    config.visuals.font@,
                    j as int,
                ),
                !found_font ==> font_index == 0,
            decreases 8 - j + (if found_font {
                0int
            } else {
                1int
            }),
        {
            if str_eq(font_name(j), config.visuals.font.as_str()) {
                font_index = j;
                found_font = true;
            } else {
                j = j + 1;
            }
        }
        UiState {
            config,
            task,
            tasks,
            notes,
            stats,
            event_status: None,
            theme_index,
            font_index,
            frame: 0,
            show_help: false,
            tab: Tab::Timer,
            input_mode: None,
            input_buffer: String::new(),
            mouse_zones: MouseZones::default(),
        }
    }

    /// How often the interface animates: every 500 ms slow, 120 ms fast, 250 ms at any
    /// other speed; every 750 ms without animations.
    pub fn tick_rate(&self) -> (r: TimeSpan)
        ensures
            r@ == 1_000_000 * (if self@.config.visuals.animations {
                if self@.config.visuals.animation_speed@ == "slow"@ {
                    500int
                } else if self@.config.visuals.animation_speed@ == "fast"@ {
                    120int
                } else {
                    250int
                }
            } else {
                750int
            }),
    {
        let ms: u128 = if self.config.visuals.animations {
            if str_eq(self.config.visuals.animation_speed.as_str(), "slow") {
                500
            } else if str_eq(self.config.visuals.animation_speed.as_str(), "fast") {
                120
            } else {
                250
            }
        } else {
            750
        };
        TimeSpan::from_nanos(ms * 1_000_000)
    }

    /// Advances the animation frame, wrapping around.
    pub fn tick(&mut self)
        ensures
            final(self)@ == (UiView {
                frame: if old(self)@.frame == u64::MAX {
                    0
                } else {
                    (old(self)@.frame + 1) as u64
                },
                ..old(self)@
            }),
    {
        self.frame = self.frame.wrapping_add(1);
    }

    /// The current theme.
    pub fn theme(&self) -> (t: Theme)
        requires
            self.wf(),
        ensures
            theme_matches(t, catalog_name(self@.theme_index), catalog_palette(self@.theme_index)),
    {
        Theme::at(self.theme_index)
    }

    /// Whether the configuration asks for a notification when a phase ends.
    pub fn notifications_enabled(&self) -> (r: bool)
        ensures
            r == self@.config.notifications.enabled,
    {
        self.config.notifications.enabled
    }

    /// Whether the configuration asks for a sound when a phase ends.
    pub fn sound_enabled(&self) -> (r: bool)
        ensures
            r == self@.config.notifications.sound,
    {
        self.config.notifications.sound
    }

    /// The current theme's name.
    pub fn theme_name(&self) -> (r: String)
        requires
            self.wf(),
        ensures
            r@ == catalog_name(self@.theme_index),
    {
        Theme::at(self.theme_index).name
    }

    /// The current font's name.
    pub fn font(&self) -> (r: &'static str)
        requires
            self.wf(),
        ensures
            r@ == font_names()[self@.font_index],
    {
        font_name(self.font_index)
    }

    /// The task of the session, or a note that there is none.
    pub fn task(&self) -> (r: &str)
        ensures
            r@ == match self@.task {
                Some(t) => t,
                None => "No task selected"@,
            },
    {
        match &self.task {
            Some(t) => t.as_str(),
            None => "No task selected",
        }
    }

    /// The tasks shown.
    pub fn tasks(&self) -> (r: &[Task])
        ensures
            r@ == self@.tasks,
    {
        self.tasks.as_slice()
    }

    /// The notes shown.
    pub fn notes(&self) -> (r: &[Note])
        ensures
            r@ == self@.notes,
    {
        self.notes.as_slice()
    }

    /// The statistics shown.
    pub fn stats(&self) -> (r: &StatsSummary)
        ensures
            *r == self@.stats,
    {
        &self.stats
    }

    /// The event countdown's status, or a note that there is none.
    pub fn event_status(&self) -> (r: &str)
        ensures
            r@ == match self@.event_status {
                Some(t) => t,
                None => "No event countdown configured"@,
            },
    {
        match &self.event_status {
            Some(t) => t.as_str(),
            None => "No event countdown configured",
        }
    }

    /// What the text being typed is for, if anything is being typed.
    pub fn input_mode(&self) -> (r: Option<&InputMode>)
        ensures
            r matches Some(m) ==> self@.input_mode == Some(*m),
            r is None <==> self@.input_mode is None,
    {
        self.input_mode.as_ref()
    }

    /// The text typed so far.
    pub fn input_buffer(&self) -> (r: &str)
        ensures
            r@ == self@.input_buffer,
    {
        self.input_buffer.as_str()
    }

    /// The animation frame.
    pub fn frame(&self) -> (r: u64)
        ensures
            r == self@.frame,
    {
        self.frame
    }

    /// Whether the help is shown.
    pub fn show_help(&self) -> (r: bool)
        ensures
            r == self@.show_help,
    {
        self.show_help
    }

    /// The tab shown.
    pub fn tab(&self) -> (r: Tab)
        ensures
            r == self@.tab,
    {
        self.tab
    }

    /// The click zones, for the renderer to refill.
    pub fn mouse_zones_mut(&mut self) -> (r: &mut MouseZones)
        ensures
            r@ == old(self)@.zones,
            final(self)@ == (UiView { zones: final(r)@, ..old(self)@ }),
    {
        &mut self.mouse_zones
    }

    /// Moves to the next theme of the catalogue, cycling.
    pub fn next_theme(&mut self)
        requires
            old(self).wf(),
        ensures
            final(self).wf(),
            final(self)@ == (UiView {
                theme_index: (old(self)@.theme_index + 1) % 10,
                ..old(self)@
            }),
    {
        self.theme_index = (self.theme_index + 1) % THEME_COUNT;
    }

    /// Moves to the next font, cycling.
    pub fn next_font(&mut self)
        requires
            old(self).wf(),
        ensures
            final(self).wf(),
            final(self)@ == (UiView {
                font_index: (old(self)@.font_index + 1) % 8,
                ..old(self)@
            }),
    {
        self.font_index = (self.font_index + 1) % FONT_COUNT;
    }

    /// Moves to the next tab, cycling.
    pub fn next_tab(&mut self)
        ensures
            final(self)@ == (UiView { tab: tab_after(old(self)@.tab), ..old(self)@ }),
    {
        self.tab = match self.tab {
            Tab::Timer => Tab::Tasks,
            Tab::Tasks => Tab::Notes,
            Tab::Notes => Tab::Stats,
            Tab::Stats => Tab::Event,
            Tab::Event => Tab::Settings,
            Tab::Settings => Tab::Timer,
        };
    }

    /// Shows or hides the help.
    pub fn toggle_help(&mut self)
        ensures
            final(self)@ == (UiView { show_help: !old(self)@.show_help, ..old(self)@ }),
    {
        self.show_help = !self.show_help;
    }

    /// The action of the first click zone at (x, y).
    pub fn mouse_action(&self, x: u16, y: u16) -> (r: Option<MouseAction>)
        ensures
            r == first_hit(self@.zones, x, y),
    {
        self.mouse_zones.hit(x, y)
    }

    /// Shows the tab.
    pub fn set_tab(&mut self, tab: Tab)
        ensures
            final(self)@ == (UiView { tab: tab, ..old(self)@ }),
    {
        self.tab = tab;
    }

    /// Starts typing a new task.
    pub fn open_task_input(&mut self)
        ensures
            final(self)@ == (UiView {
                input_mode: Some(InputMode::Task),
                input_buffer: Seq::<char>::empty(),
                ..old(self)@
            }),
    {
        self.input_mode = Some(InputMode::Task);
        self.input_buffer = String::new();
    }

    /// Starts typing a new note.
    pub fn open_note_input(&mut self)
        ensures
            final(self)@ == (UiView {
                input_mode: Some(InputMode::Note),
                input_buffer: Seq::<char>::empty(),
                ..old(self)@
            }),
    {
        self.input_mode = Some(InputMode::Note);
        self.input_buffer = String::new();
    }

    /// Starts typing an event.
    pub fn open_event_input(&mut self)
        ensures
            final(self)@ == (UiView {
                input_mode: Some(InputMode::Event),
                input_buffer: Seq::<char>::empty(),
                ..old(self)@
            }),
    {
        self.input_mode = Some(InputMode::Event);
        self.input_buffer = String::new();
    }

    /// Starts editing the first note, with its text to change; nothing happens where
    /// there are no notes.
    pub fn open_edit_latest_note(&mut self)
        ensures
            old(self)@.notes.len() == 0 ==> final(self)@ == old(self)@,
            old(self)@.notes.len() > 0 ==> final(self)@ == (UiView {
                input_mode: Some(InputMode::EditNote(old(self)@.notes[0].id)),
                input_buffer: old(self)@.notes[0].body@,
                ..old(self)@
            }),
    {
        if self.notes.len() > 0 {
            let id = self.notes[0].id;
            let body = self.notes[0].body.clone();
            self.input_mode = Some(InputMode::EditNote(id));
            self.input_buffer = body;
        }
    }

    /// Types a character, where typing is on and the character is not a control one.
    pub fn push_input(&mut self, ch: char)
        ensures
            final(self)@ == (if old(self)@.input_mode is Some && !is_control(ch) {
                UiView { input_buffer: old(self)@.input_buffer.push(ch), ..old(self)@ }
            } else {
                old(self)@
            }),
    {
        let u = ch as u32;
        let control = u < 0x20 || (0x7F <= u && u < 0xA0);
        if self.input_mode.is_some() && !control {
            push_char(&mut self.input_buffer, ch);
        }
    }

    /// Erases the last typed character.
    pub fn pop_input(&mut self)
        ensures
            final(self)@ == (UiView {
                input_buffer: if old(self)@.input_buffer.len() == 0 {
                    old(self)@.input_buffer
                } else {
                    old(self)@.input_buffer.drop_last()
                },
                ..old(self)@
            }),
    {
        pop_char(&mut self.input_buffer);
    }

    /// Stops typing and forgets the text.
    pub fn cancel_input(&mut self)
        ensures
            final(self)@ == (UiView {
                input_mode: None,
                input_buffer: Seq::<char>::empty(),
                ..old(self)@
            }),
    {
        self.input_mode = None;
        self.input_buffer = String::new();
    }

    /// Ends typing: the mode and the typed text without surrounding white space. Where
    /// typing is off nothing changes.
    pub fn take_input(&mut self) -> (r: Option<(InputMode, String)>)
        ensures
            old(self)@.input_mode is None ==> r is None && final(self)@ == old(self)@,
            old(self)@.input_mode matches Some(m) ==> {
                &&& r matches Some((rm, text)) && rm == m && text@ == trim(
                    old(self)@.input_buffer,
                )
                &&& final(self)@ == (UiView {
                    input_mode: None,
                    input_buffer: Seq::<char>::empty(),
                    ..old(self)@
                })
            },
    {
        let mode = match self.input_mode.take() {
            Some(m) => m,
            None => {
                return None;
            },
        };
        let chars = chars_of(self.input_buffer.as_str());
        let trimmed = trim_chars(chars.as_slice());
        let value = string_of(trimmed.as_slice());
        self.input_buffer = String::new();
        Some((mode, value))
    }

    /// Replaces the tasks shown.
    pub fn set_tasks(&mut self, tasks: Vec<Task>)
        ensures
            final(self)@ == (UiView { tasks: tasks@, ..old(self)@ }),
    {
        self.tasks = tasks;
    }

    /// Replaces the notes shown.
    pub fn set_notes(&mut self, notes: Vec<Note>)
        ensures
            final(self)@ == (UiView { notes: notes@, ..old(self)@ }),
    {
        self.notes = notes;
    }

    /// Replaces the statistics shown.
    pub fn set_stats(&mut self, stats: StatsSummary)
        ensures
            final(self)@ == (UiView { stats: stats, ..old(self)@ }),
    {
        self.stats = stats;
    }

    /// Sets the event countdown's status text.
    pub fn set_event_status(&mut self, event_status: String)
        ensures
            final(self)@ == (UiView { event_status: Some(event_status@), ..old(self)@ }),
    {
        self.event_status = Some(event_status);
    }

    /// Sets the task of the session.
    pub fn set_task(&mut self, task: Option<String>)
        ensures
            final(self)@ == (UiView { task: opt_text(task), ..old(self)@ }),
    {
        self.task = task;
    }
}

/// Six moves to the next tab come back to the same tab.
pub proof fn lemma_tabs_cycle(t: Tab)
    ensures
        tab_after(tab_after(tab_after(tab_after(tab_after(tab_after(t)))))) == t,
        tab_after(t) != t,
{
}

/// The index reached from `i` by `n` moves to the next of `m` entries.
pub open spec fn cycled(i: int, n: nat, m: int) -> int
    decreases n,
{
    if n == 0 {
        i
    } else {
        (cycled(i, (n - 1) as nat, m) + 1) % m
    }
}

proof fn lemma_cycled(i: int, n: nat, m: int)
    requires
        m > 0,
        0 <= i < m,
    ensures
        cycled(i, n, m) == (i + n) % m,
    decreases n,
{
    if n > 0 {
        let a = i + n - 1;
        lemma_cycled(i, (n - 1) as nat, m);
        assert(cycled(i, (n - 1) as nat, m) == a % m);
        vstd::arithmetic::div_mod::lemma_add_mod_noop(a, 1, m);
        vstd::arithmetic::div_mod::lemma_add_mod_noop(a % m, 1, m);
        vstd::arithmetic::div_mod::lemma_mod_twice(a, m);
        assert((a % m + 1) % m == (a + 1) % m);
    } else {
        vstd::arithmetic::div_mod::lemma_small_mod(i as nat, m as nat);
    }
}

/// Moving to the next theme ten times, or to the next font eight times, comes back to
/// where it started; fewer moves do not.
pub proof fn lemma_themes_and_fonts_cycle(theme: int, font: int, n: nat)
    requires
        0 <= theme < 10,
        0 <= font < 8,
    ensures
        cycled(theme, 10, 10) == theme,
        cycled(font, 8, 8) == font,
        0 < n < 10 ==> cycled(theme, n, 10) != theme,
        0 < n < 8 ==> cycled(font, n, 8) != font,
{
    lemma_cycled(theme, 10, 10);
    lemma_cycled(font, 8, 8);
    lemma_cycled(theme, n, 10);
    lemma_cycled(font, n, 8);
}

/// The keys of the program: space pauses or resumes, `s` starts, `r` resets, `n` skips
/// the phase, `q` and Esc quit, `?` shows the help, `t` changes the theme, `m` the tab,
/// `a` the font, `+` and `-` add and remove a minute, Tab moves to the next panel, a
/// mouse click is passed on with its cell, and nothing else does anything.
pub proof fn lemma_keys(c: char, col: u16, row: u16)
    ensures
        input_for(TermEvent::KeyPress(Key::Char(' '))) == InputEvent::PauseResume,
        input_for(TermEvent::KeyPress(Key::Char('s'))) == InputEvent::Start,
        input_for(TermEvent::KeyPress(Key::Char('r'))) == InputEvent::Reset,
        input_for(TermEvent::KeyPress(Key::Char('n'))) == InputEvent::Skip,
        input_for(TermEvent::KeyPress(Key::Char('q'))) == InputEvent::Quit,
        input_for(TermEvent::KeyPress(Key::Esc)) == InputEvent::Quit,
        input_for(TermEvent::KeyPress(Key::Char('?'))) == InputEvent::Help,
        input_for(TermEvent::KeyPress(Key::Char('t'))) == InputEvent::Theme,
        input_for(TermEvent::KeyPress(Key::Char('m'))) == InputEvent::Mode,
        input_for(TermEvent::KeyPress(Key::Char('a'))) == InputEvent::Font,
        input_for(TermEvent::KeyPress(Key::Char('+'))) == InputEvent::AddMinute,
        input_for(TermEvent::KeyPress(Key::Char('-'))) == InputEvent::RemoveMinute,
        input_for(TermEvent::KeyPress(Key::Tab)) == InputEvent::Tab,
        input_for(TermEvent::MouseDown(col, row)) == InputEvent::Mouse(col, row),
        !(c == ' ' || c == 's' || c == 'r' || c == 'n' || c == 'q' || c == '?' || c == 't' || c
            == 'm' || c == 'a' || c == '+' || c == '-') ==> input_for(
            TermEvent::KeyPress(Key::Char(c)),
        ) == InputEvent::NoInput,
        input_for(TermEvent::KeyPress(Key::Other)) == InputEvent::NoInput,
        input_for(TermEvent::Other) == InputEvent::NoInput,
{
}

/// A click goes to the first zone that covers its cell: the zone found covers the cell
/// and no zone before it does; where nothing is found, no zone covers the cell.
pub proof fn lemma_first_hit(zones: Seq<(Rect, MouseAction)>, x: u16, y: u16)
    ensures
        first_hit(zones, x, y) matches Some(a) ==> exists|k: int|
            0 <= k < zones.len() && covers(zones[k].0, x, y) && zones[k].1 == a && forall|j: int|
                0 <= j < k ==> !covers(#[trigger] zones[j].0, x, y),
        first_hit(zones, x, y) is None ==> forall|k: int|
            0 <= k < zones.len() ==> !covers(#[trigger] zones[k].0, x, y),
    decreases zones.len(),
{
    if zones.len() > 0 && !covers(zones[0].0, x, y) {
        let rest = zones.drop_first();
        lemma_first_hit(rest, x, y);
        if first_hit(zones, x, y) is Some {
            let a = first_hit(zones, x, y)->0;
            let k = choose|k: int|
                0 <= k < rest.len() && covers(rest[k].0, x, y) && rest[k].1 == a && forall|j: int|
                    0 <= j < k ==> !covers(#[trigger] rest[j].0, x, y);
            assert(zones[k + 1] == rest[k]);
            assert forall|j: int| 0 <= j < k + 1 implies !covers(#[trigger] zones[j].0, x, y) by {
                if j > 0 {
                    assert(zones[j] == rest[j - 1]);
                }
            }
        } else {
            assert forall|k: int| 0 <= k < zones.len() implies !covers(#[trigger] zones[k].0, x, y) by {
                if k > 0 {
                    assert(zones[k] == rest[k - 1]);
                }
            }
        }
    }
}

} // verus!
