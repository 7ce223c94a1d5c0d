//! The timer engine: Pomodoro cycles, countdowns, a stopwatch and event countdowns.
//!
//! The engine keeps its readings of a monotonic clock as nanoseconds since an anchor
//! taken when it was made. Every operation that reads a clock exists in two forms:
//! one that takes the readings as arguments (`*_at`), with an exact contract, and one
//! that reads the clocks itself and then calls the first.
use vstd::prelude::*;

use crate::clock::{instant_now, local_now, nanos_since};
use crate::profile::Profile;
use crate::time::Timestamp;

verus! {

/// The largest span a `std::time::Duration` can hold, in nanoseconds.
pub const MAX_SPAN_NANOS: u128 = 18_446_744_073_709_551_615_999_999_999;

/// One minute in nanoseconds.
pub const NANOS_PER_MINUTE: u128 = 60_000_000_000;

/// One day in nanoseconds (the length of a stopwatch run).
pub const NANOS_PER_DAY: u128 = 86_400_000_000_000;

#[derive(Clone, Copy, Debug, PartialEq, Eq, Structural)]
pub enum Phase {
    Focus,
    ShortBreak,
    LongBreak,
    Paused,
    Finished,
}

impl Phase {
    /// The phase's name as shown to the user.
    pub open spec fn label_text(self) -> Seq<char> {
        match self {
            Phase::Focus => "Focus"@,
            Phase::ShortBreak => "Short break"@,
            Phase::LongBreak => "Long break"@,
            Phase::Paused => "Paused"@,
            Phase::Finished => "Finished"@,
        }
    }

    /// The phase's name as shown to the user.
    pub fn label(self) -> (r: &'static str)
        ensures
            r@ == self.label_text(),
    {
        match self {
            Phase::Focus => "Focus",
            Phase::ShortBreak => "Short break",
            Phase::LongBreak => "Long break",
            Phase::Paused => "Paused",
            Phase::Finished => "Finished",
        }
    }
}

/// A span of time of at most `MAX_SPAN_NANOS` nanoseconds.
#[derive(Clone, Copy, Debug, PartialEq, Eq, Structural)]
pub struct TimeSpan {
    nanos: u128,
}

impl View for TimeSpan {
    type V = int;

    closed spec fn view(&self) -> int {
        self.nanos as int
    }
}

impl TimeSpan {
    #[verifier::type_invariant]
    spec fn bounded(self) -> bool {
        self.nanos <= MAX_SPAN_NANOS
    }

    /// A span of `nanos` nanoseconds.
    pub fn from_nanos(nanos: u128) -> (r: Self)
        requires
            nanos <= MAX_SPAN_NANOS,
        ensures
            r@ == nanos,
    {
        TimeSpan { nanos }
    }

    /// A span of `secs` whole seconds.
    pub fn from_secs(secs: u64) -> (r: Self)
        ensures
            r@ == secs * 1_000_000_000,
    {
        TimeSpan { nanos: secs as u128 * 1_000_000_000 }
    }

    /// The span in nanoseconds.
    pub fn as_nanos(&self) -> (r: u128)
        ensures
            r == self@,
            r <= MAX_SPAN_NANOS,
    {
        proof {
            use_type_invariant(self);
        }
        self.nanos
    }

    /// Whole seconds in the span.
    pub fn as_secs(&self) -> (r: u64)
        ensures
            r == self@ / 1_000_000_000,
    {
        proof {
            use_type_invariant(self);
        }
        (self.nanos / 1_000_000_000) as u64
    }
}

#[derive(Clone, Debug)]
pub enum TimerMode {
    Pomodoro { profile: Profile },
    Countdown { seconds: u64 },
    Stopwatch,
    EventCountdown { name: String, at: Timestamp },
}

/// What a timer mode holds, as values.
pub enum ModeView {
    Pomodoro(Profile),
    Countdown(u64),
    Stopwatch,
    EventCountdown(Seq<char>, Timestamp),
}

impl View for TimerMode {
    type V = ModeView;

    open spec fn view(&self) -> ModeView {
        match self {
            TimerMode::Pomodoro { profile } => ModeView::Pomodoro(*profile),
            TimerMode::Countdown { seconds } => ModeView::Countdown(*seconds),
            TimerMode::Stopwatch => ModeView::Stopwatch,
            TimerMode::EventCountdown { name, at } => ModeView::EventCountdown(name@, *at),
        }
    }
}

/// What a caller may see of the engine at one moment.
#[derive(Clone, Debug)]
pub struct TimerSnapshot {
    pub phase: Phase,
    pub remaining: TimeSpan,
    pub elapsed: TimeSpan,
    pub total: TimeSpan,
    pub cycle: u32,
    pub cycle_target: u32,
    pub running: bool,
    pub label: String,
}

/// The engine's state, as values. Clock readings are nanoseconds since the anchor.
pub struct EngineView {
    pub mode: ModeView,
    pub phase: Phase,
    pub cycle: int,
    pub started_at: Option<int>,
    pub accumulated: int,
    pub total: int,
    pub previous_phase: Phase,
}

/// A phase in which time is counted (neither paused nor finished).
pub open spec fn is_timing_phase(p: Phase) -> bool {
    p == Phase::Focus || p == Phase::ShortBreak || p == Phase::LongBreak
}

/// The focus length of the profile, in seconds, fits in a `u64`.
pub open spec fn focus_fits(p: Profile) -> bool {
    p.focus_minutes * 60 <= u64::MAX
}

/// The minutes that a profile gives to a phase.
pub open spec fn minutes_of(p: Profile, phase: Phase) -> int {
    match phase {
        Phase::Focus => p.focus_minutes as int,
        Phase::ShortBreak => p.short_break_minutes as int,
        Phase::LongBreak => p.long_break_minutes as int,
        _ => 0,
    }
}

/// `value` is a multiple of `by` (zero is the only multiple of zero).
pub open spec fn multiple_of(value: int, by: int) -> bool {
    if by == 0 {
        value == 0
    } else {
        value % by == 0
    }
}

/// Whole seconds from `wall` to `at`, or zero once `at` has passed.
pub open spec fn event_left_secs(at: Timestamp, wall: Timestamp) -> int {
    let d = at.nanos_since(wall);
    if d > 0 {
        d / 1_000_000_000
    } else {
        0
    }
}

/// The length of the first session of a mode, in nanoseconds.
pub open spec fn initial_total(mode: ModeView, wall: Timestamp) -> int {
    match mode {
        ModeView::Pomodoro(p) => p.focus_minutes * 60 * 1_000_000_000,
        ModeView::Countdown(s) => s * 1_000_000_000,
        ModeView::Stopwatch => NANOS_PER_DAY as int,
        ModeView::EventCountdown(_, at) => event_left_secs(at, wall) * 1_000_000_000,
    }
}

/// The mode can be run: a Pomodoro focus length fits, an event moment is valid.
pub open spec fn mode_ok(mode: ModeView) -> bool {
    &&& (mode matches ModeView::Pomodoro(p) ==> focus_fits(p))
    &&& (mode matches ModeView::EventCountdown(_, at) ==> at.wf())
}

/// A fresh engine in its first focus session.
pub open spec fn fresh(mode: ModeView, total: int) -> EngineView {
    EngineView {
        mode: mode,
        phase: Phase::Focus,
        cycle: 1,
        started_at: None,
        accumulated: 0,
        total: total,
        previous_phase: Phase::Focus,
    }
}

impl EngineView {
    /// The invariant of every engine.
    pub open spec fn wf(self) -> bool {
        &&& 1 <= self.cycle <= u32::MAX
        &&& 0 <= self.accumulated <= MAX_SPAN_NANOS
        &&& 0 <= self.total <= MAX_SPAN_NANOS
        &&& (self.started_at matches Some(s) ==> 0 <= s <= u128::MAX && is_timing_phase(
            self.phase,
        ))
        &&& is_timing_phase(self.previous_phase)
        &&& mode_ok(self.mode)
    }

    pub open spec fn running(self) -> bool {
        self.started_at is Some
    }

    pub open spec fn reset(self, wall: Timestamp) -> EngineView {
        EngineView {
            phase: Phase::Focus,
            cycle: 1,
            started_at: None,
            accumulated: 0,
            total: initial_total(self.mode, wall),
            previous_phase: Phase::Focus,
            ..self
        }
    }

    /// Starts (or resumes) the clock at reading `now`; a finished engine is reset first.
    pub open spec fn start(self, now: int, wall: Timestamp) -> EngineView {
        let v = if self.phase == Phase::Finished {
            self.reset(wall)
        } else {
            self
        };
        if v.started_at is None {
            EngineView {
                started_at: Some(now),
                phase: if v.phase == Phase::Paused {
                    v.previous_phase
                } else {
                    v.phase
                },
                ..v
            }
        } else {
            v
        }
    }

    /// Time counted since the clock was last started (zero when it is stopped).
    pub open spec fn run_time(self, now: int) -> int {
        match self.started_at {
            Some(s) => if now >= s {
                now - s
            } else {
                0
            },
            None => 0,
        }
    }

    pub open spec fn elapsed(self, now: int) -> int {
        self.accumulated + self.run_time(now)
    }

    /// The elapsed time at `now` fits in a span.
    pub open spec fn elapsed_fits(self, now: int) -> bool {
        self.elapsed(now) <= MAX_SPAN_NANOS
    }

    pub open spec fn pause(self, now: int) -> EngineView {
        if self.started_at is Some {
            EngineView {
                started_at: None,
                accumulated: self.elapsed(now),
                previous_phase: self.phase,
                phase: Phase::Paused,
                ..self
            }
        } else {
            self
        }
    }

    pub open spec fn toggle(self, now: int, wall: Timestamp) -> EngineView {
        if self.running() {
            self.pause(now)
        } else {
            self.start(now, wall)
        }
    }

    pub open spec fn add_minute(self) -> EngineView {
        EngineView { total: self.total + NANOS_PER_MINUTE, ..self }
    }

    pub open spec fn remove_minute(self) -> EngineView {
        EngineView {
            total: if self.total >= NANOS_PER_MINUTE {
                self.total - NANOS_PER_MINUTE
            } else {
                0
            },
            ..self
        }
    }

    /// The phase the engine counts in: while paused, the phase it was paused in.
    pub open spec fn current_phase(self) -> Phase {
        if self.phase == Phase::Paused {
            self.previous_phase
        } else {
            self.phase
        }
    }

    /// The phase that follows the current one in a Pomodoro cycle.
    pub open spec fn next_phase(self, p: Profile) -> Phase {
        if self.current_phase() == Phase::Focus {
            if multiple_of(self.cycle, p.long_break_every as int) {
                Phase::LongBreak
            } else {
                Phase::ShortBreak
            }
        } else {
            Phase::Focus
        }
    }

    pub open spec fn advance(self, p: Profile) -> EngineView {
        let next = self.next_phase(p);
        EngineView {
            started_at: None,
            accumulated: 0,
            phase: next,
            cycle: if self.current_phase() == Phase::Focus {
                self.cycle
            } else {
                self.cycle + 1
            },
            previous_phase: next,
            total: minutes_of(p, next) * 60 * 1_000_000_000,
            ..self
        }
    }

    /// Skipping the current phase stays within the machine's integers.
    pub open spec fn can_skip(self) -> bool {
        match self.mode {
            ModeView::Pomodoro(p) => {
                &&& minutes_of(p, self.next_phase(p)) * 60 <= u64::MAX
                &&& (self.current_phase() != Phase::Focus ==> self.cycle < u32::MAX)
            },
            _ => true,
        }
    }

    pub open spec fn skip(self) -> EngineView {
        match self.mode {
            ModeView::Pomodoro(p) => self.advance(p),
            _ => EngineView { phase: Phase::Finished, started_at: None, ..self },
        }
    }

    /// An event countdown's total follows the wall clock.
    pub open spec fn refresh(self, wall: Timestamp) -> EngineView {
        match self.mode {
            ModeView::EventCountdown(_, at) => EngineView {
                total: event_left_secs(at, wall) * 1_000_000_000,
                ..self
            },
            _ => self,
        }
    }

    /// The mode counts down a set length of time (a Pomodoro session or a countdown).
    pub open spec fn counts_length(self) -> bool {
        self.mode is Pomodoro || self.mode is Countdown
    }

    /// A tick finishes the phase: the clock runs, and a set length has run out or the
    /// event's time has come; a stopwatch never finishes.
    pub open spec fn tick_fires(self, now: int, wall: Timestamp) -> bool {
        let v = self.refresh(wall);
        &&& v.started_at is Some
        &&& match v.mode {
            ModeView::Stopwatch => false,
            ModeView::EventCountdown(_, at) => at.nanos_since(wall) <= 0,
            _ => v.elapsed(now) >= v.total,
        }
    }

    pub open spec fn tick(self, now: int, wall: Timestamp) -> EngineView {
        let v = self.refresh(wall);
        if self.tick_fires(now, wall) {
            v.skip()
        } else {
            v
        }
    }

    /// A tick at these readings stays within the machine's integers.
    pub open spec fn tick_ok(self, now: int, wall: Timestamp) -> bool {
        let v = self.refresh(wall);
        &&& (v.started_at is Some && v.counts_length() ==> v.elapsed_fits(now))
        &&& (self.tick_fires(now, wall) ==> v.can_skip())
    }

    pub open spec fn cycle_target(self) -> int {
        match self.mode {
            ModeView::Pomodoro(p) => p.long_break_every as int,
            _ => 1,
        }
    }

    pub open spec fn label(self) -> Seq<char> {
        match self.mode {
            ModeView::Pomodoro(_) => "Pomodoro"@,
            ModeView::Countdown(_) => "Countdown"@,
            ModeView::Stopwatch => "Stopwatch"@,
            ModeView::EventCountdown(name, _) => name,
        }
    }

    /// What is left: the time run for a stopwatch, the time until the event (as last
    /// refreshed) for an event countdown, the rest of the set length otherwise.
    pub open spec fn remaining(self, now: int) -> int {
        let e = self.elapsed(now);
        if self.mode is Stopwatch {
            e
        } else if self.mode is EventCountdown {
            self.total
        } else if e <= self.total {
            self.total - e
        } else {
            0
        }
    }
}

/// The time run in the current phase, at most its length.
pub open spec fn run_capped(v: EngineView, now: int) -> int {
    if v.elapsed(now) <= v.total {
        v.elapsed(now)
    } else {
        v.total
    }
}

/// `s` is what the engine shows at reading `now`.
pub open spec fn shows(s: TimerSnapshot, v: EngineView, now: int) -> bool {
    &&& s.phase == v.phase
    &&& s.elapsed@ == v.elapsed(now)
    &&& s.total@ == v.total
    &&& s.remaining@ == v.remaining(now)
    &&& s.cycle == v.cycle
    &&& s.cycle_target == v.cycle_target()
    &&& s.running == v.running()
    &&& s.label@ == v.label()
}

/// `k` full Pomodoro rounds (a phase and the one after it, skipped) from `v`.
pub open spec fn skip_rounds(v: EngineView, k: nat) -> EngineView
    decreases k,
{
    if k == 0 {
        v
    } else {
        skip_rounds(v, (k - 1) as nat).skip().skip()
    }
}

/// Pausing a running engine and starting it again brings back the phase it was in;
/// the time counted so far is kept and the clock runs from the new reading.
pub proof fn lemma_pause_then_start_keeps_phase(v: EngineView, t1: int, t2: int, wall: Timestamp)
    requires
        v.wf(),
        v.running(),
    ensures
        v.pause(t1).phase == Phase::Paused,
        !v.pause(t1).running(),
        v.pause(t1).start(t2, wall).phase == v.phase,
        v.pause(t1).start(t2, wall).started_at == Some(t2),
        v.pause(t1).start(t2, wall).accumulated == v.elapsed(t1),
        v.pause(t1).start(t2, wall).cycle == v.cycle,
        v.pause(t1).start(t2, wall).total == v.total,
{
}

/// Toggling a stopped engine starts it; toggling it again pauses it.
pub proof fn lemma_toggle_twice(v: EngineView, t1: int, t2: int, wall: Timestamp)
    requires
        v.wf(),
        !v.running(),
    ensures
        v.toggle(t1, wall) == v.start(t1, wall),
        v.toggle(t1, wall).running(),
        v.toggle(t1, wall).toggle(t2, wall) == v.start(t1, wall).pause(t2),
        !v.toggle(t1, wall).toggle(t2, wall).running(),
{
}

/// Removing a minute undoes adding one.
pub proof fn lemma_remove_minute_undoes_add(v: EngineView)
    requires
        v.wf(),
    ensures
        v.add_minute().remove_minute() == v,
{
}

/// Every operation keeps the engine's invariant.
pub proof fn lemma_operations_keep_invariant(v: EngineView, now: int, wall: Timestamp)
    requires
        v.wf(),
        wall.wf(),
        0 <= now <= u128::MAX,
    ensures
        v.reset(wall).wf(),
        v.start(now, wall).wf(),
        v.elapsed_fits(now) ==> v.pause(now).wf(),
        v.total + NANOS_PER_MINUTE <= MAX_SPAN_NANOS ==> v.add_minute().wf(),
        v.remove_minute().wf(),
        v.can_skip() ==> v.skip().wf(),
        v.tick_ok(now, wall) ==> v.tick(now, wall).wf(),
{
    assert(initial_total(v.mode, wall) <= MAX_SPAN_NANOS) by {
        match v.mode {
            ModeView::EventCountdown(_, at) => {
                assert(event_left_secs(at, wall) <= u64::MAX) by {
                    let d = at.nanos_since(wall);
                    if d > 0 {
                        assert(d / 1_000_000_000 <= d) by (nonlinear_arith)
                            requires
                                d > 0,
                        ;
                    }
                }
            },
            _ => {},
        }
    }
    assert(v.refresh(wall).wf()) by {
        match v.mode {
            ModeView::EventCountdown(_, at) => {
                let d = at.nanos_since(wall);
                if d > 0 {
                    assert(d / 1_000_000_000 <= d) by (nonlinear_arith)
                        requires
                            d > 0,
                    ;
                }
            },
            _ => {},
        }
    }
}

/// Reset brings back the first focus session: resetting twice is resetting once, and a
/// fresh engine is unchanged by a reset at the same wall-clock reading.
pub proof fn lemma_reset(v: EngineView, wall: Timestamp)
    requires
        v.wf(),
    ensures
        v.reset(wall).reset(wall) == v.reset(wall),
        v.reset(wall) == fresh(v.mode, initial_total(v.mode, wall)),
        fresh(v.mode, initial_total(v.mode, wall)).reset(wall) == fresh(
            v.mode,
            initial_total(v.mode, wall),
        ),
{
}

/// In a Pomodoro cycle a focus session is followed by the long break exactly when its
/// cycle number is a multiple of `long_break_every`, and by the short break otherwise;
/// a break is followed by the next cycle's focus session. A paused session counts as the
/// session it was paused in. Each session gets its length from the profile and starts
/// stopped.
pub proof fn lemma_pomodoro_step(v: EngineView, p: Profile)
    requires
        v.wf(),
        v.mode == ModeView::Pomodoro(p),
        v.can_skip(),
    ensures
        v.current_phase() == Phase::Focus ==> (v.skip().phase == Phase::LongBreak
            <==> multiple_of(v.cycle, p.long_break_every as int)),
        v.current_phase() == Phase::Focus ==> v.skip().cycle == v.cycle,
        v.current_phase() == Phase::Focus ==> v.skip().phase == Phase::ShortBreak
            || v.skip().phase == Phase::LongBreak,
        v.current_phase() != Phase::Focus ==> v.skip().phase == Phase::Focus
            && v.skip().cycle == v.cycle + 1,
        v.skip().total == minutes_of(p, v.skip().phase) * 60 * 1_000_000_000,
        !v.skip().running(),
        v.skip().accumulated == 0,
{
}

/// From the first focus session of a Pomodoro engine, `k` rounds of focus and break lead
/// to the focus session of cycle `k + 1`.
pub proof fn lemma_pomodoro_rounds(p: Profile, k: nat)
    requires
        focus_fits(p),
        p.short_break_minutes * 60 <= u64::MAX,
        p.long_break_minutes * 60 <= u64::MAX,
        k + 1 <= u32::MAX,
    ensures
        skip_rounds(fresh(ModeView::Pomodoro(p), p.focus_minutes * 60 * 1_000_000_000), k).phase
            == Phase::Focus,
        skip_rounds(fresh(ModeView::Pomodoro(p), p.focus_minutes * 60 * 1_000_000_000), k).cycle
            == k + 1,
        skip_rounds(fresh(ModeView::Pomodoro(p), p.focus_minutes * 60 * 1_000_000_000), k).mode
            == ModeView::Pomodoro(p),
        skip_rounds(fresh(ModeView::Pomodoro(p), p.focus_minutes * 60 * 1_000_000_000), k).wf(),
    decreases k,
{
    let f = fresh(ModeView::Pomodoro(p), p.focus_minutes * 60 * 1_000_000_000);
    if k > 0 {
        lemma_pomodoro_rounds(p, (k - 1) as nat);
        let w = skip_rounds(f, (k - 1) as nat);
        assert(w.can_skip());
        let w1 = w.skip();
        assert(w1.phase != Phase::Focus);
        assert(w1.can_skip());
    }
}

/// A tick skips the phase exactly when it reports that the phase ran out; a stopwatch
/// never runs out, an event countdown runs out exactly when it runs and the event's time
/// has come, and a stopped engine is only refreshed.
pub proof fn lemma_tick(v: EngineView, now: int, wall: Timestamp)
    requires
        v.wf(),
    ensures
        v.tick_fires(now, wall) ==> v.tick(now, wall) == v.refresh(wall).skip(),
        !v.tick_fires(now, wall) ==> v.tick(now, wall) == v.refresh(wall),
        v.mode is Stopwatch ==> !v.tick_fires(now, wall),
        v.mode matches ModeView::EventCountdown(_, at) ==> (v.tick_fires(now, wall) <==> v.running()
            && at.nanos_since(wall) <= 0),
        !v.running() ==> v.tick(now, wall) == v.refresh(wall),
{
}

/// For a Pomodoro session or a countdown, the remaining and the elapsed time add up to
/// the total until the total is reached, and the remaining time is zero after it.
pub proof fn lemma_remaining(v: EngineView, now: int)
    requires
        v.wf(),
        v.counts_length(),
    ensures
        v.elapsed(now) <= v.total ==> v.remaining(now) + v.elapsed(now) == v.total,
        v.elapsed(now) > v.total ==> v.remaining(now) == 0,
        v.remaining(now) <= v.total,
{
}

/// The time run is what was counted before the last pause plus the time since the last
/// start: an engine started at `t0`, paused at `t1` and started again at `t2` has run
/// `(t1 - t0) + (t3 - t2)` at `t3`.
pub proof fn lemma_elapsed_across_pause(v: EngineView, t0: int, t1: int, t2: int, t3: int, wall: Timestamp)
    requires
        v.wf(),
        !v.running(),
        v.accumulated == 0,
        t0 <= t1 <= t2 <= t3,
    ensures
        v.start(t0, wall).elapsed(t1) == t1 - t0,
        v.start(t0, wall).pause(t1).start(t2, wall).elapsed(t3) == (t1 - t0) + (t3 - t2),
        v.start(t0, wall).pause(t1).start(t2, wall).pause(t3).accumulated == (t1 - t0) + (t3
            - t2),
{
}

/// A running Pomodoro session ends once the time run in it (before the last pause and
/// since the last start) reaches its length, whichever session it is: a focus session
/// is followed by a break of the same cycle (the long one exactly when the cycle is a
/// multiple of `long_break_every`), a break by the focus session of the next cycle, each
/// with its length from the profile and the clock stopped.
pub proof fn lemma_pomodoro_session_ends(v: EngineView, p: Profile, now: int, wall: Timestamp)
    requires
        v.wf(),
        v.mode == ModeView::Pomodoro(p),
        v.started_at is Some,
        now >= v.started_at->0,
        v.accumulated + (now - v.started_at->0) >= v.total,
    ensures
        v.tick_fires(now, wall),
        !v.tick(now, wall).running(),
        v.tick(now, wall).accumulated == 0,
        v.phase == Phase::Focus ==> {
            &&& v.tick(now, wall).cycle == v.cycle
            &&& (v.tick(now, wall).phase == Phase::LongBreak <==> p.long_break_every > 0
                && v.cycle % (p.long_break_every as int) == 0)
            &&& (v.tick(now, wall).phase == Phase::ShortBreak <==> !(p.long_break_every > 0
                && v.cycle % (p.long_break_every as int) == 0))
            &&& v.tick(now, wall).phase == Phase::LongBreak ==> v.tick(now, wall).total
                == p.long_break_minutes * 60 * 1_000_000_000
            &&& v.tick(now, wall).phase == Phase::ShortBreak ==> v.tick(now, wall).total
                == p.short_break_minutes * 60 * 1_000_000_000
        },
        v.phase == Phase::ShortBreak || v.phase == Phase::LongBreak ==> {
            &&& v.tick(now, wall).phase == Phase::Focus
            &&& v.tick(now, wall).cycle == v.cycle + 1
            &&& v.tick(now, wall).total == p.focus_minutes * 60 * 1_000_000_000
        },
{
}

/// An event countdown shows, at the wall clock's reading, the whole seconds left until
/// the event, and none once the event has come.
pub proof fn lemma_event_remaining(v: EngineView, now: int, wall: Timestamp)
    requires
        v.wf(),
        v.mode is EventCountdown,
    ensures
        v.mode matches ModeView::EventCountdown(_, at) && v.refresh(wall).remaining(now)
            == event_left_secs(at, wall) * 1_000_000_000,
        v.mode matches ModeView::EventCountdown(_, at) && (at.nanos_since(wall) <= 0
            ==> v.refresh(wall).remaining(now) == 0),
{
}

/// Skipping a Pomodoro session after pausing it is skipping it without the pause: the
/// pause does not lose the break that follows a focus session.
pub proof fn lemma_skip_after_pause(v: EngineView, p: Profile, now: int)
    requires
        v.wf(),
        v.mode == ModeView::Pomodoro(p),
        v.running(),
    ensures
        v.pause(now).skip() == v.skip(),
        v.pause(now).current_phase() == v.phase,
{
}

/// Whole seconds until the event, or zero once it has passed.
pub fn event_seconds_left(at: &Timestamp, wall: &Timestamp) -> (r: u64)
    requires
        at.wf(),
        wall.wf(),
    ensures
        r == event_left_secs(*at, *wall),
{
    let d: i128 = (at.secs as i128 - wall.secs as i128) * 1_000_000_000 + (at.nanos as i128
        - wall.nanos as i128);
    if d > 0 {
        let q: i128 = d / 1_000_000_000;
        assert(q <= d / 1_000_000_000);
        (q as u64)
    } else {
        0
    }
}

fn initial_total_at(mode: &TimerMode, wall: &Timestamp) -> (r: u128)
    requires
        mode_ok(mode@),
        wall.wf(),
    ensures
        r == initial_total(mode@, *wall),
        r <= MAX_SPAN_NANOS,
{
    match mode {
        TimerMode::Pomodoro { profile } => (profile.focus_minutes * 60) as u128 * 1_000_000_000,
        TimerMode::Countdown { seconds } => *seconds as u128 * 1_000_000_000,
        TimerMode::Stopwatch => NANOS_PER_DAY,
        TimerMode::EventCountdown { at, .. } => event_seconds_left(at, wall) as u128
            * 1_000_000_000,
    }
}

pub struct TimerEngine {
    mode: TimerMode,
    phase: Phase,
    cycle: u32,
    started_at: Option<u128>,
    accumulated: u128,
    current_total: u128,
    previous_phase: Phase,
    anchor: std::time::Instant,
}

impl View for TimerEngine {
    type V = EngineView;

    closed spec fn view(&self) -> EngineView {
        EngineView {
            mode: self.mode@,
            phase: self.phase,
            cycle: self.cycle as int,
            started_at: match self.started_at {
                Some(s) => Some(s as int),
                None => None,
            },
            accumulated: self.accumulated as int,
            total: self.current_total as int,
            previous_phase: self.previous_phase,
        }
    }
}

impl TimerEngine {
    pub open spec fn wf(&self) -> bool {
        self@.wf()
    }

    /// A Pomodoro engine in its first focus session, stopped.
    pub fn pomodoro(profile: Profile) -> (r: Self)
        requires
            focus_fits(profile),
        ensures
            r.wf(),
            r@ == fresh(
                ModeView::Pomodoro(profile),
                profile.focus_minutes * 60 * 1_000_000_000,
            ),
    {
        let total: u128 = (profile.focus_minutes * 60) as u128 * 1_000_000_000;
        TimerEngine {
            mode: TimerMode::Pomodoro { profile },
            phase: Phase::Focus,
            cycle: 1,
            started_at: None,
            accumulated: 0,
            current_total: total,
            previous_phase: Phase::Focus,
            anchor: instant_now(),
        }
    }

    /// An engine for `mode`, with `wall` as the wall clock's reading.
    pub fn new_at(mode: TimerMode, wall: Timestamp) -> (r: Self)
        requires
            mode_ok(mode@),
            wall.wf(),
        ensures
            r.wf(),
            r@ == fresh(mode@, initial_total(mode@, wall)),
    {
        let total = initial_total_at(&mode, &wall);
        TimerEngine {
            mode,
            phase: Phase::Focus,
            cycle: 1,
            started_at: None,
            accumulated: 0,
            current_total: total,
            previous_phase: Phase::Focus,
            anchor: instant_now(),
        }
    }

    /// An engine for `mode`; an event countdown measures from the wall clock's time now.
    pub fn new(mode: TimerMode) -> (r: Self)
        requires
            mode_ok(mode@),
        ensures
            r.wf(),
            exists|wall: Timestamp| wall.wf() && r@ == fresh(mode@, initial_total(mode@, wall)),
    {
        let wall = local_now();
        Self::new_at(mode, wall)
    }

    /// Back to the first focus session, stopped, with `wall` as the wall clock's reading.
    pub fn reset_at(&mut self, wall: Timestamp)
        requires
            old(self).wf(),
            wall.wf(),
        ensures
            final(self).wf(),
            final(self)@ == old(self)@.reset(wall),
    {
        let total = initial_total_at(&self.mode, &wall);
        self.phase = Phase::Focus;
        self.cycle = 1;
        self.started_at = None;
        self.accumulated = 0;
        self.current_total = total;
        self.previous_phase = Phase::Focus;
    }

    /// Back to the first focus session, stopped.
    pub fn reset(&mut self)
        requires
            old(self).wf(),
        ensures
            final(self).wf(),
            exists|wall: Timestamp| wall.wf() && final(self)@ == old(self)@.reset(wall),
    {
        let wall = local_now();
        self.reset_at(wall);
    }

    /// Starts or resumes the clock at reading `now`; a finished engine starts over.
    pub fn start_at(&mut self, now: u128, wall: Timestamp)
        requires
            old(self).wf(),
            wall.wf(),
        ensures
            final(self).wf(),
            final(self)@ == old(self)@.start(now as int, wall),
    {
        if self.phase == Phase::Finished {
            self.reset_at(wall);
        }
        if self.started_at.is_none() {
            self.started_at = Some(now);
            if self.phase == Phase::Paused {
                self.phase = self.previous_phase;
            }
        }
    }

    /// Starts or resumes the clock now; a finished engine starts over.
    pub fn start(&mut self)
        requires
            old(self).wf(),
        ensures
            final(self).wf(),
            exists|now: int, wall: Timestamp|
                0 <= now <= MAX_SPAN_NANOS && wall.wf() && final(self)@ == old(self)@.start(
                    now,
                    wall,
                ),
    {
        let now = self.reading();
        let wall = local_now();
        self.start_at(now, wall);
    }

    fn elapsed_at(&self, now: u128) -> (r: u128)
        requires
            self.wf(),
            self@.elapsed_fits(now as int),
        ensures
            r == self@.elapsed(now as int),
    {
        let run: u128 = match self.started_at {
            Some(s) => now.saturating_sub(s),
            None => 0,
        };
        self.accumulated + run
    }

    /// Stops the clock at reading `now`, keeping the time counted, and shows the pause.
    pub fn pause_at(&mut self, now: u128)
        requires
            old(self).wf(),
            old(self)@.running() ==> old(self)@.elapsed_fits(now as int),
        ensures
            final(self).wf(),
            final(self)@ == old(self)@.pause(now as int),
    {
        if self.started_at.is_some() {
            let e = self.elapsed_at(now);
            self.accumulated = e;
            self.started_at = None;
            self.previous_phase = self.phase;
            self.phase = Phase::Paused;
        }
    }

    /// Pauses the clock. Where the elapsed time would not fit in a span the engine is
    /// left as it was; that cannot happen while nothing is accumulated from before an
    /// earlier pause.
    pub fn pause(&mut self)
        requires
            old(self).wf(),
        ensures
            final(self).wf(),
            exists|now: int|
                {
                    &&& 0 <= now <= MAX_SPAN_NANOS
                    &&& (old(self)@.accumulated == 0 ==> final(self)@ == old(self)@.pause(now))
                    &&& {
                        ||| old(self)@.elapsed_fits(now) && final(self)@ == old(self)@.pause(now)
                        ||| !old(self)@.elapsed_fits(now) && final(self)@ == old(self)@
                    }
                },
    {
        let now = self.reading();
        if self.fits_at(now) {
            self.pause_at(now);
        }
    }

    /// Tests whether the elapsed time at reading `now` fits in a span.
    pub fn fits_at(&self, now: u128) -> (r: bool)
        requires
            self.wf(),
        ensures
            r == self@.elapsed_fits(now as int),
    {
        let run: u128 = match self.started_at {
            Some(s) => now.saturating_sub(s),
            None => 0,
        };
        run <= MAX_SPAN_NANOS - self.accumulated
    }

    /// Pauses a running engine and starts a stopped one, at reading `now`.
    pub fn toggle_at(&mut self, now: u128, wall: Timestamp)
        requires
            old(self).wf(),
            wall.wf(),
            old(self)@.running() ==> old(self)@.elapsed_fits(now as int),
        ensures
            final(self).wf(),
            final(self)@ == old(self)@.toggle(now as int, wall),
    {
        if self.started_at.is_some() {
            self.pause_at(now);
        } else {
            self.start_at(now, wall);
        }
    }

    /// Pauses a running engine and starts a stopped one. Where a pause would not fit,
    /// the engine is left as it was.
    pub fn toggle(&mut self)
        requires
            old(self).wf(),
        ensures
            final(self).wf(),
            exists|now: int, wall: Timestamp|
                {
                    &&& 0 <= now <= MAX_SPAN_NANOS
                    &&& wall.wf()
                    &&& (old(self)@.accumulated == 0 ==> final(self)@ == old(self)@.toggle(
                        now,
                        wall,
                    ))
                    &&& {
                        ||| !(old(self)@.running() && !old(self)@.elapsed_fits(now))
                            && final(self)@ == old(self)@.toggle(now, wall)
                        ||| old(self)@.running() && !old(self)@.elapsed_fits(now)
                            && final(self)@ == old(self)@
                    }
                },
    {
        let now = self.reading();
        let wall = local_now();
        let blocked = self.started_at.is_some() && !self.fits_at(now);
        if !blocked {
            self.toggle_at(now, wall);
            assert(!(old(self)@.running() && !old(self)@.elapsed_fits(now as int)));
            assert(self@ == old(self)@.toggle(now as int, wall));
        } else {
            assert(self@ == old(self)@);
        }
        assert(wall.wf());
    }

    /// Adds a minute to the current session.
    pub fn add_minute(&mut self)
        requires
            old(self).wf(),
            old(self)@.total + NANOS_PER_MINUTE <= MAX_SPAN_NANOS,
        ensures
            final(self).wf(),
            final(self)@ == old(self)@.add_minute(),
    {
        self.current_total = self.current_total + NANOS_PER_MINUTE;
    }

    /// Tests whether a minute can be added without leaving the span's range.
    pub fn has_room_for_minute(&self) -> (r: bool)
        requires
            self.wf(),
        ensures
            r == (self@.total + NANOS_PER_MINUTE <= MAX_SPAN_NANOS),
    {
        self.current_total <= MAX_SPAN_NANOS - NANOS_PER_MINUTE
    }

    /// Takes a minute off the current session, down to zero.
    pub fn remove_minute(&mut self)
        requires
            old(self).wf(),
        ensures
            final(self).wf(),
            final(self)@ == old(self)@.remove_minute(),
    {
        self.current_total = self.current_total.saturating_sub(NANOS_PER_MINUTE);
    }

    fn advance_pomodoro(&mut self, profile: Profile)
        requires
            old(self).wf(),
            old(self)@.mode == ModeView::Pomodoro(profile),
            old(self)@.can_skip(),
        ensures
            final(self).wf(),
            final(self)@ == old(self)@.advance(profile),
    {
        self.started_at = None;
        self.accumulated = 0;
        let current = if self.phase == Phase::Paused {
            self.previous_phase
        } else {
            self.phase
        };
        let next = match current {
            Phase::Focus => if self.cycle.is_multiple_of(profile.long_break_every) {
                Phase::LongBreak
            } else {
                Phase::ShortBreak
            },
            _ => {
                self.cycle = self.cycle + 1;
                Phase::Focus
            },
        };
        self.phase = next;
        self.previous_phase = next;
        let minutes: u64 = match next {
            Phase::Focus => profile.focus_minutes,
            Phase::ShortBreak => profile.short_break_minutes,
            Phase::LongBreak => profile.long_break_minutes,
            _ => 0,
        };
        self.current_total = (minutes * 60) as u128 * 1_000_000_000;
    }

    /// Ends the current phase: a Pomodoro moves to its next phase, other modes finish.
    pub fn skip(&mut self)
        requires
            old(self).wf(),
            old(self)@.can_skip(),
        ensures
            final(self).wf(),
            final(self)@ == old(self)@.skip(),
    {
        let profile: Option<Profile> = match &self.mode {
            TimerMode::Pomodoro { profile } => Some(*profile),
            _ => None,
        };
        match profile {
            Some(p) => self.advance_pomodoro(p),
            None => {
                self.phase = Phase::Finished;
                self.started_at = None;
            },
        }
    }

    /// Tests whether skipping the current phase stays within the machine's integers.
    pub fn skip_ok(&self) -> (r: bool)
        requires
            self.wf(),
        ensures
            r == self@.can_skip(),
    {
        match &self.mode {
            TimerMode::Pomodoro { profile } => {
                let current = if self.phase == Phase::Paused {
                    self.previous_phase
                } else {
                    self.phase
                };
                let next = if current == Phase::Focus {
                    if self.cycle.is_multiple_of(profile.long_break_every) {
                        Phase::LongBreak
                    } else {
                        Phase::ShortBreak
                    }
                } else {
                    Phase::Focus
                };
                let minutes: u64 = match next {
                    Phase::Focus => profile.focus_minutes,
                    Phase::ShortBreak => profile.short_break_minutes,
                    Phase::LongBreak => profile.long_break_minutes,
                    _ => 0,
                };
                minutes <= u64::MAX / 60 && (current == Phase::Focus || self.cycle < u32::MAX)
            },
            _ => true,
        }
    }

    fn refresh_at(&mut self, wall: &Timestamp)
        requires
            old(self).wf(),
            wall.wf(),
        ensures
            final(self).wf(),
            final(self)@ == old(self)@.refresh(*wall),
    {
        let left: Option<u64> = match &self.mode {
            TimerMode::EventCountdown { at, .. } => Some(event_seconds_left(at, wall)),
            _ => None,
        };
        if let Some(secs) = left {
            self.current_total = secs as u128 * 1_000_000_000;
        }
    }

    /// Advances the engine to the readings `now` and `wall`: returns whether the phase
    /// ran out and was skipped.
    pub fn tick_at(&mut self, now: u128, wall: Timestamp) -> (r: bool)
        requires
            old(self).wf(),
            wall.wf(),
            old(self)@.tick_ok(now as int, wall),
        ensures
            final(self).wf(),
            final(self)@ == old(self)@.tick(now as int, wall),
            r == old(self)@.tick_fires(now as int, wall),
    {
        self.refresh_at(&wall);
        if self.started_at.is_none() {
            return false;
        }
        let fires = match &self.mode {
            TimerMode::Stopwatch => false,
            TimerMode::EventCountdown { at, .. } => event_reached(at, &wall),
            _ => self.elapsed_at(now) >= self.current_total,
        };
        if fires {
            self.skip();
        }
        fires
    }

    /// Tests whether a tick at these readings stays within the machine's integers.
    pub fn tick_ok_at(&self, now: u128, wall: Timestamp) -> (r: bool)
        requires
            self.wf(),
            wall.wf(),
        ensures
            r == self@.tick_ok(now as int, wall),
    {
        if self.started_at.is_none() {
            return true;
        }
        match &self.mode {
            TimerMode::Stopwatch => true,
            TimerMode::EventCountdown { at, .. } => if event_reached(at, &wall) {
                self.skip_ok()
            } else {
                true
            },
            _ => if !self.fits_at(now) {
                false
            } else if self.elapsed_at(now) >= self.current_total {
                self.skip_ok()
            } else {
                true
            },
        }
    }

    /// Advances the engine to the clocks' time now. Where the tick would leave the
    /// machine's integers the engine is left as it was and `false` comes back; that
    /// cannot happen while nothing is accumulated from before a pause and the skip fits.
    pub fn tick(&mut self) -> (r: bool)
        requires
            old(self).wf(),
        ensures
            final(self).wf(),
            exists|now: int, wall: Timestamp|
                {
                    &&& 0 <= now <= MAX_SPAN_NANOS
                    &&& wall.wf()
                    &&& (old(self)@.accumulated == 0 && old(self)@.can_skip() ==> old(
                        self,
                    )@.tick_ok(now, wall))
                    &&& {
                        ||| old(self)@.tick_ok(now, wall) && final(self)@ == old(
                            self,
                        )@.tick(now, wall) && r == old(self)@.tick_fires(now, wall)
                        ||| !old(self)@.tick_ok(now, wall) && final(self)@ == old(self)@
                            && !r
                    }
                },
    {
        let now = self.reading();
        let wall = local_now();
        if !self.tick_ok_at(now, wall) {
            return false;
        }
        self.tick_at(now, wall)
    }

    fn label_string(&self) -> (r: String)
        ensures
            r@ == self@.label(),
    {
        match &self.mode {
            TimerMode::Pomodoro { .. } => String::from_str("Pomodoro"),
            TimerMode::Countdown { .. } => String::from_str("Countdown"),
            TimerMode::Stopwatch => String::from_str("Stopwatch"),
            TimerMode::EventCountdown { name, .. } => name.clone(),
        }
    }

    /// What the engine shows at reading `now`, with the wall clock at `wall` (which an
    /// event countdown counts to).
    pub fn snapshot_at(&self, now: u128, wall: Timestamp) -> (r: TimerSnapshot)
        requires
            self.wf(),
            wall.wf(),
            self@.elapsed_fits(now as int),
        ensures
            shows(r, self@.refresh(wall), now as int),
    {
        let elapsed = self.elapsed_at(now);
        let total: u128 = match &self.mode {
            TimerMode::EventCountdown { at, .. } => event_seconds_left(at, &wall) as u128
                * 1_000_000_000,
            _ => self.current_total,
        };
        let remaining = match &self.mode {
            TimerMode::Stopwatch => elapsed,
            TimerMode::EventCountdown { .. } => total,
            _ => total.saturating_sub(elapsed),
        };
        let cycle_target: u32 = match &self.mode {
            TimerMode::Pomodoro { profile } => profile.long_break_every,
            _ => 1,
        };
        TimerSnapshot {
            phase: self.phase,
            remaining: TimeSpan::from_nanos(remaining),
            elapsed: TimeSpan::from_nanos(elapsed),
            total: TimeSpan::from_nanos(total),
            cycle: self.cycle,
            cycle_target,
            running: self.started_at.is_some(),
            label: self.label_string(),
        }
    }

    /// What the engine shows now; `None` where the elapsed time would not fit in a span,
    /// which cannot happen while nothing is accumulated from before a pause.
    pub fn snapshot(&self) -> (r: Option<TimerSnapshot>)
        requires
            self.wf(),
        ensures
            exists|now: int, wall: Timestamp|
                {
                    &&& 0 <= now <= MAX_SPAN_NANOS
                    &&& wall.wf()
                    &&& (r is Some <==> self@.elapsed_fits(now))
                    &&& (r matches Some(s) ==> shows(s, self@.refresh(wall), now))
                    &&& (self@.accumulated == 0 ==> r is Some)
                },
    {
        let now = self.reading();
        let wall = local_now();
        if self.fits_at(now) {
            Some(self.snapshot_at(now, wall))
        } else {
            None
        }
    }

    /// The monotonic clock's reading now, in nanoseconds since the engine was made.
    pub fn reading(&self) -> (r: u128)
        ensures
            r <= MAX_SPAN_NANOS,
    {
        nanos_since(&self.anchor)
    }

    /// The phase the engine is in at reading `now` (with the wall clock at `wall`), its
    /// length, and the time run in it, at most its length.
    pub fn progress_at(&self, now: u128, wall: Timestamp) -> (r: (Phase, TimeSpan, TimeSpan))
        requires
            self.wf(),
            wall.wf(),
        ensures
            r.0 == self@.phase,
            r.1@ == self@.refresh(wall).total,
            r.2@ == run_capped(self@.refresh(wall), now as int),
    {
        let total: u128 = match &self.mode {
            TimerMode::EventCountdown { at, .. } => event_seconds_left(at, &wall) as u128
                * 1_000_000_000,
            _ => self.current_total,
        };
        let run: u128 = match self.started_at {
            Some(s) => now.saturating_sub(s),
            None => 0,
        };
        let capped: u128 = if self.accumulated >= total {
            total
        } else if run >= total - self.accumulated {
            total
        } else {
            self.accumulated + run
        };
        (self.phase, TimeSpan::from_nanos(total), TimeSpan::from_nanos(capped))
    }
}

/// Whether the event's time has come at the wall clock's reading `wall`.
fn event_reached(at: &Timestamp, wall: &Timestamp) -> (r: bool)
    requires
        at.wf(),
        wall.wf(),
    ensures
        r == (at.nanos_since(*wall) <= 0),
{
    let d: i128 = (at.secs as i128 - wall.secs as i128) * 1_000_000_000 + (at.nanos as i128
        - wall.nanos as i128);
    d <= 0
}

} // verus!
