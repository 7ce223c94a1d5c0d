//! What the screen shows, as text: the clock, the progress bar, the status line, the
//! garden and the mascot, and the click zones of the tab bar.
use vstd::prelude::*;

use crate::cli::lemma_decimal_digits;
use crate::text::{
    decimal, decimal_string, digit_char, digits_value, is_digit, pad_left, push_char, push_repeated,
    push_str,
};
use crate::timer::{TimerSnapshot, TimeSpan};
use crate::ui::{MouseAction, Rect, Tab};

verus! {

/// `n` as at least two digits, zero-padded (as `{:02}` writes it).
pub open spec fn two_digits(n: nat) -> Seq<char> {
    pad_left(decimal(n), 2, '0')
}

/// `n` as at least two digits, zero-padded.
fn two_digit_string(n: u64) -> (r: String)
    ensures
        r@ == two_digits(n as nat),
{
    let d = decimal_string(n);
    if n < 10 {
        let mut s = String::new();
        push_char(&mut s, '0');
        push_str(&mut s, d.as_str());
        assert(s@ =~= two_digits(n as nat));
        s
    } else {
        proof {
            lemma_decimal_len_two(n as nat);
        }
        d
    }
}

proof fn lemma_decimal_len_two(n: nat)
    requires
        n >= 10,
    ensures
        decimal(n).len() >= 2,
{
    assert(decimal(n) == decimal(n / 10).push(crate::text::digit_char((n % 10) as int)));
    assert(decimal(n / 10).len() >= 1) by {
        lemma_decimal_nonempty(n / 10);
    }
}

proof fn lemma_decimal_nonempty(n: nat)
    ensures
        decimal(n).len() >= 1,
    decreases n,
{
    if n >= 10 {
        lemma_decimal_nonempty(n / 10);
    }
}

/// A span as minutes and seconds, `MM:SS`; the minutes take more digits where needed.
pub open spec fn clock_text(secs: nat) -> Seq<char> {
    two_digits(secs / 60) + ":"@ + two_digits(secs % 60)
}

proof fn lemma_zero_prefix(d: Seq<char>)
    ensures
        digits_value(seq!['0'] + d) == digits_value(d),
    decreases d.len(),
{
    if d.len() == 0 {
        let z = seq!['0'];
        assert(z.drop_last() =~= Seq::<char>::empty());
        assert(seq!['0'] + d =~= z);
        assert(z.last() == '0');
        assert('0' as u32 == 48);
        assert(digits_value(z) == digits_value(z.drop_last()) * 10 + (z.last() as u32 - 48) as nat);
    } else {
        lemma_zero_prefix(d.drop_last());
        assert((seq!['0'] + d).drop_last() =~= seq!['0'] + d.drop_last());
        assert((seq!['0'] + d).last() == d.last());
    }
}

proof fn lemma_two_digits(n: nat)
    ensures
        two_digits(n).len() >= 2,
        n < 100 ==> two_digits(n).len() == 2,
        forall|i: int| 0 <= i < two_digits(n).len() ==> is_digit(#[trigger] two_digits(n)[i]),
        digits_value(two_digits(n)) == n,
{
    lemma_decimal_digits(n);
    let d = decimal(n);
    if d.len() < 2 {
        let z = Seq::new((2 - d.len()) as nat, |i: int| '0');
        assert(z =~= seq!['0']);
        lemma_zero_prefix(d);
        assert(two_digits(n) == seq!['0'] + d);
        assert forall|i: int| 0 <= i < two_digits(n).len() implies is_digit(#[trigger] two_digits(n)[i]) by {
            if i > 0 {
                assert(two_digits(n)[i] == d[i - 1]);
            }
        }
    } else if n < 100 {
        assert(n >= 10) by {
            if n < 10 {
                assert(d.len() == 1);
            }
        }
        assert(decimal(n) == decimal(n / 10).push(digit_char((n % 10) as int)));
        assert(decimal(n / 10).len() == 1);
    }
}

/// The clock text reads back as the span: minutes (at least two digits), a colon, and
/// two digits of seconds under sixty, worth the whole seconds of the span in all.
pub proof fn lemma_clock_text_reads_back(secs: nat)
    ensures
        clock_text(secs).len() >= 5,
        clock_text(secs)[clock_text(secs).len() - 3] == ':',
        forall|i: int|
            0 <= i < clock_text(secs).len() && i != clock_text(secs).len() - 3 ==> is_digit(
                #[trigger] clock_text(secs)[i],
            ),
        digits_value(clock_text(secs).skip(clock_text(secs).len() - 2)) < 60,
        digits_value(clock_text(secs).take(clock_text(secs).len() - 3)) * 60 + digits_value(
            clock_text(secs).skip(clock_text(secs).len() - 2),
        ) == secs,
{
    let m = two_digits(secs / 60);
    let r = two_digits(secs % 60);
    lemma_two_digits(secs / 60);
    lemma_two_digits(secs % 60);
    let t = clock_text(secs);
    reveal_strlit(":");
    assert(":"@ =~= seq![':']);
    assert(t == m + seq![':'] + r);
    assert(t.len() == m.len() + 3);
    assert(t.take(t.len() - 3) =~= m);
    assert(t.skip(t.len() - 2) =~= r);
    assert forall|i: int| 0 <= i < t.len() && i != t.len() - 3 implies is_digit(#[trigger] t[i]) by {
        if i < m.len() {
            assert(t[i] == m[i]);
        } else {
            assert(t[i] == r[i - m.len() - 1]);
        }
    }
    assert((secs / 60) * 60 + secs % 60 == secs) by (nonlinear_arith);
}

/// A span as minutes and seconds, `MM:SS`.
pub fn format_duration(duration: TimeSpan) -> (r: String)
    ensures
        r@ == clock_text((duration@ / 1_000_000_000) as nat),
{
    let seconds = duration.as_secs();
    let minutes = seconds / 60;
    let mut s = two_digit_string(minutes);
    push_str(&mut s, ":");
    let rest = two_digit_string(seconds % 60);
    push_str(&mut s, rest.as_str());
    s
}

/// The cell that fills a progress bar: a shaded one on the first two of every four
/// frames of an animated bar, a full block otherwise.
pub open spec fn pulse(frame: u64, animated: bool) -> char {
    if animated && frame % 4 < 2 {
        '\u{2593}'
    } else {
        '\u{2588}'
    }
}

/// A progress bar of `width` cells, the first `full` of them filled.
pub open spec fn bar(full: nat, width: nat, frame: u64, animated: bool) -> Seq<char> {
    Seq::new(width, |i: int| if i < full { pulse(frame, animated) } else { '\u{2591}' })
}

/// A progress bar of `width` cells, the first `full` of them filled.
pub fn progress_cells(full: usize, width: usize, frame: u64, animated: bool) -> (r: String)
    ensures
        r@ == bar(full as nat, width as nat, frame, animated),
{
    let p = if animated && frame % 4 < 2 {
        '\u{2593}'
    } else {
        '\u{2588}'
    };
    let mut s = String::new();
    let mut index: usize = 0;
    while index < width
        invariant
            index <= width,
            p == pulse(frame, animated),
            s@ == bar(full as nat, index as nat, frame, animated),
        decreases width - index,
    {
        push_char(&mut s, if index < full { p } else { '\u{2591}' });
        assert(s@ =~= bar(full as nat, (index + 1) as nat, frame, animated));
        index = index + 1;
    }
    s
}

/// The focus garden: a plant that grows with the cycle, full grown from the fifth.
pub open spec fn garden_text(cycle: u32) -> Seq<char> {
    if cycle <= 1 {
        "."@
    } else if cycle == 2 {
        "|\n|"@
    } else if cycle == 3 {
        "\\|/\n |"@
    } else if cycle == 4 {
        "\\|/\n\\|/"@
    } else {
        "\\|/\n\\|/_"@
    }
}

/// The focus garden for a cycle.
pub fn garden(cycle: u32) -> (r: &'static str)
    ensures
        r@ == garden_text(cycle),
{
    let stage = if cycle < 5 {
        cycle
    } else {
        5
    };
    if stage <= 1 {
        "."
    } else if stage == 2 {
        "|\n|"
    } else if stage == 3 {
        "\\|/\n |"
    } else if stage == 4 {
        "\\|/\n\\|/"
    } else {
        "\\|/\n\\|/_"
    }
}

/// The mascot for a phase label: focused, asleep when paused, cheerful on a break.
pub open spec fn mascot_text(label: Seq<char>) -> Seq<char> {
    if label == "Focus"@ {
        "  _____\n / ___ \\\n| |   | |  focus\n \\_____/ "@
    } else if label == "Paused"@ {
        "  _____\n / - - \\\n|  zZ  |  paused\n \\_____/ "@
    } else {
        "  _____\n / o o \\\n|  v   |  break\n \\_____/ "@
    }
}

/// The mascot for a phase label.
pub fn mascot(label: &str) -> (r: &'static str)
    ensures
        r@ == mascot_text(label@),
{
    if crate::text::str_eq(label, "Focus") {
        "  _____\n / ___ \\\n| |   | |  focus\n \\_____/ "
    } else if crate::text::str_eq(label, "Paused") {
        "  _____\n / - - \\\n|  zZ  |  paused\n \\_____/ "
    } else {
        "  _____\n / o o \\\n|  v   |  break\n \\_____/ "
    }
}

/// The status line under the clock.
pub open spec fn status_text(s: TimerSnapshot, theme: Seq<char>, font: Seq<char>) -> Seq<char> {
    (if s.running {
        "Running"@
    } else {
        "Ready"@
    }) + " | cycle "@ + decimal(s.cycle as nat) + " / "@ + decimal(s.cycle_target as nat)
        + " | "@ + s.phase.label_text() + " | theme "@ + theme + " | font "@ + font
}

/// The status line under the clock.
pub fn status_line(snapshot: &TimerSnapshot, theme: &str, font: &str) -> (r: String)
    ensures
        r@ == status_text(*snapshot, theme@, font@),
{
    let mut s = if snapshot.running {
        String::from_str("Running")
    } else {
        String::from_str("Ready")
    };
    push_str(&mut s, " | cycle ");
    push_str(&mut s, decimal_string(snapshot.cycle as u64).as_str());
    push_str(&mut s, " / ");
    push_str(&mut s, decimal_string(snapshot.cycle_target as u64).as_str());
    push_str(&mut s, " | ");
    push_str(&mut s, snapshot.phase.label());
    push_str(&mut s, " | theme ");
    push_str(&mut s, theme);
    push_str(&mut s, " | font ");
    push_str(&mut s, font);
    s
}

/// The click zones of the tab bar: four equal quarters of `area` for the timer, stats,
/// tasks and settings tabs.
pub open spec fn header_zone_list(area: Rect) -> Seq<(Rect, MouseAction)> {
    let w = (area.width / 4) as u16;
    seq![
        (Rect { x: area.x, y: area.y, width: w, height: area.height }, MouseAction::Tab(Tab::Timer)),
        (Rect { x: (area.x + w) as u16, y: area.y, width: w, height: area.height }, MouseAction::Tab(Tab::Stats)),
        (Rect { x: (area.x + w * 2) as u16, y: area.y, width: w, height: area.height }, MouseAction::Tab(Tab::Tasks)),
        (Rect { x: (area.x + w * 3) as u16, y: area.y, width: w, height: area.height }, MouseAction::Tab(Tab::Settings)),
    ]
}

/// The click zones of the tab bar.
pub fn header_zones(area: Rect) -> (r: Vec<(Rect, MouseAction)>)
    requires
        area.x + (area.width / 4) * 3 <= u16::MAX,
    ensures
        r@ == header_zone_list(area),
{
    let w: u16 = area.width / 4;
    let mut v: Vec<(Rect, MouseAction)> = Vec::new();
    v.push((Rect { x: area.x, y: area.y, width: w, height: area.height }, MouseAction::Tab(Tab::Timer)));
    v.push((Rect { x: area.x + w, y: area.y, width: w, height: area.height }, MouseAction::Tab(Tab::Stats)));
    v.push((Rect { x: area.x + w * 2, y: area.y, width: w, height: area.height }, MouseAction::Tab(Tab::Tasks)));
    v.push((Rect { x: area.x + w * 3, y: area.y, width: w, height: area.height }, MouseAction::Tab(Tab::Settings)));
    assert(v@ =~= header_zone_list(area));
    v
}

/// The buttons of the footer, in order: their labels and the actions a click on them
/// asks for.
pub open spec fn footer_button_list() -> Seq<(Seq<char>, MouseAction)> {
    seq![
        ("Start"@, MouseAction::Start),
        ("Pause"@, MouseAction::Pause),
        ("Reset"@, MouseAction::Reset),
        ("Skip"@, MouseAction::Skip),
        ("Theme"@, MouseAction::Theme),
        ("Help"@, MouseAction::Help),
    ]
}

/// The buttons of the footer, in order.
pub fn footer_buttons() -> (r: Vec<(&'static str, MouseAction)>)
    ensures
        r@.len() == 6,
        forall|k: int| 0 <= k < 6 ==> (#[trigger] r@[k]).0@ == footer_button_list()[k].0 && r@[k].1
            == footer_button_list()[k].1,
{
    let mut v: Vec<(&'static str, MouseAction)> = Vec::new();
    v.push(("Start", MouseAction::Start));
    v.push(("Pause", MouseAction::Pause));
    v.push(("Reset", MouseAction::Reset));
    v.push(("Skip", MouseAction::Skip));
    v.push(("Theme", MouseAction::Theme));
    v.push(("Help", MouseAction::Help));
    proof {
        reveal_strlit("Start");
        reveal_strlit("Pause");
        reveal_strlit("Reset");
        reveal_strlit("Skip");
        reveal_strlit("Theme");
        reveal_strlit("Help");
    }
    v
}

} // verus!
