//! Command-line values: the commands, and the durations and event times they take.
use vstd::prelude::*;
use vstd::string::StringSliceAdditionalSpecFns;
use vstd::utf8::{char_is_scalar, encode_scalar};

use crate::config::Config;
use crate::time::Timestamp;
use crate::text::{
    byte_len, char_width, chars_of, decimal, digit_char, digits_value, is_digit, is_white_space,
    lemma_byte_len_empty, lemma_byte_len_take, parse_u64, parse_unsigned, trim, trim_chars,
    trim_end, trim_start, unsigned_digits,
};

verus! {

/// Why a duration was refused.
#[derive(Clone, Copy, Debug, PartialEq, Eq, Structural)]
pub enum DurationError {
    /// What comes before the unit is not a number.
    NotANumber,
    /// The last character is not `s`, `m` or `h`.
    BadUnit,
}

impl DurationError {
    pub open spec fn message_text(self) -> Seq<char> {
        match self {
            DurationError::NotANumber => "duration must start with a number"@,
            DurationError::BadUnit => "duration must end in s, m, or h"@,
        }
    }

    /// The error as text.
    pub fn message(&self) -> (r: &'static str)
        ensures
            r@ == self.message_text(),
    {
        match self {
            DurationError::NotANumber => "duration must start with a number",
            DurationError::BadUnit => "duration must end in s, m, or h",
        }
    }
}

/// The byte at which a duration's text is split into number and unit: one byte before
/// the end of the untrimmed text.
pub open spec fn unit_byte(v: Seq<char>) -> int {
    if byte_len(v) > 0 {
        byte_len(v) - 1
    } else {
        0
    }
}

/// The trimmed text can be split at that byte (it falls on a character boundary).
pub open spec fn duration_splits(v: Seq<char>) -> bool {
    exists|j: int| 0 <= j <= trim(v).len() && #[trigger] byte_len(trim(v).take(j)) == unit_byte(v)
}

/// The character index of the split.
pub open spec fn split_index(v: Seq<char>) -> int {
    choose|j: int| 0 <= j <= trim(v).len() && #[trigger] byte_len(trim(v).take(j)) == unit_byte(v)
}

/// The seconds that a duration's text stands for, or why it is refused.
pub open spec fn duration_value(v: Seq<char>) -> Result<nat, DurationError> {
    let t = trim(v);
    let j = split_index(v);
    let number = t.take(j);
    let unit = t.skip(j);
    match parse_unsigned(number, u64::MAX as nat) {
        None => Err(DurationError::NotANumber),
        Some(a) => if unit == seq!['s'] {
            Ok(a)
        } else if unit == seq!['m'] {
            Ok(a * 60)
        } else if unit == seq!['h'] {
            Ok(a * 3600)
        } else {
            Err(DurationError::BadUnit)
        },
    }
}

/// A duration's text that is parsed without overflow.
pub open spec fn duration_defined(v: Seq<char>) -> bool {
    &&& duration_splits(v)
    &&& (duration_value(v) matches Ok(x) ==> x <= u64::MAX)
}

/// Bytes that UTF-8 takes for `c`.
pub fn char_len_utf8(c: char) -> (r: usize)
    ensures
        r == char_width(c),
        1 <= r <= 4,
{
    proof {
        char_is_scalar(c);
    }
    let u = c as u32;
    if u <= 0x7F {
        1
    } else if u <= 0x7FF {
        2
    } else if u <= 0xFFFF {
        3
    } else {
        4
    }
}

/// Finds the character index of the split, if the byte falls on a boundary.
fn find_split(t: &Vec<char>, k: usize) -> (r: Option<usize>)
    ensures
        r matches Some(j) ==> j <= t@.len() && byte_len(t@.take(j as int)) == k,
        r is None ==> !(exists|j: int| 0 <= j <= t@.len() && #[trigger] byte_len(t@.take(j)) == k),
{
    let mut acc: usize = 0;
    let mut j: usize = 0;
    proof {
        assert(t@.take(0) =~= Seq::<char>::empty());
        assert(byte_len(Seq::<char>::empty()) == 0) by {
            reveal_with_fuel(vstd::utf8::encode_utf8, 1);
        }
    }
    while acc < k && j < t.len()
        invariant
            j <= t@.len(),
            acc == byte_len(t@.take(j as int)),
            acc <= k,
            forall|i: int| 0 <= i < j ==> #[trigger] byte_len(t@.take(i)) < acc,
        decreases t@.len() - j,
    {
        let w = char_len_utf8(t[j]);
        proof {
            lemma_byte_len_take(t@, j as int);
        }
        if w > k - acc {
            proof {
                assert forall|i: int| 0 <= i <= t@.len() implies #[trigger] byte_len(t@.take(i))
                    != k by {
                    if i > j + 1 {
                        lemma_byte_len_strict(t@, j as int + 1, i);
                    }
                }
            }
            return None;
        }
        acc = acc + w;
        j = j + 1;
    }
    if acc == k {
        Some(j)
    } else {
        proof {
            assert forall|i: int| 0 <= i <= t@.len() implies #[trigger] byte_len(t@.take(i)) != k by {
                if i > j {
                    lemma_byte_len_strict(t@, j as int, i);
                }
            }
        }
        None
    }
}

/// Longer prefixes take more bytes.
proof fn lemma_byte_len_strict(s: Seq<char>, a: int, b: int)
    requires
        0 <= a < b <= s.len(),
    ensures
        byte_len(s.take(a)) < byte_len(s.take(b)),
    decreases b - a,
{
    lemma_byte_len_take(s, b - 1);
    if a < b - 1 {
        lemma_byte_len_strict(s, a, b - 1);
    }
}

/// Tests whether `parse_duration` is defined on `value` (it splits, and does not overflow).
pub fn duration_ok(value: &str) -> (r: bool)
    requires
        byte_len(value@) <= usize::MAX,
    ensures
        r == duration_defined(value@),
{
    match duration_parts(value) {
        None => false,
        Some((number, unit)) => match parse_u64(number.as_slice()) {
            None => true,
            Some(amount) => {
                if unit.len() == 1 && unit[0] == 'm' {
                    assert(unit@ =~= seq!['m']);
                    assert(unit@ != seq!['s']);
                    amount <= u64::MAX / 60
                } else if unit.len() == 1 && unit[0] == 'h' {
                    assert(unit@ =~= seq!['h']);
                    assert(unit@ != seq!['s'] && unit@ != seq!['m']);
                    amount <= u64::MAX / 3600
                } else {
                    assert(unit@ != seq!['m'] && unit@ != seq!['h']) by {
                        if unit@.len() == 1 {
                            assert(unit@[0] == unit[0]);
                        }
                    }
                    true
                }
            },
        },
    }
}

/// Splits the trimmed text into number and unit, where the split falls on a boundary.
fn duration_parts(value: &str) -> (r: Option<(Vec<char>, Vec<char>)>)
    requires
        byte_len(value@) <= usize::MAX,
    ensures
        r is Some <==> duration_splits(value@),
        r matches Some((n, u)) ==> n@ == trim(value@).take(split_index(value@)) && u@ == trim(
            value@,
        ).skip(split_index(value@)),
{
    let chars = chars_of(value);
    let t = trim_chars(chars.as_slice());
    let k = value.len().saturating_sub(1);
    proof {
        assert(value.spec_bytes() == vstd::utf8::encode_utf8(value@));
        assert(unit_byte(value@) == k);
        assert(t@ == trim(value@));
    }
    match find_split(&t, k) {
        None => None,
        Some(j) => {
            proof {
                let jj = split_index(value@);
                assert(0 <= jj <= t@.len() && byte_len(t@.take(jj)) == k);
                if jj < j {
                    lemma_byte_len_strict(t@, jj, j as int);
                }
                if j < jj {
                    lemma_byte_len_strict(t@, j as int, jj);
                }
            }
            let mut number: Vec<char> = Vec::new();
            let mut unit: Vec<char> = Vec::new();
            let mut i: usize = 0;
            while i < t.len()
                invariant
                    j <= t@.len(),
                    i <= t@.len(),
                    i <= j ==> number@ == t@.take(i as int) && unit@.len() == 0,
                    i > j ==> number@ == t@.take(j as int) && unit@ == t@.subrange(
                        j as int,
                        i as int,
                    ),
                decreases t@.len() - i,
            {
                if i < j {
                    number.push(t[i]);
                    assert(t@.take(i + 1) =~= t@.take(i as int).push(t@[i as int]));
                } else {
                    unit.push(t[i]);
                    assert(t@.subrange(j as int, i + 1) =~= t@.subrange(j as int, i as int).push(
                        t@[i as int],
                    ));
                }
                i = i + 1;
            }
            proof {
                if t@.len() <= j {
                    assert(t@.subrange(j as int, t@.len() as int) =~= Seq::<char>::empty());
                }
                assert(t@.skip(j as int) =~= t@.subrange(j as int, t@.len() as int));
                assert(t@.take(t@.len() as int) =~= t@);
            }
            Some((number, unit))
        },
    }
}

/// Reads a duration such as `90s`, `10m` or `2h` as seconds.
pub fn parse_duration(value: &str) -> (r: Result<u64, DurationError>)
    requires
        byte_len(value@) <= usize::MAX,
        duration_defined(value@),
    ensures
        r matches Ok(x) ==> duration_value(value@) == Ok::<nat, DurationError>(x as nat),
        r matches Err(e) ==> duration_value(value@) == Err::<nat, DurationError>(e),
{
    let parts = duration_parts(value);
    let (number, unit) = match parts {
        Some(p) => p,
        None => {
            return Err(DurationError::BadUnit);
        },
    };
    let amount = match parse_u64(number.as_slice()) {
        Some(a) => a,
        None => {
            return Err(DurationError::NotANumber);
        },
    };
    if unit.len() == 1 && unit[0] == 's' {
        assert(unit@ =~= seq!['s']);
        Ok(amount)
    } else if unit.len() == 1 && unit[0] == 'm' {
        assert(unit@ =~= seq!['m']);
        Ok(amount * 60)
    } else if unit.len() == 1 && unit[0] == 'h' {
        assert(unit@ =~= seq!['h']);
        Ok(amount * 60 * 60)
    } else {
        assert(unit@ != seq!['s'] && unit@ != seq!['m'] && unit@ != seq!['h']) by {
            if unit@.len() == 1 {
                assert(unit@[0] == unit[0]);
            }
        }
        Err(DurationError::BadUnit)
    }
}

/// The seconds in one of the units `s`, `m` and `h`.
pub open spec fn unit_seconds(unit: char) -> nat {
    if unit == 's' {
        1
    } else if unit == 'm' {
        60
    } else {
        3600
    }
}

/// The numeral of `n` is a nonempty run of digits worth `n`.
pub proof fn lemma_decimal_digits(n: nat)
    ensures
        decimal(n).len() >= 1,
        forall|i: int| 0 <= i < decimal(n).len() ==> is_digit(#[trigger] decimal(n)[i]),
        digits_value(decimal(n)) == n,
    decreases n,
{
    if n < 10 {
        assert(digit_char(n as int) as u32 == n + 48);
        assert(decimal(n) =~= seq![digit_char(n as int)]);
        assert(decimal(n).drop_last() =~= Seq::<char>::empty());
        assert(digits_value(decimal(n)) == digits_value(decimal(n).drop_last()) * 10 + (
        decimal(n).last() as u32 - 48) as nat);
        assert(digits_value(Seq::<char>::empty()) == 0);
    } else {
        lemma_decimal_digits(n / 10);
        assert(digit_char((n % 10) as int) as u32 == n % 10 + 48);
        let d = decimal(n / 10);
        assert(decimal(n) == d.push(digit_char((n % 10) as int)));
        assert(decimal(n).drop_last() =~= d);
        assert(forall|i: int| 0 <= i < d.len() ==> decimal(n)[i] == d[i]);
        assert(digits_value(decimal(n)) == digits_value(d) * 10 + (decimal(n).last() as u32
            - 48) as nat);
        assert(decimal(n).last() == digit_char((n % 10) as int));
        assert((n / 10) * 10 + n % 10 == n) by (nonlinear_arith);
    }
}

proof fn lemma_ascii_take(s: Seq<char>, j: int)
    requires
        0 <= j <= s.len(),
        forall|i: int| 0 <= i < s.len() ==> (#[trigger] s[i] as u32) < 0x80,
    ensures
        byte_len(s.take(j)) == j,
    decreases j,
{
    if j == 0 {
        assert(s.take(0) =~= Seq::<char>::empty());
        lemma_byte_len_empty();
    } else {
        lemma_ascii_take(s, j - 1);
        lemma_byte_len_take(s, j - 1);
        char_is_scalar(s[j - 1]);
        assert(encode_scalar(s[j - 1] as u32).len() == 1);
    }
}

/// A duration written as a decimal number followed by `s`, `m` or `h` is split between
/// the number and the unit, and stands for that many seconds, minutes or hours, in
/// seconds; a number too large for a `u64` is refused as not a number.
pub proof fn lemma_duration_of_number_and_unit(n: nat, unit: char)
    requires
        unit == 's' || unit == 'm' || unit == 'h',
    ensures
        duration_splits(decimal(n).push(unit)),
        duration_value(decimal(n).push(unit)) == (if n <= u64::MAX {
            Ok::<nat, DurationError>(n * unit_seconds(unit))
        } else {
            Err::<nat, DurationError>(DurationError::NotANumber)
        }),
        duration_defined(decimal(n).push(unit)) <==> (n <= u64::MAX ==> n * unit_seconds(unit)
            <= u64::MAX),
{
    let d = decimal(n);
    let v = d.push(unit);
    lemma_decimal_digits(n);
    assert(forall|i: int| 0 <= i < v.len() ==> (#[trigger] v[i] as u32) < 0x80) by {
        assert forall|i: int| 0 <= i < v.len() implies (#[trigger] v[i] as u32) < 0x80 by {
            if i < d.len() {
                assert(v[i] == d[i]);
                assert(is_digit(d[i]));
            }
        }
    }
    assert(!is_white_space(v[0])) by {
        assert(v[0] == d[0]);
        assert(is_digit(d[0]));
    }
    assert(trim_start(v) == v);
    assert(trim_end(v) == v);
    assert(trim(v) == v);
    lemma_ascii_take(v, v.len() as int);
    assert(v.take(v.len() as int) =~= v);
    assert(unit_byte(v) == d.len());
    lemma_ascii_take(v, d.len() as int);
    assert(byte_len(trim(v).take(d.len() as int)) == unit_byte(v));
    let j = split_index(v);
    assert(0 <= j <= v.len() && byte_len(v.take(j)) == unit_byte(v));
    lemma_ascii_take(v, j);
    assert(j == d.len());
    assert(v.take(j) =~= d);
    assert(v.skip(j) =~= seq![unit]);
    assert(unsigned_digits(d) == d) by {
        assert(is_digit(d[0]));
    }
    assert(parse_unsigned(d, u64::MAX as nat) == (if n <= u64::MAX {
        Some(n)
    } else {
        None::<nat>
    }));
    let u = seq![unit];
    assert(trim(v).take(split_index(v)) == d);
    assert(trim(v).skip(split_index(v)) == u);
    if unit == 's' {
        assert(u =~= seq!['s']);
    } else if unit == 'm' {
        assert(u =~= seq!['m']);
        assert(u[0] != seq!['s'][0]);
        assert(u != seq!['s']);
    } else {
        assert(u =~= seq!['h']);
        assert(u[0] != seq!['s'][0]);
        assert(u[0] != seq!['m'][0]);
        assert(u != seq!['s']);
        assert(u != seq!['m']);
    }
    let f = unit_seconds(unit);
    if unit == 's' {
        assert(n * f == n) by (nonlinear_arith)
            requires
                f == 1,
        ;
    } else if unit == 'm' {
        assert(n * f == n * 60) by (nonlinear_arith)
            requires
                f == 60,
        ;
    } else {
        assert(n * f == n * 3600) by (nonlinear_arith)
            requires
                f == 3600,
        ;
    }
}

/// The local wall-clock reading that a text `%Y-%m-%d %H:%M` names, as chrono reads it,
/// in seconds from 1970-01-01 00:00 (local); none where chrono refuses the text.
pub uninterp spec fn event_local_secs(value: Seq<char>) -> Option<i64>;

/// Calls `chrono::NaiveDateTime::parse_from_str` with the format `%Y-%m-%d %H:%M` and
/// gives the reading as seconds (`and_utc().timestamp()`). What it reads is named, not
/// stated.
#[verifier::external_body]
fn parse_event_local(value: &str) -> (r: Option<i64>)
    ensures
        r == event_local_secs(value@),
{
    match chrono::NaiveDateTime::parse_from_str(value, "%Y-%m-%d %H:%M") {
        Ok(n) => Some(n.and_utc().timestamp()),
        Err(_) => None,
    }
}

/// Calls `chrono::Local.from_local_datetime(..).single()` on the local reading
/// `local_secs` (whole seconds): the moment that the reading names, where the time
/// zone maps it to exactly one moment. Which moment, and whether there is one, depend
/// on the machine's time zone and are not promised. Of a moment that comes back chrono
/// shows: its UTC seconds plus its offset give back the reading (`checked_sub_offset`
/// takes the offset off), its nanoseconds stay zero, it lies in chrono's calendar
/// range, and its offset is a `FixedOffset`, under a day.
#[verifier::external_body]
fn local_moment(local_secs: i64) -> (r: Option<Timestamp>)
    ensures
        r matches Some(t) ==> t.wf() && t.nanos == 0 && t.secs + t.offset == local_secs,
{
    let naive = chrono::DateTime::from_timestamp(local_secs, 0)?.naive_utc();
    let dt = chrono::TimeZone::from_local_datetime(&chrono::Local, &naive).single()?;
    Some(Timestamp {
        secs: dt.timestamp(),
        nanos: dt.timestamp_subsec_nanos(),
        offset: chrono::Offset::fix(dt.offset()).local_minus_utc(),
    })
}

/// Why an event time was refused.
#[derive(Clone, Copy, Debug, PartialEq, Eq, Structural)]
pub enum EventTimeError {
    /// The text is not in the form `YYYY-MM-DD HH:MM`.
    BadFormat,
    /// The local time zone maps the time to no moment or to two.
    Ambiguous,
}

impl EventTimeError {
    /// The error as text.
    pub fn message(&self) -> (r: &'static str)
        ensures
            *self == EventTimeError::BadFormat ==> r@ == "expected date format YYYY-MM-DD HH:MM"@,
            *self == EventTimeError::Ambiguous ==> r@
                == "event time is ambiguous in the local timezone"@,
    {
        match self {
            EventTimeError::BadFormat => "expected date format YYYY-MM-DD HH:MM",
            EventTimeError::Ambiguous => "event time is ambiguous in the local timezone",
        }
    }
}

/// Reads an event time `YYYY-MM-DD HH:MM` in the local time zone: the moment whose
/// local wall-clock reading is the time written. A text that is not such a time is
/// refused as badly formatted; a time that the local zone skips or repeats is refused
/// as ambiguous.
pub fn parse_event_time(value: &str) -> (r: Result<Timestamp, EventTimeError>)
    ensures
        r == Err::<Timestamp, EventTimeError>(EventTimeError::BadFormat) <==> event_local_secs(
            value@,
        ) is None,
        r matches Ok(t) ==> t.wf() && t.nanos == 0 && t.secs + t.offset == event_local_secs(
            value@,
        )->0,
{
    let local_secs = match parse_event_local(value) {
        Some(n) => n,
        None => {
            return Err(EventTimeError::BadFormat);
        },
    };
    match local_moment(local_secs) {
        Some(t) => Ok(t),
        None => Err(EventTimeError::Ambiguous),
    }
}

/// The command line's options and command.
#[derive(Debug)]
pub struct Cli {
    pub profile: Option<String>,
    pub task: Option<String>,
    pub font: Option<String>,
    pub no_animations: bool,
    pub command: Option<Command>,
}

#[derive(Debug)]
pub enum Command {
    Start { profile: Option<String>, task: Option<String> },
    Tui,
    Countdown { duration: String },
    Stopwatch,
    Event { name: String, at: String },
    Stats(StatsCommand),
    Config(ConfigCommand),
    Themes(ThemesCommand),
    Task(TaskCommand),
    Note(NoteCommand),
    Notify { test: bool },
    Sound(SoundCommand),
}

#[derive(Debug)]
pub struct StatsCommand {
    pub today: bool,
    pub week: bool,
    pub json: bool,
}

#[derive(Debug)]
pub enum ConfigCommand {
    Path,
    Open,
    Reset,
    Get { key: String },
    SetKey { key: String, value: String },
}

#[derive(Debug)]
pub enum ThemesCommand {
    List,
    Preview { name: String },
    SetTheme { name: String },
}

#[derive(Debug)]
pub enum TaskCommand {
    Add { title: String, tag: Option<String> },
    List,
    Complete { title: String },
    Delete { title: String },
}

#[derive(Debug)]
pub enum NoteCommand {
    Add { body: String },
    List,
    Complete { id: u64 },
    Edit { id: u64, body: String },
    Delete { id: u64 },
}

#[derive(Debug)]
pub enum SoundCommand {
    Test,
}

/// Applies the global options to the configuration: a font given on the command line
/// replaces the configured one, and `--no-animations` turns animations off.
pub fn apply_overrides(config: &mut Config, font: Option<String>, no_animations: bool)
    ensures
        final(config).visuals.font@ == match font {
            Some(f) => f@,
            None => old(config).visuals.font@,
        },
        final(config).visuals.animations == (old(config).visuals.animations && !no_animations),
        final(config).visuals.theme == old(config).visuals.theme,
        final(config).visuals.animation_speed == old(config).visuals.animation_speed,
        final(config).visuals.ambient_background == old(config).visuals.ambient_background,
        final(config).visuals.mascot == old(config).visuals.mascot,
        final(config).app == old(config).app,
        final(config).timer == old(config).timer,
        final(config).input == old(config).input,
        final(config).notifications == old(config).notifications,
        final(config).storage == old(config).storage,
        final(config).hooks == old(config).hooks,
        final(config).profiles == old(config).profiles,
{
    match font {
        Some(f) => config.visuals.font = f,
        None => {},
    }
    if no_animations {
        config.visuals.animations = false;
    }
}

} // verus!
