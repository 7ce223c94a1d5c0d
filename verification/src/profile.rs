//! Session lengths of a Pomodoro profile.
use vstd::prelude::*;

verus! {

/// How long focus sessions and breaks last, and how often the long break comes.
#[derive(Clone, Copy, Debug, PartialEq, Eq, Structural)]
pub struct Profile {
    pub focus_minutes: u64,
    pub short_break_minutes: u64,
    pub long_break_minutes: u64,
    pub long_break_every: u32,
}

/// A profile of the given numbers.
pub open spec fn profile_of(focus: u64, short: u64, long: u64, every: u32) -> Profile {
    Profile {
        focus_minutes: focus,
        short_break_minutes: short,
        long_break_minutes: long,
        long_break_every: every,
    }
}

impl Default for Profile {
    /// 25/5/15, long break every 4 focus sessions.
    fn default() -> (p: Self)
        ensures
            p == profile_of(25, 5, 15, 4),
    {
        Profile {
            focus_minutes: 25,
            short_break_minutes: 5,
            long_break_minutes: 15,
            long_break_every: 4,
        }
    }
}

impl Profile {
    /// 50/10/25, long break every 3 focus sessions.
    pub fn deep_work() -> (p: Self)
        ensures
            p == profile_of(50, 10, 25, 3),
    {
        Profile {
            focus_minutes: 50,
            short_break_minutes: 10,
            long_break_minutes: 25,
            long_break_every: 3,
        }
    }

    /// 10/2/8, long break every 5 focus sessions.
    pub fn micro() -> (p: Self)
        ensures
            p == profile_of(10, 2, 8, 5),
    {
        Profile {
            focus_minutes: 10,
            short_break_minutes: 2,
            long_break_minutes: 8,
            long_break_every: 5,
        }
    }
}

} // verus!
