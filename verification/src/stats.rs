//! Statistics over the recorded sessions: today's pomodoros, the daily streak, the best
//! hour, the most frequent task, minutes per tag and the last seven days.
use vstd::prelude::*;

use crate::clock::local_now;
use crate::session::SessionRecord;
use crate::table::NameTable;
use crate::text::{
    decimal, decimal_string, pad_left, pad_right, push_repeated, push_str,
    lemma_lex_asymmetric, lemma_lex_irreflexive, lemma_lex_total, lemma_lex_transitive, lex_lt,
    str_eq, str_lt,
};
use crate::time::{Timestamp, MIN_UNIX_DAY};

verus! {

/// One of the last seven days: its date (days since 1970-01-01), its weekday's short
/// name, and the sessions completed on it.
#[derive(Clone, Debug)]
pub struct DayStat {
    pub date: i64,
    pub label: String,
    pub count: usize,
}

#[derive(Clone, Debug)]
pub struct StatsSummary {
    pub pomodoros_today: usize,
    pub focus_minutes_today: u64,
    pub completed_sessions: usize,
    pub skipped_sessions: usize,
    pub streak_days: usize,
    pub best_hour: Option<u32>,
    pub most_frequent_task: Option<String>,
    pub by_tag: NameTable<u64>,
    pub last_7_days: Vec<DayStat>,
}

impl Default for StatsSummary {
    /// No sessions: every count zero, nothing best or frequent, no tags, no days.
    fn default() -> (s: Self)
        ensures
            s.pomodoros_today == 0,
            s.focus_minutes_today == 0,
            s.completed_sessions == 0,
            s.skipped_sessions == 0,
            s.streak_days == 0,
            s.best_hour is None,
            s.most_frequent_task is None,
            s.by_tag.wf(),
            s.by_tag@ == Map::<Seq<char>, u64>::empty(),
            s.last_7_days@.len() == 0,
    {
        StatsSummary {
            pomodoros_today: 0,
            focus_minutes_today: 0,
            completed_sessions: 0,
            skipped_sessions: 0,
            streak_days: 0,
            best_hour: None,
            most_frequent_task: None,
            by_tag: NameTable::new(),
            last_7_days: Vec::new(),
        }
    }
}

/// Whole minutes of a session.
pub open spec fn minutes(r: SessionRecord) -> nat {
    (r.actual_seconds / 60) as nat
}

/// A completed focus session that ended on day `today`.
pub open spec fn is_focus_on(r: SessionRecord, today: int) -> bool {
    &&& r.completed
    &&& r.ended_at.day() == today
    &&& r.session_type@ == "Focus"@
}

pub open spec fn completed_count(rs: Seq<SessionRecord>) -> nat
    decreases rs.len(),
{
    if rs.len() == 0 {
        0
    } else {
        completed_count(rs.drop_last()) + if rs.last().completed {
            1nat
        } else {
            0nat
        }
    }
}

pub open spec fn skipped_count(rs: Seq<SessionRecord>) -> nat
    decreases rs.len(),
{
    if rs.len() == 0 {
        0
    } else {
        skipped_count(rs.drop_last()) + if rs.last().completed {
            0nat
        } else {
            1nat
        }
    }
}

/// Completed focus sessions that ended on day `today`.
pub open spec fn focus_count(rs: Seq<SessionRecord>, today: int) -> nat
    decreases rs.len(),
{
    if rs.len() == 0 {
        0
    } else {
        focus_count(rs.drop_last(), today) + if is_focus_on(rs.last(), today) {
            1nat
        } else {
            0nat
        }
    }
}

/// Minutes of the completed focus sessions that ended on day `today`.
pub open spec fn focus_minutes(rs: Seq<SessionRecord>, today: int) -> nat
    decreases rs.len(),
{
    if rs.len() == 0 {
        0
    } else {
        focus_minutes(rs.drop_last(), today) + if is_focus_on(rs.last(), today) {
            minutes(rs.last())
        } else {
            0nat
        }
    }
}

/// Completed sessions that ended on day `d`.
pub open spec fn day_count(rs: Seq<SessionRecord>, d: int) -> nat
    decreases rs.len(),
{
    if rs.len() == 0 {
        0
    } else {
        day_count(rs.drop_last(), d) + if rs.last().completed && rs.last().ended_at.day() == d {
            1nat
        } else {
            0nat
        }
    }
}

/// Sessions that ended in hour `h` of a day.
pub open spec fn hour_count(rs: Seq<SessionRecord>, h: int) -> nat
    decreases rs.len(),
{
    if rs.len() == 0 {
        0
    } else {
        hour_count(rs.drop_last(), h) + if rs.last().ended_at.hour() == h {
            1nat
        } else {
            0nat
        }
    }
}

/// The record names task `t`.
pub open spec fn names_task(r: SessionRecord, t: Seq<char>) -> bool {
    r.task matches Some(x) && x@ == t
}

/// Sessions of task `t`.
pub open spec fn task_count(rs: Seq<SessionRecord>, t: Seq<char>) -> nat
    decreases rs.len(),
{
    if rs.len() == 0 {
        0
    } else {
        task_count(rs.drop_last(), t) + if names_task(rs.last(), t) {
            1nat
        } else {
            0nat
        }
    }
}

/// How often `t` stands among the tags.
pub open spec fn tag_occurrences(tags: Seq<String>, t: Seq<char>) -> nat
    decreases tags.len(),
{
    if tags.len() == 0 {
        0
    } else {
        tag_occurrences(tags.drop_last(), t) + if tags.last()@ == t {
            1nat
        } else {
            0nat
        }
    }
}

/// `m` for each time `t` stands among the tags.
pub open spec fn tag_weight(tags: Seq<String>, t: Seq<char>, m: nat) -> nat
    decreases tags.len(),
{
    if tags.len() == 0 {
        0
    } else {
        tag_weight(tags.drop_last(), t, m) + if tags.last()@ == t {
            m
        } else {
            0nat
        }
    }
}

/// Minutes given to tag `t`: each session counts once for each time it lists the tag.
pub open spec fn tag_minutes(rs: Seq<SessionRecord>, t: Seq<char>) -> nat
    decreases rs.len(),
{
    if rs.len() == 0 {
        0
    } else {
        tag_minutes(rs.drop_last(), t) + tag_weight(rs.last().tags@, t, minutes(rs.last()))
    }
}

/// How often the sessions list tag `t`, all together.
pub open spec fn tag_listings(rs: Seq<SessionRecord>, t: Seq<char>) -> nat
    decreases rs.len(),
{
    if rs.len() == 0 {
        0
    } else {
        tag_listings(rs.drop_last(), t) + tag_occurrences(rs.last().tags@, t)
    }
}

/// Some session lists tag `t`.
pub open spec fn has_tag(rs: Seq<SessionRecord>, t: Seq<char>) -> bool {
    tag_listings(rs, t) > 0
}

/// The days of the streak counted from offset `o` back from `today`: the first offset
/// without a completed session, or 365.
pub open spec fn streak_from(rs: Seq<SessionRecord>, today: int, o: int) -> int
    decreases 365 - o,
{
    if o >= 365 {
        365
    } else if day_count(rs, today - o) == 0 {
        o
    } else {
        streak_from(rs, today, o + 1)
    }
}

/// Consecutive days, ending today, with a completed session (at most 365).
pub open spec fn streak(rs: Seq<SessionRecord>, today: int) -> int {
    streak_from(rs, today, 0)
}

/// The short English name of the weekday of day `d` (1970-01-01 was a Thursday).
pub open spec fn weekday_name(d: int) -> Seq<char> {
    let w = (d + 3) % 7;
    if w == 0 {
        "Mon"@
    } else if w == 1 {
        "Tue"@
    } else if w == 2 {
        "Wed"@
    } else if w == 3 {
        "Thu"@
    } else if w == 4 {
        "Fri"@
    } else if w == 5 {
        "Sat"@
    } else {
        "Sun"@
    }
}

/// The records can be summarised on day `today` within the machine's integers and the
/// calendar's range.
pub open spec fn summary_defined(rs: Seq<SessionRecord>, today: int) -> bool {
    &&& forall|i: int| 0 <= i < rs.len() ==> (#[trigger] rs[i]).ended_at.wf()
    &&& focus_minutes(rs, today) <= u64::MAX
    &&& forall|t: Seq<char>| #[trigger] tag_minutes(rs, t) <= u64::MAX
    &&& today - 6 >= MIN_UNIX_DAY
    &&& today - (if streak(rs, today) < 364 {
        streak(rs, today)
    } else {
        364
    }) >= MIN_UNIX_DAY
    &&& today <= crate::time::MAX_UNIX_DAY + 1
}

/// `s` summarises the records `rs` on day `today`.
pub open spec fn summarises(s: StatsSummary, rs: Seq<SessionRecord>, today: int) -> bool {
    &&& s.completed_sessions == completed_count(rs)
    &&& s.skipped_sessions == skipped_count(rs)
    &&& s.pomodoros_today == focus_count(rs, today)
    &&& s.focus_minutes_today == focus_minutes(rs, today)
    &&& s.streak_days == streak(rs, today)
    &&& (s.best_hour is None <==> rs.len() == 0)
    &&& (s.best_hour matches Some(h) ==> {
        &&& h < 24
        &&& forall|g: int| 0 <= g < 24 ==> #[trigger] hour_count(rs, g) <= hour_count(rs, h as int)
        &&& forall|g: int| h < g < 24 ==> #[trigger] hour_count(rs, g) < hour_count(rs, h as int)
    })
    &&& (s.most_frequent_task is None <==> forall|i: int| 0 <= i < rs.len() ==> (#[trigger] rs[i]).task is None)
    &&& (s.most_frequent_task matches Some(t) ==> {
        &&& task_count(rs, t@) > 0
        &&& forall|u: Seq<char>| #[trigger] task_count(rs, u) <= task_count(rs, t@)
        &&& forall|u: Seq<char>|
            u != t@ && #[trigger] task_count(rs, u) == task_count(rs, t@) ==> lex_lt(u, t@)
    })
    &&& s.by_tag.wf()
    &&& (forall|t: Seq<char>| s.by_tag@.contains_key(t) <==> has_tag(rs, t))
    &&& (forall|t: Seq<char>| s.by_tag@.contains_key(t) ==> s.by_tag@[t] == tag_minutes(rs, t))
    &&& s.last_7_days@.len() == 7
    &&& forall|i: int|
        0 <= i < 7 ==> {
            &&& (#[trigger] s.last_7_days@[i]).date == today - (6 - i)
            &&& s.last_7_days@[i].count == day_count(rs, today - (6 - i))
            &&& s.last_7_days@[i].label@ == weekday_name(today - (6 - i))
        }
}

proof fn lemma_counts_le_len(rs: Seq<SessionRecord>, today: int)
    ensures
        completed_count(rs) <= rs.len(),
        skipped_count(rs) <= rs.len(),
        focus_count(rs, today) <= rs.len(),
        forall|d: int| #[trigger] day_count(rs, d) <= rs.len(),
        forall|h: int| #[trigger] hour_count(rs, h) <= rs.len(),
        forall|t: Seq<char>| #[trigger] task_count(rs, t) <= rs.len(),
    decreases rs.len(),
{
    if rs.len() > 0 {
        lemma_counts_le_len(rs.drop_last(), today);
        assert forall|d: int| #[trigger] day_count(rs, d) <= rs.len() by {
            assert(day_count(rs.drop_last(), d) <= rs.drop_last().len());
        }
        assert forall|h: int| #[trigger] hour_count(rs, h) <= rs.len() by {
            assert(hour_count(rs.drop_last(), h) <= rs.drop_last().len());
        }
        assert forall|t: Seq<char>| #[trigger] task_count(rs, t) <= rs.len() by {
            assert(task_count(rs.drop_last(), t) <= rs.drop_last().len());
        }
    }
}

proof fn lemma_prefix_minutes(rs: Seq<SessionRecord>, i: int, today: int, t: Seq<char>)
    requires
        0 <= i <= rs.len(),
    ensures
        focus_minutes(rs.take(i), today) <= focus_minutes(rs, today),
        tag_minutes(rs.take(i), t) <= tag_minutes(rs, t),
    decreases rs.len() - i,
{
    if i < rs.len() {
        lemma_prefix_minutes(rs.drop_last(), i, today, t);
        assert(rs.drop_last().take(i) =~= rs.take(i));
    } else {
        assert(rs.take(i) =~= rs);
    }
}

proof fn lemma_weight_prefix(tags: Seq<String>, j: int, t: Seq<char>, m: nat)
    requires
        0 <= j <= tags.len(),
    ensures
        tag_weight(tags.take(j), t, m) <= tag_weight(tags, t, m),
    decreases tags.len() - j,
{
    if j < tags.len() {
        lemma_weight_prefix(tags.drop_last(), j, t, m);
        assert(tags.drop_last().take(j) =~= tags.take(j));
    } else {
        assert(tags.take(j) =~= tags);
    }
}

proof fn lemma_weight_absent(tags: Seq<String>, t: Seq<char>, m: nat)
    requires
        tag_occurrences(tags, t) == 0,
    ensures
        tag_weight(tags, t, m) == 0,
    decreases tags.len(),
{
    if tags.len() > 0 {
        lemma_weight_absent(tags.drop_last(), t, m);
    }
}

proof fn lemma_hour_present(rs: Seq<SessionRecord>)
    requires
        rs.len() > 0,
    ensures
        hour_count(rs, rs.last().ended_at.hour()) > 0,
{
}

proof fn lemma_task_present(rs: Seq<SessionRecord>, i: int)
    requires
        0 <= i < rs.len(),
        rs[i].task is Some,
    ensures
        task_count(rs, rs[i].task->0@) > 0,
    decreases rs.len(),
{
    if i < rs.len() - 1 {
        lemma_task_present(rs.drop_last(), i);
    }
}

proof fn lemma_no_task(rs: Seq<SessionRecord>, t: Seq<char>)
    requires
        forall|i: int| 0 <= i < rs.len() ==> (#[trigger] rs[i]).task is None,
    ensures
        task_count(rs, t) == 0,
    decreases rs.len(),
{
    if rs.len() > 0 {
        assert forall|i: int| 0 <= i < rs.drop_last().len() implies (
        #[trigger] rs.drop_last()[i]).task is None by {
            assert(rs.drop_last()[i] == rs[i]);
        }
        lemma_no_task(rs.drop_last(), t);
        assert(rs[rs.len() - 1].task is None);
    }
}

proof fn lemma_streak_step(rs: Seq<SessionRecord>, today: int, o: int)
    requires
        0 <= o < 365,
        day_count(rs, today - o) > 0,
    ensures
        streak_from(rs, today, o) == streak_from(rs, today, o + 1),
{
}

/// The local day of a record's end.
fn record_day(r: &SessionRecord) -> (d: i64)
    requires
        r.ended_at.wf(),
    ensures
        d == r.ended_at.day(),
        crate::time::MIN_UNIX_DAY - 1 <= d <= crate::time::MAX_UNIX_DAY + 1,
{
    r.ended_at.local_day()
}

/// The short name of the weekday of day `d`.
pub fn weekday_label(d: i64) -> (r: String)
    requires
        MIN_UNIX_DAY - 400 <= d <= crate::time::MAX_UNIX_DAY + 400,
    ensures
        r@ == weekday_name(d as int),
{
    let m: i64 = (d + 3) % 7;
    let w: i64 = if m < 0 {
        m + 7
    } else {
        m
    };
    assert(w == (d + 3) % 7);
    if w == 0 {
        String::from_str("Mon")
    } else if w == 1 {
        String::from_str("Tue")
    } else if w == 2 {
        String::from_str("Wed")
    } else if w == 3 {
        String::from_str("Thu")
    } else if w == 4 {
        String::from_str("Fri")
    } else if w == 5 {
        String::from_str("Sat")
    } else {
        String::from_str("Sun")
    }
}

impl StatsSummary {
    /// Summarises the records as of day `today` (days since 1970-01-01, local time).
    pub fn from_sessions_on(records: &[SessionRecord], today: i64) -> (s: Self)
        requires
            summary_defined(records@, today as int),
        ensures
            summarises(s, records@, today as int),
    {
        let ghost rs = records@;
        let n = records.len();
        let mut completed: usize = 0;
        let mut skipped: usize = 0;
        let mut pomodoros: usize = 0;
        let mut focus_min: u64 = 0;
        let mut hours: Vec<usize> = Vec::new();
        let mut h: usize = 0;
        while h < 24
            invariant
                h <= 24,
                hours@.len() == h,
                forall|g: int| 0 <= g < h ==> hours@[g] == 0,
            decreases 24 - h,
        {
            hours.push(0);
            h = h + 1;
        }
        let mut window: Vec<usize> = Vec::new();
        let mut o: usize = 0;
        while o < 365
            invariant
                o <= 365,
                window@.len() == o,
                forall|g: int| 0 <= g < o ==> window@[g] == 0,
            decreases 365 - o,
        {
            window.push(0);
            o = o + 1;
        }
        let mut tasks: NameTable<usize> = NameTable::new();
        let mut tags: NameTable<u64> = NameTable::new();
        proof {
            assert(rs.take(0) =~= Seq::<SessionRecord>::empty());
            lemma_counts_le_len(rs, today as int);
        }
        let mut i: usize = 0;
        while i < n
            invariant
                n == rs.len(),
                rs == records@,
                summary_defined(rs, today as int),
                i <= n,
                completed == completed_count(rs.take(i as int)),
                skipped == skipped_count(rs.take(i as int)),
                pomodoros == focus_count(rs.take(i as int), today as int),
                focus_min == focus_minutes(rs.take(i as int), today as int),
                completed <= i,
                skipped <= i,
                pomodoros <= i,
                hours@.len() == 24,
                forall|g: int| 0 <= g < 24 ==> #[trigger] hours@[g] == hour_count(rs.take(i as int), g),
                forall|g: int| 0 <= g < 24 ==> #[trigger] hours@[g] <= i,
                window@.len() == 365,
                forall|g: int|
                    0 <= g < 365 ==> #[trigger] window@[g] == day_count(
                        rs.take(i as int),
                        today - g,
                    ),
                forall|g: int| 0 <= g < 365 ==> #[trigger] window@[g] <= i,
                tasks.wf(),
                forall|t: Seq<char>| tasks@.contains_key(t) <==> task_count(rs.take(i as int), t) > 0,
                forall|t: Seq<char>| tasks@.contains_key(t) ==> tasks@[t] == task_count(rs.take(i as int), t),
                forall|t: Seq<char>| tasks@.contains_key(t) ==> tasks@[t] <= i,
                tags.wf(),
                forall|t: Seq<char>| tags@.contains_key(t) <==> has_tag(rs.take(i as int), t),
                forall|t: Seq<char>|
                    tags@.contains_key(t) ==> tags@[t] == tag_minutes(rs.take(i as int), t),
            decreases n - i,
        {
            let r = &records[i];
            let ghost pre = rs.take(i as int);
            let ghost post = rs.take(i + 1);
            proof {
                assert(post.drop_last() =~= pre);
                assert(post.last() == rs[i as int]);
                assert(rs[i as int].ended_at.wf());
            }
            let day = record_day(r);
            if r.completed {
                completed = completed + 1;
                let off: i64 = today - day;
                if 0 <= off && off < 365 {
                    let k = off as usize;
                    window.set(k, window[k] + 1);
                }
            } else {
                skipped = skipped + 1;
            }
            proof {
                assert forall|g: int| 0 <= g < 365 implies #[trigger] window@[g] == day_count(
                    post,
                    today - g,
                ) by {}
            }
            let is_focus = str_eq(r.session_type.as_str(), "Focus");
            if day == today && is_focus && r.completed {
                pomodoros = pomodoros + 1;
                proof {
                    lemma_prefix_minutes(rs, i + 1, today as int, Seq::empty());
                }
                focus_min = focus_min + r.actual_seconds / 60;
            }
            let hour = r.ended_at.local_hour();
            hours.set(hour as usize, hours[hour as usize] + 1);
            proof {
                assert forall|g: int| 0 <= g < 24 implies #[trigger] hours@[g] == hour_count(post, g) by {}
            }
            match &r.task {
                Some(task) => {
                    let current: usize = match tasks.get(task.as_str()) {
                        Some(c) => c,
                        None => 0,
                    };
                    tasks.insert(task.clone(), current + 1);
                },
                None => {},
            }
            proof {
                assert forall|t: Seq<char>| tasks@.contains_key(t) <==> task_count(post, t) > 0 by {}
                assert forall|t: Seq<char>| tasks@.contains_key(t) implies tasks@[t] == task_count(post, t) by {}
            }
            let m: u64 = r.actual_seconds / 60;
            let mut j: usize = 0;
            let ghost rec = rs[i as int];
            proof {
                assert(rec.tags@.take(0) =~= Seq::<String>::empty());
            }
            while j < r.tags.len()
                invariant
                    i < n,
                    n == rs.len(),
                    rs == records@,
                    r == &records[i as int],
                    rec == rs[i as int],
                    pre == rs.take(i as int),
                    post == rs.take(i + 1),
                    post.drop_last() == pre,
                    post.last() == rec,
                    summary_defined(rs, today as int),
                    m == minutes(rec),
                    j <= rec.tags@.len(),
                    tags.wf(),
                    forall|t: Seq<char>|
                        tags@.contains_key(t) <==> tag_listings(pre, t) + tag_occurrences(
                            rec.tags@.take(j as int),
                            t,
                        ) > 0,
                    forall|t: Seq<char>|
                        tags@.contains_key(t) ==> tags@[t] == tag_minutes(pre, t) + tag_weight(rec.tags@.take(j as int), t, m as nat),
                decreases rec.tags@.len() - j,
            {
                let tag = &r.tags[j];
                let ghost tv = tag@;
                proof {
                    assert(rec.tags@.take(j + 1).drop_last() =~= rec.tags@.take(j as int));
                    assert(rec.tags@.take(j + 1).last() == rec.tags@[j as int]);
                    lemma_weight_prefix(rec.tags@, j + 1, tv, m as nat);
                    lemma_prefix_minutes(rs, i + 1, today as int, tv);
                    assert(tag_minutes(post, tv) <= u64::MAX);
                }
                let current: u64 = match tags.get(tag.as_str()) {
                    Some(c) => c,
                    None => 0,
                };
                proof {
                    if !tags@.contains_key(tv) {
                        lemma_tag_minutes_absent(pre, tv);
                        lemma_weight_absent(rec.tags@.take(j as int), tv, m as nat);
                    }
                    assert(current + m == tag_minutes(pre, tv) + tag_weight(
                        rec.tags@.take(j + 1),
                        tv,
                        m as nat,
                    ));
                }
                tags.insert(tag.clone(), current + m);
                proof {
                    assert forall|t: Seq<char>|
                        tags@.contains_key(t) <==> tag_listings(pre, t) + tag_occurrences(
                            rec.tags@.take(j + 1),
                            t,
                        ) > 0 by {
                        if t != tv {
                            assert(tag_occurrences(rec.tags@.take(j + 1), t) == tag_occurrences(
                                rec.tags@.take(j as int),
                                t,
                            ));
                        }
                    }
                    assert forall|t: Seq<char>|
                        tags@.contains_key(t) implies tags@[t] == tag_minutes(pre, t)
                        + tag_weight(rec.tags@.take(j + 1), t, m as nat) by {
                        if t != tv {
                            assert(tag_weight(rec.tags@.take(j + 1), t, m as nat) == tag_weight(
                                rec.tags@.take(j as int),
                                t,
                                m as nat,
                            ));
                        }
                    }
                }
                j = j + 1;
            }
            proof {
                assert(rec.tags@.take(rec.tags@.len() as int) =~= rec.tags@);
            }
            i = i + 1;
        }
        proof {
            assert(rs.take(n as int) =~= rs);
        }
        let best_hour = best_hour_of(&hours);
        proof {
            if n > 0 {
                lemma_hour_present(rs);
                let hh = rs.last().ended_at.hour();
                assert(0 <= hh < 24);
                assert(hours@[hh] > 0);
            } else {
                assert forall|g: int| 0 <= g < 24 implies hours@[g] == 0 by {}
            }
        }
        let most = most_frequent(&tasks);
        proof {
            tasks.lemma_names();
            if most is None {
                assert forall|k: int| 0 <= k < rs.len() implies (#[trigger] rs[k]).task is None by {
                    if rs[k].task is Some {
                        lemma_task_present(rs, k);
                        let t = rs[k].task->0@;
                        assert(tasks@.contains_key(t));
                    }
                }
            } else {
                let t = most->0@;
                assert(tasks@.contains_key(t));
                assert(task_count(rs, t) > 0);
                assert(exists|k: int| 0 <= k < rs.len() && rs[k].task is Some) by {
                    if forall|k: int| 0 <= k < rs.len() ==> (#[trigger] rs[k]).task is None {
                        lemma_no_task(rs, t);
                    }
                }
                assert forall|u: Seq<char>| #[trigger] task_count(rs, u) <= task_count(rs, t) by {
                    if task_count(rs, u) > 0 {
                        assert(tasks@.contains_key(u));
                    }
                }
                assert forall|u: Seq<char>|
                    u != t && #[trigger] task_count(rs, u) == task_count(rs, t) implies lex_lt(u, t) by {
                    assert(tasks@.contains_key(u));
                }
            }
        }
        let mut days: Vec<DayStat> = Vec::new();
        let mut k: usize = 0;
        while k < 7
            invariant
                k <= 7,
                n == rs.len(),
                summary_defined(rs, today as int),
                window@.len() == 365,
                forall|g: int|
                    0 <= g < 365 ==> #[trigger] window@[g] == day_count(rs, today - g),
                days@.len() == k,
                forall|q: int|
                    0 <= q < k ==> {
                        &&& (#[trigger] days@[q]).date == today - (6 - q)
                        &&& days@[q].count == day_count(rs, today - (6 - q))
                        &&& days@[q].label@ == weekday_name(today - (6 - q))
                    },
            decreases 7 - k,
        {
            let offset: usize = 6 - k;
            let date: i64 = today - offset as i64;
            days.push(DayStat { date, label: weekday_label(date), count: window[offset] });
            k = k + 1;
        }
        let mut streak_len: usize = 0;
        proof {
            assert(streak(rs, today as int) == streak_from(rs, today as int, 0));
        }
        while streak_len < 365 && window[streak_len] > 0
            invariant
                streak_len <= 365,
                window@.len() == 365,
                forall|g: int|
                    0 <= g < 365 ==> #[trigger] window@[g] == day_count(rs, today - g),
                streak(rs, today as int) == streak_from(rs, today as int, streak_len as int),
            decreases 365 - streak_len,
        {
            proof {
                lemma_streak_step(rs, today as int, streak_len as int);
            }
            streak_len = streak_len + 1;
        }
        let s = StatsSummary {
            pomodoros_today: pomodoros,
            focus_minutes_today: focus_min,
            completed_sessions: completed,
            skipped_sessions: skipped,
            streak_days: streak_len,
            best_hour,
            most_frequent_task: most,
            by_tag: tags,
            last_7_days: days,
        };
        assert(s.completed_sessions == completed_count(rs));
        assert(s.pomodoros_today == focus_count(rs, today as int));
        assert(s.focus_minutes_today == focus_minutes(rs, today as int));
        assert(s.streak_days == streak(rs, today as int));
        assert(s.best_hour is None <==> rs.len() == 0);
        assert forall|g: int| 0 <= g < 24 implies #[trigger] hour_count(rs, g) == hours@[g] by {}
        assert(s.best_hour matches Some(h) ==> {
            &&& h < 24
            &&& forall|g: int| 0 <= g < 24 ==> #[trigger] hour_count(rs, g) <= hour_count(rs, h as int)
            &&& forall|g: int| h < g < 24 ==> #[trigger] hour_count(rs, g) < hour_count(rs, h as int)
        });
        assert(s.most_frequent_task is None <==> forall|i: int| 0 <= i < rs.len() ==> (#[trigger] rs[i]).task is None);
        assert(forall|t: Seq<char>| s.by_tag@.contains_key(t) <==> has_tag(rs, t));
        assert(forall|t: Seq<char>| s.by_tag@.contains_key(t) ==> s.by_tag@[t] == tag_minutes(rs, t));
        s
    }

    /// Summarises the records as of the local day now.
    pub fn from_sessions(records: &[SessionRecord]) -> (r: Option<Self>)
        requires
            forall|i: int| 0 <= i < records@.len() ==> (#[trigger] records@[i]).ended_at.wf(),
        ensures
            exists|today: int|
                -1 <= today <= crate::time::MAX_UNIX_DAY + 1 && {
                    &&& (r is Some <==> summary_defined(records@, today))
                    &&& (r matches Some(s) ==> summarises(s, records@, today))
                },
    {
        let now = local_now();
        let today = now.local_day();
        if summary_ok(records, today) {
            Some(Self::from_sessions_on(records, today))
        } else {
            None
        }
    }
}

/// Tests whether the records can be summarised on day `today`.
pub fn summary_ok(records: &[SessionRecord], today: i64) -> (r: bool)
    requires
        forall|i: int| 0 <= i < records@.len() ==> (#[trigger] records@[i]).ended_at.wf(),
        today >= -1,
        today <= crate::time::MAX_UNIX_DAY + 1,
    ensures
        r == summary_defined(records@, today as int),
{
    let ghost rs = records@;
    let n = records.len();
    let mut focus: u128 = 0;
    let mut i: usize = 0;
    let mut tags: NameTable<u128> = NameTable::new();
    let mut over = false;
    while i < n
        invariant
            n == rs.len(),
            rs == records@,
            i <= n,
            forall|k: int| 0 <= k < rs.len() ==> (#[trigger] rs[k]).ended_at.wf(),
            !over ==> focus == focus_minutes(rs.take(i as int), today as int),
            !over ==> focus <= u64::MAX,
            over ==> focus_minutes(rs, today as int) > u64::MAX || exists|t: Seq<char>|
                #[trigger] tag_minutes(rs, t) > u64::MAX,
            tags.wf(),
            !over ==> forall|t: Seq<char>|
                tags@.contains_key(t) ==> tags@[t] == tag_minutes(rs.take(i as int), t),
            !over ==> forall|t: Seq<char>|
                !tags@.contains_key(t) ==> tag_minutes(rs.take(i as int), t) == 0,
            !over ==> forall|t: Seq<char>| tags@.contains_key(t) ==> tags@[t] <= u64::MAX,
        decreases n - i,
    {
        if !over {
            let r = &records[i];
            let ghost pre = rs.take(i as int);
            let ghost post = rs.take(i + 1);
            proof {
                assert(post.drop_last() =~= pre);
                assert(post.last() == rs[i as int]);
            }
            let day = record_day(r);
            if day == today && str_eq(r.session_type.as_str(), "Focus") && r.completed {
                focus = focus + (r.actual_seconds / 60) as u128;
            }
            if focus > u64::MAX as u128 {
                proof {
                    lemma_prefix_minutes(rs, i + 1, today as int, Seq::empty());
                }
                over = true;
            } else {
                let m: u128 = (r.actual_seconds / 60) as u128;
                let mut j: usize = 0;
                let ghost rec = rs[i as int];
                proof {
                    assert(rec.tags@.take(0) =~= Seq::<String>::empty());
                }
                while j < r.tags.len() && !over
                    invariant
                        i < n,
                        n == rs.len(),
                        rs == records@,
                        r == &records[i as int],
                        rec == rs[i as int],
                        pre == rs.take(i as int),
                        post == rs.take(i + 1),
                        post.drop_last() == pre,
                        post.last() == rec,
                        m == minutes(rec),
                        m <= u64::MAX,
                        j <= rec.tags@.len(),
                        tags.wf(),
                        !over ==> forall|t: Seq<char>|
                            tags@.contains_key(t) ==> tags@[t] == tag_minutes(pre, t)
                                + tag_weight(rec.tags@.take(j as int), t, m as nat),
                        !over ==> forall|t: Seq<char>|
                            !tags@.contains_key(t) ==> tag_minutes(pre, t) + tag_weight(rec.tags@.take(j as int), t, m as nat) == 0,
                        !over ==> forall|t: Seq<char>|
                            tags@.contains_key(t) ==> tags@[t] <= u64::MAX,
                        over ==> exists|t: Seq<char>| #[trigger] tag_minutes(rs, t) > u64::MAX,
                    decreases rec.tags@.len() - j + (if over {
                        0int
                    } else {
                        1int
                    }),
                {
                    let tag = &r.tags[j];
                    let ghost tv = tag@;
                    proof {
                        assert(rec.tags@.take(j + 1).drop_last() =~= rec.tags@.take(j as int));
                        assert(rec.tags@.take(j + 1).last() == rec.tags@[j as int]);
                    }
                    let current: u128 = match tags.get(tag.as_str()) {
                        Some(c) => c,
                        None => 0,
                    };
                    let next: u128 = current + m;
                    proof {
                        assert(current == tag_minutes(pre, tv) + tag_weight(
                            rec.tags@.take(j as int),
                            tv,
                            m as nat,
                        ));
                        assert(next == tag_minutes(pre, tv) + tag_weight(
                            rec.tags@.take(j + 1),
                            tv,
                            m as nat,
                        ));
                    }
                    if next > u64::MAX as u128 {
                        proof {
                            lemma_weight_prefix(rec.tags@, j + 1, tv, m as nat);
                            lemma_prefix_minutes(rs, i + 1, today as int, tv);
                            assert(tag_minutes(rs, tv) > u64::MAX);
                        }
                        over = true;
                    } else {
                        tags.insert(tag.clone(), next);
                        proof {
                            assert forall|t: Seq<char>|
                                tags@.contains_key(t) implies tags@[t] == tag_minutes(pre, t)
                                + tag_weight(rec.tags@.take(j + 1), t, m as nat) by {
                                if t != tv {
                                    assert(tag_weight(rec.tags@.take(j + 1), t, m as nat)
                                        == tag_weight(rec.tags@.take(j as int), t, m as nat));
                                }
                            }
                            assert forall|t: Seq<char>|
                                !tags@.contains_key(t) implies tag_minutes(pre, t)
                                + tag_weight(rec.tags@.take(j + 1), t, m as nat) == 0 by {
                                assert(t != tv);
                                assert(tag_weight(rec.tags@.take(j + 1), t, m as nat)
                                    == tag_weight(rec.tags@.take(j as int), t, m as nat));
                            }
                        }
                        j = j + 1;
                    }
                }
                proof {
                    if !over {
                        assert(j == rec.tags@.len());
                        assert(rec.tags@.take(j as int) =~= rec.tags@);
                    } else {
                        assert(exists|t: Seq<char>| #[trigger] tag_minutes(rs, t) > u64::MAX);
                    }
                }
            }
        }
        i = i + 1;
    }
    if over {
        return false;
    }
    proof {
        assert(rs.take(n as int) =~= rs);
        assert forall|t: Seq<char>| #[trigger] tag_minutes(rs, t) <= u64::MAX by {
            if tags@.contains_key(t) {
            } else {
            }
        }
    }
    let s = streak_of(records, today);
    let reach: i64 = if s < 364 {
        s as i64
    } else {
        364
    };
    today - 6 >= MIN_UNIX_DAY && today - reach >= MIN_UNIX_DAY
}

/// A tag that no session lists has no minutes.
proof fn lemma_tag_minutes_absent(rs: Seq<SessionRecord>, t: Seq<char>)
    requires
        tag_listings(rs, t) == 0,
    ensures
        tag_minutes(rs, t) == 0,
    decreases rs.len(),
{
    if rs.len() > 0 {
        lemma_tag_minutes_absent(rs.drop_last(), t);
        lemma_weight_absent(rs.last().tags@, t, minutes(rs.last()));
    }
}

/// The streak of the records as of day `today`.
fn streak_of(records: &[SessionRecord], today: i64) -> (r: usize)
    requires
        forall|i: int| 0 <= i < records@.len() ==> (#[trigger] records@[i]).ended_at.wf(),
        today >= -1,
        today <= crate::time::MAX_UNIX_DAY + 1,
    ensures
        r == streak(records@, today as int),
{
    let ghost rs = records@;
    let mut o: usize = 0;
    while o < 365
        invariant
            o <= 365,
            rs == records@,
            forall|i: int| 0 <= i < rs.len() ==> (#[trigger] rs[i]).ended_at.wf(),
            today >= -1,
            today <= crate::time::MAX_UNIX_DAY + 1,
            streak(rs, today as int) == streak_from(rs, today as int, o as int),
        decreases 365 - o,
    {
        let c = day_count_of(records, today - o as i64);
        if c == 0 {
            return o;
        }
        proof {
            lemma_streak_step(rs, today as int, o as int);
        }
        o = o + 1;
    }
    365
}

/// Completed sessions that ended on day `d`.
fn day_count_of(records: &[SessionRecord], d: i64) -> (r: usize)
    requires
        forall|i: int| 0 <= i < records@.len() ==> (#[trigger] records@[i]).ended_at.wf(),
    ensures
        r == day_count(records@, d as int),
{
    let ghost rs = records@;
    let mut c: usize = 0;
    let mut i: usize = 0;
    proof {
        lemma_counts_le_len(rs, 0);
    }
    while i < records.len()
        invariant
            rs == records@,
            i <= rs.len(),
            forall|k: int| 0 <= k < rs.len() ==> (#[trigger] rs[k]).ended_at.wf(),
            c == day_count(rs.take(i as int), d as int),
            c <= i,
        decreases rs.len() - i,
    {
        proof {
            assert(rs.take(i + 1).drop_last() =~= rs.take(i as int));
            assert(rs.take(i + 1).last() == rs[i as int]);
        }
        let r = &records[i];
        if r.completed && record_day(r) == d {
            c = c + 1;
        }
        i = i + 1;
    }
    proof {
        assert(rs.take(i as int) =~= rs);
    }
    c
}

/// The hour with the most sessions, the latest such hour on a tie; `None` where no hour
/// has any.
fn best_hour_of(hours: &Vec<usize>) -> (r: Option<u32>)
    requires
        hours@.len() == 24,
    ensures
        r is None <==> forall|g: int| 0 <= g < 24 ==> hours@[g] == 0,
        r matches Some(h) ==> {
            &&& h < 24
            &&& hours@[h as int] > 0
            &&& forall|g: int| 0 <= g < 24 ==> hours@[g] <= hours@[h as int]
            &&& forall|g: int| h < g < 24 ==> hours@[g] < hours@[h as int]
        },
{
    let mut best: Option<u32> = None;
    let mut best_count: usize = 0;
    let mut h: usize = 0;
    while h < 24
        invariant
            h <= 24,
            hours@.len() == 24,
            best is None ==> forall|g: int| 0 <= g < h ==> hours@[g] == 0,
            best is None ==> best_count == 0,
            best matches Some(b) ==> {
                &&& b < h
                &&& best_count == hours@[b as int]
                &&& best_count > 0
                &&& forall|g: int| 0 <= g < h ==> hours@[g] <= best_count
                &&& forall|g: int| b < g < h ==> hours@[g] < best_count
            },
        decreases 24 - h,
    {
        let c = hours[h];
        if c > 0 && c >= best_count {
            best = Some(h as u32);
            best_count = c;
        }
        h = h + 1;
    }
    best
}

/// The task with the most sessions, the greatest name on a tie; `None` for no tasks.
fn most_frequent(tasks: &NameTable<usize>) -> (r: Option<String>)
    requires
        tasks.wf(),
    ensures
        r is None <==> tasks@.dom().is_empty(),
        r matches Some(t) ==> {
            &&& tasks@.contains_key(t@)
            &&& forall|u: Seq<char>| tasks@.contains_key(u) ==> tasks@[u] <= tasks@[t@]
            &&& forall|u: Seq<char>|
                tasks@.contains_key(u) && u != t@ && tasks@[u] == tasks@[t@] ==> lex_lt(u, t@)
        },
{
    let n = tasks.entry_count();
    let mut best: Option<String> = None;
    let mut best_count: usize = 0;
    let mut i: usize = 0;
    proof {
        tasks.lemma_names();
    }
    while i < n
        invariant
            n == tasks.names().len(),
            i <= n,
            tasks.wf(),
            best is None ==> i == 0,
            best matches Some(b) ==> {
                &&& tasks@.contains_key(b@)
                &&& best_count == tasks@[b@]
                &&& forall|k: int| 0 <= k < i ==> tasks@[#[trigger] tasks.names()[k]] <= best_count
                &&& forall|k: int|
                    0 <= k < i && tasks.names()[k] != b@ && tasks@[#[trigger] tasks.names()[k]]
                        == best_count ==> lex_lt(tasks.names()[k], b@)
            },
        decreases n - i,
    {
        let (name, count) = tasks.entry(i);
        let take = match &best {
            None => true,
            Some(b) => count > best_count || (count == best_count && str_lt(b.as_str(), name.as_str())),
        };
        if take {
            proof {
                if best is Some {
                    let b = best->0@;
                    assert forall|k: int| 0 <= k < i + 1 implies tasks@[#[trigger] tasks.names()[k]] <= count by {}
                    assert forall|k: int|
                        0 <= k < i + 1 && tasks.names()[k] != name@ && tasks@[#[trigger] tasks.names()[k]]
                            == count implies lex_lt(tasks.names()[k], name@) by {
                        let u = tasks.names()[k];
                        if k < i {
                            if count == best_count {
                                assert(lex_lt(b, name@));
                                if u != b {
                                    lemma_lex_transitive(u, b, name@);
                                }
                            }
                        }
                    }
                }
            }
            best = Some(name.clone());
            best_count = count;
        } else {
            proof {
                let b = best->0@;
                if count == best_count && name@ != b {
                    lemma_lex_total(b, name@);
                }
                if name@ == b {
                    lemma_lex_irreflexive(b);
                }
            }
        }
        i = i + 1;
    }
    proof {
        if best is None {
            assert(n == 0);
            assert forall|k: Seq<char>| !tasks@.contains_key(k) by {}
            assert(tasks@.dom() =~= Set::<Seq<char>>::empty());
        } else {
            let b = best->0@;
            assert(tasks@.dom().contains(b));
            assert forall|u: Seq<char>| tasks@.contains_key(u) implies tasks@[u] <= tasks@[b] by {
                let k = choose|k: int| 0 <= k < tasks.names().len() && #[trigger] tasks.names()[k] == u;
            }
            assert forall|u: Seq<char>|
                tasks@.contains_key(u) && u != b && tasks@[u] == tasks@[b] implies lex_lt(u, b) by {
                let k = choose|k: int| 0 <= k < tasks.names().len() && #[trigger] tasks.names()[k] == u;
            }
        }
    }
    best
}

/// The text lines joined by line breaks.
pub open spec fn join_lines(lines: Seq<Seq<char>>) -> Seq<char>
    decreases lines.len(),
{
    if lines.len() == 0 {
        seq![]
    } else if lines.len() == 1 {
        lines[0]
    } else {
        join_lines(lines.drop_last()) + seq!['\n'] + lines.last()
    }
}

/// The bar of a day: one full block per session.
pub open spec fn day_bar(count: nat) -> Seq<char> {
    Seq::new(count, |i: int| '\u{2588}')
}

/// A day's line: its label right-aligned in 3 columns, its bar left-aligned in 10, and
/// its count.
pub open spec fn day_line(d: DayStat) -> Seq<char> {
    pad_left(d.label@, 3, ' ') + "  "@ + pad_right(day_bar(d.count as nat), 10, ' ') + " "@
        + decimal(d.count as nat)
}

/// The lines of the report.
pub open spec fn report_lines(s: StatsSummary) -> Seq<Seq<char>> {
    let head = seq![
        "Pomodoros today: "@ + decimal(s.pomodoros_today as nat),
        "Focus minutes today: "@ + decimal(s.focus_minutes_today as nat),
        "Daily streak: "@ + decimal(s.streak_days as nat),
        "Completed / skipped: "@ + decimal(s.completed_sessions as nat) + " / "@ + decimal(
            s.skipped_sessions as nat,
        ),
    ];
    let hour = match s.best_hour {
        Some(h) => seq!["Best hour: "@ + pad_left(decimal(h as nat), 2, '0') + ":00"@],
        None => seq![],
    };
    let task = match s.most_frequent_task {
        Some(t) => seq!["Most frequent task: "@ + t@],
        None => seq![],
    };
    head + hour + task + seq!["Last 7 days:"@] + s.last_7_days@.map_values(|d: DayStat| day_line(d))
}

proof fn lemma_join_step(lines: Seq<Seq<char>>, j: int)
    requires
        1 <= j < lines.len(),
    ensures
        join_lines(lines.take(j + 1)) == join_lines(lines.take(j)) + seq!['\n'] + lines[j],
{
    assert(lines.take(j + 1).drop_last() =~= lines.take(j));
}

/// Appends `t` to `s`, preceded by a line break unless `s` is the first line.
fn push_line(s: &mut String, t: &str, first: bool)
    ensures
        final(s)@ == if first {
            old(s)@ + t@
        } else {
            old(s)@ + seq!['\n'] + t@
        },
{
    if !first {
        crate::text::push_char(s, '\n');
    }
    push_str(s, t);
}

/// `n` padded on the left with `fill` to `width` characters.
fn padded_decimal(n: u64, width: usize, fill: char) -> (r: String)
    ensures
        r@ == pad_left(decimal(n as nat), width as nat, fill),
{
    let d = decimal_string(n);
    let len = d.as_str().unicode_len();
    if len >= width {
        d
    } else {
        let mut s = String::new();
        push_repeated(&mut s, fill, width - len);
        push_str(&mut s, d.as_str());
        s
    }
}

/// A day's line of the report.
fn day_text(d: &DayStat) -> (r: String)
    ensures
        r@ == day_line(*d),
{
    let mut s = String::new();
    let len = d.label.as_str().unicode_len();
    if len < 3 {
        push_repeated(&mut s, ' ', 3 - len);
    }
    push_str(&mut s, d.label.as_str());
    assert(s@ == pad_left(d.label@, 3, ' '));
    push_str(&mut s, "  ");
    push_repeated(&mut s, '\u{2588}', d.count);
    if d.count < 10 {
        push_repeated(&mut s, ' ', 10 - d.count);
    }
    proof {
        let bar = day_bar(d.count as nat);
        if d.count < 10 {
            assert(Seq::new(d.count as nat, |i: int| '\u{2588}') + Seq::new((10 - d.count) as nat, |i: int| ' ')
                =~= pad_right(bar, 10, ' '));
        } else {
            assert(Seq::new(d.count as nat, |i: int| '\u{2588}') =~= pad_right(bar, 10, ' '));
        }
    }
    push_str(&mut s, " ");
    let c = decimal_string(d.count as u64);
    push_str(&mut s, c.as_str());
    proof {
        assert(s@ =~= day_line(*d));
    }
    s
}

impl StatsSummary {
    /// The report as text, one line per figure and one per day of the last seven.
    pub fn render_text(&self, _today: bool, _week: bool) -> (r: String)
        ensures
            r@ == join_lines(report_lines(*self)),
    {
        let ghost lines = report_lines(*self);
        let mut s = String::new();
        let mut text = String::from_str("Pomodoros today: ");
        push_str(&mut text, decimal_string(self.pomodoros_today as u64).as_str());
        push_line(&mut s, text.as_str(), true);
        proof {
            assert(lines[0] == text@);
            assert(lines.take(1) =~= seq![lines[0]]);
        }
        let mut text = String::from_str("Focus minutes today: ");
        push_str(&mut text, decimal_string(self.focus_minutes_today).as_str());
        push_line(&mut s, text.as_str(), false);
        proof {
            assert(lines[1] == text@);
            lemma_join_step(lines, 1);
        }
        let mut text = String::from_str("Daily streak: ");
        push_str(&mut text, decimal_string(self.streak_days as u64).as_str());
        push_line(&mut s, text.as_str(), false);
        proof {
            assert(lines[2] == text@);
            lemma_join_step(lines, 2);
        }
        let mut text = String::from_str("Completed / skipped: ");
        push_str(&mut text, decimal_string(self.completed_sessions as u64).as_str());
        push_str(&mut text, " / ");
        push_str(&mut text, decimal_string(self.skipped_sessions as u64).as_str());
        push_line(&mut s, text.as_str(), false);
        proof {
            assert(lines[3] == text@);
            lemma_join_step(lines, 3);
        }
        let ghost mut k: int = 4;
        match self.best_hour {
            Some(h) => {
                let mut text = String::from_str("Best hour: ");
                push_str(&mut text, padded_decimal(h as u64, 2, '0').as_str());
                push_str(&mut text, ":00");
                push_line(&mut s, text.as_str(), false);
                proof {
                    assert(lines[4] == text@);
                    lemma_join_step(lines, 4);
                    k = 5;
                }
            },
            None => {},
        }
        match &self.most_frequent_task {
            Some(t) => {
                let mut text = String::from_str("Most frequent task: ");
                push_str(&mut text, t.as_str());
                push_line(&mut s, text.as_str(), false);
                proof {
                    assert(lines[k] == text@);
                    lemma_join_step(lines, k);
                    k = k + 1;
                }
            },
            None => {},
        }
        push_line(&mut s, "Last 7 days:", false);
        proof {
            assert(lines[k] == "Last 7 days:"@);
            lemma_join_step(lines, k);
            k = k + 1;
        }
        let mut i: usize = 0;
        while i < self.last_7_days.len()
            invariant
                lines == report_lines(*self),
                k == lines.len() - self.last_7_days@.len() + i,
                i <= self.last_7_days@.len(),
                s@ == join_lines(lines.take(k)),
                k >= 1,
            decreases self.last_7_days@.len() - i,
        {
            let line = day_text(&self.last_7_days[i]);
            push_line(&mut s, line.as_str(), false);
            proof {
                assert(lines[k] == day_line(self.last_7_days@[i as int]));
                lemma_join_step(lines, k);
                k = k + 1;
            }
            i = i + 1;
        }
        proof {
            assert(lines.take(k) =~= lines);
        }
        s
    }
}

proof fn lemma_counts_split(rs: Seq<SessionRecord>, today: int)
    ensures
        completed_count(rs) + skipped_count(rs) == rs.len(),
        focus_count(rs, today) <= day_count(rs, today),
        day_count(rs, today) <= completed_count(rs),
    decreases rs.len(),
{
    if rs.len() > 0 {
        lemma_counts_split(rs.drop_last(), today);
    }
}

/// Every session is counted once, as completed or as skipped; today's pomodoros are
/// among the sessions completed today, and those among all completed ones.
pub proof fn lemma_summary_counts(s: StatsSummary, rs: Seq<SessionRecord>, today: int)
    requires
        summarises(s, rs, today),
    ensures
        s.completed_sessions + s.skipped_sessions == rs.len(),
        s.pomodoros_today <= s.last_7_days@[6].count,
        s.last_7_days@[6].count <= s.completed_sessions,
        s.last_7_days@[6].date == today,
{
    lemma_counts_split(rs, today);
    assert(s.last_7_days@[6].count == day_count(rs, today - (6 - 6)));
}

proof fn lemma_streak_from(rs: Seq<SessionRecord>, today: int, o: int)
    requires
        0 <= o <= 365,
    ensures
        o <= streak_from(rs, today, o) <= 365,
        forall|k: int| o <= k < streak_from(rs, today, o) ==> #[trigger] day_count(rs, today - k) > 0,
        streak_from(rs, today, o) < 365 ==> day_count(rs, today - streak_from(rs, today, o)) == 0,
    decreases 365 - o,
{
    if o < 365 && day_count(rs, today - o) > 0 {
        lemma_streak_from(rs, today, o + 1);
    }
}

/// The streak is the run of days, back from today, that each have a completed session:
/// every day of it has one, the day before it has none (unless the run is a whole
/// year), and the streak is zero exactly when no session was completed today.
pub proof fn lemma_streak(s: StatsSummary, rs: Seq<SessionRecord>, today: int)
    requires
        summarises(s, rs, today),
    ensures
        s.streak_days <= 365,
        forall|k: int| 0 <= k < s.streak_days ==> #[trigger] day_count(rs, today - k) > 0,
        s.streak_days < 365 ==> day_count(rs, today - s.streak_days) == 0,
        s.streak_days == 0 <==> s.last_7_days@[6].count == 0,
{
    lemma_streak_from(rs, today, 0);
    assert(s.last_7_days@[6].count == day_count(rs, today - (6 - 6)));
    if s.streak_days > 0 {
        assert(day_count(rs, today - 0) > 0);
    }
}

/// The sum of `f` over the records.
pub open spec fn sum_of(rs: Seq<SessionRecord>, f: spec_fn(SessionRecord) -> nat) -> nat
    decreases rs.len(),
{
    if rs.len() == 0 {
        0
    } else {
        sum_of(rs.drop_last(), f) + f(rs.last())
    }
}

proof fn lemma_sum_concat(a: Seq<SessionRecord>, b: Seq<SessionRecord>, f: spec_fn(SessionRecord) -> nat)
    ensures
        sum_of(a + b, f) == sum_of(a, f) + sum_of(b, f),
    decreases b.len(),
{
    if b.len() > 0 {
        lemma_sum_concat(a, b.drop_last(), f);
        assert((a + b).drop_last() =~= a + b.drop_last());
        assert((a + b).last() == b.last());
    } else {
        assert(a + b =~= a);
    }
}

proof fn lemma_sum_remove(s: Seq<SessionRecord>, i: int, f: spec_fn(SessionRecord) -> nat)
    requires
        0 <= i < s.len(),
    ensures
        sum_of(s, f) == sum_of(s.remove(i), f) + f(s[i]),
{
    let a = s.take(i);
    let b = s.skip(i + 1);
    let one = seq![s[i]];
    assert(s =~= (a + one) + b);
    assert(s.remove(i) =~= a + b);
    lemma_sum_concat(a + one, b, f);
    lemma_sum_concat(a, one, f);
    lemma_sum_concat(a, b, f);
    assert(one.drop_last() =~= Seq::<SessionRecord>::empty());
    assert(one.last() == s[i]);
    assert(sum_of(one.drop_last(), f) == 0);
    assert(sum_of(one, f) == f(s[i]));
}

/// The sum of `f` over the records does not depend on their order.
proof fn lemma_sum_order_free(a: Seq<SessionRecord>, b: Seq<SessionRecord>, f: spec_fn(SessionRecord) -> nat)
    requires
        a.to_multiset() == b.to_multiset(),
    ensures
        sum_of(a, f) == sum_of(b, f),
    decreases a.len(),
{
    a.to_multiset_ensures();
    b.to_multiset_ensures();
    if a.len() == 0 {
        assert(b =~= Seq::<SessionRecord>::empty());
    } else {
        let x = a.last();
        let a1 = a.drop_last();
        a1.to_multiset_ensures();
        assert(a1.push(x) =~= a);
        assert(a.to_multiset() =~= a1.to_multiset().insert(x));
        assert(a.to_multiset().count(x) > 0);
        assert(b.contains(x));
        let i = choose|i: int| 0 <= i < b.len() && b[i] == x;
        let b1 = b.remove(i);
        assert(b1.to_multiset() =~= b.to_multiset().remove(x));
        assert(a1.to_multiset() =~= a1.to_multiset().insert(x).remove(x));
        lemma_sum_order_free(a1, b1, f);
        lemma_sum_remove(b, i, f);
    }
}

spec fn completed_weight() -> spec_fn(SessionRecord) -> nat {
    |r: SessionRecord| if r.completed { 1nat } else { 0nat }
}

proof fn lemma_completed_sum(rs: Seq<SessionRecord>)
    ensures
        completed_count(rs) == sum_of(rs, completed_weight()),
    decreases rs.len(),
{
    if rs.len() > 0 {
        lemma_completed_sum(rs.drop_last());
    }
}

spec fn skipped_weight() -> spec_fn(SessionRecord) -> nat {
    |r: SessionRecord| if r.completed { 0nat } else { 1nat }
}

proof fn lemma_skipped_sum(rs: Seq<SessionRecord>)
    ensures
        skipped_count(rs) == sum_of(rs, skipped_weight()),
    decreases rs.len(),
{
    if rs.len() > 0 {
        lemma_skipped_sum(rs.drop_last());
    }
}

spec fn focus_weight(today: int) -> spec_fn(SessionRecord) -> nat {
    |r: SessionRecord| if is_focus_on(r, today) { 1nat } else { 0nat }
}

proof fn lemma_focus_sum(rs: Seq<SessionRecord>, today: int)
    ensures
        focus_count(rs, today) == sum_of(rs, focus_weight(today)),
    decreases rs.len(),
{
    if rs.len() > 0 {
        lemma_focus_sum(rs.drop_last(), today);
    }
}

spec fn focus_minutes_weight(today: int) -> spec_fn(SessionRecord) -> nat {
    |r: SessionRecord| if is_focus_on(r, today) { minutes(r) } else { 0nat }
}

proof fn lemma_focus_minutes_sum(rs: Seq<SessionRecord>, today: int)
    ensures
        focus_minutes(rs, today) == sum_of(rs, focus_minutes_weight(today)),
    decreases rs.len(),
{
    if rs.len() > 0 {
        lemma_focus_minutes_sum(rs.drop_last(), today);
    }
}

spec fn day_weight(d: int) -> spec_fn(SessionRecord) -> nat {
    |r: SessionRecord| if r.completed && r.ended_at.day() == d { 1nat } else { 0nat }
}

proof fn lemma_day_sum(rs: Seq<SessionRecord>, d: int)
    ensures
        day_count(rs, d) == sum_of(rs, day_weight(d)),
    decreases rs.len(),
{
    if rs.len() > 0 {
        lemma_day_sum(rs.drop_last(), d);
    }
}

spec fn hour_weight(h: int) -> spec_fn(SessionRecord) -> nat {
    |r: SessionRecord| if r.ended_at.hour() == h { 1nat } else { 0nat }
}

proof fn lemma_hour_sum(rs: Seq<SessionRecord>, h: int)
    ensures
        hour_count(rs, h) == sum_of(rs, hour_weight(h)),
    decreases rs.len(),
{
    if rs.len() > 0 {
        lemma_hour_sum(rs.drop_last(), h);
    }
}

spec fn task_weight(t: Seq<char>) -> spec_fn(SessionRecord) -> nat {
    |r: SessionRecord| if names_task(r, t) { 1nat } else { 0nat }
}

proof fn lemma_task_sum(rs: Seq<SessionRecord>, t: Seq<char>)
    ensures
        task_count(rs, t) == sum_of(rs, task_weight(t)),
    decreases rs.len(),
{
    if rs.len() > 0 {
        lemma_task_sum(rs.drop_last(), t);
    }
}

spec fn tag_minutes_weight(t: Seq<char>) -> spec_fn(SessionRecord) -> nat {
    |r: SessionRecord| tag_weight(r.tags@, t, minutes(r))
}

proof fn lemma_tag_minutes_sum(rs: Seq<SessionRecord>, t: Seq<char>)
    ensures
        tag_minutes(rs, t) == sum_of(rs, tag_minutes_weight(t)),
    decreases rs.len(),
{
    if rs.len() > 0 {
        lemma_tag_minutes_sum(rs.drop_last(), t);
    }
}

spec fn tag_listings_weight(t: Seq<char>) -> spec_fn(SessionRecord) -> nat {
    |r: SessionRecord| tag_occurrences(r.tags@, t)
}

proof fn lemma_tag_listings_sum(rs: Seq<SessionRecord>, t: Seq<char>)
    ensures
        tag_listings(rs, t) == sum_of(rs, tag_listings_weight(t)),
    decreases rs.len(),
{
    if rs.len() > 0 {
        lemma_tag_listings_sum(rs.drop_last(), t);
    }
}

proof fn lemma_streak_same(a: Seq<SessionRecord>, b: Seq<SessionRecord>, today: int, o: int)
    requires
        forall|d: int| #[trigger] day_count(a, d) == day_count(b, d),
    ensures
        streak_from(a, today, o) == streak_from(b, today, o),
    decreases 365 - o,
{
    if o < 365 {
        assert(day_count(a, today - o) == day_count(b, today - o));
        lemma_streak_same(a, b, today, o + 1);
    }
}

/// The summary does not depend on the order of the records: a summary of some records
/// is a summary of the same records in any other order.
pub proof fn lemma_summary_order_free(s: StatsSummary, rs: Seq<SessionRecord>, other: Seq<SessionRecord>, today: int)
    requires
        summarises(s, rs, today),
        rs.to_multiset() == other.to_multiset(),
    ensures
        summarises(s, other, today),
{
    rs.to_multiset_ensures();
    other.to_multiset_ensures();
    lemma_completed_sum(rs);
    lemma_completed_sum(other);
    lemma_sum_order_free(rs, other, completed_weight());
    lemma_skipped_sum(rs);
    lemma_skipped_sum(other);
    lemma_sum_order_free(rs, other, skipped_weight());
    lemma_focus_sum(rs, today);
    lemma_focus_sum(other, today);
    lemma_sum_order_free(rs, other, focus_weight(today));
    lemma_focus_minutes_sum(rs, today);
    lemma_focus_minutes_sum(other, today);
    lemma_sum_order_free(rs, other, focus_minutes_weight(today));
    assert forall|d: int| #[trigger] day_count(rs, d) == day_count(other, d) by {
        lemma_day_sum(rs, d);
        lemma_day_sum(other, d);
        lemma_sum_order_free(rs, other, day_weight(d));
    }
    assert forall|h: int| #[trigger] hour_count(rs, h) == hour_count(other, h) by {
        lemma_hour_sum(rs, h);
        lemma_hour_sum(other, h);
        lemma_sum_order_free(rs, other, hour_weight(h));
    }
    assert forall|t: Seq<char>| #[trigger] task_count(rs, t) == task_count(other, t) by {
        lemma_task_sum(rs, t);
        lemma_task_sum(other, t);
        lemma_sum_order_free(rs, other, task_weight(t));
    }
    assert forall|t: Seq<char>| #[trigger] tag_minutes(rs, t) == tag_minutes(other, t) by {
        lemma_tag_minutes_sum(rs, t);
        lemma_tag_minutes_sum(other, t);
        lemma_sum_order_free(rs, other, tag_minutes_weight(t));
    }
    assert forall|t: Seq<char>| #[trigger] tag_listings(rs, t) == tag_listings(other, t) by {
        lemma_tag_listings_sum(rs, t);
        lemma_tag_listings_sum(other, t);
        lemma_sum_order_free(rs, other, tag_listings_weight(t));
    }
    lemma_streak_same(rs, other, today, 0);
    assert((forall|i: int| 0 <= i < rs.len() ==> (#[trigger] rs[i]).task is None) <==> (forall|
        i: int,
    | 0 <= i < other.len() ==> (#[trigger] other[i]).task is None)) by {
        if forall|i: int| 0 <= i < rs.len() ==> (#[trigger] rs[i]).task is None {
            assert forall|i: int| 0 <= i < other.len() implies (#[trigger] other[i]).task is None by {
                assert(other.to_multiset().count(other[i]) > 0);
                assert(rs.contains(other[i]));
            }
        }
        if forall|i: int| 0 <= i < other.len() ==> (#[trigger] other[i]).task is None {
            assert forall|i: int| 0 <= i < rs.len() implies (#[trigger] rs[i]).task is None by {
                assert(rs.to_multiset().count(rs[i]) > 0);
                assert(other.contains(rs[i]));
            }
        }
    }
    assert(rs.len() == other.len());
    match s.best_hour {
        Some(h) => {
            assert(hour_count(rs, h as int) == hour_count(other, h as int));
            assert forall|g: int| 0 <= g < 24 implies #[trigger] hour_count(other, g) <= hour_count(
                other,
                h as int,
            ) by {
                assert(hour_count(rs, g) == hour_count(other, g));
            }
            assert forall|g: int| h < g < 24 implies #[trigger] hour_count(other, g) < hour_count(
                other,
                h as int,
            ) by {
                assert(hour_count(rs, g) == hour_count(other, g));
            }
        },
        None => {},
    }
    match s.most_frequent_task {
        Some(t) => {
            assert(task_count(rs, t@) == task_count(other, t@));
            assert forall|u: Seq<char>| #[trigger] task_count(other, u) <= task_count(other, t@) by {
                assert(task_count(rs, u) == task_count(other, u));
            }
            assert forall|u: Seq<char>|
                u != t@ && #[trigger] task_count(other, u) == task_count(other, t@) implies lex_lt(
                u,
                t@,
            ) by {
                assert(task_count(rs, u) == task_count(other, u));
            }
        },
        None => {},
    }
    assert forall|t: Seq<char>| s.by_tag@.contains_key(t) <==> has_tag(other, t) by {
        assert(s.by_tag@.contains_key(t) <==> has_tag(rs, t));
        assert(tag_listings(rs, t) == tag_listings(other, t));
    }
    assert forall|t: Seq<char>| s.by_tag@.contains_key(t) implies s.by_tag@[t] == tag_minutes(
        other,
        t,
    ) by {
        assert(tag_minutes(rs, t) == tag_minutes(other, t));
    }
}

/// Today's pomodoros are the completed sessions of type `Focus` that ended today: with no
/// records there are none, and one more record adds one pomodoro and its whole minutes
/// when it is such a session, and nothing otherwise (a break, a skipped session, or a
/// session of another day).
pub proof fn lemma_pomodoros_are_focus_sessions(
    s: StatsSummary,
    t: StatsSummary,
    rs: Seq<SessionRecord>,
    r: SessionRecord,
    today: int,
)
    requires
        summarises(s, rs, today),
        summarises(t, rs.push(r), today),
    ensures
        rs.len() == 0 ==> s.pomodoros_today == 0 && s.focus_minutes_today == 0,
        r.completed && r.ended_at.day() == today && r.session_type@ == "Focus"@ ==> {
            &&& t.pomodoros_today == s.pomodoros_today + 1
            &&& t.focus_minutes_today == s.focus_minutes_today + r.actual_seconds / 60
        },
        !(r.completed && r.ended_at.day() == today && r.session_type@ == "Focus"@) ==> {
            &&& t.pomodoros_today == s.pomodoros_today
            &&& t.focus_minutes_today == s.focus_minutes_today
        },
{
    assert(rs.push(r).drop_last() =~= rs);
    assert(rs.push(r).last() == r);
}

/// The short names of the weekdays, Monday first.
pub open spec fn week_names() -> Seq<Seq<char>> {
    seq!["Mon"@, "Tue"@, "Wed"@, "Thu"@, "Fri"@, "Sat"@, "Sun"@]
}

/// 1970-01-01 was a Thursday, and each day's weekday is the one after the day before's,
/// in the week from Monday to Sunday.
pub proof fn lemma_weekdays_follow(d: int)
    ensures
        weekday_name(0) == "Thu"@,
        exists|k: int|
            0 <= k < 7 && weekday_name(d) == #[trigger] week_names()[k] && weekday_name(d + 1)
                == week_names()[(k + 1) % 7],
{
    let k = (d + 3) % 7;
    assert((d + 1 + 3) % 7 == (k + 1) % 7) by {
        vstd::arithmetic::div_mod::lemma_add_mod_noop(d + 3, 1, 7);
        vstd::arithmetic::div_mod::lemma_small_mod(1, 7);
    }
    assert(weekday_name(d) == week_names()[k]);
    assert(weekday_name(d + 1) == week_names()[(k + 1) % 7]);
}

/// One more record counts once toward the hour of the day in which it ended (local
/// time), toward its task if it has one, and, if it was completed, toward the local day
/// on which it ended; completed or not, every record counts toward its hour and task.
pub proof fn lemma_one_more_record(rs: Seq<SessionRecord>, r: SessionRecord, h: int, t: Seq<char>, d: int)
    ensures
        hour_count(rs.push(r), h) == hour_count(rs, h) + if ((r.ended_at.secs + r.ended_at.offset)
            % 86400) / 3600 == h {
            1int
        } else {
            0int
        },
        task_count(rs.push(r), t) == task_count(rs, t) + if r.task matches Some(x) && x@ == t {
            1int
        } else {
            0int
        },
        day_count(rs.push(r), d) == day_count(rs, d) + if r.completed && (r.ended_at.secs
            + r.ended_at.offset) / 86400 == d {
            1int
        } else {
            0int
        },
{
    assert(rs.push(r).drop_last() =~= rs);
    assert(rs.push(r).last() == r);
}

} // verus!
