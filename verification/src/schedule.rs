//! Unattended update scheduling.
//!
//! A schedule names a weekday and an hour of day; the next trigger
//! instant is the next occurrence of that weekday at that hour, in local
//! time.  Computing it is a pure function of "now", so the caller's loop
//! is just: compute the next instant, sleep until then, run one refresh,
//! repeat.  A schedule whose weekday is the `-1` sentinel never triggers.

use vstd::arithmetic::div_mod::{
    lemma_add_mod_noop, lemma_mod_add_multiples_vanish, lemma_mod_division_less_than_divisor,
    lemma_small_mod,
};
use vstd::prelude::*;

verus! {

/// A recurring calendar rule: `hour` of day 0–23, `weekday` 0 (Sunday)
/// through 6 (Saturday), or `-1` for "no schedule configured".
#[derive(Debug, Clone, Copy, PartialEq, Eq, Structural)]
pub struct UpdateSchedule {
    pub hour: i32,
    pub weekday: i32,
}

impl UpdateSchedule {
    /// The ranges a schedule's fields must lie in.
    pub open spec fn wf(&self) -> bool {
        0 <= self.hour <= 23 && -1 <= self.weekday <= 6
    }

    /// Whether the schedule is the disabled sentinel.
    pub fn is_disabled(&self) -> (d: bool)
        ensures
            d == (self.weekday == -1),
    {
        self.weekday == -1
    }
}

/// An instant of local civil time: whole days since 1970-01-01 (a
/// Thursday) in the caller's time zone, plus seconds into the day.
#[derive(Debug, Clone, Copy, PartialEq, Eq, Structural)]
pub struct LocalInstant {
    pub days: u64,
    pub secs: u32,
}

/// The day of week of a civil day number: 0 is Sunday.  Day 0 of the
/// epoch is a Thursday, day of week 4.
pub open spec fn weekday_of(days: int) -> int {
    (days + 4) % 7
}

impl LocalInstant {
    /// The seconds-into-day field stays within one day.
    pub open spec fn wf(&self) -> bool {
        self.secs < 86400
    }

    /// The instant on a linear scale, for comparing instants.
    pub open spec fn total_secs(&self) -> int {
        self.days * 86400 + self.secs
    }
}

/// The next instant at which the schedule fires strictly after `now`:
/// the next occurrence of the scheduled weekday at the scheduled hour
/// (h:00:00).  It is never more than 7 days in the future, and a
/// disabled schedule never fires.
pub fn next_trigger(now: LocalInstant, sched: UpdateSchedule) -> (r: Option<LocalInstant>)
    requires
        now.wf(),
        sched.wf(),
        now.days + 7 <= u64::MAX,
    ensures
        (sched.weekday == -1) <==> r is None,
        r matches Some(t) ==> {
            &&& t.wf()
            &&& weekday_of(t.days as int) == sched.weekday
            &&& t.secs == sched.hour * 3600
            &&& now.total_secs() < t.total_secs()
            &&& t.total_secs() - now.total_secs() <= 604800
        },
{
    if sched.weekday == -1 {
        return None;
    }
    let target_secs: u32 = (sched.hour as u32) * 3600;
    let dow: u64 = (now.days % 7 + 4) % 7;
    proof {
        lemma_mod_division_less_than_divisor(now.days as int, 7);
        lemma_small_mod(4nat, 7nat);
        lemma_add_mod_noop(now.days as int, 4, 7);
        assert(dow == weekday_of(now.days as int));
        assert(0 <= dow < 7) by {
            lemma_mod_division_less_than_divisor(now.days % 7 + 4, 7);
        }
    }
    let w: u64 = sched.weekday as u64;
    let offset: u64 = (w + 7 - dow) % 7;
    proof {
        lemma_mod_division_less_than_divisor((w + 7 - dow) as int, 7);
    }
    let delta: u64 = if offset == 0 && now.secs >= target_secs {
        7
    } else {
        offset
    };
    let t = LocalInstant { days: now.days + delta, secs: target_secs };
    proof {
        // The chosen day lands on the scheduled weekday.
        lemma_small_mod(dow as nat, 7nat);
        lemma_add_mod_noop(dow as int, (w + 7 - dow) as int, 7);
        lemma_mod_add_multiples_vanish(w as int, 7);
        lemma_small_mod(w as nat, 7nat);
        assert((dow + offset) % 7 == w as int);
        lemma_add_mod_noop(now.days + 4, delta as int, 7);
        lemma_small_mod(offset as nat, 7nat);
        if delta == 7 {
            assert(offset == 0);
            assert((dow + 0) % 7 == w as int);
            assert(dow == w as int);
            lemma_mod_add_multiples_vanish((now.days + 4) as int, 7);
            assert(weekday_of(t.days as int) == weekday_of(now.days as int));
        } else {
            assert((weekday_of(now.days as int) + delta % 7) % 7 == weekday_of(t.days as int));
            assert(weekday_of(t.days as int) == (dow + offset) % 7);
        }
    }
    Some(t)
}

/// What one run of the unattended updater reports to its per-run log.
pub enum UpdateEvent {
    /// The refresh is about to run.
    Started,
    /// The refresh succeeded; the summary carries the new entry count.
    Finished(String),
    /// The refresh failed for the given reason.
    Error(String),
}

/// One newline-terminated, human-readable status line of the per-run
/// update log, led by the caller's timestamp.
pub fn update_log_line(timestamp: &str, event: &UpdateEvent) -> (line: String)
    ensures
        event is Started ==> line@ == timestamp@ + " DB update started\n"@,
        event matches UpdateEvent::Finished(summary) ==> line@ == timestamp@
            + " DB update finished "@ + summary@ + "\n"@,
        event matches UpdateEvent::Error(reason) ==> line@ == timestamp@ + " DB update error "@
            + reason@ + "\n"@,
{
    let mut line = timestamp.to_owned();
    match event {
        UpdateEvent::Started => {
            line.append(" DB update started\n");
        },
        UpdateEvent::Finished(summary) => {
            line.append(" DB update finished ");
            line.append(summary.as_str());
            line.append("\n");
        },
        UpdateEvent::Error(reason) => {
            line.append(" DB update error ");
            line.append(reason.as_str());
            line.append("\n");
        },
    }
    line
}

} // verus!
