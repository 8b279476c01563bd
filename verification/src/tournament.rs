//! Weekly tournaments: week `w` runs from `start + w` weeks to
//! `start + (w + 1)` weeks, counted in seconds since the Unix epoch.
use std::time::{Duration, SystemTime};
use vstd::prelude::*;
use crate::clock::{duration_secs, epoch_offset, epoch_plus, instant_elapsed, instant_now, system_time_elapsed};

verus! {

/// Seconds in a week.
pub const WEEK_SECS: u64 = 604800;

/// How long to keep asking the clock before giving up, in seconds.
pub const GET_TOURNAMENT_ERR_SECS: u64 = 1;

/// The current week of the tournament and when it starts and ends.
#[derive(Clone, Copy, Debug, PartialEq, Eq)]
pub struct TournamentData {
    pub week: u64,
    pub start_time: u64,
    pub end_time: u64,
}

/// The tournament week that `elapsed` seconds after the first start fall
/// in, with its start and end in seconds since the epoch.
pub open spec fn week_data(elapsed: nat, start: nat) -> (nat, nat, nat) {
    let week = elapsed / WEEK_SECS as nat;
    (week, week * (WEEK_SECS as nat) + start, (week + 1) * (WEEK_SECS as nat) + start)
}

/// Whether the end of the week that `elapsed` falls in fits in a `u64`.
pub open spec fn week_fits(elapsed: nat, start: nat) -> bool {
    week_data(elapsed, start).2 <= u64::MAX
}

/// The tournament week `elapsed_secs` seconds after the tournament began at
/// `start_secs` seconds past the epoch.
pub fn tournament_week_at(elapsed_secs: u64, start_secs: u64) -> (r: TournamentData)
    requires
        week_fits(elapsed_secs as nat, start_secs as nat),
    ensures
        (r.week as nat, r.start_time as nat, r.end_time as nat) == week_data(
            elapsed_secs as nat,
            start_secs as nat,
        ),
{
    let week = elapsed_secs / WEEK_SECS;
    assert(week * WEEK_SECS <= (week + 1) * WEEK_SECS) by (nonlinear_arith);
    TournamentData {
        week,
        start_time: week * WEEK_SECS + start_secs,
        end_time: (week + 1) * WEEK_SECS + start_secs,
    }
}

/// Where a week starts and ends: its start is a whole number of weeks
/// after the first start, and it lasts exactly one week.
pub proof fn law_week_is_one_week_long(elapsed: nat, start: nat)
    ensures
        week_data(elapsed, start).2 == week_data(elapsed, start).1 + WEEK_SECS,
        week_data(elapsed, start).1 <= elapsed + start < week_data(elapsed, start).2,
{
    let w = elapsed / 604800;
    assert(w * 604800 <= elapsed < (w + 1) * 604800) by (nonlinear_arith)
        requires
            w == elapsed / 604800,
    ;
    assert((w + 1) * 604800 == w * 604800 + 604800) by (nonlinear_arith);
}

/// What one look at the clock decides while the current week is sought.
#[derive(Clone, Copy, Debug, PartialEq, Eq)]
pub enum WeekStep {
    /// Stop with this answer.
    Done(Option<TournamentData>),
    /// The clock showed the start in the future; look again.
    Retry,
}

/// The decision after one look at the clock: `reading` is the whole
/// seconds since the start, or `None` where the clock showed the start in
/// the future; `waited_secs` is how long the search has run. A reading
/// gives its week, or `None` where the week's end does not fit in a `u64`;
/// no reading gives up after `GET_TOURNAMENT_ERR_SECS` and looks again
/// before then.
pub open spec fn week_step_of(reading: Option<u64>, waited_secs: u64, start_secs: u64) -> WeekStep {
    match reading {
        Some(e) => if week_fits(e as nat, start_secs as nat) {
            let w = week_data(e as nat, start_secs as nat);
            WeekStep::Done(Some(TournamentData { week: w.0 as u64, start_time: w.1 as u64, end_time: w.2 as u64 }))
        } else {
            WeekStep::Done(None)
        },
        None => if waited_secs >= GET_TOURNAMENT_ERR_SECS {
            WeekStep::Done(None)
        } else {
            WeekStep::Retry
        },
    }
}

/// The decision after one look at the clock; see `week_step_of`.
pub fn week_step(reading: Option<u64>, waited_secs: u64, start_secs: u64) -> (r: WeekStep)
    ensures
        r == week_step_of(reading, waited_secs, start_secs),
{
    match reading {
        Some(e) => {
            let week = e / WEEK_SECS;
            assert(week * WEEK_SECS <= (week + 1) * WEEK_SECS) by (nonlinear_arith);
            assert(week == week_data(e as nat, start_secs as nat).0);
            if week >= u64::MAX / WEEK_SECS {
                assert((week + 1) * WEEK_SECS > u64::MAX) by (nonlinear_arith)
                    requires
                        week >= u64::MAX / WEEK_SECS,
                ;
                return WeekStep::Done(None);
            }
            assert((week + 1) * WEEK_SECS <= u64::MAX) by (nonlinear_arith)
                requires
                    week < u64::MAX / WEEK_SECS,
            ;
            let end_weeks = (week + 1) * WEEK_SECS;
            if u64::MAX - end_weeks < start_secs {
                return WeekStep::Done(None);
            }
            WeekStep::Done(Some(tournament_week_at(e, start_secs)))
        },
        None => if waited_secs >= GET_TOURNAMENT_ERR_SECS {
            WeekStep::Done(None)
        } else {
            WeekStep::Retry
        },
    }
}

/// The weekly tournament, counted from a start given as time since the
/// Unix epoch.
#[derive(Clone, Copy)]
pub struct Tournament {
    start_time: Option<SystemTime>,
    start_secs: u64,
}

impl Tournament {
    /// The whole seconds of the start, past the epoch.
    pub closed spec fn start_secs(&self) -> u64 {
        self.start_secs
    }

    /// The moment the first week starts, where the platform can hold it.
    pub closed spec fn start_instant(&self) -> Option<SystemTime> {
        self.start_time
    }

    /// A tournament whose first week starts `start_time` after the epoch.
    /// It reads no clock: the same start always gives the same tournament.
    pub fn new(start_time: Duration) -> (r: Tournament)
        ensures
            r.start_instant() == epoch_offset(start_time),
            r.start_secs() == duration_secs(start_time),
    {
        Tournament { start_time: epoch_plus(start_time), start_secs: start_time.as_secs() }
    }

    /// The current tournament week: the clock is asked how long ago
    /// `start_instant()` was, and the whole seconds of that answer pick the
    /// week. Each look is decided by `week_step`: it asks again while the
    /// clock shows the start in the future, for up to a second, then gives
    /// up with `None`; a week whose end does not fit in a `u64` is `None`.
    /// A start the platform cannot hold gives `None` at once. Which week
    /// comes back rests on the clock; where one does, it is what
    /// `week_step` gives for some reading of it.
    pub fn get_tournament_week(&self) -> (r: Option<TournamentData>)
        ensures
            self.start_instant() is None ==> r is None,
            r matches Some(d) ==> exists|reading: u64|
                #![trigger week_step_of(Some(reading), 0, self.start_secs())]
                week_step_of(Some(reading), 0, self.start_secs()) == WeekStep::Done(Some(d)),
    {
        let start = match &self.start_time {
            Some(t) => t,
            None => return None,
        };
        let now = instant_now();
        let mut attempts: u64 = 0;
        loop
            invariant
                attempts <= u64::MAX,
                self.start_time is Some,
            decreases u64::MAX - attempts,
        {
            let reading = match system_time_elapsed(start) {
                Some(d) => Some(d.as_secs()),
                None => None,
            };
            let waited = match reading {
                Some(_) => 0,
                None => instant_elapsed(&now).as_secs(),
            };
            match week_step(reading, waited, self.start_secs) {
                WeekStep::Done(r) => {
                    if let Some(e) = reading {
                        assert(week_step_of(Some(e), 0, self.start_secs()) == week_step_of(
                            reading,
                            waited,
                            self.start_secs(),
                        ));
                    }
                    return r;
                },
                WeekStep::Retry => {},
            }
            if attempts == u64::MAX {
                return None;
            }
            attempts = attempts + 1;
        }
    }
}

/// A tournament is fixed by its start: two with the same start moment and
/// the same whole seconds of it are the same tournament, so `new` on equal
/// durations gives equal tournaments, which ask the clock about the same
/// moment.
pub proof fn law_tournament_fixed_by_start(a: Tournament, b: Tournament)
    requires
        a.start_instant() == b.start_instant(),
        a.start_secs() == b.start_secs(),
    ensures
        a == b,
{
}

} // verus!
