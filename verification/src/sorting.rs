//! The sorter and its schedule: at most one recurring timer at a time.

use crate::config::{Config, MAX_INTERVAL, MAX_START, MIN_INTERVAL, MIN_START};
use vstd::prelude::*;
use vstd::string::*;

verus! {

/// `timer::Timer`: the two threads that wait for the next run and make
/// it.
#[verifier::external_type_specification]
#[verifier::external_body]
pub struct ExTimer(timer::Timer);

/// `timer::Guard`: the handle of one schedule. Dropping it calls the
/// schedule off.
#[verifier::external_type_specification]
#[verifier::external_body]
pub struct ExGuard(timer::Guard);

/// The schedules that a `timer::Timer` was handed since it was made,
/// in the order in which they came: for each the first run, in seconds
/// since 1970-01-01T00:00:00Z, and the interval from run to run, in
/// days. A schedule stays in this list when its guard is dropped: the
/// list says what was asked of the timer, not what it will still run.
pub uninterp spec fn registered(timer: timer::Timer) -> Seq<(int, int)>;

/// `timer::Timer::new` starts the timer's threads with an empty queue:
/// nothing is registered on the timer it returns.
pub assume_specification[ timer::Timer::new ]() -> (timer: timer::Timer)
    ensures
        registered(timer) == Seq::<(int, int)>::empty(),
;

/// Hands a job to `timer::Timer::schedule`, to be run first at `start`
/// (seconds since 1970-01-01T00:00:00Z, turned into a date with
/// `chrono::DateTime::from_timestamp`) and then every `days` days
/// (`chrono::Duration::days`): one schedule more is registered on the
/// timer, with these two values.
///
/// The bounds keep both conversions from panicking. `schedule` itself
/// panics where the timer's threads have died, as they do after a job
/// that panicked; a timer on which nothing was registered has run no
/// job, and only such a timer is taken. Nothing is claimed of the
/// guard that comes back.
#[verifier::external_body]
fn arm<F: 'static + FnMut() + Send>(
    timer: &mut timer::Timer,
    start: i64,
    days: i64,
    job: F,
) -> (guard: timer::Guard)
    requires
        MIN_START <= start <= MAX_START,
        MIN_INTERVAL <= days <= MAX_INTERVAL,
        registered(*old(timer)).len() == 0,
    ensures
        registered(*final(timer)) == registered(*old(timer)).push((start as int, days as int)),
{
    let date = chrono::DateTime::from_timestamp(start, 0).unwrap();
    timer.schedule(date, Some(chrono::Duration::days(days)), job)
}

/// Sorts a downloads directory on a schedule. It is either idle, with
/// a timer on which nothing is registered, or holds the guard of the
/// one schedule that is registered on its timer.
pub struct Sorter {
    guard: Option<timer::Guard>,
    timer: timer::Timer,
}

/// What `schedule_sorting` answers while a schedule is active.
pub open spec fn already_scheduled() -> Seq<char> {
    "Sorting is already scheduled"@
}

/// The line that reports a pass that went through without a failure.
pub open spec fn success_line() -> Seq<char> {
    "Sorting finished successfully!"@
}

/// The line that reports a pass in which something failed.
pub open spec fn failure_line() -> Seq<char> {
    "Sorting finished with errors!"@
}

/// What the reader of the outcomes makes of one read: the line to
/// report for the outcome of a pass, or nothing where the read found
/// the stream closed. A closed stream means that scheduling has ended,
/// not that a pass failed, and the reader stops there.
pub fn outcome_line(received: Option<bool>) -> (line: Option<&'static str>)
    ensures
        match received {
            Some(true) => line is Some && line->0@ == success_line(),
            Some(false) => line is Some && line->0@ == failure_line(),
            None => line is None,
        },
{
    match received {
        Some(true) => Some("Sorting finished successfully!"),
        Some(false) => Some("Sorting finished with errors!"),
        None => None,
    }
}

impl Sorter {
    #[verifier::type_invariant]
    spec fn well_formed(&self) -> bool {
        match self.guard {
            Some(_) => registered(self.timer).len() == 1,
            None => registered(self.timer).len() == 0,
        }
    }

    /// Whether a schedule is active.
    pub closed spec fn is_scheduled(&self) -> bool {
        self.guard is Some
    }

    /// What the sorter's timer is armed with: the first run, in seconds
    /// since 1970-01-01T00:00:00Z, and the interval in days of each
    /// schedule registered on it.
    pub closed spec fn armed(&self) -> Seq<(int, int)> {
        registered(self.timer)
    }

    /// An idle sorter, with a timer of its own on which nothing is
    /// registered.
    pub fn new() -> (sorter: Sorter)
        ensures
            !sorter.is_scheduled(),
            sorter.armed() == Seq::<(int, int)>::empty(),
    {
        Sorter { guard: None, timer: timer::Timer::new() }
    }

    /// Whether a schedule is active.
    pub fn scheduled(&self) -> (active: bool)
        ensures
            active == self.is_scheduled(),
    {
        self.guard.is_some()
    }

    /// Schedules `job` to run first at the configuration's start and
    /// then once per interval, until the schedule is stopped: a timer
    /// is armed with exactly this one schedule. While a schedule is
    /// active a second one is refused, and the sorter stays exactly as
    /// it was.
    pub fn schedule_sorting<F: 'static + FnMut() + Send>(&mut self, conf: &Config, job: F) -> (r:
        Result<(), String>)
        ensures
            old(self).is_scheduled() ==> r is Err && r->Err_0@ == already_scheduled(),
            old(self).is_scheduled() ==> *final(self) == *old(self),
            !old(self).is_scheduled() ==> r is Ok && final(self).is_scheduled(),
            !old(self).is_scheduled() ==> final(self).armed() == seq![
                (conf@.start_datetime, conf@.interval),
            ],
    {
        if self.guard.is_some() {
            return Err(String::from_str("Sorting is already scheduled"));
        }
        // The schedule goes on a timer of its own, on which no job has run.
        let mut timer = timer::Timer::new();
        let guard = arm(&mut timer, conf.start_datetime(), conf.interval(), job);
        *self = Sorter { guard: Some(guard), timer };
        Ok(())
    }

    /// Calls the schedule off, if there is one: its guard is dropped, so
    /// that no run starts after this, and its timer is let go for one
    /// on which nothing is registered, so that the job is dropped too.
    /// A run that is under way is left to finish.
    pub fn stop_scheduled_sorting(&mut self)
        ensures
            !final(self).is_scheduled(),
            final(self).armed() == Seq::<(int, int)>::empty(),
    {
        if self.guard.is_some() {
            *self = Sorter { guard: None, timer: timer::Timer::new() };
        } else {
            proof {
                use_type_invariant(&*self);
            }
        }
    }
}

} // verus!
