//! Recurring jobs on cron schedules.
//!
//! A schedule may be written with five fields (minute to day of week) or
//! with six (seconds first). Five-field schedules get a seconds field of
//! `0`. Parsing a schedule and finding its occurrences is the work of the
//! `cron` crate; this module decides what is handed to it and what follows
//! from its answers.

use vstd::prelude::*;
use crate::errors::{ErrorModel, InstanceError};
use crate::text::{chars_of, concat, result_view, white_space};

verus! {

// ---------------------------------------------------------------------------
// Normalising a schedule
// ---------------------------------------------------------------------------

/// Whether a field begins at position `i` of `s`: a character that is not
/// whitespace, at the start or behind whitespace.
pub open spec fn field_starts_at(s: Seq<char>, i: int) -> bool {
    0 <= i < s.len() && !white_space(s[i]) && (i == 0 || white_space(s[i - 1]))
}

/// The number of fields that begin before position `n` of `s`.
pub open spec fn fields_before(s: Seq<char>, n: nat) -> nat
    decreases n,
{
    if n == 0 {
        0
    } else {
        fields_before(s, (n - 1) as nat) + if field_starts_at(s, n - 1) {
            1nat
        } else {
            0nat
        }
    }
}

/// The number of whitespace-separated fields of `s`.
pub open spec fn field_count(s: Seq<char>) -> nat {
    fields_before(s, s.len())
}

/// The schedule that is handed to the parser: a schedule of exactly five
/// fields gets the seconds field `0` in front, any other is left as it is.
pub open spec fn normalized(schedule: Seq<char>) -> Seq<char> {
    if field_count(schedule) == 5 {
        "0 "@ + schedule
    } else {
        schedule
    }
}

/// The number of whitespace-separated fields of `schedule`.
pub fn count_fields(schedule: &str) -> (count: usize)
    ensures
        count == field_count(schedule@),
{
    let chars = chars_of(schedule);
    let mut count: usize = 0;
    let mut i: usize = 0;
    let mut after_space = true;
    while i < chars.len()
        invariant
            i <= chars.len(),
            chars@ == schedule@,
            count == fields_before(chars@, i as nat),
            count <= i,
            after_space == (i == 0 || white_space(chars@[i - 1])),
        decreases chars.len() - i,
    {
        let space = chars[i].is_whitespace();
        if !space && after_space {
            count += 1;
        }
        after_space = space;
        i += 1;
    }
    count
}

/// The schedule in the form that is handed to the parser.
pub fn normalize_schedule(schedule: &str) -> (adjusted: String)
    ensures
        adjusted@ == normalized(schedule@),
{
    if count_fields(schedule) == 5 {
        concat("0 ", schedule)
    } else {
        String::from_str(schedule)
    }
}

// ---------------------------------------------------------------------------
// Registering a job
// ---------------------------------------------------------------------------

/// Whether the `cron` crate accepts `expression` as a schedule.
pub uninterp spec fn cron_accepts(expression: Seq<char>) -> bool;

/// `cron::Schedule::from_str`: succeeds exactly on the expressions that the
/// crate accepts. On failure the crate's own description of the fault is
/// handed back; nothing is claimed about its wording.
#[verifier::external_body]
fn parse_schedule(expression: &str) -> (parsed: Result<(), String>)
    ensures
        parsed is Ok == cron_accepts(expression@),
{
    match <cron::Schedule as std::str::FromStr>::from_str(expression) {
        Ok(_) => Ok(()),
        Err(e) => Err(e.to_string()),
    }
}

/// A point in time: seconds since 1970-01-01T00:00:00Z, and nanoseconds
/// within the second.
#[derive(Clone, Copy, Debug, PartialEq, Eq, Structural)]
pub struct Moment {
    pub seconds: i64,
    pub nanos: u32,
}

impl Moment {
    /// The point in time in nanoseconds since 1970-01-01T00:00:00Z.
    pub open spec fn total_nanos(self) -> int {
        self.seconds * 1_000_000_000 + self.nanos
    }
}

/// A registered job: a name and a schedule that the parser accepts. The
/// handle remembers the occurrence it gave out last, so that occurrences
/// follow one another without gaps or repeats.
#[derive(Debug)]
pub struct ScheduledJob {
    pub name: String,
    pub schedule: String,
    pub last: Option<Moment>,
}

/// The mathematical content of a [`ScheduledJob`].
pub struct JobModel {
    pub name: Seq<char>,
    pub schedule: Seq<char>,
    pub last: Option<Moment>,
}

impl View for ScheduledJob {
    type V = JobModel;

    open spec fn view(&self) -> JobModel {
        JobModel { name: self.name@, schedule: self.schedule@, last: self.last }
    }
}

/// What the parser's verdict on a schedule means: a job where the
/// schedule was accepted, else a configuration error with the parser's
/// description of the fault.
pub open spec fn job_of(name: Seq<char>, schedule: Seq<char>, parsed: Result<(), Seq<char>>) -> Result<
    JobModel,
    ErrorModel,
> {
    match parsed {
        Ok(_) => Ok(JobModel { name, schedule, last: None }),
        Err(fault) => Err(ErrorModel::Config(fault)),
    }
}

/// Makes a job of a schedule and the parser's verdict on it: a schedule
/// that was refused yields a configuration error and no job.
pub fn job_from_verdict(name: &str, schedule: &str, parsed: Result<(), String>) -> (job: Result<
    ScheduledJob,
    InstanceError,
>)
    ensures
        result_view(job) == job_of(name@, schedule@, result_view(parsed)),
{
    match parsed {
        Ok(_) => Ok(
            ScheduledJob {
                name: String::from_str(name),
                schedule: String::from_str(schedule),
                last: None,
            },
        ),
        Err(fault) => Err(InstanceError::ConfigError(fault)),
    }
}

/// Makes a job of a schedule that is already in parser form. A schedule
/// that the parser refuses yields a configuration error and no job; other
/// jobs are not affected.
pub fn spawn_scheduled_job(name: &str, schedule_str: &str) -> (spawned: Result<
    ScheduledJob,
    InstanceError,
>)
    ensures
        match spawned {
            Ok(job) => cron_accepts(schedule_str@) && job@ == (JobModel {
                name: name@,
                schedule: schedule_str@,
                last: None,
            }),
            Err(e) => !cron_accepts(schedule_str@) && e is ConfigError,
        },
{
    job_from_verdict(name, schedule_str, parse_schedule(schedule_str))
}

/// Registers a job under `name`: the schedule is normalised to six fields
/// and parsed. A schedule that the parser refuses yields a configuration
/// error and no job.
pub fn register_job(name: &str, schedule: &str) -> (registered: Result<ScheduledJob, InstanceError>)
    ensures
        match registered {
            Ok(job) => cron_accepts(normalized(schedule@)) && job@ == (JobModel {
                name: name@,
                schedule: normalized(schedule@),
                last: None,
            }),
            Err(e) => !cron_accepts(normalized(schedule@)) && e is ConfigError,
        },
{
    let adjusted = normalize_schedule(schedule);
    spawn_scheduled_job(name, adjusted.as_str())
}

// ---------------------------------------------------------------------------
// Running a job
// ---------------------------------------------------------------------------

/// How often the host wakes while it has nothing else to do, in seconds.
pub const CRON_TICK_SECONDS: u64 = 60;

/// The last second, counted from 1970, for which occurrences are looked up:
/// 9999-12-31T23:59:59Z.
pub const LAST_SECOND: i64 = 253_402_300_799;

/// The first occurrence of the schedule `expression` after the given point
/// in time, as the `cron` crate computes it in UTC; `None` where there is
/// none.
pub uninterp spec fn cron_next_after(expression: Seq<char>, seconds: i64, nanos: u32) -> Option<
    (i64, u32),
>;

/// `cron::Schedule::after(..).next()` on the parsed `expression`, with the
/// starting point built by `chrono::DateTime::from_timestamp`. An
/// expression that the crate does not accept has no occurrence. The crate
/// adds one second to the starting point without a check, so the starting
/// point must lie well inside the range of dates.
#[verifier::external_body]
fn occurrence_after(expression: &str, seconds: i64, nanos: u32) -> (next: Option<(i64, u32)>)
    requires
        0 <= seconds <= LAST_SECOND,
    ensures
        next == cron_next_after(expression@, seconds, nanos),
        !cron_accepts(expression@) ==> next is None,
{
    let schedule = <cron::Schedule as std::str::FromStr>::from_str(expression).ok()?;
    let start = chrono::DateTime::from_timestamp(seconds, nanos)?;
    let next = schedule.after(&start).next()?;
    Some((next.timestamp(), next.timestamp_subsec_nanos()))
}

/// The time from `now` until `due` in nanoseconds; zero where `due` is not
/// in the future.
pub open spec fn wait_nanos(now: Moment, due: Moment) -> int {
    if due.total_nanos() > now.total_nanos() {
        due.total_nanos() - now.total_nanos()
    } else {
        0
    }
}

/// How long to sleep at `now` for a job that is due at `due`, in
/// nanoseconds. A job that is already due is not waited for.
pub fn wait_until(now: Moment, due: Moment) -> (nanos: u128)
    ensures
        nanos == wait_nanos(now, due),
{
    let from: i128 = (now.seconds as i128) * 1_000_000_000 + (now.nanos as i128);
    let to: i128 = (due.seconds as i128) * 1_000_000_000 + (due.nanos as i128);
    if to > from {
        (to - from) as u128
    } else {
        0
    }
}

/// The point in time after which the next occurrence of a job is looked
/// up: the occurrence given out last, or `now` for a job that has not run.
pub open spec fn lookup_base(job: JobModel, now: Moment) -> Moment {
    match job.last {
        Some(last) => last,
        None => now,
    }
}

/// The next occurrence of a job, looked up at `now`; `None` where the
/// schedule has no further occurrence or the base lies outside the range of
/// dates that is looked at.
pub open spec fn next_occurrence(job: JobModel, now: Moment) -> Option<Moment> {
    let base = lookup_base(job, now);
    if 0 <= base.seconds <= LAST_SECOND {
        occurrence_model(cron_next_after(job.schedule, base.seconds, base.nanos))
    } else {
        None
    }
}

/// The model of an occurrence as the parser's crate gives it.
pub open spec fn occurrence_model(found: Option<(i64, u32)>) -> Option<Moment> {
    match found {
        Some((seconds, nanos)) => Some(Moment { seconds, nanos }),
        None => None,
    }
}

impl ScheduledJob {
    /// Takes the occurrence that was found for the job, if any: remembers
    /// it and says how many nanoseconds to sleep at `now` before the job
    /// is run. The wait is zero for an occurrence that is already past.
    /// Without an occurrence the job has come to its end.
    pub fn take_occurrence(&mut self, now: Moment, found: Option<(i64, u32)>) -> (wait: Option<
        u128,
    >)
        ensures
            final(self)@.name == old(self)@.name,
            final(self)@.schedule == old(self)@.schedule,
            match occurrence_model(found) {
                Some(due) => final(self)@.last == Some(due) && wait == Some(
                    wait_nanos(now, due) as u128,
                ),
                None => final(self)@.last == old(self)@.last && wait is None,
            },
    {
        match found {
            Some((seconds, nanos)) => {
                let due = Moment { seconds, nanos };
                self.last = Some(due);
                Some(wait_until(now, due))
            },
            None => None,
        }
    }

    /// One turn of a job's loop, taken at `now`: finds the occurrence that
    /// follows the one given out last (or `now`, the first time), remembers
    /// it, and says how many nanoseconds to sleep before the job is run.
    /// The wait is zero for an occurrence that is already past. `None` ends
    /// the loop: the schedule has no further occurrence.
    pub fn next_wait(&mut self, now: Moment) -> (wait: Option<u128>)
        ensures
            final(self)@.name == old(self)@.name,
            final(self)@.schedule == old(self)@.schedule,
            match next_occurrence(old(self)@, now) {
                Some(due) => final(self)@.last == Some(due) && wait == Some(
                    wait_nanos(now, due) as u128,
                ),
                None => final(self)@.last == old(self)@.last && wait is None,
            },
    {
        let base = match self.last {
            Some(last) => last,
            None => now,
        };
        if base.seconds < 0 || base.seconds > LAST_SECOND {
            return None;
        }
        let found = occurrence_after(self.schedule.as_str(), base.seconds, base.nanos);
        self.take_occurrence(now, found)
    }
}

/// A job whose next occurrence is not in the future is run at once.
pub proof fn lemma_overdue_job_runs_at_once(now: Moment, due: Moment)
    requires
        due.total_nanos() <= now.total_nanos(),
    ensures
        wait_nanos(now, due) == 0,
{
}

/// Sleeping for the wait ends exactly when the job is due.
pub proof fn lemma_wait_ends_when_due(now: Moment, due: Moment)
    requires
        due.total_nanos() > now.total_nanos(),
    ensures
        now.total_nanos() + wait_nanos(now, due) == due.total_nanos(),
{
}

} // verus!
