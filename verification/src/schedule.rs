//! The next-run calculator: when a task runs next, from its schedule, the
//! time it was last due and the present.

use vstd::prelude::*;
use vstd::string::StringExecFns;
use crate::text::strip_prefix;

verus! {

/// Why no next run could be planned.
#[derive(Debug, PartialEq, Eq)]
pub enum ScheduleError {
    /// The schedule cannot be read, or asks for an interval of no length.
    InvalidSchedule(String),
    /// The schedule was read but gives no time that can be stored.
    ScheduleCalculation(String),
}

/// The outcome of planning: the instant, or the kind of error with its wording.
pub enum Planned {
    At(int),
    Invalid(Seq<char>),
    Incalculable(Seq<char>),
}

/// The outcome that a result stands for.
pub open spec fn planned(result: Result<i32, ScheduleError>) -> Planned {
    match result {
        Ok(at) => Planned::At(at as int),
        Err(ScheduleError::InvalidSchedule(wording)) => Planned::Invalid(wording@),
        Err(ScheduleError::ScheduleCalculation(wording)) => Planned::Incalculable(wording@),
    }
}

/// What `duration_str::parse` makes of a text: the whole seconds of the
/// duration it reads, or its message.
pub uninterp spec fn parsed_duration(text: Seq<char>) -> Result<int, Seq<char>>;

/// What the `cron` crate makes of an expression and an instant: the first
/// time after the instant at which the expression fires, nothing where it
/// never fires again, or the parser's message.
pub uninterp spec fn cron_fire_after(expression: Seq<char>, after: int) -> Result<
    Option<int>,
    Seq<char>,
>;

/// The model of a parsed duration as the calculator receives it.
pub open spec fn duration_model(parsed: Result<u64, String>) -> Result<int, Seq<char>> {
    match parsed {
        Ok(seconds) => Ok(seconds as int),
        Err(message) => Err(message@),
    }
}

/// The model of a cron answer as the calculator receives it.
pub open spec fn fire_model(fire: Result<Option<i64>, String>) -> Result<Option<int>, Seq<char>> {
    match fire {
        Ok(Some(at)) => Ok(Some(at as int)),
        Ok(None) => Ok(None),
        Err(message) => Err(message@),
    }
}

/// Calls `duration_str::parse` on `text` and keeps the whole seconds
/// (`Duration::as_secs`) or the error message. The result is a function of
/// the text alone.
#[verifier::external_body]
fn parse_duration_seconds(text: &str) -> (parsed: Result<u64, String>)
    ensures
        duration_model(parsed) == parsed_duration(text@),
{
    duration_str::parse(text).map(|d| d.as_secs())
}

/// Parses `expression` with `cron::Schedule::from_str` and asks
/// `Schedule::after` for the first fire time after the instant `after`
/// (seconds since the epoch, UTC), which `chrono::DateTime::from_timestamp`
/// builds for every instant of 32 bits. The search starts one second after
/// the instant, so a fire time lies strictly after it. The result is a
/// function of the expression and the instant alone.
#[verifier::external_body]
fn cron_first_after(expression: &str, after: i32) -> (fire: Result<Option<i64>, String>)
    ensures
        fire_model(fire) == cron_fire_after(expression@, after as int),
        fire matches Ok(Some(at)) ==> at > after,
{
    let schedule = <cron::Schedule as std::str::FromStr>::from_str(expression).map_err(|e| e.to_string())?;
    let from = chrono::DateTime::from_timestamp(i64::from(after), 0).unwrap_or_default();
    Ok(schedule.after(&from).next().map(|at| at.timestamp()))
}

/// Reads the clock: `chrono::Utc::now().timestamp()`. Nothing is known of
/// the value.
#[verifier::external_body]
fn unix_now() -> i64 {
    chrono::Utc::now().timestamp()
}

/// The word that opens an interval schedule.
pub open spec fn every_prefix() -> Seq<char> {
    "@every "@
}

/// Whether a schedule asks for a fixed interval.
pub open spec fn is_interval(schedule: Seq<char>) -> bool {
    every_prefix().is_prefix_of(schedule)
}

/// The duration text of an interval schedule.
pub open spec fn interval_text(schedule: Seq<char>) -> Seq<char> {
    schedule.subrange(every_prefix().len() as int, schedule.len() as int)
}

/// The number of whole intervals from `start` to the first one that ends
/// after `now`.
pub open spec fn interval_steps(start: int, delta: int, now: int) -> int {
    if now < start {
        1
    } else {
        (now - start) / delta + 1
    }
}

/// The first instant `start + k * delta`, `k >= 1`, that lies after `now`.
pub open spec fn interval_next(start: int, delta: int, now: int) -> int {
    start + interval_steps(start, delta, now) * delta
}

/// A planned instant is never in the past and must fit the stored width.
pub open spec fn settle(at: int, now: int) -> Planned {
    let at_or_now = if at < now { now } else { at };
    if i32::MIN <= at_or_now <= i32::MAX {
        Planned::At(at_or_now)
    } else {
        Planned::Incalculable("Next run timestamp exceeds i32 range"@)
    }
}

/// The plan for an interval schedule whose duration text was parsed to `parsed`.
pub open spec fn interval_plan(parsed: Result<int, Seq<char>>, start: int, now: int) -> Planned {
    match parsed {
        Err(wording) => Planned::Invalid(wording),
        Ok(delta) => if delta <= 0 {
            Planned::Invalid("Interval duration cannot be zero"@)
        } else {
            settle(interval_next(start, delta, now), now)
        },
    }
}

/// The plan for a cron schedule whose first fire time is `fire`.
pub open spec fn cron_plan(fire: Result<Option<int>, Seq<char>>, now: int) -> Planned {
    match fire {
        Err(wording) => Planned::Invalid(wording),
        Ok(None) => Planned::Incalculable("Failed to calculate next run"@),
        Ok(Some(at)) => settle(at, now),
    }
}

/// The plan for a task last due at `start`, seen at `now`.
pub open spec fn next_run_plan(schedule: Option<Seq<char>>, start: int, now: int) -> Planned {
    match schedule {
        None => settle(start, now),
        Some(text) => if is_interval(text) {
            interval_plan(parsed_duration(interval_text(text)), start, now)
        } else {
            cron_plan(cron_fire_after(text, start), now)
        },
    }
}

/// The plan for a start time that a caller supplies: one that is not in
/// the past stands as it is.
pub open spec fn input_plan(schedule: Option<Seq<char>>, start: int, now: int) -> Planned {
    if start >= now {
        Planned::At(start)
    } else {
        next_run_plan(schedule, start, now)
    }
}

/// The text of an optional schedule.
pub open spec fn schedule_model(schedule: Option<String>) -> Option<Seq<char>> {
    match schedule {
        Some(text) => Some(text@),
        None => None,
    }
}

/// `interval_next` is the least `start + k * delta` with `k >= 1` that lies
/// after `now`.
pub proof fn interval_next_is_least(start: int, delta: int, now: int, k: int)
    requires
        delta > 0,
    ensures
        interval_steps(start, delta, now) >= 1,
        interval_next(start, delta, now) > now,
        interval_next(start, delta, now) > start,
        (k >= 1 && start + k * delta > now) ==> k >= interval_steps(start, delta, now),
{
    let steps = interval_steps(start, delta, now);
    if now < start {
        assert(steps * delta == delta);
        if k >= 1 {
            assert(k >= steps);
        }
    } else {
        let diff = now - start;
        let q = diff / delta;
        vstd::arithmetic::div_mod::lemma_fundamental_div_mod(diff, delta);
        vstd::arithmetic::div_mod::lemma_mod_bound(diff, delta);
        assert(q >= 0) by (nonlinear_arith)
            requires
                diff >= 0,
                delta > 0,
                diff == delta * q + diff % delta,
                0 <= diff % delta < delta,
        ;
        assert((q + 1) * delta == delta * q + delta) by (nonlinear_arith);
        assert((q + 1) * delta > 0) by (nonlinear_arith)
            requires
                q >= 0,
                delta > 0,
        ;
        if k >= 1 && start + k * delta > now {
            assert(k >= q + 1) by (nonlinear_arith)
                requires
                    k * delta > diff,
                    diff == delta * q + diff % delta,
                    0 <= diff % delta < delta,
                    delta > 0,
            ;
        }
    }
}

/// A planned instant is never before `now`.
pub proof fn planned_run_is_not_in_the_past(schedule: Option<Seq<char>>, start: int, now: int)
    ensures
        next_run_plan(schedule, start, now) matches Planned::At(at) ==> at >= now,
        input_plan(schedule, start, now) matches Planned::At(at) ==> at >= now,
{
}

/// A cron schedule that fires within a minute of a start in the past runs
/// within a minute from now.
pub proof fn fire_within_a_minute_runs_within_a_minute(fire: int, start: int, now: int)
    requires
        start < fire <= start + 60,
        start <= now,
    ensures
        cron_plan(Ok(Some(fire)), now) matches Planned::At(at) ==> now <= at <= now + 60,
        cron_plan(Ok(Some(fire)), now) matches Planned::At(at) ==> (fire <= now ==> at == now),
        (i32::MIN <= now && now <= i32::MAX && fire <= i32::MAX) ==> cron_plan(
            Ok(Some(fire)),
            now,
        ) is At,
{
}

/// An interval schedule moves a task forward: the planned instant lies
/// after the instant the task was last due.
pub proof fn interval_moves_forward(parsed: Result<int, Seq<char>>, start: int, now: int)
    ensures
        interval_plan(parsed, start, now) matches Planned::At(at) ==> at > start && at > now,
{
    if let Ok(delta) = parsed {
        if delta > 0 {
            interval_next_is_least(start, delta, now, 1);
        }
    }
}

/// Splits an interval schedule into its opening word and its duration text.
pub fn interval_suffix(schedule: &str) -> (suffix: Option<&str>)
    ensures
        match suffix {
            Some(text) => is_interval(schedule@) && text@ == interval_text(schedule@),
            None => !is_interval(schedule@),
        },
{
    strip_prefix(schedule, "@every ")
}

/// Holds a planned instant to the present and to the stored width.
pub fn settle_next_run(at: i128, now: i64) -> (result: Result<i32, ScheduleError>)
    ensures
        planned(result) == settle(at as int, now as int),
{
    let at_or_now: i128 = if at < now as i128 { now as i128 } else { at };
    if -2147483648 <= at_or_now && at_or_now <= 2147483647 {
        Ok(at_or_now as i32)
    } else {
        Err(
            ScheduleError::ScheduleCalculation(
                String::from_str("Next run timestamp exceeds i32 range"),
            ),
        )
    }
}

/// The next run of an interval schedule, from what the duration parser made
/// of its text.
pub fn interval_next_run(parsed: Result<u64, String>, start_at: i32, now: i64) -> (result: Result<
    i32,
    ScheduleError,
>)
    ensures
        planned(result) == interval_plan(duration_model(parsed), start_at as int, now as int),
        result matches Ok(at) ==> at > start_at && at > now,
{
    match parsed {
        Err(message) => Err(ScheduleError::InvalidSchedule(message)),
        Ok(delta) => {
            if delta == 0 {
                return Err(
                    ScheduleError::InvalidSchedule(
                        String::from_str("Interval duration cannot be zero"),
                    ),
                );
            }
            proof {
                interval_next_is_least(start_at as int, delta as int, now as int, 1);
            }
            if now < start_at as i64 {
                assert(interval_steps(start_at as int, delta as int, now as int) * (delta as int)
                    == delta as int);
                settle_next_run(start_at as i128 + delta as i128, now)
            } else {
                let diff: u128 = (now as i128 - start_at as i128) as u128;
                let step: u128 = delta as u128;
                let whole: u128 = diff / step;
                proof {
                    let d: int = diff as int;
                    let s: int = step as int;
                    vstd::arithmetic::div_mod::lemma_fundamental_div_mod(d, s);
                    vstd::arithmetic::div_mod::lemma_mod_bound(d, s);
                    assert((d / s + 1) * s == s * (d / s) + s) by (nonlinear_arith);
                    assert(s * (d / s) <= d);
                    assert(d / s <= d) by (nonlinear_arith)
                        requires
                            s > 0,
                            d >= 0,
                            d == s * (d / s) + d % s,
                            0 <= d % s < s,
                    ;
                }
                let ahead: u128 = (whole + 1) * step;
                settle_next_run(start_at as i128 + ahead as i128, now)
            }
        },
    }
}

/// The next run of a cron schedule, from the first fire time that the cron
/// reader gave.
pub fn cron_next_run(fire: Result<Option<i64>, String>, now: i64) -> (result: Result<
    i32,
    ScheduleError,
>)
    ensures
        planned(result) == cron_plan(fire_model(fire), now as int),
        result matches Ok(at) ==> at >= now && (fire matches Ok(Some(first)) && at >= first),
{
    match fire {
        Err(message) => Err(ScheduleError::InvalidSchedule(message)),
        Ok(None) => Err(
            ScheduleError::ScheduleCalculation(String::from_str("Failed to calculate next run")),
        ),
        Ok(Some(at)) => settle_next_run(at as i128, now),
    }
}

/// When a task with this schedule, last due at `start_at`, runs next, seen
/// at `now`. A task without a schedule keeps its time; an interval moves to
/// its first multiple after `now`; a cron expression moves to its first
/// fire time after `start_at`. The result is never before `now`.
pub fn next_run_at(schedule: &Option<String>, start_at: i32, now: i64) -> (result: Result<
    i32,
    ScheduleError,
>)
    ensures
        planned(result) == next_run_plan(schedule_model(*schedule), start_at as int, now as int),
        result matches Ok(at) ==> at >= now && at >= start_at,
        result matches Ok(at) ==> (schedule is Some ==> at > start_at),
{
    match schedule {
        None => settle_next_run(start_at as i128, now),
        Some(text) => {
            match interval_suffix(text.as_str()) {
                Some(duration) => interval_next_run(parse_duration_seconds(duration), start_at, now),
                None => cron_next_run(cron_first_after(text.as_str(), start_at), now),
            }
        },
    }
}

/// The start time to store for one that a caller supplies: it stands where
/// it is not in the past, and is moved as `next_run_at` moves it otherwise.
pub fn next_execution_time_at(schedule: &Option<String>, start_at: i32, now: i64) -> (result:
    Result<i32, ScheduleError>)
    ensures
        planned(result) == input_plan(schedule_model(*schedule), start_at as int, now as int),
        result matches Ok(at) ==> at >= now && at >= start_at,
{
    if start_at as i64 >= now {
        Ok(start_at)
    } else {
        next_run_at(schedule, start_at, now)
    }
}

/// `next_run_at` at the present time: the plan for the instant that the
/// clock gave. Whatever the clock says, a task is never moved back, and a
/// recurring task is moved forward.
pub fn calculate_next_run(schedule: &Option<String>, start_at: i32) -> (result: Result<
    i32,
    ScheduleError,
>)
    ensures
        exists|now: i64|
            planned(result) == #[trigger] next_run_plan(
                schedule_model(*schedule),
                start_at as int,
                now as int,
            ),
        result matches Ok(at) ==> at >= start_at && (schedule is Some ==> at > start_at),
        schedule is None ==> !(planned(result) is Invalid),
{
    let now = unix_now();
    let result = next_run_at(schedule, start_at, now);
    assert(planned(result) == next_run_plan(schedule_model(*schedule), start_at as int, now as int));
    result
}

/// `next_execution_time_at` at the present time: the plan for the instant that the clock gave.
pub fn calculate_next_execution_time(schedule: &Option<String>, start_at: i32) -> (result: Result<
    i32,
    ScheduleError,
>)
    ensures
        exists|now: i64|
            planned(result) == #[trigger] input_plan(
                schedule_model(*schedule),
                start_at as int,
                now as int,
            ),
        result matches Ok(at) ==> at >= start_at,
        schedule is None ==> !(planned(result) is Invalid),
{
    let now = unix_now();
    let result = next_execution_time_at(schedule, start_at, now);
    assert(planned(result) == input_plan(schedule_model(*schedule), start_at as int, now as int));
    result
}

} // verus!
