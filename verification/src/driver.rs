//! The driver: the records of one environment, from the plan of a run to
//! the text of the file.
//!
//! A run covers the two years that end at the instant it starts. Every
//! environment gets the same number of records on the same schedule; what
//! differs between two environments is what was drawn at random.

use crate::entry::{generate_log_entry, LogEntry};
use crate::schedule::{
    interval_between, interval_per_log, lemma_fitting_schedule_is_representable,
    lemma_schedule_is_non_decreasing, lemma_schedule_stays_in_window, lemma_window_schedule_fits,
    schedule_fits, scheduled_nanos, scheduled_timestamp,
};
use crate::time::{chrono_now_unix_nanos, representable, Instant, Span, NANOS_PER_DAY};
use crate::writer::{
    lines_of, log_file_name, log_file_name_text, log_file_text, log_lines, render_logs,
};
use vstd::prelude::*;
use vstd::set_lib::set_int_range;

verus! {

/// The number of environments.
pub const ENVIRONMENT_COUNT: usize = 4;

/// The number of records that a run makes for each environment.
pub const LOG_COUNT_PER_ENVIRONMENT: u64 = 1_000_000;

/// The length of the window of a run, in days: two years of 365 days.
pub const LOOKBACK_DAYS: i64 = 730;

/// What the notice of a finished environment says before its name.
pub const COMPLETION_NOTICE_PREFIX: &'static str = "Logs generated for environment: ";

/// An environment for which records are made.
#[derive(Clone, Copy, Debug, PartialEq, Eq, Structural)]
pub enum Environment {
    Development,
    Testing,
    Acceptance,
    Production,
}

impl Environment {
    /// The environment at a place of the list `Development, Testing,
    /// Acceptance, Production`.
    pub open spec fn at(index: int) -> Environment {
        if index == 0 {
            Environment::Development
        } else if index == 1 {
            Environment::Testing
        } else if index == 2 {
            Environment::Acceptance
        } else {
            Environment::Production
        }
    }

    /// The name of the environment.
    pub open spec fn name_text(self) -> Seq<char> {
        match self {
            Environment::Development => "Development"@,
            Environment::Testing => "Testing"@,
            Environment::Acceptance => "Acceptance"@,
            Environment::Production => "Production"@,
        }
    }

    /// The name of the environment.
    pub fn name(&self) -> (name: &'static str)
        ensures
            name@ == self.name_text(),
    {
        match self {
            Environment::Development => "Development",
            Environment::Testing => "Testing",
            Environment::Acceptance => "Acceptance",
            Environment::Production => "Production",
        }
    }

    /// The environments, in the order of the list.
    pub fn all() -> (environments: Vec<Environment>)
        ensures
            environments@.len() == ENVIRONMENT_COUNT,
            forall|i: int|
                0 <= i < ENVIRONMENT_COUNT ==> #[trigger] environments@[i] == Environment::at(i),
    {
        let mut environments: Vec<Environment> = Vec::new();
        environments.push(Environment::Development);
        environments.push(Environment::Testing);
        environments.push(Environment::Acceptance);
        environments.push(Environment::Production);
        environments
    }
}

/// The window and the schedule of a run.
#[derive(Clone, Copy, Debug, PartialEq, Eq, Structural)]
pub struct RunPlan {
    /// The number of records for each environment.
    pub log_count: u64,
    /// The instant of the first record.
    pub start: Instant,
    /// The end of the window; no record lies after it.
    pub end: Instant,
    /// The interval between two records.
    pub interval: Span,
}

impl RunPlan {
    /// Whether this is the plan of the run of `log_count` records for each
    /// environment that starts at `now`: the window ends at `now` and began
    /// two years before, and the interval is that of the schedule over the
    /// window. Where there is no record there is no schedule: the interval
    /// is then 0.
    pub open spec fn is_plan_of(self, now: Instant, log_count: u64) -> bool {
        &&& self.log_count == log_count
        &&& self.end == now
        &&& self.start@ == now@ - LOOKBACK_DAYS * NANOS_PER_DAY
        &&& self.interval@ == if log_count == 0 {
            0
        } else {
            interval_between(self.start@, self.end@, log_count as int)
        }
    }
}

/// Whether a record lies on the schedule that begins at `start` and steps by
/// `interval`: its instant is the one of its counter.
pub open spec fn is_on_schedule(entry: LogEntry, start: Instant, interval: Span) -> bool {
    entry.timestamp@ == scheduled_nanos(start@, interval@, entry.counter as int)
}

/// Whether `logs` is a batch of `count` records on a schedule: the record at
/// place `i` has the counter `i`, lies on the schedule and is well formed.
pub open spec fn is_batch(logs: Seq<LogEntry>, start: Instant, interval: Span, count: int) -> bool {
    &&& logs.len() == count
    &&& forall|i: int|
        0 <= i < count ==> {
            &&& (#[trigger] logs[i]).counter == i
            &&& is_on_schedule(logs[i], start, interval)
            &&& logs[i].well_formed()
        }
}

/// The counters of a sequence of records, in its order.
pub open spec fn counters(logs: Seq<LogEntry>) -> Seq<int> {
    Seq::new(logs.len(), |i: int| logs[i].counter as int)
}

/// The file of an environment: its name and its text.
#[derive(Debug, PartialEq, Eq)]
pub struct LogFile {
    pub name: String,
    pub text: String,
}

/// In a batch every counter from 0 up to the count stands once, and no
/// other: the counters are the numbers below the count, each at its place.
pub proof fn lemma_batch_counters_are_the_range(
    logs: Seq<LogEntry>,
    start: Instant,
    interval: Span,
    count: int,
)
    requires
        is_batch(logs, start, interval, count),
    ensures
        counters(logs).len() == count,
        counters(logs).no_duplicates(),
        counters(logs).to_set() == set_int_range(0, count),
{
    let found = counters(logs);
    assert forall|c: int| found.to_set().contains(c) <==> set_int_range(0, count).contains(
        c,
    ) by {
        if 0 <= c < count {
            assert(found[c] == c);
            assert(found.contains(c));
        }
    }
    assert(found.to_set() =~= set_int_range(0, count));
}

/// Of two records on a schedule whose interval is not negative, the one
/// with the smaller counter is not the later one: sorted by counter, the
/// records are sorted by time.
pub proof fn lemma_time_follows_counter(
    first: LogEntry,
    second: LogEntry,
    start: Instant,
    interval: Span,
)
    requires
        0 <= interval@,
        is_on_schedule(first, start, interval),
        is_on_schedule(second, start, interval),
        first.counter <= second.counter,
    ensures
        first.timestamp@ <= second.timestamp@,
{
    lemma_schedule_is_non_decreasing(
        start@,
        interval@,
        first.counter as int,
        second.counter as int,
    );
}

/// A batch on the schedule over a window that runs forwards is ordered in
/// time: its first record lies at the start of the window, no record lies
/// before the one in front of it, and none lies after the end. Where the
/// window is not empty, the last record lies before the end.
pub proof fn lemma_batch_runs_through_window(
    logs: Seq<LogEntry>,
    start: Instant,
    end: Instant,
    interval: Span,
    count: int,
)
    requires
        0 < count,
        start@ <= end@,
        interval@ == interval_between(start@, end@, count),
        is_batch(logs, start, interval, count),
    ensures
        logs[0].timestamp == start,
        forall|i: int, j: int|
            0 <= i <= j < count ==> (#[trigger] logs[i]).timestamp@ <= (#[trigger] logs[j]).timestamp@,
        forall|i: int| 0 <= i < count ==> (#[trigger] logs[i]).timestamp@ <= end@,
        start@ < end@ ==> logs[count - 1].timestamp@ < end@,
{
    lemma_schedule_stays_in_window(start@, end@, count, 0);
    assert(logs[0].timestamp@ == start@) by {
        assert(interval@ * 0 == 0);
    }
    assert forall|i: int, j: int| 0 <= i <= j < count implies (#[trigger] logs[i]).timestamp@ <= (
    #[trigger] logs[j]).timestamp@ by {
        lemma_time_follows_counter(logs[i], logs[j], start, interval);
    }
    assert forall|i: int| 0 <= i < count implies (#[trigger] logs[i]).timestamp@ <= end@ by {
        lemma_schedule_stays_in_window(start@, end@, count, i);
    }
    lemma_schedule_stays_in_window(start@, end@, count, count - 1);
}

/// Two batches on the same schedule hold the same instants, place by place,
/// whatever was drawn at random for the one and the other.
pub proof fn lemma_batches_share_their_timestamps(
    first: Seq<LogEntry>,
    second: Seq<LogEntry>,
    start: Instant,
    interval: Span,
    count: int,
)
    requires
        is_batch(first, start, interval, count),
        is_batch(second, start, interval, count),
    ensures
        forall|i: int|
            0 <= i < count ==> (#[trigger] first[i]).timestamp == (#[trigger] second[i]).timestamp,
{
    assert forall|i: int| 0 <= i < count implies (#[trigger] first[i]).timestamp == (
    #[trigger] second[i]).timestamp by {
        assert(first[i].timestamp@ == second[i].timestamp@);
    }
}

/// Two environments have two files: their names differ.
pub proof fn lemma_environments_have_their_own_files(first: Environment, second: Environment)
    requires
        first != second,
    ensures
        log_file_name_text(first.name_text()) != log_file_name_text(second.name_text()),
{
    reveal_strlit("Development");
    reveal_strlit("Testing");
    reveal_strlit("Acceptance");
    reveal_strlit("Production");
    let left = log_file_name_text(first.name_text());
    let right = log_file_name_text(second.name_text());
    assert(left[0] == first.name_text()[0]);
    assert(right[0] == second.name_text()[0]);
    assert(left[0] != right[0]);
}

/// The plan of the run of `log_count` records for each environment that
/// starts at `now`, or `None` where the window would begin before the first
/// instant that can be held.
pub fn plan_run(now: Instant, log_count: u64) -> (plan: Option<RunPlan>)
    ensures
        plan is Some <==> representable(now@ - LOOKBACK_DAYS * NANOS_PER_DAY),
        plan matches Some(p) ==> p.is_plan_of(now, log_count) && schedule_fits(
            p.start@,
            p.interval@,
            log_count as int,
        ),
{
    match now.checked_sub(Span::from_days(LOOKBACK_DAYS)) {
        Some(start) => {
            let interval = if log_count == 0 {
                Span::from_nanos(0)
            } else {
                proof {
                    lemma_window_schedule_fits(start, now, log_count as int);
                }
                interval_per_log(start, now, log_count)
            };
            Some(RunPlan { log_count, start, end: now, interval })
        },
        None => None,
    }
}

/// The plan of the run of `log_count` records for each environment that
/// starts at the instant the system clock shows, or `None` where the window
/// does not lie within the instants that can be held. The clock decides
/// which instant that is.
pub fn plan_run_now(log_count: u64) -> (plan: Option<RunPlan>)
    ensures
        plan matches Some(p) ==> p.is_plan_of(p.end, log_count) && schedule_fits(
            p.start@,
            p.interval@,
            log_count as int,
        ),
{
    plan_run_at_reading(chrono_now_unix_nanos(), log_count)
}

/// The plan of the run of `log_count` records for each environment that
/// starts at the instant a clock has shown. `reading` is what the clock
/// gave: its count of nanoseconds since the Unix epoch, or `None` where that
/// count cannot be held. There is a plan where there is a count and the
/// window of two years before it can be held, and then it is the plan of
/// that instant.
pub fn plan_run_at_reading(reading: Option<i64>, log_count: u64) -> (plan: Option<RunPlan>)
    ensures
        plan is Some <==> (reading matches Some(unix_nanos) && representable(
            unix_nanos - LOOKBACK_DAYS * NANOS_PER_DAY,
        )),
        plan matches Some(p) ==> (reading matches Some(unix_nanos) && p.end@ == unix_nanos),
        plan matches Some(p) ==> p.is_plan_of(p.end, log_count) && schedule_fits(
            p.start@,
            p.interval@,
            log_count as int,
        ),
{
    match reading {
        Some(unix_nanos) => plan_run(Instant::from_unix_nanos(unix_nanos), log_count),
        None => None,
    }
}

/// A new record for `counter` on the schedule that begins at `start` and
/// steps by `interval`.
pub fn scheduled_log_entry(counter: u64, start: Instant, interval: Span) -> (entry: LogEntry)
    requires
        representable(scheduled_nanos(start@, interval@, counter as int)),
    ensures
        entry.counter == counter,
        is_on_schedule(entry, start, interval),
        entry.well_formed(),
{
    let timestamp = scheduled_timestamp(start, interval, counter);
    generate_log_entry(counter, timestamp)
}

/// A batch of `log_count` new records on the schedule that begins at
/// `start_time` and steps by `interval_per_log`, in the order of their
/// counters.
pub fn generate_logs(log_count: u64, start_time: Instant, interval_per_log: Span) -> (logs: Vec<
    LogEntry,
>)
    requires
        schedule_fits(start_time@, interval_per_log@, log_count as int),
    ensures
        is_batch(logs@, start_time, interval_per_log, log_count as int),
{
    let mut logs: Vec<LogEntry> = Vec::new();
    let mut counter: u64 = 0;
    while counter < log_count
        invariant
            counter <= log_count,
            schedule_fits(start_time@, interval_per_log@, log_count as int),
            is_batch(logs@, start_time, interval_per_log, counter as int),
        decreases log_count - counter,
    {
        proof {
            lemma_fitting_schedule_is_representable(
                start_time,
                interval_per_log@,
                log_count as int,
                counter as int,
            );
        }
        let entry = scheduled_log_entry(counter, start_time, interval_per_log);
        logs.push(entry);
        counter = counter + 1;
    }
    logs
}

/// The file that holds `logs` for `environment`.
pub fn render_log_file(environment: Environment, logs: &Vec<LogEntry>) -> (file: LogFile)
    ensures
        file.name@ == log_file_name_text(environment.name_text()),
        file.text@ == log_file_text(logs@),
        lines_of(file.text@) == log_lines(logs@),
        lines_of(file.text@).len() == logs@.len(),
{
    LogFile { name: log_file_name(environment.name()), text: render_logs(logs) }
}

/// The file of `environment` with a batch of `log_count` new records on the
/// schedule that begins at `start_time` and steps by `interval_per_log`: one
/// line for each record, in the order of the counters.
pub fn generate_logs_for_environment(
    environment: Environment,
    log_count: u64,
    start_time: Instant,
    interval_per_log: Span,
) -> (file: LogFile)
    requires
        schedule_fits(start_time@, interval_per_log@, log_count as int),
    ensures
        file.name@ == log_file_name_text(environment.name_text()),
        exists|logs: Seq<LogEntry>|
            {
                &&& #[trigger] is_batch(logs, start_time, interval_per_log, log_count as int)
                &&& file.text@ == log_file_text(logs)
                &&& lines_of(file.text@) == log_lines(logs)
            },
        lines_of(file.text@).len() == log_count,
{
    let logs = generate_logs(log_count, start_time, interval_per_log);
    render_log_file(environment, &logs)
}

/// The notice that the records of `environment` are written.
pub fn completion_notice(environment: Environment) -> (notice: String)
    ensures
        notice@ == COMPLETION_NOTICE_PREFIX@ + environment.name_text(),
{
    let mut notice = String::from_str(COMPLETION_NOTICE_PREFIX);
    notice.append(environment.name());
    notice
}

} // verus!
