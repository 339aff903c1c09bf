//! Following a log file and evaluating the rules on each new line.
//!
//! The monitor decides, the host reads: the host opens the file, reads
//! lines and sleeps; after each step it reports what happened as a
//! [`TailEvent`] and is told what to do next as a [`TailCommand`].

use vstd::prelude::*;
use crate::rules::{evaluate, fired, ranked, Action, LogRules, RuleModel};
use crate::text::{chars_of, concat, join_path, join_spec, string_of_range};

verus! {

/// How long the host sleeps, in milliseconds, before it tries to read again
/// after it found nothing new.
pub const POLL_INTERVAL_MS: u64 = 100;

/// What the host reports to the monitor.
#[derive(Debug)]
pub enum TailEvent {
    /// Monitoring of the file begins.
    Start,
    /// The file could not be opened or positioned.
    OpenFailed,
    /// A line was read; it still carries its line terminator.
    Line(String),
    /// Nothing was left to read. `size` is the size of the file on disk and
    /// `offset` the position of the reader, each where it could be had.
    EndOfFile { size: Option<u64>, offset: Option<u64> },
    /// Reading failed.
    ReadFailed,
}

/// The mathematical content of a [`TailEvent`].
pub enum EventModel {
    Start,
    OpenFailed,
    Line(Seq<char>),
    EndOfFile { size: Option<u64>, offset: Option<u64> },
    ReadFailed,
}

impl View for TailEvent {
    type V = EventModel;

    open spec fn view(&self) -> EventModel {
        match self {
            TailEvent::Start => EventModel::Start,
            TailEvent::OpenFailed => EventModel::OpenFailed,
            TailEvent::Line(line) => EventModel::Line(line@),
            TailEvent::EndOfFile { size, offset } => EventModel::EndOfFile {
                size: *size,
                offset: *offset,
            },
            TailEvent::ReadFailed => EventModel::ReadFailed,
        }
    }
}

/// What the monitor tells the host to do. After every command but `Stop`
/// the host reads the next line and reports the outcome.
#[derive(Debug)]
pub enum TailCommand {
    /// Open the file and position the reader at its end.
    OpenAtEnd,
    /// Carry out `actions`, in order, on `line`.
    Dispatch { line: String, actions: Vec<Action> },
    /// The file was truncated or replaced: open it afresh and position the
    /// reader at its start.
    ReopenAtStart,
    /// Sleep for this many milliseconds.
    Sleep(u64),
    /// Give up on this file.
    Stop,
}

/// The mathematical content of a [`TailCommand`].
pub enum CommandModel {
    OpenAtEnd,
    Dispatch { line: Seq<char>, actions: Seq<Action> },
    ReopenAtStart,
    Sleep(u64),
    Stop,
}

impl View for TailCommand {
    type V = CommandModel;

    open spec fn view(&self) -> CommandModel {
        match self {
            TailCommand::OpenAtEnd => CommandModel::OpenAtEnd,
            TailCommand::Dispatch { line, actions } => CommandModel::Dispatch {
                line: line@,
                actions: actions@,
            },
            TailCommand::ReopenAtStart => CommandModel::ReopenAtStart,
            TailCommand::Sleep(ms) => CommandModel::Sleep(*ms),
            TailCommand::Stop => CommandModel::Stop,
        }
    }
}

/// `line` without the line terminator at its end: a line feed, or a
/// carriage return followed by a line feed.
pub open spec fn without_terminator(line: Seq<char>) -> Seq<char> {
    if line.len() >= 2 && line[line.len() - 2] == '\r' && line[line.len() - 1] == '\n' {
        line.subrange(0, line.len() - 2)
    } else if line.len() >= 1 && line[line.len() - 1] == '\n' {
        line.subrange(0, line.len() - 1)
    } else {
        line
    }
}

/// Whether the file on disk is shorter than what the reader has already
/// read, which happens when the file was truncated or replaced.
pub open spec fn truncated(size: Option<u64>, offset: Option<u64>) -> bool {
    size is Some && offset is Some && size->0 < offset->0
}

/// What the monitor with the rules `rules` answers to `event`.
pub open spec fn tail_command(rules: Seq<RuleModel>, event: EventModel) -> CommandModel {
    match event {
        EventModel::Start => CommandModel::OpenAtEnd,
        EventModel::OpenFailed => CommandModel::Stop,
        EventModel::Line(line) => CommandModel::Dispatch {
            line: without_terminator(line),
            actions: fired(ranked(rules), without_terminator(line)),
        },
        EventModel::EndOfFile { size, offset } => if truncated(size, offset) {
            CommandModel::ReopenAtStart
        } else {
            CommandModel::Sleep(POLL_INTERVAL_MS)
        },
        EventModel::ReadFailed => CommandModel::Sleep(POLL_INTERVAL_MS),
    }
}

/// `line` without the line terminator at its end.
pub fn strip_terminator(line: &str) -> (stripped: String)
    ensures
        stripped@ == without_terminator(line@),
{
    let chars = chars_of(line);
    let n = chars.len();
    let end = if n >= 2 && chars[n - 2] == '\r' && chars[n - 1] == '\n' {
        n - 2
    } else if n >= 1 && chars[n - 1] == '\n' {
        n - 1
    } else {
        n
    };
    assert(chars@.subrange(0, n as int) == chars@);
    string_of_range(&chars, 0, end)
}

/// Follows one log file with a set of rules.
#[derive(Debug)]
pub struct Monitor {
    pub rules: LogRules,
}

impl View for Monitor {
    type V = Seq<RuleModel>;

    open spec fn view(&self) -> Seq<RuleModel> {
        self.rules@
    }
}

impl Clone for Monitor {
    fn clone(&self) -> (copy: Monitor)
        ensures
            copy@ == self@,
    {
        Monitor { rules: self.rules.clone() }
    }
}

impl Monitor {
    /// A monitor with the given rules.
    pub fn new(rules: LogRules) -> (monitor: Monitor)
        ensures
            monitor@ == rules@,
    {
        Monitor { rules }
    }

    /// Evaluates the rules on one line: takes a snapshot of the rules in
    /// ascending order of ranking and returns the actions of the rules that
    /// fire, in that order. The first matching rule with the stop flag is
    /// the last to fire.
    pub fn process_rules(&self, line: &str) -> (actions: Vec<Action>)
        ensures
            actions@ == fired(ranked(self@), line@),
    {
        let snapshot = self.rules.get_rules();
        evaluate(&snapshot, line)
    }

    /// One step of following a file: what the host does next, given what
    /// just happened.
    ///
    /// A line is stripped of its terminator and dispatched with the actions
    /// that the rules give for it. At the end of the file the host sleeps,
    /// unless the file on disk has become shorter than the reader's offset:
    /// then the file is opened afresh and read from its start. A failed read
    /// is retried after a sleep; a file that cannot be opened is given up.
    pub fn run(&self, event: &TailEvent) -> (command: TailCommand)
        ensures
            command@ == tail_command(self@, event@),
    {
        match event {
            TailEvent::Start => TailCommand::OpenAtEnd,
            TailEvent::OpenFailed => TailCommand::Stop,
            TailEvent::Line(raw) => {
                let line = strip_terminator(raw.as_str());
                let actions = self.process_rules(line.as_str());
                TailCommand::Dispatch { line, actions }
            },
            TailEvent::EndOfFile { size, offset } => {
                match (size, offset) {
                    (Some(size), Some(offset)) => {
                        if *size < *offset {
                            TailCommand::ReopenAtStart
                        } else {
                            TailCommand::Sleep(POLL_INTERVAL_MS)
                        }
                    },
                    _ => TailCommand::Sleep(POLL_INTERVAL_MS),
                }
            },
            TailEvent::ReadFailed => TailCommand::Sleep(POLL_INTERVAL_MS),
        }
    }
}

/// A file shorter than the reader's offset is reopened at its start, and
/// only such a file: at the end of a file that has not shrunk the host
/// sleeps for the poll interval.
pub proof fn lemma_truncation_reopens(rules: Seq<RuleModel>, size: u64, offset: u64)
    ensures
        size < offset ==> tail_command(
            rules,
            EventModel::EndOfFile { size: Some(size), offset: Some(offset) },
        ) == CommandModel::ReopenAtStart,
        size >= offset ==> tail_command(
            rules,
            EventModel::EndOfFile { size: Some(size), offset: Some(offset) },
        ) == CommandModel::Sleep(POLL_INTERVAL_MS),
{
}

/// What is dispatched for a line depends on that line and the rules alone:
/// nothing read before a reopen, or at any other time, enters into it.
pub proof fn lemma_dispatch_depends_on_line_only(rules: Seq<RuleModel>, line: Seq<char>)
    ensures
        tail_command(rules, EventModel::Line(line)) == (CommandModel::Dispatch {
            line: without_terminator(line),
            actions: fired(ranked(rules), without_terminator(line)),
        }),
{
}

/// What is needed to follow one file on a thread of its own.
#[derive(Debug)]
pub struct MonitorTask {
    /// The name of the thread.
    pub name: String,
    /// The file to follow.
    pub file: String,
    /// The monitor that decides each step.
    pub monitor: Monitor,
}

/// The name of the thread that follows `file`.
pub open spec fn thread_name(file: Seq<char>) -> Seq<char> {
    "log-monitor-"@ + file
}

/// Prepares the monitoring of one file on a thread of its own.
pub fn start_monitor_in_thread(log_file: &str, rules: LogRules) -> (task: MonitorTask)
    ensures
        task.name@ == thread_name(log_file@),
        task.file@ == log_file@,
        task.monitor@ == rules@,
{
    MonitorTask {
        name: concat("log-monitor-", log_file),
        file: String::from_str(log_file),
        monitor: Monitor::new(rules),
    }
}

/// Prepares the monitoring of the two log files of an instance,
/// `logs/server.log` and `logs/server.err` in its working directory, each
/// with the same rules.
pub fn start_instance_log_monitor(working_dir: &str, rules: LogRules) -> (tasks: (
    MonitorTask,
    MonitorTask,
))
    ensures
        tasks.0.file@ == join_spec(join_spec(working_dir@, "logs"@), "server.log"@),
        tasks.1.file@ == join_spec(join_spec(working_dir@, "logs"@), "server.err"@),
        tasks.0.name@ == thread_name(tasks.0.file@),
        tasks.1.name@ == thread_name(tasks.1.file@),
        tasks.0.monitor@ == rules@,
        tasks.1.monitor@ == rules@,
{
    let log_dir = join_path(working_dir, "logs");
    let server_log = join_path(log_dir.as_str(), "server.log");
    let server_err = join_path(log_dir.as_str(), "server.err");
    let first = start_monitor_in_thread(server_log.as_str(), rules.clone());
    let second = start_monitor_in_thread(server_err.as_str(), rules);
    (first, second)
}

} // verus!
