//! Stopping the server.
//!
//! Stopping takes several steps that only the host can carry out: reading
//! the PID record, sending signals, listing processes, sleeping. The
//! decisions between the steps are made here. The host starts with the
//! command that [`Stopping::begin`] gives, carries it out, reports what
//! came of it as a [`StopEvent`], and gets the next command from
//! [`Stopping::next`], until the command is `Finish`.
//!
//! With a PID record, the process named in it is sent one interrupt and
//! the record is removed. Without one, every process whose name is like
//! the name of the server's executable is sent an interrupt, and the host
//! then waits, looking again every five seconds, until no such process is
//! left.

use vstd::prelude::*;
use crate::errors::{ErrorModel, InstanceError};
use crate::process::{
    by_score, find_processes, interrupt_targets, is_target, lemma_found_exactly_targets, match_of,
    not_found, pids_of, process_models, send_interrupt, targets, ProcessEntry, ProcessMatch,
    ProcessModel,
};
use crate::text::{
    base_name, base_name_spec, chars_of, digits_value, parse_digits, result_view, same_text,
    strip_bounds, trim_spec, Strip,
};

verus! {

/// The time between two looks at the process table, in seconds.
pub const SHUTDOWN_POLL_SECONDS: u64 = 5;

// ---------------------------------------------------------------------------
// The PID record
// ---------------------------------------------------------------------------

/// What the host found where the PID record is kept.
#[derive(Debug)]
pub enum PidRecord {
    /// There is no record.
    Absent,
    /// There is a record with this content.
    Present(String),
    /// There is a record, but it could not be read; the host says why.
    Unreadable(String),
}

/// The mathematical content of a [`PidRecord`].
pub enum PidRecordModel {
    Absent,
    Present(Seq<char>),
    Unreadable(Seq<char>),
}

impl View for PidRecord {
    type V = PidRecordModel;

    open spec fn view(&self) -> PidRecordModel {
        match self {
            PidRecord::Absent => PidRecordModel::Absent,
            PidRecord::Present(text) => PidRecordModel::Present(text@),
            PidRecord::Unreadable(why) => PidRecordModel::Unreadable(why@),
        }
    }
}

/// The digits of a PID record: the text without surrounding whitespace
/// and without a plus sign in front.
pub open spec fn pid_digits(text: Seq<char>) -> Seq<char> {
    let trimmed = trim_spec(text);
    if trimmed.len() > 0 && trimmed[0] == '+' {
        trimmed.subrange(1, trimmed.len() as int)
    } else {
        trimmed
    }
}

/// The process id that a PID record names: a positive integer in decimal
/// notation that fits a process id. Anything else names none.
pub open spec fn pid_of(text: Seq<char>) -> Option<i32> {
    match digits_value(pid_digits(text)) {
        Some(n) => if 1 <= n <= i32::MAX {
            Some(n as i32)
        } else {
            None
        },
        None => None,
    }
}

/// The process id that a PID record names, if it names one.
pub fn parse_pid(text: &str) -> (pid: Option<i32>)
    ensures
        pid == pid_of(text@),
        pid matches Some(p) ==> p > 0,
{
    let chars = chars_of(text);
    assert(chars@.subrange(0, chars@.len() as int) == chars@);
    let (from, to) = strip_bounds(&chars, 0, chars.len(), Strip::Whitespace);
    let ghost trimmed = chars@.subrange(from as int, to as int);
    let start = if from < to && chars[from] == '+' {
        from + 1
    } else {
        from
    };
    proof {
        if from < to {
            assert(trimmed[0] == chars@[from as int]);
        }
        assert(chars@.subrange(start as int, to as int) =~= pid_digits(text@));
    }
    match parse_digits(&chars, start, to, 0x7fff_ffff) {
        Some(n) => if n >= 1 {
            Some(n as i32)
        } else {
            None
        },
        None => None,
    }
}

/// The error for a PID record that names no process id.
pub open spec fn bad_pid_record() -> ErrorModel {
    ErrorModel::Parse("PID record does not hold a positive process id"@)
}

/// The error for a missing PID record.
pub open spec fn no_pid_record() -> ErrorModel {
    ErrorModel::Unknown("Failed to find pid"@)
}

/// The process id that the PID record gives, or why it gives none: a
/// missing record is an unknown error, an unreadable one an I/O error, one
/// that names no process id a parse error.
pub open spec fn recorded_pid(record: PidRecordModel) -> Result<i32, ErrorModel> {
    match record {
        PidRecordModel::Absent => Err(no_pid_record()),
        PidRecordModel::Unreadable(why) => Err(ErrorModel::Io(why)),
        PidRecordModel::Present(text) => match pid_of(text) {
            Some(pid) => Ok(pid),
            None => Err(bad_pid_record()),
        },
    }
}

/// The process id that the PID record gives, or why it gives none.
pub fn read_pid(record: &PidRecord) -> (pid: Result<i32, InstanceError>)
    ensures
        result_view(pid) == recorded_pid(record@),
{
    match record {
        PidRecord::Absent => Err(InstanceError::Unknown(String::from_str("Failed to find pid"))),
        PidRecord::Unreadable(why) => Err(InstanceError::IoError(why.clone())),
        PidRecord::Present(text) => match parse_pid(text.as_str()) {
            Some(pid) => Ok(pid),
            None => Err(
                InstanceError::ParseError(
                    String::from_str("PID record does not hold a positive process id"),
                ),
            ),
        },
    }
}

// ---------------------------------------------------------------------------
// Commands and events
// ---------------------------------------------------------------------------

/// What the host is told to do while the server is being stopped.
#[derive(Debug)]
pub enum StopCommand {
    /// Read the PID record at this path; report `StopEvent::PidRecord`.
    ReadPidRecord(String),
    /// Send an interrupt to this process; report `StopEvent::Signalled`.
    Interrupt(i32),
    /// Remove the PID record at this path; report `StopEvent::Removed`.
    RemoveRecord(String),
    /// List the running processes; report `StopEvent::Processes`.
    ListProcesses,
    /// Send an interrupt to each of these processes that is still there;
    /// report `StopEvent::Completed`.
    InterruptAll(Vec<u32>),
    /// Sleep for this many seconds; report `StopEvent::Completed`.
    Sleep(u64),
    /// Stopping has ended with this result.
    Finish(Result<(), InstanceError>),
}

/// The mathematical content of a [`StopCommand`].
pub enum StopCommandModel {
    ReadPidRecord(Seq<char>),
    Interrupt(i32),
    RemoveRecord(Seq<char>),
    ListProcesses,
    InterruptAll(Seq<u32>),
    Sleep(u64),
    Finish(Result<(), ErrorModel>),
}

impl View for StopCommand {
    type V = StopCommandModel;

    open spec fn view(&self) -> StopCommandModel {
        match self {
            StopCommand::ReadPidRecord(path) => StopCommandModel::ReadPidRecord(path@),
            StopCommand::Interrupt(pid) => StopCommandModel::Interrupt(*pid),
            StopCommand::RemoveRecord(path) => StopCommandModel::RemoveRecord(path@),
            StopCommand::ListProcesses => StopCommandModel::ListProcesses,
            StopCommand::InterruptAll(pids) => StopCommandModel::InterruptAll(pids@),
            StopCommand::Sleep(seconds) => StopCommandModel::Sleep(*seconds),
            StopCommand::Finish(result) => StopCommandModel::Finish(result_view(*result)),
        }
    }
}

/// What the host reports while the server is being stopped.
#[derive(Debug)]
pub enum StopEvent {
    /// What was found where the PID record is kept.
    PidRecord(PidRecord),
    /// Whether the interrupt was delivered; if not, why.
    Signalled(Result<(), String>),
    /// Whether the PID record was removed; if not, why.
    Removed(Result<(), String>),
    /// The running processes.
    Processes(Vec<ProcessEntry>),
    /// The last command was carried out.
    Completed,
}

/// The mathematical content of a [`StopEvent`].
pub enum StopEventModel {
    PidRecord(PidRecordModel),
    Signalled(Result<(), Seq<char>>),
    Removed(Result<(), Seq<char>>),
    Processes(Seq<ProcessModel>),
    Completed,
}

impl View for StopEvent {
    type V = StopEventModel;

    open spec fn view(&self) -> StopEventModel {
        match self {
            StopEvent::PidRecord(record) => StopEventModel::PidRecord(record@),
            StopEvent::Signalled(done) => StopEventModel::Signalled(result_view(*done)),
            StopEvent::Removed(done) => StopEventModel::Removed(result_view(*done)),
            StopEvent::Processes(table) => StopEventModel::Processes(process_models(table@)),
            StopEvent::Completed => StopEventModel::Completed,
        }
    }
}

/// How far stopping has come.
#[derive(Clone, Copy, Debug, PartialEq, Eq, Structural)]
pub enum Phase {
    /// The PID record is being read.
    Begin,
    /// The process named in the PID record is being sent an interrupt.
    Interrupting,
    /// The PID record is being removed.
    Removing,
    /// The processes are being listed for the first time.
    Scanning,
    /// The processes that are like the server are being sent interrupts.
    Signalling,
    /// The host sleeps before it looks again.
    Waiting,
    /// The processes are being listed again.
    Watching,
    /// Stopping has ended.
    Done,
}

// ---------------------------------------------------------------------------
// The fallback: stopping by name
// ---------------------------------------------------------------------------

/// What follows the first look at the process table: interrupts for all
/// processes that are like the executable, or the end with an error where
/// there is none.
pub open spec fn shutdown_start(executable: Seq<char>, table: Seq<ProcessModel>) -> StopCommandModel {
    match interrupt_targets(executable, table) {
        Ok(pids) => StopCommandModel::InterruptAll(pids),
        Err(e) => StopCommandModel::Finish(Err(e)),
    }
}

/// What follows a later look at the process table: the end where no
/// process is like the executable any more, else another sleep.
pub open spec fn shutdown_watch(executable: Seq<char>, table: Seq<ProcessModel>) -> StopCommandModel {
    if by_score(targets(executable, table)).len() == 0 {
        StopCommandModel::Finish(Ok(()))
    } else {
        StopCommandModel::Sleep(SHUTDOWN_POLL_SECONDS)
    }
}

/// The first step of stopping by name: every process of the table that is
/// like `executable` is to be sent an interrupt. A table without such a
/// process ends the stop with a process error.
pub fn blocking_shutdown(executable: &str, table: &Vec<ProcessEntry>) -> (command: StopCommand)
    ensures
        command@ == shutdown_start(executable@, process_models(table@)),
{
    match send_interrupt(executable, table) {
        Ok(pids) => StopCommand::InterruptAll(pids),
        Err(e) => StopCommand::Finish(Err(e)),
    }
}

/// A later step of stopping by name: the stop has succeeded once no
/// process of the table is like `executable`; until then the host sleeps
/// and looks again. There is no limit to the number of looks.
pub fn watch_shutdown(executable: &str, table: &Vec<ProcessEntry>) -> (command: StopCommand)
    ensures
        command@ == shutdown_watch(executable@, process_models(table@)),
{
    let found = find_processes(executable, table);
    if found.len() == 0 {
        StopCommand::Finish(Ok(()))
    } else {
        StopCommand::Sleep(SHUTDOWN_POLL_SECONDS)
    }
}

// ---------------------------------------------------------------------------
// The whole stop
// ---------------------------------------------------------------------------

/// A stop in progress.
#[derive(Debug)]
pub struct Stopping {
    /// How far the stop has come.
    pub phase: Phase,
    /// The command that launched the server.
    pub command: String,
    /// The path of the PID record.
    pub record: String,
}

/// The mathematical content of a [`Stopping`].
pub struct StoppingModel {
    pub phase: Phase,
    pub command: Seq<char>,
    pub record: Seq<char>,
}

impl View for Stopping {
    type V = StoppingModel;

    open spec fn view(&self) -> StoppingModel {
        StoppingModel { phase: self.phase, command: self.command@, record: self.record@ }
    }
}

/// Whether a path names a file: its last component is neither empty nor
/// one of the directory names `.` and `..`.
pub open spec fn names_file(path: Seq<char>) -> bool {
    let name = base_name_spec(path);
    name.len() > 0 && name != "."@ && name != ".."@
}

/// The error for a server command without a file name.
pub open spec fn no_file_name() -> ErrorModel {
    ErrorModel::Config("command does not name an executable"@)
}

/// The error for a report that does not answer the last command.
pub open spec fn out_of_turn() -> ErrorModel {
    ErrorModel::Unknown("report does not answer the last command"@)
}

/// The phase that follows and the command that is given when `event` is
/// reported during `stop`.
pub open spec fn stop_transition(stop: StoppingModel, event: StopEventModel) -> (
    Phase,
    StopCommandModel,
) {
    match (stop.phase, event) {
        (Phase::Begin, StopEventModel::PidRecord(PidRecordModel::Absent)) => {
            if names_file(stop.command) {
                (Phase::Scanning, StopCommandModel::ListProcesses)
            } else {
                (Phase::Done, StopCommandModel::Finish(Err(no_file_name())))
            }
        },
        (Phase::Begin, StopEventModel::PidRecord(record)) => match recorded_pid(record) {
            Ok(pid) => (Phase::Interrupting, StopCommandModel::Interrupt(pid)),
            Err(e) => (Phase::Done, StopCommandModel::Finish(Err(e))),
        },
        (Phase::Interrupting, StopEventModel::Signalled(Ok(_))) => (
            Phase::Removing,
            StopCommandModel::RemoveRecord(stop.record),
        ),
        (Phase::Interrupting, StopEventModel::Signalled(Err(why))) => (
            Phase::Done,
            StopCommandModel::Finish(Err(ErrorModel::Process(why))),
        ),
        (Phase::Removing, StopEventModel::Removed(Ok(_))) => (
            Phase::Done,
            StopCommandModel::Finish(Ok(())),
        ),
        (Phase::Removing, StopEventModel::Removed(Err(why))) => (
            Phase::Done,
            StopCommandModel::Finish(Err(ErrorModel::Io(why))),
        ),
        (Phase::Scanning, StopEventModel::Processes(table)) => {
            let command = shutdown_start(base_name_spec(stop.command), table);
            (
                if command is InterruptAll {
                    Phase::Signalling
                } else {
                    Phase::Done
                },
                command,
            )
        },
        (Phase::Signalling, StopEventModel::Completed) => (
            Phase::Waiting,
            StopCommandModel::Sleep(SHUTDOWN_POLL_SECONDS),
        ),
        (Phase::Waiting, StopEventModel::Completed) => (
            Phase::Watching,
            StopCommandModel::ListProcesses,
        ),
        (Phase::Watching, StopEventModel::Processes(table)) => {
            let command = shutdown_watch(base_name_spec(stop.command), table);
            (
                if command is Sleep {
                    Phase::Waiting
                } else {
                    Phase::Done
                },
                command,
            )
        },
        _ => (Phase::Done, StopCommandModel::Finish(Err(out_of_turn()))),
    }
}

impl Stopping {
    /// Begins to stop the server that was launched with `command` and
    /// whose PID record is kept at `record`. The first thing to do is to
    /// read the PID record.
    pub fn begin(command: &str, record: &str) -> (start: (Stopping, StopCommand))
        ensures
            start.0@ == (StoppingModel { phase: Phase::Begin, command: command@, record: record@ }),
            start.1@ == StopCommandModel::ReadPidRecord(record@),
    {
        (
            Stopping {
                phase: Phase::Begin,
                command: String::from_str(command),
                record: String::from_str(record),
            },
            StopCommand::ReadPidRecord(String::from_str(record)),
        )
    }

    /// Whether the server's command names a file.
    fn command_names_file(&self) -> (named: bool)
        ensures
            named == names_file(self@.command),
    {
        let name = base_name(self.command.as_str());
        let empty = name.as_str().is_empty();
        let dot = same_text(name.as_str(), ".");
        let dots = same_text(name.as_str(), "..");
        !empty && !dot && !dots
    }

    /// Takes the host's report of what came of the last command and gives
    /// the next command. A report that does not answer the last command
    /// ends the stop with an error.
    pub fn next(&mut self, event: &StopEvent) -> (command: StopCommand)
        ensures
            final(self)@.command == old(self)@.command,
            final(self)@.record == old(self)@.record,
            (final(self)@.phase, command@) == stop_transition(old(self)@, event@),
    {
        let (phase, command) = match (self.phase, event) {
            (Phase::Begin, StopEvent::PidRecord(record)) => {
                match record {
                    PidRecord::Absent => {
                        if self.command_names_file() {
                            (Phase::Scanning, StopCommand::ListProcesses)
                        } else {
                            (
                                Phase::Done,
                                StopCommand::Finish(
                                    Err(
                                        InstanceError::ConfigError(
                                            String::from_str("command does not name an executable"),
                                        ),
                                    ),
                                ),
                            )
                        }
                    },
                    _ => match read_pid(record) {
                        Ok(pid) => (Phase::Interrupting, StopCommand::Interrupt(pid)),
                        Err(e) => (Phase::Done, StopCommand::Finish(Err(e))),
                    },
                }
            },
            (Phase::Interrupting, StopEvent::Signalled(done)) => {
                match done {
                    Ok(_) => (Phase::Removing, StopCommand::RemoveRecord(self.record.clone())),
                    Err(why) => (
                        Phase::Done,
                        StopCommand::Finish(Err(InstanceError::ProcessError(why.clone()))),
                    ),
                }
            },
            (Phase::Removing, StopEvent::Removed(done)) => {
                match done {
                    Ok(_) => (Phase::Done, StopCommand::Finish(Ok(()))),
                    Err(why) => (
                        Phase::Done,
                        StopCommand::Finish(Err(InstanceError::IoError(why.clone()))),
                    ),
                }
            },
            (Phase::Scanning, StopEvent::Processes(table)) => {
                let executable = base_name(self.command.as_str());
                let command = blocking_shutdown(executable.as_str(), table);
                match command {
                    StopCommand::InterruptAll(_) => (Phase::Signalling, command),
                    _ => (Phase::Done, command),
                }
            },
            (Phase::Signalling, StopEvent::Completed) => (
                Phase::Waiting,
                StopCommand::Sleep(SHUTDOWN_POLL_SECONDS),
            ),
            (Phase::Waiting, StopEvent::Completed) => (
                Phase::Watching,
                StopCommand::ListProcesses,
            ),
            (Phase::Watching, StopEvent::Processes(table)) => {
                let executable = base_name(self.command.as_str());
                let command = watch_shutdown(executable.as_str(), table);
                match command {
                    StopCommand::Sleep(_) => (Phase::Waiting, command),
                    _ => (Phase::Done, command),
                }
            },
            _ => (
                Phase::Done,
                StopCommand::Finish(
                    Err(
                        InstanceError::Unknown(
                            String::from_str("report does not answer the last command"),
                        ),
                    ),
                ),
            ),
        };
        self.phase = phase;
        command
    }
}

// ---------------------------------------------------------------------------
// What a stop comes to
// ---------------------------------------------------------------------------

/// A stop that begins with the report `first`, at its beginning.
pub open spec fn at_begin(command: Seq<char>, record: Seq<char>) -> StoppingModel {
    StoppingModel { phase: Phase::Begin, command, record }
}

/// With a PID record that names the process `pid`, stopping sends one
/// interrupt, to that process; once it is delivered the record is removed;
/// once that is done the stop has succeeded. No other signal is sent on
/// the way.
pub proof fn lemma_recorded_pid_is_interrupted_once(
    command: Seq<char>,
    record: Seq<char>,
    text: Seq<char>,
    pid: i32,
)
    requires
        pid_of(text) == Some(pid),
    ensures
        pid > 0,
        stop_transition(
            at_begin(command, record),
            StopEventModel::PidRecord(PidRecordModel::Present(text)),
        ) == (Phase::Interrupting, StopCommandModel::Interrupt(pid)),
        stop_transition(
            StoppingModel { phase: Phase::Interrupting, command, record },
            StopEventModel::Signalled(Ok(())),
        ) == (Phase::Removing, StopCommandModel::RemoveRecord(record)),
        stop_transition(
            StoppingModel { phase: Phase::Removing, command, record },
            StopEventModel::Removed(Ok(())),
        ) == (Phase::Done, StopCommandModel::Finish(Ok(()))),
{
}

/// An interrupt that could not be delivered ends the stop with a process
/// error; the PID record stays.
pub proof fn lemma_failed_interrupt_keeps_record(
    command: Seq<char>,
    record: Seq<char>,
    why: Seq<char>,
)
    ensures
        stop_transition(
            StoppingModel { phase: Phase::Interrupting, command, record },
            StopEventModel::Signalled(Err(why)),
        ) == (Phase::Done, StopCommandModel::Finish(Err(ErrorModel::Process(why)))),
{
}

/// Without a PID record, stopping looks at the process table. If no
/// process is like the server's executable the stop ends with a process
/// error. Otherwise the processes that are sent an interrupt are exactly
/// those whose similarity exceeds the threshold: each of them is among
/// the pids, and each pid is the pid of one of them.
pub proof fn lemma_fallback_signals_exactly_the_targets(
    command: Seq<char>,
    record: Seq<char>,
    table: Seq<ProcessModel>,
)
    requires
        names_file(command),
    ensures
        stop_transition(
            at_begin(command, record),
            StopEventModel::PidRecord(PidRecordModel::Absent),
        ) == (Phase::Scanning, StopCommandModel::ListProcesses),
        (forall|i: int|
            0 <= i < table.len() ==> !is_target(base_name_spec(command), #[trigger] table[i]))
            ==> stop_transition(
            StoppingModel { phase: Phase::Scanning, command, record },
            StopEventModel::Processes(table),
        ) == (Phase::Done, StopCommandModel::Finish(Err(not_found(base_name_spec(command))))),
        (exists|i: int| 0 <= i < table.len() && is_target(base_name_spec(command), #[trigger] table[i]))
            ==> stop_transition(
            StoppingModel { phase: Phase::Scanning, command, record },
            StopEventModel::Processes(table),
        ) == (
            Phase::Signalling,
            StopCommandModel::InterruptAll(
                pids_of(by_score(targets(base_name_spec(command), table))),
            ),
        ),
        forall|i: int|
            0 <= i < table.len() && is_target(base_name_spec(command), #[trigger] table[i])
                ==> pids_of(by_score(targets(base_name_spec(command), table))).contains(
                table[i].pid,
            ),
        forall|k: int|
            0 <= k < pids_of(by_score(targets(base_name_spec(command), table))).len()
                ==> exists|i: int|
                0 <= i < table.len() && is_target(base_name_spec(command), #[trigger] table[i])
                    && table[i].pid == #[trigger] pids_of(
                    by_score(targets(base_name_spec(command), table)),
                )[k],
{
    let executable = base_name_spec(command);
    let found = by_score(targets(executable, table));
    let pids = pids_of(found);
    lemma_found_exactly_targets(executable, table, ProcessMatch { pid: 0, score: 0 });
    assert forall|i: int| 0 <= i < table.len() && is_target(executable, #[trigger] table[i])
        implies pids.contains(table[i].pid) by {
        let m = match_of(executable, table[i]);
        lemma_found_exactly_targets(executable, table, m);
        assert(found.contains(m));
        let k = choose|k: int| 0 <= k < found.len() && found[k] == m;
        assert(pids[k] == table[i].pid);
    }
    assert forall|k: int| 0 <= k < pids.len() implies exists|i: int|
        0 <= i < table.len() && is_target(executable, #[trigger] table[i]) && table[i].pid
            == #[trigger] pids[k] by {
        let m = found[k];
        assert(found.contains(m));
        lemma_found_exactly_targets(executable, table, m);
        let i = choose|i: int|
            0 <= i < table.len() && is_target(executable, #[trigger] table[i]) && m == match_of(
                executable,
                table[i],
            );
        assert(table[i].pid == pids[k]);
    }
}

/// After the interrupts the host sleeps and looks again, for as long as a
/// process that is like the executable is left; when none is left the stop
/// has succeeded.
pub proof fn lemma_fallback_waits_until_gone(
    command: Seq<char>,
    record: Seq<char>,
    table: Seq<ProcessModel>,
)
    ensures
        stop_transition(
            StoppingModel { phase: Phase::Signalling, command, record },
            StopEventModel::Completed,
        ) == (Phase::Waiting, StopCommandModel::Sleep(SHUTDOWN_POLL_SECONDS)),
        stop_transition(
            StoppingModel { phase: Phase::Waiting, command, record },
            StopEventModel::Completed,
        ) == (Phase::Watching, StopCommandModel::ListProcesses),
        (exists|i: int| 0 <= i < table.len() && is_target(base_name_spec(command), #[trigger] table[i]))
            ==> stop_transition(
            StoppingModel { phase: Phase::Watching, command, record },
            StopEventModel::Processes(table),
        ) == (Phase::Waiting, StopCommandModel::Sleep(SHUTDOWN_POLL_SECONDS)),
        (forall|i: int|
            0 <= i < table.len() ==> !is_target(base_name_spec(command), #[trigger] table[i]))
            ==> stop_transition(
            StoppingModel { phase: Phase::Watching, command, record },
            StopEventModel::Processes(table),
        ) == (Phase::Done, StopCommandModel::Finish(Ok(()))),
{
    lemma_found_exactly_targets(base_name_spec(command), table, ProcessMatch { pid: 0, score: 0 });
}

} // verus!
