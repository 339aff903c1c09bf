//! Starting the server in the background.
//!
//! The host creates the log directory, empties the log files, starts the
//! process that the plan describes, detaches it, and reports the process
//! id. Only then is the PID record written: a start that failed leaves no
//! record behind.

use vstd::prelude::*;
use crate::config::{ConfigModel, InstanceConfig};
use crate::errors::{ErrorModel, InstanceError};
use crate::launcher::{launch_server, planned_launch, LaunchPlan, PlanModel, Probes, ProbesModel};
use crate::shutdown::{pid_digits, pid_of};
use crate::text::{
    decimal, decimal_string, join_path, join_spec, lemma_decimal_round_trip, result_view,
};

verus! {

/// The log directory of a working directory and the two log files in it.
#[derive(Debug)]
pub struct LogFiles {
    /// The directory, to be created if it is missing.
    pub dir: String,
    /// The file for standard output, to be created or emptied.
    pub stdout: String,
    /// The file for standard error, to be created or emptied.
    pub stderr: String,
}

/// The log files of the server that runs in `working_dir`: `server.log`
/// and `server.err` in the directory `logs`.
pub fn create_log_files(working_dir: &str) -> (files: LogFiles)
    ensures
        files.dir@ == join_spec(working_dir@, "logs"@),
        files.stdout@ == join_spec(join_spec(working_dir@, "logs"@), "server.log"@),
        files.stderr@ == join_spec(join_spec(working_dir@, "logs"@), "server.err"@),
{
    let dir = join_path(working_dir, "logs");
    let stdout = join_path(dir.as_str(), "server.log");
    let stderr = join_path(dir.as_str(), "server.err");
    LogFiles { dir, stdout, stderr }
}

/// The start that `start_daemonized` plans: none for a configuration that
/// is not well formed, else the launch that the host's probes allow.
pub open spec fn planned_start(config: ConfigModel, probes: ProbesModel) -> Result<
    PlanModel,
    ErrorModel,
> {
    match config.defect() {
        Some(e) => Err(e),
        None => planned_launch(config, probes),
    }
}

/// Plans the start of the server as a background process. A configuration
/// without a command or a working directory is refused; a server that
/// needs a compatibility layer is not started without one.
pub fn start_daemonized(config: &InstanceConfig, probes: &Probes) -> (plan: Result<
    LaunchPlan,
    InstanceError,
>)
    ensures
        result_view(plan) == planned_start(config@, probes@),
{
    match config.validate() {
        Err(e) => Err(e),
        Ok(_) => launch_server(config, probes),
    }
}

/// A PID record to be written.
#[derive(Debug)]
pub struct PidFile {
    /// Where the record is kept.
    pub path: String,
    /// What is written into it.
    pub contents: String,
}

/// The mathematical content of a [`PidFile`].
pub struct PidFileModel {
    pub path: Seq<char>,
    pub contents: Seq<char>,
}

impl View for PidFile {
    type V = PidFileModel;

    open spec fn view(&self) -> PidFileModel {
        PidFileModel { path: self.path@, contents: self.contents@ }
    }
}

/// The PID record of a started server, or the error of a failed start: a
/// process that was started is recorded by its process id in decimal
/// notation; a process that was not started is a command-execution error
/// and is not recorded.
pub open spec fn start_record(config: ConfigModel, spawned: Result<u32, Seq<char>>) -> Result<
    PidFileModel,
    ErrorModel,
> {
    match spawned {
        Ok(pid) => Ok(PidFileModel { path: config.pid_file(), contents: decimal(pid as nat) }),
        Err(why) => Err(ErrorModel::CommandExecution(why)),
    }
}

/// Concludes a start: says which PID record to write for the process that
/// was started, or turns the host's failure into an error. There is a
/// record to write only if the process was started.
pub fn record_start(config: &InstanceConfig, spawned: &Result<u32, String>) -> (record: Result<
    PidFile,
    InstanceError,
>)
    ensures
        result_view(record) == start_record(config@, result_view(*spawned)),
{
    match spawned {
        Ok(pid) => Ok(
            PidFile { path: config.pid_file(), contents: decimal_string(*pid as u64) },
        ),
        Err(why) => Err(InstanceError::CommandExecutionError(why.clone())),
    }
}

/// A record whose digits are the decimal notation of a positive process
/// id names that process id.
pub proof fn lemma_decimal_record_names_pid(text: Seq<char>, pid: i32)
    requires
        pid > 0,
        pid_digits(text) == decimal(pid as nat),
    ensures
        pid_of(text) == Some(pid),
{
    lemma_decimal_round_trip(pid as nat);
}

} // verus!
