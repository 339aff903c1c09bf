//! One supervised server: its configuration and the operations on it.
//!
//! An instance keeps no state of its own. What lasts is on disk: the PID
//! record, the install manifest, the log files. The host hands in what it
//! read and gets back what to do. The operations of one instance must not
//! run at the same time; the host sees to that.

use vstd::prelude::*;
use crate::config::{ConfigModel, InstanceConfig};
use crate::errors::{ErrorModel, InstanceError};
use crate::install::{install, install_directives};
use crate::launcher::{LaunchPlan, PlanModel, Probes, ProbesModel};
use crate::shutdown::{
    read_pid, recorded_pid, Phase, PidRecord, StopCommand, StopCommandModel, Stopping,
    StoppingModel,
};
use crate::startup::{planned_start, start_daemonized};
use crate::steamcmd::{
    command_result, conclude_command, steamcmd_program, CommandLine, CommandLineModel, RunOutcome,
};
use crate::text::{concat3, decimal, decimal_string, join_path, join_spec, option_view, result_view};
use crate::update::{
    update_command, update_directives, update_due, update_failure, update_is_available,
    update_server,
};

verus! {

/// One supervised server.
#[derive(Debug)]
pub struct Instance {
    pub config: InstanceConfig,
}

impl View for Instance {
    type V = ConfigModel;

    open spec fn view(&self) -> ConfigModel {
        self.config@
    }
}

impl Clone for Instance {
    fn clone(&self) -> (copy: Instance)
        ensures
            copy@ == self@,
    {
        Instance { config: self.config.clone() }
    }
}

/// The words that introduce the exit status of a failed install.
pub open spec fn install_failure() -> Seq<char> {
    "Install failed with status "@
}

/// The install manifest of the application `app_id` below `working_dir`:
/// `steamapps/appmanifest_<app_id>.acf`.
pub open spec fn manifest_path_spec(working_dir: Seq<char>, app_id: nat) -> Seq<char> {
    join_spec(
        join_spec(working_dir, "steamapps"@),
        "appmanifest_"@ + decimal(app_id) + ".acf"@,
    )
}

/// The version file that is read where the operator names none.
pub open spec fn default_appinfo_path() -> Seq<char> {
    "/home/steam/Steam/appcache/appinfo.vdf"@
}

/// The version file that names the latest build: the one the operator
/// configured, else the one in Steam's cache.
pub fn appinfo_path(configured: Option<&str>) -> (path: String)
    ensures
        path@ == match configured {
            Some(p) => p@,
            None => default_appinfo_path(),
        },
{
    match configured {
        Some(p) => String::from_str(p),
        None => String::from_str("/home/steam/Steam/appcache/appinfo.vdf"),
    }
}

/// Whether an update is to be made, as far as the two files tell: it is
/// made only if both could be read and name different builds.
pub open spec fn update_wanted(
    manifest: Result<Seq<char>, Seq<char>>,
    appinfo: Result<Seq<char>, Seq<char>>,
) -> bool {
    update_due(manifest, appinfo) == Ok::<bool, ErrorModel>(true)
}

/// The start that follows a stop: none where the stop failed.
pub open spec fn planned_restart(
    config: ConfigModel,
    stopped: Result<(), ErrorModel>,
    probes: ProbesModel,
) -> Result<PlanModel, ErrorModel> {
    match stopped {
        Err(e) => Err(e),
        Ok(_) => planned_start(config, probes),
    }
}

impl Instance {
    /// An instance with the given configuration.
    pub fn new(config: InstanceConfig) -> (instance: Instance)
        ensures
            instance.config == config,
    {
        Instance { config }
    }

    /// The process id of the running server according to the PID record,
    /// given as the host found it.
    pub fn pid(&self, record: &PidRecord) -> (pid: Result<i32, InstanceError>)
        ensures
            result_view(pid) == recorded_pid(record@),
    {
        read_pid(record)
    }

    /// The command line that installs the server into the working
    /// directory. `additional` are the operator's additional arguments and
    /// `steamcmd_path` the operator's choice of SteamCMD, if any.
    pub fn install_command(&self, additional: Option<&str>, steamcmd_path: Option<&str>) -> (command:
        CommandLine)
        ensures
            command@ == (CommandLineModel {
                program: steamcmd_program(steamcmd_path),
                args: install_directives(
                    self@.app_id,
                    self@.working_dir,
                    self@.force_windows,
                    self@.install_args,
                    option_view(additional),
                ),
            }),
    {
        install(
            self.config.app_id,
            self.config.working_dir.as_str(),
            self.config.force_windows,
            &self.config.install_args,
            additional,
            steamcmd_path,
        )
    }

    /// What the run of the install command means: the server is installed
    /// if the command ended with exit code zero; anything else is a
    /// command-execution error that carries the exit status.
    pub fn install(&self, outcome: &RunOutcome) -> (result: Result<(), InstanceError>)
        ensures
            result_view(result) == command_result(outcome@, install_failure()),
            result is Ok <==> outcome@.success(),
    {
        conclude_command(outcome, "Install failed with status ")
    }

    /// The command line that updates the server in the working directory.
    pub fn update_command(&self, steamcmd_path: Option<&str>) -> (command: CommandLine)
        ensures
            command@ == (CommandLineModel {
                program: steamcmd_program(steamcmd_path),
                args: update_directives(
                    self@.app_id,
                    self@.working_dir,
                    self@.force_windows,
                    self@.install_args,
                ),
            }),
    {
        update_command(
            self.config.app_id,
            self.config.working_dir.as_str(),
            self.config.force_windows,
            &self.config.install_args,
            steamcmd_path,
        )
    }

    /// What the run of the update command means: the server is up to date
    /// if the command ended with exit code zero; anything else is a
    /// command-execution error that carries the exit status.
    pub fn update(&self, outcome: &RunOutcome) -> (result: Result<(), InstanceError>)
        ensures
            result_view(result) == command_result(outcome@, update_failure()),
            result is Ok <==> outcome@.success(),
    {
        update_server(outcome)
    }

    /// The path of the install manifest of the server.
    pub fn manifest_path(&self) -> (path: String)
        ensures
            path@ == manifest_path_spec(self@.working_dir, self@.app_id),
    {
        let dir = join_path(self.config.working_dir.as_str(), "steamapps");
        let id = decimal_string(self.config.app_id as u64);
        let name = concat3("appmanifest_", id.as_str(), ".acf");
        join_path(dir.as_str(), name.as_str())
    }

    /// Whether an update is to be made. `manifest` is the text of the
    /// install manifest and `appinfo` the text of the version file, or the
    /// reason why the file could not be read. Where the builds cannot be
    /// compared no update is made.
    pub fn update_available(
        &self,
        manifest: &Result<String, String>,
        appinfo: &Result<String, String>,
    ) -> (wanted: bool)
        ensures
            wanted == update_wanted(result_view(*manifest), result_view(*appinfo)),
    {
        match update_is_available(manifest, appinfo) {
            Ok(due) => due,
            Err(_) => false,
        }
    }

    /// Plans the start of the server in the background, from what the
    /// host found when it looked for compatibility layers.
    pub fn start(&self, probes: &Probes) -> (plan: Result<LaunchPlan, InstanceError>)
        ensures
            result_view(plan) == planned_start(self@, probes@),
    {
        start_daemonized(&self.config, probes)
    }

    /// Begins to stop the server. The host carries out the command and
    /// reports to the returned [`Stopping`] until it is told to finish.
    pub fn stop(&self) -> (start: (Stopping, StopCommand))
        ensures
            start.0@ == (StoppingModel {
                phase: Phase::Begin,
                command: self@.command,
                record: self@.pid_file(),
            }),
            start.1@ == StopCommandModel::ReadPidRecord(self@.pid_file()),
    {
        let record = self.config.pid_file();
        Stopping::begin(self.config.command.as_str(), record.as_str())
    }

    /// The second half of a restart: given how the stop ended, plans the
    /// start. A stop that failed is the end of the restart; nothing is
    /// started then.
    pub fn restart(&self, stopped: Result<(), InstanceError>, probes: &Probes) -> (plan: Result<
        LaunchPlan,
        InstanceError,
    >)
        ensures
            result_view(plan) == planned_restart(
                self@,
                result_view(stopped),
                probes@,
            ),
    {
        match stopped {
            Err(e) => Err(e),
            Ok(_) => self.start(probes),
        }
    }
}

} // verus!
