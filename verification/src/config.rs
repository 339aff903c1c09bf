//! The configuration of one server deployment and the paths derived from it.

use vstd::prelude::*;
use crate::errors::{ErrorModel, InstanceError};
use crate::text::{clone_texts, join_path, join_spec, texts};

verus! {

/// How the server executable is run on this host.
#[derive(Clone, Copy, Debug, PartialEq, Eq, Structural)]
pub enum LaunchMode {
    /// The executable runs directly.
    Native,
    /// The executable is a Windows program, set up for the Wine runtime. It
    /// is run through the compatibility layer that is found on the host.
    Wine,
    /// The executable is a Windows program, set up for Proton. It is run
    /// through the compatibility layer that is found on the host.
    Proton,
}

/// Identifies one server deployment.
#[derive(Debug)]
pub struct InstanceConfig {
    /// The application identifier known to the package manager.
    pub app_id: u32,
    /// The display name of the server.
    pub name: String,
    /// The command, or path of the executable, that launches the server.
    pub command: String,
    /// Extra arguments for the package manager on install and update.
    pub install_args: Vec<String>,
    /// Extra arguments for the server on launch.
    pub launch_args: Vec<String>,
    /// Whether the Windows build is installed even on another platform.
    pub force_windows: bool,
    /// How the executable is run.
    pub launch_mode: LaunchMode,
    /// The directory in which the server is installed and runs.
    pub working_dir: String,
}

/// The mathematical content of an [`InstanceConfig`].
pub struct ConfigModel {
    pub app_id: nat,
    pub name: Seq<char>,
    pub command: Seq<char>,
    pub install_args: Seq<Seq<char>>,
    pub launch_args: Seq<Seq<char>>,
    pub force_windows: bool,
    pub launch_mode: LaunchMode,
    pub working_dir: Seq<char>,
}

impl View for InstanceConfig {
    type V = ConfigModel;

    open spec fn view(&self) -> ConfigModel {
        ConfigModel {
            app_id: self.app_id as nat,
            name: self.name@,
            command: self.command@,
            install_args: texts(self.install_args@),
            launch_args: texts(self.launch_args@),
            force_windows: self.force_windows,
            launch_mode: self.launch_mode,
            working_dir: self.working_dir@,
        }
    }
}

impl ConfigModel {
    /// A configuration can be used only with a command and a working
    /// directory.
    pub open spec fn well_formed(self) -> bool {
        self.command.len() > 0 && self.working_dir.len() > 0
    }

    /// What is wrong with a configuration that is not well formed.
    pub open spec fn defect(self) -> Option<ErrorModel> {
        if self.command.len() == 0 {
            Some(ErrorModel::Config("command must not be empty"@))
        } else if self.working_dir.len() == 0 {
            Some(ErrorModel::Config("working directory must not be empty"@))
        } else {
            None
        }
    }

    /// Where the process id of the running server is recorded.
    pub open spec fn pid_file(self) -> Seq<char> {
        join_spec(self.working_dir, "instance.pid"@)
    }

    /// The directory of the server's log files.
    pub open spec fn log_dir(self) -> Seq<char> {
        join_spec(self.working_dir, "logs"@)
    }

    /// The file that receives the server's standard output.
    pub open spec fn stdout(self) -> Seq<char> {
        join_spec(self.log_dir(), "server.log"@)
    }

    /// The file that receives the server's standard error.
    pub open spec fn stderr(self) -> Seq<char> {
        join_spec(self.log_dir(), "server.err"@)
    }
}

impl Clone for InstanceConfig {
    fn clone(&self) -> (copy: InstanceConfig)
        ensures
            copy@ == self@,
    {
        InstanceConfig {
            app_id: self.app_id,
            name: self.name.clone(),
            command: self.command.clone(),
            install_args: clone_texts(&self.install_args),
            launch_args: clone_texts(&self.launch_args),
            force_windows: self.force_windows,
            launch_mode: self.launch_mode,
            working_dir: self.working_dir.clone(),
        }
    }
}

impl Default for InstanceConfig {
    /// An empty configuration for the current directory. It is not well
    /// formed until a command is set.
    fn default() -> (config: InstanceConfig)
        ensures
            config@ == (ConfigModel {
                app_id: 0,
                name: Seq::empty(),
                command: Seq::empty(),
                install_args: Seq::empty(),
                launch_args: Seq::empty(),
                force_windows: false,
                launch_mode: LaunchMode::Native,
                working_dir: "."@,
            }),
    {
        let config = InstanceConfig {
            app_id: 0,
            name: String::new(),
            command: String::new(),
            install_args: Vec::new(),
            launch_args: Vec::new(),
            force_windows: false,
            launch_mode: LaunchMode::Native,
            working_dir: String::from_str("."),
        };
        assert(config@.install_args =~= Seq::empty());
        assert(config@.launch_args =~= Seq::empty());
        config
    }
}

impl InstanceConfig {
    /// Checks the invariant of a configuration: the command and the working
    /// directory must not be empty.
    pub fn validate(&self) -> (checked: Result<(), InstanceError>)
        ensures
            match checked {
                Ok(_) => self@.well_formed(),
                Err(e) => self@.defect() == Some(e@),
            },
    {
        if self.command.as_str().is_empty() {
            Err(InstanceError::ConfigError(String::from_str("command must not be empty")))
        } else if self.working_dir.as_str().is_empty() {
            Err(
                InstanceError::ConfigError(
                    String::from_str("working directory must not be empty"),
                ),
            )
        } else {
            Ok(())
        }
    }

    /// Where the process id of the running server is recorded:
    /// `instance.pid` in the working directory.
    pub fn pid_file(&self) -> (path: String)
        ensures
            path@ == self@.pid_file(),
    {
        join_path(self.working_dir.as_str(), "instance.pid")
    }

    /// The directory of the server's log files: `logs` in the working
    /// directory.
    pub fn log_dir(&self) -> (path: String)
        ensures
            path@ == self@.log_dir(),
    {
        join_path(self.working_dir.as_str(), "logs")
    }

    /// The file that receives the server's standard output:
    /// `logs/server.log` in the working directory.
    pub fn stdout(&self) -> (path: String)
        ensures
            path@ == self@.stdout(),
    {
        let dir = self.log_dir();
        join_path(dir.as_str(), "server.log")
    }

    /// The file that receives the server's standard error:
    /// `logs/server.err` in the working directory.
    pub fn stderr(&self) -> (path: String)
        ensures
            path@ == self@.stderr(),
    {
        let dir = self.log_dir();
        join_path(dir.as_str(), "server.err")
    }
}

} // verus!
