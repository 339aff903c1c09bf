//! The errors that instance operations report.

use vstd::prelude::*;
use crate::text::concat;

verus! {

/// An error of an instance operation. Each variant carries a message for
/// the operator.
#[derive(Debug)]
pub enum InstanceError {
    /// The package manager could not be driven.
    SteamCmdError(String),
    /// A process could not be signalled, or no process to stop was found.
    ProcessError(String),
    /// The configuration is malformed or misses something required.
    ConfigError(String),
    /// A subprocess could not be run or finished with a non-zero status.
    CommandExecutionError(String),
    /// A file could not be read, written or removed.
    IoError(String),
    /// A PID record or a build identifier could not be parsed.
    ParseError(String),
    /// Anything else, such as an exhausted search for a compatibility layer.
    Unknown(String),
}

/// The mathematical content of an [`InstanceError`].
pub enum ErrorModel {
    SteamCmd(Seq<char>),
    Process(Seq<char>),
    Config(Seq<char>),
    CommandExecution(Seq<char>),
    Io(Seq<char>),
    Parse(Seq<char>),
    Unknown(Seq<char>),
}

impl View for InstanceError {
    type V = ErrorModel;

    open spec fn view(&self) -> ErrorModel {
        match self {
            InstanceError::SteamCmdError(m) => ErrorModel::SteamCmd(m@),
            InstanceError::ProcessError(m) => ErrorModel::Process(m@),
            InstanceError::ConfigError(m) => ErrorModel::Config(m@),
            InstanceError::CommandExecutionError(m) => ErrorModel::CommandExecution(m@),
            InstanceError::IoError(m) => ErrorModel::Io(m@),
            InstanceError::ParseError(m) => ErrorModel::Parse(m@),
            InstanceError::Unknown(m) => ErrorModel::Unknown(m@),
        }
    }
}

impl ErrorModel {
    /// The message that the error carries.
    pub open spec fn message(self) -> Seq<char> {
        match self {
            ErrorModel::SteamCmd(m) => m,
            ErrorModel::Process(m) => m,
            ErrorModel::Config(m) => m,
            ErrorModel::CommandExecution(m) => m,
            ErrorModel::Io(m) => m,
            ErrorModel::Parse(m) => m,
            ErrorModel::Unknown(m) => m,
        }
    }

    /// The words that introduce the message when the error is shown.
    pub open spec fn heading(self) -> Seq<char> {
        match self {
            ErrorModel::SteamCmd(_) => "SteamCMD error: "@,
            ErrorModel::Process(_) => "Process error: "@,
            ErrorModel::Config(_) => "Configuration error: "@,
            ErrorModel::CommandExecution(_) => "Command execution error: "@,
            ErrorModel::Io(_) => "I/O error: "@,
            ErrorModel::Parse(_) => "Parse error: "@,
            ErrorModel::Unknown(_) => "Unknown error: "@,
        }
    }

    /// The error as shown to the operator: heading, then message.
    pub open spec fn shown(self) -> Seq<char> {
        self.heading() + self.message()
    }
}

impl InstanceError {
    /// The message that the error carries.
    pub fn message(&self) -> (m: &str)
        ensures
            m@ == self@.message(),
    {
        match self {
            InstanceError::SteamCmdError(m) => m.as_str(),
            InstanceError::ProcessError(m) => m.as_str(),
            InstanceError::ConfigError(m) => m.as_str(),
            InstanceError::CommandExecutionError(m) => m.as_str(),
            InstanceError::IoError(m) => m.as_str(),
            InstanceError::ParseError(m) => m.as_str(),
            InstanceError::Unknown(m) => m.as_str(),
        }
    }

    /// The error as shown to the operator: the kind of error, then its
    /// message.
    pub fn describe(&self) -> (text: String)
        ensures
            text@ == self@.shown(),
    {
        match self {
            InstanceError::SteamCmdError(m) => concat("SteamCMD error: ", m.as_str()),
            InstanceError::ProcessError(m) => concat("Process error: ", m.as_str()),
            InstanceError::ConfigError(m) => concat("Configuration error: ", m.as_str()),
            InstanceError::CommandExecutionError(m) => concat(
                "Command execution error: ",
                m.as_str(),
            ),
            InstanceError::IoError(m) => concat("I/O error: ", m.as_str()),
            InstanceError::ParseError(m) => concat("Parse error: ", m.as_str()),
            InstanceError::Unknown(m) => concat("Unknown error: ", m.as_str()),
        }
    }
}

} // verus!
