//! Command lines for SteamCMD, the package manager that installs and
//! updates a server, and the meaning of what running one of them yields.

use vstd::prelude::*;
use crate::errors::{ErrorModel, InstanceError};
use crate::text::{
    append_texts, concat, concat3, decimal, decimal_string, result_view, signed_decimal,
    signed_decimal_string, texts,
};

verus! {

/// A program and its arguments.
#[derive(Debug)]
pub struct CommandLine {
    pub program: String,
    pub args: Vec<String>,
}

/// The mathematical content of a [`CommandLine`].
pub struct CommandLineModel {
    pub program: Seq<char>,
    pub args: Seq<Seq<char>>,
}

impl View for CommandLine {
    type V = CommandLineModel;

    open spec fn view(&self) -> CommandLineModel {
        CommandLineModel { program: self.program@, args: texts(self.args@) }
    }
}

/// What came of running a command to its end.
#[derive(Debug)]
pub enum RunOutcome {
    /// The command ran and ended, with this exit code unless a signal ended
    /// it.
    Finished(Option<i32>),
    /// The command could not be run; the host says why.
    NotRun(String),
}

/// The mathematical content of a [`RunOutcome`].
pub enum OutcomeModel {
    Finished(Option<i32>),
    NotRun(Seq<char>),
}

impl View for RunOutcome {
    type V = OutcomeModel;

    open spec fn view(&self) -> OutcomeModel {
        match self {
            RunOutcome::Finished(code) => OutcomeModel::Finished(*code),
            RunOutcome::NotRun(why) => OutcomeModel::NotRun(why@),
        }
    }
}

impl OutcomeModel {
    /// A command succeeded if it ran and ended with exit code zero.
    pub open spec fn success(self) -> bool {
        self == OutcomeModel::Finished(Some(0i32))
    }
}

/// The program that is run as SteamCMD: the configured path, or `steamcmd`
/// on the search path.
pub open spec fn steamcmd_program(path: Option<&str>) -> Seq<char> {
    match path {
        Some(p) => p@,
        None => "steamcmd"@,
    }
}

/// The command line of SteamCMD without arguments. `path` is the operator's
/// choice of executable, if any.
pub fn steamcmd_command(path: Option<&str>) -> (command: CommandLine)
    ensures
        command@ == (CommandLineModel { program: steamcmd_program(path), args: Seq::empty() }),
{
    let program = match path {
        Some(p) => String::from_str(p),
        None => String::from_str("steamcmd"),
    };
    let command = CommandLine { program, args: Vec::new() };
    assert(command@.args =~= Seq::empty());
    command
}

/// The command line that runs SteamCMD with the given arguments.
pub fn run_steamcmd(path: Option<&str>, args: &Vec<String>) -> (command: CommandLine)
    ensures
        command@ == (CommandLineModel { program: steamcmd_program(path), args: texts(args@) }),
{
    let mut command = steamcmd_command(path);
    append_texts(&mut command.args, args);
    assert(Seq::<Seq<char>>::empty() + texts(args@) =~= texts(args@));
    command
}

/// The directive that forces the Windows build of an application.
pub open spec fn platform_directive() -> Seq<char> {
    "+@sSteamCmdForcePlatformType windows"@
}

/// The directive that sets the directory of the installation.
pub open spec fn install_dir_directive(install_dir: Seq<char>) -> Seq<char> {
    "+force_install_dir "@ + install_dir
}

/// The directive that logs in without an account.
pub open spec fn login_directive() -> Seq<char> {
    "+login anonymous"@
}

/// The directive that brings an application up to date and checks its
/// files.
pub open spec fn app_update_directive(app_id: nat) -> Seq<char> {
    "+app_update "@ + decimal(app_id) + " validate"@
}

/// The directive that ends the session.
pub open spec fn quit_directive() -> Seq<char> {
    "+quit"@
}

/// The directives that install or update an application, without the
/// closing `+quit`: the platform override where the Windows build is
/// forced, the installation directory, the anonymous login, the update of
/// the application, and then what the caller adds.
pub open spec fn app_update_directives(
    app_id: nat,
    install_dir: Seq<char>,
    force_windows: bool,
    extra_args: Seq<Seq<char>>,
) -> Seq<Seq<char>> {
    (if force_windows {
        seq![platform_directive()]
    } else {
        Seq::empty()
    }) + seq![
        install_dir_directive(install_dir),
        login_directive(),
        app_update_directive(app_id),
    ] + extra_args
}

/// The directives that install or update an application, without the
/// closing `+quit`.
pub fn app_update_arguments(
    app_id: u32,
    install_dir: &str,
    force_windows: bool,
    extra_args: &Vec<String>,
) -> (args: Vec<String>)
    ensures
        texts(args@) == app_update_directives(
            app_id as nat,
            install_dir@,
            force_windows,
            texts(extra_args@),
        ),
{
    let mut args: Vec<String> = Vec::new();
    if force_windows {
        args.push(String::from_str("+@sSteamCmdForcePlatformType windows"));
    }
    let id = decimal_string(app_id as u64);
    args.push(concat("+force_install_dir ", install_dir));
    args.push(String::from_str("+login anonymous"));
    args.push(concat3("+app_update ", id.as_str(), " validate"));
    let ghost head = args@;
    assert(texts(head) =~= (if force_windows {
        seq![platform_directive()]
    } else {
        Seq::empty()
    }) + seq![
        install_dir_directive(install_dir@),
        login_directive(),
        app_update_directive(app_id as nat),
    ]);
    append_texts(&mut args, extra_args);
    args
}

/// How the end of a command is put into words.
pub open spec fn status_text(code: Option<i32>) -> Seq<char> {
    match code {
        Some(c) => "exit status: "@ + signed_decimal(c as int),
        None => "terminated by a signal"@,
    }
}

/// How the end of a command is put into words.
pub fn describe_status(code: Option<i32>) -> (text: String)
    ensures
        text@ == status_text(code),
{
    match code {
        Some(c) => {
            let number = signed_decimal_string(c);
            concat("exit status: ", number.as_str())
        },
        None => String::from_str("terminated by a signal"),
    }
}

/// What the outcome of a command means for the operation that ran it:
/// success if the command ended with exit code zero; otherwise a
/// command-execution error that carries the exit status behind `failure`,
/// or the host's reason where the command did not run at all.
pub open spec fn command_result(outcome: OutcomeModel, failure: Seq<char>) -> Result<
    (),
    ErrorModel,
> {
    match outcome {
        OutcomeModel::Finished(code) => if code == Some(0i32) {
            Ok(())
        } else {
            Err(ErrorModel::CommandExecution(failure + status_text(code)))
        },
        OutcomeModel::NotRun(why) => Err(ErrorModel::CommandExecution(why)),
    }
}

/// What the outcome of a command means for the operation that ran it.
/// `failure` introduces the exit status in the error message.
pub fn conclude_command(outcome: &RunOutcome, failure: &str) -> (result: Result<(), InstanceError>)
    ensures
        result_view(result) == command_result(outcome@, failure@),
{
    match outcome {
        RunOutcome::Finished(code) => {
            match code {
                Some(0) => Ok(()),
                _ => {
                    let status = describe_status(*code);
                    Err(InstanceError::CommandExecutionError(concat(failure, status.as_str())))
                },
            }
        },
        RunOutcome::NotRun(why) => Err(InstanceError::CommandExecutionError(why.clone())),
    }
}

} // verus!
