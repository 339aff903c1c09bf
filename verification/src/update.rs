//! Deciding whether an update is due, and the command line that performs
//! it.
//!
//! The installed build is named in the local install manifest, the latest
//! build in a version file that the operator keeps current. Both name it in
//! the form `"buildid" "<digits>"`. An update is due when the two
//! identifiers differ as strings.

use vstd::prelude::*;
use crate::errors::{ErrorModel, InstanceError};
use crate::steamcmd::{
    app_update_arguments, app_update_directives, command_result, conclude_command, quit_directive,
    steamcmd_command, steamcmd_program, CommandLine, CommandLineModel, RunOutcome,
};
use crate::text::{lemma_texts_push, option_view, result_view, texts};

verus! {

/// The regular expression that finds a build identifier.
pub open spec fn build_id_pattern() -> Seq<char> {
    "\"buildid\"\\s+\"(\\d+)\""@
}

/// The text of the first capture group in the leftmost match of the regular
/// expression `pattern` in `text`, as the `regex` crate finds it; `None`
/// where the pattern is not a regular expression, nothing matches, or the
/// group takes no part in the match.
pub uninterp spec fn regex_capture(pattern: Seq<char>, text: Seq<char>) -> Option<Seq<char>>;

/// `regex::Regex::new` on `pattern`, then `Regex::captures` on `text` and
/// the text of group 1.
#[verifier::external_body]
fn capture_group(pattern: &str, text: &str) -> (found: Option<String>)
    ensures
        option_view(found) == regex_capture(pattern@, text@),
{
    let expression = regex::Regex::new(pattern).ok()?;
    let captures = expression.captures(text)?;
    Some(captures.get(1)?.as_str().to_string())
}

/// The build identifier that `text` names, if it names one.
pub open spec fn build_id(text: Seq<char>) -> Option<Seq<char>> {
    regex_capture(build_id_pattern(), text)
}

/// The build identifier that `text` names, if it names one.
pub fn find_build_id(text: &str) -> (found: Option<String>)
    ensures
        option_view(found) == build_id(text@),
{
    capture_group("\"buildid\"\\s+\"(\\d+)\"", text)
}

/// The error for a text that names no build identifier; `source` says
/// which text it was.
pub open spec fn missing_build_id(source: Seq<char>) -> ErrorModel {
    ErrorModel::Parse("Failed to extract buildid from "@ + source)
}

/// What a search for a build identifier in `source` comes to: the
/// identifier, or a parse error where none was found.
pub open spec fn required_build_id(found: Option<Seq<char>>, source: Seq<char>) -> Result<
    Seq<char>,
    ErrorModel,
> {
    match found {
        Some(id) => Ok(id),
        None => Err(missing_build_id(source)),
    }
}

/// Turns the outcome of a search for a build identifier into a result: a
/// text without one is a parse error.
pub fn require_build_id(found: Option<String>, source: &str) -> (id: Result<String, InstanceError>)
    ensures
        result_view(id) == required_build_id(option_view(found), source@),
{
    match found {
        Some(id) => Ok(id),
        None => Err(
            InstanceError::ParseError(crate::text::concat("Failed to extract buildid from ", source)),
        ),
    }
}

/// The build identifier of the installed server, from the text of the
/// install manifest.
pub fn extract_build_id_from_manifest(manifest: &str) -> (id: Result<String, InstanceError>)
    ensures
        result_view(id) == required_build_id(build_id(manifest@), "manifest"@),
{
    require_build_id(find_build_id(manifest), "manifest")
}

/// The build identifier of the latest release, from the text of the
/// version file.
pub fn extract_build_id_from_app_info(app_info: &str) -> (id: Result<String, InstanceError>)
    ensures
        result_view(id) == required_build_id(build_id(app_info@), "appinfo"@),
{
    require_build_id(find_build_id(app_info), "appinfo")
}

/// The two build identifiers that decide whether an update is due.
#[derive(Debug)]
pub struct UpdateInfo {
    /// The build that is installed.
    pub current_build_id: String,
    /// The build that is the latest.
    pub latest_build_id: String,
}

/// The mathematical content of an [`UpdateInfo`].
pub struct UpdateModel {
    pub current_build_id: Seq<char>,
    pub latest_build_id: Seq<char>,
}

impl View for UpdateInfo {
    type V = UpdateModel;

    open spec fn view(&self) -> UpdateModel {
        UpdateModel {
            current_build_id: self.current_build_id@,
            latest_build_id: self.latest_build_id@,
        }
    }
}

impl UpdateModel {
    /// An update is due when the two identifiers are not the same string.
    pub open spec fn update_available(self) -> bool {
        self.current_build_id != self.latest_build_id
    }
}

/// The comparison that the two files allow: the manifest is looked at
/// first, then the version file; a file that could not be read is an I/O
/// error, a file without a build identifier a parse error.
pub open spec fn update_info(
    manifest: Result<Seq<char>, Seq<char>>,
    appinfo: Result<Seq<char>, Seq<char>>,
) -> Result<UpdateModel, ErrorModel> {
    match manifest {
        Err(why) => Err(ErrorModel::Io(why)),
        Ok(m) => match required_build_id(build_id(m), "manifest"@) {
            Err(e) => Err(e),
            Ok(current) => match appinfo {
                Err(why) => Err(ErrorModel::Io(why)),
                Ok(a) => match required_build_id(build_id(a), "appinfo"@) {
                    Err(e) => Err(e),
                    Ok(latest) => Ok(
                        UpdateModel { current_build_id: current, latest_build_id: latest },
                    ),
                },
            },
        },
    }
}

/// Whether an update is due according to the two files, or why that cannot
/// be said.
pub open spec fn update_due(
    manifest: Result<Seq<char>, Seq<char>>,
    appinfo: Result<Seq<char>, Seq<char>>,
) -> Result<bool, ErrorModel> {
    match update_info(manifest, appinfo) {
        Ok(info) => Ok(info.update_available()),
        Err(e) => Err(e),
    }
}

impl UpdateInfo {
    /// Compares the build named in the install manifest with the build
    /// named in the version file. Each argument is the text of the file
    /// or, where it could not be read, the host's reason.
    pub fn new(manifest: &Result<String, String>, appinfo: &Result<String, String>) -> (info:
        Result<UpdateInfo, InstanceError>)
        ensures
            result_view(info) == update_info(result_view(*manifest), result_view(*appinfo)),
    {
        let manifest_data = match manifest {
            Ok(text) => text,
            Err(why) => {
                return Err(InstanceError::IoError(why.clone()));
            },
        };
        let current_build_id = match extract_build_id_from_manifest(manifest_data.as_str()) {
            Ok(id) => id,
            Err(e) => {
                return Err(e);
            },
        };
        let appinfo_data = match appinfo {
            Ok(text) => text,
            Err(why) => {
                return Err(InstanceError::IoError(why.clone()));
            },
        };
        let latest_build_id = match extract_build_id_from_app_info(appinfo_data.as_str()) {
            Ok(id) => id,
            Err(e) => {
                return Err(e);
            },
        };
        Ok(UpdateInfo { current_build_id, latest_build_id })
    }

    /// Whether an update is due: the two build identifiers are not the
    /// same string. The identifiers are not read as numbers.
    pub fn update_available(&self) -> (due: bool)
        ensures
            due == self@.update_available(),
            due == (self.current_build_id@ != self.latest_build_id@),
    {
        !(self.current_build_id == self.latest_build_id)
    }
}

/// Whether an update is due according to the install manifest and the
/// version file, each given as the text of the file or the reason why it
/// could not be read.
pub fn update_is_available(manifest: &Result<String, String>, appinfo: &Result<String, String>) -> (due:
    Result<bool, InstanceError>)
    ensures
        result_view(due) == update_due(result_view(*manifest), result_view(*appinfo)),
{
    match UpdateInfo::new(manifest, appinfo) {
        Ok(info) => Ok(info.update_available()),
        Err(e) => Err(e),
    }
}

/// The arguments of the command line that updates an application.
pub open spec fn update_directives(
    app_id: nat,
    install_dir: Seq<char>,
    force_windows: bool,
    extra_args: Seq<Seq<char>>,
) -> Seq<Seq<char>> {
    app_update_directives(app_id, install_dir, force_windows, extra_args) + seq![quit_directive()]
}

/// The command line that updates the application `app_id` in
/// `install_dir`: SteamCMD with the platform override where the Windows
/// build is forced, the installation directory, the anonymous login, the
/// validated update of the application, the caller's extra arguments, and
/// `+quit`.
pub fn update_command(
    app_id: u32,
    install_dir: &str,
    force_windows: bool,
    extra_args: &Vec<String>,
    steamcmd_path: Option<&str>,
) -> (command: CommandLine)
    ensures
        command@ == (CommandLineModel {
            program: steamcmd_program(steamcmd_path),
            args: update_directives(app_id as nat, install_dir@, force_windows, texts(extra_args@)),
        }),
{
    let mut command = steamcmd_command(steamcmd_path);
    let mut args = app_update_arguments(app_id, install_dir, force_windows, extra_args);
    let quit = String::from_str("+quit");
    proof {
        lemma_texts_push(args@, quit);
        assert(texts(args@).push(quit@) =~= texts(args@) + seq![quit_directive()]);
    }
    args.push(quit);
    command.args = args;
    command
}

/// The words that introduce the exit status of a failed update.
pub open spec fn update_failure() -> Seq<char> {
    "Update failed with status: "@
}

/// What the run of the update command means: the update succeeded if the
/// command ended with exit code zero; anything else is a command-execution
/// error that carries the exit status.
pub fn update_server(outcome: &RunOutcome) -> (result: Result<(), InstanceError>)
    ensures
        result_view(result) == command_result(outcome@, update_failure()),
        result is Ok <==> outcome@.success(),
{
    conclude_command(outcome, "Update failed with status: ")
}

} // verus!
