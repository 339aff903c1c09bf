//! The command line that installs a server with SteamCMD.

use vstd::prelude::*;
use crate::steamcmd::{
    app_update_arguments, app_update_directives, quit_directive, steamcmd_command, steamcmd_program,
    CommandLine, CommandLineModel,
};
use crate::text::{
    chars_of, lemma_texts_push, option_view, string_of_range, strip_both, strip_bounds, texts,
    Strip,
};

verus! {

/// What the operator's additional arguments add to the command line: the
/// text without surrounding double quotes and then without surrounding
/// whitespace, as one argument; nothing where no text is given or nothing
/// is left of it.
pub open spec fn additional_arguments(raw: Option<Seq<char>>) -> Seq<Seq<char>> {
    match raw {
        None => Seq::empty(),
        Some(text) => {
            let kept = strip_both(strip_both(text, Strip::Quotes), Strip::Whitespace);
            if kept.len() == 0 {
                Seq::empty()
            } else {
                seq![kept]
            }
        },
    }
}

/// Appends the operator's additional arguments, if there are any, to
/// `args`.
pub fn add_additional_args(args: &mut Vec<String>, additional: Option<&str>)
    ensures
        texts(final(args)@) == texts(old(args)@) + additional_arguments(option_view(additional)),
{
    match additional {
        None => {
            assert(texts(args@) + Seq::<Seq<char>>::empty() =~= texts(args@));
        },
        Some(raw) => {
            let chars = chars_of(raw);
            assert(chars@.subrange(0, chars@.len() as int) == chars@);
            let (a, b) = strip_bounds(&chars, 0, chars.len(), Strip::Quotes);
            let (c, d) = strip_bounds(&chars, a, b, Strip::Whitespace);
            if c < d {
                let kept = string_of_range(&chars, c, d);
                proof {
                    lemma_texts_push(args@, kept);
                    assert(texts(args@).push(kept@) =~= texts(args@) + seq![kept@]);
                }
                args.push(kept);
            } else {
                assert(texts(args@) + Seq::<Seq<char>>::empty() =~= texts(args@));
            }
        },
    }
}

/// The arguments of the command line that installs an application.
pub open spec fn install_directives(
    app_id: nat,
    install_dir: Seq<char>,
    force_windows: bool,
    extra_args: Seq<Seq<char>>,
    additional: Option<Seq<char>>,
) -> Seq<Seq<char>> {
    app_update_directives(app_id, install_dir, force_windows, extra_args) + additional_arguments(
        additional,
    ) + seq![quit_directive()]
}

/// The command line that installs, or brings up to date, the application
/// `app_id` in `install_dir`: SteamCMD with the platform override where the
/// Windows build is forced, the installation directory, the anonymous
/// login, the validated update of the application, the caller's extra
/// arguments, the operator's additional arguments, and `+quit`.
pub fn install(
    app_id: u32,
    install_dir: &str,
    force_windows: bool,
    extra_args: &Vec<String>,
    additional: Option<&str>,
    steamcmd_path: Option<&str>,
) -> (command: CommandLine)
    ensures
        command@ == (CommandLineModel {
            program: steamcmd_program(steamcmd_path),
            args: install_directives(
                app_id as nat,
                install_dir@,
                force_windows,
                texts(extra_args@),
                option_view(additional),
            ),
        }),
{
    let mut command = steamcmd_command(steamcmd_path);
    let mut args = app_update_arguments(app_id, install_dir, force_windows, extra_args);
    add_additional_args(&mut args, additional);
    let quit = String::from_str("+quit");
    proof {
        lemma_texts_push(args@, quit);
        assert(texts(args@).push(quit@) =~= texts(args@) + seq![quit_directive()]);
    }
    args.push(quit);
    command.args = args;
    command
}

} // verus!
