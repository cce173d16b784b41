//! Global command-line options and the early reading of `--lang`, which is
//! needed before the localized help can be rendered.

use vstd::prelude::*;
use vstd::string::*;
use crate::rpc::str_eq;
use crate::text::starts_with;

verus! {

/// The subcommands of the interface.
#[derive(Clone, Copy, Debug, PartialEq, Eq, Structural)]
pub enum CommandName {
    Clone,
    New,
    Init,
    Diff,
    History,
    Save,
    Start,
    Status,
}

/// The parsed command line: the interface locale, the project directory and
/// the subcommand, if any (without one, the project is validated).
pub struct Cli {
    pub lang: Option<String>,
    pub project_dir: String,
    pub command: Option<CommandName>,
}

/// The name under which a subcommand is invoked.
pub fn command_name(command: CommandName) -> (name: &'static str)
    ensures
        name@ == match command {
            CommandName::Clone => "clone"@,
            CommandName::New => "new"@,
            CommandName::Init => "init"@,
            CommandName::Diff => "diff"@,
            CommandName::History => "history"@,
            CommandName::Save => "save"@,
            CommandName::Start => "start"@,
            CommandName::Status => "status"@,
        },
{
    match command {
        CommandName::Clone => "clone",
        CommandName::New => "new",
        CommandName::Init => "init",
        CommandName::Diff => "diff",
        CommandName::History => "history",
        CommandName::Save => "save",
        CommandName::Start => "start",
        CommandName::Status => "status",
    }
}

/// The `--lang` value given at or after position `i`; reading stops at `--`.
/// An argument that is not UTF-8 is `None`.
pub open spec fn lang_from(args: Seq<Option<Seq<char>>>, i: int) -> Option<Seq<char>>
    decreases args.len() - i,
{
    if i < 0 || i >= args.len() {
        None
    } else {
        match args[i] {
            Some(a) => if a == "--"@ {
                None
            } else if a == "--lang"@ {
                if i + 1 < args.len() {
                    args[i + 1]
                } else {
                    None
                }
            } else if a.len() >= 7 && a.subrange(0, 7) == "--lang="@ {
                Some(a.subrange(7, a.len() as int))
            } else {
                lang_from(args, i + 1)
            },
            None => lang_from(args, i + 1),
        }
    }
}

pub open spec fn args_view(args: Seq<Option<String>>) -> Seq<Option<Seq<char>>> {
    args.map_values(|a: Option<String>| match a {
        Some(s) => Some(s@),
        None => None,
    })
}

/// Extracts the global `--lang` value (as `--lang VALUE` or `--lang=VALUE`)
/// that is needed before the parser renders localized help; the program name
/// in the first position is skipped.
pub fn bootstrap_lang(args: &[Option<String>]) -> (lang: Option<String>)
    ensures
        match lang_from(args_view(args@), 1) {
            Some(v) => lang matches Some(s) && s@ == v,
            None => lang is None,
        },
{
    let ghost view = args_view(args@);
    proof {
        reveal_strlit("--lang=");
    }
    let mut i: usize = 1;
    while i < args.len()
        invariant
            1 <= i,
            view == args_view(args@),
            lang_from(view, 1) == lang_from(view, i as int),
        decreases args.len() - i,
    {
        assert(view[i as int] == match args@[i as int] {
            Some(s) => Some(s@),
            None => None::<Seq<char>>,
        });
        match &args[i] {
            Some(argument) => {
                let a = argument.as_str();
                if str_eq(a, "--") {
                    return None;
                }
                if str_eq(a, "--lang") {
                    if i + 1 < args.len() {
                        assert(view[i + 1] == match args@[i + 1] {
                            Some(s) => Some(s@),
                            None => None::<Seq<char>>,
                        });
                        return match &args[i + 1] {
                            Some(value) => Some(value.clone()),
                            None => None,
                        };
                    }
                    return None;
                }
                proof {
                    reveal_strlit("--lang=");
                    assert("--lang="@.len() == 7);
                }
                if starts_with(a, "--lang=") {
                    let n = a.unicode_len();
                    return Some(a.substring_char(7, n).to_owned());
                }
            },
            None => {},
        }
        i = i + 1;
    }
    None
}

/// Whether a diff of workspace members also shows the workspace's own
/// files: when the workspace is asked for, or when no project is named and
/// the command does not run inside a member.
pub fn includes_workspace_files(workspace: bool, named_projects: usize, inside_member: bool) -> (r: bool)
    ensures
        r == (workspace || (named_projects == 0 && !inside_member)),
{
    workspace || (named_projects == 0 && !inside_member)
}

/// The revisions that a diff compares: none without revisions, else the
/// first one given against the second, or against `HEAD` where only one is.
pub fn revision_range(revisions: &Vec<String>) -> (r: Option<(String, String)>)
    ensures
        revisions@.len() == 0 ==> r is None,
        revisions@.len() > 0 ==> (r matches Some((from, to)) && from@ == revisions@[0]@ && to@ == (if revisions@.len() > 1 {
            revisions@[1]@
        } else {
            "HEAD"@
        })),
{
    if revisions.len() == 0 {
        return None;
    }
    let from = revisions[0].clone();
    let to = if revisions.len() > 1 {
        revisions[1].clone()
    } else {
        "HEAD".to_owned()
    };
    Some((from, to))
}

} // verus!
