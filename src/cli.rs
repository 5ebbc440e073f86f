use vstd::prelude::*;

use crate::text::{is_text, join_spaced, join_with_spaces, string_of, string_views, trim, trim_chars};

verus! {

/// The command line: three flags and the words of a command.
pub struct Cli {
    help: bool,
    interactive: bool,
    version: bool,
    raw_args: Vec<String>,
}

/// What a run of the program is to do.
#[derive(Debug, Clone, PartialEq, Eq)]
pub enum RunAction {
    ShowHelp,
    ShowVersion,
    Interactive,
    NoCommand,
    Dispatch(String),
}

/// What a line typed in interactive mode asks for.
#[derive(Debug, Clone, Copy, PartialEq, Eq, Structural)]
pub enum LineAction {
    Exit,
    Help,
    Version,
    Dispatch,
}

/// Help wins over version, version over interactive mode; otherwise the
/// arguments, joined by spaces and trimmed, are the command.
pub open spec fn run_spec(
    help: bool,
    interactive: bool,
    version: bool,
    args: Seq<Seq<char>>,
    r: RunAction,
) -> bool {
    if help {
        r is ShowHelp
    } else if version {
        r is ShowVersion
    } else if interactive {
        r is Interactive
    } else if trim(join_spaced(args)).len() == 0 {
        r is NoCommand
    } else {
        r matches RunAction::Dispatch(c) && c@ == trim(join_spaced(args))
    }
}

pub open spec fn line_action_spec(cmd: Seq<char>) -> LineAction {
    if cmd == "exit"@ || cmd == "quit"@ {
        LineAction::Exit
    } else if cmd == "-h"@ || cmd == "help"@ || cmd == "--help"@ {
        LineAction::Help
    } else if cmd == "-v"@ || cmd == "version"@ || cmd == "--version"@ {
        LineAction::Version
    } else {
        LineAction::Dispatch
    }
}

impl Cli {
    pub fn new(help: bool, interactive: bool, version: bool, raw_args: Vec<String>) -> (r: Cli)
        ensures
            r.spec_help() == help,
            r.spec_interactive() == interactive,
            r.spec_version() == version,
            r.spec_args() == string_views(raw_args@),
    {
        Cli { help, interactive, version, raw_args }
    }

    pub closed spec fn spec_help(&self) -> bool {
        self.help
    }

    pub closed spec fn spec_interactive(&self) -> bool {
        self.interactive
    }

    pub closed spec fn spec_version(&self) -> bool {
        self.version
    }

    pub closed spec fn spec_args(&self) -> Seq<Seq<char>> {
        string_views(self.raw_args@)
    }

    /// Decides what the program does with this command line.
    pub fn run(&self) -> (r: RunAction)
        ensures
            run_spec(self.spec_help(), self.spec_interactive(), self.spec_version(), self.spec_args(), r),
    {
        if self.help {
            return RunAction::ShowHelp;
        }
        if self.version {
            return RunAction::ShowVersion;
        }
        if self.interactive {
            return RunAction::Interactive;
        }
        let joined = join_with_spaces(&self.raw_args);
        let command = trim_chars(&joined);
        if command.len() == 0 {
            RunAction::NoCommand
        } else {
            RunAction::Dispatch(string_of(&command))
        }
    }
}

/// Reads a trimmed line of interactive mode.
pub fn classify_line(cmd: &String) -> (r: LineAction)
    ensures
        r == line_action_spec(cmd@),
{
    if is_text(cmd, "exit") || is_text(cmd, "quit") {
        LineAction::Exit
    } else if is_text(cmd, "-h") || is_text(cmd, "help") || is_text(cmd, "--help") {
        LineAction::Help
    } else if is_text(cmd, "-v") || is_text(cmd, "version") || is_text(cmd, "--version") {
        LineAction::Version
    } else {
        LineAction::Dispatch
    }
}

} // verus!
