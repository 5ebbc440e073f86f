use vstd::prelude::*;

use crate::text::{split_words, spells, string_of, words};

verus! {

/// A command of the vault's command language.
#[derive(Debug, Clone, PartialEq, Eq)]
pub enum Command {
    Init,
    Add { service: String, username: String, password: String },
    Get { service: Option<String>, username: Option<String> },
    Delete { service: String, username: String },
    Reset,
}

/// A command word given without its arguments, whose arguments are to be
/// asked for one by one.
#[derive(Debug, Clone, Copy, PartialEq, Eq, Structural)]
pub enum PromptFor {
    Add,
    Delete,
}

#[derive(Debug, Clone, PartialEq, Eq)]
pub enum ParseResult {
    Cmd(Command),
    NeedsInput(PromptFor),
    WrongArgs { name: &'static str, usage: &'static str },
    Unknown,
}

pub struct CommandHandler;

pub const ADD_USAGE: &'static str = "add <service> <username> <password>";

pub const GET_USAGE: &'static str = "get [service] [username]";

pub const DELETE_USAGE: &'static str = "delete <service> <username>";

pub open spec fn wrong_args(r: ParseResult, name: Seq<char>, usage: Seq<char>) -> bool {
    r matches ParseResult::WrongArgs { name: n, usage: u } && n@ == name && u@ == usage
}

/// What a command line of the given words means.
pub open spec fn parsed_as(p: Seq<Seq<char>>, r: ParseResult) -> bool {
    if p.len() == 0 {
        r is Unknown
    } else if p[0] == "init"@ {
        if p.len() == 1 {
            r matches ParseResult::Cmd(Command::Init)
        } else {
            r is Unknown
        }
    } else if p[0] == "add"@ {
        if p.len() == 1 {
            r == ParseResult::NeedsInput(PromptFor::Add)
        } else if p.len() == 4 {
            r matches ParseResult::Cmd(Command::Add { service, username, password })
                && service@ == p[1] && username@ == p[2] && password@ == p[3]
        } else {
            wrong_args(r, "add"@, ADD_USAGE@)
        }
    } else if p[0] == "get"@ {
        if p.len() == 1 {
            r matches ParseResult::Cmd(Command::Get { service: None, username: None })
        } else if p.len() == 2 {
            r matches ParseResult::Cmd(Command::Get { service: Some(s), username: None })
                && s@ == p[1]
        } else if p.len() == 3 {
            r matches ParseResult::Cmd(Command::Get { service: Some(s), username: Some(u) })
                && s@ == p[1] && u@ == p[2]
        } else {
            wrong_args(r, "get"@, GET_USAGE@)
        }
    } else if p[0] == "delete"@ {
        if p.len() == 1 {
            r == ParseResult::NeedsInput(PromptFor::Delete)
        } else if p.len() == 3 {
            r matches ParseResult::Cmd(Command::Delete { service, username }) && service@ == p[1]
                && username@ == p[2]
        } else {
            wrong_args(r, "delete"@, DELETE_USAGE@)
        }
    } else if p[0] == "reset"@ {
        if p.len() == 1 {
            r matches ParseResult::Cmd(Command::Reset)
        } else {
            r is Unknown
        }
    } else {
        r is Unknown
    }
}

pub open spec fn char_views(v: Seq<Vec<char>>) -> Seq<Seq<char>> {
    v.map_values(|w: Vec<char>| w@)
}

impl CommandHandler {
    /// Reads a command line: its words, separated by white space, decide the command.
    pub fn parse_command(command_str: &str) -> (r: ParseResult)
        ensures
            parsed_as(words(command_str@), r),
    {
        let parts = split_words(command_str);
        Self::parse_words(&parts)
    }

    /// The meaning of a command line already split into words.
    pub fn parse_words(parts: &Vec<Vec<char>>) -> (r: ParseResult)
        ensures
            parsed_as(char_views(parts@), r),
    {
        let ghost p = char_views(parts@);
        let n = parts.len();
        assert(n as int == p.len());
        if n == 0 {
            return ParseResult::Unknown;
        }
        assert(p[0] == parts@[0]@);
        if n >= 2 {
            assert(p[1] == parts@[1]@);
        }
        if n >= 3 {
            assert(p[2] == parts@[2]@);
        }
        if n >= 4 {
            assert(p[3] == parts@[3]@);
        }
        if spells(&parts[0], "init") {
            if n == 1 {
                ParseResult::Cmd(Command::Init)
            } else {
                ParseResult::Unknown
            }
        } else if spells(&parts[0], "add") {
            if n == 1 {
                ParseResult::NeedsInput(PromptFor::Add)
            } else if n == 4 {
                ParseResult::Cmd(
                    Command::Add {
                        service: string_of(&parts[1]),
                        username: string_of(&parts[2]),
                        password: string_of(&parts[3]),
                    },
                )
            } else {
                ParseResult::WrongArgs { name: "add", usage: ADD_USAGE }
            }
        } else if spells(&parts[0], "get") {
            if n == 1 {
                ParseResult::Cmd(Command::Get { service: None, username: None })
            } else if n == 2 {
                ParseResult::Cmd(Command::Get { service: Some(string_of(&parts[1])), username: None })
            } else if n == 3 {
                ParseResult::Cmd(
                    Command::Get {
                        service: Some(string_of(&parts[1])),
                        username: Some(string_of(&parts[2])),
                    },
                )
            } else {
                ParseResult::WrongArgs { name: "get", usage: GET_USAGE }
            }
        } else if spells(&parts[0], "delete") {
            if n == 1 {
                ParseResult::NeedsInput(PromptFor::Delete)
            } else if n == 3 {
                ParseResult::Cmd(
                    Command::Delete { service: string_of(&parts[1]), username: string_of(&parts[2]) },
                )
            } else {
                ParseResult::WrongArgs { name: "delete", usage: DELETE_USAGE }
            }
        } else if spells(&parts[0], "reset") {
            if n == 1 {
                ParseResult::Cmd(Command::Reset)
            } else {
                ParseResult::Unknown
            }
        } else {
            ParseResult::Unknown
        }
    }
}

} // verus!
