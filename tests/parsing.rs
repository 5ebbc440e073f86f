use vault_cli::cli::{classify_line, Cli, LineAction, RunAction};
use vault_cli::command::{Command, CommandHandler, ParseResult, PromptFor};
use vault_cli::text::trimmed;

#[test]
fn parse_init_and_reset() {
    assert_eq!(CommandHandler::parse_command("init"), ParseResult::Cmd(Command::Init));
    assert_eq!(CommandHandler::parse_command("  reset \t"), ParseResult::Cmd(Command::Reset));
    assert_eq!(CommandHandler::parse_command("init now"), ParseResult::Unknown);
}

#[test]
fn parse_add_forms() {
    assert_eq!(
        CommandHandler::parse_command("add github alice p@ss"),
        ParseResult::Cmd(Command::Add {
            service: "github".to_string(),
            username: "alice".to_string(),
            password: "p@ss".to_string(),
        })
    );
    assert_eq!(CommandHandler::parse_command("add"), ParseResult::NeedsInput(PromptFor::Add));
    assert_eq!(
        CommandHandler::parse_command("add github alice"),
        ParseResult::WrongArgs { name: "add", usage: "add <service> <username> <password>" }
    );
}

#[test]
fn parse_get_forms() {
    assert_eq!(
        CommandHandler::parse_command("get"),
        ParseResult::Cmd(Command::Get { service: None, username: None })
    );
    assert_eq!(
        CommandHandler::parse_command("get github"),
        ParseResult::Cmd(Command::Get { service: Some("github".to_string()), username: None })
    );
    assert_eq!(
        CommandHandler::parse_command("get  github   alice"),
        ParseResult::Cmd(Command::Get {
            service: Some("github".to_string()),
            username: Some("alice".to_string()),
        })
    );
    assert_eq!(
        CommandHandler::parse_command("get a b c"),
        ParseResult::WrongArgs { name: "get", usage: "get [service] [username]" }
    );
}

#[test]
fn parse_delete_forms() {
    assert_eq!(CommandHandler::parse_command("delete"), ParseResult::NeedsInput(PromptFor::Delete));
    assert_eq!(
        CommandHandler::parse_command("delete github alice"),
        ParseResult::Cmd(Command::Delete { service: "github".to_string(), username: "alice".to_string() })
    );
    assert_eq!(
        CommandHandler::parse_command("delete github"),
        ParseResult::WrongArgs { name: "delete", usage: "delete <service> <username>" }
    );
}

#[test]
fn parse_unknown_and_empty() {
    assert_eq!(CommandHandler::parse_command(""), ParseResult::Unknown);
    assert_eq!(CommandHandler::parse_command("   "), ParseResult::Unknown);
    assert_eq!(CommandHandler::parse_command("ADD a b c"), ParseResult::Unknown);
    assert_eq!(CommandHandler::parse_command("list"), ParseResult::Unknown);
}

#[test]
fn cli_run_decides() {
    assert_eq!(Cli::new(true, true, true, vec![]).run(), RunAction::ShowHelp);
    assert_eq!(Cli::new(false, true, true, vec![]).run(), RunAction::ShowVersion);
    assert_eq!(Cli::new(false, true, false, vec![]).run(), RunAction::Interactive);
    assert_eq!(Cli::new(false, false, false, vec![]).run(), RunAction::NoCommand);
    assert_eq!(Cli::new(false, false, false, vec![" ".to_string()]).run(), RunAction::NoCommand);
    let args = vec!["add".to_string(), "github".to_string(), "alice".to_string(), "pw".to_string()];
    assert_eq!(
        Cli::new(false, false, false, args).run(),
        RunAction::Dispatch("add github alice pw".to_string())
    );
}

#[test]
fn interactive_lines() {
    assert_eq!(classify_line(&"exit".to_string()), LineAction::Exit);
    assert_eq!(classify_line(&"quit".to_string()), LineAction::Exit);
    assert_eq!(classify_line(&"--help".to_string()), LineAction::Help);
    assert_eq!(classify_line(&"-v".to_string()), LineAction::Version);
    assert_eq!(classify_line(&"get".to_string()), LineAction::Dispatch);
}

#[test]
fn trim_removes_unicode_white_space() {
    assert_eq!(trimmed("\u{a0} get \r\n"), "get");
    assert_eq!(trimmed("   "), "");
}
