use climb::app::App;
use climb::command::{Command, CommandOption, __COpt};
use climb::help::{append_error, format_cmd_str, format_entry, format_option_str, pad, with_error};
use climb::matcher::ParseError;
use climb::text::to_decimal;
use climb::types::FunctionResult;

fn nothing(_: Vec<String>, _: Vec<bool>, _: Vec<Option<String>>) -> FunctionResult {
    Ok(None)
}

fn files() -> App {
    App::new("files", "Handles files", "0.3.1")
        .command(
            Command::new("copy", "Copies a file", nothing)
                .alias("c")
                .arg("from")
                .arg("to")
                .option(CommandOption::new("force", "Overwrites the target").alias("f"))
                .option(CommandOption::new("name", "Names the copy").arg("text")),
        )
        .unwrap()
        .command(Command::new("list", "Lists the files", nothing))
        .unwrap()
}

#[test]
fn numbers_are_written_in_decimal() {
    assert_eq!(to_decimal(0), "0");
    assert_eq!(to_decimal(7), "7");
    assert_eq!(to_decimal(10), "10");
    assert_eq!(to_decimal(1234567890), "1234567890");
    assert_eq!(to_decimal(1005), "1005");
    assert_eq!(to_decimal(usize::MAX), usize::MAX.to_string());
}

#[test]
fn texts_are_filled_with_blanks() {
    assert_eq!(pad(String::from("ab"), 5), "ab   ");
    assert_eq!(pad(String::from("abcde"), 5), "abcde");
    assert_eq!(pad(String::from("abcdef"), 5), "abcdef");
    assert_eq!(pad(String::new(), 3), "   ");
    assert_eq!(pad(String::from("ab"), 0), "ab");
    // a character counts once, whatever it takes to store
    assert_eq!(pad(String::from("éé"), 4), "éé  ");
}

#[test]
fn option_line_is_laid_out() {
    let flag = __COpt::new("help", Some("h"), "Print help");
    assert_eq!(format_option_str(&flag), "    -h, --help      Print help");
    assert_eq!(format_option_str(&flag), format!("{:<20}{}", "    -h, --help", "Print help"));
    let flag = __COpt::new("version", None, "Print version");
    assert_eq!(format_option_str(&flag), "        , --version Print version");
    let flag = __COpt::new("a-very-long-option", Some("a"), "Long");
    assert_eq!(format_option_str(&flag), "    -a, --a-very-long-optionLong");
    let line = format_entry(
        &String::from("name"),
        &Some(String::from("n")),
        Some(&String::from("text")),
        &String::from("Names the copy"),
        30,
    );
    assert_eq!(line, "    -n, --name <text>         Names the copy");
    let line = format_entry(&String::from("name"), &None, None, &String::new(), 0);
    assert_eq!(line, "        , --name");
}

#[test]
fn command_line_is_laid_out() {
    let app = files();
    assert_eq!(format_cmd_str(&app.commands[0]), "    copy, c Copies a file");
    assert_eq!(format_cmd_str(&app.commands[1]), "    list    Lists the files");
    assert_eq!(
        format_cmd_str(&Command::new("synchronise", "Long", nothing)),
        "    synchroniseLong"
    );
}

#[test]
fn help_of_the_app_is_laid_out() {
    let expected = "Handles files\n\
        \n\
        Usage: files [COMMAND] [OPTIONS]\n\
        \n\
        Options:\n    -h, --help      Print help\n    -v, --version   Print version\n\
        \n\
        Available commands:\n    copy, c Copies a file\n    list    Lists the files\n\
        \n\
        Use `files [COMMAND] --help` to see more information about a certain command\n";
    assert_eq!(files().help_app(), expected);
    let empty = "\n\nUsage:  [COMMAND] [OPTIONS]\n\nOptions:\n    -h, --help      Print help\n    -v, --version   Print version\n\nAvailable commands:\n\nUse ` [COMMAND] --help` to see more information about a certain command\n";
    assert_eq!(App::new("", "", "").help_app(), empty);
}

#[test]
fn help_of_a_command_is_laid_out() {
    let app = files();
    let expected = "Copies a file\n\
        \n\
        USAGE:\n\tfiles copy [OPTIONS] <FROM> <TO>\n\
        \n\
        ARGS:\n\t<FROM>\n\t<TO>\n\
        \n\
        OPTIONS:\n    -f, --force               Overwrites the target\n    -h, --help                Print help\n        , --name <TEXT>       Names the copy\n";
    assert_eq!(app.help_command(&app.commands[0]), expected);
    let expected = "Lists the files\n\nUSAGE:\n\tfiles list [OPTIONS]\n\nOPTIONS:\n    -h, --help                Print help\n";
    assert_eq!(app.help_command(&app.commands[1]), expected);
    let bare = Command::new("bare", "Has nothing", nothing);
    assert_eq!(app.help_command(&bare), "Has nothing\n\nUSAGE:\n\tfiles bare\n\n");
}

#[test]
fn version_is_written_after_the_name() {
    assert_eq!(files().version_text(), "files 0.3.1\n");
}

#[test]
fn parse_errors_have_words() {
    assert_eq!(
        ParseError::UnknownCommand(String::from("move")).message(),
        "The given command does not exist: `move`"
    );
    assert_eq!(
        ParseError::UnknownOption(String::from("bogus")).message(),
        "Invalid option provided: `bogus`"
    );
    assert_eq!(
        ParseError::MissingOptionValue(String::from("name")).message(),
        "Expected an optional argument `name`"
    );
    assert_eq!(
        ParseError::TooManyArguments(String::from("c"), 2).message(),
        "Too many arguments provided: expected 2, found `c` after them"
    );
    assert_eq!(
        ParseError::ArityMismatch(12, 3).message(),
        "Incorrect amount of arguments provided: expected 12, found 3"
    );
}

#[test]
fn error_stands_after_the_help() {
    assert_eq!(append_error(String::from("help\n"), "wrong"), "help\n\nwrong\n");
    assert_eq!(append_error(String::new(), ""), "\n\n");
}

#[test]
fn error_is_painted_red_where_colours_are_on() {
    colored::control::set_override(true);
    assert_eq!(with_error(String::from("help\n"), "wrong"), "help\n\n\u{1b}[31mwrong\u{1b}[0m\n");
    colored::control::set_override(false);
    assert_eq!(with_error(String::from("help\n"), "wrong"), "help\n\nwrong\n");
    colored::control::unset_override();
}
