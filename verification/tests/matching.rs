use climb::app::App;
use climb::command::{Command, CommandOption, CommandOptionPlace};
use climb::matcher::{ParseError, State};
use climb::parse::{parse_args, remove_dashes, DefCmdState, Token};
use climb::types::FunctionResult;

fn words(items: &[&str]) -> Vec<String> {
    items.iter().map(|s| s.to_string()).collect()
}

fn nothing(_: Vec<String>, _: Vec<bool>, _: Vec<Option<String>>) -> FunctionResult {
    Ok(None)
}

fn copier() -> App {
    App::new("files", "Handles files", "0.3.1")
        .command(
            Command::new("copy", "Copies a file", nothing)
                .alias("c")
                .arg("from")
                .arg("to")
                .option(CommandOption::new("force", "Overwrites the target").alias("f"))
                .option(CommandOption::new("name", "Names the copy").alias("n").arg("text"))
                .option(CommandOption::new("mode", "Sets the mode").arg("bits")),
        )
        .unwrap()
}

fn matched(app: &App, args: &[&str]) -> Result<climb::matcher::MatchResult, ParseError> {
    app.parse_args(parse_args(words(args), &app.def_cmd_state))
}

fn text_of(token: &Token) -> (&str, &str) {
    match token {
        Token::Cmd(s) => ("cmd", s.as_str()),
        Token::Opt(s) => ("opt", s.as_str()),
        Token::Arg(s) => ("arg", s.as_str()),
    }
}

#[test]
fn classifier_reads_shape_and_place() {
    let tokens = parse_args(words(&["copy", "-f", "a", "--name", "copy", "-"]), &DefCmdState::Def);
    let seen: Vec<(&str, &str)> = tokens.iter().map(text_of).collect();
    assert_eq!(
        seen,
        vec![
            ("cmd", "copy"),
            ("opt", "-f"),
            ("arg", "a"),
            ("opt", "--name"),
            ("arg", "copy"),
            ("opt", "-"),
        ]
    );
    let tokens = parse_args(words(&["copy", "a"]), &DefCmdState::Explicit);
    let seen: Vec<(&str, &str)> = tokens.iter().map(text_of).collect();
    assert_eq!(seen, vec![("arg", "copy"), ("arg", "a")]);
    let tokens = parse_args(words(&["-x", "copy", ""]), &DefCmdState::Def);
    let seen: Vec<(&str, &str)> = tokens.iter().map(text_of).collect();
    assert_eq!(seen, vec![("opt", "-x"), ("arg", "copy"), ("arg", "")]);
    assert!(parse_args(Vec::new(), &DefCmdState::Def).is_empty());
    let tokens = parse_args(words(&[""]), &DefCmdState::Def);
    let seen: Vec<(&str, &str)> = tokens.iter().map(text_of).collect();
    assert_eq!(seen, vec![("cmd", "")]);
}

#[test]
fn dashes_come_off_two_at_most() {
    assert_eq!(remove_dashes(String::from("--force")), "force");
    assert_eq!(remove_dashes(String::from("-f")), "f");
    assert_eq!(remove_dashes(String::from("force")), "force");
    assert_eq!(remove_dashes(String::from("---x")), "-x");
    assert_eq!(remove_dashes(String::from("-")), "");
    assert_eq!(remove_dashes(String::from("--")), "");
    assert_eq!(remove_dashes(String::from("")), "");
    assert_eq!(remove_dashes(String::from("a-b")), "a-b");
    assert_eq!(remove_dashes(String::from("--é-x")), "é-x");
}

#[test]
fn exact_arity_matches() {
    let app = copier();
    let found = matched(&app, &["copy", "a", "b"]).unwrap();
    assert_eq!(found.command, Some(0));
    assert_eq!(found.args, words(&["a", "b"]));
    assert_eq!(found.options, vec![false, false]);
    assert_eq!(found.opt_args, vec![None, None]);
    let found = matched(&app, &["c", "-f", "a", "--mode", "644", "b", "-n", "x"]).unwrap();
    assert_eq!(found.args, words(&["a", "b"]));
    assert_eq!(found.options, vec![true, false]);
    assert_eq!(found.opt_args, vec![Some(String::from("x")), Some(String::from("644"))]);
}

#[test]
fn one_value_short_is_an_arity_error() {
    let app = copier();
    match matched(&app, &["copy", "--force", "a"]) {
        Err(ParseError::ArityMismatch(expected, actual)) => {
            assert_eq!(expected, 2);
            assert_eq!(actual, 1);
        },
        other => panic!("unexpected: {:?}", other),
    }
    match matched(&app, &["copy"]) {
        Err(ParseError::ArityMismatch(expected, actual)) => {
            assert_eq!((expected, actual), (2, 0));
        },
        other => panic!("unexpected: {:?}", other),
    }
}

#[test]
fn one_value_more_is_an_arity_error() {
    let app = copier();
    match matched(&app, &["copy", "a", "-f", "b", "c", "d"]) {
        Err(ParseError::TooManyArguments(value, arity)) => {
            assert_eq!(value, "c");
            assert_eq!(arity, 2);
        },
        other => panic!("unexpected: {:?}", other),
    }
}

#[test]
fn unknown_command_is_refused() {
    let app = copier();
    match matched(&app, &["move", "a", "b"]) {
        Err(ParseError::UnknownCommand(alias)) => assert_eq!(alias, "move"),
        other => panic!("unexpected: {:?}", other),
    }
    // a name is matched as it is written
    match matched(&app, &["Copy", "a", "b"]) {
        Err(ParseError::UnknownCommand(alias)) => assert_eq!(alias, "Copy"),
        other => panic!("unexpected: {:?}", other),
    }
}

#[test]
fn flag_given_twice_is_given_once() {
    let app = copier();
    let once = matched(&app, &["copy", "--force", "a", "b"]).unwrap();
    let twice = matched(&app, &["copy", "--force", "a", "--force", "b"]).unwrap();
    let mixed = matched(&app, &["copy", "-f", "a", "b", "--force", "-f"]).unwrap();
    assert_eq!(once.options, vec![true, false]);
    assert_eq!(twice.options, once.options);
    assert_eq!(mixed.options, once.options);
    assert_eq!(twice.args, once.args);
    assert_eq!(twice.opt_args, once.opt_args);
    assert_eq!(twice.command, once.command);
}

#[test]
fn value_option_takes_the_next_token() {
    let app = copier();
    let found = matched(&app, &["copy", "--name", "copy", "a", "b"]).unwrap();
    assert_eq!(found.opt_args, vec![Some(String::from("copy")), None]);
    assert_eq!(found.args, words(&["a", "b"]));
    // a later value replaces an earlier one
    let found = matched(&app, &["copy", "-n", "x", "a", "b", "--name", "y"]).unwrap();
    assert_eq!(found.opt_args, vec![Some(String::from("y")), None]);
}

#[test]
fn option_is_no_value_of_an_option() {
    let app = copier();
    match matched(&app, &["copy", "--name", "-x", "a", "b"]) {
        Err(ParseError::MissingOptionValue(alias)) => assert_eq!(alias, "name"),
        other => panic!("unexpected: {:?}", other),
    }
    match matched(&app, &["copy", "a", "b", "-n", "--force"]) {
        Err(ParseError::MissingOptionValue(alias)) => assert_eq!(alias, "n"),
        other => panic!("unexpected: {:?}", other),
    }
}

#[test]
fn value_option_at_the_end_lacks_its_value() {
    let app = copier();
    match matched(&app, &["copy", "a", "b", "--mode"]) {
        Err(ParseError::MissingOptionValue(alias)) => assert_eq!(alias, "mode"),
        other => panic!("unexpected: {:?}", other),
    }
}

#[test]
fn unknown_option_is_never_data() {
    let app = copier();
    match matched(&app, &["copy", "a", "--verbose", "b"]) {
        Err(ParseError::UnknownOption(alias)) => assert_eq!(alias, "verbose"),
        other => panic!("unexpected: {:?}", other),
    }
    // the options of the default command are not those of a named command
    match matched(&app, &["copy", "--version", "a", "b"]) {
        Err(ParseError::UnknownOption(alias)) => assert_eq!(alias, "version"),
        other => panic!("unexpected: {:?}", other),
    }
    match matched(&app, &["--force"]) {
        Err(ParseError::UnknownOption(alias)) => assert_eq!(alias, "force"),
        other => panic!("unexpected: {:?}", other),
    }
    match matched(&app, &["copy", "-", "a", "b"]) {
        Err(ParseError::UnknownOption(alias)) => assert_eq!(alias, ""),
        other => panic!("unexpected: {:?}", other),
    }
}

#[test]
fn registered_command_has_the_help_flag() {
    let app = copier();
    let found = matched(&app, &["copy", "--help", "a", "b"]).unwrap();
    assert_eq!(found.options, vec![false, true]);
    let found = matched(&app, &["copy", "a", "b", "-h"]).unwrap();
    assert_eq!(found.options, vec![false, true]);
}

#[test]
fn command_name_is_taken_as_a_value() {
    let app = copier();
    let start = app.start();
    assert_eq!(start.command, None);
    assert_eq!(start.options, vec![false, false]);
    let m = app.step(start, Token::Cmd(String::from("copy"))).unwrap();
    assert_eq!(m.command, Some(0));
    let m = app.step(m, Token::Opt(String::from("--name"))).unwrap();
    match &m.state {
        State::NeedOptArg(alias, index) => {
            assert_eq!(alias, "name");
            assert_eq!(*index, 0);
        },
        State::Start => panic!("no option awaits its value"),
    }
    let m = app.step(m, Token::Cmd(String::from("copy"))).unwrap();
    assert!(matches!(m.state, State::Start));
    assert_eq!(m.command, Some(0));
    assert_eq!(m.opt_args, vec![Some(String::from("copy")), None]);
    match app.finish(m) {
        Err(ParseError::ArityMismatch(expected, actual)) => assert_eq!((expected, actual), (2, 0)),
        other => panic!("unexpected: {:?}", other),
    }
}

#[test]
fn a_command_name_after_values_resets_the_options() {
    let app = copier();
    let m = app.start();
    let m = app.step(m, Token::Cmd(String::from("c"))).unwrap();
    let m = app.step(m, Token::Opt(String::from("-f"))).unwrap();
    let m = app.step(m, Token::Arg(String::from("a"))).unwrap();
    assert_eq!(m.options, vec![true, false]);
    let m = app.step(m, Token::Cmd(String::from("copy"))).unwrap();
    assert_eq!(m.options, vec![false, false]);
    assert_eq!(m.args, words(&["a"]));
}

#[test]
fn options_are_found_by_either_alias() {
    let app = copier();
    let copy = app.lookup_command(&String::from("c")).unwrap();
    assert_eq!(copy.alias_long, "copy");
    assert!(app.lookup_command(&String::from("copy")).is_some());
    assert!(app.lookup_command(&String::from("co")).is_none());
    assert_eq!(copy.has_option(&String::from("force")), Some(CommandOptionPlace::Flag(0)));
    assert_eq!(copy.has_option(&String::from("f")), Some(CommandOptionPlace::Flag(0)));
    assert_eq!(copy.has_option(&String::from("help")), Some(CommandOptionPlace::Flag(1)));
    assert_eq!(copy.has_option(&String::from("n")), Some(CommandOptionPlace::Value(0)));
    assert_eq!(copy.has_option(&String::from("mode")), Some(CommandOptionPlace::Value(1)));
    assert_eq!(copy.has_option(&String::from("m")), None);
    assert_eq!(copy.has_option(&String::from("--force")), None);
}

#[test]
fn supplied_options_are_listed_by_alias() {
    let app = copier();
    let found = matched(&app, &["copy", "-h", "a", "--mode", "600", "b", "-f"]).unwrap();
    let list = found.function_options(&app.commands[0]);
    let seen: Vec<(&str, Option<&str>)> =
        list.iter().map(|o| (o.0.as_str(), o.1.as_deref())).collect();
    assert_eq!(seen, vec![("force", None), ("help", None), ("mode", Some("600"))]);
}

#[test]
fn flag_put_in_before_or_in_the_other_form_changes_nothing() {
    let app = copier();
    let once = matched(&app, &["copy", "a", "--force", "b"]).unwrap();
    for args in [
        vec!["copy", "-f", "a", "--force", "b"],
        vec!["copy", "a", "--force", "b", "-f"],
        vec!["copy", "--force", "a", "--force", "b"],
        vec!["copy", "a", "-f", "--force", "b", "--force"],
    ] {
        let more = matched(&app, &args).unwrap();
        assert_eq!(more.command, once.command);
        assert_eq!(more.args, once.args);
        assert_eq!(more.options, once.options);
        assert_eq!(more.opt_args, once.opt_args);
    }
    assert_eq!(once.options, vec![true, false]);
    // a list that fails keeps its error
    let short = matched(&app, &["copy", "--force", "a"]);
    let longer = matched(&app, &["copy", "-f", "--force", "a"]);
    assert!(matches!(short, Err(ParseError::ArityMismatch(2, 1))));
    assert!(matches!(longer, Err(ParseError::ArityMismatch(2, 1))));
}

#[test]
fn supplied_options_compare_by_their_fields() {
    let app = copier();
    let found = matched(&app, &["copy", "a", "b", "-n", "x", "-f"]).unwrap();
    let list = found.function_options(&app.commands[0]);
    assert!(list[0] == climb::types::FunctionOption(String::from("force"), None));
    assert!(
        list[1] == climb::types::FunctionOption(String::from("name"), Some(String::from("x")))
    );
    assert!(list[0] != list[1]);
}
