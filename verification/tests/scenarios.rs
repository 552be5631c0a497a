use climb::app::{App, RunError};
use climb::command::{Command, CommandOption};
use climb::matcher::ParseError;
use climb::parse::{parse_args, DefCmdState};
use climb::types::FunctionResult;

fn strings(items: &[&str]) -> Vec<String> {
    items.iter().map(|s| s.to_string()).collect()
}

fn number(text: &str) -> Result<i64, String> {
    text.parse().map_err(|_| format!("not a number: {}", text))
}

fn add(args: Vec<String>, _: Vec<bool>, _: Vec<Option<String>>) -> FunctionResult {
    Ok(Some((number(&args[0])? + number(&args[1])?).to_string()))
}

fn div(args: Vec<String>, options: Vec<bool>, _: Vec<Option<String>>) -> FunctionResult {
    let a = number(&args[0])?;
    let b = number(&args[1])?;
    if b == 0 {
        return Err(String::from("division by zero"));
    }
    if options[0] {
        Ok(Some(format!("about {}", a / b)))
    } else {
        Ok(Some(format!("{} rest {}", a / b, a % b)))
    }
}

fn calculator() -> App {
    App::new("calc", "A calculator", "1.0.0")
        .command(Command::new("add", "Adds two numbers", add).arg("a").arg("b"))
        .unwrap()
        .command(
            Command::new("div", "Divides two numbers", div)
                .arg("a")
                .arg("b")
                .option(CommandOption::new("round", "Rounds the result")),
        )
        .unwrap()
}

#[test]
fn add_runs_with_two_values() {
    let app = calculator();
    let found = app
        .parse_args(parse_args(strings(&["add", "9", "10"]), &app.def_cmd_state))
        .unwrap();
    assert_eq!(found.command, Some(0));
    assert_eq!(found.args, strings(&["9", "10"]));
    assert_eq!(found.options, vec![false]);
    let r = app.run_custom(strings(&["add", "9", "10"]));
    assert_eq!(r.unwrap(), Some(String::from("19")));
}

#[test]
fn div_sees_the_round_flag() {
    let app = calculator();
    let tokens = parse_args(strings(&["div", "--round", "10", "3"]), &app.def_cmd_state);
    let found = app.parse_args(tokens).unwrap();
    assert_eq!(found.command, Some(1));
    assert_eq!(found.args, strings(&["10", "3"]));
    assert_eq!(found.options, vec![true, false]);
    assert!(found.opt_args.is_empty());
    let supplied = found.function_options(&app.commands[1]);
    assert_eq!(supplied.len(), 1);
    assert_eq!(supplied[0].0, "round");
    assert_eq!(supplied[0].1, None);
    let r = app.run_custom(strings(&["div", "--round", "10", "3"]));
    assert_eq!(r.unwrap(), Some(String::from("about 3")));
}

#[test]
fn bogus_option_is_refused() {
    let app = calculator();
    let r = app.run_custom(strings(&["div", "--bogus", "10", "3"]));
    match r {
        Err(RunError::Parse(ParseError::UnknownOption(alias))) => assert_eq!(alias, "bogus"),
        other => panic!("unexpected: {:?}", other),
    }
}

#[test]
fn first_argument_names_the_command() {
    let app = calculator();
    assert_eq!(app.def_cmd_state, DefCmdState::Def);
    let found = app
        .parse_args(parse_args(strings(&["add", "3", "4"]), &app.def_cmd_state))
        .unwrap();
    assert_eq!(found.command, Some(0));
    assert_eq!(found.args, strings(&["3", "4"]));
}

#[test]
fn default_command_takes_the_first_argument_as_data() {
    let app = calculator()
        .default_command(Command::new("sum", "Adds two numbers", add).arg("a").arg("b"))
        .unwrap();
    assert_eq!(app.def_cmd_state, DefCmdState::Explicit);
    let found = app
        .parse_args(parse_args(strings(&["3", "4"]), &app.def_cmd_state))
        .unwrap();
    assert_eq!(found.command, None);
    assert_eq!(found.args, strings(&["3", "4"]));
    assert_eq!(app.run_custom(strings(&["3", "4"])).unwrap(), Some(String::from("7")));
    // the name of a registered command is data too
    match app.run_custom(strings(&["add", "3", "4"])) {
        Err(RunError::Parse(ParseError::TooManyArguments(value, arity))) => {
            assert_eq!(value, "4");
            assert_eq!(arity, 2);
        },
        other => panic!("unexpected: {:?}", other),
    }
}

#[test]
fn function_error_is_passed_on() {
    let app = calculator();
    match app.run_custom(strings(&["div", "1", "0"])) {
        Err(RunError::Function(message)) => assert_eq!(message, "division by zero"),
        other => panic!("unexpected: {:?}", other),
    }
    match app.run_custom(strings(&["add", "1", "x"])) {
        Err(RunError::Function(message)) => assert_eq!(message, "not a number: x"),
        other => panic!("unexpected: {:?}", other),
    }
    assert_eq!(
        app.run_custom(strings(&["div", "7", "2"])).unwrap(),
        Some(String::from("3 rest 1"))
    );
}

#[test]
fn no_arguments_run_the_builtin_default() {
    let app = calculator();
    assert_eq!(app.run_custom(Vec::new()).unwrap(), None);
    assert_eq!(app.run_custom(strings(&["--help"])).unwrap(), None);
    assert_eq!(app.run_custom(strings(&["-v"])).unwrap(), None);
    let found = app
        .parse_args(parse_args(strings(&["--version", "-h"]), &app.def_cmd_state))
        .unwrap();
    assert_eq!(found.command, None);
    assert_eq!(found.options, vec![true, true]);
}
