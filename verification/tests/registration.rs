use climb::app::App;
use climb::command::{Command, CommandOption, __CArg, __COArg, __COpt};
use climb::parse::DefCmdState;
use climb::registry::{check_registration, check_shape, RegistrationError};
use climb::text::{is_alphabetic, starts_with_dash};
use climb::types::FunctionResult;

fn nothing(_: Vec<String>, _: Vec<bool>, _: Vec<Option<String>>) -> FunctionResult {
    Ok(None)
}

fn echo(args: Vec<String>, _: Vec<bool>, _: Vec<Option<String>>) -> FunctionResult {
    Ok(Some(args.join(" ")))
}

fn plain(alias: &str) -> Command {
    Command::new(alias, "", nothing)
}

fn malformed(r: Result<App, RegistrationError>) -> String {
    match r {
        Err(RegistrationError::MalformedAlias(alias)) => alias,
        Err(other) => panic!("unexpected: {:?}", other),
        Ok(_) => panic!("the command was registered"),
    }
}

fn duplicate(r: Result<App, RegistrationError>) -> String {
    match r {
        Err(RegistrationError::DuplicateAlias(alias)) => alias,
        Err(other) => panic!("unexpected: {:?}", other),
        Ok(_) => panic!("the command was registered"),
    }
}

fn app() -> App {
    App::new("tool", "A tool", "2.0.0")
}

#[test]
fn new_app_has_the_builtin_default() {
    let app = app();
    assert_eq!(app.name, "tool");
    assert_eq!(app.desc, "A tool");
    assert_eq!(app.vers, "2.0.0");
    assert!(app.commands.is_empty());
    assert_eq!(app.def_cmd_state, DefCmdState::Def);
    assert_eq!(app.help_usage, "Usage: tool [COMMAND] [OPTIONS]");
    assert_eq!(app.help_commands, "Available commands:");
    assert_eq!(
        app.help_footer,
        "Use `tool [COMMAND] --help` to see more information about a certain command"
    );
    let d = &app.default_command;
    assert_eq!(d.alias_long, "help");
    assert_eq!(d.alias_short, None);
    assert_eq!(d.desc, "default help command");
    assert!(d.args.is_empty());
    assert!(d.optional_args.is_empty());
    assert_eq!(d.options.len(), 2);
    assert_eq!(d.options[0].alias, "help");
    assert_eq!(d.options[0].alias_short.as_deref(), Some("h"));
    assert_eq!(d.options[0].desc, "Print help");
    assert_eq!(d.options[1].alias, "version");
    assert_eq!(d.options[1].alias_short.as_deref(), Some("v"));
    assert_eq!(d.options[1].desc, "Print version");
}

#[test]
fn setters_change_one_field() {
    let app = app()
        .name("other")
        .desc("Another tool")
        .vers("2.1.0")
        .help_usage("usage")
        .help_commands("commands")
        .help_footer("footer");
    assert_eq!(app.name, "other");
    assert_eq!(app.desc, "Another tool");
    assert_eq!(app.vers, "2.1.0");
    assert_eq!(app.help_usage, "usage");
    assert_eq!(app.help_commands, "commands");
    assert_eq!(app.help_footer, "footer");
    let app = app.version("3.0.0");
    assert_eq!(app.vers, "3.0.0");
    assert_eq!(app.name, "other");
    assert_eq!(app.default_command.options.len(), 2);
}

#[test]
fn builders_store_what_they_are_given() {
    let arg = __CArg::new("file");
    assert_eq!(arg.name, "file");
    let flag = __COpt::new("all", Some("a"), "Takes all");
    assert_eq!(
        (flag.alias.as_str(), flag.alias_short.as_deref(), flag.desc.as_str()),
        ("all", Some("a"), "Takes all")
    );
    let flag = __COpt::new("all", None, "");
    assert_eq!(flag.alias_short, None);
    let value = __COArg::new("depth", Some("d"), "How deep", "levels");
    assert_eq!(value.alias, "depth");
    assert_eq!(value.alias_short.as_deref(), Some("d"));
    assert_eq!(value.desc, "How deep");
    assert_eq!(value.arg_name, "levels");
    let option = CommandOption::new("depth", "How deep");
    assert_eq!(option.alias_long, "depth");
    assert_eq!(option.alias_short, None);
    assert_eq!(option.argument, None);
    assert_eq!(option.description, "How deep");
    let option = option.alias("d").arg("levels");
    assert_eq!(option.alias_short.as_deref(), Some("d"));
    assert_eq!(option.argument.as_deref(), Some("LEVELS"));
    let command = Command::new("list", "Lists files", nothing)
        .alias("l")
        .arg("dir")
        .option(option)
        .option(CommandOption::new("all", "Takes all").alias("a"))
        .arg("pattern");
    assert_eq!(command.alias_long, "list");
    assert_eq!(command.alias_short.as_deref(), Some("l"));
    assert_eq!(command.desc, "Lists files");
    let args: Vec<&str> = command.args.iter().map(|a| a.name.as_str()).collect();
    assert_eq!(args, vec!["DIR", "PATTERN"]);
    assert_eq!(command.options.len(), 1);
    assert_eq!(command.options[0].alias, "all");
    assert_eq!(command.options[0].alias_short.as_deref(), Some("a"));
    assert_eq!(command.optional_args.len(), 1);
    assert_eq!(command.optional_args[0].alias, "depth");
    assert_eq!(command.optional_args[0].arg_name, "LEVELS");
}

#[test]
fn registered_command_gets_the_help_flag_last() {
    let app = app()
        .command(plain("list").option(CommandOption::new("all", "Takes all")))
        .unwrap();
    assert_eq!(app.commands.len(), 1);
    let flags: Vec<&str> = app.commands[0].options.iter().map(|o| o.alias.as_str()).collect();
    assert_eq!(flags, vec!["all", "help"]);
    assert_eq!(app.commands[0].options[1].alias_short.as_deref(), Some("h"));
    assert_eq!(app.commands[0].options[1].desc, "Print help");
}

#[test]
fn alias_of_the_wrong_length_is_malformed() {
    assert_eq!(malformed(app().command(plain("a"))), "a");
    assert_eq!(malformed(app().command(plain(""))), "");
    assert_eq!(malformed(app().command(plain("list").alias("ls"))), "ls");
    assert_eq!(malformed(app().command(plain("list").alias(""))), "");
    assert_eq!(
        malformed(app().command(plain("list").option(CommandOption::new("a", "")))),
        "a"
    );
    assert_eq!(
        malformed(app().command(plain("list").option(CommandOption::new("all", "").alias("al")))),
        "al"
    );
    assert_eq!(
        malformed(
            app().command(plain("list").option(CommandOption::new("d", "").arg("levels")))
        ),
        "d"
    );
}

#[test]
fn alias_with_another_character_is_malformed() {
    assert_eq!(malformed(app().command(plain("list2"))), "list2");
    assert_eq!(malformed(app().command(plain("li st"))), "li st");
    assert_eq!(malformed(app().command(plain("--list"))), "--list");
    assert_eq!(malformed(app().command(plain("liste").alias("é"))), "é");
    assert_eq!(malformed(app().command(plain("list").alias("1"))), "1");
    assert_eq!(
        malformed(app().command(plain("list").option(CommandOption::new("dry-run", "")))),
        "dry-run"
    );
}

#[test]
fn first_malformed_alias_is_reported() {
    let command = plain("list")
        .alias("l")
        .option(CommandOption::new("all", "").alias("a"))
        .option(CommandOption::new("x", "").alias("yy"))
        .option(CommandOption::new("depth", "").alias("dd").arg("levels"));
    assert_eq!(malformed(app().command(command)), "x");
    // flags are checked before options with a value, whatever the order in
    // which they were added
    let command = plain("list")
        .option(CommandOption::new("depth", "").alias("dd").arg("levels"))
        .option(CommandOption::new("all", "").alias("aa"));
    assert_eq!(malformed(app().command(command)), "aa");
    // a malformed alias is reported before a duplicate
    let command = plain("help").option(CommandOption::new("x", ""));
    assert_eq!(malformed(app().command(command)), "x");
}

#[test]
fn two_commands_with_one_alias_are_refused() {
    let base = || app().command(plain("list").alias("l")).unwrap();
    assert_eq!(duplicate(base().command(plain("list"))), "list");
    assert_eq!(duplicate(base().command(plain("look").alias("l"))), "l");
    assert_eq!(duplicate(base().command(plain("list").alias("x"))), "list");
    let app = base().command(plain("look").alias("k")).unwrap();
    assert_eq!(app.commands.len(), 2);
    assert_eq!(app.commands[1].alias_long, "look");
}

#[test]
fn reserved_names_are_refused() {
    assert_eq!(duplicate(app().command(plain("help"))), "help");
    assert_eq!(duplicate(app().command(plain("version"))), "version");
    assert_eq!(duplicate(app().command(plain("list").alias("h"))), "h");
    assert_eq!(duplicate(app().command(plain("list").alias("v"))), "v");
    // a command goes by the lower-case form of what it was given
    assert_eq!(duplicate(app().command(plain("list").alias("H"))), "h");
    assert_eq!(duplicate(app().command(plain("Help"))), "help");
    assert!(app().command(plain("list").alias("x")).is_ok());
}

#[test]
fn two_options_with_one_alias_are_refused() {
    let flag = |long: &str, short: &str| CommandOption::new(long, "").alias(short);
    let value = |long: &str, short: &str| CommandOption::new(long, "").alias(short).arg("x");
    assert_eq!(
        duplicate(app().command(plain("list").option(flag("all", "a")).option(flag("all", "b")))),
        "all"
    );
    assert_eq!(
        duplicate(app().command(plain("list").option(flag("all", "a")).option(flag("any", "a")))),
        "a"
    );
    assert_eq!(
        duplicate(
            app().command(plain("list").option(flag("all", "a")).option(value("all", "b")))
        ),
        "all"
    );
    assert_eq!(
        duplicate(
            app().command(plain("list").option(value("deep", "d")).option(value("dir", "d")))
        ),
        "d"
    );
    assert_eq!(
        duplicate(app().command(plain("list").option(CommandOption::new("help", "")))),
        "help"
    );
    assert_eq!(
        duplicate(app().command(plain("list").option(flag("hidden", "h")))),
        "h"
    );
    // an option may go by the name of a command, and by that of an option of
    // another command
    let app = app()
        .command(plain("list").alias("l").option(flag("list", "l")))
        .unwrap()
        .command(plain("look").option(flag("list", "l")))
        .unwrap();
    assert_eq!(app.commands.len(), 2);
}

#[test]
fn refused_command_leaves_the_app_as_it_was() {
    let mut app = app().command(Command::new("say", "Says it", echo).arg("word")).unwrap();
    let r = app.register(plain("say"));
    assert!(matches!(r, Err(RegistrationError::DuplicateAlias(_))));
    assert_eq!(app.commands.len(), 1);
    let r = app.register(plain("x"));
    assert!(matches!(r, Err(RegistrationError::MalformedAlias(_))));
    assert_eq!(app.commands.len(), 1);
    assert_eq!(app.commands[0].alias_long, "say");
    assert_eq!(app.commands[0].options.len(), 1);
    assert_eq!(
        app.run_custom(vec![String::from("say"), String::from("hello")]).unwrap(),
        Some(String::from("hello"))
    );
    assert!(app.register(plain("tell")).is_ok());
    assert_eq!(app.commands.len(), 2);
}

#[test]
fn commands_are_added_all_or_none() {
    let app = app().commands(vec![plain("list"), plain("look").alias("k"), plain("show")]).unwrap();
    let names: Vec<&str> = app.commands.iter().map(|c| c.alias_long.as_str()).collect();
    assert_eq!(names, vec!["list", "look", "show"]);
    assert!(app.commands.iter().all(|c| c.options.len() == 1 && c.options[0].alias == "help"));
    assert_eq!(duplicate(app.commands(vec![plain("find"), plain("show")])), "show");
    assert_eq!(
        duplicate(App::new("tool", "", "").commands(vec![plain("list"), plain("list")])),
        "list"
    );
    assert_eq!(
        malformed(App::new("tool", "", "").commands(vec![plain("list"), plain("l")])),
        "l"
    );
    assert!(App::new("tool", "", "").commands(Vec::new()).unwrap().commands.is_empty());
}

#[test]
fn default_command_is_checked_by_itself() {
    let app = app().command(plain("list")).unwrap();
    // the name of the default command finds nothing, so it may be taken
    let app = app.default_command(plain("list").arg("dir")).unwrap();
    assert_eq!(app.def_cmd_state, DefCmdState::Explicit);
    assert_eq!(app.default_command.alias_long, "list");
    assert_eq!(app.default_command.options.len(), 1);
    assert_eq!(app.default_command.options[0].alias, "help");
    assert_eq!(app.commands.len(), 1);
    assert_eq!(malformed(app.default_command(plain("l"))), "l");
    assert_eq!(
        duplicate(
            App::new("tool", "", "")
                .default_command(plain("list").option(CommandOption::new("help", "")))
        ),
        "help"
    );
}

#[test]
fn checks_say_what_registration_would() {
    let registered = vec![plain("list")];
    assert!(check_shape(&plain("list")).is_ok());
    assert!(check_registration(&registered, &plain("look")).is_ok());
    assert!(matches!(
        check_registration(&registered, &plain("list")),
        Err(RegistrationError::DuplicateAlias(_))
    ));
    assert!(matches!(check_shape(&plain("l")), Err(RegistrationError::MalformedAlias(_))));
}

#[test]
fn letters_and_dashes_are_told() {
    assert!(is_alphabetic("abcXYZ"));
    assert!(is_alphabetic("az"));
    assert!(is_alphabetic("AZ"));
    assert!(is_alphabetic(""));
    assert!(!is_alphabetic("ab1"));
    assert!(!is_alphabetic("a-b"));
    assert!(!is_alphabetic("`"));
    assert!(!is_alphabetic("{"));
    assert!(!is_alphabetic("@"));
    assert!(!is_alphabetic("["));
    assert!(!is_alphabetic("é"));
    assert!(starts_with_dash("-"));
    assert!(starts_with_dash("-a"));
    assert!(!starts_with_dash(""));
    assert!(!starts_with_dash("a-"));
}

#[test]
fn registration_errors_have_words() {
    assert_eq!(
        RegistrationError::MalformedAlias(String::from("x1")).message(),
        "An alias must be made of letters, a long one of two at least and a short one of one: `x1`"
    );
    assert_eq!(
        RegistrationError::DuplicateAlias(String::from("list")).message(),
        "The alias is in use already: `list`"
    );
}

#[test]
fn command_goes_by_the_lower_case_of_its_alias() {
    let command = Command::new("Add", "Adds", nothing).alias("A");
    assert_eq!(command.alias_long, "add");
    assert_eq!(command.alias_short.as_deref(), Some("a"));
    assert_eq!(command.desc, "Adds");
    let app = app().command(command).unwrap();
    assert_eq!(app.lookup_command(&String::from("add")).unwrap().alias_long, "add");
    assert!(app.lookup_command(&String::from("a")).is_some());
    assert!(app.lookup_command(&String::from("Add")).is_none());
    assert!(app.lookup_command(&String::from("A")).is_none());
    assert_eq!(duplicate(app.command(plain("ADD"))), "add");
    assert_eq!(Command::new("ÉCOLE", "", nothing).alias_long, "école");
    assert_eq!(Command::new("add", "", nothing).alias_long, "add");
}

#[test]
fn names_of_values_are_kept_in_upper_case() {
    let command = plain("add").arg("lhs").arg("rhs");
    let args: Vec<&str> = command.args.iter().map(|a| a.name.as_str()).collect();
    assert_eq!(args, vec!["LHS", "RHS"]);
    let option = CommandOption::new("delete-folder", "Deletes a folder").arg("folder_name");
    assert_eq!(option.argument.as_deref(), Some("FOLDER_NAME"));
    assert_eq!(option.alias_long, "delete-folder");
    assert_eq!(option.alias_short, None);
    assert_eq!(option.description, "Deletes a folder");
    assert_eq!(plain("add").arg("straße").args[0].name, "STRASSE");
    // the other builders keep what they are given
    assert_eq!(__CArg::new("lhs").name, "lhs");
    assert_eq!(__COArg::new("Depth", Some("D"), "", "levels").arg_name, "levels");
    assert_eq!(CommandOption::new("All", "").alias("A").alias_long, "All");
}

#[test]
fn exact_builders_keep_what_they_are_given() {
    let command = Command::named(String::from("Add"), "Adds", nothing)
        .called(String::from("A"))
        .positional(__CArg::new("lhs"))
        .option(CommandOption::new("depth", "How deep").valued(String::from("levels")));
    assert_eq!(command.alias_long, "Add");
    assert_eq!(command.alias_short.as_deref(), Some("A"));
    assert_eq!(command.desc, "Adds");
    assert_eq!(command.args.len(), 1);
    assert_eq!(command.args[0].name, "lhs");
    assert_eq!(command.optional_args[0].arg_name, "levels");
    let app = app().command(command).unwrap();
    assert!(app.lookup_command(&String::from("Add")).is_some());
    assert!(app.lookup_command(&String::from("add")).is_none());
}
