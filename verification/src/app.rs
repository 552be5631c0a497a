//! The application: its registered commands, its default command, and the
//! way from a raw argument list to the result of a command's function.

use vstd::prelude::*;
use vstd::string::*;
use crate::alias::{aliases_of, find};
use crate::command::{
    Command,
    CommandOptionPlace,
    CommandView,
    DefaultCommand,
    OptView,
    __COpt,
};
use crate::matcher::{
    place,
    MatchResult,
    MatchView,
    Matcher,
    ParseError,
    ParseErrorView,
    Registry,
    State,
};
use crate::parse::{classify, parse_args, remove_dashes, DefCmdState, Token};
use crate::registry::{
    check_registration,
    check_shape,
    command_aliases,
    help_flag,
    help_option,
    lemma_accepted,
    lemma_accepted_shape,
    registry_sound,
    reserved_aliases,
    RegistrationError,
    RegistrationErrorView,
};
use crate::types::FunctionResult;

verus! {

/// An application: what it is called, the commands that it has, and the
/// command that runs when none is named.
pub struct App {
    pub name: String,
    pub desc: String,
    pub vers: String,
    pub commands: Vec<Command>,
    pub default_command: Command,
    pub def_cmd_state: DefCmdState,
    pub help_usage: String,
    pub help_commands: String,
    pub help_footer: String,
}

/// What an [`App`] is, over sequences of characters. The functions of its
/// commands are no part of it.
pub struct AppView {
    pub name: Seq<char>,
    pub desc: Seq<char>,
    pub vers: Seq<char>,
    pub commands: Seq<CommandView>,
    pub default_command: CommandView,
    pub def_cmd_state: DefCmdState,
    pub help_usage: Seq<char>,
    pub help_commands: Seq<char>,
    pub help_footer: Seq<char>,
}

impl AppView {
    /// The commands that arguments are matched against.
    pub open spec fn registry(self) -> Registry {
        Registry { commands: self.commands, default_command: self.default_command }
    }

    /// What holds of an application however it was built: its commands are
    /// valid, no two of them share a name with each other or with the help
    /// and version options, and the default command is sound, and is the
    /// built-in one as long as none was chosen.
    pub open spec fn wf(self) -> bool {
        &&& registry_sound(self.commands)
        &&& self.default_command.sound()
        &&& self.def_cmd_state == DefCmdState::Def ==> self.default_command == builtin_default()
    }

    /// The invocation that a raw argument list stands for, or the error.
    pub open spec fn parse(self, args: Seq<Seq<char>>) -> Result<MatchView, ParseErrorView> {
        self.registry().matched(classify(args, self.def_cmd_state))
    }
}

impl View for App {
    type V = AppView;

    open spec fn view(&self) -> AppView {
        AppView {
            name: self.name@,
            desc: self.desc@,
            vers: self.vers@,
            commands: self.commands.deep_view(),
            default_command: self.default_command@,
            def_cmd_state: self.def_cmd_state,
            help_usage: self.help_usage@,
            help_commands: self.help_commands@,
            help_footer: self.help_footer@,
        }
    }
}

/// The command that is the default until another is configured: it is
/// called `help`, takes no positional value and has the flags `help` and
/// `version`.
pub open spec fn builtin_default() -> CommandView {
    CommandView {
        alias: "help"@,
        alias_short: None,
        desc: "default help command"@,
        args: Seq::empty(),
        opts: seq![
            OptView { alias: "help"@, alias_short: Some("h"@), desc: "Print help"@ },
            OptView { alias: "version"@, alias_short: Some("v"@), desc: "Print version"@ },
        ],
        opt_args: Seq::empty(),
    }
}

/// The built-in default command is sound, and the help and version options
/// share no name.
pub proof fn lemma_builtin_sound()
    ensures
        builtin_default().sound(),
        registry_sound(Seq::empty()),
{
    reveal_strlit("help");
    reveal_strlit("h");
    reveal_strlit("version");
    reveal_strlit("v");
    let d = builtin_default();
    assert(d.value_aliases() =~= Seq::empty());
    assert(d.option_aliases() =~= reserved_aliases());
    assert(command_aliases(Seq::empty()) =~= Seq::empty());
    assert(reserved_aliases() + command_aliases(Seq::empty()) =~= reserved_aliases());
    assert("help"@[0] == 'h');
    assert("version"@[0] == 'v');
    assert("h"@[0] == 'h');
    assert("v"@[0] == 'v');
    assert(reserved_aliases()[0].sound());
    assert(reserved_aliases()[1].sound());
    assert(!reserved_aliases()[0].shares(reserved_aliases()[1]));
    assert(!reserved_aliases()[1].shares(reserved_aliases()[0]));
}

impl DefaultCommand {
    /// The built-in default command, which runs [`DefaultCommand`].
    pub fn command() -> (command: Command)
        ensures
            command@ == builtin_default(),
            command.ready(),
            command.idle(),
    {
        let mut options: Vec<__COpt> = Vec::new();
        options.push(__COpt::new("help", Some("h"), "Print help"));
        options.push(__COpt::new("version", Some("v"), "Print version"));
        let command = Command {
            alias_long: "help".to_owned(),
            alias_short: None,
            desc: "default help command".to_owned(),
            args: Vec::new(),
            options,
            optional_args: Vec::new(),
            function: Box::new(DefaultCommand),
        };
        assert(command@.args =~= builtin_default().args);
        assert(command@.opts =~= builtin_default().opts);
        assert(command@.opt_args =~= builtin_default().opt_args);
        command
    }
}

/// The usage line of an application called `name`.
pub open spec fn usage_line(name: Seq<char>) -> Seq<char> {
    "Usage: "@ + name + " [COMMAND] [OPTIONS]"@
}

/// The last line of the help of an application called `name`.
pub open spec fn footer_line(name: Seq<char>) -> Seq<char> {
    "Use `"@ + name + " [COMMAND] --help` to see more information about a certain command"@
}

impl App {
    /// An application with no command but the built-in default.
    pub fn new(name: &str, desc: &str, version: &str) -> (app: Self)
        ensures
            app@ == (AppView {
                name: name@,
                desc: desc@,
                vers: version@,
                commands: Seq::empty(),
                default_command: builtin_default(),
                def_cmd_state: DefCmdState::Def,
                help_usage: usage_line(name@),
                help_commands: "Available commands:"@,
                help_footer: footer_line(name@),
            }),
            app@.wf(),
            app.ready(),
            app.default_command.idle(),
    {
        let app = App {
            name: name.to_owned(),
            desc: desc.to_owned(),
            vers: version.to_owned(),
            commands: Vec::new(),
            default_command: DefaultCommand::command(),
            def_cmd_state: DefCmdState::Def,
            help_usage: "Usage: ".to_owned().concat(name).concat(" [COMMAND] [OPTIONS]"),
            help_commands: "Available commands:".to_owned(),
            help_footer: "Use `".to_owned().concat(name).concat(
                " [COMMAND] --help` to see more information about a certain command",
            ),
        };
        assert(app@.commands =~= Seq::empty());
        proof {
            lemma_builtin_sound();
        }
        app
    }

    /// Sets the name of the application.
    pub fn name(self, name: &str) -> (app: Self)
        ensures
            app.name@ == name@,
            app == (App { name: app.name, ..self }),
    {
        let mut app = self;
        app.name = name.to_owned();
        app
    }

    /// Sets the description of the application.
    pub fn desc(self, desc: &str) -> (app: Self)
        ensures
            app.desc@ == desc@,
            app == (App { desc: app.desc, ..self }),
    {
        let mut app = self;
        app.desc = desc.to_owned();
        app
    }

    /// Sets the version of the application.
    pub fn vers(self, vers: &str) -> (app: Self)
        ensures
            app.vers@ == vers@,
            app == (App { vers: app.vers, ..self }),
    {
        let mut app = self;
        app.vers = vers.to_owned();
        app
    }

    /// Sets the version of the application.
    pub fn version(self, version: &str) -> (app: Self)
        ensures
            app.vers@ == version@,
            app == (App { vers: app.vers, ..self }),
    {
        self.vers(version)
    }

    /// Sets the usage line of the help.
    pub fn help_usage(self, text: &str) -> (app: Self)
        ensures
            app.help_usage@ == text@,
            app == (App { help_usage: app.help_usage, ..self }),
    {
        let mut app = self;
        app.help_usage = text.to_owned();
        app
    }

    /// Sets the line of the help that stands above the commands.
    pub fn help_commands(self, text: &str) -> (app: Self)
        ensures
            app.help_commands@ == text@,
            app == (App { help_commands: app.help_commands, ..self }),
    {
        let mut app = self;
        app.help_commands = text.to_owned();
        app
    }

    /// Sets the last line of the help.
    pub fn help_footer(self, text: &str) -> (app: Self)
        ensures
            app.help_footer@ == text@,
            app == (App { help_footer: app.help_footer, ..self }),
    {
        let mut app = self;
        app.help_footer = text.to_owned();
        app
    }
}

/// What registering `new` one after another beside `registered` gives: the
/// commands that are registered then, or the error of the first that is
/// refused.
pub open spec fn register_all(registered: Seq<CommandView>, new: Seq<CommandView>) -> Result<
    Seq<CommandView>,
    RegistrationErrorView,
>
    decreases new.len(),
{
    if new.len() == 0 {
        Ok(registered)
    } else {
        match new.first().registration_error(registered) {
            Some(e) => Err(e),
            None => register_all(registered.push(new.first().with_help()), new.drop_first()),
        }
    }
}

impl App {
    /// Registers `command`, with the help flag after its own flags, unless
    /// something is wrong with it; then the application stays as it was.
    pub fn register(&mut self, command: Command) -> (r: Result<(), RegistrationError>)
        ensures
            match command@.registration_error(old(self)@.commands) {
                Some(e) => r is Err && r->Err_0@ == e && *final(self) == *old(self),
                None => {
                    &&& r is Ok
                    &&& *final(self) == (App { commands: final(self).commands, ..*old(self) })
                    &&& final(self).commands@.len() == old(self).commands@.len() + 1
                    &&& final(self).commands@.drop_last() == old(self).commands@
                    &&& final(self).commands@.last()@ == command@.with_help()
                    &&& final(self).commands@.last().function == command.function
                    &&& final(self)@.commands == old(self)@.commands.push(command@.with_help())
                },
            },
            old(self)@.wf() ==> final(self)@.wf(),
    {
        match check_registration(&self.commands, &command) {
            Err(e) => Err(e),
            Ok(()) => {
                let mut command = command;
                let ghost declared = command@;
                proof {
                    if self@.wf() {
                        lemma_accepted(self@.commands, declared);
                    }
                }
                command.options.push(help_option());
                assert(command@.opts =~= declared.opts.push(help_flag()));
                self.commands.push(command);
                assert(self.commands@.drop_last() =~= old(self).commands@);
                assert(self@.commands =~= old(self)@.commands.push(declared.with_help()));
                Ok(())
            },
        }
    }
}

impl App {
    /// Adds a command to the application, or says what is wrong with it.
    pub fn command(self, command: Command) -> (r: Result<Self, RegistrationError>)
        ensures
            match command@.registration_error(self@.commands) {
                Some(e) => r is Err && r->Err_0@ == e,
                None => {
                    &&& r matches Ok(app)
                    &&& app == (App { commands: app.commands, ..self })
                    &&& app.commands@.drop_last() == self.commands@
                    &&& app.commands@.len() == self.commands@.len() + 1
                    &&& app.commands@.last()@ == command@.with_help()
                    &&& app.commands@.last().function == command.function
                    &&& app@.commands == self@.commands.push(command@.with_help())
                },
            },
            r matches Ok(app) ==> (self@.wf() ==> app@.wf()),
    {
        let mut app = self;
        match app.register(command) {
            Ok(()) => Ok(app),
            Err(e) => Err(e),
        }
    }

    /// Adds commands to the application one after another: all of them, or
    /// none where one is refused.
    pub fn commands(self, commands: Vec<Command>) -> (r: Result<Self, RegistrationError>)
        ensures
            match register_all(self@.commands, commands.deep_view()) {
                Err(e) => r is Err && r->Err_0@ == e,
                Ok(list) => {
                    &&& r matches Ok(app)
                    &&& app == (App { commands: app.commands, ..self })
                    &&& app@.commands == list
                    &&& app.commands@.len() == self.commands@.len() + commands@.len()
                    &&& app.commands@.take(self.commands@.len() as int) == self.commands@
                    &&& forall|j: int|
                        0 <= j < commands@.len() ==> (#[trigger] app.commands@[self.commands@.len()
                            + j]).function == commands@[j].function
                },
            },
            r matches Ok(app) ==> (self@.wf() ==> app@.wf()),
    {
        let ghost goal = register_all(self@.commands, commands.deep_view());
        let ghost kept = self.commands@.len() as int;
        let mut app = self;
        let mut queue = commands;
        assert(queue@.skip(0) =~= queue@);
        assert(app.commands@.take(kept) =~= self.commands@);
        while queue.len() > 0
            invariant
                goal == register_all(self@.commands, commands.deep_view()),
                goal == register_all(app@.commands, queue.deep_view()),
                kept == self.commands@.len(),
                self@.wf() ==> app@.wf(),
                app == (App { commands: app.commands, ..self }),
                app.commands@.len() + queue@.len() == kept + commands@.len(),
                app.commands@.len() >= kept,
                app.commands@.take(kept) == self.commands@,
                queue@ == commands@.skip(app.commands@.len() - kept),
                forall|j: int|
                    0 <= j < app.commands@.len() - kept ==> (#[trigger] app.commands@[kept
                        + j]).function == commands@[j].function,
            decreases queue.len(),
        {
            let ghost rest = queue.deep_view();
            let ghost before = app.commands@;
            let command = queue.remove(0);
            proof {
                assert(command@ == rest.first());
                assert(queue.deep_view() =~= rest.drop_first());
                assert(command == commands@[before.len() - kept]);
                assert(queue@ =~= commands@.skip(before.len() + 1 - kept));
            }
            match app.register(command) {
                Ok(()) => {
                    proof {
                        assert(app.commands@.take(kept) =~= before.take(kept));
                        assert forall|j: int| 0 <= j < app.commands@.len() - kept implies (
                        #[trigger] app.commands@[kept + j]).function
                            == commands@[j].function by {
                            if j < before.len() - kept {
                                assert(app.commands@[kept + j] == app.commands@.drop_last()[kept
                                    + j]);
                            }
                        }
                    }
                },
                Err(e) => {
                    return Err(e);
                },
            }
        }
        Ok(app)
    }

    /// Makes `command`, with the help flag after its own flags, the command
    /// that runs when none is named; from then on no argument is read as the
    /// name of a command.
    pub fn default_command(self, command: Command) -> (r: Result<Self, RegistrationError>)
        ensures
            match command@.shape_error() {
                Some(e) => r is Err && r->Err_0@ == e,
                None => {
                    &&& r matches Ok(app)
                    &&& app == (App {
                        default_command: app.default_command,
                        def_cmd_state: DefCmdState::Explicit,
                        ..self
                    })
                    &&& app.default_command@ == command@.with_help()
                    &&& app.default_command.function == command.function
                },
            },
            r matches Ok(app) ==> (self@.wf() ==> app@.wf()),
    {
        match check_shape(&command) {
            Err(e) => Err(e),
            Ok(()) => {
                let mut app = self;
                let mut command = command;
                let ghost declared = command@;
                proof {
                    lemma_accepted_shape(declared);
                }
                command.options.push(help_option());
                assert(command@.opts =~= declared.opts.push(help_flag()));
                app.default_command = command;
                app.def_cmd_state = DefCmdState::Explicit;
                Ok(app)
            },
        }
    }
}

impl App {
    /// The commands that arguments are matched against.
    pub open spec fn registry(&self) -> Registry {
        self@.registry()
    }

    /// The command at `command`: the default command for `None`.
    pub open spec fn active(&self, command: Option<usize>) -> &Command {
        match command {
            Some(i) => &self.commands[i as int],
            None => &self.default_command,
        }
    }

    /// The function of every command accepts every input of that command's
    /// shape.
    pub open spec fn ready(&self) -> bool {
        &&& self.default_command.ready()
        &&& forall|i: int| 0 <= i < self.commands.len() ==> (#[trigger] self.commands[i]).ready()
    }

    /// Finds the registered command that goes by `alias`, long or short.
    pub fn lookup_command(&self, alias: &String) -> (found: Option<&Command>)
        ensures
            match self.registry().resolve(alias@) {
                Some(i) => found == Some(&self.commands[i]),
                None => found is None,
            },
    {
        proof {
            assert(aliases_of(self.commands@) =~= command_aliases(self@.commands));
        }
        match find(&self.commands, alias) {
            Some(i) => Some(&self.commands[i]),
            None => None,
        }
    }

    /// The matcher before the first token.
    pub fn start(&self) -> (m: Matcher)
        ensures
            m@ == self.registry().start(),
            self.registry().fits(m@),
    {
        let m = Matcher {
            state: State::Start,
            command: None,
            args: Vec::new(),
            options: vec![false; self.default_command.options.len()],
            opt_args: vec![None; self.default_command.optional_args.len()],
        };
        assert(m@.args =~= Seq::empty());
        assert(m@.options =~= self@.default_command.no_flags());
        assert(m@.opt_args =~= self@.default_command.no_values());
        m
    }

    /// Feeds the matcher one token.
    pub fn step(&self, m: Matcher, token: Token) -> (r: Result<Matcher, ParseError>)
        requires
            self.registry().fits(m@),
        ensures
            match self.registry().step(m@, token@) {
                Ok(next) => r is Ok && r->Ok_0@ == next && self.registry().fits(next),
                Err(e) => r is Err && r->Err_0@ == e,
            },
    {
        let mut m = m;
        let ghost before = m@;
        match m.state {
            State::NeedOptArg(pending, index) => match token {
                Token::Opt(_) => Err(ParseError::MissingOptionValue(pending)),
                Token::Arg(value) | Token::Cmd(value) => {
                    m.opt_args.set(index, Some(value));
                    m.state = State::Start;
                    assert(m@.opt_args =~= before.opt_args.update(index as int, Some(value@)));
                    Ok(m)
                },
            },
            State::Start => match token {
                Token::Cmd(alias) => {
                    proof {
                        assert(aliases_of(self.commands@) =~= command_aliases(self@.commands));
                    }
                    match find(&self.commands, &alias) {
                        Some(i) => {
                            m.state = State::Start;
                            m.command = Some(i);
                            m.options = vec![false; self.commands[i].options.len()];
                            m.opt_args = vec![None; self.commands[i].optional_args.len()];
                            assert(m@.options =~= self@.commands[i as int].no_flags());
                            assert(m@.opt_args =~= self@.commands[i as int].no_values());
                            Ok(m)
                        },
                        None => Err(ParseError::UnknownCommand(alias)),
                    }
                },
                Token::Opt(raw) => {
                    let alias = remove_dashes(raw);
                    let command = match m.command {
                        Some(i) => &self.commands[i],
                        None => &self.default_command,
                    };
                    proof {
                        assert(command@ == self.registry().active(before.command));
                    }
                    match command.has_option(&alias) {
                        Some(CommandOptionPlace::Flag(i)) => {
                            m.state = State::Start;
                            m.options.set(i, true);
                            Ok(m)
                        },
                        Some(CommandOptionPlace::Value(i)) => {
                            m.state = State::NeedOptArg(alias, i);
                            Ok(m)
                        },
                        None => Err(ParseError::UnknownOption(alias)),
                    }
                },
                Token::Arg(value) => {
                    let command = match m.command {
                        Some(i) => &self.commands[i],
                        None => &self.default_command,
                    };
                    proof {
                        assert(command@ == self.registry().active(before.command));
                    }
                    if m.args.len() < command.args.len() {
                        m.state = State::Start;
                        m.args.push(value);
                        assert(m@.args =~= before.args.push(value@));
                        Ok(m)
                    } else {
                        Err(ParseError::TooManyArguments(value, command.args.len()))
                    }
                },
            },
        }
    }

    /// Closes the match once the tokens are used up.
    pub fn finish(&self, m: Matcher) -> (r: Result<MatchResult, ParseError>)
        requires
            self.registry().fits(m@),
        ensures
            match self.registry().finish(m@) {
                Ok(found) => r is Ok && r->Ok_0@ == found && self.takes(r->Ok_0),
                Err(e) => r is Err && r->Err_0@ == e,
            },
    {
        match m.state {
            State::NeedOptArg(pending, _) => Err(ParseError::MissingOptionValue(pending)),
            State::Start => {
                let command = match m.command {
                    Some(i) => &self.commands[i],
                    None => &self.default_command,
                };
                proof {
                    assert(command@ == self.registry().active(m@.command));
                }
                if m.args.len() != command.args.len() {
                    Err(ParseError::ArityMismatch(command.args.len(), m.args.len()))
                } else {
                    Ok(
                        MatchResult {
                            command: m.command,
                            args: m.args,
                            options: m.options,
                            opt_args: m.opt_args,
                        },
                    )
                }
            },
        }
    }

    /// The invocation names a command of the application and has that
    /// command's shape.
    pub open spec fn takes(&self, found: MatchResult) -> bool {
        &&& self.registry().has(place(found.command))
        &&& found.args.len() == self.active(found.command)@.args.len()
        &&& found.options.len() == self.active(found.command)@.opts.len()
        &&& found.opt_args.len() == self.active(found.command)@.opt_args.len()
    }

    /// Matches a token list against the application's commands, and tells
    /// which command was active where the match ended.
    pub fn match_tokens(&self, tokens: Vec<Token>) -> (r: (
        Result<MatchResult, ParseError>,
        Option<usize>,
    ))
        ensures
            match self.registry().matched(tokens.deep_view()) {
                Ok(found) => r.0 is Ok && r.0->Ok_0@ == found && self.takes(r.0->Ok_0),
                Err(e) => r.0 is Err && r.0->Err_0@ == e,
            },
            place(r.1) == self.registry().matched_command(tokens.deep_view()),
            self.registry().has(place(r.1)),
    {
        let ghost goal = self.registry().run(self.registry().start(), tokens.deep_view());
        let ghost last = self.registry().matched_command(tokens.deep_view());
        let mut queue = tokens;
        let mut m = self.start();
        while queue.len() > 0
            invariant
                self.registry().fits(m@),
                goal == self.registry().run(self.registry().start(), tokens.deep_view()),
                goal == self.registry().run(m@, queue.deep_view()),
                last == self.registry().matched_command(tokens.deep_view()),
                last == self.registry().active_after(m@, queue.deep_view()),
            decreases queue.len(),
        {
            let ghost rest = queue.deep_view();
            let ghost before = m@;
            let active = m.command;
            let token = queue.remove(0);
            proof {
                assert(token@ == rest.first());
                assert(queue.deep_view() =~= rest.drop_first());
                assert(goal == match self.registry().step(before, rest.first()) {
                    Ok(next) => self.registry().run(next, rest.drop_first()),
                    Err(e) => Err(e),
                });
                assert(last == match self.registry().step(before, rest.first()) {
                    Ok(next) => self.registry().active_after(next, rest.drop_first()),
                    Err(_) => before.command,
                });
            }
            match self.step(m, token) {
                Ok(next) => {
                    m = next;
                },
                Err(e) => {
                    return (Err(e), active);
                },
            }
        }
        let active = m.command;
        (self.finish(m), active)
    }

    /// Matches a token list against the application's commands.
    pub fn parse_args(&self, tokens: Vec<Token>) -> (r: Result<MatchResult, ParseError>)
        ensures
            match self.registry().matched(tokens.deep_view()) {
                Ok(found) => r is Ok && r->Ok_0@ == found && self.takes(r->Ok_0),
                Err(e) => r is Err && r->Err_0@ == e,
            },
    {
        self.match_tokens(tokens).0
    }
}

/// Why a run gave no result: the arguments matched no invocation, or the
/// command's function failed.
#[derive(Debug)]
pub enum RunError {
    Parse(ParseError),
    Function(String),
}

/// What a run returns for a result of the command's function.
pub open spec fn forwarded(result: FunctionResult) -> Result<Option<String>, RunError> {
    match result {
        Ok(output) => Ok(output),
        Err(message) => Err(RunError::Function(message)),
    }
}

/// Passes on the result of a command's function: its output as it is, its
/// error as the error of the run.
pub fn forward(result: FunctionResult) -> (r: Result<Option<String>, RunError>)
    ensures
        r == forwarded(result),
{
    match result {
        Ok(output) => Ok(output),
        Err(message) => Err(RunError::Function(message)),
    }
}

impl App {
    /// Runs the function of the command that was matched, on what was
    /// gathered for it.
    pub fn dispatch(&self, found: MatchResult) -> (result: FunctionResult)
        requires
            self.ready(),
            self.takes(found),
        ensures
            self.active(found.command).function.yields(
                found.args,
                found.options,
                found.opt_args,
                result,
            ),
    {
        match found.command {
            Some(i) => {
                assert(self.commands[i as int].ready());
                self.commands[i].function.execute(found.args, found.options, found.opt_args)
            },
            None => self.default_command.function.execute(
                found.args,
                found.options,
                found.opt_args,
            ),
        }
    }

    /// Runs the application on `args`, the arguments without the program's
    /// name: classifies them, matches them, and runs the matched command's
    /// function. Where they match nothing, no function runs.
    pub fn run_custom(&self, args: Vec<String>) -> (r: Result<Option<String>, RunError>)
        requires
            self.ready(),
        ensures
            match self@.parse(args.deep_view()) {
                Err(e) => r matches Err(RunError::Parse(error)) && error@ == e,
                Ok(found) => exists|invocation: MatchResult, result: FunctionResult|
                    {
                        &&& invocation@ == found
                        &&& self.takes(invocation)
                        &&& #[trigger] self.active(invocation.command).function.yields(
                            invocation.args,
                            invocation.options,
                            invocation.opt_args,
                            result,
                        )
                        &&& r == forwarded(result)
                    },
            },
    {
        let tokens = parse_args(args, &self.def_cmd_state);
        match self.parse_args(tokens) {
            Err(e) => Err(RunError::Parse(e)),
            Ok(found) => {
                let ghost invocation = found;
                let result = self.dispatch(found);
                let ghost outcome = result;
                let r = forward(result);
                assert(self.active(invocation.command).function.yields(
                    invocation.args,
                    invocation.options,
                    invocation.opt_args,
                    outcome,
                ));
                r
            },
        }
    }
}

} // verus!
