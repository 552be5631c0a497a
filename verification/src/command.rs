//! Command descriptions: positional arguments, flags, options that take a
//! value, and the function that a command runs.

use vstd::prelude::*;
use vstd::string::*;
use crate::alias::{aliases_of, find, find_alias, Aliased, Aliases};
use crate::text::{lowercase, lowercase_of, uppercase, uppercase_of};
use crate::types::FunctionResult;

verus! {

/// A positional argument of a command.
#[derive(Debug)]
pub struct __CArg {
    pub name: String,
}

impl View for __CArg {
    type V = Seq<char>;

    open spec fn view(&self) -> Seq<char> {
        self.name@
    }
}

impl DeepView for __CArg {
    type V = Seq<char>;

    open spec fn deep_view(&self) -> Seq<char> {
        self@
    }
}

impl __CArg {
    /// A positional argument called `name`.
    pub fn new(name: &str) -> (arg: Self)
        ensures
            arg@ == name@,
    {
        __CArg { name: name.to_owned() }
    }
}

/// A flag: an option that is present or absent and carries no value.
#[derive(Debug)]
pub struct __COpt {
    pub alias: String,
    pub alias_short: Option<String>,
    pub desc: String,
}

/// What a flag is, over sequences of characters.
pub struct OptView {
    pub alias: Seq<char>,
    pub alias_short: Option<Seq<char>>,
    pub desc: Seq<char>,
}

impl OptView {
    /// The two names of the flag.
    pub open spec fn aliases(self) -> Aliases {
        Aliases { long: self.alias, short: self.alias_short }
    }
}

impl View for __COpt {
    type V = OptView;

    open spec fn view(&self) -> OptView {
        OptView {
            alias: self.alias@,
            alias_short: self.alias_short.deep_view(),
            desc: self.desc@,
        }
    }
}

impl DeepView for __COpt {
    type V = OptView;

    open spec fn deep_view(&self) -> OptView {
        self@
    }
}

/// An owned copy of an optional string slice.
pub fn owned(s: Option<&str>) -> (r: Option<String>)
    ensures
        r.deep_view() == s.deep_view(),
{
    match s {
        Some(s) => Some(s.to_owned()),
        None => None,
    }
}

impl __COpt {
    /// A flag with the given aliases, written without dashes, and
    /// description.
    pub fn new(alias: &str, alias_short: Option<&str>, desc: &str) -> (opt: Self)
        ensures
            opt@ == (OptView {
                alias: alias@,
                alias_short: alias_short.deep_view(),
                desc: desc@,
            }),
    {
        __COpt { alias: alias.to_owned(), alias_short: owned(alias_short), desc: desc.to_owned() }
    }
}

impl Aliased for __COpt {
    open spec fn aliases(&self) -> Aliases {
        self@.aliases()
    }

    fn long_alias(&self) -> (alias: &String) {
        &self.alias
    }

    fn short_alias(&self) -> (alias: &Option<String>) {
        &self.alias_short
    }
}

/// An option that takes the argument after it as its value.
#[derive(Debug)]
pub struct __COArg {
    pub alias: String,
    pub alias_short: Option<String>,
    pub desc: String,
    pub arg_name: String,
}

/// What an option with a value is, over sequences of characters.
pub struct OptArgView {
    pub alias: Seq<char>,
    pub alias_short: Option<Seq<char>>,
    pub desc: Seq<char>,
    pub arg_name: Seq<char>,
}

impl OptArgView {
    /// The two names of the option.
    pub open spec fn aliases(self) -> Aliases {
        Aliases { long: self.alias, short: self.alias_short }
    }
}

impl View for __COArg {
    type V = OptArgView;

    open spec fn view(&self) -> OptArgView {
        OptArgView {
            alias: self.alias@,
            alias_short: self.alias_short.deep_view(),
            desc: self.desc@,
            arg_name: self.arg_name@,
        }
    }
}

impl DeepView for __COArg {
    type V = OptArgView;

    open spec fn deep_view(&self) -> OptArgView {
        self@
    }
}

impl __COArg {
    /// An option with the given aliases, written without dashes, and
    /// description, whose value help texts call `arg_name`.
    pub fn new(alias: &str, alias_short: Option<&str>, desc: &str, arg_name: &str) -> (opt: Self)
        ensures
            opt@ == (OptArgView {
                alias: alias@,
                alias_short: alias_short.deep_view(),
                desc: desc@,
                arg_name: arg_name@,
            }),
    {
        __COArg {
            alias: alias.to_owned(),
            alias_short: owned(alias_short),
            desc: desc.to_owned(),
            arg_name: arg_name.to_owned(),
        }
    }
}

impl Aliased for __COArg {
    open spec fn aliases(&self) -> Aliases {
        self@.aliases()
    }

    fn long_alias(&self) -> (alias: &String) {
        &self.alias
    }

    fn short_alias(&self) -> (alias: &Option<String>) {
        &self.alias_short
    }
}

/// An option while it is being described: a flag until it is given an
/// argument, an option with a value after.
#[derive(Debug)]
pub struct CommandOption {
    pub alias_long: String,
    pub alias_short: Option<String>,
    pub argument: Option<String>,
    pub description: String,
}

/// What a [`CommandOption`] is, over sequences of characters.
pub struct CommandOptionView {
    pub alias_long: Seq<char>,
    pub alias_short: Option<Seq<char>>,
    pub argument: Option<Seq<char>>,
    pub description: Seq<char>,
}

impl View for CommandOption {
    type V = CommandOptionView;

    open spec fn view(&self) -> CommandOptionView {
        CommandOptionView {
            alias_long: self.alias_long@,
            alias_short: self.alias_short.deep_view(),
            argument: self.argument.deep_view(),
            description: self.description@,
        }
    }
}

impl CommandOption {
    /// A flag with the long alias `alias_long`, written without dashes.
    pub fn new(alias_long: &str, desc: &str) -> (option: Self)
        ensures
            option@ == (CommandOptionView {
                alias_long: alias_long@,
                alias_short: None,
                argument: None,
                description: desc@,
            }),
    {
        CommandOption {
            alias_long: alias_long.to_owned(),
            alias_short: None,
            argument: None,
            description: desc.to_owned(),
        }
    }

    /// Gives the option the short alias `alias`, written without a dash.
    pub fn alias(self, alias: &str) -> (option: Self)
        ensures
            option@ == (CommandOptionView { alias_short: Some(alias@), ..self@ }),
    {
        let mut option = self;
        option.alias_short = Some(alias.to_owned());
        option
    }

    /// Makes the option take a value, which help texts call by the
    /// upper-case form of `argument_name`.
    pub fn arg(self, argument_name: &str) -> (option: Self)
        ensures
            option@ == (CommandOptionView {
                argument: Some(uppercase_of(argument_name@)),
                ..self@
            }),
    {
        self.valued(uppercase(argument_name))
    }

    /// Makes the option take a value, which help texts call `name` as it is
    /// given.
    pub fn valued(self, name: String) -> (option: Self)
        ensures
            option@ == (CommandOptionView { argument: Some(name@), ..self@ }),
    {
        let mut option = self;
        option.argument = Some(name);
        option
    }
}

/// What a command runs once its arguments were matched.
///
/// The three collections that it is handed are the positional values, one
/// `bool` for each flag and one optional value for each option that takes a
/// value, each in the order in which the command declares them.
pub trait CommandFunction {
    /// The inputs on which the function may be called.
    spec fn accepts(
        &self,
        args: Vec<String>,
        options: Vec<bool>,
        opt_args: Vec<Option<String>>,
    ) -> bool;

    /// The results that the function may give on an input.
    spec fn yields(
        &self,
        args: Vec<String>,
        options: Vec<bool>,
        opt_args: Vec<Option<String>>,
        result: FunctionResult,
    ) -> bool;

    fn execute(&self, args: Vec<String>, options: Vec<bool>, opt_args: Vec<Option<String>>) -> (result:
        FunctionResult)
        requires
            self.accepts(args, options, opt_args),
        ensures
            self.yields(args, options, opt_args, result),
    ;
}

impl<F: Fn(Vec<String>, Vec<bool>, Vec<Option<String>>) -> FunctionResult> CommandFunction for F {
    open spec fn accepts(
        &self,
        args: Vec<String>,
        options: Vec<bool>,
        opt_args: Vec<Option<String>>,
    ) -> bool {
        call_requires(*self, (args, options, opt_args))
    }

    open spec fn yields(
        &self,
        args: Vec<String>,
        options: Vec<bool>,
        opt_args: Vec<Option<String>>,
        result: FunctionResult,
    ) -> bool {
        call_ensures(*self, (args, options, opt_args), result)
    }

    fn execute(&self, args: Vec<String>, options: Vec<bool>, opt_args: Vec<Option<String>>) -> (result:
        FunctionResult) {
        self(args, options, opt_args)
    }
}

/// The function of the built-in default command: it does nothing and reports
/// nothing.
#[derive(Debug)]
pub struct DefaultCommand;

impl CommandFunction for DefaultCommand {
    open spec fn accepts(
        &self,
        args: Vec<String>,
        options: Vec<bool>,
        opt_args: Vec<Option<String>>,
    ) -> bool {
        true
    }

    open spec fn yields(
        &self,
        args: Vec<String>,
        options: Vec<bool>,
        opt_args: Vec<Option<String>>,
        result: FunctionResult,
    ) -> bool {
        result == Ok::<Option<String>, String>(None)
    }

    fn execute(&self, args: Vec<String>, options: Vec<bool>, opt_args: Vec<Option<String>>) -> (result:
        FunctionResult) {
        Ok(None)
    }
}

/// Where an option of a command stands: among its flags, or among its
/// options that take a value.
#[derive(Clone, Copy, Debug, PartialEq, Eq)]
pub enum CommandOptionPlace {
    Flag(usize),
    Value(usize),
}

/// What a [`CommandOptionPlace`] is, over mathematical integers.
pub enum OptionPlace {
    Flag(int),
    Value(int),
}

impl View for CommandOptionPlace {
    type V = OptionPlace;

    open spec fn view(&self) -> OptionPlace {
        match self {
            CommandOptionPlace::Flag(i) => OptionPlace::Flag(*i as int),
            CommandOptionPlace::Value(i) => OptionPlace::Value(*i as int),
        }
    }
}

/// A command: how it is called, what it takes, and what it runs.
pub struct Command {
    pub alias_long: String,
    pub alias_short: Option<String>,
    pub desc: String,
    pub args: Vec<__CArg>,
    pub options: Vec<__COpt>,
    pub optional_args: Vec<__COArg>,
    pub function: Box<dyn CommandFunction>,
}

/// What a command is to the matcher: its names and what it takes, over
/// sequences of characters. The function is no part of it.
pub struct CommandView {
    pub alias: Seq<char>,
    pub alias_short: Option<Seq<char>>,
    pub desc: Seq<char>,
    pub args: Seq<Seq<char>>,
    pub opts: Seq<OptView>,
    pub opt_args: Seq<OptArgView>,
}

impl CommandView {
    /// The two names of the command.
    pub open spec fn aliases(self) -> Aliases {
        Aliases { long: self.alias, short: self.alias_short }
    }

    /// The number of positional values that the command requires.
    pub open spec fn arity(self) -> nat {
        self.args.len()
    }

    /// The aliases of each flag.
    pub open spec fn flag_aliases(self) -> Seq<Aliases> {
        Seq::new(self.opts.len(), |i: int| self.opts[i].aliases())
    }

    /// The aliases of each option that takes a value.
    pub open spec fn value_aliases(self) -> Seq<Aliases> {
        Seq::new(self.opt_args.len(), |i: int| self.opt_args[i].aliases())
    }

    /// The flag that goes by `alias`: the first, if there are several.
    pub open spec fn flag(self, alias: Seq<char>) -> Option<int> {
        find_alias(self.flag_aliases(), alias)
    }

    /// The option with a value that goes by `alias`, where no flag does.
    pub open spec fn value_option(self, alias: Seq<char>) -> Option<int> {
        if self.flag(alias) is Some {
            None
        } else {
            find_alias(self.value_aliases(), alias)
        }
    }

    /// The option that goes by `alias`: a flag first, an option with a value
    /// where no flag does.
    pub open spec fn option(self, alias: Seq<char>) -> Option<OptionPlace> {
        match self.flag(alias) {
            Some(i) => Some(OptionPlace::Flag(i)),
            None => match self.value_option(alias) {
                Some(i) => Some(OptionPlace::Value(i)),
                None => None,
            },
        }
    }
}

impl View for Command {
    type V = CommandView;

    open spec fn view(&self) -> CommandView {
        CommandView {
            alias: self.alias_long@,
            alias_short: self.alias_short.deep_view(),
            desc: self.desc@,
            args: self.args.deep_view(),
            opts: self.options.deep_view(),
            opt_args: self.optional_args.deep_view(),
        }
    }
}

impl DeepView for Command {
    type V = CommandView;

    open spec fn deep_view(&self) -> CommandView {
        self@
    }
}

impl Aliased for Command {
    open spec fn aliases(&self) -> Aliases {
        self@.aliases()
    }

    fn long_alias(&self) -> (alias: &String) {
        &self.alias_long
    }

    fn short_alias(&self) -> (alias: &Option<String>) {
        &self.alias_short
    }
}

impl Command {
    /// The function accepts every input of the command's shape: as many
    /// positional values as it declares, one `bool` for each flag and one
    /// optional value for each option that takes one.
    pub open spec fn ready(&self) -> bool {
        forall|args: Vec<String>, options: Vec<bool>, opt_args: Vec<Option<String>>|
            args.len() == self@.args.len() && options.len() == self@.opts.len() && opt_args.len()
                == self@.opt_args.len() ==> #[trigger] self.function.accepts(
                args,
                options,
                opt_args,
            )
    }

    /// Finds the option that goes by `alias`, written without dashes: a
    /// flag first, an option with a value where no flag goes by it.
    pub fn has_option(&self, alias: &String) -> (found: Option<CommandOptionPlace>)
        ensures
            match self@.option(alias@) {
                Some(place) => found is Some && found->0@ == place,
                None => found is None,
            },
            found matches Some(CommandOptionPlace::Flag(i)) ==> i < self.options.len(),
            found matches Some(CommandOptionPlace::Value(i)) ==> i < self.optional_args.len(),
    {
        proof {
            assert(aliases_of(self.options@) =~= self@.flag_aliases());
            assert(aliases_of(self.optional_args@) =~= self@.value_aliases());
        }
        match find(&self.options, alias) {
            Some(i) => Some(CommandOptionPlace::Flag(i)),
            None => match find(&self.optional_args, alias) {
                Some(i) => Some(CommandOptionPlace::Value(i)),
                None => None,
            },
        }
    }

    /// Whatever the function is handed, it does nothing and reports nothing.
    pub open spec fn idle(&self) -> bool {
        forall|
            args: Vec<String>,
            options: Vec<bool>,
            opt_args: Vec<Option<String>>,
            result: FunctionResult,
        | #[trigger]
            self.function.yields(args, options, opt_args, result) ==> result == Ok::<
                Option<String>,
                String,
            >(None)
    }

    /// A command that takes nothing and runs `function`, called by the
    /// lower-case form of `alias`.
    pub fn new<F>(alias: &str, desc: &str, function: F) -> (command: Self) where
        F: Fn(Vec<String>, Vec<bool>, Vec<Option<String>>) -> FunctionResult + 'static,

        ensures
            command@ == (CommandView {
                alias: lowercase_of(alias@),
                alias_short: None,
                desc: desc@,
                args: Seq::empty(),
                opts: Seq::empty(),
                opt_args: Seq::empty(),
            }),
            forall|args: Vec<String>, options: Vec<bool>, opt_args: Vec<Option<String>>|
                #[trigger] command.function.accepts(args, options, opt_args) == call_requires(
                    function,
                    (args, options, opt_args),
                ),
            forall|
                args: Vec<String>,
                options: Vec<bool>,
                opt_args: Vec<Option<String>>,
                result: FunctionResult,
            |
                #[trigger] command.function.yields(args, options, opt_args, result)
                    == call_ensures(function, (args, options, opt_args), result),
    {
        Command::named(lowercase(alias), desc, function)
    }

    /// A command that takes nothing and runs `function`, called `alias` as
    /// it is given.
    pub fn named<F>(alias: String, desc: &str, function: F) -> (command: Self) where
        F: Fn(Vec<String>, Vec<bool>, Vec<Option<String>>) -> FunctionResult + 'static,

        ensures
            command@ == (CommandView {
                alias: alias@,
                alias_short: None,
                desc: desc@,
                args: Seq::empty(),
                opts: Seq::empty(),
                opt_args: Seq::empty(),
            }),
            forall|args: Vec<String>, options: Vec<bool>, opt_args: Vec<Option<String>>|
                #[trigger] command.function.accepts(args, options, opt_args) == call_requires(
                    function,
                    (args, options, opt_args),
                ),
            forall|
                args: Vec<String>,
                options: Vec<bool>,
                opt_args: Vec<Option<String>>,
                result: FunctionResult,
            |
                #[trigger] command.function.yields(args, options, opt_args, result)
                    == call_ensures(function, (args, options, opt_args), result),
    {
        let command = Command {
            alias_long: alias,
            alias_short: None,
            desc: desc.to_owned(),
            args: Vec::new(),
            options: Vec::new(),
            optional_args: Vec::new(),
            function: Box::new(function),
        };
        assert(command@.args =~= Seq::empty());
        assert(command@.opts =~= Seq::empty());
        assert(command@.opt_args =~= Seq::empty());
        command
    }

    /// Gives the command the lower-case form of `alias` as its short alias.
    pub fn alias(self, alias: &str) -> (command: Self)
        ensures
            command@ == (CommandView { alias_short: Some(lowercase_of(alias@)), ..self@ }),
            command.function == self.function,
    {
        self.called(lowercase(alias))
    }

    /// Gives the command the short alias `alias` as it is given.
    pub fn called(self, alias: String) -> (command: Self)
        ensures
            command@ == (CommandView { alias_short: Some(alias@), ..self@ }),
            command.function == self.function,
    {
        let mut command = self;
        command.alias_short = Some(alias);
        command
    }

    /// Adds an option: a flag where `option` takes no argument, an option
    /// with a value where it takes one.
    pub fn option(self, option: CommandOption) -> (command: Self)
        ensures
            command.function == self.function,
            match option@.argument {
                None => command@ == (CommandView {
                    opts: self@.opts.push(
                        OptView {
                            alias: option@.alias_long,
                            alias_short: option@.alias_short,
                            desc: option@.description,
                        },
                    ),
                    ..self@
                }),
                Some(name) => command@ == (CommandView {
                    opt_args: self@.opt_args.push(
                        OptArgView {
                            alias: option@.alias_long,
                            alias_short: option@.alias_short,
                            desc: option@.description,
                            arg_name: name,
                        },
                    ),
                    ..self@
                }),
            },
    {
        let mut command = self;
        match option.argument {
            None => {
                command.options.push(
                    __COpt {
                        alias: option.alias_long,
                        alias_short: option.alias_short,
                        desc: option.description,
                    },
                );
                assert(command@.opts =~= self@.opts.push(
                    OptView {
                        alias: option@.alias_long,
                        alias_short: option@.alias_short,
                        desc: option@.description,
                    },
                ));
            },
            Some(name) => {
                command.optional_args.push(
                    __COArg {
                        alias: option.alias_long,
                        alias_short: option.alias_short,
                        desc: option.description,
                        arg_name: name,
                    },
                );
                assert(command@.opt_args =~= self@.opt_args.push(
                    OptArgView {
                        alias: option@.alias_long,
                        alias_short: option@.alias_short,
                        desc: option@.description,
                        arg_name: name@,
                    },
                ));
            },
        }
        command
    }

    /// Adds a positional argument, called by the upper-case form of `name`.
    pub fn arg(self, name: &str) -> (command: Self)
        ensures
            command@ == (CommandView { args: self@.args.push(uppercase_of(name@)), ..self@ }),
            command.function == self.function,
    {
        self.positional(__CArg { name: uppercase(name) })
    }

    /// Adds a positional argument as it is given.
    pub fn positional(self, arg: __CArg) -> (command: Self)
        ensures
            command@ == (CommandView { args: self@.args.push(arg@), ..self@ }),
            command.function == self.function,
    {
        let mut command = self;
        command.args.push(arg);
        assert(command@.args =~= self@.args.push(arg@));
        command
    }
}

} // verus!
