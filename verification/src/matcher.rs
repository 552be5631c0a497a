//! The argument matcher: a machine of two states that reads the tokens in
//! order and parts positional values, flags and option values.

use vstd::prelude::*;
use vstd::string::*;
use crate::alias::{find_alias, lemma_find_alias, Aliases};
use crate::command::{Command, CommandView, OptArgView, OptView, OptionPlace};
use crate::types::{FunctionInput, FunctionOption, FunctionOptions};
use crate::parse::{strip_dashes, TokenView};
use crate::registry::command_aliases;
use crate::text::{decimal, to_decimal};

verus! {

/// The commands that arguments are matched against.
pub struct Registry {
    pub commands: Seq<CommandView>,
    pub default_command: CommandView,
}

/// What the matcher expects next.
#[derive(Debug)]
pub enum State {
    /// A flag, the alias of an option with a value, or a positional value.
    Start,
    /// The value of the option that was just named, by the alias that was
    /// written, without its dashes, and by the option's place among those of
    /// the command.
    NeedOptArg(String, usize),
}

/// What a [`State`] is, over sequences of characters.
pub enum StateView {
    Start,
    NeedOptArg(Seq<char>, int),
}

impl View for State {
    type V = StateView;

    open spec fn view(&self) -> StateView {
        match self {
            State::Start => StateView::Start,
            State::NeedOptArg(alias, index) => StateView::NeedOptArg(alias@, *index as int),
        }
    }
}

/// The matcher between two tokens: what it expects, which command is
/// active (`None` for the default command) and what it has gathered.
#[derive(Debug)]
pub struct Matcher {
    pub state: State,
    pub command: Option<usize>,
    pub args: Vec<String>,
    pub options: Vec<bool>,
    pub opt_args: Vec<Option<String>>,
}

/// What a [`Matcher`] is, over sequences of characters.
pub struct MatcherView {
    pub state: StateView,
    pub command: Option<int>,
    pub args: Seq<Seq<char>>,
    pub options: Seq<bool>,
    pub opt_args: Seq<Option<Seq<char>>>,
}

/// The place of a command as a mathematical integer.
pub open spec fn place(command: Option<usize>) -> Option<int> {
    match command {
        Some(i) => Some(i as int),
        None => None,
    }
}

impl View for Matcher {
    type V = MatcherView;

    open spec fn view(&self) -> MatcherView {
        MatcherView {
            state: self.state@,
            command: place(self.command),
            args: self.args.deep_view(),
            options: self.options@,
            opt_args: self.opt_args.deep_view(),
        }
    }
}

/// A checked invocation: the command to run (`None` for the default
/// command) and the three collections that its function is handed.
#[derive(Debug)]
pub struct MatchResult {
    pub command: Option<usize>,
    pub args: FunctionInput,
    pub options: Vec<bool>,
    pub opt_args: Vec<Option<String>>,
}

/// What a [`MatchResult`] is, over sequences of characters.
pub struct MatchView {
    pub command: Option<int>,
    pub args: Seq<Seq<char>>,
    pub options: Seq<bool>,
    pub opt_args: Seq<Option<Seq<char>>>,
}

impl View for MatchResult {
    type V = MatchView;

    open spec fn view(&self) -> MatchView {
        MatchView {
            command: place(self.command),
            args: self.args.deep_view(),
            options: self.options@,
            opt_args: self.opt_args.deep_view(),
        }
    }
}

/// Why an argument list matched no invocation.
#[derive(Debug)]
pub enum ParseError {
    /// The first argument names no registered command.
    UnknownCommand(String),
    /// An option, here without its dashes, that the active command does not
    /// have.
    UnknownOption(String),
    /// An option that takes a value, here without its dashes, was followed by
    /// another option or by nothing.
    MissingOptionValue(String),
    /// A positional value beyond those that the active command takes, with
    /// the number that it takes.
    TooManyArguments(String, usize),
    /// The number of positional values that the active command takes, and
    /// the number that were given.
    ArityMismatch(usize, usize),
}

/// What a [`ParseError`] is, over sequences of characters.
pub enum ParseErrorView {
    UnknownCommand(Seq<char>),
    UnknownOption(Seq<char>),
    MissingOptionValue(Seq<char>),
    TooManyArguments(Seq<char>, nat),
    ArityMismatch(nat, nat),
}

impl View for ParseError {
    type V = ParseErrorView;

    open spec fn view(&self) -> ParseErrorView {
        match self {
            ParseError::UnknownCommand(alias) => ParseErrorView::UnknownCommand(alias@),
            ParseError::UnknownOption(alias) => ParseErrorView::UnknownOption(alias@),
            ParseError::MissingOptionValue(alias) => ParseErrorView::MissingOptionValue(alias@),
            ParseError::TooManyArguments(value, arity) => ParseErrorView::TooManyArguments(
                value@,
                *arity as nat,
            ),
            ParseError::ArityMismatch(expected, actual) => ParseErrorView::ArityMismatch(
                *expected as nat,
                *actual as nat,
            ),
        }
    }
}

impl ParseErrorView {
    /// The error says that the number of positional values is wrong.
    pub open spec fn is_arity_error(self) -> bool {
        self is TooManyArguments || self is ArityMismatch
    }

    /// The error in words.
    pub open spec fn message(self) -> Seq<char> {
        match self {
            ParseErrorView::UnknownCommand(alias) => "The given command does not exist: `"@ + alias
                + "`"@,
            ParseErrorView::UnknownOption(alias) => "Invalid option provided: `"@ + alias + "`"@,
            ParseErrorView::MissingOptionValue(alias) => "Expected an optional argument `"@ + alias
                + "`"@,
            ParseErrorView::TooManyArguments(value, arity) => "Too many arguments provided: expected "@
                + decimal(arity) + ", found `"@ + value + "` after them"@,
            ParseErrorView::ArityMismatch(expected, actual) => "Incorrect amount of arguments provided: expected "@
                + decimal(expected) + ", found "@ + decimal(actual),
        }
    }
}

impl ParseError {
    /// Writes the error in words.
    pub fn message(&self) -> (text: String)
        ensures
            text@ == self@.message(),
    {
        match self {
            ParseError::UnknownCommand(alias) => {
                "The given command does not exist: `".to_owned().concat(alias.as_str()).concat("`")
            },
            ParseError::UnknownOption(alias) => {
                "Invalid option provided: `".to_owned().concat(alias.as_str()).concat("`")
            },
            ParseError::MissingOptionValue(alias) => {
                "Expected an optional argument `".to_owned().concat(alias.as_str()).concat("`")
            },
            ParseError::TooManyArguments(value, arity) => {
                "Too many arguments provided: expected ".to_owned().concat(
                    to_decimal(*arity).as_str(),
                ).concat(", found `").concat(value.as_str()).concat("` after them")
            },
            ParseError::ArityMismatch(expected, actual) => {
                "Incorrect amount of arguments provided: expected ".to_owned().concat(
                    to_decimal(*expected).as_str(),
                ).concat(", found ").concat(to_decimal(*actual).as_str())
            },
        }
    }
}

impl CommandView {
    /// No flag seen: one `false` for each flag of the command.
    pub open spec fn no_flags(self) -> Seq<bool> {
        Seq::new(self.opts.len(), |i: int| false)
    }

    /// No value given: one `None` for each option that takes a value.
    pub open spec fn no_values(self) -> Seq<Option<Seq<char>>> {
        Seq::new(self.opt_args.len(), |i: int| None)
    }
}

impl Registry {
    /// `command` is the default command or one that is registered.
    pub open spec fn has(self, command: Option<int>) -> bool {
        match command {
            Some(i) => 0 <= i < self.commands.len(),
            None => true,
        }
    }

    /// The command at `command`: the default command for `None`.
    pub open spec fn active(self, command: Option<int>) -> CommandView {
        match command {
            Some(i) => self.commands[i],
            None => self.default_command,
        }
    }

    /// The registered command that goes by `alias`.
    pub open spec fn resolve(self, alias: Seq<char>) -> Option<int> {
        find_alias(command_aliases(self.commands), alias)
    }

    /// The matcher before the first token: the default command is active and
    /// nothing is gathered.
    pub open spec fn start(self) -> MatcherView {
        MatcherView {
            state: StateView::Start,
            command: None,
            args: Seq::empty(),
            options: self.default_command.no_flags(),
            opt_args: self.default_command.no_values(),
        }
    }

    /// What holds of a matcher between any two tokens: its command exists,
    /// it has one place for each flag and each option with a value of that
    /// command, and an option that awaits its value is one of them.
    pub open spec fn fits(self, m: MatcherView) -> bool {
        &&& self.has(m.command)
        &&& m.options.len() == self.active(m.command).opts.len()
        &&& m.opt_args.len() == self.active(m.command).opt_args.len()
        &&& match m.state {
            StateView::Start => true,
            StateView::NeedOptArg(_, index) => 0 <= index < m.opt_args.len(),
        }
    }

    /// The matcher after one more token, or the error that ends the match.
    pub open spec fn step(self, m: MatcherView, token: TokenView) -> Result<
        MatcherView,
        ParseErrorView,
    > {
        match m.state {
            StateView::NeedOptArg(pending, index) => match token {
                TokenView::Opt(_) => Err(ParseErrorView::MissingOptionValue(pending)),
                TokenView::Arg(value) | TokenView::Cmd(value) => Ok(
                    MatcherView {
                        state: StateView::Start,
                        opt_args: m.opt_args.update(index, Some(value)),
                        ..m
                    },
                ),
            },
            StateView::Start => match token {
                TokenView::Cmd(alias) => match self.resolve(alias) {
                    Some(i) => Ok(
                        MatcherView {
                            command: Some(i),
                            options: self.commands[i].no_flags(),
                            opt_args: self.commands[i].no_values(),
                            ..m
                        },
                    ),
                    None => Err(ParseErrorView::UnknownCommand(alias)),
                },
                TokenView::Opt(raw) => {
                    let alias = strip_dashes(raw);
                    let command = self.active(m.command);
                    match command.option(alias) {
                        Some(OptionPlace::Flag(i)) => Ok(
                            MatcherView { options: m.options.update(i, true), ..m },
                        ),
                        Some(OptionPlace::Value(i)) => Ok(
                            MatcherView { state: StateView::NeedOptArg(alias, i), ..m },
                        ),
                        None => Err(ParseErrorView::UnknownOption(alias)),
                    }
                },
                TokenView::Arg(value) => {
                    let arity = self.active(m.command).arity();
                    if m.args.len() < arity {
                        Ok(MatcherView { args: m.args.push(value), ..m })
                    } else {
                        Err(ParseErrorView::TooManyArguments(value, arity))
                    }
                },
            },
        }
    }

    /// The matcher after all of `tokens`, or the first error.
    pub open spec fn run(self, m: MatcherView, tokens: Seq<TokenView>) -> Result<
        MatcherView,
        ParseErrorView,
    >
        decreases tokens.len(),
    {
        if tokens.len() == 0 {
            Ok(m)
        } else {
            match self.step(m, tokens.first()) {
                Ok(next) => self.run(next, tokens.drop_first()),
                Err(e) => Err(e),
            }
        }
    }

    /// The command that is active where a run over `tokens` ends: at the
    /// token that ends the match with an error, or once the tokens are used
    /// up.
    pub open spec fn active_after(self, m: MatcherView, tokens: Seq<TokenView>) -> Option<int>
        decreases tokens.len(),
    {
        if tokens.len() == 0 {
            m.command
        } else {
            match self.step(m, tokens.first()) {
                Ok(next) => self.active_after(next, tokens.drop_first()),
                Err(_) => m.command,
            }
        }
    }

    /// The command that is active where the match of `tokens` ends.
    pub open spec fn matched_command(self, tokens: Seq<TokenView>) -> Option<int> {
        self.active_after(self.start(), tokens)
    }

    /// What the matcher has once the tokens are used up: an error where an
    /// option still awaits its value or the number of positional values is
    /// not the command's arity, else the invocation.
    pub open spec fn finish(self, m: MatcherView) -> Result<MatchView, ParseErrorView> {
        match m.state {
            StateView::NeedOptArg(pending, _) => Err(ParseErrorView::MissingOptionValue(pending)),
            StateView::Start => {
                let arity = self.active(m.command).arity();
                if m.args.len() != arity {
                    Err(ParseErrorView::ArityMismatch(arity, m.args.len()))
                } else {
                    Ok(
                        MatchView {
                            command: m.command,
                            args: m.args,
                            options: m.options,
                            opt_args: m.opt_args,
                        },
                    )
                }
            },
        }
    }

    /// The invocation that `tokens` match, or the error.
    pub open spec fn matched(self, tokens: Seq<TokenView>) -> Result<MatchView, ParseErrorView> {
        match self.run(self.start(), tokens) {
            Ok(m) => self.finish(m),
            Err(e) => Err(e),
        }
    }
}

impl Registry {
    /// A step keeps the matcher fit.
    pub proof fn lemma_step_fits(self, m: MatcherView, token: TokenView)
        requires
            self.fits(m),
        ensures
            self.step(m, token) matches Ok(next) ==> self.fits(next),
    {
        let command = self.active(m.command);
        lemma_find_alias(command_aliases(self.commands), token.text());
        lemma_find_alias(command.flag_aliases(), strip_dashes(token.text()));
        lemma_find_alias(command.value_aliases(), strip_dashes(token.text()));
    }

    /// A run keeps the matcher fit.
    pub proof fn lemma_run_fits(self, m: MatcherView, tokens: Seq<TokenView>)
        requires
            self.fits(m),
        ensures
            self.run(m, tokens) matches Ok(last) ==> self.fits(last),
        decreases tokens.len(),
    {
        if tokens.len() > 0 {
            self.lemma_step_fits(m, tokens.first());
            match self.step(m, tokens.first()) {
                Ok(next) => {
                    self.lemma_run_fits(next, tokens.drop_first());
                },
                Err(_) => {},
            }
        }
    }

    /// A run over one list and then another is the run over the first and,
    /// where that gave no error, the run over the second from where it
    /// ended.
    pub proof fn lemma_run_add(self, m: MatcherView, a: Seq<TokenView>, b: Seq<TokenView>)
        ensures
            self.run(m, a + b) == match self.run(m, a) {
                Ok(middle) => self.run(middle, b),
                Err(e) => Err(e),
            },
        decreases a.len(),
    {
        if a.len() == 0 {
            assert(a + b =~= b);
        } else {
            assert((a + b).first() == a.first());
            assert((a + b).drop_first() =~= a.drop_first() + b);
            match self.step(m, a.first()) {
                Ok(next) => {
                    self.lemma_run_add(next, a.drop_first(), b);
                },
                Err(_) => {},
            }
        }
    }

    /// A run over a single token is a step.
    pub proof fn lemma_run_one(self, m: MatcherView, token: TokenView)
        ensures
            self.run(m, seq![token]) == self.step(m, token),
    {
        assert(seq![token].drop_first() =~= Seq::<TokenView>::empty());
        assert(seq![token].first() == token);
        match self.step(m, token) {
            Ok(next) => {
                assert(self.run(next, Seq::<TokenView>::empty()) == Ok::<
                    MatcherView,
                    ParseErrorView,
                >(next));
            },
            Err(_) => {},
        }
    }
}

impl CommandView {
    /// The positional values among `tokens` in their order, where the
    /// tokens hold only what the command can take: positional values, flags
    /// of the command, and options of the command that take a value, each
    /// followed by a token that is no option. `None` for any other list.
    pub open spec fn positional_values(self, tokens: Seq<TokenView>) -> Option<Seq<Seq<char>>>
        decreases tokens.len(),
    {
        if tokens.len() == 0 {
            Some(Seq::empty())
        } else {
            match tokens.first() {
                TokenView::Cmd(_) => None,
                TokenView::Arg(value) => match self.positional_values(tokens.drop_first()) {
                    Some(values) => Some(seq![value] + values),
                    None => None,
                },
                TokenView::Opt(raw) => if self.flag(strip_dashes(raw)) is Some {
                    self.positional_values(tokens.drop_first())
                } else if self.value_option(strip_dashes(raw)) is Some {
                    if tokens.len() >= 2 && !(tokens[1] is Opt) {
                        self.positional_values(tokens.skip(2))
                    } else {
                        None
                    }
                } else {
                    None
                },
            }
        }
    }
}

impl Registry {
    /// From a fit matcher that expects anything and has no more positional
    /// values than the active command takes, a list that holds only what the
    /// command can take runs without an error as long as the values are no
    /// more than the command takes, and leaves the command active and every
    /// value gathered; with more it runs into an error for too many
    /// arguments.
    pub proof fn lemma_run_counts(self, m: MatcherView, tokens: Seq<TokenView>)
        requires
            self.fits(m),
            m.state is Start,
            m.args.len() <= self.active(m.command).arity(),
            self.active(m.command).positional_values(tokens) is Some,
        ensures
            ({
                let command = self.active(m.command);
                let values = command.positional_values(tokens)->0;
                let total = m.args.len() + values.len();
                if total <= command.arity() {
                    &&& self.run(m, tokens) matches Ok(last)
                    &&& last.state is Start
                    &&& last.command == m.command
                    &&& last.args == m.args + values
                } else {
                    self.run(m, tokens) matches Err(ParseErrorView::TooManyArguments(_, arity))
                        && arity == command.arity()
                }
            }),
        decreases tokens.len(),
    {
        let command = self.active(m.command);
        if tokens.len() > 0 {
            let rest = tokens.drop_first();
            self.lemma_step_fits(m, tokens.first());
            assert(self.run(m, tokens) == match self.step(m, tokens.first()) {
                Ok(next) => self.run(next, rest),
                Err(e) => Err(e),
            });
            match tokens.first() {
                TokenView::Cmd(_) => {},
                TokenView::Arg(value) => {
                    assert(command.positional_values(rest) is Some);
                    if m.args.len() < command.arity() {
                        let next = self.step(m, tokens.first())->Ok_0;
                        assert(self.active(next.command) == command);
                        self.lemma_run_counts(next, rest);
                        let values = command.positional_values(rest)->0;
                        assert(m.args.push(value) + values =~= m.args + (seq![value] + values));
                    }
                },
                TokenView::Opt(raw) => {
                    let alias = strip_dashes(raw);
                    lemma_find_alias(command.flag_aliases(), alias);
                    lemma_find_alias(command.value_aliases(), alias);
                    if command.flag(alias) is Some {
                        let next = self.step(m, tokens.first())->Ok_0;
                        assert(self.active(next.command) == command);
                        self.lemma_run_counts(next, rest);
                    } else {
                        assert(command.value_option(alias) is Some);
                        let next = self.step(m, tokens.first())->Ok_0;
                        assert(rest.len() > 0);
                        assert(rest.first() == tokens[1]);
                        assert(rest.drop_first() =~= tokens.skip(2));
                        self.lemma_step_fits(next, rest.first());
                        assert(self.step(next, rest.first()) is Ok);
                        let after = self.step(next, rest.first())->Ok_0;
                        assert(self.run(next, rest) == self.run(after, tokens.skip(2)));
                        assert(self.active(after.command) == command);
                        assert(after.args == m.args);
                        self.lemma_run_counts(after, tokens.skip(2));
                    }
                },
            }
        }
    }
}

/// The flags among the first `upto` that were seen, each by its long
/// alias and without a value.
pub open spec fn flags_given(opts: Seq<OptView>, seen: Seq<bool>, upto: int) -> Seq<
    (Seq<char>, Option<Seq<char>>),
>
    decreases upto,
{
    if upto <= 0 {
        Seq::empty()
    } else if seen[upto - 1] {
        flags_given(opts, seen, upto - 1).push((opts[upto - 1].alias, None))
    } else {
        flags_given(opts, seen, upto - 1)
    }
}

/// The options among the first `upto` that were given a value, each by its
/// long alias and with that value.
pub open spec fn values_given(
    opt_args: Seq<OptArgView>,
    values: Seq<Option<Seq<char>>>,
    upto: int,
) -> Seq<(Seq<char>, Option<Seq<char>>)>
    decreases upto,
{
    if upto <= 0 {
        Seq::empty()
    } else if values[upto - 1] is Some {
        values_given(opt_args, values, upto - 1).push((opt_args[upto - 1].alias, values[upto - 1]))
    } else {
        values_given(opt_args, values, upto - 1)
    }
}

impl MatchView {
    /// The long aliases of the flags that were seen.
    pub open spec fn flags_triggered(self, command: CommandView) -> Set<Seq<char>> {
        Set::new(
            |alias: Seq<char>|
                exists|i: int|
                    0 <= i < self.options.len() && i < command.opts.len() && self.options[i]
                        && #[trigger] command.opts[i].alias == alias,
        )
    }

    /// The value of the option with the long alias `alias`, where one was
    /// given.
    pub open spec fn value_of(self, command: CommandView, alias: Seq<char>) -> Option<Seq<char>> {
        match find_alias(
            Seq::new(
                command.opt_args.len(),
                |i: int| Aliases { long: command.opt_args[i].alias, short: None },
            ),
            alias,
        ) {
            Some(i) => self.opt_args[i],
            None => None,
        }
    }

    /// The values that were given, by the long alias of their option.
    pub open spec fn value_options_supplied(self, command: CommandView) -> Map<
        Seq<char>,
        Seq<char>,
    > {
        Map::new(
            |alias: Seq<char>| self.value_of(command, alias) is Some,
            |alias: Seq<char>| self.value_of(command, alias)->0,
        )
    }

    /// The options that were supplied, as a list: the flags that were seen,
    /// then the options that were given a value, each in the order in which
    /// the command declares them.
    pub open spec fn supplied(self, command: CommandView) -> Seq<(Seq<char>, Option<Seq<char>>)> {
        flags_given(command.opts, self.options, command.opts.len() as int) + values_given(
            command.opt_args,
            self.opt_args,
            command.opt_args.len() as int,
        )
    }
}

impl MatchResult {
    /// Lists the options that were supplied to `command` by alias: the flags
    /// that were seen, then the options that were given a value.
    pub fn function_options(&self, command: &Command) -> (list: FunctionOptions)
        requires
            self.options.len() == command.options.len(),
            self.opt_args.len() == command.optional_args.len(),
        ensures
            list.deep_view() == self@.supplied(command@),
    {
        let mut list: Vec<FunctionOption> = Vec::new();
        let mut i: usize = 0;
        assert(list.deep_view() =~= flags_given(command@.opts, self@.options, 0));
        while i < command.options.len()
            invariant
                i <= command.options.len(),
                self.options.len() == command.options.len(),
                list.deep_view() == flags_given(command@.opts, self@.options, i as int),
            decreases command.options.len() - i,
        {
            if self.options[i] {
                let ghost before = list.deep_view();
                list.push(FunctionOption(command.options[i].alias.clone(), None));
                assert(list.deep_view() =~= before.push((command@.opts[i as int].alias, None)));
            }
            i += 1;
        }
        let ghost flags = list.deep_view();
        let mut j: usize = 0;
        assert(list.deep_view() =~= flags + values_given(command@.opt_args, self@.opt_args, 0));
        while j < command.optional_args.len()
            invariant
                j <= command.optional_args.len(),
                self.opt_args.len() == command.optional_args.len(),
                list.deep_view() == flags + values_given(
                    command@.opt_args,
                    self@.opt_args,
                    j as int,
                ),
            decreases command.optional_args.len() - j,
        {
            match &self.opt_args[j] {
                Some(value) => {
                    let ghost before = list.deep_view();
                    list.push(
                        FunctionOption(command.optional_args[j].alias.clone(), Some(value.clone())),
                    );
                    assert(list.deep_view() =~= before.push(
                        (command@.opt_args[j as int].alias, self@.opt_args[j as int]),
                    ));
                    assert(list.deep_view() =~= flags + values_given(
                        command@.opt_args,
                        self@.opt_args,
                        j + 1,
                    ));
                },
                None => {},
            }
            j += 1;
        }
        list
    }
}

} // verus!
