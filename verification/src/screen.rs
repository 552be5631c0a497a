//! What an application answers to an argument list: a screen to show, or
//! the result of a command's function.

use vstd::prelude::*;
use vstd::string::*;
use crate::app::{App, AppView};
use crate::help::{help_with, painted_red, with_error};
use crate::matcher::{place, MatchResult, MatchView};
use crate::parse::{classify, parse_args, DefCmdState};
use crate::types::FunctionResult;

verus! {

/// A screen that an invocation asks for in place of a run.
#[derive(Clone, Copy, Debug, PartialEq, Eq)]
pub enum Screen {
    /// The help of the application.
    AppHelp,
    /// The name and the version of the application.
    Version,
    /// The help of the registered command at this place.
    CommandHelp(usize),
}

/// What a [`Screen`] is, over mathematical integers.
pub enum ScreenView {
    AppHelp,
    Version,
    CommandHelp(int),
}

impl View for Screen {
    type V = ScreenView;

    open spec fn view(&self) -> ScreenView {
        match self {
            Screen::AppHelp => ScreenView::AppHelp,
            Screen::Version => ScreenView::Version,
            Screen::CommandHelp(i) => ScreenView::CommandHelp(*i as int),
        }
    }
}

/// What an application answers to an argument list.
#[derive(Debug)]
pub enum Response {
    /// A text to show; no function ran.
    Shown(String),
    /// What the function of the matched command returned.
    Ran(FunctionResult),
}

impl AppView {
    /// The screen that an invocation asks for in place of a run.
    ///
    /// The built-in default command runs nothing, so it always asks for
    /// one: the version where the version flag was seen without the help
    /// flag, else the help of the application. A default command that was
    /// chosen asks for the help of the application, and a registered command
    /// for its own help, where the help flag, the last of its flags, was
    /// seen.
    pub open spec fn screen(self, found: MatchView) -> Option<ScreenView> {
        let asks = found.options.len() > 0 && found.options.last();
        match found.command {
            Some(i) => if asks {
                Some(ScreenView::CommandHelp(i))
            } else {
                None
            },
            None => if self.def_cmd_state == DefCmdState::Def {
                if found.options.len() == 2 && found.options[1] && !found.options[0] {
                    Some(ScreenView::Version)
                } else {
                    Some(ScreenView::AppHelp)
                }
            } else if asks {
                Some(ScreenView::AppHelp)
            } else {
                None
            },
        }
    }

    /// The help that goes with an error: that of the command that was
    /// active where the match ended, and that of the application where this
    /// was the built-in default command.
    pub open spec fn help_for(self, command: Option<int>) -> Seq<char> {
        match command {
            Some(i) => self.commands[i].help(self.name),
            None => if self.def_cmd_state == DefCmdState::Def {
                self.help()
            } else {
                self.default_command.help(self.name)
            },
        }
    }

    /// What is shown for arguments that match no invocation: the help that
    /// goes with the error, then the error in words as it was painted.
    pub open spec fn refusal(self, args: Seq<Seq<char>>, painted: Seq<char>) -> Seq<char> {
        help_with(
            self.help_for(self.registry().matched_command(classify(args, self.def_cmd_state))),
            painted,
        )
    }

    /// The text of a screen.
    pub open spec fn shown(self, screen: ScreenView) -> Seq<char> {
        match screen {
            ScreenView::AppHelp => self.help(),
            ScreenView::Version => self.version_line(),
            ScreenView::CommandHelp(i) => self.commands[i].help(self.name),
        }
    }
}

impl App {
    /// Tells which screen an invocation asks for in place of a run.
    pub fn screen(&self, found: &MatchResult) -> (screen: Option<Screen>)
        ensures
            match self@.screen(found@) {
                Some(asked) => screen is Some && screen->0@ == asked,
                None => screen is None,
            },
    {
        let n = found.options.len();
        let asks = n > 0 && found.options[n - 1];
        match found.command {
            Some(i) => if asks {
                Some(Screen::CommandHelp(i))
            } else {
                None
            },
            None => if matches!(self.def_cmd_state, DefCmdState::Def) {
                if n == 2 && found.options[1] && !found.options[0] {
                    Some(Screen::Version)
                } else {
                    Some(Screen::AppHelp)
                }
            } else if asks {
                Some(Screen::AppHelp)
            } else {
                None
            },
        }
    }

    /// Writes a screen.
    pub fn show(&self, screen: Screen) -> (text: String)
        requires
            screen matches Screen::CommandHelp(i) ==> i < self.commands.len(),
        ensures
            text@ == self@.shown(screen@),
    {
        match screen {
            Screen::AppHelp => self.help_app(),
            Screen::Version => self.version_text(),
            Screen::CommandHelp(i) => self.help_command(&self.commands[i]),
        }
    }

    /// Writes the help that goes with an error.
    pub fn help_for(&self, command: Option<usize>) -> (text: String)
        requires
            command matches Some(i) ==> i < self.commands.len(),
        ensures
            text@ == self@.help_for(place(command)),
    {
        match command {
            Some(i) => self.help_command(&self.commands[i]),
            None => if matches!(self.def_cmd_state, DefCmdState::Def) {
                self.help_app()
            } else {
                self.help_command(&self.default_command)
            },
        }
    }

    /// Answers an argument list, given without the program's name.
    ///
    /// Where the arguments match no invocation the answer is the help of
    /// the command that was active where the match ended, or that of the
    /// application where no command was named or chosen, with the error in
    /// words after it, painted red.
    /// Where the invocation asks for a screen the answer is that screen.
    /// Else the function of the matched command runs, and the answer is
    /// what it returns.
    pub fn respond(&self, args: Vec<String>) -> (response: Response)
        requires
            self.ready(),
        ensures
            match self@.parse(args.deep_view()) {
                Err(e) => response matches Response::Shown(text) && exists|painted: Seq<char>|
                    #[trigger] painted_red(e.message(), painted) && text@ == self@.refusal(
                        args.deep_view(),
                        painted,
                    ),
                Ok(found) => match self@.screen(found) {
                    Some(asked) => response matches Response::Shown(text) && text@
                        == self@.shown(asked),
                    None => exists|invocation: MatchResult, result: FunctionResult|
                        {
                            &&& invocation@ == found
                            &&& self.takes(invocation)
                            &&& #[trigger] self.active(invocation.command).function.yields(
                                invocation.args,
                                invocation.options,
                                invocation.opt_args,
                                result,
                            )
                            &&& response == Response::Ran(result)
                        },
                },
            },
    {
        let tokens = parse_args(args, &self.def_cmd_state);
        let (outcome, active) = self.match_tokens(tokens);
        match outcome {
            Err(e) => {
                let message = e.message();
                Response::Shown(with_error(self.help_for(active), message.as_str()))
            },
            Ok(found) => match self.screen(&found) {
                Some(screen) => Response::Shown(self.show(screen)),
                None => {
                    let ghost invocation = found;
                    let result = self.dispatch(found);
                    assert(self.active(invocation.command).function.yields(
                        invocation.args,
                        invocation.options,
                        invocation.opt_args,
                        result,
                    ));
                    Response::Ran(result)
                },
            },
        }
    }
}

} // verus!
