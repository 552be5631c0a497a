//! The token classifier: what each raw argument is, by its shape and place.

use vstd::prelude::*;
use vstd::string::*;
use crate::text::{has_dash_prefix, starts_with_dash};

verus! {

/// Whether a default command was configured.
///
/// It decides how the first argument is read, and nothing else.
#[derive(Clone, Copy, Debug, PartialEq, Eq, Structural)]
pub enum DefCmdState {
    /// A default command was configured: every argument without a dash is
    /// data for it.
    Explicit,
    /// None was configured: a first argument without a dash names a command.
    Def,
}

/// A classified raw argument.
#[derive(Debug)]
pub enum Token {
    /// An argument that may name a command.
    Cmd(String),
    /// An argument that begins with a dash.
    Opt(String),
    /// An argument that carries data.
    Arg(String),
}

/// What a [`Token`] is, over its text as a sequence of characters.
pub enum TokenView {
    Cmd(Seq<char>),
    Opt(Seq<char>),
    Arg(Seq<char>),
}

impl View for Token {
    type V = TokenView;

    open spec fn view(&self) -> TokenView {
        match self {
            Token::Cmd(s) => TokenView::Cmd(s@),
            Token::Opt(s) => TokenView::Opt(s@),
            Token::Arg(s) => TokenView::Arg(s@),
        }
    }
}

impl DeepView for Token {
    type V = TokenView;

    open spec fn deep_view(&self) -> TokenView {
        self@
    }
}

impl TokenView {
    /// The raw argument that the token was made from.
    pub open spec fn text(self) -> Seq<char> {
        match self {
            TokenView::Cmd(s) => s,
            TokenView::Opt(s) => s,
            TokenView::Arg(s) => s,
        }
    }
}

/// The token for the argument `arg` at place `index`.
pub open spec fn classify_one(arg: Seq<char>, index: int, state: DefCmdState) -> TokenView {
    if has_dash_prefix(arg) {
        TokenView::Opt(arg)
    } else if index == 0 && state == DefCmdState::Def {
        TokenView::Cmd(arg)
    } else {
        TokenView::Arg(arg)
    }
}

/// The tokens for a whole argument list: one per argument, in order.
pub open spec fn classify(args: Seq<Seq<char>>, state: DefCmdState) -> Seq<TokenView> {
    Seq::new(args.len(), |i: int| classify_one(args[i], i, state))
}

/// `opt` without its leading dashes, of which at most two are taken off.
pub open spec fn strip_dashes(opt: Seq<char>) -> Seq<char> {
    if has_dash_prefix(opt) {
        let once = opt.subrange(1, opt.len() as int);
        if has_dash_prefix(once) {
            once.subrange(1, once.len() as int)
        } else {
            once
        }
    } else {
        opt
    }
}

/// Classifies each argument: one that begins with a dash is an option; the
/// first one is a command name when no default command was configured; every
/// other one is data.
pub fn parse_args(args: Vec<String>, def_cmd_state: &DefCmdState) -> (tokens: Vec<Token>)
    ensures
        tokens.deep_view() == classify(args.deep_view(), *def_cmd_state),
{
    let mut tokens: Vec<Token> = Vec::new();
    let mut i: usize = 0;
    while i < args.len()
        invariant
            i <= args.len(),
            tokens.len() == i,
            forall|j: int|
                0 <= j < i ==> (#[trigger] tokens[j])@ == classify_one(
                    args[j]@,
                    j,
                    *def_cmd_state,
                ),
        decreases args.len() - i,
    {
        let arg = args[i].clone();
        let token = if starts_with_dash(arg.as_str()) {
            Token::Opt(arg)
        } else if i == 0 && matches!(def_cmd_state, DefCmdState::Def) {
            Token::Cmd(arg)
        } else {
            Token::Arg(arg)
        };
        tokens.push(token);
        i += 1;
    }
    assert(tokens.deep_view() =~= classify(args.deep_view(), *def_cmd_state));
    tokens
}

/// Takes the leading dashes off an option, two at most.
pub fn remove_dashes(opt: String) -> (alias: String)
    ensures
        alias@ == strip_dashes(opt@),
{
    let s = opt.as_str();
    let n = s.unicode_len();
    if n > 0 && s.get_char(0) == '-' {
        let once = s.substring_char(1, n);
        if n > 1 && once.get_char(0) == '-' {
            once.substring_char(1, n - 1).to_owned()
        } else {
            once.to_owned()
        }
    } else {
        opt
    }
}

} // verus!
