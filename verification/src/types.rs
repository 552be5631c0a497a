//! The types that pass between the engine and a command's function.

use vstd::prelude::*;

verus! {

/// The positional values handed to a command's function, in the order in
/// which the command declares them.
pub type FunctionInput = Vec<String>;

/// The options of one invocation by alias, in the order in which the command
/// declares them.
pub type FunctionOptions = Vec<FunctionOption>;

/// What a command's function returns.
pub type FunctionResult = Result<Option<String>, String>;

/// An option as it was supplied: its alias and, where it takes one, its
/// value.
#[derive(Debug, PartialEq)]
pub struct FunctionOption(pub String, pub Option<String>);

impl View for FunctionOption {
    type V = (Seq<char>, Option<Seq<char>>);

    open spec fn view(&self) -> (Seq<char>, Option<Seq<char>>) {
        (self.0@, self.1.deep_view())
    }
}

impl DeepView for FunctionOption {
    type V = (Seq<char>, Option<Seq<char>>);

    open spec fn deep_view(&self) -> (Seq<char>, Option<Seq<char>>) {
        self@
    }
}

} // verus!
