//! The classified units of a command line.

use crate::cli::flag::Flag;
use crate::cli::flag::FlagView;
use vstd::prelude::*;

verus! {

/// One unit of a parsed command line.
///
/// An option refers to the flag of the table it was matched with. The two
/// `Unknown` variants stand for what looked like an option and was not
/// declared; they carry the name or the character as it was typed.
#[derive(Debug, Clone, PartialEq, Eq)]
pub enum Token<'a> {
    /// A literal argument.
    Argument(String),
    /// A declared flag, with the value it was given.
    Option(&'a Flag, Option<String>),
    /// `--name` where no flag has that long name.
    UnknownLongFlag(String),
    /// A character of a `-abc` cluster that no flag has as its short one.
    UnknownShortFlag(char),
}

/// What a [`Token`] is, with its texts as sequences of characters.
pub enum TokenView {
    Argument(Seq<char>),
    Option(FlagView, Option<Seq<char>>),
    UnknownLongFlag(Seq<char>),
    UnknownShortFlag(char),
}

impl<'a> View for Token<'a> {
    type V = TokenView;

    open spec fn view(&self) -> TokenView {
        match *self {
            Token::Argument(text) => TokenView::Argument(text@),
            Token::Option(flag, value) => TokenView::Option(
                flag@,
                match value {
                    Some(text) => Some(text@),
                    None => None,
                },
            ),
            Token::UnknownLongFlag(name) => TokenView::UnknownLongFlag(name@),
            Token::UnknownShortFlag(c) => TokenView::UnknownShortFlag(c),
        }
    }
}

impl<'a> DeepView for Token<'a> {
    type V = TokenView;

    open spec fn deep_view(&self) -> TokenView {
        self@
    }
}

} // verus!
