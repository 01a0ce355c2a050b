//! Mirror list status and latest news for Arch Linux.
//!
//! The crate holds what can be decided without touching the outside world:
//!
//! - [`cli`]: the command line tokenizer;
//! - [`mirrorlist`]: which servers the local mirror list names;
//! - [`status`]: what the status page says of them;
//! - [`mirror`] and [`table`]: the mirrors and the table that shows them;
//! - [`news`]: the latest news, picked and laid out;
//! - [`render`]: the spinner and the status line shown while working;
//! - [`style`], [`color`] and [`text`]: escape sequences, colours and
//!   text handling shared by the others;
//! - [`error`] and [`event`]: the error type, and key presses.
//!
//! Reading files, fetching pages and drawing on the terminal are left to the
//! program built on top of it.

pub mod cli;
pub mod color;
pub mod error;
pub mod event;
pub mod mirror;
pub mod mirrorlist;
pub mod news;
pub mod render;
pub mod status;
pub mod style;
pub mod table;
pub mod text;

use crate::cli::token::Token;
use crate::cli::token::TokenView;
use crate::text::same_text;
use vstd::prelude::*;
use vstd::std_specs::convert::FromSpec;

verus! {

/// What a run of the program shows besides the mirror table.
pub struct Milcheck {
    print_news: bool,
}

/// Whether `token` is the flag that asks for the news.
pub open spec fn asks_for_news(token: TokenView) -> bool {
    token matches TokenView::Option(flag, _) && flag.identifier == "news"@
}

/// Whether any of `tokens` asks for the news.
pub open spec fn wants_news(tokens: Seq<TokenView>) -> bool {
    exists|i: int| 0 <= i < tokens.len() && asks_for_news(#[trigger] tokens[i])
}

impl Milcheck {
    /// Whether the latest news are shown.
    pub closed spec fn shows_news(&self) -> bool {
        self.print_news
    }

    /// Whether the latest news are shown.
    pub fn print_news(&self) -> (shown: bool)
        ensures
            shown == self.shows_news(),
    {
        self.print_news
    }
}

impl<'a> From<&Vec<Token<'a>>> for Milcheck {
    /// The news are shown exactly when the flag named `news` is among the
    /// tokens.
    fn from(tokens: &Vec<Token<'a>>) -> (result: Milcheck) {
        let mut print_news = false;
        let mut i: usize = 0;
        while i < tokens.len()
            invariant
                i <= tokens.len(),
                print_news == wants_news(tokens.deep_view().take(i as int)),
            decreases tokens.len() - i,
        {
            let ghost seen = tokens.deep_view().take(i as int);
            let ghost next = tokens.deep_view().take(i + 1);
            let found = match &tokens[i] {
                Token::Option(flag, _) => same_text(flag.identifier.as_str(), "news"),
                _ => false,
            };
            proof {
                assert(next[i as int] == tokens[i as int]@);
                assert(found == asks_for_news(next[i as int]));
                if wants_news(seen) {
                    let j = choose|j: int| 0 <= j < seen.len() && asks_for_news(#[trigger] seen[j]);
                    assert(next[j] == seen[j]);
                }
                if wants_news(next) {
                    let j = choose|j: int| 0 <= j < next.len() && asks_for_news(#[trigger] next[j]);
                    if j < i {
                        assert(seen[j] == next[j]);
                    }
                }
            }
            print_news = print_news || found;
            i = i + 1;
        }
        assert(tokens.deep_view().take(i as int) =~= tokens.deep_view());
        Milcheck { print_news }
    }
}

impl<'a> vstd::std_specs::convert::FromSpecImpl<&Vec<Token<'a>>> for Milcheck {
    open spec fn obeys_from_spec() -> bool {
        true
    }

    closed spec fn from_spec(tokens: &Vec<Token<'a>>) -> Milcheck {
        Milcheck { print_news: wants_news(tokens.deep_view()) }
    }
}

/// A value made from tokens shows the news exactly when one of the tokens
/// is the flag named `news`.
pub proof fn lemma_from_tokens_shows_news<'a>(tokens: &Vec<Token<'a>>)
    ensures
        <Milcheck as FromSpec<&Vec<Token<'a>>>>::from_spec(tokens).shows_news() == wants_news(tokens.deep_view()),
{
}

} // verus!
