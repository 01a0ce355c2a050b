//! Second pass: a flag that takes a value gets the literal that follows it.

use crate::cli::token::Token;
use crate::cli::token::TokenView;
use vstd::prelude::*;

verus! {

/// Whether `first` is a value-taking flag still without a value and `second`
/// the literal argument that becomes its value.
pub open spec fn fuses(first: TokenView, second: TokenView) -> bool {
    &&& first matches TokenView::Option(flag, None)
    &&& flag.takes_value
    &&& second is Argument
}

/// The flag of `first` with the text of `second` as its value.
pub open spec fn fused(first: TokenView, second: TokenView) -> TokenView {
    TokenView::Option(first->Option_0, Some(second->Argument_0))
}

/// The token list after the pass, read from the left: a pair that fuses
/// becomes one token and is not looked at again, any other token stays as
/// it is.
pub open spec fn normalized(tokens: Seq<TokenView>) -> Seq<TokenView>
    decreases tokens.len(),
{
    if tokens.len() == 0 {
        Seq::empty()
    } else if tokens.len() >= 2 && fuses(tokens[0], tokens[1]) {
        seq![fused(tokens[0], tokens[1])] + normalized(tokens.skip(2))
    } else {
        seq![tokens[0]] + normalized(tokens.skip(1))
    }
}

/// A token equal to `token`.
fn duplicate<'a>(token: &Token<'a>) -> (copy: Token<'a>)
    ensures
        copy@ == token@,
{
    match token {
        Token::Argument(text) => Token::Argument(text.clone()),
        Token::Option(flag, Some(value)) => Token::Option(*flag, Some(value.clone())),
        Token::Option(flag, None) => Token::Option(*flag, None),
        Token::UnknownLongFlag(name) => Token::UnknownLongFlag(name.clone()),
        Token::UnknownShortFlag(c) => Token::UnknownShortFlag(*c),
    }
}

/// The token that `first` and `second` fuse into, if they do.
fn fuse<'a>(first: &Token<'a>, second: &Token<'a>) -> (merged: Option<Token<'a>>)
    ensures
        match merged {
            Some(token) => fuses(first@, second@) && token@ == fused(first@, second@),
            None => !fuses(first@, second@),
        },
{
    match first {
        Token::Option(flag, None) => {
            if flag.takes_value {
                match second {
                    Token::Argument(text) => Some(Token::Option(*flag, Some(text.clone()))),
                    _ => None,
                }
            } else {
                None
            }
        },
        _ => None,
    }
}

/// Hands every value-taking flag that has no value yet the literal argument
/// that immediately follows it, in one pass from the left.
///
/// A flag followed by anything else, or by nothing, keeps no value. All other
/// tokens come out unchanged and in order.
pub fn normalize<'a>(tokens: &Vec<Token<'a>>) -> (out: Vec<Token<'a>>)
    ensures
        out.deep_view() == normalized(tokens.deep_view()),
{
    let n = tokens.len();
    let mut out: Vec<Token<'a>> = Vec::new();
    let mut i: usize = 0;
    proof {
        assert(tokens.deep_view().skip(0) =~= tokens.deep_view());
        assert(out.deep_view() =~= Seq::<TokenView>::empty());
        assert(out.deep_view() + normalized(tokens.deep_view()) =~= normalized(
            tokens.deep_view(),
        ));
    }
    while i < n
        invariant
            n == tokens.len(),
            i <= n,
            out.deep_view() + normalized(tokens.deep_view().skip(i as int)) == normalized(
                tokens.deep_view(),
            ),
        decreases n - i,
    {
        let ghost before = out.deep_view();
        let ghost here = tokens.deep_view().skip(i as int);
        proof {
            assert(here[0] == tokens[i as int]@);
        }
        let merged = if i + 1 < n {
            proof {
                assert(here[1] == tokens[i + 1]@);
            }
            fuse(&tokens[i], &tokens[i + 1])
        } else {
            None
        };
        match merged {
            Some(token) => {
                out.push(token);
                proof {
                    assert(here.skip(2) =~= tokens.deep_view().skip(i + 2));
                    assert(out.deep_view() =~= before + seq![fused(here[0], here[1])]);
                    assert(out.deep_view() + normalized(here.skip(2)) =~= before + normalized(
                        here,
                    ));
                }
                i = i + 2;
            },
            None => {
                out.push(duplicate(&tokens[i]));
                proof {
                    assert(here.skip(1) =~= tokens.deep_view().skip(i + 1));
                    assert(out.deep_view() =~= before + seq![here[0]]);
                    assert(out.deep_view() + normalized(here.skip(1)) =~= before + normalized(
                        here,
                    ));
                }
                i = i + 1;
            },
        }
    }
    proof {
        assert(tokens.deep_view().skip(i as int) =~= Seq::<TokenView>::empty());
        assert(out.deep_view() + Seq::<TokenView>::empty() =~= out.deep_view());
    }
    out
}

} // verus!
