//! First pass: every argument is classified on its own.

use crate::cli::flag::lookup_long;
use crate::cli::flag::lookup_short;
use crate::cli::flag::FlagTable;
use crate::cli::flag::FlagView;
use crate::cli::token::Token;
use crate::cli::token::TokenView;
use vstd::prelude::*;
use vstd::string::StrSliceExecFns;
use vstd::string::StringExecFns;

verus! {

/// The argument `-`, which is always a literal.
pub open spec fn lone_dash() -> Seq<char> {
    seq!['-']
}

/// The argument `--`, behind which nothing is read as an option.
pub open spec fn end_marker() -> Seq<char> {
    seq!['-', '-']
}

/// `--` followed by at least one character.
pub open spec fn is_long_form(arg: Seq<char>) -> bool {
    arg.len() > 2 && arg[0] == '-' && arg[1] == '-'
}

/// `-` followed by at least one character.
pub open spec fn is_short_form(arg: Seq<char>) -> bool {
    arg.len() > 1 && arg[0] == '-'
}

/// The name in what follows `--`: the text before the first `=`, or all of
/// it where there is none.
pub open spec fn long_name(body: Seq<char>) -> Seq<char> {
    match body.index_of_first('=') {
        Some(at) => body.take(at),
        None => body,
    }
}

/// The value in what follows `--`: the text behind the first `=`, empty
/// where there is none.
pub open spec fn long_value(body: Seq<char>) -> Seq<char> {
    match body.index_of_first('=') {
        Some(at) => body.skip(at + 1),
        None => Seq::empty(),
    }
}

/// The token for `--body`.
///
/// A value is kept only where the flag takes one and the value is not
/// empty.
pub open spec fn token_of_long(body: Seq<char>, table: Seq<FlagView>) -> TokenView {
    match lookup_long(table, long_name(body)) {
        None => TokenView::UnknownLongFlag(long_name(body)),
        Some(flag) => if flag.takes_value && long_value(body).len() > 0 {
            TokenView::Option(flag, Some(long_value(body)))
        } else {
            TokenView::Option(flag, None)
        },
    }
}

/// Whether the flag that `c` stands for takes a value, and so ends the
/// cluster it is in.
pub open spec fn ends_cluster(c: char, table: Seq<FlagView>) -> bool {
    match lookup_short(table, c) {
        Some(flag) => flag.takes_value,
        None => false,
    }
}

/// The token for the character `c` of a cluster, with `rest` behind it.
///
/// A flag that takes a value gets all of `rest` as its value, whatever it
/// looks like, unless `rest` is empty.
pub open spec fn token_of_short(c: char, rest: Seq<char>, table: Seq<FlagView>) -> TokenView {
    match lookup_short(table, c) {
        None => TokenView::UnknownShortFlag(c),
        Some(flag) => if flag.takes_value && rest.len() > 0 {
            TokenView::Option(flag, Some(rest))
        } else {
            TokenView::Option(flag, None)
        },
    }
}

/// The tokens for the characters of `-cluster`, read from the left up to
/// the first flag that takes a value.
pub open spec fn tokens_of_cluster(cluster: Seq<char>, table: Seq<FlagView>) -> Seq<TokenView>
    decreases cluster.len(),
{
    if cluster.len() == 0 {
        Seq::empty()
    } else if ends_cluster(cluster.first(), table) {
        seq![token_of_short(cluster.first(), cluster.drop_first(), table)]
    } else {
        seq![token_of_short(cluster.first(), cluster.drop_first(), table)] + tokens_of_cluster(
            cluster.drop_first(),
            table,
        )
    }
}

/// The tokens for one argument; `accept` says whether options are still
/// read.
pub open spec fn tokens_of_arg(arg: Seq<char>, table: Seq<FlagView>, accept: bool) -> Seq<
    TokenView,
> {
    if arg == lone_dash() {
        seq![TokenView::Argument(arg)]
    } else if arg == end_marker() {
        Seq::empty()
    } else if accept && is_long_form(arg) {
        seq![token_of_long(arg.skip(2), table)]
    } else if accept && is_short_form(arg) {
        tokens_of_cluster(arg.skip(1), table)
    } else {
        seq![TokenView::Argument(arg)]
    }
}

/// Options are read as long as no `--` came before.
pub open spec fn accepting(before: Seq<Seq<char>>) -> bool {
    !before.contains(end_marker())
}

/// The tokens for an argument list: those of each argument, in order.
pub open spec fn tokens_of_args(args: Seq<Seq<char>>, table: Seq<FlagView>) -> Seq<TokenView>
    decreases args.len(),
{
    if args.len() == 0 {
        Seq::empty()
    } else {
        tokens_of_args(args.drop_last(), table) + tokens_of_arg(
            args.last(),
            table,
            accepting(args.drop_last()),
        )
    }
}

/// Position of the first `c` in `text`.
fn position_of(text: &str, c: char) -> (at: Option<usize>)
    ensures
        match at {
            Some(i) => text@.index_of_first(c) == Some(i as int),
            None => text@.index_of_first(c) is None,
        },
{
    let n = text.unicode_len();
    let mut k: usize = 0;
    for ch in it: text.chars()
        invariant
            it.seq() == text@,
            k == it.index(),
            n == text@.len(),
            forall|j: int| 0 <= j < k ==> text@[j] != c,
    {
        if ch == c {
            proof {
                text@.index_of_first_ensures(c);
            }
            return Some(k);
        }
        k = k + 1;
    }
    proof {
        text@.index_of_first_ensures(c);
    }
    None
}

/// Whether `arg` is `-`.
fn is_lone_dash(arg: &str) -> (r: bool)
    ensures
        r == (arg@ == lone_dash()),
{
    let r = arg.unicode_len() == 1 && arg.get_char(0) == '-';
    proof {
        if r {
            assert(arg@ =~= lone_dash());
        }
    }
    r
}

/// Whether `arg` is `--`.
pub fn is_end_marker(arg: &str) -> (r: bool)
    ensures
        r == (arg@ == end_marker()),
{
    let r = arg.unicode_len() == 2 && arg.get_char(0) == '-' && arg.get_char(1) == '-';
    proof {
        if r {
            assert(arg@ =~= end_marker());
        }
    }
    r
}

/// Appends `token` to `out`.
fn emit<'a>(out: &mut Vec<Token<'a>>, token: Token<'a>)
    ensures
        final(out).deep_view() == old(out).deep_view().push(token@),
{
    out.push(token);
    assert(out.deep_view() =~= old(out).deep_view().push(token@));
}

/// Classifies what follows `--`.
fn long_token<'a>(body: &str, table: &'a FlagTable) -> (token: Token<'a>)
    ensures
        token@ == token_of_long(body@, table@),
{
    let n = body.unicode_len();
    let at = position_of(body, '=');
    proof {
        body@.index_of_first_ensures('=');
    }
    let name = match at {
        Some(i) => String::from_str(body.substring_char(0, i)),
        None => String::from_str(body),
    };
    let value = match at {
        Some(i) => String::from_str(body.substring_char(i + 1, n)),
        None => String::new(),
    };
    proof {
        assert(name@ =~= long_name(body@));
        assert(value@ =~= long_value(body@));
    }
    match table.find_long(&name) {
        None => Token::UnknownLongFlag(name),
        Some(flag) => if flag.takes_value && !value.as_str().is_empty() {
            Token::Option(flag, Some(value))
        } else {
            Token::Option(flag, None)
        },
    }
}

/// Classifies the characters that follow a single `-`.
fn emit_cluster<'a>(cluster: &str, table: &'a FlagTable, out: &mut Vec<Token<'a>>)
    ensures
        final(out).deep_view() == old(out).deep_view() + tokens_of_cluster(cluster@, table@),
{
    let n = cluster.unicode_len();
    let mut k: usize = 0;
    assert(cluster@.skip(0) =~= cluster@);
    for c in it: cluster.chars()
        invariant
            it.seq() == cluster@,
            k == it.index(),
            n == cluster@.len(),
            out.deep_view() + tokens_of_cluster(cluster@.skip(k as int), table@) == old(
                out,
            ).deep_view() + tokens_of_cluster(cluster@, table@),
    {
        let ghost before = out.deep_view();
        let ghost here = cluster@.skip(k as int);
        let ghost rest = tokens_of_cluster(cluster@.skip(k + 1), table@);
        proof {
            assert(here.len() > 0);
            assert(here.first() == c);
            assert(here.drop_first() =~= cluster@.skip(k + 1));
        }
        match table.find_short(c) {
            None => {
                emit(out, Token::UnknownShortFlag(c));
            },
            Some(flag) => {
                if flag.takes_value {
                    let value = if k + 1 < n {
                        Some(String::from_str(cluster.substring_char(k + 1, n)))
                    } else {
                        None
                    };
                    proof {
                        if k + 1 < n {
                            assert(value.unwrap()@ =~= here.drop_first());
                        }
                    }
                    emit(out, Token::Option(flag, value));
                    proof {
                        assert(out.deep_view() =~= before + tokens_of_cluster(here, table@));
                    }
                    return ;
                }
                emit(out, Token::Option(flag, None));
            },
        }
        proof {
            assert(out.deep_view() + rest =~= before + tokens_of_cluster(here, table@));
        }
        k = k + 1;
    }
    proof {
        assert(cluster@.skip(k as int) =~= Seq::<char>::empty());
        assert(out.deep_view() + Seq::<TokenView>::empty() =~= out.deep_view());
    }
}

/// Classifies one argument and appends its tokens to `out`.
fn emit_arg<'a>(arg: &String, table: &'a FlagTable, accept: bool, out: &mut Vec<Token<'a>>)
    ensures
        final(out).deep_view() == old(out).deep_view() + tokens_of_arg(arg@, table@, accept),
{
    let text = arg.as_str();
    let n = text.unicode_len();
    if is_lone_dash(text) {
        emit(out, Token::Argument(arg.clone()));
    } else if is_end_marker(text) {
        assert(out.deep_view() + Seq::<TokenView>::empty() =~= out.deep_view());
    } else if accept && n > 2 && text.get_char(0) == '-' && text.get_char(1) == '-' {
        let body = text.substring_char(2, n);
        assert(body@ =~= arg@.skip(2));
        emit(out, long_token(body, table));
    } else if accept && n > 1 && text.get_char(0) == '-' {
        let cluster = text.substring_char(1, n);
        assert(cluster@ =~= arg@.skip(1));
        emit_cluster(cluster, table, out);
    } else {
        emit(out, Token::Argument(arg.clone()));
    }
}

/// Turns the arguments into tokens, from left to right.
///
/// `-` is a literal and `--` leaves no token; behind the first `--` every
/// other argument is a literal. Before it, `--name` and `--name=value` are
/// looked up by long name, and the characters of `-abc` one by one.
pub fn tokenize<'a>(args: &Vec<String>, table: &'a FlagTable) -> (tokens: Vec<Token<'a>>)
    ensures
        tokens.deep_view() == tokens_of_args(args.deep_view(), table@),
{
    let mut tokens: Vec<Token<'a>> = Vec::new();
    let mut accept = true;
    let mut i: usize = 0;
    assert(tokens.deep_view() =~= Seq::<TokenView>::empty());
    while i < args.len()
        invariant
            i <= args.len(),
            tokens.deep_view() == tokens_of_args(args.deep_view().take(i as int), table@),
            accept == accepting(args.deep_view().take(i as int)),
        decreases args.len() - i,
    {
        let ghost seen = args.deep_view().take(i as int);
        let ghost next = args.deep_view().take(i + 1);
        proof {
            assert(next.drop_last() =~= seen);
            assert(next.last() == args[i as int]@);
        }
        emit_arg(&args[i], table, accept, &mut tokens);
        if is_end_marker(args[i].as_str()) {
            accept = false;
        }
        proof {
            if seen.contains(end_marker()) {
                let j = choose|j: int| 0 <= j < seen.len() && seen[j] == end_marker();
                assert(next[j] == end_marker());
            }
            if next.contains(end_marker()) {
                let j = choose|j: int| 0 <= j < next.len() && next[j] == end_marker();
                if j < i {
                    assert(seen[j] == end_marker());
                }
            }
        }
        i = i + 1;
    }
    assert(args.deep_view().take(i as int) =~= args.deep_view());
    tokens
}

} // verus!
