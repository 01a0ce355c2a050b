//! What holds of every command line.

use crate::cli::flag::lookup_short;
use crate::cli::flag::FlagView;
use crate::cli::normalizer::fused;
use crate::cli::normalizer::fuses;
use crate::cli::normalizer::normalized;
use crate::cli::parser::parsed;
use crate::cli::token::TokenView;
use crate::cli::tokenizer::accepting;
use crate::cli::tokenizer::end_marker;
use crate::cli::tokenizer::tokens_of_arg;
use crate::cli::tokenizer::tokens_of_args;
use crate::cli::tokenizer::tokens_of_cluster;
use vstd::prelude::*;

verus! {

/// An argument that does not begin with `-`.
pub open spec fn is_plain(arg: Seq<char>) -> bool {
    arg.len() == 0 || arg[0] != '-'
}

/// Every argument as a literal, in order.
pub open spec fn literals(args: Seq<Seq<char>>) -> Seq<TokenView> {
    args.map_values(|arg: Seq<char>| TokenView::Argument(arg))
}

/// The arguments that are not `--`, in order.
pub open spec fn without_markers(args: Seq<Seq<char>>) -> Seq<Seq<char>> {
    args.filter(|arg: Seq<char>| arg != end_marker())
}

/// A token list without options is left as it is by the second pass.
pub proof fn lemma_normalized_without_options(tokens: Seq<TokenView>)
    requires
        forall|i: int| 0 <= i < tokens.len() ==> !(tokens[i] is Option),
    ensures
        normalized(tokens) == tokens,
    decreases tokens.len(),
{
    if tokens.len() > 0 {
        let rest = tokens.skip(1);
        assert forall|i: int| 0 <= i < rest.len() implies !(rest[i] is Option) by {
            assert(rest[i] == tokens[i + 1]);
        }
        lemma_normalized_without_options(rest);
        assert(!fuses(tokens[0], tokens[1]));
        assert(seq![tokens[0]] + rest =~= tokens);
    }
}

/// The second pass never makes a token list longer, and shortens it by one
/// for each pair it fuses, never by more than half.
pub proof fn lemma_normalized_len(tokens: Seq<TokenView>)
    ensures
        normalized(tokens).len() <= tokens.len(),
        tokens.len() <= 2 * normalized(tokens).len(),
    decreases tokens.len(),
{
    if tokens.len() == 0 {
    } else if tokens.len() >= 2 && fuses(tokens[0], tokens[1]) {
        lemma_normalized_len(tokens.skip(2));
    } else {
        lemma_normalized_len(tokens.skip(1));
    }
}

/// Arguments of which none begins with `-` come out as one literal each, in
/// order, whatever flags are declared; the second pass leaves them so.
pub proof fn lemma_plain_arguments_are_literals(args: Seq<Seq<char>>, table: Seq<FlagView>)
    requires
        forall|i: int| 0 <= i < args.len() ==> is_plain(#[trigger] args[i]),
    ensures
        tokens_of_args(args, table) == literals(args),
        parsed(args, table) == literals(args),
    decreases args.len(),
{
    if args.len() == 0 {
        assert(tokens_of_args(args, table) =~= literals(args));
    } else {
        let front = args.drop_last();
        let last = args.last();
        assert forall|i: int| 0 <= i < front.len() implies is_plain(#[trigger] front[i]) by {
            assert(front[i] == args[i]);
        }
        lemma_plain_arguments_are_literals(front, table);
        assert(is_plain(args[args.len() - 1]));
        assert(tokens_of_arg(last, table, accepting(front)) == seq![TokenView::Argument(last)]);
        assert(literals(front) + seq![TokenView::Argument(last)] =~= literals(args));
    }
    lemma_normalized_without_options(literals(args));
}

/// Behind a `--` every argument comes out as a literal with its own text,
/// whether or not it begins with `-`; only a further `--` leaves no token.
/// What stands before the `--` is read as if nothing followed.
pub proof fn lemma_literals_behind_marker(
    before: Seq<Seq<char>>,
    after: Seq<Seq<char>>,
    table: Seq<FlagView>,
)
    ensures
        tokens_of_args(before + seq![end_marker()] + after, table) == tokens_of_args(before, table)
            + literals(without_markers(after)),
        forall|i: int|
            tokens_of_args(before, table).len() <= i < tokens_of_args(
                before + seq![end_marker()] + after,
                table,
            ).len() ==> (#[trigger] tokens_of_args(before + seq![end_marker()] + after, table)[i])
                is Argument,
    decreases after.len(),
{
    reveal(Seq::filter);
    let marked = before + seq![end_marker()];
    let args = marked + after;
    if after.len() == 0 {
        assert(args =~= marked);
        assert(marked.drop_last() =~= before);
        assert(marked.last() == end_marker());
        assert(tokens_of_args(marked, table) =~= tokens_of_args(before, table));
        assert(literals(without_markers(after)) =~= Seq::<TokenView>::empty());
        assert(tokens_of_args(before, table) + literals(without_markers(after)) =~= tokens_of_args(
            before,
            table,
        ));
    } else {
        let front = after.drop_last();
        let last = after.last();
        lemma_literals_behind_marker(before, front, table);
        assert(args.drop_last() =~= marked + front);
        assert(args.last() == last);
        assert((marked + front)[before.len() as int] == end_marker());
        assert(!accepting(marked + front));
        if last == end_marker() {
            assert(without_markers(after) == without_markers(front));
            assert(tokens_of_args(args, table) =~= tokens_of_args(marked + front, table));
        } else {
            assert(without_markers(after) == without_markers(front).push(last));
            assert(tokens_of_arg(last, table, false) == seq![TokenView::Argument(last)]);
            assert(literals(without_markers(front).push(last)) =~= literals(without_markers(front))
                + seq![TokenView::Argument(last)]);
            assert(tokens_of_args(args, table) =~= tokens_of_args(before, table) + literals(
                without_markers(after),
            ));
        }
    }
}

/// A flag that takes a value and stands in a cluster before further
/// characters gets them all as its value, and ends the cluster with its one
/// token.
pub proof fn lemma_value_flag_takes_the_rest(cluster: Seq<char>, table: Seq<FlagView>)
    requires
        cluster.len() > 1,
        lookup_short(table, cluster[0]) matches Some(flag) && flag.takes_value,
    ensures
        tokens_of_cluster(cluster, table) == seq![
            TokenView::Option(lookup_short(table, cluster[0])->0, Some(cluster.skip(1))),
        ],
{
    assert(cluster.drop_first() =~= cluster.skip(1));
}

/// A value-taking flag without a value and the token behind it become one
/// token exactly when the token behind it is a literal argument.
pub proof fn lemma_following_literal_is_the_value(
    first: TokenView,
    second: TokenView,
    rest: Seq<TokenView>,
)
    ensures
        fuses(first, second) ==> normalized(seq![first, second] + rest) == seq![
            fused(first, second),
        ] + normalized(rest),
        !fuses(first, second) ==> normalized(seq![first, second] + rest) == seq![first]
            + normalized(seq![second] + rest),
{
    let all = seq![first, second] + rest;
    assert(all[0] == first);
    assert(all[1] == second);
    assert(all.skip(2) =~= rest);
    assert(all.skip(1) =~= seq![second] + rest);
}

} // verus!
