//! The facade: flags are registered, the captured arguments are parsed.

use crate::cli::flag::FlagTable;
use crate::cli::flag::FlagView;
use crate::cli::normalizer::normalize;
use crate::cli::normalizer::normalized;
use crate::cli::token::Token;
use crate::cli::token::TokenView;
use crate::cli::tokenizer::tokenize;
use crate::cli::tokenizer::tokens_of_args;
use vstd::prelude::*;
use vstd::string::StrSliceExecFns;
use vstd::string::StringExecFns;

verus! {

/// The name shown for the program when it was started without any argument,
/// not even its own path.
pub open spec fn default_name() -> Seq<char> {
    "milcheck"@
}

/// What follows the last `/` of `path`, or all of it where there is none.
pub open spec fn base_name_of(path: Seq<char>) -> Seq<char> {
    match path.index_of_last('/') {
        Some(at) => path.skip(at + 1),
        None => path,
    }
}

/// The name shown for a program started with `raw`, its own path first.
pub open spec fn binary_name_of(raw: Seq<Seq<char>>) -> Seq<char> {
    if raw.len() == 0 {
        default_name()
    } else {
        base_name_of(raw[0])
    }
}

/// The arguments behind the program's own path.
pub open spec fn arguments_of(raw: Seq<Seq<char>>) -> Seq<Seq<char>> {
    if raw.len() == 0 {
        Seq::empty()
    } else {
        raw.skip(1)
    }
}

/// The tokens for `args`: tokenized, then normalized.
pub open spec fn parsed(args: Seq<Seq<char>>, table: Seq<FlagView>) -> Seq<TokenView> {
    normalized(tokens_of_args(args, table))
}

/// What follows the last `/` of `path`.
fn base_name(path: &str) -> (name: String)
    ensures
        name@ == base_name_of(path@),
{
    let n = path.unicode_len();
    let mut start: usize = 0;
    let mut k: usize = 0;
    for ch in it: path.chars()
        invariant
            it.seq() == path@,
            k == it.index(),
            n == path@.len(),
            start <= k,
            start > 0 ==> path@[start - 1] == '/',
            forall|j: int| start <= j < k ==> path@[j] != '/',
    {
        k = k + 1;
        if ch == '/' {
            start = k;
        }
    }
    proof {
        path@.index_of_last_ensures('/');
        if start == 0 {
            assert(path@.skip(0) =~= path@);
        }
    }
    String::from_str(path.substring_char(start, n))
}

/// A command line parser over a captured argument list.
///
/// Flags are declared with the builder calls, each of which hands the parser
/// back. Parsing reads the captured arguments and the table only, so it may
/// be repeated and always gives the same tokens.
pub struct Parser {
    table: FlagTable,
    args: Vec<String>,
    binary_name: String,
}

impl Parser {
    /// The declared flags, in registration order.
    pub closed spec fn table(&self) -> Seq<FlagView> {
        self.table@
    }

    /// The captured arguments, without the program's own path.
    pub closed spec fn arguments(&self) -> Seq<Seq<char>> {
        self.args.deep_view()
    }

    /// The name shown for the program.
    pub closed spec fn name(&self) -> Seq<char> {
        self.binary_name@
    }

    /// Captures the arguments the process was started with, the program's
    /// own path first, with no flag declared.
    pub fn new(raw: Vec<String>) -> (parser: Parser)
        ensures
            parser.table() == Seq::<FlagView>::empty(),
            parser.arguments() == arguments_of(raw.deep_view()),
            parser.name() == binary_name_of(raw.deep_view()),
    {
        let mut args = raw;
        if args.len() == 0 {
            let parser = Parser {
                table: FlagTable::new(),
                args,
                binary_name: String::from_str("milcheck"),
            };
            assert(parser.arguments() =~= arguments_of(raw.deep_view()));
            parser
        } else {
            let path = args.remove(0);
            let parser = Parser { table: FlagTable::new(), args, binary_name: base_name(path.as_str()) };
            assert(parser.arguments() =~= arguments_of(raw.deep_view()));
            parser
        }
    }

    /// The name shown for the program: what follows the last `/` of its
    /// path.
    pub fn binary_name(&self) -> (name: &str)
        ensures
            name@ == self.name(),
    {
        self.binary_name.as_str()
    }

    /// The flags declared so far.
    pub fn flags(&self) -> (table: &FlagTable)
        ensures
            table@ == self.table(),
    {
        &self.table
    }

    /// Declares a flag.
    pub fn flag(self, identifier: &str, short: char, long: &str, takes_value: bool) -> (parser:
        Parser)
        ensures
            parser.table() == self.table().push(
                FlagView { identifier: identifier@, short, long: long@, takes_value },
            ),
            parser.arguments() == self.arguments(),
            parser.name() == self.name(),
    {
        let mut parser = self;
        parser.table.register(identifier, short, long, takes_value);
        parser
    }

    /// Declares `-h`, `--help`.
    pub fn help(self) -> (parser: Parser)
        ensures
            parser.table() == self.table().push(
                FlagView { identifier: "help"@, short: 'h', long: "help"@, takes_value: false },
            ),
            parser.arguments() == self.arguments(),
            parser.name() == self.name(),
    {
        self.flag("help", 'h', "help", false)
    }

    /// Declares `-v`, `--version`.
    pub fn version(self) -> (parser: Parser)
        ensures
            parser.table() == self.table().push(
                FlagView {
                    identifier: "version"@,
                    short: 'v',
                    long: "version"@,
                    takes_value: false,
                },
            ),
            parser.arguments() == self.arguments(),
            parser.name() == self.name(),
    {
        self.flag("version", 'v', "version", false)
    }

    /// Declares `-L`, `--license`.
    pub fn license(self) -> (parser: Parser)
        ensures
            parser.table() == self.table().push(
                FlagView {
                    identifier: "license"@,
                    short: 'L',
                    long: "license"@,
                    takes_value: false,
                },
            ),
            parser.arguments() == self.arguments(),
            parser.name() == self.name(),
    {
        self.flag("license", 'L', "license", false)
    }

    /// Parses the captured arguments against the declared flags.
    pub fn parse<'a>(&'a self) -> (tokens: Vec<Token<'a>>)
        ensures
            tokens.deep_view() == parsed(self.arguments(), self.table()),
    {
        let tokens = tokenize(&self.args, &self.table);
        normalize(&tokens)
    }
}

} // verus!
