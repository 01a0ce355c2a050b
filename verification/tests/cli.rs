use milcheck::cli::tokenizer::tokenize;
use milcheck::cli::normalizer::normalize;
use milcheck::cli::Flag;
use milcheck::cli::FlagTable;
use milcheck::cli::Parser;
use milcheck::cli::Token;

fn raw(args: &[&str]) -> Vec<String> {
    let mut all = vec![String::from("path/to/bin")];
    all.extend(args.iter().map(|arg| arg.to_string()));
    all
}

fn strings(args: &[&str]) -> Vec<String> {
    args.iter().map(|arg| arg.to_string()).collect()
}

fn flag(identifier: &str, short: char, long: &str, takes_value: bool) -> Flag {
    Flag { identifier: identifier.to_string(), short, long: long.to_string(), takes_value }
}

fn argument(text: &str) -> Token<'static> {
    Token::Argument(text.to_string())
}

fn some(text: &str) -> Option<String> {
    Some(text.to_string())
}

#[test]
fn literals_come_out_one_by_one() {
    let parser = Parser::new(raw(&["one", "two words", "", "th-ree", "=x"])).help();
    assert_eq!(
        parser.parse(),
        vec![argument("one"), argument("two words"), argument(""), argument("th-ree"), argument("=x")]
    );
}

#[test]
fn no_arguments_no_tokens() {
    let parser = Parser::new(raw(&[])).help();
    assert_eq!(parser.parse(), vec![]);
    let parser = Parser::new(vec![]).help();
    assert_eq!(parser.parse(), vec![]);
}

#[test]
fn everything_behind_the_marker_is_literal() {
    let help = flag("help", 'h', "help", false);
    let parser = Parser::new(raw(&["-h", "--", "-h", "--help", "-", "plain", "--flag=x"])).help();
    assert_eq!(
        parser.parse(),
        vec![
            Token::Option(&help, None),
            argument("-h"),
            argument("--help"),
            argument("-"),
            argument("plain"),
            argument("--flag=x"),
        ]
    );
}

#[test]
fn a_second_marker_leaves_no_token_either() {
    let parser = Parser::new(raw(&["--", "a", "--", "-b"])).help();
    assert_eq!(parser.parse(), vec![argument("a"), argument("-b")]);
}

#[test]
fn marker_alone() {
    let parser = Parser::new(raw(&["--"])).help();
    assert_eq!(parser.parse(), vec![]);
}

#[test]
fn short_flag_without_value() {
    let help = flag("help", 'h', "help", false);
    let parser = Parser::new(raw(&["-h"])).help();
    assert_eq!(parser.parse(), vec![Token::Option(&help, None)]);
}

#[test]
fn short_flag_with_glued_value() {
    let f = flag("flag", 'f', "flag", true);
    let parser = Parser::new(raw(&["-farg"])).flag("flag", 'f', "flag", true);
    assert_eq!(parser.parse(), vec![Token::Option(&f, some("arg"))]);
}

#[test]
fn glued_value_is_not_read_as_flags() {
    let f = flag("flag", 'f', "flag", true);
    let parser = Parser::new(raw(&["-f-h"])).flag("flag", 'f', "flag", true).help();
    assert_eq!(parser.parse(), vec![Token::Option(&f, some("-h"))]);
}

#[test]
fn glued_value_may_hold_declared_characters() {
    let f = flag("flag", 'f', "flag", true);
    let help = flag("help", 'h', "help", false);
    let parser = Parser::new(raw(&["-hfhh"])).flag("flag", 'f', "flag", true).help();
    assert_eq!(parser.parse(), vec![Token::Option(&help, None), Token::Option(&f, some("hh"))]);
}

#[test]
fn long_flag_with_value() {
    let f = flag("flag", 'f', "flag", true);
    let parser = Parser::new(raw(&["--flag=value"])).flag("flag", 'f', "flag", true);
    assert_eq!(parser.parse(), vec![Token::Option(&f, some("value"))]);
}

#[test]
fn long_flag_with_empty_value() {
    let f = flag("flag", 'f', "flag", true);
    let parser = Parser::new(raw(&["--flag="])).flag("flag", 'f', "flag", true);
    assert_eq!(parser.parse(), vec![Token::Option(&f, None)]);
}

#[test]
fn long_flag_value_is_split_at_the_first_equals() {
    let f = flag("flag", 'f', "flag", true);
    let parser = Parser::new(raw(&["--flag=a=b="])).flag("flag", 'f', "flag", true);
    assert_eq!(parser.parse(), vec![Token::Option(&f, some("a=b="))]);
}

#[test]
fn long_flag_that_takes_no_value_drops_it() {
    let help = flag("help", 'h', "help", false);
    let parser = Parser::new(raw(&["--help=now", "--help"])).help();
    assert_eq!(parser.parse(), vec![Token::Option(&help, None), Token::Option(&help, None)]);
}

#[test]
fn unknown_long_flag_keeps_its_name_only() {
    let parser = Parser::new(raw(&["--nope", "--nope=1", "--=x"])).help();
    assert_eq!(
        parser.parse(),
        vec![
            Token::UnknownLongFlag("nope".to_string()),
            Token::UnknownLongFlag("nope".to_string()),
            Token::UnknownLongFlag("".to_string()),
        ]
    );
}

#[test]
fn following_literal_becomes_the_value() {
    let f = flag("flag", 'f', "flag", true);
    let parser = Parser::new(raw(&["--flag", "value"])).flag("flag", 'f', "flag", true);
    assert_eq!(parser.parse(), vec![Token::Option(&f, some("value"))]);
}

#[test]
fn following_option_does_not_become_the_value() {
    let f = flag("flag", 'f', "flag", true);
    let help = flag("help", 'h', "help", false);
    let parser = Parser::new(raw(&["--flag", "-h"])).flag("flag", 'f', "flag", true).help();
    assert_eq!(parser.parse(), vec![Token::Option(&f, None), Token::Option(&help, None)]);
}

#[test]
fn cluster_with_an_unknown_character() {
    let help = flag("help", 'h', "help", false);
    let version = flag("version", 'v', "version", false);
    let debug = flag("debug", 'd', "debug", false);
    let parser = Parser::new(raw(&["-hnvd"])).help().version().flag("debug", 'd', "debug", false);
    assert_eq!(
        parser.parse(),
        vec![
            Token::Option(&help, None),
            Token::UnknownShortFlag('n'),
            Token::Option(&version, None),
            Token::Option(&debug, None),
        ]
    );
}

#[test]
fn lone_dash_is_a_literal() {
    let help = flag("help", 'h', "help", false);
    let parser = Parser::new(raw(&["-", "-h"])).help();
    assert_eq!(parser.parse(), vec![argument("-"), Token::Option(&help, None)]);
}

#[test]
fn lone_dash_becomes_a_value() {
    let f = flag("flag", 'f', "flag", true);
    let parser = Parser::new(raw(&["-f", "-"])).flag("flag", 'f', "flag", true);
    assert_eq!(parser.parse(), vec![Token::Option(&f, some("-"))]);
}

#[test]
fn binary_name_is_the_last_part_of_the_path() {
    assert_eq!(Parser::new(raw(&["-h"])).binary_name(), "bin");
    assert_eq!(Parser::new(strings(&["bin"])).binary_name(), "bin");
    assert_eq!(Parser::new(strings(&["/usr/bin/milcheck", "x/y"])).binary_name(), "milcheck");
    assert_eq!(Parser::new(strings(&["dir/"])).binary_name(), "");
}

#[test]
fn binary_name_without_arguments_is_the_default() {
    assert_eq!(Parser::new(vec![]).binary_name(), "milcheck");
}

#[test]
fn parsing_twice_gives_the_same_tokens() {
    let parser = Parser::new(raw(&["-n", "3", "--", "-h"])).help().flag("news", 'n', "news", true);
    let first = parser.parse();
    let second = parser.parse();
    assert_eq!(first, second);
    assert_eq!(first.len(), 2);
}

#[test]
fn first_registered_flag_wins() {
    let mut table = FlagTable::new();
    table.register("one", 'x', "same", false);
    table.register("two", 'x', "same", true);
    table.register("three", 'y', "other", true);
    assert_eq!(table.len(), 3);
    assert_eq!(table.find_short('x').map(|f| f.identifier.as_str()), Some("one"));
    assert_eq!(table.find_long(&"same".to_string()).map(|f| f.identifier.as_str()), Some("one"));
    assert_eq!(table.find_short('y').map(|f| f.identifier.as_str()), Some("three"));
    assert_eq!(table.find_long(&"other".to_string()).map(|f| f.takes_value), Some(true));
    assert!(table.find_short('z').is_none());
    assert!(table.find_long(&"sam".to_string()).is_none());
    assert_eq!(table.get(1).map(|f| f.identifier.as_str()), Some("two"));
    assert!(table.get(3).is_none());
}

#[test]
fn convenience_flags() {
    let parser = Parser::new(raw(&[])).help().version().license();
    let table = parser.flags();
    assert_eq!(table.len(), 3);
    assert_eq!(table.get(0), Some(&flag("help", 'h', "help", false)));
    assert_eq!(table.get(1), Some(&flag("version", 'v', "version", false)));
    assert_eq!(table.get(2), Some(&flag("license", 'L', "license", false)));
}

#[test]
fn tokenizer_alone_does_not_merge() {
    let mut table = FlagTable::new();
    table.register("news", 'n', "news", true);
    let news = flag("news", 'n', "news", true);
    let args = strings(&["-n", "3", "--news", "4", "-n5"]);
    let tokens = tokenize(&args, &table);
    assert_eq!(
        tokens,
        vec![
            Token::Option(&news, None),
            argument("3"),
            Token::Option(&news, None),
            argument("4"),
            Token::Option(&news, some("5")),
        ]
    );
    assert_eq!(
        normalize(&tokens),
        vec![
            Token::Option(&news, some("3")),
            Token::Option(&news, some("4")),
            Token::Option(&news, some("5")),
        ]
    );
}

#[test]
fn merged_value_is_not_looked_at_again() {
    let f = flag("flag", 'f', "flag", true);
    let parser = Parser::new(raw(&["-f", "a", "b", "-f", "-f", "c", "-f"])).flag("flag", 'f', "flag", true);
    assert_eq!(
        parser.parse(),
        vec![
            Token::Option(&f, some("a")),
            argument("b"),
            Token::Option(&f, None),
            Token::Option(&f, some("c")),
            Token::Option(&f, None),
        ]
    );
}

#[test]
fn characters_beyond_ascii() {
    let f = flag("flag", 'é', "drapeau-é", true);
    let parser = Parser::new(raw(&["-éß∂", "--drapeau-é=ñ", "-ß"])).flag("flag", 'é', "drapeau-é", true);
    assert_eq!(
        parser.parse(),
        vec![
            Token::Option(&f, some("ß∂")),
            Token::Option(&f, some("ñ")),
            Token::UnknownShortFlag('ß'),
        ]
    );
}
