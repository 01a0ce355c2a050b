use milcheck::cli::Parser;
use milcheck::color::AnsiValue;
use milcheck::color::Palette;
use milcheck::color::Rgb;
use milcheck::error::Error;
use milcheck::event::is_exit_key;
use milcheck::event::Event;
use milcheck::event::Key;
use milcheck::text::align_left;
use milcheck::text::align_right;
use milcheck::text::chars_of;
use milcheck::text::contains;
use milcheck::text::decimal;
use milcheck::text::find_from;
use milcheck::text::len_of;
use milcheck::text::matches_at;
use milcheck::text::same_text;
use milcheck::Milcheck;

fn chars(text: &str) -> Vec<char> {
    text.chars().collect()
}

#[test]
fn error_keeps_its_message() {
    assert_eq!(Error::new("web scraping failed").to_string(), "web scraping failed");
    assert_eq!(Error::new("").to_string(), "");
    assert_eq!(Error::from("from a text".to_string()).to_string(), "from a text");
    let error = Error::new("twice");
    assert_eq!(error.clone().to_string(), error.to_string());
}

#[test]
fn keys_that_end_the_program() {
    assert!(is_exit_key(Key::Char('q')));
    assert!(is_exit_key(Key::Esc));
    assert!(is_exit_key(Key::Ctrl('c')));
    assert!(!is_exit_key(Key::Char('c')));
    assert!(!is_exit_key(Key::Char('Q')));
    assert!(!is_exit_key(Key::Ctrl('q')));
    assert!(!is_exit_key(Key::Ctrl('C')));
    assert!(!is_exit_key(Key::Other));
}

#[test]
fn events_carry_their_input() {
    let event: Event<Key> = Event::Input(Key::Esc);
    assert!(matches!(event, Event::Input(Key::Esc)));
    let tick: Event<Key> = Event::Tick;
    assert!(matches!(tick, Event::Tick));
}

fn news_wanted(args: &[&str]) -> bool {
    let mut raw = vec!["milcheck".to_string()];
    raw.extend(args.iter().map(|a| a.to_string()));
    let parser = Parser::new(raw).help().version().license().flag("news", 'n', "news", true);
    let tokens = parser.parse();
    Milcheck::from(&tokens).print_news()
}

#[test]
fn news_are_shown_when_asked_for() {
    assert!(news_wanted(&["-n"]));
    assert!(news_wanted(&["--news"]));
    assert!(news_wanted(&["--news=3"]));
    assert!(news_wanted(&["-n3"]));
    assert!(news_wanted(&["-h", "x", "-vn", "5"]));
    assert!(news_wanted(&["--nope", "-n"]));
}

#[test]
fn news_are_not_shown_otherwise() {
    assert!(!news_wanted(&[]));
    assert!(!news_wanted(&["-h"]));
    assert!(!news_wanted(&["news"]));
    assert!(!news_wanted(&["--", "-n"]));
    assert!(!news_wanted(&["--new"]));
    assert!(!news_wanted(&["-N"]));
}

#[test]
fn news_go_by_the_name_of_the_flag() {
    let parser = Parser::new(vec!["bin".to_string(), "-x".to_string(), "-n".to_string()])
        .flag("news", 'x', "extra", false)
        .flag("other", 'n', "news", false);
    let tokens = parser.parse();
    assert_eq!(tokens.len(), 2);
    assert!(Milcheck::from(&tokens).print_news());
    assert!(!Milcheck::from(&tokens[1..].to_vec()).print_news());
}

#[test]
fn palettes() {
    let palette = Palette::<Rgb>::new();
    assert_eq!(palette.green, Rgb(129, 199, 132));
    assert_eq!(palette.red, Rgb(229, 115, 115));
    assert_eq!(palette.orange, Rgb(255, 183, 77));
    let palette = Palette::<AnsiValue>::new();
    assert_eq!(palette.green, AnsiValue(2));
    assert_eq!(palette.red, AnsiValue(1));
    assert_eq!(palette.orange, AnsiValue(208));
}

#[test]
fn numbers_in_decimal() {
    assert_eq!(decimal(0), "0");
    assert_eq!(decimal(7), "7");
    assert_eq!(decimal(10), "10");
    assert_eq!(decimal(1234567890), "1234567890");
    assert_eq!(decimal(u64::MAX), "18446744073709551615");
    for n in 0..1200u64 {
        assert_eq!(decimal(n), n.to_string());
    }
}

#[test]
fn fields_are_padded_with_spaces() {
    assert_eq!(align_right("ab", 5), "   ab");
    assert_eq!(align_left("ab", 5), "ab   ");
    assert_eq!(align_right("abcdef", 5), "abcdef");
    assert_eq!(align_left("abcdef", 5), "abcdef");
    assert_eq!(align_right("", 0), "");
    assert_eq!(align_left("", 2), "  ");
    assert_eq!(align_right("ab", 2), "ab");
    for text in ["", "a", "München", "日本語", "a longer text"] {
        for width in 0..16 {
            assert_eq!(align_right(text, width), format!("{:>width$}", text, width = width));
            assert_eq!(align_left(text, width), format!("{:<width$}", text, width = width));
        }
    }
}

#[test]
fn texts_are_measured_in_bytes_and_compared() {
    assert_eq!(len_of(""), 0);
    assert_eq!(len_of("Out of sync!"), 12);
    assert_eq!(len_of("Türkiye"), 8);
    assert!(same_text("", ""));
    assert!(same_text("url", "url"));
    assert!(!same_text("url", "Url"));
    assert!(!same_text("url", "urls"));
    assert!(!same_text("", "a"));
    assert!(same_text("日本", "日本"));
    assert!(!same_text("日本", "日木"));
    assert_eq!(chars_of("aé日"), vec!['a', 'é', '日']);
    assert!(chars_of("").is_empty());
}

#[test]
fn texts_are_searched() {
    let hay = chars("abcabcabd");
    assert!(matches_at(&hay, &chars("abc"), 0));
    assert!(matches_at(&hay, &chars("abc"), 3));
    assert!(!matches_at(&hay, &chars("abc"), 6));
    assert!(!matches_at(&hay, &chars("abc"), 7));
    assert!(!matches_at(&hay, &chars("abc"), 100));
    assert!(matches_at(&hay, &chars(""), 9));
    assert!(!matches_at(&hay, &chars(""), 10));
    assert_eq!(find_from(&hay, &chars("abd"), 0), Some(6));
    assert_eq!(find_from(&hay, &chars("abc"), 1), Some(3));
    assert_eq!(find_from(&hay, &chars("abc"), 4), None);
    assert_eq!(find_from(&hay, &chars(""), 4), Some(4));
    assert_eq!(find_from(&hay, &chars(""), 9), Some(9));
    assert_eq!(find_from(&hay, &chars(""), 10), None);
    assert_eq!(find_from(&hay, &chars("abcabcabda"), 0), None);
    assert!(contains(&hay, &chars("cab")));
    assert!(contains(&hay, &chars("")));
    assert!(contains(&hay, &hay));
    assert!(!contains(&hay, &chars("ac")));
    assert!(contains(&chars(""), &chars("")));
    assert!(!contains(&chars(""), &chars("a")));
    for (h, n) in [("hello world", "o w"), ("hello", "lo"), ("aaa", "aaaa"), ("xyz", "")] {
        assert_eq!(contains(&chars(h), &chars(n)), h.contains(n));
        assert_eq!(find_from(&chars(h), &chars(n), 0), h.find(n));
    }
}
