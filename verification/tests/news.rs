use milcheck::news::line_width;
use milcheck::news::parse_title;
use milcheck::news::parse_titles;
use milcheck::news::Annotation;
use milcheck::news::Article;
use milcheck::news::ContentDecorator;
use milcheck::news::Heading;
use milcheck::news::LineElement;
use milcheck::news::News;
use milcheck::news::LINE_LENGTH;
use termion::color::Blue;
use termion::color::Fg;
use termion::color::Green;
use termion::color::Magenta;
use termion::color::Reset;
use termion::color::Yellow;
use termion::style::Bold;
use termion::style::Italic;
use termion::style::Reset as StyleReset;
use termion::style::Underline;

fn reference_article(title: &str, link: &str, content: &str, date: &str) -> String {
    format!(
        "{}{}{}{} {}{}{}{}\n{}{}{}{}\n\n{}{}{}",
        Italic,
        Fg(Magenta),
        date,
        StyleReset,
        Bold,
        Fg(Green),
        title,
        StyleReset,
        Underline,
        Fg(Blue),
        link,
        StyleReset,
        StyleReset,
        Fg(Reset),
        content
    )
}

fn reference_news(arch_url: &str, articles: &[(&str, &str, &str, &str)]) -> String {
    let output = format!(
        "{}{}Latest News{}\n{}{}{}/news{}{}",
        Bold,
        Fg(Yellow),
        StyleReset,
        Underline,
        Fg(Blue),
        arch_url,
        StyleReset,
        Fg(Reset)
    );
    let articles = articles.iter().fold(String::new(), |acc, a| {
        format!("{}\n{}", acc, reference_article(a.0, a.1, a.2, a.3))
    });
    format!("{}\n{}", output, articles)
}

fn heading(title: &str, link: &str) -> Heading {
    Heading { title: title.to_string(), link: link.to_string() }
}

fn linked(text: &str, target: &str) -> LineElement {
    LineElement::Str { text: text.to_string(), tags: vec![Annotation::Link(target.to_string())] }
}

#[test]
fn width_of_the_lines() {
    assert_eq!(LINE_LENGTH, 66);
    assert_eq!(line_width(0), 0);
    assert_eq!(line_width(65), 65);
    assert_eq!(line_width(66), 66);
    assert_eq!(line_width(67), 66);
    assert_eq!(line_width(usize::MAX), 66);
}

#[test]
fn article_as_shown() {
    let article = Article { title: "A title", link: "https://archlinux.org/news/a/", content: "Some\ncontent.", date: "2023-01-02" };
    assert_eq!(
        article.to_string(),
        reference_article("A title", "https://archlinux.org/news/a/", "Some\ncontent.", "2023-01-02")
    );
    assert_eq!(
        article.to_string(),
        "\u{1b}[3m\u{1b}[38;5;5m2023-01-02\u{1b}[m \u{1b}[1m\u{1b}[38;5;2mA title\u{1b}[m\n\u{1b}[4m\u{1b}[38;5;4mhttps://archlinux.org/news/a/\u{1b}[m\n\n\u{1b}[m\u{1b}[39mSome\ncontent."
    );
}

#[test]
fn news_as_shown() {
    let news = News::new("<html></html>".to_string(), "https://archlinux.org");
    assert_eq!(news.raw_html(), "<html></html>");
    assert_eq!(news.arch_url(), "https://archlinux.org");
    let titles = vec![heading("One", "https://archlinux.org/news/one/"), heading("Two", "https://archlinux.org/news/two/")];
    let dates = vec!["2023-01-02".to_string(), "2022-12-24".to_string()];
    let contents = vec!["First.\n".to_string(), "Second.\n".to_string()];
    assert_eq!(
        news.compose(&titles, &dates, &contents).unwrap(),
        reference_news(
            "https://archlinux.org",
            &[
                ("One", "https://archlinux.org/news/one/", "First.\n", "2023-01-02"),
                ("Two", "https://archlinux.org/news/two/", "Second.\n", "2022-12-24"),
            ]
        )
    );
}

#[test]
fn news_without_articles() {
    let news = News::new(String::new(), "https://archlinux.org");
    assert_eq!(
        news.compose(&vec![], &vec![], &vec![]).unwrap(),
        "\u{1b}[1m\u{1b}[38;5;3mLatest News\u{1b}[m\n\u{1b}[4m\u{1b}[38;5;4mhttps://archlinux.org/news\u{1b}[m\u{1b}[39m\n"
    );
    assert_eq!(news.compose(&vec![], &vec![], &vec![]).unwrap(), reference_news("https://archlinux.org", &[]));
}

#[test]
fn news_that_do_not_match_up() {
    let news = News::new(String::new(), "https://archlinux.org");
    let titles = vec![heading("One", "l")];
    let one = vec!["x".to_string()];
    let two = vec!["x".to_string(), "y".to_string()];
    assert_eq!(news.compose(&titles, &vec![], &one).unwrap_err().to_string(), "failed to parse news data");
    assert_eq!(news.compose(&titles, &one, &two).unwrap_err().to_string(), "failed to parse news data");
    assert_eq!(news.compose(&vec![], &one, &one).unwrap_err().to_string(), "failed to parse news data");
    assert!(news.compose(&titles, &one, &one).is_ok());
}

#[test]
fn heading_of_a_rendered_title() {
    let lines = vec![vec![linked("A title", "/news/a/"), linked("more", "/other/")], vec![linked("next", "/x/")]];
    let found = parse_title(&lines, "https://archlinux.org").unwrap();
    assert_eq!(found.title, "A title");
    assert_eq!(found.link, "https://archlinux.org/news/a/");
}

#[test]
fn rendered_titles_without_a_heading() {
    let url = "https://archlinux.org";
    assert!(parse_title(&vec![], url).is_none());
    assert!(parse_title(&vec![vec![]], url).is_none());
    assert!(parse_title(&vec![vec![], vec![linked("A", "/a/")]], url).is_none());
    assert!(parse_title(&vec![vec![LineElement::FragmentStart, linked("A", "/a/")]], url).is_none());
    assert!(parse_title(&vec![vec![LineElement::Str { text: "A".to_string(), tags: vec![] }]], url).is_none());
    assert!(parse_title(
        &vec![vec![LineElement::Str {
            text: "A".to_string(),
            tags: vec![Annotation::Other, Annotation::Link("/a/".to_string())]
        }]],
        url
    )
    .is_none());
}

#[test]
fn headings_in_order() {
    let rendered = vec![
        vec![vec![linked("One", "/news/one/")]],
        vec![],
        vec![vec![LineElement::FragmentStart]],
        vec![vec![linked("Two", "/news/two/")]],
    ];
    let titles = parse_titles(&rendered, "https://archlinux.org");
    assert_eq!(titles.len(), 2);
    assert_eq!(titles[0].title, "One");
    assert_eq!(titles[0].link, "https://archlinux.org/news/one/");
    assert_eq!(titles[1].title, "Two");
    assert_eq!(titles[1].link, "https://archlinux.org/news/two/");
    assert!(parse_titles(&vec![], "x").is_empty());
}

#[test]
fn notes_are_numbered_from_one() {
    let mut decorator = ContentDecorator::new();
    assert!(decorator.finalise().is_empty());
    assert_eq!(decorator.decorate_link_start("https://a/"), ">[1] ");
    assert_eq!(decorator.decorate_image("a picture"), "[I][2] ");
    assert_eq!(decorator.decorate_link_start("https://b/"), ">[3] ");
    for _ in 0..7 {
        decorator.decorate_link_start("x");
    }
    assert_eq!(decorator.decorate_link_start("https://c/"), ">[11] ");
    let lines = decorator.finalise();
    assert_eq!(lines.len(), 11);
    assert_eq!(lines[0], "[1] https://a/");
    assert_eq!(lines[1], "[2] a picture");
    assert_eq!(lines[2], "[3] https://b/");
    assert_eq!(lines[9], "[10] x");
    assert_eq!(lines[10], "[11] https://c/");
}

#[test]
fn marks_around_text() {
    let decorator = ContentDecorator::new();
    assert_eq!(decorator.decorate_link_end(), "<");
    assert_eq!(decorator.decorate_em(), "_");
    assert_eq!(decorator.decorate_strong(), "*");
    assert_eq!(decorator.decorate_strikeout(), "~");
    assert_eq!(decorator.decorate_code(), "`");
}
