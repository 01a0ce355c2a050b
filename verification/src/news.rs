//! The latest news: how the articles are picked from what a page was
//! rendered to, and how they are laid out.

use crate::error::Error;
use crate::style::blue;
use crate::style::blue_code;
use crate::style::bold;
use crate::style::bold_code;
use crate::style::default_color;
use crate::style::default_color_code;
use crate::style::green;
use crate::style::green_code;
use crate::style::italic;
use crate::style::italic_code;
use crate::style::magenta;
use crate::style::magenta_code;
use crate::style::reset;
use crate::style::reset_code;
use crate::style::underline;
use crate::style::underline_code;
use crate::style::yellow;
use crate::style::yellow_code;
use crate::text::decimal;
use crate::text::decimal_of;
use vstd::prelude::*;
use vstd::string::StringExecFns;

verus! {

/// The widest line an article is set in: a comfortable measure for reading.
pub const LINE_LENGTH: usize = 66;

/// The width articles are set in on a terminal `term_width` columns wide.
pub fn line_width(term_width: usize) -> (width: usize)
    ensures
        width == if term_width > LINE_LENGTH {
            LINE_LENGTH
        } else {
            term_width
        },
{
    if term_width > LINE_LENGTH {
        LINE_LENGTH
    } else {
        term_width
    }
}

/// One article of the news.
pub struct Article<'a> {
    pub title: &'a str,
    pub link: &'a str,
    pub content: &'a str,
    pub date: &'a str,
}

/// An article as it is shown: the date in italic magenta and the title in
/// bold green on one line, the link underlined in blue on the next, and the
/// content after an empty line.
pub open spec fn article_text(
    title: Seq<char>,
    link: Seq<char>,
    content: Seq<char>,
    date: Seq<char>,
) -> Seq<char> {
    italic_code() + magenta_code() + date + reset_code() + seq![' '] + bold_code() + green_code()
        + title + reset_code() + seq!['\n'] + underline_code() + blue_code() + link + reset_code()
        + seq!['\n', '\n'] + reset_code() + default_color_code() + content
}

impl<'a> Article<'a> {
    /// The article as it is shown.
    pub fn to_string(&self) -> (text: String)
        ensures
            text@ == article_text(self.title@, self.link@, self.content@, self.date@),
    {
        proof {
            reveal_strlit(" ");
            reveal_strlit("\n");
            reveal_strlit("\n\n");
            assert(" "@ =~= seq![' ']);
            assert("\n"@ =~= seq!['\n']);
            assert("\n\n"@ =~= seq!['\n', '\n']);
        }
        let mut text = italic();
        text.append(magenta().as_str());
        text.append(self.date);
        text.append(reset().as_str());
        text.append(" ");
        text.append(bold().as_str());
        text.append(green().as_str());
        text.append(self.title);
        text.append(reset().as_str());
        text.append("\n");
        text.append(underline().as_str());
        text.append(blue().as_str());
        text.append(self.link);
        text.append(reset().as_str());
        text.append("\n\n");
        text.append(reset().as_str());
        text.append(default_color().as_str());
        text.append(self.content);
        text
    }
}

/// A tag on a piece of rendered text, as far as the news tell tags apart.
pub enum Annotation {
    /// The piece is a link to the given target.
    Link(String),
    /// Anything else.
    Other,
}

/// A piece of a rendered line.
pub enum LineElement {
    /// Text with its tags, outermost first.
    Str { text: String, tags: Vec<Annotation> },
    /// A mark without text.
    FragmentStart,
}

/// The heading of an article: its title, and where it leads.
pub struct Heading {
    pub title: String,
    pub link: String,
}

/// What a [`Heading`] is, with its texts as sequences of characters.
pub struct HeadingView {
    pub title: Seq<char>,
    pub link: Seq<char>,
}

impl View for Heading {
    type V = HeadingView;

    open spec fn view(&self) -> HeadingView {
        HeadingView { title: self.title@, link: self.link@ }
    }
}

impl DeepView for Heading {
    type V = HeadingView;

    open spec fn deep_view(&self) -> HeadingView {
        self@
    }
}

/// The heading that the rendered `lines` of a title give: the text of the
/// first piece of the first line, where that piece is text whose first tag
/// is a link, and the link's target behind `arch_url`.
pub open spec fn heading_of(lines: Seq<Vec<LineElement>>, arch_url: Seq<char>) -> Option<
    HeadingView,
> {
    if lines.len() > 0 && lines[0]@.len() > 0 {
        match lines[0]@[0] {
            LineElement::Str { text, tags } => if tags@.len() > 0 {
                match tags@[0] {
                    Annotation::Link(target) => Some(
                        HeadingView { title: text@, link: arch_url + target@ },
                    ),
                    Annotation::Other => None,
                }
            } else {
                None
            },
            LineElement::FragmentStart => None,
        }
    } else {
        None
    }
}

/// The headings that the rendered titles give, in order; a title that gives
/// none is left out.
pub open spec fn headings_of(rendered: Seq<Vec<Vec<LineElement>>>, arch_url: Seq<char>) -> Seq<
    HeadingView,
>
    decreases rendered.len(),
{
    if rendered.len() == 0 {
        Seq::empty()
    } else {
        match heading_of(rendered.last()@, arch_url) {
            Some(heading) => headings_of(rendered.drop_last(), arch_url).push(heading),
            None => headings_of(rendered.drop_last(), arch_url),
        }
    }
}

/// The heading that the rendered `lines` of a title give.
pub fn parse_title(lines: &Vec<Vec<LineElement>>, arch_url: &str) -> (heading: Option<Heading>)
    ensures
        heading.deep_view() == heading_of(lines@, arch_url@),
{
    if lines.len() == 0 || lines[0].len() == 0 {
        return None;
    }
    match &lines[0][0] {
        LineElement::Str { text, tags } => {
            if tags.len() == 0 {
                return None;
            }
            match &tags[0] {
                Annotation::Link(target) => {
                    let mut link = String::from_str(arch_url);
                    link.append(target.as_str());
                    Some(Heading { title: text.clone(), link })
                },
                Annotation::Other => None,
            }
        },
        LineElement::FragmentStart => None,
    }
}

/// The headings that the rendered titles give.
pub fn parse_titles(rendered: &Vec<Vec<Vec<LineElement>>>, arch_url: &str) -> (titles: Vec<Heading>)
    ensures
        titles.deep_view() == headings_of(rendered@, arch_url@),
{
    let mut titles: Vec<Heading> = Vec::new();
    let mut i: usize = 0;
    assert(rendered@.take(0) =~= Seq::<Vec<Vec<LineElement>>>::empty());
    assert(titles.deep_view() =~= headings_of(rendered@.take(0), arch_url@));
    while i < rendered.len()
        invariant
            i <= rendered.len(),
            titles.deep_view() == headings_of(rendered@.take(i as int), arch_url@),
        decreases rendered.len() - i,
    {
        let ghost next = rendered@.take(i + 1);
        let ghost before = titles.deep_view();
        proof {
            assert(next.drop_last() =~= rendered@.take(i as int));
            assert(next.last() == rendered@[i as int]);
        }
        match parse_title(&rendered[i], arch_url) {
            Some(heading) => {
                titles.push(heading);
                assert(titles.deep_view() =~= before.push(heading@));
            },
            None => {},
        }
        i = i + 1;
    }
    assert(rendered@.take(i as int) =~= rendered@);
    titles
}

/// What is reported when titles, dates and contents do not match up.
pub open spec fn parsing_failed() -> Seq<char> {
    "failed to parse news data"@
}

/// The top of the news: a bold yellow title, and under it the address of
/// the news pages, underlined in blue.
pub open spec fn news_header(arch_url: Seq<char>) -> Seq<char> {
    bold_code() + yellow_code() + "Latest News"@ + reset_code() + seq!['\n'] + underline_code()
        + blue_code() + arch_url + "/news"@ + reset_code() + default_color_code()
}

/// The first `n` articles, each on a new line.
pub open spec fn articles_text(
    titles: Seq<HeadingView>,
    dates: Seq<Seq<char>>,
    contents: Seq<Seq<char>>,
    n: nat,
) -> Seq<char>
    decreases n,
{
    if n == 0 {
        Seq::empty()
    } else {
        articles_text(titles, dates, contents, (n - 1) as nat) + seq!['\n'] + article_text(
            titles[n - 1].title,
            titles[n - 1].link,
            contents[n - 1],
            dates[n - 1],
        )
    }
}

/// The news as they are shown: the top, then the articles.
pub open spec fn news_text(
    arch_url: Seq<char>,
    titles: Seq<HeadingView>,
    dates: Seq<Seq<char>>,
    contents: Seq<Seq<char>>,
) -> Seq<char> {
    news_header(arch_url) + seq!['\n'] + articles_text(titles, dates, contents, titles.len())
}

/// The news of a page.
pub struct News<'a> {
    raw_html: String,
    arch_url: &'a str,
}

impl<'a> News<'a> {
    /// The page as it was fetched.
    pub closed spec fn page(&self) -> Seq<char> {
        self.raw_html@
    }

    /// The address of the site.
    pub closed spec fn site(&self) -> Seq<char> {
        self.arch_url@
    }

    /// The news of the page `raw_html` of the site at `arch_url`.
    pub fn new(raw_html: String, arch_url: &'a str) -> (news: News<'a>)
        ensures
            news.page() == raw_html@,
            news.site() == arch_url@,
    {
        News { raw_html, arch_url }
    }

    /// The page as it was fetched.
    pub fn raw_html(&self) -> (page: &str)
        ensures
            page@ == self.page(),
    {
        self.raw_html.as_str()
    }

    /// The address of the site.
    pub fn arch_url(&self) -> (site: &'a str)
        ensures
            site@ == self.site(),
    {
        self.arch_url
    }

    /// Lays out the news from what was read off the page: the headings, the
    /// dates and the contents of the articles, in the order of the page.
    ///
    /// Fails where there are not as many dates and contents as headings.
    pub fn compose(&self, titles: &Vec<Heading>, dates: &Vec<String>, contents: &Vec<String>) -> (text:
        Result<String, Error>)
        ensures
            match text {
                Ok(news) => titles.len() == dates.len() && titles.len() == contents.len() && news@
                    == news_text(
                    self.site(),
                    titles.deep_view(),
                    dates.deep_view(),
                    contents.deep_view(),
                ),
                Err(error) => (titles.len() != dates.len() || titles.len() != contents.len())
                    && error@ == parsing_failed(),
            },
    {
        if dates.len() != titles.len() || contents.len() != titles.len() {
            return Err(Error::new("failed to parse news data"));
        }
        proof {
            reveal_strlit("\n");
            assert("\n"@ =~= seq!['\n']);
        }
        let mut output = bold();
        output.append(yellow().as_str());
        output.append("Latest News");
        output.append(reset().as_str());
        output.append("\n");
        output.append(underline().as_str());
        output.append(blue().as_str());
        output.append(self.arch_url);
        output.append("/news");
        output.append(reset().as_str());
        output.append(default_color().as_str());
        let mut articles = String::new();
        let mut i: usize = 0;
        assert(articles@ =~= articles_text(
            titles.deep_view(),
            dates.deep_view(),
            contents.deep_view(),
            0,
        ));
        while i < titles.len()
            invariant
                i <= titles.len(),
                titles.len() == dates.len(),
                titles.len() == contents.len(),
                "\n"@ == seq!['\n'],
                articles@ == articles_text(
                    titles.deep_view(),
                    dates.deep_view(),
                    contents.deep_view(),
                    i as nat,
                ),
            decreases titles.len() - i,
        {
            let article = Article {
                title: titles[i].title.as_str(),
                link: titles[i].link.as_str(),
                content: contents[i].as_str(),
                date: dates[i].as_str(),
            };
            proof {
                assert(titles.deep_view()[i as int] == titles[i as int]@);
                assert(dates.deep_view()[i as int] == dates[i as int]@);
                assert(contents.deep_view()[i as int] == contents[i as int]@);
            }
            articles.append("\n");
            articles.append(article.to_string().as_str());
            i = i + 1;
        }
        output.append("\n");
        output.append(articles.as_str());
        Ok(output)
    }
}

/// What marks the end of a link.
pub open spec fn link_end_mark() -> Seq<char> {
    "<"@
}

/// What stands before a link: `>`, the link's number in brackets and a
/// space.
pub open spec fn link_start_mark(number: nat) -> Seq<char> {
    ">["@ + decimal_of(number) + "] "@
}

/// What stands for an image: `[I]`, the image's number in brackets and a
/// space.
pub open spec fn image_mark(number: nat) -> Seq<char> {
    "[I]["@ + decimal_of(number) + "] "@
}

/// The line that resolves note `number`: the number in brackets, a space
/// and what the note refers to.
pub open spec fn note_line(number: nat, target: Seq<char>) -> Seq<char> {
    "["@ + decimal_of(number) + "] "@ + target
}

/// The notes collected while an article is rendered: the targets of its
/// links and the titles of its images, numbered from 1 in the order they
/// were met.
pub struct ContentDecorator(Vec<String>);

impl View for ContentDecorator {
    type V = Seq<Seq<char>>;

    closed spec fn view(&self) -> Seq<Seq<char>> {
        self.0.deep_view()
    }
}

impl ContentDecorator {
    /// A decorator without notes.
    pub fn new() -> (decorator: ContentDecorator)
        ensures
            decorator@ == Seq::<Seq<char>>::empty(),
    {
        let decorator = ContentDecorator(Vec::new());
        assert(decorator@ =~= Seq::<Seq<char>>::empty());
        decorator
    }

    /// Notes the target of a link and gives what stands before the link.
    pub fn decorate_link_start(&mut self, url: &str) -> (mark: String)
        ensures
            final(self)@ == old(self)@.push(url@),
            mark@ == link_start_mark(final(self)@.len()),
    {
        self.0.push(String::from_str(url));
        assert(self@ =~= old(self)@.push(url@));
        let mut mark = String::from_str(">[");
        mark.append(decimal(self.0.len() as u64).as_str());
        mark.append("] ");
        mark
    }

    /// What stands behind a link.
    pub fn decorate_link_end(&self) -> (mark: String)
        ensures
            mark@ == link_end_mark(),
    {
        String::from_str("<")
    }

    /// What stands before and behind emphasised text.
    pub fn decorate_em(&self) -> (mark: String)
        ensures
            mark@ == "_"@,
    {
        String::from_str("_")
    }

    /// What stands before and behind strong text.
    pub fn decorate_strong(&self) -> (mark: String)
        ensures
            mark@ == "*"@,
    {
        String::from_str("*")
    }

    /// What stands before and behind struck out text.
    pub fn decorate_strikeout(&self) -> (mark: String)
        ensures
            mark@ == "~"@,
    {
        String::from_str("~")
    }

    /// What stands before and behind code.
    pub fn decorate_code(&self) -> (mark: String)
        ensures
            mark@ == "`"@,
    {
        String::from_str("`")
    }

    /// Notes the title of an image and gives what stands for the image.
    pub fn decorate_image(&mut self, title: &str) -> (mark: String)
        ensures
            final(self)@ == old(self)@.push(title@),
            mark@ == image_mark(final(self)@.len()),
    {
        self.0.push(String::from_str(title));
        assert(self@ =~= old(self)@.push(title@));
        let mut mark = String::from_str("[I][");
        mark.append(decimal(self.0.len() as u64).as_str());
        mark.append("] ");
        mark
    }

    /// The lines that resolve the notes, in order.
    pub fn finalise(&self) -> (lines: Vec<String>)
        ensures
            lines.len() == self@.len(),
            forall|i: int|
                0 <= i < self@.len() ==> (#[trigger] lines[i])@ == note_line(
                    (i + 1) as nat,
                    self@[i],
                ),
    {
        let mut lines: Vec<String> = Vec::new();
        let mut i: usize = 0;
        while i < self.0.len()
            invariant
                i <= self.0.len(),
                lines.len() == i,
                forall|j: int|
                    0 <= j < i ==> (#[trigger] lines[j])@ == note_line((j + 1) as nat, self@[j]),
            decreases self.0.len() - i,
        {
            let mut line = String::from_str("[");
            line.append(decimal((i + 1) as u64).as_str());
            line.append("] ");
            line.append(self.0[i].as_str());
            proof {
                assert(self@[i as int] == self.0[i as int]@);
            }
            lines.push(line);
            i = i + 1;
        }
        lines
    }
}

} // verus!
