//! The table of mirrors, line by line.

use crate::error::Error;
use crate::mirror::delay_text;
use crate::mirror::field_len;
use crate::mirror::find_max_len;
use crate::mirror::find_max_state_len;
use crate::mirror::header;
use crate::mirror::larger;
use crate::mirror::longest_cell;
use crate::mirror::longest_label;
use crate::mirror::not_found_label;
use crate::mirror::ok_label;
use crate::mirror::out_of_sync_label;
use crate::mirror::cell_len;
use crate::mirror::Level;
use crate::mirror::Mirror;
use crate::mirror::MirrorState;
use crate::mirror::MirrorStateView;
use crate::mirror::MirrorView;
use crate::style::bold;
use crate::style::bold_code;
use crate::style::default_color;
use crate::style::default_color_code;
use crate::style::green;
use crate::style::green_code;
use crate::style::red;
use crate::style::red_code;
use crate::style::reset;
use crate::style::reset_code;
use crate::style::yellow;
use crate::style::yellow_code;
use crate::text::align_left;
use crate::text::align_right;
use crate::text::aligned_left;
use crate::text::aligned_right;
use crate::text::byte_len;
use crate::text::len_of;
use vstd::prelude::*;
use vstd::string::StringExecFns;

verus! {

/// The name by which column `column` is asked of a mirror; the first
/// column, which holds the state, has none.
pub open spec fn column_key(column: int) -> Seq<char> {
    if column == 1 {
        "url"@
    } else if column == 2 {
        "protocol"@
    } else if column == 3 {
        "country"@
    } else if column == 4 {
        "completion"@
    } else if column == 5 {
        "delay"@
    } else if column == 6 {
        "duration_avg"@
    } else if column == 7 {
        "duration_stddev"@
    } else {
        "score"@
    }
}

/// The longest entry of column `column`, in bytes.
pub open spec fn longest_entry(mirrors: Seq<MirrorStateView>, column: int) -> nat {
    if column == 0 {
        longest_label(mirrors)
    } else {
        match longest_cell(mirrors, column_key(column)) {
            Some(n) => n,
            None => 0,
        }
    }
}

/// The width of column `column`: that of its longest entry, and at least
/// that of its heading.
pub open spec fn column_width(mirrors: Seq<MirrorStateView>, column: int) -> nat {
    larger(longest_entry(mirrors, column), byte_len(header(column)))
}

/// Each column name names its own column.
pub proof fn lemma_field_len_by_name(mirror: MirrorView)
    ensures
        field_len(mirror, column_key(1)) == Some(byte_len(mirror.url)),
        field_len(mirror, column_key(2)) == Some(byte_len(mirror.protocol)),
        field_len(mirror, column_key(3)) == Some(byte_len(mirror.country)),
        field_len(mirror, column_key(4)) == Some(byte_len(mirror.completion)),
        field_len(mirror, column_key(5)) == Some(byte_len(delay_text(mirror.delay))),
        field_len(mirror, column_key(6)) == Some(byte_len(mirror.duration_avg)),
        field_len(mirror, column_key(7)) == Some(byte_len(mirror.duration_stddev)),
        field_len(mirror, column_key(8)) == Some(byte_len(mirror.score)),
{
    reveal_strlit("url");
    reveal_strlit("protocol");
    reveal_strlit("country");
    reveal_strlit("completion");
    reveal_strlit("delay");
    reveal_strlit("duration_avg");
    reveal_strlit("duration_stddev");
    reveal_strlit("score");
    assert("url"@.len() == 3);
    assert("protocol"@.len() == 8);
    assert("country"@.len() == 7);
    assert("completion"@.len() == 10);
    assert("delay"@.len() == 5);
    assert("duration_avg"@.len() == 12);
    assert("duration_stddev"@.len() == 15);
    assert("score"@.len() == 5);
    assert("delay"@[0] != "score"@[0]);
}

/// Every column that has a name has a longest cell.
pub proof fn lemma_named_columns_have_cells(mirrors: Seq<MirrorStateView>, column: int)
    requires
        1 <= column <= 8,
    ensures
        longest_cell(mirrors, column_key(column)) is Some,
    decreases mirrors.len(),
{
    if mirrors.len() > 0 {
        lemma_named_columns_have_cells(mirrors.drop_last(), column);
        match mirrors.last() {
            MirrorStateView::NotFound(_) => {},
            MirrorStateView::Synced(mirror) => {
                lemma_field_len_by_name(mirror);
            },
            MirrorStateView::OutOfSync(mirror) => {
                lemma_field_len_by_name(mirror);
            },
        }
        assert(cell_len(mirrors.last(), column_key(column)) is Some);
    }
}

/// The width of every column of the table.
#[derive(Debug, Clone, Copy, PartialEq, Eq, Structural)]
pub struct MaxLength {
    pub state: usize,
    pub url: usize,
    pub protocol: usize,
    pub country: usize,
    pub completion: usize,
    pub delay: usize,
    pub duration_avg: usize,
    pub duration_stddev: usize,
    pub score: usize,
}

/// Whether `widths` are the widths of the columns that `mirrors` and the
/// headings need.
pub open spec fn fits(widths: MaxLength, mirrors: Seq<MirrorStateView>) -> bool {
    &&& widths.state == column_width(mirrors, 0)
    &&& widths.url == column_width(mirrors, 1)
    &&& widths.protocol == column_width(mirrors, 2)
    &&& widths.country == column_width(mirrors, 3)
    &&& widths.completion == column_width(mirrors, 4)
    &&& widths.delay == column_width(mirrors, 5)
    &&& widths.duration_avg == column_width(mirrors, 6)
    &&& widths.duration_stddev == column_width(mirrors, 7)
    &&& widths.score == column_width(mirrors, 8)
}

/// The larger of two numbers.
fn max(a: usize, b: usize) -> (m: usize)
    ensures
        m == larger(a as nat, b as nat),
{
    if a >= b {
        a
    } else {
        b
    }
}

/// The width of the named column `column`, whose heading is `heading`.
fn named_width(mirrors: &[MirrorState], column: Ghost<int>, key: &str, heading: &str) -> (width:
    Result<usize, Error>)
    requires
        1 <= column@ <= 8,
        key@ == column_key(column@),
        heading@ == header(column@),
    ensures
        width is Ok,
        width.unwrap() == column_width(mirrors.deep_view(), column@),
{
    proof {
        lemma_named_columns_have_cells(mirrors.deep_view(), column@);
    }
    match find_max_len(mirrors, key) {
        Ok(longest) => Ok(max(longest, len_of(heading))),
        Err(error) => Err(error),
    }
}

impl MaxLength {
    /// Measures the columns that `mirrors` need. This never fails.
    pub fn new(mirrors: &[MirrorState]) -> (widths: Result<MaxLength, Error>)
        ensures
            widths is Ok,
            fits(widths.unwrap(), mirrors.deep_view()),
            widths.unwrap() == widths_of(mirrors.deep_view()),
    {
        let state = max(find_max_state_len(mirrors), len_of("State"));
        let url = named_width(mirrors, Ghost(1), "url", "Url")?;
        let protocol = named_width(mirrors, Ghost(2), "protocol", "Protocol")?;
        let country = named_width(mirrors, Ghost(3), "country", "Country")?;
        let completion = named_width(mirrors, Ghost(4), "completion", "Completion %")?;
        let delay = named_width(mirrors, Ghost(5), "delay", "Delay h:m")?;
        let duration_avg = named_width(mirrors, Ghost(6), "duration_avg", "Avg dur s")?;
        let duration_stddev = named_width(mirrors, Ghost(7), "duration_stddev", "Dev dur s")?;
        let score = named_width(mirrors, Ghost(8), "score", "Score")?;
        Ok(
            MaxLength {
                state,
                url,
                protocol,
                country,
                completion,
                delay,
                duration_avg,
                duration_stddev,
                score,
            },
        )
    }
}

/// The colour that a level of attention is shown in: none, yellow or red.
pub open spec fn level_code(level: Level) -> Seq<char> {
    match level {
        Level::Fine => Seq::empty(),
        Level::Warning => yellow_code(),
        Level::Alert => red_code(),
    }
}

/// A mirror an hour or more behind asks for attention, one more than half
/// an hour behind is worth a look.
pub open spec fn delay_level_of(delay: Option<(u32, u32)>) -> Level {
    match delay {
        Some((hours, minutes)) => if hours > 0 {
            Level::Alert
        } else if minutes > 30 {
            Level::Warning
        } else {
            Level::Fine
        },
        None => Level::Fine,
    }
}

/// The line of headings: bold, the first and the last five to the right of
/// their columns, the others to the left.
pub open spec fn headers_text(widths: MaxLength) -> Seq<char> {
    bold_code() + aligned_right(header(0), widths.state as nat) + seq![' '] + aligned_left(
        header(1),
        widths.url as nat,
    ) + seq![' '] + aligned_left(header(2), widths.protocol as nat) + seq![' '] + aligned_left(
        header(3),
        widths.country as nat,
    ) + seq![' '] + aligned_right(header(4), widths.completion as nat) + seq![' ']
        + aligned_right(header(5), widths.delay as nat) + seq![' '] + aligned_right(
        header(6),
        widths.duration_avg as nat,
    ) + seq![' '] + aligned_right(header(7), widths.duration_stddev as nat) + seq![' ']
        + aligned_right(header(8), widths.score as nat) + reset_code()
}

/// The line of a known mirror, with `label` in the colour `color` as its
/// state.
pub open spec fn mirror_text(
    widths: MaxLength,
    mirror: MirrorView,
    label: Seq<char>,
    color: Seq<char>,
) -> Seq<char> {
    bold_code() + color + aligned_right(label, widths.state as nat) + reset_code() + seq![' ']
        + aligned_left(mirror.url, widths.url as nat) + seq![' '] + aligned_left(
        mirror.protocol,
        widths.protocol as nat,
    ) + seq![' '] + aligned_left(mirror.country, widths.country as nat) + seq![' '] + level_code(
        mirror.completion_level,
    ) + aligned_right(mirror.completion, widths.completion as nat) + default_color_code()
        + seq![' '] + level_code(delay_level_of(mirror.delay)) + aligned_right(
        delay_text(mirror.delay),
        widths.delay as nat,
    ) + default_color_code() + seq![' '] + aligned_right(
        mirror.duration_avg,
        widths.duration_avg as nat,
    ) + seq![' '] + aligned_right(mirror.duration_stddev, widths.duration_stddev as nat)
        + seq![' '] + level_code(mirror.score_level) + aligned_right(
        mirror.score,
        widths.score as nat,
    ) + default_color_code()
}

/// The line of a server that the status page does not know.
pub open spec fn not_found_text(widths: MaxLength, server: Seq<char>) -> Seq<char> {
    bold_code() + yellow_code() + aligned_right(not_found_label(), widths.state as nat)
        + reset_code() + seq![' '] + server
}

/// The line of `state`: a mirror that lags behind is labelled in red, one
/// that is up to date in green.
pub open spec fn state_text(widths: MaxLength, state: MirrorStateView) -> Seq<char> {
    match state {
        MirrorStateView::NotFound(server) => not_found_text(widths, server),
        MirrorStateView::OutOfSync(mirror) => mirror_text(
            widths,
            mirror,
            out_of_sync_label(),
            red_code(),
        ),
        MirrorStateView::Synced(mirror) => mirror_text(widths, mirror, ok_label(), green_code()),
    }
}

/// The lines of the table: the headings, one line for each of `mirrors` in
/// order, and an empty line.
pub open spec fn table_text(widths: MaxLength, mirrors: Seq<MirrorStateView>) -> Seq<Seq<char>> {
    seq![headers_text(widths)] + mirrors.map_values(
        |state: MirrorStateView| state_text(widths, state),
    ) + seq![Seq::<char>::empty()]
}

/// The widths of the columns that `mirrors` and the headings need.
pub open spec fn widths_of(mirrors: Seq<MirrorStateView>) -> MaxLength {
    MaxLength {
        state: column_width(mirrors, 0) as usize,
        url: column_width(mirrors, 1) as usize,
        protocol: column_width(mirrors, 2) as usize,
        country: column_width(mirrors, 3) as usize,
        completion: column_width(mirrors, 4) as usize,
        delay: column_width(mirrors, 5) as usize,
        duration_avg: column_width(mirrors, 6) as usize,
        duration_stddev: column_width(mirrors, 7) as usize,
        score: column_width(mirrors, 8) as usize,
    }
}

/// The table of `mirrors`, in columns wide enough for all of them.
pub open spec fn table_of(mirrors: Seq<MirrorStateView>) -> Seq<Seq<char>> {
    table_text(widths_of(mirrors), mirrors)
}

/// The attention that a delay asks for.
pub fn delay_level(delay: Option<(u32, u32)>) -> (level: Level)
    ensures
        level == delay_level_of(delay),
{
    match delay {
        Some((hours, minutes)) => {
            if hours > 0 {
                Level::Alert
            } else if minutes > 30 {
                Level::Warning
            } else {
                Level::Fine
            }
        },
        None => Level::Fine,
    }
}

/// Appends to `line` the colour that `level` is shown in.
fn append_level(line: &mut String, level: Level)
    ensures
        final(line)@ == old(line)@ + level_code(level),
{
    match level {
        Level::Fine => {
            assert(line@ =~= old(line)@ + level_code(level));
        },
        Level::Warning => {
            line.append(yellow().as_str());
        },
        Level::Alert => {
            line.append(red().as_str());
        },
    }
}

/// Appends a space to `line`.
fn append_space(line: &mut String)
    ensures
        final(line)@ == old(line)@ + seq![' '],
{
    proof {
        reveal_strlit(" ");
        assert(" "@ =~= seq![' ']);
    }
    line.append(" ");
}

/// The line of headings.
pub fn headers_line(max_len: &MaxLength) -> (line: String)
    ensures
        line@ == headers_text(*max_len),
{
    let mut line = bold();
    line.append(align_right("State", max_len.state).as_str());
    append_space(&mut line);
    line.append(align_left("Url", max_len.url).as_str());
    append_space(&mut line);
    line.append(align_left("Protocol", max_len.protocol).as_str());
    append_space(&mut line);
    line.append(align_left("Country", max_len.country).as_str());
    append_space(&mut line);
    line.append(align_right("Completion %", max_len.completion).as_str());
    append_space(&mut line);
    line.append(align_right("Delay h:m", max_len.delay).as_str());
    append_space(&mut line);
    line.append(align_right("Avg dur s", max_len.duration_avg).as_str());
    append_space(&mut line);
    line.append(align_right("Dev dur s", max_len.duration_stddev).as_str());
    append_space(&mut line);
    line.append(align_right("Score", max_len.score).as_str());
    line.append(reset().as_str());
    line
}

/// The line of a known mirror, with `state` in the colour that `color`
/// switches on as its label.
pub fn mirror_line(max_len: &MaxLength, mirror: &Mirror, state: &str, color: &str) -> (line: String)
    ensures
        line@ == mirror_text(*max_len, mirror@, state@, color@),
{
    let mut line = bold();
    line.append(color);
    line.append(align_right(state, max_len.state).as_str());
    line.append(reset().as_str());
    append_space(&mut line);
    line.append(align_left(mirror.url.as_str(), max_len.url).as_str());
    append_space(&mut line);
    line.append(align_left(mirror.protocol.as_str(), max_len.protocol).as_str());
    append_space(&mut line);
    line.append(align_left(mirror.country.as_str(), max_len.country).as_str());
    append_space(&mut line);
    append_level(&mut line, mirror.completion_level);
    line.append(align_right(mirror.completion.as_str(), max_len.completion).as_str());
    line.append(default_color().as_str());
    append_space(&mut line);
    append_level(&mut line, delay_level(mirror.delay));
    line.append(align_right(mirror.delay_to_str().as_str(), max_len.delay).as_str());
    line.append(default_color().as_str());
    append_space(&mut line);
    line.append(align_right(mirror.duration_avg.as_str(), max_len.duration_avg).as_str());
    append_space(&mut line);
    line.append(align_right(mirror.duration_stddev.as_str(), max_len.duration_stddev).as_str());
    append_space(&mut line);
    append_level(&mut line, mirror.score_level);
    line.append(align_right(mirror.score.as_str(), max_len.score).as_str());
    line.append(default_color().as_str());
    line
}

/// The line of a server that the status page does not know.
pub fn not_found_line(max_len: &MaxLength, server: &str) -> (line: String)
    ensures
        line@ == not_found_text(*max_len, server@),
{
    let mut line = bold();
    line.append(yellow().as_str());
    line.append(align_right("Not found!", max_len.state).as_str());
    line.append(reset().as_str());
    append_space(&mut line);
    line.append(server);
    line
}

/// The line of `state`.
pub fn state_line(max_len: &MaxLength, state: &MirrorState) -> (line: String)
    ensures
        line@ == state_text(*max_len, state@),
{
    match state {
        MirrorState::NotFound(server) => not_found_line(max_len, server.as_str()),
        MirrorState::OutOfSync(mirror) => mirror_line(
            max_len,
            mirror,
            "Out of sync!",
            red().as_str(),
        ),
        MirrorState::Synced(mirror) => mirror_line(max_len, mirror, "Ok", green().as_str()),
    }
}

/// The lines of the table of `mirrors`, in columns wide enough for all of
/// them. This never fails.
pub fn table_lines(mirrors: &[MirrorState]) -> (lines: Result<Vec<String>, Error>)
    ensures
        lines is Ok,
        lines.unwrap().deep_view() == table_of(mirrors.deep_view()),
{
    let max_lengths = MaxLength::new(mirrors)?;
    assert(max_lengths == widths_of(mirrors.deep_view()));
    let mut lines: Vec<String> = Vec::new();
    lines.push(headers_line(&max_lengths));
    let ghost rows = mirrors.deep_view().map_values(
        |state: MirrorStateView| state_text(max_lengths, state),
    );
    let mut i: usize = 0;
    assert(lines.deep_view() =~= seq![headers_text(max_lengths)] + rows.take(0));
    while i < mirrors.len()
        invariant
            i <= mirrors.len(),
            rows == mirrors.deep_view().map_values(
                |state: MirrorStateView| state_text(max_lengths, state),
            ),
            lines.deep_view() == seq![headers_text(max_lengths)] + rows.take(i as int),
        decreases mirrors.len() - i,
    {
        let ghost before = lines.deep_view();
        let line = state_line(&max_lengths, &mirrors[i]);
        let ghost text = line@;
        proof {
            assert(mirrors.deep_view()[i as int] == mirrors[i as int]@);
            assert(rows[i as int] == text);
        }
        lines.push(line);
        i = i + 1;
        proof {
            assert(lines.deep_view() =~= before.push(text));
            assert(rows.take(i as int) =~= rows.take(i - 1).push(text));
            assert(lines.deep_view() =~= seq![headers_text(max_lengths)] + rows.take(i as int));
        }
    }
    lines.push(String::new());
    proof {
        assert(rows.take(i as int) =~= rows);
        assert(lines.deep_view() =~= table_text(max_lengths, mirrors.deep_view()));
    }
    Ok(lines)
}

} // verus!
