//! The local mirror list: which servers it names.

use crate::text::chars_of;
use crate::text::ends_with;
use crate::text::matches_at;
use crate::text::occurs_at;
use crate::text::starts_with;
use vstd::prelude::*;
use vstd::string::StrSliceExecFns;
use vstd::string::StringExecFns;

verus! {

/// What a line that names a server begins with.
pub open spec fn server_prefix() -> Seq<char> {
    "Server = "@
}

/// The path that a server address usually ends with.
pub open spec fn repo_suffix() -> Seq<char> {
    "/$repo/os/$arch"@
}

/// The same path with a closing `/`.
pub open spec fn repo_suffix_slash() -> Seq<char> {
    "/$repo/os/$arch/"@
}

/// What is reported when the list names no server.
pub open spec fn no_server_message() -> Seq<char> {
    "no server found in /etc/pacman.d/mirrorlist"@
}

/// The end of the line that begins at `from`: the position of the next line
/// feed, or the end of the text.
pub open spec fn line_end(text: Seq<char>, from: int) -> int
    decreases text.len() - from,
{
    if from >= text.len() {
        text.len() as int
    } else if text[from] == '\n' {
        from
    } else {
        line_end(text, from + 1)
    }
}

/// The line between `from` and `end`. Where a line feed ends it, a carriage
/// return right before the line feed is not part of the line.
pub open spec fn line_between(text: Seq<char>, from: int, end: int) -> Seq<char> {
    if end < text.len() && from < end && text[end - 1] == '\r' {
        text.subrange(from, end - 1)
    } else {
        text.subrange(from, end)
    }
}

/// The lines of `text` from position `from` on. A line feed at the very end
/// of the text begins no further line.
pub open spec fn lines_from(text: Seq<char>, from: int) -> Seq<Seq<char>>
    decreases text.len() - from,
    via lines_from_decreases
{
    if from < 0 || from >= text.len() {
        Seq::empty()
    } else if line_end(text, from) >= text.len() {
        seq![line_between(text, from, line_end(text, from))]
    } else {
        seq![line_between(text, from, line_end(text, from))] + lines_from(
            text,
            line_end(text, from) + 1,
        )
    }
}

#[via_fn]
proof fn lines_from_decreases(text: Seq<char>, from: int) {
    if 0 <= from < text.len() {
        lemma_line_end(text, from);
    }
}

/// The lines of `text`.
pub open spec fn lines_of(text: Seq<char>) -> Seq<Seq<char>> {
    lines_from(text, 0)
}

/// The server that `line` names, if it names one: what follows
/// `Server = `, up to and with the `/` before `$repo/os/$arch` where the
/// line ends with that path.
pub open spec fn server_of_line(line: Seq<char>) -> Option<Seq<char>> {
    if starts_with(line, server_prefix()) {
        let url = line.skip(server_prefix().len() as int);
        if ends_with(line, repo_suffix()) {
            Some(url.take(url.len() - 14))
        } else if ends_with(line, repo_suffix_slash()) {
            Some(url.take(url.len() - 15))
        } else {
            Some(url)
        }
    } else {
        None
    }
}

/// The servers that `lines` name, in order.
pub open spec fn servers_of(lines: Seq<Seq<char>>) -> Seq<Seq<char>>
    decreases lines.len(),
{
    if lines.len() == 0 {
        Seq::empty()
    } else {
        match server_of_line(lines.last()) {
            Some(server) => servers_of(lines.drop_last()).push(server),
            None => servers_of(lines.drop_last()),
        }
    }
}

/// The line end lies at or behind the start and within the text; no line
/// feed stands before it.
proof fn lemma_line_end(text: Seq<char>, from: int)
    requires
        0 <= from <= text.len(),
    ensures
        from <= line_end(text, from) <= text.len(),
        line_end(text, from) < text.len() ==> text[line_end(text, from)] == '\n',
        forall|j: int| from <= j < line_end(text, from) ==> text[j] != '\n',
    decreases text.len() - from,
{
    if from < text.len() && text[from] != '\n' {
        lemma_line_end(text, from + 1);
    }
}

/// A line that names a server and ends with the usual path is long enough
/// to hold both.
proof fn lemma_prefix_and_suffix_apart(line: Seq<char>, suffix: Seq<char>)
    requires
        starts_with(line, server_prefix()),
        ends_with(line, suffix),
        suffix == repo_suffix() || suffix == repo_suffix_slash(),
    ensures
        line.len() >= server_prefix().len() + suffix.len(),
{
    reveal_strlit("Server = ");
    reveal_strlit("/$repo/os/$arch");
    reveal_strlit("/$repo/os/$arch/");
    let prefix = server_prefix();
    let at = line.len() - suffix.len();
    if at < prefix.len() {
        assert(line.subrange(at, at + suffix.len())[0] == suffix[0]);
        assert(line.subrange(0, prefix.len() as int)[at] == prefix[at]);
        assert(line[at] == '/');
    }
}

/// The position of the next line feed at or behind `from`, or the end of
/// the text.
fn find_line_end(chars: &Vec<char>, from: usize) -> (end: usize)
    requires
        from <= chars.len(),
    ensures
        end == line_end(chars@, from as int),
        from <= end <= chars.len(),
{
    let mut end: usize = from;
    while end < chars.len() && chars[end] != '\n'
        invariant
            from <= end <= chars.len(),
            line_end(chars@, from as int) == line_end(chars@, end as int),
        decreases chars.len() - end,
    {
        end = end + 1;
    }
    end
}

/// Whether the part of `chars` between `from` and `to` begins with
/// `prefix`.
fn part_starts_with(chars: &Vec<char>, from: usize, to: usize, prefix: &Vec<char>) -> (found: bool)
    requires
        from <= to <= chars.len(),
    ensures
        found == starts_with(chars@.subrange(from as int, to as int), prefix@),
{
    if prefix.len() > to - from {
        return false;
    }
    let found = matches_at(chars, prefix, from);
    proof {
        let part = chars@.subrange(from as int, to as int);
        assert(part.subrange(0, prefix.len() as int) =~= chars@.subrange(
            from as int,
            from + prefix.len(),
        ));
    }
    found
}

/// Whether the part of `chars` between `from` and `to` ends with `suffix`.
fn part_ends_with(chars: &Vec<char>, from: usize, to: usize, suffix: &Vec<char>) -> (found: bool)
    requires
        from <= to <= chars.len(),
    ensures
        found == ends_with(chars@.subrange(from as int, to as int), suffix@),
{
    if suffix.len() > to - from {
        return false;
    }
    let found = matches_at(chars, suffix, to - suffix.len());
    proof {
        let part = chars@.subrange(from as int, to as int);
        assert(part.subrange(part.len() - suffix.len(), part.len() as int) =~= chars@.subrange(
            to - suffix.len(),
            to as int,
        ));
    }
    found
}

/// The servers that the mirror list `content` names, in order.
///
/// Fails where it names none.
pub fn parse_mirrorlist(content: &str) -> (mirrors: Result<Vec<String>, String>)
    ensures
        match mirrors {
            Ok(servers) => servers.len() > 0 && servers.deep_view() == servers_of(
                lines_of(content@),
            ),
            Err(message) => servers_of(lines_of(content@)).len() == 0 && message@
                == no_server_message(),
        },
{
    let chars = chars_of(content);
    let prefix = chars_of("Server = ");
    let suffix = chars_of("/$repo/os/$arch");
    let suffix_slash = chars_of("/$repo/os/$arch/");
    let n = chars.len();
    let mut mirrors: Vec<String> = Vec::new();
    let ghost mut lines: Seq<Seq<char>> = Seq::empty();
    let mut from: usize = 0;
    proof {
        reveal_strlit("Server = ");
        reveal_strlit("/$repo/os/$arch");
        reveal_strlit("/$repo/os/$arch/");
        assert(mirrors.deep_view() =~= servers_of(lines));
        assert(lines + lines_from(chars@, 0) =~= lines_of(content@));
    }
    while from < n
        invariant
            n == chars.len(),
            chars@ == content@,
            prefix@ == server_prefix(),
            suffix@ == repo_suffix(),
            suffix_slash@ == repo_suffix_slash(),
            prefix@.len() == 9,
            suffix@.len() == 15,
            suffix_slash@.len() == 16,
            from <= n,
            lines + lines_from(chars@, from as int) == lines_of(content@),
            mirrors.deep_view() == servers_of(lines),
        decreases n - from,
    {
        let end = find_line_end(&chars, from);
        proof {
            lemma_line_end(chars@, from as int);
        }
        let stop = if end < n && from < end && chars[end - 1] == '\r' {
            end - 1
        } else {
            end
        };
        let ghost line = chars@.subrange(from as int, stop as int);
        let ghost seen = lines;
        proof {
            assert(line == line_between(chars@, from as int, end as int));
            lines = seen.push(line);
            let next = if end < n {
                end + 1
            } else {
                n as int
            };
            assert(lines + lines_from(chars@, next) =~= seen + lines_from(chars@, from as int));
            assert(lines.drop_last() =~= seen);
        }
        if part_starts_with(&chars, from, stop, &prefix) {
            let begin = from + 9;
            let finish = if part_ends_with(&chars, from, stop, &suffix) {
                proof {
                    lemma_prefix_and_suffix_apart(line, suffix@);
                }
                stop - 14
            } else if part_ends_with(&chars, from, stop, &suffix_slash) {
                proof {
                    lemma_prefix_and_suffix_apart(line, suffix_slash@);
                }
                stop - 15
            } else {
                stop
            };
            let server = String::from_str(content.substring_char(begin, finish));
            proof {
                assert(server@ =~= server_of_line(line).unwrap());
            }
            let ghost before = mirrors.deep_view();
            mirrors.push(server);
            assert(mirrors.deep_view() =~= before.push(server@));
        }
        if end < n {
            from = end + 1;
        } else {
            from = n;
        }
    }
    proof {
        assert(lines_from(chars@, from as int) =~= Seq::<Seq<char>>::empty());
        assert(lines =~= lines_of(content@));
    }
    if mirrors.len() == 0 {
        Err(String::from_str("no server found in /etc/pacman.d/mirrorlist"))
    } else {
        Ok(mirrors)
    }
}

} // verus!
