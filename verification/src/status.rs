//! The status page: whether it is what was expected, and what it says of the
//! servers of the local list.

use crate::error::Error;
use crate::mirror::Mirror;
use crate::mirror::MirrorState;
use crate::mirror::MirrorStateView;
use crate::mirror::MirrorView;
use crate::text::chars_of;
use crate::text::contains;
use crate::text::find_from;
use crate::text::occurs;
use crate::text::occurs_at;
use vstd::prelude::*;

verus! {

/// What ends a table of the page.
pub open spec fn table_end() -> Seq<char> {
    "</table>"@
}

/// What begins the table of the mirrors that lag behind.
pub open spec fn out_of_sync_tag() -> Seq<char> {
    "<table id=\"outofsync_mirrors\""@
}

/// What begins the table of the mirrors that are up to date.
pub open spec fn in_sync_tag() -> Seq<char> {
    "<table id=\"successful_mirrors\""@
}

/// What is reported for a page that is not laid out as expected.
pub open spec fn scraping_failed() -> Seq<char> {
    "web scraping failed"@
}

/// The first position at or behind `from` where `needle` stands in `text`.
pub open spec fn next_occurrence(text: Seq<char>, needle: Seq<char>, from: int) -> Option<int>
    decreases text.len() - from,
{
    if from < 0 || from + needle.len() > text.len() {
        None
    } else if occurs_at(text, needle, from) {
        Some(from)
    } else {
        proof {
            assert(from < text.len()) by {
                if from == text.len() {
                    assert(text.subrange(from, from + needle.len()) =~= needle);
                }
            }
        }
        next_occurrence(text, needle, from + 1)
    }
}

/// The pieces that `text` falls into from `from` on when every `mark` is
/// cut out, the marks found from the left and never overlapping.
pub open spec fn pieces_from(text: Seq<char>, mark: Seq<char>, from: int) -> Seq<Seq<char>>
    decreases text.len() - from,
    when mark.len() > 0 && 0 <= from <= text.len()
    via pieces_from_decreases
{
    match next_occurrence(text, mark, from) {
        Some(at) => seq![text.subrange(from, at)] + pieces_from(text, mark, at + mark.len()),
        None => seq![text.subrange(from, text.len() as int)],
    }
}

#[via_fn]
proof fn pieces_from_decreases(text: Seq<char>, mark: Seq<char>, from: int) {
    lemma_next_occurrence(text, mark, from);
}

/// The pieces that `text` falls into when every `mark` is cut out.
pub open spec fn pieces_of(text: Seq<char>, mark: Seq<char>) -> Seq<Seq<char>> {
    pieces_from(text, mark, 0)
}

/// Whether `page` is laid out as expected: four pieces around three table
/// ends, the first piece with the table of the mirrors that lag behind, the
/// second with that of the mirrors that are up to date.
pub open spec fn well_laid_out(page: Seq<char>) -> bool {
    &&& pieces_of(page, table_end()).len() == 4
    &&& occurs(pieces_of(page, table_end())[0], out_of_sync_tag())
    &&& occurs(pieces_of(page, table_end())[1], in_sync_tag())
}

/// The first of `known` whose address is `server`.
pub open spec fn mirror_at(known: Seq<MirrorView>, server: Seq<char>) -> Option<MirrorView>
    decreases known.len(),
{
    if known.len() == 0 {
        None
    } else if known.first().url == server {
        Some(known.first())
    } else {
        mirror_at(known.drop_first(), server)
    }
}

/// The state of `server`: not found where no mirror of `known` has its
/// address; else out of sync where its address stands in `section`, the
/// piece of the page that lists the mirrors lagging behind, and synced
/// where it does not.
pub open spec fn state_of(server: Seq<char>, known: Seq<MirrorView>, section: Seq<char>)
    -> MirrorStateView {
    match mirror_at(known, server) {
        Some(mirror) => if occurs(section, server) {
            MirrorStateView::OutOfSync(mirror)
        } else {
            MirrorStateView::Synced(mirror)
        },
        None => MirrorStateView::NotFound(server),
    }
}

/// The state of each of `servers`, in order.
pub open spec fn states_of(servers: Seq<Seq<char>>, known: Seq<MirrorView>, section: Seq<char>)
    -> Seq<MirrorStateView> {
    servers.map_values(|server: Seq<char>| state_of(server, known, section))
}

/// What is found is the first occurrence at or behind the start, and where
/// nothing is found there is none.
pub proof fn lemma_next_occurrence(text: Seq<char>, needle: Seq<char>, from: int)
    ensures
        match next_occurrence(text, needle, from) {
            Some(at) => from <= at && occurs_at(text, needle, at) && forall|j: int|
                from <= j < at ==> !occurs_at(text, needle, j),
            None => forall|j: int| 0 <= from <= j ==> !occurs_at(text, needle, j),
        },
    decreases text.len() - from,
{
    if from < 0 || from + needle.len() > text.len() {
    } else if occurs_at(text, needle, from) {
    } else {
        assert(from < text.len()) by {
            if from == text.len() {
                assert(text.subrange(from, from + needle.len()) =~= needle);
            }
        }
        lemma_next_occurrence(text, needle, from + 1);
    }
}

/// Skipping mirrors with another address does not change which is found.
proof fn lemma_mirror_at_skip(known: Seq<MirrorView>, server: Seq<char>, n: int)
    requires
        0 <= n <= known.len(),
        forall|j: int| 0 <= j < n ==> known[j].url != server,
    ensures
        mirror_at(known, server) == mirror_at(known.skip(n), server),
    decreases n,
{
    if n == 0 {
        assert(known.skip(0) =~= known);
    } else {
        assert(known.first() == known[0]);
        let rest = known.drop_first();
        assert forall|j: int| 0 <= j < n - 1 implies rest[j].url != server by {
            assert(rest[j] == known[j + 1]);
        }
        lemma_mirror_at_skip(rest, server, n - 1);
        assert(rest.skip(n - 1) =~= known.skip(n));
    }
}

/// The first position at or behind `from` where `needle` stands in `text`.
fn next_at(text: &Vec<char>, needle: &Vec<char>, from: usize) -> (found: Option<usize>)
    requires
        from <= text.len(),
    ensures
        match found {
            Some(at) => next_occurrence(text@, needle@, from as int) == Some(at as int) && from
                <= at && at + needle.len() <= text.len(),
            None => next_occurrence(text@, needle@, from as int) is None,
        },
{
    let found = find_from(text, needle, from);
    proof {
        lemma_next_occurrence(text@, needle@, from as int);
    }
    found
}

/// A copy of the part of `text` between `from` and `to`.
fn part_of(text: &Vec<char>, from: usize, to: usize) -> (part: Vec<char>)
    requires
        from <= to <= text.len(),
    ensures
        part@ == text@.subrange(from as int, to as int),
{
    let mut part: Vec<char> = Vec::new();
    let mut i: usize = from;
    while i < to
        invariant
            from <= i <= to <= text.len(),
            part@ == text@.subrange(from as int, i as int),
        decreases to - i,
    {
        part.push(text[i]);
        i = i + 1;
        assert(part@ =~= text@.subrange(from as int, i as int));
    }
    part
}

/// The piece of the status page that lists the mirrors lagging behind.
///
/// Fails for a page that is not laid out as expected.
pub fn out_of_sync_section(response: &str) -> (section: Result<Vec<char>, Error>)
    ensures
        match section {
            Ok(piece) => well_laid_out(response@) && piece@ == pieces_of(
                response@,
                table_end(),
            )[0],
            Err(error) => !well_laid_out(response@) && error@ == scraping_failed(),
        },
{
    let page = chars_of(response);
    let mark = chars_of("</table>");
    proof {
        reveal_strlit("</table>");
        assert(mark@.len() == 8);
    }
    let ghost pieces = pieces_of(page@, mark@);
    let first = match next_at(&page, &mark, 0) {
        Some(at) => at,
        None => {
            assert(pieces.len() == 1);
            return Err(Error::new("web scraping failed"));
        },
    };
    let second = match next_at(&page, &mark, first + 8) {
        Some(at) => at,
        None => {
            assert(pieces_from(page@, mark@, first + 8).len() == 1);
            assert(pieces.len() == 2);
            return Err(Error::new("web scraping failed"));
        },
    };
    let third = match next_at(&page, &mark, second + 8) {
        Some(at) => at,
        None => {
            assert(pieces_from(page@, mark@, second + 8).len() == 1);
            assert(pieces_from(page@, mark@, first + 8).len() == 2);
            assert(pieces.len() == 3);
            return Err(Error::new("web scraping failed"));
        },
    };
    let fourth = next_at(&page, &mark, third + 8);
    proof {
        let tail = pieces_from(page@, mark@, third + 8);
        assert(pieces_from(page@, mark@, second + 8) =~= seq![
            page@.subrange(second + 8, third as int),
        ] + tail);
        assert(pieces_from(page@, mark@, first + 8) =~= seq![
            page@.subrange(first + 8, second as int),
        ] + pieces_from(page@, mark@, second + 8));
        assert(pieces =~= seq![page@.subrange(0, first as int)] + pieces_from(
            page@,
            mark@,
            first + 8,
        ));
        assert(pieces.len() == 3 + tail.len());
        assert(pieces[0] == page@.subrange(0, first as int));
        assert(pieces[1] == page@.subrange(first + 8, second as int));
        if fourth is Some {
            assert(tail.len() >= 2) by {
                let at = fourth.unwrap() as int;
                lemma_pieces_nonempty(page@, mark@, at + 8);
            }
        } else {
            assert(tail.len() == 1);
        }
    }
    if fourth.is_some() {
        return Err(Error::new("web scraping failed"));
    }
    let section = part_of(&page, 0, first);
    let next = part_of(&page, first + 8, second);
    if !contains(&section, &chars_of("<table id=\"outofsync_mirrors\"")) {
        return Err(Error::new("web scraping failed"));
    }
    if !contains(&next, &chars_of("<table id=\"successful_mirrors\"")) {
        return Err(Error::new("web scraping failed"));
    }
    Ok(section)
}

/// Cutting leaves at least one piece.
proof fn lemma_pieces_nonempty(text: Seq<char>, mark: Seq<char>, from: int)
    requires
        mark.len() > 0,
        0 <= from <= text.len(),
    ensures
        pieces_from(text, mark, from).len() >= 1,
{
}

/// A mirror equal to `mirror`.
fn duplicate(mirror: &Mirror) -> (copy: Mirror)
    ensures
        copy@ == mirror@,
{
    Mirror {
        url: mirror.url.clone(),
        protocol: mirror.protocol.clone(),
        country: mirror.country.clone(),
        completion: mirror.completion.clone(),
        completion_level: mirror.completion_level,
        delay: mirror.delay,
        duration_avg: mirror.duration_avg.clone(),
        duration_stddev: mirror.duration_stddev.clone(),
        score: mirror.score.clone(),
        score_level: mirror.score_level,
    }
}

/// The first of `known` whose address is `server`.
fn find_mirror<'a>(known: &'a [Mirror], server: &String) -> (found: Option<&'a Mirror>)
    ensures
        found.deep_view() == mirror_at(known.deep_view(), server@),
{
    let mut i: usize = 0;
    while i < known.len()
        invariant
            i <= known.len(),
            forall|j: int| 0 <= j < i ==> known.deep_view()[j].url != server@,
        decreases known.len() - i,
    {
        if known[i].url == *server {
            proof {
                lemma_mirror_at_skip(known.deep_view(), server@, i as int);
                assert(known.deep_view().skip(i as int).first() == known[i as int]@);
            }
            return Some(&known[i]);
        }
        proof {
            assert(known.deep_view()[i as int] == known[i as int]@);
        }
        i = i + 1;
    }
    proof {
        lemma_mirror_at_skip(known.deep_view(), server@, known.len() as int);
    }
    None
}

/// The state of each server of the local list.
///
/// `known` are the mirrors that the status page lists, `section` the piece
/// of the page with the mirrors that lag behind.
pub fn classify(mirrorlist: Vec<String>, known: &[Mirror], section: &Vec<char>) -> (mirrors: Vec<
    MirrorState,
>)
    ensures
        mirrors.deep_view() == states_of(mirrorlist.deep_view(), known.deep_view(), section@),
{
    let mut mirrors: Vec<MirrorState> = Vec::new();
    let ghost all = states_of(mirrorlist.deep_view(), known.deep_view(), section@);
    let mut i: usize = 0;
    assert(mirrors.deep_view() =~= all.take(0));
    while i < mirrorlist.len()
        invariant
            i <= mirrorlist.len(),
            all == states_of(mirrorlist.deep_view(), known.deep_view(), section@),
            mirrors.deep_view() == all.take(i as int),
        decreases mirrorlist.len() - i,
    {
        let server = &mirrorlist[i];
        let state = match find_mirror(known, server) {
            Some(mirror) => {
                if contains(section, &chars_of(server.as_str())) {
                    MirrorState::OutOfSync(duplicate(mirror))
                } else {
                    MirrorState::Synced(duplicate(mirror))
                }
            },
            None => MirrorState::NotFound(server.clone()),
        };
        let ghost before = mirrors.deep_view();
        proof {
            assert(mirrorlist.deep_view()[i as int] == server@);
            assert(state@ == all[i as int]);
        }
        mirrors.push(state);
        i = i + 1;
        proof {
            assert(mirrors.deep_view() =~= before.push(all[i - 1]));
            assert(mirrors.deep_view() =~= all.take(i as int));
        }
    }
    assert(all.take(i as int) =~= all);
    mirrors
}

} // verus!
