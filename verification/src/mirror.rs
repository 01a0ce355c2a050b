//! Mirrors, the state they are found in, and the width of their columns.

use crate::error::Error;
use crate::text::byte_len;
use crate::text::decimal;
use crate::text::decimal_of;
use crate::text::len_of;
use crate::text::same_text;
use vstd::prelude::*;
use vstd::string::StringExecFns;

verus! {

/// How much a value asks for the reader's attention.
#[derive(Debug, Clone, Copy, PartialEq, Eq, Structural)]
pub enum Level {
    /// Nothing to remark.
    Fine,
    /// Worth a look.
    Warning,
    /// Out of bounds.
    Alert,
}

/// What is known of a mirror.
///
/// Measured values that are not whole numbers are held as the text that is
/// shown for them, empty where the value is unknown, together with the
/// attention they ask for.
#[derive(Debug, Clone)]
pub struct Mirror {
    pub url: String,
    pub protocol: String,
    pub country: String,
    pub completion: String,
    pub completion_level: Level,
    /// Hours and minutes behind.
    pub delay: Option<(u32, u32)>,
    pub duration_avg: String,
    pub duration_stddev: String,
    pub score: String,
    pub score_level: Level,
}

/// What a [`Mirror`] is, with its texts as sequences of characters.
pub struct MirrorView {
    pub url: Seq<char>,
    pub protocol: Seq<char>,
    pub country: Seq<char>,
    pub completion: Seq<char>,
    pub completion_level: Level,
    pub delay: Option<(u32, u32)>,
    pub duration_avg: Seq<char>,
    pub duration_stddev: Seq<char>,
    pub score: Seq<char>,
    pub score_level: Level,
}

impl View for Mirror {
    type V = MirrorView;

    open spec fn view(&self) -> MirrorView {
        MirrorView {
            url: self.url@,
            protocol: self.protocol@,
            country: self.country@,
            completion: self.completion@,
            completion_level: self.completion_level,
            delay: self.delay,
            duration_avg: self.duration_avg@,
            duration_stddev: self.duration_stddev@,
            score: self.score@,
            score_level: self.score_level,
        }
    }
}

impl DeepView for Mirror {
    type V = MirrorView;

    open spec fn deep_view(&self) -> MirrorView {
        self@
    }
}

/// A server of the local list, as the status page knows it.
#[derive(Debug, Clone)]
pub enum MirrorState {
    /// The status page does not know the server.
    NotFound(String),
    /// The mirror is up to date.
    Synced(Mirror),
    /// The mirror lags behind.
    OutOfSync(Mirror),
}

/// What a [`MirrorState`] is, with its texts as sequences of characters.
pub enum MirrorStateView {
    NotFound(Seq<char>),
    Synced(MirrorView),
    OutOfSync(MirrorView),
}

impl View for MirrorState {
    type V = MirrorStateView;

    open spec fn view(&self) -> MirrorStateView {
        match *self {
            MirrorState::NotFound(server) => MirrorStateView::NotFound(server@),
            MirrorState::Synced(mirror) => MirrorStateView::Synced(mirror@),
            MirrorState::OutOfSync(mirror) => MirrorStateView::OutOfSync(mirror@),
        }
    }
}

impl DeepView for MirrorState {
    type V = MirrorStateView;

    open spec fn deep_view(&self) -> MirrorStateView {
        self@
    }
}

/// The label of a synced mirror.
pub open spec fn ok_label() -> Seq<char> {
    "Ok"@
}

/// The label of a server that the status page does not know.
pub open spec fn not_found_label() -> Seq<char> {
    "Not found!"@
}

/// The label of a mirror that lags behind.
pub open spec fn out_of_sync_label() -> Seq<char> {
    "Out of sync!"@
}

/// The label shown for `state`.
pub open spec fn state_label(state: MirrorStateView) -> Seq<char> {
    match state {
        MirrorStateView::NotFound(_) => not_found_label(),
        MirrorStateView::Synced(_) => ok_label(),
        MirrorStateView::OutOfSync(_) => out_of_sync_label(),
    }
}

/// The heading of column `column`, counted from 0.
pub open spec fn header(column: int) -> Seq<char> {
    if column == 0 {
        "State"@
    } else if column == 1 {
        "Url"@
    } else if column == 2 {
        "Protocol"@
    } else if column == 3 {
        "Country"@
    } else if column == 4 {
        "Completion %"@
    } else if column == 5 {
        "Delay h:m"@
    } else if column == 6 {
        "Avg dur s"@
    } else if column == 7 {
        "Dev dur s"@
    } else {
        "Score"@
    }
}

/// Minutes are shown with two digits.
pub open spec fn two_digits(n: nat) -> Seq<char> {
    if n < 10 {
        seq!['0'] + decimal_of(n)
    } else {
        decimal_of(n)
    }
}

/// A delay as `hours:minutes`, empty where it is unknown.
pub open spec fn delay_text(delay: Option<(u32, u32)>) -> Seq<char> {
    match delay {
        Some((hours, minutes)) => decimal_of(hours as nat) + seq![':'] + two_digits(
            minutes as nat,
        ),
        None => Seq::empty(),
    }
}

/// The length in bytes of what is shown of `mirror` in the column named
/// `field`; `None` where no column has that name.
pub open spec fn field_len(mirror: MirrorView, field: Seq<char>) -> Option<nat> {
    if field == "url"@ {
        Some(byte_len(mirror.url))
    } else if field == "protocol"@ {
        Some(byte_len(mirror.protocol))
    } else if field == "country"@ {
        Some(byte_len(mirror.country))
    } else if field == "completion"@ {
        Some(byte_len(mirror.completion))
    } else if field == "delay"@ {
        Some(byte_len(delay_text(mirror.delay)))
    } else if field == "duration_avg"@ {
        Some(byte_len(mirror.duration_avg))
    } else if field == "duration_stddev"@ {
        Some(byte_len(mirror.duration_stddev))
    } else if field == "score"@ {
        Some(byte_len(mirror.score))
    } else {
        None
    }
}

/// The message for a column name that no column has.
pub open spec fn missing_field(field: Seq<char>) -> Seq<char> {
    "Mirror does not have a field \""@ + field + "\""@
}

/// The length in bytes of what `state` shows in the column named `key`. A
/// server that is not known shows its address in the `url` column and
/// nothing elsewhere, whatever the name.
pub open spec fn cell_len(state: MirrorStateView, key: Seq<char>) -> Option<nat> {
    match state {
        MirrorStateView::NotFound(server) => Some(
            if key == "url"@ {
                byte_len(server)
            } else {
                0
            },
        ),
        MirrorStateView::Synced(mirror) => field_len(mirror, key),
        MirrorStateView::OutOfSync(mirror) => field_len(mirror, key),
    }
}

/// The larger of two numbers.
pub open spec fn larger(a: nat, b: nat) -> nat {
    if a >= b {
        a
    } else {
        b
    }
}

/// The longest cell of the column named `key`; `None` where a mirror is
/// asked for a column it does not have.
pub open spec fn longest_cell(mirrors: Seq<MirrorStateView>, key: Seq<char>) -> Option<nat>
    decreases mirrors.len(),
{
    if mirrors.len() == 0 {
        Some(0)
    } else {
        match (longest_cell(mirrors.drop_last(), key), cell_len(mirrors.last(), key)) {
            (Some(a), Some(b)) => Some(larger(a, b)),
            _ => None,
        }
    }
}

/// The longest state label among `mirrors`, 0 where there is none.
pub open spec fn longest_label(mirrors: Seq<MirrorStateView>) -> nat
    decreases mirrors.len(),
{
    if mirrors.len() == 0 {
        0
    } else {
        larger(longest_label(mirrors.drop_last()), byte_len(state_label(mirrors.last())))
    }
}

impl Mirror {
    /// The delay as `hours:minutes`, empty where it is unknown.
    pub fn delay_to_str(&self) -> (text: String)
        ensures
            text@ == delay_text(self.delay),
    {
        match self.delay {
            Some((hours, minutes)) => {
                let mut text = decimal(hours as u64);
                proof {
                    reveal_strlit(":");
                    reveal_strlit("0");
                }
                text.append(":");
                if minutes < 10 {
                    text.append("0");
                }
                text.append(decimal(minutes as u64).as_str());
                assert(text@ =~= delay_text(self.delay));
                text
            },
            None => String::new(),
        }
    }

    /// The length in bytes of what is shown in the column named `field`.
    ///
    /// Fails for a name that no column has.
    pub fn get_len(&self, field: &str) -> (len: Result<usize, Error>)
        ensures
            match len {
                Ok(n) => field_len(self@, field@) == Some(n as nat),
                Err(error) => field_len(self@, field@) is None && error@ == missing_field(field@),
            },
    {
        if same_text(field, "url") {
            Ok(len_of(self.url.as_str()))
        } else if same_text(field, "protocol") {
            Ok(len_of(self.protocol.as_str()))
        } else if same_text(field, "country") {
            Ok(len_of(self.country.as_str()))
        } else if same_text(field, "completion") {
            Ok(len_of(self.completion.as_str()))
        } else if same_text(field, "delay") {
            Ok(len_of(self.delay_to_str().as_str()))
        } else if same_text(field, "duration_avg") {
            Ok(len_of(self.duration_avg.as_str()))
        } else if same_text(field, "duration_stddev") {
            Ok(len_of(self.duration_stddev.as_str()))
        } else if same_text(field, "score") {
            Ok(len_of(self.score.as_str()))
        } else {
            let mut message = String::from_str("Mirror does not have a field \"");
            message.append(field);
            message.append("\"");
            Err(Error::new(message.as_str()))
        }
    }
}

/// The length in bytes of the longest state label among `mirrors`.
pub fn find_max_state_len(mirrors: &[MirrorState]) -> (max_len: usize)
    ensures
        max_len == longest_label(mirrors.deep_view()),
{
    let mut max_len: usize = 0;
    let mut i: usize = 0;
    assert(mirrors.deep_view().take(0) =~= Seq::<MirrorStateView>::empty());
    while i < mirrors.len()
        invariant
            i <= mirrors.len(),
            max_len == longest_label(mirrors.deep_view().take(i as int)),
        decreases mirrors.len() - i,
    {
        let ghost next = mirrors.deep_view().take(i + 1);
        proof {
            assert(next.drop_last() =~= mirrors.deep_view().take(i as int));
            assert(next.last() == mirrors[i as int]@);
        }
        let len = match &mirrors[i] {
            MirrorState::NotFound(_) => len_of("Not found!"),
            MirrorState::OutOfSync(_) => len_of("Out of sync!"),
            MirrorState::Synced(_) => len_of("Ok"),
        };
        if len > max_len {
            max_len = len;
        }
        i = i + 1;
    }
    assert(mirrors.deep_view().take(i as int) =~= mirrors.deep_view());
    max_len
}

/// The length in bytes of the longest cell of the column named `key`.
///
/// Fails where a known mirror is asked for a column it does not have.
pub fn find_max_len(mirrors: &[MirrorState], key: &str) -> (max_len: Result<usize, Error>)
    ensures
        match max_len {
            Ok(n) => longest_cell(mirrors.deep_view(), key@) == Some(n as nat),
            Err(error) => longest_cell(mirrors.deep_view(), key@) is None && error@
                == missing_field(key@),
        },
{
    let mut max_len: usize = 0;
    let mut i: usize = 0;
    assert(mirrors.deep_view().take(0) =~= Seq::<MirrorStateView>::empty());
    while i < mirrors.len()
        invariant
            i <= mirrors.len(),
            longest_cell(mirrors.deep_view().take(i as int), key@) == Some(max_len as nat),
        decreases mirrors.len() - i,
    {
        let ghost next = mirrors.deep_view().take(i + 1);
        proof {
            assert(next.drop_last() =~= mirrors.deep_view().take(i as int));
            assert(next.last() == mirrors[i as int]@);
        }
        let len = match &mirrors[i] {
            MirrorState::NotFound(server) => {
                if same_text(key, "url") {
                    len_of(server.as_str())
                } else {
                    0
                }
            },
            MirrorState::OutOfSync(mirror) => {
                match mirror.get_len(key) {
                    Ok(len) => len,
                    Err(error) => {
                        proof {
                            lemma_longest_cell_fails(mirrors.deep_view(), key@, i as int);
                        }
                        return Err(error);
                    },
                }
            },
            MirrorState::Synced(mirror) => {
                match mirror.get_len(key) {
                    Ok(len) => len,
                    Err(error) => {
                        proof {
                            lemma_longest_cell_fails(mirrors.deep_view(), key@, i as int);
                        }
                        return Err(error);
                    },
                }
            },
        };
        if len > max_len {
            max_len = len;
        }
        i = i + 1;
    }
    assert(mirrors.deep_view().take(i as int) =~= mirrors.deep_view());
    Ok(max_len)
}

/// One cell without a length leaves the whole column without one.
proof fn lemma_longest_cell_fails(mirrors: Seq<MirrorStateView>, key: Seq<char>, at: int)
    requires
        0 <= at < mirrors.len(),
        cell_len(mirrors[at], key) is None,
    ensures
        longest_cell(mirrors, key) is None,
    decreases mirrors.len(),
{
    if at < mirrors.len() - 1 {
        lemma_longest_cell_fails(mirrors.drop_last(), key, at);
    }
}

} // verus!
