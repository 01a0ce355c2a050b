//! What is drawn while the program works: a spinner and the current status.

use crate::style::default_color;
use crate::style::default_color_code;
use crate::style::italic;
use crate::style::italic_code;
use crate::style::reset;
use crate::style::reset_code;
use crate::style::yellow;
use crate::style::yellow_code;
use crate::text::spaces;
use vstd::prelude::*;
use vstd::string::StringExecFns;

verus! {

/// Number of steps of the spinner.
pub const STEPS: usize = 14;

/// Milliseconds a step is shown at least.
pub const SPINNER_RATE: u128 = 40;

/// `n` dashes.
pub open spec fn dashes(n: nat) -> Seq<char> {
    Seq::new(n, |i: int| '-')
}

/// The picture of step `i`: an empty track at first, then a yellow mouth
/// that moves one place to the right every third step and closes on the
/// step after each move.
pub open spec fn step_text(i: nat) -> Seq<char> {
    if i == 0 {
        spaces(1) + dashes(4)
    } else {
        spaces(i / 3) + yellow_code() + seq![
            if i % 3 == 1 {
                'c'
            } else {
                'C'
            },
        ] + default_color_code() + dashes((4 - i / 3) as nat)
    }
}

/// What a frame shows: the step and two spaces, where there is a step, then
/// the status in italics.
pub open spec fn frame_text(step: Option<Seq<char>>, status: Seq<char>) -> Seq<char> {
    match step {
        Some(picture) => picture + spaces(2) + italic_code() + status + reset_code(),
        None => italic_code() + status + reset_code(),
    }
}

/// Whether a step shown for `elapsed` milliseconds is to be followed by the
/// next one.
pub open spec fn due(elapsed: u128) -> bool {
    elapsed > SPINNER_RATE
}

/// Appends `n` times `mark` to `text`.
fn append_run(text: &mut String, mark: &str, c: Ghost<char>, n: usize)
    requires
        mark@ == seq![c@],
    ensures
        final(text)@ == old(text)@ + Seq::new(n as nat, |i: int| c@),
{
    let mut i: usize = 0;
    assert(text@ =~= old(text)@ + Seq::new(0, |i: int| c@));
    while i < n
        invariant
            i <= n,
            mark@ == seq![c@],
            text@ == old(text)@ + Seq::new(i as nat, |i: int| c@),
        decreases n - i,
    {
        text.append(mark);
        i = i + 1;
        assert(text@ =~= old(text)@ + Seq::new(i as nat, |i: int| c@));
    }
}

/// The picture of step `i`.
fn step(i: usize) -> (picture: String)
    requires
        i < STEPS,
    ensures
        picture@ == step_text(i as nat),
{
    proof {
        reveal_strlit(" ");
        reveal_strlit("-");
        reveal_strlit("c");
        reveal_strlit("C");
        assert(" "@ =~= seq![' ']);
        assert("-"@ =~= seq!['-']);
    }
    let mut picture = String::new();
    if i == 0 {
        append_run(&mut picture, " ", Ghost(' '), 1);
        append_run(&mut picture, "-", Ghost('-'), 4);
        assert(picture@ =~= step_text(0));
    } else {
        append_run(&mut picture, " ", Ghost(' '), i / 3);
        picture.append(yellow().as_str());
        if i % 3 == 1 {
            picture.append("c");
        } else {
            picture.append("C");
        }
        picture.append(default_color().as_str());
        append_run(&mut picture, "-", Ghost('-'), 4 - i / 3);
        assert(picture@ =~= step_text(i as nat));
    }
    picture
}

/// The pictures of all steps, in order.
pub fn steps() -> (pictures: [String; 14])
    ensures
        forall|i: int| 0 <= i < STEPS ==> (#[trigger] pictures[i])@ == step_text(i as nat),
{
    [
        step(0),
        step(1),
        step(2),
        step(3),
        step(4),
        step(5),
        step(6),
        step(7),
        step(8),
        step(9),
        step(10),
        step(11),
        step(12),
        step(13),
    ]
}

/// What a frame shows.
pub fn frame(step: Option<&str>, status: &str) -> (text: String)
    ensures
        text@ == frame_text(
            match step {
                Some(picture) => Some(picture@),
                None => None,
            },
            status@,
        ),
{
    let mut text = String::new();
    match step {
        Some(picture) => {
            proof {
                reveal_strlit("  ");
                assert("  "@ =~= spaces(2));
            }
            text.append(picture);
            text.append("  ");
        },
        None => {},
    }
    text.append(italic().as_str());
    text.append(status);
    text.append(reset().as_str());
    proof {
        assert(text@ =~= frame_text(
            match step {
                Some(picture) => Some(picture@),
                None => None,
            },
            status@,
        ));
    }
    text
}

/// A spinner over the pictures of its steps.
///
/// It shows one step and knows which comes next; the steps come round
/// without end. How long the shown step has been up is the caller's to
/// measure.
pub struct Spinner<'a> {
    steps: &'a [String; 14],
    shown: usize,
    upcoming: usize,
}

impl<'a> Spinner<'a> {
    /// The place of the step that is shown.
    pub closed spec fn shown(&self) -> int {
        self.shown as int
    }

    /// The place of the step that comes next.
    pub closed spec fn upcoming(&self) -> int {
        self.upcoming as int
    }

    /// The pictures of the steps.
    pub closed spec fn pictures(&self) -> Seq<String> {
        self.steps@
    }

    /// Both places lie among the steps.
    #[verifier::type_invariant]
    spec fn well_formed(&self) -> bool {
        self.shown < STEPS && self.upcoming < STEPS
    }

    /// A spinner that shows the first step, and goes on with the first
    /// step.
    pub fn new(steps: &'a [String; 14]) -> (spinner: Spinner<'a>)
        ensures
            spinner.pictures() == steps@,
            spinner.shown() == 0,
            spinner.upcoming() == 0,
    {
        Spinner { steps, shown: 0, upcoming: 0 }
    }

    /// Goes back to the first step.
    pub fn reset(&mut self)
        ensures
            final(self).pictures() == old(self).pictures(),
            final(self).shown() == 0,
            final(self).upcoming() == 0,
    {
        proof {
            use_type_invariant(&*self);
        }
        self.shown = 0;
        self.upcoming = 0;
    }

    /// Whether a step shown for `elapsed` milliseconds is to be followed by
    /// the next one.
    pub fn is_due(elapsed: u128) -> (yes: bool)
        ensures
            yes == due(elapsed),
    {
        elapsed > SPINNER_RATE
    }

    /// The step to show after the shown one has been up for `elapsed`
    /// milliseconds: the same one until it is due, then the upcoming one.
    pub fn next(&mut self, elapsed: u128) -> (picture: Option<&'a str>)
        ensures
            0 <= old(self).shown() < STEPS,
            0 <= old(self).upcoming() < STEPS,
            final(self).pictures() == old(self).pictures(),
            due(elapsed) ==> final(self).shown() == old(self).upcoming() && final(self).upcoming()
                == (old(self).upcoming() + 1) % (STEPS as int),
            !due(elapsed) ==> final(self).shown() == old(self).shown() && final(self).upcoming()
                == old(self).upcoming(),
            picture is Some,
            picture.unwrap()@ == final(self).pictures()[final(self).shown()]@,
    {
        proof {
            use_type_invariant(&*self);
        }
        if elapsed > SPINNER_RATE {
            self.shown = self.upcoming;
            self.upcoming = if self.upcoming + 1 == STEPS {
                0
            } else {
                self.upcoming + 1
            };
        }
        Some(self.steps[self.shown].as_str())
    }
}

} // verus!
