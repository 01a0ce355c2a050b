//! Declared flags and the table that holds them.

use vstd::prelude::*;
use vstd::string::StringExecFns;

verus! {

/// A declared option.
///
/// `identifier` is the stable name the caller dispatches on; `short` and
/// `long` are what the user types after `-` and `--`.
#[derive(Debug, Clone, PartialEq, Eq)]
pub struct Flag {
    pub identifier: String,
    pub short: char,
    pub long: String,
    pub takes_value: bool,
}

/// What a [`Flag`] is, with its texts as sequences of characters.
pub struct FlagView {
    pub identifier: Seq<char>,
    pub short: char,
    pub long: Seq<char>,
    pub takes_value: bool,
}

impl View for Flag {
    type V = FlagView;

    open spec fn view(&self) -> FlagView {
        FlagView {
            identifier: self.identifier@,
            short: self.short,
            long: self.long@,
            takes_value: self.takes_value,
        }
    }
}

impl DeepView for Flag {
    type V = FlagView;

    open spec fn deep_view(&self) -> FlagView {
        self@
    }
}

/// The first flag of `table`, in registration order, whose short character
/// is `c`.
pub open spec fn lookup_short(table: Seq<FlagView>, c: char) -> Option<FlagView>
    decreases table.len(),
{
    if table.len() == 0 {
        None
    } else if table.first().short == c {
        Some(table.first())
    } else {
        lookup_short(table.drop_first(), c)
    }
}

/// The first flag of `table`, in registration order, whose long name is
/// `name`.
pub open spec fn lookup_long(table: Seq<FlagView>, name: Seq<char>) -> Option<FlagView>
    decreases table.len(),
{
    if table.len() == 0 {
        None
    } else if table.first().long == name {
        Some(table.first())
    } else {
        lookup_long(table.drop_first(), name)
    }
}

/// A flag is found by its short character exactly when some entry carries
/// it, and the entry found is the earliest one that does.
pub proof fn lemma_lookup_short_first(table: Seq<FlagView>, c: char)
    ensures
        match lookup_short(table, c) {
            Some(flag) => exists|i: int|
                0 <= i < table.len() && table[i] == flag && flag.short == c && forall|j: int|
                    0 <= j < i ==> table[j].short != c,
            None => forall|i: int| 0 <= i < table.len() ==> table[i].short != c,
        },
    decreases table.len(),
{
    if table.len() == 0 {
    } else if table.first().short == c {
        assert(table[0] == table.first());
    } else {
        let rest = table.drop_first();
        lemma_lookup_short_first(rest, c);
        assert(forall|i: int| 0 <= i < rest.len() ==> rest[i] == table[i + 1]);
        match lookup_short(rest, c) {
            Some(flag) => {
                let i = choose|i: int|
                    0 <= i < rest.len() && rest[i] == flag && flag.short == c && forall|j: int|
                        0 <= j < i ==> rest[j].short != c;
                assert forall|j: int| 0 <= j < i + 1 implies table[j].short != c by {
                    if j > 0 {
                        assert(rest[j - 1] == table[j]);
                    }
                }
                assert(table[i + 1] == flag);
            },
            None => {
                assert forall|i: int| 0 <= i < table.len() implies table[i].short != c by {
                    if i > 0 {
                        assert(rest[i - 1] == table[i]);
                    }
                }
            },
        }
    }
}

/// A flag is found by its long name exactly when some entry carries it, and
/// the entry found is the earliest one that does.
pub proof fn lemma_lookup_long_first(table: Seq<FlagView>, name: Seq<char>)
    ensures
        match lookup_long(table, name) {
            Some(flag) => exists|i: int|
                0 <= i < table.len() && table[i] == flag && flag.long == name && forall|j: int|
                    0 <= j < i ==> table[j].long != name,
            None => forall|i: int| 0 <= i < table.len() ==> table[i].long != name,
        },
    decreases table.len(),
{
    if table.len() == 0 {
    } else if table.first().long == name {
        assert(table[0] == table.first());
    } else {
        let rest = table.drop_first();
        lemma_lookup_long_first(rest, name);
        assert(forall|i: int| 0 <= i < rest.len() ==> rest[i] == table[i + 1]);
        match lookup_long(rest, name) {
            Some(flag) => {
                let i = choose|i: int|
                    0 <= i < rest.len() && rest[i] == flag && flag.long == name && forall|j: int|
                        0 <= j < i ==> rest[j].long != name;
                assert forall|j: int| 0 <= j < i + 1 implies table[j].long != name by {
                    if j > 0 {
                        assert(rest[j - 1] == table[j]);
                    }
                }
                assert(table[i + 1] == flag);
            },
            None => {
                assert forall|i: int| 0 <= i < table.len() implies table[i].long != name by {
                    if i > 0 {
                        assert(rest[i - 1] == table[i]);
                    }
                }
            },
        }
    }
}

/// Skipping entries that do not carry `c` does not change what is found.
proof fn lemma_lookup_short_skip(table: Seq<FlagView>, c: char, n: int)
    requires
        0 <= n <= table.len(),
        forall|j: int| 0 <= j < n ==> table[j].short != c,
    ensures
        lookup_short(table, c) == lookup_short(table.skip(n), c),
    decreases n,
{
    if n == 0 {
        assert(table.skip(0) =~= table);
    } else {
        assert(table.first() == table[0]);
        let rest = table.drop_first();
        assert forall|j: int| 0 <= j < n - 1 implies rest[j].short != c by {
            assert(rest[j] == table[j + 1]);
        }
        lemma_lookup_short_skip(rest, c, n - 1);
        assert(rest.skip(n - 1) =~= table.skip(n));
    }
}

/// Skipping entries that do not carry `name` does not change what is found.
proof fn lemma_lookup_long_skip(table: Seq<FlagView>, name: Seq<char>, n: int)
    requires
        0 <= n <= table.len(),
        forall|j: int| 0 <= j < n ==> table[j].long != name,
    ensures
        lookup_long(table, name) == lookup_long(table.skip(n), name),
    decreases n,
{
    if n == 0 {
        assert(table.skip(0) =~= table);
    } else {
        assert(table.first() == table[0]);
        let rest = table.drop_first();
        assert forall|j: int| 0 <= j < n - 1 implies rest[j].long != name by {
            assert(rest[j] == table[j + 1]);
        }
        lemma_lookup_long_skip(rest, name, n - 1);
        assert(rest.skip(n - 1) =~= table.skip(n));
    }
}

/// The declared flags, in the order of their registration.
///
/// Nothing keeps two flags from sharing a short character or a long name:
/// a lookup answers with the one registered first.
pub struct FlagTable {
    flags: Vec<Flag>,
}

impl View for FlagTable {
    type V = Seq<FlagView>;

    closed spec fn view(&self) -> Seq<FlagView> {
        self.flags.deep_view()
    }
}

impl FlagTable {
    /// A table without flags.
    pub fn new() -> (table: FlagTable)
        ensures
            table@ == Seq::<FlagView>::empty(),
    {
        let table = FlagTable { flags: Vec::new() };
        assert(table@ =~= Seq::<FlagView>::empty());
        table
    }

    /// Number of registered flags.
    pub fn len(&self) -> (n: usize)
        ensures
            n == self@.len(),
    {
        self.flags.len()
    }

    /// The flag registered at position `i`.
    pub fn get(&self, i: usize) -> (flag: Option<&Flag>)
        ensures
            i < self@.len() ==> flag.is_some() && flag.unwrap()@ == self@[i as int],
            i >= self@.len() ==> flag.is_none(),
    {
        if i < self.flags.len() {
            Some(&self.flags[i])
        } else {
            None
        }
    }

    /// Appends a flag to the table.
    pub fn register(&mut self, identifier: &str, short: char, long: &str, takes_value: bool)
        ensures
            final(self)@ == old(self)@.push(
                FlagView { identifier: identifier@, short, long: long@, takes_value },
            ),
    {
        let flag = Flag {
            identifier: String::from_str(identifier),
            short,
            long: String::from_str(long),
            takes_value,
        };
        self.flags.push(flag);
        assert(self@ =~= old(self)@.push(flag@));
    }

    /// Finds a flag by its short character.
    pub fn find_short(&self, c: char) -> (found: Option<&Flag>)
        ensures
            found.deep_view() == lookup_short(self@, c),
    {
        let n = self.flags.len();
        let mut i: usize = 0;
        while i < n
            invariant
                n == self.flags.len(),
                i <= n,
                forall|j: int| 0 <= j < i ==> self@[j].short != c,
            decreases n - i,
        {
            if self.flags[i].short == c {
                proof {
                    lemma_lookup_short_skip(self@, c, i as int);
                    assert(self@.skip(i as int).first() == self.flags[i as int]@);
                }
                return Some(&self.flags[i]);
            }
            i = i + 1;
        }
        proof {
            lemma_lookup_short_skip(self@, c, n as int);
        }
        None
    }

    /// Finds a flag by its long name.
    pub fn find_long(&self, name: &String) -> (found: Option<&Flag>)
        ensures
            found.deep_view() == lookup_long(self@, name@),
    {
        let n = self.flags.len();
        let mut i: usize = 0;
        while i < n
            invariant
                n == self.flags.len(),
                i <= n,
                forall|j: int| 0 <= j < i ==> self@[j].long != name@,
            decreases n - i,
        {
            if self.flags[i].long == *name {
                proof {
                    lemma_lookup_long_skip(self@, name@, i as int);
                    assert(self@.skip(i as int).first() == self.flags[i as int]@);
                }
                return Some(&self.flags[i]);
            }
            i = i + 1;
        }
        proof {
            lemma_lookup_long_skip(self@, name@, n as int);
        }
        None
    }
}

} // verus!
