//! The error every fallible operation of the crate reports.

use vstd::prelude::*;
use vstd::std_specs::convert::FromSpec;
use vstd::string::StringExecFns;

verus! {

/// An error, known by its message.
#[derive(Debug, Clone)]
pub struct Error(String);

impl View for Error {
    type V = Seq<char>;

    closed spec fn view(&self) -> Seq<char> {
        self.0@
    }
}

impl Error {
    /// An error with `item` as its message.
    pub fn new(item: &str) -> (error: Error)
        ensures
            error@ == item@,
    {
        Error(String::from_str(item))
    }

    /// The message.
    pub fn to_string(&self) -> (message: String)
        ensures
            message@ == self@,
    {
        self.0.clone()
    }
}

impl From<String> for Error {
    fn from(error: String) -> (result: Error) {
        Error(error)
    }
}

impl vstd::std_specs::convert::FromSpecImpl<String> for Error {
    open spec fn obeys_from_spec() -> bool {
        true
    }

    closed spec fn from_spec(error: String) -> Error {
        Error(error)
    }
}

/// An error made from a text has that text as its message.
pub proof fn lemma_from_keeps_message(message: String)
    ensures
        <Error as FromSpec<String>>::from_spec(message)@ == message@,
{
}

} // verus!
