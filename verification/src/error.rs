//! The error that an operation of the backend ends in.

use vstd::prelude::*;

verus! {

/// A failed native operation, with the backend's own words for it.
#[derive(Debug)]
pub struct Error {
    msg: String,
}

impl View for Error {
    type V = Seq<char>;

    /// The message that the error carries.
    closed spec fn view(&self) -> Seq<char> {
        self.msg@
    }
}

impl Error {
    /// An error that carries `msg`.
    pub fn new(msg: String) -> (r: Self)
        ensures
            r@ == msg@,
    {
        Error { msg }
    }

    /// The message that the error carries.
    pub fn message(&self) -> (r: &str)
        ensures
            r@ == self@,
    {
        self.msg.as_str()
    }
}

} // verus!
