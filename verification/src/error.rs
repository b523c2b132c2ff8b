//! The error that a failed search is answered with.
use vstd::prelude::*;

verus! {

/// A failed request, with a note of what went wrong.
#[derive(Debug)]
pub struct MyError(pub String);

impl MyError {
    /// The text that a user is shown for any such error.
    pub fn message(&self) -> (res: String)
        ensures
            res@ == "A validation error occured on the input."@,
    {
        String::from_str("A validation error occured on the input.")
    }
}

} // verus!
