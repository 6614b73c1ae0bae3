//! What the `meh` program does when it was built without its command-line
//! front end.
use vstd::prelude::*;

verus! {

/// The error of a `meh` program built without its command-line front end.
pub struct E;

impl E {
    /// The text of the error, telling how to rebuild the program.
    pub fn message(&self) -> (text: String)
        ensures
            text@ == "Please re-run with the flag --features bin"@,
    {
        String::from_str("Please re-run with the flag --features bin")
    }
}

/// The entry point of a `meh` program built without its command-line front
/// end: it always fails with `E`.
pub fn mod_main() -> (result: Result<(), E>)
    ensures
        result is Err,
{
    Err(E)
}

} // verus!
