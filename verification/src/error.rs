//! What can go wrong while the command line is read.

use vstd::prelude::*;

verus! {

/// An error of the command-line reader.
#[derive(Debug, PartialEq, Eq)]
pub enum Error {
    /// More arguments were expected.
    Expected,
    /// No argument is left.
    ArgsEmpty,
    /// No rule is known for the argument.
    Unknown { arg: String },
    /// The argument is not a number of the kind that its flag takes.
    Invalid { arg: String },
}

} // verus!
