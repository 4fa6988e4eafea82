//! Reading the iteration count out of the invocation arguments.
use vstd::prelude::*;

use crate::decimal::{count_of, parse_count};

verus! {

/// Why an invocation cannot run.
#[derive(Clone, Copy, Debug, PartialEq, Eq, Structural)]
pub enum ArgError {
    /// No iteration count follows the program's name.
    MissingArgument,
    /// The iteration count is not a non-negative whole number that fits in a `usize`.
    InvalidIterationCount,
}

/// The usage line written when the iteration count is missing.
pub open spec fn usage_text() -> Seq<char> {
    "Usage: algorithm.exe <iterations>"@
}

/// The line written when the iteration count cannot be read.
pub open spec fn invalid_count_text() -> Seq<char> {
    "Please provide a valid number for iterations."@
}

impl ArgError {
    /// The line that reports this error on the error stream.
    pub open spec fn text(self) -> Seq<char> {
        match self {
            ArgError::MissingArgument => usage_text(),
            ArgError::InvalidIterationCount => invalid_count_text(),
        }
    }

    /// Builds the line that reports this error.
    pub fn message(&self) -> (r: String)
        ensures
            r@ == self.text(),
    {
        match self {
            ArgError::MissingArgument => String::from_str("Usage: algorithm.exe <iterations>"),
            ArgError::InvalidIterationCount => String::from_str(
                "Please provide a valid number for iterations.",
            ),
        }
    }
}

/// What an invocation asks for: `args[0]` names the program and `args[1]`,
/// which must be there, is the iteration count. Later arguments are ignored.
pub open spec fn requested_count(args: Seq<Seq<char>>) -> Result<nat, ArgError> {
    if args.len() < 2 {
        Err(ArgError::MissingArgument)
    } else {
        match count_of(args[1]) {
            Some(n) => Ok(n),
            None => Err(ArgError::InvalidIterationCount),
        }
    }
}

/// Reads the iteration count out of the invocation arguments.
pub fn iterations_from_args(args: &Vec<String>) -> (r: Result<usize, ArgError>)
    ensures
        match requested_count(args.deep_view()) {
            Ok(n) => r == Ok::<usize, ArgError>(n as usize),
            Err(e) => r == Err::<usize, ArgError>(e),
        },
{
    if args.len() < 2 {
        return Err(ArgError::MissingArgument);
    }
    assert(args.deep_view()[1] == args@[1]@);
    match parse_count(args[1].as_str()) {
        Some(n) => Ok(n),
        None => Err(ArgError::InvalidIterationCount),
    }
}

} // verus!
