//! Prints a numbered greeting a requested number of times.
//!
//! The library holds every decision of the program: reading the iteration
//! count out of the invocation arguments, the text of each output line, and
//! the order in which the lines come out. Writing to the streams is left to
//! the caller.
pub mod decimal;
pub mod invocation;
pub mod program;
pub mod runner;
