//! The command line of the search tool, as the library takes it.

use vstd::prelude::*;

verus! {

/// Search a file for a string.
#[derive(Clone, Debug, PartialEq, Eq)]
pub struct FindOpt {
    /// The file to search.
    pub file: String,
    /// The string to look for.
    pub search: String,
}

/// Print a file.
#[derive(Clone, Debug, PartialEq, Eq)]
pub struct ShowOpt {
    /// The file to print.
    pub file: String,
}

/// The subcommands.
#[derive(Clone, Debug, PartialEq, Eq)]
pub enum App {
    Find(FindOpt),
    Show(ShowOpt),
    /// Run the echo server.
    Serve,
}

/// The parsed command line: a subcommand, if one was given.
#[derive(Clone, Debug, PartialEq, Eq)]
pub struct Opts {
    pub commands: Option<App>,
}

} // verus!
