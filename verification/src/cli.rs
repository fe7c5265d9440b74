//! The requests that a command line can make.

use vstd::prelude::*;

verus! {

/// One request.
#[derive(Clone, Debug, PartialEq, Eq)]
pub enum Command {
    /// Build `source_file` if need be and run it, feeding it the file at
    /// `stdin` where one is given.
    Run { source_file: String, stdin: Option<String> },
    /// Build every source file under the working directory whose extension
    /// has a configuration entry.
    BuildAll,
}

/// A parsed command line.
#[derive(Clone, Debug, PartialEq, Eq)]
pub struct Cli {
    /// The request, where the command line names one.
    pub subcommand: Option<Command>,
}

impl Cli {
    /// The request to carry out: the one that was named, or building
    /// everything where none was.
    pub fn request(self) -> (command: Command)
        ensures
            command == match self.subcommand {
                Some(named) => named,
                None => Command::BuildAll,
            },
    {
        match self.subcommand {
            Some(named) => named,
            None => Command::BuildAll,
        }
    }
}

} // verus!
