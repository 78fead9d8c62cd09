//! The settings of one run.

use vstd::prelude::*;
use crate::output::Output;

verus! {

/// What the caller asked for: how much to say, and in which format.
#[derive(Clone, Copy, Debug, PartialEq, Eq, Structural)]
pub struct Config {
    pub debug: bool,
    pub verbose: bool,
    pub output: Output,
}

/// No output format was given.
#[derive(Clone, Copy, Debug, PartialEq, Eq, Structural)]
pub struct NoOutputFormat;

impl NoOutputFormat {
    /// What to tell the user.
    pub fn message(&self) -> (r: &'static str)
        ensures
            r@ == "no output format specified"@,
    {
        "no output format specified"
    }
}

impl Config {
    /// The settings that the arguments of a run stand for. Fails where no
    /// output format is among them.
    pub fn from_flags(debug: bool, verbose: bool, output: Option<Output>) -> (r: Result<
        Config,
        NoOutputFormat,
    >)
        ensures
            match output {
                Some(format) => r == Ok::<Config, NoOutputFormat>(
                    Config { debug, verbose, output: format },
                ),
                None => r is Err,
            },
    {
        match output {
            Some(format) => Ok(Config { debug, verbose, output: format }),
            None => Err(NoOutputFormat),
        }
    }

    /// Whether debug messages are wanted.
    pub open spec fn wants_debug(self) -> bool {
        self.debug
    }

    /// Whether verbose messages are wanted: asking for debug messages asks for these too.
    pub open spec fn wants_verbose(self) -> bool {
        self.debug || self.verbose
    }
}

impl Default for Config {
    fn default() -> (r: Config)
        ensures
            !r.debug,
            !r.verbose,
            r.output == Output::Table,
    {
        Config { debug: false, verbose: false, output: Output::Table }
    }
}

} // verus!
