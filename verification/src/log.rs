//! Which diagnostic messages are written, and in what form.

use vstd::prelude::*;
use vstd::string::StringExecFns;
use crate::config::Config;
use crate::syscall::Level;

verus! {

/// The line to write for a debug message, if any.
pub open spec fn debug_line(message: Seq<char>, config: Config) -> Option<Seq<char>> {
    if config.wants_debug() {
        Some("[debug] "@ + message)
    } else {
        None
    }
}

/// The line to write for a verbose message, if any.
pub open spec fn verbose_line(message: Seq<char>, config: Config) -> Option<Seq<char>> {
    if config.wants_verbose() {
        Some(message)
    } else {
        None
    }
}

/// Whether a reader with the settings `config` is told of remarks at `level`.
pub open spec fn is_told(level: Level, config: Config) -> bool {
    match level {
        Level::Debug => config.wants_debug(),
        Level::Verbose => config.wants_verbose(),
    }
}

/// Whether a reader with the settings `config` is told of remarks at `level`.
pub fn told(level: Level, config: Config) -> (r: bool)
    ensures
        r == is_told(level, config),
{
    match level {
        Level::Debug => config.debug,
        Level::Verbose => config.debug || config.verbose,
    }
}

/// The line that reports `message` at debug level, or `None` where the
/// configuration asks for no debug output.
pub fn debug(message: &str, config: Config) -> (r: Option<String>)
    ensures
        match r {
            Some(line) => debug_line(message@, config) == Some(line@),
            None => debug_line(message@, config) is None,
        },
{
    if config.debug {
        Some(String::from_str("[debug] ").concat(message))
    } else {
        None
    }
}

/// The line that reports `message` at verbose level, or `None` where the
/// configuration asks for neither verbose nor debug output.
pub fn verbose(message: &str, config: Config) -> (r: Option<String>)
    ensures
        match r {
            Some(line) => verbose_line(message@, config) == Some(line@),
            None => verbose_line(message@, config) is None,
        },
{
    if config.debug || config.verbose {
        Some(String::from_str(message))
    } else {
        None
    }
}

} // verus!
