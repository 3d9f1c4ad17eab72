//! The ways in which the watcher gives up.

use vstd::prelude::*;

verus! {

/// Why the watcher could not be set up, or why it stopped.
#[derive(Clone, Copy, Debug, PartialEq, Eq)]
pub enum IoWatchError {
    /// Neither the command line nor standard input named anything to watch.
    NoFilesToWatch,
    /// No utility was given to run.
    EmptyCommand,
    /// The kill signal's name is not one that the platform knows.
    UnknownSignal,
    /// The file-system watcher could not be created.
    WatcherFailed,
    /// The watch target at this index could not be registered.
    WatchFailed { target: usize },
    /// The ignore files, or the directory they live in, could not be read.
    IgnoreUnreadable,
    /// The directory of the ignore files is not an absolute path.
    RootNotAbsolute,
    /// A line of an ignore file is no valid pattern: the file's index among the files
    /// that were read, and the line's index in it.
    MalformedIgnore { file: usize, line: usize },
    /// The patterns of the ignore files could not be compiled into a matcher.
    IgnoreCompile,
    /// The interrupt handler could not be installed.
    InterruptFailed,
    /// The running utility could not be found, signalled or waited for.
    TerminateFailed,
    /// The channel that delivers file-system events broke.
    ChannelFailed,
    /// An event arrived that answers no request the controller had made.
    UnexpectedEvent,
}

} // verus!
