//! The names of kill signals, as the `nix` crate knows them.

use nix::sys::signal::Signal;
use vstd::prelude::*;

verus! {

/// The signal names that `nix` knows on every platform.
pub open spec fn portable_signal(name: Seq<char>) -> bool {
    ||| name == "SIGHUP"@
    ||| name == "SIGINT"@
    ||| name == "SIGQUIT"@
    ||| name == "SIGILL"@
    ||| name == "SIGTRAP"@
    ||| name == "SIGABRT"@
    ||| name == "SIGBUS"@
    ||| name == "SIGFPE"@
    ||| name == "SIGKILL"@
    ||| name == "SIGUSR1"@
    ||| name == "SIGSEGV"@
    ||| name == "SIGUSR2"@
    ||| name == "SIGPIPE"@
    ||| name == "SIGALRM"@
    ||| name == "SIGTERM"@
    ||| name == "SIGCHLD"@
    ||| name == "SIGCONT"@
    ||| name == "SIGSTOP"@
    ||| name == "SIGTSTP"@
    ||| name == "SIGTTIN"@
    ||| name == "SIGTTOU"@
    ||| name == "SIGURG"@
    ||| name == "SIGXCPU"@
    ||| name == "SIGXFSZ"@
    ||| name == "SIGVTALRM"@
    ||| name == "SIGPROF"@
    ||| name == "SIGWINCH"@
    ||| name == "SIGSYS"@
}

/// The signal names that `nix` knows on some platforms only.
pub open spec fn local_signal(name: Seq<char>) -> bool {
    ||| name == "SIGSTKFLT"@
    ||| name == "SIGIO"@
    ||| name == "SIGPWR"@
    ||| name == "SIGEMT"@
    ||| name == "SIGINFO"@
}

/// Whether `nix` can parse `name` as a signal (`Signal::from_str`). The name must be one
/// of a fixed list, written exactly; a few of them exist on some platforms only, and of
/// those nothing is claimed.
#[verifier::external_body]
pub(crate) fn signal_is_known(name: &str) -> (known: bool)
    ensures
        portable_signal(name@) ==> known,
        known ==> portable_signal(name@) || local_signal(name@),
{
    name.parse::<Signal>().is_ok()
}

} // verus!
