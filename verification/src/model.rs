//! The controller as a state machine over plain values: what it knows, what may
//! happen to it, and what it asks for next.
//!
//! The controller performs nothing itself. Whoever drives it carries out each `Action`
//! and reports what came of it as the next event.

use crate::error::IoWatchError;
use crate::matcher::{build_outcome, Rules};
use vstd::prelude::*;

verus! {

/// How the platform starts a shell and stops a process.
#[derive(Clone, Copy, Debug, PartialEq, Eq)]
pub enum Platform {
    /// A POSIX system: `sh -c`, and signals sent to process groups.
    Unix,
    /// Windows: `cmd /c`, and the child killed directly.
    Windows,
}

/// Why the running utility is being stopped.
#[derive(Clone, Copy, Debug, PartialEq, Eq)]
pub enum Goal {
    /// To start it afresh.
    Rerun,
    /// To leave.
    Shutdown,
}

/// What a signal is sent to, or what is waited for.
#[derive(Clone, Copy, Debug, PartialEq, Eq)]
pub enum Target {
    /// Every process of a process group.
    Group { pgid: i32 },
    /// One process.
    Process { pid: u32 },
}

/// Where the controller stands: which answer it is waiting for.
#[derive(Clone, Copy, Debug, PartialEq, Eq)]
pub enum Phase {
    /// Nothing has been asked for yet.
    Created,
    /// The file-system watcher is being created.
    OpeningWatcher,
    /// The watch target at this index is being registered.
    Registering { target: usize },
    /// The ignore files are being read.
    LoadingRules,
    /// The interrupt handler is being installed.
    InstallingInterrupt,
    /// The process group of the running utility is being looked up.
    Locating { goal: Goal },
    /// The kill signal is being sent.
    Signalling { goal: Goal, to: Target },
    /// The signalled processes are being waited for.
    Reaping { goal: Goal },
    /// The terminal is being cleared.
    Clearing,
    /// The delay between runs is being slept.
    Sleeping,
    /// The utility is being started.
    Spawning,
    /// The controller waits for a change, the idle timeout or an interrupt.
    Waiting,
    /// The controller has finished.
    Exited,
}

/// What the controller asks its driver to do next.
#[derive(Clone, Copy, Debug, PartialEq, Eq)]
pub enum Action {
    /// Create the debounced file-system watcher.
    OpenWatcher,
    /// Register the watch target at this index, with its directories if `recursive`.
    Watch { target: usize, recursive: bool },
    /// Read the ignore files of the working directory.
    LoadIgnoreFiles,
    /// Install the interrupt handler.
    InstallInterrupt,
    /// Look up the process group of this process.
    FindGroup { pid: u32 },
    /// Send the configured kill signal.
    Signal { to: Target },
    /// Wait until what was signalled has exited.
    Reap { of: Target },
    /// Clear the terminal.
    ClearScreen,
    /// Sleep for this many milliseconds.
    Sleep { millis: u64 },
    /// Start the utility in a process group of its own.
    Spawn,
    /// Block until a change, or an interrupt, arrives.
    Wait,
    /// Block until a change or an interrupt arrives, or this many seconds have passed.
    WaitAtMost { secs: u64 },
    /// Stop, with success.
    Finish,
    /// Stop, with this error.
    Fail { error: IoWatchError },
}

/// One changed path of a batch.
pub struct Change {
    pub path: Seq<char>,
    pub is_dir: bool,
}

/// What happened: the answer to the last action.
pub enum EventView {
    /// The driver is ready.
    Start,
    /// The last action succeeded.
    Done,
    /// The last action failed.
    Failed,
    /// The working directory and the contents of the ignore files found in it.
    IgnoreFiles { root: Seq<char>, files: Seq<Seq<char>> },
    /// The process is alive and belongs to this group.
    Group { pgid: i32 },
    /// The process does not exist any more.
    NoSuchProcess,
    /// The utility runs, as this process.
    Spawned { pid: u32 },
    /// A debounced batch of changed paths.
    Changes { records: Seq<Change> },
    /// A batch that carried delivery errors only.
    DeliveryErrors,
    /// Nothing happened for the configured time.
    IdleTimeout,
    /// The user interrupted the watcher.
    Interrupt,
}

/// The options that the controller was made with.
#[verifier::ext_equal]
pub struct Config {
    pub clear_term: bool,
    pub postpone: bool,
    pub recursive: bool,
    pub exit_after: bool,
    /// Seconds without an event after which the utility is run again, if any.
    pub timeout: Option<u64>,
    /// Milliseconds to sleep before every run but the first.
    pub delay: u64,
    pub kill_signal: Seq<char>,
    /// The program to run, followed by its arguments.
    pub command: Seq<Seq<char>>,
    pub targets: Seq<Seq<char>>,
    pub platform: Platform,
}

/// Everything the controller knows.
#[verifier::ext_equal]
pub struct State {
    pub config: Config,
    pub phase: Phase,
    /// The process that currently runs the utility, if any.
    pub child: Option<u32>,
    /// Whether the utility has not been started yet.
    pub first_run: bool,
    /// The ignore rules, once they are loaded.
    pub rules: Option<Rules>,
}

impl Config {
    /// A configuration names something to watch and something to run.
    pub open spec fn wf(self) -> bool {
        self.targets.len() > 0 && self.command.len() > 0
    }
}

impl State {
    /// The state in which a controller starts.
    pub open spec fn initial(config: Config) -> State {
        State { config: config, phase: Phase::Created, child: None, first_run: true, rules: None }
    }

    /// The same state in another phase.
    pub open spec fn at(self, phase: Phase) -> State {
        State { phase: phase, ..self }
    }

    /// Whether the controller is still setting up.
    pub open spec fn starting(self) -> bool {
        self.phase is Created || self.phase is OpeningWatcher || self.phase is Registering
            || self.phase is LoadingRules || self.phase is InstallingInterrupt
    }

    /// What holds of every state that a controller reaches:
    /// - there is something to watch and something to run;
    /// - a target that is being registered exists;
    /// - during start-up nothing runs and nothing has run;
    /// - a process is being stopped only while one is current;
    /// - between the end of a termination and the next spawn none is current.
    pub open spec fn wf(self) -> bool {
        &&& self.config.wf()
        &&& self.config.targets.len() <= usize::MAX
        &&& self.phase matches Phase::Registering { target } ==> target < self.config.targets.len()
        &&& self.starting() ==> self.child is None && self.first_run
        &&& self.phase is Locating || self.phase is Signalling || self.phase is Reaping
            ==> self.child is Some
        &&& self.phase is Clearing || self.phase is Sleeping || self.phase is Spawning
            ==> self.child is None
    }
}

/// Whether the rules, if any are loaded, ignore the change.
pub open spec fn ignored(rules: Option<Rules>, change: Change) -> bool {
    rules matches Some(r) && r.ignores(change.path, change.is_dir)
}

/// Whether a batch calls for a run: it holds a change that is not ignored.
pub open spec fn relevant(rules: Option<Rules>, records: Seq<Change>) -> bool {
    exists|i: int| 0 <= i < records.len() && !ignored(rules, #[trigger] records[i])
}

/// Stop for good, with an error.
pub open spec fn fail(s: State, error: IoWatchError) -> (State, Action) {
    (s.at(Phase::Exited), Action::Fail { error: error })
}

/// Go back to waiting for events.
pub open spec fn wait(s: State) -> (State, Action) {
    (
        s.at(Phase::Waiting),
        match s.config.timeout {
            Some(secs) => Action::WaitAtMost { secs: secs },
            None => Action::Wait,
        },
    )
}

/// Register the target at index `i`, or go on to the ignore files when all are done.
pub open spec fn watch_step(s: State, i: int) -> (State, Action) {
    if 0 <= i < s.config.targets.len() {
        (
            s.at(Phase::Registering { target: i as usize }),
            Action::Watch { target: i as usize, recursive: s.config.recursive },
        )
    } else {
        (s.at(Phase::LoadingRules), Action::LoadIgnoreFiles)
    }
}

/// Start the utility.
pub open spec fn spawn_step(s: State) -> (State, Action) {
    (s.at(Phase::Spawning), Action::Spawn)
}

/// Sleep before the spawn, on every run but the first and where a delay is set.
pub open spec fn delay_step(s: State) -> (State, Action) {
    if !s.first_run && s.config.delay > 0 {
        (s.at(Phase::Sleeping), Action::Sleep { millis: s.config.delay })
    } else {
        spawn_step(s)
    }
}

/// Clear the terminal before the spawn, where that is asked for.
pub open spec fn clear_step(s: State) -> (State, Action) {
    if s.config.clear_term {
        (s.at(Phase::Clearing), Action::ClearScreen)
    } else {
        delay_step(s)
    }
}

/// The utility is known to be gone: no process is current, and what the termination
/// was for comes next.
pub open spec fn after_terminate(s: State, goal: Goal) -> (State, Action) {
    let idle = State { child: None, ..s };
    match goal {
        Goal::Rerun => clear_step(idle),
        Goal::Shutdown => (idle.at(Phase::Exited), Action::Finish),
    }
}

/// Stop the running utility, then go on with `goal`. Without a running utility there
/// is nothing to stop.
pub open spec fn terminate_then(s: State, goal: Goal) -> (State, Action) {
    match s.child {
        None => after_terminate(s, goal),
        Some(pid) => match s.config.platform {
            Platform::Unix => (s.at(Phase::Locating { goal: goal }), Action::FindGroup { pid: pid }),
            Platform::Windows => {
                let to = Target::Process { pid: pid };
                (s.at(Phase::Signalling { goal: goal, to: to }), Action::Signal { to: to })
            },
        },
    }
}

/// The spawn was tried: the new process, if there is one, is current, the first run is
/// over, and the controller leaves or waits.
pub open spec fn after_spawn(s: State, child: Option<u32>) -> (State, Action) {
    let ran = State { child: child, first_run: false, ..s };
    if s.config.exit_after {
        (ran.at(Phase::Exited), Action::Finish)
    } else {
        wait(ran)
    }
}

/// What follows an event while the controller sets itself up: the watcher is
/// created, the targets are registered one after the other, the ignore files are
/// loaded, the interrupt handler is installed, and the first run starts unless it is
/// postponed. Any failure ends the controller.
pub open spec fn next_starting(s: State, e: EventView) -> (State, Action) {
    match s.phase {
        Phase::Created => match e {
            EventView::Start => (s.at(Phase::OpeningWatcher), Action::OpenWatcher),
            _ => fail(s, IoWatchError::UnexpectedEvent),
        },
        Phase::OpeningWatcher => match e {
            EventView::Done => watch_step(s, 0),
            EventView::Failed => fail(s, IoWatchError::WatcherFailed),
            _ => fail(s, IoWatchError::UnexpectedEvent),
        },
        Phase::Registering { target } => match e {
            EventView::Done => watch_step(s, target + 1),
            EventView::Failed => fail(s, IoWatchError::WatchFailed { target: target }),
            _ => fail(s, IoWatchError::UnexpectedEvent),
        },
        Phase::LoadingRules => match e {
            EventView::IgnoreFiles { root, files } => match build_outcome(root, files) {
                Ok(rules) => (
                    State { rules: Some(rules), ..s }.at(Phase::InstallingInterrupt),
                    Action::InstallInterrupt,
                ),
                Err(error) => fail(s, error),
            },
            EventView::Failed => fail(s, IoWatchError::IgnoreUnreadable),
            _ => fail(s, IoWatchError::UnexpectedEvent),
        },
        _ => match e {
            EventView::Done => if s.config.postpone {
                wait(s)
            } else {
                terminate_then(s, Goal::Rerun)
            },
            EventView::Failed => fail(s, IoWatchError::InterruptFailed),
            _ => fail(s, IoWatchError::UnexpectedEvent),
        },
    }
}

/// What follows an event while the running utility is being stopped: its process
/// group is looked up, signalled and waited for. A process that is gone needs neither
/// signal nor wait. Any failure ends the controller.
pub open spec fn next_stopping(s: State, e: EventView) -> (State, Action) {
    match s.phase {
        Phase::Locating { goal } => match e {
            EventView::Group { pgid } => {
                let to = Target::Group { pgid: pgid };
                (s.at(Phase::Signalling { goal: goal, to: to }), Action::Signal { to: to })
            },
            EventView::NoSuchProcess => after_terminate(s, goal),
            EventView::Failed => fail(s, IoWatchError::TerminateFailed),
            _ => fail(s, IoWatchError::UnexpectedEvent),
        },
        Phase::Signalling { goal, to } => match e {
            EventView::Done => (s.at(Phase::Reaping { goal: goal }), Action::Reap { of: to }),
            EventView::Failed => fail(s, IoWatchError::TerminateFailed),
            _ => fail(s, IoWatchError::UnexpectedEvent),
        },
        Phase::Reaping { goal } => match e {
            EventView::Done => after_terminate(s, goal),
            EventView::Failed => fail(s, IoWatchError::TerminateFailed),
            _ => fail(s, IoWatchError::UnexpectedEvent),
        },
        _ => fail(s, IoWatchError::UnexpectedEvent),
    }
}

/// What follows an event while the utility is being started: the terminal is cleared,
/// the delay is slept, the utility is spawned. A terminal that cannot be cleared and a
/// utility that cannot be started are no reason to stop.
pub open spec fn next_running(s: State, e: EventView) -> (State, Action) {
    match s.phase {
        Phase::Clearing => match e {
            EventView::Done => delay_step(s),
            EventView::Failed => delay_step(s),
            _ => fail(s, IoWatchError::UnexpectedEvent),
        },
        Phase::Sleeping => match e {
            EventView::Done => spawn_step(s),
            _ => fail(s, IoWatchError::UnexpectedEvent),
        },
        Phase::Spawning => match e {
            EventView::Spawned { pid } => after_spawn(s, Some(pid)),
            EventView::Failed => after_spawn(s, None),
            _ => fail(s, IoWatchError::UnexpectedEvent),
        },
        _ => fail(s, IoWatchError::UnexpectedEvent),
    }
}

/// What follows an event while the controller waits: a batch with a change that
/// counts and the idle timeout start a run, an interrupt stops the utility and ends
/// the controller, and a batch without such a change, or of delivery errors, leaves
/// the controller waiting.
pub open spec fn next_waiting(s: State, e: EventView) -> (State, Action) {
    match e {
        EventView::Changes { records } => if relevant(s.rules, records) {
            terminate_then(s, Goal::Rerun)
        } else {
            wait(s)
        },
        EventView::DeliveryErrors => wait(s),
        EventView::IdleTimeout => if s.config.timeout is Some {
            terminate_then(s, Goal::Rerun)
        } else {
            fail(s, IoWatchError::UnexpectedEvent)
        },
        EventView::Interrupt => terminate_then(s, Goal::Shutdown),
        EventView::Failed => fail(s, IoWatchError::ChannelFailed),
        _ => fail(s, IoWatchError::UnexpectedEvent),
    }
}

/// The state that follows `s` on event `e`, and what the controller asks for. An event
/// that answers nothing the controller asked for ends it, and so does every event
/// once it has ended.
pub open spec fn next(s: State, e: EventView) -> (State, Action) {
    if s.starting() {
        next_starting(s, e)
    } else if s.phase is Locating || s.phase is Signalling || s.phase is Reaping {
        next_stopping(s, e)
    } else if s.phase is Clearing || s.phase is Sleeping || s.phase is Spawning {
        next_running(s, e)
    } else if s.phase is Waiting {
        next_waiting(s, e)
    } else {
        fail(s, IoWatchError::UnexpectedEvent)
    }
}

/// The state that the controller is in after the events, fed one after the other.
pub open spec fn state_after(s: State, events: Seq<EventView>) -> State
    decreases events.len(),
{
    if events.len() == 0 {
        s
    } else {
        next(state_after(s, events.drop_last()), events.last()).0
    }
}

/// What the controller asks for in answer to the events: one action for each.
pub open spec fn actions_for(s: State, events: Seq<EventView>) -> Seq<Action>
    decreases events.len(),
{
    if events.len() == 0 {
        Seq::empty()
    } else {
        actions_for(s, events.drop_last()).push(
            next(state_after(s, events.drop_last()), events.last()).1,
        )
    }
}

} // verus!
