//! The watcher: its options, how it is set up from the command line, and the
//! controller that decides when the utility is stopped and started.

use crate::error::IoWatchError;
use crate::laws::{law_run_keeps_wf, law_step_keeps_wf, lemma_actions_len};
use crate::matcher::{IgnoreMatcher, Rules};
use crate::model::{
    actions_for, after_spawn, after_terminate, clear_step, delay_step, fail, ignored, next,
    next_running, next_starting, next_stopping, next_waiting, relevant, spawn_step, state_after,
    terminate_then, wait, watch_step, Action, Change, Config, EventView, Goal, Phase, Platform,
    State, Target,
};
use crate::signal::{local_signal, portable_signal, signal_is_known};
use crate::text::{targets_in, watch_targets};
use vstd::prelude::*;
use vstd::string::StringExecFns;

verus! {

/// The options of the command line, as they were parsed.
#[derive(Debug)]
pub struct Cli {
    /// File or directory to watch. Where it is absent, the targets are read from
    /// standard input.
    pub input_file: Option<String>,
    /// Clear the screen before the utility is started.
    pub clear_term: bool,
    /// Do not start the utility before something changed.
    pub postpone: bool,
    /// Watch directories with all that is below them.
    pub recursive: bool,
    /// Hand the utility to the shell.
    pub use_shell: bool,
    /// Leave after the utility was started once.
    pub exit_after: bool,
    /// Seconds without an event after which the utility is started again.
    pub timeout: Option<u64>,
    /// Milliseconds to wait before the utility is started again.
    pub delay: u64,
    /// Name of the signal that stops the utility.
    pub kill_signal: String,
    /// The utility and its arguments.
    pub utility: Vec<String>,
}

/// One changed path of a batch, and whether it is a directory.
#[derive(Debug)]
pub struct ChangeRecord {
    pub path: String,
    pub is_dir: bool,
}

impl View for ChangeRecord {
    type V = Change;

    open spec fn view(&self) -> Change {
        Change { path: self.path@, is_dir: self.is_dir }
    }
}

impl DeepView for ChangeRecord {
    type V = Change;

    open spec fn deep_view(&self) -> Change {
        self@
    }
}

/// What happened: the answer to the last action.
#[derive(Debug)]
pub enum Event {
    /// The driver is ready.
    Start,
    /// The last action succeeded.
    Done,
    /// The last action failed.
    Failed,
    /// The working directory and the contents of the ignore files found in it.
    IgnoreFiles { root: String, files: Vec<String> },
    /// The process is alive and belongs to this group.
    Group { pgid: i32 },
    /// The process does not exist any more.
    NoSuchProcess,
    /// The utility runs, as this process.
    Spawned { pid: u32 },
    /// A debounced batch of changed paths.
    Changes { records: Vec<ChangeRecord> },
    /// A batch that carried delivery errors only.
    DeliveryErrors,
    /// Nothing happened for the configured time.
    IdleTimeout,
    /// The user interrupted the watcher.
    Interrupt,
}

impl View for Event {
    type V = EventView;

    open spec fn view(&self) -> EventView {
        match self {
            Event::Start => EventView::Start,
            Event::Done => EventView::Done,
            Event::Failed => EventView::Failed,
            Event::IgnoreFiles { root, files } => EventView::IgnoreFiles {
                root: root@,
                files: files.deep_view(),
            },
            Event::Group { pgid } => EventView::Group { pgid: *pgid },
            Event::NoSuchProcess => EventView::NoSuchProcess,
            Event::Spawned { pid } => EventView::Spawned { pid: *pid },
            Event::Changes { records } => EventView::Changes { records: records.deep_view() },
            Event::DeliveryErrors => EventView::DeliveryErrors,
            Event::IdleTimeout => EventView::IdleTimeout,
            Event::Interrupt => EventView::Interrupt,
        }
    }
}

impl DeepView for Event {
    type V = EventView;

    open spec fn deep_view(&self) -> EventView {
        self@
    }
}

/// The words that hand a command to the platform's shell: the shell named by the
/// environment, `/bin/sh` where it names none, each followed by `-c`; on Windows
/// `cmd /c`.
pub open spec fn shell_prefix(platform: Platform, shell: Option<String>) -> Seq<Seq<char>> {
    match platform {
        Platform::Windows => seq!["cmd"@, "/c"@],
        Platform::Unix => seq![
            match shell {
                Some(s) => s@,
                None => "/bin/sh"@,
            },
            "-c"@,
        ],
    }
}

/// The command that is run: the utility and its arguments, behind the shell's words
/// where the shell is asked for.
pub open spec fn command_of(cli: Cli, platform: Platform, shell: Option<String>) -> Seq<
    Seq<char>,
> {
    if cli.use_shell {
        shell_prefix(platform, shell) + cli.utility.deep_view()
    } else {
        cli.utility.deep_view()
    }
}

/// What is watched: the one path of the command line, or else what standard input names.
pub open spec fn targets_of(cli: Cli, stdin: Seq<char>) -> Seq<Seq<char>> {
    match cli.input_file {
        Some(file) => seq![file@],
        None => targets_in(stdin),
    }
}

/// The configuration that the command line, standard input and the environment give,
/// or why they give none. `signal_known` says whether the kill signal's name is one
/// that the platform knows.
pub open spec fn assembled(
    cli: Cli,
    stdin: Seq<char>,
    shell: Option<String>,
    platform: Platform,
    signal_known: bool,
) -> Result<Config, IoWatchError> {
    if targets_of(cli, stdin).len() == 0 {
        Err(IoWatchError::NoFilesToWatch)
    } else if cli.utility.len() == 0 {
        Err(IoWatchError::EmptyCommand)
    } else if !signal_known {
        Err(IoWatchError::UnknownSignal)
    } else {
        Ok(
            Config {
                clear_term: cli.clear_term,
                postpone: cli.postpone,
                recursive: cli.recursive,
                exit_after: cli.exit_after,
                timeout: cli.timeout,
                delay: cli.delay,
                kill_signal: cli.kill_signal@,
                command: command_of(cli, platform, shell),
                targets: targets_of(cli, stdin),
                platform: platform,
            },
        )
    }
}

/// The rules of a matcher, if there is one.
pub open spec fn rules_of(matcher: Option<IgnoreMatcher>) -> Option<Rules> {
    match matcher {
        Some(m) => Some(m@),
        None => None,
    }
}

/// The watcher: its options and the state of its controller.
#[derive(Debug)]
pub struct IoWatch {
    exit_after: bool,
    postpone: bool,
    recursive: bool,
    files: Vec<String>,
    timeout: Option<u64>,
    delay: u64,
    clear_term: bool,
    kill_sig: String,
    utility_cmd: Vec<String>,
    platform: Platform,
    utility_process: Option<u32>,
    first_run: bool,
    phase: Phase,
    matcher: Option<IgnoreMatcher>,
}

impl View for IoWatch {
    type V = State;

    closed spec fn view(&self) -> State {
        State {
            config: Config {
                clear_term: self.clear_term,
                postpone: self.postpone,
                recursive: self.recursive,
                exit_after: self.exit_after,
                timeout: self.timeout,
                delay: self.delay,
                kill_signal: self.kill_sig@,
                command: self.utility_cmd.deep_view(),
                targets: self.files.deep_view(),
                platform: self.platform,
            },
            phase: self.phase,
            child: self.utility_process,
            first_run: self.first_run,
            rules: rules_of(self.matcher),
        }
    }
}

impl IoWatch {
    /// There is something to watch and something to run, and a target that is being
    /// registered exists.
    #[verifier::type_invariant]
    spec fn usable(self) -> bool {
        &&& self.files.len() > 0
        &&& self.utility_cmd.len() > 0
        &&& self.phase matches Phase::Registering { target } ==> target < self.files.len()
    }

    /// The words that hand a command to the platform's shell. `shell` is the shell that
    /// the environment names, if it names one.
    pub fn get_shell_cmd(platform: Platform, shell: Option<String>) -> (words: Vec<String>)
        ensures
            words.deep_view() == shell_prefix(platform, shell),
    {
        let mut words: Vec<String> = Vec::new();
        match platform {
            Platform::Windows => {
                words.push(String::from_str("cmd"));
                words.push(String::from_str("/c"));
            },
            Platform::Unix => {
                match shell {
                    Some(s) => words.push(s),
                    None => words.push(String::from_str("/bin/sh")),
                }
                words.push(String::from_str("-c"));
            },
        }
        assert(words.deep_view() =~= shell_prefix(platform, shell));
        words
    }

    /// Sets the watcher up from the parsed command line, the text of standard input
    /// and the shell that the environment names. `signal_known` says whether the kill
    /// signal's name is one that the platform knows.
    ///
    /// Fails, in this order, where nothing is to be watched, where no utility is given,
    /// and where the signal is not known. The watcher starts with nothing asked for.
    pub fn assemble(
        cli: Cli,
        stdin: &str,
        shell: Option<String>,
        platform: Platform,
        signal_known: bool,
    ) -> (r: Result<IoWatch, IoWatchError>)
        ensures
            match r {
                Ok(w) => assembled(cli, stdin@, shell, platform, signal_known) == Ok::<
                    Config,
                    IoWatchError,
                >(w@.config) && w@ == State::initial(w@.config),
                Err(e) => assembled(cli, stdin@, shell, platform, signal_known) == Err::<
                    Config,
                    IoWatchError,
                >(e),
            },
            r matches Ok(w) ==> w@.wf(),
    {
        let Cli {
            input_file,
            clear_term,
            postpone,
            recursive,
            use_shell,
            exit_after,
            timeout,
            delay,
            kill_signal,
            utility,
        } = cli;
        let files = match input_file {
            Some(file) => {
                let mut one: Vec<String> = Vec::new();
                one.push(file);
                assert(one.deep_view() =~= seq![file@]);
                one
            },
            None => watch_targets(stdin),
        };
        if files.len() == 0 {
            return Err(IoWatchError::NoFilesToWatch);
        }
        if utility.len() == 0 {
            return Err(IoWatchError::EmptyCommand);
        }
        if !signal_known {
            return Err(IoWatchError::UnknownSignal);
        }
        let utility_cmd = if use_shell {
            let ghost prefix = shell_prefix(platform, shell);
            let ghost given = utility.deep_view();
            let mut words = IoWatch::get_shell_cmd(platform, shell);
            let mut rest = utility;
            words.append(&mut rest);
            assert(words.deep_view() =~= prefix + given);
            words
        } else {
            utility
        };
        let w = IoWatch {
            exit_after,
            postpone,
            recursive,
            files,
            timeout,
            delay,
            clear_term,
            kill_sig: kill_signal,
            utility_cmd,
            platform,
            utility_process: None,
            first_run: true,
            phase: Phase::Created,
            matcher: None,
        };
        assert(w@.config =~= assembled(cli, stdin@, shell, platform, signal_known)->Ok_0);
        Ok(w)
    }

    /// Sets the watcher up from the parsed command line, the text of standard input
    /// and the shell that the environment names. Fails where nothing is to be watched,
    /// where no utility is given, or where the kill signal's name is unknown.
    pub fn try_from(cli: Cli, stdin: &str, shell: Option<String>, platform: Platform) -> (r:
        Result<IoWatch, IoWatchError>)
        ensures
            setup_outcome(r) == assembled(cli, stdin@, shell, platform, true) || setup_outcome(r)
                == assembled(cli, stdin@, shell, platform, false),
            portable_signal(cli.kill_signal@) ==> setup_outcome(r) == assembled(
                cli,
                stdin@,
                shell,
                platform,
                true,
            ),
            !portable_signal(cli.kill_signal@) && !local_signal(cli.kill_signal@) ==> setup_outcome(r)
                == assembled(cli, stdin@, shell, platform, false),
            r matches Ok(w) ==> w@ == State::initial(w@.config) && w@.wf(),
    {
        let known = signal_is_known(cli.kill_signal.as_str());
        IoWatch::assemble(cli, stdin, shell, platform, known)
    }

    /// The same watcher in another phase.
    fn at(self, phase: Phase) -> (r: IoWatch)
        requires
            phase matches Phase::Registering { target } ==> target < self@.config.targets.len(),
        ensures
            r@ == self@.at(phase),
    {
        proof {
            use_type_invariant(&self);
        }
        IoWatch { phase, ..self }
    }

    /// Stop for good, with an error.
    fn fail(self, error: IoWatchError) -> (r: (IoWatch, Action))
        ensures
            r.0@ == fail(self@, error).0,
            r.1 == fail(self@, error).1,
    {
        (self.at(Phase::Exited), Action::Fail { error })
    }

    /// Go back to waiting for events.
    fn wait(self) -> (r: (IoWatch, Action))
        ensures
            r.0@ == wait(self@).0,
            r.1 == wait(self@).1,
    {
        let action = match self.timeout {
            Some(secs) => Action::WaitAtMost { secs },
            None => Action::Wait,
        };
        (self.at(Phase::Waiting), action)
    }

    /// Register the target at index `i`, or go on to the ignore files when all are done.
    fn watch_step(self, i: usize) -> (r: (IoWatch, Action))
        ensures
            r.0@ == watch_step(self@, i as int).0,
            r.1 == watch_step(self@, i as int).1,
    {
        if i < self.files.len() {
            let action = Action::Watch { target: i, recursive: self.recursive };
            (self.at(Phase::Registering { target: i }), action)
        } else {
            (self.at(Phase::LoadingRules), Action::LoadIgnoreFiles)
        }
    }

    /// Start the utility.
    fn spawn_step(self) -> (r: (IoWatch, Action))
        ensures
            r.0@ == spawn_step(self@).0,
            r.1 == spawn_step(self@).1,
    {
        (self.at(Phase::Spawning), Action::Spawn)
    }

    /// Sleep before the spawn, on every run but the first and where a delay is set.
    fn delay_step(self) -> (r: (IoWatch, Action))
        ensures
            r.0@ == delay_step(self@).0,
            r.1 == delay_step(self@).1,
    {
        if !self.first_run && self.delay > 0 {
            let action = Action::Sleep { millis: self.delay };
            (self.at(Phase::Sleeping), action)
        } else {
            self.spawn_step()
        }
    }

    /// Clear the terminal before the spawn, where that is asked for.
    fn clear_step(self) -> (r: (IoWatch, Action))
        ensures
            r.0@ == clear_step(self@).0,
            r.1 == clear_step(self@).1,
    {
        if self.clear_term {
            (self.at(Phase::Clearing), Action::ClearScreen)
        } else {
            self.delay_step()
        }
    }

    /// The utility is known to be gone: go on with what the termination was for.
    fn after_terminate(self, goal: Goal) -> (r: (IoWatch, Action))
        ensures
            r.0@ == after_terminate(self@, goal).0,
            r.1 == after_terminate(self@, goal).1,
    {
        proof {
            use_type_invariant(&self);
        }
        let idle = IoWatch { utility_process: None, ..self };
        match goal {
            Goal::Rerun => idle.clear_step(),
            Goal::Shutdown => (idle.at(Phase::Exited), Action::Finish),
        }
    }

    /// Stop the running utility, if there is one, then go on with `goal`.
    fn terminate_then(self, goal: Goal) -> (r: (IoWatch, Action))
        ensures
            r.0@ == terminate_then(self@, goal).0,
            r.1 == terminate_then(self@, goal).1,
    {
        match self.utility_process {
            None => self.after_terminate(goal),
            Some(pid) => match self.platform {
                Platform::Unix => (self.at(Phase::Locating { goal }), Action::FindGroup { pid }),
                Platform::Windows => {
                    let to = Target::Process { pid };
                    (self.at(Phase::Signalling { goal, to }), Action::Signal { to })
                },
            },
        }
    }

    /// The spawn was tried: the first run is over, and the controller leaves or waits.
    fn after_spawn(self, child: Option<u32>) -> (r: (IoWatch, Action))
        ensures
            r.0@ == after_spawn(self@, child).0,
            r.1 == after_spawn(self@, child).1,
    {
        proof {
            use_type_invariant(&self);
        }
        let ran = IoWatch { utility_process: child, first_run: false, ..self };
        if ran.exit_after {
            (ran.at(Phase::Exited), Action::Finish)
        } else {
            ran.wait()
        }
    }

    /// Whether a batch calls for a run: it holds a change that the rules do not ignore.
    /// Before the ignore files are loaded nothing is ignored.
    pub fn calls_for_run(&self, records: &Vec<ChangeRecord>) -> (r: bool)
        ensures
            r == relevant(self@.rules, records.deep_view()),
    {
        let ghost rules = self@.rules;
        let ghost batch = records.deep_view();
        let mut i: usize = 0;
        while i < records.len()
            invariant
                i <= records.len(),
                rules == self@.rules,
                batch == records.deep_view(),
                forall|k: int| 0 <= k < i ==> ignored(rules, #[trigger] batch[k]),
            decreases records.len() - i,
        {
            let covered = match &self.matcher {
                Some(m) => m.is_ignored(records[i].path.as_str(), records[i].is_dir),
                None => false,
            };
            assert(batch[i as int] == records[i as int]@);
            if !covered {
                return true;
            }
            i = i + 1;
        }
        false
    }

    /// The step that answers an event during start-up.
    fn starting_step(self, event: &Event) -> (r: (IoWatch, Action))
        ensures
            r.0@ == next_starting(self@, event@).0,
            r.1 == next_starting(self@, event@).1,
    {
        proof {
            use_type_invariant(&self);
        }
        match self.phase {
            Phase::Created => match event {
                Event::Start => (self.at(Phase::OpeningWatcher), Action::OpenWatcher),
                _ => self.fail(IoWatchError::UnexpectedEvent),
            },
            Phase::OpeningWatcher => match event {
                Event::Done => self.watch_step(0),
                Event::Failed => self.fail(IoWatchError::WatcherFailed),
                _ => self.fail(IoWatchError::UnexpectedEvent),
            },
            Phase::Registering { target } => match event {
                Event::Done => self.watch_step(target + 1),
                Event::Failed => self.fail(IoWatchError::WatchFailed { target }),
                _ => self.fail(IoWatchError::UnexpectedEvent),
            },
            Phase::LoadingRules => match event {
                Event::IgnoreFiles { root, files } => match IgnoreMatcher::build(
                    root.as_str(),
                    files,
                ) {
                    Ok(m) => {
                        let loaded = IoWatch { matcher: Some(m), ..self };
                        (loaded.at(Phase::InstallingInterrupt), Action::InstallInterrupt)
                    },
                    Err(error) => self.fail(error),
                },
                Event::Failed => self.fail(IoWatchError::IgnoreUnreadable),
                _ => self.fail(IoWatchError::UnexpectedEvent),
            },
            _ => match event {
                Event::Done => if self.postpone {
                    self.wait()
                } else {
                    self.terminate_then(Goal::Rerun)
                },
                Event::Failed => self.fail(IoWatchError::InterruptFailed),
                _ => self.fail(IoWatchError::UnexpectedEvent),
            },
        }
    }

    /// The step that answers an event while the utility is being stopped.
    fn stopping_step(self, event: &Event) -> (r: (IoWatch, Action))
        ensures
            r.0@ == next_stopping(self@, event@).0,
            r.1 == next_stopping(self@, event@).1,
    {
        match self.phase {
            Phase::Locating { goal } => match event {
                Event::Group { pgid } => {
                    let to = Target::Group { pgid: *pgid };
                    (self.at(Phase::Signalling { goal, to }), Action::Signal { to })
                },
                Event::NoSuchProcess => self.after_terminate(goal),
                Event::Failed => self.fail(IoWatchError::TerminateFailed),
                _ => self.fail(IoWatchError::UnexpectedEvent),
            },
            Phase::Signalling { goal, to } => match event {
                Event::Done => (self.at(Phase::Reaping { goal }), Action::Reap { of: to }),
                Event::Failed => self.fail(IoWatchError::TerminateFailed),
                _ => self.fail(IoWatchError::UnexpectedEvent),
            },
            Phase::Reaping { goal } => match event {
                Event::Done => self.after_terminate(goal),
                Event::Failed => self.fail(IoWatchError::TerminateFailed),
                _ => self.fail(IoWatchError::UnexpectedEvent),
            },
            _ => self.fail(IoWatchError::UnexpectedEvent),
        }
    }

    /// The step that answers an event while the utility is being started.
    fn running_step(self, event: &Event) -> (r: (IoWatch, Action))
        ensures
            r.0@ == next_running(self@, event@).0,
            r.1 == next_running(self@, event@).1,
    {
        match self.phase {
            Phase::Clearing => match event {
                Event::Done => self.delay_step(),
                Event::Failed => self.delay_step(),
                _ => self.fail(IoWatchError::UnexpectedEvent),
            },
            Phase::Sleeping => match event {
                Event::Done => self.spawn_step(),
                _ => self.fail(IoWatchError::UnexpectedEvent),
            },
            Phase::Spawning => match event {
                Event::Spawned { pid } => self.after_spawn(Some(*pid)),
                Event::Failed => self.after_spawn(None),
                _ => self.fail(IoWatchError::UnexpectedEvent),
            },
            _ => self.fail(IoWatchError::UnexpectedEvent),
        }
    }

    /// The step that answers an event while the controller waits.
    fn waiting_step(self, event: &Event) -> (r: (IoWatch, Action))
        ensures
            r.0@ == next_waiting(self@, event@).0,
            r.1 == next_waiting(self@, event@).1,
    {
        match event {
            Event::Changes { records } => if self.calls_for_run(records) {
                self.terminate_then(Goal::Rerun)
            } else {
                self.wait()
            },
            Event::DeliveryErrors => self.wait(),
            Event::IdleTimeout => if self.timeout.is_some() {
                self.terminate_then(Goal::Rerun)
            } else {
                self.fail(IoWatchError::UnexpectedEvent)
            },
            Event::Interrupt => self.terminate_then(Goal::Shutdown),
            Event::Failed => self.fail(IoWatchError::ChannelFailed),
            _ => self.fail(IoWatchError::UnexpectedEvent),
        }
    }

    /// Takes the event that answers the last action, and says what to do next.
    ///
    /// The first event is `Start`. Each action is to be carried out and answered with
    /// one event: what came of it. An event that answers nothing that was asked for
    /// ends the controller with `UnexpectedEvent`.
    pub fn step(self, event: &Event) -> (r: (IoWatch, Action))
        ensures
            r.0@ == next(self@, event@).0,
            r.1 == next(self@, event@).1,
            self@.wf() ==> r.0@.wf(),
    {
        proof {
            if self@.wf() {
                law_step_keeps_wf(self@, event@);
            }
        }
        match self.phase {
            Phase::Created
            | Phase::OpeningWatcher
            | Phase::Registering { .. }
            | Phase::LoadingRules
            | Phase::InstallingInterrupt => self.starting_step(event),
            Phase::Locating { .. } | Phase::Signalling { .. } | Phase::Reaping { .. } => {
                self.stopping_step(event)
            },
            Phase::Clearing | Phase::Sleeping | Phase::Spawning => self.running_step(event),
            Phase::Waiting => self.waiting_step(event),
            Phase::Exited => self.fail(IoWatchError::UnexpectedEvent),
        }
    }

    /// Runs the controller over a sequence of events, fed one after the other, and
    /// returns the watcher as it stands after them and the action that answered each.
    pub fn run(self, events: &Vec<Event>) -> (r: (IoWatch, Vec<Action>))
        ensures
            r.0@ == state_after(self@, events.deep_view()),
            r.1@ == actions_for(self@, events.deep_view()),
            r.1.len() == events.len(),
            self@.wf() ==> r.0@.wf(),
    {
        proof {
            lemma_actions_len(self@, events.deep_view());
            if self@.wf() {
                law_run_keeps_wf(self@, events.deep_view());
            }
        }
        let ghost start = self@;
        let ghost all = events.deep_view();
        let mut watch = self;
        let mut actions: Vec<Action> = Vec::new();
        let mut i: usize = 0;
        proof {
            assert(all.take(0) =~= Seq::<EventView>::empty());
        }
        while i < events.len()
            invariant
                i <= events.len(),
                all == events.deep_view(),
                watch@ == state_after(start, all.take(i as int)),
                actions@ == actions_for(start, all.take(i as int)),
            decreases events.len() - i,
        {
            proof {
                assert(all.take(i + 1).drop_last() =~= all.take(i as int));
                assert(all.take(i + 1).last() == events[i as int]@);
            }
            let (stepped, action) = watch.step(&events[i]);
            watch = stepped;
            actions.push(action);
            i = i + 1;
        }
        proof {
            assert(all.take(events.len() as int) =~= all);
        }
        (watch, actions)
    }

    /// The paths that are watched.
    pub fn files(&self) -> (r: &Vec<String>)
        ensures
            r.deep_view() == self@.config.targets,
            r.len() > 0,
    {
        proof {
            use_type_invariant(self);
        }
        &self.files
    }

    /// The command that is run: the program, followed by its arguments.
    pub fn utility_cmd(&self) -> (r: &Vec<String>)
        ensures
            r.deep_view() == self@.config.command,
            r.len() > 0,
    {
        proof {
            use_type_invariant(self);
        }
        &self.utility_cmd
    }

    /// The name of the signal that stops the utility.
    pub fn kill_sig(&self) -> (r: &String)
        ensures
            r@ == self@.config.kill_signal,
    {
        &self.kill_sig
    }

    /// Where the controller stands.
    pub fn phase(&self) -> (r: Phase)
        ensures
            r == self@.phase,
    {
        self.phase
    }

    /// The process that currently runs the utility, if any.
    pub fn utility_process(&self) -> (r: Option<u32>)
        ensures
            r == self@.child,
    {
        self.utility_process
    }
}

/// The configuration of the watcher that was set up, or the error.
pub open spec fn setup_outcome(r: Result<IoWatch, IoWatchError>) -> Result<Config, IoWatchError> {
    match r {
        Ok(w) => Ok(w@.config),
        Err(e) => Err(e),
    }
}

} // verus!
