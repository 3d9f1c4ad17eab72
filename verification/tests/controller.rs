use iowatch::{
    Action, ChangeRecord, Cli, Event, IoWatch, IoWatchError, Phase, Platform, Target,
};

fn strings(items: &[&str]) -> Vec<String> {
    items.iter().map(|s| s.to_string()).collect()
}

fn cli(files_on_stdin: bool, utility: &[&str]) -> Cli {
    Cli {
        input_file: if files_on_stdin { None } else { Some("a.txt".to_string()) },
        clear_term: false,
        postpone: false,
        recursive: false,
        use_shell: false,
        exit_after: false,
        timeout: None,
        delay: 100,
        kill_signal: "SIGTERM".to_string(),
        utility: strings(utility),
    }
}

fn watcher(c: Cli, stdin: &str, platform: Platform) -> IoWatch {
    IoWatch::try_from(c, stdin, None, platform).unwrap()
}

fn no_ignore_files() -> Event {
    Event::IgnoreFiles { root: "/work".to_string(), files: vec![] }
}

fn ignore_files(contents: &[&str]) -> Event {
    Event::IgnoreFiles { root: "/work".to_string(), files: strings(contents) }
}

fn changes(paths: &[&str]) -> Event {
    Event::Changes {
        records: paths
            .iter()
            .map(|p| ChangeRecord { path: p.to_string(), is_dir: false })
            .collect(),
    }
}

/// Feeds the events and returns the watcher and the actions that answered them.
fn feed(w: IoWatch, events: Vec<Event>) -> (IoWatch, Vec<Action>) {
    w.run(&events)
}

/// A watcher of one file that has finished its start-up with the given ignore files.
fn started(c: Cli, rules: Event) -> (IoWatch, Vec<Action>) {
    feed(
        watcher(c, "", Platform::Unix),
        vec![Event::Start, Event::Done, Event::Done, rules, Event::Done],
    )
}

fn count_spawns(actions: &[Action]) -> usize {
    actions.iter().filter(|a| **a == Action::Spawn).count()
}

#[test]
fn one_file_one_run_then_exit() {
    let mut c = cli(false, &["echo", "hi"]);
    c.exit_after = true;
    let w = watcher(c, "", Platform::Unix);
    assert_eq!(w.files(), &strings(&["a.txt"]));
    assert_eq!(w.utility_cmd(), &strings(&["echo", "hi"]));
    let (w, actions) = feed(
        w,
        vec![
            Event::Start,
            Event::Done,
            Event::Done,
            no_ignore_files(),
            Event::Done,
            Event::Spawned { pid: 4242 },
        ],
    );
    assert_eq!(
        actions,
        vec![
            Action::OpenWatcher,
            Action::Watch { target: 0, recursive: false },
            Action::LoadIgnoreFiles,
            Action::InstallInterrupt,
            Action::Spawn,
            Action::Finish,
        ]
    );
    assert_eq!(count_spawns(&actions), 1);
    assert!(!actions.contains(&Action::Wait));
    assert_eq!(w.phase(), Phase::Exited);
    assert_eq!(w.utility_process(), Some(4242));
}

#[test]
fn run_is_the_same_as_stepping() {
    let events = vec![
        Event::Start,
        Event::Done,
        Event::Done,
        no_ignore_files(),
        Event::Done,
        Event::Spawned { pid: 7 },
        changes(&["/work/a.txt"]),
    ];
    let (ran, actions) = feed(watcher(cli(false, &["make"]), "", Platform::Unix), {
        let mut copy = Vec::new();
        copy.push(Event::Start);
        copy.push(Event::Done);
        copy.push(Event::Done);
        copy.push(no_ignore_files());
        copy.push(Event::Done);
        copy.push(Event::Spawned { pid: 7 });
        copy.push(changes(&["/work/a.txt"]));
        copy
    });
    let mut w = watcher(cli(false, &["make"]), "", Platform::Unix);
    let mut stepped = Vec::new();
    for e in &events {
        let (next, action) = w.step(e);
        w = next;
        stepped.push(action);
    }
    assert_eq!(actions, stepped);
    assert_eq!(ran.phase(), w.phase());
    assert_eq!(ran.utility_process(), w.utility_process());
}

#[test]
fn two_changes_in_one_batch_start_one_run() {
    let (w, _) = started(cli(false, &["make"]), no_ignore_files());
    let (w, _) = feed(w, vec![Event::Spawned { pid: 10 }]);
    assert_eq!(w.phase(), Phase::Waiting);
    let (w, actions) = feed(
        w,
        vec![
            changes(&["/work/a.txt", "/work/a.txt"]),
            Event::Group { pgid: 10 },
            Event::Done,
            Event::Done,
            Event::Done,
            Event::Spawned { pid: 11 },
        ],
    );
    assert_eq!(
        actions,
        vec![
            Action::FindGroup { pid: 10 },
            Action::Signal { to: Target::Group { pgid: 10 } },
            Action::Reap { of: Target::Group { pgid: 10 } },
            Action::Sleep { millis: 100 },
            Action::Spawn,
            Action::Wait,
        ]
    );
    assert_eq!(count_spawns(&actions), 1);
    assert_eq!(w.utility_process(), Some(11));
}

#[test]
fn change_under_an_ignored_directory_starts_nothing() {
    let mut c = cli(false, &["make"]);
    c.postpone = true;
    let (w, actions) = started(c, ignore_files(&["build/\n"]));
    assert_eq!(actions.last(), Some(&Action::Wait));
    let (w, actions) = feed(w, vec![changes(&["/work/build/output.txt"])]);
    assert_eq!(actions, vec![Action::Wait]);
    assert_eq!(w.phase(), Phase::Waiting);
    assert_eq!(w.utility_process(), None);
}

#[test]
fn batch_of_ignored_changes_starts_nothing_whatever_its_size() {
    let mut c = cli(false, &["make"]);
    c.postpone = true;
    let (w, _) = started(c, ignore_files(&["build/\n*.log\n"]));
    let (w, actions) = feed(
        w,
        vec![
            changes(&["/work/build/a", "/work/x.log", "/work/build/deep/b.o"]),
            changes(&[]),
            changes(&["/work/y.log"]),
        ],
    );
    assert_eq!(actions, vec![Action::Wait, Action::Wait, Action::Wait]);
    assert_eq!(count_spawns(&actions), 0);
    assert_eq!(w.phase(), Phase::Waiting);
}

#[test]
fn one_change_that_counts_is_enough() {
    let mut c = cli(false, &["make"]);
    c.postpone = true;
    let (w, _) = started(c, ignore_files(&["build/\n"]));
    let (w, actions) = feed(
        w,
        vec![
            changes(&["/work/build/a", "/work/src/main.rs", "/work/build/b"]),
            Event::Spawned { pid: 3 },
        ],
    );
    assert_eq!(actions, vec![Action::Spawn, Action::Wait]);
    assert_eq!(w.utility_process(), Some(3));
}

#[test]
fn change_outside_the_root_counts() {
    let mut c = cli(false, &["make"]);
    c.postpone = true;
    let (w, _) = started(c, ignore_files(&["*\n"]));
    let (_, actions) = feed(w, vec![changes(&["/elsewhere/file"])]);
    assert_eq!(actions, vec![Action::Spawn]);
}

#[test]
fn interrupt_while_running_stops_the_group_and_exits() {
    let mut c = cli(false, &["server"]);
    c.kill_signal = "SIGINT".to_string();
    let (w, _) = started(c, no_ignore_files());
    let (w, _) = feed(w, vec![Event::Spawned { pid: 500 }]);
    assert_eq!(w.kill_sig(), "SIGINT");
    let (w, actions) = feed(
        w,
        vec![Event::Interrupt, Event::Group { pgid: 500 }, Event::Done, Event::Done],
    );
    assert_eq!(
        actions,
        vec![
            Action::FindGroup { pid: 500 },
            Action::Signal { to: Target::Group { pgid: 500 } },
            Action::Reap { of: Target::Group { pgid: 500 } },
            Action::Finish,
        ]
    );
    assert_eq!(w.phase(), Phase::Exited);
    assert_eq!(w.utility_process(), None);
}

#[test]
fn interrupt_while_idle_exits_at_once() {
    let mut c = cli(false, &["make"]);
    c.postpone = true;
    let (w, _) = started(c, no_ignore_files());
    let (w, actions) = feed(w, vec![Event::Interrupt]);
    assert_eq!(actions, vec![Action::Finish]);
    assert_eq!(w.phase(), Phase::Exited);
}

#[test]
fn interrupt_after_the_utility_exited_by_itself_exits_without_a_signal() {
    let (w, _) = started(cli(false, &["make"]), no_ignore_files());
    let (w, _) = feed(w, vec![Event::Spawned { pid: 9 }]);
    let (w, actions) = feed(w, vec![Event::Interrupt, Event::NoSuchProcess]);
    assert_eq!(actions, vec![Action::FindGroup { pid: 9 }, Action::Finish]);
    assert_eq!(w.phase(), Phase::Exited);
    assert_eq!(w.utility_process(), None);
}

#[test]
fn rerun_after_the_utility_exited_by_itself_needs_no_signal() {
    let (w, _) = started(cli(false, &["make"]), no_ignore_files());
    let (w, _) = feed(w, vec![Event::Spawned { pid: 9 }]);
    let (w, actions) = feed(
        w,
        vec![
            changes(&["/work/a.txt"]),
            Event::NoSuchProcess,
            Event::Done,
            Event::Spawned { pid: 12 },
        ],
    );
    assert_eq!(
        actions,
        vec![
            Action::FindGroup { pid: 9 },
            Action::Sleep { millis: 100 },
            Action::Spawn,
            Action::Wait,
        ]
    );
    assert_eq!(w.utility_process(), Some(12));
}

#[test]
fn windows_kills_the_child_directly() {
    let c = cli(false, &["build.bat"]);
    let (w, _) = feed(
        watcher(c, "", Platform::Windows),
        vec![
            Event::Start,
            Event::Done,
            Event::Done,
            no_ignore_files(),
            Event::Done,
            Event::Spawned { pid: 77 },
        ],
    );
    let (w, actions) = feed(w, vec![Event::Interrupt, Event::Done, Event::Done]);
    assert_eq!(
        actions,
        vec![
            Action::Signal { to: Target::Process { pid: 77 } },
            Action::Reap { of: Target::Process { pid: 77 } },
            Action::Finish,
        ]
    );
    assert_eq!(w.utility_process(), None);
}

#[test]
fn postponed_first_run_waits_for_a_change() {
    let mut c = cli(false, &["make"]);
    c.postpone = true;
    let (w, actions) = started(c, no_ignore_files());
    assert_eq!(count_spawns(&actions), 0);
    assert_eq!(actions.last(), Some(&Action::Wait));
    let (w, actions) = feed(w, vec![Event::DeliveryErrors, Event::DeliveryErrors]);
    assert_eq!(actions, vec![Action::Wait, Action::Wait]);
    let (_, actions) = feed(w, vec![changes(&["/work/a.txt"])]);
    assert_eq!(actions, vec![Action::Spawn]);
}

#[test]
fn first_run_comes_before_the_first_wait() {
    let (w, actions) = started(cli(false, &["make"]), no_ignore_files());
    assert_eq!(actions.last(), Some(&Action::Spawn));
    assert!(!actions.contains(&Action::Wait));
    let (_, actions) = feed(w, vec![Event::Spawned { pid: 1 }]);
    assert_eq!(actions, vec![Action::Wait]);
}

#[test]
fn first_run_is_not_delayed_but_later_runs_are() {
    let mut c = cli(false, &["make"]);
    c.delay = 250;
    let (w, actions) = started(c, no_ignore_files());
    assert!(!actions.iter().any(|a| matches!(a, Action::Sleep { .. })));
    let (w, _) = feed(w, vec![Event::Failed]);
    let (_, actions) = feed(w, vec![changes(&["/work/a.txt"])]);
    assert_eq!(actions, vec![Action::Sleep { millis: 250 }]);
}

#[test]
fn zero_delay_is_never_slept() {
    let mut c = cli(false, &["make"]);
    c.delay = 0;
    let (w, _) = started(c, no_ignore_files());
    let (w, _) = feed(w, vec![Event::Failed]);
    let (_, actions) = feed(w, vec![changes(&["/work/a.txt"])]);
    assert_eq!(actions, vec![Action::Spawn]);
}

#[test]
fn terminal_is_cleared_before_the_delay_and_the_spawn() {
    let mut c = cli(false, &["make"]);
    c.clear_term = true;
    let (w, actions) = started(c, no_ignore_files());
    assert_eq!(actions.last(), Some(&Action::ClearScreen));
    let (w, actions) = feed(w, vec![Event::Done, Event::Spawned { pid: 5 }]);
    assert_eq!(actions, vec![Action::Spawn, Action::Wait]);
    let (_, actions) = feed(
        w,
        vec![
            changes(&["/work/a.txt"]),
            Event::Group { pgid: 5 },
            Event::Done,
            Event::Done,
            Event::Done,
            Event::Done,
        ],
    );
    assert_eq!(
        actions,
        vec![
            Action::FindGroup { pid: 5 },
            Action::Signal { to: Target::Group { pgid: 5 } },
            Action::Reap { of: Target::Group { pgid: 5 } },
            Action::ClearScreen,
            Action::Sleep { millis: 100 },
            Action::Spawn,
        ]
    );
}

#[test]
fn terminal_that_cannot_be_cleared_does_not_stop_the_run() {
    let mut c = cli(false, &["make"]);
    c.clear_term = true;
    let (w, _) = started(c, no_ignore_files());
    let (_, actions) = feed(w, vec![Event::Failed]);
    assert_eq!(actions, vec![Action::Spawn]);
}

#[test]
fn utility_that_cannot_be_started_leaves_the_watcher_waiting() {
    let (w, _) = started(cli(false, &["no-such-program"]), no_ignore_files());
    let (w, actions) = feed(w, vec![Event::Failed]);
    assert_eq!(actions, vec![Action::Wait]);
    assert_eq!(w.phase(), Phase::Waiting);
    assert_eq!(w.utility_process(), None);
    let (w, actions) = feed(w, vec![changes(&["/work/a.txt"]), Event::Done, Event::Spawned { pid: 2 }]);
    assert_eq!(actions, vec![Action::Sleep { millis: 100 }, Action::Spawn, Action::Wait]);
    assert_eq!(w.utility_process(), Some(2));
}

#[test]
fn exit_after_first_run_leaves_even_if_the_spawn_failed() {
    let mut c = cli(false, &["no-such-program"]);
    c.exit_after = true;
    let (w, _) = started(c, no_ignore_files());
    let (w, actions) = feed(w, vec![Event::Failed]);
    assert_eq!(actions, vec![Action::Finish]);
    assert_eq!(w.phase(), Phase::Exited);
}

#[test]
fn exit_after_postponed_run_leaves_after_the_first_change() {
    let mut c = cli(false, &["make"]);
    c.exit_after = true;
    c.postpone = true;
    let (w, actions) = started(c, no_ignore_files());
    assert_eq!(actions.last(), Some(&Action::Wait));
    let (w, actions) = feed(w, vec![changes(&["/work/a.txt"]), Event::Spawned { pid: 8 }]);
    assert_eq!(actions, vec![Action::Spawn, Action::Finish]);
    assert_eq!(w.phase(), Phase::Exited);
}

#[test]
fn idle_timeout_starts_a_run() {
    let mut c = cli(false, &["make"]);
    c.timeout = Some(30);
    c.postpone = true;
    let (w, actions) = started(c, no_ignore_files());
    assert_eq!(actions.last(), Some(&Action::WaitAtMost { secs: 30 }));
    let (_, actions) = feed(w, vec![Event::IdleTimeout, Event::Spawned { pid: 1 }]);
    assert_eq!(actions, vec![Action::Spawn, Action::WaitAtMost { secs: 30 }]);
}

#[test]
fn idle_timeout_without_a_timeout_is_unexpected() {
    let mut c = cli(false, &["make"]);
    c.postpone = true;
    let (w, _) = started(c, no_ignore_files());
    let (w, actions) = feed(w, vec![Event::IdleTimeout]);
    assert_eq!(actions, vec![Action::Fail { error: IoWatchError::UnexpectedEvent }]);
    assert_eq!(w.phase(), Phase::Exited);
}

#[test]
fn every_target_is_registered_in_order() {
    let mut c = cli(true, &["make"]);
    c.recursive = true;
    let w = watcher(c, "src\ntests\nCargo.toml\n", Platform::Unix);
    let (w, actions) = feed(w, vec![Event::Start, Event::Done, Event::Done, Event::Done, Event::Done]);
    assert_eq!(
        actions,
        vec![
            Action::OpenWatcher,
            Action::Watch { target: 0, recursive: true },
            Action::Watch { target: 1, recursive: true },
            Action::Watch { target: 2, recursive: true },
            Action::LoadIgnoreFiles,
        ]
    );
    assert_eq!(w.phase(), Phase::LoadingRules);
}

#[test]
fn one_target_that_cannot_be_registered_fails_the_start() {
    let w = watcher(cli(true, &["make"]), "src\nmissing\nCargo.toml\n", Platform::Unix);
    let (w, actions) = feed(w, vec![Event::Start, Event::Done, Event::Done, Event::Failed]);
    assert_eq!(
        actions.last(),
        Some(&Action::Fail { error: IoWatchError::WatchFailed { target: 1 } })
    );
    assert_eq!(w.files()[1], "missing");
    assert_eq!(w.phase(), Phase::Exited);
    assert!(!actions.contains(&Action::Watch { target: 2, recursive: false }));
}

#[test]
fn watcher_that_cannot_be_created_fails_the_start() {
    let w = watcher(cli(false, &["make"]), "", Platform::Unix);
    let (_, actions) = feed(w, vec![Event::Start, Event::Failed]);
    assert_eq!(
        actions,
        vec![Action::OpenWatcher, Action::Fail { error: IoWatchError::WatcherFailed }]
    );
}

#[test]
fn malformed_ignore_file_fails_the_start() {
    let w = watcher(cli(false, &["make"]), "", Platform::Unix);
    let (w, actions) = feed(
        w,
        vec![Event::Start, Event::Done, Event::Done, ignore_files(&["ok\n[z-a]\n"])],
    );
    assert_eq!(
        actions.last(),
        Some(&Action::Fail { error: IoWatchError::MalformedIgnore { file: 0, line: 1 } })
    );
    assert_eq!(w.phase(), Phase::Exited);
}

#[test]
fn unreadable_ignore_files_fail_the_start() {
    let w = watcher(cli(false, &["make"]), "", Platform::Unix);
    let (_, actions) = feed(w, vec![Event::Start, Event::Done, Event::Done, Event::Failed]);
    assert_eq!(actions.last(), Some(&Action::Fail { error: IoWatchError::IgnoreUnreadable }));
}

#[test]
fn relative_working_directory_fails_the_start() {
    let w = watcher(cli(false, &["make"]), "", Platform::Unix);
    let (_, actions) = feed(
        w,
        vec![
            Event::Start,
            Event::Done,
            Event::Done,
            Event::IgnoreFiles { root: "work".to_string(), files: vec![] },
        ],
    );
    assert_eq!(actions.last(), Some(&Action::Fail { error: IoWatchError::RootNotAbsolute }));
}

#[test]
fn interrupt_handler_that_cannot_be_installed_fails_the_start() {
    let w = watcher(cli(false, &["make"]), "", Platform::Unix);
    let (_, actions) = feed(
        w,
        vec![Event::Start, Event::Done, Event::Done, no_ignore_files(), Event::Failed],
    );
    assert_eq!(actions.last(), Some(&Action::Fail { error: IoWatchError::InterruptFailed }));
}

#[test]
fn broken_channel_ends_the_loop() {
    let mut c = cli(false, &["make"]);
    c.postpone = true;
    let (w, _) = started(c, no_ignore_files());
    let (w, actions) = feed(w, vec![Event::Failed]);
    assert_eq!(actions, vec![Action::Fail { error: IoWatchError::ChannelFailed }]);
    assert_eq!(w.phase(), Phase::Exited);
}

#[test]
fn failure_to_stop_the_utility_ends_the_loop() {
    for failing in 0..3 {
        let (w, _) = started(cli(false, &["make"]), no_ignore_files());
        let (w, _) = feed(w, vec![Event::Spawned { pid: 9 }]);
        let mut events = vec![changes(&["/work/a.txt"])];
        let answers = [Event::Group { pgid: 9 }, Event::Done, Event::Done];
        for (i, e) in answers.into_iter().enumerate() {
            if i == failing {
                events.push(Event::Failed);
                break;
            }
            events.push(e);
        }
        let (w, actions) = feed(w, events);
        assert_eq!(actions.last(), Some(&Action::Fail { error: IoWatchError::TerminateFailed }));
        assert_eq!(count_spawns(&actions), 0);
        assert_eq!(w.phase(), Phase::Exited);
        assert_eq!(w.utility_process(), Some(9));
    }
}

#[test]
fn event_that_answers_nothing_ends_the_controller() {
    let w = watcher(cli(false, &["make"]), "", Platform::Unix);
    let (w, actions) = feed(w, vec![Event::Done]);
    assert_eq!(actions, vec![Action::Fail { error: IoWatchError::UnexpectedEvent }]);
    assert_eq!(w.phase(), Phase::Exited);
    let (w, _) = started(cli(false, &["make"]), no_ignore_files());
    let (_, actions) = feed(w, vec![Event::Interrupt]);
    assert_eq!(actions, vec![Action::Fail { error: IoWatchError::UnexpectedEvent }]);
}

#[test]
fn finished_controller_stays_finished() {
    let mut c = cli(false, &["make"]);
    c.exit_after = true;
    let (w, _) = started(c, no_ignore_files());
    let (w, actions) = feed(
        w,
        vec![Event::Spawned { pid: 1 }, changes(&["/work/a.txt"]), Event::Interrupt, Event::Start],
    );
    let unexpected = Action::Fail { error: IoWatchError::UnexpectedEvent };
    assert_eq!(actions, vec![Action::Finish, unexpected, unexpected, unexpected]);
    assert_eq!(w.phase(), Phase::Exited);
    assert_eq!(w.utility_process(), Some(1));
}

#[test]
fn spawn_never_comes_while_a_process_is_current() {
    let (mut w, _) = started(cli(false, &["make"]), no_ignore_files());
    let script = vec![
        Event::Spawned { pid: 1 },
        changes(&["/work/a.txt"]),
        Event::Group { pgid: 1 },
        Event::Done,
        Event::Done,
        Event::Done,
        Event::Spawned { pid: 2 },
        changes(&["/work/b.txt"]),
        Event::NoSuchProcess,
        Event::Done,
        Event::Failed,
        changes(&["/work/c.txt"]),
        Event::Done,
        Event::Spawned { pid: 3 },
    ];
    let mut spawns = 0;
    for e in &script {
        let (next, action) = w.step(e);
        w = next;
        if action == Action::Spawn {
            spawns += 1;
            assert_eq!(w.utility_process(), None);
            assert_eq!(w.phase(), Phase::Spawning);
        }
    }
    assert_eq!(spawns, 3);
    assert_eq!(w.utility_process(), Some(3));
    assert_eq!(w.phase(), Phase::Waiting);
}

#[test]
fn batch_calls_for_a_run_if_one_change_is_not_ignored() {
    let mut c = cli(false, &["make"]);
    c.postpone = true;
    let (w, _) = started(c, ignore_files(&["build/\n"]));
    let records = |paths: &[&str]| -> Vec<ChangeRecord> {
        paths.iter().map(|p| ChangeRecord { path: p.to_string(), is_dir: false }).collect()
    };
    assert!(!w.calls_for_run(&records(&[])));
    assert!(!w.calls_for_run(&records(&["/work/build/a", "/work/build/b"])));
    assert!(w.calls_for_run(&records(&["/work/build/a", "/work/src/c"])));
    assert!(w.calls_for_run(&records(&["/work/src/c"])));
    assert!(!w.calls_for_run(&[ChangeRecord { path: "/work/build".to_string(), is_dir: true }]
        .into_iter()
        .collect()));
    assert!(w.calls_for_run(&[ChangeRecord { path: "/work/build".to_string(), is_dir: false }]
        .into_iter()
        .collect()));
}

#[test]
fn before_the_ignore_files_are_loaded_every_change_counts() {
    let w = watcher(cli(false, &["make"]), "", Platform::Unix);
    assert!(w.calls_for_run(&vec![ChangeRecord { path: "/work/build/a".to_string(), is_dir: false }]));
    assert!(!w.calls_for_run(&vec![]));
}
