//! What holds of the controller, whatever the events: proved over the state machine
//! of `model`, which is what `IoWatch::step` and `IoWatch::run` compute.

use crate::error::IoWatchError;
use crate::matcher::build_outcome;
use crate::model::{
    actions_for, after_terminate, ignored, next, relevant, state_after, terminate_then, wait,
    watch_step, Action, Change, Config, EventView, Goal, Phase, State,
};
use vstd::prelude::*;

verus! {

/// A controller starts in a state that is well formed.
pub proof fn law_initial_wf(config: Config)
    requires
        config.wf(),
        config.targets.len() <= usize::MAX,
    ensures
        State::initial(config).wf(),
{
}

/// Every event leaves the state well formed and the configuration as it was.
pub proof fn law_step_keeps_wf(s: State, e: EventView)
    requires
        s.wf(),
    ensures
        next(s, e).0.wf(),
        next(s, e).0.config == s.config,
{
}

/// Every sequence of events leaves the state well formed and the configuration as it
/// was, and is answered by one action for each event.
pub proof fn law_run_keeps_wf(s: State, events: Seq<EventView>)
    requires
        s.wf(),
    ensures
        state_after(s, events).wf(),
        state_after(s, events).config == s.config,
        actions_for(s, events).len() == events.len(),
    decreases events.len(),
{
    if events.len() > 0 {
        law_run_keeps_wf(s, events.drop_last());
        law_step_keeps_wf(state_after(s, events.drop_last()), events.last());
    }
}

/// The events of a sequence are answered one by one: the action at an index answers
/// the event at that index, in the state that the events before it led to.
pub proof fn law_actions_are_stepwise(s: State, events: Seq<EventView>, i: int)
    requires
        0 <= i < events.len(),
    ensures
        actions_for(s, events).len() == events.len(),
        actions_for(s, events)[i] == next(state_after(s, events.take(i)), events[i]).1,
        state_after(s, events.take(i + 1)) == next(state_after(s, events.take(i)), events[i]).0,
    decreases events.len(),
{
    lemma_actions_len(s, events);
    let front = events.drop_last();
    lemma_actions_len(s, front);
    assert(events.take(i + 1).drop_last() =~= events.take(i));
    if i == events.len() - 1 {
        assert(events.take(i) =~= front);
    } else {
        law_actions_are_stepwise(s, front, i);
        assert(front.take(i) =~= events.take(i));
    }
}

/// Every event of a sequence is answered by one action.
pub proof fn lemma_actions_len(s: State, events: Seq<EventView>)
    ensures
        actions_for(s, events).len() == events.len(),
    decreases events.len(),
{
    if events.len() > 0 {
        lemma_actions_len(s, events.drop_last());
    }
}

/// Running two sequences of events one after the other is running their concatenation.
pub proof fn law_run_splits(s: State, first: Seq<EventView>, then: Seq<EventView>)
    ensures
        state_after(s, first + then) == state_after(state_after(s, first), then),
        actions_for(s, first + then) == actions_for(s, first) + actions_for(
            state_after(s, first),
            then,
        ),
    decreases then.len(),
{
    if then.len() == 0 {
        assert(first + then =~= first);
        assert(actions_for(s, first) + Seq::<Action>::empty() =~= actions_for(s, first));
    } else {
        law_run_splits(s, first, then.drop_last());
        assert((first + then).drop_last() =~= first + then.drop_last());
        assert((first + then).last() == then.last());
        let mid = state_after(s, first);
        let step = next(state_after(mid, then.drop_last()), then.last()).1;
        assert((actions_for(s, first) + actions_for(mid, then.drop_last())).push(step)
            =~= actions_for(s, first) + actions_for(mid, then.drop_last()).push(step));
    }
}

/// A single event is answered by one step.
pub proof fn law_one_event(s: State, e: EventView)
    ensures
        state_after(s, seq![e]) == next(s, e).0,
        actions_for(s, seq![e]) == seq![next(s, e).1],
{
    reveal_with_fuel(state_after, 2);
    reveal_with_fuel(actions_for, 2);
    assert(seq![e].drop_last() =~= Seq::<EventView>::empty());
    assert(seq![e].last() == e);
    assert(actions_for(s, seq![e]) =~= seq![next(s, e).1]);
}

/// A controller that has finished stays finished: whatever comes, it answers that the
/// event was not expected, and nothing changes.
pub proof fn law_exit_is_final(s: State, events: Seq<EventView>)
    requires
        s.phase is Exited,
    ensures
        state_after(s, events) == s,
        forall|i: int|
            0 <= i < events.len() ==> #[trigger] actions_for(s, events)[i] == (Action::Fail {
                error: IoWatchError::UnexpectedEvent,
            }),
    decreases events.len(),
{
    if events.len() > 0 {
        let front = events.drop_last();
        law_exit_is_final(s, front);
        lemma_actions_len(s, front);
        assert(next(s, events.last()).0 =~= s);
        assert forall|i: int| 0 <= i < events.len() implies #[trigger] actions_for(s, events)[i]
            == (Action::Fail { error: IoWatchError::UnexpectedEvent }) by {
            if i < front.len() {
                assert(actions_for(s, events)[i] == actions_for(s, front)[i]);
            }
        }
    }
}

/// The events that answer the registration of the watch targets, one for each: `Done`
/// where the target could be registered, `Failed` where it could not.
pub open spec fn registration_events(registered: Seq<bool>) -> Seq<EventView> {
    Seq::new(
        registered.len(),
        |i: int|
            if registered[i] {
                EventView::Done
            } else {
                EventView::Failed
            },
    )
}

/// Whether every target could be registered.
pub open spec fn all_registered(registered: Seq<bool>) -> bool {
    forall|i: int| 0 <= i < registered.len() ==> registered[i]
}

/// Whether `k` is the first target that could not be registered.
pub open spec fn first_refused(registered: Seq<bool>, k: int) -> bool {
    &&& 0 <= k < registered.len()
    &&& !registered[k]
    &&& forall|i: int| 0 <= i < k ==> registered[i]
}

/// While the targets register, the controller asks for them one after the other.
proof fn lemma_registration_goes_on(s: State, registered: Seq<bool>, j: int)
    requires
        s.wf(),
        s.phase is OpeningWatcher,
        registered.len() == s.config.targets.len(),
        0 <= j <= registered.len(),
        forall|i: int| 0 <= i < j ==> registered[i],
    ensures
        state_after(s, (seq![EventView::Done] + registration_events(registered)).take(j + 1))
            == watch_step(s, j).0,
        actions_for(s, seq![EventView::Done] + registration_events(registered))[j] == watch_step(
            s,
            j,
        ).1,
    decreases j,
{
    let events = seq![EventView::Done] + registration_events(registered);
    law_actions_are_stepwise(s, events, j);
    if j == 0 {
        assert(events.take(0) =~= Seq::<EventView>::empty());
    } else {
        lemma_registration_goes_on(s, registered, j - 1);
        let before = state_after(s, events.take(j));
        assert(before == watch_step(s, j - 1).0);
        assert(events[j] == registration_events(registered)[j - 1]);
        assert(registered[j - 1]);
        assert(watch_step(before, j).0 =~= watch_step(s, j).0);
    }
}

/// Start-up registers the watch targets in order, each once, and goes on to the ignore
/// files if and only if every target could be registered. The first target that could
/// not be ends the controller, with an error that names it.
pub proof fn law_registration(s: State, registered: Seq<bool>)
    requires
        s.wf(),
        s.phase is OpeningWatcher,
        registered.len() == s.config.targets.len(),
    ensures
        ({
            let events = seq![EventView::Done] + registration_events(registered);
            let end = state_after(s, events);
            let actions = actions_for(s, events);
            let n = registered.len() as int;
            &&& actions.len() == n + 1
            &&& all_registered(registered) <==> end.phase is LoadingRules
            &&& !all_registered(registered) <==> end.phase is Exited
            &&& all_registered(registered) ==> actions[n] == Action::LoadIgnoreFiles
            &&& all_registered(registered) ==> forall|i: int|
                0 <= i < n ==> #[trigger] actions[i] == (Action::Watch {
                    target: i as usize,
                    recursive: s.config.recursive,
                })
            &&& forall|k: int|
                first_refused(registered, k) ==> #[trigger] actions[k + 1] == (Action::Fail {
                    error: IoWatchError::WatchFailed { target: k as usize },
                })
        }),
{
    let events = seq![EventView::Done] + registration_events(registered);
    let n = registered.len() as int;
    law_run_keeps_wf(s, events);
    if all_registered(registered) {
        lemma_registration_goes_on(s, registered, n);
        assert(events.take(n + 1) =~= events);
        assert forall|i: int| 0 <= i < n implies #[trigger] actions_for(s, events)[i] == (
        Action::Watch { target: i as usize, recursive: s.config.recursive }) by {
            lemma_registration_goes_on(s, registered, i);
        }
    } else {
        lemma_some_first_refused(registered, n);
        let k = choose|k: int| first_refused(registered, k);
        lemma_registration_stops(s, registered, k);
    }
    assert forall|k: int| first_refused(registered, k) implies #[trigger] actions_for(s, events)[k
        + 1] == (Action::Fail { error: IoWatchError::WatchFailed { target: k as usize } }) by {
        lemma_registration_stops(s, registered, k);
    }
}

/// Among targets of which one could not be registered, one is the first such.
proof fn lemma_some_first_refused(registered: Seq<bool>, upto: int)
    requires
        0 <= upto <= registered.len(),
        exists|i: int| 0 <= i < upto && !registered[i],
    ensures
        exists|k: int| first_refused(registered, k),
    decreases upto,
{
    let i = choose|i: int| 0 <= i < upto && !registered[i];
    if forall|j: int| 0 <= j < i ==> registered[j] {
        assert(first_refused(registered, i));
    } else {
        lemma_some_first_refused(registered, i);
    }
}

/// The first target that cannot be registered ends the controller.
proof fn lemma_registration_stops(s: State, registered: Seq<bool>, k: int)
    requires
        s.wf(),
        s.phase is OpeningWatcher,
        registered.len() == s.config.targets.len(),
        first_refused(registered, k),
    ensures
        state_after(s, seq![EventView::Done] + registration_events(registered)).phase is Exited,
        actions_for(s, seq![EventView::Done] + registration_events(registered))[k + 1] == (
        Action::Fail { error: IoWatchError::WatchFailed { target: k as usize } }),
{
    let events = seq![EventView::Done] + registration_events(registered);
    lemma_registration_goes_on(s, registered, k);
    law_actions_are_stepwise(s, events, k + 1);
    assert(events[k + 1] == registration_events(registered)[k]);
    let stopped = state_after(s, events.take(k + 2));
    assert(stopped.phase is Exited);
    let rest = events.skip(k + 2);
    assert(events =~= events.take(k + 2) + rest);
    law_run_splits(s, events.take(k + 2), rest);
    law_exit_is_final(stopped, rest);
}

/// The events of a start-up in which the watcher could be created, the ignore files
/// could be read and the interrupt handler could be installed.
pub open spec fn startup_events(
    registered: Seq<bool>,
    root: Seq<char>,
    files: Seq<Seq<char>>,
) -> Seq<EventView> {
    seq![EventView::Start, EventView::Done] + registration_events(registered) + seq![
        EventView::IgnoreFiles { root: root, files: files },
        EventView::Done,
    ]
}

/// Whatever the watch targets are, a start-up in which all else goes well succeeds if
/// and only if every target can be registered: one target that cannot be fails it.
pub proof fn law_startup(
    config: Config,
    registered: Seq<bool>,
    root: Seq<char>,
    files: Seq<Seq<char>>,
)
    requires
        config.wf(),
        config.targets.len() <= usize::MAX,
        registered.len() == config.targets.len(),
        build_outcome(root, files) is Ok,
    ensures
        all_registered(registered) <==> !(state_after(
            State::initial(config),
            startup_events(registered, root, files),
        ).phase is Exited),
{
    let s0 = State::initial(config);
    let head = seq![EventView::Start];
    let middle = seq![EventView::Done] + registration_events(registered);
    let tail = seq![EventView::IgnoreFiles { root: root, files: files }, EventView::Done];
    assert(startup_events(registered, root, files) =~= (head + middle) + tail);
    law_run_splits(s0, head + middle, tail);
    law_run_splits(s0, head, middle);
    law_one_event(s0, EventView::Start);
    let s1 = state_after(s0, head);
    law_registration(s1, registered);
    let s2 = state_after(s1, middle);
    law_run_keeps_wf(s1, middle);
    if all_registered(registered) {
        let loaded = EventView::IgnoreFiles { root: root, files: files };
        assert(tail =~= seq![loaded] + seq![EventView::Done]);
        law_run_splits(s2, seq![loaded], seq![EventView::Done]);
        law_one_event(s2, loaded);
        law_one_event(next(s2, loaded).0, EventView::Done);
    } else {
        law_exit_is_final(s2, tail);
    }
}

/// A batch whose changes are all ignored starts nothing: the controller waits again,
/// in the state it was in.
pub proof fn law_ignored_batch(s: State, records: Seq<Change>)
    requires
        s.wf(),
        s.phase is Waiting,
        forall|i: int| 0 <= i < records.len() ==> ignored(s.rules, #[trigger] records[i]),
    ensures
        next(s, EventView::Changes { records: records }) == wait(s),
        wait(s).0 == s,
        wait(s).1 is Wait || wait(s).1 is WaitAtMost,
{
    assert(wait(s).0 =~= s);
}

/// A batch that holds a change that is not ignored starts a run, and the same run
/// whatever else the batch holds.
pub proof fn law_relevant_batch(s: State, records: Seq<Change>, i: int)
    requires
        s.wf(),
        s.phase is Waiting,
        0 <= i < records.len(),
        !ignored(s.rules, records[i]),
    ensures
        next(s, EventView::Changes { records: records }) == terminate_then(s, Goal::Rerun),
{
}

/// How many of the actions ask for the utility to be started.
pub open spec fn spawns(actions: Seq<Action>) -> nat
    decreases actions.len(),
{
    if actions.len() == 0 {
        0
    } else {
        spawns(actions.drop_last()) + if actions.last() is Spawn {
            1nat
        } else {
            0nat
        }
    }
}

/// Whether the controller is in the middle of a run: it stops the old process in order
/// to start a new one, clears the terminal, sleeps, or starts the utility.
pub open spec fn mid_run(phase: Phase) -> bool {
    match phase {
        Phase::Locating { goal } => goal is Rerun,
        Phase::Signalling { goal, to } => goal is Rerun,
        Phase::Reaping { goal } => goal is Rerun,
        Phase::Clearing => true,
        Phase::Sleeping => true,
        Phase::Spawning => true,
        _ => false,
    }
}

/// How many spawns the run that is under way still has to ask for.
pub open spec fn owed(phase: Phase) -> nat {
    if mid_run(phase) && !(phase is Spawning) {
        1
    } else {
        0
    }
}

/// One step of a run asks for the spawn that is owed, or leaves it owed, or fails.
proof fn lemma_run_step(s: State, e: EventView)
    requires
        s.wf(),
        mid_run(s.phase),
    ensures
        ({
            let (t, a) = next(s, e);
            let asked = if a is Spawn {
                1nat
            } else {
                0nat
            };
            &&& asked + owed(t.phase) <= owed(s.phase)
            &&& mid_run(t.phase) || t.phase is Waiting || a is Finish ==> asked + owed(t.phase)
                == owed(s.phase)
            &&& mid_run(t.phase) || t.phase is Waiting || t.phase is Exited
        }),
{
}

proof fn lemma_run_spawns(t: State, answers: Seq<EventView>)
    requires
        t.wf(),
        mid_run(t.phase),
        forall|j: int|
            0 <= j < answers.len() ==> mid_run(#[trigger] state_after(t, answers.take(j)).phase),
    ensures
        ({
            let end = state_after(t, answers);
            let actions = actions_for(t, answers);
            &&& spawns(actions) + owed(end.phase) <= owed(t.phase)
            &&& mid_run(end.phase) || end.phase is Waiting || (actions.len() > 0
                && actions.last() is Finish) ==> spawns(actions) + owed(end.phase) == owed(
                t.phase,
            )
        }),
    decreases answers.len(),
{
    if answers.len() > 0 {
        let front = answers.drop_last();
        assert forall|j: int| 0 <= j < front.len() implies mid_run(
            #[trigger] state_after(t, front.take(j)).phase,
        ) by {
            assert(front.take(j) =~= answers.take(j));
        }
        lemma_run_spawns(t, front);
        assert(answers.take(answers.len() - 1) =~= front);
        let mid = state_after(t, front);
        assert(mid_run(mid.phase));
        law_run_keeps_wf(t, front);
        lemma_run_step(mid, answers.last());
        assert(actions_for(t, answers).drop_last() =~= actions_for(t, front));
    }
}

/// A run asks for the utility to be started at most once, and exactly once where the
/// run comes to its end: the controller waits again, or leaves after the run.
///
/// The run starts in `s`, where the controller waits for events or has just finished
/// its start-up. `answers` are the events that answer the run's actions: up to the
/// last of them the controller is in the middle of the run.
pub proof fn law_one_spawn_per_run(s: State, answers: Seq<EventView>)
    requires
        s.wf(),
        s.phase is Waiting || s.phase is InstallingInterrupt,
        forall|j: int|
            0 <= j < answers.len() ==> mid_run(
                #[trigger] state_after(terminate_then(s, Goal::Rerun).0, answers.take(j)).phase,
            ),
    ensures
        ({
            let (t, first) = terminate_then(s, Goal::Rerun);
            let actions = seq![first] + actions_for(t, answers);
            let end = state_after(t, answers);
            &&& spawns(actions) <= 1
            &&& end.phase is Waiting || actions.last() is Finish ==> spawns(actions) == 1
        }),
{
    let (t, first) = terminate_then(s, Goal::Rerun);
    let rest = actions_for(t, answers);
    lemma_run_spawns(t, answers);
    lemma_spawns_after_first(first, rest);
    assert((seq![first] + rest).last() == if rest.len() > 0 {
        rest.last()
    } else {
        first
    });
    if answers.len() == 0 {
        assert(rest =~= Seq::<Action>::empty());
    }
}

proof fn lemma_spawns_after_first(first: Action, rest: Seq<Action>)
    ensures
        spawns(seq![first] + rest) == spawns(rest) + if first is Spawn {
            1nat
        } else {
            0nat
        },
    decreases rest.len(),
{
    reveal_with_fuel(spawns, 2);
    if rest.len() == 0 {
        assert(seq![first] + rest =~= seq![first]);
        assert(seq![first].drop_last() =~= Seq::<Action>::empty());
    } else {
        lemma_spawns_after_first(first, rest.drop_last());
        assert((seq![first] + rest).drop_last() =~= seq![first] + rest.drop_last());
    }
}

/// The utility is started only while no process is current, and a process stops being
/// current only when its exit is confirmed: it was waited for, or it was found gone.
pub proof fn law_one_process_at_a_time(s: State, e: EventView)
    requires
        s.wf(),
    ensures
        ({
            let (t, a) = next(s, e);
            &&& a is Spawn ==> t.child is None && t.phase is Spawning
            &&& s.child is Some && t.child != s.child ==> t.child is None && ((s.phase is Reaping
                && e is Done) || (s.phase is Locating && e is NoSuchProcess))
            &&& s.child is None && t.child is Some ==> s.phase is Spawning && e is Spawned
        }),
{
}

/// Stopping the utility while none runs is a success without effect: nothing is
/// looked up, signalled or waited for, and what the stop was for comes next.
pub proof fn law_terminate_idle(s: State, goal: Goal)
    requires
        s.child is None,
    ensures
        terminate_then(s, goal) == after_terminate(s, goal),
        after_terminate(s, goal).0.child is None,
        !(after_terminate(s, goal).1 is FindGroup),
        !(after_terminate(s, goal).1 is Signal),
        !(after_terminate(s, goal).1 is Reap),
        !(after_terminate(s, goal).1 is Fail),
        goal is Shutdown ==> after_terminate(s, goal).1 is Finish,
{
}

/// Stopping a utility that has exited by itself is a success without effect: once the
/// process is found gone nothing is signalled or waited for, no process is current,
/// and what the stop was for comes next.
pub proof fn law_terminate_gone(s: State, goal: Goal)
    requires
        s.wf(),
        s.phase == (Phase::Locating { goal: goal }),
    ensures
        next(s, EventView::NoSuchProcess) == after_terminate(s, goal),
        after_terminate(s, goal).0.child is None,
        !(after_terminate(s, goal).1 is Signal),
        !(after_terminate(s, goal).1 is Reap),
        !(after_terminate(s, goal).1 is Fail),
        goal is Shutdown ==> after_terminate(s, goal).1 is Finish,
{
}

/// Whether an event, met while waiting, is no cause for a run: a batch without a
/// change that counts, or a batch of delivery errors.
pub open spec fn no_cause(s: State, e: EventView) -> bool {
    match e {
        EventView::Changes { records } => !relevant(s.rules, records),
        EventView::DeliveryErrors => true,
        _ => false,
    }
}

/// Where the first run is postponed, start-up ends with the controller waiting, and
/// as long as no event is a cause for a run the utility is not started: the controller
/// answers each event by waiting again, in the state it was in.
pub proof fn law_postponed(s: State, events: Seq<EventView>)
    requires
        s.wf(),
        s.phase is InstallingInterrupt,
        s.config.postpone,
        forall|i: int| 0 <= i < events.len() ==> no_cause(s, #[trigger] events[i]),
    ensures
        next(s, EventView::Done) == wait(s),
        state_after(wait(s).0, events) == wait(s).0,
        forall|i: int|
            0 <= i < events.len() ==> #[trigger] actions_for(wait(s).0, events)[i] == wait(s).1,
        spawns(seq![wait(s).1] + actions_for(wait(s).0, events)) == 0,
{
    let w = wait(s).0;
    lemma_waiting_without_cause(w, events);
    lemma_spawns_after_first(wait(s).1, actions_for(w, events));
}

/// While it waits, the controller answers events that are no cause for a run by
/// waiting again, in the state it was in.
pub proof fn lemma_waiting_without_cause(w: State, events: Seq<EventView>)
    requires
        w.wf(),
        w.phase is Waiting,
        forall|i: int| 0 <= i < events.len() ==> no_cause(w, #[trigger] events[i]),
    ensures
        state_after(w, events) == w,
        forall|i: int| 0 <= i < events.len() ==> #[trigger] actions_for(w, events)[i] == wait(w).1,
        spawns(actions_for(w, events)) == 0,
    decreases events.len(),
{
    if events.len() > 0 {
        let front = events.drop_last();
        lemma_waiting_without_cause(w, front);
        lemma_actions_len(w, front);
        assert(no_cause(w, events[events.len() - 1]));
        assert(next(w, events.last()).0 =~= w);
        assert forall|i: int| 0 <= i < events.len() implies #[trigger] actions_for(w, events)[i]
            == wait(w).1 by {
            if i < front.len() {
                assert(actions_for(w, events)[i] == actions_for(w, front)[i]);
            }
        }
        assert(actions_for(w, events).drop_last() =~= actions_for(w, front));
    }
}

/// The events of the first run: the interrupt handler is installed, the terminal is
/// cleared where that is asked for, and the spawn is answered.
pub open spec fn first_run_events(
    config: Config,
    cleared: EventView,
    spawned: EventView,
) -> Seq<EventView> {
    if config.clear_term {
        seq![EventView::Done, cleared, spawned]
    } else {
        seq![EventView::Done, spawned]
    }
}

/// Where the first run is not postponed, start-up ends with exactly one run, without
/// a delay, before the controller waits for the first time; and where the controller
/// is to leave after the first run, it then finishes with success and never waits.
/// Neither a terminal that cannot be cleared nor a utility that cannot be started
/// changes that.
pub proof fn law_first_run(s: State, cleared: EventView, spawned: EventView)
    requires
        s.wf(),
        s.phase is InstallingInterrupt,
        !s.config.postpone,
        cleared is Done || cleared is Failed,
        spawned is Spawned || spawned is Failed,
    ensures
        ({
            let events = first_run_events(s.config, cleared, spawned);
            let end = state_after(s, events);
            let last = if s.config.exit_after {
                Action::Finish
            } else {
                wait(s).1
            };
            &&& actions_for(s, events) == if s.config.clear_term {
                seq![Action::ClearScreen, Action::Spawn, last]
            } else {
                seq![Action::Spawn, last]
            }
            &&& spawns(actions_for(s, events)) == 1
            &&& end.phase == if s.config.exit_after {
                Phase::Exited
            } else {
                Phase::Waiting
            }
            &&& end.child == match spawned {
                EventView::Spawned { pid } => Some(pid),
                _ => None,
            }
            &&& !end.first_run
        }),
{
    let events = first_run_events(s.config, cleared, spawned);
    let done = EventView::Done;
    reveal_with_fuel(spawns, 4);
    law_one_event(s, done);
    let s1 = next(s, done).0;
    if s.config.clear_term {
        assert(events =~= seq![done] + (seq![cleared] + seq![spawned]));
        law_run_splits(s, seq![done], seq![cleared] + seq![spawned]);
        law_run_splits(s1, seq![cleared], seq![spawned]);
        law_one_event(s1, cleared);
        let s2 = next(s1, cleared).0;
        law_one_event(s2, spawned);
        let last = next(s2, spawned).1;
        let got = seq![Action::ClearScreen, Action::Spawn, last];
        assert(actions_for(s, events) =~= got);
        assert(got.drop_last() =~= seq![Action::ClearScreen, Action::Spawn]);
        assert(got.drop_last().drop_last() =~= seq![Action::ClearScreen]);
        assert(got.drop_last().drop_last().drop_last() =~= Seq::<Action>::empty());
    } else {
        assert(events =~= seq![done] + seq![spawned]);
        law_run_splits(s, seq![done], seq![spawned]);
        law_one_event(s1, spawned);
        let last = next(s1, spawned).1;
        let got = seq![Action::Spawn, last];
        assert(actions_for(s, events) =~= got);
        assert(got.drop_last() =~= seq![Action::Spawn]);
        assert(got.drop_last().drop_last() =~= Seq::<Action>::empty());
    }
}

} // verus!
