//! Running games: their handles, and what is reported of them.
use std::collections::HashMap;
use vstd::prelude::*;

use crate::error::{error_text, LauncherError};
use crate::number::{decimal, decimal_text, signed_decimal, signed_text};
use crate::text::{concat2, concat4};

verus! {

// ---------------------------------------------------------------------------
// Handles
// ---------------------------------------------------------------------------

/// The running processes, each under the handle that it was given.
pub struct ProcessTable<C> {
    pub processes: HashMap<u64, C>,
    /// The handle that the next process gets.
    pub next: u64,
}

impl<C> ProcessTable<C> {
    /// Whether no handle has come up that is still to be given.
    pub open spec fn handles_are_used(&self) -> bool {
        forall|handle: u64| #[trigger] self.processes@.contains_key(handle) ==> handle < self.next
    }

    /// A table without processes. The first handle is 1.
    pub fn new() -> (table: ProcessTable<C>)
        ensures
            table.processes@ == Map::<u64, C>::empty(),
            table.next == 1,
            table.handles_are_used(),
    {
        ProcessTable { processes: HashMap::new(), next: 1 }
    }

    /// Takes in a process. Handles count up, so as long as they do not run out, the handle is a new
    /// one.
    pub fn register(&mut self, process: C) -> (handle: u64)
        ensures
            handle == old(self).next,
            final(self).processes@ == old(self).processes@.insert(handle, process),
            final(self).next == (if old(self).next < u64::MAX {
                (old(self).next + 1) as u64
            } else {
                0
            }),
            old(self).handles_are_used() ==> !old(self).processes@.contains_key(handle),
            old(self).handles_are_used() && old(self).next < u64::MAX
                ==> final(self).handles_are_used(),
    {
        broadcast use vstd::std_specs::hash::group_hash_axioms;

        let handle: u64 = self.next;
        self.processes.insert(handle, process);
        self.next = if handle < u64::MAX {
            handle + 1
        } else {
            0
        };
        handle
    }

    /// Gives up a process. A handle without one is refused, and the table stays as it is.
    pub fn release(&mut self, handle: u64) -> (process: Result<C, LauncherError>)
        ensures
            final(self).next == old(self).next,
            final(self).processes@ == old(self).processes@.remove(handle),
            match process {
                Ok(process) => {
                    &&& old(self).processes@.contains_key(handle)
                    &&& process == old(self).processes@[handle]
                },
                Err(error) => {
                    &&& !old(self).processes@.contains_key(handle)
                    &&& error is ProcessNotFound
                    &&& final(self).processes@ == old(self).processes@
                },
            },
            old(self).handles_are_used() ==> final(self).handles_are_used(),
    {
        broadcast use vstd::std_specs::hash::group_hash_axioms;

        let ghost before = self.processes@;
        match self.processes.remove(&handle) {
            Some(process) => Ok(process),
            None => {
                assert(before.remove(handle) =~= before);
                Err(LauncherError::ProcessNotFound)
            },
        }
    }
}

// ---------------------------------------------------------------------------
// Events
// ---------------------------------------------------------------------------

/// Something to report.
#[derive(Debug)]
pub enum LaunchEvent {
    /// What a process has come to.
    State(String),
    /// A line of the log.
    Log(String),
}

/// What a [`LaunchEvent`] holds.
pub enum EventModel {
    State(Seq<char>),
    Log(Seq<char>),
}

impl DeepView for LaunchEvent {
    type V = EventModel;

    open spec fn deep_view(&self) -> EventModel {
        match self {
            LaunchEvent::State(text) => EventModel::State(text@),
            LaunchEvent::Log(text) => EventModel::Log(text@),
        }
    }
}

/// What is reported of a process that was started.
pub fn started_event(handle: u64) -> (event: LaunchEvent)
    ensures
        event.deep_view() == EventModel::State("started:"@ + decimal_text(handle as nat)),
{
    let digits = decimal(handle);
    LaunchEvent::State(concat2("started:", digits.as_str()))
}

/// What is reported of a process that was stopped.
pub fn stopped_event(handle: u64) -> (event: LaunchEvent)
    ensures
        event.deep_view() == EventModel::State("stopped:"@ + decimal_text(handle as nat)),
{
    let digits = decimal(handle);
    LaunchEvent::State(concat2("stopped:", digits.as_str()))
}

/// A stream that a process writes to.
#[derive(Clone, Copy, Debug, PartialEq, Eq, Structural)]
pub enum OutputStream {
    Stdout,
    Stderr,
}

/// What is reported of a line that a process wrote.
pub fn output_event(stream: OutputStream, line: &str) -> (event: LaunchEvent)
    ensures
        event.deep_view() == EventModel::Log(
            (match stream {
                OutputStream::Stdout => "[stdout] "@,
                OutputStream::Stderr => "[stderr] "@,
            }) + line@,
        ),
{
    let mark = match stream {
        OutputStream::Stdout => "[stdout] ",
        OutputStream::Stderr => "[stderr] ",
    };
    LaunchEvent::Log(concat2(mark, line))
}

// ---------------------------------------------------------------------------
// Watching
// ---------------------------------------------------------------------------

/// What a look at a process gave.
#[derive(Debug)]
pub enum Observation {
    /// The table of processes cannot be used.
    TableUnavailable,
    /// The process is no longer in the table.
    Gone,
    Running,
    /// The process has come to its end, with this code if it has one.
    Exited(Option<i32>),
    /// The process could not be looked at.
    StatusFailed(String),
}

/// What is done after a look at a process.
#[derive(Debug)]
pub struct WatchStep {
    /// What to report, in order.
    pub events: Vec<LaunchEvent>,
    /// Whether the process leaves the table.
    pub remove: bool,
    /// Whether to look again.
    pub go_on: bool,
}

/// The code that a process is reported to have come to its end with.
pub open spec fn exit_code(observation: Observation) -> Option<int> {
    match observation {
        Observation::Exited(Some(code)) => Some(code as int),
        Observation::Exited(None) => Some(-1),
        Observation::StatusFailed(_) => Some(-1),
        _ => None,
    }
}

/// What is reported of a process that came to its end: the end, and a code other than 0 once more.
pub open spec fn exit_events(handle: u64, code: int) -> Seq<EventModel> {
    let end = EventModel::State(
        "exited:"@ + decimal_text(handle as nat) + ":"@ + signed_text(code),
    );
    if code == 0 {
        seq![end]
    } else {
        seq![end, EventModel::Log("[launcher] process exited with code "@ + signed_text(code))]
    }
}

/// What is reported after a look at a process.
pub open spec fn watch_events(handle: u64, observation: Observation) -> Seq<EventModel> {
    match observation {
        Observation::TableUnavailable => seq![
            EventModel::Log(
                "[launcher] process table error: "@ + error_text(
                    LauncherError::ProcessTableUnavailable,
                ),
            ),
        ],
        Observation::Gone => Seq::empty(),
        Observation::Running => Seq::empty(),
        Observation::Exited(_) => exit_events(handle, exit_code(observation)->Some_0),
        Observation::StatusFailed(error) => seq![
            EventModel::Log("[launcher] failed to read process status: "@ + error@),
        ] + exit_events(handle, -1),
    }
}

fn report_exit(events: &mut Vec<LaunchEvent>, handle: u64, code: i32)
    ensures
        final(events).deep_view() == old(events).deep_view() + exit_events(handle, code as int),
{
    let ghost before = events.deep_view();
    let handle_digits = decimal(handle);
    let code_digits = signed_decimal(code);
    events.push(
        LaunchEvent::State(
            concat4("exited:", handle_digits.as_str(), ":", code_digits.as_str()),
        ),
    );
    if code != 0 {
        events.push(
            LaunchEvent::Log(concat2("[launcher] process exited with code ", code_digits.as_str())),
        );
    }
    assert(events.deep_view() =~= before + exit_events(handle, code as int));
}

/// What is done after a look at the process with this handle. A process that came to its end, or
/// that cannot be looked at, leaves the table; only a running one is looked at again.
pub fn watch_step(handle: u64, observation: Observation) -> (step: WatchStep)
    ensures
        step.events.deep_view() == watch_events(handle, observation),
        step.remove <==> exit_code(observation) is Some,
        step.go_on <==> observation is Running,
{
    let mut events: Vec<LaunchEvent> = Vec::new();
    assert(events.deep_view() =~= Seq::empty());
    match observation {
        Observation::TableUnavailable => {
            let text = LauncherError::ProcessTableUnavailable.message();
            events.push(
                LaunchEvent::Log(concat2("[launcher] process table error: ", text.as_str())),
            );
            assert(events.deep_view() =~= watch_events(handle, observation));
            WatchStep { events, remove: false, go_on: false }
        },
        Observation::Gone => WatchStep { events, remove: false, go_on: false },
        Observation::Running => WatchStep { events, remove: false, go_on: true },
        Observation::Exited(given) => {
            let code: i32 = match given {
                Some(code) => code,
                None => -1,
            };
            report_exit(&mut events, handle, code);
            assert(events.deep_view() =~= watch_events(handle, observation));
            WatchStep { events, remove: true, go_on: false }
        },
        Observation::StatusFailed(error) => {
            events.push(
                LaunchEvent::Log(
                    concat2("[launcher] failed to read process status: ", error.as_str()),
                ),
            );
            report_exit(&mut events, handle, -1);
            assert(events.deep_view() =~= watch_events(handle, observation));
            WatchStep { events, remove: true, go_on: false }
        },
    }
}

// ---------------------------------------------------------------------------
// Laws
// ---------------------------------------------------------------------------

/// A process leaves the table exactly when its end is reported, and is then not looked at again.
pub proof fn law_end_is_reported_once(handle: u64, observation: Observation)
    ensures
        exit_code(observation) is Some ==> !(observation is Running),
        exit_code(observation) matches Some(code) ==> watch_events(handle, observation).contains(
            EventModel::State("exited:"@ + decimal_text(handle as nat) + ":"@ + signed_text(code)),
        ),
        exit_code(observation) is None ==> forall|i: int|
            0 <= i < watch_events(handle, observation).len() ==> !((#[trigger] watch_events(
                handle,
                observation,
            )[i]) is State),
{
    if let Some(code) = exit_code(observation) {
        let all = watch_events(handle, observation);
        let end = EventModel::State(
            "exited:"@ + decimal_text(handle as nat) + ":"@ + signed_text(code),
        );
        if observation is StatusFailed {
            assert(all[1] == end);
        } else {
            assert(all[0] == end);
        }
    }
}

/// A clean end is reported without a word in the log.
pub proof fn law_clean_end_is_quiet(handle: u64)
    ensures
        watch_events(handle, Observation::Exited(Some(0i32))).len() == 1,
{
}

/// What is reported after each look at a process: nothing of one that runs or is gone; one line of a
/// table that cannot be used; of one that came to its end the end with its code, -1 where there is
/// none, and a code other than 0 once more in the log; of one that cannot be looked at the reason,
/// and then an end with -1.
pub proof fn law_what_is_reported(handle: u64, code: i32, reason: String)
    ensures
        watch_events(handle, Observation::Gone).len() == 0,
        watch_events(handle, Observation::Running).len() == 0,
        watch_events(handle, Observation::TableUnavailable) == seq![
            EventModel::Log(
                "[launcher] process table error: "@ + error_text(
                    LauncherError::ProcessTableUnavailable,
                ),
            ),
        ],
        watch_events(handle, Observation::Exited(Some(0i32))) == seq![
            EventModel::State("exited:"@ + decimal_text(handle as nat) + ":"@ + signed_text(0)),
        ],
        code != 0 ==> watch_events(handle, Observation::Exited(Some(code))) == seq![
            EventModel::State(
                "exited:"@ + decimal_text(handle as nat) + ":"@ + signed_text(code as int),
            ),
            EventModel::Log("[launcher] process exited with code "@ + signed_text(code as int)),
        ],
        watch_events(handle, Observation::Exited(None)) == seq![
            EventModel::State("exited:"@ + decimal_text(handle as nat) + ":"@ + signed_text(-1)),
            EventModel::Log("[launcher] process exited with code "@ + signed_text(-1)),
        ],
        watch_events(handle, Observation::StatusFailed(reason)) == seq![
            EventModel::Log("[launcher] failed to read process status: "@ + reason@),
            EventModel::State("exited:"@ + decimal_text(handle as nat) + ":"@ + signed_text(-1)),
            EventModel::Log("[launcher] process exited with code "@ + signed_text(-1)),
        ],
{
    assert(watch_events(handle, Observation::StatusFailed(reason)) =~= seq![
        EventModel::Log("[launcher] failed to read process status: "@ + reason@),
        EventModel::State("exited:"@ + decimal_text(handle as nat) + ":"@ + signed_text(-1)),
        EventModel::Log("[launcher] process exited with code "@ + signed_text(-1)),
    ]);
}

/// Only a process that came to its end, or that cannot be looked at, has a code to be reported.
pub proof fn law_which_processes_have_a_code(observation: Observation, code: i32)
    ensures
        observation == Observation::Exited(Some(code)) ==> exit_code(observation) == Some(
            code as int,
        ),
        observation == Observation::Exited(None) ==> exit_code(observation) == Some(-1int),
        observation is StatusFailed ==> exit_code(observation) == Some(-1int),
        observation is TableUnavailable || observation is Gone || observation is Running
            ==> exit_code(observation) is None,
{
}

/// What is reported of a process that starts, stops or writes a line names the process or the stream.
pub proof fn law_reported_events(
    handle: u64,
    line: &str,
    started: LaunchEvent,
    stopped: LaunchEvent,
    out: LaunchEvent,
    err: LaunchEvent,
)
    requires
        call_ensures(started_event, (handle,), started),
        call_ensures(stopped_event, (handle,), stopped),
        call_ensures(output_event, (OutputStream::Stdout, line), out),
        call_ensures(output_event, (OutputStream::Stderr, line), err),
    ensures
        started.deep_view() == EventModel::State("started:"@ + decimal_text(handle as nat)),
        stopped.deep_view() == EventModel::State("stopped:"@ + decimal_text(handle as nat)),
        out.deep_view() == EventModel::Log("[stdout] "@ + line@),
        err.deep_view() == EventModel::Log("[stderr] "@ + line@),
{
}

/// Only a running process is looked at again, and only one whose end is reported leaves the table.
pub proof fn law_watching_goes_on_while_running(
    handle: u64,
    observation: Observation,
    step: WatchStep,
)
    requires
        call_ensures(watch_step, (handle, observation), step),
    ensures
        step.go_on <==> observation is Running,
        step.remove <==> observation is Exited || observation is StatusFailed,
        !(step.go_on && step.remove),
{
}

} // verus!
