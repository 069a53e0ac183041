//! The container orchestrator's decision core: one run is a sequence
//! create, attach, spawn the background wait, start, block for the exit
//! code, remove — attach strictly before start, the wait request issued
//! before start so the `next-exit` condition cannot race it, and removal
//! only after a confirmed exit code. A failure at any stage ends the run at
//! once; a failed wait leaves the container in place for inspection.
//!
//! The machine is pure: the driver performs each returned action — an
//! engine call, spawning the wait thread, or receiving from the one-shot
//! exit-code channel — and feeds back what happened. Actions that produce
//! no new event (spawning the already-guarded wait thread, a receive that
//! has already completed) re-feed the event that led to them.

use vstd::prelude::*;
use crate::error::DockerError;

verus! {

/// The lifecycle stage an engine call belongs to, used to name which step
/// failed.
#[derive(Clone, Copy, Debug, PartialEq, Eq, Structural)]
pub enum Stage {
    Attach,
    Start,
    Wait,
    Remove,
}

/// Where a run stands. `Created` holds a freshly created container;
/// `Attached` a completed attach handshake with its stream classification;
/// `WaitPending` a spawned background wait; `Started` a running container;
/// `Exited` a confirmed exit code not yet cleaned up; `Done` a removed
/// container with its exit code delivered; `Failed` the stage and error
/// that ended the run.
#[derive(Debug)]
pub enum RunState {
    Created,
    Attached { multiplexed: bool },
    WaitPending,
    Started,
    Exited { code: u8 },
    Done { code: u8 },
    Failed { stage: Stage, error: DockerError },
}

/// What the driver reports back: a completed attach handshake with its
/// classification, a started container, a received exit code, a completed
/// removal, or a failed call at some stage.
#[derive(Debug)]
pub enum RunEvent {
    AttachOk(bool),
    StartOk,
    WaitOk(u8),
    RemoveOk,
    CallErr(Stage, DockerError),
}

/// What the driver is to do next. `SpawnWait` spawns the background thread
/// that issues the wait call and writes its result once into the one-shot
/// channel; `AwaitExit` blocks on that channel's single read; `Stop` ends
/// the run.
#[derive(Clone, Copy, Debug, PartialEq, Eq, Structural)]
pub enum RunAction {
    DoAttach,
    SpawnWait,
    DoStart,
    AwaitExit,
    DoRemove,
    Stop,
}

/// The transition relation of one run, as a total function of the state and
/// the arriving event. Any call failure ends the run immediately in
/// `Failed`, keeping the stage and error; in particular a failed wait stops
/// before any removal. On the forward path: an attach handshake must
/// complete before the wait is spawned, the wait is spawned before start is
/// issued, and removal is issued only from a confirmed exit.
pub open spec fn spec_run_step(s: RunState, e: RunEvent) -> (RunState, RunAction) {
    match e {
        RunEvent::CallErr(stage, error) => (RunState::Failed { stage, error }, RunAction::Stop),
        _ => match s {
            RunState::Created => match e {
                RunEvent::AttachOk(m) => (
                    RunState::Attached { multiplexed: m },
                    RunAction::SpawnWait,
                ),
                _ => (RunState::Created, RunAction::Stop),
            },
            RunState::Attached { .. } => (RunState::WaitPending, RunAction::SpawnWait),
            RunState::WaitPending => (RunState::Started, RunAction::DoStart),
            RunState::Started => match e {
                RunEvent::WaitOk(code) => (RunState::Exited { code }, RunAction::AwaitExit),
                _ => (RunState::Started, RunAction::AwaitExit),
            },
            RunState::Exited { code } => match e {
                RunEvent::RemoveOk => (RunState::Done { code }, RunAction::Stop),
                _ => (RunState::Exited { code }, RunAction::DoRemove),
            },
            RunState::Done { code } => (RunState::Done { code }, RunAction::Stop),
            RunState::Failed { stage, error } => (
                RunState::Failed { stage, error },
                RunAction::Stop,
            ),
        },
    }
}

/// Advances a run by one event.
///
/// Laws, each for every state and event: start is only ever issued from
/// `WaitPending`, so the attach handshake and the wait request both precede
/// it; a completed handshake is followed by spawning the wait; removal is
/// only ever issued from a confirmed exit; a failed wait stops the run with
/// no removal, leaving the container for inspection; a delivered exit code
/// is exactly the confirmed one; and a failed call records its stage.
pub fn run_step(s: RunState, e: RunEvent) -> (r: (RunState, RunAction))
    ensures
        r == spec_run_step(s, e),
        r.1 is DoStart ==> s is WaitPending,
        s matches RunState::Attached { .. } && !(e is CallErr) ==> r.1 is SpawnWait,
        r.1 is DoRemove ==> s matches RunState::Exited { .. },
        e matches RunEvent::CallErr(st, _) && st is Wait ==> r.1 is Stop,
        !(s is Done) ==> (r.0 matches RunState::Done { code } ==> (s matches RunState::Exited {
            code: c } && code == c)),
        e matches RunEvent::CallErr(st, err) ==> (r.0 matches RunState::Failed { stage, error }
            && stage == st && error == err),
{
    match e {
        RunEvent::CallErr(stage, error) => (RunState::Failed { stage, error }, RunAction::Stop),
        e => match s {
            RunState::Created => match e {
                RunEvent::AttachOk(m) => (
                    RunState::Attached { multiplexed: m },
                    RunAction::SpawnWait,
                ),
                _ => (RunState::Created, RunAction::Stop),
            },
            RunState::Attached { .. } => (RunState::WaitPending, RunAction::SpawnWait),
            RunState::WaitPending => (RunState::Started, RunAction::DoStart),
            RunState::Started => match e {
                RunEvent::WaitOk(code) => (RunState::Exited { code }, RunAction::AwaitExit),
                _ => (RunState::Started, RunAction::AwaitExit),
            },
            RunState::Exited { code } => match e {
                RunEvent::RemoveOk => (RunState::Done { code }, RunAction::Stop),
                _ => (RunState::Exited { code }, RunAction::DoRemove),
            },
            RunState::Done { code } => (RunState::Done { code }, RunAction::Stop),
            RunState::Failed { stage, error } => (
                RunState::Failed { stage, error },
                RunAction::Stop,
            ),
        },
    }
}

/// The state a run starts in, right after creation, and the first action:
/// attach, before anything else, so no early output is lost.
pub fn run_start() -> (r: (RunState, RunAction))
    ensures
        r.0 is Created,
        r.1 is DoAttach,
{
    (RunState::Created, RunAction::DoAttach)
}

/// Law (exit code delivered exactly once): along any event sequence, the
/// machine reaches `Done { code }` only through a step from
/// `Exited { code }` on a successful removal, and `Exited { code }` is only
/// entered by delivering `WaitOk(code)` while started — the one value the
/// background wait wrote into the one-shot channel.
pub proof fn lemma_exit_code_provenance(s: RunState, e: RunEvent)
    ensures
        !(s is Done) ==> (spec_run_step(s, e).0 matches RunState::Done { code } ==> (
        s matches RunState::Exited { code: c } && c == code) && e is RemoveOk),
        spec_run_step(s, e).0 is Exited && !(s is Exited) ==> s is Started,
        s is Started ==> (spec_run_step(s, e).0 matches RunState::Exited { code } ==> (
        e matches RunEvent::WaitOk(c) && c == code)),
{
}

} // verus!
