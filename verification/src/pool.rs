//! The decision core of the worker pool. A worker is a little state
//! machine: idle until the shared queue hands it a task, executing until
//! that task completes, terminated once the queue closes. The caller's
//! worker loop performs the blocking receive and runs the task; which step
//! to take next is decided here.

use vstd::prelude::*;

verus! {

#[derive(Clone, Copy, PartialEq, Eq, Structural, Debug)]
pub enum WorkerState {
    /// Waiting on the shared queue.
    Idle,
    /// Running one claimed task.
    Executing,
    /// The queue closed; the worker's loop has ended.
    Terminated,
}

#[derive(Clone, Copy, PartialEq, Eq, Structural, Debug)]
pub enum WorkerEvent {
    /// The queue handed the worker a task.
    TaskArrived,
    /// The queue was closed and is empty; receiving can never succeed
    /// again.
    QueueClosed,
    /// The task the worker was running completed.
    TaskFinished,
}

/// The transition table: the next state, and whether the worker must now
/// run the task it was handed.
pub open spec fn spec_worker_step(s: WorkerState, e: WorkerEvent) -> (WorkerState, bool) {
    match (s, e) {
        (WorkerState::Idle, WorkerEvent::TaskArrived) => (WorkerState::Executing, true),
        (WorkerState::Idle, WorkerEvent::QueueClosed) => (WorkerState::Terminated, false),
        (WorkerState::Executing, WorkerEvent::TaskFinished) => (WorkerState::Idle, false),
        _ => (s, false),
    }
}

pub fn worker_step(s: WorkerState, e: WorkerEvent) -> (r: (WorkerState, bool))
    ensures
        r == spec_worker_step(s, e),
{
    match (s, e) {
        (WorkerState::Idle, WorkerEvent::TaskArrived) => (WorkerState::Executing, true),
        (WorkerState::Idle, WorkerEvent::QueueClosed) => (WorkerState::Terminated, false),
        (WorkerState::Executing, WorkerEvent::TaskFinished) => (WorkerState::Idle, false),
        _ => (s, false),
    }
}

/// Termination is final: no event moves a terminated worker again, and no
/// task is ever started by one.
pub proof fn lemma_terminated_is_final(e: WorkerEvent)
    ensures
        spec_worker_step(WorkerState::Terminated, e).0 is Terminated,
        !spec_worker_step(WorkerState::Terminated, e).1,
{
}

/// A task only ever starts on an idle worker that was handed one: the
/// worker never runs two tasks at once, and never one after the queue
/// closed on it.
pub proof fn lemma_task_starts_when_idle(s: WorkerState, e: WorkerEvent)
    ensures
        spec_worker_step(s, e).1 ==> s is Idle && e is TaskArrived && spec_worker_step(s, e).0
            is Executing,
{
}

} // verus!
