//! The pipeline's control decisions: when a worker keeps polling, when it
//! processes a frame, when it may exit, and which file-system events publish
//! a frame path.
//!
//! Workers share one consuming end of the frame queue and a single shutdown
//! flag. The termination protocol: a worker processes every frame the queue
//! yields; it exits only once the shutdown flag has been observed *and* the
//! queue stayed empty for one whole poll timeout. Exiting on the flag alone
//! would drop frames enqueued just before extraction finished.

use vstd::prelude::*;

verus! {

/// What a worker does after one poll of the frame queue.
#[derive(Clone, Copy, Debug, PartialEq, Eq, Structural)]
pub enum WorkerAction {
    /// A frame was received: run the frame pipeline on it.
    Process,
    /// Nothing was received and shutdown was not requested: poll again.
    Poll,
    /// Nothing was received although shutdown was requested: the queue has
    /// been drained, the worker may stop.
    Exit,
}

/// One worker decision: process whatever the queue yields; keep polling on a
/// timeout; exit only on a timeout after the shutdown request, which means
/// the queue stayed empty for one whole poll period.
pub fn worker_decision(shutdown_requested: bool, frame_available: bool) -> (r: WorkerAction)
    ensures
        frame_available ==> r == WorkerAction::Process,
        !frame_available && !shutdown_requested ==> r == WorkerAction::Poll,
        !frame_available && shutdown_requested ==> r == WorkerAction::Exit,
{
    if frame_available {
        WorkerAction::Process
    } else if shutdown_requested {
        WorkerAction::Exit
    } else {
        WorkerAction::Poll
    }
}

/// One observed poll of the frame queue: the shutdown flag as read before the
/// poll, and the frame the queue yielded, if any.
pub struct PollEvent {
    /// The shutdown flag at this poll.
    pub shutdown_seen: bool,
    /// The frame the queue yielded within the poll timeout, if any.
    pub frame: Option<u64>,
}

/// The frames a worker following `worker_decision` processes over a trace of
/// polls: every yielded frame, until the first empty poll with the shutdown
/// flag set, where the worker exits.
pub open spec fn spec_processed(trace: Seq<PollEvent>) -> Seq<u64>
    decreases trace.len(),
{
    if trace.len() == 0 {
        Seq::<u64>::empty()
    } else {
        match trace[0].frame {
            Some(f) => seq![f] + spec_processed(trace.drop_first()),
            None => if trace[0].shutdown_seen {
                Seq::<u64>::empty()
            } else {
                spec_processed(trace.drop_first())
            },
        }
    }
}

/// The poll at which a worker following `worker_decision` exits: the first
/// empty poll with the shutdown flag set (the trace's length if there is
/// none).
pub open spec fn spec_exit_pos(trace: Seq<PollEvent>) -> int
    decreases trace.len(),
{
    if trace.len() == 0 {
        0
    } else if trace[0].frame is None && trace[0].shutdown_seen {
        0
    } else {
        1 + spec_exit_pos(trace.drop_first())
    }
}

/// Shutdown completeness law: a worker drains the queue before exiting.
/// Every frame the queue yields before the worker's exit poll — including
/// every frame yielded after the shutdown flag was already set — is
/// processed; none is silently dropped.
pub proof fn lemma_shutdown_drains_queue(trace: Seq<PollEvent>, j: int, f: u64)
    requires
        0 <= j < trace.len(),
        j < spec_exit_pos(trace),
        trace[j].frame == Some(f),
    ensures
        spec_processed(trace).contains(f),
    decreases j,
{
    if j == 0 {
        assert(spec_processed(trace)[0] == f);
    } else {
        let rest = trace.drop_first();
        assert(spec_exit_pos(trace) == 1 + spec_exit_pos(rest));
        assert(rest[j - 1] == trace[j]);
        lemma_shutdown_drains_queue(rest, j - 1, f);
        let i = choose|i: int| 0 <= i < spec_processed(rest).len() && spec_processed(rest)[i] == f;
        match trace[0].frame {
            Some(g) => {
                assert(spec_processed(trace) == seq![g] + spec_processed(rest));
                assert(spec_processed(trace)[i + 1] == f);
            },
            None => {
                assert(!trace[0].shutdown_seen);
                assert(spec_processed(trace) == spec_processed(rest));
                assert(spec_processed(trace)[i] == f);
            },
        }
    }
}

/// The worker exits only at an empty poll with the shutdown flag set: at the
/// exit position the queue yielded nothing and shutdown had been requested.
pub proof fn lemma_exit_only_when_drained(trace: Seq<PollEvent>)
    requires
        spec_exit_pos(trace) < trace.len(),
    ensures
        0 <= spec_exit_pos(trace),
        trace[spec_exit_pos(trace)].frame is None,
        trace[spec_exit_pos(trace)].shutdown_seen,
    decreases trace.len(),
{
    if trace.len() > 0 {
        if !(trace[0].frame is None && trace[0].shutdown_seen) {
            let rest = trace.drop_first();
            lemma_exit_only_when_drained(rest);
            assert(rest[spec_exit_pos(rest)] == trace[spec_exit_pos(trace)]);
        }
    }
}

/// The kind of file-system event the frame watcher observes, as far as the
/// publishing rule reads it.
#[derive(Clone, Copy, Debug, PartialEq, Eq, Structural)]
pub enum FsEventKind {
    /// A write-capable file handle was closed after writing: the file is
    /// complete.
    AccessCloseWrite,
    /// A read-only file handle was closed.
    AccessCloseRead,
    /// Any other access event.
    AccessOther,
    /// A file or directory was created.
    Create,
    /// A file was modified (data or metadata).
    Modify,
    /// A file or directory was removed.
    Remove,
    /// Anything else.
    Other,
}

/// The watcher's publishing rule: a frame path is published exactly when a
/// write-capable handle on it was closed — the only event that marks a frame
/// file as completely written. No other event kind publishes.
pub fn should_publish(kind: &FsEventKind) -> (r: bool)
    ensures
        r == (kind is AccessCloseWrite),
{
    matches!(kind, FsEventKind::AccessCloseWrite)
}

} // verus!
