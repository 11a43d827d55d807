//! Opening a pipe, step by step: the program opens and creates, and the
//! outcome of each step decides the next.

use vstd::prelude::*;

verus! {

/// What is to be done next to open a pipe.
#[derive(Clone, Copy, Debug, PartialEq, Eq, Structural)]
pub enum OpenStep {
    /// Open the path for reading and writing, so that the pipe never looks
    /// hung up while no writer is attached.
    Open,
    /// Ask whether what was opened is a named pipe.
    Check,
    /// Create a named pipe at the path.
    Create,
    /// Open the path that was just created.
    Reopen,
    /// The pipe is open and can be polled.
    Ready,
    /// The source cannot be used.
    Rejected,
}

/// What came of the step that was asked for.
#[derive(Clone, Copy, Debug, PartialEq, Eq, Structural)]
pub enum OpenEvent {
    /// The step was carried out; for a check: the file is a named pipe.
    Done,
    /// The step failed; for a check: the file is no named pipe, or could not
    /// be examined.
    Failed,
}

/// The step that follows.
///
/// A path that opens is checked, and is used only if it is a named pipe. A
/// path that does not open is created as a named pipe and opened again. If
/// either of these fails, the source is rejected.
pub open spec fn next_step(step: OpenStep, event: OpenEvent) -> OpenStep {
    match (step, event) {
        (OpenStep::Open, OpenEvent::Done) => OpenStep::Check,
        (OpenStep::Open, OpenEvent::Failed) => OpenStep::Create,
        (OpenStep::Check, OpenEvent::Done) => OpenStep::Ready,
        (OpenStep::Check, OpenEvent::Failed) => OpenStep::Rejected,
        (OpenStep::Create, OpenEvent::Done) => OpenStep::Reopen,
        (OpenStep::Create, OpenEvent::Failed) => OpenStep::Rejected,
        (OpenStep::Reopen, OpenEvent::Done) => OpenStep::Ready,
        (OpenStep::Reopen, OpenEvent::Failed) => OpenStep::Rejected,
        (OpenStep::Ready, _) => OpenStep::Ready,
        (OpenStep::Rejected, _) => OpenStep::Rejected,
    }
}

/// The number of steps that may still be asked for.
pub open spec fn steps_left(step: OpenStep) -> nat {
    match step {
        OpenStep::Open => 3,
        OpenStep::Check => 1,
        OpenStep::Create => 2,
        OpenStep::Reopen => 1,
        OpenStep::Ready => 0,
        OpenStep::Rejected => 0,
    }
}

/// Opening ends: every event brings the end nearer, and once the pipe is
/// ready or rejected it stays so.
pub proof fn lemma_opening_ends(step: OpenStep, event: OpenEvent)
    ensures
        steps_left(step) > 0 ==> steps_left(next_step(step, event)) < steps_left(step),
        steps_left(step) == 0 ==> next_step(step, event) == step,
{
}

/// The step that follows the outcome `event` of the step `step` in opening
/// a pipe.
pub fn open_fifo(step: OpenStep, event: OpenEvent) -> (next: OpenStep)
    ensures
        next == next_step(step, event),
{
    match (step, event) {
        (OpenStep::Open, OpenEvent::Done) => OpenStep::Check,
        (OpenStep::Open, OpenEvent::Failed) => OpenStep::Create,
        (OpenStep::Check, OpenEvent::Done) => OpenStep::Ready,
        (OpenStep::Check, OpenEvent::Failed) => OpenStep::Rejected,
        (OpenStep::Create, OpenEvent::Done) => OpenStep::Reopen,
        (OpenStep::Create, OpenEvent::Failed) => OpenStep::Rejected,
        (OpenStep::Reopen, OpenEvent::Done) => OpenStep::Ready,
        (OpenStep::Reopen, OpenEvent::Failed) => OpenStep::Rejected,
        (OpenStep::Ready, _) => OpenStep::Ready,
        (OpenStep::Rejected, _) => OpenStep::Rejected,
    }
}

} // verus!
