//! The flame-recorder lifecycle guard: shutdown flushes the sink exactly
//! once, on whichever exit path reaches it first; flushing again, or flushing
//! a never-armed guard, is a no-op and no error.

use vstd::prelude::*;

verus! {

/// The flush state of the flame-recorder sink: `armed` iff a sink was opened
/// at initialization, `flushed` once shutdown has run.
#[derive(Clone, Copy, Debug, PartialEq, Eq, Structural)]
pub struct FlushGuard {
    /// `true` iff a flame sink was opened and so owes one flush.
    pub armed: bool,
    /// `true` once shutdown has run.
    pub flushed: bool,
}

/// What one shutdown call does: the guard ends flushed, and the sink must be
/// flushed now exactly when it was armed and not yet flushed.
pub open spec fn shutdown_transition(g: FlushGuard) -> (FlushGuard, bool) {
    (FlushGuard { armed: g.armed, flushed: true }, g.armed && !g.flushed)
}

impl FlushGuard {
    /// A guard for a pipeline whose flame sink was opened iff `armed`.
    pub fn new(armed: bool) -> (r: FlushGuard)
        ensures
            r == (FlushGuard { armed, flushed: false }),
    {
        FlushGuard { armed, flushed: false }
    }
}

/// Shuts the pipeline down: returns `true` exactly when the flame sink must
/// be flushed now — once, on the first call of an armed guard. Every later
/// call is a no-op returning `false`; a never-armed guard never asks for a
/// flush.
pub fn shutdown(guard: &mut FlushGuard) -> (flush_now: bool)
    ensures
        (*final(guard), flush_now) == shutdown_transition(*old(guard)),
{
    let flush_now = guard.armed && !guard.flushed;
    guard.flushed = true;
    flush_now
}

/// Shutting down twice is a no-op the second time: after one shutdown, the
/// next leaves the guard unchanged and asks for no flush, whatever state the
/// guard began in.
pub proof fn lemma_shutdown_idempotent(g: FlushGuard)
    ensures
        shutdown_transition(shutdown_transition(g).0).0 == shutdown_transition(g).0,
        shutdown_transition(shutdown_transition(g).0).1 == false,
{
}

} // verus!
