//! The flush scheduler's decisions, and the shutdown coordinator's state.
//!
//! The scheduler runs one cycle per wake-up: the surrounding loop waits for
//! whichever comes first — the flush interval elapsing or the shutdown signal
//! — and then asks [`FlushScheduler::on_wake`] what to do. The decision
//! separates the waiting (which the caller performs) from the rule: flush
//! exactly when the buffer is non-empty, and after a shutdown signal run this
//! one cycle — the final drain — and no further one.

use vstd::prelude::*;

verus! {

/// What one wake-up of the scheduler decides.
pub struct CycleDecision {
    /// Drain the buffer and write the batch in this cycle.
    pub flush: bool,
    /// This cycle is the last one; the scheduler's loop ends after it.
    pub stop: bool,
}

/// The two states of the shutdown coordination: running, or cancelled for
/// good.
pub enum Lifecycle {
    Running,
    Cancelled,
}

/// The per-kind flush scheduler. It stays independent per event kind: each
/// kind's pipeline owns one, so one kind's slow store never blocks another's.
pub struct FlushScheduler {
    state: Lifecycle,
}

impl FlushScheduler {
    /// Is the scheduler still running (no shutdown observed)?
    pub closed spec fn running(&self) -> bool {
        self.state is Running
    }

    /// A scheduler starts out running.
    pub fn new() -> (s: Self)
        ensures
            s.running(),
    {
        FlushScheduler { state: Lifecycle::Running }
    }

    /// Decide one cycle, after the wait resolved. `shutdown` says whether the
    /// shutdown signal has fired (making the wait resolve immediately);
    /// `buffer_empty` is the buffer's emptiness at this point. The cycle
    /// flushes exactly when the buffer is non-empty — also on the shutdown
    /// path, so whatever is buffered at signal time is still written — and
    /// the scheduler leaves the running state exactly on shutdown, so after
    /// the signal this cycle is the one final drain.
    pub fn on_wake(&mut self, shutdown: bool, buffer_empty: bool) -> (d: CycleDecision)
        requires
            old(self).running(),
        ensures
            d.flush == !buffer_empty,
            d.stop == shutdown,
            final(self).running() == !shutdown,
    {
        if shutdown {
            self.state = Lifecycle::Cancelled;
        }
        CycleDecision { flush: !buffer_empty, stop: shutdown }
    }
}

} // verus!
