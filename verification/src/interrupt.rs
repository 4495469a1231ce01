//! Cooperative cancellation. Every operation that can run long takes a
//! cancellation capability and polls it at bounded intervals; a positive
//! poll short-circuits the whole operation with a cancellation outcome.

use vstd::prelude::*;

verus! {

/// A cancellation capability, polled cooperatively by long-running
/// operations. `signalled` says whether a poll made now would ask the
/// computation to stop; `never_signals` says that no poll on this
/// capability, now or later, will ever ask it to stop.
pub trait Interrupt: Sized {
    spec fn signalled(&self) -> bool;

    spec fn never_signals(&self) -> bool;

    /// A capability that never signals is in particular not signalling now.
    proof fn lemma_never_signals(&self)
        ensures
            self.never_signals() ==> !self.signalled(),
    ;

    /// Poll the capability once. Polling may advance internal state (for
    /// example a countdown), but can never make a never-signalling
    /// capability start to signal.
    fn test(&mut self) -> (r: bool)
        ensures
            r == old(self).signalled(),
            old(self).never_signals() ==> final (self).never_signals(),
    ;
}

/// A capability that never asks the computation to stop.
pub struct NeverInterrupt {}

impl Interrupt for NeverInterrupt {
    open spec fn signalled(&self) -> bool {
        false
    }

    open spec fn never_signals(&self) -> bool {
        true
    }

    proof fn lemma_never_signals(&self) {
    }

    fn test(&mut self) -> (r: bool) {
        false
    }
}

/// A capability that starts to signal after a fixed number of polls, and
/// keeps signalling from then on.
pub struct CountingInterrupt {
    /// How many further polls return "keep going" before the capability
    /// starts to signal.
    pub polls_before_signal: u64,
}

impl Interrupt for CountingInterrupt {
    open spec fn signalled(&self) -> bool {
        self.polls_before_signal == 0
    }

    open spec fn never_signals(&self) -> bool {
        false
    }

    proof fn lemma_never_signals(&self) {
    }

    fn test(&mut self) -> (r: bool) {
        if self.polls_before_signal == 0 {
            true
        } else {
            self.polls_before_signal = self.polls_before_signal - 1;
            false
        }
    }
}

} // verus!
