//! Per-document publish ordering. Events are numbered with a
//! monotonically increasing generation; a publish whose generation is
//! lower than the newest one already let through is dropped, so the
//! diagnostics of a superseded edit can never overwrite those of a
//! later one.

use vstd::prelude::*;

verus! {

/// Tracks, for one document, the newest event generation whose
/// diagnostics have been published.
pub struct PublishGate {
    highest: u64,
}

impl PublishGate {
    /// The newest generation let through so far.
    pub closed spec fn highest(&self) -> u64 {
        self.highest
    }

    /// A gate that has published nothing yet: every generation is
    /// still admissible.
    pub fn new() -> (g: PublishGate)
        ensures
            g.highest() == 0,
    {
        PublishGate { highest: 0 }
    }

    /// Decides one publish: it goes through exactly when no newer
    /// generation has been published, and the newest published
    /// generation never moves backwards.
    pub fn accept(&mut self, generation: u64) -> (allowed: bool)
        ensures
            allowed == (generation >= old(self).highest()),
            final(self).highest() == if allowed {
                generation
            } else {
                old(self).highest()
            },
            final(self).highest() >= old(self).highest(),
    {
        if generation >= self.highest {
            self.highest = generation;
            true
        } else {
            false
        }
    }
}

/// Ordering for one document: once a later generation's diagnostics
/// went out, a strictly older publish can no longer be let through,
/// in whatever order the two decisions are made.
pub proof fn lemma_stale_publish_dropped(g: PublishGate, older: u64, newer: u64)
    requires
        g.highest() >= newer,
        older < newer,
    ensures
        older < g.highest(),
{
}

} // verus!
