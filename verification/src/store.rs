//! Snapshot store: the single shared container each service writes and every
//! subscriber reads.
//!
//! At run time the container sits behind a reader/writer lock that is held
//! only for the duration of one whole-value read or write, never across an
//! external call, so a write is atomic with respect to readers.  The store is
//! therefore modelled as a cell whose writes replace the whole value at once,
//! together with the (ghost) history of every complete snapshot ever
//! committed: a read yields the last committed snapshot, and a read that
//! races a write lands either before it or after it, so it observes one of
//! the two complete snapshots bounding it — never a mixture of the two.

use vstd::prelude::*;

verus! {

/// A shared snapshot container with whole-value writes.
pub struct Store<T> {
    current: T,
    history: Ghost<Seq<T>>,
}

impl<T> Store<T> {
    /// Every complete snapshot ever committed, in order; the initial value
    /// first.
    pub closed spec fn history(self) -> Seq<T> {
        self.history@
    }

    /// The snapshot a read observes now.
    pub closed spec fn value(self) -> T {
        self.current
    }

    /// The current value is the last committed snapshot.
    pub closed spec fn wf(self) -> bool {
        self.history@.len() >= 1 && self.history@.last() == self.current
    }

    /// A store holding its initial snapshot.
    pub fn new(v: T) -> (r: Store<T>)
        ensures
            r.wf(),
            r.value() == v,
            r.history() == seq![v],
    {
        let ghost h: Seq<T> = seq![v];
        Store { current: v, history: Ghost(h) }
    }

    /// Read the current snapshot.
    pub fn read(&self) -> (r: &T)
        requires
            self.wf(),
        ensures
            *r == self.value(),
            *r == self.history().last(),
    {
        &self.current
    }

    /// Commit a new complete snapshot, replacing the old one at once.
    pub fn write(&mut self, v: T)
        requires
            old(self).wf(),
        ensures
            final(self).wf(),
            final(self).value() == v,
            final(self).history() == old(self).history().push(v),
    {
        self.current = v;
        proof {
            self.history@ = self.history@.push(v);
        }
    }
}

/// Read-consistency law: a read that overlaps a write observes either the
/// complete snapshot from before the write or the complete one the write
/// committed, never a mixture.  In this model a racing read is a read of the
/// store either just before or just after the write — the lock serializes
/// the two — and every observable value is a member of the committed
/// history.
pub proof fn lemma_read_consistency<T>(s0: Store<T>, s1: Store<T>, v: T)
    requires
        s0.wf(),
        s1.wf(),
        s1.history() == s0.history().push(v),
    ensures
        s0.value() == s0.history().last(),
        s1.value() == v,
        s1.history().contains(s0.value()),
        s1.history().contains(s1.value()),
{
    assert(s1.history()[s0.history().len() - 1] == s0.value());
    assert(s1.history().last() == v);
}

} // verus!
