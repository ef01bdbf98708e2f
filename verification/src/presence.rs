//! The presence counter: how many clients are connected right now,
//! across every server instance. Incremented on connect, decremented on
//! disconnect — exactly one decrement per connection created.

use vstd::prelude::*;

verus! {

/// The shared count of connected clients.
pub struct PresenceTracker {
    count: u32,
}

impl View for PresenceTracker {
    type V = u32;

    closed spec fn view(&self) -> u32 {
        self.count
    }
}

impl PresenceTracker {
    /// A tracker holding an existing count (zero on a fresh deployment).
    pub fn new(initial: u32) -> (t: Self)
        ensures
            t@ == initial,
    {
        PresenceTracker { count: initial }
    }

    /// The current count.
    pub fn count(&self) -> (r: u32)
        ensures
            r == self@,
    {
        self.count
    }

    /// One client connected: the count rises by one; the new value is
    /// returned so the change can be announced.
    pub fn add(&mut self) -> (r: u32)
        requires
            old(self)@ < u32::MAX,
        ensures
            final(self)@ == old(self)@ + 1,
            r == final(self)@,
    {
        self.count = self.count + 1;
        self.count
    }

    /// One client disconnected: the count falls by one; the new value is
    /// returned so the change can be announced.
    pub fn remove(&mut self) -> (r: u32)
        requires
            old(self)@ > 0,
        ensures
            final(self)@ == old(self)@ - 1,
            r == final(self)@,
    {
        self.count = self.count - 1;
        self.count
    }
}

/// One step in a connection history: a client arrived or left.
#[derive(Clone, Copy, Debug, PartialEq, Eq, Structural)]
pub enum PresenceOp {
    Add,
    Remove,
}

/// How many adds a history holds.
pub open spec fn spec_adds(ops: Seq<PresenceOp>) -> nat
    decreases ops.len(),
{
    if ops.len() == 0 {
        0
    } else {
        spec_adds(ops.drop_last()) + match ops.last() {
            PresenceOp::Add => 1nat,
            PresenceOp::Remove => 0nat,
        }
    }
}

/// How many removes a history holds.
pub open spec fn spec_removes(ops: Seq<PresenceOp>) -> nat
    decreases ops.len(),
{
    if ops.len() == 0 {
        0
    } else {
        spec_removes(ops.drop_last()) + match ops.last() {
            PresenceOp::Add => 0nat,
            PresenceOp::Remove => 1nat,
        }
    }
}

/// The count after a history: each add is the `+ 1` that
/// `PresenceTracker::add` performs, each remove the `- 1` of
/// `PresenceTracker::remove`.
pub open spec fn spec_count_after(start: int, ops: Seq<PresenceOp>) -> int
    decreases ops.len(),
{
    if ops.len() == 0 {
        start
    } else {
        match ops.last() {
            PresenceOp::Add => spec_count_after(start, ops.drop_last()) + 1,
            PresenceOp::Remove => spec_count_after(start, ops.drop_last()) - 1,
        }
    }
}

proof fn lemma_count_net(start: int, ops: Seq<PresenceOp>)
    ensures
        spec_count_after(start, ops) == start + spec_adds(ops) - spec_removes(ops),
    decreases ops.len(),
{
    if ops.len() > 0 {
        lemma_count_net(start, ops.drop_last());
    }
}

/// Law: after `k` adds and `m` removes in any interleaving in which no
/// client leaves before it arrived (every prefix holds at least as many
/// adds as removes — the connection lifecycle guarantees this, since the
/// one remove of a connection follows its add), a count started at zero
/// equals exactly `k - m`, and was never negative along the way.
pub proof fn lemma_presence_net(ops: Seq<PresenceOp>)
    requires
        forall|k: int|
            0 <= k <= ops.len() ==> spec_removes(#[trigger] ops.take(k)) <= spec_adds(ops.take(k)),
    ensures
        spec_count_after(0, ops) == spec_adds(ops) - spec_removes(ops),
        forall|k: int| 0 <= k <= ops.len() ==> spec_count_after(0, #[trigger] ops.take(k)) >= 0,
{
    lemma_count_net(0, ops);
    assert forall|k: int| 0 <= k <= ops.len() implies spec_count_after(
        0,
        #[trigger] ops.take(k),
    ) >= 0 by {
        lemma_count_net(0, ops.take(k));
    }
}

} // verus!
