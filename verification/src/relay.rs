//! The relay bus: in-process fan-out of events to every subscribed
//! connection, plus the decision of what is forwarded to the external
//! relay channel shared by all server instances.
//!
//! Backpressure is drop-oldest, applied uniformly: a subscriber whose
//! bounded queue is full loses its oldest pending frame; a publisher
//! never blocks and the new frame is never lost. Each queue is FIFO, so
//! frames published in order reach a subscriber in order.
//!
//! Only locally originated events are forwarded to the external
//! channel; an event that arrived from the channel is fanned out
//! locally and never re-published — that would loop it forever between
//! instances.

use vstd::prelude::*;
use vstd::view::DeepView;

verus! {

/// Where an event came from: this process, or a peer instance through
/// the external relay channel.
#[derive(Clone, Copy, Debug, PartialEq, Eq, Structural)]
pub enum EventOrigin {
    Local,
    Remote,
}

/// The model of one subscriber: its identity and its pending frames,
/// oldest first.
#[verifier::ext_equal]
pub struct SubscriberModel {
    pub id: u64,
    pub queue: Seq<Seq<u8>>,
}

struct Subscriber {
    id: u64,
    pending: Vec<Vec<u8>>,
}

/// A queue after one delivery under drop-oldest backpressure: a full
/// queue loses its oldest frame to make room for the new one.
pub open spec fn spec_enqueue(q: Seq<Seq<u8>>, f: Seq<u8>, cap: nat) -> Seq<Seq<u8>> {
    if q.len() < cap {
        q.push(f)
    } else {
        q.subrange(1, q.len() as int).push(f)
    }
}

/// Every subscriber after one delivery of the same frame: identities
/// kept, each queue extended under drop-oldest.
pub open spec fn spec_fanout(v: Seq<SubscriberModel>, f: Seq<u8>, cap: nat) -> Seq<
    SubscriberModel,
> {
    Seq::new(v.len(), |k: int| (SubscriberModel { id: v[k].id, queue: spec_enqueue(v[k].queue, f, cap) }))
}

/// The in-process publish/subscribe fan-out.
pub struct RelayBus {
    subs: Vec<Subscriber>,
    capacity: usize,
    next_id: u64,
}

impl View for RelayBus {
    type V = Seq<SubscriberModel>;

    closed spec fn view(&self) -> Seq<SubscriberModel> {
        Seq::new(
            self.subs@.len(),
            |k: int|
                (SubscriberModel { id: self.subs@[k].id, queue: self.subs@[k].pending.deep_view() }),
        )
    }
}

impl RelayBus {
    /// The bound every delivery queue was made with.
    pub closed spec fn spec_capacity(&self) -> nat {
        self.capacity as nat
    }

    /// The next subscription identity to be handed out. It only ever
    /// grows, which is what keeps identities distinct.
    pub closed spec fn spec_next_id(&self) -> u64 {
        self.next_id
    }

    /// The bus is well-formed: subscriber identities are distinct and
    /// every queue respects the bound.
    pub closed spec fn wf(&self) -> bool {
        &&& self.capacity >= 1
        &&& forall|k1: int, k2: int|
            0 <= k1 < k2 < self.subs@.len() ==> self.subs@[k1].id != self.subs@[k2].id
        &&& forall|k: int| 0 <= k < self.subs@.len() ==> #[trigger] self.subs@[k].id < self.next_id
        &&& forall|k: int|
            0 <= k < self.subs@.len() ==> #[trigger] self.subs@[k].pending@.len() <= self.capacity
    }

    /// A bus with no subscribers yet and the given queue bound.
    pub fn new(capacity: usize) -> (b: Self)
        requires
            capacity >= 1,
        ensures
            b.wf(),
            b@ == Seq::<SubscriberModel>::empty(),
            b.spec_capacity() == capacity,
            b.spec_next_id() == 0,
    {
        let b = RelayBus { subs: Vec::new(), capacity, next_id: 0 };
        proof {
            assert(b@ =~~= Seq::<SubscriberModel>::empty());
        }
        b
    }

    /// How many connections are subscribed.
    pub fn subscriber_count(&self) -> (r: usize)
        ensures
            r == self@.len(),
    {
        self.subs.len()
    }

    /// Register a fresh subscription with an empty queue; its identity
    /// differs from every live one. Succeeds exactly as long as the
    /// identity counter has room — `None` only once it is exhausted.
    pub fn subscribe(&mut self) -> (r: Option<u64>)
        requires
            old(self).wf(),
        ensures
            final(self).wf(),
            final(self).spec_capacity() == old(self).spec_capacity(),
            r is Some <==> old(self).spec_next_id() < u64::MAX,
            match r {
                Some(id) => id == old(self).spec_next_id() && final(self).spec_next_id() == old(
                    self,
                ).spec_next_id() + 1 && final(self)@ == old(self)@.push(
                    (SubscriberModel { id, queue: Seq::empty() }),
                ) && (forall|k: int| 0 <= k < old(self)@.len() ==> old(self)@[k].id != id),
                None => final(self)@ == old(self)@ && final(self).spec_next_id() == old(
                    self,
                ).spec_next_id(),
            },
    {
        if self.next_id == u64::MAX {
            return None;
        }
        let id = self.next_id;
        self.next_id = self.next_id + 1;
        self.subs.push(Subscriber { id, pending: Vec::new() });
        proof {
            assert(self@ =~~= old(self)@.push((SubscriberModel { id, queue: Seq::empty() })));
        }
        Some(id)
    }

    /// Drop the subscription with this identity, if it is live; its
    /// pending frames go with it, so nothing is ever delivered to a
    /// dead connection.
    pub fn unsubscribe(&mut self, id: u64)
        requires
            old(self).wf(),
        ensures
            final(self).wf(),
            final(self).spec_capacity() == old(self).spec_capacity(),
            final(self).spec_next_id() == old(self).spec_next_id(),
            (forall|k: int| 0 <= k < old(self)@.len() ==> old(self)@[k].id != id) ==> final(self)@
                == old(self)@,
            forall|k: int|
                0 <= k < old(self)@.len() && old(self)@[k].id == id ==> final(self)@ == old(
                    self,
                )@.remove(k),
    {
        let mut k: usize = 0;
        while k < self.subs.len()
            invariant
                old(self).wf(),
                *self == *old(self),
                k <= self.subs@.len(),
                forall|j: int| 0 <= j < k ==> self.subs@[j].id != id,
            decreases self.subs@.len() - k,
        {
            if self.subs[k].id == id {
                proof {
                    assert(old(self)@[k as int].id == id);
                }
                self.subs.remove(k);
                proof {
                    assert(self@ =~~= old(self)@.remove(k as int));
                }
                return ;
            }
            k = k + 1;
        }
    }

    /// Deliver one frame to every subscriber under drop-oldest
    /// backpressure, and say what to forward to the external relay
    /// channel: a copy of a locally originated frame, nothing for a
    /// frame that came in from the channel — re-publishing it would
    /// feed it back forever.
    pub fn publish(&mut self, frame: &Vec<u8>, origin: EventOrigin) -> (forward: Option<Vec<u8>>)
        requires
            old(self).wf(),
        ensures
            final(self).wf(),
            final(self).spec_capacity() == old(self).spec_capacity(),
            final(self).spec_next_id() == old(self).spec_next_id(),
            final(self)@ == spec_fanout(old(self)@, frame@, old(self).spec_capacity()),
            origin is Local <==> forward is Some,
            forward matches Some(f) ==> f@ == frame@,
    {
        let mut k: usize = 0;
        while k < self.subs.len()
            invariant
                self.subs@.len() == old(self).subs@.len(),
                self.capacity == old(self).capacity,
                self.next_id == old(self).next_id,
                old(self).wf(),
                k <= self.subs@.len(),
                forall|j: int| k <= j < self.subs@.len() ==> self.subs@[j] == old(self).subs@[j],
                forall|j: int|
                    0 <= j < k ==> #[trigger] self.subs@[j].id == old(self).subs@[j].id
                        && self.subs@[j].pending.deep_view() == spec_enqueue(
                        old(self).subs@[j].pending.deep_view(),
                        frame@,
                        old(self).spec_capacity(),
                    ) && self.subs@[j].pending@.len() <= self.capacity,
            decreases self.subs@.len() - k,
        {
            let mut tmp = Subscriber { id: 0, pending: Vec::new() };
            self.subs.set_and_swap(k, &mut tmp);
            if tmp.pending.len() >= self.capacity {
                tmp.pending.remove(0);
            }
            tmp.pending.push(copy_frame(frame));
            proof {
                assert(tmp.pending.deep_view() =~~= spec_enqueue(
                    old(self).subs@[k as int].pending.deep_view(),
                    frame@,
                    old(self).spec_capacity(),
                ));
            }
            self.subs.set_and_swap(k, &mut tmp);
            k = k + 1;
        }
        proof {
            assert(self@ =~~= spec_fanout(old(self)@, frame@, old(self).spec_capacity()));
            assert forall|k1: int, k2: int|
                0 <= k1 < k2 < self.subs@.len() implies self.subs@[k1].id != self.subs@[k2].id by {
                assert(self.subs@[k1].id == old(self).subs@[k1].id);
                assert(self.subs@[k2].id == old(self).subs@[k2].id);
            }
            assert forall|k: int| 0 <= k < self.subs@.len() implies #[trigger] self.subs@[k].id
                < self.next_id by {
                assert(self.subs@[k].id == old(self).subs@[k].id);
            }
            assert forall|k: int|
                0 <= k < self.subs@.len() implies #[trigger] self.subs@[k].pending@.len()
                <= self.capacity by {
                assert(self.subs@[k].id == old(self).subs@[k].id);
            }
            assert(self.wf());
        }
        match origin {
            EventOrigin::Local => Some(copy_frame(frame)),
            EventOrigin::Remote => None,
        }
    }

    /// Take the oldest pending frame for this subscription, if any: the
    /// outbound path of one connection draining its queue in order.
    pub fn pop_next(&mut self, id: u64) -> (r: Option<Vec<u8>>)
        requires
            old(self).wf(),
        ensures
            final(self).wf(),
            final(self).spec_capacity() == old(self).spec_capacity(),
            final(self).spec_next_id() == old(self).spec_next_id(),
            (forall|k: int|
                0 <= k < old(self)@.len() ==> old(self)@[k].id != id || old(
                    self,
                )@[k].queue.len() == 0) ==> r is None && final(self)@ == old(self)@,
            forall|k: int|
                0 <= k < old(self)@.len() && old(self)@[k].id == id && old(self)@[k].queue.len()
                    > 0 ==> (r matches Some(f) && f@ == old(self)@[k].queue[0] && final(self)@
                    == old(self)@.update(
                    k,
                    (SubscriberModel {
                        id,
                        queue: old(self)@[k].queue.subrange(1, old(self)@[k].queue.len() as int),
                    }),
                )),
    {
        let mut k: usize = 0;
        while k < self.subs.len()
            invariant
                old(self).wf(),
                *self == *old(self),
                k <= self.subs@.len(),
                forall|j: int| 0 <= j < k ==> self.subs@[j].id != id,
            decreases self.subs@.len() - k,
        {
            if self.subs[k].id == id {
                let mut tmp = Subscriber { id: 0, pending: Vec::new() };
                self.subs.set_and_swap(k, &mut tmp);
                if tmp.pending.len() == 0 {
                    self.subs.set_and_swap(k, &mut tmp);
                    proof {
                        assert(self@ =~~= old(self)@);
                    }
                    return None;
                }
                let f = tmp.pending.remove(0);
                proof {
                    assert(tmp.pending.deep_view() =~~= old(self)@[k as int].queue.subrange(
                        1,
                        old(self)@[k as int].queue.len() as int,
                    ));
                }
                self.subs.set_and_swap(k, &mut tmp);
                proof {
                    assert(self@ =~~= old(self)@.update(
                        k as int,
                        (SubscriberModel {
                            id,
                            queue: old(self)@[k as int].queue.subrange(
                                1,
                                old(self)@[k as int].queue.len() as int,
                            ),
                        }),
                    ));
                }
                return Some(f);
            }
            k = k + 1;
        }
        None
    }
}

/// A verified byte-for-byte copy of one frame.
fn copy_frame(frame: &Vec<u8>) -> (r: Vec<u8>)
    ensures
        r@ == frame@,
{
    let mut out: Vec<u8> = Vec::new();
    let mut i: usize = 0;
    while i < frame.len()
        invariant
            i <= frame.len(),
            out@ == frame@.subrange(0, i as int),
        decreases frame.len() - i,
    {
        out.push(frame[i]);
        i = i + 1;
        proof {
            assert(out@ =~= frame@.subrange(0, i as int));
        }
    }
    proof {
        assert(out@ =~= frame@);
    }
    out
}

} // verus!
