//! The per-connection hub: what happens when a client connects, sends a
//! frame, and disconnects.
//!
//! The surrounding process runs each connection as two racing duties —
//! an inbound loop feeding client frames to [`inbound_frame`] and an
//! outbound loop draining the connection's relay subscription — joined
//! by a cancellation signal. The decisions those duties take live here;
//! the sockets, the scheduling and the external channel stay outside.
//! Whichever duty ends first, teardown runs [`disconnect`] once: it
//! consumes the [`Connection`], so a second decrement cannot compile.

use vstd::prelude::*;

use crate::presence::PresenceTracker;
use crate::protocol::BroadcastEvent;
use crate::protocol::MessageType;
use crate::protocol::OnlineUsersMessage;
use crate::protocol::event_wf;
use crate::protocol::spec_decode;
use crate::protocol::spec_encode_event;
use crate::protocol::spec_presence_frame;
use crate::relay::EventOrigin;
use crate::relay::RelayBus;
use crate::relay::spec_fanout;
use crate::store::MutationOutcome;
use crate::store::PackedStateStore;
use crate::store::StoreError;
use crate::store::spec_cell_value;
use crate::store::spec_op_value;
use crate::store::spec_set_noop;
use crate::store::spec_store_after;
use crate::store::store_wf;

verus! {

/// One live client connection: the identity of its relay subscription.
/// It exists from protocol upgrade to teardown; `disconnect` consumes
/// it, so exactly one presence decrement follows each connect.
pub struct Connection {
    pub sub_id: u64,
}

/// What processing one inbound frame decided.
#[derive(Debug)]
pub enum InboundOutcome {
    /// The frame was malformed (not 5 bytes): a protocol error, fatal
    /// to the connection; nothing was applied or published.
    Fatal,
    /// The frame was dropped — rejected by validation, a presence frame
    /// (clients do not set the count), or a mutation that was a no-op;
    /// the connection stays open and nothing was published.
    Ignored,
    /// The store refused the mutation; the connection stays open and
    /// nothing was published.
    StoreFailed(StoreError),
    /// The mutation was applied and its event fanned out locally; the
    /// carried frame is the copy to forward to the external channel.
    Published(Vec<u8>),
}

/// Establish one connection: register a fresh relay subscription, then
/// raise the presence count and announce it — to every local subscriber
/// (the new one included) and, through the returned frame, to the
/// external channel. It succeeds exactly as long as the subscription
/// identity counter has room; `None` only once that is exhausted, and
/// nothing changes then.
pub fn connect(bus: &mut RelayBus, presence: &mut PresenceTracker) -> (r: Option<
    (Connection, Vec<u8>),
>)
    requires
        old(bus).wf(),
        old(presence)@ < u32::MAX,
    ensures
        final(bus).wf(),
        final(bus).spec_capacity() == old(bus).spec_capacity(),
        r is Some <==> old(bus).spec_next_id() < u64::MAX,
        match r {
            None => final(bus)@ == old(bus)@ && final(bus).spec_next_id() == old(
                bus,
            ).spec_next_id() && final(presence)@ == old(presence)@,
            Some((conn, ext)) => {
                let frame = spec_presence_frame((old(presence)@ + 1) as u32);
                &&& conn.sub_id == old(bus).spec_next_id()
                &&& final(bus).spec_next_id() == old(bus).spec_next_id() + 1
                &&& final(presence)@ == old(presence)@ + 1
                &&& ext@ == frame
                &&& (forall|k: int| 0 <= k < old(bus)@.len() ==> old(bus)@[k].id != conn.sub_id)
                &&& final(bus)@ == spec_fanout(
                    old(bus)@.push(
                        (crate::relay::SubscriberModel { id: conn.sub_id, queue: Seq::empty() }),
                    ),
                    frame,
                    old(bus).spec_capacity(),
                )
            },
        },
{
    match bus.subscribe() {
        None => None,
        Some(id) => {
            let new_count = presence.add();
            let frame = OnlineUsersMessage(new_count).ws_msg();
            let forward = bus.publish(&frame, EventOrigin::Local);
            Some((Connection { sub_id: id }, forward.unwrap()))
        },
    }
}

/// Tear one connection down: unregister its relay subscription first —
/// no event is ever delivered to a dead connection — then lower the
/// presence count and announce it to the remaining subscribers; the
/// returned frame is the copy to forward to the external channel.
pub fn disconnect(conn: Connection, bus: &mut RelayBus, presence: &mut PresenceTracker) -> (ext:
    Vec<u8>)
    requires
        old(bus).wf(),
        old(presence)@ > 0,
    ensures
        final(bus).wf(),
        final(bus).spec_capacity() == old(bus).spec_capacity(),
        final(bus).spec_next_id() == old(bus).spec_next_id(),
        final(presence)@ == old(presence)@ - 1,
        ext@ == spec_presence_frame((old(presence)@ - 1) as u32),
        (forall|k: int| 0 <= k < old(bus)@.len() ==> old(bus)@[k].id != conn.sub_id)
            ==> final(bus)@ == spec_fanout(
            old(bus)@,
            spec_presence_frame((old(presence)@ - 1) as u32),
            old(bus).spec_capacity(),
        ),
        forall|k: int|
            0 <= k < old(bus)@.len() && old(bus)@[k].id == conn.sub_id ==> final(bus)@
                == spec_fanout(
                old(bus)@.remove(k),
                spec_presence_frame((old(presence)@ - 1) as u32),
                old(bus).spec_capacity(),
            ),
{
    bus.unsubscribe(conn.sub_id);
    let new_count = presence.remove();
    let frame = OnlineUsersMessage(new_count).ws_msg();
    let forward = bus.publish(&frame, EventOrigin::Local);
    forward.unwrap()
}

/// Process one inbound client frame: decode and validate it; apply a
/// valid mutation to the store; fan the resulting event out to every
/// local subscriber and hand back the copy for the external channel.
/// A malformed frame is fatal; a rejected frame, a presence frame, a
/// no-op mutation, and a store failure leave everything unchanged and
/// the connection open.
pub fn inbound_frame(store: &mut PackedStateStore, bus: &mut RelayBus, frame: &Vec<u8>) -> (r:
    InboundOutcome)
    requires
        old(bus).wf(),
    ensures
        final(bus).wf(),
        final(bus).spec_capacity() == old(bus).spec_capacity(),
        final(bus).spec_next_id() == old(bus).spec_next_id(),
        frame@.len() != 5 ==> r is Fatal && final(store)@ == old(store)@
            && final(bus)@ == old(bus)@,
        frame@.len() == 5 && spec_decode(frame@) is None ==> r is Ignored
            && final(store)@ == old(store)@ && final(bus)@ == old(bus)@,
        spec_decode(frame@) matches Some(MessageType::OnlineUsers(_)) ==> r is Ignored
            && final(store)@ == old(store)@ && final(bus)@ == old(bus)@,
        spec_decode(frame@) matches Some(MessageType::Bitmap(index, op)) ==> {
            if !store_wf(old(store)@) {
                &&& r matches InboundOutcome::StoreFailed(e) && e == StoreError::NotInitialized
                &&& final(store)@ == old(store)@
                &&& final(bus)@ == old(bus)@
            } else if spec_set_noop(old(store)@, index as int, op) {
                &&& r is Ignored
                &&& final(store)@ == old(store)@
                &&& final(bus)@ == old(bus)@
            } else {
                let nv = spec_op_value(spec_cell_value(old(store)@, index as int), op);
                let ev = (BroadcastEvent::CellMutated { index, value: nv });
                &&& final(store)@ == spec_store_after(old(store)@, index as int, nv)
                &&& final(bus)@ == spec_fanout(
                    old(bus)@,
                    spec_encode_event(ev),
                    old(bus).spec_capacity(),
                )
                &&& r matches InboundOutcome::Published(ext) && ext@ == spec_encode_event(ev)
            }
        },
{
    match MessageType::from_u8_array(frame) {
        None => {
            if frame.len() != 5 {
                InboundOutcome::Fatal
            } else {
                InboundOutcome::Ignored
            }
        },
        Some(MessageType::OnlineUsers(_)) => InboundOutcome::Ignored,
        Some(MessageType::Bitmap(index, op)) => {
            proof {
                let tag = frame@[0];
                assert(tag & 0x0fu8 <= 15) by (bit_vector);
            }
            match store.apply_mutation(index, op) {
                Err(e) => InboundOutcome::StoreFailed(e),
                Ok(MutationOutcome::Noop) => InboundOutcome::Ignored,
                Ok(MutationOutcome::Applied(value)) => {
                    let ev = BroadcastEvent::CellMutated { index, value };
                    proof {
                        crate::store::lemma_cell_value_bounded(old(store)@, index as int);
                        assert(event_wf(ev));
                    }
                    let eframe = ev.encode();
                    let forward = bus.publish(&eframe, EventOrigin::Local);
                    InboundOutcome::Published(forward.unwrap())
                },
            }
        },
    }
}

} // verus!
