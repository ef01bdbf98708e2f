//! State-synchronization core for a shared board of one million 4-bit
//! counters ("cells"), packed two to a byte.
//!
//! The modules mirror the components of the running system:
//! - [`store`]: the packed byte buffer holding every cell, with
//!   per-cell mutation that never touches the sibling nibble.
//! - [`protocol`]: the 5-byte binary frames exchanged with clients and
//!   relayed between server instances.
//! - [`presence`]: the count of currently connected clients.
//! - [`relay`]: the local publish/subscribe fan-out and the decision of
//!   what is forwarded to the external relay channel.
//! - [`hub`]: the per-connection lifecycle — connect, inbound frame
//!   processing, disconnect.
//! - [`resize`]: the offline row-resizing pass over a packed buffer.
//!
//! Everything here is pure computation; the surrounding process supplies
//! the sockets and the backing store and calls in with plain values.

pub mod hub;
pub mod presence;
pub mod protocol;
pub mod relay;
pub mod resize;
pub mod store;
