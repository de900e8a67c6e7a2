//! Resource-lifecycle and queue-affinity manager for a NIC capability layer.
//!
//! The capability layer (device enumeration, queue hardware, buffer arenas)
//! is an external collaborator with no safety guarantees of its own.  This
//! crate models that layer's observable state explicitly ([`cap::CapState`])
//! and verifies the management logic on top of it: core/queue affinity
//! planning, pool and packet lifetimes with deferred garbage collection,
//! burst receive/transmit bookkeeping, and port statistics deltas.

use vstd::prelude::*;

pub mod burst;
pub mod cap;
pub mod eal;
pub mod error;
pub mod ids;
pub mod packet;
pub mod plan;
pub mod pool;
pub mod port;
pub mod queue;
pub mod setup;
pub mod stats;

verus! {

/// Default number of descriptors in a transmit ring.
pub const DEFAULT_TX_DESC: u16 = 128;

/// Default number of descriptors in a receive ring.
pub const DEFAULT_RX_DESC: u16 = 128;

/// Default number of buffers in a receive queue's dedicated pool.
pub const DEFAULT_RX_POOL_SIZE: usize = 1024;

/// Default size of the per-core object cache of a receive pool.
pub const DEFAULT_RX_PER_CORE_CACHE: usize = 0;

/// Default size of the data room of each buffer, headroom included.
pub const DEFAULT_PACKET_DATA_LENGTH: usize = 2048;

/// Whether ports are put into promiscuous mode during setup.
pub const DEFAULT_PROMISC: bool = true;

/// Default burst size for receive operations.
pub const DEFAULT_RX_BURST: usize = 32;

/// Default burst size for transmit operations.
pub const DEFAULT_TX_BURST: usize = 32;

/// Headroom reserved at the front of a freshly allocated buffer.
pub const DEFAULT_HEADROOM: usize = 128;

/// Largest frame the configured hardware accepts on the wire.
pub const MAX_FRAME_LEN: usize = 1518;

/// Start of the pool-name range that setup reserves for the dedicated
/// receive pools; caller-created pools must use names below it.
pub const DEDICATED_POOL_TAG_BASE: u64 = 0x1_0000_0000;

/// Capability bit for receive checksum offload.
pub const RX_OFFLOAD_CHECKSUM: u64 = 0x2;

/// Capability bit for transmit IPv4 checksum offload.
pub const TX_OFFLOAD_IPV4_CKSUM: u64 = 0x2;

/// Capability bit for transmit UDP checksum offload.
pub const TX_OFFLOAD_UDP_CKSUM: u64 = 0x4;

/// Capability bit for transmit TCP checksum offload.
pub const TX_OFFLOAD_TCP_CKSUM: u64 = 0x8;

} // verus!
