use vstd::prelude::*;

verus! {

/// How long the QUIC servers gather packets into one batch.
pub const DEFAULT_TPU_COALESCE_MS: u64 = 5;

/// Concurrent connections allowed from one address, for NAT and close/reopen overlap.
pub const MAX_QUIC_CONNECTIONS_PER_IP: usize = 8;

/// New connections allowed from one address per minute.
pub const MAX_CONNECTIONS_PER_IPADDR_PER_MIN: u64 = 64;

/// The bound of the channels between ingest, forwarding and signature verification.
pub const TPU_QUEUE_CAPACITY: usize = 10_000;

/// The bound of the channel that carries new subscriptions to the event loop.
pub const SLOT_QUEUE_CAPACITY: usize = 100;

/// The sizes of the two admission pools of a QUIC server.
#[derive(Clone, Copy, Debug, PartialEq, Eq, Structural)]
pub struct QuicPoolLimits {
    pub max_staked_connections: usize,
    pub max_unstaked_connections: usize,
}

/// The admission pools of a server. A direct server keeps the configured sizes; a
/// forwards server admits no unstaked peer and gives the staked pool both sizes,
/// held at `usize::MAX`.
pub fn quic_pool_limits(
    max_unstaked_quic_connections: usize,
    max_staked_quic_connections: usize,
    forwards: bool,
) -> (r: QuicPoolLimits)
    ensures
        !forwards ==> r.max_staked_connections == max_staked_quic_connections
            && r.max_unstaked_connections == max_unstaked_quic_connections,
        forwards ==> r.max_unstaked_connections == 0 && r.max_staked_connections == if max_staked_quic_connections
            + max_unstaked_quic_connections > usize::MAX {
            usize::MAX as int
        } else {
            max_staked_quic_connections + max_unstaked_quic_connections
        },
{
    if forwards {
        QuicPoolLimits {
            max_staked_connections: max_staked_quic_connections.saturating_add(max_unstaked_quic_connections),
            max_unstaked_connections: 0,
        }
    } else {
        QuicPoolLimits {
            max_staked_connections: max_staked_quic_connections,
            max_unstaked_connections: max_unstaked_quic_connections,
        }
    }
}

} // verus!
