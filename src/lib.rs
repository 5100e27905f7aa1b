//! The fan-out core of a transaction relayer: it keeps the connected validator
//! subscribers, picks those that lead the upcoming slots, filters out packets whose
//! transactions touch blocked accounts, and offers packet batches and heartbeats to the
//! subscribers without ever waiting on one of them.
pub mod denylist;
pub mod fanout;
pub mod forwarding;
pub mod metrics;
pub mod packet;
pub mod pubkey;
pub mod registry;
pub mod relayer;
pub mod rpc;
pub mod sink;
pub mod tpu;

pub use crate::denylist::{Denylist, LookupTableCache};
pub use crate::packet::{Packet, RelayerPacketBatches, SubscribeResponse, Timestamp, WireBatch, WirePacket};
pub use crate::pubkey::Pubkey;
pub use crate::relayer::{HealthState, RelayerCore, RelayerError, Subscription};
