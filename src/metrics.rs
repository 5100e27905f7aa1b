use vstd::prelude::*;

use histogram::Histogram;

use crate::pubkey::Pubkey;
use crate::registry::{lemma_lists_push, lists_map, SubscriberRegistry};
use crate::sink::free_slots;

verus! {

#[verifier::external_type_specification]
#[verifier::external_body]
pub struct ExHistogram(histogram::Histogram);

pub assume_specification[ histogram::Histogram::new ]() -> Histogram;

pub assume_specification[ histogram::Histogram::increment ](
    h: &mut Histogram,
    value: u64,
) -> Result<(), &'static str>;

/// `a + b`, held at `u64::MAX`.
pub open spec fn sat_add(a: u64, b: u64) -> u64 {
    if a + b > u64::MAX {
        u64::MAX
    } else {
        (a + b) as u64
    }
}

/// Packets forwarded to and dropped for one validator in the current interval.
#[derive(Clone, Copy, Debug, PartialEq, Eq, Structural)]
pub struct PacketForwardStats {
    pub num_packets_forwarded: u64,
    pub num_packets_dropped: u64,
}

/// `m` after `n` more packets were forwarded to `key`.
pub open spec fn with_forwarded(m: Map<Pubkey, PacketForwardStats>, key: Pubkey, n: u64) -> Map<
    Pubkey,
    PacketForwardStats,
> {
    if m.contains_key(key) {
        m.insert(
            key,
            PacketForwardStats {
                num_packets_forwarded: sat_add(m[key].num_packets_forwarded, n),
                num_packets_dropped: m[key].num_packets_dropped,
            },
        )
    } else {
        m.insert(key, PacketForwardStats { num_packets_forwarded: n, num_packets_dropped: 0 })
    }
}

/// `m` after `n` more packets were dropped for `key`.
pub open spec fn with_dropped(m: Map<Pubkey, PacketForwardStats>, key: Pubkey, n: u64) -> Map<
    Pubkey,
    PacketForwardStats,
> {
    if m.contains_key(key) {
        m.insert(
            key,
            PacketForwardStats {
                num_packets_forwarded: m[key].num_packets_forwarded,
                num_packets_dropped: sat_add(m[key].num_packets_dropped, n),
            },
        )
    } else {
        m.insert(key, PacketForwardStats { num_packets_forwarded: 0, num_packets_dropped: n })
    }
}

/// Per-validator packet counters, one entry per identity.
/// Held as a vector of distinct keys with a map view: the verifier's specification of
/// std's hash collections proves nothing for a key of a struct type.
pub struct ValidatorStats {
    entries: Vec<(Pubkey, PacketForwardStats)>,
    map: Ghost<Map<Pubkey, PacketForwardStats>>,
}

impl View for ValidatorStats {
    type V = Map<Pubkey, PacketForwardStats>;

    closed spec fn view(&self) -> Map<Pubkey, PacketForwardStats> {
        self.map@
    }
}

impl ValidatorStats {
    pub closed spec fn wf(&self) -> bool {
        &&& lists_map(self.entries@, self.map@)
        &&& self.map@.dom().finite()
    }

    pub fn new() -> (r: ValidatorStats)
        ensures
            r.wf(),
            r@ == Map::<Pubkey, PacketForwardStats>::empty(),
    {
        ValidatorStats { entries: Vec::new(), map: Ghost(Map::empty()) }
    }

    pub fn len(&self) -> (r: usize)
        requires
            self.wf(),
        ensures
            r == self@.len(),
    {
        self.entries.len()
    }

    /// The entry at position `i`, for walking all of them.
    pub fn entry(&self, i: usize) -> (r: (Pubkey, PacketForwardStats))
        requires
            self.wf(),
            i < self@.len(),
        ensures
            self@.contains_key(r.0),
            self@[r.0] == r.1,
    {
        self.entries[i]
    }

    fn find(&self, key: &Pubkey) -> (r: Option<usize>)
        requires
            self.wf(),
        ensures
            match r {
                Some(i) => i < self.entries@.len() && self.entries@[i as int].0 == *key,
                None => !self@.contains_key(*key),
            },
    {
        let mut i: usize = 0;
        while i < self.entries.len()
            invariant
                self.wf(),
                i <= self.entries@.len(),
                forall|j: int| 0 <= j < i ==> (#[trigger] self.entries@[j]).0 != *key,
            decreases self.entries.len() - i,
        {
            if self.entries[i].0 == *key {
                return Some(i);
            }
            i = i + 1;
        }
        None
    }

    /// The counters of `key`, if it has any.
    pub fn get(&self, key: &Pubkey) -> (r: Option<PacketForwardStats>)
        requires
            self.wf(),
        ensures
            match r {
                Some(s) => self@.contains_key(*key) && s == self@[*key],
                None => !self@.contains_key(*key),
            },
    {
        match self.find(key) {
            Some(i) => Some(self.entries[i].1),
            None => None,
        }
    }

    /// Sets the counters of `key`.
    fn put(&mut self, key: Pubkey, stats: PacketForwardStats)
        requires
            old(self).wf(),
        ensures
            final(self).wf(),
            final(self)@ == old(self)@.insert(key, stats),
    {
        match self.find(&key) {
            Some(i) => {
                self.entries.set(i, (key, stats));
                self.map = Ghost(self.map@.insert(key, stats));
                assert(self.map@.dom() =~= old(self).map@.dom());
                assert forall|k: Pubkey| self.map@.contains_key(k) implies exists|j: int|
                    0 <= j < self.entries@.len() && (#[trigger] self.entries@[j].0) == k by {
                    let j = choose|j: int|
                        0 <= j < old(self).entries@.len() && (#[trigger] old(self).entries@[j].0) == k;
                    assert(self.entries@[j].0 == k);
                }
            },
            None => {
                proof {
                    lemma_lists_push(self.entries@, self.map@, key, stats);
                }
                self.entries.push((key, stats));
                self.map = Ghost(self.map@.insert(key, stats));
            },
        }
    }

    pub fn increment_packets_forwarded(&mut self, validator_id: &Pubkey, num_packets: u64)
        requires
            old(self).wf(),
        ensures
            final(self).wf(),
            final(self)@ == with_forwarded(old(self)@, *validator_id, num_packets),
    {
        let stats = match self.get(validator_id) {
            Some(s) => PacketForwardStats {
                num_packets_forwarded: s.num_packets_forwarded.saturating_add(num_packets),
                num_packets_dropped: s.num_packets_dropped,
            },
            None => PacketForwardStats { num_packets_forwarded: num_packets, num_packets_dropped: 0 },
        };
        self.put(*validator_id, stats);
    }

    pub fn increment_packets_dropped(&mut self, validator_id: &Pubkey, num_packets: u64)
        requires
            old(self).wf(),
        ensures
            final(self).wf(),
            final(self)@ == with_dropped(old(self)@, *validator_id, num_packets),
    {
        let stats = match self.get(validator_id) {
            Some(s) => PacketForwardStats {
                num_packets_forwarded: s.num_packets_forwarded,
                num_packets_dropped: s.num_packets_dropped.saturating_add(num_packets),
            },
            None => PacketForwardStats { num_packets_forwarded: 0, num_packets_dropped: num_packets },
        };
        self.put(*validator_id, stats);
    }
}

/// The bound of each subscriber's outbound queue.
pub const SUBSCRIBER_QUEUE_CAPACITY: usize = 50_000;

/// `a - b`, held at zero.
pub open spec fn sat_sub(a: int, b: int) -> int {
    if a < b {
        0
    } else {
        a - b
    }
}

/// The items queued in subscriber queues with `free` slots each.
pub open spec fn queued_sum(free: Seq<usize>) -> int
    decreases free.len(),
{
    if free.len() == 0 {
        0
    } else {
        queued_sum(free.drop_last()) + sat_sub(SUBSCRIBER_QUEUE_CAPACITY as int, free.last() as int)
    }
}

/// The items queued in subscriber queues with `free` slots each, held at `usize::MAX`.
pub fn total_queued(free: &Vec<usize>) -> (r: usize)
    ensures
        r == if queued_sum(free@) > usize::MAX { usize::MAX as int } else { queued_sum(free@) },
{
    let mut total: usize = 0;
    let mut i: usize = 0;
    while i < free.len()
        invariant
            i <= free@.len(),
            total == if queued_sum(free@.take(i as int)) > usize::MAX {
                usize::MAX as int
            } else {
                queued_sum(free@.take(i as int))
            },
            queued_sum(free@.take(i as int)) >= 0,
        decreases free.len() - i,
    {
        assert(free@.take(i + 1).drop_last() =~= free@.take(i as int));
        let queued = SUBSCRIBER_QUEUE_CAPACITY.saturating_sub(free[i]);
        total = total.saturating_add(queued);
        i = i + 1;
    }
    assert(free@.take(i as int) =~= free@);
    total
}

/// What the event loop observes over one metrics interval.
pub struct RelayerMetrics {
    pub highest_slot: u64,
    pub num_added_connections: u64,
    pub num_removed_connections: u64,
    pub num_current_connections: u64,
    pub num_heartbeats: u64,
    pub max_heartbeat_tick_latency_us: u64,
    pub metrics_latency_us: u64,
    pub num_try_send_channel_full: u64,
    pub packet_latencies_us: Histogram,
    pub crossbeam_delay_packet_receiver_processing_us: Histogram,
    pub crossbeam_subscription_receiver_processing_us: Histogram,
    pub crossbeam_heartbeat_tick_processing_us: Histogram,
    pub crossbeam_metrics_tick_processing_us: Histogram,
    pub subscription_receiver_max_len: usize,
    pub subscription_receiver_capacity: usize,
    pub delay_packet_receiver_max_len: usize,
    pub delay_packet_receiver_capacity: usize,
    /// Items queued over all subscriber queues.
    pub packet_subscriptions_total_queued: usize,
    pub packet_stats_per_validator: ValidatorStats,
}

/// The event-loop arms whose processing time is recorded.
#[derive(Clone, Copy, Debug, PartialEq, Eq, Structural)]
pub enum EventArm {
    DelayPacket,
    Subscription,
    HeartbeatTick,
    MetricsTick,
}

impl RelayerMetrics {
    pub open spec fn wf(&self) -> bool {
        self.packet_stats_per_validator.wf()
    }

    /// Counters at zero, for channels of the given capacities.
    pub open spec fn is_fresh(&self, subscription_receiver_capacity: usize, delay_packet_receiver_capacity: usize) -> bool {
        &&& self.wf()
        &&& self.highest_slot == 0
        &&& self.num_added_connections == 0
        &&& self.num_removed_connections == 0
        &&& self.num_current_connections == 0
        &&& self.num_heartbeats == 0
        &&& self.max_heartbeat_tick_latency_us == 0
        &&& self.metrics_latency_us == 0
        &&& self.num_try_send_channel_full == 0
        &&& self.subscription_receiver_max_len == 0
        &&& self.subscription_receiver_capacity == subscription_receiver_capacity
        &&& self.delay_packet_receiver_max_len == 0
        &&& self.delay_packet_receiver_capacity == delay_packet_receiver_capacity
        &&& self.packet_subscriptions_total_queued == 0
        &&& self.packet_stats_per_validator@ == Map::<Pubkey, PacketForwardStats>::empty()
    }

    pub fn new(subscription_receiver_capacity: usize, delay_packet_receiver_capacity: usize) -> (r: Self)
        ensures
            r.is_fresh(subscription_receiver_capacity, delay_packet_receiver_capacity),
    {
        RelayerMetrics {
            highest_slot: 0,
            num_added_connections: 0,
            num_removed_connections: 0,
            num_current_connections: 0,
            num_heartbeats: 0,
            max_heartbeat_tick_latency_us: 0,
            metrics_latency_us: 0,
            num_try_send_channel_full: 0,
            packet_latencies_us: Histogram::new(),
            crossbeam_delay_packet_receiver_processing_us: Histogram::new(),
            crossbeam_subscription_receiver_processing_us: Histogram::new(),
            crossbeam_heartbeat_tick_processing_us: Histogram::new(),
            crossbeam_metrics_tick_processing_us: Histogram::new(),
            subscription_receiver_max_len: 0,
            subscription_receiver_capacity,
            delay_packet_receiver_max_len: 0,
            delay_packet_receiver_capacity,
            packet_subscriptions_total_queued: 0,
            packet_stats_per_validator: ValidatorStats::new(),
        }
    }

    /// Keeps the largest channel lengths seen in the interval.
    pub fn update_max_len(&mut self, subscription_receiver_len: usize, delay_packet_receiver_len: usize)
        ensures
            final(self).subscription_receiver_max_len == if subscription_receiver_len
                > old(self).subscription_receiver_max_len {
                subscription_receiver_len
            } else {
                old(self).subscription_receiver_max_len
            },
            final(self).delay_packet_receiver_max_len == if delay_packet_receiver_len
                > old(self).delay_packet_receiver_max_len {
                delay_packet_receiver_len
            } else {
                old(self).delay_packet_receiver_max_len
            },
            *final(self) == (RelayerMetrics {
                subscription_receiver_max_len: final(self).subscription_receiver_max_len,
                delay_packet_receiver_max_len: final(self).delay_packet_receiver_max_len,
                ..*old(self)
            }),
    {
        if subscription_receiver_len > self.subscription_receiver_max_len {
            self.subscription_receiver_max_len = subscription_receiver_len;
        }
        if delay_packet_receiver_len > self.delay_packet_receiver_max_len {
            self.delay_packet_receiver_max_len = delay_packet_receiver_len;
        }
    }

    /// Keeps the largest heartbeat-tick delay seen in the interval.
    pub fn update_max_heartbeat_tick_latency(&mut self, latency_us: u64)
        ensures
            final(self).max_heartbeat_tick_latency_us == if latency_us
                > old(self).max_heartbeat_tick_latency_us {
                latency_us
            } else {
                old(self).max_heartbeat_tick_latency_us
            },
            *final(self) == (RelayerMetrics {
                max_heartbeat_tick_latency_us: final(self).max_heartbeat_tick_latency_us,
                ..*old(self)
            }),
    {
        if latency_us > self.max_heartbeat_tick_latency_us {
            self.max_heartbeat_tick_latency_us = latency_us;
        }
    }

    /// Records how long one arm of the event loop took.
    pub fn record_processing(&mut self, arm: EventArm, micros: u64)
        ensures
            *final(self) == match arm {
                EventArm::DelayPacket => (RelayerMetrics {
                    crossbeam_delay_packet_receiver_processing_us: final(self).crossbeam_delay_packet_receiver_processing_us,
                    ..*old(self)
                }),
                EventArm::Subscription => (RelayerMetrics {
                    crossbeam_subscription_receiver_processing_us: final(self).crossbeam_subscription_receiver_processing_us,
                    ..*old(self)
                }),
                EventArm::HeartbeatTick => (RelayerMetrics {
                    crossbeam_heartbeat_tick_processing_us: final(self).crossbeam_heartbeat_tick_processing_us,
                    ..*old(self)
                }),
                EventArm::MetricsTick => (RelayerMetrics {
                    crossbeam_metrics_tick_processing_us: final(self).crossbeam_metrics_tick_processing_us,
                    ..*old(self)
                }),
            },
    {
        let _ = match arm {
            EventArm::DelayPacket => self.crossbeam_delay_packet_receiver_processing_us.increment(micros),
            EventArm::Subscription => self.crossbeam_subscription_receiver_processing_us.increment(micros),
            EventArm::HeartbeatTick => self.crossbeam_heartbeat_tick_processing_us.increment(micros),
            EventArm::MetricsTick => self.crossbeam_metrics_tick_processing_us.increment(micros),
        };
    }

    /// Samples the number of items queued over all subscriber queues. The free slots of
    /// each queue are read as they are at that moment.
    pub fn update_packet_subscription_total_capacity(&mut self, packet_subscriptions: &SubscriberRegistry)
        requires
            packet_subscriptions.wf(),
        ensures
            exists|free: Seq<usize>|
                free.len() == packet_subscriptions@.len() && final(self).packet_subscriptions_total_queued == if queued_sum(free)
                    > usize::MAX {
                    usize::MAX as int
                } else {
                    queued_sum(free)
                },
            *final(self) == (RelayerMetrics {
                packet_subscriptions_total_queued: final(self).packet_subscriptions_total_queued,
                ..*old(self)
            }),
    {
        let subscribers = packet_subscriptions.listing();
        let mut free: Vec<usize> = Vec::new();
        let mut i: usize = 0;
        while i < subscribers.len()
            invariant
                i <= subscribers@.len(),
                free@.len() == i,
            decreases subscribers.len() - i,
        {
            free.push(free_slots(&subscribers[i].1));
            i = i + 1;
        }
        self.packet_subscriptions_total_queued = total_queued(&free);
    }

    pub fn increment_packets_forwarded(&mut self, validator_id: &Pubkey, num_packets: u64)
        requires
            old(self).wf(),
        ensures
            final(self).wf(),
            final(self).packet_stats_per_validator@ == with_forwarded(
                old(self).packet_stats_per_validator@,
                *validator_id,
                num_packets,
            ),
            *final(self) == (RelayerMetrics {
                packet_stats_per_validator: final(self).packet_stats_per_validator,
                ..*old(self)
            }),
    {
        self.packet_stats_per_validator.increment_packets_forwarded(validator_id, num_packets);
    }

    pub fn increment_packets_dropped(&mut self, validator_id: &Pubkey, num_packets: u64)
        requires
            old(self).wf(),
        ensures
            final(self).wf(),
            final(self).packet_stats_per_validator@ == with_dropped(
                old(self).packet_stats_per_validator@,
                *validator_id,
                num_packets,
            ),
            *final(self) == (RelayerMetrics {
                packet_stats_per_validator: final(self).packet_stats_per_validator,
                ..*old(self)
            }),
    {
        self.packet_stats_per_validator.increment_packets_dropped(validator_id, num_packets);
    }
}

} // verus!
