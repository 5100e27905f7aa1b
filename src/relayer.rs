use vstd::prelude::*;

use std::collections::HashMap;

use crate::denylist::{lookup_tables, Denylist, LookupTableCache};
use crate::fanout::{
    after_attempts, chunk_packets, chunks, closed_targets, joined, pass_ok, project_packets,
    projected_batches, send_batches, Attempt,
};
use crate::forwarding::{compute_forwarding_set, forwarding_targets, LEADER_LOOKAHEAD};
use crate::metrics::{queued_sum, sat_add, RelayerMetrics};
use crate::packet::{micros_since, RelayerPacketBatches, SubscribeResponse};
use crate::pubkey::Pubkey;
use crate::registry::{lists_map, SubscriberRegistry};
use crate::sink::{try_send, SendOutcome, Sink};

verus! {

/// Whether the relayer may serve validators.
#[derive(Clone, Copy, Debug, PartialEq, Eq, Structural)]
pub enum HealthState {
    Healthy,
    Unhealthy,
}

/// Why the event loop stopped.
#[derive(Clone, Copy, Debug, PartialEq, Eq, Structural)]
pub enum RelayerError {
    /// An input channel of the event loop was closed.
    Shutdown,
}

pub type RelayerResult<T> = Result<T, RelayerError>;

/// A request of a validator to receive packets on `sender`.
pub enum Subscription {
    ValidatorPacketSubscription { pubkey: Pubkey, sender: Sink },
}

/// The largest heartbeat-tick delay seen, after a tick whose delay is `latency`, if known.
pub open spec fn tick_latency_max(seen: u64, latency: Option<u64>) -> u64 {
    match latency {
        Some(l) => if l > seen {
            l
        } else {
            seen
        },
        None => seen,
    }
}

/// One heartbeat offered to a subscriber, and how it ended.
pub ghost struct HeartbeatTry {
    pub to: Pubkey,
    pub sink: Sink,
    pub count: u64,
    pub outcome: SendOutcome,
}

/// The subscribers whose stream was found closed, in the order tried.
pub open spec fn closed_tries(log: Seq<HeartbeatTry>) -> Seq<Pubkey>
    decreases log.len(),
{
    if log.len() == 0 {
        seq![]
    } else {
        closed_tries(log.drop_last()) + if log.last().outcome == SendOutcome::Closed {
            seq![log.last().to]
        } else {
            seq![]
        }
    }
}

/// Counter `c` after one more for each full queue in `log`.
pub open spec fn full_count(c: u64, log: Seq<HeartbeatTry>) -> u64
    decreases log.len(),
{
    if log.len() == 0 {
        c
    } else {
        let c0 = full_count(c, log.drop_last());
        if log.last().outcome == SendOutcome::Full {
            sat_add(c0, 1)
        } else {
            c0
        }
    }
}

/// `log` offers one heartbeat with `count` to each subscriber of `subs`, each once and
/// on its own sink.
pub open spec fn heartbeat_round(log: Seq<HeartbeatTry>, subs: Map<Pubkey, Sink>, count: u64) -> bool {
    &&& log.len() == subs.len()
    &&& forall|i: int|
        0 <= i < log.len() ==> #[trigger] log[i].count == count && subs.contains_key(log[i].to) && subs[log[i].to]
            == log[i].sink
    &&& forall|i: int, j: int| 0 <= i < log.len() && 0 <= j < log.len() && i != j ==> log[i].to != log[j].to
    &&& forall|k: Pubkey| subs.contains_key(k) ==> exists|i: int| 0 <= i < log.len() && (#[trigger] log[i].to) == k
}

/// The sub-batches that a batch is cut into after projection.
pub open spec fn sub_batches(
    batches: Seq<Vec<crate::packet::Packet>>,
    deny: Set<Pubkey>,
    tables: Map<Pubkey, Seq<Pubkey>>,
    size: usize,
) -> Seq<Seq<crate::packet::WirePacketView>> {
    chunks(projected_batches(batches, deny, tables), size as nat)
}

/// `log` holds one pass per sub-batch of `subs`, each made to `targets` by the rules of
/// the event loop.
pub open spec fn fanout_of(
    log: Seq<Seq<Attempt>>,
    subs: Seq<Seq<crate::packet::WirePacketView>>,
    targets: Seq<(Pubkey, Sink)>,
) -> bool {
    &&& log.len() == subs.len()
    &&& forall|i: int| 0 <= i < subs.len() ==> pass_ok(subs[i], targets, #[trigger] log[i])
}

/// The relayer's fan-out state, driven one event at a time by the event loop.
pub struct RelayerCore {
    /// Every connected subscriber.
    pub subscriptions: SubscriberRegistry,
    /// The subscribers that batches currently go to.
    pub senders: SubscriberRegistry,
    pub last_observed_slot: u64,
    /// The count of the next heartbeat; never reset.
    pub heartbeat_count: u64,
    pub metrics: RelayerMetrics,
    pub ofac_addresses: Denylist,
    pub validator_packet_batch_size: usize,
    pub forward_all: bool,
}

impl RelayerCore {
    pub open spec fn wf(&self) -> bool {
        &&& self.subscriptions.wf()
        &&& self.senders.wf()
        &&& self.senders@.submap_of(self.subscriptions@)
        &&& self.metrics.wf()
        &&& self.validator_packet_batch_size > 0
    }

    pub fn new(
        subscription_receiver_capacity: usize,
        delay_packet_receiver_capacity: usize,
        highest_slot: u64,
        ofac_addresses: Denylist,
        validator_packet_batch_size: usize,
        forward_all: bool,
    ) -> (r: RelayerCore)
        requires
            validator_packet_batch_size > 0,
        ensures
            r.wf(),
            r.subscriptions@ == Map::<Pubkey, Sink>::empty(),
            r.senders@ == Map::<Pubkey, Sink>::empty(),
            r.last_observed_slot == highest_slot,
            r.heartbeat_count == 0,
            r.metrics.is_fresh(subscription_receiver_capacity, delay_packet_receiver_capacity),
            r.ofac_addresses@ == ofac_addresses@,
            r.validator_packet_batch_size == validator_packet_batch_size,
            r.forward_all == forward_all,
    {
        RelayerCore {
            subscriptions: SubscriberRegistry::new(),
            senders: SubscriberRegistry::new(),
            last_observed_slot: highest_slot,
            heartbeat_count: 0,
            metrics: RelayerMetrics::new(subscription_receiver_capacity, delay_packet_receiver_capacity),
            ofac_addresses,
            validator_packet_batch_size,
            forward_all,
        }
    }

    /// The identities of the connected subscribers, each once.
    pub fn connected_validators(&self) -> (r: Vec<Pubkey>)
        requires
            self.wf(),
        ensures
            r@.no_duplicates(),
            r@.to_set() == self.subscriptions@.dom(),
            r@.len() == self.subscriptions@.len(),
    {
        self.subscriptions.connected_validators()
    }

    /// Admits a subscriber; a second subscription of the same identity replaces the
    /// first, also in the forwarding set, which releases the old sink. A closed
    /// subscription channel stops the loop.
    pub fn handle_subscription(&mut self, maybe_subscription: Option<Subscription>) -> (r: RelayerResult<()>)
        requires
            old(self).wf(),
        ensures
            final(self).wf(),
            match maybe_subscription {
                None => r == Err::<(), RelayerError>(RelayerError::Shutdown) && *final(self) == *old(self),
                Some(Subscription::ValidatorPacketSubscription { pubkey, sender }) => {
                    &&& r == Ok::<(), RelayerError>(())
                    &&& *final(self) == (RelayerCore {
                        subscriptions: final(self).subscriptions,
                        senders: final(self).senders,
                        metrics: RelayerMetrics {
                            num_added_connections: final(self).metrics.num_added_connections,
                            ..old(self).metrics
                        },
                        ..*old(self)
                    })
                    &&& final(self).subscriptions@ == old(self).subscriptions@.insert(pubkey, sender)
                    &&& final(self).senders@ == if old(self).senders@.contains_key(pubkey) {
                        old(self).senders@.insert(pubkey, sender)
                    } else {
                        old(self).senders@
                    }
                    &&& final(self).metrics.num_added_connections == if old(self).subscriptions@.contains_key(pubkey) {
                        old(self).metrics.num_added_connections
                    } else {
                        sat_add(old(self).metrics.num_added_connections, 1)
                    }
                },
            },
    {
        match maybe_subscription {
            None => Err(RelayerError::Shutdown),
            Some(Subscription::ValidatorPacketSubscription { pubkey, sender }) => {
                let in_forwarding_set = self.senders.contains(&pubkey);
                if in_forwarding_set {
                    self.senders.insert(pubkey, crate::sink::share(&sender));
                }
                let replaced = self.subscriptions.insert(pubkey, sender);
                if !replaced {
                    self.metrics.num_added_connections = self.metrics.num_added_connections.saturating_add(1);
                }
                assert(self.senders@.submap_of(self.subscriptions@));
                Ok(())
            },
        }
    }

    /// Removes the given subscribers from the registry and the forwarding set,
    /// releasing their sinks.
    pub fn drop_connections(&mut self, disconnected_pubkeys: Vec<Pubkey>)
        requires
            old(self).wf(),
        ensures
            final(self).wf(),
            final(self).subscriptions@ == old(self).subscriptions@.remove_keys(disconnected_pubkeys@.to_set()),
            final(self).senders@ == old(self).senders@.remove_keys(disconnected_pubkeys@.to_set()),
            final(self).metrics.num_removed_connections == sat_add(
                old(self).metrics.num_removed_connections,
                disconnected_pubkeys@.len() as u64,
            ),
            *final(self) == (RelayerCore {
                subscriptions: final(self).subscriptions,
                senders: final(self).senders,
                metrics: RelayerMetrics {
                    num_removed_connections: final(self).metrics.num_removed_connections,
                    ..old(self).metrics
                },
                ..*old(self)
            }),
    {
        self.metrics.num_removed_connections = self.metrics.num_removed_connections.saturating_add(
            disconnected_pubkeys.len() as u64,
        );
        let ghost counted = *self;
        let mut i: usize = 0;
        assert(old(self).subscriptions@.remove_keys(disconnected_pubkeys@.take(0).to_set()) =~= self.subscriptions@);
        assert(old(self).senders@.remove_keys(disconnected_pubkeys@.take(0).to_set()) =~= self.senders@);
        while i < disconnected_pubkeys.len()
            invariant
                self.wf(),
                i <= disconnected_pubkeys@.len(),
                self.subscriptions@ == old(self).subscriptions@.remove_keys(
                    disconnected_pubkeys@.take(i as int).to_set(),
                ),
                self.senders@ == old(self).senders@.remove_keys(disconnected_pubkeys@.take(i as int).to_set()),
                *self == (RelayerCore {
                    subscriptions: self.subscriptions,
                    senders: self.senders,
                    ..counted
                }),
                counted == (RelayerCore {
                    metrics: RelayerMetrics {
                        num_removed_connections: sat_add(
                            old(self).metrics.num_removed_connections,
                            disconnected_pubkeys@.len() as u64,
                        ),
                        ..old(self).metrics
                    },
                    ..*old(self)
                }),
            decreases disconnected_pubkeys.len() - i,
        {
            let key = disconnected_pubkeys[i];
            let _ = self.subscriptions.remove(&key);
            let _ = self.senders.remove(&key);
            proof {
                let t0 = disconnected_pubkeys@.take(i as int);
                assert(disconnected_pubkeys@.take(i + 1) =~= t0.push(key));
                t0.lemma_push_to_set_commute(key);
            }
            assert(self.subscriptions@ =~= old(self).subscriptions@.remove_keys(
                disconnected_pubkeys@.take(i + 1).to_set(),
            ));
            assert(self.senders@ =~= old(self).senders@.remove_keys(disconnected_pubkeys@.take(i + 1).to_set()));
            assert(self.senders@.submap_of(self.subscriptions@));
            i = i + 1;
        }
        assert(disconnected_pubkeys@.take(i as int) =~= disconnected_pubkeys@);
    }

    /// Offers a heartbeat with the current count to every subscriber without waiting,
    /// then advances the count. Returns the subscribers whose stream was closed; a full
    /// queue only counts.
    pub fn handle_heartbeat(&mut self) -> (r: (Vec<Pubkey>, Ghost<Seq<HeartbeatTry>>))
        requires
            old(self).wf(),
        ensures
            final(self).wf(),
            heartbeat_round(r.1@, old(self).subscriptions@, old(self).heartbeat_count),
            r.0@ == closed_tries(r.1@),
            final(self).metrics.num_try_send_channel_full == full_count(
                old(self).metrics.num_try_send_channel_full,
                r.1@,
            ),
            *final(self) == (RelayerCore {
                heartbeat_count: sat_add(old(self).heartbeat_count, 1),
                metrics: RelayerMetrics {
                    num_try_send_channel_full: final(self).metrics.num_try_send_channel_full,
                    num_heartbeats: sat_add(old(self).metrics.num_heartbeats, 1),
                    ..old(self).metrics
                },
                ..*old(self)
            }),
    {
        let subs = self.subscriptions.listing();
        let count = self.heartbeat_count;
        let mut failed: Vec<Pubkey> = Vec::new();
        let ghost mut log: Seq<HeartbeatTry> = Seq::empty();
        let mut i: usize = 0;
        while i < subs.len()
            invariant
                self.wf(),
                lists_map(subs@, self.subscriptions@),
                *self == (RelayerCore {
                    metrics: RelayerMetrics {
                        num_try_send_channel_full: self.metrics.num_try_send_channel_full,
                        ..old(self).metrics
                    },
                    ..*old(self)
                }),
                count == old(self).heartbeat_count,
                i <= subs@.len(),
                log.len() == i,
                forall|j: int|
                    0 <= j < i ==> (#[trigger] log[j]).to == subs@[j].0 && log[j].sink == subs@[j].1 && log[j].count
                        == count,
                failed@ == closed_tries(log),
                self.metrics.num_try_send_channel_full == full_count(
                    old(self).metrics.num_try_send_channel_full,
                    log,
                ),
            decreases subs.len() - i,
        {
            let entry = &subs[i];
            let outcome = try_send(&entry.1, SubscribeResponse::Heartbeat { count });
            let ghost log0 = log;
            proof {
                log = log.push(HeartbeatTry { to: entry.0, sink: entry.1, count, outcome });
                assert(log.drop_last() =~= log0);
            }
            match outcome {
                SendOutcome::Sent => {},
                SendOutcome::Full => {
                    self.metrics.num_try_send_channel_full = self.metrics.num_try_send_channel_full.saturating_add(1);
                },
                SendOutcome::Closed => {
                    failed.push(entry.0);
                },
            }
            i = i + 1;
        }
        proof {
            let m = old(self).subscriptions@;
            assert forall|k: Pubkey| m.contains_key(k) implies exists|j: int| 0 <= j < log.len() && (#[trigger] log[j].to) == k by {
                let j = choose|j: int| 0 <= j < subs@.len() && (#[trigger] subs@[j].0) == k;
                assert(log[j].to == k);
            }
            assert forall|j: int| 0 <= j < log.len() implies #[trigger] log[j].count == count && m.contains_key(log[j].to)
                && m[log[j].to] == log[j].sink by {
                assert(m.contains_key(subs@[j].0));
            }
        }
        self.heartbeat_count = self.heartbeat_count.saturating_add(1);
        self.metrics.num_heartbeats = self.metrics.num_heartbeats.saturating_add(1);
        (failed, Ghost(log))
    }

    /// A heartbeat tick. When healthy, heartbeats go out and closed subscribers are
    /// dropped; when unhealthy, every subscriber is dropped and no heartbeat is sent.
    pub fn handle_heartbeat_tick(&mut self, health: HealthState, tick_latency_us: Option<u64>) -> (r: Ghost<
        Seq<HeartbeatTry>,
    >)
        requires
            old(self).wf(),
        ensures
            final(self).wf(),
            health == HealthState::Unhealthy ==> {
                &&& r@.len() == 0
                &&& final(self).subscriptions@ == Map::<Pubkey, Sink>::empty()
                &&& final(self).senders@ == Map::<Pubkey, Sink>::empty()
                &&& *final(self) == (RelayerCore {
                    subscriptions: final(self).subscriptions,
                    senders: final(self).senders,
                    metrics: RelayerMetrics {
                        max_heartbeat_tick_latency_us: tick_latency_max(
                            old(self).metrics.max_heartbeat_tick_latency_us,
                            tick_latency_us,
                        ),
                        num_removed_connections: sat_add(
                            old(self).metrics.num_removed_connections,
                            old(self).subscriptions@.len() as u64,
                        ),
                        ..old(self).metrics
                    },
                    ..*old(self)
                })
            },
            health == HealthState::Healthy ==> {
                &&& heartbeat_round(r@, old(self).subscriptions@, old(self).heartbeat_count)
                &&& final(self).subscriptions@ == old(self).subscriptions@.remove_keys(closed_tries(r@).to_set())
                &&& final(self).senders@ == old(self).senders@.remove_keys(closed_tries(r@).to_set())
                &&& *final(self) == (RelayerCore {
                    subscriptions: final(self).subscriptions,
                    senders: final(self).senders,
                    heartbeat_count: sat_add(old(self).heartbeat_count, 1),
                    metrics: RelayerMetrics {
                        max_heartbeat_tick_latency_us: tick_latency_max(
                            old(self).metrics.max_heartbeat_tick_latency_us,
                            tick_latency_us,
                        ),
                        num_try_send_channel_full: full_count(old(self).metrics.num_try_send_channel_full, r@),
                        num_heartbeats: sat_add(old(self).metrics.num_heartbeats, 1),
                        num_removed_connections: sat_add(
                            old(self).metrics.num_removed_connections,
                            closed_tries(r@).len() as u64,
                        ),
                        ..old(self).metrics
                    },
                    ..*old(self)
                })
            },
    {
        match tick_latency_us {
            Some(latency) => self.metrics.update_max_heartbeat_tick_latency(latency),
            None => {},
        }
        match health {
            HealthState::Healthy => {
                let (failed, log) = self.handle_heartbeat();
                self.drop_connections(failed);
                log
            },
            HealthState::Unhealthy => {
                let everyone = self.subscriptions.connected_validators();
                self.drop_connections(everyone);
                assert(self.subscriptions@ =~= Map::<Pubkey, Sink>::empty());
                assert(self.senders@ =~= Map::<Pubkey, Sink>::empty());
                Ghost(Seq::empty())
            },
        }
    }

    /// Forwards one batch: records its latency, drops discarded and blocked packets, cuts
    /// the rest into sub-batches and offers each to the forwarding set. Returns the
    /// subscribers found closed.
    pub fn forward_packets(&mut self, packet_batches: RelayerPacketBatches, tables: &LookupTableCache) -> (r: Vec<Pubkey>)
        requires
            old(self).wf(),
        ensures
            final(self).wf(),
            *final(self) == (RelayerCore {
                metrics: RelayerMetrics {
                    packet_latencies_us: final(self).metrics.packet_latencies_us,
                    packet_stats_per_validator: final(self).metrics.packet_stats_per_validator,
                    ..old(self).metrics
                },
                ..*old(self)
            }),
            exists|log: Seq<Seq<Attempt>>| {
                &&& fanout_of(
                    log,
                    sub_batches(
                        packet_batches.banking_packet_batch@,
                        old(self).ofac_addresses@,
                        lookup_tables(*tables),
                        old(self).validator_packet_batch_size,
                    ),
                    old(self).senders.order(),
                )
                &&& r@ == closed_targets(log)
                &&& final(self).metrics.packet_stats_per_validator@ == after_attempts(
                    old(self).metrics.packet_stats_per_validator@,
                    joined(log),
                )
            },
    {
        let latency = micros_since(&packet_batches.stamp);
        let _ = self.metrics.packet_latencies_us.increment(latency);
        let ghost subs = sub_batches(
            packet_batches.banking_packet_batch@,
            self.ofac_addresses@,
            lookup_tables(*tables),
            self.validator_packet_batch_size,
        );
        let packets = project_packets(&packet_batches.banking_packet_batch, &self.ofac_addresses, tables);
        if packets.len() == 0 {
            assert(crate::fanout::wire_views(packets@) =~= Seq::<crate::packet::WirePacketView>::empty());
            assert(subs =~= Seq::<Seq<crate::packet::WirePacketView>>::empty());
            assert(closed_targets(Seq::<Seq<Attempt>>::empty()) =~= Seq::<Pubkey>::empty());
            assert(fanout_of(Seq::<Seq<Attempt>>::empty(), subs, self.senders.order()));
            assert(after_attempts(self.metrics.packet_stats_per_validator@, joined(Seq::<Seq<Attempt>>::empty()))
                == self.metrics.packet_stats_per_validator@);
            return Vec::new();
        }
        let proto_packet_batches = chunk_packets(packets, self.validator_packet_batch_size);
        let (failed_forwards, Ghost(log)) = send_batches(
            &proto_packet_batches,
            self.senders.listing(),
            &mut self.metrics.packet_stats_per_validator,
        );
        assert forall|i: int| 0 <= i < subs.len() implies pass_ok(subs[i], self.senders.order(), #[trigger] log[i]) by {
            assert(subs[i] == proto_packet_batches@[i]@);
        }
        failed_forwards
    }

    /// A batch from the hand-off queue: forwards it and drops the subscribers found
    /// closed. A closed queue stops the loop.
    pub fn handle_packet_batch(
        &mut self,
        maybe_packet_batches: Option<RelayerPacketBatches>,
        tables: &LookupTableCache,
    ) -> (r: RelayerResult<()>)
        requires
            old(self).wf(),
        ensures
            final(self).wf(),
            match maybe_packet_batches {
                None => r == Err::<(), RelayerError>(RelayerError::Shutdown) && *final(self) == *old(self),
                Some(b) => r == Ok::<(), RelayerError>(()) && exists|log: Seq<Seq<Attempt>>| {
                    &&& fanout_of(
                        log,
                        sub_batches(
                            b.banking_packet_batch@,
                            old(self).ofac_addresses@,
                            lookup_tables(*tables),
                            old(self).validator_packet_batch_size,
                        ),
                        old(self).senders.order(),
                    )
                    &&& final(self).subscriptions@ == old(self).subscriptions@.remove_keys(closed_targets(log).to_set())
                    &&& final(self).senders@ == old(self).senders@.remove_keys(closed_targets(log).to_set())
                    &&& final(self).metrics.packet_stats_per_validator@ == after_attempts(
                        old(self).metrics.packet_stats_per_validator@,
                        joined(log),
                    )
                    &&& *final(self) == (RelayerCore {
                        subscriptions: final(self).subscriptions,
                        senders: final(self).senders,
                        metrics: RelayerMetrics {
                            packet_latencies_us: final(self).metrics.packet_latencies_us,
                            packet_stats_per_validator: final(self).metrics.packet_stats_per_validator,
                            num_removed_connections: sat_add(
                                old(self).metrics.num_removed_connections,
                                closed_targets(log).len() as u64,
                            ),
                            ..old(self).metrics
                        },
                        ..*old(self)
                    })
                },
            },
    {
        match maybe_packet_batches {
            None => Err(RelayerError::Shutdown),
            Some(packet_batches) => {
                let failed_forwards = self.forward_packets(packet_batches, tables);
                self.drop_connections(failed_forwards);
                Ok(())
            },
        }
    }

    /// Reads the highest slot; when it moved, the forwarding set is recomputed from the
    /// leader schedule (or from every subscriber when forwarding to all).
    pub fn observe_slot(&mut self, new_slot: u64, schedule: &HashMap<u64, Pubkey>)
        requires
            old(self).wf(),
        ensures
            final(self).wf(),
            new_slot == old(self).last_observed_slot ==> *final(self) == *old(self),
            new_slot != old(self).last_observed_slot ==> *final(self) == (RelayerCore {
                senders: final(self).senders,
                last_observed_slot: new_slot,
                metrics: RelayerMetrics { highest_slot: new_slot, ..old(self).metrics },
                ..*old(self)
            }),
            new_slot != old(self).last_observed_slot ==> final(self).senders@ == forwarding_targets(
                old(self).subscriptions@,
                schedule@,
                new_slot,
                (LEADER_LOOKAHEAD * 4) as int,
                old(self).forward_all,
            ),
    {
        if self.last_observed_slot != new_slot {
            self.last_observed_slot = new_slot;
            self.metrics.highest_slot = new_slot;
            self.senders = compute_forwarding_set(&self.subscriptions, schedule, new_slot, self.forward_all);
            assert(self.senders@.submap_of(self.subscriptions@));
        }
    }

    /// A metrics tick: samples the registry, hands back the interval's metrics for
    /// publishing and starts a fresh interval.
    pub fn handle_metrics_tick(&mut self, metrics_latency_us: Option<u64>) -> (r: RelayerMetrics)
        requires
            old(self).wf(),
        ensures
            final(self).wf(),
            *final(self) == (RelayerCore { metrics: final(self).metrics, ..*old(self) }),
            final(self).metrics.is_fresh(
                old(self).metrics.subscription_receiver_capacity,
                old(self).metrics.delay_packet_receiver_capacity,
            ),
            r == (RelayerMetrics {
                num_current_connections: old(self).subscriptions@.len() as u64,
                packet_subscriptions_total_queued: r.packet_subscriptions_total_queued,
                metrics_latency_us: match metrics_latency_us {
                    Some(l) => l,
                    None => old(self).metrics.metrics_latency_us,
                },
                ..old(self).metrics
            }),
            exists|free: Seq<usize>|
                free.len() == old(self).subscriptions@.len() && r.packet_subscriptions_total_queued == if queued_sum(free)
                    > usize::MAX {
                    usize::MAX as int
                } else {
                    queued_sum(free)
                },
    {
        self.metrics.num_current_connections = self.subscriptions.len() as u64;
        self.metrics.update_packet_subscription_total_capacity(&self.subscriptions);
        match metrics_latency_us {
            Some(latency) => self.metrics.metrics_latency_us = latency,
            None => {},
        }
        let mut fresh = RelayerMetrics::new(
            self.metrics.subscription_receiver_capacity,
            self.metrics.delay_packet_receiver_capacity,
        );
        std::mem::swap(&mut self.metrics, &mut fresh);
        fresh
    }
}

/// The heartbeat count after `n` healthy heartbeat ticks from count `c`.
pub open spec fn count_after_rounds(c: u64, n: nat) -> u64
    decreases n,
{
    if n == 0 {
        c
    } else {
        sat_add(count_after_rounds(c, (n - 1) as nat), 1)
    }
}

proof fn lemma_count_after_rounds(c: u64, n: nat)
    requires
        c + n <= u64::MAX,
    ensures
        count_after_rounds(c, n) == c + n,
    decreases n,
{
    if n > 0 {
        lemma_count_after_rounds(c, (n - 1) as nat);
    }
}

/// Heartbeats of later ticks carry strictly larger counts, as long as the counter stays
/// below `u64::MAX`. Only a healthy heartbeat tick changes the count, by one.
pub proof fn lemma_heartbeat_counts_increase(c: u64, i: nat, j: nat)
    requires
        i < j,
        c + j <= u64::MAX,
    ensures
        count_after_rounds(c, i) < count_after_rounds(c, j),
{
    lemma_count_after_rounds(c, i);
    lemma_count_after_rounds(c, j);
}

} // verus!
