use std::collections::HashMap;
use std::time::Instant;

use relayer::packet::PacketFlags;
use relayer::fanout::{chunk_packets, packet_allowed, project_packets};
use relayer::forwarding::compute_forwarding_set;
use relayer::metrics::{total_queued, EventArm, RelayerMetrics};
use relayer::registry::SubscriberRegistry;
use relayer::relayer::{HealthState, RelayerError};
use relayer::rpc::{admit_subscriber, check_health, subscription_refused, tpu_configs, Code, Status};
use relayer::tpu::quic_pool_limits;
use relayer::{
    Denylist, LookupTableCache, Packet, Pubkey, RelayerCore, RelayerPacketBatches, SubscribeResponse,
    Subscription, WirePacket,
};
use tokio::sync::mpsc::{channel, error::TryRecvError, Receiver};

fn key(n: u8) -> Pubkey {
    Pubkey::new([n; 32])
}

fn packet(byte: u8, discard: bool) -> Packet {
    Packet {
        data: vec![byte],
        addr: format!("10.0.0.{byte}"),
        port: 9000 + byte as u16,
        discard,
        flags: PacketFlags { forwarded: byte % 2 == 0, repair: false, simple_vote_tx: false, tracer_packet: false },
        sender_stake: byte as u64 * 10,
    }
}

fn no_flags() -> PacketFlags {
    PacketFlags { forwarded: false, repair: false, simple_vote_tx: false, tracer_packet: false }
}

fn wire(byte: u8) -> WirePacket {
    WirePacket { data: vec![byte], addr: "10.0.0.9".to_string(), port: 9000, flags: no_flags(), sender_stake: 0 }
}

fn subscribe(core: &mut RelayerCore, id: Pubkey, capacity: usize) -> Receiver<SubscribeResponse> {
    let (sender, receiver) = channel(capacity);
    core.handle_subscription(Some(Subscription::ValidatorPacketSubscription { pubkey: id, sender }))
        .unwrap();
    receiver
}

fn one_batch(packets: Vec<Packet>) -> RelayerPacketBatches {
    RelayerPacketBatches { stamp: Instant::now(), banking_packet_batch: vec![packets] }
}

#[test]
fn pubkeys_compare_by_bytes() {
    let mut bytes = [3u8; 32];
    assert_eq!(Pubkey::new(bytes), key(3));
    bytes[31] = 4;
    assert_ne!(Pubkey::new(bytes), key(3));
    assert_eq!(Pubkey::new(bytes).to_bytes(), bytes);
}

#[test]
fn chunks_keep_order_and_leave_the_remainder_last() {
    let packets: Vec<WirePacket> = (1..=5u8).map(wire).collect();
    let chunks = chunk_packets(packets, 2);
    let sizes: Vec<usize> = chunks.iter().map(|c| c.packets.len()).collect();
    assert_eq!(sizes, vec![2, 2, 1]);
    let flat: Vec<u8> = chunks.iter().flat_map(|c| c.packets.iter().map(|p| p.data[0])).collect();
    assert_eq!(flat, vec![1, 2, 3, 4, 5]);
}

#[test]
fn chunking_nothing_gives_no_sub_batch() {
    assert!(chunk_packets(vec![], 3).is_empty());
}

#[test]
fn projection_drops_discarded_packets_and_keeps_order() {
    let batches = vec![vec![packet(1, false), packet(2, true)], vec![packet(3, false)]];
    let out = project_packets(&batches, &Denylist::new(vec![]), &LookupTableCache::from_tables(vec![]));
    let data: Vec<u8> = out.iter().map(|p| p.data[0]).collect();
    assert_eq!(data, vec![1, 3]);
    assert_eq!(out[0].port, 9001);
    assert!(!out[0].flags.forwarded);
    assert_eq!(out[0].addr, "10.0.0.1");
    assert_eq!(out[0].sender_stake, 10);
    assert_eq!(out[1].port, 9003);
    assert_eq!(out[1].addr, "10.0.0.3");
}

#[test]
fn undecodable_packet_is_dropped_when_a_denylist_is_set() {
    let deny = Denylist::new(vec![key(9)]);
    let tables = LookupTableCache::from_tables(vec![]);
    assert!(!packet_allowed(&packet(1, false), &deny, &tables));
    assert!(packet_allowed(&packet(1, false), &Denylist::new(vec![]), &tables));
}

#[test]
fn static_key_on_denylist_blocks_transaction() {
    let message = solana_sdk::message::v0::Message {
        header: solana_sdk::message::MessageHeader {
            num_required_signatures: 1,
            num_readonly_signed_accounts: 0,
            num_readonly_unsigned_accounts: 0,
        },
        account_keys: vec![solana_sdk::pubkey::Pubkey::new_from_array([9; 32])],
        recent_blockhash: solana_sdk::hash::Hash::default(),
        instructions: vec![],
        address_table_lookups: vec![],
    };
    let tx = solana_sdk::transaction::VersionedTransaction {
        signatures: vec![solana_sdk::signature::Signature::default()],
        message: solana_sdk::message::VersionedMessage::V0(message),
    };
    let p = Packet {
        data: bincode::serialize(&tx).unwrap(),
        addr: "1.2.3.4".to_string(),
        port: 1,
        discard: false,
        flags: no_flags(),
        sender_stake: 0,
    };
    let tables = LookupTableCache::from_tables(vec![]);
    assert!(!packet_allowed(&p, &Denylist::new(vec![key(9)]), &tables));
    assert!(packet_allowed(&p, &Denylist::new(vec![key(8)]), &tables));
}

#[test]
fn later_lookup_table_wins() {
    let cache = LookupTableCache::from_tables(vec![(key(1), vec![key(2)]), (key(1), vec![key(3)])]);
    assert_eq!(cache.addresses(&key(1)).unwrap(), &vec![key(3)]);
    assert!(cache.addresses(&key(2)).is_none());
}

#[test]
fn registry_replaces_and_removes() {
    let mut reg = SubscriberRegistry::new();
    let (a, _ra) = channel(1);
    let (b, _rb) = channel(1);
    assert!(!reg.insert(key(1), a));
    assert!(reg.insert(key(1), b));
    assert_eq!(reg.len(), 1);
    assert!(reg.remove(&key(1)).is_some());
    assert!(reg.remove(&key(1)).is_none());
    assert_eq!(reg.len(), 0);
}

#[test]
fn leader_window_spans_two_rotations() {
    let mut reg = SubscriberRegistry::new();
    let mut receivers = vec![];
    for n in 1..=3u8 {
        let (s, r) = channel(1);
        reg.insert(key(n), s);
        receivers.push(r);
    }
    let mut schedule = HashMap::new();
    schedule.insert(10u64, key(1));
    schedule.insert(17u64, key(2));
    schedule.insert(18u64, key(3));
    let set = compute_forwarding_set(&reg, &schedule, 10, false);
    assert!(set.contains(&key(1)));
    assert!(set.contains(&key(2)));
    assert!(!set.contains(&key(3)));
    assert_eq!(compute_forwarding_set(&reg, &schedule, 10, true).len(), 3);
}

#[test]
fn leader_present_in_schedule_but_not_connected_is_skipped() {
    let reg = SubscriberRegistry::new();
    let mut schedule = HashMap::new();
    schedule.insert(5u64, key(1));
    assert_eq!(compute_forwarding_set(&reg, &schedule, 5, false).len(), 0);
}

#[test]
fn heartbeat_counts_increase_and_are_not_reset_by_metrics() {
    let mut core = RelayerCore::new(100, 10_000, 0, Denylist::new(vec![]), 4, true);
    let mut rx = subscribe(&mut core, key(1), 100);
    core.handle_heartbeat_tick(HealthState::Healthy, Some(12));
    let _ = core.handle_metrics_tick(None);
    core.handle_heartbeat_tick(HealthState::Healthy, None);
    let mut counts = vec![];
    while let Ok(SubscribeResponse::Heartbeat { count }) = rx.try_recv() {
        counts.push(count);
    }
    assert_eq!(counts, vec![0, 1]);
    assert_eq!(core.heartbeat_count, 2);
    assert_eq!(core.metrics.num_heartbeats, 1);
}

#[test]
fn heartbeat_drops_closed_and_keeps_full() {
    let mut core = RelayerCore::new(100, 10_000, 0, Denylist::new(vec![]), 4, true);
    let rx_closed = subscribe(&mut core, key(1), 1);
    let _rx_full = subscribe(&mut core, key(2), 1);
    drop(rx_closed);
    core.handle_heartbeat_tick(HealthState::Healthy, Some(40));
    core.handle_heartbeat_tick(HealthState::Healthy, Some(5));
    assert_eq!(core.connected_validators(), vec![key(2)]);
    assert_eq!(core.metrics.num_try_send_channel_full, 1);
    assert_eq!(core.metrics.num_removed_connections, 1);
    assert_eq!(core.metrics.max_heartbeat_tick_latency_us, 40);
}

#[test]
fn closed_subscriber_ends_the_pass_for_that_sub_batch() {
    let mut core = RelayerCore::new(100, 10_000, 0, Denylist::new(vec![]), 1, true);
    let rx_x = subscribe(&mut core, key(1), 10);
    let mut rx_y = subscribe(&mut core, key(2), 10);
    core.observe_slot(1, &HashMap::new());
    drop(rx_x);
    core.handle_packet_batch(Some(one_batch(vec![packet(1, false), packet(3, false)])), &LookupTableCache::from_tables(vec![]))
        .unwrap();
    // Each sub-batch stopped at the closed subscriber, which comes first: y got nothing.
    assert_eq!(rx_y.try_recv().unwrap_err(), TryRecvError::Empty);
    assert_eq!(core.metrics.num_removed_connections, 2);
    assert_eq!(core.connected_validators(), vec![key(2)]);
    core.handle_packet_batch(Some(one_batch(vec![packet(5, false)])), &LookupTableCache::from_tables(vec![]))
        .unwrap();
    match rx_y.try_recv().unwrap() {
        SubscribeResponse::Batch { ts, batch } => {
            assert_eq!(batch.packets[0].data, vec![5]);
            assert!(ts.seconds > 0);
            assert!(ts.nanos >= 0 && ts.nanos < 1_000_000_000);
        }
        SubscribeResponse::Heartbeat { .. } => panic!("expected a batch"),
    }
    assert_eq!(core.senders.len(), 1);
}

#[test]
fn closed_channels_shut_the_loop_down() {
    let mut core = RelayerCore::new(100, 10_000, 0, Denylist::new(vec![]), 4, true);
    let tables = LookupTableCache::from_tables(vec![]);
    assert_eq!(core.handle_packet_batch(None, &tables), Err(RelayerError::Shutdown));
    assert_eq!(core.handle_subscription(None), Err(RelayerError::Shutdown));
}

#[test]
fn metrics_tick_samples_and_resets() {
    let mut core = RelayerCore::new(100, 10_000, 0, Denylist::new(vec![]), 2, true);
    let _rx = subscribe(&mut core, key(1), 50_000);
    core.observe_slot(7, &HashMap::new());
    core.handle_packet_batch(Some(one_batch(vec![packet(1, false), packet(3, false), packet(5, false)])), &LookupTableCache::from_tables(vec![]))
        .unwrap();
    core.metrics.update_max_len(3, 9);
    core.metrics.update_max_len(1, 12);
    core.metrics.record_processing(EventArm::DelayPacket, 17);
    let m = core.handle_metrics_tick(Some(250));
    assert_eq!(m.num_current_connections, 1);
    assert_eq!(m.packet_subscriptions_total_queued, 2);
    assert_eq!(m.metrics_latency_us, 250);
    assert_eq!(m.subscription_receiver_max_len, 3);
    assert_eq!(m.delay_packet_receiver_max_len, 12);
    assert_eq!(m.highest_slot, 7);
    assert_eq!(m.num_added_connections, 1);
    assert_eq!(m.packet_stats_per_validator.get(&key(1)).unwrap().num_packets_forwarded, 3);
    assert_eq!(core.metrics.num_added_connections, 0);
    assert_eq!(core.metrics.packet_stats_per_validator.len(), 0);
    assert_eq!(core.metrics.subscription_receiver_capacity, 100);
    assert_eq!(core.metrics.delay_packet_receiver_capacity, 10_000);
}

#[test]
fn queued_total_sums_used_slots() {
    assert_eq!(total_queued(&vec![50_000, 49_990, 0]), 50_010);
    assert_eq!(total_queued(&vec![]), 0);
    assert_eq!(total_queued(&vec![60_000]), 0);
}

#[test]
fn fresh_metrics_are_zero() {
    let m = RelayerMetrics::new(7, 8);
    assert_eq!(m.num_heartbeats, 0);
    assert_eq!(m.subscription_receiver_capacity, 7);
    assert_eq!(m.delay_packet_receiver_capacity, 8);
    assert_eq!(m.packet_stats_per_validator.len(), 0);
}

#[test]
fn per_validator_counters_saturate() {
    let mut m = RelayerMetrics::new(1, 1);
    m.increment_packets_forwarded(&key(1), u64::MAX - 1);
    m.increment_packets_forwarded(&key(1), 5);
    m.increment_packets_dropped(&key(1), 2);
    m.increment_packets_dropped(&key(2), 3);
    let s1 = m.packet_stats_per_validator.get(&key(1)).unwrap();
    assert_eq!(s1.num_packets_forwarded, u64::MAX);
    assert_eq!(s1.num_packets_dropped, 2);
    let s2 = m.packet_stats_per_validator.get(&key(2)).unwrap();
    assert_eq!(s2.num_packets_forwarded, 0);
    assert_eq!(s2.num_packets_dropped, 3);
}

#[test]
fn health_gate() {
    assert!(check_health(HealthState::Healthy).is_ok());
    let s = check_health(HealthState::Unhealthy).unwrap_err();
    assert_eq!(s.code, Code::Internal);
    assert_eq!(s.message, "relayer is unhealthy");
}

#[test]
fn subscriber_identity_is_required() {
    let s = admit_subscriber(HealthState::Healthy, None).unwrap_err();
    assert_eq!(s.message, "internal error fetching public key");
    assert_eq!(admit_subscriber(HealthState::Healthy, Some(key(5))).ok(), Some(key(5)));
    assert_eq!(subscription_refused().message, "internal error adding subscription");
    let st = Status::internal("x");
    assert_eq!(st.code, Code::Internal);
}

#[test]
fn tpu_ports_round_robin_with_offset() {
    let ip = "10.0.0.1".to_string();
    let tpu = vec![8000u16, 8010];
    let fwd = vec![9000u16];
    let c0 = tpu_configs(&ip, &tpu, &fwd, 0);
    let c1 = tpu_configs(&ip, &tpu, &fwd, 1);
    let c2 = tpu_configs(&ip, &tpu, &fwd, 2);
    assert_eq!(c0.tpu.port, 7994);
    assert_eq!(c1.tpu.port, 8004);
    assert_eq!(c2.tpu.port, 7994);
    assert_eq!(c1.tpu_forward.port, 8994);
    assert_eq!(c0.tpu.ip, "10.0.0.1");
    assert_eq!(c0.tpu_forward.ip, "10.0.0.1");
}

#[test]
fn forwards_pool_admits_only_staked() {
    let direct = quic_pool_limits(500, 2000, false);
    assert_eq!(direct.max_staked_connections, 2000);
    assert_eq!(direct.max_unstaked_connections, 500);
    let forwards = quic_pool_limits(500, 2000, true);
    assert_eq!(forwards.max_staked_connections, 2500);
    assert_eq!(forwards.max_unstaked_connections, 0);
    assert_eq!(quic_pool_limits(usize::MAX, 1, true).max_staked_connections, usize::MAX);
}

#[test]
fn tick_reports_the_heartbeats_it_offered() {
    let mut core = RelayerCore::new(100, 10_000, 0, Denylist::new(vec![]), 4, true);
    let mut rx = subscribe(&mut core, key(1), 1);
    let _ = core.handle_heartbeat_tick(HealthState::Healthy, Some(3));
    let _ = core.handle_heartbeat_tick(HealthState::Healthy, None);
    assert!(matches!(rx.try_recv().unwrap(), SubscribeResponse::Heartbeat { count: 0 }));
    assert_eq!(rx.try_recv().unwrap_err(), TryRecvError::Empty);
    assert_eq!(core.metrics.num_try_send_channel_full, 1);
    assert_eq!(core.metrics.num_heartbeats, 2);
    assert_eq!(core.metrics.max_heartbeat_tick_latency_us, 3);
    assert_eq!(core.connected_validators(), vec![key(1)]);
}
