use std::collections::HashMap;
use std::time::Instant;

use relayer::packet::PacketFlags;
use relayer::relayer::HealthState;
use relayer::rpc::{admit_subscriber, Code};
use relayer::{
    Denylist, LookupTableCache, Packet, Pubkey, RelayerCore, RelayerPacketBatches, SubscribeResponse,
    Subscription,
};
use tokio::sync::mpsc::{channel, error::TryRecvError, Receiver};

fn key(n: u8) -> Pubkey {
    Pubkey::new([n; 32])
}

fn packet(byte: u8) -> Packet {
    wire_packet(vec![byte, byte], 8001)
}

fn wire_packet(data: Vec<u8>, port: u16) -> Packet {
    Packet {
        data,
        addr: "192.168.1.7".to_string(),
        port,
        discard: false,
        flags: PacketFlags { forwarded: false, repair: false, simple_vote_tx: false, tracer_packet: false },
        sender_stake: 0,
    }
}

fn batch(packets: Vec<Packet>) -> RelayerPacketBatches {
    RelayerPacketBatches { stamp: Instant::now(), banking_packet_batch: vec![packets] }
}

fn subscribe(core: &mut RelayerCore, id: Pubkey, capacity: usize) -> Receiver<SubscribeResponse> {
    let (sender, receiver) = channel(capacity);
    core.handle_subscription(Some(Subscription::ValidatorPacketSubscription { pubkey: id, sender }))
        .unwrap();
    receiver
}

fn batch_data(msg: SubscribeResponse) -> Vec<Vec<u8>> {
    match msg {
        SubscribeResponse::Batch { batch, .. } => batch.packets.iter().map(|p| p.data.clone()).collect(),
        SubscribeResponse::Heartbeat { .. } => panic!("expected a batch"),
    }
}

fn no_tables() -> LookupTableCache {
    LookupTableCache::from_tables(vec![])
}

#[test]
fn single_subscriber_fan_out() {
    let mut core = RelayerCore::new(100, 10_000, 0, Denylist::new(vec![]), 2, true);
    let x = key(1);
    let mut rx = subscribe(&mut core, x, 100);
    core.observe_slot(1, &HashMap::new());
    let packets = vec![packet(1), packet(2), packet(3), packet(4)];
    core.handle_packet_batch(Some(batch(packets)), &no_tables()).unwrap();
    assert_eq!(batch_data(rx.try_recv().unwrap()), vec![vec![1, 1], vec![2, 2]]);
    assert_eq!(batch_data(rx.try_recv().unwrap()), vec![vec![3, 3], vec![4, 4]]);
    assert_eq!(rx.try_recv().unwrap_err(), TryRecvError::Empty);
    let stats = core.metrics.packet_stats_per_validator.get(&x).unwrap();
    assert_eq!(stats.num_packets_forwarded, 4);
    assert_eq!(stats.num_packets_dropped, 0);
}

#[test]
fn leader_windowing() {
    let mut core = RelayerCore::new(100, 10_000, 0, Denylist::new(vec![]), 4, false);
    let x = key(1);
    let y = key(2);
    let mut rx_x = subscribe(&mut core, x, 100);
    let mut rx_y = subscribe(&mut core, y, 100);
    let mut schedule = HashMap::new();
    schedule.insert(100u64, x);
    schedule.insert(200u64, y);

    core.observe_slot(100, &schedule);
    core.handle_packet_batch(Some(batch(vec![packet(7)])), &no_tables()).unwrap();
    assert_eq!(batch_data(rx_x.try_recv().unwrap()), vec![vec![7, 7]]);
    assert_eq!(rx_y.try_recv().unwrap_err(), TryRecvError::Empty);

    core.observe_slot(197, &schedule);
    core.handle_packet_batch(Some(batch(vec![packet(8)])), &no_tables()).unwrap();
    assert_eq!(batch_data(rx_y.try_recv().unwrap()), vec![vec![8, 8]]);
    assert_eq!(rx_x.try_recv().unwrap_err(), TryRecvError::Empty);
}

#[test]
fn slow_subscriber_isolation() {
    let mut core = RelayerCore::new(100, 10_000, 0, Denylist::new(vec![]), 1, true);
    let x = key(1);
    let y = key(2);
    let mut rx_x = subscribe(&mut core, x, 10);
    let _rx_y = subscribe(&mut core, y, 10);
    core.observe_slot(1, &HashMap::new());
    for i in 0..100u8 {
        core.handle_packet_batch(Some(batch(vec![packet(i)])), &no_tables()).unwrap();
        assert_eq!(batch_data(rx_x.try_recv().unwrap()), vec![vec![i, i]]);
    }
    let sx = core.metrics.packet_stats_per_validator.get(&x).unwrap();
    let sy = core.metrics.packet_stats_per_validator.get(&y).unwrap();
    assert_eq!(sx.num_packets_forwarded, 100);
    assert_eq!(sx.num_packets_dropped, 0);
    assert_eq!(sy.num_packets_forwarded, 10);
    assert_eq!(sy.num_packets_dropped, 90);
    assert_eq!(core.subscriptions.len(), 2);
    assert_eq!(core.senders.len(), 2);
}

#[test]
fn duplicate_subscribe_replaces() {
    let mut core = RelayerCore::new(100, 10_000, 0, Denylist::new(vec![]), 4, true);
    let x = key(1);
    let mut rx_a = subscribe(&mut core, x, 100);
    core.observe_slot(1, &HashMap::new());
    let mut rx_b = subscribe(&mut core, x, 100);
    assert_eq!(core.connected_validators(), vec![x]);
    assert_eq!(core.metrics.num_added_connections, 1);
    assert_eq!(rx_a.try_recv().unwrap_err(), TryRecvError::Disconnected);
    core.handle_packet_batch(Some(batch(vec![packet(5)])), &no_tables()).unwrap();
    assert_eq!(batch_data(rx_b.try_recv().unwrap()), vec![vec![5, 5]]);
}

#[test]
fn unhealthy_mass_drop() {
    let mut core = RelayerCore::new(100, 10_000, 0, Denylist::new(vec![]), 4, true);
    let mut receivers = vec![];
    for n in 1..=3u8 {
        receivers.push(subscribe(&mut core, key(n), 100));
    }
    core.observe_slot(1, &HashMap::new());
    core.handle_heartbeat_tick(HealthState::Unhealthy, None);
    for rx in receivers.iter_mut() {
        assert_eq!(rx.try_recv().unwrap_err(), TryRecvError::Disconnected);
    }
    assert_eq!(core.subscriptions.len(), 0);
    let refused = admit_subscriber(HealthState::Unhealthy, Some(key(4))).unwrap_err();
    assert_eq!(refused.code, Code::Internal);
    assert_eq!(refused.message, "relayer is unhealthy");
}

fn sol(n: u8) -> solana_sdk::pubkey::Pubkey {
    solana_sdk::pubkey::Pubkey::new_from_array([n; 32])
}

fn v0_transaction(
    keys: Vec<solana_sdk::pubkey::Pubkey>,
    lookups: Vec<solana_sdk::message::v0::MessageAddressTableLookup>,
) -> Vec<u8> {
    let message = solana_sdk::message::v0::Message {
        header: solana_sdk::message::MessageHeader {
            num_required_signatures: 1,
            num_readonly_signed_accounts: 0,
            num_readonly_unsigned_accounts: 0,
        },
        account_keys: keys,
        recent_blockhash: solana_sdk::hash::Hash::default(),
        instructions: vec![],
        address_table_lookups: lookups,
    };
    let tx = solana_sdk::transaction::VersionedTransaction {
        signatures: vec![solana_sdk::signature::Signature::default()],
        message: solana_sdk::message::VersionedMessage::V0(message),
    };
    bincode::serialize(&tx).unwrap()
}

#[test]
fn denylist_filters_lookup_table_expansion() {
    let denied = key(66);
    let table = key(50);
    let tables = LookupTableCache::from_tables(vec![(table, vec![key(40), denied])]);
    let mut core = RelayerCore::new(100, 10_000, 0, Denylist::new(vec![denied]), 8, true);
    let x = key(1);
    let mut rx = subscribe(&mut core, x, 100);
    core.observe_slot(1, &HashMap::new());

    let blocked = v0_transaction(
        vec![sol(10)],
        vec![solana_sdk::message::v0::MessageAddressTableLookup {
            account_key: sol(50),
            writable_indexes: vec![],
            readonly_indexes: vec![1],
        }],
    );
    let clean = v0_transaction(
        vec![sol(11)],
        vec![solana_sdk::message::v0::MessageAddressTableLookup {
            account_key: sol(50),
            writable_indexes: vec![0],
            readonly_indexes: vec![],
        }],
    );
    let packets = vec![
        wire_packet(blocked, 1),
        wire_packet(clean.clone(), 2),
    ];
    core.handle_packet_batch(Some(batch(packets)), &tables).unwrap();
    assert_eq!(batch_data(rx.try_recv().unwrap()), vec![clean]);
    assert_eq!(rx.try_recv().unwrap_err(), TryRecvError::Empty);
}

#[test]
fn one_subscriber_per_identity() {
    let mut core = RelayerCore::new(100, 10_000, 0, Denylist::new(vec![]), 4, true);
    let _a = subscribe(&mut core, key(1), 10);
    let _b = subscribe(&mut core, key(2), 10);
    let _c = subscribe(&mut core, key(1), 10);
    assert_eq!(core.subscriptions.len(), 2);
    assert_eq!(core.metrics.num_added_connections, 2);
    let mut ids = core.connected_validators();
    ids.sort_by_key(|k| k.to_bytes());
    assert_eq!(ids, vec![key(1), key(2)]);
}
