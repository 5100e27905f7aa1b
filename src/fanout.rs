use vstd::prelude::*;

use bincode::Options;

use crate::denylist::{
    is_tx_denied, lookup_tables, tx_denied, Denylist, LookupTableCache, TableLookup, TxAccounts,
};
use crate::metrics::{sat_add, with_dropped, with_forwarded, PacketForwardStats, ValidatorStats};
use crate::packet::{
    timestamp_now, wire_view, Packet, SubscribeResponse, Timestamp, WireBatch, WirePacket,
    WirePacketView,
};
use crate::pubkey::Pubkey;
use crate::sink::{try_send, SendOutcome, Sink};

verus! {

/// What the packet bytes decode to as a versioned transaction, if they do.
pub uninterp spec fn decoded_transaction(data: Seq<u8>) -> Option<TxAccounts>;

/// Relies on bincode, with the options of solana-sdk's `Packet::deserialize_slice`, to
/// decode a `VersionedTransaction`; the accounts are read off its message.
#[verifier::external_body]
fn decode_transaction(data: &Vec<u8>) -> (r: Option<TxAccounts>)
    ensures
        r == decoded_transaction(data@),
{
    let tx: solana_sdk::transaction::VersionedTransaction = bincode::options()
        .with_limit(solana_sdk::packet::PACKET_DATA_SIZE as u64)
        .with_fixint_encoding()
        .reject_trailing_bytes()
        .deserialize(data)
        .ok()?;
    let static_keys = tx.message.static_account_keys().iter().map(|k| Pubkey { bytes: k.to_bytes() }).collect();
    let lookups = tx.message.address_table_lookups().unwrap_or(&[]).iter().map(|l| TableLookup {
        account_key: Pubkey { bytes: l.account_key.to_bytes() },
        writable_indexes: l.writable_indexes.clone(),
        readonly_indexes: l.readonly_indexes.clone(),
    }).collect();
    Some(TxAccounts { static_keys, lookups })
}

/// A packet goes out: signature verification kept it, and either nothing is blocked or
/// it decodes to a transaction that names no blocked account.
pub open spec fn packet_passes(p: Packet, deny: Set<Pubkey>, tables: Map<Pubkey, Seq<Pubkey>>) -> bool {
    &&& !p.discard
    &&& deny == Set::<Pubkey>::empty() || match decoded_transaction(p.data@) {
        Some(tx) => !tx_denied(tx, deny, tables),
        None => false,
    }
}

/// The wire forms of the packets of `ps` that go out, in order.
pub open spec fn projected(ps: Seq<Packet>, deny: Set<Pubkey>, tables: Map<Pubkey, Seq<Pubkey>>) -> Seq<
    WirePacketView,
>
    decreases ps.len(),
{
    if ps.len() == 0 {
        seq![]
    } else {
        let rest = projected(ps.drop_last(), deny, tables);
        if packet_passes(ps.last(), deny, tables) {
            rest.push(wire_view(ps.last()))
        } else {
            rest
        }
    }
}

/// The wire forms of the packets of all of `bs` that go out, batch after batch.
pub open spec fn projected_batches(
    bs: Seq<Vec<Packet>>,
    deny: Set<Pubkey>,
    tables: Map<Pubkey, Seq<Pubkey>>,
) -> Seq<WirePacketView>
    decreases bs.len(),
{
    if bs.len() == 0 {
        seq![]
    } else {
        projected_batches(bs.drop_last(), deny, tables) + projected(bs.last()@, deny, tables)
    }
}

pub open spec fn wire_views(ps: Seq<WirePacket>) -> Seq<WirePacketView> {
    ps.map_values(|p: WirePacket| p@)
}

pub open spec fn batch_views(bs: Seq<WireBatch>) -> Seq<Seq<WirePacketView>> {
    bs.map_values(|b: WireBatch| b@)
}

/// Whether packet `p` goes out.
pub fn packet_allowed(p: &Packet, deny: &Denylist, tables: &LookupTableCache) -> (r: bool)
    ensures
        r == packet_passes(*p, deny@, lookup_tables(*tables)),
{
    if p.discard {
        return false;
    }
    if deny.is_empty() {
        return true;
    }
    match decode_transaction(&p.data) {
        Some(tx) => !is_tx_denied(&tx, deny, tables),
        None => false,
    }
}

/// Drops discarded and blocked packets and turns the rest into their wire form, keeping
/// their order.
pub fn project_packets(
    batches: &Vec<Vec<Packet>>,
    deny: &Denylist,
    tables: &LookupTableCache,
) -> (r: Vec<WirePacket>)
    ensures
        wire_views(r@) == projected_batches(batches@, deny@, lookup_tables(*tables)),
{
    let ghost t = lookup_tables(*tables);
    let mut r: Vec<WirePacket> = Vec::new();
    let mut i: usize = 0;
    assert(batches@.take(0) =~= Seq::<Vec<Packet>>::empty());
    while i < batches.len()
        invariant
            i <= batches@.len(),
            t == lookup_tables(*tables),
            wire_views(r@) == projected_batches(batches@.take(i as int), deny@, t),
        decreases batches.len() - i,
    {
        let batch = &batches[i];
        let ghost before = wire_views(r@);
        let mut j: usize = 0;
        assert(batch@.take(0) =~= Seq::<Packet>::empty());
        assert(wire_views(r@) =~= before + projected(batch@.take(0), deny@, t));
        while j < batch.len()
            invariant
                j <= batch@.len(),
                t == lookup_tables(*tables),
                wire_views(r@) == before + projected(batch@.take(j as int), deny@, t),
            decreases batch.len() - j,
        {
            let p = &batch[j];
            assert(batch@.take(j + 1).drop_last() =~= batch@.take(j as int));
            assert(batch@.take(j + 1).last() == *p);
            let ghost r0 = r@;
            if packet_allowed(p, deny, tables) {
                let w = p.to_wire();
                r.push(w);
                assert(wire_views(r@) =~= wire_views(r0).push(w@));
                assert(wire_views(r@) =~= before + projected(batch@.take(j + 1), deny@, t));
            } else {
                assert(wire_views(r@) =~= before + projected(batch@.take(j + 1), deny@, t));
            }
            j = j + 1;
        }
        assert(batch@.take(j as int) =~= batch@);
        assert(batches@.take(i + 1).drop_last() =~= batches@.take(i as int));
        i = i + 1;
    }
    assert(batches@.take(i as int) =~= batches@);
    r
}

/// `s` cut into consecutive pieces of `size` items, the last one possibly shorter.
pub open spec fn chunks<A>(s: Seq<A>, size: nat) -> Seq<Seq<A>>
    decreases s.len(),
{
    if s.len() == 0 || size == 0 {
        seq![]
    } else if s.len() <= size {
        seq![s]
    } else {
        seq![s.take(size as int)] + chunks(s.skip(size as int), size)
    }
}

/// Cuts the packets into sub-batches of `size`; the last may be smaller, none is empty.
pub fn chunk_packets(packets: Vec<WirePacket>, size: usize) -> (r: Vec<WireBatch>)
    requires
        size > 0,
    ensures
        batch_views(r@) == chunks(wire_views(packets@), size as nat),
{
    let ghost all = wire_views(packets@);
    let mut rest = packets;
    let mut r: Vec<WireBatch> = Vec::new();
    assert(batch_views(r@) + chunks(wire_views(rest@), size as nat) =~= chunks(all, size as nat));
    while rest.len() > 0
        invariant
            size > 0,
            batch_views(r@) + chunks(wire_views(rest@), size as nat) == chunks(all, size as nat),
        decreases rest.len(),
    {
        let ghost rv = wire_views(rest@);
        let at: usize = if rest.len() < size { rest.len() } else { size };
        let tail = rest.split_off(at);
        proof {
            if rv.len() <= size {
                assert(wire_views(rest@) =~= rv);
                assert(wire_views(tail@) =~= Seq::<WirePacketView>::empty());
            } else {
                assert(wire_views(rest@) =~= rv.take(size as int));
                assert(wire_views(tail@) =~= rv.skip(size as int));
            }
        }
        let ghost r0 = batch_views(r@);
        r.push(WireBatch { packets: rest });
        assert(batch_views(r@) =~= r0.push(wire_views(rest@)));
        rest = tail;
        proof {
            if rv.len() <= size {
                assert(rv.take(at as int) =~= rv);
                assert(chunks(wire_views(rest@), size as nat) =~= Seq::<Seq<WirePacketView>>::empty());
                assert(chunks(rv, size as nat) =~= seq![rv.take(at as int)] + chunks(
                    wire_views(rest@),
                    size as nat,
                ));
            } else {
                assert(chunks(rv, size as nat) =~= seq![rv.take(at as int)] + chunks(
                    wire_views(rest@),
                    size as nat,
                ));
            }
        }
        assert(batch_views(r@) + chunks(wire_views(rest@), size as nat) =~= r0 + chunks(rv, size as nat));
    }
    assert(chunks(wire_views(rest@), size as nat) =~= Seq::<Seq<WirePacketView>>::empty());
    assert(batch_views(r@) =~= chunks(all, size as nat));
    r
}

/// Cutting into chunks loses, adds and reorders nothing, and each piece holds between
/// one and `size` items.
pub proof fn lemma_chunks_partition<A>(s: Seq<A>, size: nat)
    requires
        size > 0,
    ensures
        chunks(s, size).flatten() == s,
        forall|i: int|
            0 <= i < chunks(s, size).len() ==> 0 < (#[trigger] chunks(s, size)[i]).len() <= size,
    decreases s.len(),
{
    if s.len() == 0 {
    } else if s.len() <= size {
        let c = chunks(s, size);
        assert(c =~= seq![s]);
        assert(c.drop_first() =~= Seq::<Seq<A>>::empty());
        assert(c.drop_first().flatten() =~= Seq::<A>::empty());
        assert(c.flatten() =~= s + Seq::<A>::empty());
    } else {
        let rest = s.skip(size as int);
        lemma_chunks_partition(rest, size);
        assert(chunks(s, size).drop_first() =~= chunks(rest, size));
        assert(chunks(s, size).flatten() =~= s.take(size as int) + rest);
        assert forall|i: int| 0 <= i < chunks(s, size).len() implies 0 < (
        #[trigger] chunks(s, size)[i]).len() <= size by {
            if i > 0 {
                assert(chunks(s, size)[i] == chunks(rest, size)[i - 1]);
            }
        }
    }
}

/// One try to hand a sub-batch to a subscriber: the identity and sink tried, the
/// message offered (a batch header stamped `ts` and the packets), and how it ended.
pub ghost struct Attempt {
    pub to: Pubkey,
    pub sink: Sink,
    pub ts: Timestamp,
    pub packets: Seq<WirePacketView>,
    pub outcome: SendOutcome,
}

/// The tries made with one sub-batch: the targets in order, each on its own sink and
/// each offered `chunk` under the one timestamp taken for the pass; the pass ends early
/// only right after a target whose stream was closed. An empty sub-batch goes nowhere.
pub open spec fn pass_ok(chunk: Seq<WirePacketView>, targets: Seq<(Pubkey, Sink)>, pass: Seq<Attempt>) -> bool {
    if chunk.len() == 0 {
        pass.len() == 0
    } else {
        &&& pass.len() <= targets.len()
        &&& forall|j: int|
            0 <= j < pass.len() ==> (#[trigger] pass[j]).to == targets[j].0 && pass[j].sink == targets[j].1
                && pass[j].packets == chunk && pass[j].ts == pass[0].ts
        &&& forall|j: int| 0 <= j < pass.len() - 1 ==> (#[trigger] pass[j]).outcome != SendOutcome::Closed
        &&& pass.len() < targets.len() ==> pass.len() > 0 && pass.last().outcome == SendOutcome::Closed
    }
}

/// All tries of all passes, in order.
pub open spec fn joined(passes: Seq<Seq<Attempt>>) -> Seq<Attempt>
    decreases passes.len(),
{
    if passes.len() == 0 {
        seq![]
    } else {
        joined(passes.drop_last()) + passes.last()
    }
}

/// The targets found closed: the last target of each pass that ended on a closed stream.
pub open spec fn closed_targets(passes: Seq<Seq<Attempt>>) -> Seq<Pubkey>
    decreases passes.len(),
{
    if passes.len() == 0 {
        seq![]
    } else {
        let p = passes.last();
        closed_targets(passes.drop_last()) + if p.len() > 0 && p.last().outcome == SendOutcome::Closed {
            seq![p.last().to]
        } else {
            seq![]
        }
    }
}

/// The counters after one try: a sent sub-batch counts as forwarded, one that found the
/// queue full as dropped.
pub open spec fn after_attempt(m: Map<Pubkey, PacketForwardStats>, a: Attempt) -> Map<Pubkey, PacketForwardStats> {
    match a.outcome {
        SendOutcome::Sent => with_forwarded(m, a.to, a.packets.len() as u64),
        SendOutcome::Full => with_dropped(m, a.to, a.packets.len() as u64),
        SendOutcome::Closed => m,
    }
}

pub open spec fn after_attempts(m: Map<Pubkey, PacketForwardStats>, s: Seq<Attempt>) -> Map<
    Pubkey,
    PacketForwardStats,
>
    decreases s.len(),
{
    if s.len() == 0 {
        m
    } else {
        after_attempt(after_attempts(m, s.drop_last()), s.last())
    }
}

/// Offers each sub-batch, stamped with the time of its pass, to the targets in order
/// without waiting. A full queue drops the sub-batch for that target; a closed one ends
/// the pass and its target is returned. The ghost result records every try.
pub fn send_batches(
    batches: &Vec<WireBatch>,
    targets: &Vec<(Pubkey, Sink)>,
    stats: &mut ValidatorStats,
) -> (r: (Vec<Pubkey>, Ghost<Seq<Seq<Attempt>>>))
    requires
        old(stats).wf(),
    ensures
        final(stats).wf(),
        r.1@.len() == batches@.len(),
        forall|i: int| 0 <= i < batches@.len() ==> pass_ok(batches@[i]@, targets@, #[trigger] r.1@[i]),
        r.0@ == closed_targets(r.1@),
        final(stats)@ == after_attempts(old(stats)@, joined(r.1@)),
{
    let mut failed: Vec<Pubkey> = Vec::new();
    let ghost mut log: Seq<Seq<Attempt>> = Seq::empty();
    let mut i: usize = 0;
    while i < batches.len()
        invariant
            i <= batches@.len(),
            stats.wf(),
            log.len() == i,
            forall|x: int| 0 <= x < i ==> pass_ok(batches@[x]@, targets@, #[trigger] log[x]),
            failed@ == closed_targets(log),
            stats@ == after_attempts(old(stats)@, joined(log)),
        decreases batches.len() - i,
    {
        let batch = &batches[i];
        let ghost mut pass: Seq<Attempt> = Seq::empty();
        let ghost failed0 = failed@;
        assert(joined(log) + pass =~= joined(log));
        if batch.len() > 0 {
            let ts = timestamp_now();
            let n = batch.len() as u64;
            let mut k: usize = 0;
            let mut stop = false;
            while k < targets.len() && !stop
                invariant
                    stats.wf(),
                    k <= targets@.len(),
                    n == batch@.len(),
                    pass.len() == k,
                    forall|j: int|
                        0 <= j < k ==> (#[trigger] pass[j]).to == targets@[j].0 && pass[j].sink == targets@[j].1
                            && pass[j].packets == batch@ && pass[j].ts == ts,
                    forall|j: int| 0 <= j < k - 1 ==> (#[trigger] pass[j]).outcome != SendOutcome::Closed,
                    stop == (k > 0 && pass.last().outcome == SendOutcome::Closed),
                    failed@ == failed0 + if stop { seq![pass.last().to] } else { Seq::<Pubkey>::empty() },
                    stats@ == after_attempts(old(stats)@, joined(log) + pass),
                decreases targets.len() - k,
            {
                let target = &targets[k];
                let outcome = try_send(&target.1, SubscribeResponse::Batch { ts, batch: batch.duplicate() });
                let ghost a = Attempt { to: target.0, sink: target.1, ts, packets: batch@, outcome };
                let ghost before = joined(log) + pass;
                proof {
                    pass = pass.push(a);
                    assert((joined(log) + pass).drop_last() =~= before);
                }
                match outcome {
                    SendOutcome::Sent => stats.increment_packets_forwarded(&target.0, n),
                    SendOutcome::Full => stats.increment_packets_dropped(&target.0, n),
                    SendOutcome::Closed => {
                        failed.push(target.0);
                        stop = true;
                    },
                }
                k = k + 1;
            }
        }
        proof {
            let log0 = log;
            log = log.push(pass);
            assert(log.drop_last() =~= log0);
            assert(joined(log) =~= joined(log0) + pass);
        }
        i = i + 1;
    }
    (failed, Ghost(log))
}

/// Each packet that the projection of `ps` holds is the wire form of a packet of `ps`
/// that passes.
proof fn lemma_projected_passes(ps: Seq<Packet>, deny: Set<Pubkey>, tables: Map<Pubkey, Seq<Pubkey>>)
    ensures
        forall|x: WirePacketView|
            #[trigger] projected(ps, deny, tables).contains(x) ==> exists|p: Packet|
                ps.contains(p) && packet_passes(p, deny, tables) && wire_view(p) == x,
    decreases ps.len(),
{
    if ps.len() > 0 {
        let t = ps.drop_last();
        lemma_projected_passes(t, deny, tables);
        assert forall|x: WirePacketView| #[trigger] projected(ps, deny, tables).contains(x) implies exists|p: Packet|
            ps.contains(p) && packet_passes(p, deny, tables) && wire_view(p) == x by {
            let rest = projected(t, deny, tables);
            if rest.contains(x) {
                let p = choose|p: Packet| t.contains(p) && packet_passes(p, deny, tables) && wire_view(p) == x;
                let k = choose|k: int| 0 <= k < t.len() && t[k] == p;
                assert(ps[k] == p);
            } else {
                assert(ps.contains(ps.last()));
            }
        }
    }
}

/// Each packet that the projection of `bs` holds is the wire form of a packet of one of
/// the batches that passes.
proof fn lemma_projected_batches_pass(bs: Seq<Vec<Packet>>, deny: Set<Pubkey>, tables: Map<Pubkey, Seq<Pubkey>>)
    ensures
        forall|x: WirePacketView|
            #[trigger] projected_batches(bs, deny, tables).contains(x) ==> exists|i: int, p: Packet|
                0 <= i < bs.len() && bs[i]@.contains(p) && packet_passes(p, deny, tables) && wire_view(p) == x,
    decreases bs.len(),
{
    if bs.len() > 0 {
        let t = bs.drop_last();
        lemma_projected_batches_pass(t, deny, tables);
        lemma_projected_passes(bs.last()@, deny, tables);
        assert forall|x: WirePacketView| #[trigger] projected_batches(bs, deny, tables).contains(x) implies exists|
            i: int,
            p: Packet,
        | 0 <= i < bs.len() && bs[i]@.contains(p) && packet_passes(p, deny, tables) && wire_view(p) == x by {
            let a = projected_batches(t, deny, tables);
            let b = projected(bs.last()@, deny, tables);
            let k = choose|k: int| 0 <= k < a.len() + b.len() && (a + b)[k] == x;
            if k < a.len() {
                assert(a.contains(x));
                let (i, p) = choose|i: int, p: Packet|
                    0 <= i < t.len() && t[i]@.contains(p) && packet_passes(p, deny, tables) && wire_view(p) == x;
                assert(bs[i] == t[i]);
            } else {
                assert(b[k - a.len()] == x);
                assert(b.contains(x));
            }
        }
    }
}

/// What a piece of `ss` holds, the flattening holds.
proof fn lemma_in_flatten<A>(ss: Seq<Seq<A>>, i: int, x: A)
    requires
        0 <= i < ss.len(),
        ss[i].contains(x),
    ensures
        ss.flatten().contains(x),
    decreases ss.len(),
{
    let k = choose|k: int| 0 <= k < ss[i].len() && ss[i][k] == x;
    if i == 0 {
        assert((ss.first() + ss.drop_first().flatten())[k] == x);
    } else {
        lemma_in_flatten(ss.drop_first(), i - 1, x);
        let f = ss.drop_first().flatten();
        let m = choose|m: int| 0 <= m < f.len() && f[m] == x;
        assert((ss.first() + f)[ss.first().len() + m] == x);
    }
}

/// No subscriber is sent a packet whose transaction names a blocked account, directly
/// or through a known lookup table: every packet in a fan-out of a batch is the wire
/// form of a packet of that batch that passes the filter.
pub proof fn lemma_blocked_packets_never_sent(
    log: Seq<Seq<Attempt>>,
    batches: Seq<Vec<Packet>>,
    deny: Set<Pubkey>,
    tables: Map<Pubkey, Seq<Pubkey>>,
    size: nat,
    targets: Seq<(Pubkey, Sink)>,
    i: int,
    j: int,
    x: WirePacketView,
)
    requires
        size > 0,
        log.len() == chunks(projected_batches(batches, deny, tables), size).len(),
        forall|n: int|
            0 <= n < log.len() ==> pass_ok(chunks(projected_batches(batches, deny, tables), size)[n], targets, #[trigger] log[n]),
        0 <= i < log.len(),
        0 <= j < log[i].len(),
        log[i][j].packets.contains(x),
    ensures
        exists|b: int, p: Packet|
            0 <= b < batches.len() && batches[b]@.contains(p) && !p.discard && wire_view(p) == x,
        deny != Set::<Pubkey>::empty() ==> match decoded_transaction(x.data) {
            Some(tx) => !tx_denied(tx, deny, tables),
            None => false,
        },
{
    let proj = projected_batches(batches, deny, tables);
    let cs = chunks(proj, size);
    assert(pass_ok(cs[i], targets, log[i]));
    assert(log[i][j].packets == cs[i]);
    lemma_chunks_partition(proj, size);
    lemma_in_flatten(cs, i, x);
    lemma_projected_batches_pass(batches, deny, tables);
    let (b, p) = choose|b: int, p: Packet|
        0 <= b < batches.len() && batches[b]@.contains(p) && packet_passes(p, deny, tables) && wire_view(p) == x;
    assert(p.data@ == x.data);
}

/// A subscriber that no try found closed is not among the closed targets of a
/// fan-out: a full queue drops the sub-batch and keeps the subscriber.
pub proof fn lemma_full_queue_keeps_subscriber(log: Seq<Seq<Attempt>>, key: Pubkey)
    requires
        forall|i: int, j: int|
            0 <= i < log.len() && 0 <= j < log[i].len() && (#[trigger] log[i][j]).to == key ==> log[i][j].outcome
                != SendOutcome::Closed,
    ensures
        !closed_targets(log).contains(key),
    decreases log.len(),
{
    if log.len() > 0 {
        let t = log.drop_last();
        assert forall|i: int, j: int|
            0 <= i < t.len() && 0 <= j < t[i].len() && (#[trigger] t[i][j]).to == key implies t[i][j].outcome
                != SendOutcome::Closed by {
            assert(t[i] == log[i]);
        }
        lemma_full_queue_keeps_subscriber(t, key);
        let p = log.last();
        if p.len() > 0 && p.last().outcome == SendOutcome::Closed {
            assert(log[log.len() - 1][p.len() - 1] == p.last());
        }
    }
}

/// In a pass, a try that did not find the stream closed is followed by a try to the
/// next target: one slow subscriber does not hold back the others.
pub proof fn lemma_pass_goes_on(chunk: Seq<WirePacketView>, targets: Seq<(Pubkey, Sink)>, pass: Seq<Attempt>, j: int)
    requires
        pass_ok(chunk, targets, pass),
        0 <= j < pass.len(),
        pass[j].outcome != SendOutcome::Closed,
        j + 1 < targets.len(),
    ensures
        j + 1 < pass.len(),
        pass[j + 1].to == targets[j + 1].0,
{
}

/// A pass that found no stream closed reached every target, each once.
pub proof fn lemma_pass_reaches_all(chunk: Seq<WirePacketView>, targets: Seq<(Pubkey, Sink)>, pass: Seq<Attempt>)
    requires
        pass_ok(chunk, targets, pass),
        chunk.len() > 0,
        forall|j: int| 0 <= j < pass.len() ==> (#[trigger] pass[j]).outcome != SendOutcome::Closed,
    ensures
        pass.len() == targets.len(),
        forall|j: int| 0 <= j < pass.len() ==> (#[trigger] pass[j]).to == targets[j].0 && pass[j].packets == chunk,
{
    if pass.len() < targets.len() {
        assert(pass[pass.len() - 1].outcome != SendOutcome::Closed);
    }
}

/// The packets offered to the `j`-th target over the passes of `log`, in order.
pub open spec fn offered_to(log: Seq<Seq<Attempt>>, j: int) -> Seq<WirePacketView>
    decreases log.len(),
{
    if log.len() == 0 {
        seq![]
    } else {
        offered_to(log.drop_last(), j) + log.last()[j].packets
    }
}

proof fn lemma_offered_to(log: Seq<Seq<Attempt>>, cs: Seq<Seq<WirePacketView>>, j: int)
    requires
        log.len() == cs.len(),
        forall|i: int| 0 <= i < log.len() ==> j < (#[trigger] log[i]).len() && log[i][j].packets == cs[i],
    ensures
        offered_to(log, j) == cs.flatten_alt(),
    decreases log.len(),
{
    if log.len() > 0 {
        let (l0, c0) = (log.drop_last(), cs.drop_last());
        assert forall|i: int| 0 <= i < l0.len() implies j < (#[trigger] l0[i]).len() && l0[i][j].packets == c0[i] by {
            assert(l0[i] == log[i]);
        }
        lemma_offered_to(l0, c0, j);
        assert(log.last() == log[log.len() - 1]);
    }
}

/// A fan-out of one batch in which no stream was found closed drops nobody, offers
/// every sub-batch to every target in order, and so offers each target exactly the
/// packets of the batch that pass the filter, in their order. A slow subscriber whose
/// queue is full therefore holds back no other subscriber.
pub proof fn lemma_open_fanout_reaches_everyone(
    log: Seq<Seq<Attempt>>,
    batches: Seq<Vec<Packet>>,
    deny: Set<Pubkey>,
    tables: Map<Pubkey, Seq<Pubkey>>,
    size: nat,
    targets: Seq<(Pubkey, Sink)>,
)
    requires
        size > 0,
        log.len() == chunks(projected_batches(batches, deny, tables), size).len(),
        forall|n: int|
            0 <= n < log.len() ==> pass_ok(chunks(projected_batches(batches, deny, tables), size)[n], targets, #[trigger] log[n]),
        forall|i: int, j: int|
            0 <= i < log.len() && 0 <= j < log[i].len() ==> (#[trigger] log[i][j]).outcome != SendOutcome::Closed,
    ensures
        closed_targets(log) == Seq::<Pubkey>::empty(),
        forall|i: int, j: int|
            0 <= i < log.len() && 0 <= j < targets.len() ==> j < log[i].len() && (#[trigger] log[i][j]).to
                == targets[j].0 && log[i][j].packets == chunks(projected_batches(batches, deny, tables), size)[i],
        forall|j: int|
            0 <= j < targets.len() ==> #[trigger] offered_to(log, j) == projected_batches(batches, deny, tables),
{
    let proj = projected_batches(batches, deny, tables);
    let cs = chunks(proj, size);
    lemma_chunks_partition(proj, size);
    assert forall|i: int| 0 <= i < log.len() implies (#[trigger] log[i]).len() == targets.len() && forall|j: int|
        0 <= j < targets.len() ==> log[i][j].to == targets[j].0 && log[i][j].packets == cs[i] by {
        assert(pass_ok(cs[i], targets, log[i]));
        assert(cs[i].len() > 0);
        assert forall|j: int| 0 <= j < log[i].len() implies (#[trigger] log[i][j]).outcome != SendOutcome::Closed by {}
        lemma_pass_reaches_all(cs[i], targets, log[i]);
    }
    lemma_no_closed_targets(log);
    assert forall|j: int| 0 <= j < targets.len() implies #[trigger] offered_to(log, j) == proj by {
        lemma_offered_to(log, cs, j);
        cs.lemma_flatten_and_flatten_alt_are_equivalent();
    }
}

proof fn lemma_no_closed_targets(log: Seq<Seq<Attempt>>)
    requires
        forall|i: int, j: int|
            0 <= i < log.len() && 0 <= j < log[i].len() ==> (#[trigger] log[i][j]).outcome != SendOutcome::Closed,
    ensures
        closed_targets(log) == Seq::<Pubkey>::empty(),
    decreases log.len(),
{
    if log.len() > 0 {
        let t = log.drop_last();
        assert forall|i: int, j: int| 0 <= i < t.len() && 0 <= j < t[i].len() implies (
        #[trigger] t[i][j]).outcome != SendOutcome::Closed by {
            assert(t[i] == log[i]);
        }
        lemma_no_closed_targets(t);
        let p = log.last();
        if p.len() > 0 {
            assert(log[log.len() - 1][p.len() - 1] == p.last());
        }
        assert(closed_targets(log) =~= Seq::<Pubkey>::empty());
    }
}

/// Counter `base` after the sizes of the full-queue tries to `key` in `s` were added.
pub open spec fn dropped_for(base: u64, s: Seq<Attempt>, key: Pubkey) -> u64
    decreases s.len(),
{
    if s.len() == 0 {
        base
    } else {
        let b = dropped_for(base, s.drop_last(), key);
        if s.last().to == key && s.last().outcome == SendOutcome::Full {
            sat_add(b, s.last().packets.len() as u64)
        } else {
            b
        }
    }
}

/// A subscriber whose queue stays full forwards nothing: its forwarded count keeps its
/// value, and each sub-batch it was offered adds its size to its dropped count.
pub proof fn lemma_full_queue_counts_drops(m: Map<Pubkey, PacketForwardStats>, s: Seq<Attempt>, key: Pubkey)
    requires
        forall|i: int| 0 <= i < s.len() && (#[trigger] s[i]).to == key ==> s[i].outcome == SendOutcome::Full,
    ensures
        after_attempts(m, s).contains_key(key) ==> {
            &&& after_attempts(m, s)[key].num_packets_forwarded == if m.contains_key(key) {
                m[key].num_packets_forwarded
            } else {
                0
            }
            &&& after_attempts(m, s)[key].num_packets_dropped == dropped_for(
                if m.contains_key(key) {
                    m[key].num_packets_dropped
                } else {
                    0
                },
                s,
                key,
            )
        },
        !after_attempts(m, s).contains_key(key) ==> !m.contains_key(key) && dropped_for(0, s, key) == 0,
    decreases s.len(),
{
    if s.len() > 0 {
        let t = s.drop_last();
        assert forall|i: int| 0 <= i < t.len() && (#[trigger] t[i]).to == key implies t[i].outcome == SendOutcome::Full by {
            assert(t[i] == s[i]);
        }
        lemma_full_queue_counts_drops(m, t, key);
        assert(s.last() == s[s.len() - 1]);
    }
}

} // verus!
