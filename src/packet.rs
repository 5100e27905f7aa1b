use vstd::prelude::*;

verus! {

/// The per-packet flags that travel with a packet.
#[derive(Clone, Copy, Debug, PartialEq, Eq, Structural)]
pub struct PacketFlags {
    /// The packet came in through the forwards pool.
    pub forwarded: bool,
    pub repair: bool,
    pub simple_vote_tx: bool,
    pub tracer_packet: bool,
}

/// A packet as it leaves signature verification.
#[derive(Debug)]
pub struct Packet {
    pub data: Vec<u8>,
    /// The sender's address, in text form.
    pub addr: String,
    pub port: u16,
    /// Set by signature verification on a packet that failed it.
    pub discard: bool,
    pub flags: PacketFlags,
    /// The stake of the sending node.
    pub sender_stake: u64,
}

/// What a subscriber sees of one packet: its bytes and its metadata.
#[derive(Debug)]
pub struct WirePacket {
    pub data: Vec<u8>,
    pub addr: String,
    pub port: u16,
    pub flags: PacketFlags,
    pub sender_stake: u64,
}

pub ghost struct WirePacketView {
    pub data: Seq<u8>,
    pub addr: Seq<char>,
    pub port: u16,
    pub flags: PacketFlags,
    pub sender_stake: u64,
}

impl View for WirePacket {
    type V = WirePacketView;

    open spec fn view(&self) -> WirePacketView {
        WirePacketView {
            data: self.data@,
            addr: self.addr@,
            port: self.port,
            flags: self.flags,
            sender_stake: self.sender_stake,
        }
    }
}

/// The wire form of a packet that is to be forwarded.
pub open spec fn wire_view(p: Packet) -> WirePacketView {
    WirePacketView { data: p.data@, addr: p.addr@, port: p.port, flags: p.flags, sender_stake: p.sender_stake }
}

impl Packet {
    pub fn to_wire(&self) -> (r: WirePacket)
        ensures
            r@ == wire_view(*self),
    {
        WirePacket {
            data: self.data.clone(),
            addr: self.addr.clone(),
            port: self.port,
            flags: self.flags,
            sender_stake: self.sender_stake,
        }
    }
}

impl WirePacket {
    pub fn duplicate(&self) -> (r: WirePacket)
        ensures
            r@ == self@,
    {
        WirePacket {
            data: self.data.clone(),
            addr: self.addr.clone(),
            port: self.port,
            flags: self.flags,
            sender_stake: self.sender_stake,
        }
    }
}

/// One sub-batch of packets as sent to a subscriber.
#[derive(Debug)]
pub struct WireBatch {
    pub packets: Vec<WirePacket>,
}

impl View for WireBatch {
    type V = Seq<WirePacketView>;

    open spec fn view(&self) -> Seq<WirePacketView> {
        self.packets@.map_values(|p: WirePacket| p@)
    }
}

impl WireBatch {
    pub fn duplicate(&self) -> (r: WireBatch)
        ensures
            r@ == self@,
    {
        let mut packets: Vec<WirePacket> = Vec::new();
        let mut i: usize = 0;
        while i < self.packets.len()
            invariant
                i <= self.packets.len(),
                packets@.len() == i,
                forall|j: int| 0 <= j < i ==> (#[trigger] packets@[j])@ == self.packets@[j]@,
            decreases self.packets.len() - i,
        {
            packets.push(self.packets[i].duplicate());
            i = i + 1;
        }
        let r = WireBatch { packets };
        assert(r@ =~= self@);
        r
    }

    pub fn len(&self) -> (r: usize)
        ensures
            r == self@.len(),
    {
        self.packets.len()
    }
}

/// Seconds and nanoseconds since the Unix epoch.
#[derive(Clone, Copy, Debug, PartialEq, Eq, Structural)]
pub struct Timestamp {
    pub seconds: i64,
    pub nanos: i32,
}

/// A message on a subscriber's stream.
#[derive(Debug)]
pub enum SubscribeResponse {
    /// A sub-batch of packets, stamped with the time it was sent.
    Batch { ts: Timestamp, batch: WireBatch },
    /// A keep-alive carrying the relayer's heartbeat counter.
    Heartbeat { count: u64 },
}

/// Relies on prost-types' `From<SystemTime> for Timestamp`, applied to the system clock:
/// the nanoseconds are normalized into one second.
#[verifier::external_body]
pub(crate) fn timestamp_now() -> (r: Timestamp)
    ensures
        0 <= r.nanos < 1_000_000_000,
{
    let ts = prost_types::Timestamp::from(std::time::SystemTime::now());
    Timestamp { seconds: ts.seconds, nanos: ts.nanos }
}

#[verifier::external_type_specification]
#[verifier::external_body]
pub struct ExInstant(std::time::Instant);

/// A batch of verified packets, stamped when it was handed to the relayer.
pub struct RelayerPacketBatches {
    pub stamp: std::time::Instant,
    pub banking_packet_batch: Vec<Vec<Packet>>,
}

/// Relies on `Instant::elapsed`: the microseconds since `stamp` on the monotonic clock.
#[verifier::external_body]
pub(crate) fn micros_since(stamp: &std::time::Instant) -> (r: u64) {
    stamp.elapsed().as_micros() as u64
}

} // verus!
