use vstd::prelude::*;

use crate::pubkey::Pubkey;
use crate::relayer::HealthState;

verus! {

/// The status codes that the relayer's RPC methods answer with.
#[derive(Clone, Copy, Debug, PartialEq, Eq, Structural)]
pub enum Code {
    Internal,
}

/// An RPC error status: a code and a message for the caller.
#[derive(Debug)]
pub struct Status {
    pub code: Code,
    pub message: String,
}

impl Status {
    pub fn internal(message: &str) -> (r: Status)
        ensures
            r.code == Code::Internal,
            r.message@ == message@,
    {
        Status { code: Code::Internal, message: message.to_owned() }
    }
}

/// Turns validators away while the relayer is unhealthy.
pub fn check_health(health_state: HealthState) -> (r: Result<(), Status>)
    ensures
        r.is_ok() == (health_state == HealthState::Healthy),
        r matches Err(s) ==> s.code == Code::Internal && s.message@ == "relayer is unhealthy"@,
{
    if health_state != HealthState::Healthy {
        Err(Status::internal("relayer is unhealthy"))
    } else {
        Ok(())
    }
}

/// The identity under which a packet subscription is admitted: the caller's
/// authenticated identity, if the relayer is healthy and the identity is known.
pub fn admit_subscriber(health_state: HealthState, caller: Option<Pubkey>) -> (r: Result<Pubkey, Status>)
    ensures
        health_state != HealthState::Healthy ==> (r matches Err(s) && s.code == Code::Internal
            && s.message@ == "relayer is unhealthy"@),
        health_state == HealthState::Healthy && caller.is_none() ==> (r matches Err(s) && s.code
            == Code::Internal && s.message@ == "internal error fetching public key"@),
        health_state == HealthState::Healthy && caller.is_some() ==> r == Ok::<Pubkey, Status>(
            caller.unwrap(),
        ),
{
    match check_health(health_state) {
        Err(status) => Err(status),
        Ok(()) => match caller {
            Some(pubkey) => Ok(pubkey),
            None => Err(Status::internal("internal error fetching public key")),
        },
    }
}

/// The status for a subscription that could not be handed to the event loop.
pub fn subscription_refused() -> (r: Status)
    ensures
        r.code == Code::Internal,
        r.message@ == "internal error adding subscription"@,
{
    Status::internal("internal error adding subscription")
}

/// An advertised endpoint.
#[derive(Debug)]
pub struct Socket {
    pub ip: String,
    pub port: i64,
}

/// Where a validator should send transactions and forwarded transactions.
#[derive(Debug)]
pub struct TpuConfigs {
    pub tpu: Socket,
    pub tpu_forward: Socket,
}

/// The offset between a bound QUIC port and the port that is advertised for it.
pub const ADVERTISED_PORT_OFFSET: u16 = 6;

/// Every port can be shifted down by the advertised offset.
pub open spec fn ports_advertisable(ports: Seq<u16>) -> bool {
    &&& ports.len() > 0
    &&& forall|i: int| 0 <= i < ports.len() ==> ports[i] >= ADVERTISED_PORT_OFFSET
}

/// The port advertised for call number `seq`: the ports are taken in turn.
pub open spec fn advertised_port(ports: Seq<u16>, seq: u64) -> i64 {
    (ports[(seq as int) % ports.len() as int] - ADVERTISED_PORT_OFFSET) as i64
}

/// The endpoints advertised to the `seq`-th caller: the public address with the next
/// port of each list in round-robin order, shifted down by the advertised offset.
pub fn tpu_configs(public_ip: &String, tpu_quic_ports: &Vec<u16>, tpu_fwd_quic_ports: &Vec<u16>, seq: u64) -> (r: TpuConfigs)
    requires
        ports_advertisable(tpu_quic_ports@),
        ports_advertisable(tpu_fwd_quic_ports@),
    ensures
        r.tpu.ip@ == public_ip@,
        r.tpu_forward.ip@ == public_ip@,
        r.tpu.port == advertised_port(tpu_quic_ports@, seq),
        r.tpu_forward.port == advertised_port(tpu_fwd_quic_ports@, seq),
{
    let tpu_port = tpu_quic_ports[(seq % tpu_quic_ports.len() as u64) as usize];
    let fwd_port = tpu_fwd_quic_ports[(seq % tpu_fwd_quic_ports.len() as u64) as usize];
    TpuConfigs {
        tpu: Socket { ip: public_ip.clone(), port: (tpu_port - ADVERTISED_PORT_OFFSET) as i64 },
        tpu_forward: Socket { ip: public_ip.clone(), port: (fwd_port - ADVERTISED_PORT_OFFSET) as i64 },
    }
}

} // verus!
