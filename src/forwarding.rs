use vstd::prelude::*;

use std::collections::HashMap;

use crate::pubkey::Pubkey;
use crate::registry::SubscriberRegistry;
use crate::sink::Sink;

verus! {

broadcast use vstd::std_specs::hash::group_hash_axioms;

/// How many leader rotations ahead of the current slot count as "about to lead".
pub const LEADER_LOOKAHEAD: u64 = 2;

/// Relies on solana-sdk's `clock::NUM_CONSECUTIVE_LEADER_SLOTS`, which is 4: the number
/// of slots that one leader holds in a row.
#[verifier::external_body]
pub(crate) fn consecutive_leader_slots() -> (r: u64)
    ensures
        r == 4,
{
    solana_sdk::clock::NUM_CONSECUTIVE_LEADER_SLOTS
}

/// `key` leads some slot in `[slot, slot + len)` according to `schedule`.
pub open spec fn leads_in_window(schedule: Map<u64, Pubkey>, slot: u64, len: int, key: Pubkey) -> bool {
    exists|s: u64| slot <= s < slot + len && #[trigger] schedule.contains_key(s) && schedule[s] == key
}

/// The identities that lead some slot in `[slot, slot + len)`.
pub open spec fn window_leaders(schedule: Map<u64, Pubkey>, slot: u64, len: int) -> Set<Pubkey> {
    Set::new(|k: Pubkey| leads_in_window(schedule, slot, len, k))
}

/// The subscribers that a batch goes to: all of them, or those that lead a slot of the
/// window that starts at `slot`.
pub open spec fn forwarding_targets(
    subscribers: Map<Pubkey, Sink>,
    schedule: Map<u64, Pubkey>,
    slot: u64,
    window: int,
    forward_all: bool,
) -> Map<Pubkey, Sink> {
    if forward_all {
        subscribers
    } else {
        subscribers.restrict(window_leaders(schedule, slot, window))
    }
}

/// The connected subscribers that lead a slot in `[slot, slot + window)`.
pub fn leader_forwarding_set(
    subscribers: &SubscriberRegistry,
    schedule: &HashMap<u64, Pubkey>,
    slot: u64,
    window: u64,
) -> (r: SubscriberRegistry)
    requires
        subscribers.wf(),
    ensures
        r.wf(),
        r@ == subscribers@.restrict(window_leaders(schedule@, slot, window as int)),
{
    let mut r = SubscriberRegistry::new();
    let mut off: u64 = 0;
    assert(subscribers@.restrict(window_leaders(schedule@, slot, 0)) =~= r@);
    while off < window
        invariant
            subscribers.wf(),
            r.wf(),
            off <= window,
            r@ == subscribers@.restrict(window_leaders(schedule@, slot, off as int)),
        decreases window - off,
    {
        if slot > u64::MAX - off {
            // No slot number lies past the largest one.
            assert(window_leaders(schedule@, slot, window as int) =~= window_leaders(
                schedule@,
                slot,
                off as int,
            ));
            return r;
        }
        let ghost before = r@;
        let s: u64 = slot + off;
        let next = off + 1;
        match schedule.get(&s) {
            Some(leader) => {
                let key: Pubkey = *leader;
                assert(leads_in_window(schedule@, slot, next as int, key));
                if !r.contains(&key) {
                    match subscribers.get(&key) {
                        Some(sink) => {
                            r.insert(key, sink);
                        },
                        None => {},
                    }
                }
                assert(r@ =~= subscribers@.restrict(window_leaders(schedule@, slot, next as int)));
            },
            None => {
                assert(r@ =~= subscribers@.restrict(window_leaders(schedule@, slot, next as int)));
            },
        }
        off = next;
    }
    r
}

/// The forwarding set for the highest observed slot: every subscriber when
/// `forward_all`, else the leaders of the look-ahead window that starts at `slot`.
pub fn compute_forwarding_set(
    subscribers: &SubscriberRegistry,
    schedule: &HashMap<u64, Pubkey>,
    slot: u64,
    forward_all: bool,
) -> (r: SubscriberRegistry)
    requires
        subscribers.wf(),
    ensures
        r.wf(),
        r@ == forwarding_targets(subscribers@, schedule@, slot, (LEADER_LOOKAHEAD * 4) as int, forward_all),
{
    if forward_all {
        subscribers.duplicate()
    } else {
        let window = LEADER_LOOKAHEAD * consecutive_leader_slots();
        leader_forwarding_set(subscribers, schedule, slot, window)
    }
}

/// With forwarding to all off, a subscriber is a forwarding target exactly when it is
/// connected and leads some slot of `[slot, slot + window)`; with it on, exactly when
/// it is connected. Either way the target keeps its own sink.
pub proof fn lemma_leader_window_selection(
    subscribers: Map<Pubkey, Sink>,
    schedule: Map<u64, Pubkey>,
    slot: u64,
    window: int,
    forward_all: bool,
    key: Pubkey,
)
    ensures
        forwarding_targets(subscribers, schedule, slot, window, forward_all).contains_key(key) <==> {
            &&& subscribers.contains_key(key)
            &&& (forward_all || exists|s: u64|
                slot <= s < slot + window && #[trigger] schedule.contains_key(s) && schedule[s] == key)
        },
        forwarding_targets(subscribers, schedule, slot, window, forward_all).contains_key(key)
            ==> forwarding_targets(subscribers, schedule, slot, window, forward_all)[key] == subscribers[key],
{
    if !forward_all {
        assert(window_leaders(schedule, slot, window).contains(key) == leads_in_window(schedule, slot, window, key));
    }
}

} // verus!
