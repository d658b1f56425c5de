//! What a node knows of a peer.

use vstd::prelude::*;
use crate::ids::{copy_bytes, DestinationHash, PropagationTransientId};
use crate::sync::OutboundOfferPolicy;
use crate::sync_task::TransferRate;
use crate::tables::IdSet;

verus! {

/// A peer. Limits are in bytes, times in seconds since the epoch.
#[derive(Debug)]
pub struct LxmPeer {
    pub destination_hash: DestinationHash,
    /// The peer answered lately.
    pub alive: bool,
    /// The peer was named by the operator.
    pub is_static: bool,
    pub next_sync_attempt: u64,
    pub stamp_cost: Option<u8>,
    pub stamp_cost_flexibility: Option<u8>,
    pub peering_cost: u8,
    /// When the announce that the peering rests on was made.
    pub peering_timebase: u64,
    /// A stamp over both identities, and its value.
    pub peering_key: Option<([u8; 32], u32)>,
    pub propagation_transfer_limit: Option<usize>,
    pub propagation_sync_limit: Option<usize>,
    pub handled_messages: IdSet,
    pub offered: u64,
    pub outgoing: u64,
    pub incoming: u64,
    pub rx_bytes: u64,
    pub tx_bytes: u64,
    /// How fast its last link came to be, given by the IEEE 754 bits.
    pub link_establishment_rate: Option<u64>,
    /// How fast the last transfer to it went.
    pub sync_transfer_rate: Option<TransferRate>,
}

/// What a [`LxmPeer`] holds.
#[verifier::ext_equal]
pub struct PeerView {
    pub destination_hash: DestinationHash,
    pub alive: bool,
    pub is_static: bool,
    pub next_sync_attempt: u64,
    pub stamp_cost: Option<u8>,
    pub stamp_cost_flexibility: Option<u8>,
    pub peering_cost: u8,
    pub peering_timebase: u64,
    pub peering_key: Option<(Seq<u8>, u32)>,
    pub propagation_transfer_limit: Option<usize>,
    pub propagation_sync_limit: Option<usize>,
    pub handled: Set<PropagationTransientId>,
    pub offered: u64,
    pub outgoing: u64,
    pub incoming: u64,
    pub rx_bytes: u64,
    pub tx_bytes: u64,
    pub link_establishment_rate: Option<u64>,
    pub sync_transfer_rate: Option<TransferRate>,
}

/// What a peering key says.
pub open spec fn key_view(key: Option<([u8; 32], u32)>) -> Option<(Seq<u8>, u32)> {
    match key {
        Some((key, value)) => Some((key@, value)),
        None => None,
    }
}

impl View for LxmPeer {
    type V = PeerView;

    open spec fn view(&self) -> PeerView {
        PeerView {
            destination_hash: self.destination_hash,
            alive: self.alive,
            is_static: self.is_static,
            next_sync_attempt: self.next_sync_attempt,
            stamp_cost: self.stamp_cost,
            stamp_cost_flexibility: self.stamp_cost_flexibility,
            peering_cost: self.peering_cost,
            peering_timebase: self.peering_timebase,
            peering_key: key_view(self.peering_key),
            propagation_transfer_limit: self.propagation_transfer_limit,
            propagation_sync_limit: self.propagation_sync_limit,
            handled: self.handled_messages@,
            offered: self.offered,
            outgoing: self.outgoing,
            incoming: self.incoming,
            rx_bytes: self.rx_bytes,
            tx_bytes: self.tx_bytes,
            link_establishment_rate: self.link_establishment_rate,
            sync_transfer_rate: self.sync_transfer_rate,
        }
    }
}

/// What is known of a peer, if anything.
pub open spec fn peer_view(peer: Option<&LxmPeer>) -> Option<PeerView> {
    match peer {
        Some(peer) => Some(peer@),
        None => None,
    }
}

/// A peer of which nothing but its address is known.
pub open spec fn unknown_peer(destination_hash: DestinationHash) -> PeerView {
    PeerView {
        destination_hash,
        alive: false,
        is_static: false,
        next_sync_attempt: 0,
        stamp_cost: None,
        stamp_cost_flexibility: None,
        peering_cost: 0,
        peering_timebase: 0,
        peering_key: None,
        propagation_transfer_limit: None,
        propagation_sync_limit: None,
        handled: Set::empty(),
        offered: 0,
        outgoing: 0,
        incoming: 0,
        rx_bytes: 0,
        tx_bytes: 0,
        link_establishment_rate: None,
        sync_transfer_rate: None,
    }
}

impl PeerView {
    /// The least value of a stamp that the peer takes.
    pub open spec fn minimum_stamp_cost(self) -> u8 {
        match (self.stamp_cost, self.stamp_cost_flexibility) {
            (Some(cost), Some(flexibility)) => if cost < flexibility {
                0
            } else {
                (cost - flexibility) as u8
            },
            (Some(cost), None) => cost,
            (None, _) => 0,
        }
    }

    /// `policy` says what the peer accepts and holds.
    pub open spec fn is_policy(self, policy: OutboundOfferPolicy) -> bool {
        &&& policy.peer_hash == self.destination_hash
        &&& policy.handled_messages@ == self.handled
        &&& policy.minimum_stamp_cost == self.minimum_stamp_cost()
        &&& policy.propagation_transfer_limit == self.propagation_transfer_limit
        &&& policy.propagation_sync_limit == self.propagation_sync_limit
        &&& policy.peering_key@ == (match self.peering_key {
            Some((key, _)) => key,
            None => Seq::empty(),
        })
    }

    /// The peer said what its stamps cost.
    pub open spec fn knows_stamp_costs(self) -> bool {
        self.stamp_cost is Some && self.stamp_cost_flexibility is Some
    }

    /// There is a key that meets what peering costs.
    pub open spec fn has_peering_key(self) -> bool {
        self.peering_key matches Some((_, value)) && value >= self.peering_cost
    }

    /// The peer can be synced with: what it takes is known, and what peering
    /// costs is met.
    pub open spec fn is_ready(self) -> bool {
        self.knows_stamp_costs() && (self.peering_cost == 0 || self.has_peering_key())
    }

    /// The peer, holding more messages.
    pub open spec fn holding(self, ids: Seq<PropagationTransientId>) -> PeerView {
        PeerView { handled: self.handled.union(ids.to_set()), ..self }
    }
}

/// What a change of a peer's announce can change of an offer. A difference
/// makes another sync of the same store worth while.
#[derive(Debug, Clone, Copy, PartialEq, Eq, Structural)]
pub struct PeerOfferConstraints {
    pub transfer_limit: Option<usize>,
    pub sync_limit: Option<usize>,
    pub stamp_cost: Option<u8>,
    pub stamp_flexibility: Option<u8>,
    pub peering_cost: u8,
}

impl LxmPeer {
    /// A peer of which nothing but its address is known.
    pub fn new(destination_hash: DestinationHash) -> (peer: Self)
        ensures
            peer@ == unknown_peer(destination_hash),
    {
        LxmPeer {
            destination_hash,
            alive: false,
            is_static: false,
            next_sync_attempt: 0,
            stamp_cost: None,
            stamp_cost_flexibility: None,
            peering_cost: 0,
            peering_timebase: 0,
            peering_key: None,
            propagation_transfer_limit: None,
            propagation_sync_limit: None,
            handled_messages: IdSet::new(),
            offered: 0,
            outgoing: 0,
            incoming: 0,
            rx_bytes: 0,
            tx_bytes: 0,
            link_establishment_rate: None,
            sync_transfer_rate: None,
        }
    }

    /// A peer of which the same is known.
    pub fn copy(&self) -> (peer: Self)
        ensures
            peer@ == self@,
    {
        LxmPeer {
            destination_hash: self.destination_hash,
            alive: self.alive,
            is_static: self.is_static,
            next_sync_attempt: self.next_sync_attempt,
            stamp_cost: self.stamp_cost,
            stamp_cost_flexibility: self.stamp_cost_flexibility,
            peering_cost: self.peering_cost,
            peering_timebase: self.peering_timebase,
            peering_key: self.peering_key,
            propagation_transfer_limit: self.propagation_transfer_limit,
            propagation_sync_limit: self.propagation_sync_limit,
            handled_messages: self.handled_messages.copy(),
            offered: self.offered,
            outgoing: self.outgoing,
            incoming: self.incoming,
            rx_bytes: self.rx_bytes,
            tx_bytes: self.tx_bytes,
            link_establishment_rate: self.link_establishment_rate,
            sync_transfer_rate: self.sync_transfer_rate,
        }
    }

    /// Notes that the peer holds a message.
    pub fn add_handled_message(&mut self, transient_id: &PropagationTransientId)
        ensures
            final(self)@ == (PeerView {
                handled: old(self)@.handled.insert(*transient_id),
                ..old(self)@
            }),
    {
        self.handled_messages.insert(*transient_id);
    }

    /// Notes that the peer holds messages.
    pub fn add_handled_messages(&mut self, transient_ids: &[PropagationTransientId])
        ensures
            final(self)@ == old(self)@.holding(transient_ids@),
    {
        self.handled_messages.extend(transient_ids);
    }

    /// Tells whether the peer holds a message.
    pub fn has_handled(&self, transient_id: &PropagationTransientId) -> (handled: bool)
        ensures
            handled == self@.handled.contains(*transient_id),
    {
        self.handled_messages.contains(transient_id)
    }

    /// Tells whether the peer said what its stamps cost.
    pub fn stamp_costs_known(&self) -> (known: bool)
        ensures
            known == self@.knows_stamp_costs(),
    {
        self.stamp_cost.is_some() && self.stamp_cost_flexibility.is_some()
    }

    /// Tells whether there is a key that meets what peering costs.
    pub fn peering_key_ready(&self) -> (ready: bool)
        ensures
            ready == self@.has_peering_key(),
    {
        match &self.peering_key {
            Some((_, value)) => *value >= self.peering_cost as u32,
            None => false,
        }
    }

    /// What the peer accepts and holds.
    pub fn policy(&self) -> (policy: OutboundOfferPolicy)
        ensures
            self@.is_policy(policy),
    {
        OutboundOfferPolicy {
            peer_hash: self.destination_hash,
            handled_messages: self.handled_messages.copy(),
            minimum_stamp_cost: match (self.stamp_cost, self.stamp_cost_flexibility) {
                (Some(cost), Some(flexibility)) => cost.saturating_sub(flexibility),
                (Some(cost), None) => cost,
                (None, _) => 0,
            },
            propagation_transfer_limit: self.propagation_transfer_limit,
            propagation_sync_limit: self.propagation_sync_limit,
            peering_key: match &self.peering_key {
                Some((key, _)) => copy_bytes(key),
                None => Vec::new(),
            },
        }
    }

    /// What can change an offer to the peer.
    pub fn constraints(&self) -> (constraints: PeerOfferConstraints)
        ensures
            constraints == (PeerOfferConstraints {
                transfer_limit: self@.propagation_transfer_limit,
                sync_limit: self@.propagation_sync_limit,
                stamp_cost: self@.stamp_cost,
                stamp_flexibility: self@.stamp_cost_flexibility,
                peering_cost: self@.peering_cost,
            }),
    {
        PeerOfferConstraints {
            transfer_limit: self.propagation_transfer_limit,
            sync_limit: self.propagation_sync_limit,
            stamp_cost: self.stamp_cost,
            stamp_flexibility: self.stamp_cost_flexibility,
            peering_cost: self.peering_cost,
        }
    }
}

} // verus!
