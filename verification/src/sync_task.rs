//! The task that syncs the store with one peer at a time.
//!
//! A sync establishes a link, identifies on it, offers the identifiers of
//! stored messages, and sends the messages that the peer wants. The link, its
//! encryption and resource transfers are the transport's: each step takes what
//! they report and says what is to be done next.

use std::collections::VecDeque;
use vstd::prelude::*;
use crate::ids::{DestinationHash, PropagationTransientId};
use crate::sync::{OutboundOfferPolicy, PreparedSyncOffer};
use crate::tables::IdSet;
use crate::transport::{flush, hand_over, Handed, Mailbox};
#[allow(unused_imports)]
use crate::transport::{
    flushed_mailbox, flushed_pending, handed, mailbox_after, pending_after, views, MailboxView,
};

pub mod endpoint;
pub mod events;
pub mod laws;
pub mod lifecycle;
pub mod offer;
pub mod transfer;

verus! {

/// Where a sync stands.
#[derive(Debug, Clone, Copy, PartialEq, Eq, Structural)]
pub enum SyncTaskState {
    Idle,
    Establishing,
    Offering,
    AwaitingResponse,
    Transferring,
    Complete,
    Failed,
}

/// How a sync ended.
#[derive(Debug, Clone, Copy, PartialEq, Eq, Structural)]
pub enum PeerSyncTerminalState {
    Complete,
    Failed,
}

/// Bytes that went over the wire, and the milliseconds they took.
#[derive(Debug, Clone, Copy, PartialEq, Eq, Structural)]
pub struct TransferRate {
    pub wire_bytes: u64,
    pub elapsed_ms: u64,
}

/// Outcome of a sync. The rate of link establishment is given by its IEEE 754
/// bits.
#[derive(Debug, Clone, Copy, PartialEq, Eq)]
pub struct PeerSyncTerminalResult {
    pub peer_hash: DestinationHash,
    pub state: PeerSyncTerminalState,
    /// Revision of the store that was offered. A failure leaves it unset, so
    /// that the same revision is tried again.
    pub offer_generation: Option<u64>,
    /// Nothing of that revision is left for another sync.
    pub generation_exhausted: bool,
    pub offered: u64,
    pub outgoing: u64,
    pub tx_bytes: u64,
    pub link_establishment_rate: Option<u64>,
    pub sync_transfer_rate: Option<TransferRate>,
}

/// What a link packet is for.
#[derive(Debug, Clone, Copy, PartialEq, Eq, Structural)]
pub enum PacketContext {
    Plain,
    Resource,
    ResourceAdv,
    ResourceReq,
    ResourceHmu,
    ResourcePrf,
    ResourceIcl,
    ResourceRcl,
    Request,
    Response,
    Keepalive,
    LinkIdentify,
    LinkClose,
    Lrrtt,
    Lrproof,
    Other,
}

/// What the task asks of the transport.
#[derive(Debug)]
pub enum SyncTransport {
    /// Deliver packets for this link to the task.
    RegisterDestination { hash: DestinationHash },
    /// Ask a node for a link.
    LinkRequest { node_hash: DestinationHash, request_data: Vec<u8> },
    /// Bind the link to the interface on which it was proven.
    BindLinkEndpoint { link_id: DestinationHash, interface_id: u64 },
    /// Send a packet on the link.
    SendLinkEndpoint { link_id: DestinationHash, context: PacketContext, body: Vec<u8> },
    /// Send a last packet on the link and release it.
    SendLinkEndpointAndUnbind { link_id: DestinationHash, context: PacketContext, body: Vec<u8> },
    /// Release the link.
    UnbindLinkEndpoint { link_id: DestinationHash },
    /// Deliver no more packets for this link.
    DeregisterDestination { hash: DestinationHash },
}

/// What a [`SyncTransport`] says.
pub enum SyncTransportView {
    RegisterDestination { hash: DestinationHash },
    LinkRequest { node_hash: DestinationHash, request_data: Seq<u8> },
    BindLinkEndpoint { link_id: DestinationHash, interface_id: u64 },
    SendLinkEndpoint { link_id: DestinationHash, context: PacketContext, body: Seq<u8> },
    SendLinkEndpointAndUnbind { link_id: DestinationHash, context: PacketContext, body: Seq<u8> },
    UnbindLinkEndpoint { link_id: DestinationHash },
    DeregisterDestination { hash: DestinationHash },
}

impl View for SyncTransport {
    type V = SyncTransportView;

    open spec fn view(&self) -> SyncTransportView {
        match self {
            SyncTransport::RegisterDestination { hash } => SyncTransportView::RegisterDestination {
                hash: *hash,
            },
            SyncTransport::LinkRequest { node_hash, request_data } => SyncTransportView::LinkRequest {
                node_hash: *node_hash,
                request_data: request_data@,
            },
            SyncTransport::BindLinkEndpoint {
                link_id,
                interface_id,
            } => SyncTransportView::BindLinkEndpoint {
                link_id: *link_id,
                interface_id: *interface_id,
            },
            SyncTransport::SendLinkEndpoint {
                link_id,
                context,
                body,
            } => SyncTransportView::SendLinkEndpoint {
                link_id: *link_id,
                context: *context,
                body: body@,
            },
            SyncTransport::SendLinkEndpointAndUnbind {
                link_id,
                context,
                body,
            } => SyncTransportView::SendLinkEndpointAndUnbind {
                link_id: *link_id,
                context: *context,
                body: body@,
            },
            SyncTransport::UnbindLinkEndpoint { link_id } => SyncTransportView::UnbindLinkEndpoint {
                link_id: *link_id,
            },
            SyncTransport::DeregisterDestination {
                hash,
            } => SyncTransportView::DeregisterDestination { hash: *hash },
        }
    }
}

/// A packet that was sent on a link, until its outcome is known.
#[derive(Debug, Clone, Copy)]
pub struct PendingEndpointSend {
    pub link_id: DestinationHash,
    pub final_send: bool,
}

/// A link that was proven, until it is bound to its interface.
#[derive(Debug)]
pub struct PendingEndpointBind {
    pub interface_id: u64,
    pub rtt_data: Vec<u8>,
}

/// A resource transfer, known by its hash.
#[derive(Debug, Clone, Copy)]
pub struct TransferHandle {
    pub resource_hash: [u8; 32],
    pub total_size: u64,
    pub advertised: bool,
}

/// Messages read for a transfer, encoded.
#[derive(Debug)]
pub struct PreparedTransferBatch {
    pub requested_count: usize,
    pub transient_ids: Vec<PropagationTransientId>,
    pub payload: Vec<u8>,
}

/// Work that a worker does for the task.
#[derive(Debug)]
pub enum Preparation<T> {
    /// Nothing is being prepared.
    Absent,
    /// A worker is at it.
    Pending,
    /// It is done.
    Ready(T),
}

/// State of a peer during a sync.
#[derive(Debug, Clone, Copy, PartialEq, Eq, Structural)]
pub enum PeerState {
    Idle,
    LinkEstablishing,
    LinkReady,
}

/// The peer of the sync that is under way.
#[derive(Debug)]
pub struct SyncPeer {
    pub destination_hash: DestinationHash,
    pub state: PeerState,
    pub handled_messages: IdSet,
}

/// What a [`SyncPeer`] holds.
#[verifier::ext_equal]
pub struct SyncPeerView {
    pub destination_hash: DestinationHash,
    pub state: PeerState,
    pub handled: Set<PropagationTransientId>,
}

impl View for SyncPeer {
    type V = SyncPeerView;

    open spec fn view(&self) -> SyncPeerView {
        SyncPeerView {
            destination_hash: self.destination_hash,
            state: self.state,
            handled: self.handled_messages@,
        }
    }
}

/// Most messages that may wait for the transport.
pub const PENDING_TRANSPORT_LIMIT: usize = 256;

/// Milliseconds between two syncs that nobody asked for.
pub const SYNC_INTERVAL_MS: u64 = 300_000;

/// Milliseconds that a link or a response may take.
pub const SYNC_TIMEOUT_MS: u64 = 120_000;

/// The sync task. Times are in milliseconds.
#[derive(Debug)]
pub struct PropagationSyncTask {
    pub node_dest_hash: Option<DestinationHash>,
    pub link_id: Option<DestinationHash>,
    pub attached_interface: Option<u64>,
    pub pending_endpoint_bind: Option<PendingEndpointBind>,
    pub pending_endpoint_sends: Vec<PendingEndpointSend>,
    pub pending_endpoint_cleanups: Vec<DestinationHash>,
    pub state: SyncTaskState,
    pub last_sync: u64,
    pub sync_interval: u64,
    pub sync_started: Option<u64>,
    pub sync_timeout: u64,
    pub active_transfer: Option<TransferHandle>,
    pub active_transfer_requested: bool,
    pub pending_transfer_segments: VecDeque<TransferHandle>,
    pub active_transfer_ids: Vec<PropagationTransientId>,
    pub transfer_preparation: Preparation<PreparedTransferBatch>,
    pub peer: Option<SyncPeer>,
    pub offer_policy: Option<OutboundOfferPolicy>,
    pub offer_preparation: Preparation<PreparedSyncOffer>,
    pub handled_updates: Vec<PropagationTransientId>,
    pub active_offer_generation: Option<u64>,
    pub generation_exhausted: bool,
    pub terminal_result: Option<PeerSyncTerminalResult>,
    pub pending_transport: VecDeque<SyncTransport>,
    pub preserve_pending_on_cleanup: bool,
    pub offered_count: u64,
    pub outgoing_count: u64,
    pub transfer_data_size: u64,
    pub transfer_wire_size: u64,
    pub transfer_started: Option<u64>,
    pub link_establishment_rate: Option<u64>,
    pub local_identity_hash: Option<DestinationHash>,
    pub peer_identity_hash: Option<DestinationHash>,
    pub peer_peering_cost: u8,
    pub outbound_peering_key: Option<Vec<u8>>,
    /// Why the last offer was refused; nothing once another sync has started.
    pub last_offer_error: Option<&'static str>,
    /// Why the last link could not be established: the identity behind it is not
    /// known, or its proof is bad.
    pub last_establish_error: Option<&'static str>,
    pub last_finished_ok: Option<bool>,
}

/// What a task holds.
#[verifier::ext_equal]
pub struct SyncTaskView {
    pub node_dest_hash: Option<DestinationHash>,
    pub link_id: Option<DestinationHash>,
    pub attached_interface: Option<u64>,
    pub pending_endpoint_bind: Option<PendingEndpointBind>,
    pub pending_endpoint_sends: Seq<PendingEndpointSend>,
    pub pending_endpoint_cleanups: Seq<DestinationHash>,
    pub state: SyncTaskState,
    pub last_sync: u64,
    pub sync_interval: u64,
    pub sync_started: Option<u64>,
    pub sync_timeout: u64,
    pub active_transfer: Option<TransferHandle>,
    pub active_transfer_requested: bool,
    pub pending_transfer_segments: Seq<TransferHandle>,
    pub active_transfer_ids: Seq<PropagationTransientId>,
    pub transfer_preparation: Preparation<PreparedTransferBatch>,
    pub peer: Option<SyncPeerView>,
    pub offer_policy: Option<OutboundOfferPolicy>,
    pub offer_preparation: Preparation<PreparedSyncOffer>,
    pub handled_updates: Seq<PropagationTransientId>,
    pub active_offer_generation: Option<u64>,
    pub generation_exhausted: bool,
    pub terminal_result: Option<PeerSyncTerminalResult>,
    pub pending_transport: Seq<SyncTransportView>,
    pub preserve_pending_on_cleanup: bool,
    pub accounting: AttemptAccounting,
    pub local_identity_hash: Option<DestinationHash>,
    pub peer_identity_hash: Option<DestinationHash>,
    pub peer_peering_cost: u8,
    pub outbound_peering_key: Option<Vec<u8>>,
    pub last_offer_error: Option<&'static str>,
    pub last_establish_error: Option<&'static str>,
    pub last_finished_ok: Option<bool>,
}

/// What is counted during one sync.
pub struct AttemptAccounting {
    pub offered_count: u64,
    pub outgoing_count: u64,
    pub transfer_data_size: u64,
    pub transfer_wire_size: u64,
    pub transfer_started: Option<u64>,
    pub link_establishment_rate: Option<u64>,
}

/// Nothing was counted yet.
pub open spec fn no_accounting() -> AttemptAccounting {
    AttemptAccounting {
        offered_count: 0,
        outgoing_count: 0,
        transfer_data_size: 0,
        transfer_wire_size: 0,
        transfer_started: None,
        link_establishment_rate: None,
    }
}

impl View for PropagationSyncTask {
    type V = SyncTaskView;

    open spec fn view(&self) -> SyncTaskView {
        SyncTaskView {
            node_dest_hash: self.node_dest_hash,
            link_id: self.link_id,
            attached_interface: self.attached_interface,
            pending_endpoint_bind: self.pending_endpoint_bind,
            pending_endpoint_sends: self.pending_endpoint_sends@,
            pending_endpoint_cleanups: self.pending_endpoint_cleanups@,
            state: self.state,
            last_sync: self.last_sync,
            sync_interval: self.sync_interval,
            sync_started: self.sync_started,
            sync_timeout: self.sync_timeout,
            active_transfer: self.active_transfer,
            active_transfer_requested: self.active_transfer_requested,
            pending_transfer_segments: self.pending_transfer_segments@,
            active_transfer_ids: self.active_transfer_ids@,
            transfer_preparation: self.transfer_preparation,
            peer: match self.peer {
                Some(peer) => Some(peer@),
                None => None,
            },
            offer_policy: self.offer_policy,
            offer_preparation: self.offer_preparation,
            handled_updates: self.handled_updates@,
            active_offer_generation: self.active_offer_generation,
            generation_exhausted: self.generation_exhausted,
            terminal_result: self.terminal_result,
            pending_transport: views(self.pending_transport@),
            preserve_pending_on_cleanup: self.preserve_pending_on_cleanup,
            accounting: AttemptAccounting {
                offered_count: self.offered_count,
                outgoing_count: self.outgoing_count,
                transfer_data_size: self.transfer_data_size,
                transfer_wire_size: self.transfer_wire_size,
                transfer_started: self.transfer_started,
                link_establishment_rate: self.link_establishment_rate,
            },
            local_identity_hash: self.local_identity_hash,
            peer_identity_hash: self.peer_identity_hash,
            peer_peering_cost: self.peer_peering_cost,
            outbound_peering_key: self.outbound_peering_key,
            last_offer_error: self.last_offer_error,
            last_establish_error: self.last_establish_error,
            last_finished_ok: self.last_finished_ok,
        }
    }
}

/// The mailbox of the task's messages, as a step sees it.
pub type SyncMailbox = Mailbox<SyncTransport>;

/// What a [`SyncMailbox`] holds.
pub type SyncMailboxView = MailboxView<SyncTransportView>;

/// A task and its mailbox, before or after a step.
#[verifier::ext_equal]
pub struct Step {
    pub task: SyncTaskView,
    pub mailbox: SyncMailboxView,
}

impl SyncTaskView {
    /// The task in another state.
    pub open spec fn in_state(self, state: SyncTaskState) -> SyncTaskView {
        SyncTaskView { state, ..self }
    }

    /// The task without a transfer.
    pub open spec fn without_transfer(self) -> SyncTaskView {
        SyncTaskView {
            active_transfer: None,
            active_transfer_requested: false,
            pending_transfer_segments: Seq::empty(),
            active_transfer_ids: Seq::empty(),
            ..self
        }
    }

    /// The task without anything that workers prepare for it.
    pub open spec fn without_preparations(self) -> SyncTaskView {
        SyncTaskView {
            offer_preparation: Preparation::Absent,
            transfer_preparation: Preparation::Absent,
            ..self
        }
    }
}

impl Step {
    /// The step after a message was handed to the transport. Too many waiting
    /// messages fail the sync.
    pub open spec fn queued(self, message: SyncTransportView) -> Step {
        let result = handed(self.task.pending_transport, self.mailbox, PENDING_TRANSPORT_LIMIT);
        Step {
            task: SyncTaskView {
                pending_transport: pending_after(
                    self.task.pending_transport,
                    self.mailbox,
                    PENDING_TRANSPORT_LIMIT,
                    message,
                ),
                state: if result is Overflow {
                    SyncTaskState::Failed
                } else {
                    self.task.state
                },
                ..self.task
            },
            mailbox: mailbox_after(
                self.task.pending_transport,
                self.mailbox,
                PENDING_TRANSPORT_LIMIT,
                message,
            ),
        }
    }

    /// A message handed over now is not lost.
    pub open spec fn keeps(self) -> bool {
        handed(self.task.pending_transport, self.mailbox, PENDING_TRANSPORT_LIMIT).kept_spec()
    }

    /// The step with the task in another state.
    pub open spec fn in_state(self, state: SyncTaskState) -> Step {
        Step { task: self.task.in_state(state), ..self }
    }
}

impl PropagationSyncTask {
    /// An idle task.
    pub fn new(now: u64) -> (task: Self)
        ensures
            task@ == idle_task(now),
    {
        let task = PropagationSyncTask {
            node_dest_hash: None,
            link_id: None,
            attached_interface: None,
            pending_endpoint_bind: None,
            pending_endpoint_sends: Vec::new(),
            pending_endpoint_cleanups: Vec::new(),
            state: SyncTaskState::Idle,
            last_sync: now,
            sync_interval: SYNC_INTERVAL_MS,
            sync_started: None,
            sync_timeout: SYNC_TIMEOUT_MS,
            active_transfer: None,
            active_transfer_requested: false,
            pending_transfer_segments: VecDeque::new(),
            active_transfer_ids: Vec::new(),
            transfer_preparation: Preparation::Absent,
            peer: None,
            offer_policy: None,
            offer_preparation: Preparation::Absent,
            handled_updates: Vec::new(),
            active_offer_generation: None,
            generation_exhausted: false,
            terminal_result: None,
            pending_transport: VecDeque::new(),
            preserve_pending_on_cleanup: false,
            offered_count: 0,
            outgoing_count: 0,
            transfer_data_size: 0,
            transfer_wire_size: 0,
            transfer_started: None,
            link_establishment_rate: None,
            local_identity_hash: None,
            peer_identity_hash: None,
            peer_peering_cost: 0,
            outbound_peering_key: None,
            last_offer_error: None,
            last_establish_error: None,
            last_finished_ok: None,
        };
        assert(task@ =~= idle_task(now));
        task
    }

    /// Hands a message to the transport behind those that wait. Tells whether
    /// it was kept; too many waiting messages fail the sync.
    pub fn queue_transport(&mut self, mailbox: &mut SyncMailbox, message: SyncTransport) -> (kept:
        bool)
        ensures
            ({
                let before = Step { task: old(self)@, mailbox: old(mailbox)@ };
                kept == before.keeps() && (Step { task: final(self)@, mailbox: final(mailbox)@ })
                    == before.queued(message@)
            }),
    {
        let result = hand_over(
            &mut self.pending_transport,
            mailbox,
            PENDING_TRANSPORT_LIMIT,
            message,
        );
        if let Handed::Overflow = result {
            self.state = SyncTaskState::Failed;
        }
        result.kept()
    }

    /// Hands waiting messages to the transport, oldest first. Tells whether the
    /// transport is still there.
    pub fn flush_pending_transport(&mut self, mailbox: &mut SyncMailbox) -> (open: bool)
        ensures
            open == (old(self)@.pending_transport.len() == 0 || !old(mailbox)@.closed),
            final(self)@ == (SyncTaskView {
                pending_transport: flushed_pending(old(self)@.pending_transport, old(mailbox)@),
                ..old(self)@
            }),
            final(mailbox)@ == flushed_mailbox(old(self)@.pending_transport, old(mailbox)@),
    {
        flush(&mut self.pending_transport, mailbox)
    }
}

/// A task in which nothing has happened yet.
pub open spec fn idle_task(now: u64) -> SyncTaskView {
    SyncTaskView {
        node_dest_hash: None,
        link_id: None,
        attached_interface: None,
        pending_endpoint_bind: None,
        pending_endpoint_sends: Seq::empty(),
        pending_endpoint_cleanups: Seq::empty(),
        state: SyncTaskState::Idle,
        last_sync: now,
        sync_interval: SYNC_INTERVAL_MS,
        sync_started: None,
        sync_timeout: SYNC_TIMEOUT_MS,
        active_transfer: None,
        active_transfer_requested: false,
        pending_transfer_segments: Seq::empty(),
        active_transfer_ids: Seq::empty(),
        transfer_preparation: Preparation::Absent,
        peer: None,
        offer_policy: None,
        offer_preparation: Preparation::Absent,
        handled_updates: Seq::empty(),
        active_offer_generation: None,
        generation_exhausted: false,
        terminal_result: None,
        pending_transport: Seq::empty(),
        preserve_pending_on_cleanup: false,
        accounting: no_accounting(),
        local_identity_hash: None,
        peer_identity_hash: None,
        peer_peering_cost: 0,
        outbound_peering_key: None,
        last_offer_error: None,
        last_establish_error: None,
        last_finished_ok: None,
    }
}

} // verus!
