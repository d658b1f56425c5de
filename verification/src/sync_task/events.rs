//! What reaches the task on its link.

use vstd::prelude::*;
use vstd::slice::slice_subrange;
use crate::ids::{id_from_bytes, DestinationHash};
#[allow(unused_imports)]
use crate::ids::PropagationTransientId;
use crate::node::PropagationNode;
#[allow(unused_imports)]
use crate::node::NodeView;
use crate::offer::OfferResponse;
#[allow(unused_imports)]
use crate::offer::response_from_msgpack;
use crate::sync_task::endpoint::is_link;
use crate::sync_task::offer::TransferPlan;
#[allow(unused_imports)]
use crate::sync_task::offer::{answered, is_plan};
use crate::sync_task::transfer::TransferAction;
#[allow(unused_imports)]
use crate::sync_task::transfer::{node_after_request, node_after_segment};
use crate::sync_task::{
    PacketContext, PendingEndpointBind, Preparation, PropagationSyncTask, SyncMailbox,
    SyncTaskState, SyncTransport,
};
#[allow(unused_imports)]
use crate::sync_task::{Step, SyncTaskView, SyncTransportView};
use crate::tables::PeerMap;

verus! {

/// Public keys of the identities behind destinations: an X25519 key followed by
/// an Ed25519 key.
pub type KnownIdentities = PeerMap<[u8; 64]>;

/// A packet as its header describes it.
#[derive(Debug, Clone, Copy)]
pub struct InboundPacket {
    pub destination_hash: DestinationHash,
    pub interface_id: u64,
    pub context: PacketContext,
    /// The packet proves something.
    pub is_proof: bool,
}

/// What a packet is to the task.
#[derive(Debug, Clone, Copy)]
pub enum PacketRole {
    /// Nothing.
    Ignored,
    /// A proof of the link, to be checked with this Ed25519 key.
    LinkProof { verify_key: [u8; 32] },
    /// A proof of the link by an identity that is not known.
    UnknownIdentity,
    /// More of a resource's map, for the transfer.
    HashmapUpdate,
    /// A request for parts of a resource.
    ResourceRequest,
    /// A proof that a resource arrived.
    ResourceProof,
    /// The peer's answer to the offer.
    Response,
    /// The cancellation of a resource.
    ResourceCancel,
    /// The end of the link.
    LinkClose,
}

/// What the link made of a packet.
#[derive(Debug)]
pub enum LinkWork {
    /// Nothing, or nothing that concerns the task.
    Nothing,
    /// The key that was to check a proof is no key.
    InvalidKey,
    /// The proof does not prove the link.
    ProofInvalid,
    /// The link is proven, and its round trip is reported by this packet.
    Proven(Vec<u8>),
    /// A request in the clear, and what the transfer wants done about it.
    Request { request: Vec<u8>, actions: Vec<TransferAction> },
    /// The hash of a cancelled resource.
    Cancelled(Vec<u8>),
    /// The resource arrived.
    ResourceProven,
    /// An answer in the clear.
    Response(Vec<u8>),
    /// The link is over, as its other end says.
    Closed,
}

/// A packet proves a link.
pub open spec fn proves_link(packet: InboundPacket) -> bool {
    packet.context is Lrproof || (packet.context is Plain && packet.is_proof)
}

impl SyncTaskView {
    /// What a packet is to the task. A proof counts while the link is being
    /// established and not bound yet; anything else must come in on the
    /// interface that the link is bound to.
    pub open spec fn role_of(
        self,
        packet: InboundPacket,
        known: Map<DestinationHash, Seq<u8>>,
    ) -> PacketRole {
        if self.link_id != Some(packet.destination_hash) {
            PacketRole::Ignored
        } else if proves_link(packet) {
            if self.pending_endpoint_bind is Some || !(self.state is Establishing) {
                PacketRole::Ignored
            } else {
                match self.node_dest_hash {
                    None => PacketRole::Ignored,
                    Some(hash) => if known.contains_key(hash) {
                        PacketRole::LinkProof { verify_key: signing_key(known[hash]) }
                    } else {
                        PacketRole::UnknownIdentity
                    },
                }
            }
        } else if self.attached_interface != Some(packet.interface_id) {
            PacketRole::Ignored
        } else {
            match packet.context {
                PacketContext::ResourceHmu => PacketRole::HashmapUpdate,
                PacketContext::ResourceReq => PacketRole::ResourceRequest,
                PacketContext::ResourcePrf => PacketRole::ResourceProof,
                PacketContext::Response => if self.state is AwaitingResponse {
                    PacketRole::Response
                } else {
                    PacketRole::Ignored
                },
                PacketContext::ResourceRcl => PacketRole::ResourceCancel,
                PacketContext::ResourceIcl => PacketRole::ResourceCancel,
                PacketContext::LinkClose => PacketRole::LinkClose,
                _ => PacketRole::Ignored,
            }
        }
    }

    /// The task after the link was closed.
    pub open spec fn link_closed(self) -> SyncTaskView {
        SyncTaskView {
            transfer_preparation: Preparation::Absent,
            state: SyncTaskState::Failed,
            ..self.without_transfer()
        }
    }
}

/// The Ed25519 key of an identity.
pub open spec fn signing_key(public_key: Seq<u8>) -> [u8; 32] {
    choose|key: [u8; 32]| key@ == public_key.subrange(32, 64)
}

impl Step {
    /// The step after a proof of the link was checked: where it is good, it is
    /// given by the packet that reports the round trip. A bad proof is noted and
    /// changes nothing else, so that a good one can still follow.
    pub open spec fn proof_taken(self, proven: Option<Vec<u8>>, interface_id: u64) -> Step {
        match proven {
            Some(rtt_data) => self.link_proven(rtt_data, interface_id),
            None => Step {
                task: SyncTaskView { last_establish_error: Some("LrproofInvalid"), ..self.task },
                ..self
            },
        }
    }

    /// The step after the link was proven on an interface: it is to be bound to
    /// it.
    pub open spec fn link_proven(self, rtt_data: Vec<u8>, interface_id: u64) -> Step {
        match self.task.link_id {
            Some(link_id) => {
                let queued = self.queued(
                    SyncTransportView::BindLinkEndpoint { link_id, interface_id },
                );
                if self.keeps() {
                    Step {
                        task: SyncTaskView {
                            pending_endpoint_bind: Some(
                                PendingEndpointBind { interface_id, rtt_data },
                            ),
                            last_establish_error: None,
                            ..queued.task
                        },
                        ..queued
                    }
                } else {
                    queued.in_state(SyncTaskState::Failed)
                }
            },
            None => Step {
                task: SyncTaskView {
                    last_establish_error: Some("LrproofInvalid"),
                    state: SyncTaskState::Failed,
                    ..self.task
                },
                ..self
            },
        }
    }
}

/// A task with its mailbox and a node after an event, and the messages that are
/// to be read.
#[verifier::ext_equal]
pub struct EventStep {
    pub step: Step,
    pub node: NodeView,
    pub requested: Option<Seq<PropagationTransientId>>,
}

impl EventStep {
    /// The step after a packet, by its role and what the link made of it.
    pub open spec fn after_packet(
        step: Step,
        node: NodeView,
        interface_id: u64,
        role: PacketRole,
        work: LinkWork,
    ) -> EventStep {
        let unchanged = EventStep { step, node, requested: None };
        match (role, work) {
            (PacketRole::UnknownIdentity, _) => EventStep {
                step: Step {
                    task: SyncTaskView {
                        last_establish_error: Some("LrproofIdentityMissing"),
                        ..step.task
                    },
                    ..step
                },
                ..unchanged
            },
            (PacketRole::LinkProof { .. }, LinkWork::InvalidKey) => EventStep {
                step: Step {
                    task: SyncTaskView {
                        last_establish_error: Some("LrproofInvalidKey"),
                        state: SyncTaskState::Failed,
                        ..step.task
                    },
                    ..step
                },
                ..unchanged
            },
            (PacketRole::LinkProof { .. }, LinkWork::ProofInvalid) => EventStep {
                step: step.proof_taken(None, interface_id),
                ..unchanged
            },
            (PacketRole::LinkProof { .. }, LinkWork::Proven(rtt_data)) => EventStep {
                step: step.proof_taken(Some(rtt_data), interface_id),
                ..unchanged
            },
            (PacketRole::ResourceRequest, LinkWork::Request { request, actions }) => EventStep {
                step: step.request_handled(request@, actions@),
                node: node_after_request(node, step, request@, actions@),
                ..unchanged
            },
            (PacketRole::ResourceProof, LinkWork::ResourceProven) => EventStep {
                step: Step { task: step.task.segment_done(), ..step },
                node: node_after_segment(node, step.task),
                ..unchanged
            },
            (PacketRole::Response, LinkWork::Response(data)) => {
                let answer = answered(step.task, node, response_from_msgpack(data@));
                EventStep {
                    step: Step { task: answer.task, ..step },
                    node: answer.node,
                    requested: answer.requested,
                }
            },
            (PacketRole::ResourceCancel, LinkWork::Cancelled(hash)) => EventStep {
                step: Step {
                    task: if step.task.active_transfer matches Some(transfer) && hash@
                        == transfer.resource_hash@ {
                        step.task.transfer_failed()
                    } else {
                        step.task
                    },
                    ..step
                },
                ..unchanged
            },
            (PacketRole::LinkClose, LinkWork::Closed) => EventStep {
                step: Step { task: step.task.link_closed(), ..step },
                ..unchanged
            },
            _ => unchanged,
        }
    }
}

impl PropagationSyncTask {
    /// Says what a packet is to the task.
    pub fn packet_role(&self, packet: &InboundPacket, known: &KnownIdentities) -> (role: PacketRole)
        ensures
            role == self@.role_of(*packet, known@),
    {
        if !is_link(&self.link_id, &packet.destination_hash) {
            return PacketRole::Ignored;
        }
        let proves: bool = packet.context == PacketContext::Lrproof || (packet.context
            == PacketContext::Plain && packet.is_proof);
        if proves {
            if self.pending_endpoint_bind.is_some() || self.state != SyncTaskState::Establishing {
                return PacketRole::Ignored;
            }
            return match &self.node_dest_hash {
                None => PacketRole::Ignored,
                Some(hash) => match known.get(hash) {
                    Some(public_key) => PacketRole::LinkProof {
                        verify_key: signing_half(public_key),
                    },
                    None => PacketRole::UnknownIdentity,
                },
            };
        }
        let attached: bool = match self.attached_interface {
            Some(interface_id) => interface_id == packet.interface_id,
            None => false,
        };
        if !attached {
            return PacketRole::Ignored;
        }
        match packet.context {
            PacketContext::ResourceHmu => PacketRole::HashmapUpdate,
            PacketContext::ResourceReq => PacketRole::ResourceRequest,
            PacketContext::ResourcePrf => PacketRole::ResourceProof,
            PacketContext::Response => if self.state == SyncTaskState::AwaitingResponse {
                PacketRole::Response
            } else {
                PacketRole::Ignored
            },
            PacketContext::ResourceRcl => PacketRole::ResourceCancel,
            PacketContext::ResourceIcl => PacketRole::ResourceCancel,
            PacketContext::LinkClose => PacketRole::LinkClose,
            _ => PacketRole::Ignored,
        }
    }

    /// Takes the end of a link, and tells whether it was the task's.
    pub fn handle_link_closed(&mut self, link_id: &DestinationHash) -> (closed: bool)
        ensures
            closed == (old(self)@.link_id == Some(*link_id)),
            final(self)@ == (if closed {
                old(self)@.link_closed()
            } else {
                old(self)@
            }),
    {
        if !is_link(&self.link_id, link_id) {
            return false;
        }
        self.close_transfer();
        true
    }

    /// Drops everything about the transfer and fails the sync.
    fn close_transfer(&mut self)
        ensures
            final(self)@ == old(self)@.link_closed(),
    {
        self.clear_transfer();
        self.transfer_preparation = Preparation::Absent;
        self.state = SyncTaskState::Failed;
    }

    /// Takes a proof of the link. A good one is given by the packet that reports
    /// the round trip, and has the link bound to the interface on which it came
    /// in; a bad one is noted.
    pub fn handle_link_proof(
        &mut self,
        mailbox: &mut SyncMailbox,
        proven: Option<Vec<u8>>,
        interface_id: u64,
    )
        ensures
            (Step { task: final(self)@, mailbox: final(mailbox)@ }) == (Step {
                task: old(self)@,
                mailbox: old(mailbox)@,
            }).proof_taken(proven, interface_id),
    {
        let rtt_data = match proven {
            Some(rtt_data) => rtt_data,
            None => {
                self.last_establish_error = Some("LrproofInvalid");
                return;
            },
        };
        match self.link_id {
            Some(link_id) => {
                if !self.queue_transport(
                    mailbox,
                    SyncTransport::BindLinkEndpoint { link_id, interface_id },
                ) {
                    self.state = SyncTaskState::Failed;
                    return;
                }
                self.pending_endpoint_bind = Some(PendingEndpointBind { interface_id, rtt_data });
                self.last_establish_error = None;
            },
            None => {
                self.last_establish_error = Some("LrproofInvalid");
                self.state = SyncTaskState::Failed;
            },
        }
    }

    /// Takes a packet, by its role and what the link made of it, and gives the
    /// messages that are to be read for it.
    pub fn handle_packet(
        &mut self,
        mailbox: &mut SyncMailbox,
        node: &mut PropagationNode,
        interface_id: u64,
        role: PacketRole,
        work: LinkWork,
    ) -> (plan: Option<TransferPlan>)
        requires
            old(node)@.wf(),
        ensures
            final(node)@.wf(),
            ({
                let after = EventStep::after_packet(
                    Step { task: old(self)@, mailbox: old(mailbox)@ },
                    old(node)@,
                    interface_id,
                    role,
                    work,
                );
                &&& (Step { task: final(self)@, mailbox: final(mailbox)@ }) == after.step
                &&& final(node)@ == after.node
                &&& is_plan(old(node)@, after.requested, plan)
            }),
    {
        match (role, work) {
            (PacketRole::UnknownIdentity, _) => {
                // A later proof, with the identity known by then, can still
                // establish the link.
                self.last_establish_error = Some("LrproofIdentityMissing");
            },
            (PacketRole::LinkProof { .. }, LinkWork::InvalidKey) => {
                self.last_establish_error = Some("LrproofInvalidKey");
                self.state = SyncTaskState::Failed;
            },
            (PacketRole::LinkProof { .. }, LinkWork::ProofInvalid) => {
                self.handle_link_proof(mailbox, None, interface_id);
            },
            (PacketRole::LinkProof { .. }, LinkWork::Proven(rtt_data)) => {
                self.handle_link_proof(mailbox, Some(rtt_data), interface_id);
            },
            (PacketRole::ResourceRequest, LinkWork::Request { request, actions }) => {
                self.handle_resource_request(mailbox, node, request.as_slice(), &actions);
            },
            (PacketRole::ResourceProof, LinkWork::ResourceProven) => {
                self.complete_active_transfer_segment(node);
            },
            (PacketRole::Response, LinkWork::Response(data)) => {
                let response = OfferResponse::from_msgpack(data.as_slice());
                return self.handle_offer_response(node, &response);
            },
            (PacketRole::ResourceCancel, LinkWork::Cancelled(hash)) => {
                self.handle_resource_cancel(hash.as_slice());
            },
            (PacketRole::LinkClose, LinkWork::Closed) => {
                self.close_transfer();
            },
            _ => {},
        }
        None
    }
}

/// The Ed25519 key of an identity.
pub(crate) fn signing_half(public_key: &[u8; 64]) -> (key: [u8; 32])
    ensures
        key == signing_key(public_key@),
{
    let half = slice_subrange(public_key.as_slice(), 32, 64);
    match id_from_bytes::<32>(half) {
        Some(key) => {
            proof {
                crate::ids::lemma_id_from_view(key, signing_key(public_key@));
            }
            key
        },
        None => [0;32],
    }
}

/// Only packets on the task's own link change it.
pub proof fn law_other_links_ignored(
    task: SyncTaskView,
    packet: InboundPacket,
    known: Map<DestinationHash, Seq<u8>>,
)
    requires
        task.link_id != Some(packet.destination_hash),
    ensures
        task.role_of(packet, known) is Ignored,
{
}

/// Before the link is bound to an interface, only its proof counts; afterwards,
/// only packets from that interface do.
pub proof fn law_bound_interface_decides(
    task: SyncTaskView,
    packet: InboundPacket,
    known: Map<DestinationHash, Seq<u8>>,
)
    requires
        task.attached_interface != Some(packet.interface_id),
        !proves_link(packet),
    ensures
        task.role_of(packet, known) is Ignored,
{
}

/// A proof that does not prove the link is noted, and stands in the way of
/// nothing: the task, its mailbox and the node are otherwise as before, and a
/// good proof that follows is taken as if the bad one had not come.
pub proof fn law_bad_proof_is_noted(
    step: Step,
    node: NodeView,
    bad_interface: u64,
    role: PacketRole,
    rtt_data: Vec<u8>,
    interface_id: u64,
)
    requires
        role is LinkProof,
    ensures
        ({
            let bad = EventStep::after_packet(
                step,
                node,
                bad_interface,
                role,
                LinkWork::ProofInvalid,
            );
            &&& bad.step.task.last_establish_error == Some("LrproofInvalid")
            &&& bad.step.task == (SyncTaskView {
                last_establish_error: Some("LrproofInvalid"),
                ..step.task
            })
            &&& bad.step.mailbox == step.mailbox
            &&& bad.node == node
            &&& bad.requested is None
            &&& step.task.link_id is Some && step.keeps() ==> bad.step.proof_taken(
                Some(rtt_data),
                interface_id,
            ) == step.proof_taken(Some(rtt_data), interface_id)
        }),
{
}

/// A packet without a role changes nothing.
pub proof fn law_ignored_changes_nothing(
    step: Step,
    node: NodeView,
    interface_id: u64,
    work: LinkWork,
)
    ensures
        ({
            let after = EventStep::after_packet(
                step,
                node,
                interface_id,
                PacketRole::Ignored,
                work,
            );
            after.step == step && after.node == node && after.requested is None
        }),
{
}

} // verus!
