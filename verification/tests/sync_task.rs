//! The task that syncs with a propagation node.

use std::cell::RefCell;
use std::collections::BTreeMap;
use std::collections::VecDeque;

use lxmf_propagation::node::{LxMessage, PropagationNode, PropagationNodeConfig};
use lxmf_propagation::offer::OfferResponse;
use lxmf_propagation::peer::LxmPeer;
use lxmf_propagation::sync::{prepare_sync_offer_snapshot, OutboundOfferPolicy};
use lxmf_propagation::sync_task::endpoint::{
    BindPoll, EndpointReports, Identification, SendPoll, UnbindPoll,
};
use lxmf_propagation::sync_task::events::{InboundPacket, KnownIdentities, LinkWork, PacketRole};
use lxmf_propagation::sync_task::lifecycle::{LinkAction, NewLink, TickAction};
use lxmf_propagation::sync_task::offer::{OfferInputs, OfferStage, TransferPlan};
use lxmf_propagation::sync_task::transfer::{
    prepare_transfer_batch, CancelType, Frame, TransferAction, TransferReports, WorkerPoll,
    HASHMAP_IS_EXHAUSTED,
};
use lxmf_propagation::sync_task::{
    PacketContext, PeerState, PeerSyncTerminalResult, PeerSyncTerminalState, Preparation,
    PropagationSyncTask, SyncMailbox, SyncPeer, SyncTaskState, SyncTransport, TransferHandle,
    TransferRate, PENDING_TRANSPORT_LIMIT,
};
use lxmf_propagation::tables::IdSet;
use rmpv::Value;
use rns_crypto::sha256::sha256;

/// Milliseconds since the epoch.
const NOW: u64 = 1_700_000_000_000;
const SECONDS: u64 = 1_700_000_000;

/// A task with its mailbox, its node and the node's files.
struct Rig {
    task: PropagationSyncTask,
    mailbox: SyncMailbox,
    node: PropagationNode,
    files: RefCell<BTreeMap<String, Vec<u8>>>,
}

impl Rig {
    fn new(free: usize) -> Rig {
        Rig::with_node(
            free,
            PropagationNode::new(PropagationNodeConfig::default(), [0xAA; 16]),
        )
    }

    fn with_storage(free: usize) -> Rig {
        let (node, _) = PropagationNode::with_storage(
            PropagationNodeConfig::default(),
            [0xAA; 16],
            "store".to_string(),
            &Vec::new(),
        );
        Rig::with_node(free, node)
    }

    fn with_node(free: usize, node: PropagationNode) -> Rig {
        Rig {
            task: PropagationSyncTask::new(NOW),
            mailbox: SyncMailbox::with_capacity(free),
            node,
            files: RefCell::new(BTreeMap::new()),
        }
    }

    fn accept(&mut self, message: &LxMessage) -> bool {
        let files = &self.files;
        self.node.accept_message(message, |path: &String, data: &Vec<u8>| {
            files.borrow_mut().insert(path.clone(), data.clone());
            true
        })
    }

    /// What is reported while nothing is known.
    fn quiet(&self) -> EndpointReports {
        EndpointReports {
            sends: self.task.pending_endpoint_sends.iter().map(|_| SendPoll::Waiting).collect(),
            releases: Vec::new(),
            ended: Vec::new(),
            bind: BindPoll::Waiting,
            identification: Identification::Unavailable,
            establishment_rate: None,
        }
    }

    /// Goes through a tick, and does what is to be done after it.
    fn tick_at(&mut self, now: u64) -> TickAction {
        let reports = self.quiet();
        let count = self.node.message_count();
        let next =
            self.task.tick(&mut self.mailbox, reports, LinkAction::Nothing, count, now);
        match next {
            TickAction::StartSync(node_hash) => {
                self.task.start_sync(&mut self.mailbox, node_hash, new_link(), now);
            }
            TickAction::FinishSync => self.task.finish_sync(&mut self.mailbox, None, now),
            _ => {}
        }
        next
    }

    fn tick(&mut self) -> TickAction {
        self.tick_at(NOW)
    }

    fn offer(&mut self) -> OfferStage {
        let (stage, record) = self.task.send_offer_request(
            &mut self.node,
            &OfferInputs { saved: None, has_worker: false },
            WorkerPoll::Waiting,
            SECONDS,
        );
        assert!(record.is_none());
        stage
    }

    fn drive(&mut self, actions: Vec<TransferAction>) {
        self.task.drive_transfers(
            &mut self.mailbox,
            &mut self.node,
            TransferReports { batch: WorkerPoll::Waiting, segments: Vec::new(), actions },
            NOW,
        );
    }

    fn packet(&mut self, role: PacketRole, work: LinkWork) -> Option<TransferPlan> {
        self.task.handle_packet(&mut self.mailbox, &mut self.node, 0, role, work)
    }

    /// Reads what a transfer needs.
    fn contents(&self, plan: &TransferPlan) -> Vec<Option<Vec<u8>>> {
        plan.reads.iter().map(|read| self.files.borrow().get(&read.path).cloned()).collect()
    }

    /// Grants the releases that are waited for, and tells whether the link is
    /// deregistered by then.
    fn complete_sync_cleanup(&mut self) -> bool {
        let mut reports = self.quiet();
        reports.releases =
            self.task.pending_endpoint_cleanups.iter().map(|_| UnbindPoll::Released).collect();
        self.task.poll_endpoint_control(&mut self.mailbox, reports, NOW);
        self.mailbox
            .sent
            .iter()
            .any(|message| matches!(message, SyncTransport::DeregisterDestination { .. }))
    }

    fn last_link_packet(&self) -> (PacketContext, Vec<u8>) {
        match self.mailbox.sent.last() {
            Some(SyncTransport::SendLinkEndpoint { context, body, .. }) => {
                (*context, body.clone())
            }
            other => panic!("expected Link packet, got {other:?}"),
        }
    }
}

fn new_link() -> NewLink {
    NewLink { link_id: [0x4C; 16], request_data: vec![0x11; 64] }
}

fn make_message(dest: [u8; 16], content: &str) -> LxMessage {
    let mut packed = dest.to_vec();
    packed.extend_from_slice(&[0x53; 80]);
    packed.extend_from_slice(content.as_bytes());
    let hash = sha256(&packed);
    LxMessage {
        destination_hash: dest,
        hash: Some(hash),
        transient_id: Some(hash),
        timestamp: SECONDS,
        stamp: None,
        packed: Some(packed),
    }
}

fn make_sync_due(task: &mut PropagationSyncTask) {
    task.sync_interval = 0;
    task.last_sync = NOW;
}

fn frame(data: &[u8]) -> Frame {
    let mut encrypted = data.to_vec();
    encrypted.reverse();
    encrypted.push(0xE0);
    Frame { data: data.to_vec(), encrypted: Some(encrypted) }
}

fn encrypted(data: &[u8]) -> Vec<u8> {
    frame(data).encrypted.unwrap()
}

fn transfer(resource_hash: [u8; 32]) -> TransferHandle {
    TransferHandle { resource_hash, total_size: 4096, advertised: false }
}

/// A task whose transfer is under way on a bound link.
fn transferring(link_id: [u8; 16], resource_hash: [u8; 32]) -> Rig {
    let mut rig = Rig::new(64);
    rig.task.link_id = Some(link_id);
    rig.task.attached_interface = Some(0);
    rig.task.active_transfer = Some(transfer(resource_hash));
    rig.task.state = SyncTaskState::Transferring;
    rig
}

#[test]
fn resource_packets_are_raw_while_advertisements_use_link_encryption() {
    let mut rig = Rig::new(4);
    rig.task.link_id = Some([0x42; 16]);
    rig.task.attached_interface = Some(0);

    let resource_part = b"already-encrypted-resource-part";
    rig.task.send_resource_packet(
        &mut rig.mailbox,
        &frame(resource_part),
        PacketContext::Resource,
    );
    let (context, body) = rig.last_link_packet();
    assert_eq!(context, PacketContext::Resource);
    assert_eq!(body, resource_part);

    let advertisement = b"resource-advertisement";
    rig.task.send_resource_packet(
        &mut rig.mailbox,
        &frame(advertisement),
        PacketContext::ResourceAdv,
    );
    let (context, body) = rig.last_link_packet();
    assert_eq!(context, PacketContext::ResourceAdv);
    assert_ne!(body, advertisement);
    assert_eq!(body, encrypted(advertisement));
}

#[test]
fn encrypted_resource_request_retransmits_map_compatible_part_raw() {
    let resource_hash = [0x5E; 32];
    let mut rig = transferring([0x44; 16], resource_hash);
    let expected_part = b"second part".to_vec();

    let mut request = vec![0x00];
    request.extend_from_slice(&resource_hash);
    request.extend_from_slice(&[0x01, 0x02, 0x03, 0x04]);
    let mut stale_request = request.clone();
    stale_request[1..33].fill(0xFF);

    assert!(!rig.task.accepts_resource_request(&stale_request));
    rig.packet(
        PacketRole::ResourceRequest,
        LinkWork::Request {
            request: stale_request,
            actions: vec![TransferAction::SendPart(frame(&expected_part))],
        },
    );
    assert!(rig.mailbox.sent.is_empty());

    assert!(rig.task.accepts_resource_request(&request));
    rig.packet(
        PacketRole::ResourceRequest,
        LinkWork::Request {
            request,
            actions: vec![TransferAction::SendPart(frame(&expected_part))],
        },
    );
    let (context, body) = rig.last_link_packet();
    assert_eq!(context, PacketContext::Resource);
    assert_eq!(body, expected_part);
    assert_eq!(rig.task.state, SyncTaskState::Transferring);
}

#[test]
fn exhausted_resource_request_sends_link_encrypted_hmu() {
    let resource_hash = [0x5F; 32];
    let mut rig = transferring([0x45; 16], resource_hash);
    let mut request = vec![HASHMAP_IS_EXHAUSTED];
    request.extend_from_slice(&[0x0A, 0x0B, 0x0C, 0x0D]);
    request.extend_from_slice(&resource_hash);

    let mut update = resource_hash.to_vec();
    update.extend_from_slice(&[0x92, 0x01, 0xC0]);
    rig.packet(
        PacketRole::ResourceRequest,
        LinkWork::Request { request, actions: vec![TransferAction::SendHmu(frame(&update))] },
    );

    let (context, body) = rig.last_link_packet();
    assert_eq!(context, PacketContext::ResourceHmu);
    assert_eq!(body, encrypted(&update));
    assert_eq!(rig.task.state, SyncTaskState::Transferring);
}

#[test]
fn invalid_exhausted_request_sends_encrypted_cancel_and_fails_closed() {
    let resource_hash = [0x60; 32];
    let mut rig = transferring([0x46; 16], resource_hash);
    rig.task.active_transfer_ids = vec![[0x66; 32]];
    let mut request = vec![HASHMAP_IS_EXHAUSTED];
    request.extend_from_slice(&[0x01, 0x01, 0x01, 0x01]);
    request.extend_from_slice(&resource_hash);

    rig.packet(
        PacketRole::ResourceRequest,
        LinkWork::Request {
            request,
            actions: vec![TransferAction::SendCancel(
                CancelType::Initiator,
                frame(&resource_hash),
            )],
        },
    );

    let (context, body) = rig.last_link_packet();
    assert_eq!(context, PacketContext::ResourceIcl);
    assert_eq!(body, encrypted(&resource_hash));
    assert_eq!(rig.task.state, SyncTaskState::Failed);
    assert!(rig.task.active_transfer.is_none());
    assert!(rig.task.active_transfer_ids.is_empty());
}

#[test]
fn inbound_resource_cancels_require_exact_active_segment_hash() {
    for context in [PacketContext::ResourceRcl, PacketContext::ResourceIcl] {
        let link_id = [0x47; 16];
        let resource_hash = [0x61; 32];
        let mut rig = transferring(link_id, resource_hash);
        rig.task.active_transfer_ids = vec![[0x77; 32]];
        let packet =
            InboundPacket { destination_hash: link_id, interface_id: 0, context, is_proof: false };
        let known = KnownIdentities::new();

        for stale in [vec![0xEE; 31], vec![0xEF; 32]] {
            let role = rig.task.packet_role(&packet, &known);
            rig.packet(role, LinkWork::Cancelled(stale));
        }
        assert_eq!(rig.task.state, SyncTaskState::Transferring);
        assert!(rig.task.active_transfer.is_some());

        let role = rig.task.packet_role(&packet, &known);
        rig.packet(role, LinkWork::Cancelled(resource_hash.to_vec()));
        assert_eq!(rig.task.state, SyncTaskState::Failed);
        assert!(rig.task.active_transfer.is_none());
        assert!(rig.task.active_transfer_ids.is_empty());
    }
}

#[test]
fn aggregate_above_single_resource_limit_uses_ordered_encrypted_segments() {
    let mut rig = Rig::new(4);
    rig.task.state = SyncTaskState::Transferring;
    rig.task.node_dest_hash = Some([0x43; 16]);
    rig.task.active_transfer = Some(transfer([0x01; 32]));
    rig.task.pending_transfer_segments = VecDeque::from(vec![transfer([0x02; 32])]);
    rig.task.active_transfer_ids = vec![[0x55; 32]];

    rig.task.complete_active_transfer_segment(&mut rig.node);
    assert_eq!(rig.task.state, SyncTaskState::Transferring);
    assert!(rig.task.take_handled_updates().is_empty());
    assert!(rig.task.pending_transfer_segments.is_empty());
    assert_eq!(rig.task.active_transfer.unwrap().resource_hash, [0x02; 32]);

    rig.task.complete_active_transfer_segment(&mut rig.node);
    assert_eq!(rig.task.state, SyncTaskState::Complete);
    assert_eq!(rig.task.take_handled_updates(), vec![[0x55; 32]]);
    assert!(rig.task.active_transfer.is_none());
}

#[test]
fn test_sync_task_creation() {
    let rig = Rig::new(16);
    assert_eq!(rig.task.state, SyncTaskState::Idle);
    assert_eq!(rig.node.message_count(), 0);
}

#[test]
fn test_set_node() {
    let mut rig = Rig::new(16);
    assert!(rig.task.node_dest_hash.is_none());
    rig.task.set_node([0xBB; 16]);
    assert_eq!(rig.task.node_dest_hash, Some([0xBB; 16]));
}

#[test]
fn propagation_sync_test_accept_message() {
    let mut rig = Rig::new(16);
    let msg = make_message([0xBB; 16], "sync test content");
    assert!(rig.accept(&msg));
    assert_eq!(rig.node.message_count(), 1);
}

#[test]
fn test_shared_node_store_is_live() {
    let mut rig = Rig::new(64);
    rig.task.set_node([0xBB; 16]);
    make_sync_due(&mut rig.task);
    assert_eq!(rig.node.message_count(), 0);

    let msg = make_message([0xBB; 16], "shared node content");
    assert!(rig.accept(&msg));
    assert_eq!(rig.node.message_count(), 1);

    rig.tick();
    assert_eq!(rig.task.state, SyncTaskState::Establishing);
    assert!(matches!(rig.mailbox.sent[0], SyncTransport::RegisterDestination { .. }));
}

#[test]
fn test_idle_no_node_configured() {
    let mut rig = Rig::new(16);
    rig.tick();
    assert_eq!(rig.task.state, SyncTaskState::Idle);
}

#[test]
fn test_idle_no_messages() {
    let mut rig = Rig::new(16);
    rig.task.set_node([0xBB; 16]);
    make_sync_due(&mut rig.task);
    rig.tick();
    assert_eq!(rig.task.state, SyncTaskState::Idle);
}

/// A rig whose tick has just started a sync.
fn started() -> Rig {
    let mut rig = Rig::new(64);
    rig.task.set_node([0xBB; 16]);
    make_sync_due(&mut rig.task);
    let msg = make_message([0xBB; 16], "content");
    rig.accept(&msg);
    rig.tick();
    rig
}

#[test]
fn test_starts_sync_when_ready() {
    let rig = started();
    assert_eq!(rig.task.state, SyncTaskState::Establishing);
    assert!(rig.task.link_id.is_some());
    assert!(matches!(rig.mailbox.sent[0], SyncTransport::RegisterDestination { .. }));
    assert!(matches!(rig.mailbox.sent[1], SyncTransport::LinkRequest { .. }));
}

#[test]
fn test_sync_timeout() {
    let mut rig = started();
    assert_eq!(rig.task.state, SyncTaskState::Establishing);

    rig.task.sync_timeout = 0;
    rig.tick_at(NOW + 1);
    assert_eq!(rig.task.state, SyncTaskState::Idle);
    assert_eq!(
        rig.task.take_terminal_peer_result().unwrap().state,
        PeerSyncTerminalState::Failed
    );
}

#[test]
fn healthy_resource_transfer_has_no_absolute_whole_sync_timeout() {
    let mut rig = transferring([0x31; 16], [0x62; 32]);
    rig.task.sync_started = Some(NOW - 600_000);
    rig.task.sync_timeout = 0;

    assert!(matches!(rig.tick(), TickAction::DriveTransfers));
    rig.drive(vec![TransferAction::SendAdvertisement(frame(b"advertisement"))]);

    assert_eq!(rig.task.state, SyncTaskState::Transferring);
    assert_eq!(rig.last_link_packet().0, PacketContext::ResourceAdv);
}

#[test]
fn resource_advertisement_is_retried_while_waiting_for_first_request() {
    let mut rig = transferring([0x32; 16], [0x63; 32]);

    assert!(matches!(rig.tick(), TickAction::DriveTransfers));
    rig.drive(vec![TransferAction::SendAdvertisement(frame(b"advertisement"))]);
    assert_eq!(rig.mailbox.sent.len(), 1);

    rig.task.active_transfer.as_mut().unwrap().advertised = true;
    assert!(rig.task.awaits_first_request());
    assert!(matches!(rig.tick_at(NOW + 60_000), TickAction::DriveTransfers));
    rig.drive(vec![TransferAction::SendAdvertisement(frame(b"advertisement"))]);
    assert_eq!(rig.mailbox.sent.len(), 2);
    assert_eq!(rig.last_link_packet().0, PacketContext::ResourceAdv);
}

#[test]
fn full_transport_mailbox_stages_link_setup_without_packet_loss() {
    let mut rig = Rig::new(0);
    assert!(rig.task.request_sync_now(&mut rig.mailbox, [0xBB; 16], new_link(), NOW));
    assert_eq!(rig.task.pending_transport.len(), 2);

    rig.mailbox.free = 1;
    rig.tick();
    assert!(matches!(rig.mailbox.sent[0], SyncTransport::RegisterDestination { .. }));
    assert_eq!(rig.task.pending_transport.len(), 1);

    rig.mailbox.free = 1;
    rig.tick();
    assert!(matches!(rig.mailbox.sent[1], SyncTransport::LinkRequest { .. }));
    assert!(rig.task.pending_transport.is_empty());
}

#[test]
fn propagation_sync_staging_is_finite_fifo_and_overflow_fails_only_task() {
    let mut rig = Rig::new(0);
    rig.task.state = SyncTaskState::Offering;
    for index in 0..PENDING_TRANSPORT_LIMIT {
        assert!(rig.task.queue_transport(
            &mut rig.mailbox,
            SyncTransport::DeregisterDestination { hash: [(index & 0xff) as u8; 16] },
        ));
    }
    let first_hash = match rig.task.pending_transport.front().unwrap() {
        SyncTransport::DeregisterDestination { hash } => *hash,
        _ => unreachable!(),
    };
    assert!(!rig.task.queue_transport(
        &mut rig.mailbox,
        SyncTransport::DeregisterDestination { hash: [0xFF; 16] },
    ));
    assert_eq!(rig.task.pending_transport.len(), 256);
    assert_eq!(first_hash, [0; 16]);
    assert_eq!(rig.task.state, SyncTaskState::Failed);
}

fn establishing(node_hash: [u8; 16]) -> Rig {
    let mut rig = Rig::new(64);
    rig.task.node_dest_hash = Some(node_hash);
    rig.task.link_id = Some([0x4C; 16]);
    rig.task.peer = Some(SyncPeer {
        destination_hash: node_hash,
        state: PeerState::LinkEstablishing,
        handled_messages: IdSet::new(),
    });
    rig.task.state = SyncTaskState::Establishing;
    rig
}

#[test]
fn invalid_sync_lrproof_allows_later_valid_interface_binding() {
    let node_hash = [0xB5; 16];
    let mut rig = establishing(node_hash);
    let mut known = KnownIdentities::new();
    known.insert(node_hash, [0x33; 64]);
    let proof = |interface_id: u64| InboundPacket {
        destination_hash: [0x4C; 16],
        interface_id,
        context: PacketContext::Lrproof,
        is_proof: true,
    };

    let role = rig.task.packet_role(&proof(11), &known);
    assert!(matches!(role, PacketRole::LinkProof { verify_key } if verify_key == [0x33; 32]));
    // The first proof does not prove the link.
    rig.task.handle_packet(&mut rig.mailbox, &mut rig.node, 11, role, LinkWork::ProofInvalid);
    assert_eq!(rig.task.state, SyncTaskState::Establishing);
    assert_eq!(rig.task.last_establish_error, Some("LrproofInvalid"));
    assert!(rig.task.pending_endpoint_bind.is_none());
    assert!(rig.mailbox.sent.is_empty());

    let role = rig.task.packet_role(&proof(12), &known);
    rig.task.handle_packet(
        &mut rig.mailbox,
        &mut rig.node,
        12,
        role,
        LinkWork::Proven(vec![0x01]),
    );
    assert_eq!(rig.mailbox.sent.len(), 1);
    match rig.mailbox.sent[0] {
        SyncTransport::BindLinkEndpoint { interface_id, .. } => assert_eq!(interface_id, 12),
        _ => panic!("valid proof must bind before post-proof traffic"),
    }
    assert_eq!(rig.task.last_establish_error, None);
}

#[test]
fn propagation_sync_rejects_wrong_interface_before_decrypt_or_state_change() {
    let link_id = [0x48; 16];
    let mut rig = transferring(link_id, [0x64; 32]);
    rig.task.attached_interface = Some(4);
    rig.task.active_transfer_ids = vec![[0x77; 32]];
    let packet = InboundPacket {
        destination_hash: link_id,
        interface_id: 5,
        context: PacketContext::ResourceRcl,
        is_proof: false,
    };

    let role = rig.task.packet_role(&packet, &KnownIdentities::new());
    assert!(matches!(role, PacketRole::Ignored));
    rig.packet(role, LinkWork::Cancelled(vec![0x64; 32]));
    assert_eq!(rig.task.state, SyncTaskState::Transferring);
    assert!(rig.task.active_transfer.is_some());
}

#[test]
fn test_cleanup_deregisters() {
    let mut rig = started();
    rig.mailbox.sent.clear();

    rig.task.state = SyncTaskState::Complete;
    rig.tick();
    assert!(rig.complete_sync_cleanup());
}

#[test]
fn rejected_endpoint_send_fails_the_sync_owner() {
    let mut rig = Rig::new(64);
    rig.task.link_id = Some([0xD8; 16]);
    rig.task.state = SyncTaskState::Offering;
    assert!(rig.task.queue_link_endpoint(
        &mut rig.mailbox,
        PacketContext::Keepalive,
        vec![0x01],
    ));
    assert!(matches!(rig.mailbox.sent[0], SyncTransport::SendLinkEndpoint { .. }));

    let mut reports = rig.quiet();
    reports.sends = vec![SendPoll::Rejected];
    rig.task.poll_endpoint_control(&mut rig.mailbox, reports, NOW);
    assert_eq!(rig.task.state, SyncTaskState::Failed);
}

fn awaiting_response(node_hash: [u8; 16], link_id: [u8; 16]) -> Rig {
    let mut rig = Rig::new(64);
    rig.task.set_node(node_hash);
    rig.task.link_id = Some(link_id);
    rig.task.attached_interface = Some(0);
    rig.task.state = SyncTaskState::AwaitingResponse;
    rig.task.sync_started = Some(NOW);
    rig
}

#[test]
fn test_authenticated_remote_link_close_fails_and_cleans_up() {
    let link_id = [0x4D; 16];
    let mut rig = awaiting_response([0xE3; 16], link_id);
    let packet = InboundPacket {
        destination_hash: link_id,
        interface_id: 0,
        context: PacketContext::LinkClose,
        is_proof: false,
    };

    let role = rig.task.packet_role(&packet, &KnownIdentities::new());
    rig.packet(role, LinkWork::Closed);
    assert_eq!(rig.task.state, SyncTaskState::Failed);

    rig.tick();
    assert_eq!(rig.task.state, SyncTaskState::Idle);
    assert!(rig.task.link_id.is_none());
    assert!(rig.complete_sync_cleanup());
}

#[test]
fn test_unauthenticated_link_close_is_ignored() {
    let link_id = [0x4E; 16];
    let mut rig = awaiting_response([0xE4; 16], link_id);

    // The link makes nothing of a packet that its other end did not send.
    rig.packet(PacketRole::LinkClose, LinkWork::Nothing);
    assert_eq!(rig.task.state, SyncTaskState::AwaitingResponse);
    assert!(rig.task.link_id.is_some());
}

#[test]
fn test_handle_offer_response_have_all() {
    let mut rig = Rig::new(16);
    rig.task.set_node([0xBB; 16]);
    rig.task.state = SyncTaskState::AwaitingResponse;

    assert!(rig.task.handle_offer_response(&mut rig.node, &OfferResponse::HaveAll).is_none());
    assert_eq!(rig.task.state, SyncTaskState::Complete);
}

#[test]
fn empty_policy_selection_completes_without_sending_offer_request() {
    let mut rig = Rig::new(16);
    let message = make_message([0xBB; 16], "already handled");
    let transient_id = message.transient_id.unwrap();
    assert!(rig.accept(&message));

    let node_hash = [0xDD; 16];
    rig.task.set_node(node_hash);
    rig.task.link_id = Some([0x4F; 16]);
    rig.task.state = SyncTaskState::Offering;
    let mut policy = OutboundOfferPolicy::unrestricted(node_hash);
    policy.handled_messages.insert(transient_id);
    rig.task.offer_policy = Some(policy);

    assert!(matches!(rig.offer(), OfferStage::Over));

    assert_eq!(rig.task.state, SyncTaskState::Complete);
    assert!(rig.mailbox.sent.is_empty(), "empty offer must not emit a request");
}

#[test]
fn production_policy_preparation_runs_through_bounded_worker() {
    let mut rig = Rig::new(16);
    let message = make_message([0xBB; 16], "already handled async");
    let transient_id = message.transient_id.unwrap();
    assert!(rig.accept(&message));

    let node_hash = [0xDD; 16];
    rig.task.set_node(node_hash);
    rig.task.state = SyncTaskState::Offering;
    let mut policy = OutboundOfferPolicy::unrestricted(node_hash);
    policy.handled_messages.insert(transient_id);
    rig.task.offer_policy = Some(policy);

    let inputs = OfferInputs { saved: None, has_worker: true };
    let (stage, _) =
        rig.task.send_offer_request(&mut rig.node, &inputs, WorkerPoll::Waiting, SECONDS);
    let OfferStage::Prepare(snapshot) = stage else {
        panic!("a worker has to choose the offer");
    };
    assert!(matches!(rig.task.offer_preparation, Preparation::Pending));

    let (stage, _) =
        rig.task.send_offer_request(&mut rig.node, &inputs, WorkerPoll::Waiting, SECONDS);
    assert!(matches!(stage, OfferStage::Wait));
    assert_eq!(rig.task.state, SyncTaskState::Offering);

    let prepared = prepare_sync_offer_snapshot(snapshot, &[]);
    rig.task.send_offer_request(&mut rig.node, &inputs, WorkerPoll::Done(prepared), SECONDS);
    assert_eq!(rig.task.state, SyncTaskState::Complete);
    assert!(rig.mailbox.sent.is_empty());
}

#[test]
fn terminal_offer_filters_are_exposed_and_complete_without_wire_offer() {
    let mut rig = Rig::new(16);
    let node_hash = [0xDD; 16];
    let low = vec![0x11; 64];
    let oversized = vec![0x22; 700];
    let unwritten = |_: &String, _: &Vec<u8>| -> bool { panic!("nothing is written") };
    assert!(rig.node.accept_propagated_blob(&low, 9, SECONDS, unwritten));
    assert!(rig.node.accept_propagated_blob(&oversized, 20, SECONDS, unwritten));
    let mut policy = OutboundOfferPolicy::unrestricted(node_hash);
    policy.minimum_stamp_cost = 10;
    policy.propagation_transfer_limit = Some(500);
    rig.task.set_node(node_hash);
    rig.task.offer_policy = Some(policy);
    rig.task.state = SyncTaskState::Offering;

    rig.offer();

    let mut updates = rig.task.take_handled_updates();
    updates.sort();
    let mut expected = vec![sha256(&low), sha256(&oversized)];
    expected.sort();
    assert_eq!(updates, expected);
    assert_eq!(rig.task.state, SyncTaskState::Complete);
    assert!(rig.task.generation_exhausted);
    assert!(rig.mailbox.sent.is_empty());
}

/// A rig whose node offered two messages.
fn offered_two(node_hash: [u8; 16], contents: [&str; 2]) -> (Rig, Vec<[u8; 32]>) {
    let mut rig = Rig::with_storage(16);
    for content in contents {
        assert!(rig.accept(&make_message([0xCC; 16], content)));
    }
    let policy = OutboundOfferPolicy::unrestricted(node_hash);
    rig.node.prepare_sync_offer_with_policy(&policy, None, SECONDS);
    let offered = rig.node.get_session(&node_hash).unwrap().offered_ids.clone();
    rig.task.set_node(node_hash);
    rig.task.offer_policy = Some(policy);
    (rig, offered)
}

#[test]
fn have_all_exposes_every_offered_id_for_authoritative_persistence() {
    let (mut rig, offered) = offered_two([0xBB; 16], ["first", "second"]);

    rig.task.handle_offer_response(&mut rig.node, &OfferResponse::HaveAll);

    assert_eq!(rig.task.state, SyncTaskState::Complete);
    let mut updates = rig.task.take_handled_updates();
    updates.sort();
    let mut expected = offered;
    expected.sort();
    assert_eq!(updates, expected);
}

#[test]
fn want_some_is_intersected_with_offer_and_marks_complement_handled() {
    let (mut rig, offered) = offered_two([0xBB; 16], ["first", "second"]);
    assert_eq!(offered.len(), 2);
    let wanted = offered[0];
    let already_handled = offered[1];

    let plan = rig
        .task
        .handle_offer_response(
            &mut rig.node,
            &OfferResponse::WantSome(vec![wanted.to_vec(), vec![0xEF; 32], wanted.to_vec()]),
        )
        .expect("messages to read");

    assert_eq!(rig.task.state, SyncTaskState::Transferring);
    let batch = prepare_transfer_batch(&plan, &rig.contents(&plan), NOW);
    assert_eq!(batch.transient_ids, vec![wanted]);
    assert_eq!(rig.task.take_handled_updates(), vec![already_handled]);
}

#[test]
fn test_handle_offer_response_error() {
    let mut rig = Rig::new(16);
    rig.task.set_node([0xBB; 16]);
    rig.task.state = SyncTaskState::AwaitingResponse;

    rig.task.handle_offer_response(&mut rig.node, &OfferResponse::ErrorNoAccess);
    assert_eq!(rig.task.state, SyncTaskState::Failed);
}

#[test]
fn test_handle_offer_response_want_all_no_storage() {
    let mut rig = Rig::new(16);
    rig.task.set_node([0xBB; 16]);
    rig.task.state = SyncTaskState::AwaitingResponse;
    rig.accept(&make_message([0xBB; 16], "content"));

    rig.task.handle_offer_response(&mut rig.node, &OfferResponse::WantAll);
    assert_eq!(rig.task.state, SyncTaskState::Complete);
}

#[test]
fn test_handle_offer_response_want_some() {
    let mut rig = Rig::new(16);
    rig.task.set_node([0xBB; 16]);
    rig.task.state = SyncTaskState::AwaitingResponse;

    let wanted = vec![vec![0x11; 32], vec![0x22; 32]];
    rig.task.handle_offer_response(&mut rig.node, &OfferResponse::WantSome(wanted));
    assert_eq!(rig.task.state, SyncTaskState::Complete);
}

#[test]
fn test_handle_offer_response_want_some_with_storage() {
    let mut rig = Rig::with_storage(16);
    rig.task.set_node([0xBB; 16]);
    rig.task.state = SyncTaskState::AwaitingResponse;

    let msg = make_message([0xBB; 16], "want some content");
    let tid = msg.transient_id.unwrap();
    rig.accept(&msg);
    let policy = OutboundOfferPolicy::unrestricted([0xBB; 16]);
    rig.node.prepare_sync_offer_with_policy(&policy, None, SECONDS);
    rig.task.offer_policy = Some(policy);

    let plan = rig
        .task
        .handle_offer_response(&mut rig.node, &OfferResponse::WantSome(vec![tid.to_vec()]))
        .expect("messages to read");
    assert_eq!(rig.task.state, SyncTaskState::Transferring);
    let batch = prepare_transfer_batch(&plan, &rig.contents(&plan), NOW);
    assert_eq!(batch.transient_ids, vec![tid]);
    let decoded = rmpv::decode::read_value(&mut &batch.payload[..]).unwrap();
    let outer = decoded.as_array().unwrap();
    assert_eq!(outer.len(), 2);
    assert_eq!(outer[0].as_f64(), Some(1_700_000_000.0));
    let blobs = outer[1].as_array().unwrap();
    assert_eq!(blobs.len(), 1, "one Resource carries the exact blob batch");
    assert_eq!(blobs[0], Value::Binary(msg.packed.unwrap()));
}

#[test]
fn want_all_builds_one_timestamped_resource_batch_and_waits_for_proof() {
    let (mut rig, _) = offered_two([0xBB; 16], ["one", "two"]);
    rig.task.state = SyncTaskState::AwaitingResponse;

    let plan = rig
        .task
        .handle_offer_response(&mut rig.node, &OfferResponse::WantAll)
        .expect("messages to read");
    let batch = prepare_transfer_batch(&plan, &rig.contents(&plan), NOW + 500);
    assert_eq!(batch.transient_ids.len(), 2);
    let decoded = rmpv::decode::read_value(&mut &batch.payload[..]).unwrap();
    let outer = decoded.as_array().unwrap();
    assert_eq!(outer.len(), 2);
    assert_eq!(outer[0].as_f64(), Some(1_700_000_000.5));
    assert_eq!(outer[1].as_array().unwrap().len(), 2);
    assert!(
        rig.task.take_handled_updates().is_empty(),
        "wanted IDs converge only after the batch Resource is proven"
    );
}

fn failed_result(peer_hash: [u8; 16]) -> PeerSyncTerminalResult {
    PeerSyncTerminalResult {
        peer_hash,
        state: PeerSyncTerminalState::Failed,
        offer_generation: None,
        generation_exhausted: false,
        offered: 0,
        outgoing: 0,
        tx_bytes: 0,
        link_establishment_rate: None,
        sync_transfer_rate: None,
    }
}

#[test]
fn vanished_requested_file_fails_retryably_for_peer_backoff() {
    let node_hash = [0xBB; 16];
    let mut rig = Rig::with_storage(16);
    rig.task.set_node(node_hash);
    assert!(rig.accept(&make_message([0xCC; 16], "vanish")));
    let policy = OutboundOfferPolicy::unrestricted(node_hash);
    rig.node.prepare_sync_offer_with_policy(&policy, None, SECONDS);
    let generation = rig.node.offer_generation();
    rig.files.borrow_mut().clear();

    rig.task.offer_policy = Some(policy);
    rig.task.active_offer_generation = Some(generation);
    rig.task.generation_exhausted = true;
    rig.task.state = SyncTaskState::AwaitingResponse;
    let plan = rig
        .task
        .handle_offer_response(&mut rig.node, &OfferResponse::WantAll)
        .expect("messages to read");
    assert_eq!(plan.reads.len(), 1);
    let batch = prepare_transfer_batch(&plan, &rig.contents(&plan), NOW);
    assert!(batch.transient_ids.is_empty());
    rig.task.drive_transfers(
        &mut rig.mailbox,
        &mut rig.node,
        TransferReports {
            batch: WorkerPoll::Done(batch),
            segments: Vec::new(),
            actions: Vec::new(),
        },
        NOW,
    );

    assert_eq!(rig.task.state, SyncTaskState::Failed);
    assert!(!rig.task.generation_exhausted);
    assert!(rig.task.take_handled_updates().is_empty());
    rig.tick();
    assert_eq!(rig.task.take_terminal_peer_result(), Some(failed_result(node_hash)));
}

#[test]
fn test_peer_created_on_sync_start() {
    let mut rig = Rig::new(64);
    rig.task.set_node([0xBB; 16]);
    make_sync_due(&mut rig.task);
    assert!(rig.task.peer().is_none());
    rig.accept(&make_message([0xBB; 16], "content"));

    rig.tick();
    assert_eq!(rig.task.state, SyncTaskState::Establishing);
    let peer = rig.task.peer().expect("peer should exist after sync start");
    assert_eq!(peer.destination_hash, [0xBB; 16]);
    assert_eq!(peer.state, PeerState::LinkEstablishing);
}

#[test]
fn request_sync_now_starts_without_waiting_for_interval() {
    let mut rig = Rig::new(64);
    rig.task.request_sync_now(&mut rig.mailbox, [0xBB; 16], new_link(), NOW);

    assert_eq!(rig.task.node_dest_hash(), Some([0xBB; 16]));
    assert_eq!(rig.task.state, SyncTaskState::Establishing);
    let peer = rig.task.peer().expect("peer should exist after forced sync");
    assert_eq!(peer.destination_hash, [0xBB; 16]);
}

#[test]
fn active_sync_rejects_different_request_without_mutating_target_or_policy() {
    let mut rig = Rig::new(64);
    let policy_a = OutboundOfferPolicy::unrestricted([0xA1; 16]);
    let policy_b = OutboundOfferPolicy::unrestricted([0xB2; 16]);
    assert!(rig.task.request_sync_now_with_policy(&mut rig.mailbox, policy_a, new_link(), NOW));
    assert!(!rig.task.request_sync_now_with_policy(&mut rig.mailbox, policy_b, new_link(), NOW));
    assert_eq!(rig.task.node_dest_hash(), Some([0xA1; 16]));
    assert_eq!(rig.task.offer_policy.as_ref().unwrap().peer_hash, [0xA1; 16]);
}

#[test]
fn cancel_peer_sync_clears_active_pending_and_session_state() {
    let mut rig = Rig::new(64);
    let peer_hash = [0xA1; 16];
    assert!(rig.task.request_sync_now_with_policy(
        &mut rig.mailbox,
        OutboundOfferPolicy::unrestricted(peer_hash),
        new_link(),
        NOW,
    ));
    rig.task.handled_updates.push([0x44; 32]);
    rig.node.start_session(peer_hash);

    assert!(rig.task.cancel_peer_sync(&mut rig.mailbox, &mut rig.node, &peer_hash, None));
    assert_eq!(rig.task.state, SyncTaskState::Idle);
    assert_eq!(rig.task.node_dest_hash(), None);
    assert!(rig.task.offer_policy.is_none());
    assert!(rig.task.take_handled_updates().is_empty());
    assert!(rig.node.get_session(&peer_hash).is_none());
}

#[test]
fn terminal_results_advance_generation_only_on_success_and_must_be_drained() {
    let mut rig = Rig::new(64);
    rig.task.node_dest_hash = Some([0xA1; 16]);
    rig.task.active_offer_generation = Some(7);
    rig.task.generation_exhausted = false;
    rig.task.state = SyncTaskState::Complete;
    rig.tick();
    assert!(!rig.task.request_sync_now(&mut rig.mailbox, [0xB2; 16], new_link(), NOW));
    assert_eq!(
        rig.task.take_terminal_peer_result(),
        Some(PeerSyncTerminalResult {
            peer_hash: [0xA1; 16],
            state: PeerSyncTerminalState::Complete,
            offer_generation: Some(7),
            generation_exhausted: false,
            offered: 0,
            outgoing: 0,
            tx_bytes: 0,
            link_establishment_rate: None,
            sync_transfer_rate: None,
        })
    );

    assert!(rig.task.request_sync_now(&mut rig.mailbox, [0xB2; 16], new_link(), NOW));
    rig.task.state = SyncTaskState::Failed;
    rig.tick();
    assert_eq!(rig.task.take_terminal_peer_result(), Some(failed_result([0xB2; 16])));
}

#[test]
fn terminal_result_carries_python_peer_accounting_deltas() {
    let mut rig = Rig::new(64);
    rig.task.node_dest_hash = Some([0xC3; 16]);
    rig.task.offered_count = 11;
    rig.task.outgoing_count = 7;
    rig.task.transfer_data_size = 4096;
    rig.task.transfer_wire_size = 1000;
    rig.task.transfer_started = Some(NOW - 2_000);
    rig.task.link_establishment_rate = Some(1234.0f64.to_bits());
    rig.task.state = SyncTaskState::Complete;

    rig.tick();
    let result = rig.task.take_terminal_peer_result().unwrap();
    assert_eq!(result.offered, 11);
    assert_eq!(result.outgoing, 7);
    assert_eq!(result.tx_bytes, 4096);
    assert_eq!(result.link_establishment_rate, Some(1234.0f64.to_bits()));
    assert_eq!(
        result.sync_transfer_rate,
        Some(TransferRate { wire_bytes: 1000, elapsed_ms: 2_000 })
    );
    assert!(result.sync_transfer_rate.is_some_and(|rate| {
        rate.wire_bytes as f64 * 8.0 / (rate.elapsed_ms as f64 / 1000.0) > 3_900.0
    }));
}

#[test]
fn link_identify_is_emitted_after_rtt_and_before_offer_request() {
    let node_hash = [0xB2; 16];
    let mut rig = establishing(node_hash);
    assert!(rig.accept(&make_message([0xCC; 16], "identify ordering")));
    rig.task.offer_policy = Some(OutboundOfferPolicy::unrestricted(node_hash));

    rig.packet(
        PacketRole::LinkProof { verify_key: [0x33; 32] },
        LinkWork::Proven(vec![0x77]),
    );
    assert!(matches!(rig.mailbox.sent[0], SyncTransport::BindLinkEndpoint { .. }));
    let mut reports = rig.quiet();
    reports.bind = BindPoll::Bound;
    reports.identification = Identification::Packet(vec![0x88]);
    rig.task.poll_endpoint_control(&mut rig.mailbox, reports, NOW);
    let OfferStage::Request(body) = rig.offer() else {
        panic!("an offer has to be requested");
    };
    rig.task.offer_requested(&mut rig.mailbox, Some(body), NOW);

    let contexts: Vec<PacketContext> = rig
        .mailbox
        .sent
        .iter()
        .filter_map(|message| match message {
            SyncTransport::SendLinkEndpoint { context, .. } => Some(*context),
            _ => None,
        })
        .collect();
    assert_eq!(
        contexts,
        vec![PacketContext::Lrrtt, PacketContext::LinkIdentify, PacketContext::Request]
    );
}

#[test]
fn test_peer_cleared_on_cleanup() {
    let mut rig = started();
    assert!(rig.task.peer().is_some());

    rig.task.state = SyncTaskState::Complete;
    rig.tick();
    assert!(rig.task.peer().is_none());
}

#[test]
fn each_refusal_of_an_offer_is_named() {
    let refusals = [
        (OfferResponse::ErrorNoIdentity, "ErrorNoIdentity"),
        (OfferResponse::ErrorNoAccess, "ErrorNoAccess"),
        (OfferResponse::ErrorInvalidKey, "ErrorInvalidKey"),
        (OfferResponse::ErrorThrottled, "ErrorThrottled"),
        (OfferResponse::ErrorInvalidData, "ErrorInvalidData"),
        (OfferResponse::ErrorInvalidStamp, "ErrorInvalidStamp"),
        (OfferResponse::Unknown, "Unknown"),
    ];
    for (response, name) in refusals {
        let (mut rig, _) = offered_two([0xC7; 16], ["first", "second"]);
        rig.task.state = SyncTaskState::AwaitingResponse;
        let before = rig.node.message_count();
        assert!(rig.task.handle_offer_response(&mut rig.node, &response).is_none());
        assert_eq!(rig.task.state, SyncTaskState::Failed);
        assert_eq!(rig.task.last_offer_error, Some(name));
        assert!(rig.task.take_handled_updates().is_empty());
        assert_eq!(rig.node.message_count(), before);
    }
}

#[test]
fn proof_of_an_unknown_identity_leaves_the_link_waiting() {
    let node_hash = [0xB5; 16];
    let mut rig = establishing(node_hash);
    let proof = InboundPacket {
        destination_hash: [0x4C; 16],
        interface_id: 11,
        context: PacketContext::Lrproof,
        is_proof: true,
    };
    let role = rig.task.packet_role(&proof, &KnownIdentities::new());
    assert!(matches!(role, PacketRole::UnknownIdentity));
    rig.packet(role, LinkWork::Nothing);
    assert_eq!(rig.task.state, SyncTaskState::Establishing);
    assert_eq!(rig.task.last_establish_error, Some("LrproofIdentityMissing"));
}

#[test]
fn proof_key_that_is_no_key_fails_the_sync() {
    let mut rig = establishing([0xB5; 16]);
    rig.packet(PacketRole::LinkProof { verify_key: [0x33; 32] }, LinkWork::InvalidKey);
    assert_eq!(rig.task.state, SyncTaskState::Failed);
    assert_eq!(rig.task.last_establish_error, Some("LrproofInvalidKey"));
    assert!(rig.mailbox.sent.is_empty());
}

#[test]
fn proof_without_a_link_fails_the_sync() {
    let mut rig = Rig::new(4);
    rig.task.state = SyncTaskState::Establishing;
    rig.packet(PacketRole::LinkProof { verify_key: [0x33; 32] }, LinkWork::Proven(vec![1]));
    assert_eq!(rig.task.state, SyncTaskState::Failed);
    assert_eq!(rig.task.last_establish_error, Some("LrproofInvalid"));
}

#[test]
fn packets_of_other_links_are_nothing_to_the_task() {
    let mut rig = transferring([0x48; 16], [0x64; 32]);
    rig.task.attached_interface = Some(4);
    let contexts = [
        PacketContext::ResourceReq,
        PacketContext::ResourceHmu,
        PacketContext::ResourcePrf,
        PacketContext::ResourceIcl,
        PacketContext::ResourceRcl,
        PacketContext::Response,
        PacketContext::LinkClose,
        PacketContext::Lrproof,
    ];
    for context in contexts {
        let packet = InboundPacket {
            destination_hash: [0x49; 16],
            interface_id: 4,
            context,
            is_proof: false,
        };
        let role = rig.task.packet_role(&packet, &KnownIdentities::new());
        assert!(matches!(role, PacketRole::Ignored));
    }
    assert_eq!(rig.task.state, SyncTaskState::Transferring);
}

#[test]
fn cancelling_one_peer_spares_the_sync_with_another() {
    let mut rig = Rig::new(64);
    assert!(rig.task.request_sync_now_with_policy(
        &mut rig.mailbox,
        OutboundOfferPolicy::unrestricted([0xA1; 16]),
        new_link(),
        NOW,
    ));
    rig.node.start_session([0xA1; 16]);
    rig.node.start_session([0xA2; 16]);

    assert!(!rig.task.cancel_peer_sync(&mut rig.mailbox, &mut rig.node, &[0xA2; 16], None));
    assert_eq!(rig.task.state, SyncTaskState::Establishing);
    assert_eq!(rig.task.node_dest_hash(), Some([0xA1; 16]));
    assert!(rig.node.get_session(&[0xA1; 16]).is_some());
}

#[test]
fn a_peering_key_that_was_given_goes_into_the_offer() {
    let mut rig = Rig::with_storage(16);
    assert!(rig.accept(&make_message([0xDD; 16], "message")));
    rig.task.set_node([0xBB; 16]);
    rig.task.configure_peering([1; 16], [2; 16], 18, Some(vec![7; 32]));
    rig.task.state = SyncTaskState::Offering;
    let body = match rig.offer() {
        OfferStage::Request(body) => body,
        other => panic!("{other:?}"),
    };
    let value = rmpv::decode::read_value(&mut body.as_slice()).unwrap();
    let fields = value.as_array().unwrap();
    assert_eq!(fields[0], Value::Binary(vec![7; 32]));
    assert_eq!(fields[1].as_array().unwrap().len(), 1);
}

#[test]
fn a_bad_proof_is_noted_by_itself() {
    let mut rig = establishing([0xB5; 16]);
    rig.task.handle_link_proof(&mut rig.mailbox, None, 11);
    assert_eq!(rig.task.state, SyncTaskState::Establishing);
    assert_eq!(rig.task.last_establish_error, Some("LrproofInvalid"));
    assert!(rig.task.pending_endpoint_bind.is_none());
    assert!(rig.mailbox.sent.is_empty());
    rig.task.handle_link_proof(&mut rig.mailbox, Some(vec![1]), 12);
    assert_eq!(rig.task.last_establish_error, None);
    assert!(rig.task.pending_endpoint_bind.is_some());
    assert_eq!(rig.mailbox.sent.len(), 1);
}

#[test]
fn a_sync_without_a_policy_writes_what_the_peer_will_never_take() {
    let mut rig = Rig::with_storage(16);
    let message = make_message([0xDD; 16], "too large for this peer");
    assert!(rig.accept(&message));
    let id = message.transient_id.or(message.hash).unwrap();
    let mut saved = LxmPeer::new([0xBB; 16]);
    saved.propagation_transfer_limit = Some(1);
    saved.offered = 6;
    saved.add_handled_message(&[0x99; 32]);
    rig.task.set_node([0xBB; 16]);
    rig.task.state = SyncTaskState::Offering;
    let (stage, record) = rig.task.send_offer_request(
        &mut rig.node,
        &OfferInputs { saved: Some(&saved), has_worker: false },
        WorkerPoll::Waiting,
        SECONDS,
    );
    assert!(matches!(stage, OfferStage::Over));
    assert_eq!(rig.task.state, SyncTaskState::Complete);
    assert!(rig.task.take_handled_updates().is_empty());
    let record = record.unwrap();
    assert_eq!(record.path, format!("store/{}.peer", "bb".repeat(16)));
    assert_eq!(record.peer.destination_hash, [0xBB; 16]);
    assert_eq!(record.peer.propagation_transfer_limit, Some(1));
    assert_eq!(record.peer.offered, 6);
    assert!(record.peer.has_handled(&id));
    // The store does not hold this message any more.
    assert!(!record.peer.has_handled(&[0x99; 32]));
}

#[test]
fn an_offer_by_a_policy_makes_the_file_of_a_peer_that_has_none() {
    let mut rig = Rig::with_storage(16);
    let message = make_message([0xDD; 16], "too large for this peer");
    assert!(rig.accept(&message));
    let id = message.transient_id.or(message.hash).unwrap();
    let mut policy = OutboundOfferPolicy::unrestricted([0xBB; 16]);
    policy.propagation_transfer_limit = Some(1);
    let (offer, record) = rig.node.prepare_sync_offer_with_policy(&policy, None, SECONDS);
    assert!(offer.transient_ids.is_empty());
    let record = record.unwrap();
    assert_eq!(record.path, format!("store/{}.peer", "bb".repeat(16)));
    assert_eq!(record.peer.handled_messages.to_vec(), vec![id]);
    assert_eq!(record.peer.propagation_transfer_limit, Some(1));

    // Nothing is written without a disk.
    let mut rig = Rig::new(16);
    assert!(rig.accept(&make_message([0xDD; 16], "too large for this peer")));
    let (_, record) = rig.node.prepare_sync_offer_with_policy(&policy, None, SECONDS);
    assert!(record.is_none());
}

#[test]
fn a_sync_that_starts_by_itself_forgets_an_earlier_refusal() {
    let mut rig = Rig::new(16);
    assert!(rig.accept(&make_message([0xDD; 16], "message")));
    rig.task.set_node([0xBB; 16]);
    rig.task.last_offer_error = Some("ErrorThrottled");
    make_sync_due(&mut rig.task);
    assert!(matches!(rig.tick(), TickAction::StartSync(_)));
    assert_eq!(rig.task.state, SyncTaskState::Establishing);
    assert_eq!(rig.task.last_offer_error, None);
}

#[test]
fn a_sync_without_a_policy_knows_what_it_left_for_another() {
    let mut rig = Rig::with_storage(16);
    assert!(rig.accept(&make_message([0xDD; 16], "first")));
    assert!(rig.accept(&make_message([0xDD; 16], "second")));
    let size = rig.node.store().entry(0).size.max(rig.node.store().entry(1).size);
    let mut saved = LxmPeer::new([0xBB; 16]);
    // Room for one of the two messages.
    saved.propagation_sync_limit = Some(24 + 16 + size + 1);
    rig.task.set_node([0xBB; 16]);
    rig.task.state = SyncTaskState::Offering;
    let (stage, record) = rig.task.send_offer_request(
        &mut rig.node,
        &OfferInputs { saved: Some(&saved), has_worker: false },
        WorkerPoll::Waiting,
        SECONDS,
    );
    assert!(matches!(stage, OfferStage::Request(_)));
    assert!(record.is_none());
    assert_eq!(rig.task.offered_count, 1);
    assert!(!rig.task.generation_exhausted);

    let mut rig = Rig::with_storage(16);
    assert!(rig.accept(&make_message([0xDD; 16], "first")));
    rig.task.set_node([0xBB; 16]);
    rig.task.state = SyncTaskState::Offering;
    assert!(matches!(rig.offer(), OfferStage::Request(_)));
    assert!(rig.task.generation_exhausted);
}
