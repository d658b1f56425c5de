//! The daemon around the node: control, accounting, intake and delivery.

use std::collections::HashSet;

use lxmf_propagation::daemon::accounts::{
    ControlCommand, PeerAccounts, PropagationStoreCommitResult, PropagationStoreWriteOrigin,
};
use lxmf_propagation::daemon::backchannel::forward_inbound_resource_cancellations;
use lxmf_propagation::daemon::control::{
    propagation_client_allowed, queue_control_command, ControlSnapshot,
};
use lxmf_propagation::daemon::delivery::{
    direct_reusable_link_state, direct_route_snapshot, dispatch_opportunistic_packet,
    link_failure_retryable, mark_delivery_attempt, queue_path_request,
    queue_unknown_propagation_node_path_request, requeue_after_path_request, route_hops_for,
    BackchannelSnapshot, DirectReusableLinkState, LinkStates, OutboundMessage, PacketOrder,
    PathMailbox, PathQuery, DELIVERY_RETRY_WAIT_MS, PATH_REQUEST_WAIT_MS,
};
use lxmf_propagation::daemon::identities::{
    prune_known_identities, recall_identity_hash, source_blackholed, KNOWN_IDENTITIES_SOFT_CAP,
};
use lxmf_propagation::daemon::ingress::{
    handle_propagation_downloaded_data, handle_propagation_packet_validation_result,
};
use lxmf_propagation::daemon::intake::{
    conclude_pn_offer, configured_kilobytes_to_bytes, enqueue_pn_packet_validation, judge_inbound,
    validate_pn_packet_job, validate_pn_resource_job, InboundFacts, InboundVerdict,
    PnPacketValidationEnqueueError, PnPacketValidationJob, PnValidationJob, PnValidationOutcome,
    StampPolicy,
};
use lxmf_propagation::daemon::peering::generate_peering_key_job;
use lxmf_propagation::daemon::queues::{
    observe_lossless_queue_depth, queue_required_transport, AnnounceMailbox,
};
use lxmf_propagation::daemon::resources::{
    accepts_delivery_resource, delivery_resource_event_from_runtime, InboundResourceEvent,
    InboundResourceKey, LinkResourceDirection, LinkResourceEvent,
};
use lxmf_propagation::daemon::turns::round_robin_peer_order;
use lxmf_propagation::node::peers::PnOfferCandidate;
use lxmf_propagation::node::{PropagationNode, PropagationNodeConfig};
use lxmf_propagation::offer::OfferResponse;
use lxmf_propagation::peer::LxmPeer;
use lxmf_propagation::stamper::{
    validate_peering_key, validate_pn_stamp, LXMF_OVERHEAD, STAMP_SIZE,
};
use lxmf_propagation::sync_task::events::KnownIdentities;
use lxmf_propagation::tables::{PeerMap, PeerSet};
use lxmf_propagation::transport::Mailbox;
use rmpv::Value;
use rns_crypto::sha256::sha256;

const NOW: u64 = 1_700_000_000;

fn decode(data: &[u8]) -> Value {
    rmpv::decode::read_value(&mut &data[..]).unwrap()
}

fn encode(value: &Value) -> Vec<u8> {
    let mut data = Vec::new();
    rmpv::encode::write_value(&mut data, value).unwrap();
    data
}

fn outbound(dest: [u8; 16]) -> OutboundMessage {
    OutboundMessage {
        destination_hash: dest,
        hash: None,
        message_id: None,
        has_stamp: false,
        delivery_attempts: 0,
        last_delivery_attempt: 0,
        next_delivery_attempt: 0,
    }
}

#[test]
fn propagation_download_auth_uses_live_allowed_identity_set() {
    let allowed = [0x11; 16];
    let denied = [0x22; 16];
    let open = ControlSnapshot::default();
    assert!(propagation_client_allowed(&open, None));
    assert!(propagation_client_allowed(&open, Some(&denied)));

    let restricted = ControlSnapshot {
        auth_required: true,
        allowed_clients: vec![allowed],
        ..Default::default()
    };
    assert!(propagation_client_allowed(&restricted, Some(&allowed)));
    assert!(!propagation_client_allowed(&restricted, Some(&denied)));
    assert!(!propagation_client_allowed(&restricted, None));
}

#[test]
fn propagation_accounting_advances_only_for_durable_commits() {
    let peer_hash = [0x21; 16];
    let first_id = [0x31; 32];
    let second_id = [0x32; 32];
    let mut accounts = PeerAccounts::new();
    accounts.peers.insert(peer_hash, LxmPeer::new(peer_hash));

    accounts.apply_propagation_store_commit(&PropagationStoreCommitResult {
        origin: PropagationStoreWriteOrigin::Peer(peer_hash),
        committed: Vec::new(),
    });
    let peer = accounts.peers.get(&peer_hash).unwrap();
    assert_eq!(peer.incoming, 0);
    assert_eq!(peer.rx_bytes, 0);

    accounts.apply_propagation_store_commit(&PropagationStoreCommitResult {
        origin: PropagationStoreWriteOrigin::Peer(peer_hash),
        committed: vec![(first_id, 120), (second_id, 180)],
    });
    let peer = accounts.peers.get(&peer_hash).unwrap();
    assert_eq!(peer.incoming, 2);
    assert_eq!(peer.rx_bytes, 300);
    assert!(peer.handled_messages.contains(&first_id));
    assert!(peer.handled_messages.contains(&second_id));

    accounts.apply_propagation_store_commit(&PropagationStoreCommitResult {
        origin: PropagationStoreWriteOrigin::Client,
        committed: vec![([0x41; 32], 64)],
    });
    assert_eq!(accounts.client_propagation_messages_received, 1);
}

#[test]
fn announce_mailbox_coalesces_bursts_and_preserves_distinct_destinations() {
    let mut mailbox: AnnounceMailbox<Vec<u8>> = AnnounceMailbox::new();
    let control_hash = [0x31; 16];
    let propagation_hash = [0x32; 16];

    for burst in 0..64u8 {
        mailbox.stage(control_hash, vec![burst]);
        mailbox.stage(propagation_hash, vec![burst]);
    }

    assert_eq!(mailbox.pending_len(), 2);
    let destinations: HashSet<[u8; 16]> =
        mailbox.take_pending().into_iter().map(|(hash, _)| hash).collect();
    assert_eq!(destinations, HashSet::from([control_hash, propagation_hash]));
    assert_eq!(mailbox.pending_len(), 0);
}

#[test]
fn lossless_queue_high_water_only_moves_forward() {
    let mut high_water = 0;
    observe_lossless_queue_depth("test", 7, &mut high_water);
    observe_lossless_queue_depth("test", 3, &mut high_water);
    assert_eq!(high_water, 7);
}

#[test]
fn opportunistic_dispatch_is_atomic_with_receipt_registration() {
    let destination_hash = [0x41; 16];
    let public_key = [0x42; 64];
    let message_hash = [0x43; 32];
    let raw = vec![0x44; 64];
    let mut mailbox: Mailbox<PacketOrder> = Mailbox::with_capacity(2);

    assert!(dispatch_opportunistic_packet(
        &mut mailbox,
        raw,
        destination_hash,
        public_key,
        Some(message_hash)
    ));

    assert_eq!(mailbox.sent.len(), 2);
    match &mailbox.sent[0] {
        PacketOrder::RegisterReceipt {
            destination_hash: hash,
            destination_public_key: key,
            msg_id,
            ..
        } => {
            assert_eq!(*hash, destination_hash);
            assert_eq!(*key, public_key);
            assert_eq!(*msg_id, "43".repeat(32));
        }
        other => panic!("expected RegisterReceipt, got {other:?}"),
    }
    assert!(matches!(
        &mailbox.sent[1],
        PacketOrder::Outbound { destination_hash: hash, .. } if *hash == destination_hash
    ));
}

#[test]
fn opportunistic_dispatch_sends_nothing_when_both_slots_are_unavailable() {
    let mut mailbox: Mailbox<PacketOrder> = Mailbox::with_capacity(2);
    assert!(dispatch_opportunistic_packet(&mut mailbox, vec![1], [1; 16], [0; 64], None));

    assert!(!dispatch_opportunistic_packet(
        &mut mailbox,
        vec![0; 64],
        [2; 16],
        [3; 64],
        Some([4; 32])
    ));
    assert_eq!(mailbox.sent.len(), 1);
    assert!(matches!(
        &mailbox.sent[0],
        PacketOrder::Outbound { destination_hash, .. } if *destination_hash == [1; 16]
    ));
}

#[test]
fn required_runtime_registration_reports_transport_failure() {
    let mut closed: Mailbox<PathQuery> = Mailbox::disconnected();
    assert!(!queue_required_transport(&mut closed, PathQuery::DropPath([8; 16])));

    let mut full: Mailbox<PathQuery> = Mailbox::with_capacity(1);
    assert!(queue_required_transport(&mut full, PathQuery::DropPath([9; 16])));
    assert!(!queue_required_transport(&mut full, PathQuery::DropPath([10; 16])));
}

#[test]
fn control_command_success_means_daemon_queue_accepted_it() {
    let mut commands = Vec::new();
    let peer_hash = [0x42; 16];
    let response = queue_control_command(&mut commands, true, ControlCommand::Sync(peer_hash));

    assert_eq!(decode(&response), Value::Boolean(true));
    assert_eq!(commands, vec![ControlCommand::Sync(peer_hash)]);
}

#[test]
fn control_command_reports_timeout_when_daemon_queue_is_closed() {
    let mut commands = Vec::new();
    let response =
        queue_control_command(&mut commands, false, ControlCommand::Sync([0x24; 16]));

    assert_eq!(decode(&response), Value::from(0xfe));
    assert!(commands.is_empty());
}

#[test]
fn peer_sync_round_robin_does_not_starve_large_peer_sets() {
    let peers = (0u8..128).map(|byte| [byte; 16]).collect::<Vec<_>>();
    let mut cursor = None;
    let mut selected = HashSet::new();
    for _ in 0..peers.len() {
        let next = round_robin_peer_order(peers.clone(), cursor)[0];
        assert!(selected.insert(next), "selected a peer twice before a full pass");
        cursor = Some(next);
    }
    assert_eq!(selected.len(), 128);
}

#[test]
fn runtime_resource_projection_tracks_only_inbound_resources() {
    let key = InboundResourceKey { link_id: [0x33; 16], resource_id: [0x44; 32] };
    let projected = delivery_resource_event_from_runtime(LinkResourceEvent::Progress {
        link_id: key.link_id,
        resource_id: key.resource_id,
        direction: LinkResourceDirection::Inbound,
        transferred: 12,
        total: 24,
    });
    assert_eq!(
        projected,
        Some(InboundResourceEvent::Progress { key, transferred: 12, total: 24 })
    );
    assert!(delivery_resource_event_from_runtime(LinkResourceEvent::Progress {
        link_id: key.link_id,
        resource_id: key.resource_id,
        direction: LinkResourceDirection::Outbound,
        transferred: 12,
        total: 24,
    })
    .is_none());
}

#[test]
fn delivery_resource_admission_uses_decimal_kilobytes_with_exact_boundary() {
    let default_limit = configured_kilobytes_to_bytes(1);
    assert!(accepts_delivery_resource(1_000, default_limit));
    assert!(!accepts_delivery_resource(1_001, default_limit));

    let explicit_limit = configured_kilobytes_to_bytes(1000);
    assert!(accepts_delivery_resource(4_114, explicit_limit));
    assert!(accepts_delivery_resource(1_000_000, explicit_limit));
    assert!(!accepts_delivery_resource(1_000_001, explicit_limit));

    assert!(accepts_delivery_resource(380, 380));
    assert!(!accepts_delivery_resource(381, 380));

    assert_eq!(configured_kilobytes_to_bytes(1), 1_000);
    assert_eq!(configured_kilobytes_to_bytes(256), 256_000);
    assert_eq!(configured_kilobytes_to_bytes(10_240), 10_240_000);
    assert_eq!(configured_kilobytes_to_bytes(usize::MAX), usize::MAX);
}

/// Only a source whose identity is known can be shut out.
#[test]
fn recall_identity_hash_resolves_known_destinations_only() {
    let pub_key = [0x5C; 64];
    let mut identity_hash = [0u8; 16];
    identity_hash.copy_from_slice(&sha256(&pub_key)[..16]);
    let dest_hash = [0x6D; 16];

    let mut known = KnownIdentities::new();
    assert_eq!(recall_identity_hash(&known, &dest_hash), None);

    known.insert(dest_hash, pub_key);
    assert_eq!(recall_identity_hash(&known, &dest_hash), Some(identity_hash));

    let mut blackholed = PeerSet::new();
    blackholed.insert(identity_hash);
    let resolved = recall_identity_hash(&known, &dest_hash).unwrap();
    assert!(blackholed.contains(&resolved));
    assert!(source_blackholed(&known, &blackholed, &dest_hash));
    assert_eq!(recall_identity_hash(&known, &[0xEE; 16]), None);
    assert!(!source_blackholed(&known, &blackholed, &[0xEE; 16]));
}

fn numbered(i: usize) -> [u8; 16] {
    let mut hash = [0u8; 16];
    hash[..8].copy_from_slice(&(i as u64).to_le_bytes());
    hash
}

/// What has no key in use goes first, then what was heard from longest ago;
/// under the cap nothing is touched.
#[test]
fn prune_known_identities_respects_cap_and_recency() {
    let mut ids = KnownIdentities::new();
    let mut received_at: PeerMap<u64> = PeerMap::new();
    for i in 0..KNOWN_IDENTITIES_SOFT_CAP + 10 {
        ids.insert(numbered(i), [0u8; 64]);
        // All but 4 of the overflow have a key; two keys are older.
        if i >= 4 {
            received_at.insert(numbered(i), if i < 6 { 1 } else { 1000 });
        }
    }
    let dropped = prune_known_identities(&mut ids, &received_at);
    assert_eq!(dropped, 10);
    assert_eq!(ids.keys().len(), KNOWN_IDENTITIES_SOFT_CAP);
    for i in 0..6 {
        assert!(!ids.contains_key(&numbered(i)), "{i} goes before any other");
    }

    let mut under = KnownIdentities::new();
    under.insert([1; 16], [0u8; 64]);
    assert_eq!(prune_known_identities(&mut under, &received_at), 0);
    assert_eq!(under.keys().len(), 1);
}

#[test]
fn path_request_requeue_sets_path_wait_deadline() {
    let mut paths = PathMailbox::with_capacity(4);
    let dest = [0x22; 16];
    let mut message = outbound(dest);
    let before = NOW * 1000;

    requeue_after_path_request(&mut paths, &mut message, dest, true, before);

    assert_eq!(message.delivery_attempts, 1);
    assert!(message.last_delivery_attempt >= before);
    assert_eq!(message.next_delivery_attempt, before + PATH_REQUEST_WAIT_MS);
    assert_eq!(paths.sent, vec![PathQuery::RequestPath(dest)]);
}

#[test]
fn queue_path_request_can_drop_stale_path_before_requesting() {
    let mut paths = PathMailbox::with_capacity(4);
    let dest = [0x24; 16];

    queue_path_request(&mut paths, dest, true);

    assert_eq!(paths.sent, vec![PathQuery::DropPath(dest), PathQuery::RequestPath(dest)]);
}

#[test]
fn unknown_propagation_node_path_request_updates_backoff_clock() {
    let mut paths = PathMailbox::with_capacity(4);
    let node = [0x26; 16];
    let mut last = 0;
    let now = 1_234_500;

    assert!(queue_unknown_propagation_node_path_request(&mut paths, node, &mut last, now));
    assert_eq!(last, now);
    assert_eq!(paths.sent, vec![PathQuery::RequestPath(node)]);
}

#[test]
fn unknown_propagation_node_path_request_updates_backoff_clock_on_full_channel() {
    let mut paths = PathMailbox::with_capacity(1);
    let node = [0x27; 16];
    let mut last = 99_000;
    queue_path_request(&mut paths, [0x28; 16], false);

    assert!(!queue_unknown_propagation_node_path_request(&mut paths, node, &mut last, 1_234_500));
    assert_eq!(last, 1_234_500);
    assert_eq!(paths.sent, vec![PathQuery::RequestPath([0x28; 16])]);
}

#[test]
fn path_request_requeue_can_preserve_attempt_count_after_link_start_failure() {
    let mut paths = PathMailbox::with_capacity(4);
    let dest = [0x44; 16];
    let mut message = outbound(dest);
    message.delivery_attempts = 3;

    requeue_after_path_request(&mut paths, &mut message, dest, false, NOW);

    assert_eq!(message.delivery_attempts, 3);
    assert!(message.next_delivery_attempt > NOW);
}

#[test]
fn delivery_attempt_uses_delivery_retry_deadline() {
    let mut message = outbound([0x66; 16]);
    let before = NOW * 1000;

    let attempts = mark_delivery_attempt(&mut message, before);

    assert_eq!(attempts, 1);
    assert_eq!(message.delivery_attempts, 1);
    assert!(message.last_delivery_attempt >= before);
    assert_eq!(message.next_delivery_attempt, before + DELIVERY_RETRY_WAIT_MS);
}

#[test]
fn link_failure_retry_policy_matches_pre_establishment_failures() {
    assert!(link_failure_retryable("link establishment timeout"));
    assert!(link_failure_retryable("link closed"));
    assert!(link_failure_retryable("transport full"));
    assert!(link_failure_retryable("transport closed"));
    assert!(link_failure_retryable("link is not active"));
    assert!(link_failure_retryable("link not found"));
    assert!(!link_failure_retryable("resource transfer failed"));
}

#[test]
fn route_hops_for_uses_cached_announce_hops_with_one_hop_floor() {
    let dest = [0x77; 16];
    let mut hops = PeerMap::new();
    assert_eq!(route_hops_for(&hops, dest), 1);
    hops.insert(dest, 4);
    assert_eq!(route_hops_for(&hops, dest), 4);
    hops.insert(dest, 0);
    assert_eq!(route_hops_for(&hops, dest), 1);
}

#[test]
fn direct_route_snapshot_uses_cached_announce_hops() {
    let dest = [0x88; 16];
    let mut hops = PeerMap::new();
    assert!(direct_route_snapshot(&hops, dest).is_none());

    hops.insert(dest, 5);
    let snapshot = direct_route_snapshot(&hops, dest).expect("route snapshot");
    assert_eq!(snapshot.destination_hash, dest);
    assert_eq!(snapshot.hops, 5);
}

/// Enforcement covers propagated deliveries, not just those over a link.
#[test]
fn propagation_downloaded_data_respects_stamp_enforcement() {
    let own = [0x01; 16];
    let mut data = vec![0xAB; 16];
    data.extend_from_slice(b"unstamped message");

    let message = handle_propagation_downloaded_data(&data, &own, None).expect("message");
    assert_eq!(message.data, data);
    let facts = InboundFacts {
        source_blackholed: false,
        signature: None,
        has_stamp: false,
        has_id: true,
        stamp_good: false,
    };
    let mut policy = StampPolicy { enforce_stamps: true, stamp_cost: Some(8) };
    assert_eq!(
        judge_inbound(&facts, &policy),
        InboundVerdict::NoStamp,
        "unstamped propagated message must be rejected"
    );

    policy.enforce_stamps = false;
    assert_eq!(
        judge_inbound(&facts, &policy),
        InboundVerdict::Deliver,
        "message must be stored once enforcement is off"
    );
}

#[test]
fn direct_reusable_link_state_uses_registered_backchannel() {
    let mut links = LinkStates { direct: PeerMap::new(), backchannel: PeerMap::new() };
    let dest = [0x43; 16];
    links
        .backchannel
        .insert(dest, BackchannelSnapshot { queued_deliveries: 0, in_flight_deliveries: 0 });

    assert_eq!(
        direct_reusable_link_state(Some(&links), dest),
        DirectReusableLinkState::Active
    );
    assert_eq!(
        direct_reusable_link_state(Some(&links), [0x45; 16]),
        DirectReusableLinkState::Missing
    );
}

fn pn_test_entry(stamp_byte: u8) -> Vec<u8> {
    let mut entry = vec![0x42; LXMF_OVERHEAD + 1];
    entry.extend_from_slice(&[stamp_byte; STAMP_SIZE]);
    entry
}

fn pn_test_wrapper(entries: Vec<Vec<u8>>) -> Vec<u8> {
    encode(&Value::Array(vec![
        Value::from(0.0f64),
        Value::Array(entries.into_iter().map(Value::Binary).collect()),
    ]))
}

fn pn_test_offer(transient_ids: Vec<[u8; 32]>) -> Vec<u8> {
    encode(&Value::Array(vec![
        Value::Binary(Vec::new()),
        Value::Array(transient_ids.into_iter().map(|id| Value::Binary(id.to_vec())).collect()),
    ]))
}

fn pn_test_job(data: Vec<u8>, allow_multiple: bool) -> PnValidationJob {
    PnValidationJob { token: 1, link_id: [0x90; 16], allow_multiple, data }
}

#[test]
fn pn_offer_handler_uses_one_persistent_admission_owner() {
    let local_identity = [0x11; 16];
    let remote_identity = [0x22; 16];
    let link_id = [0x33; 16];
    let node = PropagationNode::new(
        PropagationNodeConfig { peering_cost: 0, ..PropagationNodeConfig::default() },
        local_identity,
    );
    let offer = pn_test_offer(vec![[0x44; 32]]);
    let candidate = PnOfferCandidate { link_id, peer_identity_hash: remote_identity };

    let evaluation = node.evaluate_offer_request(&offer, &local_identity, &candidate);
    assert_eq!(
        conclude_pn_offer(evaluation, None),
        PropagationNode::encode_offer_response(&OfferResponse::WantAll)
    );

    // Whoever admits transfers refuses the second offer.
    let repeated = node.evaluate_offer_request(&offer, &local_identity, &candidate);
    assert_eq!(
        conclude_pn_offer(repeated, Some(OfferResponse::ErrorThrottled)),
        PropagationNode::encode_offer_response(&OfferResponse::ErrorThrottled)
    );
}

#[test]
fn peer_key_worker_binds_remote_identity_before_local_identity() {
    let remote_identity = [0x21; 16];
    let local_identity = [0x43; 16];
    let result = generate_peering_key_job([0x65; 16], 1, remote_identity, local_identity);
    let (key, value) = result.peering_key.expect("cost-one key");
    assert!(value >= 1);

    let mut peering_id = [0u8; 32];
    peering_id[..16].copy_from_slice(&remote_identity);
    peering_id[16..].copy_from_slice(&local_identity);
    assert!(validate_peering_key(&peering_id, &key, 1));
}

#[test]
fn pn_validation_worker_enforces_client_batch_authorization() {
    let wrapper = pn_test_wrapper(vec![pn_test_entry(0), pn_test_entry(1)]);
    let result = validate_pn_resource_job(pn_test_job(wrapper.clone(), false), wrapper.len(), 0);
    assert_eq!(result.outcome, PnValidationOutcome::UnauthorizedMultiple);
    assert!(result.entries.is_empty());
    assert_eq!(result.rejected, 2);

    let result = validate_pn_resource_job(pn_test_job(wrapper.clone(), true), wrapper.len(), 0);
    assert_eq!(result.outcome, PnValidationOutcome::Valid);
    assert_eq!(result.entries.len(), 2);
    assert_eq!(result.rejected, 0);
}

#[test]
fn packet_validation_worker_handles_hundred_plus_entries_off_loop() {
    let wrapper = pn_test_wrapper((0..128).map(pn_test_entry).collect());
    let result = validate_pn_packet_job([0x91; 16], wrapper.clone(), wrapper.len(), 0);
    assert_eq!(result.entries.len(), 128);
    assert_eq!(result.rejected, 0);
}

#[test]
fn packet_validation_queue_rejects_overload_and_closed_workers() {
    let job = |link_byte| PnPacketValidationJob {
        link_id: [link_byte; 16],
        data: vec![0xc1],
        max_transfer_bytes: 1,
        min_cost: 0,
    };
    let mut jobs = Vec::new();
    assert_eq!(enqueue_pn_packet_validation(&mut jobs, Some(1), job(1)), Ok(()));
    assert_eq!(
        enqueue_pn_packet_validation(&mut jobs, Some(0), job(2)),
        Err(PnPacketValidationEnqueueError::Overloaded)
    );
    assert_eq!(
        enqueue_pn_packet_validation(&mut jobs, None, job(3)),
        Err(PnPacketValidationEnqueueError::Closed)
    );
    assert_eq!(jobs.len(), 1);
    assert_eq!(jobs[0].link_id, [1; 16]);
}

#[test]
fn malformed_packet_validation_requests_link_teardown() {
    let result = validate_pn_packet_job([0x92; 16], vec![0xc1], 1, 0);
    assert!(result.entries.is_empty());
    assert_eq!(result.rejected, 1);

    let mut node = PropagationNode::new(PropagationNodeConfig::default(), [0xAA; 16]);
    let ingress = handle_propagation_packet_validation_result(&mut node, &result, NOW);
    assert!(ingress.plans.is_empty());
    assert_eq!(ingress.close_link, Some([0x92; 16]));
}

#[test]
fn pn_validation_worker_preserves_valid_siblings_in_invalid_batch() {
    let mut valid = None;
    let mut invalid = None;
    for stamp_byte in 0u8..=u8::MAX {
        let entry = pn_test_entry(stamp_byte);
        if validate_pn_stamp(&entry, 1).is_some() {
            valid.get_or_insert(entry);
        } else {
            invalid.get_or_insert(entry);
        }
        if valid.is_some() && invalid.is_some() {
            break;
        }
    }

    let wrapper = pn_test_wrapper(vec![valid.unwrap(), invalid.unwrap()]);
    let result = validate_pn_resource_job(pn_test_job(wrapper.clone(), true), wrapper.len(), 1);
    assert_eq!(result.outcome, PnValidationOutcome::InvalidStamp);
    assert_eq!(result.entries.len(), 1);
    assert_eq!(result.rejected, 1);
}

#[test]
fn pn_validation_worker_fails_malformed_or_oversized_wrapper() {
    let malformed = vec![0xc1];
    let result = validate_pn_resource_job(pn_test_job(malformed, true), 100, 0);
    assert_eq!(result.outcome, PnValidationOutcome::Failed);

    let wrapper = pn_test_wrapper(vec![pn_test_entry(0)]);
    let result =
        validate_pn_resource_job(pn_test_job(wrapper.clone(), true), wrapper.len() - 1, 0);
    assert_eq!(result.outcome, PnValidationOutcome::Failed);
}

#[test]
fn inbound_resource_cancel_adapter_preserves_exact_owner_and_direction() {
    let key = InboundResourceKey { link_id: [0x11; 16], resource_id: [0x22; 32] };
    let orders = forward_inbound_resource_cancellations(&[key], true);
    assert_eq!(orders.len(), 1);
    assert_eq!(orders[0].link_id, key.link_id);
    assert_eq!(orders[0].resource_id, key.resource_id);
    assert_eq!(orders[0].direction, LinkResourceDirection::Inbound);
}
