//! What holds of the daemon's decisions.

use lxmf_propagation::constants::{
    MESSAGE_GET_PATH, OFFER_REQUEST_PATH, STATS_GET_PATH, SYNC_REQUEST_PATH, UNPEER_REQUEST_PATH,
};
use lxmf_propagation::daemon::accounts::{
    ControlCommand, ControlEffect, KeyOutcome, PeerAccounts, PropagationStoreCommitResult,
    PropagationStoreWriteOrigin,
};
use lxmf_propagation::daemon::announces::{
    judge_pn_announce, learn_announces, learn_identity, learn_ratchet, learn_route,
    settle_peer_change, HeardAnnounce, PeerChange, PeerUpkeep, PnAnnounce, PnVerdict,
};
use lxmf_propagation::daemon::backchannel::{
    backchannel_send_result, forward_inbound_resource_cancellations, BackchannelSendError,
    BackchannelSendReceipt, LinkPayloadSendReceipt, LinkSendError, SendOutcome,
};
use lxmf_propagation::daemon::control::{
    handle_control_request, hash_path, list_allowed_control, should_announce_control,
    sort_propagation_request, ControlAnswer, ControlSnapshot, PropagationRequest,
};
use lxmf_propagation::daemon::delivery::{
    OutboundMessage, PathMailbox, PathQuery, MAX_DELIVERY_ATTEMPTS,
};
use lxmf_propagation::daemon::ingress::{
    handle_link_delivered_data, handle_propagation_downloaded_data,
    handle_propagation_validation_result, ValidationClaim,
};
use lxmf_propagation::daemon::intake::{
    address_inbound, judge_inbound, signature_fact, signing_key_of, take_propagation_packet,
    InboundFacts, InboundVerdict, PacketIntake, PnValidationOutcome, PnValidationWorkerResult,
    SignatureCheck, StampPolicy,
};
use lxmf_propagation::daemon::outbound::{
    begin_action, direct_delivery_step, handle_link_delivery_result, link_start_failed,
    opportunistic_dispatched, opportunistic_encrypted, propagated_packed,
    retry_due_opportunistic_deliveries, take_delivery_proof, DeliveryResult, DirectDeliveryPlan,
    DirectStep, Encryption, FirstStep, InFlight, LinkStep, OpportunisticStep, OutboundAction,
    RouterOrder,
};
use lxmf_propagation::daemon::peering::{PeerNotice, PeerScheduler, PeeringKeyWorkerResult};
use lxmf_propagation::daemon::queues::{
    observe_lossless_queue_depth, AnnounceMailbox, DepthNotice, RuntimeQueue,
};
use lxmf_propagation::daemon::registrations::{
    register_destinations, required_registrations, OwnDestinations, Registration,
    RegistrationOrder,
};
use lxmf_propagation::daemon::resources::{
    delivery_resource_event_from_runtime, handle_delivery_accounting_event, resource_progress,
    AccountingEvent, DeliveryNews, InboundResourceConclusion, InboundResourceEvent,
    InboundResourceKey, LinkResourceConclusion, LinkResourceDirection, LinkResourceEvent,
};
use lxmf_propagation::daemon::schedule::{DaemonClock, DownloadStep, RouteEntry};
use lxmf_propagation::daemon::sending::{
    any_online, begin_send, look_at_interfaces, look_at_send, AnnounceStep, AnnounceWait,
    OutboundWork, SendEnd, SendState, StartupPoll, StartupStep,
};
use lxmf_propagation::daemon::settings::{
    apply_config, exhausted_reason, expired_reason, log_level, make_static_peer,
    message_file_name, parse_destination_hash, parse_destination_hashes, read_known_identities,
    write_known_identities, AnnounceSettings, LogLevel, NamedDestinations, NodeSettings,
};
use lxmf_propagation::daemon::turns::round_robin_peer_order;
use lxmf_propagation::node::{PropagationNode, PropagationNodeConfig};
use lxmf_propagation::peer::LxmPeer;
use lxmf_propagation::stamper::ValidatedPnEntry;
use lxmf_propagation::sync::OutboundOfferPolicy;
use lxmf_propagation::sync_task::events::KnownIdentities;
use lxmf_propagation::sync_task::lifecycle::NewLink;
use lxmf_propagation::sync_task::{
    PeerSyncTerminalResult, PeerSyncTerminalState, PropagationSyncTask, SyncMailbox, SyncTaskState,
    TransferRate,
};
use lxmf_propagation::tables::{PeerMap, PeerSet};
use lxmf_propagation::transport::Mailbox;
use rns_crypto::sha256::sha256;

const NOW: u64 = 1_700_000_000_000;

fn outbound(byte: u8, attempts: u32) -> OutboundMessage {
    OutboundMessage {
        destination_hash: [byte; 16],
        hash: Some([byte; 32]),
        message_id: None,
        has_stamp: false,
        delivery_attempts: attempts,
        last_delivery_attempt: 0,
        next_delivery_attempt: 0,
    }
}

#[test]
fn turns_go_on_after_the_last_one() {
    let peers = vec![[3; 16], [1; 16], [2; 16]];
    assert_eq!(round_robin_peer_order(peers.clone(), None), vec![[1; 16], [2; 16], [3; 16]]);
    assert_eq!(
        round_robin_peer_order(peers.clone(), Some([1; 16])),
        vec![[2; 16], [3; 16], [1; 16]]
    );
    assert_eq!(
        round_robin_peer_order(peers.clone(), Some([3; 16])),
        vec![[1; 16], [2; 16], [3; 16]]
    );
    assert!(round_robin_peer_order(Vec::new(), Some([3; 16])).is_empty());
}

#[test]
fn identities_read_back_from_their_file() {
    let mut known = KnownIdentities::new();
    known.insert([1; 16], [11; 64]);
    known.insert([2; 16], [22; 64]);
    let data = write_known_identities(&known);
    assert_eq!(data.len(), 160);
    let read = read_known_identities(&data);
    assert_eq!(read.get(&[1; 16]), Some(&[11; 64]));
    assert_eq!(read.get(&[2; 16]), Some(&[22; 64]));
    assert_eq!(read.keys().len(), 2);
    // A broken record at the end is passed over.
    assert_eq!(read_known_identities(&data[..159]).keys().len(), 1);
}

#[test]
fn destinations_are_named_by_hexadecimal_digits() {
    let digits = "0f".repeat(16);
    assert_eq!(parse_destination_hash(&digits), Some([0x0F; 16]));
    assert_eq!(parse_destination_hash(&digits.to_uppercase()), Some([0x0F; 16]));
    assert_eq!(parse_destination_hash(&digits[..30]), None);
    assert_eq!(parse_destination_hash("no digits"), None);
    assert_eq!(
        parse_destination_hashes(&vec!["bad".to_string(), digits]),
        vec![[0x0F; 16]]
    );
}

#[test]
fn static_peers_are_noted_once() {
    let mut peers: PeerMap<LxmPeer> = PeerMap::new();
    let mut names = Vec::new();
    make_static_peer(&mut peers, &mut names, [7; 16]);
    make_static_peer(&mut peers, &mut names, [7; 16]);
    assert_eq!(names, vec![[7; 16]]);
    assert!(peers.get(&[7; 16]).unwrap().is_static);
}

#[test]
fn settings_make_the_configuration_of_the_node() {
    let settings = NodeSettings {
        message_storage_limit: None,
        propagation_limit_kb: 256,
        sync_limit_kb: 10_240,
        propagation_stamp_cost: 16,
        propagation_stamp_flex: 3,
    };
    let config = settings.node_config();
    assert_eq!(config.max_storage, 256_000);
    assert_eq!(config.max_message_size, 256_000);
    assert_eq!(config.max_offer_size, 10_240_000);
    assert_eq!(config.min_stamp_cost, 13);
    assert_eq!(config.peering_cost, 18);
    let limited = NodeSettings {
        message_storage_limit: Some(5),
        propagation_stamp_flex: 20,
        ..settings
    };
    assert_eq!(limited.node_config().max_storage, 5);
    assert_eq!(limited.node_config().min_stamp_cost, 0);
}

#[test]
fn texts_name_the_message() {
    assert_eq!(message_file_name(Some([0xAB; 32]), 5), format!("{}.lxm", "ab".repeat(32)));
    assert_eq!(message_file_name(None, 1234), "1234.lxm");
    assert_eq!(exhausted_reason(None), "delivery attempts exhausted");
    assert_eq!(
        exhausted_reason(Some([1; 32])),
        format!("delivery attempts exhausted for {}", "01".repeat(32))
    );
    assert_eq!(expired_reason(None), "message expired before delivery");
    assert_eq!(
        expired_reason(Some([1; 32])),
        format!("message {} expired before delivery", "01".repeat(32))
    );
}

#[test]
fn logging_goes_by_what_was_asked_for() {
    assert_eq!(log_level(3, 0, false), LogLevel::Trace);
    assert_eq!(log_level(2, 1, false), LogLevel::Debug);
    assert_eq!(log_level(1, 0, true), LogLevel::Info);
    assert_eq!(log_level(0, 0, true), LogLevel::Warn);
    assert_eq!(log_level(0, 0, false), LogLevel::Info);
    assert_eq!(log_level(0, 1, false), LogLevel::Warn);
    assert_eq!(log_level(0, 2, false), LogLevel::Error);
}

#[test]
fn the_node_itself_may_always_give_orders() {
    assert_eq!(
        list_allowed_control([1; 16], &[[2; 16], [1; 16], [2; 16]]),
        vec![[1; 16], [2; 16]]
    );
    assert!(should_announce_control(true, [1; 16], &[[2; 16]]));
    assert!(!should_announce_control(true, [1; 16], &[[1; 16]]));
    assert!(!should_announce_control(false, [1; 16], &[[2; 16]]));
}

fn reply(answer: ControlAnswer) -> Vec<u8> {
    match answer {
        ControlAnswer::Reply(data) => data,
        other => panic!("expected a reply, got {other:?}"),
    }
}

#[test]
fn control_is_refused_to_strangers() {
    let mut snapshot = ControlSnapshot { allowed_control: vec![[1; 16]], ..Default::default() };
    snapshot.peer_hashes.insert([9; 16]);
    let stats = hash_path(STATS_GET_PATH);
    let sync = hash_path(SYNC_REQUEST_PATH);
    let unpeer = hash_path(UNPEER_REQUEST_PATH);
    assert_eq!(stats[..], sha256(STATS_GET_PATH.as_bytes())[..16]);

    assert_eq!(reply(handle_control_request(&snapshot, None, &stats, &[])), vec![0xCC, 0xF0]);
    assert_eq!(
        reply(handle_control_request(&snapshot, Some([2; 16]), &stats, &[])),
        vec![0xCC, 0xF1]
    );
    assert_eq!(
        reply(handle_control_request(&snapshot, Some([1; 16]), &stats, &[])),
        vec![0xC0]
    );
    snapshot.stats_response = Some(vec![1, 2, 3]);
    assert_eq!(
        reply(handle_control_request(&snapshot, Some([1; 16]), &stats, &[])),
        vec![1, 2, 3]
    );
    assert!(matches!(
        handle_control_request(&snapshot, Some([1; 16]), &sync, &[9; 16]),
        ControlAnswer::Command(ControlCommand::Sync(peer)) if peer == [9; 16]
    ));
    assert!(matches!(
        handle_control_request(&snapshot, Some([1; 16]), &unpeer, &[9; 16]),
        ControlAnswer::Command(ControlCommand::Unpeer(peer)) if peer == [9; 16]
    ));
    assert_eq!(
        reply(handle_control_request(&snapshot, Some([1; 16]), &sync, &[8; 16])),
        vec![0xCC, 0xFD]
    );
    assert_eq!(
        reply(handle_control_request(&snapshot, Some([1; 16]), &sync, &[9; 15])),
        vec![0xCC, 0xF4]
    );
    assert!(matches!(
        handle_control_request(&snapshot, Some([1; 16]), &[0; 16], &[]),
        ControlAnswer::Unanswered
    ));
}

#[test]
fn requests_to_the_node_are_sorted() {
    let mut snapshot = ControlSnapshot::default();
    let offer = hash_path(OFFER_REQUEST_PATH);
    let get = hash_path(MESSAGE_GET_PATH);
    let sort = |snapshot: &ControlSnapshot, quarantined: bool, path: &[u8; 16]| {
        sort_propagation_request(snapshot, Some(&[5; 16]), quarantined, path)
    };
    assert!(matches!(sort(&snapshot, true, &offer), PropagationRequest::Offer));
    assert!(matches!(sort(&snapshot, false, &get), PropagationRequest::Get));
    assert!(matches!(sort(&snapshot, true, &get), PropagationRequest::Unanswered));
    assert!(matches!(sort(&snapshot, false, &[0; 16]), PropagationRequest::Unanswered));
    snapshot.auth_required = true;
    match sort(&snapshot, false, &get) {
        PropagationRequest::Reply(data) => assert_eq!(data, vec![0xCC, 0xF1]),
        other => panic!("expected a refusal, got {other:?}"),
    }
}

#[test]
fn depths_are_worth_a_word_once() {
    let mut mark = 10;
    assert_eq!(observe_lossless_queue_depth("q", 10, &mut mark), DepthNotice::Quiet);
    assert_eq!(observe_lossless_queue_depth("q", 11, &mut mark), DepthNotice::Record);
    assert_eq!(observe_lossless_queue_depth("q", 1024, &mut mark), DepthNotice::Warning);
    assert_eq!(mark, 1024);
}

#[test]
fn required_announces_wait_for_the_transport() {
    let mut announces: AnnounceMailbox<Vec<u8>> = AnnounceMailbox::new();
    announces.stage([1; 16], vec![1]);
    announces.stage([2; 16], vec![2]);
    announces.stage([1; 16], vec![11]);
    let mut queue: RuntimeQueue<Vec<u8>> = RuntimeQueue::new();
    let mut closed: Mailbox<Vec<u8>> = Mailbox::disconnected();
    queue.queue_required_announces(&mut closed, &mut announces);
    assert_eq!(announces.pending_len(), 2, "what cannot be handed over stays required");

    let mut mailbox: Mailbox<Vec<u8>> = Mailbox::with_capacity(1);
    queue.queue_required_announces(&mut mailbox, &mut announces);
    assert_eq!(announces.pending_len(), 0);
    assert_eq!(mailbox.sent.len(), 1);
    mailbox.free = 1;
    assert!(queue.flush_runtime_transport(&mut mailbox));
    let mut sent = mailbox.sent.clone();
    sent.sort();
    assert_eq!(sent, vec![vec![2], vec![11]], "the newest announce of each destination");
}

#[test]
fn work_is_due_once_its_interval_passed() {
    let mut clock = DaemonClock::new(NOW);
    let jobs = clock.take_due_jobs(NOW + 300_000);
    assert!(!jobs.cull && !jobs.save && !jobs.clean);
    let jobs = clock.take_due_jobs(NOW + 300_001);
    assert!(jobs.cull && jobs.save && !jobs.clean);
    let jobs = clock.take_due_jobs(NOW + 300_001);
    assert!(!jobs.cull && !jobs.save);

    assert!(clock.peer_announce_due(Some(1000), NOW));
    assert!(!clock.peer_announce_due(None, NOW));
    clock.peer_announced(false, NOW);
    assert!(clock.peer_announce_due(Some(1000), NOW));
    clock.peer_announced(true, NOW);
    assert!(!clock.peer_announce_due(Some(1000), NOW));

    assert!(clock.node_announce_due(true, Some(1000), NOW));
    assert!(!clock.node_announce_due(false, Some(1000), NOW));
    clock.node_announced(true, Some(false), NOW);
    assert!(clock.node_announce_due(true, Some(1000), NOW));
    clock.node_announced(true, None, NOW);
    assert!(!clock.node_announce_due(true, Some(1000), NOW));
}

#[test]
fn downloads_need_a_known_node() {
    let mut clock = DaemonClock::new(NOW);
    let mut known = KnownIdentities::new();
    let mut paths = PathMailbox::with_capacity(1);
    assert_eq!(
        clock.download_due(&mut paths, true, None, &known, NOW),
        DownloadStep::Nothing
    );
    assert_eq!(
        clock.download_due(&mut paths, false, Some([1; 16]), &known, NOW),
        DownloadStep::Nothing
    );
    assert_eq!(
        clock.download_due(&mut paths, true, Some([1; 16]), &known, NOW),
        DownloadStep::PathRequested
    );
    assert_eq!(
        clock.download_due(&mut paths, true, Some([1; 16]), &known, NOW + 90_000),
        DownloadStep::Nothing
    );
    assert_eq!(
        clock.download_due(&mut paths, true, Some([1; 16]), &known, NOW + 90_001),
        DownloadStep::PathRefused
    );
    known.insert([1; 16], [0; 64]);
    assert_eq!(
        clock.download_due(&mut paths, true, Some([1; 16]), &known, NOW + 200_000),
        DownloadStep::Start
    );
}

#[test]
fn expired_routes_are_forgotten() {
    let mut clock = DaemonClock::new(NOW);
    assert!(clock.route_refresh_due(true, NOW));
    let routes = clock.routes_refreshed(
        &[
            RouteEntry { hash: [1; 16], expires: NOW + 1, hops: 0 },
            RouteEntry { hash: [2; 16], expires: NOW, hops: 3 },
            RouteEntry { hash: [3; 16], expires: NOW + 1, hops: 4 },
        ],
        NOW,
    );
    assert_eq!(routes.get(&[1; 16]), Some(&1));
    assert_eq!(routes.get(&[2; 16]), None);
    assert_eq!(routes.get(&[3; 16]), Some(&4));
    assert!(!clock.route_refresh_due(true, NOW + 299_999));
    assert!(clock.route_refresh_due(true, NOW + 300_000));
    assert!(clock.route_refresh_due(false, NOW + 1));
}

#[test]
fn announces_teach_routes_identities_and_ratchets() {
    let mut routes = PeerMap::new();
    learn_route(&mut routes, [1; 16], 0);
    assert_eq!(routes.get(&[1; 16]), Some(&1));

    let mut known = KnownIdentities::new();
    assert!(learn_identity(&mut known, [1; 16], [5; 64]));
    assert!(!learn_identity(&mut known, [1; 16], [5; 64]));
    assert!(learn_identity(&mut known, [1; 16], [6; 64]));

    let mut ratchets = PeerMap::new();
    let mut received_at = PeerMap::new();
    assert!(learn_ratchet(&mut ratchets, &mut received_at, [1; 16], [5; 32], 10));
    assert!(!learn_ratchet(&mut ratchets, &mut received_at, [1; 16], [5; 32], 20));
    assert_eq!(received_at.get(&[1; 16]), Some(&10));
}

#[test]
fn of_several_announces_the_last_that_speaks_decides() {
    let heard = |byte: u8, hops: u8, key: Option<u8>, ratchet: Option<u8>| HeardAnnounce {
        destination_hash: [byte; 16],
        hops,
        public_key: key.map(|key| [key; 64]),
        ratchet: ratchet.map(|ratchet| [ratchet; 32]),
    };
    let mut routes = PeerMap::new();
    let mut known = KnownIdentities::new();
    let mut ratchets = PeerMap::new();
    let mut received_at = PeerMap::new();
    routes.insert([9; 16], 7);
    known.insert([9; 16], [90; 64]);
    ratchets.insert([2; 16], [40; 32]);
    received_at.insert([2; 16], 5);

    let news = learn_announces(
        &[
            heard(1, 4, Some(10), Some(20)),
            heard(2, 0, None, Some(40)),
            heard(1, 3, Some(11), None),
            heard(1, 2, None, Some(21)),
        ],
        &mut routes,
        &mut known,
        &mut ratchets,
        &mut received_at,
        50,
    );

    assert_eq!(news.seen, vec![[1; 16], [2; 16], [1; 16], [1; 16]]);
    assert_eq!(news.ratchets, vec![([1; 16], [20; 32]), ([1; 16], [21; 32])]);
    assert_eq!(routes.get(&[1; 16]), Some(&2));
    assert_eq!(routes.get(&[2; 16]), Some(&1));
    assert_eq!(routes.get(&[9; 16]), Some(&7));
    assert_eq!(known.get(&[1; 16]), Some(&[11; 64]));
    assert_eq!(known.get(&[2; 16]), None);
    assert_eq!(known.get(&[9; 16]), Some(&[90; 64]));
    assert_eq!(ratchets.get(&[1; 16]), Some(&[21; 32]));
    assert_eq!(received_at.get(&[1; 16]), Some(&50));
    assert_eq!(received_at.get(&[2; 16]), Some(&5));
}

#[test]
fn a_daemon_without_its_destinations_does_not_start() {
    assert_eq!(required_registrations(false), vec![Registration::Delivery]);
    assert_eq!(
        required_registrations(true),
        vec![Registration::Delivery, Registration::Propagation, Registration::Control]
    );

    let own = OwnDestinations { delivery: [1; 16], propagation: [2; 16], control: [3; 16] };
    let hashes = |mailbox: &Mailbox<RegistrationOrder>| -> Vec<[u8; 16]> {
        mailbox.sent.iter().map(|order| order.hash).collect()
    };
    let mut mailbox: Mailbox<RegistrationOrder> = Mailbox::with_capacity(3);
    assert_eq!(register_destinations(&mut mailbox, &own, true), Ok(()));
    assert_eq!(hashes(&mailbox), vec![[1; 16], [2; 16], [3; 16]]);
    assert_eq!(mailbox.free, 0);

    let mut narrow: Mailbox<RegistrationOrder> = Mailbox::with_capacity(2);
    let refused = register_destinations(&mut narrow, &own, true);
    assert_eq!(refused, Err(Registration::Control));
    assert_eq!(hashes(&narrow), vec![[1; 16], [2; 16]]);

    let mut closed: Mailbox<RegistrationOrder> = Mailbox::disconnected();
    let refused = register_destinations(&mut closed, &own, false);
    assert_eq!(refused, Err(Registration::Delivery));
    assert!(closed.sent.is_empty());
    assert_eq!(Registration::Delivery.operation(), "delivery destination registration");
    assert_eq!(Registration::Propagation.operation(), "propagation destination registration");
    assert_eq!(Registration::Control.operation(), "control destination registration");
}

fn announce(node_state: bool, is_path_response: bool, timebase: u64) -> PnAnnounce {
    PnAnnounce { destination_hash: [7; 16], is_path_response, node_state, timebase }
}

#[test]
fn announces_are_judged_by_who_made_them() {
    let mut peer = LxmPeer::new([7; 16]);
    peer.peering_timebase = 100;
    let named = [[7; 16]];

    assert_eq!(judge_pn_announce(&announce(true, false, 1), &[], true, None), PnVerdict::Peer);
    assert_eq!(judge_pn_announce(&announce(true, false, 1), &[], false, None), PnVerdict::Ignore);
    assert_eq!(judge_pn_announce(&announce(true, true, 1), &[], true, None), PnVerdict::Ignore);
    // A named node stays a peer, whatever it announces.
    assert_eq!(
        judge_pn_announce(&announce(false, false, 200), &named, true, Some(&peer)),
        PnVerdict::Peer
    );
    // An answer for a path tells of a named node only what is not known yet.
    assert_eq!(
        judge_pn_announce(&announce(true, true, 1), &named, true, Some(&peer)),
        PnVerdict::Peer
    );
    peer.stamp_cost = Some(16);
    peer.stamp_cost_flexibility = Some(3);
    peer.peering_cost = 18;
    assert_eq!(
        judge_pn_announce(&announce(true, true, 1), &named, true, Some(&peer)),
        PnVerdict::Ignore
    );
    // A node that retires is let go, unless the news is old.
    assert_eq!(
        judge_pn_announce(&announce(false, false, 100), &[], true, Some(&peer)),
        PnVerdict::Unpeer
    );
    assert_eq!(
        judge_pn_announce(&announce(false, false, 99), &[], true, Some(&peer)),
        PnVerdict::Ignore
    );
}

#[test]
fn changed_terms_make_a_sync_anew() {
    let peer_hash = [7; 16];
    let mut scheduler = PeerScheduler::new();
    let mut task = PropagationSyncTask::new(NOW);
    let mut mailbox = SyncMailbox::with_capacity(16);
    let mut node = PropagationNode::new(PropagationNodeConfig::default(), [0xAA; 16]);
    let link = NewLink { link_id: [1; 16], request_data: vec![1] };
    assert!(task.request_sync_now_with_policy(
        &mut mailbox,
        OutboundOfferPolicy::unrestricted(peer_hash),
        link,
        NOW
    ));

    let mut peer = LxmPeer::new(peer_hash);
    let before = peer.constraints();
    let mut change = PeerChange {
        before: Some(before),
        after: Some(before),
        changed: true,
    };
    let upkeep = settle_peer_change(
        &mut scheduler, &mut task, &mut mailbox, &mut node, &peer_hash, &change, None,
    );
    assert!(matches!(upkeep, PeerUpkeep::Save));
    assert_eq!(task.state, SyncTaskState::Establishing);

    peer.propagation_transfer_limit = Some(1000);
    change.after = Some(peer.constraints());
    let upkeep = settle_peer_change(
        &mut scheduler, &mut task, &mut mailbox, &mut node, &peer_hash, &change, None,
    );
    assert!(matches!(upkeep, PeerUpkeep::SaveAndSyncAgain));
    assert_eq!(task.state, SyncTaskState::Idle);
    assert!(scheduler.pending_peer_syncs.contains(&peer_hash));

    change.after = None;
    let upkeep = settle_peer_change(
        &mut scheduler, &mut task, &mut mailbox, &mut node, &peer_hash, &change, None,
    );
    assert!(matches!(upkeep, PeerUpkeep::Remove(None)));
    assert!(!scheduler.pending_peer_syncs.contains(&peer_hash));

    // What was no peer and is none has no file to be written.
    let stranger = PeerChange { before: None, after: None, changed: true };
    let upkeep = settle_peer_change(
        &mut scheduler, &mut task, &mut mailbox, &mut node, &peer_hash, &stranger, None,
    );
    assert!(matches!(upkeep, PeerUpkeep::Nothing));
    let newcomer = PeerChange { before: None, after: Some(before), changed: true };
    let upkeep = settle_peer_change(
        &mut scheduler, &mut task, &mut mailbox, &mut node, &peer_hash, &newcomer, None,
    );
    assert!(matches!(upkeep, PeerUpkeep::Save));
}

fn ended(state: PeerSyncTerminalState) -> PeerSyncTerminalResult {
    PeerSyncTerminalResult {
        peer_hash: [7; 16],
        state,
        offer_generation: Some(3),
        generation_exhausted: true,
        offered: 5,
        outgoing: 4,
        tx_bytes: 1000,
        link_establishment_rate: Some(77),
        sync_transfer_rate: Some(TransferRate { wire_bytes: 10, elapsed_ms: 20 }),
    }
}

#[test]
fn syncs_are_counted_when_they_are_complete() {
    let mut accounts = PeerAccounts::new();
    accounts.peers.insert([7; 16], LxmPeer::new([7; 16]));
    let handled = ([7; 16], vec![[1; 32]]);

    let (notices, unsaved) =
        accounts.drive_propagation_sync(None, Some(&ended(PeerSyncTerminalState::Failed)));
    assert_eq!(notices, vec![PeerNotice::Heard, PeerNotice::SyncFailed]);
    assert_eq!(unsaved, vec![[7; 16]]);
    assert_eq!(accounts.peers.get(&[7; 16]).unwrap().offered, 0);
    assert_eq!(accounts.peers.get(&[7; 16]).unwrap().link_establishment_rate, Some(77));

    let (notices, unsaved) = accounts
        .drive_propagation_sync(Some(&handled), Some(&ended(PeerSyncTerminalState::Complete)));
    assert_eq!(
        notices,
        vec![
            PeerNotice::Heard,
            PeerNotice::SyncComplete,
            PeerNotice::GenerationProcessed(3)
        ]
    );
    assert_eq!(unsaved, vec![[7; 16]], "a peer is written once");
    let peer = accounts.peers.get(&[7; 16]).unwrap();
    assert_eq!((peer.offered, peer.outgoing, peer.tx_bytes), (5, 4, 1000));
    assert_eq!(
        peer.sync_transfer_rate,
        Some(TransferRate { wire_bytes: 10, elapsed_ms: 20 })
    );
    assert!(peer.has_handled(&[1; 32]));

    let stranger = ([8; 16], vec![[1; 32]]);
    let (notices, unsaved) = accounts.drive_propagation_sync(Some(&stranger), None);
    assert!(notices.is_empty() && unsaved.is_empty());
}

#[test]
fn what_strangers_send_is_counted_apart() {
    let mut accounts = PeerAccounts::new();
    let notice = accounts.apply_propagation_store_commit(&PropagationStoreCommitResult {
        origin: PropagationStoreWriteOrigin::Peer([9; 16]),
        committed: vec![([1; 32], 100), ([2; 32], 50)],
    });
    assert_eq!(notice, None);
    assert_eq!(accounts.unpeered_propagation_incoming, 2);
    assert_eq!(accounts.unpeered_propagation_rx_bytes, 150);
    accounts.apply_propagation_store_commit(&PropagationStoreCommitResult {
        origin: PropagationStoreWriteOrigin::LocalDelivery,
        committed: vec![([3; 32], 100)],
    });
    assert_eq!(accounts.client_propagation_messages_received, 0);
    accounts.record_client_propagation_served(u64::MAX);
    accounts.record_client_propagation_served(1);
    assert_eq!(accounts.client_propagation_messages_served, u64::MAX);
}

#[test]
fn keys_are_applied_put_off_or_ignored() {
    let mut accounts = PeerAccounts::new();
    let mut scheduler = PeerScheduler::new();
    let mut peer = LxmPeer::new([7; 16]);
    peer.peering_cost = 10;
    accounts.peers.insert([7; 16], peer);
    scheduler.pending_peer_syncs.insert([7; 16]);
    scheduler.peering_key_jobs.insert([7; 16]);

    let result = |cost: u8, key: Option<([u8; 32], u32)>| PeeringKeyWorkerResult {
        peer_hash: [7; 16],
        peering_cost: cost,
        peering_key: key,
    };
    // A key for another cost counts if it is good enough by now.
    assert_eq!(
        accounts.apply_peering_key_result(&mut scheduler, &result(12, Some(([1; 32], 12))), 50),
        KeyOutcome::Applied
    );
    assert!(!scheduler.peering_key_jobs.contains(&[7; 16]));
    assert_eq!(
        accounts.apply_peering_key_result(&mut scheduler, &result(9, Some(([1; 32], 9))), 50),
        KeyOutcome::Ignored
    );
    assert!(scheduler.pending_peer_syncs.contains(&[7; 16]));
    assert_eq!(
        accounts.apply_peering_key_result(&mut scheduler, &result(10, None), 50),
        KeyOutcome::Postponed
    );
    assert!(!scheduler.pending_peer_syncs.contains(&[7; 16]));
    assert_eq!(accounts.peers.get(&[7; 16]).unwrap().next_sync_attempt, 770);
}

#[test]
fn orders_reach_known_peers() {
    let mut accounts = PeerAccounts::new();
    let mut scheduler = PeerScheduler::new();
    accounts.peers.insert([7; 16], LxmPeer::new([7; 16]));
    assert!(matches!(
        accounts.apply_control_command(&mut scheduler, &ControlCommand::Sync([8; 16])),
        ControlEffect::Nothing
    ));
    assert!(matches!(
        accounts.apply_control_command(&mut scheduler, &ControlCommand::Sync([7; 16])),
        ControlEffect::SyncQueued
    ));
    assert!(scheduler.pending_peer_syncs.contains(&[7; 16]));
    assert!(accounts.peers.get(&[7; 16]).unwrap().alive);
    assert!(matches!(
        accounts.apply_control_command(&mut scheduler, &ControlCommand::Unpeer([7; 16])),
        ControlEffect::Forget(peer) if peer == [7; 16]
    ));
    assert!(!accounts.peers.contains_key(&[7; 16]));
    assert!(!scheduler.pending_peer_syncs.contains(&[7; 16]));
}

fn ready_peer(hash: [u8; 16], alive: bool) -> LxmPeer {
    let mut peer = LxmPeer::new(hash);
    peer.alive = alive;
    peer.stamp_cost = Some(8);
    peer.stamp_cost_flexibility = Some(2);
    peer.peering_cost = 1;
    peer.peering_key = Some(([3; 32], 4));
    peer
}

#[test]
fn a_peer_is_synced_with_once_it_has_a_key() {
    let mut scheduler = PeerScheduler::new();
    let mut peers: PeerMap<LxmPeer> = PeerMap::new();
    let mut known = KnownIdentities::new();
    let mut keyless = ready_peer([1; 16], true);
    keyless.peering_key = None;
    peers.insert([1; 16], keyless);
    peers.insert([2; 16], ready_peer([2; 16], true));
    known.insert([1; 16], [5; 64]);
    known.insert([2; 16], [6; 64]);
    scheduler.queue_due_peer_syncs(&[[1; 16], [2; 16]]);

    let (jobs, policy) = scheduler.drive_pending_peer_syncs(&peers, &known);
    assert_eq!(jobs.len(), 1);
    assert_eq!(jobs[0].peer_hash, [1; 16]);
    assert_eq!(jobs[0].peer_identity_hash[..], sha256(&[5; 64])[..16]);
    let policy = policy.expect("a peer that is ready");
    assert_eq!(policy.peer_hash, [2; 16]);
    assert_eq!(policy.minimum_stamp_cost, 6);
    assert_eq!(scheduler.peer_sync_requested([2; 16], true), Some(PeerNotice::SyncBegun));
    assert!(!scheduler.pending_peer_syncs.contains(&[2; 16]));

    // The key is being searched for: nothing more is to be done.
    let (jobs, policy) = scheduler.drive_pending_peer_syncs(&peers, &known);
    assert!(jobs.is_empty());
    assert!(policy.is_none());
}

#[test]
fn packets_wait_for_their_check() {
    match take_propagation_packet(false, true, [1; 16], &[1, 2], 256, 16, 3) {
        PacketIntake::Check(job) => {
            assert_eq!(job.link_id, [1; 16]);
            assert_eq!(job.data, vec![1, 2]);
            assert_eq!(job.max_transfer_bytes, 256_000);
            assert_eq!(job.min_cost, 13);
        }
        other => panic!("expected a job, got {other:?}"),
    }
    assert!(matches!(
        take_propagation_packet(true, true, [1; 16], &[], 256, 16, 3),
        PacketIntake::Dropped
    ));
    assert!(matches!(
        take_propagation_packet(false, false, [1; 16], &[], 256, 16, 3),
        PacketIntake::Dropped
    ));
}

#[test]
fn checked_transfers_are_taken_in() {
    let mut node = PropagationNode::new(PropagationNodeConfig::default(), [0xAA; 16]);
    let result = PnValidationWorkerResult {
        token: 1,
        link_id: [2; 16],
        outcome: PnValidationOutcome::Valid,
        entries: vec![
            ValidatedPnEntry { lxmf_data: vec![1; 40], stamp_value: 300, stamp_data: [9; 32] },
            ValidatedPnEntry { lxmf_data: vec![1; 40], stamp_value: 20, stamp_data: [8; 32] },
        ],
        rejected: 0,
    };
    assert!(handle_propagation_validation_result(&mut node, None, &result, 5).is_none());
    let claim = ValidationClaim {
        link_id: [2; 16],
        peer_destination_hash: Some([7; 16]),
        should_close_link: true,
    };
    let ingress = handle_propagation_validation_result(&mut node, Some(claim), &result, 5)
        .expect("a transfer that is waited for");
    assert!(matches!(
        ingress.origin,
        PropagationStoreWriteOrigin::Peer(peer) if peer == [7; 16]
    ));
    assert_eq!(ingress.close_link, Some([2; 16]));
    assert_eq!(ingress.plans.len(), 1, "the same message is taken once");
    assert_eq!(ingress.plans[0].1, 40);
    assert_eq!(ingress.plans[0].0.size(), 72);
    assert_eq!(ingress.plans[0].0.transient_id(), sha256(&[1; 40]));
}

#[test]
fn messages_carry_the_address_they_are_for() {
    let own = [4; 16];
    let mut addressed = own.to_vec();
    addressed.extend_from_slice(b"rest");
    assert_eq!(address_inbound(&addressed, &own), addressed);
    assert_eq!(address_inbound(b"rest", &own), addressed);
    assert_eq!(handle_link_delivered_data(b"rest", &own), Some(addressed.clone()));
    assert_eq!(handle_link_delivered_data(b"", &own), None);

    assert!(handle_propagation_downloaded_data(&[4; 15], &own, None).is_none());
    let message = handle_propagation_downloaded_data(&addressed, &own, Some(b"clear")).unwrap();
    assert_eq!(message.data[..16], own);
    assert_eq!(&message.data[16..], b"clear");
    assert_eq!(message.transient_id, sha256(&addressed));
    let message = handle_propagation_downloaded_data(&addressed, &own, None).unwrap();
    assert_eq!(message.data, addressed);
}

#[test]
fn messages_are_delivered_when_something_speaks_for_them() {
    let good = InboundFacts {
        source_blackholed: false,
        signature: Some(true),
        has_stamp: true,
        has_id: true,
        stamp_good: true,
    };
    let policy = StampPolicy { enforce_stamps: true, stamp_cost: Some(8) };
    assert_eq!(judge_inbound(&good, &policy), InboundVerdict::Deliver);
    let judge = |facts: InboundFacts| judge_inbound(&facts, &policy);
    assert_eq!(
        judge(InboundFacts { source_blackholed: true, ..good }),
        InboundVerdict::Blackholed
    );
    assert_eq!(
        judge(InboundFacts { signature: Some(false), ..good }),
        InboundVerdict::BadSignature
    );
    assert_eq!(judge(InboundFacts { has_stamp: false, ..good }), InboundVerdict::NoStamp);
    assert_eq!(judge(InboundFacts { has_id: false, ..good }), InboundVerdict::NoId);
    assert_eq!(judge(InboundFacts { stamp_good: false, ..good }), InboundVerdict::BadStamp);
    let lax = StampPolicy { enforce_stamps: true, stamp_cost: None };
    assert_eq!(
        judge_inbound(&InboundFacts { has_stamp: false, ..good }, &lax),
        InboundVerdict::Deliver
    );
}

#[test]
fn attempts_at_a_message_are_bounded() {
    let routes = PeerMap::new();
    match propagated_packed(&outbound(1, 3), true, [9; 16], &routes, NOW) {
        LinkStep::Start { message, hops } => {
            assert_eq!(message.delivery_attempts, 4);
            assert_eq!(hops, 1);
        }
        other => panic!("expected a delivery, got {other:?}"),
    }
    match propagated_packed(&outbound(1, 4), true, [9; 16], &routes, NOW) {
        LinkStep::Order(RouterOrder::Requeue(message)) => {
            assert_eq!(message.delivery_attempts, MAX_DELIVERY_ATTEMPTS);
        }
        other => panic!("expected the message back, got {other:?}"),
    }
    match propagated_packed(&outbound(1, 3), false, [9; 16], &routes, NOW) {
        LinkStep::Order(RouterOrder::Requeue(message)) => assert_eq!(message.delivery_attempts, 3),
        other => panic!("expected the message back, got {other:?}"),
    }
}

fn failed(attempts: u32, reason: &str) -> DeliveryResult {
    DeliveryResult::Failed {
        msg_hash: Some([1; 32]),
        dest_hash: [5; 16],
        message: outbound(1, attempts),
        reason: reason.to_string(),
    }
}

#[test]
fn deliveries_that_failed_are_tried_again_or_reported() {
    let mut paths = PathMailbox::with_capacity(8);
    let effect =
        handle_link_delivery_result(&mut paths, failed(1, "link closed"), &[[1; 32]], NOW);
    assert!(matches!(effect.order, RouterOrder::DeferForPath(hash) if hash == [1; 32]));
    assert_eq!(paths.sent, vec![PathQuery::RequestPath([5; 16])]);

    let effect = handle_link_delivery_result(&mut paths, failed(1, "link closed"), &[], NOW);
    match effect.order {
        RouterOrder::Requeue(message) => {
            assert_eq!(message.delivery_attempts, 1);
            assert_eq!(message.next_delivery_attempt, NOW + 7_000);
        }
        other => panic!("expected the message back, got {other:?}"),
    }

    let effect =
        handle_link_delivery_result(&mut paths, failed(6, "link closed"), &[[1; 32]], NOW);
    assert!(matches!(effect.order, RouterOrder::MarkFailed(hash) if hash == [1; 32]));
    assert_eq!(effect.failure, Some("link closed".to_string()));
    let effect =
        handle_link_delivery_result(&mut paths, failed(1, "no such thing"), &[], NOW);
    assert!(matches!(effect.order, RouterOrder::Nothing));
    assert_eq!(effect.failure, Some("no such thing".to_string()));

    let done = DeliveryResult::Complete { msg_hash: Some([1; 32]) };
    let effect = handle_link_delivery_result(&mut paths, done, &[], NOW);
    assert!(matches!(effect.order, RouterOrder::MarkDelivered(hash) if hash == [1; 32]));
    let rejected =
        DeliveryResult::Rejected { msg_hash: Some([1; 32]), reason: "full".to_string() };
    let effect = handle_link_delivery_result(&mut paths, rejected, &[], NOW);
    assert!(matches!(effect.order, RouterOrder::MarkRejected(hash) if hash == [1; 32]));
}

#[test]
fn actions_of_the_router_begin() {
    let mut paths = PathMailbox::with_capacity(8);
    let mut known = KnownIdentities::new();
    let message = outbound(1, 0);
    let action = OutboundAction::DeliverPropagated { prop_hash: [9; 16] };
    let step = begin_action(&mut paths, &action, &message, &known, None, NOW);
    assert!(matches!(step, FirstStep::Order(RouterOrder::Requeue(m)) if m.delivery_attempts == 1));
    assert_eq!(paths.sent, vec![PathQuery::RequestPath([9; 16])]);
    known.insert([9; 16], [0; 64]);
    let step = begin_action(&mut paths, &action, &message, &known, None, NOW);
    assert!(matches!(step, FirstStep::PackForPropagation { prop_hash } if prop_hash == [9; 16]));

    let action = OutboundAction::DeliverOpportunistic { dest_hash: [1; 16] };
    let step = begin_action(&mut paths, &action, &message, &known, Some(7), NOW);
    assert!(matches!(step, FirstStep::Opportunistic { stamp: Some(7), .. }));
    let mut stamped = message;
    stamped.has_stamp = true;
    let step = begin_action(&mut paths, &action, &stamped, &known, Some(7), NOW);
    assert!(matches!(step, FirstStep::Opportunistic { stamp: None, .. }));
    let action = OutboundAction::DeliverDirect { dest_hash: [1; 16] };
    let step = begin_action(&mut paths, &action, &message, &known, Some(0), NOW);
    assert!(matches!(step, FirstStep::Direct { plan: None, stamp: None, .. }));
    let step = begin_action(&mut paths, &OutboundAction::Failed, &message, &known, None, NOW);
    assert!(matches!(step, FirstStep::Exhausted));
    let step = begin_action(&mut paths, &OutboundAction::Expired, &message, &known, None, NOW);
    assert!(matches!(step, FirstStep::Expired));
}

#[test]
fn direct_deliveries_follow_their_plan() {
    let mut paths = PathMailbox::with_capacity(8);
    let mut routes = PeerMap::new();
    routes.insert([1; 16], 4);
    let message = outbound(1, 0);
    let mut step = |plan: DirectDeliveryPlan, owned: bool, direct: bool, back: bool| {
        direct_delivery_step(
            &mut paths, &plan, &message, owned, [1; 16], direct, back, &routes,
        )
    };
    assert!(matches!(
        step(DirectDeliveryPlan::UseReusableLink, true, false, true),
        DirectStep::Backchannel
    ));
    assert!(matches!(
        step(DirectDeliveryPlan::UseReusableLink, true, true, true),
        DirectStep::Link { hops: 4 }
    ));
    assert!(matches!(
        step(DirectDeliveryPlan::StartNewLink { hops: 2 }, true, false, false),
        DirectStep::Link { hops: 2 }
    ));
    assert!(matches!(
        step(DirectDeliveryPlan::WaitForReusableLink, false, false, false),
        DirectStep::Order(RouterOrder::Requeue(_))
    ));
    assert!(matches!(
        step(DirectDeliveryPlan::WaitForReusableLink, true, false, false),
        DirectStep::Order(RouterOrder::Nothing)
    ));
    step(DirectDeliveryPlan::RequestPath { drop_existing: true }, true, false, false);
    assert_eq!(
        paths.sent,
        vec![PathQuery::DropPath([1; 16]), PathQuery::RequestPath([1; 16])]
    );
    assert!(matches!(
        link_start_failed(&mut paths, message, true, [1; 16], NOW),
        RouterOrder::DeferForPath(hash) if hash == [1; 32]
    ));
}

#[test]
fn packets_are_in_flight_until_they_are_proven() {
    let mut paths = PathMailbox::with_capacity(8);
    let routes = PeerMap::new();
    let step = opportunistic_encrypted(
        &mut paths,
        &Encryption::Packet { len: 500 },
        &outbound(1, 0),
        [1; 16],
        &routes,
        NOW,
    );
    let OpportunisticStep::Send { message } = step else {
        panic!("a packet of the largest size is sent");
    };
    assert!(matches!(
        opportunistic_encrypted(
            &mut paths,
            &Encryption::Packet { len: 501 },
            &outbound(1, 0),
            [1; 16],
            &routes,
            NOW
        ),
        OpportunisticStep::Link { hops: 1, .. }
    ));
    assert!(matches!(
        opportunistic_encrypted(
            &mut paths,
            &Encryption::UnknownIdentity,
            &outbound(1, 0),
            [1; 16],
            &routes,
            NOW
        ),
        OpportunisticStep::Order(RouterOrder::Requeue(_))
    ));

    let mut in_flight = InFlight::new();
    assert!(matches!(
        opportunistic_dispatched(&mut in_flight, &message, false),
        RouterOrder::Requeue(_)
    ));
    assert!(matches!(
        opportunistic_dispatched(&mut in_flight, &message, true),
        RouterOrder::Nothing
    ));
    assert!(take_delivery_proof(&mut in_flight, "no digits").is_none());
    assert!(take_delivery_proof(&mut in_flight, &"02".repeat(32)).is_none());
    assert!(retry_due_opportunistic_deliveries(&mut in_flight, NOW + 9_999).is_empty());
    let proven = take_delivery_proof(&mut in_flight, &"01".repeat(32)).expect("the message");
    assert_eq!(proven.hash, Some([1; 32]));
    assert!(take_delivery_proof(&mut in_flight, &"01".repeat(32)).is_none());

    opportunistic_dispatched(&mut in_flight, &message, true);
    let due = retry_due_opportunistic_deliveries(&mut in_flight, NOW + 10_000);
    assert_eq!(due.len(), 1);
    assert!(in_flight.keys().is_empty());
}

#[test]
fn resources_that_come_in_are_followed_to_their_end() {
    let key = InboundResourceKey { link_id: [1; 16], resource_id: [2; 32] };
    let concluded = |conclusion: LinkResourceConclusion| {
        delivery_resource_event_from_runtime(LinkResourceEvent::Concluded {
            link_id: [1; 16],
            resource_id: [2; 32],
            direction: LinkResourceDirection::Inbound,
            conclusion,
        })
    };
    assert_eq!(
        delivery_resource_event_from_runtime(LinkResourceEvent::Started {
            link_id: [1; 16],
            resource_id: [2; 32],
            direction: LinkResourceDirection::Inbound,
            data_size: 512,
            total_segments: 2,
        }),
        Some(InboundResourceEvent::Started { key, data_size: 512, total_segments: 2 })
    );
    assert_eq!(
        concluded(LinkResourceConclusion::Failed(3)),
        Some(InboundResourceEvent::Concluded {
            key,
            conclusion: InboundResourceConclusion::Failed
        })
    );
    assert_eq!(
        concluded(LinkResourceConclusion::Complete),
        Some(InboundResourceEvent::Concluded {
            key,
            conclusion: InboundResourceConclusion::Complete
        })
    );
}

#[test]
fn starts_and_ends_of_resources_are_reported_once() {
    let key = InboundResourceKey { link_id: [1; 16], resource_id: [2; 32] };
    let started = LinkResourceEvent::Started {
        link_id: [1; 16],
        resource_id: [2; 32],
        direction: LinkResourceDirection::Inbound,
        data_size: 512,
        total_segments: 2,
    };
    assert_eq!(resource_progress(started), None);
    match handle_delivery_accounting_event(AccountingEvent::Resource(started)) {
        DeliveryNews::Report(event) => assert_eq!(
            event,
            InboundResourceEvent::Started { key, data_size: 512, total_segments: 2 }
        ),
        other => panic!("{other:?}"),
    }
    let progress = LinkResourceEvent::Progress {
        link_id: [1; 16],
        resource_id: [2; 32],
        direction: LinkResourceDirection::Inbound,
        transferred: 1,
        total: 2,
    };
    assert_eq!(
        resource_progress(progress),
        Some(InboundResourceEvent::Progress { key, transferred: 1, total: 2 })
    );
    let outbound = LinkResourceEvent::Progress {
        link_id: [1; 16],
        resource_id: [2; 32],
        direction: LinkResourceDirection::Outbound,
        transferred: 1,
        total: 2,
    };
    assert_eq!(resource_progress(outbound), None);
    assert!(matches!(
        handle_delivery_accounting_event(AccountingEvent::Resource(outbound)),
        DeliveryNews::Nothing
    ));
}

#[test]
fn deliveries_and_closed_links_are_told_apart() {
    match handle_delivery_accounting_event(AccountingEvent::LinkClosed { link_id: [3; 16] }) {
        DeliveryNews::Report(event) => {
            assert_eq!(event, InboundResourceEvent::LinkClosed { link_id: [3; 16] })
        }
        other => panic!("{other:?}"),
    }
    match handle_delivery_accounting_event(AccountingEvent::Completed { data: vec![1, 2] }) {
        DeliveryNews::Delivered(data) => assert_eq!(data, vec![1, 2]),
        other => panic!("{other:?}"),
    }
    assert!(matches!(
        handle_delivery_accounting_event(AccountingEvent::Other),
        DeliveryNews::Nothing
    ));
}

#[test]
fn allowed_peers_are_looked_up_by_hash() {
    let mut set = PeerSet::new();
    assert!(set.insert([1; 16]));
    assert!(set.contains(&[1; 16]));
    assert!(!set.contains(&[2; 16]));
}

#[test]
fn a_full_runtime_queue_refuses_and_a_closed_transport_keeps_nothing() {
    let mut queue: RuntimeQueue<Vec<u8>> = RuntimeQueue::new();
    let mut mailbox: Mailbox<Vec<u8>> = Mailbox::with_capacity(1);
    assert!(queue.queue_runtime_transport(&mut mailbox, vec![1]));
    assert_eq!(mailbox.sent, vec![vec![1]]);
    for _ in 0..1024 {
        assert!(queue.queue_runtime_transport(&mut mailbox, vec![2]));
    }
    assert!(!queue.queue_runtime_transport(&mut mailbox, vec![3]));

    let mut queue: RuntimeQueue<Vec<u8>> = RuntimeQueue::new();
    let mut closed: Mailbox<Vec<u8>> = Mailbox::disconnected();
    assert!(!queue.queue_runtime_transport(&mut closed, vec![1]));
    assert!(closed.sent.is_empty());
}

#[test]
fn what_the_operator_names_is_taken_into_account() {
    let mut node = PropagationNode::new(PropagationNodeConfig::default(), [0xAA; 16]);
    let mut peers: PeerMap<LxmPeer> = PeerMap::new();
    let mut kept = LxmPeer::new([0x01; 16]);
    kept.add_handled_message(&[9; 32]);
    peers.insert([0x01; 16], kept);
    peers.insert([0x02; 16], LxmPeer::new([0x02; 16]));
    let mut static_peers = Vec::new();
    let named = NamedDestinations {
        control_allowed: vec!["0a".repeat(16), "nonsense".to_string()],
        static_peers: vec!["01".repeat(16), "03".repeat(16), "01".repeat(16), "04".repeat(15)],
        prioritise_destinations: vec!["dd".repeat(16), String::new()],
    };
    let allowed = apply_config(&named, &mut peers, &mut static_peers, &mut node);
    assert_eq!(allowed, vec![[0x0A; 16]]);
    assert_eq!(static_peers, vec![[0x01; 16], [0x03; 16]]);
    assert!(peers.get(&[0x01; 16]).unwrap().is_static);
    assert!(peers.get(&[0x01; 16]).unwrap().has_handled(&[9; 32]));
    assert!(!peers.get(&[0x02; 16]).unwrap().is_static);
    assert!(peers.get(&[0x03; 16]).unwrap().is_static);
    assert_eq!(peers.keys().len(), 3);
    assert!(node.store().is_destination_prioritised(&[0xDD; 16]));
    assert!(!node.store().is_destination_prioritised(&[0x00; 16]));
}

#[test]
fn cancellations_keep_their_order_and_end_with_the_link_layer() {
    let first = InboundResourceKey { link_id: [1; 16], resource_id: [2; 32] };
    let second = InboundResourceKey { link_id: [3; 16], resource_id: [4; 32] };
    let orders = forward_inbound_resource_cancellations(&[first, second], true);
    assert_eq!(orders.len(), 2);
    assert_eq!(orders[0].resource_id, [2; 32]);
    assert_eq!(orders[1].link_id, [3; 16]);
    assert!(forward_inbound_resource_cancellations(&[first], false).is_empty());
}

#[test]
fn what_the_link_layer_says_of_a_send_is_reported() {
    let answered = |answer| backchannel_send_result(SendOutcome::Answered(answer));
    assert_eq!(
        answered(Ok(LinkPayloadSendReceipt::Packet { link_id: [1; 16], packet_hash: [2; 32] })),
        Ok(BackchannelSendReceipt::Packet { link_id: [1; 16], packet_hash: [2; 32] })
    );
    assert_eq!(
        answered(Ok(LinkPayloadSendReceipt::Resource {
            link_id: [1; 16],
            resource_hash: [2; 32]
        })),
        Ok(BackchannelSendReceipt::Resource { link_id: [1; 16], resource_hash: [2; 32] })
    );
    assert_eq!(
        answered(Err(LinkSendError::LinkNotFound)),
        Err(BackchannelSendError::LinkNotFound)
    );
    assert_eq!(
        answered(Err(LinkSendError::LinkNotActive)),
        Err(BackchannelSendError::LinkNotActive)
    );
    assert_eq!(
        answered(Err(LinkSendError::NoSessionKeys)),
        Err(BackchannelSendError::NoSessionKeys)
    );
    assert_eq!(
        answered(Err(LinkSendError::IdentityUnavailable("no identity".to_string()))),
        Err(BackchannelSendError::Other("no identity".to_string()))
    );
    assert_eq!(
        answered(Err(LinkSendError::IdentificationUnavailable("not shown".to_string()))),
        Err(BackchannelSendError::Other("not shown".to_string()))
    );
    assert_eq!(
        answered(Err(LinkSendError::TransportUnavailable)),
        Err(BackchannelSendError::TransportUnavailable)
    );
    assert_eq!(
        answered(Err(LinkSendError::ResourceStartFailed)),
        Err(BackchannelSendError::ResourceStartFailed)
    );
    assert_eq!(
        backchannel_send_result(SendOutcome::Unanswered),
        Err(BackchannelSendError::TransportUnavailable)
    );
}

#[test]
fn an_announce_is_waited_for_only_so_long() {
    let mut wait = AnnounceWait::new();
    assert_eq!(wait.look(false, true), AnnounceStep::Wait);
    assert_eq!(wait.look(true, false), AnnounceStep::Wait);
    // The announce was heard earlier; now the key is known too.
    assert_eq!(wait.look(false, true), AnnounceStep::Ready);

    let mut wait = AnnounceWait::new();
    for _ in 0..30 {
        assert_eq!(wait.look(false, true), AnnounceStep::Wait);
    }
    assert_eq!(wait.look(true, true), AnnounceStep::SendAnyway { have_key: true });
}

fn no_work() -> OutboundWork {
    OutboundWork {
        pending_outbound: 0,
        pending_deferred_stamps: 0,
        in_flight: 0,
        link_pending: 0,
        failed: false,
    }
}

#[test]
fn a_message_counts_as_sent_when_nothing_is_left_of_it() {
    let state = begin_send(3);
    let busy = OutboundWork { in_flight: 1, ..no_work() };
    let state = look_at_send(state, false, &busy, 3);
    assert_eq!(state, SendState::Draining { left: 2 });
    let linked = OutboundWork { link_pending: 1, ..no_work() };
    let state = look_at_send(state, false, &linked, 3);
    assert_eq!(state, SendState::OverLink { left: 3 });
    let state = look_at_send(state, false, &no_work(), 3);
    assert_eq!(state, SendState::Ended(SendEnd::Sent));
    // What ended stays as it is.
    assert_eq!(look_at_send(state, true, &busy, 3), state);
}

#[test]
fn sending_ends_in_every_other_way_too() {
    let busy = OutboundWork { pending_outbound: 1, ..no_work() };
    let linked = OutboundWork { link_pending: 2, ..no_work() };
    let failed = OutboundWork { failed: true, ..no_work() };
    assert_eq!(begin_send(0), SendState::Ended(SendEnd::NotConfirmed));
    assert_eq!(
        look_at_send(SendState::Draining { left: 1 }, false, &busy, 5),
        SendState::Ended(SendEnd::NotConfirmed)
    );
    assert_eq!(
        look_at_send(SendState::OverLink { left: 1 }, false, &linked, 5),
        SendState::Ended(SendEnd::LinkNotDone)
    );
    assert_eq!(
        look_at_send(begin_send(5), false, &failed, 5),
        SendState::Ended(SendEnd::Failed)
    );
    assert_eq!(
        look_at_send(begin_send(5), true, &no_work(), 5),
        SendState::Ended(SendEnd::Interrupted)
    );
}

#[test]
fn the_first_announce_waits_for_an_interface() {
    let mut polls: u32 = 0;
    assert_eq!(look_at_interfaces(&mut polls, StartupPoll::Quiet), StartupStep::Wait);
    assert_eq!(look_at_interfaces(&mut polls, StartupPoll::Online), StartupStep::Announce);
    assert_eq!(
        look_at_interfaces(&mut polls, StartupPoll::TransportClosed),
        StartupStep::AnnounceAnyway
    );
    assert_eq!(look_at_interfaces(&mut polls, StartupPoll::Stopped), StartupStep::Cancelled);

    let mut polls: u32 = 0;
    for _ in 0..29 {
        assert_eq!(look_at_interfaces(&mut polls, StartupPoll::Quiet), StartupStep::Wait);
    }
    assert_eq!(
        look_at_interfaces(&mut polls, StartupPoll::Quiet),
        StartupStep::AnnounceAnyway
    );
    assert!(any_online(&[false, true]));
    assert!(!any_online(&[false, false]));
    assert!(!any_online(&[]));
}

#[test]
fn a_node_for_static_peers_says_that_it_takes_nothing() {
    let settings = |propagation_enabled: bool, from_static_only: bool| AnnounceSettings {
        propagation_enabled,
        from_static_only,
        propagation_limit_kb: 256,
        sync_limit_kb: 10_240,
        propagation_stamp_cost: 16,
        propagation_stamp_flex: 3,
        peering_cost: 20,
        node_name: Some("Rat Nest".to_string()),
    };
    let announced = settings(true, false).announced();
    assert!(announced.node_state);
    assert_eq!(announced.transfer_limit_kb, 256);
    assert_eq!(announced.sync_limit_kb, 10_240);
    assert_eq!(announced.stamp_cost, 16);
    assert_eq!(announced.stamp_flexibility, 3);
    assert_eq!(announced.peering_cost, 20);
    assert_eq!(announced.name.as_deref(), Some("Rat Nest"));
    assert!(!settings(true, true).announced().node_state);
    assert!(!settings(false, false).announced().node_state);
}

#[test]
fn signatures_are_checked_with_the_signing_half_of_a_known_source() {
    let mut known = KnownIdentities::new();
    let mut public_key = [1u8; 64];
    public_key[32..].fill(2);
    known.insert([0x0A; 16], public_key);
    assert_eq!(signing_key_of(&known, &[0x0A; 16]), Some([2; 32]));
    assert_eq!(signing_key_of(&known, &[0x0B; 16]), None);
    assert_eq!(signature_fact(None), None);
    assert_eq!(signature_fact(Some(SignatureCheck::Good)), Some(true));
    assert_eq!(signature_fact(Some(SignatureCheck::Bad)), Some(false));
    assert_eq!(signature_fact(Some(SignatureCheck::InvalidKey)), Some(false));
}

#[test]
fn peers_have_no_turn_while_a_sync_is_under_way() {
    let mut scheduler = PeerScheduler::new();
    let mut peers: PeerMap<LxmPeer> = PeerMap::new();
    let mut peer = LxmPeer::new([0x01; 16]);
    peer.stamp_cost = Some(16);
    peer.stamp_cost_flexibility = Some(3);
    peer.peering_cost = 0;
    peers.insert([0x01; 16], peer);
    let mut known = KnownIdentities::new();
    known.insert([0x01; 16], [7; 64]);
    scheduler.queue_due_peer_syncs(&[[0x01; 16]]);

    let (jobs, policy) = scheduler.drive_peer_syncs_when_idle(false, &peers, &known);
    assert!(jobs.is_empty());
    assert!(policy.is_none());
    assert!(scheduler.pending_peer_syncs.contains(&[0x01; 16]));

    let (_, policy) = scheduler.drive_peer_syncs_when_idle(true, &peers, &known);
    assert_eq!(policy.unwrap().peer_hash, [0x01; 16]);
}
