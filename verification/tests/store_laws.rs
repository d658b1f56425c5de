//! What holds of the store, its files, its offers and its messages.

use std::collections::VecDeque;

use lxmf_propagation::daemon::ingress::{handle_inbound_message, settle_store_writes};
use lxmf_propagation::daemon::intake::unpack_propagation_wrapper_bounded;
use lxmf_propagation::node::get::GetRequestAction;
use lxmf_propagation::node::upkeep::StoredFile;
use lxmf_propagation::node::{LxMessage, PropagationNode, PropagationNodeConfig, StoreWriteError};
use lxmf_propagation::offer::{
    decode_offer, evaluate_decoded, OfferResponse, PnOfferEvaluation, PnOfferEvaluationError,
};
use lxmf_propagation::peer::LxmPeer;
use lxmf_propagation::stamper::{
    generate_stamp, stamp_value, stamp_workblock, stored_stamp_value, validate_peering_key,
    validate_pn_stamp, STAMP_WORKBLOCK_EXPAND_ROUNDS_PEERING, STAMP_WORKBLOCK_EXPAND_ROUNDS_PN,
};
use lxmf_propagation::store::{PropagationEntry, PropagationStore};
use lxmf_propagation::sync::{
    prepare_sync_offer_snapshot, OutboundOfferPolicy, SyncOfferCandidateSnapshot,
    SyncOfferPreparationSnapshot,
};
use lxmf_propagation::sync_task::offer::TransferPlan;
use lxmf_propagation::sync_task::transfer::prepare_transfer_batch;
use lxmf_propagation::tables::{IdSet, PeerMap};
use lxmf_propagation::transport::{flush, hand_over, Handed, Mailbox};
use rmpv::Value;
use rns_crypto::hkdf::hkdf;
use rns_crypto::sha256::sha256;

const NOW: u64 = 1_700_000_000;

fn entry(byte: u8, size: usize, stored_at: u64) -> PropagationEntry {
    PropagationEntry::new([byte; 32], [byte; 32], [0xDD; 16], size, 0, stored_at)
}

fn unwritten(_: &String, _: &Vec<u8>) -> bool {
    panic!("a node without a disk writes nothing");
}

fn new_node() -> PropagationNode {
    PropagationNode::new(PropagationNodeConfig::default(), [0xAA; 16])
}

fn message(byte: u8) -> LxMessage {
    LxMessage {
        destination_hash: [0xBB; 16],
        hash: Some([byte; 32]),
        transient_id: None,
        timestamp: NOW,
        stamp: None,
        packed: Some(vec![byte; 120]),
    }
}

#[test]
fn the_best_stamps_are_stored_as_the_largest_value() {
    assert_eq!(stored_stamp_value(0), 0);
    assert_eq!(stored_stamp_value(13), 13);
    assert_eq!(stored_stamp_value(255), 255);
    assert_eq!(stored_stamp_value(256), 255);
}

#[test]
fn file_names_read_back() {
    let stored = PropagationEntry::new([0x0A; 32], [0; 32], [0; 16], 10, 13, NOW);
    let name = stored.filename();
    assert_eq!(name, format!("{}_1700000000_13", "0a".repeat(32)));
    assert_eq!(PropagationEntry::parse_filename(&name), Some(([0x0A; 32], NOW, 13)));
}

#[test]
fn other_file_names_are_not_read() {
    let id = "0a".repeat(32);
    for name in [
        "".to_string(),
        id.clone(),
        format!("{id}_12"),
        format!("{id}_12_256"),
        format!("{id}_twelve_1"),
        format!("{}_12_1", "0a".repeat(16)),
        format!("{}_12_1", "zz".repeat(32)),
        "bbbbbbbbbbbbbbbbbbbbbbbbbbbbbbbb.peer".to_string(),
    ] {
        assert_eq!(PropagationEntry::parse_filename(&name), None, "{name}");
    }
}

#[test]
fn weight_is_size_times_age_with_a_floor() {
    let mut store = PropagationStore::new();
    // Ten times 400_000 seconds times 7 bytes.
    assert_eq!(store.compute_weight(&entry(1, 7, NOW - 400_000), NOW), 28_000_000);
    // Up to four days of age count as four days.
    assert_eq!(store.compute_weight(&entry(1, 7, NOW), NOW), 24_192_000);
    store.prioritise_destination([0xDD; 16]);
    assert_eq!(store.compute_weight(&entry(1, 7, NOW - 400_000), NOW), 2_800_000);
    store.unprioritise_destination(&[0xDD; 16]);
    assert_eq!(store.compute_weight(&entry(1, 7, NOW - 400_000), NOW), 28_000_000);
}

#[test]
fn heaviest_messages_leave_until_the_rest_fits() {
    let mut store = PropagationStore::new();
    assert!(store.insert(entry(1, 300, NOW)));
    assert!(store.insert(entry(2, 500, NOW)));
    assert!(store.insert(entry(3, 200, NOW)));
    store.cull_by_weight(500, NOW);
    assert_eq!(store.total_size(), 500);
    assert!(!store.contains(&[2; 32]));
    store.cull_by_weight(0, NOW);
    assert_eq!(store.len(), 0);
}

#[test]
fn a_message_of_the_age_limit_stays() {
    let mut store = PropagationStore::new();
    assert!(store.insert(entry(1, 10, NOW - 100)));
    assert!(store.insert(entry(2, 10, NOW - 101)));
    store.cull_expired(100, NOW);
    assert!(store.contains(&[1; 32]));
    assert!(!store.contains(&[2; 32]));
}

#[test]
fn a_store_holds_nothing_twice() {
    let mut store = PropagationStore::new();
    assert!(store.insert(entry(1, 10, NOW)));
    assert!(!store.insert(entry(1, 20, NOW)));
    assert_eq!(store.total_size(), 10);
    assert_eq!(store.remove(&[1; 32]).map(|entry| entry.size), Some(10));
    assert!(store.remove(&[1; 32]).is_none());
}

#[test]
fn an_aborted_admission_leaves_no_trace() {
    let mut node = new_node();
    let plan = node.plan_accept_message(&message(1)).expect("reservation");
    let (id, size) = (plan.transient_id(), plan.size());
    assert_eq!((id, size), ([1; 32], 120));
    node.abort_store_write(&id, size);
    // What is committed now was not reserved.
    assert!(!node.commit_store_write(plan.persist(true).unwrap()));
    assert_eq!(node.message_count(), 0);
    assert_eq!(node.offer_generation(), 0);
    assert!(node.accept_message(&message(1), unwritten));
    assert_eq!(node.offer_generation(), 1);
}

#[test]
fn a_commit_of_an_ignored_destination_leaves_no_file() {
    let (mut node, _) = PropagationNode::with_storage(
        PropagationNodeConfig::default(),
        [0xAA; 16],
        "dir".to_string(),
        &Vec::new(),
    );
    let plan = node.plan_accept_message(&message(1)).expect("reservation");
    let path = plan.file().expect("a file").0.clone();
    node.ignore_destination([0xBB; 16]);
    assert!(!node.commit_store_write(plan.persist(true).unwrap()));
    assert_eq!(node.take_removals(), vec![path]);
    assert!(node.take_removals().is_empty());
}

#[test]
fn settled_writes_are_stored_or_released() {
    let (mut node, _) = PropagationNode::with_storage(
        PropagationNodeConfig::default(),
        [0xAA; 16],
        "dir".to_string(),
        &Vec::new(),
    );
    let mut plans = Vec::new();
    for byte in [1u8, 2, 3] {
        let plan = node.plan_accept_message(&message(byte)).expect("reservation");
        plans.push((plan, 1000 + byte as u64));
    }
    let committed = settle_store_writes(&mut node, plans, &vec![true, false, true]);
    assert_eq!(committed, vec![([1; 32], 1001), ([3; 32], 1003)]);
    assert!(node.contains(&[1; 32]));
    assert!(!node.contains(&[2; 32]));
    assert!(node.plan_accept_message(&message(2)).is_some());
    assert!(node.plan_accept_message(&message(1)).is_none());
}

#[test]
fn a_failed_write_is_an_error_only_with_a_disk() {
    let mut node = new_node();
    let plan = node.plan_accept_message(&message(1)).expect("reservation");
    assert!(plan.file().is_none());
    assert!(plan.persist(false).is_ok());

    let (mut node, _) = PropagationNode::with_storage(
        PropagationNodeConfig::default(),
        [0xAA; 16],
        "dir".to_string(),
        &Vec::new(),
    );
    let plan = node.plan_accept_message(&message(1)).expect("reservation");
    assert_eq!(plan.persist(false).err(), Some(StoreWriteError));
}

#[test]
fn a_delivered_message_is_taken_in_once() {
    let mut node = new_node();
    assert!(handle_inbound_message(&mut node, &message(7), false).is_none());
    let ingress = handle_inbound_message(&mut node, &message(7), true).expect("a write");
    assert_eq!(ingress.plans.len(), 1);
    assert_eq!(ingress.plans[0].1, 120);
    assert!(handle_inbound_message(&mut node, &message(7), true).is_none());
}

#[test]
fn upkeep_meets_the_cap_and_asks_for_cleanup() {
    let mut node = new_node();
    node.set_max_storage(250);
    for byte in [1u8, 2, 3] {
        node.accept_message(&message(byte), unwritten);
    }
    assert_eq!(node.total_size(), 360, "the message that crosses the cap is taken");
    node.tick(NOW);
    assert_eq!(node.total_size(), 240);
    assert!(node.total_size() <= 250);
}

#[test]
fn orphans_are_the_files_of_no_message() {
    let (mut node, _) = PropagationNode::with_storage(
        PropagationNodeConfig::default(),
        [0xAA; 16],
        "dir".to_string(),
        &Vec::new(),
    );
    let mut name = String::new();
    assert!(node.accept_message(&message(1), |path: &String, _: &Vec<u8>| {
        name = path.strip_prefix("dir/").unwrap().to_string();
        true
    }));
    let orphan = entry(9, 1, NOW).filename();
    let names = vec![name, orphan.clone(), "a.peer".to_string(), "b.msgpack".to_string()];
    assert_eq!(node.orphaned_files(&names), vec![orphan]);
}

#[test]
fn unnamed_files_are_not_loaded() {
    let files = vec![
        StoredFile { name: "notes.txt".to_string(), content: Some(vec![1; 64]), unpacked: None },
        StoredFile {
            name: entry(5, 64, NOW).filename(),
            content: Some(vec![0x42; 64]),
            unpacked: None,
        },
    ];
    let (node, unreadable) = PropagationNode::with_storage(
        PropagationNodeConfig::default(),
        [0xAA; 16],
        "dir".to_string(),
        &files,
    );
    assert!(unreadable.is_empty());
    assert_eq!(node.message_count(), 1);
    let loaded = node.store().get(&[5; 32]).unwrap();
    assert_eq!(loaded.destination_hash, [0x42; 16]);
    assert_eq!(loaded.message_hash, sha256(&[0x42; 64]));
    assert!(loaded.stamped);
}

#[test]
fn malformed_downloads_are_answered_at_once() {
    let mut node = new_node();
    let action = node.handle_get_request(&[0xC1], &[0xBB; 16]);
    assert!(matches!(action, GetRequestAction::Respond(_)));
}

fn candidate(byte: u8, weight: u128, size: usize) -> SyncOfferCandidateSnapshot {
    SyncOfferCandidateSnapshot { transient_id: [byte; 32], weight, size, stamp_value: 0 }
}

#[test]
fn offers_go_by_weight_and_then_by_identifier() {
    let snapshot = SyncOfferPreparationSnapshot {
        policy: OutboundOfferPolicy::unrestricted([0xBB; 16]),
        generation: 4,
        peer_path: None,
        candidates: vec![candidate(3, 5, 10), candidate(2, 9, 10), candidate(1, 5, 10)],
    };
    let prepared = prepare_sync_offer_snapshot(snapshot, &[[2; 32]]);
    assert_eq!(prepared.selected_ids, vec![[1; 32], [3; 32]]);
    assert!(prepared.generation_exhausted);
    assert_eq!(prepared.generation, 4);
}

#[test]
fn what_is_kept_of_a_peer_decides_an_offer_without_a_policy() {
    let mut node = new_node();
    for byte in [1u8, 2] {
        assert!(node.accept_message(&message(byte), unwritten));
    }
    let mut saved = LxmPeer::new([0xCC; 16]);
    saved.add_handled_message(&[1; 32]);
    let (offer, record) = node.prepare_sync_offer([0xCC; 16], Some(&saved), NOW);
    assert_eq!(offer.transient_ids, vec![vec![2u8; 32]]);
    assert!(record.is_none());
    node.mark_peer_handled(&[0xCC; 16], &[2; 32], Some(&mut saved));
    assert!(saved.has_handled(&[2; 32]));
}

#[test]
fn answers_read_back() {
    for response in [
        OfferResponse::WantAll,
        OfferResponse::HaveAll,
        OfferResponse::WantSome(vec![vec![1; 32], vec![2; 5]]),
        OfferResponse::ErrorNoIdentity,
        OfferResponse::ErrorNoAccess,
        OfferResponse::ErrorInvalidKey,
        OfferResponse::ErrorThrottled,
        OfferResponse::ErrorInvalidData,
        OfferResponse::ErrorInvalidStamp,
        OfferResponse::Unknown,
    ] {
        assert_eq!(OfferResponse::from_msgpack(&response.to_msgpack()), response);
    }
    assert_eq!(OfferResponse::ErrorThrottled.to_msgpack(), vec![0xCC, 0xF6]);
    assert_eq!(OfferResponse::WantAll.to_msgpack(), vec![0xC3]);
    assert_eq!(OfferResponse::from_msgpack(&[0x07]), OfferResponse::Unknown);
    assert_eq!(OfferResponse::from_msgpack(&[0xC1]), OfferResponse::Unknown);
}

#[test]
fn offers_are_taken_apart_or_refused() {
    let mut data = Vec::new();
    rmpv::encode::write_value(
        &mut data,
        &Value::Array(vec![
            Value::Binary(vec![9; 3]),
            Value::Array(vec![Value::Binary(vec![1; 32]), Value::Binary(vec![2; 32])]),
        ]),
    )
    .unwrap();
    let offer = decode_offer(&data, data.len()).expect("an offer");
    assert_eq!(offer.peering_key, vec![9; 3]);
    assert_eq!(offer.transient_ids, vec![[1; 32], [2; 32]]);

    assert_eq!(
        decode_offer(&data, data.len() - 1).err(),
        Some(PnOfferEvaluationError::InvalidData)
    );
    // A positive number is no offer.
    assert_eq!(decode_offer(&[0x01], 10).err(), Some(PnOfferEvaluationError::InvalidData));

    let mut store = PropagationStore::new();
    store.insert(entry(1, 10, NOW));
    let evaluation = evaluate_decoded(offer, &[1; 16], &[2; 16], 0, &store);
    assert_eq!(evaluation, Ok(PnOfferEvaluation::WantSome(vec![[2; 32]])));

    let offer = decode_offer(&data, data.len()).expect("an offer");
    store.insert(entry(2, 10, NOW));
    assert_eq!(
        evaluate_decoded(offer, &[1; 16], &[2; 16], 0, &store),
        Ok(PnOfferEvaluation::HaveAll)
    );
    let offer = decode_offer(&data, data.len()).expect("an offer");
    assert_eq!(
        evaluate_decoded(offer, &[1; 16], &[2; 16], 8, &store),
        Err(PnOfferEvaluationError::InvalidKey)
    );
}

#[test]
fn offers_come_at_most_every_three_minutes() {
    let mut node = PropagationNode::new(
        PropagationNodeConfig { peering_cost: 0, ..Default::default() },
        [0xAA; 16],
    );
    let (local, remote) = ([1; 16], [2; 16]);
    let ctx = lxmf_propagation::node::peers::OfferRequestContext {
        peer_hash: [0xBB; 16],
        identity_known: true,
        is_throttled: false,
        access_allowed: true,
        local_identity_hash: Some(&local),
        remote_identity_hash: Some(&remote),
    };
    // [key, []]
    let request = [0x92, 0xC4, 0x00, 0x90];
    let answer = |node: &mut PropagationNode, now: u64| {
        OfferResponse::from_msgpack(&node.handle_offer_request(&request, ctx, now))
    };
    assert_eq!(answer(&mut node, NOW), OfferResponse::HaveAll);
    assert_eq!(answer(&mut node, NOW + 179), OfferResponse::ErrorThrottled);
    assert_eq!(answer(&mut node, NOW + 180), OfferResponse::HaveAll);

    let refused = lxmf_propagation::node::peers::OfferRequestContext {
        access_allowed: false,
        ..ctx
    };
    assert_eq!(
        OfferResponse::from_msgpack(&node.handle_offer_request(&request, refused, NOW + 1000)),
        OfferResponse::ErrorNoAccess
    );
    let throttled = lxmf_propagation::node::peers::OfferRequestContext {
        is_throttled: true,
        ..ctx
    };
    assert_eq!(
        OfferResponse::from_msgpack(&node.handle_offer_request(&request, throttled, NOW + 1000)),
        OfferResponse::ErrorThrottled
    );
}

fn numbered(material: &[u8], n: u64) -> [u8; 32] {
    let mut input = material.to_vec();
    rmpv::encode::write_value(&mut input, &Value::from(n)).unwrap();
    sha256(&input)
}

#[test]
fn workblocks_are_chained_keys() {
    let material = b"material";
    let mut expected = Vec::new();
    for n in 0..3u64 {
        expected.extend(hkdf(256, material, Some(&numbered(material, n)), None).unwrap());
    }
    assert_eq!(expected.len(), 768);
    assert_eq!(stamp_workblock(material, 3), expected);
}

#[test]
fn stamps_are_worth_their_leading_zero_bits() {
    let (stamp, value) = generate_stamp(b"identity", 6, 2).expect("a stamp");
    let workblock = stamp_workblock(b"identity", 2);
    let mut input = workblock.clone();
    input.extend_from_slice(&stamp);
    let digest = sha256(&input);
    let zeros: u32 = digest
        .iter()
        .position(|byte| *byte != 0)
        .map(|i| 8 * i as u32 + digest[i].leading_zeros())
        .unwrap_or(256);
    assert_eq!(value, zeros);
    assert_eq!(stamp_value(&workblock, &stamp), zeros);
    assert!(value >= 6);
}

#[test]
fn made_keys_are_accepted_by_the_peer_alone() {
    let (peer, local) = ([0x21; 16], [0x43; 16]);
    let mut peering_id = peer.to_vec();
    peering_id.extend_from_slice(&local);
    let (key, _) =
        generate_stamp(&peering_id, 10, STAMP_WORKBLOCK_EXPAND_ROUNDS_PEERING).expect("a key");
    assert!(validate_peering_key(&peering_id, &key, 10));
    assert!(!validate_peering_key(&peering_id, &key[..31], 10));

    let store = PropagationStore::new();
    // [key, []]
    let mut request = vec![0x92, 0xC4, 0x20];
    request.extend_from_slice(&key);
    request.push(0x90);
    let offer = decode_offer(&request, 1000).expect("an offer");
    assert!(evaluate_decoded(offer, &peer, &local, 10, &store).is_ok());
}

#[test]
fn stamped_messages_are_taken_apart() {
    let data = vec![0x42; 120];
    let id = sha256(&data);
    let (stamp, value) =
        generate_stamp(&id, 3, STAMP_WORKBLOCK_EXPAND_ROUNDS_PN).expect("a stamp");
    let mut stamped = data.clone();
    stamped.extend_from_slice(&stamp);
    let validated = validate_pn_stamp(&stamped, 3).expect("a good stamp");
    assert_eq!(validated.lxmf_data, data);
    assert_eq!(validated.stamp_data, stamp);
    assert_eq!(validated.stamp_value, value);
    assert!(validate_pn_stamp(&stamped, 200).is_none());
    assert!(validate_pn_stamp(&stamped[..144], 0).is_none(), "too short to hold a message");
}

#[test]
fn transfers_are_read_back_by_the_peer() {
    let (mut node, _) = PropagationNode::with_storage(
        PropagationNodeConfig::default(),
        [0xAA; 16],
        "dir".to_string(),
        &Vec::new(),
    );
    for byte in [1u8, 2, 3] {
        assert!(node.accept_message(&message(byte), |_: &String, _: &Vec<u8>| true));
    }
    let ids = vec![[1; 32], [2; 32], [3; 32]];
    let plan = TransferPlan { requested_count: 3, reads: node.plan_message_reads(&ids) };
    let contents = vec![Some(vec![1; 120]), None, Some(vec![3; 120])];
    let batch = prepare_transfer_batch(&plan, &contents, 12_500);
    assert_eq!(batch.transient_ids, vec![[1; 32], [3; 32]]);
    assert_eq!(batch.requested_count, 3);
    assert_eq!(
        unpack_propagation_wrapper_bounded(&batch.payload, batch.payload.len()),
        Some(vec![vec![1; 120], vec![3; 120]])
    );
    assert_eq!(
        unpack_propagation_wrapper_bounded(&batch.payload, batch.payload.len() - 1),
        None
    );
}

#[test]
fn messages_wait_in_order() {
    let mut pending: VecDeque<Vec<u8>> = VecDeque::new();
    let mut mailbox: Mailbox<Vec<u8>> = Mailbox::with_capacity(1);
    assert_eq!(hand_over(&mut pending, &mut mailbox, 2, vec![1]), Handed::Sent);
    assert_eq!(hand_over(&mut pending, &mut mailbox, 2, vec![2]), Handed::Staged);
    mailbox.free = 1;
    assert_eq!(
        hand_over(&mut pending, &mut mailbox, 2, vec![3]),
        Handed::Staged,
        "nothing overtakes what waits"
    );
    assert_eq!(hand_over(&mut pending, &mut mailbox, 2, vec![4]), Handed::Overflow);
    mailbox.free = 5;
    assert!(flush(&mut pending, &mut mailbox));
    assert_eq!(mailbox.sent, vec![vec![1], vec![2], vec![3]]);
    mailbox.closed = true;
    assert_eq!(hand_over(&mut pending, &mut mailbox, 2, vec![5]), Handed::Closed);
}

#[test]
fn tables_keep_one_value_for_a_key() {
    let mut table: PeerMap<u8> = PeerMap::new();
    table.insert([1; 16], 5);
    table.insert([1; 16], 6);
    assert_eq!(table.get(&[1; 16]), Some(&6));
    assert_eq!(table.keys(), vec![[1; 16]]);
    *table.get_mut(&[1; 16]).unwrap() = 7;
    assert_eq!(table.take(&[1; 16]), Some(7));
    assert!(!table.contains_key(&[1; 16]));

    let mut set = IdSet::new();
    assert!(set.insert([1; 32]));
    assert!(!set.insert([1; 32]));
    set.extend(&[[1; 32], [2; 32]]);
    assert_eq!(set.copy().to_vec().len(), 2);
    assert!(set.remove(&[1; 32]));
    assert!(!set.remove(&[1; 32]));
}

#[test]
fn what_is_kept_of_a_peer_holds_what_it_will_never_take() {
    let mut node = new_node();
    assert!(node.accept_message(&message(1), unwritten));
    let mut saved = LxmPeer::new([0xC1; 16]);
    saved.add_handled_messages(&[[1; 32], [9; 32]]);
    let mut policy = OutboundOfferPolicy::unrestricted([0xC1; 16]);
    policy.handled_messages.insert([2; 32]);
    policy.propagation_transfer_limit = Some(1_000);

    let kept = node.persist_peer_handled(Some(&saved), &policy, &[[3; 32]]);
    assert_eq!(kept.destination_hash, [0xC1; 16]);
    assert_eq!(kept.propagation_transfer_limit, Some(1_000));
    assert_eq!(kept.propagation_sync_limit, None);
    assert!(kept.has_handled(&[2; 32]));
    assert!(kept.has_handled(&[3; 32]));
    // The store does not hold this message any more.
    assert!(!kept.has_handled(&[9; 32]));

    let fresh = node.persist_peer_handled(None, &policy, &[]);
    assert_eq!(fresh.destination_hash, [0xC1; 16]);
    assert!(fresh.has_handled(&[2; 32]));
    assert!(!fresh.has_handled(&[3; 32]));
}

#[test]
fn settings_decide_what_is_admitted() {
    let mut node = new_node();
    node.set_max_message_size(100);
    assert!(!node.accept_message(&message(1), unwritten));
    node.set_max_message_size(120);
    assert!(node.accept_message(&message(1), unwritten));

    node.set_min_stamp_cost(8);
    assert_eq!(node.min_stamp_cost(), 8);
    assert!(!node.accept_propagated_blob(&[0xBB; 64], 7, NOW, unwritten));
    assert!(node.accept_propagated_blob(&[0xBB; 64], 8, NOW, unwritten));
}

#[test]
fn sessions_are_changed_in_place() {
    let mut node = new_node();
    assert!(node.get_session_mut(&[0xC1; 16]).is_none());
    node.start_session([0xC1; 16]);
    match node.get_session_mut(&[0xC1; 16]) {
        Some(session) => {
            session.record_transfer();
            session.mark_complete();
        }
        None => panic!("the session was started"),
    }
    let session = node.get_session(&[0xC1; 16]).unwrap();
    assert_eq!(session.transferred, 1);
    assert!(session.complete);
}

#[test]
fn requests_that_need_no_file_are_answered_at_once() {
    let mut node = new_node();
    let mut request = Vec::new();
    rmpv::encode::write_value(
        &mut request,
        &Value::Array(vec![Value::Nil, Value::Nil]),
    )
    .unwrap();
    let answer = node.handle_get_request(&request, &[0xBB; 16]).into_response(&Vec::new(), None);
    let value = rmpv::decode::read_value(&mut answer.as_slice()).unwrap();
    assert_eq!(value, Value::Array(Vec::new()));
}

#[test]
fn a_session_is_changed_where_it_is_started() {
    let mut node = new_node();
    node.start_session([0xC1; 16]).record_transfer();
    assert_eq!(node.start_session([0xC1; 16]).transferred, 1);
    assert_eq!(node.get_session(&[0xC1; 16]).unwrap().transferred, 1);
}

#[test]
fn answers_to_offers_read_back() {
    let answers = [
        OfferResponse::WantAll,
        OfferResponse::HaveAll,
        OfferResponse::WantSome(vec![vec![1; 32], vec![2; 32]]),
        OfferResponse::ErrorThrottled,
        OfferResponse::Unknown,
    ];
    for answer in answers {
        let data = PropagationNode::encode_offer_response(&answer);
        assert_eq!(OfferResponse::from_msgpack(&data), answer);
    }
}

#[test]
fn purging_keeps_what_was_not_named() {
    let mut node = new_node();
    assert!(node.accept_message(&message(1), unwritten));
    assert!(node.accept_message(&message(2), unwritten));
    let mut request = Vec::new();
    let haves = Value::Array(vec![Value::Binary(vec![1; 32])]);
    rmpv::encode::write_value(&mut request, &Value::Array(vec![Value::Nil, haves])).unwrap();
    node.handle_get_request(&request, &[0xBB; 16]);
    assert!(!node.contains(&[1; 32]));
    assert!(node.contains(&[2; 32]));
    assert_eq!(node.store().len(), 1);
}
