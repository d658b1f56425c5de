//! The propagation node: admission, offers, downloads, files and upkeep.

use std::cell::RefCell;
use std::collections::BTreeMap;

use lxmf_propagation::constants::DESTINATION_LENGTH;
use lxmf_propagation::node::get::{ClientLimit, GetRequestAction};
use lxmf_propagation::node::peers::{
    InstallPreparedSyncOffer, OfferRequestContext, PnOfferCandidate,
};
use lxmf_propagation::node::upkeep::{StoredFile, UnpackedMessage};
use lxmf_propagation::node::{LxMessage, PropagationNode, PropagationNodeConfig};
use lxmf_propagation::offer::{OfferResponse, PnOfferEvaluation};
use lxmf_propagation::peer::LxmPeer;
use lxmf_propagation::stamper::{generate_stamp, STAMP_WORKBLOCK_EXPAND_ROUNDS_PEERING};
use lxmf_propagation::store::PropagationEntry;
use lxmf_propagation::sync::{
    prepare_sync_offer_snapshot, OutboundOfferPolicy, SyncGet, SyncOffer,
};
use lxmf_propagation::tables::IdSet;
use rmpv::Value;
use rns_crypto::sha256::sha256;

const NOW: u64 = 1_700_000_000;

/// A directory that lives in memory.
struct Disk {
    files: RefCell<BTreeMap<String, Vec<u8>>>,
    broken: RefCell<bool>,
}

impl Disk {
    fn new() -> Disk {
        Disk { files: RefCell::new(BTreeMap::new()), broken: RefCell::new(false) }
    }

    fn write(&self, path: &String, data: &Vec<u8>) -> bool {
        if *self.broken.borrow() {
            return false;
        }
        self.files.borrow_mut().insert(path.clone(), data.clone());
        true
    }

    fn read(&self, path: &String) -> Option<Vec<u8>> {
        self.files.borrow().get(path).cloned()
    }

    fn remove_all(&self, paths: Vec<String>) {
        for path in paths {
            self.files.borrow_mut().remove(&path);
        }
    }

    fn count(&self) -> usize {
        self.files.borrow().len()
    }

    fn listing(&self, directory: &str) -> Vec<StoredFile> {
        let prefix = format!("{directory}/");
        self.files
            .borrow()
            .iter()
            .filter_map(|(path, data)| {
                path.strip_prefix(&prefix).map(|name| StoredFile {
                    name: name.to_string(),
                    content: Some(data.clone()),
                    unpacked: unpack(data),
                })
            })
            .collect()
    }
}

/// Unpacks a plain message: destination, source, signature and payload.
fn unpack(data: &[u8]) -> Option<UnpackedMessage> {
    let payload = data.get(96..)?;
    match rmpv::decode::read_value(&mut &payload[..]) {
        Ok(Value::Array(fields)) if fields.len() == 4 => {
            let mut destination_hash = [0u8; 16];
            destination_hash.copy_from_slice(&data[..16]);
            let mut signed = data[..32].to_vec();
            signed.extend_from_slice(payload);
            Some(UnpackedMessage { hash: Some(sha256(&signed)), destination_hash })
        }
        _ => None,
    }
}

fn encode(value: &Value) -> Vec<u8> {
    let mut data = Vec::new();
    rmpv::encode::write_value(&mut data, value).unwrap();
    data
}

fn decode(data: &[u8]) -> Value {
    rmpv::decode::read_value(&mut &data[..]).unwrap()
}

fn make_unsigned_message(dest: [u8; 16]) -> LxMessage {
    LxMessage {
        destination_hash: dest,
        hash: None,
        transient_id: None,
        timestamp: NOW,
        stamp: None,
        packed: None,
    }
}

fn make_signed_message(dest: [u8; 16], src: [u8; 16], title: &str, content: &str) -> LxMessage {
    let payload = encode(&Value::Array(vec![
        Value::from(NOW),
        Value::from(title),
        Value::from(content),
        Value::Map(vec![]),
    ]));
    let mut signed = dest.to_vec();
    signed.extend_from_slice(&src);
    let mut packed = signed.clone();
    signed.extend_from_slice(&payload);
    packed.extend_from_slice(&[0x51; 64]);
    packed.extend_from_slice(&payload);
    let hash = sha256(&signed);
    LxMessage {
        destination_hash: dest,
        hash: Some(hash),
        transient_id: Some(hash),
        timestamp: NOW,
        stamp: None,
        packed: Some(packed),
    }
}

fn nowhere(_: &String, _: &Vec<u8>) -> bool {
    panic!("a node without a disk writes nothing");
}

fn accept(node: &mut PropagationNode, message: &LxMessage) -> bool {
    node.accept_message(message, nowhere)
}

fn new_node(config: PropagationNodeConfig) -> PropagationNode {
    PropagationNode::new(config, [0xAA; 16])
}

fn default_node() -> PropagationNode {
    new_node(PropagationNodeConfig::default())
}

fn stored_node(disk: &Disk, directory: &str) -> PropagationNode {
    let (node, unreadable) = PropagationNode::with_storage(
        PropagationNodeConfig::default(),
        [0xAA; 16],
        directory.to_string(),
        &disk.listing(directory),
    );
    assert!(unreadable.is_empty());
    node
}

fn tid(byte: u8) -> [u8; 32] {
    [byte; 32]
}

fn id(byte: u8) -> Vec<u8> {
    vec![byte; 32]
}

fn insert_offer_entry(node: &mut PropagationNode, transient_id: [u8; 32], size: usize, stamp: u8) {
    let entry = PropagationEntry::new(transient_id, transient_id, [0xDD; 16], size, stamp, NOW);
    assert!(node.store_mut().insert(entry));
}

fn peering_key(local_identity: &[u8; 16], remote_identity: &[u8; 16], cost: u8) -> [u8; 32] {
    let mut peering_id = Vec::with_capacity(32);
    peering_id.extend_from_slice(local_identity);
    peering_id.extend_from_slice(remote_identity);
    generate_stamp(&peering_id, cost, STAMP_WORKBLOCK_EXPAND_ROUNDS_PEERING).unwrap().0
}

fn offer_ctx<'a>(
    peer_hash: [u8; 16],
    identity_known: bool,
    is_throttled: bool,
    access_allowed: bool,
    local_identity_hash: Option<&'a [u8; 16]>,
    remote_identity_hash: Option<&'a [u8; 16]>,
) -> OfferRequestContext<'a> {
    OfferRequestContext {
        peer_hash,
        identity_known,
        is_throttled,
        access_allowed,
        local_identity_hash,
        remote_identity_hash,
    }
}

fn offer_request(key: &[u8], ids: &[Vec<u8>]) -> Vec<u8> {
    encode(&Value::Array(vec![
        Value::Binary(key.to_vec()),
        Value::Array(ids.iter().map(|id| Value::Binary(id.clone())).collect()),
    ]))
}

fn id_list(ids: &[[u8; 32]]) -> Value {
    Value::Array(ids.iter().map(|id| Value::Binary(id.to_vec())).collect())
}

fn get_request(wants: Option<&[[u8; 32]]>, haves: Option<&[[u8; 32]]>) -> Vec<u8> {
    let list = |ids: Option<&[[u8; 32]]>| match ids {
        Some(ids) => id_list(ids),
        None => Value::Nil,
    };
    encode(&Value::Array(vec![list(wants), list(haves)]))
}

/// A limit in kilobytes as bytes.
fn limit_in_bytes(limit: Option<ClientLimit>) -> Option<u64> {
    limit.map(|limit| {
        let kilobytes = match limit {
            ClientLimit::Unsigned(value) => value as f64,
            ClientLimit::Negative(value) => value as f64,
            ClientLimit::Single(bits) => f32::from_bits(bits) as f64,
            ClientLimit::Double(bits) => f64::from_bits(bits),
        };
        (kilobytes * 1000.0) as u64
    })
}

fn respond(disk: &Disk, action: GetRequestAction) -> (Vec<Value>, u64) {
    let (contents, limit) = match &action {
        GetRequestAction::ServeFiles(plan) => (
            plan.reads.iter().map(|read| disk.read(&read.path)).collect(),
            limit_in_bytes(plan.limit),
        ),
        GetRequestAction::Respond(_) => (Vec::new(), None),
    };
    let (data, served) = action.into_response_with_served_count(&contents, limit);
    match decode(&data) {
        Value::Array(items) => (items, served),
        _ => panic!("expected array response"),
    }
}

fn ask(
    disk: &Disk,
    node: &mut PropagationNode,
    request: &[u8],
    client: &[u8; 16],
) -> (Vec<Value>, u64) {
    let action = node.handle_get_request(request, client);
    respond(disk, action)
}

fn blob_of(fill: u8, total_len: usize) -> Vec<u8> {
    let mut blob = vec![0xBB; 16];
    blob.extend(std::iter::repeat(fill).take(total_len - 16));
    blob
}

#[test]
fn test_new_propagation_node() {
    let config = PropagationNodeConfig::default();
    assert_eq!(config.max_message_size, 1_000_000);
    let node = PropagationNode::new(config, [0xAA; 16]);
    assert_eq!(node.message_count(), 0);
    assert_eq!(node.total_size(), 0);
    assert_eq!(node.dest_hash, [0xAA; 16]);
}

#[test]
fn propagation_node_test_accept_message() {
    let mut node = default_node();
    let msg = make_signed_message([0xBB; 16], [0xCC; 16], "Test", "content");
    assert!(msg.hash.is_some());
    assert!(accept(&mut node, &msg));
    assert_eq!(node.message_count(), 1);
}

#[test]
fn store_write_reservation_blocks_duplicates_until_durable_commit() {
    let mut node = default_node();
    let msg = make_signed_message([0xBB; 16], [0xCC; 16], "Test", "reserved");
    let plan = node.plan_accept_message(&msg).expect("first reservation");
    assert_eq!(node.message_count(), 0, "reservation is not served state");
    assert!(node.plan_accept_message(&msg).is_none());

    let persisted = plan.persist(true).unwrap();
    assert!(node.commit_store_write(persisted));
    assert_eq!(node.message_count(), 1);
}

#[test]
fn failed_store_write_is_not_inserted_and_releases_reservation() {
    let disk = Disk::new();
    let mut node = stored_node(&disk, "store");
    let msg = make_signed_message([0xBB; 16], [0xCC; 16], "Test", "durable");
    let plan = node.plan_accept_message(&msg).expect("reservation");
    let transient_id = plan.transient_id();
    let size = plan.size();
    *disk.broken.borrow_mut() = true;

    let written = match plan.file() {
        Some((path, data)) => disk.write(path, data),
        None => panic!("a node with a disk writes a file"),
    };
    assert!(plan.persist(written).is_err());
    node.abort_store_write(&transient_id, size);
    assert_eq!(node.message_count(), 0);

    *disk.broken.borrow_mut() = false;
    assert!(node.accept_message(&msg, |path: &String, data: &Vec<u8>| disk.write(path, data)));
    assert_eq!(node.message_count(), 1);
}

#[test]
fn hosted_node_applies_ignored_destination_policy() {
    let destination = [0x44; 16];
    let mut node = default_node();
    node.ignore_destination(destination);
    assert!(node.is_destination_ignored(&destination));

    let mut blob = destination.to_vec();
    blob.extend_from_slice(b"encrypted-lxmf");
    assert!(!node.accept_stamped_propagated_blob(&blob, &[0; 32], 0, NOW, nowhere));
    assert_eq!(node.message_count(), 0);

    node.unignore_destination(&destination);
    assert!(node.accept_stamped_propagated_blob(&blob, &[0; 32], 0, NOW, nowhere));
}

#[test]
fn unhandled_count_is_derived_from_live_store_and_peer_handled_set() {
    let mut node = default_node();
    let msg = make_signed_message([0xBB; 16], [0xCC; 16], "Test", "content");
    let transient_id = msg.transient_id.or(msg.hash).unwrap();
    assert!(accept(&mut node, &msg));

    let mut handled = IdSet::new();
    assert_eq!(node.unhandled_message_count(&handled), 1);
    handled.insert(transient_id);
    assert_eq!(node.unhandled_message_count(&handled), 0);
}

#[test]
fn test_reject_duplicate() {
    let mut node = default_node();
    let msg = make_signed_message([0xBB; 16], [0xCC; 16], "Test", "duplicate");
    assert!(accept(&mut node, &msg));
    assert!(!accept(&mut node, &msg));
    assert_eq!(node.message_count(), 1);
}

#[test]
fn test_reject_no_hash() {
    let mut node = default_node();
    let msg = make_unsigned_message([0xBB; 16]);
    assert!(msg.hash.is_none());
    assert!(!accept(&mut node, &msg));
}

#[test]
fn test_reject_store_full() {
    let mut node = new_node(PropagationNodeConfig { max_storage: 1, ..Default::default() });

    let msg1 = make_signed_message([0xBB; 16], [0xCC; 16], "Test", "msg1");
    assert!(accept(&mut node, &msg1));

    let msg2 = make_signed_message([0xBB; 16], [0xCC; 16], "Test", "msg2");
    assert!(!accept(&mut node, &msg2));
}

#[test]
fn test_create_offer() {
    let mut node = default_node();
    let msg1 = make_signed_message([0xBB; 16], [0xCC; 16], "Test", "msg1");
    let msg2 = make_signed_message([0xBB; 16], [0xCC; 16], "Test", "msg2");
    accept(&mut node, &msg1);
    accept(&mut node, &msg2);

    let offer = node.create_offer([0xFF; 16], None);
    assert_eq!(offer.len(), 2);
}

#[test]
fn test_create_offer_filtered() {
    let mut node = default_node();

    let msg1 = make_signed_message([0xBB; 16], [0xCC; 16], "Test", "msg1");
    let msg2 = make_signed_message([0xBB; 16], [0xCC; 16], "Test", "msg2");

    let tid1 = msg1.transient_id.unwrap();
    accept(&mut node, &msg1);
    accept(&mut node, &msg2);

    let all = node.create_offer([0xFF; 16], None);
    assert_eq!(all.len(), 2);

    let mut handled = IdSet::new();
    handled.insert(tid1);

    let filtered = node.create_offer_filtered(&handled);
    assert_eq!(filtered.len(), 1);
}

#[test]
fn authoritative_offer_policy_combines_all_filters_and_real_key() {
    let mut node = default_node();
    insert_offer_entry(&mut node, tid(0x01), 100, 20); // handled
    insert_offer_entry(&mut node, tid(0x02), 100, 12); // low stamp
    insert_offer_entry(&mut node, tid(0x03), 100, 13); // accepted
    insert_offer_entry(&mut node, tid(0x04), 985, 20); // 1001 B with overhead
    insert_offer_entry(&mut node, tid(0x05), 984, 13); // exact 1000 B

    let mut policy = OutboundOfferPolicy::unrestricted([0xBB; 16]);
    policy.handled_messages.insert(tid(0x01));
    policy.minimum_stamp_cost = 13;
    policy.propagation_transfer_limit = Some(1000);
    policy.propagation_sync_limit = Some(10_000);
    policy.peering_key = vec![0x77; 32];

    let (offer, _) = node.prepare_sync_offer_with_policy(&policy, None, NOW);

    assert_eq!(offer.peering_key, vec![0x77; 32]);
    assert_eq!(offer.transient_ids, vec![tid(0x03).to_vec(), tid(0x05).to_vec()]);
    assert_eq!(
        node.get_session(&policy.peer_hash).unwrap().offered_ids,
        vec![tid(0x03), tid(0x05)]
    );
}

#[test]
fn offer_cumulative_limit_is_decimal_and_excludes_exact_boundary() {
    let mut node = default_node();
    insert_offer_entry(&mut node, tid(0x01), 50, 0);
    insert_offer_entry(&mut node, tid(0x02), 50, 0);
    let mut policy = OutboundOfferPolicy::unrestricted([0xBB; 16]);
    // 24 initial + (50 + 16) + (50 + 16) = 156 bytes. The second candidate is
    // left out because it would reach the limit.
    policy.propagation_sync_limit = Some(156);

    let (offer, _) = node.prepare_sync_offer_with_policy(&policy, None, NOW);

    assert_eq!(offer.transient_ids, vec![tid(0x01).to_vec()]);
}

#[test]
fn prepared_offer_distinguishes_terminal_filters_from_cumulative_deferral() {
    let mut node = default_node();
    insert_offer_entry(&mut node, tid(0x01), 10, 9); // terminal low stamp
    insert_offer_entry(&mut node, tid(0x02), 100, 20); // selected
    insert_offer_entry(&mut node, tid(0x03), 100, 20); // cumulative deferred
    insert_offer_entry(&mut node, tid(0x04), 1000, 20); // terminal oversize
    let mut policy = OutboundOfferPolicy::unrestricted([0xBB; 16]);
    policy.minimum_stamp_cost = 10;
    policy.propagation_transfer_limit = Some(500);
    policy.propagation_sync_limit = Some(200);

    let prepared =
        prepare_sync_offer_snapshot(node.snapshot_sync_offer_preparation(&policy, NOW), &[]);

    assert_eq!(prepared.selected_ids, vec![tid(0x02)]);
    assert_eq!(prepared.terminal_handled_ids, vec![tid(0x01), tid(0x04)]);
    assert!(
        !prepared.generation_exhausted,
        "cumulative-only skips must stay pending for another batch"
    );
}

#[test]
fn all_cumulatively_deferred_candidates_exhaust_unchanged_generation() {
    let mut node = default_node();
    insert_offer_entry(&mut node, tid(0x01), 50, 20);
    insert_offer_entry(&mut node, tid(0x02), 50, 20);
    let mut policy = OutboundOfferPolicy::unrestricted([0xBB; 16]);
    // Initial overhead (24) + either transfer (50 + 16) exceeds this
    // generation's peer policy, so a reconnect cannot make progress.
    policy.propagation_sync_limit = Some(50);

    let prepared =
        prepare_sync_offer_snapshot(node.snapshot_sync_offer_preparation(&policy, NOW), &[]);

    assert!(prepared.selected_ids.is_empty());
    assert!(prepared.terminal_handled_ids.is_empty());
    assert!(
        prepared.generation_exhausted,
        "zero-progress cumulative deferral must not hot-loop the same generation"
    );
}

#[test]
fn prepared_offer_revalidates_store_generation_before_install() {
    let mut node = default_node();
    let mut first = vec![0x11; DESTINATION_LENGTH + 1];
    first[0] = 0x01;
    assert!(node.accept_propagated_blob(&first, 0, NOW, nowhere));
    let policy = OutboundOfferPolicy::unrestricted([0xBB; 16]);
    let snapshot = node.snapshot_sync_offer_preparation(&policy, NOW);

    let mut second = vec![0x22; DESTINATION_LENGTH + 1];
    second[0] = 0x02;
    assert!(node.accept_propagated_blob(&second, 0, NOW, nowhere));
    let prepared = prepare_sync_offer_snapshot(snapshot, &[]);

    assert!(matches!(
        node.install_prepared_sync_offer(prepared),
        InstallPreparedSyncOffer::Stale
    ));
}

#[test]
fn passed_and_persisted_handled_sets_are_unioned() {
    let disk = Disk::new();
    let mut node = stored_node(&disk, "union");
    insert_offer_entry(&mut node, tid(0x01), 50, 0);
    insert_offer_entry(&mut node, tid(0x02), 50, 0);
    insert_offer_entry(&mut node, tid(0x03), 50, 0);

    let mut persisted = LxmPeer::new([0xBB; 16]);
    persisted.add_handled_message(&tid(0x01));
    assert!(node.save_peer(&persisted).is_some());
    let mut policy = OutboundOfferPolicy::unrestricted([0xBB; 16]);
    policy.handled_messages.insert(tid(0x02));

    let (offer, _) = node.prepare_sync_offer_with_policy(&policy, Some(&persisted), NOW);
    assert_eq!(offer.transient_ids, vec![tid(0x03).to_vec()]);

    assert!(node.delete_peer(&[0xBB; 16]).is_some());
    assert!(node.load_peers(Vec::new()).is_empty());
}

#[test]
fn test_propagation_disk_persistence() {
    let disk = Disk::new();
    {
        let mut node = stored_node(&disk, "persist");
        let msg = make_signed_message([0xBB; 16], [0xCC; 16], "Test", "persistent content");
        assert!(node.accept_message(&msg, |path: &String, data: &Vec<u8>| disk.write(path, data)));
        assert_eq!(node.message_count(), 1);
    }

    // A fresh node reloads from disk.
    {
        let node = stored_node(&disk, "persist");
        assert_eq!(node.message_count(), 1);
    }
}

#[test]
fn test_disk_load_ignores_pre_fix_16_byte_transient_id_filenames() {
    let disk = Disk::new();
    let old_filename = "aabbccddaabbccddaabbccddaabbccdd_1234567890_0";
    let mut lxmf_data = vec![0xBB; 16];
    lxmf_data.extend_from_slice(&[0xCC; 64]);
    disk.write(&format!("old/{old_filename}"), &lxmf_data);

    let node = stored_node(&disk, "old");
    assert_eq!(node.message_count(), 0);
}

/// A client may only list, download and purge messages addressed to itself.
#[test]
fn test_get_request_ownership_gating() {
    let disk = Disk::new();
    let mut node = stored_node(&disk, "ownership");

    let client_a = [0xCC; 16];
    let client_b = [0xDD; 16];
    let msg_a = make_signed_message(client_a, [0xBB; 16], "Test", "for A");
    let msg_b = make_signed_message(client_b, [0xBB; 16], "Test", "for B");
    assert!(node.accept_message(&msg_a, |path: &String, data: &Vec<u8>| disk.write(path, data)));
    assert!(node.accept_message(&msg_b, |path: &String, data: &Vec<u8>| disk.write(path, data)));

    let tid_a = node.store().entries_for_destination(&client_a)[0].transient_id;
    let tid_b = node.store().entries_for_destination(&client_b)[0].transient_id;

    // A requesting B's message gets nothing.
    let (messages, _) =
        ask(&disk, &mut node, &get_request(Some(&[tid_b]), Some(&[])), &client_a);
    assert_eq!(messages.len(), 0);
    assert!(node.store().get(&tid_b).is_some());

    // A's haves cannot purge B's entry.
    node.handle_get_request(&get_request(None, Some(&[tid_b])), &client_a);
    disk.remove_all(node.take_removals());
    assert!(node.store().get(&tid_b).is_some(), "foreign purge must be ignored");
    let name = node.store().get(&tid_b).unwrap().filename();
    assert!(
        disk.read(&format!("ownership/{name}")).is_some(),
        "B's file must survive A's purge attempt"
    );

    // A can still fetch its own message...
    let (messages, _) =
        ask(&disk, &mut node, &get_request(Some(&[tid_a]), Some(&[])), &client_a);
    assert_eq!(messages.len(), 1);

    // ...and purge it.
    node.handle_get_request(&get_request(None, Some(&[tid_a])), &client_a);
    assert!(node.store().get(&tid_a).is_none(), "own purge must work");
}

/// One unreadable file must not abort the whole load: it is put aside and the
/// remaining entries load.
#[test]
fn test_disk_load_quarantines_unreadable_file() {
    let disk = Disk::new();
    {
        let mut node = stored_node(&disk, "quarantine");
        let msg_a = make_signed_message([0xCC; 16], [0xBB; 16], "Test", "loads fine");
        let msg_b = make_signed_message([0xDD; 16], [0xBB; 16], "Test", "will corrupt");
        assert!(node.accept_message(&msg_a, |path: &String, data: &Vec<u8>| disk.write(path, data)));
        assert!(node.accept_message(&msg_b, |path: &String, data: &Vec<u8>| disk.write(path, data)));
    }

    // One stored file cannot be read; its name still parses.
    let mut files = disk.listing("quarantine");
    let victim = files[0].name.clone();
    files[0].content = None;
    files[0].unpacked = None;

    let (node, unreadable) = PropagationNode::with_storage(
        PropagationNodeConfig::default(),
        [0xAA; 16],
        "quarantine".to_string(),
        &files,
    );
    assert_eq!(
        node.message_count(),
        1,
        "remaining entry must load despite the unreadable file"
    );
    assert_eq!(unreadable, vec![victim], "unreadable file must be quarantined");
}

#[test]
fn test_tick_culls_expired() {
    let mut node = new_node(PropagationNodeConfig { max_message_age: 1, ..Default::default() });

    let mut msg = make_signed_message([0xBB; 16], [0xCC; 16], "Test", "will expire");
    msg.timestamp = 1000;
    accept(&mut node, &msg);
    assert_eq!(node.message_count(), 1);

    node.tick(NOW);
    assert_eq!(node.message_count(), 0);
}

/// After a message is culled the same message resurfacing is accepted again:
/// what the node has seen is what its store holds.
#[test]
fn test_reaccept_after_cull() {
    let mut node = new_node(PropagationNodeConfig { max_message_age: 1, ..Default::default() });

    let mut msg = make_signed_message([0xBB; 16], [0xCC; 16], "Test", "cull then redeliver");
    msg.timestamp = 1000;
    assert!(accept(&mut node, &msg), "first accept");
    assert_eq!(node.message_count(), 1);

    node.tick(NOW);
    assert_eq!(node.message_count(), 0, "culled by tick");

    // Fresh timestamp so the re-delivery isn't itself expired.
    msg.timestamp = NOW;
    assert!(accept(&mut node, &msg), "same message re-accepted after cull");
    assert_eq!(node.message_count(), 1);
}

/// A store that was full recovers capacity after culling.
#[test]
fn test_accept_after_store_full_and_cull() {
    let mut node = new_node(PropagationNodeConfig {
        max_storage: 1,
        max_message_age: 1,
        ..Default::default()
    });

    let mut msg1 = make_signed_message([0xBB; 16], [0xCC; 16], "Test", "first");
    msg1.timestamp = 1000; // ancient so tick will cull it
    assert!(accept(&mut node, &msg1));

    let msg2 = make_signed_message([0xBB; 16], [0xCC; 16], "Test", "rejected-while-full");
    assert!(!accept(&mut node, &msg2), "store full, second message must reject");

    node.tick(NOW);
    assert_eq!(node.message_count(), 0, "expired msg culled");

    let msg3 = make_signed_message([0xBB; 16], [0xCC; 16], "Test", "accepted-after-cull");
    assert!(accept(&mut node, &msg3), "store has space after cull, next message accepted");
    assert_eq!(node.message_count(), 1);
}

#[test]
fn test_tick_enforces_weight_cap() {
    let mut node = new_node(PropagationNodeConfig { max_storage: 1, ..Default::default() });
    let msg = make_signed_message([0xBB; 16], [0xCC; 16], "Test", "weight-cull");
    assert!(
        accept(&mut node, &msg),
        "ingest cap checks size before insert, first message is admitted"
    );
    assert_eq!(node.message_count(), 1);

    node.tick(NOW);
    assert_eq!(node.message_count(), 0, "tick must cull the store down to the weight cap");
}

#[test]
fn test_peer_persistence() {
    let disk = Disk::new();
    let mut node = stored_node(&disk, "peer");

    // A handled identifier backed by a live store entry survives; one whose
    // message is gone from the store is dropped.
    let msg = make_signed_message([0xBB; 16], [0xCC; 16], "Test", "peer-persist");
    assert!(node.accept_message(&msg, |path: &String, data: &Vec<u8>| disk.write(path, data)));
    let live_id = node.create_offer_filtered(&IdSet::new())[0];

    let mut peer = LxmPeer::new([0xBB; 16]);
    peer.add_handled_message(&live_id);
    peer.add_handled_message(&tid(0xCC));
    assert_eq!(
        node.save_peer(&peer),
        Some("peer/bbbbbbbbbbbbbbbbbbbbbbbbbbbbbbbb.peer".to_string())
    );
    drop(node);

    let node = stored_node(&disk, "peer");
    let loaded_peers = node.load_peers(vec![peer]);
    assert_eq!(loaded_peers.len(), 1);
    assert!(loaded_peers[0].has_handled(&live_id));
    assert!(
        !loaded_peers[0].has_handled(&tid(0xCC)),
        "handled ID without a store entry must be pruned at load"
    );
}

#[test]
fn test_peer_persistence_multiple() {
    let disk = Disk::new();
    let node = stored_node(&disk, "peers");

    let mut peer1 = LxmPeer::new([0xBB; 16]);
    peer1.add_handled_message(&tid(0x11));
    let path1 = node.save_peer(&peer1).unwrap();

    let mut peer2 = LxmPeer::new([0xDD; 16]);
    peer2.add_handled_message(&tid(0x22));
    peer2.add_handled_message(&tid(0x33));
    let path2 = node.save_peer(&peer2).unwrap();
    assert_ne!(path1, path2);

    let loaded = node.load_peers(vec![peer1, peer2]);
    assert_eq!(loaded.len(), 2);
}

#[test]
fn test_no_persistence_without_storage_path() {
    let node = default_node();
    let peer = LxmPeer::new([0xBB; 16]);
    assert_eq!(node.save_peer(&peer), None);
    let loaded = node.load_peers(Vec::new());
    assert!(loaded.is_empty());
}

#[test]
fn test_disk_cleanup_on_cull() {
    let disk = Disk::new();
    let (mut node, _) = PropagationNode::with_storage(
        PropagationNodeConfig { max_message_age: 1, ..Default::default() },
        [0xAA; 16],
        "cleanup".to_string(),
        &Vec::new(),
    );

    let mut msg = make_signed_message([0xBB; 16], [0xCC; 16], "Test", "cleanup test");
    msg.timestamp = 1000;
    node.accept_message(&msg, |path: &String, data: &Vec<u8>| disk.write(path, data));
    assert_eq!(disk.count(), 1);

    assert!(node.tick(NOW), "files have to be looked over");
    assert_eq!(node.message_count(), 0);
    let names: Vec<String> =
        disk.listing("cleanup").into_iter().map(|file| file.name).collect();
    for orphan in node.orphaned_files(&names) {
        disk.remove_all(vec![format!("cleanup/{orphan}")]);
    }
    assert_eq!(disk.count(), 0);
}

#[test]
fn test_sync_session_management() {
    let mut node = default_node();
    let peer_hash = [0xBB; 16];

    assert!(node.get_session(&peer_hash).is_none());
    let session = node.start_session(peer_hash);
    assert_eq!(session.peer_hash, peer_hash);

    assert!(node.get_session(&peer_hash).is_some());
    node.remove_session(&peer_hash);
    assert!(node.get_session(&peer_hash).is_none());
}

#[test]
fn test_offer_request_returns_missing() {
    let mut node = default_node();

    let msg1 = make_signed_message([0xBB; 16], [0xCC; 16], "Test", "msg1");
    let msg2 = make_signed_message([0xBB; 16], [0xCC; 16], "Test", "msg2");
    let msg3 = make_signed_message([0xBB; 16], [0xCC; 16], "Test", "msg3");

    let tid1 = msg1.transient_id.unwrap();
    let tid2 = msg2.transient_id.unwrap();
    let tid3 = msg3.transient_id.unwrap();

    accept(&mut node, &msg1);
    accept(&mut node, &msg2);
    accept(&mut node, &msg3);

    let peer_has = [tid1, tid2];
    let missing = node.offer_request([0xDD; 16], &peer_has);

    assert_eq!(missing.len(), 1);
    assert!(missing.contains(&tid3));
}

#[test]
fn test_offer_request_peer_has_nothing() {
    let mut node = default_node();
    let msg = make_signed_message([0xBB; 16], [0xCC; 16], "Test", "content");
    accept(&mut node, &msg);

    let missing = node.offer_request([0xDD; 16], &[]);
    assert_eq!(missing.len(), 1);
}

#[test]
fn test_offer_request_peer_has_everything() {
    let mut node = default_node();
    let msg = make_signed_message([0xBB; 16], [0xCC; 16], "Test", "content");
    let tid = msg.transient_id.unwrap();
    accept(&mut node, &msg);

    let missing = node.offer_request([0xDD; 16], &[tid]);
    assert!(missing.is_empty());
}

fn fetch(
    disk: &Disk,
    node: &PropagationNode,
    ids: &[[u8; 32]],
) -> Vec<([u8; 32], Vec<u8>)> {
    let ids = ids.to_vec();
    let contents: Vec<Option<Vec<u8>>> =
        node.plan_message_reads(&ids).iter().map(|read| disk.read(&read.path)).collect();
    node.message_get_request(&ids, &contents)
}

#[test]
fn test_message_get_request_with_storage() {
    let disk = Disk::new();
    let mut node = stored_node(&disk, "get");

    let msg = make_signed_message([0xBB; 16], [0xCC; 16], "Test", "get request content");
    let tid = msg.transient_id.unwrap();
    node.accept_message(&msg, |path: &String, data: &Vec<u8>| disk.write(path, data));

    let results = fetch(&disk, &node, &[tid]);
    assert_eq!(results.len(), 1);
    assert_eq!(results[0].0, tid);
    assert!(!results[0].1.is_empty());
    assert!(unpack(&results[0].1).is_some());
}

#[test]
fn test_message_get_request_unknown_id() {
    let disk = Disk::new();
    let node = stored_node(&disk, "get_unknown");

    let results = fetch(&disk, &node, &[tid(0xFF)]);
    assert!(results.is_empty());
}

#[test]
fn test_message_get_request_no_storage() {
    let node = default_node();
    let results = fetch(&Disk::new(), &node, &[tid(0xFF)]);
    assert!(results.is_empty());
}

#[test]
fn test_prepare_sync_offer() {
    let mut node = default_node();
    let msg1 = make_signed_message([0xBB; 16], [0xCC; 16], "Test", "sync1");
    let msg2 = make_signed_message([0xBB; 16], [0xCC; 16], "Test", "sync2");
    accept(&mut node, &msg1);
    accept(&mut node, &msg2);

    let peer_hash = [0xDD; 16];
    let (offer, _) = node.prepare_sync_offer(peer_hash, None, NOW);
    assert_eq!(offer.transient_ids.len(), 2);
    assert!(node.get_session(&peer_hash).is_some());
}

#[test]
fn test_process_sync_offer_and_get() {
    let mut node = default_node();

    let msg1 = make_signed_message([0xBB; 16], [0xCC; 16], "Test", "has_this");
    let tid1 = msg1.transient_id.unwrap();
    accept(&mut node, &msg1);

    let peer_hash = [0xDD; 16];
    let tid2 = tid(0xEE);

    let offer = SyncOffer {
        peering_key: Vec::new(),
        transient_ids: vec![tid1.to_vec(), tid2.to_vec()],
    };
    let get = node.process_sync_offer(peer_hash, &offer);
    assert_eq!(get.wanted_ids.len(), 1);
    assert_eq!(get.wanted_ids[0], tid2.to_vec());
}

#[test]
fn test_sync_lifecycle_complete() {
    let mut node = default_node();
    let peer_hash = [0xDD; 16];

    let msg = make_signed_message([0xBB; 16], [0xCC; 16], "Test", "lifecycle");
    accept(&mut node, &msg);

    let _offer = node.prepare_sync_offer(peer_hash, None, NOW);
    assert!(node.get_session(&peer_hash).is_some());

    node.complete_sync(&peer_hash);
    assert!(node.get_session(&peer_hash).is_none());
}

#[test]
fn test_process_sync_get_with_storage() {
    let disk = Disk::new();
    let mut node = stored_node(&disk, "sync_get");

    let msg = make_signed_message([0xBB; 16], [0xCC; 16], "Test", "sync get content");
    let tid = msg.transient_id.unwrap();
    node.accept_message(&msg, |path: &String, data: &Vec<u8>| disk.write(path, data));

    let get = SyncGet { wanted_ids: vec![tid.to_vec()] };
    let peer_hash = [0xDD; 16];
    let messages: Vec<Vec<u8>> = node
        .process_sync_get(peer_hash, &get)
        .iter()
        .filter_map(|read| disk.read(&read.path))
        .collect();
    assert_eq!(messages.len(), 1);
    assert!(!messages[0].is_empty());
    assert!(unpack(&messages[0]).is_some());
}

#[test]
fn test_encode_offer_response_roundtrip() {
    let encoded = PropagationNode::encode_offer_response(&OfferResponse::WantAll);
    let parsed = OfferResponse::from_msgpack(&encoded);
    assert_eq!(parsed, OfferResponse::WantAll);

    let encoded = PropagationNode::encode_offer_response(&OfferResponse::HaveAll);
    let parsed = OfferResponse::from_msgpack(&encoded);
    assert_eq!(parsed, OfferResponse::HaveAll);

    let encoded = PropagationNode::encode_offer_response(&OfferResponse::ErrorNoIdentity);
    let parsed = OfferResponse::from_msgpack(&encoded);
    assert_eq!(parsed, OfferResponse::ErrorNoIdentity);

    let encoded = PropagationNode::encode_offer_response(&OfferResponse::ErrorThrottled);
    let parsed = OfferResponse::from_msgpack(&encoded);
    assert_eq!(parsed, OfferResponse::ErrorThrottled);

    let ids = vec![id(0xAA), id(0xBB)];
    let encoded = PropagationNode::encode_offer_response(&OfferResponse::WantSome(ids.clone()));
    let parsed = OfferResponse::from_msgpack(&encoded);
    match parsed {
        OfferResponse::WantSome(parsed_ids) => {
            assert_eq!(parsed_ids, ids);
        }
        _ => panic!("expected WantSome"),
    }
}

#[test]
fn test_handle_offer_request_valid() {
    let cost = 8;
    let local_identity = [0xAA; 16];
    let remote_identity = [0xBB; 16];
    let config = PropagationNodeConfig { peering_cost: cost, ..Default::default() };
    let mut node = PropagationNode::new(config, [0xCC; 16]);
    let key = peering_key(&local_identity, &remote_identity, cost);

    let request = offer_request(&key, &[id(0x11), id(0x22)]);
    let response_bytes = node.handle_offer_request(
        &request,
        offer_ctx([0xDD; 16], true, false, true, Some(&local_identity), Some(&remote_identity)),
        NOW,
    );
    assert_eq!(OfferResponse::from_msgpack(&response_bytes), OfferResponse::WantAll);
}

#[test]
fn test_offer_evaluation_uses_preflight_candidate_identity() {
    let cost = 8;
    let local_identity = [0xAA; 16];
    let remote_identity = [0xBB; 16];
    let config = PropagationNodeConfig { peering_cost: cost, ..Default::default() };
    let node = PropagationNode::new(config, [0xCC; 16]);
    let candidate =
        PnOfferCandidate { link_id: [0xDD; 16], peer_identity_hash: remote_identity };
    let key = peering_key(&local_identity, &remote_identity, cost);
    let request = offer_request(&key, &[id(0x11)]);

    assert_eq!(
        node.evaluate_offer_request(&request, &local_identity, &candidate),
        Ok(PnOfferEvaluation::WantAll)
    );
}

#[test]
fn test_handle_offer_request_rejects_empty_peering_key_when_cost_required() {
    let mut node = default_node();
    let local_identity = [0xAA; 16];
    let remote_identity = [0xBB; 16];

    let request = offer_request(&[], &[id(0x11)]);
    let response_bytes = node.handle_offer_request(
        &request,
        offer_ctx([0xDD; 16], true, false, true, Some(&local_identity), Some(&remote_identity)),
        NOW,
    );
    assert_eq!(OfferResponse::from_msgpack(&response_bytes), OfferResponse::ErrorInvalidKey);
}

#[test]
fn test_handle_offer_request_rejects_wrong_peering_identity_order() {
    let cost = 8;
    let local_identity = [0xAA; 16];
    let remote_identity = [0xBB; 16];
    let config = PropagationNodeConfig { peering_cost: cost, ..Default::default() };
    let mut node = PropagationNode::new(config, [0xCC; 16]);
    let key = peering_key(&remote_identity, &local_identity, cost);

    let request = offer_request(&key, &[id(0x11)]);
    let response_bytes = node.handle_offer_request(
        &request,
        offer_ctx([0xDD; 16], true, false, true, Some(&local_identity), Some(&remote_identity)),
        NOW,
    );
    assert_eq!(OfferResponse::from_msgpack(&response_bytes), OfferResponse::ErrorInvalidKey);
}

#[test]
fn test_handle_offer_request_no_identity() {
    let mut node = default_node();

    let request = offer_request(&[], &[]);
    let response_bytes = node.handle_offer_request(
        &request,
        offer_ctx([0xBB; 16], false, false, true, None, None),
        NOW,
    );
    assert_eq!(OfferResponse::from_msgpack(&response_bytes), OfferResponse::ErrorNoIdentity);
}

#[test]
fn test_handle_offer_request_invalid_data() {
    let mut node = new_node(PropagationNodeConfig { peering_cost: 0, ..Default::default() });
    let local_identity = [0xAA; 16];
    let remote_identity = [0xBB; 16];
    let ctx =
        offer_ctx([0xBB; 16], true, false, true, Some(&local_identity), Some(&remote_identity));
    let response_bytes = node.handle_offer_request(&[0xFF, 0xFF], ctx, NOW);
    assert_eq!(OfferResponse::from_msgpack(&response_bytes), OfferResponse::ErrorInvalidData);

    let valid_request = offer_request(&[], &[id(0x11)]);
    let response_bytes = node.handle_offer_request(&valid_request, ctx, NOW);
    assert_eq!(OfferResponse::from_msgpack(&response_bytes), OfferResponse::WantAll);
}

#[test]
fn test_handle_get_request_list_phase() {
    let disk = Disk::new();
    let mut node = stored_node(&disk, "get_list");

    let msg = make_signed_message([0xBB; 16], [0xCC; 16], "Test", "get list content");
    node.accept_message(&msg, |path: &String, data: &Vec<u8>| disk.write(path, data));

    let (arr, _) = ask(&disk, &mut node, &get_request(None, None), &[0xBB; 16]);
    assert_eq!(arr.len(), 1);
    assert_eq!(arr[0].as_slice().unwrap().len(), 32);
}

#[test]
fn test_handle_get_request_list_empty() {
    let mut node = default_node();
    let (arr, _) = ask(&Disk::new(), &mut node, &get_request(None, None), &[0xBB; 16]);
    assert!(arr.is_empty());
}

#[test]
fn test_accept_propagated_blob_and_get_with_full_hash_id() {
    let disk = Disk::new();
    let mut node = stored_node(&disk, "blob_get");

    let mut lxmf_data = vec![0xBB; 16];
    lxmf_data.extend_from_slice(&[0xCC; 128]);
    assert!(node.accept_propagated_blob(
        &lxmf_data,
        0,
        NOW,
        |path: &String, data: &Vec<u8>| disk.write(path, data)
    ));
    let full_id = sha256(&lxmf_data);

    let (listed, _) = ask(&disk, &mut node, &get_request(None, None), &[0xBB; 16]);
    assert_eq!(listed.len(), 1);

    let (messages, _) =
        ask(&disk, &mut node, &get_request(Some(&[full_id]), Some(&[])), &[0xBB; 16]);
    assert_eq!(messages.len(), 1);
    assert_eq!(messages[0].as_slice().unwrap(), lxmf_data.as_slice());
}

#[test]
fn test_stamped_propagated_blob_strips_only_for_client_download() {
    let disk = Disk::new();
    let mut node = stored_node(&disk, "stamped_get");

    let mut lxmf_data = vec![0xBB; 16];
    lxmf_data.extend_from_slice(&[0xCC; 128]);
    let stamp = [0x5A; 32];
    let full_id = sha256(&lxmf_data);
    assert!(node.accept_stamped_propagated_blob(
        &lxmf_data,
        &stamp,
        0,
        NOW,
        |path: &String, data: &Vec<u8>| disk.write(path, data)
    ));

    let peer_results = fetch(&disk, &node, &[full_id]);
    assert_eq!(peer_results.len(), 1);
    let mut expected_stamped = lxmf_data.clone();
    expected_stamped.extend_from_slice(&stamp);
    assert_eq!(peer_results[0].1, expected_stamped);

    let (messages, _) =
        ask(&disk, &mut node, &get_request(Some(&[full_id]), Some(&[])), &[0xBB; 16]);
    assert_eq!(messages.len(), 1);
    assert_eq!(messages[0].as_slice().unwrap(), lxmf_data.as_slice());
}

#[test]
fn test_reloaded_stamped_blob_strips_for_client_download() {
    let disk = Disk::new();
    let mut lxmf_data = vec![0xBB; 16];
    lxmf_data.extend_from_slice(&[0xCC; 128]);
    let stamp = [0x5A; 32];
    let full_id = sha256(&lxmf_data);
    {
        let mut node = stored_node(&disk, "stamped_reload");
        assert!(node.accept_stamped_propagated_blob(
            &lxmf_data,
            &stamp,
            0,
            NOW,
            |path: &String, data: &Vec<u8>| disk.write(path, data)
        ));
    }

    let mut reloaded = stored_node(&disk, "stamped_reload");
    let (messages, _) =
        ask(&disk, &mut reloaded, &get_request(Some(&[full_id]), Some(&[])), &[0xBB; 16]);
    assert_eq!(messages.len(), 1);
    assert_eq!(messages[0].as_slice().unwrap(), lxmf_data.as_slice());
}

#[test]
fn test_accept_propagated_blob_enforces_min_stamp_cost() {
    let mut node = new_node(PropagationNodeConfig { min_stamp_cost: 8, ..Default::default() });
    let mut lxmf_data = vec![0xBB; 16];
    lxmf_data.extend_from_slice(&[0xCC; 128]);

    assert!(!node.accept_propagated_blob(&lxmf_data, 7, NOW, nowhere));
    assert_eq!(node.message_count(), 0);
    assert!(node.accept_propagated_blob(&lxmf_data, 8, NOW, nowhere));
    assert_eq!(node.message_count(), 1);
}

#[test]
fn test_opaque_propagated_blob_reload_preserves_destination() {
    let disk = Disk::new();
    let mut node = stored_node(&disk, "blob_reload");

    let mut lxmf_data = vec![0xBB; 16];
    lxmf_data.extend_from_slice(&[0xCC; 128]);
    assert!(node.accept_propagated_blob(
        &lxmf_data,
        0,
        NOW,
        |path: &String, data: &Vec<u8>| disk.write(path, data)
    ));
    drop(node);

    let mut reloaded = stored_node(&disk, "blob_reload");
    let (listed, _) = ask(&disk, &mut reloaded, &get_request(None, None), &[0xBB; 16]);
    assert_eq!(listed.len(), 1);
}

#[test]
fn test_handle_get_request_purge_phase() {
    let disk = Disk::new();
    let mut node = stored_node(&disk, "get_purge");

    let msg = make_signed_message([0xBB; 16], [0xCC; 16], "Test", "purge content");
    let tid = msg.transient_id.unwrap();
    node.accept_message(&msg, |path: &String, data: &Vec<u8>| disk.write(path, data));
    assert_eq!(node.message_count(), 1);

    let action = node.handle_get_request(&get_request(None, Some(&[tid])), &[0xBB; 16]);
    assert!(matches!(action, GetRequestAction::Respond(_)));

    assert_eq!(node.message_count(), 0);
    disk.remove_all(node.take_removals());
    assert_eq!(disk.count(), 0, "the file of a purged message goes too");
}

#[test]
fn test_handle_get_request_get_phase() {
    let disk = Disk::new();
    let mut node = stored_node(&disk, "get_data");

    let msg = make_signed_message([0xBB; 16], [0xCC; 16], "Test", "get data content");
    let tid = msg.transient_id.unwrap();
    node.accept_message(&msg, |path: &String, data: &Vec<u8>| disk.write(path, data));

    let (arr, _) = ask(&disk, &mut node, &get_request(Some(&[tid]), Some(&[])), &[0xBB; 16]);
    assert_eq!(arr.len(), 1);
    assert!(!arr[0].as_slice().unwrap().is_empty());
}

/// A download comes back as a plan of reads; listing and purging answer at
/// once.
#[test]
fn test_get_request_phase2_returns_serve_plan() {
    let disk = Disk::new();
    let mut node = stored_node(&disk, "serve_plan");

    let mut blob = vec![0xBB; 16];
    blob.extend_from_slice(&[0x11; 64]);
    assert!(node.accept_propagated_blob(
        &blob,
        0,
        NOW,
        |path: &String, data: &Vec<u8>| disk.write(path, data)
    ));
    let tid = sha256(&blob);

    assert!(matches!(
        node.handle_get_request(&get_request(None, None), &[0xBB; 16]),
        GetRequestAction::Respond(_)
    ));

    assert!(matches!(
        node.handle_get_request(&get_request(None, Some(&[[0xEE; 32]])), &[0xBB; 16]),
        GetRequestAction::Respond(_)
    ));

    let action =
        node.handle_get_request(&get_request(Some(&[tid]), Some(&[])), &[0xBB; 16]);
    let GetRequestAction::ServeFiles(plan) = action else {
        panic!("phase 2 must return a serve plan");
    };
    // The files are read after the node was let go.
    drop(node);
    let contents: Vec<Option<Vec<u8>>> =
        plan.reads.iter().map(|read| disk.read(&read.path)).collect();
    let (response_bytes, served) = plan.serve_with_count(&contents, None);
    let response = decode(&response_bytes);
    let messages = response.as_array().unwrap();
    assert_eq!(served, 1);
    assert_eq!(messages.len(), 1);
    assert_eq!(messages[0].as_slice().unwrap(), blob.as_slice());
    assert_eq!(plan.serve(&contents, None), response_bytes);
}

/// Haves are purged before wants resolve: an identifier in both is purged, not
/// served.
#[test]
fn test_get_phase_purges_haves_before_serving_wants() {
    let disk = Disk::new();
    let mut node = stored_node(&disk, "purge_first");

    let mut blob = vec![0xBB; 16];
    blob.extend_from_slice(&[0x22; 48]);
    assert!(node.accept_propagated_blob(
        &blob,
        0,
        NOW,
        |path: &String, data: &Vec<u8>| disk.write(path, data)
    ));
    let tid = sha256(&blob);

    let (messages, served) =
        ask(&disk, &mut node, &get_request(Some(&[tid]), Some(&[tid])), &[0xBB; 16]);
    assert!(
        messages.is_empty(),
        "ID in both wants and haves must be purged, not served"
    );
    assert_eq!(served, 0);
    assert_eq!(node.message_count(), 0);
}

/// The transfer limit is in units of 1000 bytes, with 24 bytes to begin with and
/// 16 for each message; what is over the limit is skipped.
#[test]
fn test_get_phase_transfer_limit_python_accounting() {
    let disk = Disk::new();
    let mut node = stored_node(&disk, "limit_accounting");

    // It starts at 24, +16 per message: a (100 B) -> 140; b (350 B) -> 506 > 500
    // so skipped (it would pass a limit of 512); c (50 B) -> 206, still served.
    let blob_a = blob_of(0x01, 100);
    let blob_b = blob_of(0x02, 350);
    let blob_c = blob_of(0x03, 50);
    for blob in [&blob_a, &blob_b, &blob_c] {
        assert!(node.accept_propagated_blob(
            blob,
            0,
            NOW,
            |path: &String, data: &Vec<u8>| disk.write(path, data)
        ));
    }

    let wants: Vec<[u8; 32]> =
        [&blob_a, &blob_b, &blob_c].iter().map(|blob| sha256(blob)).collect();
    let request = encode(&Value::Array(vec![
        id_list(&wants),
        Value::Array(vec![]),
        Value::F64(0.5),
    ]));
    let (messages, served) = ask(&disk, &mut node, &request, &[0xBB; 16]);
    assert_eq!(messages.len(), 2, "b is skipped, a and c are served");
    assert_eq!(served, 2);
    assert_eq!(messages[0].as_slice().unwrap(), blob_a.as_slice());
    assert_eq!(messages[1].as_slice().unwrap(), blob_c.as_slice());
}

/// The listing is sorted smallest message first.
#[test]
fn test_get_list_phase_sorted_smallest_first() {
    let disk = Disk::new();
    let mut node = stored_node(&disk, "list_sorted");

    let blob_large = blob_of(0x04, 300);
    let blob_small = blob_of(0x05, 100);
    let blob_mid = blob_of(0x06, 200);
    for blob in [&blob_large, &blob_small, &blob_mid] {
        assert!(node.accept_propagated_blob(
            blob,
            0,
            NOW,
            |path: &String, data: &Vec<u8>| disk.write(path, data)
        ));
    }

    let (listed, _) = ask(&disk, &mut node, &get_request(None, None), &[0xBB; 16]);
    let ids: Vec<Vec<u8>> = listed.iter().map(|v| v.as_slice().unwrap().to_vec()).collect();
    let expected: Vec<Vec<u8>> = [&blob_small, &blob_mid, &blob_large]
        .iter()
        .map(|blob| sha256(blob).to_vec())
        .collect();
    assert_eq!(ids, expected);
}

#[test]
fn test_stamp_cost_validation_rejects_unstamped() {
    let mut node = new_node(PropagationNodeConfig { min_stamp_cost: 8, ..Default::default() });

    let msg = make_signed_message([0xBB; 16], [0xCC; 16], "Test", "unstamped");
    assert!(!accept(&mut node, &msg));
    assert_eq!(node.message_count(), 0);
}

#[test]
fn test_stamp_cost_zero_accepts_all() {
    let mut node = new_node(PropagationNodeConfig { min_stamp_cost: 0, ..Default::default() });

    let msg = make_signed_message([0xBB; 16], [0xCC; 16], "Test", "no_cost");
    assert!(accept(&mut node, &msg));
    assert_eq!(node.message_count(), 1);
}

#[test]
fn test_create_offer_with_stamp_filter() {
    let mut node = default_node();

    let entry1 = PropagationEntry {
        transient_id: tid(0x01),
        message_hash: [0x11; 32],
        destination_hash: [0xCC; 16],
        stored_at: 1000,
        stamp_value: 20,
        size: 100,
        collected: false,
        stamped: false,
    };
    let entry2 = PropagationEntry {
        transient_id: tid(0x02),
        message_hash: [0x22; 32],
        destination_hash: [0xCC; 16],
        stored_at: 1000,
        stamp_value: 5,
        size: 100,
        collected: false,
        stamped: false,
    };
    node.store_mut().insert(entry1);
    node.store_mut().insert(entry2);

    let all = node.create_offer([0xFF; 16], None);
    assert_eq!(all.len(), 2);

    let filtered = node.create_offer([0xFF; 16], Some(10));
    assert_eq!(filtered.len(), 1);
    assert_eq!(filtered[0], tid(0x01));

    let all2 = node.create_offer([0xFF; 16], Some(0));
    assert_eq!(all2.len(), 2);
}
