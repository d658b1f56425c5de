//! What holds of a node across its operations.

use vstd::prelude::*;
#[allow(unused_imports)]
use crate::constants::DESTINATION_LENGTH;
#[allow(unused_imports)]
use crate::ids::{lemma_id_from_view, DestinationHash, PropagationTransientId};
#[allow(unused_imports)]
use crate::node::get::{
    client_payload, get_request, id_of, ids_in, is_answer, is_size_order, lemma_purged_wf, limit_of,
    owns, planned_read, planned_reads, purged, purged_one, read_views, serve_all, store_id,
    ClientLimit, GetRequest, GetRequestAction, PlannedReadView,
};
#[allow(unused_imports)]
use crate::node::upkeep::{
    destination_of, file_key, is_orphan, lemma_culled_subset, load_all, load_next, loaded_entry,
    loaded_node, ticked, upkept, Loaded, StoredFile, UnpackedMessage,
};
#[allow(unused_imports)]
use crate::node::{
    blob_acceptable, empty_node, is_blob_admission, is_blob_entry, is_reservation, is_settled,
    message_acceptable, message_entry, BlobView, LxMessage, NodeView, PersistedView,
    PropagationNodeConfig, WritePlanView,
};
#[allow(unused_imports)]
use crate::msgpack::{binaries, WireView};
#[allow(unused_imports)]
use crate::node::peers::{
    are_candidates, gated_answer, ids_with, is_offer_choice, offer_answer, offer_outcome,
    policy_limits, with_offer, OfferRequestContext,
};
#[allow(unused_imports)]
use crate::node::records::{
    ids_outside, ids_worth, is_terminal_record, kept_peer, pruned, saved_limits, PeerFile,
};
#[allow(unused_imports)]
use crate::offer::{id_views, lemma_missing, missing_from, offer_request_parts, OfferResponseView};
#[allow(unused_imports)]
use crate::peer::PeerView;
#[allow(unused_imports)]
use crate::stamper::{
    peering_key_valid, pn_stamp_value, sha256_digest, stored_value, STAMP_SIZE,
};
#[allow(unused_imports)]
use crate::store::{
    addressed_to, holds, ids_of, is_expired, is_file_name, law_culled_store_fits,
    law_file_name_round_trip, law_file_name_unambiguous, law_heaviest_leave_first, lemma_entry_of,
    lemma_filter_holds, total_bytes, unique_ids, weight_of, without, PropagationEntry, StoreView,
};
#[allow(unused_imports)]
use crate::sync::{
    distinct_ids, is_offer_order, is_wanted, law_each_message_has_its_place, lemma_order_distinct,
    select_all, wanted_of, OfferSelection, OutboundOfferPolicy, SyncOfferCandidateSnapshot,
};
#[allow(unused_imports)]
use crate::text::hex_chars;

verus! {

/// While a message is being written, another one with its identifier is not
/// admitted.
pub proof fn law_reservation_blocks_duplicates(
    node: NodeView,
    id: PropagationTransientId,
    size: nat,
)
    ensures
        !node.reserved(id, size).admits(id),
{
}

/// An admission that is given up leaves the node as it was.
pub proof fn law_abort_restores(node: NodeView, id: PropagationTransientId, size: usize)
    requires
        node.admits(id),
        node.pending_bytes + size <= usize::MAX,
    ensures
        node.reserved(id, size as nat).released(id, size) == node,
{
    assert(node.pending_ids.insert(id).remove(id) =~= node.pending_ids);
}

/// Nothing enters the store that was not reserved, nor anything for a
/// destination that is ignored.
pub proof fn law_only_reserved_is_stored(node: NodeView, write: PersistedView)
    requires
        !node.pending_ids.contains(write.entry.transient_id) || node.store.ignored.contains(
            write.entry.destination_hash,
        ),
    ensures
        node.committed(write).store == node.store,
        node.committed(write).generation == node.generation,
{
}

/// What is committed is stored, and advances the revision of the store.
pub proof fn law_commit_is_seen(node: NodeView, write: PersistedView)
    requires
        node.commits(write.entry),
        node.generation < u64::MAX,
    ensures
        holds(node.committed(write).store.entries, write.entry.transient_id),
        node.committed(write).generation == node.generation + 1,
{
    let entries = node.committed(write).store.entries;
    assert(entries[node.store.entries.len() as int] == write.entry);
}

/// A message that was stored is not admitted again.
pub proof fn law_no_duplicates(node: NodeView, write: PersistedView)
    requires
        node.commits(write.entry),
    ensures
        !node.committed(write).admits(write.entry.transient_id),
{
    let entries = node.committed(write).store.entries;
    assert(entries[node.store.entries.len() as int] == write.entry);
}

/// The revision of the store never goes back, whatever is committed, deleted or
/// thrown out.
pub proof fn law_generation_never_goes_back(
    node: NodeView,
    write: PersistedView,
    client: DestinationHash,
    ids: Seq<PropagationTransientId>,
    now: u64,
)
    ensures
        node.committed(write).generation >= node.generation,
        ticked(node, now).generation >= node.generation,
        purged(node, client, ids).generation >= node.generation,
    decreases ids.len(),
{
    if ids.len() > 0 {
        law_generation_never_goes_back(node, write, client, ids.drop_last(), now);
    }
}

/// After upkeep nothing is left that has expired.
pub proof fn law_upkeep_leaves_nothing_expired(node: NodeView, now: u64, entry: PropagationEntry)
    requires
        upkept(node, now).entries.contains(entry),
    ensures
        !is_expired(entry, node.config.max_message_age, now),
        node.store.entries.contains(entry),
{
    let fresh = |entry: PropagationEntry| !is_expired(entry, node.config.max_message_age, now);
    let kept = node.store.entries.filter(fresh);
    lemma_culled_subset(
        StoreView { entries: kept, ..node.store },
        node.config.max_storage,
        now,
    );
    assert(kept.contains(entry));
    let i = choose|i: int| 0 <= i < kept.len() && kept[i] == entry;
    lemma_filter_holds(node.store.entries, fresh, i);
}

/// After upkeep the store takes no more than it may.
pub proof fn law_upkeep_respects_cap(node: NodeView, now: u64)
    ensures
        total_bytes(upkept(node, now).entries) <= node.config.max_storage,
{
    let fresh = |entry: PropagationEntry| !is_expired(entry, node.config.max_message_age, now);
    law_culled_store_fits(
        StoreView { entries: node.store.entries.filter(fresh), ..node.store },
        node.config.max_storage,
        now,
    );
}

/// A message that is owned by another is not touched by what a client deletes.
pub proof fn law_purge_spares_others(
    node: NodeView,
    client: DestinationHash,
    ids: Seq<PropagationTransientId>,
    entry: PropagationEntry,
)
    requires
        node.wf(),
        node.store.entries.contains(entry),
        entry.destination_hash != client,
    ensures
        purged(node, client, ids).store.entries.contains(entry),
    decreases ids.len(),
{
    if ids.len() > 0 {
        let before = purged(node, client, ids.drop_last());
        law_purge_spares_others(node, client, ids.drop_last(), entry);
        lemma_purged_wf(node, client, ids.drop_last());
        let id = ids.last();
        if owns(before, client, id) {
            let entries = before.store.entries;
            let i = choose|i: int| 0 <= i < entries.len() && entries[i] == entry;
            lemma_entry_of(entries, i);
            assert(entry.transient_id != id);
            entries.lemma_filter_contains(
                |entry: PropagationEntry| entry.transient_id != id,
                i,
            );
        }
    }
}

/// A message that a client does not name stays, whoever owns it.
pub proof fn law_purge_keeps_unnamed(
    node: NodeView,
    client: DestinationHash,
    ids: Seq<PropagationTransientId>,
    entry: PropagationEntry,
)
    requires
        node.store.entries.contains(entry),
        !ids.contains(entry.transient_id),
    ensures
        purged(node, client, ids).store.entries.contains(entry),
    decreases ids.len(),
{
    if ids.len() > 0 {
        let rest = ids.drop_last();
        let id = ids.last();
        assert(ids[ids.len() - 1] == id);
        assert(!rest.contains(entry.transient_id)) by {
            if rest.contains(entry.transient_id) {
                let k = choose|k: int| 0 <= k < rest.len() && rest[k] == entry.transient_id;
                assert(ids[k] == entry.transient_id);
            }
        }
        law_purge_keeps_unnamed(node, client, rest, entry);
        let entries = purged(node, client, rest).store.entries;
        let i = choose|i: int| 0 <= i < entries.len() && entries[i] == entry;
        entries.lemma_filter_contains(
            |entry: PropagationEntry| entry.transient_id != id,
            i,
        );
    }
}

/// Deleting only takes messages out.
proof fn lemma_purged_subset(
    node: NodeView,
    client: DestinationHash,
    ids: Seq<PropagationTransientId>,
    id: PropagationTransientId,
)
    requires
        holds(purged(node, client, ids).store.entries, id),
    ensures
        holds(node.store.entries, id),
    decreases ids.len(),
{
    if ids.len() > 0 {
        let before = purged(node, client, ids.drop_last());
        let last = ids.last();
        if owns(before, client, last) {
            let rest = without(before.store.entries, last);
            let i = choose|i: int| 0 <= i < rest.len() && (#[trigger] rest[i]).transient_id == id;
            lemma_filter_holds(
                before.store.entries,
                |entry: PropagationEntry| entry.transient_id != last,
                i,
            );
            let entries = before.store.entries;
            let j = choose|j: int| 0 <= j < entries.len() && entries[j] == rest[i];
            assert(entries[j].transient_id == id);
        }
        lemma_purged_subset(node, client, ids.drop_last(), id);
    }
}

/// What a client deletes of its own is gone.
pub proof fn law_purged_is_gone(
    node: NodeView,
    client: DestinationHash,
    ids: Seq<PropagationTransientId>,
    id: PropagationTransientId,
)
    requires
        node.wf(),
        ids.contains(id),
        owns(node, client, id),
    ensures
        !holds(purged(node, client, ids).store.entries, id),
    decreases ids.len(),
{
    let before = purged(node, client, ids.drop_last());
    let last = ids.last();
    lemma_purged_wf(node, client, ids.drop_last());
    if ids.drop_last().contains(id) {
        law_purged_is_gone(node, client, ids.drop_last(), id);
        if holds(purged(node, client, ids).store.entries, id) {
            lemma_one_subset(before, client, last, id);
        }
    } else {
        let i = choose|i: int| 0 <= i < ids.len() && ids[i] == id;
        if i < ids.len() - 1 {
            assert(ids.drop_last()[i] == id);
        }
        assert(last == id);
        if holds(before.store.entries, id) {
            lemma_still_owned(node, client, ids.drop_last(), id);
            let rest = without(before.store.entries, id);
            if holds(rest, id) {
                let k = choose|k: int|
                    0 <= k < rest.len() && (#[trigger] rest[k]).transient_id == id;
                lemma_filter_holds(
                    before.store.entries,
                    |entry: PropagationEntry| entry.transient_id != id,
                    k,
                );
            }
        }
    }
}

/// Deleting one message only takes messages out.
proof fn lemma_one_subset(
    node: NodeView,
    client: DestinationHash,
    last: PropagationTransientId,
    id: PropagationTransientId,
)
    requires
        holds(purged_one(node, client, last).store.entries, id),
    ensures
        holds(node.store.entries, id),
{
    if owns(node, client, last) {
        let rest = without(node.store.entries, last);
        let i = choose|i: int| 0 <= i < rest.len() && (#[trigger] rest[i]).transient_id == id;
        lemma_filter_holds(
            node.store.entries,
            |entry: PropagationEntry| entry.transient_id != last,
            i,
        );
        let entries = node.store.entries;
        let j = choose|j: int| 0 <= j < entries.len() && entries[j] == rest[i];
        assert(entries[j].transient_id == id);
    }
}

/// What is still stored after some messages were deleted has its owner still.
proof fn lemma_still_owned(
    node: NodeView,
    client: DestinationHash,
    ids: Seq<PropagationTransientId>,
    id: PropagationTransientId,
)
    requires
        node.wf(),
        owns(node, client, id),
        holds(purged(node, client, ids).store.entries, id),
    ensures
        owns(purged(node, client, ids), client, id),
    decreases ids.len(),
{
    if ids.len() > 0 {
        let before = purged(node, client, ids.drop_last());
        let last = ids.last();
        lemma_purged_wf(node, client, ids.drop_last());
        lemma_purged_wf(node, client, ids);
        lemma_one_subset(before, client, last, id);
        lemma_still_owned(node, client, ids.drop_last(), id);
        if owns(before, client, last) {
            let entries = before.store.entries;
            let rest = without(entries, last);
            let i = choose|i: int| 0 <= i < rest.len() && (#[trigger] rest[i]).transient_id == id;
            lemma_filter_holds(
                entries,
                |entry: PropagationEntry| entry.transient_id != last,
                i,
            );
            let j = choose|j: int| 0 <= j < entries.len() && entries[j] == rest[i];
            lemma_entry_of(entries, j);
            lemma_entry_of(rest, i);
        }
    }
}

/// A client is served nothing but its own messages.
pub proof fn law_clients_get_their_own(
    node: NodeView,
    client: DestinationHash,
    id: PropagationTransientId,
)
    requires
        planned_read(node, client, id) is Some,
    ensures
        owns(node, client, id),
{
}

/// What a client deletes in a request is not served by the same request.
pub proof fn law_haves_before_wants(
    node: NodeView,
    client: DestinationHash,
    haves: Seq<PropagationTransientId>,
    id: PropagationTransientId,
)
    requires
        node.wf(),
        haves.contains(id),
    ensures
        planned_read(purged(node, client, haves), client, id) is None,
{
    if owns(node, client, id) {
        law_purged_is_gone(node, client, haves, id);
    } else {
        lemma_not_owned(node, client, haves, id);
    }
}

/// Deleting messages makes nobody the owner of one.
proof fn lemma_not_owned(
    node: NodeView,
    client: DestinationHash,
    ids: Seq<PropagationTransientId>,
    id: PropagationTransientId,
)
    requires
        node.wf(),
        !owns(node, client, id),
    ensures
        !owns(purged(node, client, ids), client, id),
{
    let after = purged(node, client, ids);
    if owns(after, client, id) {
        lemma_purged_subset(node, client, ids, id);
        let entries = node.store.entries;
        let i = choose|i: int| 0 <= i < entries.len() && (#[trigger] entries[i]).transient_id == id;
        lemma_entry_of(entries, i);
        assert(entries.contains(entries[i]));
        law_purge_spares_others(node, client, ids, entries[i]);
        lemma_purged_wf(node, client, ids);
        let rest = after.store.entries;
        let j = choose|j: int| 0 <= j < rest.len() && rest[j] == entries[i];
        lemma_entry_of(rest, j);
    }
}

/// A message that left the store is admitted again, as long as there is room
/// and it is not just being written.
pub proof fn law_readmitted_after_leaving(node: NodeView, id: PropagationTransientId)
    requires
        !holds(node.store.entries, id),
        !node.pending_ids.contains(id),
        node.occupied() <= node.config.max_storage,
    ensures
        node.admits(id),
{
}

/// A client that downloads a message gets what was submitted, without the stamp
/// that was stored behind it.
pub proof fn law_stamp_is_stripped(lxmf_data: Seq<u8>, stamp: Seq<u8>)
    requires
        stamp.len() == STAMP_SIZE,
    ensures
        client_payload(lxmf_data + stamp, true) == lxmf_data,
{
    assert((lxmf_data + stamp).take(lxmf_data.len() as int) =~= lxmf_data);
}

/// A message is found again under its identifier, time and stamp when the store
/// is loaded.
pub proof fn law_files_are_found_again(entry: PropagationEntry)
    ensures
        file_key(entry.filename_spec()) == Some(
            (entry.transient_id, entry.stored_at, entry.stamp_value),
        ),
{
    law_file_name_round_trip(entry);
    let name = entry.filename_spec();
    assert(is_file_name(name, entry.transient_id@, entry.stored_at, entry.stamp_value));
    let key = file_key(name)->0;
    law_file_name_unambiguous(
        name,
        key.0@,
        key.1,
        key.2,
        entry.transient_id@,
        entry.stored_at,
        entry.stamp_value,
    );
    lemma_id_from_view(key.0, entry.transient_id);
}

/// A message that nobody here can read keeps its destination, size and stamp
/// when the store is loaded.
pub proof fn law_opaque_messages_load_back(entry: PropagationEntry, data: Seq<u8>)
    requires
        entry.stamped,
        !entry.collected,
        entry.size == data.len(),
        data.len() >= DESTINATION_LENGTH,
        entry.destination_hash@ == data.take(DESTINATION_LENGTH as int),
    ensures
        ({
            let loaded = loaded_entry(
                (entry.transient_id, entry.stored_at, entry.stamp_value),
                data,
                None,
            );
            loaded == (PropagationEntry { message_hash: loaded.message_hash, ..entry })
        }),
{
    lemma_id_from_view(
        entry.destination_hash,
        destination_of(data.take(DESTINATION_LENGTH as int)),
    );
}

/// A message that was stored as it is loads back as it was, so a client that
/// downloads it after a restart gets all of it.
pub proof fn law_plain_messages_load_back(
    entry: PropagationEntry,
    data: Seq<u8>,
    message: UnpackedMessage,
)
    requires
        !entry.stamped,
        !entry.collected,
        entry.size == data.len(),
        message.hash == Some(entry.message_hash),
        message.destination_hash == entry.destination_hash,
    ensures
        ({
            let loaded = loaded_entry(
                (entry.transient_id, entry.stored_at, entry.stamp_value),
                data,
                Some(message),
            );
            &&& loaded == entry
            &&& client_payload(data, loaded.stamped) == data
        }),
{
}

/// A message is taken in exactly when it is neither stored nor being written, and
/// what is stored and being written stays within the cap.
pub proof fn law_room_decides_admission(node: NodeView, id: PropagationTransientId)
    requires
        total_bytes(node.store.entries) + node.pending_bytes <= usize::MAX,
    ensures
        node.admits(id) <==> !holds(node.store.entries, id) && !node.pending_ids.contains(id)
            && total_bytes(node.store.entries) + node.pending_bytes <= node.config.max_storage,
{
}

/// A message that is being written counts before it is stored: with it beyond the
/// cap, nothing else is taken in.
pub proof fn law_reservations_count(
    node: NodeView,
    id: PropagationTransientId,
    size: nat,
    other: PropagationTransientId,
)
    requires
        total_bytes(node.store.entries) + node.pending_bytes + size <= usize::MAX,
        total_bytes(node.store.entries) + node.pending_bytes + size > node.config.max_storage,
    ensures
        !node.reserved(id, size).admits(other),
        node.reserved(id, size).store == node.store,
{
}

/// A message that was reserved and written is in the store, behind what was there;
/// its reservation is gone, and peers have something new to be offered.
pub proof fn law_written_is_stored(
    node: NodeView,
    entry: PropagationEntry,
    path: Option<Seq<char>>,
)
    requires
        node.admits(entry.transient_id),
        !node.store.ignored.contains(entry.destination_hash),
        node.pending_bytes + entry.size <= usize::MAX,
        node.generation < u64::MAX,
    ensures
        node.reserved(entry.transient_id, entry.size as nat).committed(
            PersistedView { entry, path },
        ) == (NodeView {
            store: StoreView { entries: node.store.entries.push(entry), ..node.store },
            generation: (node.generation + 1) as u64,
            ..node
        }),
{
    assert(node.pending_ids.insert(entry.transient_id).remove(entry.transient_id)
        =~= node.pending_ids);
}

/// A file that was written for nothing is removed: its message's destination came
/// to be ignored meanwhile, its reservation is gone, or it is stored already.
pub proof fn law_refused_file_is_removed(node: NodeView, write: PersistedView, path: Seq<char>)
    requires
        write.path == Some(path),
        node.store.ignored.contains(write.entry.destination_hash) || !node.pending_ids.contains(
            write.entry.transient_id,
        ) || holds(node.store.entries, write.entry.transient_id),
    ensures
        node.committed(write).removals == node.removals.push(path),
        node.committed(write).store == node.store,
        !node.committed(write).pending_ids.contains(write.entry.transient_id),
{
}

/// A file that was written for a stored message is left alone.
pub proof fn law_stored_file_is_kept(node: NodeView, write: PersistedView)
    requires
        node.pending_ids.contains(write.entry.transient_id),
        !node.store.ignored.contains(write.entry.destination_hash),
        !holds(node.store.entries, write.entry.transient_id),
    ensures
        node.committed(write).removals == node.removals,
        node.committed(write).store.entries.last() == write.entry,
{
}

/// A message is fit to be stored exactly when it has a hash and is packed, is no
/// larger than messages may be, and has a stamp that is worth what is asked for.
pub proof fn law_fit_messages(node: NodeView, message: LxMessage)
    ensures
        message_acceptable(node, message) <==> message.hash is Some && (
        message.packed matches Some(packed) && packed@.len() <= node.config.max_message_size)
            && message_entry(message).stamp_value >= node.config.min_stamp_cost,
        message.stamp is None ==> message_entry(message).stamp_value == 0,
        message.stamp matches Some(stamp) && stamp@.len() != 32 ==> message_entry(
            message,
        ).stamp_value == 0,
{
}

/// A message is stored under its transient identifier, or under its hash where it
/// has none, for its own destination, as of its own time, and as it is.
pub proof fn law_stored_as_it_is(message: LxMessage, packed: Vec<u8>, hash: [u8; 32])
    requires
        message.packed == Some(packed),
        packed@.len() <= usize::MAX,
        message.hash == Some(hash),
    ensures
        ({
            let entry = message_entry(message);
            &&& message.transient_id is None ==> entry.transient_id == hash
            &&& message.transient_id matches Some(id) ==> entry.transient_id == id
            &&& entry.message_hash == hash
            &&& entry.destination_hash == message.destination_hash
            &&& entry.stored_at == message.timestamp
            &&& entry.size == packed@.len()
            &&& !entry.stamped && !entry.collected
        }),
{
}

/// The stamp of a plain message is weighed over the hash of the packed message,
/// by a thousand rounds, as that of a message in a transfer is.
pub proof fn law_message_stamps_weigh_alike(message: LxMessage, packed: Vec<u8>, stamp: Vec<u8>)
    requires
        message.packed == Some(packed),
        message.stamp == Some(stamp),
        stamp@.len() == 32,
    ensures
        message_entry(message).stamp_value == stored_value(pn_stamp_value(packed@ + stamp@)),
{
    assert((packed@ + stamp@).take(packed@.len() as int) =~= packed@);
    assert((packed@ + stamp@).skip(packed@.len() as int) =~= stamp@);
}

/// An opaque message is fit to be stored exactly when it has content behind its
/// destination, is no larger than messages may be, its stamp counted, and the
/// stamp is worth what is asked for.
pub proof fn law_fit_blobs(node: NodeView, lxmf_data: Seq<u8>, stored: Seq<u8>, stamp_value: u8)
    ensures
        blob_acceptable(node, lxmf_data, stored, stamp_value) <==> lxmf_data.len() > 16
            && stored.len() <= node.config.max_message_size && stamp_value
            >= node.config.min_stamp_cost,
{
}

/// An opaque message is stored under the hash of its data without the stamp, for
/// the destination that its first sixteen bytes name. So the same data with another
/// stamp is the same message.
pub proof fn law_blobs_are_named_by_content(
    entry: PropagationEntry,
    other: PropagationEntry,
    lxmf_data: Seq<u8>,
    stored: Seq<u8>,
    other_stored: Seq<u8>,
    stamp_value: u8,
    other_value: u8,
    now: u64,
    later: u64,
    stamped: bool,
)
    requires
        is_blob_entry(entry, lxmf_data, stored, stamp_value, now, stamped),
        is_blob_entry(other, lxmf_data, other_stored, other_value, later, stamped),
        lxmf_data.len() > 16,
    ensures
        entry.transient_id@ == sha256_digest(lxmf_data),
        entry.transient_id == other.transient_id,
        entry.destination_hash@ == lxmf_data.take(16),
        entry.size == stored.len(),
        entry.stored_at == now,
        entry.stamp_value == stamp_value,
        entry.stamped == stamped,
        !entry.collected,
{
    lemma_id_from_view(entry.transient_id, other.transient_id);
}

/// A message that is stored with its stamp is downloaded without it, before and
/// after a restart.
pub proof fn law_stamped_messages_survive_restart(
    entry: PropagationEntry,
    lxmf_data: Seq<u8>,
    stamp: Seq<u8>,
    stamp_value: u8,
    now: u64,
)
    requires
        is_blob_entry(entry, lxmf_data, lxmf_data + stamp, stamp_value, now, true),
        lxmf_data.len() > 16,
        stamp.len() == 32,
    ensures
        ({
            let loaded = loaded_entry(
                (entry.transient_id, entry.stored_at, entry.stamp_value),
                lxmf_data + stamp,
                None,
            );
            &&& loaded == (PropagationEntry { message_hash: loaded.message_hash, ..entry })
            &&& client_payload(lxmf_data + stamp, entry.stamped) == lxmf_data
            &&& client_payload(lxmf_data + stamp, loaded.stamped) == lxmf_data
        }),
{
    let data = lxmf_data + stamp;
    assert(data.take(DESTINATION_LENGTH as int) =~= lxmf_data.take(DESTINATION_LENGTH as int));
    law_opaque_messages_load_back(entry, data);
    law_stamp_is_stripped(lxmf_data, stamp);
}

/// The files of a store bring it back, message for message, when it is loaded: one
/// that was stored as it is comes back the same, and an opaque one but for the hash
/// that nobody here can know.
pub proof fn law_store_comes_back(entries: Seq<PropagationEntry>, files: Seq<StoredFile>)
    requires
        files.len() == entries.len(),
        unique_ids(entries),
        forall|i: int| 0 <= i < entries.len() ==> is_file_of(#[trigger] entries[i], files[i]),
    ensures
        load_all(files).entries.len() == entries.len(),
        load_all(files).unreadable.len() == 0,
        forall|i: int|
            0 <= i < entries.len() ==> {
                let loaded = #[trigger] load_all(files).entries[i];
                &&& loaded == (PropagationEntry { message_hash: loaded.message_hash, ..entries[i] })
                &&& !entries[i].stamped ==> loaded == entries[i]
            },
    decreases entries.len(),
{
    if entries.len() > 0 {
        let rest = entries.drop_last();
        let n = entries.len() - 1;
        assert forall|i: int, j: int| 0 <= i < j < rest.len() implies (
        #[trigger] rest[i]).transient_id != (#[trigger] rest[j]).transient_id by {
            assert(rest[i] == entries[i] && rest[j] == entries[j]);
        }
        assert forall|i: int| 0 <= i < rest.len() implies is_file_of(
            #[trigger] rest[i],
            files.drop_last()[i],
        ) by {
            assert(is_file_of(entries[i], files[i]));
        }
        law_store_comes_back(rest, files.drop_last());
        let before = load_all(files.drop_last()).entries;
        let entry = entries[n];
        let file = files[n];
        assert(is_file_of(entry, file));
        law_files_are_found_again(entry);
        if holds(before, entry.transient_id) {
            let i = choose|i: int|
                0 <= i < before.len() && (#[trigger] before[i]).transient_id == entry.transient_id;
            assert(before[i].transient_id == rest[i].transient_id);
            assert(entries[i].transient_id != entries[n].transient_id);
        }
        if entry.stamped {
            law_opaque_messages_load_back(entry, file.content->0@);
        } else {
            law_plain_messages_load_back(entry, file.content->0@, file.unpacked->0);
        }
        assert forall|i: int| 0 <= i < entries.len() implies ({
            let loaded = #[trigger] load_all(files).entries[i];
            &&& loaded == (PropagationEntry { message_hash: loaded.message_hash, ..entries[i] })
            &&& !entries[i].stamped ==> loaded == entries[i]
        }) by {
            if i < n {
                assert(load_all(files).entries[i] == before[i]);
                assert(rest[i] == entries[i]);
            }
        }
    }
}

/// `file` is the file of an entry that no client has collected: named after it, with
/// its content, which is a plain message exactly when no stamp is behind it.
pub open spec fn is_file_of(entry: PropagationEntry, file: StoredFile) -> bool {
    &&& !entry.collected
    &&& file.name@ == entry.filename_spec()
    &&& file.content matches Some(data) && data@.len() == entry.size && (if entry.stamped {
        file.unpacked is None && data@.len() >= 16 && entry.destination_hash@ == data@.take(16)
    } else {
        file.unpacked matches Some(message) && message.hash == Some(entry.message_hash)
            && message.destination_hash == entry.destination_hash
    })
}

/// Upkeep lets a message go for its age exactly when more time has passed since it
/// was stored than messages are kept.
pub proof fn law_upkeep_goes_by_age(node: NodeView, now: u64, entry: PropagationEntry)
    requires
        upkept(node, now).entries.contains(entry),
    ensures
        now <= entry.stored_at + node.config.max_message_age,
        node.store.entries.contains(entry),
{
    law_upkeep_leaves_nothing_expired(node, now, entry);
}

/// Upkeep of a store within its cap drops nothing but what is too old.
pub proof fn law_upkeep_spares_what_fits(node: NodeView, now: u64, entry: PropagationEntry)
    requires
        node.store.entries.contains(entry),
        total_bytes(node.store.entries) <= node.config.max_storage,
        now <= entry.stored_at + node.config.max_message_age,
    ensures
        upkept(node, now).entries.contains(entry),
{
    let fresh = |entry: PropagationEntry| !is_expired(entry, node.config.max_message_age, now);
    lemma_filter_takes_less(node.store.entries, fresh);
    let i = choose|i: int| 0 <= i < node.store.entries.len() && node.store.entries[i] == entry;
    node.store.entries.lemma_filter_contains(fresh, i);
}

/// A part of the entries takes no more than all.
proof fn lemma_filter_takes_less(
    entries: Seq<PropagationEntry>,
    keep: spec_fn(PropagationEntry) -> bool,
)
    ensures
        total_bytes(entries.filter(keep)) <= total_bytes(entries),
    decreases entries.len(),
{
    reveal(Seq::filter);
    if entries.len() > 0 {
        lemma_filter_takes_less(entries.drop_last(), keep);
        if keep(entries.last()) {
            assert(entries.filter(keep).drop_last() =~= entries.drop_last().filter(keep));
        }
    }
}

/// What upkeep throws out for want of room weighs at least as much as anything that
/// stays.
pub proof fn law_upkeep_throws_out_the_heaviest(
    node: NodeView,
    now: u64,
    gone: PropagationEntry,
    left: PropagationEntry,
)
    requires
        node.store.entries.contains(gone),
        now <= gone.stored_at + node.config.max_message_age,
        !upkept(node, now).entries.contains(gone),
        upkept(node, now).entries.contains(left),
    ensures
        weight_of(gone, node.store.prioritised.contains(gone.destination_hash), now) >= weight_of(
            left,
            node.store.prioritised.contains(left.destination_hash),
            now,
        ),
{
    let fresh = |entry: PropagationEntry| !is_expired(entry, node.config.max_message_age, now);
    let kept = StoreView { entries: node.store.entries.filter(fresh), ..node.store };
    let i = choose|i: int| 0 <= i < node.store.entries.len() && node.store.entries[i] == gone;
    node.store.entries.lemma_filter_contains(fresh, i);
    law_heaviest_leave_first(kept, node.config.max_storage, now, gone, left);
}

/// Upkeep changes nothing but the store and its revision, and the revision exactly
/// when a message left.
pub proof fn law_upkeep_touches_the_store_only(node: NodeView, now: u64)
    ensures
        ({
            let after = ticked(node, now);
            &&& after == (NodeView { store: after.store, generation: after.generation, ..node })
            &&& after.store.ignored == node.store.ignored
            &&& after.store.prioritised == node.store.prioritised
            &&& after.store.entries.len() == node.store.entries.len() ==> after.generation
                == node.generation
            &&& after.store.entries.len() < node.store.entries.len() && node.generation < u64::MAX
                ==> after.generation == node.generation + 1
        }),
{
    let fresh = |entry: PropagationEntry| !is_expired(entry, node.config.max_message_age, now);
    lemma_culled_subset(
        StoreView { entries: node.store.entries.filter(fresh), ..node.store },
        node.config.max_storage,
        now,
    );
}

/// A file of the storage directory is left over exactly when it is named like that
/// of a message, and no message with this identifier is stored.
pub proof fn law_left_over_files(node: NodeView, entry: PropagationEntry)
    ensures
        is_orphan(node, entry.filename_spec()) <==> !holds(node.store.entries, entry.transient_id),
{
    law_files_are_found_again(entry);
}

/// A client's own message, and no other, is read for it from the message's own file
/// and with the stamp known to be behind it or not.
pub proof fn law_own_messages_are_read(
    node: NodeView,
    client: DestinationHash,
    entry: PropagationEntry,
    directory: Seq<char>,
)
    requires
        node.wf(),
        node.store.entries.contains(entry),
        node.storage_path == Some(directory),
    ensures
        entry.destination_hash != client ==> planned_read(node, client, entry.transient_id) is None,
        entry.destination_hash == client ==> (planned_read(
            node,
            client,
            entry.transient_id,
        ) matches Some(read) && read.stamped == entry.stamped && read.path == directory + seq!['/']
            + entry.filename_spec()),
{
    let entries = node.store.entries;
    let i = choose|i: int| 0 <= i < entries.len() && entries[i] == entry;
    lemma_entry_of(entries, i);
}

/// What a client asks for and owns is read for it, and nothing is read that it did
/// not ask for.
pub proof fn law_wanted_is_read(
    node: NodeView,
    client: DestinationHash,
    wants: Seq<PropagationTransientId>,
    i: int,
)
    requires
        0 <= i < wants.len(),
    ensures
        planned_read(node, client, wants[i]) matches Some(read) ==> planned_reads(
            node,
            client,
            wants,
        ).contains(read),
        planned_reads(node, client, wants).len() <= wants.len(),
        forall|read: PlannedReadView| #[trigger]
            planned_reads(node, client, wants).contains(read) ==> exists|k: int|
                0 <= k < wants.len() && planned_read(node, client, #[trigger] wants[k]) == Some(
                    read,
                ),
    decreases wants.len(),
{
    let rest = wants.drop_last();
    let reads = planned_reads(node, client, wants);
    let before = planned_reads(node, client, rest);
    let pick = |id: PropagationTransientId| planned_read(node, client, id);
    if rest.len() > 0 {
        let j = if i < rest.len() {
            i
        } else {
            0
        };
        law_wanted_is_read(node, client, rest, j);
    }
    if i < rest.len() {
        assert(rest[i] == wants[i]);
        if let Some(read) = planned_read(node, client, wants[i]) {
            let k = choose|k: int| 0 <= k < before.len() && before[k] == read;
            assert(reads[k] == read);
        }
    } else if let Some(read) = planned_read(node, client, wants[i]) {
        assert(reads[before.len() as int] == read);
    }
    assert forall|read: PlannedReadView| #[trigger] reads.contains(read) implies exists|k: int|
        0 <= k < wants.len() && planned_read(node, client, #[trigger] wants[k]) == Some(read) by {
        wants.lemma_filter_map_contains(pick, read);
        let id = choose|id: PropagationTransientId| #[trigger]
            wants.contains(id) && pick(id) == Some(read);
        let k = choose|k: int| 0 <= k < wants.len() && wants[k] == id;
        assert(planned_read(node, client, wants[k]) == Some(read));
    }
}

/// Where a client deletes its message, the message's file is removed with it, and
/// the store has another revision.
pub proof fn law_deleted_file_is_removed(
    node: NodeView,
    client: DestinationHash,
    entry: PropagationEntry,
)
    requires
        node.wf(),
        node.store.entries.contains(entry),
        entry.destination_hash == client,
    ensures
        ({
            let after = purged_one(node, client, entry.transient_id);
            &&& node.storage_path matches Some(directory) ==> after.removals == node.removals.push(
                directory + seq!['/'] + entry.filename_spec(),
            )
            &&& node.storage_path is None ==> after.removals == node.removals
            &&& node.generation < u64::MAX ==> after.generation == node.generation + 1
            &&& !holds(after.store.entries, entry.transient_id)
        }),
{
    let entries = node.store.entries;
    let i = choose|i: int| 0 <= i < entries.len() && entries[i] == entry;
    lemma_entry_of(entries, i);
    let id = entry.transient_id;
    let rest = without(entries, id);
    if holds(rest, id) {
        let k = choose|k: int| 0 <= k < rest.len() && (#[trigger] rest[k]).transient_id == id;
        lemma_filter_holds(entries, |entry: PropagationEntry| entry.transient_id != id, k);
    }
}

/// A client is told of all its messages and of no others, the smallest first.
pub proof fn law_listing_names_own_messages(
    node: NodeView,
    client: DestinationHash,
    order: Seq<PropagationEntry>,
    entry: PropagationEntry,
)
    requires
        is_size_order(addressed_to(node.store.entries, client), order),
    ensures
        order.contains(entry) <==> node.store.entries.contains(entry) && entry.destination_hash
            == client,
        forall|i: int, j: int|
            0 <= i < j < order.len() ==> (#[trigger] order[i]).size <= (#[trigger] order[j]).size,
{
    let entries = node.store.entries;
    let own = addressed_to(entries, client);
    let pick = |entry: PropagationEntry| entry.destination_hash == client;
    vstd::seq_lib::to_multiset_contains(order, entry);
    vstd::seq_lib::to_multiset_contains(own, entry);
    if own.contains(entry) {
        let i = choose|i: int| 0 <= i < own.len() && own[i] == entry;
        lemma_filter_holds(entries, pick, i);
    }
    if entries.contains(entry) && entry.destination_hash == client {
        let i = choose|i: int| 0 <= i < entries.len() && entries[i] == entry;
        entries.lemma_filter_contains(pick, i);
    }
}

/// Bytes that the contents read up to `n` take in an answer, each with the sixteen
/// bytes around it.
pub open spec fn read_bytes(contents: Seq<Option<Seq<u8>>>, n: int) -> nat
    decreases n,
{
    if n <= 0 {
        0
    } else {
        read_bytes(contents, n - 1) + (match contents[n - 1] {
            Some(data) => data.len() + 16,
            None => 0,
        })
    }
}

/// Bytes that messages take together.
pub open spec fn message_bytes(messages: Seq<Seq<u8>>) -> nat
    decreases messages.len(),
{
    if messages.len() == 0 {
        0
    } else {
        message_bytes(messages.drop_last()) + messages.last().len() + 16
    }
}

/// What is counted of an answer covers its messages, and no more than what was
/// read.
proof fn lemma_served_count(
    reads: Seq<PlannedReadView>,
    contents: Seq<Option<Seq<u8>>>,
    limit: Option<u64>,
)
    requires
        contents.len() >= reads.len(),
    ensures
        ({
            let served = serve_all(reads, contents, limit);
            &&& 24 + message_bytes(served.messages) <= served.cumulative
            &&& served.cumulative <= 24 + read_bytes(contents, reads.len() as int)
            &&& served.messages.len() > 0 ==> (limit matches Some(limit) ==> served.cumulative
                <= limit)
            &&& served.messages.len() == 0 ==> served.cumulative == 24
        }),
    decreases reads.len(),
{
    if reads.len() > 0 {
        lemma_served_count(reads.drop_last(), contents, limit);
        let before = serve_all(reads.drop_last(), contents, limit);
        let after = serve_all(reads, contents, limit);
        if after.messages.len() > before.messages.len() {
            assert(after.messages.drop_last() =~= before.messages);
        }
    }
}

/// An answer to a client stays within the limit that the client gave: its messages,
/// each with sixteen bytes around it, and the twenty-four around them all.
pub proof fn law_downloads_stay_within_limit(
    reads: Seq<PlannedReadView>,
    contents: Seq<Option<Seq<u8>>>,
    limit: u64,
)
    requires
        contents.len() == reads.len(),
    ensures
        ({
            let messages = serve_all(reads, contents, Some(limit)).messages;
            messages.len() > 0 ==> 24 + message_bytes(messages) <= limit
        }),
{
    lemma_served_count(reads, contents, Some(limit));
}

/// A message that could be read is in the answer where everything read up to it
/// stays within the client's limit, or the client gave none: all of it, or all but
/// the thirty-two bytes of its stamp.
pub proof fn law_what_fits_is_downloaded(
    reads: Seq<PlannedReadView>,
    contents: Seq<Option<Seq<u8>>>,
    limit: Option<u64>,
    i: int,
    data: Seq<u8>,
)
    requires
        contents.len() >= reads.len(),
        0 <= i < reads.len(),
        contents[i] == Some(data),
        limit matches Some(limit) ==> 24 + read_bytes(contents, i + 1) <= limit,
    ensures
        !reads[i].stamped ==> serve_all(reads, contents, limit).messages.contains(data),
        reads[i].stamped && data.len() >= 32 ==> serve_all(
            reads,
            contents,
            limit,
        ).messages.contains(data.take(data.len() - 32)),
    decreases reads.len(),
{
    let rest = reads.drop_last();
    let before = serve_all(rest, contents, limit);
    let after = serve_all(reads, contents, limit);
    if i == reads.len() - 1 {
        lemma_served_count(rest, contents, limit);
        assert(after.messages[before.messages.len() as int] == client_payload(
            data,
            reads[i].stamped,
        ));
    } else {
        assert(rest[i] == reads[i]);
        law_what_fits_is_downloaded(rest, contents, limit, i, data);
        let sent = client_payload(data, reads[i].stamped);
        if before.messages.contains(sent) {
            let k = choose|k: int| 0 <= k < before.messages.len() && before.messages[k] == sent;
            assert(after.messages[k] == sent);
        }
    }
}

/// Nothing is in an answer but what was read: each message is the whole content of a
/// file, or the content without the stamp behind it.
pub proof fn law_downloads_are_what_was_read(
    reads: Seq<PlannedReadView>,
    contents: Seq<Option<Seq<u8>>>,
    limit: Option<u64>,
    k: int,
)
    requires
        contents.len() >= reads.len(),
        0 <= k < serve_all(reads, contents, limit).messages.len(),
    ensures
        exists|i: int|
            0 <= i < reads.len() && (#[trigger] contents[i] matches Some(data) && serve_all(
                reads,
                contents,
                limit,
            ).messages[k] == (if reads[i].stamped && data.len() >= 32 {
                data.take(data.len() - 32)
            } else {
                data
            })),
    decreases reads.len(),
{
    let rest = reads.drop_last();
    let before = serve_all(rest, contents, limit);
    if k < before.messages.len() {
        law_downloads_are_what_was_read(rest, contents, limit, k);
        let i = choose|i: int|
            0 <= i < rest.len() && (#[trigger] contents[i] matches Some(data) && before.messages[k]
                == (if rest[i].stamped && data.len() >= 32 {
                data.take(data.len() - 32)
            } else {
                data
            }));
        assert(rest[i] == reads[i]);
    } else {
        assert(contents[reads.len() - 1] is Some);
    }
}

/// A list of identifiers reads back from a request.
pub proof fn law_requested_ids_read_back(ids: Seq<PropagationTransientId>)
    ensures
        ids_in(binaries(id_views(ids))) == ids,
    decreases ids.len(),
{
    let items = Seq::new(id_views(ids).len(), |i: int| WireView::Binary(id_views(ids)[i]));
    if ids.len() > 0 {
        let rest = ids.drop_last();
        law_requested_ids_read_back(rest);
        let before = Seq::new(id_views(rest).len(), |i: int| WireView::Binary(id_views(rest)[i]));
        assert(items.drop_last() =~= before);
        lemma_id_from_view(ids.last(), id_of(ids.last()@));
        assert(store_id(items.last()) == Some(ids.last()));
        assert(ids_in(binaries(id_views(ids))) =~= ids_in(binaries(id_views(rest))).push(
            ids.last(),
        ));
    }
    assert(ids_in(binaries(id_views(ids))) =~= ids);
}

/// A client asks by a pair: what it wants and what it has. Where it wants something
/// it is served, a third item is its limit; where it wants nothing it deletes what it
/// has; with neither it is told what there is. Anything but such a pair is refused.
pub proof fn law_requests_mean_what_they_say(
    wants: Seq<PropagationTransientId>,
    haves: Seq<PropagationTransientId>,
    limit: u64,
)
    ensures
        get_request(WireView::Array(seq![binaries(id_views(wants)), binaries(id_views(haves))]))
            == (GetRequest::Fetch { haves, wants, limit: None }),
        get_request(
            WireView::Array(
                seq![
                    binaries(id_views(wants)),
                    binaries(id_views(haves)),
                    WireView::Unsigned(limit),
                ],
            ),
        ) == (GetRequest::Fetch { haves, wants, limit: Some(ClientLimit::Unsigned(limit)) }),
        get_request(WireView::Array(seq![WireView::Nil, binaries(id_views(haves))])) == (
        GetRequest::Purge { haves }),
        get_request(WireView::Array(seq![binaries(id_views(wants)), WireView::Nil])) == (
        GetRequest::Fetch { haves: Seq::empty(), wants, limit: None }),
        get_request(WireView::Array(seq![WireView::Nil, WireView::Nil])) == GetRequest::List,
        get_request(WireView::Array(seq![binaries(id_views(wants))])) == GetRequest::Malformed,
        get_request(WireView::Nil) == GetRequest::Malformed,
{
    law_requested_ids_read_back(wants);
    law_requested_ids_read_back(haves);
}

/// An offer is answered by what is stored: nothing is asked for that is held, and
/// everything else that was offered is.
pub proof fn law_offer_answers(
    ids: Seq<PropagationTransientId>,
    entries: Seq<PropagationEntry>,
    id: PropagationTransientId,
)
    requires
        ids.contains(id),
    ensures
        match offer_answer(ids, entries) {
            OfferResponseView::HaveAll => holds(entries, id),
            OfferResponseView::WantAll => !holds(entries, id),
            OfferResponseView::WantSome(some) => some.contains(id@) <==> !holds(entries, id),
            _ => false,
        },
{
    let wanted = missing_from(ids, entries);
    lemma_missing(ids, entries, id);
    let at = choose|at: int| 0 <= at < ids.len() && ids[at] == id;
    assert(ids[at] == id);
    if wanted.len() == 0 {
        assert(!wanted.contains(id));
    }
    if wanted.contains(id) {
        let k = choose|k: int| 0 <= k < wanted.len() && wanted[k] == id;
        assert(id_views(wanted)[k] == id@);
    }
    if id_views(wanted).contains(id@) {
        let k = choose|k: int| 0 <= k < id_views(wanted).len() && id_views(wanted)[k] == id@;
        lemma_id_from_view(wanted[k], id);
        assert(wanted.contains(id));
    }
}

/// An offer is looked at only where its peer is known, is not held back, has access
/// and brings a key that is worth what peering costs; and each refusal says which of
/// these failed first.
pub proof fn law_offers_pass_the_gates(
    node: NodeView,
    key: Seq<u8>,
    ids: Seq<PropagationTransientId>,
    ctx: OfferRequestContext<'_>,
)
    ensures
        ({
            let answer = gated_answer(node, key, ids, ctx);
            let paid = match (ctx.local_identity_hash, ctx.remote_identity_hash) {
                (Some(local), Some(remote)) => node.config.peering_cost == 0 || peering_key_valid(
                    local@ + remote@,
                    key,
                    node.config.peering_cost,
                ),
                _ => false,
            };
            let open = ctx.identity_known && !ctx.is_throttled && ctx.access_allowed;
            &&& answer is ErrorNoIdentity <==> !ctx.identity_known
            &&& answer is ErrorThrottled <==> ctx.identity_known && ctx.is_throttled
            &&& answer is ErrorNoAccess <==> ctx.identity_known && !ctx.is_throttled
                && !ctx.access_allowed
            &&& answer is ErrorInvalidKey <==> open && !paid
            &&& (answer is HaveAll || answer is WantAll || answer is WantSome) <==> open && paid
        }),
{
}

/// A peer that made an offer is held back for three minutes, and no longer; an offer
/// that cannot be read does not count, nor does one that was held back.
pub proof fn law_offers_are_spaced(
    node: NodeView,
    request: Seq<u8>,
    ctx: OfferRequestContext<'_>,
    then: u64,
    now: u64,
)
    requires
        node.last_offer_times.contains_key(ctx.peer_hash),
        node.last_offer_times[ctx.peer_hash] == then,
    ensures
        now < then + 180 ==> offer_outcome(node, request, ctx, now) == (
            OfferResponseView::ErrorThrottled,
            false,
        ),
        now >= then + 180 ==> match offer_request_parts(request, node.config.max_offer_size) {
            Some((key, ids)) => offer_outcome(node, request, ctx, now) == (
                gated_answer(node, key, ids_with(ids), ctx),
                true,
            ),
            None => offer_outcome(node, request, ctx, now) == (
                OfferResponseView::ErrorInvalidData,
                false,
            ),
        },
        request.len() > node.config.max_offer_size ==> offer_request_parts(
            request,
            node.config.max_offer_size,
        ) is None,
{
}

/// Each stored message can be offered, with its own weight, size and stamp.
pub proof fn law_candidates_are_the_stored_messages(
    node: NodeView,
    candidates: Seq<SyncOfferCandidateSnapshot>,
    now: u64,
    i: int,
)
    requires
        are_candidates(node, candidates, now),
        0 <= i < candidates.len(),
    ensures
        candidates.len() == node.store.entries.len(),
        ({
            let entry = node.store.entries[i];
            &&& candidates[i].transient_id == entry.transient_id
            &&& candidates[i].size == entry.size
            &&& candidates[i].stamp_value == entry.stamp_value
            &&& candidates[i].weight == weight_of(
                entry,
                node.store.prioritised.contains(entry.destination_hash),
                now,
            )
        }),
{
}

/// A stored message stands among the candidates of an offer.
proof fn lemma_entry_is_candidate(
    node: NodeView,
    candidates: Seq<SyncOfferCandidateSnapshot>,
    order: Seq<SyncOfferCandidateSnapshot>,
    now: u64,
    e: int,
) -> (i: int)
    requires
        node.wf(),
        is_offer_order(candidates, order),
        are_candidates(node, candidates, now),
        0 <= e < node.store.entries.len(),
    ensures
        0 <= i < order.len(),
        order[i] == candidates[e],
        order[i].transient_id == node.store.entries[e].transient_id,
        order[i].size == node.store.entries[e].size,
        order[i].stamp_value == node.store.entries[e].stamp_value,
        distinct_ids(order),
{
    let entries = node.store.entries;
    assert(distinct_ids(candidates)) by {
        assert forall|i: int, j: int|
            0 <= i < candidates.len() && 0 <= j < candidates.len() && (
            #[trigger] candidates[i]).transient_id == (#[trigger] candidates[j]).transient_id
            implies candidates[i] == candidates[j] by {
            assert(entries[i].transient_id == entries[j].transient_id);
            if i < j {
                assert(entries[i].transient_id != entries[j].transient_id);
            }
            if j < i {
                assert(entries[j].transient_id != entries[i].transient_id);
            }
        }
        assert forall|i: int, j: int|
            0 <= i < candidates.len() && 0 <= j < candidates.len() && i != j implies candidates[i]
            != candidates[j] by {
            if candidates[i] == candidates[j] {
                assert(candidates[i].transient_id == candidates[j].transient_id);
                if i < j {
                    assert(entries[i].transient_id != entries[j].transient_id);
                } else {
                    assert(entries[j].transient_id != entries[i].transient_id);
                }
            }
        }
    }
    lemma_order_distinct(candidates, order);
    assert(candidates.contains(candidates[e]));
    vstd::seq_lib::to_multiset_contains(candidates, candidates[e]);
    vstd::seq_lib::to_multiset_contains(order, candidates[e]);
    let i = choose|i: int| 0 <= i < order.len() && order[i] == candidates[e];
    i
}

/// What a peer is offered of the store, by a policy and what its file says it holds.
/// A message is offered only if neither says that the peer holds it, its stamp is
/// worth what the peer asks for, and it is no larger than a transfer to the peer may
/// be; a message that the peer lacks is given up for good exactly when one of the
/// last two fails. Without a limit on a sync all the others are offered.
pub proof fn law_offer_goes_by_policy(
    node: NodeView,
    policy: OutboundOfferPolicy,
    held: Set<PropagationTransientId>,
    now: u64,
    selection: OfferSelection,
    entry: PropagationEntry,
)
    requires
        node.wf(),
        is_offer_choice(node, policy_limits(policy, held), now, selection),
        node.store.entries.contains(entry),
    ensures
        ({
            let lacks = !policy.handled_messages@.contains(entry.transient_id) && !held.contains(
                entry.transient_id,
            );
            let refused = entry.stamp_value < policy.minimum_stamp_cost || (
            policy.propagation_transfer_limit matches Some(limit) && limit < usize::MAX
                && entry.size + 16 > limit);
            &&& selection.selected.contains(entry.transient_id) ==> lacks && !refused
            &&& selection.terminal.contains(entry.transient_id) <==> lacks && refused
            &&& lacks && !refused && policy.propagation_sync_limit is None
                ==> selection.selected.contains(entry.transient_id)
            &&& lacks && !refused && !selection.selected.contains(entry.transient_id)
                && selection.selected.len() > 0 ==> !selection.is_exhaustive()
        }),
{
    let limits = policy_limits(policy, held);
    let (candidates, order) = choose|
        candidates: Seq<SyncOfferCandidateSnapshot>,
        order: Seq<SyncOfferCandidateSnapshot>,
    | #[trigger]
        is_offer_order(candidates, order) && are_candidates(node, candidates, now) && selection
            == select_all(order, limits);
    let e = choose|e: int| 0 <= e < node.store.entries.len() && node.store.entries[e] == entry;
    let i = lemma_entry_is_candidate(node, candidates, order, now, e);
    law_each_message_has_its_place(order, limits, i);
}

/// The limits of an offer without a policy are those that are kept of the peer, and
/// none where nothing is kept.
pub proof fn law_kept_limits(peer: PeerView)
    ensures
        saved_limits(Some(peer)).handled == peer.handled,
        saved_limits(Some(peer)).transfer_limit == peer.propagation_transfer_limit,
        saved_limits(Some(peer)).sync_limit == peer.propagation_sync_limit,
        peer.stamp_cost matches Some(cost) ==> saved_limits(Some(peer)).minimum_stamp_cost == (
        match peer.stamp_cost_flexibility {
            Some(flexibility) => if cost >= flexibility {
                cost - flexibility
            } else {
                0
            },
            None => cost as int,
        }),
        peer.stamp_cost is None ==> saved_limits(Some(peer)).minimum_stamp_cost == 0,
        saved_limits(None).minimum_stamp_cost == 0,
        saved_limits(None).transfer_limit is None && saved_limits(None).sync_limit is None,
        forall|id: PropagationTransientId| !saved_limits(None).handled.contains(id),
{
}

/// The policy of a peer says what is known of the peer.
pub proof fn law_policy_speaks_of_its_peer(peer: PeerView, policy: OutboundOfferPolicy)
    requires
        peer.is_policy(policy),
    ensures
        policy.peer_hash == peer.destination_hash,
        policy.handled_messages@ == peer.handled,
        policy.propagation_transfer_limit == peer.propagation_transfer_limit,
        policy.propagation_sync_limit == peer.propagation_sync_limit,
        policy.minimum_stamp_cost == saved_limits(Some(peer)).minimum_stamp_cost,
        peer.peering_key matches Some((key, _)) ==> policy.peering_key@ == key,
        peer.peering_key is None ==> policy.peering_key@.len() == 0,
{
}

/// What is kept of a peer loses the messages that are stored no more, and nothing
/// else.
pub proof fn law_peer_forgets_what_left(
    peer: PeerView,
    store: StoreView,
    id: PropagationTransientId,
)
    ensures
        pruned(peer, store).handled.contains(id) <==> peer.handled.contains(id) && holds(
            store.entries,
            id,
        ),
        pruned(peer, store) == (PeerView { handled: pruned(peer, store).handled, ..peer }),
{
}

/// What is written of a peer after an offer says that it holds what it held, what the
/// policy knew it to hold, and what it will never take; with the limits of the policy.
pub proof fn law_kept_peer_remembers(
    saved: Option<PeerView>,
    policy: OutboundOfferPolicy,
    ids: Seq<PropagationTransientId>,
    id: PropagationTransientId,
)
    ensures
        ({
            let kept = kept_peer(saved, policy, ids);
            &&& kept.handled.contains(id) <==> (saved matches Some(peer) && peer.handled.contains(
                id,
            )) || policy.handled_messages@.contains(id) || ids.contains(id)
            &&& kept.propagation_transfer_limit == policy.propagation_transfer_limit
            &&& kept.propagation_sync_limit == policy.propagation_sync_limit
            &&& saved matches Some(peer) ==> kept.destination_hash == peer.destination_hash
                && kept.alive == peer.alive && kept.peering_key == peer.peering_key
                && kept.stamp_cost == peer.stamp_cost && kept.offered == peer.offered
            &&& saved is None ==> kept.destination_hash == policy.peer_hash
        }),
{
}

/// Where a peer will never take some messages and there is a disk, that is written to
/// the peer's own file; otherwise nothing is.
pub proof fn law_given_up_is_written(
    node: NodeView,
    kept: PeerView,
    terminal: Seq<PropagationTransientId>,
    record: Option<PeerFile>,
)
    requires
        is_terminal_record(node, kept, terminal, record),
    ensures
        record is Some <==> terminal.len() > 0 && node.storage_path is Some,
        record matches Some(file) ==> file.peer@ == kept && (node.storage_path matches Some(
            directory,
        ) && file.path@ == directory + seq!['/'] + hex_chars(kept.destination_hash@)
            + seq!['.', 'p', 'e', 'e', 'r']),
{
    if let Some(file) = record {
        let directory = node.storage_path->0;
        assert(file.path@ =~= directory + seq!['/'] + hex_chars(kept.destination_hash@)
            + seq!['.', 'p', 'e', 'e', 'r']);
    }
}

/// An offer is noted in the session with its peer and in no other.
pub proof fn law_offer_is_noted_for_its_peer(
    node: NodeView,
    peer_hash: DestinationHash,
    other: DestinationHash,
    offered: Seq<PropagationTransientId>,
)
    requires
        other != peer_hash,
    ensures
        ({
            let after = with_offer(node, peer_hash, offered);
            &&& after.sessions.contains_key(peer_hash)
            &&& after.sessions[peer_hash].offered_ids == offered
            &&& after.sessions[peer_hash].peer_hash == (if node.sessions.contains_key(peer_hash) {
                node.sessions[peer_hash].peer_hash
            } else {
                peer_hash
            })
            &&& after.sessions.contains_key(other) == node.sessions.contains_key(other)
            &&& after.sessions[other] == node.sessions[other]
            &&& after == (NodeView { sessions: after.sessions, ..node })
        }),
{
}

/// Of a peer's offer exactly those messages are wanted that are named in full and not
/// stored.
pub proof fn law_unstored_is_wanted(
    offered: Seq<Seq<u8>>,
    entries: Seq<PropagationEntry>,
    id: PropagationTransientId,
)
    requires
        offered.contains(id@),
    ensures
        wanted_of(offered, entries).contains(id@) <==> !holds(entries, id),
    decreases offered.len(),
{
    let keep = |bytes: Seq<u8>| is_wanted(bytes, entries);
    let at = choose|at: int| 0 <= at < offered.len() && offered[at] == id@;
    if !holds(entries, id) {
        assert(is_wanted(id@, entries)) by {
            assert forall|other: PropagationTransientId|
                #![trigger holds(entries, other)]
                other@ == id@ implies !holds(entries, other) by {
                lemma_id_from_view(other, id);
            }
        }
        offered.lemma_filter_contains(keep, at);
    }
    if wanted_of(offered, entries).contains(id@) {
        let wanted = wanted_of(offered, entries);
        let k = choose|k: int| 0 <= k < wanted.len() && wanted[k] == id@;
        offered.lemma_filter_pred(keep, k);
        assert(is_wanted(id@, entries));
    }
}

/// A node starts empty. One that is loaded holds what its files hold, and has something
/// to offer its peers where that is anything.
pub proof fn law_nodes_start_clean(
    config: PropagationNodeConfig,
    dest_hash: DestinationHash,
    directory: Seq<char>,
    entries: Seq<PropagationEntry>,
)
    ensures
        ({
            let node = loaded_node(config, dest_hash, directory, entries);
            &&& node.store.entries == entries
            &&& node.generation > 0 <==> entries.len() > 0
            &&& node.storage_path == Some(directory)
            &&& node.config == config && node.dest_hash == dest_hash
            &&& node.pending_bytes == 0 && node.removals.len() == 0
            &&& forall|id: PropagationTransientId| !node.pending_ids.contains(id)
            &&& forall|peer: DestinationHash| !node.sessions.contains_key(peer)
            &&& forall|peer: DestinationHash| !node.last_offer_times.contains_key(peer)
            &&& forall|hash: DestinationHash| !node.store.ignored.contains(hash)
        }),
        empty_node(config, dest_hash, None).store.entries.len() == 0,
        empty_node(config, dest_hash, None).generation == 0,
        empty_node(config, dest_hash, None).storage_path is None,
{
}

/// A file that cannot be read is put aside under its own name, and one that is named
/// like no message is left alone; neither brings a message. Of two files of a message
/// the first counts.
pub proof fn law_odd_files_bring_nothing(loaded: Loaded, file: StoredFile)
    ensures
        file_key(file.name@) is None ==> load_next(loaded, file) == loaded,
        file_key(file.name@) is Some && file.content is None ==> load_next(loaded, file) == (Loaded {
            entries: loaded.entries,
            unreadable: loaded.unreadable.push(file.name@),
        }),
        file_key(file.name@) matches Some(key) ==> (file.content is Some && holds(
            loaded.entries,
            key.0,
        ) ==> load_next(loaded, file) == loaded),
        file_key(file.name@) matches Some(key) ==> (file.content is Some && !holds(
            loaded.entries,
            key.0,
        ) ==> load_next(loaded, file).entries.len() == loaded.entries.len() + 1),
{
}

/// A reservation keeps a place for the message, and plans its file: the content as it is,
/// under the message's own name in the storage directory.
pub proof fn law_reservation_plans_the_file(
    before: NodeView,
    after: NodeView,
    plan: WritePlanView,
    entry: PropagationEntry,
    data: Seq<u8>,
)
    requires
        is_reservation(before, after, plan, entry, data),
    ensures
        !holds(before.store.entries, entry.transient_id),
        !before.pending_ids.contains(entry.transient_id),
        plan.entry == entry,
        plan.data == data,
        before.storage_path matches Some(directory) ==> plan.path == Some(
            directory + seq!['/'] + entry.filename_spec(),
        ),
        before.storage_path is None ==> plan.path is None,
        after.pending_ids.contains(entry.transient_id),
        before.pending_bytes + data.len() <= usize::MAX ==> after.pending_bytes
            == before.pending_bytes + data.len(),
        after.store == before.store && after.generation == before.generation,
{
}

/// A reserved message is accepted exactly when its file is written, or it needs none, and
/// its destination is not ignored. One whose file could not be written leaves no trace.
pub proof fn law_accepted_means_stored(
    reserved: NodeView,
    after: NodeView,
    plan: WritePlanView,
    written: bool,
    accepted: bool,
)
    requires
        is_settled(reserved, after, plan, written, accepted),
        reserved.pending_ids.contains(plan.entry.transient_id),
        !holds(reserved.store.entries, plan.entry.transient_id),
    ensures
        accepted <==> (plan.path is None || written) && !reserved.store.ignored.contains(
            plan.entry.destination_hash,
        ),
        accepted ==> after.store.entries == reserved.store.entries.push(plan.entry),
        !accepted ==> after.store == reserved.store && after.generation == reserved.generation,
        !after.pending_ids.contains(plan.entry.transient_id),
{
}

/// What a request of a client does to the store: it deletes the client's own messages
/// that the request says have arrived, and nothing else. A list or a request that cannot
/// be read changes nothing.
pub proof fn law_requests_delete_what_arrived(
    before: NodeView,
    after: NodeView,
    client: DestinationHash,
    haves: Seq<PropagationTransientId>,
    wants: Seq<PropagationTransientId>,
    limit: Option<ClientLimit>,
    action: GetRequestAction,
    entry: PropagationEntry,
)
    requires
        before.wf(),
        before.store.entries.contains(entry),
    ensures
        is_answer(before, after, client, GetRequest::Malformed, action) || is_answer(
            before,
            after,
            client,
            GetRequest::List,
            action,
        ) ==> after == before && action is Respond,
        is_answer(before, after, client, GetRequest::Purge { haves }, action) ==> action is Respond
            && (holds(after.store.entries, entry.transient_id) <==> !(haves.contains(
            entry.transient_id,
        ) && entry.destination_hash == client)),
        is_answer(before, after, client, GetRequest::Fetch { haves, wants, limit }, action) ==> (
        action matches GetRequestAction::ServeFiles(plan) && plan.limit == limit
            && plan.reads@.len() <= wants.len()) && (holds(after.store.entries, entry.transient_id)
            <==> !(haves.contains(entry.transient_id) && entry.destination_hash == client)),
{
    let entries = before.store.entries;
    let i = choose|i: int| 0 <= i < entries.len() && entries[i] == entry;
    lemma_entry_of(entries, i);
    let id = entry.transient_id;
    let left = purged(before, client, haves);
    if haves.contains(id) && entry.destination_hash == client {
        law_purged_is_gone(before, client, haves, id);
    } else {
        if entry.destination_hash != client {
            law_purge_spares_others(before, client, haves, entry);
        } else {
            law_purge_keeps_unnamed(before, client, haves, entry);
        }
        let rest = left.store.entries;
        let k = choose|k: int| 0 <= k < rest.len() && rest[k] == entry;
        assert(rest[k].transient_id == id);
    }
    if is_answer(before, after, client, GetRequest::Fetch { haves, wants, limit }, action) {
        if wants.len() > 0 {
            law_wanted_is_read(left, client, wants, 0);
        }
        if let GetRequestAction::ServeFiles(plan) = action {
            assert(read_views(plan.reads@).len() == plan.reads@.len());
        }
    }
}

/// A client may give its limit by any number.
pub proof fn law_limits_are_numbers(value: u64, negative: i64, single: u32)
    ensures
        limit_of(WireView::Unsigned(value)) == Some(ClientLimit::Unsigned(value)),
        limit_of(WireView::Negative(negative)) == Some(ClientLimit::Negative(negative)),
        limit_of(WireView::Single(single)) == Some(ClientLimit::Single(single)),
        limit_of(WireView::Double(value)) == Some(ClientLimit::Double(value)),
        limit_of(WireView::Nil) is None,
{
}

/// Of the stored messages, those are offered by their stamps whose stamp is worth enough,
/// and those by a list that are not on it.
pub proof fn law_simple_offers(
    entries: Seq<PropagationEntry>,
    min_cost: u8,
    held: Set<PropagationTransientId>,
    entry: PropagationEntry,
)
    requires
        unique_ids(entries),
        entries.contains(entry),
    ensures
        ids_worth(entries, min_cost).contains(entry.transient_id) <==> entry.stamp_value
            >= min_cost,
        ids_outside(ids_of(entries), held).contains(entry.transient_id) <==> !held.contains(
            entry.transient_id,
        ),
{
    let id = entry.transient_id;
    let i = choose|i: int| 0 <= i < entries.len() && entries[i] == entry;
    let worth = |entry: PropagationEntry| entry.stamp_value >= min_cost;
    let picked = entries.filter(worth);
    if entry.stamp_value >= min_cost {
        entries.lemma_filter_contains(worth, i);
        let k = choose|k: int| 0 <= k < picked.len() && picked[k] == entry;
        assert(ids_of(picked)[k] == id);
    }
    if ids_worth(entries, min_cost).contains(id) {
        let k = choose|k: int| 0 <= k < ids_of(picked).len() && ids_of(picked)[k] == id;
        lemma_filter_holds(entries, worth, k);
        let j = choose|j: int| 0 <= j < entries.len() && entries[j] == picked[k];
        if i < j {
            assert(entries[i].transient_id != entries[j].transient_id);
        }
        if j < i {
            assert(entries[j].transient_id != entries[i].transient_id);
        }
    }
    let ids = ids_of(entries);
    let lacks = |id: PropagationTransientId| !held.contains(id);
    assert(ids[i] == id);
    if !held.contains(id) {
        ids.lemma_filter_contains(lacks, i);
    }
    if ids_outside(ids, held).contains(id) {
        let rest = ids_outside(ids, held);
        let k = choose|k: int| 0 <= k < rest.len() && rest[k] == id;
        ids.lemma_filter_pred(lacks, k);
    }
}

/// An opaque message that is not fit, or for which there is no place, changes nothing. One
/// that is accepted is stored last, under the hash of its data, for the destination that it
/// names, and with its stamp's value.
pub proof fn law_accepted_blob_is_stored<W: FnOnce(&String, &Vec<u8>) -> bool>(
    before: NodeView,
    after: NodeView,
    blob: BlobView,
    write: W,
    accepted: bool,
)
    requires
        is_blob_admission(before, after, blob, write, accepted),
    ensures
        !accepted ==> after.store == before.store && after.generation == before.generation,
        accepted ==> {
            let entry = after.store.entries.last();
            &&& after.store.entries == before.store.entries.push(entry)
            &&& entry.transient_id@ == sha256_digest(blob.lxmf_data)
            &&& !holds(before.store.entries, entry.transient_id)
            &&& entry.destination_hash@ == blob.lxmf_data.take(16)
            &&& !before.store.ignored.contains(entry.destination_hash)
            &&& entry.stamp_value == blob.stamp_value
            &&& entry.stamp_value >= before.config.min_stamp_cost
            &&& entry.size == blob.stored.len() && blob.stored.len()
                <= before.config.max_message_size
            &&& entry.stamped == blob.stamped
            &&& entry.stored_at == blob.now
        },
        before.config.min_stamp_cost > blob.stamp_value || blob.lxmf_data.len() <= 16
            || blob.stored.len() > before.config.max_message_size ==> !accepted && after == before,
{
}

/// Upkeep drops what is too old before it looks for room: what is not too old stays where
/// all that is not too old fits.
pub proof fn law_upkeep_expires_before_it_weighs(
    node: NodeView,
    now: u64,
    entry: PropagationEntry,
)
    requires
        node.store.entries.contains(entry),
        now <= entry.stored_at + node.config.max_message_age,
        total_bytes(
            node.store.entries.filter(
                |other: PropagationEntry| now <= other.stored_at + node.config.max_message_age,
            ),
        ) <= node.config.max_storage,
    ensures
        upkept(node, now).entries.contains(entry),
{
    let fresh = |entry: PropagationEntry| !is_expired(entry, node.config.max_message_age, now);
    let young = |other: PropagationEntry|
        now <= other.stored_at + node.config.max_message_age;
    assert(fresh =~= young) by {
        assert forall|other: PropagationEntry| #[trigger] fresh(other) == young(other) by {}
    }
    let i = choose|i: int| 0 <= i < node.store.entries.len() && node.store.entries[i] == entry;
    node.store.entries.lemma_filter_contains(fresh, i);
}

/// A message that was read is left out of an answer only where it does not fit with what is
/// in the answer before it. So a large message keeps out no smaller one behind it. Its whole
/// size counts, the stamp too.
pub proof fn law_only_what_does_not_fit_is_skipped(
    reads: Seq<PlannedReadView>,
    contents: Seq<Option<Seq<u8>>>,
    limit: Option<u64>,
    data: Seq<u8>,
)
    requires
        reads.len() > 0,
        contents.len() >= reads.len(),
    ensures
        ({
            let before = serve_all(reads.drop_last(), contents, limit);
            let after = serve_all(reads, contents, limit);
            let next = before.cumulative + data.len() + 16;
            &&& contents[reads.len() - 1] is None ==> after == before
            &&& contents[reads.len() - 1] == Some(data) ==> {
                let fits = limit matches Some(limit) ==> next <= limit;
                &&& fits ==> after.messages.len() == before.messages.len() + 1 && after.cumulative
                    == next
                &&& !fits ==> after == before
            }
        }),
        serve_all(Seq::empty(), contents, limit).cumulative == 24,
        serve_all(Seq::empty(), contents, limit).messages.len() == 0,
{
}

} // verus!
