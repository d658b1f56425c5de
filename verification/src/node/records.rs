//! What the node tells of its store, and what it keeps of its peers.

use vstd::prelude::*;
use crate::ids::{DestinationHash, PropagationTransientId};
use crate::peer::LxmPeer;
#[allow(unused_imports)]
use crate::peer::{peer_view, unknown_peer, PeerView};
use crate::node::{PropagationNode, PropagationNodeConfig};
#[allow(unused_imports)]
use crate::node::NodeView;
#[allow(unused_imports)]
use crate::node::peers::{held_by_file, is_offer_choice, peer_file, policy_limits, with_offer};
#[allow(unused_imports)]
use crate::msgpack::byte_views;
#[allow(unused_imports)]
use crate::offer::id_views;
use crate::store::{PropagationEntry, PropagationStore};
#[allow(unused_imports)]
use crate::store::{holds, ids_of, total_bytes, StoreView};
use crate::sync::{OutboundOfferPolicy, SyncOffer};
#[allow(unused_imports)]
use crate::sync::{OfferLimits, OfferSelection};
use crate::tables::IdSet;

verus! {

/// The identifiers of entries whose stamp is worth at least `min_cost`.
pub open spec fn ids_worth(entries: Seq<PropagationEntry>, min_cost: u8) -> Seq<
    PropagationTransientId,
> {
    ids_of(entries.filter(|entry: PropagationEntry| entry.stamp_value >= min_cost))
}

/// The identifiers that are not in `held`.
pub open spec fn ids_outside(
    ids: Seq<PropagationTransientId>,
    held: Set<PropagationTransientId>,
) -> Seq<PropagationTransientId> {
    ids.filter(|id: PropagationTransientId| !held.contains(id))
}

/// What a peer accepts and holds by its file; a peer without one accepts
/// anything and holds nothing.
pub open spec fn saved_limits(saved: Option<PeerView>) -> OfferLimits {
    match saved {
        Some(peer) => OfferLimits {
            handled: peer.handled,
            minimum_stamp_cost: peer.minimum_stamp_cost(),
            transfer_limit: peer.propagation_transfer_limit,
            sync_limit: peer.propagation_sync_limit,
        },
        None => OfferLimits {
            handled: Set::empty(),
            minimum_stamp_cost: 0,
            transfer_limit: None,
            sync_limit: None,
        },
    }
}

/// The key that goes with an offer to a peer with this file.
pub open spec fn saved_key(saved: Option<PeerView>) -> Seq<u8> {
    match saved {
        Some(peer) => match peer.peering_key {
            Some((key, _)) => key,
            None => Seq::empty(),
        },
        None => Seq::empty(),
    }
}

/// A peer without the messages that the store no longer holds.
pub open spec fn pruned(peer: PeerView, store: StoreView) -> PeerView {
    PeerView {
        handled: peer.handled.filter(|id: PropagationTransientId| holds(store.entries, id)),
        ..peer
    }
}

/// What is kept of a peer, as far as the store holds it.
pub open spec fn loaded_peer(saved: Option<&LxmPeer>, store: StoreView) -> Option<PeerView> {
    match saved {
        Some(peer) => Some(pruned(peer@, store)),
        None => None,
    }
}

/// What peers hold.
pub open spec fn peer_views(peers: Seq<LxmPeer>) -> Seq<PeerView> {
    Seq::new(peers.len(), |i: int| peers[i]@)
}

/// A filter that keeps everything changes nothing.
proof fn lemma_filter_all(
    entries: Seq<PropagationEntry>,
    keep: spec_fn(PropagationEntry) -> bool,
)
    requires
        forall|entry: PropagationEntry| #[trigger] keep(entry),
    ensures
        entries.filter(keep) == entries,
    decreases entries.len(),
{
    reveal(Seq::filter);
    if entries.len() > 0 {
        lemma_filter_all(entries.drop_last(), keep);
        assert(keep(entries.last()));
        assert(entries.drop_last().push(entries.last()) =~= entries);
    }
}

/// What is kept of a peer; of one without a file, nothing but its address.
pub open spec fn kept_or_unknown(saved: Option<PeerView>, peer_hash: DestinationHash) -> PeerView {
    match saved {
        Some(peer) => peer,
        None => unknown_peer(peer_hash),
    }
}

/// What is kept of a peer that an offer was prepared for: what was kept of it
/// before, by the policy of the offer, holding more messages.
pub open spec fn kept_peer(
    saved: Option<PeerView>,
    policy: OutboundOfferPolicy,
    ids: Seq<PropagationTransientId>,
) -> PeerView {
    let peer = kept_or_unknown(saved, policy.peer_hash);
    PeerView {
        propagation_transfer_limit: policy.propagation_transfer_limit,
        propagation_sync_limit: policy.propagation_sync_limit,
        handled: peer.handled.union(policy.handled_messages@).union(ids.to_set()),
        ..peer
    }
}

/// A peer, and the file that it is to be written to.
#[derive(Debug)]
pub struct PeerFile {
    pub path: String,
    pub peer: LxmPeer,
}

/// `record` is what is to be written of a peer that will never take `terminal`:
/// `kept`, to its file. With nothing in `terminal`, or without a disk, nothing is
/// written.
pub open spec fn is_terminal_record(
    node: NodeView,
    kept: PeerView,
    terminal: Seq<PropagationTransientId>,
    record: Option<PeerFile>,
) -> bool {
    match record {
        Some(file) => {
            &&& terminal.len() > 0
            &&& peer_file(node, kept.destination_hash) == Some(file.path@)
            &&& file.peer@ == kept
        },
        None => terminal.len() == 0 || node.storage_path is None,
    }
}

impl PropagationNode {
    /// The store of the node.
    pub fn store(&self) -> (store: &PropagationStore)
        ensures
            store@ == self@.store,
    {
        &self.store
    }

    /// The store of the node, to be changed in place. The rest of the node stays
    /// as it is.
    pub fn store_mut(&mut self) -> (store: &mut PropagationStore)
        ensures
            store@ == old(self)@.store,
            final(self)@ == (NodeView { store: final(store)@, ..old(self)@ }),
    {
        &mut self.store
    }

    /// Least value of a stamp that the node takes.
    pub fn min_stamp_cost(&self) -> (cost: u8)
        ensures
            cost == self@.config.min_stamp_cost,
    {
        self.config.min_stamp_cost
    }

    /// Sets the least value of a stamp that the node takes.
    pub fn set_min_stamp_cost(&mut self, cost: u8)
        ensures
            final(self)@ == (NodeView {
                config: PropagationNodeConfig { min_stamp_cost: cost, ..old(self)@.config },
                ..old(self)@
            }),
    {
        self.config.min_stamp_cost = cost;
    }

    /// Sets what peering costs.
    pub fn set_peering_cost(&mut self, cost: u8)
        ensures
            final(self)@ == (NodeView {
                config: PropagationNodeConfig { peering_cost: cost, ..old(self)@.config },
                ..old(self)@
            }),
    {
        self.config.peering_cost = cost;
    }

    /// Sets how many bytes the store may take.
    pub fn set_max_storage(&mut self, max: usize)
        ensures
            final(self)@ == (NodeView {
                config: PropagationNodeConfig { max_storage: max, ..old(self)@.config },
                ..old(self)@
            }),
    {
        self.config.max_storage = max;
    }

    /// Sets how large a message may be.
    pub fn set_max_message_size(&mut self, max: usize)
        ensures
            final(self)@ == (NodeView {
                config: PropagationNodeConfig { max_message_size: max, ..old(self)@.config },
                ..old(self)@
            }),
    {
        self.config.max_message_size = max;
    }

    /// Refuses messages to a destination from now on.
    pub fn ignore_destination(&mut self, dest_hash: DestinationHash)
        requires
            old(self)@.wf(),
        ensures
            final(self)@.wf(),
            final(self)@ == (NodeView {
                store: StoreView {
                    ignored: old(self)@.store.ignored.insert(dest_hash),
                    ..old(self)@.store
                },
                ..old(self)@
            }),
    {
        self.store.ignore_destination(dest_hash);
    }

    /// Takes messages to a destination again.
    pub fn unignore_destination(&mut self, dest_hash: &DestinationHash)
        requires
            old(self)@.wf(),
        ensures
            final(self)@.wf(),
            final(self)@ == (NodeView {
                store: StoreView {
                    ignored: old(self)@.store.ignored.remove(*dest_hash),
                    ..old(self)@.store
                },
                ..old(self)@
            }),
    {
        self.store.unignore_destination(dest_hash);
    }

    /// Tells whether messages to a destination are refused.
    pub fn is_destination_ignored(&self, dest_hash: &DestinationHash) -> (ignored: bool)
        ensures
            ignored == self@.store.ignored.contains(*dest_hash),
    {
        self.store.is_destination_ignored(dest_hash)
    }

    /// Keeps messages to a destination longer than others.
    pub fn prioritise_destination(&mut self, dest_hash: DestinationHash)
        requires
            old(self)@.wf(),
        ensures
            final(self)@.wf(),
            final(self)@ == (NodeView {
                store: StoreView {
                    prioritised: old(self)@.store.prioritised.insert(dest_hash),
                    ..old(self)@.store
                },
                ..old(self)@
            }),
    {
        self.store.prioritise_destination(dest_hash);
    }

    /// Keeps messages to a destination no longer than others.
    pub fn unprioritise_destination(&mut self, dest_hash: &DestinationHash)
        requires
            old(self)@.wf(),
        ensures
            final(self)@.wf(),
            final(self)@ == (NodeView {
                store: StoreView {
                    prioritised: old(self)@.store.prioritised.remove(*dest_hash),
                    ..old(self)@.store
                },
                ..old(self)@
            }),
    {
        self.store.unprioritise_destination(dest_hash);
    }

    /// Revision of the store.
    pub fn offer_generation(&self) -> (generation: u64)
        ensures
            generation == self@.generation,
    {
        self.offer_generation
    }

    /// Number of stored messages.
    pub fn message_count(&self) -> (count: usize)
        ensures
            count == self@.store.entries.len(),
    {
        self.store.len()
    }

    /// Bytes that the stored messages take.
    pub fn total_size(&self) -> (total: usize)
        ensures
            total == (if total_bytes(self@.store.entries) > usize::MAX {
                usize::MAX as nat
            } else {
                total_bytes(self@.store.entries)
            }),
    {
        self.store.total_size()
    }

    /// Tells whether a message is stored.
    pub fn contains(&self, transient_id: &PropagationTransientId) -> (found: bool)
        ensures
            found == holds(self@.store.entries, *transient_id),
    {
        self.store.contains(transient_id)
    }

    /// Takes the list of files that are to be removed.
    pub fn take_removals(&mut self) -> (removals: Vec<String>)
        ensures
            crate::node::texts_of(removals@) == old(self)@.removals,
            final(self)@ == (NodeView { removals: Seq::empty(), ..old(self)@ }),
    {
        let mut removals: Vec<String> = Vec::new();
        std::mem::swap(&mut removals, &mut self.removals);
        assert(self@.removals =~= Seq::empty());
        removals
    }

    /// The messages to offer a peer that takes stamps of this value. Without a
    /// value, or with zero, all of them.
    pub fn create_offer(&self, peer_hash: DestinationHash, peer_min_stamp_cost: Option<u8>) -> (ids:
        Vec<PropagationTransientId>)
        ensures
            ids@ == (match peer_min_stamp_cost {
                Some(min_cost) => ids_worth(self@.store.entries, min_cost),
                None => ids_of(self@.store.entries),
            }),
    {
        let min_cost: u8 = match peer_min_stamp_cost {
            Some(min_cost) => min_cost,
            None => 0,
        };
        let ghost entries = self@.store.entries;
        let ghost worth = |entry: PropagationEntry| entry.stamp_value >= min_cost;
        let mut ids: Vec<PropagationTransientId> = Vec::new();
        let mut i: usize = 0;
        proof {
            reveal(Seq::filter);
            assert(ids@ =~= ids_of(entries.take(0).filter(worth)));
        }
        while i < self.store.len()
            invariant
                i <= entries.len(),
                entries == self@.store.entries,
                worth == |entry: PropagationEntry| entry.stamp_value >= min_cost,
                ids@ == ids_of(entries.take(i as int).filter(worth)),
            decreases entries.len() - i,
        {
            let entry: PropagationEntry = self.store.entry(i);
            proof {
                reveal(Seq::filter);
                assert(entries.take(i + 1).drop_last() =~= entries.take(i as int));
                assert(entries.take(i + 1).last() == entry);
            }
            if entry.stamp_value >= min_cost {
                ids.push(entry.transient_id);
                assert(ids@ =~= ids_of(entries.take(i + 1).filter(worth)));
            }
            i = i + 1;
        }
        proof {
            assert(entries.take(i as int) =~= entries);
            if peer_min_stamp_cost is None {
                lemma_filter_all(entries, worth);
            }
        }
        ids
    }

    /// The stored messages that are not in `handled`.
    pub fn create_offer_filtered(&self, handled: &IdSet) -> (ids: Vec<PropagationTransientId>)
        ensures
            ids@ == ids_outside(ids_of(self@.store.entries), handled@),
    {
        let all = self.store.transient_ids();
        let ghost outside = |id: PropagationTransientId| !handled@.contains(id);
        let mut ids: Vec<PropagationTransientId> = Vec::new();
        let mut i: usize = 0;
        proof {
            reveal(Seq::filter);
            assert(ids@ =~= all@.take(0).filter(outside));
        }
        while i < all.len()
            invariant
                i <= all@.len(),
                outside == |id: PropagationTransientId| !handled@.contains(id),
                ids@ == all@.take(i as int).filter(outside),
            decreases all@.len() - i,
        {
            proof {
                reveal(Seq::filter);
                assert(all@.take(i + 1).drop_last() =~= all@.take(i as int));
                assert(all@.take(i + 1).last() == all@[i as int]);
            }
            if !handled.contains(&all[i]) {
                ids.push(all[i]);
            }
            i = i + 1;
        }
        assert(all@.take(i as int) =~= all@);
        ids
    }

    /// Number of stored messages that are not in `handled`.
    pub fn unhandled_message_count(&self, handled: &IdSet) -> (count: usize)
        ensures
            count == ids_outside(ids_of(self@.store.entries), handled@).len(),
    {
        self.create_offer_filtered(handled).len()
    }

    /// The stored messages that a peer lacks, by the list of those it holds.
    pub fn offer_request(
        &self,
        peer_hash: DestinationHash,
        offered_ids: &[PropagationTransientId],
    ) -> (ids: Vec<PropagationTransientId>)
        ensures
            ids@ == ids_outside(ids_of(self@.store.entries), offered_ids@.to_set()),
    {
        let mut held = IdSet::new();
        held.extend(offered_ids);
        proof {
            assert(held@ =~= offered_ids@.to_set());
        }
        self.create_offer_filtered(&held)
    }

    /// Chooses what to offer a peer by what is kept of it, and notes it in the
    /// session. Beside the offer comes what is to be written of the peer: that it
    /// will never take some messages.
    pub fn prepare_sync_offer(
        &mut self,
        peer_hash: DestinationHash,
        saved: Option<&LxmPeer>,
        now: u64,
    ) -> (prepared: (SyncOffer, Option<PeerFile>))
        requires
            old(self)@.wf(),
            saved matches Some(peer) ==> peer.destination_hash == peer_hash,
        ensures
            final(self)@.wf(),
            ({
                let kept = loaded_peer(saved, old(self)@.store);
                prepared.0.peering_key@ == saved_key(kept) && exists|selection: OfferSelection|
                    #[trigger]
                    is_offer_choice(
                        old(self)@,
                        saved_limits(peer_view(saved)),
                        now,
                        selection,
                    ) && byte_views(prepared.0.transient_ids@) == id_views(selection.selected)
                        && is_terminal_record(
                        old(self)@,
                        kept_or_unknown(kept, peer_hash).holding(selection.terminal),
                        selection.terminal,
                        prepared.1,
                    ) && final(self)@ == with_offer(old(self)@, peer_hash, selection.selected)
            }),
    {
        let (offer, record, _) = self.choose_kept_offer(peer_hash, saved, now);
        (offer, record)
    }

    /// As above, and tells whether nothing is left for a later sync.
    pub(crate) fn choose_kept_offer(
        &mut self,
        peer_hash: DestinationHash,
        saved: Option<&LxmPeer>,
        now: u64,
    ) -> (prepared: (SyncOffer, Option<PeerFile>, bool))
        requires
            old(self)@.wf(),
            saved matches Some(peer) ==> peer.destination_hash == peer_hash,
        ensures
            final(self)@.wf(),
            ({
                let kept = loaded_peer(saved, old(self)@.store);
                prepared.0.peering_key@ == saved_key(kept) && exists|selection: OfferSelection|
                    #[trigger]
                    is_offer_choice(
                        old(self)@,
                        saved_limits(peer_view(saved)),
                        now,
                        selection,
                    ) && byte_views(prepared.0.transient_ids@) == id_views(selection.selected)
                        && is_terminal_record(
                        old(self)@,
                        kept_or_unknown(kept, peer_hash).holding(selection.terminal),
                        selection.terminal,
                        prepared.1,
                    ) && prepared.2 == selection.is_exhaustive() && final(self)@ == with_offer(
                        old(self)@,
                        peer_hash,
                        selection.selected,
                    )
            }),
    {
        let policy: OutboundOfferPolicy = match saved {
            Some(peer) => {
                let mut policy = peer.policy();
                policy.handled_messages = self.still_stored(&peer.handled_messages);
                policy
            },
            None => OutboundOfferPolicy::unrestricted(peer_hash),
        };
        let ghost limits = policy_limits(policy, held_by_file(saved));
        let ghost before = self@;
        proof {
            let kept = loaded_peer(saved, before.store);
            assert(limits.handled =~= saved_limits(peer_view(saved)).handled);
            assert(policy.peering_key@ == saved_key(kept));
            assert forall|terminal: Seq<PropagationTransientId>| #[trigger]
                kept_peer(kept, policy, terminal) == kept_or_unknown(kept, peer_hash).holding(
                    terminal,
                ) by {
                assert(kept_peer(kept, policy, terminal) =~= kept_or_unknown(
                    kept,
                    peer_hash,
                ).holding(terminal));
            }
        }
        self.choose_sync_offer(&policy, saved, now)
    }

    /// Those of `ids` that are stored.
    fn still_stored(&self, ids: &IdSet) -> (stored: IdSet)
        ensures
            stored@ == ids@.filter(|id: PropagationTransientId| holds(self@.store.entries, id)),
    {
        let all = ids.to_vec();
        let ghost kept = |id: PropagationTransientId| holds(self@.store.entries, id);
        let mut stored = IdSet::new();
        let mut i: usize = 0;
        assert(stored@ =~= all@.take(0).to_set().filter(kept));
        while i < all.len()
            invariant
                i <= all@.len(),
                kept == |id: PropagationTransientId| holds(self@.store.entries, id),
                stored@ == all@.take(i as int).to_set().filter(kept),
            decreases all@.len() - i,
        {
            proof {
                assert(all@.take(i + 1) =~= all@.take(i as int).push(all@[i as int]));
                crate::tables::lemma_push_to_set(all@.take(i as int), all@[i as int]);
            }
            if self.store.contains(&all[i]) {
                stored.insert(all[i]);
                assert(stored@ =~= all@.take(i + 1).to_set().filter(kept));
            } else {
                assert(stored@ =~= all@.take(i + 1).to_set().filter(kept));
            }
            i = i + 1;
        }
        assert(all@.take(i as int) =~= all@);
        stored
    }

    /// Forgets of a peer's file what the store no longer holds.
    pub fn prune_handled_against_store(&self, peer: &mut LxmPeer)
        ensures
            final(peer)@ == pruned(old(peer)@, self@.store),
    {
        peer.handled_messages = self.still_stored(&peer.handled_messages);
    }

    /// The file that a peer is kept in; none without a disk.
    pub fn save_peer(&self, peer: &LxmPeer) -> (path: Option<String>)
        ensures
            crate::node::text_of(path) == peer_file(self@, peer@.destination_hash),
    {
        self.peer_path(&peer.destination_hash)
    }

    /// Forgets a peer: its session goes, and its file is named for removal.
    pub fn delete_peer(&mut self, peer_hash: &DestinationHash) -> (path: Option<String>)
        requires
            old(self)@.wf(),
        ensures
            final(self)@.wf(),
            crate::node::text_of(path) == peer_file(old(self)@, *peer_hash),
            final(self)@ == (NodeView {
                sessions: old(self)@.sessions.remove(*peer_hash),
                ..old(self)@
            }),
    {
        let path = self.peer_path(peer_hash);
        self.remove_session(peer_hash);
        path
    }

    /// The peers that are kept, each without the messages that the store no
    /// longer holds. Without a disk none is kept.
    pub fn load_peers(&self, kept: Vec<LxmPeer>) -> (peers: Vec<LxmPeer>)
        ensures
            peer_views(peers@) == (if self@.storage_path is Some {
                peer_views(kept@).map_values(|peer: PeerView| pruned(peer, self@.store))
            } else {
                Seq::empty()
            }),
    {
        let mut kept = kept;
        if self.storage_path.is_none() {
            let none: Vec<LxmPeer> = Vec::new();
            assert(peer_views(none@) =~= Seq::empty());
            return none;
        }
        let ghost all = kept@;
        let mut i: usize = 0;
        while i < kept.len()
            invariant
                i <= kept@.len(),
                kept@.len() == all.len(),
                forall|j: int|
                    0 <= j < i ==> (#[trigger] kept@[j])@ == pruned(all[j]@, self@.store),
                forall|j: int| i <= j < all.len() ==> kept@[j] == #[trigger] all[j],
            decreases kept@.len() - i,
        {
            let ghost before = kept@;
            assert(kept@[i as int] == all[i as int]);
            kept[i].handled_messages = self.still_stored(&kept[i].handled_messages);
            proof {
                assert(kept@[i as int]@ =~= pruned(all[i as int]@, self@.store));
                assert forall|j: int| i + 1 <= j < all.len() implies kept@[j]
                    == #[trigger] all[j] by {
                    assert(before[j] == all[j]);
                }
            }
            i = i + 1;
        }
        assert(peer_views(kept@) =~= peer_views(all).map_values(
            |peer: PeerView| pruned(peer, self@.store),
        ));
        kept
    }

    /// Notes that a peer took a message: on what is kept of the peer, and in the
    /// session with it.
    pub fn mark_peer_handled(
        &mut self,
        peer_hash: &DestinationHash,
        transient_id: &PropagationTransientId,
        saved: Option<&mut LxmPeer>,
    )
        requires
            old(self)@.wf(),
        ensures
            final(self)@.wf(),
            final(self)@ == (NodeView {
                sessions: if old(self)@.sessions.contains_key(*peer_hash) {
                    old(self)@.sessions.insert(
                        *peer_hash,
                        old(self)@.sessions[*peer_hash].after_transfer(),
                    )
                } else {
                    old(self)@.sessions
                },
                ..old(self)@
            }),
            saved matches Some(peer) ==> final(peer)@ == (PeerView {
                handled: pruned(peer@, old(self)@.store).handled.insert(*transient_id),
                ..peer@
            }),
    {
        if let Some(peer) = saved {
            self.prune_handled_against_store(peer);
            peer.add_handled_message(transient_id);
        }
        if let Some(session) = self.sync_sessions.get_mut(peer_hash) {
            session.record_transfer();
        }
    }

    /// What is to be written of a peer that will never take some messages.
    pub(crate) fn terminal_record(
        &self,
        saved: Option<&LxmPeer>,
        policy: &OutboundOfferPolicy,
        terminal: &[PropagationTransientId],
    ) -> (record: Option<PeerFile>)
        ensures
            is_terminal_record(
                self@,
                kept_peer(loaded_peer(saved, self@.store), *policy, terminal@),
                terminal@,
                record,
            ),
    {
        if terminal.len() == 0 {
            return None;
        }
        let peer = self.persist_peer_handled(saved, policy, terminal);
        match self.save_peer(&peer) {
            Some(path) => Some(PeerFile { path, peer }),
            None => None,
        }
    }

    /// What is kept of a peer from now on: what was kept of it, by the policy of
    /// an offer to it, holding the messages that it will never take.
    pub fn persist_peer_handled(
        &self,
        saved: Option<&LxmPeer>,
        policy: &OutboundOfferPolicy,
        transient_ids: &[PropagationTransientId],
    ) -> (peer: LxmPeer)
        ensures
            peer@ == kept_peer(loaded_peer(saved, self@.store), *policy, transient_ids@),
    {
        let mut peer: LxmPeer = match saved {
            Some(peer) => {
                let mut peer = peer.copy();
                self.prune_handled_against_store(&mut peer);
                peer
            },
            None => LxmPeer::new(policy.peer_hash),
        };
        let known = policy.handled_messages.to_vec();
        peer.add_handled_messages(known.as_slice());
        peer.add_handled_messages(transient_ids);
        peer.propagation_transfer_limit = policy.propagation_transfer_limit;
        peer.propagation_sync_limit = policy.propagation_sync_limit;
        peer
    }
}

} // verus!
