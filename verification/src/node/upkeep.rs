//! Loading a store from its directory, and its periodic upkeep.

use vstd::prelude::*;
use crate::constants::DESTINATION_LENGTH;
use crate::ids::{leading_id, DestinationHash, PropagationTransientId};
use crate::stamper::full_hash;
use crate::store::{PropagationEntry, PropagationStore};
use crate::tables::{IdSet, PeerMap};
use super::{PropagationNode, PropagationNodeConfig};
#[allow(unused_imports)]
use super::get::id_of;
#[allow(unused_imports)]
use super::{empty_node, next_generation, texts_of, NodeView};
#[allow(unused_imports)]
use crate::ids::lemma_id_from_view;
#[allow(unused_imports)]
use crate::stamper::sha256_digest;
#[allow(unused_imports)]
use crate::store::{
    holds, is_expired, is_file_name, law_file_name_unambiguous, lemma_filter_holds, total_bytes,
    StoreView,
};

verus! {

/// What unpacking the content of a file as a plain message gives.
#[derive(Debug, Clone, Copy)]
pub struct UnpackedMessage {
    pub hash: Option<[u8; 32]>,
    pub destination_hash: DestinationHash,
}

/// A file in the storage directory. `content` is `None` where it could not be
/// read, `unpacked` where it is no plain message.
#[derive(Debug)]
pub struct StoredFile {
    pub name: String,
    pub content: Option<Vec<u8>>,
    pub unpacked: Option<UnpackedMessage>,
}

/// Identifier, time and stamp value that the name of a message file says.
pub open spec fn file_key(name: Seq<char>) -> Option<(PropagationTransientId, u64, u8)> {
    if exists|id: PropagationTransientId, stored_at: u64, stamp_value: u8|
        #[trigger] is_file_name(name, id@, stored_at, stamp_value) {
        let (id, stored_at, stamp_value) = choose|
            id: PropagationTransientId,
            stored_at: u64,
            stamp_value: u8,
        | #[trigger] is_file_name(name, id@, stored_at, stamp_value);
        Some((id, stored_at, stamp_value))
    } else {
        None
    }
}

/// The destination hash with these bytes.
pub open spec fn destination_of(bytes: Seq<u8>) -> DestinationHash {
    choose|hash: DestinationHash| hash@ == bytes
}

/// Zero bytes.
pub open spec fn zeros(len: nat) -> Seq<u8> {
    Seq::new(len, |i: int| 0u8)
}

/// The entry of a file: from the message where the content is one, and
/// otherwise from the opaque data, which starts with its destination and ends
/// in its stamp.
pub open spec fn loaded_entry(
    key: (PropagationTransientId, u64, u8),
    data: Seq<u8>,
    unpacked: Option<UnpackedMessage>,
) -> PropagationEntry {
    PropagationEntry {
        transient_id: key.0,
        message_hash: match unpacked {
            Some(message) => match message.hash {
                Some(hash) => hash,
                None => id_of(zeros(32)),
            },
            None => id_of(sha256_digest(data)),
        },
        destination_hash: match unpacked {
            Some(message) => message.destination_hash,
            None => if data.len() >= DESTINATION_LENGTH {
                destination_of(data.take(DESTINATION_LENGTH as int))
            } else {
                destination_of(zeros(16))
            },
        },
        stored_at: key.1,
        stamp_value: key.2,
        size: data.len() as usize,
        collected: false,
        stamped: unpacked is None,
    }
}

/// What was loaded so far, and the names of files to be put aside.
#[verifier::ext_equal]
pub struct Loaded {
    pub entries: Seq<PropagationEntry>,
    pub unreadable: Seq<Seq<char>>,
}

/// What is loaded after one more file. Files with other names are passed over,
/// unreadable ones put aside, and of two files of a message the first counts.
pub open spec fn load_next(loaded: Loaded, file: StoredFile) -> Loaded {
    match file_key(file.name@) {
        Some(key) => match file.content {
            Some(data) => if holds(loaded.entries, key.0) {
                loaded
            } else {
                Loaded {
                    entries: loaded.entries.push(loaded_entry(key, data@, file.unpacked)),
                    ..loaded
                }
            },
            None => Loaded { unreadable: loaded.unreadable.push(file.name@), ..loaded },
        },
        None => loaded,
    }
}

/// What is loaded from all files.
pub open spec fn load_all(files: Seq<StoredFile>) -> Loaded
    decreases files.len(),
{
    if files.len() == 0 {
        Loaded { entries: Seq::empty(), unreadable: Seq::empty() }
    } else {
        load_next(load_all(files.drop_last()), files.last())
    }
}

/// A node that has just loaded its store.
pub open spec fn loaded_node(
    config: PropagationNodeConfig,
    dest_hash: DestinationHash,
    storage_path: Seq<char>,
    entries: Seq<PropagationEntry>,
) -> NodeView {
    let empty = empty_node(config, dest_hash, Some(storage_path));
    NodeView {
        store: StoreView { entries, ..empty.store },
        generation: if entries.len() > 0 {
            1
        } else {
            0
        },
        ..empty
    }
}

/// Reads the name of a message file.
fn read_file_key(name: &String) -> (key: Option<(PropagationTransientId, u64, u8)>)
    ensures
        key == file_key(name@),
{
    let key = PropagationEntry::parse_filename(name.as_str());
    proof {
        if let Some((id, stored_at, stamp_value)) = key {
            let chosen = file_key(name@)->0;
            law_file_name_unambiguous(
                name@,
                id@,
                stored_at,
                stamp_value,
                chosen.0@,
                chosen.1,
                chosen.2,
            );
            lemma_id_from_view(id, chosen.0);
        }
    }
    key
}

/// Forms the entry of a file.
fn read_entry(
    key: (PropagationTransientId, u64, u8),
    data: &Vec<u8>,
    unpacked: Option<UnpackedMessage>,
) -> (entry: PropagationEntry)
    ensures
        entry == loaded_entry(key, data@, unpacked),
{
    let no_hash: [u8; 32] = [0u8; 32];
    let no_destination: DestinationHash = [0u8; 16];
    proof {
        assert(no_hash@ =~= zeros(32));
        assert(no_destination@ =~= zeros(16));
        lemma_id_from_view(no_hash, id_of(zeros(32)));
        lemma_id_from_view(no_destination, destination_of(zeros(16)));
    }
    match unpacked {
        Some(message) => {
            let message_hash: [u8; 32] = match message.hash {
                Some(hash) => hash,
                None => no_hash,
            };
            PropagationEntry::new(
                key.0,
                message_hash,
                message.destination_hash,
                data.len(),
                key.2,
                key.1,
            )
        },
        None => {
            let message_hash = full_hash(data.as_slice());
            let destination_hash: DestinationHash = if data.len() >= DESTINATION_LENGTH {
                let hash = leading_id::<16>(data.as_slice());
                proof {
                    lemma_id_from_view(
                        hash,
                        destination_of(data@.take(DESTINATION_LENGTH as int)),
                    );
                }
                hash
            } else {
                no_destination
            };
            proof {
                lemma_id_from_view(message_hash, id_of(sha256_digest(data@)));
            }
            PropagationEntry::new_stamped(
                key.0,
                message_hash,
                destination_hash,
                data.len(),
                key.2,
                key.1,
            )
        },
    }
}

impl PropagationNode {
    /// A node with a disk, loaded from the files in its directory. The names
    /// that come with it are those of unreadable files, to be put aside.
    pub fn with_storage(
        config: PropagationNodeConfig,
        dest_hash: DestinationHash,
        storage_path: String,
        files: &Vec<StoredFile>,
    ) -> (loaded: (Self, Vec<String>))
        ensures
            loaded.0@.wf(),
            loaded.0@ == loaded_node(
                config,
                dest_hash,
                storage_path@,
                load_all(files@).entries,
            ),
            texts_of(loaded.1@) == load_all(files@).unreadable,
    {
        let mut store = PropagationStore::new();
        let mut unreadable: Vec<String> = Vec::new();
        let mut i: usize = 0;
        assert(texts_of(unreadable@) =~= Seq::empty());
        while i < files.len()
            invariant
                i <= files@.len(),
                store.wf(),
                store@.ignored == Set::<DestinationHash>::empty(),
                store@.prioritised == Set::<DestinationHash>::empty(),
                load_all(files@.take(i as int)) == (Loaded {
                    entries: store@.entries,
                    unreadable: texts_of(unreadable@),
                }),
            decreases files@.len() - i,
        {
            let file = &files[i];
            proof {
                assert(files@.take(i + 1).drop_last() =~= files@.take(i as int));
                assert(files@.take(i + 1).last() == *file);
            }
            if let Some(key) = read_file_key(&file.name) {
                match &file.content {
                    Some(data) => {
                        if !store.contains(&key.0) {
                            store.insert(read_entry(key, data, file.unpacked));
                        }
                    },
                    None => {
                        let ghost before = unreadable@;
                        unreadable.push(file.name.clone());
                        assert(texts_of(unreadable@) =~= texts_of(before).push(file.name@));
                    },
                }
            }
            i = i + 1;
        }
        assert(files@.take(i as int) =~= files@);
        let offer_generation: u64 = if store.len() > 0 {
            1
        } else {
            0
        };
        let node = PropagationNode {
            config,
            store,
            sync_sessions: PeerMap::new(),
            dest_hash,
            storage_path: Some(storage_path),
            last_offer_times: PeerMap::new(),
            offer_generation,
            pending_write_ids: IdSet::new(),
            pending_write_bytes: 0,
            removals: Vec::new(),
        };
        assert(texts_of(node.removals@) =~= Seq::empty());
        assert(node@ =~= loaded_node(
            config,
            dest_hash,
            storage_path@,
            load_all(files@).entries,
        ));
        (node, unreadable)
    }

    /// Drops expired messages, then the heaviest ones until the store is within
    /// its cap. Tells whether files of dropped messages may be left over.
    pub fn tick(&mut self, now: u64) -> (cleanup: bool)
        requires
            old(self)@.wf(),
        ensures
            final(self)@.wf(),
            final(self)@ == ticked(old(self)@, now),
            cleanup == (old(self)@.storage_path is Some && ticked(
                old(self)@,
                now,
            ).store.entries.len() < old(self)@.store.entries.len()),
    {
        let before: usize = self.store.len();
        self.store.cull_expired(self.config.max_message_age, now);
        self.store.cull_by_weight(self.config.max_storage, now);
        let after: usize = self.store.len();
        if before != after {
            self.advance_offer_generation();
        }
        proof {
            assert(self@ =~= ticked(old(self)@, now));
            lemma_ticked_subset(old(self)@, now);
            assert forall|id: PropagationTransientId| #[trigger]
                self@.pending_ids.contains(id) implies !holds(self@.store.entries, id) by {
                assert(old(self)@.pending_ids.contains(id));
            }
        }
        before > after && self.storage_path.is_some()
    }

    /// Of the files in the directory, those of messages that are not stored any
    /// more.
    pub fn orphaned_files(&self, names: &Vec<String>) -> (orphans: Vec<String>)
        ensures
            texts_of(orphans@) == texts_of(names@).filter(
                |name: Seq<char>| is_orphan(self@, name),
            ),
    {
        let ghost all = texts_of(names@);
        let ghost pick = |name: Seq<char>| is_orphan(self@, name);
        let mut orphans: Vec<String> = Vec::new();
        let mut i: usize = 0;
        proof {
            reveal(Seq::filter);
            assert(texts_of(orphans@) =~= all.take(0).filter(pick));
        }
        while i < names.len()
            invariant
                i <= names@.len(),
                all == texts_of(names@),
                pick == (|name: Seq<char>| is_orphan(self@, name)),
                texts_of(orphans@) == all.take(i as int).filter(pick),
            decreases names@.len() - i,
        {
            let ghost before = orphans@;
            proof {
                reveal(Seq::filter);
                assert(all.take(i + 1).drop_last() =~= all.take(i as int));
                assert(all.take(i + 1).last() == names@[i as int]@);
            }
            if let Some(key) = read_file_key(&names[i]) {
                if !self.store.contains(&key.0) {
                    orphans.push(names[i].clone());
                    assert(texts_of(orphans@) =~= texts_of(before).push(names@[i as int]@));
                }
            }
            i = i + 1;
        }
        assert(all.take(i as int) =~= all);
        orphans
    }
}

/// The file of a message that is not stored any more.
pub open spec fn is_orphan(node: NodeView, name: Seq<char>) -> bool {
    file_key(name) matches Some(key) && !holds(node.store.entries, key.0)
}

/// The store after upkeep.
pub open spec fn upkept(node: NodeView, now: u64) -> StoreView {
    (StoreView {
        entries: node.store.entries.filter(
            |entry: PropagationEntry| !is_expired(entry, node.config.max_message_age, now),
        ),
        ..node.store
    }).culled(node.config.max_storage, now)
}

/// The node after upkeep.
pub open spec fn ticked(node: NodeView, now: u64) -> NodeView {
    let store = upkept(node, now);
    NodeView {
        store,
        generation: if store.entries.len() != node.store.entries.len() {
            next_generation(node.generation)
        } else {
            node.generation
        },
        ..node
    }
}

/// Culling by weight only takes messages out.
pub proof fn lemma_culled_subset(store: StoreView, max_storage: usize, now: u64)
    ensures
        forall|entry: PropagationEntry|
            #[trigger] store.culled(max_storage, now).entries.contains(entry)
                ==> store.entries.contains(entry),
        store.culled(max_storage, now).entries.len() <= store.entries.len(),
        store.culled(max_storage, now).ignored == store.ignored,
        store.culled(max_storage, now).prioritised == store.prioritised,
    decreases store.entries.len(),
{
    if !(total_bytes(store.entries) <= max_storage || store.entries.len() == 0) {
        let i = choose|i: int| store.is_heaviest(i, now);
        if 0 <= i < store.entries.len() {
            let rest = StoreView { entries: store.entries.remove(i), ..store };
            lemma_culled_subset(rest, max_storage, now);
            assert forall|entry: PropagationEntry| #[trigger]
                store.culled(max_storage, now).entries.contains(
                    entry,
                ) implies store.entries.contains(entry) by {
                assert(rest.culled(max_storage, now).entries.contains(entry));
                assert(rest.entries.contains(entry));
                let k = choose|k: int| 0 <= k < rest.entries.len() && rest.entries[k] == entry;
                assert(store.entries[if k < i { k } else { k + 1 }] == entry);
            }
        }
    }
}

/// Upkeep only takes messages out.
proof fn lemma_ticked_subset(node: NodeView, now: u64)
    ensures
        forall|id: PropagationTransientId| #[trigger]
            holds(ticked(node, now).store.entries, id) ==> holds(node.store.entries, id),
        ticked(node, now).store.entries.len() <= node.store.entries.len(),
{
    let keep = |entry: PropagationEntry| !is_expired(entry, node.config.max_message_age, now);
    let fresh = StoreView { entries: node.store.entries.filter(keep), ..node.store };
    lemma_culled_subset(fresh, node.config.max_storage, now);
    node.store.entries.lemma_filter_len(keep);
    let kept = ticked(node, now).store.entries;
    assert forall|id: PropagationTransientId| #[trigger] holds(kept, id) implies holds(
        node.store.entries,
        id,
    ) by {
        let i = choose|i: int| 0 <= i < kept.len() && (#[trigger] kept[i]).transient_id == id;
        assert(kept.contains(kept[i]));
        assert(fresh.entries.contains(kept[i]));
        let j = choose|j: int| 0 <= j < fresh.entries.len() && fresh.entries[j] == kept[i];
        lemma_filter_holds(node.store.entries, keep, j);
        let k = choose|k: int|
            0 <= k < node.store.entries.len() && node.store.entries[k] == kept[i];
        assert(node.store.entries[k].transient_id == id);
    }
}

} // verus!
