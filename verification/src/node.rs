//! The propagation node: admission of messages, what clients and peers may
//! read, and upkeep of the store.

use vstd::prelude::*;
use vstd::string::StringExecFns;
use crate::constants::{
    BYTES_PER_KILOBYTE, DEFAULT_MAX_STORAGE, DELIVERY_LIMIT, DESTINATION_LENGTH, MESSAGE_EXPIRY,
    PEERING_COST, SYNC_LIMIT,
};
use crate::ids::{
    append_bytes, copy_bytes, id_from_bytes, leading_id, DestinationHash, PropagationTransientId,
};
use crate::stamper::{
    full_hash, stamp_value, stamp_workblock, stored_stamp_value, STAMP_WORKBLOCK_EXPAND_ROUNDS_PN,
};
use crate::store::{PropagationEntry, PropagationStore};
use crate::sync::SyncSession;
use crate::tables::{IdSet, PeerMap};
#[allow(unused_imports)]
use crate::stamper::{sha256_digest, stamp_value_spec, stored_value, workblock_spec};
#[allow(unused_imports)]
use crate::store::{holds, total_bytes, unique_ids, StoreView};
#[allow(unused_imports)]
use crate::sync::SessionView;

pub mod get;
pub mod laws;
pub mod peers;
pub mod records;
pub mod upkeep;

verus! {

/// Settings of a node. Sizes are in bytes, ages in seconds.
#[derive(Debug, Clone, Copy)]
pub struct PropagationNodeConfig {
    pub max_storage: usize,
    pub max_message_age: u64,
    /// Messages whose stamp is worth less are refused; zero accepts all.
    pub min_stamp_cost: u8,
    pub peering_cost: u8,
    pub max_message_size: usize,
    /// Largest offer request, encoded.
    pub max_offer_size: usize,
}

impl Default for PropagationNodeConfig {
    fn default() -> (config: Self)
        ensures
            config == (PropagationNodeConfig {
                max_storage: DEFAULT_MAX_STORAGE,
                max_message_age: MESSAGE_EXPIRY,
                min_stamp_cost: 0,
                peering_cost: PEERING_COST,
                max_message_size: (DELIVERY_LIMIT * BYTES_PER_KILOBYTE) as usize,
                max_offer_size: (SYNC_LIMIT * BYTES_PER_KILOBYTE) as usize,
            }),
    {
        PropagationNodeConfig {
            max_storage: DEFAULT_MAX_STORAGE,
            max_message_age: MESSAGE_EXPIRY,
            min_stamp_cost: 0,
            peering_cost: PEERING_COST,
            max_message_size: DELIVERY_LIMIT * BYTES_PER_KILOBYTE,
            max_offer_size: SYNC_LIMIT * BYTES_PER_KILOBYTE,
        }
    }
}

/// A message as the node sees it. `packed` is its wire form, where it has one.
#[derive(Debug)]
pub struct LxMessage {
    pub destination_hash: DestinationHash,
    pub hash: Option<[u8; 32]>,
    pub transient_id: Option<PropagationTransientId>,
    /// Seconds since the epoch.
    pub timestamp: u64,
    pub stamp: Option<Vec<u8>>,
    pub packed: Option<Vec<u8>>,
}

/// The text, where there is one.
pub open spec fn text_of(text: Option<String>) -> Option<Seq<char>> {
    match text {
        Some(text) => Some(text@),
        None => None,
    }
}

/// The texts.
pub open spec fn texts_of(texts: Seq<String>) -> Seq<Seq<char>> {
    Seq::new(texts.len(), |i: int| texts[i]@)
}

/// Path of a file in a directory.
pub open spec fn path_in(directory: Seq<char>, name: Seq<char>) -> Seq<char> {
    directory + seq!['/'] + name
}

/// Path of a file in a directory.
pub(crate) fn join_path(directory: &String, name: &str) -> (path: String)
    ensures
        path@ == path_in(directory@, name@),
{
    proof {
        reveal_strlit("/");
        assert("/"@ =~= seq!['/']);
    }
    let mut path = directory.clone();
    path.append("/");
    path.append(name);
    path
}

/// An admission that is reserved and waits for its durable write.
#[derive(Debug)]
pub struct PropagationStoreWritePlan {
    entry: PropagationEntry,
    data: Vec<u8>,
    path: Option<String>,
}

/// What a reserved admission holds.
#[verifier::ext_equal]
pub struct WritePlanView {
    pub entry: PropagationEntry,
    pub data: Seq<u8>,
    pub path: Option<Seq<char>>,
}

impl View for PropagationStoreWritePlan {
    type V = WritePlanView;

    closed spec fn view(&self) -> WritePlanView {
        WritePlanView { entry: self.entry, data: self.data@, path: text_of(self.path) }
    }
}

/// The durable write of an admission failed.
#[derive(Debug, Clone, Copy, PartialEq, Eq, Structural)]
pub struct StoreWriteError;

impl PropagationStoreWritePlan {
    /// Identifier of the admitted message.
    pub fn transient_id(&self) -> (id: PropagationTransientId)
        ensures
            id == self@.entry.transient_id,
    {
        self.entry.transient_id
    }

    /// Bytes that the message takes in the store.
    pub fn size(&self) -> (size: usize)
        ensures
            size == self@.entry.size,
    {
        self.entry.size
    }

    /// The file to write and its content; `None` for a node without a disk.
    pub fn file(&self) -> (file: Option<(&String, &Vec<u8>)>)
        ensures
            match file {
                Some((path, data)) => self@.path == Some(path@) && self@.data == data@,
                None => self@.path is None,
            },
    {
        match &self.path {
            Some(path) => Some((path, &self.data)),
            None => None,
        }
    }

    /// Takes the outcome of the durable write. A node without a disk has
    /// nothing to write, so its admissions are complete at once.
    pub fn persist(self, written: bool) -> (persisted: Result<
        PersistedPropagationStoreWrite,
        StoreWriteError,
    >)
        ensures
            match persisted {
                Ok(persisted) => (self@.path is None || written) && persisted@ == (PersistedView {
                    entry: self@.entry,
                    path: self@.path,
                }),
                Err(_) => self@.path is Some && !written,
            },
    {
        if self.path.is_some() && !written {
            return Err(StoreWriteError);
        }
        Ok(PersistedPropagationStoreWrite { entry: self.entry, path: self.path })
    }
}

/// The durable half of an admission, ready to be committed.
#[derive(Debug)]
pub struct PersistedPropagationStoreWrite {
    entry: PropagationEntry,
    path: Option<String>,
}

/// What a durable admission holds.
#[verifier::ext_equal]
pub struct PersistedView {
    pub entry: PropagationEntry,
    pub path: Option<Seq<char>>,
}

impl View for PersistedPropagationStoreWrite {
    type V = PersistedView;

    closed spec fn view(&self) -> PersistedView {
        PersistedView { entry: self.entry, path: text_of(self.path) }
    }
}

/// A store-and-forward node.
#[derive(Debug)]
pub struct PropagationNode {
    config: PropagationNodeConfig,
    store: PropagationStore,
    sync_sessions: PeerMap<SyncSession>,
    pub dest_hash: DestinationHash,
    storage_path: Option<String>,
    last_offer_times: PeerMap<u64>,
    offer_generation: u64,
    pending_write_ids: IdSet,
    pending_write_bytes: usize,
    removals: Vec<String>,
}

/// What a node holds.
#[verifier::ext_equal]
pub struct NodeView {
    pub config: PropagationNodeConfig,
    pub store: StoreView,
    pub sessions: Map<DestinationHash, SessionView>,
    pub dest_hash: DestinationHash,
    pub storage_path: Option<Seq<char>>,
    /// When each peer last offered, in seconds since the epoch.
    pub last_offer_times: Map<DestinationHash, u64>,
    /// Revision of the store; it never goes back.
    pub generation: u64,
    /// Messages whose write is under way, and the bytes they take.
    pub pending_ids: Set<PropagationTransientId>,
    pub pending_bytes: usize,
    /// Files that are to be removed.
    pub removals: Seq<Seq<char>>,
}

/// The next revision; the last one stays.
pub open spec fn next_generation(generation: u64) -> u64 {
    if generation == u64::MAX {
        generation
    } else {
        (generation + 1) as u64
    }
}

/// `base + more`, or the largest `usize` where it does not fit.
pub open spec fn grown(base: nat, more: nat) -> usize {
    if base + more > usize::MAX {
        usize::MAX
    } else {
        (base + more) as usize
    }
}

/// `base - less`, or zero where it does not reach.
pub open spec fn shrunk(base: usize, less: usize) -> usize {
    if base < less {
        0
    } else {
        (base - less) as usize
    }
}

impl NodeView {
    /// No identifier is held twice, and none that is held is also being
    /// written.
    pub open spec fn wf(self) -> bool {
        &&& unique_ids(self.store.entries)
        &&& forall|id: PropagationTransientId|
            #![trigger self.pending_ids.contains(id)]
            self.pending_ids.contains(id) ==> !holds(self.store.entries, id)
    }

    /// Bytes that the store takes, the writes under way counted in.
    pub open spec fn occupied(self) -> usize {
        grown(grown(total_bytes(self.store.entries), 0) as nat, self.pending_bytes as nat)
    }

    /// A message with this identifier can be admitted: it is new, and the store
    /// has not crossed its cap. The message that crosses the cap is admitted.
    pub open spec fn admits(self, id: PropagationTransientId) -> bool {
        &&& !holds(self.store.entries, id)
        &&& !self.pending_ids.contains(id)
        &&& self.occupied() <= self.config.max_storage
    }

    /// The stamp is worth enough for this node.
    pub open spec fn accepts_stamp(self, stamp_value: u8) -> bool {
        self.config.min_stamp_cost == 0 || stamp_value >= self.config.min_stamp_cost
    }

    /// The node after a write of `size` bytes was reserved.
    pub open spec fn reserved(self, id: PropagationTransientId, size: nat) -> NodeView {
        NodeView {
            pending_ids: self.pending_ids.insert(id),
            pending_bytes: grown(self.pending_bytes as nat, size),
            ..self
        }
    }

    /// The node after a reservation was released.
    pub open spec fn released(self, id: PropagationTransientId, size: usize) -> NodeView {
        if self.pending_ids.contains(id) {
            NodeView {
                pending_ids: self.pending_ids.remove(id),
                pending_bytes: shrunk(self.pending_bytes, size),
                ..self
            }
        } else {
            self
        }
    }

    /// A committed message enters the store: it was reserved, its destination
    /// is not ignored and its identifier is new.
    pub open spec fn commits(self, entry: PropagationEntry) -> bool {
        &&& self.pending_ids.contains(entry.transient_id)
        &&& !self.store.ignored.contains(entry.destination_hash)
        &&& !holds(self.store.entries, entry.transient_id)
    }

    /// The node after a durable write was committed. A file that is of no use
    /// is to be removed.
    pub open spec fn committed(self, write: PersistedView) -> NodeView {
        let released = self.released(write.entry.transient_id, write.entry.size);
        if self.commits(write.entry) {
            NodeView {
                store: StoreView {
                    entries: self.store.entries.push(write.entry),
                    ..self.store
                },
                generation: next_generation(self.generation),
                ..released
            }
        } else {
            NodeView {
                removals: match write.path {
                    Some(path) => self.removals.push(path),
                    None => self.removals,
                },
                ..released
            }
        }
    }

    /// Where the file of an entry stands; `None` without a disk.
    pub open spec fn file_of(self, entry: PropagationEntry) -> Option<Seq<char>> {
        match self.storage_path {
            Some(directory) => Some(path_in(directory, entry.filename_spec())),
            None => None,
        }
    }
}

impl View for PropagationNode {
    type V = NodeView;

    closed spec fn view(&self) -> NodeView {
        NodeView {
            config: self.config,
            store: self.store@,
            sessions: self.sync_sessions@,
            dest_hash: self.dest_hash,
            storage_path: text_of(self.storage_path),
            last_offer_times: self.last_offer_times@,
            generation: self.offer_generation,
            pending_ids: self.pending_write_ids@,
            pending_bytes: self.pending_write_bytes,
            removals: texts_of(self.removals@),
        }
    }
}

/// What the stamp of a message is worth, as it is stored; nothing where it has
/// no stamp of stamp length.
pub open spec fn message_stamp_value(packed: Seq<u8>, stamp: Option<Vec<u8>>) -> u8 {
    match stamp {
        Some(stamp) => if stamp@.len() == 32 {
            stored_value(
                stamp_value_spec(
                    workblock_spec(sha256_digest(packed), STAMP_WORKBLOCK_EXPAND_ROUNDS_PN),
                    stamp@,
                ),
            )
        } else {
            0
        },
        None => 0,
    }
}

/// Identifier and entry under which a node would admit `message`.
pub open spec fn message_entry(message: LxMessage) -> PropagationEntry {
    PropagationEntry {
        transient_id: match message.transient_id {
            Some(id) => id,
            None => message.hash->0,
        },
        message_hash: message.hash->0,
        destination_hash: message.destination_hash,
        stored_at: message.timestamp,
        stamp_value: message_stamp_value(message.packed->0@, message.stamp),
        size: message.packed->0@.len() as usize,
        collected: false,
        stamped: false,
    }
}

/// A message that a node can admit as far as the message itself goes.
pub open spec fn message_acceptable(node: NodeView, message: LxMessage) -> bool {
    &&& message.hash is Some
    &&& message.packed is Some
    &&& message.packed->0@.len() <= node.config.max_message_size
    &&& node.accepts_stamp(message_entry(message).stamp_value)
}

impl PropagationNode {
    /// A node without a disk.
    pub fn new(config: PropagationNodeConfig, dest_hash: DestinationHash) -> (node: Self)
        ensures
            node@.wf(),
            node@ == empty_node(config, dest_hash, None),
    {
        let node = PropagationNode {
            config,
            store: PropagationStore::new(),
            sync_sessions: PeerMap::new(),
            dest_hash,
            storage_path: None,
            last_offer_times: PeerMap::new(),
            offer_generation: 0,
            pending_write_ids: IdSet::new(),
            pending_write_bytes: 0,
            removals: Vec::new(),
        };
        assert(node@ =~= empty_node(config, dest_hash, None));
        node
    }

    fn advance_offer_generation(&mut self)
        ensures
            final(self)@ == (NodeView {
                generation: next_generation(old(self)@.generation),
                ..old(self)@
            }),
    {
        self.offer_generation = self.offer_generation.saturating_add(1);
    }

    /// Reserves the write of a message.
    fn reserve_store_write(
        &mut self,
        entry: PropagationEntry,
        data: Vec<u8>,
    ) -> (plan: Option<PropagationStoreWritePlan>)
        requires
            old(self)@.wf(),
        ensures
            final(self)@.wf(),
            match plan {
                Some(plan) => old(self)@.admits(entry.transient_id) && plan@ == (WritePlanView {
                    entry,
                    data: data@,
                    path: old(self)@.file_of(entry),
                }) && final(self)@ == old(self)@.reserved(entry.transient_id, data@.len()),
                None => !old(self)@.admits(entry.transient_id) && final(self)@ == old(self)@,
            },
    {
        let transient_id: PropagationTransientId = entry.transient_id;
        if self.store.contains(&transient_id) || self.pending_write_ids.contains(&transient_id) {
            return None;
        }
        let occupied: usize = self.store.total_size().saturating_add(self.pending_write_bytes);
        if occupied > self.config.max_storage {
            return None;
        }
        self.pending_write_ids.insert(transient_id);
        self.pending_write_bytes = self.pending_write_bytes.saturating_add(data.len());
        let path = match &self.storage_path {
            Some(directory) => Some(join_path(directory, entry.filename().as_str())),
            None => None,
        };
        Some(PropagationStoreWritePlan { entry, data, path })
    }

    /// Releases a reservation after its write failed.
    pub fn abort_store_write(&mut self, transient_id: &PropagationTransientId, size: usize)
        requires
            old(self)@.wf(),
        ensures
            final(self)@.wf(),
            final(self)@ == old(self)@.released(*transient_id, size),
    {
        if self.pending_write_ids.remove(transient_id) {
            self.pending_write_bytes = self.pending_write_bytes.saturating_sub(size);
        }
        assert(self@ =~= old(self)@.released(*transient_id, size));
    }

    /// Commits a durable write, and tells whether the message is now stored.
    pub fn commit_store_write(&mut self, persisted: PersistedPropagationStoreWrite) -> (inserted:
        bool)
        requires
            old(self)@.wf(),
        ensures
            final(self)@.wf(),
            inserted == old(self)@.commits(persisted@.entry),
            final(self)@ == old(self)@.committed(persisted@),
    {
        let entry: PropagationEntry = persisted.entry;
        let mut inserted: bool = false;
        if self.pending_write_ids.remove(&entry.transient_id) {
            self.pending_write_bytes = self.pending_write_bytes.saturating_sub(entry.size);
            inserted = self.store.insert(entry);
        }
        if inserted {
            self.advance_offer_generation();
        } else if let Some(path) = persisted.path {
            self.removals.push(path);
            assert(texts_of(self.removals@) =~= old(self)@.removals.push(path@));
        }
        proof {
            assert(self@ =~= old(self)@.committed(persisted@));
            lemma_committed_wf(old(self)@, persisted@);
        }
        inserted
    }
}

/// A node in which nothing has happened yet.
pub open spec fn empty_node(
    config: PropagationNodeConfig,
    dest_hash: DestinationHash,
    storage_path: Option<Seq<char>>,
) -> NodeView {
    NodeView {
        config,
        store: StoreView {
            entries: Seq::empty(),
            ignored: Set::empty(),
            prioritised: Set::empty(),
        },
        sessions: Map::empty(),
        dest_hash,
        storage_path,
        last_offer_times: Map::empty(),
        generation: 0,
        pending_ids: Set::empty(),
        pending_bytes: 0,
        removals: Seq::empty(),
    }
}

/// An identifier is held after a push exactly when it was held before or is the
/// pushed one.
pub proof fn lemma_push_holds(
    entries: Seq<PropagationEntry>,
    entry: PropagationEntry,
    id: PropagationTransientId,
)
    ensures
        holds(entries.push(entry), id) <==> holds(entries, id) || id == entry.transient_id,
{
    let pushed = entries.push(entry);
    if holds(entries, id) {
        let i = choose|i: int| 0 <= i < entries.len() && (#[trigger] entries[i]).transient_id == id;
        assert(pushed[i].transient_id == id);
    }
    if id == entry.transient_id {
        assert(pushed[entries.len() as int].transient_id == id);
    }
    if holds(pushed, id) && id != entry.transient_id {
        let i = choose|i: int| 0 <= i < pushed.len() && (#[trigger] pushed[i]).transient_id == id;
        assert(entries[i].transient_id == id);
    }
}

proof fn lemma_committed_wf(node: NodeView, write: PersistedView)
    requires
        node.wf(),
    ensures
        node.committed(write).wf(),
{
    let after = node.committed(write);
    if node.commits(write.entry) {
        assert forall|id: PropagationTransientId| #[trigger]
            after.pending_ids.contains(id) implies !holds(after.store.entries, id) by {
            lemma_push_holds(node.store.entries, write.entry, id);
            assert(node.pending_ids.contains(id));
        }
    } else {
        assert forall|id: PropagationTransientId| #[trigger]
            after.pending_ids.contains(id) implies !holds(after.store.entries, id) by {
            assert(node.pending_ids.contains(id));
        }
    }
}

/// A propagated blob that a node can admit as far as the blob itself goes: it
/// holds a destination and more, its stamp is worth enough, and what is stored
/// of it is not too large.
pub open spec fn blob_acceptable(
    node: NodeView,
    lxmf_data: Seq<u8>,
    stored: Seq<u8>,
    stamp_value: u8,
) -> bool {
    &&& lxmf_data.len() >= DESTINATION_LENGTH + 1
    &&& node.accepts_stamp(stamp_value)
    &&& stored.len() <= node.config.max_message_size
}

/// `entry` is what a node notes of a propagated blob: the hash of the data
/// names it, and its first bytes name its destination.
pub open spec fn is_blob_entry(
    entry: PropagationEntry,
    lxmf_data: Seq<u8>,
    stored: Seq<u8>,
    stamp_value: u8,
    now: u64,
    stamped: bool,
) -> bool {
    &&& entry.transient_id@ == sha256_digest(lxmf_data)
    &&& entry.message_hash == entry.transient_id
    &&& entry.destination_hash@ == lxmf_data.take(DESTINATION_LENGTH as int)
    &&& entry.stored_at == now
    &&& entry.stamp_value == stamp_value
    &&& entry.size == stored.len()
    &&& !entry.collected
    &&& entry.stamped == stamped
}

/// The admission of `entry` with the content `data` was reserved.
pub open spec fn is_reservation(
    before: NodeView,
    after: NodeView,
    plan: WritePlanView,
    entry: PropagationEntry,
    data: Seq<u8>,
) -> bool {
    &&& before.admits(entry.transient_id)
    &&& plan == (WritePlanView { entry, data, path: before.file_of(entry) })
    &&& after == before.reserved(entry.transient_id, data.len())
}

/// What became of a reserved admission, once its write was tried.
pub open spec fn is_settled(
    before: NodeView,
    after: NodeView,
    plan: WritePlanView,
    written: bool,
    accepted: bool,
) -> bool {
    if plan.path is None || written {
        &&& accepted == before.commits(plan.entry)
        &&& after == before.committed(PersistedView { entry: plan.entry, path: plan.path })
    } else {
        &&& !accepted
        &&& after == before.released(plan.entry.transient_id, plan.entry.size)
    }
}

/// `write` may answer `written` when it is asked to write the file of `plan`.
pub open spec fn write_answers<W: FnOnce(&String, &Vec<u8>) -> bool>(
    write: W,
    plan: WritePlanView,
    written: bool,
) -> bool {
    plan.path is Some ==> exists|path: String, data: Vec<u8>| #[trigger]
        call_ensures(write, (&path, &data), written) && plan.path == Some(path@) && plan.data
            == data@
}

impl PropagationNode {
    /// Reserves the admission of a message.
    pub fn plan_accept_message(&mut self, message: &LxMessage) -> (plan: Option<
        PropagationStoreWritePlan,
    >)
        requires
            old(self)@.wf(),
        ensures
            final(self)@.wf(),
            match plan {
                Some(plan) => message_acceptable(old(self)@, *message) && is_reservation(
                    old(self)@,
                    final(self)@,
                    plan@,
                    message_entry(*message),
                    message.packed->0@,
                ),
                None => !(message_acceptable(old(self)@, *message) && old(self)@.admits(
                    message_entry(*message).transient_id,
                )) && final(self)@ == old(self)@,
            },
    {
        let hash: [u8; 32] = match message.hash {
            Some(hash) => hash,
            None => {
                return None;
            },
        };
        let transient_id: PropagationTransientId = match message.transient_id {
            Some(id) => id,
            None => hash,
        };
        if self.store.contains(&transient_id) {
            return None;
        }
        let packed = match &message.packed {
            Some(packed) => packed,
            None => {
                return None;
            },
        };
        let msg_size: usize = packed.len();
        if msg_size > self.config.max_message_size {
            return None;
        }
        let worth: u8 = match &message.stamp {
            Some(stamp) => match id_from_bytes::<32>(stamp.as_slice()) {
                Some(stamp) => {
                    let full_id = full_hash(packed.as_slice());
                    let workblock = stamp_workblock(&full_id, STAMP_WORKBLOCK_EXPAND_ROUNDS_PN);
                    stored_stamp_value(stamp_value(workblock.as_slice(), &stamp))
                },
                None => 0,
            },
            None => 0,
        };
        if self.config.min_stamp_cost > 0 && worth < self.config.min_stamp_cost {
            return None;
        }
        let entry = PropagationEntry::new(
            transient_id,
            hash,
            message.destination_hash,
            msg_size,
            worth,
            message.timestamp,
        );
        assert(entry == message_entry(*message));
        self.reserve_store_write(entry, copy_bytes(packed.as_slice()))
    }

    /// Reserves the admission of a propagated blob, which the node cannot read
    /// beyond its destination.
    pub fn plan_accept_propagated_blob(
        &mut self,
        lxmf_data: &[u8],
        stamp_value: u8,
        now: u64,
    ) -> (plan: Option<PropagationStoreWritePlan>)
        requires
            old(self)@.wf(),
        ensures
            final(self)@.wf(),
            match plan {
                Some(plan) => blob_acceptable(old(self)@, lxmf_data@, lxmf_data@, stamp_value)
                    && is_blob_entry(
                    plan@.entry,
                    lxmf_data@,
                    lxmf_data@,
                    stamp_value,
                    now,
                    false,
                ) && is_reservation(
                    old(self)@,
                    final(self)@,
                    plan@,
                    plan@.entry,
                    lxmf_data@,
                ),
                None => final(self)@ == old(self)@ && forall|id: PropagationTransientId| id@
                    == sha256_digest(lxmf_data@) ==> !(blob_acceptable(
                    old(self)@,
                    lxmf_data@,
                    lxmf_data@,
                    stamp_value,
                ) && #[trigger] old(self)@.admits(id)),
            },
    {
        if lxmf_data.len() < DESTINATION_LENGTH + 1 {
            return None;
        }
        if self.config.min_stamp_cost > 0 && stamp_value < self.config.min_stamp_cost {
            return None;
        }
        let transient_id = full_hash(lxmf_data);
        proof {
            lemma_ids_with(transient_id);
        }
        if self.store.contains(&transient_id) {
            return None;
        }
        if lxmf_data.len() > self.config.max_message_size {
            return None;
        }
        let entry = PropagationEntry::new(
            transient_id,
            transient_id,
            leading_id::<16>(lxmf_data),
            lxmf_data.len(),
            stamp_value,
            now,
        );
        self.reserve_store_write(entry, copy_bytes(lxmf_data))
    }

    /// Reserves the admission of a propagated blob whose stamp was checked. The
    /// stamp is stored behind the data, so that it can be passed on to peers.
    pub fn plan_accept_stamped_propagated_blob(
        &mut self,
        lxmf_data: &[u8],
        stamp_data: &[u8; 32],
        stamp_value: u8,
        now: u64,
    ) -> (plan: Option<PropagationStoreWritePlan>)
        requires
            old(self)@.wf(),
        ensures
            final(self)@.wf(),
            match plan {
                Some(plan) => blob_acceptable(
                    old(self)@,
                    lxmf_data@,
                    lxmf_data@ + stamp_data@,
                    stamp_value,
                ) && is_blob_entry(
                    plan@.entry,
                    lxmf_data@,
                    lxmf_data@ + stamp_data@,
                    stamp_value,
                    now,
                    true,
                ) && is_reservation(
                    old(self)@,
                    final(self)@,
                    plan@,
                    plan@.entry,
                    lxmf_data@ + stamp_data@,
                ),
                None => final(self)@ == old(self)@ && forall|id: PropagationTransientId| id@
                    == sha256_digest(lxmf_data@) ==> !(blob_acceptable(
                    old(self)@,
                    lxmf_data@,
                    lxmf_data@ + stamp_data@,
                    stamp_value,
                ) && #[trigger] old(self)@.admits(id)),
            },
    {
        if lxmf_data.len() < DESTINATION_LENGTH + 1 {
            return None;
        }
        if self.config.min_stamp_cost > 0 && stamp_value < self.config.min_stamp_cost {
            return None;
        }
        let transient_id = full_hash(lxmf_data);
        proof {
            lemma_ids_with(transient_id);
        }
        if self.store.contains(&transient_id) {
            return None;
        }
        let mut stored_data: Vec<u8> = copy_bytes(lxmf_data);
        append_bytes(&mut stored_data, stamp_data);
        if stored_data.len() > self.config.max_message_size {
            return None;
        }
        let entry = PropagationEntry::new_stamped(
            transient_id,
            transient_id,
            leading_id::<16>(lxmf_data),
            stored_data.len(),
            stamp_value,
            now,
        );
        self.reserve_store_write(entry, stored_data)
    }

    /// Has the file of a reserved admission written by `write`, which tells
    /// whether it succeeded, and settles the admission.
    pub fn persist_reserved<W: FnOnce(&String, &Vec<u8>) -> bool>(
        &mut self,
        plan: PropagationStoreWritePlan,
        write: W,
    ) -> (accepted: bool)
        requires
            old(self)@.wf(),
            forall|path: String, data: Vec<u8>| call_requires(write, (&path, &data)),
        ensures
            final(self)@.wf(),
            exists|written: bool| #[trigger]
                write_answers(write, plan@, written) && is_settled(
                    old(self)@,
                    final(self)@,
                    plan@,
                    written,
                    accepted,
                ),
    {
        let transient_id: PropagationTransientId = plan.transient_id();
        let size: usize = plan.size();
        let written: bool = match plan.file() {
            Some((path, data)) => write(path, data),
            None => true,
        };
        assert(write_answers(write, plan@, written));
        match plan.persist(written) {
            Ok(persisted) => self.commit_store_write(persisted),
            Err(_) => {
                self.abort_store_write(&transient_id, size);
                false
            },
        }
    }

    /// Admits a message and has its file written by `write`. Tells whether the
    /// message was stored.
    pub fn accept_message<W: FnOnce(&String, &Vec<u8>) -> bool>(
        &mut self,
        message: &LxMessage,
        write: W,
    ) -> (accepted: bool)
        requires
            old(self)@.wf(),
            forall|path: String, data: Vec<u8>| call_requires(write, (&path, &data)),
        ensures
            final(self)@.wf(),
            if message_acceptable(old(self)@, *message) && old(self)@.admits(
                message_entry(*message).transient_id,
            ) {
                exists|plan: WritePlanView, reserved: NodeView, written: bool| #[trigger]
                    is_reservation(
                        old(self)@,
                        reserved,
                        plan,
                        message_entry(*message),
                        message.packed->0@,
                    ) && #[trigger] write_answers(write, plan, written) && is_settled(
                        reserved,
                        final(self)@,
                        plan,
                        written,
                        accepted,
                    )
            } else {
                !accepted && final(self)@ == old(self)@
            },
    {
        match self.plan_accept_message(message) {
            Some(plan) => {
                let ghost planned = plan@;
                let ghost reserved = self@;
                assert(is_reservation(
                    old(self)@,
                    reserved,
                    planned,
                    message_entry(*message),
                    message.packed->0@,
                ));
                self.persist_reserved(plan, write)
            },
            None => false,
        }
    }
}

/// A node can admit the message whose data has this hash.
pub open spec fn admits_hash(node: NodeView, hash: Seq<u8>) -> bool {
    exists|id: PropagationTransientId| id@ == hash && #[trigger] node.admits(id)
}

/// What the admission of a propagated blob does, with `write` writing its file.
pub open spec fn is_blob_admission<W: FnOnce(&String, &Vec<u8>) -> bool>(
    before: NodeView,
    after: NodeView,
    blob: BlobView,
    write: W,
    accepted: bool,
) -> bool {
    if blob_acceptable(before, blob.lxmf_data, blob.stored, blob.stamp_value) && admits_hash(
        before,
        sha256_digest(blob.lxmf_data),
    ) {
        exists|plan: WritePlanView, reserved: NodeView, written: bool|
            is_blob_entry(
                plan.entry,
                blob.lxmf_data,
                blob.stored,
                blob.stamp_value,
                blob.now,
                blob.stamped,
            ) && #[trigger] is_reservation(before, reserved, plan, plan.entry, blob.stored)
                && #[trigger] write_answers(write, plan, written) && is_settled(
                reserved,
                after,
                plan,
                written,
                accepted,
            )
    } else {
        !accepted && after == before
    }
}

/// A propagated blob as it is handed to a node.
pub struct BlobView {
    pub lxmf_data: Seq<u8>,
    /// What goes into the store.
    pub stored: Seq<u8>,
    pub stamp_value: u8,
    pub now: u64,
    pub stamped: bool,
}

impl PropagationNode {
    /// Admits a propagated blob and has its file written by `write`. Tells
    /// whether the blob was stored.
    pub fn accept_propagated_blob<W: FnOnce(&String, &Vec<u8>) -> bool>(
        &mut self,
        lxmf_data: &[u8],
        stamp_value: u8,
        now: u64,
        write: W,
    ) -> (accepted: bool)
        requires
            old(self)@.wf(),
            forall|path: String, data: Vec<u8>| call_requires(write, (&path, &data)),
        ensures
            final(self)@.wf(),
            is_blob_admission(
                old(self)@,
                final(self)@,
                BlobView {
                    lxmf_data: lxmf_data@,
                    stored: lxmf_data@,
                    stamp_value,
                    now,
                    stamped: false,
                },
                write,
                accepted,
            ),
    {
        match self.plan_accept_propagated_blob(lxmf_data, stamp_value, now) {
            Some(plan) => {
                let ghost planned = plan@;
                let ghost reserved = self@;
                proof {
                    assert(old(self)@.admits(planned.entry.transient_id));
                    assert(is_reservation(
                        old(self)@,
                        reserved,
                        planned,
                        planned.entry,
                        lxmf_data@,
                    ));
                }
                self.persist_reserved(plan, write)
            },
            None => false,
        }
    }

    /// Admits a propagated blob with its stamp and has its file written by
    /// `write`. Tells whether the blob was stored.
    pub fn accept_stamped_propagated_blob<W: FnOnce(&String, &Vec<u8>) -> bool>(
        &mut self,
        lxmf_data: &[u8],
        stamp_data: &[u8; 32],
        stamp_value: u8,
        now: u64,
        write: W,
    ) -> (accepted: bool)
        requires
            old(self)@.wf(),
            forall|path: String, data: Vec<u8>| call_requires(write, (&path, &data)),
        ensures
            final(self)@.wf(),
            is_blob_admission(
                old(self)@,
                final(self)@,
                BlobView {
                    lxmf_data: lxmf_data@,
                    stored: lxmf_data@ + stamp_data@,
                    stamp_value,
                    now,
                    stamped: true,
                },
                write,
                accepted,
            ),
    {
        match self.plan_accept_stamped_propagated_blob(lxmf_data, stamp_data, stamp_value, now) {
            Some(plan) => {
                let ghost planned = plan@;
                let ghost reserved = self@;
                proof {
                    assert(old(self)@.admits(planned.entry.transient_id));
                    assert(is_reservation(
                        old(self)@,
                        reserved,
                        planned,
                        planned.entry,
                        lxmf_data@ + stamp_data@,
                    ));
                }
                self.persist_reserved(plan, write)
            },
            None => false,
        }
    }
}

/// An identifier is known by its bytes.
proof fn lemma_ids_with(id: PropagationTransientId)
    ensures
        forall|other: PropagationTransientId| other@ == id@ ==> other == id,
{
    assert forall|other: PropagationTransientId| other@ == id@ implies other == id by {
        crate::ids::lemma_id_from_view(other, id);
    }
}

} // verus!
