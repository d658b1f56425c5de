//! The messages that a propagation node holds, and the names of their files.

use vstd::prelude::*;
use vstd::string::StringExecFns;
use crate::constants::WEIGHT_AGE_FLOOR;
use crate::ids::{contains_id, id_from_bytes, same_id, DestinationHash, PropagationTransientId};
#[allow(unused_imports)]
use crate::node::upkeep::lemma_culled_subset;
#[allow(unused_imports)]
use crate::tables::lemma_push_to_set;
use crate::text::{decimal_text, hex_decode, hex_encode, parse_decimal};
#[allow(unused_imports)]
use crate::text::{
    all_digits, decimal_chars, decimal_value, hex_bytes, hex_chars, is_hex,
    lemma_decimal_round_trip, lemma_hex_round_trip,
};

verus! {

/// One stored message. Times are seconds since the epoch.
#[derive(Debug, Clone, Copy)]
pub struct PropagationEntry {
    pub transient_id: PropagationTransientId,
    pub message_hash: [u8; 32],
    pub destination_hash: DestinationHash,
    pub stored_at: u64,
    pub stamp_value: u8,
    pub size: usize,
    pub collected: bool,
    /// The stored data ends in a propagation stamp.
    pub stamped: bool,
}

/// Name of the file that holds a message.
pub open spec fn file_name(id: Seq<u8>, stored_at: u64, stamp_value: u8) -> Seq<char> {
    hex_chars(id) + seq!['_'] + decimal_chars(stored_at as nat) + seq!['_'] + decimal_chars(
        stamp_value as nat,
    )
}

/// `name` reads as identifier, time and stamp value, with the second
/// underscore at `k`.
pub open spec fn file_name_parts(
    name: Seq<char>,
    id: Seq<u8>,
    stored_at: u64,
    stamp_value: u8,
    k: int,
) -> bool {
    &&& 65 < k < name.len() - 1
    &&& name[64] == '_'
    &&& name[k] == '_'
    &&& is_hex(name.take(64))
    &&& hex_bytes(name.take(64)) == id
    &&& all_digits(name.subrange(65, k))
    &&& decimal_value(name.subrange(65, k)) == stored_at
    &&& all_digits(name.skip(k + 1))
    &&& decimal_value(name.skip(k + 1)) == stamp_value
}

/// `name` is that of a message file, for this identifier, time and stamp value.
pub open spec fn is_file_name(
    name: Seq<char>,
    id: Seq<u8>,
    stored_at: u64,
    stamp_value: u8,
) -> bool {
    exists|k: int| file_name_parts(name, id, stored_at, stamp_value, k)
}

impl PropagationEntry {
    /// Name of the file that holds this message.
    pub open spec fn filename_spec(&self) -> Seq<char> {
        file_name(self.transient_id@, self.stored_at, self.stamp_value)
    }

    /// A message held without its propagation stamp.
    pub fn new(
        transient_id: PropagationTransientId,
        message_hash: [u8; 32],
        destination_hash: DestinationHash,
        size: usize,
        stamp_value: u8,
        stored_at: u64,
    ) -> (entry: Self)
        ensures
            entry == (PropagationEntry {
                transient_id,
                message_hash,
                destination_hash,
                stored_at,
                stamp_value,
                size,
                collected: false,
                stamped: false,
            }),
    {
        PropagationEntry {
            transient_id,
            message_hash,
            destination_hash,
            stored_at,
            stamp_value,
            size,
            collected: false,
            stamped: false,
        }
    }

    /// A message held with its propagation stamp behind the data.
    pub fn new_stamped(
        transient_id: PropagationTransientId,
        message_hash: [u8; 32],
        destination_hash: DestinationHash,
        size: usize,
        stamp_value: u8,
        stored_at: u64,
    ) -> (entry: Self)
        ensures
            entry == (PropagationEntry {
                transient_id,
                message_hash,
                destination_hash,
                stored_at,
                stamp_value,
                size,
                collected: false,
                stamped: true,
            }),
    {
        PropagationEntry {
            transient_id,
            message_hash,
            destination_hash,
            stored_at,
            stamp_value,
            size,
            collected: false,
            stamped: true,
        }
    }

    /// Name of the file that holds this message.
    pub fn filename(&self) -> (name: String)
        ensures
            name@ == self.filename_spec(),
    {
        proof {
            reveal_strlit("_");
        }
        let mut name = hex_encode(&self.transient_id);
        name.append("_");
        name.append(decimal_text(self.stored_at).as_str());
        name.append("_");
        name.append(decimal_text(self.stamp_value as u64).as_str());
        assert("_"@ =~= seq!['_']);
        name
    }

    /// Reads the name of a message file. Identifiers of another width, and
    /// names of other files, are not read.
    pub fn parse_filename(name: &str) -> (key: Option<(PropagationTransientId, u64, u8)>)
        ensures
            match key {
                Some((id, stored_at, stamp_value)) => is_file_name(
                    name@,
                    id@,
                    stored_at,
                    stamp_value,
                ),
                None => forall|id: Seq<u8>, stored_at: u64, stamp_value: u8|
                    !is_file_name(name@, id, stored_at, stamp_value),
            },
    {
        if !name.is_ascii() {
            proof {
                assert forall|id: Seq<u8>, stored_at: u64, stamp_value: u8|
                    !is_file_name(name@, id, stored_at, stamp_value) by {
                    if is_file_name(name@, id, stored_at, stamp_value) {
                        lemma_file_name_ascii(name@, id, stored_at, stamp_value);
                    }
                }
            }
            return None;
        }
        let bytes = name.as_bytes();
        assert(bytes@ == Seq::new(name@.len(), |i: int| name@[i] as u8));
        if bytes.len() < 68 || bytes[64] != 95 {
            return None;
        }
        let mut k: usize = 65;
        while k < bytes.len() && bytes[k] != 95
            invariant
                65 <= k <= bytes.len(),
                bytes@ == Seq::new(name@.len(), |i: int| name@[i] as u8),
                forall|j: int| 65 <= j < k ==> bytes@[j] != 95,
            decreases bytes.len() - k,
        {
            k = k + 1;
        }
        proof {
            assert forall|id: Seq<u8>, stored_at: u64, stamp_value: u8, m: int| #[trigger]
                file_name_parts(name@, id, stored_at, stamp_value, m) implies m == k by {
                if k < m {
                    assert(name@.subrange(65, m)[k - 65] == name@[k as int]);
                    assert(name@[k as int] as u8 == 95);
                }
                if m < k {
                    assert(bytes@[m] == 95);
                }
            }
        }
        if k >= bytes.len() {
            return None;
        }
        let id_bytes = match hex_decode(name.substring_ascii(0, 64)) {
            Some(id_bytes) => id_bytes,
            None => {
                assert(name@.subrange(0, 64) =~= name@.take(64));
                return None;
            },
        };
        assert(name@.subrange(0, 64) =~= name@.take(64));
        let stored_text = &bytes[65..k];
        let stamp_text = &bytes[k + 1..bytes.len()];
        proof {
            lemma_ascii_text(name@, bytes@);
            assert(Seq::new(stored_text@.len(), |i: int| stored_text@[i] as char)
                =~= name@.subrange(65, k as int));
            assert(Seq::new(stamp_text@.len(), |i: int| stamp_text@[i] as char) =~= name@.skip(
                k + 1,
            ));
        }
        let id = id_from_bytes::<32>(id_bytes.as_slice());
        let stored_at = parse_decimal(stored_text, u64::MAX);
        let stamp_value = parse_decimal(stamp_text, 255);
        match (id, stored_at, stamp_value) {
            (Some(id), Some(stored_at), Some(stamp_value)) => {
                proof {
                    assert(name@[64] as u8 == 95);
                    assert(name@[k as int] as u8 == 95);
                    assert(file_name_parts(name@, id@, stored_at, stamp_value as u8, k as int));
                }
                Some((id, stored_at, stamp_value as u8))
            },
            _ => None,
        }
    }
}

/// The characters of an ASCII string are its bytes.
proof fn lemma_ascii_text(text: Seq<char>, bytes: Seq<u8>)
    requires
        vstd::utf8::is_ascii_chars(text),
        bytes == Seq::new(text.len(), |i: int| text[i] as u8),
    ensures
        forall|i: int| 0 <= i < text.len() ==> #[trigger] bytes[i] as char == text[i],
{
}

/// The name of a message file is made of ASCII characters, and ends in a digit.
proof fn lemma_file_name_ascii(name: Seq<char>, id: Seq<u8>, stored_at: u64, stamp_value: u8)
    requires
        is_file_name(name, id, stored_at, stamp_value),
    ensures
        vstd::utf8::is_ascii_chars(name),
        '0' <= name.last() <= '9',
{
    let k = choose|k: int| file_name_parts(name, id, stored_at, stamp_value, k);
    assert forall|i: int| 0 <= i < name.len() implies '\0' <= #[trigger] name[i] <= '\u{7f}' by {
        if i < 64 {
            assert(name.take(64)[i] == name[i]);
        } else if 64 < i < k {
            assert(name.subrange(65, k)[i - 65] == name[i]);
        } else if k < i {
            assert(name.skip(k + 1)[i - k - 1] == name[i]);
        }
    }
    assert(name.skip(k + 1).last() == name.last());
}

/// A name says one thing only: two readings of it agree.
pub proof fn law_file_name_unambiguous(
    name: Seq<char>,
    id: Seq<u8>,
    stored_at: u64,
    stamp_value: u8,
    other_id: Seq<u8>,
    other_stored_at: u64,
    other_stamp_value: u8,
)
    requires
        is_file_name(name, id, stored_at, stamp_value),
        is_file_name(name, other_id, other_stored_at, other_stamp_value),
    ensures
        id == other_id,
        stored_at == other_stored_at,
        stamp_value == other_stamp_value,
{
    let k = choose|k: int| file_name_parts(name, id, stored_at, stamp_value, k);
    let m = choose|m: int| file_name_parts(name, other_id, other_stored_at, other_stamp_value, m);
    if k < m {
        assert(name.subrange(65, m)[k - 65] == name[k]);
    }
    if m < k {
        assert(name.subrange(65, k)[m - 65] == name[m]);
    }
}

/// Reading the name of an entry's file gives back its identifier, time and
/// stamp value.
pub proof fn law_file_name_round_trip(entry: PropagationEntry)
    ensures
        is_file_name(
            entry.filename_spec(),
            entry.transient_id@,
            entry.stored_at,
            entry.stamp_value,
        ),
{
    let id = hex_chars(entry.transient_id@);
    let time = decimal_chars(entry.stored_at as nat);
    let stamp = decimal_chars(entry.stamp_value as nat);
    let name = entry.filename_spec();
    lemma_hex_round_trip(entry.transient_id@);
    lemma_decimal_round_trip(entry.stored_at as nat);
    lemma_decimal_round_trip(entry.stamp_value as nat);
    let k = 65 + time.len() as int;
    assert(id.len() == 64);
    assert(name.take(64) =~= id);
    assert(name.subrange(65, k) =~= time);
    assert(name.skip(k + 1) =~= stamp);
    assert(file_name_parts(
        name,
        entry.transient_id@,
        entry.stored_at,
        entry.stamp_value,
        k,
    ));
}

/// Peer files, index files and quarantined files never pass for messages: a
/// name that ends in anything but a digit is not read.
pub proof fn law_other_files_not_read(
    name: Seq<char>,
    id: Seq<u8>,
    stored_at: u64,
    stamp_value: u8,
)
    requires
        name.len() > 0,
        !('0' <= name.last() <= '9'),
    ensures
        !is_file_name(name, id, stored_at, stamp_value),
{
    if is_file_name(name, id, stored_at, stamp_value) {
        lemma_file_name_ascii(name, id, stored_at, stamp_value);
    }
}

/// Some entry has this identifier.
pub open spec fn holds(entries: Seq<PropagationEntry>, id: PropagationTransientId) -> bool {
    exists|i: int| 0 <= i < entries.len() && (#[trigger] entries[i]).transient_id == id
}

/// No two entries have the same identifier.
pub open spec fn unique_ids(entries: Seq<PropagationEntry>) -> bool {
    forall|i: int, j: int|
        0 <= i < j < entries.len() ==> (#[trigger] entries[i]).transient_id != (
        #[trigger] entries[j]).transient_id
}

/// The identifiers of the entries, in their order.
pub open spec fn ids_of(entries: Seq<PropagationEntry>) -> Seq<PropagationTransientId> {
    entries.map_values(|entry: PropagationEntry| entry.transient_id)
}

/// The entry with this identifier, if there is one.
pub open spec fn entry_of(
    entries: Seq<PropagationEntry>,
    id: PropagationTransientId,
) -> Option<PropagationEntry> {
    if holds(entries, id) {
        Some(entries[choose|i: int| 0 <= i < entries.len() && (#[trigger] entries[i]).transient_id == id])
    } else {
        None
    }
}

/// The entries without the one that has this identifier.
pub open spec fn without(
    entries: Seq<PropagationEntry>,
    id: PropagationTransientId,
) -> Seq<PropagationEntry> {
    entries.filter(|entry: PropagationEntry| entry.transient_id != id)
}

/// The entries addressed to `destination`.
pub open spec fn addressed_to(
    entries: Seq<PropagationEntry>,
    destination: DestinationHash,
) -> Seq<PropagationEntry> {
    entries.filter(|entry: PropagationEntry| entry.destination_hash == destination)
}

/// Bytes that the entries take together.
pub open spec fn total_bytes(entries: Seq<PropagationEntry>) -> nat
    decreases entries.len(),
{
    if entries.len() == 0 {
        0
    } else {
        total_bytes(entries.drop_last()) + entries.last().size as nat
    }
}

/// The entry is older than `max_age` seconds.
pub open spec fn is_expired(entry: PropagationEntry, max_age: u64, now: u64) -> bool {
    now - entry.stored_at > max_age
}

/// How much an entry weighs: its size times its age, where ages up to the floor
/// count as the floor and a prioritised destination counts a tenth.
pub open spec fn weight_of(entry: PropagationEntry, prioritised: bool, now: u64) -> nat {
    let age = if now - entry.stored_at > WEIGHT_AGE_FLOOR {
        (now - entry.stored_at) as nat
    } else {
        WEIGHT_AGE_FLOOR as nat
    };
    let scaled = if prioritised {
        age
    } else {
        10 * age
    };
    (if scaled > u64::MAX {
        u64::MAX as nat
    } else {
        scaled
    }) * (entry.size as nat)
}

/// What a store holds.
#[verifier::ext_equal]
pub struct StoreView {
    /// The entries, oldest arrival first.
    pub entries: Seq<PropagationEntry>,
    pub ignored: Set<DestinationHash>,
    pub prioritised: Set<DestinationHash>,
}

impl StoreView {
    /// What `entry` weighs in this store.
    pub open spec fn weight(self, entry: PropagationEntry, now: u64) -> nat {
        weight_of(entry, self.prioritised.contains(entry.destination_hash), now)
    }

    /// Entry `i` is the first of the heaviest.
    pub open spec fn is_heaviest(self, i: int, now: u64) -> bool {
        &&& 0 <= i < self.entries.len()
        &&& forall|j: int|
            0 <= j < i ==> self.weight(#[trigger] self.entries[j], now) < self.weight(
                self.entries[i],
                now,
            )
        &&& forall|j: int|
            i < j < self.entries.len() ==> self.weight(#[trigger] self.entries[j], now)
                <= self.weight(self.entries[i], now)
    }

    /// The store after its heaviest entries left, one by one, until the rest
    /// takes no more than `max_storage` bytes.
    pub open spec fn culled(self, max_storage: usize, now: u64) -> StoreView
        decreases self.entries.len(),
    {
        if total_bytes(self.entries) <= max_storage || self.entries.len() == 0 {
            self
        } else {
            let i = choose|i: int| self.is_heaviest(i, now);
            if 0 <= i < self.entries.len() {
                (StoreView { entries: self.entries.remove(i), ..self }).culled(max_storage, now)
            } else {
                self
            }
        }
    }
}

/// The message store of a propagation node.
#[derive(Debug)]
pub struct PropagationStore {
    entries: Vec<PropagationEntry>,
    ignored: Vec<DestinationHash>,
    prioritised: Vec<DestinationHash>,
}

impl View for PropagationStore {
    type V = StoreView;

    closed spec fn view(&self) -> StoreView {
        StoreView {
            entries: self.entries@,
            ignored: self.ignored@.to_set(),
            prioritised: self.prioritised@.to_set(),
        }
    }
}

impl PropagationStore {
    /// No identifier is held twice.
    pub open spec fn wf(&self) -> bool {
        unique_ids(self@.entries)
    }

    /// An empty store.
    pub fn new() -> (store: Self)
        ensures
            store.wf(),
            store@.entries == Seq::<PropagationEntry>::empty(),
            store@.ignored == Set::<DestinationHash>::empty(),
            store@.prioritised == Set::<DestinationHash>::empty(),
    {
        let store = PropagationStore {
            entries: Vec::new(),
            ignored: Vec::new(),
            prioritised: Vec::new(),
        };
        assert(store@.ignored =~= Set::<DestinationHash>::empty());
        assert(store@.prioritised =~= Set::<DestinationHash>::empty());
        store
    }

    /// Where the entry with this identifier stands.
    fn find(&self, id: &PropagationTransientId) -> (index: Option<usize>)
        ensures
            match index {
                Some(i) => i < self@.entries.len() && self@.entries[i as int].transient_id == *id,
                None => !holds(self@.entries, *id),
            },
    {
        let mut i: usize = 0;
        while i < self.entries.len()
            invariant
                i <= self.entries@.len(),
                forall|j: int| 0 <= j < i ==> self.entries@[j].transient_id != *id,
            decreases self.entries@.len() - i,
        {
            if same_id(&self.entries[i].transient_id, id) {
                return Some(i);
            }
            i = i + 1;
        }
        None
    }

    /// Tells whether a message is stored.
    pub fn contains(&self, id: &PropagationTransientId) -> (found: bool)
        ensures
            found == holds(self@.entries, *id),
    {
        self.find(id).is_some()
    }

    /// The entry with this identifier.
    pub fn get(&self, id: &PropagationTransientId) -> (entry: Option<PropagationEntry>)
        requires
            self.wf(),
        ensures
            entry == entry_of(self@.entries, *id),
    {
        match self.find(id) {
            Some(i) => {
                proof {
                    lemma_entry_of(self@.entries, i as int);
                }
                Some(self.entries[i])
            },
            None => None,
        }
    }

    /// Number of messages.
    pub fn len(&self) -> (len: usize)
        ensures
            len == self@.entries.len(),
    {
        self.entries.len()
    }

    /// The entry at a position below `len`.
    pub fn entry(&self, i: usize) -> (entry: PropagationEntry)
        requires
            i < self@.entries.len(),
        ensures
            entry == self@.entries[i as int],
    {
        self.entries[i]
    }

    /// Stores a message, unless its destination is ignored or its identifier is
    /// already held. Tells whether it was stored.
    pub fn insert(&mut self, entry: PropagationEntry) -> (inserted: bool)
        requires
            old(self).wf(),
        ensures
            final(self).wf(),
            inserted == (!old(self)@.ignored.contains(entry.destination_hash) && !holds(
                old(self)@.entries,
                entry.transient_id,
            )),
            final(self)@ == (if inserted {
                StoreView { entries: old(self)@.entries.push(entry), ..old(self)@ }
            } else {
                old(self)@
            }),
    {
        if self.is_destination_ignored(&entry.destination_hash) {
            return false;
        }
        if self.contains(&entry.transient_id) {
            return false;
        }
        self.entries.push(entry);
        true
    }

    /// Takes a message out.
    pub fn remove(&mut self, id: &PropagationTransientId) -> (entry: Option<PropagationEntry>)
        requires
            old(self).wf(),
        ensures
            final(self).wf(),
            entry == entry_of(old(self)@.entries, *id),
            final(self)@ == (StoreView {
                entries: without(old(self)@.entries, *id),
                ..old(self)@
            }),
    {
        match self.find(id) {
            Some(i) => {
                proof {
                    lemma_entry_of(self@.entries, i as int);
                    lemma_without(self@.entries, i as int);
                }
                let entry = self.entries.remove(i);
                Some(entry)
            },
            None => {
                proof {
                    lemma_without_absent(self@.entries, *id);
                }
                None
            },
        }
    }

    /// Tells whether messages for a destination are refused.
    pub fn is_destination_ignored(&self, destination: &DestinationHash) -> (ignored: bool)
        ensures
            ignored == self@.ignored.contains(*destination),
    {
        contains_id(self.ignored.as_slice(), destination)
    }

    /// Tells whether messages for a destination are kept longer.
    pub fn is_destination_prioritised(&self, destination: &DestinationHash) -> (prioritised: bool)
        ensures
            prioritised == self@.prioritised.contains(*destination),
    {
        contains_id(self.prioritised.as_slice(), destination)
    }

    /// Refuses messages for a destination from now on.
    pub fn ignore_destination(&mut self, destination: DestinationHash)
        requires
            old(self).wf(),
        ensures
            final(self).wf(),
            final(self)@ == (StoreView {
                ignored: old(self)@.ignored.insert(destination),
                ..old(self)@
            }),
    {
        self.ignored.push(destination);
        proof {
            lemma_push_to_set(old(self).ignored@, destination);
        }
    }

    /// Accepts messages for a destination again.
    pub fn unignore_destination(&mut self, destination: &DestinationHash)
        requires
            old(self).wf(),
        ensures
            final(self).wf(),
            final(self)@ == (StoreView {
                ignored: old(self)@.ignored.remove(*destination),
                ..old(self)@
            }),
    {
        self.ignored = hashes_without(&self.ignored, destination);
    }

    /// Keeps messages for a destination longer from now on.
    pub fn prioritise_destination(&mut self, destination: DestinationHash)
        requires
            old(self).wf(),
        ensures
            final(self).wf(),
            final(self)@ == (StoreView {
                prioritised: old(self)@.prioritised.insert(destination),
                ..old(self)@
            }),
    {
        self.prioritised.push(destination);
        proof {
            lemma_push_to_set(old(self).prioritised@, destination);
        }
    }

    /// Weighs messages for a destination like any other again.
    pub fn unprioritise_destination(&mut self, destination: &DestinationHash)
        requires
            old(self).wf(),
        ensures
            final(self).wf(),
            final(self)@ == (StoreView {
                prioritised: old(self)@.prioritised.remove(*destination),
                ..old(self)@
            }),
    {
        self.prioritised = hashes_without(&self.prioritised, destination);
    }
}

impl PropagationStore {
    /// Bytes that the messages take together, exactly.
    fn exact_total(&self) -> (total: u128)
        ensures
            total == total_bytes(self@.entries),
    {
        let mut total: u128 = 0;
        let mut i: usize = 0;
        assert(self.entries@.take(0) =~= Seq::empty());
        while i < self.entries.len()
            invariant
                i <= self.entries@.len(),
                total == total_bytes(self.entries@.take(i as int)),
                total <= i * (usize::MAX as nat),
            decreases self.entries@.len() - i,
        {
            let size: usize = self.entries[i].size;
            assert(self.entries@.take(i + 1).drop_last() =~= self.entries@.take(i as int));
            assert(total + size <= (i + 1) * (usize::MAX as nat)) by (nonlinear_arith)
                requires
                    total <= i * (usize::MAX as nat),
                    size <= usize::MAX,
            ;
            assert((i + 1) * (usize::MAX as nat) <= u128::MAX) by (nonlinear_arith)
                requires
                    i + 1 <= usize::MAX,
                    usize::MAX <= 0xffff_ffff_ffff_ffff,
            ;
            total = total + size as u128;
            i = i + 1;
        }
        assert(self.entries@.take(i as int) =~= self.entries@);
        total
    }

    /// Bytes that the messages take together, or the largest `usize` where they
    /// take more.
    pub fn total_size(&self) -> (total: usize)
        ensures
            total == (if total_bytes(self@.entries) > usize::MAX {
                usize::MAX as nat
            } else {
                total_bytes(self@.entries)
            }),
    {
        let total: u128 = self.exact_total();
        if total > usize::MAX as u128 {
            usize::MAX
        } else {
            total as usize
        }
    }

    /// The identifiers of all messages.
    pub fn transient_ids(&self) -> (ids: Vec<PropagationTransientId>)
        ensures
            ids@ == ids_of(self@.entries),
    {
        let mut ids: Vec<PropagationTransientId> = Vec::new();
        let mut i: usize = 0;
        while i < self.entries.len()
            invariant
                i <= self.entries@.len(),
                ids@ == ids_of(self.entries@.take(i as int)),
            decreases self.entries@.len() - i,
        {
            ids.push(self.entries[i].transient_id);
            i = i + 1;
            assert(ids@ =~= ids_of(self.entries@.take(i as int)));
        }
        assert(self.entries@.take(i as int) =~= self.entries@);
        ids
    }

    /// The messages addressed to a destination.
    pub fn entries_for_destination(&self, destination: &DestinationHash) -> (entries: Vec<
        PropagationEntry,
    >)
        ensures
            entries@ == addressed_to(self@.entries, *destination),
    {
        let mut entries: Vec<PropagationEntry> = Vec::new();
        let mut i: usize = 0;
        proof {
            reveal(Seq::filter);
            assert(addressed_to(self.entries@.take(0), *destination) =~= Seq::empty());
        }
        while i < self.entries.len()
            invariant
                i <= self.entries@.len(),
                entries@ == addressed_to(self.entries@.take(i as int), *destination),
            decreases self.entries@.len() - i,
        {
            proof {
                reveal(Seq::filter);
                assert(self.entries@.take(i + 1).drop_last() =~= self.entries@.take(i as int));
            }
            if same_id(&self.entries[i].destination_hash, destination) {
                entries.push(self.entries[i]);
            }
            i = i + 1;
        }
        assert(self.entries@.take(i as int) =~= self.entries@);
        entries
    }

    /// What an entry weighs: the more, the sooner it leaves a full store and the
    /// later it is offered to a peer.
    pub fn compute_weight(&self, entry: &PropagationEntry, now: u64) -> (weight: u128)
        ensures
            weight == self@.weight(*entry, now),
    {
        let elapsed: u64 = now.saturating_sub(entry.stored_at);
        let age: u64 = if elapsed > WEIGHT_AGE_FLOOR {
            elapsed
        } else {
            WEIGHT_AGE_FLOOR
        };
        let prioritised: bool = self.is_destination_prioritised(&entry.destination_hash);
        let scaled: u64 = if prioritised {
            age
        } else if age > u64::MAX / 10 {
            u64::MAX
        } else {
            age * 10
        };
        assert(scaled * entry.size <= u128::MAX) by (nonlinear_arith)
            requires
                scaled <= 0xffff_ffff_ffff_ffff,
                entry.size <= 0xffff_ffff_ffff_ffff,
        ;
        scaled as u128 * entry.size as u128
    }

    /// Drops the messages that are older than `max_age` seconds.
    pub fn cull_expired(&mut self, max_age: u64, now: u64)
        requires
            old(self).wf(),
        ensures
            final(self).wf(),
            final(self)@ == (StoreView {
                entries: old(self)@.entries.filter(
                    |entry: PropagationEntry| !is_expired(entry, max_age, now),
                ),
                ..old(self)@
            }),
    {
        let ghost keep = |entry: PropagationEntry| !is_expired(entry, max_age, now);
        let ghost all = self.entries@;
        let mut kept: Vec<PropagationEntry> = Vec::new();
        let mut i: usize = 0;
        proof {
            reveal(Seq::filter);
            assert(all.take(0).filter(keep) =~= Seq::empty());
        }
        while i < self.entries.len()
            invariant
                i <= self.entries@.len(),
                self.entries@ == all,
                keep == (|entry: PropagationEntry| !is_expired(entry, max_age, now)),
                kept@ == all.take(i as int).filter(keep),
            decreases self.entries@.len() - i,
        {
            let entry: PropagationEntry = self.entries[i];
            proof {
                reveal(Seq::filter);
                assert(all.take(i + 1).drop_last() =~= all.take(i as int));
            }
            if now.saturating_sub(entry.stored_at) <= max_age {
                kept.push(entry);
            }
            i = i + 1;
        }
        proof {
            assert(all.take(i as int) =~= all);
            lemma_filter_unique(all, keep);
        }
        self.entries = kept;
    }

    /// Where the first of the heaviest entries stands.
    fn heaviest(&self, now: u64) -> (index: usize)
        requires
            self@.entries.len() > 0,
        ensures
            self@.is_heaviest(index as int, now),
    {
        let mut best: usize = 0;
        let mut best_weight: u128 = self.compute_weight(&self.entries[0], now);
        let mut i: usize = 1;
        while i < self.entries.len()
            invariant
                0 <= best < i <= self.entries@.len(),
                best_weight == self@.weight(self.entries@[best as int], now),
                forall|j: int|
                    0 <= j < best ==> self@.weight(#[trigger] self.entries@[j], now) < best_weight,
                forall|j: int|
                    best < j < i ==> self@.weight(#[trigger] self.entries@[j], now) <= best_weight,
            decreases self.entries@.len() - i,
        {
            let weight: u128 = self.compute_weight(&self.entries[i], now);
            if weight > best_weight {
                best = i;
                best_weight = weight;
            }
            i = i + 1;
        }
        best
    }

    /// Drops the heaviest messages, one by one, until the rest takes no more
    /// than `max_storage` bytes.
    pub fn cull_by_weight(&mut self, max_storage: usize, now: u64)
        requires
            old(self).wf(),
        ensures
            final(self).wf(),
            final(self)@ == old(self)@.culled(max_storage, now),
    {
        while self.entries.len() > 0 && self.exact_total() > max_storage as u128
            invariant
                self.wf(),
                self@.culled(max_storage, now) == old(self)@.culled(max_storage, now),
            decreases self.entries@.len(),
        {
            let i: usize = self.heaviest(now);
            proof {
                let chosen = choose|j: int| self@.is_heaviest(j, now);
                lemma_heaviest_unique(self@, i as int, chosen, now);
                lemma_remove_unique(self@.entries, i as int);
            }
            let ghost before = self@;
            self.entries.remove(i);
            assert(self@ =~= StoreView { entries: before.entries.remove(i as int), ..before });
        }
    }
}

/// Among the first `n` entries one is the first of the heaviest.
proof fn lemma_heaviest_exists(store: StoreView, n: int, now: u64) -> (best: int)
    requires
        0 < n <= store.entries.len(),
    ensures
        (StoreView { entries: store.entries.take(n), ..store }).is_heaviest(best, now),
    decreases n,
{
    let view = StoreView { entries: store.entries.take(n), ..store };
    if n == 1 {
        assert(view.is_heaviest(0, now));
        0
    } else {
        let best = lemma_heaviest_exists(store, n - 1, now);
        let before = StoreView { entries: store.entries.take(n - 1), ..store };
        assert forall|j: int| 0 <= j < n - 1 implies #[trigger] view.entries[j]
            == before.entries[j] by {}
        if view.weight(view.entries[best], now) < view.weight(view.entries[n - 1], now) {
            assert forall|j: int| 0 <= j < n - 1 implies view.weight(
                #[trigger] view.entries[j],
                now,
            ) < view.weight(view.entries[n - 1], now) by {
                assert(view.entries[j] == before.entries[j]);
            }
            assert(view.is_heaviest(n - 1, now));
            n - 1
        } else {
            assert forall|j: int| best < j < n implies view.weight(#[trigger] view.entries[j], now)
                <= view.weight(view.entries[best], now) by {
                if j < n - 1 {
                    assert(view.entries[j] == before.entries[j]);
                }
            }
            assert(view.is_heaviest(best, now));
            best
        }
    }
}

/// What is left after culling fits.
pub proof fn law_culled_store_fits(store: StoreView, max_storage: usize, now: u64)
    ensures
        total_bytes(store.culled(max_storage, now).entries) <= max_storage,
    decreases store.entries.len(),
{
    if !(total_bytes(store.entries) <= max_storage || store.entries.len() == 0) {
        let best = lemma_heaviest_exists(store, store.entries.len() as int, now);
        assert(store.entries.take(store.entries.len() as int) =~= store.entries);
        let i = choose|i: int| store.is_heaviest(i, now);
        assert(store.is_heaviest(best, now));
        law_culled_store_fits(
            StoreView { entries: store.entries.remove(i), ..store },
            max_storage,
            now,
        );
    }
}

proof fn lemma_heaviest_unique(store: StoreView, i: int, j: int, now: u64)
    requires
        store.is_heaviest(i, now),
        store.is_heaviest(j, now),
    ensures
        i == j,
{
    if i < j {
        assert(store.weight(store.entries[i], now) < store.weight(store.entries[j], now));
    }
    if j < i {
        assert(store.weight(store.entries[j], now) < store.weight(store.entries[i], now));
    }
}

proof fn lemma_remove_unique(entries: Seq<PropagationEntry>, i: int)
    requires
        unique_ids(entries),
        0 <= i < entries.len(),
    ensures
        unique_ids(entries.remove(i)),
{
    let rest = entries.remove(i);
    assert forall|a: int, b: int| 0 <= a < b < rest.len() implies (
    #[trigger] rest[a]).transient_id != (#[trigger] rest[b]).transient_id by {
        let x = if a < i { a } else { a + 1 };
        let y = if b < i { b } else { b + 1 };
        assert(rest[a] == entries[x] && rest[b] == entries[y]);
    }
}

/// What a filter lets through was there before.
pub proof fn lemma_filter_holds(
    entries: Seq<PropagationEntry>,
    keep: spec_fn(PropagationEntry) -> bool,
    i: int,
)
    requires
        0 <= i < entries.filter(keep).len(),
    ensures
        entries.contains(entries.filter(keep)[i]),
        keep(entries.filter(keep)[i]),
{
    entries.lemma_filter_pred(keep, i);
    entries.lemma_filter_contains_rev(keep, entries.filter(keep)[i]);
}

/// A filter keeps identifiers unique.
pub proof fn lemma_filter_unique(
    entries: Seq<PropagationEntry>,
    keep: spec_fn(PropagationEntry) -> bool,
)
    requires
        unique_ids(entries),
    ensures
        unique_ids(entries.filter(keep)),
    decreases entries.len(),
{
    reveal(Seq::filter);
    if entries.len() > 0 {
        let rest = entries.drop_last();
        assert forall|a: int, b: int| 0 <= a < b < rest.len() implies (
        #[trigger] rest[a]).transient_id != (#[trigger] rest[b]).transient_id by {
            assert(rest[a] == entries[a] && rest[b] == entries[b]);
        }
        lemma_filter_unique(rest, keep);
        let kept = rest.filter(keep);
        if keep(entries.last()) {
            assert forall|a: int| 0 <= a < kept.len() implies (#[trigger] kept[a]).transient_id
                != entries.last().transient_id by {
                lemma_filter_holds(rest, keep, a);
                let b = choose|b: int| 0 <= b < rest.len() && rest[b] == kept[a];
                assert(entries[b] == rest[b]);
                assert(entries[entries.len() - 1] == entries.last());
            }
        }
    }
}

/// The hashes other than `hash`.
fn hashes_without(hashes: &Vec<DestinationHash>, hash: &DestinationHash) -> (rest: Vec<
    DestinationHash,
>)
    ensures
        rest@.to_set() == hashes@.to_set().remove(*hash),
{
    let mut rest: Vec<DestinationHash> = Vec::new();
    let mut i: usize = 0;
    while i < hashes.len()
        invariant
            i <= hashes@.len(),
            forall|h: DestinationHash| #[trigger]
                rest@.contains(h) <==> h != *hash && hashes@.take(i as int).contains(h),
        decreases hashes@.len() - i,
    {
        let ghost seen = hashes@.take(i as int);
        let ghost before = rest@;
        assert(hashes@.take(i + 1) =~= seen.push(hashes@[i as int]));
        if !same_id(&hashes[i], hash) {
            rest.push(hashes[i]);
            assert forall|h: DestinationHash| #[trigger] rest@.contains(h) <==> before.contains(h)
                || h == hashes@[i as int] by {
                lemma_push_contains(before, hashes@[i as int], h);
            }
        }
        assert forall|h: DestinationHash| #[trigger] hashes@.take(i + 1).contains(h)
            <==> seen.contains(h) || h == hashes@[i as int] by {
            lemma_push_contains(seen, hashes@[i as int], h);
        }
        i = i + 1;
    }
    assert(hashes@.take(i as int) =~= hashes@);
    assert(rest@.to_set() =~= hashes@.to_set().remove(*hash));
    rest
}

proof fn lemma_push_contains<T>(items: Seq<T>, item: T, other: T)
    ensures
        items.push(item).contains(other) <==> items.contains(other) || other == item,
{
    let pushed = items.push(item);
    if items.contains(other) {
        let i = choose|i: int| 0 <= i < items.len() && items[i] == other;
        assert(pushed[i] == other);
    }
    if other == item {
        assert(pushed[items.len() as int] == other);
    }
}

/// In a list without repetition, an entry is found by its identifier.
pub proof fn lemma_entry_of(entries: Seq<PropagationEntry>, i: int)
    requires
        unique_ids(entries),
        0 <= i < entries.len(),
    ensures
        holds(entries, entries[i].transient_id),
        entry_of(entries, entries[i].transient_id) == Some(entries[i]),
{
    let id = entries[i].transient_id;
    let j = choose|j: int| 0 <= j < entries.len() && (#[trigger] entries[j]).transient_id == id;
    assert(entries[i].transient_id == entries[j].transient_id);
}

/// Where no entry has the identifier, taking it out changes nothing.
pub proof fn lemma_without_absent(entries: Seq<PropagationEntry>, id: PropagationTransientId)
    requires
        !holds(entries, id),
    ensures
        without(entries, id) == entries,
    decreases entries.len(),
{
    reveal(Seq::filter);
    if entries.len() > 0 {
        let rest = entries.drop_last();
        assert forall|i: int| 0 <= i < rest.len() implies (#[trigger] rest[i]).transient_id
            != id by {
            assert(rest[i] == entries[i]);
        }
        lemma_without_absent(rest, id);
        assert(entries.last() == entries[entries.len() - 1]);
        assert(without(entries, id) =~= entries);
    }
}

/// In a list without repetition, taking an identifier out takes out its one
/// entry.
pub proof fn lemma_without(entries: Seq<PropagationEntry>, i: int)
    requires
        unique_ids(entries),
        0 <= i < entries.len(),
    ensures
        without(entries, entries[i].transient_id) == entries.remove(i),
    decreases entries.len(),
{
    reveal(Seq::filter);
    let id = entries[i].transient_id;
    let rest = entries.drop_last();
    assert forall|a: int, b: int| 0 <= a < b < rest.len() implies (
    #[trigger] rest[a]).transient_id != (#[trigger] rest[b]).transient_id by {
        assert(rest[a] == entries[a] && rest[b] == entries[b]);
    }
    if i == entries.len() - 1 {
        assert forall|j: int| 0 <= j < rest.len() implies (#[trigger] rest[j]).transient_id
            != id by {
            assert(rest[j] == entries[j]);
        }
        lemma_without_absent(rest, id);
        assert(entries.remove(i) =~= rest);
    } else {
        assert(rest[i] == entries[i]);
        lemma_without(rest, i);
        assert(entries.last() == entries[entries.len() - 1]);
        assert(entries.remove(i) =~= rest.remove(i).push(entries.last()));
    }
}

/// What leaves an overfull store weighs at least as much as anything that stays:
/// by size and age, and for a prioritised destination a tenth.
pub proof fn law_heaviest_leave_first(
    store: StoreView,
    max_storage: usize,
    now: u64,
    gone: PropagationEntry,
    left: PropagationEntry,
)
    requires
        store.entries.contains(gone),
        !store.culled(max_storage, now).entries.contains(gone),
        store.culled(max_storage, now).entries.contains(left),
    ensures
        weight_of(gone, store.prioritised.contains(gone.destination_hash), now) >= weight_of(
            left,
            store.prioritised.contains(left.destination_hash),
            now,
        ),
        store.entries.contains(left),
    decreases store.entries.len(),
{
    if !(total_bytes(store.entries) <= max_storage || store.entries.len() == 0) {
        let best = lemma_heaviest_exists(store, store.entries.len() as int, now);
        assert(store.entries.take(store.entries.len() as int) =~= store.entries);
        assert(store.is_heaviest(best, now));
        let i = choose|i: int| store.is_heaviest(i, now);
        let rest = StoreView { entries: store.entries.remove(i), ..store };
        lemma_culled_subset(rest, max_storage, now);
        let k = choose|k: int| 0 <= k < rest.entries.len() && rest.entries[k] == left;
        let at = if k < i {
            k
        } else {
            k + 1
        };
        assert(store.entries[at] == left);
        let j = choose|j: int| 0 <= j < store.entries.len() && store.entries[j] == gone;
        if j != i {
            assert(rest.entries[if j < i {
                j
            } else {
                j - 1
            }] == gone);
            law_heaviest_leave_first(rest, max_storage, now, gone, left);
        }
    }
}

/// A message weighs its size times its age in seconds, where up to four days
/// count as four days; for a destination without priority it weighs ten times as
/// much.
pub proof fn law_weight_grows_with_size_and_age(entry: PropagationEntry, now: u64)
    ensures
        now <= entry.stored_at + 345_600 ==> weight_of(entry, true, now) == 345_600 * entry.size,
        now > entry.stored_at + 345_600 ==> weight_of(entry, true, now) == (now - entry.stored_at)
            * entry.size,
        10 * (now - entry.stored_at) <= u64::MAX ==> weight_of(entry, false, now) == 10 * weight_of(
            entry,
            true,
            now,
        ),
{
    let age = if now - entry.stored_at > 345_600 {
        now - entry.stored_at
    } else {
        345_600
    };
    assert((10 * age) * entry.size == 10 * (age * entry.size)) by (nonlinear_arith);
}

/// What entries take together is the sum of what each takes.
pub proof fn law_sizes_add_up(entries: Seq<PropagationEntry>, more: Seq<PropagationEntry>)
    ensures
        total_bytes(entries + more) == total_bytes(entries) + total_bytes(more),
        entries.len() == 1 ==> total_bytes(entries) == entries[0].size,
    decreases more.len(),
{
    if entries.len() == 1 {
        assert(total_bytes(entries.drop_last()) == 0);
    }
    if more.len() == 0 {
        assert(entries + more =~= entries);
    } else {
        law_sizes_add_up(entries, more.drop_last());
        assert((entries + more).drop_last() =~= entries + more.drop_last());
    }
}

/// Taking an entry out frees its size.
proof fn lemma_removal_frees(entries: Seq<PropagationEntry>, i: int)
    requires
        0 <= i < entries.len(),
    ensures
        total_bytes(entries.remove(i)) + entries[i].size == total_bytes(entries),
{
    let before = entries.take(i);
    let after = entries.skip(i + 1);
    let one = seq![entries[i]];
    law_sizes_add_up(before, after);
    law_sizes_add_up(before, one);
    law_sizes_add_up(one, Seq::empty());
    law_sizes_add_up(before + one, after);
    assert(before + one + after =~= entries);
    assert(before + after =~= entries.remove(i));
}

/// No more leaves than has to: a store within its cap stays as it is, and where
/// something left, the last one to leave would not have fitted any more.
pub proof fn law_culling_stops_in_time(store: StoreView, max_storage: usize, now: u64)
    ensures
        total_bytes(store.entries) <= max_storage ==> store.culled(max_storage, now) == store,
        store.culled(max_storage, now) != store ==> exists|gone: PropagationEntry| #[trigger]
            store.entries.contains(gone) && total_bytes(store.culled(max_storage, now).entries)
                + gone.size > max_storage,
    decreases store.entries.len(),
{
    if !(total_bytes(store.entries) <= max_storage || store.entries.len() == 0) {
        let i = choose|i: int| store.is_heaviest(i, now);
        if 0 <= i < store.entries.len() {
            let rest = StoreView { entries: store.entries.remove(i), ..store };
            law_culling_stops_in_time(rest, max_storage, now);
            assert(store.culled(max_storage, now) == rest.culled(max_storage, now));
            if rest.culled(max_storage, now) == rest {
                let gone = store.entries[i];
                lemma_removal_frees(store.entries, i);
                assert(store.entries.contains(gone));
                assert(total_bytes(store.culled(max_storage, now).entries) + gone.size
                    > max_storage);
            } else {
                let gone = choose|gone: PropagationEntry| #[trigger]
                    rest.entries.contains(gone) && total_bytes(
                        rest.culled(max_storage, now).entries,
                    ) + gone.size > max_storage;
                let k = choose|k: int| 0 <= k < rest.entries.len() && rest.entries[k] == gone;
                assert(store.entries[if k < i {
                    k
                } else {
                    k + 1
                }] == gone);
                assert(store.entries.contains(gone));
                assert(total_bytes(store.culled(max_storage, now).entries) + gone.size
                    > max_storage);
            }
        }
    }
}

/// A message has expired when more than the greatest age has passed since it was
/// stored; one that seems to come from the future has not.
pub proof fn law_expiry_is_by_age(entry: PropagationEntry, max_age: u64, now: u64)
    ensures
        is_expired(entry, max_age, now) <==> now > entry.stored_at + max_age,
{
}

/// The name of a message's file spells the message out: the digits of its identifier,
/// the time it was stored and what its stamp is worth.
pub proof fn law_file_name_spells_out(entry: PropagationEntry)
    ensures
        ({
            let time = decimal_chars(entry.stored_at as nat);
            let name = entry.filename_spec();
            let k = 65 + time.len() as int;
            &&& name.take(64) == hex_chars(entry.transient_id@)
            &&& name[64] == '_'
            &&& name.subrange(65, k) == time
            &&& name[k] == '_'
            &&& name.skip(k + 1) == decimal_chars(entry.stamp_value as nat)
        }),
{
    let time = decimal_chars(entry.stored_at as nat);
    let name = entry.filename_spec();
    let k = 65 + time.len() as int;
    assert(name.take(64) =~= hex_chars(entry.transient_id@));
    assert(name.subrange(65, k) =~= time);
    assert(name.skip(k + 1) =~= decimal_chars(entry.stamp_value as nat));
}

/// Taking a message out takes out that message and no other.
pub proof fn law_removal_spares_others(
    entries: Seq<PropagationEntry>,
    id: PropagationTransientId,
    entry: PropagationEntry,
)
    ensures
        without(entries, id).contains(entry) <==> entries.contains(entry) && entry.transient_id
            != id,
{
    let keep = |entry: PropagationEntry| entry.transient_id != id;
    if without(entries, id).contains(entry) {
        let rest = without(entries, id);
        let k = choose|k: int| 0 <= k < rest.len() && rest[k] == entry;
        lemma_filter_holds(entries, keep, k);
    }
    if entries.contains(entry) && entry.transient_id != id {
        let k = choose|k: int| 0 <= k < entries.len() && entries[k] == entry;
        entries.lemma_filter_contains(keep, k);
    }
}

/// A name without a time in it is not that of a message.
pub proof fn law_names_need_a_time(
    name: Seq<char>,
    id: Seq<u8>,
    stored_at: u64,
    stamp_value: u8,
)
    requires
        name.len() > 65,
        name[65] == '_',
    ensures
        !is_file_name(name, id, stored_at, stamp_value),
{
    if is_file_name(name, id, stored_at, stamp_value) {
        let k = choose|k: int| file_name_parts(name, id, stored_at, stamp_value, k);
        assert(name.subrange(65, k)[0] == name[65]);
    }
}

} // verus!
