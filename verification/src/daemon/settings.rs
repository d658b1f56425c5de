//! What the daemon is configured with, and the files it keeps.

use vstd::prelude::*;
use crate::constants::MESSAGE_EXPIRY;
use crate::daemon::intake::configured_kilobytes_to_bytes;
#[allow(unused_imports)]
use crate::daemon::intake::{bytes_in, least_cost};
use crate::ids::{append_bytes, contains_id, id_from_bytes, DestinationHash};
#[allow(unused_imports)]
use crate::ids::lemma_id_from_view;
use crate::node::{PropagationNode, PropagationNodeConfig};
#[allow(unused_imports)]
use crate::node::{text_of, texts_of, NodeView};
use crate::peer::LxmPeer;
#[allow(unused_imports)]
use crate::peer::{unknown_peer, PeerView};
#[allow(unused_imports)]
use crate::store::StoreView;
use crate::sync_task::events::KnownIdentities;
use crate::tables::PeerMap;
#[allow(unused_imports)]
use crate::tables::lemma_push_to_set;
use crate::text::{decimal_text, hex_decode, hex_encode};
#[allow(unused_imports)]
use crate::text::{decimal_chars, hex_bytes, hex_chars, is_hex};
use vstd::slice::slice_subrange;

verus! {

/// How the node is configured.
#[derive(Debug, Clone, Copy)]
pub struct NodeSettings {
    /// Bytes that the store may take; without a limit, as much as one message.
    pub message_storage_limit: Option<usize>,
    pub propagation_limit_kb: usize,
    pub sync_limit_kb: usize,
    pub propagation_stamp_cost: u8,
    pub propagation_stamp_flex: u8,
}

impl NodeSettings {
    /// The configuration of the node.
    pub fn node_config(&self) -> (config: PropagationNodeConfig)
        ensures
            config.max_storage == (match self.message_storage_limit {
                Some(limit) => limit,
                None => bytes_in(self.propagation_limit_kb),
            }),
            config.max_message_size == bytes_in(self.propagation_limit_kb),
            config.max_offer_size == bytes_in(self.sync_limit_kb),
            config.max_message_age == MESSAGE_EXPIRY,
            config.min_stamp_cost == least_cost(
                self.propagation_stamp_cost,
                self.propagation_stamp_flex,
            ),
            config.peering_cost == crate::constants::PEERING_COST,
    {
        let mut config = PropagationNodeConfig::default();
        config.max_storage = match self.message_storage_limit {
            Some(limit) => limit,
            None => configured_kilobytes_to_bytes(self.propagation_limit_kb),
        };
        config.max_message_size = configured_kilobytes_to_bytes(self.propagation_limit_kb);
        config.max_offer_size = configured_kilobytes_to_bytes(self.sync_limit_kb);
        config.max_message_age = MESSAGE_EXPIRY;
        config.min_stamp_cost = self.propagation_stamp_cost.saturating_sub(
            self.propagation_stamp_flex,
        );
        config
    }
}

/// What decides what the node says of itself. Limits are in kilobytes.
#[derive(Debug)]
pub struct AnnounceSettings {
    pub propagation_enabled: bool,
    /// Messages are taken from static peers only.
    pub from_static_only: bool,
    pub propagation_limit_kb: usize,
    pub sync_limit_kb: usize,
    pub propagation_stamp_cost: u8,
    pub propagation_stamp_flex: u8,
    pub peering_cost: u8,
    pub node_name: Option<String>,
}

/// What the node says of itself. Limits are in kilobytes.
#[derive(Debug)]
pub struct NodeAnnouncement {
    /// Others may send their messages here.
    pub node_state: bool,
    pub transfer_limit_kb: u64,
    pub sync_limit_kb: u64,
    pub stamp_cost: u8,
    pub stamp_flexibility: u8,
    pub peering_cost: u8,
    pub name: Option<String>,
}

impl AnnounceSettings {
    /// What the node says of itself. One that takes messages from static peers
    /// only says that it takes none, so that nobody else seeks it out.
    pub fn announced(&self) -> (announcement: NodeAnnouncement)
        ensures
            announcement.node_state == (self.propagation_enabled && !self.from_static_only),
            announcement.transfer_limit_kb == self.propagation_limit_kb,
            announcement.sync_limit_kb == self.sync_limit_kb,
            announcement.stamp_cost == self.propagation_stamp_cost,
            announcement.stamp_flexibility == self.propagation_stamp_flex,
            announcement.peering_cost == self.peering_cost,
            text_of(announcement.name) == text_of(self.node_name),
    {
        NodeAnnouncement {
            node_state: self.propagation_enabled && !self.from_static_only,
            transfer_limit_kb: self.propagation_limit_kb as u64,
            sync_limit_kb: self.sync_limit_kb as u64,
            stamp_cost: self.propagation_stamp_cost,
            stamp_flexibility: self.propagation_stamp_flex,
            peering_cost: self.peering_cost,
            name: match &self.node_name {
                Some(name) => Some(name.clone()),
                None => None,
            },
        }
    }
}

/// The destination that a text names by its hexadecimal digits.
pub open spec fn named_destination(text: Seq<char>) -> Option<Seq<u8>> {
    if is_hex(text) && hex_bytes(text).len() == 16 {
        Some(hex_bytes(text))
    } else {
        None
    }
}

/// Reads the destination that a text names.
pub fn parse_destination_hash(text: &str) -> (hash: Option<DestinationHash>)
    ensures
        match hash {
            Some(hash) => named_destination(text@) == Some(hash@),
            None => named_destination(text@) is None,
        },
{
    match hex_decode(text) {
        Some(bytes) => id_from_bytes::<16>(bytes.as_slice()),
        None => None,
    }
}

/// The destinations that texts name, without those that name none.
pub open spec fn named_destinations(texts: Seq<Seq<char>>) -> Seq<Seq<u8>> {
    texts.filter_map(|text: Seq<char>| named_destination(text))
}

/// What destination hashes are.
pub open spec fn hash_views(hashes: Seq<DestinationHash>) -> Seq<Seq<u8>> {
    Seq::new(hashes.len(), |i: int| hashes[i]@)
}

/// Reads a list of destinations. What names none is passed over.
pub fn parse_destination_hashes(texts: &Vec<String>) -> (hashes: Vec<DestinationHash>)
    ensures
        hash_views(hashes@) == named_destinations(texts_of(texts@)),
{
    let ghost views = texts_of(texts@);
    let mut hashes: Vec<DestinationHash> = Vec::new();
    let mut i: usize = 0;
    assert(hash_views(hashes@) =~= named_destinations(views.take(0)));
    while i < texts.len()
        invariant
            i <= texts@.len(),
            views == texts_of(texts@),
            hash_views(hashes@) == named_destinations(views.take(i as int)),
        decreases texts@.len() - i,
    {
        let ghost before = hashes@;
        proof {
            assert(views.take(i + 1).drop_last() =~= views.take(i as int));
            assert(views.take(i + 1).last() == texts@[i as int]@);
        }
        if let Some(hash) = parse_destination_hash(texts[i].as_str()) {
            hashes.push(hash);
            assert(hash_views(hashes@) =~= hash_views(before).push(hash@));
            assert(hash_views(before) + seq![hash@] =~= hash_views(before).push(hash@));
        }
        i = i + 1;
    }
    assert(views.take(i as int) =~= views);
    hashes
}

/// The peers after the operator named one.
pub open spec fn with_static(
    peers: Map<DestinationHash, PeerView>,
    hash: DestinationHash,
) -> Map<DestinationHash, PeerView> {
    peers.insert(
        hash,
        PeerView {
            is_static: true,
            ..(if peers.contains_key(hash) {
                peers[hash]
            } else {
                unknown_peer(hash)
            })
        },
    )
}

/// The list with a destination in it.
pub open spec fn with_listed(
    list: Seq<DestinationHash>,
    hash: DestinationHash,
) -> Seq<DestinationHash> {
    if list.contains(hash) {
        list
    } else {
        list.push(hash)
    }
}

/// Makes a peer one that the operator named.
pub fn make_static_peer(
    peers: &mut PeerMap<LxmPeer>,
    static_peers: &mut Vec<DestinationHash>,
    hash: DestinationHash,
)
    ensures
        final(peers)@ == with_static(old(peers)@, hash),
        final(static_peers)@ == with_listed(old(static_peers)@, hash),
{
    if !contains_id(static_peers.as_slice(), &hash) {
        static_peers.push(hash);
    }
    if !peers.contains_key(&hash) {
        peers.insert(hash, LxmPeer::new(hash));
    }
    if let Some(peer) = peers.get_mut(&hash) {
        peer.is_static = true;
    }
    assert(peers@ =~= with_static(old(peers)@, hash));
}

/// The peers after the operator named some.
pub open spec fn with_all_static(
    peers: Map<DestinationHash, PeerView>,
    hashes: Seq<DestinationHash>,
) -> Map<DestinationHash, PeerView>
    decreases hashes.len(),
{
    if hashes.len() == 0 {
        peers
    } else {
        with_static(with_all_static(peers, hashes.drop_last()), hashes.last())
    }
}

/// The list with destinations in it.
pub open spec fn with_all_listed(
    list: Seq<DestinationHash>,
    hashes: Seq<DestinationHash>,
) -> Seq<DestinationHash>
    decreases hashes.len(),
{
    if hashes.len() == 0 {
        list
    } else {
        with_listed(with_all_listed(list, hashes.drop_last()), hashes.last())
    }
}

/// The destinations that texts name, as they are used.
pub open spec fn hashes_named(texts: Seq<Seq<char>>) -> Seq<DestinationHash> {
    named_destinations(texts).map_values(|bytes: Seq<u8>| destination_with(bytes))
}

proof fn lemma_hashes_named(hashes: Seq<DestinationHash>, texts: Seq<Seq<char>>)
    requires
        hash_views(hashes) == named_destinations(texts),
    ensures
        hashes == hashes_named(texts),
{
    assert forall|i: int| 0 <= i < hashes.len() implies hashes[i] == hashes_named(texts)[i] by {
        assert(hash_views(hashes)[i] == hashes[i]@);
        lemma_id_from_view(hashes[i], destination_with(hashes[i]@));
    }
    assert(hashes.len() == hash_views(hashes).len());
    assert(hashes =~= hashes_named(texts));
}

/// Destinations and identities that the operator names, in hexadecimal digits.
#[derive(Debug)]
pub struct NamedDestinations {
    /// Identities that may give orders.
    pub control_allowed: Vec<String>,
    /// Peers that stay peers.
    pub static_peers: Vec<String>,
    /// Destinations whose messages are kept longest.
    pub prioritise_destinations: Vec<String>,
}

/// Takes what the operator named into account, and gives the identities that
/// may give orders. What names nothing is passed over.
pub fn apply_config(
    named: &NamedDestinations,
    peers: &mut PeerMap<LxmPeer>,
    static_peers: &mut Vec<DestinationHash>,
    node: &mut PropagationNode,
) -> (allowed: Vec<DestinationHash>)
    requires
        old(node)@.wf(),
    ensures
        final(node)@.wf(),
        allowed@ == hashes_named(texts_of(named.control_allowed@)),
        final(peers)@ == with_all_static(
            old(peers)@,
            hashes_named(texts_of(named.static_peers@)),
        ),
        final(static_peers)@ == with_all_listed(
            old(static_peers)@,
            hashes_named(texts_of(named.static_peers@)),
        ),
        final(node)@ == (NodeView {
            store: StoreView {
                prioritised: old(node)@.store.prioritised.union(
                    hashes_named(texts_of(named.prioritise_destinations@)).to_set(),
                ),
                ..old(node)@.store
            },
            ..old(node)@
        }),
{
    let allowed = parse_destination_hashes(&named.control_allowed);
    let statics = parse_destination_hashes(&named.static_peers);
    let priorities = parse_destination_hashes(&named.prioritise_destinations);
    proof {
        lemma_hashes_named(allowed@, texts_of(named.control_allowed@));
        lemma_hashes_named(statics@, texts_of(named.static_peers@));
        lemma_hashes_named(priorities@, texts_of(named.prioritise_destinations@));
    }
    let mut i: usize = 0;
    while i < statics.len()
        invariant
            i <= statics@.len(),
            peers@ == with_all_static(old(peers)@, statics@.take(i as int)),
            static_peers@ == with_all_listed(old(static_peers)@, statics@.take(i as int)),
        decreases statics@.len() - i,
    {
        assert(statics@.take(i + 1).drop_last() =~= statics@.take(i as int));
        make_static_peer(peers, static_peers, statics[i]);
        i = i + 1;
    }
    assert(statics@.take(i as int) =~= statics@);
    let ghost before = node@;
    let mut k: usize = 0;
    assert(before.store.prioritised.union(priorities@.take(0).to_set())
        =~= before.store.prioritised);
    while k < priorities.len()
        invariant
            k <= priorities@.len(),
            node@.wf(),
            node@ == (NodeView {
                store: StoreView {
                    prioritised: before.store.prioritised.union(
                        priorities@.take(k as int).to_set(),
                    ),
                    ..before.store
                },
                ..before
            }),
        decreases priorities@.len() - k,
    {
        proof {
            let shorter = priorities@.take(k as int);
            assert(priorities@.take(k + 1) =~= shorter.push(priorities@[k as int]));
            assert(priorities@.take(k + 1).to_set() =~= shorter.to_set().insert(
                priorities@[k as int],
            )) by {
                lemma_push_to_set(shorter, priorities@[k as int]);
            }
            assert(before.store.prioritised.union(priorities@.take(k + 1).to_set())
                =~= before.store.prioritised.union(shorter.to_set()).insert(
                priorities@[k as int],
            ));
        }
        node.prioritise_destination(priorities[k]);
        k = k + 1;
    }
    assert(priorities@.take(k as int) =~= priorities@);
    allowed
}

/// Whoever the operator names is a peer and stays one; nobody else's standing
/// changes.
pub proof fn law_named_peers_are_static(
    peers: Map<DestinationHash, PeerView>,
    hashes: Seq<DestinationHash>,
    hash: DestinationHash,
)
    ensures
        ({
            let after = with_all_static(peers, hashes);
            &&& hashes.contains(hash) ==> after.contains_key(hash) && after[hash].is_static
            &&& !hashes.contains(hash) ==> after.contains_key(hash) == peers.contains_key(hash)
            &&& !hashes.contains(hash) && peers.contains_key(hash) ==> after[hash] == peers[hash]
            &&& peers.contains_key(hash) ==> after[hash].handled == peers[hash].handled
        }),
    decreases hashes.len(),
{
    if hashes.len() > 0 {
        let shorter = hashes.drop_last();
        law_named_peers_are_static(peers, shorter, hash);
        assert(hashes =~= shorter.push(hashes.last()));
        if shorter.contains(hash) {
            let i = shorter.index_of(hash);
            assert(hashes[i] == hash);
        }
        if hashes.contains(hash) && hashes.last() != hash {
            let i = hashes.index_of(hash);
            assert(shorter[i] == hash);
        }
        if hashes.last() == hash {
            assert(hashes[hashes.len() - 1] == hash);
        }
    }
}

/// The list of static peers holds each destination once, and all that were
/// named.
pub proof fn law_static_peers_are_listed_once(
    list: Seq<DestinationHash>,
    hashes: Seq<DestinationHash>,
)
    requires
        list.no_duplicates(),
    ensures
        with_all_listed(list, hashes).no_duplicates(),
        forall|hash: DestinationHash| #[trigger]
            with_all_listed(list, hashes).contains(hash) <==> list.contains(hash)
                || hashes.contains(hash),
    decreases hashes.len(),
{
    if hashes.len() > 0 {
        let shorter = hashes.drop_last();
        let before = with_all_listed(list, shorter);
        let after = with_all_listed(list, hashes);
        law_static_peers_are_listed_once(list, shorter);
        assert(hashes =~= shorter.push(hashes.last()));
        assert forall|hash: DestinationHash| #[trigger] after.contains(hash) <==> list.contains(
            hash,
        ) || hashes.contains(hash) by {
            if hashes.contains(hash) && hash != hashes.last() {
                let i = hashes.index_of(hash);
                assert(shorter[i] == hash);
            }
            if shorter.contains(hash) {
                let i = shorter.index_of(hash);
                assert(hashes[i] == hash);
            }
            assert(hashes[hashes.len() - 1] == hashes.last());
            if !before.contains(hashes.last()) {
                assert(after[after.len() - 1] == hashes.last());
                if before.contains(hash) {
                    let i = before.index_of(hash);
                    assert(after[i] == hash);
                }
                if after.contains(hash) && hash != hashes.last() {
                    let i = after.index_of(hash);
                    assert(before[i] == hash);
                }
            }
        }
    }
}

/// Bytes of one identity in the file of known ones.
pub const IDENTITY_RECORD_SIZE: usize = 80;

/// The identities in the first `n` records of a file: a destination followed by
/// the public key of the identity behind it.
pub open spec fn identities_in(data: Seq<u8>, n: nat) -> Map<DestinationHash, Seq<u8>>
    decreases n,
{
    if n == 0 {
        Map::empty()
    } else {
        let start = 80 * (n - 1);
        identities_in(data, (n - 1) as nat).insert(
            destination_with(data.subrange(start, start + 16)),
            data.subrange(start + 16, start + 80),
        )
    }
}

/// The destination with these bytes.
pub open spec fn destination_with(bytes: Seq<u8>) -> DestinationHash {
    choose|hash: DestinationHash| hash@ == bytes
}

/// Reads the file of known identities. What follows the last whole record is
/// passed over.
pub fn read_known_identities(data: &[u8]) -> (known: KnownIdentities)
    ensures
        known@ == identities_in(data@, data@.len() / 80),
{
    let mut known: KnownIdentities = PeerMap::new();
    let mut i: usize = 0;
    let len: usize = data.len();
    let count: usize = len / IDENTITY_RECORD_SIZE;
    while i < count
        invariant
            i <= count,
            len == data@.len(),
            count == data@.len() / 80,
            80 * count <= len,
            known@ == identities_in(data@, i as nat),
        decreases count - i,
    {
        let start: usize = i * IDENTITY_RECORD_SIZE;
        assert(start + 80 <= data@.len());
        let hash = id_from_bytes::<16>(slice_subrange(data, start, start + 16));
        let key = id_from_bytes::<64>(slice_subrange(data, start + 16, start + 80));
        if let (Some(hash), Some(key)) = (hash, key) {
            proof {
                lemma_id_from_view(hash, destination_with(hash@));
            }
            known.insert(hash, key);
        }
        i = i + 1;
    }
    known
}

/// The file of identities listed by their destinations.
pub open spec fn identity_file(
    keys: Seq<DestinationHash>,
    known: Map<DestinationHash, Seq<u8>>,
) -> Seq<u8>
    decreases keys.len(),
{
    if keys.len() == 0 {
        Seq::empty()
    } else {
        identity_file(keys.drop_last(), known) + keys.last()@ + known[keys.last()]
    }
}

/// `keys` lists the destinations whose identity is known, each once.
pub open spec fn lists_keys(
    keys: Seq<DestinationHash>,
    known: Map<DestinationHash, Seq<u8>>,
) -> bool {
    keys.no_duplicates() && forall|key: DestinationHash| #[trigger]
        keys.contains(key) <==> known.contains_key(key)
}

/// Writes the file of known identities.
pub fn write_known_identities(known: &KnownIdentities) -> (data: Vec<u8>)
    ensures
        exists|keys: Seq<DestinationHash>| #[trigger]
            lists_keys(keys, known@) && data@ == identity_file(keys, known@),
{
    let keys = known.keys();
    assert(lists_keys(keys@, known@));
    let mut data: Vec<u8> = Vec::new();
    let mut i: usize = 0;
    while i < keys.len()
        invariant
            i <= keys@.len(),
            lists_keys(keys@, known@),
            data@ == identity_file(keys@.take(i as int), known@),
        decreases keys@.len() - i,
    {
        proof {
            assert(keys@.take(i + 1).drop_last() =~= keys@.take(i as int));
            assert(keys@.take(i + 1).last() == keys@[i as int]);
            assert(keys@.contains(keys@[i as int]));
        }
        if let Some(key) = known.get(&keys[i]) {
            append_bytes(&mut data, &keys[i]);
            append_bytes(&mut data, key);
        }
        i = i + 1;
    }
    assert(keys@.take(i as int) =~= keys@);
    data
}

/// Only what is listed so far, of what is known.
spec fn listed_so_far(
    keys: Seq<DestinationHash>,
    known: Map<DestinationHash, Seq<u8>>,
) -> Map<DestinationHash, Seq<u8>> {
    known.restrict(keys.to_set())
}

/// Reading the first records of a file needs no more than those.
proof fn lemma_prefix(data: Seq<u8>, more: Seq<u8>, n: nat)
    requires
        80 * n <= data.len(),
    ensures
        identities_in(data + more, n) == identities_in(data, n),
    decreases n,
{
    if n > 0 {
        let start = 80 * (n - 1);
        lemma_prefix(data, more, (n - 1) as nat);
        assert((data + more).subrange(start, start + 16) =~= data.subrange(start, start + 16));
        assert((data + more).subrange(start + 16, start + 80) =~= data.subrange(
            start + 16,
            start + 80,
        ));
    }
}

proof fn lemma_file_reads_back(
    keys: Seq<DestinationHash>,
    known: Map<DestinationHash, Seq<u8>>,
)
    requires
        forall|i: int|
            0 <= i < keys.len() ==> known.contains_key(#[trigger] keys[i]) && known[keys[i]].len()
                == 64,
    ensures
        identity_file(keys, known).len() == 80 * keys.len(),
        identities_in(identity_file(keys, known), keys.len()) == listed_so_far(keys, known),
    decreases keys.len(),
{
    if keys.len() == 0 {
        assert(listed_so_far(keys, known) =~= Map::empty());
    } else {
        let rest = keys.drop_last();
        let last = keys.last();
        let n = rest.len();
        assert forall|i: int| 0 <= i < rest.len() implies known.contains_key(#[trigger] rest[i])
            && known[rest[i]].len() == 64 by {
            assert(rest[i] == keys[i]);
        }
        lemma_file_reads_back(rest, known);
        assert(keys[keys.len() - 1] == last);
        let data = identity_file(rest, known);
        let more = last@ + known[last];
        let all = identity_file(keys, known);
        assert(all =~= data + more);
        lemma_prefix(data, more, n);
        let start = 80 * n as int;
        assert(all.subrange(start, start + 16) =~= last@);
        assert(all.subrange(start + 16, start + 80) =~= known[last]);
        lemma_id_from_view(last, destination_with(last@));
        assert(keys =~= rest.push(last));
        crate::tables::lemma_push_to_set(rest, last);
        assert(listed_so_far(keys, known) =~= listed_so_far(rest, known).insert(
            last,
            known[last],
        ));
    }
}

/// Known identities survive being written and read.
pub proof fn law_identities_read_back(
    keys: Seq<DestinationHash>,
    known: Map<DestinationHash, Seq<u8>>,
)
    requires
        lists_keys(keys, known),
        forall|key: DestinationHash| #[trigger]
            known.contains_key(key) ==> known[key].len() == 64,
    ensures
        ({
            let data = identity_file(keys, known);
            identities_in(data, data.len() / 80) == known
        }),
{
    assert forall|i: int| 0 <= i < keys.len() implies known.contains_key(#[trigger] keys[i])
        && known[keys[i]].len() == 64 by {
        assert(keys.contains(keys[i]));
    }
    lemma_file_reads_back(keys, known);
    assert forall|key: DestinationHash| #[trigger] keys.to_set().contains(key)
        <==> known.contains_key(key) by {
        assert(keys.contains(key) <==> known.contains_key(key));
    }
    assert(listed_so_far(keys, known) =~= known);
    assert(80 * keys.len() / 80 == keys.len());
}

/// Name of the file that a message is kept in: its hash, or the second at which
/// it came where it has none.
pub open spec fn message_file(hash: Option<[u8; 32]>, now: u64) -> Seq<char> {
    (match hash {
        Some(hash) => hex_chars(hash@),
        None => decimal_chars(now as nat),
    }) + ".lxm"@
}

/// Names the file that a message is kept in.
pub fn message_file_name(hash: Option<[u8; 32]>, now: u64) -> (name: String)
    ensures
        name@ == message_file(hash, now),
{
    let mut name: String = match hash {
        Some(hash) => hex_encode(&hash),
        None => decimal_text(now),
    };
    name.append(".lxm");
    name
}

/// Why a message was given up after its last attempt.
pub fn exhausted_reason(hash: Option<[u8; 32]>) -> (reason: String)
    ensures
        reason@ == (match hash {
            Some(hash) => "delivery attempts exhausted for "@ + hex_chars(hash@),
            None => "delivery attempts exhausted"@,
        }),
{
    match hash {
        Some(hash) => {
            let mut reason = "delivery attempts exhausted for ".to_owned();
            reason.append(hex_encode(&hash).as_str());
            reason
        },
        None => "delivery attempts exhausted".to_owned(),
    }
}

/// Why a message was given up for its age.
pub fn expired_reason(hash: Option<[u8; 32]>) -> (reason: String)
    ensures
        reason@ == (match hash {
            Some(hash) => "message "@ + hex_chars(hash@) + " expired before delivery"@,
            None => "message expired before delivery"@,
        }),
{
    match hash {
        Some(hash) => {
            let mut reason = "message ".to_owned();
            reason.append(hex_encode(&hash).as_str());
            reason.append(" expired before delivery");
            reason
        },
        None => "message expired before delivery".to_owned(),
    }
}

/// How much is logged.
#[derive(Debug, Clone, Copy, PartialEq, Eq, Structural)]
pub enum LogLevel {
    Trace,
    Debug,
    Info,
    Warn,
    Error,
}

/// How much is logged, by how often more or less was asked for. Asking for more
/// comes first.
pub open spec fn level_of(verbose: u8, quiet: u8, service: bool) -> LogLevel {
    if verbose >= 3 {
        LogLevel::Trace
    } else if verbose == 2 {
        LogLevel::Debug
    } else if verbose == 1 {
        LogLevel::Info
    } else if quiet == 0 {
        if service {
            LogLevel::Warn
        } else {
            LogLevel::Info
        }
    } else if quiet >= 2 {
        LogLevel::Error
    } else {
        LogLevel::Warn
    }
}

/// Picks how much is logged.
pub fn log_level(verbose: u8, quiet: u8, service: bool) -> (level: LogLevel)
    ensures
        level == level_of(verbose, quiet, service),
{
    if verbose >= 3 {
        return LogLevel::Trace;
    }
    if verbose == 2 {
        return LogLevel::Debug;
    }
    if verbose == 1 {
        return LogLevel::Info;
    }
    if quiet == 0 {
        return if service {
            LogLevel::Warn
        } else {
            LogLevel::Info
        };
    }
    if quiet >= 2 {
        LogLevel::Error
    } else {
        LogLevel::Warn
    }
}

} // verus!
