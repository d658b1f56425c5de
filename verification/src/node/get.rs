//! Downloads: what a client may list, read and delete.

use vstd::prelude::*;
use crate::constants::{INITIAL_STRUCTURE_OVERHEAD, PER_MESSAGE_OVERHEAD};
use crate::ids::{copy_bytes, id_from_bytes, same_id, DestinationHash, PropagationTransientId};
use crate::msgpack::{decode_value, encode_value, Outgoing, WireValue};
use crate::stamper::STAMP_SIZE;
use crate::store::PropagationEntry;
use super::{join_path, PropagationNode};
#[allow(unused_imports)]
use super::{next_generation, path_in, texts_of, NodeView};
#[allow(unused_imports)]
use crate::msgpack::{
    binaries, byte_views, msgpack_decoded, msgpack_encoded, slice_of, wire_views, WireView,
};
#[allow(unused_imports)]
use crate::store::{
    addressed_to, entry_of, holds, ids_of, lemma_filter_holds, lemma_filter_unique, without,
    StoreView,
};
#[allow(unused_imports)]
use crate::offer::id_views;

verus! {

/// A transfer limit in kilobytes, as a client sent it. Floats are given by
/// their bits.
#[derive(Debug, Clone, Copy, PartialEq, Eq, Structural)]
pub enum ClientLimit {
    Unsigned(u64),
    Negative(i64),
    Single(u32),
    Double(u64),
}

/// The number that a value stands for.
pub open spec fn limit_of(wire: WireView) -> Option<ClientLimit> {
    match wire {
        WireView::Unsigned(value) => Some(ClientLimit::Unsigned(value)),
        WireView::Negative(value) => Some(ClientLimit::Negative(value)),
        WireView::Single(bits) => Some(ClientLimit::Single(bits)),
        WireView::Double(bits) => Some(ClientLimit::Double(bits)),
        _ => None,
    }
}

/// One file to be read for a client.
#[derive(Debug)]
pub struct PlannedRead {
    pub path: String,
    /// The file ends in a propagation stamp.
    pub stamped: bool,
}

/// What a [`PlannedRead`] says.
#[verifier::ext_equal]
pub struct PlannedReadView {
    pub path: Seq<char>,
    pub stamped: bool,
}

impl View for PlannedRead {
    type V = PlannedReadView;

    open spec fn view(&self) -> PlannedReadView {
        PlannedReadView { path: self.path@, stamped: self.stamped }
    }
}

/// The reads, as they stand.
pub open spec fn read_views(reads: Seq<PlannedRead>) -> Seq<PlannedReadView> {
    Seq::new(reads.len(), |i: int| reads[i]@)
}

/// The files to be read for a client, and its transfer limit.
#[derive(Debug)]
pub struct GetServePlan {
    pub reads: Vec<PlannedRead>,
    pub limit: Option<ClientLimit>,
}

/// How a download request is answered.
#[derive(Debug)]
pub enum GetRequestAction {
    /// With these bytes.
    Respond(Vec<u8>),
    /// With the content of files.
    ServeFiles(GetServePlan),
}

/// The contents of files; `None` for one that could not be read.
pub open spec fn content_views(contents: Seq<Option<Vec<u8>>>) -> Seq<Option<Seq<u8>>> {
    Seq::new(
        contents.len(),
        |i: int|
            match contents[i] {
                Some(data) => Some(data@),
                None => None,
            },
    )
}

/// What is handed to a client of a file's content: the data without its stamp.
pub open spec fn client_payload(data: Seq<u8>, stamped: bool) -> Seq<u8> {
    if stamped && data.len() >= STAMP_SIZE {
        data.take(data.len() - STAMP_SIZE)
    } else {
        data
    }
}

/// The messages of a response so far, and the bytes that they count for.
#[verifier::ext_equal]
pub struct Served {
    pub cumulative: nat,
    pub messages: Seq<Seq<u8>>,
}

/// The response after one more file: a file that could not be read, or that
/// would exceed the limit with its overhead, is left out.
pub open spec fn serve_next(
    served: Served,
    read: PlannedReadView,
    content: Option<Seq<u8>>,
    limit: Option<u64>,
) -> Served {
    match content {
        Some(data) => {
            let next = served.cumulative + data.len() + PER_MESSAGE_OVERHEAD as nat;
            if limit matches Some(limit) && next > limit {
                served
            } else {
                Served {
                    cumulative: next,
                    messages: served.messages.push(client_payload(data, read.stamped)),
                }
            }
        },
        None => served,
    }
}

/// The response from all files, in the order of the request.
pub open spec fn serve_all(
    reads: Seq<PlannedReadView>,
    contents: Seq<Option<Seq<u8>>>,
    limit: Option<u64>,
) -> Served
    decreases reads.len(),
{
    if reads.len() == 0 {
        Served { cumulative: INITIAL_STRUCTURE_OVERHEAD as nat, messages: Seq::empty() }
    } else {
        let last = reads.len() - 1;
        serve_next(
            serve_all(reads.drop_last(), contents, limit),
            reads.last(),
            contents[last],
            limit,
        )
    }
}

impl GetServePlan {
    /// Forms the response from the content of the planned files, and counts the
    /// messages in it. `limit_bytes` is the client's limit in bytes.
    pub fn serve_with_count(
        &self,
        contents: &Vec<Option<Vec<u8>>>,
        limit_bytes: Option<u64>,
    ) -> (response: (Vec<u8>, u64))
        requires
            contents@.len() == self.reads@.len(),
        ensures
            ({
                let served = serve_all(
                    read_views(self.reads@),
                    content_views(contents@),
                    limit_bytes,
                );
                response.0@ == msgpack_encoded(binaries(served.messages)) && response.1
                    == served.messages.len()
            }),
    {
        let ghost reads = read_views(self.reads@);
        let ghost views = content_views(contents@);
        let ghost mut cumulative: nat = INITIAL_STRUCTURE_OVERHEAD as nat;
        let mut left: Option<i128> = match limit_bytes {
            Some(limit) => Some(limit as i128 - INITIAL_STRUCTURE_OVERHEAD as i128),
            None => None,
        };
        let mut messages: Vec<Vec<u8>> = Vec::new();
        let mut i: usize = 0;
        assert(byte_views(messages@) =~= Seq::empty());
        while i < self.reads.len()
            invariant
                i <= self.reads@.len(),
                contents@.len() == self.reads@.len(),
                reads == read_views(self.reads@),
                views == content_views(contents@),
                serve_all(reads.take(i as int), views, limit_bytes) == (Served {
                    cumulative,
                    messages: byte_views(messages@),
                }),
                messages@.len() <= i,
                match (limit_bytes, left) {
                    (Some(limit), Some(left)) => left == limit - cumulative && left >= -24,
                    (None, None) => true,
                    _ => false,
                },
            decreases self.reads@.len() - i,
        {
            let ghost before = messages@;
            proof {
                assert(reads.take(i + 1).drop_last() =~= reads.take(i as int));
                assert(reads.take(i + 1).last() == self.reads@[i as int]@);
            }
            if let Some(data) = &contents[i] {
                assert(views[i as int] == Some(data@));
                let needed: i128 = data.len() as i128 + PER_MESSAGE_OVERHEAD as i128;
                let over: bool = match left {
                    Some(left) => needed > left,
                    None => false,
                };
                if !over {
                    left = match left {
                        Some(left) => Some(left - needed),
                        None => None,
                    };
                    proof {
                        cumulative = cumulative + data@.len() + PER_MESSAGE_OVERHEAD as nat;
                    }
                    let payload: Vec<u8> = if self.reads[i].stamped && data.len() >= STAMP_SIZE {
                        let kept: usize = data.len() - STAMP_SIZE;
                        assert(data@.subrange(0, kept as int) =~= data@.take(kept as int));
                        copy_bytes(&data[0..kept])
                    } else {
                        copy_bytes(data.as_slice())
                    };
                    messages.push(payload);
                    assert(byte_views(messages@) =~= byte_views(before).push(payload@));
                }
            }
            i = i + 1;
        }
        assert(reads.take(i as int) =~= reads);
        let served: u64 = messages.len() as u64;
        (encode_value(&Outgoing::List(messages)), served)
    }

    /// Forms the response from the content of the planned files.
    pub fn serve(&self, contents: &Vec<Option<Vec<u8>>>, limit_bytes: Option<u64>) -> (response:
        Vec<u8>)
        requires
            contents@.len() == self.reads@.len(),
        ensures
            response@ == msgpack_encoded(
                binaries(
                    serve_all(
                        read_views(self.reads@),
                        content_views(contents@),
                        limit_bytes,
                    ).messages,
                ),
            ),
    {
        self.serve_with_count(contents, limit_bytes).0
    }
}

impl GetRequestAction {
    /// The response and the number of messages in it, from the content of the
    /// planned files. A response that needs no files has no messages.
    pub fn into_response_with_served_count(
        self,
        contents: &Vec<Option<Vec<u8>>>,
        limit_bytes: Option<u64>,
    ) -> (response: (Vec<u8>, u64))
        requires
            self matches GetRequestAction::ServeFiles(plan) ==> contents@.len() == plan.reads@.len(),
        ensures
            match self {
                GetRequestAction::Respond(bytes) => response.0@ == bytes@ && response.1 == 0,
                GetRequestAction::ServeFiles(plan) => {
                    let served = serve_all(
                        read_views(plan.reads@),
                        content_views(contents@),
                        limit_bytes,
                    );
                    response.0@ == msgpack_encoded(binaries(served.messages)) && response.1
                        == served.messages.len()
                },
            },
    {
        match self {
            GetRequestAction::Respond(bytes) => (bytes, 0),
            GetRequestAction::ServeFiles(plan) => plan.serve_with_count(contents, limit_bytes),
        }
    }

    /// The response, from the content of the planned files.
    pub fn into_response(
        self,
        contents: &Vec<Option<Vec<u8>>>,
        limit_bytes: Option<u64>,
    ) -> (response: Vec<u8>)
        requires
            self matches GetRequestAction::ServeFiles(plan) ==> contents@.len() == plan.reads@.len(),
        ensures
            match self {
                GetRequestAction::Respond(bytes) => response@ == bytes@,
                GetRequestAction::ServeFiles(plan) => response@ == msgpack_encoded(
                    binaries(
                        serve_all(
                            read_views(plan.reads@),
                            content_views(contents@),
                            limit_bytes,
                        ).messages,
                    ),
                ),
            },
    {
        self.into_response_with_served_count(contents, limit_bytes).0
    }
}

/// The identifier with these bytes.
pub open spec fn id_of(bytes: Seq<u8>) -> PropagationTransientId {
    choose|id: PropagationTransientId| id@ == bytes
}

/// The identifier that a value stands for: bytes of identifier width.
pub open spec fn store_id(wire: WireView) -> Option<PropagationTransientId> {
    match slice_of(wire) {
        Some(bytes) => if bytes.len() == 32 {
            Some(id_of(bytes))
        } else {
            None
        },
        None => None,
    }
}

/// The identifiers in a list; none where it is no list.
pub open spec fn ids_in(wire: WireView) -> Seq<PropagationTransientId> {
    match wire {
        WireView::Array(items) => items.filter_map(|item: WireView| store_id(item)),
        _ => Seq::empty(),
    }
}

/// A download request.
pub enum GetRequest {
    /// Not to be read.
    Malformed,
    /// Which messages are there?
    List,
    /// These messages have arrived.
    Purge { haves: Seq<PropagationTransientId> },
    /// These messages have arrived; send those.
    Fetch {
        haves: Seq<PropagationTransientId>,
        wants: Seq<PropagationTransientId>,
        limit: Option<ClientLimit>,
    },
}

/// The request that a value stands for: what is wanted, what has arrived, and
/// maybe a limit.
pub open spec fn get_request(wire: WireView) -> GetRequest {
    match wire {
        WireView::Array(items) => if items.len() < 2 {
            GetRequest::Malformed
        } else if items[0] is Nil && items[1] is Nil {
            GetRequest::List
        } else if items[0] is Nil {
            GetRequest::Purge { haves: ids_in(items[1]) }
        } else {
            GetRequest::Fetch {
                haves: ids_in(items[1]),
                wants: ids_in(items[0]),
                limit: if items.len() > 2 {
                    limit_of(items[2])
                } else {
                    None
                },
            }
        },
        _ => GetRequest::Malformed,
    }
}

/// `client` owns the stored message with this identifier.
pub open spec fn owns(node: NodeView, client: DestinationHash, id: PropagationTransientId) -> bool {
    entry_of(node.store.entries, id) matches Some(entry) && entry.destination_hash == client
}

/// The node after `client` deleted a message: its own leaves, with its file;
/// any other stays.
pub open spec fn purged_one(
    node: NodeView,
    client: DestinationHash,
    id: PropagationTransientId,
) -> NodeView {
    if owns(node, client, id) {
        let entry = entry_of(node.store.entries, id)->0;
        NodeView {
            store: StoreView { entries: without(node.store.entries, id), ..node.store },
            generation: next_generation(node.generation),
            removals: match node.file_of(entry) {
                Some(path) => node.removals.push(path),
                None => node.removals,
            },
            ..node
        }
    } else {
        node
    }
}

/// The node after `client` deleted messages, one by one.
pub open spec fn purged(
    node: NodeView,
    client: DestinationHash,
    ids: Seq<PropagationTransientId>,
) -> NodeView
    decreases ids.len(),
{
    if ids.len() == 0 {
        node
    } else {
        purged_one(purged(node, client, ids.drop_last()), client, ids.last())
    }
}

/// The read of a message for `client`: only its own, and only from a disk.
pub open spec fn planned_read(
    node: NodeView,
    client: DestinationHash,
    id: PropagationTransientId,
) -> Option<PlannedReadView> {
    match (node.storage_path, entry_of(node.store.entries, id)) {
        (Some(directory), Some(entry)) => if entry.destination_hash == client {
            Some(
                PlannedReadView {
                    path: path_in(directory, entry.filename_spec()),
                    stamped: entry.stamped,
                },
            )
        } else {
            None
        },
        _ => None,
    }
}

/// The reads of messages for `client`, in the order of the request.
pub open spec fn planned_reads(
    node: NodeView,
    client: DestinationHash,
    wants: Seq<PropagationTransientId>,
) -> Seq<PlannedReadView> {
    wants.filter_map(|id: PropagationTransientId| planned_read(node, client, id))
}

/// The same entries, smallest first.
pub open spec fn is_size_order(
    entries: Seq<PropagationEntry>,
    order: Seq<PropagationEntry>,
) -> bool {
    order.to_multiset() == entries.to_multiset() && smallest_first(order)
}

/// No entry stands behind a larger one.
pub open spec fn smallest_first(order: Seq<PropagationEntry>) -> bool {
    forall|i: int, j: int|
        0 <= i < j < order.len() ==> (#[trigger] order[i]).size <= (#[trigger] order[j]).size
}

/// What a list request is answered with: the identifiers of the client's own
/// messages, smallest message first.
pub open spec fn is_listing(node: NodeView, client: DestinationHash, response: Seq<u8>) -> bool {
    exists|order: Seq<PropagationEntry>| #[trigger]
        is_size_order(addressed_to(node.store.entries, client), order) && response
            == msgpack_encoded(binaries(id_views(ids_of(order))))
}

/// What a download request does and how it is answered.
pub open spec fn is_answer(
    before: NodeView,
    after: NodeView,
    client: DestinationHash,
    request: GetRequest,
    action: GetRequestAction,
) -> bool {
    match request {
        GetRequest::Malformed => after == before && (action matches GetRequestAction::Respond(
            response,
        ) && response@ == msgpack_encoded(WireView::Nil)),
        GetRequest::List => after == before && (action matches GetRequestAction::Respond(response)
            && is_listing(before, client, response@)),
        GetRequest::Purge { haves } => after == purged(before, client, haves) && (
        action matches GetRequestAction::Respond(response) && response@ == msgpack_encoded(
            binaries(Seq::empty()),
        )),
        GetRequest::Fetch { haves, wants, limit } => after == purged(before, client, haves) && (
        action matches GetRequestAction::ServeFiles(plan) && plan.limit == limit && read_views(
            plan.reads@,
        ) == planned_reads(after, client, wants)),
    }
}

/// Sorts entries, smallest first.
fn sort_by_size(entries: &Vec<PropagationEntry>) -> (order: Vec<PropagationEntry>)
    ensures
        is_size_order(entries@, order@),
{
    let ghost all = entries@;
    let mut order: Vec<PropagationEntry> = Vec::new();
    let mut i: usize = 0;
    assert(all.take(0) =~= order@);
    while i < entries.len()
        invariant
            i <= all.len(),
            all == entries@,
            order@.len() == i,
            order@.to_multiset() == all.take(i as int).to_multiset(),
            smallest_first(order@),
        decreases all.len() - i,
    {
        let entry: PropagationEntry = entries[i];
        let mut p: usize = 0;
        while p < order.len() && order[p].size <= entry.size
            invariant
                p <= order@.len(),
                forall|k: int| 0 <= k < p ==> (#[trigger] order@[k]).size <= entry.size,
            decreases order@.len() - p,
        {
            p = p + 1;
        }
        let ghost before = order@;
        order.insert(p, entry);
        proof {
            assert forall|a: int, b: int| 0 <= a < b < order@.len() implies (
            #[trigger] order@[a]).size <= (#[trigger] order@[b]).size by {
                let x = if a < p { a } else { a - 1 };
                let y = if b < p { b } else { b - 1 };
                if a != p && b != p {
                    assert(order@[a] == before[x] && order@[b] == before[y]);
                } else if b == p {
                    assert(order@[a] == before[a]);
                } else {
                    assert(order@[b] == before[y]);
                    assert(before[p as int].size <= before[y].size);
                }
            }
            assert(all.take(i + 1) =~= all.take(i as int).insert(i as int, entry));
            vstd::seq_lib::to_multiset_insert(before, p as int, entry);
            vstd::seq_lib::to_multiset_insert(all.take(i as int), i as int, entry);
        }
        i = i + 1;
    }
    assert(all.take(i as int) =~= all);
    order
}

/// Reads a value as an identifier.
fn parse_store_id(value: &WireValue) -> (id: Option<PropagationTransientId>)
    ensures
        id == store_id(value@),
{
    match value.as_slice() {
        Some(bytes) => {
            let id = id_from_bytes::<32>(bytes);
            proof {
                if let Some(id) = id {
                    crate::ids::lemma_id_from_view(id, id_of(bytes@));
                }
            }
            id
        },
        None => None,
    }
}

/// Reads a value as a list of identifiers.
fn parse_store_ids(value: &WireValue) -> (ids: Vec<PropagationTransientId>)
    ensures
        ids@ == ids_in(value@),
{
    let mut ids: Vec<PropagationTransientId> = Vec::new();
    if let Some(items) = value.as_array() {
        let ghost views = wire_views(items@);
        let mut i: usize = 0;
        while i < items.len()
            invariant
                i <= items@.len(),
                views == wire_views(items@),
                ids@ == views.take(i as int).filter_map(|item: WireView| store_id(item)),
            decreases items@.len() - i,
        {
            proof {
                assert(views.take(i + 1).drop_last() =~= views.take(i as int));
                assert(views.take(i + 1).last() == items@[i as int]@);
            }
            let ghost before = ids@;
            if let Some(id) = parse_store_id(&items[i]) {
                ids.push(id);
                assert(ids@ =~= before + seq![id]);
            }
            i = i + 1;
        }
        assert(views.take(i as int) =~= views);
    }
    ids
}

/// Reads a value as a transfer limit.
fn parse_limit(value: &WireValue) -> (limit: Option<ClientLimit>)
    ensures
        limit == limit_of(value@),
{
    match value {
        WireValue::Integer(Some(value), _) => Some(ClientLimit::Unsigned(*value)),
        WireValue::Integer(None, Some(value)) => Some(ClientLimit::Negative(*value)),
        WireValue::Single(bits) => Some(ClientLimit::Single(*bits)),
        WireValue::Double(bits) => Some(ClientLimit::Double(*bits)),
        _ => None,
    }
}

/// Deleting a message keeps the node sound.
proof fn lemma_purged_one_wf(node: NodeView, client: DestinationHash, id: PropagationTransientId)
    requires
        node.wf(),
    ensures
        purged_one(node, client, id).wf(),
{
    let after = purged_one(node, client, id);
    if owns(node, client, id) {
        let keep = |entry: PropagationEntry| entry.transient_id != id;
        lemma_filter_unique(node.store.entries, keep);
        assert forall|other: PropagationTransientId| #[trigger]
            after.pending_ids.contains(other) implies !holds(after.store.entries, other) by {
            if holds(after.store.entries, other) {
                let i = choose|i: int|
                    0 <= i < after.store.entries.len() && (
                    #[trigger] after.store.entries[i]).transient_id == other;
                lemma_filter_holds(node.store.entries, keep, i);
                let j = choose|j: int|
                    0 <= j < node.store.entries.len() && node.store.entries[j]
                        == after.store.entries[i];
                assert(node.store.entries[j].transient_id == other);
            }
        }
    }
}

/// Deleting messages keeps the node sound.
pub proof fn lemma_purged_wf(
    node: NodeView,
    client: DestinationHash,
    ids: Seq<PropagationTransientId>,
)
    requires
        node.wf(),
    ensures
        purged(node, client, ids).wf(),
    decreases ids.len(),
{
    if ids.len() > 0 {
        lemma_purged_wf(node, client, ids.drop_last());
        lemma_purged_one_wf(purged(node, client, ids.drop_last()), client, ids.last());
    }
}

impl PropagationNode {
    /// Deletes a message for a client, if it is the client's own.
    fn purge_client_entry(&mut self, id: &PropagationTransientId, client: &DestinationHash)
        requires
            old(self)@.wf(),
        ensures
            final(self)@.wf(),
            final(self)@ == purged_one(old(self)@, *client, *id),
    {
        proof {
            lemma_purged_one_wf(self@, *client, *id);
        }
        let owned: bool = match self.store.get(id) {
            Some(entry) => same_id(&entry.destination_hash, client),
            None => false,
        };
        if !owned {
            return;
        }
        if let Some(entry) = self.store.remove(id) {
            self.advance_offer_generation();
            if let Some(directory) = &self.storage_path {
                let path = join_path(directory, entry.filename().as_str());
                self.removals.push(path);
                assert(texts_of(self.removals@) =~= old(self)@.removals.push(path@));
            }
        }
        assert(self@ =~= purged_one(old(self)@, *client, *id));
    }

    /// Deletes messages for a client, as far as they are the client's own.
    fn purge_client_entries(
        &mut self,
        ids: &Vec<PropagationTransientId>,
        client: &DestinationHash,
    )
        requires
            old(self)@.wf(),
        ensures
            final(self)@.wf(),
            final(self)@ == purged(old(self)@, *client, ids@),
    {
        let mut i: usize = 0;
        while i < ids.len()
            invariant
                i <= ids@.len(),
                self@.wf(),
                self@ == purged(old(self)@, *client, ids@.take(i as int)),
            decreases ids@.len() - i,
        {
            assert(ids@.take(i + 1).drop_last() =~= ids@.take(i as int));
            self.purge_client_entry(&ids[i], client);
            i = i + 1;
        }
        assert(ids@.take(i as int) =~= ids@);
    }

    /// Plans the reads of messages for a client, as far as they are its own.
    fn plan_client_reads(
        &self,
        wants: &Vec<PropagationTransientId>,
        client: &DestinationHash,
    ) -> (reads: Vec<PlannedRead>)
        requires
            self@.wf(),
        ensures
            read_views(reads@) == planned_reads(self@, *client, wants@),
    {
        let mut reads: Vec<PlannedRead> = Vec::new();
        let mut i: usize = 0;
        assert(read_views(reads@) =~= planned_reads(self@, *client, wants@.take(0)));
        while i < wants.len()
            invariant
                i <= wants@.len(),
                self@.wf(),
                read_views(reads@) == planned_reads(self@, *client, wants@.take(i as int)),
            decreases wants@.len() - i,
        {
            let ghost before = reads@;
            proof {
                assert(wants@.take(i + 1).drop_last() =~= wants@.take(i as int));
                assert(wants@.take(i + 1).last() == wants@[i as int]);
            }
            if let Some(directory) = &self.storage_path {
                if let Some(entry) = self.store.get(&wants[i]) {
                    if same_id(&entry.destination_hash, client) {
                        let read = PlannedRead {
                            path: join_path(directory, entry.filename().as_str()),
                            stamped: entry.stamped,
                        };
                        reads.push(read);
                        assert(read_views(reads@) =~= read_views(before) + seq![read@]);
                    }
                }
            }
            i = i + 1;
        }
        assert(wants@.take(i as int) =~= wants@);
        reads
    }

    /// Answers a download request that was decoded.
    pub fn handle_get_value(&mut self, value: &WireValue, client: &DestinationHash) -> (action:
        GetRequestAction)
        requires
            old(self)@.wf(),
        ensures
            final(self)@.wf(),
            is_answer(old(self)@, final(self)@, *client, get_request(value@), action),
    {
        let items = match value.as_array() {
            Some(items) => items,
            None => {
                return GetRequestAction::Respond(encode_value(&Outgoing::Nil));
            },
        };
        if items.len() < 2 {
            return GetRequestAction::Respond(encode_value(&Outgoing::Nil));
        }
        proof {
            assert(wire_views(items@)[0] == items@[0]@);
            assert(wire_views(items@)[1] == items@[1]@);
        }
        let wants_is_nil: bool = items[0].is_nil();
        let haves_is_nil: bool = items[1].is_nil();
        if wants_is_nil && haves_is_nil {
            let available = self.store.entries_for_destination(client);
            let order = sort_by_size(&available);
            let mut ids: Vec<Vec<u8>> = Vec::new();
            let mut i: usize = 0;
            while i < order.len()
                invariant
                    i <= order@.len(),
                    ids@.len() == i,
                    forall|j: int| 0 <= j < i ==> ids@[j]@ == order@[j].transient_id@,
                decreases order@.len() - i,
            {
                ids.push(copy_bytes(&order[i].transient_id));
                i = i + 1;
            }
            assert(byte_views(ids@) =~= id_views(ids_of(order@)));
            return GetRequestAction::Respond(encode_value(&Outgoing::List(ids)));
        }
        let haves = parse_store_ids(&items[1]);
        self.purge_client_entries(&haves, client);
        if wants_is_nil {
            let none: Vec<Vec<u8>> = Vec::new();
            assert(byte_views(none@) =~= Seq::empty());
            return GetRequestAction::Respond(encode_value(&Outgoing::List(none)));
        }
        let wants = parse_store_ids(&items[0]);
        let reads = self.plan_client_reads(&wants, client);
        let limit: Option<ClientLimit> = if items.len() > 2 {
            assert(wire_views(items@)[2] == items@[2]@);
            parse_limit(&items[2])
        } else {
            None
        };
        GetRequestAction::ServeFiles(GetServePlan { reads, limit })
    }

    /// Answers a download request of a client.
    ///
    /// A list request is answered with the client's own messages. A fetch first
    /// deletes what has arrived, so a message that is named in both lists is
    /// deleted and not sent.
    pub fn handle_get_request(&mut self, request_data: &[u8], client: &DestinationHash) -> (action:
        GetRequestAction)
        requires
            old(self)@.wf(),
        ensures
            final(self)@.wf(),
            is_answer(
                old(self)@,
                final(self)@,
                *client,
                match msgpack_decoded(request_data@) {
                    Some(wire) => get_request(wire),
                    None => GetRequest::Malformed,
                },
                action,
            ),
    {
        match decode_value(request_data) {
            Some(value) => self.handle_get_value(&value, client),
            None => GetRequestAction::Respond(encode_value(&Outgoing::Nil)),
        }
    }
}

} // verus!
