//! What a node tells its peers: offers made, offers received, and sync
//! sessions.

use vstd::prelude::*;
use vstd::string::StringExecFns;
use crate::constants::PN_STAMP_THROTTLE;
use crate::ids::{copy_bytes, id_from_bytes, DestinationHash, PropagationTransientId};
use crate::offer::{
    decode_offer, evaluate_decoded, DecodedOffer, OfferResponse, PnOfferEvaluation,
    PnOfferEvaluationError,
};
use crate::peer::LxmPeer;
use crate::store::PropagationEntry;
use crate::sync::{
    prepare_sync_offer_snapshot, OutboundOfferPolicy, PreparedSyncOffer, SyncGet, SyncOffer,
    SyncOfferCandidateSnapshot, SyncOfferPreparationSnapshot, SyncSession,
};
use crate::text::hex_encode;
use super::records::PeerFile;
use super::{join_path, PropagationNode};
#[allow(unused_imports)]
use super::records::{is_terminal_record, kept_peer, loaded_peer};
#[allow(unused_imports)]
use super::get::id_of;
#[allow(unused_imports)]
use super::{path_in, text_of, NodeView};
#[allow(unused_imports)]
use crate::ids::lemma_id_from_view;
#[allow(unused_imports)]
use crate::msgpack::{byte_views, fits_lengths, msgpack_encoded};
#[allow(unused_imports)]
use crate::offer::{
    id_views, missing_from, offer_key_accepted, offer_request_parts, response_from_msgpack,
    response_wire, OfferResponseView,
};
#[allow(unused_imports)]
use crate::store::{entry_of, holds};
#[allow(unused_imports)]
use crate::sync::{
    fresh_session, is_offer_order, law_selection_is_unhandled, select_all, wanted_of, OfferLimits,
    OfferSelection, SessionView,
};
#[allow(unused_imports)]
use crate::text::hex_chars;

verus! {

/// What is known of the peer that makes an offer.
#[derive(Debug, Clone, Copy)]
pub struct OfferRequestContext<'a> {
    pub peer_hash: DestinationHash,
    pub identity_known: bool,
    pub is_throttled: bool,
    pub access_allowed: bool,
    pub local_identity_hash: Option<&'a DestinationHash>,
    pub remote_identity_hash: Option<&'a DestinationHash>,
}

/// A peer that passed the gates in front of an offer.
#[derive(Debug, Clone, Copy)]
pub struct PnOfferCandidate {
    pub link_id: DestinationHash,
    pub peer_identity_hash: DestinationHash,
}

impl PnOfferCandidate {
    /// Identity of the peer.
    pub fn peer_identity_hash(&self) -> (hash: DestinationHash)
        ensures
            hash == self.peer_identity_hash,
    {
        self.peer_identity_hash
    }
}

/// The identifiers with these bytes.
pub open spec fn ids_with(bytes: Seq<Seq<u8>>) -> Seq<PropagationTransientId> {
    Seq::new(bytes.len(), |i: int| id_of(bytes[i]))
}

/// Identifiers are known by their bytes.
proof fn lemma_ids_with(ids: Seq<PropagationTransientId>)
    ensures
        ids_with(id_views(ids)) == ids,
{
    assert forall|i: int| 0 <= i < ids.len() implies ids_with(id_views(ids))[i] == ids[i] by {
        lemma_id_from_view(ids[i], id_of(ids[i]@));
    }
    assert(ids_with(id_views(ids)) =~= ids);
}

/// What a node wants of offered messages: all that it does not hold.
pub open spec fn offer_answer(
    ids: Seq<PropagationTransientId>,
    entries: Seq<PropagationEntry>,
) -> OfferResponseView {
    let wanted = missing_from(ids, entries);
    if wanted.len() == 0 {
        OfferResponseView::HaveAll
    } else if wanted.len() == ids.len() {
        OfferResponseView::WantAll
    } else {
        OfferResponseView::WantSome(id_views(wanted))
    }
}

/// The peer offered less than the throttle's time ago.
pub open spec fn offered_lately(node: NodeView, peer_hash: DestinationHash, now: u64) -> bool {
    node.last_offer_times.contains_key(peer_hash) && now - node.last_offer_times[peer_hash]
        < PN_STAMP_THROTTLE
}

/// What an offer that could be read is answered.
pub open spec fn gated_answer(
    node: NodeView,
    key: Seq<u8>,
    ids: Seq<PropagationTransientId>,
    ctx: OfferRequestContext,
) -> OfferResponseView {
    if !ctx.identity_known {
        OfferResponseView::ErrorNoIdentity
    } else if ctx.is_throttled {
        OfferResponseView::ErrorThrottled
    } else if !ctx.access_allowed {
        OfferResponseView::ErrorNoAccess
    } else {
        match (ctx.local_identity_hash, ctx.remote_identity_hash) {
            (Some(local), Some(remote)) => if offer_key_accepted(
                key,
                *local,
                *remote,
                node.config.peering_cost,
            ) {
                offer_answer(ids, node.store.entries)
            } else {
                OfferResponseView::ErrorInvalidKey
            },
            _ => OfferResponseView::ErrorInvalidKey,
        }
    }
}

/// What an offer is answered, and whether it counts for the throttle: one that
/// comes too soon or cannot be read does not.
pub open spec fn offer_outcome(
    node: NodeView,
    request_data: Seq<u8>,
    ctx: OfferRequestContext,
    now: u64,
) -> (OfferResponseView, bool) {
    if offered_lately(node, ctx.peer_hash, now) {
        (OfferResponseView::ErrorThrottled, false)
    } else {
        match offer_request_parts(request_data, node.config.max_offer_size) {
            Some((key, ids)) => (gated_answer(node, key, ids_with(ids), ctx), true),
            None => (OfferResponseView::ErrorInvalidData, false),
        }
    }
}

impl PropagationNode {
    /// Encodes the answer to an offer. Where its lengths fit MessagePack's length
    /// fields, whoever reads the bytes reads this answer.
    pub fn encode_offer_response(response: &OfferResponse) -> (data: Vec<u8>)
        ensures
            data@ == msgpack_encoded(response_wire(response@)),
            (response@ matches OfferResponseView::WantSome(ids) ==> fits_lengths(ids))
                ==> response_from_msgpack(data@) == response@,
    {
        response.to_msgpack()
    }

    /// Answers an offer that could be read.
    fn answer_offer(&self, offer: DecodedOffer, ctx: &OfferRequestContext) -> (response:
        OfferResponse)
        ensures
            response@ == gated_answer(
                self@,
                offer.peering_key@,
                offer.transient_ids@,
                *ctx,
            ),
    {
        if !ctx.identity_known {
            return OfferResponse::ErrorNoIdentity;
        }
        if ctx.is_throttled {
            return OfferResponse::ErrorThrottled;
        }
        if !ctx.access_allowed {
            return OfferResponse::ErrorNoAccess;
        }
        match (ctx.local_identity_hash, ctx.remote_identity_hash) {
            (Some(local), Some(remote)) => match evaluate_decoded(
                offer,
                local,
                remote,
                self.config.peering_cost,
                &self.store,
            ) {
                Ok(evaluation) => evaluation.into_wire_response(),
                Err(error) => error.wire_response(),
            },
            _ => OfferResponse::ErrorInvalidKey,
        }
    }

    /// Answers the offer of a peer.
    pub fn handle_offer_request(
        &mut self,
        request_data: &[u8],
        ctx: OfferRequestContext,
        now: u64,
    ) -> (response: Vec<u8>)
        requires
            old(self)@.wf(),
        ensures
            final(self)@.wf(),
            ({
                let (answer, counts) = offer_outcome(old(self)@, request_data@, ctx, now);
                response@ == msgpack_encoded(response_wire(answer)) && final(self)@ == (
                NodeView {
                    last_offer_times: if counts {
                        old(self)@.last_offer_times.insert(ctx.peer_hash, now)
                    } else {
                        old(self)@.last_offer_times
                    },
                    ..old(self)@
                })
            }),
    {
        let too_soon: bool = match self.last_offer_times.get(&ctx.peer_hash) {
            Some(last) => now < *last || now - *last < PN_STAMP_THROTTLE,
            None => false,
        };
        if too_soon {
            return PropagationNode::encode_offer_response(&OfferResponse::ErrorThrottled);
        }
        let offer = match decode_offer(request_data, self.config.max_offer_size) {
            Ok(offer) => offer,
            Err(error) => {
                return PropagationNode::encode_offer_response(&error.wire_response());
            },
        };
        proof {
            lemma_ids_with(offer.transient_ids@);
        }
        let response = self.answer_offer(offer, &ctx);
        self.last_offer_times.insert(ctx.peer_hash, now);
        PropagationNode::encode_offer_response(&response)
    }

    /// Evaluates an offer of a peer that passed the gates, without noting it.
    pub fn evaluate_offer_request(
        &self,
        request_data: &[u8],
        local_identity_hash: &DestinationHash,
        candidate: &PnOfferCandidate,
    ) -> (result: Result<PnOfferEvaluation, PnOfferEvaluationError>)
        ensures
            match offer_request_parts(request_data@, self@.config.max_offer_size) {
                Some((key, ids)) => if offer_key_accepted(
                    key,
                    *local_identity_hash,
                    candidate.peer_identity_hash,
                    self@.config.peering_cost,
                ) {
                    result matches Ok(evaluation) && evaluation.response() == offer_answer(
                        ids_with(ids),
                        self@.store.entries,
                    )
                } else {
                    result matches Err(error) && error is InvalidKey
                },
                None => result matches Err(error) && error is InvalidData,
            },
    {
        match decode_offer(request_data, self.config.max_offer_size) {
            Ok(offer) => {
                let ghost ids = offer.transient_ids@;
                let result = evaluate_decoded(
                    offer,
                    local_identity_hash,
                    &candidate.peer_identity_hash(),
                    self.config.peering_cost,
                    &self.store,
                );
                proof {
                    lemma_ids_with(ids);
                }
                result
            },
            Err(error) => Err(error),
        }
    }
}

/// One stored file to be read for a peer.
#[derive(Debug)]
pub struct PlannedMessageRead {
    pub transient_id: PropagationTransientId,
    pub path: String,
}

/// What a [`PlannedMessageRead`] says.
#[verifier::ext_equal]
pub struct MessageReadView {
    pub transient_id: PropagationTransientId,
    pub path: Seq<char>,
}

impl View for PlannedMessageRead {
    type V = MessageReadView;

    open spec fn view(&self) -> MessageReadView {
        MessageReadView { transient_id: self.transient_id, path: self.path@ }
    }
}

/// The reads, as they stand.
pub open spec fn message_read_views(reads: Seq<PlannedMessageRead>) -> Seq<MessageReadView> {
    Seq::new(reads.len(), |i: int| reads[i]@)
}

/// The read of a stored message; there is none without a disk.
pub open spec fn message_read(node: NodeView, id: PropagationTransientId) -> Option<
    MessageReadView,
> {
    match (node.storage_path, entry_of(node.store.entries, id)) {
        (Some(directory), Some(entry)) => Some(
            MessageReadView {
                transient_id: id,
                path: path_in(directory, entry.filename_spec()),
            },
        ),
        _ => None,
    }
}

/// The reads of stored messages, in the order of the request.
pub open spec fn message_reads(node: NodeView, ids: Seq<PropagationTransientId>) -> Seq<
    MessageReadView,
> {
    ids.filter_map(|id: PropagationTransientId| message_read(node, id))
}

/// The messages whose files could be read.
pub open spec fn messages_read(
    reads: Seq<MessageReadView>,
    contents: Seq<Option<Vec<u8>>>,
) -> Seq<(PropagationTransientId, Seq<u8>)>
    decreases reads.len(),
{
    if reads.len() == 0 {
        Seq::empty()
    } else {
        let rest = messages_read(reads.drop_last(), contents);
        match contents[reads.len() - 1] {
            Some(data) => rest.push((reads.last().transient_id, data@)),
            None => rest,
        }
    }
}

/// Identifier and content of messages.
pub open spec fn message_views(messages: Seq<(PropagationTransientId, Vec<u8>)>) -> Seq<
    (PropagationTransientId, Seq<u8>),
> {
    Seq::new(messages.len(), |i: int| (messages[i].0, messages[i].1@))
}

/// Pairs the planned messages with the content of their files, and leaves out
/// those whose file could not be read.
pub fn read_planned_messages(
    plan: &Vec<PlannedMessageRead>,
    contents: &Vec<Option<Vec<u8>>>,
) -> (messages: Vec<(PropagationTransientId, Vec<u8>)>)
    requires
        contents@.len() == plan@.len(),
    ensures
        message_views(messages@) == messages_read(message_read_views(plan@), contents@),
{
    let ghost reads = message_read_views(plan@);
    let mut messages: Vec<(PropagationTransientId, Vec<u8>)> = Vec::new();
    let mut i: usize = 0;
    assert(message_views(messages@) =~= messages_read(reads.take(0), contents@));
    while i < plan.len()
        invariant
            i <= plan@.len(),
            contents@.len() == plan@.len(),
            reads == message_read_views(plan@),
            message_views(messages@) == messages_read(reads.take(i as int), contents@),
        decreases plan@.len() - i,
    {
        let ghost before = messages@;
        proof {
            assert(reads.take(i + 1).drop_last() =~= reads.take(i as int));
            assert(reads.take(i + 1).last() == plan@[i as int]@);
        }
        if let Some(data) = &contents[i] {
            let message = (plan[i].transient_id, copy_bytes(data.as_slice()));
            messages.push(message);
            assert(message_views(messages@) =~= message_views(before).push(
                (message.0, message.1@),
            ));
        }
        i = i + 1;
    }
    assert(reads.take(i as int) =~= reads);
    messages
}

/// An entry as the choice of an offer sees it.
pub open spec fn candidate_of(node: NodeView, entry: PropagationEntry, now: u64) -> (
    PropagationTransientId,
    nat,
    usize,
    u8,
) {
    (entry.transient_id, node.store.weight(entry, now), entry.size, entry.stamp_value)
}

/// The candidates stand for the stored messages, one for one.
pub open spec fn are_candidates(
    node: NodeView,
    candidates: Seq<SyncOfferCandidateSnapshot>,
    now: u64,
) -> bool {
    &&& candidates.len() == node.store.entries.len()
    &&& forall|i: int|
        0 <= i < candidates.len() ==> (
            (#[trigger] candidates[i]).transient_id,
            candidates[i].weight as nat,
            candidates[i].size,
            candidates[i].stamp_value,
        ) == candidate_of(node, node.store.entries[i], now)
}

/// Name of the file that holds what is known of a peer.
pub open spec fn peer_file_name(peer_hash: DestinationHash) -> Seq<char> {
    hex_chars(peer_hash@) + seq!['.', 'p', 'e', 'e', 'r']
}

/// Where the file of a peer stands; `None` without a disk.
pub open spec fn peer_file(node: NodeView, peer_hash: DestinationHash) -> Option<Seq<char>> {
    match node.storage_path {
        Some(directory) => Some(path_in(directory, peer_file_name(peer_hash))),
        None => None,
    }
}

/// The session with a peer, a fresh one where there is none.
pub open spec fn session_or_fresh(node: NodeView, peer_hash: DestinationHash) -> SessionView {
    if node.sessions.contains_key(peer_hash) {
        node.sessions[peer_hash]
    } else {
        fresh_session(peer_hash)
    }
}

/// What became of a prepared offer.
#[derive(Debug)]
pub enum InstallPreparedSyncOffer {
    Installed {
        offer: SyncOffer,
        generation: u64,
        terminal_handled_ids: Vec<PropagationTransientId>,
        generation_exhausted: bool,
    },
    /// The store has changed since.
    Stale,
}

/// A prepared offer still speaks of the store as it is.
pub open spec fn is_current(node: NodeView, prepared: PreparedSyncOffer) -> bool {
    prepared.generation == node.generation && forall|i: int|
        0 <= i < prepared.selected_ids@.len() ==> holds(
            node.store.entries,
            #[trigger] prepared.selected_ids@[i],
        )
}

/// The node after an offer to a peer was noted in its session.
pub open spec fn with_offer(
    node: NodeView,
    peer_hash: DestinationHash,
    offered: Seq<PropagationTransientId>,
) -> NodeView {
    NodeView {
        sessions: node.sessions.insert(
            peer_hash,
            SessionView { offered_ids: offered, ..session_or_fresh(node, peer_hash) },
        ),
        ..node
    }
}

impl PropagationNode {
    /// Where the file of a peer stands; `None` without a disk.
    pub fn peer_path(&self, peer_hash: &DestinationHash) -> (path: Option<String>)
        ensures
            text_of(path) == peer_file(self@, *peer_hash),
    {
        match &self.storage_path {
            Some(directory) => {
                proof {
                    reveal_strlit(".peer");
                    assert(".peer"@ =~= seq!['.', 'p', 'e', 'e', 'r']);
                }
                let mut name = hex_encode(peer_hash);
                name.append(".peer");
                Some(join_path(directory, name.as_str()))
            },
            None => None,
        }
    }

    /// Plans the reads of stored messages.
    pub fn plan_message_reads(&self, requested_ids: &Vec<PropagationTransientId>) -> (reads: Vec<
        PlannedMessageRead,
    >)
        requires
            self@.wf(),
        ensures
            message_read_views(reads@) == message_reads(self@, requested_ids@),
    {
        let mut reads: Vec<PlannedMessageRead> = Vec::new();
        let mut i: usize = 0;
        assert(message_read_views(reads@) =~= message_reads(self@, requested_ids@.take(0)));
        while i < requested_ids.len()
            invariant
                i <= requested_ids@.len(),
                self@.wf(),
                message_read_views(reads@) == message_reads(self@, requested_ids@.take(i as int)),
            decreases requested_ids@.len() - i,
        {
            let ghost before = reads@;
            proof {
                assert(requested_ids@.take(i + 1).drop_last() =~= requested_ids@.take(i as int));
                assert(requested_ids@.take(i + 1).last() == requested_ids@[i as int]);
            }
            if let Some(directory) = &self.storage_path {
                if let Some(entry) = self.store.get(&requested_ids[i]) {
                    let read = PlannedMessageRead {
                        transient_id: requested_ids[i],
                        path: join_path(directory, entry.filename().as_str()),
                    };
                    reads.push(read);
                    assert(message_read_views(reads@) =~= message_read_views(before) + seq![
                        read@,
                    ]);
                }
            }
            i = i + 1;
        }
        assert(requested_ids@.take(i as int) =~= requested_ids@);
        reads
    }

    /// The stored messages that are asked for, with their content. `contents`
    /// is what the planned reads gave; a file that could not be read is left
    /// out.
    pub fn message_get_request(
        &self,
        requested_ids: &Vec<PropagationTransientId>,
        contents: &Vec<Option<Vec<u8>>>,
    ) -> (messages: Vec<(PropagationTransientId, Vec<u8>)>)
        requires
            self@.wf(),
            contents@.len() == message_reads(self@, requested_ids@).len(),
        ensures
            message_views(messages@) == messages_read(
                message_reads(self@, requested_ids@),
                contents@,
            ),
    {
        let reads = self.plan_message_reads(requested_ids);
        assert(message_read_views(reads@).len() == reads@.len());
        read_planned_messages(&reads, contents)
    }

    /// Captures what the choice of an offer depends on.
    pub fn snapshot_sync_offer_preparation(&self, policy: &OutboundOfferPolicy, now: u64) -> (
        snapshot: SyncOfferPreparationSnapshot)
        ensures
            snapshot.policy.same_as(policy),
            snapshot.generation == self@.generation,
            text_of(snapshot.peer_path) == peer_file(self@, policy.peer_hash),
            are_candidates(self@, snapshot.candidates@, now),
    {
        let mut candidates: Vec<SyncOfferCandidateSnapshot> = Vec::new();
        let mut i: usize = 0;
        while i < self.store.len()
            invariant
                i <= self.store@.entries.len(),
                candidates@.len() == i,
                forall|j: int|
                    0 <= j < i ==> (
                        (#[trigger] candidates@[j]).transient_id,
                        candidates@[j].weight as nat,
                        candidates@[j].size,
                        candidates@[j].stamp_value,
                    ) == candidate_of(self@, self.store@.entries[j], now),
            decreases self.store@.entries.len() - i,
        {
            let entry: PropagationEntry = self.store.entry(i);
            candidates.push(
                SyncOfferCandidateSnapshot {
                    transient_id: entry.transient_id,
                    weight: self.store.compute_weight(&entry, now),
                    size: entry.size,
                    stamp_value: entry.stamp_value,
                },
            );
            i = i + 1;
        }
        SyncOfferPreparationSnapshot {
            policy: policy.copy(),
            generation: self.offer_generation,
            peer_path: self.peer_path(&policy.peer_hash),
            candidates,
        }
    }

    /// The session with a peer.
    pub fn get_session(&self, peer_hash: &DestinationHash) -> (session: Option<&SyncSession>)
        ensures
            match session {
                Some(session) => self@.sessions.contains_key(*peer_hash) && session@
                    == self@.sessions[*peer_hash],
                None => !self@.sessions.contains_key(*peer_hash),
            },
    {
        self.sync_sessions.get(peer_hash)
    }

    /// The session with a peer, to be changed in place.
    pub fn get_session_mut(&mut self, peer_hash: &DestinationHash) -> (session: Option<
        &mut SyncSession,
    >)
        ensures
            match session {
                Some(session) => old(self)@.sessions.contains_key(*peer_hash) && session@ == old(
                    self,
                )@.sessions[*peer_hash] && final(self)@ == (NodeView {
                    sessions: old(self)@.sessions.insert(*peer_hash, final(session)@),
                    ..old(self)@
                }),
                None => !old(self)@.sessions.contains_key(*peer_hash) && final(self)@ == old(self)@,
            },
    {
        self.sync_sessions.get_mut(peer_hash)
    }

    /// Opens a session with a peer, unless there is one, and gives the session,
    /// to be changed in place.
    pub fn start_session(&mut self, peer_hash: DestinationHash) -> (session: &mut SyncSession)
        requires
            old(self)@.wf(),
        ensures
            final(self)@.wf(),
            session@ == session_or_fresh(old(self)@, peer_hash),
            final(self)@ == (NodeView {
                sessions: old(self)@.sessions.insert(peer_hash, final(session)@),
                ..old(self)@
            }),
    {
        if !self.sync_sessions.contains_key(&peer_hash) {
            self.sync_sessions.insert(peer_hash, SyncSession::new(peer_hash));
        }
        let ghost opened = self.sync_sessions@;
        match self.sync_sessions.get_mut(&peer_hash) {
            Some(session) => {
                proof {
                    assert(opened.insert(peer_hash, final(session)@) =~= old(
                        self,
                    )@.sessions.insert(peer_hash, final(session)@));
                }
                session
            },
            None => vstd::pervasive::unreached(),
        }
    }

    /// Drops the session with a peer.
    pub fn remove_session(&mut self, peer_hash: &DestinationHash)
        requires
            old(self)@.wf(),
        ensures
            final(self)@.wf(),
            final(self)@ == (NodeView {
                sessions: old(self)@.sessions.remove(*peer_hash),
                ..old(self)@
            }),
    {
        self.sync_sessions.remove(peer_hash);
    }

    /// Notes a prepared offer in the session with its peer, unless the store
    /// has changed since the offer was prepared.
    pub fn install_prepared_sync_offer(&mut self, prepared: PreparedSyncOffer) -> (installed:
        InstallPreparedSyncOffer)
        requires
            old(self)@.wf(),
        ensures
            final(self)@.wf(),
            match installed {
                InstallPreparedSyncOffer::Stale => !is_current(old(self)@, prepared)
                    && final(self)@ == old(self)@,
                InstallPreparedSyncOffer::Installed {
                    offer,
                    generation,
                    terminal_handled_ids,
                    generation_exhausted,
                } => is_current(old(self)@, prepared) && final(self)@ == with_offer(
                    old(self)@,
                    prepared.policy.peer_hash,
                    prepared.selected_ids@,
                ) && byte_views(offer.transient_ids@) == id_views(prepared.selected_ids@)
                    && offer.peering_key@ == prepared.policy.peering_key@ && generation
                    == prepared.generation && terminal_handled_ids@
                    == prepared.terminal_handled_ids@ && generation_exhausted
                    == prepared.generation_exhausted,
            },
    {
        if prepared.generation != self.offer_generation {
            return InstallPreparedSyncOffer::Stale;
        }
        let mut i: usize = 0;
        while i < prepared.selected_ids.len()
            invariant
                i <= prepared.selected_ids@.len(),
                self@ == old(self)@,
                old(self)@.wf(),
                forall|j: int|
                    0 <= j < i ==> holds(
                        old(self)@.store.entries,
                        #[trigger] prepared.selected_ids@[j],
                    ),
            decreases prepared.selected_ids@.len() - i,
        {
            if !self.store.contains(&prepared.selected_ids[i]) {
                return InstallPreparedSyncOffer::Stale;
            }
            i = i + 1;
        }
        let peer_hash: DestinationHash = prepared.policy.peer_hash;
        let ghost selected = prepared.selected_ids@;
        let peering_key = copy_bytes(prepared.policy.peering_key.as_slice());
        let session = self.start_session(peer_hash);
        let offer = session.prepare_offer(prepared.selected_ids, peering_key);
        assert(self@ =~= with_offer(old(self)@, peer_hash, selected));
        InstallPreparedSyncOffer::Installed {
            offer,
            generation: prepared.generation,
            terminal_handled_ids: prepared.terminal_handled_ids,
            generation_exhausted: prepared.generation_exhausted,
        }
    }
}

/// What a peer's file says it holds.
pub open spec fn held_by_file(saved: Option<&LxmPeer>) -> Set<PropagationTransientId> {
    match saved {
        Some(peer) => peer@.handled,
        None => Set::empty(),
    }
}

/// What a peer accepts, by `policy` and what its file says it holds.
pub open spec fn policy_limits(
    policy: OutboundOfferPolicy,
    held: Set<PropagationTransientId>,
) -> OfferLimits {
    OfferLimits {
        handled: policy.handled_messages@.union(held),
        minimum_stamp_cost: policy.minimum_stamp_cost,
        transfer_limit: policy.propagation_transfer_limit,
        sync_limit: policy.propagation_sync_limit,
    }
}

/// `selection` is the choice from the stored messages.
pub open spec fn is_offer_choice(
    node: NodeView,
    limits: OfferLimits,
    now: u64,
    selection: OfferSelection,
) -> bool {
    exists|
        candidates: Seq<SyncOfferCandidateSnapshot>,
        order: Seq<SyncOfferCandidateSnapshot>,
    | #[trigger]
        is_offer_order(candidates, order) && are_candidates(node, candidates, now) && selection
            == select_all(order, limits)
}

/// What is chosen from the stored messages is stored.
proof fn lemma_choice_is_held(
    node: NodeView,
    candidates: Seq<SyncOfferCandidateSnapshot>,
    order: Seq<SyncOfferCandidateSnapshot>,
    limits: OfferLimits,
    now: u64,
    id: PropagationTransientId,
)
    requires
        is_offer_order(candidates, order),
        are_candidates(node, candidates, now),
        select_all(order, limits).selected.contains(id),
    ensures
        holds(node.store.entries, id),
{
    law_selection_is_unhandled(order, limits, id);
    let i = choose|i: int| 0 <= i < order.len() && (#[trigger] order[i]).transient_id == id;
    assert(order.contains(order[i]));
    vstd::seq_lib::to_multiset_contains(order, order[i]);
    vstd::seq_lib::to_multiset_contains(candidates, order[i]);
    assert(candidates.contains(order[i]));
    let j = choose|j: int| 0 <= j < candidates.len() && candidates[j] == order[i];
    assert(candidates[j].transient_id == node.store.entries[j].transient_id);
}

impl PropagationNode {
    /// Chooses what to offer a peer and notes it in the session. `saved` is what
    /// is kept of the peer. Beside the offer come what is to be written of the
    /// peer, and whether nothing is left for a later sync.
    pub(crate) fn choose_sync_offer(
        &mut self,
        policy: &OutboundOfferPolicy,
        saved: Option<&LxmPeer>,
        now: u64,
    ) -> (prepared: (SyncOffer, Option<PeerFile>, bool))
        requires
            old(self)@.wf(),
        ensures
            final(self)@.wf(),
            prepared.0.peering_key@ == policy.peering_key@,
            exists|selection: OfferSelection| #[trigger]
                is_offer_choice(
                    old(self)@,
                    policy_limits(*policy, held_by_file(saved)),
                    now,
                    selection,
                ) && byte_views(prepared.0.transient_ids@) == id_views(selection.selected)
                    && is_terminal_record(
                    old(self)@,
                    kept_peer(loaded_peer(saved, old(self)@.store), *policy, selection.terminal),
                    selection.terminal,
                    prepared.1,
                ) && prepared.2 == selection.is_exhaustive() && final(self)@ == with_offer(
                    old(self)@,
                    policy.peer_hash,
                    selection.selected,
                ),
    {
        let persisted: Vec<PropagationTransientId> = match saved {
            Some(peer) => peer.handled_messages.to_vec(),
            None => Vec::new(),
        };
        let snapshot = self.snapshot_sync_offer_preparation(policy, now);
        let ghost candidates = snapshot.candidates@;
        let ghost limits = policy_limits(*policy, held_by_file(saved));
        let ghost before = self@;
        proof {
            assert(persisted@.to_set() =~= held_by_file(saved));
            assert(snapshot.limits(persisted@) == limits);
        }
        let choice = prepare_sync_offer_snapshot(snapshot, persisted.as_slice());
        let ghost order = choose|order: Seq<SyncOfferCandidateSnapshot>| #[trigger]
            is_offer_order(candidates, order) && choice.is_choice(order, limits);
        let ghost selection = select_all(order, limits);
        proof {
            assert(is_offer_choice(self@, limits, now, selection));
            assert forall|i: int| 0 <= i < choice.selected_ids@.len() implies holds(
                self@.store.entries,
                #[trigger] choice.selected_ids@[i],
            ) by {
                assert(selection.selected.contains(choice.selected_ids@[i]));
                lemma_choice_is_held(
                    self@,
                    candidates,
                    order,
                    limits,
                    now,
                    choice.selected_ids@[i],
                );
            }
        }
        match self.install_prepared_sync_offer(choice) {
            InstallPreparedSyncOffer::Installed {
                offer,
                terminal_handled_ids,
                generation_exhausted,
                ..
            } => {
                let record = self.terminal_record(saved, policy, terminal_handled_ids.as_slice());
                assert(is_terminal_record(
                    before,
                    kept_peer(loaded_peer(saved, before.store), *policy, selection.terminal),
                    selection.terminal,
                    record,
                ));
                (offer, record, generation_exhausted)
            },
            InstallPreparedSyncOffer::Stale => (
                SyncOffer { peering_key: Vec::new(), transient_ids: Vec::new() },
                None,
                false,
            ),
        }
    }

    /// Chooses what to offer a peer and notes it in the session. `saved` is what
    /// is kept of the peer. Beside the offer comes what is to be written of the
    /// peer: that it will never take some messages.
    pub fn prepare_sync_offer_with_policy(
        &mut self,
        policy: &OutboundOfferPolicy,
        saved: Option<&LxmPeer>,
        now: u64,
    ) -> (prepared: (SyncOffer, Option<PeerFile>))
        requires
            old(self)@.wf(),
        ensures
            final(self)@.wf(),
            prepared.0.peering_key@ == policy.peering_key@,
            exists|selection: OfferSelection| #[trigger]
                is_offer_choice(
                    old(self)@,
                    policy_limits(*policy, held_by_file(saved)),
                    now,
                    selection,
                ) && byte_views(prepared.0.transient_ids@) == id_views(selection.selected)
                    && is_terminal_record(
                    old(self)@,
                    kept_peer(loaded_peer(saved, old(self)@.store), *policy, selection.terminal),
                    selection.terminal,
                    prepared.1,
                ) && final(self)@ == with_offer(old(self)@, policy.peer_hash, selection.selected),
    {
        let (offer, record, _) = self.choose_sync_offer(policy, saved, now);
        (offer, record)
    }

    /// Picks what is wanted of a peer's offer, in a fresh session.
    pub fn process_sync_offer(&mut self, peer_hash: DestinationHash, offer: &SyncOffer) -> (get:
        SyncGet)
        requires
            old(self)@.wf(),
        ensures
            final(self)@.wf(),
            byte_views(get.wanted_ids@) == wanted_of(
                byte_views(offer.transient_ids@),
                old(self)@.store.entries,
            ),
            final(self)@ == (NodeView {
                sessions: old(self)@.sessions.insert(peer_hash, fresh_session(peer_hash)),
                ..old(self)@
            }),
    {
        let session = SyncSession::new(peer_hash);
        let get = session.process_offer(offer, &self.store);
        self.sync_sessions.insert(peer_hash, session);
        get
    }

    /// Plans the reads that answer a peer's request for messages. Byte strings
    /// of another width name no message.
    pub fn process_sync_get(&mut self, peer_hash: DestinationHash, get: &SyncGet) -> (reads: Vec<
        PlannedMessageRead,
    >)
        requires
            old(self)@.wf(),
        ensures
            final(self)@.wf(),
            message_read_views(reads@) == message_reads(
                old(self)@,
                wide_ids(byte_views(get.wanted_ids@)),
            ),
            final(self)@ == (NodeView {
                sessions: old(self)@.sessions.insert(
                    peer_hash,
                    session_or_fresh(old(self)@, peer_hash),
                ),
                ..old(self)@
            }),
    {
        let ghost views = byte_views(get.wanted_ids@);
        let mut wanted: Vec<PropagationTransientId> = Vec::new();
        let mut i: usize = 0;
        assert(wanted@ =~= wide_ids(views.take(0)));
        while i < get.wanted_ids.len()
            invariant
                i <= get.wanted_ids@.len(),
                views == byte_views(get.wanted_ids@),
                wanted@ == wide_ids(views.take(i as int)),
            decreases get.wanted_ids@.len() - i,
        {
            let ghost before = wanted@;
            proof {
                assert(views.take(i + 1).drop_last() =~= views.take(i as int));
                assert(views.take(i + 1).last() == get.wanted_ids@[i as int]@);
            }
            if let Some(id) = id_from_bytes::<32>(get.wanted_ids[i].as_slice()) {
                proof {
                    lemma_id_from_view(id, id_of(id@));
                }
                wanted.push(id);
                assert(wanted@ =~= before + seq![id]);
            }
            i = i + 1;
        }
        assert(views.take(i as int) =~= views);
        let reads = self.plan_message_reads(&wanted);
        self.start_session(peer_hash);
        reads
    }

    /// Ends the session with a peer.
    pub fn complete_sync(&mut self, peer_hash: &DestinationHash)
        requires
            old(self)@.wf(),
        ensures
            final(self)@.wf(),
            final(self)@ == (NodeView {
                sessions: old(self)@.sessions.remove(*peer_hash),
                ..old(self)@
            }),
    {
        self.remove_session(peer_hash);
    }
}

/// The identifiers among byte strings: those of identifier width.
pub open spec fn wide_ids(items: Seq<Seq<u8>>) -> Seq<PropagationTransientId> {
    items.filter_map(
        |bytes: Seq<u8>|
            if bytes.len() == 32 {
                Some(id_of(bytes))
            } else {
                None
            },
    )
}

} // verus!
