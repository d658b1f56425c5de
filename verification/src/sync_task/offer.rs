//! The offer of a sync: preparing it, sending it, and the peer's answer.

use vstd::prelude::*;
use crate::ids::{append_bytes, contains_id, copy_bytes, id_from_bytes, same_id};
use crate::ids::{DestinationHash, PropagationTransientId};
#[allow(unused_imports)]
use crate::ids::lemma_id_from_view;
use crate::msgpack::{encode_value, Outgoing};
#[allow(unused_imports)]
use crate::msgpack::{
    binaries, byte_views, msgpack_decoded, msgpack_encoded, slice_of, WireView,
};
#[allow(unused_imports)]
use crate::node::get::id_of;
use crate::node::peers::{InstallPreparedSyncOffer, PlannedMessageRead};
#[allow(unused_imports)]
use crate::node::peers::{
    are_candidates, held_by_file, is_current, is_offer_choice, message_read_views, message_reads,
    peer_file, policy_limits, wide_ids, with_offer,
};
use crate::node::records::PeerFile;
#[allow(unused_imports)]
use crate::node::records::{
    is_terminal_record, kept_or_unknown, loaded_peer, saved_key, saved_limits,
};
use crate::node::PropagationNode;
#[allow(unused_imports)]
use crate::node::{text_of, NodeView};
use crate::offer::OfferResponse;
#[allow(unused_imports)]
use crate::offer::{
    all_ids, id_views, is_id, offer_key_accepted, offer_parts, offer_request_parts,
    OfferResponseView,
};
use crate::peer::LxmPeer;
#[allow(unused_imports)]
use crate::peer::peer_view;
use crate::stamper::{generate_stamp, STAMP_WORKBLOCK_EXPAND_ROUNDS_PEERING};
#[allow(unused_imports)]
use crate::stamper::{candidate_meets, candidate_stamp, STAMP_SEARCH_LIMIT, STAMP_SIZE};
#[allow(unused_imports)]
use crate::store::holds;
use crate::sync::{
    prepare_sync_offer_snapshot, PreparedSyncOffer, SyncOffer, SyncOfferPreparationSnapshot,
};
#[allow(unused_imports)]
use crate::sync::{is_offer_order, OfferSelection, OutboundOfferPolicy, SyncOfferCandidateSnapshot};
use crate::sync_task::transfer::WorkerPoll;
#[allow(unused_imports)]
use crate::sync_task::transfer::with_new;
use crate::sync_task::{
    PacketContext, Preparation, PropagationSyncTask, SyncMailbox, SyncTaskState,
};
#[allow(unused_imports)]
use crate::sync_task::{AttemptAccounting, Step, SyncTaskView};

verus! {

/// What is left to do for an offer.
#[derive(Debug)]
pub enum OfferStage {
    /// Nothing for now.
    Wait,
    /// Nothing more: there is no offer to send.
    Over,
    /// A worker is to choose an offer from this.
    Prepare(SyncOfferPreparationSnapshot),
    /// A request with this body is to be sent on the link.
    Request(Vec<u8>),
}

/// The identity that a peering key is made for: the peer's identity and the
/// node's own, in this order.
pub open spec fn peering_id_of(peer: DestinationHash, local: DestinationHash) -> Seq<u8> {
    peer@ + local@
}

/// `key` is the first stamp over `peering_id` that is worth `cost`, or empty
/// where the search finds none.
pub open spec fn is_made_key(peering_id: Seq<u8>, cost: u8, key: Seq<u8>) -> bool {
    let rounds = STAMP_WORKBLOCK_EXPAND_ROUNDS_PEERING;
    ||| key.len() == STAMP_SIZE && exists|n: u64|
        n < STAMP_SEARCH_LIMIT && key == #[trigger] candidate_stamp(peering_id, n)
            && candidate_meets(peering_id, rounds, cost, n) && forall|m: u64|
            m < n ==> !candidate_meets(peering_id, rounds, cost, m)
    ||| key.len() == 0 && forall|n: u64|
        n < STAMP_SEARCH_LIMIT ==> !candidate_meets(peering_id, rounds, cost, n)
}

impl SyncTaskView {
    /// `key` goes with an offer that was prepared with `given`.
    pub open spec fn is_offer_key(self, given: Seq<u8>, key: Seq<u8>) -> bool {
        if given.len() > 0 {
            key == given
        } else {
            match (self.outbound_peering_key, self.local_identity_hash, self.peer_identity_hash) {
                (Some(outbound), _, _) => key == outbound@,
                (None, Some(local), Some(peer)) => is_made_key(
                    peering_id_of(peer, local),
                    self.peer_peering_cost,
                    key,
                ),
                _ => key == given,
            }
        }
    }

    /// The task with as many messages offered.
    pub open spec fn offering(self, count: nat) -> SyncTaskView {
        SyncTaskView {
            accounting: AttemptAccounting { offered_count: count as u64, ..self.accounting },
            ..self
        }
    }

    /// The task without an offer under preparation.
    pub open spec fn offer_taken(self) -> SyncTaskView {
        SyncTaskView { offer_preparation: Preparation::Absent, ..self }
    }

    /// The task after an offer was noted in the session.
    pub open spec fn offer_noted(
        self,
        generation: u64,
        exhausted: bool,
    ) -> SyncTaskView {
        SyncTaskView {
            active_offer_generation: Some(generation),
            generation_exhausted: exhausted,
            ..self
        }
    }
}

/// Body of an offer request.
pub open spec fn offer_body(key: Seq<u8>, ids: Seq<PropagationTransientId>) -> Seq<u8> {
    msgpack_encoded(WireView::Array(seq![WireView::Binary(key), binaries(id_views(ids))]))
}

/// Whoever an offer is sent to reads the key and the identifiers out of its
/// body, as far as it takes requests of that size. The key and the list fit
/// MessagePack's length fields.
pub open spec fn offer_reads_back(
    body: Seq<u8>,
    key: Seq<u8>,
    ids: Seq<PropagationTransientId>,
) -> bool {
    key.len() <= u32::MAX && ids.len() <= u32::MAX ==> forall|max_size: usize|
        body.len() <= max_size ==> #[trigger] offer_request_parts(body, max_size) == Some(
            (key, id_views(ids)),
        )
}

/// A task, a node, what is left to do and what is to be written of the peer,
/// after a step of an offer.
#[verifier::ext_equal]
pub struct OfferStep {
    pub task: SyncTaskView,
    pub node: NodeView,
    pub stage: OfferStage,
    pub record: Option<PeerFile>,
}

impl OfferStep {
    /// The offer of `ids`, prepared with the key `given`, is under way. With
    /// nothing to offer, the sync is complete and the session with the peer is
    /// over.
    pub open spec fn is_offer_of(
        self,
        task: SyncTaskView,
        node: NodeView,
        peer_hash: DestinationHash,
        ids: Seq<PropagationTransientId>,
        given: Seq<u8>,
    ) -> bool {
        if ids.len() == 0 {
            &&& self.task == task.in_state(SyncTaskState::Complete)
            &&& self.node == (NodeView { sessions: node.sessions.remove(peer_hash), ..node })
            &&& self.stage is Over
        } else {
            &&& self.task == task.offering(ids.len())
            &&& self.node == node
            &&& self.stage matches OfferStage::Request(body) && exists|key: Seq<u8>| #[trigger]
                task.is_offer_key(given, key) && body@ == offer_body(key, ids)
                    && offer_reads_back(body@, key, ids)
        }
    }

    /// A prepared offer was noted and is under way, unless the store has
    /// changed: then it is to be prepared again.
    pub open spec fn is_installed(
        self,
        task: SyncTaskView,
        node: NodeView,
        peer_hash: DestinationHash,
        prepared: PreparedSyncOffer,
    ) -> bool {
        if is_current(node, prepared) {
            self.is_offer_of(
                task.offer_noted(prepared.generation, prepared.generation_exhausted).handled(
                    prepared.terminal_handled_ids@,
                ),
                with_offer(node, prepared.policy.peer_hash, prepared.selected_ids@),
                peer_hash,
                prepared.selected_ids@,
                prepared.policy.peering_key@,
            )
        } else {
            self.task == task && self.node == node && self.stage is Wait
        }
    }

    /// The sync failed.
    pub open spec fn is_failure(self, task: SyncTaskView, node: NodeView) -> bool {
        self.task == task.in_state(SyncTaskState::Failed) && self.node == node
            && self.stage is Over
    }
}

/// `prepared` was chosen from the stored messages by `policy`, with `held` as
/// what the peer's file says it holds.
pub open spec fn is_prepared(
    node: NodeView,
    policy: OutboundOfferPolicy,
    held: Set<PropagationTransientId>,
    now: u64,
    prepared: PreparedSyncOffer,
) -> bool {
    &&& prepared.policy.same_as(&policy)
    &&& prepared.generation == node.generation
    &&& exists|candidates: Seq<SyncOfferCandidateSnapshot>, order: Seq<SyncOfferCandidateSnapshot>|
        #[trigger] is_offer_order(candidates, order) && are_candidates(node, candidates, now)
            && prepared.is_choice(order, policy_limits(policy, held))
}

/// What is known of the peer of an offer.
#[derive(Debug)]
pub struct OfferInputs<'a> {
    /// What is kept of the peer.
    pub saved: Option<&'a LxmPeer>,
    /// There is a worker to choose the offer.
    pub has_worker: bool,
}

/// `snapshot` is what a worker chooses from.
pub open spec fn is_snapshot(
    node: NodeView,
    policy: OutboundOfferPolicy,
    now: u64,
    snapshot: SyncOfferPreparationSnapshot,
) -> bool {
    &&& snapshot.policy.same_as(&policy)
    &&& snapshot.generation == node.generation
    &&& text_of(snapshot.peer_path) == peer_file(node, policy.peer_hash)
    &&& are_candidates(node, snapshot.candidates@, now)
}

/// `step` is how the offer goes on. A sync with a policy writes nothing of the
/// peer by itself.
pub open spec fn is_offer_step(
    task: SyncTaskView,
    node: NodeView,
    inputs: OfferInputs<'_>,
    poll: WorkerPoll<PreparedSyncOffer>,
    now: u64,
    step: OfferStep,
) -> bool {
    match (task.node_dest_hash, task.offer_policy) {
        (None, _) => step.record is None && step.is_failure(task, node),
        (Some(peer_hash), None) => is_kept_offer_step(
            task,
            node,
            peer_hash,
            inputs.saved,
            now,
            step,
        ),
        (Some(peer_hash), Some(policy)) => step.record is None && match task.offer_preparation {
            Preparation::Absent => if policy.peer_hash != peer_hash {
                step.is_failure(task, node)
            } else if inputs.has_worker {
                &&& step.stage matches OfferStage::Prepare(snapshot) && is_snapshot(
                    node,
                    policy,
                    now,
                    snapshot,
                )
                &&& step.task == (SyncTaskView {
                    offer_preparation: Preparation::Pending,
                    ..task
                })
                &&& step.node == node
            } else {
                exists|prepared: PreparedSyncOffer| #[trigger]
                    is_prepared(
                        node,
                        policy,
                        held_by_file(inputs.saved),
                        now,
                        prepared,
                    ) && step.is_installed(task, node, peer_hash, prepared)
            },
            Preparation::Pending => match poll {
                WorkerPoll::Waiting => step.task == task && step.node == node && step.stage is Wait,
                WorkerPoll::Lost => step.is_failure(task.offer_taken(), node),
                WorkerPoll::Done(prepared) => step.is_installed(
                    task.offer_taken(),
                    node,
                    peer_hash,
                    prepared,
                ),
            },
            Preparation::Ready(prepared) => step.is_installed(
                task.offer_taken(),
                node,
                peer_hash,
                prepared,
            ),
        },
    }
}

/// `step` is how the offer of a sync without a policy goes on. What the peer
/// will never take is written to its file.
pub open spec fn is_kept_offer_step(
    task: SyncTaskView,
    node: NodeView,
    peer_hash: DestinationHash,
    saved: Option<&LxmPeer>,
    now: u64,
    step: OfferStep,
) -> bool {
    let kept = loaded_peer(saved, node.store);
    exists|selection: OfferSelection| #[trigger]
        is_offer_choice(node, saved_limits(peer_view(saved)), now, selection)
            && is_terminal_record(
            node,
            kept_or_unknown(kept, peer_hash).holding(selection.terminal),
            selection.terminal,
            step.record,
        ) && step.is_offer_of(
            task.offer_noted(node.generation, selection.is_exhaustive()),
            with_offer(node, peer_hash, selection.selected),
            peer_hash,
            selection.selected,
            saved_key(kept),
        )
}

impl Step {
    /// The step after the request for an offer was made on the link.
    pub open spec fn offer_requested(self, request: Option<Vec<u8>>, now: u64) -> Step {
        match request {
            Some(body) => {
                let sent = self.sent_on_link(PacketContext::Request, body@);
                if self.task.link_id is Some && !self.sends_on_link() {
                    sent.in_state(SyncTaskState::Failed)
                } else {
                    Step {
                        task: SyncTaskView {
                            state: SyncTaskState::AwaitingResponse,
                            sync_started: Some(now),
                            ..sent.task
                        },
                        ..sent
                    }
                }
            },
            None => self.in_state(SyncTaskState::Failed),
        }
    }
}

impl PropagationSyncTask {
    /// The key that goes with an offer: the one it was prepared with, else the
    /// one that was made ahead, else one made now.
    fn offer_key(&self, given: Vec<u8>) -> (key: Vec<u8>)
        ensures
            self@.is_offer_key(given@, key@),
    {
        if given.len() > 0 {
            return given;
        }
        if let Some(key) = &self.outbound_peering_key {
            return copy_bytes(key.as_slice());
        }
        match (self.local_identity_hash, self.peer_identity_hash) {
            (Some(local), Some(peer)) => {
                let mut peering_id: Vec<u8> = Vec::new();
                append_bytes(&mut peering_id, &peer);
                append_bytes(&mut peering_id, &local);
                assert(peering_id@ =~= peering_id_of(peer, local));
                match generate_stamp(
                    peering_id.as_slice(),
                    self.peer_peering_cost,
                    STAMP_WORKBLOCK_EXPAND_ROUNDS_PEERING,
                ) {
                    Some((key, _)) => copy_bytes(&key),
                    None => given,
                }
            },
            _ => given,
        }
    }

    /// Offers what was noted in the session, and gives the body of the request.
    fn offer_noted_ids(
        &mut self,
        node: &mut PropagationNode,
        peer_hash: &DestinationHash,
        offer: SyncOffer,
        Ghost(ids): Ghost<Seq<PropagationTransientId>>,
    ) -> (stage: OfferStage)
        requires
            old(node)@.wf(),
            byte_views(offer.transient_ids@) == id_views(ids),
        ensures
            final(node)@.wf(),
            (OfferStep { task: final(self)@, node: final(node)@, stage, record: None }).is_offer_of(
                old(self)@,
                old(node)@,
                *peer_hash,
                ids,
                offer.peering_key@,
            ),
    {
        assert(byte_views(offer.transient_ids@).len() == offer.transient_ids@.len());
        assert(id_views(ids).len() == ids.len());
        if offer.transient_ids.len() == 0 {
            node.complete_sync(peer_hash);
            self.state = SyncTaskState::Complete;
            return OfferStage::Over;
        }
        let ghost before = self@;
        let ghost given = offer.peering_key@;
        self.offered_count = offer.transient_ids.len() as u64;
        let key = self.offer_key(offer.peering_key);
        let wire = Outgoing::Keyed(key, offer.transient_ids);
        let body = encode_value(&wire);
        proof {
            assert(before.is_offer_key(given, key@));
            lemma_offer_reads_back(wire, body@, key@, ids);
        }
        OfferStage::Request(body)
    }

    /// Notes a prepared offer in the session and offers it, unless the store
    /// has changed.
    fn install_offer(
        &mut self,
        node: &mut PropagationNode,
        peer_hash: &DestinationHash,
        prepared: PreparedSyncOffer,
    ) -> (stage: OfferStage)
        requires
            old(node)@.wf(),
        ensures
            final(node)@.wf(),
            ({
                let step = OfferStep { task: final(self)@, node: final(node)@, stage, record: None };
                step.is_installed(old(self)@, old(node)@, *peer_hash, prepared)
            }),
    {
        let ghost ids = prepared.selected_ids@;
        match node.install_prepared_sync_offer(prepared) {
            InstallPreparedSyncOffer::Stale => OfferStage::Wait,
            InstallPreparedSyncOffer::Installed {
                offer,
                generation,
                terminal_handled_ids,
                generation_exhausted,
            } => {
                self.active_offer_generation = Some(generation);
                self.generation_exhausted = generation_exhausted;
                self.record_handled_updates(&terminal_handled_ids);
                self.offer_noted_ids(node, peer_hash, offer, Ghost(ids))
            },
        }
    }

    /// Offers by what is kept of the peer, where the sync has no policy. What the
    /// peer will never take is to be written to its file.
    fn offer_without_policy(
        &mut self,
        node: &mut PropagationNode,
        peer_hash: DestinationHash,
        saved: Option<&LxmPeer>,
        now: u64,
    ) -> (next: (OfferStage, Option<PeerFile>))
        requires
            old(node)@.wf(),
            saved matches Some(peer) ==> peer.destination_hash == peer_hash,
        ensures
            final(node)@.wf(),
            is_kept_offer_step(
                old(self)@,
                old(node)@,
                peer_hash,
                saved,
                now,
                (OfferStep {
                    task: final(self)@,
                    node: final(node)@,
                    stage: next.0,
                    record: next.1,
                }),
            ),
    {
        let ghost before = node@;
        let ghost kept = loaded_peer(saved, node@.store);
        let ghost limits = saved_limits(peer_view(saved));
        self.active_offer_generation = Some(node.offer_generation());
        let (offer, record, exhausted) = node.choose_kept_offer(peer_hash, saved, now);
        self.generation_exhausted = exhausted;
        let ghost selection = choose|selection: OfferSelection| #[trigger]
            is_offer_choice(before, limits, now, selection) && byte_views(offer.transient_ids@)
                == id_views(selection.selected) && is_terminal_record(
                before,
                kept_or_unknown(kept, peer_hash).holding(selection.terminal),
                selection.terminal,
                record,
            ) && exhausted == selection.is_exhaustive() && node@ == with_offer(
                before,
                peer_hash,
                selection.selected,
            );
        assert(is_offer_choice(before, limits, now, selection));
        let stage = self.offer_noted_ids(node, &peer_hash, offer, Ghost(selection.selected));
        (stage, record)
    }

    /// Chooses an offer by the policy of the sync, itself or by a worker, where
    /// none is under preparation. Gives what the worker is to choose from.
    fn start_offer_preparation(
        &mut self,
        node: &PropagationNode,
        peer_hash: &DestinationHash,
        inputs: &OfferInputs<'_>,
        now: u64,
    ) -> (started: Option<OfferStage>)
        requires
            old(self)@.offer_policy is Some,
            old(self)@.offer_preparation is Absent,
        ensures
            ({
                let policy = old(self)@.offer_policy->0;
                match started {
                    Some(OfferStage::Prepare(snapshot)) => {
                        &&& policy.peer_hash == *peer_hash && inputs.has_worker
                        &&& is_snapshot(node@, policy, now, snapshot)
                        &&& final(self)@ == (SyncTaskView {
                            offer_preparation: Preparation::Pending,
                            ..old(self)@
                        })
                    },
                    Some(stage) => stage is Over && policy.peer_hash != *peer_hash && final(self)@
                        == old(self)@.in_state(SyncTaskState::Failed),
                    None => {
                        &&& policy.peer_hash == *peer_hash && !inputs.has_worker
                        &&& final(self)@.offer_preparation matches Preparation::Ready(prepared)
                            && is_prepared(
                            node@,
                            policy,
                            held_by_file(inputs.saved),
                            now,
                            prepared,
                        )
                        &&& final(self)@.offer_taken() == old(self)@
                    },
                }
            }),
    {
        let ghost before = self@;
        match &self.offer_policy {
            Some(policy) => {
                if !same_id(&policy.peer_hash, peer_hash) {
                    self.state = SyncTaskState::Failed;
                    return Some(OfferStage::Over);
                }
                let snapshot = node.snapshot_sync_offer_preparation(policy, now);
                if inputs.has_worker {
                    self.offer_preparation = Preparation::Pending;
                    return Some(OfferStage::Prepare(snapshot));
                }
                let persisted: Vec<PropagationTransientId> = match inputs.saved {
                    Some(peer) => peer.handled_messages.to_vec(),
                    None => Vec::new(),
                };
                proof {
                    assert(persisted@.to_set() =~= held_by_file(inputs.saved));
                }
                let ghost candidates = snapshot.candidates@;
                let ghost limits = snapshot.limits(persisted@);
                let prepared = prepare_sync_offer_snapshot(snapshot, persisted.as_slice());
                proof {
                    let order = choose|order: Seq<SyncOfferCandidateSnapshot>| #[trigger]
                        is_offer_order(candidates, order) && prepared.is_choice(order, limits);
                    assert(limits == policy_limits(
                        before.offer_policy->0,
                        held_by_file(inputs.saved),
                    ));
                    assert(is_offer_order(candidates, order));
                    assert(is_prepared(
                        node@,
                        before.offer_policy->0,
                        held_by_file(inputs.saved),
                        now,
                        prepared,
                    ));
                }
                self.offer_preparation = Preparation::Ready(prepared);
                None
            },
            None => None,
        }
    }

    /// Takes the offer under preparation, once it is chosen.
    fn take_prepared_offer(&mut self, poll: WorkerPoll<PreparedSyncOffer>) -> (taken: Result<
        PreparedSyncOffer,
        OfferStage,
    >)
        ensures
            match (old(self)@.offer_preparation, poll) {
                (Preparation::Ready(prepared), _) => taken == Result::<_, OfferStage>::Ok(prepared)
                    && final(self)@ == old(self)@.offer_taken(),
                (Preparation::Pending, WorkerPoll::Done(prepared)) => taken == Result::<
                    _,
                    OfferStage,
                >::Ok(prepared) && final(self)@ == old(self)@.offer_taken(),
                (Preparation::Pending, WorkerPoll::Waiting) => taken is Err && taken->Err_0 is Wait
                    && final(self)@ == old(self)@,
                (Preparation::Pending, WorkerPoll::Lost) => taken is Err && taken->Err_0 is Over
                    && final(self)@ == old(self)@.offer_taken().in_state(SyncTaskState::Failed),
                (Preparation::Absent, _) => taken is Err && taken->Err_0 is Over && final(self)@
                    == old(self)@.in_state(SyncTaskState::Failed),
            },
    {
        let mut preparation: Preparation<PreparedSyncOffer> = Preparation::Absent;
        std::mem::swap(&mut preparation, &mut self.offer_preparation);
        match preparation {
            Preparation::Ready(prepared) => Ok(prepared),
            Preparation::Pending => match poll {
                WorkerPoll::Done(prepared) => Ok(prepared),
                WorkerPoll::Waiting => {
                    self.offer_preparation = Preparation::Pending;
                    Err(OfferStage::Wait)
                },
                WorkerPoll::Lost => {
                    self.state = SyncTaskState::Failed;
                    Err(OfferStage::Over)
                },
            },
            Preparation::Absent => {
                self.state = SyncTaskState::Failed;
                Err(OfferStage::Over)
            },
        }
    }

    /// Goes on with the offer of the sync, and says what is left to do for it and
    /// what is to be written of the peer.
    ///
    /// A sync with a policy takes its offer in stages: a snapshot of the store
    /// is taken, a worker chooses from it, and the choice is offered if the
    /// store is still the same. What the peer will never take is among the
    /// handled updates then. Without a policy what is kept of the peer decides,
    /// and what it will never take goes to its file.
    pub fn send_offer_request(
        &mut self,
        node: &mut PropagationNode,
        inputs: &OfferInputs<'_>,
        poll: WorkerPoll<PreparedSyncOffer>,
        now: u64,
    ) -> (next: (OfferStage, Option<PeerFile>))
        requires
            old(node)@.wf(),
            inputs.saved matches Some(peer) ==> old(self)@.node_dest_hash == Some(
                peer.destination_hash,
            ),
        ensures
            final(node)@.wf(),
            ({
                let step = OfferStep {
                    task: final(self)@,
                    node: final(node)@,
                    stage: next.0,
                    record: next.1,
                };
                is_offer_step(old(self)@, old(node)@, *inputs, poll, now, step)
            }),
    {
        let peer_hash: DestinationHash = match self.node_dest_hash {
            Some(hash) => hash,
            None => {
                self.state = SyncTaskState::Failed;
                return (OfferStage::Over, None);
            },
        };
        if self.offer_policy.is_none() {
            return self.offer_without_policy(node, peer_hash, inputs.saved, now);
        }
        let absent: bool = match &self.offer_preparation {
            Preparation::Absent => true,
            _ => false,
        };
        if absent {
            if let Some(stage) = self.start_offer_preparation(node, &peer_hash, inputs, now) {
                return (stage, None);
            }
        }
        let ghost ready = self@;
        match self.take_prepared_offer(poll) {
            Ok(prepared) => {
                assert(ready.offer_taken() =~= old(self)@.offer_taken());
                (self.install_offer(node, &peer_hash, prepared), None)
            },
            Err(stage) => (stage, None),
        }
    }

    /// Notes that the request for an offer was made on the link, and sends it;
    /// none was made where the link refused. Then the peer's answer is awaited.
    pub fn offer_requested(
        &mut self,
        mailbox: &mut SyncMailbox,
        request: Option<Vec<u8>>,
        now: u64,
    )
        ensures
            ({
                let before = Step { task: old(self)@, mailbox: old(mailbox)@ };
                let after = Step { task: final(self)@, mailbox: final(mailbox)@ };
                after == before.offer_requested(request, now)
            }),
    {
        match request {
            Some(body) => {
                if self.link_id.is_some() {
                    if !self.queue_link_endpoint(mailbox, PacketContext::Request, body) {
                        self.state = SyncTaskState::Failed;
                        return;
                    }
                }
                self.state = SyncTaskState::AwaitingResponse;
                self.sync_started = Some(now);
            },
            None => {
                self.state = SyncTaskState::Failed;
            },
        }
    }
}

/// Messages to be read for a transfer.
#[derive(Debug)]
pub struct TransferPlan {
    pub requested_count: usize,
    pub reads: Vec<PlannedMessageRead>,
}

/// Those of the offered messages that the peer asks for, each once, in the
/// order in which it asks.
pub open spec fn asked_for(offered: Seq<PropagationTransientId>, wanted: Seq<Seq<u8>>) -> Seq<
    PropagationTransientId,
> {
    with_new(
        Seq::empty(),
        wide_ids(wanted).filter(|id: PropagationTransientId| offered.contains(id)),
    )
}

/// Those of the offered messages that the peer does not ask for.
pub open spec fn not_asked_for(
    offered: Seq<PropagationTransientId>,
    asked: Seq<PropagationTransientId>,
) -> Seq<PropagationTransientId> {
    offered.filter(|id: PropagationTransientId| !asked.contains(id))
}

/// What the peer of a session was offered.
pub open spec fn offered_in(node: NodeView, peer_hash: DestinationHash) -> Seq<
    PropagationTransientId,
> {
    if node.sessions.contains_key(peer_hash) {
        node.sessions[peer_hash].offered_ids
    } else {
        Seq::empty()
    }
}

/// The name of an answer that refuses the offer.
pub open spec fn refusal(response: OfferResponseView) -> Option<&'static str> {
    match response {
        OfferResponseView::ErrorNoIdentity => Some("ErrorNoIdentity"),
        OfferResponseView::ErrorNoAccess => Some("ErrorNoAccess"),
        OfferResponseView::ErrorInvalidKey => Some("ErrorInvalidKey"),
        OfferResponseView::ErrorThrottled => Some("ErrorThrottled"),
        OfferResponseView::ErrorInvalidData => Some("ErrorInvalidData"),
        OfferResponseView::ErrorInvalidStamp => Some("ErrorInvalidStamp"),
        OfferResponseView::Unknown => Some("Unknown"),
        _ => None,
    }
}

/// A task and a node after an answer, and the messages that are to be read.
#[verifier::ext_equal]
pub struct AnswerStep {
    pub task: SyncTaskView,
    pub node: NodeView,
    pub requested: Option<Seq<PropagationTransientId>>,
}

/// The node without a session with this peer.
pub open spec fn without_session(node: NodeView, peer_hash: DestinationHash) -> NodeView {
    NodeView { sessions: node.sessions.remove(peer_hash), ..node }
}

/// The step in which a transfer of `ids` is prepared; with none to transfer the
/// sync is complete.
pub open spec fn transfer_prepared(
    task: SyncTaskView,
    node: NodeView,
    ids: Seq<PropagationTransientId>,
) -> AnswerStep {
    if ids.len() == 0 {
        AnswerStep {
            task: task.in_state(SyncTaskState::Complete),
            node: match task.node_dest_hash {
                Some(peer_hash) => without_session(node, peer_hash),
                None => node,
            },
            requested: None,
        }
    } else {
        AnswerStep {
            task: SyncTaskView {
                transfer_preparation: Preparation::Pending,
                state: SyncTaskState::Transferring,
                ..task
            },
            node,
            requested: Some(ids),
        }
    }
}

/// The step in which the peer's answer to the offer is taken.
pub open spec fn answered(
    task: SyncTaskView,
    node: NodeView,
    response: OfferResponseView,
) -> AnswerStep {
    match task.node_dest_hash {
        None => AnswerStep { task, node, requested: None },
        Some(peer_hash) => {
            let offered = offered_in(node, peer_hash);
            match response {
                OfferResponseView::WantAll => transfer_prepared(task, node, offered),
                OfferResponseView::HaveAll => AnswerStep {
                    task: task.handled(offered).in_state(SyncTaskState::Complete),
                    node: without_session(node, peer_hash),
                    requested: None,
                },
                OfferResponseView::WantSome(wanted) => {
                    let asked = asked_for(offered, wanted);
                    transfer_prepared(task.handled(not_asked_for(offered, asked)), node, asked)
                },
                _ => AnswerStep {
                    task: SyncTaskView {
                        last_offer_error: refusal(response),
                        state: SyncTaskState::Failed,
                        ..task
                    },
                    node,
                    requested: None,
                },
            }
        },
    }
}

/// `plan` reads the messages that were asked for.
pub open spec fn is_plan(
    node: NodeView,
    requested: Option<Seq<PropagationTransientId>>,
    plan: Option<TransferPlan>,
) -> bool {
    match (requested, plan) {
        (Some(ids), Some(plan)) => plan.requested_count == ids.len() && message_read_views(
            plan.reads@,
        ) == message_reads(node, ids),
        (None, None) => true,
        _ => false,
    }
}

/// Picks the messages that the peer asks for.
fn pick_asked_for(offered: &Vec<PropagationTransientId>, wanted: &Vec<Vec<u8>>) -> (asked: Vec<
    PropagationTransientId,
>)
    ensures
        asked@ == asked_for(offered@, byte_views(wanted@)),
{
    let ghost views = byte_views(wanted@);
    let ghost is_offered = |id: PropagationTransientId| offered@.contains(id);
    let mut asked: Vec<PropagationTransientId> = Vec::new();
    let mut i: usize = 0;
    proof {
        reveal(Seq::filter);
        assert(asked@ =~= with_new(Seq::empty(), wide_ids(views.take(0)).filter(is_offered)));
    }
    while i < wanted.len()
        invariant
            i <= wanted@.len(),
            views == byte_views(wanted@),
            is_offered == |id: PropagationTransientId| offered@.contains(id),
            asked@ == with_new(
                Seq::empty(),
                wide_ids(views.take(i as int)).filter(is_offered),
            ),
        decreases wanted@.len() - i,
    {
        let ghost before = wide_ids(views.take(i as int));
        proof {
            reveal(Seq::filter);
            assert(views.take(i + 1).drop_last() =~= views.take(i as int));
            assert(views.take(i + 1).last() == wanted@[i as int]@);
        }
        if let Some(id) = id_from_bytes::<32>(wanted[i].as_slice()) {
            proof {
                lemma_id_from_view(id, id_of(id@));
                assert(wide_ids(views.take(i + 1)) =~= before.push(id));
                assert(before.push(id).drop_last() =~= before);
                let all = before.push(id).filter(is_offered);
                if is_offered(id) {
                    assert(all == before.filter(is_offered).push(id));
                    assert(all.drop_last() =~= before.filter(is_offered));
                }
            }
            if contains_id(offered.as_slice(), &id) && !contains_id(asked.as_slice(), &id) {
                asked.push(id);
            }
        } else {
            assert(wide_ids(views.take(i + 1)) =~= before);
        }
        i = i + 1;
    }
    assert(views.take(i as int) =~= views);
    asked
}

/// Picks the messages that the peer does not ask for.
fn pick_not_asked_for(
    offered: &Vec<PropagationTransientId>,
    asked: &Vec<PropagationTransientId>,
) -> (rest: Vec<PropagationTransientId>)
    ensures
        rest@ == not_asked_for(offered@, asked@),
{
    let ghost is_left = |id: PropagationTransientId| !asked@.contains(id);
    let mut rest: Vec<PropagationTransientId> = Vec::new();
    let mut i: usize = 0;
    proof {
        reveal(Seq::filter);
        assert(rest@ =~= offered@.take(0).filter(is_left));
    }
    while i < offered.len()
        invariant
            i <= offered@.len(),
            is_left == |id: PropagationTransientId| !asked@.contains(id),
            rest@ == offered@.take(i as int).filter(is_left),
        decreases offered@.len() - i,
    {
        proof {
            reveal(Seq::filter);
            assert(offered@.take(i + 1).drop_last() =~= offered@.take(i as int));
            assert(offered@.take(i + 1).last() == offered@[i as int]);
        }
        if !contains_id(asked.as_slice(), &offered[i]) {
            rest.push(offered[i]);
        }
        i = i + 1;
    }
    assert(offered@.take(i as int) =~= offered@);
    rest
}

impl PropagationSyncTask {
    /// Prepares the transfer of messages; with none to transfer the sync is
    /// complete.
    fn prepare_transfer_for_ids(
        &mut self,
        node: &mut PropagationNode,
        ids: &Vec<PropagationTransientId>,
    ) -> (plan: Option<TransferPlan>)
        requires
            old(node)@.wf(),
        ensures
            final(node)@.wf(),
            ({
                let step = transfer_prepared(old(self)@, old(node)@, ids@);
                final(self)@ == step.task && final(node)@ == step.node && is_plan(
                    old(node)@,
                    step.requested,
                    plan,
                )
            }),
    {
        if ids.len() == 0 {
            if let Some(peer_hash) = self.node_dest_hash {
                node.complete_sync(&peer_hash);
            }
            self.state = SyncTaskState::Complete;
            return None;
        }
        let reads = node.plan_message_reads(ids);
        self.transfer_preparation = Preparation::Pending;
        self.state = SyncTaskState::Transferring;
        Some(TransferPlan { requested_count: ids.len(), reads })
    }

    /// Fails the sync for an answer that refuses the offer.
    fn refuse_offer(&mut self, name: &'static str)
        ensures
            final(self)@ == (SyncTaskView {
                last_offer_error: Some(name),
                state: SyncTaskState::Failed,
                ..old(self)@
            }),
    {
        self.last_offer_error = Some(name);
        self.state = SyncTaskState::Failed;
    }

    /// Takes the peer's answer to the offer, and gives the messages that are to
    /// be read for it. What was offered and is not asked for, the peer holds.
    pub fn handle_offer_response(
        &mut self,
        node: &mut PropagationNode,
        response: &OfferResponse,
    ) -> (plan: Option<TransferPlan>)
        requires
            old(node)@.wf(),
        ensures
            final(node)@.wf(),
            ({
                let step = answered(old(self)@, old(node)@, response@);
                final(self)@ == step.task && final(node)@ == step.node && is_plan(
                    old(node)@,
                    step.requested,
                    plan,
                )
            }),
    {
        let peer_hash: DestinationHash = match self.node_dest_hash {
            Some(hash) => hash,
            None => {
                return None;
            },
        };
        let offered: Vec<PropagationTransientId> = match node.get_session(&peer_hash) {
            Some(session) => copy_ids(&session.offered_ids),
            None => Vec::new(),
        };
        assert(offered@ =~= offered_in(node@, peer_hash));
        match response {
            OfferResponse::WantAll => {
                return self.prepare_transfer_for_ids(node, &offered);
            },
            OfferResponse::HaveAll => {
                self.record_handled_updates(&offered);
                node.complete_sync(&peer_hash);
                self.state = SyncTaskState::Complete;
            },
            OfferResponse::WantSome(wanted) => {
                let asked = pick_asked_for(&offered, wanted);
                let held = pick_not_asked_for(&offered, &asked);
                self.record_handled_updates(&held);
                return self.prepare_transfer_for_ids(node, &asked);
            },
            OfferResponse::ErrorNoIdentity => {
                self.refuse_offer("ErrorNoIdentity");
            },
            OfferResponse::ErrorNoAccess => {
                self.refuse_offer("ErrorNoAccess");
            },
            OfferResponse::ErrorInvalidKey => {
                self.refuse_offer("ErrorInvalidKey");
            },
            OfferResponse::ErrorThrottled => {
                self.refuse_offer("ErrorThrottled");
            },
            OfferResponse::ErrorInvalidData => {
                self.refuse_offer("ErrorInvalidData");
            },
            OfferResponse::ErrorInvalidStamp => {
                self.refuse_offer("ErrorInvalidStamp");
            },
            OfferResponse::Unknown => {
                self.refuse_offer("Unknown");
            },
        }
        None
    }
}

/// What an offer is made of is read out of it again.
proof fn lemma_offer_reads_back(
    wire: Outgoing,
    body: Seq<u8>,
    key: Seq<u8>,
    ids: Seq<PropagationTransientId>,
)
    requires
        wire matches Outgoing::Keyed(bytes, items) && bytes@ == key && byte_views(items@)
            == id_views(ids),
        wire.fits() ==> msgpack_decoded(body) == Some(wire@),
    ensures
        offer_reads_back(body, key, ids),
{
    if key.len() <= u32::MAX && ids.len() <= u32::MAX {
        let listed = id_views(ids);
        let items = Seq::new(listed.len(), |i: int| WireView::Binary(listed[i]));
        assert forall|i: int| 0 <= i < items.len() implies is_id(#[trigger] items[i]) by {
            assert(items[i] == WireView::Binary(ids[i]@));
        }
        assert(all_ids(items));
        assert(Seq::new(items.len(), |i: int| slice_of(items[i])->0) =~= listed);
        assert(offer_parts(wire@) == Some((key, listed)));
    }
}

/// A list with the same identifiers.
fn copy_ids(ids: &Vec<PropagationTransientId>) -> (copy: Vec<PropagationTransientId>)
    ensures
        copy@ == ids@,
{
    let mut copy: Vec<PropagationTransientId> = Vec::new();
    let mut i: usize = 0;
    while i < ids.len()
        invariant
            i <= ids@.len(),
            copy@ == ids@.take(i as int),
        decreases ids@.len() - i,
    {
        copy.push(ids[i]);
        i = i + 1;
        assert(copy@ =~= ids@.take(i as int));
    }
    assert(copy@ =~= ids@);
    copy
}

/// What a list is extended by is new to it or in it.
pub(crate) proof fn lemma_with_new(
    list: Seq<PropagationTransientId>,
    ids: Seq<PropagationTransientId>,
    id: PropagationTransientId,
)
    ensures
        with_new(list, ids).contains(id) <==> list.contains(id) || ids.contains(id),
    decreases ids.len(),
{
    if ids.len() > 0 {
        let rest = with_new(list, ids.drop_last());
        lemma_with_new(list, ids.drop_last(), id);
        assert(ids =~= ids.drop_last().push(ids.last()));
        if ids.drop_last().contains(id) {
            let i = choose|i: int| 0 <= i < ids.drop_last().len() && ids.drop_last()[i] == id;
            assert(ids[i] == id);
        }
        if ids.contains(id) && id != ids.last() {
            let i = choose|i: int| 0 <= i < ids.len() && ids[i] == id;
            assert(ids.drop_last()[i] == id);
        }
        if !rest.contains(ids.last()) {
            let pushed = rest.push(ids.last());
            assert(pushed[rest.len() as int] == ids.last());
            if rest.contains(id) {
                let i = choose|i: int| 0 <= i < rest.len() && rest[i] == id;
                assert(pushed[i] == id);
            }
        } else {
            if id == ids.last() {
                assert(ids[ids.len() - 1] == id);
            }
        }
    }
}

/// What a filter lets through is in the list and passes.
pub(crate) proof fn lemma_filtered(
    ids: Seq<PropagationTransientId>,
    keep: spec_fn(PropagationTransientId) -> bool,
    id: PropagationTransientId,
)
    ensures
        ids.filter(keep).contains(id) <==> ids.contains(id) && keep(id),
    decreases ids.len(),
{
    reveal(Seq::filter);
    if ids.len() > 0 {
        let rest = ids.drop_last().filter(keep);
        lemma_filtered(ids.drop_last(), keep, id);
        if ids.drop_last().contains(id) {
            let i = choose|i: int| 0 <= i < ids.drop_last().len() && ids.drop_last()[i] == id;
            assert(ids[i] == id);
        }
        if ids.contains(id) && id != ids.last() {
            let i = choose|i: int| 0 <= i < ids.len() && ids[i] == id;
            assert(ids.drop_last()[i] == id);
        }
        if keep(ids.last()) {
            let pushed = rest.push(ids.last());
            assert(pushed[rest.len() as int] == ids.last());
            if rest.contains(id) {
                let i = choose|i: int| 0 <= i < rest.len() && rest[i] == id;
                assert(pushed[i] == id);
            }
        }
        if id == ids.last() {
            assert(ids[ids.len() - 1] == id);
        }
    }
}

/// A peer is sent nothing that it was not offered.
pub proof fn law_transfer_within_offer(
    task: SyncTaskView,
    node: NodeView,
    response: OfferResponseView,
    peer_hash: DestinationHash,
    id: PropagationTransientId,
)
    requires
        task.node_dest_hash == Some(peer_hash),
        answered(task, node, response).requested matches Some(ids) && ids.contains(id),
    ensures
        offered_in(node, peer_hash).contains(id),
{
    let offered = offered_in(node, peer_hash);
    if let OfferResponseView::WantSome(wanted) = response {
        let is_offered = |id: PropagationTransientId| offered.contains(id);
        lemma_with_new(Seq::empty(), wide_ids(wanted).filter(is_offered), id);
        lemma_filtered(wide_ids(wanted), is_offered, id);
    }
}

/// An answer accounts for everything that was offered: each message is either
/// to be sent or from now on counted as held by the peer.
pub proof fn law_offer_is_accounted_for(
    task: SyncTaskView,
    node: NodeView,
    response: OfferResponseView,
    peer_hash: DestinationHash,
    id: PropagationTransientId,
)
    requires
        task.node_dest_hash == Some(peer_hash),
        offered_in(node, peer_hash).contains(id),
        refusal(response) is None,
    ensures
        ({
            let step = answered(task, node, response);
            (step.requested matches Some(ids) && ids.contains(id))
                || step.task.handled_updates.contains(id)
        }),
{
    let offered = offered_in(node, peer_hash);
    match response {
        OfferResponseView::HaveAll => {
            lemma_with_new(task.handled_updates, offered, id);
        },
        OfferResponseView::WantSome(wanted) => {
            let asked = asked_for(offered, wanted);
            let is_left = |id: PropagationTransientId| !asked.contains(id);
            lemma_filtered(offered, is_left, id);
            lemma_with_new(task.handled_updates, not_asked_for(offered, asked), id);
        },
        _ => {},
    }
}

/// A refused offer changes nothing that is known of the peer and sends nothing:
/// the sync fails, so that the same messages are offered again.
pub proof fn law_refusal_changes_nothing(
    task: SyncTaskView,
    node: NodeView,
    response: OfferResponseView,
    peer_hash: DestinationHash,
)
    requires
        task.node_dest_hash == Some(peer_hash),
        refusal(response) is Some,
    ensures
        ({
            let step = answered(task, node, response);
            &&& step.node == node
            &&& step.requested is None
            &&& step.task.state is Failed
            &&& step.task.handled_updates == task.handled_updates
            &&& step.task.last_offer_error == refusal(response)
        }),
{
}

/// With nothing to offer, nothing is sent: the sync is complete.
pub proof fn law_empty_offer_sends_nothing(
    task: SyncTaskView,
    node: NodeView,
    peer_hash: DestinationHash,
    given: Seq<u8>,
    step: OfferStep,
)
    requires
        step.is_offer_of(task, node, peer_hash, Seq::empty(), given),
    ensures
        step.stage is Over,
        step.task.state is Complete,
        !step.node.sessions.contains_key(peer_hash),
{
}

/// An offer without a policy reports no message as handled. What it writes of the
/// peer forgets no stored message that the peer was known to hold.
pub proof fn law_offer_without_policy_reports_nothing(
    task: SyncTaskView,
    node: NodeView,
    peer_hash: DestinationHash,
    saved: Option<&LxmPeer>,
    now: u64,
    step: OfferStep,
    id: PropagationTransientId,
)
    requires
        is_kept_offer_step(task, node, peer_hash, saved, now, step),
    ensures
        step.task.handled_updates == task.handled_updates,
        step.record matches Some(file) ==> (held_by_file(saved).contains(id) && holds(
            node.store.entries,
            id,
        ) ==> file.peer@.handled.contains(id)),
{
}

/// An offer that was prepared from another revision of the store is never made.
pub proof fn law_stale_offer_not_made(
    task: SyncTaskView,
    node: NodeView,
    peer_hash: DestinationHash,
    prepared: PreparedSyncOffer,
    step: OfferStep,
)
    requires
        prepared.generation != node.generation,
        step.is_installed(task, node, peer_hash, prepared),
    ensures
        step.stage is Wait,
        step.task == task,
        step.node == node,
{
}

/// A key that a node made for a peer is taken by that peer: both put the peer's
/// identity before the node's.
pub proof fn law_made_key_is_accepted(
    peer: DestinationHash,
    local: DestinationHash,
    cost: u8,
    key: Seq<u8>,
)
    requires
        is_made_key(peering_id_of(peer, local), cost, key),
        key.len() > 0,
    ensures
        offer_key_accepted(key, peer, local, cost),
{
}

} // verus!
