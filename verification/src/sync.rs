//! Sync between nodes: sessions, offer policies and the choice of what to offer.

use vstd::prelude::*;
use crate::constants::{INITIAL_STRUCTURE_OVERHEAD, PER_MESSAGE_OVERHEAD};
use crate::ids::{copy_bytes, id_from_bytes, DestinationHash, PropagationTransientId};
use crate::offer::ids_to_bytes;
#[allow(unused_imports)]
use crate::msgpack::byte_views;
#[allow(unused_imports)]
use crate::offer::id_views;
use crate::store::PropagationStore;
#[allow(unused_imports)]
use crate::store::PropagationEntry;
#[allow(unused_imports)]
use crate::store::holds;
use crate::tables::IdSet;

verus! {

/// Messages offered to a peer.
#[derive(Debug)]
pub struct SyncOffer {
    pub peering_key: Vec<u8>,
    pub transient_ids: Vec<Vec<u8>>,
}

/// Messages asked of a peer.
#[derive(Debug)]
pub struct SyncGet {
    pub wanted_ids: Vec<Vec<u8>>,
}

/// A sync with one peer.
#[derive(Debug)]
pub struct SyncSession {
    pub peer_hash: DestinationHash,
    /// What the peer was offered; it can ask for nothing else.
    pub offered_ids: Vec<PropagationTransientId>,
    pub transferred: u64,
    pub complete: bool,
}

/// What a [`SyncSession`] holds.
#[verifier::ext_equal]
pub struct SessionView {
    pub peer_hash: DestinationHash,
    pub offered_ids: Seq<PropagationTransientId>,
    pub transferred: u64,
    pub complete: bool,
}

impl SessionView {
    /// The session after one more message reached the peer.
    pub open spec fn after_transfer(self) -> SessionView {
        SessionView {
            transferred: if self.transferred == u64::MAX {
                u64::MAX
            } else {
                (self.transferred + 1) as u64
            },
            ..self
        }
    }
}

impl View for SyncSession {
    type V = SessionView;

    open spec fn view(&self) -> SessionView {
        SessionView {
            peer_hash: self.peer_hash,
            offered_ids: self.offered_ids@,
            transferred: self.transferred,
            complete: self.complete,
        }
    }
}

/// A session in which nothing has happened yet.
pub open spec fn fresh_session(peer_hash: DestinationHash) -> SessionView {
    SessionView { peer_hash, offered_ids: Seq::empty(), transferred: 0, complete: false }
}

/// The byte strings of identifier width that name no stored message.
pub open spec fn wanted_of(
    offered: Seq<Seq<u8>>,
    entries: Seq<PropagationEntry>,
) -> Seq<Seq<u8>> {
    offered.filter(|bytes: Seq<u8>| is_wanted(bytes, entries))
}

/// `bytes` has the width of an identifier and names no stored message.
pub open spec fn is_wanted(bytes: Seq<u8>, entries: Seq<PropagationEntry>) -> bool {
    bytes.len() == 32 && !exists|id: PropagationTransientId|
        #![trigger holds(entries, id)]
        id@ == bytes && holds(entries, id)
}

impl SyncSession {
    /// A session in which nothing has happened yet.
    pub fn new(peer_hash: DestinationHash) -> (session: Self)
        ensures
            session@ == fresh_session(peer_hash),
    {
        SyncSession { peer_hash, offered_ids: Vec::new(), transferred: 0, complete: false }
    }

    /// Notes what is offered and forms the offer.
    pub fn prepare_offer(
        &mut self,
        ids: Vec<PropagationTransientId>,
        peering_key: Vec<u8>,
    ) -> (offer: SyncOffer)
        ensures
            final(self)@ == (SessionView { offered_ids: ids@, ..old(self)@ }),
            offer.peering_key@ == peering_key@,
            byte_views(offer.transient_ids@) == id_views(ids@),
    {
        let transient_ids = ids_to_bytes(&ids);
        self.offered_ids = ids;
        SyncOffer { peering_key, transient_ids }
    }

    /// Picks what is wanted of a peer's offer: all that the store does not hold.
    pub fn process_offer(&self, offer: &SyncOffer, store: &PropagationStore) -> (get: SyncGet)
        ensures
            byte_views(get.wanted_ids@) == wanted_of(byte_views(offer.transient_ids@), store@.entries),
    {
        let ghost offered = byte_views(offer.transient_ids@);
        let mut wanted: Vec<Vec<u8>> = Vec::new();
        let mut i: usize = 0;
        proof {
            reveal(Seq::filter);
            assert(wanted_of(offered.take(0), store@.entries) =~= Seq::empty());
            assert(byte_views(wanted@) =~= Seq::empty());
        }
        while i < offer.transient_ids.len()
            invariant
                i <= offered.len(),
                offered == byte_views(offer.transient_ids@),
                byte_views(wanted@) == wanted_of(offered.take(i as int), store@.entries),
            decreases offered.len() - i,
        {
            let ghost before = wanted@;
            let bytes = &offer.transient_ids[i];
            proof {
                reveal(Seq::filter);
                assert(offered.take(i + 1).drop_last() =~= offered.take(i as int));
                assert(offered.take(i + 1).last() == bytes@);
            }
            if let Some(id) = id_from_bytes::<32>(bytes.as_slice()) {
                proof {
                    assert forall|other: PropagationTransientId| other@ == id@ implies other
                        == id by {
                        crate::ids::lemma_id_from_view(other, id);
                    }
                }
                if !store.contains(&id) {
                    assert(is_wanted(bytes@, store@.entries));
                    wanted.push(copy_bytes(bytes.as_slice()));
                    assert(byte_views(wanted@) =~= byte_views(before).push(bytes@));
                } else {
                    assert(!is_wanted(bytes@, store@.entries));
                }
            }
            i = i + 1;
        }
        assert(offered.take(i as int) =~= offered);
        SyncGet { wanted_ids: wanted }
    }

    /// Counts a message that reached the peer.
    pub fn record_transfer(&mut self)
        ensures
            final(self)@ == old(self)@.after_transfer(),
    {
        self.transferred = self.transferred.saturating_add(1);
    }

    /// Ends the session.
    pub fn mark_complete(&mut self)
        ensures
            final(self)@ == (SessionView { complete: true, ..old(self)@ }),
    {
        self.complete = true;
    }
}

/// What a peer accepts, and what it holds already. Limits are in bytes.
#[derive(Debug)]
pub struct OutboundOfferPolicy {
    pub peer_hash: DestinationHash,
    pub handled_messages: IdSet,
    pub minimum_stamp_cost: u8,
    pub propagation_transfer_limit: Option<usize>,
    pub propagation_sync_limit: Option<usize>,
    pub peering_key: Vec<u8>,
}

impl OutboundOfferPolicy {
    /// The two policies say the same.
    pub open spec fn same_as(&self, other: &Self) -> bool {
        &&& self.peer_hash == other.peer_hash
        &&& self.handled_messages@ == other.handled_messages@
        &&& self.minimum_stamp_cost == other.minimum_stamp_cost
        &&& self.propagation_transfer_limit == other.propagation_transfer_limit
        &&& self.propagation_sync_limit == other.propagation_sync_limit
        &&& self.peering_key@ == other.peering_key@
    }

    /// A peer that accepts anything and holds nothing.
    pub fn unrestricted(peer_hash: DestinationHash) -> (policy: Self)
        ensures
            policy.peer_hash == peer_hash,
            policy.handled_messages@ == Set::<PropagationTransientId>::empty(),
            policy.minimum_stamp_cost == 0,
            policy.propagation_transfer_limit is None,
            policy.propagation_sync_limit is None,
            policy.peering_key@ == Seq::<u8>::empty(),
    {
        OutboundOfferPolicy {
            peer_hash,
            handled_messages: IdSet::new(),
            minimum_stamp_cost: 0,
            propagation_transfer_limit: None,
            propagation_sync_limit: None,
            peering_key: Vec::new(),
        }
    }

    /// A policy that says the same.
    pub fn copy(&self) -> (policy: Self)
        ensures
            policy.same_as(self),
    {
        OutboundOfferPolicy {
            peer_hash: self.peer_hash,
            handled_messages: self.handled_messages.copy(),
            minimum_stamp_cost: self.minimum_stamp_cost,
            propagation_transfer_limit: self.propagation_transfer_limit,
            propagation_sync_limit: self.propagation_sync_limit,
            peering_key: copy_bytes(self.peering_key.as_slice()),
        }
    }
}

/// A stored message as the choice of an offer sees it.
#[derive(Debug, Clone, Copy)]
pub struct SyncOfferCandidateSnapshot {
    pub transient_id: PropagationTransientId,
    pub weight: u128,
    pub size: usize,
    pub stamp_value: u8,
}

/// Bytes compare like words in a dictionary.
pub open spec fn bytes_less(left: Seq<u8>, right: Seq<u8>) -> bool {
    exists|k: int| first_difference(left, right, k) && left[k] < right[k]
}

/// The byte strings agree up to `k` and differ there.
pub open spec fn first_difference(left: Seq<u8>, right: Seq<u8>, k: int) -> bool {
    0 <= k < left.len() && k < right.len() && left[k] != right[k] && forall|j: int|
        0 <= j < k ==> left[j] == right[j]
}

/// Lighter messages are offered first, and of equal weight the one with the
/// smaller identifier.
pub open spec fn offered_before(
    left: SyncOfferCandidateSnapshot,
    right: SyncOfferCandidateSnapshot,
) -> bool {
    left.weight < right.weight || (left.weight == right.weight && bytes_less(
        left.transient_id@,
        right.transient_id@,
    ))
}

/// No candidate stands behind one that is offered after it.
pub open spec fn in_offer_order(order: Seq<SyncOfferCandidateSnapshot>) -> bool {
    forall|i: int, j: int|
        0 <= i < j < order.len() ==> !offered_before(#[trigger] order[j], #[trigger] order[i])
}

/// `order` holds the same candidates, in the order in which they are offered.
pub open spec fn is_offer_order(
    candidates: Seq<SyncOfferCandidateSnapshot>,
    order: Seq<SyncOfferCandidateSnapshot>,
) -> bool {
    order.to_multiset() == candidates.to_multiset() && in_offer_order(order)
}

/// Tells which of two identifiers is the smaller one.
pub fn id_less<const N: usize>(left: &[u8; N], right: &[u8; N]) -> (less: bool)
    ensures
        less == bytes_less(left@, right@),
{
    let mut i: usize = 0;
    while i < N
        invariant
            i <= N,
            forall|j: int| 0 <= j < i ==> left@[j] == right@[j],
        decreases N - i,
    {
        if left[i] != right[i] {
            proof {
                assert(first_difference(left@, right@, i as int));
                if bytes_less(left@, right@) {
                    let k = choose|k: int|
                        first_difference(left@, right@, k) && left@[k] < right@[k];
                    assert(k == i);
                }
            }
            return left[i] < right[i];
        }
        i = i + 1;
    }
    false
}

/// The order of byte strings is transitive.
pub proof fn lemma_bytes_less_transitive(a: Seq<u8>, b: Seq<u8>, c: Seq<u8>)
    requires
        bytes_less(a, b),
        bytes_less(b, c),
    ensures
        bytes_less(a, c),
{
    let k = choose|k: int| first_difference(a, b, k) && a[k] < b[k];
    let m = choose|m: int| first_difference(b, c, m) && b[m] < c[m];
    let n = if k < m {
        k
    } else {
        m
    };
    assert forall|j: int| 0 <= j < n implies a[j] == c[j] by {
        assert(a[j] == b[j]);
        assert(b[j] == c[j]);
    }
    if k < m {
        assert(b[k] == c[k]);
    }
    if m < k {
        assert(a[m] == b[m]);
    }
    assert(first_difference(a, c, n) && a[n] < c[n]);
}

/// Byte strings of one length that are not smaller than each other agree.
pub proof fn lemma_bytes_less_total(left: Seq<u8>, right: Seq<u8>, n: int)
    requires
        left.len() == right.len(),
        0 <= n <= left.len(),
        !bytes_less(left, right),
        !bytes_less(right, left),
    ensures
        forall|j: int| 0 <= j < n ==> left[j] == right[j],
    decreases n,
{
    if n > 0 {
        lemma_bytes_less_total(left, right, n - 1);
        if left[n - 1] != right[n - 1] {
            assert(first_difference(left, right, n - 1));
            assert(first_difference(right, left, n - 1));
        }
    }
}

proof fn lemma_offered_before_transitive(
    a: SyncOfferCandidateSnapshot,
    b: SyncOfferCandidateSnapshot,
    c: SyncOfferCandidateSnapshot,
)
    requires
        offered_before(a, b),
        offered_before(b, c),
    ensures
        offered_before(a, c),
{
    if a.weight == b.weight && b.weight == c.weight {
        lemma_bytes_less_transitive(a.transient_id@, b.transient_id@, c.transient_id@);
    }
}

/// Tells which of two candidates is offered first.
fn is_offered_before(
    left: &SyncOfferCandidateSnapshot,
    right: &SyncOfferCandidateSnapshot,
) -> (before: bool)
    ensures
        before == offered_before(*left, *right),
{
    left.weight < right.weight || (left.weight == right.weight && id_less(
        &left.transient_id,
        &right.transient_id,
    ))
}

/// Puts candidates into the order in which they are offered.
fn sort_candidates(candidates: &Vec<SyncOfferCandidateSnapshot>) -> (order: Vec<
    SyncOfferCandidateSnapshot,
>)
    ensures
        is_offer_order(candidates@, order@),
        order@.len() == candidates@.len(),
{
    let ghost all = candidates@;
    let mut order: Vec<SyncOfferCandidateSnapshot> = Vec::new();
    let mut i: usize = 0;
    assert(all.take(0) =~= order@);
    while i < candidates.len()
        invariant
            i <= all.len(),
            all == candidates@,
            order@.len() == i,
            order@.to_multiset() == all.take(i as int).to_multiset(),
            in_offer_order(order@),
        decreases all.len() - i,
    {
        let candidate: SyncOfferCandidateSnapshot = candidates[i];
        let mut p: usize = 0;
        while p < order.len() && !is_offered_before(&candidate, &order[p])
            invariant
                p <= order@.len(),
                forall|k: int| 0 <= k < p ==> !offered_before(candidate, #[trigger] order@[k]),
            ensures
                p <= order@.len(),
                forall|k: int| 0 <= k < p ==> !offered_before(candidate, #[trigger] order@[k]),
                p < order@.len() ==> offered_before(candidate, order@[p as int]),
            decreases order@.len() - p,
        {
            p = p + 1;
        }
        let ghost before = order@;
        order.insert(p, candidate);
        proof {
            lemma_insert_in_order(before, candidate, p as int);
            assert(all.take(i + 1) =~= all.take(i as int).push(candidate));
            vstd::seq_lib::to_multiset_insert(before, p as int, candidate);
            vstd::seq_lib::to_multiset_insert(all.take(i as int), i as int, candidate);
            assert(all.take(i as int).insert(i as int, candidate) =~= all.take(i + 1));
        }
        i = i + 1;
    }
    assert(all.take(i as int) =~= all);
    order
}

proof fn lemma_insert_in_order(
    order: Seq<SyncOfferCandidateSnapshot>,
    candidate: SyncOfferCandidateSnapshot,
    p: int,
)
    requires
        0 <= p <= order.len(),
        in_offer_order(order),
        forall|k: int| 0 <= k < p ==> !offered_before(candidate, #[trigger] order[k]),
        p < order.len() ==> offered_before(candidate, order[p]),
    ensures
        in_offer_order(order.insert(p, candidate)),
{
    let grown = order.insert(p, candidate);
    assert forall|i: int, j: int| 0 <= i < j < grown.len() implies !offered_before(
        #[trigger] grown[j],
        #[trigger] grown[i],
    ) by {
        let a = if i < p { i } else { i - 1 };
        let b = if j < p { j } else { j - 1 };
        if i != p && j != p {
            assert(grown[i] == order[a] && grown[j] == order[b]);
        } else if j == p {
            assert(grown[i] == order[i]);
        } else {
            assert(grown[j] == order[b]);
            if offered_before(order[b], candidate) {
                lemma_offered_before_transitive(order[b], candidate, order[p]);
                if b == p {
                    lemma_not_before_itself(order[p]);
                }
            }
        }
    }
}

proof fn lemma_not_before_itself(candidate: SyncOfferCandidateSnapshot)
    ensures
        !offered_before(candidate, candidate),
{
}

/// Everything that the choice of an offer depends on, captured at one moment.
#[derive(Debug)]
pub struct SyncOfferPreparationSnapshot {
    pub policy: OutboundOfferPolicy,
    pub generation: u64,
    /// File that holds what is known of the peer.
    pub peer_path: Option<String>,
    pub candidates: Vec<SyncOfferCandidateSnapshot>,
}

/// An offer that was chosen from a snapshot.
#[derive(Debug)]
pub struct PreparedSyncOffer {
    pub policy: OutboundOfferPolicy,
    pub generation: u64,
    pub selected_ids: Vec<PropagationTransientId>,
    /// Messages that the peer will never take, to be counted as handled.
    pub terminal_handled_ids: Vec<PropagationTransientId>,
    /// Nothing of this generation is left for a later sync.
    pub generation_exhausted: bool,
}

/// The sum, or the largest `usize` where it does not fit.
pub open spec fn saturating_sum(left: nat, right: nat) -> nat {
    if left + right > usize::MAX {
        usize::MAX as nat
    } else {
        left + right
    }
}

/// What a peer accepts, as the choice of an offer sees it.
pub struct OfferLimits {
    pub handled: Set<PropagationTransientId>,
    pub minimum_stamp_cost: u8,
    pub transfer_limit: Option<usize>,
    pub sync_limit: Option<usize>,
}

/// The choice of an offer, so far.
#[verifier::ext_equal]
pub struct OfferSelection {
    pub cumulative: nat,
    pub selected: Seq<PropagationTransientId>,
    pub terminal: Seq<PropagationTransientId>,
    pub deferred: bool,
}

impl OfferSelection {
    /// Nothing of the store's generation is left for a later sync. Where not
    /// even one message fits the sync, another would come to the same.
    pub open spec fn is_exhaustive(self) -> bool {
        !self.deferred || self.selected.len() == 0
    }
}

/// Bytes that a candidate takes in a transfer.
pub open spec fn transfer_size(candidate: SyncOfferCandidateSnapshot) -> nat {
    saturating_sum(candidate.size as nat, PER_MESSAGE_OVERHEAD as nat)
}

/// The peer will never take this candidate: its stamp is worth too little, or
/// it is too large for a transfer of its own.
pub open spec fn is_terminal(candidate: SyncOfferCandidateSnapshot, limits: OfferLimits) -> bool {
    candidate.stamp_value < limits.minimum_stamp_cost || (limits.transfer_limit matches Some(limit)
        && transfer_size(candidate) > limit)
}

/// The candidate does not fit the sync any more.
pub open spec fn is_deferred(
    candidate: SyncOfferCandidateSnapshot,
    cumulative: nat,
    limits: OfferLimits,
) -> bool {
    limits.sync_limit matches Some(limit) && saturating_sum(cumulative, transfer_size(candidate))
        >= limit
}

/// The choice after one more candidate.
pub open spec fn select_next(
    selection: OfferSelection,
    candidate: SyncOfferCandidateSnapshot,
    limits: OfferLimits,
) -> OfferSelection {
    if limits.handled.contains(candidate.transient_id) {
        selection
    } else if is_terminal(candidate, limits) {
        OfferSelection { terminal: selection.terminal.push(candidate.transient_id), ..selection }
    } else if is_deferred(candidate, selection.cumulative, limits) {
        OfferSelection { deferred: true, ..selection }
    } else {
        OfferSelection {
            cumulative: saturating_sum(selection.cumulative, transfer_size(candidate)),
            selected: selection.selected.push(candidate.transient_id),
            ..selection
        }
    }
}

/// The choice from candidates in the order in which they are offered.
pub open spec fn select_all(
    order: Seq<SyncOfferCandidateSnapshot>,
    limits: OfferLimits,
) -> OfferSelection
    decreases order.len(),
{
    if order.len() == 0 {
        OfferSelection {
            cumulative: INITIAL_STRUCTURE_OVERHEAD as nat,
            selected: Seq::empty(),
            terminal: Seq::empty(),
            deferred: false,
        }
    } else {
        select_next(select_all(order.drop_last(), limits), order.last(), limits)
    }
}

impl SyncOfferPreparationSnapshot {
    /// What the peer accepts, with `persisted` as what its file says it holds.
    pub open spec fn limits(&self, persisted: Seq<PropagationTransientId>) -> OfferLimits {
        OfferLimits {
            handled: self.policy.handled_messages@.union(persisted.to_set()),
            minimum_stamp_cost: self.policy.minimum_stamp_cost,
            transfer_limit: self.policy.propagation_transfer_limit,
            sync_limit: self.policy.propagation_sync_limit,
        }
    }
}

impl PreparedSyncOffer {
    /// This is the choice from `order`.
    pub open spec fn is_choice(
        &self,
        order: Seq<SyncOfferCandidateSnapshot>,
        limits: OfferLimits,
    ) -> bool {
        let selection = select_all(order, limits);
        &&& self.selected_ids@ == selection.selected
        &&& self.terminal_handled_ids@ == selection.terminal
        &&& self.generation_exhausted == selection.is_exhaustive()
    }
}

/// Chooses what to offer. `persisted` is what the peer's file says it holds.
///
/// A generation in which not even one candidate fits the sync counts as
/// exhausted: another sync of the same store would end the same.
pub fn prepare_sync_offer_snapshot(
    snapshot: SyncOfferPreparationSnapshot,
    persisted: &[PropagationTransientId],
) -> (prepared: PreparedSyncOffer)
    ensures
        prepared.policy == snapshot.policy,
        prepared.generation == snapshot.generation,
        exists|order: Seq<SyncOfferCandidateSnapshot>| #[trigger]
            is_offer_order(snapshot.candidates@, order) && prepared.is_choice(
                order,
                snapshot.limits(persisted@),
            ),
{
    let ghost limits = snapshot.limits(persisted@);
    let mut handled = snapshot.policy.handled_messages.copy();
    handled.extend(persisted);
    let transfer_limit: Option<usize> = snapshot.policy.propagation_transfer_limit;
    let sync_limit: Option<usize> = snapshot.policy.propagation_sync_limit;
    let minimum_stamp_cost: u8 = snapshot.policy.minimum_stamp_cost;
    let order = sort_candidates(&snapshot.candidates);
    let ghost all = order@;
    let mut cumulative_size: usize = INITIAL_STRUCTURE_OVERHEAD;
    let mut selected_ids: Vec<PropagationTransientId> = Vec::new();
    let mut terminal_handled_ids: Vec<PropagationTransientId> = Vec::new();
    let mut cumulative_deferred: bool = false;
    let mut i: usize = 0;
    while i < order.len()
        invariant
            i <= all.len(),
            all == order@,
            limits == snapshot.limits(persisted@),
            handled@ == limits.handled,
            transfer_limit == limits.transfer_limit,
            sync_limit == limits.sync_limit,
            minimum_stamp_cost == limits.minimum_stamp_cost,
            select_all(all.take(i as int), limits) == (OfferSelection {
                cumulative: cumulative_size as nat,
                selected: selected_ids@,
                terminal: terminal_handled_ids@,
                deferred: cumulative_deferred,
            }),
        decreases all.len() - i,
    {
        let candidate: SyncOfferCandidateSnapshot = order[i];
        proof {
            assert(all.take(i + 1).drop_last() =~= all.take(i as int));
            assert(all.take(i + 1).last() == candidate);
        }
        i = i + 1;
        if handled.contains(&candidate.transient_id) {
            continue;
        }
        let needed: usize = candidate.size.saturating_add(PER_MESSAGE_OVERHEAD);
        let too_large: bool = match transfer_limit {
            Some(limit) => needed > limit,
            None => false,
        };
        if candidate.stamp_value < minimum_stamp_cost || too_large {
            terminal_handled_ids.push(candidate.transient_id);
            continue;
        }
        let next_size: usize = cumulative_size.saturating_add(needed);
        let over: bool = match sync_limit {
            Some(limit) => next_size >= limit,
            None => false,
        };
        if over {
            cumulative_deferred = true;
            continue;
        }
        cumulative_size = next_size;
        selected_ids.push(candidate.transient_id);
    }
    assert(all.take(i as int) =~= all);
    let generation_exhausted: bool = !cumulative_deferred || selected_ids.len() == 0;
    let prepared = PreparedSyncOffer {
        policy: snapshot.policy,
        generation: snapshot.generation,
        selected_ids,
        terminal_handled_ids,
        generation_exhausted,
    };
    assert(is_offer_order(snapshot.candidates@, all) && prepared.is_choice(all, limits));
    prepared
}

/// Some candidate has this identifier.
pub open spec fn is_candidate(
    order: Seq<SyncOfferCandidateSnapshot>,
    id: PropagationTransientId,
) -> bool {
    exists|i: int| 0 <= i < order.len() && (#[trigger] order[i]).transient_id == id
}

/// An offer names stored messages only, none that the peer holds, and the
/// messages given up for good are of the same kind.
pub proof fn law_selection_is_unhandled(
    order: Seq<SyncOfferCandidateSnapshot>,
    limits: OfferLimits,
    id: PropagationTransientId,
)
    requires
        select_all(order, limits).selected.contains(id) || select_all(order, limits).terminal.contains(id),
    ensures
        is_candidate(order, id),
        !limits.handled.contains(id),
    decreases order.len(),
{
    if order.len() > 0 {
        let rest = order.drop_last();
        let before = select_all(rest, limits);
        let after = select_all(order, limits);
        if before.selected.contains(id) || before.terminal.contains(id) {
            law_selection_is_unhandled(rest, limits, id);
            let i = choose|i: int| 0 <= i < rest.len() && (#[trigger] rest[i]).transient_id == id;
            assert(order[i] == rest[i]);
        } else {
            assert(order[order.len() - 1].transient_id == id) by {
                if after.selected.contains(id) {
                    let i = choose|i: int| 0 <= i < after.selected.len() && after.selected[i] == id;
                    if i < before.selected.len() {
                        assert(before.selected[i] == id);
                    }
                } else {
                    let i = choose|i: int| 0 <= i < after.terminal.len() && after.terminal[i] == id;
                    if i < before.terminal.len() {
                        assert(before.terminal[i] == id);
                    }
                }
            }
        }
    }
}

/// The messages of an offer stay below the peer's sync limit, their overhead
/// counted.
pub proof fn law_selection_below_sync_limit(
    order: Seq<SyncOfferCandidateSnapshot>,
    limits: OfferLimits,
)
    requires
        limits.sync_limit is Some,
        select_all(order, limits).selected.len() > 0,
    ensures
        select_all(order, limits).cumulative < limits.sync_limit->0,
    decreases order.len(),
{
    if order.len() > 0 {
        let rest = order.drop_last();
        if select_all(rest, limits).selected.len() > 0 {
            law_selection_below_sync_limit(rest, limits);
        }
    }
}

/// Where nothing had to wait for a later sync, every message that the peer does
/// not hold was offered or given up for good.
pub proof fn law_nothing_lost(
    order: Seq<SyncOfferCandidateSnapshot>,
    limits: OfferLimits,
    i: int,
)
    requires
        !select_all(order, limits).deferred,
        0 <= i < order.len(),
        !limits.handled.contains(order[i].transient_id),
    ensures
        select_all(order, limits).selected.contains(order[i].transient_id) || select_all(
            order,
            limits,
        ).terminal.contains(order[i].transient_id),
    decreases order.len(),
{
    let rest = order.drop_last();
    let id = order[i].transient_id;
    let before = select_all(rest, limits);
    let after = select_all(order, limits);
    if i == order.len() - 1 {
        if is_terminal(order.last(), limits) {
            assert(after.terminal[before.terminal.len() as int] == id);
        } else {
            assert(after.selected[before.selected.len() as int] == id);
        }
    } else {
        assert(rest[i] == order[i]);
        law_nothing_lost(rest, limits, i);
        if before.selected.contains(id) {
            let k = choose|k: int| 0 <= k < before.selected.len() && before.selected[k] == id;
            assert(after.selected[k] == id);
        } else {
            let k = choose|k: int| 0 <= k < before.terminal.len() && before.terminal[k] == id;
            assert(after.terminal[k] == id);
        }
    }
}

/// No two candidates have the same identifier.
pub open spec fn distinct_ids(candidates: Seq<SyncOfferCandidateSnapshot>) -> bool {
    candidates.no_duplicates() && forall|i: int, j: int|
        0 <= i < candidates.len() && 0 <= j < candidates.len() && (
        #[trigger] candidates[i]).transient_id == (#[trigger] candidates[j]).transient_id
            ==> candidates[i] == candidates[j]
}

/// Of two candidates with different identifiers one is offered before the
/// other.
proof fn lemma_offered_before_total(
    left: SyncOfferCandidateSnapshot,
    right: SyncOfferCandidateSnapshot,
)
    requires
        left.transient_id != right.transient_id,
    ensures
        offered_before(left, right) || offered_before(right, left),
{
    if left.weight == right.weight && !bytes_less(left.transient_id@, right.transient_id@)
        && !bytes_less(right.transient_id@, left.transient_id@) {
        lemma_bytes_less_total(left.transient_id@, right.transient_id@, 32);
        assert(left.transient_id@ =~= right.transient_id@);
        crate::ids::lemma_id_from_view(left.transient_id, right.transient_id);
    }
}

/// An offer order of distinct candidates holds distinct candidates.
pub(crate) proof fn lemma_order_distinct(
    candidates: Seq<SyncOfferCandidateSnapshot>,
    order: Seq<SyncOfferCandidateSnapshot>,
)
    requires
        distinct_ids(candidates),
        order.to_multiset() == candidates.to_multiset(),
    ensures
        distinct_ids(order),
{
    candidates.lemma_multiset_has_no_duplicates();
    order.lemma_multiset_has_no_duplicates_conv();
    assert forall|i: int, j: int|
        0 <= i < order.len() && 0 <= j < order.len() && (#[trigger] order[i]).transient_id == (
        #[trigger] order[j]).transient_id implies order[i] == order[j] by {
        assert(order.contains(order[i]) && order.contains(order[j]));
        vstd::seq_lib::to_multiset_contains(order, order[i]);
        vstd::seq_lib::to_multiset_contains(order, order[j]);
        vstd::seq_lib::to_multiset_contains(candidates, order[i]);
        vstd::seq_lib::to_multiset_contains(candidates, order[j]);
        let a = choose|a: int| 0 <= a < candidates.len() && candidates[a] == order[i];
        let b = choose|b: int| 0 <= b < candidates.len() && candidates[b] == order[j];
        assert(candidates[a].transient_id == candidates[b].transient_id);
    }
}

/// There is one order in which the same messages are offered: what is offered
/// does not depend on how the store lists them.
pub proof fn law_offer_order_is_unique(
    first: Seq<SyncOfferCandidateSnapshot>,
    second: Seq<SyncOfferCandidateSnapshot>,
)
    requires
        distinct_ids(first),
        first.to_multiset() == second.to_multiset(),
        in_offer_order(first),
        in_offer_order(second),
    ensures
        first == second,
    decreases first.len(),
{
    vstd::seq_lib::to_multiset_len(first);
    vstd::seq_lib::to_multiset_len(second);
    lemma_order_distinct(first, second);
    if first.len() == 0 {
        assert(first =~= second);
    } else {
        let n = first.len() - 1;
        let a = first.last();
        let b = second.last();
        assert(first.contains(first[n]) && second.contains(second[n]));
        vstd::seq_lib::to_multiset_contains(first, a);
        vstd::seq_lib::to_multiset_contains(second, a);
        vstd::seq_lib::to_multiset_contains(first, b);
        vstd::seq_lib::to_multiset_contains(second, b);
        if a != b {
            let i = choose|i: int| 0 <= i < second.len() && second[i] == a;
            let j = choose|j: int| 0 <= j < first.len() && first[j] == b;
            assert(i < n && j < n);
            assert(!offered_before(second[n], second[i]));
            assert(!offered_before(first[n], first[j]));
            if a.transient_id == b.transient_id {
                assert(first[n].transient_id == first[j].transient_id);
            }
            lemma_offered_before_total(a, b);
        }
        let rest_first = first.drop_last();
        let rest_second = second.drop_last();
        assert(first =~= rest_first.push(a));
        assert(second =~= rest_second.push(a));
        vstd::seq_lib::to_multiset_insert(rest_first, n, a);
        vstd::seq_lib::to_multiset_insert(rest_second, n, a);
        assert(rest_first.insert(n, a) =~= first);
        assert(rest_second.insert(n, a) =~= second);
        assert(rest_first.to_multiset() =~= rest_second.to_multiset()) by {
            assert(rest_first.to_multiset().insert(a).remove(a) =~= rest_first.to_multiset());
            assert(rest_second.to_multiset().insert(a).remove(a) =~= rest_second.to_multiset());
        }
        assert forall|i: int, j: int| 0 <= i < j < rest_first.len() implies !offered_before(
            #[trigger] rest_first[j],
            #[trigger] rest_first[i],
        ) by {
            assert(rest_first[j] == first[j] && rest_first[i] == first[i]);
        }
        assert forall|i: int, j: int| 0 <= i < j < rest_second.len() implies !offered_before(
            #[trigger] rest_second[j],
            #[trigger] rest_second[i],
        ) by {
            assert(rest_second[j] == second[j] && rest_second[i] == second[i]);
        }
        assert(distinct_ids(rest_first)) by {
            assert forall|i: int, j: int|
                0 <= i < rest_first.len() && 0 <= j < rest_first.len() && (
                #[trigger] rest_first[i]).transient_id == (#[trigger] rest_first[j]).transient_id
                implies rest_first[i] == rest_first[j] by {
                assert(rest_first[i] == first[i] && rest_first[j] == first[j]);
            }
            assert forall|i: int, j: int|
                0 <= i < rest_first.len() && 0 <= j < rest_first.len() && i != j implies rest_first[i]
                != rest_first[j] by {
                assert(rest_first[i] == first[i] && rest_first[j] == first[j]);
            }
        }
        law_offer_order_is_unique(rest_first, rest_second);
    }
}

/// A candidate stands in an offer, or among what is given up for good, only if it
/// was picked from its place.
proof fn lemma_later_picks_keep(
    order: Seq<SyncOfferCandidateSnapshot>,
    limits: OfferLimits,
    id: PropagationTransientId,
)
    requires
        order.len() > 0,
        order.last().transient_id != id,
    ensures
        select_all(order, limits).selected.contains(id) == select_all(
            order.drop_last(),
            limits,
        ).selected.contains(id),
        select_all(order, limits).terminal.contains(id) == select_all(
            order.drop_last(),
            limits,
        ).terminal.contains(id),
{
    let before = select_all(order.drop_last(), limits);
    let after = select_all(order, limits);
    if before.selected.contains(id) {
        let k = choose|k: int| 0 <= k < before.selected.len() && before.selected[k] == id;
        assert(after.selected[k] == id);
    }
    if after.selected.contains(id) {
        let k = choose|k: int| 0 <= k < after.selected.len() && after.selected[k] == id;
        assert(before.selected[k] == id);
    }
    if before.terminal.contains(id) {
        let k = choose|k: int| 0 <= k < before.terminal.len() && before.terminal[k] == id;
        assert(after.terminal[k] == id);
    }
    if after.terminal.contains(id) {
        let k = choose|k: int| 0 <= k < after.terminal.len() && after.terminal[k] == id;
        assert(before.terminal[k] == id);
    }
}

/// A list without its last candidate still names nobody twice, and does not name
/// the last one.
proof fn lemma_distinct_rest(order: Seq<SyncOfferCandidateSnapshot>)
    requires
        distinct_ids(order),
        order.len() > 0,
    ensures
        distinct_ids(order.drop_last()),
        forall|i: int|
            0 <= i < order.len() - 1 ==> (#[trigger] order[i]).transient_id
                != order.last().transient_id,
        !is_candidate(order.drop_last(), order.last().transient_id),
{
    let rest = order.drop_last();
    let n = order.len() - 1;
    assert forall|i: int, j: int|
        0 <= i < rest.len() && 0 <= j < rest.len() && (#[trigger] rest[i]).transient_id == (
        #[trigger] rest[j]).transient_id implies rest[i] == rest[j] by {
        assert(rest[i] == order[i] && rest[j] == order[j]);
    }
    assert forall|i: int, j: int|
        0 <= i < rest.len() && 0 <= j < rest.len() && i != j implies rest[i] != rest[j] by {
        assert(rest[i] == order[i] && rest[j] == order[j]);
    }
    assert forall|i: int| 0 <= i < n implies (#[trigger] order[i]).transient_id
        != order.last().transient_id by {
        if order[i].transient_id == order[n].transient_id {
            assert(order[i] == order[n]);
        }
    }
    if is_candidate(rest, order.last().transient_id) {
        let i = choose|i: int|
            0 <= i < rest.len() && (#[trigger] rest[i]).transient_id == order.last().transient_id;
        assert(rest[i] == order[i]);
    }
}

/// What becomes of each message that could be offered. It is given up for good
/// exactly when the peer lacks it and would never take it: its stamp is worth too
/// little, or it is larger than a transfer to the peer may be. It is offered only
/// if the peer lacks it and would take it. What the peer lacks and would take, and
/// is not offered, waits for a later sync; without a limit on a sync nothing waits.
pub proof fn law_each_message_has_its_place(
    order: Seq<SyncOfferCandidateSnapshot>,
    limits: OfferLimits,
    i: int,
)
    requires
        distinct_ids(order),
        0 <= i < order.len(),
    ensures
        ({
            let message = order[i];
            let lacks = !limits.handled.contains(message.transient_id);
            let refused = message.stamp_value < limits.minimum_stamp_cost || (
            limits.transfer_limit matches Some(limit) && limit < usize::MAX && message.size + 16
                > limit);
            let chosen = select_all(order, limits);
            let offered = chosen.selected.contains(message.transient_id);
            &&& chosen.terminal.contains(message.transient_id) <==> lacks && refused
            &&& offered ==> lacks && !refused
            &&& lacks && !refused && !offered ==> chosen.deferred && limits.sync_limit is Some
        }),
    decreases order.len(),
{
    let rest = order.drop_last();
    let before = select_all(rest, limits);
    let after = select_all(order, limits);
    let id = order[i].transient_id;
    lemma_distinct_rest(order);
    if i == order.len() - 1 {
        assert(!before.selected.contains(id) && !before.terminal.contains(id)) by {
            if before.selected.contains(id) || before.terminal.contains(id) {
                law_selection_is_unhandled(rest, limits, id);
            }
        }
        if after.terminal.len() > before.terminal.len() {
            assert(after.terminal[before.terminal.len() as int] == id);
        }
        if after.selected.len() > before.selected.len() {
            assert(after.selected[before.selected.len() as int] == id);
        }
        if after.terminal == before.terminal {
            assert(!after.terminal.contains(id));
        }
        if after.selected == before.selected {
            assert(!after.selected.contains(id));
        }
    } else {
        assert(rest[i] == order[i]);
        law_each_message_has_its_place(rest, limits, i);
        lemma_later_picks_keep(order, limits, id);
    }
}

/// Where an offer says that nothing of the store is left for a later sync, it
/// offers every message that the peer lacks and would take, unless not one of them
/// fits. Where it says that something is left, such a message is left and another
/// is offered.
pub proof fn law_exhausted_means_nothing_left(
    order: Seq<SyncOfferCandidateSnapshot>,
    limits: OfferLimits,
)
    requires
        distinct_ids(order),
    ensures
        ({
            let chosen = select_all(order, limits);
            chosen.is_exhaustive() <==> (chosen.selected.len() == 0 || forall|i: int|
                0 <= i < order.len() && !limits.handled.contains(
                    (#[trigger] order[i]).transient_id,
                ) && order[i].stamp_value >= limits.minimum_stamp_cost && !(
                limits.transfer_limit matches Some(limit) && limit < usize::MAX && order[i].size
                    + 16 > limit) ==> chosen.selected.contains(order[i].transient_id))
        }),
{
    let chosen = select_all(order, limits);
    assert forall|i: int|
        !chosen.deferred && 0 <= i < order.len() && !limits.handled.contains(
            (#[trigger] order[i]).transient_id,
        ) && order[i].stamp_value >= limits.minimum_stamp_cost && !(
        limits.transfer_limit matches Some(limit) && limit < usize::MAX && order[i].size + 16
            > limit) implies chosen.selected.contains(order[i].transient_id) by {
        law_each_message_has_its_place(order, limits, i);
    }
    if chosen.deferred {
        let i = lemma_deferred_is_left(order, limits);
        assert(!chosen.selected.contains(order[i].transient_id));
    }
}

/// Where a message had to wait, there is one that the peer lacks and would take
/// and that is not offered.
proof fn lemma_deferred_is_left(
    order: Seq<SyncOfferCandidateSnapshot>,
    limits: OfferLimits,
) -> (i: int)
    requires
        distinct_ids(order),
        select_all(order, limits).deferred,
    ensures
        0 <= i < order.len(),
        !limits.handled.contains(order[i].transient_id),
        !is_terminal(order[i], limits),
        !select_all(order, limits).selected.contains(order[i].transient_id),
    decreases order.len(),
{
    let rest = order.drop_last();
    lemma_distinct_rest(order);
    if select_all(rest, limits).deferred {
        let i = lemma_deferred_is_left(rest, limits);
        assert(rest[i] == order[i]);
        lemma_later_picks_keep(order, limits, order[i].transient_id);
        i
    } else {
        let id = order.last().transient_id;
        if select_all(rest, limits).selected.contains(id) {
            law_selection_is_unhandled(rest, limits, id);
        }
        order.len() - 1
    }
}

/// Bytes that the candidates named in `ids` take in a transfer, each with the
/// sixteen bytes around it.
pub open spec fn bytes_named(
    order: Seq<SyncOfferCandidateSnapshot>,
    ids: Seq<PropagationTransientId>,
) -> nat
    decreases order.len(),
{
    if order.len() == 0 {
        0
    } else {
        let rest = bytes_named(order.drop_last(), ids);
        if ids.contains(order.last().transient_id) {
            rest + order.last().size as nat + 16
        } else {
            rest
        }
    }
}

/// Only what is named counts.
proof fn lemma_bytes_named(
    order: Seq<SyncOfferCandidateSnapshot>,
    ids: Seq<PropagationTransientId>,
    others: Seq<PropagationTransientId>,
)
    requires
        forall|i: int|
            0 <= i < order.len() ==> ids.contains((#[trigger] order[i]).transient_id)
                == others.contains(order[i].transient_id),
    ensures
        bytes_named(order, ids) == bytes_named(order, others),
    decreases order.len(),
{
    if order.len() > 0 {
        let rest = order.drop_last();
        assert forall|i: int| 0 <= i < rest.len() implies ids.contains(
            (#[trigger] rest[i]).transient_id,
        ) == others.contains(rest[i].transient_id) by {
            assert(rest[i] == order[i]);
        }
        lemma_bytes_named(rest, ids, others);
        assert(order.last() == order[order.len() - 1]);
    }
}

/// What is counted of an offer is what its messages take, as long as the sync has
/// a limit.
proof fn lemma_counted_bytes(order: Seq<SyncOfferCandidateSnapshot>, limits: OfferLimits)
    requires
        distinct_ids(order),
        limits.sync_limit is Some,
    ensures
        select_all(order, limits).cumulative == 24 + bytes_named(
            order,
            select_all(order, limits).selected,
        ),
    decreases order.len(),
{
    if order.len() > 0 {
        let rest = order.drop_last();
        let before = select_all(rest, limits);
        let after = select_all(order, limits);
        let last = order.last();
        lemma_distinct_rest(order);
        lemma_counted_bytes(rest, limits);
        assert forall|i: int| 0 <= i < rest.len() implies before.selected.contains(
            (#[trigger] rest[i]).transient_id,
        ) == after.selected.contains(rest[i].transient_id) by {
            assert(rest[i] == order[i]);
            lemma_later_picks_keep(order, limits, rest[i].transient_id);
        }
        lemma_bytes_named(rest, before.selected, after.selected);
        if before.selected.contains(last.transient_id) {
            law_selection_is_unhandled(rest, limits, last.transient_id);
        }
        if after.selected.len() > before.selected.len() {
            assert(after.selected[before.selected.len() as int] == last.transient_id);
        } else {
            assert(after.selected == before.selected);
        }
    }
}

/// The messages of an offer, each with sixteen bytes around it, and the
/// twenty-four bytes around them all stay below what the peer takes in a sync.
pub proof fn law_offer_stays_below_sync_limit(
    order: Seq<SyncOfferCandidateSnapshot>,
    limits: OfferLimits,
)
    requires
        distinct_ids(order),
        select_all(order, limits).selected.len() > 0,
    ensures
        limits.sync_limit matches Some(limit) ==> 24 + bytes_named(
            order,
            select_all(order, limits).selected,
        ) < limit,
{
    if limits.sync_limit is Some {
        law_selection_below_sync_limit(order, limits);
        lemma_counted_bytes(order, limits);
    }
}

/// Bytes that the first `n` candidates take in a transfer.
pub open spec fn bytes_up_to(order: Seq<SyncOfferCandidateSnapshot>, n: int) -> nat
    decreases n,
{
    if n <= 0 {
        0
    } else {
        bytes_up_to(order, n - 1) + order[n - 1].size as nat + 16
    }
}

/// The first candidates of a longer list take the same.
proof fn lemma_bytes_up_to(order: Seq<SyncOfferCandidateSnapshot>, n: int)
    requires
        0 <= n <= order.len() - 1,
    ensures
        bytes_up_to(order, n) == bytes_up_to(order.drop_last(), n),
    decreases n,
{
    if n > 0 {
        lemma_bytes_up_to(order, n - 1);
        assert(order.drop_last()[n - 1] == order[n - 1]);
    }
}

/// An offer never counts more than all the candidates that it went through.
proof fn lemma_counted_at_most(order: Seq<SyncOfferCandidateSnapshot>, limits: OfferLimits)
    ensures
        select_all(order, limits).cumulative <= 24 + bytes_up_to(order, order.len() as int),
    decreases order.len(),
{
    if order.len() > 0 {
        lemma_counted_at_most(order.drop_last(), limits);
        lemma_bytes_up_to(order, order.len() - 1);
    }
}

/// No message is kept back that fits with everything before it: what the peer
/// lacks and would take is offered where all messages up to it stay below the
/// limit of a sync.
pub proof fn law_what_fits_is_offered(
    order: Seq<SyncOfferCandidateSnapshot>,
    limits: OfferLimits,
    i: int,
)
    requires
        distinct_ids(order),
        0 <= i < order.len(),
        !limits.handled.contains(order[i].transient_id),
        order[i].stamp_value >= limits.minimum_stamp_cost,
        limits.transfer_limit matches Some(limit) ==> order[i].size + 16 <= limit,
        limits.sync_limit matches Some(limit) ==> 24 + bytes_up_to(order, i + 1) < limit,
    ensures
        select_all(order, limits).selected.contains(order[i].transient_id),
    decreases order.len(),
{
    let rest = order.drop_last();
    let id = order[i].transient_id;
    lemma_distinct_rest(order);
    if i == order.len() - 1 {
        lemma_counted_at_most(rest, limits);
        lemma_bytes_up_to(order, i);
        let before = select_all(rest, limits);
        let after = select_all(order, limits);
        assert(after.selected[before.selected.len() as int] == id);
    } else {
        assert(rest[i] == order[i]);
        lemma_bytes_up_to(order, i + 1);
        law_what_fits_is_offered(rest, limits, i);
        lemma_later_picks_keep(order, limits, id);
    }
}

/// Where the message at a place of an offer stood among the candidates.
proof fn lemma_place_of(
    order: Seq<SyncOfferCandidateSnapshot>,
    limits: OfferLimits,
    p: int,
) -> (i: int)
    requires
        0 <= p < select_all(order, limits).selected.len(),
    ensures
        0 <= i < order.len(),
        order[i].transient_id == select_all(order, limits).selected[p],
    decreases order.len(),
{
    let rest = order.drop_last();
    let before = select_all(rest, limits);
    if p < before.selected.len() {
        let i = lemma_place_of(rest, limits, p);
        assert(rest[i] == order[i]);
        i
    } else {
        order.len() - 1
    }
}

/// Lighter messages are offered before heavier ones, and of messages that weigh
/// the same the one with the lesser identifier.
pub proof fn law_lighter_messages_first(
    order: Seq<SyncOfferCandidateSnapshot>,
    limits: OfferLimits,
    p: int,
    q: int,
)
    requires
        in_offer_order(order),
        0 <= p < q < select_all(order, limits).selected.len(),
    ensures
        ({
            let offered = select_all(order, limits).selected;
            exists|i: int, j: int|
                #![trigger order[i], order[j]]
                0 <= i < j < order.len() && order[i].transient_id == offered[p]
                    && order[j].transient_id == offered[q] && order[i].weight <= order[j].weight
                    && (order[i].weight == order[j].weight ==> !bytes_less(
                    offered[q]@,
                    offered[p]@,
                ))
        }),
    decreases order.len(),
{
    let rest = order.drop_last();
    let before = select_all(rest, limits);
    let offered = select_all(order, limits).selected;
    if q < before.selected.len() {
        assert forall|i: int, j: int| 0 <= i < j < rest.len() implies !offered_before(
            #[trigger] rest[j],
            #[trigger] rest[i],
        ) by {
            assert(rest[j] == order[j] && rest[i] == order[i]);
        }
        law_lighter_messages_first(rest, limits, p, q);
        let (i, j) = choose|i: int, j: int|
            #![trigger rest[i], rest[j]]
            0 <= i < j < rest.len() && rest[i].transient_id == before.selected[p]
                && rest[j].transient_id == before.selected[q] && rest[i].weight <= rest[j].weight
                && (rest[i].weight == rest[j].weight ==> !bytes_less(
                before.selected[q]@,
                before.selected[p]@,
            ));
        assert(rest[i] == order[i] && rest[j] == order[j]);
    } else {
        let i = lemma_place_of(rest, limits, p);
        let j = order.len() - 1;
        assert(rest[i] == order[i]);
        assert(!offered_before(order[j], order[i]));
        assert(order[i].transient_id == offered[p] && order[j].transient_id == offered[q]);
    }
}

/// Bytes compare like words in a dictionary: by the first byte, and where it is
/// the same by the rest.
pub proof fn law_bytes_compare_from_the_front(left: Seq<u8>, right: Seq<u8>)
    requires
        left.len() > 0,
        right.len() > 0,
    ensures
        left[0] < right[0] ==> bytes_less(left, right),
        left[0] > right[0] ==> !bytes_less(left, right),
        left[0] == right[0] ==> bytes_less(left, right) == bytes_less(left.skip(1), right.skip(1)),
{
    let (l, r) = (left.skip(1), right.skip(1));
    if left[0] < right[0] {
        assert(first_difference(left, right, 0));
    }
    if left[0] == right[0] {
        if bytes_less(left, right) {
            let k = choose|k: int| first_difference(left, right, k) && left[k] < right[k];
            assert forall|j: int| 0 <= j < k - 1 implies l[j] == r[j] by {
                assert(left[j + 1] == right[j + 1]);
            }
            assert(first_difference(l, r, k - 1) && l[k - 1] < r[k - 1]);
        }
        if bytes_less(l, r) {
            let k = choose|k: int| first_difference(l, r, k) && l[k] < r[k];
            assert forall|j: int| 0 <= j < k + 1 implies left[j] == right[j] by {
                if j > 0 {
                    assert(l[j - 1] == r[j - 1]);
                }
            }
            assert(first_difference(left, right, k + 1) && left[k + 1] < right[k + 1]);
        }
    }
}

/// What is chosen from a snapshot goes by its policy: a message counts as held where the
/// policy or the peer's file says so, and the limits are the policy's.
pub proof fn law_snapshot_goes_by_its_policy(
    snapshot: SyncOfferPreparationSnapshot,
    persisted: Seq<PropagationTransientId>,
    id: PropagationTransientId,
)
    ensures
        ({
            let limits = snapshot.limits(persisted);
            &&& limits.handled.contains(id) <==> snapshot.policy.handled_messages@.contains(id)
                || persisted.contains(id)
            &&& limits.minimum_stamp_cost == snapshot.policy.minimum_stamp_cost
            &&& limits.transfer_limit == snapshot.policy.propagation_transfer_limit
            &&& limits.sync_limit == snapshot.policy.propagation_sync_limit
        }),
{
}

/// A session starts with nothing offered and nothing transferred, and counts transfers
/// one by one.
pub proof fn law_sessions_count(peer_hash: DestinationHash, session: SessionView)
    ensures
        fresh_session(peer_hash).peer_hash == peer_hash,
        fresh_session(peer_hash).offered_ids.len() == 0,
        fresh_session(peer_hash).transferred == 0,
        !fresh_session(peer_hash).complete,
        session.transferred < u64::MAX ==> session.after_transfer() == (SessionView {
            transferred: (session.transferred + 1) as u64,
            ..session
        }),
{
}

/// A message that the peer lacks and would take is kept back only where it does not fit with
/// what is offered before it. So a large message keeps back no smaller one behind it.
pub proof fn law_only_what_does_not_fit_waits(
    order: Seq<SyncOfferCandidateSnapshot>,
    limits: OfferLimits,
    i: int,
    limit: usize,
)
    requires
        distinct_ids(order),
        0 <= i < order.len(),
        limits.sync_limit == Some(limit),
        !limits.handled.contains(order[i].transient_id),
        order[i].stamp_value >= limits.minimum_stamp_cost,
        limits.transfer_limit matches Some(most) ==> order[i].size + 16 <= most,
    ensures
        select_all(order, limits).selected.contains(order[i].transient_id) <==> 24 + bytes_named(
            order.take(i),
            select_all(order, limits).selected,
        ) + order[i].size + 16 < limit,
    decreases order.len(),
{
    let rest = order.drop_last();
    let before = select_all(rest, limits);
    let after = select_all(order, limits);
    let id = order[i].transient_id;
    lemma_distinct_rest(order);
    assert forall|j: int| 0 <= j < rest.len() implies before.selected.contains(
        (#[trigger] rest[j]).transient_id,
    ) == after.selected.contains(rest[j].transient_id) by {
        assert(rest[j] == order[j]);
        lemma_later_picks_keep(order, limits, rest[j].transient_id);
    }
    if i == order.len() - 1 {
        assert(order.take(i) =~= rest);
        lemma_counted_bytes(rest, limits);
        lemma_bytes_named(rest, before.selected, after.selected);
        if before.selected.contains(id) {
            law_selection_is_unhandled(rest, limits, id);
        }
        if after.selected.len() > before.selected.len() {
            assert(after.selected[before.selected.len() as int] == id);
        } else {
            assert(after.selected == before.selected);
        }
    } else {
        assert(rest[i] == order[i]);
        law_only_what_does_not_fit_waits(rest, limits, i, limit);
        lemma_later_picks_keep(order, limits, id);
        let front = order.take(i);
        assert(rest.take(i) =~= front);
        assert forall|j: int| 0 <= j < front.len() implies before.selected.contains(
            (#[trigger] front[j]).transient_id,
        ) == after.selected.contains(front[j].transient_id) by {
            assert(front[j] == rest[j]);
        }
        lemma_bytes_named(front, before.selected, after.selected);
    }
}

} // verus!
