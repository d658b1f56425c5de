//! Peers: their keys, their turns to be synced with, and what is counted of
//! them.

use vstd::prelude::*;
use crate::daemon::identities::recall_identity_hash;
#[allow(unused_imports)]
use crate::daemon::identities::recalled;
use crate::daemon::turns::round_robin_peer_order;
#[allow(unused_imports)]
use crate::daemon::turns::{
    is_sorted, is_turn_order, law_everyone_has_a_place, lemma_sorted_set, strictly_ascending,
    turn_order,
};
use crate::ids::{append_bytes, DestinationHash};
use crate::peer::LxmPeer;
#[allow(unused_imports)]
use crate::peer::PeerView;
use crate::stamper::{generate_stamp, STAMP_WORKBLOCK_EXPAND_ROUNDS_PEERING};
#[allow(unused_imports)]
use crate::stamper::peering_key_valid;
use crate::sync::OutboundOfferPolicy;
use crate::sync_task::events::KnownIdentities;
#[allow(unused_imports)]
use crate::sync_task::offer::{is_made_key, peering_id_of};
use crate::tables::{PeerMap, PeerSet};

verus! {

/// Seconds until the next try after a sync with a peer could not be made.
pub const SYNC_BACKOFF_STEP: u64 = 720;

/// What became of a search for a peering key.
#[derive(Debug, Clone, Copy)]
pub struct PeeringKeyWorkerResult {
    pub peer_hash: DestinationHash,
    pub peering_cost: u8,
    pub peering_key: Option<([u8; 32], u32)>,
}

/// Searches a peering key: a stamp over the peer's identity followed by the
/// node's own.
pub fn generate_peering_key_job(
    peer_hash: DestinationHash,
    peering_cost: u8,
    peer_identity_hash: DestinationHash,
    local_identity_hash: DestinationHash,
) -> (result: PeeringKeyWorkerResult)
    ensures
        result.peer_hash == peer_hash,
        result.peering_cost == peering_cost,
        ({
            let peering_id = peering_id_of(peer_identity_hash, local_identity_hash);
            match result.peering_key {
                Some((key, value)) => value >= peering_cost && is_made_key(
                    peering_id,
                    peering_cost,
                    key@,
                ) && peering_key_valid(peering_id, key@, peering_cost),
                None => is_made_key(peering_id, peering_cost, Seq::empty()),
            }
        }),
{
    let mut peering_id: Vec<u8> = Vec::new();
    append_bytes(&mut peering_id, &peer_identity_hash);
    append_bytes(&mut peering_id, &local_identity_hash);
    assert(peering_id@ =~= peering_id_of(peer_identity_hash, local_identity_hash));
    let peering_key = generate_stamp(
        peering_id.as_slice(),
        peering_cost,
        STAMP_WORKBLOCK_EXPAND_ROUNDS_PEERING,
    );
    PeeringKeyWorkerResult { peer_hash, peering_cost, peering_key }
}

/// Something that happened to a peer, for those who keep its history.
#[derive(Debug, Clone, Copy, PartialEq, Eq, Structural)]
pub enum PeerNotice {
    /// The peer was heard from.
    Heard,
    /// A sync with the peer began.
    SyncBegun,
    /// A sync with the peer is complete.
    SyncComplete,
    /// A sync with the peer failed.
    SyncFailed,
    /// Nothing of this revision of the store is left to offer the peer.
    GenerationProcessed(u64),
}

/// A search for a peering key that is to be made.
#[derive(Debug, Clone, Copy)]
pub struct KeyJob {
    pub peer_hash: DestinationHash,
    pub peering_cost: u8,
    pub peer_identity_hash: DestinationHash,
}

/// What a [`KeyJob`] says.
pub struct KeyJobView {
    pub peer_hash: DestinationHash,
    pub peering_cost: u8,
    pub peer_identity_hash: Seq<u8>,
}

impl View for KeyJob {
    type V = KeyJobView;

    open spec fn view(&self) -> KeyJobView {
        KeyJobView {
            peer_hash: self.peer_hash,
            peering_cost: self.peering_cost,
            peer_identity_hash: self.peer_identity_hash@,
        }
    }
}

/// What a list of jobs says.
pub open spec fn job_views(jobs: Seq<KeyJob>) -> Seq<KeyJobView> {
    Seq::new(jobs.len(), |i: int| jobs[i]@)
}

/// Peers that wait to be synced with.
#[derive(Debug)]
pub struct PeerScheduler {
    /// Peers that wait.
    pub pending_peer_syncs: PeerSet,
    /// Peers for which a key is being searched.
    pub peering_key_jobs: PeerSet,
    /// The peer that had the last turn.
    pub peer_sync_cursor: Option<DestinationHash>,
}

/// What a [`PeerScheduler`] holds.
#[verifier::ext_equal]
pub struct SchedulerView {
    pub pending: Set<DestinationHash>,
    pub jobs: Set<DestinationHash>,
    pub cursor: Option<DestinationHash>,
}

impl View for PeerScheduler {
    type V = SchedulerView;

    open spec fn view(&self) -> SchedulerView {
        SchedulerView {
            pending: self.pending_peer_syncs@,
            jobs: self.peering_key_jobs@,
            cursor: self.peer_sync_cursor,
        }
    }
}

/// A round of turns: what it does to the scheduler, the keys that are to be
/// searched, and the peer whose turn it is.
#[verifier::ext_equal]
pub struct Round {
    pub scheduler: SchedulerView,
    pub started: Seq<KeyJobView>,
    pub chosen: Option<DestinationHash>,
}

/// The peers among which turns are taken: the responsive ones that wait, or all
/// that wait where none is responsive.
pub open spec fn takes_turns(pending: Set<DestinationHash>, peers: Map<DestinationHash, PeerView>) -> Set<
    DestinationHash,
> {
    let live = pending.filter(|peer: DestinationHash| is_live(peers, peer));
    if exists|peer: DestinationHash| #[trigger] live.contains(peer) {
        live
    } else {
        pending
    }
}

/// The peer is known and answered lately.
pub open spec fn is_live(peers: Map<DestinationHash, PeerView>, peer: DestinationHash) -> bool {
    peers.contains_key(peer) && peers[peer].alive
}

impl Round {
    /// The round after one more peer was looked at. A peer whose identity or
    /// stamp costs are not known is passed over. One without a key has one
    /// searched. One that is gone waits no more.
    pub open spec fn looked_at(
        self,
        peer: DestinationHash,
        peers: Map<DestinationHash, PeerView>,
        known: Map<DestinationHash, Seq<u8>>,
    ) -> Round {
        match recalled(known, peer) {
            None => self,
            Some(identity) => if !peers.contains_key(peer) {
                if self.scheduler.jobs.contains(peer) {
                    self
                } else {
                    Round {
                        scheduler: SchedulerView {
                            pending: self.scheduler.pending.remove(peer),
                            ..self.scheduler
                        },
                        ..self
                    }
                }
            } else if peers[peer].is_ready() {
                Round { chosen: Some(peer), ..self }
            } else if !peers[peer].knows_stamp_costs() || self.scheduler.jobs.contains(peer) {
                self
            } else {
                Round {
                    scheduler: SchedulerView {
                        jobs: self.scheduler.jobs.insert(peer),
                        ..self.scheduler
                    },
                    started: self.started.push(
                        KeyJobView {
                            peer_hash: peer,
                            peering_cost: peers[peer].peering_cost,
                            peer_identity_hash: identity,
                        },
                    ),
                    ..self
                }
            },
        }
    }

    /// The round after the peers in `order` up to `n` were looked at. It is over
    /// with the first peer that can be synced with.
    pub open spec fn after(
        self,
        order: Seq<DestinationHash>,
        n: int,
        peers: Map<DestinationHash, PeerView>,
        known: Map<DestinationHash, Seq<u8>>,
    ) -> Round
        decreases n,
    {
        if n <= 0 {
            self
        } else {
            let before = self.after(order, n - 1, peers, known);
            if before.chosen is Some {
                before
            } else {
                before.looked_at(order[n - 1], peers, known)
            }
        }
    }
}

impl PeerScheduler {
    /// Nobody waits.
    pub fn new() -> (scheduler: Self)
        ensures
            scheduler@ == (SchedulerView {
                pending: Set::empty(),
                jobs: Set::empty(),
                cursor: None,
            }),
    {
        PeerScheduler {
            pending_peer_syncs: PeerSet::new(),
            peering_key_jobs: PeerSet::new(),
            peer_sync_cursor: None,
        }
    }

    /// The peers that take turns, as a list.
    fn turn_takers(&self, peers: &PeerMap<LxmPeer>) -> (list: Vec<DestinationHash>)
        ensures
            list@.no_duplicates(),
            list@.to_set() == takes_turns(self@.pending, peers@),
    {
        let all = self.pending_peer_syncs.to_vec();
        let ghost alive = |peer: DestinationHash| is_live(peers@, peer);
        let mut live: Vec<DestinationHash> = Vec::new();
        let mut i: usize = 0;
        while i < all.len()
            invariant
                i <= all@.len(),
                all@.no_duplicates(),
                live@.no_duplicates(),
                forall|k: int|
                    0 <= k < live@.len() ==> all@.take(i as int).contains(#[trigger] live@[k])
                        && is_live(peers@, live@[k]),
                forall|j: int|
                    0 <= j < i && is_live(peers@, #[trigger] all@[j]) ==> live@.contains(all@[j]),
            decreases all@.len() - i,
        {
            let peer: DestinationHash = all[i];
            let is_alive: bool = match peers.get(&peer) {
                Some(peer) => peer.alive,
                None => false,
            };
            let ghost before = live@;
            let ghost taken = all@.take(i as int);
            let ghost grown = all@.take(i + 1);
            proof {
                assert(grown =~= taken.push(peer));
                assert forall|k: int| 0 <= k < before.len() implies grown.contains(
                    #[trigger] before[k],
                ) by {
                    let j = choose|j: int| 0 <= j < taken.len() && taken[j] == before[k];
                    assert(grown[j] == before[k]);
                }
                assert(!before.contains(peer)) by {
                    if before.contains(peer) {
                        let k = choose|k: int| 0 <= k < before.len() && before[k] == peer;
                        let j = choose|j: int| 0 <= j < taken.len() && taken[j] == before[k];
                        assert(all@[j] == all@[i as int]);
                    }
                }
                assert(grown[i as int] == peer);
            }
            if is_alive {
                live.push(peer);
                assert(live@[before.len() as int] == peer);
                assert forall|j: int|
                    0 <= j < i && is_live(peers@, #[trigger] all@[j]) implies live@.contains(
                    all@[j],
                ) by {
                    let k = choose|k: int| 0 <= k < before.len() && before[k] == all@[j];
                    assert(live@[k] == all@[j]);
                }
            }
            i = i + 1;
        }
        proof {
            let set = self@.pending.filter(alive);
            assert(all@.take(i as int) =~= all@);
            assert forall|peer: DestinationHash| #[trigger] live@.to_set().contains(peer)
                <==> set.contains(peer) by {
                if live@.contains(peer) {
                    let k = choose|k: int| 0 <= k < live@.len() && live@[k] == peer;
                    assert(all@.contains(peer));
                    assert(all@.to_set().contains(peer));
                }
                if set.contains(peer) {
                    assert(all@.to_set().contains(peer));
                    let j = choose|j: int| 0 <= j < all@.len() && all@[j] == peer;
                    assert(is_live(peers@, all@[j]));
                }
            }
            assert(live@.to_set() =~= set);
            if live@.len() > 0 {
                assert(live@.to_set().contains(live@[0]));
            }
        }
        if live.len() > 0 {
            live
        } else {
            all
        }
    }

    /// Goes through the peers that wait, in the order of their turns, until one
    /// can be synced with. Gives the keys that are to be searched, and the
    /// policy of the peer whose turn it is.
    pub fn drive_pending_peer_syncs(
        &mut self,
        peers: &PeerMap<LxmPeer>,
        known: &KnownIdentities,
    ) -> (round: (Vec<KeyJob>, Option<OutboundOfferPolicy>))
        ensures
            exists|order: Seq<DestinationHash>| #[trigger]
                is_turn_order(takes_turns(old(self)@.pending, peers@), old(self)@.cursor, order)
                    && is_round(
                    (Round { scheduler: old(self)@, started: Seq::empty(), chosen: None }).after(
                        order,
                        order.len() as int,
                        peers@,
                        known@,
                    ),
                    peers@,
                    final(self)@,
                    round,
                ),
    {
        let list = self.turn_takers(peers);
        let order = round_robin_peer_order(list, self.peer_sync_cursor);
        let ghost start = Round { scheduler: self@, started: Seq::empty(), chosen: None };
        proof {
            let sorted = choose|sorted: Seq<DestinationHash>| #[trigger]
                is_sorted(list@, sorted) && order@ == turn_order(sorted, self@.cursor);
            lemma_sorted_set(list@, sorted);
            assert(strictly_ascending(sorted));
            assert(is_turn_order(
                takes_turns(old(self)@.pending, peers@),
                old(self)@.cursor,
                order@,
            ));
        }
        let mut started: Vec<KeyJob> = Vec::new();
        let mut i: usize = 0;
        assert(job_views(started@) =~= Seq::empty());
        while i < order.len()
            invariant
                i <= order@.len(),
                start.after(order@, i as int, peers@, known@) == (Round {
                    scheduler: self@,
                    started: job_views(started@),
                    chosen: None,
                }),
                start == (Round {
                    scheduler: old(self)@,
                    started: Seq::empty(),
                    chosen: None,
                }),
                is_turn_order(
                    takes_turns(old(self)@.pending, peers@),
                    old(self)@.cursor,
                    order@,
                ),
            decreases order@.len() - i,
        {
            let peer_hash: DestinationHash = order[i];
            i = i + 1;
            if let Some(peer_identity_hash) = recall_identity_hash(known, &peer_hash) {
                match peers.get(&peer_hash) {
                    Some(peer) => {
                        if peer.stamp_costs_known() {
                            if peer.peering_cost == 0 || peer.peering_key_ready() {
                                let policy = peer.policy();
                                proof {
                                    lemma_round_over(
                                        start,
                                        order@,
                                        i as int,
                                        order@.len() as int,
                                        peers@,
                                        known@,
                                    );
                                }
                                return (started, Some(policy));
                            }
                            if !self.peering_key_jobs.contains(&peer_hash) {
                                let ghost jobs = started@;
                                self.peering_key_jobs.insert(peer_hash);
                                started.push(
                                    KeyJob {
                                        peer_hash,
                                        peering_cost: peer.peering_cost,
                                        peer_identity_hash,
                                    },
                                );
                                assert(job_views(started@) =~= job_views(jobs).push(
                                    started@[jobs.len() as int]@,
                                ));
                            }
                        }
                    },
                    None => {
                        if !self.peering_key_jobs.contains(&peer_hash) {
                            self.pending_peer_syncs.remove(&peer_hash);
                        }
                    },
                }
            }
        }
        (started, None)
    }

    /// Gives the peers that wait their turns while no sync is under way. While
    /// one is, nothing is done.
    pub fn drive_peer_syncs_when_idle(
        &mut self,
        idle: bool,
        peers: &PeerMap<LxmPeer>,
        known: &KnownIdentities,
    ) -> (round: (Vec<KeyJob>, Option<OutboundOfferPolicy>))
        ensures
            !idle ==> final(self)@ == old(self)@ && round.0@.len() == 0 && round.1 is None,
            idle ==> exists|order: Seq<DestinationHash>| #[trigger]
                is_turn_order(takes_turns(old(self)@.pending, peers@), old(self)@.cursor, order)
                    && is_round(
                    (Round { scheduler: old(self)@, started: Seq::empty(), chosen: None }).after(
                        order,
                        order.len() as int,
                        peers@,
                        known@,
                    ),
                    peers@,
                    final(self)@,
                    round,
                ),
    {
        if !idle {
            return (Vec::new(), None);
        }
        self.drive_pending_peer_syncs(peers, known)
    }

    /// Notes whether the sync with the peer whose turn it was started.
    pub fn peer_sync_requested(&mut self, peer_hash: DestinationHash, started: bool) -> (notice:
        Option<PeerNotice>)
        ensures
            final(self)@ == (if started {
                SchedulerView {
                    pending: old(self)@.pending.remove(peer_hash),
                    cursor: Some(peer_hash),
                    ..old(self)@
                }
            } else {
                old(self)@
            }),
            notice == (if started {
                Some(PeerNotice::SyncBegun)
            } else {
                None
            }),
    {
        if !started {
            return None;
        }
        self.pending_peer_syncs.remove(&peer_hash);
        self.peer_sync_cursor = Some(peer_hash);
        Some(PeerNotice::SyncBegun)
    }

    /// Lets peers wait for a sync.
    pub fn queue_due_peer_syncs(&mut self, due: &[DestinationHash])
        ensures
            final(self)@ == (SchedulerView {
                pending: old(self)@.pending.union(due@.to_set()),
                ..old(self)@
            }),
    {
        self.pending_peer_syncs.extend(due);
    }
}

/// `result` and `scheduler` are what a round came to.
pub open spec fn is_round(
    round: Round,
    peers: Map<DestinationHash, PeerView>,
    scheduler: SchedulerView,
    result: (Vec<KeyJob>, Option<OutboundOfferPolicy>),
) -> bool {
    &&& scheduler == round.scheduler
    &&& job_views(result.0@) == round.started
    &&& match (round.chosen, result.1) {
        (Some(peer), Some(policy)) => peers[peer].is_policy(policy),
        (None, None) => true,
        _ => false,
    }
}

/// Once a peer has its turn, the round goes no further.
proof fn lemma_round_over(
    start: Round,
    order: Seq<DestinationHash>,
    n: int,
    m: int,
    peers: Map<DestinationHash, PeerView>,
    known: Map<DestinationHash, Seq<u8>>,
)
    requires
        0 <= n <= m,
        start.after(order, n, peers, known).chosen is Some,
    ensures
        start.after(order, m, peers, known) == start.after(order, n, peers, known),
    decreases m - n,
{
    if n < m {
        lemma_round_over(start, order, n, m - 1, peers, known);
    }
}

/// While a responsive peer waits, the responsive peers that wait take turns and
/// nobody else; while none does, all that wait take turns.
pub proof fn law_responsive_peers_first(
    pending: Set<DestinationHash>,
    peers: Map<DestinationHash, PeerView>,
    peer: DestinationHash,
)
    ensures
        takes_turns(pending, peers).contains(peer) <==> pending.contains(peer) && ((
        peers.contains_key(peer) && peers[peer].alive) || forall|other: DestinationHash| #[trigger]
            pending.contains(other) && peers.contains_key(other) ==> !peers[other].alive),
{
    let live = pending.filter(|peer: DestinationHash| is_live(peers, peer));
    if exists|other: DestinationHash| #[trigger]
        pending.contains(other) && peers.contains_key(other) && peers[other].alive {
        let other = choose|other: DestinationHash| #[trigger]
            pending.contains(other) && peers.contains_key(other) && peers[other].alive;
        assert(live.contains(other));
    }
}

/// A sync with the peer can be made now: its identity and the costs of its stamps
/// are known, and it asks for no peering key or has one that is worth enough.
pub open spec fn can_sync_now(
    peers: Map<DestinationHash, PeerView>,
    known: Map<DestinationHash, Seq<u8>>,
    peer: DestinationHash,
) -> bool {
    &&& known.contains_key(peer)
    &&& peers.contains_key(peer)
    &&& peers[peer].stamp_cost is Some
    &&& peers[peer].stamp_cost_flexibility is Some
    &&& peers[peer].peering_cost == 0 || (peers[peer].peering_key matches Some((_, value)) && value
        >= peers[peer].peering_cost)
}

/// The turn goes to the first peer in order that can be synced with; where there
/// is none, to nobody.
pub proof fn law_turn_goes_to_the_first_that_can(
    scheduler: SchedulerView,
    order: Seq<DestinationHash>,
    n: int,
    peers: Map<DestinationHash, PeerView>,
    known: Map<DestinationHash, Seq<u8>>,
)
    requires
        0 <= n <= order.len(),
    ensures
        match (Round { scheduler, started: Seq::empty(), chosen: None }).after(
            order,
            n,
            peers,
            known,
        ).chosen {
            Some(peer) => exists|i: int|
                0 <= i < n && #[trigger] order[i] == peer && can_sync_now(peers, known, peer)
                    && forall|j: int|
                    0 <= j < i ==> !can_sync_now(peers, known, #[trigger] order[j]),
            None => forall|i: int| 0 <= i < n ==> !can_sync_now(peers, known, #[trigger] order[i]),
        },
    decreases n,
{
    if n > 0 {
        law_turn_goes_to_the_first_that_can(scheduler, order, n - 1, peers, known);
        let start = Round { scheduler, started: Seq::empty(), chosen: None };
        let before = start.after(order, n - 1, peers, known);
        if before.chosen is None && start.after(order, n, peers, known).chosen is Some {
            assert(order[n - 1] == start.after(order, n, peers, known).chosen->0);
        }
    }
}

/// What a round does to those that have no turn: no peer that is known stops
/// waiting, a search for a key is never given up or begun twice, and it is begun
/// only for a peer that waits, whose stamps' costs are known and whose key is
/// missing or not worth what peering costs. The search is for the peer's own
/// identity and for what peering with it costs.
pub proof fn law_round_searches_missing_keys(
    scheduler: SchedulerView,
    order: Seq<DestinationHash>,
    n: int,
    peers: Map<DestinationHash, PeerView>,
    known: Map<DestinationHash, Seq<u8>>,
)
    requires
        0 <= n <= order.len(),
    ensures
        ({
            let round = (Round { scheduler, started: Seq::empty(), chosen: None }).after(
                order,
                n,
                peers,
                known,
            );
            &&& round.scheduler.cursor == scheduler.cursor
            &&& forall|peer: DestinationHash| #[trigger]
                round.scheduler.pending.contains(peer) ==> scheduler.pending.contains(peer)
            &&& forall|peer: DestinationHash|
                scheduler.pending.contains(peer) && #[trigger] peers.contains_key(peer)
                    ==> round.scheduler.pending.contains(peer)
            &&& forall|peer: DestinationHash| #[trigger]
                scheduler.jobs.contains(peer) ==> round.scheduler.jobs.contains(peer)
            &&& forall|k: int|
                0 <= k < round.started.len() ==> {
                    let job = #[trigger] round.started[k];
                    let peer = peers[job.peer_hash];
                    &&& order.take(n).contains(job.peer_hash)
                    &&& !scheduler.jobs.contains(job.peer_hash)
                    &&& round.scheduler.jobs.contains(job.peer_hash)
                    &&& peers.contains_key(job.peer_hash) && known.contains_key(job.peer_hash)
                    &&& peer.stamp_cost is Some && peer.stamp_cost_flexibility is Some
                    &&& peer.peering_cost > 0 && (peer.peering_key matches Some((_, value)) ==> value
                        < peer.peering_cost)
                    &&& job.peering_cost == peer.peering_cost
                    &&& Some(job.peer_identity_hash) == recalled(known, job.peer_hash)
                }
            &&& forall|i: int, j: int|
                0 <= i < j < round.started.len() ==> (#[trigger] round.started[i]).peer_hash != (
                #[trigger] round.started[j]).peer_hash
        }),
    decreases n,
{
    if n > 0 {
        law_round_searches_missing_keys(scheduler, order, n - 1, peers, known);
        let start = Round { scheduler, started: Seq::empty(), chosen: None };
        let before = start.after(order, n - 1, peers, known);
        let after = start.after(order, n, peers, known);
        assert(order.take(n) =~= order.take(n - 1).push(order[n - 1]));
        assert(order.take(n)[n - 1] == order[n - 1]);
        assert forall|k: int| 0 <= k < before.started.len() implies order.take(n).contains(
            (#[trigger] before.started[k]).peer_hash,
        ) by {
            let peer = before.started[k].peer_hash;
            let looked = order.take(n - 1);
            let i = choose|i: int| 0 <= i < looked.len() && looked[i] == peer;
            assert(order.take(n)[i] == peer);
        }
        assert forall|k: int| 0 <= k < before.started.len() implies #[trigger] after.started[k]
            == before.started[k] by {}
    }
}

/// While a responsive peer waits that can be synced with, a responsive peer that
/// waits and can be synced with has the turn; what it is offered goes by what is
/// kept of that peer.
pub proof fn law_responsive_peer_has_the_turn(
    before: SchedulerView,
    after: SchedulerView,
    order: Seq<DestinationHash>,
    peers: Map<DestinationHash, PeerView>,
    known: Map<DestinationHash, Seq<u8>>,
    result: (Vec<KeyJob>, Option<OutboundOfferPolicy>),
    waiting: DestinationHash,
)
    requires
        is_turn_order(takes_turns(before.pending, peers), before.cursor, order),
        is_round(
            (Round { scheduler: before, started: Seq::empty(), chosen: None }).after(
                order,
                order.len() as int,
                peers,
                known,
            ),
            peers,
            after,
            result,
        ),
        before.pending.contains(waiting),
        peers.contains_key(waiting),
        peers[waiting].alive,
        can_sync_now(peers, known, waiting),
    ensures
        result.1 matches Some(policy) && exists|peer: DestinationHash| #[trigger]
            before.pending.contains(peer) && peers.contains_key(peer) && peers[peer].alive
                && can_sync_now(peers, known, peer) && policy.peer_hash
                == peers[peer].destination_hash && policy.handled_messages@ == peers[peer].handled,
{
    let sorted = choose|sorted: Seq<DestinationHash>| #[trigger]
        strictly_ascending(sorted) && sorted.to_set() == takes_turns(before.pending, peers)
            && order == turn_order(sorted, before.cursor);
    let n = order.len() as int;
    let round = (Round { scheduler: before, started: Seq::empty(), chosen: None }).after(
        order,
        n,
        peers,
        known,
    );
    law_turn_goes_to_the_first_that_can(before, order, n, peers, known);
    law_responsive_peers_first(before.pending, peers, waiting);
    law_everyone_has_a_place(sorted, before.cursor, waiting);
    assert(sorted.to_set().contains(waiting));
    assert(order.contains(waiting));
    let i = choose|i: int| 0 <= i < n && order[i] == waiting;
    assert(can_sync_now(peers, known, order[i]));
    let peer = round.chosen->0;
    law_everyone_has_a_place(sorted, before.cursor, peer);
    assert(order.contains(peer));
    assert(sorted.to_set().contains(peer));
    law_responsive_peers_first(before.pending, peers, peer);
    assert(before.pending.contains(peer));
}

/// A round leaves nobody out that it comes to before the turn is given: where a key is
/// missing and none is being searched, a search is begun; and who is no peer any more, though
/// its identity is known, waits no more.
pub proof fn law_round_leaves_nobody_out(
    scheduler: SchedulerView,
    order: Seq<DestinationHash>,
    n: int,
    peers: Map<DestinationHash, PeerView>,
    known: Map<DestinationHash, Seq<u8>>,
    i: int,
)
    requires
        0 <= i < n <= order.len(),
        forall|j: int| 0 <= j < i ==> !can_sync_now(peers, known, #[trigger] order[j]),
        known.contains_key(order[i]),
        !scheduler.jobs.contains(order[i]),
    ensures
        ({
            let round = (Round { scheduler, started: Seq::empty(), chosen: None }).after(
                order,
                n,
                peers,
                known,
            );
            let peer = peers[order[i]];
            &&& peers.contains_key(order[i]) && peer.stamp_cost is Some
                && peer.stamp_cost_flexibility is Some && !can_sync_now(peers, known, order[i])
                ==> round.scheduler.jobs.contains(order[i]) && exists|k: int|
                0 <= k < round.started.len() && (#[trigger] round.started[k]).peer_hash == order[i]
            &&& !peers.contains_key(order[i]) ==> !round.scheduler.pending.contains(order[i])
        }),
    decreases n,
{
    let start = Round { scheduler, started: Seq::empty(), chosen: None };
    let before = start.after(order, n - 1, peers, known);
    let after = start.after(order, n, peers, known);
    let wanted = order[i];
    law_turn_goes_to_the_first_that_can(scheduler, order, n - 1, peers, known);
    if i < n - 1 {
        law_round_leaves_nobody_out(scheduler, order, n - 1, peers, known, i);
        if exists|k: int|
            0 <= k < before.started.len() && (#[trigger] before.started[k]).peer_hash == wanted {
            let k = choose|k: int|
                0 <= k < before.started.len() && (#[trigger] before.started[k]).peer_hash == wanted;
            assert(after.started[k] == before.started[k]);
        }
    } else {
        assert(before.chosen is None) by {
            if before.chosen is Some {
                let j = choose|j: int|
                    0 <= j < n - 1 && #[trigger] order[j] == before.chosen->0 && can_sync_now(
                        peers,
                        known,
                        before.chosen->0,
                    );
                assert(!can_sync_now(peers, known, order[j]));
            }
        }
        lemma_jobs_are_started(scheduler, order, n - 1, peers, known, wanted);
        if before.scheduler.jobs.contains(wanted) {
            if exists|k: int|
                0 <= k < before.started.len() && (#[trigger] before.started[k]).peer_hash
                    == wanted {
                let k = choose|k: int|
                    0 <= k < before.started.len() && (#[trigger] before.started[k]).peer_hash
                        == wanted;
                assert(after.started[k] == before.started[k]);
            }
        } else if after.started.len() > before.started.len() {
            assert(after.started[before.started.len() as int].peer_hash == wanted);
        }
    }
}

/// A search that goes on after a round, and did not before, was begun in it.
proof fn lemma_jobs_are_started(
    scheduler: SchedulerView,
    order: Seq<DestinationHash>,
    n: int,
    peers: Map<DestinationHash, PeerView>,
    known: Map<DestinationHash, Seq<u8>>,
    peer: DestinationHash,
)
    requires
        0 <= n <= order.len(),
        !scheduler.jobs.contains(peer),
    ensures
        ({
            let round = (Round { scheduler, started: Seq::empty(), chosen: None }).after(
                order,
                n,
                peers,
                known,
            );
            round.scheduler.jobs.contains(peer) ==> peers.contains_key(peer) && exists|k: int|
                0 <= k < round.started.len() && (#[trigger] round.started[k]).peer_hash == peer
        }),
    decreases n,
{
    if n > 0 {
        lemma_jobs_are_started(scheduler, order, n - 1, peers, known, peer);
        let start = Round { scheduler, started: Seq::empty(), chosen: None };
        let before = start.after(order, n - 1, peers, known);
        let after = start.after(order, n, peers, known);
        if before.scheduler.jobs.contains(peer) {
            let k = choose|k: int|
                0 <= k < before.started.len() && (#[trigger] before.started[k]).peer_hash == peer;
            assert(after.started[k] == before.started[k]);
        } else if after.scheduler.jobs.contains(peer) {
            assert(after.started[before.started.len() as int].peer_hash == peer);
        }
    }
}

} // verus!
