//! What announces make known.

use vstd::prelude::*;
use crate::daemon::peering::PeerScheduler;
#[allow(unused_imports)]
use crate::daemon::peering::SchedulerView;
use crate::ids::{contains_id, same_id, DestinationHash};
#[allow(unused_imports)]
use crate::ids::lemma_id_from_view;
use crate::node::PropagationNode;
#[allow(unused_imports)]
use crate::node::{text_of, NodeView};
#[allow(unused_imports)]
use crate::node::peers::peer_file;
use crate::peer::{LxmPeer, PeerOfferConstraints};
#[allow(unused_imports)]
use crate::peer::{peer_view, PeerView};
use crate::sync_task::events::KnownIdentities;
use crate::sync_task::{PropagationSyncTask, SyncMailbox};
#[allow(unused_imports)]
use crate::sync_task::Step;
use crate::tables::PeerMap;

verus! {

/// What a propagation node announces of itself. The timebase is in seconds.
#[derive(Debug, Clone, Copy)]
pub struct PnAnnounce {
    pub destination_hash: DestinationHash,
    /// The announce is an answer to a question for a path.
    pub is_path_response: bool,
    /// The node takes messages.
    pub node_state: bool,
    pub timebase: u64,
}

/// What an announce of a propagation node asks for.
#[derive(Debug, Clone, Copy, PartialEq, Eq, Structural)]
pub enum PnVerdict {
    /// Nothing.
    Ignore,
    /// The node is to be peered with by what it announced.
    Peer,
    /// The peering is to be given up.
    Unpeer,
}

/// What an announce of a propagation node asks for. A node that the operator
/// named is always peered with; what an answer for a path says of it counts only
/// while nothing better is known. Others are peered with as they come and go, if
/// the daemon does that at all.
pub open spec fn verdict_of(
    announce: PnAnnounce,
    is_static: bool,
    autopeer: bool,
    peer: Option<PeerView>,
) -> PnVerdict {
    let of_static = is_static && (!announce.is_path_response || (peer matches Some(peer)
        && !peer.knows_stamp_costs()));
    let of_other = !is_static && autopeer && !announce.is_path_response;
    if of_static || (of_other && announce.node_state) {
        PnVerdict::Peer
    } else if of_other && !announce.node_state && (peer matches Some(peer) && !peer.is_static
        && announce.timebase >= peer.peering_timebase) {
        PnVerdict::Unpeer
    } else {
        PnVerdict::Ignore
    }
}

/// Says what an announce of a propagation node asks for.
pub fn judge_pn_announce(
    announce: &PnAnnounce,
    static_peers: &[DestinationHash],
    autopeer: bool,
    peer: Option<&LxmPeer>,
) -> (verdict: PnVerdict)
    ensures
        verdict == verdict_of(
            *announce,
            static_peers@.contains(announce.destination_hash),
            autopeer,
            peer_view(peer),
        ),
{
    let is_static: bool = contains_id(static_peers, &announce.destination_hash);
    let unknown_costs: bool = match peer {
        Some(peer) => !peer.stamp_costs_known(),
        None => false,
    };
    let of_static: bool = is_static && (!announce.is_path_response || unknown_costs);
    let of_other: bool = !is_static && autopeer && !announce.is_path_response;
    if of_static || (of_other && announce.node_state) {
        return PnVerdict::Peer;
    }
    let retired: bool = match peer {
        Some(peer) => !peer.is_static && announce.timebase >= peer.peering_timebase,
        None => false,
    };
    if of_other && !announce.node_state && retired {
        PnVerdict::Unpeer
    } else {
        PnVerdict::Ignore
    }
}

/// What became of a peer by an announce.
#[derive(Debug, Clone, Copy)]
pub struct PeerChange {
    /// What could change an offer to it before; none where it was no peer.
    pub before: Option<PeerOfferConstraints>,
    /// What can change an offer to it now; none where it is no peer.
    pub after: Option<PeerOfferConstraints>,
    /// Anything about it changed.
    pub changed: bool,
}

impl PeerChange {
    /// The peer is gone.
    pub open spec fn is_removed(self) -> bool {
        self.before is Some && self.after is None
    }

    /// A sync that is under way rests on what no longer holds.
    pub open spec fn upsets_sync(self) -> bool {
        self.changed && self.before is Some && self.after != self.before
    }
}

/// What is left to do about a peer.
#[derive(Debug)]
pub enum PeerUpkeep {
    Nothing,
    /// What is kept of the peer is to be written.
    Save,
    /// As above; its sync was cancelled and it waits for another.
    SaveAndSyncAgain,
    /// What is kept of the peer is to be removed, where there is a file.
    Remove(Option<String>),
}

/// Settles what an announce changed about a peer: a peer that is gone is
/// forgotten, and a sync that rests on what no longer holds is cancelled and
/// made again. Of what is no peer nothing is written.
pub fn settle_peer_change(
    scheduler: &mut PeerScheduler,
    task: &mut PropagationSyncTask,
    mailbox: &mut SyncMailbox,
    node: &mut PropagationNode,
    peer_hash: &DestinationHash,
    change: &PeerChange,
    teardown: Option<Vec<u8>>,
) -> (upkeep: PeerUpkeep)
    requires
        old(node)@.wf(),
    ensures
        final(node)@.wf(),
        ({
            let before = Step { task: old(task)@, mailbox: old(mailbox)@ };
            let after = Step { task: final(task)@, mailbox: final(mailbox)@ };
            let cancels = change.is_removed() || change.upsets_sync();
            &&& after == (if cancels {
                before.cancelled(*peer_hash, teardown)
            } else {
                before
            })
            &&& final(node)@ == (if change.is_removed() || (cancels && old(task)@.concerns(
                *peer_hash,
            )) {
                NodeView { sessions: old(node)@.sessions.remove(*peer_hash), ..old(node)@ }
            } else {
                old(node)@
            })
            &&& final(scheduler)@ == (SchedulerView {
                pending: if change.is_removed() {
                    old(scheduler)@.pending.remove(*peer_hash)
                } else if cancels && old(task)@.concerns(*peer_hash) {
                    old(scheduler)@.pending.insert(*peer_hash)
                } else {
                    old(scheduler)@.pending
                },
                ..old(scheduler)@
            })
            &&& match upkeep {
                PeerUpkeep::Remove(path) => change.is_removed() && text_of(path) == peer_file(
                    old(node)@,
                    *peer_hash,
                ),
                PeerUpkeep::SaveAndSyncAgain => !change.is_removed() && change.upsets_sync() && old(
                    task,
                )@.concerns(*peer_hash),
                PeerUpkeep::Save => change.after is Some && change.changed && !(
                change.upsets_sync() && old(task)@.concerns(*peer_hash)),
                PeerUpkeep::Nothing => !change.is_removed() && (!change.changed
                    || change.after is None),
            }
        }),
{
    if change.before.is_some() && change.after.is_none() {
        scheduler.pending_peer_syncs.remove(peer_hash);
        task.cancel_peer_sync(mailbox, node, peer_hash, teardown);
        let ghost cancelled = node@;
        let path = node.delete_peer(peer_hash);
        proof {
            assert(node@.sessions =~= old(node)@.sessions.remove(*peer_hash));
            assert(peer_file(cancelled, *peer_hash) == peer_file(old(node)@, *peer_hash));
        }
        return PeerUpkeep::Remove(path);
    }
    if !change.changed || change.after.is_none() {
        return PeerUpkeep::Nothing;
    }
    let upset: bool = match (change.before, change.after) {
        (Some(before), Some(after)) => before != after,
        _ => false,
    };
    if upset && task.cancel_peer_sync(mailbox, node, peer_hash, teardown) {
        scheduler.pending_peer_syncs.insert(*peer_hash);
        return PeerUpkeep::SaveAndSyncAgain;
    }
    PeerUpkeep::Save
}

/// Notes how far away a destination is.
pub fn learn_route(route_hops: &mut PeerMap<u8>, dest_hash: DestinationHash, hops: u8)
    ensures
        final(route_hops)@ == old(route_hops)@.insert(
            dest_hash,
            if hops > 1 {
                hops
            } else {
                1
            },
        ),
{
    route_hops.insert(
        dest_hash,
        if hops > 1 {
            hops
        } else {
            1
        },
    );
}

/// Notes the identity behind a destination, and tells whether it is news.
pub fn learn_identity(
    known: &mut KnownIdentities,
    dest_hash: DestinationHash,
    public_key: [u8; 64],
) -> (news: bool)
    ensures
        news == !(old(known)@.contains_key(dest_hash) && old(known)@[dest_hash] == public_key@),
        final(known)@ == old(known)@.insert(dest_hash, public_key@),
{
    let same: bool = match known.get(&dest_hash) {
        Some(key) => {
            proof {
                if key@ == public_key@ {
                    lemma_id_from_view(*key, public_key);
                }
            }
            same_id(key, &public_key)
        },
        None => false,
    };
    if same {
        assert(known@ =~= known@.insert(dest_hash, public_key@));
        return false;
    }
    known.insert(dest_hash, public_key);
    true
}

/// Notes the ratchet of a destination, and tells whether it is news and thus to
/// be written.
pub fn learn_ratchet(
    ratchets: &mut PeerMap<[u8; 32]>,
    received_at: &mut PeerMap<u64>,
    dest_hash: DestinationHash,
    ratchet: [u8; 32],
    now: u64,
) -> (news: bool)
    ensures
        news == !(old(ratchets)@.contains_key(dest_hash) && old(ratchets)@[dest_hash]
            == ratchet@),
        final(ratchets)@ == old(ratchets)@.insert(dest_hash, ratchet@),
        final(received_at)@ == (if news {
            old(received_at)@.insert(dest_hash, now)
        } else {
            old(received_at)@
        }),
{
    let same: bool = match ratchets.get(&dest_hash) {
        Some(known) => {
            proof {
                if known@ == ratchet@ {
                    lemma_id_from_view(*known, ratchet);
                }
            }
            same_id(known, &ratchet)
        },
        None => false,
    };
    if same {
        assert(ratchets@ =~= ratchets@.insert(dest_hash, ratchet@));
        return false;
    }
    ratchets.insert(dest_hash, ratchet);
    received_at.insert(dest_hash, now);
    true
}

/// An announce that was heard: where it came from, over how many hops, and the
/// keys that came with it.
#[derive(Debug, Clone, Copy)]
pub struct HeardAnnounce {
    pub destination_hash: DestinationHash,
    pub hops: u8,
    pub public_key: Option<[u8; 64]>,
    pub ratchet: Option<[u8; 32]>,
}

/// What announces leave to do.
#[derive(Debug)]
pub struct AnnounceNews {
    /// The destinations that were heard, in order.
    pub seen: Vec<DestinationHash>,
    /// The ratchets that are to be written, in order.
    pub ratchets: Vec<(DestinationHash, [u8; 32])>,
}

/// How far away destinations are, once `heard` came in: at least one hop.
pub open spec fn routes_after(routes: Map<DestinationHash, u8>, heard: Seq<HeardAnnounce>) -> Map<
    DestinationHash,
    u8,
>
    decreases heard.len(),
{
    if heard.len() == 0 {
        routes
    } else {
        let last = heard.last();
        routes_after(routes, heard.drop_last()).insert(
            last.destination_hash,
            if last.hops > 1 {
                last.hops
            } else {
                1
            },
        )
    }
}

/// The identities that are known once `heard` came in.
pub open spec fn identities_after(
    known: Map<DestinationHash, Seq<u8>>,
    heard: Seq<HeardAnnounce>,
) -> Map<DestinationHash, Seq<u8>>
    decreases heard.len(),
{
    if heard.len() == 0 {
        known
    } else {
        let before = identities_after(known, heard.drop_last());
        match heard.last().public_key {
            Some(public_key) => before.insert(heard.last().destination_hash, public_key@),
            None => before,
        }
    }
}

/// The ratchets that are known once `heard` came in.
pub open spec fn ratchets_after(
    ratchets: Map<DestinationHash, Seq<u8>>,
    heard: Seq<HeardAnnounce>,
) -> Map<DestinationHash, Seq<u8>>
    decreases heard.len(),
{
    if heard.len() == 0 {
        ratchets
    } else {
        let before = ratchets_after(ratchets, heard.drop_last());
        match heard.last().ratchet {
            Some(ratchet) => before.insert(heard.last().destination_hash, ratchet@),
            None => before,
        }
    }
}

/// The ratchets in `heard` that were news when they came in, each with its
/// destination, in order.
pub open spec fn fresh_ratchets(
    ratchets: Map<DestinationHash, Seq<u8>>,
    heard: Seq<HeardAnnounce>,
) -> Seq<(DestinationHash, [u8; 32])>
    decreases heard.len(),
{
    if heard.len() == 0 {
        Seq::empty()
    } else {
        let before = fresh_ratchets(ratchets, heard.drop_last());
        let known = ratchets_after(ratchets, heard.drop_last());
        let from = heard.last().destination_hash;
        match heard.last().ratchet {
            Some(ratchet) => if known.contains_key(from) && known[from] == ratchet@ {
                before
            } else {
                before.push((from, ratchet))
            },
            None => before,
        }
    }
}

/// When ratchets were received, once `fresh` came in.
pub open spec fn received_after(
    received_at: Map<DestinationHash, u64>,
    fresh: Seq<(DestinationHash, [u8; 32])>,
    now: u64,
) -> Map<DestinationHash, u64>
    decreases fresh.len(),
{
    if fresh.len() == 0 {
        received_at
    } else {
        received_after(received_at, fresh.drop_last(), now).insert(fresh.last().0, now)
    }
}

/// The destinations that were heard, in order.
pub open spec fn heard_from(heard: Seq<HeardAnnounce>) -> Seq<DestinationHash> {
    heard.map_values(|announce: HeardAnnounce| announce.destination_hash)
}

/// Takes in announces one after the other: notes how far away each destination
/// is and the keys that came with it.
pub fn learn_announces(
    heard: &[HeardAnnounce],
    route_hops: &mut PeerMap<u8>,
    known: &mut KnownIdentities,
    ratchets: &mut PeerMap<[u8; 32]>,
    received_at: &mut PeerMap<u64>,
    now: u64,
) -> (news: AnnounceNews)
    ensures
        news.seen@ == heard_from(heard@),
        news.ratchets@ == fresh_ratchets(old(ratchets)@, heard@),
        final(route_hops)@ == routes_after(old(route_hops)@, heard@),
        final(known)@ == identities_after(old(known)@, heard@),
        final(ratchets)@ == ratchets_after(old(ratchets)@, heard@),
        final(received_at)@ == received_after(
            old(received_at)@,
            fresh_ratchets(old(ratchets)@, heard@),
            now,
        ),
{
    let mut seen: Vec<DestinationHash> = Vec::new();
    let mut fresh: Vec<(DestinationHash, [u8; 32])> = Vec::new();
    let mut i: usize = 0;
    assert(seen@ =~= heard_from(heard@.take(0)));
    while i < heard.len()
        invariant
            i <= heard@.len(),
            seen@ == heard_from(heard@.take(i as int)),
            fresh@ == fresh_ratchets(old(ratchets)@, heard@.take(i as int)),
            route_hops@ == routes_after(old(route_hops)@, heard@.take(i as int)),
            known@ == identities_after(old(known)@, heard@.take(i as int)),
            ratchets@ == ratchets_after(old(ratchets)@, heard@.take(i as int)),
            received_at@ == received_after(old(received_at)@, fresh@, now),
        decreases heard@.len() - i,
    {
        let announce: HeardAnnounce = heard[i];
        proof {
            assert(heard@.take(i + 1).drop_last() =~= heard@.take(i as int));
            assert(heard@.take(i + 1).last() == announce);
        }
        seen.push(announce.destination_hash);
        assert(seen@ =~= heard_from(heard@.take(i + 1)));
        learn_route(route_hops, announce.destination_hash, announce.hops);
        if let Some(public_key) = announce.public_key {
            learn_identity(known, announce.destination_hash, public_key);
        }
        if let Some(ratchet) = announce.ratchet {
            if learn_ratchet(ratchets, received_at, announce.destination_hash, ratchet, now) {
                let ghost before = fresh@;
                fresh.push((announce.destination_hash, ratchet));
                assert(fresh@.drop_last() =~= before);
            }
        }
        i = i + 1;
    }
    assert(heard@.take(i as int) =~= heard@);
    AnnounceNews { seen, ratchets: fresh }
}

/// Of several announces the last one that says something of a destination
/// decides: how far away it is, which identity is behind it, and which ratchet it
/// has.
pub proof fn law_last_announce_decides(
    routes: Map<DestinationHash, u8>,
    keys: Map<DestinationHash, Seq<u8>>,
    heard: Seq<HeardAnnounce>,
    i: int,
)
    requires
        0 <= i < heard.len(),
    ensures
        ({
            let from = heard[i].destination_hash;
            &&& (forall|j: int| i < j < heard.len() ==> #[trigger] heard[j].destination_hash
                != from) ==> routes_after(routes, heard).contains_key(from) && routes_after(
                routes,
                heard,
            )[from] == (if heard[i].hops > 1 {
                heard[i].hops
            } else {
                1
            })
            &&& (heard[i].public_key is Some && forall|j: int|
                i < j < heard.len() && (#[trigger] heard[j]).destination_hash == from
                    ==> heard[j].public_key is None) ==> identities_after(keys, heard).contains_key(
                from,
            ) && identities_after(keys, heard)[from] == heard[i].public_key->0@
            &&& (heard[i].ratchet is Some && forall|j: int|
                i < j < heard.len() && (#[trigger] heard[j]).destination_hash == from
                    ==> heard[j].ratchet is None) ==> ratchets_after(keys, heard).contains_key(from)
                && ratchets_after(keys, heard)[from] == heard[i].ratchet->0@
        }),
    decreases heard.len(),
{
    if i < heard.len() - 1 {
        let rest = heard.drop_last();
        assert forall|j: int| 0 <= j < rest.len() implies #[trigger] rest[j] == heard[j] by {}
        law_last_announce_decides(routes, keys, rest, i);
        let last = heard[heard.len() - 1];
        assert(heard.last() == last);
    }
}

/// What no announce speaks of stays as it was.
pub proof fn law_unheard_stays(
    routes: Map<DestinationHash, u8>,
    keys: Map<DestinationHash, Seq<u8>>,
    heard: Seq<HeardAnnounce>,
    hash: DestinationHash,
)
    requires
        !heard_from(heard).contains(hash),
    ensures
        routes_after(routes, heard).contains_key(hash) == routes.contains_key(hash),
        routes_after(routes, heard)[hash] == routes[hash],
        identities_after(keys, heard).contains_key(hash) == keys.contains_key(hash),
        identities_after(keys, heard)[hash] == keys[hash],
        ratchets_after(keys, heard).contains_key(hash) == keys.contains_key(hash),
        ratchets_after(keys, heard)[hash] == keys[hash],
    decreases heard.len(),
{
    if heard.len() > 0 {
        let rest = heard.drop_last();
        let n = heard.len() - 1;
        assert(heard_from(heard)[n] == heard.last().destination_hash);
        assert forall|j: int| 0 <= j < rest.len() implies #[trigger] heard_from(rest)[j]
            != hash by {
            assert(heard_from(heard)[j] == heard_from(rest)[j]);
        }
        law_unheard_stays(routes, keys, rest, hash);
    }
}

/// A node that the operator named is never given up for what it announces.
pub proof fn law_static_peers_stay(announce: PnAnnounce, autopeer: bool, peer: Option<PeerView>)
    ensures
        !(verdict_of(announce, true, autopeer, peer) is Unpeer),
{
}

/// An answer for a path never changes a peering with a node whose costs are
/// known.
pub proof fn law_path_responses_change_nothing_known(
    announce: PnAnnounce,
    is_static: bool,
    autopeer: bool,
    peer: PeerView,
)
    requires
        announce.is_path_response,
        peer.knows_stamp_costs(),
    ensures
        verdict_of(announce, is_static, autopeer, Some(peer)) is Ignore,
{
}

/// An older announce never ends a peering.
pub proof fn law_old_announces_do_not_unpeer(
    announce: PnAnnounce,
    is_static: bool,
    autopeer: bool,
    peer: PeerView,
)
    requires
        announce.timebase < peer.peering_timebase,
    ensures
        !(verdict_of(announce, is_static, autopeer, Some(peer)) is Unpeer),
{
}

} // verus!
