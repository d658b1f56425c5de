//! What is counted of peers and clients.

use vstd::prelude::*;
use crate::daemon::peering::{PeerNotice, PeerScheduler, PeeringKeyWorkerResult, SYNC_BACKOFF_STEP};
#[allow(unused_imports)]
use crate::daemon::peering::SchedulerView;
use crate::ids::{contains_id, DestinationHash, PropagationTransientId};
use crate::peer::LxmPeer;
#[allow(unused_imports)]
use crate::peer::{key_view, PeerView};
use crate::sync_task::{PeerSyncTerminalResult, PeerSyncTerminalState};
use crate::tables::PeerMap;

verus! {

/// Where a message came from.
#[derive(Debug, Clone, Copy)]
pub enum PropagationStoreWriteOrigin {
    Peer(DestinationHash),
    Client,
    LocalDelivery,
}

/// Messages that were stored, each with the bytes it is counted with.
#[derive(Debug)]
pub struct PropagationStoreCommitResult {
    pub origin: PropagationStoreWriteOrigin,
    pub committed: Vec<(PropagationTransientId, u64)>,
}

/// Bytes that stored messages are counted with.
pub open spec fn counted_bytes(committed: Seq<(PropagationTransientId, u64)>) -> nat
    decreases committed.len(),
{
    if committed.len() == 0 {
        0
    } else {
        counted_bytes(committed.drop_last()) + committed.last().1 as nat
    }
}

/// The identifiers of stored messages.
pub open spec fn committed_ids(committed: Seq<(PropagationTransientId, u64)>) -> Seq<
    PropagationTransientId,
> {
    committed.map_values(|item: (PropagationTransientId, u64)| item.0)
}

/// A count after more, or the largest one where it does not fit.
pub open spec fn counted(count: u64, more: nat) -> u64 {
    if count + more > u64::MAX {
        u64::MAX
    } else {
        (count + more) as u64
    }
}

/// Peers, and what was taken in from others.
#[derive(Debug)]
pub struct PeerAccounts {
    pub peers: PeerMap<LxmPeer>,
    pub unpeered_propagation_incoming: u64,
    pub unpeered_propagation_rx_bytes: u64,
    pub client_propagation_messages_received: u64,
    pub client_propagation_messages_served: u64,
}

/// What [`PeerAccounts`] hold.
#[verifier::ext_equal]
pub struct AccountsView {
    pub peers: Map<DestinationHash, PeerView>,
    pub unpeered_incoming: u64,
    pub unpeered_rx_bytes: u64,
    pub client_received: u64,
    pub client_served: u64,
}

impl View for PeerAccounts {
    type V = AccountsView;

    open spec fn view(&self) -> AccountsView {
        AccountsView {
            peers: self.peers@,
            unpeered_incoming: self.unpeered_propagation_incoming,
            unpeered_rx_bytes: self.unpeered_propagation_rx_bytes,
            client_received: self.client_propagation_messages_received,
            client_served: self.client_propagation_messages_served,
        }
    }
}

impl PeerView {
    /// The peer after messages from it were stored.
    pub open spec fn received(self, committed: Seq<(PropagationTransientId, u64)>) -> PeerView {
        PeerView {
            incoming: counted(self.incoming, committed.len()),
            rx_bytes: counted(self.rx_bytes, counted_bytes(committed)),
            handled: self.handled.union(committed_ids(committed).to_set()),
            ..self
        }
    }

    /// The peer after a sync with it ended. What was transferred counts only
    /// when the sync is complete.
    pub open spec fn synced(self, result: PeerSyncTerminalResult) -> PeerView {
        let met = PeerView {
            link_establishment_rate: newer(
                result.link_establishment_rate,
                self.link_establishment_rate,
            ),
            ..self
        };
        if result.state is Complete {
            PeerView {
                offered: counted(self.offered, result.offered as nat),
                outgoing: counted(self.outgoing, result.outgoing as nat),
                tx_bytes: counted(self.tx_bytes, result.tx_bytes as nat),
                sync_transfer_rate: newer(result.sync_transfer_rate, self.sync_transfer_rate),
                ..met
            }
        } else {
            met
        }
    }
}

/// What was measured now, or else before.
pub open spec fn newer<T>(now: Option<T>, before: Option<T>) -> Option<T> {
    match now {
        Some(value) => Some(value),
        None => before,
    }
}

impl AccountsView {
    /// The accounts with another entry for a peer.
    pub open spec fn with_peer(self, peer_hash: DestinationHash, peer: PeerView) -> AccountsView {
        AccountsView { peers: self.peers.insert(peer_hash, peer), ..self }
    }

    /// The accounts after messages were stored. Only what is stored for good
    /// counts, and only a peer is counted by name.
    pub open spec fn committed(
        self,
        origin: PropagationStoreWriteOrigin,
        committed: Seq<(PropagationTransientId, u64)>,
    ) -> AccountsView {
        if committed.len() == 0 {
            self
        } else {
            match origin {
                PropagationStoreWriteOrigin::Peer(peer_hash) => if self.peers.contains_key(
                    peer_hash,
                ) {
                    self.with_peer(peer_hash, self.peers[peer_hash].received(committed))
                } else {
                    AccountsView {
                        unpeered_incoming: counted(self.unpeered_incoming, committed.len()),
                        unpeered_rx_bytes: counted(
                            self.unpeered_rx_bytes,
                            counted_bytes(committed),
                        ),
                        ..self
                    }
                },
                PropagationStoreWriteOrigin::Client => AccountsView {
                    client_received: counted(self.client_received, committed.len()),
                    ..self
                },
                PropagationStoreWriteOrigin::LocalDelivery => self,
            }
        }
    }
}

/// What became of a key for a peer.
#[derive(Debug, Clone, Copy, PartialEq, Eq, Structural)]
pub enum KeyOutcome {
    /// The peer has the key now.
    Applied,
    /// No key could be found for what peering costs; the sync is put off.
    Postponed,
    /// The key is of no use any more.
    Ignored,
}

impl AccountsView {
    /// What a search for a key comes to. A key counts if it meets what peering
    /// costs by now, whatever it was searched for.
    pub open spec fn key_outcome(self, result: PeeringKeyWorkerResult) -> KeyOutcome {
        if !self.peers.contains_key(result.peer_hash) {
            KeyOutcome::Ignored
        } else {
            let peer = self.peers[result.peer_hash];
            if result.peering_key matches Some((_, value)) && value >= peer.peering_cost {
                KeyOutcome::Applied
            } else if peer.peering_cost == result.peering_cost {
                KeyOutcome::Postponed
            } else {
                KeyOutcome::Ignored
            }
        }
    }

    /// The accounts after a search for a key.
    pub open spec fn key_applied(self, result: PeeringKeyWorkerResult, now: u64) -> AccountsView {
        match self.key_outcome(result) {
            KeyOutcome::Applied => self.with_peer(
                result.peer_hash,
                PeerView {
                    peering_key: key_view(result.peering_key),
                    ..self.peers[result.peer_hash]
                },
            ),
            KeyOutcome::Postponed => self.with_peer(
                result.peer_hash,
                PeerView {
                    next_sync_attempt: counted(now, SYNC_BACKOFF_STEP as nat),
                    ..self.peers[result.peer_hash]
                },
            ),
            KeyOutcome::Ignored => self,
        }
    }
}

/// The scheduler after a search for a key.
pub open spec fn scheduler_after_key(
    scheduler: SchedulerView,
    peer_hash: DestinationHash,
    outcome: KeyOutcome,
) -> SchedulerView {
    SchedulerView {
        jobs: scheduler.jobs.remove(peer_hash),
        pending: if outcome is Postponed {
            scheduler.pending.remove(peer_hash)
        } else {
            scheduler.pending
        },
        ..scheduler
    }
}

/// Adds up the bytes that stored messages are counted with.
fn count_bytes(committed: &Vec<(PropagationTransientId, u64)>) -> (bytes: u64)
    ensures
        bytes == counted(0, counted_bytes(committed@)),
{
    let ghost all = committed@;
    let mut bytes: u64 = 0;
    let mut i: usize = 0;
    while i < committed.len()
        invariant
            i <= all.len(),
            all == committed@,
            bytes == counted(0, counted_bytes(all.take(i as int))),
        decreases all.len() - i,
    {
        assert(all.take(i + 1).drop_last() =~= all.take(i as int));
        assert(all.take(i + 1).last() == all[i as int]);
        bytes = bytes.saturating_add(committed[i].1);
        i = i + 1;
    }
    assert(all.take(i as int) =~= all);
    bytes
}

impl PeerAccounts {
    /// Nobody is known and nothing is counted.
    pub fn new() -> (accounts: Self)
        ensures
            accounts@ == (AccountsView {
                peers: Map::empty(),
                unpeered_incoming: 0,
                unpeered_rx_bytes: 0,
                client_received: 0,
                client_served: 0,
            }),
    {
        PeerAccounts {
            peers: PeerMap::new(),
            unpeered_propagation_incoming: 0,
            unpeered_propagation_rx_bytes: 0,
            client_propagation_messages_received: 0,
            client_propagation_messages_served: 0,
        }
    }

    /// Counts messages that were stored. Tells what happened to the peer that
    /// they came from; what is kept of it is then to be written.
    pub fn apply_propagation_store_commit(&mut self, result: &PropagationStoreCommitResult) -> (notice:
        Option<PeerNotice>)
        ensures
            final(self)@ == old(self)@.committed(result.origin, result.committed@),
            notice == (if result.committed@.len() > 0 && (result.origin matches PropagationStoreWriteOrigin::Peer(
            peer_hash) && old(self)@.peers.contains_key(peer_hash)) {
                Some(PeerNotice::Heard)
            } else {
                None
            }),
    {
        if result.committed.len() == 0 {
            return None;
        }
        let count: u64 = result.committed.len() as u64;
        let bytes: u64 = count_bytes(&result.committed);
        match &result.origin {
            PropagationStoreWriteOrigin::Peer(peer_hash) => match self.peers.get_mut(peer_hash) {
                Some(peer) => {
                    peer.incoming = peer.incoming.saturating_add(count);
                    peer.rx_bytes = peer.rx_bytes.saturating_add(bytes);
                    let ids = list_ids(&result.committed);
                    peer.add_handled_messages(ids.as_slice());
                    Some(PeerNotice::Heard)
                },
                None => {
                    self.unpeered_propagation_incoming = self.unpeered_propagation_incoming.saturating_add(
                        count,
                    );
                    self.unpeered_propagation_rx_bytes = self.unpeered_propagation_rx_bytes.saturating_add(
                        bytes,
                    );
                    None
                },
            },
            PropagationStoreWriteOrigin::Client => {
                self.client_propagation_messages_received = self.client_propagation_messages_received.saturating_add(
                    count,
                );
                None
            },
            PropagationStoreWriteOrigin::LocalDelivery => None,
        }
    }

    /// Counts messages that a client downloaded.
    pub fn record_client_propagation_served(&mut self, served: u64)
        ensures
            final(self)@ == (AccountsView {
                client_served: counted(old(self)@.client_served, served as nat),
                ..old(self)@
            }),
    {
        self.client_propagation_messages_served = self.client_propagation_messages_served.saturating_add(
            served,
        );
    }

    /// Takes the outcome of a search for a key.
    pub fn apply_peering_key_result(
        &mut self,
        scheduler: &mut PeerScheduler,
        result: &PeeringKeyWorkerResult,
        now: u64,
    ) -> (outcome: KeyOutcome)
        ensures
            outcome == old(self)@.key_outcome(*result),
            final(self)@ == old(self)@.key_applied(*result, now),
            final(scheduler)@ == scheduler_after_key(old(scheduler)@, result.peer_hash, outcome),
    {
        scheduler.peering_key_jobs.remove(&result.peer_hash);
        match self.peers.get_mut(&result.peer_hash) {
            Some(peer) => {
                let good: bool = match result.peering_key {
                    Some((_, value)) => value >= peer.peering_cost as u32,
                    None => false,
                };
                if good {
                    peer.peering_key = result.peering_key;
                    return KeyOutcome::Applied;
                }
                if peer.peering_cost == result.peering_cost {
                    peer.next_sync_attempt = now.saturating_add(SYNC_BACKOFF_STEP);
                    scheduler.pending_peer_syncs.remove(&result.peer_hash);
                    return KeyOutcome::Postponed;
                }
                assert(peer@ == old(self)@.peers[result.peer_hash]);
                let ghost same = old(self)@.peers.insert(result.peer_hash, peer@);
                assert(same =~= old(self)@.peers);
                KeyOutcome::Ignored
            },
            None => KeyOutcome::Ignored,
        }
    }

    /// Notes that a peer holds messages, and tells whether what is kept of it is
    /// to be written.
    pub fn apply_handled_updates(
        &mut self,
        peer_hash: &DestinationHash,
        updates: &[PropagationTransientId],
    ) -> (changed: bool)
        ensures
            changed == (updates@.len() > 0 && old(self)@.peers.contains_key(*peer_hash)),
            final(self)@ == (if changed {
                old(self)@.with_peer(*peer_hash, old(self)@.peers[*peer_hash].holding(updates@))
            } else {
                old(self)@
            }),
    {
        if updates.len() == 0 {
            return false;
        }
        match self.peers.get_mut(peer_hash) {
            Some(peer) => {
                peer.add_handled_messages(updates);
                true
            },
            None => false,
        }
    }

    /// Counts a sync that ended. Tells what happened to the peer; where anything
    /// did, what is kept of it is to be written.
    pub fn apply_terminal_result(&mut self, result: &PeerSyncTerminalResult) -> (notices: Vec<
        PeerNotice,
    >)
        ensures
            final(self)@ == (if old(self)@.peers.contains_key(result.peer_hash) {
                old(self)@.with_peer(
                    result.peer_hash,
                    old(self)@.peers[result.peer_hash].synced(*result),
                )
            } else {
                old(self)@
            }),
            notices@ == (if old(self)@.peers.contains_key(result.peer_hash) {
                notices_of(*result)
            } else {
                Seq::empty()
            }),
            forall|generation: u64| #[trigger]
                notices@.contains(PeerNotice::GenerationProcessed(generation)) <==> old(
                    self,
                )@.peers.contains_key(result.peer_hash) && result.state is Complete
                    && result.generation_exhausted && result.offer_generation == Some(generation),
    {
        let mut notices: Vec<PeerNotice> = Vec::new();
        if let Some(peer) = self.peers.get_mut(&result.peer_hash) {
            if let Some(rate) = result.link_establishment_rate {
                peer.link_establishment_rate = Some(rate);
                notices.push(PeerNotice::Heard);
            }
            match result.state {
                PeerSyncTerminalState::Complete => {
                    peer.offered = peer.offered.saturating_add(result.offered);
                    peer.outgoing = peer.outgoing.saturating_add(result.outgoing);
                    peer.tx_bytes = peer.tx_bytes.saturating_add(result.tx_bytes);
                    if let Some(rate) = result.sync_transfer_rate {
                        peer.sync_transfer_rate = Some(rate);
                    }
                    notices.push(PeerNotice::SyncComplete);
                    if result.generation_exhausted {
                        if let Some(generation) = result.offer_generation {
                            notices.push(PeerNotice::GenerationProcessed(generation));
                        }
                    }
                },
                PeerSyncTerminalState::Failed => {
                    notices.push(PeerNotice::SyncFailed);
                },
            }
            assert(notices@ =~= notices_of(*result));
        }
        proof {
            assert forall|generation: u64| #[trigger]
                notices@.contains(PeerNotice::GenerationProcessed(generation)) <==> old(
                    self,
                )@.peers.contains_key(result.peer_hash) && result.state is Complete
                    && result.generation_exhausted && result.offer_generation == Some(
                    generation,
                ) by {
                law_only_exhausted_revisions_are_settled(*result, generation);
            }
        }
        notices
    }

    /// Takes what a sync task has to say: the messages that its peer holds, and
    /// how a sync ended. Tells what happened to the peer whose sync ended, and
    /// the peers of which what is kept is to be written.
    pub fn drive_propagation_sync(
        &mut self,
        handled: Option<&(DestinationHash, Vec<PropagationTransientId>)>,
        ended: Option<&PeerSyncTerminalResult>,
    ) -> (outcome: (Vec<PeerNotice>, Vec<DestinationHash>))
        ensures
            final(self)@ == old(self)@.driven(handled, ended),
            outcome.0@ == (match ended {
                Some(result) => if old(self)@.peers.contains_key(result.peer_hash) {
                    notices_of(*result)
                } else {
                    Seq::empty()
                },
                None => Seq::empty(),
            }),
            outcome.1@.no_duplicates(),
            forall|peer_hash: DestinationHash| #[trigger]
                outcome.1@.contains(peer_hash) <==> old(self)@.peers.contains_key(peer_hash) && ({
                    ||| handled matches Some(update) && update.0 == peer_hash && update.1@.len() > 0
                    ||| ended matches Some(result) && result.peer_hash == peer_hash
                }),
    {
        let mut unsaved: Vec<DestinationHash> = Vec::new();
        let mut notices: Vec<PeerNotice> = Vec::new();
        if let Some(update) = handled {
            if self.apply_handled_updates(&update.0, update.1.as_slice()) {
                unsaved.push(update.0);
                assert(unsaved@[0] == update.0);
            }
        }
        let ghost first = unsaved@;
        if let Some(result) = ended {
            let known: bool = self.peers.contains_key(&result.peer_hash);
            notices = self.apply_terminal_result(result);
            if known && !contains_id(unsaved.as_slice(), &result.peer_hash) {
                unsaved.push(result.peer_hash);
                assert(unsaved@[first.len() as int] == result.peer_hash);
                assert forall|peer_hash: DestinationHash| first.contains(
                    peer_hash,
                ) implies #[trigger] unsaved@.contains(peer_hash) by {
                    let i = choose|i: int| 0 <= i < first.len() && first[i] == peer_hash;
                    assert(unsaved@[i] == peer_hash);
                }
            }
        }
        (notices, unsaved)
    }
}

impl AccountsView {
    /// The accounts after a sync task said what messages a peer holds and how a
    /// sync ended.
    pub open spec fn driven(
        self,
        handled: Option<&(DestinationHash, Vec<PropagationTransientId>)>,
        ended: Option<&PeerSyncTerminalResult>,
    ) -> AccountsView {
        let noted = match handled {
            Some(update) => if update.1@.len() > 0 && self.peers.contains_key(update.0) {
                self.with_peer(update.0, self.peers[update.0].holding(update.1@))
            } else {
                self
            },
            None => self,
        };
        match ended {
            Some(result) => if noted.peers.contains_key(result.peer_hash) {
                noted.with_peer(result.peer_hash, noted.peers[result.peer_hash].synced(*result))
            } else {
                noted
            },
            None => noted,
        }
    }
}

/// What happened to a peer whose sync ended. A revision of the store is done
/// with only when the sync is complete and left nothing of it.
pub open spec fn notices_of(result: PeerSyncTerminalResult) -> Seq<PeerNotice> {
    let heard: Seq<PeerNotice> = if result.link_establishment_rate is Some {
        seq![PeerNotice::Heard]
    } else {
        Seq::empty()
    };
    match result.state {
        PeerSyncTerminalState::Complete => {
            let done: Seq<PeerNotice> = match result.offer_generation {
                Some(generation) => if result.generation_exhausted {
                    seq![PeerNotice::GenerationProcessed(generation)]
                } else {
                    Seq::empty()
                },
                None => Seq::empty(),
            };
            heard + seq![PeerNotice::SyncComplete] + done
        },
        PeerSyncTerminalState::Failed => heard + seq![PeerNotice::SyncFailed],
    }
}

/// Lists the identifiers of stored messages.
fn list_ids(committed: &Vec<(PropagationTransientId, u64)>) -> (ids: Vec<PropagationTransientId>)
    ensures
        ids@ == committed_ids(committed@),
{
    let mut ids: Vec<PropagationTransientId> = Vec::new();
    let mut i: usize = 0;
    while i < committed.len()
        invariant
            i <= committed@.len(),
            ids@ == committed_ids(committed@.take(i as int)),
        decreases committed@.len() - i,
    {
        ids.push(committed[i].0);
        i = i + 1;
        assert(ids@ =~= committed_ids(committed@.take(i as int)));
    }
    assert(committed@.take(i as int) =~= committed@);
    ids
}

/// An order of the operator for a peer.
#[derive(Debug, Clone, Copy, PartialEq, Eq)]
pub enum ControlCommand {
    Sync(DestinationHash),
    Unpeer(DestinationHash),
}

/// What is left to do for an order.
#[derive(Debug, Clone, Copy, PartialEq, Eq)]
pub enum ControlEffect {
    /// Nothing.
    Nothing,
    /// The peer waits for a sync.
    SyncQueued,
    /// The sync with the peer is to be cancelled, and what is kept of it
    /// removed.
    Forget(DestinationHash),
}

impl AccountsView {
    /// The accounts after an order.
    pub open spec fn commanded(self, command: ControlCommand) -> AccountsView {
        match command {
            ControlCommand::Sync(peer_hash) => if self.peers.contains_key(peer_hash) {
                self.with_peer(
                    peer_hash,
                    PeerView { next_sync_attempt: 0, alive: true, ..self.peers[peer_hash] },
                )
            } else {
                self
            },
            ControlCommand::Unpeer(peer_hash) => AccountsView {
                peers: self.peers.remove(peer_hash),
                ..self
            },
        }
    }
}

/// The scheduler after an order.
pub open spec fn scheduler_after_command(
    scheduler: SchedulerView,
    accounts: AccountsView,
    command: ControlCommand,
) -> SchedulerView {
    match command {
        ControlCommand::Sync(peer_hash) => if accounts.peers.contains_key(peer_hash) {
            SchedulerView { pending: scheduler.pending.insert(peer_hash), ..scheduler }
        } else {
            scheduler
        },
        ControlCommand::Unpeer(peer_hash) => SchedulerView {
            pending: scheduler.pending.remove(peer_hash),
            ..scheduler
        },
    }
}

impl PeerAccounts {
    /// Carries out an order of the operator. A sync with a peer that is not
    /// known is passed over; a peer is forgotten whether or not it is known.
    pub fn apply_control_command(
        &mut self,
        scheduler: &mut PeerScheduler,
        command: &ControlCommand,
    ) -> (effect: ControlEffect)
        ensures
            final(self)@ == old(self)@.commanded(*command),
            final(scheduler)@ == scheduler_after_command(old(scheduler)@, old(self)@, *command),
            effect == (match *command {
                ControlCommand::Sync(peer_hash) => if old(self)@.peers.contains_key(peer_hash) {
                    ControlEffect::SyncQueued
                } else {
                    ControlEffect::Nothing
                },
                ControlCommand::Unpeer(peer_hash) => ControlEffect::Forget(peer_hash),
            }),
    {
        match command {
            ControlCommand::Sync(peer_hash) => match self.peers.get_mut(peer_hash) {
                Some(peer) => {
                    peer.next_sync_attempt = 0;
                    peer.alive = true;
                    scheduler.pending_peer_syncs.insert(*peer_hash);
                    ControlEffect::SyncQueued
                },
                None => ControlEffect::Nothing,
            },
            ControlCommand::Unpeer(peer_hash) => {
                scheduler.pending_peer_syncs.remove(peer_hash);
                self.peers.remove(peer_hash);
                ControlEffect::Forget(*peer_hash)
            },
        }
    }
}

/// Nothing is counted for what was not stored.
pub proof fn law_only_commits_count(accounts: AccountsView, origin: PropagationStoreWriteOrigin)
    ensures
        accounts.committed(origin, Seq::empty()) == accounts,
{
}

/// What a peer sent is never offered back to it: it counts as held by the peer.
pub proof fn law_received_is_handled(
    accounts: AccountsView,
    peer_hash: DestinationHash,
    committed: Seq<(PropagationTransientId, u64)>,
    i: int,
)
    requires
        accounts.peers.contains_key(peer_hash),
        0 <= i < committed.len(),
    ensures
        accounts.committed(
            PropagationStoreWriteOrigin::Peer(peer_hash),
            committed,
        ).peers[peer_hash].handled.contains(committed[i].0),
{
    assert(committed_ids(committed)[i] == committed[i].0);
}

/// A failed sync settles no revision of the store.
pub proof fn law_failed_sync_settles_no_generation(
    result: PeerSyncTerminalResult,
    generation: u64,
)
    requires
        result.state is Failed,
    ensures
        !notices_of(result).contains(PeerNotice::GenerationProcessed(generation)),
{
}

/// A peer that was forgotten neither waits for a sync nor is known.
pub proof fn law_unpeered_is_forgotten(
    accounts: AccountsView,
    scheduler: SchedulerView,
    peer_hash: DestinationHash,
)
    ensures
        !accounts.commanded(ControlCommand::Unpeer(peer_hash)).peers.contains_key(peer_hash),
        !scheduler_after_command(
            scheduler,
            accounts,
            ControlCommand::Unpeer(peer_hash),
        ).pending.contains(peer_hash),
{
}

/// A revision of the store is settled for a peer exactly when the sync is
/// complete, was offered that revision, and left nothing of it for another sync.
pub proof fn law_only_exhausted_revisions_are_settled(
    result: PeerSyncTerminalResult,
    generation: u64,
)
    ensures
        notices_of(result).contains(PeerNotice::GenerationProcessed(generation))
            <==> result.state is Complete && result.generation_exhausted
            && result.offer_generation == Some(generation),
{
    let notices = notices_of(result);
    if result.state is Complete && result.generation_exhausted && result.offer_generation == Some(
        generation,
    ) {
        assert(notices[notices.len() - 1] == PeerNotice::GenerationProcessed(generation));
    }
}

/// The history of a peer tells how its last sync ended, and that the peer was
/// heard from where a link to it came to be.
pub proof fn law_sync_end_is_told(result: PeerSyncTerminalResult)
    ensures
        notices_of(result).contains(PeerNotice::SyncComplete) <==> result.state is Complete,
        notices_of(result).contains(PeerNotice::SyncFailed) <==> result.state is Failed,
        notices_of(result).contains(PeerNotice::Heard)
            <==> result.link_establishment_rate is Some,
        !notices_of(result).contains(PeerNotice::SyncBegun),
{
    let notices = notices_of(result);
    let heard: int = if result.link_establishment_rate is Some {
        1
    } else {
        0
    };
    assert(heard == 1 ==> notices[0] == PeerNotice::Heard);
    assert(result.state is Complete ==> notices[heard] == PeerNotice::SyncComplete);
    assert(result.state is Failed ==> notices[heard] == PeerNotice::SyncFailed);
}

/// What a complete sync transferred is counted for its peer, up to what a count
/// can hold. A failed sync counts nothing, and no sync changes what the peer
/// holds, costs or was announced with.
pub proof fn law_complete_syncs_count(peer: PeerView, result: PeerSyncTerminalResult)
    ensures
        ({
            let after = peer.synced(result);
            &&& result.state is Failed ==> after.offered == peer.offered && after.outgoing
                == peer.outgoing && after.tx_bytes == peer.tx_bytes && after.sync_transfer_rate
                == peer.sync_transfer_rate
            &&& result.state is Complete ==> {
                &&& peer.offered + result.offered <= u64::MAX ==> after.offered == peer.offered
                    + result.offered
                &&& peer.outgoing + result.outgoing <= u64::MAX ==> after.outgoing
                    == peer.outgoing + result.outgoing
                &&& peer.tx_bytes + result.tx_bytes <= u64::MAX ==> after.tx_bytes
                    == peer.tx_bytes + result.tx_bytes
                &&& result.sync_transfer_rate is Some ==> after.sync_transfer_rate
                    == result.sync_transfer_rate
                &&& result.sync_transfer_rate is None ==> after.sync_transfer_rate
                    == peer.sync_transfer_rate
            }
            &&& after.offered >= peer.offered && after.outgoing >= peer.outgoing && after.tx_bytes
                >= peer.tx_bytes
            &&& result.link_establishment_rate is Some ==> after.link_establishment_rate
                == result.link_establishment_rate
            &&& result.link_establishment_rate is None ==> after.link_establishment_rate
                == peer.link_establishment_rate
            &&& after == (PeerView {
                offered: after.offered,
                outgoing: after.outgoing,
                tx_bytes: after.tx_bytes,
                sync_transfer_rate: after.sync_transfer_rate,
                link_establishment_rate: after.link_establishment_rate,
                ..peer
            })
        }),
{
}

} // verus!
