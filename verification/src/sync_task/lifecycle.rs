//! Start and end of a sync, and the steps of its clock.

use vstd::prelude::*;
use crate::ids::{same_id, DestinationHash, PropagationTransientId};
use crate::node::PropagationNode;
use crate::sync::OutboundOfferPolicy;
use crate::tables::IdSet;
use super::endpoint::{is_link, EndpointReports};
use super::{
    PacketContext, PeerState, PeerSyncTerminalResult, PeerSyncTerminalState, Preparation,
    PropagationSyncTask, SyncMailbox, SyncPeer, SyncTaskState, SyncTransport, TransferRate,
};
#[allow(unused_imports)]
use super::{no_accounting, Step, SyncPeerView, SyncTaskView, SyncTransportView};
#[allow(unused_imports)]
use crate::node::NodeView;
#[allow(unused_imports)]
use crate::transport::{flushed_mailbox, flushed_pending, views};

verus! {

/// Body of a keepalive packet.
pub const KEEPALIVE_REQUEST: u8 = 0xff;

/// A link that is about to be asked for.
#[derive(Debug)]
pub struct NewLink {
    pub link_id: DestinationHash,
    pub request_data: Vec<u8>,
}

/// What the link's watchdog wants done.
#[derive(Debug)]
pub enum LinkAction {
    Nothing,
    SendKeepalive,
    TransitionedToStale,
    SendTeardownAndClose(Vec<u8>),
    Closed,
}

/// What is to be done after a tick.
#[derive(Debug, Clone, Copy)]
pub enum TickAction {
    Nothing,
    /// Start a sync with this node.
    StartSync(DestinationHash),
    /// Send the offer.
    SendOfferRequest,
    /// Drive the transfer.
    DriveTransfers,
    /// End the sync.
    FinishSync,
}

/// Whether the sync is over.
pub open spec fn is_terminal(state: SyncTaskState) -> bool {
    state is Complete || state is Failed
}

impl SyncTaskView {
    /// A new sync may start: none is under way, and the outcome of the last one
    /// was taken.
    pub open spec fn accepts_request(self) -> bool {
        self.state is Idle && self.terminal_result is None
    }

    /// The task with the errors of earlier syncs forgotten.
    pub open spec fn without_errors(self) -> SyncTaskView {
        SyncTaskView {
            last_offer_error: None,
            last_establish_error: None,
            last_finished_ok: None,
            ..self
        }
    }

    /// The task with nothing left of an earlier sync, and a new link.
    pub open spec fn fresh(self, link_id: DestinationHash) -> SyncTaskView {
        SyncTaskView {
            pending_transport: Seq::empty(),
            preserve_pending_on_cleanup: false,
            accounting: no_accounting(),
            active_offer_generation: None,
            generation_exhausted: false,
            link_id: Some(link_id),
            attached_interface: None,
            pending_endpoint_bind: None,
            ..self.without_transfer().without_preparations()
        }
    }
}

impl Step {
    /// The step after a link to a node was asked for, and whether that was
    /// possible. Then why an earlier offer was refused is forgotten.
    pub open spec fn started(self, node_hash: DestinationHash, link: NewLink, now: u64) -> (
        Step,
        bool,
    ) {
        let fresh = Step { task: self.task.fresh(link.link_id), ..self };
        let registered = fresh.queued(
            SyncTransportView::RegisterDestination { hash: link.link_id },
        );
        if !fresh.keeps() {
            (registered.in_state(SyncTaskState::Failed), false)
        } else {
            let requested = registered.queued(
                SyncTransportView::LinkRequest { node_hash, request_data: link.request_data@ },
            );
            if !registered.keeps() {
                (requested.in_state(SyncTaskState::Failed), false)
            } else {
                (
                    Step {
                        task: SyncTaskView {
                            peer: Some(
                                SyncPeerView {
                                    destination_hash: node_hash,
                                    state: PeerState::LinkEstablishing,
                                    handled: Set::empty(),
                                },
                            ),
                            state: SyncTaskState::Establishing,
                            sync_started: Some(now),
                            last_offer_error: None,
                            ..requested.task
                        },
                        ..requested
                    },
                    true,
                )
            }
        }
    }

    /// The step after a sync was asked for, and whether it started. A sync that
    /// is under way is not changed.
    pub open spec fn requested(
        self,
        node_hash: DestinationHash,
        policy: Option<OutboundOfferPolicy>,
        link: NewLink,
        now: u64,
    ) -> (Step, bool) {
        if !self.task.accepts_request() {
            (self, false)
        } else {
            let aimed = Step {
                task: SyncTaskView {
                    node_dest_hash: Some(node_hash),
                    offer_policy: policy,
                    ..self.task.without_errors()
                },
                ..self
            };
            let (started, done) = aimed.started(node_hash, link, now);
            if done {
                (
                    Step {
                        task: SyncTaskView { last_sync: now, ..started.task },
                        ..started
                    },
                    true,
                )
            } else {
                (started, false)
            }
        }
    }

    /// The step after the link was torn down, and whether a last packet went
    /// out for it.
    pub open spec fn torn_down(self, teardown: Option<Vec<u8>>) -> (Step, bool) {
        match (self.task.link_id, teardown) {
            (Some(link_id), Some(body)) => (
                self.sent_last(link_id, PacketContext::LinkClose, body@),
                self.keeps(),
            ),
            _ => (self, false),
        }
    }

    /// The step after nothing of a sync was left. The link is released, by a
    /// last packet where there is one.
    pub open spec fn cleaned(self, teardown: Option<Vec<u8>>) -> Step {
        let kept = self.task.preserve_pending_on_cleanup;
        let settled = Step {
            task: SyncTaskView {
                pending_transport: if kept {
                    self.task.pending_transport
                } else {
                    Seq::empty()
                },
                preserve_pending_on_cleanup: false,
                ..self.task
            },
            ..self
        };
        let (closed, graceful) = if kept {
            (settled, true)
        } else {
            settled.torn_down(teardown)
        };
        let unlinked = Step {
            task: SyncTaskView { link_id: None, ..closed.task },
            ..closed
        };
        let released = match closed.task.link_id {
            Some(link_id) => if graceful {
                unlinked
            } else {
                unlinked.releasing(link_id)
            },
            None => unlinked,
        };
        Step {
            task: SyncTaskView {
                attached_interface: None,
                pending_endpoint_bind: None,
                peer: None,
                sync_started: None,
                ..released.task.without_transfer().without_preparations()
            },
            ..released
        }
    }

    /// The step after the watchdog's wish was carried out.
    pub open spec fn watched(self, action: LinkAction) -> Step {
        match self.task.link_id {
            Some(link_id) => match action {
                LinkAction::Nothing => self,
                LinkAction::Closed => self.in_state(SyncTaskState::Failed),
                LinkAction::SendTeardownAndClose(body) => if body@.len() == 0 {
                    self.in_state(SyncTaskState::Failed)
                } else {
                    let sent = self.sent_last(link_id, PacketContext::LinkClose, body@);
                    Step {
                        task: SyncTaskView {
                            preserve_pending_on_cleanup: self.keeps(),
                            state: SyncTaskState::Failed,
                            ..sent.task
                        },
                        ..sent
                    }
                },
                _ => {
                    let sent = self.sent_on_link(
                        PacketContext::Keepalive,
                        seq![KEEPALIVE_REQUEST],
                    );
                    if self.sends_on_link() {
                        sent
                    } else {
                        sent.in_state(SyncTaskState::Failed)
                    }
                },
            },
            None => self.in_state(SyncTaskState::Failed),
        }
    }
}

impl PropagationSyncTask {
    /// Names the node to sync with. A sync that is under way keeps its node.
    pub fn set_node(&mut self, dest_hash: DestinationHash)
        ensures
            final(self)@ == (if old(self)@.node_dest_hash == Some(dest_hash) {
                old(self)@
            } else if old(self)@.state is Idle {
                SyncTaskView {
                    node_dest_hash: Some(dest_hash),
                    offer_policy: None,
                    ..old(self)@
                }
            } else {
                old(self)@
            }),
    {
        if is_link(&self.node_dest_hash, &dest_hash) {
            return;
        }
        if self.state != SyncTaskState::Idle {
            return;
        }
        self.offer_policy = None;
        self.node_dest_hash = Some(dest_hash);
    }

    /// The node to sync with.
    pub fn node_dest_hash(&self) -> (hash: Option<DestinationHash>)
        ensures
            hash == self@.node_dest_hash,
    {
        self.node_dest_hash
    }

    /// The peer of the sync that is under way.
    pub fn peer(&self) -> (peer: Option<&SyncPeer>)
        ensures
            match peer {
                Some(peer) => self@.peer == Some(peer@),
                None => self@.peer is None,
            },
    {
        self.peer.as_ref()
    }

    /// Sets what the peering key of offers is made of.
    pub fn configure_peering(
        &mut self,
        local_identity_hash: DestinationHash,
        peer_identity_hash: DestinationHash,
        peering_cost: u8,
        precomputed_key: Option<Vec<u8>>,
    )
        ensures
            final(self)@ == (SyncTaskView {
                local_identity_hash: Some(local_identity_hash),
                peer_identity_hash: Some(peer_identity_hash),
                peer_peering_cost: peering_cost,
                outbound_peering_key: precomputed_key,
                ..old(self)@
            }),
    {
        self.local_identity_hash = Some(local_identity_hash);
        self.peer_identity_hash = Some(peer_identity_hash);
        self.peer_peering_cost = peering_cost;
        self.outbound_peering_key = precomputed_key;
    }

    /// Takes the messages that peers were found to hold.
    pub fn take_handled_updates(&mut self) -> (updates: Vec<PropagationTransientId>)
        ensures
            updates@ == old(self)@.handled_updates,
            final(self)@ == (SyncTaskView { handled_updates: Seq::empty(), ..old(self)@ }),
    {
        let mut updates: Vec<PropagationTransientId> = Vec::new();
        std::mem::swap(&mut updates, &mut self.handled_updates);
        updates
    }

    /// Takes the outcome of the last sync.
    pub fn take_terminal_peer_result(&mut self) -> (result: Option<PeerSyncTerminalResult>)
        ensures
            result == old(self)@.terminal_result,
            final(self)@ == (SyncTaskView { terminal_result: None, ..old(self)@ }),
    {
        self.terminal_result.take()
    }

    fn reset_attempt_accounting(&mut self)
        ensures
            final(self)@ == (SyncTaskView { accounting: no_accounting(), ..old(self)@ }),
    {
        self.offered_count = 0;
        self.outgoing_count = 0;
        self.transfer_data_size = 0;
        self.transfer_wire_size = 0;
        self.transfer_started = None;
        self.link_establishment_rate = None;
    }

    pub(crate) fn clear_transfer(&mut self)
        ensures
            final(self)@ == old(self)@.without_transfer(),
    {
        self.active_transfer = None;
        self.active_transfer_requested = false;
        self.pending_transfer_segments.clear();
        self.active_transfer_ids.clear();
    }

    fn clear_preparations(&mut self)
        ensures
            final(self)@ == old(self)@.without_preparations(),
    {
        self.offer_preparation = Preparation::Absent;
        self.transfer_preparation = Preparation::Absent;
    }

    /// Asks a node for a link, and tells whether that was possible.
    pub fn start_sync(
        &mut self,
        mailbox: &mut SyncMailbox,
        node_hash: DestinationHash,
        link: NewLink,
        now: u64,
    ) -> (started: bool)
        ensures
            (
                Step { task: final(self)@, mailbox: final(mailbox)@ },
                started,
            ) == (Step { task: old(self)@, mailbox: old(mailbox)@ }).started(node_hash, link, now),
    {
        self.pending_transport.clear();
        assert(views(self.pending_transport@) =~= Seq::empty());
        self.preserve_pending_on_cleanup = false;
        self.reset_attempt_accounting();
        self.clear_preparations();
        self.clear_transfer();
        self.active_offer_generation = None;
        self.generation_exhausted = false;
        self.link_id = Some(link.link_id);
        self.attached_interface = None;
        self.pending_endpoint_bind = None;
        assert(self@ =~= old(self)@.fresh(link.link_id));
        if !self.queue_transport(
            mailbox,
            SyncTransport::RegisterDestination { hash: link.link_id },
        ) {
            self.state = SyncTaskState::Failed;
            return false;
        }
        if !self.queue_transport(
            mailbox,
            SyncTransport::LinkRequest { node_hash, request_data: link.request_data },
        ) {
            self.state = SyncTaskState::Failed;
            return false;
        }
        self.peer = Some(
            SyncPeer {
                destination_hash: node_hash,
                state: PeerState::LinkEstablishing,
                handled_messages: IdSet::new(),
            },
        );
        self.state = SyncTaskState::Establishing;
        self.sync_started = Some(now);
        self.last_offer_error = None;
        true
    }

    /// Starts a sync that was asked for, and tells whether it started. `link` is
    /// used only if it does.
    fn request_sync(
        &mut self,
        mailbox: &mut SyncMailbox,
        node_hash: DestinationHash,
        policy: Option<OutboundOfferPolicy>,
        link: NewLink,
        now: u64,
    ) -> (started: bool)
        ensures
            (
                Step { task: final(self)@, mailbox: final(mailbox)@ },
                started,
            ) == (Step { task: old(self)@, mailbox: old(mailbox)@ }).requested(
                node_hash,
                policy,
                link,
                now,
            ),
    {
        if self.state != SyncTaskState::Idle || self.terminal_result.is_some() {
            return false;
        }
        self.node_dest_hash = Some(node_hash);
        self.offer_policy = policy;
        self.last_offer_error = None;
        self.last_establish_error = None;
        self.last_finished_ok = None;
        if !self.start_sync(mailbox, node_hash, link, now) {
            return false;
        }
        self.last_sync = now;
        true
    }

    /// Starts a sync with a node now, and tells whether it started.
    pub fn request_sync_now(
        &mut self,
        mailbox: &mut SyncMailbox,
        node_hash: DestinationHash,
        link: NewLink,
        now: u64,
    ) -> (started: bool)
        ensures
            (
                Step { task: final(self)@, mailbox: final(mailbox)@ },
                started,
            ) == (Step { task: old(self)@, mailbox: old(mailbox)@ }).requested(
                node_hash,
                None,
                link,
                now,
            ),
    {
        self.request_sync(mailbox, node_hash, None, link, now)
    }

    /// Starts a sync by a peer's policy now, and tells whether it started.
    pub fn request_sync_now_with_policy(
        &mut self,
        mailbox: &mut SyncMailbox,
        policy: OutboundOfferPolicy,
        link: NewLink,
        now: u64,
    ) -> (started: bool)
        ensures
            (
                Step { task: final(self)@, mailbox: final(mailbox)@ },
                started,
            ) == (Step { task: old(self)@, mailbox: old(mailbox)@ }).requested(
                policy.peer_hash,
                Some(policy),
                link,
                now,
            ),
    {
        let node_hash: DestinationHash = policy.peer_hash;
        self.request_sync(mailbox, node_hash, Some(policy), link, now)
    }

    /// Tears the link down, and tells whether a last packet went out for it.
    fn send_teardown(&mut self, mailbox: &mut SyncMailbox, teardown: Option<Vec<u8>>) -> (sent:
        bool)
        ensures
            (
                Step { task: final(self)@, mailbox: final(mailbox)@ },
                sent,
            ) == (Step { task: old(self)@, mailbox: old(mailbox)@ }).torn_down(teardown),
    {
        match (self.link_id, teardown) {
            (Some(link_id), Some(body)) => self.queue_final_link_packet(
                mailbox,
                link_id,
                PacketContext::LinkClose,
                body,
            ),
            _ => false,
        }
    }

    /// Leaves nothing of the sync. `teardown` is the link's last packet, where
    /// it has one.
    pub fn cleanup_sync(&mut self, mailbox: &mut SyncMailbox, teardown: Option<Vec<u8>>)
        ensures
            (Step { task: final(self)@, mailbox: final(mailbox)@ }) == (Step {
                task: old(self)@,
                mailbox: old(mailbox)@,
            }).cleaned(teardown),
    {
        let release_queued: bool = self.preserve_pending_on_cleanup;
        if !release_queued {
            self.pending_transport.clear();
            assert(views(self.pending_transport@) =~= Seq::empty());
        }
        self.preserve_pending_on_cleanup = false;
        let graceful: bool = release_queued || self.send_teardown(mailbox, teardown);
        if let Some(link_id) = self.link_id.take() {
            if !graceful {
                self.queue_endpoint_cleanup(mailbox, link_id);
            }
        }
        self.attached_interface = None;
        self.pending_endpoint_bind = None;
        self.peer = None;
        self.clear_transfer();
        self.clear_preparations();
        self.sync_started = None;
    }

    /// Carries out what the link's watchdog wants.
    pub fn drive_link_watchdog(&mut self, mailbox: &mut SyncMailbox, action: LinkAction)
        ensures
            (Step { task: final(self)@, mailbox: final(mailbox)@ }) == (Step {
                task: old(self)@,
                mailbox: old(mailbox)@,
            }).watched(action),
    {
        let link_id: DestinationHash = match self.link_id {
            Some(link_id) => link_id,
            None => {
                self.state = SyncTaskState::Failed;
                return;
            },
        };
        match action {
            LinkAction::Nothing => {},
            LinkAction::Closed => {
                self.state = SyncTaskState::Failed;
            },
            LinkAction::SendTeardownAndClose(body) => {
                if body.len() > 0 {
                    self.preserve_pending_on_cleanup = self.queue_final_link_packet(
                        mailbox,
                        link_id,
                        PacketContext::LinkClose,
                        body,
                    );
                }
                self.state = SyncTaskState::Failed;
            },
            _ => {
                let mut body: Vec<u8> = Vec::new();
                body.push(KEEPALIVE_REQUEST);
                assert(body@ =~= seq![KEEPALIVE_REQUEST]);
                if !self.queue_link_endpoint(mailbox, PacketContext::Keepalive, body) {
                    self.state = SyncTaskState::Failed;
                }
            },
        }
    }
}

impl SyncTaskView {
    /// The task works for this peer, or is about to.
    pub open spec fn concerns(self, peer_hash: DestinationHash) -> bool {
        self.node_dest_hash == Some(peer_hash) || (self.offer_policy matches Some(policy)
            && policy.peer_hash == peer_hash)
    }

    /// The task without a node, a policy or anything learned for them.
    pub open spec fn forgotten(self) -> SyncTaskView {
        SyncTaskView {
            node_dest_hash: None,
            offer_policy: None,
            active_offer_generation: None,
            generation_exhausted: false,
            handled_updates: Seq::empty(),
            terminal_result: None,
            accounting: no_accounting(),
            state: SyncTaskState::Idle,
            ..self.without_transfer().without_preparations()
        }
    }
}

impl Step {
    /// The step after all work for a peer was cancelled.
    pub open spec fn cancelled(self, peer_hash: DestinationHash, teardown: Option<Vec<u8>>) -> Step {
        if !self.task.concerns(peer_hash) {
            self
        } else {
            let settled = if self.task.node_dest_hash == Some(peer_hash) && !(
            self.task.state is Idle) {
                self.cleaned(teardown)
            } else {
                self
            };
            Step { task: settled.task.forgotten(), ..settled }
        }
    }
}

/// The outcome of the sync that the task has finished.
pub open spec fn terminal_result_of(
    task: SyncTaskView,
    peer_hash: DestinationHash,
    now: u64,
) -> PeerSyncTerminalResult {
    let complete = task.state is Complete;
    PeerSyncTerminalResult {
        peer_hash,
        state: if complete {
            PeerSyncTerminalState::Complete
        } else {
            PeerSyncTerminalState::Failed
        },
        offer_generation: if complete {
            task.active_offer_generation
        } else {
            None
        },
        generation_exhausted: complete && task.generation_exhausted,
        offered: if complete {
            task.accounting.offered_count
        } else {
            0
        },
        outgoing: if complete {
            task.accounting.outgoing_count
        } else {
            0
        },
        tx_bytes: if complete {
            task.accounting.transfer_data_size
        } else {
            0
        },
        link_establishment_rate: task.accounting.link_establishment_rate,
        sync_transfer_rate: match task.accounting.transfer_started {
            Some(started) => if complete && task.accounting.outgoing_count > 0 {
                Some(
                    TransferRate {
                        wire_bytes: task.accounting.transfer_wire_size,
                        elapsed_ms: elapsed(started, now),
                    },
                )
            } else {
                None
            },
            None => None,
        },
    }
}

/// Time since `start`; none where it is still to come.
pub open spec fn elapsed(start: u64, now: u64) -> u64 {
    if now < start {
        0
    } else {
        (now - start) as u64
    }
}

impl SyncTaskView {
    /// The task with the outcome of its sync noted, unless an earlier one was
    /// not taken yet.
    pub open spec fn with_outcome(self, now: u64) -> SyncTaskView {
        SyncTaskView {
            last_finished_ok: Some(self.state is Complete),
            terminal_result: match (self.terminal_result, self.node_dest_hash) {
                (None, Some(peer_hash)) => Some(terminal_result_of(self, peer_hash, now)),
                (result, _) => result,
            },
            ..self
        }
    }

    /// The link or the response takes too long.
    pub open spec fn is_late(self, now: u64) -> bool {
        (self.state is Establishing || self.state is AwaitingResponse) && (
        self.sync_started matches Some(started) && elapsed(started, now) > self.sync_timeout)
    }

    /// Messages wait for the transport, and the sync is not over.
    pub open spec fn is_blocked(self) -> bool {
        self.pending_transport.len() > 0 && !is_terminal(self.state)
    }

    /// The link is to be watched.
    pub open spec fn is_watched(self) -> bool {
        !(self.state is Idle) && !is_terminal(self.state)
    }

    /// A sync that nobody asked for is due.
    pub open spec fn is_due(self, now: u64) -> bool {
        self.terminal_result is None && self.offer_policy is None && elapsed(self.last_sync, now)
            >= self.sync_interval
    }

    /// What is to be done in the task's state.
    pub open spec fn next_action(self, message_count: usize, now: u64) -> TickAction {
        match self.state {
            SyncTaskState::Idle => match self.node_dest_hash {
                Some(hash) => if self.is_due(now) && message_count > 0 {
                    TickAction::StartSync(hash)
                } else {
                    TickAction::Nothing
                },
                None => TickAction::Nothing,
            },
            SyncTaskState::Establishing => TickAction::Nothing,
            SyncTaskState::AwaitingResponse => TickAction::Nothing,
            SyncTaskState::Offering => TickAction::SendOfferRequest,
            SyncTaskState::Transferring => TickAction::DriveTransfers,
            SyncTaskState::Complete => TickAction::FinishSync,
            SyncTaskState::Failed => TickAction::FinishSync,
        }
    }

    /// The task after its next action was picked: without a message to offer,
    /// the next sync is due an interval later.
    pub open spec fn dispatched(self, message_count: usize, now: u64) -> SyncTaskView {
        if self.state is Idle && self.node_dest_hash is Some && self.is_due(now) && message_count
            == 0 {
            SyncTaskView { last_sync: now, ..self }
        } else {
            self
        }
    }
}

impl Step {
    /// The step after the waiting messages went out, as far as the transport
    /// took them. Where it is gone, the sync fails.
    pub open spec fn flushed(self) -> Step {
        let open = self.task.pending_transport.len() == 0 || !self.mailbox.closed;
        Step {
            task: SyncTaskView {
                pending_transport: flushed_pending(self.task.pending_transport, self.mailbox),
                state: if !open && !(self.task.state is Idle) {
                    SyncTaskState::Failed
                } else {
                    self.task.state
                },
                ..self.task
            },
            mailbox: flushed_mailbox(self.task.pending_transport, self.mailbox),
        }
    }

    /// The step after a late link or response failed the sync.
    pub open spec fn timed_out(self, now: u64) -> Step {
        if self.task.is_late(now) {
            self.in_state(SyncTaskState::Failed)
        } else {
            self
        }
    }

    /// The step after the start of a tick: waiting messages go out, the
    /// transport's reports are looked at, and a late link or response fails the
    /// sync.
    pub open spec fn tick_begun(self, reports: EndpointReports, now: u64) -> Step {
        self.flushed().reported(reports, now).timed_out(now)
    }

    /// The step after the link was watched, where it is to be watched.
    pub open spec fn tick_watched(self, action: LinkAction) -> Step {
        if self.task.is_watched() {
            self.watched(action)
        } else {
            self
        }
    }

    /// The step after a whole tick.
    pub open spec fn ticked(
        self,
        reports: EndpointReports,
        action: LinkAction,
        message_count: usize,
        now: u64,
    ) -> Step {
        let begun = self.tick_begun(reports, now);
        if begun.task.is_blocked() {
            begun
        } else {
            let watched = begun.tick_watched(action);
            Step { task: watched.task.dispatched(message_count, now), ..watched }
        }
    }

    /// What is to be done after a whole tick.
    pub open spec fn tick_action(
        self,
        reports: EndpointReports,
        action: LinkAction,
        message_count: usize,
        now: u64,
    ) -> TickAction {
        let begun = self.tick_begun(reports, now);
        if begun.task.is_blocked() {
            TickAction::Nothing
        } else {
            begun.tick_watched(action).task.next_action(message_count, now)
        }
    }

    /// The step after a sync ended.
    pub open spec fn finished(self, teardown: Option<Vec<u8>>, now: u64) -> Step {
        let noted = Step { task: self.task.with_outcome(now), ..self };
        let cleaned = noted.cleaned(teardown);
        Step {
            task: SyncTaskView { last_sync: now, state: SyncTaskState::Idle, ..cleaned.task },
            ..cleaned
        }
    }
}

/// How a tick goes on after its start.
#[derive(Debug, Clone, Copy, PartialEq, Eq, Structural)]
pub enum TickPhase {
    /// Messages wait for the transport.
    Blocked,
    /// The link is to be watched.
    Watch,
    /// There is no link to watch.
    Dispatch,
}

impl PropagationSyncTask {
    /// Cancels all work for a peer, and tells whether there was any.
    pub fn cancel_peer_sync(
        &mut self,
        mailbox: &mut SyncMailbox,
        node: &mut PropagationNode,
        peer_hash: &DestinationHash,
        teardown: Option<Vec<u8>>,
    ) -> (cancelled: bool)
        requires
            old(node)@.wf(),
        ensures
            final(node)@.wf(),
            cancelled == old(self)@.concerns(*peer_hash),
            (Step { task: final(self)@, mailbox: final(mailbox)@ }) == (Step {
                task: old(self)@,
                mailbox: old(mailbox)@,
            }).cancelled(*peer_hash, teardown),
            final(node)@ == (if cancelled {
                NodeView { sessions: old(node)@.sessions.remove(*peer_hash), ..old(node)@ }
            } else {
                old(node)@
            }),
    {
        let matches_active: bool = is_link(&self.node_dest_hash, peer_hash);
        let matches_policy: bool = match &self.offer_policy {
            Some(policy) => same_id(&policy.peer_hash, peer_hash),
            None => false,
        };
        if !matches_active && !matches_policy {
            return false;
        }
        if matches_active && self.state != SyncTaskState::Idle {
            self.cleanup_sync(mailbox, teardown);
        }
        node.remove_session(peer_hash);
        self.node_dest_hash = None;
        self.offer_policy = None;
        self.clear_preparations();
        self.clear_transfer();
        self.active_offer_generation = None;
        self.generation_exhausted = false;
        self.handled_updates.clear();
        self.terminal_result = None;
        self.reset_attempt_accounting();
        self.state = SyncTaskState::Idle;
        true
    }

    /// Lets the waiting messages go out, and fails the sync where the transport
    /// is gone.
    fn flush_or_fail(&mut self, mailbox: &mut SyncMailbox)
        ensures
            (Step { task: final(self)@, mailbox: final(mailbox)@ }) == (Step {
                task: old(self)@,
                mailbox: old(mailbox)@,
            }).flushed(),
    {
        if !self.flush_pending_transport(mailbox) && self.state != SyncTaskState::Idle {
            self.state = SyncTaskState::Failed;
        }
    }

    /// Starts a tick, and says how it goes on.
    pub fn begin_tick(
        &mut self,
        mailbox: &mut SyncMailbox,
        reports: EndpointReports,
        now: u64,
    ) -> (phase: TickPhase)
        requires
            reports.fits(old(self)@),
        ensures
            (Step { task: final(self)@, mailbox: final(mailbox)@ }) == (Step {
                task: old(self)@,
                mailbox: old(mailbox)@,
            }).tick_begun(reports, now),
            phase is Blocked <==> final(self)@.is_blocked(),
            phase is Watch <==> !final(self)@.is_blocked() && final(self)@.is_watched(),
    {
        self.flush_or_fail(mailbox);
        self.poll_endpoint_control(mailbox, reports, now);
        let waiting: bool = self.state == SyncTaskState::Establishing || self.state
            == SyncTaskState::AwaitingResponse;
        if let Some(started) = self.sync_started {
            if waiting && now.saturating_sub(started) > self.sync_timeout {
                self.state = SyncTaskState::Failed;
            }
        }
        let terminal: bool = self.state == SyncTaskState::Complete || self.state
            == SyncTaskState::Failed;
        if self.pending_transport.len() > 0 && !terminal {
            return TickPhase::Blocked;
        }
        if self.state != SyncTaskState::Idle && !terminal {
            TickPhase::Watch
        } else {
            TickPhase::Dispatch
        }
    }

    /// Picks what is to be done in the task's state.
    pub fn dispatch_tick(&mut self, message_count: usize, now: u64) -> (action: TickAction)
        ensures
            final(self)@ == old(self)@.dispatched(message_count, now),
            action == old(self)@.next_action(message_count, now),
    {
        match self.state {
            SyncTaskState::Idle => {
                if self.terminal_result.is_some() || self.offer_policy.is_some()
                    || now.saturating_sub(self.last_sync) < self.sync_interval {
                    return TickAction::Nothing;
                }
                match self.node_dest_hash {
                    Some(hash) => {
                        if message_count > 0 {
                            TickAction::StartSync(hash)
                        } else {
                            self.last_sync = now;
                            TickAction::Nothing
                        }
                    },
                    None => TickAction::Nothing,
                }
            },
            SyncTaskState::Establishing => TickAction::Nothing,
            SyncTaskState::AwaitingResponse => TickAction::Nothing,
            SyncTaskState::Offering => TickAction::SendOfferRequest,
            SyncTaskState::Transferring => TickAction::DriveTransfers,
            SyncTaskState::Complete => TickAction::FinishSync,
            SyncTaskState::Failed => TickAction::FinishSync,
        }
    }

    /// Goes through a tick, and says what is to be done after it. `action` is
    /// what the link's watchdog wants, where there is a link.
    pub fn tick(
        &mut self,
        mailbox: &mut SyncMailbox,
        reports: EndpointReports,
        action: LinkAction,
        message_count: usize,
        now: u64,
    ) -> (next: TickAction)
        requires
            reports.fits(old(self)@),
        ensures
            (Step { task: final(self)@, mailbox: final(mailbox)@ }) == (Step {
                task: old(self)@,
                mailbox: old(mailbox)@,
            }).ticked(reports, action, message_count, now),
            next == (Step { task: old(self)@, mailbox: old(mailbox)@ }).tick_action(
                reports,
                action,
                message_count,
                now,
            ),
    {
        match self.begin_tick(mailbox, reports, now) {
            TickPhase::Blocked => {
                return TickAction::Nothing;
            },
            TickPhase::Watch => {
                self.drive_link_watchdog(mailbox, action);
            },
            TickPhase::Dispatch => {},
        }
        self.dispatch_tick(message_count, now)
    }

    /// Notes the outcome of a sync and leaves nothing of it.
    pub fn finish_sync(&mut self, mailbox: &mut SyncMailbox, teardown: Option<Vec<u8>>, now: u64)
        requires
            is_terminal(old(self)@.state),
        ensures
            (Step { task: final(self)@, mailbox: final(mailbox)@ }) == (Step {
                task: old(self)@,
                mailbox: old(mailbox)@,
            }).finished(teardown, now),
    {
        let complete: bool = self.state == SyncTaskState::Complete;
        self.last_finished_ok = Some(complete);
        if self.terminal_result.is_none() {
            if let Some(peer_hash) = self.node_dest_hash {
                let sync_transfer_rate: Option<TransferRate> = match self.transfer_started {
                    Some(started) => if complete && self.outgoing_count > 0 {
                        Some(
                            TransferRate {
                                wire_bytes: self.transfer_wire_size,
                                elapsed_ms: now.saturating_sub(started),
                            },
                        )
                    } else {
                        None
                    },
                    None => None,
                };
                self.terminal_result = Some(
                    PeerSyncTerminalResult {
                        peer_hash,
                        state: if complete {
                            PeerSyncTerminalState::Complete
                        } else {
                            PeerSyncTerminalState::Failed
                        },
                        offer_generation: if complete {
                            self.active_offer_generation
                        } else {
                            None
                        },
                        generation_exhausted: complete && self.generation_exhausted,
                        offered: if complete {
                            self.offered_count
                        } else {
                            0
                        },
                        outgoing: if complete {
                            self.outgoing_count
                        } else {
                            0
                        },
                        tx_bytes: if complete {
                            self.transfer_data_size
                        } else {
                            0
                        },
                        link_establishment_rate: self.link_establishment_rate,
                        sync_transfer_rate,
                    },
                );
            }
        }
        assert(self@ =~= old(self)@.with_outcome(now));
        self.cleanup_sync(mailbox, teardown);
        self.last_sync = now;
        self.state = SyncTaskState::Idle;
    }
}

/// A sync that is under way, or whose outcome was not taken yet, is never
/// turned to another peer.
pub proof fn law_active_sync_not_retargeted(
    step: Step,
    node_hash: DestinationHash,
    policy: Option<OutboundOfferPolicy>,
    link: NewLink,
    now: u64,
)
    requires
        !(step.task.state is Idle) || step.task.terminal_result is Some,
    ensures
        step.requested(node_hash, policy, link, now) == (step, false),
{
}

/// An outcome stays until it is taken: neither a later sync nor a tick replaces
/// it.
pub proof fn law_outcome_is_kept(task: SyncTaskView, now: u64, later: u64)
    requires
        task.node_dest_hash is Some,
    ensures
        ({
            let first = task.with_outcome(now);
            first.terminal_result is Some && first.with_outcome(later).terminal_result
                == first.terminal_result
        }),
{
}

/// A sync that failed counts nothing and settles no revision of the store, so
/// that everything is offered again.
pub proof fn law_failure_settles_nothing(
    task: SyncTaskView,
    peer_hash: DestinationHash,
    now: u64,
)
    requires
        !(task.state is Complete),
    ensures
        ({
            let result = terminal_result_of(task, peer_hash, now);
            &&& result.state is Failed
            &&& result.offer_generation is None
            &&& !result.generation_exhausted
            &&& result.offered == 0 && result.outgoing == 0 && result.tx_bytes == 0
            &&& result.sync_transfer_rate is None
        }),
{
}

/// A finished sync leaves an idle task without a link, a peer, a transfer or an
/// offer.
pub proof fn law_finish_leaves_nothing(step: Step, teardown: Option<Vec<u8>>, now: u64)
    ensures
        ({
            let after = step.finished(teardown, now).task;
            &&& after.state is Idle
            &&& after.link_id is None && after.attached_interface is None
            &&& after.peer is None && after.active_transfer is None
            &&& after.active_transfer_ids.len() == 0
            &&& after.offer_preparation is Absent && after.transfer_preparation is Absent
            &&& after.last_sync == now
        }),
{
}

/// After a peer's sync was cancelled, nothing is left of it.
pub proof fn law_cancel_forgets_peer(
    step: Step,
    peer_hash: DestinationHash,
    teardown: Option<Vec<u8>>,
)
    requires
        step.task.concerns(peer_hash),
    ensures
        ({
            let after = step.cancelled(peer_hash, teardown).task;
            &&& !after.concerns(peer_hash)
            &&& after.state is Idle
            &&& after.terminal_result is None && after.handled_updates.len() == 0
            &&& after.active_transfer is None
        }),
{
}

/// To cancel the sync of a peer that the task does not work for changes
/// nothing.
pub proof fn law_cancel_spares_others(
    step: Step,
    peer_hash: DestinationHash,
    teardown: Option<Vec<u8>>,
)
    requires
        !step.task.concerns(peer_hash),
    ensures
        step.cancelled(peer_hash, teardown) == step,
{
}

/// A link or a response that takes too long fails the sync.
pub proof fn law_late_sync_fails(step: Step, now: u64, started: u64)
    requires
        step.task.state is Establishing || step.task.state is AwaitingResponse,
        step.task.sync_started == Some(started),
        started + step.task.sync_timeout < now,
    ensures
        step.timed_out(now).task.state is Failed,
{
}

/// With a policy, or with an outcome that was not taken, an idle task starts no
/// sync by itself.
pub proof fn law_no_sync_unasked(task: SyncTaskView, message_count: usize, now: u64)
    requires
        task.state is Idle,
        task.offer_policy is Some || task.terminal_result is Some || message_count == 0,
    ensures
        task.next_action(message_count, now) is Nothing,
{
}

} // verus!
