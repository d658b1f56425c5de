//! Packets on the link of a sync, and what the transport reports of them.

use vstd::prelude::*;
use crate::ids::{same_id, DestinationHash};
use super::{
    PacketContext, PeerState, PendingEndpointBind, PendingEndpointSend, PropagationSyncTask,
    SyncMailbox, SyncTaskState, SyncTransport,
};
#[allow(unused_imports)]
use super::{AttemptAccounting, Step, SyncPeerView, SyncTaskView, SyncTransportView};

verus! {

/// What became of a packet on the link.
#[derive(Debug, Clone, Copy, PartialEq, Eq, Structural)]
pub enum SendPoll {
    /// Nothing is known yet.
    Waiting,
    /// It was sent, or waits to be sent.
    Accepted,
    /// It was refused.
    Rejected,
    /// Nothing will be known.
    Closed,
}

/// What became of the release of a link.
#[derive(Debug, Clone, Copy, PartialEq, Eq, Structural)]
pub enum UnbindPoll {
    /// Nothing is known yet.
    Waiting,
    /// The link is released.
    Released,
    /// The link belongs to the other side.
    RoleMismatch,
    /// Nothing will be known.
    Closed,
}

/// What became of binding a link to its interface.
#[derive(Debug, Clone, Copy, PartialEq, Eq, Structural)]
pub enum BindPoll {
    /// Nothing is known yet.
    Waiting,
    /// The link is bound.
    Bound,
    /// The link cannot be bound.
    Refused,
}

/// The end of a link endpoint.
#[derive(Debug, Clone, Copy)]
pub struct EndpointEvent {
    pub link_id: DestinationHash,
    /// The endpoint is the one that asked for the link.
    pub initiator: bool,
}

/// The packet that identifies the task on its link.
#[derive(Debug)]
pub enum Identification {
    /// The task has no identity to show.
    Unavailable,
    /// The link could not form the packet.
    Failed,
    /// The packet.
    Packet(Vec<u8>),
}

impl Step {
    /// A packet can be sent on the link now.
    pub open spec fn sends_on_link(self) -> bool {
        self.task.link_id is Some && self.keeps()
    }

    /// The step after a packet was sent on the link.
    pub open spec fn sent_on_link(self, context: PacketContext, body: Seq<u8>) -> Step {
        match self.task.link_id {
            Some(link_id) => {
                let queued = self.queued(
                    SyncTransportView::SendLinkEndpoint { link_id, context, body },
                );
                if self.keeps() {
                    queued.awaiting(PendingEndpointSend { link_id, final_send: false })
                } else {
                    queued
                }
            },
            None => self,
        }
    }

    /// The step after a last packet was sent on a link, which releases it.
    pub open spec fn sent_last(
        self,
        link_id: DestinationHash,
        context: PacketContext,
        body: Seq<u8>,
    ) -> Step {
        let queued = self.queued(
            SyncTransportView::SendLinkEndpointAndUnbind { link_id, context, body },
        );
        if self.keeps() {
            queued.awaiting(PendingEndpointSend { link_id, final_send: true })
        } else {
            queued
        }
    }

    /// The step with one more packet whose outcome is not known.
    pub open spec fn awaiting(self, send: PendingEndpointSend) -> Step {
        Step {
            task: SyncTaskView {
                pending_endpoint_sends: self.task.pending_endpoint_sends.push(send),
                ..self.task
            },
            ..self
        }
    }

    /// The step after the release of a link was asked for.
    pub open spec fn releasing(self, link_id: DestinationHash) -> Step {
        let queued = self.queued(SyncTransportView::UnbindLinkEndpoint { link_id });
        if self.keeps() {
            Step {
                task: SyncTaskView {
                    pending_endpoint_cleanups: queued.task.pending_endpoint_cleanups.push(link_id),
                    ..queued.task
                },
                ..queued
            }
        } else {
            queued
        }
    }

    /// The step in which the sync fails if this link is its own.
    pub open spec fn failed_if_linked(self, link_id: DestinationHash) -> Step {
        if self.task.link_id == Some(link_id) {
            self.in_state(SyncTaskState::Failed)
        } else {
            self
        }
    }

    /// The step after the outcome of a packet was looked at: a refused packet
    /// fails the sync, and a refused last packet still has its link released.
    pub open spec fn send_polled(self, send: PendingEndpointSend, poll: SendPoll) -> Step {
        match poll {
            SendPoll::Waiting => self.awaiting(send),
            SendPoll::Accepted => self,
            SendPoll::Rejected => {
                let failed = self.failed_if_linked(send.link_id);
                if send.final_send {
                    failed.releasing(send.link_id)
                } else {
                    failed
                }
            },
            SendPoll::Closed => self.failed_if_linked(send.link_id),
        }
    }

    /// The step after the outcomes of the first `n` packets were looked at.
    pub open spec fn sends_polled(
        self,
        sends: Seq<PendingEndpointSend>,
        polls: Seq<SendPoll>,
        n: int,
    ) -> Step
        decreases n,
    {
        if n <= 0 {
            Step {
                task: SyncTaskView { pending_endpoint_sends: Seq::empty(), ..self.task },
                ..self
            }
        } else {
            self.sends_polled(sends, polls, n - 1).send_polled(sends[n - 1], polls[n - 1])
        }
    }

    /// The step after the outcome of a release was looked at: a link that is
    /// released needs no more packets.
    pub open spec fn release_polled(self, link_id: DestinationHash, poll: UnbindPoll) -> Step {
        match poll {
            UnbindPoll::Waiting => Step {
                task: SyncTaskView {
                    pending_endpoint_cleanups: self.task.pending_endpoint_cleanups.push(link_id),
                    ..self.task
                },
                ..self
            },
            UnbindPoll::Released => self.queued(
                SyncTransportView::DeregisterDestination { hash: link_id },
            ),
            UnbindPoll::RoleMismatch => self,
            UnbindPoll::Closed => self,
        }
    }

    /// The step after the outcomes of the first `n` releases were looked at.
    /// Nothing is known yet of a release without an outcome.
    pub open spec fn releases_polled(
        self,
        links: Seq<DestinationHash>,
        polls: Seq<UnbindPoll>,
        n: int,
    ) -> Step
        decreases n,
    {
        if n <= 0 {
            Step {
                task: SyncTaskView { pending_endpoint_cleanups: Seq::empty(), ..self.task },
                ..self
            }
        } else {
            self.releases_polled(links, polls, n - 1).release_polled(
                links[n - 1],
                if n <= polls.len() {
                    polls[n - 1]
                } else {
                    UnbindPoll::Waiting
                },
            )
        }
    }

    /// The step after all outcomes were looked at.
    pub open spec fn endpoints_polled(self, sends: Seq<SendPoll>, releases: Seq<UnbindPoll>) -> Step {
        let sent = self.sends_polled(
            self.task.pending_endpoint_sends,
            sends,
            self.task.pending_endpoint_sends.len() as int,
        );
        sent.releases_polled(
            sent.task.pending_endpoint_cleanups,
            releases,
            sent.task.pending_endpoint_cleanups.len() as int,
        )
    }
}

impl SyncTaskView {
    /// The task after an endpoint ended: its own fails the sync.
    pub open spec fn endpoint_ended(self, event: EndpointEvent) -> SyncTaskView {
        if self.link_id == Some(event.link_id) && event.initiator {
            SyncTaskView {
                attached_interface: None,
                pending_endpoint_bind: None,
                state: SyncTaskState::Failed,
                ..self
            }
        } else {
            self
        }
    }

    /// The task after the first `n` endpoints ended.
    pub open spec fn endpoints_ended(self, events: Seq<EndpointEvent>, n: int) -> SyncTaskView
        decreases n,
    {
        if n <= 0 {
            self
        } else {
            self.endpoints_ended(events, n - 1).endpoint_ended(events[n - 1])
        }
    }
}

impl Step {
    /// The step after the task identified itself, and whether it could. A task
    /// without an identity goes on without.
    pub open spec fn identified(self, identification: Identification) -> (Step, bool) {
        match identification {
            Identification::Unavailable => (self, true),
            Identification::Failed => (self, false),
            Identification::Packet(body) => (
                self.sent_on_link(PacketContext::LinkIdentify, body@),
                self.sends_on_link(),
            ),
        }
    }

    /// The step after the link was bound: the handshake is finished, the task
    /// identifies itself, and the offer is next.
    pub open spec fn bound(
        self,
        bind: PendingEndpointBind,
        identification: Identification,
        rate: Option<u64>,
        now: u64,
    ) -> Step {
        let attached = Step {
            task: SyncTaskView { attached_interface: Some(bind.interface_id), ..self.task },
            ..self
        };
        let sent = attached.sent_on_link(PacketContext::Lrrtt, bind.rtt_data@);
        if !attached.sends_on_link() {
            sent.in_state(SyncTaskState::Failed)
        } else {
            let ready = Step {
                task: SyncTaskView {
                    accounting: AttemptAccounting {
                        link_establishment_rate: rate,
                        ..sent.task.accounting
                    },
                    peer: match sent.task.peer {
                        Some(peer) => Some(SyncPeerView { state: PeerState::LinkReady, ..peer }),
                        None => None,
                    },
                    ..sent.task
                },
                ..sent
            };
            let (identified, done) = ready.identified(identification);
            if done {
                Step {
                    task: SyncTaskView {
                        state: SyncTaskState::Offering,
                        sync_started: Some(now),
                        ..identified.task
                    },
                    ..identified
                }
            } else {
                Step {
                    task: SyncTaskView {
                        last_offer_error: Some("ErrorNoIdentity"),
                        state: SyncTaskState::Failed,
                        ..identified.task
                    },
                    ..identified
                }
            }
        }
    }

    /// The step after the outcome of binding the link was looked at.
    pub open spec fn bind_polled(
        self,
        poll: BindPoll,
        identification: Identification,
        rate: Option<u64>,
        now: u64,
    ) -> Step {
        let taken = Step {
            task: SyncTaskView { pending_endpoint_bind: None, ..self.task },
            ..self
        };
        match (self.task.pending_endpoint_bind, poll) {
            (Some(bind), BindPoll::Bound) => taken.bound(bind, identification, rate, now),
            (Some(_), BindPoll::Refused) => taken.in_state(SyncTaskState::Failed),
            _ => self,
        }
    }
}

/// What the transport reports of the link since the last step.
#[derive(Debug)]
pub struct EndpointReports {
    /// Outcome of each packet that was waited for.
    pub sends: Vec<SendPoll>,
    /// Outcome of each release that was waited for.
    pub releases: Vec<UnbindPoll>,
    pub ended: Vec<EndpointEvent>,
    pub bind: BindPoll,
    pub identification: Identification,
    /// Rate at which the link was established, by its IEEE 754 bits.
    pub establishment_rate: Option<u64>,
}

impl EndpointReports {
    /// There is an outcome for each packet that is waited for.
    pub open spec fn fits(&self, task: SyncTaskView) -> bool {
        self.sends@.len() == task.pending_endpoint_sends.len()
    }
}

impl Step {
    /// The step after the transport's reports were looked at.
    pub open spec fn reported(self, reports: EndpointReports, now: u64) -> Step {
        let polled = self.endpoints_polled(reports.sends@, reports.releases@);
        let ended = Step {
            task: polled.task.endpoints_ended(reports.ended@, reports.ended@.len() as int),
            ..polled
        };
        ended.bind_polled(
            reports.bind,
            reports.identification,
            reports.establishment_rate,
            now,
        )
    }
}

/// Tells whether `link_id` is this one.
pub(crate) fn is_link(link_id: &Option<DestinationHash>, other: &DestinationHash) -> (same: bool)
    ensures
        same == (*link_id == Some(*other)),
{
    match link_id {
        Some(link_id) => same_id(link_id, other),
        None => false,
    }
}

impl PropagationSyncTask {
    /// Sends a packet on the link, and tells whether it was kept.
    pub fn queue_link_endpoint(
        &mut self,
        mailbox: &mut SyncMailbox,
        context: PacketContext,
        body: Vec<u8>,
    ) -> (kept: bool)
        ensures
            ({
                let before = Step { task: old(self)@, mailbox: old(mailbox)@ };
                kept == before.sends_on_link() && (Step {
                    task: final(self)@,
                    mailbox: final(mailbox)@,
                }) == before.sent_on_link(context, body@)
            }),
    {
        let link_id: DestinationHash = match self.link_id {
            Some(link_id) => link_id,
            None => {
                return false;
            },
        };
        if !self.queue_transport(
            mailbox,
            SyncTransport::SendLinkEndpoint { link_id, context, body },
        ) {
            return false;
        }
        self.pending_endpoint_sends.push(PendingEndpointSend { link_id, final_send: false });
        true
    }

    /// Sends a last packet on a link, and tells whether it was kept.
    pub fn queue_final_link_packet(
        &mut self,
        mailbox: &mut SyncMailbox,
        link_id: DestinationHash,
        context: PacketContext,
        body: Vec<u8>,
    ) -> (kept: bool)
        ensures
            ({
                let before = Step { task: old(self)@, mailbox: old(mailbox)@ };
                kept == before.keeps() && (Step { task: final(self)@, mailbox: final(mailbox)@ })
                    == before.sent_last(link_id, context, body@)
            }),
    {
        if !self.queue_transport(
            mailbox,
            SyncTransport::SendLinkEndpointAndUnbind { link_id, context, body },
        ) {
            return false;
        }
        self.pending_endpoint_sends.push(PendingEndpointSend { link_id, final_send: true });
        true
    }

    /// Asks for the release of a link.
    pub fn queue_endpoint_cleanup(&mut self, mailbox: &mut SyncMailbox, link_id: DestinationHash)
        ensures
            (Step { task: final(self)@, mailbox: final(mailbox)@ }) == (Step {
                task: old(self)@,
                mailbox: old(mailbox)@,
            }).releasing(link_id),
    {
        if self.queue_transport(mailbox, SyncTransport::UnbindLinkEndpoint { link_id }) {
            self.pending_endpoint_cleanups.push(link_id);
        }
    }

    /// Fails the sync if this link is its own.
    fn fail_if_linked(&mut self, link_id: &DestinationHash)
        ensures
            final(self)@ == (if old(self)@.link_id == Some(*link_id) {
                old(self)@.in_state(SyncTaskState::Failed)
            } else {
                old(self)@
            }),
    {
        if is_link(&self.link_id, link_id) {
            self.state = SyncTaskState::Failed;
        }
    }

    /// Looks at the outcomes of packets and releases.
    pub fn poll_endpoint_send_results(
        &mut self,
        mailbox: &mut SyncMailbox,
        sends: &Vec<SendPoll>,
        releases: &Vec<UnbindPoll>,
    )
        requires
            sends@.len() == old(self)@.pending_endpoint_sends.len(),
        ensures
            (Step { task: final(self)@, mailbox: final(mailbox)@ }) == (Step {
                task: old(self)@,
                mailbox: old(mailbox)@,
            }).endpoints_polled(sends@, releases@),
    {
        let ghost before = Step { task: self@, mailbox: mailbox@ };
        let mut waiting: Vec<PendingEndpointSend> = Vec::new();
        std::mem::swap(&mut waiting, &mut self.pending_endpoint_sends);
        let ghost all = waiting@;
        let mut i: usize = 0;
        assert((Step { task: self@, mailbox: mailbox@ }) =~= before.sends_polled(all, sends@, 0));
        while i < waiting.len()
            invariant
                i <= waiting@.len(),
                waiting@ == all,
                sends@.len() == all.len(),
                (Step { task: self@, mailbox: mailbox@ }) == before.sends_polled(
                    all,
                    sends@,
                    i as int,
                ),
            decreases waiting@.len() - i,
        {
            let send: PendingEndpointSend = waiting[i];
            match sends[i] {
                SendPoll::Waiting => {
                    self.pending_endpoint_sends.push(send);
                },
                SendPoll::Accepted => {},
                SendPoll::Rejected => {
                    self.fail_if_linked(&send.link_id);
                    if send.final_send {
                        self.queue_endpoint_cleanup(mailbox, send.link_id);
                    }
                },
                SendPoll::Closed => {
                    self.fail_if_linked(&send.link_id);
                },
            }
            i = i + 1;
        }
        let ghost sent = Step { task: self@, mailbox: mailbox@ };
        let mut cleanups: Vec<DestinationHash> = Vec::new();
        std::mem::swap(&mut cleanups, &mut self.pending_endpoint_cleanups);
        let ghost links = cleanups@;
        let mut k: usize = 0;
        assert((Step { task: self@, mailbox: mailbox@ }) =~= sent.releases_polled(
            links,
            releases@,
            0,
        ));
        while k < cleanups.len()
            invariant
                k <= cleanups@.len(),
                cleanups@ == links,
                (Step { task: self@, mailbox: mailbox@ }) == sent.releases_polled(
                    links,
                    releases@,
                    k as int,
                ),
            decreases cleanups@.len() - k,
        {
            let link_id: DestinationHash = cleanups[k];
            let poll: UnbindPoll = if k < releases.len() {
                releases[k]
            } else {
                UnbindPoll::Waiting
            };
            match poll {
                UnbindPoll::Waiting => {
                    self.pending_endpoint_cleanups.push(link_id);
                },
                UnbindPoll::Released => {
                    self.queue_transport(
                        mailbox,
                        SyncTransport::DeregisterDestination { hash: link_id },
                    );
                },
                UnbindPoll::RoleMismatch => {},
                UnbindPoll::Closed => {},
            }
            k = k + 1;
        }
    }

    /// Identifies the task on its link, and tells whether that was possible.
    pub fn send_identify(
        &mut self,
        mailbox: &mut SyncMailbox,
        identification: Identification,
    ) -> (done: bool)
        ensures
            (
                Step { task: final(self)@, mailbox: final(mailbox)@ },
                done,
            ) == (Step { task: old(self)@, mailbox: old(mailbox)@ }).identified(identification),
    {
        match identification {
            Identification::Unavailable => true,
            Identification::Failed => false,
            Identification::Packet(body) => self.queue_link_endpoint(
                mailbox,
                PacketContext::LinkIdentify,
                body,
            ),
        }
    }

    /// Finishes the handshake on a link that was bound.
    fn complete_bind(
        &mut self,
        mailbox: &mut SyncMailbox,
        bind: PendingEndpointBind,
        identification: Identification,
        rate: Option<u64>,
        now: u64,
    )
        ensures
            (Step { task: final(self)@, mailbox: final(mailbox)@ }) == (Step {
                task: old(self)@,
                mailbox: old(mailbox)@,
            }).bound(bind, identification, rate, now),
    {
        self.attached_interface = Some(bind.interface_id);
        if !self.queue_link_endpoint(mailbox, PacketContext::Lrrtt, bind.rtt_data) {
            self.state = SyncTaskState::Failed;
            return;
        }
        self.link_establishment_rate = rate;
        if let Some(peer) = &mut self.peer {
            peer.state = PeerState::LinkReady;
        }
        if !self.send_identify(mailbox, identification) {
            self.last_offer_error = Some("ErrorNoIdentity");
            self.state = SyncTaskState::Failed;
            return;
        }
        self.state = SyncTaskState::Offering;
        self.sync_started = Some(now);
    }

    /// Looks at what the transport reports of the link. Once the link is bound,
    /// the handshake is finished and the offer is next.
    pub fn poll_endpoint_control(
        &mut self,
        mailbox: &mut SyncMailbox,
        reports: EndpointReports,
        now: u64,
    )
        requires
            reports.fits(old(self)@),
        ensures
            (Step { task: final(self)@, mailbox: final(mailbox)@ }) == (Step {
                task: old(self)@,
                mailbox: old(mailbox)@,
            }).reported(reports, now),
    {
        self.poll_endpoint_send_results(mailbox, &reports.sends, &reports.releases);
        let ghost polled = self@;
        let mut i: usize = 0;
        while i < reports.ended.len()
            invariant
                i <= reports.ended@.len(),
                self@ == polled.endpoints_ended(reports.ended@, i as int),
            decreases reports.ended@.len() - i,
        {
            let event: EndpointEvent = reports.ended[i];
            if is_link(&self.link_id, &event.link_id) && event.initiator {
                self.attached_interface = None;
                self.pending_endpoint_bind = None;
                self.state = SyncTaskState::Failed;
            }
            i = i + 1;
        }
        match reports.bind {
            BindPoll::Waiting => {},
            BindPoll::Bound => {
                if let Some(bind) = self.pending_endpoint_bind.take() {
                    self.complete_bind(
                        mailbox,
                        bind,
                        reports.identification,
                        reports.establishment_rate,
                        now,
                    );
                }
            },
            BindPoll::Refused => {
                if self.pending_endpoint_bind.is_some() {
                    self.pending_endpoint_bind = None;
                    self.state = SyncTaskState::Failed;
                }
            },
        }
    }
}

} // verus!
