//! Sending the wanted messages as a resource, segment by segment.

use vstd::prelude::*;
use crate::ids::{contains_id, copy_bytes, id_from_bytes, same_id, PropagationTransientId};
use crate::msgpack::{encode_value, Outgoing};
#[allow(unused_imports)]
use crate::msgpack::{
    byte_views, fits_lengths, msgpack_encoded, seconds_bits, slice_of, timed_wire, WireView,
};
#[allow(unused_imports)]
use crate::daemon::intake::{wrapped_entries, wrapper_entries};
use crate::node::peers::read_planned_messages;
#[allow(unused_imports)]
use crate::node::peers::{message_read_views, message_views, messages_read};
use crate::node::PropagationNode;
use super::offer::TransferPlan;
use super::{
    PacketContext, Preparation, PreparedTransferBatch, PropagationSyncTask, SyncMailbox,
    SyncTaskState, TransferHandle,
};
#[allow(unused_imports)]
use super::{AttemptAccounting, Step, SyncPeerView, SyncTaskView};
#[allow(unused_imports)]
use crate::node::NodeView;
#[allow(unused_imports)]
use crate::transport::views;

verus! {

/// First byte of a resource request whose sender has run out of part hashes.
pub const HASHMAP_IS_EXHAUSTED: u8 = 0xff;

/// Length of a part hash.
pub const MAPHASH_LEN: usize = 4;

/// Most packets that one step sends of a transfer.
pub const TRANSFER_STEP_LIMIT: usize = 16;

/// The body of a resource packet, as it is and encrypted for the link. The
/// link may fail to encrypt it.
#[derive(Debug)]
pub struct Frame {
    pub data: Vec<u8>,
    pub encrypted: Option<Vec<u8>>,
}

/// Which side cancels a resource.
#[derive(Debug, Clone, Copy, PartialEq, Eq, Structural)]
pub enum CancelType {
    Initiator,
    Receiver,
}

/// What a resource transfer wants done next.
#[derive(Debug)]
pub enum TransferAction {
    SendAdvertisement(Frame),
    SendPart(Frame),
    SendHmu(Frame),
    SendCancel(CancelType, Frame),
    Complete,
    Failed,
    /// Nothing, or something that is not this side's.
    Other,
}

/// What a worker reports.
#[derive(Debug)]
pub enum WorkerPoll<T> {
    /// It is still at work.
    Waiting,
    /// It is done.
    Done(T),
    /// It is gone.
    Lost,
}

/// The body of a packet with this context: resource parts go as they are, for
/// the resource was encrypted as a whole; everything else is encrypted for the
/// link.
pub open spec fn frame_body(frame: Frame, context: PacketContext) -> Option<Seq<u8>> {
    if context is Resource {
        Some(frame.data@)
    } else {
        match frame.encrypted {
            Some(encrypted) => Some(encrypted@),
            None => None,
        }
    }
}

/// `list` with those of `ids` added that it does not hold.
pub open spec fn with_new(
    list: Seq<PropagationTransientId>,
    ids: Seq<PropagationTransientId>,
) -> Seq<PropagationTransientId>
    decreases ids.len(),
{
    if ids.len() == 0 {
        list
    } else {
        let rest = with_new(list, ids.drop_last());
        if rest.contains(ids.last()) {
            rest
        } else {
            rest.push(ids.last())
        }
    }
}

impl SyncTaskView {
    /// The task after it learned that the peer holds messages.
    pub open spec fn handled(self, ids: Seq<PropagationTransientId>) -> SyncTaskView {
        SyncTaskView {
            handled_updates: with_new(self.handled_updates, ids),
            peer: match self.peer {
                Some(peer) => Some(
                    SyncPeerView { handled: peer.handled.union(ids.to_set()), ..peer },
                ),
                None => None,
            },
            ..self
        }
    }

    /// The task after its transfer failed.
    pub open spec fn transfer_failed(self) -> SyncTaskView {
        self.without_transfer().in_state(SyncTaskState::Failed)
    }

    /// The task after a segment was proven: the next one is up, or the sync is
    /// complete and the peer holds the messages.
    pub open spec fn segment_done(self) -> SyncTaskView {
        if self.pending_transfer_segments.len() > 0 {
            SyncTaskView {
                active_transfer: Some(self.pending_transfer_segments[0]),
                active_transfer_requested: false,
                pending_transfer_segments: self.pending_transfer_segments.skip(1),
                ..self
            }
        } else {
            (SyncTaskView {
                active_transfer: None,
                active_transfer_requested: false,
                active_transfer_ids: Seq::empty(),
                ..self
            }).handled(self.active_transfer_ids).in_state(SyncTaskState::Complete)
        }
    }
}

/// The node after the task's session with its peer ended.
pub open spec fn session_ended(node: NodeView, task: SyncTaskView) -> NodeView {
    match task.node_dest_hash {
        Some(hash) => NodeView { sessions: node.sessions.remove(hash), ..node },
        None => node,
    }
}

/// The node after a segment of the task's transfer was proven.
pub open spec fn node_after_segment(node: NodeView, task: SyncTaskView) -> NodeView {
    if task.pending_transfer_segments.len() > 0 {
        node
    } else {
        session_ended(node, task)
    }
}

impl Step {
    /// A resource packet can be sent now.
    pub open spec fn sends_frame(self, frame: Frame, context: PacketContext) -> bool {
        frame_body(frame, context) is Some && self.sends_on_link()
    }

    /// The step after a resource packet was sent.
    pub open spec fn sent_frame(self, frame: Frame, context: PacketContext) -> Step {
        match frame_body(frame, context) {
            Some(body) => self.sent_on_link(context, body),
            None => self,
        }
    }

    /// The step after the transfer failed.
    pub open spec fn transfer_failed(self) -> Step {
        Step { task: self.task.transfer_failed(), ..self }
    }

    /// The step after the transfer's next action was carried out.
    pub open spec fn action_done(self, action: TransferAction) -> Step {
        match action {
            TransferAction::SendAdvertisement(frame) => {
                let advertised = Step {
                    task: SyncTaskView {
                        active_transfer: match self.task.active_transfer {
                            Some(transfer) => Some(TransferHandle { advertised: true, ..transfer }),
                            None => None,
                        },
                        ..self.task
                    },
                    ..self
                };
                let sent = advertised.sent_frame(frame, PacketContext::ResourceAdv);
                if self.sends_frame(frame, PacketContext::ResourceAdv) {
                    sent
                } else {
                    sent.transfer_failed()
                }
            },
            TransferAction::SendPart(frame) => {
                let sent = self.sent_frame(frame, PacketContext::Resource);
                if self.sends_frame(frame, PacketContext::Resource) {
                    sent
                } else {
                    sent.transfer_failed()
                }
            },
            TransferAction::Complete => Step { task: self.task.segment_done(), ..self },
            TransferAction::Failed => self.transfer_failed(),
            _ => self,
        }
    }

    /// The transfer goes on after this action: it sent a part, and nothing waits
    /// for the transport.
    pub open spec fn action_goes_on(self, action: TransferAction) -> bool {
        match action {
            TransferAction::SendPart(frame) => self.sends_frame(frame, PacketContext::Resource)
                && self.sent_frame(frame, PacketContext::Resource).task.pending_transport.len()
                == 0,
            _ => false,
        }
    }

    /// The step after actions were carried out, from the `i`th on, until one
    /// stops the transfer.
    pub open spec fn actions_done(self, actions: Seq<TransferAction>, i: int) -> Step
        decreases actions.len() - i,
    {
        if 0 <= i < actions.len() && i < TRANSFER_STEP_LIMIT && self.task.active_transfer is Some {
            let after = self.action_done(actions[i]);
            if self.action_goes_on(actions[i]) {
                after.actions_done(actions, i + 1)
            } else {
                after
            }
        } else {
            self
        }
    }
}

/// The node after the transfer's next action was carried out.
pub open spec fn node_after_action(
    node: NodeView,
    task: SyncTaskView,
    action: TransferAction,
) -> NodeView {
    if action is Complete {
        node_after_segment(node, task)
    } else {
        node
    }
}

/// The node after actions were carried out.
pub open spec fn node_after_actions(
    node: NodeView,
    step: Step,
    actions: Seq<TransferAction>,
    i: int,
) -> NodeView
    decreases actions.len() - i,
{
    if 0 <= i < actions.len() && i < TRANSFER_STEP_LIMIT && step.task.active_transfer is Some {
        let after = node_after_action(node, step.task, actions[i]);
        if step.action_goes_on(actions[i]) {
            node_after_actions(after, step.action_done(actions[i]), actions, i + 1)
        } else {
            after
        }
    } else {
        node
    }
}

impl PropagationSyncTask {
    /// Notes that the peer holds messages.
    pub fn record_handled_updates(&mut self, transient_ids: &Vec<PropagationTransientId>)
        ensures
            final(self)@ == old(self)@.handled(transient_ids@),
    {
        let ghost ids = transient_ids@;
        let ghost before = self@;
        let mut i: usize = 0;
        assert(ids.take(0).to_set() =~= Set::empty());
        assert(self@ =~= before.handled(ids.take(0))) by {
            if let Some(peer) = before.peer {
                assert(peer.handled.union(ids.take(0).to_set()) =~= peer.handled);
            }
        }
        while i < transient_ids.len()
            invariant
                i <= ids.len(),
                ids == transient_ids@,
                self@ == before.handled(ids.take(i as int)),
            decreases ids.len() - i,
        {
            let id: PropagationTransientId = transient_ids[i];
            proof {
                assert(ids.take(i + 1).drop_last() =~= ids.take(i as int));
                assert(ids.take(i + 1) =~= ids.take(i as int).push(id));
                crate::tables::lemma_push_to_set(ids.take(i as int), id);
            }
            if !contains_id(self.handled_updates.as_slice(), &id) {
                self.handled_updates.push(id);
            }
            if let Some(peer) = &mut self.peer {
                peer.handled_messages.insert(id);
            }
            proof {
                if let Some(peer) = before.peer {
                    assert(peer.handled.union(ids.take(i as int).to_set()).insert(id)
                        =~= peer.handled.union(ids.take(i + 1).to_set()));
                }
            }
            i = i + 1;
        }
        assert(ids.take(i as int) =~= ids);
    }

    /// Fails the transfer, and the sync with it.
    pub fn fail_active_transfer(&mut self)
        ensures
            final(self)@ == old(self)@.transfer_failed(),
    {
        self.active_transfer = None;
        self.active_transfer_requested = false;
        self.pending_transfer_segments.clear();
        self.active_transfer_ids.clear();
        self.state = SyncTaskState::Failed;
    }

    /// Goes on to the next segment. After the last one the sync is complete.
    pub fn complete_active_transfer_segment(&mut self, node: &mut PropagationNode)
        requires
            old(node)@.wf(),
        ensures
            final(node)@.wf(),
            final(self)@ == old(self)@.segment_done(),
            final(node)@ == node_after_segment(old(node)@, old(self)@),
    {
        self.active_transfer = None;
        self.active_transfer_requested = false;
        if let Some(next) = self.pending_transfer_segments.pop_front() {
            self.active_transfer = Some(next);
            assert(self@.pending_transfer_segments =~= old(self)@.pending_transfer_segments.skip(
                1,
            ));
            return;
        }
        let mut completed_ids: Vec<PropagationTransientId> = Vec::new();
        std::mem::swap(&mut completed_ids, &mut self.active_transfer_ids);
        self.record_handled_updates(&completed_ids);
        if let Some(node_hash) = &self.node_dest_hash {
            node.complete_sync(node_hash);
        }
        self.state = SyncTaskState::Complete;
    }

    /// Sends a resource packet, and tells whether it was kept.
    pub fn send_resource_packet(
        &mut self,
        mailbox: &mut SyncMailbox,
        frame: &Frame,
        context: PacketContext,
    ) -> (kept: bool)
        ensures
            ({
                let before = Step { task: old(self)@, mailbox: old(mailbox)@ };
                kept == before.sends_frame(*frame, context) && (Step {
                    task: final(self)@,
                    mailbox: final(mailbox)@,
                }) == before.sent_frame(*frame, context)
            }),
    {
        let body: Vec<u8> = match context {
            PacketContext::Resource => copy_bytes(frame.data.as_slice()),
            _ => match &frame.encrypted {
                Some(encrypted) => copy_bytes(encrypted.as_slice()),
                None => {
                    return false;
                },
            },
        };
        self.queue_link_endpoint(mailbox, context, body)
    }

    /// Carries out the transfer's next action, and tells whether the transfer
    /// goes on at once.
    pub fn drive_transfer_action(
        &mut self,
        mailbox: &mut SyncMailbox,
        node: &mut PropagationNode,
        action: &TransferAction,
    ) -> (goes_on: bool)
        requires
            old(node)@.wf(),
        ensures
            final(node)@.wf(),
            ({
                let before = Step { task: old(self)@, mailbox: old(mailbox)@ };
                goes_on == before.action_goes_on(*action) && (Step {
                    task: final(self)@,
                    mailbox: final(mailbox)@,
                }) == before.action_done(*action)
            }),
            final(node)@ == node_after_action(old(node)@, old(self)@, *action),
    {
        match action {
            TransferAction::SendAdvertisement(frame) => {
                if let Some(transfer) = &mut self.active_transfer {
                    transfer.advertised = true;
                }
                if !self.send_resource_packet(mailbox, frame, PacketContext::ResourceAdv) {
                    self.fail_active_transfer();
                }
                false
            },
            TransferAction::SendPart(frame) => {
                if !self.send_resource_packet(mailbox, frame, PacketContext::Resource) {
                    self.fail_active_transfer();
                    return false;
                }
                self.pending_transport.len() == 0
            },
            TransferAction::Complete => {
                self.complete_active_transfer_segment(node);
                false
            },
            TransferAction::Failed => {
                self.fail_active_transfer();
                false
            },
            _ => false,
        }
    }

    /// Carries out the transfer's next actions, until one stops it.
    pub fn drive_transfer_actions(
        &mut self,
        mailbox: &mut SyncMailbox,
        node: &mut PropagationNode,
        actions: &Vec<TransferAction>,
    )
        requires
            old(node)@.wf(),
        ensures
            final(node)@.wf(),
            (Step { task: final(self)@, mailbox: final(mailbox)@ }) == (Step {
                task: old(self)@,
                mailbox: old(mailbox)@,
            }).actions_done(actions@, 0),
            final(node)@ == node_after_actions(
                old(node)@,
                Step { task: old(self)@, mailbox: old(mailbox)@ },
                actions@,
                0,
            ),
    {
        let ghost end = (Step { task: self@, mailbox: mailbox@ }).actions_done(actions@, 0);
        let ghost node_end = node_after_actions(
            node@,
            Step { task: self@, mailbox: mailbox@ },
            actions@,
            0,
        );
        let mut i: usize = 0;
        while i < actions.len() && i < TRANSFER_STEP_LIMIT && self.active_transfer.is_some()
            invariant_except_break
                i <= actions@.len(),
                node@.wf(),
                (Step { task: self@, mailbox: mailbox@ }).actions_done(actions@, i as int) == end,
                node_after_actions(
                    node@,
                    Step { task: self@, mailbox: mailbox@ },
                    actions@,
                    i as int,
                ) == node_end,
            ensures
                node@.wf(),
                (Step { task: self@, mailbox: mailbox@ }) == end,
                node@ == node_end,
            decreases actions@.len() - i,
        {
            if !self.drive_transfer_action(mailbox, node, &actions[i]) {
                break;
            }
            i = i + 1;
        }
    }
}

/// The resource that a request is for. The hash stands behind the first byte,
/// and behind a part hash where the sender has run out of them.
pub open spec fn requested_resource(request: Seq<u8>) -> Option<Seq<u8>> {
    let start = if request.len() > 0 && request[0] == HASHMAP_IS_EXHAUSTED {
        1 + MAPHASH_LEN as int
    } else {
        1
    };
    if request.len() >= start + 32 {
        Some(request.subrange(start, start + 32))
    } else {
        None
    }
}

impl SyncTaskView {
    /// The request is for the transfer that is under way.
    pub open spec fn is_requested(self, request: Seq<u8>) -> bool {
        self.active_transfer matches Some(transfer) && requested_resource(request) == Some(
            transfer.resource_hash@,
        )
    }
}

impl Step {
    /// The step after one action of a request was carried out.
    pub open spec fn request_action_done(self, action: TransferAction) -> Step {
        match action {
            TransferAction::SendPart(frame) => {
                let sent = self.sent_frame(frame, PacketContext::Resource);
                if self.sends_frame(frame, PacketContext::Resource) {
                    sent
                } else {
                    sent.transfer_failed()
                }
            },
            TransferAction::SendHmu(frame) => {
                let sent = self.sent_frame(frame, PacketContext::ResourceHmu);
                if self.sends_frame(frame, PacketContext::ResourceHmu) {
                    sent
                } else {
                    sent.transfer_failed()
                }
            },
            TransferAction::SendCancel(side, frame) => self.sent_frame(
                frame,
                cancel_context(side),
            ).transfer_failed(),
            TransferAction::Complete => Step { task: self.task.segment_done(), ..self },
            TransferAction::Failed => self.transfer_failed(),
            _ => self,
        }
    }

    /// The request goes on after this action.
    pub open spec fn request_goes_on(self, action: TransferAction) -> bool {
        match action {
            TransferAction::SendPart(frame) => self.sends_frame(frame, PacketContext::Resource),
            TransferAction::SendHmu(frame) => self.sends_frame(frame, PacketContext::ResourceHmu),
            TransferAction::SendCancel(_, _) => false,
            TransferAction::Complete => false,
            TransferAction::Failed => false,
            _ => true,
        }
    }

    /// The step after the actions of a request were carried out, from the `i`th
    /// on, until one stops it.
    pub open spec fn request_actions_done(self, actions: Seq<TransferAction>, i: int) -> Step
        decreases actions.len() - i,
    {
        if 0 <= i < actions.len() {
            let after = self.request_action_done(actions[i]);
            if self.request_goes_on(actions[i]) {
                after.request_actions_done(actions, i + 1)
            } else {
                after
            }
        } else {
            self
        }
    }

    /// The step after a resource request was answered. A request for another
    /// resource is not answered.
    pub open spec fn request_handled(self, request: Seq<u8>, actions: Seq<TransferAction>) -> Step {
        if self.task.is_requested(request) {
            (Step {
                task: SyncTaskView { active_transfer_requested: true, ..self.task },
                ..self
            }).request_actions_done(actions, 0)
        } else {
            self
        }
    }
}

/// The node after the actions of a request were carried out.
pub open spec fn node_after_request_actions(
    node: NodeView,
    step: Step,
    actions: Seq<TransferAction>,
    i: int,
) -> NodeView
    decreases actions.len() - i,
{
    if 0 <= i < actions.len() {
        let after = node_after_action(node, step.task, actions[i]);
        if step.request_goes_on(actions[i]) {
            node_after_request_actions(after, step.request_action_done(actions[i]), actions, i + 1)
        } else {
            after
        }
    } else {
        node
    }
}

/// The node after a resource request was answered.
pub open spec fn node_after_request(
    node: NodeView,
    step: Step,
    request: Seq<u8>,
    actions: Seq<TransferAction>,
) -> NodeView {
    if step.task.is_requested(request) {
        node_after_request_actions(
            node,
            Step {
                task: SyncTaskView { active_transfer_requested: true, ..step.task },
                ..step
            },
            actions,
            0,
        )
    } else {
        node
    }
}

/// The packet context of a cancellation.
pub open spec fn cancel_context(side: CancelType) -> PacketContext {
    match side {
        CancelType::Initiator => PacketContext::ResourceIcl,
        CancelType::Receiver => PacketContext::ResourceRcl,
    }
}

/// Reads the resource that a request is for.
fn read_requested_resource(request: &[u8]) -> (hash: Option<[u8; 32]>)
    ensures
        match hash {
            Some(hash) => requested_resource(request@) == Some(hash@),
            None => requested_resource(request@) is None,
        },
{
    let start: usize = if request.len() > 0 && request[0] == HASHMAP_IS_EXHAUSTED {
        1 + MAPHASH_LEN
    } else {
        1
    };
    if request.len() < start + 32 {
        return None;
    }
    id_from_bytes::<32>(&request[start..start + 32])
}

impl PropagationSyncTask {
    /// Tells whether a resource request is for the transfer that is under way.
    pub fn accepts_resource_request(&self, request: &[u8]) -> (accepted: bool)
        ensures
            accepted == self@.is_requested(request@),
    {
        match (read_requested_resource(request), &self.active_transfer) {
            (Some(hash), Some(transfer)) => {
                proof {
                    if hash@ == transfer.resource_hash@ {
                        crate::ids::lemma_id_from_view(hash, transfer.resource_hash);
                    }
                }
                same_id(&hash, &transfer.resource_hash)
            },
            _ => false,
        }
    }

    /// Carries out one action of a resource request, and tells whether the
    /// request goes on.
    fn drive_request_action(
        &mut self,
        mailbox: &mut SyncMailbox,
        node: &mut PropagationNode,
        action: &TransferAction,
    ) -> (goes_on: bool)
        requires
            old(node)@.wf(),
        ensures
            final(node)@.wf(),
            ({
                let before = Step { task: old(self)@, mailbox: old(mailbox)@ };
                goes_on == before.request_goes_on(*action) && (Step {
                    task: final(self)@,
                    mailbox: final(mailbox)@,
                }) == before.request_action_done(*action)
            }),
            final(node)@ == node_after_action(old(node)@, old(self)@, *action),
    {
        match action {
            TransferAction::SendPart(frame) => {
                let kept: bool = self.send_resource_packet(
                    mailbox,
                    frame,
                    PacketContext::Resource,
                );
                if !kept {
                    self.fail_active_transfer();
                }
                kept
            },
            TransferAction::SendHmu(frame) => {
                let kept: bool = self.send_resource_packet(
                    mailbox,
                    frame,
                    PacketContext::ResourceHmu,
                );
                if !kept {
                    self.fail_active_transfer();
                }
                kept
            },
            TransferAction::SendCancel(side, frame) => {
                let context: PacketContext = match side {
                    CancelType::Initiator => PacketContext::ResourceIcl,
                    CancelType::Receiver => PacketContext::ResourceRcl,
                };
                self.send_resource_packet(mailbox, frame, context);
                self.fail_active_transfer();
                false
            },
            TransferAction::Complete => {
                self.complete_active_transfer_segment(node);
                false
            },
            TransferAction::Failed => {
                self.fail_active_transfer();
                false
            },
            _ => true,
        }
    }

    /// Answers a resource request. `actions` is what the transfer wants done
    /// about it.
    pub fn handle_resource_request(
        &mut self,
        mailbox: &mut SyncMailbox,
        node: &mut PropagationNode,
        request: &[u8],
        actions: &Vec<TransferAction>,
    )
        requires
            old(node)@.wf(),
        ensures
            final(node)@.wf(),
            (Step { task: final(self)@, mailbox: final(mailbox)@ }) == (Step {
                task: old(self)@,
                mailbox: old(mailbox)@,
            }).request_handled(request@, actions@),
            final(node)@ == node_after_request(
                old(node)@,
                Step { task: old(self)@, mailbox: old(mailbox)@ },
                request@,
                actions@,
            ),
    {
        if !self.accepts_resource_request(request) {
            return;
        }
        self.active_transfer_requested = true;
        let ghost end = (Step { task: self@, mailbox: mailbox@ }).request_actions_done(
            actions@,
            0,
        );
        let ghost node_end = node_after_request_actions(
            node@,
            Step { task: self@, mailbox: mailbox@ },
            actions@,
            0,
        );
        let mut i: usize = 0;
        while i < actions.len()
            invariant_except_break
                i <= actions@.len(),
                node@.wf(),
                (Step { task: self@, mailbox: mailbox@ }).request_actions_done(
                    actions@,
                    i as int,
                ) == end,
                node_after_request_actions(
                    node@,
                    Step { task: self@, mailbox: mailbox@ },
                    actions@,
                    i as int,
                ) == node_end,
            ensures
                node@.wf(),
                (Step { task: self@, mailbox: mailbox@ }) == end,
                node@ == node_end,
            decreases actions@.len() - i,
        {
            if !self.drive_request_action(mailbox, node, &actions[i]) {
                break;
            }
            i = i + 1;
        }
    }

    /// Takes the cancellation of a resource. It counts for exactly the transfer
    /// that is under way.
    pub fn handle_resource_cancel(&mut self, cancelled: &[u8])
        ensures
            final(self)@ == (if old(self)@.active_transfer matches Some(transfer) && cancelled@
                == transfer.resource_hash@ {
                old(self)@.transfer_failed()
            } else {
                old(self)@
            }),
    {
        let matches_active: bool = match (id_from_bytes::<32>(cancelled), &self.active_transfer) {
            (Some(hash), Some(transfer)) => {
                proof {
                    if hash@ == transfer.resource_hash@ {
                        crate::ids::lemma_id_from_view(hash, transfer.resource_hash);
                    }
                }
                same_id(&hash, &transfer.resource_hash)
            },
            _ => false,
        };
        if matches_active {
            self.fail_active_transfer();
        }
    }
}

/// What stands at the start of a transfer step.
#[derive(Debug)]
pub enum BatchStep {
    /// A transfer is under way.
    Running,
    /// There is nothing to do now.
    Wait,
    /// These messages are to be sent.
    Start(PreparedTransferBatch),
}

/// The batch that is to be sent now.
pub open spec fn ready_batch(
    preparation: Preparation<PreparedTransferBatch>,
    poll: WorkerPoll<PreparedTransferBatch>,
) -> Option<PreparedTransferBatch> {
    match (preparation, poll) {
        (Preparation::Ready(batch), _) => Some(batch),
        (Preparation::Pending, WorkerPoll::Done(batch)) => Some(batch),
        _ => None,
    }
}

/// The worker is still reading the messages.
pub open spec fn batch_is_awaited(
    preparation: Preparation<PreparedTransferBatch>,
    poll: WorkerPoll<PreparedTransferBatch>,
) -> bool {
    preparation is Pending && poll is Waiting
}

impl SyncTaskView {
    /// The task after the messages for a transfer were looked at. Files that
    /// vanished since the offer leave the revision unexhausted, and without any
    /// message the sync fails.
    pub open spec fn batch_taken(self, poll: WorkerPoll<PreparedTransferBatch>) -> SyncTaskView {
        if self.active_transfer is Some || batch_is_awaited(self.transfer_preparation, poll) {
            self
        } else {
            let taken = SyncTaskView { transfer_preparation: Preparation::Absent, ..self };
            match ready_batch(self.transfer_preparation, poll) {
                Some(batch) => {
                    let counted = SyncTaskView {
                        generation_exhausted: taken.generation_exhausted
                            && batch.transient_ids@.len() == batch.requested_count,
                        ..taken
                    };
                    if batch.transient_ids@.len() == 0 {
                        counted.in_state(SyncTaskState::Failed)
                    } else {
                        counted
                    }
                },
                None => taken.in_state(SyncTaskState::Failed),
            }
        }
    }

    /// The task after a transfer of `batch` began with these segments. Without
    /// a segment the sync fails.
    pub open spec fn transfer_begun(
        self,
        batch: PreparedTransferBatch,
        segments: Seq<TransferHandle>,
        now: u64,
    ) -> SyncTaskView {
        if segments.len() == 0 {
            self.in_state(SyncTaskState::Failed)
        } else {
            SyncTaskView {
                accounting: AttemptAccounting {
                    outgoing_count: batch.transient_ids@.len() as u64,
                    transfer_data_size: batch.payload@.len() as u64,
                    transfer_wire_size: wire_size(segments),
                    transfer_started: Some(now),
                    ..self.accounting
                },
                active_transfer: Some(segments[0]),
                active_transfer_requested: false,
                pending_transfer_segments: segments.skip(1),
                active_transfer_ids: batch.transient_ids@,
                ..self
            }
        }
    }
}

/// Puts the messages of a transfer together from what was read for it. A message
/// whose file is gone is left out. What is put together is taken apart again by
/// whoever it is sent to.
pub fn prepare_transfer_batch(
    plan: &TransferPlan,
    contents: &Vec<Option<Vec<u8>>>,
    now: u64,
) -> (batch: PreparedTransferBatch)
    requires
        contents@.len() == plan.reads@.len(),
    ensures
        ({
            let messages = messages_read(message_read_views(plan.reads@), contents@);
            let blobs = message_data(messages);
            &&& batch.requested_count == plan.requested_count
            &&& batch.transient_ids@ == message_ids(messages)
            &&& batch.payload@ == msgpack_encoded(timed_wire(seconds_bits(now), blobs))
            &&& fits_lengths(blobs) ==> forall|max_size: usize|
                batch.payload@.len() <= max_size ==> #[trigger] wrapper_entries(
                    batch.payload@,
                    max_size,
                ) == Some(blobs)
        }),
{
    let messages = read_planned_messages(&plan.reads, contents);
    let ghost views = message_views(messages@);
    let ghost blobs = message_data(views);
    let mut transient_ids: Vec<PropagationTransientId> = Vec::new();
    let mut items: Vec<Vec<u8>> = Vec::new();
    let mut i: usize = 0;
    while i < messages.len()
        invariant
            i <= messages@.len(),
            views == message_views(messages@),
            transient_ids@ == message_ids(views).take(i as int),
            byte_views(items@) == message_data(views).take(i as int),
        decreases messages@.len() - i,
    {
        let ghost before = items@;
        transient_ids.push(messages[i].0);
        items.push(copy_bytes(messages[i].1.as_slice()));
        proof {
            assert(views[i as int] == (messages@[i as int].0, messages@[i as int].1@));
            assert(transient_ids@ =~= message_ids(views).take(i + 1));
            assert(byte_views(items@) =~= byte_views(before).push(messages@[i as int].1@));
            assert(byte_views(items@) =~= message_data(views).take(i + 1));
        }
        i = i + 1;
    }
    proof {
        assert(message_ids(views).take(i as int) =~= message_ids(views));
        assert(blobs.take(i as int) =~= blobs);
    }
    let payload = encode_value(&Outgoing::Timed(now, items));
    proof {
        let wire = timed_wire(seconds_bits(now), blobs);
        let entries = wire->Array_0[1]->Array_0;
        assert forall|k: int| 0 <= k < entries.len() implies slice_of(#[trigger] entries[k])
            is Some by {
            assert(entries[k] == WireView::Binary(blobs[k]));
        }
        assert(Seq::new(entries.len(), |k: int| slice_of(entries[k])->0) =~= blobs);
        assert(wrapped_entries(wire) == Some(blobs));
    }
    PreparedTransferBatch { requested_count: plan.requested_count, transient_ids, payload }
}

/// The identifiers of messages.
pub open spec fn message_ids(messages: Seq<(PropagationTransientId, Seq<u8>)>) -> Seq<
    PropagationTransientId,
> {
    messages.map_values(|message: (PropagationTransientId, Seq<u8>)| message.0)
}

/// What messages hold.
pub open spec fn message_data(messages: Seq<(PropagationTransientId, Seq<u8>)>) -> Seq<Seq<u8>> {
    messages.map_values(|message: (PropagationTransientId, Seq<u8>)| message.1)
}

/// Bytes of all segments, or the largest `u64` where they are more.
pub open spec fn wire_size(segments: Seq<TransferHandle>) -> u64
    decreases segments.len(),
{
    if segments.len() == 0 {
        0
    } else {
        let rest = wire_size(segments.drop_last());
        if rest + segments.last().total_size > u64::MAX {
            u64::MAX
        } else {
            (rest + segments.last().total_size) as u64
        }
    }
}

impl PropagationSyncTask {
    /// Takes the messages for a transfer, once they are read.
    pub fn take_transfer_batch(&mut self, poll: WorkerPoll<PreparedTransferBatch>) -> (step:
        BatchStep)
        ensures
            final(self)@ == old(self)@.batch_taken(poll),
            match step {
                BatchStep::Running => old(self)@.active_transfer is Some,
                BatchStep::Wait => old(self)@.active_transfer is None && (match ready_batch(
                    old(self)@.transfer_preparation,
                    poll,
                ) {
                    Some(batch) => batch.transient_ids@.len() == 0,
                    None => true,
                }),
                BatchStep::Start(batch) => old(self)@.active_transfer is None && ready_batch(
                    old(self)@.transfer_preparation,
                    poll,
                ) == Some(batch) && batch.transient_ids@.len() > 0,
            },
    {
        if self.active_transfer.is_some() {
            return BatchStep::Running;
        }
        let mut preparation: Preparation<PreparedTransferBatch> = Preparation::Absent;
        std::mem::swap(&mut preparation, &mut self.transfer_preparation);
        let batch = match preparation {
            Preparation::Ready(batch) => batch,
            Preparation::Pending => match poll {
                WorkerPoll::Done(batch) => batch,
                WorkerPoll::Waiting => {
                    self.transfer_preparation = Preparation::Pending;
                    return BatchStep::Wait;
                },
                WorkerPoll::Lost => {
                    self.state = SyncTaskState::Failed;
                    return BatchStep::Wait;
                },
            },
            Preparation::Absent => {
                self.state = SyncTaskState::Failed;
                return BatchStep::Wait;
            },
        };
        if batch.transient_ids.len() != batch.requested_count {
            self.generation_exhausted = false;
        }
        if batch.transient_ids.len() == 0 {
            self.state = SyncTaskState::Failed;
            return BatchStep::Wait;
        }
        BatchStep::Start(batch)
    }

    /// Begins a transfer of `batch` with the segments that the transport made of
    /// its payload; it makes none where it cannot.
    pub fn begin_transfer(
        &mut self,
        batch: PreparedTransferBatch,
        segments: &Vec<TransferHandle>,
        now: u64,
    )
        requires
            old(self)@.active_transfer is None,
        ensures
            final(self)@ == old(self)@.transfer_begun(batch, segments@, now),
    {
        if segments.len() == 0 {
            self.state = SyncTaskState::Failed;
            return;
        }
        let mut size: u64 = 0;
        let mut rest: std::collections::VecDeque<TransferHandle> = std::collections::VecDeque::new();
        let mut i: usize = 0;
        assert(rest@ =~= segments@.skip(1).take(0));
        while i < segments.len()
            invariant
                i <= segments@.len(),
                size == wire_size(segments@.take(i as int)),
                rest@ == segments@.skip(1).take(if i == 0 { 0 } else { i - 1 }),
            decreases segments@.len() - i,
        {
            assert(segments@.take(i + 1).drop_last() =~= segments@.take(i as int));
            size = size.saturating_add(segments[i].total_size);
            if i > 0 {
                rest.push_back(segments[i]);
            }
            assert(rest@ =~= segments@.skip(1).take(i as int));
            i = i + 1;
        }
        assert(segments@.take(i as int) =~= segments@);
        assert(segments@.skip(1).take(i - 1) =~= segments@.skip(1));
        self.outgoing_count = batch.transient_ids.len() as u64;
        self.transfer_data_size = batch.payload.len() as u64;
        self.transfer_wire_size = size;
        self.transfer_started = Some(now);
        self.active_transfer = Some(segments[0]);
        self.active_transfer_requested = false;
        self.pending_transfer_segments = rest;
        self.active_transfer_ids = batch.transient_ids;
    }

    /// Tells whether the transfer waits for the peer's first request, so that
    /// only its timeout is to be looked at.
    pub fn awaits_first_request(&self) -> (awaits: bool)
        ensures
            awaits == (self@.active_transfer matches Some(transfer) && transfer.advertised
                && !self@.active_transfer_requested),
    {
        match &self.active_transfer {
            Some(transfer) => transfer.advertised && !self.active_transfer_requested,
            None => false,
        }
    }
}

/// What the transport reports for a transfer step.
#[derive(Debug)]
pub struct TransferReports {
    /// What the worker that reads the messages reports.
    pub batch: WorkerPoll<PreparedTransferBatch>,
    /// The segments that the transport made of the messages.
    pub segments: Vec<TransferHandle>,
    /// What the transfer wants done.
    pub actions: Vec<TransferAction>,
}

impl Step {
    /// The step with the transfer begun, where its messages are ready.
    pub open spec fn transfer_ready(self, reports: TransferReports, now: u64) -> Step {
        let taken = self.task.batch_taken(reports.batch);
        Step {
            task: match ready_batch(self.task.transfer_preparation, reports.batch) {
                Some(batch) => if self.task.active_transfer is None
                    && batch.transient_ids@.len() > 0 {
                    taken.transfer_begun(batch, reports.segments@, now)
                } else {
                    taken
                },
                None => taken,
            },
            ..self
        }
    }
}

impl PropagationSyncTask {
    /// Begins the transfer once its messages are read, and keeps it moving.
    pub fn drive_transfers(
        &mut self,
        mailbox: &mut SyncMailbox,
        node: &mut PropagationNode,
        reports: TransferReports,
        now: u64,
    )
        requires
            old(node)@.wf(),
        ensures
            final(node)@.wf(),
            ({
                let ready = (Step { task: old(self)@, mailbox: old(mailbox)@ }).transfer_ready(
                    reports,
                    now,
                );
                (Step { task: final(self)@, mailbox: final(mailbox)@ }) == ready.actions_done(
                    reports.actions@,
                    0,
                ) && final(node)@ == node_after_actions(old(node)@, ready, reports.actions@, 0)
            }),
    {
        match self.take_transfer_batch(reports.batch) {
            BatchStep::Running => {},
            BatchStep::Wait => {},
            BatchStep::Start(batch) => {
                self.begin_transfer(batch, &reports.segments, now);
            },
        }
        self.drive_transfer_actions(mailbox, node, &reports.actions);
    }
}

} // verus!
