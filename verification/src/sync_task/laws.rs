//! What holds of a sync across its steps.

use vstd::prelude::*;
#[allow(unused_imports)]
use crate::ids::{lemma_id_from_view, DestinationHash, PropagationTransientId};
#[allow(unused_imports)]
use crate::node::get::id_of;
#[allow(unused_imports)]
use crate::node::laws::law_offer_goes_by_policy;
#[allow(unused_imports)]
use crate::node::peers::{
    are_candidates, is_current, is_offer_choice, message_read, message_read_views, message_reads,
    messages_read, policy_limits, wide_ids, MessageReadView,
};
#[allow(unused_imports)]
use crate::node::NodeView;
#[allow(unused_imports)]
use crate::offer::OfferResponseView;
#[allow(unused_imports)]
use crate::store::{lemma_entry_of, PropagationEntry};
#[allow(unused_imports)]
use crate::sync::{
    is_offer_order, select_all, OutboundOfferPolicy, PreparedSyncOffer, SyncOfferCandidateSnapshot,
};
#[allow(unused_imports)]
use crate::sync_task::endpoint::{
    BindPoll, EndpointEvent, EndpointReports, Identification, SendPoll, UnbindPoll,
};
#[allow(unused_imports)]
use crate::sync_task::events::{signing_key, EventStep, InboundPacket, LinkWork, PacketRole};
#[allow(unused_imports)]
use crate::sync_task::lifecycle::{terminal_result_of, LinkAction, NewLink, TickAction};
#[allow(unused_imports)]
use crate::sync_task::offer::{
    answered, asked_for, is_offer_step, is_plan, is_prepared, lemma_filtered, lemma_with_new,
    not_asked_for, offered_in, OfferInputs, OfferStage, OfferStep, TransferPlan,
};
#[allow(unused_imports)]
use crate::sync_task::transfer::{
    message_data, message_ids, node_after_action, node_after_actions, node_after_request, wire_size,
    Frame,
    TransferAction, TransferReports, WorkerPoll,
};
#[allow(unused_imports)]
use crate::sync_task::{
    idle_task, PacketContext, PeerSyncTerminalState, PendingEndpointBind, PendingEndpointSend,
    Preparation,
    PreparedTransferBatch, Step, SyncTaskState, SyncTaskView, SyncTransportView, TransferHandle,
};

verus! {

/// What a peer lists reads back as identifiers.
proof fn lemma_wide_ids(items: Seq<Seq<u8>>, id: PropagationTransientId)
    ensures
        wide_ids(items).contains(id) <==> items.contains(id@),
    decreases items.len(),
{
    let ids = wide_ids(items);
    if items.len() > 0 {
        let rest = items.drop_last();
        let before = wide_ids(rest);
        let last = items.last();
        lemma_wide_ids(rest, id);
        lemma_id_from_view(id, id_of(id@));
        if rest.contains(id@) {
            let i = choose|i: int| 0 <= i < rest.len() && rest[i] == id@;
            assert(items[i] == id@);
        }
        if items.contains(id@) && last != id@ {
            let i = choose|i: int| 0 <= i < items.len() && items[i] == id@;
            assert(rest[i] == id@);
        }
        if before.contains(id) {
            let k = choose|k: int| 0 <= k < before.len() && before[k] == id;
            assert(ids[k] == id);
        }
        if last.len() == 32 {
            assert(ids[before.len() as int] == id_of(last));
            let known = lemma_array_of(last, 32);
            assert(known@ =~= last);
            assert(id_of(last)@ == last);
            if last == id@ {
                lemma_id_from_view(id, id_of(last));
                assert(items[items.len() - 1] == id@);
            }
            if ids.contains(id) && !before.contains(id) {
                let k = choose|k: int| 0 <= k < ids.len() && ids[k] == id;
                if k < before.len() {
                    assert(before[k] == id);
                }
                assert(items[items.len() - 1] == id@);
            }
        } else {
            assert(ids == before);
        }
    }
}

/// Some identifier starts with the first `n` of these bytes.
proof fn lemma_array_of(bytes: Seq<u8>, n: int) -> (id: PropagationTransientId)
    requires
        bytes.len() == 32,
        0 <= n <= 32,
    ensures
        forall|i: int| 0 <= i < n ==> #[trigger] id@[i] == bytes[i],
    decreases n,
{
    if n == 0 {
        arbitrary()
    } else {
        let id = lemma_array_of(bytes, n - 1);
        vstd::array::spec_array_update(id, n - 1, bytes[n - 1])
    }
}

/// A peer that says what it lacks of an offer is sent that: everything where it
/// lacks everything, nothing where it has everything, and else each offered message
/// that it names. What it does not name is settled; what it names is not, before it
/// was sent. The sync goes on with a transfer exactly where something is to be sent,
/// and is complete otherwise.
pub proof fn law_answers_are_followed(
    task: SyncTaskView,
    node: NodeView,
    response: OfferResponseView,
    peer_hash: DestinationHash,
    id: PropagationTransientId,
)
    requires
        task.node_dest_hash == Some(peer_hash),
        node.sessions.contains_key(peer_hash),
    ensures
        ({
            let offered = node.sessions[peer_hash].offered_ids.contains(id);
            let step = answered(task, node, response);
            let sent = step.requested matches Some(ids) && ids.contains(id);
            let settled = step.task.handled_updates.contains(id);
            let before = task.handled_updates.contains(id);
            match response {
                OfferResponseView::WantAll => (sent <==> offered) && (settled <==> before),
                OfferResponseView::HaveAll => !sent && (settled <==> before || offered),
                OfferResponseView::WantSome(wanted) => (sent <==> offered && wanted.contains(id@))
                    && (settled <==> before || (offered && !wanted.contains(id@))),
                _ => !sent && (settled <==> before) && step.task.state is Failed,
            }
        }),
        ({
            let step = answered(task, node, response);
            response is WantAll || response is HaveAll || response is WantSome ==> {
                &&& step.requested is Some <==> step.task.state is Transferring
                &&& step.requested is None <==> step.task.state is Complete
                &&& step.requested is None ==> !step.node.sessions.contains_key(peer_hash)
                &&& step.requested is Some ==> step.node == node && step.requested->0.len() > 0
            }
        }),
{
    let offered = node.sessions[peer_hash].offered_ids;
    match response {
        OfferResponseView::HaveAll => {
            lemma_with_new(task.handled_updates, offered, id);
        },
        OfferResponseView::WantSome(wanted) => {
            let is_offered = |id: PropagationTransientId| offered.contains(id);
            let asked = asked_for(offered, wanted);
            let is_left = |id: PropagationTransientId| !asked.contains(id);
            lemma_wide_ids(wanted, id);
            lemma_filtered(wide_ids(wanted), is_offered, id);
            lemma_with_new(Seq::empty(), wide_ids(wanted).filter(is_offered), id);
            lemma_filtered(offered, is_left, id);
            lemma_with_new(task.handled_updates, not_asked_for(offered, asked), id);
        },
        _ => {},
    }
}

/// Each message that a peer asks for and that is stored is read from its own file,
/// and nothing else is read.
pub proof fn law_asked_messages_are_read(
    node: NodeView,
    ids: Seq<PropagationTransientId>,
    entry: PropagationEntry,
    directory: Seq<char>,
)
    requires
        node.wf(),
        node.storage_path == Some(directory),
        node.store.entries.contains(entry),
    ensures
        message_reads(node, ids).contains(
            MessageReadView {
                transient_id: entry.transient_id,
                path: directory + seq!['/'] + entry.filename_spec(),
            },
        ) <==> ids.contains(entry.transient_id),
        message_reads(node, ids).len() <= ids.len(),
    decreases ids.len(),
{
    let entries = node.store.entries;
    let at = choose|at: int| 0 <= at < entries.len() && entries[at] == entry;
    lemma_entry_of(entries, at);
    let read = MessageReadView {
        transient_id: entry.transient_id,
        path: directory + seq!['/'] + entry.filename_spec(),
    };
    let reads = message_reads(node, ids);
    if ids.len() > 0 {
        let rest = ids.drop_last();
        let before = message_reads(node, rest);
        law_asked_messages_are_read(node, rest, entry, directory);
        if before.contains(read) {
            let k = choose|k: int| 0 <= k < before.len() && before[k] == read;
            assert(reads[k] == read);
        }
        if rest.contains(entry.transient_id) {
            let k = choose|k: int| 0 <= k < rest.len() && rest[k] == entry.transient_id;
            assert(ids[k] == entry.transient_id);
        }
        if ids.contains(entry.transient_id) && ids.last() != entry.transient_id {
            let k = choose|k: int| 0 <= k < ids.len() && ids[k] == entry.transient_id;
            assert(rest[k] == entry.transient_id);
        }
        if ids.last() == entry.transient_id {
            assert(ids[ids.len() - 1] == entry.transient_id);
            assert(message_read(node, ids.last()) == Some(read));
            assert(reads[before.len() as int] == read);
        } else if reads.contains(read) {
            let k = choose|k: int| 0 <= k < reads.len() && reads[k] == read;
            if k < before.len() {
                assert(before[k] == read);
            }
        }
    }
}

/// What was read goes with the identifier it was read for; what could not be read is
/// left out.
pub proof fn law_read_messages_keep_their_names(
    reads: Seq<MessageReadView>,
    contents: Seq<Option<Vec<u8>>>,
    i: int,
)
    requires
        contents.len() >= reads.len(),
        0 <= i < reads.len(),
    ensures
        contents[i] matches Some(data) ==> messages_read(reads, contents).contains(
            (reads[i].transient_id, data@),
        ),
        (forall|j: int| 0 <= j < reads.len() ==> (#[trigger] contents[j]) is Some)
            ==> messages_read(reads, contents).len() == reads.len(),
        contents[i] is None ==> messages_read(reads, contents).len() < reads.len(),
        messages_read(reads, contents).len() <= reads.len(),
    decreases reads.len(),
{
    let rest = reads.drop_last();
    let before = messages_read(rest, contents);
    let after = messages_read(reads, contents);
    if rest.len() > 0 {
        let j = if i < rest.len() {
            i
        } else {
            0
        };
        law_read_messages_keep_their_names(rest, contents, j);
    }
    if i < rest.len() {
        assert(rest[i] == reads[i]);
        if let Some(data) = contents[i] {
            let read = (reads[i].transient_id, data@);
            let k = choose|k: int| 0 <= k < before.len() && before[k] == read;
            assert(after[k] == read);
        }
    } else if let Some(data) = contents[i] {
        assert(after[before.len() as int] == (reads[i].transient_id, data@));
    }
}

/// A revision of the store stays settled for a peer only if every message that the
/// peer asked for could be read; a transfer of nothing fails.
pub proof fn law_unread_messages_keep_revision_open(
    task: SyncTaskView,
    poll: WorkerPoll<PreparedTransferBatch>,
    batch: PreparedTransferBatch,
)
    requires
        task.active_transfer is None,
        task.transfer_preparation is Pending,
        poll == WorkerPoll::Done(batch),
    ensures
        task.batch_taken(poll).generation_exhausted <==> task.generation_exhausted
            && batch.transient_ids@.len() == batch.requested_count,
        task.batch_taken(poll).state is Failed <==> task.state is Failed
            || batch.transient_ids@.len() == 0,
        task.batch_taken(poll).transfer_preparation is Absent,
        task.batch_taken(poll).handled_updates == task.handled_updates,
{
}

/// A transfer counts its messages and bytes, and goes out segment by segment in
/// order.
pub proof fn law_transfers_are_counted(
    task: SyncTaskView,
    batch: PreparedTransferBatch,
    segments: Seq<TransferHandle>,
    now: u64,
)
    requires
        segments.len() > 0,
        batch.transient_ids@.len() <= u64::MAX,
        batch.payload@.len() <= u64::MAX,
    ensures
        ({
            let begun = task.transfer_begun(batch, segments, now);
            &&& begun.accounting.outgoing_count == batch.transient_ids@.len()
            &&& begun.accounting.transfer_data_size == batch.payload@.len()
            &&& begun.accounting.transfer_started == Some(now)
            &&& begun.accounting.offered_count == task.accounting.offered_count
            &&& begun.active_transfer_ids == batch.transient_ids@
            &&& begun.active_transfer == Some(segments[0])
            &&& seq![segments[0]] + begun.pending_transfer_segments == segments
            &&& !begun.active_transfer_requested
            &&& begun.state == task.state && begun.handled_updates == task.handled_updates
        }),
{
    assert(seq![segments[0]] + segments.skip(1) =~= segments);
}

/// The bytes of a transfer on the wire are those of all its segments.
pub proof fn law_segments_add_up(segments: Seq<TransferHandle>, more: TransferHandle)
    ensures
        wire_size(segments) + more.total_size <= u64::MAX ==> wire_size(segments.push(more))
            == wire_size(segments) + more.total_size,
        wire_size(Seq::empty()) == 0,
{
    assert(segments.push(more).drop_last() =~= segments);
}

/// The messages of a transfer are settled when its last segment is through, and not
/// before; a transfer that fails settles nothing.
pub proof fn law_messages_settle_at_the_end(task: SyncTaskView, id: PropagationTransientId)
    ensures
        ({
            let done = task.segment_done();
            let last = task.pending_transfer_segments.len() == 0;
            &&& done.handled_updates.contains(id) <==> task.handled_updates.contains(id) || (last
                && task.active_transfer_ids.contains(id))
            &&& last ==> done.state is Complete && done.active_transfer is None
            &&& !last ==> done.state == task.state && done.active_transfer == Some(
                task.pending_transfer_segments[0],
            ) && done.pending_transfer_segments == task.pending_transfer_segments.skip(1)
                && done.active_transfer_ids == task.active_transfer_ids
        }),
        ({
            let failed = task.transfer_failed();
            &&& failed.handled_updates == task.handled_updates
            &&& failed.state is Failed
            &&& failed.active_transfer is None && failed.pending_transfer_segments.len() == 0
        }),
{
    lemma_with_new(task.handled_updates, task.active_transfer_ids, id);
}

/// An offer that is made is noted in the session with the peer, message by message,
/// so that the peer's answer is held against it; it is counted, and says which
/// revision of the store it is of. What the peer will never take is settled.
pub proof fn law_made_offer_is_noted(
    task: SyncTaskView,
    node: NodeView,
    prepared: PreparedSyncOffer,
    step: OfferStep,
    id: PropagationTransientId,
)
    requires
        step.is_installed(task, node, prepared.policy.peer_hash, prepared),
        is_current(node, prepared),
        0 < prepared.selected_ids@.len() <= u64::MAX,
    ensures
        step.stage is Request,
        step.node.sessions.contains_key(prepared.policy.peer_hash),
        step.node.sessions[prepared.policy.peer_hash].offered_ids == prepared.selected_ids@,
        step.node.store == node.store,
        step.task.accounting.offered_count == prepared.selected_ids@.len(),
        step.task.active_offer_generation == Some(prepared.generation),
        step.task.generation_exhausted == prepared.generation_exhausted,
        step.task.handled_updates.contains(id) <==> task.handled_updates.contains(id)
            || prepared.terminal_handled_ids@.contains(id),
{
    lemma_with_new(task.handled_updates, prepared.terminal_handled_ids@, id);
}

/// A sync that can start asks the transport for a link to the node, after it has the
/// packets of that link delivered to itself, and for nothing else.
pub proof fn law_started_sync_asks_for_a_link(
    step: Step,
    node_hash: DestinationHash,
    policy: Option<OutboundOfferPolicy>,
    link: NewLink,
    now: u64,
)
    requires
        step.task.state is Idle,
        step.task.terminal_result is None,
        !step.mailbox.closed,
        step.mailbox.free >= 2,
    ensures
        ({
            let (after, started) = step.requested(node_hash, policy, link, now);
            &&& started
            &&& after.task.state is Establishing
            &&& after.task.node_dest_hash == Some(node_hash)
            &&& after.task.offer_policy == policy
            &&& after.task.link_id == Some(link.link_id)
            &&& after.task.attached_interface is None
            &&& after.task.sync_started == Some(now)
            &&& after.task.last_sync == now
            &&& after.task.pending_transport.len() == 0
            &&& after.mailbox.sent == step.mailbox.sent + seq![
                SyncTransportView::RegisterDestination { hash: link.link_id },
                SyncTransportView::LinkRequest { node_hash, request_data: link.request_data@ },
            ]
        }),
{
    let (after, started) = step.requested(node_hash, policy, link, now);
    assert(after.mailbox.sent =~= step.mailbox.sent + seq![
        SyncTransportView::RegisterDestination { hash: link.link_id },
        SyncTransportView::LinkRequest { node_hash, request_data: link.request_data@ },
    ]);
}

/// A sync starts by itself exactly when it is time for it, there is something to
/// offer, and nothing else decides: another schedule, or an outcome nobody took.
pub proof fn law_sync_starts_when_due(task: SyncTaskView, message_count: usize, now: u64)
    requires
        task.state is Idle,
        now >= task.last_sync,
    ensures
        task.next_action(message_count, now) is StartSync <==> task.node_dest_hash is Some
            && message_count > 0 && task.terminal_result is None && task.offer_policy is None && now
            - task.last_sync >= task.sync_interval,
        task.next_action(message_count, now) matches TickAction::StartSync(hash)
            ==> task.node_dest_hash == Some(hash),
{
}

/// What a tick asks for follows from where the sync stands: an offer while it is to
/// be made, a transfer while it runs, and an end once it is over either way.
pub proof fn law_state_decides_next_action(task: SyncTaskView, message_count: usize, now: u64)
    ensures
        task.next_action(message_count, now) is SendOfferRequest <==> task.state is Offering,
        task.next_action(message_count, now) is DriveTransfers <==> task.state is Transferring,
        task.next_action(message_count, now) is FinishSync <==> task.state is Complete
            || task.state is Failed,
{
}

/// A sync fails for want of an answer only after it has waited longer than it may.
pub proof fn law_patience(step: Step, now: u64)
    requires
        step.timed_out(now) != step,
    ensures
        step.task.state is Establishing || step.task.state is AwaitingResponse,
        step.task.sync_started matches Some(started) && now > started + step.task.sync_timeout,
{
}

/// What is reported of a complete sync is what it counted, and how fast it went where
/// it sent anything.
pub proof fn law_complete_sync_reports_its_counts(
    task: SyncTaskView,
    peer_hash: DestinationHash,
    now: u64,
)
    requires
        task.state is Complete,
    ensures
        ({
            let result = terminal_result_of(task, peer_hash, now);
            &&& result.peer_hash == peer_hash
            &&& result.state is Complete
            &&& result.offer_generation == task.active_offer_generation
            &&& result.generation_exhausted == task.generation_exhausted
            &&& result.offered == task.accounting.offered_count
            &&& result.outgoing == task.accounting.outgoing_count
            &&& result.tx_bytes == task.accounting.transfer_data_size
            &&& result.link_establishment_rate == task.accounting.link_establishment_rate
            &&& task.accounting.transfer_started matches Some(started) ==> (started <= now
                && task.accounting.outgoing_count > 0 ==> (
            result.sync_transfer_rate matches Some(rate) && rate.wire_bytes
                == task.accounting.transfer_wire_size && rate.elapsed_ms == now - started))
            &&& task.accounting.outgoing_count == 0 ==> result.sync_transfer_rate is None
        }),
{
}

/// The end of a sync is reported for the peer it was with, once, and says how the
/// sync ended; the messages that were settled stay to be taken.
pub proof fn law_end_is_reported(
    step: Step,
    peer_hash: DestinationHash,
    teardown: Option<Vec<u8>>,
    now: u64,
)
    requires
        step.task.state is Complete || step.task.state is Failed,
        step.task.terminal_result is None,
        step.task.node_dest_hash == Some(peer_hash),
    ensures
        ({
            let after = step.finished(teardown, now).task;
            &&& after.terminal_result matches Some(result) && result.peer_hash == peer_hash && (
            result.state is Complete <==> step.task.state is Complete)
            &&& after.last_finished_ok == Some(step.task.state is Complete)
            &&& after.handled_updates == step.task.handled_updates
            &&& after.node_dest_hash == Some(peer_hash)
        }),
{
}

/// A sync that ends over a link closes it: the other side is told where that can be
/// said, and the link is released in any case.
pub proof fn law_ended_link_is_released(
    step: Step,
    link_id: DestinationHash,
    teardown: Option<Vec<u8>>,
)
    requires
        step.task.link_id == Some(link_id),
        !step.task.preserve_pending_on_cleanup,
        !step.mailbox.closed,
        step.mailbox.free >= 1,
    ensures
        ({
            let after = step.cleaned(teardown);
            &&& after.task.link_id is None
            &&& after.task.pending_transport.len() == 0
            &&& match teardown {
                Some(body) => after.mailbox.sent == step.mailbox.sent.push(
                    SyncTransportView::SendLinkEndpointAndUnbind {
                        link_id,
                        context: PacketContext::LinkClose,
                        body: body@,
                    },
                ) && after.task.pending_endpoint_sends == step.task.pending_endpoint_sends.push(
                    PendingEndpointSend { link_id, final_send: true },
                ),
                None => after.mailbox.sent == step.mailbox.sent.push(
                    SyncTransportView::UnbindLinkEndpoint { link_id },
                ) && after.task.pending_endpoint_cleanups
                    == step.task.pending_endpoint_cleanups.push(link_id),
            }
        }),
{
}

/// Once the link is bound to an interface, the sync takes packets from that interface
/// only, measures the link, says who it is, and makes its offer. Where it cannot say
/// who it is, it fails for that reason.
pub proof fn law_bound_link_goes_on_to_offer(
    step: Step,
    bind: PendingEndpointBind,
    identification: Identification,
    rate: Option<u64>,
    now: u64,
    link_id: DestinationHash,
)
    requires
        step.task.link_id == Some(link_id),
        step.task.pending_endpoint_bind == Some(bind),
        step.task.pending_transport.len() == 0,
        !step.mailbox.closed,
        step.mailbox.free >= 2,
    ensures
        ({
            let after = step.bind_polled(BindPoll::Bound, identification, rate, now);
            let measured = SyncTransportView::SendLinkEndpoint {
                link_id,
                context: PacketContext::Lrrtt,
                body: bind.rtt_data@,
            };
            &&& after.task.attached_interface == Some(bind.interface_id)
            &&& after.task.pending_endpoint_bind is None
            &&& after.task.accounting.link_establishment_rate == rate
            &&& match identification {
                Identification::Unavailable => after.task.state is Offering
                    && after.mailbox.sent == step.mailbox.sent.push(measured),
                Identification::Failed => after.task.state is Failed
                    && after.task.last_offer_error == Some("ErrorNoIdentity"),
                Identification::Packet(body) => after.task.state is Offering
                    && after.mailbox.sent == step.mailbox.sent.push(measured).push(
                    SyncTransportView::SendLinkEndpoint {
                        link_id,
                        context: PacketContext::LinkIdentify,
                        body: body@,
                    },
                ),
            }
        }),
        step.bind_polled(BindPoll::Refused, identification, rate, now).task.state is Failed,
        step.bind_polled(BindPoll::Waiting, identification, rate, now) == step,
{
}

/// What becomes of a packet that was sent on a link: one that was taken is done with,
/// one that waits still waits, and one that was refused or lost fails the sync over
/// that link and no other. A link whose last packet was refused is released.
pub proof fn law_lost_packets_fail_their_link(
    step: Step,
    send: PendingEndpointSend,
)
    requires
        step.task.pending_transport.len() == 0,
        !step.mailbox.closed,
        step.mailbox.free >= 1,
    ensures
        step.send_polled(send, SendPoll::Accepted) == step,
        step.send_polled(send, SendPoll::Waiting).task.pending_endpoint_sends
            == step.task.pending_endpoint_sends.push(send),
        step.send_polled(send, SendPoll::Waiting).task.state == step.task.state,
        step.task.link_id == Some(send.link_id) ==> step.send_polled(
            send,
            SendPoll::Rejected,
        ).task.state is Failed && step.send_polled(send, SendPoll::Closed).task.state is Failed,
        step.task.link_id != Some(send.link_id) ==> step.send_polled(
            send,
            SendPoll::Rejected,
        ).task.state == step.task.state && step.send_polled(send, SendPoll::Closed).task.state
            == step.task.state,
        send.final_send ==> step.send_polled(send, SendPoll::Rejected).mailbox.sent
            == step.mailbox.sent.push(
            SyncTransportView::UnbindLinkEndpoint { link_id: send.link_id },
        ),
        !send.final_send ==> step.send_polled(send, SendPoll::Rejected).mailbox == step.mailbox,
{
}

/// A link that was released has its packets delivered to the task no more.
pub proof fn law_released_link_is_deregistered(step: Step, link_id: DestinationHash)
    requires
        step.task.pending_transport.len() == 0,
        !step.mailbox.closed,
        step.mailbox.free >= 1,
    ensures
        step.release_polled(link_id, UnbindPoll::Released).mailbox.sent == step.mailbox.sent.push(
            SyncTransportView::DeregisterDestination { hash: link_id },
        ),
        step.release_polled(link_id, UnbindPoll::Waiting).task.pending_endpoint_cleanups
            == step.task.pending_endpoint_cleanups.push(link_id),
        step.release_polled(link_id, UnbindPoll::Waiting).mailbox == step.mailbox,
        step.release_polled(link_id, UnbindPoll::RoleMismatch) == step,
        step.release_polled(link_id, UnbindPoll::Closed) == step,
{
}

/// The end of the task's own link fails the sync; that of another, or of its other
/// side, changes nothing.
pub proof fn law_ended_endpoint_fails_sync(task: SyncTaskView, event: EndpointEvent)
    ensures
        task.link_id == Some(event.link_id) && event.initiator ==> task.endpoint_ended(
            event,
        ).state is Failed && task.endpoint_ended(event).attached_interface is None,
        task.link_id != Some(event.link_id) || !event.initiator ==> task.endpoint_ended(event)
            == task,
        task.endpoint_ended(event).handled_updates == task.handled_updates,
{
}

/// The proof of a link counts while the link is awaited, and is checked with the last
/// thirty-two bytes of the node's public key; without that key nothing can be checked.
pub proof fn law_link_proof_is_checked_with_known_key(
    task: SyncTaskView,
    packet: InboundPacket,
    known: Map<DestinationHash, Seq<u8>>,
    node_hash: DestinationHash,
    key: [u8; 32],
)
    requires
        task.link_id == Some(packet.destination_hash),
        task.state is Establishing,
        task.pending_endpoint_bind is None,
        task.node_dest_hash == Some(node_hash),
        packet.context is Lrproof || (packet.context is Plain && packet.is_proof),
    ensures
        known.contains_key(node_hash) && known[node_hash].subrange(32, 64) == key@ ==> (
        task.role_of(packet, known) matches PacketRole::LinkProof { verify_key } && verify_key
            == key),
        !known.contains_key(node_hash) ==> task.role_of(packet, known) is UnknownIdentity,
{
    if known.contains_key(node_hash) && known[node_hash].subrange(32, 64) == key@ {
        lemma_id_from_view(signing_key(known[node_hash]), key);
    }
}

/// A packet on the task's own link and interface is taken for what it is; an answer
/// to the offer only while it is awaited.
pub proof fn law_packets_are_taken_for_what_they_are(
    task: SyncTaskView,
    packet: InboundPacket,
    known: Map<DestinationHash, Seq<u8>>,
)
    requires
        task.link_id == Some(packet.destination_hash),
        task.attached_interface == Some(packet.interface_id),
        !(packet.context is Plain),
        !(packet.context is Lrproof),
    ensures
        ({
            let role = task.role_of(packet, known);
            &&& role is Response <==> packet.context is Response && task.state is AwaitingResponse
            &&& role is ResourceRequest <==> packet.context is ResourceReq
            &&& role is ResourceProof <==> packet.context is ResourcePrf
            &&& role is HashmapUpdate <==> packet.context is ResourceHmu
            &&& role is ResourceCancel <==> packet.context is ResourceRcl
                || packet.context is ResourceIcl
            &&& role is LinkClose <==> packet.context is LinkClose
            &&& !(role is LinkProof) && !(role is UnknownIdentity)
        }),
{
}

/// The end of a link fails its sync and settles nothing; the cancel of a transfer does
/// the same, if it is for the transfer that runs.
pub proof fn law_interrupted_sync_settles_nothing(
    step: Step,
    node: NodeView,
    interface_id: u64,
    cancelled: Vec<u8>,
)
    ensures
        ({
            let closed = EventStep::after_packet(
                step,
                node,
                interface_id,
                PacketRole::LinkClose,
                LinkWork::Closed,
            );
            &&& closed.step.task.state is Failed
            &&& closed.step.task.active_transfer is None
            &&& closed.step.task.handled_updates == step.task.handled_updates
            &&& closed.node == node && closed.requested is None
        }),
        ({
            let after = EventStep::after_packet(
                step,
                node,
                interface_id,
                PacketRole::ResourceCancel,
                LinkWork::Cancelled(cancelled),
            );
            let own = step.task.active_transfer matches Some(transfer) && cancelled@
                == transfer.resource_hash@;
            &&& own ==> after.step.task.state is Failed && after.step.task.active_transfer is None
            &&& !own ==> after.step == step
            &&& after.step.task.handled_updates == step.task.handled_updates
            &&& after.node == node && after.requested is None
        }),
{
}

/// A proof that a resource came through settles the segment it is for.
pub proof fn law_proven_resource_goes_on(step: Step, node: NodeView, interface_id: u64)
    ensures
        ({
            let after = EventStep::after_packet(
                step,
                node,
                interface_id,
                PacketRole::ResourceProof,
                LinkWork::ResourceProven,
            );
            let last = step.task.pending_transfer_segments.len() == 0;
            &&& last ==> after.step.task.state is Complete && (
            step.task.node_dest_hash matches Some(hash) ==> !after.node.sessions.contains_key(hash))
            &&& !last ==> after.node == node && after.step.task.active_transfer == Some(
                step.task.pending_transfer_segments[0],
            )
            &&& after.step.mailbox == step.mailbox
        }),
{
}

/// A proven link is bound to the interface that its proof came in by, and by no other.
pub proof fn law_link_is_pinned_to_its_proof(
    step: Step,
    link_id: DestinationHash,
    rtt_data: Vec<u8>,
    interface_id: u64,
)
    requires
        step.task.link_id == Some(link_id),
        step.task.pending_transport.len() == 0,
        !step.mailbox.closed,
        step.mailbox.free >= 1,
    ensures
        ({
            let after = step.proof_taken(Some(rtt_data), interface_id);
            &&& after.mailbox.sent == step.mailbox.sent.push(
                SyncTransportView::BindLinkEndpoint { link_id, interface_id },
            )
            &&& after.task.pending_endpoint_bind == Some(
                PendingEndpointBind { interface_id, rtt_data },
            )
            &&& after.task.state == step.task.state
            &&& after.task.attached_interface == step.task.attached_interface
            &&& after.task.last_establish_error is None
        }),
{
}

/// The request for an offer goes over the link, and then the answer is awaited; where the
/// link makes no request of it the sync fails.
pub proof fn law_offer_request_is_sent(
    step: Step,
    link_id: DestinationHash,
    body: Vec<u8>,
    now: u64,
)
    requires
        step.task.link_id == Some(link_id),
        step.task.pending_transport.len() == 0,
        !step.mailbox.closed,
        step.mailbox.free >= 1,
    ensures
        ({
            let after = step.offer_requested(Some(body), now);
            &&& after.mailbox.sent == step.mailbox.sent.push(
                SyncTransportView::SendLinkEndpoint {
                    link_id,
                    context: PacketContext::Request,
                    body: body@,
                },
            )
            &&& after.task.state is AwaitingResponse
            &&& after.task.sync_started == Some(now)
        }),
        step.offer_requested(None, now).task.state is Failed,
        step.offer_requested(None, now).mailbox == step.mailbox,
{
}

/// The stages of an offer by a policy: it is chosen by a worker where there is one, waited
/// for while the worker is at it, and given up where the worker is gone; the store and what
/// is settled do not change meanwhile.
pub proof fn law_offer_goes_by_stages(
    task: SyncTaskView,
    node: NodeView,
    inputs: OfferInputs<'_>,
    peer_hash: DestinationHash,
    policy: OutboundOfferPolicy,
    now: u64,
    step: OfferStep,
)
    requires
        task.node_dest_hash == Some(peer_hash),
        task.offer_policy == Some(policy),
    ensures
        task.offer_preparation is Absent && policy.peer_hash == peer_hash && inputs.has_worker
            && is_offer_step(task, node, inputs, WorkerPoll::Waiting, now, step) ==> (
        step.stage matches OfferStage::Prepare(snapshot) && snapshot.policy.peer_hash == peer_hash
            && snapshot.generation == node.generation && snapshot.candidates@.len()
            == node.store.entries.len()) && step.task.offer_preparation is Pending && step.node
            == node && step.record is None,
        task.offer_preparation is Absent && policy.peer_hash != peer_hash && is_offer_step(
            task,
            node,
            inputs,
            WorkerPoll::Waiting,
            now,
            step,
        ) ==> step.task.state is Failed && step.stage is Over && step.node == node,
        task.offer_preparation is Pending && is_offer_step(
            task,
            node,
            inputs,
            WorkerPoll::Waiting,
            now,
            step,
        ) ==> step.stage is Wait && step.task == task && step.node == node,
        task.offer_preparation is Pending && is_offer_step(
            task,
            node,
            inputs,
            WorkerPoll::Lost,
            now,
            step,
        ) ==> step.stage is Over && step.task.state is Failed && step.task.handled_updates
            == task.handled_updates && step.node == node,
{
}

/// An offer goes with the key it was prepared with; without one, with the key that was made
/// ahead; and only without that is one made.
pub proof fn law_given_key_is_used(
    task: SyncTaskView,
    given: Seq<u8>,
    ahead: Vec<u8>,
    key: Seq<u8>,
)
    requires
        task.is_offer_key(given, key),
    ensures
        given.len() > 0 ==> key == given,
        given.len() == 0 && task.outbound_peering_key == Some(ahead) ==> key == ahead@,
{
}

/// The parts of a resource go out as they are, everything else about it encrypted. What
/// cannot be sent fails the transfer, and a transfer that failed goes no further.
pub proof fn law_parts_are_sent(step: Step, link_id: DestinationHash, frame: Frame)
    requires
        step.task.link_id == Some(link_id),
        step.task.pending_transport.len() == 0,
    ensures
        !step.mailbox.closed && step.mailbox.free >= 1 ==> step.action_done(
            TransferAction::SendPart(frame),
        ).mailbox.sent == step.mailbox.sent.push(
            SyncTransportView::SendLinkEndpoint {
                link_id,
                context: PacketContext::Resource,
                body: frame.data@,
            },
        ) && step.action_done(TransferAction::SendPart(frame)).task.state == step.task.state,
        !step.mailbox.closed && step.mailbox.free >= 1 ==> (frame.encrypted matches Some(body)
            ==> step.action_done(TransferAction::SendAdvertisement(frame)).mailbox.sent
            == step.mailbox.sent.push(
            SyncTransportView::SendLinkEndpoint {
                link_id,
                context: PacketContext::ResourceAdv,
                body: body@,
            },
        )),
        frame.encrypted is None ==> step.action_done(
            TransferAction::SendAdvertisement(frame),
        ).task.state is Failed,
        step.mailbox.closed ==> step.action_done(TransferAction::SendPart(frame)).task.state
            is Failed,
        step.action_done(TransferAction::Failed).task.state is Failed,
        step.action_done(TransferAction::Failed).task.handled_updates
            == step.task.handled_updates,
        step.action_done(TransferAction::Other) == step,
{
}

/// A peer asks for parts of the resource that it names behind the first byte, and behind
/// four more bytes where the first one says that its hashes are used up. A request for any
/// other resource than the one that is being sent is passed over.
pub proof fn law_requests_name_their_resource(
    step: Step,
    transfer: TransferHandle,
    flag: u8,
    map_hash: Seq<u8>,
    name: Seq<u8>,
    rest: Seq<u8>,
    actions: Seq<TransferAction>,
)
    requires
        step.task.active_transfer == Some(transfer),
        name.len() == 32,
        map_hash.len() == 4,
        flag != 0xff,
    ensures
        step.task.is_requested(seq![flag] + name + rest) <==> name == transfer.resource_hash@,
        step.task.is_requested(seq![0xffu8] + map_hash + name + rest) <==> name
            == transfer.resource_hash@,
        name != transfer.resource_hash@ ==> step.request_handled(
            seq![flag] + name + rest,
            actions,
        ) == step,
{
    let short = seq![flag] + name + rest;
    let long = seq![0xffu8] + map_hash + name + rest;
    assert(short[0] == flag && long[0] == 0xffu8);
    assert(short.subrange(1, 33) =~= name);
    assert(long.subrange(5, 37) =~= name);
}

/// While a sync is under way its link is looked after: a link that wants a sign of life is
/// sent one, a link that is over fails the sync, and one that is to be ended is told so.
pub proof fn law_links_are_kept_alive(step: Step, link_id: DestinationHash, body: Vec<u8>)
    requires
        step.task.link_id == Some(link_id),
        step.task.pending_transport.len() == 0,
        !step.mailbox.closed,
        step.mailbox.free >= 1,
        body@.len() > 0,
    ensures
        step.watched(LinkAction::Nothing) == step,
        step.watched(LinkAction::SendKeepalive).mailbox.sent == step.mailbox.sent.push(
            SyncTransportView::SendLinkEndpoint {
                link_id,
                context: PacketContext::Keepalive,
                body: seq![0xffu8],
            },
        ),
        step.watched(LinkAction::SendKeepalive).task.state == step.task.state,
        step.watched(LinkAction::Closed).task.state is Failed,
        step.watched(LinkAction::SendTeardownAndClose(body)).task.state is Failed,
        step.watched(LinkAction::SendTeardownAndClose(body)).mailbox.sent
            == step.mailbox.sent.push(
            SyncTransportView::SendLinkEndpointAndUnbind {
                link_id,
                context: PacketContext::LinkClose,
                body: body@,
            },
        ),
        step.watched(LinkAction::SendTeardownAndClose(body)).task.preserve_pending_on_cleanup,
{
}

/// A transport that is gone fails a sync that still has something to say to it; an idle
/// task just forgets what it had to say.
pub proof fn law_lost_transport_fails_sync(step: Step)
    requires
        step.mailbox.closed,
        step.task.pending_transport.len() > 0,
    ensures
        !(step.task.state is Idle) ==> step.flushed().task.state is Failed,
        step.task.state is Idle ==> step.flushed().task.state is Idle,
        step.flushed().task.pending_transport.len() == 0,
{
}

/// What waits for the transport holds a sync up until it is sent; a sync that is over is
/// not held up, so that it can be ended.
pub proof fn law_waiting_holds_up(task: SyncTaskView)
    ensures
        task.is_blocked() <==> task.pending_transport.len() > 0 && !(task.state is Complete)
            && !(task.state is Failed),
        task.is_watched() <==> !(task.state is Idle) && !(task.state is Complete) && !(
        task.state is Failed),
{
}

/// A task starts with nothing to do and nobody to sync with. It looks every five minutes
/// whether a sync is due, and waits two minutes for an answer.
pub proof fn law_tasks_start_idle(now: u64)
    ensures
        ({
            let task = idle_task(now);
            &&& task.state is Idle
            &&& task.node_dest_hash is None && task.link_id is None && task.peer is None
            &&& task.offer_policy is None && task.terminal_result is None
            &&& task.handled_updates.len() == 0 && task.pending_transport.len() == 0
            &&& task.last_sync == now
            &&& task.sync_interval == 300_000
            &&& task.sync_timeout == 120_000
            &&& task.active_transfer is None
            &&& task.accounting.offered_count == 0 && task.accounting.outgoing_count == 0
        }),
{
}

/// Where nothing waits and nothing is reported, a tick does no more than give up a sync
/// that has waited too long; what is to be done next follows from where the sync then
/// stands.
pub proof fn law_quiet_tick(
    step: Step,
    reports: EndpointReports,
    message_count: usize,
    now: u64,
)
    requires
        step.task.pending_transport.len() == 0,
        step.task.pending_endpoint_sends.len() == 0,
        step.task.pending_endpoint_cleanups.len() == 0,
        step.task.pending_endpoint_bind is None,
        reports.ended@.len() == 0,
        !step.mailbox.closed,
    ensures
        step.tick_begun(reports, now) == step.timed_out(now),
        step.task.state is Idle || step.task.link_id is Some ==> step.tick_action(
            reports,
            LinkAction::Nothing,
            message_count,
            now,
        ) == step.timed_out(now).task.next_action(message_count, now),
        step.task.state is Complete || step.task.state is Failed ==> step.tick_action(
            reports,
            LinkAction::Nothing,
            message_count,
            now,
        ) is FinishSync,
{
    assert(step.task.pending_transport =~= Seq::empty());
    assert(step.task.pending_endpoint_sends =~= Seq::empty());
    assert(step.task.pending_endpoint_cleanups =~= Seq::empty());
    assert(step.mailbox.sent + Seq::<SyncTransportView>::empty() =~= step.mailbox.sent);
    assert(step.flushed().mailbox =~= step.mailbox);
    assert(step.flushed().task =~= step.task);
    let flushed = step.flushed();
    assert(flushed =~= step);
    let polled = flushed.endpoints_polled(reports.sends@, reports.releases@);
    assert(polled.task =~= step.task);
    assert(polled =~= step);
    assert(flushed.reported(reports, now) =~= step);
}

/// What waits to be said holds a tick up: nothing is begun before it is said, unless the
/// sync is over.
pub proof fn law_held_up_tick_begins_nothing(
    step: Step,
    reports: EndpointReports,
    action: LinkAction,
    message_count: usize,
    now: u64,
)
    requires
        step.tick_begun(reports, now).task.pending_transport.len() > 0,
        !(step.tick_begun(reports, now).task.state is Complete),
        !(step.tick_begun(reports, now).task.state is Failed),
    ensures
        step.tick_action(reports, action, message_count, now) is Nothing,
        step.ticked(reports, action, message_count, now) == step.tick_begun(reports, now),
{
}

/// The end of the task's own link fails the sync, wherever it stands among the reports.
pub proof fn law_reported_end_fails_sync(
    task: SyncTaskView,
    events: Seq<EndpointEvent>,
    n: int,
    i: int,
    link_id: DestinationHash,
)
    requires
        task.link_id == Some(link_id),
        0 <= n <= events.len(),
    ensures
        task.endpoints_ended(events, n).link_id == Some(link_id),
        0 <= i < n && events[i].link_id == link_id && events[i].initiator ==> task.endpoints_ended(
            events,
            n,
        ).state is Failed,
        task.state is Failed ==> task.endpoints_ended(events, n).state is Failed,
        (forall|k: int|
            0 <= k < n ==> (#[trigger] events[k]).link_id != link_id || !events[k].initiator)
            ==> task.endpoints_ended(events, n) == task,
    decreases n,
{
    if n > 0 {
        law_reported_end_fails_sync(task, events, n - 1, i, link_id);
    }
}

/// The packets whose fate is reported are dealt with in the order in which they were sent.
pub proof fn law_reports_are_taken_in_order(
    step: Step,
    sends: Seq<PendingEndpointSend>,
    polls: Seq<SendPoll>,
    n: int,
)
    requires
        0 < n <= sends.len(),
        polls.len() == sends.len(),
    ensures
        step.sends_polled(sends, polls, n) == step.sends_polled(sends, polls, n - 1).send_polled(
            sends[n - 1],
            polls[n - 1],
        ),
        step.sends_polled(sends, polls, 0).task.pending_endpoint_sends.len() == 0,
        step.sends_polled(sends, polls, 0).mailbox == step.mailbox,
        step.sends_polled(sends, polls, 0).task.state == step.task.state,
{
}

/// A transfer goes on by itself only while its parts are sent and nothing waits; whatever
/// else happens is the last thing of a tick. Without a transfer nothing is done.
pub proof fn law_transfers_pause(step: Step, actions: Seq<TransferAction>, action: TransferAction)
    ensures
        step.action_goes_on(action) ==> action is SendPart && step.action_done(
            action,
        ).task.pending_transport.len() == 0,
        step.task.active_transfer is None ==> step.actions_done(actions, 0) == step,
        actions.len() == 0 ==> step.actions_done(actions, 0) == step,
        step.task.active_transfer is Some && actions.len() > 0 && !step.action_goes_on(actions[0])
            ==> step.actions_done(actions, 0) == step.action_done(actions[0]),
        step.task.active_transfer is Some && actions.len() > 0 && step.action_goes_on(actions[0])
            ==> step.actions_done(actions, 0) == step.action_done(actions[0]).actions_done(
            actions,
            1,
        ),
        step.actions_done(actions, 16) == step,
{
}

/// A session with a peer ends when the last segment of a transfer to it is through, and not
/// before.
pub proof fn law_session_ends_with_the_transfer(
    node: NodeView,
    step: Step,
    peer_hash: DestinationHash,
    action: TransferAction,
)
    requires
        step.task.node_dest_hash == Some(peer_hash),
    ensures
        action is Complete && step.task.pending_transfer_segments.len() == 0
            ==> !node_after_action(node, step.task, action).sessions.contains_key(peer_hash),
        !(action is Complete) || step.task.pending_transfer_segments.len() > 0
            ==> node_after_action(node, step.task, action) == node,
        node_after_action(node, step.task, action).store == node.store,
        step.task.active_transfer is Some && !step.action_goes_on(action) ==> node_after_actions(
            node,
            step,
            seq![action],
            0,
        ) == node_after_action(node, step.task, action),
{
}

/// A transfer begins as soon as its messages are read, if there are any; while they are
/// being read it waits, and where they cannot be read it fails.
pub proof fn law_transfer_begins_when_read(step: Step, reports: TransferReports, now: u64)
    requires
        step.task.active_transfer is None,
        step.task.transfer_preparation is Pending,
    ensures
        ({
            let ready = step.transfer_ready(reports, now);
            match reports.batch {
                WorkerPoll::Waiting => ready == step,
                WorkerPoll::Lost => ready.task.state is Failed && ready.task.active_transfer
                    is None,
                WorkerPoll::Done(batch) => {
                    &&& batch.transient_ids@.len() == 0 ==> ready.task.state is Failed
                        && ready.task.active_transfer is None
                    &&& batch.transient_ids@.len() > 0 && reports.segments@.len() > 0
                        ==> ready.task.active_transfer == Some(reports.segments@[0])
                        && ready.task.active_transfer_ids == batch.transient_ids@
                        && ready.task.state == step.task.state
                    &&& batch.transient_ids@.len() > 0 && reports.segments@.len() == 0
                        ==> ready.task.state is Failed
                },
            }
        }),
        step.transfer_ready(reports, now).mailbox == step.mailbox,
        step.transfer_ready(reports, now).task.handled_updates == step.task.handled_updates,
{
}

/// A transfer that runs is not begun again.
pub proof fn law_running_transfer_stays(step: Step, reports: TransferReports, now: u64)
    requires
        step.task.active_transfer is Some,
    ensures
        step.transfer_ready(reports, now) == step,
{
}

/// The files for a transfer are planned exactly where a peer asks for messages, as many as
/// it asks for and can be found.
pub proof fn law_transfer_is_planned_for_what_is_asked(
    node: NodeView,
    requested: Option<Seq<PropagationTransientId>>,
    plan: Option<TransferPlan>,
)
    requires
        is_plan(node, requested, plan),
    ensures
        requested is Some <==> plan is Some,
        requested matches Some(ids) ==> plan->0.requested_count == ids.len(),
        requested matches Some(ids) ==> message_read_views(plan->0.reads@) == message_reads(
            node,
            ids,
        ),
{
}

/// The identifiers and the contents of what was read stay side by side.
pub proof fn law_names_and_contents_go_together(
    messages: Seq<(PropagationTransientId, Seq<u8>)>,
    i: int,
)
    requires
        0 <= i < messages.len(),
    ensures
        message_ids(messages).len() == messages.len(),
        message_data(messages).len() == messages.len(),
        (message_ids(messages)[i], message_data(messages)[i]) == messages[i],
{
}

/// What a peer asks of a resource is done in order, until something ends the transfer: a
/// part that is sent does not end it, and what failed, is complete or is cancelled does.
pub proof fn law_requested_parts_are_sent_in_order(
    step: Step,
    link_id: DestinationHash,
    actions: Seq<TransferAction>,
    i: int,
    frame: Frame,
)
    requires
        step.task.link_id == Some(link_id),
        step.task.pending_transport.len() == 0,
        !step.mailbox.closed,
        step.mailbox.free >= 1,
        0 <= i < actions.len(),
    ensures
        actions[i] == TransferAction::SendPart(frame) ==> step.request_goes_on(actions[i])
            && step.request_action_done(actions[i]).mailbox.sent == step.mailbox.sent.push(
            SyncTransportView::SendLinkEndpoint {
                link_id,
                context: PacketContext::Resource,
                body: frame.data@,
            },
        ),
        actions[i] is Failed ==> !step.request_goes_on(actions[i]) && step.request_action_done(
            actions[i],
        ).task.state is Failed,
        actions[i] is Complete || actions[i] is SendCancel ==> !step.request_goes_on(actions[i]),
        actions[i] is Other ==> step.request_goes_on(actions[i]) && step.request_action_done(
            actions[i],
        ) == step,
        step.request_goes_on(actions[i]) ==> step.request_actions_done(actions, i)
            == step.request_action_done(actions[i]).request_actions_done(actions, i + 1),
        !step.request_goes_on(actions[i]) ==> step.request_actions_done(actions, i)
            == step.request_action_done(actions[i]),
        step.request_actions_done(actions, actions.len() as int) == step,
{
}

/// An offer that a task chooses itself is chosen from the store as it is, by the policy of
/// the sync.
pub proof fn law_prepared_offer_is_of_the_store(
    node: NodeView,
    policy: OutboundOfferPolicy,
    held: Set<PropagationTransientId>,
    now: u64,
    prepared: PreparedSyncOffer,
    entry: PropagationEntry,
)
    requires
        node.wf(),
        is_prepared(node, policy, held, now, prepared),
        node.store.entries.contains(entry),
    ensures
        prepared.generation == node.generation,
        prepared.policy.peer_hash == policy.peer_hash,
        prepared.policy.peering_key@ == policy.peering_key@,
        ({
            let lacks = !policy.handled_messages@.contains(entry.transient_id) && !held.contains(
                entry.transient_id,
            );
            let refused = entry.stamp_value < policy.minimum_stamp_cost || (
            policy.propagation_transfer_limit matches Some(limit) && limit < usize::MAX
                && entry.size + 16 > limit);
            &&& prepared.selected_ids@.contains(entry.transient_id) ==> lacks && !refused
            &&& prepared.terminal_handled_ids@.contains(entry.transient_id) <==> lacks && refused
            &&& lacks && !refused && !prepared.selected_ids@.contains(entry.transient_id)
                && prepared.selected_ids@.len() > 0 ==> !prepared.generation_exhausted
        }),
{
    let limits = policy_limits(policy, held);
    let (candidates, order) = choose|
        candidates: Seq<SyncOfferCandidateSnapshot>,
        order: Seq<SyncOfferCandidateSnapshot>,
    | #[trigger]
        is_offer_order(candidates, order) && are_candidates(node, candidates, now)
            && prepared.is_choice(order, limits);
    assert(is_offer_choice(node, limits, now, select_all(order, limits)));
    law_offer_goes_by_policy(node, policy, held, now, select_all(order, limits), entry);
}

/// A sync that is due with nothing to offer is put off as if it had been made; nothing else
/// about the task changes, and nothing at all where none is due.
pub proof fn law_empty_store_puts_sync_off(task: SyncTaskView, message_count: usize, now: u64)
    requires
        now >= task.last_sync,
    ensures
        ({
            let due = task.state is Idle && task.node_dest_hash is Some && task.terminal_result
                is None && task.offer_policy is None && now - task.last_sync >= task.sync_interval;
            &&& due && message_count == 0 ==> task.dispatched(message_count, now) == (SyncTaskView {
                last_sync: now,
                ..task
            })
            &&& !due || message_count > 0 ==> task.dispatched(message_count, now) == task
        }),
{
}

/// A sync that is given up while it is under way closes its link, and the other side is told;
/// one that has not begun has nothing to close.
pub proof fn law_cancelled_sync_closes_its_link(
    step: Step,
    peer_hash: DestinationHash,
    link_id: DestinationHash,
    body: Vec<u8>,
)
    requires
        step.task.node_dest_hash == Some(peer_hash),
        step.task.link_id == Some(link_id),
        !step.task.preserve_pending_on_cleanup,
        !step.mailbox.closed,
        step.mailbox.free >= 1,
    ensures
        !(step.task.state is Idle) ==> step.cancelled(peer_hash, Some(body)).mailbox.sent
            == step.mailbox.sent.push(
            SyncTransportView::SendLinkEndpointAndUnbind {
                link_id,
                context: PacketContext::LinkClose,
                body: body@,
            },
        ) && step.cancelled(peer_hash, Some(body)).task.link_id is None,
        step.task.state is Idle ==> step.cancelled(peer_hash, Some(body)).mailbox == step.mailbox,
{
    law_ended_link_is_released(step, link_id, Some(body));
}

/// A request for another resource than the one that is being sent leaves the session as it
/// is.
pub proof fn law_foreign_requests_end_no_session(
    node: NodeView,
    step: Step,
    request: Seq<u8>,
    actions: Seq<TransferAction>,
)
    requires
        !step.task.is_requested(request),
    ensures
        node_after_request(node, step, request, actions) == node,
        step.request_handled(request, actions) == step,
{
}

/// No more than 256 messages ever wait for the transport: the sync that has one more to send
/// fails, and what waits already is kept.
pub proof fn law_waiting_messages_are_bounded(step: Step, message: SyncTransportView)
    requires
        step.task.pending_transport.len() <= 256,
    ensures
        step.queued(message).task.pending_transport.len() <= 256,
        step.task.pending_transport.len() == 256 ==> step.queued(message).task.state is Failed
            && step.queued(message).task.pending_transport == step.task.pending_transport
            && !step.keeps(),
        0 < step.task.pending_transport.len() < 256 ==> step.keeps() && step.queued(
            message,
        ).task.pending_transport == step.task.pending_transport.push(message),
{
}

} // verus!
