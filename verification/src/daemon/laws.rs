//! What holds of the daemon's decisions.

use vstd::prelude::*;
#[allow(unused_imports)]
use vstd::string::StringSliceAdditionalSpecFns;
#[allow(unused_imports)]
use crate::constants::{STATS_GET_PATH, SYNC_REQUEST_PATH, UNPEER_REQUEST_PATH};
#[allow(unused_imports)]
use crate::daemon::accounts::{
    counted_bytes, scheduler_after_command, scheduler_after_key, AccountsView, ControlCommand,
    KeyOutcome, PropagationStoreWriteOrigin,
};
#[allow(unused_imports)]
use crate::daemon::announces::{
    fresh_ratchets, ratchets_after, received_after, verdict_of, HeardAnnounce, PeerChange,
    PnAnnounce, PnVerdict,
};
#[allow(unused_imports)]
use crate::daemon::backchannel::{
    cancellation_of, receipt_of, send_error_of, BackchannelSendError, BackchannelSendReceipt,
    LinkPayloadSendReceipt, LinkSendError,
};
#[allow(unused_imports)]
use crate::daemon::control::{
    control_answer, named_peer, path_hash, peer_from, refusal_bytes, ControlAnswerView,
    ControlSnapshot,
};
#[allow(unused_imports)]
use crate::daemon::delivery::{
    hops_to, is_retryable, packet_orders, reusable_link, tried, DeliveryState,
    DirectReusableLinkState, LinkStates, OutboundMessage, PacketOrderView, PathQuery,
};
#[allow(unused_imports)]
use crate::daemon::identities::is_pruning;
#[allow(unused_imports)]
use crate::daemon::ingress::{all_settled, settled};
#[allow(unused_imports)]
use crate::daemon::intake::{
    addressed, all_slices, are_split, bytes_in, is_intake, is_one_taken, is_taken, least_cost,
    resource_entries, resource_outcome, source_key, verdict_on, well_stamped, wrapped_entries,
    wrapper_entries, InboundFacts, InboundVerdict, PnValidationOutcome, StampPolicy,
};
#[allow(unused_imports)]
use crate::daemon::outbound::{
    asked_for_path, attempt_step, direct_step_of, effect_of, first_step_of, is_overdue,
    opportunistic_step_of, proven_id, retry_order, DeliveryResult, DirectDeliveryPlan, DirectStep, Encryption, FirstStep,
    LinkStep, OpportunisticStep, OutboundAction, RouterOrder,
};
#[allow(unused_imports)]
use crate::daemon::peering::{PeeringKeyWorkerResult, SchedulerView};
#[allow(unused_imports)]
use crate::daemon::resources::{
    inbound_event_of, InboundResourceConclusion, InboundResourceEvent, InboundResourceKey,
    LinkResourceConclusion, LinkResourceDirection, LinkResourceEvent,
};
#[allow(unused_imports)]
use crate::daemon::schedule::{routes_from, DaemonClock, RouteEntry};
#[allow(unused_imports)]
use crate::daemon::sending::{
    announce_looked, announce_step, send_begun, send_looked, AnnounceStep, AnnounceWait,
    OutboundWork, SendEnd, SendState,
};
#[allow(unused_imports)]
use crate::daemon::settings::{
    destination_with, hashes_named, level_of, message_file, named_destination, named_destinations,
    with_static, LogLevel,
};
#[allow(unused_imports)]
use crate::ids::{lemma_id_from_view, DestinationHash, PropagationTransientId};
#[allow(unused_imports)]
use crate::msgpack::{
    binaries, msgpack_decoded, msgpack_encoded, slice_of, timed_wire, WireView,
};
#[allow(unused_imports)]
use crate::node::{NodeView, WritePlanView};
#[allow(unused_imports)]
use crate::peer::{key_view, PeerView};
#[allow(unused_imports)]
use crate::offer::PnOfferEvaluationError;
#[allow(unused_imports)]
use crate::stamper::{
    law_split_keeps_everything, pn_stamp_valid, sha256_digest, stored_value, ValidatedPnEntry,
};
#[allow(unused_imports)]
use crate::sync_task::events::signing_key;
#[allow(unused_imports)]
use crate::text::{hex_bytes, hex_chars, is_hex, lemma_hex_round_trip};
#[allow(unused_imports)]
use crate::transport::MailboxView;

verus! {

/// An attempt at a message counts, and the next one waits ten seconds; a message that
/// waits for a path waits seven, and counts only where it says so.
pub proof fn law_attempts_count_and_wait(message: OutboundMessage, now: u64, counts: bool)
    requires
        message.delivery_attempts < u32::MAX,
        now + 10_000 <= u64::MAX,
    ensures
        ({
            let tried = message.attempted(now);
            &&& tried.delivery_attempts == message.delivery_attempts + 1
            &&& tried.last_delivery_attempt == now
            &&& tried.next_delivery_attempt == now + 10_000
            &&& tried == (OutboundMessage {
                delivery_attempts: tried.delivery_attempts,
                last_delivery_attempt: tried.last_delivery_attempt,
                next_delivery_attempt: tried.next_delivery_attempt,
                ..message
            })
        }),
        ({
            let waiting = message.waiting_for_path(now, counts);
            &&& waiting.delivery_attempts == message.delivery_attempts + (if counts {
                1int
            } else {
                0
            })
            &&& waiting.last_delivery_attempt == now
            &&& waiting.next_delivery_attempt == now + 7_000
            &&& waiting == (OutboundMessage {
                delivery_attempts: waiting.delivery_attempts,
                last_delivery_attempt: waiting.last_delivery_attempt,
                next_delivery_attempt: waiting.next_delivery_attempt,
                ..message
            })
        }),
{
}

/// An attempt over a link starts as long as it is not the fifth: then the message goes
/// back to the router. Either way it is counted.
pub proof fn law_attempts_start_until_the_last(message: OutboundMessage, hops: u8, now: u64)
    requires
        message.delivery_attempts < u32::MAX,
    ensures
        match attempt_step(message, hops, now) {
            LinkStep::Start { message: started, hops: over } => {
                &&& message.delivery_attempts < 4
                &&& started == message.attempted(now)
                &&& over == hops
            },
            LinkStep::Order(order) => {
                &&& message.delivery_attempts >= 4
                &&& order == RouterOrder::Requeue(message.attempted(now))
            },
        },
{
}

/// A message for a propagation node is packed for it where the node's identity is
/// known; otherwise a path to the node is asked for and the message waits, its attempt
/// counted.
pub proof fn law_propagated_messages_need_an_identity(
    prop_hash: DestinationHash,
    message: OutboundMessage,
    known: Map<DestinationHash, Seq<u8>>,
    stamp_cost: Option<u8>,
    now: u64,
)
    ensures
        ({
            let (step, path) = first_step_of(
                OutboundAction::DeliverPropagated { prop_hash },
                message,
                known,
                stamp_cost,
                now,
            );
            &&& known.contains_key(prop_hash) ==> step == (FirstStep::PackForPropagation {
                prop_hash,
            }) && path is None
            &&& !known.contains_key(prop_hash) ==> step == FirstStep::Order(
                RouterOrder::Requeue(message.waiting_for_path(now, true)),
            ) && path == Some(prop_hash)
        }),
        first_step_of(OutboundAction::Failed, message, known, stamp_cost, now).0 is Exhausted,
        first_step_of(OutboundAction::Expired, message, known, stamp_cost, now).0 is Expired,
{
}

/// A message that came through is marked delivered and one that was turned away is
/// marked rejected. One whose link failed is tried again while it was tried no more
/// than five times and the link may be mended, with a path asked for; otherwise it is
/// marked failed where the router holds it, and the reason is told.
pub proof fn law_link_outcomes_are_acted_on(
    hash: [u8; 32],
    dest_hash: DestinationHash,
    message: OutboundMessage,
    reason: String,
    pending: Seq<[u8; 32]>,
    paths: MailboxView<PathQuery>,
    now: u64,
)
    ensures
        effect_of(
            DeliveryResult::Complete { msg_hash: Some(hash) },
            pending,
            paths,
            now,
        ).order == RouterOrder::MarkDelivered(hash),
        effect_of(
            DeliveryResult::Complete { msg_hash: Some(hash) },
            pending,
            paths,
            now,
        ).failure is None,
        ({
            let turned = effect_of(
                DeliveryResult::Rejected { msg_hash: Some(hash), reason },
                pending,
                paths,
                now,
            );
            turned.order == RouterOrder::MarkRejected(hash) && turned.failure == Some(reason@)
                && turned.paths == paths
        }),
        ({
            let effect = effect_of(
                DeliveryResult::Failed { msg_hash: Some(hash), dest_hash, message, reason },
                pending,
                paths,
                now,
            );
            let mendable = reason@ == "link establishment timeout"@ || reason@ == "link closed"@
                || reason@ == "transport full"@ || reason@ == "transport closed"@ || reason@
                == "link is not active"@ || reason@ == "link not found"@;
            if mendable && message.delivery_attempts <= 5 {
                &&& effect.order == (if pending.contains(hash) {
                    RouterOrder::DeferForPath(hash)
                } else {
                    RouterOrder::Requeue(message.waiting_for_path(now, false))
                })
                &&& effect.failure is None
                &&& !paths.closed && paths.free > 0 ==> effect.paths.sent == paths.sent.push(
                    PathQuery::RequestPath(dest_hash),
                )
            } else {
                &&& effect.order == (if pending.contains(hash) {
                    RouterOrder::MarkFailed(hash)
                } else {
                    RouterOrder::Nothing
                })
                &&& effect.failure == Some(reason@)
                &&& effect.paths == paths
            }
        }),
{
}

/// A direct delivery goes over the link that the other side opened only where there is
/// none of its own, over a new link as far as the plan says, and over a link of its own
/// otherwise. A message that has to wait goes back to a router that does not hold it.
pub proof fn law_direct_plans_are_carried_out(
    message: OutboundMessage,
    router_owned: bool,
    has_direct_link: bool,
    has_backchannel: bool,
    known_hops: u8,
    new_hops: u8,
    drop_existing: bool,
)
    ensures
        direct_step_of(
            DirectDeliveryPlan::UseReusableLink,
            message,
            router_owned,
            has_direct_link,
            has_backchannel,
            known_hops,
        ) is Backchannel <==> has_backchannel && !has_direct_link,
        direct_step_of(
            DirectDeliveryPlan::UseReusableLink,
            message,
            router_owned,
            true,
            has_backchannel,
            known_hops,
        ) == (DirectStep::Link { hops: known_hops }),
        direct_step_of(
            DirectDeliveryPlan::StartNewLink { hops: new_hops },
            message,
            router_owned,
            has_direct_link,
            has_backchannel,
            known_hops,
        ) == (DirectStep::Link { hops: new_hops }),
        forall|plan: DirectDeliveryPlan|
            plan is RequestPath || plan is DeferTerminalFailure || plan is WaitForReusableLink
                ==> #[trigger] direct_step_of(
                plan,
                message,
                router_owned,
                has_direct_link,
                has_backchannel,
                known_hops,
            ) == DirectStep::Order(
                if router_owned {
                    RouterOrder::Nothing
                } else {
                    RouterOrder::Requeue(message)
                },
            ),
        direct_step_of(
            DirectDeliveryPlan::Fail,
            message,
            router_owned,
            has_direct_link,
            has_backchannel,
            known_hops,
        ) == DirectStep::Order(RouterOrder::Nothing),
{
}

/// A message that fits five hundred bytes goes in a packet of its own, its attempt
/// counted; a larger one goes over a link, as far as the destination is away. Without
/// the destination's identity it waits, and a path is asked for.
pub proof fn law_large_messages_take_a_link(
    message: OutboundMessage,
    dest_hash: DestinationHash,
    hops: u8,
    now: u64,
    len: usize,
)
    requires
        message.delivery_attempts < 4,
    ensures
        opportunistic_step_of(Encryption::Packet { len }, message, dest_hash, hops, now) == (
            if len <= 500 {
                OpportunisticStep::Send { message: message.attempted(now) }
            } else {
                OpportunisticStep::Link { message: message.attempted(now), hops }
            },
            None::<DestinationHash>,
        ),
        opportunistic_step_of(Encryption::UnknownIdentity, message, dest_hash, hops, now) == (
            OpportunisticStep::Order(RouterOrder::Requeue(message.waiting_for_path(now, true))),
            Some(dest_hash),
        ),
        opportunistic_step_of(Encryption::Failed, message, dest_hash, hops, now) == (
            OpportunisticStep::Order(RouterOrder::Nothing),
            None::<DestinationHash>,
        ),
{
}

/// A message that cannot go now is tried again by the router that holds it, or given
/// back to it as it is, waiting for a path.
pub proof fn law_retries_go_to_the_holder(
    hash: [u8; 32],
    message: OutboundMessage,
    now: u64,
)
    ensures
        retry_order(Some(hash), true, message, now) == RouterOrder::DeferForPath(hash),
        retry_order(Some(hash), false, message, now) == RouterOrder::Requeue(
            message.waiting_for_path(now, false),
        ),
{
}

/// The receipt of a packet is registered before the packet is sent, under the digits
/// of the message's hash, by which its proof names it later.
pub proof fn law_receipt_comes_before_packet(
    destination_hash: DestinationHash,
    public_key: [u8; 64],
    msg_hash: [u8; 32],
    raw: Seq<u8>,
)
    ensures
        ({
            let orders = packet_orders(destination_hash, public_key, Some(msg_hash), raw);
            &&& orders.len() == 2
            &&& orders[0] matches PacketOrderView::RegisterReceipt {
                destination_hash: to,
                destination_public_key,
                msg_id,
                timeout_ms,
            } && to == destination_hash && destination_public_key == public_key && timeout_ms
                == 15_000 && proven_id(msg_id) == Some(msg_hash@)
            &&& orders[1] == (PacketOrderView::Outbound { destination_hash, raw })
        }),
        packet_orders(destination_hash, public_key, None, raw) == seq![
            PacketOrderView::Outbound { destination_hash, raw },
        ],
{
    lemma_hex_round_trip(msg_hash@);
}

/// A packet is tried again once its proof is overdue, and not before.
pub proof fn law_overdue_is_by_time(
    in_flight: Map<[u8; 32], OutboundMessage>,
    id: [u8; 32],
    now: u64,
)
    ensures
        is_overdue(in_flight, id, now) <==> in_flight.contains_key(id) && now
            >= in_flight[id].next_delivery_attempt,
{
}

/// A destination is as far away as was heard last, and at least one hop where nothing
/// better is known.
pub proof fn law_hops_are_at_least_one(
    route_hops: Map<DestinationHash, u8>,
    dest_hash: DestinationHash,
)
    ensures
        hops_to(route_hops, dest_hash) >= 1,
        route_hops.contains_key(dest_hash) && route_hops[dest_hash] >= 1 ==> hops_to(
            route_hops,
            dest_hash,
        ) == route_hops[dest_hash],
        !route_hops.contains_key(dest_hash) ==> hops_to(route_hops, dest_hash) == 1,
{
}

/// A link of the daemon's own is used again where it is idle and not where it failed;
/// one that the other side opened counts where there is none, and is busy while
/// anything is queued or under way on it.
pub proof fn law_links_are_used_again(links: &LinkStates, dest_hash: DestinationHash)
    ensures
        reusable_link(None, dest_hash) is Missing,
        links.direct@.contains_key(dest_hash) ==> match links.direct@[dest_hash] {
            DeliveryState::Idle => reusable_link(Some(links), dest_hash) is Active,
            DeliveryState::Failed => reusable_link(Some(links), dest_hash) is Closed,
            _ => reusable_link(Some(links), dest_hash) is Pending,
        },
        !links.direct@.contains_key(dest_hash) && links.backchannel@.contains_key(dest_hash) ==> (
        reusable_link(Some(links), dest_hash) is Active
            <==> links.backchannel@[dest_hash].queued_deliveries == 0
            && links.backchannel@[dest_hash].in_flight_deliveries == 0),
        !links.direct@.contains_key(dest_hash) && links.backchannel@.contains_key(dest_hash)
            ==> reusable_link(Some(links), dest_hash) is Active || reusable_link(
            Some(links),
            dest_hash,
        ) is Pending,
        !links.direct@.contains_key(dest_hash) && !links.backchannel@.contains_key(dest_hash)
            ==> reusable_link(Some(links), dest_hash) is Missing,
{
}

/// A node that was not named by the operator is peered with when it announces that it
/// takes messages, and given up when it announces that it takes none, as long as that
/// is no older than what is known; but only where the daemon peers by itself, and never
/// by an answer for a path.
pub proof fn law_peering_follows_announces(
    announce: PnAnnounce,
    autopeer: bool,
    peer: Option<PeerView>,
)
    ensures
        verdict_of(announce, false, autopeer, peer) is Peer <==> autopeer
            && !announce.is_path_response && announce.node_state,
        verdict_of(announce, false, autopeer, peer) is Unpeer <==> autopeer
            && !announce.is_path_response && !announce.node_state && (peer matches Some(known)
            && !known.is_static && announce.timebase >= known.peering_timebase),
        verdict_of(announce, true, autopeer, peer) is Peer <==> !announce.is_path_response || (
        peer matches Some(known) && (known.stamp_cost is None
            || known.stamp_cost_flexibility is None)),
{
}

/// What one node puts into a transfer the other one takes out of it: the same messages
/// in the same order, whatever the time. A transfer larger than agreed is not read.
pub proof fn law_transfers_read_back(time_bits: u64, items: Seq<Seq<u8>>, data: Seq<u8>, max: usize)
    ensures
        wrapped_entries(timed_wire(time_bits, items)) == Some(items),
        data.len() > max ==> wrapper_entries(data, max) is None,
{
    let inner = Seq::new(items.len(), |i: int| WireView::Binary(items[i]));
    let found = wrapped_entries(timed_wire(time_bits, items));
    assert(found is Some);
    assert(found->0 =~= items);
}

/// A transfer is taken as a whole where every stamp is worth what is asked for, and in
/// part otherwise. Only a peer may send more than one message in it. What cannot be read
/// has no messages.
pub proof fn law_transfers_are_judged(
    data: Seq<u8>,
    allow_multiple: bool,
    max_bytes: usize,
    min_cost: u8,
)
    ensures
        ({
            let outcome = resource_outcome(data, allow_multiple, max_bytes, min_cost);
            let taken = resource_entries(data, allow_multiple, max_bytes, min_cost);
            match wrapper_entries(data, max_bytes) {
                None => outcome is Failed && taken.len() == 0,
                Some(entries) => {
                    &&& outcome is UnauthorizedMultiple <==> !allow_multiple && entries.len() > 1
                    &&& outcome is UnauthorizedMultiple ==> taken.len() == 0
                    &&& outcome is Valid || outcome is InvalidStamp
                        || outcome is UnauthorizedMultiple
                    &&& outcome is Valid ==> taken == entries && forall|i: int|
                        0 <= i < entries.len() ==> pn_stamp_valid(#[trigger] entries[i], min_cost)
                    &&& outcome is InvalidStamp ==> exists|i: int|
                        0 <= i < entries.len() && !pn_stamp_valid(#[trigger] entries[i], min_cost)
                },
            }
        }),
{
    if let Some(entries) = wrapper_entries(data, max_bytes) {
        lemma_well_stamped(entries, min_cost);
    }
}

/// All messages are well stamped exactly when none is left out.
proof fn lemma_well_stamped(entries: Seq<Seq<u8>>, min_cost: u8)
    ensures
        well_stamped(entries, min_cost).len() <= entries.len(),
        well_stamped(entries, min_cost).len() == entries.len() <==> forall|i: int|
            0 <= i < entries.len() ==> pn_stamp_valid(#[trigger] entries[i], min_cost),
        well_stamped(entries, min_cost).len() == entries.len() ==> well_stamped(entries, min_cost)
            == entries,
    decreases entries.len(),
{
    reveal(Seq::filter);
    if entries.len() > 0 {
        let rest = entries.drop_last();
        lemma_well_stamped(rest, min_cost);
        let n = entries.len() - 1;
        assert(entries.last() == entries[n]);
        assert forall|i: int| 0 <= i < n implies #[trigger] rest[i] == entries[i] by {}
        let all_rest = forall|i: int|
            0 <= i < rest.len() ==> pn_stamp_valid(#[trigger] rest[i], min_cost);
        let all = forall|i: int|
            0 <= i < entries.len() ==> pn_stamp_valid(#[trigger] entries[i], min_cost);
        if all {
            assert forall|i: int| 0 <= i < rest.len() implies pn_stamp_valid(
                #[trigger] rest[i],
                min_cost,
            ) by {
                assert(pn_stamp_valid(entries[i], min_cost));
            }
        }
        if all_rest && pn_stamp_valid(entries.last(), min_cost) {
            assert forall|i: int| 0 <= i < entries.len() implies pn_stamp_valid(
                #[trigger] entries[i],
                min_cost,
            ) by {
                if i < n {
                    assert(pn_stamp_valid(rest[i], min_cost));
                }
            }
            assert(well_stamped(entries, min_cost) =~= entries);
        }
    }
}

/// What is asked of stamps is what they cost less what may be missing, and never less
/// than nothing.
pub proof fn law_flexibility_lowers_the_cost(cost: u8, flexibility: u8)
    ensures
        cost >= flexibility ==> least_cost(cost, flexibility) == cost - flexibility,
        cost < flexibility ==> least_cost(cost, flexibility) == 0,
{
}

/// A kilobyte is a thousand bytes.
pub proof fn law_kilobytes_are_decimal(kilobytes: usize)
    ensures
        kilobytes * 1000 <= usize::MAX ==> bytes_in(kilobytes) == kilobytes * 1000,
        kilobytes * 1000 > usize::MAX ==> bytes_in(kilobytes) == usize::MAX,
{
}

/// A message that comes in is addressed to the daemon: what names it already stays as it
/// is, and anything else has its own hash put before it.
pub proof fn law_inbound_is_addressed(data: Seq<u8>, own: DestinationHash)
    ensures
        addressed(data, own).len() >= 16,
        addressed(data, own).take(16) == own@,
        addressed(own@ + data, own) == own@ + data,
        data.len() < 16 || data.take(16) != own@ ==> addressed(data, own).skip(16) == data,
{
    assert((own@ + data).take(16) =~= own@);
    assert((own@ + data).skip(16) =~= data);
    if data.len() >= 16 && data.take(16) == own@ {
        assert(addressed(data, own) == data);
    }
}

/// What becomes of a message that comes in. One from a source that is shut out goes
/// first, then one whose signature is known to be bad; a signature that could not be
/// checked is no reason. Stamps are asked for only where they are enforced and cost
/// anything, and then a message without a good one is dropped.
pub proof fn law_inbound_verdicts(facts: InboundFacts, policy: StampPolicy)
    ensures
        ({
            let verdict = verdict_on(facts, policy);
            let asked = policy.enforce_stamps && (policy.stamp_cost matches Some(cost) && cost > 0);
            let signed = facts.signature matches Some(good) ==> good;
            let heard = !facts.source_blackholed && signed;
            &&& verdict is Blackholed <==> facts.source_blackholed
            &&& verdict is BadSignature <==> !facts.source_blackholed && !signed
            &&& verdict is NoStamp <==> heard && asked && !facts.has_stamp
            &&& verdict is NoId <==> heard && asked && facts.has_stamp && !facts.has_id
            &&& verdict is BadStamp <==> heard && asked && facts.has_stamp && facts.has_id
                && !facts.stamp_good
            &&& verdict is Deliver <==> heard && (!asked || (facts.has_stamp && facts.has_id
                && facts.stamp_good))
            &&& policy.required() is Some <==> asked
            &&& asked ==> policy.required() == policy.stamp_cost
        }),
{
}

/// Everything that is taken in from a transfer is one of its messages, with its stamp
/// behind it, and is counted by its size without the stamp. No message is taken in
/// twice.
pub proof fn law_intake_takes_what_was_sent(
    before: NodeView,
    entries: Seq<ValidatedPnEntry>,
    now: u64,
    after: NodeView,
    plans: Seq<(WritePlanView, u64)>,
    k: int,
)
    requires
        is_intake(before, entries, now, after, plans),
        0 <= k < plans.len(),
    ensures
        plans.len() <= entries.len(),
        exists|i: int|
            0 <= i < entries.len() && plans[k].0.data == (
            #[trigger] entries[i]).lxmf_data@ + entries[i].stamp_data@ && plans[k].1
                == entries[i].lxmf_data@.len() && plans[k].0.entry.stamped
                && plans[k].0.entry.stored_at == now && plans[k].0.entry.stamp_value
                == stored_value(entries[i].stamp_value as nat) && entries[i].lxmf_data@.len() > 16
                && plans[k].0.entry.destination_hash@ == entries[i].lxmf_data@.take(16),
        after.store == before.store,
        after.pending_ids.contains(plans[k].0.entry.transient_id),
        !before.pending_ids.contains(plans[k].0.entry.transient_id),
    decreases entries.len(),
{
    let rest_entries = entries.drop_last();
    let (middle, rest) = choose|middle: NodeView, rest: Seq<(WritePlanView, u64)>| #[trigger]
        is_one_taken(middle, entries.last(), now, after, rest, plans) && is_intake(
            before,
            rest_entries,
            now,
            middle,
            rest,
        );
    lemma_intake_reserves(before, rest_entries, now, middle, rest);
    if k < rest.len() {
        law_intake_takes_what_was_sent(before, rest_entries, now, middle, rest, k);
        assert(plans[k] == rest[k]);
        let i = choose|i: int|
            0 <= i < rest_entries.len() && rest[k].0.data == (
            #[trigger] rest_entries[i]).lxmf_data@ + rest_entries[i].stamp_data@ && rest[k].1
                == rest_entries[i].lxmf_data@.len() && rest[k].0.entry.stamped
                && rest[k].0.entry.stored_at == now && rest[k].0.entry.stamp_value
                == stored_value(rest_entries[i].stamp_value as nat)
                && rest_entries[i].lxmf_data@.len() > 16 && rest[k].0.entry.destination_hash@
                == rest_entries[i].lxmf_data@.take(16);
        assert(entries[i] == rest_entries[i]);
    } else {
        assert(plans[k] == plans.last());
        assert(entries[entries.len() - 1] == entries.last());
    }
}

/// Taking messages in only adds reservations.
proof fn lemma_intake_reserves(
    before: NodeView,
    entries: Seq<ValidatedPnEntry>,
    now: u64,
    after: NodeView,
    plans: Seq<(WritePlanView, u64)>,
)
    requires
        is_intake(before, entries, now, after, plans),
    ensures
        plans.len() <= entries.len(),
        after.store == before.store,
        after.config == before.config,
        forall|id: PropagationTransientId| #[trigger]
            before.pending_ids.contains(id) ==> after.pending_ids.contains(id),
    decreases entries.len(),
{
    if entries.len() > 0 {
        let (middle, rest) = choose|middle: NodeView, rest: Seq<(WritePlanView, u64)>| #[trigger]
            is_one_taken(middle, entries.last(), now, after, rest, plans) && is_intake(
                before,
                entries.drop_last(),
                now,
                middle,
                rest,
            );
        lemma_intake_reserves(before, entries.drop_last(), now, middle, rest);
    }
}

/// A message whose file could not be written is not stored, and its place is free
/// again; one that needs no file, or whose file was written, is stored where it was
/// still wanted.
pub proof fn law_only_written_messages_are_stored(
    node: NodeView,
    plan: WritePlanView,
    written: bool,
)
    requires
        node.pending_ids.contains(plan.entry.transient_id),
    ensures
        plan.path is Some && !written ==> settled(node, plan, written).store == node.store,
        (plan.path is None || written) && node.commits(plan.entry) ==> settled(
            node,
            plan,
            written,
        ).store.entries == node.store.entries.push(plan.entry),
        !settled(node, plan, written).pending_ids.contains(plan.entry.transient_id),
{
}

/// Exactly what was stored is counted, each with the bytes that were planned for it.
pub proof fn law_stored_is_counted(
    node: NodeView,
    plan: WritePlanView,
    bytes: u64,
    written: bool,
)
    ensures
        ({
            let (after, counted) = all_settled(node, seq![(plan, bytes)], seq![written]);
            &&& after == settled(node, plan, written)
            &&& (plan.path is None || written) && node.commits(plan.entry) ==> counted == seq![
                (plan.entry.transient_id, bytes),
            ]
            &&& !((plan.path is None || written) && node.commits(plan.entry)) ==> counted.len()
                == 0
        }),
{
    let plans = seq![(plan, bytes)];
    let outcomes = seq![written];
    assert(all_settled(node, plans.drop_last(), outcomes.drop_last()) == (
        node,
        Seq::<(PropagationTransientId, u64)>::empty(),
    ));
    assert(plans.last() == (plan, bytes) && outcomes.last() == written);
    let (after, counted) = all_settled(node, plans, outcomes);
    if (plan.path is None || written) && node.commits(plan.entry) {
        assert(counted =~= seq![(plan.entry.transient_id, bytes)]);
    }
}

/// Messages that were stored are counted where they came from: for a peer by name, for
/// any other node together, and for clients by number. Nothing is counted twice.
pub proof fn law_stored_messages_are_counted_by_origin(
    accounts: AccountsView,
    peer_hash: DestinationHash,
    other: DestinationHash,
    committed: Seq<(PropagationTransientId, u64)>,
)
    requires
        committed.len() > 0,
        other != peer_hash,
    ensures
        ({
            let after = accounts.committed(PropagationStoreWriteOrigin::Peer(peer_hash), committed);
            let known = accounts.peers.contains_key(peer_hash);
            &&& known && accounts.peers[peer_hash].incoming + committed.len() <= u64::MAX
                ==> after.peers[peer_hash].incoming == accounts.peers[peer_hash].incoming
                + committed.len()
            &&& known && accounts.peers[peer_hash].rx_bytes + counted_bytes(committed) <= u64::MAX
                ==> after.peers[peer_hash].rx_bytes == accounts.peers[peer_hash].rx_bytes
                + counted_bytes(committed)
            &&& known ==> after.unpeered_incoming == accounts.unpeered_incoming
            &&& !known ==> after.peers == accounts.peers
            &&& !known && accounts.unpeered_incoming + committed.len() <= u64::MAX
                ==> after.unpeered_incoming == accounts.unpeered_incoming + committed.len()
            &&& !known && accounts.unpeered_rx_bytes + counted_bytes(committed) <= u64::MAX
                ==> after.unpeered_rx_bytes == accounts.unpeered_rx_bytes + counted_bytes(committed)
            &&& after.peers[other] == accounts.peers[other]
            &&& after.client_received == accounts.client_received
        }),
        ({
            let after = accounts.committed(PropagationStoreWriteOrigin::Client, committed);
            &&& after.peers == accounts.peers
            &&& accounts.client_received + committed.len() <= u64::MAX ==> after.client_received
                == accounts.client_received + committed.len()
            &&& after.unpeered_incoming == accounts.unpeered_incoming
        }),
        accounts.committed(PropagationStoreWriteOrigin::LocalDelivery, committed) == accounts,
{
}

/// The bytes of stored messages are the sum of what each is counted with.
pub proof fn law_counted_bytes_add_up(
    committed: Seq<(PropagationTransientId, u64)>,
    more: (PropagationTransientId, u64),
)
    ensures
        counted_bytes(committed.push(more)) == counted_bytes(committed) + more.1,
        counted_bytes(Seq::empty()) == 0,
{
    assert(committed.push(more).drop_last() =~= committed);
}

/// A key that was found is kept for its peer where it is worth what peering costs by now.
/// Where none was found for that cost the sync is put off twelve minutes, and the peer
/// waits no more; a search for a cost that no longer holds is passed over. Either way the
/// search is over.
pub proof fn law_found_keys_are_kept(
    accounts: AccountsView,
    scheduler: SchedulerView,
    result: PeeringKeyWorkerResult,
    now: u64,
)
    requires
        now + 720 <= u64::MAX,
    ensures
        ({
            let known = accounts.peers.contains_key(result.peer_hash);
            let peer = accounts.peers[result.peer_hash];
            let paid = result.peering_key matches Some((_, value)) && value >= peer.peering_cost;
            let outcome = accounts.key_outcome(result);
            let after = accounts.key_applied(result, now);
            let turns = scheduler_after_key(scheduler, result.peer_hash, outcome);
            &&& outcome is Applied <==> known && paid
            &&& outcome is Postponed <==> known && !paid && peer.peering_cost == result.peering_cost
            &&& outcome is Applied ==> after.peers[result.peer_hash] == (PeerView {
                peering_key: key_view(result.peering_key),
                ..peer
            })
            &&& outcome is Postponed ==> after.peers[result.peer_hash] == (PeerView {
                next_sync_attempt: (now + 720) as u64,
                ..peer
            })
            &&& outcome is Ignored ==> after == accounts
            &&& !turns.jobs.contains(result.peer_hash)
            &&& turns.pending.contains(result.peer_hash) <==> scheduler.pending.contains(
                result.peer_hash,
            ) && !(outcome is Postponed)
            &&& forall|other: DestinationHash|
                other != result.peer_hash ==> #[trigger] turns.pending.contains(other)
                    == scheduler.pending.contains(other) && turns.jobs.contains(other)
                    == scheduler.jobs.contains(other)
        }),
{
}

/// An operator's order to sync makes a known peer wait for a sync at once, as one that
/// answers; of an unknown peer it changes nothing.
pub proof fn law_ordered_sync_waits(
    accounts: AccountsView,
    scheduler: SchedulerView,
    peer_hash: DestinationHash,
)
    ensures
        ({
            let after = accounts.commanded(ControlCommand::Sync(peer_hash));
            let turns = scheduler_after_command(
                scheduler,
                accounts,
                ControlCommand::Sync(peer_hash),
            );
            let known = accounts.peers.contains_key(peer_hash);
            &&& known ==> after.peers[peer_hash] == (PeerView {
                next_sync_attempt: 0,
                alive: true,
                ..accounts.peers[peer_hash]
            }) && turns.pending.contains(peer_hash)
            &&& !known ==> after == accounts && turns == scheduler
        }),
{
}

/// Who may give orders is heard: a request to sync or to unpeer names a peer by its
/// sixteen bytes, and gives that order for a known peer; any other name is refused by
/// the reason.
pub proof fn law_orders_are_taken(
    snapshot: ControlSnapshot,
    remote: DestinationHash,
    peer: DestinationHash,
    data: Seq<u8>,
)
    requires
        snapshot.allowed_control@.contains(remote),
        path_hash(SYNC_REQUEST_PATH) != path_hash(STATS_GET_PATH),
        path_hash(UNPEER_REQUEST_PATH) != path_hash(STATS_GET_PATH),
        path_hash(UNPEER_REQUEST_PATH) != path_hash(SYNC_REQUEST_PATH),
    ensures
        snapshot.peer_hashes@.contains(peer) ==> control_answer(
            snapshot,
            Some(remote),
            path_hash(SYNC_REQUEST_PATH),
            peer@,
        ) == ControlAnswerView::Command(ControlCommand::Sync(peer)) && control_answer(
            snapshot,
            Some(remote),
            path_hash(UNPEER_REQUEST_PATH),
            peer@,
        ) == ControlAnswerView::Command(ControlCommand::Unpeer(peer)),
        !snapshot.peer_hashes@.contains(peer) ==> control_answer(
            snapshot,
            Some(remote),
            path_hash(SYNC_REQUEST_PATH),
            peer@,
        ) == ControlAnswerView::Reply(msgpack_encoded(WireView::Unsigned(0xfd))),
        data.len() != 16 ==> control_answer(
            snapshot,
            Some(remote),
            path_hash(UNPEER_REQUEST_PATH),
            data,
        ) == ControlAnswerView::Reply(msgpack_encoded(WireView::Unsigned(0xf4))),
        snapshot.stats_response matches Some(stats) ==> control_answer(
            snapshot,
            Some(remote),
            path_hash(STATS_GET_PATH),
            data,
        ) == ControlAnswerView::Reply(stats@),
        snapshot.stats_response is None ==> control_answer(
            snapshot,
            Some(remote),
            path_hash(STATS_GET_PATH),
            data,
        ) == ControlAnswerView::Reply(msgpack_encoded(WireView::Nil)),
{
    lemma_id_from_view(peer, peer_from(peer@));
}

/// Anyone may download where no one has to be named; otherwise only who is named may.
pub proof fn law_downloads_are_for_the_named(
    snapshot: ControlSnapshot,
    remote: Option<DestinationHash>,
)
    ensures
        !snapshot.auth_required ==> snapshot.may_download(remote),
        snapshot.auth_required ==> (snapshot.may_download(remote) <==> (remote matches Some(hash)
            && snapshot.allowed_clients@.contains(hash))),
{
}

/// Where too many identities are known, as many are forgotten as are too many: those of
/// which no ratchet was received first, then those whose ratchet is oldest.
pub proof fn law_oldest_are_forgotten_first(
    known: Map<DestinationHash, Seq<u8>>,
    received_at: Map<DestinationHash, u64>,
    dropped: Seq<DestinationHash>,
    gone: DestinationHash,
    kept: DestinationHash,
)
    requires
        is_pruning(known, received_at, dropped),
        dropped.contains(gone),
        known.contains_key(kept),
        !dropped.contains(kept),
    ensures
        known.contains_key(gone),
        received_at.contains_key(gone) ==> received_at.contains_key(kept) && received_at[gone]
            <= received_at[kept],
        known.dom().len() > 10_000,
        dropped.len() == known.dom().len() - 10_000,
{
    let k = choose|k: int| 0 <= k < dropped.len() && dropped[k] == gone;
    assert(known.contains_key(dropped[k]));
}

/// What arrives over a link is reported with where it arrives and how far it is; what the
/// daemon itself sends is not.
pub proof fn law_inbound_resources_are_reported(
    link_id: DestinationHash,
    resource_id: [u8; 32],
    direction: LinkResourceDirection,
    size: usize,
    of: usize,
    conclusion: LinkResourceConclusion,
)
    ensures
        ({
            let key = InboundResourceKey { link_id, resource_id };
            let started = inbound_event_of(
                LinkResourceEvent::Started {
                    link_id,
                    resource_id,
                    direction,
                    data_size: size,
                    total_segments: of,
                },
            );
            let moved = inbound_event_of(
                LinkResourceEvent::Progress {
                    link_id,
                    resource_id,
                    direction,
                    transferred: size,
                    total: of,
                },
            );
            let ended = inbound_event_of(
                LinkResourceEvent::Concluded { link_id, resource_id, direction, conclusion },
            );
            &&& direction is Inbound ==> started == Some(
                InboundResourceEvent::Started { key, data_size: size, total_segments: of },
            )
            &&& direction is Inbound ==> moved == Some(
                InboundResourceEvent::Progress { key, transferred: size, total: of },
            )
            &&& direction is Inbound ==> (ended matches Some(InboundResourceEvent::Concluded {
                key: of_key,
                conclusion: how,
            }) && of_key == key && (how is Complete <==> conclusion is Complete) && (how is Cancelled
                <==> conclusion is Cancelled) && (how is Rejected <==> conclusion is Rejected) && (
            how is Failed <==> conclusion is Failed))
            &&& !(direction is Inbound) ==> started is None && moved is None && ended is None
        }),
{
}

/// The routes that the transport tells are taken over as long as they have not expired,
/// each at least one hop long; of two to one destination the later counts.
pub proof fn law_routes_are_taken_over(entries: Seq<RouteEntry>, now: u64, i: int)
    requires
        0 <= i < entries.len(),
        entries[i].expires > now,
        forall|j: int|
            i < j < entries.len() && (#[trigger] entries[j]).hash == entries[i].hash
                ==> entries[j].expires <= now,
    ensures
        ({
            let routes = routes_from(entries, now);
            let hash = entries[i].hash;
            &&& routes.contains_key(hash)
            &&& entries[i].hops >= 1 ==> routes[hash] == entries[i].hops
            &&& entries[i].hops == 0 ==> routes[hash] == 1
        }),
    decreases entries.len(),
{
    if i < entries.len() - 1 {
        let rest = entries.drop_last();
        let last = entries[entries.len() - 1];
        assert forall|j: int| 0 <= j < rest.len() implies #[trigger] rest[j] == entries[j] by {}
        assert forall|j: int|
            i < j < rest.len() && (#[trigger] rest[j]).hash == rest[i].hash implies rest[j].expires
            <= now by {
            assert(rest[j] == entries[j]);
        }
        law_routes_are_taken_over(rest, now, i);
        assert(entries.last() == last);
    }
}

/// The store is looked after and identities are saved every five minutes, and ratchets
/// every fifteen.
pub proof fn law_upkeep_has_its_times(clock: DaemonClock, now: u64)
    ensures
        clock.due(now).cull <==> now > clock.last_cull + 300_000,
        clock.due(now).save <==> now > clock.last_crypto_save + 300_000,
        clock.due(now).clean <==> now > clock.last_ratchet_clean + 900_000,
{
}

/// A message is sent once its destination was heard and its key is known, and after
/// thirty looks in any case. What was heard once stays heard.
pub proof fn law_sending_waits_for_an_announce(wait: AnnounceWait, heard: bool, have_key: bool)
    ensures
        wait.polls < 30 ==> (announce_step(wait, heard, have_key) is Ready <==> have_key && (
        wait.heard || heard)),
        wait.polls < 30 ==> !(announce_step(wait, heard, have_key) is SendAnyway),
        wait.polls >= 30 ==> announce_step(wait, heard, have_key) == (AnnounceStep::SendAnyway {
            have_key,
        }),
        wait.polls < 30 ==> announce_looked(wait, heard).polls == wait.polls + 1,
        wait.heard || (heard && wait.polls < 30) ==> announce_looked(wait, heard).heard,
{
}

/// A message that is sent has left the daemon and its links: while anything waits to go
/// out, waits for a stamp or for a proof, or is under way over a link, it is not sent;
/// and where it failed, that is said.
pub proof fn law_sent_means_nothing_waits(
    state: SendState,
    work: OutboundWork,
    timeout: u32,
    left: u32,
)
    ensures
        ({
            let next = send_looked(SendState::Draining { left }, false, work, timeout);
            let idle = work.pending_outbound == 0 && work.pending_deferred_stamps == 0
                && work.in_flight == 0;
            &&& next == SendState::Ended(SendEnd::Sent) <==> idle && work.link_pending == 0
                && !work.failed
            &&& next == SendState::Ended(SendEnd::Failed) <==> idle && work.link_pending == 0
                && work.failed
            &&& idle && work.link_pending > 0 && timeout > 0 ==> next == (SendState::OverLink {
                left: timeout,
            })
            &&& !idle && left > 1 ==> next == (SendState::Draining { left: (left - 1) as u32 })
            &&& !idle && left <= 1 ==> next == SendState::Ended(SendEnd::NotConfirmed)
        }),
        ({
            let next = send_looked(SendState::OverLink { left }, false, work, timeout);
            &&& next == SendState::Ended(SendEnd::Sent) <==> work.link_pending == 0 && !work.failed
            &&& next == SendState::Ended(SendEnd::Failed) <==> work.link_pending == 0 && work.failed
            &&& work.link_pending > 0 && left > 1 ==> next == (SendState::OverLink {
                left: (left - 1) as u32,
            })
            &&& work.link_pending > 0 && left <= 1 ==> next == SendState::Ended(
                SendEnd::LinkNotDone,
            )
        }),
        !(state is Ended) ==> send_looked(state, true, work, timeout) == SendState::Ended(
            SendEnd::Interrupted,
        ),
{
}

/// A destination is named by the digits of its hash, and by nothing else.
pub proof fn law_destinations_are_named_by_digits(hash: DestinationHash, text: Seq<char>)
    ensures
        named_destination(hex_chars(hash@)) == Some(hash@),
        text.len() != 32 ==> named_destination(text) is None,
{
    lemma_hex_round_trip(hash@);
}

/// Asking for more is told more: being verbose counts before being quiet.
pub proof fn law_verbosity(verbose: u8, quiet: u8, service: bool)
    ensures
        verbose >= 3 ==> level_of(verbose, quiet, service) is Trace,
        verbose == 2 ==> level_of(verbose, quiet, service) is Debug,
        verbose == 1 ==> level_of(verbose, quiet, service) is Info,
        verbose == 0 && quiet == 0 ==> level_of(verbose, quiet, service) == (if service {
            LogLevel::Warn
        } else {
            LogLevel::Info
        }),
        verbose == 0 && quiet == 1 ==> level_of(verbose, quiet, service) is Warn,
        verbose == 0 && quiet >= 2 ==> level_of(verbose, quiet, service) is Error,
{
}

/// What the link layer says of a delivery over a link is passed on for what it is.
pub proof fn law_send_reports_are_passed_on(
    link_id: DestinationHash,
    hash: [u8; 32],
    words: String,
)
    ensures
        receipt_of(LinkPayloadSendReceipt::Packet { link_id, packet_hash: hash }) == (
        BackchannelSendReceipt::Packet { link_id, packet_hash: hash }),
        receipt_of(LinkPayloadSendReceipt::Resource { link_id, resource_hash: hash }) == (
        BackchannelSendReceipt::Resource { link_id, resource_hash: hash }),
        send_error_of(LinkSendError::LinkNotFound) is LinkNotFound,
        send_error_of(LinkSendError::LinkNotActive) is LinkNotActive,
        send_error_of(LinkSendError::NoSessionKeys) is NoSessionKeys,
        send_error_of(LinkSendError::TransportUnavailable) is TransportUnavailable,
        send_error_of(LinkSendError::ResourceStartFailed) is ResourceStartFailed,
        send_error_of(LinkSendError::IdentityUnavailable(words)) == BackchannelSendError::Other(
            words,
        ),
{
}

/// A query goes into the mailbox where there is room, behind what is there, and is lost
/// otherwise.
pub proof fn law_queries_need_room(mailbox: MailboxView<PathQuery>, query: PathQuery)
    ensures
        !mailbox.closed && mailbox.free > 0 ==> tried(mailbox, query).sent == mailbox.sent.push(
            query,
        ) && tried(mailbox, query).free == mailbox.free - 1,
        mailbox.closed || mailbox.free == 0 ==> tried(mailbox, query) == mailbox,
{
}

/// A peer is gone where it was one and is none any more. A sync with it is upset where
/// something about it changed that could change what it is offered.
pub proof fn law_changes_of_peers(change: PeerChange)
    ensures
        change.is_removed() <==> change.before is Some && change.after is None,
        change.upsets_sync() <==> change.changed && (change.before matches Some(before)
            && change.after != Some(before)),
{
}

/// A ratchet is news where none, or another one, was known of its destination; then it is
/// to be written, and the time it came is noted.
pub proof fn law_new_ratchets_are_news(
    ratchets: Map<DestinationHash, Seq<u8>>,
    received_at: Map<DestinationHash, u64>,
    announce: HeardAnnounce,
    ratchet: [u8; 32],
    now: u64,
)
    requires
        announce.ratchet == Some(ratchet),
    ensures
        ({
            let hash = announce.destination_hash;
            let fresh = fresh_ratchets(ratchets, seq![announce]);
            let same = ratchets.contains_key(hash) && ratchets[hash] == ratchet@;
            &&& !same ==> fresh == seq![(hash, ratchet)]
            &&& same ==> fresh.len() == 0
            &&& received_after(received_at, seq![(hash, ratchet)], now) == received_at.insert(
                hash,
                now,
            )
        }),
{
    let heard = seq![announce];
    assert(heard.drop_last() =~= Seq::empty());
    assert(fresh_ratchets(ratchets, heard.drop_last()) =~= Seq::empty());
    assert(ratchets_after(ratchets, heard.drop_last()) == ratchets);
    let hash = announce.destination_hash;
    if !(ratchets.contains_key(hash) && ratchets[hash] == ratchet@) {
        assert(fresh_ratchets(ratchets, heard) =~= seq![(hash, ratchet)]);
    }
    let one = seq![(hash, ratchet)];
    assert(one.drop_last() =~= Seq::empty());
    assert(received_after(received_at, one.drop_last(), now) == received_at);
}

/// A peer that the operator names is static from then on. What was known of it stays, and
/// of one that was not known nothing but its address is.
pub proof fn law_naming_keeps_what_is_known(
    peers: Map<DestinationHash, PeerView>,
    hash: DestinationHash,
    other: DestinationHash,
)
    requires
        other != hash,
    ensures
        ({
            let after = with_static(peers, hash);
            &&& after.contains_key(hash) && after[hash].is_static
            &&& peers.contains_key(hash) ==> after[hash] == (PeerView {
                is_static: true,
                ..peers[hash]
            })
            &&& !peers.contains_key(hash) ==> after[hash].destination_hash == hash
                && !after[hash].alive && after[hash].stamp_cost is None
                && after[hash].peering_key is None
            &&& after.contains_key(other) == peers.contains_key(other)
            &&& after[other] == peers[other]
        }),
{
}

/// What a sync task reports reaches the accounts of its peer: the messages that it settled
/// are held by the peer from then on, and the others of the accounts stay as they are.
pub proof fn law_settled_messages_reach_the_peer(
    accounts: AccountsView,
    update: &(DestinationHash, Vec<PropagationTransientId>),
    other: DestinationHash,
    id: PropagationTransientId,
)
    requires
        other != update.0,
    ensures
        ({
            let after = accounts.driven(Some(update), None);
            &&& accounts.peers.contains_key(update.0) ==> (after.peers[update.0].handled.contains(
                id,
            ) <==> accounts.peers[update.0].handled.contains(id) || update.1@.contains(id))
            &&& !accounts.peers.contains_key(update.0) ==> after == accounts
            &&& after.peers[other] == accounts.peers[other]
        }),
{
}

/// A path is named by the first sixteen bytes of its hash.
pub proof fn law_paths_are_hashed(path: &str)
    ensures
        path_hash(path) == sha256_digest(path.spec_bytes()).take(16),
{
}

/// A message is kept in a file that is named by the digits of its hash.
pub proof fn law_message_files_are_named_by_hash(hash: [u8; 32], now: u64)
    ensures
        message_file(Some(hash), now) == hex_chars(hash@) + ".lxm"@,
{
}

/// What is to be given up of what arrives is given up where it arrives.
pub proof fn law_cancellations_name_their_resource(key: InboundResourceKey)
    ensures
        cancellation_of(key).link_id == key.link_id,
        cancellation_of(key).resource_id == key.resource_id,
        cancellation_of(key).direction is Inbound,
{
}

/// A path is asked for exactly where one is needed.
pub proof fn law_paths_are_asked_for(
    paths: MailboxView<PathQuery>,
    dest_hash: DestinationHash,
)
    requires
        !paths.closed,
        paths.free > 0,
    ensures
        asked_for_path(paths, Some(dest_hash)).sent == paths.sent.push(
            PathQuery::RequestPath(dest_hash),
        ),
        asked_for_path(paths, None) == paths,
{
}

/// A packet is found again by its message's identifier, and by its hash where it has none.
pub proof fn law_packets_are_tracked(message: OutboundMessage)
    ensures
        message.message_id is Some ==> message.tracked_by() == message.message_id,
        message.message_id is None ==> message.tracked_by() == message.hash,
{
}

/// The signature of a message is checked with the last thirty-two bytes of its source's
/// public key, where that is known.
pub proof fn law_signatures_are_checked_with_known_keys(
    known: Map<DestinationHash, Seq<u8>>,
    source: DestinationHash,
    key: [u8; 32],
)
    ensures
        known.contains_key(source) && known[source].subrange(32, 64) == key@ ==> source_key(
            known,
            source,
        ) == Some(key),
        !known.contains_key(source) ==> source_key(known, source) is None,
{
    if known.contains_key(source) && known[source].subrange(32, 64) == key@ {
        lemma_id_from_view(signing_key(known[source]), key);
    }
}

/// The messages of a transfer are taken apart one by one, in order, and nothing of them is
/// lost.
pub proof fn law_split_messages_are_whole(
    validated: Seq<ValidatedPnEntry>,
    entries: Seq<Seq<u8>>,
    i: int,
)
    requires
        are_split(validated, entries),
        0 <= i < entries.len(),
    ensures
        validated.len() == entries.len(),
        validated[i].lxmf_data@ + validated[i].stamp_data@ == entries[i],
{
    assert(validated[i].is_split_of(entries[i]));
    law_split_keeps_everything(validated[i], entries[i]);
}

/// The destinations that the operator names by digits are those, in order.
pub proof fn law_named_hashes_are_read(hashes: Seq<DestinationHash>, texts: Seq<Seq<char>>)
    requires
        texts.len() == hashes.len(),
        forall|i: int|
            0 <= i < hashes.len() ==> #[trigger] texts[i] == hex_chars(hashes[i]@),
    ensures
        hashes_named(texts) == hashes,
    decreases hashes.len(),
{
    if hashes.len() > 0 {
        let n = hashes.len() - 1;
        assert forall|i: int| 0 <= i < n implies #[trigger] texts.drop_last()[i] == hex_chars(
            hashes.drop_last()[i]@,
        ) by {
            assert(texts[i] == hex_chars(hashes[i]@));
        }
        law_named_hashes_are_read(hashes.drop_last(), texts.drop_last());
        law_destinations_are_named_by_digits(hashes[n], texts[n]);
        assert(texts.last() == texts[n]);
        assert(named_destination(texts.last()) == Some(hashes[n]@));
        lemma_id_from_view(hashes[n], destination_with(hashes[n]@));
        assert(named_destinations(texts) =~= named_destinations(texts.drop_last()).push(
            hashes[n]@,
        ));
        assert(hashes_named(texts) =~= hashes_named(texts.drop_last()).push(hashes[n]));
        assert(hashes_named(texts) =~= hashes);
    } else {
        assert(hashes_named(texts) =~= hashes);
    }
}

/// An offer that cannot be read is refused for its data, and one with a bad key for its
/// key.
pub proof fn law_offer_errors_are_named()
    ensures
        PnOfferEvaluationError::InvalidData.wire_response_spec() is ErrorInvalidData,
        PnOfferEvaluationError::InvalidKey.wire_response_spec() is ErrorInvalidKey,
{
}

/// A transfer is read where it is no larger than agreed and is a pair of a time and of
/// messages; anything else is not.
pub proof fn law_odd_transfers_are_not_read(
    data: Seq<u8>,
    max: usize,
    items: Seq<WireView>,
    time_bits: u64,
    messages: Seq<Seq<u8>>,
)
    ensures
        data.len() <= max ==> wrapper_entries(data, max) == (match msgpack_decoded(data) {
            Some(wire) => wrapped_entries(wire),
            None => None,
        }),
        items.len() != 2 ==> wrapped_entries(WireView::Array(items)) is None,
        items.len() == 2 && !(items[0] is Unsigned || items[0] is Negative || items[0] is Single
            || items[0] is Double) ==> wrapped_entries(WireView::Array(items)) is None,
        wrapped_entries(binaries(messages)) is None,
        wrapped_entries(WireView::Nil) is None,
        wrapped_entries(
            WireView::Array(seq![WireView::Double(time_bits), WireView::Array(seq![WireView::Nil])]),
        ) is None,
{
    let inner = seq![WireView::Nil];
    assert(slice_of(inner[0]) is None);
    assert(!all_slices(inner));
}

/// A proof that names no message by sixty-four digits is a proof of nothing.
pub proof fn law_odd_proofs_prove_nothing(text: Seq<char>)
    ensures
        proven_id(text) is Some <==> is_hex(text) && text.len() == 64,
{
}

/// As many identities are forgotten as are more than ten thousand, and none where no more
/// are known.
pub proof fn law_as_many_are_forgotten_as_too_many(
    known: Map<DestinationHash, Seq<u8>>,
    received_at: Map<DestinationHash, u64>,
    dropped: Seq<DestinationHash>,
)
    requires
        is_pruning(known, received_at, dropped),
    ensures
        known.dom().len() > 10_000 ==> dropped.len() == known.dom().len() - 10_000,
        known.dom().len() <= 10_000 ==> dropped.len() == 0,
        dropped.no_duplicates(),
{
}

/// A wait that is over changes no more.
pub proof fn law_ended_wait_stays(wait: AnnounceWait, heard: bool)
    requires
        wait.polls >= 30,
    ensures
        announce_looked(wait, heard) == wait,
{
}

/// Sending takes as many looks as it is given; with none it is over before it begins, and
/// nothing is confirmed.
pub proof fn law_sending_begins_with_its_time(timeout: u32)
    ensures
        timeout > 0 ==> send_begun(timeout) == (SendState::Draining { left: timeout }),
        timeout == 0 ==> send_begun(timeout) == SendState::Ended(SendEnd::NotConfirmed),
{
}

/// A message of a transfer is taken in exactly when it has content behind its destination,
/// is no larger than messages may be with its stamp, is stamped well enough, and has a place;
/// and then one more is planned.
pub proof fn law_fit_messages_are_taken_in(
    node: NodeView,
    entry: ValidatedPnEntry,
    id: PropagationTransientId,
    now: u64,
    after: NodeView,
    rest: Seq<(WritePlanView, u64)>,
    plans: Seq<(WritePlanView, u64)>,
)
    requires
        id@ == sha256_digest(entry.lxmf_data@),
        entry.stamp_data@.len() == 32,
    ensures
        is_taken(node, entry) <==> entry.lxmf_data@.len() > 16 && entry.lxmf_data@.len() + 32
            <= node.config.max_message_size && entry.stamp_value >= node.config.min_stamp_cost
            && node.admits(id),
        is_one_taken(node, entry, now, after, rest, plans) ==> plans.len() == rest.len() + (
        if is_taken(node, entry) {
            1int
        } else {
            0
        }),
        is_one_taken(node, entry, now, after, rest, plans) && is_taken(node, entry)
            ==> after.pending_ids.contains(id) && plans.last().0.entry.transient_id == id,
        is_one_taken(node, entry, now, after, rest, plans) && !is_taken(node, entry) ==> after
            == node,
{
    if is_taken(node, entry) {
        let other = choose|other: PropagationTransientId|
            other@ == sha256_digest(entry.lxmf_data@) && #[trigger] node.admits(other);
        lemma_id_from_view(other, id);
        if is_one_taken(node, entry, now, after, rest, plans) {
            lemma_id_from_view(plans.last().0.entry.transient_id, id);
        }
    }
}

} // verus!
