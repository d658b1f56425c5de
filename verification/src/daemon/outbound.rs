//! The steps of a delivery: what follows from what a link, a path or the
//! transport reports.

use vstd::prelude::*;
use crate::daemon::delivery::{
    link_failure_retryable, mark_delivery_attempt, queue_path_request, requeue_after_path_request,
    route_hops_for, OutboundMessage, PathMailbox, PathQuery, MAX_DELIVERY_ATTEMPTS, MTU,
};
#[allow(unused_imports)]
use crate::daemon::delivery::{hops_to, is_retryable, tried};
use crate::ids::{contains_id, id_from_bytes, DestinationHash};
#[allow(unused_imports)]
use crate::ids::lemma_id_from_view;
#[allow(unused_imports)]
use crate::node::get::id_of;
use crate::sync_task::events::KnownIdentities;
use crate::tables::{IdMap, PeerMap};
use crate::text::hex_decode;
#[allow(unused_imports)]
use crate::text::{hex_bytes, is_hex};
#[allow(unused_imports)]
use crate::transport::MailboxView;

verus! {

/// What is asked of the router that holds the messages.
#[derive(Debug, Clone, Copy)]
pub enum RouterOrder {
    /// Nothing.
    Nothing,
    MarkDelivered([u8; 32]),
    MarkRejected([u8; 32]),
    MarkFailed([u8; 32]),
    /// Try the message again once a path may have been found.
    DeferForPath([u8; 32]),
    /// Take the message back.
    Requeue(OutboundMessage),
}

/// What became of a delivery over a link.
#[derive(Debug)]
pub enum DeliveryResult {
    Complete { msg_hash: Option<[u8; 32]> },
    Rejected { msg_hash: Option<[u8; 32]>, reason: String },
    Failed {
        msg_hash: Option<[u8; 32]>,
        dest_hash: DestinationHash,
        message: OutboundMessage,
        reason: String,
    },
}

/// What follows from a delivery over a link: an order to the router, and why
/// the delivery failed for good.
#[derive(Debug)]
pub struct DeliveryEffect {
    pub order: RouterOrder,
    pub failure: Option<String>,
}

/// What a [`DeliveryEffect`] says, with the mailbox of path queries after it.
#[verifier::ext_equal]
pub struct EffectView {
    pub order: RouterOrder,
    pub failure: Option<Seq<char>>,
    pub paths: MailboxView<PathQuery>,
}

/// A failed delivery is tried again: the link can be mended and attempts are
/// left.
pub open spec fn is_tried_again(message: OutboundMessage, reason: Seq<char>) -> bool {
    is_retryable(reason) && message.delivery_attempts <= MAX_DELIVERY_ATTEMPTS
}

/// What follows from a delivery over a link.
pub open spec fn effect_of(
    result: DeliveryResult,
    pending: Seq<[u8; 32]>,
    paths: MailboxView<PathQuery>,
    now: u64,
) -> EffectView {
    match result {
        DeliveryResult::Complete { msg_hash } => EffectView {
            order: match msg_hash {
                Some(hash) => RouterOrder::MarkDelivered(hash),
                None => RouterOrder::Nothing,
            },
            failure: None,
            paths,
        },
        DeliveryResult::Rejected { msg_hash, reason } => EffectView {
            order: match msg_hash {
                Some(hash) => RouterOrder::MarkRejected(hash),
                None => RouterOrder::Nothing,
            },
            failure: Some(reason@),
            paths,
        },
        DeliveryResult::Failed { msg_hash, dest_hash, message, reason } => if is_tried_again(
            message,
            reason@,
        ) {
            EffectView {
                order: match msg_hash {
                    Some(hash) => if pending.contains(hash) {
                        RouterOrder::DeferForPath(hash)
                    } else {
                        RouterOrder::Requeue(message.waiting_for_path(now, false))
                    },
                    None => RouterOrder::Requeue(message.waiting_for_path(now, false)),
                },
                failure: None,
                paths: tried(paths, PathQuery::RequestPath(dest_hash)),
            }
        } else {
            EffectView {
                order: match msg_hash {
                    Some(hash) => if pending.contains(hash) {
                        RouterOrder::MarkFailed(hash)
                    } else {
                        RouterOrder::Nothing
                    },
                    None => RouterOrder::Nothing,
                },
                failure: Some(reason@),
                paths,
            }
        },
    }
}

/// What a failure says.
pub open spec fn failure_view(failure: Option<String>) -> Option<Seq<char>> {
    match failure {
        Some(reason) => Some(reason@),
        None => None,
    }
}

/// Takes the outcome of a delivery over a link. `pending` are the messages that
/// the router holds itself.
pub fn handle_link_delivery_result(
    paths: &mut PathMailbox,
    result: DeliveryResult,
    pending: &[[u8; 32]],
    now: u64,
) -> (effect: DeliveryEffect)
    ensures
        (EffectView {
            order: effect.order,
            failure: failure_view(effect.failure),
            paths: final(paths)@,
        }) == effect_of(result, pending@, old(paths)@, now),
{
    match result {
        DeliveryResult::Complete { msg_hash } => DeliveryEffect {
            order: match msg_hash {
                Some(hash) => RouterOrder::MarkDelivered(hash),
                None => RouterOrder::Nothing,
            },
            failure: None,
        },
        DeliveryResult::Rejected { msg_hash, reason } => DeliveryEffect {
            order: match msg_hash {
                Some(hash) => RouterOrder::MarkRejected(hash),
                None => RouterOrder::Nothing,
            },
            failure: Some(reason),
        },
        DeliveryResult::Failed { msg_hash, dest_hash, message, reason } => {
            let owned: bool = match &msg_hash {
                Some(hash) => contains_id(pending, hash),
                None => false,
            };
            let again: bool = link_failure_retryable(reason.as_str()) && message.delivery_attempts
                <= MAX_DELIVERY_ATTEMPTS;
            if !again {
                return DeliveryEffect {
                    order: match msg_hash {
                        Some(hash) => if owned {
                            RouterOrder::MarkFailed(hash)
                        } else {
                            RouterOrder::Nothing
                        },
                        None => RouterOrder::Nothing,
                    },
                    failure: Some(reason),
                };
            }
            DeliveryEffect {
                order: retry_later(paths, msg_hash, owned, message, dest_hash, now),
                failure: None,
            }
        },
    }
}

/// Asks for a path and has a message tried again: by the router where it holds
/// the message, or else by giving the message back to it.
fn retry_later(
    paths: &mut PathMailbox,
    msg_hash: Option<[u8; 32]>,
    owned: bool,
    message: OutboundMessage,
    dest_hash: DestinationHash,
    now: u64,
) -> (order: RouterOrder)
    ensures
        final(paths)@ == tried(old(paths)@, PathQuery::RequestPath(dest_hash)),
        order == retry_order(msg_hash, owned, message, now),
{
    let mut message = message;
    if owned {
        queue_path_request(paths, dest_hash, false);
        return match msg_hash {
            Some(hash) => RouterOrder::DeferForPath(hash),
            None => RouterOrder::Nothing,
        };
    }
    requeue_after_path_request(paths, &mut message, dest_hash, false, now);
    RouterOrder::Requeue(message)
}

/// The order by which a message is tried again.
pub open spec fn retry_order(
    msg_hash: Option<[u8; 32]>,
    owned: bool,
    message: OutboundMessage,
    now: u64,
) -> RouterOrder {
    if owned {
        match msg_hash {
            Some(hash) => RouterOrder::DeferForPath(hash),
            None => RouterOrder::Nothing,
        }
    } else {
        RouterOrder::Requeue(message.waiting_for_path(now, false))
    }
}

/// How a message is to be delivered directly.
#[derive(Debug, Clone, Copy, PartialEq, Eq, Structural)]
pub enum DirectDeliveryPlan {
    RequestPath { drop_existing: bool },
    DeferTerminalFailure,
    WaitForReusableLink,
    UseReusableLink,
    StartNewLink { hops: u8 },
    Fail,
}

/// What the router wants done with a message.
#[derive(Debug, Clone, Copy)]
pub enum OutboundAction {
    DeliverDirect { dest_hash: DestinationHash },
    /// As above, by a plan that the router made; it keeps the message.
    PlanDirect { dest_hash: DestinationHash, plan: DirectDeliveryPlan },
    DeliverOpportunistic { dest_hash: DestinationHash },
    DeliverPropagated { prop_hash: DestinationHash },
    Failed,
    Expired,
}

/// What is to be done first about a message.
#[derive(Debug, Clone, Copy)]
pub enum FirstStep {
    /// The router takes the message back.
    Order(RouterOrder),
    /// The message is to be packed for this propagation node.
    PackForPropagation { prop_hash: DestinationHash },
    /// The message is to be stamped, where a cost is given, and delivered over a
    /// link.
    Direct { dest_hash: DestinationHash, plan: Option<DirectDeliveryPlan>, stamp: Option<u8> },
    /// The message is to be stamped, where a cost is given, and encrypted for a
    /// packet of its own.
    Opportunistic { dest_hash: DestinationHash, stamp: Option<u8> },
    /// The router gave the message up after its last attempt.
    Exhausted,
    /// The router gave the message up for its age.
    Expired,
}

/// The stamp that a message still needs: what its destination asks for, where it
/// asks for anything and the message has none.
pub open spec fn stamp_needed(message: OutboundMessage, cost: Option<u8>) -> Option<u8> {
    match cost {
        Some(cost) => if !message.has_stamp && cost > 0 {
            Some(cost)
        } else {
            None
        },
        None => None,
    }
}

/// What is to be done first about a message, and the path that is asked for.
pub open spec fn first_step_of(
    action: OutboundAction,
    message: OutboundMessage,
    known: Map<DestinationHash, Seq<u8>>,
    stamp_cost: Option<u8>,
    now: u64,
) -> (FirstStep, Option<DestinationHash>) {
    match action {
        OutboundAction::DeliverPropagated { prop_hash } => if known.contains_key(prop_hash) {
            (FirstStep::PackForPropagation { prop_hash }, None)
        } else {
            (
                FirstStep::Order(RouterOrder::Requeue(message.waiting_for_path(now, true))),
                Some(prop_hash),
            )
        },
        OutboundAction::DeliverDirect { dest_hash } => (
            FirstStep::Direct {
                dest_hash,
                plan: None,
                stamp: stamp_needed(message, stamp_cost),
            },
            None,
        ),
        OutboundAction::PlanDirect { dest_hash, plan } => (
            FirstStep::Direct {
                dest_hash,
                plan: Some(plan),
                stamp: stamp_needed(message, stamp_cost),
            },
            None,
        ),
        OutboundAction::DeliverOpportunistic { dest_hash } => (
            FirstStep::Opportunistic { dest_hash, stamp: stamp_needed(message, stamp_cost) },
            None,
        ),
        OutboundAction::Failed => (FirstStep::Exhausted, None),
        OutboundAction::Expired => (FirstStep::Expired, None),
    }
}

/// The mailbox after a path was asked for, where one is.
pub open spec fn asked_for_path(
    paths: MailboxView<PathQuery>,
    dest_hash: Option<DestinationHash>,
) -> MailboxView<PathQuery> {
    match dest_hash {
        Some(dest_hash) => tried(paths, PathQuery::RequestPath(dest_hash)),
        None => paths,
    }
}

/// Takes what the router wants done with a message, and says what is to be done
/// first. `stamp_cost` is what the message's destination asks for.
pub fn begin_action(
    paths: &mut PathMailbox,
    action: &OutboundAction,
    message: &OutboundMessage,
    known: &KnownIdentities,
    stamp_cost: Option<u8>,
    now: u64,
) -> (step: FirstStep)
    ensures
        ({
            let (first, path) = first_step_of(*action, *message, known@, stamp_cost, now);
            step == first && final(paths)@ == asked_for_path(old(paths)@, path)
        }),
        match step {
            FirstStep::Direct { stamp, .. } => stamp == (if message.has_stamp || stamp_cost == Some(
                0u8,
            ) {
                None
            } else {
                stamp_cost
            }),
            FirstStep::Opportunistic { stamp, .. } => stamp == (if message.has_stamp || stamp_cost
                == Some(0u8) {
                None
            } else {
                stamp_cost
            }),
            _ => true,
        },
{
    let stamp: Option<u8> = match stamp_cost {
        Some(cost) => if !message.has_stamp && cost > 0 {
            Some(cost)
        } else {
            None
        },
        None => None,
    };
    match action {
        OutboundAction::DeliverPropagated { prop_hash } => {
            if known.contains_key(prop_hash) {
                return FirstStep::PackForPropagation { prop_hash: *prop_hash };
            }
            let mut message = *message;
            requeue_after_path_request(paths, &mut message, *prop_hash, true, now);
            FirstStep::Order(RouterOrder::Requeue(message))
        },
        OutboundAction::DeliverDirect { dest_hash } => FirstStep::Direct {
            dest_hash: *dest_hash,
            plan: None,
            stamp,
        },
        OutboundAction::PlanDirect { dest_hash, plan } => FirstStep::Direct {
            dest_hash: *dest_hash,
            plan: Some(*plan),
            stamp,
        },
        OutboundAction::DeliverOpportunistic { dest_hash } => FirstStep::Opportunistic {
            dest_hash: *dest_hash,
            stamp,
        },
        OutboundAction::Failed => FirstStep::Exhausted,
        OutboundAction::Expired => FirstStep::Expired,
    }
}

/// What is to be done with a message that is ready for a link.
#[derive(Debug, Clone, Copy)]
pub enum LinkStep {
    /// The router takes the message back.
    Order(RouterOrder),
    /// A delivery is to be started over a link to a node this far away.
    Start { message: OutboundMessage, hops: u8 },
}

/// Whether an attempt at a message starts, or its attempts are used up.
pub open spec fn attempt_step(message: OutboundMessage, hops: u8, now: u64) -> LinkStep {
    let message = message.attempted(now);
    if message.delivery_attempts >= MAX_DELIVERY_ATTEMPTS {
        LinkStep::Order(RouterOrder::Requeue(message))
    } else {
        LinkStep::Start { message, hops }
    }
}

/// Counts an attempt at a message and starts it, or gives the message back to
/// the router where its attempts are used up.
fn attempt_over_link(message: &OutboundMessage, hops: u8, now: u64) -> (step: LinkStep)
    ensures
        step == attempt_step(*message, hops, now),
{
    let mut message = *message;
    let attempts: u32 = mark_delivery_attempt(&mut message, now);
    if attempts >= MAX_DELIVERY_ATTEMPTS {
        LinkStep::Order(RouterOrder::Requeue(message))
    } else {
        LinkStep::Start { message, hops }
    }
}

/// Goes on with a message for a propagation node, once it was packed. One that
/// could not be packed goes back to the router as it is.
pub fn propagated_packed(
    message: &OutboundMessage,
    packed: bool,
    prop_hash: DestinationHash,
    route_hops: &PeerMap<u8>,
    now: u64,
) -> (step: LinkStep)
    ensures
        step == (if packed {
            attempt_step(*message, hops_to(route_hops@, prop_hash), now)
        } else {
            LinkStep::Order(RouterOrder::Requeue(*message))
        }),
{
    if !packed {
        return LinkStep::Order(RouterOrder::Requeue(*message));
    }
    attempt_over_link(message, route_hops_for(route_hops, prop_hash), now)
}

/// Takes the news that a delivery over a link could not be started. A message
/// that the router holds is put off there; any other goes back to it.
pub fn link_start_failed(
    paths: &mut PathMailbox,
    message: OutboundMessage,
    router_owned: bool,
    dest_hash: DestinationHash,
    now: u64,
) -> (order: RouterOrder)
    ensures
        order == retry_order(message.hash, router_owned, message, now),
        final(paths)@ == tried(old(paths)@, PathQuery::RequestPath(dest_hash)),
{
    retry_later(paths, message.hash, router_owned, message, dest_hash, now)
}

/// What is to be done by a plan for a direct delivery.
#[derive(Debug, Clone, Copy)]
pub enum DirectStep {
    /// Nothing but this order.
    Order(RouterOrder),
    /// Deliver over the link that the other side opened.
    Backchannel,
    /// Deliver over a link to a node this far away.
    Link { hops: u8 },
}

/// The order for a message that has to wait: the router that holds it needs
/// none.
pub open spec fn kept_or_requeued(message: OutboundMessage, router_owned: bool) -> RouterOrder {
    if router_owned {
        RouterOrder::Nothing
    } else {
        RouterOrder::Requeue(message)
    }
}

/// What is to be done by a plan for a direct delivery.
pub open spec fn direct_step_of(
    plan: DirectDeliveryPlan,
    message: OutboundMessage,
    router_owned: bool,
    has_direct_link: bool,
    has_backchannel: bool,
    hops: u8,
) -> DirectStep {
    match plan {
        DirectDeliveryPlan::RequestPath { .. } => DirectStep::Order(
            kept_or_requeued(message, router_owned),
        ),
        DirectDeliveryPlan::DeferTerminalFailure => DirectStep::Order(
            kept_or_requeued(message, router_owned),
        ),
        DirectDeliveryPlan::WaitForReusableLink => DirectStep::Order(
            kept_or_requeued(message, router_owned),
        ),
        DirectDeliveryPlan::UseReusableLink => if !has_direct_link && has_backchannel {
            DirectStep::Backchannel
        } else {
            DirectStep::Link { hops }
        },
        DirectDeliveryPlan::StartNewLink { hops } => DirectStep::Link { hops },
        DirectDeliveryPlan::Fail => DirectStep::Order(RouterOrder::Nothing),
    }
}

/// Carries out a plan for a direct delivery. A message that waits goes back to
/// the router, unless the router holds it.
pub fn direct_delivery_step(
    paths: &mut PathMailbox,
    plan: &DirectDeliveryPlan,
    message: &OutboundMessage,
    router_owned: bool,
    dest_hash: DestinationHash,
    has_direct_link: bool,
    has_backchannel: bool,
    route_hops: &PeerMap<u8>,
) -> (step: DirectStep)
    ensures
        step == direct_step_of(
            *plan,
            *message,
            router_owned,
            has_direct_link,
            has_backchannel,
            hops_to(route_hops@, dest_hash),
        ),
        final(paths)@ == (match *plan {
            DirectDeliveryPlan::RequestPath { drop_existing } => if drop_existing {
                tried(
                    tried(old(paths)@, PathQuery::DropPath(dest_hash)),
                    PathQuery::RequestPath(dest_hash),
                )
            } else {
                tried(old(paths)@, PathQuery::RequestPath(dest_hash))
            },
            _ => old(paths)@,
        }),
{
    let waiting: RouterOrder = if router_owned {
        RouterOrder::Nothing
    } else {
        RouterOrder::Requeue(*message)
    };
    match plan {
        DirectDeliveryPlan::RequestPath { drop_existing } => {
            queue_path_request(paths, dest_hash, *drop_existing);
            DirectStep::Order(waiting)
        },
        DirectDeliveryPlan::DeferTerminalFailure => DirectStep::Order(waiting),
        DirectDeliveryPlan::WaitForReusableLink => DirectStep::Order(waiting),
        DirectDeliveryPlan::UseReusableLink => if !has_direct_link && has_backchannel {
            DirectStep::Backchannel
        } else {
            DirectStep::Link { hops: route_hops_for(route_hops, dest_hash) }
        },
        DirectDeliveryPlan::StartNewLink { hops } => DirectStep::Link { hops: *hops },
        DirectDeliveryPlan::Fail => DirectStep::Order(RouterOrder::Nothing),
    }
}

/// What became of the encryption of a message for a packet of its own.
#[derive(Debug, Clone, Copy, PartialEq, Eq, Structural)]
pub enum Encryption {
    /// The destination's identity is not known.
    UnknownIdentity,
    /// The message cannot be packed.
    Failed,
    /// The packet has this many bytes.
    Packet { len: usize },
}

/// What is to be done with a message that was to go in a packet of its own.
#[derive(Debug, Clone, Copy)]
pub enum OpportunisticStep {
    /// Nothing but this order.
    Order(RouterOrder),
    /// The packet is too large: deliver over a link to a node this far away.
    Link { message: OutboundMessage, hops: u8 },
    /// Send the packet.
    Send { message: OutboundMessage },
}

/// What is to be done with a message that was to go in a packet of its own, and
/// the path that is asked for.
pub open spec fn opportunistic_step_of(
    encryption: Encryption,
    message: OutboundMessage,
    dest_hash: DestinationHash,
    hops: u8,
    now: u64,
) -> (OpportunisticStep, Option<DestinationHash>) {
    match encryption {
        Encryption::UnknownIdentity => (
            OpportunisticStep::Order(RouterOrder::Requeue(message.waiting_for_path(now, true))),
            Some(dest_hash),
        ),
        Encryption::Failed => (OpportunisticStep::Order(RouterOrder::Nothing), None),
        Encryption::Packet { len } => if len > MTU {
            (
                match attempt_step(message, hops, now) {
                    LinkStep::Order(order) => OpportunisticStep::Order(order),
                    LinkStep::Start { message, hops } => OpportunisticStep::Link { message, hops },
                },
                None,
            )
        } else {
            (OpportunisticStep::Send { message: message.attempted(now) }, None)
        },
    }
}

/// Goes on with a message that was encrypted for a packet of its own.
pub fn opportunistic_encrypted(
    paths: &mut PathMailbox,
    encryption: &Encryption,
    message: &OutboundMessage,
    dest_hash: DestinationHash,
    route_hops: &PeerMap<u8>,
    now: u64,
) -> (step: OpportunisticStep)
    ensures
        ({
            let (next, path) = opportunistic_step_of(
                *encryption,
                *message,
                dest_hash,
                hops_to(route_hops@, dest_hash),
                now,
            );
            step == next && final(paths)@ == asked_for_path(old(paths)@, path)
        }),
{
    let mut message = *message;
    match encryption {
        Encryption::UnknownIdentity => {
            requeue_after_path_request(paths, &mut message, dest_hash, true, now);
            OpportunisticStep::Order(RouterOrder::Requeue(message))
        },
        Encryption::Failed => OpportunisticStep::Order(RouterOrder::Nothing),
        Encryption::Packet { len } => {
            if *len > MTU {
                return match attempt_over_link(
                    &message,
                    route_hops_for(route_hops, dest_hash),
                    now,
                ) {
                    LinkStep::Order(order) => OpportunisticStep::Order(order),
                    LinkStep::Start { message, hops } => OpportunisticStep::Link { message, hops },
                };
            }
            mark_delivery_attempt(&mut message, now);
            OpportunisticStep::Send { message }
        },
    }
}

impl View for OutboundMessage {
    type V = OutboundMessage;

    open spec fn view(&self) -> OutboundMessage {
        *self
    }
}

/// Packets that were sent and not proven yet.
pub type InFlight = IdMap<OutboundMessage>;

/// Notes that a packet was sent, or gives its message back to the router where
/// the transport had no room. A message that nothing tracks is let go.
pub fn opportunistic_dispatched(in_flight: &mut InFlight, message: &OutboundMessage, sent: bool) -> (order:
    RouterOrder)
    ensures
        order == (if sent {
            RouterOrder::Nothing
        } else {
            RouterOrder::Requeue(*message)
        }),
        final(in_flight)@ == (match message.tracked_by() {
            Some(id) => if sent {
                old(in_flight)@.insert(id, *message)
            } else {
                old(in_flight)@
            },
            None => old(in_flight)@,
        }),
{
    if !sent {
        return RouterOrder::Requeue(*message);
    }
    let id: Option<[u8; 32]> = match message.message_id {
        Some(id) => Some(id),
        None => message.hash,
    };
    if let Some(id) = id {
        in_flight.insert(id, *message);
    }
    RouterOrder::Nothing
}

/// The message that a proof is for: a proof names it by hexadecimal digits.
pub open spec fn proven_id(msg_id: Seq<char>) -> Option<Seq<u8>> {
    if is_hex(msg_id) && hex_bytes(msg_id).len() == 32 {
        Some(hex_bytes(msg_id))
    } else {
        None
    }
}

/// Takes the proof of a packet, and gives the message that was delivered with
/// it. A proof of anything else is passed over.
pub fn take_delivery_proof(in_flight: &mut InFlight, msg_id: &str) -> (delivered: Option<
    OutboundMessage,
>)
    ensures
        match proven_id(msg_id@) {
            Some(bytes) => {
                let id = id_of(bytes);
                if old(in_flight)@.contains_key(id) {
                    delivered == Some(old(in_flight)@[id]) && final(in_flight)@ == old(in_flight)@.remove(id)
                } else {
                    delivered is None && final(in_flight)@ == old(in_flight)@
                }
            },
            None => delivered is None && final(in_flight)@ == old(in_flight)@,
        },
{
    let bytes = match hex_decode(msg_id) {
        Some(bytes) => bytes,
        None => {
            return None;
        },
    };
    let id: [u8; 32] = match id_from_bytes::<32>(bytes.as_slice()) {
        Some(id) => id,
        None => {
            return None;
        },
    };
    proof {
        lemma_id_from_view(id, id_of(id@));
    }
    let delivered: Option<OutboundMessage> = match in_flight.get(&id) {
        Some(message) => Some(*message),
        None => None,
    };
    if delivered.is_some() {
        in_flight.remove(&id);
    }
    delivered
}

/// The packets whose proof is overdue.
pub open spec fn is_overdue(
    in_flight: Map<[u8; 32], OutboundMessage>,
    id: [u8; 32],
    now: u64,
) -> bool {
    in_flight.contains_key(id) && in_flight[id].next_delivery_attempt <= now
}

/// Takes out the messages whose proof is overdue, to be tried again.
pub fn retry_due_opportunistic_deliveries(in_flight: &mut InFlight, now: u64) -> (due: Vec<
    OutboundMessage,
>)
    ensures
        forall|id: [u8; 32]|
            #![trigger final(in_flight)@.contains_key(id)]
            final(in_flight)@.contains_key(id) <==> old(in_flight)@.contains_key(id)
                && !is_overdue(old(in_flight)@, id, now),
        forall|id: [u8; 32]|
            #![trigger final(in_flight)@[id]]
            final(in_flight)@.contains_key(id) ==> final(in_flight)@[id] == old(in_flight)@[id],
        exists|ids: Seq<[u8; 32]>|
            #![trigger ids.no_duplicates()]
            ids.no_duplicates() && ids.len() == due@.len() && (forall|id: [u8; 32]| #[trigger]
                ids.contains(id) <==> is_overdue(old(in_flight)@, id, now)) && forall|k: int|
                0 <= k < due@.len() ==> #[trigger] due@[k] == old(in_flight)@[ids[k]],
{
    let ghost all = in_flight@;
    let keys = in_flight.keys();
    let mut due: Vec<OutboundMessage> = Vec::new();
    let ghost mut ids: Seq<[u8; 32]> = Seq::empty();
    let mut i: usize = 0;
    while i < keys.len()
        invariant
            i <= keys@.len(),
            keys@.no_duplicates(),
            forall|key: [u8; 32]| #[trigger] keys@.contains(key) <==> all.contains_key(key),
            forall|id: [u8; 32]|
                #![trigger in_flight@.contains_key(id)]
                in_flight@.contains_key(id) <==> all.contains_key(id) && !ids.contains(id),
            forall|id: [u8; 32]|
                #![trigger in_flight@[id]]
                in_flight@.contains_key(id) ==> in_flight@[id] == all[id],
            ids.no_duplicates(),
            ids.len() == due@.len(),
            forall|k: int| 0 <= k < ids.len() ==> #[trigger] due@[k] == all[ids[k]],
            forall|k: int|
                0 <= k < ids.len() ==> is_overdue(all, #[trigger] ids[k], now)
                    && keys@.take(i as int).contains(ids[k]),
            forall|j: int|
                0 <= j < i && is_overdue(all, #[trigger] keys@[j], now) ==> ids.contains(keys@[j]),
        decreases keys@.len() - i,
    {
        let id: [u8; 32] = keys[i];
        let ghost taken = keys@.take(i as int);
        let ghost grown = keys@.take(i + 1);
        let ghost before = ids;
        proof {
            assert(keys@.contains(id));
            assert(grown =~= taken.push(id));
            assert forall|k: int| 0 <= k < before.len() implies grown.contains(
                #[trigger] before[k],
            ) by {
                let j = choose|j: int| 0 <= j < taken.len() && taken[j] == before[k];
                assert(grown[j] == before[k]);
            }
            assert(!before.contains(id)) by {
                if before.contains(id) {
                    let k = choose|k: int| 0 <= k < before.len() && before[k] == id;
                    let j = choose|j: int| 0 <= j < taken.len() && taken[j] == before[k];
                    assert(keys@[j] == keys@[i as int]);
                }
            }
            assert(grown[i as int] == id);
            assert(in_flight@.contains_key(id));
        }
        let message: Option<OutboundMessage> = match in_flight.get(&id) {
            Some(message) => Some(*message),
            None => None,
        };
        if let Some(message) = message {
            if message.next_delivery_attempt <= now {
                in_flight.remove(&id);
                due.push(message);
                proof {
                    ids = ids.push(id);
                    assert(ids[before.len() as int] == id);
                    assert forall|other: [u8; 32]| #[trigger] ids.contains(other)
                        <==> before.contains(other) || other == id by {
                        if before.contains(other) {
                            let k = choose|k: int| 0 <= k < before.len() && before[k] == other;
                            assert(ids[k] == other);
                        }
                    }
                }
            }
        }
        i = i + 1;
    }
    proof {
        assert(keys@.take(i as int) =~= keys@);
        assert forall|id: [u8; 32]| #[trigger] ids.contains(id) <==> is_overdue(all, id, now) by {
            if is_overdue(all, id, now) {
                assert(keys@.contains(id));
                let j = choose|j: int| 0 <= j < keys@.len() && keys@[j] == id;
                assert(is_overdue(all, keys@[j], now));
            }
        }
    }
    due
}

/// No delivery is tried more often than the limit: the attempt that reaches it
/// is not started.
pub proof fn law_attempts_are_bounded(message: OutboundMessage, hops: u8, now: u64)
    ensures
        attempt_step(message, hops, now) matches LinkStep::Start {
            message: started,
            ..
        } ==> started.delivery_attempts < MAX_DELIVERY_ATTEMPTS,
{
}

/// A failed delivery ends in exactly one of two ways: the message is tried
/// again and a path asked for, or the failure is reported.
pub proof fn law_failure_is_retried_or_reported(
    msg_hash: Option<[u8; 32]>,
    dest_hash: DestinationHash,
    message: OutboundMessage,
    reason: String,
    pending: Seq<[u8; 32]>,
    paths: MailboxView<PathQuery>,
    now: u64,
)
    ensures
        ({
            let effect = effect_of(
                DeliveryResult::Failed { msg_hash, dest_hash, message, reason },
                pending,
                paths,
                now,
            );
            let again = effect.order is Requeue || effect.order is DeferForPath;
            again != (effect.failure is Some)
        }),
{
}

/// A message that is sent to its destination, over a link or in a packet of its
/// own, is stamped first exactly when the destination asks for a stamp and the
/// message has none; the stamp is worth what the destination asks for.
pub proof fn law_sent_messages_are_stamped(
    action: OutboundAction,
    message: OutboundMessage,
    known: Map<DestinationHash, Seq<u8>>,
    stamp_cost: Option<u8>,
    now: u64,
    cost: u8,
)
    ensures
        ({
            let (step, path) = first_step_of(action, message, known, stamp_cost, now);
            let needed = !message.has_stamp && stamp_cost == Some(cost) && cost > 0;
            match action {
                OutboundAction::DeliverDirect { dest_hash } => {
                    &&& step matches FirstStep::Direct { dest_hash: to, plan, stamp } && to
                        == dest_hash && plan is None && (stamp == Some(cost) <==> needed)
                    &&& path is None
                },
                OutboundAction::PlanDirect { dest_hash, plan } => {
                    &&& step matches FirstStep::Direct { dest_hash: to, plan: by, stamp } && to
                        == dest_hash && by == Some(plan) && (stamp == Some(cost) <==> needed)
                    &&& path is None
                },
                OutboundAction::DeliverOpportunistic { dest_hash } => {
                    &&& step matches FirstStep::Opportunistic { dest_hash: to, stamp } && to
                        == dest_hash && (stamp == Some(cost) <==> needed)
                    &&& path is None
                },
                _ => !(step is Direct) && !(step is Opportunistic),
            }
        }),
{
}

} // verus!
