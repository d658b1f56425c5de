//! Messages on their way out.

use vstd::prelude::*;
use crate::ids::DestinationHash;
use crate::tables::PeerMap;
use crate::text::{hex_encode, same_text};
#[allow(unused_imports)]
use crate::text::hex_chars;
use crate::transport::Mailbox;
#[allow(unused_imports)]
use crate::transport::{views, MailboxView};

verus! {

/// Most attempts at the delivery of a message.
pub const MAX_DELIVERY_ATTEMPTS: u32 = 5;

/// Milliseconds between two attempts.
pub const DELIVERY_RETRY_WAIT_MS: u64 = 10_000;

/// Milliseconds that a path may take to be found.
pub const PATH_REQUEST_WAIT_MS: u64 = 7_000;

/// Most bytes of a packet.
pub const MTU: usize = 500;

/// A message on its way out. Times are in milliseconds.
#[derive(Debug, Clone, Copy)]
pub struct OutboundMessage {
    pub destination_hash: DestinationHash,
    pub hash: Option<[u8; 32]>,
    pub message_id: Option<[u8; 32]>,
    pub has_stamp: bool,
    pub delivery_attempts: u32,
    pub last_delivery_attempt: u64,
    pub next_delivery_attempt: u64,
}

/// A time after a wait, or the last one that can be told.
pub open spec fn after_wait(now: u64, wait: u64) -> u64 {
    if now + wait > u64::MAX {
        u64::MAX
    } else {
        (now + wait) as u64
    }
}

/// One more attempt, as far as they can be counted.
pub open spec fn one_more(attempts: u32) -> u32 {
    if attempts == u32::MAX {
        u32::MAX
    } else {
        (attempts + 1) as u32
    }
}

impl OutboundMessage {
    /// The message after an attempt.
    pub open spec fn attempted(self, now: u64) -> OutboundMessage {
        OutboundMessage {
            delivery_attempts: one_more(self.delivery_attempts),
            last_delivery_attempt: now,
            next_delivery_attempt: after_wait(now, DELIVERY_RETRY_WAIT_MS),
            ..self
        }
    }

    /// The message while it waits for a path.
    pub open spec fn waiting_for_path(self, now: u64, increment_attempt: bool) -> OutboundMessage {
        OutboundMessage {
            delivery_attempts: if increment_attempt {
                one_more(self.delivery_attempts)
            } else {
                self.delivery_attempts
            },
            last_delivery_attempt: now,
            next_delivery_attempt: after_wait(now, PATH_REQUEST_WAIT_MS),
            ..self
        }
    }

    /// What the message is tracked by.
    pub open spec fn tracked_by(self) -> Option<[u8; 32]> {
        match self.message_id {
            Some(id) => Some(id),
            None => self.hash,
        }
    }
}

/// Counts an attempt at the delivery of a message, and tells how many there
/// were.
pub fn mark_delivery_attempt(message: &mut OutboundMessage, now: u64) -> (attempts: u32)
    ensures
        *final(message) == old(message).attempted(now),
        attempts == final(message).delivery_attempts,
{
    message.delivery_attempts = message.delivery_attempts.saturating_add(1);
    message.last_delivery_attempt = now;
    message.next_delivery_attempt = now.saturating_add(DELIVERY_RETRY_WAIT_MS);
    message.delivery_attempts
}

/// What is asked of the transport about paths.
#[derive(Debug, Clone, Copy, PartialEq, Eq)]
pub enum PathQuery {
    DropPath(DestinationHash),
    RequestPath(DestinationHash),
}

impl View for PathQuery {
    type V = PathQuery;

    open spec fn view(&self) -> PathQuery {
        *self
    }
}

/// The mailbox of path queries.
pub type PathMailbox = Mailbox<PathQuery>;

/// The mailbox after a query was sent, where it had room.
pub open spec fn tried<V>(mailbox: MailboxView<V>, message: V) -> MailboxView<V> {
    if mailbox.closed || mailbox.free == 0 {
        mailbox
    } else {
        MailboxView {
            free: (mailbox.free - 1) as usize,
            sent: mailbox.sent.push(message),
            ..mailbox
        }
    }
}

/// Sends a message if the mailbox has room, and tells whether it had.
pub fn try_send<M: View>(mailbox: &mut Mailbox<M>, message: M) -> (sent: bool)
    ensures
        sent == (!old(mailbox)@.closed && old(mailbox)@.free > 0),
        final(mailbox)@ == tried(old(mailbox)@, message@),
{
    if mailbox.closed || mailbox.free == 0 {
        return false;
    }
    let ghost before = mailbox.sent@;
    mailbox.free = mailbox.free - 1;
    mailbox.sent.push(message);
    assert(views(mailbox.sent@) =~= views(before).push(message@));
    true
}

/// Asks the transport for a path, after it forgot the one it has where that is
/// stale. What finds no room is not asked.
pub fn queue_path_request(
    mailbox: &mut PathMailbox,
    request_hash: DestinationHash,
    drop_existing: bool,
)
    ensures
        final(mailbox)@ == (if drop_existing {
            tried(
                tried(old(mailbox)@, PathQuery::DropPath(request_hash)),
                PathQuery::RequestPath(request_hash),
            )
        } else {
            tried(old(mailbox)@, PathQuery::RequestPath(request_hash))
        }),
{
    if drop_existing {
        try_send(mailbox, PathQuery::DropPath(request_hash));
    }
    try_send(mailbox, PathQuery::RequestPath(request_hash));
}

/// Asks for the path to a propagation node whose identity is not known, and
/// tells whether that was possible. Either way the next try is an interval
/// later.
pub fn queue_unknown_propagation_node_path_request(
    mailbox: &mut PathMailbox,
    node: DestinationHash,
    last_propagation_check: &mut u64,
    now: u64,
) -> (queued: bool)
    ensures
        *final(last_propagation_check) == now,
        queued == (!old(mailbox)@.closed && old(mailbox)@.free > 0),
        final(mailbox)@ == tried(old(mailbox)@, PathQuery::RequestPath(node)),
{
    *last_propagation_check = now;
    try_send(mailbox, PathQuery::RequestPath(node))
}

/// Asks for a path and has the message wait for it. It is then to be queued
/// again.
pub fn requeue_after_path_request(
    mailbox: &mut PathMailbox,
    message: &mut OutboundMessage,
    request_hash: DestinationHash,
    increment_attempt: bool,
    now: u64,
)
    ensures
        *final(message) == old(message).waiting_for_path(now, increment_attempt),
        final(mailbox)@ == tried(old(mailbox)@, PathQuery::RequestPath(request_hash)),
{
    if increment_attempt {
        message.delivery_attempts = message.delivery_attempts.saturating_add(1);
    }
    message.last_delivery_attempt = now;
    message.next_delivery_attempt = now.saturating_add(PATH_REQUEST_WAIT_MS);
    queue_path_request(mailbox, request_hash, false);
}

/// A link failed in a way that another try can mend.
pub open spec fn is_retryable(reason: Seq<char>) -> bool {
    ||| reason == "link establishment timeout"@
    ||| reason == "link closed"@
    ||| reason == "transport full"@
    ||| reason == "transport closed"@
    ||| reason == "link is not active"@
    ||| reason == "link not found"@
}

/// Tells whether a link failed in a way that another try can mend.
pub fn link_failure_retryable(reason: &str) -> (retryable: bool)
    ensures
        retryable == is_retryable(reason@),
{
    same_text(reason, "link establishment timeout") || same_text(reason, "link closed")
        || same_text(reason, "transport full") || same_text(reason, "transport closed")
        || same_text(reason, "link is not active") || same_text(reason, "link not found")
}

/// Hops to a destination: those of its announce, at least one.
pub open spec fn hops_to(route_hops: Map<DestinationHash, u8>, dest_hash: DestinationHash) -> u8 {
    if route_hops.contains_key(dest_hash) && route_hops[dest_hash] > 1 {
        route_hops[dest_hash]
    } else {
        1
    }
}

/// Hops to a destination: those of its announce, at least one.
pub fn route_hops_for(route_hops: &PeerMap<u8>, dest_hash: DestinationHash) -> (hops: u8)
    ensures
        hops == hops_to(route_hops@, dest_hash),
{
    match route_hops.get(&dest_hash) {
        Some(hops) => if *hops > 1 {
            *hops
        } else {
            1
        },
        None => 1,
    }
}

/// A path that an announce made known.
#[derive(Debug, Clone, Copy, PartialEq, Eq)]
pub struct DirectRouteSnapshot {
    pub destination_hash: DestinationHash,
    pub hops: u8,
}

/// The path to a destination, where there is one.
pub fn direct_route_snapshot(route_hops: &PeerMap<u8>, dest_hash: DestinationHash) -> (route: Option<
    DirectRouteSnapshot,
>)
    ensures
        route == (if route_hops@.contains_key(dest_hash) {
            Some(
                DirectRouteSnapshot { destination_hash: dest_hash, hops: route_hops@[dest_hash] },
            )
        } else {
            None
        }),
{
    match route_hops.get(&dest_hash) {
        Some(hops) => Some(DirectRouteSnapshot { destination_hash: dest_hash, hops: *hops }),
        None => None,
    }
}

/// Where a direct link stands.
#[derive(Debug, Clone, Copy, PartialEq, Eq, Structural)]
pub enum DeliveryState {
    Idle,
    Establishing,
    Sending,
    AwaitingProof,
    Failed,
}

/// What waits on a link that the other side opened.
#[derive(Debug, Clone, Copy, PartialEq, Eq, Structural)]
pub struct BackchannelSnapshot {
    pub queued_deliveries: usize,
    pub in_flight_deliveries: usize,
}

impl View for DeliveryState {
    type V = DeliveryState;

    open spec fn view(&self) -> DeliveryState {
        *self
    }
}

impl View for BackchannelSnapshot {
    type V = BackchannelSnapshot;

    open spec fn view(&self) -> BackchannelSnapshot {
        *self
    }
}

/// Links that are open: those that were opened for a delivery, and those that
/// the other side opened.
#[derive(Debug)]
pub struct LinkStates {
    pub direct: PeerMap<DeliveryState>,
    pub backchannel: PeerMap<BackchannelSnapshot>,
}

/// Whether a link can be used for another delivery.
#[derive(Debug, Clone, Copy, PartialEq, Eq, Structural)]
pub enum DirectReusableLinkState {
    /// There is none.
    Missing,
    /// It is free.
    Active,
    /// It is in use.
    Pending,
    /// It is closed; whether it ever was open.
    Closed { activated: bool },
}

/// Whether a link to a destination can be used. A link that was opened for a
/// delivery comes before one that the other side opened.
pub open spec fn reusable_link(
    links: Option<&LinkStates>,
    dest_hash: DestinationHash,
) -> DirectReusableLinkState {
    match links {
        None => DirectReusableLinkState::Missing,
        Some(links) => if links.direct@.contains_key(dest_hash) {
            match links.direct@[dest_hash] {
                DeliveryState::Idle => DirectReusableLinkState::Active,
                DeliveryState::Failed => DirectReusableLinkState::Closed { activated: false },
                _ => DirectReusableLinkState::Pending,
            }
        } else if links.backchannel@.contains_key(dest_hash) {
            let snapshot = links.backchannel@[dest_hash];
            if snapshot.queued_deliveries > 0 || snapshot.in_flight_deliveries > 0 {
                DirectReusableLinkState::Pending
            } else {
                DirectReusableLinkState::Active
            }
        } else {
            DirectReusableLinkState::Missing
        },
    }
}

/// Tells whether a link to a destination can be used.
pub fn direct_reusable_link_state(links: Option<&LinkStates>, dest_hash: DestinationHash) -> (state:
    DirectReusableLinkState)
    ensures
        state == reusable_link(links, dest_hash),
{
    let links = match links {
        Some(links) => links,
        None => {
            return DirectReusableLinkState::Missing;
        },
    };
    if let Some(state) = links.direct.get(&dest_hash) {
        return match state {
            DeliveryState::Idle => DirectReusableLinkState::Active,
            DeliveryState::Failed => DirectReusableLinkState::Closed { activated: false },
            _ => DirectReusableLinkState::Pending,
        };
    }
    match links.backchannel.get(&dest_hash) {
        Some(snapshot) => if snapshot.queued_deliveries > 0 || snapshot.in_flight_deliveries > 0 {
            DirectReusableLinkState::Pending
        } else {
            DirectReusableLinkState::Active
        },
        None => DirectReusableLinkState::Missing,
    }
}

/// What is handed to the transport for an opportunistic packet.
#[derive(Debug)]
pub enum PacketOrder {
    /// Watch for the proof of the packet that follows, by the key of its
    /// destination, and name the message by its hash in hexadecimal digits.
    RegisterReceipt {
        destination_hash: DestinationHash,
        destination_public_key: [u8; 64],
        msg_id: String,
        timeout_ms: u64,
    },
    /// Send a packet.
    Outbound { destination_hash: DestinationHash, raw: Vec<u8> },
}

/// What a [`PacketOrder`] says.
pub enum PacketOrderView {
    RegisterReceipt {
        destination_hash: DestinationHash,
        destination_public_key: [u8; 64],
        msg_id: Seq<char>,
        timeout_ms: u64,
    },
    Outbound { destination_hash: DestinationHash, raw: Seq<u8> },
}

impl View for PacketOrder {
    type V = PacketOrderView;

    open spec fn view(&self) -> PacketOrderView {
        match self {
            PacketOrder::RegisterReceipt {
                destination_hash,
                destination_public_key,
                msg_id,
                timeout_ms,
            } => PacketOrderView::RegisterReceipt {
                destination_hash: *destination_hash,
                destination_public_key: *destination_public_key,
                msg_id: msg_id@,
                timeout_ms: *timeout_ms,
            },
            PacketOrder::Outbound { destination_hash, raw } => PacketOrderView::Outbound {
                destination_hash: *destination_hash,
                raw: raw@,
            },
        }
    }
}

/// How long the proof of a packet is waited for.
pub const RECEIPT_TIMEOUT_MS: u64 = 15_000;

/// What is handed over for a packet, in order: whoever watches for its proof
/// does so before it leaves.
pub open spec fn packet_orders(
    destination_hash: DestinationHash,
    destination_public_key: [u8; 64],
    msg_hash: Option<[u8; 32]>,
    raw: Seq<u8>,
) -> Seq<PacketOrderView> {
    let packet = PacketOrderView::Outbound { destination_hash, raw };
    match msg_hash {
        Some(msg_hash) => seq![
            PacketOrderView::RegisterReceipt {
                destination_hash,
                destination_public_key,
                msg_id: hex_chars(msg_hash@),
                timeout_ms: RECEIPT_TIMEOUT_MS,
            },
            packet,
        ],
        None => seq![packet],
    }
}

/// Sends a packet with the watch for its proof, both or neither.
pub fn dispatch_opportunistic_packet(
    mailbox: &mut Mailbox<PacketOrder>,
    raw: Vec<u8>,
    destination_hash: DestinationHash,
    destination_public_key: [u8; 64],
    msg_hash: Option<[u8; 32]>,
) -> (sent: bool)
    ensures
        ({
            let orders = packet_orders(
                destination_hash,
                destination_public_key,
                msg_hash,
                raw@,
            );
            sent == (!old(mailbox)@.closed && old(mailbox)@.free >= orders.len())
                && final(mailbox)@ == (if sent {
                MailboxView {
                    free: (old(mailbox)@.free - orders.len()) as usize,
                    sent: old(mailbox)@.sent + orders,
                    ..old(mailbox)@
                }
            } else {
                old(mailbox)@
            })
        }),
{
    let ghost before = mailbox@.sent;
    let ghost bytes = raw@;
    let needed: usize = if msg_hash.is_some() {
        2
    } else {
        1
    };
    if mailbox.closed || mailbox.free < needed {
        return false;
    }
    if let Some(msg_hash) = msg_hash {
        try_send(
            mailbox,
            PacketOrder::RegisterReceipt {
                destination_hash,
                destination_public_key,
                msg_id: hex_encode(&msg_hash),
                timeout_ms: RECEIPT_TIMEOUT_MS,
            },
        );
    }
    try_send(mailbox, PacketOrder::Outbound { destination_hash, raw });
    assert(mailbox@.sent =~= before + packet_orders(
        destination_hash,
        destination_public_key,
        msg_hash,
        bytes,
    ));
    true
}

} // verus!
