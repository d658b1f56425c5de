//! What goes back and forth between the daemon and the link layer on links that
//! the other side opened.

use vstd::prelude::*;
use crate::daemon::resources::{InboundResourceKey, LinkResourceDirection};
use crate::ids::DestinationHash;

verus! {

/// An order to the link layer to give up a resource.
#[derive(Debug, Clone, Copy, PartialEq, Eq)]
pub struct ResourceCancellation {
    pub link_id: DestinationHash,
    pub resource_id: [u8; 32],
    pub direction: LinkResourceDirection,
}

/// The order by which a resource that comes in is given up.
pub open spec fn cancellation_of(key: InboundResourceKey) -> ResourceCancellation {
    ResourceCancellation {
        link_id: key.link_id,
        resource_id: key.resource_id,
        direction: LinkResourceDirection::Inbound,
    }
}

/// Turns wishes to give up resources that come in into orders, one for each and
/// in their order, as long as the link layer takes orders.
pub fn forward_inbound_resource_cancellations(keys: &[InboundResourceKey], open: bool) -> (orders:
    Vec<ResourceCancellation>)
    ensures
        orders@ == (if open {
            keys@.map_values(|key: InboundResourceKey| cancellation_of(key))
        } else {
            Seq::empty()
        }),
{
    let mut orders: Vec<ResourceCancellation> = Vec::new();
    if !open {
        return orders;
    }
    let ghost wanted = keys@.map_values(|key: InboundResourceKey| cancellation_of(key));
    let mut i: usize = 0;
    while i < keys.len()
        invariant
            i <= keys@.len(),
            wanted == keys@.map_values(|key: InboundResourceKey| cancellation_of(key)),
            orders@ == wanted.take(i as int),
        decreases keys@.len() - i,
    {
        let key: InboundResourceKey = keys[i];
        orders.push(
            ResourceCancellation {
                link_id: key.link_id,
                resource_id: key.resource_id,
                direction: LinkResourceDirection::Inbound,
            },
        );
        i = i + 1;
        assert(orders@ =~= wanted.take(i as int));
    }
    assert(wanted.take(i as int) =~= wanted);
    orders
}

/// What the link layer says of something that it sent.
#[derive(Debug, Clone, Copy, PartialEq, Eq)]
pub enum LinkPayloadSendReceipt {
    Packet { link_id: DestinationHash, packet_hash: [u8; 32] },
    Resource { link_id: DestinationHash, resource_hash: [u8; 32] },
}

/// Why the link layer could not send something. For what has no counterpart in a
/// delivery, its own words are given.
#[derive(Debug)]
pub enum LinkSendError {
    LinkNotFound,
    LinkNotActive,
    NoSessionKeys,
    IdentityUnavailable(String),
    IdentificationUnavailable(String),
    TransportUnavailable,
    ResourceStartFailed,
}

/// What a delivery is known by until it is proven.
#[derive(Debug, Clone, Copy, PartialEq, Eq)]
pub enum BackchannelSendReceipt {
    Packet { link_id: DestinationHash, packet_hash: [u8; 32] },
    Resource { link_id: DestinationHash, resource_hash: [u8; 32] },
}

/// Why a delivery could not be sent.
#[derive(Debug, PartialEq, Eq)]
pub enum BackchannelSendError {
    LinkNotFound,
    LinkNotActive,
    NoSessionKeys,
    TransportUnavailable,
    ResourceStartFailed,
    Other(String),
}

/// What a delivery is known by, from what the link layer says.
pub open spec fn receipt_of(receipt: LinkPayloadSendReceipt) -> BackchannelSendReceipt {
    match receipt {
        LinkPayloadSendReceipt::Packet { link_id, packet_hash } => BackchannelSendReceipt::Packet {
            link_id,
            packet_hash,
        },
        LinkPayloadSendReceipt::Resource { link_id, resource_hash } =>
            BackchannelSendReceipt::Resource { link_id, resource_hash },
    }
}

/// Why a delivery could not be sent, from what the link layer says.
pub open spec fn send_error_of(error: LinkSendError) -> BackchannelSendError {
    match error {
        LinkSendError::LinkNotFound => BackchannelSendError::LinkNotFound,
        LinkSendError::LinkNotActive => BackchannelSendError::LinkNotActive,
        LinkSendError::NoSessionKeys => BackchannelSendError::NoSessionKeys,
        LinkSendError::IdentityUnavailable(words) => BackchannelSendError::Other(words),
        LinkSendError::IdentificationUnavailable(words) => BackchannelSendError::Other(words),
        LinkSendError::TransportUnavailable => BackchannelSendError::TransportUnavailable,
        LinkSendError::ResourceStartFailed => BackchannelSendError::ResourceStartFailed,
    }
}

/// Takes what the link layer says of something that it sent.
pub fn backchannel_receipt_from_runtime(receipt: LinkPayloadSendReceipt) -> (known:
    BackchannelSendReceipt)
    ensures
        known == receipt_of(receipt),
{
    match receipt {
        LinkPayloadSendReceipt::Packet { link_id, packet_hash } => BackchannelSendReceipt::Packet {
            link_id,
            packet_hash,
        },
        LinkPayloadSendReceipt::Resource { link_id, resource_hash } =>
            BackchannelSendReceipt::Resource { link_id, resource_hash },
    }
}

/// Takes why the link layer could not send something.
pub fn backchannel_error_from_runtime(error: LinkSendError) -> (reason: BackchannelSendError)
    ensures
        reason == send_error_of(error),
{
    match error {
        LinkSendError::LinkNotFound => BackchannelSendError::LinkNotFound,
        LinkSendError::LinkNotActive => BackchannelSendError::LinkNotActive,
        LinkSendError::NoSessionKeys => BackchannelSendError::NoSessionKeys,
        LinkSendError::IdentityUnavailable(words) => BackchannelSendError::Other(words),
        LinkSendError::IdentificationUnavailable(words) => BackchannelSendError::Other(words),
        LinkSendError::TransportUnavailable => BackchannelSendError::TransportUnavailable,
        LinkSendError::ResourceStartFailed => BackchannelSendError::ResourceStartFailed,
    }
}

/// What became of an order to send.
#[derive(Debug)]
pub enum SendOutcome {
    /// The link layer did not take the order, or went away before it answered.
    Unanswered,
    Answered(Result<LinkPayloadSendReceipt, LinkSendError>),
}

/// What is reported of a delivery over a link that the other side opened. An
/// order that nobody answers counts as one that could not be sent.
pub fn backchannel_send_result(outcome: SendOutcome) -> (report: Result<
    BackchannelSendReceipt,
    BackchannelSendError,
>)
    ensures
        report == (match outcome {
            SendOutcome::Answered(Ok(receipt)) => Ok::<
                BackchannelSendReceipt,
                BackchannelSendError,
            >(receipt_of(receipt)),
            SendOutcome::Answered(Err(error)) => Err(send_error_of(error)),
            SendOutcome::Unanswered => Err(BackchannelSendError::TransportUnavailable),
        }),
{
    match outcome {
        SendOutcome::Answered(Ok(receipt)) => Ok(backchannel_receipt_from_runtime(receipt)),
        SendOutcome::Answered(Err(error)) => Err(backchannel_error_from_runtime(error)),
        SendOutcome::Unanswered => Err(BackchannelSendError::TransportUnavailable),
    }
}

} // verus!
