//! Resources that come in over links.

use vstd::prelude::*;
use crate::ids::DestinationHash;

verus! {

/// A resource on a link.
#[derive(Debug, Clone, Copy, PartialEq, Eq)]
pub struct InboundResourceKey {
    pub link_id: DestinationHash,
    pub resource_id: [u8; 32],
}

/// Which way a resource goes.
#[derive(Debug, Clone, Copy, PartialEq, Eq, Structural)]
pub enum LinkResourceDirection {
    Inbound,
    Outbound,
}

/// How a resource ended.
#[derive(Debug, Clone, Copy, PartialEq, Eq, Structural)]
pub enum InboundResourceConclusion {
    Complete,
    Cancelled,
    Rejected,
    Failed,
}

/// What happens to a resource that comes in.
#[derive(Debug, Clone, Copy, PartialEq, Eq)]
pub enum InboundResourceEvent {
    Started { key: InboundResourceKey, data_size: usize, total_segments: usize },
    Progress { key: InboundResourceKey, transferred: usize, total: usize },
    Concluded { key: InboundResourceKey, conclusion: InboundResourceConclusion },
    /// The link is over, and with it every resource on it.
    LinkClosed { link_id: DestinationHash },
}

/// How the link layer says that a resource ended.
#[derive(Debug, Clone, Copy, PartialEq, Eq, Structural)]
pub enum LinkResourceConclusion {
    Complete,
    Cancelled,
    Rejected,
    /// The transfer broke off, with the code of the reason.
    Failed(u8),
}

/// What the link layer says of a resource, whichever way it goes.
#[derive(Debug, Clone, Copy, PartialEq, Eq)]
pub enum LinkResourceEvent {
    Started {
        link_id: DestinationHash,
        resource_id: [u8; 32],
        direction: LinkResourceDirection,
        data_size: usize,
        total_segments: usize,
    },
    Progress {
        link_id: DestinationHash,
        resource_id: [u8; 32],
        direction: LinkResourceDirection,
        transferred: usize,
        total: usize,
    },
    Concluded {
        link_id: DestinationHash,
        resource_id: [u8; 32],
        direction: LinkResourceDirection,
        conclusion: LinkResourceConclusion,
    },
}

/// How a resource that the link layer calls concluded ended; the reason of a
/// failure is of no concern.
pub open spec fn conclusion_of(conclusion: LinkResourceConclusion) -> InboundResourceConclusion {
    match conclusion {
        LinkResourceConclusion::Complete => InboundResourceConclusion::Complete,
        LinkResourceConclusion::Cancelled => InboundResourceConclusion::Cancelled,
        LinkResourceConclusion::Rejected => InboundResourceConclusion::Rejected,
        LinkResourceConclusion::Failed(_) => InboundResourceConclusion::Failed,
    }
}

/// What an event of the link layer says of a resource that comes in; `None`
/// for one that goes out.
pub open spec fn inbound_event_of(event: LinkResourceEvent) -> Option<InboundResourceEvent> {
    match event {
        LinkResourceEvent::Started {
            link_id,
            resource_id,
            direction: LinkResourceDirection::Inbound,
            data_size,
            total_segments,
        } => Some(
            InboundResourceEvent::Started {
                key: InboundResourceKey { link_id, resource_id },
                data_size,
                total_segments,
            },
        ),
        LinkResourceEvent::Progress {
            link_id,
            resource_id,
            direction: LinkResourceDirection::Inbound,
            transferred,
            total,
        } => Some(
            InboundResourceEvent::Progress {
                key: InboundResourceKey { link_id, resource_id },
                transferred,
                total,
            },
        ),
        LinkResourceEvent::Concluded {
            link_id,
            resource_id,
            direction: LinkResourceDirection::Inbound,
            conclusion,
        } => Some(
            InboundResourceEvent::Concluded {
                key: InboundResourceKey { link_id, resource_id },
                conclusion: conclusion_of(conclusion),
            },
        ),
        _ => None,
    }
}

/// Picks what concerns resources that come in from what the link layer says.
pub fn delivery_resource_event_from_runtime(event: LinkResourceEvent) -> (inbound: Option<
    InboundResourceEvent,
>)
    ensures
        inbound == inbound_event_of(event),
{
    match event {
        LinkResourceEvent::Started {
            link_id,
            resource_id,
            direction: LinkResourceDirection::Inbound,
            data_size,
            total_segments,
        } => Some(
            InboundResourceEvent::Started {
                key: InboundResourceKey { link_id, resource_id },
                data_size,
                total_segments,
            },
        ),
        LinkResourceEvent::Progress {
            link_id,
            resource_id,
            direction: LinkResourceDirection::Inbound,
            transferred,
            total,
        } => Some(
            InboundResourceEvent::Progress {
                key: InboundResourceKey { link_id, resource_id },
                transferred,
                total,
            },
        ),
        LinkResourceEvent::Concluded {
            link_id,
            resource_id,
            direction: LinkResourceDirection::Inbound,
            conclusion,
        } => Some(
            InboundResourceEvent::Concluded {
                key: InboundResourceKey { link_id, resource_id },
                conclusion: match conclusion {
                    LinkResourceConclusion::Complete => InboundResourceConclusion::Complete,
                    LinkResourceConclusion::Cancelled => InboundResourceConclusion::Cancelled,
                    LinkResourceConclusion::Rejected => InboundResourceConclusion::Rejected,
                    LinkResourceConclusion::Failed(_) => InboundResourceConclusion::Failed,
                },
            },
        ),
        _ => None,
    }
}

/// What the link layer says on the stream that loses nothing.
#[derive(Debug)]
pub enum AccountingEvent {
    /// Something happened to a resource.
    Resource(LinkResourceEvent),
    LinkClosed { link_id: DestinationHash },
    /// A resource arrived, with this content.
    Completed { data: Vec<u8> },
    /// Nothing that concerns a delivery.
    Other,
}

/// What is to be done about an [`AccountingEvent`].
#[derive(Debug)]
pub enum DeliveryNews {
    Nothing,
    /// The router is to hear of this.
    Report(InboundResourceEvent),
    /// These bytes were delivered.
    Delivered(Vec<u8>),
}

/// What is to be done about an event of the stream that loses nothing.
pub open spec fn accounted(event: AccountingEvent) -> DeliveryNews {
    match event {
        AccountingEvent::Resource(resource) => match inbound_event_of(resource) {
            Some(inbound) => DeliveryNews::Report(inbound),
            None => DeliveryNews::Nothing,
        },
        AccountingEvent::LinkClosed { link_id } => DeliveryNews::Report(
            InboundResourceEvent::LinkClosed { link_id },
        ),
        AccountingEvent::Completed { data } => DeliveryNews::Delivered(data),
        AccountingEvent::Other => DeliveryNews::Nothing,
    }
}

/// Sorts out an event of the stream that loses nothing.
pub fn handle_delivery_accounting_event(event: AccountingEvent) -> (news: DeliveryNews)
    ensures
        news == accounted(event),
{
    match event {
        AccountingEvent::Resource(resource) => match delivery_resource_event_from_runtime(
            resource,
        ) {
            Some(inbound) => DeliveryNews::Report(inbound),
            None => DeliveryNews::Nothing,
        },
        AccountingEvent::LinkClosed { link_id } => DeliveryNews::Report(
            InboundResourceEvent::LinkClosed { link_id },
        ),
        AccountingEvent::Completed { data } => DeliveryNews::Delivered(data),
        AccountingEvent::Other => DeliveryNews::Nothing,
    }
}

/// What is heard on the stream that may lose events: progress alone, since
/// starts and conclusions come by the other stream.
pub open spec fn progress_of(event: LinkResourceEvent) -> Option<InboundResourceEvent> {
    if event is Progress {
        inbound_event_of(event)
    } else {
        None
    }
}

/// Picks the progress of resources that come in from the stream that may lose
/// events.
pub fn resource_progress(event: LinkResourceEvent) -> (inbound: Option<InboundResourceEvent>)
    ensures
        inbound == progress_of(event),
{
    match event {
        LinkResourceEvent::Progress { .. } => delivery_resource_event_from_runtime(event),
        _ => None,
    }
}

/// A start or a conclusion that comes by both streams is reported once, by the
/// stream that loses nothing, and by that one whenever the resource comes in.
pub proof fn law_ends_are_reported_once(event: LinkResourceEvent)
    requires
        !(event is Progress),
    ensures
        progress_of(event) is None,
        inbound_event_of(event) matches Some(inbound) ==> accounted(
            AccountingEvent::Resource(event),
        ) == DeliveryNews::Report(inbound),
        inbound_event_of(event) is None ==> accounted(AccountingEvent::Resource(event))
            == DeliveryNews::Nothing,
{
}

/// Tells whether a resource that is offered for delivery is taken: it is no
/// larger than the limit.
pub fn accepts_delivery_resource(data_size: usize, limit_bytes: usize) -> (accepted: bool)
    ensures
        accepted == (data_size <= limit_bytes),
{
    data_size <= limit_bytes
}

} // verus!
