//! What is taken in from peers and clients.

use vstd::prelude::*;
use crate::constants::BYTES_PER_KILOBYTE;
use crate::ids::{append_bytes, copy_bytes, DestinationHash};
use crate::msgpack::{decode_value, WireValue};
#[allow(unused_imports)]
use crate::msgpack::{byte_views, msgpack_decoded, msgpack_encoded, slice_of, wire_views, WireView};
use crate::node::{PropagationNode, PropagationStoreWritePlan};
#[allow(unused_imports)]
use crate::node::{
    admits_hash, blob_acceptable, is_blob_entry, is_reservation, NodeView, WritePlanView,
};
use crate::offer::{OfferResponse, PnOfferEvaluation, PnOfferEvaluationError};
#[allow(unused_imports)]
use crate::offer::response_wire;
use crate::stamper::{stored_stamp_value, validate_pn_stamp, ValidatedPnEntry};
#[allow(unused_imports)]
use crate::stamper::{pn_stamp_valid, sha256_digest, stored_value};
use crate::sync_task::events::{signing_half, KnownIdentities};
#[allow(unused_imports)]
use crate::sync_task::events::signing_key;

verus! {

/// A number of any kind.
pub open spec fn is_number(value: WireView) -> bool {
    value is Unsigned || value is Negative || value is Single || value is Double
}

/// Every item holds bytes.
pub open spec fn all_slices(items: Seq<WireView>) -> bool {
    forall|i: int| 0 <= i < items.len() ==> slice_of(#[trigger] items[i]) is Some
}

/// The messages in a wrapper: an array of the time at which it was made and an
/// array of the messages.
pub open spec fn wrapped_entries(wire: WireView) -> Option<Seq<Seq<u8>>> {
    match wire {
        WireView::Array(items) => if items.len() == 2 && is_number(items[0]) {
            match items[1] {
                WireView::Array(entries) => if all_slices(entries) {
                    Some(Seq::new(entries.len(), |i: int| slice_of(entries[i])->0))
                } else {
                    None
                },
                _ => None,
            }
        } else {
            None
        },
        _ => None,
    }
}

/// The messages in a wrapper of at most `max_size` bytes.
pub open spec fn wrapper_entries(data: Seq<u8>, max_size: usize) -> Option<Seq<Seq<u8>>> {
    if data.len() > max_size {
        None
    } else {
        match msgpack_decoded(data) {
            Some(wire) => wrapped_entries(wire),
            None => None,
        }
    }
}

/// Takes a decoded wrapper apart.
pub fn entries_from_value(value: &WireValue) -> (entries: Option<Vec<Vec<u8>>>)
    ensures
        match entries {
            Some(entries) => wrapped_entries(value@) == Some(byte_views(entries@)),
            None => wrapped_entries(value@) is None,
        },
{
    let items = match value.as_array() {
        Some(items) => items,
        None => {
            return None;
        },
    };
    if items.len() != 2 {
        return None;
    }
    proof {
        assert(wire_views(items@)[0] == items@[0]@);
        assert(wire_views(items@)[1] == items@[1]@);
    }
    let timed: bool = match &items[0] {
        WireValue::Integer(Some(_), _) => true,
        WireValue::Integer(None, Some(_)) => true,
        WireValue::Single(_) => true,
        WireValue::Double(_) => true,
        _ => false,
    };
    assert(timed == is_number(items@[0]@));
    if !timed {
        return None;
    }
    let wrapped = match items[1].as_array() {
        Some(wrapped) => wrapped,
        None => {
            return None;
        },
    };
    let ghost views = wire_views(wrapped@);
    let mut entries: Vec<Vec<u8>> = Vec::new();
    let mut i: usize = 0;
    while i < wrapped.len()
        invariant
            i <= wrapped@.len(),
            views == wire_views(wrapped@),
            wrapped_entries(value@) == (if all_slices(views) {
                Some(Seq::new(views.len(), |i: int| slice_of(views[i])->0))
            } else {
                None
            }),
            entries@.len() == i,
            forall|j: int|
                0 <= j < i ==> slice_of(#[trigger] views[j]) == Some(entries@[j]@),
        decreases wrapped@.len() - i,
    {
        assert(views[i as int] == wrapped@[i as int]@);
        match wrapped[i].as_slice() {
            Some(bytes) => {
                entries.push(copy_bytes(bytes));
            },
            None => {
                assert(!all_slices(views));
                return None;
            },
        }
        i = i + 1;
    }
    proof {
        assert forall|j: int| 0 <= j < views.len() implies slice_of(#[trigger] views[j]) is Some by {
            assert(slice_of(views[j]) == Some(entries@[j]@));
        }
        assert(byte_views(entries@) =~= Seq::new(
            views.len(),
            |i: int| slice_of(views[i])->0,
        ));
    }
    Some(entries)
}

/// Reads a wrapper of at most `max_size` bytes.
pub fn unpack_propagation_wrapper_bounded(data: &[u8], max_size: usize) -> (entries: Option<
    Vec<Vec<u8>>,
>)
    ensures
        match entries {
            Some(entries) => wrapper_entries(data@, max_size) == Some(byte_views(entries@)),
            None => wrapper_entries(data@, max_size) is None,
        },
{
    if data.len() > max_size {
        return None;
    }
    match decode_value(data) {
        Some(value) => entries_from_value(&value),
        None => None,
    }
}

/// What the check of a transfer came to.
#[derive(Debug, Clone, Copy, PartialEq, Eq, Structural)]
pub enum PnValidationOutcome {
    /// Every message has a good stamp.
    Valid,
    /// Some message has not.
    InvalidStamp,
    /// The sender may send one message only, and sent more.
    UnauthorizedMultiple,
    /// The transfer holds no messages.
    Failed,
}

/// A transfer that is to be checked.
#[derive(Debug)]
pub struct PnValidationJob {
    pub token: u64,
    pub link_id: DestinationHash,
    /// The sender may send more than one message.
    pub allow_multiple: bool,
    pub data: Vec<u8>,
}

/// A transfer that was checked.
#[derive(Debug)]
pub struct PnValidationWorkerResult {
    pub token: u64,
    pub link_id: DestinationHash,
    pub outcome: PnValidationOutcome,
    pub entries: Vec<ValidatedPnEntry>,
    pub rejected: usize,
}

/// A packet that is to be checked.
#[derive(Debug)]
pub struct PnPacketValidationJob {
    pub link_id: DestinationHash,
    pub data: Vec<u8>,
    pub max_transfer_bytes: usize,
    pub min_cost: u8,
}

/// A packet that was checked.
#[derive(Debug)]
pub struct PnPacketValidationWorkerResult {
    pub link_id: DestinationHash,
    pub entries: Vec<ValidatedPnEntry>,
    pub rejected: usize,
}

/// The messages with a good stamp.
pub open spec fn well_stamped(entries: Seq<Seq<u8>>, min_cost: u8) -> Seq<Seq<u8>> {
    entries.filter(|entry: Seq<u8>| pn_stamp_valid(entry, min_cost))
}

/// `validated` are these messages taken apart.
pub open spec fn are_split(validated: Seq<ValidatedPnEntry>, entries: Seq<Seq<u8>>) -> bool {
    validated.len() == entries.len() && forall|i: int|
        0 <= i < entries.len() ==> (#[trigger] validated[i]).is_split_of(entries[i])
}

/// Keeps the messages with a good stamp, and counts the others.
fn validate_entries(entries: &Vec<Vec<u8>>, min_cost: u8) -> (validated: (
    Vec<ValidatedPnEntry>,
    usize,
))
    ensures
        are_split(validated.0@, well_stamped(byte_views(entries@), min_cost)),
        validated.0@.len() + validated.1 == entries@.len(),
{
    let ghost views = byte_views(entries@);
    let ghost good = |entry: Seq<u8>| pn_stamp_valid(entry, min_cost);
    let mut validated: Vec<ValidatedPnEntry> = Vec::new();
    let mut rejected: usize = 0;
    let mut i: usize = 0;
    proof {
        reveal(Seq::filter);
        assert(views.take(0).filter(good).len() == 0);
    }
    while i < entries.len()
        invariant
            i <= entries@.len(),
            views == byte_views(entries@),
            good == |entry: Seq<u8>| pn_stamp_valid(entry, min_cost),
            are_split(validated@, views.take(i as int).filter(good)),
            validated@.len() + rejected == i,
        decreases entries@.len() - i,
    {
        let ghost before = validated@;
        let ghost kept = views.take(i as int).filter(good);
        proof {
            reveal(Seq::filter);
            assert(views.take(i + 1).drop_last() =~= views.take(i as int));
            assert(views.take(i + 1).last() == entries@[i as int]@);
        }
        match validate_pn_stamp(entries[i].as_slice(), min_cost) {
            Some(entry) => {
                validated.push(entry);
                proof {
                    let grown = views.take(i + 1).filter(good);
                    assert(grown == kept.push(entries@[i as int]@));
                    assert forall|j: int| 0 <= j < grown.len() implies (
                    #[trigger] validated@[j]).is_split_of(grown[j]) by {
                        if j < kept.len() {
                            assert(validated@[j] == before[j]);
                            assert(grown[j] == kept[j]);
                        }
                    }
                }
            },
            None => {
                rejected = rejected + 1;
            },
        }
        i = i + 1;
    }
    assert(views.take(i as int) =~= views);
    (validated, rejected)
}

/// What the check of a transfer comes to.
pub open spec fn resource_outcome(
    data: Seq<u8>,
    allow_multiple: bool,
    max_transfer_bytes: usize,
    min_cost: u8,
) -> PnValidationOutcome {
    match wrapper_entries(data, max_transfer_bytes) {
        None => PnValidationOutcome::Failed,
        Some(entries) => if !allow_multiple && entries.len() > 1 {
            PnValidationOutcome::UnauthorizedMultiple
        } else if well_stamped(entries, min_cost).len() == entries.len() {
            PnValidationOutcome::Valid
        } else {
            PnValidationOutcome::InvalidStamp
        },
    }
}

/// The messages of a transfer that are taken in: those with a good stamp, none
/// where the sender may not send as many.
pub open spec fn resource_entries(
    data: Seq<u8>,
    allow_multiple: bool,
    max_transfer_bytes: usize,
    min_cost: u8,
) -> Seq<Seq<u8>> {
    match wrapper_entries(data, max_transfer_bytes) {
        None => Seq::empty(),
        Some(entries) => if !allow_multiple && entries.len() > 1 {
            Seq::empty()
        } else {
            well_stamped(entries, min_cost)
        },
    }
}

/// Checks a transfer.
pub fn validate_pn_resource_job(
    job: PnValidationJob,
    max_transfer_bytes: usize,
    min_cost: u8,
) -> (result: PnValidationWorkerResult)
    ensures
        result.token == job.token,
        result.link_id == job.link_id,
        result.outcome == resource_outcome(
            job.data@,
            job.allow_multiple,
            max_transfer_bytes,
            min_cost,
        ),
        are_split(
            result.entries@,
            resource_entries(job.data@, job.allow_multiple, max_transfer_bytes, min_cost),
        ),
        result.rejected == (match wrapper_entries(job.data@, max_transfer_bytes) {
            None => 0,
            Some(entries) => entries.len() - result.entries@.len(),
        }),
{
    let token: u64 = job.token;
    let link_id: DestinationHash = job.link_id;
    let entries = match unpack_propagation_wrapper_bounded(job.data.as_slice(), max_transfer_bytes) {
        Some(entries) => entries,
        None => {
            return PnValidationWorkerResult {
                token,
                link_id,
                outcome: PnValidationOutcome::Failed,
                entries: Vec::new(),
                rejected: 0,
            };
        },
    };
    assert(byte_views(entries@).len() == entries@.len());
    if !job.allow_multiple && entries.len() > 1 {
        return PnValidationWorkerResult {
            token,
            link_id,
            outcome: PnValidationOutcome::UnauthorizedMultiple,
            entries: Vec::new(),
            rejected: entries.len(),
        };
    }
    let (validated, rejected) = validate_entries(&entries, min_cost);
    PnValidationWorkerResult {
        token,
        link_id,
        outcome: if rejected == 0 {
            PnValidationOutcome::Valid
        } else {
            PnValidationOutcome::InvalidStamp
        },
        entries: validated,
        rejected,
    }
}

/// Checks a packet. One that holds no messages counts as one rejected message,
/// so that its link is closed.
pub fn validate_pn_packet_job(
    link_id: DestinationHash,
    data: Vec<u8>,
    max_transfer_bytes: usize,
    min_cost: u8,
) -> (result: PnPacketValidationWorkerResult)
    ensures
        result.link_id == link_id,
        match wrapper_entries(data@, max_transfer_bytes) {
            None => result.entries@.len() == 0 && result.rejected == 1,
            Some(entries) => are_split(result.entries@, well_stamped(entries, min_cost))
                && result.rejected == entries.len() - result.entries@.len(),
        },
{
    match unpack_propagation_wrapper_bounded(data.as_slice(), max_transfer_bytes) {
        Some(entries) => {
            assert(byte_views(entries@).len() == entries@.len());
            let (validated, rejected) = validate_entries(&entries, min_cost);
            PnPacketValidationWorkerResult { link_id, entries: validated, rejected }
        },
        None => PnPacketValidationWorkerResult { link_id, entries: Vec::new(), rejected: 1 },
    }
}

/// Whether a node takes a message that was checked.
pub open spec fn is_taken(node: NodeView, entry: ValidatedPnEntry) -> bool {
    blob_acceptable(
        node,
        entry.lxmf_data@,
        entry.lxmf_data@ + entry.stamp_data@,
        stored_value(entry.stamp_value as nat),
    ) && admits_hash(node, sha256_digest(entry.lxmf_data@))
}

/// `plans` came to be from `rest` when one more message was taken in or not.
pub open spec fn is_one_taken(
    before: NodeView,
    entry: ValidatedPnEntry,
    now: u64,
    after: NodeView,
    rest: Seq<(WritePlanView, u64)>,
    plans: Seq<(WritePlanView, u64)>,
) -> bool {
    if is_taken(before, entry) {
        &&& plans.len() == rest.len() + 1
        &&& plans.drop_last() == rest
        &&& plans.last().1 == entry.lxmf_data@.len()
        &&& is_blob_entry(
            plans.last().0.entry,
            entry.lxmf_data@,
            entry.lxmf_data@ + entry.stamp_data@,
            stored_value(entry.stamp_value as nat),
            now,
            true,
        )
        &&& is_reservation(
            before,
            after,
            plans.last().0,
            plans.last().0.entry,
            entry.lxmf_data@ + entry.stamp_data@,
        )
    } else {
        plans == rest && after == before
    }
}

/// `plans` are the writes for the messages that a node took in, one after the
/// other.
pub open spec fn is_intake(
    before: NodeView,
    entries: Seq<ValidatedPnEntry>,
    now: u64,
    after: NodeView,
    plans: Seq<(WritePlanView, u64)>,
) -> bool
    decreases entries.len(),
{
    if entries.len() == 0 {
        after == before && plans.len() == 0
    } else {
        exists|middle: NodeView, rest: Seq<(WritePlanView, u64)>| #[trigger]
            is_one_taken(middle, entries.last(), now, after, rest, plans) && is_intake(
                before,
                entries.drop_last(),
                now,
                middle,
                rest,
            )
    }
}

/// What planned writes say.
pub open spec fn plan_views(plans: Seq<(PropagationStoreWritePlan, u64)>) -> Seq<
    (WritePlanView, u64),
> {
    Seq::new(plans.len(), |i: int| (plans[i].0@, plans[i].1))
}

/// Has a node take in messages that were checked, and gives the writes for
/// those that it takes, each with the bytes it is counted with.
pub fn plan_validated_entries(
    node: &mut PropagationNode,
    entries: &Vec<ValidatedPnEntry>,
    now: u64,
) -> (plans: Vec<(PropagationStoreWritePlan, u64)>)
    requires
        old(node)@.wf(),
    ensures
        final(node)@.wf(),
        is_intake(old(node)@, entries@, now, final(node)@, plan_views(plans@)),
{
    let mut plans: Vec<(PropagationStoreWritePlan, u64)> = Vec::new();
    let mut i: usize = 0;
    assert(plan_views(plans@).len() == 0);
    assert(entries@.take(0).len() == 0);
    while i < entries.len()
        invariant
            i <= entries@.len(),
            node@.wf(),
            is_intake(old(node)@, entries@.take(i as int), now, node@, plan_views(plans@)),
        decreases entries@.len() - i,
    {
        let ghost middle = node@;
        let ghost rest = plan_views(plans@);
        let entry = &entries[i];
        proof {
            assert(entries@.take(i + 1).drop_last() =~= entries@.take(i as int));
            assert(entries@.take(i + 1).last() == *entry);
        }
        let stamp_value: u8 = stored_stamp_value(entry.stamp_value);
        match node.plan_accept_stamped_propagated_blob(
            entry.lxmf_data.as_slice(),
            &entry.stamp_data,
            stamp_value,
            now,
        ) {
            Some(plan) => {
                let ghost planned = plan@;
                plans.push((plan, entry.lxmf_data.len() as u64));
                proof {
                    assert(middle.admits(planned.entry.transient_id));
                    assert(is_taken(middle, *entry));
                    assert(plan_views(plans@).drop_last() =~= rest);
                }
            },
            None => {
                assert(!is_taken(middle, *entry));
            },
        }
        proof {
            assert(is_one_taken(middle, *entry, now, node@, rest, plan_views(plans@)));
            assert(is_intake(old(node)@, entries@.take(i + 1).drop_last(), now, middle, rest));
            assert(is_intake(old(node)@, entries@.take(i + 1), now, node@, plan_views(plans@)));
        }
        i = i + 1;
    }
    assert(entries@.take(i as int) =~= entries@);
    plans
}

/// Encodes the answer to an offer that was evaluated. `refused` is the answer in
/// its place where the offer was evaluated but cannot be noted.
pub fn conclude_pn_offer(
    evaluation: Result<PnOfferEvaluation, PnOfferEvaluationError>,
    refused: Option<OfferResponse>,
) -> (data: Vec<u8>)
    ensures
        data@ == msgpack_encoded(
            response_wire(
                match evaluation {
                    Err(error) => error.wire_response_spec(),
                    Ok(evaluation) => match refused {
                        Some(response) => response@,
                        None => evaluation.response(),
                    },
                },
            ),
        ),
{
    let response: OfferResponse = match evaluation {
        Err(error) => error.wire_response(),
        Ok(evaluation) => match refused {
            Some(response) => response,
            None => evaluation.into_wire_response(),
        },
    };
    PropagationNode::encode_offer_response(&response)
}

/// What is to be done with a packet from a client.
#[derive(Debug)]
pub enum PacketIntake {
    /// Nothing: its link is shut off, or there is no store.
    Dropped,
    /// It is to be checked.
    Check(PnPacketValidationJob),
}

/// The least value of a stamp that is taken.
pub open spec fn least_cost(cost: u8, flexibility: u8) -> u8 {
    if cost < flexibility {
        0
    } else {
        (cost - flexibility) as u8
    }
}

/// Takes a packet from a client.
pub fn take_propagation_packet(
    quarantined: bool,
    has_store: bool,
    link_id: DestinationHash,
    data: &[u8],
    propagation_limit_kb: usize,
    stamp_cost: u8,
    stamp_flexibility: u8,
) -> (intake: PacketIntake)
    ensures
        match intake {
            PacketIntake::Dropped => quarantined || !has_store,
            PacketIntake::Check(job) => {
                &&& !quarantined && has_store
                &&& job.link_id == link_id && job.data@ == data@
                &&& job.max_transfer_bytes == bytes_in(propagation_limit_kb)
                &&& job.min_cost == least_cost(stamp_cost, stamp_flexibility)
            },
        },
{
    if quarantined || !has_store {
        return PacketIntake::Dropped;
    }
    PacketIntake::Check(
        PnPacketValidationJob {
            link_id,
            data: copy_bytes(data),
            max_transfer_bytes: configured_kilobytes_to_bytes(propagation_limit_kb),
            min_cost: stamp_cost.saturating_sub(stamp_flexibility),
        },
    )
}

/// Bytes in kilobytes, as far as they can be counted.
pub open spec fn bytes_in(kilobytes: usize) -> usize {
    if kilobytes * BYTES_PER_KILOBYTE > usize::MAX {
        usize::MAX
    } else {
        (kilobytes * BYTES_PER_KILOBYTE) as usize
    }
}

/// Converts a limit in kilobytes into bytes.
pub fn configured_kilobytes_to_bytes(kilobytes: usize) -> (bytes: usize)
    ensures
        bytes == bytes_in(kilobytes),
{
    match kilobytes.checked_mul(BYTES_PER_KILOBYTE) {
        Some(bytes) => bytes,
        None => usize::MAX,
    }
}

/// Why a packet cannot be checked now.
#[derive(Debug, Clone, Copy, PartialEq, Eq, Structural)]
pub enum PnPacketValidationEnqueueError {
    /// Too many packets wait; the link is to be closed.
    Overloaded,
    /// Nobody checks packets any more.
    Closed,
}

/// Most packets that may wait to be checked.
pub const PN_PACKET_VALIDATION_QUEUE_DEPTH: usize = 256;

/// Lets a packet wait to be checked. `free` is the room that the queue has,
/// none where nobody reads it.
pub fn enqueue_pn_packet_validation(
    jobs: &mut Vec<PnPacketValidationJob>,
    free: Option<usize>,
    job: PnPacketValidationJob,
) -> (queued: Result<(), PnPacketValidationEnqueueError>)
    ensures
        match free {
            None => queued == Result::<(), _>::Err(PnPacketValidationEnqueueError::Closed)
                && final(jobs)@ == old(jobs)@,
            Some(free) => if free == 0 {
                queued == Result::<(), _>::Err(PnPacketValidationEnqueueError::Overloaded)
                    && final(jobs)@ == old(jobs)@
            } else {
                queued is Ok && final(jobs)@ == old(jobs)@.push(job)
            },
        },
{
    match free {
        None => Err(PnPacketValidationEnqueueError::Closed),
        Some(free) => {
            if free == 0 {
                return Err(PnPacketValidationEnqueueError::Overloaded);
            }
            jobs.push(job);
            Ok(())
        },
    }
}

/// The bytes that a message is unpacked from: the address that they are for,
/// followed by the message.
pub open spec fn addressed(data: Seq<u8>, own: DestinationHash) -> Seq<u8> {
    if data.len() >= 16 && data.take(16) == own@ {
        data
    } else {
        own@ + data
    }
}

/// Puts the address in front of a message that was sent without it.
pub fn address_inbound(data: &[u8], own: &DestinationHash) -> (full: Vec<u8>)
    ensures
        full@ == addressed(data@, *own),
{
    if is_addressed(data, own) {
        return copy_bytes(data);
    }
    let mut full = copy_bytes(own);
    append_bytes(&mut full, data);
    full
}

/// Tells whether bytes start with an address.
pub fn is_addressed(data: &[u8], own: &DestinationHash) -> (starts: bool)
    ensures
        starts == (data@.len() >= 16 && data@.take(16) == own@),
{
    if data.len() < 16 {
        return false;
    }
    let lead = crate::ids::leading_id::<16>(data);
    let same: bool = crate::ids::same_id(&lead, own);
    proof {
        if lead@ == own@ {
            crate::ids::lemma_id_from_view(lead, *own);
        }
    }
    same
}

/// What speaks for and against a message that came in.
#[derive(Debug, Clone, Copy)]
pub struct InboundFacts {
    /// Its source is shut out.
    pub source_blackholed: bool,
    /// Its signature was checked with the key of its source, and whether it is
    /// good; none where the source is not known.
    pub signature: Option<bool>,
    pub has_stamp: bool,
    pub has_id: bool,
    /// Its stamp is worth what is asked for, or a ticket stands in for it.
    pub stamp_good: bool,
}

/// Why a message that came in is not delivered.
#[derive(Debug, Clone, Copy, PartialEq, Eq, Structural)]
pub enum InboundVerdict {
    Deliver,
    Blackholed,
    BadSignature,
    NoStamp,
    NoId,
    BadStamp,
}

/// What stamps are asked for.
#[derive(Debug, Clone, Copy)]
pub struct StampPolicy {
    pub enforce_stamps: bool,
    pub stamp_cost: Option<u8>,
}

impl StampPolicy {
    /// The value that a stamp must have, where one is asked for.
    pub open spec fn required(self) -> Option<u8> {
        match self.stamp_cost {
            Some(cost) => if self.enforce_stamps && cost > 0 {
                Some(cost)
            } else {
                None
            },
            None => None,
        }
    }

    /// The value that a stamp must have, where one is asked for.
    pub fn required_cost(&self) -> (cost: Option<u8>)
        ensures
            cost == self.required(),
    {
        match self.stamp_cost {
            Some(cost) => if self.enforce_stamps && cost > 0 {
                Some(cost)
            } else {
                None
            },
            None => None,
        }
    }
}

/// Whether a message that came in is delivered. A source that is not known is
/// taken on trust; a bad signature of a known one never is.
pub open spec fn verdict_on(facts: InboundFacts, policy: StampPolicy) -> InboundVerdict {
    if facts.source_blackholed {
        InboundVerdict::Blackholed
    } else if facts.signature == Some(false) {
        InboundVerdict::BadSignature
    } else if policy.required() is None {
        InboundVerdict::Deliver
    } else if !facts.has_stamp {
        InboundVerdict::NoStamp
    } else if !facts.has_id {
        InboundVerdict::NoId
    } else if !facts.stamp_good {
        InboundVerdict::BadStamp
    } else {
        InboundVerdict::Deliver
    }
}

/// Decides whether a message that came in is delivered.
pub fn judge_inbound(facts: &InboundFacts, policy: &StampPolicy) -> (verdict: InboundVerdict)
    ensures
        verdict == verdict_on(*facts, *policy),
{
    if facts.source_blackholed {
        return InboundVerdict::Blackholed;
    }
    if should_reject_for_signature(facts) {
        return InboundVerdict::BadSignature;
    }
    should_reject_for_stamp(facts, policy)
}

/// The key that signatures of a source are checked with, where the source is
/// known.
pub open spec fn source_key(
    known: Map<DestinationHash, Seq<u8>>,
    source: DestinationHash,
) -> Option<[u8; 32]> {
    if known.contains_key(source) {
        Some(signing_key(known[source]))
    } else {
        None
    }
}

/// Looks up the key that signatures of a source are checked with: the Ed25519
/// half of what is known of it.
pub fn signing_key_of(known: &KnownIdentities, source: &DestinationHash) -> (key: Option<
    [u8; 32],
>)
    ensures
        key == source_key(known@, *source),
{
    match known.get(source) {
        Some(public_key) => Some(signing_half(public_key)),
        None => None,
    }
}

/// What checking a signature with the key of its source came to.
#[derive(Debug, Clone, Copy, PartialEq, Eq, Structural)]
pub enum SignatureCheck {
    /// The key is no key.
    InvalidKey,
    /// The signature is not the source's.
    Bad,
    Good,
}

/// What a check says of a signature, for [`InboundFacts::signature`]: nothing
/// where there was no key to check with, and against it where the key is none.
pub fn signature_fact(check: Option<SignatureCheck>) -> (fact: Option<bool>)
    ensures
        fact == (match check {
            Some(check) => Some(check is Good),
            None => None::<bool>,
        }),
{
    match check {
        Some(SignatureCheck::Good) => Some(true),
        Some(_) => Some(false),
        None => None,
    }
}

/// Tells whether the signature of a message speaks against it.
pub fn should_reject_for_signature(facts: &InboundFacts) -> (reject: bool)
    ensures
        reject == (facts.signature == Some(false)),
{
    match facts.signature {
        Some(good) => !good,
        None => false,
    }
}

/// Decides by its stamp whether a message is delivered.
pub fn should_reject_for_stamp(facts: &InboundFacts, policy: &StampPolicy) -> (verdict:
    InboundVerdict)
    ensures
        verdict == verdict_on(
            InboundFacts { source_blackholed: false, signature: None, ..*facts },
            *policy,
        ),
{
    if policy.required_cost().is_none() {
        return InboundVerdict::Deliver;
    }
    if !facts.has_stamp {
        return InboundVerdict::NoStamp;
    }
    if !facts.has_id {
        return InboundVerdict::NoId;
    }
    if !facts.stamp_good {
        return InboundVerdict::BadStamp;
    }
    InboundVerdict::Deliver
}

/// Valid messages of a transfer are kept though others are not.
pub proof fn law_valid_siblings_are_kept(
    data: Seq<u8>,
    max_transfer_bytes: usize,
    min_cost: u8,
    entries: Seq<Seq<u8>>,
    i: int,
)
    requires
        wrapper_entries(data, max_transfer_bytes) == Some(entries),
        0 <= i < entries.len(),
        pn_stamp_valid(entries[i], min_cost),
    ensures
        resource_entries(data, true, max_transfer_bytes, min_cost).contains(entries[i]),
{
    lemma_kept(entries, min_cost, i);
}

/// Nothing with a bad stamp is taken in.
pub proof fn law_bad_stamps_are_refused(
    data: Seq<u8>,
    allow_multiple: bool,
    max_transfer_bytes: usize,
    min_cost: u8,
    entry: Seq<u8>,
)
    requires
        resource_entries(data, allow_multiple, max_transfer_bytes, min_cost).contains(entry),
    ensures
        pn_stamp_valid(entry, min_cost),
{
    if let Some(entries) = wrapper_entries(data, max_transfer_bytes) {
        lemma_kept_is_good(entries, min_cost, entry);
    }
}

proof fn lemma_kept(entries: Seq<Seq<u8>>, min_cost: u8, i: int)
    requires
        0 <= i < entries.len(),
        pn_stamp_valid(entries[i], min_cost),
    ensures
        well_stamped(entries, min_cost).contains(entries[i]),
    decreases entries.len(),
{
    reveal(Seq::filter);
    let rest = entries.drop_last();
    if i < rest.len() {
        lemma_kept(rest, min_cost, i);
        let kept = well_stamped(rest, min_cost);
        let k = choose|k: int| 0 <= k < kept.len() && kept[k] == entries[i];
        assert(well_stamped(entries, min_cost)[k] == entries[i]);
    } else {
        let kept = well_stamped(rest, min_cost);
        assert(well_stamped(entries, min_cost)[kept.len() as int] == entries[i]);
    }
}

proof fn lemma_kept_is_good(entries: Seq<Seq<u8>>, min_cost: u8, entry: Seq<u8>)
    requires
        well_stamped(entries, min_cost).contains(entry),
    ensures
        pn_stamp_valid(entry, min_cost),
    decreases entries.len(),
{
    reveal(Seq::filter);
    if entries.len() > 0 {
        let rest = entries.drop_last();
        let kept = well_stamped(rest, min_cost);
        let all = well_stamped(entries, min_cost);
        let k = choose|k: int| 0 <= k < all.len() && all[k] == entry;
        if k < kept.len() {
            assert(kept[k] == entry);
            lemma_kept_is_good(rest, min_cost, entry);
        }
    }
}

/// A message with a bad signature of a known source is never delivered, and one
/// without a good stamp is not while stamps are asked for.
pub proof fn law_delivered_is_vouched_for(facts: InboundFacts, policy: StampPolicy)
    requires
        verdict_on(facts, policy) is Deliver,
    ensures
        !facts.source_blackholed,
        facts.signature != Some(false),
        policy.required() is Some ==> facts.has_stamp && facts.stamp_good,
{
}

} // verus!
