//! What becomes of messages that came in and were checked.

use vstd::prelude::*;
use crate::daemon::accounts::PropagationStoreWriteOrigin;
use crate::daemon::intake::{
    address_inbound, is_addressed, plan_validated_entries, PnPacketValidationWorkerResult,
    PnValidationWorkerResult,
};
#[allow(unused_imports)]
use crate::daemon::intake::{addressed, is_intake, plan_views};
use crate::ids::{append_bytes, copy_bytes, DestinationHash, PropagationTransientId};
use crate::node::{LxMessage, PropagationNode, PropagationStoreWritePlan};
#[allow(unused_imports)]
use crate::node::{
    is_reservation, message_acceptable, message_entry, NodeView, PersistedView, WritePlanView,
};
use crate::stamper::full_hash;
#[allow(unused_imports)]
use crate::stamper::sha256_digest;
#[allow(unused_imports)]
use crate::store::holds;

verus! {

/// The write of a plan was done, or there was nothing to write.
pub open spec fn is_durable(plan: WritePlanView, written: bool) -> bool {
    plan.path is None || written
}

/// The node after a planned write ended.
pub open spec fn settled(node: NodeView, plan: WritePlanView, written: bool) -> NodeView {
    if is_durable(plan, written) {
        node.committed(PersistedView { entry: plan.entry, path: plan.path })
    } else {
        node.released(plan.entry.transient_id, plan.entry.size)
    }
}

/// The node after planned writes ended, one after the other, and the messages
/// that are stored by it, each with the bytes it is counted with.
pub open spec fn all_settled(
    node: NodeView,
    plans: Seq<(WritePlanView, u64)>,
    written: Seq<bool>,
) -> (NodeView, Seq<(PropagationTransientId, u64)>)
    decreases plans.len(),
{
    if plans.len() == 0 {
        (node, Seq::empty())
    } else {
        let (middle, rest) = all_settled(node, plans.drop_last(), written.drop_last());
        let (plan, bytes) = plans.last();
        (
            settled(middle, plan, written.last()),
            if is_durable(plan, written.last()) && middle.commits(plan.entry) {
                rest.push((plan.entry.transient_id, bytes))
            } else {
                rest
            },
        )
    }
}

/// Settles planned writes by whether each file could be written. Gives the
/// messages that are stored by it, each with the bytes it is counted with.
pub fn settle_store_writes(
    node: &mut PropagationNode,
    plans: Vec<(PropagationStoreWritePlan, u64)>,
    written: &Vec<bool>,
) -> (committed: Vec<(PropagationTransientId, u64)>)
    requires
        old(node)@.wf(),
        written@.len() == plans@.len(),
    ensures
        final(node)@.wf(),
        (final(node)@, committed@) == all_settled(old(node)@, plan_views(plans@), written@),
{
    let ghost all = plan_views(plans@);
    let ghost answers = written@;
    let ghost start = node@;
    let mut left: Vec<(PropagationStoreWritePlan, u64)> = plans;
    let mut committed: Vec<(PropagationTransientId, u64)> = Vec::new();
    let mut i: usize = 0;
    assert(all.take(0).len() == 0);
    assert(all.skip(0) =~= all);
    while i < written.len()
        invariant
            i <= written@.len(),
            written@ == answers,
            all.len() == answers.len(),
            node@.wf(),
            left@.len() == all.len() - i,
            plan_views(left@) == all.skip(i as int),
            (node@, committed@) == all_settled(start, all.take(i as int), answers.take(i as int)),
        decreases written@.len() - i,
    {
        proof {
            assert(all.take(i + 1).drop_last() =~= all.take(i as int));
            assert(answers.take(i + 1).drop_last() =~= answers.take(i as int));
            assert(all.take(i + 1).last() == all.skip(i as int)[0]);
            assert(answers.take(i + 1).last() == answers[i as int]);
        }
        let ghost before = left@;
        let (plan, bytes) = left.remove(0);
        proof {
            assert(plan_views(left@) =~= plan_views(before).skip(1));
            assert(all.skip(i as int).skip(1) =~= all.skip(i + 1));
            assert(plan_views(before)[0] == (plan@, bytes));
        }
        let transient_id: PropagationTransientId = plan.transient_id();
        let size: usize = plan.size();
        match plan.persist(written[i]) {
            Ok(persisted) => {
                if node.commit_store_write(persisted) {
                    committed.push((transient_id, bytes));
                }
            },
            Err(_) => {
                node.abort_store_write(&transient_id, size);
            },
        }
        i = i + 1;
    }
    proof {
        assert(all.take(i as int) =~= all);
        assert(answers.take(i as int) =~= answers);
    }
    committed
}

/// Messages that are to be written, where they came from, and the link that is
/// to be closed on their account.
#[derive(Debug)]
pub struct Ingress {
    pub origin: PropagationStoreWriteOrigin,
    pub plans: Vec<(PropagationStoreWritePlan, u64)>,
    pub close_link: Option<DestinationHash>,
}

/// A transfer that is waited for: its link, the peer that it comes from where
/// it is one, and whether its outcome shuts the link.
#[derive(Debug, Clone, Copy)]
pub struct ValidationClaim {
    pub link_id: DestinationHash,
    pub peer_destination_hash: Option<DestinationHash>,
    pub should_close_link: bool,
}

/// Takes in the messages of a transfer that was checked. Nothing is taken from
/// one that is not waited for any more.
pub fn handle_propagation_validation_result(
    node: &mut PropagationNode,
    claim: Option<ValidationClaim>,
    result: &PnValidationWorkerResult,
    now: u64,
) -> (ingress: Option<Ingress>)
    requires
        old(node)@.wf(),
    ensures
        final(node)@.wf(),
        match (claim, ingress) {
            (None, ingress) => ingress is None && final(node)@ == old(node)@,
            (Some(claim), Some(ingress)) => {
                &&& ingress.origin == (match claim.peer_destination_hash {
                    Some(peer_hash) => PropagationStoreWriteOrigin::Peer(peer_hash),
                    None => PropagationStoreWriteOrigin::Client,
                })
                &&& is_intake(
                    old(node)@,
                    result.entries@,
                    now,
                    final(node)@,
                    plan_views(ingress.plans@),
                )
                &&& ingress.close_link == (if claim.should_close_link {
                    Some(claim.link_id)
                } else {
                    None
                })
            },
            (Some(_), None) => false,
        },
{
    match claim {
        None => None,
        Some(claim) => {
            let origin = match claim.peer_destination_hash {
                Some(peer_hash) => PropagationStoreWriteOrigin::Peer(peer_hash),
                None => PropagationStoreWriteOrigin::Client,
            };
            let plans = plan_validated_entries(node, &result.entries, now);
            let close_link: Option<DestinationHash> = if claim.should_close_link {
                Some(claim.link_id)
            } else {
                None
            };
            Some(Ingress { origin, plans, close_link })
        },
    }
}

/// Takes in the messages of a packet from a client that was checked. The link
/// is shut if any of them was refused.
pub fn handle_propagation_packet_validation_result(
    node: &mut PropagationNode,
    result: &PnPacketValidationWorkerResult,
    now: u64,
) -> (ingress: Ingress)
    requires
        old(node)@.wf(),
    ensures
        final(node)@.wf(),
        ingress.origin is Client,
        is_intake(old(node)@, result.entries@, now, final(node)@, plan_views(ingress.plans@)),
        ingress.close_link == (if result.rejected > 0 {
            Some(result.link_id)
        } else {
            None
        }),
{
    let plans = plan_validated_entries(node, &result.entries, now);
    let close_link: Option<DestinationHash> = if result.rejected > 0 {
        Some(result.link_id)
    } else {
        None
    };
    Ingress { origin: PropagationStoreWriteOrigin::Client, plans, close_link }
}

/// Takes in a message that was delivered here, so that peers can have it too.
/// Nothing is taken of one that was delivered before.
pub fn handle_inbound_message(
    node: &mut PropagationNode,
    message: &LxMessage,
    fresh: bool,
) -> (ingress: Option<Ingress>)
    requires
        old(node)@.wf(),
    ensures
        final(node)@.wf(),
        match ingress {
            Some(ingress) => {
                &&& fresh && message_acceptable(old(node)@, *message)
                &&& ingress.origin is LocalDelivery && ingress.close_link is None
                &&& ingress.plans@.len() == 1
                &&& ingress.plans@[0].1 == message.packed->0@.len()
                &&& is_reservation(
                    old(node)@,
                    final(node)@,
                    ingress.plans@[0].0@,
                    message_entry(*message),
                    message.packed->0@,
                )
            },
            None => final(node)@ == old(node)@ && !(fresh && message_acceptable(old(node)@, *message)
                && old(node)@.admits(message_entry(*message).transient_id)),
        },
{
    if !fresh {
        return None;
    }
    match node.plan_accept_message(message) {
        Some(plan) => {
            let bytes: u64 = plan.size() as u64;
            let mut plans: Vec<(PropagationStoreWritePlan, u64)> = Vec::new();
            plans.push((plan, bytes));
            Some(
                Ingress {
                    origin: PropagationStoreWriteOrigin::LocalDelivery,
                    plans,
                    close_link: None,
                },
            )
        },
        None => None,
    }
}

/// The bytes that a message from a link is unpacked from; there are none where
/// nothing came.
pub fn handle_link_delivered_data(data: &[u8], own: &DestinationHash) -> (full: Option<Vec<u8>>)
    ensures
        match full {
            Some(full) => data@.len() > 0 && full@ == addressed(data@, *own),
            None => data@.len() == 0,
        },
{
    if data.len() == 0 {
        return None;
    }
    Some(address_inbound(data, own))
}

/// A message that was downloaded: the bytes it is unpacked from, and the
/// identifier it is known by.
#[derive(Debug)]
pub struct DownloadedMessage {
    pub data: Vec<u8>,
    pub transient_id: PropagationTransientId,
}

/// Takes a message that was downloaded. `plaintext` is what decrypting it
/// behind its address gave. What cannot be decrypted, or is for another, is
/// taken as it stands.
pub fn handle_propagation_downloaded_data(
    data: &[u8],
    own: &DestinationHash,
    plaintext: Option<&[u8]>,
) -> (message: Option<DownloadedMessage>)
    ensures
        match message {
            Some(message) => {
                &&& data@.len() >= 16
                &&& message.transient_id@ == sha256_digest(data@)
                &&& message.data@ == (match plaintext {
                    Some(plaintext) => if data@.take(16) == own@ {
                        own@ + plaintext@
                    } else {
                        data@
                    },
                    None => data@,
                })
            },
            None => data@.len() < 16,
        },
{
    if data.len() < 16 {
        return None;
    }
    let transient_id: PropagationTransientId = full_hash(data);
    if is_addressed(data, own) {
        if let Some(plaintext) = plaintext {
            let mut full: Vec<u8> = copy_bytes(own);
            append_bytes(&mut full, plaintext);
            return Some(DownloadedMessage { data: full, transient_id });
        }
    }
    Some(DownloadedMessage { data: copy_bytes(data), transient_id })
}

/// What is in the store stays there while writes end.
proof fn lemma_settled_keeps(
    node: NodeView,
    plan: WritePlanView,
    written: bool,
    id: PropagationTransientId,
)
    requires
        holds(node.store.entries, id),
    ensures
        holds(settled(node, plan, written).store.entries, id),
{
    let after = settled(node, plan, written).store.entries;
    let i = choose|i: int|
        0 <= i < node.store.entries.len() && node.store.entries[i].transient_id == id;
    assert(after[i].transient_id == id);
}

/// Every message that is counted as stored is in the store.
pub proof fn law_counted_is_stored(
    node: NodeView,
    plans: Seq<(WritePlanView, u64)>,
    written: Seq<bool>,
    i: int,
)
    requires
        written.len() == plans.len(),
        0 <= i < all_settled(node, plans, written).1.len(),
    ensures
        holds(
            all_settled(node, plans, written).0.store.entries,
            all_settled(node, plans, written).1[i].0,
        ),
    decreases plans.len(),
{
    if plans.len() > 0 {
        let (middle, rest) = all_settled(node, plans.drop_last(), written.drop_last());
        let plan = plans.last().0;
        let (after, committed) = all_settled(node, plans, written);
        if i < rest.len() {
            law_counted_is_stored(node, plans.drop_last(), written.drop_last(), i);
            lemma_settled_keeps(middle, plan, written.last(), rest[i].0);
        } else {
            let k = middle.store.entries.len() as int;
            assert(after.store.entries[k].transient_id == plan.entry.transient_id);
        }
    }
}

/// Once its write ended, well or not, nothing is reserved for a message any
/// more.
pub proof fn law_ended_writes_are_released(
    node: NodeView,
    plans: Seq<(WritePlanView, u64)>,
    written: Seq<bool>,
    i: int,
)
    requires
        written.len() == plans.len(),
        0 <= i < plans.len(),
    ensures
        !all_settled(node, plans, written).0.pending_ids.contains(plans[i].0.entry.transient_id),
    decreases plans.len(),
{
    if i < plans.len() - 1 {
        law_ended_writes_are_released(node, plans.drop_last(), written.drop_last(), i);
    }
}

} // verus!
