//! Queues between the daemon and the transport.

use std::collections::VecDeque;
use vstd::prelude::*;
use crate::ids::DestinationHash;
use crate::tables::PeerMap;
use crate::transport::{flush, hand_over, Mailbox};
#[allow(unused_imports)]
use crate::transport::{
    flushed_mailbox, flushed_pending, handed, mailbox_after, pending_after, views, MailboxView,
};

verus! {

/// Depth from which on a queue that loses nothing is worth a warning.
pub const LOSSLESS_QUEUE_WARN_DEPTH: usize = 1024;

/// What is worth saying about the depth of a queue.
#[derive(Debug, Clone, Copy, PartialEq, Eq, Structural)]
pub enum DepthNotice {
    /// Nothing: it was deeper before.
    Quiet,
    /// It was never as deep.
    Record,
    /// It was never as deep, and that is worth a warning.
    Warning,
}

/// Notes the depth of a queue. The mark only moves up.
pub fn observe_lossless_queue_depth(
    queue: &'static str,
    depth: usize,
    high_water: &mut usize,
) -> (notice: DepthNotice)
    ensures
        *final(high_water) == (if depth > *old(high_water) {
            depth
        } else {
            *old(high_water)
        }),
        notice == (if depth <= *old(high_water) {
            DepthNotice::Quiet
        } else if depth >= LOSSLESS_QUEUE_WARN_DEPTH {
            DepthNotice::Warning
        } else {
            DepthNotice::Record
        }),
{
    if depth <= *high_water {
        return DepthNotice::Quiet;
    }
    *high_water = depth;
    if depth >= LOSSLESS_QUEUE_WARN_DEPTH {
        DepthNotice::Warning
    } else {
        DepthNotice::Record
    }
}

/// Announces that are required, the newest for each destination.
#[derive(Debug)]
pub struct AnnounceMailbox<A> {
    pending: PeerMap<A>,
}

impl<A: View> View for AnnounceMailbox<A> {
    type V = Map<DestinationHash, A::V>;

    closed spec fn view(&self) -> Map<DestinationHash, A::V> {
        self.pending@
    }
}

/// What announces say.
pub open spec fn announce_views<A: View>(announces: Seq<(DestinationHash, A)>) -> Seq<
    (DestinationHash, A::V),
> {
    Seq::new(announces.len(), |i: int| (announces[i].0, announces[i].1@))
}

/// `list` holds each announce of the mailbox once.
pub open spec fn is_listing<V>(
    mailbox: Map<DestinationHash, V>,
    list: Seq<(DestinationHash, V)>,
) -> bool {
    &&& forall|i: int, j: int|
        0 <= i < j < list.len() ==> (#[trigger] list[i]).0 != (#[trigger] list[j]).0
    &&& forall|i: int|
        0 <= i < list.len() ==> mailbox.contains_key((#[trigger] list[i]).0)
            && mailbox[list[i].0] == list[i].1
    &&& forall|key: DestinationHash| #[trigger]
        mailbox.contains_key(key) ==> exists|i: int|
            0 <= i < list.len() && (#[trigger] list[i]).0 == key
}

impl<A: View> AnnounceMailbox<A> {
    /// No announce is required.
    pub fn new() -> (mailbox: Self)
        ensures
            mailbox@ == Map::<DestinationHash, A::V>::empty(),
    {
        AnnounceMailbox { pending: PeerMap::new() }
    }

    /// Requires an announce. An older one for the same destination is
    /// superseded.
    pub fn stage(&mut self, destination_hash: DestinationHash, message: A)
        ensures
            final(self)@ == old(self)@.insert(destination_hash, message@),
    {
        self.pending.insert(destination_hash, message);
    }

    /// Takes the announces out.
    pub fn take_pending(&mut self) -> (announces: Vec<(DestinationHash, A)>)
        ensures
            final(self)@ == Map::<DestinationHash, A::V>::empty(),
            is_listing(old(self)@, announce_views(announces@)),
    {
        let keys = self.pending.keys();
        let ghost all = self@;
        let mut announces: Vec<(DestinationHash, A)> = Vec::new();
        let mut i: usize = 0;
        while i < keys.len()
            invariant
                i <= keys@.len(),
                keys@.no_duplicates(),
                forall|key: DestinationHash| #[trigger]
                    keys@.contains(key) <==> all.contains_key(key),
                announces@.len() == i,
                forall|j: int|
                    0 <= j < i ==> (#[trigger] announces@[j]).0 == keys@[j] && announces@[j].1@
                        == all[keys@[j]],
                forall|key: DestinationHash|
                    #![trigger self@.contains_key(key)]
                    self@.contains_key(key) <==> all.contains_key(key) && !keys@.take(
                        i as int,
                    ).contains(key),
                forall|key: DestinationHash|
                    #![trigger self@[key]]
                    self@.contains_key(key) ==> self@[key] == all[key],
            decreases keys@.len() - i,
        {
            let key: DestinationHash = keys[i];
            let ghost taken = keys@.take(i as int);
            let ghost grown = keys@.take(i + 1);
            let ghost before = self@;
            proof {
                assert(keys@.contains(key));
                assert(grown =~= taken.push(key));
                assert(!taken.contains(key)) by {
                    if taken.contains(key) {
                        let j = choose|j: int| 0 <= j < taken.len() && taken[j] == key;
                        assert(keys@[j] == keys@[i as int]);
                    }
                }
                assert(before.contains_key(key));
                assert forall|other: DestinationHash| #[trigger] grown.contains(other)
                    <==> taken.contains(other) || other == key by {
                    if taken.contains(other) {
                        let j = choose|j: int| 0 <= j < taken.len() && taken[j] == other;
                        assert(grown[j] == other);
                    }
                    assert(grown[i as int] == key);
                }
            }
            if let Some(message) = self.pending.take(&key) {
                announces.push((key, message));
            }
            i = i + 1;
        }
        proof {
            assert(keys@.take(i as int) =~= keys@);
            assert(self@ =~= Map::empty());
            let list = announce_views(announces@);
            assert forall|a: int, b: int| 0 <= a < b < list.len() implies (#[trigger] list[a]).0
                != (#[trigger] list[b]).0 by {
                assert(announces@[a].0 == keys@[a] && announces@[b].0 == keys@[b]);
            }
            assert forall|a: int| 0 <= a < list.len() implies all.contains_key(
                (#[trigger] list[a]).0,
            ) && all[list[a].0] == list[a].1 by {
                assert(announces@[a].0 == keys@[a]);
                assert(keys@.contains(keys@[a]));
            }
            assert forall|key: DestinationHash| #[trigger] all.contains_key(key) implies exists|
                a: int,
            | 0 <= a < list.len() && (#[trigger] list[a]).0 == key by {
                assert(keys@.contains(key));
                let a = choose|a: int| 0 <= a < keys@.len() && keys@[a] == key;
                assert(announces@[a].0 == keys@[a]);
                assert(list[a].0 == key);
            }
        }
        announces
    }

    /// How many destinations have an announce required.
    pub fn pending_len(&self) -> (len: usize)
        ensures
            len == self@.dom().len(),
    {
        let keys = self.pending.keys();
        proof {
            keys@.unique_seq_to_set();
            assert forall|key: DestinationHash| #[trigger] keys@.to_set().contains(key)
                <==> self@.dom().contains(key) by {
                assert(keys@.contains(key) <==> self.pending@.contains_key(key));
            }
            assert(keys@.to_set() =~= self@.dom());
        }
        keys.len()
    }
}

/// Most messages that may wait for the transport.
pub const RUNTIME_TRANSPORT_LIMIT: usize = 1024;

/// The daemon's messages to the transport.
#[derive(Debug)]
pub struct RuntimeQueue<M> {
    pending: VecDeque<M>,
}

impl<M: View> View for RuntimeQueue<M> {
    type V = Seq<M::V>;

    closed spec fn view(&self) -> Seq<M::V> {
        views(self.pending@)
    }
}

/// A message is not lost now.
pub open spec fn is_kept<V>(pending: Seq<V>, mailbox: MailboxView<V>) -> bool {
    handed(pending, mailbox, RUNTIME_TRANSPORT_LIMIT).kept_spec()
}

impl<M: View> RuntimeQueue<M> {
    /// Nothing waits.
    pub fn new() -> (queue: Self)
        ensures
            queue@ == Seq::<M::V>::empty(),
    {
        let queue = RuntimeQueue { pending: VecDeque::new() };
        assert(queue@ =~= Seq::empty());
        queue
    }

    /// Hands a message to the transport, or lets it wait behind others. Gives
    /// it back where too many wait or the transport is gone.
    pub fn queue_runtime_transport_recoverable(
        &mut self,
        mailbox: &mut Mailbox<M>,
        message: M,
    ) -> (refused: Option<M>)
        ensures
            match refused {
                Some(refused) => !is_kept(old(self)@, old(mailbox)@) && refused == message
                    && final(self)@ == old(self)@ && final(mailbox)@ == old(mailbox)@,
                None => is_kept(old(self)@, old(mailbox)@) && final(self)@ == pending_after(
                    old(self)@,
                    old(mailbox)@,
                    RUNTIME_TRANSPORT_LIMIT,
                    message@,
                ) && final(mailbox)@ == mailbox_after(
                    old(self)@,
                    old(mailbox)@,
                    RUNTIME_TRANSPORT_LIMIT,
                    message@,
                ),
            },
    {
        let kept: bool = if self.pending.len() > 0 {
            self.pending.len() < RUNTIME_TRANSPORT_LIMIT
        } else {
            !mailbox.closed
        };
        assert(views(self.pending@).len() == self.pending@.len());
        if !kept {
            return Some(message);
        }
        hand_over(&mut self.pending, mailbox, RUNTIME_TRANSPORT_LIMIT, message);
        None
    }

    /// Hands a message to the transport, or lets it wait behind others, and
    /// tells whether it was kept.
    pub fn queue_runtime_transport(&mut self, mailbox: &mut Mailbox<M>, message: M) -> (kept: bool)
        ensures
            kept == is_kept(old(self)@, old(mailbox)@),
            final(self)@ == pending_after(
                old(self)@,
                old(mailbox)@,
                RUNTIME_TRANSPORT_LIMIT,
                message@,
            ),
            final(mailbox)@ == mailbox_after(
                old(self)@,
                old(mailbox)@,
                RUNTIME_TRANSPORT_LIMIT,
                message@,
            ),
    {
        hand_over(&mut self.pending, mailbox, RUNTIME_TRANSPORT_LIMIT, message).kept()
    }

    /// Hands waiting messages to the transport, oldest first, as far as it takes
    /// them. Where it is gone they are dropped.
    pub fn flush_runtime_transport(&mut self, mailbox: &mut Mailbox<M>) -> (open: bool)
        ensures
            open == (old(self)@.len() == 0 || !old(mailbox)@.closed),
            final(self)@ == flushed_pending(old(self)@, old(mailbox)@),
            final(mailbox)@ == flushed_mailbox(old(self)@, old(mailbox)@),
    {
        flush(&mut self.pending, mailbox)
    }

    /// Hands over the announces that are required. Those that the transport does
    /// not take stay required.
    pub fn queue_required_announces(
        &mut self,
        mailbox: &mut Mailbox<M>,
        announces: &mut AnnounceMailbox<M>,
    )
        ensures
            exists|list: Seq<(DestinationHash, M::V)>| #[trigger]
                is_listing(old(announces)@, list) && (AnnounceStep {
                    required: final(announces)@,
                    pending: final(self)@,
                    mailbox: final(mailbox)@,
                }) == (AnnounceStep {
                    required: Map::empty(),
                    pending: old(self)@,
                    mailbox: old(mailbox)@,
                }).after(list, list.len() as int),
    {
        let ghost before = AnnounceStep {
            required: Map::<DestinationHash, M::V>::empty(),
            pending: self@,
            mailbox: mailbox@,
        };
        let mut waiting: Vec<(DestinationHash, M)> = announces.take_pending();
        let ghost all = waiting@;
        let ghost list = announce_views(all);
        let ghost mut i: int = 0;
        assert(all.skip(0) =~= all);
        while waiting.len() > 0
            invariant
                0 <= i <= all.len(),
                list == announce_views(all),
                waiting@ == all.skip(i),
                (AnnounceStep {
                    required: announces@,
                    pending: self@,
                    mailbox: mailbox@,
                }) == before.after(list, i),
            decreases waiting@.len(),
        {
            let (destination_hash, message) = waiting.remove(0);
            proof {
                assert(all.skip(i)[0] == all[i]);
                assert(list[i] == (destination_hash, message@));
                assert(waiting@ =~= all.skip(i + 1));
                i = i + 1;
            }
            if let Some(message) = self.queue_runtime_transport_recoverable(mailbox, message) {
                announces.stage(destination_hash, message);
            }
        }
        proof {
            assert(i == all.len()) by {
                assert(all.skip(i).len() == all.len() - i);
            }
            assert(list.len() == all.len());
        }
    }
}

/// Announces that are required, messages that wait, and the transport's mailbox.
#[verifier::ext_equal]
pub struct AnnounceStep<V> {
    pub required: Map<DestinationHash, V>,
    pub pending: Seq<V>,
    pub mailbox: MailboxView<V>,
}

impl<V> AnnounceStep<V> {
    /// The step after one announce was handed over or stayed required.
    pub open spec fn one(self, announce: (DestinationHash, V)) -> AnnounceStep<V> {
        if is_kept(self.pending, self.mailbox) {
            AnnounceStep {
                pending: pending_after(
                    self.pending,
                    self.mailbox,
                    RUNTIME_TRANSPORT_LIMIT,
                    announce.1,
                ),
                mailbox: mailbox_after(
                    self.pending,
                    self.mailbox,
                    RUNTIME_TRANSPORT_LIMIT,
                    announce.1,
                ),
                ..self
            }
        } else {
            AnnounceStep { required: self.required.insert(announce.0, announce.1), ..self }
        }
    }

    /// The step after the first `n` announces of a list.
    pub open spec fn after(self, list: Seq<(DestinationHash, V)>, n: int) -> AnnounceStep<V>
        decreases n,
    {
        if n <= 0 {
            self
        } else {
            self.after(list, n - 1).one(list[n - 1])
        }
    }
}

/// A message is somewhere on its way: it still is required, waits or was sent.
pub open spec fn is_on_its_way<V>(step: AnnounceStep<V>, announce: (DestinationHash, V)) -> bool {
    ||| step.required.contains_key(announce.0) && step.required[announce.0] == announce.1
    ||| step.pending.contains(announce.1)
    ||| step.mailbox.sent.contains(announce.1)
}

/// No announce that is required gets lost, whatever the transport takes.
pub proof fn law_announces_are_not_lost<V>(
    step: AnnounceStep<V>,
    list: Seq<(DestinationHash, V)>,
    n: int,
    k: int,
)
    requires
        forall|i: int, j: int|
            0 <= i < j < list.len() ==> (#[trigger] list[i]).0 != (#[trigger] list[j]).0,
        0 <= k < n <= list.len(),
    ensures
        is_on_its_way(step.after(list, n), list[k]),
    decreases n,
{
    let before = step.after(list, n - 1);
    let after = step.after(list, n);
    if k < n - 1 {
        law_announces_are_not_lost(step, list, n - 1, k);
        assert(list[k].0 != list[n - 1].0);
        if before.pending.contains(list[k].1) {
            let i = choose|i: int| 0 <= i < before.pending.len() && before.pending[i] == list[k].1;
            assert(after.pending[i] == list[k].1);
        }
        if before.mailbox.sent.contains(list[k].1) {
            let i = choose|i: int|
                0 <= i < before.mailbox.sent.len() && before.mailbox.sent[i] == list[k].1;
            assert(after.mailbox.sent[i] == list[k].1);
        }
    } else {
        if is_kept(before.pending, before.mailbox) {
            if handed(before.pending, before.mailbox, RUNTIME_TRANSPORT_LIMIT) is Staged {
                assert(after.pending[before.pending.len() as int] == list[k].1);
            } else {
                assert(after.mailbox.sent[before.mailbox.sent.len() as int] == list[k].1);
            }
        }
    }
}

/// However often an announce is required for one destination, it is required
/// once.
pub proof fn law_announces_coalesce<V>(
    mailbox: Map<DestinationHash, V>,
    destination_hash: DestinationHash,
    first: V,
    second: V,
)
    ensures
        mailbox.insert(destination_hash, first).insert(destination_hash, second) == mailbox.insert(
            destination_hash,
            second,
        ),
{
    assert(mailbox.insert(destination_hash, first).insert(destination_hash, second)
        =~= mailbox.insert(destination_hash, second));
}

/// Hands a message that the daemon cannot do without to the transport, and tells
/// whether it took it.
pub fn queue_required_transport<M: View>(mailbox: &mut Mailbox<M>, message: M) -> (queued: bool)
    ensures
        queued == (!old(mailbox)@.closed && old(mailbox)@.free > 0),
        final(mailbox)@ == crate::daemon::delivery::tried(old(mailbox)@, message@),
{
    crate::daemon::delivery::try_send(mailbox, message)
}

} // verus!
