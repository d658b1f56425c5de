//! Handing messages to a bounded transport mailbox without losing their order.

use std::collections::VecDeque;
use vstd::prelude::*;

verus! {

/// The transport's bounded mailbox as one step sees it: how many messages it
/// takes now, whether it is closed, and what was handed to it.
#[derive(Debug)]
pub struct Mailbox<M> {
    pub free: usize,
    pub closed: bool,
    pub sent: Vec<M>,
}

/// What a [`Mailbox`] holds.
#[verifier::ext_equal]
pub struct MailboxView<V> {
    pub free: usize,
    pub closed: bool,
    pub sent: Seq<V>,
}

/// What messages say.
pub open spec fn views<M: View>(messages: Seq<M>) -> Seq<M::V> {
    messages.map_values(|message: M| message@)
}

impl<M: View> View for Mailbox<M> {
    type V = MailboxView<M::V>;

    open spec fn view(&self) -> MailboxView<M::V> {
        MailboxView { free: self.free, closed: self.closed, sent: views(self.sent@) }
    }
}

impl<M: View> Mailbox<M> {
    /// A mailbox that takes `free` messages now.
    pub fn with_capacity(free: usize) -> (mailbox: Self)
        ensures
            mailbox@ == (MailboxView { free, closed: false, sent: Seq::<M::V>::empty() }),
    {
        let mailbox = Mailbox { free, closed: false, sent: Vec::new() };
        assert(mailbox@.sent =~= Seq::<M::V>::empty());
        mailbox
    }

    /// A mailbox whose receiver is gone.
    pub fn disconnected() -> (mailbox: Self)
        ensures
            mailbox@ == (MailboxView { free: 0, closed: true, sent: Seq::<M::V>::empty() }),
    {
        let mailbox = Mailbox { free: 0, closed: true, sent: Vec::new() };
        assert(mailbox@.sent =~= Seq::<M::V>::empty());
        mailbox
    }
}

/// What became of a message.
#[derive(Debug, Clone, Copy, PartialEq, Eq, Structural)]
pub enum Handed {
    /// It is in the mailbox.
    Sent,
    /// It waits for room in the mailbox.
    Staged,
    /// Too many messages wait already.
    Overflow,
    /// The mailbox is closed.
    Closed,
}

impl Handed {
    /// The message was not lost.
    pub open spec fn kept_spec(self) -> bool {
        self is Sent || self is Staged
    }

    /// The message was not lost.
    pub fn kept(self) -> (kept: bool)
        ensures
            kept == self.kept_spec(),
    {
        match self {
            Handed::Sent => true,
            Handed::Staged => true,
            Handed::Overflow => false,
            Handed::Closed => false,
        }
    }
}

/// What becomes of a message: behind waiting messages it waits too, as long as
/// there are fewer than `limit`; otherwise it goes to the mailbox, or waits
/// where the mailbox is full.
pub open spec fn handed<V>(pending: Seq<V>, mailbox: MailboxView<V>, limit: usize) -> Handed {
    if pending.len() > 0 {
        if pending.len() >= limit {
            Handed::Overflow
        } else {
            Handed::Staged
        }
    } else if mailbox.closed {
        Handed::Closed
    } else if mailbox.free > 0 {
        Handed::Sent
    } else {
        Handed::Staged
    }
}

/// The waiting messages after `message` was handed over.
pub open spec fn pending_after<V>(
    pending: Seq<V>,
    mailbox: MailboxView<V>,
    limit: usize,
    message: V,
) -> Seq<V> {
    if handed(pending, mailbox, limit) is Staged {
        pending.push(message)
    } else {
        pending
    }
}

/// The mailbox after `message` was handed over.
pub open spec fn mailbox_after<V>(
    pending: Seq<V>,
    mailbox: MailboxView<V>,
    limit: usize,
    message: V,
) -> MailboxView<V> {
    if handed(pending, mailbox, limit) is Sent {
        MailboxView {
            free: (mailbox.free - 1) as usize,
            sent: mailbox.sent.push(message),
            ..mailbox
        }
    } else {
        mailbox
    }
}

/// How many waiting messages the mailbox takes now.
pub open spec fn flushable<V>(pending: Seq<V>, mailbox: MailboxView<V>) -> int {
    if mailbox.closed {
        0
    } else if mailbox.free < pending.len() {
        mailbox.free as int
    } else {
        pending.len() as int
    }
}

/// The waiting messages after as many as possible went to the mailbox; a closed
/// mailbox loses them.
pub open spec fn flushed_pending<V>(pending: Seq<V>, mailbox: MailboxView<V>) -> Seq<V> {
    if mailbox.closed {
        Seq::empty()
    } else {
        pending.skip(flushable(pending, mailbox))
    }
}

/// The mailbox after as many waiting messages as possible went to it.
pub open spec fn flushed_mailbox<V>(pending: Seq<V>, mailbox: MailboxView<V>) -> MailboxView<V> {
    MailboxView {
        free: (mailbox.free - flushable(pending, mailbox)) as usize,
        sent: mailbox.sent + pending.take(flushable(pending, mailbox)),
        ..mailbox
    }
}

/// Hands a message to the mailbox, or lets it wait.
pub fn hand_over<M: View>(
    pending: &mut VecDeque<M>,
    mailbox: &mut Mailbox<M>,
    limit: usize,
    message: M,
) -> (result: Handed)
    ensures
        result == handed(views(old(pending)@), old(mailbox)@, limit),
        views(final(pending)@) == pending_after(
            views(old(pending)@),
            old(mailbox)@,
            limit,
            message@,
        ),
        final(mailbox)@ == mailbox_after(views(old(pending)@), old(mailbox)@, limit, message@),
{
    if pending.len() > 0 {
        if pending.len() >= limit {
            return Handed::Overflow;
        }
        pending.push_back(message);
        assert(views(pending@) =~= views(old(pending)@).push(message@));
        return Handed::Staged;
    }
    if mailbox.closed {
        return Handed::Closed;
    }
    if mailbox.free > 0 {
        mailbox.free = mailbox.free - 1;
        mailbox.sent.push(message);
        assert(views(mailbox.sent@) =~= views(old(mailbox).sent@).push(message@));
        return Handed::Sent;
    }
    pending.push_back(message);
    assert(views(pending@) =~= views(old(pending)@).push(message@));
    Handed::Staged
}

/// Hands waiting messages to the mailbox, oldest first, as far as it takes
/// them. Tells whether the mailbox is still open to them.
pub fn flush<M: View>(pending: &mut VecDeque<M>, mailbox: &mut Mailbox<M>) -> (open: bool)
    ensures
        open == (views(old(pending)@).len() == 0 || !old(mailbox)@.closed),
        views(final(pending)@) == flushed_pending(views(old(pending)@), old(mailbox)@),
        final(mailbox)@ == flushed_mailbox(views(old(pending)@), old(mailbox)@),
{
    let ghost all = views(pending@);
    let ghost before = mailbox@;
    if pending.len() == 0 {
        assert(flushed_pending(all, before) =~= all);
        assert(flushed_mailbox(all, before) =~= before);
        return true;
    }
    if mailbox.closed {
        pending.clear();
        assert(views(pending@) =~= Seq::empty());
        assert(flushed_mailbox(all, before) =~= before);
        return false;
    }
    let ghost mut count: int = 0;
    assert(all.skip(0) =~= all);
    assert(before.sent + all.take(0) =~= before.sent);
    while pending.len() > 0 && mailbox.free > 0
        invariant
            0 <= count <= all.len(),
            views(pending@) == all.skip(count),
            !mailbox.closed,
            !before.closed,
            before.free == mailbox.free + count,
            mailbox@.sent == before.sent + all.take(count),
        decreases pending@.len(),
    {
        let ghost sent = mailbox.sent@;
        let ghost waiting = pending@;
        match pending.pop_front() {
            Some(message) => {
                mailbox.free = mailbox.free - 1;
                mailbox.sent.push(message);
                proof {
                    assert(views(waiting).len() == waiting.len());
                    assert(all.skip(count).len() == all.len() - count);
                    assert(message == waiting[0]);
                    assert(views(waiting)[0] == message@);
                    assert(all.skip(count)[0] == all[count]);
                    assert(views(pending@) =~= all.skip(count + 1)) by {
                        assert forall|j: int| 0 <= j < pending@.len() implies views(pending@)[j]
                            == all.skip(count + 1)[j] by {
                            assert(pending@[j] == waiting[j + 1]);
                            assert(views(waiting)[j + 1] == all.skip(count)[j + 1]);
                        }
                    }
                    assert(views(mailbox.sent@) =~= views(sent).push(message@));
                    assert(before.sent + all.take(count + 1) =~= (before.sent + all.take(
                        count,
                    )).push(all[count]));
                    count = count + 1;
                }
            },
            None => {
                return true;
            },
        }
    }
    assert(count == flushable(all, before));
    true
}

/// Messages leave in the order in which they came: what was sent, followed by
/// what waits, grows at its end only.
pub proof fn law_hand_over_keeps_order<V>(
    pending: Seq<V>,
    mailbox: MailboxView<V>,
    limit: usize,
    message: V,
)
    requires
        handed(pending, mailbox, limit).kept_spec(),
    ensures
        mailbox_after(pending, mailbox, limit, message).sent + pending_after(
            pending,
            mailbox,
            limit,
            message,
        ) == (mailbox.sent + pending).push(message),
{
    assert(mailbox_after(pending, mailbox, limit, message).sent + pending_after(
        pending,
        mailbox,
        limit,
        message,
    ) =~= (mailbox.sent + pending).push(message));
}

/// Handing waiting messages over neither loses nor reorders any, as long as the
/// mailbox is open.
pub proof fn law_flush_keeps_order<V>(pending: Seq<V>, mailbox: MailboxView<V>)
    requires
        !mailbox.closed,
    ensures
        flushed_mailbox(pending, mailbox).sent + flushed_pending(pending, mailbox) == mailbox.sent
            + pending,
{
    assert(flushed_mailbox(pending, mailbox).sent + flushed_pending(pending, mailbox)
        =~= mailbox.sent + pending);
}

/// The number of waiting messages never exceeds the limit.
pub proof fn law_waiting_is_bounded<V>(
    pending: Seq<V>,
    mailbox: MailboxView<V>,
    limit: usize,
    message: V,
)
    requires
        1 <= limit,
        pending.len() <= limit,
    ensures
        pending_after(pending, mailbox, limit, message).len() <= limit,
        flushed_pending(pending, mailbox).len() <= limit,
{
}

/// A message is in the mailbox at once where nothing waits before it and there is room;
/// it waits where something waits before it or there is no room; and it is refused where
/// too many wait, or the mailbox is closed and nothing waits.
pub proof fn law_messages_go_or_wait<V>(pending: Seq<V>, mailbox: MailboxView<V>, limit: usize)
    ensures
        handed(pending, mailbox, limit) is Sent <==> pending.len() == 0 && !mailbox.closed
            && mailbox.free > 0,
        handed(pending, mailbox, limit) is Staged <==> (0 < pending.len() < limit) || (pending.len()
            == 0 && !mailbox.closed && mailbox.free == 0),
        handed(pending, mailbox, limit) is Overflow <==> pending.len() > 0 && pending.len()
            >= limit,
        handed(pending, mailbox, limit) is Closed <==> pending.len() == 0 && mailbox.closed,
        handed(pending, mailbox, limit).kept_spec() <==> handed(pending, mailbox, limit) is Sent
            || handed(pending, mailbox, limit) is Staged,
{
}

/// A refused message changes nothing.
pub proof fn law_refused_messages_leave_no_trace<V>(
    pending: Seq<V>,
    mailbox: MailboxView<V>,
    limit: usize,
    message: V,
)
    requires
        !handed(pending, mailbox, limit).kept_spec(),
    ensures
        pending_after(pending, mailbox, limit, message) == pending,
        mailbox_after(pending, mailbox, limit, message) == mailbox,
{
}

/// As many waiting messages go into the mailbox as it has room for. Where it is closed
/// none can ever go, and none waits any more.
pub proof fn law_flush_fills_the_mailbox<V>(pending: Seq<V>, mailbox: MailboxView<V>)
    ensures
        !mailbox.closed && mailbox.free >= pending.len() ==> flushed_pending(
            pending,
            mailbox,
        ).len() == 0 && flushed_mailbox(pending, mailbox).free == mailbox.free - pending.len(),
        !mailbox.closed && mailbox.free < pending.len() ==> flushed_mailbox(pending, mailbox).free
            == 0 && flushed_pending(pending, mailbox).len() == pending.len() - mailbox.free,
        mailbox.closed ==> flushed_pending(pending, mailbox).len() == 0 && flushed_mailbox(
            pending,
            mailbox,
        ).sent == mailbox.sent,
{
    if mailbox.closed {
        assert(mailbox.sent + pending.take(0) =~= mailbox.sent);
    }
}

} // verus!
