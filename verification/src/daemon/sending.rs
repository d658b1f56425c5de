//! Sending one message from the command line, and the first announce: what is
//! waited for, how long, and how it ends.

use vstd::prelude::*;

verus! {

/// Most looks for an announce of the destination before a message is sent.
pub const ANNOUNCE_POLLS: u32 = 30;

/// Milliseconds between two looks for an announce of the destination.
pub const ANNOUNCE_POLL_MS: u64 = 500;

/// Most looks for an interface before the first announce.
pub const STARTUP_POLLS: u32 = 30;

/// The wait for an announce of the destination: looks that were taken, and
/// whether one was heard.
#[derive(Debug, Clone, Copy, PartialEq, Eq, Structural)]
pub struct AnnounceWait {
    pub polls: u32,
    pub heard: bool,
}

/// How the wait for an announce goes on.
#[derive(Debug, Clone, Copy, PartialEq, Eq, Structural)]
pub enum AnnounceStep {
    /// Wait and look again.
    Wait,
    /// The destination's key and a path to it are fresh.
    Ready,
    /// Nothing fresh came in time. The key may be known from earlier.
    SendAnyway { have_key: bool },
}

/// The wait after one more look.
pub open spec fn announce_looked(wait: AnnounceWait, heard: bool) -> AnnounceWait {
    if wait.polls >= ANNOUNCE_POLLS {
        wait
    } else {
        AnnounceWait { polls: (wait.polls + 1) as u32, heard: wait.heard || heard }
    }
}

/// How the wait goes on after a look.
pub open spec fn announce_step(wait: AnnounceWait, heard: bool, have_key: bool) -> AnnounceStep {
    if wait.polls >= ANNOUNCE_POLLS {
        AnnounceStep::SendAnyway { have_key }
    } else if have_key && (wait.heard || heard) {
        AnnounceStep::Ready
    } else {
        AnnounceStep::Wait
    }
}

impl AnnounceWait {
    /// A wait that begins.
    pub fn new() -> (wait: Self)
        ensures
            wait == (AnnounceWait { polls: 0, heard: false }),
    {
        AnnounceWait { polls: 0, heard: false }
    }

    /// Takes a look: whether an announce of the destination came since the last
    /// one, and whether its key is known.
    pub fn look(&mut self, heard: bool, have_key: bool) -> (step: AnnounceStep)
        ensures
            *final(self) == announce_looked(*old(self), heard),
            step == announce_step(*old(self), heard, have_key),
    {
        if self.polls >= ANNOUNCE_POLLS {
            return AnnounceStep::SendAnyway { have_key };
        }
        self.polls = self.polls + 1;
        self.heard = self.heard || heard;
        if have_key && self.heard {
            AnnounceStep::Ready
        } else {
            AnnounceStep::Wait
        }
    }
}

/// What is still to be done for messages.
#[derive(Debug, Clone, Copy)]
pub struct OutboundWork {
    pub pending_outbound: usize,
    pub pending_deferred_stamps: usize,
    /// Packets that were sent and not proven yet.
    pub in_flight: usize,
    /// Deliveries over links.
    pub link_pending: usize,
    /// A delivery failed for good.
    pub failed: bool,
}

impl OutboundWork {
    /// The router holds nothing and no packet is unproven.
    pub open spec fn is_drained(self) -> bool {
        self.pending_outbound == 0 && self.pending_deferred_stamps == 0 && self.in_flight == 0
    }
}

/// How sending a message ended.
#[derive(Debug, Clone, Copy, PartialEq, Eq, Structural)]
pub enum SendEnd {
    Sent,
    /// The daemon was told to stop.
    Interrupted,
    /// The delivery was not confirmed in time.
    NotConfirmed,
    /// A delivery over a link did not end in time.
    LinkNotDone,
    /// A delivery failed for good.
    Failed,
}

/// Where sending a message stands.
#[derive(Debug, Clone, Copy, PartialEq, Eq, Structural)]
pub enum SendState {
    /// The router is at it; looks that are left.
    Draining { left: u32 },
    /// A link is at it; looks that are left.
    OverLink { left: u32 },
    Ended(SendEnd),
}

/// Where sending stands once nothing is left to wait for.
pub open spec fn settled_send(work: OutboundWork) -> SendState {
    SendState::Ended(
        if work.failed {
            SendEnd::Failed
        } else {
            SendEnd::Sent
        },
    )
}

/// Where sending stands at first.
pub open spec fn send_begun(timeout: u32) -> SendState {
    if timeout == 0 {
        SendState::Ended(SendEnd::NotConfirmed)
    } else {
        SendState::Draining { left: timeout }
    }
}

/// Where sending stands after one more look. That the router let go of a
/// message is no delivery: packets have to be proven, and links to be done.
pub open spec fn send_looked(
    state: SendState,
    stopped: bool,
    work: OutboundWork,
    timeout: u32,
) -> SendState {
    match state {
        SendState::Ended(_) => state,
        _ => if stopped {
            SendState::Ended(SendEnd::Interrupted)
        } else {
            match state {
                SendState::Draining { left } => if work.is_drained() {
                    if work.link_pending == 0 {
                        settled_send(work)
                    } else if timeout == 0 {
                        SendState::Ended(SendEnd::LinkNotDone)
                    } else {
                        SendState::OverLink { left: timeout }
                    }
                } else if left <= 1 {
                    SendState::Ended(SendEnd::NotConfirmed)
                } else {
                    SendState::Draining { left: (left - 1) as u32 }
                },
                SendState::OverLink { left } => if work.link_pending == 0 {
                    settled_send(work)
                } else if left <= 1 {
                    SendState::Ended(SendEnd::LinkNotDone)
                } else {
                    SendState::OverLink { left: (left - 1) as u32 }
                },
                SendState::Ended(_) => state,
            }
        },
    }
}

/// Begins to send a message that the router took. `timeout` is how many looks
/// are taken, a second apart.
pub fn begin_send(timeout: u32) -> (state: SendState)
    ensures
        state == send_begun(timeout),
{
    if timeout == 0 {
        SendState::Ended(SendEnd::NotConfirmed)
    } else {
        SendState::Draining { left: timeout }
    }
}

/// Takes a look at what is still to be done for a message.
pub fn look_at_send(
    state: SendState,
    stopped: bool,
    work: &OutboundWork,
    timeout: u32,
) -> (next: SendState)
    ensures
        next == send_looked(state, stopped, *work, timeout),
{
    let settled: SendState = SendState::Ended(
        if work.failed {
            SendEnd::Failed
        } else {
            SendEnd::Sent
        },
    );
    match state {
        SendState::Ended(_) => state,
        SendState::Draining { left } => {
            if stopped {
                return SendState::Ended(SendEnd::Interrupted);
            }
            let drained: bool = work.pending_outbound == 0 && work.pending_deferred_stamps == 0
                && work.in_flight == 0;
            if !drained {
                return if left <= 1 {
                    SendState::Ended(SendEnd::NotConfirmed)
                } else {
                    SendState::Draining { left: left - 1 }
                };
            }
            if work.link_pending == 0 {
                settled
            } else if timeout == 0 {
                SendState::Ended(SendEnd::LinkNotDone)
            } else {
                SendState::OverLink { left: timeout }
            }
        },
        SendState::OverLink { left } => {
            if stopped {
                SendState::Ended(SendEnd::Interrupted)
            } else if work.link_pending == 0 {
                settled
            } else if left <= 1 {
                SendState::Ended(SendEnd::LinkNotDone)
            } else {
                SendState::OverLink { left: left - 1 }
            }
        },
    }
}

/// A bound on the looks that sending can still take.
pub open spec fn looks_left(state: SendState, timeout: u32) -> nat {
    match state {
        SendState::Draining { left } => (timeout + left + 2) as nat,
        SendState::OverLink { left } => (left + 1) as nat,
        SendState::Ended(_) => 0,
    }
}

/// Sending ends: each look leaves fewer looks than before.
pub proof fn law_sending_ends(state: SendState, stopped: bool, work: OutboundWork, timeout: u32)
    ensures
        !(state is Ended) ==> looks_left(send_looked(state, stopped, work, timeout), timeout)
            < looks_left(state, timeout),
        state is Ended ==> send_looked(state, stopped, work, timeout) == state,
        looks_left(send_begun(timeout), timeout) <= 2 * timeout + 2,
{
}

/// A message counts as sent only when no delivery of it is left over a link and
/// none failed, and at the first such look only when the router and the packets
/// are done with it too.
pub proof fn law_sent_is_confirmed(
    state: SendState,
    stopped: bool,
    work: OutboundWork,
    timeout: u32,
)
    requires
        !(state is Ended),
        send_looked(state, stopped, work, timeout) == SendState::Ended(SendEnd::Sent),
    ensures
        !stopped,
        work.link_pending == 0,
        !work.failed,
        state is Draining ==> work.is_drained(),
{
}

/// What a look at the interfaces showed before the first announce.
#[derive(Debug, Clone, Copy, PartialEq, Eq, Structural)]
pub enum StartupPoll {
    /// The daemon was told to stop.
    Stopped,
    /// The transport is gone.
    TransportClosed,
    /// No interface is up, or nothing was answered.
    Quiet,
    /// An interface is up.
    Online,
}

/// How the wait for an interface goes on.
#[derive(Debug, Clone, Copy, PartialEq, Eq, Structural)]
pub enum StartupStep {
    /// Wait and look again.
    Wait,
    /// Announce now.
    Announce,
    /// Announce though no interface is known to be up.
    AnnounceAnyway,
    /// Announce nothing.
    Cancelled,
}

/// How the wait for an interface goes on after a look, of which `polls` were
/// taken before.
pub open spec fn startup_step(polls: u32, poll: StartupPoll) -> StartupStep {
    match poll {
        StartupPoll::Stopped => StartupStep::Cancelled,
        StartupPoll::TransportClosed => StartupStep::AnnounceAnyway,
        StartupPoll::Online => StartupStep::Announce,
        StartupPoll::Quiet => if polls + 1 >= STARTUP_POLLS {
            StartupStep::AnnounceAnyway
        } else {
            StartupStep::Wait
        },
    }
}

/// Takes a look at the interfaces before the first announce.
pub fn look_at_interfaces(polls: &mut u32, poll: StartupPoll) -> (step: StartupStep)
    ensures
        step == startup_step(*old(polls), poll),
        *final(polls) == (if step is Wait {
            *old(polls) + 1
        } else {
            *old(polls) as int
        }),
{
    match poll {
        StartupPoll::Stopped => StartupStep::Cancelled,
        StartupPoll::TransportClosed => StartupStep::AnnounceAnyway,
        StartupPoll::Online => StartupStep::Announce,
        StartupPoll::Quiet => {
            if *polls >= STARTUP_POLLS - 1 {
                return StartupStep::AnnounceAnyway;
            }
            *polls = *polls + 1;
            StartupStep::Wait
        },
    }
}

/// The wait for an interface ends after its last look, and before only for a
/// reason.
pub proof fn law_first_announce_is_made(polls: u32, poll: StartupPoll)
    ensures
        startup_step(polls, poll) is Cancelled <==> poll is Stopped,
        polls >= STARTUP_POLLS - 1 ==> !(startup_step(polls, poll) is Wait),
        poll is Online ==> startup_step(polls, poll) is Announce,
{
}

/// An interface is up.
pub open spec fn any_up(online: Seq<bool>) -> bool {
    exists|i: int| 0 <= i < online.len() && #[trigger] online[i]
}

/// Tells whether an interface is up.
pub fn any_online(online: &[bool]) -> (up: bool)
    ensures
        up == any_up(online@),
{
    let mut i: usize = 0;
    while i < online.len()
        invariant
            i <= online@.len(),
            forall|k: int| 0 <= k < i ==> !(#[trigger] online@[k]),
        decreases online@.len() - i,
    {
        if online[i] {
            assert(online@[i as int]);
            return true;
        }
        i = i + 1;
    }
    false
}

} // verus!
