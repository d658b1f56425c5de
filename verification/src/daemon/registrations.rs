//! The destinations that the daemon registers with the transport when it starts.

use vstd::prelude::*;
use crate::daemon::queues::queue_required_transport;
use crate::ids::DestinationHash;
use crate::transport::Mailbox;
#[allow(unused_imports)]
use crate::transport::MailboxView;

verus! {

/// A destination that has to be registered before the daemon runs.
#[derive(Debug, Clone, Copy, PartialEq, Eq, Structural)]
pub enum Registration {
    /// Where messages for the daemon's own identity come in.
    Delivery,
    /// Where peers and clients reach the propagation node.
    Propagation,
    /// Where orders of operators come in.
    Control,
}

/// The hashes of the daemon's own destinations.
#[derive(Debug, Clone, Copy)]
pub struct OwnDestinations {
    pub delivery: DestinationHash,
    pub propagation: DestinationHash,
    pub control: DestinationHash,
}

/// A registration as the transport is asked for it.
#[derive(Debug, Clone, Copy)]
pub struct RegistrationOrder {
    pub registration: Registration,
    pub hash: DestinationHash,
}

impl View for RegistrationOrder {
    type V = RegistrationOrder;

    open spec fn view(&self) -> RegistrationOrder {
        *self
    }
}

/// What has to be registered, in order: the delivery destination always, the
/// others for a propagation node.
pub open spec fn registrations_of(propagation_enabled: bool) -> Seq<Registration> {
    if propagation_enabled {
        seq![Registration::Delivery, Registration::Propagation, Registration::Control]
    } else {
        seq![Registration::Delivery]
    }
}

impl Registration {
    /// What is asked of the transport for it.
    pub open spec fn order(self, own: OwnDestinations) -> RegistrationOrder {
        RegistrationOrder {
            registration: self,
            hash: match self {
                Registration::Delivery => own.delivery,
                Registration::Propagation => own.propagation,
                Registration::Control => own.control,
            },
        }
    }

    /// The name to speak of it by when it is refused.
    pub fn operation(&self) -> (text: &'static str)
        ensures
            text@ == (match *self {
                Registration::Delivery => "delivery destination registration"@,
                Registration::Propagation => "propagation destination registration"@,
                Registration::Control => "control destination registration"@,
            }),
    {
        match self {
            Registration::Delivery => "delivery destination registration",
            Registration::Propagation => "propagation destination registration",
            Registration::Control => "control destination registration",
        }
    }
}

/// The destinations that have to be registered, in order.
pub fn required_registrations(propagation_enabled: bool) -> (list: Vec<Registration>)
    ensures
        list@ == registrations_of(propagation_enabled),
{
    let mut list: Vec<Registration> = Vec::new();
    list.push(Registration::Delivery);
    if propagation_enabled {
        list.push(Registration::Propagation);
        list.push(Registration::Control);
    }
    assert(list@ =~= registrations_of(propagation_enabled));
    list
}

/// What is asked of the transport, in order.
pub open spec fn orders_of(own: OwnDestinations, list: Seq<Registration>) -> Seq<
    RegistrationOrder,
> {
    list.map_values(|registration: Registration| registration.order(own))
}

/// How many messages a mailbox takes now.
pub open spec fn room_in<V>(mailbox: MailboxView<V>) -> nat {
    if mailbox.closed {
        0
    } else {
        mailbox.free as nat
    }
}

/// A mailbox that was handed as many of `orders` as it has room for.
pub open spec fn ordered(
    mailbox: MailboxView<RegistrationOrder>,
    orders: Seq<RegistrationOrder>,
) -> MailboxView<RegistrationOrder> {
    let taken = if orders.len() <= room_in(mailbox) {
        orders.len()
    } else {
        room_in(mailbox)
    };
    MailboxView {
        free: (mailbox.free - taken) as usize,
        sent: mailbox.sent + orders.take(taken as int),
        ..mailbox
    }
}

/// Registers the daemon's destinations with the transport. The daemon cannot do
/// without any of them, so the first that is refused is an error, and nothing is
/// asked for behind it.
pub fn register_destinations(
    mailbox: &mut Mailbox<RegistrationOrder>,
    own: &OwnDestinations,
    propagation_enabled: bool,
) -> (done: Result<(), Registration>)
    ensures
        ({
            let list = registrations_of(propagation_enabled);
            let room = room_in(old(mailbox)@);
            &&& done == (if list.len() <= room {
                Result::<(), Registration>::Ok(())
            } else {
                Result::<(), Registration>::Err(list[room as int])
            })
            &&& final(mailbox)@ == ordered(old(mailbox)@, orders_of(*own, list))
        }),
{
    let list = required_registrations(propagation_enabled);
    let ghost orders = orders_of(*own, list@);
    let mut i: usize = 0;
    assert(mailbox@ =~= ordered(old(mailbox)@, orders.take(0)));
    while i < list.len()
        invariant
            i <= list@.len(),
            i <= room_in(old(mailbox)@),
            list@ == registrations_of(propagation_enabled),
            orders == orders_of(*own, list@),
            mailbox@ == ordered(old(mailbox)@, orders.take(i as int)),
        decreases list@.len() - i,
    {
        let registration: Registration = list[i];
        let order = RegistrationOrder {
            registration,
            hash: match registration {
                Registration::Delivery => own.delivery,
                Registration::Propagation => own.propagation,
                Registration::Control => own.control,
            },
        };
        assert(order == orders[i as int]);
        if !queue_required_transport(mailbox, order) {
            assert(mailbox@ =~= ordered(old(mailbox)@, orders));
            return Err(registration);
        }
        assert(orders.take(i + 1) =~= orders.take(i as int).push(order));
        assert(mailbox@ =~= ordered(old(mailbox)@, orders.take(i + 1)));
        i = i + 1;
    }
    assert(orders.take(i as int) =~= orders);
    Ok(())
}

/// A daemon that started has registered its delivery destination, and one that
/// runs a propagation node all three.
pub proof fn law_started_daemon_is_registered(
    mailbox: MailboxView<RegistrationOrder>,
    own: OwnDestinations,
    propagation_enabled: bool,
    registration: Registration,
)
    requires
        registrations_of(propagation_enabled).len() <= room_in(mailbox),
    ensures
        registrations_of(propagation_enabled).contains(registration) <==> registration is Delivery
            || propagation_enabled,
        registrations_of(propagation_enabled).contains(registration) ==> ordered(
            mailbox,
            orders_of(own, registrations_of(propagation_enabled)),
        ).sent.contains(registration.order(own)),
{
    let list = registrations_of(propagation_enabled);
    let orders = orders_of(own, list);
    assert(list[0] is Delivery);
    if propagation_enabled {
        assert(list[1] is Propagation);
        assert(list[2] is Control);
    }
    if list.contains(registration) {
        let i = choose|i: int| 0 <= i < list.len() && list[i] == registration;
        assert(orders[i] == registration.order(own));
        assert(ordered(mailbox, orders).sent[mailbox.sent.len() + i] == orders[i]);
    }
}

} // verus!
