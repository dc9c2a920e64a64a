//! The loopback bridge between two transports: one interface on either side, and two relays that
//! carry what leaves one side into the other.
use crate::rns;
use crate::rns::InterfaceRecord;
use rns_transport::hash::AddressHash;
use rns_transport::iface::{InterfaceManager, RxMessage, TxMessage};
use rns_transport::packet::Packet;
use tokio::sync::mpsc::{Receiver, Sender};
use vstd::prelude::*;

verus! {

/// How many messages may wait on a bridge for each direction.
pub const BRIDGE_CAPACITY: usize = 256;

/// One side of a bridge: an interface of one transport.
pub struct LoopbackEnd {
    /// The address of the interface.
    pub address: AddressHash,
    /// What the transport sends over the interface.
    pub outgoing: Receiver<TxMessage>,
    /// Where the transport takes what arrives over the interface.
    pub incoming: Sender<RxMessage>,
}

impl LoopbackEnd {
    /// The end is the interface by which the manager `after` goes beyond the manager `before`:
    /// messages for it, and for it alone, come out of `outgoing`, and messages put into `incoming`
    /// reach the transport.
    pub open spec fn opened_on(self, before: InterfaceManager, after: InterfaceManager) -> bool {
        &&& self.address == rns::next_address(before)
        &&& rns::interfaces(after) == rns::interfaces(before).push(
            InterfaceRecord {
                address: self.address,
                outbox: rns::receiver_queue(self.outgoing),
                capacity: BRIDGE_CAPACITY as nat,
            },
        )
        &&& forall|i: int|
            0 <= i < rns::interfaces(before).len() ==> (#[trigger] rns::interfaces(before)[i]).outbox
                != rns::receiver_queue(self.outgoing)
        &&& rns::inbox(after) == rns::inbox(before)
        &&& rns::sender_queue(self.incoming) == rns::inbox(before)
    }

    /// Opens one side of a bridge on the interfaces of a transport.
    pub fn open(manager: &mut InterfaceManager) -> (end: LoopbackEnd)
        ensures
            end.opened_on(*old(manager), *final(manager)),
            end.address == rns::next_address(*old(manager)),
            rns::interfaces(*final(manager)) == rns::interfaces(*old(manager)).push(
                InterfaceRecord {
                    address: end.address,
                    outbox: rns::receiver_queue(end.outgoing),
                    capacity: 256,
                },
            ),
            forall|i: int|
                0 <= i < rns::interfaces(*old(manager)).len() ==> (#[trigger] rns::interfaces(
                    *old(manager),
                )[i]).outbox != rns::receiver_queue(end.outgoing),
            rns::inbox(*final(manager)) == rns::inbox(*old(manager)),
            rns::sender_queue(end.incoming) == rns::inbox(*old(manager)),
    {
        let (address, outgoing, incoming) = rns::new_channel(manager, BRIDGE_CAPACITY);
        LoopbackEnd { address, outgoing, incoming }
    }
}

/// A packet on its way into a transport, with the address of the interface that it arrives on.
pub struct Delivery {
    /// The interface of the receiving transport.
    pub address: AddressHash,
    /// The packet.
    pub packet: Packet,
}

/// What a relay hears.
pub enum RelayEvent {
    /// The relay begins.
    Started,
    /// The sending transport has handed over a packet.
    Received(Packet),
    /// The sending transport is gone, and nothing is left of what it sent.
    Closed,
    /// The receiving transport has taken the last delivery.
    Accepted,
    /// The receiving transport is gone; the last delivery is lost.
    Refused,
}

/// What a relay does next.
pub enum RelayAction {
    /// Wait for the next packet of the sending transport.
    Receive,
    /// Hand this to the receiving transport.
    Deliver(Delivery),
    /// End.
    Stop,
}

/// One direction of a bridge: what it hears decides what it does, and nothing is remembered in
/// between.
pub struct Relay {
    /// The interface of the receiving transport.
    pub address: AddressHash,
}

impl Relay {
    /// The delivery of a packet over this relay.
    pub open spec fn delivery(self, packet: Packet) -> Delivery {
        Delivery { address: self.address, packet: packet }
    }

    /// What the relay does about an event.
    pub open spec fn action(self, event: RelayEvent) -> RelayAction {
        match event {
            RelayEvent::Started => RelayAction::Receive,
            RelayEvent::Received(packet) => RelayAction::Deliver(self.delivery(packet)),
            RelayEvent::Closed => RelayAction::Stop,
            RelayEvent::Accepted => RelayAction::Receive,
            RelayEvent::Refused => RelayAction::Receive,
        }
    }

    /// What to do about `event`. A packet is delivered as it is, under the address of the
    /// receiving interface. A delivery that is refused does not end the relay; only the end of the
    /// sending transport does.
    pub fn next(&self, event: RelayEvent) -> (action: RelayAction)
        ensures
            action == self.action(event),
            event matches RelayEvent::Received(packet) ==> action == RelayAction::Deliver(
                Delivery { address: self.address, packet: packet },
            ),
            action is Deliver <==> event is Received,
            action is Stop <==> event is Closed,
    {
        match event {
            RelayEvent::Started => RelayAction::Receive,
            RelayEvent::Received(packet) => {
                RelayAction::Deliver(Delivery { address: self.address, packet })
            },
            RelayEvent::Closed => RelayAction::Stop,
            RelayEvent::Accepted => RelayAction::Receive,
            RelayEvent::Refused => RelayAction::Receive,
        }
    }

    /// Everything that the relay delivers in the course of `events`.
    pub open spec fn deliveries(self, events: Seq<RelayEvent>) -> Seq<Delivery>
        decreases events.len(),
    {
        if events.len() == 0 {
            Seq::empty()
        } else {
            let earlier = self.deliveries(events.drop_last());
            match self.action(events.last()) {
                RelayAction::Deliver(delivery) => earlier.push(delivery),
                _ => earlier,
            }
        }
    }
}

/// The packets that are received in the course of `events`.
pub open spec fn received(events: Seq<RelayEvent>) -> Seq<Packet>
    decreases events.len(),
{
    if events.len() == 0 {
        Seq::empty()
    } else {
        let earlier = received(events.drop_last());
        match events.last() {
            RelayEvent::Received(packet) => earlier.push(packet),
            _ => earlier,
        }
    }
}

/// A relay delivers every packet that it receives, once, unchanged and in the order of arrival,
/// all under the address of the receiving interface, whatever becomes of the deliveries.
pub proof fn lemma_relay_delivers_in_order(relay: Relay, events: Seq<RelayEvent>)
    ensures
        relay.deliveries(events) == received(events).map_values(
            |packet: Packet| relay.delivery(packet),
        ),
    decreases events.len(),
{
    if events.len() > 0 {
        lemma_relay_delivers_in_order(relay, events.drop_last());
    }
}

/// What a relay does about each event: it delivers what it receives, and that alone, as it is and
/// under the address of the receiving interface; it ends when the sending transport is gone; and it
/// waits for the next packet in all other cases, after a refused delivery too.
pub proof fn lemma_what_a_relay_does(relay: Relay, event: RelayEvent)
    ensures
        event matches RelayEvent::Received(packet) ==> {
            let action = relay.action(event);
            &&& action is Deliver
            &&& action->Deliver_0.packet == packet
            &&& action->Deliver_0.address == relay.address
        },
        event is Closed ==> relay.action(event) is Stop,
        event is Started || event is Accepted || event is Refused ==> relay.action(
            event,
        ) is Receive,
{
}

/// A relay ends when the sending transport is gone, and only then.
pub proof fn lemma_relay_stops_when_closed(relay: Relay, event: RelayEvent)
    ensures
        relay.action(event) is Stop <==> event is Closed,
{
}

/// One direction of a bridge, ready to run.
pub struct Forwarder {
    /// What the sending transport sends over its interface.
    pub source: Receiver<TxMessage>,
    /// Where the receiving transport takes what arrives over its interface.
    pub sink: Sender<RxMessage>,
    /// What happens in between.
    pub relay: Relay,
}

/// The direction of a bridge that leads from one end to another.
pub open spec fn forwarder(from: LoopbackEnd, to: LoopbackEnd) -> Forwarder {
    Forwarder {
        source: from.outgoing,
        sink: to.incoming,
        relay: Relay { address: to.address },
    }
}

/// Joins two ends into a bridge: the direction from `a` to `b`, and the direction back.
pub fn wire_loopback(a: LoopbackEnd, b: LoopbackEnd) -> (directions: (Forwarder, Forwarder))
    ensures
        directions == (forwarder(a, b), forwarder(b, a)),
        directions.0.source == a.outgoing,
        directions.0.sink == b.incoming,
        directions.0.relay.address == b.address,
        directions.1.source == b.outgoing,
        directions.1.sink == a.incoming,
        directions.1.relay.address == a.address,
{
    let forth = Forwarder {
        source: a.outgoing,
        sink: b.incoming,
        relay: Relay { address: b.address },
    };
    let back = Forwarder {
        source: b.outgoing,
        sink: a.incoming,
        relay: Relay { address: a.address },
    };
    (forth, back)
}

/// The forwarder leads from the interface that was opened last on `from` into the transport of
/// `to`, where its deliveries arrive on the interface that was opened last there.
pub open spec fn leads(forwarder: Forwarder, from: InterfaceManager, to: InterfaceManager) -> bool {
    &&& rns::receiver_queue(forwarder.source) == rns::interfaces(from).last().outbox
    &&& rns::sender_queue(forwarder.sink) == rns::inbox(to)
    &&& forwarder.relay.address == rns::interfaces(to).last().address
}

/// A bridge between ends that were opened on two transports carries what either of them sends
/// over its end into the other.
pub proof fn lemma_bridge_is_bidirectional(
    a: LoopbackEnd,
    b: LoopbackEnd,
    a_before: InterfaceManager,
    a_after: InterfaceManager,
    b_before: InterfaceManager,
    b_after: InterfaceManager,
)
    requires
        a.opened_on(a_before, a_after),
        b.opened_on(b_before, b_after),
    ensures
        leads(forwarder(a, b), a_after, b_after),
        leads(forwarder(b, a), b_after, a_after),
        rns::receiver_queue(forwarder(a, b).source) == rns::interfaces(a_after).last().outbox,
        rns::sender_queue(forwarder(a, b).sink) == rns::inbox(b_after),
        forwarder(a, b).relay.address == rns::interfaces(b_after).last().address,
        rns::receiver_queue(forwarder(b, a).source) == rns::interfaces(b_after).last().outbox,
        rns::sender_queue(forwarder(b, a).sink) == rns::inbox(a_after),
        forwarder(b, a).relay.address == rns::interfaces(a_after).last().address,
{
}

/// No two interfaces of the manager share a queue.
pub open spec fn queues_apart(manager: InterfaceManager) -> bool {
    forall|i: int, j: int|
        0 <= i < j < rns::interfaces(manager).len() ==> (#[trigger] rns::interfaces(
            manager,
        )[i]).outbox != (#[trigger] rns::interfaces(manager)[j]).outbox
}

/// Opening an end keeps the queues of a transport apart.
pub proof fn lemma_opening_keeps_queues_apart(
    end: LoopbackEnd,
    before: InterfaceManager,
    after: InterfaceManager,
)
    requires
        end.opened_on(before, after),
        queues_apart(before),
    ensures
        queues_apart(after),
{
}

/// Two bridges of one transport never share a queue: an end takes no message that is meant for an
/// end which was opened earlier and is still there, whatever was opened in between.
pub proof fn lemma_ends_of_one_transport_are_apart(
    first: LoopbackEnd,
    first_before: InterfaceManager,
    first_after: InterfaceManager,
    second: LoopbackEnd,
    second_before: InterfaceManager,
    second_after: InterfaceManager,
)
    requires
        first.opened_on(first_before, first_after),
        rns::interfaces(second_before).contains(rns::interfaces(first_after).last()),
        second.opened_on(second_before, second_after),
    ensures
        rns::receiver_queue(first.outgoing) != rns::receiver_queue(second.outgoing),
{
    let entry = rns::interfaces(first_after).last();
    let held = rns::interfaces(second_before);
    let i = choose|i: int| 0 <= i < held.len() && held[i] == entry;
    assert(held[i].outbox == rns::receiver_queue(first.outgoing));
}

} // verus!
