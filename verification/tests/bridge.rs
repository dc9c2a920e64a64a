use rns_transport::hash::AddressHash;
use rns_transport::iface::{InterfaceManager, RxMessage, TxMessage, TxMessageType};
use rns_transport::packet::{Packet, PacketDataBuffer};
use sweet_reticulum::bridge::{
    wire_loopback, Delivery, LoopbackEnd, Relay, RelayAction, RelayEvent, BRIDGE_CAPACITY,
};
use tokio::runtime::{Builder, Runtime};

fn runtime() -> Runtime {
    Builder::new_multi_thread()
        .worker_threads(2)
        .enable_all()
        .build()
        .expect("runtime")
}

fn packet(text: &str) -> Packet {
    Packet {
        data: PacketDataBuffer::new_from_slice(text.as_bytes()),
        ..Packet::default()
    }
}

fn address(byte: u8) -> AddressHash {
    AddressHash::new([byte; 16])
}

/// The delivery that a relay asks for, if it asks for one.
fn delivered(action: RelayAction) -> Option<Delivery> {
    match action {
        RelayAction::Deliver(delivery) => Some(delivery),
        _ => None,
    }
}

#[test]
fn relay_begins_by_receiving() {
    let relay = Relay { address: address(1) };
    assert!(matches!(relay.next(RelayEvent::Started), RelayAction::Receive));
}

#[test]
fn relay_delivers_the_packet_under_the_receiving_address() {
    let relay = Relay { address: address(9) };
    let delivery = delivered(relay.next(RelayEvent::Received(packet("hello")))).expect("delivery");
    assert_eq!(delivery.address, address(9));
    assert_eq!(delivery.packet, packet("hello"));
}

#[test]
fn relay_goes_on_whether_or_not_a_delivery_is_accepted() {
    let relay = Relay { address: address(1) };
    assert!(matches!(relay.next(RelayEvent::Accepted), RelayAction::Receive));
    assert!(matches!(relay.next(RelayEvent::Refused), RelayAction::Receive));
}

#[test]
fn relay_stops_when_the_sender_is_gone() {
    let relay = Relay { address: address(1) };
    assert!(matches!(relay.next(RelayEvent::Closed), RelayAction::Stop));
}

#[test]
fn relay_keeps_the_order_of_arrival() {
    let relay = Relay { address: address(3) };
    let events = vec![
        RelayEvent::Started,
        RelayEvent::Received(packet("one")),
        RelayEvent::Refused,
        RelayEvent::Received(packet("two")),
        RelayEvent::Accepted,
        RelayEvent::Received(packet("one")),
        RelayEvent::Accepted,
        RelayEvent::Closed,
    ];
    let mut packets: Vec<Packet> = Vec::new();
    for event in events {
        if let Some(delivery) = delivered(relay.next(event)) {
            assert_eq!(delivery.address, address(3));
            packets.push(delivery.packet);
        }
    }
    assert_eq!(packets, vec![packet("one"), packet("two"), packet("one")]);
}

#[test]
fn an_end_is_a_new_interface_with_room_for_the_bridge() {
    let mut manager = InterfaceManager::new(8);
    let first = LoopbackEnd::open(&mut manager);
    let second = LoopbackEnd::open(&mut manager);
    assert_eq!(BRIDGE_CAPACITY, 256);
    assert_eq!(first.outgoing.max_capacity(), 256);
    assert_eq!(second.outgoing.max_capacity(), 256);
    assert_ne!(first.address, second.address);
    assert!(first.incoming.same_channel(&second.incoming));
    assert_eq!(first.incoming.max_capacity(), 8);

    let mut other = InterfaceManager::new(8);
    let third = LoopbackEnd::open(&mut other);
    assert!(!first.incoming.same_channel(&third.incoming));
}

#[test]
fn the_address_of_an_end_depends_on_how_many_came_before() {
    let mut left = InterfaceManager::new(8);
    let mut right = InterfaceManager::new(8);
    for _ in 0..3 {
        let a = LoopbackEnd::open(&mut left);
        let b = LoopbackEnd::open(&mut right);
        assert_eq!(a.address, b.address);
    }
}

#[test]
fn the_directions_cross_over() {
    runtime().block_on(async {
        let mut left = InterfaceManager::new(8);
        let mut right = InterfaceManager::new(8);
        let _unused = LoopbackEnd::open(&mut right);
        let a = LoopbackEnd::open(&mut left);
        let b = LoopbackEnd::open(&mut right);
        let (a_address, b_address) = (a.address, b.address);
        assert_ne!(a_address, b_address);
        let (mut forth, mut back) = wire_loopback(a, b);
        assert_eq!(forth.relay.address, b_address);
        assert_eq!(back.relay.address, a_address);

        // What the left transport sends over its end comes out of the way forth.
        let direct = TxMessage {
            tx_type: TxMessageType::Direct(a_address),
            packet: packet("from the left"),
        };
        assert_eq!(left.send(direct).await.sent_ifaces, 1);
        assert_eq!(forth.source.recv().await, Some(direct));

        // What the right transport sends over its end comes out of the way back.
        let direct = TxMessage {
            tx_type: TxMessageType::Direct(b_address),
            packet: packet("from the right"),
        };
        assert_eq!(right.send(direct).await.sent_ifaces, 1);
        assert_eq!(back.source.recv().await, Some(direct));

        // The way forth ends in the right transport, the way back in the left one.
        let message = RxMessage { address: b_address, packet: packet("to the right") };
        forth.sink.send(message).await.expect("send");
        assert_eq!(right.receiver().lock().await.recv().await, Some(message));
        let message = RxMessage { address: a_address, packet: packet("to the left") };
        back.sink.send(message).await.expect("send");
        assert_eq!(left.receiver().lock().await.recv().await, Some(message));
    });
}

#[test]
fn two_ends_of_one_transport_have_queues_of_their_own() {
    runtime().block_on(async {
        let mut manager = InterfaceManager::new(8);
        let mut ends = Vec::new();
        for _ in 0..4 {
            ends.push(LoopbackEnd::open(&mut manager));
        }
        for i in 0..ends.len() {
            let direct = TxMessage {
                tx_type: TxMessageType::Direct(ends[i].address),
                packet: packet("for one alone"),
            };
            assert_eq!(manager.send(direct).await.sent_ifaces, 1);
            for j in 0..ends.len() {
                let waiting = if i == j { 1 } else { 0 };
                assert_eq!(ends[j].outgoing.len(), waiting);
            }
            assert_eq!(ends[i].outgoing.recv().await, Some(direct));
        }
    });
}
