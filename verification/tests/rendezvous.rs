use rns_transport::destination::DestinationName;
use rns_transport::identity::PrivateIdentity;
use rns_transport::iface::{RxMessage, TxMessage, TxMessageType};
use rns_transport::packet::{Packet, PacketDataBuffer};
use rns_transport::transport::Transport;
use std::sync::Arc;
use std::time::Duration;
use sweet_reticulum::bridge::{
    wire_loopback, Delivery, Forwarder, LoopbackEnd, RelayAction, RelayEvent,
};
use sweet_reticulum::rendezvous::{Step, SweetReticulumRendezvous, SETTLE_MILLIS};
use sweet_reticulum::transport::{make_rns_transport, open_transport};
use tokio::runtime::{Builder, Handle, Runtime};
use tokio::sync::Mutex;
use tokio::time::timeout;

fn runtime() -> Runtime {
    Builder::new_multi_thread()
        .worker_threads(2)
        .enable_all()
        .build()
        .expect("runtime")
}

/// What stands for a node here: the transport that was wrapped, and its place.
struct Node {
    index: usize,
    transport: Arc<Mutex<Transport>>,
    identity: PrivateIdentity,
}

/// Runs one direction of a bridge.
async fn run(forwarder: Forwarder) {
    let Forwarder { mut source, sink, relay } = forwarder;
    let mut event = RelayEvent::Started;
    loop {
        event = match relay.next(event) {
            RelayAction::Receive => match source.recv().await {
                Some(TxMessage { packet, .. }) => RelayEvent::Received(packet),
                None => RelayEvent::Closed,
            },
            RelayAction::Deliver(Delivery { address, packet }) => {
                match sink.send(RxMessage { address, packet }).await {
                    Ok(()) => RelayEvent::Accepted,
                    Err(_) => RelayEvent::Refused,
                }
            }
            RelayAction::Stop => return,
        };
    }
}

async fn open_end(transport: &Arc<Mutex<Transport>>) -> LoopbackEnd {
    let manager = transport.lock().await.iface_manager();
    let mut manager = manager.lock().await;
    LoopbackEnd::open(&mut manager)
}

/// Carries a rendezvous through to the end, and returns it with the steps that were due.
async fn complete(n: usize) -> (SweetReticulumRendezvous<Node>, Vec<Step>) {
    let mut rendezvous: SweetReticulumRendezvous<Node> =
        SweetReticulumRendezvous::new(n, &Handle::current());
    let mut steps: Vec<Step> = Vec::new();
    loop {
        let step = rendezvous.next_step();
        steps.push(step);
        match step {
            Step::Bridge { a, b } => {
                let a = open_end(&rendezvous.transport(a)).await;
                let b = open_end(&rendezvous.transport(b)).await;
                let (forth, back) = wire_loopback(a, b);
                rendezvous.bridged(tokio::spawn(run(forth)), tokio::spawn(run(back)));
            }
            Step::Settle { millis } => {
                tokio::time::sleep(Duration::from_millis(millis)).await;
                rendezvous.settled();
            }
            Step::Wrap { index } => {
                let node = Node {
                    index,
                    transport: rendezvous.transport(index),
                    identity: rendezvous.identity(index).clone(),
                };
                rendezvous.wrapped(Arc::new(node));
            }
            Step::Ready => return (rendezvous, steps),
        }
    }
}

#[test]
fn one_conductor_needs_no_bridge() {
    runtime().block_on(async {
        let (rendezvous, steps) = complete(1).await;
        assert_eq!(
            steps,
            vec![Step::Settle { millis: 50 }, Step::Wrap { index: 0 }, Step::Ready]
        );
        assert_eq!(rendezvous.node(0).index, 0);
    });
}

#[test]
fn two_conductors_share_one_bridge() {
    runtime().block_on(async {
        let (rendezvous, steps) = complete(2).await;
        assert_eq!(
            steps,
            vec![
                Step::Bridge { a: 0, b: 1 },
                Step::Settle { millis: SETTLE_MILLIS },
                Step::Wrap { index: 0 },
                Step::Wrap { index: 1 },
                Step::Ready,
            ]
        );
        assert_eq!(rendezvous.node(0).index, 0);
        assert_eq!(rendezvous.node(1).index, 1);
    });
}

#[test]
fn four_conductors_are_bridged_pair_by_pair() {
    runtime().block_on(async {
        let (_rendezvous, steps) = complete(4).await;
        assert_eq!(
            steps,
            vec![
                Step::Bridge { a: 0, b: 1 },
                Step::Bridge { a: 0, b: 2 },
                Step::Bridge { a: 0, b: 3 },
                Step::Bridge { a: 1, b: 2 },
                Step::Bridge { a: 1, b: 3 },
                Step::Bridge { a: 2, b: 3 },
                Step::Settle { millis: 50 },
                Step::Wrap { index: 0 },
                Step::Wrap { index: 1 },
                Step::Wrap { index: 2 },
                Step::Wrap { index: 3 },
                Step::Ready,
            ]
        );
    });
}

#[test]
fn every_pair_is_bridged_once() {
    runtime().block_on(async {
        for n in 1..8usize {
            let (_rendezvous, steps) = complete(n).await;
            // The pairs, the pause, the nodes, and the end.
            assert_eq!(steps.len(), n * (n - 1) / 2 + 1 + n + 1);
            for i in 0..n {
                for j in (i + 1)..n {
                    let times = steps
                        .iter()
                        .filter(|step| **step == Step::Bridge { a: i, b: j })
                        .count();
                    assert_eq!(times, 1);
                }
            }
        }
    });
}

#[test]
fn nodes_keep_the_order_of_the_conductors() {
    runtime().block_on(async {
        let mut rendezvous: SweetReticulumRendezvous<String> =
            SweetReticulumRendezvous::new(3, &Handle::current());
        let mut nodes: Vec<Arc<String>> = Vec::new();
        loop {
            match rendezvous.next_step() {
                Step::Bridge { .. } => {
                    rendezvous.bridged(tokio::spawn(async {}), tokio::spawn(async {}))
                }
                Step::Settle { .. } => rendezvous.settled(),
                Step::Wrap { index } => {
                    assert_eq!(index, nodes.len());
                    nodes.push(Arc::new(format!("node {index}")));
                    rendezvous.wrapped(nodes[index].clone());
                    // It is there at once, and so are those before it.
                    for i in 0..nodes.len() {
                        assert!(Arc::ptr_eq(&rendezvous.node(i), &nodes[i]));
                    }
                }
                Step::Ready => break,
            }
        }
        assert_eq!(nodes.len(), 3);
    });
}

#[test]
fn each_conductor_has_a_transport_and_an_identity_of_its_own() {
    runtime().block_on(async {
        let rendezvous: SweetReticulumRendezvous<Node> =
            SweetReticulumRendezvous::new(3, &Handle::current());
        for i in 0..3usize {
            assert!(Arc::ptr_eq(&rendezvous.transport(i), &rendezvous.transport(i)));
            for j in 0..i {
                assert!(!Arc::ptr_eq(&rendezvous.transport(i), &rendezvous.transport(j)));
                assert_ne!(
                    rendezvous.identity(i).to_hex_string(),
                    rendezvous.identity(j).to_hex_string()
                );
            }
        }
    });
}

#[test]
fn each_conductor_has_a_node_of_its_own() {
    runtime().block_on(async {
        let (rendezvous, _steps) = complete(3).await;
        for i in 0..3usize {
            for j in 0..i {
                let (one, other) = (rendezvous.node(i), rendezvous.node(j));
                assert!(!Arc::ptr_eq(&one, &other));
                assert!(!Arc::ptr_eq(&one.transport, &other.transport));
                assert_ne!(one.identity.to_hex_string(), other.identity.to_hex_string());
            }
        }
    });
}

#[test]
fn a_complete_rendezvous_lets_go_of_the_transports() {
    runtime().block_on(async {
        let (rendezvous, _steps) = complete(3).await;
        for i in 0..3usize {
            assert_eq!(Arc::strong_count(&rendezvous.node(i).transport), 1);
        }
    });
}

#[test]
fn a_transport_can_be_opened_from_outside_the_runtime() {
    let runtime = runtime();
    let (shared, identity) = make_rns_transport("outside", runtime.handle());
    let (other, another) = make_rns_transport("outside", runtime.handle());
    assert!(!Arc::ptr_eq(&shared, &other));
    assert_ne!(identity.to_hex_string(), another.to_hex_string());
}

#[test]
fn a_transport_broadcasts_what_it_has_no_route_for() {
    runtime().block_on(async {
        let identity = PrivateIdentity::new_from_name("broadcaster");
        let shared = open_transport("broadcaster", &identity, &Handle::current());
        let mut end = open_end(&shared).await;
        let packet = Packet {
            data: PacketDataBuffer::new_from_slice(b"anyone"),
            ..Packet::default()
        };
        shared.lock().await.outbound(&packet).await;
        let sent = timeout(Duration::from_secs(5), end.outgoing.recv())
            .await
            .expect("in time")
            .expect("message");
        assert_eq!(sent, TxMessage { tx_type: TxMessageType::Broadcast(None), packet });
    });
}

#[test]
fn a_transport_does_not_pass_announces_on() {
    runtime().block_on(async {
        let sender = PrivateIdentity::new_from_name("sender");
        let middle = PrivateIdentity::new_from_name("middle");
        let sending = open_transport("sender", &sender, &Handle::current());
        let between = open_transport("middle", &middle, &Handle::current());
        let a = open_end(&sending).await;
        let b = open_end(&between).await;
        let mut beyond = open_end(&between).await;
        let (forth, _back) = wire_loopback(a, b);
        let _task = tokio::spawn(run(forth));

        let mut announces = between.lock().await.recv_announces().await;
        let destination = sending
            .lock()
            .await
            .add_destination(sender, DestinationName::new("sweet", "test"))
            .await;
        sending.lock().await.send_announce(&destination, None).await;
        timeout(Duration::from_secs(5), announces.recv())
            .await
            .expect("in time")
            .expect("announce");

        // It has arrived, and it goes no further.
        let passed_on = timeout(Duration::from_secs(3), beyond.outgoing.recv()).await;
        assert!(passed_on.is_err());
    });
}

#[test]
fn announces_reach_every_other_conductor() {
    runtime().block_on(async {
        let (rendezvous, _steps) = complete(3).await;
        for from in 0..3usize {
            let mut listeners = Vec::new();
            for to in 0..3usize {
                if to != from {
                    let node = rendezvous.node(to);
                    let announces = node.transport.lock().await.recv_announces().await;
                    listeners.push(announces);
                }
            }

            let node = rendezvous.node(from);
            let destination = node
                .transport
                .lock()
                .await
                .add_destination(node.identity.clone(), DestinationName::new("sweet", "test"))
                .await;
            let address = destination.lock().await.desc.address_hash;
            node.transport.lock().await.send_announce(&destination, None).await;

            for mut announces in listeners {
                let event = timeout(Duration::from_secs(5), announces.recv())
                    .await
                    .expect("in time")
                    .expect("announce");
                assert_eq!(event.destination.lock().await.desc.address_hash, address);
            }
        }
    });
}

#[test]
fn a_bridge_outlives_refused_deliveries_and_ends_with_its_sender() {
    runtime().block_on(async {
        let mut sending = rns_transport::iface::InterfaceManager::new(4);
        let mut receiving = rns_transport::iface::InterfaceManager::new(4);
        let a = LoopbackEnd::open(&mut sending);
        let b = LoopbackEnd::open(&mut receiving);
        let (forth, _back) = wire_loopback(a, b);
        let task = tokio::spawn(run(forth));

        // The receiving side goes: deliveries are refused, and the relay goes on.
        receiving.receiver().lock().await.close();
        let message = TxMessage {
            tx_type: TxMessageType::Broadcast(None),
            packet: Packet::default(),
        };
        for _ in 0..3 {
            assert_eq!(sending.send(message).await.sent_ifaces, 1);
            tokio::time::sleep(Duration::from_millis(20)).await;
        }
        assert!(!task.is_finished());

        // The sending side goes: the relay ends.
        drop(sending);
        timeout(Duration::from_secs(5), task)
            .await
            .expect("in time")
            .expect("task");
    });
}
