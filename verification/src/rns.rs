//! The Reticulum transport and the tokio types as the library sees them: opaque types, names for
//! what they were made with, and the outside calls that the library makes.
//!
//! Everything in this module is taken on trust. Nothing in it decides anything.
use rand_core::OsRng;
use rns_transport::hash::AddressHash;
use rns_transport::identity::PrivateIdentity;
use rns_transport::iface::{InterfaceManager, RxMessage, TxMessage};
use rns_transport::packet::Packet;
use rns_transport::transport::{Transport, TransportConfig};
use tokio::runtime::Handle;
use tokio::sync::mpsc::{Receiver, Sender};
use tokio::sync::Mutex;
use tokio::task::{JoinError, JoinHandle};
use vstd::prelude::*;

verus! {

/// The key pair by which a Reticulum node is known.
#[verifier::external_type_specification]
#[verifier::external_body]
pub struct ExPrivateIdentity(PrivateIdentity);

/// What a transport is opened with.
#[verifier::external_type_specification]
#[verifier::external_body]
pub struct ExTransportConfig(TransportConfig);

/// A running Reticulum transport.
#[verifier::external_type_specification]
#[verifier::external_body]
pub struct ExTransport(Transport);

/// The interfaces of one transport.
#[verifier::external_type_specification]
#[verifier::external_body]
pub struct ExInterfaceManager(InterfaceManager);

/// The address of an interface.
#[verifier::external_type_specification]
#[verifier::external_body]
pub struct ExAddressHash(AddressHash);

/// A Reticulum packet.
#[verifier::external_type_specification]
#[verifier::external_body]
pub struct ExPacket(Packet);

/// A message that a transport hands to one of its interfaces.
#[verifier::external_type_specification]
#[verifier::external_body]
pub struct ExTxMessage(TxMessage);

/// A message that an interface hands to its transport.
#[verifier::external_type_specification]
#[verifier::external_body]
pub struct ExRxMessage(RxMessage);

/// A running tokio runtime.
#[verifier::external_type_specification]
#[verifier::external_body]
pub struct ExHandle(Handle);

/// The sending end of a bounded tokio queue.
#[verifier::external_type_specification]
#[verifier::external_body]
#[verifier::reject_recursive_types(T)]
pub struct ExSender<T>(Sender<T>);

/// The receiving end of a bounded tokio queue.
#[verifier::external_type_specification]
#[verifier::external_body]
#[verifier::reject_recursive_types(T)]
pub struct ExReceiver<T>(Receiver<T>);

/// A tokio lock.
#[verifier::external_type_specification]
#[verifier::external_body]
#[verifier::reject_recursive_types(T)]
pub struct ExMutex<T: ?Sized>(Mutex<T>);

/// A spawned tokio task.
#[verifier::external_type_specification]
#[verifier::external_body]
#[verifier::reject_recursive_types(T)]
pub struct ExJoinHandle<T>(JoinHandle<T>);

/// How a tokio task failed: the error type of `JoinHandle`'s own output.
#[verifier::external_type_specification]
#[verifier::external_body]
pub struct ExJoinError(JoinError);

/// The settings of a transport.
pub struct TransportSettings {
    /// The name that the transport goes by.
    pub name: Seq<char>,
    /// The identity that it acts under.
    pub identity: PrivateIdentity,
    /// Whether packets without a known route go out on every interface.
    pub broadcast: bool,
    /// Whether it passes on what it receives for others.
    pub retransmit: bool,
    /// How many announces it remembers.
    pub announce_cache_capacity: usize,
    /// How often it repeats an announce.
    pub announce_retry_limit: u8,
    /// How many path requests of one interface may wait to be passed on.
    pub announce_queue_len: usize,
    /// How many path requests of one interface it passes on at a time.
    pub announce_cap: usize,
    /// How long a path request may go unanswered.
    pub path_request_timeout_secs: u64,
    /// How long a link may wait for its proof.
    pub link_proof_timeout_secs: u64,
    /// How long an idle link is kept.
    pub link_idle_timeout_secs: u64,
    /// How long the transfer of a resource waits before it tries again.
    pub resource_retry_interval_secs: u64,
    /// How often the transfer of a resource tries again.
    pub resource_retry_limit: u8,
    /// Whether there is a path under which it stores ratchets.
    pub has_ratchet_store_path: bool,
}

/// The settings that the transport crate starts from.
pub open spec fn initial_settings(
    name: Seq<char>,
    identity: PrivateIdentity,
    broadcast: bool,
) -> TransportSettings {
    TransportSettings {
        name: name,
        identity: identity,
        broadcast: broadcast,
        retransmit: false,
        announce_cache_capacity: 100_000,
        announce_retry_limit: 1,
        announce_queue_len: 64,
        announce_cap: 128,
        path_request_timeout_secs: 30,
        link_proof_timeout_secs: 600,
        link_idle_timeout_secs: 900,
        resource_retry_interval_secs: 2,
        resource_retry_limit: 5,
        has_ratchet_store_path: false,
    }
}

/// The settings that a `TransportConfig` holds.
pub uninterp spec fn config_settings(config: TransportConfig) -> TransportSettings;

/// How a transport came to be.
pub struct Opening {
    /// The settings that it was opened with.
    pub settings: TransportSettings,
    /// The runtime that it was opened on.
    pub runtime: Handle,
}

/// How a `Transport` was opened.
pub uninterp spec fn opening(transport: Transport) -> Opening;

/// How the `Transport` behind a lock was opened.
pub uninterp spec fn shared_opening(shared: Mutex<Transport>) -> Opening;

/// The identities that were drawn at random, one after the other. Only a draw adds to it, so two
/// places in the log are two draws, and a copy of an identity is not in it.
pub struct DrawLog {
    drawn: Ghost<Seq<PrivateIdentity>>,
}

impl View for DrawLog {
    type V = Seq<PrivateIdentity>;

    closed spec fn view(&self) -> Seq<PrivateIdentity> {
        self.drawn@
    }
}

impl DrawLog {
    /// A log without a draw.
    pub(crate) fn new() -> (log: DrawLog)
        ensures
            log@.len() == 0,
    {
        DrawLog { drawn: Ghost(Seq::empty()) }
    }
}

/// Calls `PrivateIdentity::new_from_rand` with `OsRng`: a fresh identity out of the operating
/// system's random numbers, which is one more draw in the log. Nothing else is claimed of it, since
/// it depends on chance.
#[verifier::external_body]
pub(crate) fn random_identity(log: &mut DrawLog) -> (identity: PrivateIdentity)
    ensures
        final(log)@ == old(log)@.push(identity),
{
    PrivateIdentity::new_from_rand(OsRng)
}

/// Calls `TransportConfig::new`: the config holds the three arguments, and in all other settings
/// what the transport crate starts from.
#[verifier::external_body]
pub(crate) fn transport_config(name: &str, identity: &PrivateIdentity, broadcast: bool) -> (config:
    TransportConfig)
    ensures
        config_settings(config) == initial_settings(name@, *identity, broadcast),
{
    TransportConfig::new(name, identity, broadcast)
}

/// `TransportConfig::set_link_proof_timeout_secs` replaces the proof timeout and nothing else.
pub assume_specification[ TransportConfig::set_link_proof_timeout_secs ](
    config: &mut TransportConfig,
    secs: u64,
)
    ensures
        config_settings(*final(config)) == (TransportSettings {
            link_proof_timeout_secs: secs,
            ..config_settings(*old(config))
        }),
;

/// `TransportConfig::set_link_idle_timeout_secs` replaces the idle timeout and nothing else.
pub assume_specification[ TransportConfig::set_link_idle_timeout_secs ](
    config: &mut TransportConfig,
    secs: u64,
)
    ensures
        config_settings(*final(config)) == (TransportSettings {
            link_idle_timeout_secs: secs,
            ..config_settings(*old(config))
        }),
;

/// Calls `Transport::new` inside `runtime`, which `Handle::enter` provides: the transport keeps the
/// config that it is given, and its tasks go to the runtime.
///
/// `Transport::new` spawns the tasks that serve the transport and panics where there is no
/// runtime to spawn them on, hence the handle. What those tasks do is not claimed here.
#[verifier::external_body]
pub(crate) fn start_transport(config: TransportConfig, runtime: &Handle) -> (transport: Transport)
    ensures
        opening(transport) == (Opening { settings: config_settings(config), runtime: *runtime }),
{
    let _entered = runtime.enter();
    Transport::new(config)
}

/// Calls `tokio::sync::Mutex::new`: the lock guards the transport that it is given.
#[verifier::external_body]
pub(crate) fn lock_around(transport: Transport) -> (shared: Mutex<Transport>)
    ensures
        shared_opening(shared) == opening(transport),
{
    Mutex::new(transport)
}

/// What an `InterfaceManager` knows of one of its interfaces.
pub struct InterfaceRecord {
    /// The address that the interface is found by.
    pub address: AddressHash,
    /// The queue that messages for the interface are put on.
    pub outbox: int,
    /// How many messages that queue holds.
    pub capacity: nat,
}

/// The interfaces that an `InterfaceManager` holds, in the order in which they were opened.
pub uninterp spec fn interfaces(manager: InterfaceManager) -> Seq<InterfaceRecord>;

/// The address that an `InterfaceManager` gives to the next interface that is opened on it.
pub uninterp spec fn next_address(manager: InterfaceManager) -> AddressHash;

/// The queue out of which the transport of an `InterfaceManager` takes what its interfaces hand in.
/// Queues are told apart by a number each; the number means nothing else.
pub uninterp spec fn inbox(manager: InterfaceManager) -> int;

/// The queue that a sender puts messages on.
pub uninterp spec fn sender_queue(sender: Sender<RxMessage>) -> int;

/// The queue that a receiver takes messages from.
pub uninterp spec fn receiver_queue(receiver: Receiver<TxMessage>) -> int;

/// Calls `InterfaceManager::new_channel`: one more interface, found by the manager's next address,
/// whose messages wait on a queue of the given capacity that the returned receiver empties. The
/// queue is new: no interface that the manager holds already has it. The returned sender fills the queue that the manager's transport reads, which stays what it was.
///
/// The queue's capacity has to be at least one and at most `Semaphore::MAX_PERMITS`, an eighth of
/// what a `usize` can hold: tokio panics on any other. The manager numbers its channels from one
/// on, in a `usize` that nothing reads back, and makes each address out of the number; it would
/// take as many channels as a `usize` can count to use the numbers up.
#[verifier::external_body]
pub(crate) fn new_channel(manager: &mut InterfaceManager, capacity: usize) -> (channel: (
    AddressHash,
    Receiver<TxMessage>,
    Sender<RxMessage>,
))
    requires
        1 <= capacity <= usize::MAX / 8,
    ensures
        channel.0 == next_address(*old(manager)),
        interfaces(*final(manager)) == interfaces(*old(manager)).push(
            InterfaceRecord {
                address: channel.0,
                outbox: receiver_queue(channel.1),
                capacity: capacity as nat,
            },
        ),
        forall|i: int|
            0 <= i < interfaces(*old(manager)).len() ==> (#[trigger] interfaces(
                *old(manager),
            )[i]).outbox != receiver_queue(channel.1),
        inbox(*final(manager)) == inbox(*old(manager)),
        sender_queue(channel.2) == inbox(*old(manager)),
{
    let channel = manager.new_channel(capacity);
    (channel.address, channel.tx_channel, channel.rx_channel)
}

} // verus!
