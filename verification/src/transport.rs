//! Opening the transport of one conductor.
use crate::rns;
use crate::rns::{DrawLog, Opening, TransportSettings};
use rns_transport::identity::PrivateIdentity;
use rns_transport::transport::Transport;
use std::sync::Arc;
use tokio::runtime::Handle;
use tokio::sync::Mutex;
use vstd::prelude::*;

verus! {

/// How long a link of the mesh may wait for its proof.
pub const LINK_PROOF_TIMEOUT_SECS: u64 = 5;

/// How long an idle link of the mesh is kept.
pub const LINK_IDLE_TIMEOUT_SECS: u64 = 60;

/// The settings of a transport in the mesh: it broadcasts, and its links time out early, since
/// everything happens within one process. All else is as the transport crate has it.
pub open spec fn loopback_settings(
    name: Seq<char>,
    identity: PrivateIdentity,
) -> TransportSettings {
    TransportSettings {
        link_proof_timeout_secs: LINK_PROOF_TIMEOUT_SECS,
        link_idle_timeout_secs: LINK_IDLE_TIMEOUT_SECS,
        ..rns::initial_settings(name, identity, true)
    }
}

/// Opens the transport called `name` under `identity`, with its tasks on `runtime`.
pub fn open_transport(name: &str, identity: &PrivateIdentity, runtime: &Handle) -> (shared: Arc<
    Mutex<Transport>,
>)
    ensures
        rns::shared_opening(*shared) == (Opening {
            settings: loopback_settings(name@, *identity),
            runtime: *runtime,
        }),
        rns::shared_opening(*shared).settings.name == name@,
        rns::shared_opening(*shared).settings.identity == *identity,
        rns::shared_opening(*shared).settings.broadcast,
        !rns::shared_opening(*shared).settings.retransmit,
        rns::shared_opening(*shared).settings.link_proof_timeout_secs == 5,
        rns::shared_opening(*shared).settings.link_idle_timeout_secs == 60,
{
    let mut config = rns::transport_config(name, identity, true);
    config.set_link_proof_timeout_secs(LINK_PROOF_TIMEOUT_SECS);
    config.set_link_idle_timeout_secs(LINK_IDLE_TIMEOUT_SECS);
    Arc::new(rns::lock_around(rns::start_transport(config, runtime)))
}

/// Opens the transport called `name` under an identity of its own, the next draw of `log`, and
/// returns both.
pub(crate) fn draw_rns_transport(name: &str, runtime: &Handle, log: &mut DrawLog) -> (made: (
    Arc<Mutex<Transport>>,
    PrivateIdentity,
))
    ensures
        final(log)@ == old(log)@.push(made.1),
        rns::shared_opening(*made.0) == (Opening {
            settings: loopback_settings(name@, made.1),
            runtime: *runtime,
        }),
{
    let identity = rns::random_identity(log);
    let shared = open_transport(name, &identity, runtime);
    (shared, identity)
}

/// Opens the transport called `name` under an identity of its own, drawn at random, and returns
/// both.
pub fn make_rns_transport(name: &str, runtime: &Handle) -> (made: (
    Arc<Mutex<Transport>>,
    PrivateIdentity,
))
    ensures
        rns::shared_opening(*made.0) == (Opening {
            settings: loopback_settings(name@, made.1),
            runtime: *runtime,
        }),
        rns::shared_opening(*made.0).settings.name == name@,
        rns::shared_opening(*made.0).settings.identity == made.1,
        rns::shared_opening(*made.0).settings.broadcast,
        !rns::shared_opening(*made.0).settings.retransmit,
        rns::shared_opening(*made.0).settings.link_proof_timeout_secs == 5,
        rns::shared_opening(*made.0).settings.link_idle_timeout_secs == 60,
{
    let mut log = DrawLog::new();
    draw_rns_transport(name, runtime, &mut log)
}

/// Every setting of a transport in the mesh, value by value: it broadcasts and passes nothing on, a
/// link has five seconds for its proof and sixty to be idle, and the rest is what the transport
/// crate starts from.
pub proof fn lemma_settings_of_the_mesh(name: Seq<char>, identity: PrivateIdentity)
    ensures
        loopback_settings(name, identity) == (TransportSettings {
            name: name,
            identity: identity,
            broadcast: true,
            retransmit: false,
            announce_cache_capacity: 100_000,
            announce_retry_limit: 1,
            announce_queue_len: 64,
            announce_cap: 128,
            path_request_timeout_secs: 30,
            link_proof_timeout_secs: 5,
            link_idle_timeout_secs: 60,
            resource_retry_interval_secs: 2,
            resource_retry_limit: 5,
            has_ratchet_store_path: false,
        }),
{
}

/// Transports that are opened under one identity, whichever that is, differ in their names and in
/// nothing else: the name has no part in any other setting, the identity included.
pub proof fn lemma_names_are_all_that_differs(
    one: Seq<char>,
    other: Seq<char>,
    identity: PrivateIdentity,
)
    ensures
        loopback_settings(one, identity).name == one,
        loopback_settings(one, identity).identity == identity,
        loopback_settings(one, identity) == (TransportSettings {
            name: one,
            ..loopback_settings(other, identity)
        }),
{
}

} // verus!
