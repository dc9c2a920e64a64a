//! An in-process meeting place for conductors that talk over Reticulum.
//!
//! Each conductor gets a transport of its own, and every two transports are joined by a loopback
//! bridge, so that announces and link traffic flow between all of them without a network interface.
//!
//! - [`rendezvous`]: the meeting place itself, from the opening of the transports to the nodes.
//! - [`mesh`]: which transports are joined, and in which order.
//! - [`bridge`]: how two of them are joined, and what a bridge does with a packet.
//! - [`transport`] and [`names`]: how a transport is opened, and under which name.
//! - [`rns`]: the outside types and calls that all of this rests on.
pub mod bridge;
pub mod mesh;
pub mod names;
pub mod rendezvous;
pub mod rns;
pub mod transport;

pub use bridge::{wire_loopback, LoopbackEnd};
pub use rendezvous::{Step, SweetReticulumRendezvous};
