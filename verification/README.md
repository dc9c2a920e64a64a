# sweet_reticulum

An in-process meeting place for conductors that talk over Reticulum. Each conductor gets a
Reticulum transport of its own, every two transports are joined by a loopback bridge, and each
transport is wrapped into a node. Nothing touches a real network interface.

- `src/` is the library, verified with Verus: which transports are opened and how, which of them
  are joined and in which order, what a bridge does with a packet, and how far a rendezvous has come.
  `src/rns.rs` holds the outside types and calls that the proofs rest on.
- `app/` runs a rendezvous on tokio. It does what the library's steps ask for and reports back.
- `tests/` runs the library on real transports.

The library is written against `reticulum-rs-transport` 0.2.
