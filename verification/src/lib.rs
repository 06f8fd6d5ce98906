//! A real-time broadcast hub: clients join a single shared room over a
//! message-framed connection, and any text frame one member sends is relayed
//! to every current member. This crate holds the verified core — the
//! membership registry, the fanout, and the per-connection session life
//! cycle — over unbounded delivery channels; the listener, the handshake and
//! the frame encoding live outside it.

pub mod channel;
pub mod frame;
pub mod laws;
pub mod model;
pub mod room;
pub mod session;
