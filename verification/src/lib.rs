//! Signaling and coordination core of a selective-forwarding audio unit.
//!
//! Clients hold a long-lived control session over which they register,
//! create and join rooms, publish one audio stream, and subscribe to the
//! streams of the other room members. This crate owns the control-plane
//! decisions: the user, room, publisher and consumer registries, the
//! session state machine that turns each inbound control message into
//! registry mutations and outbound messages, and the cleanup that runs
//! when a session disconnects. Media transports themselves (SDP exchange,
//! ICE, RTP forwarding) are driven by the embedding program, which asks
//! this crate what to do and reports back how each transport operation
//! went.

pub mod ids;
pub mod laws;
pub mod messages;
pub mod router;
pub mod session;
pub mod state;
pub mod util;
