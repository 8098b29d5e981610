//! Core of a bridge relay: an HTTP caller submits a generation request, the
//! bridge broadcasts a work order to every connected peer, and the peers'
//! asynchronous status, partial-output and final-output events are correlated
//! back to the originating request by an opaque token and re-exposed to the
//! caller as an ordered, line-delimited JSON stream.
//!
//! This crate holds the verified logic of the relay: the typed event kinds and
//! their JSON line framing ([`codec`]), token minting and its distinctness
//! argument ([`token`]), and the bridge state machine itself — peer registry,
//! request table, event routing, timeout closure and stream draining
//! ([`bridge`]), with its laws stated and proved in [`laws`]. Transport,
//! sockets and scheduling stay outside; they drive this state machine and
//! perform the sends it decides on.

pub mod bridge;
pub mod codec;
pub mod laws;
pub mod token;
