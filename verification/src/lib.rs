//! Request/response multiplexing for a hardware-telemetry service.
//!
//! Many callers share one duplex byte stream. Every message travels in a
//! length-delimited frame tagged with a correlation id, a single actor owns
//! the hardware backend, and an indexed cache answers hardware and sensor
//! queries between reloads.
//!
//! The crate holds the decisions of that system: the wire framing, the
//! correlation table, the cache and the command handling of the actor. The
//! surrounding program performs the I/O and feeds the outcomes back in.

pub mod actor;
pub mod buffer;
pub mod cache;
pub mod client;
pub mod codec;
pub mod pipe;
pub mod protocol;
pub mod server;
