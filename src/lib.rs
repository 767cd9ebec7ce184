//! The peer-connection core of an A2DP audio service: a registry of connected Bluetooth peers
//! with weak handles that die with their session, the negotiation that pairs a local codec
//! configuration with a remote endpoint, the per-peer copies of the local stream endpoints, and
//! the service-record helpers that the registry's descriptors come from.

pub mod codec;
pub mod connected_peers;
pub mod peer;
pub mod profile;
pub mod stream;
pub mod zircon_types;
