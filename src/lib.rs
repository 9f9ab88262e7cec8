//! A control channel between a client and a long-lived daemon: endpoint
//! resolution, length-prefixed framing, the connector's fallback order, the
//! per-connection session machine, the persisted endpoint record and the
//! single-instance coordination that reads it.

pub mod frame;
pub mod message;
pub mod endpoint;
pub mod connect;
pub mod record;
pub mod coordinator;
pub mod session;
pub mod handle;
pub mod listen;
pub mod location;
