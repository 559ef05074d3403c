//! Signalling relay: the identifiers and messages of the protocol, the
//! user and session registries, and the routing state machine that decides
//! where each message goes.
pub mod protocol;
pub mod registry;
pub mod relay;
pub mod laws;
