//! Request-handling core of a forwarding HTTP proxy: an ordered,
//! case-insensitive header store with exact reserialization, the request
//! model with target resolution, and the decision logic of the upstream relay.

pub mod error;
pub mod headers;
pub mod laws;
pub mod request;
pub mod relay;
