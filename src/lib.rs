//! A remote-document client: it decodes a stream of tree mutations sent by a
//! peer, keeps the node tree they describe, turns that tree into a scene of
//! primitives, and reports input hits back to the peer by node identity.

pub mod framing;
pub mod json;
pub mod transport;
pub mod dom;
pub mod document;
pub mod scene;
pub mod events;
pub mod session;
pub mod perf;
pub mod laws;
