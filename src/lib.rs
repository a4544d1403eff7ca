//! A client-side layer for the Neuro game protocol: action descriptors and
//! their schemas, the protocol envelopes, a decoder for action payloads whose
//! tag travels beside them, the dispatcher that turns inbound messages into
//! host work and results, and the controller-side force-request tracker.
pub mod json;
pub mod sanitize;
pub mod schema;
pub mod decode;
pub mod game;
pub mod tracker;
