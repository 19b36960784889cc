//! Client-side driver for an on-chain verifiable-random-function (VRF)
//! request/fulfillment protocol and for a round-based game contract that
//! consumes that randomness.
//!
//! The crate holds the logic that is worth verifying: the request/polling
//! state machine (`driver`), the batched status-snapshot aggregation
//! (`status`), the domain-event codec (`events`), and the plain data model
//! they share (`types`). Network transport, wallet handling and terminal
//! output are collaborators that live outside this crate; they feed the
//! functions here with plain values and carry out the actions they decide.

pub mod codec;
pub mod driver;
pub mod events;
pub mod status;
pub mod text;
pub mod types;
