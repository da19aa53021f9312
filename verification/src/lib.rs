//! A fan-out event broadcaster: one upstream feed of blockchain state-change
//! notifications is delivered, in arrival order, to independently connected
//! subscribers, each with its own interest filter and its own bounded
//! delivery channel. Slow or disconnected subscribers are evicted without
//! delaying the others.

pub mod coordinator;
pub mod chan;
pub mod events;
pub mod filters;
pub mod grpc;
pub mod wire;

pub use events::Message;
