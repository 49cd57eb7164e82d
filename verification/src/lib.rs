//! A presence service: devices report in by heartbeat, a key-value store
//! remembers them, and queries tell which devices are online and what they
//! can do.
//!
//! The library holds what the service decides. It never talks to the store,
//! the broker or a client itself: a function here says which request to send
//! next, and a further function takes the reply.

pub mod text;
pub mod json;
pub mod store;
pub mod clock;
pub mod heartbeat;
pub mod expiry;
pub mod devices;
pub mod channel_status;
pub mod metrics;
pub mod counter;
pub mod service;
pub mod model;
pub mod laws;
