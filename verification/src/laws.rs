//! What holds of the service as a whole.

pub mod names;
pub mod changes;
pub mod calls;
pub mod heartbeats;
pub mod queries;
pub mod cleanups;
pub mod watchers;
pub mod lists;
pub mod streams;
pub mod times;
