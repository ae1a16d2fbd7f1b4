//! Platform-neutral device management: classification, snapshots and their
//! diffs, projection of lost devices. Depends only on the backend interface.

pub mod classify;
pub mod manager;
pub mod snapshot;
pub mod watch;
