//! Orchestration core: control plane states, route matrix, per-link decisions.

pub mod control;
pub mod guard;
pub mod link;
pub mod pump;
pub mod route;
