//! Decisions of a session: how records change inputs, and what its commands come to.

pub mod actor;
pub mod agent;
pub mod archive;
pub mod changes;
pub mod commands;
pub mod configuring;
pub mod delivery;
pub mod handling;
pub mod lifecycle;
pub mod requests;
