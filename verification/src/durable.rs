//! Durable, directory-scoped workspace and session facts: the identity of workspaces, records of
//! logical sessions, and their append-only journals.

pub mod error;
pub mod journal;
pub mod keys;
pub mod registry;
pub mod repository;
pub mod session;
pub mod storage;
pub mod time;
pub mod workspace;
