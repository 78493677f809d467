//! What the library promises across its parts.

pub mod app;
pub mod commands;
pub mod configuration;
pub mod delivery;
pub mod durable;
pub mod files;
pub mod inputs;
pub mod models;
pub mod overview;
pub mod records;
pub mod requests;
pub mod results;
pub mod runtime;
pub mod sessions;
pub mod start;
pub mod writes;
