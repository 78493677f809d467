//! The verified core of the BONE application: durable session data, configuration, credentials,
//! command-line arguments and the decisions of the session runtime.

pub mod api;
pub mod app;
pub mod cli;
pub mod config;
pub mod credentials;
pub mod document;
pub mod durable;
pub mod error;
pub mod file_config;
pub mod hashing;
pub mod ids;
pub mod json;
pub mod laws;
pub mod path;
pub mod persistence;
pub mod profiles;
pub mod providers;
pub mod record;
pub mod safe_file;
pub mod seqs;
pub mod session;
pub mod settings;
pub mod startup;
pub mod text;
pub mod title;
pub mod uri;
