//! Verified core of the iLEAP command-line client: error taxonomy, token-cache
//! naming, JWT claim extraction, request construction, retry and pagination
//! decisions, and the JSON shaping of every value the CLI prints.

pub mod auth;
pub mod cli;
pub mod client;
pub mod commands;
pub mod error;
pub mod json;
pub mod login;
pub mod text;
