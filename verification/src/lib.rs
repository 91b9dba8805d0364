//! Core of a command-line client for Grafana Tempo: time-argument resolution,
//! the HTTP requests the client sends, a model of the JSON documents Tempo
//! returns, and the human-readable rendering of traces, search results and tags.
//!
//! Everything here is plain computation; reading the environment, talking to
//! the server, printing and colouring are left to the program that uses it.
pub mod binary64;
pub mod client;
pub mod duration_bound;
pub mod commands;
pub mod format;
pub mod json;
pub mod text;
pub mod time;
