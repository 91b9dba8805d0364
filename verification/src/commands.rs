//! The requests behind each subcommand: resolve the time window, then build
//! the request for the server.
pub mod get;
pub mod search;
pub mod tag_values;
pub mod tags;
