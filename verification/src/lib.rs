//! Verified core of the CozoDB command-line client, HTTP API and backends.

pub mod json;
pub mod paging;
pub mod text;
pub mod script;
pub mod db;
pub mod engine;
pub mod reply;
pub mod embedded;
pub mod remote;
pub mod api;
pub mod cli;
