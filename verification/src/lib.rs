//! Verified core of `dcli`, an operations tool for Apache Doris clusters.
//!
//! The library holds the logic of the tool: configuration model, release
//! catalogue parsing, host prechecks, SQL/script rendering, the encrypted
//! cluster store and the TUI data summaries. Network, terminal and file I/O
//! live in the application around it.
pub mod text;
pub mod strmap;
pub mod config;
pub mod release;
pub mod client;
pub mod ssh;
pub mod cluster_store;
pub mod cluster_meta;
pub mod detect;
pub mod ops;
pub mod cli;
pub mod scale;
pub mod version_gap;
pub mod lifecycle;
pub mod deploy;
pub mod clock;
pub mod tui;
pub mod commands;
pub mod output;
pub mod profile;
pub mod cluster;
