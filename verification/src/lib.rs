//! Incremental ZFS snapshot replication: configuration, `zfs list` parsing,
//! snapshot state kept in SQLite, and the decisions that drive a backup run.

pub mod text;
pub mod error;
pub mod naming;
pub mod config;
pub mod simple_config;
pub mod named_config;
pub mod listing;
pub mod db;
pub mod tables;
pub mod zfs;
pub mod pipeline;
pub mod discovery;
pub mod pattern;
pub mod backup;
pub mod remote;
pub mod catalog;
