//! A pool configuration built in code, with optional compression flags.

use vstd::prelude::*;
use crate::config::{default_compress, required_field_problem, KeepPolicy};
use crate::text::concat;

verus! {

/// A pool configuration whose compression flags may be absent.
#[derive(Debug, Clone)]
pub struct PoolConfig {
    pub name: String,
    pub remote_host: String,
    pub remote_pool: String,
    pub local_pool: String,
    pub compress: String,
    pub compress_flags: Option<String>,
    pub keep_snapshots: Vec<KeepPolicy>,
}

/// A configuration with the given names, `lz4` compression, no flags and no
/// retention rules.
pub fn new_pool_config(name: &str, remote_host: &str, remote_pool: &str, local_pool: &str) -> (res:
    PoolConfig)
    ensures
        res.name@ == name@,
        res.remote_host@ == remote_host@,
        res.remote_pool@ == remote_pool@,
        res.local_pool@ == local_pool@,
        res.compress@ == "lz4"@,
        res.compress_flags is None,
        res.keep_snapshots@.len() == 0,
{
    PoolConfig {
        name: String::from_str(name),
        remote_host: String::from_str(remote_host),
        remote_pool: String::from_str(remote_pool),
        local_pool: String::from_str(local_pool),
        compress: default_compress(),
        compress_flags: None,
        keep_snapshots: Vec::new(),
    }
}

/// Checks that the remote host, the remote pool and the local pool are set;
/// the error is the message naming the first empty one.
pub fn validate(config: &PoolConfig) -> (res: Result<(), String>)
    ensures
        res is Ok <==> required_field_problem(
            config.remote_host@,
            config.remote_pool@,
            config.local_pool@,
        ) is None,
        res matches Err(m) ==> required_field_problem(
            config.remote_host@,
            config.remote_pool@,
            config.local_pool@,
        ) == Some(m@),
{
    if config.remote_host.as_str().is_empty() {
        return Err(String::from_str("remote_host is required"));
    }
    if config.remote_pool.as_str().is_empty() {
        return Err(String::from_str("remote_pool is required"));
    }
    if config.local_pool.as_str().is_empty() {
        return Err(String::from_str("local_pool is required"));
    }
    Ok(())
}

/// The compression flags in effect: the configured ones, or none.
pub open spec fn effective_flags(config: PoolConfig) -> Seq<char> {
    match config.compress_flags {
        Some(f) => f@,
        None => Seq::<char>::empty(),
    }
}

/// The compression flags in effect: the configured ones, or the empty text.
pub fn effective_compress_flags(config: &PoolConfig) -> (res: &str)
    ensures
        res@ == effective_flags(*config),
{
    match &config.compress_flags {
        Some(flags) => flags.as_str(),
        None => {
            proof {
                reveal_strlit("");
            }
            ""
        },
    }
}

/// The one-line summary of a configuration.
pub open spec fn summary_text(config: PoolConfig) -> Seq<char> {
    config.name@ + ": "@ + config.remote_host@ + " -> "@ + config.local_pool@ + " (compress="@
        + config.compress@ + ")"@
}

/// Summarizes a configuration, taking it:
/// `name: remote_host -> local_pool (compress=compress)`.
pub fn summarize_and_consume(config: PoolConfig) -> (res: String)
    ensures
        res@ == summary_text(config),
{
    let a = concat(config.name.as_str(), ": ");
    let b = concat(a.as_str(), config.remote_host.as_str());
    let c = concat(b.as_str(), " -> ");
    let d = concat(c.as_str(), config.local_pool.as_str());
    let e = concat(d.as_str(), " (compress=");
    let f = concat(e.as_str(), config.compress.as_str());
    concat(f.as_str(), ")")
}

} // verus!
