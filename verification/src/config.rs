//! The configuration of one pool, as a `*.pool` file describes it.

use vstd::prelude::*;
use crate::error::ZfsBackupError;

verus! {

/// A retention rule: keep the `count` most recent snapshots labelled
/// `label`.
#[derive(Debug, Clone, PartialEq, Eq)]
pub struct KeepPolicy {
    pub count: u32,
    pub label: String,
}

/// One pool to back up: where its source lives and where it goes.
#[derive(Debug, Clone)]
pub struct PoolConfig {
    pub name: String,
    pub remote_host: String,
    pub remote_pool: String,
    pub local_pool: String,
    pub compress: String,
    pub compress_flags: String,
    pub uncompress_flags: String,
    pub keep_snapshots: Vec<KeepPolicy>,
    pub skip_filesystems: Vec<String>,
}

/// The compression program used when a configuration names none: `lz4`.
pub fn default_compress() -> (res: String)
    ensures
        res@ == "lz4"@,
{
    String::from_str("lz4")
}

/// The compression flags used when a configuration names none: none.
pub fn default_compress_flags() -> (res: String)
    ensures
        res@ == Seq::<char>::empty(),
{
    String::new()
}

/// The decompression flags used when a configuration names none: `-dcfm`.
pub fn default_uncompress_flags() -> (res: String)
    ensures
        res@ == "-dcfm"@,
{
    String::from_str("-dcfm")
}

/// The message with which a configuration is refused, if it is: the first
/// of the three required fields that is empty.
pub open spec fn required_field_problem(
    remote_host: Seq<char>,
    remote_pool: Seq<char>,
    local_pool: Seq<char>,
) -> Option<Seq<char>> {
    if remote_host.len() == 0 {
        Some("remote_host is required"@)
    } else if remote_pool.len() == 0 {
        Some("remote_pool is required"@)
    } else if local_pool.len() == 0 {
        Some("local_pool is required"@)
    } else {
        None
    }
}

/// The outcome of checking three required fields: `Ok` when none is empty,
/// else a configuration error naming the first empty one.
pub open spec fn required_fields_checked(
    res: Result<(), ZfsBackupError>,
    remote_host: Seq<char>,
    remote_pool: Seq<char>,
    local_pool: Seq<char>,
) -> bool {
    &&& res is Ok <==> required_field_problem(remote_host, remote_pool, local_pool) is None
    &&& res matches Err(e) ==> (e matches ZfsBackupError::ConfigError(m) && required_field_problem(
        remote_host,
        remote_pool,
        local_pool,
    ) == Some(m@))
}

/// Checks that the remote host, the remote pool and the local pool are set.
pub fn check_required_fields(remote_host: &str, remote_pool: &str, local_pool: &str) -> (res:
    Result<(), ZfsBackupError>)
    ensures
        required_fields_checked(res, remote_host@, remote_pool@, local_pool@),
{
    if remote_host.is_empty() {
        return Err(ZfsBackupError::ConfigError(String::from_str("remote_host is required")));
    }
    if remote_pool.is_empty() {
        return Err(ZfsBackupError::ConfigError(String::from_str("remote_pool is required")));
    }
    if local_pool.is_empty() {
        return Err(ZfsBackupError::ConfigError(String::from_str("local_pool is required")));
    }
    Ok(())
}

/// Checks a loaded configuration: the remote host, the remote pool and the
/// local pool must not be empty.
pub fn validate_pool_config(config: &PoolConfig) -> (res: Result<(), ZfsBackupError>)
    ensures
        required_fields_checked(
            res,
            config.remote_host@,
            config.remote_pool@,
            config.local_pool@,
        ),
{
    check_required_fields(
        config.remote_host.as_str(),
        config.remote_pool.as_str(),
        config.local_pool.as_str(),
    )
}


/// A configuration is accepted exactly when its remote host, remote pool and
/// local pool are all set.
pub proof fn law_required_fields(remote_host: Seq<char>, remote_pool: Seq<char>, local_pool: Seq<char>)
    ensures
        required_field_problem(remote_host, remote_pool, local_pool) is None <==> (remote_host.len()
            > 0 && remote_pool.len() > 0 && local_pool.len() > 0),
{
}

} // verus!
