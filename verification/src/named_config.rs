//! A pool configuration whose name is kept in canonical form.

use vstd::prelude::*;
use crate::config::{check_required_fields, required_fields_checked};
use crate::error::ZfsBackupError;
use crate::naming::{normalize_pool_name, normalized_pool_name};

pub use crate::config::KeepPolicy;

verus! {

/// A pool configuration with a normalized name.
#[derive(Debug, Clone, PartialEq, Eq)]
pub struct PoolConfig {
    pub name: String,
    pub remote_host: String,
    pub remote_pool: String,
    pub local_pool: String,
    pub keep_snapshots: Vec<KeepPolicy>,
}

/// A configuration with the given names, its name normalized (trimmed and
/// lowercased), and no retention rules.
pub fn new_pool_config(name: &str, remote_host: &str, remote_pool: &str, local_pool: &str) -> (res:
    PoolConfig)
    ensures
        res.name@ == normalized_pool_name(name@),
        res.remote_host@ == remote_host@,
        res.remote_pool@ == remote_pool@,
        res.local_pool@ == local_pool@,
        res.keep_snapshots@.len() == 0,
{
    PoolConfig {
        name: normalize_pool_name(name),
        remote_host: String::from_str(remote_host),
        remote_pool: String::from_str(remote_pool),
        local_pool: String::from_str(local_pool),
        keep_snapshots: Vec::new(),
    }
}

/// Checks that the remote host, the remote pool and the local pool are set.
pub fn validate_pool_config(config: &PoolConfig) -> (res: Result<(), ZfsBackupError>)
    ensures
        required_fields_checked(
            res,
            config.remote_host@,
            config.remote_pool@,
            config.local_pool@,
        ),
{
    check_required_fields(
        config.remote_host.as_str(),
        config.remote_pool.as_str(),
        config.local_pool.as_str(),
    )
}

} // verus!
