use st_zfs_send_recv::config::{
    default_compress, default_compress_flags, default_uncompress_flags, validate_pool_config,
    KeepPolicy, PoolConfig,
};
use st_zfs_send_recv::error::ZfsBackupError;
use st_zfs_send_recv::named_config;
use st_zfs_send_recv::naming::{normalize_pool_name, pool_name_for_file, validate_pool_name};
use st_zfs_send_recv::simple_config;

#[test]
fn test_pool_config_creation() {
    let config = PoolConfig {
        name: "test".to_string(),
        remote_host: "backup.example.com".to_string(),
        remote_pool: "tank".to_string(),
        local_pool: "backup/tank".to_string(),
        compress: "lz4".to_string(),
        compress_flags: String::new(),
        uncompress_flags: "-dcfm".to_string(),
        keep_snapshots: vec![KeepPolicy {
            count: 7,
            label: "daily".to_string(),
        }],
        skip_filesystems: vec!["docker".to_string()],
    };

    assert_eq!(config.remote_host, "backup.example.com");
    assert_eq!(config.remote_pool, "tank");
    assert_eq!(config.local_pool, "backup/tank");
    assert_eq!(config.compress, "lz4");
    assert_eq!(config.keep_snapshots.len(), 1);
    assert_eq!(config.skip_filesystems.len(), 1);
}

#[test]
fn test_pool_config_defaults() {
    let config = PoolConfig {
        name: "test".to_string(),
        remote_host: "host".to_string(),
        remote_pool: "pool".to_string(),
        local_pool: "backup".to_string(),
        compress: "lz4".to_string(),
        compress_flags: String::new(),
        uncompress_flags: "-dcfm".to_string(),
        keep_snapshots: vec![],
        skip_filesystems: vec![],
    };

    assert_eq!(config.compress, "lz4");
    assert_eq!(config.uncompress_flags, "-dcfm");
}

#[test]
fn empty_local_pool_fails_manual_validation() {
    let config = PoolConfig {
        name: "test".to_string(),
        remote_host: "host".to_string(),
        remote_pool: "tank".to_string(),
        local_pool: String::new(),
        compress: default_compress(),
        compress_flags: default_compress_flags(),
        uncompress_flags: default_uncompress_flags(),
        keep_snapshots: vec![],
        skip_filesystems: vec![],
    };

    assert!(validate_pool_config(&config).is_err());
}

#[test]
fn defaults_have_documented_values() {
    assert_eq!(default_compress(), "lz4");
    assert_eq!(default_compress_flags(), "");
    assert_eq!(default_uncompress_flags(), "-dcfm");
}

#[test]
fn validation_names_the_first_missing_field() {
    let mut config = PoolConfig {
        name: "test".to_string(),
        remote_host: String::new(),
        remote_pool: String::new(),
        local_pool: String::new(),
        compress: default_compress(),
        compress_flags: default_compress_flags(),
        uncompress_flags: default_uncompress_flags(),
        keep_snapshots: vec![],
        skip_filesystems: vec![],
    };
    assert_eq!(
        validate_pool_config(&config),
        Err(ZfsBackupError::ConfigError("remote_host is required".to_string()))
    );
    config.remote_host = "h".to_string();
    assert_eq!(
        validate_pool_config(&config),
        Err(ZfsBackupError::ConfigError("remote_pool is required".to_string()))
    );
    config.remote_pool = "p".to_string();
    assert_eq!(
        validate_pool_config(&config),
        Err(ZfsBackupError::ConfigError("local_pool is required".to_string()))
    );
    config.local_pool = "l".to_string();
    assert_eq!(validate_pool_config(&config), Ok(()));
}

#[test]
fn valid_config_passes() {
    let config = simple_config::new_pool_config("tank", "host", "tank", "backup/tank");
    assert!(simple_config::validate(&config).is_ok());
}

#[test]
fn empty_remote_host_is_rejected() {
    let config = simple_config::new_pool_config("tank", "", "tank", "backup/tank");
    let err = simple_config::validate(&config).unwrap_err();
    assert_eq!(err, "remote_host is required");
}

#[test]
fn default_compress_flags_is_empty_string() {
    let config = simple_config::new_pool_config("tank", "host", "tank", "backup/tank");
    assert_eq!(simple_config::effective_compress_flags(&config), "");
}

#[test]
fn explicit_compress_flags_are_returned() {
    let mut config = simple_config::new_pool_config("tank", "host", "tank", "backup/tank");
    config.compress_flags = Some("--fast".to_string());
    assert_eq!(simple_config::effective_compress_flags(&config), "--fast");
}

#[test]
fn cloning_lets_you_use_data_after_a_move() {
    let config = simple_config::new_pool_config("tank", "host", "tank", "backup/tank");
    let kept = config.clone();
    let _summary = simple_config::summarize_and_consume(config);
    assert_eq!(kept.name, "tank");
}

#[test]
fn summary_has_the_documented_shape() {
    let config =
        simple_config::new_pool_config("tank", "backup.example.com", "tank", "backup/tank");
    assert_eq!(
        simple_config::summarize_and_consume(config),
        "tank: backup.example.com -> backup/tank (compress=lz4)"
    );
}

#[test]
fn new_pool_config_normalizes_name() {
    let config = named_config::new_pool_config("  TANK ", "host", "tank", "backup/tank");
    assert_eq!(config.name, "tank");
}

#[test]
fn can_call_pub_crate_helper_directly_from_unit_test() {
    assert_eq!(normalize_pool_name("Tank"), "tank");
}

#[test]
fn trims_and_lowercases() {
    assert_eq!(normalize_pool_name("  Tank-01 \n"), "tank-01");
}

#[test]
fn normalizing_trims_unicode_white_space() {
    assert_eq!(normalize_pool_name("\u{3000}\u{a0}Data\u{2029}"), "data");
    assert_eq!(normalize_pool_name("   "), "");
}

#[test]
fn empty_remote_pool_is_rejected() {
    let mut config = named_config::new_pool_config("tank", "host", "tank", "backup/tank");
    config.remote_pool = String::new();
    let err = named_config::validate_pool_config(&config).unwrap_err();
    assert_eq!(
        err,
        ZfsBackupError::ConfigError("remote_pool is required".to_string())
    );
}

#[test]
fn full_config_lifecycle() {
    let mut cfg = named_config::new_pool_config("Tank", "backup.example.com", "tank", "backup/tank");
    cfg.keep_snapshots.push(named_config::KeepPolicy {
        count: 7,
        label: "daily".to_string(),
    });

    assert_eq!(cfg.name, "tank");
    assert!(named_config::validate_pool_config(&cfg).is_ok());
}

#[test]
fn can_construct_pool_config_directly_because_fields_are_pub() {
    let cfg = named_config::PoolConfig {
        name: "test".to_string(),
        remote_host: "host".to_string(),
        remote_pool: "pool".to_string(),
        local_pool: "backup".to_string(),
        keep_snapshots: vec![],
    };

    assert!(named_config::validate_pool_config(&cfg).is_ok());
}

#[test]
fn empty_name_is_rejected() {
    let err = validate_pool_name("").unwrap_err();
    assert!(matches!(err, ZfsBackupError::ConfigError(_)));
}

#[test]
fn name_with_space_is_rejected() {
    let err = validate_pool_name("tank pool").unwrap_err();
    assert_eq!(
        err.message(),
        "Configuration error: pool name 'tank pool' must not contain spaces"
    );
}

#[test]
fn valid_name_passes() {
    assert!(validate_pool_name("tank").is_ok());
}

#[test]
fn pool_files_are_recognized_by_extension() {
    assert_eq!(pool_name_for_file("tank.pool"), Some("tank".to_string()));
    assert_eq!(pool_name_for_file("a.b.pool"), Some("a.b".to_string()));
    assert_eq!(pool_name_for_file("README.txt"), None);
    assert_eq!(pool_name_for_file(".pool"), None);
    assert_eq!(pool_name_for_file("pool"), None);
    assert_eq!(pool_name_for_file("tank.pool.bak"), None);
}

#[test]
fn error_texts_follow_their_variant() {
    assert_eq!(
        ZfsBackupError::SshError("x".to_string()).message(),
        "SSH error: x"
    );
    assert_eq!(
        ZfsBackupError::InvalidPattern {
            pattern: "(".to_string(),
            message: "m".to_string()
        }
        .message(),
        "Invalid skip_filesystems pattern '(': m"
    );
}

#[test]
fn every_error_variant_has_its_text() {
    let m = || "m".to_string();
    let cases = vec![
        (ZfsBackupError::SshError(m()), "SSH error: m"),
        (ZfsBackupError::DatabaseError(m()), "Database error: m"),
        (ZfsBackupError::ZfsCommandFailed(m()), "ZFS command failed: m"),
        (ZfsBackupError::ConfigError(m()), "Configuration error: m"),
        (ZfsBackupError::IoError(m()), "IO error: m"),
        (ZfsBackupError::InvalidSnapshot(m()), "Invalid snapshot state: m"),
        (ZfsBackupError::BackupFailed(m()), "Backup failed: m"),
        (
            ZfsBackupError::RemoteCommandFailed(m()),
            "Remote command execution failed: m",
        ),
    ];
    for (e, text) in cases {
        assert_eq!(e.message(), text);
    }
}
