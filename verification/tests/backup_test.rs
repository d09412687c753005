use st_zfs_send_recv::backup::{
    backup_targets, decide, filter_filesystems, log_decision, plan_backup, BackupDecision,
    FilesystemPlan, LogLevel,
};
use st_zfs_send_recv::error::ZfsBackupError;

#[test]
fn filters_out_matching_filesystems() {
    let names = vec![
        "tank/data".to_string(),
        "tank/docker".to_string(),
        "tank/temp-1".to_string(),
    ];
    let skip = vec!["^tank/docker$".to_string(), "^tank/temp".to_string()];

    let kept = filter_filesystems(names, &skip).unwrap();
    assert_eq!(kept, vec!["tank/data".to_string()]);
}

#[test]
fn invalid_pattern_is_a_typed_error() {
    let err = filter_filesystems(vec!["tank/data".to_string()], &["(".to_string()]).unwrap_err();
    assert!(matches!(err, ZfsBackupError::InvalidPattern { .. }));
}

#[test]
fn invalid_pattern_is_reported_even_when_an_earlier_one_compiles() {
    let err = filter_filesystems(
        vec!["tank/data".to_string()],
        &["^tank".to_string(), "[".to_string(), "(".to_string()],
    )
    .unwrap_err();
    match err {
        ZfsBackupError::InvalidPattern { pattern, message } => {
            assert_eq!(pattern, "[");
            assert!(!message.is_empty());
        }
        _ => panic!("expected InvalidPattern"),
    }
}

#[test]
fn no_patterns_keep_everything_in_order() {
    let names = vec!["b".to_string(), "a".to_string()];
    assert_eq!(filter_filesystems(names.clone(), &vec![]).unwrap(), names);
}

#[test]
fn decision_up_to_date() {
    let d = decide(Some("@s1".to_string()), Some("@s1".to_string()));
    assert!(matches!(d, BackupDecision::UpToDate));
}

#[test]
fn decision_needs_initialization() {
    let d = decide(None, Some("@s1".to_string()));
    assert!(matches!(d, BackupDecision::NeedsInitialization));
}

#[test]
fn decision_incremental() {
    let d = decide(Some("@s1".to_string()), Some("@s2".to_string()));
    match d {
        BackupDecision::Incremental { from, to } => {
            assert_eq!(from, "@s1");
            assert_eq!(to, "@s2");
        }
        _ => panic!("expected Incremental"),
    }
}

#[test]
fn decision_nothing_to_send() {
    let d = decide(None, None);
    assert!(matches!(d, BackupDecision::NothingToSend));
}

#[test]
fn decision_nothing_to_send_even_with_a_common_snapshot() {
    let d = decide(Some("@s1".to_string()), None);
    assert!(matches!(d, BackupDecision::NothingToSend));
}

#[test]
fn decisions_are_logged_with_their_level() {
    let l = log_decision("tank/data", &BackupDecision::UpToDate);
    assert_eq!(l.level, LogLevel::Info);
    assert_eq!(l.message, "tank/data is already up to date");
    let l = log_decision("tank/new", &BackupDecision::NeedsInitialization);
    assert_eq!(l.level, LogLevel::Error);
    assert_eq!(
        l.message,
        "tank/new has no common snapshot: needs manual initialization"
    );
    let l = log_decision(
        "tank/logs",
        &BackupDecision::Incremental {
            from: "@daily-01".to_string(),
            to: "@daily-02".to_string(),
        },
    );
    assert_eq!(l.message, "tank/logs@daily-01 => @daily-02");
    let l = log_decision("tank/x", &BackupDecision::NothingToSend);
    assert_eq!(l.message, "tank/x has no snapshots on the remote side");
}

#[test]
fn plan_reports_missing_common_snapshot_even_without_source_snapshots() {
    assert_eq!(plan_backup(None, None), FilesystemPlan::NoCommonSnapshot);
    assert_eq!(
        plan_backup(None, Some("@a".to_string())),
        FilesystemPlan::NoCommonSnapshot
    );
    assert_eq!(
        plan_backup(Some("@a".to_string()), Some("@a".to_string())),
        FilesystemPlan::UpToDate {
            snapshot: "@a".to_string()
        }
    );
    assert_eq!(
        plan_backup(Some("@a".to_string()), Some("@b".to_string())),
        FilesystemPlan::Incremental {
            from: "@a".to_string(),
            to: "@b".to_string()
        }
    );
    assert_eq!(plan_backup(Some("@a".to_string()), None), FilesystemPlan::Nothing);
}

#[test]
fn targets_start_with_the_pool_roots() {
    let t = backup_targets(
        "tank",
        "backup/tank",
        &vec!["tank/data".to_string(), "tank/logs".to_string()],
    );
    assert_eq!(
        t,
        vec![
            ("tank".to_string(), "backup/tank".to_string()),
            ("tank/data".to_string(), "backup/tank/data".to_string()),
            ("tank/logs".to_string(), "backup/tank/logs".to_string()),
        ]
    );
}
