use st_zfs_send_recv::backup::BackupDecision;
use st_zfs_send_recv::catalog::{
    get_common_snapshot, get_filesystems, get_fs_guid, get_newest_snapshot, initialize_db,
    insert_fs, insert_snapshot, review_pool, seed_fake_discovery,
};
use rusqlite::Connection;
use st_zfs_send_recv::error::ZfsBackupError;

#[test]
fn review_of_the_sample_pool() {
    let mut conn = Connection::open_in_memory().unwrap();
    initialize_db(&mut conn).unwrap();
    seed_fake_discovery(&mut conn, "tank").unwrap();
    let review = review_pool(&conn, "tank", &["^tank/docker$".to_string()]).unwrap();
    assert_eq!(
        review,
        vec![
            ("tank/data".to_string(), BackupDecision::UpToDate),
            (
                "tank/logs".to_string(),
                BackupDecision::Incremental {
                    from: "@daily-01".to_string(),
                    to: "@daily-02".to_string()
                }
            ),
            ("tank/new".to_string(), BackupDecision::NeedsInitialization),
        ]
    );
}

#[test]
fn review_without_patterns_covers_every_filesystem() {
    let mut conn = Connection::open_in_memory().unwrap();
    initialize_db(&mut conn).unwrap();
    seed_fake_discovery(&mut conn, "tank").unwrap();
    let review = review_pool(&conn, "tank", &[]).unwrap();
    assert_eq!(review.len(), 4);
    assert_eq!(review[0].0, "tank/data");
    assert_eq!(review[1], ("tank/docker".to_string(), BackupDecision::NothingToSend));
}

#[test]
fn review_refuses_a_bad_pattern() {
    let mut conn = Connection::open_in_memory().unwrap();
    initialize_db(&mut conn).unwrap();
    let err = review_pool(&conn, "tank", &["(".to_string()]).unwrap_err();
    assert!(matches!(err, ZfsBackupError::InvalidPattern { .. }));
}

#[test]
fn guid_keyed_queries() {
    let mut conn = Connection::open_in_memory().unwrap();
    initialize_db(&mut conn).unwrap();
    insert_fs(&mut conn, "tank", "g1", "tank/a").unwrap();
    insert_snapshot(&mut conn, "snap_src", "g1", "s1", "2024-01-01", "one").unwrap();
    insert_snapshot(&mut conn, "snap_src", "g1", "s2", "2024-01-02", "two").unwrap();
    insert_snapshot(&mut conn, "snap_dst", "g1", "s1", "2024-01-01", "one").unwrap();
    assert_eq!(get_filesystems(&conn, "tank").unwrap(), vec!["tank/a".to_string()]);
    assert_eq!(get_fs_guid(&conn, "tank/a").unwrap(), Some("g1".to_string()));
    assert_eq!(get_fs_guid(&conn, "tank/b").unwrap(), None);
    assert_eq!(get_common_snapshot(&conn, "g1").unwrap(), Some("@one".to_string()));
    assert_eq!(get_newest_snapshot(&conn, "g1").unwrap(), Some("@two".to_string()));
    assert!(insert_fs(&mut conn, "tank", "g1", "tank/dup").is_err());
}

#[test]
fn insert_without_schema_reports_sqlite_text() {
    let mut conn = Connection::open_in_memory().unwrap();
    let err = insert_fs(&mut conn, "tank", "1", "tank/data").unwrap_err();
    match err {
        ZfsBackupError::DatabaseError(m) => assert_eq!(m, "no such table: fs_src"),
        other => panic!("unexpected error: {:?}", other),
    }
}
