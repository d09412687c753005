use rusqlite::Connection;
use st_zfs_send_recv::backup::{plan_filesystem, FilesystemPlan};
use st_zfs_send_recv::db::{
    clear_tables, get_common_snapshot, get_filesystems, get_fs_property,
    get_remote_newest_snapshot, initialize_db, insert_filesystem, insert_snapshot,
    Filesystem, Snapshot,
};
use st_zfs_send_recv::discovery::{
    record_local_filesystems, record_remote_filesystems, record_snapshots,
};

fn fs(pool: &str, guid: &str, name: &str) -> Filesystem {
    Filesystem {
        pool: pool.to_string(),
        guid: guid.to_string(),
        createtxg: String::new(),
        creation: String::new(),
        fs_type: "filesystem".to_string(),
        used: "0".to_string(),
        name: name.to_string(),
    }
}

fn snap(parent: &str, guid: &str, creation: &str, name: &str, short: &str) -> Snapshot {
    Snapshot {
        parent_guid: parent.to_string(),
        guid: guid.to_string(),
        createtxg: String::new(),
        creation: creation.to_string(),
        snap_type: "snapshot".to_string(),
        used: "0".to_string(),
        name: name.to_string(),
        snapshot: short.to_string(),
    }
}

fn empty_db() -> Connection {
    let mut conn = Connection::open_in_memory().unwrap();
    initialize_db(&mut conn).unwrap();
    conn
}

fn seeded_db() -> Connection {
    let mut conn = empty_db();
    insert_filesystem(&mut conn, &fs("tank", "guid-fs-1", "tank/data")).unwrap();
    insert_snapshot(
        &mut conn,
        "snap_src",
        &snap(
            "guid-fs-1",
            "guid-snap-old",
            "2024-01-01",
            "tank/data@daily-2024-01-01",
            "daily-2024-01-01",
        ),
    )
    .unwrap();
    insert_snapshot(
        &mut conn,
        "snap_dst",
        &snap(
            "guid-fs-1",
            "guid-snap-old",
            "2024-01-01",
            "tank/data@daily-2024-01-01",
            "daily-2024-01-01",
        ),
    )
    .unwrap();
    insert_snapshot(
        &mut conn,
        "snap_src",
        &snap(
            "guid-fs-1",
            "guid-snap-new",
            "2024-01-02",
            "tank/data@daily-2024-01-02",
            "daily-2024-01-02",
        ),
    )
    .unwrap();
    conn
}

#[test]
fn finds_common_snapshot() {
    let conn = seeded_db();
    let common = get_common_snapshot(&conn, "tank", "tank/data").unwrap();
    assert_eq!(common, Some("@daily-2024-01-01".to_string()));
}

#[test]
fn finds_newest_remote_snapshot() {
    let conn = seeded_db();
    let newest = get_remote_newest_snapshot(&conn, "tank", "tank/data").unwrap();
    assert_eq!(newest, Some("@daily-2024-01-02".to_string()));
}

#[test]
fn no_common_snapshot_returns_none_not_error() {
    let mut conn = empty_db();
    insert_filesystem(&mut conn, &fs("tank", "guid-fs-2", "tank/empty")).unwrap();
    let common = get_common_snapshot(&conn, "tank", "tank/empty").unwrap();
    assert_eq!(common, None);
}

#[test]
fn get_filesystems_lists_by_pool() {
    let conn = seeded_db();
    let names = get_filesystems(&conn, "fs_src", "tank").unwrap();
    assert_eq!(names, vec!["tank/data".to_string()]);
}

#[test]
fn filesystem_listing_leaves_out_the_pool_root() {
    let mut conn = empty_db();
    insert_filesystem(&mut conn, &fs("tank", "g0", "tank")).unwrap();
    insert_filesystem(&mut conn, &fs("tank", "g2", "tank/b")).unwrap();
    insert_filesystem(&mut conn, &fs("tank", "g1", "tank/a")).unwrap();
    insert_filesystem(&mut conn, &fs("other", "g3", "other/x")).unwrap();
    assert_eq!(
        get_filesystems(&conn, "fs_src", "tank").unwrap(),
        vec!["tank/a".to_string(), "tank/b".to_string()]
    );
}

#[test]
fn duplicate_guid_is_a_database_error() {
    let mut conn = empty_db();
    insert_filesystem(&mut conn, &fs("tank", "g", "tank/a")).unwrap();
    let err = insert_filesystem(&mut conn, &fs("tank", "g", "tank/b")).unwrap_err();
    assert!(err.message().starts_with("Database error: Failed to insert filesystem: "));
}

#[test]
fn property_of_missing_filesystem_is_none() {
    let conn = seeded_db();
    assert_eq!(
        get_fs_property(&conn, "fs_src", "guid", "tank/data").unwrap(),
        Some("guid-fs-1".to_string())
    );
    assert_eq!(
        get_fs_property(&conn, "fs_src", "guid", "tank/none").unwrap(),
        None
    );
}

#[test]
fn clearing_empties_every_table() {
    let mut conn = seeded_db();
    clear_tables(&mut conn).unwrap();
    assert!(get_filesystems(&conn, "fs_src", "tank").unwrap().is_empty());
    assert_eq!(get_remote_newest_snapshot(&conn, "tank", "tank/data").unwrap(), None);
}

#[test]
fn recorded_listings_drive_the_plan() {
    let mut conn = empty_db();
    let remote = "1\t10\t100\tfilesystem\t5\ttank\n\
                  2\t11\t101\tfilesystem\t6\ttank/data\n\
                  short line\n";
    record_remote_filesystems(&mut conn, "tank", remote).unwrap();
    record_local_filesystems(&mut conn, "backup", "9\t1\t1\tfilesystem\t1\tbackup/data\n").unwrap();
    let src_snaps = "s1\t1\t200\tsnapshot\t0\ttank/data@a\ns2\t1\t300\tsnapshot\t0\ttank/data@b\n";
    record_snapshots(&mut conn, "src", "tank/data", src_snaps).unwrap();
    record_snapshots(&mut conn, "dst", "backup/data", "s1\t1\t200\tsnapshot\t0\tbackup/data@a\n")
        .unwrap();
    assert_eq!(
        get_filesystems(&conn, "fs_src", "tank").unwrap(),
        vec!["tank/data".to_string()]
    );
    assert_eq!(
        get_filesystems(&conn, "fs_dst", "backup").unwrap(),
        vec!["backup/data".to_string()]
    );
    assert_eq!(
        plan_filesystem(&conn, "tank/data").unwrap(),
        FilesystemPlan::Incremental {
            from: "@a".to_string(),
            to: "@b".to_string()
        }
    );
    // Recording the source again starts from empty tables.
    record_remote_filesystems(&mut conn, "tank", remote).unwrap();
    assert_eq!(plan_filesystem(&conn, "tank/data").unwrap(), FilesystemPlan::NoCommonSnapshot);
}

#[test]
fn snapshots_of_an_unknown_filesystem_are_refused() {
    let mut conn = empty_db();
    let err = record_snapshots(&mut conn, "src", "tank/none", "s\t1\t1\tsnapshot\t0\ttank/none@x\n")
        .unwrap_err();
    assert_eq!(err.message(), "Database error: Failed to find filesystem");
}

#[test]
fn property_names_are_written_into_the_query() {
    let conn = seeded_db();
    assert_eq!(
        get_fs_property(&conn, "fs_src", "upper(name)", "tank/data").unwrap(),
        Some("TANK/DATA".to_string())
    );
    let err = get_fs_property(&conn, "fs_src", "no_such_column", "tank/data").unwrap_err();
    assert!(err.message().starts_with("Database error: Failed to query filesystem property: "));
    assert!(get_filesystems(&conn, "fs_src; DROP TABLE fs_src", "tank").is_err());
    assert_eq!(
        get_filesystems(&conn, "fs_src", "tank").unwrap(),
        vec!["tank/data".to_string()]
    );
}

#[test]
fn newest_snapshot_follows_what_was_recorded() {
    let mut conn = empty_db();
    insert_filesystem(&mut conn, &fs("tank", "g1", "tank/data")).unwrap();
    insert_snapshot(&mut conn, "snap_src", &snap("g1", "s1", "100", "tank/data@a", "a")).unwrap();
    assert_eq!(
        get_remote_newest_snapshot(&conn, "tank", "tank/data").unwrap(),
        Some("@a".to_string())
    );
    insert_snapshot(&mut conn, "snap_src", &snap("g1", "s2", "200", "tank/data@b", "b")).unwrap();
    assert_eq!(
        get_remote_newest_snapshot(&conn, "tank", "tank/data").unwrap(),
        Some("@b".to_string())
    );
    assert_eq!(get_common_snapshot(&conn, "tank", "tank/data").unwrap(), None);
    insert_snapshot(&mut conn, "snap_dst", &snap("g9", "s2", "200", "backup/data@b", "b")).unwrap();
    assert_eq!(
        get_common_snapshot(&conn, "tank", "tank/data").unwrap(),
        Some("@b".to_string())
    );
}
