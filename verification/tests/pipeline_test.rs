use st_zfs_send_recv::backup::destination_path;
use st_zfs_send_recv::config::KeepPolicy;
use st_zfs_send_recv::pipeline::{flag_words_of, recv_pipeline, retention_commands, send_pipeline};

fn words(v: &[&str]) -> Vec<String> {
    v.iter().map(|s| s.to_string()).collect()
}

#[test]
fn compressed_transfer_uses_the_compressor_on_both_sides() {
    let send = send_pipeline(false, "tank/data", "@a", "@b", "lz4", "");
    assert_eq!(
        send,
        vec![words(&["zfs", "send", "-I", "tank/data@a", "tank/data@b"]), words(&["lz4"])]
    );
    let recv = recv_pipeline("backup/tank/data", "lz4", "-dcfm");
    assert_eq!(
        recv,
        vec![words(&["lz4", "-dcfm"]), words(&["zfs", "recv", "-F", "-eu", "backup/tank/data"])]
    );
}

#[test]
fn compression_flags_are_split_into_words() {
    let send = send_pipeline(true, "tank/data", "@a", "@b", "zstd", " -3  -T0 ");
    assert_eq!(
        send,
        vec![
            words(&["sudo", "zfs", "send", "-I", "tank/data@a", "tank/data@b"]),
            words(&["zstd", "-3", "-T0"])
        ]
    );
    assert_eq!(flag_words_of(""), Vec::<String>::new());
}

#[test]
fn no_compression_sends_the_plain_stream() {
    let send = send_pipeline(false, "tank/data", "@a", "@b", "none", "-c");
    assert_eq!(send, vec![words(&["zfs", "send", "-I", "tank/data@a", "tank/data@b"])]);
    let recv = recv_pipeline("backup/data", "", "-dcfm");
    assert_eq!(recv, vec![words(&["zfs", "recv", "-F", "-eu", "backup/data"])]);
}

#[test]
fn retention_keeps_the_newest_per_label() {
    let policies = vec![
        KeepPolicy { count: 7, label: "daily".to_string() },
        KeepPolicy { count: 12, label: "monthly".to_string() },
    ];
    assert_eq!(
        retention_commands(&policies, "backup/tank/data"),
        vec![
            words(&["zfs-auto-snapshot", "--quiet", "--destroy-only", "--label=daily", "--keep=7", "backup/tank/data"]),
            words(&["zfs-auto-snapshot", "--quiet", "--destroy-only", "--label=monthly", "--keep=12", "backup/tank/data"]),
        ]
    );
    assert!(retention_commands(&Vec::new(), "x").is_empty());
}

#[test]
fn destinations_keep_the_path_below_the_pool() {
    assert_eq!(destination_path("tank", "backup/tank", "tank/data"), "backup/tank/data");
    assert_eq!(destination_path("tank", "backup/tank", "tank/a/b"), "backup/tank/a/b");
    assert_eq!(destination_path("tank", "backup", "tankx/data"), "backup/tankx/data");
}
