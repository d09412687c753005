use st_zfs_send_recv::error::ZfsBackupError;
use st_zfs_send_recv::naming::{child_path, pool_files_in_order, pool_of_filesystem, temp_db_prefix};
use st_zfs_send_recv::text::{
    nth_piece, parse_u64, split_on_char, text_lines, trim_text, u64_to_decimal,
};
use st_zfs_send_recv::zfs::{
    command_text, list_filesystems_args, list_snapshots_args, parse_filesystem_line,
    parse_filesystems, parse_snapshot_line, parse_snapshots, recv_args, send_args, send_stream,
};

#[test]
fn filesystem_listing_arguments() {
    assert_eq!(
        list_filesystems_args("tank"),
        vec![
            "list",
            "-Hpr",
            "-t",
            "filesystem,volume",
            "-o",
            "guid,createtxg,creation,type,used,name",
            "-s",
            "name",
            "tank"
        ]
    );
}

#[test]
fn snapshot_listing_arguments() {
    assert_eq!(
        list_snapshots_args("tank/data"),
        vec![
            "list",
            "-Hpr",
            "-d",
            "1",
            "-t",
            "snapshot",
            "-S",
            "creation",
            "-o",
            "guid,createtxg,creation,type,used,name",
            "tank/data"
        ]
    );
}

#[test]
fn send_and_receive_arguments() {
    assert_eq!(
        send_args("tank/data", "@a", "@b"),
        vec!["send", "-I", "tank/data@a", "tank/data@b"]
    );
    assert_eq!(recv_args("backup/data"), vec!["recv", "-F", "-eu", "backup/data"]);
}

#[test]
fn lines_with_six_fields_become_rows() {
    let fs = parse_filesystem_line("tank", "g\t1\t2\tfilesystem\t3\ttank/a\textra").unwrap();
    assert_eq!(fs.pool, "tank");
    assert_eq!(fs.guid, "g");
    assert_eq!(fs.name, "tank/a");
    assert!(parse_filesystem_line("tank", "g\t1\t2\tfilesystem\t3").is_none());
    let v = parse_filesystems("tank", "a\tb\tc\td\te\tf\n\nx\ny\tb\tc\td\te\tg\n");
    assert_eq!(v.len(), 2);
    assert_eq!(v[1].guid, "y");
}

#[test]
fn snapshot_short_name_follows_the_at_sign() {
    let s = parse_snapshot_line("pg", "g\t1\t2\tsnapshot\t3\ttank/a@daily-1").unwrap();
    assert_eq!(s.parent_guid, "pg");
    assert_eq!(s.snapshot, "daily-1");
    let s = parse_snapshot_line("pg", "g\t1\t2\tsnapshot\t3\ttank/a").unwrap();
    assert_eq!(s.snapshot, "");
}

#[test]
fn at_most_a_thousand_snapshot_lines_are_read() {
    let mut text = String::new();
    for i in 0..1005 {
        text.push_str(&format!("g{i}\t1\t{i}\tsnapshot\t0\ttank/a@s{i}\n"));
    }
    let v = parse_snapshots("pg", &text);
    assert_eq!(v.len(), 1000);
    assert_eq!(v[999].guid, "g999");
}

#[test]
fn command_outcomes() {
    assert_eq!(
        command_text(true, b"out", b"err", "zfs command failed: "),
        Ok("out".to_string())
    );
    assert_eq!(
        command_text(false, b"out", b"bad", "zfs list failed: "),
        Err(ZfsBackupError::ZfsCommandFailed("zfs list failed: bad".to_string()))
    );
    assert_eq!(
        command_text(true, &[0x66, 0xff], b"", "x"),
        Ok("f\u{fffd}".to_string())
    );
    assert_eq!(send_stream(true, vec![1, 2], b""), Ok(vec![1, 2]));
    assert_eq!(
        send_stream(false, vec![1], b"nope"),
        Err(ZfsBackupError::ZfsCommandFailed("zfs send failed: nope".to_string()))
    );
}

#[test]
fn names_of_pools_and_children() {
    assert_eq!(pool_of_filesystem("tank/data/x"), "tank");
    assert_eq!(pool_of_filesystem("tank"), "tank");
    assert_eq!(child_path("backup/tank", "data"), "backup/tank/data");
    assert_eq!(temp_db_prefix("backup/tank/x"), "backup--tank--x--");
}

#[test]
fn text_helpers_behave_like_std() {
    for s in ["", "a", "\n", "a\n", "a\r\nb", "a\rb\n\n", "\r\n", "x\r"] {
        let ours = text_lines(s);
        let std_lines: Vec<String> = s.lines().map(|l| l.to_string()).collect();
        assert_eq!(ours, std_lines, "lines of {s:?}");
        let ours = split_on_char(s, '\n');
        let std_split: Vec<String> = s.split('\n').map(|l| l.to_string()).collect();
        assert_eq!(ours, std_split, "split of {s:?}");
    }
    for s in ["", "  ", " a b ", "\t\u{85}x\u{2028}", "\u{200b}y"] {
        assert_eq!(trim_text(s), s.trim(), "trim of {s:?}");
    }
    assert_eq!(nth_piece("a@b@c", '@', 1), "b");
    assert_eq!(nth_piece("a", '@', 1), "");
    assert_eq!(u64_to_decimal(0), "0");
    assert_eq!(u64_to_decimal(18446744073709551615), "18446744073709551615");
}

#[test]
fn splitting_a_join_gives_the_pieces_back() {
    let pieces = vec!["a".to_string(), String::new(), "b c".to_string()];
    assert_eq!(split_on_char(&pieces.join("\t"), '\t'), pieces);
}

#[test]
fn numbers_are_read_like_std() {
    for s in [
        "",
        "+",
        "-",
        "-1",
        "+0",
        "007",
        "12a",
        " 1",
        "18446744073709551615",
        "18446744073709551616",
        "99999999999999999999",
        "+18446744073709551615",
        "\u{661}",
    ] {
        assert_eq!(parse_u64(s), s.parse::<u64>().ok(), "parse of {s:?}");
    }
}

#[test]
fn pool_files_come_in_path_order() {
    let entries = vec![
        "zeta.pool".to_string(),
        "notes.txt".to_string(),
        "alpha.pool".to_string(),
        ".pool".to_string(),
        "Beta.pool".to_string(),
    ];
    assert_eq!(
        pool_files_in_order(&entries),
        vec![
            ("Beta.pool".to_string(), "Beta".to_string()),
            ("alpha.pool".to_string(), "alpha".to_string()),
            ("zeta.pool".to_string(), "zeta".to_string()),
        ]
    );
}
