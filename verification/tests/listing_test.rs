use st_zfs_send_recv::listing::{
    parse_all_lenient, parse_all_strict, Filesystem, ParseFsLineError, Reportable,
    SnapshotSummary,
};

#[test]
fn parses_well_formed_line() {
    let fs: Filesystem = "g\t1\t2024-01-01\tfilesystem\t1024\ttank/data"
        .parse()
        .unwrap();
    assert_eq!(fs.name, "tank/data");
    assert_eq!(fs.used, 1024);
}

#[test]
fn rejects_wrong_field_count() {
    let err = "too\tfew\tfields".parse::<Filesystem>().unwrap_err();
    assert!(matches!(err, ParseFsLineError::WrongFieldCount(3)));
}

#[test]
fn rejects_non_numeric_used() {
    let err = "g\t1\t2024-01-01\tfilesystem\tNOTANUMBER\ttank/data"
        .parse::<Filesystem>()
        .unwrap_err();
    assert!(matches!(err, ParseFsLineError::InvalidUsed(_)));
}

#[test]
fn display_matches_expected_format() {
    let fs: Filesystem = "g\t1\t2024-01-01\tfilesystem\t1024\ttank/data"
        .parse()
        .unwrap();
    assert_eq!(fs.display_string(), "tank/data (filesystem, 1024 bytes used)");
}

#[test]
fn strict_parsing_stops_at_first_bad_line() {
    let text = "g\t1\t2024-01-01\tfilesystem\t1024\ttank/data\nbroken";
    let result: Result<Vec<Filesystem>, _> = parse_all_strict(text);
    assert!(result.is_err());
}

#[test]
fn lenient_parsing_skips_bad_lines() {
    let text = "g\t1\t2024-01-01\tfilesystem\t1024\ttank/data\nbroken";
    let result: Vec<Filesystem> = parse_all_lenient(text);
    assert_eq!(result.len(), 1);
}

#[test]
fn strict_and_lenient_agree_on_valid_text() {
    let text = "guid-1\t100\t2024-01-01\tfilesystem\t1048576\ttank/data\r\n\
                guid-2\t101\t2024-01-02\tfilesystem\t2097152\ttank/backups\n";
    let strict = parse_all_strict(text).unwrap();
    let lenient = parse_all_lenient(text);
    assert_eq!(strict.len(), 2);
    assert_eq!(lenient.len(), 2);
    for (a, b) in strict.iter().zip(lenient.iter()) {
        assert_eq!(a.name, b.name);
        assert_eq!(a.used, b.used);
    }
    assert_eq!(strict[1].name, "tank/backups");
}

#[test]
fn strict_error_is_the_first_bad_line() {
    let text = "a\tb\nc\t\t\t\t\t";
    assert_eq!(
        parse_all_strict(text).unwrap_err(),
        ParseFsLineError::WrongFieldCount(2)
    );
    let text = "g\t1\tc\tt\t+12\tn\ng\t1\tc\tt\t99999999999999999999\tn";
    assert_eq!(
        parse_all_strict(text).unwrap_err(),
        ParseFsLineError::InvalidUsed("99999999999999999999".to_string())
    );
}

#[test]
fn used_accepts_a_plus_sign() {
    let fs = Filesystem::parse_line("g\t1\tc\tt\t+12\tn").unwrap();
    assert_eq!(fs.used, 12);
}

#[test]
fn reports_describe_their_item() {
    let fs = Filesystem::parse_line("g\t1\tc\tvolume\t0\ttank/vol").unwrap();
    assert_eq!(fs.report(), "filesystem tank/vol (volume, 0 bytes used)");
    let snap = SnapshotSummary {
        name: "tank/data@daily-2024-01-01".to_string(),
        creation: "2024-01-01T00:00:00Z".to_string(),
    };
    assert_eq!(
        snap.report(),
        "snapshot tank/data@daily-2024-01-01 created 2024-01-01T00:00:00Z"
    );
}

#[test]
fn a_line_joined_from_six_fields_round_trips() {
    let fields = ["guid-7", "42", "1700000000", "volume", "8192", "tank/vm disk"];
    let line = fields.join("\t");
    let fs = Filesystem::parse_line(&line).unwrap();
    assert_eq!(fs.guid, fields[0]);
    assert_eq!(fs.createtxg, fields[1]);
    assert_eq!(fs.creation, fields[2]);
    assert_eq!(fs.fs_type, fields[3]);
    assert_eq!(fs.used, 8192);
    assert_eq!(fs.name, fields[5]);
}
