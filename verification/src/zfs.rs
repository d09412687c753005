//! The `zfs` commands a backup runs, and what their output means.

use vstd::prelude::*;
use crate::db::{fs_row, snap_row, Filesystem, Snapshot};
use crate::error::ZfsBackupError;
use crate::text::{
    concat, from_utf8_lossy_text, lines_of, nth_piece, nth_piece_or_empty, split_on, split_on_char,
    text_lines, utf8_lossy, views,
};

verus! {

/// The columns that every listing asks for.
pub open spec fn listed_columns() -> Seq<char> {
    "guid,createtxg,creation,type,used,name"@
}

/// Arguments of the `zfs` command that lists the filesystems and volumes
/// of `pool`, sorted by name.
pub open spec fn list_filesystems_argv(pool: Seq<char>) -> Seq<Seq<char>> {
    seq![
        "list"@,
        "-Hpr"@,
        "-t"@,
        "filesystem,volume"@,
        "-o"@,
        listed_columns(),
        "-s"@,
        "name"@,
        pool,
    ]
}

/// Arguments of the `zfs` command that lists the snapshots of one
/// filesystem, newest first.
pub open spec fn list_snapshots_argv(fs_name: Seq<char>) -> Seq<Seq<char>> {
    seq![
        "list"@,
        "-Hpr"@,
        "-d"@,
        "1"@,
        "-t"@,
        "snapshot"@,
        "-S"@,
        "creation"@,
        "-o"@,
        listed_columns(),
        fs_name,
    ]
}

/// Arguments of the `zfs` command that sends every snapshot of `remote_fs`
/// after `common_snap` up to `remote_snap` (both written `@name`).
pub open spec fn send_argv(
    remote_fs: Seq<char>,
    common_snap: Seq<char>,
    remote_snap: Seq<char>,
) -> Seq<Seq<char>> {
    seq!["send"@, "-I"@, remote_fs + common_snap, remote_fs + remote_snap]
}

/// Arguments of the `zfs` command that receives a stream into `local_fs`.
pub open spec fn recv_argv(local_fs: Seq<char>) -> Seq<Seq<char>> {
    seq!["recv"@, "-F"@, "-eu"@, local_fs]
}

/// Computes `list_filesystems_argv`.
pub fn list_filesystems_args(pool: &str) -> (res: Vec<String>)
    ensures
        views(res@) == list_filesystems_argv(pool@),
{
    let v = vec![
        String::from_str("list"),
        String::from_str("-Hpr"),
        String::from_str("-t"),
        String::from_str("filesystem,volume"),
        String::from_str("-o"),
        String::from_str("guid,createtxg,creation,type,used,name"),
        String::from_str("-s"),
        String::from_str("name"),
        String::from_str(pool),
    ];
    assert(views(v@) == list_filesystems_argv(pool@));
    v
}

/// Computes `list_snapshots_argv`.
pub fn list_snapshots_args(fs_name: &str) -> (res: Vec<String>)
    ensures
        views(res@) == list_snapshots_argv(fs_name@),
{
    let v = vec![
        String::from_str("list"),
        String::from_str("-Hpr"),
        String::from_str("-d"),
        String::from_str("1"),
        String::from_str("-t"),
        String::from_str("snapshot"),
        String::from_str("-S"),
        String::from_str("creation"),
        String::from_str("-o"),
        String::from_str("guid,createtxg,creation,type,used,name"),
        String::from_str(fs_name),
    ];
    assert(views(v@) == list_snapshots_argv(fs_name@));
    v
}

/// Computes `send_argv`.
pub fn send_args(remote_fs: &str, common_snap: &str, remote_snap: &str) -> (res: Vec<String>)
    ensures
        views(res@) == send_argv(remote_fs@, common_snap@, remote_snap@),
{
    let v = vec![
        String::from_str("send"),
        String::from_str("-I"),
        concat(remote_fs, common_snap),
        concat(remote_fs, remote_snap),
    ];
    assert(views(v@) == send_argv(remote_fs@, common_snap@, remote_snap@));
    v
}

/// Computes `recv_argv`.
pub fn recv_args(local_fs: &str) -> (res: Vec<String>)
    ensures
        views(res@) == recv_argv(local_fs@),
{
    let v = vec![
        String::from_str("recv"),
        String::from_str("-F"),
        String::from_str("-eu"),
        String::from_str(local_fs),
    ];
    assert(views(v@) == recv_argv(local_fs@));
    v
}

/// What a finished `zfs` command yields: its standard output as text when
/// it succeeded, else a failure whose text is `failure` followed by its
/// standard error as text.
pub fn command_text(success: bool, stdout: &[u8], stderr: &[u8], failure: &str) -> (res: Result<
    String,
    ZfsBackupError,
>)
    ensures
        success ==> (res matches Ok(s) && s@ == utf8_lossy(stdout@)),
        !success ==> (res matches Err(ZfsBackupError::ZfsCommandFailed(m)) && m@ == failure@
            + utf8_lossy(stderr@)),
{
    if success {
        Ok(from_utf8_lossy_text(stdout))
    } else {
        let err = from_utf8_lossy_text(stderr);
        Err(ZfsBackupError::ZfsCommandFailed(concat(failure, err.as_str())))
    }
}

/// What a finished `zfs send` yields: its output stream when it succeeded,
/// else a failure whose text is `zfs send failed: ` and its standard error.
pub fn send_stream(success: bool, stdout: Vec<u8>, stderr: &[u8]) -> (res: Result<
    Vec<u8>,
    ZfsBackupError,
>)
    ensures
        success ==> res == Ok::<Vec<u8>, ZfsBackupError>(stdout),
        !success ==> (res matches Err(ZfsBackupError::ZfsCommandFailed(m)) && m@
            == "zfs send failed: "@ + utf8_lossy(stderr@)),
{
    if success {
        Ok(stdout)
    } else {
        let err = from_utf8_lossy_text(stderr);
        Err(ZfsBackupError::ZfsCommandFailed(concat("zfs send failed: ", err.as_str())))
    }
}

/// The row that a listing line gives for a filesystem of `pool`: the first
/// six tab-separated fields, when the line has at least six.
pub open spec fn fs_line_row(pool: Seq<char>, line: Seq<char>) -> Option<Seq<Seq<char>>> {
    let p = split_on(line, '\t');
    if p.len() >= 6 {
        Some(seq![pool, p[0], p[1], p[2], p[3], p[4], p[5]])
    } else {
        None
    }
}

/// The rows that the lines of a listing give, in order, skipping lines with
/// fewer than six fields.
pub open spec fn fs_rows(pool: Seq<char>, lines: Seq<Seq<char>>) -> Seq<Seq<Seq<char>>>
    decreases lines.len(),
{
    if lines.len() == 0 {
        Seq::<Seq<Seq<char>>>::empty()
    } else {
        fs_rows(pool, lines.drop_last()) + match fs_line_row(pool, lines.last()) {
            Some(r) => seq![r],
            None => Seq::<Seq<Seq<char>>>::empty(),
        }
    }
}

/// The rows of a list of filesystems.
pub open spec fn rows_of_filesystems(v: Seq<Filesystem>) -> Seq<Seq<Seq<char>>> {
    v.map_values(|f: Filesystem| fs_row(f))
}

/// The filesystem of `pool` that one listing line describes, if it has at
/// least six fields.
pub fn parse_filesystem_line(pool: &str, line: &str) -> (res: Option<Filesystem>)
    ensures
        res is Some <==> fs_line_row(pool@, line@) is Some,
        res matches Some(fs) ==> Some(fs_row(fs)) == fs_line_row(pool@, line@),
        res is Some <==> split_on(line@, '\t').len() >= 6,
        res matches Some(fs) ==> {
            let p = split_on(line@, '\t');
            &&& fs.pool@ == pool@
            &&& fs.guid@ == p[0]
            &&& fs.createtxg@ == p[1]
            &&& fs.creation@ == p[2]
            &&& fs.fs_type@ == p[3]
            &&& fs.used@ == p[4]
            &&& fs.name@ == p[5]
        },
{
    let parts = split_on_char(line, '\t');
    if parts.len() < 6 {
        return None;
    }
    let fs = Filesystem {
        pool: String::from_str(pool),
        guid: parts[0].clone(),
        createtxg: parts[1].clone(),
        creation: parts[2].clone(),
        fs_type: parts[3].clone(),
        used: parts[4].clone(),
        name: parts[5].clone(),
    };
    assert(fs_row(fs) == fs_line_row(pool@, line@)->0);
    Some(fs)
}

/// The filesystems of `pool` that a listing describes, line by line.
pub fn parse_filesystems(pool: &str, output: &str) -> (res: Vec<Filesystem>)
    ensures
        rows_of_filesystems(res@) == fs_rows(pool@, lines_of(output@)),
{
    let lines = text_lines(output);
    let ghost ls = lines_of(output@);
    let mut out: Vec<Filesystem> = Vec::new();
    let mut i: usize = 0;
    assert(ls.take(0) == Seq::<Seq<char>>::empty());
    assert(rows_of_filesystems(out@) == Seq::<Seq<Seq<char>>>::empty());
    while i < lines.len()
        invariant
            views(lines@) == ls,
            ls == lines_of(output@),
            i <= lines@.len(),
            rows_of_filesystems(out@) == fs_rows(pool@, ls.take(i as int)),
        decreases lines@.len() - i,
    {
        assert(ls.take(i + 1).drop_last() == ls.take(i as int));
        assert(ls.take(i + 1).last() == ls[i as int]);
        assert(lines@[i as int]@ == ls[i as int]);
        let ghost before = out@;
        match parse_filesystem_line(pool, lines[i].as_str()) {
            Some(fs) => {
                out.push(fs);
                assert(rows_of_filesystems(out@) == rows_of_filesystems(before) + seq![fs_row(fs)]);
            },
            None => {},
        }
        i = i + 1;
    }
    assert(ls.take(lines@.len() as int) == ls);
    out
}

/// The most lines of a snapshot listing that are read: the 1000 newest.
pub open spec fn max_snapshot_lines() -> nat {
    1000
}

/// The lines of a snapshot listing that are read: the first 1000.
pub open spec fn kept_lines(output: Seq<char>) -> Seq<Seq<char>> {
    let ls = lines_of(output);
    if ls.len() > max_snapshot_lines() {
        ls.take(max_snapshot_lines() as int)
    } else {
        ls
    }
}

/// The row that a listing line gives for a snapshot of the filesystem with
/// guid `parent_guid`: the first six fields, and the snapshot's short name
/// (the piece of its full name between the first `@` and the next one, if
/// any; nothing when it holds no `@`).
pub open spec fn snap_line_row(parent_guid: Seq<char>, line: Seq<char>) -> Option<Seq<Seq<char>>> {
    let p = split_on(line, '\t');
    if p.len() >= 6 {
        Some(seq![parent_guid, p[0], p[1], p[2], p[3], p[4], p[5], nth_piece_or_empty(p[5], '@', 1)])
    } else {
        None
    }
}

/// The rows that the lines of a snapshot listing give, in order.
pub open spec fn snap_rows(parent_guid: Seq<char>, lines: Seq<Seq<char>>) -> Seq<Seq<Seq<char>>>
    decreases lines.len(),
{
    if lines.len() == 0 {
        Seq::<Seq<Seq<char>>>::empty()
    } else {
        snap_rows(parent_guid, lines.drop_last()) + match snap_line_row(parent_guid, lines.last()) {
            Some(r) => seq![r],
            None => Seq::<Seq<Seq<char>>>::empty(),
        }
    }
}

/// At most one row per line.
pub proof fn lemma_snap_rows_len(parent_guid: Seq<char>, lines: Seq<Seq<char>>)
    ensures
        snap_rows(parent_guid, lines).len() <= lines.len(),
    decreases lines.len(),
{
    if lines.len() > 0 {
        lemma_snap_rows_len(parent_guid, lines.drop_last());
    }
}

/// The rows of a list of snapshots.
pub open spec fn rows_of_snapshots(v: Seq<Snapshot>) -> Seq<Seq<Seq<char>>> {
    v.map_values(|s: Snapshot| snap_row(s))
}

/// The snapshot of the filesystem with guid `parent_guid` that one listing
/// line describes, if it has at least six fields.
pub fn parse_snapshot_line(parent_guid: &str, line: &str) -> (res: Option<Snapshot>)
    ensures
        res is Some <==> snap_line_row(parent_guid@, line@) is Some,
        res matches Some(s) ==> Some(snap_row(s)) == snap_line_row(parent_guid@, line@),
{
    let parts = split_on_char(line, '\t');
    if parts.len() < 6 {
        return None;
    }
    let short = nth_piece(parts[5].as_str(), '@', 1);
    let s = Snapshot {
        parent_guid: String::from_str(parent_guid),
        guid: parts[0].clone(),
        createtxg: parts[1].clone(),
        creation: parts[2].clone(),
        snap_type: parts[3].clone(),
        used: parts[4].clone(),
        name: parts[5].clone(),
        snapshot: short,
    };
    assert(snap_row(s) == snap_line_row(parent_guid@, line@)->0);
    Some(s)
}

/// The snapshots of the filesystem with guid `parent_guid` that a listing
/// describes, from its first 1000 lines.
pub fn parse_snapshots(parent_guid: &str, output: &str) -> (res: Vec<Snapshot>)
    ensures
        rows_of_snapshots(res@) == snap_rows(parent_guid@, kept_lines(output@)),
        res@.len() <= max_snapshot_lines(),
{
    let lines = text_lines(output);
    let ghost ls = lines_of(output@);
    let limit: usize = if lines.len() > 1000 {
        1000
    } else {
        lines.len()
    };
    let ghost kept = kept_lines(output@);
    assert(kept == ls.take(limit as int));
    let mut out: Vec<Snapshot> = Vec::new();
    let mut i: usize = 0;
    assert(ls.take(0) == Seq::<Seq<char>>::empty());
    assert(rows_of_snapshots(out@) == Seq::<Seq<Seq<char>>>::empty());
    while i < limit
        invariant
            views(lines@) == ls,
            limit <= lines@.len(),
            i <= limit,
            rows_of_snapshots(out@) == snap_rows(parent_guid@, ls.take(i as int)),
        decreases limit - i,
    {
        assert(ls.take(i + 1).drop_last() == ls.take(i as int));
        assert(ls.take(i + 1).last() == ls[i as int]);
        assert(lines@[i as int]@ == ls[i as int]);
        let ghost before = out@;
        match parse_snapshot_line(parent_guid, lines[i].as_str()) {
            Some(s) => {
                out.push(s);
                assert(rows_of_snapshots(out@) == rows_of_snapshots(before) + seq![snap_row(s)]);
            },
            None => {},
        }
        i = i + 1;
    }
    proof {
        lemma_snap_rows_len(parent_guid@, kept);
    }
    assert(out@.len() == rows_of_snapshots(out@).len());
    out
}

/// A listing line of pool `pool` gives a row exactly when it has at least
/// six tab-separated fields; the row's pool column is `pool` (the pool the
/// listing was asked for, not a part of the name) and its other columns are
/// the first six fields, in order.
pub proof fn law_listing_line_row(pool: Seq<char>, line: Seq<char>)
    ensures
        fs_line_row(pool, line) is Some <==> split_on(line, '\t').len() >= 6,
        fs_line_row(pool, line) matches Some(r) ==> r == seq![pool] + split_on(line, '\t').take(6),
{
    let p = split_on(line, '\t');
    if p.len() >= 6 {
        assert(seq![pool, p[0], p[1], p[2], p[3], p[4], p[5]] =~= seq![pool] + p.take(6));
    }
}

/// Every row that a listing of pool `pool` gives has `pool` as its pool
/// column, and there is at most one row per line.
pub proof fn law_listing_rows_carry_the_pool(pool: Seq<char>, lines: Seq<Seq<char>>)
    ensures
        fs_rows(pool, lines).len() <= lines.len(),
        forall|j: int|
            0 <= j < fs_rows(pool, lines).len() ==> (#[trigger] fs_rows(pool, lines)[j]).len() == 7
                && fs_rows(pool, lines)[j][0] == pool,
    decreases lines.len(),
{
    if lines.len() > 0 {
        law_listing_rows_carry_the_pool(pool, lines.drop_last());
        let a = fs_rows(pool, lines.drop_last());
        let all = fs_rows(pool, lines);
        assert forall|j: int| 0 <= j < all.len() implies (#[trigger] all[j]).len() == 7 && all[j][0] == pool by {
            if j < a.len() {
                assert(all[j] == a[j]);
            } else {
                assert(all[j] == fs_line_row(pool, lines.last())->0);
            }
        }
    }
}

} // verus!
