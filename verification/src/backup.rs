//! The decisions of a backup: which filesystems to process, where each one
//! goes, and what to send for it.

use vstd::prelude::*;
use rusqlite::Connection;
use crate::db::{get_common_snapshot, get_remote_newest_snapshot, is_db_error, opt_view, sql_failure, sql_history};
use crate::db::SqlStatement;
use crate::tables::{
    answers_first, cell, db_tables, held_by_destination, law_common_is_newest_once_destination_holds_it,
    of_filesystem, text_lt, Query,
};
use crate::error::ZfsBackupError;
use crate::naming::{child_name, child_path, pool_of, pool_of_filesystem};
use crate::pattern::{compile_pattern, regex_compile_error, regex_finds_match, SkipPattern};
use crate::text::{chars_of, concat, string_from_range, views};
use crate::zfs::send_argv;

verus! {

/// What to do for one filesystem, given its most recent common snapshot and
/// the most recent snapshot of its source.
#[derive(Debug, Clone, PartialEq, Eq)]
pub enum BackupDecision {
    /// The destination already has the source's newest snapshot.
    UpToDate,
    /// The source has snapshots but none is on the destination.
    NeedsInitialization,
    /// Send every snapshot after `from` up to `to`.
    Incremental { from: String, to: String },
    /// The source has no snapshot.
    NothingToSend,
}

/// Whether `d` is the decision for `common` and `newest`.
pub open spec fn is_decision(
    d: BackupDecision,
    common: Option<Seq<char>>,
    newest: Option<Seq<char>>,
) -> bool {
    match (common, newest) {
        (Some(c), Some(n)) => if c == n {
            d == BackupDecision::UpToDate
        } else {
            d matches BackupDecision::Incremental { from, to } && from@ == c && to@ == n
        },
        (None, Some(_)) => d == BackupDecision::NeedsInitialization,
        (_, None) => d == BackupDecision::NothingToSend,
    }
}

/// Decides what to do for a filesystem: nothing when its newest snapshot
/// is already common, initialization when nothing is common, else an
/// incremental send from the common snapshot to the newest.
pub fn decide(common: Option<String>, newest: Option<String>) -> (res: BackupDecision)
    ensures
        is_decision(res, opt_view(common), opt_view(newest)),
{
    match (common, newest) {
        (Some(c), Some(n)) => {
            if c == n {
                BackupDecision::UpToDate
            } else {
                BackupDecision::Incremental { from: c, to: n }
            }
        },
        (None, Some(_)) => BackupDecision::NeedsInitialization,
        (_, None) => BackupDecision::NothingToSend,
    }
}

/// How serious a logged event is.
#[derive(Debug, Clone, Copy, PartialEq, Eq)]
pub enum LogLevel {
    Info,
    Error,
}

/// One line to log.
#[derive(Debug, Clone)]
pub struct LogLine {
    pub level: LogLevel,
    pub message: String,
}

/// The line that reports a decision for filesystem `fs_name`.
pub open spec fn decision_line(fs_name: Seq<char>, d: BackupDecision) -> (LogLevel, Seq<char>) {
    match d {
        BackupDecision::UpToDate => (LogLevel::Info, fs_name + " is already up to date"@),
        BackupDecision::NeedsInitialization => (
            LogLevel::Error,
            fs_name + " has no common snapshot: needs manual initialization"@,
        ),
        BackupDecision::Incremental { from, to } => (
            LogLevel::Info,
            fs_name + from@ + " => "@ + to@,
        ),
        BackupDecision::NothingToSend => (
            LogLevel::Info,
            fs_name + " has no snapshots on the remote side"@,
        ),
    }
}

/// The line that reports `decision` for filesystem `fs_name`.
pub fn log_decision(fs_name: &str, decision: &BackupDecision) -> (res: LogLine)
    ensures
        (res.level, res.message@) == decision_line(fs_name@, *decision),
{
    match decision {
        BackupDecision::UpToDate => LogLine {
            level: LogLevel::Info,
            message: concat(fs_name, " is already up to date"),
        },
        BackupDecision::NeedsInitialization => LogLine {
            level: LogLevel::Error,
            message: concat(fs_name, " has no common snapshot: needs manual initialization"),
        },
        BackupDecision::Incremental { from, to } => {
            let a = concat(fs_name, from.as_str());
            let b = concat(a.as_str(), " => ");
            LogLine { level: LogLevel::Info, message: concat(b.as_str(), to.as_str()) }
        },
        BackupDecision::NothingToSend => LogLine {
            level: LogLevel::Info,
            message: concat(fs_name, " has no snapshots on the remote side"),
        },
    }
}

/// What a backup run does for one source filesystem.
#[derive(Debug, Clone, PartialEq, Eq)]
pub enum FilesystemPlan {
    /// The destination has the newest snapshot, `snapshot`.
    UpToDate { snapshot: String },
    /// No snapshot is common to both sides: the filesystem is reported and
    /// skipped.
    NoCommonSnapshot,
    /// Send every snapshot after `from` up to `to`.
    Incremental { from: String, to: String },
    /// A common snapshot exists but the source reports no newest one.
    Nothing,
}

/// Whether `p` is the plan for `common` and `remote`.
pub open spec fn is_plan(p: FilesystemPlan, common: Option<Seq<char>>, remote: Option<Seq<char>>) -> bool {
    match (common, remote) {
        (None, _) => p == FilesystemPlan::NoCommonSnapshot,
        (Some(c), Some(r)) => if c == r {
            p matches FilesystemPlan::UpToDate { snapshot } && snapshot@ == c
        } else {
            p matches FilesystemPlan::Incremental { from, to } && from@ == c && to@ == r
        },
        (Some(_), None) => p == FilesystemPlan::Nothing,
    }
}

/// Plans one filesystem: up to date when the newest source snapshot is the
/// common one, an incremental send from the common snapshot to the newest
/// when they differ, and a report when nothing is common.
pub fn plan_backup(common: Option<String>, remote: Option<String>) -> (res: FilesystemPlan)
    ensures
        is_plan(res, opt_view(common), opt_view(remote)),
{
    match (common, remote) {
        (None, _) => FilesystemPlan::NoCommonSnapshot,
        (Some(c), Some(r)) => {
            if c == r {
                FilesystemPlan::UpToDate { snapshot: c }
            } else {
                FilesystemPlan::Incremental { from: c, to: r }
            }
        },
        (Some(_), None) => FilesystemPlan::Nothing,
    }
}

/// What a backup sends for a filesystem whose common snapshot `c` is not
/// its newest snapshot `r`: the snapshots of `remote_fs` after `c` up to
/// `r`, as one incremental stream; when `c` is the newest, nothing.
pub proof fn law_incremental_send_spans_common_to_newest(
    p: FilesystemPlan,
    remote_fs: Seq<char>,
    c: Seq<char>,
    r: Seq<char>,
)
    requires
        is_plan(p, Some(c), Some(r)),
    ensures
        c != r ==> (p matches FilesystemPlan::Incremental { from, to } && send_argv(
            remote_fs,
            from@,
            to@,
        ) == seq!["send"@, "-I"@, remote_fs + c, remote_fs + r]),
        c == r ==> p is UpToDate,
{
}

/// What planning source filesystem `remote_fs` on the database built by
/// `h` may give: the plan for the common and newest snapshots that the
/// database answers, or a failure of SQLite in one of the two queries.
pub open spec fn plan_outcome(
    h: Seq<SqlStatement>,
    remote_fs: Seq<char>,
    res: Result<FilesystemPlan, ZfsBackupError>,
) -> bool {
    match res {
        Ok(p) => exists|c: Option<Seq<char>>, n: Option<Seq<char>>|
            #[trigger] is_plan(p, c, n) && answers_first(
                h,
                Query::CommonSnapshot,
                seq![pool_of(remote_fs), remote_fs],
                c,
            ) && answers_first(h, Query::NewestSnapshot, seq![pool_of(remote_fs), remote_fs], n),
        Err(e) => sql_failure(e, "Failed to query common snapshot"@) || sql_failure(
            e,
            "Failed to query newest remote snapshot"@,
        ),
    }
}

/// Planning a filesystem whose newest source snapshot (strictly newer than
/// its other snapshots) the destination already holds gives "up to date"
/// with that snapshot; it fails only when SQLite itself fails one of the
/// two queries, never with an error of the library's own.
pub proof fn law_current_filesystem_is_planned_up_to_date(
    h: Seq<SqlStatement>,
    remote_fs: Seq<char>,
    i: int,
    res: Result<FilesystemPlan, ZfsBackupError>,
)
    requires
        db_tables(h) matches Some(t) && {
            let rows = t["snap_src"@];
            &&& 0 <= i < rows.len()
            &&& of_filesystem(t, pool_of(remote_fs), remote_fs, rows[i])
            &&& held_by_destination(t, rows[i])
            &&& forall|j: int|
                0 <= j < rows.len() && j != i && of_filesystem(
                    t,
                    pool_of(remote_fs),
                    remote_fs,
                    #[trigger] rows[j],
                ) ==> text_lt(cell(rows[j], "creation"@), cell(rows[i], "creation"@))
        },
        plan_outcome(h, remote_fs, res),
    ensures
        res matches Ok(p) ==> (p matches FilesystemPlan::UpToDate { snapshot } && snapshot@ == "@"@
            + cell(db_tables(h)->0["snap_src"@][i], "snapshot"@)),
        res matches Err(e) ==> sql_failure(e, "Failed to query common snapshot"@) || sql_failure(
            e,
            "Failed to query newest remote snapshot"@,
        ),
{
    if let Ok(p) = res {
        law_plan_is_up_to_date_once_destination_holds_newest(p, h, remote_fs, i);
    }
}

/// Plans source filesystem `remote_fs` from the state database: its pool is
/// the first component of its name; the common and newest snapshots are
/// those the database reports.
pub fn plan_filesystem(conn: &Connection, remote_fs: &str) -> (res: Result<
    FilesystemPlan,
    ZfsBackupError,
>)
    ensures
        res matches Ok(p) ==> exists|c: Option<Seq<char>>, n: Option<Seq<char>>|
            #[trigger] is_plan(p, c, n) && answers_first(
                sql_history(*conn),
                Query::CommonSnapshot,
                seq![pool_of(remote_fs@), remote_fs@],
                c,
            ) && answers_first(
                sql_history(*conn),
                Query::NewestSnapshot,
                seq![pool_of(remote_fs@), remote_fs@],
                n,
            ),
        res matches Err(e) ==> is_db_error(e, "Failed to query common snapshot"@) || is_db_error(
            e,
            "Failed to query newest remote snapshot"@,
        ),
        res matches Err(e) ==> sql_failure(e, "Failed to query common snapshot"@) || sql_failure(
            e,
            "Failed to query newest remote snapshot"@,
        ),
        plan_outcome(sql_history(*conn), remote_fs@, res),
{
    let pool = pool_of_filesystem(remote_fs);
    let common = get_common_snapshot(conn, pool.as_str(), remote_fs)?;
    let remote = get_remote_newest_snapshot(conn, pool.as_str(), remote_fs)?;
    let ghost c = opt_view(common);
    let ghost n = opt_view(remote);
    let p = plan_backup(common, remote);
    assert(is_plan(p, c, n));
    Ok(p)
}

/// A plan read from the database after the destination has recorded the
/// source's newest snapshot (strictly newer than its other snapshots) is
/// "up to date" with that snapshot: nothing is sent again.
pub proof fn law_plan_is_up_to_date_once_destination_holds_newest(
    p: FilesystemPlan,
    h: Seq<SqlStatement>,
    remote_fs: Seq<char>,
    i: int,
)
    requires
        db_tables(h) matches Some(t) && {
            let rows = t["snap_src"@];
            &&& 0 <= i < rows.len()
            &&& of_filesystem(t, pool_of(remote_fs), remote_fs, rows[i])
            &&& held_by_destination(t, rows[i])
            &&& forall|j: int|
                0 <= j < rows.len() && j != i && of_filesystem(
                    t,
                    pool_of(remote_fs),
                    remote_fs,
                    #[trigger] rows[j],
                ) ==> text_lt(cell(rows[j], "creation"@), cell(rows[i], "creation"@))
        },
        exists|c: Option<Seq<char>>, n: Option<Seq<char>>|
            #[trigger] is_plan(p, c, n) && answers_first(
                h,
                Query::CommonSnapshot,
                seq![pool_of(remote_fs), remote_fs],
                c,
            ) && answers_first(h, Query::NewestSnapshot, seq![pool_of(remote_fs), remote_fs], n),
    ensures
        p matches FilesystemPlan::UpToDate { snapshot } && snapshot@ == "@"@ + cell(
            db_tables(h)->0["snap_src"@][i],
            "snapshot"@,
        ),
{
    let (c, n) = choose|c: Option<Seq<char>>, n: Option<Seq<char>>|
        #[trigger] is_plan(p, c, n) && answers_first(
            h,
            Query::CommonSnapshot,
            seq![pool_of(remote_fs), remote_fs],
            c,
        ) && answers_first(h, Query::NewestSnapshot, seq![pool_of(remote_fs), remote_fs], n);
    law_common_is_newest_once_destination_holds_it(h, pool_of(remote_fs), remote_fs, i, c, n);
}

/// Where source filesystem `name` of pool `remote_pool` goes under
/// `local_pool`: the same path below the local pool as below the remote
/// one (`tank/data` of `tank` goes to `backup/tank/data` under
/// `backup/tank`); a name not below the remote pool goes directly below the
/// local pool.
pub open spec fn destination_of(remote_pool: Seq<char>, local_pool: Seq<char>, name: Seq<char>) -> Seq<char> {
    let prefix = remote_pool + seq!['/'];
    if name.len() >= prefix.len() && name.take(prefix.len() as int) == prefix {
        local_pool + name.skip(remote_pool.len() as int)
    } else {
        child_name(local_pool, name)
    }
}

/// Computes `destination_of`.
pub fn destination_path(remote_pool: &str, local_pool: &str, name: &str) -> (res: String)
    ensures
        res@ == destination_of(remote_pool@, local_pool@, name@),
{
    let rp = chars_of(remote_pool);
    let nm = chars_of(name);
    let ghost prefix = remote_pool@ + seq!['/'];
    if nm.len() <= rp.len() {
        return child_path(local_pool, name);
    }
    let mut i: usize = 0;
    while i < rp.len()
        invariant
            rp@ == remote_pool@,
            nm@ == name@,
            rp@.len() < nm@.len(),
            prefix == remote_pool@ + seq!['/'],
            i <= rp@.len(),
            forall|j: int| 0 <= j < i ==> nm@[j] == rp@[j],
        decreases rp@.len() - i,
    {
        if nm[i] != rp[i] {
            assert(name@.take(prefix.len() as int)[i as int] != prefix[i as int]);
            return child_path(local_pool, name);
        }
        i = i + 1;
    }
    if nm[rp.len()] != '/' {
        assert(name@.take(prefix.len() as int)[rp@.len() as int] != prefix[rp@.len() as int]);
        return child_path(local_pool, name);
    }
    assert(name@.take(prefix.len() as int) =~= prefix);
    let rest = string_from_range(&nm, rp.len(), nm.len());
    assert(rest@ =~= name@.skip(remote_pool@.len() as int));
    concat(local_pool, rest.as_str())
}

/// The (source, destination) pairs of a pool's backup: the pool roots
/// first, then each listed filesystem (by its full name) with where it goes.
pub open spec fn backup_pairs(
    remote_pool: Seq<char>,
    local_pool: Seq<char>,
    names: Seq<Seq<char>>,
) -> Seq<(Seq<char>, Seq<char>)> {
    seq![(remote_pool, local_pool)] + names.map_values(
        |n: Seq<char>| (n, destination_of(remote_pool, local_pool, n)),
    )
}

/// The views of a list of pairs.
pub open spec fn pair_views(v: Seq<(String, String)>) -> Seq<(Seq<char>, Seq<char>)> {
    v.map_values(|p: (String, String)| (p.0@, p.1@))
}

/// The filesystems a pool's backup visits, with where each one goes.
/// `names` are the full names of the pool's filesystems, as the state
/// database lists them.
pub fn backup_targets(remote_pool: &str, local_pool: &str, names: &Vec<String>) -> (res: Vec<
    (String, String),
>)
    ensures
        pair_views(res@) == backup_pairs(remote_pool@, local_pool@, views(names@)),
{
    let mut res: Vec<(String, String)> = Vec::new();
    res.push((String::from_str(remote_pool), String::from_str(local_pool)));
    let mut i: usize = 0;
    while i < names.len()
        invariant
            i <= names@.len(),
            pair_views(res@) == backup_pairs(remote_pool@, local_pool@, views(names@).take(i as int)),
        decreases names@.len() - i,
    {
        let ghost before = res@;
        let r = names[i].clone();
        let l = destination_path(remote_pool, local_pool, names[i].as_str());
        res.push((r, l));
        assert(views(names@).take(i + 1) == views(names@).take(i as int).push(names@[i as int]@));
        assert(pair_views(res@) == pair_views(before).push((r@, l@)));
        assert(backup_pairs(remote_pool@, local_pool@, views(names@).take(i + 1)) == backup_pairs(
            remote_pool@,
            local_pool@,
            views(names@).take(i as int),
        ).push((r@, l@)));
        i = i + 1;
    }
    assert(views(names@).take(names@.len() as int) == views(names@));
    res
}

/// A filesystem below the remote pool keeps its path below the local pool:
/// `pool/rest` goes to `local_pool/rest`.
pub proof fn law_destination_keeps_the_path_below_the_pool(
    remote_pool: Seq<char>,
    local_pool: Seq<char>,
    rest: Seq<char>,
)
    ensures
        destination_of(remote_pool, local_pool, remote_pool + seq!['/'] + rest) == child_name(
            local_pool,
            rest,
        ),
{
    let name = remote_pool + seq!['/'] + rest;
    let prefix = remote_pool + seq!['/'];
    assert(name.take(prefix.len() as int) =~= prefix);
    assert(name.skip(remote_pool.len() as int) =~= seq!['/'] + rest);
    assert(local_pool + (seq!['/'] + rest) =~= local_pool + seq!['/'] + rest);
}

/// Whether some pattern of `patterns` matches `name`.
pub open spec fn is_skipped(patterns: Seq<Seq<char>>, name: Seq<char>) -> bool {
    exists|j: int| 0 <= j < patterns.len() && regex_finds_match(#[trigger] patterns[j], name)
}

/// Whether `name` is kept by `patterns`.
pub open spec fn kept_by(patterns: Seq<Seq<char>>) -> spec_fn(Seq<char>) -> bool {
    |name: Seq<char>| !is_skipped(patterns, name)
}

/// Whether every pattern before index `i` compiles.
pub open spec fn compile_up_to(patterns: Seq<Seq<char>>, i: int) -> bool {
    forall|j: int| 0 <= j < i ==> regex_compile_error(#[trigger] patterns[j]) is None
}

/// Whether `e` reports that `pattern` does not compile, with the compiler's
/// message.
pub open spec fn is_pattern_error(e: ZfsBackupError, pattern: Seq<char>) -> bool {
    e matches ZfsBackupError::InvalidPattern { pattern: p, message: m } && p@ == pattern && Some(m@)
        == regex_compile_error(pattern)
}

/// Drops the filesystems that a `skip_filesystems` pattern matches. Every
/// pattern is compiled first; the first that does not compile is the error.
pub fn filter_filesystems(names: Vec<String>, skip_patterns: &[String]) -> (res: Result<
    Vec<String>,
    ZfsBackupError,
>)
    ensures
        res is Ok <==> compile_up_to(views(skip_patterns@), skip_patterns@.len() as int),
        res matches Ok(kept) ==> views(kept@) == views(names@).filter(
            kept_by(views(skip_patterns@)),
        ),
        res matches Err(e) ==> (exists|i: int|
            0 <= i < skip_patterns@.len() && compile_up_to(views(skip_patterns@), i)
                && #[trigger] regex_compile_error(skip_patterns@[i]@) is Some
                && is_pattern_error(e, skip_patterns@[i]@)),
{
    let ghost pats = views(skip_patterns@);
    let mut compiled: Vec<SkipPattern> = Vec::new();
    let mut i: usize = 0;
    while i < skip_patterns.len()
        invariant
            pats == views(skip_patterns@),
            i <= skip_patterns@.len(),
            compiled@.len() == i,
            compile_up_to(pats, i as int),
            forall|j: int| 0 <= j < i ==> (#[trigger] compiled@[j]).source() == pats[j],
        decreases skip_patterns@.len() - i,
    {
        assert(pats[i as int] == skip_patterns@[i as int]@);
        match compile_pattern(skip_patterns[i].as_str()) {
            Ok(re) => {
                compiled.push(re);
            },
            Err(message) => {
                let e = ZfsBackupError::InvalidPattern { pattern: skip_patterns[i].clone(), message };
                assert(regex_compile_error(skip_patterns@[i as int]@) is Some);
                assert(!compile_up_to(pats, skip_patterns@.len() as int));
                return Err(e);
            },
        }
        i = i + 1;
    }
    let ghost keep = kept_by(pats);
    let mut kept: Vec<String> = Vec::new();
    let mut k: usize = 0;
    let ghost ns = views(names@);
    proof {
        reveal(Seq::filter);
        assert(ns.take(0) == Seq::<Seq<char>>::empty());
    }
    while k < names.len()
        invariant
            pats == views(skip_patterns@),
            compiled@.len() == pats.len(),
            forall|j: int| 0 <= j < pats.len() ==> (#[trigger] compiled@[j]).source() == pats[j],
            keep == kept_by(pats),
            ns == views(names@),
            k <= names@.len(),
            views(kept@) == ns.take(k as int).filter(keep),
        decreases names@.len() - k,
    {
        let mut hit = false;
        let mut j: usize = 0;
        while j < compiled.len()
            invariant
                compiled@.len() == pats.len(),
                forall|q: int| 0 <= q < pats.len() ==> (#[trigger] compiled@[q]).source() == pats[q],
                j <= compiled@.len(),
                k < names@.len(),
                hit <==> exists|q: int|
                    0 <= q < j && regex_finds_match(#[trigger] pats[q], names@[k as int]@),
            decreases compiled@.len() - j,
        {
            let m = compiled[j].is_match(names[k].as_str());
            assert(compiled@[j as int].source() == pats[j as int]);
            if m {
                hit = true;
            }
            j = j + 1;
        }
        let ghost before = kept@;
        proof {
            reveal(Seq::filter);
            assert(ns.take(k + 1).drop_last() == ns.take(k as int));
            assert(ns.take(k + 1).last() == ns[k as int]);
            assert(ns[k as int] == names@[k as int]@);
            assert(keep(ns[k as int]) == !hit);
        }
        if !hit {
            kept.push(names[k].clone());
            assert(views(kept@) == views(before).push(names@[k as int]@));
        }
        k = k + 1;
    }
    assert(ns.take(names@.len() as int) == ns);
    Ok(kept)
}

} // verus!
