//! A smaller state database keyed by filesystem guid, with the review of
//! every filesystem of a pool that it supports.

use vstd::prelude::*;
use rusqlite::Connection;
use crate::backup::{
    compile_up_to, decide, filter_filesystems, is_decision, is_pattern_error, kept_by, BackupDecision,
};
use crate::db::{
    applied, bare_statement, db_error, describe_sql_error, execute_all, is_db_error,
    lemma_applied_single, opt_view, sql_error_text, sql_execute, sql_history, sql_query_first_text,
    sql_query_texts, statement_views, SqlStatement,
};
use crate::pattern::regex_compile_error;
use crate::tables::{answers_column, answers_first, catalog_snap_insert_tail, query_text, Query};
use crate::error::ZfsBackupError;
use crate::text::{concat, views};

verus! {

/// The catalog's table of source filesystems.
pub const CATALOG_CREATE_FS_SRC: &'static str = "CREATE TABLE IF NOT EXISTS fs_src (pool TEXT NOT NULL, guid TEXT NOT NULL PRIMARY KEY, name TEXT NOT NULL)";

/// The catalog's table of source snapshots.
pub const CATALOG_CREATE_SNAP_SRC: &'static str = "CREATE TABLE IF NOT EXISTS snap_src (parent_guid TEXT NOT NULL, guid TEXT NOT NULL PRIMARY KEY, creation TEXT NOT NULL, snapshot TEXT NOT NULL)";

/// The catalog's table of destination snapshots.
pub const CATALOG_CREATE_SNAP_DST: &'static str = "CREATE TABLE IF NOT EXISTS snap_dst (parent_guid TEXT NOT NULL, guid TEXT NOT NULL PRIMARY KEY, creation TEXT NOT NULL, snapshot TEXT NOT NULL)";

/// The statements that create the catalog's three tables.
pub open spec fn catalog_schema_statements() -> Seq<SqlStatement> {
    seq![
        (CATALOG_CREATE_FS_SRC@, Seq::<Seq<char>>::empty()),
        (CATALOG_CREATE_SNAP_SRC@, Seq::<Seq<char>>::empty()),
        (CATALOG_CREATE_SNAP_DST@, Seq::<Seq<char>>::empty()),
    ]
}

/// Source filesystem insertion.
pub const INSERT_FS_STATEMENT: &'static str = "INSERT INTO fs_src (pool, guid, name) VALUES (?, ?, ?)";

/// What follows `SELECT ` in the query for the names of a pool's source
/// filesystems, by name.
pub const FILESYSTEMS_SELECT: &'static str = "name FROM fs_src WHERE pool = ? ORDER BY name";

/// What follows `SELECT ` in the query for the most recent snapshot of a
/// filesystem (by guid) that both sides hold.
pub const COMMON_BY_GUID_SELECT: &'static str = "'@' || s1.snapshot FROM snap_src AS s1
    JOIN snap_dst AS s2 ON s1.guid = s2.guid
    WHERE s1.parent_guid = ? ORDER BY s1.creation DESC LIMIT 1";

/// What follows `SELECT ` in the query for the most recent source snapshot
/// of a filesystem (by guid).
pub const NEWEST_BY_GUID_SELECT: &'static str = "'@' || snapshot FROM snap_src WHERE parent_guid = ? ORDER BY creation DESC LIMIT 1";

/// What follows `SELECT ` in the query for the guid of a source
/// filesystem, by name.
pub const GUID_SELECT: &'static str = "guid FROM fs_src WHERE name = ?";

/// The query for the names of a pool's source filesystems.
pub open spec fn filesystems_query() -> Seq<char> {
    "SELECT "@ + FILESYSTEMS_SELECT@
}

/// The query for the most recent snapshot (by guid) on both sides.
pub open spec fn common_by_guid_query() -> Seq<char> {
    "SELECT "@ + COMMON_BY_GUID_SELECT@
}

/// The query for the most recent source snapshot (by guid).
pub open spec fn newest_by_guid_query() -> Seq<char> {
    "SELECT "@ + NEWEST_BY_GUID_SELECT@
}

/// The query for the guid of a source filesystem.
pub open spec fn guid_query() -> Seq<char> {
    "SELECT "@ + GUID_SELECT@
}

/// The statement that inserts a snapshot into `table`.
pub open spec fn catalog_snap_sql(table: Seq<char>) -> Seq<char> {
    "INSERT INTO "@ + table + catalog_snap_insert_tail()
}

/// A database error carrying only the error's own text.
fn plain_db_error(e: &rusqlite::Error) -> (res: ZfsBackupError)
    ensures
        res matches ZfsBackupError::DatabaseError(m) && m@ == sql_error_text(*e),
{
    ZfsBackupError::DatabaseError(describe_sql_error(e))
}

/// Creates the three tables.
pub fn initialize_db(conn: &mut Connection) -> (res: Result<(), ZfsBackupError>)
    ensures
        applied(
            res is Ok,
            sql_history(*old(conn)),
            sql_history(*final(conn)),
            catalog_schema_statements(),
        ),
        res matches Err(e) ==> is_db_error(e, "Failed to create schema"@),
{
    let mut v: Vec<(String, Vec<String>)> = Vec::new();
    v.push(bare_statement(CATALOG_CREATE_FS_SRC));
    v.push(bare_statement(CATALOG_CREATE_SNAP_SRC));
    v.push(bare_statement(CATALOG_CREATE_SNAP_DST));
    assert(statement_views(v@) == catalog_schema_statements());
    match execute_all(conn, &v) {
        Ok(()) => Ok(()),
        Err(e) => Err(db_error("Failed to create schema", &e)),
    }
}

/// Inserts a source filesystem.
pub fn insert_fs(conn: &mut Connection, pool: &str, guid: &str, name: &str) -> (res: Result<
    (),
    ZfsBackupError,
>)
    ensures
        applied(
            res is Ok,
            sql_history(*old(conn)),
            sql_history(*final(conn)),
            seq![(INSERT_FS_STATEMENT@, seq![pool@, guid@, name@])],
        ),
        res matches Err(e) ==> e is DatabaseError,
{
    let params = vec![String::from_str(pool), String::from_str(guid), String::from_str(name)];
    assert(views(params@) == seq![pool@, guid@, name@]);
    let ghost h = sql_history(*conn);
    let r = sql_execute(conn, INSERT_FS_STATEMENT, &params);
    proof {
        lemma_applied_single(r is Ok, h, sql_history(*conn), (INSERT_FS_STATEMENT@, seq![pool@, guid@, name@]));
    }
    match r {
        Ok(_) => Ok(()),
        Err(e) => Err(plain_db_error(&e)),
    }
}

/// Inserts a snapshot into `table`.
pub fn insert_snapshot(
    conn: &mut Connection,
    table: &str,
    parent_guid: &str,
    guid: &str,
    creation: &str,
    snapshot: &str,
) -> (res: Result<(), ZfsBackupError>)
    ensures
        applied(
            res is Ok,
            sql_history(*old(conn)),
            sql_history(*final(conn)),
            seq![(catalog_snap_sql(table@), seq![parent_guid@, guid@, creation@, snapshot@])],
        ),
        res matches Err(e) ==> e is DatabaseError,
{
    let a = concat("INSERT INTO ", table);
    let sql = concat(a.as_str(), " (parent_guid, guid, creation, snapshot) VALUES (?, ?, ?, ?)");
    let params = vec![
        String::from_str(parent_guid),
        String::from_str(guid),
        String::from_str(creation),
        String::from_str(snapshot),
    ];
    assert(views(params@) == seq![parent_guid@, guid@, creation@, snapshot@]);
    let ghost h = sql_history(*conn);
    let r = sql_execute(conn, sql.as_str(), &params);
    proof {
        lemma_applied_single(
            r is Ok,
            h,
            sql_history(*conn),
            (catalog_snap_sql(table@), seq![parent_guid@, guid@, creation@, snapshot@]),
        );
    }
    match r {
        Ok(_) => Ok(()),
        Err(e) => Err(plain_db_error(&e)),
    }
}

/// The names of the source filesystems of `pool`, by name.
pub fn get_filesystems(conn: &Connection, pool: &str) -> (res: Result<Vec<String>, ZfsBackupError>)
    ensures
        res matches Ok(v) ==> answers_column(
            sql_history(*conn),
            Query::CatalogFilesystems,
            seq![pool@],
            views(v@),
        ),
        res matches Err(e) ==> e is DatabaseError,
{
    let params = one_param(pool);
    let sql = query_text(Query::CatalogFilesystems);
    match sql_query_texts(conn, Some(Query::CatalogFilesystems), sql.as_str(), &params) {
        Ok(v) => Ok(v),
        Err(e) => Err(plain_db_error(&e)),
    }
}

/// One text parameter.
fn one_param(a: &str) -> (res: Vec<String>)
    ensures
        views(res@) == seq![a@],
{
    let v = vec![String::from_str(a)];
    assert(views(v@) == seq![a@]);
    v
}

/// The most recent snapshot of the filesystem with guid `fs_guid` that both
/// sides hold, as `@name`.
pub fn get_common_snapshot(conn: &Connection, fs_guid: &str) -> (res: Result<
    Option<String>,
    ZfsBackupError,
>)
    ensures
        res matches Ok(o) ==> answers_first(
            sql_history(*conn),
            Query::CatalogCommon,
            seq![fs_guid@],
            opt_view(o),
        ),
        res matches Err(e) ==> is_db_error(e, "Failed to query common snapshot"@),
{
    let sql = query_text(Query::CatalogCommon);
    match sql_query_first_text(conn, Some(Query::CatalogCommon), sql.as_str(), &one_param(fs_guid)) {
        Ok(o) => Ok(o),
        Err(e) => Err(db_error("Failed to query common snapshot", &e)),
    }
}

/// The most recent source snapshot of the filesystem with guid `fs_guid`,
/// as `@name`.
pub fn get_newest_snapshot(conn: &Connection, fs_guid: &str) -> (res: Result<
    Option<String>,
    ZfsBackupError,
>)
    ensures
        res matches Ok(o) ==> answers_first(
            sql_history(*conn),
            Query::CatalogNewest,
            seq![fs_guid@],
            opt_view(o),
        ),
        res matches Err(e) ==> is_db_error(e, "Failed to query newest snapshot"@),
{
    let sql = query_text(Query::CatalogNewest);
    match sql_query_first_text(conn, Some(Query::CatalogNewest), sql.as_str(), &one_param(fs_guid)) {
        Ok(o) => Ok(o),
        Err(e) => Err(db_error("Failed to query newest snapshot", &e)),
    }
}

/// The guid of the source filesystem named `name`.
pub fn get_fs_guid(conn: &Connection, name: &str) -> (res: Result<Option<String>, ZfsBackupError>)
    ensures
        res matches Ok(o) ==> answers_first(
            sql_history(*conn),
            Query::CatalogGuid,
            seq![name@],
            opt_view(o),
        ),
        res matches Err(e) ==> is_db_error(e, "Failed to query filesystem guid"@),
{
    let sql = query_text(Query::CatalogGuid);
    match sql_query_first_text(conn, Some(Query::CatalogGuid), sql.as_str(), &one_param(name)) {
        Ok(o) => Ok(o),
        Err(e) => Err(db_error("Failed to query filesystem guid", &e)),
    }
}

/// Whether `d` is a decision the review may take for filesystem `name` of
/// database `h`: the decision for the common and newest snapshots the
/// database answers for a guid it answers for `name`.
pub open spec fn is_review_decision(h: Seq<SqlStatement>, name: Seq<char>, d: BackupDecision) -> bool {
    exists|g: Seq<char>, c: Option<Seq<char>>, n: Option<Seq<char>>|
        #![trigger answers_first(h, Query::CatalogGuid, seq![name], Some(g)), answers_first(h, Query::CatalogCommon, seq![g], c), answers_first(h, Query::CatalogNewest, seq![g], n)]
        answers_first(h, Query::CatalogGuid, seq![name], Some(g)) && answers_first(
            h,
            Query::CatalogCommon,
            seq![g],
            c,
        ) && answers_first(h, Query::CatalogNewest, seq![g], n) && is_decision(d, c, n)
}

/// Whether `out` is a review of the filesystems `names` of database `h`:
/// in order, each name whose guid the database does not know left out, each
/// other one with its decision.
pub open spec fn is_review(h: Seq<SqlStatement>, names: Seq<Seq<char>>, out: Seq<(String, BackupDecision)>) -> bool
    decreases names.len(),
{
    if names.len() == 0 {
        out.len() == 0
    } else {
        let name = names.last();
        ||| answers_first(h, Query::CatalogGuid, seq![name], None) && is_review(
            h,
            names.drop_last(),
            out,
        )
        ||| out.len() > 0 && out.last().0@ == name && is_review_decision(h, name, out.last().1)
            && is_review(h, names.drop_last(), out.drop_last())
    }
}

/// Reviews every filesystem of `pool`: lists them, drops those that a
/// pattern of `skip_patterns` matches and those whose guid is unknown, and
/// decides what to do for each of the others.
pub fn review_pool(conn: &Connection, pool: &str, skip_patterns: &[String]) -> (res: Result<
    Vec<(String, BackupDecision)>,
    ZfsBackupError,
>)
    ensures
        !compile_up_to(views(skip_patterns@), skip_patterns@.len() as int) ==> res is Err,
        res matches Ok(v) ==> exists|names: Seq<Seq<char>>|
            #[trigger] answers_column(sql_history(*conn), Query::CatalogFilesystems, seq![pool@], names)
                && is_review(sql_history(*conn), names.filter(kept_by(views(skip_patterns@))), v@),
        res matches Err(e) ==> e is DatabaseError || e is InvalidPattern,
        res matches Err(e) ==> (e is InvalidPattern ==> exists|i: int|
            0 <= i < skip_patterns@.len() && compile_up_to(views(skip_patterns@), i)
                && #[trigger] regex_compile_error(skip_patterns@[i]@) is Some
                && is_pattern_error(e, skip_patterns@[i]@)),
{
    let ghost h = sql_history(*conn);
    let discovered = get_filesystems(conn, pool)?;
    let ghost names = views(discovered@);
    let to_process = filter_filesystems(discovered, skip_patterns)?;
    let ghost ns = views(to_process@);
    let mut out: Vec<(String, BackupDecision)> = Vec::new();
    let mut i: usize = 0;
    assert(ns.take(0) == Seq::<Seq<char>>::empty());
    while i < to_process.len()
        invariant
            h == sql_history(*conn),
            ns == views(to_process@),
            i <= to_process@.len(),
            is_review(h, ns.take(i as int), out@),
        decreases to_process@.len() - i,
    {
        let ghost before = out@;
        assert(ns.take(i + 1).drop_last() == ns.take(i as int));
        assert(ns.take(i + 1).last() == ns[i as int]);
        assert(ns[i as int] == to_process@[i as int]@);
        let name = &to_process[i];
        match get_fs_guid(conn, name.as_str())? {
            None => {
                assert(is_review(h, ns.take(i + 1), out@));
            },
            Some(guid) => {
                let common = get_common_snapshot(conn, guid.as_str())?;
                let newest = get_newest_snapshot(conn, guid.as_str())?;
                let d = decide(common, newest);
                let entry = (name.clone(), d);
                let ghost g = entry;
                out.push(entry);
                assert(out@.drop_last() == before);
                assert(answers_first(h, Query::CatalogGuid, seq![ns[i as int]], Some(guid@)));
                assert(is_review_decision(h, ns[i as int], g.1));
                assert(is_review(h, ns.take(i + 1), out@));
            },
        }
        i = i + 1;
    }
    assert(ns.take(to_process@.len() as int) == ns);
    assert(answers_column(h, Query::CatalogFilesystems, seq![pool@], names));
    Ok(out)
}

/// A statement with text parameters.
fn statement(sql: &str, params: Vec<String>) -> (res: (String, Vec<String>))
    ensures
        res.0@ == sql@,
        res.1@ == params@,
{
    (String::from_str(sql), params)
}

/// The insertion of source filesystem `pool/child` with guid `guid`.
pub open spec fn seed_fs(pool: Seq<char>, guid: Seq<char>, child: Seq<char>) -> SqlStatement {
    (INSERT_FS_STATEMENT@, seq![pool, guid, pool + "/"@ + child])
}

/// The insertion of a snapshot into `table`.
pub open spec fn seed_snap(
    table: Seq<char>,
    parent: Seq<char>,
    guid: Seq<char>,
    creation: Seq<char>,
    snapshot: Seq<char>,
) -> SqlStatement {
    (catalog_snap_sql(table), seq![parent, guid, creation, snapshot])
}

/// The sample state of `pool`: `data` in sync, `docker` without snapshots,
/// `logs` one snapshot behind, `new` with nothing in common.
pub open spec fn seed_statements(pool: Seq<char>) -> Seq<SqlStatement> {
    seq![
        seed_fs(pool, "guid-data"@, "data"@),
        seed_snap("snap_src"@, "guid-data"@, "guid-common"@, "2024-01-01"@, "daily-01"@),
        seed_snap("snap_dst"@, "guid-data"@, "guid-common"@, "2024-01-01"@, "daily-01"@),
        seed_fs(pool, "guid-docker"@, "docker"@),
        seed_fs(pool, "guid-logs"@, "logs"@),
        seed_snap("snap_src"@, "guid-logs"@, "guid-logs-common"@, "2024-01-01"@, "daily-01"@),
        seed_snap("snap_dst"@, "guid-logs"@, "guid-logs-common"@, "2024-01-01"@, "daily-01"@),
        seed_snap("snap_src"@, "guid-logs"@, "guid-logs-new"@, "2024-01-02"@, "daily-02"@),
        seed_fs(pool, "guid-new"@, "new"@),
        seed_snap("snap_src"@, "guid-new"@, "guid-new-1"@, "2024-01-01"@, "daily-01"@),
    ]
}

/// The insertion of a source filesystem `pool/child`.
fn fs_statement(pool: &str, guid: &str, child: &str) -> (res: (String, Vec<String>))
    ensures
        (res.0@, views(res.1@)) == seed_fs(pool@, guid@, child@),
{
    let a = concat(pool, "/");
    let name = concat(a.as_str(), child);
    let params = vec![String::from_str(pool), String::from_str(guid), name];
    assert(views(params@) == seq![pool@, guid@, pool@ + "/"@ + child@]);
    statement(INSERT_FS_STATEMENT, params)
}

/// The insertion of a snapshot into `table`.
fn snap_statement(table: &str, parent: &str, guid: &str, creation: &str, snapshot: &str) -> (res: (
    String,
    Vec<String>,
))
    ensures
        (res.0@, views(res.1@)) == seed_snap(table@, parent@, guid@, creation@, snapshot@),
{
    let a = concat("INSERT INTO ", table);
    let sql = concat(a.as_str(), " (parent_guid, guid, creation, snapshot) VALUES (?, ?, ?, ?)");
    let params = vec![
        String::from_str(parent),
        String::from_str(guid),
        String::from_str(creation),
        String::from_str(snapshot),
    ];
    assert(views(params@) == seq![parent@, guid@, creation@, snapshot@]);
    (sql, params)
}

/// Records a sample state for `pool` (four filesystems in the situations a
/// review tells apart), in place of a real discovery.
pub fn seed_fake_discovery(conn: &mut Connection, pool: &str) -> (res: Result<(), ZfsBackupError>)
    ensures
        applied(
            res is Ok,
            sql_history(*old(conn)),
            sql_history(*final(conn)),
            seed_statements(pool@),
        ),
        res matches Err(e) ==> e is DatabaseError,
{
    let mut v: Vec<(String, Vec<String>)> = Vec::new();
    v.push(fs_statement(pool, "guid-data", "data"));
    v.push(snap_statement("snap_src", "guid-data", "guid-common", "2024-01-01", "daily-01"));
    v.push(snap_statement("snap_dst", "guid-data", "guid-common", "2024-01-01", "daily-01"));
    v.push(fs_statement(pool, "guid-docker", "docker"));
    v.push(fs_statement(pool, "guid-logs", "logs"));
    v.push(snap_statement("snap_src", "guid-logs", "guid-logs-common", "2024-01-01", "daily-01"));
    v.push(snap_statement("snap_dst", "guid-logs", "guid-logs-common", "2024-01-01", "daily-01"));
    v.push(snap_statement("snap_src", "guid-logs", "guid-logs-new", "2024-01-02", "daily-02"));
    v.push(fs_statement(pool, "guid-new", "new"));
    v.push(snap_statement("snap_src", "guid-new", "guid-new-1", "2024-01-01", "daily-01"));
    assert(statement_views(v@) == seed_statements(pool@));
    match execute_all(conn, &v) {
        Ok(()) => Ok(()),
        Err(e) => Err(plain_db_error(&e)),
    }
}

} // verus!
