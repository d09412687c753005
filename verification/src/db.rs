//! The state of a backup run, kept in SQLite: the filesystems and snapshots
//! found on the source (`*_src`) and on the destination (`*_dst`).
//!
//! The database is reached through `rusqlite`. Its contents are described by
//! the statements applied to it (`sql_history`); what its rows are after
//! those statements, and what each query answers on them, is in `tables`.
//!
//! A connection's history holds the statements applied through it. This
//! describes the database only while that connection is the one writer of
//! its file: statements that another connection or process applies are in
//! no history this library sees.

use vstd::prelude::*;
use rusqlite::Connection;
use rusqlite::OptionalExtension;
use crate::error::ZfsBackupError;
use crate::tables::{
    answers_column, answers_first, fs_insert_tail, query_sql, query_text, returns_one,
    snap_insert_tail, column_name, column_named, table_name, table_named, Column, Query, Table,
};
use crate::text::{concat, views};

verus! {

/// `rusqlite::Connection`, an open SQLite database; opaque here.
#[verifier::external_type_specification]
#[verifier::external_body]
pub struct ExConnection(rusqlite::Connection);

/// `rusqlite::Error`; opaque here.
#[verifier::external_type_specification]
#[verifier::external_body]
pub struct ExSqlError(rusqlite::Error);

/// One applied statement: its SQL text and the texts bound to its
/// parameters.
pub type SqlStatement = (Seq<char>, Seq<Seq<char>>);

/// The statements whose effects the database behind `conn` holds, in the
/// order in which they were applied (for a database opened from a file,
/// those applied before it was opened come first). It is what the database
/// holds while `conn` is the only writer of the file.
pub uninterp spec fn sql_history(conn: Connection) -> Seq<SqlStatement>;

/// Trusted: `Connection::execute` with text parameters. On success SQLite
/// has applied the statement whole, and it is added to the database's
/// history. On failure it is either not applied (SQLite undoes a failing
/// statement) or, where the failure is reported only after the statement
/// ran (a statement that returns rows), applied whole.
#[verifier::external_body]
pub(crate) fn sql_execute(conn: &mut Connection, sql: &str, params: &Vec<String>) -> (res: Result<
    usize,
    rusqlite::Error,
>)
    ensures
        res is Ok ==> sql_history(*final(conn)) == sql_history(*old(conn)).push(
            (sql@, views(params@)),
        ),
        res is Err ==> sql_history(*final(conn)) == sql_history(*old(conn)) || sql_history(
            *final(conn),
        ) == sql_history(*old(conn)).push((sql@, views(params@))),
{
    conn.execute(sql, rusqlite::params_from_iter(params.iter()))
}

/// Whether `sql` starts with `SELECT `. The query wrappers prepare one
/// statement only (a second one is refused with `MultipleStatement`), and a
/// single SQLite statement that starts so reads the database and writes
/// nothing.
pub open spec fn is_select(sql: Seq<char>) -> bool {
    sql.len() >= 7 && sql.take(7) == "SELECT "@
}

/// What a query wrapper may be handed: the text of one of the library's
/// queries `q`, with the kind of result it gives; or, with no such `q`, a
/// text that starts with `SELECT `.
pub open spec fn query_handed(query: Option<Query>, sql: Seq<char>, one: bool) -> bool {
    match query {
        Some(q) => sql == query_sql(q) && returns_one(q) == one,
        None => is_select(sql),
    }
}

/// Trusted: `Connection::query_row` reading the first column as text,
/// followed by `OptionalExtension::optional`, which turns "no row" into
/// `None`; `query_row` ignores every row but the first. The statement reads
/// only, so the history does not change. When `sql` is the text of one of
/// the library's queries, `query`, a successful call returns the answer
/// SQLite defines for that query on the rows the applied statements left
/// (`answers_first`). Nothing is stated of what any other `SELECT` text
/// returns, nor of when the call fails.
#[verifier::external_body]
pub(crate) fn sql_query_first_text(
    conn: &Connection,
    query: Option<Query>,
    sql: &str,
    params: &Vec<String>,
) -> (res: Result<Option<String>, rusqlite::Error>)
    requires
        query_handed(query, sql@, true),
    ensures
        res matches Ok(o) ==> (query matches Some(q) ==> answers_first(
            sql_history(*conn),
            q,
            views(params@),
            opt_view(o),
        )),
{
    let _ = query;
    conn.query_row(sql, rusqlite::params_from_iter(params.iter()), |row| row.get::<_, String>(0))
        .optional()
}

/// Trusted: `Connection::prepare` and `Statement::query_map` reading the
/// first column of every row as text. The statement reads only. When `sql`
/// is the text of one of the library's column queries, `query`, a
/// successful result is the answer SQLite defines for it on the rows the
/// applied statements left (`answers_column`). Nothing is stated of what
/// any other `SELECT` text returns, nor of when the call fails.
#[verifier::external_body]
pub(crate) fn sql_query_texts(
    conn: &Connection,
    query: Option<Query>,
    sql: &str,
    params: &Vec<String>,
) -> (res: Result<Vec<String>, rusqlite::Error>)
    requires
        query_handed(query, sql@, false),
    ensures
        res matches Ok(v) ==> (query matches Some(q) ==> answers_column(
            sql_history(*conn),
            q,
            views(params@),
            views(v@),
        )),
{
    let _ = query;
    let mut stmt = conn.prepare(sql)?;
    let rows = stmt.query_map(rusqlite::params_from_iter(params.iter()), |row| row.get::<_, String>(0))?;
    rows.collect()
}

/// The text that the `Display` impl of `rusqlite::Error` writes for an
/// error value.
pub uninterp spec fn sql_error_text(e: rusqlite::Error) -> Seq<char>;

/// Trusted: `ToString::to_string` on a `rusqlite::Error`, that is its
/// `Display` text, named `sql_error_text`.
#[verifier::external_body]
pub(crate) fn describe_sql_error(e: &rusqlite::Error) -> (res: String)
    ensures
        res@ == sql_error_text(*e),
{
    e.to_string()
}

/// The view of an optional string.
pub open spec fn opt_view(o: Option<String>) -> Option<Seq<char>> {
    match o {
        Some(s) => Some(s@),
        None => None,
    }
}

/// Whether `e` is a database error whose text starts with `context`.
pub open spec fn is_db_error(e: ZfsBackupError, context: Seq<char>) -> bool {
    e matches ZfsBackupError::DatabaseError(m) && exists|cause: Seq<char>|
        m@ == context + ": "@ + cause
}

/// Whether `e` reports a failure of SQLite itself: a database error whose
/// text is `context: ` followed by the text of some `rusqlite::Error`.
pub open spec fn sql_failure(e: ZfsBackupError, context: Seq<char>) -> bool {
    e matches ZfsBackupError::DatabaseError(m) && exists|err: rusqlite::Error|
        m@ == context + ": "@ + #[trigger] sql_error_text(err)
}

/// A failure of SQLite is a database error with its context.
pub proof fn lemma_sql_failure_is_db_error(e: ZfsBackupError, context: Seq<char>)
    requires
        sql_failure(e, context),
    ensures
        is_db_error(e, context),
{
    let m = e->DatabaseError_0@;
    let err = choose|err: rusqlite::Error| m == context + ": "@ + #[trigger] sql_error_text(err);
    assert(m == context + ": "@ + sql_error_text(err));
}

/// A database error whose text is `context: cause`, the cause being the
/// text of SQLite's error `e`.
pub(crate) fn db_error(context: &str, e: &rusqlite::Error) -> (res: ZfsBackupError)
    ensures
        is_db_error(res, context@),
        res matches ZfsBackupError::DatabaseError(m) && m@ == context@ + ": "@ + sql_error_text(*e),
        sql_failure(res, context@),
{
    let cause = describe_sql_error(e);
    let a = concat(context, ": ");
    let m = concat(a.as_str(), cause.as_str());
    assert(m@ == context@ + ": "@ + cause@);
    let r = ZfsBackupError::DatabaseError(m);
    assert(sql_failure(r, context@)) by {
        assert(m@ == context@ + ": "@ + sql_error_text(*e));
    }
    r
}


/// A filesystem row of `fs_src` or `fs_dst`.
#[derive(Debug, Clone)]
pub struct Filesystem {
    pub pool: String,
    pub guid: String,
    pub createtxg: String,
    pub creation: String,
    pub fs_type: String,
    pub used: String,
    pub name: String,
}

/// A snapshot row of `snap_src` or `snap_dst`.
#[derive(Debug, Clone)]
pub struct Snapshot {
    pub parent_guid: String,
    pub guid: String,
    pub createtxg: String,
    pub creation: String,
    pub snap_type: String,
    pub used: String,
    pub name: String,
    pub snapshot: String,
}

/// The values a filesystem row binds, in column order.
pub open spec fn fs_row(fs: Filesystem) -> Seq<Seq<char>> {
    seq![fs.pool@, fs.guid@, fs.createtxg@, fs.creation@, fs.fs_type@, fs.used@, fs.name@]
}

/// The values a snapshot row binds, in column order.
pub open spec fn snap_row(s: Snapshot) -> Seq<Seq<char>> {
    seq![
        s.parent_guid@,
        s.guid@,
        s.createtxg@,
        s.creation@,
        s.snap_type@,
        s.used@,
        s.name@,
        s.snapshot@,
    ]
}

/// The table of the source's filesystems.
pub const CREATE_FS_SRC: &'static str = "CREATE TABLE IF NOT EXISTS fs_src (
  pool TEXT NOT NULL,
  guid TEXT NOT NULL PRIMARY KEY,
  createtxg TEXT NOT NULL,
  creation TEXT NOT NULL,
  type TEXT NOT NULL,
  used TEXT NOT NULL,
  name TEXT NOT NULL
)";

/// The table of the destination's filesystems.
pub const CREATE_FS_DST: &'static str = "CREATE TABLE IF NOT EXISTS fs_dst (
  pool TEXT NOT NULL,
  guid TEXT NOT NULL PRIMARY KEY,
  createtxg TEXT NOT NULL,
  creation TEXT NOT NULL,
  type TEXT NOT NULL,
  used TEXT NOT NULL,
  name TEXT NOT NULL
)";

/// The table of the source's snapshots.
pub const CREATE_SNAP_SRC: &'static str = "CREATE TABLE IF NOT EXISTS snap_src (
  parent_guid TEXT NOT NULL,
  guid TEXT NOT NULL PRIMARY KEY,
  createtxg TEXT NOT NULL,
  creation TEXT NOT NULL,
  type TEXT NOT NULL,
  used TEXT NOT NULL,
  name TEXT NOT NULL,
  snapshot TEXT NOT NULL
)";

/// The table of the destination's snapshots.
pub const CREATE_SNAP_DST: &'static str = "CREATE TABLE IF NOT EXISTS snap_dst (
  parent_guid TEXT NOT NULL,
  guid TEXT NOT NULL PRIMARY KEY,
  createtxg TEXT NOT NULL,
  creation TEXT NOT NULL,
  type TEXT NOT NULL,
  used TEXT NOT NULL,
  name TEXT NOT NULL,
  snapshot TEXT NOT NULL
)";

/// What follows `SELECT ` in the query for the most recent snapshot of a
/// source filesystem that the destination also holds (same guid), as
/// `@name`.
pub const COMMON_SNAPSHOT_SELECT: &'static str = "'@' || s1.snapshot
    FROM fs_src AS f
    JOIN snap_src AS s1 ON f.guid = s1.parent_guid
    JOIN snap_dst AS s2 ON s1.guid = s2.guid
    WHERE f.pool = ? AND f.name = ?
    ORDER BY s1.creation DESC
    LIMIT 1
    ";

/// What follows `SELECT ` in the query for the most recent snapshot of a
/// source filesystem, as `@name`.
pub const NEWEST_SNAPSHOT_SELECT: &'static str = "'@' || s.snapshot
    FROM fs_src AS f
    JOIN snap_src AS s ON f.guid = s.parent_guid
    WHERE f.pool = ? AND f.name = ?
    ORDER BY s.creation DESC
    LIMIT 1
    ";

/// The query for the most recent snapshot common to both sides.
pub open spec fn common_snapshot_query() -> Seq<char> {
    "SELECT "@ + COMMON_SNAPSHOT_SELECT@
}

/// The query for the most recent source snapshot.
pub open spec fn newest_snapshot_query() -> Seq<char> {
    "SELECT "@ + NEWEST_SNAPSHOT_SELECT@
}

/// `SELECT ` followed by `rest`.
pub(crate) fn select_query(rest: &str) -> (res: String)
    ensures
        res@ == "SELECT "@ + rest@,
{
    concat("SELECT ", rest)
}

/// The statements that create the four tables, in order.
pub open spec fn schema_statements() -> Seq<SqlStatement> {
    seq![
        (CREATE_FS_SRC@, Seq::<Seq<char>>::empty()),
        (CREATE_FS_DST@, Seq::<Seq<char>>::empty()),
        (CREATE_SNAP_SRC@, Seq::<Seq<char>>::empty()),
        (CREATE_SNAP_DST@, Seq::<Seq<char>>::empty()),
    ]
}

/// The views of a list of statements.
pub open spec fn statement_views(v: Seq<(String, Vec<String>)>) -> Seq<SqlStatement> {
    v.map_values(|st: (String, Vec<String>)| (st.0@, views(st.1@)))
}

/// How a sequence of statements went: all applied in order when `ok`,
/// otherwise a prefix of them applied (the failing one included or not).
pub open spec fn applied(
    ok: bool,
    before: Seq<SqlStatement>,
    after: Seq<SqlStatement>,
    stmts: Seq<SqlStatement>,
) -> bool {
    if ok {
        after == before + stmts
    } else {
        exists|k: int| 0 <= k <= stmts.len() && after == before + stmts.take(k)
    }
}

/// A proper prefix of the statements applied.
pub proof fn lemma_applied_prefix(
    before: Seq<SqlStatement>,
    after: Seq<SqlStatement>,
    stmts: Seq<SqlStatement>,
    k: int,
)
    requires
        0 <= k <= stmts.len(),
        after == before + stmts.take(k),
    ensures
        applied(false, before, after, stmts),
{
}

/// A run that failed at statement `i`, which may or may not have been
/// applied.
pub proof fn lemma_applied_failed_at(
    before: Seq<SqlStatement>,
    h: Seq<SqlStatement>,
    after: Seq<SqlStatement>,
    stmts: Seq<SqlStatement>,
    i: int,
)
    requires
        0 <= i < stmts.len(),
        h == before + stmts.take(i),
        after == h || after == h.push(stmts[i]),
    ensures
        applied(false, before, after, stmts),
{
    if after == h {
        lemma_applied_prefix(before, after, stmts, i);
    } else {
        assert(stmts.take(i + 1) == stmts.take(i).push(stmts[i]));
        assert(after == before + stmts.take(i + 1));
        lemma_applied_prefix(before, after, stmts, i + 1);
    }
}

/// One statement applied, or none.
pub proof fn lemma_applied_single(
    ok: bool,
    before: Seq<SqlStatement>,
    after: Seq<SqlStatement>,
    stmt: SqlStatement,
)
    requires
        ok ==> after == before.push(stmt),
        !ok ==> after == before || after == before.push(stmt),
    ensures
        applied(ok, before, after, seq![stmt]),
{
    if ok {
        assert(after == before + seq![stmt]);
    } else {
        assert(seq![stmt].take(0) == Seq::<SqlStatement>::empty());
        assert(before + seq![stmt].take(0) == before);
        lemma_applied_failed_at(before, before, after, seq![stmt], 0);
    }
}

/// Applies statements in order, stopping at the first that fails, whose
/// error is returned.
pub(crate) fn execute_all(conn: &mut Connection, stmts: &Vec<(String, Vec<String>)>) -> (res: Result<
    (),
    rusqlite::Error,
>)
    ensures
        applied(
            res is Ok,
            sql_history(*old(conn)),
            sql_history(*final(conn)),
            statement_views(stmts@),
        ),
{
    let ghost before = sql_history(*conn);
    let ghost all = statement_views(stmts@);
    let mut i: usize = 0;
    assert(all.take(0) == Seq::<SqlStatement>::empty());
    assert(before + all.take(0) == before);
    while i < stmts.len()
        invariant
            before == sql_history(*old(conn)),
            all == statement_views(stmts@),
            i <= stmts@.len(),
            sql_history(*conn) == before + all.take(i as int),
        decreases stmts@.len() - i,
    {
        assert(all[i as int] == (stmts@[i as int].0@, views(stmts@[i as int].1@)));
        let ghost h = sql_history(*conn);
        match sql_execute(conn, stmts[i].0.as_str(), &stmts[i].1) {
            Ok(_) => {
                assert(all.take(i + 1) == all.take(i as int).push(all[i as int]));
            },
            Err(e) => {
                proof {
                    lemma_applied_failed_at(before, h, sql_history(*conn), all, i as int);
                }
                return Err(e);
            },
        }
        i = i + 1;
    }
    assert(all.take(stmts@.len() as int) == all);
    Ok(())
}

/// A statement without parameters.
pub(crate) fn bare_statement(sql: &str) -> (res: (String, Vec<String>))
    ensures
        res.0@ == sql@,
        views(res.1@) == Seq::<Seq<char>>::empty(),
{
    let v: Vec<String> = Vec::new();
    assert(views(v@) == Seq::<Seq<char>>::empty());
    (String::from_str(sql), v)
}

/// Creates the four tables, one statement at a time.
pub fn initialize_db(conn: &mut Connection) -> (res: Result<(), ZfsBackupError>)
    ensures
        applied(res is Ok, sql_history(*old(conn)), sql_history(*final(conn)), schema_statements()),
        res matches Err(e) ==> is_db_error(e, "Failed to create table"@),
        res matches Err(e) ==> sql_failure(e, "Failed to create table"@),
{
    let mut v: Vec<(String, Vec<String>)> = Vec::new();
    v.push(bare_statement(CREATE_FS_SRC));
    v.push(bare_statement(CREATE_FS_DST));
    v.push(bare_statement(CREATE_SNAP_SRC));
    v.push(bare_statement(CREATE_SNAP_DST));
    assert(statement_views(v@) == schema_statements());
    match execute_all(conn, &v) {
        Ok(()) => Ok(()),
        Err(e) => Err(db_error("Failed to create table", &e)),
    }
}

/// The statement that inserts a filesystem row into `table`.
pub open spec fn insert_fs_sql(table: Seq<char>) -> Seq<char> {
    "INSERT INTO "@ + table + fs_insert_tail()
}

/// The statement that inserts a snapshot row into `table`.
pub open spec fn insert_snap_sql(table: Seq<char>) -> Seq<char> {
    "INSERT INTO "@ + table + snap_insert_tail()
}

/// The values of a filesystem row, as bound parameters.
pub(crate) fn fs_params(fs: &Filesystem) -> (res: Vec<String>)
    ensures
        views(res@) == fs_row(*fs),
{
    let v = vec![
        fs.pool.clone(),
        fs.guid.clone(),
        fs.createtxg.clone(),
        fs.creation.clone(),
        fs.fs_type.clone(),
        fs.used.clone(),
        fs.name.clone(),
    ];
    assert(views(v@) == fs_row(*fs));
    v
}

/// The values of a snapshot row, as bound parameters.
pub(crate) fn snap_params(s: &Snapshot) -> (res: Vec<String>)
    ensures
        views(res@) == snap_row(*s),
{
    let v = vec![
        s.parent_guid.clone(),
        s.guid.clone(),
        s.createtxg.clone(),
        s.creation.clone(),
        s.snap_type.clone(),
        s.used.clone(),
        s.name.clone(),
        s.snapshot.clone(),
    ];
    assert(views(v@) == snap_row(*s));
    v
}

/// Inserts a filesystem row into `table`.
pub(crate) fn insert_filesystem_into(conn: &mut Connection, table: &str, fs: &Filesystem) -> (res:
    Result<(), ZfsBackupError>)
    ensures
        applied(
            res is Ok,
            sql_history(*old(conn)),
            sql_history(*final(conn)),
            seq![(insert_fs_sql(table@), fs_row(*fs))],
        ),
        res matches Err(e) ==> is_db_error(e, "Failed to insert filesystem"@),
        res matches Err(e) ==> sql_failure(e, "Failed to insert filesystem"@),
{
    let a = concat("INSERT INTO ", table);
    let sql = concat(
        a.as_str(),
        " (pool, guid, createtxg, creation, type, used, name) VALUES (?, ?, ?, ?, ?, ?, ?)",
    );
    let params = fs_params(fs);
    let ghost h = sql_history(*conn);
    let r = sql_execute(conn, sql.as_str(), &params);
    proof {
        lemma_applied_single(r is Ok, h, sql_history(*conn), (insert_fs_sql(table@), fs_row(*fs)));
    }
    match r {
        Ok(_) => Ok(()),
        Err(e) => Err(db_error("Failed to insert filesystem", &e)),
    }
}

/// Inserts a source filesystem row (into `fs_src`).
pub fn insert_filesystem(conn: &mut Connection, fs: &Filesystem) -> (res: Result<(), ZfsBackupError>)
    ensures
        applied(
            res is Ok,
            sql_history(*old(conn)),
            sql_history(*final(conn)),
            seq![(insert_fs_sql("fs_src"@), fs_row(*fs))],
        ),
        res matches Err(e) ==> is_db_error(e, "Failed to insert filesystem"@),
        res matches Err(e) ==> sql_failure(e, "Failed to insert filesystem"@),
{
    insert_filesystem_into(conn, "fs_src", fs)
}

/// Inserts a snapshot row into `table`.
pub fn insert_snapshot(conn: &mut Connection, table: &str, snap: &Snapshot) -> (res: Result<
    (),
    ZfsBackupError,
>)
    ensures
        applied(
            res is Ok,
            sql_history(*old(conn)),
            sql_history(*final(conn)),
            seq![(insert_snap_sql(table@), snap_row(*snap))],
        ),
        res matches Err(e) ==> is_db_error(e, "Failed to insert snapshot"@),
        res matches Err(e) ==> sql_failure(e, "Failed to insert snapshot"@),
{
    let a = concat("INSERT INTO ", table);
    let sql = concat(
        a.as_str(),
        " (parent_guid, guid, createtxg, creation, type, used, name, snapshot) VALUES (?, ?, ?, ?, ?, ?, ?, ?)",
    );
    let params = snap_params(snap);
    let ghost h = sql_history(*conn);
    let r = sql_execute(conn, sql.as_str(), &params);
    proof {
        lemma_applied_single(r is Ok, h, sql_history(*conn), (insert_snap_sql(table@), snap_row(*snap)));
    }
    match r {
        Ok(_) => Ok(()),
        Err(e) => Err(db_error("Failed to insert snapshot", &e)),
    }
}

/// Two text parameters.
pub(crate) fn two_params(a: &str, b: &str) -> (res: Vec<String>)
    ensures
        views(res@) == seq![a@, b@],
{
    let v = vec![String::from_str(a), String::from_str(b)];
    assert(views(v@) == seq![a@, b@]);
    v
}

/// The most recent snapshot of source filesystem `fs_name` of `pool` that
/// the destination also holds (same guid), as `@name`; `None` when there is
/// none.
pub fn get_common_snapshot(conn: &Connection, pool: &str, fs_name: &str) -> (res: Result<
    Option<String>,
    ZfsBackupError,
>)
    ensures
        res matches Ok(o) ==> answers_first(
            sql_history(*conn),
            Query::CommonSnapshot,
            seq![pool@, fs_name@],
            opt_view(o),
        ),
        res matches Err(e) ==> is_db_error(e, "Failed to query common snapshot"@),
        res matches Err(e) ==> sql_failure(e, "Failed to query common snapshot"@),
{
    let params = two_params(pool, fs_name);
    let sql = query_text(Query::CommonSnapshot);
    match sql_query_first_text(conn, Some(Query::CommonSnapshot), sql.as_str(), &params) {
        Ok(o) => Ok(o),
        Err(e) => Err(db_error("Failed to query common snapshot", &e)),
    }
}

/// The most recent snapshot of source filesystem `fs_name` of `pool`, as
/// `@name`; `None` when it has none.
pub fn get_remote_newest_snapshot(conn: &Connection, pool: &str, fs_name: &str) -> (res: Result<
    Option<String>,
    ZfsBackupError,
>)
    ensures
        res matches Ok(o) ==> answers_first(
            sql_history(*conn),
            Query::NewestSnapshot,
            seq![pool@, fs_name@],
            opt_view(o),
        ),
        res matches Err(e) ==> is_db_error(e, "Failed to query newest remote snapshot"@),
        res matches Err(e) ==> sql_failure(e, "Failed to query newest remote snapshot"@),
{
    let params = two_params(pool, fs_name);
    let sql = query_text(Query::NewestSnapshot);
    match sql_query_first_text(conn, Some(Query::NewestSnapshot), sql.as_str(), &params) {
        Ok(o) => Ok(o),
        Err(e) => Err(db_error("Failed to query newest remote snapshot", &e)),
    }
}

/// The query for column `field` of the most recent row of `table` named by
/// its parameter.
pub open spec fn property_sql(table: Seq<char>, field: Seq<char>) -> Seq<char> {
    "SELECT "@ + field + " FROM "@ + table + " WHERE name = ? ORDER BY creation DESC LIMIT 1"@
}

/// Whether `table` and `field` name one of the four tables and a column.
pub open spec fn property_known(table: Seq<char>, field: Seq<char>) -> bool {
    (exists|t: Table| table_name(t) == table) && (exists|c: Column| column_name(c) == field)
}

/// `SELECT ` followed by `rest` starts with `SELECT `.
proof fn lemma_select_prefix(rest: Seq<char>)
    ensures
        is_select("SELECT "@ + rest),
{
    reveal_strlit("SELECT ");
    assert(("SELECT "@ + rest).take(7) =~= "SELECT "@);
}

/// Column `field` of the most recent row of `table` whose name is
/// `fs_name`; `None` when there is no such row. The two names are written
/// into the query as given; when they name one of the four tables and one
/// of its columns, the answer is the one the stored rows give.
pub fn get_fs_property(conn: &Connection, table: &str, field: &str, fs_name: &str) -> (res: Result<
    Option<String>,
    ZfsBackupError,
>)
    ensures
        res matches Ok(o) ==> (property_known(table@, field@) ==> exists|t: Table, c: Column|
            #![trigger table_name(t), column_name(c)]
            table_name(t) == table@ && column_name(c) == field@ && answers_first(
                sql_history(*conn),
                Query::Property(t, c),
                seq![fs_name@],
                opt_view(o),
            )),
        res matches Err(e) ==> is_db_error(e, "Failed to query filesystem property"@),
        res matches Err(e) ==> sql_failure(e, "Failed to query filesystem property"@),
{
    let a = concat("SELECT ", field);
    let b = concat(a.as_str(), " FROM ");
    let d = concat(b.as_str(), table);
    let sql = concat(d.as_str(), " WHERE name = ? ORDER BY creation DESC LIMIT 1");
    proof {
        lemma_select_prefix(sql@.skip(7));
        reveal_strlit("SELECT ");
        assert(sql@ =~= "SELECT "@ + sql@.skip(7));
        assert(sql@ =~= property_sql(table@, field@));
    }
    let query = match (table_named(table), column_named(field)) {
        (Some(t), Some(c)) => Some(Query::Property(t, c)),
        _ => None,
    };
    let params = vec![String::from_str(fs_name)];
    assert(views(params@) == seq![fs_name@]);
    match sql_query_first_text(conn, query, sql.as_str(), &params) {
        Ok(o) => {
            proof {
                if property_known(table@, field@) {
                    assert(query is Some);
                }
            }
            Ok(o)
        },
        Err(e) => Err(db_error("Failed to query filesystem property", &e)),
    }
}

/// The query for the names of the filesystems of a pool in `table`, other
/// than the pool's root, by name.
pub open spec fn filesystems_sql(table: Seq<char>) -> Seq<char> {
    "SELECT name FROM "@ + table + " WHERE pool = ? AND name != ? ORDER BY name"@
}

/// The names of the filesystems of `pool` in `table`, other than the pool
/// itself, in name order. The table's name is written into the query as
/// given; when it names one of the four tables, the answer is the one the
/// stored rows give.
pub fn get_filesystems(conn: &Connection, table: &str, pool: &str) -> (res: Result<
    Vec<String>,
    ZfsBackupError,
>)
    ensures
        res matches Ok(v) ==> ((exists|t: Table| table_name(t) == table@) ==> exists|t: Table|
            #[trigger] table_name(t) == table@ && answers_column(
                sql_history(*conn),
                Query::Filesystems(t),
                seq![pool@, pool@],
                views(v@),
            )),
        res matches Err(e) ==> is_db_error(e, "Failed to query filesystems"@),
        res matches Err(e) ==> sql_failure(e, "Failed to query filesystems"@),
{
    let a = concat("SELECT name FROM ", table);
    let sql = concat(a.as_str(), " WHERE pool = ? AND name != ? ORDER BY name");
    proof {
        reveal_strlit("SELECT name FROM ");
        reveal_strlit("SELECT ");
        assert("SELECT name FROM "@.take(7) =~= "SELECT "@);
        assert(sql@.take(7) =~= "SELECT "@);
    }
    let query = match table_named(table) {
        Some(t) => Some(Query::Filesystems(t)),
        None => None,
    };
    let params = two_params(pool, pool);
    match sql_query_texts(conn, query, sql.as_str(), &params) {
        Ok(v) => {
            proof {
                if exists|t: Table| table_name(t) == table@ {
                    assert(query is Some);
                }
            }
            Ok(v)
        },
        Err(e) => Err(db_error("Failed to query filesystems", &e)),
    }
}

/// The four tables, in the order they are emptied.
pub open spec fn table_names() -> Seq<Seq<char>> {
    seq!["fs_src"@, "fs_dst"@, "snap_src"@, "snap_dst"@]
}

/// The statements that empty the four tables.
pub open spec fn clear_statements() -> Seq<SqlStatement> {
    table_names().map_values(|t: Seq<char>| ("DELETE FROM "@ + t, Seq::<Seq<char>>::empty()))
}

/// Empties the four tables, one after the other.
pub fn clear_tables(conn: &mut Connection) -> (res: Result<(), ZfsBackupError>)
    ensures
        applied(res is Ok, sql_history(*old(conn)), sql_history(*final(conn)), clear_statements()),
        res matches Err(e) ==> is_db_error(e, "Failed to clear table"@),
        res matches Err(e) ==> sql_failure(e, "Failed to clear table"@),
{
    let mut v: Vec<(String, Vec<String>)> = Vec::new();
    v.push(bare_statement(concat("DELETE FROM ", "fs_src").as_str()));
    v.push(bare_statement(concat("DELETE FROM ", "fs_dst").as_str()));
    v.push(bare_statement(concat("DELETE FROM ", "snap_src").as_str()));
    v.push(bare_statement(concat("DELETE FROM ", "snap_dst").as_str()));
    assert(statement_views(v@) =~= clear_statements());
    match execute_all(conn, &v) {
        Ok(()) => Ok(()),
        Err(e) => Err(db_error("Failed to clear table", &e)),
    }
}

} // verus!
