//! Recording what the `zfs` listings of both sides report into the state
//! database.

use vstd::prelude::*;
use rusqlite::Connection;
use crate::db::{
    applied, clear_statements, clear_tables, db_error, sql_failure, execute_all, fs_params, get_fs_property, property_known,
    insert_fs_sql, insert_snap_sql, is_db_error, snap_params, sql_history, statement_views,
    Filesystem, Snapshot, SqlStatement,
};
use crate::tables::{
    answers_column, answers_first, below_pool, cell, column_name, db_tables, deletes_of_all,
    insert_columns, inserts_of, lemma_fs_row_cells, row_name, row_of, text_lt,
    law_deletes_empty_every_table, law_inserts_append_rows, stored_rows, table_name, Column, Query,
    Row, Table,
};
use crate::db::table_names;
use crate::error::ZfsBackupError;
use crate::text::{concat, lines_of};
use crate::zfs::{
    fs_line_row, law_listing_rows_carry_the_pool, snap_line_row, fs_rows, kept_lines, lemma_snap_rows_len, max_snapshot_lines, parse_filesystems,
    parse_snapshots, rows_of_filesystems, rows_of_snapshots, snap_rows,
};

verus! {

/// The statements that insert filesystem rows into `table`.
pub open spec fn fs_inserts(table: Seq<char>, rows: Seq<Seq<Seq<char>>>) -> Seq<SqlStatement> {
    rows.map_values(|r: Seq<Seq<char>>| (insert_fs_sql(table), r))
}

/// The statements that insert snapshot rows into `table`.
pub open spec fn snap_inserts(table: Seq<char>, rows: Seq<Seq<Seq<char>>>) -> Seq<SqlStatement> {
    rows.map_values(|r: Seq<Seq<char>>| (insert_snap_sql(table), r))
}

/// `fs_SUFFIX`, the filesystem table of one side.
pub open spec fn fs_table_name(suffix: Seq<char>) -> Seq<char> {
    "fs_"@ + suffix
}

/// `snap_SUFFIX`, the snapshot table of one side.
pub open spec fn snap_table_name(suffix: Seq<char>) -> Seq<char> {
    "snap_"@ + suffix
}

/// Computes `fs_table_name`.
pub fn fs_table(suffix: &str) -> (res: String)
    ensures
        res@ == fs_table_name(suffix@),
{
    concat("fs_", suffix)
}

/// Computes `snap_table_name`.
pub fn snap_table(suffix: &str) -> (res: String)
    ensures
        res@ == snap_table_name(suffix@),
{
    concat("snap_", suffix)
}

/// Two runs of statements, one after the other.
proof fn lemma_applied_then(
    ok1: bool,
    ok2: bool,
    h0: Seq<SqlStatement>,
    h1: Seq<SqlStatement>,
    h2: Seq<SqlStatement>,
    s1: Seq<SqlStatement>,
    s2: Seq<SqlStatement>,
)
    requires
        applied(ok1, h0, h1, s1),
        ok1 ==> applied(ok2, h1, h2, s2),
        !ok1 ==> h2 == h1 && !ok2,
    ensures
        applied(ok2, h0, h2, s1 + s2),
{
    if ok1 {
        if ok2 {
            assert(h2 == h0 + (s1 + s2));
        } else {
            let k = choose|k: int| 0 <= k <= s2.len() && h2 == h1 + s2.take(k);
            assert((s1 + s2).take(s1.len() + k) == s1 + s2.take(k));
            assert(h2 == h0 + (s1 + s2).take(s1.len() + k));
        }
    } else {
        let k = choose|k: int| 0 <= k <= s1.len() && h1 == h0 + s1.take(k);
        assert((s1 + s2).take(k) == s1.take(k));
        assert(h2 == h0 + (s1 + s2).take(k));
    }
}

/// Inserts filesystem rows into `table`, in order, stopping at the first
/// failure.
fn insert_filesystems(conn: &mut Connection, table: &str, fss: &Vec<Filesystem>) -> (res: Result<
    (),
    ZfsBackupError,
>)
    ensures
        applied(
            res is Ok,
            sql_history(*old(conn)),
            sql_history(*final(conn)),
            fs_inserts(table@, rows_of_filesystems(fss@)),
        ),
        res matches Err(e) ==> is_db_error(e, "Failed to insert filesystem"@),
        res matches Err(e) ==> sql_failure(e, "Failed to insert filesystem"@),
{
    let a = concat("INSERT INTO ", table);
    let sql = concat(a.as_str(), " (pool, guid, createtxg, creation, type, used, name) VALUES (?, ?, ?, ?, ?, ?, ?)");
    assert(sql@ == insert_fs_sql(table@));
    let ghost rows = rows_of_filesystems(fss@);
    let mut stmts: Vec<(String, Vec<String>)> = Vec::new();
    let mut i: usize = 0;
    while i < fss.len()
        invariant
            sql@ == insert_fs_sql(table@),
            rows == rows_of_filesystems(fss@),
            i <= fss@.len(),
            statement_views(stmts@) == fs_inserts(table@, rows.take(i as int)),
        decreases fss@.len() - i,
    {
        let ghost before = stmts@;
        stmts.push((sql.clone(), fs_params(&fss[i])));
        assert(rows.take(i + 1) == rows.take(i as int).push(rows[i as int]));
        assert(statement_views(stmts@) =~= statement_views(before).push((sql@, rows[i as int])));
        assert(fs_inserts(table@, rows.take(i + 1)) =~= fs_inserts(table@, rows.take(i as int)).push(
            (insert_fs_sql(table@), rows[i as int]),
        ));
        i = i + 1;
    }
    assert(rows.take(fss@.len() as int) == rows);
    match execute_all(conn, &stmts) {
        Ok(()) => Ok(()),
        Err(e) => Err(db_error("Failed to insert filesystem", &e)),
    }
}

/// Records the source side's filesystems: empties every table, then inserts
/// into `fs_src` the row of each line of `output` (the source's filesystem
/// listing) that has at least six fields.
pub fn record_remote_filesystems(conn: &mut Connection, pool: &str, output: &str) -> (res: Result<
    (),
    ZfsBackupError,
>)
    ensures
        applied(
            res is Ok,
            sql_history(*old(conn)),
            sql_history(*final(conn)),
            clear_statements() + fs_inserts("fs_src"@, fs_rows(pool@, lines_of(output@))),
        ),
        res matches Err(e) ==> is_db_error(e, "Failed to clear table"@) || is_db_error(
            e,
            "Failed to insert filesystem"@,
        ),
        res matches Err(e) ==> sql_failure(e, "Failed to clear table"@) || sql_failure(
            e,
            "Failed to insert filesystem"@,
        ),
{
    let ghost h0 = sql_history(*conn);
    let fss = parse_filesystems(pool, output);
    let r1 = clear_tables(conn);
    let ghost h1 = sql_history(*conn);
    match r1 {
        Ok(()) => {},
        Err(e) => {
            proof {
                lemma_applied_then(
                    false,
                    false,
                    h0,
                    h1,
                    h1,
                    clear_statements(),
                    fs_inserts("fs_src"@, fs_rows(pool@, lines_of(output@))),
                );
            }
            return Err(e);
        },
    }
    let r2 = insert_filesystems(conn, "fs_src", &fss);
    proof {
        lemma_applied_then(
            true,
            r2 is Ok,
            h0,
            h1,
            sql_history(*conn),
            clear_statements(),
            fs_inserts("fs_src"@, fs_rows(pool@, lines_of(output@))),
        );
    }
    r2
}

/// Records the destination side's filesystems: inserts into `fs_dst` the
/// row of each line of `output` (the destination's filesystem listing)
/// that has at least six fields.
pub fn record_local_filesystems(conn: &mut Connection, pool: &str, output: &str) -> (res: Result<
    (),
    ZfsBackupError,
>)
    ensures
        applied(
            res is Ok,
            sql_history(*old(conn)),
            sql_history(*final(conn)),
            fs_inserts("fs_dst"@, fs_rows(pool@, lines_of(output@))),
        ),
        res matches Err(e) ==> is_db_error(e, "Failed to insert filesystem"@),
        res matches Err(e) ==> sql_failure(e, "Failed to insert filesystem"@),
{
    let fss = parse_filesystems(pool, output);
    insert_filesystems(conn, "fs_dst", &fss)
}

/// Inserts snapshot rows into `table`, in order, stopping at the first
/// failure.
fn insert_snapshots(conn: &mut Connection, table: &str, snaps: &Vec<Snapshot>) -> (res: Result<
    (),
    ZfsBackupError,
>)
    ensures
        applied(
            res is Ok,
            sql_history(*old(conn)),
            sql_history(*final(conn)),
            snap_inserts(table@, rows_of_snapshots(snaps@)),
        ),
        res matches Err(e) ==> is_db_error(e, "Failed to insert snapshot"@),
        res matches Err(e) ==> sql_failure(e, "Failed to insert snapshot"@),
{
    let a = concat("INSERT INTO ", table);
    let sql = concat(
        a.as_str(),
        " (parent_guid, guid, createtxg, creation, type, used, name, snapshot) VALUES (?, ?, ?, ?, ?, ?, ?, ?)",
    );
    assert(sql@ == insert_snap_sql(table@));
    let ghost rows = rows_of_snapshots(snaps@);
    let mut stmts: Vec<(String, Vec<String>)> = Vec::new();
    let mut i: usize = 0;
    while i < snaps.len()
        invariant
            sql@ == insert_snap_sql(table@),
            rows == rows_of_snapshots(snaps@),
            i <= snaps@.len(),
            statement_views(stmts@) == snap_inserts(table@, rows.take(i as int)),
        decreases snaps@.len() - i,
    {
        let ghost before = stmts@;
        stmts.push((sql.clone(), snap_params(&snaps[i])));
        assert(rows.take(i + 1) == rows.take(i as int).push(rows[i as int]));
        assert(statement_views(stmts@) =~= statement_views(before).push((sql@, rows[i as int])));
        assert(snap_inserts(table@, rows.take(i + 1)) =~= snap_inserts(table@, rows.take(i as int)).push(
            (insert_snap_sql(table@), rows[i as int]),
        ));
        i = i + 1;
    }
    assert(rows.take(snaps@.len() as int) == rows);
    match execute_all(conn, &stmts) {
        Ok(()) => Ok(()),
        Err(e) => Err(db_error("Failed to insert snapshot", &e)),
    }
}

/// Whether `o` is what the database built by `h` may answer for the guid
/// of the newest row named `fs_name` in table `fs_table`; anything, when
/// `fs_table` is not one of the four tables.
pub open spec fn guid_answer(h: Seq<SqlStatement>, fs_table: Seq<char>, fs_name: Seq<char>, o: Option<Seq<char>>) -> bool {
    property_known(fs_table, "guid"@) ==> exists|t: Table, c: Column|
        #![trigger table_name(t), column_name(c)]
        table_name(t) == fs_table && column_name(c) == "guid"@ && answers_first(
            h,
            Query::Property(t, c),
            seq![fs_name],
            o,
        )
}

/// Whether the database built by `h`, as this model reads it, has a row
/// named `name` in `table`, one of the four tables.
pub open spec fn has_named_row(h: Seq<SqlStatement>, table: Seq<char>, name: Seq<char>) -> bool {
    &&& exists|tb: Table| table_name(tb) == table
    &&& db_tables(h) matches Some(t) && exists|i: int|
        0 <= i < t[table].len() && cell(#[trigger] t[table][i], "name"@) == name
}

/// Whether `e` is the error for a filesystem whose guid is not found.
pub open spec fn is_not_found(e: ZfsBackupError) -> bool {
    e matches ZfsBackupError::DatabaseError(m) && m@ == "Failed to find filesystem"@
}

/// A failed lookup or insert is not reported as a filesystem not found.
proof fn lemma_other_errors_are_not_not_found(e: ZfsBackupError)
    requires
        is_db_error(e, "Failed to query filesystem property"@) || is_db_error(
            e,
            "Failed to insert snapshot"@,
        ),
    ensures
        !is_not_found(e),
{
    reveal_strlit("Failed to find filesystem");
    reveal_strlit("Failed to query filesystem property");
    reveal_strlit("Failed to insert snapshot");
    if is_not_found(e) {
        let m = e->DatabaseError_0@;
        if is_db_error(e, "Failed to query filesystem property"@) {
            let cause = choose|cause: Seq<char>| m == "Failed to query filesystem property"@ + ": "@ + cause;
            assert(m[10] == "Failed to query filesystem property"@[10]);
            assert(m[10] == "Failed to find filesystem"@[10]);
        } else {
            let cause = choose|cause: Seq<char>| m == "Failed to insert snapshot"@ + ": "@ + cause;
            assert(m[10] == "Failed to insert snapshot"@[10]);
            assert(m[10] == "Failed to find filesystem"@[10]);
        }
    }
}

/// What recording the snapshot listing `output` of filesystem `fs_name` on
/// side `table_suffix` may do, from history `h` to history `h2` with result
/// `res`: nothing, with a failure of the guid lookup or the filesystem not
/// found; or, for a guid the database answers, the inserts of the kept
/// listing lines, all of them when `res` is Ok, else some first ones with a
/// failure of SQLite.
pub open spec fn snapshots_outcome(
    h: Seq<SqlStatement>,
    h2: Seq<SqlStatement>,
    table_suffix: Seq<char>,
    fs_name: Seq<char>,
    output: Seq<char>,
    res: Result<(), ZfsBackupError>,
) -> bool {
    let fs_tab = fs_table_name(table_suffix);
    &&& {
        ||| h2 == h && (res matches Err(e) && (sql_failure(e, "Failed to query filesystem property"@)
            || is_not_found(e)))
        ||| exists|g: Seq<char>|
            #[trigger] guid_answer(h, fs_tab, fs_name, Some(g)) && applied(
                res is Ok,
                h,
                h2,
                snap_inserts(snap_table_name(table_suffix), snap_rows(g, kept_lines(output))),
            )
    }
    &&& res matches Err(e) ==> sql_failure(e, "Failed to query filesystem property"@) || is_not_found(
        e,
    ) || sql_failure(e, "Failed to insert snapshot"@)
    &&& has_named_row(h, fs_tab, fs_name) ==> !(res matches Err(e) && is_not_found(e))
}

/// Recording the snapshots of a filesystem the database knows: it either
/// succeeds, extending the history by exactly one insert per kept listing
/// line (each under the filesystem's guid), or fails because SQLite itself
/// failed, never with an error of the library's own.
pub proof fn law_known_filesystem_snapshots_are_recorded(
    h: Seq<SqlStatement>,
    h2: Seq<SqlStatement>,
    table_suffix: Seq<char>,
    fs_name: Seq<char>,
    output: Seq<char>,
    res: Result<(), ZfsBackupError>,
)
    requires
        has_named_row(h, fs_table_name(table_suffix), fs_name),
        snapshots_outcome(h, h2, table_suffix, fs_name, output, res),
    ensures
        res is Ok ==> exists|g: Seq<char>|
            #[trigger] guid_answer(h, fs_table_name(table_suffix), fs_name, Some(g)) && h2 == h
                + snap_inserts(snap_table_name(table_suffix), snap_rows(g, kept_lines(output))),
        res matches Err(e) ==> sql_failure(e, "Failed to query filesystem property"@) || sql_failure(
            e,
            "Failed to insert snapshot"@,
        ),
{
}

/// Records the snapshots of filesystem `fs_name` on side `table_suffix`
/// (`src` or `dst`): looks up the filesystem's guid in `fs_SUFFIX`, then
/// inserts into `snap_SUFFIX` the row of each of the first 1000 lines of
/// `output` (its snapshot listing) that has at least six fields.
pub fn record_snapshots(conn: &mut Connection, table_suffix: &str, fs_name: &str, output: &str) -> (res:
    Result<(), ZfsBackupError>)
    ensures
        ({
            let h = sql_history(*old(conn));
            let fs_tab = fs_table_name(table_suffix@);
            ||| sql_history(*final(conn)) == h && (res matches Err(e) && (sql_failure(
                e,
                "Failed to query filesystem property"@,
            ) || is_not_found(e)))
            ||| exists|g: Seq<char>|
                #[trigger] guid_answer(h, fs_tab, fs_name@, Some(g)) && applied(
                    res is Ok,
                    h,
                    sql_history(*final(conn)),
                    snap_inserts(snap_table_name(table_suffix@), snap_rows(g, kept_lines(output@))),
                )
        }),
        res matches Err(e) && is_not_found(e) ==> guid_answer(
            sql_history(*old(conn)),
            fs_table_name(table_suffix@),
            fs_name@,
            None,
        ),
        has_named_row(sql_history(*old(conn)), fs_table_name(table_suffix@), fs_name@) ==> !(
        res matches Err(e) && is_not_found(e)),
        res matches Err(e) ==> is_db_error(e, "Failed to query filesystem property"@) || is_not_found(e)
            || is_db_error(e, "Failed to insert snapshot"@),
        res matches Err(e) ==> sql_failure(e, "Failed to query filesystem property"@) || is_not_found(e)
            || sql_failure(e, "Failed to insert snapshot"@),        snapshots_outcome(
            sql_history(*old(conn)),
            sql_history(*final(conn)),
            table_suffix@,
            fs_name@,
            output@,
            res,
        ),
{
    let fs_tab = fs_table(table_suffix);
    let snap_tab = snap_table(table_suffix);
    let ghost h = sql_history(*conn);
    let parent_guid = match get_fs_property(conn, fs_tab.as_str(), "guid", fs_name) {
        Ok(Some(g)) => g,
        Ok(None) => {
            let e = ZfsBackupError::DatabaseError(String::from_str("Failed to find filesystem"));
            assert(guid_answer(h, fs_tab@, fs_name@, None));
            proof {
                if has_named_row(h, fs_tab@, fs_name@) {
                    assert(column_name(Column::Guid) == "guid"@);
                    assert(property_known(fs_tab@, "guid"@));
                    let tt = db_tables(h)->0;
                    let i = choose|i: int|
                        0 <= i < tt[fs_tab@].len() && cell(#[trigger] tt[fs_tab@][i], "name"@)
                            == fs_name@;
                    let (t, c) = choose|t: Table, c: Column|
                        #![trigger table_name(t), column_name(c)]
                        table_name(t) == fs_tab@ && column_name(c) == "guid"@ && answers_first(
                            h,
                            Query::Property(t, c),
                            seq![fs_name@],
                            None,
                        );
                    assert(seq![fs_name@][0] == fs_name@);
                    assert(tt[table_name(t)][i] == tt[fs_tab@][i]);
                }
            }
            return Err(e);
        },
        Err(e) => {
            proof {
                lemma_other_errors_are_not_not_found(e);
            }
            return Err(e);
        },
    };
    assert(guid_answer(h, fs_tab@, fs_name@, Some(parent_guid@)));
    let snaps = parse_snapshots(parent_guid.as_str(), output);
    let r = insert_snapshots(conn, snap_tab.as_str(), &snaps);
    assert(rows_of_snapshots(snaps@) == snap_rows(parent_guid@, kept_lines(output@)));
    proof {
        if r is Err {
            lemma_other_errors_are_not_not_found(r->Err_0);
        }
    }
    r
}


/// At most 1000 snapshots of one filesystem are recorded in one discovery.
pub proof fn law_at_most_1000_snapshots_recorded(
    table_suffix: Seq<char>,
    parent_guid: Seq<char>,
    output: Seq<char>,
)
    ensures
        snap_inserts(snap_table_name(table_suffix), snap_rows(parent_guid, kept_lines(output))).len()
            <= max_snapshot_lines(),
{
    lemma_snap_rows_len(parent_guid, kept_lines(output));
}

/// Every snapshot row has the eight values of a snapshot table's columns.
proof fn lemma_snap_rows_width(parent_guid: Seq<char>, lines: Seq<Seq<char>>)
    ensures
        forall|j: int|
            0 <= j < snap_rows(parent_guid, lines).len() ==> (#[trigger] snap_rows(parent_guid, lines)[j]).len()
                == insert_columns()[1].len(),
    decreases lines.len(),
{
    if lines.len() > 0 {
        lemma_snap_rows_width(parent_guid, lines.drop_last());
        let r = snap_rows(parent_guid, lines.drop_last());
        let all = snap_rows(parent_guid, lines);
        assert forall|j: int| 0 <= j < all.len() implies (#[trigger] all[j]).len() == insert_columns()[1].len() by {
            if j < r.len() {
                assert(all[j] == r[j]);
            } else {
                assert(all[j] == snap_line_row(parent_guid, lines.last())->0);
            }
        }
    }
}

/// Every filesystem row has the seven values of a filesystem table's
/// columns.
proof fn lemma_fs_rows_width(pool: Seq<char>, lines: Seq<Seq<char>>)
    ensures
        forall|j: int|
            0 <= j < fs_rows(pool, lines).len() ==> (#[trigger] fs_rows(pool, lines)[j]).len()
                == insert_columns()[0].len(),
    decreases lines.len(),
{
    if lines.len() > 0 {
        lemma_fs_rows_width(pool, lines.drop_last());
        let r = fs_rows(pool, lines.drop_last());
        let all = fs_rows(pool, lines);
        assert forall|j: int| 0 <= j < all.len() implies (#[trigger] all[j]).len() == insert_columns()[0].len() by {
            if j < r.len() {
                assert(all[j] == r[j]);
            } else {
                assert(all[j] == fs_line_row(pool, lines.last())->0);
            }
        }
    }
}

/// Reading recorded snapshots: after the inserts that `record_snapshots`
/// makes for one of the four tables, that table holds its rows as before
/// followed by one row per kept listing line, in order; nothing else
/// changes.
pub proof fn law_recorded_snapshots_are_stored(
    h: Seq<SqlStatement>,
    i: int,
    table_suffix: Seq<char>,
    parent_guid: Seq<char>,
    output: Seq<char>,
)
    requires
        0 <= i < 4,
        snap_table_name(table_suffix) == table_names()[i],
        db_tables(h) matches Some(t) && t.dom().contains(table_names()[i]),
    ensures
        ({
            let t = db_tables(h)->0;
            let rows = snap_rows(parent_guid, kept_lines(output));
            db_tables(h + snap_inserts(snap_table_name(table_suffix), rows)) == Some(
                t.insert(table_names()[i], t[table_names()[i]] + stored_rows(1, rows)),
            )
        }),
{
    let rows = snap_rows(parent_guid, kept_lines(output));
    lemma_snap_rows_width(parent_guid, kept_lines(output));
    assert(snap_inserts(snap_table_name(table_suffix), rows) =~= inserts_of(i, 1, rows));
    law_inserts_append_rows(h, i, 1, rows);
}

/// Reading recorded source filesystems: after `record_remote_filesystems`
/// has applied all its statements to a database holding the four tables,
/// the tables hold exactly the filesystems of the listing: `fs_src` one
/// row per line with six fields, in order, the three others no row.
pub proof fn law_recorded_remote_filesystems_replace_the_tables(
    h: Seq<SqlStatement>,
    pool: Seq<char>,
    output: Seq<char>,
)
    requires
        db_tables(h) matches Some(t) && forall|i: int| 0 <= i < 4 ==> t.dom().contains(#[trigger] table_names()[i]),
    ensures
        ({
            let t = db_tables(h)->0;
            let rows = fs_rows(pool, lines_of(output));
            let e = Seq::<Row>::empty();
            db_tables(h + (clear_statements() + fs_inserts("fs_src"@, rows))) == Some(
                t.insert("fs_src"@, stored_rows(0, rows)).insert("fs_dst"@, e).insert("snap_src"@, e).insert("snap_dst"@, e),
            )
        }),
{
    let t = db_tables(h)->0;
    let rows = fs_rows(pool, lines_of(output));
    let e = Seq::<Row>::empty();
    assert(clear_statements() =~= deletes_of_all());
    law_deletes_empty_every_table(h);
    let h1 = h + deletes_of_all();
    let t1 = t.insert(table_names()[0], e).insert(table_names()[1], e).insert(table_names()[2], e).insert(
        table_names()[3],
        e,
    );
    assert(t1.dom().contains(table_names()[0])) by {
        assert(t.insert(table_names()[0], e).dom().contains(table_names()[0]));
    }
    lemma_fs_rows_width(pool, lines_of(output));
    assert(fs_inserts("fs_src"@, rows) =~= inserts_of(0, 0, rows));
    law_inserts_append_rows(h1, 0, 0, rows);
    assert(h + (clear_statements() + fs_inserts("fs_src"@, rows)) =~= h1 + inserts_of(0, 0, rows));
    reveal_strlit("fs_src");
    reveal_strlit("fs_dst");
    reveal_strlit("snap_src");
    reveal_strlit("snap_dst");
    assert(table_names()[0][3] != table_names()[1][3]);
    assert(table_names()[0].len() != table_names()[2].len());
    assert(table_names()[0].len() != table_names()[3].len());
    assert(t1[table_names()[0]] == e);
    assert(t1[table_names()[0]] + stored_rows(0, rows) =~= stored_rows(0, rows));
    assert(t1.insert(table_names()[0], t1[table_names()[0]] + stored_rows(0, rows)) =~= t.insert(
        "fs_src"@,
        stored_rows(0, rows),
    ).insert("fs_dst"@, e).insert("snap_src"@, e).insert("snap_dst"@, e));
}

/// Whether a filesystem row's name (its last value) is not `root`.
pub open spec fn named_other_than(root: Seq<char>) -> spec_fn(Seq<Seq<char>>) -> bool {
    |r: Seq<Seq<char>>| r[6] != root
}

/// The name (last value) of a filesystem row.
pub open spec fn listed_name() -> spec_fn(Seq<Seq<char>>) -> Seq<char> {
    |r: Seq<Seq<char>>| r[6]
}

/// The stored rows of pool `pool` below its root are the rows not named
/// `pool`, with their names.
proof fn lemma_stored_rows_below_pool(pool: Seq<char>, rows: Seq<Seq<Seq<char>>>)
    requires
        forall|j: int| 0 <= j < rows.len() ==> (#[trigger] rows[j]).len() == 7 && rows[j][0] == pool,
    ensures
        stored_rows(0, rows).filter(below_pool(pool, pool)).map_values(row_name()) == rows.filter(
            named_other_than(pool),
        ).map_values(listed_name()),
    decreases rows.len(),
{
    reveal(Seq::filter);
    if rows.len() == 0 {
        assert(stored_rows(0, rows) =~= Seq::<Row>::empty());
        assert(stored_rows(0, rows).filter(below_pool(pool, pool)) =~= Seq::<Row>::empty());
        assert(rows.filter(named_other_than(pool)) =~= Seq::<Seq<Seq<char>>>::empty());
        assert(stored_rows(0, rows).filter(below_pool(pool, pool)).map_values(row_name()) =~= Seq::<
            Seq<char>,
        >::empty());
        assert(rows.filter(named_other_than(pool)).map_values(listed_name()) =~= Seq::<Seq<char>>::empty());
    } else {
        let front = rows.drop_last();
        let r = rows.last();
        assert(r == rows[rows.len() - 1]);
        lemma_stored_rows_below_pool(pool, front);
        lemma_fs_row_cells(r);
        let x = row_of(insert_columns()[0], r);
        assert(stored_rows(0, rows) =~= stored_rows(0, front).push(x));
        assert(stored_rows(0, rows).drop_last() =~= stored_rows(0, front));
        let a = stored_rows(0, front).filter(below_pool(pool, pool));
        let b = front.filter(named_other_than(pool));
        assert((below_pool(pool, pool))(x) == (named_other_than(pool))(r));
        if (named_other_than(pool))(r) {
            assert(stored_rows(0, rows).filter(below_pool(pool, pool)) == a.push(x));
            assert(rows.filter(named_other_than(pool)) == b.push(r));
            assert(a.push(x).map_values(row_name()) =~= a.map_values(row_name()).push(r[6]));
            assert(b.push(r).map_values(listed_name()) =~= b.map_values(listed_name()).push(r[6]));
        } else {
            assert(stored_rows(0, rows).filter(below_pool(pool, pool)) == a);
            assert(rows.filter(named_other_than(pool)) == b);
        }
    }
}

/// Reading the recorded destination listing: after `record_local_filesystems`
/// has recorded the listing of pool `pool` into an empty `fs_dst`, the
/// listing query for `pool` answers every recorded name other than `pool`
/// itself, each as often as the listing gives it, in text order.
pub proof fn law_recorded_local_filesystems_are_listed(
    h: Seq<SqlStatement>,
    pool: Seq<char>,
    output: Seq<char>,
    v: Seq<Seq<char>>,
)
    requires
        db_tables(h) matches Some(t) && t.dom().contains("fs_dst"@) && t["fs_dst"@].len() == 0,
        answers_column(
            h + fs_inserts("fs_dst"@, fs_rows(pool, lines_of(output))),
            Query::Filesystems(Table::FsDst),
            seq![pool, pool],
            v,
        ),
    ensures
        v.to_multiset() == fs_rows(pool, lines_of(output)).filter(named_other_than(pool)).map_values(
            listed_name(),
        ).to_multiset(),
        forall|i: int, j: int| 0 <= i < j < v.len() ==> !text_lt(#[trigger] v[j], #[trigger] v[i]),
{
    let t = db_tables(h)->0;
    let rows = fs_rows(pool, lines_of(output));
    reveal_strlit("fs_dst");
    assert(table_names()[1] == "fs_dst"@);
    lemma_fs_rows_width(pool, lines_of(output));
    law_listing_rows_carry_the_pool(pool, lines_of(output));
    assert(fs_inserts("fs_dst"@, rows) =~= inserts_of(1, 0, rows));
    law_inserts_append_rows(h, 1, 0, rows);
    let t2 = t.insert("fs_dst"@, t["fs_dst"@] + stored_rows(0, rows));
    assert(t["fs_dst"@] + stored_rows(0, rows) =~= stored_rows(0, rows));
    assert(t2["fs_dst"@] == stored_rows(0, rows));
    assert(seq![pool, pool][0] == pool && seq![pool, pool][1] == pool);
    assert(table_name(Table::FsDst) == "fs_dst"@);
    lemma_stored_rows_below_pool(pool, rows);
}

} // verus!
