//! What the state database holds, as a function of the statements applied
//! to it, and what each of the library's queries answers on those rows.
//!
//! A database is read as a map from table name to its rows in insertion
//! order; a row maps each column to its text. Every column of the library's
//! tables is `TEXT NOT NULL` and every bound value is text, so the rows are
//! exactly the texts that the inserts bound. Text is compared as SQLite's
//! default `BINARY` collation does: byte by byte over UTF-8, which is the
//! order of code points.

use vstd::prelude::*;
use crate::db::{
    common_snapshot_query, filesystems_sql, newest_snapshot_query, property_sql, select_query,
    table_names, SqlStatement, COMMON_SNAPSHOT_SELECT, CREATE_FS_DST, CREATE_FS_SRC,
    CREATE_SNAP_DST, CREATE_SNAP_SRC, NEWEST_SNAPSHOT_SELECT,
};
use crate::catalog::{
    common_by_guid_query, filesystems_query, guid_query, newest_by_guid_query,
    CATALOG_CREATE_FS_SRC, CATALOG_CREATE_SNAP_DST, CATALOG_CREATE_SNAP_SRC, COMMON_BY_GUID_SELECT,
    FILESYSTEMS_SELECT, GUID_SELECT, NEWEST_BY_GUID_SELECT,
};
use crate::text::{chars_of, concat};

verus! {

/// One row: the text of each column.
pub type Row = Map<Seq<char>, Seq<char>>;

/// The tables of a database: each table's rows, in the order inserted.
pub type Tables = Map<Seq<char>, Seq<Row>>;

/// The text of column `c` of row `r`.
pub open spec fn cell(r: Row, c: Seq<char>) -> Seq<char> {
    r[c]
}

/// The row whose column `columns[i]` holds `values[i]`.
pub open spec fn row_of(columns: Seq<Seq<char>>, values: Seq<Seq<char>>) -> Row
    decreases columns.len(),
{
    if columns.len() == 0 || values.len() == 0 {
        Map::empty()
    } else {
        row_of(columns.drop_last(), values.drop_last()).insert(columns.last(), values.last())
    }
}

/// The columns of a filesystem table of a backup run.
pub open spec fn fs_columns() -> Seq<Seq<char>> {
    seq!["pool"@, "guid"@, "createtxg"@, "creation"@, "type"@, "used"@, "name"@]
}

/// The columns of a snapshot table of a backup run.
pub open spec fn snap_columns() -> Seq<Seq<char>> {
    seq!["parent_guid"@, "guid"@, "createtxg"@, "creation"@, "type"@, "used"@, "name"@, "snapshot"@]
}

/// The columns of the catalog's filesystem table.
pub open spec fn catalog_fs_columns() -> Seq<Seq<char>> {
    seq!["pool"@, "guid"@, "name"@]
}

/// The columns of the catalog's snapshot tables.
pub open spec fn catalog_snap_columns() -> Seq<Seq<char>> {
    seq!["parent_guid"@, "guid"@, "creation"@, "snapshot"@]
}

/// What follows the table name in an insert of a filesystem row.
pub open spec fn fs_insert_tail() -> Seq<char> {
    " (pool, guid, createtxg, creation, type, used, name) VALUES (?, ?, ?, ?, ?, ?, ?)"@
}

/// What follows the table name in an insert of a snapshot row.
pub open spec fn snap_insert_tail() -> Seq<char> {
    " (parent_guid, guid, createtxg, creation, type, used, name, snapshot) VALUES (?, ?, ?, ?, ?, ?, ?, ?)"@
}

/// What follows the table name in the catalog's insert of a filesystem.
pub open spec fn catalog_fs_insert_tail() -> Seq<char> {
    " (pool, guid, name) VALUES (?, ?, ?)"@
}

/// What follows the table name in the catalog's insert of a snapshot.
pub open spec fn catalog_snap_insert_tail() -> Seq<char> {
    " (parent_guid, guid, creation, snapshot) VALUES (?, ?, ?, ?)"@
}

/// The four kinds of insert the library writes: what follows the table
/// name, and the columns that the bound values fill, in order.
pub open spec fn insert_tails() -> Seq<Seq<char>> {
    seq![fs_insert_tail(), snap_insert_tail(), catalog_fs_insert_tail(), catalog_snap_insert_tail()]
}

/// The columns filled by each kind of insert.
pub open spec fn insert_columns() -> Seq<Seq<Seq<char>>> {
    seq![fs_columns(), snap_columns(), catalog_fs_columns(), catalog_snap_columns()]
}

/// The insert of kind `k` into the `i`-th table.
pub open spec fn insert_sql_of(i: int, k: int) -> Seq<char> {
    "INSERT INTO "@ + table_names()[i] + insert_tails()[k]
}

/// Whether `sql` is the insert of kind `k` into the `i`-th table.
pub open spec fn is_insert(sql: Seq<char>, i: int, k: int) -> bool {
    0 <= i < 4 && 0 <= k < 4 && sql == insert_sql_of(i, k)
}

/// The table and the columns of an insert the library writes.
pub open spec fn insert_target(sql: Seq<char>) -> Option<(Seq<char>, Seq<Seq<char>>)> {
    if exists|i: int, k: int| is_insert(sql, i, k) {
        let (i, k) = choose|i: int, k: int| is_insert(sql, i, k);
        Some((table_names()[i], insert_columns()[k]))
    } else {
        None
    }
}

/// The statement that empties the `i`-th table.
pub open spec fn delete_sql_of(i: int) -> Seq<char> {
    "DELETE FROM "@ + table_names()[i]
}

/// The table that `sql` empties, if it is one of the library's deletes.
pub open spec fn delete_target(sql: Seq<char>) -> Option<Seq<char>> {
    if exists|i: int| 0 <= i < 4 && sql == delete_sql_of(i) {
        let i = choose|i: int| 0 <= i < 4 && sql == delete_sql_of(i);
        Some(table_names()[i])
    } else {
        None
    }
}

/// The table that `sql` creates, if it is one of the library's creates.
pub open spec fn create_target(sql: Seq<char>) -> Option<Seq<char>> {
    if sql == CREATE_FS_SRC@ || sql == CATALOG_CREATE_FS_SRC@ {
        Some("fs_src"@)
    } else if sql == CREATE_FS_DST@ {
        Some("fs_dst"@)
    } else if sql == CREATE_SNAP_SRC@ || sql == CATALOG_CREATE_SNAP_SRC@ {
        Some("snap_src"@)
    } else if sql == CREATE_SNAP_DST@ || sql == CATALOG_CREATE_SNAP_DST@ {
        Some("snap_dst"@)
    } else {
        None
    }
}

/// The tables after statement `s`, when it is one that this model reads:
/// an insert, a delete or a create of the library. `None` for any other
/// statement, and for one that could not have succeeded on `t`.
pub open spec fn apply_statement(t: Tables, s: SqlStatement) -> Option<Tables> {
    let (sql, params) = s;
    match insert_target(sql) {
        Some((name, columns)) => if t.dom().contains(name) && params.len() == columns.len() {
            Some(t.insert(name, t[name].push(row_of(columns, params))))
        } else {
            None
        },
        None => match delete_target(sql) {
            Some(name) => if t.dom().contains(name) && params.len() == 0 {
                Some(t.insert(name, Seq::<Row>::empty()))
            } else {
                None
            },
            None => match create_target(sql) {
                Some(name) => if params.len() == 0 {
                    if t.dom().contains(name) {
                        Some(t)
                    } else {
                        Some(t.insert(name, Seq::<Row>::empty()))
                    }
                } else {
                    None
                },
                None => None,
            },
        },
    }
}

/// The tables of a database built by the statements `h`, starting from an
/// empty database; `None` when a statement of `h` is not one this model
/// reads.
pub open spec fn db_tables(h: Seq<SqlStatement>) -> Option<Tables>
    decreases h.len(),
{
    if h.len() == 0 {
        Some(Map::empty())
    } else {
        match db_tables(h.drop_last()) {
            Some(t) => apply_statement(t, h.last()),
            None => None,
        }
    }
}

/// Whether text `a` sorts before text `b`: code point by code point, a
/// proper prefix first.
pub open spec fn text_lt(a: Seq<char>, b: Seq<char>) -> bool
    decreases a.len(),
{
    if b.len() == 0 {
        false
    } else if a.len() == 0 {
        true
    } else if a[0] != b[0] {
        (a[0] as u32) < (b[0] as u32)
    } else {
        text_lt(a.drop_first(), b.drop_first())
    }
}

/// No text sorts before itself.
pub proof fn lemma_text_lt_irreflexive(a: Seq<char>)
    ensures
        !text_lt(a, a),
    decreases a.len(),
{
    if a.len() > 0 {
        lemma_text_lt_irreflexive(a.drop_first());
    }
}

/// The text order is transitive.
pub proof fn lemma_text_lt_transitive(a: Seq<char>, b: Seq<char>, c: Seq<char>)
    requires
        text_lt(a, b),
        text_lt(b, c),
    ensures
        text_lt(a, c),
    decreases a.len(),
{
    if a.len() > 0 && a[0] == b[0] && b[0] == c[0] {
        lemma_text_lt_transitive(a.drop_first(), b.drop_first(), c.drop_first());
    }
}

/// After a common prefix of length `i`, the order is decided by what
/// follows it.
proof fn lemma_text_lt_after_prefix(a: Seq<char>, b: Seq<char>, i: int)
    requires
        0 <= i <= a.len(),
        i <= b.len(),
        a.take(i) == b.take(i),
    ensures
        text_lt(a, b) == text_lt(a.skip(i), b.skip(i)),
    decreases i,
{
    if i > 0 {
        assert(a[0] == a.take(i)[0]);
        assert(b[0] == b.take(i)[0]);
        assert(a.drop_first().take(i - 1) =~= a.take(i).drop_first());
        assert(b.drop_first().take(i - 1) =~= b.take(i).drop_first());
        lemma_text_lt_after_prefix(a.drop_first(), b.drop_first(), i - 1);
        assert(a.drop_first().skip(i - 1) =~= a.skip(i));
        assert(b.drop_first().skip(i - 1) =~= b.skip(i));
    } else {
        assert(a.skip(0) =~= a);
        assert(b.skip(0) =~= b);
    }
}

/// Computes `text_lt`.
pub fn text_less(a: &str, b: &str) -> (res: bool)
    ensures
        res == text_lt(a@, b@),
{
    let ac = chars_of(a);
    let bc = chars_of(b);
    let mut i: usize = 0;
    while i < ac.len() && i < bc.len() && ac[i] == bc[i]
        invariant
            ac@ == a@,
            bc@ == b@,
            i <= ac@.len(),
            i <= bc@.len(),
            a@.take(i as int) == b@.take(i as int),
        decreases ac@.len() - i,
    {
        assert(a@.take(i + 1) =~= a@.take(i as int).push(a@[i as int]));
        assert(b@.take(i + 1) =~= b@.take(i as int).push(b@[i as int]));
        i = i + 1;
    }
    proof {
        lemma_text_lt_after_prefix(a@, b@, i as int);
    }
    if i == bc.len() {
        false
    } else if i == ac.len() {
        true
    } else {
        assert(a@.skip(i as int)[0] == ac@[i as int]);
        assert(b@.skip(i as int)[0] == bc@[i as int]);
        (ac[i] as u32) < (bc[i] as u32)
    }
}

/// The answer `o` of `... ORDER BY creation DESC LIMIT 1` over the rows
/// `keep` selects, giving `value` of the row: `None` exactly when no row is
/// selected, else the value of a selected row that no selected row is newer
/// than.
pub open spec fn newest_answer(
    rows: Seq<Row>,
    keep: spec_fn(Row) -> bool,
    value: spec_fn(Row) -> Seq<char>,
    o: Option<Seq<char>>,
) -> bool {
    match o {
        None => forall|j: int| 0 <= j < rows.len() ==> !keep(#[trigger] rows[j]),
        Some(v) => exists|i: int|
            #![trigger rows[i]]
            0 <= i < rows.len() && keep(rows[i]) && v == value(rows[i]) && forall|j: int|
                0 <= j < rows.len() && keep(#[trigger] rows[j]) ==> !text_lt(
                    cell(rows[i], "creation"@),
                    cell(rows[j], "creation"@),
                ),
    }
}

/// The answer `o` of a query without order that returns its first row:
/// `None` exactly when no row is selected, else the value of a selected row.
pub open spec fn any_answer(
    rows: Seq<Row>,
    keep: spec_fn(Row) -> bool,
    value: spec_fn(Row) -> Seq<char>,
    o: Option<Seq<char>>,
) -> bool {
    match o {
        None => forall|j: int| 0 <= j < rows.len() ==> !keep(#[trigger] rows[j]),
        Some(v) => exists|i: int| 0 <= i < rows.len() && keep(#[trigger] rows[i]) && v == value(rows[i]),
    }
}

/// The answer `v` of `... ORDER BY name` over the rows `keep` selects: the
/// values of those rows, each as often as it occurs, in text order.
pub open spec fn sorted_answer(
    rows: Seq<Row>,
    keep: spec_fn(Row) -> bool,
    value: spec_fn(Row) -> Seq<char>,
    v: Seq<Seq<char>>,
) -> bool {
    &&& v.to_multiset() == rows.filter(keep).map_values(value).to_multiset()
    &&& forall|i: int, j: int| 0 <= i < j < v.len() ==> !text_lt(#[trigger] v[j], #[trigger] v[i])
}

/// Whether snapshot row `s` belongs to the source filesystem named `name`
/// of pool `pool`.
pub open spec fn of_filesystem(t: Tables, pool: Seq<char>, name: Seq<char>, s: Row) -> bool {
    exists|i: int|
        0 <= i < t["fs_src"@].len() && cell(#[trigger] t["fs_src"@][i], "pool"@) == pool && cell(
            t["fs_src"@][i],
            "name"@,
        ) == name && cell(t["fs_src"@][i], "guid"@) == cell(s, "parent_guid"@)
}

/// Whether the destination holds a snapshot with the guid of `s`.
pub open spec fn held_by_destination(t: Tables, s: Row) -> bool {
    exists|j: int|
        0 <= j < t["snap_dst"@].len() && cell(#[trigger] t["snap_dst"@][j], "guid"@) == cell(
            s,
            "guid"@,
        )
}

/// `@` followed by the snapshot's name.
pub open spec fn at_snapshot() -> spec_fn(Row) -> Seq<char> {
    |s: Row| "@"@ + cell(s, "snapshot"@)
}

/// A table the queries read.
#[derive(Debug, Clone, Copy, PartialEq, Eq)]
pub enum Table {
    FsSrc,
    FsDst,
    SnapSrc,
    SnapDst,
}

/// A column the queries read.
#[derive(Debug, Clone, Copy, PartialEq, Eq)]
pub enum Column {
    Pool,
    Guid,
    Createtxg,
    Creation,
    Type,
    Used,
    Name,
    ParentGuid,
    Snapshot,
}

/// The name of a table.
pub open spec fn table_name(t: Table) -> Seq<char> {
    match t {
        Table::FsSrc => "fs_src"@,
        Table::FsDst => "fs_dst"@,
        Table::SnapSrc => "snap_src"@,
        Table::SnapDst => "snap_dst"@,
    }
}

/// The name of a column.
pub open spec fn column_name(c: Column) -> Seq<char> {
    match c {
        Column::Pool => "pool"@,
        Column::Guid => "guid"@,
        Column::Createtxg => "createtxg"@,
        Column::Creation => "creation"@,
        Column::Type => "type"@,
        Column::Used => "used"@,
        Column::Name => "name"@,
        Column::ParentGuid => "parent_guid"@,
        Column::Snapshot => "snapshot"@,
    }
}

/// Computes `table_name`.
pub fn table_text(t: Table) -> (res: &'static str)
    ensures
        res@ == table_name(t),
{
    match t {
        Table::FsSrc => "fs_src",
        Table::FsDst => "fs_dst",
        Table::SnapSrc => "snap_src",
        Table::SnapDst => "snap_dst",
    }
}

/// Computes `column_name`.
pub fn column_text(c: Column) -> (res: &'static str)
    ensures
        res@ == column_name(c),
{
    match c {
        Column::Pool => "pool",
        Column::Guid => "guid",
        Column::Createtxg => "createtxg",
        Column::Creation => "creation",
        Column::Type => "type",
        Column::Used => "used",
        Column::Name => "name",
        Column::ParentGuid => "parent_guid",
        Column::Snapshot => "snapshot",
    }
}

/// The table named `name`, if any.
pub fn table_named(name: &str) -> (res: Option<Table>)
    ensures
        res matches Some(t) ==> table_name(t) == name@,
        res is None ==> forall|t: Table| table_name(t) != name@,
{
    let n = String::from_str(name);
    let tables = [Table::FsSrc, Table::FsDst, Table::SnapSrc, Table::SnapDst];
    let mut i: usize = 0;
    while i < 4
        invariant
            n@ == name@,
            tables@ == seq![Table::FsSrc, Table::FsDst, Table::SnapSrc, Table::SnapDst],
            i <= 4,
            forall|j: int| 0 <= j < i ==> table_name(#[trigger] tables@[j]) != name@,
        decreases 4 - i,
    {
        let candidate = String::from_str(table_text(tables[i]));
        if candidate == n {
            return Some(tables[i]);
        }
        i = i + 1;
    }
    assert forall|t: Table| table_name(t) != name@ by {
        match t {
            Table::FsSrc => assert(table_name(tables@[0]) != name@),
            Table::FsDst => assert(table_name(tables@[1]) != name@),
            Table::SnapSrc => assert(table_name(tables@[2]) != name@),
            Table::SnapDst => assert(table_name(tables@[3]) != name@),
        }
    }
    None
}

/// The column named `name`, if any.
pub fn column_named(name: &str) -> (res: Option<Column>)
    ensures
        res matches Some(c) ==> column_name(c) == name@,
        res is None ==> forall|c: Column| column_name(c) != name@,
{
    let n = String::from_str(name);
    let columns = [
        Column::Pool,
        Column::Guid,
        Column::Createtxg,
        Column::Creation,
        Column::Type,
        Column::Used,
        Column::Name,
        Column::ParentGuid,
        Column::Snapshot,
    ];
    let ghost all = seq![
        Column::Pool,
        Column::Guid,
        Column::Createtxg,
        Column::Creation,
        Column::Type,
        Column::Used,
        Column::Name,
        Column::ParentGuid,
        Column::Snapshot,
    ];
    let mut i: usize = 0;
    while i < 9
        invariant
            n@ == name@,
            columns@ == all,
            i <= 9,
            forall|j: int| 0 <= j < i ==> column_name(#[trigger] all[j]) != name@,
        decreases 9 - i,
    {
        let candidate = String::from_str(column_text(columns[i]));
        if candidate == n {
            return Some(columns[i]);
        }
        i = i + 1;
    }
    assert forall|c: Column| column_name(c) != name@ by {
        match c {
            Column::Pool => assert(column_name(all[0]) != name@),
            Column::Guid => assert(column_name(all[1]) != name@),
            Column::Createtxg => assert(column_name(all[2]) != name@),
            Column::Creation => assert(column_name(all[3]) != name@),
            Column::Type => assert(column_name(all[4]) != name@),
            Column::Used => assert(column_name(all[5]) != name@),
            Column::Name => assert(column_name(all[6]) != name@),
            Column::ParentGuid => assert(column_name(all[7]) != name@),
            Column::Snapshot => assert(column_name(all[8]) != name@),
        }
    }
    None
}

/// A query of the library. Its text is fixed but for the table and column
/// names, which come from these enumerations.
#[derive(Debug, Clone, Copy, PartialEq, Eq)]
pub enum Query {
    /// The newest snapshot of a source filesystem (by pool and name) that
    /// the destination also holds.
    CommonSnapshot,
    /// The newest snapshot of a source filesystem (by pool and name).
    NewestSnapshot,
    /// A column of the newest row of a table with a given name.
    Property(Table, Column),
    /// The names of a pool's filesystems in a table, other than the pool.
    Filesystems(Table),
    /// The names of a pool's filesystems in the catalog.
    CatalogFilesystems,
    /// The newest snapshot of a filesystem (by guid) on both sides.
    CatalogCommon,
    /// The newest source snapshot of a filesystem (by guid).
    CatalogNewest,
    /// The guid of a source filesystem, by name.
    CatalogGuid,
}

/// Whether a query returns one text (its first row's), rather than a
/// column of texts.
pub open spec fn returns_one(q: Query) -> bool {
    !(q is Filesystems || q is CatalogFilesystems)
}

/// The SQL text of a query.
pub open spec fn query_sql(q: Query) -> Seq<char> {
    match q {
        Query::CommonSnapshot => common_snapshot_query(),
        Query::NewestSnapshot => newest_snapshot_query(),
        Query::Property(t, c) => property_sql(table_name(t), column_name(c)),
        Query::Filesystems(t) => filesystems_sql(table_name(t)),
        Query::CatalogFilesystems => filesystems_query(),
        Query::CatalogCommon => common_by_guid_query(),
        Query::CatalogNewest => newest_by_guid_query(),
        Query::CatalogGuid => guid_query(),
    }
}

/// Computes `query_sql`.
pub fn query_text(q: Query) -> (res: String)
    ensures
        res@ == query_sql(q),
{
    match q {
        Query::CommonSnapshot => select_query(COMMON_SNAPSHOT_SELECT),
        Query::NewestSnapshot => select_query(NEWEST_SNAPSHOT_SELECT),
        Query::Property(t, c) => {
            let a = concat("SELECT ", column_text(c));
            let b = concat(a.as_str(), " FROM ");
            let d = concat(b.as_str(), table_text(t));
            concat(d.as_str(), " WHERE name = ? ORDER BY creation DESC LIMIT 1")
        },
        Query::Filesystems(t) => {
            let a = concat("SELECT name FROM ", table_text(t));
            concat(a.as_str(), " WHERE pool = ? AND name != ? ORDER BY name")
        },
        Query::CatalogFilesystems => select_query(FILESYSTEMS_SELECT),
        Query::CatalogCommon => select_query(COMMON_BY_GUID_SELECT),
        Query::CatalogNewest => select_query(NEWEST_BY_GUID_SELECT),
        Query::CatalogGuid => select_query(GUID_SELECT),
    }
}

/// What a one-text query `q` with parameters `p` may answer on tables `t`.
pub open spec fn first_answer(q: Query, t: Tables, p: Seq<Seq<char>>, o: Option<Seq<char>>) -> bool {
    match q {
        Query::CommonSnapshot => newest_answer(
            t["snap_src"@],
            |s: Row| of_filesystem(t, p[0], p[1], s) && held_by_destination(t, s),
            at_snapshot(),
            o,
        ),
        Query::NewestSnapshot => newest_answer(
            t["snap_src"@],
            |s: Row| of_filesystem(t, p[0], p[1], s),
            at_snapshot(),
            o,
        ),
        Query::Property(tb, c) => newest_answer(
            t[table_name(tb)],
            |r: Row| cell(r, "name"@) == p[0],
            |r: Row| cell(r, column_name(c)),
            o,
        ),
        Query::CatalogCommon => newest_answer(
            t["snap_src"@],
            |s: Row| cell(s, "parent_guid"@) == p[0] && held_by_destination(t, s),
            at_snapshot(),
            o,
        ),
        Query::CatalogNewest => newest_answer(
            t["snap_src"@],
            |s: Row| cell(s, "parent_guid"@) == p[0],
            at_snapshot(),
            o,
        ),
        Query::CatalogGuid => any_answer(
            t["fs_src"@],
            |f: Row| cell(f, "name"@) == p[0],
            |f: Row| cell(f, "guid"@),
            o,
        ),
        _ => false,
    }
}

/// Whether a row is of pool `pool` and not named `root`.
pub open spec fn below_pool(pool: Seq<char>, root: Seq<char>) -> spec_fn(Row) -> bool {
    |r: Row| cell(r, "pool"@) == pool && cell(r, "name"@) != root
}

/// The name of a row.
pub open spec fn row_name() -> spec_fn(Row) -> Seq<char> {
    |r: Row| cell(r, "name"@)
}

/// The pool and name columns of a stored filesystem row are the first and
/// last of its seven values.
pub proof fn lemma_fs_row_cells(r: Seq<Seq<char>>)
    requires
        r.len() == 7,
    ensures
        cell(row_of(fs_columns(), r), "pool"@) == r[0],
        cell(row_of(fs_columns(), r), "name"@) == r[6],
{
    reveal_strlit("pool");
    reveal_strlit("guid");
    reveal_strlit("createtxg");
    reveal_strlit("creation");
    reveal_strlit("type");
    reveal_strlit("used");
    reveal_strlit("name");
    reveal_with_fuel(row_of, 8);
    let c = fs_columns();
    assert(c.drop_last().drop_last().drop_last().drop_last().drop_last().drop_last() =~= seq!["pool"@]);
    assert(r.drop_last().drop_last().drop_last().drop_last().drop_last().drop_last() =~= seq![r[0]]);
    assert(c.last() == "name"@);
    assert("pool"@[0] != "guid"@[0] && "pool"@[0] != "createtxg"@[0] && "pool"@[0] != "creation"@[0]);
    assert("pool"@[0] != "type"@[0] && "pool"@[0] != "used"@[0] && "pool"@[0] != "name"@[0]);
    assert("pool"@ != "guid"@ && "pool"@ != "createtxg"@ && "pool"@ != "creation"@);
    assert("pool"@ != "type"@ && "pool"@ != "used"@ && "pool"@ != "name"@);
}

/// What a column query `q` with parameters `p` answers on tables `t`.
pub open spec fn column_answer(q: Query, t: Tables, p: Seq<Seq<char>>, v: Seq<Seq<char>>) -> bool {
    match q {
        Query::Filesystems(tb) => sorted_answer(t[table_name(tb)], below_pool(p[0], p[1]), row_name(), v),
        Query::CatalogFilesystems => sorted_answer(
            t["fs_src"@],
            |r: Row| cell(r, "pool"@) == p[0],
            |r: Row| cell(r, "name"@),
            v,
        ),
        _ => false,
    }
}

/// Whether `o` is what one-text query `q` may answer with parameters `p`
/// on the database built by `h`; anything, when the model does not read
/// `h`.
pub open spec fn answers_first(h: Seq<SqlStatement>, q: Query, p: Seq<Seq<char>>, o: Option<Seq<char>>) -> bool {
    match db_tables(h) {
        Some(t) => first_answer(q, t, p, o),
        None => true,
    }
}

/// Whether `v` is what column query `q` answers with parameters `p` on the
/// database built by `h`; anything, when the model does not read `h`.
pub open spec fn answers_column(h: Seq<SqlStatement>, q: Query, p: Seq<Seq<char>>, v: Seq<Seq<char>>) -> bool {
    match db_tables(h) {
        Some(t) => column_answer(q, t, p, v),
        None => true,
    }
}

/// The names of the four tables hold no space.
proof fn lemma_table_name_has_no_space(i: int)
    requires
        0 <= i < 4,
    ensures
        forall|j: int| 0 <= j < table_names()[i].len() ==> table_names()[i][j] != ' ',
{
    reveal_strlit("fs_src");
    reveal_strlit("fs_dst");
    reveal_strlit("snap_src");
    reveal_strlit("snap_dst");
}

/// The tails of the four kinds of insert: each starts with a space, and
/// they differ in length.
proof fn lemma_insert_tails()
    ensures
        forall|k: int| 0 <= k < 4 ==> insert_tails()[k].len() > 0 && #[trigger] insert_tails()[k][0] == ' ',
        forall|k: int, l: int|
            0 <= k < 4 && 0 <= l < 4 && k != l ==> #[trigger] insert_tails()[k].len() != #[trigger] insert_tails()[l].len(),
{
    reveal_strlit(" (pool, guid, createtxg, creation, type, used, name) VALUES (?, ?, ?, ?, ?, ?, ?)");
    reveal_strlit(" (parent_guid, guid, createtxg, creation, type, used, name, snapshot) VALUES (?, ?, ?, ?, ?, ?, ?, ?)");
    reveal_strlit(" (pool, guid, name) VALUES (?, ?, ?)");
    reveal_strlit(" (parent_guid, guid, creation, snapshot) VALUES (?, ?, ?, ?)");
}

/// An insert text tells its table and its tail apart.
proof fn lemma_insert_parts(a: Seq<char>, sa: Seq<char>, b: Seq<char>, sb: Seq<char>)
    requires
        "INSERT INTO "@ + a + sa == "INSERT INTO "@ + b + sb,
        forall|j: int| 0 <= j < a.len() ==> a[j] != ' ',
        forall|j: int| 0 <= j < b.len() ==> b[j] != ' ',
        sa.len() > 0 && sa[0] == ' ',
        sb.len() > 0 && sb[0] == ' ',
    ensures
        a == b,
        sa == sb,
{
    let p = "INSERT INTO "@;
    let x = p + a + sa;
    let y = p + b + sb;
    if a.len() < b.len() {
        assert(x[(p.len() + a.len()) as int] == sa[0]);
        assert(y[(p.len() + a.len()) as int] == b[a.len() as int]);
    } else if b.len() < a.len() {
        assert(y[(p.len() + b.len()) as int] == sb[0]);
        assert(x[(p.len() + b.len()) as int] == a[b.len() as int]);
    }
    assert(a =~= x.subrange(p.len() as int, (p.len() + a.len()) as int));
    assert(b =~= y.subrange(p.len() as int, (p.len() + b.len()) as int));
    assert(sa =~= x.subrange((p.len() + a.len()) as int, x.len() as int));
    assert(sb =~= y.subrange((p.len() + b.len()) as int, y.len() as int));
}

/// The model reads the insert of kind `k` into the `i`-th table as such.
proof fn lemma_insert_target(i: int, k: int)
    requires
        0 <= i < 4,
        0 <= k < 4,
    ensures
        insert_target(insert_sql_of(i, k)) == Some((table_names()[i], insert_columns()[k])),
{
    let sql = insert_sql_of(i, k);
    assert(is_insert(sql, i, k));
    let (i2, k2) = choose|i2: int, k2: int| is_insert(sql, i2, k2);
    lemma_table_name_has_no_space(i);
    lemma_table_name_has_no_space(i2);
    lemma_insert_tails();
    assert(insert_tails()[k][0] == ' ');
    assert(insert_tails()[k2][0] == ' ');
    lemma_insert_parts(table_names()[i], insert_tails()[k], table_names()[i2], insert_tails()[k2]);
    if k != k2 {
        assert(insert_tails()[k].len() != insert_tails()[k2].len());
    }
}

/// No insert text starts with `D`.
proof fn lemma_delete_is_not_insert(i: int)
    requires
        0 <= i < 4,
    ensures
        insert_target(delete_sql_of(i)) is None,
{
    reveal_strlit("DELETE FROM ");
    reveal_strlit("INSERT INTO ");
    if exists|i2: int, k2: int| is_insert(delete_sql_of(i), i2, k2) {
        let (i2, k2) = choose|i2: int, k2: int| is_insert(delete_sql_of(i), i2, k2);
        assert(delete_sql_of(i)[0] == 'D');
        assert(insert_sql_of(i2, k2)[0] == 'I');
    }
}

/// The model reads the delete of the `i`-th table as such.
proof fn lemma_delete_target(i: int)
    requires
        0 <= i < 4,
    ensures
        delete_target(delete_sql_of(i)) == Some(table_names()[i]),
{
    let sql = delete_sql_of(i);
    let i2 = choose|i2: int| 0 <= i2 < 4 && sql == delete_sql_of(i2);
    let p = "DELETE FROM "@;
    reveal_strlit("fs_src");
    reveal_strlit("fs_dst");
    reveal_strlit("snap_src");
    reveal_strlit("snap_dst");
    assert(table_names()[i] =~= sql.subrange(p.len() as int, sql.len() as int));
    assert(table_names()[i2] =~= sql.subrange(p.len() as int, sql.len() as int));
}

/// Recording a row: after an insert of kind `k` into an existing table,
/// that table holds its rows as before followed by the row of the bound
/// values, and no other table changes.
pub proof fn law_insert_appends_row(h: Seq<SqlStatement>, i: int, k: int, params: Seq<Seq<char>>)
    requires
        0 <= i < 4,
        0 <= k < 4,
        db_tables(h) matches Some(t) && t.dom().contains(table_names()[i]),
        params.len() == insert_columns()[k].len(),
    ensures
        ({
            let t = db_tables(h)->0;
            let name = table_names()[i];
            db_tables(h.push((insert_sql_of(i, k), params))) == Some(
                t.insert(name, t[name].push(row_of(insert_columns()[k], params))),
            )
        }),
{
    lemma_insert_target(i, k);
    let h2 = h.push((insert_sql_of(i, k), params));
    assert(h2.drop_last() == h);
}

/// Emptying a table: after the delete of an existing table it holds no row,
/// and no other table changes.
pub proof fn law_delete_empties_table(h: Seq<SqlStatement>, i: int)
    requires
        0 <= i < 4,
        db_tables(h) matches Some(t) && t.dom().contains(table_names()[i]),
    ensures
        ({
            let t = db_tables(h)->0;
            db_tables(h.push((delete_sql_of(i), Seq::<Seq<char>>::empty()))) == Some(
                t.insert(table_names()[i], Seq::<Row>::empty()),
            )
        }),
{
    lemma_delete_is_not_insert(i);
    lemma_delete_target(i);
    let h2 = h.push((delete_sql_of(i), Seq::<Seq<char>>::empty()));
    assert(h2.drop_last() == h);
}

/// The newest selected row decides the answer: when one selected row is
/// strictly newer than every other selected row, the only answer is its
/// value.
pub proof fn law_strictly_newest_row_is_the_answer(
    rows: Seq<Row>,
    keep: spec_fn(Row) -> bool,
    value: spec_fn(Row) -> Seq<char>,
    i: int,
    o: Option<Seq<char>>,
)
    requires
        0 <= i < rows.len(),
        keep(rows[i]),
        forall|j: int|
            0 <= j < rows.len() && j != i && keep(#[trigger] rows[j]) ==> text_lt(
                cell(rows[j], "creation"@),
                cell(rows[i], "creation"@),
            ),
        newest_answer(rows, keep, value, o),
    ensures
        o == Some(value(rows[i])),
{
    match o {
        None => {
            assert(!keep(rows[i]));
        },
        Some(v) => {
            let i2 = choose|i2: int|
                #![trigger rows[i2]]
                0 <= i2 < rows.len() && keep(rows[i2]) && v == value(rows[i2]) && forall|j: int|
                    0 <= j < rows.len() && keep(#[trigger] rows[j]) ==> !text_lt(
                        cell(rows[i2], "creation"@),
                        cell(rows[j], "creation"@),
                    );
            if i2 != i {
                assert(keep(rows[i]));
                assert(!text_lt(cell(rows[i2], "creation"@), cell(rows[i], "creation"@)));
            }
        },
    }
}

/// Reading after writing: once the newest snapshot of a source filesystem
/// (strictly newer than every other of its snapshots) is also held by the
/// destination, the common-snapshot query and the newest-snapshot query
/// both answer that snapshot, so the filesystem is up to date.
pub proof fn law_common_is_newest_once_destination_holds_it(
    h: Seq<SqlStatement>,
    pool: Seq<char>,
    name: Seq<char>,
    i: int,
    c: Option<Seq<char>>,
    n: Option<Seq<char>>,
)
    requires
        db_tables(h) matches Some(t) && {
            let rows = t["snap_src"@];
            &&& 0 <= i < rows.len()
            &&& of_filesystem(t, pool, name, rows[i])
            &&& held_by_destination(t, rows[i])
            &&& forall|j: int|
                0 <= j < rows.len() && j != i && of_filesystem(t, pool, name, #[trigger] rows[j])
                    ==> text_lt(cell(rows[j], "creation"@), cell(rows[i], "creation"@))
        },
        answers_first(h, Query::CommonSnapshot, seq![pool, name], c),
        answers_first(h, Query::NewestSnapshot, seq![pool, name], n),
    ensures
        c == n,
        n == Some("@"@ + cell(db_tables(h)->0["snap_src"@][i], "snapshot"@)),
{
    let t = db_tables(h)->0;
    let rows = t["snap_src"@];
    let p = seq![pool, name];
    assert(p[0] == pool && p[1] == name);
    let newest_keep = |s: Row| of_filesystem(t, p[0], p[1], s);
    let common_keep = |s: Row| of_filesystem(t, p[0], p[1], s) && held_by_destination(t, s);
    law_strictly_newest_row_is_the_answer(rows, newest_keep, at_snapshot(), i, n);
    assert forall|j: int|
        0 <= j < rows.len() && j != i && common_keep(#[trigger] rows[j]) implies text_lt(
        cell(rows[j], "creation"@),
        cell(rows[i], "creation"@),
    ) by {
        assert(newest_keep(rows[j]));
    }
    law_strictly_newest_row_is_the_answer(rows, common_keep, at_snapshot(), i, c);
}

/// Sorting no rows gives nothing.
proof fn lemma_empty_rows_sort_to_nothing(v: Seq<Seq<char>>)
    ensures
        forall|rows: Seq<Row>, keep: spec_fn(Row) -> bool, value: spec_fn(Row) -> Seq<char>|
            rows.len() == 0 && #[trigger] sorted_answer(rows, keep, value, v) ==> v.len() == 0,
{
    assert forall|rows: Seq<Row>, keep: spec_fn(Row) -> bool, value: spec_fn(Row) -> Seq<char>|
        rows.len() == 0 && #[trigger] sorted_answer(rows, keep, value, v) implies v.len() == 0 by {
        reveal(Seq::filter);
        assert(rows.filter(keep) =~= Seq::<Row>::empty());
        assert(rows.filter(keep).map_values(value) =~= Seq::<Seq<char>>::empty());
        Seq::<Seq<char>>::empty().to_multiset_ensures();
        v.to_multiset_ensures();
    }
}

/// Reading after emptying: on tables where a snapshot table holds no row,
/// the snapshot queries over it answer nothing; where a filesystem table
/// holds no row, the listing of it is empty.
pub proof fn law_empty_tables_answer_nothing(
    h: Seq<SqlStatement>,
    q: Query,
    p: Seq<Seq<char>>,
    o: Option<Seq<char>>,
    v: Seq<Seq<char>>,
)
    requires
        db_tables(h) matches Some(t) && t["snap_src"@].len() == 0 && t["fs_src"@].len() == 0
            && t["fs_dst"@].len() == 0,
    ensures
        (q is CommonSnapshot || q is NewestSnapshot || q is CatalogCommon || q is CatalogNewest
            || q is CatalogGuid || q matches Query::Property(Table::FsSrc, _) || q matches Query::Property(Table::FsDst, _))
            && answers_first(h, q, p, o) ==> o is None,
        (q matches Query::Filesystems(Table::FsSrc) || q matches Query::Filesystems(Table::FsDst)
            || q is CatalogFilesystems) && answers_column(h, q, p, v) ==> v.len() == 0,
{
    lemma_empty_rows_sort_to_nothing(v);
}

/// The inserts of kind `k` into the `i`-th table, one per row of values.
pub open spec fn inserts_of(i: int, k: int, rows: Seq<Seq<Seq<char>>>) -> Seq<SqlStatement> {
    rows.map_values(|r: Seq<Seq<char>>| (insert_sql_of(i, k), r))
}

/// The rows that the inserts of kind `k` store for the given values.
pub open spec fn stored_rows(k: int, rows: Seq<Seq<Seq<char>>>) -> Seq<Row> {
    rows.map_values(|r: Seq<Seq<char>>| row_of(insert_columns()[k], r))
}

/// Recording many rows: after the inserts of kind `k` into an existing
/// table, that table holds its rows as before followed by the inserted
/// rows, in order, and no other table changes.
pub proof fn law_inserts_append_rows(h: Seq<SqlStatement>, i: int, k: int, rows: Seq<Seq<Seq<char>>>)
    requires
        0 <= i < 4,
        0 <= k < 4,
        db_tables(h) matches Some(t) && t.dom().contains(table_names()[i]),
        forall|j: int| 0 <= j < rows.len() ==> (#[trigger] rows[j]).len() == insert_columns()[k].len(),
    ensures
        ({
            let t = db_tables(h)->0;
            let name = table_names()[i];
            db_tables(h + inserts_of(i, k, rows)) == Some(t.insert(name, t[name] + stored_rows(k, rows)))
        }),
    decreases rows.len(),
{
    let t = db_tables(h)->0;
    let name = table_names()[i];
    if rows.len() == 0 {
        assert(h + inserts_of(i, k, rows) =~= h);
        assert(t[name] + stored_rows(k, rows) =~= t[name]);
        assert(t.insert(name, t[name]) =~= t);
    } else {
        let front = rows.drop_last();
        law_inserts_append_rows(h, i, k, front);
        let h1 = h + inserts_of(i, k, front);
        let t1 = t.insert(name, t[name] + stored_rows(k, front));
        assert(rows[rows.len() - 1].len() == insert_columns()[k].len());
        law_insert_appends_row(h1, i, k, rows.last());
        assert(h + inserts_of(i, k, rows) =~= h1.push((insert_sql_of(i, k), rows.last())));
        assert(t[name] + stored_rows(k, rows) =~= (t[name] + stored_rows(k, front)).push(
            row_of(insert_columns()[k], rows.last()),
        ));
        assert(t1.insert(name, t1[name].push(row_of(insert_columns()[k], rows.last()))) =~= t.insert(
            name,
            t[name] + stored_rows(k, rows),
        ));
    }
}

/// The deletes of the four tables, in order.
pub open spec fn deletes_of_all() -> Seq<SqlStatement> {
    seq![
        (delete_sql_of(0), Seq::<Seq<char>>::empty()),
        (delete_sql_of(1), Seq::<Seq<char>>::empty()),
        (delete_sql_of(2), Seq::<Seq<char>>::empty()),
        (delete_sql_of(3), Seq::<Seq<char>>::empty()),
    ]
}

/// Emptying every table: after the deletes of the four tables, each of them
/// holds no row, and any other table is unchanged.
pub proof fn law_deletes_empty_every_table(h: Seq<SqlStatement>)
    requires
        db_tables(h) matches Some(t) && forall|i: int| 0 <= i < 4 ==> t.dom().contains(#[trigger] table_names()[i]),
    ensures
        ({
            let t = db_tables(h)->0;
            db_tables(h + deletes_of_all()) == Some(
                t.insert(table_names()[0], Seq::<Row>::empty()).insert(table_names()[1], Seq::<Row>::empty()).insert(
                    table_names()[2],
                    Seq::<Row>::empty(),
                ).insert(table_names()[3], Seq::<Row>::empty()),
            )
        }),
{
    let t = db_tables(h)->0;
    let e = Seq::<Seq<char>>::empty();
    assert(t.dom().contains(table_names()[0]));
    assert(t.dom().contains(table_names()[1]));
    assert(t.dom().contains(table_names()[2]));
    assert(t.dom().contains(table_names()[3]));
    law_delete_empties_table(h, 0);
    let h1 = h.push((delete_sql_of(0), e));
    law_delete_empties_table(h1, 1);
    let h2 = h1.push((delete_sql_of(1), e));
    law_delete_empties_table(h2, 2);
    let h3 = h2.push((delete_sql_of(2), e));
    law_delete_empties_table(h3, 3);
    let h4 = h3.push((delete_sql_of(3), e));
    assert(h + deletes_of_all() =~= h4);
}

} // verus!
