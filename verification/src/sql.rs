//! The few shapes of SQL statement that the library hands to SQLite, how
//! each is written out as text, how a text is read back as a statement,
//! and what SQL prescribes that a statement does to a database. Names of
//! tables, columns and parameters and comparison operators stand in a
//! statement as the text they are written with, and their meaning is read
//! off that text; what a text does is what the statement read from it
//! does (`run_sql`, `answers_sql`).

use crate::sqlite::{DbCall, DbEvent, SqlArg};
use vstd::prelude::*;

verus! {

/// A condition on the rows of a table.
pub enum Filter {
    /// `column op :param`
    Compare { column: Seq<char>, op: Seq<char>, param: Seq<char> },
    /// `column IN (SELECT column FROM table GROUP BY groups HAVING COUNT(*) > 1)`
    Repeated { column: Seq<char>, table: Seq<char>, groups: Seq<Seq<char>> },
}

/// A statement of one of the shapes that the library uses.
pub enum SqlStatement {
    /// `drop table if exists table;`
    DropTable { table: Seq<char> },
    /// `create table if not exists table definitions;`, where
    /// `definitions` is the parenthesised list of column definitions.
    CreateTable { table: Seq<char>, definitions: Seq<char> },
    /// `SELECT columns FROM table WHERE filter ORDER BY order;`, the
    /// `ORDER BY` part left out where `order` is empty.
    Select { table: Seq<char>, columns: Seq<Seq<char>>, filter: Filter, order: Seq<Seq<char>> },
    /// `UPDATE table SET column = :param, ... WHERE filter;`
    Update { table: Seq<char>, set: Seq<(Seq<char>, Seq<char>)>, filter: Filter },
    /// `DELETE FROM table WHERE filter;`
    Delete { table: Seq<char>, filter: Filter },
}

/// `items` written one after another, separated by `", "`.
pub open spec fn join(items: Seq<Seq<char>>) -> Seq<char>
    decreases items.len(),
{
    if items.len() == 0 {
        seq![]
    } else if items.len() == 1 {
        items[0]
    } else {
        items[0] + ", "@ + join(items.drop_first())
    }
}

/// The text of a filter.
pub open spec fn render_filter(f: Filter) -> Seq<char> {
    match f {
        Filter::Compare { column, op, param } => column + " "@ + op + " :"@ + param,
        Filter::Repeated { column, table, groups } => column + " IN (SELECT "@ + column + " FROM "@ + table
            + " GROUP BY "@ + join(groups) + " HAVING COUNT(*) > 1)"@,
    }
}

/// The text of one assignment of an `UPDATE`.
pub open spec fn render_assignment(a: (Seq<char>, Seq<char>)) -> Seq<char> {
    a.0 + " = :"@ + a.1
}

/// The `ORDER BY` part of a query, empty where nothing orders it.
pub open spec fn render_order(order: Seq<Seq<char>>) -> Seq<char> {
    if order.len() == 0 {
        seq![]
    } else {
        " ORDER BY "@ + join(order)
    }
}

/// The SQL text of a statement.
pub open spec fn render(s: SqlStatement) -> Seq<char> {
    match s {
        SqlStatement::DropTable { table } => "drop table if exists "@ + table + ";"@,
        SqlStatement::CreateTable { table, definitions } => "create table if not exists "@ + table + " "@ + definitions
            + ";"@,
        SqlStatement::Select { table, columns, filter, order } => "SELECT "@ + join(columns) + " FROM "@ + table
            + " WHERE "@ + render_filter(filter) + render_order(order) + ";"@,
        SqlStatement::Update { table, set, filter } => "UPDATE "@ + table + " SET "@
            + join(set.map_values(|a: (Seq<char>, Seq<char>)| render_assignment(a))) + " WHERE "@
            + render_filter(filter) + ";"@,
        SqlStatement::Delete { table, filter } => "DELETE FROM "@ + table + " WHERE "@ + render_filter(filter) + ";"@,
    }
}

/// A database as SQL sees it: each table, by its name, holds its rows by
/// their rowid; a row holds its values by column name. The `id` column of
/// the library's tables is the rowid itself (`id integer primary key`), so
/// a row does not hold it.
pub struct Database {
    pub tables: Map<Seq<char>, Map<i64, Map<Seq<char>, SqlArg>>>,
}

/// The value of `column` in the row stored under `key`.
pub open spec fn column_value(key: i64, row: Map<Seq<char>, SqlArg>, column: Seq<char>) -> SqlArg {
    if column == "id"@ {
        SqlArg::Integer(key)
    } else {
        row[column]
    }
}

/// The value bound to parameter `:name` among `params`, the last binding
/// where there are several.
pub open spec fn bound(params: Seq<(Seq<char>, SqlArg)>, name: Seq<char>) -> Option<SqlArg>
    decreases params.len(),
{
    if params.len() == 0 {
        None
    } else if params.last().0 == ":"@ + name {
        Some(params.last().1)
    } else {
        bound(params.drop_last(), name)
    }
}

/// What comparing `a` with `b` by `op` gives. Values of different kinds
/// are unequal; the orderings are those of integers, and a comparison that
/// orders two texts is left out of the model (taken as false).
pub open spec fn compare(op: Seq<char>, a: SqlArg, b: SqlArg) -> bool {
    if op == "="@ {
        a == b
    } else if op == "<>"@ || op == "!="@ {
        a != b
    } else {
        match (a, b) {
            (SqlArg::Integer(x), SqlArg::Integer(y)) => {
                if op == "<"@ {
                    x < y
                } else if op == "<="@ {
                    x <= y
                } else if op == ">"@ {
                    x > y
                } else if op == ">="@ {
                    x >= y
                } else {
                    false
                }
            },
            _ => false,
        }
    }
}

/// Whether SQLite can evaluate `f` with `params` on `db`: its parameter is
/// bound, or the table of its sub-query exists.
pub open spec fn filter_ok(f: Filter, params: Seq<(Seq<char>, SqlArg)>, db: Database) -> bool {
    match f {
        Filter::Compare { param, .. } => bound(params, param) is Some,
        Filter::Repeated { table, .. } => db.tables.contains_key(table),
    }
}

/// Whether the row stored under `key` in table `t` meets `f`.
pub open spec fn holds(
    f: Filter,
    params: Seq<(Seq<char>, SqlArg)>,
    db: Database,
    t: Map<i64, Map<Seq<char>, SqlArg>>,
    key: i64,
) -> bool {
    match f {
        Filter::Compare { column, op, param } => match bound(params, param) {
            Some(v) => compare(op, column_value(key, t[key], column), v),
            None => false,
        },
        Filter::Repeated { column, table, groups } => {
            let sub = db.tables[table];
            exists|k1: i64, k2: i64|
                #![trigger sub[k1], sub[k2]]
                {
                    &&& k1 != k2
                    &&& sub.dom().contains(k1)
                    &&& sub.dom().contains(k2)
                    &&& forall|g: int|
                        0 <= g < groups.len() ==> column_value(k1, sub[k1], #[trigger] groups[g])
                            == column_value(k2, sub[k2], groups[g])
                    &&& column_value(k1, sub[k1], column) == column_value(key, t[key], column)
                }
        },
    }
}

/// Row `row` after the assignments of `set`, in order.
pub open spec fn assign(
    row: Map<Seq<char>, SqlArg>,
    set: Seq<(Seq<char>, Seq<char>)>,
    params: Seq<(Seq<char>, SqlArg)>,
) -> Map<Seq<char>, SqlArg>
    decreases set.len(),
{
    if set.len() == 0 {
        row
    } else {
        let v = match bound(params, set.last().1) {
            Some(v) => v,
            None => SqlArg::Integer(0),
        };
        assign(row, set.drop_last(), params).insert(set.last().0, v)
    }
}

/// Whether every parameter that the assignments of `set` name is bound.
pub open spec fn assignments_bound(set: Seq<(Seq<char>, Seq<char>)>, params: Seq<(Seq<char>, SqlArg)>) -> bool {
    forall|i: int| 0 <= i < set.len() ==> bound(params, #[trigger] set[i].1) is Some
}

/// What running `s` with `params` on `db` leaves, as SQL prescribes;
/// `None` where SQLite refuses it (a table that is not there, a parameter
/// that is not bound). A query leaves the database as it was.
pub open spec fn run(s: SqlStatement, params: Seq<(Seq<char>, SqlArg)>, db: Database) -> Option<Database> {
    match s {
        SqlStatement::DropTable { table } => Some(Database { tables: db.tables.remove(table) }),
        SqlStatement::CreateTable { table, .. } => if db.tables.contains_key(table) {
            Some(db)
        } else {
            Some(Database { tables: db.tables.insert(table, Map::empty()) })
        },
        SqlStatement::Select { table, filter, .. } => if db.tables.contains_key(table) && filter_ok(
            filter,
            params,
            db,
        ) {
            Some(db)
        } else {
            None
        },
        SqlStatement::Update { table, set, filter } => if db.tables.contains_key(table) && filter_ok(
            filter,
            params,
            db,
        ) && assignments_bound(set, params) {
            let t = db.tables[table];
            let t2 = Map::new(
                |k: i64| t.dom().contains(k),
                |k: i64|
                    if holds(filter, params, db, t, k) {
                        assign(t[k], set, params)
                    } else {
                        t[k]
                    },
            );
            Some(Database { tables: db.tables.insert(table, t2) })
        } else {
            None
        },
        SqlStatement::Delete { table, filter } => if db.tables.contains_key(table) && filter_ok(
            filter,
            params,
            db,
        ) {
            let t = db.tables[table];
            let t2 = Map::new(|k: i64| t.dom().contains(k) && !holds(filter, params, db, t, k), |k: i64| t[k]);
            Some(Database { tables: db.tables.insert(table, t2) })
        } else {
            None
        },
    }
}

/// Whether `rows` is an answer that SQL allows to query `s` with `params`
/// on `db`: each row of the table that meets the filter once, and no
/// other, each projected onto the selected columns. The order of the rows
/// is left open.
pub open spec fn answers(
    s: SqlStatement,
    params: Seq<(Seq<char>, SqlArg)>,
    db: Database,
    rows: Seq<Seq<SqlArg>>,
) -> bool {
    match s {
        SqlStatement::Select { table, columns, filter, .. } => {
            let t = db.tables[table];
            &&& run(s, params, db) is Some
            &&& exists|keys: Seq<i64>|
                {
                    &&& keys.no_duplicates()
                    &&& keys.len() == rows.len()
                    &&& forall|k: i64|
                        #![trigger keys.contains(k)]
                        keys.contains(k) <==> (t.dom().contains(k) && holds(filter, params, db, t, k))
                    &&& forall|i: int|
                        #![trigger rows[i]]
                        0 <= i < rows.len() ==> rows[i] == columns.map_values(
                            |c: Seq<char>| column_value(keys[i], t[keys[i]], c),
                        )
                }
        },
        _ => false,
    }
}

/// What reading one row of a query's answer records: a row came, then
/// each of its columns in order.
pub open spec fn row_reads(row: Seq<SqlArg>) -> Seq<DbEvent> {
    seq![DbEvent::NextRow(true)] + Seq::new(row.len(), |i: int| DbEvent::Value(i as usize, row[i]))
}

/// What reading every row of an answer records, up to the missing row that
/// ends it.
pub open spec fn rows_reads(rows: Seq<Seq<SqlArg>>) -> Seq<DbEvent>
    decreases rows.len(),
{
    if rows.len() == 0 {
        seq![]
    } else {
        rows_reads(rows.drop_last()) + row_reads(rows.last())
    }
}

/// What reading the first row of an answer records: the row, or the
/// missing row where the answer is empty.
pub open spec fn first_row_reads(rows: Seq<Seq<SqlArg>>) -> Seq<DbEvent> {
    if rows.len() == 0 {
        seq![DbEvent::NextRow(false)]
    } else {
        row_reads(rows[0])
    }
}

/// Whether `c` may stand in a name (of a table, a column or a parameter).
pub open spec fn is_name_char(c: char) -> bool {
    ('a' <= c && c <= 'z') || ('A' <= c && c <= 'Z') || ('0' <= c && c <= '9') || c == '_'
}

/// Whether `c` may stand in a comparison operator.
pub open spec fn is_op_char(c: char) -> bool {
    c == '=' || c == '<' || c == '>' || c == '!'
}

/// Whether `s` is a name: one or more name characters.
pub open spec fn is_name(s: Seq<char>) -> bool {
    s.len() > 0 && forall|i: int| 0 <= i < s.len() ==> is_name_char(#[trigger] s[i])
}

/// Whether `s` is a comparison operator: one or more operator characters.
pub open spec fn is_op(s: Seq<char>) -> bool {
    s.len() > 0 && forall|i: int| 0 <= i < s.len() ==> is_op_char(#[trigger] s[i])
}

/// How many name characters `s` starts with.
pub open spec fn name_len(s: Seq<char>) -> nat
    decreases s.len(),
{
    if s.len() > 0 && is_name_char(s[0]) {
        1 + name_len(s.drop_first())
    } else {
        0
    }
}

/// How many operator characters `s` starts with.
pub open spec fn op_len(s: Seq<char>) -> nat
    decreases s.len(),
{
    if s.len() > 0 && is_op_char(s[0]) {
        1 + op_len(s.drop_first())
    } else {
        0
    }
}

/// The name that `s` starts with, and what follows it.
pub open spec fn take_name(s: Seq<char>) -> Option<(Seq<char>, Seq<char>)> {
    let n = name_len(s);
    if 0 < n <= s.len() {
        Some((s.take(n as int), s.skip(n as int)))
    } else {
        None
    }
}

/// The operator that `s` starts with, and what follows it.
pub open spec fn take_op(s: Seq<char>) -> Option<(Seq<char>, Seq<char>)> {
    let n = op_len(s);
    if 0 < n <= s.len() {
        Some((s.take(n as int), s.skip(n as int)))
    } else {
        None
    }
}

/// What follows `lit` where `s` starts with it.
pub open spec fn expect(s: Seq<char>, lit: Seq<char>) -> Option<Seq<char>> {
    if lit.len() <= s.len() && s.take(lit.len() as int) == lit {
        Some(s.skip(lit.len() as int))
    } else {
        None
    }
}

/// The names, separated by `", "`, that `s` starts with, and what follows
/// the last of them.
pub open spec fn take_names(s: Seq<char>) -> Option<(Seq<Seq<char>>, Seq<char>)>
    decreases s.len(),
{
    match take_name(s) {
        Some((n, r)) => match expect(r, ", "@) {
            Some(r2) => if r2.len() < s.len() {
                match take_names(r2) {
                    Some((ns, r3)) => Some((seq![n] + ns, r3)),
                    None => None,
                }
            } else {
                None
            },
            None => Some((seq![n], r)),
        },
        None => None,
    }
}

/// The assignments `column = :param`, separated by `", "`, that `s` starts
/// with, and what follows the last of them.
pub open spec fn take_assignments(s: Seq<char>) -> Option<(Seq<(Seq<char>, Seq<char>)>, Seq<char>)>
    decreases s.len(),
{
    match take_name(s) {
        Some((c, r)) => match expect(r, " = :"@) {
            Some(r1) => match take_name(r1) {
                Some((p, r2)) => match expect(r2, ", "@) {
                    Some(r3) => if r3.len() < s.len() {
                        match take_assignments(r3) {
                            Some((rest, r4)) => Some((seq![(c, p)] + rest, r4)),
                            None => None,
                        }
                    } else {
                        None
                    },
                    None => Some((seq![(c, p)], r2)),
                },
                None => None,
            },
            None => None,
        },
        None => None,
    }
}

/// The filter that `s` starts with, and what follows it.
pub open spec fn parse_filter(s: Seq<char>) -> Option<(Filter, Seq<char>)> {
    match take_name(s) {
        Some((column, r)) => match expect(r, " IN (SELECT "@) {
            Some(r1) => match take_name(r1) {
                Some((c2, r2)) => if c2 != column {
                    None
                } else {
                    match expect(r2, " FROM "@) {
                        Some(r3) => match take_name(r3) {
                            Some((table, r4)) => match expect(r4, " GROUP BY "@) {
                                Some(r5) => match take_names(r5) {
                                    Some((groups, r6)) => match expect(r6, " HAVING COUNT(*) > 1)"@) {
                                        Some(r7) => Some((Filter::Repeated { column, table, groups }, r7)),
                                        None => None,
                                    },
                                    None => None,
                                },
                                None => None,
                            },
                            None => None,
                        },
                        None => None,
                    }
                },
                None => None,
            },
            None => match expect(r, " "@) {
                Some(r1) => match take_op(r1) {
                    Some((op, r2)) => match expect(r2, " :"@) {
                        Some(r3) => match take_name(r3) {
                            Some((param, r4)) => Some((Filter::Compare { column, op, param }, r4)),
                            None => None,
                        },
                        None => None,
                    },
                    None => None,
                },
                None => None,
            },
        },
        None => None,
    }
}

/// A `drop table` statement, after its opening words.
pub open spec fn parse_drop(s: Seq<char>) -> Option<SqlStatement> {
    match take_name(s) {
        Some((table, r)) => if r == ";"@ {
            Some(SqlStatement::DropTable { table })
        } else {
            None
        },
        None => None,
    }
}

/// A `create table` statement, after its opening words.
pub open spec fn parse_create(s: Seq<char>) -> Option<SqlStatement> {
    match take_name(s) {
        Some((table, r)) => match expect(r, " "@) {
            Some(r1) => if r1.len() > 0 && r1.last() == ';' {
                Some(SqlStatement::CreateTable { table, definitions: r1.drop_last() })
            } else {
                None
            },
            None => None,
        },
        None => None,
    }
}

/// A query, after its opening word.
pub open spec fn parse_select(s: Seq<char>) -> Option<SqlStatement> {
    match take_names(s) {
        Some((columns, r)) => match expect(r, " FROM "@) {
            Some(r1) => match take_name(r1) {
                Some((table, r2)) => match expect(r2, " WHERE "@) {
                    Some(r3) => match parse_filter(r3) {
                        Some((filter, r4)) => if r4 == ";"@ {
                            Some(SqlStatement::Select { table, columns, filter, order: seq![] })
                        } else {
                            match expect(r4, " ORDER BY "@) {
                                Some(r5) => match take_names(r5) {
                                    Some((order, r6)) => if r6 == ";"@ {
                                        Some(SqlStatement::Select { table, columns, filter, order })
                                    } else {
                                        None
                                    },
                                    None => None,
                                },
                                None => None,
                            }
                        },
                        None => None,
                    },
                    None => None,
                },
                None => None,
            },
            None => None,
        },
        None => None,
    }
}

/// An update, after its opening word.
pub open spec fn parse_update(s: Seq<char>) -> Option<SqlStatement> {
    match take_name(s) {
        Some((table, r)) => match expect(r, " SET "@) {
            Some(r1) => match take_assignments(r1) {
                Some((set, r2)) => match expect(r2, " WHERE "@) {
                    Some(r3) => match parse_filter(r3) {
                        Some((filter, r4)) => if r4 == ";"@ {
                            Some(SqlStatement::Update { table, set, filter })
                        } else {
                            None
                        },
                        None => None,
                    },
                    None => None,
                },
                None => None,
            },
            None => None,
        },
        None => None,
    }
}

/// A delete, after its opening words.
pub open spec fn parse_delete(s: Seq<char>) -> Option<SqlStatement> {
    match take_name(s) {
        Some((table, r)) => match expect(r, " WHERE "@) {
            Some(r1) => match parse_filter(r1) {
                Some((filter, r2)) => if r2 == ";"@ {
                    Some(SqlStatement::Delete { table, filter })
                } else {
                    None
                },
                None => None,
            },
            None => None,
        },
        None => None,
    }
}

/// The statement that SQL text `text` spells, read off the text; `None`
/// for a text of none of the library's shapes.
#[verifier::opaque]
pub open spec fn parse(text: Seq<char>) -> Option<SqlStatement> {
    if let Some(r) = expect(text, "drop table if exists "@) {
        parse_drop(r)
    } else if let Some(r) = expect(text, "create table if not exists "@) {
        parse_create(r)
    } else if let Some(r) = expect(text, "SELECT "@) {
        parse_select(r)
    } else if let Some(r) = expect(text, "UPDATE "@) {
        parse_update(r)
    } else if let Some(r) = expect(text, "DELETE FROM "@) {
        parse_delete(r)
    } else {
        None
    }
}

/// Whether the names, operators and lists of filter `f` are well formed.
pub open spec fn filter_wf(f: Filter) -> bool {
    match f {
        Filter::Compare { column, op, param } => is_name(column) && is_op(op) && is_name(param),
        Filter::Repeated { column, table, groups } => {
            &&& is_name(column)
            &&& is_name(table)
            &&& groups.len() > 0
            &&& forall|i: int| 0 <= i < groups.len() ==> is_name(#[trigger] groups[i])
        },
    }
}

/// Whether the names, operators and lists of statement `s` are well formed.
pub open spec fn statement_wf(s: SqlStatement) -> bool {
    match s {
        SqlStatement::DropTable { table } => is_name(table),
        SqlStatement::CreateTable { table, .. } => is_name(table),
        SqlStatement::Select { table, columns, filter, order } => {
            &&& is_name(table)
            &&& columns.len() > 0
            &&& forall|i: int| 0 <= i < columns.len() ==> is_name(#[trigger] columns[i])
            &&& filter_wf(filter)
            &&& forall|i: int| 0 <= i < order.len() ==> is_name(#[trigger] order[i])
        },
        SqlStatement::Update { table, set, filter } => {
            &&& is_name(table)
            &&& set.len() > 0
            &&& forall|i: int| 0 <= i < set.len() ==> is_name(#[trigger] set[i].0) && is_name(set[i].1)
            &&& filter_wf(filter)
        },
        SqlStatement::Delete { table, filter } => is_name(table) && filter_wf(filter),
    }
}

/// What running SQL text `sql` with `params` on `db` leaves, as SQL
/// prescribes for the statement that the text spells.
pub open spec fn run_sql(sql: Seq<char>, params: Seq<(Seq<char>, SqlArg)>, db: Database) -> Option<Database> {
    match parse(sql) {
        Some(s) => run(s, params, db),
        None => None,
    }
}

/// Whether `rows` is an answer that SQL allows to the query that text
/// `sql` spells.
pub open spec fn answers_sql(
    sql: Seq<char>,
    params: Seq<(Seq<char>, SqlArg)>,
    db: Database,
    rows: Seq<Seq<SqlArg>>,
) -> bool {
    match parse(sql) {
        Some(s) => answers(s, params, db, rows),
        None => false,
    }
}

/// What running `calls` in order leaves; `None` where one is refused.
pub open spec fn run_calls(calls: Seq<DbCall>, db: Database) -> Option<Database>
    decreases calls.len(),
{
    if calls.len() == 0 {
        Some(db)
    } else {
        match run_calls(calls.drop_last(), db) {
            Some(before) => run_sql(calls.last().sql, calls.last().params, before),
            None => None,
        }
    }
}

/// A name followed by a character that cannot continue it is read whole.
proof fn lemma_name_len(x: Seq<char>, a: Seq<char>)
    requires
        is_name(x),
        a.len() == 0 || !is_name_char(a[0]),
    ensures
        name_len(x + a) == x.len(),
    decreases x.len(),
{
    let s = x + a;
    assert(is_name_char(x[0]));
    assert(s[0] == x[0]);
    assert(s.drop_first() =~= x.drop_first() + a);
    assert(name_len(s) == 1 + name_len(s.drop_first()));
    if x.len() == 1 {
        assert(x.drop_first() + a =~= a);
        assert(name_len(a) == 0);
    } else {
        assert forall|i: int| 0 <= i < x.drop_first().len() implies is_name_char(#[trigger] x.drop_first()[i]) by {
            assert(x.drop_first()[i] == x[i + 1]);
        }
        lemma_name_len(x.drop_first(), a);
    }
}

/// An operator followed by a character that cannot continue it is read
/// whole.
proof fn lemma_op_len(x: Seq<char>, a: Seq<char>)
    requires
        is_op(x),
        a.len() == 0 || !is_op_char(a[0]),
    ensures
        op_len(x + a) == x.len(),
    decreases x.len(),
{
    let s = x + a;
    assert(is_op_char(x[0]));
    assert(s[0] == x[0]);
    assert(s.drop_first() =~= x.drop_first() + a);
    assert(op_len(s) == 1 + op_len(s.drop_first()));
    if x.len() == 1 {
        assert(x.drop_first() + a =~= a);
        assert(op_len(a) == 0);
    } else {
        assert forall|i: int| 0 <= i < x.drop_first().len() implies is_op_char(#[trigger] x.drop_first()[i]) by {
            assert(x.drop_first()[i] == x[i + 1]);
        }
        lemma_op_len(x.drop_first(), a);
    }
}

/// A name followed by a character that cannot continue it is taken whole,
/// and what follows is left.
proof fn lemma_take_name(x: Seq<char>, a: Seq<char>)
    requires
        is_name(x),
        a.len() > 0,
        !is_name_char(a[0]),
    ensures
        take_name(x + a) == Some((x, a)),
{
    lemma_name_len(x, a);
    assert((x + a).take(x.len() as int) =~= x);
    assert((x + a).skip(x.len() as int) =~= a);
}

/// An operator followed by a character that cannot continue it is taken
/// whole, and what follows is left.
proof fn lemma_take_op(x: Seq<char>, a: Seq<char>)
    requires
        is_op(x),
        a.len() > 0,
        !is_op_char(a[0]),
    ensures
        take_op(x + a) == Some((x, a)),
{
    lemma_op_len(x, a);
    assert((x + a).take(x.len() as int) =~= x);
    assert((x + a).skip(x.len() as int) =~= a);
}

/// A text that starts with `lit` leaves what follows it.
proof fn lemma_expect(lit: Seq<char>, x: Seq<char>)
    ensures
        expect(lit + x, lit) == Some(x),
{
    assert((lit + x).take(lit.len() as int) =~= lit);
    assert((lit + x).skip(lit.len() as int) =~= x);
}

/// A text that differs from `lit` at a position within both does not
/// start with it.
proof fn lemma_expect_none(s: Seq<char>, lit: Seq<char>, i: int)
    requires
        0 <= i < lit.len(),
        i < s.len(),
        s[i] != lit[i],
    ensures
        expect(s, lit) is None,
{
    if lit.len() <= s.len() {
        assert(s.take(lit.len() as int)[i] == s[i]);
    }
}

/// Names joined by `", "` and followed by a character that starts neither
/// a name nor another `", "` are read back as they were.
proof fn lemma_take_names(xs: Seq<Seq<char>>, a: Seq<char>)
    requires
        xs.len() > 0,
        forall|i: int| 0 <= i < xs.len() ==> is_name(#[trigger] xs[i]),
        a.len() > 0,
        !is_name_char(a[0]),
        a[0] != ',',
    ensures
        take_names(join(xs) + a) == Some((xs, a)),
    decreases xs.len(),
{
    reveal_strlit(", ");
    assert(is_name(xs[0]));
    if xs.len() == 1 {
        lemma_take_name(xs[0], a);
        lemma_expect_none(a, ", "@, 0);
        assert(seq![xs[0]] =~= xs);
    } else {
        let rest = xs.drop_first();
        let b = ", "@ + (join(rest) + a);
        assert(join(xs) + a =~= xs[0] + b);
        lemma_take_name(xs[0], b);
        lemma_expect(", "@, join(rest) + a);
        assert forall|i: int| 0 <= i < rest.len() implies is_name(#[trigger] rest[i]) by {
            assert(rest[i] == xs[i + 1]);
        }
        lemma_take_names(rest, a);
        assert(seq![xs[0]] + rest =~= xs);
    }
}

/// Assignments joined by `", "` and followed by a character that starts
/// neither a name nor another `", "` are read back as they were.
proof fn lemma_take_assignments(set: Seq<(Seq<char>, Seq<char>)>, a: Seq<char>)
    requires
        set.len() > 0,
        forall|i: int| 0 <= i < set.len() ==> is_name(#[trigger] set[i].0) && is_name(set[i].1),
        a.len() > 0,
        !is_name_char(a[0]),
        a[0] != ',',
    ensures
        take_assignments(join(set.map_values(|x: (Seq<char>, Seq<char>)| render_assignment(x))) + a) == Some((set, a)),
    decreases set.len(),
{
    reveal_strlit(", ");
    reveal_strlit(" = :");
    let m = set.map_values(|x: (Seq<char>, Seq<char>)| render_assignment(x));
    assert(is_name(set[0].0) && is_name(set[0].1));
    let c = set[0].0;
    let p = set[0].1;
    if set.len() == 1 {
        let b = " = :"@ + (p + a);
        assert(join(m) + a =~= c + b);
        lemma_take_name(c, b);
        lemma_expect(" = :"@, p + a);
        lemma_take_name(p, a);
        lemma_expect_none(a, ", "@, 0);
        assert(seq![(c, p)] =~= set);
    } else {
        let rest = set.drop_first();
        let mr = rest.map_values(|x: (Seq<char>, Seq<char>)| render_assignment(x));
        assert(m.drop_first() =~= mr);
        let tail = ", "@ + (join(mr) + a);
        let b = " = :"@ + (p + tail);
        assert(join(m) + a =~= c + b);
        lemma_take_name(c, b);
        lemma_expect(" = :"@, p + tail);
        lemma_take_name(p, tail);
        lemma_expect(", "@, join(mr) + a);
        assert forall|i: int| 0 <= i < rest.len() implies is_name(#[trigger] rest[i].0) && is_name(rest[i].1) by {
            assert(rest[i] == set[i + 1]);
        }
        lemma_take_assignments(rest, a);
        assert(seq![(c, p)] + rest =~= set);
    }
}

/// A well-formed filter followed by a character that starts neither a name
/// nor a `", "` is read back as it was.
proof fn lemma_parse_filter(f: Filter, a: Seq<char>)
    requires
        filter_wf(f),
        a.len() > 0,
        !is_name_char(a[0]),
        a[0] != ',',
    ensures
        parse_filter(render_filter(f) + a) == Some((f, a)),
{
    reveal_strlit(" IN (SELECT ");
    reveal_strlit(" FROM ");
    reveal_strlit(" GROUP BY ");
    reveal_strlit(" HAVING COUNT(*) > 1)");
    reveal_strlit(" ");
    reveal_strlit(" :");
    match f {
        Filter::Compare { column, op, param } => {
            let r2 = " :"@ + (param + a);
            let r1 = op + r2;
            let r = " "@ + r1;
            assert(render_filter(f) + a =~= column + r);
            lemma_take_name(column, r);
            assert(is_op_char(op[0]));
            assert(r[1] == op[0]);
            lemma_expect_none(r, " IN (SELECT "@, 1);
            lemma_expect(" "@, r1);
            lemma_take_op(op, r2);
            lemma_expect(" :"@, param + a);
            lemma_take_name(param, a);
        },
        Filter::Repeated { column, table, groups } => {
            let r6 = " HAVING COUNT(*) > 1)"@ + a;
            let r5 = join(groups) + r6;
            let r4 = " GROUP BY "@ + r5;
            let r3 = table + r4;
            let r2 = " FROM "@ + r3;
            let r1 = column + r2;
            let r = " IN (SELECT "@ + r1;
            assert(render_filter(f) + a =~= column + r);
            lemma_take_name(column, r);
            lemma_expect(" IN (SELECT "@, r1);
            lemma_take_name(column, r2);
            lemma_expect(" FROM "@, r3);
            lemma_take_name(table, r4);
            lemma_expect(" GROUP BY "@, r5);
            lemma_take_names(groups, r6);
            lemma_expect(" HAVING COUNT(*) > 1)"@, a);
        },
    }
}

/// Reading back the text of a well-formed statement gives that statement:
/// the text spells exactly what it was written from.
pub proof fn lemma_parse_render(s: SqlStatement)
    requires
        statement_wf(s),
    ensures
        parse(render(s)) == Some(s),
{
    match s {
        SqlStatement::DropTable { table } => lemma_parse_render_drop(table),
        SqlStatement::CreateTable { table, definitions } => lemma_parse_render_create(table, definitions),
        SqlStatement::Select { table, columns, filter, order } => lemma_parse_render_select(table, columns, filter, order),
        SqlStatement::Update { table, set, filter } => lemma_parse_render_update(table, set, filter),
        SqlStatement::Delete { table, filter } => lemma_parse_render_delete(table, filter),
    }
}

/// The text of a `drop table` statement reads back as that statement.
proof fn lemma_parse_render_drop(table: Seq<char>)
    requires
        statement_wf(SqlStatement::DropTable { table }),
    ensures
        parse(render(SqlStatement::DropTable { table })) == Some(SqlStatement::DropTable { table }),
{
    reveal(parse);
    reveal_strlit(";");
    let text = render(SqlStatement::DropTable { table });
    let r = table + ";"@;
    assert(text =~= "drop table if exists "@ + r);
    lemma_expect("drop table if exists "@, r);
    lemma_take_name(table, ";"@);
}

/// The text of a `create table` statement reads back as that statement.
proof fn lemma_parse_render_create(table: Seq<char>, definitions: Seq<char>)
    requires
        statement_wf(SqlStatement::CreateTable { table, definitions }),
    ensures
        parse(render(SqlStatement::CreateTable { table, definitions })) == Some(SqlStatement::CreateTable { table, definitions }),
{
    reveal(parse);
    reveal_strlit("drop table if exists ");
    reveal_strlit("create table if not exists ");
    reveal_strlit(" ");
    reveal_strlit(";");
    let text = render(SqlStatement::CreateTable { table, definitions });
    let r1 = definitions + ";"@;
    let r0 = " "@ + r1;
    let r = table + r0;
    assert(text =~= "create table if not exists "@ + r);
    lemma_expect_none(text, "drop table if exists "@, 0);
    lemma_expect("create table if not exists "@, r);
    lemma_take_name(table, r0);
    lemma_expect(" "@, r1);
    assert(r1.drop_last() =~= definitions);
}

/// The text of a query reads back as that statement.
proof fn lemma_parse_render_select(table: Seq<char>, columns: Seq<Seq<char>>, filter: Filter, order: Seq<Seq<char>>)
    requires
        statement_wf(SqlStatement::Select { table, columns, filter, order }),
    ensures
        parse(render(SqlStatement::Select { table, columns, filter, order })) == Some(SqlStatement::Select { table, columns, filter, order }),
{
    reveal(parse);
    reveal_strlit("drop table if exists ");
    reveal_strlit("create table if not exists ");
    reveal_strlit("SELECT ");
    reveal_strlit(" FROM ");
    reveal_strlit(" WHERE ");
    reveal_strlit(" ORDER BY ");
    reveal_strlit(";");
    let text = render(SqlStatement::Select { table, columns, filter, order });
    let end = render_order(order) + ";"@;
    let r3 = render_filter(filter) + end;
    let r2 = " WHERE "@ + r3;
    let r1 = table + r2;
    let r0 = " FROM "@ + r1;
    let r = join(columns) + r0;
    assert(text =~= "SELECT "@ + r);
    lemma_expect_none(text, "drop table if exists "@, 0);
    lemma_expect_none(text, "create table if not exists "@, 0);
    lemma_expect("SELECT "@, r);
    lemma_take_names(columns, r0);
    lemma_expect(" FROM "@, r1);
    lemma_take_name(table, r2);
    lemma_expect(" WHERE "@, r3);
    if order.len() == 0 {
        assert(end =~= ";"@);
        lemma_parse_filter(filter, end);
        assert(order =~= seq![]);
    } else {
        let e1 = join(order) + ";"@;
        assert(end =~= " ORDER BY "@ + e1);
        lemma_parse_filter(filter, end);
        assert(end != ";"@) by {
            assert(end.len() != ";"@.len());
        }
        lemma_expect(" ORDER BY "@, e1);
        lemma_take_names(order, ";"@);
    }
}

/// The text of an update reads back as that statement.
proof fn lemma_parse_render_update(table: Seq<char>, set: Seq<(Seq<char>, Seq<char>)>, filter: Filter)
    requires
        statement_wf(SqlStatement::Update { table, set, filter }),
    ensures
        parse(render(SqlStatement::Update { table, set, filter })) == Some(SqlStatement::Update { table, set, filter }),
{
    reveal(parse);
    reveal_strlit("drop table if exists ");
    reveal_strlit("create table if not exists ");
    reveal_strlit("SELECT ");
    reveal_strlit("UPDATE ");
    reveal_strlit(" WHERE ");
    reveal_strlit(" SET ");
    reveal_strlit(";");
    let text = render(SqlStatement::Update { table, set, filter });
    let r3 = render_filter(filter) + ";"@;
    let r2 = " WHERE "@ + r3;
    let r1 = join(set.map_values(|a: (Seq<char>, Seq<char>)| render_assignment(a))) + r2;
    let r0 = " SET "@ + r1;
    let r = table + r0;
    assert(text =~= "UPDATE "@ + r);
    lemma_expect_none(text, "drop table if exists "@, 0);
    lemma_expect_none(text, "create table if not exists "@, 0);
    lemma_expect_none(text, "SELECT "@, 0);
    lemma_expect("UPDATE "@, r);
    lemma_take_name(table, r0);
    lemma_expect(" SET "@, r1);
    lemma_take_assignments(set, r2);
    lemma_expect(" WHERE "@, r3);
    lemma_parse_filter(filter, ";"@);
}

/// The text of a delete reads back as that statement.
proof fn lemma_parse_render_delete(table: Seq<char>, filter: Filter)
    requires
        statement_wf(SqlStatement::Delete { table, filter }),
    ensures
        parse(render(SqlStatement::Delete { table, filter })) == Some(SqlStatement::Delete { table, filter }),
{
    reveal(parse);
    reveal_strlit("drop table if exists ");
    reveal_strlit("create table if not exists ");
    reveal_strlit("SELECT ");
    reveal_strlit("UPDATE ");
    reveal_strlit("DELETE FROM ");
    reveal_strlit(" WHERE ");
    reveal_strlit(";");
    let text = render(SqlStatement::Delete { table, filter });
    let r1 = render_filter(filter) + ";"@;
    let r0 = " WHERE "@ + r1;
    let r = table + r0;
    assert(text =~= "DELETE FROM "@ + r);
    lemma_expect_none(text, "drop table if exists "@, 0);
    lemma_expect_none(text, "create table if not exists "@, 0);
    lemma_expect_none(text, "SELECT "@, 0);
    lemma_expect_none(text, "UPDATE "@, 0);
    lemma_expect("DELETE FROM "@, r);
    lemma_take_name(table, r0);
    lemma_expect(" WHERE "@, r1);
    lemma_parse_filter(filter, ";"@);
}

} // verus!
