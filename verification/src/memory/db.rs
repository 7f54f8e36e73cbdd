//! SQLite access: the schema, and the few statements through which every
//! query of the library reaches the database.
use rusqlite::types::Value;
use rusqlite::Connection;
use rusqlite::Row;
use vstd::prelude::*;

use crate::error::AppError;
use crate::memory::models::ROOT_NODE_UUID;

verus! {

#[verifier::external_type_specification]
#[verifier::external_body]
pub struct ExConnection(rusqlite::Connection);

#[verifier::external_type_specification]
#[verifier::external_body]
pub struct ExRusqliteError(rusqlite::Error);

#[verifier::external_type_specification]
#[verifier::external_body]
pub struct ExRow<'stmt>(rusqlite::Row<'stmt>);

#[verifier::external_type_specification]
#[verifier::external_body]
pub struct ExValue(rusqlite::types::Value);

/// A value bound to a statement parameter or read from a result column.
#[derive(Debug, Clone, PartialEq, Eq)]
pub enum SqlValue {
    Null,
    Integer(i64),
    Text(String),
}

/// How a result column is read (the Rust type it is read as).
#[derive(Debug, Clone, Copy, PartialEq, Eq)]
pub enum ColumnKind {
    /// `i64`
    Int,
    /// `i32`
    Int32,
    /// `Option<i64>`
    OptInt,
    /// `String`
    Text,
    /// `Option<String>`
    OptText,
}

/// `v` is a value that a column read as `k` can give.
pub open spec fn value_fits(v: SqlValue, k: ColumnKind) -> bool {
    match k {
        ColumnKind::Int => v is Integer,
        ColumnKind::Int32 => v matches SqlValue::Integer(i) && i32::MIN <= i <= i32::MAX,
        ColumnKind::OptInt => v is Integer || v is Null,
        ColumnKind::Text => v is Text,
        ColumnKind::OptText => v is Text || v is Null,
    }
}

/// A row holds one fitting value per requested column.
pub open spec fn row_fits(row: Seq<SqlValue>, kinds: Seq<ColumnKind>) -> bool {
    row.len() == kinds.len() && forall|j: int| 0 <= j < kinds.len() ==> value_fits(row[j], kinds[j])
}

/// Reads column `i` of a result row as `i64` (`Row::get`).
#[verifier::external_body]
fn column_i64(row: &Row, i: usize) -> Result<i64, rusqlite::Error> {
    row.get(i)
}

/// Reads column `i` of a result row as `i32` (`Row::get`).
#[verifier::external_body]
fn column_i32(row: &Row, i: usize) -> Result<i32, rusqlite::Error> {
    row.get(i)
}

/// Reads column `i` of a result row as `Option<i64>` (`Row::get`).
#[verifier::external_body]
fn column_opt_i64(row: &Row, i: usize) -> Result<Option<i64>, rusqlite::Error> {
    row.get(i)
}

/// Reads column `i` of a result row as `String` (`Row::get`).
#[verifier::external_body]
fn column_text(row: &Row, i: usize) -> Result<String, rusqlite::Error> {
    row.get(i)
}

/// Reads column `i` of a result row as `Option<String>` (`Row::get`).
#[verifier::external_body]
fn column_opt_text(row: &Row, i: usize) -> Result<Option<String>, rusqlite::Error> {
    row.get(i)
}

/// Reads the columns of one result row, each as its kind.
pub fn read_row(row: &Row, kinds: &Vec<ColumnKind>) -> (r: Result<Vec<SqlValue>, rusqlite::Error>)
    ensures
        r matches Ok(vs) ==> row_fits(vs@, kinds@),
{
    let mut out: Vec<SqlValue> = Vec::new();
    let mut i: usize = 0;
    while i < kinds.len()
        invariant
            i <= kinds@.len(),
            out@.len() == i,
            forall|j: int| 0 <= j < i ==> value_fits(out@[j], kinds@[j]),
        decreases kinds@.len() - i,
    {
        let v = match kinds[i] {
            ColumnKind::Int => match column_i64(row, i) {
                Ok(x) => SqlValue::Integer(x),
                Err(e) => return Err(e),
            },
            ColumnKind::Int32 => match column_i32(row, i) {
                Ok(x) => SqlValue::Integer(x as i64),
                Err(e) => return Err(e),
            },
            ColumnKind::OptInt => match column_opt_i64(row, i) {
                Ok(Some(x)) => SqlValue::Integer(x),
                Ok(None) => SqlValue::Null,
                Err(e) => return Err(e),
            },
            ColumnKind::Text => match column_text(row, i) {
                Ok(x) => SqlValue::Text(x),
                Err(e) => return Err(e),
            },
            ColumnKind::OptText => match column_opt_text(row, i) {
                Ok(Some(x)) => SqlValue::Text(x),
                Ok(None) => SqlValue::Null,
                Err(e) => return Err(e),
            },
        };
        out.push(v);
        i = i + 1;
    }
    Ok(out)
}

/// The rusqlite value of a parameter (`Value::Null`, `Value::Integer`,
/// `Value::Text`).
///
/// Trusted: nothing is claimed of the value, which Verus cannot see.
#[verifier::external_body]
fn sql_value(p: &SqlValue) -> Value {
    match p {
        SqlValue::Null => Value::Null,
        SqlValue::Integer(i) => Value::Integer(*i),
        SqlValue::Text(s) => Value::Text(s.clone()),
    }
}

/// The rusqlite values of the parameters, in order.
fn sql_values(params: &Vec<SqlValue>) -> (r: Vec<Value>)
    ensures
        r@.len() == params@.len(),
{
    let mut vals: Vec<Value> = Vec::new();
    let mut i: usize = 0;
    while i < params.len()
        invariant
            i <= params@.len(),
            vals@.len() == i,
        decreases params@.len() - i,
    {
        vals.push(sql_value(&params[i]));
        i = i + 1;
    }
    vals
}

/// A statement parameter as the record of statements sees it.
pub enum Param {
    Null,
    Int(i64),
    Text(Seq<char>),
}

/// The record of a parameter.
pub open spec fn param_of(v: SqlValue) -> Param {
    match v {
        SqlValue::Null => Param::Null,
        SqlValue::Integer(i) => Param::Int(i),
        SqlValue::Text(s) => Param::Text(s@),
    }
}

/// The record of a parameter list.
pub open spec fn params_of(ps: Seq<SqlValue>) -> Seq<Param> {
    Seq::new(ps.len(), |i: int| param_of(ps[i]))
}

/// What the database answered to a statement: the number of rows changed,
/// the rows of a query (each row as a whole, or each row read on its own),
/// whether a batch ran, the last inserted rowid, the rows last changed.
/// `None` is a failure.
pub enum Answer {
    Changed(Option<usize>),
    Rows(Option<Seq<Seq<SqlValue>>>),
    EachRow(Option<Seq<Option<Seq<SqlValue>>>>),
    Batch(bool),
    LastId(i64),
    Changes(u64),
}

/// One statement sent to the database and its answer.
pub struct DbCall {
    pub sql: Seq<char>,
    pub params: Seq<Param>,
    pub answer: Answer,
}

/// A connection with the record of every statement this library sent to it
/// through the connection, in order, and what each answered.
pub struct Db<'a> {
    conn: &'a Connection,
    journal: Ghost<Seq<DbCall>>,
}

impl<'a> Db<'a> {
    /// The statements sent so far and their answers.
    pub closed spec fn calls(self) -> Seq<DbCall> {
        self.journal@
    }

    /// Start recording the statements sent to `conn`.
    pub fn new(conn: &'a Connection) -> (d: Db<'a>)
        ensures
            d.calls() == Seq::<DbCall>::empty(),
    {
        Db { conn, journal: Ghost(Seq::empty()) }
    }
}

/// `new` is `old` followed by more statements.
pub open spec fn extends(new: Seq<DbCall>, old: Seq<DbCall>) -> bool {
    old.len() <= new.len() && forall|i: int| 0 <= i < old.len() ==> #[trigger] new[i] == old[i]
}

/// A record that extends one that extends a third extends the third.
pub proof fn lemma_extends_trans(a: Seq<DbCall>, b: Seq<DbCall>, c: Seq<DbCall>)
    requires
        extends(a, b),
        extends(b, c),
    ensures
        extends(a, c),
{
    assert forall|i: int| 0 <= i < c.len() implies #[trigger] a[i] == c[i] by {
        assert(a[i] == b[i]);
    }
}

/// A record with one more statement extends the record without it.
pub proof fn lemma_push_extends(s: Seq<DbCall>, c: DbCall)
    ensures
        extends(s.push(c), s),
{
    assert forall|i: int| 0 <= i < s.len() implies #[trigger] s.push(c)[i] == s[i] by {}
}

/// Statement `i` of `calls` is `sql` with parameters `params` and ran
/// without error.
pub open spec fn ran(calls: Seq<DbCall>, i: int, sql: Seq<char>, params: Seq<Param>) -> bool {
    0 <= i < calls.len() && calls[i].sql == sql && calls[i].params == params
        && calls[i].answer matches Answer::Changed(Some(_))
}

/// Statement `i` of `calls` is the query `sql` with parameters `params`,
/// answered with `rows`.
pub open spec fn answered(
    calls: Seq<DbCall>,
    i: int,
    sql: Seq<char>,
    params: Seq<Param>,
    rows: Seq<Seq<SqlValue>>,
) -> bool {
    0 <= i < calls.len() && calls[i].sql == sql && calls[i].params == params && calls[i].answer
        == Answer::Rows(Some(rows))
}

/// Statement `i` of `calls` ran `sql` with `params`, and the next one read
/// back `id` as the rowid it inserted.
pub open spec fn inserted(calls: Seq<DbCall>, i: int, sql: Seq<char>, params: Seq<Param>, id: i64) -> bool {
    ran(calls, i, sql, params) && i + 1 < calls.len() && calls[i + 1].answer == Answer::LastId(id)
}

/// `new` is `old` followed by exactly `n` more statements.
pub open spec fn extends_by(new: Seq<DbCall>, old: Seq<DbCall>, n: int) -> bool {
    extends(new, old) && new.len() == old.len() + n
}

/// Statement `i` of `calls` is `sql` with parameters `params` (whatever it
/// answered).
pub open spec fn sent(calls: Seq<DbCall>, i: int, sql: Seq<char>, params: Seq<Param>) -> bool {
    0 <= i < calls.len() && calls[i].sql == sql && calls[i].params == params
}

/// The rows that query `i` of `calls` answered (none where it failed).
pub open spec fn rows_answer(calls: Seq<DbCall>, i: int) -> Seq<Seq<SqlValue>> {
    match calls[i].answer {
        Answer::Rows(Some(rows)) => rows,
        _ => Seq::<Seq<SqlValue>>::empty(),
    }
}

/// The rowid that statement `i` of `calls` read back (0 for other
/// statements).
pub open spec fn id_answer(calls: Seq<DbCall>, i: int) -> i64 {
    match calls[i].answer {
        Answer::LastId(id) => id,
        _ => 0,
    }
}

/// The number of changed rows that statement `i` of `calls` read back (0 for
/// other statements).
pub open spec fn changes_answer(calls: Seq<DbCall>, i: int) -> u64 {
    match calls[i].answer {
        Answer::Changes(n) => n,
        _ => 0,
    }
}

/// The number of rows that statement `i` of `calls` changed (0 for other
/// statements or a failure).
pub open spec fn changed_answer(calls: Seq<DbCall>, i: int) -> usize {
    match calls[i].answer {
        Answer::Changed(Some(n)) => n,
        _ => 0,
    }
}

/// The texts in the first column of `rows`.
pub open spec fn first_texts(rows: Seq<Seq<SqlValue>>) -> Seq<Seq<char>> {
    Seq::new(rows.len(), |i: int| text_of(rows[i][0]))
}

/// Query `i` of `calls` answered with rows (possibly none).
pub open spec fn query_ok(calls: Seq<DbCall>, i: int) -> bool {
    calls[i].answer matches Answer::Rows(Some(_))
}

/// Query `i` of `calls` answered at least one row.
pub open spec fn has_row(calls: Seq<DbCall>, i: int) -> bool {
    calls[i].answer matches Answer::Rows(Some(rows)) && rows.len() > 0
}

/// The rows of a query result, each by its values.
pub open spec fn rows_of(rows: Seq<Vec<SqlValue>>) -> Seq<Seq<SqlValue>> {
    Seq::new(rows.len(), |i: int| rows[i]@)
}

/// Runs one statement with positional parameters (`Connection::execute`)
/// and returns the number of rows it changed.
///
/// Trusted: nothing is claimed of the result, which depends on the database.
#[verifier::external_body]
fn execute_values(conn: &Connection, sql: &str, vals: Vec<Value>) -> Result<usize, rusqlite::Error> {
    conn.execute(sql, rusqlite::params_from_iter(vals))
}

/// Runs one statement with positional parameters and returns the number of
/// rows it changed; the statement and its answer are recorded.
pub(crate) fn db_execute(conn: &mut Db, sql: &str, params: &Vec<SqlValue>) -> (r: Result<
    usize,
    rusqlite::Error,
>)
    ensures
        final(conn).calls() == old(conn).calls().push(
            DbCall {
                sql: sql@,
                params: params_of(params@),
                answer: Answer::Changed(
                    match r {
                        Ok(n) => Some(n),
                        Err(_) => None,
                    },
                ),
            },
        ),
{
    let r = execute_values(conn.conn, sql, sql_values(params));
    conn.journal = Ghost(
        conn.journal@.push(
            DbCall {
                sql: sql@,
                params: params_of(params@),
                answer: Answer::Changed(
                    match &r {
                        Ok(n) => Some(*n),
                        Err(_) => None,
                    },
                ),
            },
        ),
    );
    r
}

/// Runs one query with positional parameters (`Connection::prepare`, then
/// `Statement::query_map`) and collects every result row, each read by
/// `read_row`.
///
/// Trusted: the contract claims only that each row came out of `read_row`
/// (so its values fit `kinds`); which rows come back depends on the database.
#[verifier::external_body]
fn query_values(
    conn: &Connection,
    sql: &str,
    vals: Vec<Value>,
    kinds: &Vec<ColumnKind>,
) -> (r: Result<Vec<Vec<SqlValue>>, rusqlite::Error>)
    ensures
        r matches Ok(rows) ==> forall|i: int| 0 <= i < rows@.len() ==> row_fits(#[trigger] rows@[i]@, kinds@),
{
    let mut stmt = conn.prepare(sql)?;
    let rows = stmt.query_map(rusqlite::params_from_iter(vals), |row| read_row(row, kinds))?;
    rows.collect()
}

/// Runs one query with positional parameters and collects every result row,
/// each read as `kinds` says; the query and its rows are recorded.
pub(crate) fn db_query(
    conn: &mut Db,
    sql: &str,
    params: &Vec<SqlValue>,
    kinds: &Vec<ColumnKind>,
) -> (r: Result<Vec<Vec<SqlValue>>, rusqlite::Error>)
    ensures
        r matches Ok(rows) ==> forall|i: int| 0 <= i < rows@.len() ==> row_fits(#[trigger] rows@[i]@, kinds@),
        final(conn).calls() == old(conn).calls().push(
            DbCall {
                sql: sql@,
                params: params_of(params@),
                answer: Answer::Rows(
                    match r {
                        Ok(rows) => Some(rows_of(rows@)),
                        Err(_) => None,
                    },
                ),
            },
        ),
{
    let r = query_values(conn.conn, sql, sql_values(params), kinds);
    conn.journal = Ghost(
        conn.journal@.push(
            DbCall {
                sql: sql@,
                params: params_of(params@),
                answer: Answer::Rows(
                    match &r {
                        Ok(rows) => Some(rows_of(rows@)),
                        Err(_) => None,
                    },
                ),
            },
        ),
    );
    r
}

/// Runs one query with positional parameters (`Connection::prepare`, then
/// `Statement::query_map`), reading each row by `read_row` on its own: a row
/// that cannot be read is `None` (`Result::ok`).
///
/// Trusted: the contract claims only that each row read came out of
/// `read_row`; which rows come back depends on the database.
#[verifier::external_body]
fn query_values_each(
    conn: &Connection,
    sql: &str,
    vals: Vec<Value>,
    kinds: &Vec<ColumnKind>,
) -> (r: Result<Vec<Option<Vec<SqlValue>>>, rusqlite::Error>)
    ensures
        r matches Ok(rows) ==> forall|i: int|
            0 <= i < rows@.len() ==> (#[trigger] rows@[i] matches Some(row) ==> row_fits(row@, kinds@)),
{
    let mut stmt = conn.prepare(sql)?;
    let rows = stmt.query_map(rusqlite::params_from_iter(vals), |row| read_row(row, kinds))?;
    Ok(rows.map(|r| r.ok()).collect())
}

/// The rows of a lenient query result, each by its values where it was read.
pub open spec fn each_rows_of(rows: Seq<Option<Vec<SqlValue>>>) -> Seq<Option<Seq<SqlValue>>> {
    Seq::new(
        rows.len(),
        |i: int|
            match rows[i] {
                Some(row) => Some(row@),
                None => None,
            },
    )
}

/// Runs one query and reads each row on its own, a row that cannot be read
/// being `None`; the query and its rows are recorded.
pub(crate) fn db_query_each(
    conn: &mut Db,
    sql: &str,
    params: &Vec<SqlValue>,
    kinds: &Vec<ColumnKind>,
) -> (r: Result<Vec<Option<Vec<SqlValue>>>, rusqlite::Error>)
    ensures
        r matches Ok(rows) ==> forall|i: int|
            0 <= i < rows@.len() ==> (#[trigger] rows@[i] matches Some(row) ==> row_fits(row@, kinds@)),
        final(conn).calls() == old(conn).calls().push(
            DbCall {
                sql: sql@,
                params: params_of(params@),
                answer: Answer::EachRow(
                    match r {
                        Ok(rows) => Some(each_rows_of(rows@)),
                        Err(_) => None,
                    },
                ),
            },
        ),
{
    let r = query_values_each(conn.conn, sql, sql_values(params), kinds);
    conn.journal = Ghost(
        conn.journal@.push(
            DbCall {
                sql: sql@,
                params: params_of(params@),
                answer: Answer::EachRow(
                    match &r {
                        Ok(rows) => Some(each_rows_of(rows@)),
                        Err(_) => None,
                    },
                ),
            },
        ),
    );
    r
}

/// Runs a batch of statements without parameters (`Connection::execute_batch`).
///
/// Trusted: nothing is claimed of the result.
#[verifier::external_body]
fn execute_batch(conn: &Connection, sql: &str) -> Result<(), rusqlite::Error> {
    conn.execute_batch(sql)
}

/// Runs a batch of statements without parameters; the batch and whether it
/// ran are recorded.
pub(crate) fn db_execute_batch(conn: &mut Db, sql: &str) -> (r: Result<(), rusqlite::Error>)
    ensures
        final(conn).calls() == old(conn).calls().push(
            DbCall { sql: sql@, params: Seq::empty(), answer: Answer::Batch(r is Ok) },
        ),
{
    let r = execute_batch(conn.conn, sql);
    conn.journal = Ghost(
        conn.journal@.push(DbCall { sql: sql@, params: Seq::empty(), answer: Answer::Batch(r is Ok) }),
    );
    r
}

/// The rowid of the most recent successful INSERT (`Connection::last_insert_rowid`).
///
/// Trusted: nothing is claimed of the result.
#[verifier::external_body]
fn last_insert_rowid(conn: &Connection) -> i64 {
    conn.last_insert_rowid()
}

/// The rowid of the most recent successful INSERT; recorded.
pub(crate) fn db_last_insert_rowid(conn: &mut Db) -> (r: i64)
    ensures
        final(conn).calls() == old(conn).calls().push(
            DbCall { sql: Seq::empty(), params: Seq::empty(), answer: Answer::LastId(r) },
        ),
{
    let r = last_insert_rowid(conn.conn);
    conn.journal = Ghost(
        conn.journal@.push(DbCall { sql: Seq::empty(), params: Seq::empty(), answer: Answer::LastId(r) }),
    );
    r
}

/// The number of rows changed by the most recent statement (`Connection::changes`).
///
/// Trusted: nothing is claimed of the result.
#[verifier::external_body]
fn changes(conn: &Connection) -> u64 {
    conn.changes()
}

/// The number of rows changed by the most recent statement; recorded.
pub(crate) fn db_changes(conn: &mut Db) -> (r: u64)
    ensures
        final(conn).calls() == old(conn).calls().push(
            DbCall { sql: Seq::empty(), params: Seq::empty(), answer: Answer::Changes(r) },
        ),
{
    let r = changes(conn.conn);
    conn.journal = Ghost(
        conn.journal@.push(DbCall { sql: Seq::empty(), params: Seq::empty(), answer: Answer::Changes(r) }),
    );
    r
}

/// The text of a database error (its `Display`).
///
/// Trusted: nothing is claimed of the text.
#[verifier::external_body]
pub(crate) fn db_error_text(e: &rusqlite::Error) -> String {
    e.to_string()
}

/// The error that rusqlite reports when a single-row query finds no row
/// (`rusqlite::Error::QueryReturnedNoRows`).
///
/// Trusted: nothing is claimed of the value.
#[verifier::external_body]
pub(crate) fn no_rows_error() -> rusqlite::Error {
    rusqlite::Error::QueryReturnedNoRows
}

/// The text of a database error reported under a context message: what the
/// error of a failed background database call displays as.
pub open spec fn db_err_msg(msg: Seq<char>, text: Seq<char>) -> Seq<char> {
    msg + ": Error(\""@ + text + "\")"@
}

/// `e` is a database error reported under context `msg`.
pub open spec fn is_db_err(e: AppError, msg: Seq<char>) -> bool {
    exists|t: Seq<char>| #[trigger] db_err_msg(msg, t) == e->Internal_0@ && e is Internal
}

/// Convert a database error to `AppError::Internal` with a context message.
pub fn map_db_err(msg: &str, e: &rusqlite::Error) -> (r: AppError)
    ensures
        is_db_err(r, msg@),
{
    let t = db_error_text(e);
    let mut s = String::from_str(msg);
    s.append(": Error(\"");
    s.append(t.as_str());
    s.append("\")");
    let r = AppError::Internal(s);
    assert(db_err_msg(msg@, t@) == r->Internal_0@);
    r
}

/// The first row of a query, if any.
pub fn query_first(
    conn: &mut Db,
    sql: &str,
    params: &Vec<SqlValue>,
    kinds: &Vec<ColumnKind>,
) -> (r: Result<Option<Vec<SqlValue>>, rusqlite::Error>)
    ensures
        r matches Ok(Some(row)) ==> row_fits(row@, kinds@),
        final(conn).calls().len() == old(conn).calls().len() + 1,
        extends(final(conn).calls(), old(conn).calls()),
        final(conn).calls().last().sql == sql@,
        final(conn).calls().last().params == params_of(params@),
        match r {
            Ok(Some(row)) => final(conn).calls().last().answer matches Answer::Rows(Some(rows))
                && rows.len() > 0 && rows[0] == row@,
            Ok(None) => final(conn).calls().last().answer matches Answer::Rows(Some(rows))
                && rows.len() == 0,
            Err(_) => final(conn).calls().last().answer == Answer::Rows(None),
        },
{
    match db_query(conn, sql, params, kinds) {
        Ok(rows) => {
            if rows.len() == 0 {
                Ok(None)
            } else {
                let mut rows = rows;
                assert(row_fits(rows@[0]@, kinds@));
                let ghost first = rows@[0]@;
                let row = rows.remove(0);
                assert(row@ == first);
                Ok(Some(row))
            }
        },
        Err(e) => Err(e),
    }
}

/// The first row of a query; an error where there is none
/// (`Connection::query_row`).
pub fn query_one(
    conn: &mut Db,
    sql: &str,
    params: &Vec<SqlValue>,
    kinds: &Vec<ColumnKind>,
) -> (r: Result<Vec<SqlValue>, rusqlite::Error>)
    ensures
        r matches Ok(row) ==> row_fits(row@, kinds@),
        final(conn).calls().len() == old(conn).calls().len() + 1,
        extends(final(conn).calls(), old(conn).calls()),
        final(conn).calls().last().sql == sql@,
        final(conn).calls().last().params == params_of(params@),
        r matches Ok(row) ==> final(conn).calls().last().answer matches Answer::Rows(Some(rows))
            && rows.len() > 0 && rows[0] == row@,
        r is Err ==> !has_row(final(conn).calls(), old(conn).calls().len() as int),
{
    match query_first(conn, sql, params, kinds) {
        Ok(Some(row)) => Ok(row),
        Ok(None) => Err(no_rows_error()),
        Err(e) => Err(e),
    }
}

/// The integer held by a value (0 for other values).
pub open spec fn int_of(v: SqlValue) -> i64 {
    match v {
        SqlValue::Integer(i) => i,
        _ => 0,
    }
}

/// The text held by a value (empty for other values).
pub open spec fn text_of(v: SqlValue) -> Seq<char> {
    match v {
        SqlValue::Text(s) => s@,
        _ => Seq::<char>::empty(),
    }
}

/// The integer held by a value, `None` for other values.
pub open spec fn opt_int_of(v: SqlValue) -> Option<i64> {
    match v {
        SqlValue::Integer(i) => Some(i),
        _ => None,
    }
}

/// `o` holds the text that `v` holds, or is `None` where `v` holds none.
pub open spec fn opt_text_is(o: Option<String>, v: SqlValue) -> bool {
    match v {
        SqlValue::Text(s) => o matches Some(t) && t@ == s@,
        _ => o is None,
    }
}

pub fn get_int(row: &Vec<SqlValue>, j: usize) -> (r: i64)
    requires
        j < row@.len(),
    ensures
        r == int_of(row@[j as int]),
{
    match &row[j] {
        SqlValue::Integer(i) => *i,
        _ => 0,
    }
}

pub fn get_i32(row: &Vec<SqlValue>, j: usize) -> (r: i32)
    requires
        j < row@.len(),
        row@[j as int] matches SqlValue::Integer(i) ==> i32::MIN <= i <= i32::MAX,
    ensures
        r == int_of(row@[j as int]),
{
    match &row[j] {
        SqlValue::Integer(i) => *i as i32,
        _ => 0,
    }
}

pub fn get_opt_int(row: &Vec<SqlValue>, j: usize) -> (r: Option<i64>)
    requires
        j < row@.len(),
    ensures
        r == (match row@[j as int] {
            SqlValue::Integer(i) => Some(i),
            _ => None,
        }),
{
    match &row[j] {
        SqlValue::Integer(i) => Some(*i),
        _ => None,
    }
}

pub fn get_text(row: &Vec<SqlValue>, j: usize) -> (r: String)
    requires
        j < row@.len(),
    ensures
        r@ == text_of(row@[j as int]),
{
    match &row[j] {
        SqlValue::Text(s) => s.clone(),
        _ => String::new(),
    }
}

pub fn get_opt_text(row: &Vec<SqlValue>, j: usize) -> (r: Option<String>)
    requires
        j < row@.len(),
    ensures
        match row@[j as int] {
            SqlValue::Text(s) => r matches Some(t) && t@ == s@,
            _ => r is None,
        },
{
    match &row[j] {
        SqlValue::Text(s) => Some(s.clone()),
        _ => None,
    }
}

/// A text parameter.
pub fn text_param(s: &str) -> (v: SqlValue)
    ensures
        v matches SqlValue::Text(t) && t@ == s@,
{
    SqlValue::Text(String::from_str(s))
}

/// An optional text parameter (`NULL` for `None`).
pub fn opt_text_param(s: Option<&str>) -> (v: SqlValue)
    ensures
        match s {
            Some(t) => v matches SqlValue::Text(u) && u@ == t@,
            None => v is Null,
        },
{
    match s {
        Some(t) => SqlValue::Text(String::from_str(t)),
        None => SqlValue::Null,
    }
}

/// The schema of every table.
pub const SCHEMA: &'static str = "
CREATE TABLE IF NOT EXISTS nodes (
    uuid TEXT PRIMARY KEY,
    created_at TEXT NOT NULL DEFAULT (datetime('now'))
);

CREATE TABLE IF NOT EXISTS memories (
    id INTEGER PRIMARY KEY AUTOINCREMENT,
    node_uuid TEXT REFERENCES nodes(uuid),
    content TEXT NOT NULL,
    deprecated INTEGER NOT NULL DEFAULT 0,
    migrated_to INTEGER,
    created_at TEXT NOT NULL DEFAULT (datetime('now'))
);

CREATE TABLE IF NOT EXISTS edges (
    id INTEGER PRIMARY KEY AUTOINCREMENT,
    parent_uuid TEXT NOT NULL REFERENCES nodes(uuid),
    child_uuid TEXT NOT NULL REFERENCES nodes(uuid),
    name TEXT NOT NULL,
    priority INTEGER NOT NULL DEFAULT 0,
    disclosure TEXT,
    created_at TEXT NOT NULL DEFAULT (datetime('now')),
    UNIQUE(parent_uuid, child_uuid)
);

CREATE TABLE IF NOT EXISTS paths (
    domain TEXT NOT NULL DEFAULT 'core',
    path TEXT NOT NULL,
    edge_id INTEGER REFERENCES edges(id),
    created_at TEXT NOT NULL DEFAULT (datetime('now')),
    PRIMARY KEY (domain, path)
);

CREATE TABLE IF NOT EXISTS glossary_keywords (
    id INTEGER PRIMARY KEY AUTOINCREMENT,
    keyword TEXT NOT NULL,
    node_uuid TEXT NOT NULL REFERENCES nodes(uuid) ON DELETE CASCADE,
    created_at TEXT NOT NULL DEFAULT (datetime('now')),
    UNIQUE(keyword, node_uuid)
);

CREATE TABLE IF NOT EXISTS search_documents (
    domain TEXT NOT NULL,
    path TEXT NOT NULL,
    node_uuid TEXT NOT NULL,
    memory_id INTEGER NOT NULL,
    uri TEXT NOT NULL,
    content TEXT NOT NULL,
    disclosure TEXT,
    search_terms TEXT NOT NULL DEFAULT '',
    priority INTEGER NOT NULL DEFAULT 0,
    updated_at TEXT NOT NULL DEFAULT (datetime('now')),
    PRIMARY KEY (domain, path)
);

CREATE TABLE IF NOT EXISTS conversations (
    id TEXT PRIMARY KEY,
    title TEXT NOT NULL,
    created_at TEXT NOT NULL,
    updated_at TEXT NOT NULL
);

CREATE TABLE IF NOT EXISTS messages (
    id TEXT PRIMARY KEY,
    conversation_id TEXT NOT NULL REFERENCES conversations(id) ON DELETE CASCADE,
    role TEXT NOT NULL CHECK(role IN ('user', 'assistant')),
    content TEXT NOT NULL,
    created_at TEXT NOT NULL
);

CREATE INDEX IF NOT EXISTS idx_messages_conversation ON messages(conversation_id);
CREATE INDEX IF NOT EXISTS idx_memories_node ON memories(node_uuid);
CREATE INDEX IF NOT EXISTS idx_edges_parent ON edges(parent_uuid);
CREATE INDEX IF NOT EXISTS idx_edges_child ON edges(child_uuid);
";

/// Initialize all tables on an open connection: WAL journal, foreign keys,
/// the schema, the root node and the full-text index.
///
/// Returns `AppError::Internal` if any step fails, with the step's context.
pub fn init_db(conn: &mut Db) -> (r: Result<(), AppError>)
    ensures
        extends(final(conn).calls(), old(conn).calls()),
        r matches Err(e) ==> is_db_err(e, "Failed to create schema"@) || is_db_err(
            e,
            "Failed to create root node"@,
        ) || is_db_err(e, "Failed to create FTS table"@),
        r is Ok ==> init_record(final(conn).calls(), old(conn).calls().len() as int),
{
    let ghost o = conn.calls().len() as int;
    let r0 = db_execute_batch(conn, WAL_SQL);
    let ghost c0 = conn.calls();
    proof {
        lemma_push_extends(old(conn).calls(), c0.last());
        assert(c0 =~= old(conn).calls().push(c0.last()));
    }
    if let Err(e) = r0 {
        return Err(map_db_err("Failed to create schema", &e));
    }
    let r1 = db_execute_batch(conn, FOREIGN_KEYS_SQL);
    let ghost c1 = conn.calls();
    proof {
        lemma_push_extends(c0, c1.last());
        assert(c1 =~= c0.push(c1.last()));
        lemma_extends_trans(c1, c0, old(conn).calls());
    }
    if let Err(e) = r1 {
        return Err(map_db_err("Failed to create schema", &e));
    }
    let r2 = db_execute_batch(conn, SCHEMA);
    let ghost c2 = conn.calls();
    proof {
        lemma_push_extends(c1, c2.last());
        assert(c2 =~= c1.push(c2.last()));
        lemma_extends_trans(c2, c1, old(conn).calls());
    }
    if let Err(e) = r2 {
        return Err(map_db_err("Failed to create schema", &e));
    }
    ensure_root_node(conn)?;
    let ghost c3 = conn.calls();
    proof {
        lemma_extends_trans(c3, c2, old(conn).calls());
    }
    init_fts(conn)?;
    let ghost c4 = conn.calls();
    assert(c4[o] == c0[o] && c4[o + 1] == c1[o + 1] && c4[o + 2] == c2[o + 2] && c4[o + 3] == c3[o + 3]);
    Ok(())
}

/// The statement that selects write-ahead logging.
pub const WAL_SQL: &'static str = "PRAGMA journal_mode=WAL;";

/// The statement that turns foreign key checks on.
pub const FOREIGN_KEYS_SQL: &'static str = "PRAGMA foreign_keys=ON;";

/// The statement that creates the root node unless it exists.
pub const ROOT_NODE_SQL: &'static str = "INSERT OR IGNORE INTO nodes (uuid) VALUES (?1)";

/// The statement that creates the full-text table unless it exists.
pub const FTS_SQL: &'static str = "CREATE VIRTUAL TABLE IF NOT EXISTS search_fts USING fts5(uri, content, disclosure, search_terms, tokenize = 'unicode61');";

/// Statement `i` of `calls` is the batch `sql`, and it ran.
pub open spec fn batch_ran(calls: Seq<DbCall>, i: int, sql: Seq<char>) -> bool {
    0 <= i < calls.len() && calls[i].sql == sql && calls[i].params == Seq::<Param>::empty()
        && calls[i].answer == Answer::Batch(true)
}

/// The record of a database set-up from statement `o` on: write-ahead
/// logging, foreign keys, the schema, the root node and the full-text table,
/// each run in that order; nothing else.
pub open spec fn init_record(calls: Seq<DbCall>, o: int) -> bool {
    &&& batch_ran(calls, o, WAL_SQL@)
    &&& batch_ran(calls, o + 1, FOREIGN_KEYS_SQL@)
    &&& batch_ran(calls, o + 2, SCHEMA@)
    &&& ran(calls, o + 3, ROOT_NODE_SQL@, seq![Param::Text(ROOT_NODE_UUID@)])
    &&& batch_ran(calls, o + 4, FTS_SQL@)
    &&& calls.len() == o + 5
}

/// Ensure the root sentinel node exists.
fn ensure_root_node(conn: &mut Db) -> (r: Result<(), AppError>)
    ensures
        extends_by(final(conn).calls(), old(conn).calls(), 1),
        r is Ok ==> ran(final(conn).calls(), old(conn).calls().len() as int, ROOT_NODE_SQL@, seq![Param::Text(ROOT_NODE_UUID@)]),
        r matches Err(e) ==> is_db_err(e, "Failed to create root node"@),
{
    let params = vec![text_param(ROOT_NODE_UUID)];
    assert(params_of(params@) =~= seq![Param::Text(ROOT_NODE_UUID@)]);
    let res = db_execute(conn, ROOT_NODE_SQL, &params);
    proof {
        lemma_push_extends(old(conn).calls(), conn.calls().last());
        assert(conn.calls() =~= old(conn).calls().push(conn.calls().last()));
    }
    match res {
        Ok(_) => Ok(()),
        Err(e) => Err(map_db_err("Failed to create root node", &e)),
    }
}

/// Initialize the FTS5 virtual table.
fn init_fts(conn: &mut Db) -> (r: Result<(), AppError>)
    ensures
        extends_by(final(conn).calls(), old(conn).calls(), 1),
        r is Ok ==> batch_ran(final(conn).calls(), old(conn).calls().len() as int, FTS_SQL@),
        r matches Err(e) ==> is_db_err(e, "Failed to create FTS table"@),
{
    let res = db_execute_batch(conn, FTS_SQL);
    proof {
        lemma_push_extends(old(conn).calls(), conn.calls().last());
        assert(conn.calls() =~= old(conn).calls().push(conn.calls().last()));
    }
    match res {
        Ok(_) => Ok(()),
        Err(e) => Err(map_db_err("Failed to create FTS table", &e)),
    }
}

} // verus!
