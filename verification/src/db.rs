//! SQLite persistence for ratings, bookmarks, notes, and directory records.
//! Opened in WAL mode for graceful concurrent-instance behaviour.
//!
//! Sparse storage: only images that have at least one of (rating, bookmark,
//! note) keep a row in the `images` table; a row that becomes empty is
//! deleted right after the change that emptied it.
//!
//! The database lives in a file that other instances may change between two
//! calls, so what a query returns is not known in advance. The contracts
//! state what holds of every answer: how the rows SQLite returns are decoded
//! into records, which statements run with which parameters, and what the
//! library itself filters.

use vstd::prelude::*;
use vstd::utf8::{decode_utf8, valid_utf8};
use crate::session::{filter_accepts, RatingFilter};

verus! {

#[verifier::external_type_specification]
#[verifier::external_body]
pub struct ExConnection(rusqlite::Connection);

#[verifier::external_type_specification]
#[verifier::external_body]
pub struct ExSqliteError(rusqlite::Error);

#[verifier::external_type_specification]
#[verifier::external_body]
pub struct ExRow<'stmt>(rusqlite::Row<'stmt>);

/// A statement parameter.
#[derive(Debug, Clone, PartialEq, Eq)]
pub enum SqlParam {
    Null,
    Integer(i64),
    Text(String),
}

/// A column value of a result row. Text keeps its raw bytes; real numbers
/// and blobs are only told apart, as no column here holds one.
#[derive(Debug, Clone)]
pub enum SqlValue {
    Null,
    Integer(i64),
    Real,
    Text(Vec<u8>),
    Blob,
}

/// Why a database call failed.
#[derive(Debug)]
pub enum DbError {
    /// SQLite reported an error.
    Sqlite(rusqlite::Error),
    /// The column at this index does not hold the expected type.
    InvalidColumnType(usize),
    /// The text in the column at this index is not valid UTF-8.
    InvalidUtf8(usize),
}

// ---------------------------------------------------------------------------
// Record types
// ---------------------------------------------------------------------------

#[derive(Debug, Clone)]
pub struct DirectoryRecord {
    pub id: i64,
    pub uuid: String,
    pub path: String,
    pub sort_override: Option<String>,
    pub created_at: i64,
    pub path_last_verified_at: Option<i64>,
}

#[derive(Debug, Clone)]
pub struct ImageRecord {
    pub id: i64,
    pub directory_id: i64,
    pub filename: String,
    pub file_size: i64,
    pub file_modified_at: i64,
    pub rating: Option<u8>,
    pub bookmarked: bool,
    pub note: Option<String>,
    pub created_at: i64,
    pub updated_at: i64,
}

// ---------------------------------------------------------------------------
// Decoding columns
// ---------------------------------------------------------------------------

/// The integer a column holds, if it holds one.
pub open spec fn int_col(v: SqlValue) -> Option<i64> {
    match v {
        SqlValue::Integer(i) => Some(i),
        _ => None,
    }
}

/// The text a column holds, if it holds valid UTF-8 text.
pub open spec fn text_col(v: SqlValue) -> Option<Seq<char>> {
    match v {
        SqlValue::Text(b) => if valid_utf8(b@) { Some(decode_utf8(b@)) } else { None },
        _ => None,
    }
}

/// A nullable integer column: `Some(None)` for NULL.
pub open spec fn opt_int_col(v: SqlValue) -> Option<Option<i64>> {
    match v {
        SqlValue::Null => Some(None),
        SqlValue::Integer(i) => Some(Some(i)),
        _ => None,
    }
}

/// A nullable text column: `Some(None)` for NULL.
pub open spec fn opt_text_col(v: SqlValue) -> Option<Option<Seq<char>>> {
    match v {
        SqlValue::Null => Some(None),
        _ => match text_col(v) {
            Some(t) => Some(Some(t)),
            None => None,
        },
    }
}

/// The view of an optional string.
pub open spec fn opt_str(o: Option<String>) -> Option<Seq<char>> {
    crate::text::opt_view(o)
}

/// `rec` is what the six columns of `row` from `offset` decode to.
pub open spec fn dir_row_decodes(row: Seq<SqlValue>, offset: int, rec: DirectoryRecord) -> bool {
    &&& offset + 6 <= row.len()
    &&& int_col(row[offset]) == Some(rec.id)
    &&& text_col(row[offset + 1]) == Some(rec.uuid@)
    &&& text_col(row[offset + 2]) == Some(rec.path@)
    &&& opt_text_col(row[offset + 3]) == Some(opt_str(rec.sort_override))
    &&& int_col(row[offset + 4]) == Some(rec.created_at)
    &&& opt_int_col(row[offset + 5]) == Some(rec.path_last_verified_at)
}

/// The six columns of `row` from `offset` have the types of a directory row.
pub open spec fn dir_row_well_typed(row: Seq<SqlValue>, offset: int) -> bool {
    &&& offset + 6 <= row.len()
    &&& int_col(row[offset]) is Some
    &&& text_col(row[offset + 1]) is Some
    &&& text_col(row[offset + 2]) is Some
    &&& opt_text_col(row[offset + 3]) is Some
    &&& int_col(row[offset + 4]) is Some
    &&& opt_int_col(row[offset + 5]) is Some
}

/// The rating a stored integer stands for: its low byte, as the row mapper
/// truncates it.
pub open spec fn rating_of(v: Option<i64>) -> Option<u8> {
    match v {
        Some(r) => Some(r as u8),
        None => None,
    }
}

/// A rating reads back as it was stored: where the rating column of an
/// image row holds the value that setting the rating `rating` binds (the
/// number of stars, or NULL to clear), the record decoded from the row has
/// exactly that rating.
pub proof fn lemma_stored_rating_reads_back(row: Seq<SqlValue>, offset: int, rec: ImageRecord, rating: Option<u8>)
    requires
        image_row_decodes(row, offset, rec),
        row[offset + 5] == (match rating {
            Some(v) => SqlValue::Integer(v as i64),
            None => SqlValue::Null,
        }),
    ensures
        rec.rating == rating,
        rating_value(rating) == (match rating {
            Some(v) => ParamValue::Integer(v as i64),
            None => ParamValue::Null,
        }),
{
}

/// `rec` is what the ten columns of `row` from `offset` decode to.
pub open spec fn image_row_decodes(row: Seq<SqlValue>, offset: int, rec: ImageRecord) -> bool {
    &&& offset + 10 <= row.len()
    &&& int_col(row[offset]) == Some(rec.id)
    &&& int_col(row[offset + 1]) == Some(rec.directory_id)
    &&& text_col(row[offset + 2]) == Some(rec.filename@)
    &&& int_col(row[offset + 3]) == Some(rec.file_size)
    &&& int_col(row[offset + 4]) == Some(rec.file_modified_at)
    &&& opt_int_col(row[offset + 5]) is Some
    &&& rec.rating == rating_of(opt_int_col(row[offset + 5])->0)
    &&& int_col(row[offset + 6]) is Some
    &&& rec.bookmarked == (int_col(row[offset + 6])->0 != 0)
    &&& opt_text_col(row[offset + 7]) == Some(opt_str(rec.note))
    &&& int_col(row[offset + 8]) == Some(rec.created_at)
    &&& int_col(row[offset + 9]) == Some(rec.updated_at)
}

/// The ten columns of `row` from `offset` have the types of an image row.
pub open spec fn image_row_well_typed(row: Seq<SqlValue>, offset: int) -> bool {
    &&& offset + 10 <= row.len()
    &&& int_col(row[offset]) is Some
    &&& int_col(row[offset + 1]) is Some
    &&& text_col(row[offset + 2]) is Some
    &&& int_col(row[offset + 3]) is Some
    &&& int_col(row[offset + 4]) is Some
    &&& opt_int_col(row[offset + 5]) is Some
    &&& int_col(row[offset + 6]) is Some
    &&& opt_text_col(row[offset + 7]) is Some
    &&& int_col(row[offset + 8]) is Some
    &&& int_col(row[offset + 9]) is Some
}

/// Calls `String::from_utf8`, which succeeds exactly on valid UTF-8.
#[verifier::external_body]
fn string_from_utf8(bytes: Vec<u8>) -> (r: Option<String>)
    ensures
        r is Some == valid_utf8(bytes@),
        r matches Some(s) ==> s@ == decode_utf8(bytes@),
{
    String::from_utf8(bytes).ok()
}

fn get_int(row: &Vec<SqlValue>, i: usize) -> (r: Result<i64, DbError>)
    requires
        i < row@.len(),
    ensures
        r matches Err(e) ==> !(e is Sqlite),
        r is Ok == int_col(row@[i as int]) is Some,
        r matches Ok(v) ==> int_col(row@[i as int]) == Some(v),
{
    match &row[i] {
        SqlValue::Integer(v) => Ok(*v),
        _ => Err(DbError::InvalidColumnType(i)),
    }
}

fn get_opt_int(row: &Vec<SqlValue>, i: usize) -> (r: Result<Option<i64>, DbError>)
    requires
        i < row@.len(),
    ensures
        r matches Err(e) ==> !(e is Sqlite),
        r is Ok == opt_int_col(row@[i as int]) is Some,
        r matches Ok(v) ==> opt_int_col(row@[i as int]) == Some(v),
{
    match &row[i] {
        SqlValue::Null => Ok(None),
        SqlValue::Integer(v) => Ok(Some(*v)),
        _ => Err(DbError::InvalidColumnType(i)),
    }
}

fn get_text(row: &Vec<SqlValue>, i: usize) -> (r: Result<String, DbError>)
    requires
        i < row@.len(),
    ensures
        r matches Err(e) ==> !(e is Sqlite),
        r is Ok == text_col(row@[i as int]) is Some,
        r matches Ok(s) ==> text_col(row@[i as int]) == Some(s@),
{
    match &row[i] {
        SqlValue::Text(bytes) => match string_from_utf8(bytes.clone()) {
            Some(s) => Ok(s),
            None => Err(DbError::InvalidUtf8(i)),
        },
        _ => Err(DbError::InvalidColumnType(i)),
    }
}

fn get_opt_text(row: &Vec<SqlValue>, i: usize) -> (r: Result<Option<String>, DbError>)
    requires
        i < row@.len(),
    ensures
        r matches Err(e) ==> !(e is Sqlite),
        r is Ok == opt_text_col(row@[i as int]) is Some,
        r matches Ok(s) ==> opt_text_col(row@[i as int]) == Some(opt_str(s)),
{
    match &row[i] {
        SqlValue::Null => Ok(None),
        _ => match get_text(row, i) {
            Ok(s) => Ok(Some(s)),
            Err(e) => Err(e),
        },
    }
}

/// Decode a directory row whose columns start at `offset`.
pub fn map_dir_row(row: &Vec<SqlValue>, offset: usize) -> (r: Result<DirectoryRecord, DbError>)
    requires
        offset + 6 <= row@.len(),
    ensures
        r matches Err(e) ==> !(e is Sqlite),
        r is Ok == dir_row_well_typed(row@, offset as int),
        r matches Ok(rec) ==> dir_row_decodes(row@, offset as int, rec),
{
    let _ = row.len();
    let id = get_int(row, offset)?;
    let uuid = get_text(row, offset + 1)?;
    let path = get_text(row, offset + 2)?;
    let sort_override = get_opt_text(row, offset + 3)?;
    let created_at = get_int(row, offset + 4)?;
    let path_last_verified_at = get_opt_int(row, offset + 5)?;
    Ok(DirectoryRecord { id, uuid, path, sort_override, created_at, path_last_verified_at })
}

/// Decode an image row whose columns start at `offset` (after, say, the
/// directory path of a join).
pub fn map_image_row(row: &Vec<SqlValue>, offset: usize) -> (r: Result<ImageRecord, DbError>)
    requires
        offset + 10 <= row@.len(),
    ensures
        r matches Err(e) ==> !(e is Sqlite),
        r is Ok == image_row_well_typed(row@, offset as int),
        r matches Ok(rec) ==> image_row_decodes(row@, offset as int, rec),
{
    let _ = row.len();
    let id = get_int(row, offset)?;
    let directory_id = get_int(row, offset + 1)?;
    let filename = get_text(row, offset + 2)?;
    let file_size = get_int(row, offset + 3)?;
    let file_modified_at = get_int(row, offset + 4)?;
    let rating_raw = get_opt_int(row, offset + 5)?;
    let bookmarked_raw = get_int(row, offset + 6)?;
    let note = get_opt_text(row, offset + 7)?;
    let created_at = get_int(row, offset + 8)?;
    let updated_at = get_int(row, offset + 9)?;
    let rating = match rating_raw {
        Some(v) => Some(#[verifier::truncate] (v as u8)),
        None => None,
    };
    Ok(ImageRecord {
        id,
        directory_id,
        filename,
        file_size,
        file_modified_at,
        rating,
        bookmarked: bookmarked_raw != 0,
        note,
        created_at,
        updated_at,
    })
}

// ---------------------------------------------------------------------------
// Calls into rusqlite
// ---------------------------------------------------------------------------

/// The value a statement parameter binds.
pub enum ParamValue {
    Null,
    Integer(i64),
    Text(Seq<char>),
}

/// The value `p` binds.
pub open spec fn param_value(p: SqlParam) -> ParamValue {
    match p {
        SqlParam::Null => ParamValue::Null,
        SqlParam::Integer(i) => ParamValue::Integer(i),
        SqlParam::Text(s) => ParamValue::Text(s@),
    }
}

/// The values a list of parameters binds, in order.
pub open spec fn param_values(ps: Seq<SqlParam>) -> Seq<ParamValue> {
    ps.map_values(|p: SqlParam| param_value(p))
}

/// The views of an optional row.
pub open spec fn opt_row(a: Option<Vec<SqlValue>>) -> Option<Seq<SqlValue>> {
    match a {
        Some(v) => Some(v@),
        None => None,
    }
}

/// The views of rows.
pub open spec fn rows_view(rows: Seq<Vec<SqlValue>>) -> Seq<Seq<SqlValue>> {
    rows.map_values(|r: Vec<SqlValue>| r@)
}

/// A record that `Connection::open` opened (or created) a database at
/// `path`. Nothing else is known of it: the outcome depends on the file
/// system.
pub uninterp spec fn database_opened(path: Seq<char>) -> bool;

/// A record that `Connection::execute_batch` ran the statements `sql`
/// without error. What they did depends on the database's contents.
pub uninterp spec fn batch_ran(sql: Seq<char>) -> bool;

/// A record that `Connection::execute` was handed the statement `sql` with
/// parameters binding `params`, and SQLite reported `outcome`: `Some` of
/// the number of rows changed, or `None` for an error. Which rows those
/// were depends on the database's contents.
pub uninterp spec fn statement_ran(sql: Seq<char>, params: Seq<ParamValue>, outcome: Option<nat>) -> bool;

/// A record that SQLite answered the query `sql`, with parameters binding
/// `params`, with `answer`: `Some(Some(row))` for the first `ncols` columns
/// of the first row, `Some(None)` where there was no row, `None` for an
/// error. The answer depends on the database's contents, which other
/// processes may change.
pub uninterp spec fn row_query_answered(sql: Seq<char>, params: Seq<ParamValue>, ncols: nat, answer: Option<Option<Seq<SqlValue>>>) -> bool;

/// A record that SQLite answered the query `sql`, with parameters binding
/// `params`, with `rows` (`Some`: each the first `ncols` columns of a result
/// row, in the order SQLite gave them; `None`: an error).
pub uninterp spec fn rows_query_answered(sql: Seq<char>, params: Seq<ParamValue>, ncols: nat, rows: Option<Seq<Seq<SqlValue>>>) -> bool;

/// Calls `rusqlite::Connection::open`, which opens or creates the database
/// file at `path`. Whether it succeeds depends on the file system.
#[verifier::external_body]
fn sqlite_open(path: &str) -> (r: Result<rusqlite::Connection, rusqlite::Error>)
    ensures
        r is Ok ==> database_opened(path@),
{
    rusqlite::Connection::open(path)
}

/// Calls `rusqlite::Connection::open_in_memory`, a fresh private database.
#[verifier::external_body]
fn sqlite_open_in_memory() -> (r: Result<rusqlite::Connection, rusqlite::Error>)
{
    rusqlite::Connection::open_in_memory()
}

/// Calls `Connection::execute_batch`, which runs each statement of `sql`.
#[verifier::external_body]
fn sqlite_execute_batch(conn: &rusqlite::Connection, sql: &str) -> (r: Result<(), rusqlite::Error>)
    ensures
        r is Ok ==> batch_ran(sql@),
{
    conn.execute_batch(sql)
}

/// Calls `Connection::execute` with the parameters bound in order; returns
/// the number of rows changed. The outcome depends on the database's contents.
#[verifier::external_body]
fn sqlite_execute(conn: &rusqlite::Connection, sql: &str, params: &Vec<SqlParam>) -> (r: Result<usize, rusqlite::Error>)
    ensures
        statement_ran(sql@, param_values(params@), match r { Ok(n) => Some(n as nat), Err(_) => None }),
{
    conn.execute(sql, rusqlite::params_from_iter(params.iter().map(|p| match p {
        SqlParam::Null => rusqlite::types::Value::Null,
        SqlParam::Integer(i) => rusqlite::types::Value::Integer(*i),
        SqlParam::Text(s) => rusqlite::types::Value::Text(s.clone()),
    })))
}

/// Calls `Connection::query_row` with the parameters bound in order, reading
/// the first `ncols` columns of the first row with [`row_values`], and
/// `OptionalExtension::optional`, which turns `Error::QueryReturnedNoRows`
/// into `Ok(None)`.
#[verifier::external_body]
fn sqlite_query_row(conn: &rusqlite::Connection, sql: &str, params: &Vec<SqlParam>, ncols: usize) -> (r: Result<Option<Vec<SqlValue>>, rusqlite::Error>)
    ensures
        row_query_answered(sql@, param_values(params@), ncols as nat, match r { Ok(a) => Some(opt_row(a)), Err(_) => None }),
        r matches Ok(Some(row)) ==> row@.len() == ncols,
{
    rusqlite::OptionalExtension::optional(conn.query_row(sql, rusqlite::params_from_iter(params.iter().map(|p| match p {
        SqlParam::Null => rusqlite::types::Value::Null,
        SqlParam::Integer(i) => rusqlite::types::Value::Integer(*i),
        SqlParam::Text(s) => rusqlite::types::Value::Text(s.clone()),
    })), |row| row_values(row, ncols)))
}

/// Calls `Connection::prepare`, `Statement::query_map` and collects the rows,
/// reading the first `ncols` columns of each with [`row_values`].
#[verifier::external_body]
fn sqlite_query_rows(conn: &rusqlite::Connection, sql: &str, params: &Vec<SqlParam>, ncols: usize) -> (r: Result<Vec<Vec<SqlValue>>, rusqlite::Error>)
    ensures
        rows_query_answered(sql@, param_values(params@), ncols as nat, match r { Ok(rows) => Some(rows_view(rows@)), Err(_) => None }),
        r matches Ok(rows) ==> forall|i: int| 0 <= i < rows@.len() ==> (#[trigger] rows@[i])@.len() == ncols,
{
    let mut stmt = conn.prepare(sql)?;
    let rows = stmt.query_map(rusqlite::params_from_iter(params.iter().map(|p| match p {
        SqlParam::Null => rusqlite::types::Value::Null,
        SqlParam::Integer(i) => rusqlite::types::Value::Integer(*i),
        SqlParam::Text(s) => rusqlite::types::Value::Text(s.clone()),
    })), |row| row_values(row, ncols))?;
    rows.collect()
}

/// Calls `Connection::last_insert_rowid`.
#[verifier::external_body]
fn sqlite_last_insert_rowid(conn: &rusqlite::Connection) -> (r: i64)
{
    conn.last_insert_rowid()
}

/// Calls `Row::get_ref` for column `i` and keeps the value's kind, and the
/// integer or the text bytes it holds.
#[verifier::external_body]
fn column_value(row: &rusqlite::Row<'_>, i: usize) -> (r: Result<SqlValue, rusqlite::Error>)
{
    row.get_ref(i).map(|v| match v {
        rusqlite::types::ValueRef::Null => SqlValue::Null,
        rusqlite::types::ValueRef::Integer(n) => SqlValue::Integer(n),
        rusqlite::types::ValueRef::Real(_) => SqlValue::Real,
        rusqlite::types::ValueRef::Text(t) => SqlValue::Text(t.to_vec()),
        rusqlite::types::ValueRef::Blob(_) => SqlValue::Blob,
    })
}

/// Calls `uuid::Uuid::new_v4` and formats it; the hyphenated form that
/// `to_string` writes always has 36 characters.
#[verifier::external_body]
fn new_uuid() -> (r: String)
    ensures
        r@.len() == 36,
{
    uuid::Uuid::new_v4().to_string()
}

/// Calls `SystemTime::now` and gives the whole seconds since the Unix epoch
/// (0 for a clock before the epoch). Nothing is stated of the time.
#[verifier::external_body]
fn now_secs() -> (r: i64)
{
    std::time::SystemTime::now().duration_since(std::time::UNIX_EPOCH).unwrap_or_default().as_secs() as i64
}

/// The first `ncols` columns of a result row. Reading a column fails when
/// the statement has fewer columns, which depends on the statement.
fn row_values(row: &rusqlite::Row<'_>, ncols: usize) -> (r: Result<Vec<SqlValue>, rusqlite::Error>)
    ensures
        r matches Ok(v) ==> v@.len() == ncols,
{
    let mut v: Vec<SqlValue> = Vec::new();
    let mut i: usize = 0;
    while i < ncols
        invariant
            i <= ncols,
            v@.len() == i,
        decreases ncols - i,
    {
        let value = column_value(row, i)?;
        v.push(value);
        i = i + 1;
    }
    Ok(v)
}

/// Run a query that returns zero or one rows: no row is `Ok(None)`.
fn query_opt(conn: &rusqlite::Connection, sql: &str, params: &Vec<SqlParam>, ncols: usize) -> (r: Result<Option<Vec<SqlValue>>, rusqlite::Error>)
    ensures
        row_query_answered(sql@, param_values(params@), ncols as nat, match r { Ok(a) => Some(opt_row(a)), Err(_) => None }),
        r matches Ok(Some(row)) ==> row@.len() == ncols,
{
    sqlite_query_row(conn, sql, params, ncols)
}

// ---------------------------------------------------------------------------
// Database
// ---------------------------------------------------------------------------

/// A handle to a SQLite database opened in WAL mode.
pub struct Database {
    conn: rusqlite::Connection,
    /// The statements this handle has handed to `Connection::execute`.
    written: Ghost<Seq<(Seq<char>, Seq<ParamValue>)>>,
}

/// The statements that create the schema, if it is not there yet.
pub const SCHEMA_SQL: &'static str = "
CREATE TABLE IF NOT EXISTS directories (
    id                      INTEGER PRIMARY KEY AUTOINCREMENT,
    uuid                    TEXT    NOT NULL UNIQUE,
    path                    TEXT    NOT NULL UNIQUE,
    sort_override           TEXT,
    created_at              INTEGER NOT NULL,
    path_last_verified_at   INTEGER
);

CREATE TABLE IF NOT EXISTS images (
    id                  INTEGER PRIMARY KEY AUTOINCREMENT,
    directory_id        INTEGER NOT NULL REFERENCES directories(id),
    filename            TEXT    NOT NULL,
    file_size           INTEGER NOT NULL DEFAULT 0,
    file_modified_at    INTEGER NOT NULL DEFAULT 0,
    rating              INTEGER,
    bookmarked          INTEGER NOT NULL DEFAULT 0,
    note                TEXT,
    created_at          INTEGER NOT NULL,
    updated_at          INTEGER NOT NULL,
    UNIQUE(directory_id, filename)
);

CREATE TABLE IF NOT EXISTS settings (
    key     TEXT PRIMARY KEY,
    value   TEXT NOT NULL
);

CREATE INDEX IF NOT EXISTS idx_images_dir      ON images(directory_id);
CREATE INDEX IF NOT EXISTS idx_dirs_uuid       ON directories(uuid);
CREATE INDEX IF NOT EXISTS idx_dirs_path       ON directories(path);
";

fn sqlite_err<T>(r: Result<T, rusqlite::Error>) -> (o: Result<T, DbError>)
    ensures
        match r {
            Ok(v) => o == Ok::<T, DbError>(v),
            Err(e) => o == Err::<T, DbError>(DbError::Sqlite(e)),
        },
{
    match r {
        Ok(v) => Ok(v),
        Err(e) => Err(DbError::Sqlite(e)),
    }
}

/// A found row decoded as a directory record.
fn dir_from_opt_row(row: Option<Vec<SqlValue>>) -> (r: Result<Option<DirectoryRecord>, DbError>)
    requires
        row matches Some(v) ==> v@.len() == 6,
    ensures
        r matches Err(e) ==> !(e is Sqlite),
        match row {
            None => r matches Ok(None),
            Some(v) => (r is Ok == dir_row_well_typed(v@, 0))
                && (r matches Ok(Some(rec)) ==> dir_row_decodes(v@, 0, rec))
                && !(r matches Ok(None)),
        },
{
    match row {
        None => Ok(None),
        Some(v) => {
            let rec = map_dir_row(&v, 0)?;
            Ok(Some(rec))
        },
    }
}

/// `pair` is what a joined row (directory path, then the image's columns)
/// decodes to.
pub open spec fn joined_row_decodes(row: Seq<SqlValue>, pair: (String, ImageRecord)) -> bool {
    &&& row.len() == 11
    &&& text_col(row[0]) == Some(pair.0@)
    &&& image_row_decodes(row, 1, pair.1)
}

/// A joined row has the types of a directory path and an image row.
pub open spec fn joined_row_well_typed(row: Seq<SqlValue>) -> bool {
    row.len() == 11 && text_col(row[0]) is Some && image_row_well_typed(row, 1)
}

/// Decode the joined rows of a meta view, in order.
fn map_joined_rows(rows: &Vec<Vec<SqlValue>>) -> (r: Result<Vec<(String, ImageRecord)>, DbError>)
    requires
        forall|i: int| 0 <= i < rows@.len() ==> (#[trigger] rows@[i])@.len() == 11,
    ensures
        r matches Err(e) ==> !(e is Sqlite),
        r is Ok == forall|i: int| 0 <= i < rows@.len() ==> joined_row_well_typed(#[trigger] rows@[i]@),
        r matches Ok(v) ==> v@.len() == rows@.len()
            && forall|i: int| 0 <= i < rows@.len() ==> joined_row_decodes(#[trigger] rows@[i]@, v@[i]),
{
    let mut out: Vec<(String, ImageRecord)> = Vec::new();
    let n = rows.len();
    let mut i: usize = 0;
    while i < n
        invariant
            n == rows@.len(),
            i <= n,
            forall|k: int| 0 <= k < rows@.len() ==> (#[trigger] rows@[k])@.len() == 11,
            out@.len() == i,
            forall|k: int| 0 <= k < i ==> joined_row_well_typed(#[trigger] rows@[k]@),
            forall|k: int| 0 <= k < i ==> joined_row_decodes(#[trigger] rows@[k]@, out@[k]),
        decreases n - i,
    {
        let row = &rows[i];
        let dir = get_text(row, 0)?;
        let rec = map_image_row(row, 1)?;
        out.push((dir, rec));
        i = i + 1;
    }
    Ok(out)
}

/// Decode image rows (without a joined path), in order.
fn map_image_rows(rows: &Vec<Vec<SqlValue>>) -> (r: Result<Vec<ImageRecord>, DbError>)
    requires
        forall|i: int| 0 <= i < rows@.len() ==> (#[trigger] rows@[i])@.len() == 10,
    ensures
        r matches Err(e) ==> !(e is Sqlite),
        r is Ok == forall|i: int| 0 <= i < rows@.len() ==> image_row_well_typed(#[trigger] rows@[i]@, 0),
        r matches Ok(v) ==> v@.len() == rows@.len()
            && forall|i: int| 0 <= i < rows@.len() ==> image_row_decodes(#[trigger] rows@[i]@, 0, v@[i]),
{
    let mut out: Vec<ImageRecord> = Vec::new();
    let n = rows.len();
    let mut i: usize = 0;
    while i < n
        invariant
            n == rows@.len(),
            i <= n,
            forall|k: int| 0 <= k < rows@.len() ==> (#[trigger] rows@[k])@.len() == 10,
            out@.len() == i,
            forall|k: int| 0 <= k < i ==> image_row_well_typed(#[trigger] rows@[k]@, 0),
            forall|k: int| 0 <= k < i ==> image_row_decodes(#[trigger] rows@[k]@, 0, out@[k]),
        decreases n - i,
    {
        let rec = map_image_row(&rows[i], 0)?;
        out.push(rec);
        i = i + 1;
    }
    Ok(out)
}

fn copy_opt_string(s: &Option<String>) -> (r: Option<String>)
    ensures
        r == *s,
{
    match s {
        Some(t) => Some(t.clone()),
        None => None,
    }
}

/// A copy of an image record, field by field.
fn copy_record(r: &ImageRecord) -> (c: ImageRecord)
    ensures
        c == *r,
{
    ImageRecord {
        id: r.id,
        directory_id: r.directory_id,
        filename: r.filename.clone(),
        file_size: r.file_size,
        file_modified_at: r.file_modified_at,
        rating: r.rating,
        bookmarked: r.bookmarked,
        note: copy_opt_string(&r.note),
        created_at: r.created_at,
        updated_at: r.updated_at,
    }
}

/// The records whose rating `filter` accepts, in order.
pub fn filter_by_rating(records: &Vec<(String, ImageRecord)>, filter: RatingFilter) -> (r: Vec<(String, ImageRecord)>)
    ensures
        r@ == records@.filter(|p: (String, ImageRecord)| filter_accepts(filter, p.1.rating)),
{
    let ghost pred = |p: (String, ImageRecord)| filter_accepts(filter, p.1.rating);
    let mut out: Vec<(String, ImageRecord)> = Vec::new();
    let n = records.len();
    let mut i: usize = 0;
    while i < n
        invariant
            n == records@.len(),
            i <= n,
            pred == (|p: (String, ImageRecord)| filter_accepts(filter, p.1.rating)),
            out@ == records@.subrange(0, i as int).filter(pred),
        decreases n - i,
    {
        reveal_with_fuel(Seq::<_>::filter, 1);
        if filter.matches(records[i].1.rating) {
            out.push((records[i].0.clone(), copy_record(&records[i].1)));
        }
        assert(records@.subrange(0, i + 1).drop_last() =~= records@.subrange(0, i as int));
        i = i + 1;
    }
    assert(records@.subrange(0, n as int) =~= records@);
    out
}

/// The parameter for an optional rating.
fn rating_param(rating: Option<u8>) -> (r: SqlParam)
    ensures
        r == (match rating {
            Some(v) => SqlParam::Integer(v as i64),
            None => SqlParam::Null,
        }),
{
    match rating {
        Some(v) => SqlParam::Integer(v as i64),
        None => SqlParam::Null,
    }
}

/// Switch the journal to write-ahead logging.
pub const WAL_SQL: &'static str = "PRAGMA journal_mode=WAL;";

/// Enforce foreign keys.
pub const FOREIGN_KEYS_SQL: &'static str = "PRAGMA foreign_keys=ON;";

/// Find a directory record by its path.
pub const DIR_BY_PATH_SQL: &'static str = "SELECT id, uuid, path, sort_override, created_at, path_last_verified_at
             FROM directories WHERE path = ?1";

/// Find a directory record by its UUID.
pub const DIR_BY_UUID_SQL: &'static str = "SELECT id, uuid, path, sort_override, created_at, path_last_verified_at
             FROM directories WHERE uuid = ?1";

/// Record that a directory's path was seen again.
pub const TOUCH_DIR_SQL: &'static str = "UPDATE directories SET path_last_verified_at = ?1 WHERE id = ?2";

/// Create a directory record.
pub const INSERT_DIR_SQL: &'static str = "INSERT INTO directories (uuid, path, created_at) VALUES (?1, ?2, ?3)";

/// Move a directory record to a new path.
pub const UPDATE_DIR_PATH_SQL: &'static str = "UPDATE directories SET path = ?1 WHERE id = ?2";

/// One image record.
pub const GET_IMAGE_SQL: &'static str = "SELECT id, directory_id, filename, file_size, file_modified_at,
                    rating, bookmarked, note, created_at, updated_at
             FROM images WHERE directory_id = ?1 AND filename = ?2";

/// The image records of a directory.
pub const GET_IMAGES_SQL: &'static str = "SELECT id, directory_id, filename, file_size, file_modified_at,
                    rating, bookmarked, note, created_at, updated_at
             FROM images WHERE directory_id = ?1";

/// Delete one image record.
pub const DELETE_IMAGE_SQL: &'static str = "DELETE FROM images WHERE directory_id = ?1 AND filename = ?2";

/// Set an image's rating.
pub const SET_RATING_SQL: &'static str = "UPDATE images SET rating = ?1, updated_at = ?2
             WHERE directory_id = ?3 AND filename = ?4";

/// Set an image's bookmark.
pub const SET_BOOKMARK_SQL: &'static str = "UPDATE images SET bookmarked = ?1, updated_at = ?2
             WHERE directory_id = ?3 AND filename = ?4";

/// Set an image's note.
pub const SET_NOTE_SQL: &'static str = "UPDATE images SET note = ?1, updated_at = ?2
             WHERE directory_id = ?3 AND filename = ?4";

/// Create an empty image record unless there is one.
pub const ENSURE_IMAGE_SQL: &'static str = "INSERT OR IGNORE INTO images
             (directory_id, filename, file_size, file_modified_at,
              rating, bookmarked, created_at, updated_at)
             VALUES (?1, ?2, 0, 0, NULL, 0, ?3, ?3)";

/// Delete an image record that holds no rating, bookmark or note.
pub const GC_IMAGE_SQL: &'static str = "DELETE FROM images
             WHERE directory_id = ?1 AND filename = ?2
               AND rating IS NULL AND bookmarked = 0
               AND (note IS NULL OR note = '')";

/// The bookmarked images with their directory paths.
pub const BOOKMARKED_SQL: &'static str = "SELECT d.path,
                    i.id, i.directory_id, i.filename, i.file_size,
                    i.file_modified_at, i.rating, i.bookmarked, i.note,
                    i.created_at, i.updated_at
             FROM images i JOIN directories d ON i.directory_id = d.id
             WHERE i.bookmarked = 1
             ORDER BY i.updated_at DESC";

/// The rated images with their directory paths.
pub const RATED_SQL: &'static str = "SELECT d.path,
                    i.id, i.directory_id, i.filename, i.file_size,
                    i.file_modified_at, i.rating, i.bookmarked, i.note,
                    i.created_at, i.updated_at
             FROM images i JOIN directories d ON i.directory_id = d.id
             WHERE i.rating IS NOT NULL
             ORDER BY i.rating DESC, i.updated_at DESC";

/// One setting's value.
pub const GET_SETTING_SQL: &'static str = "SELECT value FROM settings WHERE key = ?1";

/// Set one setting.
pub const SET_SETTING_SQL: &'static str = "INSERT INTO settings (key, value) VALUES (?1, ?2)
             ON CONFLICT(key) DO UPDATE SET value = excluded.value";

/// The schema statements have all run.
pub open spec fn schema_ready() -> bool {
    batch_ran(WAL_SQL@) && batch_ran(FOREIGN_KEYS_SQL@) && batch_ran(SCHEMA_SQL@)
}

/// SQLite ran `sql` with parameters binding `params`.
pub open spec fn ran_with(sql: Seq<char>, params: Seq<ParamValue>) -> bool {
    exists|n: nat| #[trigger] statement_ran(sql, params, Some(n))
}

/// What a directory lookup gives: the decoding of the row SQLite answered,
/// nothing where it answered no row, or an error, which is SQLite's or says
/// that the row does not decode.
pub open spec fn dir_answer(sql: Seq<char>, params: Seq<ParamValue>, r: Result<Option<DirectoryRecord>, DbError>) -> bool {
    match r {
        Ok(Some(rec)) => exists|row: Seq<SqlValue>| #[trigger] row_query_answered(sql, params, 6, Some(Some(row)))
            && dir_row_decodes(row, 0, rec),
        Ok(None) => row_query_answered(sql, params, 6, Some(None)),
        Err(DbError::Sqlite(_)) => row_query_answered(sql, params, 6, None),
        Err(_) => exists|row: Seq<SqlValue>| #[trigger] row_query_answered(sql, params, 6, Some(Some(row)))
            && !dir_row_well_typed(row, 0),
    }
}

/// What an image lookup gives, as [`dir_answer`] for image rows.
pub open spec fn image_answer(sql: Seq<char>, params: Seq<ParamValue>, r: Result<Option<ImageRecord>, DbError>) -> bool {
    match r {
        Ok(Some(rec)) => exists|row: Seq<SqlValue>| #[trigger] row_query_answered(sql, params, 10, Some(Some(row)))
            && image_row_decodes(row, 0, rec),
        Ok(None) => row_query_answered(sql, params, 10, Some(None)),
        Err(DbError::Sqlite(_)) => row_query_answered(sql, params, 10, None),
        Err(_) => exists|row: Seq<SqlValue>| #[trigger] row_query_answered(sql, params, 10, Some(Some(row)))
            && !image_row_well_typed(row, 0),
    }
}

/// `v` is the decoding of the image rows `rows`, in order.
pub open spec fn images_decoded(rows: Seq<Seq<SqlValue>>, v: Seq<ImageRecord>) -> bool {
    rows.len() == v.len() && forall|i: int| 0 <= i < rows.len() ==> image_row_decodes(#[trigger] rows[i], 0, v[i])
}

/// `v` is the decoding of the joined rows `rows`, in order.
pub open spec fn joined_decoded(rows: Seq<Seq<SqlValue>>, v: Seq<(String, ImageRecord)>) -> bool {
    rows.len() == v.len() && forall|i: int| 0 <= i < rows.len() ==> joined_row_decodes(#[trigger] rows[i], v[i])
}

/// What a query for many records gives: its rows decoded (`Ok`), or an
/// error, which is SQLite's or says that some row does not decode.
pub open spec fn images_answer(sql: Seq<char>, params: Seq<ParamValue>, r: Result<Vec<ImageRecord>, DbError>) -> bool {
    match r {
        Ok(v) => exists|rows: Seq<Seq<SqlValue>>| #[trigger] rows_query_answered(sql, params, 10, Some(rows))
            && images_decoded(rows, v@),
        Err(DbError::Sqlite(_)) => rows_query_answered(sql, params, 10, None),
        Err(_) => exists|rows: Seq<Seq<SqlValue>>| #[trigger] rows_query_answered(sql, params, 10, Some(rows))
            && exists|i: int| 0 <= i < rows.len() && !image_row_well_typed(#[trigger] rows[i], 0),
    }
}

/// As [`images_answer`], for the joined rows of a meta view.
pub open spec fn joined_answer(sql: Seq<char>, r: Result<Vec<(String, ImageRecord)>, DbError>) -> bool {
    match r {
        Ok(v) => exists|rows: Seq<Seq<SqlValue>>| #[trigger] rows_query_answered(sql, Seq::empty(), 11, Some(rows))
            && joined_decoded(rows, v@),
        Err(DbError::Sqlite(_)) => rows_query_answered(sql, Seq::empty(), 11, None),
        Err(_) => exists|rows: Seq<Seq<SqlValue>>| #[trigger] rows_query_answered(sql, Seq::empty(), 11, Some(rows))
            && exists|i: int| 0 <= i < rows.len() && !joined_row_well_typed(#[trigger] rows[i]),
    }
}

/// The value an optional rating binds.
pub open spec fn rating_value(rating: Option<u8>) -> ParamValue {
    match rating {
        Some(v) => ParamValue::Integer(v as i64),
        None => ParamValue::Null,
    }
}

/// The empty-record statement ran for an image at time `t`.
pub open spec fn ensure_ran(directory_id: i64, filename: Seq<char>, t: i64) -> bool {
    ran_with(ENSURE_IMAGE_SQL@, seq![ParamValue::Integer(directory_id), ParamValue::Text(filename), ParamValue::Integer(t)])
}

/// The empty record of an image was created unless there was one.
pub open spec fn image_ensured(directory_id: i64, filename: Seq<char>) -> bool {
    exists|t: i64| #[trigger] ensure_ran(directory_id, filename, t)
}

/// The image's record was deleted if it held nothing.
pub open spec fn empty_record_collected(directory_id: i64, filename: Seq<char>) -> bool {
    ran_with(GC_IMAGE_SQL@, seq![ParamValue::Integer(directory_id), ParamValue::Text(filename)])
}

/// A field of an image was set with `sql` to `value`: the record was made
/// sure of, updated with the value and a time, and deleted if left empty.
pub open spec fn image_field_set(sql: Seq<char>, directory_id: i64, filename: Seq<char>, value: ParamValue) -> bool {
    &&& image_ensured(directory_id, filename)
    &&& exists|t: i64| #[trigger] field_update_ran(sql, directory_id, filename, value, t)
    &&& empty_record_collected(directory_id, filename)
}

/// The field update `sql` ran for an image with `value` at time `t`.
pub open spec fn field_update_ran(sql: Seq<char>, directory_id: i64, filename: Seq<char>, value: ParamValue, t: i64) -> bool {
    ran_with(sql, seq![value, ParamValue::Integer(t), ParamValue::Integer(directory_id), ParamValue::Text(filename)])
}

/// SQLite answered the lookup of the directory at `path` with `answer`.
pub open spec fn dir_path_answered(path: Seq<char>, answer: Option<Seq<SqlValue>>) -> bool {
    row_query_answered(DIR_BY_PATH_SQL@, seq![ParamValue::Text(path)], 6, Some(answer))
}

/// The verification time of directory `id` was set to `t`.
pub open spec fn touch_ran(id: i64, t: i64) -> bool {
    ran_with(TOUCH_DIR_SQL@, seq![ParamValue::Integer(t), ParamValue::Integer(id)])
}

/// What `upsert_directory_by_path` returns: the record SQLite found for the
/// path, whose verification time was then touched; or, where it found none,
/// a new record for the path with a fresh UUID, inserted with its creation
/// time.
pub open spec fn directory_upserted(path: Seq<char>, rec: DirectoryRecord) -> bool {
    ||| (exists|row: Seq<SqlValue>| #[trigger] dir_path_answered(path, Some(row)) && dir_row_decodes(row, 0, rec))
        && (exists|t: i64| #[trigger] touch_ran(rec.id, t))
    ||| dir_path_answered(path, None)
        && rec.path@ == path
        && rec.uuid@.len() == 36
        && rec.sort_override is None
        && rec.path_last_verified_at == Some(rec.created_at)
        && ran_with(INSERT_DIR_SQL@, seq![ParamValue::Text(rec.uuid@), ParamValue::Text(path), ParamValue::Integer(rec.created_at)])
}

/// What a setting lookup gives: the text of the row SQLite answered, nothing
/// where it answered no row, or an error, SQLite's or that the value is not
/// text.
pub open spec fn setting_answer(key: Seq<char>, r: Result<Option<String>, DbError>) -> bool {
    match r {
        Ok(Some(v)) => exists|row: Seq<SqlValue>| #[trigger] setting_answered(key, Some(row))
            && text_col(row[0]) == Some(v@),
        Ok(None) => setting_answered(key, None),
        Err(DbError::Sqlite(_)) => row_query_answered(GET_SETTING_SQL@, seq![ParamValue::Text(key)], 1, None),
        Err(_) => exists|row: Seq<SqlValue>| #[trigger] setting_answered(key, Some(row))
            && text_col(row[0]) is None,
    }
}

/// SQLite answered the lookup of setting `key` with `answer`.
pub open spec fn setting_answered(key: Seq<char>, answer: Option<Seq<SqlValue>>) -> bool {
    row_query_answered(GET_SETTING_SQL@, seq![ParamValue::Text(key)], 1, Some(answer))
}

/// The rated images SQLite listed, decoded.
pub open spec fn rated_answer(all: Seq<(String, ImageRecord)>) -> bool {
    exists|rows: Seq<Seq<SqlValue>>| #[trigger] rows_query_answered(RATED_SQL@, Seq::empty(), 11, Some(rows))
        && joined_decoded(rows, all)
}

/// The rated images SQLite listed that `filter` accepts, in its order.
pub open spec fn rated_filtered(recs: Seq<(String, ImageRecord)>, filter: RatingFilter) -> bool {
    exists|all: Seq<(String, ImageRecord)>| #[trigger] rated_answer(all)
        && recs == all.filter(|p: (String, ImageRecord)| filter_accepts(filter, p.1.rating))
}

/// SQLite answered the query for directory `directory_id`'s images with `rows`.
pub open spec fn images_rows_answered(directory_id: i64, rows: Seq<Seq<SqlValue>>) -> bool {
    rows_query_answered(GET_IMAGES_SQL@, seq![ParamValue::Integer(directory_id)], 10, Some(rows))
}

/// `v` is the decoding of the image records SQLite listed for a directory.
pub open spec fn images_listed(directory_id: i64, v: Seq<ImageRecord>) -> bool {
    exists|rows: Seq<Seq<SqlValue>>| #[trigger] images_rows_answered(directory_id, rows) && images_decoded(rows, v)
}

/// The record of image `filename` in a directory was deleted.
pub open spec fn image_deleted(directory_id: i64, filename: Seq<char>) -> bool {
    ran_with(DELETE_IMAGE_SQL@, seq![ParamValue::Integer(directory_id), ParamValue::Text(filename)])
}

/// SQLite reported an error deleting the record of image `filename`.
pub open spec fn image_delete_failed(directory_id: i64, filename: Seq<char>) -> bool {
    statement_ran(DELETE_IMAGE_SQL@, seq![ParamValue::Integer(directory_id), ParamValue::Text(filename)], None)
}

/// The delete of the record of image `filename` was handed to SQLite,
/// which either ran it or reported an error.
pub open spec fn image_delete_tried(directory_id: i64, filename: Seq<char>) -> bool {
    image_deleted(directory_id, filename) || image_delete_failed(directory_id, filename)
}

/// A text parameter.
fn text_param(s: &str) -> (r: SqlParam)
    ensures
        param_value(r) == ParamValue::Text(s@),
{
    SqlParam::Text(String::from_str(s))
}

/// A statement and the values its parameters bind.
pub open spec fn stmt(sql: Seq<char>, params: Seq<ParamValue>) -> (Seq<char>, Seq<ParamValue>) {
    (sql, params)
}

/// The touch, at time `t`, of directory record `id`.
pub open spec fn touch_stmt(t: i64, id: i64) -> (Seq<char>, Seq<ParamValue>) {
    stmt(TOUCH_DIR_SQL@, seq![ParamValue::Integer(t), ParamValue::Integer(id)])
}

/// The delete of the record of image `filename` in a directory.
pub open spec fn delete_stmt(directory_id: i64, filename: Seq<char>) -> (Seq<char>, Seq<ParamValue>) {
    stmt(DELETE_IMAGE_SQL@, seq![ParamValue::Integer(directory_id), ParamValue::Text(filename)])
}

/// The deletes of the records of the images `names` in a directory, in order.
pub open spec fn delete_stmts(directory_id: i64, names: Seq<Seq<char>>) -> Seq<(Seq<char>, Seq<ParamValue>)> {
    names.map_values(|n: Seq<char>| delete_stmt(directory_id, n))
}

/// The creation, at time `t`, of an empty image record unless there is one.
pub open spec fn ensure_stmt(directory_id: i64, filename: Seq<char>, t: i64) -> (Seq<char>, Seq<ParamValue>) {
    stmt(ENSURE_IMAGE_SQL@, seq![ParamValue::Integer(directory_id), ParamValue::Text(filename), ParamValue::Integer(t)])
}

/// The update of an image's field with `sql` to `value` at time `t`.
pub open spec fn field_stmt(sql: Seq<char>, value: ParamValue, t: i64, directory_id: i64, filename: Seq<char>) -> (Seq<char>, Seq<ParamValue>) {
    stmt(sql, seq![value, ParamValue::Integer(t), ParamValue::Integer(directory_id), ParamValue::Text(filename)])
}

/// The delete of an image record that holds nothing.
pub open spec fn gc_stmt(directory_id: i64, filename: Seq<char>) -> (Seq<char>, Seq<ParamValue>) {
    stmt(GC_IMAGE_SQL@, seq![ParamValue::Integer(directory_id), ParamValue::Text(filename)])
}

/// The statements that set a field of an image: make sure of its record at
/// time `t1`, update the field at time `t2`, delete the record if empty.
pub open spec fn field_stmts(sql: Seq<char>, value: ParamValue, directory_id: i64, filename: Seq<char>, t1: i64, t2: i64) -> Seq<(Seq<char>, Seq<ParamValue>)> {
    seq![ensure_stmt(directory_id, filename, t1), field_stmt(sql, value, t2, directory_id, filename), gc_stmt(directory_id, filename)]
}

/// The parameter that stores a bookmark flag.
pub open spec fn bookmark_value(bookmarked: bool) -> ParamValue {
    ParamValue::Integer(if bookmarked { 1 } else { 0 })
}

/// The parameter that stores a note; `None` clears it.
pub open spec fn note_value(note: Option<&str>) -> ParamValue {
    match note {
        Some(n) => ParamValue::Text(n@),
        None => ParamValue::Null,
    }
}

/// `after` is `before` with some of `added`, from its start, appended.
pub open spec fn wrote_prefix_of(before: Seq<(Seq<char>, Seq<ParamValue>)>, added: Seq<(Seq<char>, Seq<ParamValue>)>, after: Seq<(Seq<char>, Seq<ParamValue>)>) -> bool {
    exists|k: int| 0 <= k <= added.len() && after == before + #[trigger] added.take(k)
}

impl Database {
    /// The statements this handle has handed to SQLite to execute, in order
    /// (the schema batches of opening are not among them).
    pub closed spec fn written(&self) -> Seq<(Seq<char>, Seq<ParamValue>)> {
        self.written@
    }

    /// Open (or create) a database at `path`.
    pub fn open(path: &str) -> (r: Result<Database, DbError>)
        ensures
            r is Ok ==> database_opened(path@) && schema_ready(),
            r matches Ok(db) ==> db.written() == Seq::<(Seq<char>, Seq<ParamValue>)>::empty(),
            r matches Err(e) ==> e is Sqlite,
    {
        let conn = match sqlite_open(path) {
            Ok(c) => c,
            Err(e) => return Err(DbError::Sqlite(e)),
        };
        let db = Database { conn, written: Ghost(Seq::empty()) };
        db.initialise()?;
        Ok(db)
    }

    /// Open a transient in-memory database.
    pub fn open_in_memory() -> (r: Result<Database, DbError>)
        ensures
            r is Ok ==> schema_ready(),
            r matches Ok(db) ==> db.written() == Seq::<(Seq<char>, Seq<ParamValue>)>::empty(),
            r matches Err(e) ==> e is Sqlite,
    {
        let conn = match sqlite_open_in_memory() {
            Ok(c) => c,
            Err(e) => return Err(DbError::Sqlite(e)),
        };
        let db = Database { conn, written: Ghost(Seq::empty()) };
        db.initialise()?;
        Ok(db)
    }

    /// Run the schema statements: WAL mode, foreign keys, and the tables
    /// and indexes where they are missing.
    fn initialise(&self) -> (r: Result<(), DbError>)
        ensures
            r is Ok ==> schema_ready(),
            r matches Err(e) ==> e is Sqlite,
    {
        sqlite_err(sqlite_execute_batch(&self.conn, WAL_SQL))?;
        sqlite_err(sqlite_execute_batch(&self.conn, FOREIGN_KEYS_SQL))?;
        sqlite_err(sqlite_execute_batch(&self.conn, SCHEMA_SQL))?;
        Ok(())
    }

    /// Run one statement.
    fn run(&mut self, sql: &str, params: &Vec<SqlParam>) -> (r: Result<(), DbError>)
        ensures
            final(self).written() == old(self).written().push(stmt(sql@, param_values(params@))),
            r is Ok ==> ran_with(sql@, param_values(params@)),
            r is Err ==> statement_ran(sql@, param_values(params@), None),
            r matches Err(e) ==> e is Sqlite,
    {
        let outcome = sqlite_execute(&self.conn, sql, params);
        self.written = Ghost(self.written@.push(stmt(sql@, param_values(params@))));
        match outcome {
            Ok(n) => {
                assert(statement_ran(sql@, param_values(params@), Some(n as nat)));
                Ok(())
            },
            Err(e) => Err(DbError::Sqlite(e)),
        }
    }

    /// Look up one directory record.
    fn dir_query(&self, sql: &str, params: &Vec<SqlParam>) -> (r: Result<Option<DirectoryRecord>, DbError>)
        ensures
            dir_answer(sql@, param_values(params@), r),
    {
        let row = match query_opt(&self.conn, sql, params, 6) {
            Ok(a) => a,
            Err(e) => return Err(DbError::Sqlite(e)),
        };
        let ghost answer = opt_row(row);
        let r = dir_from_opt_row(row);
        proof {
            if answer is Some {
                assert(row_query_answered(sql@, param_values(params@), 6, Some(Some(answer->0))));
            }
        }
        r
    }

    // ── Directories ──────────────────────────────────────────────────────

    /// Find or create a directory record for `path`. Touches
    /// `path_last_verified_at` if the record already exists; a created
    /// record carries a fresh UUID and the current time.
    pub fn upsert_directory_by_path(&mut self, path: &str) -> (r: Result<DirectoryRecord, DbError>)
        ensures
            r matches Ok(rec) ==> (exists|t: i64| final(self).written() == old(self).written().push(#[trigger] touch_stmt(t, rec.id)))
                || final(self).written() == old(self).written().push(stmt(INSERT_DIR_SQL@,
                    seq![ParamValue::Text(rec.uuid@), ParamValue::Text(path@), ParamValue::Integer(rec.created_at)])),
            r is Err ==> final(self).written() == old(self).written()
                || final(self).written().drop_last() == old(self).written(),
            r matches Ok(rec) ==> directory_upserted(path@, rec),
            r matches Err(e) ==> e is Sqlite || dir_answer(DIR_BY_PATH_SQL@, seq![ParamValue::Text(path@)], Err(e)),
    {
        let now = now_secs();
        match self.find_directory_by_path(path) {
            Err(e) => Err(e),
            Ok(Some(record)) => {
                proof {
                    let row = choose|row: Seq<SqlValue>| #[trigger] row_query_answered(DIR_BY_PATH_SQL@, seq![ParamValue::Text(path@)], 6, Some(Some(row)))
                        && dir_row_decodes(row, 0, record);
                    assert(dir_path_answered(path@, Some(row)));
                }
                let mut params: Vec<SqlParam> = Vec::new();
                params.push(SqlParam::Integer(now));
                params.push(SqlParam::Integer(record.id));
                proof {
                    assert(param_values(params@) =~= seq![ParamValue::Integer(now), ParamValue::Integer(record.id)]);
                }
                let outcome = self.run(TOUCH_DIR_SQL, &params);
                assert(self.written() == old(self).written().push(touch_stmt(now, record.id)));
                outcome?;
                assert(touch_ran(record.id, now));
                Ok(record)
            },
            Ok(None) => {
                assert(dir_path_answered(path@, None));
                let uuid = new_uuid();
                let mut params: Vec<SqlParam> = Vec::new();
                params.push(text_param(uuid.as_str()));
                params.push(text_param(path));
                params.push(SqlParam::Integer(now));
                proof {
                    assert(param_values(params@) =~= seq![ParamValue::Text(uuid@), ParamValue::Text(path@), ParamValue::Integer(now)]);
                }
                self.run(INSERT_DIR_SQL, &params)?;
                Ok(DirectoryRecord {
                    id: sqlite_last_insert_rowid(&self.conn),
                    uuid,
                    path: String::from_str(path),
                    sort_override: None,
                    created_at: now,
                    path_last_verified_at: Some(now),
                })
            },
        }
    }

    pub fn find_directory_by_path(&self, path: &str) -> (r: Result<Option<DirectoryRecord>, DbError>)
        ensures
            dir_answer(DIR_BY_PATH_SQL@, seq![ParamValue::Text(path@)], r),
    {
        let mut params: Vec<SqlParam> = Vec::new();
        params.push(text_param(path));
        proof {
            assert(param_values(params@) =~= seq![ParamValue::Text(path@)]);
        }
        self.dir_query(DIR_BY_PATH_SQL, &params)
    }

    pub fn find_directory_by_uuid(&self, uuid: &str) -> (r: Result<Option<DirectoryRecord>, DbError>)
        ensures
            dir_answer(DIR_BY_UUID_SQL@, seq![ParamValue::Text(uuid@)], r),
    {
        let mut params: Vec<SqlParam> = Vec::new();
        params.push(text_param(uuid));
        proof {
            assert(param_values(params@) =~= seq![ParamValue::Text(uuid@)]);
        }
        self.dir_query(DIR_BY_UUID_SQL, &params)
    }

    pub fn update_directory_path(&mut self, id: i64, new_path: &str) -> (r: Result<(), DbError>)
        ensures
            final(self).written() == old(self).written().push(stmt(UPDATE_DIR_PATH_SQL@, seq![ParamValue::Text(new_path@), ParamValue::Integer(id)])),
            r is Ok ==> ran_with(UPDATE_DIR_PATH_SQL@, seq![ParamValue::Text(new_path@), ParamValue::Integer(id)]),
            r matches Err(e) ==> e is Sqlite,
    {
        let mut params: Vec<SqlParam> = Vec::new();
        params.push(text_param(new_path));
        params.push(SqlParam::Integer(id));
        proof {
            assert(param_values(params@) =~= seq![ParamValue::Text(new_path@), ParamValue::Integer(id)]);
        }
        self.run(UPDATE_DIR_PATH_SQL, &params)
    }

    // ── Images ───────────────────────────────────────────────────────────

    pub fn get_image(&self, directory_id: i64, filename: &str) -> (r: Result<Option<ImageRecord>, DbError>)
        ensures
            image_answer(GET_IMAGE_SQL@, seq![ParamValue::Integer(directory_id), ParamValue::Text(filename@)], r),
    {
        let mut params: Vec<SqlParam> = Vec::new();
        params.push(SqlParam::Integer(directory_id));
        params.push(text_param(filename));
        proof {
            assert(param_values(params@) =~= seq![ParamValue::Integer(directory_id), ParamValue::Text(filename@)]);
        }
        let row = match query_opt(&self.conn, GET_IMAGE_SQL, &params, 10) {
            Ok(a) => a,
            Err(e) => return Err(DbError::Sqlite(e)),
        };
        match row {
            None => Ok(None),
            Some(v) => {
                assert(row_query_answered(GET_IMAGE_SQL@, param_values(params@), 10, Some(Some(v@))));
                let rec = map_image_row(&v, 0)?;
                Ok(Some(rec))
            },
        }
    }

    /// All image records of a directory.
    pub fn get_images(&self, directory_id: i64) -> (r: Result<Vec<ImageRecord>, DbError>)
        ensures
            images_answer(GET_IMAGES_SQL@, seq![ParamValue::Integer(directory_id)], r),
    {
        let mut params: Vec<SqlParam> = Vec::new();
        params.push(SqlParam::Integer(directory_id));
        proof {
            assert(param_values(params@) =~= seq![ParamValue::Integer(directory_id)]);
        }
        let rows = match sqlite_query_rows(&self.conn, GET_IMAGES_SQL, &params, 10) {
            Ok(rows) => rows,
            Err(e) => return Err(DbError::Sqlite(e)),
        };
        let ghost rv = rows_view(rows@);
        assert(rows_query_answered(GET_IMAGES_SQL@, param_values(params@), 10, Some(rv)));
        let r = map_image_rows(&rows);
        proof {
            assert forall|i: int| 0 <= i < rows@.len() implies #[trigger] rv[i] == rows@[i]@ by {}
            match r {
                Ok(ref v) => {
                    assert forall|i: int| 0 <= i < rv.len() implies image_row_decodes(#[trigger] rv[i], 0, v@[i]) by {
                        assert(rv[i] == rows@[i]@);
                    }
                },
                Err(_) => {
                    let i = choose|i: int| 0 <= i < rows@.len() && !image_row_well_typed(#[trigger] rows@[i]@, 0);
                    assert(rv[i] == rows@[i]@);
                },
            }
        }
        r
    }

    /// Delete the record of one image.
    pub fn delete_image(&mut self, directory_id: i64, filename: &str) -> (r: Result<(), DbError>)
        ensures
            final(self).written() == old(self).written().push(delete_stmt(directory_id, filename@)),
            r is Ok ==> ran_with(DELETE_IMAGE_SQL@, seq![ParamValue::Integer(directory_id), ParamValue::Text(filename@)]),
            r is Err ==> image_delete_failed(directory_id, filename@),
            r matches Err(e) ==> e is Sqlite,
    {
        let mut params: Vec<SqlParam> = Vec::new();
        params.push(SqlParam::Integer(directory_id));
        params.push(text_param(filename));
        proof {
            assert(param_values(params@) =~= seq![ParamValue::Integer(directory_id), ParamValue::Text(filename@)]);
        }
        self.run(DELETE_IMAGE_SQL, &params)
    }

    /// Set one field of an image with `sql`, whose first parameter is `value`.
    fn set_field(&mut self, sql: &str, directory_id: i64, filename: &str, value: SqlParam) -> (r: Result<(), DbError>)
        ensures
            exists|t1: i64, t2: i64| #[trigger] wrote_prefix_of(old(self).written(), field_stmts(sql@, param_value(value), directory_id, filename@, t1, t2), final(self).written())
                && (r is Ok ==> final(self).written() == old(self).written() + field_stmts(sql@, param_value(value), directory_id, filename@, t1, t2)),
            r is Ok ==> image_field_set(sql@, directory_id, filename@, param_value(value)),
            r matches Err(e) ==> e is Sqlite,
    {
        let ghost w0 = self.written();
        let first = self.ensure_image_exists(directory_id, filename);
        let ghost t1 = choose|t: i64| self.written() == w0.push(#[trigger] ensure_stmt(directory_id, filename@, t));
        let now = now_secs();
        let ghost v = param_value(value);
        let ghost all = field_stmts(sql@, v, directory_id, filename@, t1, now);
        if first.is_err() {
            proof {
                assert(all.take(1) =~= seq![ensure_stmt(directory_id, filename@, t1)]);
                assert(self.written() =~= w0 + all.take(1));
                assert(wrote_prefix_of(w0, all, self.written()));
            }
            return first;
        }
        let mut params: Vec<SqlParam> = Vec::new();
        params.push(value);
        params.push(SqlParam::Integer(now));
        params.push(SqlParam::Integer(directory_id));
        params.push(text_param(filename));
        proof {
            assert(param_values(params@) =~= seq![v, ParamValue::Integer(now), ParamValue::Integer(directory_id), ParamValue::Text(filename@)]);
        }
        let second = self.run(sql, &params);
        if second.is_err() {
            proof {
                assert(all.take(2) =~= seq![ensure_stmt(directory_id, filename@, t1), field_stmt(sql@, v, now, directory_id, filename@)]);
                assert(self.written() =~= w0 + all.take(2));
                assert(wrote_prefix_of(w0, all, self.written()));
            }
            return second;
        }
        assert(field_update_ran(sql@, directory_id, filename@, v, now));
        let third = self.gc_empty_record(directory_id, filename);
        proof {
            assert(all.take(3) =~= all);
            assert(self.written() =~= w0 + all);
            assert(self.written() =~= w0 + all.take(3));
            assert(wrote_prefix_of(w0, all, self.written()));
        }
        third
    }

    /// Set (or clear) the rating of an image; a record left empty is removed.
    pub fn set_rating(&mut self, directory_id: i64, filename: &str, rating: Option<u8>) -> (r: Result<(), DbError>)
        ensures
            exists|t1: i64, t2: i64| #[trigger] wrote_prefix_of(old(self).written(),
                field_stmts(SET_RATING_SQL@, rating_value(rating), directory_id, filename@, t1, t2), final(self).written())
                && (r is Ok ==> final(self).written() == old(self).written()
                    + field_stmts(SET_RATING_SQL@, rating_value(rating), directory_id, filename@, t1, t2)),
            r is Ok ==> image_field_set(SET_RATING_SQL@, directory_id, filename@, rating_value(rating)),
            r matches Err(e) ==> e is Sqlite,
    {
        self.set_field(SET_RATING_SQL, directory_id, filename, rating_param(rating))
    }

    /// Set or clear the bookmark of an image; a record left empty is removed.
    pub fn set_bookmark(&mut self, directory_id: i64, filename: &str, bookmarked: bool) -> (r: Result<(), DbError>)
        ensures
            exists|t1: i64, t2: i64| #[trigger] wrote_prefix_of(old(self).written(),
                field_stmts(SET_BOOKMARK_SQL@, bookmark_value(bookmarked), directory_id, filename@, t1, t2), final(self).written())
                && (r is Ok ==> final(self).written() == old(self).written()
                    + field_stmts(SET_BOOKMARK_SQL@, bookmark_value(bookmarked), directory_id, filename@, t1, t2)),
            r is Ok ==> image_field_set(SET_BOOKMARK_SQL@, directory_id, filename@, bookmark_value(bookmarked)),
            r matches Err(e) ==> e is Sqlite,
    {
        self.set_field(SET_BOOKMARK_SQL, directory_id, filename, SqlParam::Integer(if bookmarked { 1 } else { 0 }))
    }

    /// Set or clear the note of an image; a record left empty is removed.
    pub fn set_note(&mut self, directory_id: i64, filename: &str, note: Option<&str>) -> (r: Result<(), DbError>)
        ensures
            exists|t1: i64, t2: i64| #[trigger] wrote_prefix_of(old(self).written(),
                field_stmts(SET_NOTE_SQL@, note_value(note), directory_id, filename@, t1, t2), final(self).written())
                && (r is Ok ==> final(self).written() == old(self).written()
                    + field_stmts(SET_NOTE_SQL@, note_value(note), directory_id, filename@, t1, t2)),
            r is Ok ==> image_field_set(SET_NOTE_SQL@, directory_id, filename@, note_value(note)),
            r matches Err(e) ==> e is Sqlite,
    {
        let value = match note {
            Some(n) => text_param(n),
            None => SqlParam::Null,
        };
        self.set_field(SET_NOTE_SQL, directory_id, filename, value)
    }

    /// Insert a placeholder record if one doesn't already exist.
    fn ensure_image_exists(&mut self, directory_id: i64, filename: &str) -> (r: Result<(), DbError>)
        ensures
            exists|t: i64| final(self).written() == old(self).written().push(#[trigger] ensure_stmt(directory_id, filename@, t)),
            r is Ok ==> image_ensured(directory_id, filename@),
            r matches Err(e) ==> e is Sqlite,
    {
        let now = now_secs();
        let mut params: Vec<SqlParam> = Vec::new();
        params.push(SqlParam::Integer(directory_id));
        params.push(text_param(filename));
        params.push(SqlParam::Integer(now));
        proof {
            assert(param_values(params@) =~= seq![ParamValue::Integer(directory_id), ParamValue::Text(filename@), ParamValue::Integer(now)]);
        }
        let r = self.run(ENSURE_IMAGE_SQL, &params);
        proof {
            if r is Ok {
                assert(ensure_ran(directory_id, filename@, now));
            }
            assert(self.written() == old(self).written().push(ensure_stmt(directory_id, filename@, now)));
        }
        r
    }

    /// Delete a record that has no data worth keeping (sparse-storage policy).
    fn gc_empty_record(&mut self, directory_id: i64, filename: &str) -> (r: Result<(), DbError>)
        ensures
            final(self).written() == old(self).written().push(gc_stmt(directory_id, filename@)),
            r is Ok ==> empty_record_collected(directory_id, filename@),
            r matches Err(e) ==> e is Sqlite,
    {
        let mut params: Vec<SqlParam> = Vec::new();
        params.push(SqlParam::Integer(directory_id));
        params.push(text_param(filename));
        proof {
            assert(param_values(params@) =~= seq![ParamValue::Integer(directory_id), ParamValue::Text(filename@)]);
        }
        self.run(GC_IMAGE_SQL, &params)
    }

    // ── Meta views ────────────────────────────────────────────────────────

    /// Run a meta-view query and decode its joined rows.
    fn joined_query(&self, sql: &str) -> (r: Result<Vec<(String, ImageRecord)>, DbError>)
        ensures
            joined_answer(sql@, r),
    {
        let params: Vec<SqlParam> = Vec::new();
        proof {
            assert(param_values(params@) =~= Seq::<ParamValue>::empty());
        }
        let rows = match sqlite_query_rows(&self.conn, sql, &params, 11) {
            Ok(rows) => rows,
            Err(e) => return Err(DbError::Sqlite(e)),
        };
        let ghost rv = rows_view(rows@);
        assert(rows_query_answered(sql@, Seq::empty(), 11, Some(rv)));
        let r = map_joined_rows(&rows);
        proof {
            assert forall|i: int| 0 <= i < rows@.len() implies #[trigger] rv[i] == rows@[i]@ by {}
            match r {
                Ok(ref v) => {
                    assert forall|i: int| 0 <= i < rv.len() implies joined_row_decodes(#[trigger] rv[i], v@[i]) by {
                        assert(rv[i] == rows@[i]@);
                    }
                },
                Err(_) => {
                    let i = choose|i: int| 0 <= i < rows@.len() && !joined_row_well_typed(#[trigger] rows@[i]@);
                    assert(rv[i] == rows@[i]@);
                },
            }
        }
        r
    }

    /// All bookmarked images, most recently bookmarked first.
    pub fn get_bookmarked(&self) -> (r: Result<Vec<(String, ImageRecord)>, DbError>)
        ensures
            joined_answer(BOOKMARKED_SQL@, r),
    {
        self.joined_query(BOOKMARKED_SQL)
    }

    /// All rated images, highest rating first.
    pub fn get_rated(&self) -> (r: Result<Vec<(String, ImageRecord)>, DbError>)
        ensures
            joined_answer(RATED_SQL@, r),
    {
        self.joined_query(RATED_SQL)
    }

    /// The rated images that `filter` accepts, in the order of
    /// [`Database::get_rated`].
    pub fn get_rated_filtered(&self, filter: RatingFilter) -> (r: Result<Vec<(String, ImageRecord)>, DbError>)
        ensures
            r matches Ok(v) ==> exists|all: Seq<(String, ImageRecord)>| #[trigger] rated_answer(all)
                && v@ == all.filter(|p: (String, ImageRecord)| filter_accepts(filter, p.1.rating)),
            r matches Ok(v) ==> forall|i: int| 0 <= i < v@.len() ==> filter_accepts(filter, (#[trigger] v@[i]).1.rating),
            r matches Err(e) ==> joined_answer(RATED_SQL@, Err(e)),
    {
        let all = self.get_rated()?;
        let out = filter_by_rating(&all, filter);
        proof {
            assert(rated_answer(all@));
            assert forall|i: int| 0 <= i < out@.len() implies filter_accepts(filter, (#[trigger] out@[i]).1.rating) by {
                all@.lemma_filter_pred(|p: (String, ImageRecord)| filter_accepts(filter, p.1.rating), i);
            }
        }
        Ok(out)
    }

    // ── Settings ─────────────────────────────────────────────────────────

    pub fn get_setting(&self, key: &str) -> (r: Result<Option<String>, DbError>)
        ensures
            setting_answer(key@, r),
    {
        let mut params: Vec<SqlParam> = Vec::new();
        params.push(text_param(key));
        proof {
            assert(param_values(params@) =~= seq![ParamValue::Text(key@)]);
        }
        let row = match query_opt(&self.conn, GET_SETTING_SQL, &params, 1) {
            Ok(a) => a,
            Err(e) => return Err(DbError::Sqlite(e)),
        };
        assert(row is None ==> setting_answered(key@, None));
        match row {
            None => Ok(None),
            Some(v) => {
                assert(setting_answered(key@, Some(v@)));
                let value = get_text(&v, 0)?;
                Ok(Some(value))
            },
        }
    }

    pub fn set_setting(&mut self, key: &str, value: &str) -> (r: Result<(), DbError>)
        ensures
            final(self).written() == old(self).written().push(stmt(SET_SETTING_SQL@, seq![ParamValue::Text(key@), ParamValue::Text(value@)])),
            r is Ok ==> ran_with(SET_SETTING_SQL@, seq![ParamValue::Text(key@), ParamValue::Text(value@)]),
            r matches Err(e) ==> e is Sqlite,
    {
        let mut params: Vec<SqlParam> = Vec::new();
        params.push(text_param(key));
        params.push(text_param(value));
        proof {
            assert(param_values(params@) =~= seq![ParamValue::Text(key@), ParamValue::Text(value@)]);
        }
        self.run(SET_SETTING_SQL, &params)
    }
}

} // verus!
