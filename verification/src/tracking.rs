//! SQLite-backed storage for configuration and snapshot metadata. File
//! contents are never stored here; they live in the internal git
//! repository.

use vstd::prelude::*;
use crate::models::{opt_text, Category, ConfigKind, Configuration, Sensitivity, Snapshot};
use crate::text::{chars_eq, chars_of, text_eq};
use crate::CoreError;

verus! {

#[verifier::external_type_specification]
#[verifier::external_body]
pub struct ExConnection(rusqlite::Connection);

#[verifier::external_type_specification]
#[verifier::external_body]
pub struct ExStatement<'conn>(rusqlite::Statement<'conn>);

/// A value bound to a statement parameter.
#[derive(Debug)]
pub enum SqlValue {
    Null,
    Integer(i64),
    Text(String),
}

/// One row of the `configurations` table, as stored.
#[derive(Debug)]
pub struct ConfigRow {
    pub id: String,
    pub definition_id: Option<String>,
    pub name: String,
    pub path: String,
    pub category: String,
    pub kind: String,
    pub sensitivity: String,
    pub added_at: String,
    pub last_snapshot_at: Option<String>,
}

/// One row of the `snapshots` table, as stored.
#[derive(Debug)]
pub struct SnapshotRow {
    pub id: String,
    pub configuration_id: String,
    pub created_at: String,
    pub git_commit: String,
    pub reason: String,
    pub favorite: i64,
    pub archived: i64,
}

/// Opens (or creates) the database file at `path`.
/// Trusted: `rusqlite::Connection::open`; its outcome depends on the disk.
#[verifier::external_body]
fn db_open(path: &str) -> Result<rusqlite::Connection, rusqlite::Error> {
    rusqlite::Connection::open(path)
}

/// Runs a batch of statements.
/// Trusted: `rusqlite::Connection::execute_batch`; its outcome depends on the database.
#[verifier::external_body]
fn db_execute_batch(conn: &rusqlite::Connection, sql: &str) -> Result<(), rusqlite::Error> {
    conn.execute_batch(sql)
}

/// Runs one statement with its parameters.
/// Trusted: `rusqlite::Connection::execute`, each parameter passed as the
/// matching `rusqlite::types::Value`; its outcome depends on the database.
#[verifier::external_body]
fn db_execute(conn: &rusqlite::Connection, sql: &str, params: &Vec<SqlValue>) -> Result<usize, rusqlite::Error> {
    let values: Vec<rusqlite::types::Value> = params
        .iter()
        .map(|p| match p {
            SqlValue::Null => rusqlite::types::Value::Null,
            SqlValue::Integer(i) => rusqlite::types::Value::Integer(*i),
            SqlValue::Text(s) => rusqlite::types::Value::Text(s.clone()),
        })
        .collect();
    conn.execute(sql, rusqlite::params_from_iter(values))
}

/// Prepares a query.
/// Trusted: `rusqlite::Connection::prepare`; its outcome depends on the database.
#[verifier::external_body]
fn db_prepare<'conn>(conn: &'conn rusqlite::Connection, sql: &str) -> Result<rusqlite::Statement<'conn>, rusqlite::Error> {
    conn.prepare(sql)
}

/// Runs a prepared query over the `configurations` columns, in table order.
/// Trusted: `rusqlite::Statement::query_map`, each column read with
/// `Row::get`; the rows depend on the database.
#[verifier::external_body]
fn db_query_configurations(stmt: &mut rusqlite::Statement, param: &str) -> Result<Vec<ConfigRow>, rusqlite::Error> {
    stmt.query_map([param], |r| {
        Ok(ConfigRow {
            id: r.get(0)?, definition_id: r.get(1)?, name: r.get(2)?, path: r.get(3)?,
            category: r.get(4)?, kind: r.get(5)?, sensitivity: r.get(6)?,
            added_at: r.get(7)?, last_snapshot_at: r.get(8)?,
        })
    })?.collect()
}

/// Runs a prepared query over the `snapshots` columns, in table order.
/// Trusted: `rusqlite::Statement::query_map`, each column read with
/// `Row::get`; the rows depend on the database.
#[verifier::external_body]
fn db_query_snapshots(stmt: &mut rusqlite::Statement, param: &str) -> Result<Vec<SnapshotRow>, rusqlite::Error> {
    stmt.query_map([param], |r| {
        Ok(SnapshotRow {
            id: r.get(0)?, configuration_id: r.get(1)?, created_at: r.get(2)?,
            git_commit: r.get(3)?, reason: r.get(4)?, favorite: r.get(5)?, archived: r.get(6)?,
        })
    })?.collect()
}

/// A fresh random identifier.
/// Trusted: `uuid::Uuid::new_v4`, in its hyphenated text form; random.
#[verifier::external_body]
fn new_id() -> String {
    uuid::Uuid::new_v4().to_string()
}

/// The current time as RFC 3339 text.
/// Trusted: `chrono::Utc::now` formatted with `to_rfc3339`; depends on the clock.
#[verifier::external_body]
fn now_rfc3339() -> String {
    chrono::Utc::now().to_rfc3339()
}

/// The stored name of each category.
pub open spec fn category_text(c: Category) -> Seq<char> {
    match c {
        Category::Shell => "shell"@,
        Category::Git => "git"@,
        Category::Terminal => "terminal"@,
        Category::Editor => "editor"@,
        Category::Ssh => "ssh"@,
        Category::PackageManagers => "package_managers"@,
        Category::DeveloperTools => "developer_tools"@,
        Category::Other => "other"@,
    }
}

/// The category a stored name stands for; unknown names read as `Other`.
pub open spec fn category_from_text(s: Seq<char>) -> Category {
    if s == "shell"@ {
        Category::Shell
    } else if s == "git"@ {
        Category::Git
    } else if s == "terminal"@ {
        Category::Terminal
    } else if s == "editor"@ {
        Category::Editor
    } else if s == "ssh"@ {
        Category::Ssh
    } else if s == "package_managers"@ {
        Category::PackageManagers
    } else if s == "developer_tools"@ {
        Category::DeveloperTools
    } else {
        Category::Other
    }
}

/// The stored name of each kind.
pub open spec fn kind_text(k: ConfigKind) -> Seq<char> {
    match k {
        ConfigKind::File => "file"@,
        ConfigKind::Directory => "directory"@,
    }
}

/// The kind a stored name stands for; anything but `directory` is a file.
pub open spec fn kind_from_text(s: Seq<char>) -> ConfigKind {
    if s == "directory"@ {
        ConfigKind::Directory
    } else {
        ConfigKind::File
    }
}

/// The stored name of each sensitivity.
pub open spec fn sensitivity_text(s: Sensitivity) -> Seq<char> {
    match s {
        Sensitivity::Normal => "normal"@,
        Sensitivity::PotentialSecret => "potential_secret"@,
        Sensitivity::HighlySensitive => "highly_sensitive"@,
    }
}

/// The sensitivity a stored name stands for; unknown names read as `Normal`.
pub open spec fn sensitivity_from_text(s: Seq<char>) -> Sensitivity {
    if s == "potential_secret"@ {
        Sensitivity::PotentialSecret
    } else if s == "highly_sensitive"@ {
        Sensitivity::HighlySensitive
    } else {
        Sensitivity::Normal
    }
}

pub fn category_str(c: Category) -> (r: &'static str)
    ensures
        r@ == category_text(c),
{
    match c {
        Category::Shell => "shell",
        Category::Git => "git",
        Category::Terminal => "terminal",
        Category::Editor => "editor",
        Category::Ssh => "ssh",
        Category::PackageManagers => "package_managers",
        Category::DeveloperTools => "developer_tools",
        Category::Other => "other",
    }
}

pub fn parse_category(s: &str) -> (r: Category)
    ensures
        r == category_from_text(s@),
{
    if text_eq(s, "shell") {
        Category::Shell
    } else if text_eq(s, "git") {
        Category::Git
    } else if text_eq(s, "terminal") {
        Category::Terminal
    } else if text_eq(s, "editor") {
        Category::Editor
    } else if text_eq(s, "ssh") {
        Category::Ssh
    } else if text_eq(s, "package_managers") {
        Category::PackageManagers
    } else if text_eq(s, "developer_tools") {
        Category::DeveloperTools
    } else {
        Category::Other
    }
}

pub fn kind_str(k: ConfigKind) -> (r: &'static str)
    ensures
        r@ == kind_text(k),
{
    match k {
        ConfigKind::File => "file",
        ConfigKind::Directory => "directory",
    }
}

pub fn parse_kind(s: &str) -> (r: ConfigKind)
    ensures
        r == kind_from_text(s@),
{
    if text_eq(s, "directory") {
        ConfigKind::Directory
    } else {
        ConfigKind::File
    }
}

pub fn sensitivity_str(s: Sensitivity) -> (r: &'static str)
    ensures
        r@ == sensitivity_text(s),
{
    match s {
        Sensitivity::Normal => "normal",
        Sensitivity::PotentialSecret => "potential_secret",
        Sensitivity::HighlySensitive => "highly_sensitive",
    }
}

pub fn parse_sensitivity(s: &str) -> (r: Sensitivity)
    ensures
        r == sensitivity_from_text(s@),
{
    if text_eq(s, "potential_secret") {
        Sensitivity::PotentialSecret
    } else if text_eq(s, "highly_sensitive") {
        Sensitivity::HighlySensitive
    } else {
        Sensitivity::Normal
    }
}

/// Reading back the stored name of a category gives the category.
pub proof fn lemma_category_round_trip(c: Category)
    ensures
        category_from_text(category_text(c)) == c,
{
    reveal_strlit("shell");
    reveal_strlit("git");
    reveal_strlit("terminal");
    reveal_strlit("editor");
    reveal_strlit("ssh");
    reveal_strlit("package_managers");
    reveal_strlit("developer_tools");
    reveal_strlit("other");
    assert("shell"@.len() == 5);
    assert("git"@.len() == 3);
    assert("terminal"@.len() == 8);
    assert("editor"@.len() == 6);
    assert("ssh"@.len() == 3);
    assert("package_managers"@.len() == 16);
    assert("developer_tools"@.len() == 15);
    assert("other"@.len() == 5);
    assert("git"@[0] != "ssh"@[0]);
    assert("shell"@[0] != "other"@[0]);
}

/// Reading back the stored name of a kind gives the kind.
pub proof fn lemma_kind_round_trip(k: ConfigKind)
    ensures
        kind_from_text(kind_text(k)) == k,
{
    reveal_strlit("file");
    reveal_strlit("directory");
    assert("file"@.len() == 4);
    assert("directory"@.len() == 9);
}

/// Reading back the stored name of a sensitivity gives the sensitivity.
pub proof fn lemma_sensitivity_round_trip(s: Sensitivity)
    ensures
        sensitivity_from_text(sensitivity_text(s)) == s,
{
    reveal_strlit("normal");
    reveal_strlit("potential_secret");
    reveal_strlit("highly_sensitive");
    assert("normal"@.len() == 6);
    assert("potential_secret"@.len() == 16);
    assert("highly_sensitive"@.len() == 16);
    assert("potential_secret"@[0] != "highly_sensitive"@[0]);
}

/// The configuration a stored row describes.
pub open spec fn row_describes(row: ConfigRow, c: Configuration) -> bool {
    &&& c.id@ == row.id@
    &&& opt_text(c.definition_id) == opt_text(row.definition_id)
    &&& c.name@ == row.name@
    &&& c.path@ == row.path@
    &&& c.category == category_from_text(row.category@)
    &&& c.kind == kind_from_text(row.kind@)
    &&& c.sensitivity == sensitivity_from_text(row.sensitivity@)
    &&& c.added_at@ == row.added_at@
    &&& opt_text(c.last_snapshot_at) == opt_text(row.last_snapshot_at)
}

pub fn row_to_configuration(row: ConfigRow) -> (r: Configuration)
    ensures
        row_describes(row, r),
{
    let category = parse_category(row.category.as_str());
    let kind = parse_kind(row.kind.as_str());
    let sensitivity = parse_sensitivity(row.sensitivity.as_str());
    Configuration {
        id: row.id,
        definition_id: row.definition_id,
        name: row.name,
        path: row.path,
        category,
        kind,
        sensitivity,
        added_at: row.added_at,
        last_snapshot_at: row.last_snapshot_at,
    }
}

/// The snapshot a stored row describes.
pub open spec fn snapshot_row_describes(row: SnapshotRow, s: Snapshot) -> bool {
    &&& s.id@ == row.id@
    &&& s.configuration_id@ == row.configuration_id@
    &&& s.created_at@ == row.created_at@
    &&& s.git_commit@ == row.git_commit@
    &&& s.reason@ == row.reason@
    &&& s.favorite == (row.favorite != 0)
    &&& s.archived == (row.archived != 0)
}

pub fn row_to_snapshot(row: SnapshotRow) -> (r: Snapshot)
    ensures
        snapshot_row_describes(row, r),
{
    Snapshot {
        id: row.id,
        configuration_id: row.configuration_id,
        created_at: row.created_at,
        git_commit: row.git_commit,
        reason: row.reason,
        favorite: row.favorite != 0,
        archived: row.archived != 0,
    }
}

fn flag(b: bool) -> (r: SqlValue)
    ensures
        r == (if b { SqlValue::Integer(1) } else { SqlValue::Integer(0) }),
{
    if b {
        SqlValue::Integer(1)
    } else {
        SqlValue::Integer(0)
    }
}

fn opt_value(o: &Option<String>) -> (r: SqlValue)
    ensures
        match o {
            Some(s) => r matches SqlValue::Text(t) && t@ == s@,
            None => r is Null,
        },
{
    match o {
        Some(s) => SqlValue::Text(s.clone()),
        None => SqlValue::Null,
    }
}

/// `p` binds the text `s`.
pub open spec fn text_param(p: SqlValue, s: Seq<char>) -> bool {
    p matches SqlValue::Text(t) && t@ == s
}

/// `p` binds the text of `o`, or `NULL` for `None`.
pub open spec fn opt_text_param(p: SqlValue, o: Option<Seq<char>>) -> bool {
    match o {
        Some(s) => text_param(p, s),
        None => p is Null,
    }
}

/// `p` binds 1 for `true` and 0 for `false`.
pub open spec fn flag_param(p: SqlValue, b: bool) -> bool {
    p == (if b { SqlValue::Integer(1) } else { SqlValue::Integer(0) })
}

/// `p` are the parameters of the row that stores `c` (see
/// [`configuration_params`]).
pub open spec fn configuration_args(p: Seq<SqlValue>, c: Configuration) -> bool {
    &&& p.len() == 9
    &&& text_param(p[0], c.id@)
    &&& opt_text_param(p[1], opt_text(c.definition_id))
    &&& text_param(p[2], c.name@)
    &&& text_param(p[3], c.path@)
    &&& text_param(p[4], category_text(c.category))
    &&& text_param(p[5], kind_text(c.kind))
    &&& text_param(p[6], sensitivity_text(c.sensitivity))
    &&& text_param(p[7], c.added_at@)
    &&& opt_text_param(p[8], opt_text(c.last_snapshot_at))
}

/// `p` are the parameters of the row that stores `s` (see
/// [`snapshot_params`]).
pub open spec fn snapshot_args(p: Seq<SqlValue>, s: Snapshot) -> bool {
    &&& p.len() == 5
    &&& text_param(p[0], s.id@)
    &&& text_param(p[1], s.configuration_id@)
    &&& text_param(p[2], s.created_at@)
    &&& text_param(p[3], s.git_commit@)
    &&& text_param(p[4], s.reason@)
}

/// `p` sets the flag `b` on the row with `id`.
pub open spec fn flag_and_id_args(p: Seq<SqlValue>, b: bool, id: Seq<char>) -> bool {
    p.len() == 2 && flag_param(p[0], b) && text_param(p[1], id)
}

/// `p` sets the text `v` on the row with `id`.
pub open spec fn text_and_id_args(p: Seq<SqlValue>, v: Seq<char>, id: Seq<char>) -> bool {
    p.len() == 2 && text_param(p[0], v) && text_param(p[1], id)
}

/// `p` binds the single text `t`.
pub open spec fn text_arg(p: Seq<SqlValue>, t: Seq<char>) -> bool {
    p.len() == 1 && text_param(p[0], t)
}

/// A statement handed to the database: its text and its parameters.
pub open spec fn one_more(
    before: Seq<(Seq<char>, Seq<SqlValue>)>,
    after: Seq<(Seq<char>, Seq<SqlValue>)>,
    sql: Seq<char>,
) -> bool {
    &&& after.len() == before.len() + 1
    &&& after.drop_last() == before
    &&& after.last().0 == sql
}

/// The statement that stores a new configuration.
pub open spec fn sql_insert_configuration() -> Seq<char> {
    "INSERT INTO configurations (id, definition_id, name, path, category, kind, sensitivity, added_at, last_snapshot_at) VALUES (?1, ?2, ?3, ?4, ?5, ?6, ?7, ?8, ?9)"@
}

/// The query for configurations by name; `?1 = '1'` includes archived ones.
pub open spec fn sql_list_configurations() -> Seq<char> {
    "SELECT id, definition_id, name, path, category, kind, sensitivity, added_at, last_snapshot_at FROM configurations WHERE (?1 = '1' OR archived = 0) ORDER BY name ASC"@
}

/// The query for archived configurations by name.
pub open spec fn sql_list_archived_configurations() -> Seq<char> {
    "SELECT id, definition_id, name, path, category, kind, sensitivity, added_at, last_snapshot_at FROM configurations WHERE archived = 1 AND ?1 = ?1 ORDER BY name ASC"@
}

/// The statement that removes a configuration.
pub open spec fn sql_remove_configuration() -> Seq<char> {
    "DELETE FROM configurations WHERE id = ?1"@
}

/// The statement that archives a configuration or brings it back.
pub open spec fn sql_set_configuration_archived() -> Seq<char> {
    "UPDATE configurations SET archived = ?1 WHERE id = ?2"@
}

/// The statement that sets a configuration's last snapshot time.
pub open spec fn sql_touch_last_snapshot() -> Seq<char> {
    "UPDATE configurations SET last_snapshot_at = ?1 WHERE id = ?2"@
}

/// The statement that stores a new snapshot.
pub open spec fn sql_insert_snapshot() -> Seq<char> {
    "INSERT INTO snapshots (id, configuration_id, created_at, git_commit, reason) VALUES (?1, ?2, ?3, ?4, ?5)"@
}

/// The statement that marks a snapshot as a favorite or not.
pub open spec fn sql_set_snapshot_favorite() -> Seq<char> {
    "UPDATE snapshots SET favorite = ?1 WHERE id = ?2"@
}

/// The statement that archives a snapshot or brings it back.
pub open spec fn sql_set_snapshot_archived() -> Seq<char> {
    "UPDATE snapshots SET archived = ?1 WHERE id = ?2"@
}

/// The statement that removes a snapshot.
pub open spec fn sql_delete_snapshot() -> Seq<char> {
    "DELETE FROM snapshots WHERE id = ?1"@
}

/// The parameters of the row that stores `c`, in column order: id,
/// definition id, name, path, category, kind, sensitivity, time added, time
/// of the last snapshot.
pub fn configuration_params(c: &Configuration) -> (r: Vec<SqlValue>)
    ensures
        r@.len() == 9,
        text_param(r@[0], c.id@),
        opt_text_param(r@[1], opt_text(c.definition_id)),
        text_param(r@[2], c.name@),
        text_param(r@[3], c.path@),
        text_param(r@[4], category_text(c.category)),
        text_param(r@[5], kind_text(c.kind)),
        text_param(r@[6], sensitivity_text(c.sensitivity)),
        text_param(r@[7], c.added_at@),
        opt_text_param(r@[8], opt_text(c.last_snapshot_at)),
        configuration_args(r@, *c),
{
    vec![
        SqlValue::Text(c.id.clone()),
        opt_value(&c.definition_id),
        SqlValue::Text(c.name.clone()),
        SqlValue::Text(c.path.clone()),
        SqlValue::Text(category_str(c.category).to_owned()),
        SqlValue::Text(kind_str(c.kind).to_owned()),
        SqlValue::Text(sensitivity_str(c.sensitivity).to_owned()),
        SqlValue::Text(c.added_at.clone()),
        opt_value(&c.last_snapshot_at),
    ]
}

/// The parameters of the row that stores `s`, in column order: id,
/// configuration id, time taken, commit, reason.
pub fn snapshot_params(s: &Snapshot) -> (r: Vec<SqlValue>)
    ensures
        r@.len() == 5,
        text_param(r@[0], s.id@),
        text_param(r@[1], s.configuration_id@),
        text_param(r@[2], s.created_at@),
        text_param(r@[3], s.git_commit@),
        text_param(r@[4], s.reason@),
        snapshot_args(r@, *s),
{
    vec![
        SqlValue::Text(s.id.clone()),
        SqlValue::Text(s.configuration_id.clone()),
        SqlValue::Text(s.created_at.clone()),
        SqlValue::Text(s.git_commit.clone()),
        SqlValue::Text(s.reason.clone()),
    ]
}

/// The parameters of an update that sets a flag on the row with `id`.
pub fn flag_and_id_params(value: bool, id: &str) -> (r: Vec<SqlValue>)
    ensures
        r@.len() == 2,
        flag_param(r@[0], value),
        text_param(r@[1], id@),
        flag_and_id_args(r@, value, id@),
{
    vec![flag(value), SqlValue::Text(id.to_owned())]
}

/// The parameters of an update that sets a text on the row with `id`.
pub fn text_and_id_params(value: &str, id: &str) -> (r: Vec<SqlValue>)
    ensures
        r@.len() == 2,
        text_param(r@[0], value@),
        text_param(r@[1], id@),
        text_and_id_args(r@, value@, id@),
{
    vec![SqlValue::Text(value.to_owned()), SqlValue::Text(id.to_owned())]
}

/// The parameters of a statement about the row with `id`.
pub fn id_params(id: &str) -> (r: Vec<SqlValue>)
    ensures
        r@.len() == 1,
        text_param(r@[0], id@),
        text_arg(r@, id@),
{
    vec![SqlValue::Text(id.to_owned())]
}

/// The configurations stored in `rows`, in order.
pub fn configurations_from_rows(rows: Vec<ConfigRow>) -> (r: Vec<Configuration>)
    ensures
        r@.len() == rows@.len(),
        forall|i: int| 0 <= i < r@.len() ==> row_describes(#[trigger] rows@[i], r@[i]),
{
    let mut out: Vec<Configuration> = Vec::new();
    for row in it: rows
        invariant
            it.seq() == rows@,
            out@.len() == it.index(),
            forall|i: int| 0 <= i < out@.len() ==> row_describes(#[trigger] rows@[i], out@[i]),
    {
        out.push(row_to_configuration(row));
    }
    out
}

/// `v` is what some rows of the `configurations` table describe, in order.
pub open spec fn configurations_of_some_rows(v: Seq<Configuration>) -> bool {
    exists|rows: Seq<ConfigRow>| rows.len() == v.len() && forall|i: int| 0 <= i < v.len() ==> #[trigger] row_describes(rows[i], v[i])
}

/// `v` is what the rows of configuration `id` among some rows of the
/// `snapshots` table describe, in order.
pub open spec fn snapshots_of_some_rows(v: Seq<Snapshot>, id: Seq<char>) -> bool {
    exists|rows: Seq<SnapshotRow>| rows_of(rows, id).len() == v.len()
        && forall|i: int| 0 <= i < v.len() ==> #[trigger] snapshot_row_describes(rows_of(rows, id)[i], v[i])
}

/// The rows of `rows` that belong to configuration `id`, in order.
pub open spec fn rows_of(rows: Seq<SnapshotRow>, id: Seq<char>) -> Seq<SnapshotRow> {
    rows.filter(|r: SnapshotRow| r.configuration_id@ == id)
}

/// The snapshots stored in `rows` that belong to configuration `id`, in order.
pub fn snapshots_from_rows(rows: Vec<SnapshotRow>, id: &str) -> (r: Vec<Snapshot>)
    ensures
        r@.len() == rows_of(rows@, id@).len(),
        forall|i: int| 0 <= i < r@.len() ==> snapshot_row_describes(#[trigger] rows_of(rows@, id@)[i], r@[i]),
{
    let key = chars_of(id);
    let mut out: Vec<Snapshot> = Vec::new();
    for row in it: rows
        invariant
            it.seq() == rows@,
            key@ == id@,
            out@.len() == rows_of(rows@.take(it.index() as int), id@).len(),
            forall|i: int| 0 <= i < out@.len() ==> snapshot_row_describes(#[trigger] rows_of(rows@.take(it.index() as int), id@)[i], out@[i]),
    {
        let ghost k = it.index() as int;
        assert(rows@.take(k + 1).drop_last() =~= rows@.take(k));
        assert(rows@.take(k + 1).last() == row);
        reveal_with_fuel(Seq::filter, 1);
        let here = chars_of(row.configuration_id.as_str());
        let keep = chars_eq(&here, &key);
        let s = row_to_snapshot(row);
        if keep {
            out.push(s);
        }
    }
    assert(rows@.take(rows@.len() as int) =~= rows@);
    out
}

/// SQLite-backed storage for configuration and snapshot metadata.
pub struct Store {
    conn: rusqlite::Connection,
    sent: Ghost<Seq<(Seq<char>, Seq<SqlValue>)>>,
    heard: Ghost<Seq<(Seq<char>, Seq<Snapshot>)>>,
}

impl Store {
    /// The statements this store has handed to the database that change it
    /// or list configurations, in order, each with its parameters.
    pub closed spec fn sent(&self) -> Seq<(Seq<char>, Seq<SqlValue>)> {
        self.sent@
    }

    /// The snapshot lists this store has answered where they are recorded
    /// (see [`Store::list_snapshots_recorded`]): the configuration id asked
    /// for and the snapshots given back, in order.
    pub closed spec fn heard(&self) -> Seq<(Seq<char>, Seq<Snapshot>)> {
        self.heard@
    }

    /// Opens the database at `db_path` and creates its tables if needed.
    pub fn open(db_path: &str) -> (r: Result<Store, CoreError>)
        ensures
            r matches Ok(st) ==> st.sent().len() == 0 && st.heard().len() == 0,
            r matches Err(e) ==> e is Db,
    {
        let conn = match db_open(db_path) {
            Ok(c) => c,
            Err(e) => {
                return Err(CoreError::Db(e));
            },
        };
        match db_execute_batch(
            &conn,
            "PRAGMA foreign_keys = ON;
            CREATE TABLE IF NOT EXISTS configurations (
                id TEXT PRIMARY KEY,
                definition_id TEXT,
                name TEXT NOT NULL,
                path TEXT NOT NULL,
                category TEXT NOT NULL,
                kind TEXT NOT NULL,
                sensitivity TEXT NOT NULL,
                added_at TEXT NOT NULL,
                last_snapshot_at TEXT,
                archived INTEGER NOT NULL DEFAULT 0
            );
            CREATE TABLE IF NOT EXISTS snapshots (
                id TEXT PRIMARY KEY,
                configuration_id TEXT NOT NULL REFERENCES configurations(id) ON DELETE CASCADE,
                created_at TEXT NOT NULL,
                git_commit TEXT NOT NULL,
                reason TEXT NOT NULL,
                favorite INTEGER NOT NULL DEFAULT 0,
                archived INTEGER NOT NULL DEFAULT 0
            );
            CREATE TABLE IF NOT EXISTS settings (
                key TEXT PRIMARY KEY,
                value TEXT NOT NULL
            );",
        ) {
            Ok(()) => Ok(Store { conn, sent: Ghost(Seq::empty()), heard: Ghost(Seq::empty()) }),
            Err(e) => Err(CoreError::Db(e)),
        }
    }

    fn note(&mut self, sql: &str, params: &Vec<SqlValue>)
        ensures
            final(self).heard() == old(self).heard(),
            final(self).sent() == old(self).sent().push((sql@, params@)),
            one_more(old(self).sent(), final(self).sent(), sql@),
            final(self).sent().last().1 == params@,
    {
        let ghost before = self.sent@;
        self.sent = Ghost(self.sent@.push((sql@, params@)));
        assert(self.sent@.drop_last() =~= before);
    }

    /// Records a new configuration and returns it. It is not archived and
    /// has no snapshot yet.
    pub fn add_configuration(
        &mut self,
        definition_id: Option<&str>,
        name: &str,
        path: &str,
        category: Category,
        kind: ConfigKind,
        sensitivity: Sensitivity,
    ) -> (r: Result<Configuration, CoreError>)
        ensures
            final(self).heard() == old(self).heard(),
            r matches Ok(c) ==> {
                &&& opt_text(c.definition_id) == (match definition_id {
                    Some(d) => Some(d@),
                    None => None::<Seq<char>>,
                })
                &&& c.name@ == name@
                &&& c.path@ == path@
                &&& c.category == category
                &&& c.kind == kind
                &&& c.sensitivity == sensitivity
                &&& c.last_snapshot_at is None
                &&& configuration_args(final(self).sent().last().1, c)
            },
            one_more(old(self).sent(), final(self).sent(), sql_insert_configuration()),
            opt_text_param(final(self).sent().last().1[1], match definition_id {
                Some(d) => Some(d@),
                None => None::<Seq<char>>,
            }),
            text_param(final(self).sent().last().1[2], name@),
            text_param(final(self).sent().last().1[3], path@),
            r matches Err(e) ==> e is Db,
    {
        let def: Option<String> = match definition_id {
            Some(d) => Some(d.to_owned()),
            None => None,
        };
        let config = Configuration {
            id: new_id(),
            definition_id: def,
            name: name.to_owned(),
            path: path.to_owned(),
            category,
            kind,
            sensitivity,
            added_at: now_rfc3339(),
            last_snapshot_at: None,
        };
        let params = configuration_params(&config);
        let sql = "INSERT INTO configurations (id, definition_id, name, path, category, kind, sensitivity, added_at, last_snapshot_at) VALUES (?1, ?2, ?3, ?4, ?5, ?6, ?7, ?8, ?9)";
        self.note(sql, &params);
        match db_execute(&self.conn, sql, &params) {
            Ok(_) => Ok(config),
            Err(e) => Err(CoreError::Db(e)),
        }
    }

    fn query_configurations(&self, sql: &str, param: &str) -> (r: Result<Vec<Configuration>, CoreError>)
        ensures
            r matches Ok(v) ==> configurations_of_some_rows(v@),
            r matches Err(e) ==> e is Db,
    {
        let mut stmt = match db_prepare(&self.conn, sql) {
            Ok(s) => s,
            Err(e) => {
                return Err(CoreError::Db(e));
            },
        };
        let rows = match db_query_configurations(&mut stmt, param) {
            Ok(rows) => rows,
            Err(e) => {
                return Err(CoreError::Db(e));
            },
        };
        let ghost rv = rows@;
        let v = configurations_from_rows(rows);
        assert(rv.len() == v@.len() && forall|i: int| 0 <= i < v@.len() ==> #[trigger] row_describes(rv[i], v@[i]));
        Ok(v)
    }

    /// Configurations ordered by name: only the ones not archived, or all of
    /// them when `include_archived` is set.
    pub fn list_configurations(&mut self, include_archived: bool) -> (r: Result<Vec<Configuration>, CoreError>)
        ensures
            final(self).heard() == old(self).heard(),
            one_more(old(self).sent(), final(self).sent(), sql_list_configurations()),
            text_arg(final(self).sent().last().1, if include_archived { "1"@ } else { "0"@ }),
            r matches Ok(v) ==> configurations_of_some_rows(v@),
            r matches Err(e) ==> e is Db,
    {
        let all = if include_archived {
            "1"
        } else {
            "0"
        };
        let sql = "SELECT id, definition_id, name, path, category, kind, sensitivity, added_at, last_snapshot_at FROM configurations WHERE (?1 = '1' OR archived = 0) ORDER BY name ASC";
        let params = id_params(all);
        self.note(sql, &params);
        self.query_configurations(sql, all)
    }

    /// Archived configurations, ordered by name.
    pub fn list_archived_configurations(&mut self) -> (r: Result<Vec<Configuration>, CoreError>)
        ensures
            final(self).heard() == old(self).heard(),
            one_more(old(self).sent(), final(self).sent(), sql_list_archived_configurations()),
            text_arg(final(self).sent().last().1, ""@),
            r matches Ok(v) ==> configurations_of_some_rows(v@),
            r matches Err(e) ==> e is Db,
    {
        let sql = "SELECT id, definition_id, name, path, category, kind, sensitivity, added_at, last_snapshot_at FROM configurations WHERE archived = 1 AND ?1 = ?1 ORDER BY name ASC";
        let params = id_params("");
        self.note(sql, &params);
        self.query_configurations(sql, "")
    }

    /// The configuration with the given id, if there is one.
    pub fn get_configuration(&self, id: &str) -> (r: Result<Option<Configuration>, CoreError>)
        ensures
            r matches Ok(Some(c)) ==> c.id@ == id@,
            r matches Err(e) ==> e is Db,
    {
        let found = self.query_configurations(
            "SELECT id, definition_id, name, path, category, kind, sensitivity, added_at, last_snapshot_at FROM configurations WHERE id = ?1",
            id,
        );
        let mut list = match found {
            Ok(list) => list,
            Err(e) => {
                return Err(e);
            },
        };
        let key = chars_of(id);
        while list.len() > 0
            invariant
                key@ == id@,
            decreases list.len(),
        {
            let c = list.remove(0);
            let here = chars_of(c.id.as_str());
            if chars_eq(&here, &key) {
                return Ok(Some(c));
            }
        }
        Ok(None)
    }

    /// Removes a configuration; its snapshots go with it.
    pub fn remove_configuration(&mut self, id: &str) -> (r: Result<(), CoreError>)
        ensures
            final(self).heard() == old(self).heard(),
            one_more(old(self).sent(), final(self).sent(), sql_remove_configuration()),
            text_arg(final(self).sent().last().1, id@),
            r matches Err(e) ==> e is Db,
    {
        self.execute_one("DELETE FROM configurations WHERE id = ?1", id_params(id))
    }

    /// Marks a configuration archived or not.
    pub fn set_configuration_archived(&mut self, id: &str, archived: bool) -> (r: Result<(), CoreError>)
        ensures
            final(self).heard() == old(self).heard(),
            one_more(old(self).sent(), final(self).sent(), sql_set_configuration_archived()),
            flag_and_id_args(final(self).sent().last().1, archived, id@),
            r matches Err(e) ==> e is Db,
    {
        self.execute_one("UPDATE configurations SET archived = ?1 WHERE id = ?2", flag_and_id_params(archived, id))
    }

    /// Sets when a configuration was last snapshotted.
    pub fn touch_last_snapshot(&mut self, id: &str, at: &str) -> (r: Result<(), CoreError>)
        ensures
            final(self).heard() == old(self).heard(),
            one_more(old(self).sent(), final(self).sent(), sql_touch_last_snapshot()),
            text_and_id_args(final(self).sent().last().1, at@, id@),
            r matches Err(e) ==> e is Db,
    {
        self.execute_one("UPDATE configurations SET last_snapshot_at = ?1 WHERE id = ?2", text_and_id_params(at, id))
    }

    /// Records a snapshot of a configuration and makes its time the
    /// configuration's last snapshot time: the snapshot's row is stored,
    /// then (if that succeeded) the configuration's last snapshot time set.
    pub fn record_snapshot(&mut self, configuration_id: &str, git_commit: &str, reason: &str) -> (r: Result<Snapshot, CoreError>)
        ensures
            final(self).heard() == old(self).heard(),
            r matches Ok(s) ==> {
                &&& s.configuration_id@ == configuration_id@
                &&& s.git_commit@ == git_commit@
                &&& s.reason@ == reason@
                &&& !s.favorite
                &&& !s.archived
                &&& recorded(old(self).sent(), final(self).sent(), s)
            },
            final(self).sent().len() > old(self).sent().len(),
            final(self).sent().take(old(self).sent().len() as int) == old(self).sent(),
            final(self).sent()[old(self).sent().len() as int].0 == sql_insert_snapshot(),
            r matches Err(e) ==> e is Db,
    {
        let snapshot = Snapshot {
            id: new_id(),
            configuration_id: configuration_id.to_owned(),
            created_at: now_rfc3339(),
            git_commit: git_commit.to_owned(),
            reason: reason.to_owned(),
            favorite: false,
            archived: false,
        };
        let ghost before = self.sent();
        let params = snapshot_params(&snapshot);
        let sql = "INSERT INTO snapshots (id, configuration_id, created_at, git_commit, reason) VALUES (?1, ?2, ?3, ?4, ?5)";
        self.note(sql, &params);
        let ghost middle = self.sent();
        assert(middle.take(before.len() as int) =~= before);
        match db_execute(&self.conn, sql, &params) {
            Ok(_) => {},
            Err(e) => {
                return Err(CoreError::Db(e));
            },
        }
        let r = match self.touch_last_snapshot(configuration_id, snapshot.created_at.as_str()) {
            Ok(()) => Ok(snapshot),
            Err(e) => Err(e),
        };
        assert(self.sent().take(before.len() as int) =~= before);
        assert(self.sent()[before.len() as int] == middle[before.len() as int]);
        r
    }

    /// The snapshots of a configuration, newest first.
    pub fn list_snapshots(&self, configuration_id: &str) -> (r: Result<Vec<Snapshot>, CoreError>)
        ensures
            r matches Ok(list) ==> forall|i: int| 0 <= i < list.len() ==> (#[trigger] list[i]).configuration_id@ == configuration_id@,
            r matches Ok(list) ==> snapshots_of_some_rows(list@, configuration_id@),
            r matches Err(e) ==> e is Db,
    {
        let mut stmt = match db_prepare(
            &self.conn,
            "SELECT id, configuration_id, created_at, git_commit, reason, favorite, archived FROM snapshots WHERE configuration_id = ?1 ORDER BY created_at DESC",
        ) {
            Ok(s) => s,
            Err(e) => {
                return Err(CoreError::Db(e));
            },
        };
        let rows = match db_query_snapshots(&mut stmt, configuration_id) {
            Ok(rows) => rows,
            Err(e) => {
                return Err(CoreError::Db(e));
            },
        };
        let ghost rv = rows@;
        let out = snapshots_from_rows(rows, configuration_id);
        assert(rows_of(rv, configuration_id@).len() == out@.len() && forall|i: int| 0 <= i < out@.len()
            ==> #[trigger] snapshot_row_describes(rows_of(rv, configuration_id@)[i], out@[i]));
        proof {
            broadcast use vstd::seq_lib::group_filter_ensures;
            assert forall|i: int| 0 <= i < out.len() implies (#[trigger] out[i]).configuration_id@ == configuration_id@ by {
                assert(snapshot_row_describes(rows_of(rows@, configuration_id@)[i], out@[i]));
            }
        }
        Ok(out)
    }

    /// [`Store::list_snapshots`], with the list given back recorded.
    pub fn list_snapshots_recorded(&mut self, configuration_id: &str) -> (r: Result<Vec<Snapshot>, CoreError>)
        ensures
            final(self).sent() == old(self).sent(),
            r matches Ok(list) ==> final(self).heard() == old(self).heard().push((configuration_id@, list@)),
            r is Err ==> final(self).heard() == old(self).heard(),
            r matches Ok(list) ==> forall|i: int| 0 <= i < list.len() ==> (#[trigger] list[i]).configuration_id@ == configuration_id@,
            r matches Ok(list) ==> snapshots_of_some_rows(list@, configuration_id@),
            r matches Err(e) ==> e is Db,
    {
        let r = self.list_snapshots(configuration_id);
        if let Ok(list) = &r {
            self.heard = Ghost(self.heard@.push((configuration_id@, list@)));
        }
        r
    }

    fn execute_one(&mut self, sql: &str, params: Vec<SqlValue>) -> (r: Result<(), CoreError>)
        ensures
            final(self).heard() == old(self).heard(),
            final(self).sent() == old(self).sent().push((sql@, params@)),
            one_more(old(self).sent(), final(self).sent(), sql@),
            final(self).sent().last().1 == params@,
            r matches Err(e) ==> e is Db,
    {
        self.note(sql, &params);
        match db_execute(&self.conn, sql, &params) {
            Ok(_) => Ok(()),
            Err(e) => Err(CoreError::Db(e)),
        }
    }

    /// Marks a snapshot as a favorite or not.
    pub fn set_snapshot_favorite(&mut self, snapshot_id: &str, favorite: bool) -> (r: Result<(), CoreError>)
        ensures
            final(self).heard() == old(self).heard(),
            one_more(old(self).sent(), final(self).sent(), sql_set_snapshot_favorite()),
            flag_and_id_args(final(self).sent().last().1, favorite, snapshot_id@),
            r matches Err(e) ==> e is Db,
    {
        self.execute_one("UPDATE snapshots SET favorite = ?1 WHERE id = ?2", flag_and_id_params(favorite, snapshot_id))
    }

    /// Marks a snapshot archived or not.
    pub fn set_snapshot_archived(&mut self, snapshot_id: &str, archived: bool) -> (r: Result<(), CoreError>)
        ensures
            final(self).heard() == old(self).heard(),
            one_more(old(self).sent(), final(self).sent(), sql_set_snapshot_archived()),
            flag_and_id_args(final(self).sent().last().1, archived, snapshot_id@),
            r matches Err(e) ==> e is Db,
    {
        self.execute_one("UPDATE snapshots SET archived = ?1 WHERE id = ?2", flag_and_id_params(archived, snapshot_id))
    }

    /// Removes a snapshot's metadata.
    pub fn delete_snapshot(&mut self, snapshot_id: &str) -> (r: Result<(), CoreError>)
        ensures
            final(self).heard() == old(self).heard(),
            one_more(old(self).sent(), final(self).sent(), sql_delete_snapshot()),
            text_arg(final(self).sent().last().1, snapshot_id@),
            r matches Err(e) ==> e is Db,
    {
        self.execute_one("DELETE FROM snapshots WHERE id = ?1", id_params(snapshot_id))
    }
}

/// The flag that the latest statement `sql` among `sent` about the row `id`
/// sets (see [`flag_and_id_args`]); `None` when no such statement was sent.
pub open spec fn last_flag(sent: Seq<(Seq<char>, Seq<SqlValue>)>, sql: Seq<char>, id: Seq<char>) -> Option<bool>
    decreases sent.len(),
{
    if sent.len() == 0 {
        None
    } else if sent.last().0 == sql && flag_and_id_args(sent.last().1, true, id) {
        Some(true)
    } else if sent.last().0 == sql && flag_and_id_args(sent.last().1, false, id) {
        Some(false)
    } else {
        last_flag(sent.drop_last(), sql, id)
    }
}

/// A flag update decides the flag of its row and leaves every other row's
/// as it was: after archiving (or marking as a favorite) a row, then doing
/// the opposite, the row is left as the second statement says, so one
/// undoes the other.
pub proof fn lemma_flag_update(
    before: Seq<(Seq<char>, Seq<SqlValue>)>,
    after: Seq<(Seq<char>, Seq<SqlValue>)>,
    sql: Seq<char>,
    b: bool,
    id: Seq<char>,
    other: Seq<char>,
)
    requires
        one_more(before, after, sql),
        flag_and_id_args(after.last().1, b, id),
        other != id,
    ensures
        last_flag(after, sql, id) == Some(b),
        last_flag(after, sql, other) == last_flag(before, sql, other),
{
    let p = after.last().1;
    if b {
        assert(!flag_and_id_args(p, false, id));
    } else {
        assert(!flag_and_id_args(p, true, id)) by {
            assert(p[0] != SqlValue::Integer(1));
        }
    }
    assert(!flag_and_id_args(p, true, other));
    assert(!flag_and_id_args(p, false, other));
}

/// `after` is `before` with the two statements that record `s` appended:
/// its row stored, then its time set as its configuration's last snapshot
/// time.
pub open spec fn recorded(
    before: Seq<(Seq<char>, Seq<SqlValue>)>,
    after: Seq<(Seq<char>, Seq<SqlValue>)>,
    s: Snapshot,
) -> bool {
    &&& after.len() == before.len() + 2
    &&& after.take(before.len() as int) == before
    &&& after[before.len() as int].0 == sql_insert_snapshot()
    &&& snapshot_args(after[before.len() as int].1, s)
    &&& after[before.len() + 1int].0 == sql_touch_last_snapshot()
    &&& text_and_id_args(after[before.len() + 1int].1, s.created_at@, s.configuration_id@)
}

} // verus!
