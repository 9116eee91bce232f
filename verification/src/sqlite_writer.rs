//! The SQL text that the SQLite writers run: quoted identifiers, column
//! definitions, `CREATE TABLE` and `INSERT` statements.
use vstd::prelude::*;

use crate::text::{chars_of, extend_chars, join, join_strings, string_of};

verus! {

/// The SQLite database that a sink writes to, as its configuration file
/// gives it; each entry may be missing.
#[derive(Debug, Clone)]
pub struct SqliteDbConfig {
    pub sqlite_db_path: Option<String>,
    pub table_name: Option<String>,
    pub columns: Option<Vec<String>>,
}

impl SqliteDbConfig {
    /// A configuration that names nothing.
    pub fn default() -> (r: SqliteDbConfig)
        ensures
            r.sqlite_db_path is None,
            r.table_name is None,
            r.columns is None,
    {
        SqliteDbConfig { sqlite_db_path: None, table_name: None, columns: None }
    }
}

/// One character of an identifier inside double quotes: a double quote is
/// written twice.
pub open spec fn escaped_char(c: char) -> Seq<char> {
    if c == '"' {
        seq!['"', '"']
    } else {
        seq![c]
    }
}

/// The characters of an identifier inside double quotes.
pub open spec fn escape_quotes(s: Seq<char>) -> Seq<char>
    decreases s.len(),
{
    if s.len() == 0 {
        Seq::empty()
    } else {
        escape_quotes(s.drop_last()) + escaped_char(s.last())
    }
}

/// An identifier quoted for SQLite.
pub open spec fn quoted(s: Seq<char>) -> Seq<char> {
    seq!['"'] + escape_quotes(s) + seq!['"']
}

/// Reads back the characters of a quoted identifier's body: a doubled quote
/// stands for one quote; a lone quote cannot occur.
pub open spec fn unescape_quotes(s: Seq<char>) -> Option<Seq<char>>
    decreases s.len(),
{
    if s.len() == 0 {
        Some(Seq::empty())
    } else if s[0] == '"' {
        if s.len() >= 2 && s[1] == '"' {
            match unescape_quotes(s.skip(2)) {
                Some(t) => Some(seq!['"'] + t),
                None => None,
            }
        } else {
            None
        }
    } else {
        match unescape_quotes(s.drop_first()) {
            Some(t) => Some(seq![s[0]] + t),
            None => None,
        }
    }
}

proof fn lemma_escape_concat(a: Seq<char>, b: Seq<char>)
    ensures
        escape_quotes(a + b) == escape_quotes(a) + escape_quotes(b),
    decreases b.len(),
{
    if b.len() == 0 {
        assert(a + b =~= a);
    } else {
        lemma_escape_concat(a, b.drop_last());
        assert((a + b).drop_last() =~= a + b.drop_last());
        assert((a + b).last() == b.last());
    }
}

/// Quoting can be undone: the body of a quoted identifier reads back as the
/// identifier.
pub proof fn law_unescape_escape(s: Seq<char>)
    ensures
        unescape_quotes(escape_quotes(s)) == Some(s),
    decreases s.len(),
{
    if s.len() > 0 {
        let head = seq![s[0]];
        let tail = s.drop_first();
        assert(s =~= head + tail);
        lemma_escape_concat(head, tail);
        assert(escape_quotes(head) =~= escaped_char(s[0])) by {
            assert(head.drop_last() =~= Seq::<char>::empty());
            assert(escape_quotes(head.drop_last()) =~= Seq::<char>::empty());
        }
        law_unescape_escape(tail);
        let e = escape_quotes(s);
        if s[0] == '"' {
            assert(e.skip(2) =~= escape_quotes(tail));
            assert(seq!['"'] + tail =~= s);
        } else {
            assert(e.drop_first() =~= escape_quotes(tail));
            assert(seq![s[0]] + tail =~= s);
        }
    }
}

/// A quoted identifier starts and ends with a double quote, and its body
/// reads back as the identifier.
pub proof fn law_quote_ident_roundtrip(s: Seq<char>)
    ensures
        quoted(s).len() >= 2,
        quoted(s)[0] == '"',
        quoted(s).last() == '"',
        unescape_quotes(quoted(s).subrange(1, quoted(s).len() - 1)) == Some(s),
{
    law_unescape_escape(s);
    assert(quoted(s).subrange(1, quoted(s).len() - 1) =~= escape_quotes(s));
}

/// `ident` in double quotes, each double quote in it doubled.
pub fn quote_ident(ident: &str) -> (r: String)
    ensures
        r@ == quoted(ident@),
{
    let v = chars_of(ident);
    let mut out: Vec<char> = Vec::new();
    out.push('"');
    let mut i: usize = 0;
    while i < v.len()
        invariant
            i <= v.len(),
            out@ == seq!['"'] + escape_quotes(v@.take(i as int)),
        decreases v.len() - i,
    {
        assert(v@.take(i + 1).drop_last() =~= v@.take(i as int));
        if v[i] == '"' {
            out.push('"');
            out.push('"');
        } else {
            out.push(v[i]);
        }
        i = i + 1;
    }
    assert(v@.take(v.len() as int) =~= v@);
    out.push('"');
    string_of(out.as_slice())
}

/// The quoted names of `columns`.
pub open spec fn quoted_all(columns: Seq<Seq<char>>) -> Seq<Seq<char>> {
    columns.map_values(|c: Seq<char>| quoted(c))
}

/// The `INSERT` statement for one row of `columns` into `table`, with a `?`
/// placeholder per column.
pub open spec fn insert_sql(table: Seq<char>, columns: Seq<Seq<char>>) -> Seq<char> {
    "INSERT INTO "@ + quoted(table) + " ("@ + join(quoted_all(columns), ", "@) + ") VALUES ("@
        + join(Seq::new(columns.len(), |i: int| "?"@), ", "@) + ")"@
}

fn quote_all(columns: &[String]) -> (r: Vec<String>)
    ensures
        r@.map_values(|s: String| s@) == quoted_all(columns@.map_values(|s: String| s@)),
{
    let mut r: Vec<String> = Vec::new();
    let mut i: usize = 0;
    while i < columns.len()
        invariant
            i <= columns.len(),
            r@.len() == i,
            forall|k: int| 0 <= k < i ==> #[trigger] r@[k]@ == quoted(columns@[k]@),
        decreases columns.len() - i,
    {
        r.push(quote_ident(columns[i].as_str()));
        i = i + 1;
    }
    assert(r@.map_values(|s: String| s@) =~= quoted_all(columns@.map_values(|s: String| s@)));
    r
}

fn placeholders(n: usize) -> (r: Vec<String>)
    ensures
        r@.map_values(|s: String| s@) == Seq::new(n as nat, |i: int| "?"@),
{
    let mut r: Vec<String> = Vec::new();
    let mut i: usize = 0;
    while i < n
        invariant
            i <= n,
            r@.len() == i,
            forall|k: int| 0 <= k < i ==> #[trigger] r@[k]@ == "?"@,
        decreases n - i,
    {
        r.push("?".to_owned());
        i = i + 1;
    }
    assert(r@.map_values(|s: String| s@) =~= Seq::new(n as nat, |i: int| "?"@));
    r
}

/// `INSERT INTO "table" ("c1", "c2", ...) VALUES (?, ?, ...)`.
pub fn build_insert_sql(table_name: &str, columns: &[String]) -> (r: String)
    ensures
        r@ == insert_sql(table_name@, columns@.map_values(|s: String| s@)),
{
    let cols = join_strings(quote_all(columns).as_slice(), ", ");
    let marks = join_strings(placeholders(columns.len()).as_slice(), ", ");
    let mut v: Vec<char> = Vec::new();
    extend_chars(&mut v, "INSERT INTO ");
    extend_chars(&mut v, quote_ident(table_name).as_str());
    extend_chars(&mut v, " (");
    extend_chars(&mut v, cols.as_str());
    extend_chars(&mut v, ") VALUES (");
    extend_chars(&mut v, marks.as_str());
    extend_chars(&mut v, ")");
    string_of(v.as_slice())
}

/// A column of a table: its name and its SQL type.
#[derive(Debug, Clone)]
pub struct ColumnDef {
    pub name: String,
    pub col_type: &'static str,
}

impl ColumnDef {
    /// A `TEXT` column.
    pub fn text(name: &str) -> (r: ColumnDef)
        ensures
            r.name@ == name@,
            r.col_type@ == "TEXT"@,
    {
        ColumnDef { name: name.to_owned(), col_type: "TEXT" }
    }

    /// An `INTEGER` column.
    pub fn integer(name: &str) -> (r: ColumnDef)
        ensures
            r.name@ == name@,
            r.col_type@ == "INTEGER"@,
    {
        ColumnDef { name: name.to_owned(), col_type: "INTEGER" }
    }

    /// A `REAL` column.
    pub fn real_number(name: &str) -> (r: ColumnDef)
        ensures
            r.name@ == name@,
            r.col_type@ == "REAL"@,
    {
        ColumnDef { name: name.to_owned(), col_type: "REAL" }
    }
}

/// The definition of one column inside `CREATE TABLE`.
pub open spec fn column_sql(name: Seq<char>, col_type: Seq<char>) -> Seq<char> {
    quoted(name) + " "@ + col_type + " NULL"@
}

/// The `CREATE TABLE IF NOT EXISTS` statement for `table`: an auto-increment
/// `id` key, then the given columns, each nullable.
pub open spec fn create_table_sql(table: Seq<char>, columns: Seq<(Seq<char>, Seq<char>)>) -> Seq<
    char,
> {
    "CREATE TABLE IF NOT EXISTS "@ + quoted(table) + " ("@ + join(
        seq!["id INTEGER PRIMARY KEY AUTOINCREMENT"@] + columns.map_values(
            |c: (Seq<char>, Seq<char>)| column_sql(c.0, c.1),
        ),
        ", "@,
    ) + ")"@
}

/// The columns as (name, type) pairs.
pub open spec fn defs_view(columns: Seq<ColumnDef>) -> Seq<(Seq<char>, Seq<char>)> {
    columns.map_values(|c: ColumnDef| (c.name@, c.col_type@))
}

/// `CREATE TABLE IF NOT EXISTS "table" (id INTEGER PRIMARY KEY AUTOINCREMENT, "c" TYPE NULL, ...)`.
pub fn build_create_table_sql(table_name: &str, columns: &[ColumnDef]) -> (r: String)
    ensures
        r@ == create_table_sql(table_name@, defs_view(columns@)),
{
    let ghost cv = defs_view(columns@);
    let mut defs: Vec<String> = Vec::new();
    defs.push("id INTEGER PRIMARY KEY AUTOINCREMENT".to_owned());
    let mut i: usize = 0;
    while i < columns.len()
        invariant
            cv == defs_view(columns@),
            i <= columns.len(),
            defs@.len() == i + 1,
            defs@[0]@ == "id INTEGER PRIMARY KEY AUTOINCREMENT"@,
            forall|k: int|
                0 <= k < i ==> #[trigger] defs@[k + 1]@ == column_sql(cv[k].0, cv[k].1),
        decreases columns.len() - i,
    {
        let mut d: Vec<char> = Vec::new();
        extend_chars(&mut d, quote_ident(columns[i].name.as_str()).as_str());
        extend_chars(&mut d, " ");
        extend_chars(&mut d, columns[i].col_type);
        extend_chars(&mut d, " NULL");
        defs.push(string_of(d.as_slice()));
        i = i + 1;
    }
    let ghost want = seq!["id INTEGER PRIMARY KEY AUTOINCREMENT"@] + cv.map_values(
        |c: (Seq<char>, Seq<char>)| column_sql(c.0, c.1),
    );
    let ghost got = defs@.map_values(|s: String| s@);
    assert forall|k: int| 0 <= k < want.len() implies #[trigger] got[k] == want[k] by {
        if k > 0 {
            assert(defs@[(k - 1) + 1]@ == column_sql(cv[k - 1].0, cv[k - 1].1));
        }
    }
    assert(got =~= want);
    let body = join_strings(defs.as_slice(), ", ");
    let mut v: Vec<char> = Vec::new();
    extend_chars(&mut v, "CREATE TABLE IF NOT EXISTS ");
    extend_chars(&mut v, quote_ident(table_name).as_str());
    extend_chars(&mut v, " (");
    extend_chars(&mut v, body.as_str());
    extend_chars(&mut v, ")");
    string_of(v.as_slice())
}

/// The columns, all of type `TEXT`.
pub fn all_text_columns(columns: &[String]) -> (r: Vec<ColumnDef>)
    ensures
        r@.len() == columns@.len(),
        forall|k: int|
            0 <= k < columns@.len() ==> #[trigger] r@[k].name@ == columns@[k]@ && r@[k].col_type@
                == "TEXT"@,
{
    let mut r: Vec<ColumnDef> = Vec::new();
    let mut i: usize = 0;
    while i < columns.len()
        invariant
            i <= columns.len(),
            r@.len() == i,
            forall|k: int|
                0 <= k < i ==> #[trigger] r@[k].name@ == columns@[k]@ && r@[k].col_type@
                    == "TEXT"@,
        decreases columns.len() - i,
    {
        r.push(ColumnDef::text(columns[i].as_str()));
        i = i + 1;
    }
    r
}

/// Where a set of rows goes: the database file, the table and the columns.
#[derive(Debug, Clone)]
pub struct DbTarget {
    pub sqlite_db_path: String,
    pub table_name: String,
    /// The configured columns; empty when the configuration names none.
    pub columns: Vec<String>,
}

/// The target a configuration names, with the given defaults for a missing
/// path or table; no columns when the configuration names none.
pub fn db_target(cfg: SqliteDbConfig, default_path: &str, default_table: &str) -> (r: DbTarget)
    ensures
        r.sqlite_db_path@ == match cfg.sqlite_db_path {
            Some(p) => p@,
            None => default_path@,
        },
        r.table_name@ == match cfg.table_name {
            Some(t) => t@,
            None => default_table@,
        },
        match cfg.columns {
            Some(c) => r.columns == c,
            None => r.columns@.len() == 0,
        },
{
    let sqlite_db_path = match cfg.sqlite_db_path {
        Some(p) => p,
        None => default_path.to_owned(),
    };
    let table_name = match cfg.table_name {
        Some(t) => t,
        None => default_table.to_owned(),
    };
    let columns = match cfg.columns {
        Some(c) => c,
        None => Vec::new(),
    };
    DbTarget { sqlite_db_path, table_name, columns }
}

} // verus!
