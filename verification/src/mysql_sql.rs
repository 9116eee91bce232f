//! The MySQL sink's configuration and SQL text: backtick-quoted
//! identifiers, `CREATE TABLE`, and `INSERT` statements for several rows.
use vstd::prelude::*;

use crate::error::Error;
use crate::text::{chars_of, extend_chars, join, join_strings, owned, string_of};

verus! {

/// The fields of a MySQL configuration file, each optional.
#[derive(Debug, Clone)]
pub struct MysqlConfigFile {
    pub host: Option<String>,
    pub user: Option<String>,
    pub password: Option<String>,
    pub db_name: Option<String>,
    pub table_name: Option<String>,
    pub columns: Option<Vec<String>>,
    pub buffer_capacity: Option<usize>,
    pub flush_threshold: Option<usize>,
    pub progress_print_every: Option<u64>,
}

/// A checked MySQL configuration, with the defaults filled in.
#[derive(Debug, Clone)]
pub struct MysqlRuntimeConfig {
    pub host: String,
    pub user: String,
    pub password: String,
    pub db_name: String,
    pub table_name: String,
    pub ordered_columns: Vec<String>,
    pub buffer_capacity: usize,
    pub flush_threshold: usize,
    pub progress_print_every: u64,
}

/// The buffer size used when the configuration names none.
pub const DEFAULT_DB_BUFFER_CAPACITY: usize = 3000;

/// The flush threshold used when the configuration names none.
pub const DEFAULT_DB_FLUSH_THRESHOLD: usize = 2500;

/// How often progress is reported when the configuration names no period.
pub const DEFAULT_DB_PRINT_EVERY: u64 = 100;

/// The first missing connection field, in the order host, user, password,
/// database name, then a missing or empty column list; `None` when all are
/// there.
pub open spec fn missing_field_message(cfg: MysqlConfigFile) -> Option<Seq<char>> {
    if cfg.host is None {
        Some("missing database.host in config"@)
    } else if cfg.user is None {
        Some("missing database.user in config"@)
    } else if cfg.password is None {
        Some("missing database.password in config"@)
    } else if cfg.db_name is None {
        Some("missing database.db_name in config"@)
    } else if !(cfg.columns matches Some(c) && c@.len() > 0) {
        Some("missing or empty database.columns in config"@)
    } else {
        None
    }
}

/// Checks a MySQL configuration: host, user, password, database name and a
/// non-empty column list are required (the first one missing is reported);
/// the table defaults to "work_record" and the sizes to 3000, 2500 and 100.
pub fn load_db_runtime_config(cfg: MysqlConfigFile) -> (r: Result<MysqlRuntimeConfig, Error>)
    ensures
        match missing_field_message(cfg) {
            Some(m) => r matches Err(Error::SourceDataFileError(e)) && e@ == m,
            None => r matches Ok(c) && Some(c.host) == cfg.host && Some(c.user) == cfg.user
                && Some(c.password) == cfg.password && Some(c.db_name) == cfg.db_name && Some(
                c.ordered_columns,
            ) == cfg.columns && c.table_name@ == match cfg.table_name {
                Some(t) => t@,
                None => "work_record"@,
            } && c.buffer_capacity == match cfg.buffer_capacity {
                Some(n) => n,
                None => DEFAULT_DB_BUFFER_CAPACITY,
            } && c.flush_threshold == match cfg.flush_threshold {
                Some(n) => n,
                None => DEFAULT_DB_FLUSH_THRESHOLD,
            } && c.progress_print_every == match cfg.progress_print_every {
                Some(n) => n,
                None => DEFAULT_DB_PRINT_EVERY,
            },
        },
{
    let host = match cfg.host {
        Some(h) => h,
        None => return Err(Error::SourceDataFileError(owned("missing database.host in config"))),
    };
    let user = match cfg.user {
        Some(u) => u,
        None => return Err(Error::SourceDataFileError(owned("missing database.user in config"))),
    };
    let password = match cfg.password {
        Some(p) => p,
        None => return Err(
            Error::SourceDataFileError(owned("missing database.password in config")),
        ),
    };
    let db_name = match cfg.db_name {
        Some(d) => d,
        None => return Err(Error::SourceDataFileError(owned("missing database.db_name in config"))),
    };
    let table_name = match cfg.table_name {
        Some(t) => t,
        None => owned("work_record"),
    };
    let ordered_columns = match cfg.columns {
        Some(c) => {
            if c.len() == 0 {
                return Err(
                    Error::SourceDataFileError(owned("missing or empty database.columns in config")),
                );
            }
            c
        },
        None => return Err(
            Error::SourceDataFileError(owned("missing or empty database.columns in config")),
        ),
    };
    let buffer_capacity = match cfg.buffer_capacity {
        Some(n) => n,
        None => DEFAULT_DB_BUFFER_CAPACITY,
    };
    let flush_threshold = match cfg.flush_threshold {
        Some(n) => n,
        None => DEFAULT_DB_FLUSH_THRESHOLD,
    };
    let progress_print_every = match cfg.progress_print_every {
        Some(n) => n,
        None => DEFAULT_DB_PRINT_EVERY,
    };
    Ok(
        MysqlRuntimeConfig {
            host,
            user,
            password,
            db_name,
            table_name,
            ordered_columns,
            buffer_capacity,
            flush_threshold,
            progress_print_every,
        },
    )
}

/// One character of an identifier inside backticks: a backtick is written
/// twice.
pub open spec fn escaped_tick(c: char) -> Seq<char> {
    if c == '`' {
        seq!['`', '`']
    } else {
        seq![c]
    }
}

/// The characters of an identifier inside backticks.
pub open spec fn escape_backticks(s: Seq<char>) -> Seq<char>
    decreases s.len(),
{
    if s.len() == 0 {
        Seq::empty()
    } else {
        escape_backticks(s.drop_last()) + escaped_tick(s.last())
    }
}

/// An identifier quoted for MySQL.
pub open spec fn ticked(s: Seq<char>) -> Seq<char> {
    seq!['`'] + escape_backticks(s) + seq!['`']
}

/// Reads back the characters of a backticked identifier's body: a doubled
/// backtick stands for one; a lone backtick cannot occur.
pub open spec fn unescape_backticks(s: Seq<char>) -> Option<Seq<char>>
    decreases s.len(),
{
    if s.len() == 0 {
        Some(Seq::empty())
    } else if s[0] == '`' {
        if s.len() >= 2 && s[1] == '`' {
            match unescape_backticks(s.skip(2)) {
                Some(t) => Some(seq!['`'] + t),
                None => None,
            }
        } else {
            None
        }
    } else {
        match unescape_backticks(s.drop_first()) {
            Some(t) => Some(seq![s[0]] + t),
            None => None,
        }
    }
}

proof fn lemma_ticks_concat(a: Seq<char>, b: Seq<char>)
    ensures
        escape_backticks(a + b) == escape_backticks(a) + escape_backticks(b),
    decreases b.len(),
{
    if b.len() == 0 {
        assert(a + b =~= a);
    } else {
        lemma_ticks_concat(a, b.drop_last());
        assert((a + b).drop_last() =~= a + b.drop_last());
        assert((a + b).last() == b.last());
    }
}

/// Quoting for MySQL can be undone: the body of a backticked identifier
/// reads back as the identifier, so no name can end the quoting early.
pub proof fn law_ticked_roundtrip(s: Seq<char>)
    ensures
        ticked(s).len() >= 2,
        ticked(s)[0] == '`',
        ticked(s).last() == '`',
        unescape_backticks(ticked(s).subrange(1, ticked(s).len() - 1)) == Some(s),
    decreases s.len(),
{
    assert(ticked(s).subrange(1, ticked(s).len() - 1) =~= escape_backticks(s));
    if s.len() > 0 {
        let head = seq![s[0]];
        let tail = s.drop_first();
        assert(s =~= head + tail);
        lemma_ticks_concat(head, tail);
        assert(escape_backticks(head) =~= escaped_tick(s[0])) by {
            assert(head.drop_last() =~= Seq::<char>::empty());
            assert(escape_backticks(head.drop_last()) =~= Seq::<char>::empty());
        }
        law_ticked_roundtrip(tail);
        assert(ticked(tail).subrange(1, ticked(tail).len() - 1) =~= escape_backticks(tail));
        let e = escape_backticks(s);
        if s[0] == '`' {
            assert(e.skip(2) =~= escape_backticks(tail));
            assert(seq!['`'] + tail =~= s);
        } else {
            assert(e.drop_first() =~= escape_backticks(tail));
            assert(seq![s[0]] + tail =~= s);
        }
    } else {
        assert(escape_backticks(s) =~= Seq::<char>::empty());
    }
}

/// `ident` in backticks, each backtick in it doubled.
pub fn quote_ident(ident: &str) -> (r: String)
    ensures
        r@ == ticked(ident@),
{
    let v = chars_of(ident);
    let mut out: Vec<char> = Vec::new();
    out.push('`');
    let mut i: usize = 0;
    while i < v.len()
        invariant
            i <= v.len(),
            out@ == seq!['`'] + escape_backticks(v@.take(i as int)),
        decreases v.len() - i,
    {
        assert(v@.take(i + 1).drop_last() =~= v@.take(i as int));
        if v[i] == '`' {
            out.push('`');
            out.push('`');
        } else {
            out.push(v[i]);
        }
        i = i + 1;
    }
    assert(v@.take(v.len() as int) =~= v@);
    out.push('`');
    string_of(out.as_slice())
}

/// The quoted names of `columns`.
pub open spec fn ticked_all(columns: Seq<Seq<char>>) -> Seq<Seq<char>> {
    columns.map_values(|c: Seq<char>| ticked(c))
}

fn quote_all(columns: &[String], suffix: &str) -> (r: Vec<String>)
    ensures
        r@.len() == columns@.len(),
        forall|k: int| 0 <= k < r@.len() ==> #[trigger] r@[k]@ == ticked(columns@[k]@) + suffix@,
{
    let mut r: Vec<String> = Vec::new();
    let mut i: usize = 0;
    while i < columns.len()
        invariant
            i <= columns.len(),
            r@.len() == i,
            forall|k: int| 0 <= k < i ==> #[trigger] r@[k]@ == ticked(columns@[k]@) + suffix@,
        decreases columns.len() - i,
    {
        let mut v: Vec<char> = Vec::new();
        extend_chars(&mut v, quote_ident(columns[i].as_str()).as_str());
        extend_chars(&mut v, suffix);
        r.push(string_of(v.as_slice()));
        i = i + 1;
    }
    r
}

/// The views of a list of strings.
pub open spec fn views(v: Seq<String>) -> Seq<Seq<char>> {
    v.map_values(|s: String| s@)
}

/// `CREATE TABLE IF NOT EXISTS` for `table`: an auto-increment `id` key,
/// then each column as nullable text.
pub open spec fn mysql_create_table_sql(table: Seq<char>, columns: Seq<Seq<char>>) -> Seq<char> {
    "CREATE TABLE IF NOT EXISTS "@ + ticked(table) + " (id BIGINT PRIMARY KEY AUTO_INCREMENT, "@
        + join(columns.map_values(|c: Seq<char>| ticked(c) + " TEXT NULL"@), ", "@) + ")"@
}

/// `CREATE TABLE IF NOT EXISTS `table` (id BIGINT PRIMARY KEY AUTO_INCREMENT, `c` TEXT NULL, ...)`.
pub fn build_create_table_sql(table_name: &str, columns: &[String]) -> (r: String)
    ensures
        r@ == mysql_create_table_sql(table_name@, views(columns@)),
{
    let defs = quote_all(columns, " TEXT NULL");
    assert(views(defs@) =~= views(columns@).map_values(|c: Seq<char>| ticked(c) + " TEXT NULL"@));
    let body = join_strings(defs.as_slice(), ", ");
    let mut v: Vec<char> = Vec::new();
    extend_chars(&mut v, "CREATE TABLE IF NOT EXISTS ");
    extend_chars(&mut v, quote_ident(table_name).as_str());
    extend_chars(&mut v, " (id BIGINT PRIMARY KEY AUTO_INCREMENT, ");
    extend_chars(&mut v, body.as_str());
    extend_chars(&mut v, ")");
    string_of(v.as_slice())
}

/// `n` copies of `s`.
pub open spec fn copies(s: Seq<char>, n: nat) -> Seq<Seq<char>> {
    Seq::new(n, |i: int| s)
}

/// One placeholder group per row: `(?, ?, ...)` with a `?` per column.
pub open spec fn row_marks(ncols: nat) -> Seq<char> {
    "("@ + join(copies("?"@, ncols), ", "@) + ")"@
}

/// The `INSERT` statement for `nrows` rows of `columns` into `table`.
pub open spec fn mysql_insert_sql(table: Seq<char>, columns: Seq<Seq<char>>, nrows: nat) -> Seq<char> {
    "INSERT INTO "@ + ticked(table) + " ("@ + join(ticked_all(columns), ", "@) + ") VALUES "@
        + join(copies(row_marks(columns.len()), nrows), ", "@)
}

fn repeat(s: &str, n: usize) -> (r: Vec<String>)
    ensures
        views(r@) == copies(s@, n as nat),
{
    let mut r: Vec<String> = Vec::new();
    let mut i: usize = 0;
    while i < n
        invariant
            i <= n,
            r@.len() == i,
            forall|k: int| 0 <= k < i ==> #[trigger] r@[k]@ == s@,
        decreases n - i,
    {
        r.push(owned(s));
        i = i + 1;
    }
    assert(views(r@) =~= copies(s@, n as nat));
    r
}

/// `INSERT INTO `table` (`c1`, `c2`, ...) VALUES (?, ?, ...), (?, ?, ...), ...`
/// with one placeholder group per row.
pub fn build_insert_sql(table_name: &str, columns: &[String], nrows: usize) -> (r: String)
    ensures
        r@ == mysql_insert_sql(table_name@, views(columns@), nrows as nat),
{
    let cols = quote_all(columns, "");
    assert(views(cols@) =~= ticked_all(views(columns@))) by {
        assert forall|k: int| 0 <= k < cols@.len() implies #[trigger] cols@[k]@ == ticked(
            columns@[k]@,
        ) by {
            reveal_strlit("");
            assert(ticked(columns@[k]@) + ""@ =~= ticked(columns@[k]@));
        }
    }
    let col_text = join_strings(cols.as_slice(), ", ");
    let marks = join_strings(repeat("?", columns.len()).as_slice(), ", ");
    let mut g: Vec<char> = Vec::new();
    extend_chars(&mut g, "(");
    extend_chars(&mut g, marks.as_str());
    extend_chars(&mut g, ")");
    let group = string_of(g.as_slice());
    let groups = join_strings(repeat(group.as_str(), nrows).as_slice(), ", ");
    let mut v: Vec<char> = Vec::new();
    extend_chars(&mut v, "INSERT INTO ");
    extend_chars(&mut v, quote_ident(table_name).as_str());
    extend_chars(&mut v, " (");
    extend_chars(&mut v, col_text.as_str());
    extend_chars(&mut v, ") VALUES ");
    extend_chars(&mut v, groups.as_str());
    string_of(v.as_slice())
}

} // verus!
