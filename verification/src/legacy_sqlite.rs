//! The two-table SQLite sink: valid rows go to one table and invalid rows to
//! another; its configuration, and the rows it holds until a flush.
use vstd::prelude::*;

use crate::data::{strs_view, Data};
use crate::error::Error;
use crate::sqlite_sink::{row_values, SqliteDatabaseSink};
use crate::text::{concat_strs, owned};

verus! {

/// The buffer size used when the configuration names none.
pub const LEGACY_DEFAULT_BUFFER_CAPACITY: usize = 3000;

/// The flush threshold used when the configuration names none.
pub const LEGACY_DEFAULT_FLUSH_THRESHOLD: usize = 2500;

/// How often progress is reported when the configuration names no period.
pub const LEGACY_DEFAULT_PRINT_EVERY: u64 = 100;

/// The fields of the two-table sink's configuration file, each optional.
#[derive(Debug, Clone)]
pub struct LegacyDatabaseConfigFile {
    pub sqlite_db_path: Option<String>,
    pub table_name: Option<String>,
    pub invalid_table_name: Option<String>,
    pub columns: Option<Vec<String>>,
    pub buffer_capacity: Option<usize>,
    pub flush_threshold: Option<usize>,
    pub progress_print_every: Option<u64>,
}

/// A checked configuration of the two-table sink, with defaults filled in.
#[derive(Debug, Clone)]
pub struct LegacyRuntimeConfig {
    pub sqlite_db_path: String,
    pub valid_table_name: String,
    pub invalid_table_name: String,
    pub ordered_columns: Vec<String>,
    pub buffer_capacity: usize,
    pub flush_threshold: usize,
    pub progress_print_every: u64,
}

/// The valid-data table a configuration names ("work_record" by default).
pub open spec fn legacy_valid_table(cfg: LegacyDatabaseConfigFile) -> Seq<char> {
    match cfg.table_name {
        Some(t) => t@,
        None => "work_record"@,
    }
}

/// Checks the configuration: the column list must be there and not empty.
/// The valid table defaults to "work_record", the invalid table to the
/// valid table's name followed by "_invalid", the database to
/// "data/work_record.db", and the sizes to 3000, 2500 and 100.
pub fn load_legacy_runtime_config(cfg: LegacyDatabaseConfigFile) -> (r: Result<LegacyRuntimeConfig, Error>)
    ensures
        match cfg.columns {
            Some(cols) if cols@.len() > 0 => r matches Ok(c) && c.ordered_columns == cols
                && c.valid_table_name@ == legacy_valid_table(cfg) && c.invalid_table_name@
                == match cfg.invalid_table_name {
                Some(t) => t@,
                None => legacy_valid_table(cfg) + "_invalid"@,
            } && c.sqlite_db_path@ == match cfg.sqlite_db_path {
                Some(p) => p@,
                None => "data/work_record.db"@,
            } && c.buffer_capacity == match cfg.buffer_capacity {
                Some(n) => n,
                None => LEGACY_DEFAULT_BUFFER_CAPACITY,
            } && c.flush_threshold == match cfg.flush_threshold {
                Some(n) => n,
                None => LEGACY_DEFAULT_FLUSH_THRESHOLD,
            } && c.progress_print_every == match cfg.progress_print_every {
                Some(n) => n,
                None => LEGACY_DEFAULT_PRINT_EVERY,
            },
            _ => r matches Err(Error::SourceDataFileError(m)) && m@
                == "missing or empty database.columns in config"@,
        },
{
    let valid_table_name = match cfg.table_name {
        Some(t) => t,
        None => owned("work_record"),
    };
    let invalid_table_name = match cfg.invalid_table_name {
        Some(t) => t,
        None => concat_strs(valid_table_name.as_str(), "_invalid"),
    };
    let ordered_columns = match cfg.columns {
        Some(c) => {
            if c.len() == 0 {
                return Err(
                    Error::SourceDataFileError(owned("missing or empty database.columns in config")),
                );
            }
            c
        },
        None => {
            return Err(
                Error::SourceDataFileError(owned("missing or empty database.columns in config")),
            );
        },
    };
    let sqlite_db_path = match cfg.sqlite_db_path {
        Some(p) => p,
        None => owned("data/work_record.db"),
    };
    let buffer_capacity = match cfg.buffer_capacity {
        Some(n) => n,
        None => LEGACY_DEFAULT_BUFFER_CAPACITY,
    };
    let flush_threshold = match cfg.flush_threshold {
        Some(n) => n,
        None => LEGACY_DEFAULT_FLUSH_THRESHOLD,
    };
    let progress_print_every = match cfg.progress_print_every {
        Some(n) => n,
        None => LEGACY_DEFAULT_PRINT_EVERY,
    };
    Ok(
        LegacyRuntimeConfig {
            sqlite_db_path,
            valid_table_name,
            invalid_table_name,
            ordered_columns,
            buffer_capacity,
            flush_threshold,
            progress_print_every,
        },
    )
}

/// The rows of the two-table sink not written yet.
pub struct LegacySqliteSink {
    pub valid_table_name: String,
    pub invalid_table_name: String,
    pub ordered_columns: Vec<String>,
    pub flush_threshold: usize,
    pub valid_pending: Vec<Data>,
    pub invalid_pending: Vec<Data>,
}

/// Rows as plain values.
pub open spec fn rows_view(rows: Seq<Data>) -> Seq<Seq<(Seq<char>, Seq<char>)>> {
    rows.map_values(|d: Data| d.pairs_view())
}

/// The values of each row under the columns, in order.
pub open spec fn table_rows(columns: Seq<Seq<char>>, rows: Seq<Seq<(Seq<char>, Seq<char>)>>) -> Seq<
    Seq<Seq<char>>,
> {
    rows.map_values(|p: Seq<(Seq<char>, Seq<char>)>| row_values(columns, p))
}

impl LegacySqliteSink {
    /// A sink for a checked configuration, holding no rows.
    pub fn new(cfg: LegacyRuntimeConfig) -> (r: LegacySqliteSink)
        ensures
            r.valid_table_name == cfg.valid_table_name,
            r.invalid_table_name == cfg.invalid_table_name,
            r.ordered_columns == cfg.ordered_columns,
            r.flush_threshold == cfg.flush_threshold,
            r.valid_pending@.len() == 0,
            r.invalid_pending@.len() == 0,
    {
        LegacySqliteSink {
            valid_table_name: cfg.valid_table_name,
            invalid_table_name: cfg.invalid_table_name,
            ordered_columns: cfg.ordered_columns,
            flush_threshold: cfg.flush_threshold,
            valid_pending: Vec::new(),
            invalid_pending: Vec::new(),
        }
    }

    /// Buffers a copy of the row with the valid or the invalid rows, as the
    /// row is. The result says whether the two buffers together have reached
    /// the threshold.
    pub fn buffer_row(&mut self, data: &Data) -> (r: bool)
        ensures
            data.valid ==> rows_view(final(self).valid_pending@) == rows_view(
                old(self).valid_pending@,
            ).push(data.pairs_view()) && final(self).invalid_pending == old(self).invalid_pending,
            !data.valid ==> rows_view(final(self).invalid_pending@) == rows_view(
                old(self).invalid_pending@,
            ).push(data.pairs_view()) && final(self).valid_pending == old(self).valid_pending,
            r == (final(self).valid_pending@.len() + final(self).invalid_pending@.len()
                >= final(self).flush_threshold),
            final(self).valid_table_name == old(self).valid_table_name,
            final(self).invalid_table_name == old(self).invalid_table_name,
            final(self).ordered_columns == old(self).ordered_columns,
            final(self).flush_threshold == old(self).flush_threshold,
    {
        let d = data.duplicate();
        if data.valid {
            let ghost before = rows_view(self.valid_pending@);
            self.valid_pending.push(d);
            assert(rows_view(self.valid_pending@) =~= before.push(data.pairs_view()));
        } else {
            let ghost before = rows_view(self.invalid_pending@);
            self.invalid_pending.push(d);
            assert(rows_view(self.invalid_pending@) =~= before.push(data.pairs_view()));
        }
        let v = self.valid_pending.len();
        let i = self.invalid_pending.len();
        v >= self.flush_threshold || i >= self.flush_threshold - v
    }

    /// The buffered valid and invalid rows as values under the columns, in
    /// the order they came.
    pub fn pending_rows(&self) -> (r: (Vec<Vec<String>>, Vec<Vec<String>>))
        ensures
            r.0@.len() == self.valid_pending@.len(),
            forall|k: int|
                0 <= k < r.0@.len() ==> strs_view((#[trigger] r.0@[k])@) == table_rows(
                    strs_view(self.ordered_columns@),
                    rows_view(self.valid_pending@),
                )[k],
            r.1@.len() == self.invalid_pending@.len(),
            forall|k: int|
                0 <= k < r.1@.len() ==> strs_view((#[trigger] r.1@[k])@) == table_rows(
                    strs_view(self.ordered_columns@),
                    rows_view(self.invalid_pending@),
                )[k],
    {
        let valid = rows_for(self.ordered_columns.as_slice(), self.valid_pending.as_slice());
        let invalid = rows_for(self.ordered_columns.as_slice(), self.invalid_pending.as_slice());
        (valid, invalid)
    }

    /// Forgets the buffered rows, once they are written.
    pub fn clear_pending(&mut self)
        ensures
            final(self).valid_pending@.len() == 0,
            final(self).invalid_pending@.len() == 0,
            final(self).valid_table_name == old(self).valid_table_name,
            final(self).invalid_table_name == old(self).invalid_table_name,
            final(self).ordered_columns == old(self).ordered_columns,
            final(self).flush_threshold == old(self).flush_threshold,
    {
        self.valid_pending = Vec::new();
        self.invalid_pending = Vec::new();
    }
}

/// The values of each row under the columns.
fn rows_for(columns: &[String], rows: &[Data]) -> (r: Vec<Vec<String>>)
    ensures
        r@.len() == rows@.len(),
        forall|k: int|
            0 <= k < r@.len() ==> strs_view((#[trigger] r@[k])@) == table_rows(
                strs_view(columns@),
                rows_view(rows@),
            )[k],
{
    let mut r: Vec<Vec<String>> = Vec::new();
    let mut i: usize = 0;
    while i < rows.len()
        invariant
            i <= rows@.len(),
            r@.len() == i,
            forall|k: int|
                0 <= k < i ==> strs_view((#[trigger] r@[k])@) == table_rows(
                    strs_view(columns@),
                    rows_view(rows@),
                )[k],
        decreases rows@.len() - i,
    {
        r.push(SqliteDatabaseSink::row_values_for_columns(columns, &rows[i]));
        i = i + 1;
    }
    r
}

} // verus!
