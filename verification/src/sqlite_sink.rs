//! The buffered SQLite sink: its configuration, and the rows it holds until
//! they are written in one batch. Opening the database and writing stay
//! with the caller; this module decides what is written and when.
use vstd::prelude::*;

use crate::data::{field_value, strs_view, Data};
use crate::error::Error;
use crate::text::{concat_strs, owned, trim};

verus! {

/// The database file used when the configuration names none.
pub open spec fn default_sqlite_path() -> Seq<char> {
    "data/work_record.db"@
}

/// The fields of a database configuration file, each optional.
#[derive(Debug, Clone)]
pub struct DatabaseConfigFile {
    pub sqlite_db_path: Option<String>,
    pub table_name: Option<String>,
    pub invalid_table_name: Option<String>,
    pub columns: Option<Vec<String>>,
    pub buffer_capacity: Option<usize>,
    pub flush_threshold: Option<usize>,
}

/// A checked database configuration, with the defaults filled in.
#[derive(Debug, Clone)]
pub struct DbConfig {
    pub sqlite_db_path: String,
    pub ordered_columns: Vec<String>,
    pub buffer_capacity: usize,
    pub flush_threshold: usize,
}

/// The values of the row under each column, in order; the empty string
/// where the row has no value.
pub open spec fn row_values(columns: Seq<Seq<char>>, pairs: Seq<(Seq<char>, Seq<char>)>) -> Seq<Seq<char>> {
    columns.map_values(|c: Seq<char>| field_value(pairs, c))
}

/// The buffered SQLite sink.
pub struct SqliteDatabaseSink {
    /// The table the rows go to.
    pub table_name: String,
    /// The columns written, in order.
    pub ordered_columns: Vec<String>,
    /// The configuration file the sink was configured from.
    pub config_path: String,
    /// The rows not written yet.
    pub buffer: Vec<Data>,
    /// How many buffered rows call for a write.
    pub flush_threshold: usize,
    /// Whether a configuration was applied.
    pub configured: bool,
}

impl SqliteDatabaseSink {
    /// The buffered rows as plain values.
    pub open spec fn buffer_view(&self) -> Seq<Seq<(Seq<char>, Seq<char>)>> {
        self.buffer@.map_values(|d: Data| d.pairs_view())
    }

    /// A sink that is not configured yet and holds no rows.
    pub fn new(flush_threshold: usize) -> (r: SqliteDatabaseSink)
        ensures
            !r.configured,
            r.buffer@.len() == 0,
            r.flush_threshold == flush_threshold,
            r.table_name@.len() == 0,
            r.ordered_columns@.len() == 0,
            r.config_path@.len() == 0,
    {
        SqliteDatabaseSink {
            table_name: String::new(),
            ordered_columns: Vec::new(),
            config_path: String::new(),
            buffer: Vec::new(),
            flush_threshold,
            configured: false,
        }
    }

    /// Checks a configuration: its column list must be there and not empty;
    /// the database path defaults to "data/work_record.db" and the buffer
    /// sizes to the given defaults.
    pub fn load_config(
        cfg: DatabaseConfigFile,
        default_buffer_capacity: usize,
        default_flush_threshold: usize,
    ) -> (r: Result<DbConfig, Error>)
        ensures
            match cfg.columns {
                Some(cols) if cols@.len() > 0 => r matches Ok(c) && c.ordered_columns == cols
                    && c.sqlite_db_path@ == match cfg.sqlite_db_path {
                    Some(p) => p@,
                    None => default_sqlite_path(),
                } && c.buffer_capacity == match cfg.buffer_capacity {
                    Some(n) => n,
                    None => default_buffer_capacity,
                } && c.flush_threshold == match cfg.flush_threshold {
                    Some(n) => n,
                    None => default_flush_threshold,
                },
                _ => r matches Err(Error::SourceDataFileError(m)) && m@
                    == "missing or empty database.columns in config"@,
            },
    {
        let ordered_columns = match cfg.columns {
            Some(cols) => {
                if cols.len() == 0 {
                    return Err(
                        Error::SourceDataFileError(
                            owned("missing or empty database.columns in config"),
                        ),
                    );
                }
                cols
            },
            None => {
                return Err(
                    Error::SourceDataFileError(owned("missing or empty database.columns in config")),
                );
            },
        };
        let sqlite_db_path = match cfg.sqlite_db_path {
            Some(p) => p,
            None => owned("data/work_record.db"),
        };
        let buffer_capacity = match cfg.buffer_capacity {
            Some(n) => n,
            None => default_buffer_capacity,
        };
        let flush_threshold = match cfg.flush_threshold {
            Some(n) => n,
            None => default_flush_threshold,
        };
        Ok(DbConfig { sqlite_db_path, ordered_columns, buffer_capacity, flush_threshold })
    }

    /// The table a configuration names: the valid-data table ("work_record"
    /// when none is named), or, for invalid data, the invalid-data table,
    /// which defaults to the valid-data table's name followed by "_invalid".
    pub fn read_table_name(cfg: &DatabaseConfigFile, use_invalid: bool) -> (r: String)
        ensures
            ({
                let valid = match cfg.table_name {
                    Some(t) => t@,
                    None => "work_record"@,
                };
                r@ == if use_invalid {
                    match cfg.invalid_table_name {
                        Some(t) => t@,
                        None => valid + "_invalid"@,
                    }
                } else {
                    valid
                }
            }),
    {
        let valid = match &cfg.table_name {
            Some(t) => t.clone(),
            None => owned("work_record"),
        };
        if use_invalid {
            match &cfg.invalid_table_name {
                Some(t) => t.clone(),
                None => concat_strs(valid.as_str(), "_invalid"),
            }
        } else {
            valid
        }
    }

    /// A configuration path must not be blank.
    pub fn check_config_path(config_path: &str) -> (r: Result<(), Error>)
        ensures
            trim(config_path@).len() == 0 ==> (r matches Err(Error::SourceDataFileError(m)) && m@
                == "sqlite config path is empty"@),
            trim(config_path@).len() > 0 ==> r is Ok,
    {
        let t = crate::text::trim_str(config_path);
        if t.as_str().is_empty() {
            return Err(Error::SourceDataFileError(owned("sqlite config path is empty")));
        }
        Ok(())
    }

    /// Takes a configuration, once its database is open: the table, the
    /// columns, the threshold and the configuration path are set, and the
    /// sink counts as configured. The buffered rows stay.
    pub fn apply_config(&mut self, cfg: &DbConfig, table_name: &str, config_path: &str)
        ensures
            final(self).configured,
            final(self).table_name@ == table_name@,
            strs_view(final(self).ordered_columns@) == strs_view(cfg.ordered_columns@),
            final(self).flush_threshold == cfg.flush_threshold,
            final(self).config_path@ == config_path@,
            final(self).buffer == old(self).buffer,
    {
        self.table_name = owned(table_name);
        self.ordered_columns = crate::data::copy_strings(&cfg.ordered_columns);
        self.flush_threshold = cfg.flush_threshold;
        self.config_path = owned(config_path);
        self.configured = true;
    }

    /// The row's values under the columns, in order (see `row_values`).
    pub fn row_values_for_columns(ordered_columns: &[String], data: &Data) -> (r: Vec<String>)
        ensures
            strs_view(r@) == row_values(strs_view(ordered_columns@), data.pairs_view()),
    {
        let mut r: Vec<String> = Vec::new();
        let mut i: usize = 0;
        while i < ordered_columns.len()
            invariant
                i <= ordered_columns@.len(),
                strs_view(r@) =~= row_values(strs_view(ordered_columns@), data.pairs_view()).take(
                    i as int,
                ),
            decreases ordered_columns@.len() - i,
        {
            let v = match data.get_pair(ordered_columns[i].as_str()) {
                Some(p) => p.value.clone(),
                None => String::new(),
            };
            let ghost before = strs_view(r@);
            r.push(v);
            proof {
                let want = row_values(strs_view(ordered_columns@), data.pairs_view());
                assert(strs_view(ordered_columns@)[i as int] == ordered_columns@[i as int]@);
                assert(want[i as int] == v@);
                assert(strs_view(r@) =~= before.push(v@));
                assert(want.take(i + 1) =~= want.take(i as int).push(want[i as int]));
            }
            i = i + 1;
        }
        r
    }

    /// Buffers a copy of the row. An unconfigured sink refuses it. The
    /// result says whether the buffer has reached the threshold, so that
    /// the rows are due to be written.
    pub fn buffer_row(&mut self, data: &Data) -> (r: Result<bool, Error>)
        ensures
            !old(self).configured ==> (r matches Err(Error::SourceDataFileError(m)) && m@
                == "sqlite sink is not configured"@ && *final(self) == *old(self)),
            old(self).configured ==> (r matches Ok(due) && final(self).buffer_view()
                == old(self).buffer_view().push(data.pairs_view()) && due == (
            final(self).buffer@.len() >= old(self).flush_threshold)),
            final(self).configured == old(self).configured,
            final(self).table_name == old(self).table_name,
            final(self).ordered_columns == old(self).ordered_columns,
            final(self).flush_threshold == old(self).flush_threshold,
    {
        if !self.configured {
            return Err(Error::SourceDataFileError(owned("sqlite sink is not configured")));
        }
        let ghost before = self.buffer_view();
        let d = data.duplicate();
        self.buffer.push(d);
        assert(self.buffer_view() =~= before.push(data.pairs_view()));
        Ok(self.buffer.len() >= self.flush_threshold)
    }

    /// Takes the buffered rows as values under the configured columns, and
    /// empties the buffer; nothing when the sink is not configured or holds
    /// no rows.
    pub fn take_pending_rows(&mut self) -> (r: Option<Vec<Vec<String>>>)
        ensures
            (!old(self).configured || old(self).buffer@.len() == 0) ==> (r is None && *final(self)
                == *old(self)),
            (old(self).configured && old(self).buffer@.len() > 0) ==> (r matches Some(rows)
                && rows@.len() == old(self).buffer@.len() && (forall|k: int|
                0 <= k < rows@.len() ==> strs_view((#[trigger] rows@[k])@) == row_values(
                    strs_view(old(self).ordered_columns@),
                    old(self).buffer_view()[k],
                )) && final(self).buffer@.len() == 0),
            final(self).configured == old(self).configured,
            final(self).table_name == old(self).table_name,
            final(self).ordered_columns == old(self).ordered_columns,
            final(self).flush_threshold == old(self).flush_threshold,
    {
        if !self.configured || self.buffer.len() == 0 {
            return None;
        }
        let mut rows: Vec<Vec<String>> = Vec::new();
        let mut i: usize = 0;
        while i < self.buffer.len()
            invariant
                i <= self.buffer@.len(),
                rows@.len() == i,
                forall|k: int|
                    0 <= k < i ==> strs_view((#[trigger] rows@[k])@) == row_values(
                        strs_view(self.ordered_columns@),
                        self.buffer_view()[k],
                    ),
            decreases self.buffer@.len() - i,
        {
            let row = Self::row_values_for_columns(self.ordered_columns.as_slice(), &self.buffer[i]);
            rows.push(row);
            i = i + 1;
        }
        self.buffer = Vec::new();
        Some(rows)
    }
}

} // verus!
