//! The operator statistics sink: counts, per main operator named in a row's
//! remark, how often each process vector occurs.
use vstd::prelude::*;

use crate::data::{strs_view, value_by_aliases, Data};
use crate::operator_config::OperatorPuarationSinkConfig;
use crate::operator_parser::{main_operator, OperatorParser};
use crate::order::key_le;
use crate::process_vector::ProcessVector;
use crate::row_values::{
    build_process_vector, field_text, output_value, vector_field_value, vector_of, CellView, RowCell,
};
use crate::error::Error;
use crate::sqlite_writer::{
    build_create_table_sql, create_table_sql, db_target, defs_view, ColumnDef, DbTarget, SqliteDbConfig,
};
use crate::text::str_eq;
use crate::vector_counts::{count_of, counted, rows_of, values_key, CountRow, VectorCounts};
use crate::vector_field_config::fields_view;

verus! {

/// The statistics of one operator and one process vector. The purity, the
/// occurrence count over the number of distinct vectors, is computed where
/// the statistics are written.
#[derive(Debug, Clone)]
pub struct OperatorPuarationStat {
    /// The operator's name.
    pub operator_name: String,
    /// The values of the process vector.
    pub vector_values: Vec<String>,
    /// How often the operator ran with this vector.
    pub occurrence_count: usize,
    /// How many distinct vectors the operator ran with.
    pub distinct_vector_count: usize,
}

/// A statistic as a row of counts.
pub open spec fn stat_row(s: OperatorPuarationStat) -> CountRow {
    CountRow {
        key: s.operator_name,
        vector: ProcessVector { values: s.vector_values },
        occurrence_count: s.occurrence_count,
        distinct_vector_count: s.distinct_vector_count,
    }
}

/// The operator and the process vector a row is counted under, if it has
/// both: the main operator named in its remark and a value for each field.
pub open spec fn operator_row(
    pairs: Seq<(Seq<char>, Seq<char>)>,
    cfg: OperatorPuarationSinkConfig,
) -> Option<(Seq<char>, Seq<Seq<char>>)> {
    match value_by_aliases(pairs, strs_view(cfg.remark_aliases@)) {
        None => None,
        Some(remark) => match main_operator(remark) {
            None => None,
            Some(op) => match vector_of(pairs, fields_view(cfg.vector_fields@)) {
                None => None,
                Some(v) => Some((op, v)),
            },
        },
    }
}

/// The counts after one row.
pub open spec fn after_operator_row(
    view: Map<Seq<char>, Map<Seq<Seq<char>>, nat>>,
    pairs: Seq<(Seq<char>, Seq<char>)>,
    cfg: OperatorPuarationSinkConfig,
) -> Map<Seq<char>, Map<Seq<Seq<char>>, nat>> {
    match operator_row(pairs, cfg) {
        Some((op, v)) => counted(view, op, v),
        None => view,
    }
}

/// The row's count can still grow.
pub open spec fn operator_row_countable(
    view: Map<Seq<char>, Map<Seq<Seq<char>>, nat>>,
    pairs: Seq<(Seq<char>, Seq<char>)>,
    cfg: OperatorPuarationSinkConfig,
) -> bool {
    match operator_row(pairs, cfg) {
        Some((op, v)) => count_of(view, op, v) < usize::MAX,
        None => true,
    }
}

/// The sink that counts process vectors per operator.
pub struct OperatorPuarationSink {
    pub config: OperatorPuarationSinkConfig,
    pub counts_by_operator: VectorCounts,
}

impl OperatorPuarationSink {
    /// The counts per operator and vector.
    pub open spec fn view(&self) -> Map<Seq<char>, Map<Seq<Seq<char>>, nat>> {
        self.counts_by_operator.view()
    }

    pub open spec fn wf(&self) -> bool {
        self.counts_by_operator.wf()
    }

    /// A sink with the given configuration that has counted nothing.
    pub fn new(config: OperatorPuarationSinkConfig) -> (r: OperatorPuarationSink)
        ensures
            r.wf(),
            r.view() == Map::<Seq<char>, Map<Seq<Seq<char>>, nat>>::empty(),
            r.config == config,
    {
        OperatorPuarationSink { config, counts_by_operator: VectorCounts::new() }
    }

    /// The trimmed value under the first usable alias (see
    /// `Data::get_value_by_aliases`).
    pub fn read_value_by_aliases(data: &Data, aliases: &[String]) -> (r: Option<String>)
        ensures
            match r {
                Some(v) => value_by_aliases(data.pairs_view(), strs_view(aliases@)) == Some(v@),
                None => value_by_aliases(data.pairs_view(), strs_view(aliases@)) is None,
            },
    {
        data.get_value_by_aliases(aliases)
    }

    /// The process vector of a row under the configured fields.
    pub fn build_process_vector(&self, data: &Data) -> (r: Option<ProcessVector>)
        ensures
            match r {
                Some(v) => vector_of(data.pairs_view(), fields_view(self.config.vector_fields@))
                    == Some(v@),
                None => vector_of(data.pairs_view(), fields_view(self.config.vector_fields@)) is None,
            },
    {
        build_process_vector(data, self.config.vector_fields.as_slice())
    }

    /// Whether counting the row leaves every count within `usize`.
    pub fn is_countable(&self, data: &Data) -> (r: bool)
        requires
            self.wf(),
        ensures
            r == operator_row_countable(self.view(), data.pairs_view(), self.config),
    {
        let remark = match Self::read_value_by_aliases(data, self.config.remark_aliases.as_slice()) {
            Some(r) => r,
            None => return true,
        };
        let operator_name = match OperatorParser::extract_main_operator(remark.as_str()) {
            Some(n) => n,
            None => return true,
        };
        let vector = match self.build_process_vector(data) {
            Some(v) => v,
            None => return true,
        };
        self.counts_by_operator.count(operator_name.as_str(), &vector) < usize::MAX
    }

    /// Counts the row under its main operator and process vector, when it
    /// names both; otherwise leaves the counts as they are.
    pub fn collect_data_into(&mut self, data: &Data)
        requires
            old(self).wf(),
            operator_row_countable(old(self).view(), data.pairs_view(), old(self).config),
        ensures
            final(self).wf(),
            final(self).config == old(self).config,
            final(self).view() == after_operator_row(
                old(self).view(),
                data.pairs_view(),
                old(self).config,
            ),
    {
        let remark = match Self::read_value_by_aliases(data, self.config.remark_aliases.as_slice()) {
            Some(r) => r,
            None => return ,
        };
        let operator_name = match OperatorParser::extract_main_operator(remark.as_str()) {
            Some(n) => n,
            None => return ,
        };
        let vector = match self.build_process_vector(data) {
            Some(v) => v,
            None => return ,
        };
        self.counts_by_operator.increment(operator_name, vector);
    }

    /// Counts the row as `collect_data_into` does, but only when the row is
    /// valid.
    pub fn collect_valid_data(&mut self, data: &Data)
        requires
            old(self).wf(),
            operator_row_countable(old(self).view(), data.pairs_view(), old(self).config),
        ensures
            final(self).wf(),
            final(self).config == old(self).config,
            final(self).view() == if data.valid {
                after_operator_row(old(self).view(), data.pairs_view(), old(self).config)
            } else {
                old(self).view()
            },
    {
        if !data.is_valid() {
            return ;
        }
        self.collect_data_into(data);
    }

    /// Takes one row: counts it and stamps the flow state
    /// "operator_puaration" on it.
    pub fn sink_data(&mut self, data: &mut Data)
        requires
            old(self).wf(),
            old(data).wf(),
            operator_row_countable(old(self).view(), old(data).pairs_view(), old(self).config),
        ensures
            final(self).wf(),
            final(self).config == old(self).config,
            final(self).view() == after_operator_row(
                old(self).view(),
                old(data).pairs_view(),
                old(self).config,
            ),
            final(data).wf(),
            final(data).flow_state_view() == old(data).flow_state_view().insert(
                "operator_puaration"@,
            ),
            final(data).pairs == old(data).pairs,
            final(data).valid == old(data).valid,
    {
        self.collect_data_into(data);
        data.add_flow_state("operator_puaration".to_owned());
    }

    /// The statistics of every operator and vector, sorted by operator name
    /// and then by the vector's values.
    pub fn stats(&self) -> (r: Vec<OperatorPuarationStat>)
        requires
            self.wf(),
        ensures
            rows_of(self.view(), r@.map_values(|s: OperatorPuarationStat| stat_row(s))),
            forall|a: int, b: int|
                0 <= a < b < r@.len() ==> key_le(
                    values_key(stat_row(#[trigger] r@[a])),
                    values_key(stat_row(#[trigger] r@[b])),
                ),
    {
        let rows = self.counts_by_operator.rows_by_values();
        let ghost rv = rows@;
        let r = Self::collect_stats_from_rows(rows);
        proof {
            assert forall|a: int, b: int| 0 <= a < b < r@.len() implies key_le(
                values_key(stat_row(#[trigger] r@[a])),
                values_key(stat_row(#[trigger] r@[b])),
            ) by {
                assert(r@.map_values(|s: OperatorPuarationStat| stat_row(s))[a] == rv[a]);
                assert(r@.map_values(|s: OperatorPuarationStat| stat_row(s))[b] == rv[b]);
            }
        }
        r
    }

    fn collect_stats_from_rows(rows: Vec<CountRow>) -> (r: Vec<OperatorPuarationStat>)
        ensures
            r@.map_values(|s: OperatorPuarationStat| stat_row(s)) == rows@,
    {
        let ghost orig = rows@;
        let mut rest = rows;
        let mut r: Vec<OperatorPuarationStat> = Vec::new();
        while rest.len() > 0
            invariant
                orig == rest@ + r@.map_values(|s: OperatorPuarationStat| stat_row(s)).reverse(),
            decreases rest@.len(),
        {
            let ghost before = r@.map_values(|s: OperatorPuarationStat| stat_row(s));
            let row = rest.pop().unwrap();
            let s = OperatorPuarationStat {
                operator_name: row.key,
                vector_values: row.vector.values,
                occurrence_count: row.occurrence_count,
                distinct_vector_count: row.distinct_vector_count,
            };
            r.push(s);
            assert(r@.map_values(|s: OperatorPuarationStat| stat_row(s)) =~= before.push(stat_row(s)));
            assert(before.push(stat_row(s)).reverse() =~= seq![stat_row(s)] + before.reverse());
        }
        // the rows were taken from the back; put them in order again
        let mut out: Vec<OperatorPuarationStat> = Vec::new();
        let ghost rv = r@.map_values(|s: OperatorPuarationStat| stat_row(s));
        assert(orig =~= rv.reverse());
        while r.len() > 0
            invariant
                rv.reverse() == orig,
                out@.map_values(|s: OperatorPuarationStat| stat_row(s)) + r@.map_values(
                    |s: OperatorPuarationStat| stat_row(s),
                ).reverse() == orig,
            decreases r@.len(),
        {
            let ghost before_r = r@.map_values(|s: OperatorPuarationStat| stat_row(s));
            let ghost before_out = out@.map_values(|s: OperatorPuarationStat| stat_row(s));
            let s = r.pop().unwrap();
            out.push(s);
            assert(before_r =~= r@.map_values(|s: OperatorPuarationStat| stat_row(s)).push(stat_row(s)));
            assert(before_r.reverse() =~= seq![stat_row(s)] + r@.map_values(
                |s: OperatorPuarationStat| stat_row(s),
            ).reverse());
            assert(out@.map_values(|s: OperatorPuarationStat| stat_row(s)) =~= before_out.push(
                stat_row(s),
            ));
        }
        assert(out@.map_values(|s: OperatorPuarationStat| stat_row(s)) =~= orig);
        out
    }

    /// Ends a run: hands back the statistics (as `stats` orders them) for
    /// writing out, and forgets the counts.
    pub fn finish(&mut self) -> (r: Vec<OperatorPuarationStat>)
        requires
            old(self).wf(),
        ensures
            rows_of(old(self).view(), r@.map_values(|s: OperatorPuarationStat| stat_row(s))),
            forall|a: int, b: int|
                0 <= a < b < r@.len() ==> key_le(
                    values_key(stat_row(#[trigger] r@[a])),
                    values_key(stat_row(#[trigger] r@[b])),
                ),
            final(self).wf(),
            final(self).config == old(self).config,
            final(self).view() == Map::<Seq<char>, Map<Seq<Seq<char>>, nat>>::empty(),
    {
        let r = self.stats();
        self.counts_by_operator.clear();
        r
    }

    /// The SQL type of an output column: counts are `INTEGER`, the purity
    /// is `REAL`, everything else `TEXT`.
    pub open spec fn column_type(&self, col: Seq<char>) -> Seq<char> {
        let m = self.config.output_metrics;
        if col == m.occurrence_count@ || col == m.distinct_vector_count@ {
            "INTEGER"@
        } else if col == m.purity@ {
            "REAL"@
        } else {
            "TEXT"@
        }
    }

    /// The column definitions of the output table.
    pub fn build_column_defs(&self, columns: &[String]) -> (r: Vec<ColumnDef>)
        ensures
            r@.len() == columns@.len(),
            forall|k: int|
                0 <= k < columns@.len() ==> (#[trigger] r@[k]).name@ == columns@[k]@
                    && r@[k].col_type@ == self.column_type(columns@[k]@),
    {
        let m = &self.config.output_metrics;
        let mut r: Vec<ColumnDef> = Vec::new();
        let mut i: usize = 0;
        while i < columns.len()
            invariant
                m == self.config.output_metrics,
                i <= columns.len(),
                r@.len() == i,
                forall|k: int|
                    0 <= k < i ==> (#[trigger] r@[k]).name@ == columns@[k]@ && r@[k].col_type@
                        == self.column_type(columns@[k]@),
            decreases columns.len() - i,
        {
            let col = columns[i].as_str();
            let def = if str_eq(col, m.occurrence_count.as_str()) || str_eq(
                col,
                m.distinct_vector_count.as_str(),
            ) {
                ColumnDef::integer(col)
            } else if str_eq(col, m.purity.as_str()) {
                ColumnDef::real_number(col)
            } else {
                ColumnDef::text(col)
            };
            r.push(def);
            i = i + 1;
        }
        r
    }

    /// `ident` quoted for SQLite (see `sqlite_writer::quote_ident`).
    pub fn quote_ident(&self, ident: &str) -> (r: String)
        ensures
            r@ == crate::sqlite_writer::quoted(ident@),
    {
        crate::sqlite_writer::quote_ident(ident)
    }

    /// The `CREATE TABLE` statement of the output table.
    pub fn build_create_table_sql(&self, table_name: &str, columns: &[String]) -> (r: String)
        ensures
            r@ == create_table_sql(
                table_name@,
                columns@.map_values(|c: String| (c@, self.column_type(c@))),
            ),
    {
        let defs = self.build_column_defs(columns);
        assert(defs_view(defs@) =~= columns@.map_values(|c: String| (c@, self.column_type(c@))));
        build_create_table_sql(table_name, defs.as_slice())
    }

    /// The `INSERT` statement of the output table.
    pub fn build_insert_sql(&self, table_name: &str, columns: &[String]) -> (r: String)
        ensures
            r@ == crate::sqlite_writer::insert_sql(table_name@, columns@.map_values(|s: String| s@)),
    {
        crate::sqlite_writer::build_insert_sql(table_name, columns)
    }

    /// The cell of output column `col` for a statistic.
    pub open spec fn cell(&self, stat: OperatorPuarationStat, col: Seq<char>) -> CellView {
        let m = self.config.output_metrics;
        if col == m.operator_name@ {
            CellView::Text(stat.operator_name@)
        } else if col == m.occurrence_count@ {
            CellView::Count(stat.occurrence_count as nat)
        } else if col == m.distinct_vector_count@ {
            CellView::Count(stat.distinct_vector_count as nat)
        } else if col == m.purity@ {
            CellView::Purity
        } else {
            CellView::Text(
                field_text(
                    fields_view(self.config.vector_fields@),
                    strs_view(stat.vector_values@),
                    col,
                ),
            )
        }
    }

    /// The cells of one output row for a statistic, column by column.
    pub fn build_db_row_values(&self, columns: &[String], stat: &OperatorPuarationStat) -> (r: Vec<
        RowCell,
    >)
        ensures
            r@.len() == columns@.len(),
            forall|k: int|
                0 <= k < columns@.len() ==> (#[trigger] r@[k]).view() == self.cell(
                    *stat,
                    columns@[k]@,
                ),
    {
        let m = &self.config.output_metrics;
        let mut r: Vec<RowCell> = Vec::new();
        let mut i: usize = 0;
        while i < columns.len()
            invariant
                m == self.config.output_metrics,
                i <= columns.len(),
                r@.len() == i,
                forall|k: int|
                    0 <= k < i ==> (#[trigger] r@[k]).view() == self.cell(*stat, columns@[k]@),
            decreases columns.len() - i,
        {
            let col = columns[i].as_str();
            let cell = if str_eq(col, m.operator_name.as_str()) {
                RowCell::Text(stat.operator_name.clone())
            } else if str_eq(col, m.occurrence_count.as_str()) {
                RowCell::Count(stat.occurrence_count)
            } else if str_eq(col, m.distinct_vector_count.as_str()) {
                RowCell::Count(stat.distinct_vector_count)
            } else if str_eq(col, m.purity.as_str()) {
                RowCell::Purity
            } else {
                RowCell::Text(
                    vector_field_value(
                        self.config.vector_fields.as_slice(),
                        stat.vector_values.as_slice(),
                        col,
                    ),
                )
            };
            r.push(cell);
            i = i + 1;
        }
        r
    }
}

impl OperatorPuarationSink {
    /// Where the statistics go: the configured database (by default
    /// "data/operator_puaration_stats.db") and table (by default
    /// "operator_puaration_stats"); a configuration without columns, or with
    /// an empty list, is an error.
    pub fn stats_db_target(cfg: SqliteDbConfig) -> (r: Result<DbTarget, Error>)
        ensures
            match cfg.columns {
                Some(c) if c@.len() > 0 => r matches Ok(t) && t.columns == c
                    && t.sqlite_db_path@ == match cfg.sqlite_db_path {
                    Some(p) => p@,
                    None => "data/operator_puaration_stats.db"@,
                } && t.table_name@ == match cfg.table_name {
                    Some(n) => n@,
                    None => "operator_puaration_stats"@,
                },
                _ => r matches Err(Error::SourceDataFileError(m)) && m@ == "missing database columns"@,
            },
    {
        let t = db_target(cfg, "data/operator_puaration_stats.db", "operator_puaration_stats");
        if t.columns.len() == 0 {
            return Err(Error::SourceDataFileError("missing database columns".to_owned()));
        }
        Ok(t)
    }
}

impl OperatorPuarationSink {
    /// What each output column of an operator statistics row holds, the
    /// first matching metric name deciding: the operator column the
    /// operator, the occurrence-count column the occurrence count, the
    /// distinct-vector column the number of distinct vectors, the purity
    /// column the purity; any other column the value of the vector field
    /// written to it, or nothing. The two counts never trade places.
    pub proof fn law_operator_cell(&self, stat: OperatorPuarationStat, col: Seq<char>)
        ensures
            ({
                let m = self.config.output_metrics;
                let cell = self.cell(stat, col);
                let op = m.operator_name@;
                let occ = m.occurrence_count@;
                let dist = m.distinct_vector_count@;
                let pur = m.purity@;
                &&& col == op ==> cell == CellView::Text(stat.operator_name@)
                &&& (col == occ && col != op) ==> cell == CellView::Count(
                    stat.occurrence_count as nat,
                )
                &&& (col == dist && col != op && col != occ) ==> cell == CellView::Count(
                    stat.distinct_vector_count as nat,
                )
                &&& (col == pur && col != op && col != occ && col != dist) ==> cell
                    == CellView::Purity
                &&& (col != op && col != occ && col != dist && col != pur) ==> cell
                    == CellView::Text(
                    match output_value(
                        fields_view(self.config.vector_fields@),
                        strs_view(stat.vector_values@),
                        col,
                    ) {
                        Some(v) => v,
                        None => Seq::<char>::empty(),
                    },
                )
            }),
    {
    }
}

/// A row whose remark names a main operator and which has a full process
/// vector is counted once more under them; every other count stays; any
/// other row changes nothing.
pub proof fn law_operator_row_counted(
    view: Map<Seq<char>, Map<Seq<Seq<char>>, nat>>,
    pairs: Seq<(Seq<char>, Seq<char>)>,
    cfg: OperatorPuarationSinkConfig,
    remark: Seq<char>,
    op: Seq<char>,
    v: Seq<Seq<char>>,
    m2: Seq<char>,
    v2: Seq<Seq<char>>,
)
    requires
        value_by_aliases(pairs, strs_view(cfg.remark_aliases@)) == Some(remark),
        main_operator(remark) == Some(op),
        vector_of(pairs, fields_view(cfg.vector_fields@)) == Some(v),
    ensures
        count_of(after_operator_row(view, pairs, cfg), op, v) == count_of(view, op, v) + 1,
        (m2 != op || v2 != v) ==> count_of(after_operator_row(view, pairs, cfg), m2, v2) == count_of(
            view,
            m2,
            v2,
        ),
{
}

} // verus!
