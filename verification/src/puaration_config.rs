//! Configuration of the process-vector statistics (puaration) sink.
use vstd::prelude::*;

use crate::data::strs_view;
use crate::vector_field_config::{default_fields, fields_view, VectorFieldConfig};

verus! {

/// The names of the output columns of the process-vector statistics.
#[derive(Debug, Clone)]
pub struct OutputMetricColumns {
    pub material_code: String,
    pub process_vector: String,
    pub occurrence_count: String,
    pub distinct_vector_count: String,
    pub purity: String,
    pub quant_isok_pct: String,
    pub qual_isok_pct: String,
}

/// Configuration of the process-vector statistics sink.
#[derive(Debug, Clone)]
pub struct PuarationSinkConfig {
    /// The names the material code may go by in a row.
    pub material_code_aliases: Vec<String>,
    /// The names the batch number may go by in a row.
    pub batch_code_aliases: Vec<String>,
    /// The fields that make up the process vector.
    pub vector_fields: Vec<VectorFieldConfig>,
    /// The names of the output columns.
    pub output_metrics: OutputMetricColumns,
    /// Where the database configuration file lies.
    pub database_config_path: String,
}

/// Where the statistics are written, as the database configuration file
/// gives it; each entry may be missing.
#[derive(Debug, Clone)]
pub struct PuarationDbConfig {
    pub sqlite_db_path: Option<String>,
    pub table_name: Option<String>,
    pub columns: Option<Vec<String>>,
}

impl OutputMetricColumns {
    /// The column names as a list, in field order.
    pub open spec fn names(&self) -> Seq<Seq<char>> {
        seq![
            self.material_code@,
            self.process_vector@,
            self.occurrence_count@,
            self.distinct_vector_count@,
            self.purity@,
            self.quant_isok_pct@,
            self.qual_isok_pct@,
        ]
    }
}

/// The default output column names.
pub open spec fn default_metric_names() -> Seq<Seq<char>> {
    seq![
        "物料品号"@,
        "工艺参数向量"@,
        "出现次数"@,
        "不同向量数量"@,
        "纯度"@,
        "定量IsOK百分比"@,
        "定性IsOK百分比"@,
    ]
}

impl Default for PuarationSinkConfig {
    fn default() -> (r: Self)
        ensures
            strs_view(r.material_code_aliases@) == seq!["物料品号"@, "物料品名"@],
            strs_view(r.batch_code_aliases@) == seq!["批号"@],
            fields_view(r.vector_fields@) == default_fields(),
            r.output_metrics.names() == default_metric_names(),
            r.database_config_path@ == "config/database/puaration_database_config.json"@,
    {
        let r = PuarationSinkConfig {
            material_code_aliases: vec!["物料品号".to_owned(), "物料品名".to_owned()],
            batch_code_aliases: vec!["批号".to_owned()],
            vector_fields: VectorFieldConfig::default_vector_fields(),
            output_metrics: OutputMetricColumns {
                material_code: "物料品号".to_owned(),
                process_vector: "工艺参数向量".to_owned(),
                occurrence_count: "出现次数".to_owned(),
                distinct_vector_count: "不同向量数量".to_owned(),
                purity: "纯度".to_owned(),
                quant_isok_pct: "定量IsOK百分比".to_owned(),
                qual_isok_pct: "定性IsOK百分比".to_owned(),
            },
            database_config_path: "config/database/puaration_database_config.json".to_owned(),
        };
        assert(strs_view(r.material_code_aliases@) =~= seq!["物料品号"@, "物料品名"@]);
        assert(strs_view(r.batch_code_aliases@) =~= seq!["批号"@]);
        assert(r.output_metrics.names() =~= default_metric_names());
        r
    }
}

} // verus!
