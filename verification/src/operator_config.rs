//! Configuration of the operator statistics sink.
use vstd::prelude::*;

use crate::data::strs_view;
use crate::vector_field_config::{default_fields, fields_view, VectorFieldConfig};

verus! {

/// The names of the output columns of the operator statistics.
#[derive(Debug, Clone)]
pub struct OperatorOutputMetricColumns {
    pub operator_name: String,
    pub process_vector: String,
    pub occurrence_count: String,
    pub distinct_vector_count: String,
    pub purity: String,
}

impl OperatorOutputMetricColumns {
    /// The column names as a list, in field order.
    pub open spec fn names(&self) -> Seq<Seq<char>> {
        seq![
            self.operator_name@,
            self.process_vector@,
            self.occurrence_count@,
            self.distinct_vector_count@,
            self.purity@,
        ]
    }
}

/// One field of an operator's process vector: its aliases and output column.
#[derive(Debug, Clone)]
pub struct OperatorVectorFieldConfig {
    pub aliases: Vec<String>,
    pub output_column: String,
}

/// Configuration of the operator statistics sink.
#[derive(Debug, Clone)]
pub struct OperatorPuarationSinkConfig {
    /// The names the remark may go by in a row.
    pub remark_aliases: Vec<String>,
    /// The fields that make up the process vector.
    pub vector_fields: Vec<VectorFieldConfig>,
    /// The names of the output columns.
    pub output_metrics: OperatorOutputMetricColumns,
    /// Where the database configuration file lies.
    pub database_config_path: String,
}

/// The default output column names.
pub open spec fn default_operator_metric_names() -> Seq<Seq<char>> {
    seq!["操机手"@, "工艺参数向量"@, "出现次数"@, "不同向量数量"@, "纯度"@]
}

impl Default for OperatorPuarationSinkConfig {
    fn default() -> (r: Self)
        ensures
            strs_view(r.remark_aliases@) == seq!["备注信息"@, "备注"@],
            fields_view(r.vector_fields@) == default_fields(),
            r.output_metrics.names() == default_operator_metric_names(),
            r.database_config_path@
                == "config/database/operator_puaration_database_config.json"@,
    {
        let r = OperatorPuarationSinkConfig {
            remark_aliases: vec!["备注信息".to_owned(), "备注".to_owned()],
            vector_fields: VectorFieldConfig::default_vector_fields(),
            output_metrics: OperatorOutputMetricColumns {
                operator_name: "操机手".to_owned(),
                process_vector: "工艺参数向量".to_owned(),
                occurrence_count: "出现次数".to_owned(),
                distinct_vector_count: "不同向量数量".to_owned(),
                purity: "纯度".to_owned(),
            },
            database_config_path: "config/database/operator_puaration_database_config.json".to_owned(),
        };
        assert(strs_view(r.remark_aliases@) =~= seq!["备注信息"@, "备注"@]);
        assert(r.output_metrics.names() =~= default_operator_metric_names());
        r
    }
}

} // verus!
