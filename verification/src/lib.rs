//! Sinks of a production-data pipeline: the statistics, checks and
//! SQL text that the sinks compute, with their contracts.
pub mod data;
pub mod data_checker;
pub mod error;
pub mod operator_parser;
pub mod order;
pub mod process_vector;
pub mod sqlite_writer;
pub mod text;
pub mod vector_field_config;
pub mod operator_config;
pub mod puaration_config;
pub mod material_production;
pub mod vector_counts;
pub mod row_values;
pub mod operator_puaration;
pub mod puaration;
pub mod quality_param;
pub mod quality_inspection;
pub mod stats_flow;
pub mod end_sink;
pub mod sqlite_sink;
pub mod mysql_sql;
pub mod legacy_sqlite;
