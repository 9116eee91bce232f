use sinks::error::Error;
use sinks::mysql_sql;
use sinks::mysql_sql::{load_db_runtime_config, MysqlConfigFile};
use sinks::operator_parser::OperatorParser;
use sinks::process_vector::{split_signature, ProcessVector};
use sinks::quality_param::{parse_param_text, strip_unit_suffix, ParamText};
use sinks::sqlite_writer::{
    all_text_columns, build_create_table_sql, build_insert_sql, db_target, quote_ident, ColumnDef,
    SqliteDbConfig,
};
use sinks::text::{concat_strs, contains_str, join_strings, str_eq, trim_str};

fn strings(v: &[&str]) -> Vec<String> {
    v.iter().map(|s| s.to_string()).collect()
}

#[test]
fn signature_joins_values_with_bars() {
    let v = ProcessVector { values: strings(&["1.2", "3", "机台A"]) };
    assert_eq!(v.signature(), "1.2|3|机台A");
}

#[test]
fn signature_of_empty_vector_is_empty() {
    let v = ProcessVector { values: Vec::new() };
    assert_eq!(v.signature(), "");
}

#[test]
fn split_signature_cuts_at_every_bar() {
    assert_eq!(split_signature("a|b||c").values, strings(&["a", "b", "", "c"]));
    assert_eq!(split_signature("").values, strings(&[""]));
}

#[test]
fn split_signature_undoes_signature() {
    let v = ProcessVector { values: strings(&["12.5", "", "机台B"]) };
    assert_eq!(split_signature(&v.signature()).values, v.values);
}

#[test]
fn main_operator_after_colon() {
    let r = OperatorParser::extract_main_operator("备注 主机手：张三，副机手李四");
    assert_eq!(r, Some("张三".to_string()));
}

#[test]
fn main_operator_skips_blanks_dashes_and_other_symbols() {
    assert_eq!(
        OperatorParser::extract_main_operator("主机手 - Tom Lee"),
        Some("Tom".to_string())
    );
    assert_eq!(
        OperatorParser::extract_main_operator("主机手：123王五/赵六"),
        Some("王五".to_string())
    );
    assert_eq!(
        OperatorParser::extract_main_operator("主机手—阿依·买买提，夜班"),
        Some("阿依·买买提".to_string())
    );
}

#[test]
fn main_operator_missing() {
    assert_eq!(OperatorParser::extract_main_operator("副机手：李四"), None);
    assert_eq!(OperatorParser::extract_main_operator("主机手：123"), None);
    assert_eq!(OperatorParser::extract_main_operator(""), None);
}

#[test]
fn main_operator_uses_first_marker() {
    assert_eq!(
        OperatorParser::extract_main_operator("主机手:甲 主机手:乙"),
        Some("甲".to_string())
    );
}

#[test]
fn quote_ident_doubles_quotes() {
    assert_eq!(quote_ident("name"), "\"name\"");
    assert_eq!(quote_ident("a\"b"), "\"a\"\"b\"");
    assert_eq!(quote_ident(""), "\"\"");
}

#[test]
fn quote_ident_body_reads_back() {
    let q = quote_ident("x\"\"y");
    let body = &q[1..q.len() - 1];
    assert_eq!(body.replace("\"\"", "\""), "x\"\"y");
}

#[test]
fn insert_sql_has_a_placeholder_per_column() {
    let sql = build_insert_sql("stats", &strings(&["物料品号", "出现次数"]));
    assert_eq!(sql, "INSERT INTO \"stats\" (\"物料品号\", \"出现次数\") VALUES (?, ?)");
}

#[test]
fn create_table_sql_lists_typed_columns() {
    let cols = vec![ColumnDef::text("a"), ColumnDef::integer("b"), ColumnDef::real_number("c")];
    let sql = build_create_table_sql("t", &cols);
    assert_eq!(
        sql,
        "CREATE TABLE IF NOT EXISTS \"t\" (id INTEGER PRIMARY KEY AUTOINCREMENT, \"a\" TEXT NULL, \"b\" INTEGER NULL, \"c\" REAL NULL)"
    );
}

#[test]
fn create_table_sql_without_columns() {
    let sql = build_create_table_sql("t", &[]);
    assert_eq!(sql, "CREATE TABLE IF NOT EXISTS \"t\" (id INTEGER PRIMARY KEY AUTOINCREMENT)");
}

#[test]
fn all_text_columns_are_text() {
    let defs = all_text_columns(&strings(&["x", "y"]));
    assert_eq!(defs.len(), 2);
    assert_eq!(defs[0].name, "x");
    assert_eq!(defs[0].col_type, "TEXT");
    assert_eq!(defs[1].name, "y");
    assert_eq!(defs[1].col_type, "TEXT");
}

#[test]
fn db_target_fills_defaults() {
    let t = db_target(SqliteDbConfig::default(), "data/x.db", "x");
    assert_eq!(t.sqlite_db_path, "data/x.db");
    assert_eq!(t.table_name, "x");
    assert!(t.columns.is_empty());
    let cfg = SqliteDbConfig {
        sqlite_db_path: Some("p.db".to_string()),
        table_name: Some("tb".to_string()),
        columns: Some(strings(&["c"])),
    };
    let t = db_target(cfg, "data/x.db", "x");
    assert_eq!(t.sqlite_db_path, "p.db");
    assert_eq!(t.table_name, "tb");
    assert_eq!(t.columns, strings(&["c"]));
}

#[test]
fn error_messages_name_their_kind() {
    assert_eq!(Error::DataNotReady("k1".into()).message(), "data not ready: k1");
    assert_eq!(Error::PipelineError("p".into()).message(), "pipeline error: p");
    assert_eq!(
        Error::SourceDataFileError("s".into()).message(),
        "source data file error: s"
    );
    assert_eq!(Error::DataError("d".into()).message(), "data error: d");
    assert_eq!(Error::Io("i".into()).message(), "io error: i");
    assert_eq!(Error::Json("j".into()).message(), "json error: j");
    assert_eq!(Error::Database("b".into()).message(), "database error: b");
}

#[test]
fn text_helpers() {
    assert_eq!(trim_str("  a b \t"), "a b");
    assert_eq!(concat_strs("ab", "cd"), "abcd");
    assert!(str_eq("x", "x"));
    assert!(!str_eq("x", "y"));
    assert_eq!(join_strings(&strings(&["a", "b", "c"]), ", "), "a, b, c");
    assert_eq!(join_strings(&[], ", "), "");
    assert!(contains_str("定量IsOK百分比", "IsOK"));
    assert!(!contains_str("纯度", "IsOK"));
    assert!(contains_str("abc", ""));
}

#[test]
fn strip_unit_suffix_drops_the_unit() {
    assert_eq!(strip_unit_suffix("50mm"), "50");
    assert_eq!(strip_unit_suffix(" 1.5 kg "), "1.5");
    assert_eq!(strip_unit_suffix("abc"), "abc");
    assert_eq!(strip_unit_suffix("12"), "12");
}

#[test]
fn parse_param_both_bounds() {
    match parse_param_text("0.5≤V≤1.0") {
        Ok(ParamText::BothBounds { lower, upper }) => {
            assert_eq!(lower, "0.5");
            assert_eq!(upper, "1.0");
        }
        other => panic!("unexpected {:?}", other),
    }
    match parse_param_text(" 10 ≤V≤ 50mm ") {
        Ok(ParamText::BothBounds { lower, upper }) => {
            assert_eq!(lower, "10");
            assert_eq!(upper, "50");
        }
        other => panic!("unexpected {:?}", other),
    }
}

#[test]
fn parse_param_other_forms() {
    match parse_param_text("V=OK") {
        Ok(ParamText::Qualitative { description }) => assert_eq!(description, "OK"),
        other => panic!("unexpected {:?}", other),
    }
    match parse_param_text("V≥ 3") {
        Ok(ParamText::LowerBound { lower }) => assert_eq!(lower, "3"),
        other => panic!("unexpected {:?}", other),
    }
    match parse_param_text("V≤7.5") {
        Ok(ParamText::UpperBound { upper }) => assert_eq!(upper, "7.5"),
        other => panic!("unexpected {:?}", other),
    }
    let t = parse_param_text("V=无裂纹").unwrap();
    assert!(t.is_qualitative());
    assert!(!t.is_quantitative());
    let t = parse_param_text("V≥1").unwrap();
    assert!(t.is_quantitative());
    assert!(!t.is_qualitative());
}

#[test]
fn parse_param_errors() {
    match parse_param_text("   ") {
        Err(Error::DataError(m)) => assert_eq!(m, "empty param string"),
        other => panic!("unexpected {:?}", other),
    }
    match parse_param_text("abc") {
        Err(Error::DataError(m)) => assert_eq!(m, "unrecognized param format: 'abc'"),
        other => panic!("unexpected {:?}", other),
    }
}

fn mysql_cfg() -> MysqlConfigFile {
    MysqlConfigFile {
        host: Some("h".into()),
        user: Some("u".into()),
        password: Some("p".into()),
        db_name: Some("d".into()),
        table_name: None,
        columns: Some(strings(&["a", "b"])),
        buffer_capacity: None,
        flush_threshold: Some(10),
        progress_print_every: None,
    }
}

#[test]
fn mysql_config_defaults() {
    let c = load_db_runtime_config(mysql_cfg()).unwrap();
    assert_eq!(c.host, "h");
    assert_eq!(c.table_name, "work_record");
    assert_eq!(c.ordered_columns, strings(&["a", "b"]));
    assert_eq!(c.buffer_capacity, 3000);
    assert_eq!(c.flush_threshold, 10);
    assert_eq!(c.progress_print_every, 100);
}

#[test]
fn mysql_config_reports_first_missing_field() {
    let mut cfg = mysql_cfg();
    cfg.user = None;
    cfg.db_name = None;
    match load_db_runtime_config(cfg) {
        Err(Error::SourceDataFileError(m)) => assert_eq!(m, "missing database.user in config"),
        other => panic!("unexpected {:?}", other),
    }
    let mut cfg = mysql_cfg();
    cfg.columns = Some(Vec::new());
    match load_db_runtime_config(cfg) {
        Err(Error::SourceDataFileError(m)) => {
            assert_eq!(m, "missing or empty database.columns in config")
        }
        other => panic!("unexpected {:?}", other),
    }
    let mut cfg = mysql_cfg();
    cfg.host = None;
    match load_db_runtime_config(cfg) {
        Err(Error::SourceDataFileError(m)) => assert_eq!(m, "missing database.host in config"),
        other => panic!("unexpected {:?}", other),
    }
}

#[test]
fn mysql_sql_text() {
    assert_eq!(mysql_sql::quote_ident("a`b"), "`a``b`");
    assert_eq!(
        mysql_sql::build_create_table_sql("t", &strings(&["a", "b"])),
        "CREATE TABLE IF NOT EXISTS `t` (id BIGINT PRIMARY KEY AUTO_INCREMENT, `a` TEXT NULL, `b` TEXT NULL)"
    );
    assert_eq!(
        mysql_sql::build_insert_sql("t", &strings(&["a", "b"]), 2),
        "INSERT INTO `t` (`a`, `b`) VALUES (?, ?), (?, ?)"
    );
    assert_eq!(
        mysql_sql::build_insert_sql("t", &strings(&["a"]), 1),
        "INSERT INTO `t` (`a`) VALUES (?)"
    );
}

#[test]
fn mysql_quoting_reads_back() {
    let q = mysql_sql::quote_ident("x``y`");
    assert!(q.starts_with('`') && q.ends_with('`'));
    let body = &q[1..q.len() - 1];
    assert_eq!(body.replace("``", "`"), "x``y`");
}

#[test]
fn signatures_tell_vectors_apart() {
    let a = ProcessVector { values: strings(&["a", "b"]) };
    let b = ProcessVector { values: strings(&["ab"]) };
    let c = ProcessVector { values: strings(&["a", "b", ""]) };
    assert_ne!(a.signature(), b.signature());
    assert_ne!(a.signature(), c.signature());
    // a value holding the separator is where the signature stops telling
    // vectors apart
    let d = ProcessVector { values: strings(&["a|b"]) };
    assert_eq!(a.signature(), d.signature());
}
