use sinks::legacy_sqlite::{load_legacy_runtime_config, LegacySqliteSink};
use sinks::data::{list_contains, Data};
use sinks::data_checker::DataChecker;
use sinks::end_sink::EndSinkType;
use sinks::error::Error;
use sinks::material_production::{MaterialProductionFields, MaterialProductionSink};
use sinks::operator_config::OperatorPuarationSinkConfig;
use sinks::operator_puaration::OperatorPuarationSink;
use sinks::puaration::PuarationSink;
use sinks::puaration_config::PuarationSinkConfig;
use sinks::sqlite_sink::{DatabaseConfigFile, DbConfig, SqliteDatabaseSink};
use sinks::stats_flow::{StatsFlowConfig, StatsFlowSink};

fn strings(v: &[&str]) -> Vec<String> {
    v.iter().map(|s| s.to_string()).collect()
}

fn row(pairs: &[(&str, &str)]) -> Data {
    let mut d = Data::new();
    for (k, v) in pairs {
        d.push_pair(k.to_string(), v.to_string());
    }
    d
}

fn sorted(mut v: Vec<String>) -> Vec<String> {
    v.sort();
    v
}

#[test]
fn get_pair_finds_the_first_pair() {
    let d = row(&[("a", "1"), ("b", "2"), ("a", "3")]);
    assert_eq!(d.get_pair("a").unwrap().value, "1");
    assert_eq!(d.get_pair("b").unwrap().value, "2");
    assert!(d.get_pair("c").is_none());
}

#[test]
fn value_by_aliases_trims_and_skips_blank_values() {
    let d = row(&[("物料品号", "  "), ("物料品名", " 电缆A ")]);
    let aliases = strings(&["物料品号", "物料品名"]);
    assert_eq!(d.get_value_by_aliases(&aliases), Some("电缆A".to_string()));
    let d = row(&[("x", "1")]);
    assert_eq!(d.get_value_by_aliases(&aliases), None);
}

#[test]
fn flow_states_are_a_set() {
    let mut d = Data::new();
    d.add_flow_state("a".into());
    d.add_flow_state("b".into());
    d.add_flow_state("a".into());
    assert_eq!(sorted(d.flow_state_set()), strings(&["a", "b"]));
    assert!(d.has_flow_state("a"));
    d.remove_flow_state("a");
    assert!(!d.has_flow_state("a"));
    assert_eq!(d.flow_state_set(), strings(&["b"]));
    d.remove_flow_state("zzz");
    assert_eq!(d.flow_state_set(), strings(&["b"]));
}

#[test]
fn duplicate_copies_everything() {
    let mut d = row(&[("k", "v")]);
    d.key = Some("id1".into());
    d.add_flow_state("s".into());
    d.mark_invalid("bad".into());
    let c = d.duplicate();
    assert_eq!(c.get_pair("k").unwrap().value, "v");
    assert_eq!(c.key, Some("id1".to_string()));
    assert_eq!(c.flow_state_set(), strings(&["s"]));
    assert!(!c.is_valid());
    assert_eq!(c.invalid_reasons, strings(&["bad"]));
}

#[test]
fn list_contains_finds_members() {
    let l = strings(&["a", "b"]);
    assert!(list_contains(&l, "b"));
    assert!(!list_contains(&l, "c"));
}

#[test]
fn check_data_records_every_failure() {
    let mut d = Data::new();
    d.mark_invalid("old".into());
    DataChecker::check_data(&mut d, &[None, Some("rule one failed".into()), None, Some("rule two".into())]);
    assert!(!d.is_valid());
    assert_eq!(d.invalid_reasons, strings(&["rule one failed", "rule two"]));
}

#[test]
fn check_data_resets_an_earlier_failure() {
    let mut d = Data::new();
    d.mark_invalid("old".into());
    DataChecker::check_data(&mut d, &[None, None]);
    assert!(d.is_valid());
    assert!(d.invalid_reasons.is_empty());
}

#[test]
fn check_data_marks_a_row_that_is_not_ready() {
    let mut d = Data::new();
    d.ready = false;
    d.key = Some("K9".into());
    DataChecker::check_data(&mut d, &[Some("x".into())]);
    assert!(!d.is_valid());
    assert_eq!(d.invalid_reasons, strings(&["data not ready: K9", "x"]));
    assert_eq!(DataChecker::key_identity(&d), "K9");
    assert_eq!(DataChecker::key_identity(&Data::new()), "");
}

#[test]
fn finalize_state_stamps_the_outcome() {
    let mut d = Data::new();
    DataChecker::finalize_state(&mut d);
    assert_eq!(sorted(d.flow_state_set()), strings(&["checked", "valid"]));

    let mut d = Data::new();
    d.add_flow_state("valid".into());
    d.mark_invalid("bad".into());
    DataChecker::finalize_state(&mut d);
    assert_eq!(sorted(d.flow_state_set()), strings(&["checked", "invalid"]));
    let checker = DataChecker::new(strings(&["r1"]));
    assert_eq!(checker.rules, strings(&["r1"]));
}

#[test]
fn end_sink_takes_rows() {
    let s = EndSinkType::new("unused");
    assert!(s.sink_data(&Data::new()).is_ok());
}

fn db_cfg_file() -> DatabaseConfigFile {
    DatabaseConfigFile {
        sqlite_db_path: None,
        table_name: None,
        invalid_table_name: None,
        columns: Some(strings(&["a", "b"])),
        buffer_capacity: None,
        flush_threshold: None,
    }
}

#[test]
fn sqlite_load_config_defaults_and_errors() {
    let c = SqliteDatabaseSink::load_config(db_cfg_file(), 30, 20).unwrap();
    assert_eq!(c.sqlite_db_path, "data/work_record.db");
    assert_eq!(c.ordered_columns, strings(&["a", "b"]));
    assert_eq!(c.buffer_capacity, 30);
    assert_eq!(c.flush_threshold, 20);
    let mut f = db_cfg_file();
    f.columns = Some(Vec::new());
    match SqliteDatabaseSink::load_config(f, 30, 20) {
        Err(Error::SourceDataFileError(m)) => {
            assert_eq!(m, "missing or empty database.columns in config")
        }
        other => panic!("unexpected {:?}", other.is_ok()),
    }
    let mut f = db_cfg_file();
    f.columns = None;
    assert!(SqliteDatabaseSink::load_config(f, 30, 20).is_err());
}

#[test]
fn sqlite_table_names() {
    let f = db_cfg_file();
    assert_eq!(SqliteDatabaseSink::read_table_name(&f, false), "work_record");
    assert_eq!(SqliteDatabaseSink::read_table_name(&f, true), "work_record_invalid");
    let mut f = db_cfg_file();
    f.table_name = Some("rec".into());
    assert_eq!(SqliteDatabaseSink::read_table_name(&f, true), "rec_invalid");
    f.invalid_table_name = Some("bad".into());
    assert_eq!(SqliteDatabaseSink::read_table_name(&f, true), "bad");
    assert_eq!(SqliteDatabaseSink::read_table_name(&f, false), "rec");
}

#[test]
fn sqlite_config_path_must_not_be_blank() {
    match SqliteDatabaseSink::check_config_path("  ") {
        Err(Error::SourceDataFileError(m)) => assert_eq!(m, "sqlite config path is empty"),
        _ => panic!("expected an error"),
    }
    assert!(SqliteDatabaseSink::check_config_path("cfg.json").is_ok());
}

#[test]
fn sqlite_sink_refuses_rows_until_configured() {
    let mut s = SqliteDatabaseSink::new(2);
    match s.buffer_row(&row(&[("a", "1")])) {
        Err(Error::SourceDataFileError(m)) => assert_eq!(m, "sqlite sink is not configured"),
        _ => panic!("expected an error"),
    }
    assert!(s.buffer.is_empty());
    assert!(s.take_pending_rows().is_none());
}

#[test]
fn sqlite_sink_buffers_until_threshold_then_hands_rows_over() {
    let mut s = SqliteDatabaseSink::new(100);
    let cfg = DbConfig {
        sqlite_db_path: "x.db".into(),
        ordered_columns: strings(&["a", "b"]),
        buffer_capacity: 10,
        flush_threshold: 2,
    };
    s.apply_config(&cfg, "tbl", "cfg.json");
    assert!(s.configured);
    assert_eq!(s.table_name, "tbl");
    assert_eq!(s.config_path, "cfg.json");
    assert_eq!(s.buffer_row(&row(&[("b", "2"), ("a", "1")])).unwrap(), false);
    assert_eq!(s.buffer_row(&row(&[("a", "3")])).unwrap(), true);
    let rows = s.take_pending_rows().unwrap();
    assert_eq!(rows, vec![strings(&["1", "2"]), strings(&["3", ""])]);
    assert!(s.buffer.is_empty());
    assert!(s.take_pending_rows().is_none());
}

#[test]
fn row_values_follow_the_columns() {
    let d = row(&[("b", "2"), ("a", "1"), ("a", "9")]);
    assert_eq!(
        SqliteDatabaseSink::row_values_for_columns(&strings(&["a", "c", "b"]), &d),
        strings(&["1", "", "2"])
    );
}

fn material_fields() -> MaterialProductionFields {
    MaterialProductionFields {
        material_aliases: strings(&["物料品号"]),
        batch_aliases: strings(&["批号"]),
        columns: strings(&["物料品号", "生产批次数"]),
    }
}

fn flow() -> StatsFlowSink {
    StatsFlowSink::new(
        StatsFlowConfig::default(),
        PuarationSink::new(PuarationSinkConfig::default()),
        OperatorPuarationSink::new(OperatorPuarationSinkConfig::default()),
        MaterialProductionSink::new("m.db".into(), "m".into(), material_fields()),
    )
}

fn full_row() -> Data {
    row(&[
        ("物料品号", "M1"),
        ("批号", "B1"),
        ("备注", "主机手：张三"),
        ("缆芯外径", "1"),
        ("护套外径", "2"),
        ("挤出内模", "3"),
        ("挤出外模", "4"),
        ("螺杆速度", "5"),
        ("螺杆电流", "6"),
        ("实际生产速度", "7"),
        ("设备名称", "E1"),
    ])
}

#[test]
fn stats_flow_default_order() {
    assert_eq!(
        StatsFlowConfig::default().sink_order,
        strings(&["puaration", "operator_puaration", "material_production"])
    );
}

#[test]
fn stats_flow_runs_every_step() {
    let mut f = flow();
    let mut d = full_row();
    assert!(f.sink(&mut d).is_ok());
    assert_eq!(
        sorted(d.flow_state_set()),
        strings(&["material_production", "operator_puaration", "puaration"])
    );
    let p = f.puaration_sink.stats();
    assert_eq!(p.len(), 1);
    assert_eq!(p[0].material_code, "M1");
    assert_eq!(p[0].process_vector, "1|2|3|4|5|6|7|E1");
    let o = f.operator_puaration_sink.stats();
    assert_eq!(o.len(), 1);
    assert_eq!(o[0].operator_name, "张三");
    let m = f.material_production_sink.stats();
    assert_eq!(m.len(), 1);
    assert_eq!(m[0].material_code, "M1");
    assert_eq!(m[0].production_count, 1);
}

#[test]
fn stats_flow_skips_unknown_steps() {
    let mut f = flow();
    f.sink_order = strings(&["nothing", "material_production"]);
    let mut d = full_row();
    assert!(f.sink_one_step("nothing", &mut d).is_ok());
    assert!(d.flow_state_set().is_empty());
    assert!(f.sink(&mut d).is_ok());
    assert_eq!(d.flow_state_set(), strings(&["material_production"]));
    assert!(f.puaration_sink.stats().is_empty());
    assert!(f.operator_puaration_sink.stats().is_empty());
}

#[test]
fn stats_flow_step_stamps_only_known_steps() {
    let mut f = flow();
    let mut d = full_row();
    assert!(f.sink_one_step("material_production", &mut d).is_ok());
    assert_eq!(d.flow_state_set(), strings(&["material_production"]));
    assert!(f.sink_one_step("Puaration", &mut d).is_ok());
    assert_eq!(d.flow_state_set(), strings(&["material_production"]));
    assert!(f.sink_one_step("puaration", &mut d).is_ok());
    assert_eq!(sorted(d.flow_state_set()), strings(&["material_production", "puaration"]));
}

fn legacy_cfg() -> sinks::legacy_sqlite::LegacyDatabaseConfigFile {
    sinks::legacy_sqlite::LegacyDatabaseConfigFile {
        sqlite_db_path: None,
        table_name: None,
        invalid_table_name: None,
        columns: Some(strings(&["a", "b"])),
        buffer_capacity: None,
        flush_threshold: Some(3),
        progress_print_every: None,
    }
}

#[test]
fn legacy_config_defaults_and_errors() {
    let c = load_legacy_runtime_config(legacy_cfg()).unwrap();
    assert_eq!(c.sqlite_db_path, "data/work_record.db");
    assert_eq!(c.valid_table_name, "work_record");
    assert_eq!(c.invalid_table_name, "work_record_invalid");
    assert_eq!(c.buffer_capacity, 3000);
    assert_eq!(c.flush_threshold, 3);
    assert_eq!(c.progress_print_every, 100);
    let mut f = legacy_cfg();
    f.table_name = Some("rec".into());
    let c = load_legacy_runtime_config(f).unwrap();
    assert_eq!(c.invalid_table_name, "rec_invalid");
    let mut f = legacy_cfg();
    f.columns = None;
    match load_legacy_runtime_config(f) {
        Err(Error::SourceDataFileError(m)) => assert_eq!(m, "missing or empty database.columns in config"),
        _ => panic!("expected an error"),
    }
}

#[test]
fn legacy_sink_splits_valid_and_invalid_rows() {
    let mut s = LegacySqliteSink::new(load_legacy_runtime_config(legacy_cfg()).unwrap());
    assert!(!s.buffer_row(&row(&[("a", "1")])));
    let mut bad = row(&[("b", "2")]);
    bad.mark_invalid("x".into());
    assert!(!s.buffer_row(&bad));
    assert!(s.buffer_row(&row(&[("a", "3"), ("b", "4")])));
    let (valid, invalid) = s.pending_rows();
    assert_eq!(valid, vec![strings(&["1", ""]), strings(&["3", "4"])]);
    assert_eq!(invalid, vec![strings(&["", "2"])]);
    s.clear_pending();
    assert!(s.valid_pending.is_empty() && s.invalid_pending.is_empty());
}
