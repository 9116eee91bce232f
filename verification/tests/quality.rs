use sinks::error::Error;
use sinks::quality_inspection::item_verdict;
use sinks::quality_param::{parse_param_text, recalc_qualitative, test_value_text};
use sinks::data::Data;
use sinks::quality_inspection::{
    kind_text, BatchGroup, ItemVerdict, ParamKind, QualityFields, QualityInspectionSink,
};
use sinks::sqlite_writer::SqliteDbConfig;

fn strings(v: &[&str]) -> Vec<String> {
    v.iter().map(|s| s.to_string()).collect()
}

fn row(pairs: &[(&str, &str)]) -> Data {
    let mut d = Data::new();
    for (k, v) in pairs {
        d.push_pair(k.to_string(), v.to_string());
    }
    d
}

fn fields() -> QualityFields {
    QualityFields {
        batch_no: "批号".into(),
        material_name: "物料品名".into(),
        material_code: "物料品号".into(),
        check_item: "检查项目".into(),
        param_raw: "检验参数".into(),
        test_value: "检验值".into(),
        isok: "IsOK".into(),
        detail_columns: strings(&["批号", "物料品名", "IsOK"]),
        error_columns: strings(&["批号", "期望IsOK"]),
    }
}

fn item(batch: &str, name: &str, code: &str, check: &str, param: &str, value: &str, isok: &str) -> Data {
    row(&[
        ("批号", batch),
        ("物料品名", name),
        ("物料品号", code),
        ("检查项目", check),
        ("检验参数", param),
        ("检验值", value),
        ("IsOK", isok),
    ])
}

fn verdict(kind: ParamKind, recalculated: Option<bool>) -> ItemVerdict {
    ItemVerdict { kind, recalculated }
}

fn sink_with_rows() -> QualityInspectionSink {
    let mut s = QualityInspectionSink::new(fields());
    let rows = vec![
        item("B1", "", "C1", "外径", "0.5≤V≤1.0", "0.7", "True"),
        item("B2", "电缆", "C2", "外观", "V=OK", "NG", "true"),
        item("B1", "电缆A", "C1", "厚度", "V≥3", "2", "1"),
        item("B1", "", "C1", "颜色", "V=OK", "OK", "False"),
        item("B1", "", "C1", "备注", "", "x", "True"),
        item("B2", "电缆", "C2", "未知", "abc", "1", "False"),
    ];
    for r in rows {
        let mut d = r;
        s.sink_data(&mut d);
        assert!(d.has_flow_state("quality_inspection"));
    }
    let mut d = row(&[("批号", "B3")]);
    s.sink_data(&mut d);
    s
}

fn verdicts() -> Vec<ItemVerdict> {
    vec![
        verdict(ParamKind::Quantitative, Some(true)),
        verdict(ParamKind::Qualitative, Some(false)),
        verdict(ParamKind::Quantitative, Some(false)),
        verdict(ParamKind::Qualitative, Some(true)),
        verdict(ParamKind::Unknown, None),
        verdict(ParamKind::Unknown, None),
    ]
}

#[test]
fn rows_without_a_parameter_column_are_not_kept() {
    let s = sink_with_rows();
    assert_eq!(s.records.len(), 6);
}

#[test]
fn extract_helpers() {
    let d = row(&[("IsOK", "True"), ("b", "1"), ("c", "yes")]);
    assert_eq!(QualityInspectionSink::extract_str(&d, "b"), "1");
    assert_eq!(QualityInspectionSink::extract_str(&d, "zz"), "");
    assert!(QualityInspectionSink::extract_bool(&d, "IsOK"));
    assert!(QualityInspectionSink::extract_bool(&d, "b"));
    assert!(!QualityInspectionSink::extract_bool(&d, "c"));
    assert!(!QualityInspectionSink::extract_bool(&d, "zz"));
}

#[test]
fn material_prefers_the_name() {
    let s = sink_with_rows();
    assert_eq!(s.extract_material_code(&[0, 2]), "C1");
    assert_eq!(s.extract_material_code(&[2, 0]), "电缆A");
    assert_eq!(s.extract_material_code(&[]), "");
}

#[test]
fn groups_hold_each_batch_once_in_row_order() {
    let s = sink_with_rows();
    let mut groups: Vec<BatchGroup> = s.group_batches();
    groups.sort_by(|a, b| a.batch_no.cmp(&b.batch_no));
    assert_eq!(groups.len(), 2);
    assert_eq!(groups[0].batch_no, "B1");
    assert_eq!(groups[0].indices, vec![0, 2, 3, 4]);
    assert_eq!(groups[1].batch_no, "B2");
    assert_eq!(groups[1].indices, vec![1, 5]);
}

#[test]
fn tally_counts_kinds_passes_and_disagreements() {
    let s = sink_with_rows();
    let v = verdicts();
    let mut tallies = s.process_records(&v);
    tallies.sort_by(|a, b| a.batch_no.cmp(&b.batch_no));
    assert_eq!(tallies.len(), 2);

    let b1 = &tallies[0];
    assert_eq!(b1.batch_no, "B1");
    assert_eq!(b1.material_code, "C1");
    assert_eq!((b1.quant_total, b1.quant_ok, b1.qual_total, b1.qual_ok), (2, 1, 1, 1));
    let checks: Vec<&str> = b1.items.iter().map(|i| i.check_item.as_str()).collect();
    assert_eq!(checks, vec!["外径", "厚度", "颜色"]);
    assert_eq!(b1.items[0].param_type, "定量");
    assert_eq!(b1.items[2].param_type, "定性");
    assert!(b1.items[0].correct_isok);
    assert!(!b1.items[1].correct_isok);
    assert!(b1.items[1].original_isok);
    assert_eq!(b1.errors.len(), 2);
    assert_eq!(b1.errors[0].check_item, "厚度");
    assert!(!b1.errors[0].expected_isok);
    assert!(b1.errors[0].actual_isok);
    assert_eq!(b1.errors[1].check_item, "颜色");
    assert!(b1.errors[1].expected_isok);
    assert!(!b1.errors[1].actual_isok);
    assert_eq!(b1.errors[1].material_code, "C1");
    assert_eq!(b1.record_indices, vec![0, 2, 3, 4]);

    let b2 = &tallies[1];
    assert_eq!(b2.material_code, "电缆");
    assert_eq!((b2.quant_total, b2.quant_ok, b2.qual_total, b2.qual_ok), (0, 0, 1, 0));
    // the row whose parameter cannot be read is an item that counts in
    // neither tally and keeps its recorded IsOK
    assert_eq!(b2.items.len(), 2);
    assert_eq!(b2.items[0].param_type, "定性");
    assert!(!b2.items[0].correct_isok);
    assert_eq!(b2.items[1].check_item, "未知");
    assert_eq!(b2.items[1].param_raw, "abc");
    assert_eq!(b2.items[1].param_type, "定性");
    assert!(!b2.items[1].original_isok);
    assert!(!b2.items[1].correct_isok);
    assert_eq!(b2.errors.len(), 1);
    assert_eq!(b2.errors[0].param_raw, "V=OK");
}

#[test]
fn passes_never_exceed_totals() {
    let s = sink_with_rows();
    for t in s.process_records(&verdicts()) {
        assert!(t.quant_ok <= t.quant_total);
        assert!(t.qual_ok <= t.qual_total);
        assert!(t.quant_total + t.qual_total <= t.items.len());
        assert!(t.errors.len() <= t.items.len());
        for it in &t.items {
            assert!(it.param_type == "定量" || it.param_type == "定性");
            assert_eq!(it.batch_no, t.batch_no);
            assert_eq!(it.material_code, t.material_code);
        }
        for e in &t.errors {
            assert_eq!(e.batch_no, t.batch_no);
            assert_eq!(e.material_code, t.material_code);
        }
    }
}

#[test]
fn each_row_is_in_exactly_one_tally() {
    let s = sink_with_rows();
    let tallies = s.process_records(&verdicts());
    for i in 0..s.records.len() {
        let n = tallies.iter().filter(|t| t.record_indices.contains(&i)).count();
        assert_eq!(n, 1);
    }
}

#[test]
fn finish_replaces_results_only_when_rows_were_kept() {
    let mut s = QualityInspectionSink::new(fields());
    assert!(s.finish(&[]).is_ok());
    assert!(s.get_results().is_empty());
    let mut full = sink_with_rows();
    assert!(full.finish(&verdicts()).is_ok());
    assert_eq!(full.get_results().len(), 2);
    full.records.clear();
    assert!(full.finish(&[]).is_ok());
    assert_eq!(full.get_results().len(), 2);
}

#[test]
fn kind_names() {
    assert_eq!(kind_text(ParamKind::Quantitative), "定量");
    assert_eq!(kind_text(ParamKind::Qualitative), "定性");
    assert_eq!(kind_text(ParamKind::Unknown), "定性");
}

#[test]
fn quality_column_types() {
    let defs = QualityInspectionSink::col_defs_for_names(&strings(&[
        "批号", "原始IsOK", "下界", "检验上界", "检验值",
    ]));
    let types: Vec<&str> = defs.iter().map(|d| d.col_type).collect();
    assert_eq!(types, vec!["TEXT", "INTEGER", "REAL", "REAL", "TEXT"]);
    assert_eq!(QualityInspectionSink::col_def_for_name("IsOK下界").col_type, "INTEGER");
}

#[test]
fn quality_database_defaults() {
    let s = QualityInspectionSink::new(fields());
    let d = s.default_db_config();
    assert_eq!(d.sqlite_db_path, Some("data/quality_inspection.db".to_string()));
    assert_eq!(d.table_name, Some("quality_inspection".to_string()));
    assert_eq!(d.columns, Some(strings(&["批号", "物料品名", "IsOK"])));
    let t = QualityInspectionSink::quality_db_target(SqliteDbConfig::default());
    assert_eq!(t.sqlite_db_path, "data/quality_inspection.db");
    assert_eq!(t.table_name, "quality_inspection");
    assert!(t.columns.is_empty());
    assert_eq!(QualityInspectionSink::error_table_name("qi"), "qi_isok_errors");
}

#[test]
fn log_errors_reports_each_disagreement() {
    let s = sink_with_rows();
    let tallies = s.process_records(&verdicts());
    let errors: Vec<_> = tallies
        .iter()
        .filter(|t| t.batch_no == "B1")
        .flat_map(|t| t.errors.iter().cloned())
        .collect();
    let lines = QualityInspectionSink::log_errors(&errors);
    assert_eq!(lines.len(), 3);
    assert_eq!(lines[0], "=== IsOK ERRORS DETECTED ===");
    assert_eq!(lines[1], "batch=B1, item=厚度, param=V≥3, value=2, expected=false, actual=true");
    assert_eq!(lines[2], "batch=B1, item=颜色, param=V=OK, value=OK, expected=true, actual=false");
    assert_eq!(QualityInspectionSink::log_errors(&[]).len(), 1);
}

#[test]
fn verdict_kinds_follow_the_parameter_form() {
    let q = parse_param_text("V=OK").unwrap();
    let v = item_verdict(Some(&q), Some(true));
    assert!(matches!(v.kind, ParamKind::Qualitative));
    assert_eq!(v.recalculated, Some(true));
    let b = parse_param_text("1≤V≤2").unwrap();
    let v = item_verdict(Some(&b), None);
    assert!(matches!(v.kind, ParamKind::Quantitative));
    assert_eq!(v.recalculated, None);
    let v = item_verdict(None, Some(false));
    assert!(matches!(v.kind, ParamKind::Unknown));
    assert_eq!(v.recalculated, None);
}

#[test]
fn test_values_that_cannot_be_judged() {
    assert_eq!(test_value_text("  1.5 ", "None").unwrap(), "1.5");
    for blank in ["", "   ", " None "] {
        match test_value_text(blank, "None") {
            Err(Error::DataError(m)) => assert_eq!(m, "empty test value"),
            _ => panic!("expected an error"),
        }
    }
    assert_eq!(recalc_qualitative(" OK ", "None", "OK").unwrap(), true);
    assert_eq!(recalc_qualitative("NG", "None", "OK").unwrap(), false);
    assert!(recalc_qualitative("None", "None", "OK").is_err());
}

#[test]
fn unreadable_parameter_keeps_recorded_isok() {
    let s = sink_with_rows();
    let mut v = verdicts();
    v[5] = verdict(ParamKind::Unknown, Some(true));
    let mut tallies = s.process_records(&v);
    tallies.sort_by(|a, b| a.batch_no.cmp(&b.batch_no));
    let b2 = &tallies[1];
    assert_eq!(b2.items.len(), 2);
    assert!(!b2.items[1].correct_isok);
    assert_eq!(b2.errors.len(), 1);
    assert_eq!((b2.quant_total, b2.qual_total), (0, 1));
}
