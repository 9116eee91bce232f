use sinks::data::Data;
use sinks::material_production::{MaterialProductionFields, MaterialProductionSink};
use sinks::operator_config::OperatorPuarationSinkConfig;
use sinks::operator_puaration::OperatorPuarationSink;
use sinks::order::{compare_chars, compare_keys, sort_order};
use sinks::process_vector::ProcessVector;
use sinks::puaration::PuarationSink;
use sinks::puaration_config::PuarationSinkConfig;
use sinks::row_values::{build_process_vector, vector_field_value, RowCell};
use sinks::sqlite_writer::SqliteDbConfig;
use sinks::vector_counts::VectorCounts;
use sinks::vector_field_config::VectorFieldConfig;
use sinks::error::Error;

fn strings(v: &[&str]) -> Vec<String> {
    v.iter().map(|s| s.to_string()).collect()
}

fn row(pairs: &[(&str, &str)]) -> Data {
    let mut d = Data::new();
    for (k, v) in pairs {
        d.push_pair(k.to_string(), v.to_string());
    }
    d
}

fn vector_row(material: &str, batch: &str, speed: &str, remark: &str) -> Data {
    row(&[
        ("物料品号", material),
        ("批号", batch),
        ("备注信息", remark),
        ("缆芯外径", "1"),
        ("护套外径", "2"),
        ("挤出内模", "3"),
        ("挤出外模", "4"),
        ("螺杆速度", speed),
        ("螺杆电流", "6"),
        ("实际生产速度", "7"),
        ("设备名称", "E1"),
    ])
}

fn material_sink() -> MaterialProductionSink {
    MaterialProductionSink::new(
        "m.db".into(),
        "material_production".into(),
        MaterialProductionFields {
            material_aliases: strings(&["物料品号", "物料品名"]),
            batch_aliases: strings(&["批号"]),
            columns: strings(&["物料品号", "生产批次数"]),
        },
    )
}

#[test]
fn material_production_counts_distinct_batches() {
    let mut s = material_sink();
    for (m, b) in [("M2", "B3"), ("M1", "B1"), ("M1", "B2"), ("M1", "B1")] {
        let mut d = row(&[("物料品号", m), ("批号", b)]);
        s.sink_data(&mut d);
        assert!(d.has_flow_state("material_production"));
    }
    let mut d = row(&[("物料品号", "M3")]);
    s.sink_data(&mut d);
    let st = s.stats();
    assert_eq!(st.len(), 2);
    assert_eq!((st[0].material_code.as_str(), st[0].production_count), ("M1", 2));
    assert_eq!((st[1].material_code.as_str(), st[1].production_count), ("M2", 1));
    let done = s.finish();
    assert_eq!(done.len(), 2);
    assert!(s.stats().is_empty());
}

#[test]
fn material_production_same_row_twice_counts_once() {
    let mut s = material_sink();
    let d = row(&[("物料品号", "M1"), ("批号", "B1")]);
    s.collect_data_into(&d);
    s.collect_data_into(&d);
    let st = s.stats();
    assert_eq!(st.len(), 1);
    assert_eq!(st[0].production_count, 1);
}

#[test]
fn material_production_column_defs() {
    let defs = material_sink().column_defs();
    assert_eq!(defs.len(), 2);
    assert_eq!((defs[0].name.as_str(), defs[0].col_type), ("物料品号", "TEXT"));
    assert_eq!((defs[1].name.as_str(), defs[1].col_type), ("生产批次数", "INTEGER"));
}

#[test]
fn process_vector_needs_every_field() {
    let fields = VectorFieldConfig::default_vector_fields();
    assert_eq!(fields.len(), 8);
    assert_eq!(fields[0].aliases, strings(&["缆芯外径", "缆芯外径（mm)"]));
    assert_eq!(fields[7].output_column, "设备名称");
    let d = vector_row("M1", "B1", "5", "");
    let v = build_process_vector(&d, &fields).unwrap();
    assert_eq!(v.values, strings(&["1", "2", "3", "4", "5", "6", "7", "E1"]));
    let d = row(&[("缆芯外径", "1")]);
    assert!(build_process_vector(&d, &fields).is_none());
}

#[test]
fn vector_field_value_takes_the_last_matching_field() {
    let fields = vec![
        VectorFieldConfig { aliases: strings(&["a"]), output_column: "x".into() },
        VectorFieldConfig { aliases: strings(&["b"]), output_column: "x".into() },
        VectorFieldConfig { aliases: strings(&["c"]), output_column: "y".into() },
    ];
    let values = strings(&["1", "2"]);
    assert_eq!(vector_field_value(&fields, &values, "x"), "2");
    assert_eq!(vector_field_value(&fields, &values, "y"), "");
    assert_eq!(vector_field_value(&fields, &values, "z"), "");
}

#[test]
fn vector_counts_count_each_sighting() {
    let mut c = VectorCounts::new();
    let v1 = ProcessVector { values: strings(&["1", "2"]) };
    let v2 = ProcessVector { values: strings(&["1|2"]) };
    c.increment("k".into(), v1.clone());
    c.increment("k".into(), v1.clone());
    c.increment("k".into(), v2.clone());
    c.increment("j".into(), v1.clone());
    assert_eq!(c.count("k", &v1), 2);
    assert_eq!(c.count("k", &v2), 1);
    assert_eq!(c.count("j", &v1), 1);
    assert_eq!(c.count("j", &v2), 0);
    assert_eq!(c.count("z", &v1), 0);
    let rows = c.rows_by_values();
    let got: Vec<(String, Vec<String>, usize, usize)> = rows
        .iter()
        .map(|r| (r.key.clone(), r.vector.values.clone(), r.occurrence_count, r.distinct_vector_count))
        .collect();
    assert_eq!(
        got,
        vec![
            ("j".to_string(), strings(&["1", "2"]), 1, 1),
            ("k".to_string(), strings(&["1", "2"]), 2, 2),
            ("k".to_string(), strings(&["1|2"]), 1, 2),
        ]
    );
    c.clear();
    assert!(c.rows().is_empty());
}

#[test]
fn ordering_helpers() {
    assert_eq!(compare_chars(&['a', 'b'], &['a', 'c']), -1);
    assert_eq!(compare_chars(&['a'], &['a']), 0);
    assert_eq!(compare_chars(&['b'], &['a', 'z']), 1);
    assert_eq!(compare_chars(&['a'], &['a', 'z']), -1);
    let a = vec![vec!['x'], vec!['b']];
    let b = vec![vec!['x'], vec!['a']];
    assert_eq!(compare_keys(&a, &b), 1);
    let keys = vec![vec![vec!['c']], vec![vec!['a']], vec![vec!['b']], vec![vec!['a']]];
    let p = sort_order(&keys);
    let firsts: Vec<char> = p.iter().map(|&i| keys[i][0][0]).collect();
    assert_eq!(firsts, vec!['a', 'a', 'b', 'c']);
    let mut seen = p.clone();
    seen.sort();
    assert_eq!(seen, vec![0, 1, 2, 3]);
}

#[test]
fn puaration_counts_vectors_per_material() {
    let mut s = PuarationSink::new(PuarationSinkConfig::default());
    for (m, b, speed) in [("M2", "B9", "5"), ("M1", "B1", "5"), ("M1", "B2", "9"), ("M1", "B3", "5")] {
        let mut d = vector_row(m, b, speed, "");
        assert!(s.is_countable(&d));
        s.sink_data(&mut d);
        assert!(d.has_flow_state("puaration"));
    }
    let mut d = row(&[("物料品号", "M1")]);
    s.sink_data(&mut d);
    let st = s.stats();
    let got: Vec<(String, String, usize, usize)> = st
        .iter()
        .map(|x| (x.material_code.clone(), x.process_vector.clone(), x.occurrence_count, x.distinct_vector_count))
        .collect();
    assert_eq!(
        got,
        vec![
            ("M1".to_string(), "1|2|3|4|5|6|7|E1".to_string(), 2, 2),
            ("M1".to_string(), "1|2|3|4|9|6|7|E1".to_string(), 1, 2),
            ("M2".to_string(), "1|2|3|4|5|6|7|E1".to_string(), 1, 1),
        ]
    );
    let mut qb = s.quality_batches("M1", "1|2|3|4|5|6|7|E1");
    qb.sort();
    assert_eq!(qb, strings(&["B1", "B3"]));
    assert!(s.quality_batches("M3", "1|2|3|4|5|6|7|E1").is_empty());
}

#[test]
fn puaration_keeps_the_first_vector_of_a_batch() {
    let mut s = PuarationSink::new(PuarationSinkConfig::default());
    s.collect_data_into(&vector_row("M1", "B1", "5", ""));
    s.collect_data_into(&vector_row("M1", "B1", "9", ""));
    let mut qb = s.quality_batches("M1", "1|2|3|4|5|6|7|E1");
    qb.sort();
    assert_eq!(qb, strings(&["B1"]));
    assert!(s.quality_batches("M1", "1|2|3|4|9|6|7|E1").is_empty());
    let (stats, batches) = s.finish();
    assert_eq!(stats.len(), 2);
    assert_eq!(batches.len(), 1);
    assert_eq!(batches[0].batch_no, "B1");
    assert_eq!(batches[0].vector.values[4], "5");
    assert!(s.stats().is_empty());
}

#[test]
fn puaration_finish_with_quality_joins_batches() {
    let mut s = PuarationSink::new(PuarationSinkConfig::default());
    s.collect_data_into(&vector_row("M1", "B1", "5", ""));
    s.collect_data_into(&vector_row("M1", "B2", "5", ""));
    s.collect_data_into(&vector_row("M1", "B3", "9", ""));
    let (joined, batches) = s.finish_with_quality(&strings(&["B2", "B3", "B7"]));
    assert_eq!(batches.len(), 3);
    assert_eq!(joined.len(), 2);
    assert_eq!(joined[0].count.process_vector, "1|2|3|4|5|6|7|E1");
    assert_eq!(joined[0].count.occurrence_count, 2);
    assert_eq!(joined[0].quality_batches, strings(&["B2"]));
    assert_eq!(joined[1].quality_batches, strings(&["B3"]));
    assert!(s.stats().is_empty());
}

#[test]
fn puaration_sql_and_rows() {
    let s = PuarationSink::new(PuarationSinkConfig::default());
    let cols = strings(&["物料品号", "工艺参数向量", "出现次数", "纯度", "螺杆速度", "定量IsOK百分比", "其他"]);
    let defs = s.build_column_defs(&cols);
    let types: Vec<&str> = defs.iter().map(|d| d.col_type).collect();
    assert_eq!(types, vec!["TEXT", "TEXT", "INTEGER", "REAL", "TEXT", "REAL", "TEXT"]);
    assert_eq!(s.quote_ident("a\"b"), "\"a\"\"b\"");
    assert_eq!(
        s.build_insert_sql("t", &strings(&["a"])),
        "INSERT INTO \"t\" (\"a\") VALUES (?)"
    );
    let v = ProcessVector { values: strings(&["1", "2", "3", "4", "5", "6", "7", "E1"]) };
    let cells = s.build_db_row_values(&cols, "M1", &v, 3, 2);
    assert!(matches!(&cells[0], RowCell::Text(t) if t == "M1"));
    assert!(matches!(&cells[1], RowCell::Text(t) if t == "1|2|3|4|5|6|7|E1"));
    assert!(matches!(&cells[2], RowCell::Count(3)));
    assert!(matches!(&cells[3], RowCell::Purity));
    assert!(matches!(&cells[4], RowCell::Text(t) if t == "5"));
    assert!(matches!(&cells[5], RowCell::QuantIsokPct));
    assert!(matches!(&cells[6], RowCell::Text(t) if t.is_empty()));
}

#[test]
fn puaration_db_rows_split_the_signature_back() {
    let mut s = PuarationSink::new(PuarationSinkConfig::default());
    s.collect_data_into(&vector_row("M1", "B1", "5", ""));
    let stats = s.stats();
    let rows = s.build_db_rows(&strings(&["螺杆速度", "不同向量数量"]), &stats);
    assert_eq!(rows.len(), 1);
    assert!(matches!(&rows[0][0], RowCell::Text(t) if t == "5"));
    assert!(matches!(&rows[0][1], RowCell::Count(1)));
}

#[test]
fn puaration_top_n_column_types() {
    let defs = PuarationSink::top_n_column_defs(&strings(&[
        "物料品号", "纯度", "定性IsOK百分比", "综合得分", "出现次数", "不同向量数量", "排名", "工艺参数向量",
    ]));
    let types: Vec<&str> = defs.iter().map(|d| d.col_type).collect();
    assert_eq!(types, vec!["TEXT", "REAL", "REAL", "REAL", "INTEGER", "INTEGER", "INTEGER", "TEXT"]);
}

#[test]
fn puaration_stats_target() {
    let cfg = SqliteDbConfig { sqlite_db_path: None, table_name: None, columns: Some(strings(&["a"])) };
    let t = PuarationSink::stats_db_target(cfg).unwrap();
    assert_eq!(t.sqlite_db_path, "data/puaration_stats.db");
    assert_eq!(t.table_name, "puaration_stats");
    match PuarationSink::stats_db_target(SqliteDbConfig::default()) {
        Err(Error::SourceDataFileError(m)) => assert_eq!(m, "missing database columns"),
        _ => panic!("expected an error"),
    }
}

#[test]
fn operator_sink_counts_per_main_operator() {
    let mut s = OperatorPuarationSink::new(OperatorPuarationSinkConfig::default());
    for (speed, remark) in [("5", "主机手：张三"), ("5", "主机手:张三 副机手:李四"), ("9", "主机手：李四"), ("5", "无")] {
        let mut d = vector_row("M1", "B1", speed, remark);
        assert!(s.is_countable(&d));
        s.sink_data(&mut d);
        assert!(d.has_flow_state("operator_puaration"));
    }
    let st = s.stats();
    let got: Vec<(String, String, usize, usize)> = st
        .iter()
        .map(|x| (x.operator_name.clone(), x.vector_values[4].clone(), x.occurrence_count, x.distinct_vector_count))
        .collect();
    assert_eq!(
        got,
        vec![("张三".to_string(), "5".to_string(), 2, 1), ("李四".to_string(), "9".to_string(), 1, 1)]
    );
    let done = s.finish();
    assert_eq!(done.len(), 2);
    assert!(s.stats().is_empty());
}

#[test]
fn operator_sink_valid_rows_only() {
    let mut s = OperatorPuarationSink::new(OperatorPuarationSinkConfig::default());
    let mut d = vector_row("M1", "B1", "5", "主机手：张三");
    d.mark_invalid("bad".into());
    s.collect_valid_data(&d);
    assert!(s.stats().is_empty());
    let d = vector_row("M1", "B1", "5", "主机手：张三");
    s.collect_valid_data(&d);
    assert_eq!(s.stats().len(), 1);
}

#[test]
fn operator_sink_sql_and_rows() {
    let mut s = OperatorPuarationSink::new(OperatorPuarationSinkConfig::default());
    s.collect_data_into(&vector_row("M1", "B1", "5", "主机手：张三"));
    let cols = strings(&["操机手", "工艺参数向量", "出现次数", "不同向量数量", "纯度", "螺杆速度"]);
    let defs = s.build_column_defs(&cols);
    let types: Vec<&str> = defs.iter().map(|d| d.col_type).collect();
    assert_eq!(types, vec!["TEXT", "TEXT", "INTEGER", "INTEGER", "REAL", "TEXT"]);
    let st = s.stats();
    let cells = s.build_db_row_values(&cols, &st[0]);
    assert!(matches!(&cells[0], RowCell::Text(t) if t == "张三"));
    assert!(matches!(&cells[1], RowCell::Text(t) if t.is_empty()));
    assert!(matches!(&cells[2], RowCell::Count(1)));
    assert!(matches!(&cells[3], RowCell::Count(1)));
    assert!(matches!(&cells[4], RowCell::Purity));
    assert!(matches!(&cells[5], RowCell::Text(t) if t == "5"));
    assert_eq!(
        s.build_create_table_sql("t", &strings(&["操机手"])),
        "CREATE TABLE IF NOT EXISTS \"t\" (id INTEGER PRIMARY KEY AUTOINCREMENT, \"操机手\" TEXT NULL)"
    );
}
