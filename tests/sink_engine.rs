use goodmetrics::controller::{
    add_column_sql, classify_copy_failure, create_table_sql, remedy_for, DropReason, Event, Phase,
    Remedy, SchemaController, Step,
};
use goodmetrics::errors::{sql_state, PostgresFailure, SinkError, SqlState};
use goodmetrics::grouping::group_metrics;
use goodmetrics::model::{
    Datum, Dimension, DimensionValue, Measurement, MeasurementValue, StatisticSet,
};
use goodmetrics::rows::{row_cells, statistic_set_literal, tdigest_literal, to_jsonmap, Cell};
use goodmetrics::schema::{
    copy_statement, get_all_column_names, infer_column_type, sql_data_type_string,
    sql_dimension_type_string, SqlType, TypeConverter,
};
use goodmetrics::text::clean_id;
use goodmetrics::writer::{coalesce, plan_copy};

fn dim(name: &str, value: DimensionValue) -> (String, Dimension) {
    (name.to_string(), Dimension { value: Some(value) })
}

fn meas(name: &str, value: MeasurementValue) -> (String, Measurement) {
    (name.to_string(), Measurement { value: Some(value) })
}

fn datum(metric: &str, unix_nanos: u64) -> Datum {
    Datum { metric: metric.to_string(), unix_nanos, dimensions: vec![], measurements: vec![] }
}

fn converter() -> TypeConverter {
    TypeConverter::new(1, 2, 3)
}

fn text(c: &Cell) -> String {
    match c {
        Cell::Text(s) => s.clone(),
        other => panic!("not text: {:?}", other),
    }
}

#[test]
fn clean_id_lowercases_and_collapses_non_word_runs() {
    assert_eq!(clean_id("Svc.Latency--MS"), "svc_latency_ms");
    assert_eq!(clean_id("a b\tc"), "a_b_c");
    assert_eq!(clean_id("already_clean"), "already_clean");
    assert_eq!(clean_id("..x.."), "_x_");
    assert_eq!(clean_id(""), "");
}

#[test]
fn clean_id_is_idempotent_on_examples() {
    for s in ["Svc.Latency--MS", "..x..", "ÄÖ Ü", "a__b", "_-_"] {
        let once = clean_id(s);
        assert_eq!(clean_id(&once), once);
    }
}

#[test]
fn number_and_time_texts_in_rows() {
    let mut d = datum("m", 1_500_000_001);
    d.dimensions.push(dim("n", DimensionValue::Number(-42)));
    d.dimensions.push(dim("z", DimensionValue::Number(0)));
    d.measurements.push(meas("big", MeasurementValue::I64(i64::MIN)));
    let row = row_cells(
        &d,
        &vec![("n".to_string(), Some(SqlType::Int8)), ("z".to_string(), Some(SqlType::Int8))],
        &vec![("big".to_string(), Some(SqlType::Int8))],
    );
    assert_eq!(text(&row[0]), "1970-01-01T00:00:01.500000001Z");
    assert_eq!(text(&row[1]), "-42");
    assert_eq!(text(&row[2]), "0");
    assert_eq!(text(&row[3]), "-9223372036854775808");
    let gauge = row_cells(&datum("m", 1_700_000_000_000_000_000), &vec![], &vec![]);
    assert_eq!(text(&gauge[0]), "2023-11-14T22:13:20Z");
}

#[test]
fn histogram_json_text() {
    let h = goodmetrics::model::Histogram { buckets: vec![(100, 5), (1, 2), (10, 3), (-4, 1)] };
    assert_eq!(to_jsonmap(&h), "{\"-4\":1,\"1\":2,\"10\":3,\"100\":5}");
    assert_eq!(to_jsonmap(&goodmetrics::model::Histogram { buckets: vec![] }), "{}");
}

#[test]
fn single_gauge_plan() {
    let mut d = datum("svc_latency_ms", 1_700_000_000_000_000_000);
    d.dimensions.push(dim("host", DimensionValue::String("h1".to_string())));
    d.measurements.push(meas("value", MeasurementValue::F64(42.5f64.to_bits())));
    let plan = plan_copy(&converter(), "svc_latency_ms", &vec![d]);
    assert_eq!(
        plan.statement,
        "copy svc_latency_ms (time,host,value) from stdin with (format csv, header false)"
    );
    assert_eq!(plan.dimension_types, vec![("host".to_string(), Some(SqlType::Text))]);
    assert_eq!(plan.measurement_types, vec![("value".to_string(), Some(SqlType::Float8))]);
    assert_eq!(plan.rows.len(), 1);
    let row = &plan.rows[0];
    assert_eq!(row.len(), 3);
    assert_eq!(text(&row[0]), "2023-11-14T22:13:20Z");
    assert_eq!(text(&row[1]), "h1");
    match row[2] {
        Cell::Float64(bits) => assert_eq!(f64::from_bits(bits), 42.5),
        ref other => panic!("unexpected {:?}", other),
    }
}

#[test]
fn single_gauge_table_creation() {
    let sql = create_table_sql("svc_latency_ms", 7 * 24 * 3600, false);
    assert!(sql.starts_with("CREATE TABLE svc_latency_ms (time timestamptz);"));
    assert!(sql.contains("create_hypertable('svc_latency_ms', 'time', chunk_time_interval => INTERVAL '4h')"));
    assert!(sql.contains("add_retention_policy('svc_latency_ms', INTERVAL '604800 seconds')"));
    assert!(!sql.contains("compress"));
    let compressed = create_table_sql("t", 60, true);
    assert!(compressed.contains("ALTER TABLE t SET (timescaledb.compress"));
    assert!(compressed.contains("add_compression_policy('t', INTERVAL '4h')"));
}

#[test]
fn schema_widening_adds_the_missing_column() {
    let mut first = datum("svc_latency_ms", 1);
    first.measurements.push(meas("value", MeasurementValue::F64(1.0f64.to_bits())));
    let mut second = datum("svc_latency_ms", 2);
    second.measurements.push(meas("value", MeasurementValue::F64(2.0f64.to_bits())));
    second.measurements.push(meas("errors", MeasurementValue::I64(1)));
    let batch = vec![first, second];

    let failure = PostgresFailure::Db {
        code: "42703".to_string(),
        message: "column \"errors\" of relation \"svc_latency_ms\" does not exist".to_string(),
    };
    let err = classify_copy_failure(failure, &batch);
    match &err {
        SinkError::MissingColumn(m) => {
            assert_eq!(m.table, "svc_latency_ms");
            assert_eq!(m.column, "errors");
            assert_eq!(m.data_type, "int8");
        }
        other => panic!("unexpected {:?}", other),
    }

    let plan = plan_copy(&converter(), "svc_latency_ms", &batch);
    assert_eq!(plan.table, "svc_latency_ms");
    assert_eq!(plan.columns, vec!["time", "errors", "value"]);
    let mut controller =
        SchemaController::new(plan.table.clone(), plan.columns[1..].to_vec(), 604800, false);
    match controller.next(Event::CopyFailed(err)) {
        Step::Repair(ddl) => assert_eq!(ddl, "alter table svc_latency_ms add column errors int8"),
        other => panic!("unexpected {:?}", other),
    }
    assert_eq!(controller.phase, Phase::Repairing);
    assert!(matches!(controller.next(Event::RepairFinished), Step::Copy));
    assert!(matches!(controller.next(Event::CopyFinished), Step::Finish));
    assert_eq!(controller.phase, Phase::Done);

    assert_eq!(
        plan.statement,
        "copy svc_latency_ms (time,errors,value) from stdin with (format csv, header false)"
    );
    assert!(matches!(plan.rows[0][1], Cell::Null));
    assert_eq!(text(&plan.rows[1][1]), "1");
}

#[test]
fn repeated_repair_is_abandoned() {
    let mut controller = SchemaController::new("t".to_string(), vec![], 10, false);
    let missing = || {
        SinkError::MissingTable(goodmetrics::errors::MissingTable { table: "t".to_string() })
    };
    assert!(matches!(controller.next(Event::CopyFailed(missing())), Step::Repair(_)));
    assert!(matches!(controller.next(Event::RepairFinished), Step::Copy));
    assert!(matches!(
        controller.next(Event::CopyFailed(missing())),
        Step::Abandon(DropReason::RepeatedRepair)
    ));
    assert_eq!(controller.phase, Phase::Abandoned);
}

#[test]
fn controller_drops_on_failures_it_cannot_repair() {
    let fresh = || SchemaController::new("x".to_string(), vec!["c".to_string()], 10, false);
    let mut c = fresh();
    assert!(matches!(c.next(Event::NoConnection), Step::Abandon(DropReason::Connection)));
    let mut c = fresh();
    assert!(matches!(
        c.next(Event::CopyFailed(SinkError::Postgres(PostgresFailure::WrongType))),
        Step::Abandon(DropReason::WrongType)
    ));
    let mut c = fresh();
    assert!(matches!(c.next(Event::CopyFailed(missing_table("x"))), Step::Repair(_)));
    assert!(matches!(c.next(Event::RepairFailed), Step::Abandon(DropReason::RepairFailed)));
    let mut c = fresh();
    assert!(matches!(
        c.next(Event::CopyFailed(missing_table("other"))),
        Step::Abandon(DropReason::ForeignRepair)
    ));
    let mut c = fresh();
    let foreign_column = SinkError::MissingColumn(goodmetrics::errors::MissingColumn {
        table: "x".to_string(),
        column: "d".to_string(),
        data_type: "int8".to_string(),
    });
    assert!(matches!(c.next(Event::CopyFailed(foreign_column)), Step::Abandon(DropReason::ForeignRepair)));
    let mut c = fresh();
    assert!(matches!(c.next(Event::RepairFinished), Step::Abandon(DropReason::UnexpectedEvent)));
}

#[test]
fn each_column_is_added_once() {
    let column = || {
        SinkError::MissingColumn(goodmetrics::errors::MissingColumn {
            table: "x".to_string(),
            column: "c".to_string(),
            data_type: "int8".to_string(),
        })
    };
    let mut c = SchemaController::new("x".to_string(), vec!["c".to_string()], 10, false);
    assert!(matches!(c.next(Event::CopyFailed(missing_table("x"))), Step::Repair(_)));
    assert!(matches!(c.next(Event::RepairFinished), Step::Copy));
    assert!(matches!(c.next(Event::CopyFailed(column())), Step::Repair(_)));
    assert!(matches!(c.next(Event::RepairFinished), Step::Copy));
    assert!(matches!(
        c.next(Event::CopyFailed(column())),
        Step::Abandon(DropReason::RepeatedRepair)
    ));
}

fn missing_table(t: &str) -> SinkError {
    SinkError::MissingTable(goodmetrics::errors::MissingTable { table: t.to_string() })
}

#[test]
fn undefined_table_is_read_from_the_message() {
    let failure = PostgresFailure::Db {
        code: "42P01".to_string(),
        message: "relation \"svc_latency_ms\" does not exist".to_string(),
    };
    match classify_copy_failure(failure, &vec![]) {
        SinkError::MissingTable(m) => assert_eq!(m.table, "svc_latency_ms"),
        other => panic!("unexpected {:?}", other),
    }
}

#[test]
fn unknown_column_type_is_described() {
    let failure = PostgresFailure::Db {
        code: "42703".to_string(),
        message: "column \"nope\" of relation \"t\" does not exist".to_string(),
    };
    assert!(matches!(
        classify_copy_failure(failure, &vec![datum("t", 1)]),
        SinkError::DescribedError(_)
    ));
}

#[test]
fn other_failures_stay_postgres_errors() {
    let failure = PostgresFailure::Db { code: "XX000".to_string(), message: "boom".to_string() };
    assert!(matches!(classify_copy_failure(failure, &vec![]), SinkError::Postgres(_)));
    let unmatched = PostgresFailure::Db {
        code: "42P01".to_string(),
        message: "something else".to_string(),
    };
    assert!(matches!(classify_copy_failure(unmatched, &vec![]), SinkError::Postgres(_)));
}

#[test]
fn remedies() {
    let privilege = SinkError::Postgres(PostgresFailure::Db {
        code: "42501".to_string(),
        message: "permission denied".to_string(),
    });
    assert!(matches!(
        remedy_for(&privilege, 1, false),
        Remedy::Drop { reason: DropReason::InsufficientPrivilege }
    ));
    match remedy_for(&missing_table("m"), 3600, false) {
        Remedy::Repair { statement } => assert_eq!(statement, create_table_sql("m", 3600, false)),
        other => panic!("unexpected {:?}", other),
    }
    assert_eq!(add_column_sql("t", "c", "text"), "alter table t add column c text");
    let unhandled = SinkError::Postgres(PostgresFailure::Db {
        code: "23505".to_string(),
        message: "duplicate key".to_string(),
    });
    assert!(matches!(remedy_for(&unhandled, 1, false), Remedy::Drop { reason: DropReason::UnhandledDb }));
    let client = SinkError::Postgres(PostgresFailure::Client { message: "closed".to_string() });
    assert!(matches!(remedy_for(&client, 1, false), Remedy::Drop { reason: DropReason::Connection }));
    let described = SinkError::DescribedError(goodmetrics::errors::DescribedError {
        message: "type not found".to_string(),
        inner: PostgresFailure::WrongType,
    });
    assert!(matches!(remedy_for(&described, 1, false), Remedy::Drop { reason: DropReason::Described }));
    let plain = SinkError::StringError(goodmetrics::errors::StringError { message: "x".to_string() });
    assert!(matches!(remedy_for(&plain, 1, false), Remedy::Drop { reason: DropReason::Other }));
}

#[test]
fn sql_states() {
    assert_eq!(sql_state(&"42P01".to_string()), SqlState::UndefinedTable);
    assert_eq!(sql_state(&"42703".to_string()), SqlState::UndefinedColumn);
    assert_eq!(sql_state(&"42704".to_string()), SqlState::UndefinedObject);
    assert_eq!(sql_state(&"42501".to_string()), SqlState::InsufficientPrivilege);
    assert_eq!(sql_state(&"00000".to_string()), SqlState::Other);
}

#[test]
fn mixed_grouping() {
    let batch = vec![datum("a", 1), datum("b", 2), datum("a", 3)];
    let groups = group_metrics(batch);
    assert_eq!(groups.len(), 2);
    assert_eq!(groups[0].0, "a");
    assert_eq!(groups[0].1.iter().map(|d| d.unix_nanos).collect::<Vec<_>>(), vec![1, 3]);
    assert_eq!(groups[1].0, "b");
    assert_eq!(groups[1].1.len(), 1);
    assert!(group_metrics(vec![]).is_empty());
}

#[test]
fn column_types_are_sorted_and_last_valued_wins() {
    let mut a = datum("m", 1);
    a.dimensions.push(dim("zone", DimensionValue::Number(3)));
    a.dimensions.push(dim("az", DimensionValue::Boolean(true)));
    a.dimensions.push(("unvalued".to_string(), Dimension { value: None }));
    let mut b = datum("m", 2);
    b.dimensions.push(dim("zone", DimensionValue::String("x".to_string())));
    let c = converter();
    let dims = c.get_dimension_type_map(&vec![a, b]);
    assert_eq!(
        dims,
        vec![
            ("az".to_string(), Some(SqlType::Bool)),
            ("unvalued".to_string(), None),
            ("zone".to_string(), Some(SqlType::Text)),
        ]
    );
    let cols = get_all_column_names(&dims, &vec![("Value".to_string(), Some(SqlType::Int4))]);
    assert_eq!(cols, vec!["time", "az", "unvalued", "zone", "value"]);
    assert_eq!(
        copy_statement("My.Metric", &cols),
        "copy my_metric (time,az,unvalued,zone,value) from stdin with (format csv, header false)"
    );
}

#[test]
fn names_that_occur_only_unvalued_are_null_columns() {
    let mut d = datum("m", 0);
    d.dimensions.push(("h".to_string(), Dimension { value: None }));
    d.measurements.push(("v".to_string(), Measurement { value: None }));
    let plan = plan_copy(&converter(), "m", &vec![d]);
    assert_eq!(plan.dimension_types, vec![("h".to_string(), None)]);
    assert_eq!(plan.measurement_types, vec![("v".to_string(), None)]);
    assert_eq!(plan.statement, "copy m (time,h,v) from stdin with (format csv, header false)");
    assert!(matches!(plan.rows[0][1], Cell::Null));
    assert!(matches!(plan.rows[0][2], Cell::Null));
    let mut later = datum("m", 1);
    later.measurements.push(meas("v", MeasurementValue::I64(3)));
    later.measurements.push(("v".to_string(), Measurement { value: None }));
    let types = converter().get_measurement_type_map(&vec![later]);
    assert_eq!(types, vec![("v".to_string(), Some(SqlType::Int8))]);
}

#[test]
fn row_cells_encode_each_kind() {
    let mut d = datum("m", 0);
    d.dimensions.push(dim("b", DimensionValue::Boolean(false)));
    d.dimensions.push(dim("n", DimensionValue::Number(-7)));
    d.measurements.push(meas("h", MeasurementValue::Histogram(goodmetrics::model::Histogram {
        buckets: vec![(10, 3), (1, 2)],
    })));
    d.measurements.push(meas("i", MeasurementValue::I32(-5)));
    d.measurements.push(meas("s", MeasurementValue::StatisticSet(StatisticSet {
        minimum: 1.0f64.to_bits(),
        maximum: 9.0f64.to_bits(),
        samplesum: 25.0f64.to_bits(),
        samplecount: 5,
    })));
    let dims = vec![
        ("b".to_string(), Some(SqlType::Bool)),
        ("missing".to_string(), Some(SqlType::Text)),
        ("n".to_string(), Some(SqlType::Int8)),
    ];
    let ms = vec![
        ("h".to_string(), Some(SqlType::Jsonb)),
        ("i".to_string(), Some(SqlType::Int4)),
        ("s".to_string(), Some(SqlType::StatisticSet)),
    ];
    let row = row_cells(&d, &dims, &ms);
    assert_eq!(row.len(), 7);
    assert_eq!(text(&row[0]), "1970-01-01T00:00:00Z");
    assert_eq!(text(&row[1]), "false");
    assert!(matches!(row[2], Cell::Null));
    assert_eq!(text(&row[3]), "-7");
    assert_eq!(text(&row[4]), "{\"1\":2,\"10\":3}");
    assert_eq!(text(&row[5]), "-5");
    assert!(matches!(row[6], Cell::Statistics(s) if s.samplecount == 5));
}

#[test]
fn composite_literals() {
    assert_eq!(statistic_set_literal("1", "9", "25", 5), "(1,9,25,5)");
    assert_eq!(
        tdigest_literal(1, "42", "42", "42", &vec![("42".to_string(), 1)]),
        "(version:1,max_buckets:100,count:1,sum:42,min:42,max:42,centroids:[(mean:42,weight:1)])"
    );
    assert_eq!(
        tdigest_literal(0, "0", "0", "0", &vec![]),
        "(version:1,max_buckets:100,count:0,sum:0,min:0,max:0,centroids:[])"
    );
}

#[test]
fn missing_column_type_comes_from_first_carrier() {
    let mut a = datum("m", 1);
    a.measurements.push(meas("x", MeasurementValue::F32(1.5f32.to_bits())));
    let mut b = datum("m", 2);
    b.dimensions.push(dim("x", DimensionValue::String("s".to_string())));
    let batch = vec![datum("m", 0), a, b];
    assert_eq!(infer_column_type(&batch, &"x".to_string()), Some(SqlType::Float4));
    assert_eq!(infer_column_type(&batch, &"y".to_string()), None);
}

#[test]
fn coalescing_keeps_order() {
    let all = coalesce(vec![vec![datum("a", 1)], vec![], vec![datum("b", 2), datum("c", 3)]]);
    assert_eq!(all.iter().map(|d| d.unix_nanos).collect::<Vec<_>>(), vec![1, 2, 3]);
}

#[test]
fn column_type_names() {
    let m = |v: MeasurementValue| Measurement { value: Some(v) };
    assert_eq!(sql_data_type_string(&m(MeasurementValue::I64(1))), Some("int8"));
    assert_eq!(sql_data_type_string(&m(MeasurementValue::I32(1))), Some("int4"));
    assert_eq!(sql_data_type_string(&m(MeasurementValue::F64(0))), Some("float8"));
    assert_eq!(sql_data_type_string(&m(MeasurementValue::F32(0))), Some("float4"));
    assert_eq!(
        sql_data_type_string(&m(MeasurementValue::Histogram(goodmetrics::model::Histogram { buckets: vec![] }))),
        Some("histogram")
    );
    assert_eq!(sql_data_type_string(&Measurement { value: None }), None);
    let d = |v: DimensionValue| Dimension { value: Some(v) };
    assert_eq!(sql_dimension_type_string(&d(DimensionValue::String("s".to_string()))), Some("text"));
    assert_eq!(sql_dimension_type_string(&d(DimensionValue::Number(1))), Some("int8"));
    assert_eq!(sql_dimension_type_string(&d(DimensionValue::Boolean(true))), Some("boolean"));
    assert_eq!(sql_dimension_type_string(&Dimension { value: None }), None);
}

#[test]
fn csv_body_quotes_where_needed() {
    let rows = vec![
        vec!["2023-11-14T22:13:20Z".to_string(), "h1".to_string(), "42.5".to_string()],
        vec!["t".to_string(), String::new(), "(1,9,25,5)".to_string()],
        vec!["t".to_string(), "say \"hi\"".to_string(), "{\"1\":2}".to_string()],
    ];
    let body = String::from_utf8(goodmetrics::writer::encode_rows(&rows)).unwrap();
    assert_eq!(
        body,
        "2023-11-14T22:13:20Z,h1,42.5\nt,,\"(1,9,25,5)\"\nt,\"say \"\"hi\"\"\",\"{\"\"1\"\":2}\"\n"
    );
    assert!(goodmetrics::writer::encode_rows(&vec![]).is_empty());
}

#[test]
fn clean_id_keeps_only_word_characters() {
    let out = clean_id("A-b c_d!!");
    assert_eq!(out, "a_b_c_d_");
    assert!(out.chars().all(|c| c.is_alphanumeric() || c == '_'));
}
