use pg_wire::datetime::TimeUnit;
use pg_wire::duck::{
    default_extensions, extension_statements, pool_error, startup_outcome, startup_step,
    to_wire_error, DuckDBPortal, DuckDbError, DuckDbErrorKind, StartupStep,
};
use pg_wire::engine::Portal;
use pg_wire::protocol::{
    DataTypeOid, ErrorResponse, FieldDescription, FormatCode, RowDescription, Severity, SqlState,
};
use pg_wire::protocol_ext::DataWriter;
use pg_wire::table::{
    data_type_to_oid, decimal128_parts, record_batch_to_rows, schema_to_field_desc, Column,
    DataType, DecimalParts, Field, Float4, Float8, RecordBatch, Schema,
};

fn writer(format_code: FormatCode, columns: usize) -> DataWriter {
    let fields = (0..columns)
        .map(|i| FieldDescription { name: format!("c{}", i), data_type: DataTypeOid::Text })
        .collect();
    DataWriter::new(RowDescription { fields, format_code })
}

fn rows_of(w: DataWriter) -> Vec<Vec<Option<String>>> {
    let (_, rows) = w.into_parts();
    rows.into_iter()
        .map(|r| {
            r.cells
                .into_iter()
                .map(|c| c.map(|bytes| String::from_utf8(bytes).expect("utf-8")))
                .collect()
        })
        .collect()
}

fn text_of(column: Column) -> Result<Vec<Option<String>>, ErrorResponse> {
    let batch = RecordBatch { num_rows: column.len(), columns: vec![column] };
    let mut w = writer(FormatCode::Text, 1);
    record_batch_to_rows(&batch, &mut w)?;
    Ok(rows_of(w).into_iter().map(|mut r| r.remove(0)).collect())
}

fn binary_of(column: Column) -> Result<Vec<Option<Vec<u8>>>, ErrorResponse> {
    let batch = RecordBatch { num_rows: column.len(), columns: vec![column] };
    let mut w = writer(FormatCode::Binary, 1);
    record_batch_to_rows(&batch, &mut w)?;
    let (_, rows) = w.into_parts();
    Ok(rows.into_iter().map(|mut r| r.cells.remove(0)).collect())
}

fn some(s: &str) -> Option<String> {
    Some(s.to_string())
}

fn float4(v: f32) -> Float4 {
    Float4 { bits: v.to_bits(), lexical: v.to_string() }
}

fn float8(v: f64) -> Float8 {
    Float8 { bits: v.to_bits(), lexical: v.to_string() }
}

fn not_implemented(name: &str) -> ErrorResponse {
    ErrorResponse::error(
        SqlState::FeatureNotSupported,
        &format!("arrow to pg conversion not implemented for {}", name),
    )
}

#[test]
fn every_supported_type_has_its_postgres_type() {
    let expected = vec![
        (DataType::Boolean, DataTypeOid::Bool),
        (DataType::Int8, DataTypeOid::Int2),
        (DataType::Int16, DataTypeOid::Int2),
        (DataType::Int32, DataTypeOid::Int4),
        (DataType::Int64, DataTypeOid::Int8),
        (DataType::UInt8, DataTypeOid::Int2),
        (DataType::UInt16, DataTypeOid::Int4),
        (DataType::UInt32, DataTypeOid::Int8),
        (DataType::UInt64, DataTypeOid::Int8),
        (DataType::Float16, DataTypeOid::Float4),
        (DataType::Float32, DataTypeOid::Float4),
        (DataType::Float64, DataTypeOid::Float8),
        (DataType::Decimal128 { precision: 10, scale: 2 }, DataTypeOid::Float8),
        (DataType::Utf8, DataTypeOid::Text),
        (DataType::Date32, DataTypeOid::Date),
        (DataType::Date64, DataTypeOid::Date),
        (DataType::Timestamp { unit: TimeUnit::Second, zoned: None }, DataTypeOid::Timestamp),
        (
            DataType::Timestamp { unit: TimeUnit::Nanosecond, zoned: None },
            DataTypeOid::Timestamp,
        ),
    ];
    for (ty, oid) in expected {
        assert_eq!(data_type_to_oid(&ty), Ok(oid));
    }
}

#[test]
fn a_type_without_a_postgres_type_is_not_supported() {
    let e = data_type_to_oid(&DataType::Other { name: "Binary".to_string() }).unwrap_err();
    assert_eq!(e, not_implemented("Binary"));
    assert_eq!(e.sql_state.code(), "0A000");
    assert_eq!(e.severity, Severity::Error);
    let e = data_type_to_oid(&DataType::Timestamp {
        unit: TimeUnit::Microsecond,
        zoned: Some("Timestamp(µs, \"UTC\")".to_string()),
    })
    .unwrap_err();
    assert_eq!(e, not_implemented("Timestamp(µs, \"UTC\")"));
}

#[test]
fn a_schema_is_described_field_by_field() {
    let schema = Schema {
        fields: vec![
            Field { name: "id".to_string(), data_type: DataType::Int32 },
            Field { name: "name".to_string(), data_type: DataType::Utf8 },
            Field { name: "n".to_string(), data_type: DataType::UInt16 },
        ],
    };
    assert_eq!(
        schema_to_field_desc(&schema),
        Ok(vec![
            FieldDescription { name: "id".to_string(), data_type: DataTypeOid::Int4 },
            FieldDescription { name: "name".to_string(), data_type: DataTypeOid::Text },
            FieldDescription { name: "n".to_string(), data_type: DataTypeOid::Int4 },
        ])
    );
    assert_eq!(schema_to_field_desc(&Schema { fields: vec![] }), Ok(vec![]));
}

#[test]
fn a_schema_with_an_unsupported_field_gives_the_error_of_the_first() {
    let schema = Schema {
        fields: vec![
            Field { name: "id".to_string(), data_type: DataType::Int32 },
            Field { name: "a".to_string(), data_type: DataType::Other { name: "List".to_string() } },
            Field { name: "b".to_string(), data_type: DataType::Other { name: "Map".to_string() } },
        ],
    };
    assert_eq!(schema_to_field_desc(&schema), Err(not_implemented("List")));
}

#[test]
fn booleans_and_signed_integers_keep_their_type() {
    assert_eq!(
        text_of(Column::Boolean(vec![Some(true), None, Some(false)])),
        Ok(vec![some("t"), None, some("f")])
    );
    assert_eq!(text_of(Column::Int8(vec![Some(-128), Some(127)])), Ok(vec![some("-128"), some("127")]));
    assert_eq!(text_of(Column::Int16(vec![Some(-32768)])), Ok(vec![some("-32768")]));
    assert_eq!(text_of(Column::Int32(vec![Some(i32::MAX)])), Ok(vec![some("2147483647")]));
    assert_eq!(text_of(Column::Int64(vec![Some(i64::MIN)])), Ok(vec![some("-9223372036854775808")]));
    assert_eq!(binary_of(Column::Int8(vec![Some(-1)])), Ok(vec![Some(vec![0xff, 0xff])]));
    assert_eq!(binary_of(Column::Int16(vec![Some(258)])), Ok(vec![Some(vec![1, 2])]));
    assert_eq!(binary_of(Column::Int32(vec![Some(1)])), Ok(vec![Some(vec![0, 0, 0, 1])]));
    assert_eq!(binary_of(Column::Int64(vec![Some(1)])), Ok(vec![Some(vec![0, 0, 0, 0, 0, 0, 0, 1])]));
}

#[test]
fn unsigned_integers_take_the_next_wider_signed_type() {
    assert_eq!(text_of(Column::UInt8(vec![Some(255)])), Ok(vec![some("255")]));
    assert_eq!(binary_of(Column::UInt8(vec![Some(255)])), Ok(vec![Some(vec![0, 255])]));
    assert_eq!(text_of(Column::UInt16(vec![Some(65535)])), Ok(vec![some("65535")]));
    assert_eq!(binary_of(Column::UInt16(vec![Some(65535)])), Ok(vec![Some(vec![0, 0, 255, 255])]));
    assert_eq!(text_of(Column::UInt32(vec![Some(u32::MAX)])), Ok(vec![some("4294967295")]));
    assert_eq!(
        binary_of(Column::UInt32(vec![Some(u32::MAX)])),
        Ok(vec![Some(vec![0, 0, 0, 0, 255, 255, 255, 255])])
    );
    assert_eq!(
        text_of(Column::UInt64(vec![Some(i64::MAX as u64)])),
        Ok(vec![some("9223372036854775807")])
    );
}

#[test]
fn an_unsigned_value_above_the_largest_signed_one_is_a_data_exception() {
    let e = text_of(Column::UInt64(vec![Some(1), Some(i64::MAX as u64 + 1)])).unwrap_err();
    assert_eq!(e.sql_state, SqlState::DataException);
    assert_eq!(e.sql_state.code(), "22000");
    assert_eq!(e.severity, Severity::Error);
    assert!(text_of(Column::UInt64(vec![Some(u64::MAX)])).is_err());
}

#[test]
fn floats_and_decimals() {
    assert_eq!(text_of(Column::Float16(vec![Some(float4(0.5))])), Ok(vec![some("0.5")]));
    assert_eq!(text_of(Column::Float32(vec![Some(float4(1.25)), None])), Ok(vec![some("1.25"), None]));
    assert_eq!(text_of(Column::Float64(vec![Some(float8(-2.5))])), Ok(vec![some("-2.5")]));
    assert_eq!(
        text_of(Column::Decimal128 { precision: 10, scale: 2, numbers: vec![Some(float8(12.34))] }),
        Ok(vec![some("12.34")])
    );
    assert_eq!(
        binary_of(Column::Float32(vec![Some(float4(1.5))])),
        Ok(vec![Some(vec![0x3f, 0xc0, 0, 0])])
    );
    assert_eq!(
        binary_of(Column::Float64(vec![Some(float8(-2.25))])),
        Ok(vec![Some(vec![0xc0, 0x02, 0, 0, 0, 0, 0, 0])])
    );
    assert_eq!(
        binary_of(Column::Decimal128 { precision: 4, scale: 1, numbers: vec![Some(float8(-2.25))] }),
        Ok(vec![Some(vec![0xc0, 0x02, 0, 0, 0, 0, 0, 0])])
    );
}

#[test]
fn strings() {
    assert_eq!(
        text_of(Column::Utf8(vec![some("héllo"), None, some("")])),
        Ok(vec![some("héllo"), None, some("")])
    );
}

#[test]
fn dates() {
    assert_eq!(
        text_of(Column::Date32(vec![Some(0), Some(19000), None, Some(-1)])),
        Ok(vec![some("1970-01-01"), some("2022-01-08"), None, some("1969-12-31")])
    );
    assert_eq!(
        text_of(Column::Date64(vec![Some(1_600_000_000_000), Some(-1)])),
        Ok(vec![some("2020-09-13"), some("1969-12-31")])
    );
    assert_eq!(
        binary_of(Column::Date32(vec![Some(10957), Some(0)])),
        Ok(vec![Some(vec![0, 0, 0, 0]), Some((-10957i32).to_be_bytes().to_vec())])
    );
}

#[test]
fn a_day_count_that_falls_on_no_date_is_an_invalid_datetime() {
    let e = text_of(Column::Date32(vec![Some(0), Some(i32::MAX)])).unwrap_err();
    assert_eq!(e, ErrorResponse::error(SqlState::InvalidDatetimeFormat, "unsupported date type"));
    assert_eq!(e.sql_state.code(), "22007");
    assert_eq!(
        text_of(Column::Date64(vec![Some(i64::MIN)])),
        Err(ErrorResponse::error(SqlState::InvalidDatetimeFormat, "unsupported date type"))
    );
}

#[test]
fn timestamps() {
    let column = |unit, values| Column::Timestamp { unit, zoned: None, values };
    assert_eq!(
        text_of(column(TimeUnit::Second, vec![Some(1_600_000_000), None])),
        Ok(vec![some("2020-09-13 12:26:40"), None])
    );
    assert_eq!(
        text_of(column(TimeUnit::Millisecond, vec![Some(1_600_000_000_123)])),
        Ok(vec![some("2020-09-13 12:26:40.123000")])
    );
    assert_eq!(
        text_of(column(TimeUnit::Microsecond, vec![Some(1_600_000_000_123_456)])),
        Ok(vec![some("2020-09-13 12:26:40.123456")])
    );
    assert_eq!(
        text_of(column(TimeUnit::Nanosecond, vec![Some(1_600_000_000_123_456_789)])),
        Ok(vec![some("2020-09-13 12:26:40.123456")])
    );
    assert_eq!(
        binary_of(column(TimeUnit::Second, vec![Some(1_600_000_000)])),
        Ok(vec![Some(653_315_200_000_000i64.to_be_bytes().to_vec())])
    );
}

#[test]
fn a_count_that_falls_on_no_timestamp_is_an_invalid_datetime() {
    let e = text_of(Column::Timestamp {
        unit: TimeUnit::Second,
        zoned: None,
        values: vec![Some(i64::MAX)],
    })
    .unwrap_err();
    assert_eq!(e, ErrorResponse::error(SqlState::InvalidDatetimeFormat, "unsupported timestamp type"));
}

#[test]
fn values_of_unsupported_types_are_errors_but_their_nulls_are_nulls() {
    assert_eq!(
        text_of(Column::Other { name: "List".to_string(), nulls: vec![true, true] }),
        Ok(vec![None, None])
    );
    assert_eq!(
        text_of(Column::Other { name: "List".to_string(), nulls: vec![true, false] }),
        Err(not_implemented("List"))
    );
    assert_eq!(
        text_of(Column::Timestamp {
            unit: TimeUnit::Second,
            zoned: Some("Timestamp(s, \"Europe/Paris\")".to_string()),
            values: vec![None],
        }),
        Ok(vec![None])
    );
    assert_eq!(
        text_of(Column::Timestamp {
            unit: TimeUnit::Second,
            zoned: Some("Timestamp(s, \"Europe/Paris\")".to_string()),
            values: vec![Some(0)],
        }),
        Err(not_implemented("Timestamp(s, \"Europe/Paris\")"))
    );
}

#[test]
fn a_batch_is_written_row_by_row() {
    let batch = RecordBatch {
        num_rows: 3,
        columns: vec![
            Column::Int32(vec![Some(1), Some(2), None]),
            Column::Utf8(vec![some("a"), None, some("c")]),
            Column::Boolean(vec![Some(true), Some(false), Some(true)]),
        ],
    };
    let mut w = writer(FormatCode::Text, 3);
    let mut first = w.create_row();
    first.write_null();
    first.write_null();
    first.write_null();
    w.finish_row(first);
    assert_eq!(record_batch_to_rows(&batch, &mut w), Ok(()));
    assert_eq!(w.num_rows(), 4);
    assert_eq!(
        rows_of(w),
        vec![
            vec![None, None, None],
            vec![some("1"), some("a"), some("t")],
            vec![some("2"), None, some("f")],
            vec![None, some("c"), some("t")],
        ]
    );
}

#[test]
fn a_batch_without_rows_or_without_columns_writes_what_it_has() {
    let mut w = writer(FormatCode::Text, 1);
    let batch = RecordBatch { num_rows: 0, columns: vec![Column::Int32(vec![])] };
    assert_eq!(record_batch_to_rows(&batch, &mut w), Ok(()));
    assert_eq!(w.num_rows(), 0);
    let mut w = writer(FormatCode::Text, 0);
    let batch = RecordBatch { num_rows: 2, columns: vec![] };
    assert_eq!(record_batch_to_rows(&batch, &mut w), Ok(()));
    assert_eq!(rows_of(w), vec![Vec::<Option<String>>::new(), vec![]]);
}

#[test]
fn a_value_that_cannot_be_written_stops_the_batch_at_its_row() {
    let batch = RecordBatch {
        num_rows: 3,
        columns: vec![
            Column::Int32(vec![Some(1), Some(2), Some(3)]),
            Column::Date32(vec![Some(0), Some(i32::MIN), Some(1)]),
            Column::UInt64(vec![Some(0), Some(u64::MAX), Some(0)]),
        ],
    };
    let mut w = writer(FormatCode::Text, 3);
    assert_eq!(
        record_batch_to_rows(&batch, &mut w),
        Err(ErrorResponse::error(SqlState::InvalidDatetimeFormat, "unsupported date type"))
    );
    assert_eq!(rows_of(w), vec![vec![some("1"), some("1970-01-01"), some("0")]]);
}

#[test]
fn a_batch_is_well_formed_where_every_column_has_all_rows() {
    assert!(RecordBatch { num_rows: 0, columns: vec![] }.is_well_formed());
    assert!(RecordBatch { num_rows: 3, columns: vec![] }.is_well_formed());
    assert!(two_batches()[0].is_well_formed());
    let mut short = two_batches().remove(0);
    short.columns[1] = Column::Utf8(vec![None]);
    assert!(!short.is_well_formed());
    let mut long = two_batches().remove(1);
    long.num_rows = 0;
    assert!(!long.is_well_formed());
}

#[test]
fn column_lengths() {
    assert_eq!(Column::Boolean(vec![None, None]).len(), 2);
    assert_eq!(Column::Other { name: "x".to_string(), nulls: vec![true; 5] }.len(), 5);
    assert_eq!(Column::Decimal128 { precision: 1, scale: 0, numbers: vec![] }.len(), 0);
}

#[test]
fn database_errors_are_reported_under_their_class() {
    let expected = [
        (DuckDbErrorKind::DuckDBFailure, SqlState::ConnectionException),
        (DuckDbErrorKind::FromSqlConversionFailure, SqlState::SyntaxError),
        (DuckDbErrorKind::IntegralValueOutOfRange, SqlState::DataException),
        (DuckDbErrorKind::Utf8Error, SqlState::DataException),
        (DuckDbErrorKind::NulError, SqlState::DataException),
        (DuckDbErrorKind::InvalidParameterName, SqlState::SyntaxError),
        (DuckDbErrorKind::InvalidPath, SqlState::SyntaxError),
        (DuckDbErrorKind::ExecuteReturnedResults, SqlState::DataException),
        (DuckDbErrorKind::QueryReturnedNoRows, SqlState::DataException),
        (DuckDbErrorKind::InvalidColumnIndex, SqlState::DataException),
        (DuckDbErrorKind::InvalidColumnName, SqlState::DataException),
        (DuckDbErrorKind::InvalidColumnType, SqlState::DataException),
        (DuckDbErrorKind::StatementChangedRows, SqlState::DataException),
        (DuckDbErrorKind::ToSqlConversionFailure, SqlState::SyntaxError),
        (DuckDbErrorKind::InvalidQuery, SqlState::SyntaxError),
        (DuckDbErrorKind::MultipleStatement, SqlState::SyntaxError),
        (DuckDbErrorKind::InvalidParameterCount, SqlState::SyntaxError),
        (DuckDbErrorKind::AppendError, SqlState::DataException),
        (DuckDbErrorKind::Other, SqlState::DataException),
    ];
    for (kind, state) in expected {
        assert_eq!(kind.sql_state(), state);
        assert_eq!(
            to_wire_error(DuckDbError { kind, message: "Parser Error: near FROM".to_string() }),
            ErrorResponse::error(state, "Parser Error: near FROM")
        );
    }
}

#[test]
fn a_pool_without_a_connection_is_a_connection_exception() {
    assert_eq!(
        pool_error("timed out"),
        ErrorResponse::error(
            SqlState::ConnectionException,
            "cannot retrieve lock to connection : timed out"
        )
    );
}

#[test]
fn extensions_are_loaded_then_installed() {
    assert_eq!(default_extensions(), vec!["parquet", "json", "excel"]);
    assert_eq!(
        extension_statements("parquet"),
        ("LOAD parquet".to_string(), "INSTALL parquet".to_string())
    );
}

#[test]
fn a_connection_has_started_where_no_statement_failed() {
    assert_eq!(startup_outcome(&vec![]), Ok(()));
    assert_eq!(startup_outcome(&vec![true, true, true, true, true, true]), Ok(()));
    let e = ErrorResponse::error(SqlState::ConnectionException, "cannot initialize default plugin");
    assert_eq!(startup_outcome(&vec![true, false, true]), Err(e.clone()));
    assert_eq!(startup_outcome(&vec![false]), Err(e));
}

fn two_batches() -> Vec<RecordBatch> {
    vec![
        RecordBatch {
            num_rows: 2,
            columns: vec![Column::Int32(vec![Some(1), Some(2)]), Column::Utf8(vec![some("a"), None])],
        },
        RecordBatch {
            num_rows: 1,
            columns: vec![Column::Int32(vec![None]), Column::Utf8(vec![some("c")])],
        },
    ]
}

fn two_fields() -> Vec<FieldDescription> {
    vec![
        FieldDescription { name: "n".to_string(), data_type: DataTypeOid::Int4 },
        FieldDescription { name: "s".to_string(), data_type: DataTypeOid::Text },
    ]
}

#[test]
fn a_portal_names_its_columns_and_writes_its_batches() {
    let mut portal = DuckDBPortal::new(two_fields(), two_batches()).expect("the batches fit");
    for _ in 0..2 {
        let mut w = writer(FormatCode::Text, 0);
        assert_eq!(portal.fetch(&mut w), Ok(()));
        assert_eq!(w.row_desc().fields, two_fields());
        assert_eq!(w.row_desc().format_code, FormatCode::Text);
        assert_eq!(
            rows_of(w),
            vec![vec![some("1"), some("a")], vec![some("2"), None], vec![None, some("c")]]
        );
    }
}

#[test]
fn a_portal_is_not_made_of_batches_that_do_not_fit() {
    let mut batches = two_batches();
    batches[1].columns.pop();
    assert!(DuckDBPortal::new(two_fields(), batches).is_none());
    let mut batches = two_batches();
    batches[0].num_rows = 3;
    assert!(DuckDBPortal::new(two_fields(), batches).is_none());
    assert!(DuckDBPortal::new(vec![], two_batches()).is_none());
    assert!(DuckDBPortal::new(two_fields(), vec![]).is_some());
}

#[test]
fn a_portal_from_a_result_describes_its_schema() {
    let schema = Schema {
        fields: vec![
            Field { name: "n".to_string(), data_type: DataType::Int32 },
            Field { name: "s".to_string(), data_type: DataType::Utf8 },
        ],
    };
    let mut portal = DuckDBPortal::from_result(&schema, two_batches()).ok().expect("a portal");
    let mut w = writer(FormatCode::Binary, 0);
    assert_eq!(portal.fetch(&mut w), Ok(()));
    assert_eq!(w.row_desc().fields, two_fields());
    assert_eq!(w.num_rows(), 3);
    let bad = Schema {
        fields: vec![Field { name: "x".to_string(), data_type: DataType::Other { name: "Struct".to_string() } }],
    };
    assert_eq!(DuckDBPortal::from_result(&bad, vec![]).err(), Some(not_implemented("Struct")));
    let narrow = Schema { fields: vec![Field { name: "n".to_string(), data_type: DataType::Int32 }] };
    assert_eq!(
        DuckDBPortal::from_result(&narrow, two_batches()).err().map(|e| e.sql_state),
        Some(SqlState::DataException)
    );
}

#[test]
fn a_portal_stops_at_the_first_value_it_cannot_write() {
    let batches = vec![
        RecordBatch { num_rows: 1, columns: vec![Column::UInt64(vec![Some(7)])] },
        RecordBatch { num_rows: 2, columns: vec![Column::UInt64(vec![Some(8), Some(u64::MAX)])] },
        RecordBatch { num_rows: 1, columns: vec![Column::UInt64(vec![Some(9)])] },
    ];
    let fields = vec![FieldDescription { name: "u".to_string(), data_type: DataTypeOid::Int8 }];
    let mut portal = DuckDBPortal::new(fields, batches).expect("the batches fit");
    let mut w = writer(FormatCode::Text, 0);
    let e = portal.fetch(&mut w).unwrap_err();
    assert_eq!(e.sql_state, SqlState::DataException);
    assert_eq!(rows_of(w), vec![vec![some("7")], vec![some("8")]]);
}

#[test]
fn a_decimal_is_split_at_its_point() {
    assert_eq!(decimal128_parts(12345, 2), Ok(DecimalParts { whole: 123, rest: 45, unit: 100 }));
    assert_eq!(
        decimal128_parts(-12345, 2),
        Ok(DecimalParts { whole: -123, rest: -45, unit: 100 })
    );
    assert_eq!(decimal128_parts(5, 0), Ok(DecimalParts { whole: 5, rest: 0, unit: 1 }));
    assert_eq!(decimal128_parts(0, 7), Ok(DecimalParts { whole: 0, rest: 0, unit: 10_000_000 }));
    assert_eq!(decimal128_parts(-7, 3), Ok(DecimalParts { whole: 0, rest: -7, unit: 1000 }));
    assert_eq!(
        decimal128_parts(i128::MIN, 0),
        Ok(DecimalParts { whole: i128::MIN, rest: 0, unit: 1 })
    );
    assert_eq!(
        decimal128_parts(i128::MAX, 38),
        Ok(DecimalParts {
            whole: 1,
            rest: 70141183460469231731687303715884105727,
            unit: 100000000000000000000000000000000000000,
        })
    );
}

#[test]
fn a_scale_that_no_decimal_has_is_a_data_exception() {
    let e = ErrorResponse::error(SqlState::DataException, "decimal scale out of range");
    assert_eq!(decimal128_parts(1, 39), Err(e.clone()));
    assert_eq!(decimal128_parts(1, 127), Err(e.clone()));
    assert_eq!(decimal128_parts(1, -1), Err(e.clone()));
    assert_eq!(decimal128_parts(1, -128), Err(e));
}

#[test]
fn the_parts_of_a_decimal_make_up_its_value_as_a_double() {
    for (value, scale, expected) in
        [(12345i128, 2i8, 123.45f64), (-5, 1, -0.5), (9007199254740993, 0, 9007199254740992.0)]
    {
        let p = decimal128_parts(value, scale).expect("a scale in range");
        assert_eq!((p.whole as f64) + (p.rest as f64) / (p.unit as f64), expected);
    }
}

#[test]
fn a_connection_starts_statement_by_statement() {
    let expected = [
        "LOAD parquet",
        "INSTALL parquet",
        "LOAD json",
        "INSTALL json",
        "LOAD excel",
        "INSTALL excel",
    ];
    let mut succeeded = Vec::new();
    for statement in expected {
        assert_eq!(startup_step(&succeeded), StartupStep::Run(statement.to_string()));
        succeeded.push(true);
    }
    assert_eq!(startup_step(&succeeded), StartupStep::Done(Ok(())));
    succeeded.push(true);
    assert_eq!(startup_step(&succeeded), StartupStep::Done(Ok(())));
}

#[test]
fn a_connection_stops_starting_at_the_first_statement_that_fails() {
    let e = ErrorResponse::error(SqlState::ConnectionException, "cannot initialize default plugin");
    assert_eq!(startup_step(&vec![false]), StartupStep::Done(Err(e.clone())));
    assert_eq!(startup_step(&vec![true, true, false]), StartupStep::Done(Err(e.clone())));
    assert_eq!(
        startup_step(&vec![true, true, true, true, true, false]),
        StartupStep::Done(Err(e.clone()))
    );
    assert_eq!(startup_step(&vec![true, false, true, true, true, true]), StartupStep::Done(Err(e)));
}
