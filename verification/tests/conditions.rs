use aip::filtering::condition::{
    restriction_to_condition, ColumnType, ComparisonOp, Condition, FieldMapper, NumberBinding, SqlExpr,
    SqlValue,
};
use aip::filtering::sea_orm::{pascal_case, ColumnName, ColumnsOf, EntityColumn};
use aip::filtering::sea_orm_v2::{column_from_str, ToSeaOrmCondition};
use aip::filtering::{parse_filter, Comparator, FilterError, Restriction, Value};

#[derive(Debug, PartialEq, Clone, Copy)]
enum Column {
    Id,
    Name,
    CreatedAt,
    Status,
}

impl ColumnName for Column {
    fn from_name(s: &str) -> Result<Self, String> {
        match s {
            "Id" => Ok(Column::Id),
            "Name" => Ok(Column::Name),
            "CreatedAt" => Ok(Column::CreatedAt),
            "Status" => Ok(Column::Status),
            _ => Err(format!("Unknown column: {}", s)),
        }
    }
}

impl EntityColumn for Column {
    fn column_name(&self) -> String {
        match self {
            Column::Id => "id".to_string(),
            Column::Name => "name".to_string(),
            Column::CreatedAt => "created_at".to_string(),
            Column::Status => "status".to_string(),
        }
    }
    fn column_type(&self) -> ColumnType {
        match self {
            Column::Id => ColumnType::Uuid,
            Column::Name => ColumnType::Other,
            Column::CreatedAt => ColumnType::TimestampWithTimeZone,
            Column::Status => ColumnType::Enum("status_type".to_string()),
        }
    }
}

fn compare(column: &str, op: ComparisonOp, value: SqlValue) -> Condition {
    Condition::Single(SqlExpr::Compare(column.to_string(), op, value))
}

#[test]
fn pascal_case_of_snake_case() {
    assert_eq!(pascal_case("user_name"), "UserName");
    assert_eq!(pascal_case("created_at"), "CreatedAt");
    assert_eq!(pascal_case("a__b_"), "AB");
    assert_eq!(pascal_case("Name"), "Name");
}

#[test]
fn strings_are_cast_to_the_column_type() {
    let f = parse_filter("id = \"550e8400-e29b-41d4-a716-446655440000\"").unwrap();
    let c = aip::filtering::sea_orm::ToSeaOrmCondition::to_condition::<Column>(&f).unwrap();
    assert_eq!(
        c,
        compare(
            "id",
            ComparisonOp::Eq,
            SqlValue::Cast("550e8400-e29b-41d4-a716-446655440000".to_string(), "uuid".to_string())
        )
    );
    let f = parse_filter("created_at > \"2024-01-01T00:00:00Z\"").unwrap();
    let c = f.to_condition(&ColumnsOf::<Column>::new()).unwrap();
    assert_eq!(
        c,
        compare(
            "created_at",
            ComparisonOp::Gt,
            SqlValue::Cast("2024-01-01T00:00:00Z".to_string(), "timestamptz".to_string())
        )
    );
    let f = parse_filter("status = \"active\"").unwrap();
    let c = f.to_condition(&ColumnsOf::<Column>::new()).unwrap();
    assert_eq!(
        c,
        compare(
            "status",
            ComparisonOp::Eq,
            SqlValue::Cast("active".to_string(), "status_type".to_string())
        )
    );
}

#[test]
fn logical_structure_is_kept() {
    let f = parse_filter("name : \"Smith\" OR NOT name = null").unwrap();
    let c = f.to_condition(&ColumnsOf::<Column>::new()).unwrap();
    assert_eq!(
        c,
        Condition::Any(
            Box::new(Condition::Single(SqlExpr::Like("name".to_string(), "%Smith%".to_string()))),
            Box::new(Condition::Not(Box::new(Condition::Single(SqlExpr::IsNull("name".to_string()))))),
        )
    );
}

#[test]
fn unsupported_conversions() {
    let f = parse_filter("name : 3").unwrap();
    assert_eq!(
        f.to_condition(&ColumnsOf::<Column>::new()),
        Err(FilterError::UnsupportedOperation("Has operator (:) requires a string value".to_string()))
    );
    let f = parse_filter("foo bar").unwrap();
    assert_eq!(
        f.to_condition(&ColumnsOf::<Column>::new()),
        Err(FilterError::UnsupportedOperation(
            "Sequences are not yet supported in SeaORM conversion".to_string()
        ))
    );
    let f = parse_filter("age > 3").unwrap();
    assert_eq!(
        f.to_condition(&ColumnsOf::<Column>::new()),
        Err(FilterError::InvalidField("age: Unknown column: Age".to_string()))
    );
}

#[test]
fn restriction_conditions() {
    let r = Restriction { field: "n".to_string(), comparator: Comparator::NotEqual, value: Value::Null };
    assert_eq!(
        restriction_to_condition("n".to_string(), &ColumnType::Other, &r),
        Ok(Condition::Single(SqlExpr::IsNotNull("n".to_string())))
    );
    let r = Restriction {
        field: "n".to_string(),
        comparator: Comparator::LessThanOrEqual,
        value: Value::Number("4.5".to_string()),
    };
    assert_eq!(
        restriction_to_condition("n".to_string(), &ColumnType::Uuid, &r),
        Ok(compare(
            "n",
            ComparisonOp::Lte,
            SqlValue::Number("4.5".to_string(), NumberBinding::IntegerWhereIntegral)
        ))
    );
}

#[test]
fn numbers_on_float_columns_are_bound_as_floats() {
    let r = Restriction {
        field: "score".to_string(),
        comparator: Comparator::GreaterThan,
        value: Value::Number("90".to_string()),
    };
    assert_eq!(
        restriction_to_condition("score".to_string(), &ColumnType::Float, &r),
        Ok(compare(
            "score",
            ComparisonOp::Gt,
            SqlValue::Number("90".to_string(), NumberBinding::Float)
        ))
    );
    assert_eq!(
        restriction_to_condition("age".to_string(), &ColumnType::Other, &r),
        Ok(compare(
            "age",
            ComparisonOp::Gt,
            SqlValue::Number("90".to_string(), NumberBinding::IntegerWhereIntegral)
        ))
    );
}

#[test]
fn column_names() {
    assert_eq!(column_from_str::<Column>("created_at"), Ok("created_at".to_string()));
    assert_eq!(column_from_str::<Column>("Name"), Ok("name".to_string()));
    assert!(column_from_str::<Column>("nope").is_err());
    let m = ColumnsOf::<Column>::new();
    assert_eq!(m.map_field("status"), Ok(("status".to_string(), ColumnType::Enum("status_type".to_string()))));
}

#[test]
fn the_first_failing_part_decides_the_error() {
    let mapper = ColumnsOf::<Column>::new();
    let unknown_first = parse_filter("missing = 1 AND tags").unwrap();
    assert_eq!(
        unknown_first.to_condition(&mapper),
        Err(FilterError::InvalidField("missing: Unknown column: Missing".to_string()))
    );
    let sequence_first = parse_filter("tags AND missing = 1").unwrap();
    assert_eq!(
        sequence_first.to_condition(&mapper),
        Err(FilterError::UnsupportedOperation(
            "Sequences are not yet supported in SeaORM conversion".to_string()
        ))
    );
}

#[test]
fn an_unknown_field_wins_over_a_bad_has() {
    let mapper = ColumnsOf::<Column>::new();
    let f = parse_filter("missing : 1").unwrap();
    assert_eq!(
        f.to_condition(&mapper),
        Err(FilterError::InvalidField("missing: Unknown column: Missing".to_string()))
    );
}

#[test]
fn code_converts_to_its_http_status_code() {
    assert_eq!(http::StatusCode::from(aip::errors::Code::NotFound).as_u16(), 404);
    assert_eq!(http::StatusCode::from(aip::errors::Code::Cancelled).as_u16(), 499);
}
