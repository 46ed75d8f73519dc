use aip::filtering::condition::{ColumnType, ComparisonOp, Condition, SqlExpr, SqlValue};
use aip::filtering::parse_filter;
use aip::filtering::sea_orm::{ColumnName, EntityColumn, ToSeaOrmCondition};

// The columns of a `documents` table: a UUID key and a creation time.
#[derive(Debug, Clone, Copy, PartialEq)]
enum DocumentColumn {
    Id,
    Title,
    CreatedAt,
}

impl ColumnName for DocumentColumn {
    fn from_name(s: &str) -> Result<Self, String> {
        match s {
            "Id" => Ok(DocumentColumn::Id),
            "Title" => Ok(DocumentColumn::Title),
            "CreatedAt" => Ok(DocumentColumn::CreatedAt),
            _ => Err(format!("Unknown column: {}", s)),
        }
    }
}

impl EntityColumn for DocumentColumn {
    fn column_name(&self) -> String {
        match self {
            DocumentColumn::Id => "id".to_string(),
            DocumentColumn::Title => "title".to_string(),
            DocumentColumn::CreatedAt => "created_at".to_string(),
        }
    }

    fn column_type(&self) -> ColumnType {
        match self {
            DocumentColumn::Id => ColumnType::Uuid,
            DocumentColumn::Title => ColumnType::Other,
            DocumentColumn::CreatedAt => ColumnType::TimestampWithTimeZone,
        }
    }
}

// The columns of a `tasks` table whose status is a PostgreSQL enum.
#[derive(Debug, Clone, Copy, PartialEq)]
enum TaskColumn {
    Id,
    Name,
    Status,
}

impl ColumnName for TaskColumn {
    fn from_name(s: &str) -> Result<Self, String> {
        match s {
            "Id" => Ok(TaskColumn::Id),
            "Name" => Ok(TaskColumn::Name),
            "Status" => Ok(TaskColumn::Status),
            _ => Err(format!("Unknown column: {}", s)),
        }
    }
}

impl EntityColumn for TaskColumn {
    fn column_name(&self) -> String {
        match self {
            TaskColumn::Id => "id".to_string(),
            TaskColumn::Name => "name".to_string(),
            TaskColumn::Status => "status".to_string(),
        }
    }

    fn column_type(&self) -> ColumnType {
        match self {
            TaskColumn::Status => ColumnType::Enum("status_type".to_string()),
            _ => ColumnType::Other,
        }
    }
}

#[test]
fn test_uuid_cast_in_sql() {
    let filter = parse_filter("id = \"550e8400-e29b-41d4-a716-446655440000\"").unwrap();
    let condition = filter.to_condition::<DocumentColumn>().unwrap();
    assert_eq!(
        condition,
        Condition::Single(SqlExpr::Compare(
            "id".to_string(),
            ComparisonOp::Eq,
            SqlValue::Cast("550e8400-e29b-41d4-a716-446655440000".to_string(), "uuid".to_string()),
        ))
    );
}

#[test]
fn test_timestamp_cast_in_sql() {
    let filter = parse_filter("created_at > \"2024-01-01T00:00:00Z\"").unwrap();
    let condition = filter.to_condition::<DocumentColumn>().unwrap();
    assert_eq!(
        condition,
        Condition::Single(SqlExpr::Compare(
            "created_at".to_string(),
            ComparisonOp::Gt,
            SqlValue::Cast("2024-01-01T00:00:00Z".to_string(), "timestamptz".to_string()),
        ))
    );
}

#[test]
fn test_enum_cast_in_sql() {
    let filter = parse_filter("status = \"active\"").unwrap();
    let condition = filter.to_condition::<TaskColumn>().unwrap();
    assert_eq!(
        condition,
        Condition::Single(SqlExpr::Compare(
            "status".to_string(),
            ComparisonOp::Eq,
            SqlValue::Cast("active".to_string(), "status_type".to_string()),
        ))
    );
}

#[test]
fn strings_on_other_columns_are_not_cast() {
    let filter = parse_filter("title = \"Report\"").unwrap();
    let condition = filter.to_condition::<DocumentColumn>().unwrap();
    assert_eq!(
        condition,
        Condition::Single(SqlExpr::Compare(
            "title".to_string(),
            ComparisonOp::Eq,
            SqlValue::Text("Report".to_string()),
        ))
    );
}
