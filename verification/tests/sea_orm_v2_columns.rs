use aip::filtering::sea_orm_v2::get_column;
use aip::filtering::sea_orm::ColumnName;

// Mock column for testing the lookup of columns by field name
#[derive(Debug, PartialEq)]
enum MockColumn {
    Name,
    UserName,
    CreatedAt,
}

impl ColumnName for MockColumn {
    fn from_name(s: &str) -> Result<Self, String> {
        match s {
            "Name" => Ok(MockColumn::Name),
            "UserName" => Ok(MockColumn::UserName),
            "CreatedAt" => Ok(MockColumn::CreatedAt),
            _ => Err(format!("Unknown column: {}", s)),
        }
    }
}

#[test]
fn sea_orm_v2_test_column_name_conversion() {
    // Test snake_case to PascalCase conversion helper
    let result = get_column::<MockColumn>("user_name");
    assert!(result.is_ok());
    assert_eq!(result.unwrap(), MockColumn::UserName);

    let result = get_column::<MockColumn>("created_at");
    assert!(result.is_ok());
    assert_eq!(result.unwrap(), MockColumn::CreatedAt);
}

#[test]
fn sea_orm_v2_test_column_name_direct_match() {
    // Test direct PascalCase match
    let result = get_column::<MockColumn>("Name");
    assert!(result.is_ok());
    assert_eq!(result.unwrap(), MockColumn::Name);
}

#[test]
fn sea_orm_v2_test_invalid_column_name() {
    let result = get_column::<MockColumn>("invalid_field");
    assert!(result.is_err());
}
