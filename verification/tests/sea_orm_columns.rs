use aip::filtering::sea_orm::column_or_invalid;
use aip::filtering::FilterError;
use aip::filtering::sea_orm::get_column;
use aip::filtering::sea_orm::ColumnName;

// Mock column for testing the lookup of columns by field name
#[derive(Debug, PartialEq)]
enum MockColumn {
    Name,
    UserName,
    CreatedAt,
}

impl ColumnName for MockColumn {
    fn from_name(s: &str) -> Result<Self, String> {
        match s {
            "Name" => Ok(MockColumn::Name),
            "UserName" => Ok(MockColumn::UserName),
            "CreatedAt" => Ok(MockColumn::CreatedAt),
            _ => Err(format!("Unknown column: {}", s)),
        }
    }
}

#[test]
fn sea_orm_test_column_name_conversion() {
    // Test snake_case to PascalCase conversion helper
    let result = get_column::<MockColumn>("user_name");
    assert!(result.is_ok());
    assert_eq!(result.unwrap(), MockColumn::UserName);

    let result = get_column::<MockColumn>("created_at");
    assert!(result.is_ok());
    assert_eq!(result.unwrap(), MockColumn::CreatedAt);
}

#[test]
fn sea_orm_test_column_name_direct_match() {
    // Test direct PascalCase match
    let result = get_column::<MockColumn>("Name");
    assert!(result.is_ok());
    assert_eq!(result.unwrap(), MockColumn::Name);
}

#[test]
fn sea_orm_test_invalid_column_name() {
    let result = get_column::<MockColumn>("invalid_field");
    assert!(result.is_err());
}

#[test]
fn column_or_invalid_keeps_a_found_column_and_names_the_field_otherwise() {
    assert_eq!(column_or_invalid::<u8>("user_name", Ok(3)), Ok(3));
    assert_eq!(
        column_or_invalid::<u8>("user_name", Err("Unknown column: UserName".to_string())),
        Err(FilterError::InvalidField("user_name: Unknown column: UserName".to_string()))
    );
}
