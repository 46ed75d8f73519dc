use aip::errors::derive_support::{
    axum_path, crate_path, metadata_entries, parse_message_template, variant_message,
    variant_pattern, FieldStyle, FoundCrate, MessageSource, StatusField,
};
use aip::errors::{Code, ErrorInfo, Metadata, Status};
use http::StatusCode;

#[test]
fn metadata_reads_back_what_was_written() {
    let mut m = Metadata::new();
    m.insert("a".to_string(), "1".to_string());
    m.insert("b".to_string(), "2".to_string());
    m.insert("a".to_string(), "3".to_string());
    assert_eq!(m.get("a"), Some(&"3".to_string()));
    assert_eq!(m.get("b"), Some(&"2".to_string()));
    assert_eq!(m.get("c"), None);
    assert!(m.contains_key("b"));
    assert_eq!(m.len(), 2);
    assert_eq!(m.as_pairs().len(), 2);
}

#[test]
fn metadata_equality_ignores_order() {
    let mut m1 = Metadata::new();
    m1.insert("a".to_string(), "1".to_string());
    m1.insert("b".to_string(), "2".to_string());
    let mut m2 = Metadata::new();
    m2.insert("b".to_string(), "2".to_string());
    m2.insert("a".to_string(), "1".to_string());
    assert_eq!(m1, m2);
    m2.insert("a".to_string(), "9".to_string());
    assert_ne!(m1, m2);
    assert_eq!(m1.clone(), m1);
}

#[test]
fn code_names_round_trip() {
    for code in Code::all() {
        assert_eq!(Code::from_name(code.as_str()), Some(code));
        assert_eq!(i32::from(code), code.value());
    }
    assert_eq!(Code::from_name("ok"), None);
}

#[test]
fn http_status_mapping() {
    assert_eq!(Code::Cancelled.http_status(), 499);
    assert_eq!(StatusCode::from(Code::Cancelled).as_u16(), 499);
    assert_eq!(Code::from(StatusCode::from_u16(499).unwrap()), Code::Cancelled);
    assert_eq!(Code::from_http_status(418), Code::FailedPrecondition);
    assert_eq!(Code::from_http_status(302), Code::Unknown);
    assert_eq!(Code::from_http_status(599), Code::Internal);
}

#[test]
fn status_from_parts_carries_everything() {
    let mut m = Metadata::new();
    m.insert("k".to_string(), "v".to_string());
    let s = Status::from_parts(Code::NotFound, "gone".to_string(), "GONE", "x.com", m);
    assert_eq!(s.code, 5);
    assert_eq!(s.status, Code::NotFound);
    assert_eq!(s.message, "gone");
    let info = s.details.error_info.unwrap();
    assert_eq!(info.reason, "GONE");
    assert_eq!(info.domain, "x.com");
    assert_eq!(info.metadata.get("k"), Some(&"v".to_string()));
}

#[test]
fn reason_validation_edges() {
    assert!(ErrorInfo::new("A_1", "").is_valid_reason());
    assert!(!ErrorInfo::new("A__", "").is_valid_reason());
    assert!(!ErrorInfo::new("ÄBC", "").is_valid_reason());
}

#[test]
fn message_templates() {
    let names = vec!["user_id".to_string(), "action".to_string()];
    let (format, args) = parse_message_template("User {user_id} cannot {action} {other}", &names);
    assert_eq!(format, "User {} cannot {} {other}");
    assert_eq!(args, vec!["user_id".to_string(), "action".to_string()]);
    assert_eq!(
        variant_message("NotFound", None, &names),
        MessageSource::Literal("NotFound".to_string())
    );
    assert_eq!(
        variant_message("NotFound", Some("no {thing}"), &names),
        MessageSource::Literal("no {thing}".to_string())
    );
    let (format, args) = parse_message_template("open {user_id", &names);
    assert_eq!(format, "open {}");
    assert_eq!(args, vec!["user_id".to_string()]);
}

#[test]
fn metadata_entry_selection() {
    let fields = vec![
        StatusField { ident: Some("a".to_string()), metadata: true, metadata_key: None },
        StatusField { ident: Some("b".to_string()), metadata: false, metadata_key: None },
        StatusField { ident: None, metadata: true, metadata_key: Some("t".to_string()) },
        StatusField { ident: Some("c".to_string()), metadata: true, metadata_key: Some("key_c".to_string()) },
    ];
    assert_eq!(
        metadata_entries(&fields),
        vec![("a".to_string(), "a".to_string()), ("key_c".to_string(), "c".to_string())]
    );
}

#[test]
fn crate_path_prefers_the_umbrella_crate() {
    let umbrella = Some(FoundCrate::Name("aip".to_string()));
    let errors = Some(FoundCrate::Name("aip_193".to_string()));
    assert_eq!(crate_path(&umbrella, &errors), "::aip::__private::errors");
    assert_eq!(crate_path(&Some(FoundCrate::Itself), &None), "crate::__private::errors");
}

#[test]
fn crate_path_falls_back_to_the_error_crate() {
    let renamed = Some(FoundCrate::Name("my_errors".to_string()));
    assert_eq!(crate_path(&None, &renamed), "::my_errors");
    assert_eq!(crate_path(&None, &Some(FoundCrate::Itself)), "crate");
    assert_eq!(crate_path(&None, &None), "::aip_193");
}

#[test]
fn axum_path_falls_back_in_order() {
    let axum = Some(FoundCrate::Name("axum".to_string()));
    let core = Some(FoundCrate::Name("axum_core".to_string()));
    assert_eq!(axum_path(&axum, &core), "::axum");
    assert_eq!(axum_path(&None, &core), "::axum_core");
    assert_eq!(axum_path(&None, &Some(FoundCrate::Itself)), "crate");
    assert_eq!(axum_path(&None, &None), "::axum");
}

fn field(name: Option<&str>) -> StatusField {
    StatusField { ident: name.map(|n| n.to_string()), metadata: false, metadata_key: None }
}

#[test]
fn unit_variant_pattern() {
    assert_eq!(variant_pattern("MyError", "NotFound", FieldStyle::Unit, &vec![]), "MyError::NotFound");
}

#[test]
fn struct_variant_pattern_binds_each_named_field() {
    let fields = vec![field(Some("id")), field(Some("name"))];
    assert_eq!(
        variant_pattern("MyError", "Missing", FieldStyle::Struct, &fields),
        "MyError::Missing { id, name }"
    );
}

#[test]
fn tuple_variant_pattern_numbers_the_fields() {
    let fields: Vec<StatusField> = (0..12).map(|_| field(None)).collect();
    let expected = format!(
        "E::V({})",
        (0..12).map(|i| format!("_{}", i)).collect::<Vec<_>>().join(", ")
    );
    assert_eq!(variant_pattern("E", "V", FieldStyle::Tuple, &fields), expected);
    assert_eq!(variant_pattern("E", "V", FieldStyle::Tuple, &vec![field(None)]), "E::V(_0)");
}
