use aip::filtering::{parse_filter, Comparator, Expression, FilterError, FilterParser, Restriction, Value};

fn restriction(field: &str, comparator: Comparator, value: Value) -> Expression {
    Expression::Restriction(Restriction { field: field.to_string(), comparator, value })
}

fn string(s: &str) -> Value {
    Value::String(s.to_string())
}

fn number(s: &str) -> Value {
    Value::Number(s.to_string())
}

#[test]
fn parses_simple_equality_to_restriction() {
    let f = parse_filter("name = \"foo\"").unwrap();
    assert_eq!(f.expression, restriction("name", Comparator::Equal, string("foo")));
}

#[test]
fn and_binds_tighter_than_or() {
    let f = parse_filter("a = 1 OR b = 2 AND c = 3").unwrap();
    let expected = Expression::Or(
        Box::new(restriction("a", Comparator::Equal, number("1"))),
        Box::new(Expression::And(
            Box::new(restriction("b", Comparator::Equal, number("2"))),
            Box::new(restriction("c", Comparator::Equal, number("3"))),
        )),
    );
    assert_eq!(f.expression, expected);
}

#[test]
fn and_chains_group_from_the_left() {
    let f = parse_filter("a = 1 AND b = 2 AND c = 3").unwrap();
    let expected = Expression::And(
        Box::new(Expression::And(
            Box::new(restriction("a", Comparator::Equal, number("1"))),
            Box::new(restriction("b", Comparator::Equal, number("2"))),
        )),
        Box::new(restriction("c", Comparator::Equal, number("3"))),
    );
    assert_eq!(f.expression, expected);
}

#[test]
fn parentheses_group() {
    let f = parse_filter("(status = \"active\" OR status = \"pending\") AND created > \"2024-01-01\"").unwrap();
    let expected = Expression::And(
        Box::new(Expression::Or(
            Box::new(restriction("status", Comparator::Equal, string("active"))),
            Box::new(restriction("status", Comparator::Equal, string("pending"))),
        )),
        Box::new(restriction("created", Comparator::GreaterThan, string("2024-01-01"))),
    );
    assert_eq!(f.expression, expected);
}

#[test]
fn not_applies_to_restriction_and_group() {
    let f = parse_filter("NOT deleted = true").unwrap();
    assert_eq!(
        f.expression,
        Expression::Not(Box::new(restriction("deleted", Comparator::Equal, Value::Boolean(true))))
    );
    let g = parse_filter("NOT (a = 1 OR b = 2)").unwrap();
    assert_eq!(
        g.expression,
        Expression::Not(Box::new(Expression::Or(
            Box::new(restriction("a", Comparator::Equal, number("1"))),
            Box::new(restriction("b", Comparator::Equal, number("2"))),
        )))
    );
}

#[test]
fn all_comparators() {
    let cases = [
        ("=", Comparator::Equal),
        ("!=", Comparator::NotEqual),
        (">", Comparator::GreaterThan),
        (">=", Comparator::GreaterThanOrEqual),
        ("<", Comparator::LessThan),
        ("<=", Comparator::LessThanOrEqual),
        (":", Comparator::Has),
    ];
    for (text, comparator) in cases {
        let f = parse_filter(&format!("age {} 18", text)).unwrap();
        assert_eq!(f.expression, restriction("age", comparator.clone(), number("18")));
        assert_eq!(comparator.to_string(), text);
    }
}

#[test]
fn value_kinds() {
    let f = parse_filter("a = 'single quoted'").unwrap();
    assert_eq!(f.expression, restriction("a", Comparator::Equal, string("single quoted")));
    let f = parse_filter("a = -3.25e+2").unwrap();
    assert_eq!(f.expression, restriction("a", Comparator::Equal, number("-3.25e+2")));
    let f = parse_filter("a = FALSE").unwrap();
    assert_eq!(f.expression, restriction("a", Comparator::Equal, Value::Boolean(false)));
    let f = parse_filter("a = null").unwrap();
    assert_eq!(f.expression, restriction("a", Comparator::Equal, Value::Null));
    let f = parse_filter("user.name : \"@gmail.com\"").unwrap();
    assert_eq!(f.expression, restriction("user.name", Comparator::Has, string("@gmail.com")));
}

#[test]
fn bare_members_form_a_sequence() {
    let f = parse_filter("foo bar").unwrap();
    match f.expression {
        Expression::Sequence(s) => assert_eq!(s.parts, vec!["foo".to_string(), "bar".to_string()]),
        other => panic!("unexpected {:?}", other),
    }
}

#[test]
fn empty_filter_has_no_expression() {
    match parse_filter("   ") {
        Err(FilterError::ParseError(m)) => assert_eq!(m, "No expression found"),
        other => panic!("unexpected {:?}", other),
    }
}

#[test]
fn malformed_filters_are_refused() {
    for text in ["a =", "(a = 1", "a = 1 AND", "= 1", "a = 1)", "a = \"unclosed", "AND = 1"] {
        match parse_filter(text) {
            Err(FilterError::ParseError(m)) => {
                assert_eq!(m, "the filter does not follow the AIP-160 grammar")
            }
            other => panic!("{} gave {:?}", text, other),
        }
    }
}

#[test]
fn filter_parser_agrees_with_parse_filter() {
    let a = FilterParser::parse("x >= 2").unwrap();
    let b = parse_filter("x >= 2").unwrap();
    assert_eq!(a, b);
}

#[test]
fn printing_and_parsing_again_gives_the_same_filter() {
    for text in [
        "name = \"foo\"",
        "a = 1 OR b = 2 AND NOT c : \"x\"",
        "(status = \"active\" OR status = \"pending\") AND created > \"2024-01-01\"",
        "NOT (a = true AND b != null)",
        "tags",
    ] {
        let f = parse_filter(text).unwrap();
        let printed = f.to_string();
        let g = parse_filter(&printed).unwrap();
        assert_eq!(f, g, "{} printed as {}", text, printed);
    }
}

#[test]
fn printing_an_expression() {
    let f = parse_filter("a = 1 OR NOT b = \"x\"").unwrap();
    assert_eq!(f.to_string(), "(a = 1 OR NOT b = \"x\")");
}

#[test]
fn value_accessors() {
    assert_eq!(string("x").as_string(), Some("x"));
    assert_eq!(number("1").as_string(), None);
    assert_eq!(Value::Boolean(true).as_boolean(), Some(true));
    assert!(Value::Null.is_null());
    assert!(!Value::Boolean(false).is_null());
    assert_eq!(Value::Null.to_string(), "null");
}

#[test]
fn error_text() {
    assert_eq!(FilterError::ParseError("x".to_string()).to_string(), "Parse error: x");
    assert_eq!(FilterError::InvalidField("f".to_string()).to_string(), "Invalid field: f");
}

#[test]
fn a_sequence_of_several_members_prints_as_one_dotted_member() {
    let f = parse_filter("alpha beta").unwrap();
    assert_eq!(f.to_string(), "alpha.beta");
    let g = parse_filter(&f.to_string()).unwrap();
    assert_ne!(f, g);
    assert_eq!(g.to_string(), "alpha.beta");
}

fn and(l: Expression, r: Expression) -> Expression {
    Expression::And(Box::new(l), Box::new(r))
}

fn or(l: Expression, r: Expression) -> Expression {
    Expression::Or(Box::new(l), Box::new(r))
}

#[test]
fn keywords_group_restrictions_written_in_any_form() {
    let a = restriction("x", Comparator::GreaterThanOrEqual, number("1"));
    let b = restriction("user.name", Comparator::Has, string("ann"));
    let c = restriction("ok", Comparator::NotEqual, Value::Null);
    let (ta, tb, tc) = ("x>=1", "user.name  :  'ann'", "ok!=NULL");
    let parse = |t: String| parse_filter(&t).unwrap().expression;
    assert_eq!(parse(format!("{} AND {} OR {}", ta, tb, tc)), or(and(a.clone(), b.clone()), c.clone()));
    assert_eq!(parse(format!("{} OR {} AND {}", ta, tb, tc)), or(a.clone(), and(b.clone(), c.clone())));
    assert_eq!(parse(format!("{} AND {} AND {}", ta, tb, tc)), and(and(a.clone(), b.clone()), c.clone()));
    assert_eq!(parse(format!("{} OR {} OR {}", ta, tb, tc)), or(or(a.clone(), b.clone()), c.clone()));
    assert_eq!(
        parse(format!("NOT {} AND {}", ta, tb)),
        and(Expression::Not(Box::new(a.clone())), b.clone())
    );
}
