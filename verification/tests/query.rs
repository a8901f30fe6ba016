use delphos::query::{BqlExpr, BqlQuery, BqlValue, FieldPath, OrderDir, QueryPlanner, ScanStrategy};
use delphos::query_parser::{float_syntax_of, parse, parse_i64, parse_usize, parse_value, split_words, ParseError};

#[test]
fn parse_select_all() {
    let q = parse("SELECT tasks").unwrap();
    assert_eq!(q.entity_type.0, "tasks");
    assert!(matches!(q.filter, BqlExpr::True));
}

#[test]
fn parse_where_eq() {
    let q = parse(r#"SELECT tasks WHERE status = "blocked""#).unwrap();
    assert!(matches!(q.filter, BqlExpr::Eq(..)));
}

#[test]
fn parse_order_limit() {
    let q = parse("SELECT tasks ORDER BY priority DESC LIMIT 5").unwrap();
    assert_eq!(q.limit, Some(5));
    assert!(q.order_by.is_some());
}

#[test]
fn parse_and_expr() {
    let q = parse(r#"SELECT tasks WHERE status = "blocked" AND priority > 3"#).unwrap();
    assert!(matches!(q.filter, BqlExpr::And(..)));
}

#[test]
fn parse_no_select_fails() {
    assert!(parse("FROM tasks").is_err());
}

#[test]
fn query_all() {
    let q = BqlQuery::all("tasks");
    assert!(matches!(q.filter, BqlExpr::True));
}

#[test]
fn parsed_pieces_are_exact() {
    let q = parse(r#"select Tasks where status = "blocked" and priority > 3 order by dependency.depth desc limit 7"#).unwrap();
    assert_eq!(q.entity_type.0, "tasks");
    match &q.filter {
        BqlExpr::And(a, b) => {
            match a.as_ref() {
                BqlExpr::Eq(f, BqlValue::Str(s)) => {
                    assert_eq!(f.0, vec!["status".to_string()]);
                    assert_eq!(s, "blocked");
                }
                other => panic!("unexpected {other:?}"),
            }
            assert!(matches!(b.as_ref(), BqlExpr::Gt(_, BqlValue::Int(3))));
        }
        other => panic!("unexpected {other:?}"),
    }
    let (field, dir) = q.order_by.clone().unwrap();
    assert_eq!(field.0, vec!["dependency".to_string(), "depth".to_string()]);
    assert_eq!(dir, OrderDir::Desc);
    assert_eq!(q.limit, Some(7));
    assert_eq!(q.offset, 0);
}

#[test]
fn parse_errors_name_their_cause() {
    assert_eq!(parse("   ").unwrap_err(), ParseError::NoSelect("empty input".into()));
    assert_eq!(parse("FROM tasks").unwrap_err(), ParseError::NoSelect("FROM".into()));
    assert_eq!(parse("SELECT").unwrap_err(), ParseError::NoEntityType("end of input".into()));
    assert_eq!(parse("SELECT tasks GROUP x").unwrap_err(), ParseError::UnrecognizedToken("GROUP".into()));
    assert_eq!(parse("SELECT tasks LIMIT").unwrap_err(), ParseError::Incomplete("LIMIT needs number".into()));
    assert_eq!(parse("SELECT tasks ORDER BY").unwrap_err(), ParseError::Incomplete("ORDER BY needs field".into()));
    assert_eq!(parse("SELECT tasks WHERE a ~ 1").unwrap_err(), ParseError::UnrecognizedToken("~".into()));
    assert_eq!(
        parse("SELECT tasks WHERE status =").unwrap_err(),
        ParseError::Incomplete(r#"expr needs field op value, got: ["status", "="]"#.into())
    );
    assert_eq!(parse("FROM x").unwrap_err().message(), "expected SELECT, got: FROM");
}

#[test]
fn bad_limit_means_no_limit() {
    let q = parse("SELECT tasks LIMIT 5 LIMIT many").unwrap();
    assert_eq!(q.limit, None);
}

#[test]
fn values_by_kind() {
    assert_eq!(parse_value("null"), BqlValue::Null);
    assert_eq!(parse_value("true"), BqlValue::Bool(true));
    assert_eq!(parse_value("-42"), BqlValue::Int(-42));
    assert_eq!(parse_value("2.5e3"), BqlValue::Float("2.5e3".into()));
    assert_eq!(parse_value("inf"), BqlValue::Float("inf".into()));
    assert_eq!(parse_value("1e"), BqlValue::Str("1e".into()));
    assert_eq!(parse_value("blocked"), BqlValue::Str("blocked".into()));
}

#[test]
fn number_syntax_matches_std() {
    for s in ["0", "+7", "-0", "18446744073709551615", "18446744073709551616", "", "+", "-", "1_0", " 1", "٣"] {
        assert_eq!(parse_usize(s), s.parse::<usize>().ok(), "{s:?}");
    }
    for s in ["0", "+7", "-7", "9223372036854775807", "9223372036854775808", "-9223372036854775808", "-9223372036854775809", "", "-", "+", "--1", "x"] {
        assert_eq!(parse_i64(s), s.parse::<i64>().ok(), "{s:?}");
    }
    for s in ["1", "1.", ".5", ".", "1e5", "1E-5", "+1.5e+3", "-.e1", "inf", "-Infinity", "NaN", "nan1", "1e", "e5", "1.2.3", "1e5e6", "0x10", "١"] {
        assert_eq!(float_syntax_of(s), s.parse::<f64>().is_ok(), "{s:?}");
    }
}

#[test]
fn words_and_paths() {
    assert_eq!(split_words("  a\tb\u{3000}c  "), vec!["a", "b", "c"]);
    assert!(split_words("").is_empty());
    assert_eq!(FieldPath::new("a..b").0, vec!["a", "", "b"]);
    assert_eq!(FieldPath::new("").0, vec![""]);
    assert_eq!(FieldPath::new("x.y").first(), "x");
}

#[test]
fn planner_scans_the_table() {
    let q = BqlQuery::all("tasks").limit(3).order("priority", OrderDir::Asc);
    let plan = QueryPlanner::plan(&q, 12);
    assert_eq!(plan.entity_type, "tasks");
    assert_eq!(plan.estimated_cost, 12);
    assert_eq!(plan.strategy, ScanStrategy::TableScan);
    assert_eq!(q.limit, Some(3));
}
