use qfs::gmail::query::{build_query, lower, quote_term, PushdownResult};
use qfs::plan::NodeId;
use qfs::text;
use qfs::txn::{EffectError, EffectReceipt, LegOutcome, Version};
use qfs::types::predicate::{CmpOp, ColRef, Literal, Pattern, Predicate};
use qfs::types::schema::{Column, ColumnType, Schema};
use qfs::types::value::{Row, RowBatch, Value};

// ---- text ------------------------------------------------------------------------------------

#[test]
fn white_space_is_that_of_the_standard_library() {
    for c in '\0'..=char::MAX {
        assert_eq!(text::white_space(c), c.is_whitespace(), "{c:?}");
    }
}

const SAMPLES: [&str; 10] = [
    "",
    " ",
    "abc",
    "  a b \t",
    "Émile É",
    "\u{2003}x\u{3000}\n",
    "//a//b//",
    "QFS_GIT_X",
    "\r\n\r",
    "\u{1f600}\u{10ffff}z",
];

#[test]
fn text_functions_agree_with_the_standard_library() {
    for a in SAMPLES {
        assert_eq!(text::trim(a), a.trim());
        assert_eq!(text::trim_end(a), a.trim_end());
        assert_eq!(text::chomp(a), a.trim_end_matches(['\n', '\r']));
        assert_eq!(text::trim_slashes(a), a.trim_matches('/'));
        assert_eq!(text::lower_case(a), a.to_ascii_lowercase());
        assert_eq!(text::chars_of(a), a.chars().collect::<Vec<char>>());
        assert_eq!(text::utf8_of(a), a.as_bytes());
        for b in SAMPLES {
            assert_eq!(text::same(a, b), a == b);
            assert_eq!(text::same_ignoring_case(a, b), a.eq_ignore_ascii_case(b));
            assert_eq!(text::before(a, b), a < b, "{a:?} {b:?}");
            assert_eq!(text::starts_with(a, b), a.starts_with(b));
            assert_eq!(text::ends_with(a, b), a.ends_with(b));
            assert_eq!(text::strip_prefix(a, b).as_deref(), a.strip_prefix(b));
            let parts = vec![a.to_string(), b.to_string(), a.to_string()];
            assert_eq!(text::join(&parts, ", "), parts.join(", "));
        }
    }
}

#[test]
fn numbers_are_written_in_decimal() {
    for n in [0, 9, 10, 99, 100, u64::MAX] {
        assert_eq!(text::decimal(n), n.to_string());
    }
    for n in [0, -1, 1, i64::MIN, i64::MAX] {
        assert_eq!(text::signed_decimal(n), n.to_string());
    }
}

// ---- values ----------------------------------------------------------------------------------

fn column(name: &str, ty: ColumnType, nullable: bool) -> Column {
    Column::new(name.to_string(), ty, nullable)
}

#[test]
fn every_value_has_its_type() {
    assert_eq!(Value::Null.type_of(), ColumnType::Unknown);
    assert_eq!(Value::Bool(true).type_of(), ColumnType::Bool);
    assert_eq!(Value::Int(1).type_of(), ColumnType::Int);
    assert_eq!(Value::Float(0).type_of(), ColumnType::Float);
    assert_eq!(Value::Text(String::new()).type_of(), ColumnType::Text);
    assert_eq!(Value::Bytes(Vec::new()).type_of(), ColumnType::Bytes);
    assert_eq!(Value::Timestamp(0).type_of(), ColumnType::Timestamp);
    assert_eq!(Value::Json(serde_json::Value::Null).type_of(), ColumnType::Json);
    assert_eq!(
        Value::Array(Vec::new()).type_of(),
        ColumnType::Array(Box::new(ColumnType::Unknown))
    );
    assert_eq!(
        Value::Array(vec![Value::Int(1), Value::Null]).type_of(),
        ColumnType::Array(Box::new(ColumnType::Int))
    );
    let record = Value::Struct(Row::new(vec![Value::Int(1), Value::Null]));
    assert_eq!(
        record.type_of(),
        ColumnType::Struct(Schema::new(vec![
            column("0", ColumnType::Int, false),
            column("1", ColumnType::Unknown, true),
        ]))
    );
    assert!(record.conforms_to(&record.type_of(), false));
}

#[test]
fn values_conform_to_the_types_that_hold_them() {
    assert!(Value::Null.conforms_to(&ColumnType::Int, true));
    assert!(!Value::Null.conforms_to(&ColumnType::Json, false));
    assert!(Value::Int(1).conforms_to(&ColumnType::Date, false));
    assert!(Value::Int(1).conforms_to(&ColumnType::Timestamp, false));
    assert!(Value::Timestamp(1).conforms_to(&ColumnType::Int, false));
    assert!(!Value::Timestamp(1).conforms_to(&ColumnType::Date, false));
    assert!(Value::Text("1".to_string()).conforms_to(&ColumnType::Decimal, false));
    assert!(Value::Text("u".to_string()).conforms_to(&ColumnType::Uuid, false));
    assert!(!Value::Text("1".to_string()).conforms_to(&ColumnType::Int, false));
    assert!(Value::Bool(true).conforms_to(&ColumnType::Unknown, false));
    let ints = ColumnType::Array(Box::new(ColumnType::Int));
    assert!(Value::Array(vec![Value::Int(1), Value::Null]).conforms_to(&ints, false));
    assert!(!Value::Array(vec![Value::Bool(true)]).conforms_to(&ints, false));
}

#[test]
fn a_batch_conforms_when_every_row_does() {
    let schema =
        || Schema::new(vec![column("a", ColumnType::Int, false), column("b", ColumnType::Text, true)]);
    let good = || Row::new(vec![Value::Int(1), Value::Null]);
    assert!(RowBatch::new(schema(), vec![good(), good()]).is_conformant());
    assert!(!RowBatch::new(schema(), vec![good(), Row::new(vec![Value::Int(1)])]).is_conformant());
    assert!(!RowBatch::new(schema(), vec![Row::new(vec![Value::Null, Value::Null])]).is_conformant());
    assert!(RowBatch::default().is_conformant());
    assert_eq!(schema().clone(), schema());
}

// ---- effects ---------------------------------------------------------------------------------

#[test]
fn leg_outcomes_have_stable_codes() {
    let receipt = EffectReceipt::new(NodeId(3), 2).with_version(Version("v2".to_string()));
    assert_eq!(receipt.new_version, Some(Version("v2".to_string())));
    assert_eq!((receipt.id, receipt.affected), (NodeId(3), 2));
    for (outcome, code, ok) in [
        (LegOutcome::Applied(receipt), "applied", true),
        (LegOutcome::AlreadyApplied, "already_applied", true),
        (LegOutcome::Conflict(Version("x".to_string())), "conflict", false),
        (LegOutcome::Failed(EffectError::terminal("t".to_string())), "failed", false),
    ] {
        assert_eq!(outcome.code(), code);
        assert_eq!(outcome.is_success(), ok);
    }
}

#[test]
fn effect_errors_tell_whether_to_try_again() {
    let retry = EffectError::retryable("503".to_string());
    assert!(retry.is_retryable());
    assert_eq!(retry.code(), "retryable");
    assert_eq!(retry.message(), "retryable effect failure: 503");
    let terminal = EffectError::terminal("404".to_string());
    assert!(!terminal.is_retryable());
    assert_eq!(terminal.code(), "terminal");
    assert_eq!(terminal.message(), "terminal effect failure: 404");
}

// ---- searches --------------------------------------------------------------------------------

fn col(name: &str) -> ColRef {
    ColRef { path: vec![name.to_string()] }
}

fn compare(name: &str, op: CmpOp, lit: Literal) -> Predicate {
    Predicate::Cmp(col(name), op, lit)
}

fn textual(s: &str) -> Literal {
    Literal::Text(s.to_string())
}

fn pushed(p: &Predicate) -> (String, Option<Predicate>) {
    let r = build_query(None, Some(p));
    (r.query, r.residual)
}

#[test]
fn what_the_service_can_search_is_pushed_down() {
    for (p, query) in [
        (compare("from", CmpOp::Eq, textual("x@y")), "from:x@y"),
        (compare("to", CmpOp::Match, textual("x@y")), "to:x@y"),
        (compare("subject", CmpOp::Eq, textual("two words")), "subject:\"two words\""),
        (Predicate::Like(col("subject"), Pattern("hello".to_string())), "subject:hello"),
        (compare("label", CmpOp::Eq, textual("INBOX")), "label:INBOX"),
        (compare("is_unread", CmpOp::Eq, Literal::Bool(true)), "is:unread"),
        (compare("is_unread", CmpOp::Eq, Literal::Bool(false)), "is:read"),
        (compare("date", CmpOp::Ge, Literal::Int(1_700_000_000_000)), "after:1700000000"),
        (compare("date", CmpOp::Lt, Literal::Int(1_700_000_000_000)), "before:1700000000"),
        (compare("date", CmpOp::Le, Literal::Int(-1_001)), "before:-1"),
    ] {
        assert_eq!(pushed(&p), (query.to_string(), None));
    }
}

#[test]
fn a_date_between_two_seconds_is_searched_and_left() {
    for (op, ms, query) in [
        (CmpOp::Le, 1_500, "before:2"),
        (CmpOp::Le, 1_000, "before:2"),
        (CmpOp::Lt, 1_500, "before:2"),
        (CmpOp::Lt, -1_500, "before:-1"),
        (CmpOp::Gt, 1_000, "after:1"),
        (CmpOp::Gt, 1_700_000_000_999, "after:1700000000"),
        (CmpOp::Ge, 1_500, "after:1"),
        (CmpOp::Ge, -1_500, "after:-2"),
        (CmpOp::Gt, i64::MIN, "after:-9223372036854776"),
        (CmpOp::Lt, i64::MIN, "before:-9223372036854775"),
        (CmpOp::Le, i64::MAX, "before:9223372036854776"),
    ] {
        let p = compare("date", op, Literal::Int(ms));
        assert_eq!(pushed(&p), (query.to_string(), Some(p.clone())));
    }
}

#[test]
fn lowering_appends_to_the_terms() {
    let left = compare("from", CmpOp::Eq, textual("x"));
    let right = compare("date", CmpOp::Le, Literal::Int(1_500));
    let both = Predicate::And(Box::new(left), Box::new(right.clone()));
    let mut terms = vec!["label:INBOX".to_string()];
    assert_eq!(lower(&both, &mut terms), Some(right));
    assert_eq!(terms, ["label:INBOX", "from:x", "before:2"]);
}

#[test]
fn what_it_cannot_search_is_left() {
    for p in [
        compare("from", CmpOp::Ne, textual("x")),
        compare("label", CmpOp::Match, textual("x")),
        compare("size", CmpOp::Eq, Literal::Int(1)),
        compare("date", CmpOp::Eq, Literal::Int(1)),
        compare("from", CmpOp::Eq, Literal::Null),
        Predicate::Like(col("label"), Pattern("x".to_string())),
        Predicate::Not(Box::new(compare("from", CmpOp::Eq, textual("x")))),
        Predicate::Or(
            Box::new(compare("from", CmpOp::Eq, textual("x"))),
            Box::new(compare("to", CmpOp::Eq, textual("y"))),
        ),
        Predicate::In(col("from"), vec![textual("x")]),
        Predicate::Between(col("date"), Literal::Int(1), Literal::Int(2)),
        Predicate::Cmp(
            ColRef { path: vec!["from".to_string(), "name".to_string()] },
            CmpOp::Eq,
            textual("x"),
        ),
    ] {
        assert_eq!(pushed(&p), (String::new(), Some(p.clone())));
    }
}

#[test]
fn a_conjunction_is_pushed_part_by_part() {
    let from = compare("from", CmpOp::Eq, textual("x"));
    let size = compare("size", CmpOp::Gt, Literal::Int(9));
    let unread = compare("is_unread", CmpOp::Eq, Literal::Bool(true));
    let p = Predicate::And(
        Box::new(Predicate::And(Box::new(from), Box::new(size.clone()))),
        Box::new(unread),
    );
    let r = build_query(Some("my label"), Some(&p));
    assert_eq!(r.query, "label:\"my label\" from:x is:unread");
    assert_eq!(r.residual, Some(size));
    assert_eq!(build_query(None, None), PushdownResult::default());
    assert_eq!(build_query(Some("INBOX"), None).query, "label:INBOX");
}

#[test]
fn terms_are_quoted_where_they_hold_white_space() {
    assert_eq!(quote_term("plain\"q"), "plain\"q");
    assert_eq!(quote_term("a \"b\""), "\"a b\"");
    assert_eq!(quote_term("\u{3000}"), "\"\u{3000}\"");
}
