//! The grammar, held against the same grammar written with the combinators of `winnow`.
use qfs::parser::grammar::peek_word;
use qfs::parser::{parse, CmpOp, Expr, Literal, ParseErrorCode, Path, PipeOp, Stmt};
use winnow::ascii::{digit1, multispace0};
use winnow::combinator::{alt, cut_err, delimited, eof, preceded, repeat, separated, terminated};
use winnow::error::{ContextError, ErrMode};
use winnow::token::take_while;
use winnow::{ModalResult, Parser};

type Stream<'a> = &'a str;
type Failure = ErrMode<ContextError>;

fn ws<'a, O, P>(inner: P) -> impl Parser<Stream<'a>, O, Failure>
where
    P: Parser<Stream<'a>, O, Failure>,
{
    delimited(multispace0, inner, multispace0)
}

fn ident(input: &mut Stream<'_>) -> ModalResult<String> {
    take_while(1.., |c: char| c.is_ascii_alphanumeric() || c == '_')
        .map(|s: &str| s.to_string())
        .parse_next(input)
}

fn path(input: &mut Stream<'_>) -> ModalResult<Path> {
    separated(1.., ident, '.').map(Path).parse_next(input)
}

fn operator(input: &mut Stream<'_>) -> ModalResult<CmpOp> {
    alt((
        "<=".value(CmpOp::Le),
        ">=".value(CmpOp::Ge),
        "<>".value(CmpOp::Ne),
        "=".value(CmpOp::Eq),
        "<".value(CmpOp::Lt),
        ">".value(CmpOp::Gt),
        "LIKE".value(CmpOp::Like),
    ))
    .parse_next(input)
}

fn literal(input: &mut Stream<'_>) -> ModalResult<Literal> {
    alt((
        delimited('\'', take_while(0.., |c: char| c != '\''), '\'')
            .map(|s: &str| Literal::Str(s.to_string())),
        digit1.parse_to().map(Literal::Int),
    ))
    .parse_next(input)
}

fn comparison(input: &mut Stream<'_>) -> ModalResult<Expr> {
    (ws(path), ws(operator), ws(literal))
        .map(|(lhs, op, rhs)| Expr::Cmp { lhs, op, rhs })
        .parse_next(input)
}

fn expression(input: &mut Stream<'_>) -> ModalResult<Expr> {
    let first = comparison(input)?;
    let rest: Vec<Expr> = repeat(0.., preceded(ws("AND"), comparison)).parse_next(input)?;
    Ok(rest
        .into_iter()
        .fold(first, |acc, next| Expr::And(Box::new(acc), Box::new(next))))
}

fn filter(input: &mut Stream<'_>) -> ModalResult<PipeOp> {
    preceded(ws("WHERE"), cut_err(expression)).map(PipeOp::Where).parse_next(input)
}

fn projection(input: &mut Stream<'_>) -> ModalResult<PipeOp> {
    preceded(ws("SELECT"), cut_err(separated(1.., ws(path), ',')))
        .map(PipeOp::Select)
        .parse_next(input)
}

fn operation(input: &mut Stream<'_>) -> ModalResult<PipeOp> {
    alt((filter, projection)).parse_next(input)
}

fn statement(input: &mut Stream<'_>) -> ModalResult<Stmt> {
    let from = preceded(ws("FROM"), cut_err(ws(path))).parse_next(input)?;
    let ops: Vec<PipeOp> = repeat(0.., preceded(ws("|>"), cut_err(operation))).parse_next(input)?;
    terminated(multispace0, eof).parse_next(input)?;
    Ok(Stmt { from, ops })
}

fn word(s: &str) -> &str {
    let end = s.find(|c: char| c.is_whitespace()).unwrap_or(s.len());
    s.get(..end.min(16)).unwrap_or(s)
}

const KEYWORDS: [&str; 48] = [
    "FROM", "WHERE", "SELECT", "AS", "EXTEND", "JOIN", "ON", "AGGREGATE", "GROUP", "ORDER",
    "BY", "DESC", "LIMIT", "DISTINCT", "UNION", "EXCEPT", "INTERSECT", "INSERT", "UPSERT",
    "INTO", "VALUES", "UPDATE", "REMOVE", "CALL", "DECODE", "ENCODE", "CREATE", "POLICY",
    "ALLOW", "TRIGGER", "DO", "CONNECTION", "DRIVER", "AT", "SECRET", "PREVIEW", "COMMIT",
    "AND", "OR", "NOT", "LIKE", "IN", "BETWEEN",
    "JOB", "EVERY", "CONNECT", "DISCONNECT", "DESCRIBE",
];

fn expected_outcome(input: &str) -> Result<Stmt, String> {
    statement.parse(input).map_err(|e| {
        let at = e.offset();
        let rest = input.get(at..).unwrap_or("");
        if rest.is_empty() {
            return format!(
                "[UNEXPECTED_EOF] at byte {at} | expected: more input | unexpected end of input"
            );
        }
        if rest.chars().next().is_some_and(|c| c.is_ascii_lowercase()) {
            return format!(
                "[UNKNOWN_KEYWORD] at byte {at} | expected: UPPERCASE keyword | expected UPPERCASE keyword, found `{}`",
                word(rest)
            );
        }
        let first: String =
            rest.chars().take_while(|c| c.is_ascii_alphanumeric() || *c == '_').collect();
        let unknown = rest.starts_with(|c: char| c.is_ascii_uppercase())
            && !KEYWORDS.contains(&first.as_str());
        let code = if unknown { "UNKNOWN_KEYWORD" } else { "UNEXPECTED_TOKEN" };
        format!(
            "[{code}] at byte {at} | expected: FROM, |>, WHERE, SELECT, AND, a path | unexpected token near `{}`",
            word(rest)
        )
    })
}

fn check(input: &str) {
    let got = parse(input).map_err(|e| e.to_line());
    assert_eq!(got, expected_outcome(input), "input {input:?}");
}

#[test]
fn statements_and_errors_agree_with_the_combinators() {
    for input in [
        "",
        " ",
        "FROM",
        "FROM ",
        "from mail",
        "FROM mail.inbox",
        "FROMmail",
        " FROM mail . inbox",
        "FROM mail.",
        "FROM mail.inbox |>",
        "FROM mail.inbox |> where a = 1",
        "FROM mail.inbox |> WHERE a = 1",
        "FROM mail.inbox |> WHERE a=1 AND b LIKE 'x y' AND c.d <> 'é'",
        "FROM m |> WHERE a <= 9223372036854775807",
        "FROM m |> WHERE a <= 9223372036854775808",
        "FROM m |> WHERE a = 'open",
        "FROM m |> WHERE a == 1",
        "FROM m |> WHERE a = 1 AND",
        "FROM m |> WHERE a = 1 and b = 2",
        "FROM m |> SELECT a",
        "FROM m |> SELECT a, b.c ,d",
        "FROM m |> SELECT a,",
        "FROM m |> SELECT",
        "FROM m |> SELECT a |> WHERE b > 1 |> SELECT c",
        "FROM m SELECT",
        "FROM m |> DROP x",
        "FROM \u{e9}",
        "FROM m |> WHERE \u{e9} = 1",
        "FROM m |> averyverylongkeywordindeed x",
        "FROM m |> Averyverylongkeywordind\u{e9}ed",
        "FROM m |> Averyverylongke\u{e9}\u{e9}\u{e9}",
        "FROM m\u{a0}",
        "FROM m\u{b}",
        "FROM m |> WHERE a < > 1",
        "FROM m |> WHERE a LIKEb 1",
        "FROM m |> WHERE a LIKE'b'",
        "FROM m |>WHEREa='b'ANDc='d'",
        "FROM 1.2",
        "FROM m; x",
    ] {
        check(input);
    }
}

#[test]
fn token_soup_agrees_with_the_combinators() {
    let tokens = [
        "FROM ", "from", " ", "\t", "\r\n", "mail", ".", "inbox", "|>", "WHERE", "SELECT ", "AND", "LIKE",
        "<=", ">=", "<>", "=", "<", ">", "'x'", "'", "'a b'", "12", "99999999999999999999", ",", "é",
        "_a1", "\u{2028}", "\u{85}", "a", "b = 1", " WHERE a = 1", " SELECT a", " AND b = 'x'",
    ];
    let mut state: u64 = 0x9e37_79b9_7f4a_7c15;
    let mut next = move |n: usize| {
        state ^= state << 13;
        state ^= state >> 7;
        state ^= state << 17;
        (state >> 11) as usize % n
    };
    for round in 0..20_000 {
        let mut input = String::new();
        if round % 4 != 0 {
            input.push_str("FROM mail");
        }
        if round % 4 == 2 {
            input.push_str(" |> WHERE a = 1 ");
        }
        if round % 4 == 3 {
            input.push_str(" |> SELECT a ");
        }
        for _ in 0..next(9) {
            input.push_str(tokens[next(tokens.len())]);
        }
        check(&input);
    }
}

#[test]
fn a_statement_is_read_into_its_parts() {
    let path = |segments: &[&str]| Path(segments.iter().map(|s| s.to_string()).collect());
    let stmt = parse("FROM mail.inbox |> WHERE a = 'x' AND b >= 2 |> SELECT a, c.d").unwrap();
    assert_eq!(
        stmt,
        Stmt {
            from: path(&["mail", "inbox"]),
            ops: vec![
                PipeOp::Where(Expr::And(
                    Box::new(Expr::Cmp {
                        lhs: path(&["a"]),
                        op: CmpOp::Eq,
                        rhs: Literal::Str("x".to_string()),
                    }),
                    Box::new(Expr::Cmp { lhs: path(&["b"]), op: CmpOp::Ge, rhs: Literal::Int(2) }),
                )),
                PipeOp::Select(vec![path(&["a"]), path(&["c", "d"])]),
            ],
        }
    );
}

#[test]
fn errors_carry_the_offset_and_the_code() {
    let eof = parse("FROM ").unwrap_err();
    assert_eq!((eof.at, eof.code), (5, ParseErrorCode::UnexpectedEof));
    assert_eq!(eof.code.as_str(), "UNEXPECTED_EOF");
    let lower = parse("from x").unwrap_err();
    assert_eq!((lower.at, lower.code), (0, ParseErrorCode::UnknownKeyword));
    assert_eq!(lower.message, "expected UPPERCASE keyword, found `from`");
    let verb = parse("FROBNICATE mail").unwrap_err();
    assert_eq!((verb.at, verb.code), (0, ParseErrorCode::UnknownKeyword));
    assert_eq!(verb.message, "unexpected token near `FROBNICATE`");
    let stage = parse("FROM mail |> DROP x").unwrap_err();
    assert_eq!((stage.at, stage.code), (13, ParseErrorCode::UnknownKeyword));
    let misplaced = parse("SELECT mail").unwrap_err();
    assert_eq!((misplaced.at, misplaced.code), (0, ParseErrorCode::UnexpectedToken));
    let token = parse("FROM x !").unwrap_err();
    assert_eq!((token.at, token.code), (7, ParseErrorCode::UnexpectedToken));
    assert_eq!(token.expected.len(), 6);
}

#[test]
fn a_peeked_word_is_at_most_sixteen_bytes() {
    for s in ["", "abc def", "abcdefghijklmnopqrst", "abcdefghijklmno\u{e9}\u{e9}", "\u{2003}x", "a\u{2003}x"] {
        assert_eq!(peek_word(s), word(s), "{s:?}");
    }
}
