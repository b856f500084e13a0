//! The grammar, read off the characters of the input.
//!
//! ```text
//! statement  = "FROM" path { "|>" operation }
//! operation  = "WHERE" expression | "SELECT" path { "," path }
//! expression = comparison { "AND" comparison }
//! comparison = path operator literal
//! path       = word { "." word }
//! literal    = "'" any but "'" "'" | digits
//! ```
//!
//! Blanks (space, tab, carriage return, line feed) may stand around every token but the dots
//! of a path. Each function below the line reads from an index and answers with what it read and
//! the index behind it, or with the index at which reading failed.
use crate::parser::ast::{
    op_views, path_views, CmpOp, Expr, ExprView, Literal, LiteralView, Path, PipeOp, PipeOpView,
    Stmt, StmtView,
};
use crate::parser::error::{ParseError, ParseErrorCode, ParseErrorView};
use crate::text::{
    at, byte_len, bytes_between, chars_of, is_white_space, same, stands_at, string_of, views,
    white_space,
};
use vstd::prelude::*;

verus! {

/// A blank: a character that may stand between tokens.
pub open spec fn is_blank(c: char) -> bool {
    c == ' ' || c == '\t' || c == '\r' || c == '\n'
}

/// A character of a word.
pub open spec fn is_word_char(c: char) -> bool {
    'a' <= c <= 'z' || 'A' <= c <= 'Z' || '0' <= c <= '9' || c == '_'
}

/// A decimal digit.
pub open spec fn is_digit(c: char) -> bool {
    '0' <= c <= '9'
}

/// The index behind the blanks at `i`.
pub open spec fn blanks_end(s: Seq<char>, i: int) -> int
    decreases s.len() - i,
{
    if 0 <= i < s.len() && is_blank(s[i]) {
        blanks_end(s, i + 1)
    } else {
        i
    }
}

/// The index behind the word at `i`.
pub open spec fn word_end(s: Seq<char>, i: int) -> int
    decreases s.len() - i,
{
    if 0 <= i < s.len() && is_word_char(s[i]) {
        word_end(s, i + 1)
    } else {
        i
    }
}

/// The index behind the digits at `i`.
pub open spec fn digits_end(s: Seq<char>, i: int) -> int
    decreases s.len() - i,
{
    if 0 <= i < s.len() && is_digit(s[i]) {
        digits_end(s, i + 1)
    } else {
        i
    }
}

/// The index of the first quote at or behind `i`, or the end of the input.
pub open spec fn quote_at(s: Seq<char>, i: int) -> int
    decreases s.len() - i,
{
    if 0 <= i < s.len() && s[i] != '\'' {
        quote_at(s, i + 1)
    } else {
        i
    }
}

/// The number that the digits denote.
pub open spec fn digits_value(s: Seq<char>) -> nat
    decreases s.len(),
{
    if s.len() == 0 {
        0
    } else {
        digits_value(s.drop_last()) * 10 + (s.last() as u32 - '0' as u32) as nat
    }
}

/// The segments of a path that goes on at `i` behind the segments `acc`.
pub open spec fn segments_from(s: Seq<char>, i: int, acc: Seq<Seq<char>>) -> (Seq<Seq<char>>, int)
    decreases s.len() - i,
{
    let e = word_end(s, i + 1);
    if 0 <= i < s.len() && s[i] == '.' && i + 1 < e <= s.len() {
        segments_from(s, e, acc.push(s.subrange(i + 1, e)))
    } else {
        (acc, i)
    }
}

/// The path at `i`.
pub open spec fn path_at(s: Seq<char>, i: int) -> Result<(Seq<Seq<char>>, int), int> {
    let e = word_end(s, i);
    if e > i {
        Ok(segments_from(s, e, seq![s.subrange(i, e)]))
    } else {
        Err(i)
    }
}

/// The path at `i`, with the blanks around it.
pub open spec fn spaced_path_at(s: Seq<char>, i: int) -> Result<(Seq<Seq<char>>, int), int> {
    match path_at(s, blanks_end(s, i)) {
        Ok((p, j)) => Ok((p, blanks_end(s, j))),
        Err(j) => Err(j),
    }
}

/// The operator at `i`. The longer of two that fit is taken.
pub open spec fn operator_at(s: Seq<char>, i: int) -> Result<(CmpOp, int), int> {
    if stands_at(s, i, "<="@) {
        Ok((CmpOp::Le, i + 2))
    } else if stands_at(s, i, ">="@) {
        Ok((CmpOp::Ge, i + 2))
    } else if stands_at(s, i, "<>"@) {
        Ok((CmpOp::Ne, i + 2))
    } else if stands_at(s, i, "="@) {
        Ok((CmpOp::Eq, i + 1))
    } else if stands_at(s, i, "<"@) {
        Ok((CmpOp::Lt, i + 1))
    } else if stands_at(s, i, ">"@) {
        Ok((CmpOp::Gt, i + 1))
    } else if stands_at(s, i, "LIKE"@) {
        Ok((CmpOp::Like, i + 4))
    } else {
        Err(i)
    }
}

/// The literal at `i`: a quoted string, or digits whose number an `i64` holds.
pub open spec fn literal_at(s: Seq<char>, i: int) -> Result<(LiteralView, int), int> {
    if 0 <= i < s.len() && s[i] == '\'' {
        let q = quote_at(s, i + 1);
        if q < s.len() {
            Ok((LiteralView::Str(s.subrange(i + 1, q)), q + 1))
        } else {
            Err(i)
        }
    } else {
        let e = digits_end(s, i);
        if e > i && digits_value(s.subrange(i, e)) <= i64::MAX {
            Ok((LiteralView::Int(digits_value(s.subrange(i, e)) as int), e))
        } else {
            Err(i)
        }
    }
}

/// The comparison at `i`, with the blanks around it.
pub open spec fn comparison_at(s: Seq<char>, i: int) -> Result<(ExprView, int), int> {
    match spaced_path_at(s, i) {
        Err(j) => Err(j),
        Ok((lhs, j)) => match operator_at(s, j) {
            Err(k) => Err(k),
            Ok((op, k)) => match literal_at(s, blanks_end(s, k)) {
                Err(l) => Err(l),
                Ok((rhs, l)) => Ok((ExprView::Cmp { lhs, op, rhs }, blanks_end(s, l))),
            },
        },
    }
}

/// The expression that goes on at `i` behind `acc`. An `AND` that no comparison follows is left
/// unread.
pub open spec fn chain_from(s: Seq<char>, i: int, acc: ExprView) -> (ExprView, int)
    decreases s.len() - i,
{
    if stands_at(s, i, "AND"@) {
        match comparison_at(s, i + 3) {
            Ok((next, j)) => if i < j <= s.len() {
                chain_from(s, j, ExprView::And(Box::new(acc), Box::new(next)))
            } else {
                (acc, i)
            },
            Err(_) => (acc, i),
        }
    } else {
        (acc, i)
    }
}

/// The expression at `i`.
pub open spec fn expression_at(s: Seq<char>, i: int) -> Result<(ExprView, int), int> {
    match comparison_at(s, i) {
        Err(j) => Err(j),
        Ok((first, j)) => Ok(chain_from(s, j, first)),
    }
}

/// The list of paths that goes on at `i` behind `acc`. A comma that no path follows is left
/// unread.
pub open spec fn list_from(s: Seq<char>, i: int, acc: Seq<Seq<Seq<char>>>) -> (
    Seq<Seq<Seq<char>>>,
    int,
)
    decreases s.len() - i,
{
    if 0 <= i < s.len() && s[i] == ',' {
        match spaced_path_at(s, i + 1) {
            Ok((p, j)) => if i < j <= s.len() {
                list_from(s, j, acc.push(p))
            } else {
                (acc, i)
            },
            Err(_) => (acc, i),
        }
    } else {
        (acc, i)
    }
}

/// The operation at `i`, where no blank stands.
pub open spec fn operation_at(s: Seq<char>, i: int) -> Result<(PipeOpView, int), int> {
    if stands_at(s, i, "WHERE"@) {
        match expression_at(s, i + 5) {
            Ok((e, j)) => Ok((PipeOpView::Where(e), j)),
            Err(j) => Err(j),
        }
    } else if stands_at(s, i, "SELECT"@) {
        match spaced_path_at(s, i + 6) {
            Ok((p, j)) => {
                let (paths, k) = list_from(s, j, seq![p]);
                Ok((PipeOpView::Select(paths), k))
            },
            Err(j) => Err(j),
        }
    } else {
        Err(i)
    }
}

/// The operations that go on at `i` behind `acc`. Behind a `|>` an operation must follow.
pub open spec fn operations_from(s: Seq<char>, i: int, acc: Seq<PipeOpView>) -> Result<
    (Seq<PipeOpView>, int),
    int,
>
    decreases s.len() - i,
{
    if stands_at(s, i, "|>"@) {
        match operation_at(s, blanks_end(s, i + 2)) {
            Ok((op, j)) => if i < j <= s.len() {
                operations_from(s, j, acc.push(op))
            } else {
                Ok((acc, i))
            },
            Err(j) => Err(j),
        }
    } else {
        Ok((acc, i))
    }
}

/// The statement that the whole of `s` spells, or the index at which reading it fails.
pub open spec fn statement_of(s: Seq<char>) -> Result<StmtView, int> {
    let i = blanks_end(s, 0);
    if stands_at(s, i, "FROM"@) {
        match spaced_path_at(s, i + 4) {
            Err(j) => Err(j),
            Ok((from, j)) => match operations_from(s, j, Seq::empty()) {
                Err(k) => Err(k),
                Ok((ops, k)) => if k == s.len() {
                    Ok(StmtView { from, ops })
                } else {
                    Err(k)
                },
            },
        }
    } else {
        Err(i)
    }
}

/// The index of the first white space in `s`, from `i` on, or the end.
pub open spec fn space_at(s: Seq<char>, i: int) -> int
    decreases s.len() - i,
{
    if 0 <= i < s.len() && !is_white_space(s[i]) {
        space_at(s, i + 1)
    } else {
        i
    }
}

/// How many characters of `s`, at least `k`, take exactly `n` bytes.
pub open spec fn chars_in_bytes(s: Seq<char>, n: nat, k: int) -> Option<int>
    decreases s.len() - k,
{
    if byte_len(s.take(k)) == n {
        Some(k)
    } else if byte_len(s.take(k)) > n || k >= s.len() {
        None
    } else {
        chars_in_bytes(s, n, k + 1)
    }
}

/// The text that a message shows for the input at `s`: its first word, or the first 16 bytes of
/// a longer one. Where no character ends at byte 16, the whole input is shown.
pub open spec fn peeked(s: Seq<char>) -> Seq<char> {
    let w = s.take(space_at(s, 0));
    if byte_len(w) <= 16 {
        w
    } else {
        match chars_in_bytes(s, 16, 0) {
            Some(k) => s.take(k),
            None => s,
        }
    }
}

/// The tokens that a message lists as expected.
pub open spec fn all_tokens() -> Seq<Seq<char>> {
    seq!["FROM"@, "|>"@, "WHERE"@, "SELECT"@, "AND"@, "a path"@]
}

/// A keyword of the language. The vocabulary is closed; this grammar reads a part of it.
pub open spec fn is_keyword(w: Seq<char>) -> bool {
    w == "FROM"@ || w == "WHERE"@ || w == "SELECT"@ || w == "AS"@ || w == "EXTEND"@
        || w == "JOIN"@ || w == "ON"@ || w == "AGGREGATE"@ || w == "GROUP"@ || w == "ORDER"@
        || w == "BY"@ || w == "DESC"@ || w == "LIMIT"@ || w == "DISTINCT"@ || w == "UNION"@
        || w == "EXCEPT"@ || w == "INTERSECT"@ || w == "INSERT"@ || w == "UPSERT"@ || w == "INTO"@
        || w == "VALUES"@ || w == "UPDATE"@ || w == "REMOVE"@ || w == "CALL"@ || w == "DECODE"@
        || w == "ENCODE"@ || w == "CREATE"@ || w == "POLICY"@ || w == "ALLOW"@ || w == "TRIGGER"@
        || w == "DO"@ || w == "CONNECTION"@ || w == "DRIVER"@ || w == "AT"@ || w == "SECRET"@
        || w == "PREVIEW"@ || w == "COMMIT"@ || w == "AND"@ || w == "OR"@ || w == "NOT"@
        || w == "LIKE"@ || w == "IN"@ || w == "BETWEEN"@ || w == "JOB"@ || w == "EVERY"@
        || w == "CONNECT"@ || w == "DISCONNECT"@ || w == "DESCRIBE"@
}

/// Whether a word in the shape of a keyword, that is one with a letter in front, stands at `i`
/// that is no keyword of the language.
pub open spec fn unknown_keyword_at(s: Seq<char>, i: int) -> bool {
    0 <= i < s.len() && ('a' <= s[i] <= 'z' || 'A' <= s[i] <= 'Z') && !is_keyword(
        s.subrange(i, word_end(s, i)),
    )
}

/// The error for an input in which reading fails at index `i`.
pub open spec fn error_at(s: Seq<char>, i: int) -> ParseErrorView {
    let at = byte_len(s.take(i)) as int;
    let rest = s.subrange(i, s.len() as int);
    if i == s.len() {
        ParseErrorView {
            at,
            code: ParseErrorCode::UnexpectedEof,
            expected: seq!["more input"@],
            message: "unexpected end of input"@,
        }
    } else if 'a' <= s[i] <= 'z' {
        ParseErrorView {
            at,
            code: ParseErrorCode::UnknownKeyword,
            expected: seq!["UPPERCASE keyword"@],
            message: "expected UPPERCASE keyword, found `"@ + peeked(rest) + "`"@,
        }
    } else {
        ParseErrorView {
            at,
            code: if unknown_keyword_at(s, i) {
                ParseErrorCode::UnknownKeyword
            } else {
                ParseErrorCode::UnexpectedToken
            },
            expected: all_tokens(),
            message: "unexpected token near `"@ + peeked(rest) + "`"@,
        }
    }
}

/// What parsing the text `s` gives.
pub open spec fn parsed(s: Seq<char>) -> Result<StmtView, ParseErrorView> {
    match statement_of(s) {
        Ok(t) => Ok(t),
        Err(i) => Err(error_at(s, i)),
    }
}

// ---- runs of characters ---------------------------------------------------------------------

fn skip_blanks(v: &Vec<char>, i: usize) -> (j: usize)
    requires
        i <= v.len(),
    ensures
        j == blanks_end(v@, i as int),
        i <= j <= v.len(),
{
    let mut j: usize = i;
    while j < v.len() && (v[j] == ' ' || v[j] == '\t' || v[j] == '\r' || v[j] == '\n')
        invariant
            i <= j <= v.len(),
            blanks_end(v@, j as int) == blanks_end(v@, i as int),
        decreases v.len() - j,
    {
        j = j + 1;
    }
    j
}

fn word_char(c: char) -> (r: bool)
    ensures
        r == is_word_char(c),
{
    ('a' <= c && c <= 'z') || ('A' <= c && c <= 'Z') || ('0' <= c && c <= '9') || c == '_'
}

fn skip_word(v: &Vec<char>, i: usize) -> (j: usize)
    requires
        i <= v.len(),
    ensures
        j == word_end(v@, i as int),
        i <= j <= v.len(),
{
    let mut j: usize = i;
    while j < v.len() && word_char(v[j])
        invariant
            i <= j <= v.len(),
            word_end(v@, j as int) == word_end(v@, i as int),
        decreases v.len() - j,
    {
        j = j + 1;
    }
    j
}

fn skip_digits(v: &Vec<char>, i: usize) -> (j: usize)
    requires
        i <= v.len(),
    ensures
        j == digits_end(v@, i as int),
        i <= j <= v.len(),
        forall|k: int| i <= k < j ==> is_digit(v@[k]),
{
    let mut j: usize = i;
    while j < v.len() && '0' <= v[j] && v[j] <= '9'
        invariant
            i <= j <= v.len(),
            digits_end(v@, j as int) == digits_end(v@, i as int),
            forall|k: int| i <= k < j ==> is_digit(v@[k]),
        decreases v.len() - j,
    {
        j = j + 1;
    }
    j
}

fn skip_to_quote(v: &Vec<char>, i: usize) -> (j: usize)
    requires
        i <= v.len(),
    ensures
        j == quote_at(v@, i as int),
        i <= j <= v.len(),
{
    let mut j: usize = i;
    while j < v.len() && v[j] != '\''
        invariant
            i <= j <= v.len(),
            quote_at(v@, j as int) == quote_at(v@, i as int),
        decreases v.len() - j,
    {
        j = j + 1;
    }
    j
}

proof fn lemma_digits_value_grows(s: Seq<char>, k: int)
    requires
        0 <= k <= s.len(),
        forall|j: int| 0 <= j < s.len() ==> is_digit(s[j]),
    ensures
        digits_value(s.take(k)) <= digits_value(s),
    decreases s.len(),
{
    if k < s.len() {
        lemma_digits_value_grows(s.drop_last(), k);
        assert(s.drop_last().take(k) =~= s.take(k));
    } else {
        assert(s.take(k) =~= s);
    }
}

/// The number that the digits from `i` up to `e` denote, where an `i64` holds it.
fn read_digits(v: &Vec<char>, i: usize, e: usize) -> (r: Option<i64>)
    requires
        i <= e <= v.len(),
        forall|k: int| i <= k < e ==> is_digit(v@[k]),
    ensures
        r matches Some(n) ==> n == digits_value(v@.subrange(i as int, e as int)),
        r is Some <==> digits_value(v@.subrange(i as int, e as int)) <= i64::MAX,
{
    let ghost whole = v@.subrange(i as int, e as int);
    let mut n: i64 = 0;
    let mut k: usize = i;
    while k < e
        invariant
            i <= k <= e <= v.len(),
            whole == v@.subrange(i as int, e as int),
            forall|j: int| i <= j < e ==> is_digit(v@[j]),
            0 <= n == digits_value(whole.take(k - i)),
        decreases e - k,
    {
        let d: i64 = (v[k] as u32 - '0' as u32) as i64;
        proof {
            assert(whole.take(k - i + 1).drop_last() =~= whole.take(k - i));
            assert(whole.take(k - i + 1).last() == v@[k as int]);
            lemma_digits_value_grows(whole, k - i + 1);
        }
        if n > (i64::MAX - d) / 10 {
            return None;
        }
        n = n * 10 + d;
        k = k + 1;
    }
    assert(whole.take(e - i) =~= whole);
    Some(n)
}

// ---- the grammar ----------------------------------------------------------------------------

fn path(v: &Vec<char>, i: usize) -> (r: Result<(Path, usize), usize>)
    requires
        i <= v.len(),
    ensures
        r matches Ok((p, j)) ==> path_at(v@, i as int) == Ok::<(Seq<Seq<char>>, int), int>(
            (p@, j as int),
        ) && i < j <= v.len(),
        r matches Err(j) ==> path_at(v@, i as int) == Err::<(Seq<Seq<char>>, int), int>(j as int)
            && i <= j <= v.len(),
{
    let e: usize = skip_word(v, i);
    if e == i {
        return Err(i);
    }
    let mut segments: Vec<String> = Vec::new();
    segments.push(string_of(v, i, e));
    assert(views(segments@) =~= seq![v@.subrange(i as int, e as int)]);
    let mut j: usize = e;
    while j < v.len() && v[j] == '.'
        invariant
            i < j <= v.len(),
            path_at(v@, i as int) == Ok::<(Seq<Seq<char>>, int), int>(
                segments_from(v@, j as int, views(segments@)),
            ),
        decreases v.len() - j,
    {
        let k: usize = skip_word(v, j + 1);
        if k == j + 1 {
            return Ok((Path(segments), j));
        }
        let ghost before = views(segments@);
        segments.push(string_of(v, j + 1, k));
        assert(views(segments@) =~= before.push(v@.subrange(j + 1, k as int)));
        j = k;
    }
    Ok((Path(segments), j))
}

fn spaced_path(v: &Vec<char>, i: usize) -> (r: Result<(Path, usize), usize>)
    requires
        i <= v.len(),
    ensures
        r matches Ok((p, j)) ==> spaced_path_at(v@, i as int) == Ok::<(Seq<Seq<char>>, int), int>(
            (p@, j as int),
        ) && i < j <= v.len(),
        r matches Err(j) ==> spaced_path_at(v@, i as int) == Err::<(Seq<Seq<char>>, int), int>(
            j as int,
        ) && i <= j <= v.len(),
{
    let k: usize = skip_blanks(v, i);
    match path(v, k) {
        Ok((p, j)) => Ok((p, skip_blanks(v, j))),
        Err(j) => Err(j),
    }
}

fn operator(v: &Vec<char>, i: usize) -> (r: Result<(CmpOp, usize), usize>)
    requires
        i <= v.len(),
    ensures
        r matches Ok((op, j)) ==> operator_at(v@, i as int) == Ok::<(CmpOp, int), int>(
            (op, j as int),
        ) && i < j <= v.len(),
        r matches Err(j) ==> operator_at(v@, i as int) == Err::<(CmpOp, int), int>(j as int) && i
            <= j <= v.len(),
{
    proof {
        reveal_strlit("<=");
        reveal_strlit(">=");
        reveal_strlit("<>");
        reveal_strlit("=");
        reveal_strlit("<");
        reveal_strlit(">");
        reveal_strlit("LIKE");
    }
    if at(v, i, "<=") {
        Ok((CmpOp::Le, i + 2))
    } else if at(v, i, ">=") {
        Ok((CmpOp::Ge, i + 2))
    } else if at(v, i, "<>") {
        Ok((CmpOp::Ne, i + 2))
    } else if at(v, i, "=") {
        Ok((CmpOp::Eq, i + 1))
    } else if at(v, i, "<") {
        Ok((CmpOp::Lt, i + 1))
    } else if at(v, i, ">") {
        Ok((CmpOp::Gt, i + 1))
    } else if at(v, i, "LIKE") {
        Ok((CmpOp::Like, i + 4))
    } else {
        Err(i)
    }
}

fn literal(v: &Vec<char>, i: usize) -> (r: Result<(Literal, usize), usize>)
    requires
        i <= v.len(),
    ensures
        r matches Ok((l, j)) ==> literal_at(v@, i as int) == Ok::<(LiteralView, int), int>(
            (l@, j as int),
        ) && i < j <= v.len(),
        r matches Err(j) ==> literal_at(v@, i as int) == Err::<(LiteralView, int), int>(j as int)
            && i <= j <= v.len(),
{
    if i < v.len() && v[i] == '\'' {
        let q: usize = skip_to_quote(v, i + 1);
        if q < v.len() {
            Ok((Literal::Str(string_of(v, i + 1, q)), q + 1))
        } else {
            Err(i)
        }
    } else {
        let e: usize = skip_digits(v, i);
        if e == i {
            return Err(i);
        }
        match read_digits(v, i, e) {
            Some(n) => Ok((Literal::Int(n), e)),
            None => Err(i),
        }
    }
}

fn comparison(v: &Vec<char>, i: usize) -> (r: Result<(Expr, usize), usize>)
    requires
        i <= v.len(),
    ensures
        r matches Ok((e, j)) ==> comparison_at(v@, i as int) == Ok::<(ExprView, int), int>(
            (e@, j as int),
        ) && i < j <= v.len(),
        r matches Err(j) ==> comparison_at(v@, i as int) == Err::<(ExprView, int), int>(j as int)
            && i <= j <= v.len(),
{
    let (lhs, j): (Path, usize) = match spaced_path(v, i) {
        Ok(x) => x,
        Err(j) => return Err(j),
    };
    let (op, k): (CmpOp, usize) = match operator(v, j) {
        Ok(x) => x,
        Err(k) => return Err(k),
    };
    match literal(v, skip_blanks(v, k)) {
        Ok((rhs, l)) => Ok((Expr::Cmp { lhs, op, rhs }, skip_blanks(v, l))),
        Err(l) => Err(l),
    }
}

fn expression(v: &Vec<char>, i: usize) -> (r: Result<(Expr, usize), usize>)
    requires
        i <= v.len(),
    ensures
        r matches Ok((e, j)) ==> expression_at(v@, i as int) == Ok::<(ExprView, int), int>(
            (e@, j as int),
        ) && i < j <= v.len(),
        r matches Err(j) ==> expression_at(v@, i as int) == Err::<(ExprView, int), int>(j as int)
            && i <= j <= v.len(),
{
    let (first, start): (Expr, usize) = match comparison(v, i) {
        Ok(x) => x,
        Err(j) => return Err(j),
    };
    let mut acc: Expr = first;
    let mut j: usize = start;
    while at(v, j, "AND")
        invariant
            i < j <= v.len(),
            expression_at(v@, i as int) == Ok::<(ExprView, int), int>(
                chain_from(v@, j as int, acc@),
            ),
        decreases v.len() - j,
    {
        proof {
            reveal_strlit("AND");
        }
        match comparison(v, j + 3) {
            Ok((next, k)) => {
                acc = Expr::And(Box::new(acc), Box::new(next));
                j = k;
            },
            Err(_) => return Ok((acc, j)),
        }
    }
    Ok((acc, j))
}

fn path_list(v: &Vec<char>, i: usize, first: Path) -> (r: (Vec<Path>, usize))
    requires
        i <= v.len(),
    ensures
        list_from(v@, i as int, seq![first@]) == (
            path_views(r.0@),
            r.1 as int,
        ),
        i <= r.1 <= v.len(),
{
    let mut paths: Vec<Path> = Vec::new();
    paths.push(first);
    let mut j: usize = i;
    assert(path_views(paths@) =~= seq![first@]);
    while j < v.len() && v[j] == ','
        invariant
            i <= j <= v.len(),
            list_from(v@, i as int, seq![first@]) == list_from(
                v@,
                j as int,
                path_views(paths@),
            ),
        decreases v.len() - j,
    {
        match spaced_path(v, j + 1) {
            Ok((p, k)) => {
                let ghost before = path_views(paths@);
                let ghost added = p@;
                paths.push(p);
                assert(path_views(paths@) =~= before.push(added));
                j = k;
            },
            Err(_) => return (paths, j),
        }
    }
    (paths, j)
}

fn operation(v: &Vec<char>, i: usize) -> (r: Result<(PipeOp, usize), usize>)
    requires
        i <= v.len(),
    ensures
        r matches Ok((o, j)) ==> operation_at(v@, i as int) == Ok::<(PipeOpView, int), int>(
            (o@, j as int),
        ) && i < j <= v.len(),
        r matches Err(j) ==> operation_at(v@, i as int) == Err::<(PipeOpView, int), int>(j as int)
            && i <= j <= v.len(),
{
    proof {
        reveal_strlit("WHERE");
        reveal_strlit("SELECT");
    }
    if at(v, i, "WHERE") {
        match expression(v, i + 5) {
            Ok((e, j)) => Ok((PipeOp::Where(e), j)),
            Err(j) => Err(j),
        }
    } else if at(v, i, "SELECT") {
        match spaced_path(v, i + 6) {
            Ok((p, j)) => {
                let (paths, k): (Vec<Path>, usize) = path_list(v, j, p);
                Ok((PipeOp::Select(paths), k))
            },
            Err(j) => Err(j),
        }
    } else {
        Err(i)
    }
}

/// Reads a statement from the characters of the whole input.
fn statement(v: &Vec<char>) -> (r: Result<Stmt, usize>)
    ensures
        r matches Ok(t) ==> statement_of(v@) == Ok::<StmtView, int>(t@),
        r matches Err(j) ==> statement_of(v@) == Err::<StmtView, int>(j as int) && j <= v.len(),
{
    let i: usize = skip_blanks(v, 0);
    proof {
        reveal_strlit("FROM");
        reveal_strlit("|>");
    }
    if !at(v, i, "FROM") {
        return Err(i);
    }
    let (from, start): (Path, usize) = match spaced_path(v, i + 4) {
        Ok(x) => x,
        Err(j) => return Err(j),
    };
    let mut ops: Vec<PipeOp> = Vec::new();
    let mut j: usize = start;
    assert(op_views(ops@) =~= Seq::empty());
    while at(v, j, "|>")
        invariant
            j <= v.len(),
            stands_at(v@, blanks_end(v@, 0), "FROM"@),
            spaced_path_at(v@, blanks_end(v@, 0) + 4) == Ok::<(Seq<Seq<char>>, int), int>(
                (from@, start as int),
            ),
            operations_from(v@, start as int, Seq::empty()) == operations_from(
                v@,
                j as int,
                op_views(ops@),
            ),
        decreases v.len() - j,
    {
        proof {
            reveal_strlit("|>");
        }
        match operation(v, skip_blanks(v, j + 2)) {
            Ok((o, k)) => {
                let ghost before = op_views(ops@);
                let ghost added = o@;
                ops.push(o);
                assert(op_views(ops@) =~= before.push(added));
                j = k;
            },
            Err(k) => return Err(k),
        }
    }
    if j == v.len() {
        Ok(Stmt { from, ops })
    } else {
        Err(j)
    }
}

// ---- the error ------------------------------------------------------------------------------

/// The text that a message shows for the input that goes on with `s`.
pub fn peek_word(s: &str) -> (r: String)
    ensures
        r@ == peeked(s@),
{
    let v: Vec<char> = chars_of(s);
    let mut e: usize = 0;
    while e < v.len() && !white_space(v[e])
        invariant
            e <= v.len(),
            space_at(v@, e as int) == space_at(v@, 0),
        decreases v.len() - e,
    {
        e = e + 1;
    }
    assert(v@.subrange(0, e as int) =~= v@.take(e as int));
    if bytes_between(&v, 0, e) <= 16 {
        return string_of(&v, 0, e);
    }
    let mut k: usize = 0;
    loop
        invariant
            k <= v.len(),
            v@ == s@,
            byte_len(v@.take(space_at(v@, 0))) > 16,
            chars_in_bytes(v@, 16, k as int) == chars_in_bytes(v@, 16, 0),
        decreases v.len() - k,
    {
        let n: usize = bytes_between(&v, 0, k);
        assert(v@.subrange(0, k as int) =~= v@.take(k as int));
        if n == 16 {
            return string_of(&v, 0, k);
        }
        if n > 16 || k == v.len() {
            assert(v@.subrange(0, v@.len() as int) =~= s@);
            return string_of(&v, 0, v.len());
        }
        k = k + 1;
    }
}

/// The tokens that a message lists as expected.
fn expected_tokens() -> (r: Vec<String>)
    ensures
        views(r@) == all_tokens(),
{
    let mut r: Vec<String> = Vec::new();
    r.push("FROM".to_owned());
    r.push("|>".to_owned());
    r.push("WHERE".to_owned());
    r.push("SELECT".to_owned());
    r.push("AND".to_owned());
    r.push("a path".to_owned());
    assert(views(r@) =~= all_tokens());
    r
}

/// Whether a word is a keyword of the language.
fn keyword(w: &str) -> (r: bool)
    ensures
        r == is_keyword(w@),
{
    same(w, "FROM") || same(w, "WHERE") || same(w, "SELECT") || same(w, "AS") || same(w, "EXTEND")
        || same(w, "JOIN") || same(w, "ON") || same(w, "AGGREGATE") || same(w, "GROUP")
        || same(w, "ORDER") || same(w, "BY") || same(w, "DESC") || same(w, "LIMIT")
        || same(w, "DISTINCT") || same(w, "UNION") || same(w, "EXCEPT") || same(w, "INTERSECT")
        || same(w, "INSERT") || same(w, "UPSERT") || same(w, "INTO") || same(w, "VALUES")
        || same(w, "UPDATE") || same(w, "REMOVE") || same(w, "CALL") || same(w, "DECODE")
        || same(w, "ENCODE") || same(w, "CREATE") || same(w, "POLICY") || same(w, "ALLOW")
        || same(w, "TRIGGER") || same(w, "DO") || same(w, "CONNECTION") || same(w, "DRIVER")
        || same(w, "AT") || same(w, "SECRET") || same(w, "PREVIEW") || same(w, "COMMIT")
        || same(w, "AND") || same(w, "OR") || same(w, "NOT") || same(w, "LIKE") || same(w, "IN")
        || same(w, "BETWEEN")
        || same(w, "JOB") || same(w, "EVERY") || same(w, "CONNECT") || same(w, "DISCONNECT")
        || same(w, "DESCRIBE")
}

/// Whether a word in the shape of a keyword stands at `i` that is none.
fn unknown_keyword(v: &Vec<char>, i: usize) -> (r: bool)
    requires
        i < v.len(),
    ensures
        r == unknown_keyword_at(v@, i as int),
{
    let e: usize = skip_word(v, i);
    (('a' <= v[i] && v[i] <= 'z') || ('A' <= v[i] && v[i] <= 'Z')) && !keyword(
        string_of(v, i, e).as_str(),
    )
}

/// The error for an input in which reading fails at index `i`.
fn map_error(v: &Vec<char>, i: usize) -> (e: ParseError)
    requires
        i <= v.len(),
    ensures
        e@ == error_at(v@, i as int),
{
    let at: usize = bytes_between(v, 0, i);
    assert(v@.subrange(0, i as int) =~= v@.take(i as int));
    let mut expected: Vec<String> = Vec::new();
    if i == v.len() {
        expected.push("more input".to_owned());
        assert(views(expected@) =~= seq!["more input"@]);
        return ParseError::new(
            at,
            ParseErrorCode::UnexpectedEof,
            expected,
            "unexpected end of input".to_owned(),
        );
    }
    let word: String = peek_word(string_of(v, i, v.len()).as_str());
    if 'a' <= v[i] && v[i] <= 'z' {
        expected.push("UPPERCASE keyword".to_owned());
        assert(views(expected@) =~= seq!["UPPERCASE keyword"@]);
        let mut message: String = "expected UPPERCASE keyword, found `".to_owned();
        message.append(word.as_str());
        message.append("`");
        return ParseError::new(at, ParseErrorCode::UnknownKeyword, expected, message);
    }
    let mut message: String = "unexpected token near `".to_owned();
    message.append(word.as_str());
    message.append("`");
    let code: ParseErrorCode = if unknown_keyword(v, i) {
        ParseErrorCode::UnknownKeyword
    } else {
        ParseErrorCode::UnexpectedToken
    };
    ParseError::new(at, code, expected_tokens(), message)
}

/// Parses a statement.
pub fn parse(input: &str) -> (r: Result<Stmt, ParseError>)
    ensures
        r matches Ok(t) ==> parsed(input@) == Ok::<StmtView, ParseErrorView>(t@),
        r matches Err(e) ==> parsed(input@) == Err::<StmtView, ParseErrorView>(e@),
{
    let v: Vec<char> = chars_of(input);
    match statement(&v) {
        Ok(t) => Ok(t),
        Err(i) => Err(map_error(&v, i)),
    }
}

} // verus!
