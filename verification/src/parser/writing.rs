//! Writing a statement down, and the laws that tie the writing to the grammar: what is written
//! reads back as it was, and whatever is read could have been written.
use crate::parser::ast::{CmpOp, ExprView, LiteralView, PipeOpView, StmtView};
use crate::parser::error::{ParseErrorCode, ParseErrorView};
use crate::parser::grammar::{
    blanks_end, chain_from, comparison_at, digits_end, digits_value, expression_at, is_blank,
    is_digit, is_keyword, is_word_char, list_from, literal_at, operation_at, operations_from, operator_at,
    parsed, path_at, quote_at, segments_from, spaced_path_at, statement_of,
    unknown_keyword_at, word_end,
};
use crate::text::{byte_len, nat_text, stands_at};
use vstd::prelude::*;

verus! {

/// A word: at least one word character, and nothing else.
pub open spec fn is_word(w: Seq<char>) -> bool {
    w.len() > 0 && forall|k: int| 0 <= k < w.len() ==> is_word_char(w[k])
}

/// A path that can be written: at least one segment, each a word.
pub open spec fn path_wf(p: Seq<Seq<char>>) -> bool {
    p.len() > 0 && forall|k: int| 0 <= k < p.len() ==> is_word(#[trigger] p[k])
}

/// A literal that can be written: a string without a quote, a number that is not negative and
/// that an `i64` holds.
pub open spec fn literal_wf(l: LiteralView) -> bool {
    match l {
        LiteralView::Str(t) => forall|k: int| 0 <= k < t.len() ==> t[k] != '\'',
        LiteralView::Int(n) => 0 <= n <= i64::MAX,
    }
}

/// An expression that can be written: a chain of comparisons that leans to the left.
pub open spec fn expr_wf(e: ExprView) -> bool
    decreases e,
{
    match e {
        ExprView::Cmp { lhs, op, rhs } => path_wf(lhs) && literal_wf(rhs),
        ExprView::And(l, r) => expr_wf(*l) && expr_wf(*r) && *r is Cmp,
    }
}

/// An operation that can be written.
pub open spec fn op_wf(o: PipeOpView) -> bool {
    match o {
        PipeOpView::Where(e) => expr_wf(e),
        PipeOpView::Select(ps) => ps.len() > 0 && forall|k: int|
            0 <= k < ps.len() ==> path_wf(#[trigger] ps[k]),
    }
}

/// A statement that can be written.
pub open spec fn stmt_wf(t: StmtView) -> bool {
    path_wf(t.from) && forall|k: int| 0 <= k < t.ops.len() ==> op_wf(#[trigger] t.ops[k])
}

/// The segments, each behind a dot.
pub open spec fn dotted(segments: Seq<Seq<char>>) -> Seq<char>
    decreases segments.len(),
{
    if segments.len() == 0 {
        Seq::empty()
    } else {
        seq!['.'] + segments[0] + dotted(segments.drop_first())
    }
}

/// A path, written.
pub open spec fn path_text(p: Seq<Seq<char>>) -> Seq<char> {
    p[0] + dotted(p.drop_first())
}

/// An operator, written.
pub open spec fn operator_text(op: CmpOp) -> Seq<char> {
    match op {
        CmpOp::Eq => seq!['='],
        CmpOp::Ne => seq!['<', '>'],
        CmpOp::Lt => seq!['<'],
        CmpOp::Gt => seq!['>'],
        CmpOp::Le => seq!['<', '='],
        CmpOp::Ge => seq!['>', '='],
        CmpOp::Like => seq!['L', 'I', 'K', 'E'],
    }
}

/// A literal, written.
pub open spec fn literal_text(l: LiteralView) -> Seq<char> {
    match l {
        LiteralView::Str(t) => seq!['\''] + t + seq!['\''],
        LiteralView::Int(n) => nat_text(n as nat),
    }
}

/// An expression, written.
pub open spec fn expr_text(e: ExprView) -> Seq<char>
    decreases e,
{
    match e {
        ExprView::Cmp { lhs, op, rhs } => path_text(lhs) + (seq![' '] + (operator_text(op) + (seq![
            ' ',
        ] + literal_text(rhs)))),
        ExprView::And(l, r) => expr_text(*l) + (seq![' ', 'A', 'N', 'D', ' '] + expr_text(*r)),
    }
}

/// The paths, each behind a comma.
pub open spec fn listed(ps: Seq<Seq<Seq<char>>>) -> Seq<char>
    decreases ps.len(),
{
    if ps.len() == 0 {
        Seq::empty()
    } else {
        seq![',', ' '] + (path_text(ps[0]) + listed(ps.drop_first()))
    }
}

/// An operation with its `|>`, written.
pub open spec fn op_text(o: PipeOpView) -> Seq<char> {
    match o {
        PipeOpView::Where(e) => seq![' ', '|', '>', ' '] + (seq!['W', 'H', 'E', 'R', 'E', ' ']
            + expr_text(e)),
        PipeOpView::Select(ps) => seq![' ', '|', '>', ' '] + (seq![
            'S',
            'E',
            'L',
            'E',
            'C',
            'T',
            ' ',
        ] + (path_text(ps[0]) + listed(ps.drop_first()))),
    }
}

/// The operations, written one after the other.
pub open spec fn ops_text(ops: Seq<PipeOpView>) -> Seq<char>
    decreases ops.len(),
{
    if ops.len() == 0 {
        Seq::empty()
    } else {
        op_text(ops[0]) + ops_text(ops.drop_first())
    }
}

/// A statement, written.
pub open spec fn stmt_text(t: StmtView) -> Seq<char> {
    seq!['F', 'R', 'O', 'M', ' '] + (path_text(t.from) + ops_text(t.ops))
}

// ---- helpers --------------------------------------------------------------------------------

proof fn lemma_split(s: Seq<char>, i: int, a: Seq<char>, b: Seq<char>)
    requires
        stands_at(s, i, a + b),
    ensures
        stands_at(s, i, a),
        stands_at(s, i + a.len(), b),
        (a + b).len() == a.len() + b.len(),
{
    let w = s.subrange(i, i + (a + b).len());
    assert(s.subrange(i, i + a.len()) =~= w.subrange(0, a.len() as int));
    assert(w.subrange(0, a.len() as int) =~= a);
    assert(s.subrange(i + a.len(), i + a.len() + b.len()) =~= w.subrange(
        a.len() as int,
        (a + b).len() as int,
    ));
    assert(w.subrange(a.len() as int, (a + b).len() as int) =~= b);
}

proof fn lemma_index(s: Seq<char>, i: int, p: Seq<char>)
    requires
        stands_at(s, i, p),
    ensures
        0 <= i <= i + p.len() <= s.len(),
        forall|k: int| 0 <= k < p.len() ==> s[i + k] == #[trigger] p[k],
{
    assert forall|k: int| 0 <= k < p.len() implies s[i + k] == #[trigger] p[k] by {
        assert(s.subrange(i, i + p.len())[k] == p[k]);
    }
}

/// What may follow a token: the end, or one blank that no blank follows.
spec fn follow(s: Seq<char>, i: int) -> bool {
    0 <= i <= s.len() && (i == s.len() || (s[i] == ' ' && i + 1 < s.len() && !is_blank(s[i + 1])))
}

proof fn lemma_follow(s: Seq<char>, i: int)
    requires
        follow(s, i),
    ensures
        blanks_end(s, i) == (if i == s.len() {
            i
        } else {
            i + 1
        }),
{
    reveal_with_fuel(blanks_end, 3);
}

proof fn lemma_word(s: Seq<char>, i: int, w: Seq<char>)
    requires
        stands_at(s, i, w),
        forall|k: int| 0 <= k < w.len() ==> is_word_char(w[k]),
        i + w.len() == s.len() || !is_word_char(s[i + w.len()]),
    ensures
        word_end(s, i) == i + w.len(),
    decreases w.len(),
{
    lemma_index(s, i, w);
    if w.len() > 0 {
        assert(w[0] == s[i + 0]);
        assert(w =~= seq![w[0]] + w.drop_first());
        lemma_split(s, i, seq![w[0]], w.drop_first());
        lemma_word(s, i + 1, w.drop_first());
    }
}

proof fn lemma_segments(s: Seq<char>, i: int, segments: Seq<Seq<char>>, acc: Seq<Seq<char>>)
    requires
        stands_at(s, i, dotted(segments)),
        forall|k: int| 0 <= k < segments.len() ==> is_word(#[trigger] segments[k]),
        ({
            let e = i + dotted(segments).len();
            e == s.len() || (!is_word_char(s[e]) && s[e] != '.')
        }),
    ensures
        segments_from(s, i, acc) == (acc + segments, i + dotted(segments).len()),
    decreases segments.len(),
{
    lemma_index(s, i, dotted(segments));
    if segments.len() == 0 {
        assert(acc + segments =~= acc);
    } else {
        let w = segments[0];
        let rest = segments.drop_first();
        lemma_split(s, i, seq!['.'] + w, dotted(rest));
        lemma_split(s, i, seq!['.'], w);
        lemma_index(s, i, seq!['.']);
        assert(seq!['.'][0] == s[i + 0]);
        let e = i + 1 + w.len();
        if rest.len() > 0 {
            lemma_index(s, e, dotted(rest));
            assert(dotted(rest)[0] == '.');
            assert(s[e + 0] == '.');
        } else {
            assert(dotted(rest).len() == 0);
        }
        lemma_word(s, i + 1, w);
        assert(s.subrange(i + 1, e) == w);
        assert forall|k: int| 0 <= k < rest.len() implies is_word(#[trigger] rest[k]) by {
            assert(rest[k] == segments[k + 1]);
        }
        lemma_segments(s, e, rest, acc.push(w));
        assert(acc.push(w) + rest =~= acc + segments);
    }
}

proof fn lemma_path(s: Seq<char>, i: int, p: Seq<Seq<char>>)
    requires
        stands_at(s, i, path_text(p)),
        path_wf(p),
        ({
            let e = i + path_text(p).len();
            e == s.len() || (!is_word_char(s[e]) && s[e] != '.')
        }),
    ensures
        path_at(s, i) == Ok::<(Seq<Seq<char>>, int), int>((p, i + path_text(p).len())),
        path_text(p).len() > 0,
        is_word_char(s[i]),
        i + path_text(p).len() <= s.len(),
{
    let w = p[0];
    let rest = p.drop_first();
    lemma_split(s, i, w, dotted(rest));
    lemma_index(s, i, w);
    assert(s[i + 0] == w[0]);
    let e = i + w.len();
    if rest.len() > 0 {
        lemma_index(s, e, dotted(rest));
        assert(dotted(rest)[0] == '.');
        assert(s[e + 0] == '.');
    } else {
        assert(dotted(rest).len() == 0);
    }
    assert(is_word(p[0]));
    lemma_word(s, i, w);
    assert forall|k: int| 0 <= k < rest.len() implies is_word(#[trigger] rest[k]) by {
        assert(rest[k] == p[k + 1]);
    }
    lemma_segments(s, e, rest, seq![w]);
    assert(seq![w] + rest =~= p);
}

proof fn lemma_operator(s: Seq<char>, i: int, op: CmpOp)
    requires
        stands_at(s, i, operator_text(op)),
        i + operator_text(op).len() < s.len(),
        s[i + operator_text(op).len()] == ' ',
    ensures
        operator_at(s, i) == Ok::<(CmpOp, int), int>((op, i + operator_text(op).len())),
        !is_blank(s[i]),
{
    reveal_strlit("<=");
    reveal_strlit(">=");
    reveal_strlit("<>");
    reveal_strlit("=");
    reveal_strlit("<");
    reveal_strlit(">");
    reveal_strlit("LIKE");
    lemma_index(s, i, operator_text(op));
    assert(operator_text(op)[0] == s[i + 0]);
    if operator_text(op).len() > 1 {
        assert(operator_text(op)[1] == s[i + 1]);
    }
    if stands_at(s, i, "<="@) {
        lemma_index(s, i, "<="@);
        assert("<="@[0] == s[i + 0]);
        assert("<="@[1] == s[i + 1]);
    }
    if stands_at(s, i, ">="@) {
        lemma_index(s, i, ">="@);
        assert(">="@[0] == s[i + 0]);
        assert(">="@[1] == s[i + 1]);
    }
    if stands_at(s, i, "<>"@) {
        lemma_index(s, i, "<>"@);
        assert("<>"@[0] == s[i + 0]);
        assert("<>"@[1] == s[i + 1]);
    }
    if stands_at(s, i, "="@) {
        lemma_index(s, i, "="@);
        assert("="@[0] == s[i + 0]);
    }
    if stands_at(s, i, "<"@) {
        lemma_index(s, i, "<"@);
        assert("<"@[0] == s[i + 0]);
    }
    if stands_at(s, i, ">"@) {
        lemma_index(s, i, ">"@);
        assert(">"@[0] == s[i + 0]);
    }
    match op {
        CmpOp::Eq => assert("="@ =~= operator_text(op)),
        CmpOp::Ne => assert("<>"@ =~= operator_text(op)),
        CmpOp::Lt => assert("<"@ =~= operator_text(op)),
        CmpOp::Gt => assert(">"@ =~= operator_text(op)),
        CmpOp::Le => assert("<="@ =~= operator_text(op)),
        CmpOp::Ge => assert(">="@ =~= operator_text(op)),
        CmpOp::Like => assert("LIKE"@ =~= operator_text(op)),
    }
}

proof fn lemma_nat_text(n: nat)
    ensures
        nat_text(n).len() > 0,
        forall|k: int| 0 <= k < nat_text(n).len() ==> is_digit(#[trigger] nat_text(n)[k]),
        digits_value(nat_text(n)) == n,
    decreases n,
{
    let t = nat_text(n);
    if n < 10 {
        assert(t.drop_last() =~= Seq::empty());
        assert(digits_value(t.drop_last()) == 0);
        assert(t.last() as u32 - '0' as u32 == n);
    } else {
        lemma_nat_text(n / 10);
        assert(t.drop_last() =~= nat_text(n / 10));
        assert(t.last() as u32 - '0' as u32 == n % 10);
    }
}

proof fn lemma_digits_end(s: Seq<char>, i: int, e: int)
    requires
        0 <= i <= e <= s.len(),
        forall|k: int| i <= k < e ==> is_digit(s[k]),
        e == s.len() || !is_digit(s[e]),
    ensures
        digits_end(s, i) == e,
    decreases e - i,
{
    if i < e {
        lemma_digits_end(s, i + 1, e);
    }
}

proof fn lemma_quote_at(s: Seq<char>, i: int, e: int)
    requires
        0 <= i <= e < s.len(),
        forall|k: int| i <= k < e ==> s[k] != '\'',
        s[e] == '\'',
    ensures
        quote_at(s, i) == e,
    decreases e - i,
{
    if i < e {
        lemma_quote_at(s, i + 1, e);
    }
}

proof fn lemma_literal(s: Seq<char>, i: int, l: LiteralView)
    requires
        stands_at(s, i, literal_text(l)),
        literal_wf(l),
        follow(s, i + literal_text(l).len()),
    ensures
        literal_at(s, i) == Ok::<(LiteralView, int), int>((l, i + literal_text(l).len())),
        0 <= i < s.len(),
        !is_blank(s[i]),
{
    lemma_index(s, i, literal_text(l));
    match l {
        LiteralView::Str(t) => {
            lemma_split(s, i, seq!['\''] + t, seq!['\'']);
            lemma_split(s, i, seq!['\''], t);
            let e = i + 1 + t.len();
            lemma_index(s, i, seq!['\'']);
            lemma_index(s, i + 1, t);
            lemma_index(s, e, seq!['\'']);
            assert(seq!['\''][0] == s[i + 0]);
            assert(seq!['\''][0] == s[e + 0]);
            assert forall|k: int| i + 1 <= k < e implies s[k] != '\'' by {
                assert(s[(i + 1) + (k - i - 1)] == t[k - i - 1]);
            }
            lemma_quote_at(s, i + 1, e);
            assert(s.subrange(i + 1, e) == t);
        },
        LiteralView::Int(n) => {
            let t = nat_text(n as nat);
            lemma_nat_text(n as nat);
            let e = i + t.len();
            assert forall|k: int| i <= k < e implies is_digit(s[k]) by {
                assert(s[i + (k - i)] == t[k - i]);
            }
            lemma_digits_end(s, i, e);
            assert(s.subrange(i, e) == t);
            assert(is_digit(s[i]));
        },
    }
}

/// A comparison that stands behind one blank is read together with the blank that follows it.
proof fn lemma_comparison(s: Seq<char>, i: int, e: ExprView)
    requires
        0 <= i < s.len(),
        s[i] == ' ',
        stands_at(s, i + 1, expr_text(e)),
        expr_wf(e),
        e is Cmp,
        follow(s, i + 1 + expr_text(e).len()),
    ensures
        comparison_at(s, i) == Ok::<(ExprView, int), int>(
            (e, blanks_end(s, i + 1 + expr_text(e).len())),
        ),
        expr_text(e).len() > 0,
        is_word_char(s[i + 1]),
{
    match e {
        ExprView::Cmp { lhs, op, rhs } => {
            let p = path_text(lhs);
            let o = operator_text(op);
            let l = literal_text(rhs);
            let sp = seq![' '];
            lemma_split(s, i + 1, p, sp + (o + (sp + l)));
            let a = i + 1 + p.len();
            lemma_split(s, a, sp, o + (sp + l));
            lemma_index(s, a, sp);
            assert(sp[0] == s[a + 0]);
            let b = a + 1;
            lemma_split(s, b, o, sp + l);
            let c = b + o.len();
            lemma_split(s, c, sp, l);
            lemma_index(s, c, sp);
            assert(sp[0] == s[c + 0]);
            lemma_path(s, i + 1, lhs);
            assert(blanks_end(s, i) == i + 1) by {
                reveal_with_fuel(blanks_end, 3);
            }
            lemma_operator(s, b, op);
            assert(blanks_end(s, a) == b) by {
                reveal_with_fuel(blanks_end, 3);
            }
            lemma_literal(s, c + 1, rhs);
            assert(blanks_end(s, c) == c + 1) by {
                reveal_with_fuel(blanks_end, 3);
            }
        },
        ExprView::And(_, _) => {},
    }
}

/// An expression that stands behind one blank: the chain reaches its end having read all of it.
proof fn lemma_expression(s: Seq<char>, i: int, e: ExprView)
    requires
        0 <= i < s.len(),
        s[i] == ' ',
        stands_at(s, i + 1, expr_text(e)),
        expr_wf(e),
        follow(s, i + 1 + expr_text(e).len()),
    ensures
        expression_at(s, i) == Ok::<(ExprView, int), int>(
            chain_from(s, blanks_end(s, i + 1 + expr_text(e).len()), e),
        ),
        expr_text(e).len() > 0,
        is_word_char(s[i + 1]),
    decreases e,
{
    match e {
        ExprView::Cmp { .. } => {
            lemma_comparison(s, i, e);
        },
        ExprView::And(l, r) => {
            let and = seq![' ', 'A', 'N', 'D', ' '];
            let tl = expr_text(*l);
            let tr = expr_text(*r);
            lemma_split(s, i + 1, tl, and + tr);
            let a = i + 1 + tl.len();
            lemma_split(s, a, and, tr);
            lemma_index(s, a, and);
            assert(and[0] == s[a + 0]);
            assert(and[1] == s[a + 1]);
            assert(and[2] == s[a + 2]);
            assert(and[3] == s[a + 3]);
            assert(and[4] == s[a + 4]);
            lemma_expression(s, i, *l);
            lemma_follow(s, a);
            lemma_comparison(s, a + 4, *r);
            reveal_strlit("AND");
            assert(s.subrange(a + 1, a + 4) =~= "AND"@);
            assert(stands_at(s, a + 1, "AND"@));
            let end = i + 1 + expr_text(e).len();
            lemma_follow(s, end);
        },
    }
}

proof fn lemma_list(s: Seq<char>, i: int, ps: Seq<Seq<Seq<char>>>, acc: Seq<Seq<Seq<char>>>)
    requires
        stands_at(s, i, listed(ps)),
        forall|k: int| 0 <= k < ps.len() ==> path_wf(#[trigger] ps[k]),
        follow(s, i + listed(ps).len()),
        i + listed(ps).len() == s.len() || s[i + listed(ps).len() + 1] == '|',
    ensures
        list_from(s, blanks_end(s, i), acc) == (acc + ps, blanks_end(s, i + listed(ps).len())),
    decreases ps.len(),
{
    lemma_index(s, i, listed(ps));
    lemma_follow(s, i + listed(ps).len());
    if ps.len() == 0 {
        assert(acc + ps =~= acc);
    } else {
        let sep = seq![',', ' '];
        let p = path_text(ps[0]);
        let rest = ps.drop_first();
        lemma_split(s, i, sep, p + listed(rest));
        lemma_split(s, i + 2, p, listed(rest));
        lemma_index(s, i, sep);
        assert(sep[0] == s[i + 0]);
        assert(sep[1] == s[i + 1]);
        assert(blanks_end(s, i) == i);
        let e = i + 2 + p.len();
        lemma_list_follow(s, e, rest);
        assert(path_wf(ps[0]));
        lemma_path(s, i + 2, ps[0]);
        assert(blanks_end(s, i + 1) == i + 2) by {
            reveal_with_fuel(blanks_end, 3);
        }
        lemma_blanks_end_bound(s, e);
        assert forall|k: int| 0 <= k < rest.len() implies path_wf(#[trigger] rest[k]) by {
            assert(rest[k] == ps[k + 1]);
        }
        lemma_list(s, e, rest, acc.push(ps[0]));
        assert(acc.push(ps[0]) + rest =~= acc + ps);
    }
}

/// What follows a path of a list ends the path.
proof fn lemma_list_follow(s: Seq<char>, e: int, rest: Seq<Seq<Seq<char>>>)
    requires
        stands_at(s, e, listed(rest)),
        follow(s, e + listed(rest).len()),
    ensures
        e == s.len() || (!is_word_char(s[e]) && s[e] != '.'),
{
    lemma_index(s, e, listed(rest));
    if rest.len() > 0 {
        assert(listed(rest)[0] == ',');
        assert(s[e + 0] == ',');
    }
}

proof fn lemma_blanks_end_bound(s: Seq<char>, i: int)
    requires
        0 <= i <= s.len(),
    ensures
        i <= blanks_end(s, i) <= s.len(),
    decreases s.len() - i,
{
    if i < s.len() && is_blank(s[i]) {
        lemma_blanks_end_bound(s, i + 1);
    }
}

/// One operation with its `|>` is read whole.
proof fn lemma_operation(s: Seq<char>, i: int, o: PipeOpView)
    requires
        stands_at(s, i, op_text(o)),
        op_wf(o),
        follow(s, i + op_text(o).len()),
        i + op_text(o).len() == s.len() || s[i + op_text(o).len() + 1] == '|',
    ensures
        follow(s, i),
        i < s.len(),
        s[i + 1] == '|',
        stands_at(s, i + 1, "|>"@),
        operation_at(s, blanks_end(s, i + 3)) == Ok::<(PipeOpView, int), int>(
            (o, blanks_end(s, i + op_text(o).len())),
        ),
        op_text(o).len() >= 4,
{
    let pipe = seq![' ', '|', '>', ' '];
    let end = i + op_text(o).len();
    lemma_index(s, i, op_text(o));
    lemma_follow(s, end);
    reveal_strlit("|>");
    reveal_strlit("WHERE");
    reveal_strlit("SELECT");
    reveal_strlit("AND");
    match o {
        PipeOpView::Where(e) => {
            let kw = seq!['W', 'H', 'E', 'R', 'E', ' '];
            lemma_split(s, i, pipe, kw + expr_text(e));
            lemma_split(s, i + 4, kw, expr_text(e));
            lemma_index(s, i, pipe);
            lemma_index(s, i + 4, kw);
            assert(pipe[0] == s[i + 0] && pipe[1] == s[i + 1] && pipe[2] == s[i + 2] && pipe[3]
                == s[i + 3]);
            assert(kw[0] == s[i + 4 + 0] && kw[1] == s[i + 4 + 1] && kw[2] == s[i + 4 + 2] && kw[3]
                == s[i + 4 + 3] && kw[4] == s[i + 4 + 4] && kw[5] == s[i + 4 + 5]);
            assert(s.subrange(i + 1, i + 3) =~= "|>"@);
            assert(s.subrange(i + 4, i + 9) =~= "WHERE"@);
            assert(blanks_end(s, i + 3) == i + 4) by {
                reveal_with_fuel(blanks_end, 3);
            }
            lemma_expression(s, i + 9, e);
            let j = blanks_end(s, end);
            if stands_at(s, j, "AND"@) {
                lemma_index(s, j, "AND"@);
                assert("AND"@[0] == s[j + 0]);
            }
        },
        PipeOpView::Select(ps) => {
            let kw = seq!['S', 'E', 'L', 'E', 'C', 'T', ' '];
            let p = path_text(ps[0]);
            let rest = ps.drop_first();
            lemma_split(s, i, pipe, kw + (p + listed(rest)));
            lemma_split(s, i + 4, kw, p + listed(rest));
            lemma_split(s, i + 11, p, listed(rest));
            lemma_index(s, i, pipe);
            lemma_index(s, i + 4, kw);
            assert(pipe[0] == s[i + 0] && pipe[1] == s[i + 1] && pipe[2] == s[i + 2] && pipe[3]
                == s[i + 3]);
            assert(kw[0] == s[i + 4 + 0] && kw[1] == s[i + 4 + 1] && kw[2] == s[i + 4 + 2] && kw[3]
                == s[i + 4 + 3] && kw[4] == s[i + 4 + 4] && kw[5] == s[i + 4 + 5] && kw[6] == s[i
                + 4 + 6]);
            assert(s.subrange(i + 1, i + 3) =~= "|>"@);
            assert(s.subrange(i + 4, i + 10) =~= "SELECT"@);
            assert(blanks_end(s, i + 3) == i + 4) by {
                reveal_with_fuel(blanks_end, 3);
            }
            if stands_at(s, i + 4, "WHERE"@) {
                lemma_index(s, i + 4, "WHERE"@);
                assert("WHERE"@[0] == s[i + 4 + 0]);
            }
            let e = i + 11 + p.len();
            assert(e + listed(rest).len() == end);
            lemma_list_follow(s, e, rest);
            assert(path_wf(ps[0]));
            lemma_path(s, i + 11, ps[0]);
            assert(blanks_end(s, i + 10) == i + 11) by {
                reveal_with_fuel(blanks_end, 3);
            }
            assert forall|k: int| 0 <= k < rest.len() implies path_wf(#[trigger] rest[k]) by {
                assert(rest[k] == ps[k + 1]);
            }
            lemma_list(s, e, rest, seq![ps[0]]);
            assert(seq![ps[0]] + rest =~= ps);
        },
    }
}

/// A chain of operations begins with a blank and a `|`.
proof fn lemma_ops_follow(s: Seq<char>, i: int, ops: Seq<PipeOpView>)
    requires
        stands_at(s, i, ops_text(ops)),
        i + ops_text(ops).len() == s.len(),
    ensures
        follow(s, i),
        i == s.len() || s[i + 1] == '|',
{
    lemma_index(s, i, ops_text(ops));
    if ops.len() > 0 {
        let t = op_text(ops[0]);
        assert(t.len() >= 4 && t[0] == ' ' && t[1] == '|');
        lemma_split(s, i, t, ops_text(ops.drop_first()));
        lemma_index(s, i, t);
        assert(s[i + 0] == t[0]);
        assert(s[i + 1] == t[1]);
    }
}

proof fn lemma_operations(s: Seq<char>, i: int, ops: Seq<PipeOpView>, acc: Seq<PipeOpView>)
    requires
        stands_at(s, i, ops_text(ops)),
        i + ops_text(ops).len() == s.len(),
        forall|k: int| 0 <= k < ops.len() ==> op_wf(#[trigger] ops[k]),
    ensures
        operations_from(s, blanks_end(s, i), acc) == Ok::<(Seq<PipeOpView>, int), int>(
            (acc + ops, s.len() as int),
        ),
    decreases ops.len(),
{
    lemma_index(s, i, ops_text(ops));
    lemma_ops_follow(s, i, ops);
    lemma_follow(s, i);
    reveal_strlit("|>");
    if ops.len() == 0 {
        assert(acc + ops =~= acc);
    } else {
        let t = op_text(ops[0]);
        let rest = ops.drop_first();
        lemma_split(s, i, t, ops_text(rest));
        let e = i + t.len();
        lemma_ops_follow(s, e, rest);
        assert(op_wf(ops[0]));
        lemma_operation(s, i, ops[0]);
        lemma_follow(s, e);
        assert forall|k: int| 0 <= k < rest.len() implies op_wf(#[trigger] rest[k]) by {
            assert(rest[k] == ops[k + 1]);
        }
        lemma_operations(s, e, rest, acc.push(ops[0]));
        assert(acc.push(ops[0]) + rest =~= acc + ops);
    }
}

/// The keyword at the start of a written statement is read.
proof fn lemma_from(s: Seq<char>, p: Seq<char>, rest: Seq<char>)
    requires
        s == seq!['F', 'R', 'O', 'M', ' '] + (p + rest),
        p.len() > 0,
        is_word_char(p[0]),
    ensures
        blanks_end(s, 0) == 0,
        stands_at(s, 0, "FROM"@),
        blanks_end(s, 4) == 5,
        stands_at(s, 5, p),
        stands_at(s, 5int + p.len(), rest),
        s.len() == 5 + p.len() + rest.len(),
{
    reveal_strlit("FROM");
    reveal_with_fuel(blanks_end, 3);
    assert(s.subrange(0, 4) =~= "FROM"@);
    assert(s.subrange(5, 5int + p.len()) =~= p);
    assert(s.subrange(5int + p.len(), 5int + p.len() + rest.len()) =~= rest);
    assert(s[4] == ' ');
    assert(s[5] == p[0]);
}

/// Every statement that can be written reads back as it was.
pub proof fn law_written_reads_back(t: StmtView)
    requires
        stmt_wf(t),
    ensures
        parsed(stmt_text(t)) == Ok::<StmtView, ParseErrorView>(t),
{
    let s = stmt_text(t);
    let p = path_text(t.from);
    let e: int = 5 + p.len() as int;
    assert(is_word(t.from[0]));
    assert(p[0] == t.from[0][0]);
    lemma_from(s, p, ops_text(t.ops));
    lemma_ops_follow(s, e, t.ops);
    lemma_path(s, 5, t.from);
    lemma_operations(s, e, t.ops, Seq::empty());
    assert(Seq::<PipeOpView>::empty() + t.ops =~= t.ops);
}

// ---- what is read could have been written ----------------------------------------------------

proof fn lemma_word_read(s: Seq<char>, i: int)
    requires
        0 <= i <= s.len(),
    ensures
        i <= word_end(s, i) <= s.len(),
        forall|k: int| i <= k < word_end(s, i) ==> is_word_char(s[k]),
    decreases s.len() - i,
{
    if i < s.len() && is_word_char(s[i]) {
        lemma_word_read(s, i + 1);
    }
}

proof fn lemma_segments_read(s: Seq<char>, i: int, acc: Seq<Seq<char>>)
    requires
        0 <= i <= s.len(),
        path_wf(acc),
    ensures
        path_wf(segments_from(s, i, acc).0),
        i <= segments_from(s, i, acc).1 <= s.len(),
    decreases s.len() - i,
{
    if i < s.len() && s[i] == '.' {
        lemma_word_read(s, i + 1);
        let e = word_end(s, i + 1);
        if i + 1 < e {
            let w = s.subrange(i + 1, e);
            assert(is_word(w));
            assert forall|k: int| 0 <= k < acc.push(w).len() implies is_word(
                #[trigger] acc.push(w)[k],
            ) by {
                if k < acc.len() {
                    assert(is_word(acc[k]));
                }
            }
            lemma_segments_read(s, e, acc.push(w));
        }
    }
}

proof fn lemma_spaced_path_read(s: Seq<char>, i: int)
    requires
        0 <= i <= s.len(),
    ensures
        match spaced_path_at(s, i) {
            Ok((p, j)) => path_wf(p) && i < j <= s.len(),
            Err(j) => i <= j <= s.len(),
        },
{
    lemma_blanks_end_bound(s, i);
    let b = blanks_end(s, i);
    lemma_word_read(s, b);
    let e = word_end(s, b);
    if e > b {
        let w = s.subrange(b, e);
        assert(is_word(w));
        assert forall|k: int| 0 <= k < seq![w].len() implies is_word(#[trigger] seq![w][k]) by {}
        lemma_segments_read(s, e, seq![w]);
        lemma_blanks_end_bound(s, segments_from(s, e, seq![w]).1);
    }
}

proof fn lemma_digits_read(s: Seq<char>, i: int)
    requires
        0 <= i <= s.len(),
    ensures
        i <= digits_end(s, i) <= s.len(),
    decreases s.len() - i,
{
    if i < s.len() && is_digit(s[i]) {
        lemma_digits_read(s, i + 1);
    }
}

proof fn lemma_quote_read(s: Seq<char>, i: int)
    requires
        0 <= i <= s.len(),
    ensures
        i <= quote_at(s, i) <= s.len(),
        forall|k: int| i <= k < quote_at(s, i) ==> s[k] != '\'',
    decreases s.len() - i,
{
    if i < s.len() && s[i] != '\'' {
        lemma_quote_read(s, i + 1);
    }
}

proof fn lemma_literal_read(s: Seq<char>, i: int)
    requires
        0 <= i <= s.len(),
    ensures
        match literal_at(s, i) {
            Ok((l, j)) => literal_wf(l) && i < j <= s.len(),
            Err(j) => j == i,
        },
{
    if i < s.len() && s[i] == '\'' {
        lemma_quote_read(s, i + 1);
    } else {
        lemma_digits_read(s, i);
    }
}

proof fn lemma_comparison_read(s: Seq<char>, i: int)
    requires
        0 <= i <= s.len(),
    ensures
        match comparison_at(s, i) {
            Ok((e, j)) => expr_wf(e) && e is Cmp && i < j <= s.len(),
            Err(j) => i <= j <= s.len(),
        },
{
    reveal_strlit("<=");
    reveal_strlit(">=");
    reveal_strlit("<>");
    reveal_strlit("=");
    reveal_strlit("<");
    reveal_strlit(">");
    reveal_strlit("LIKE");
    lemma_spaced_path_read(s, i);
    if let Ok((lhs, j)) = spaced_path_at(s, i) {
        if let Ok((op, k)) = operator_at(s, j) {
            lemma_blanks_end_bound(s, k);
            lemma_literal_read(s, blanks_end(s, k));
            if let Ok((rhs, l)) = literal_at(s, blanks_end(s, k)) {
                lemma_blanks_end_bound(s, l);
            }
        }
    }
}

proof fn lemma_chain_read(s: Seq<char>, i: int, acc: ExprView)
    requires
        0 <= i <= s.len(),
        expr_wf(acc),
    ensures
        expr_wf(chain_from(s, i, acc).0),
        i <= chain_from(s, i, acc).1 <= s.len(),
    decreases s.len() - i,
{
    reveal_strlit("AND");
    if stands_at(s, i, "AND"@) {
        lemma_comparison_read(s, i + 3);
        if let Ok((next, j)) = comparison_at(s, i + 3) {
            lemma_chain_read(s, j, ExprView::And(Box::new(acc), Box::new(next)));
        }
    }
}

proof fn lemma_list_read(s: Seq<char>, i: int, acc: Seq<Seq<Seq<char>>>)
    requires
        0 <= i <= s.len(),
        acc.len() > 0,
        forall|k: int| 0 <= k < acc.len() ==> path_wf(#[trigger] acc[k]),
    ensures
        op_wf(PipeOpView::Select(list_from(s, i, acc).0)),
        i <= list_from(s, i, acc).1 <= s.len(),
    decreases s.len() - i,
{
    if i < s.len() && s[i] == ',' {
        lemma_spaced_path_read(s, i + 1);
        if let Ok((p, j)) = spaced_path_at(s, i + 1) {
            assert forall|k: int| 0 <= k < acc.push(p).len() implies path_wf(
                #[trigger] acc.push(p)[k],
            ) by {
                if k < acc.len() {
                    assert(path_wf(acc[k]));
                }
            }
            lemma_list_read(s, j, acc.push(p));
        }
    }
}

proof fn lemma_operation_read(s: Seq<char>, i: int)
    requires
        0 <= i <= s.len(),
    ensures
        match operation_at(s, i) {
            Ok((o, j)) => op_wf(o) && i < j <= s.len(),
            Err(j) => i <= j <= s.len(),
        },
{
    reveal_strlit("WHERE");
    reveal_strlit("SELECT");
    if stands_at(s, i, "WHERE"@) {
        lemma_comparison_read(s, i + 5);
        if let Ok((e, j)) = comparison_at(s, i + 5) {
            lemma_chain_read(s, j, e);
        }
    } else if stands_at(s, i, "SELECT"@) {
        lemma_spaced_path_read(s, i + 6);
        if let Ok((p, j)) = spaced_path_at(s, i + 6) {
            assert forall|k: int| 0 <= k < seq![p].len() implies path_wf(#[trigger] seq![p][k]) by {
            }
            lemma_list_read(s, j, seq![p]);
        }
    }
}

proof fn lemma_operations_read(s: Seq<char>, i: int, acc: Seq<PipeOpView>)
    requires
        0 <= i <= s.len(),
        forall|k: int| 0 <= k < acc.len() ==> op_wf(#[trigger] acc[k]),
    ensures
        match operations_from(s, i, acc) {
            Ok((ops, j)) => i <= j <= s.len() && forall|k: int|
                0 <= k < ops.len() ==> op_wf(#[trigger] ops[k]),
            Err(j) => i <= j <= s.len(),
        },
    decreases s.len() - i,
{
    reveal_strlit("|>");
    if stands_at(s, i, "|>"@) {
        lemma_blanks_end_bound(s, i + 2);
        lemma_operation_read(s, blanks_end(s, i + 2));
        if let Ok((o, j)) = operation_at(s, blanks_end(s, i + 2)) {
            assert forall|k: int| 0 <= k < acc.push(o).len() implies op_wf(
                #[trigger] acc.push(o)[k],
            ) by {
                if k < acc.len() {
                    assert(op_wf(acc[k]));
                }
            }
            lemma_operations_read(s, j, acc.push(o));
        }
    }
}

proof fn lemma_statement_read(s: Seq<char>)
    ensures
        match statement_of(s) {
            Ok(t) => stmt_wf(t),
            Err(i) => 0 <= i <= s.len(),
        },
{
    reveal_strlit("FROM");
    lemma_blanks_end_bound(s, 0);
    let i = blanks_end(s, 0);
    if stands_at(s, i, "FROM"@) {
        lemma_spaced_path_read(s, i + 4);
        if let Ok((from, j)) = spaced_path_at(s, i + 4) {
            lemma_operations_read(s, j, Seq::empty());
        }
    }
}

/// Whatever is read can be written, and then reads back as the same statement: writing a
/// statement that was read loses nothing.
pub proof fn law_read_writes_back(s: Seq<char>)
    ensures
        parsed(s) matches Ok(t) ==> stmt_wf(t) && parsed(stmt_text(t)) == parsed(s),
{
    lemma_statement_read(s);
    if let Ok(t) = statement_of(s) {
        law_written_reads_back(t);
    }
}

/// Every keyword has a capital letter in front.
proof fn lemma_keyword_begins_with_a_capital(w: Seq<char>)
    requires
        is_keyword(w),
    ensures
        w.len() > 0,
        'A' <= w[0] <= 'Z',
{
    reveal_strlit("FROM");
    reveal_strlit("WHERE");
    reveal_strlit("SELECT");
    reveal_strlit("AS");
    reveal_strlit("EXTEND");
    reveal_strlit("JOIN");
    reveal_strlit("ON");
    reveal_strlit("AGGREGATE");
    reveal_strlit("GROUP");
    reveal_strlit("ORDER");
    reveal_strlit("BY");
    reveal_strlit("DESC");
    reveal_strlit("LIMIT");
    reveal_strlit("DISTINCT");
    reveal_strlit("UNION");
    reveal_strlit("EXCEPT");
    reveal_strlit("INTERSECT");
    reveal_strlit("INSERT");
    reveal_strlit("UPSERT");
    reveal_strlit("INTO");
    reveal_strlit("VALUES");
    reveal_strlit("UPDATE");
    reveal_strlit("REMOVE");
    reveal_strlit("CALL");
    reveal_strlit("DECODE");
    reveal_strlit("ENCODE");
    reveal_strlit("CREATE");
    reveal_strlit("POLICY");
    reveal_strlit("ALLOW");
    reveal_strlit("TRIGGER");
    reveal_strlit("DO");
    reveal_strlit("CONNECTION");
    reveal_strlit("DRIVER");
    reveal_strlit("AT");
    reveal_strlit("SECRET");
    reveal_strlit("PREVIEW");
    reveal_strlit("COMMIT");
    reveal_strlit("AND");
    reveal_strlit("OR");
    reveal_strlit("NOT");
    reveal_strlit("LIKE");
    reveal_strlit("IN");
    reveal_strlit("BETWEEN");
    reveal_strlit("JOB");
    reveal_strlit("EVERY");
    reveal_strlit("CONNECT");
    reveal_strlit("DISCONNECT");
    reveal_strlit("DESCRIBE");
}

/// The byte offset of an error lies within the input, at the start of a character or at the end;
/// the class of the error is the one that the word there calls for: a word in the shape of a keyword
/// that is none of the language is an unknown keyword, be it in small letters or in capitals.
pub proof fn law_error_lies_in_input(s: Seq<char>)
    ensures
        parsed(s) matches Err(e) ==> exists|i: int|
            0 <= i <= s.len() && e.at == byte_len(#[trigger] s.take(i)) && (e.code
                == ParseErrorCode::UnexpectedEof <==> i == s.len()) && (e.code
                == ParseErrorCode::UnknownKeyword <==> unknown_keyword_at(s, i)),
{
    lemma_statement_read(s);
    if let Err(i) = statement_of(s) {
        assert(parsed(s)->Err_0.at == byte_len(s.take(i)));
        if i < s.len() && 'a' <= s[i] <= 'z' {
            lemma_word_read(s, i);
            let w = s.subrange(i, word_end(s, i));
            if is_keyword(w) {
                lemma_keyword_begins_with_a_capital(w);
                assert(w[0] == s[i]);
            }
        }
    }
}

} // verus!
