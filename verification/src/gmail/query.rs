//! Pushing a `WHERE` predicate down into Gmail's search syntax.
//!
//! | predicate                          | search term     |
//! |------------------------------------|-----------------|
//! | `from = 'x'`, `from ~ 'x'`, `LIKE` | `from:x`        |
//! | `to`, `subject`                    | in the same way |
//! | `label = 'INBOX'`                  | `label:INBOX`   |
//! | `is_unread = true` / `false`       | `is:unread` / `is:read` |
//! | `date > ms`, `date >= ms`          | `after:` and the seconds, rounded down |
//! | `date < ms`                        | `before:` and the seconds, rounded up |
//! | `date <= ms`                       | `before:` and the next whole second |
//!
//! Gmail takes the terms of a search together, so each conjunct is pushed down by itself. A
//! conjunct of any other shape is left for the engine to filter by: the residual. A date counts
//! milliseconds and a term whole seconds, so a date's term may find more than the comparison asks
//! for, but never less; the comparison is then left in the residual as well.
use crate::text::{
    chars_of, int_in, int_text, is_white_space, join, joined, law_numbers_read_back,
    lemma_replaced_take, replaced, same, signed_decimal, views, white_space,
};
use crate::types::predicate::{
    holds, CmpOp, ColRef, Literal, LiteralView, Predicate, PredicateView,
};
use vstd::prelude::*;

verus! {

/// What is pushed down, and what is left.
#[derive(Debug, Clone, PartialEq)]
pub struct PushdownResult {
    /// The search, its terms parted by blanks; empty where nothing is pushed down.
    pub query: String,
    /// What the engine has to filter by; `None` where all is pushed down.
    pub residual: Option<Predicate>,
}

impl Default for PushdownResult {
    fn default() -> (r: PushdownResult)
        ensures
            r.query@.len() == 0,
            r.residual is None,
    {
        PushdownResult { query: String::new(), residual: None }
    }
}

/// The double quotes of a text dropped.
pub open spec fn unquoted_char(c: char) -> Seq<char> {
    if c == '"' {
        Seq::empty()
    } else {
        seq![c]
    }
}

/// A value as it stands in a term: bare, or in double quotes, its own dropped, where it holds
/// white space.
pub open spec fn quoted(value: Seq<char>) -> Seq<char> {
    if exists|i: int| 0 <= i < value.len() && is_white_space(#[trigger] value[i]) {
        seq!['"'] + replaced(value, |c: char| unquoted_char(c)) + seq!['"']
    } else {
        value
    }
}

/// A bound on the date of a message, in whole seconds.
#[derive(Debug, Clone, Copy, PartialEq, Eq, Structural)]
pub enum Bound {
    /// Not before this second.
    After(i64),
    /// Before this second.
    Before(i64),
}

/// The second that a number of milliseconds lies in.
pub open spec fn second_of(ms: int) -> int {
    ms / 1000
}

/// Whether a date, in milliseconds, stands in this relation to another.
pub open spec fn date_satisfies(date: int, op: CmpOp, ms: int) -> bool {
    match op {
        CmpOp::Lt => date < ms,
        CmpOp::Le => date <= ms,
        CmpOp::Gt => date > ms,
        CmpOp::Ge => date >= ms,
        CmpOp::Eq => date == ms,
        CmpOp::Ne => date != ms,
        CmpOp::Match => false,
    }
}

impl Bound {
    /// Whether a message of this date, in milliseconds, is within the bound.
    pub open spec fn admits(self, date: int) -> bool {
        match self {
            Bound::After(n) => n * 1000 <= date,
            Bound::Before(n) => date < n * 1000,
        }
    }

    /// The bound as a term.
    pub open spec fn text(self) -> Seq<char> {
        match self {
            Bound::After(n) => "after:"@ + int_text(n as int),
            Bound::Before(n) => "before:"@ + int_text(n as int),
        }
    }
}

/// The bound that a comparison of the date with `ms` is searched by: from the second of `ms` on, or
/// up to the first whole second that no date asked for reaches.
pub open spec fn bound_of(op: CmpOp, ms: int) -> Option<Bound> {
    match op {
        CmpOp::Gt | CmpOp::Ge => Some(Bound::After(second_of(ms) as i64)),
        CmpOp::Lt => Some(Bound::Before((second_of(ms - 1) + 1) as i64)),
        CmpOp::Le => Some(Bound::Before((second_of(ms) + 1) as i64)),
        _ => None,
    }
}

/// Whether the bound of a comparison is known to admit no other date than those that satisfy it:
/// where what is asked for ends on a whole second.
pub open spec fn bound_is_exact(op: CmpOp, ms: int) -> bool {
    match op {
        CmpOp::Ge | CmpOp::Lt => ms % 1000 == 0,
        CmpOp::Le => (ms + 1) % 1000 == 0,
        _ => false,
    }
}

/// Whether the fields of this name are searched by an operator of the same name.
pub open spec fn is_text_field(field: Seq<char>) -> bool {
    field == "from"@ || field == "to"@ || field == "subject"@
}

/// The term that expresses a comparison of one column, if there is one.
pub open spec fn field_term(field: Seq<char>, op: CmpOp, lit: LiteralView) -> Option<Seq<char>> {
    match lit {
        LiteralView::Text(v) => if is_text_field(field) && (op == CmpOp::Eq || op == CmpOp::Match) {
            Some(field + ":"@ + quoted(v))
        } else if field == "label"@ && op == CmpOp::Eq {
            Some("label:"@ + quoted(v))
        } else {
            None
        },
        LiteralView::Bool(b) => if field == "is_unread"@ && op == CmpOp::Eq {
            Some(
                if b {
                    "is:unread"@
                } else {
                    "is:read"@
                },
            )
        } else {
            None
        },
        LiteralView::Int(ms) => if field == "date"@ {
            match bound_of(op, ms) {
                Some(b) => Some(b.text()),
                None => None,
            }
        } else {
            None
        },
        _ => None,
    }
}

/// The term that expresses a predicate other than a conjunction, if there is one.
pub open spec fn term_of(p: PredicateView) -> Option<Seq<char>> {
    match p {
        PredicateView::Cmp(col, op, lit) => if col.len() == 1 {
            field_term(col[0], op, lit)
        } else {
            None
        },
        PredicateView::Like(col, pattern) => if col.len() == 1 && is_text_field(col[0]) {
            Some(col[0] + ":"@ + quoted(pattern))
        } else {
            None
        },
        _ => None,
    }
}

/// Whether a predicate compares the date with a number that its bound does not lie on.
pub open spec fn is_coarse(p: PredicateView) -> bool {
    p matches PredicateView::Cmp(_, op, LiteralView::Int(ms)) && !bound_is_exact(op, ms)
}

/// Whether a predicate other than a conjunction is left for the engine: where no term expresses it,
/// or its term finds more than it asks for.
pub open spec fn is_left(p: PredicateView) -> bool {
    term_of(p) is None || is_coarse(p)
}

/// The terms that a predicate pushes down: those of its conjuncts, in order.
pub open spec fn terms_of(p: PredicateView) -> Seq<Seq<char>>
    decreases p,
{
    match p {
        PredicateView::And(a, b) => terms_of(*a) + terms_of(*b),
        _ => match term_of(p) {
            Some(t) => seq![t],
            None => Seq::empty(),
        },
    }
}

/// The conjunction of what may be absent.
pub open spec fn both(a: Option<PredicateView>, b: Option<PredicateView>) -> Option<PredicateView> {
    match (a, b) {
        (Some(x), Some(y)) => Some(PredicateView::And(Box::new(x), Box::new(y))),
        (Some(x), None) => Some(x),
        (None, y) => y,
    }
}

/// What a predicate leaves for the engine: its conjuncts that are not expressed exactly, in order.
pub open spec fn residual_of(p: PredicateView) -> Option<PredicateView>
    decreases p,
{
    match p {
        PredicateView::And(a, b) => both(residual_of(*a), residual_of(*b)),
        _ => if is_left(p) {
            Some(p)
        } else {
            None
        },
    }
}

/// The terms of a search scoped to a label.
pub open spec fn search_terms(label: Option<Seq<char>>, p: Option<PredicateView>) -> Seq<
    Seq<char>,
> {
    let scope = match label {
        Some(l) => seq!["label:"@ + quoted(l)],
        None => Seq::empty(),
    };
    match p {
        Some(p) => scope + terms_of(p),
        None => scope,
    }
}

/// What an optional predicate denotes.
pub open spec fn opt_predicate(p: Option<Predicate>) -> Option<PredicateView> {
    match p {
        Some(p) => Some(p@),
        None => None,
    }
}

fn prefixed(prefix: &str, rest: &str) -> (r: String)
    ensures
        r@ == prefix@ + rest@,
{
    let mut r: String = prefix.to_owned();
    r.append(rest);
    r
}

/// A value as it stands in a term.
pub fn quote_term(value: &str) -> (r: String)
    ensures
        r@ == quoted(value@),
{
    let v: Vec<char> = chars_of(value);
    let mut spaced: bool = false;
    let mut i: usize = 0;
    while i < v.len()
        invariant
            i <= v.len(),
            v@ == value@,
            spaced == exists|j: int| 0 <= j < i && is_white_space(#[trigger] value@[j]),
        decreases v.len() - i,
    {
        if white_space(v[i]) {
            spaced = true;
            assert(is_white_space(value@[i as int]));
        }
        i = i + 1;
    }
    if !spaced {
        return value.to_owned();
    }
    let ghost f = |c: char| unquoted_char(c);
    let mut r: String = String::new();
    r.push('"');
    let mut k: usize = 0;
    assert(r@ =~= seq!['"'] + replaced(v@.take(0), f));
    while k < v.len()
        invariant
            k <= v.len(),
            f == |c: char| unquoted_char(c),
            r@ == seq!['"'] + replaced(v@.take(k as int), f),
        decreases v.len() - k,
    {
        proof {
            lemma_replaced_take(v@, f, k as int);
        }
        if v[k] != '"' {
            r.push(v[k]);
        }
        k = k + 1;
        assert(r@ =~= seq!['"'] + replaced(v@.take(k as int), f));
    }
    r.push('"');
    assert(v@.take(k as int) =~= value@);
    assert(r@ =~= quoted(value@));
    r
}

/// The name of a column of the row itself, not of one within it.
fn field_of(col: &ColRef) -> (r: Option<&str>)
    ensures
        match r {
            Some(f) => col@.len() == 1 && col@[0] == f@,
            None => col@.len() != 1,
        },
{
    if col.path.len() == 1 {
        Some(col.path[0].as_str())
    } else {
        None
    }
}

fn text_field(field: &str) -> (r: bool)
    ensures
        r == is_text_field(field@),
{
    same(field, "from") || same(field, "to") || same(field, "subject")
}

/// The second that a number of milliseconds lies in.
fn second(ms: i64) -> (r: i64)
    ensures
        r == second_of(ms as int),
        -0x20_c49b_a5e3_5400 <= r <= 0x20_c49b_a5e3_53f7,
{
    if ms >= 0 {
        ms / 1000
    } else {
        let above: u64 = (-1 - ms) as u64;
        -1 - (above / 1000) as i64
    }
}

/// The bound that a comparison of the date with `ms` is searched by.
fn date_bound(op: CmpOp, ms: i64) -> (r: Option<Bound>)
    ensures
        r == bound_of(op, ms as int),
{
    let n: i64 = second(ms);
    match op {
        CmpOp::Gt | CmpOp::Ge => Some(Bound::After(n)),
        CmpOp::Lt => {
            if on_the_second(ms) {
                Some(Bound::Before(n))
            } else {
                Some(Bound::Before(n + 1))
            }
        },
        CmpOp::Le => Some(Bound::Before(n + 1)),
        _ => None,
    }
}

/// Whether a number of milliseconds is one of whole seconds.
fn on_the_second(ms: i64) -> (r: bool)
    ensures
        r == (ms as int % 1000 == 0),
{
    if ms >= 0 {
        ms % 1000 == 0
    } else {
        let above: u64 = (-1 - ms) as u64;
        above % 1000 == 999
    }
}

fn coarse(op: CmpOp, lit: &Literal) -> (r: bool)
    ensures
        forall|col: Seq<Seq<char>>| r == #[trigger] is_coarse(PredicateView::Cmp(col, op, lit@)),
{
    match lit {
        Literal::Int(ms) => {
            match op {
                CmpOp::Ge | CmpOp::Lt => !on_the_second(*ms),
                CmpOp::Le => *ms == i64::MAX || !on_the_second(*ms + 1),
                _ => true,
            }
        },
        _ => false,
    }
}

/// The term that expresses a comparison, if there is one.
fn lower_comparison(col: &ColRef, op: CmpOp, lit: &Literal) -> (r: Option<String>)
    ensures
        crate::text::opt_view(r) == term_of(PredicateView::Cmp(col@, op, lit@)),
{
    let field: &str = match field_of(col) {
        Some(f) => f,
        None => return None,
    };
    match lit {
        Literal::Text(v) => {
            let equal: bool = match op {
                CmpOp::Eq => true,
                _ => false,
            };
            let matched: bool = match op {
                CmpOp::Match => true,
                _ => false,
            };
            if text_field(field) && (equal || matched) {
                let mut r: String = prefixed(field, ":");
                r.append(quote_term(v.as_str()).as_str());
                Some(r)
            } else if same(field, "label") && equal {
                Some(prefixed("label:", quote_term(v.as_str()).as_str()))
            } else {
                None
            }
        },
        Literal::Bool(b) => {
            let equal: bool = match op {
                CmpOp::Eq => true,
                _ => false,
            };
            if same(field, "is_unread") && equal {
                if *b {
                    Some("is:unread".to_owned())
                } else {
                    Some("is:read".to_owned())
                }
            } else {
                None
            }
        },
        Literal::Int(ms) => {
            if !same(field, "date") {
                return None;
            }
            match date_bound(op, *ms) {
                Some(Bound::After(n)) => Some(prefixed("after:", signed_decimal(n).as_str())),
                Some(Bound::Before(n)) => Some(prefixed("before:", signed_decimal(n).as_str())),
                None => None,
            }
        },
        _ => None,
    }
}

/// Appends the terms of a predicate and returns what it leaves.
pub fn lower(p: &Predicate, terms: &mut Vec<String>) -> (r: Option<Predicate>)
    ensures
        views(final(terms)@) == views(old(terms)@) + terms_of(p@),
        opt_predicate(r) == residual_of(p@),
    decreases p,
{
    let ghost had = views(terms@);
    match p {
        Predicate::And(a, b) => {
            let ra: Option<Predicate> = lower(a, terms);
            let rb: Option<Predicate> = lower(b, terms);
            assert(views(terms@) =~= had + terms_of(p@));
            match (ra, rb) {
                (Some(x), Some(y)) => Some(Predicate::And(Box::new(x), Box::new(y))),
                (Some(x), None) => Some(x),
                (None, y) => y,
            }
        },
        Predicate::Cmp(col, op, lit) => {
            match lower_comparison(col, *op, lit) {
                Some(term) => {
                    let ghost t = term@;
                    terms.push(term);
                    assert(views(terms@) =~= had + seq![t]);
                    if coarse(*op, lit) {
                        Some(p.clone())
                    } else {
                        None
                    }
                },
                None => {
                    assert(views(terms@) =~= had + terms_of(p@));
                    Some(p.clone())
                },
            }
        },
        Predicate::Like(col, pattern) => {
            match field_of(col) {
                Some(field) => {
                    if text_field(field) {
                        let mut term: String = prefixed(field, ":");
                        term.append(quote_term(pattern.0.as_str()).as_str());
                        let ghost t = term@;
                        terms.push(term);
                        assert(views(terms@) =~= had + seq![t]);
                        return None;
                    }
                },
                None => {},
            }
            assert(views(terms@) =~= had + terms_of(p@));
            Some(p.clone())
        },
        _ => {
            assert(views(terms@) =~= had + terms_of(p@));
            Some(p.clone())
        },
    }
}

/// The search for a predicate, scoped to a label where one is given, and what it leaves for the
/// engine to filter by.
#[must_use]
pub fn build_query(label: Option<&str>, predicate: Option<&Predicate>) -> (r: PushdownResult)
    ensures
        r.query@ == joined(
            search_terms(
                crate::text::opt_str(label),
                match predicate {
                    Some(p) => Some(p@),
                    None => None,
                },
            ),
            " "@,
        ),
        opt_predicate(r.residual) == match predicate {
            Some(p) => residual_of(p@),
            None => None,
        },
{
    let mut terms: Vec<String> = Vec::new();
    match label {
        Some(l) => {
            terms.push(prefixed("label:", quote_term(l).as_str()));
            assert(views(terms@) =~= search_terms(Some(l@), None));
        },
        None => {
            assert(views(terms@) =~= search_terms(None, None));
        },
    }
    let residual: Option<Predicate> = match predicate {
        Some(p) => lower(p, &mut terms),
        None => None,
    };
    PushdownResult { query: join(&terms, " "), residual }
}

/// The conjuncts of a predicate, in order.
pub open spec fn conjuncts(p: PredicateView) -> Seq<PredicateView>
    decreases p,
{
    match p {
        PredicateView::And(a, b) => conjuncts(*a) + conjuncts(*b),
        _ => seq![p],
    }
}

/// Whether the truth of the atoms is that of a message of this date, in milliseconds.
pub open spec fn reads_date(atom: spec_fn(PredicateView) -> bool, date: int) -> bool {
    forall|op: CmpOp, ms: int|
        #![trigger atom(PredicateView::Cmp(seq!["date"@], op, LiteralView::Int(ms)))]
        atom(PredicateView::Cmp(seq!["date"@], op, LiteralView::Int(ms))) == date_satisfies(
            date,
            op,
            ms,
        )
}

/// Whether the term of a conjunct finds a message of this date: a bound goes by the date, any other
/// term says what its conjunct says.
pub open spec fn term_finds(
    c: PredicateView,
    atom: spec_fn(PredicateView) -> bool,
    date: int,
) -> bool {
    match c {
        PredicateView::Cmp(col, op, LiteralView::Int(ms)) => bound_of(op, ms) matches Some(b)
            ==> b.admits(date),
        _ => holds(c, atom),
    }
}

/// Each term finds the message.
pub open spec fn search_finds(
    p: PredicateView,
    atom: spec_fn(PredicateView) -> bool,
    date: int,
) -> bool {
    forall|i: int|
        #![trigger conjuncts(p)[i]]
        0 <= i < conjuncts(p).len() && term_of(conjuncts(p)[i]) is Some ==> term_finds(
            conjuncts(p)[i],
            atom,
            date,
        )
}

/// An `i64` holds every number that a predicate compares with.
pub open spec fn is_of_machine_size(p: PredicateView) -> bool
    decreases p,
{
    match p {
        PredicateView::And(a, b) => is_of_machine_size(*a) && is_of_machine_size(*b),
        PredicateView::Cmp(_, _, LiteralView::Int(ms)) => i64::MIN <= ms <= i64::MAX,
        _ => true,
    }
}

/// A date's bound admits every date that satisfies the comparison, so that nothing that is asked
/// for goes unfetched; and no other, where the comparison is not left in the residual.
pub proof fn law_bounds_never_leave_a_date_out(op: CmpOp, ms: int, date: int)
    requires
        i64::MIN <= ms <= i64::MAX,
    ensures
        bound_of(op, ms) matches Some(b) ==> {
            &&& date_satisfies(date, op, ms) ==> b.admits(date)
            &&& bound_is_exact(op, ms) ==> (b.admits(date) ==> date_satisfies(date, op, ms))
        },
{
}

/// Pushing down loses nothing and adds nothing: a message satisfies the predicate exactly where
/// every term of the search finds it and it satisfies the residual. So the search never leaves out
/// a message that is asked for, and what it finds beyond that the residual takes out.
pub proof fn law_search_and_residual_make_the_predicate(
    p: PredicateView,
    atom: spec_fn(PredicateView) -> bool,
    date: int,
)
    requires
        is_of_machine_size(p),
        reads_date(atom, date),
    ensures
        holds(p, atom) <==> search_finds(p, atom, date) && match residual_of(p) {
            Some(r) => holds(r, atom),
            None => true,
        },
    decreases p,
{
    match p {
        PredicateView::And(a, b) => {
            law_search_and_residual_make_the_predicate(*a, atom, date);
            law_search_and_residual_make_the_predicate(*b, atom, date);
            let ca = conjuncts(*a);
            let cb = conjuncts(*b);
            let c = conjuncts(p);
            assert(c == ca + cb);
            if search_finds(*a, atom, date) && search_finds(*b, atom, date) {
                assert forall|i: int|
                    #![trigger c[i]]
                    0 <= i < c.len() && term_of(c[i]) is Some implies term_finds(
                    c[i],
                    atom,
                    date,
                ) by {
                    if i < ca.len() {
                        assert(c[i] == ca[i]);
                    } else {
                        assert(c[i] == cb[i - ca.len()]);
                    }
                }
            }
            if search_finds(p, atom, date) {
                assert forall|i: int|
                    #![trigger ca[i]]
                    0 <= i < ca.len() && term_of(ca[i]) is Some implies term_finds(
                    ca[i],
                    atom,
                    date,
                ) by {
                    assert(c[i] == ca[i]);
                }
                assert forall|i: int|
                    #![trigger cb[i]]
                    0 <= i < cb.len() && term_of(cb[i]) is Some implies term_finds(
                    cb[i],
                    atom,
                    date,
                ) by {
                    assert(c[ca.len() + i] == cb[i]);
                }
            }
        },
        _ => {
            assert(conjuncts(p) == seq![p]);
            assert(conjuncts(p)[0] == p);
            if let PredicateView::Cmp(col, op, LiteralView::Int(ms)) = p {
                law_bounds_never_leave_a_date_out(op, ms, date);
                if term_of(p) is Some {
                    assert(col =~= seq!["date"@]);
                    assert(atom(PredicateView::Cmp(seq!["date"@], op, LiteralView::Int(ms)))
                        == date_satisfies(date, op, ms));
                }
            }
        },
    }
}

/// A conjunction is lowered side by side: it pushes the terms of the left side and then those of
/// the right one, and leaves the conjunction of what the two leave. A disjunction, a negation, a
/// list and a range are left whole.
pub proof fn law_conjunctions_are_lowered_side_by_side(
    a: PredicateView,
    b: PredicateView,
    q: PredicateView,
)
    ensures
        terms_of(PredicateView::And(Box::new(a), Box::new(b))) == terms_of(a) + terms_of(b),
        residual_of(PredicateView::And(Box::new(a), Box::new(b))) == match (
            residual_of(a),
            residual_of(b),
        ) {
            (None, None) => None,
            (Some(r), None) => Some(r),
            (None, Some(r)) => Some(r),
            (Some(ra), Some(rb)) => Some(PredicateView::And(Box::new(ra), Box::new(rb))),
        },
        q is Or || q is Not || q is In || q is Between ==> terms_of(q).len() == 0 && residual_of(q)
            == Some(q),
{
}

/// The terms are those of the conjuncts that have one, and the conjuncts of the residual are those
/// that no term expresses exactly.
pub proof fn law_each_conjunct_is_pushed_or_left(p: PredicateView)
    ensures
        terms_of(p) == conjuncts(p).filter(|c: PredicateView| term_of(c) is Some).map_values(
            |c: PredicateView| term_of(c)->Some_0,
        ),
        match residual_of(p) {
            Some(r) => conjuncts(r) == conjuncts(p).filter(|c: PredicateView| is_left(c)),
            None => conjuncts(p).filter(|c: PredicateView| is_left(c)).len() == 0,
        },
    decreases p,
{
    let has = |c: PredicateView| term_of(c) is Some;
    let lacks = |c: PredicateView| is_left(c);
    let term = |c: PredicateView| term_of(c)->Some_0;
    match p {
        PredicateView::And(a, b) => {
            law_each_conjunct_is_pushed_or_left(*a);
            law_each_conjunct_is_pushed_or_left(*b);
            let ca = conjuncts(*a);
            let cb = conjuncts(*b);
            Seq::filter_distributes_over_add(ca, cb, has);
            Seq::filter_distributes_over_add(ca, cb, lacks);
            assert((ca.filter(has) + cb.filter(has)).map_values(term) =~= ca.filter(has).map_values(
                term,
            ) + cb.filter(has).map_values(term));
            assert(ca.filter(lacks).len() == 0 ==> ca.filter(lacks) + cb.filter(lacks)
                =~= cb.filter(lacks));
            assert(cb.filter(lacks).len() == 0 ==> ca.filter(lacks) + cb.filter(lacks)
                =~= ca.filter(lacks));
        },
        _ => {
            let c = seq![p];
            assert(conjuncts(p) == c);
            assert(c.drop_last() =~= Seq::empty());
            reveal_with_fuel(Seq::filter, 2);
            assert(c.filter(has) =~= if has(p) {
                c
            } else {
                Seq::empty()
            });
            assert(c.filter(lacks) =~= if lacks(p) {
                c
            } else {
                Seq::empty()
            });
            assert(terms_of(p) =~= c.filter(has).map_values(term));
        },
    }
}

// ---- what a search says ----------------------------------------------------------------------

/// The index of the first colon at or behind `i`, or the length.
pub open spec fn colon_at(t: Seq<char>, i: int) -> int
    decreases t.len() - i,
{
    if i >= t.len() || t[i] == ':' {
        i
    } else {
        colon_at(t, i + 1)
    }
}

/// What stands before the first colon of a term.
pub open spec fn operator_of(t: Seq<char>) -> Seq<char> {
    t.subrange(0, colon_at(t, 0))
}

/// What stands behind the first colon of a term.
pub open spec fn operand_of(t: Seq<char>) -> Seq<char> {
    t.subrange(colon_at(t, 0) + 1, t.len() as int)
}

/// Whether a text holds white space.
pub open spec fn is_spaced(s: Seq<char>) -> bool {
    exists|i: int| 0 <= i < s.len() && is_white_space(#[trigger] s[i])
}

/// What an operand says: quotes round a text with white space only hold it together.
pub open spec fn spoken(s: Seq<char>) -> Seq<char> {
    if is_spaced(s) && s.len() >= 2 && s[0] == '"' && s.last() == '"' {
        s.subrange(1, s.len() - 1)
    } else {
        s
    }
}

/// A text without its double quotes.
pub open spec fn without_quotes(s: Seq<char>) -> Seq<char>
    decreases s.len(),
{
    if s.len() == 0 {
        s
    } else if s.last() == '"' {
        without_quotes(s.drop_last())
    } else {
        without_quotes(s.drop_last()).push(s.last())
    }
}

/// What is searched for a value: a value with white space cannot keep quotes of its own.
pub open spec fn searched(v: Seq<char>) -> Seq<char> {
    if is_spaced(v) {
        without_quotes(v)
    } else {
        v
    }
}

/// A message, as far as a search goes by it.
pub ghost struct Mail {
    /// Its date, in milliseconds.
    pub date: int,
    /// Whether it is unread.
    pub unread: bool,
    /// Whether the operator of this name finds it by this text.
    pub found: spec_fn(Seq<char>, Seq<char>) -> bool,
}

/// Whether a term, by its text alone, finds a message.
pub open spec fn term_matches(t: Seq<char>, m: Mail) -> bool {
    let v = operand_of(t);
    if operator_of(t) == "after"@ {
        int_in(v) matches Some(n) && n * 1000 <= m.date
    } else if operator_of(t) == "before"@ {
        int_in(v) matches Some(n) && m.date < n * 1000
    } else if operator_of(t) == "is"@ {
        if m.unread {
            v == "unread"@
        } else {
            v == "read"@
        }
    } else {
        (m.found)(operator_of(t), spoken(v))
    }
}

/// Whether a search, by its terms alone, finds a message.
pub open spec fn search_matches(terms: Seq<Seq<char>>, m: Mail) -> bool {
    forall|i: int| 0 <= i < terms.len() ==> term_matches(#[trigger] terms[i], m)
}

/// Whether this is a column whose text is searched by an operator of the same name.
pub open spec fn is_searched_column(c: Seq<char>) -> bool {
    c == "from"@ || c == "to"@ || c == "subject"@
}

/// Whether the truth of the atoms is that of the message: a comparison of the date goes by the date,
/// one of `is_unread` by that, and one of a text by what its column's operator finds.
pub open spec fn describes(atom: spec_fn(PredicateView) -> bool, m: Mail) -> bool {
    &&& reads_date(atom, m.date)
    &&& forall|b: bool|
        #![trigger atom(PredicateView::Cmp(seq!["is_unread"@], CmpOp::Eq, LiteralView::Bool(b)))]
        atom(PredicateView::Cmp(seq!["is_unread"@], CmpOp::Eq, LiteralView::Bool(b))) == (m.unread
            == b)
    &&& forall|c: Seq<char>, op: CmpOp, v: Seq<char>|
        #![trigger atom(PredicateView::Cmp(seq![c], op, LiteralView::Text(v)))]
        is_searched_column(c) && (op == CmpOp::Eq || op == CmpOp::Match) || c == "label"@ && op
            == CmpOp::Eq ==> atom(PredicateView::Cmp(seq![c], op, LiteralView::Text(v))) == (
        m.found)(c, searched(v))
    &&& forall|c: Seq<char>, v: Seq<char>|
        #![trigger atom(PredicateView::Like(seq![c], v))]
        is_searched_column(c) ==> atom(PredicateView::Like(seq![c], v)) == (m.found)(
            c,
            searched(v),
        )
}

proof fn lemma_colon(a: Seq<char>, b: Seq<char>, i: int)
    requires
        0 <= i <= a.len(),
        forall|k: int| 0 <= k < a.len() ==> a[k] != ':',
    ensures
        colon_at(a + ":"@ + b, i) == a.len(),
    decreases a.len() - i,
{
    reveal_strlit(":");
    let t = a + ":"@ + b;
    if i < a.len() {
        assert(t[i] == a[i]);
        lemma_colon(a, b, i + 1);
    } else {
        assert(t[i] == ':');
    }
}

/// The two sides of a term.
proof fn lemma_term(a: Seq<char>, b: Seq<char>)
    requires
        forall|k: int| 0 <= k < a.len() ==> a[k] != ':',
    ensures
        operator_of(a + ":"@ + b) == a,
        operand_of(a + ":"@ + b) == b,
{
    reveal_strlit(":");
    lemma_colon(a, b, 0);
    assert(operator_of(a + ":"@ + b) =~= a);
    assert(operand_of(a + ":"@ + b) =~= b);
}

proof fn lemma_quotes_dropped(v: Seq<char>)
    ensures
        replaced(v, |c: char| unquoted_char(c)) == without_quotes(v),
        is_spaced(v) ==> is_spaced(without_quotes(v)),
    decreases v.len(),
{
    let f = |c: char| unquoted_char(c);
    if v.len() > 0 {
        let w = v.drop_last();
        lemma_quotes_dropped(w);
        assert(replaced(v, f) =~= without_quotes(v));
        if is_spaced(v) {
            let i = choose|i: int| 0 <= i < v.len() && is_white_space(#[trigger] v[i]);
            let u = without_quotes(w);
            if i < w.len() {
                assert(is_white_space(w[i]));
                let j = choose|j: int| 0 <= j < u.len() && is_white_space(#[trigger] u[j]);
                assert(without_quotes(v)[j] == u[j]);
            } else {
                assert(v.last() != '"');
                assert(without_quotes(v)[u.len() as int] == v.last());
            }
        }
    }
}

/// What is put into a term is what the term says.
proof fn lemma_spoken(v: Seq<char>)
    ensures
        spoken(quoted(v)) == searched(v),
{
    let q = quoted(v);
    if is_spaced(v) {
        lemma_quotes_dropped(v);
        let u = without_quotes(v);
        let j = choose|j: int| 0 <= j < u.len() && is_white_space(#[trigger] u[j]);
        assert(q == seq!['"'] + u + seq!['"']);
        assert(q[j + 1] == u[j]);
        assert(is_spaced(q));
        assert(q.subrange(1, q.len() - 1) =~= u);
    } else {
        assert(q == v);
    }
}

/// The names of the operators hold no colon, and differ from each other.
proof fn lemma_operators()
    ensures
        forall|c: Seq<char>, k: int|
            (is_searched_column(c) || c == "label"@ || c == "after"@ || c == "before"@ || c
                == "is"@) && 0 <= k < c.len() ==> #[trigger] c[k] != ':',
        forall|c: Seq<char>|
            #[trigger] is_searched_column(c) || c == "label"@ ==> c != "after"@ && c != "before"@
                && c != "is"@,
        "after"@ != "before"@,
        "is"@ != "after"@,
        "is"@ != "before"@,
        "unread"@ != "read"@,
        "label:"@ == "label"@ + ":"@,
        "after:"@ == "after"@ + ":"@,
        "before:"@ == "before"@ + ":"@,
        "is:unread"@ == "is"@ + ":"@ + "unread"@,
        "is:read"@ == "is"@ + ":"@ + "read"@,
{
    reveal_strlit("from");
    reveal_strlit("to");
    reveal_strlit("subject");
    reveal_strlit("label");
    reveal_strlit("after");
    reveal_strlit("before");
    reveal_strlit("is");
    reveal_strlit("unread");
    reveal_strlit("read");
    reveal_strlit(":");
    reveal_strlit("label:");
    reveal_strlit("after:");
    reveal_strlit("before:");
    reveal_strlit("is:unread");
    reveal_strlit("is:read");
    assert("after"@[0] == 'a');
    assert("before"@[0] == 'b');
    assert("is"@[0] == 'i');
    assert("label"@[0] == 'l');
    assert("from"@[0] == 'f');
    assert("to"@[0] == 't');
    assert("subject"@[0] == 's');
    assert("unread"@[0] == 'u');
    assert("read"@[0] == 'r');
    assert("label:"@ =~= "label"@ + ":"@);
    assert("after:"@ =~= "after"@ + ":"@);
    assert("before:"@ =~= "before"@ + ":"@);
    assert("is:unread"@ =~= "is"@ + ":"@ + "unread"@);
    assert("is:read"@ =~= "is"@ + ":"@ + "read"@);
}

/// The term that is pushed for a comparison or a pattern on a text column reads back as the column
/// and what is searched for the value. So terms of different columns differ, and mail is never
/// searched for by another column than the one asked about.
pub proof fn law_text_terms_name_their_column(c: Seq<char>, op: CmpOp, v: Seq<char>)
    requires
        is_searched_column(c) && (op == CmpOp::Eq || op == CmpOp::Match) || c == "label"@ && op
            == CmpOp::Eq,
    ensures
        terms_of(PredicateView::Cmp(seq![c], op, LiteralView::Text(v))).len() == 1,
        operator_of(terms_of(PredicateView::Cmp(seq![c], op, LiteralView::Text(v)))[0]) == c,
        spoken(operand_of(terms_of(PredicateView::Cmp(seq![c], op, LiteralView::Text(v)))[0]))
            == searched(v),
        residual_of(PredicateView::Cmp(seq![c], op, LiteralView::Text(v))) is None,
        is_searched_column(c) ==> terms_of(PredicateView::Like(seq![c], v)) == terms_of(
            PredicateView::Cmp(seq![c], op, LiteralView::Text(v)),
        ) && residual_of(PredicateView::Like(seq![c], v)) is None,
{
    lemma_operators();
    lemma_spoken(v);
    lemma_term(c, quoted(v));
    assert(seq![c][0] == c);
    reveal_strlit("label");
    reveal_strlit("from");
    reveal_strlit("to");
    reveal_strlit("subject");
    assert(c + ":"@ + quoted(v) =~= (c + ":"@) + quoted(v));
    let t = terms_of(PredicateView::Cmp(seq![c], op, LiteralView::Text(v)))[0];
    assert(t == c + ":"@ + quoted(v));
}

proof fn lemma_nothing_dropped(v: Seq<char>)
    requires
        forall|i: int| 0 <= i < v.len() ==> v[i] != '"',
    ensures
        without_quotes(v) == v,
    decreases v.len(),
{
    if v.len() > 0 {
        lemma_nothing_dropped(v.drop_last());
        assert(v.drop_last().push(v.last()) =~= v);
    }
}

/// A value without double quotes is searched for as it is, with white space or without.
pub proof fn law_values_are_searched_as_they_are(v: Seq<char>)
    requires
        forall|i: int| 0 <= i < v.len() ==> v[i] != '"',
    ensures
        searched(v) == v,
        spoken(quoted(v)) == v,
{
    lemma_nothing_dropped(v);
    lemma_spoken(v);
}

/// A search scoped to a label says so in its first term, whatever else it says, and a search without
/// a scope says only what the predicate asks for.
pub proof fn law_a_scope_is_the_first_term(label: Seq<char>, p: Option<PredicateView>)
    ensures
        search_terms(Some(label), p).len() > 0,
        operator_of(search_terms(Some(label), p)[0]) == "label"@,
        spoken(operand_of(search_terms(Some(label), p)[0])) == searched(label),
        search_terms(Some(label), p).drop_first() == search_terms(None, p),
{
    lemma_operators();
    lemma_spoken(label);
    lemma_term("label"@, quoted(label));
    assert(search_terms(Some(label), p).drop_first() =~= search_terms(None, p));
}

/// Pushing down loses nothing and adds nothing, by what the search itself says: a message satisfies
/// the predicate exactly where every term, read off its text, finds it and it satisfies the
/// residual.
pub proof fn law_search_text_and_residual_make_the_predicate(
    p: PredicateView,
    atom: spec_fn(PredicateView) -> bool,
    m: Mail,
)
    requires
        is_of_machine_size(p),
        describes(atom, m),
    ensures
        holds(p, atom) <==> search_matches(terms_of(p), m) && match residual_of(p) {
            Some(r) => holds(r, atom),
            None => true,
        },
    decreases p,
{
    match p {
        PredicateView::And(a, b) => {
            law_search_text_and_residual_make_the_predicate(*a, atom, m);
            law_search_text_and_residual_make_the_predicate(*b, atom, m);
            let ta = terms_of(*a);
            let tb = terms_of(*b);
            let t = terms_of(p);
            assert(t == ta + tb);
            assert(search_matches(t, m) <==> search_matches(ta, m) && search_matches(tb, m)) by {
                if search_matches(t, m) {
                    assert forall|i: int| 0 <= i < ta.len() implies term_matches(
                        #[trigger] ta[i],
                        m,
                    ) by {
                        assert(t[i] == ta[i]);
                    }
                    assert forall|i: int| 0 <= i < tb.len() implies term_matches(
                        #[trigger] tb[i],
                        m,
                    ) by {
                        assert(t[ta.len() + i] == tb[i]);
                    }
                }
                if search_matches(ta, m) && search_matches(tb, m) {
                    assert forall|i: int| 0 <= i < t.len() implies term_matches(#[trigger] t[i], m) by {
                        if i < ta.len() {
                            assert(t[i] == ta[i]);
                        } else {
                            assert(t[i] == tb[i - ta.len()]);
                        }
                    }
                }
            }
        },
        PredicateView::Cmp(col, op, lit) => {
            if term_of(p) is Some {
                let c = col[0];
                let t = terms_of(p);
                assert(col =~= seq![c]);
                assert(t == seq![term_of(p)->Some_0]);
                assert(search_matches(t, m) <==> term_matches(t[0], m));
                lemma_operators();
                match lit {
                    LiteralView::Text(v) => {
                        law_text_terms_name_their_column(c, op, v);
                    },
                    LiteralView::Bool(b) => {
                        lemma_term("is"@, "unread"@);
                        lemma_term("is"@, "read"@);
                        assert(c == "is_unread"@);
                        assert(atom(
                            PredicateView::Cmp(seq!["is_unread"@], CmpOp::Eq, LiteralView::Bool(b)),
                        ) == (m.unread == b));
                    },
                    LiteralView::Int(ms) => {
                        law_bounds_never_leave_a_date_out(op, ms, m.date);
                        assert(atom(PredicateView::Cmp(seq!["date"@], op, LiteralView::Int(ms)))
                            == date_satisfies(m.date, op, ms));
                        match bound_of(op, ms)->Some_0 {
                            Bound::After(n) => {
                                law_numbers_read_back(n as int);
                                lemma_term("after"@, int_text(n as int));
                            },
                            Bound::Before(n) => {
                                law_numbers_read_back(n as int);
                                lemma_term("before"@, int_text(n as int));
                            },
                        }
                    },
                    _ => {},
                }
            } else {
                assert(search_matches(terms_of(p), m));
            }
        },
        PredicateView::Like(col, v) => {
            if term_of(p) is Some {
                let c = col[0];
                let t = terms_of(p);
                assert(col =~= seq![c]);
                assert(t == seq![term_of(p)->Some_0]);
                assert(search_matches(t, m) <==> term_matches(t[0], m));
                lemma_operators();
                law_text_terms_name_their_column(c, CmpOp::Eq, v);
                assert(atom(PredicateView::Like(seq![c], v)) == (m.found)(c, searched(v)));
                assert(is_searched_column(c));
                assert(operator_of(t[0]) == c);
                assert(c != "after"@ && c != "before"@ && c != "is"@);
                assert(term_matches(t[0], m) == (m.found)(c, searched(v)));
            } else {
                assert(search_matches(terms_of(p), m));
            }
        },
        _ => {
            assert(search_matches(terms_of(p), m));
        },
    }
}

/// The search that is built says where to search first and then what the predicate asks for, one
/// term after the other; what it leaves is the predicate's residual. So what it finds and leaves is
/// together what was asked.
pub proof fn law_built_searches_make_the_predicate(
    label: Option<&str>,
    predicate: Predicate,
    built: PushdownResult,
    atom: spec_fn(PredicateView) -> bool,
    m: Mail,
)
    requires
        call_ensures(build_query, (label, Some(&predicate)), built),
        is_of_machine_size(predicate@),
        describes(atom, m),
    ensures
        exists|terms: Seq<Seq<char>>|
            {
                &&& #[trigger] joined(terms, " "@) == built.query@
                &&& label is None ==> (holds(predicate@, atom) <==> search_matches(terms, m)
                    && match opt_predicate(built.residual) {
                    Some(r) => holds(r, atom),
                    None => true,
                })
                &&& label matches Some(l) ==> {
                    &&& terms.len() > 0
                    &&& operator_of(terms[0]) == "label"@
                    &&& spoken(operand_of(terms[0])) == searched(l@)
                    &&& holds(predicate@, atom) <==> search_matches(terms.drop_first(), m)
                        && match opt_predicate(built.residual) {
                        Some(r) => holds(r, atom),
                        None => true,
                    }
                }
            },
{
    let terms = search_terms(crate::text::opt_str(label), Some(predicate@));
    law_search_text_and_residual_make_the_predicate(predicate@, atom, m);
    assert(search_terms(None, Some(predicate@)) =~= terms_of(predicate@));
    if let Some(l) = label {
        law_a_scope_is_the_first_term(l@, Some(predicate@));
    }
    assert(joined(terms, " "@) == built.query@);
}

/// A bound on the date is searched for, by one term that says on which side of it: after it for
/// what is larger, before it for what is smaller.
pub proof fn law_dates_are_searched_on_their_side(op: CmpOp, ms: int)
    requires
        op is Gt || op is Ge || op is Lt || op is Le,
    ensures
        terms_of(PredicateView::Cmp(seq!["date"@], op, LiteralView::Int(ms))).len() == 1,
        operator_of(terms_of(PredicateView::Cmp(seq!["date"@], op, LiteralView::Int(ms)))[0]) == if op is Gt
            || op is Ge {
            "after"@
        } else {
            "before"@
        },
{
    lemma_operators();
    assert(seq!["date"@][0] == "date"@);
    match bound_of(op, ms)->Some_0 {
        Bound::After(n) => {
            lemma_term("after"@, int_text(n as int));
        },
        Bound::Before(n) => {
            lemma_term("before"@, int_text(n as int));
        },
    }
}

} // verus!
