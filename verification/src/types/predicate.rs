//! The typed predicates of a `WHERE` clause.
use crate::text::{same, views};
use vstd::prelude::*;

verus! {

/// A comparison operator.
#[derive(Debug, Clone, Copy, PartialEq, Eq, Structural)]
#[non_exhaustive]
pub enum CmpOp {
    Eq,
    Ne,
    Lt,
    Le,
    Gt,
    Ge,
    /// Matches a regular expression.
    Match,
}

/// A reference to a column: one segment for a column of the row, more for one within it.
#[derive(Debug, PartialEq, Eq)]
pub struct ColRef {
    /// The segments.
    pub path: Vec<String>,
}

/// A `LIKE` pattern.
#[derive(Debug, PartialEq, Eq)]
pub struct Pattern(pub String);

/// A literal value.
#[derive(Debug, PartialEq, Eq)]
#[non_exhaustive]
pub enum Literal {
    Null,
    Bool(bool),
    Int(i64),
    /// A floating-point number, as its bits.
    Float(u64),
    Text(String),
}

/// A predicate over one row.
#[derive(Debug, PartialEq, Eq)]
#[non_exhaustive]
pub enum Predicate {
    And(Box<Predicate>, Box<Predicate>),
    Or(Box<Predicate>, Box<Predicate>),
    Not(Box<Predicate>),
    Cmp(ColRef, CmpOp, Literal),
    Like(ColRef, Pattern),
    In(ColRef, Vec<Literal>),
    Between(ColRef, Literal, Literal),
}

/// What a [`Literal`] denotes.
#[verifier::ext_equal]
pub ghost enum LiteralView {
    Null,
    Bool(bool),
    Int(int),
    Float(u64),
    Text(Seq<char>),
}

/// What a [`Predicate`] denotes.
#[verifier::ext_equal]
pub ghost enum PredicateView {
    And(Box<PredicateView>, Box<PredicateView>),
    Or(Box<PredicateView>, Box<PredicateView>),
    Not(Box<PredicateView>),
    Cmp(Seq<Seq<char>>, CmpOp, LiteralView),
    Like(Seq<Seq<char>>, Seq<char>),
    In(Seq<Seq<char>>, Seq<LiteralView>),
    Between(Seq<Seq<char>>, LiteralView, LiteralView),
}

impl View for ColRef {
    type V = Seq<Seq<char>>;

    open spec fn view(&self) -> Seq<Seq<char>> {
        views(self.path@)
    }
}

impl View for Literal {
    type V = LiteralView;

    open spec fn view(&self) -> LiteralView {
        match self {
            Literal::Null => LiteralView::Null,
            Literal::Bool(b) => LiteralView::Bool(*b),
            Literal::Int(n) => LiteralView::Int(*n as int),
            Literal::Float(bits) => LiteralView::Float(*bits),
            Literal::Text(s) => LiteralView::Text(s@),
        }
    }
}

/// What the literals of a list denote.
pub open spec fn literal_views(literals: Seq<Literal>) -> Seq<LiteralView> {
    literals.map_values(|l: Literal| l@)
}

impl Predicate {
    /// What the predicate denotes.
    pub open spec fn denotes(self) -> PredicateView
        decreases self,
    {
        match self {
            Predicate::And(a, b) => PredicateView::And(
                Box::new(a.denotes()),
                Box::new(b.denotes()),
            ),
            Predicate::Or(a, b) => PredicateView::Or(Box::new(a.denotes()), Box::new(b.denotes())),
            Predicate::Not(a) => PredicateView::Not(Box::new(a.denotes())),
            Predicate::Cmp(col, op, lit) => PredicateView::Cmp(col@, op, lit@),
            Predicate::Like(col, pattern) => PredicateView::Like(col@, pattern.0@),
            Predicate::In(col, lits) => PredicateView::In(col@, literal_views(lits@)),
            Predicate::Between(col, lo, hi) => PredicateView::Between(col@, lo@, hi@),
        }
    }
}

impl View for Predicate {
    type V = PredicateView;

    open spec fn view(&self) -> PredicateView {
        self.denotes()
    }
}

impl Clone for ColRef {
    fn clone(&self) -> (r: ColRef)
        ensures
            r@ == self@,
    {
        let path: Vec<String> = self.path.clone();
        assert(views(path@) =~= views(self.path@));
        ColRef { path }
    }
}

impl Clone for Pattern {
    fn clone(&self) -> (r: Pattern)
        ensures
            r.0@ == self.0@,
    {
        Pattern(self.0.clone())
    }
}

impl Clone for Literal {
    fn clone(&self) -> (r: Literal)
        ensures
            r@ == self@,
    {
        match self {
            Literal::Null => Literal::Null,
            Literal::Bool(b) => Literal::Bool(*b),
            Literal::Int(n) => Literal::Int(*n),
            Literal::Float(bits) => Literal::Float(*bits),
            Literal::Text(s) => Literal::Text(s.clone()),
        }
    }
}

fn clone_literals(literals: &Vec<Literal>) -> (r: Vec<Literal>)
    ensures
        literal_views(r@) == literal_views(literals@),
{
    let mut r: Vec<Literal> = Vec::new();
    let mut i: usize = 0;
    while i < literals.len()
        invariant
            i <= literals.len(),
            r@.len() == i,
            forall|j: int| 0 <= j < i ==> (#[trigger] r@[j])@ == literals@[j]@,
        decreases literals.len() - i,
    {
        r.push(literals[i].clone());
        i = i + 1;
    }
    assert(literal_views(r@) =~= literal_views(literals@));
    r
}

impl Clone for Predicate {
    fn clone(&self) -> (r: Predicate)
        ensures
            r@ == self@,
        decreases self,
    {
        match self {
            Predicate::And(a, b) => Predicate::And(
                Box::new((&**a).clone()),
                Box::new((&**b).clone()),
            ),
            Predicate::Or(a, b) => Predicate::Or(
                Box::new((&**a).clone()),
                Box::new((&**b).clone()),
            ),
            Predicate::Not(a) => Predicate::Not(Box::new((&**a).clone())),
            Predicate::Cmp(col, op, lit) => Predicate::Cmp(col.clone(), *op, lit.clone()),
            Predicate::Like(col, pattern) => Predicate::Like(col.clone(), pattern.clone()),
            Predicate::In(col, lits) => Predicate::In(col.clone(), clone_literals(lits)),
            Predicate::Between(col, lo, hi) => Predicate::Between(
                col.clone(),
                lo.clone(),
                hi.clone(),
            ),
        }
    }
}

/// Whether a predicate holds, given which of its atoms hold.
pub open spec fn holds(p: PredicateView, atom: spec_fn(PredicateView) -> bool) -> bool
    decreases p,
{
    match p {
        PredicateView::And(a, b) => holds(*a, atom) && holds(*b, atom),
        PredicateView::Or(a, b) => holds(*a, atom) || holds(*b, atom),
        PredicateView::Not(a) => !holds(*a, atom),
        _ => atom(p),
    }
}

/// Whether a predicate compares the column of the row with this name.
pub open spec fn speaks_of(p: PredicateView, column: Seq<char>) -> bool
    decreases p,
{
    match p {
        PredicateView::And(a, b) => speaks_of(*a, column) || speaks_of(*b, column),
        PredicateView::Or(a, b) => speaks_of(*a, column) || speaks_of(*b, column),
        PredicateView::Not(a) => speaks_of(*a, column),
        PredicateView::Cmp(col, _, _) => col == seq![column],
        PredicateView::Like(col, _) => col == seq![column],
        PredicateView::In(col, _) => col == seq![column],
        PredicateView::Between(col, _, _) => col == seq![column],
    }
}

impl ColRef {
    /// Whether this is the column of the row with this name.
    pub fn is_column(&self, name: &str) -> (r: bool)
        ensures
            r == (self@ == seq![name@]),
    {
        if self.path.len() == 1 && same(self.path[0].as_str(), name) {
            assert(self@ =~= seq![name@]);
            true
        } else {
            assert(self@ == seq![name@] ==> self@.len() == 1 && self@[0] == name@);
            false
        }
    }
}

impl Predicate {
    /// Whether the predicate compares the column of the row with this name.
    pub fn speaks_of(&self, column: &str) -> (r: bool)
        ensures
            r == speaks_of(self@, column@),
        decreases self,
    {
        match self {
            Predicate::And(a, b) => a.speaks_of(column) || b.speaks_of(column),
            Predicate::Or(a, b) => a.speaks_of(column) || b.speaks_of(column),
            Predicate::Not(a) => a.speaks_of(column),
            Predicate::Cmp(col, _, _) => col.is_column(column),
            Predicate::Like(col, _) => col.is_column(column),
            Predicate::In(col, _) => col.is_column(column),
            Predicate::Between(col, _, _) => col.is_column(column),
        }
    }
}

/// Which columns a predicate speaks of depends on the columns alone: not on how its parts are
/// joined, on their order, on a negation, or on what is asked of a column; and a path into a column
/// is not the column.
pub proof fn law_columns_alone_are_spoken_of(
    a: PredicateView,
    b: PredicateView,
    col: Seq<Seq<char>>,
    op: CmpOp,
    x: LiteralView,
    y: LiteralView,
    pattern: Seq<char>,
    list: Seq<LiteralView>,
    column: Seq<char>,
)
    ensures
        speaks_of(PredicateView::And(Box::new(a), Box::new(b)), column) == speaks_of(
            PredicateView::Or(Box::new(b), Box::new(a)),
            column,
        ),
        speaks_of(PredicateView::And(Box::new(a), Box::new(b)), column) <==> speaks_of(a, column)
            || speaks_of(b, column),
        speaks_of(PredicateView::Not(Box::new(a)), column) == speaks_of(a, column),
        speaks_of(PredicateView::Cmp(col, op, x), column) == speaks_of(
            PredicateView::Like(col, pattern),
            column,
        ),
        speaks_of(PredicateView::Cmp(col, op, x), column) == speaks_of(
            PredicateView::In(col, list),
            column,
        ),
        speaks_of(PredicateView::Cmp(col, op, x), column) == speaks_of(
            PredicateView::Between(col, x, y),
            column,
        ),
        speaks_of(PredicateView::Cmp(col, op, x), column) <==> col.len() == 1 && col[0] == column,
{
    if col.len() == 1 && col[0] == column {
        assert(col =~= seq![column]);
    }
}

} // verus!
