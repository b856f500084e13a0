//! The syntax tree of a statement, and the mathematical tree that it denotes.
use crate::text::views;
use vstd::prelude::*;

verus! {

/// A dotted path, e.g. `mail.inbox`: its segments as they were written.
#[derive(Debug, PartialEq, Eq)]
pub struct Path(pub Vec<String>);

/// A literal value: a string or an integer.
#[derive(Debug, PartialEq, Eq)]
pub enum Literal {
    Str(String),
    Int(i64),
}

/// A comparison operator.
#[derive(Debug, Clone, Copy, PartialEq, Eq, Structural)]
pub enum CmpOp {
    Eq,
    Ne,
    Lt,
    Gt,
    Le,
    Ge,
    Like,
}

/// A `WHERE` expression: a comparison, or an `AND` chain that leans to the left.
#[derive(Debug, PartialEq, Eq)]
pub enum Expr {
    Cmp { lhs: Path, op: CmpOp, rhs: Literal },
    And(Box<Expr>, Box<Expr>),
}

/// One operation behind a `|>`.
#[derive(Debug, Clone, PartialEq, Eq)]
pub enum PipeOp {
    Where(Expr),
    Select(Vec<Path>),
}

/// A statement: a `FROM` source and the chain of `|>` operations on it.
#[derive(Debug, Clone, PartialEq, Eq)]
pub struct Stmt {
    pub from: Path,
    pub ops: Vec<PipeOp>,
}

/// What a [`Literal`] denotes.
#[verifier::ext_equal]
pub ghost enum LiteralView {
    Str(Seq<char>),
    Int(int),
}

/// What an [`Expr`] denotes.
#[verifier::ext_equal]
pub ghost enum ExprView {
    Cmp { lhs: Seq<Seq<char>>, op: CmpOp, rhs: LiteralView },
    And(Box<ExprView>, Box<ExprView>),
}

/// What a [`PipeOp`] denotes.
#[verifier::ext_equal]
pub ghost enum PipeOpView {
    Where(ExprView),
    Select(Seq<Seq<Seq<char>>>),
}

/// What a [`Stmt`] denotes.
#[verifier::ext_equal]
pub ghost struct StmtView {
    pub from: Seq<Seq<char>>,
    pub ops: Seq<PipeOpView>,
}

impl View for Path {
    type V = Seq<Seq<char>>;

    open spec fn view(&self) -> Seq<Seq<char>> {
        views(self.0@)
    }
}

impl View for Literal {
    type V = LiteralView;

    open spec fn view(&self) -> LiteralView {
        match self {
            Literal::Str(s) => LiteralView::Str(s@),
            Literal::Int(n) => LiteralView::Int(*n as int),
        }
    }
}

impl Expr {
    /// What the expression denotes.
    pub open spec fn denotes(&self) -> ExprView
        decreases self,
    {
        match self {
            Expr::Cmp { lhs, op, rhs } => ExprView::Cmp { lhs: lhs@, op: *op, rhs: rhs@ },
            Expr::And(l, r) => ExprView::And(Box::new(l.denotes()), Box::new(r.denotes())),
        }
    }
}

impl View for Expr {
    type V = ExprView;

    open spec fn view(&self) -> ExprView {
        self.denotes()
    }
}

/// What the paths of a list denote.
pub open spec fn path_views(paths: Seq<Path>) -> Seq<Seq<Seq<char>>> {
    paths.map_values(|p: Path| p@)
}

/// What the operations of a chain denote.
pub open spec fn op_views(ops: Seq<PipeOp>) -> Seq<PipeOpView> {
    ops.map_values(|o: PipeOp| o@)
}

impl View for PipeOp {
    type V = PipeOpView;

    open spec fn view(&self) -> PipeOpView {
        match self {
            PipeOp::Where(e) => PipeOpView::Where(e@),
            PipeOp::Select(paths) => PipeOpView::Select(path_views(paths@)),
        }
    }
}

impl View for Stmt {
    type V = StmtView;

    open spec fn view(&self) -> StmtView {
        StmtView { from: self.from@, ops: op_views(self.ops@) }
    }
}

impl Clone for Path {
    fn clone(&self) -> (r: Path)
        ensures
            r@ == self@,
    {
        let segments: Vec<String> = self.0.clone();
        assert(views(segments@) =~= views(self.0@));
        Path(segments)
    }
}

impl Clone for Literal {
    fn clone(&self) -> (r: Literal)
        ensures
            r@ == self@,
    {
        match self {
            Literal::Str(s) => Literal::Str(s.clone()),
            Literal::Int(n) => Literal::Int(*n),
        }
    }
}

impl Clone for Expr {
    fn clone(&self) -> (r: Expr)
        ensures
            r@ == self@,
        decreases self,
    {
        match self {
            Expr::Cmp { lhs, op, rhs } => Expr::Cmp {
                lhs: lhs.clone(),
                op: *op,
                rhs: rhs.clone(),
            },
            Expr::And(l, r) => Expr::And(Box::new((&**l).clone()), Box::new((&**r).clone())),
        }
    }
}

} // verus!
