//! Abstract syntax of the language: constants, expressions and statements,
//! together with the structural size measures used by the generator and the
//! shrinker.

use vstd::prelude::*;

verus! {

/// A variable name: an opaque string, compared by equality only.
pub type Ident = String;

/// Literal values.
#[derive(Debug, Clone, Copy, PartialEq, Eq, Structural)]
pub enum Constant {
    Nat(i64),
    Bool(bool),
}

/// Read-only expression trees.
#[derive(Debug, PartialEq, Eq)]
pub enum Expr {
    StoreRead(Ident),
    HeapRead(Ident),
    Constant(Constant),
    NatAdd(Box<Expr>, Box<Expr>),
    NatLeq(Box<Expr>, Box<Expr>),
    BoolAnd(Box<Expr>, Box<Expr>),
    BoolNot(Box<Expr>),
}

/// Statement trees, evaluated for their effect on the store and the heap.
#[derive(Debug, PartialEq, Eq)]
pub enum Statement {
    StoreAssign(Ident, Expr),
    HeapNew(Ident, Expr),
    HeapUpdate(Ident, Expr),
    HeapAlias(Ident, Ident),
    Sequence(Box<Statement>, Box<Statement>),
    Conditional(Expr, Box<Statement>, Box<Statement>),
    While(Expr, Box<Statement>),
    Skip,
}

/// The generator's size measure: the number of primitive statements in the
/// tree.  Guard and right-hand-side expressions do not count.
pub open spec fn stmt_size(s: Statement) -> nat
    decreases s,
{
    match s {
        Statement::Sequence(s1, s2) => stmt_size(*s1) + stmt_size(*s2),
        Statement::Conditional(_, s1, s2) => stmt_size(*s1) + stmt_size(*s2),
        Statement::While(_, body) => stmt_size(*body),
        _ => 1,
    }
}

/// Every statement contains at least one primitive statement.
pub proof fn lemma_stmt_size_pos(s: Statement)
    ensures
        stmt_size(s) >= 1,
    decreases s,
{
    match s {
        Statement::Sequence(s1, s2) => {
            lemma_stmt_size_pos(*s1);
            lemma_stmt_size_pos(*s2);
        },
        Statement::Conditional(_, s1, s2) => {
            lemma_stmt_size_pos(*s1);
            lemma_stmt_size_pos(*s2);
        },
        Statement::While(_, body) => {
            lemma_stmt_size_pos(*body);
        },
        _ => {},
    }
}

/// The total number of nodes of an expression tree: the structural size by
/// which shrink candidates are compared.
pub open spec fn expr_nodes(e: Expr) -> nat
    decreases e,
{
    match e {
        Expr::NatAdd(a, b) => 1 + expr_nodes(*a) + expr_nodes(*b),
        Expr::NatLeq(a, b) => 1 + expr_nodes(*a) + expr_nodes(*b),
        Expr::BoolAnd(a, b) => 1 + expr_nodes(*a) + expr_nodes(*b),
        Expr::BoolNot(a) => 1 + expr_nodes(*a),
        _ => 1,
    }
}

/// The total number of nodes of a statement tree, expressions included.
pub open spec fn stmt_nodes(s: Statement) -> nat
    decreases s,
{
    match s {
        Statement::StoreAssign(_, e) => 1 + expr_nodes(e),
        Statement::HeapNew(_, e) => 1 + expr_nodes(e),
        Statement::HeapUpdate(_, e) => 1 + expr_nodes(e),
        Statement::HeapAlias(_, _) => 1,
        Statement::Sequence(s1, s2) => 1 + stmt_nodes(*s1) + stmt_nodes(*s2),
        Statement::Conditional(e, s1, s2) => 1 + expr_nodes(e) + stmt_nodes(*s1) + stmt_nodes(
            *s2,
        ),
        Statement::While(e, body) => 1 + expr_nodes(e) + stmt_nodes(*body),
        Statement::Skip => 1,
    }
}

/// `stmt_size`, clamped to what a `usize` can report.
pub open spec fn stmt_size_clamped(s: Statement) -> nat {
    if stmt_size(s) > usize::MAX {
        usize::MAX as nat
    } else {
        stmt_size(s)
    }
}

impl Expr {
    /// A structurally equal copy of the expression.
    pub fn deep_copy(&self) -> (r: Expr)
        ensures
            r == *self,
        decreases *self,
    {
        match self {
            Expr::StoreRead(x) => Expr::StoreRead(x.clone()),
            Expr::HeapRead(x) => Expr::HeapRead(x.clone()),
            Expr::Constant(c) => Expr::Constant(*c),
            Expr::NatAdd(a, b) => Expr::NatAdd(Box::new(a.deep_copy()), Box::new(b.deep_copy())),
            Expr::NatLeq(a, b) => Expr::NatLeq(Box::new(a.deep_copy()), Box::new(b.deep_copy())),
            Expr::BoolAnd(a, b) => Expr::BoolAnd(Box::new(a.deep_copy()), Box::new(b.deep_copy())),
            Expr::BoolNot(a) => Expr::BoolNot(Box::new(a.deep_copy())),
        }
    }
}

impl Statement {
    /// A structurally equal copy of the statement.
    pub fn deep_copy(&self) -> (r: Statement)
        ensures
            r == *self,
        decreases *self,
    {
        match self {
            Statement::StoreAssign(id, e) => Statement::StoreAssign(id.clone(), e.deep_copy()),
            Statement::HeapNew(id, e) => Statement::HeapNew(id.clone(), e.deep_copy()),
            Statement::HeapUpdate(id, e) => Statement::HeapUpdate(id.clone(), e.deep_copy()),
            Statement::HeapAlias(alias, id) => Statement::HeapAlias(alias.clone(), id.clone()),
            Statement::Sequence(s1, s2) => Statement::Sequence(
                Box::new(s1.deep_copy()),
                Box::new(s2.deep_copy()),
            ),
            Statement::Conditional(e, s1, s2) => Statement::Conditional(
                e.deep_copy(),
                Box::new(s1.deep_copy()),
                Box::new(s2.deep_copy()),
            ),
            Statement::While(e, body) => Statement::While(e.deep_copy(), Box::new(body.deep_copy())),
            Statement::Skip => Statement::Skip,
        }
    }

    /// The number of primitive statements in the tree, saturating at
    /// `usize::MAX`.
    pub fn size(&self) -> (r: usize)
        ensures
            r == stmt_size_clamped(*self),
        decreases *self,
    {
        match self {
            Statement::Sequence(s1, s2) | Statement::Conditional(_, s1, s2) => {
                let a = s1.size();
                let b = s2.size();
                proof {
                    lemma_stmt_size_pos(**s1);
                    lemma_stmt_size_pos(**s2);
                }
                if a <= usize::MAX - b {
                    a + b
                } else {
                    usize::MAX
                }
            },
            Statement::While(_, body) => body.size(),
            _ => 1,
        }
    }
}

} // verus!
