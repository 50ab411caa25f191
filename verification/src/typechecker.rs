//! The flow-sensitive type checker: the static semantics of the language.
//!
//! The typing rules are written down as spec functions over a mathematical
//! environment `Map<Seq<char>, Type>`, and the executable checker is proved
//! to decide exactly those rules.

use crate::env::{map_intersect, NameMap};
use crate::error::TypeError;
use crate::syntax::{Constant, Expr, Statement};
use vstd::prelude::*;

verus! {

/// The static type of a binding or of an expression.
#[derive(Debug, PartialEq, Eq, Clone, Copy, Structural)]
pub enum Type {
    Number,
    Location,
    Boolean,
}

/// The type environment: one flat namespace from identifiers to types.
pub type TypeEnv = NameMap<Type>;

/// The typing rule for expressions.  Reads from the store require a
/// `Number` binding, reads through the heap a `Location` binding; operator
/// operands must match the operator.
pub open spec fn typecheck_expr_spec(sigma: Map<Seq<char>, Type>, e: Expr) -> Result<
    Type,
    TypeError,
>
    decreases e,
{
    match e {
        Expr::StoreRead(x) => if !sigma.contains_key(x@) {
            Err(TypeError::UnboundVariable)
        } else if sigma[x@] == Type::Number {
            Ok(Type::Number)
        } else {
            Err(TypeError::Mismatch { expected: Type::Number, got: sigma[x@] })
        },
        Expr::HeapRead(x) => if !sigma.contains_key(x@) {
            Err(TypeError::UnboundVariable)
        } else if sigma[x@] == Type::Location {
            Ok(Type::Number)
        } else {
            Err(TypeError::Mismatch { expected: Type::Location, got: sigma[x@] })
        },
        Expr::Constant(Constant::Nat(_)) => Ok(Type::Number),
        Expr::Constant(Constant::Bool(_)) => Ok(Type::Boolean),
        Expr::NatAdd(a, b) => match typecheck_expr_spec(sigma, *a) {
            Err(e1) => Err(e1),
            Ok(ta) => if ta != Type::Number {
                Err(TypeError::Mismatch { expected: Type::Number, got: ta })
            } else {
                match typecheck_expr_spec(sigma, *b) {
                    Err(e2) => Err(e2),
                    Ok(tb) => if tb != Type::Number {
                        Err(TypeError::Mismatch { expected: Type::Number, got: tb })
                    } else {
                        Ok(Type::Number)
                    },
                }
            },
        },
        Expr::NatLeq(a, b) => match typecheck_expr_spec(sigma, *a) {
            Err(e1) => Err(e1),
            Ok(ta) => if ta != Type::Number {
                Err(TypeError::Mismatch { expected: Type::Number, got: ta })
            } else {
                match typecheck_expr_spec(sigma, *b) {
                    Err(e2) => Err(e2),
                    Ok(tb) => if tb != Type::Number {
                        Err(TypeError::Mismatch { expected: Type::Number, got: tb })
                    } else {
                        Ok(Type::Boolean)
                    },
                }
            },
        },
        Expr::BoolAnd(a, b) => match typecheck_expr_spec(sigma, *a) {
            Err(e1) => Err(e1),
            Ok(ta) => if ta != Type::Boolean {
                Err(TypeError::Mismatch { expected: Type::Boolean, got: ta })
            } else {
                match typecheck_expr_spec(sigma, *b) {
                    Err(e2) => Err(e2),
                    Ok(tb) => if tb != Type::Boolean {
                        Err(TypeError::Mismatch { expected: Type::Boolean, got: tb })
                    } else {
                        Ok(Type::Boolean)
                    },
                }
            },
        },
        Expr::BoolNot(a) => match typecheck_expr_spec(sigma, *a) {
            Err(e1) => Err(e1),
            Ok(ta) => if ta != Type::Boolean {
                Err(TypeError::Mismatch { expected: Type::Boolean, got: ta })
            } else {
                Ok(Type::Boolean)
            },
        },
    }
}

/// What checking a statement leaves behind: the result, and the
/// environment as it stands afterwards.  A failed check never rolls the
/// environment back, and bindings made in the branches of a `Conditional`
/// or the body of a `While` live only in their own copies, so on failure
/// the environment is exactly what the statements checked so far made it.
pub type TcOutcome = (Result<(), TypeError>, Map<Seq<char>, Type>);

/// The typing rule for statements, threading the environment through
/// flow-sensitively.  Branches of a `Conditional` are checked against
/// independent copies of the environment and merged by intersection; a
/// `While` body is checked against a copy whose bindings do not propagate
/// outward.
pub open spec fn typecheck_stmt_spec(sigma: Map<Seq<char>, Type>, s: Statement) -> TcOutcome
    decreases s,
{
    match s {
        Statement::StoreAssign(id, e) => match typecheck_expr_spec(sigma, e) {
            Err(er) => (Err(er), sigma),
            Ok(t) => {
                let name_ty = if sigma.contains_key(id@) {
                    sigma[id@]
                } else {
                    Type::Number
                };
                if name_ty != Type::Number {
                    (Err(TypeError::Mismatch { expected: Type::Number, got: name_ty }), sigma)
                } else if t != Type::Number {
                    (Err(TypeError::Mismatch { expected: Type::Number, got: t }), sigma)
                } else {
                    (Ok(()), sigma.insert(id@, Type::Number))
                }
            },
        },
        Statement::HeapNew(id, e) => match typecheck_expr_spec(sigma, e) {
            Err(er) => (Err(er), sigma),
            Ok(t) => {
                let name_ty = if sigma.contains_key(id@) {
                    sigma[id@]
                } else {
                    Type::Location
                };
                if name_ty != Type::Location {
                    (Err(TypeError::Mismatch { expected: Type::Location, got: name_ty }), sigma)
                } else if t != Type::Number {
                    (Err(TypeError::Mismatch { expected: Type::Number, got: t }), sigma)
                } else {
                    (Ok(()), sigma.insert(id@, Type::Location))
                }
            },
        },
        Statement::HeapUpdate(id, e) => match typecheck_expr_spec(sigma, e) {
            Err(er) => (Err(er), sigma),
            Ok(t) => if !sigma.contains_key(id@) {
                (Err(TypeError::UnboundVariable), sigma)
            } else if sigma[id@] != Type::Location {
                (Err(TypeError::Mismatch { expected: Type::Location, got: sigma[id@] }), sigma)
            } else if t != Type::Number {
                (Err(TypeError::Mismatch { expected: Type::Number, got: t }), sigma)
            } else {
                (Ok(()), sigma)
            },
        },
        Statement::HeapAlias(alias, id) => if !sigma.contains_key(id@) {
            (Err(TypeError::UnboundVariable), sigma)
        } else {
            let alias_ty = if sigma.contains_key(alias@) {
                sigma[alias@]
            } else {
                Type::Location
            };
            if alias_ty != Type::Location {
                (Err(TypeError::Mismatch { expected: Type::Location, got: alias_ty }), sigma)
            } else if sigma[id@] != Type::Location {
                (Err(TypeError::Mismatch { expected: Type::Location, got: sigma[id@] }), sigma)
            } else {
                (Ok(()), sigma.insert(alias@, Type::Location))
            }
        },
        // On failure inside a sequence, the first statement's extensions
        // are kept: there is no rollback of the environment.
        Statement::Sequence(s1, s2) => {
            let o1 = typecheck_stmt_spec(sigma, *s1);
            if o1.0 is Err {
                o1
            } else {
                typecheck_stmt_spec(o1.1, *s2)
            }
        },
        Statement::Conditional(cond, then_s, else_s) => match typecheck_expr_spec(sigma, cond) {
            Err(er) => (Err(er), sigma),
            Ok(t) => if t != Type::Boolean {
                (Err(TypeError::Mismatch { expected: Type::Boolean, got: t }), sigma)
            } else {
                let ot = typecheck_stmt_spec(sigma, *then_s);
                if ot.0 is Err {
                    (ot.0, sigma)
                } else {
                    let oe = typecheck_stmt_spec(sigma, *else_s);
                    if oe.0 is Err {
                        (oe.0, sigma)
                    } else {
                        (Ok(()), map_intersect(ot.1, oe.1))
                    }
                }
            },
        },
        Statement::While(cond, body) => match typecheck_expr_spec(sigma, cond) {
            Err(er) => (Err(er), sigma),
            Ok(t) => if t != Type::Boolean {
                (Err(TypeError::Mismatch { expected: Type::Boolean, got: t }), sigma)
            } else {
                let ob = typecheck_stmt_spec(sigma, *body);
                (ob.0, sigma)
            },
        },
        Statement::Skip => (Ok(()), sigma),
    }
}

/// The typing rule for whole programs: check against the empty environment.
pub open spec fn typecheck_spec(s: Statement) -> Result<(), TypeError> {
    typecheck_stmt_spec(Map::empty(), s).0
}

/// `expected` if the two types are equal, else the mismatch error.
pub fn expect_ty(expected: Type, got: Type) -> (r: Result<Type, TypeError>)
    ensures
        r == (if expected == got {
            Ok::<Type, TypeError>(expected)
        } else {
            Err::<Type, TypeError>(TypeError::Mismatch { expected, got })
        }),
{
    if expected == got {
        Ok(expected)
    } else {
        Err(TypeError::Mismatch { expected, got })
    }
}

/// Type-check an expression and require the given type of it.
pub fn expect_expr_ty(expected: Type, ast: &Expr, sigma: &TypeEnv) -> (r: Result<Type, TypeError>)
    requires
        sigma.wf(),
    ensures
        r == (match typecheck_expr_spec(sigma@, *ast) {
            Err(e) => Err::<Type, TypeError>(e),
            Ok(t) => if expected == t {
                Ok::<Type, TypeError>(expected)
            } else {
                Err::<Type, TypeError>(TypeError::Mismatch { expected, got: t })
            },
        }),
    decreases *ast, 1nat,
{
    let expr_ty = typecheck_expr_aux(sigma, ast)?;
    expect_ty(expected, expr_ty)
}

/// Require the given type of a name; an unbound name passes.
pub fn expect_name_ty(expected: Type, name: &str, sigma: &TypeEnv) -> (r: Result<Type, TypeError>)
    requires
        sigma.wf(),
    ensures
        ({
            let name_ty = if sigma@.contains_key(name@) {
                sigma@[name@]
            } else {
                expected
            };
            r == (if expected == name_ty {
                Ok::<Type, TypeError>(expected)
            } else {
                Err::<Type, TypeError>(TypeError::Mismatch { expected, got: name_ty })
            })
        }),
{
    let name_ty = match sigma.get(name) {
        Some(t) => *t,
        None => expected,
    };
    expect_ty(expected, name_ty)
}

/// Type-check an expression against the given environment.
pub fn typecheck_expr_aux(sigma: &TypeEnv, ast: &Expr) -> (r: Result<Type, TypeError>)
    requires
        sigma.wf(),
    ensures
        r == typecheck_expr_spec(sigma@, *ast),
    decreases *ast, 0nat,
{
    match ast {
        Expr::StoreRead(x) => match sigma.get(x.as_str()) {
            None => Err(TypeError::UnboundVariable),
            Some(x_ty) => expect_ty(Type::Number, *x_ty),
        },
        Expr::HeapRead(x) => match sigma.get(x.as_str()) {
            None => Err(TypeError::UnboundVariable),
            Some(ix_ty) => {
                expect_ty(Type::Location, *ix_ty)?;
                Ok(Type::Number)
            },
        },
        Expr::Constant(Constant::Nat(_)) => Ok(Type::Number),
        Expr::Constant(Constant::Bool(_)) => Ok(Type::Boolean),
        Expr::NatAdd(a, b) => {
            expect_expr_ty(Type::Number, a, sigma)?;
            expect_expr_ty(Type::Number, b, sigma)
        },
        Expr::NatLeq(a, b) => {
            expect_expr_ty(Type::Number, a, sigma)?;
            expect_expr_ty(Type::Number, b, sigma)?;
            Ok(Type::Boolean)
        },
        Expr::BoolAnd(a, b) => {
            expect_expr_ty(Type::Boolean, a, sigma)?;
            expect_expr_ty(Type::Boolean, b, sigma)?;
            Ok(Type::Boolean)
        },
        Expr::BoolNot(a) => {
            expect_expr_ty(Type::Boolean, a, sigma)?;
            Ok(Type::Boolean)
        },
    }
}

/// Type-check a statement, threading the environment in place.  The
/// environment after the call is fixed on failure too: a failed check
/// leaves exactly the bindings the statements checked so far made.
pub fn typecheck_stmt_aux(sigma: &mut TypeEnv, ast: &Statement) -> (r: Result<(), TypeError>)
    requires
        old(sigma).wf(),
    ensures
        final(sigma).wf(),
        ({
            let o = typecheck_stmt_spec(old(sigma)@, *ast);
            r == o.0 && final(sigma)@ == o.1
        }),
    decreases *ast,
{
    match ast {
        Statement::StoreAssign(id, expr) => {
            let expr_ty = typecheck_expr_aux(sigma, expr)?;
            expect_name_ty(Type::Number, id.as_str(), sigma)?;
            expect_ty(Type::Number, expr_ty)?;
            sigma.insert(id.clone(), Type::Number);
            Ok(())
        },
        Statement::HeapNew(id, expr) => {
            let expr_ty = typecheck_expr_aux(sigma, expr)?;
            expect_name_ty(Type::Location, id.as_str(), sigma)?;
            expect_ty(Type::Number, expr_ty)?;
            sigma.insert(id.clone(), Type::Location);
            Ok(())
        },
        Statement::HeapUpdate(id, expr) => {
            let expr_ty = typecheck_expr_aux(sigma, expr)?;
            let id_ty = match sigma.get(id.as_str()) {
                None => {
                    return Err(TypeError::UnboundVariable);
                },
                Some(t) => *t,
            };
            expect_ty(Type::Location, id_ty)?;
            expect_ty(Type::Number, expr_ty)?;
            Ok(())
        },
        Statement::HeapAlias(alias, id) => {
            let stored_ty = match sigma.get(id.as_str()) {
                None => {
                    return Err(TypeError::UnboundVariable);
                },
                Some(t) => *t,
            };
            expect_name_ty(Type::Location, alias.as_str(), sigma)?;
            expect_ty(Type::Location, stored_ty)?;
            sigma.insert(alias.clone(), Type::Location);
            Ok(())
        },
        Statement::Sequence(s1, s2) => {
            typecheck_stmt_aux(sigma, s1)?;
            typecheck_stmt_aux(sigma, s2)
        },
        Statement::Conditional(cond, then_s, else_s) => {
            expect_expr_ty(Type::Boolean, cond, sigma)?;
            // Bindings made in a branch must not leak into the other, so each
            // branch is checked against its own copy of the environment.
            let mut then_sigma = sigma.duplicate();
            let mut els_sigma = sigma.duplicate();
            typecheck_stmt_aux(&mut then_sigma, then_s)?;
            typecheck_stmt_aux(&mut els_sigma, else_s)?;
            *sigma = then_sigma.intersect(&els_sigma);
            Ok(())
        },
        Statement::While(cond, body) => {
            expect_expr_ty(Type::Boolean, cond, sigma)?;
            // The loop may run zero times: nothing its body binds survives it.
            let mut luup_sigma = sigma.duplicate();
            typecheck_stmt_aux(&mut luup_sigma, body)
        },
        Statement::Skip => Ok(()),
    }
}

/// Type-check a whole program against the empty environment.
pub fn typecheck(program: &Statement) -> (r: Result<(), TypeError>)
    ensures
        r == typecheck_spec(*program),
{
    let mut sigma = NameMap::new();
    typecheck_stmt_aux(&mut sigma, program)
}

} // verus!
