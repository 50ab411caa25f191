//! The big-step evaluator: the dynamic semantics of the language.
//!
//! The meaning of every expression and statement is written down as a spec
//! function, and each executable function is proved to return exactly what
//! the specification says, including the partial mutations that an aborted
//! evaluation leaves behind.

use crate::env::NameMap;
use crate::error::{EvalError, EvalResult};
use crate::syntax::{Constant, Expr, Statement};
use vstd::prelude::*;

verus! {

/// A store binding: a plain number or a heap location.  The two kinds are
/// disjoint; rebinding a name must not change its kind.
#[derive(Debug, Clone, Copy, PartialEq, Eq, Structural)]
pub enum Value {
    Number(i64),
    Location(usize),
}

/// The store: one flat namespace from identifiers to values.
pub type Store = NameMap<Value>;

/// The heap: a growable sequence of integer cells, indexed by position.
/// Cells are appended and updated, never removed.
pub type Heap = Vec<i64>;

/// The hard iteration cap of `While` evaluation: after this many executions
/// of the body the loop is forcibly truncated with a success result, so that
/// automated testing stays responsive even for guards that never turn false.
pub const WHILE_CAP: u64 = 1000;

/// What a statement evaluation leaves behind: its result, and the store and
/// heap as mutated up to the point where it finished or failed.  There is no
/// rollback on failure.
pub type StmtOutcome = (Result<(), EvalError>, Map<Seq<char>, Value>, Seq<i64>);

/// The meaning of an expression: pure in the store and the heap.
pub open spec fn eval_expr_spec(
    e: Expr,
    store: Map<Seq<char>, Value>,
    heap: Seq<i64>,
) -> Result<Constant, EvalError>
    decreases e,
{
    match e {
        Expr::StoreRead(x) => if store.contains_key(x@) {
            match store[x@] {
                Value::Number(i) => Ok(Constant::Nat(i)),
                Value::Location(_) => Err(EvalError::TypeMismatch),
            }
        } else {
            Err(EvalError::UnboundVariable)
        },
        Expr::HeapRead(x) => if store.contains_key(x@) {
            match store[x@] {
                Value::Number(_) => Err(EvalError::TypeMismatch),
                Value::Location(ix) => if ix < heap.len() {
                    Ok(Constant::Nat(heap[ix as int]))
                } else {
                    Err(EvalError::InvalidDereference)
                },
            }
        } else {
            Err(EvalError::UnboundVariable)
        },
        Expr::Constant(c) => Ok(c),
        Expr::NatAdd(a, b) => match (eval_expr_spec(*a, store, heap), eval_expr_spec(
            *b,
            store,
            heap,
        )) {
            (Err(ea), _) => Err(ea),
            (Ok(_), Err(eb)) => Err(eb),
            (Ok(Constant::Nat(x)), Ok(Constant::Nat(y))) => Ok(Constant::Nat(x.wrapping_add(y))),
            _ => Err(EvalError::TypeMismatch),
        },
        Expr::NatLeq(a, b) => match (eval_expr_spec(*a, store, heap), eval_expr_spec(
            *b,
            store,
            heap,
        )) {
            (Err(ea), _) => Err(ea),
            (Ok(_), Err(eb)) => Err(eb),
            (Ok(Constant::Nat(x)), Ok(Constant::Nat(y))) => Ok(Constant::Bool(x <= y)),
            _ => Err(EvalError::TypeMismatch),
        },
        Expr::BoolAnd(a, b) => match (eval_expr_spec(*a, store, heap), eval_expr_spec(
            *b,
            store,
            heap,
        )) {
            (Err(ea), _) => Err(ea),
            (Ok(_), Err(eb)) => Err(eb),
            (Ok(Constant::Bool(x)), Ok(Constant::Bool(y))) => Ok(Constant::Bool(x && y)),
            _ => Err(EvalError::TypeMismatch),
        },
        Expr::BoolNot(a) => match eval_expr_spec(*a, store, heap) {
            Err(ea) => Err(ea),
            Ok(Constant::Bool(x)) => Ok(Constant::Bool(!x)),
            Ok(Constant::Nat(_)) => Err(EvalError::TypeMismatch),
        },
    }
}

/// The meaning of a statement.  Failure keeps the mutations made so far.
pub open spec fn eval_stmt_spec(
    s: Statement,
    store: Map<Seq<char>, Value>,
    heap: Seq<i64>,
) -> StmtOutcome
    decreases s, 0nat, 0nat,
{
    match s {
        Statement::StoreAssign(id, e) => match eval_expr_spec(e, store, heap) {
            Err(er) => (Err(er), store, heap),
            Ok(Constant::Bool(_)) => (Err(EvalError::TypeMismatch), store, heap),
            Ok(Constant::Nat(n)) => if store.contains_key(id@) && store[id@] is Location {
                (Err(EvalError::TypeMismatch), store, heap)
            } else {
                (Ok(()), store.insert(id@, Value::Number(n)), heap)
            },
        },
        Statement::HeapNew(id, e) => match eval_expr_spec(e, store, heap) {
            Err(er) => (Err(er), store, heap),
            Ok(Constant::Bool(_)) => (Err(EvalError::TypeMismatch), store, heap),
            // The fresh cell is appended before the bound-kind check, so a
            // kind conflict still leaves the cell allocated.
            Ok(Constant::Nat(n)) => if store.contains_key(id@) && store[id@] is Number {
                (Err(EvalError::TypeMismatch), store, heap.push(n))
            } else {
                (Ok(()), store.insert(id@, Value::Location(heap.len() as usize)), heap.push(n))
            },
        },
        // The target is resolved before the right-hand side is evaluated, so
        // an unbound or number-bound target is reported ahead of any fault
        // in the expression.
        Statement::HeapUpdate(id, e) => if !store.contains_key(id@) {
            (Err(EvalError::UnboundVariable), store, heap)
        } else {
            match store[id@] {
                Value::Number(_) => (Err(EvalError::TypeMismatch), store, heap),
                Value::Location(ix) => match eval_expr_spec(e, store, heap) {
                    Err(er) => (Err(er), store, heap),
                    Ok(Constant::Bool(_)) => (Err(EvalError::TypeMismatch), store, heap),
                    Ok(Constant::Nat(n)) => if ix < heap.len() {
                        (Ok(()), store, heap.update(ix as int, n))
                    } else {
                        (Err(EvalError::InvalidDereference), store, heap)
                    },
                },
            }
        },
        // Aliasing onto a name that holds a plain number is a bound-kind
        // conflict: rebinding never changes a name's kind.
        Statement::HeapAlias(alias, id) => if !store.contains_key(id@) {
            (Err(EvalError::UnboundVariable), store, heap)
        } else {
            match store[id@] {
                Value::Number(_) => (Err(EvalError::TypeMismatch), store, heap),
                Value::Location(ix) => if store.contains_key(alias@) && store[alias@] is Number {
                    (Err(EvalError::TypeMismatch), store, heap)
                } else {
                    (Ok(()), store.insert(alias@, Value::Location(ix)), heap)
                },
            }
        },
        Statement::Sequence(s1, s2) => {
            let o = eval_stmt_spec(*s1, store, heap);
            if o.0 is Err {
                o
            } else {
                eval_stmt_spec(*s2, o.1, o.2)
            }
        },
        Statement::Conditional(e, then_s, else_s) => match eval_expr_spec(e, store, heap) {
            Err(er) => (Err(er), store, heap),
            Ok(Constant::Nat(_)) => (Err(EvalError::TypeMismatch), store, heap),
            Ok(Constant::Bool(true)) => eval_stmt_spec(*then_s, store, heap),
            Ok(Constant::Bool(false)) => eval_stmt_spec(*else_s, store, heap),
        },
        Statement::While(e, body) => eval_while_spec(e, *body, store, heap, (WHILE_CAP + 1) as nat),
        Statement::Skip => (Ok(()), store, heap),
    }
}

/// The meaning of a `While` loop with `fuel` guard re-evaluations left
/// before the iteration cap truncates it.
pub open spec fn eval_while_spec(
    cond: Expr,
    body: Statement,
    store: Map<Seq<char>, Value>,
    heap: Seq<i64>,
    fuel: nat,
) -> StmtOutcome
    decreases body, fuel, 1nat,
{
    match eval_expr_spec(cond, store, heap) {
        Err(er) => (Err(er), store, heap),
        Ok(v) => eval_while_step_spec(cond, body, v, store, heap, fuel),
    }
}

/// One step of a `While` loop whose guard already evaluated to `v`.
pub open spec fn eval_while_step_spec(
    cond: Expr,
    body: Statement,
    v: Constant,
    store: Map<Seq<char>, Value>,
    heap: Seq<i64>,
    fuel: nat,
) -> StmtOutcome
    decreases body, fuel, 0nat,
{
    match v {
        Constant::Nat(_) => (Err(EvalError::TypeMismatch), store, heap),
        Constant::Bool(false) => (Ok(()), store, heap),
        Constant::Bool(true) => if fuel == 0 {
            (Ok(()), store, heap)
        } else {
            let o = eval_stmt_spec(body, store, heap);
            if o.0 is Err {
                o
            } else {
                eval_while_spec(cond, body, o.1, o.2, (fuel - 1) as nat)
            }
        },
    }
}

/// The meaning of a whole program: run from the empty store and heap; an
/// error discards the final state.
pub open spec fn eval_program_spec(s: Statement) -> Result<
    (Map<Seq<char>, Value>, Seq<i64>),
    EvalError,
> {
    let o = eval_stmt_spec(s, Map::empty(), Seq::empty());
    match o.0 {
        Ok(_) => Ok((o.1, o.2)),
        Err(e) => Err(e),
    }
}

/// The number a constant holds, or the mismatch error evaluation raises on a
/// boolean where a number is needed.
pub fn get_nat(c: Constant) -> (r: EvalResult<i64>)
    ensures
        (match c {
            Constant::Nat(i) => r == Ok::<i64, EvalError>(i),
            Constant::Bool(_) => r == Err::<i64, EvalError>(EvalError::TypeMismatch),
        }),
{
    match c {
        Constant::Nat(i) => Ok(i),
        Constant::Bool(_) => Err(EvalError::TypeMismatch),
    }
}

/// The heap index a value holds, or the mismatch error evaluation raises on
/// a number where a location is needed.
pub fn get_loc(v: &Value) -> (r: EvalResult<usize>)
    ensures
        (match *v {
            Value::Number(_) => r == Err::<usize, EvalError>(EvalError::TypeMismatch),
            Value::Location(l) => r == Ok::<usize, EvalError>(l),
        }),
{
    match v {
        Value::Number(_) => Err(EvalError::TypeMismatch),
        Value::Location(l) => Ok(*l),
    }
}

/// Evaluate an expression against the given store and heap.
pub fn eval_expr(expr: &Expr, store: &Store, heap: &Heap) -> (r: EvalResult<Constant>)
    requires
        store.wf(),
    ensures
        r == eval_expr_spec(*expr, store@, heap@),
    decreases *expr,
{
    match expr {
        Expr::StoreRead(x) => match store.get(x.as_str()) {
            None => Err(EvalError::UnboundVariable),
            Some(Value::Number(i)) => Ok(Constant::Nat(*i)),
            Some(Value::Location(_)) => Err(EvalError::TypeMismatch),
        },
        Expr::HeapRead(x) => match store.get(x.as_str()) {
            None => Err(EvalError::UnboundVariable),
            Some(Value::Number(_)) => Err(EvalError::TypeMismatch),
            Some(Value::Location(ix)) => if *ix < heap.len() {
                Ok(Constant::Nat(heap[*ix]))
            } else {
                Err(EvalError::InvalidDereference)
            },
        },
        Expr::Constant(c) => Ok(*c),
        Expr::NatAdd(a, b) => {
            let ca = eval_expr(a, store, heap)?;
            let cb = eval_expr(b, store, heap)?;
            match (ca, cb) {
                (Constant::Nat(x), Constant::Nat(y)) => Ok(Constant::Nat(x.wrapping_add(y))),
                _ => Err(EvalError::TypeMismatch),
            }
        },
        Expr::NatLeq(a, b) => {
            let ca = eval_expr(a, store, heap)?;
            let cb = eval_expr(b, store, heap)?;
            match (ca, cb) {
                (Constant::Nat(x), Constant::Nat(y)) => Ok(Constant::Bool(x <= y)),
                _ => Err(EvalError::TypeMismatch),
            }
        },
        Expr::BoolAnd(a, b) => {
            let ca = eval_expr(a, store, heap)?;
            let cb = eval_expr(b, store, heap)?;
            match (ca, cb) {
                (Constant::Bool(x), Constant::Bool(y)) => Ok(Constant::Bool(x && y)),
                _ => Err(EvalError::TypeMismatch),
            }
        },
        Expr::BoolNot(a) => {
            let ca = eval_expr(a, store, heap)?;
            match ca {
                Constant::Bool(x) => Ok(Constant::Bool(!x)),
                _ => Err(EvalError::TypeMismatch),
            }
        },
    }
}

/// Evaluate a statement, mutating the store and the heap in place.  The
/// first error aborts the evaluation; mutations made before it remain.
#[verifier::loop_isolation(false)]
pub fn eval_stmnt(stmnt: &Statement, store: &mut Store, heap: &mut Heap) -> (r: EvalResult<()>)
    requires
        old(store).wf(),
    ensures
        final(store).wf(),
        ({
            let o = eval_stmt_spec(*stmnt, old(store)@, old(heap)@);
            r == o.0 && final(store)@ == o.1 && final(heap)@ == o.2
        }),
    decreases *stmnt,
{
    match stmnt {
        Statement::StoreAssign(id, expr) => {
            let c = eval_expr(expr, store, heap)?;
            let value = get_nat(c)?;
            match store.get(id.as_str()) {
                Some(Value::Location(_)) => Err(EvalError::TypeMismatch),
                _ => {
                    store.insert(id.clone(), Value::Number(value));
                    Ok(())
                },
            }
        },
        Statement::HeapNew(id, expr) => {
            let c = eval_expr(expr, store, heap)?;
            let value = get_nat(c)?;
            let index = heap.len();
            heap.push(value);
            match store.get(id.as_str()) {
                Some(Value::Number(_)) => Err(EvalError::TypeMismatch),
                _ => {
                    store.insert(id.clone(), Value::Location(index));
                    Ok(())
                },
            }
        },
        Statement::HeapUpdate(id, expr) => {
            let index = match store.get(id.as_str()) {
                None => {
                    return Err(EvalError::UnboundVariable);
                },
                Some(v) => get_loc(v)?,
            };
            let c = eval_expr(expr, store, heap)?;
            let value = get_nat(c)?;
            if index < heap.len() {
                heap.set(index, value);
                Ok(())
            } else {
                Err(EvalError::InvalidDereference)
            }
        },
        Statement::HeapAlias(alias, id) => {
            let index = match store.get(id.as_str()) {
                None => {
                    return Err(EvalError::UnboundVariable);
                },
                Some(v) => get_loc(v)?,
            };
            match store.get(alias.as_str()) {
                Some(Value::Number(_)) => Err(EvalError::TypeMismatch),
                _ => {
                    store.insert(alias.clone(), Value::Location(index));
                    Ok(())
                },
            }
        },
        Statement::Sequence(s1, s2) => {
            eval_stmnt(s1, store, heap)?;
            eval_stmnt(s2, store, heap)
        },
        Statement::Conditional(expr, then_s, else_s) => {
            let value = eval_expr(expr, store, heap)?;
            match value {
                Constant::Bool(true) => eval_stmnt(then_s, store, heap),
                Constant::Bool(false) => eval_stmnt(else_s, store, heap),
                Constant::Nat(_) => Err(EvalError::TypeMismatch),
            }
        },
        Statement::While(expr, loop_s) => {
            proof {
                reveal_with_fuel(eval_stmt_spec, 2);
            }
            let mut value = eval_expr(expr, store, heap)?;
            let mut count: u64 = 0;
            while value == Constant::Bool(true)
                invariant
                    store.wf(),
                    count <= WHILE_CAP + 1,
                    eval_while_step_spec(
                        *expr,
                        **loop_s,
                        value,
                        store@,
                        heap@,
                        (WHILE_CAP + 1 - count) as nat,
                    ) == eval_while_spec(
                        *expr,
                        **loop_s,
                        old(store)@,
                        old(heap)@,
                        (WHILE_CAP + 1) as nat,
                    ),
                decreases WHILE_CAP + 1 - count,
            {
                if count > WHILE_CAP {
                    return Ok(());
                }
                eval_stmnt(loop_s, store, heap)?;
                value = eval_expr(expr, store, heap)?;
                count = count + 1;
            }
            match value {
                Constant::Bool(_) => Ok(()),
                Constant::Nat(_) => Err(EvalError::TypeMismatch),
            }
        },
        Statement::Skip => Ok(()),
    }
}

/// Evaluate a whole program from the empty store and heap.  On success the
/// final store and heap are returned; on failure the first error is.
pub fn eval_program(program: &Statement) -> (r: EvalResult<(Store, Heap)>)
    ensures
        (match eval_program_spec(*program) {
            Ok(sh) => r matches Ok(p) && p.0@ == sh.0 && p.1@ == sh.1 && p.0.wf(),
            Err(e) => r == Err::<(Store, Heap), EvalError>(e),
        }),
{
    let mut store = NameMap::new();
    let mut heap = Vec::new();
    match eval_stmnt(program, &mut store, &mut heap) {
        Ok(_) => Ok((store, heap)),
        Err(e) => Err(e),
    }
}

} // verus!
