use heavyimp::error::EvalError;
use heavyimp::evaluator::{eval_expr, eval_program, Value};
use heavyimp::syntax::Constant::{Bool, Nat};
use heavyimp::syntax::{Expr, Statement};

#[test]
fn test_multiple_stores() {
    let program = Statement::Sequence(
        Box::new(Statement::StoreAssign("x".into(), Expr::Constant(Nat(1)))),
        Box::new(Statement::StoreAssign("y".into(), Expr::Constant(Nat(2)))),
    );
    let (store, heap) = eval_program(&program).unwrap();
    assert_eq!(store.get("x"), Some(&Value::Number(1)));
    assert_eq!(store.get("y"), Some(&Value::Number(2)));
    assert_eq!(heap.len(), 0);
}

#[test]
fn test_heap_and_store() {
    let program = Statement::Sequence(
        Box::new(Statement::StoreAssign("x".into(), Expr::Constant(Nat(1)))),
        Box::new(Statement::HeapNew("y".into(), Expr::Constant(Nat(2)))),
    );
    let (store, heap) = eval_program(&program).unwrap();
    assert_eq!(store.get("x"), Some(&Value::Number(1)));
    assert_eq!(store.get("y"), Some(&Value::Location(0)));
    assert_eq!(heap.len(), 1);
    assert_eq!(heap[0], 2);
}

#[test]
fn test_heap_assigns() {
    let program = Statement::Sequence(
        Box::new(Statement::StoreAssign("x".into(), Expr::Constant(Nat(1)))),
        Box::new(Statement::Sequence(
            Box::new(Statement::HeapNew("y".into(), Expr::StoreRead("x".into()))),
            Box::new(Statement::Sequence(
                Box::new(Statement::HeapAlias("z".into(), "y".into())),
                Box::new(Statement::HeapUpdate("z".into(), Expr::Constant(Nat(3)))),
            )),
        )),
    );
    let (store, heap) = eval_program(&program).unwrap();
    assert_eq!(store.get("x"), Some(&Value::Number(1)));
    assert_eq!(store.get("y"), Some(&Value::Location(0)));
    assert_eq!(store.get("z"), Some(&Value::Location(0)));
    assert_eq!(heap.len(), 1);
    assert_eq!(heap[0], 3);
}

#[test]
fn test_heap_dereference() {
    let program = Statement::Sequence(
        Box::new(Statement::StoreAssign("x".into(), Expr::Constant(Nat(1)))),
        Box::new(Statement::Sequence(
            Box::new(Statement::Sequence(
                Box::new(Statement::HeapNew("z".into(), Expr::Constant(Nat(2)))),
                Box::new(Statement::HeapUpdate(
                    "z".into(),
                    Expr::NatAdd(
                        Box::new(Expr::StoreRead("x".into())),
                        Box::new(Expr::HeapRead("z".into())),
                    ),
                )),
            )),
            Box::new(Statement::HeapNew("y".into(), Expr::HeapRead("z".into()))),
        )),
    );
    let (store, heap) = eval_program(&program).unwrap();
    assert_eq!(store.get("x"), Some(&Value::Number(1)));
    assert_eq!(store.get("y"), Some(&Value::Location(1)));
    assert_eq!(store.get("z"), Some(&Value::Location(0)));
    assert_eq!(heap.len(), 2);
    assert_eq!(heap[0], 3);
    assert_eq!(heap[1], 3);
}

#[test]
fn test_conditional_heap() {
    let program = Statement::Sequence(
        Box::new(Statement::HeapNew("x".into(), Expr::Constant(Nat(1)))),
        Box::new(Statement::Sequence(
            Box::new(Statement::Sequence(
                Box::new(Statement::HeapNew("z".into(), Expr::Constant(Nat(2)))),
                Box::new(Statement::HeapUpdate(
                    "z".into(),
                    Expr::NatAdd(
                        Box::new(Expr::HeapRead("x".into())),
                        Box::new(Expr::HeapRead("z".into())),
                    ),
                )),
            )),
            Box::new(Statement::Conditional(
                Expr::NatLeq(
                    Box::new(Expr::HeapRead("x".into())),
                    Box::new(Expr::Constant(Nat(0))),
                ),
                Box::new(Statement::HeapNew("y".into(), Expr::HeapRead("z".into()))),
                Box::new(Statement::HeapNew("y".into(), Expr::Constant(Nat(4)))),
            )),
        )),
    );
    let (store, heap) = eval_program(&program).unwrap();
    assert_eq!(store.get("x"), Some(&Value::Location(0)));
    assert_eq!(store.get("y"), Some(&Value::Location(2)));
    assert_eq!(store.get("z"), Some(&Value::Location(1)));
    assert_eq!(heap.len(), 3);
    assert_eq!(heap[0], 1);
    assert_eq!(heap[1], 3);
    assert_eq!(heap[2], 4);
}

#[test]
fn aliasing_round_trip() {
    // HeapNew binds y to a fresh cell, HeapAlias binds z to the same cell,
    // and an update through z is visible through both names.
    let program = Statement::Sequence(
        Box::new(Statement::HeapNew("y".into(), Expr::Constant(Nat(2)))),
        Box::new(Statement::Sequence(
            Box::new(Statement::HeapAlias("z".into(), "y".into())),
            Box::new(Statement::HeapUpdate("z".into(), Expr::Constant(Nat(3)))),
        )),
    );
    let (store, heap) = eval_program(&program).unwrap();
    let y = match store.get("y") {
        Some(&Value::Location(ix)) => ix,
        other => panic!("y should be a location, got {:?}", other),
    };
    let z = match store.get("z") {
        Some(&Value::Location(ix)) => ix,
        other => panic!("z should be a location, got {:?}", other),
    };
    assert_eq!(y, z);
    assert_eq!(heap[y], 3);
    let read_y = eval_expr(&Expr::HeapRead("y".into()), &store, &heap);
    let read_z = eval_expr(&Expr::HeapRead("z".into()), &store, &heap);
    assert_eq!(read_y, Ok(Nat(3)));
    assert_eq!(read_z, Ok(Nat(3)));
}

#[test]
fn bound_kind_rebinding_fails_eval() {
    // Rebinding a store number as a heap location is a dynamic bound-kind
    // conflict, reported as a type mismatch.
    let program = Statement::Sequence(
        Box::new(Statement::StoreAssign("x".into(), Expr::Constant(Nat(1)))),
        Box::new(Statement::HeapNew("x".into(), Expr::Constant(Nat(2)))),
    );
    assert_eq!(eval_program(&program).unwrap_err(), EvalError::TypeMismatch);
}

#[test]
fn while_cap_returns_ok() {
    // A guard that never turns false is truncated by the iteration cap:
    // evaluation terminates with success, keeping the state reached.  The
    // body runs once for each count from 0 through the cap.
    let program = Statement::Sequence(
        Box::new(Statement::StoreAssign("x".into(), Expr::Constant(Nat(0)))),
        Box::new(Statement::While(
            Expr::Constant(Bool(true)),
            Box::new(Statement::StoreAssign(
                "x".into(),
                Expr::NatAdd(
                    Box::new(Expr::StoreRead("x".into())),
                    Box::new(Expr::Constant(Nat(1))),
                ),
            )),
        )),
    );
    let (store, heap) = eval_program(&program).unwrap();
    assert_eq!(store.get("x"), Some(&Value::Number(1001)));
    assert_eq!(heap.len(), 0);
}

#[test]
fn unbound_variable_error() {
    let program = Statement::StoreAssign("x".into(), Expr::StoreRead("nowhere".into()));
    assert_eq!(eval_program(&program).unwrap_err(), EvalError::UnboundVariable);
}

#[test]
fn type_mismatch_error() {
    // A boolean where the assignment needs a number.
    let program = Statement::StoreAssign("x".into(), Expr::Constant(Bool(true)));
    assert_eq!(eval_program(&program).unwrap_err(), EvalError::TypeMismatch);
}

#[test]
fn invalid_dereference_error() {
    // A dangling location cannot arise from a whole-program run, whose heap
    // only grows; planting one directly shows the dynamic bounds check.
    let mut store = heavyimp::env::NameMap::new();
    store.insert("p".into(), Value::Location(5));
    let heap: Vec<i64> = Vec::new();
    let read = eval_expr(&Expr::HeapRead("p".into()), &store, &heap);
    assert_eq!(read, Err(EvalError::InvalidDereference));
}

#[test]
fn conditional_applies_one_branch() {
    // Only the taken branch's effects are applied.
    let program = Statement::Conditional(
        Expr::Constant(Bool(false)),
        Box::new(Statement::StoreAssign("t".into(), Expr::Constant(Nat(1)))),
        Box::new(Statement::StoreAssign("e".into(), Expr::Constant(Nat(2)))),
    );
    let (store, heap) = eval_program(&program).unwrap();
    assert_eq!(store.get("t"), None);
    assert_eq!(store.get("e"), Some(&Value::Number(2)));
    assert_eq!(heap.len(), 0);
}

#[test]
fn alias_kind_conflict_fails_eval() {
    // Aliasing onto a name that already holds a plain number must not
    // silently rebind it: the kind of a bound name never changes.
    let program = Statement::Sequence(
        Box::new(Statement::StoreAssign("x".into(), Expr::Constant(Nat(1)))),
        Box::new(Statement::Sequence(
            Box::new(Statement::HeapNew("y".into(), Expr::Constant(Nat(2)))),
            Box::new(Statement::HeapAlias("x".into(), "y".into())),
        )),
    );
    assert_eq!(eval_program(&program).unwrap_err(), EvalError::TypeMismatch);
    assert!(heavyimp::typechecker::typecheck(&program).is_err());
}

#[test]
fn heap_update_resolves_target_first() {
    // The update target is resolved before the right-hand side is
    // evaluated: an unbound target is reported even when the right-hand
    // side is itself ill-typed.
    let program = Statement::HeapUpdate("nowhere".into(), Expr::Constant(Bool(true)));
    assert_eq!(eval_program(&program).unwrap_err(), EvalError::UnboundVariable);
}

#[test]
fn bool_operators_in_guard() {
    // BoolAnd and BoolNot combine as usual: the guard here is
    // true && !false, so the then-branch runs.
    let program = Statement::Conditional(
        Expr::BoolAnd(
            Box::new(Expr::Constant(Bool(true))),
            Box::new(Expr::BoolNot(Box::new(Expr::Constant(Bool(false))))),
        ),
        Box::new(Statement::StoreAssign("t".into(), Expr::Constant(Nat(1)))),
        Box::new(Statement::StoreAssign("e".into(), Expr::Constant(Nat(2)))),
    );
    let (store, _heap) = eval_program(&program).unwrap();
    assert_eq!(store.get("t"), Some(&Value::Number(1)));
    assert_eq!(store.get("e"), None);
}

#[test]
fn nat_add_wraps() {
    // Addition wraps around on overflow rather than failing.
    let program = Statement::StoreAssign(
        "x".into(),
        Expr::NatAdd(
            Box::new(Expr::Constant(Nat(i64::MAX))),
            Box::new(Expr::Constant(Nat(1))),
        ),
    );
    let (store, _heap) = eval_program(&program).unwrap();
    assert_eq!(store.get("x"), Some(&Value::Number(i64::MIN)));
}
