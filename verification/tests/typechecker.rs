use heavyimp::error::{EvalError, TypeError};
use heavyimp::evaluator::eval_program;
use heavyimp::syntax::Constant::{Bool, Nat};
use heavyimp::syntax::{Expr, Statement};
use heavyimp::typechecker::{typecheck, Type};

#[test]
fn basic_test() -> Result<(), TypeError> {
    let program = Statement::Sequence(
        Box::new(Statement::HeapNew("x".into(), Expr::Constant(Nat(1)))),
        Box::new(Statement::Sequence(
            Box::new(Statement::Sequence(
                Box::new(Statement::HeapNew("z".into(), Expr::Constant(Nat(2)))),
                Box::new(Statement::HeapUpdate(
                    "z".into(),
                    Expr::NatAdd(
                        Box::new(Expr::HeapRead("x".into())),
                        Box::new(Expr::HeapRead("z".into())),
                    ),
                )),
            )),
            Box::new(Statement::Conditional(
                Expr::NatLeq(
                    Box::new(Expr::HeapRead("x".into())),
                    Box::new(Expr::Constant(Nat(0))),
                ),
                Box::new(Statement::HeapNew("y".into(), Expr::HeapRead("z".into()))),
                Box::new(Statement::HeapNew("y".into(), Expr::Constant(Nat(4)))),
            )),
        )),
    );
    typecheck(&program)
}

#[test]
fn basic_test2() {
    let program = Statement::Sequence(
        Box::new(Statement::Sequence(
            Box::new(Statement::Sequence(
                Box::new(Statement::Sequence(
                    Box::new(Statement::Sequence(
                        Box::new(Statement::Sequence(
                            Box::new(Statement::Skip),
                            Box::new(Statement::StoreAssign(
                                "x1".into(),
                                Expr::Constant(Nat(13)),
                            )),
                        )),
                        Box::new(Statement::Skip),
                    )),
                    Box::new(Statement::HeapNew(
                        "x2".into(),
                        Expr::StoreRead("x1".into()),
                    )),
                )),
                Box::new(Statement::Conditional(
                    Expr::BoolNot(Box::new(Expr::Constant(Bool(true)))),
                    Box::new(Statement::While(
                        Expr::BoolAnd(
                            Box::new(Expr::BoolAnd(
                                Box::new(Expr::Constant(Bool(false))),
                                Box::new(Expr::Constant(Bool(true))),
                            )),
                            Box::new(Expr::Constant(Bool(true))),
                        ),
                        Box::new(Statement::StoreAssign(
                            "x4".into(),
                            Expr::StoreRead("x1".into()),
                        )),
                    )),
                    Box::new(Statement::HeapAlias("x1".into(), "x2".into())),
                )),
            )),
            Box::new(Statement::HeapNew("x3".into(), Expr::Constant(Nat(117)))),
        )),
        Box::new(Statement::HeapUpdate(
            "x2".into(),
            Expr::StoreRead("x1".into()),
        )),
    );
    typecheck(&program).unwrap_err();
}

#[test]
fn bound_kind_rebinding_fails_typecheck() {
    // Statically, rebinding a Number name as a Location is a Mismatch.
    let program = Statement::Sequence(
        Box::new(Statement::StoreAssign("x".into(), Expr::Constant(Nat(1)))),
        Box::new(Statement::HeapNew("x".into(), Expr::Constant(Nat(2)))),
    );
    let err = typecheck(&program).unwrap_err();
    assert_eq!(
        err,
        TypeError::Mismatch {
            expected: Type::Location,
            got: Type::Number,
        }
    );
}

#[test]
fn conditional_merge_drops_disagreement() {
    // Both branches type-check on their own, binding "a" to different
    // kinds; after the conditional, "a" is absent from the environment, so
    // a later use of it is unbound.
    let then_branch = Statement::StoreAssign("a".into(), Expr::Constant(Nat(1)));
    let else_branch = Statement::HeapNew("a".into(), Expr::Constant(Nat(1)));
    assert!(typecheck(&then_branch).is_ok());
    assert!(typecheck(&else_branch).is_ok());

    let conditional = Statement::Conditional(
        Expr::Constant(Bool(true)),
        Box::new(Statement::StoreAssign("a".into(), Expr::Constant(Nat(1)))),
        Box::new(Statement::HeapNew("a".into(), Expr::Constant(Nat(1)))),
    );
    assert!(typecheck(&conditional).is_ok());

    let use_after = Statement::Sequence(
        Box::new(Statement::Conditional(
            Expr::Constant(Bool(true)),
            Box::new(Statement::StoreAssign("a".into(), Expr::Constant(Nat(1)))),
            Box::new(Statement::HeapNew("a".into(), Expr::Constant(Nat(1)))),
        )),
        Box::new(Statement::StoreAssign(
            "b".into(),
            Expr::StoreRead("a".into()),
        )),
    );
    assert_eq!(typecheck(&use_after).unwrap_err(), TypeError::UnboundVariable);
}

#[test]
fn conditional_merge_keeps_agreement() {
    // A name both branches bind with the same kind survives the merge.
    let program = Statement::Sequence(
        Box::new(Statement::Conditional(
            Expr::Constant(Bool(true)),
            Box::new(Statement::StoreAssign("a".into(), Expr::Constant(Nat(1)))),
            Box::new(Statement::StoreAssign("a".into(), Expr::Constant(Nat(2)))),
        )),
        Box::new(Statement::StoreAssign(
            "b".into(),
            Expr::StoreRead("a".into()),
        )),
    );
    assert!(typecheck(&program).is_ok());
}

#[test]
fn while_body_bindings_do_not_leak() {
    // Nothing bound inside a loop body can be assumed after the loop.
    let program = Statement::Sequence(
        Box::new(Statement::While(
            Expr::Constant(Bool(false)),
            Box::new(Statement::StoreAssign("a".into(), Expr::Constant(Nat(1)))),
        )),
        Box::new(Statement::StoreAssign(
            "b".into(),
            Expr::StoreRead("a".into()),
        )),
    );
    assert_eq!(typecheck(&program).unwrap_err(), TypeError::UnboundVariable);
}

#[test]
fn typecheck_mismatch_on_operands() {
    let program = Statement::StoreAssign(
        "x".into(),
        Expr::NatAdd(
            Box::new(Expr::Constant(Nat(1))),
            Box::new(Expr::Constant(Bool(true))),
        ),
    );
    let err = typecheck(&program).unwrap_err();
    assert_eq!(
        err,
        TypeError::Mismatch {
            expected: Type::Number,
            got: Type::Boolean,
        }
    );
}

#[test]
fn soundness_gap_after_conditional() {
    // The known limit of the type system: a binding made in one branch
    // survives in the runtime store but is dropped from the merged type
    // environment, so this program type-checks yet fails to evaluate.
    let program = Statement::Sequence(
        Box::new(Statement::Conditional(
            Expr::Constant(Bool(true)),
            Box::new(Statement::HeapNew("a".into(), Expr::Constant(Nat(1)))),
            Box::new(Statement::Skip),
        )),
        Box::new(Statement::StoreAssign("a".into(), Expr::Constant(Nat(1)))),
    );
    assert!(typecheck(&program).is_ok());
    assert_eq!(eval_program(&program).unwrap_err(), EvalError::TypeMismatch);
}
