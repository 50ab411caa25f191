use heavyimp::check_eval::{
    check_correct, check_eval_type, check_type_eval, quick_check, CorrectProgram, Verdict,
};
use heavyimp::syntax::Constant::{Bool, Nat};
use heavyimp::syntax::{Constant, Expr, Statement};
use quickcheck::Gen;

fn pass_program() -> Statement {
    Statement::Sequence(
        Box::new(Statement::StoreAssign("x".into(), Expr::Constant(Nat(1)))),
        Box::new(Statement::HeapNew("y".into(), Expr::StoreRead("x".into()))),
    )
}

fn discard_program() -> Statement {
    // Ill-typed and failing: reads an unbound name.
    Statement::StoreAssign("x".into(), Expr::StoreRead("nowhere".into()))
}

fn gap_program() -> Statement {
    // Type-checks but fails to evaluate: the binding of "a" made in the
    // taken branch survives in the store, while the merged type environment
    // forgets it.
    Statement::Sequence(
        Box::new(Statement::Conditional(
            Expr::Constant(Bool(true)),
            Box::new(Statement::HeapNew("a".into(), Expr::Constant(Nat(1)))),
            Box::new(Statement::Skip),
        )),
        Box::new(Statement::StoreAssign("a".into(), Expr::Constant(Nat(1)))),
    )
}

#[test]
fn check_type_eval_verdicts() {
    assert_eq!(check_type_eval(&pass_program()), Verdict::Pass);
    assert_eq!(check_type_eval(&discard_program()), Verdict::Discard);
    assert_eq!(check_type_eval(&gap_program()), Verdict::Fail);
}

#[test]
fn check_eval_type_verdicts() {
    assert_eq!(check_eval_type(&pass_program()), Verdict::Discard);
    assert_eq!(check_eval_type(&discard_program()), Verdict::Pass);
    assert_eq!(check_eval_type(&gap_program()), Verdict::Fail);
}

#[test]
fn check_correct_verdicts() {
    assert_eq!(check_correct(&CorrectProgram(pass_program())), Verdict::Pass);
    assert_eq!(
        check_correct(&CorrectProgram(discard_program())),
        Verdict::Fail
    );
}

#[test]
fn quick_check_verdicts() {
    assert_eq!(quick_check(&pass_program()), Verdict::Pass);
    assert_eq!(quick_check(&discard_program()), Verdict::Discard);
    assert_eq!(quick_check(&gap_program()), Verdict::Fail);
}

#[test]
fn arbitrary_reaches_target_size() {
    let mut g = Gen::new(30);
    for _ in 0..20 {
        let stmnt = Statement::arbitrary(&mut g);
        assert!(stmnt.size() >= 30);
    }
}

#[test]
fn baseline_oracle_holds_without_loops() {
    // Fault-free programs must type-check and evaluate.  Loops are disabled
    // here so that many trials fit the time budget; the iteration cap is
    // exercised by the loop-enabled trials and the evaluator tests.
    let mut g = Gen::new(65);
    let mut passed: usize = 0;
    for _ in 0..10000 {
        let mut store: Vec<String> = Vec::new();
        let mut heap: Vec<String> = Vec::new();
        let stmnt = Statement::arbitrary_sized(&mut g, &mut store, &mut heap, false, false, 65);
        let prgm = CorrectProgram(stmnt);
        match check_correct(&prgm) {
            Verdict::Pass => passed += 1,
            Verdict::Fail => panic!("typecheck or eval failed on {:?}", prgm.0),
            Verdict::Discard => {}
        }
    }
    assert_eq!(passed, 10000);
}

#[test]
fn baseline_oracle_holds_with_loops() {
    // As above, with While statements enabled: capped loops must not make a
    // fault-free program fail.
    let mut g = Gen::new(65);
    for _ in 0..1000 {
        let prgm = CorrectProgram::arbitrary(&mut g);
        if check_correct(&prgm) == Verdict::Fail {
            panic!("typecheck or eval failed on {:?}", prgm.0);
        }
    }
}

#[test]
fn type_implies_eval_oracle_trials() {
    // With fault injection enabled, a program that type-checks must still
    // evaluate; ill-typed programs are discarded and must stay a minority.
    let mut g = Gen::new(40);
    let mut passed: usize = 0;
    for _ in 0..10000 {
        let mut store: Vec<String> = Vec::new();
        let mut heap: Vec<String> = Vec::new();
        let stmnt = Statement::arbitrary_sized(&mut g, &mut store, &mut heap, true, false, 40);
        match check_type_eval(&stmnt) {
            Verdict::Pass => passed += 1,
            Verdict::Fail => panic!("evaluation error on {:?}", stmnt),
            Verdict::Discard => {}
        }
    }
    assert!(passed >= 4000, "only {} of 10000 trials passed", passed);
}

#[test]
fn eval_err_implies_type_err_oracle_trials() {
    // With fault injection enabled, every program whose evaluation fails
    // must also fail to type-check.
    let mut g = Gen::new(80);
    let mut passed: usize = 0;
    for _ in 0..10000 {
        let mut store: Vec<String> = Vec::new();
        let mut heap: Vec<String> = Vec::new();
        let stmnt = Statement::arbitrary_sized(&mut g, &mut store, &mut heap, true, false, 80);
        match check_eval_type(&stmnt) {
            Verdict::Pass => passed += 1,
            Verdict::Fail => panic!("typecheck validated incorrect program: {:?}", stmnt),
            Verdict::Discard => {}
        }
    }
    assert!(passed >= 4000, "only {} of 10000 trials supported the property", passed);
}

#[test]
fn type_implies_eval_oracle_trials_with_loops() {
    // As the loop-free trials, with While statements enabled so the
    // iteration cap runs under fault injection too.
    let mut g = Gen::new(40);
    let mut passed: usize = 0;
    for _ in 0..1500 {
        let stmnt = Statement::arbitrary(&mut g);
        match check_type_eval(&stmnt) {
            Verdict::Pass => passed += 1,
            Verdict::Fail => panic!("evaluation error on {:?}", stmnt),
            Verdict::Discard => {}
        }
    }
    assert!(passed >= 450, "only {} of 1500 trials passed", passed);
}

#[test]
fn eval_err_implies_type_err_oracle_trials_with_loops() {
    // As the loop-free trials, with While statements enabled.
    let mut g = Gen::new(40);
    let mut passed: usize = 0;
    for _ in 0..1500 {
        let stmnt = Statement::arbitrary(&mut g);
        match check_eval_type(&stmnt) {
            Verdict::Pass => passed += 1,
            Verdict::Fail => panic!("typecheck validated incorrect program: {:?}", stmnt),
            Verdict::Discard => {}
        }
    }
    assert!(passed >= 300, "only {} of 1500 trials supported the property", passed);
}

#[test]
fn shrink_candidates_no_larger() {
    // Every shrink candidate is structurally no larger than its source.
    let source = Statement::Sequence(
        Box::new(Statement::StoreAssign("x".into(), Expr::Constant(Nat(4)))),
        Box::new(Statement::While(
            Expr::Constant(Bool(true)),
            Box::new(Statement::HeapNew("y".into(), Expr::Constant(Nat(2)))),
        )),
    );
    for candidate in source.shrink() {
        assert!(candidate.size() <= source.size());
    }
}

#[test]
fn shrink_sequence_candidates() {
    // A sequence shrinks into its shrunk first component promoted whole,
    // the second component shrunk in place, and the first component itself.
    let source = Statement::Sequence(
        Box::new(Statement::StoreAssign("x".into(), Expr::Constant(Nat(1)))),
        Box::new(Statement::Skip),
    );
    let candidates = source.shrink();
    assert_eq!(
        candidates,
        vec![
            Statement::StoreAssign("x".into(), Expr::Constant(Nat(0))),
            Statement::StoreAssign("x".into(), Expr::Constant(Nat(1))),
        ]
    );
}

#[test]
fn shrink_reaches_fixed_point() {
    // Following first candidates must bottom out: zero constants and
    // reference statements yield no further candidates.
    let mut current = Statement::StoreAssign("x".into(), Expr::Constant(Nat(100)));
    let mut steps: usize = 0;
    loop {
        let candidates = current.shrink();
        match candidates.into_iter().next() {
            Some(next) => {
                current = next;
                steps += 1;
                assert!(steps < 1000, "shrinking did not reach a fixed point");
            }
            None => break,
        }
    }
    assert_eq!(
        current,
        Statement::StoreAssign("x".into(), Expr::Constant(Nat(0)))
    );
}

#[test]
fn shrink_constant_kinds() {
    // true shrinks to false alone; zero does not shrink further.
    assert_eq!(Constant::Bool(true).shrink(), vec![Constant::Bool(false)]);
    assert_eq!(Constant::Bool(false).shrink(), Vec::<Constant>::new());
    assert_eq!(Constant::Nat(0).shrink(), Vec::<Constant>::new());
    for c in Constant::Nat(-7).shrink() {
        assert!(matches!(c, Constant::Nat(_)));
    }
}

#[test]
fn correct_program_shrink_wraps_statement_candidates() {
    let prgm = CorrectProgram(Statement::Sequence(
        Box::new(Statement::StoreAssign("x".into(), Expr::Constant(Nat(2)))),
        Box::new(Statement::Skip),
    ));
    let direct = prgm.0.shrink();
    let wrapped = prgm.shrink();
    assert_eq!(direct.len(), wrapped.len());
    for (d, w) in direct.iter().zip(wrapped.iter()) {
        assert_eq!(d, &w.0);
    }
}
