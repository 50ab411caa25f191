//! Proved soundness laws relating the type checker to the evaluator.
//!
//! Full soundness — "every program that type-checks evaluates without
//! error" — does not hold of this language: after a `Conditional`, bindings
//! made in only one branch survive in the runtime store but are dropped from
//! the merged type environment, so a later rebinding of such a name to the
//! other kind type-checks and still fails at run time.  The randomized
//! oracles exist to hunt for exactly such counterexamples.  What does hold,
//! and is proved here, is: soundness at expression level for every
//! expression; soundness at statement level for straight-line programs
//! (those without `Conditional` and `While`); the contrapositives of both;
//! the branch-merge law of the conditional; termination of every `While`
//! through the iteration cap; monotonicity of the heap; preservation of
//! the store/heap invariant that every bound location points into the heap;
//! and that the type environment never binds `Boolean`.

use crate::env::map_intersect;
use crate::evaluator::{
    eval_expr_spec, eval_program_spec, eval_stmt_spec, eval_while_spec, eval_while_step_spec,
    Value, WHILE_CAP,
};
use crate::syntax::{Constant, Expr, Statement};
use crate::typechecker::{typecheck_expr_spec, typecheck_spec, typecheck_stmt_spec, Type};
use vstd::prelude::*;

verus! {

/// A constant carries a static type: numbers are `Number`, booleans are
/// `Boolean`.
pub open spec fn constant_has_type(c: Constant, t: Type) -> bool {
    match c {
        Constant::Nat(_) => t == Type::Number,
        Constant::Bool(_) => t == Type::Boolean,
    }
}

/// A runtime value is well-typed at `t`: numbers at `Number`, locations
/// that point into the heap at `Location`.  No store value has type
/// `Boolean`.
pub open spec fn value_has_type(v: Value, t: Type, heap: Seq<i64>) -> bool {
    match t {
        Type::Number => v is Number,
        Type::Location => v matches Value::Location(ix) && ix < heap.len(),
        Type::Boolean => false,
    }
}

/// Every name the type environment knows is bound in the store, to a value
/// of its recorded type.
pub open spec fn env_compat(
    sigma: Map<Seq<char>, Type>,
    store: Map<Seq<char>, Value>,
    heap: Seq<i64>,
) -> bool {
    forall|x: Seq<char>| #[trigger]
        sigma.contains_key(x) ==> store.contains_key(x) && value_has_type(
            store[x],
            sigma[x],
            heap,
        )
}

/// `env_compat`, and conversely every store binding is known to the type
/// environment.  This exact correspondence holds along straight-line
/// execution but is lost at conditionals, whose merged environment may drop
/// names the store keeps.
pub open spec fn env_matches(
    sigma: Map<Seq<char>, Type>,
    store: Map<Seq<char>, Value>,
    heap: Seq<i64>,
) -> bool {
    env_compat(sigma, store, heap) && forall|x: Seq<char>| #[trigger]
        store.contains_key(x) ==> sigma.contains_key(x)
}

/// A statement is straight-line when it contains no `Conditional` and no
/// `While`.
pub open spec fn straight_line(s: Statement) -> bool
    decreases s,
{
    match s {
        Statement::Sequence(s1, s2) => straight_line(*s1) && straight_line(*s2),
        Statement::Conditional(_, _, _) => false,
        Statement::While(_, _) => false,
        _ => true,
    }
}

/// Expression-level type soundness: against a compatible store and heap, an
/// expression that type-checks evaluates without error, to a constant of
/// the type the checker assigned.
pub proof fn lemma_expr_soundness(
    sigma: Map<Seq<char>, Type>,
    store: Map<Seq<char>, Value>,
    heap: Seq<i64>,
    e: Expr,
)
    requires
        env_compat(sigma, store, heap),
    ensures
        (typecheck_expr_spec(sigma, e) matches Ok(t) ==> (eval_expr_spec(e, store, heap)
            matches Ok(c) && constant_has_type(c, t))),
    decreases e,
{
    match e {
        Expr::NatAdd(a, b) | Expr::NatLeq(a, b) | Expr::BoolAnd(a, b) => {
            lemma_expr_soundness(sigma, store, heap, *a);
            lemma_expr_soundness(sigma, store, heap, *b);
        },
        Expr::BoolNot(a) => {
            lemma_expr_soundness(sigma, store, heap, *a);
        },
        _ => {},
    }
}

/// The contrapositive at expression level: against a compatible store and
/// heap, an expression whose evaluation fails also fails to type-check.
pub proof fn lemma_expr_eval_err_implies_type_err(
    sigma: Map<Seq<char>, Type>,
    store: Map<Seq<char>, Value>,
    heap: Seq<i64>,
    e: Expr,
)
    requires
        env_compat(sigma, store, heap),
        eval_expr_spec(e, store, heap) is Err,
    ensures
        typecheck_expr_spec(sigma, e) is Err,
{
    lemma_expr_soundness(sigma, store, heap, e);
}

/// Statement-level type soundness for straight-line programs: under the
/// exact environment/store correspondence, a straight-line statement that
/// type-checks evaluates without error, and the correspondence carries over
/// to the resulting environment, store and heap.
pub proof fn lemma_straight_line_soundness(
    sigma: Map<Seq<char>, Type>,
    store: Map<Seq<char>, Value>,
    heap: Seq<i64>,
    s: Statement,
)
    requires
        straight_line(s),
        env_matches(sigma, store, heap),
        typecheck_stmt_spec(sigma, s).0 is Ok,
    ensures
        ({
            let o = eval_stmt_spec(s, store, heap);
            o.0 is Ok && env_matches(typecheck_stmt_spec(sigma, s).1, o.1, o.2)
        }),
    decreases s,
{
    let o = eval_stmt_spec(s, store, heap);
    match s {
        Statement::StoreAssign(id, e) => {
            lemma_expr_soundness(sigma, store, heap, e);
            let n = eval_expr_spec(e, store, heap)->Ok_0->Nat_0;
            let m = sigma.insert(id@, Type::Number);
            let store2 = store.insert(id@, Value::Number(n));
            assert(!(store.contains_key(id@) && store[id@] is Location));
            assert forall|x: Seq<char>| #[trigger] m.contains_key(x) implies store2.contains_key(
                x,
            ) && value_has_type(store2[x], m[x], heap) by {
                if x != id@ {
                    assert(sigma.contains_key(x));
                }
            }
            assert forall|x: Seq<char>| #[trigger] store2.contains_key(x) implies m.contains_key(
                x,
            ) by {
                if x != id@ {
                    assert(store.contains_key(x));
                }
            }
        },
        Statement::HeapNew(id, e) => {
            lemma_expr_soundness(sigma, store, heap, e);
            let n = eval_expr_spec(e, store, heap)->Ok_0->Nat_0;
            let m = sigma.insert(id@, Type::Location);
            let store2 = store.insert(id@, Value::Location(heap.len() as usize));
            let heap2 = heap.push(n);
            assert(!(store.contains_key(id@) && store[id@] is Number));
            assert forall|x: Seq<char>| #[trigger] m.contains_key(x) implies store2.contains_key(
                x,
            ) && value_has_type(store2[x], m[x], heap2) by {
                if x != id@ {
                    assert(sigma.contains_key(x));
                    assert(value_has_type(store[x], sigma[x], heap));
                }
            }
            assert forall|x: Seq<char>| #[trigger] store2.contains_key(x) implies m.contains_key(
                x,
            ) by {
                if x != id@ {
                    assert(store.contains_key(x));
                }
            }
        },
        Statement::HeapUpdate(id, e) => {
            lemma_expr_soundness(sigma, store, heap, e);
            let n = eval_expr_spec(e, store, heap)->Ok_0->Nat_0;
            assert(sigma.contains_key(id@));
            let ix = store[id@]->Location_0;
            let heap2 = heap.update(ix as int, n);
            assert forall|x: Seq<char>| #[trigger] sigma.contains_key(x) implies store.contains_key(
                x,
            ) && value_has_type(store[x], sigma[x], heap2) by {
                assert(value_has_type(store[x], sigma[x], heap));
            }
        },
        Statement::HeapAlias(alias, id) => {
            assert(sigma.contains_key(id@));
            let ix = store[id@]->Location_0;
            let m = sigma.insert(alias@, Type::Location);
            let store2 = store.insert(alias@, Value::Location(ix));
            assert forall|x: Seq<char>| #[trigger] m.contains_key(x) implies store2.contains_key(
                x,
            ) && value_has_type(store2[x], m[x], heap) by {
                if x != alias@ {
                    assert(sigma.contains_key(x));
                }
            }
            assert forall|x: Seq<char>| #[trigger] store2.contains_key(x) implies m.contains_key(
                x,
            ) by {
                if x != alias@ {
                    assert(store.contains_key(x));
                }
            }
        },
        Statement::Sequence(s1, s2) => {
            lemma_straight_line_soundness(sigma, store, heap, *s1);
            let o1 = eval_stmt_spec(*s1, store, heap);
            let m1 = typecheck_stmt_spec(sigma, *s1).1;
            lemma_straight_line_soundness(m1, o1.1, o1.2, *s2);
        },
        _ => {},
    }
}

/// The contrapositive for straight-line programs: a straight-line program
/// whose evaluation fails also fails to type-check.
pub proof fn lemma_straight_line_eval_err_implies_type_err(s: Statement)
    requires
        straight_line(s),
        eval_program_spec(s) is Err,
    ensures
        typecheck_spec(s) is Err,
{
    if typecheck_stmt_spec(Map::empty(), s).0 is Ok {
        lemma_straight_line_soundness(Map::empty(), Map::empty(), Seq::empty(), s);
    }
}

/// Program-level type soundness for straight-line programs: one that
/// type-checks evaluates without error.
pub proof fn lemma_straight_line_type_sound(s: Statement)
    requires
        straight_line(s),
        typecheck_spec(s) is Ok,
    ensures
        eval_program_spec(s) is Ok,
{
    lemma_straight_line_soundness(Map::empty(), Map::empty(), Seq::empty(), s);
}

/// The branch-merge law of the conditional: when a conditional type-checks,
/// a name is bound in the resulting environment exactly when both branches
/// bind it with the same type, and it then has that common type.  A name on
/// whose type the branches disagree is absent afterwards.
pub proof fn lemma_conditional_merge(
    sigma: Map<Seq<char>, Type>,
    cond: Expr,
    then_s: Box<Statement>,
    else_s: Box<Statement>,
    x: Seq<char>,
)
    requires
        typecheck_stmt_spec(sigma, Statement::Conditional(cond, then_s, else_s)).0 is Ok,
    ensures
        ({
            let o = typecheck_stmt_spec(sigma, Statement::Conditional(cond, then_s, else_s));
            let ot = typecheck_stmt_spec(sigma, *then_s);
            let oe = typecheck_stmt_spec(sigma, *else_s);
            ot.0 is Ok && oe.0 is Ok && (o.1.contains_key(x) <==> (ot.1.contains_key(x)
                && oe.1.contains_key(x) && ot.1[x] == oe.1[x])) && (o.1.contains_key(x)
                ==> o.1[x] == ot.1[x])
        }),
{
}

/// The type environment never binds `Boolean`: no statement rule assigns
/// it to a name, so when every value of the starting environment is
/// `Number` or `Location`, so is every value of the environment a check
/// leaves behind, whether the check succeeds or fails.
pub proof fn lemma_no_boolean_bindings(sigma: Map<Seq<char>, Type>, s: Statement)
    requires
        forall|x: Seq<char>| #[trigger] sigma.contains_key(x) ==> sigma[x] != Type::Boolean,
    ensures
        ({
            let o = typecheck_stmt_spec(sigma, s);
            forall|x: Seq<char>| #[trigger] o.1.contains_key(x) ==> o.1[x] != Type::Boolean
        }),
    decreases s,
{
    match s {
        Statement::Sequence(s1, s2) => {
            lemma_no_boolean_bindings(sigma, *s1);
            let o1 = typecheck_stmt_spec(sigma, *s1);
            if !(o1.0 is Err) {
                lemma_no_boolean_bindings(o1.1, *s2);
            }
        },
        Statement::Conditional(_, then_s, else_s) => {
            // The merged environment's values all come from the then-branch
            // environment.
            lemma_no_boolean_bindings(sigma, *then_s);
            lemma_no_boolean_bindings(sigma, *else_s);
        },
        _ => {},
    }
}

/// Iteration-cap safety: a `While` whose guard is the constant `true` and
/// whose body never fails still evaluates to success — the cap truncates
/// the loop instead of letting it run on.
pub proof fn lemma_while_true_terminates(
    body: Box<Statement>,
    store: Map<Seq<char>, Value>,
    heap: Seq<i64>,
)
    requires
        forall|st: Map<Seq<char>, Value>, h: Seq<i64>| (#[trigger] eval_stmt_spec(*body, st, h)).0
            is Ok,
    ensures
        eval_stmt_spec(
            Statement::While(Expr::Constant(Constant::Bool(true)), body),
            store,
            heap,
        ).0 is Ok,
{
    lemma_while_true_fuel(*body, store, heap, (WHILE_CAP + 1) as nat);
}

proof fn lemma_while_true_fuel(
    body: Statement,
    store: Map<Seq<char>, Value>,
    heap: Seq<i64>,
    fuel: nat,
)
    requires
        forall|st: Map<Seq<char>, Value>, h: Seq<i64>| (#[trigger] eval_stmt_spec(body, st, h)).0
            is Ok,
    ensures
        eval_while_spec(Expr::Constant(Constant::Bool(true)), body, store, heap, fuel).0 is Ok,
    decreases fuel,
{
    let guard = Expr::Constant(Constant::Bool(true));
    assert(eval_expr_spec(guard, store, heap) == Ok::<Constant, crate::error::EvalError>(
        Constant::Bool(true),
    ));
    if fuel > 0 {
        let o = eval_stmt_spec(body, store, heap);
        lemma_while_true_fuel(body, o.1, o.2, (fuel - 1) as nat);
    }
}

/// Every location value bound in the store points into the heap.
pub open spec fn store_locs_valid(store: Map<Seq<char>, Value>, heap: Seq<i64>) -> bool {
    forall|x: Seq<char>| #[trigger]
        store.contains_key(x) ==> (store[x] matches Value::Location(ix) ==> ix < heap.len())
}

/// The store/heap invariant is preserved by every statement, whether it
/// succeeds or fails: a location bound in the store always points into the
/// heap.  An `InvalidDereference` can therefore never arise in a
/// whole-program run, whose store and heap start empty.
pub proof fn lemma_store_locs_valid_preserved(
    s: Statement,
    store: Map<Seq<char>, Value>,
    heap: Seq<i64>,
)
    requires
        store_locs_valid(store, heap),
    ensures
        ({
            let o = eval_stmt_spec(s, store, heap);
            store_locs_valid(o.1, o.2)
        }),
    decreases s, 0nat, 0nat,
{
    match s {
        Statement::Sequence(s1, s2) => {
            lemma_store_locs_valid_preserved(*s1, store, heap);
            let o1 = eval_stmt_spec(*s1, store, heap);
            if o1.0 is Ok {
                lemma_store_locs_valid_preserved(*s2, o1.1, o1.2);
            }
        },
        Statement::Conditional(_, then_s, else_s) => {
            lemma_store_locs_valid_preserved(*then_s, store, heap);
            lemma_store_locs_valid_preserved(*else_s, store, heap);
        },
        Statement::While(e, body) => {
            lemma_store_locs_valid_while(e, *body, store, heap, (WHILE_CAP + 1) as nat);
        },
        _ => {},
    }
}

proof fn lemma_store_locs_valid_while(
    cond: Expr,
    body: Statement,
    store: Map<Seq<char>, Value>,
    heap: Seq<i64>,
    fuel: nat,
)
    requires
        store_locs_valid(store, heap),
    ensures
        ({
            let o = eval_while_spec(cond, body, store, heap, fuel);
            store_locs_valid(o.1, o.2)
        }),
    decreases body, fuel, 1nat,
{
    if eval_expr_spec(cond, store, heap) is Ok {
        let v = eval_expr_spec(cond, store, heap)->Ok_0;
        lemma_store_locs_valid_while_step(cond, body, v, store, heap, fuel);
    }
}

proof fn lemma_store_locs_valid_while_step(
    cond: Expr,
    body: Statement,
    v: Constant,
    store: Map<Seq<char>, Value>,
    heap: Seq<i64>,
    fuel: nat,
)
    requires
        store_locs_valid(store, heap),
    ensures
        ({
            let o = eval_while_step_spec(cond, body, v, store, heap, fuel);
            store_locs_valid(o.1, o.2)
        }),
    decreases body, fuel, 0nat,
{
    if v == Constant::Bool(true) && fuel > 0 {
        lemma_store_locs_valid_preserved(body, store, heap);
        let o = eval_stmt_spec(body, store, heap);
        if o.0 is Ok {
            lemma_store_locs_valid_while(cond, body, o.1, o.2, (fuel - 1) as nat);
        }
    }
}

/// The heap only grows: whatever a statement does, the heap it leaves
/// behind is at least as long as the one it started from, so a location
/// valid once stays valid.
pub proof fn lemma_heap_monotone(s: Statement, store: Map<Seq<char>, Value>, heap: Seq<i64>)
    ensures
        eval_stmt_spec(s, store, heap).2.len() >= heap.len(),
    decreases s, 0nat, 0nat,
{
    match s {
        Statement::Sequence(s1, s2) => {
            lemma_heap_monotone(*s1, store, heap);
            let o1 = eval_stmt_spec(*s1, store, heap);
            if o1.0 is Ok {
                lemma_heap_monotone(*s2, o1.1, o1.2);
            }
        },
        Statement::Conditional(_, then_s, else_s) => {
            lemma_heap_monotone(*then_s, store, heap);
            lemma_heap_monotone(*else_s, store, heap);
        },
        Statement::While(e, body) => {
            lemma_heap_monotone_while(e, *body, store, heap, (WHILE_CAP + 1) as nat);
        },
        _ => {},
    }
}

proof fn lemma_heap_monotone_while(
    cond: Expr,
    body: Statement,
    store: Map<Seq<char>, Value>,
    heap: Seq<i64>,
    fuel: nat,
)
    ensures
        eval_while_spec(cond, body, store, heap, fuel).2.len() >= heap.len(),
    decreases body, fuel, 1nat,
{
    if eval_expr_spec(cond, store, heap) is Ok {
        let v = eval_expr_spec(cond, store, heap)->Ok_0;
        lemma_heap_monotone_while_step(cond, body, v, store, heap, fuel);
    }
}

proof fn lemma_heap_monotone_while_step(
    cond: Expr,
    body: Statement,
    v: Constant,
    store: Map<Seq<char>, Value>,
    heap: Seq<i64>,
    fuel: nat,
)
    ensures
        eval_while_step_spec(cond, body, v, store, heap, fuel).2.len() >= heap.len(),
    decreases body, fuel, 0nat,
{
    if v == Constant::Bool(true) && fuel > 0 {
        lemma_heap_monotone(body, store, heap);
        let o = eval_stmt_spec(body, store, heap);
        if o.0 is Ok {
            lemma_heap_monotone_while(cond, body, o.1, o.2, (fuel - 1) as nat);
        }
    }
}

} // verus!
