//! A small imperative language ("Imp") with a split store/heap memory model,
//! together with the tooling used to test that its type system is sound with
//! respect to its dynamic semantics: a big-step evaluator, a flow-sensitive
//! type checker, a scope-aware random program generator, a shrinker, and
//! three differential-testing oracles.

pub mod check_eval;
pub mod env;
pub mod error;
pub mod evaluator;
pub mod soundness;
pub mod syntax;
pub mod typechecker;
