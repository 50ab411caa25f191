//! The randomized differential-testing harness: a scope-aware program
//! generator, a shrinker, and the three oracles that compare the type
//! checker with the evaluator.
//!
//! Randomness is drawn from quickcheck's `Gen`; what comes back from it is
//! never relied on, so every function here is verified for every value the
//! generator may produce.  The scope-tracking sets are threaded explicitly
//! through the generation calls, so independent trials cannot interfere.

use crate::env::str_eq;
use crate::error::TypeError;
use crate::evaluator::{eval_program, eval_program_spec};
use crate::syntax::{
    expr_nodes, lemma_stmt_size_pos, stmt_nodes, stmt_size, stmt_size_clamped, Constant, Expr,
    Statement,
};
use crate::typechecker::{typecheck, typecheck_expr_spec, typecheck_spec, typecheck_stmt_spec, Type};
use vstd::prelude::*;
use vstd::string::{StrSliceExecFns, StringExecFns};

verus! {

/// quickcheck's pseudo-random number generator, carried through generation
/// as an opaque value.
#[verifier::external_type_specification]
#[verifier::external_body]
pub struct ExGen(quickcheck::Gen);

/// Relies on quickcheck's `u8::arbitrary`: a pseudo-random byte.
#[verifier::external_body]
fn rand_u8(g: &mut quickcheck::Gen) -> u8 {
    quickcheck::Arbitrary::arbitrary(g)
}

/// Relies on quickcheck's `u16::arbitrary`: a pseudo-random 16-bit integer.
#[verifier::external_body]
fn rand_u16(g: &mut quickcheck::Gen) -> u16 {
    quickcheck::Arbitrary::arbitrary(g)
}

/// Relies on quickcheck's `i8::arbitrary`: a pseudo-random signed byte.
#[verifier::external_body]
fn rand_i8(g: &mut quickcheck::Gen) -> i8 {
    quickcheck::Arbitrary::arbitrary(g)
}

/// Relies on quickcheck's `bool::arbitrary`: a pseudo-random boolean.
#[verifier::external_body]
fn rand_bool(g: &mut quickcheck::Gen) -> bool {
    quickcheck::Arbitrary::arbitrary(g)
}

/// Relies on quickcheck's `Gen::size`: the size configured for the
/// generator.
#[verifier::external_body]
fn gen_size(g: &quickcheck::Gen) -> usize {
    g.size()
}

/// Relies on quickcheck's `Gen::choose`: `None` exactly on an empty slice,
/// otherwise some element of the slice.
#[verifier::external_body]
fn choose_name(g: &mut quickcheck::Gen, v: &Vec<String>) -> (r: Option<String>)
    ensures
        (match r {
            None => v@.len() == 0,
            Some(s) => exists|i: int| 0 <= i < v@.len() && s@ == v@[i]@,
        }),
{
    g.choose(v.as_slice()).cloned()
}

/// Relies on quickcheck's `i64::arbitrary` shrinker: zero yields nothing;
/// a positive number yields values in `[0, n)`; a negative one yields its
/// negation and values in `(n, 0]`.
#[verifier::external_body]
fn shrink_i64(n: i64) -> (r: Vec<i64>)
    ensures
        n == 0 ==> r@.len() == 0,
        n > 0 ==> forall|i: int| 0 <= i < r@.len() ==> 0 <= #[trigger] r@[i] < n,
        n < 0 ==> forall|i: int|
            0 <= i < r@.len() ==> (#[trigger] r@[i] == -(n as int) || n < r@[i] <= 0),
{
    quickcheck::Arbitrary::shrink(&n).collect()
}

/// Relies on quickcheck's `bool::arbitrary` shrinker: `true` shrinks to
/// `false` alone, `false` not at all.
#[verifier::external_body]
fn shrink_bool(b: bool) -> (r: Vec<bool>)
    ensures
        r@.len() == (if b {
            1int
        } else {
            0int
        }),
        b ==> r@[0] == false,
{
    quickcheck::Arbitrary::shrink(&b).collect()
}

/// The verdict of an oracle on one generated program.
#[derive(Debug, Clone, Copy, PartialEq, Eq, Structural)]
pub enum Verdict {
    Pass,
    Fail,
    Discard,
}

/// The type-soundness oracle: a program that does not type-check is
/// discarded; one that type-checks and fails to evaluate refutes soundness;
/// one that passes both supports it.
pub fn check_type_eval(stmnt: &Statement) -> (r: Verdict)
    ensures
        r == (if typecheck_spec(*stmnt) is Err {
            Verdict::Discard
        } else if eval_program_spec(*stmnt) is Err {
            Verdict::Fail
        } else {
            Verdict::Pass
        }),
{
    let tc = typecheck(stmnt);
    let ev = eval_program(stmnt);
    if tc.is_err() {
        Verdict::Discard
    } else if ev.is_err() {
        Verdict::Fail
    } else {
        Verdict::Pass
    }
}

/// The permissiveness oracle: a program that evaluates successfully is
/// inconclusive; one whose evaluation fails must also fail to type-check,
/// else the type system missed a runtime failure.
pub fn check_eval_type(stmnt: &Statement) -> (r: Verdict)
    ensures
        r == (if !(eval_program_spec(*stmnt) is Err) {
            Verdict::Discard
        } else if typecheck_spec(*stmnt) is Err {
            Verdict::Pass
        } else {
            Verdict::Fail
        }),
{
    let tc = typecheck(stmnt);
    let ev = eval_program(stmnt);
    if tc.is_err() && ev.is_err() {
        Verdict::Pass
    } else if ev.is_err() {
        Verdict::Fail
    } else {
        Verdict::Discard
    }
}

/// The oracle of `check_type_eval`, under the name the evaluator harness
/// uses for it.
pub fn quick_check(stmnt: &Statement) -> (r: Verdict)
    ensures
        r == (if typecheck_spec(*stmnt) is Err {
            Verdict::Discard
        } else if eval_program_spec(*stmnt) is Err {
            Verdict::Fail
        } else {
            Verdict::Pass
        }),
{
    check_type_eval(stmnt)
}

/// A program generated with fault injection disabled, expected to both
/// type-check and evaluate.
#[derive(Debug, PartialEq, Eq)]
pub struct CorrectProgram(pub Statement);

/// The baseline oracle: a fault-free generated program must type-check and
/// evaluate; either failure is a generator regression.
pub fn check_correct(prgm: &CorrectProgram) -> (r: Verdict)
    ensures
        r == (if typecheck_spec(prgm.0) is Err || eval_program_spec(prgm.0) is Err {
            Verdict::Fail
        } else {
            Verdict::Pass
        }),
{
    let tc = typecheck(&prgm.0);
    let ev = eval_program(&prgm.0);
    if tc.is_err() {
        Verdict::Fail
    } else if ev.is_err() {
        Verdict::Fail
    } else {
        Verdict::Pass
    }
}

/// Whether a name occurs in a scope set.
fn set_contains(v: &Vec<String>, name: &str) -> (r: bool)
    ensures
        r == (exists|i: int| 0 <= i < v@.len() && v@[i]@ == name@),
{
    let n = v.len();
    let mut i: usize = 0;
    while i < n
        invariant
            n == v@.len(),
            i <= n,
            forall|j: int| 0 <= j < i ==> v@[j]@ != name@,
        decreases n - i,
    {
        if str_eq(v[i].as_str(), name) {
            return true;
        }
        i += 1;
    }
    false
}

/// Remove the first occurrence of a name from a scope set, if any.
fn set_remove(v: &mut Vec<String>, name: &str)
    ensures
        final(v)@ == remove_first(old(v)@, name@),
{
    let n = v.len();
    let mut i: usize = 0;
    while i < n
        invariant
            n == v@.len(),
            i <= n,
            v@ == old(v)@,
            forall|j: int| 0 <= j < i ==> v@[j]@ != name@,
        decreases n - i,
    {
        if str_eq(v[i].as_str(), name) {
            proof {
                lemma_remove_first_at(v@, name@, i as int);
            }
            v.remove(i);
            return ;
        }
        i += 1;
    }
    proof {
        lemma_remove_first_absent(v@, name@);
    }
}

/// A snapshot of the two scope sets, taken before generating a branch.
pub fn clone_sets(store: &Vec<String>, heap: &Vec<String>) -> (r: (Vec<String>, Vec<String>))
    ensures
        r.0@ == store@,
        r.1@ == heap@,
{
    let mut s: Vec<String> = Vec::new();
    let mut i: usize = 0;
    while i < store.len()
        invariant
            i <= store@.len(),
            s@.len() == i,
            forall|j: int| 0 <= j < i ==> s@[j] == store@[j],
        decreases store@.len() - i,
    {
        s.push(store[i].clone());
        i += 1;
    }
    let mut h: Vec<String> = Vec::new();
    let mut k: usize = 0;
    while k < heap.len()
        invariant
            k <= heap@.len(),
            h@.len() == k,
            forall|j: int| 0 <= j < k ==> h@[j] == heap@[j],
        decreases heap@.len() - k,
    {
        h.push(heap[k].clone());
        k += 1;
    }
    proof {
        assert(s@ =~= store@);
        assert(h@ =~= heap@);
    }
    (s, h)
}

/// Restore the two scope sets from a snapshot, discarding what a branch
/// added.
pub fn restore_sets(store: &mut Vec<String>, heap: &mut Vec<String>, saved: &(Vec<String>, Vec<String>))
    ensures
        final(store)@ == saved.0@,
        final(heap)@ == saved.1@,
{
    let copies = clone_sets(&saved.0, &saved.1);
    *store = copies.0;
    *heap = copies.1;
}

/// How many primitive statements are still missing from the size target.
spec fn size_deficit(target: usize, s: Statement) -> nat {
    if stmt_size_clamped(s) >= target {
        0
    } else {
        (target - stmt_size_clamped(s)) as nat
    }
}

/// The recursion budget of one generation call.  Recursion in generation is
/// driven by random rolls; this explicit bound is what makes it provably
/// finite.
const GEN_DEPTH: u64 = 12;

/// A lowercase ASCII letter.
pub open spec fn is_lowercase_letter(c: char) -> bool {
    'a' as u32 <= c as u32 && c as u32 <= 'z' as u32
}

/// A nonempty string of lowercase letters: the shape of every freshly
/// generated identifier.
pub open spec fn is_lower_ident(s: Seq<char>) -> bool {
    s.len() > 0 && forall|i: int| 0 <= i < s.len() ==> is_lowercase_letter(#[trigger] s[i])
}

/// An environment that agrees with the scope sets: every name in the store
/// set is bound as `Number`, every name in the heap set as `Location`.
pub open spec fn sets_typed(
    sigma: Map<Seq<char>, Type>,
    store: Seq<String>,
    heap: Seq<String>,
) -> bool {
    (forall|i: int|
        0 <= i < store.len() ==> sigma.contains_key((#[trigger] store[i])@) && sigma[store[i]@]
            == Type::Number) && (forall|i: int|
        0 <= i < heap.len() ==> sigma.contains_key((#[trigger] heap[i])@) && sigma[heap[i]@]
            == Type::Location)
}

/// A name occurs in a scope set.
pub open spec fn name_in(s: Seq<String>, x: Seq<char>) -> bool {
    exists|i: int| 0 <= i < s.len() && (#[trigger] s[i])@ == x
}

/// `sets_typed`, and conversely the environment binds nothing outside the
/// scope sets: the environment is exactly the names in scope, each with
/// its kind.
pub open spec fn sets_exact(
    sigma: Map<Seq<char>, Type>,
    store: Seq<String>,
    heap: Seq<String>,
) -> bool {
    sets_typed(sigma, store, heap) && forall|x: Seq<char>| #[trigger]
        sigma.contains_key(x) ==> name_in(store, x) || name_in(heap, x)
}

/// What a fault-free generated statement guarantees at its program point:
/// in every environment that is exactly the names in scope before it, the
/// statement type-checks, and the environment it leaves is exactly the
/// names in scope after it.
pub open spec fn well_scoped_step(
    r: Statement,
    store0: Seq<String>,
    heap0: Seq<String>,
    store1: Seq<String>,
    heap1: Seq<String>,
) -> bool {
    forall|sigma: Map<Seq<char>, Type>|
        sets_exact(sigma, store0, heap0) ==> (#[trigger] typecheck_stmt_spec(sigma, r)).0 is Ok
            && sets_exact(typecheck_stmt_spec(sigma, r).1, store1, heap1)
}

/// A scope set with the first occurrence of a name removed.
pub open spec fn remove_first(s: Seq<String>, x: Seq<char>) -> Seq<String>
    decreases s.len(),
{
    if s.len() == 0 {
        s
    } else if s[0]@ == x {
        s.drop_first()
    } else {
        seq![s[0]].add(remove_first(s.drop_first(), x))
    }
}

proof fn lemma_remove_first_at(s: Seq<String>, x: Seq<char>, i: int)
    requires
        0 <= i < s.len(),
        s[i]@ == x,
        forall|j: int| 0 <= j < i ==> s[j]@ != x,
    ensures
        remove_first(s, x) == s.remove(i),
    decreases i,
{
    if i == 0 {
        assert(s.drop_first() =~= s.remove(0));
    } else {
        assert(s.drop_first()[i - 1]@ == x);
        assert forall|j: int| 0 <= j < i - 1 implies s.drop_first()[j]@ != x by {
            assert(s[j + 1]@ != x);
        }
        lemma_remove_first_at(s.drop_first(), x, i - 1);
        assert(seq![s[0]].add(s.drop_first().remove(i - 1)) =~= s.remove(i));
    }
}

proof fn lemma_remove_first_absent(s: Seq<String>, x: Seq<char>)
    requires
        forall|j: int| 0 <= j < s.len() ==> s[j]@ != x,
    ensures
        remove_first(s, x) == s,
    decreases s.len(),
{
    if s.len() > 0 {
        assert forall|j: int| 0 <= j < s.drop_first().len() implies s.drop_first()[j]@ != x by {
            assert(s[j + 1]@ != x);
        }
        lemma_remove_first_absent(s.drop_first(), x);
        assert(seq![s[0]].add(s.drop_first()) =~= s);
    }
}

proof fn lemma_remove_first_push_fresh(s: Seq<String>, p: String)
    requires
        forall|i: int| 0 <= i < s.len() ==> (#[trigger] s[i])@ != p@,
    ensures
        remove_first(s.push(p), p@) == s,
{
    lemma_remove_first_at(s.push(p), p@, s.len() as int);
    assert(s.push(p).remove(s.len() as int) =~= s);
}

proof fn lemma_remove_first_elements(s: Seq<String>, x: Seq<char>)
    ensures
        forall|j: int|
            0 <= j < remove_first(s, x).len() ==> exists|k: int|
                0 <= k < s.len() && s[k] == #[trigger] remove_first(s, x)[j],
    decreases s.len(),
{
    if s.len() > 0 {
        if s[0]@ == x {
            assert forall|j: int| 0 <= j < remove_first(s, x).len() implies exists|k: int|
                0 <= k < s.len() && s[k] == #[trigger] remove_first(s, x)[j] by {
                assert(s[j + 1] == remove_first(s, x)[j]);
            }
        } else {
            lemma_remove_first_elements(s.drop_first(), x);
            assert forall|j: int| 0 <= j < remove_first(s, x).len() implies exists|k: int|
                0 <= k < s.len() && s[k] == #[trigger] remove_first(s, x)[j] by {
                if j == 0 {
                    assert(s[0] == remove_first(s, x)[0]);
                } else {
                    assert(remove_first(s, x)[j] == remove_first(s.drop_first(), x)[j - 1]);
                    let k = choose|k: int|
                        0 <= k < s.drop_first().len() && s.drop_first()[k] == remove_first(
                            s.drop_first(),
                            x,
                        )[j - 1];
                    assert(s[k + 1] == remove_first(s, x)[j]);
                }
            }
        }
    }
}

proof fn lemma_remove_first_keeps(s: Seq<String>, x: Seq<char>, y: Seq<char>)
    requires
        name_in(s, y),
        y != x,
    ensures
        name_in(remove_first(s, x), y),
    decreases s.len(),
{
    let i = choose|i: int| 0 <= i < s.len() && (#[trigger] s[i])@ == y;
    if s[0]@ == x {
        assert(i != 0);
        assert(s.drop_first()[i - 1]@ == y);
    } else {
        if i == 0 {
            assert(remove_first(s, x)[0]@ == y);
        } else {
            assert(s.drop_first()[i - 1]@ == y);
            lemma_remove_first_keeps(s.drop_first(), x, y);
            let k = choose|k: int|
                0 <= k < remove_first(s.drop_first(), x).len() && (#[trigger] remove_first(
                    s.drop_first(),
                    x,
                )[k])@ == y;
            assert(remove_first(s, x)[k + 1]@ == y);
        }
    }
}

/// One random lowercase letter.
fn random_letter(g: &mut quickcheck::Gen) -> (r: &'static str)
    ensures
        r@.len() == 1,
        is_lowercase_letter(r@[0]),
{
    let ix = rand_u8(g) % 26;
    if ix == 0 {
        proof {
            reveal_strlit("a");
        }
        "a"
    } else if ix == 1 {
        proof {
            reveal_strlit("b");
        }
        "b"
    } else if ix == 2 {
        proof {
            reveal_strlit("c");
        }
        "c"
    } else if ix == 3 {
        proof {
            reveal_strlit("d");
        }
        "d"
    } else if ix == 4 {
        proof {
            reveal_strlit("e");
        }
        "e"
    } else if ix == 5 {
        proof {
            reveal_strlit("f");
        }
        "f"
    } else if ix == 6 {
        proof {
            reveal_strlit("g");
        }
        "g"
    } else if ix == 7 {
        proof {
            reveal_strlit("h");
        }
        "h"
    } else if ix == 8 {
        proof {
            reveal_strlit("i");
        }
        "i"
    } else if ix == 9 {
        proof {
            reveal_strlit("j");
        }
        "j"
    } else if ix == 10 {
        proof {
            reveal_strlit("k");
        }
        "k"
    } else if ix == 11 {
        proof {
            reveal_strlit("l");
        }
        "l"
    } else if ix == 12 {
        proof {
            reveal_strlit("m");
        }
        "m"
    } else if ix == 13 {
        proof {
            reveal_strlit("n");
        }
        "n"
    } else if ix == 14 {
        proof {
            reveal_strlit("o");
        }
        "o"
    } else if ix == 15 {
        proof {
            reveal_strlit("p");
        }
        "p"
    } else if ix == 16 {
        proof {
            reveal_strlit("q");
        }
        "q"
    } else if ix == 17 {
        proof {
            reveal_strlit("r");
        }
        "r"
    } else if ix == 18 {
        proof {
            reveal_strlit("s");
        }
        "s"
    } else if ix == 19 {
        proof {
            reveal_strlit("t");
        }
        "t"
    } else if ix == 20 {
        proof {
            reveal_strlit("u");
        }
        "u"
    } else if ix == 21 {
        proof {
            reveal_strlit("v");
        }
        "v"
    } else if ix == 22 {
        proof {
            reveal_strlit("w");
        }
        "w"
    } else if ix == 23 {
        proof {
            reveal_strlit("x");
        }
        "x"
    } else if ix == 24 {
        proof {
            reveal_strlit("y");
        }
        "y"
    } else {
        proof {
            reveal_strlit("z");
        }
        "z"
    }
}

/// The fault-injection roll: with `rand` set, a small chance of breaking a
/// scoping or kind rule on purpose; with it clear, never.
fn random(g: &mut quickcheck::Gen, rand: bool) -> (r: bool)
    ensures
        !rand ==> r == false,
{
    // The modulus target is 2: the extremes 0 and 1 come up more often than
    // an interior value would.
    rand && rand_u16(g) % 512 == 2
}

/// The length of the longest name in a scope set.
spec fn max_name_len(s: Seq<String>) -> nat
    decreases s.len(),
{
    if s.len() == 0 {
        0
    } else {
        let rest = max_name_len(s.drop_last());
        if s.last()@.len() > rest {
            s.last()@.len()
        } else {
            rest
        }
    }
}

proof fn lemma_max_name_len(s: Seq<String>, i: int)
    requires
        0 <= i < s.len(),
    ensures
        s[i]@.len() <= max_name_len(s),
    decreases s.len(),
{
    if i < s.len() - 1 {
        assert(s.drop_last()[i] == s[i]);
        lemma_max_name_len(s.drop_last(), i);
    }
}

/// How far a candidate name still is from being longer than every name in
/// scope, and so certainly fresh.
spec fn fresh_deficit(store: Seq<String>, heap: Seq<String>, s: Seq<char>) -> nat {
    if s.len() > max_name_len(store) + max_name_len(heap) {
        0
    } else {
        (max_name_len(store) + max_name_len(heap) + 1 - s.len()) as nat
    }
}

/// A fresh identifier: a random lowercase-letter string that avoids the
/// names in scope, except when a fault roll reuses an existing name.  With
/// fault injection off the result is a nonempty lowercase-letter string
/// distinct from every name in either scope set, appended to the proper
/// one; the other set is untouched.
#[verifier::loop_isolation(false)]
fn arbitrary_ident(
    g: &mut quickcheck::Gen,
    is_store: bool,
    store: &mut Vec<String>,
    heap: &mut Vec<String>,
    rand: bool,
    depth: u64,
) -> (r: String)
    ensures
        !rand ==> is_lower_ident(r@),
        !rand ==> (forall|i: int| 0 <= i < old(store)@.len() ==> (#[trigger] old(store)@[i])@
            != r@) && (forall|i: int|
            0 <= i < old(heap)@.len() ==> (#[trigger] old(heap)@[i])@ != r@),
        !rand && is_store ==> final(store)@ == old(store)@.push(r) && final(heap)@ == old(heap)@,
        !rand && !is_store ==> final(heap)@ == old(heap)@.push(r) && final(store)@ == old(
            store,
        )@,
    decreases depth, 0nat,
{
    // Occasionally hand back a random existing reference instead.
    if depth > 0 && random(g, rand) {
        match random_heap(g, store, heap, rand, depth - 1) {
            Some(s) => {
                return s;
            },
            None => {
                return arbitrary_ident(g, is_store, store, heap, rand, depth - 1);
            },
        }
    }
    if depth > 0 && random(g, rand) {
        match random_heap(g, store, heap, rand, depth - 1) {
            Some(s) => {
                return s;
            },
            None => {
                return arbitrary_ident(g, is_store, store, heap, rand, depth - 1);
            },
        }
    }
    let mut s = String::new();
    let mut i: u8 = rand_u8(g) % 20 + 20;
    let ghost n0 = i;
    while i > 0
        invariant
            s@.len() + i == n0,
            forall|j: int| 0 <= j < s@.len() ==> is_lowercase_letter(#[trigger] s@[j]),
        decreases i,
    {
        let letter = random_letter(g);
        s.append(letter);
        i = i - 1;
    }
    if set_contains(store, s.as_str()) || set_contains(heap, s.as_str()) {
        if depth > 0 {
            return arbitrary_ident(g, is_store, store, heap, rand, depth - 1);
        }
        // The regeneration budget is spent: extend the name letter by
        // letter instead.  Once it is longer than every name in scope it
        // cannot collide, so this provably stops.
        while set_contains(store, s.as_str()) || set_contains(heap, s.as_str())
            invariant
                s@.len() > 0,
                forall|j: int| 0 <= j < s@.len() ==> is_lowercase_letter(#[trigger] s@[j]),
            decreases fresh_deficit(store@, heap@, s@),
        {
            proof {
                if exists|k: int| 0 <= k < store@.len() && (#[trigger] store@[k])@ == s@ {
                    let k = choose|k: int| 0 <= k < store@.len() && (#[trigger] store@[k])@ == s@;
                    lemma_max_name_len(store@, k);
                } else {
                    let k = choose|k: int| 0 <= k < heap@.len() && (#[trigger] heap@[k])@ == s@;
                    lemma_max_name_len(heap@, k);
                }
            }
            let letter = random_letter(g);
            s.append(letter);
        }
    }
    if is_store && !random(g, rand) {
        store.push(s.clone());
    } else if !random(g, rand) {
        heap.push(s.clone());
    }
    s
}

/// A name to read from the store: usually one that is in scope, rarely a
/// fresh fault-injected one.  With fault injection off the sets are
/// untouched and the result is a member of the store set, absent only when
/// that set is empty.
fn random_store(
    g: &mut quickcheck::Gen,
    store: &mut Vec<String>,
    heap: &mut Vec<String>,
    rand: bool,
    depth: u64,
) -> (r: Option<String>)
    ensures
        r is None ==> final(store)@ == old(store)@ && final(heap)@ == old(heap)@,
        !rand ==> final(store)@ == old(store)@ && final(heap)@ == old(heap)@ && (match r {
            None => old(store)@.len() == 0,
            Some(name) => exists|i: int|
                0 <= i < old(store)@.len() && (#[trigger] old(store)@[i])@ == name@,
        }),
    decreases depth, 1nat,
{
    if depth > 0 && random(g, rand) {
        Some(arbitrary_ident(g, true, store, heap, rand, depth))
    } else {
        choose_name(g, store)
    }
}

/// A name to read through the heap: usually one that is in scope, rarely a
/// store name or a fresh fault-injected one.  With fault injection off the
/// sets are untouched and the result is a member of the heap set, absent
/// only when that set is empty.
fn random_heap(
    g: &mut quickcheck::Gen,
    store: &mut Vec<String>,
    heap: &mut Vec<String>,
    rand: bool,
    depth: u64,
) -> (r: Option<String>)
    ensures
        r is None ==> final(store)@ == old(store)@ && final(heap)@ == old(heap)@,
        !rand ==> final(store)@ == old(store)@ && final(heap)@ == old(heap)@ && (match r {
            None => old(heap)@.len() == 0,
            Some(name) => exists|i: int|
                0 <= i < old(heap)@.len() && (#[trigger] old(heap)@[i])@ == name@,
        }),
    decreases depth, 2nat,
{
    if depth > 0 && random(g, rand) {
        Some(arbitrary_ident(g, true, store, heap, rand, depth))
    } else if depth > 0 && random(g, rand) {
        random_store(g, store, heap, rand, depth)
    } else {
        choose_name(g, heap)
    }
}

impl Constant {
    /// A small random number constant.
    fn arbitrary_int(g: &mut quickcheck::Gen) -> (r: Constant)
        ensures
            r is Nat,
    {
        Constant::Nat(rand_i8(g) as i64)
    }

    /// A random boolean constant.
    fn arbitrary_bool(g: &mut quickcheck::Gen) -> (r: Constant)
        ensures
            r is Bool,
    {
        Constant::Bool(rand_bool(g))
    }
}

impl Expr {
    /// A random number-valued expression over the names in scope; a fault
    /// roll may yield a boolean-valued one instead.  With fault injection
    /// off the sets are untouched and the result type-checks as `Number`
    /// in every environment that agrees with them: every generated read
    /// resolves.
    fn arbitrary_nat(
        g: &mut quickcheck::Gen,
        store: &mut Vec<String>,
        heap: &mut Vec<String>,
        rand: bool,
        depth: u64,
    ) -> (r: Expr)
        ensures
            !rand ==> final(store)@ == old(store)@ && final(heap)@ == old(heap)@,
            !rand ==> (forall|sigma: Map<Seq<char>, Type>|
                sets_typed(sigma, old(store)@, old(heap)@) ==> #[trigger] typecheck_expr_spec(
                    sigma,
                    r,
                ) == Ok::<Type, TypeError>(Type::Number)),
        decreases depth, 0nat,
    {
        if depth == 0 {
            return Expr::Constant(Constant::arbitrary_int(g));
        }
        if random(g, rand) {
            return Expr::arbitrary_bool(g, store, heap, rand, depth - 1);
        }
        let constant = Expr::Constant(Constant::arbitrary_int(g));
        let roll = rand_u8(g) % 4;
        if roll == 0 {
            match random_store(g, store, heap, rand, depth - 1) {
                Some(x) => {
                    let result = Expr::StoreRead(x);
                    proof {
                        if !rand {
                            assert forall|sigma: Map<Seq<char>, Type>|
                                sets_typed(sigma, store@, heap@) implies #[trigger]
                            typecheck_expr_spec(sigma, result) == Ok::<Type, TypeError>(
                                Type::Number,
                            ) by {
                                let i = choose|i: int|
                                    0 <= i < store@.len() && (#[trigger] store@[i])@
                                        == result->StoreRead_0@;
                                assert(sigma.contains_key((store@[i])@));
                            }
                        }
                    }
                    result
                },
                None => constant,
            }
        } else if roll == 1 {
            match random_heap(g, store, heap, rand, depth - 1) {
                Some(x) => {
                    let result = Expr::HeapRead(x);
                    proof {
                        if !rand {
                            assert forall|sigma: Map<Seq<char>, Type>|
                                sets_typed(sigma, store@, heap@) implies #[trigger]
                            typecheck_expr_spec(sigma, result) == Ok::<Type, TypeError>(
                                Type::Number,
                            ) by {
                                let i = choose|i: int|
                                    0 <= i < heap@.len() && (#[trigger] heap@[i])@
                                        == result->HeapRead_0@;
                                assert(sigma.contains_key((heap@[i])@));
                            }
                        }
                    }
                    result
                },
                None => constant,
            }
        } else if roll == 2 {
            constant
        } else {
            let a = Expr::arbitrary_nat(g, store, heap, rand, depth - 1);
            let b = Expr::arbitrary_nat(g, store, heap, rand, depth - 1);
            let ghost ga = a;
            let ghost gb = b;
            let result = Expr::NatAdd(Box::new(a), Box::new(b));
            proof {
                if !rand {
                    assert forall|sigma: Map<Seq<char>, Type>|
                        sets_typed(sigma, store@, heap@) implies #[trigger] typecheck_expr_spec(
                        sigma,
                        result,
                    ) == Ok::<Type, TypeError>(Type::Number) by {
                        assert(typecheck_expr_spec(sigma, ga) == Ok::<Type, TypeError>(
                            Type::Number,
                        ));
                        assert(typecheck_expr_spec(sigma, gb) == Ok::<Type, TypeError>(
                            Type::Number,
                        ));
                    }
                }
            }
            result
        }
    }

    /// A random boolean-valued expression over the names in scope; a fault
    /// roll may yield a number-valued one instead.  With fault injection
    /// off the sets are untouched and the result type-checks as `Boolean`
    /// in every environment that agrees with them: every generated read
    /// resolves.
    fn arbitrary_bool(
        g: &mut quickcheck::Gen,
        store: &mut Vec<String>,
        heap: &mut Vec<String>,
        rand: bool,
        depth: u64,
    ) -> (r: Expr)
        ensures
            !rand ==> final(store)@ == old(store)@ && final(heap)@ == old(heap)@,
            !rand ==> (forall|sigma: Map<Seq<char>, Type>|
                sets_typed(sigma, old(store)@, old(heap)@) ==> #[trigger] typecheck_expr_spec(
                    sigma,
                    r,
                ) == Ok::<Type, TypeError>(Type::Boolean)),
        decreases depth, 1nat,
    {
        if depth == 0 {
            return Expr::Constant(Constant::arbitrary_bool(g));
        }
        if random(g, rand) {
            return Expr::arbitrary_nat(g, store, heap, rand, depth - 1);
        }
        let roll = rand_u8(g) % 4;
        if roll == 0 {
            let a = Expr::arbitrary_nat(g, store, heap, rand, depth - 1);
            let b = Expr::arbitrary_nat(g, store, heap, rand, depth - 1);
            let ghost ga = a;
            let ghost gb = b;
            let result = Expr::NatLeq(Box::new(a), Box::new(b));
            proof {
                if !rand {
                    assert forall|sigma: Map<Seq<char>, Type>|
                        sets_typed(sigma, store@, heap@) implies #[trigger] typecheck_expr_spec(
                        sigma,
                        result,
                    ) == Ok::<Type, TypeError>(Type::Boolean) by {
                        assert(typecheck_expr_spec(sigma, ga) == Ok::<Type, TypeError>(
                            Type::Number,
                        ));
                        assert(typecheck_expr_spec(sigma, gb) == Ok::<Type, TypeError>(
                            Type::Number,
                        ));
                    }
                }
            }
            result
        } else if roll == 1 {
            let a = Expr::arbitrary_bool(g, store, heap, rand, depth - 1);
            let b = Expr::arbitrary_bool(g, store, heap, rand, depth - 1);
            let ghost ga = a;
            let ghost gb = b;
            let result = Expr::BoolAnd(Box::new(a), Box::new(b));
            proof {
                if !rand {
                    assert forall|sigma: Map<Seq<char>, Type>|
                        sets_typed(sigma, store@, heap@) implies #[trigger] typecheck_expr_spec(
                        sigma,
                        result,
                    ) == Ok::<Type, TypeError>(Type::Boolean) by {
                        assert(typecheck_expr_spec(sigma, ga) == Ok::<Type, TypeError>(
                            Type::Boolean,
                        ));
                        assert(typecheck_expr_spec(sigma, gb) == Ok::<Type, TypeError>(
                            Type::Boolean,
                        ));
                    }
                }
            }
            result
        } else if roll == 2 {
            let a = Expr::arbitrary_bool(g, store, heap, rand, depth - 1);
            let ghost ga = a;
            let result = Expr::BoolNot(Box::new(a));
            proof {
                if !rand {
                    assert forall|sigma: Map<Seq<char>, Type>|
                        sets_typed(sigma, store@, heap@) implies #[trigger] typecheck_expr_spec(
                        sigma,
                        result,
                    ) == Ok::<Type, TypeError>(Type::Boolean) by {
                        assert(typecheck_expr_spec(sigma, ga) == Ok::<Type, TypeError>(
                            Type::Boolean,
                        ));
                    }
                }
            }
            result
        } else {
            Expr::Constant(Constant::arbitrary_bool(g))
        }
    }

    /// The right-hand side of an assignment to `s`: the name is taken out
    /// of scope while the expression is generated, so the new binding does
    /// not read itself, and put back afterwards.  With fault injection off
    /// the heap set is untouched, `s` ends the store set, and the result
    /// type-checks as `Number` in every environment that agrees with the
    /// final sets.
    fn arbitrary_store(
        g: &mut quickcheck::Gen,
        s: &String,
        store: &mut Vec<String>,
        heap: &mut Vec<String>,
        rand: bool,
        depth: u64,
    ) -> (r: Expr)
        ensures
            !rand ==> final(heap)@ == old(heap)@,
            !rand ==> final(store)@ == remove_first(old(store)@, s@).push(*s),
            !rand ==> (forall|sigma: Map<Seq<char>, Type>|
                sets_typed(sigma, remove_first(old(store)@, s@), old(heap)@)
                    ==> #[trigger] typecheck_expr_spec(sigma, r) == Ok::<Type, TypeError>(
                    Type::Number,
                )),
        decreases depth, 2nat,
    {
        if depth > 0 && random(g, rand) {
            return Expr::arbitrary_heap(g, s, store, heap, rand, depth - 1);
        }
        set_remove(store, s.as_str());
        let res = Expr::arbitrary_nat(g, store, heap, rand, depth);
        store.push(s.clone());
        res
    }

    /// The right-hand side of a heap allocation or update bound to `s`,
    /// generated with `s` out of scope.  With fault injection off the
    /// store set is untouched, `s` ends the heap set, and the result
    /// type-checks as `Number` in every environment that agrees with the
    /// final sets.
    fn arbitrary_heap(
        g: &mut quickcheck::Gen,
        s: &String,
        store: &mut Vec<String>,
        heap: &mut Vec<String>,
        rand: bool,
        depth: u64,
    ) -> (r: Expr)
        ensures
            !rand ==> final(store)@ == old(store)@,
            !rand ==> final(heap)@ == remove_first(old(heap)@, s@).push(*s),
            !rand ==> (forall|sigma: Map<Seq<char>, Type>|
                sets_typed(sigma, old(store)@, remove_first(old(heap)@, s@))
                    ==> #[trigger] typecheck_expr_spec(sigma, r) == Ok::<Type, TypeError>(
                    Type::Number,
                )),
        decreases depth, 3nat,
    {
        if depth > 0 && random(g, rand) {
            return Expr::arbitrary_heap(g, s, store, heap, rand, depth - 1);
        }
        set_remove(heap, s.as_str());
        let res = Expr::arbitrary_nat(g, store, heap, rand, depth);
        heap.push(s.clone());
        res
    }
}

impl Statement {
    /// One random statement, drawn from a weighted choice over the
    /// statement kinds.  `rand` enables fault injection; `loops` enables
    /// `While` statements.  A branching statement is generated against a
    /// snapshot of the scope sets which is restored afterwards, mirroring
    /// the type checker's branch isolation.  Without fault injection every
    /// primitive statement is well-scoped at its program point: its reads
    /// resolve with the right kinds in any environment that matches the
    /// scope sets.  The same cannot be promised of the composite results:
    /// restoring a snapshot forgets the names a branch coined, so the two
    /// branches of one conditional, generated independently, may coin the
    /// same name — the merged type environment then keeps a binding that
    /// no scope set records, and a later statement may trip over it.  That
    /// astronomically rare collision is exactly what the baseline oracle
    /// watches for.
    fn generate_stmnts(
        g: &mut quickcheck::Gen,
        store: &mut Vec<String>,
        heap: &mut Vec<String>,
        rand: bool,
        loops: bool,
        depth: u64,
    ) -> (r: Statement)
        ensures
            stmt_size(r) >= 1,
            r is Conditional || r is While ==> final(store)@ == old(store)@ && final(heap)@
                == old(heap)@,
            !rand && !(r is Sequence || r is Conditional || r is While) ==> well_scoped_step(
                r,
                old(store)@,
                old(heap)@,
                final(store)@,
                final(heap)@,
            ),
        decreases depth,
    {
        let ghost s0 = store@;
        let ghost h0 = heap@;
        let result = if depth == 0 {
            Statement::Skip
        } else {
            let roll = rand_u8(g) % 105 + 1;
            if roll <= 15 {
                let id = arbitrary_ident(g, true, store, heap, rand, depth - 1);
                let ghost gid = id;
                let expr = Expr::arbitrary_store(g, &id, store, heap, rand, depth - 1);
                let ghost gexpr = expr;
                let stmt = Statement::StoreAssign(id, expr);
                proof {
                    if !rand {
                        lemma_remove_first_push_fresh(s0, gid);
                        assert(store@ == s0.push(gid));
                        assert forall|sigma: Map<Seq<char>, Type>|
                            sets_exact(sigma, s0, h0) implies (#[trigger] typecheck_stmt_spec(
                            sigma,
                            stmt,
                        )).0 is Ok && sets_exact(typecheck_stmt_spec(sigma, stmt).1, store@, heap@) by {
                            assert(typecheck_expr_spec(sigma, gexpr) == Ok::<Type, TypeError>(
                                Type::Number,
                            ));
                            assert(!sigma.contains_key(gid@));
                            let sigma2 = sigma.insert(gid@, Type::Number);
                            assert(typecheck_stmt_spec(sigma, stmt) == (
                                Ok::<(), TypeError>(()),
                                sigma2,
                            ));
                            assert forall|i: int|
                                0 <= i < store@.len() implies sigma2.contains_key(
                                (#[trigger] store@[i])@,
                            ) && sigma2[store@[i]@] == Type::Number by {
                                if i < s0.len() {
                                    assert(store@[i] == s0[i]);
                                    assert(s0[i]@ != gid@);
                                }
                            }
                            assert forall|i: int|
                                0 <= i < heap@.len() implies sigma2.contains_key(
                                (#[trigger] heap@[i])@,
                            ) && sigma2[heap@[i]@] == Type::Location by {
                                assert(h0[i]@ != gid@);
                            }
                            assert forall|x: Seq<char>| #[trigger]
                                sigma2.contains_key(x) implies name_in(store@, x) || name_in(
                                heap@,
                                x,
                            ) by {
                                if x == gid@ {
                                    assert(store@[s0.len() as int]@ == x);
                                } else {
                                    assert(sigma.contains_key(x));
                                    if name_in(s0, x) {
                                        let k = choose|k: int|
                                            0 <= k < s0.len() && (#[trigger] s0[k])@ == x;
                                        assert(store@[k]@ == x);
                                    }
                                }
                            }
                            assert(sets_exact(sigma2, store@, heap@));
                        }
                        assert(well_scoped_step(stmt, s0, h0, store@, heap@));
                    }
                }
                stmt
            } else if roll <= 30 {
                let id = arbitrary_ident(g, false, store, heap, rand, depth - 1);
                let ghost gid = id;
                let expr = Expr::arbitrary_heap(g, &id, store, heap, rand, depth - 1);
                let ghost gexpr = expr;
                let stmt = Statement::HeapNew(id, expr);
                proof {
                    if !rand {
                        lemma_remove_first_push_fresh(h0, gid);
                        assert(heap@ == h0.push(gid));
                        assert forall|sigma: Map<Seq<char>, Type>|
                            sets_exact(sigma, s0, h0) implies (#[trigger] typecheck_stmt_spec(
                            sigma,
                            stmt,
                        )).0 is Ok && sets_exact(typecheck_stmt_spec(sigma, stmt).1, store@, heap@) by {
                            assert(typecheck_expr_spec(sigma, gexpr) == Ok::<Type, TypeError>(
                                Type::Number,
                            ));
                            assert(!sigma.contains_key(gid@));
                            let sigma2 = sigma.insert(gid@, Type::Location);
                            assert(typecheck_stmt_spec(sigma, stmt) == (
                                Ok::<(), TypeError>(()),
                                sigma2,
                            ));
                            assert forall|i: int|
                                0 <= i < heap@.len() implies sigma2.contains_key(
                                (#[trigger] heap@[i])@,
                            ) && sigma2[heap@[i]@] == Type::Location by {
                                if i < h0.len() {
                                    assert(heap@[i] == h0[i]);
                                    assert(h0[i]@ != gid@);
                                }
                            }
                            assert forall|i: int|
                                0 <= i < store@.len() implies sigma2.contains_key(
                                (#[trigger] store@[i])@,
                            ) && sigma2[store@[i]@] == Type::Number by {
                                assert(s0[i]@ != gid@);
                            }
                            assert forall|x: Seq<char>| #[trigger]
                                sigma2.contains_key(x) implies name_in(store@, x) || name_in(
                                heap@,
                                x,
                            ) by {
                                if x == gid@ {
                                    assert(heap@[h0.len() as int]@ == x);
                                } else {
                                    assert(sigma.contains_key(x));
                                    if name_in(h0, x) {
                                        let k = choose|k: int|
                                            0 <= k < h0.len() && (#[trigger] h0[k])@ == x;
                                        assert(heap@[k]@ == x);
                                    }
                                }
                            }
                            assert(sets_exact(sigma2, store@, heap@));
                        }
                        assert(well_scoped_step(stmt, s0, h0, store@, heap@));
                    }
                }
                stmt
            } else if roll <= 35 {
                match random_heap(g, store, heap, rand, depth - 1) {
                    Some(tgt) => {
                        let ghost gtgt = tgt;
                        let expr = Expr::arbitrary_heap(g, &tgt, store, heap, rand, depth - 1);
                        let ghost gexpr = expr;
                        let stmt = Statement::HeapUpdate(tgt, expr);
                        proof {
                            if !rand {
                                let rf = remove_first(h0, gtgt@);
                                lemma_remove_first_elements(h0, gtgt@);
                                assert(heap@ == rf.push(gtgt));
                                assert forall|sigma: Map<Seq<char>, Type>|
                                    sets_exact(sigma, s0, h0) implies (
                                #[trigger] typecheck_stmt_spec(sigma, stmt)).0 is Ok && sets_exact(
                                    typecheck_stmt_spec(sigma, stmt).1,
                                    store@,
                                    heap@,
                                ) by {
                                    assert forall|j: int|
                                        0 <= j < rf.len() implies sigma.contains_key(
                                        (#[trigger] rf[j])@,
                                    ) && sigma[rf[j]@] == Type::Location by {
                                        let k = choose|k: int|
                                            0 <= k < h0.len() && h0[k] == rf[j];
                                        assert(sigma.contains_key(h0[k]@));
                                    }
                                    assert(sets_typed(sigma, s0, rf));
                                    assert(typecheck_expr_spec(sigma, gexpr) == Ok::<
                                        Type,
                                        TypeError,
                                    >(Type::Number));
                                    let k0 = choose|k: int|
                                        0 <= k < h0.len() && (#[trigger] h0[k])@ == gtgt@;
                                    assert(sigma.contains_key(gtgt@) && sigma[gtgt@]
                                        == Type::Location);
                                    assert(typecheck_stmt_spec(sigma, stmt) == (
                                        Ok::<(), TypeError>(()),
                                        sigma,
                                    ));
                                    assert forall|i: int|
                                        0 <= i < heap@.len() implies sigma.contains_key(
                                        (#[trigger] heap@[i])@,
                                    ) && sigma[heap@[i]@] == Type::Location by {
                                        if i < rf.len() {
                                            assert(heap@[i] == rf[i]);
                                        } else {
                                            assert(heap@[i] == gtgt);
                                        }
                                    }
                                    assert forall|x: Seq<char>| #[trigger]
                                        sigma.contains_key(x) implies name_in(store@, x)
                                        || name_in(heap@, x) by {
                                        if name_in(h0, x) {
                                            if x == gtgt@ {
                                                assert(heap@[rf.len() as int]@ == x);
                                            } else {
                                                lemma_remove_first_keeps(h0, gtgt@, x);
                                                let k = choose|k: int|
                                                    0 <= k < rf.len() && (#[trigger] rf[k])@
                                                        == x;
                                                assert(heap@[k]@ == x);
                                            }
                                        }
                                    }
                                    assert(sets_exact(sigma, store@, heap@));
                                }
                                assert(well_scoped_step(stmt, s0, h0, store@, heap@));
                            }
                        }
                        stmt
                    },
                    None => Statement::generate_stmnts(g, store, heap, rand, loops, depth - 1),
                }
            } else if roll <= 45 {
                match random_heap(g, store, heap, rand, depth - 1) {
                    Some(tgt) => {
                        let ghost gtgt = tgt;
                        let alias = arbitrary_ident(g, false, store, heap, rand, depth - 1);
                        let ghost galias = alias;
                        let stmt = Statement::HeapAlias(alias, tgt);
                        proof {
                            if !rand {
                                assert(heap@ == h0.push(galias));
                                assert forall|sigma: Map<Seq<char>, Type>|
                                    sets_exact(sigma, s0, h0) implies (
                                #[trigger] typecheck_stmt_spec(sigma, stmt)).0 is Ok && sets_exact(
                                    typecheck_stmt_spec(sigma, stmt).1,
                                    store@,
                                    heap@,
                                ) by {
                                    let k0 = choose|k: int|
                                        0 <= k < h0.len() && (#[trigger] h0[k])@ == gtgt@;
                                    assert(sigma.contains_key(gtgt@) && sigma[gtgt@]
                                        == Type::Location);
                                    assert(!sigma.contains_key(galias@));
                                    let sigma2 = sigma.insert(galias@, Type::Location);
                                    assert(typecheck_stmt_spec(sigma, stmt) == (
                                        Ok::<(), TypeError>(()),
                                        sigma2,
                                    ));
                                    assert forall|i: int|
                                        0 <= i < heap@.len() implies sigma2.contains_key(
                                        (#[trigger] heap@[i])@,
                                    ) && sigma2[heap@[i]@] == Type::Location by {
                                        if i < h0.len() {
                                            assert(heap@[i] == h0[i]);
                                            assert(h0[i]@ != galias@);
                                        }
                                    }
                                    assert forall|i: int|
                                        0 <= i < store@.len() implies sigma2.contains_key(
                                        (#[trigger] store@[i])@,
                                    ) && sigma2[store@[i]@] == Type::Number by {
                                        assert(s0[i]@ != galias@);
                                    }
                                    assert forall|x: Seq<char>| #[trigger]
                                        sigma2.contains_key(x) implies name_in(store@, x)
                                        || name_in(heap@, x) by {
                                        if x == galias@ {
                                            assert(heap@[h0.len() as int]@ == x);
                                        } else {
                                            assert(sigma.contains_key(x));
                                            if name_in(h0, x) {
                                                let k = choose|k: int|
                                                    0 <= k < h0.len() && (#[trigger] h0[k])@
                                                        == x;
                                                assert(heap@[k]@ == x);
                                            }
                                        }
                                    }
                                    assert(sets_exact(sigma2, store@, heap@));
                                }
                                assert(well_scoped_step(stmt, s0, h0, store@, heap@));
                            }
                        }
                        stmt
                    },
                    None => Statement::generate_stmnts(g, store, heap, rand, loops, depth - 1),
                }
            } else if roll <= 65 {
                Statement::Sequence(
                    Box::new(Statement::generate_stmnts(g, store, heap, rand, loops, depth - 1)),
                    Box::new(Statement::generate_stmnts(g, store, heap, rand, loops, depth - 1)),
                )
            } else if roll <= 90 {
                // Each branch sees the scope as it was at the guard, and
                // neither branch's bindings survive: the evaluator applies
                // only one branch, and the type checker drops what the
                // branches disagree on.
                let sets = clone_sets(store, heap);
                let cond = Expr::arbitrary_bool(g, store, heap, rand, depth - 1);
                let then_e = Statement::generate_stmnts(g, store, heap, rand, loops, depth - 1);
                restore_sets(store, heap, &sets);
                let else_e = Statement::generate_stmnts(g, store, heap, rand, loops, depth - 1);
                restore_sets(store, heap, &sets);
                Statement::Conditional(cond, Box::new(then_e), Box::new(else_e))
            } else if roll <= 100 {
                if loops {
                    // The body is generated with loops disabled: a guard
                    // that never turns false already costs the full
                    // iteration cap, and nested loops would multiply that.
                    let sets = clone_sets(store, heap);
                    let cond = Expr::arbitrary_bool(g, store, heap, rand, depth - 1);
                    let do_e = Statement::generate_stmnts(g, store, heap, rand, false, depth - 1);
                    restore_sets(store, heap, &sets);
                    Statement::While(cond, Box::new(do_e))
                } else {
                    Statement::Skip
                }
            } else {
                Statement::Skip
            }
        };
        proof {
            lemma_stmt_size_pos(result);
        }
        result
    }

    /// A random program of at least `target` primitive statements: freshly
    /// generated statements are sequenced until the size is reached.
    pub fn arbitrary_sized(
        g: &mut quickcheck::Gen,
        store: &mut Vec<String>,
        heap: &mut Vec<String>,
        rand: bool,
        loops: bool,
        target: usize,
    ) -> (r: Statement)
        ensures
            stmt_size(r) >= target,
    {
        let mut stmnt = Statement::generate_stmnts(g, store, heap, rand, loops, GEN_DEPTH);
        while stmnt.size() < target
            decreases size_deficit(target, stmnt),
        {
            let ghost pre = stmt_size_clamped(stmnt);
            let next = Statement::generate_stmnts(g, store, heap, rand, loops, GEN_DEPTH);
            proof {
                lemma_stmt_size_pos(stmnt);
                lemma_stmt_size_pos(next);
            }
            stmnt = Statement::Sequence(Box::new(stmnt), Box::new(next));
            proof {
                // The size grew by at least one statement, so the clamped
                // size strictly grows until it reaches the target.
                assert(pre < target <= usize::MAX);
                assert(stmt_size_clamped(stmnt) > pre);
            }
        }
        proof {
            lemma_stmt_size_pos(stmnt);
        }
        stmnt
    }

    /// A random program, with fault injection enabled, of at least the size
    /// the generator is configured for.
    pub fn arbitrary(g: &mut quickcheck::Gen) -> (r: Statement)
        ensures
            stmt_size(r) >= 1,
    {
        let target = gen_size(g);
        let mut store: Vec<String> = Vec::new();
        let mut heap: Vec<String> = Vec::new();
        let r = Statement::arbitrary_sized(g, &mut store, &mut heap, true, true, target);
        proof {
            lemma_stmt_size_pos(r);
        }
        r
    }
}

/// The measure by which constants shrink: magnitude, with negative
/// numbers above their negation and `true` above `false`.  Every shrink
/// candidate of a constant has a strictly smaller measure.
pub open spec fn const_measure(c: Constant) -> nat {
    match c {
        Constant::Nat(n) => if n >= 0 {
            (2 * (n as int)) as nat
        } else {
            (2 * -(n as int) + 1) as nat
        },
        Constant::Bool(b) => if b {
            1
        } else {
            0
        },
    }
}

/// The measure by which expressions shrink: node count weighted by the
/// constants' own measure.
pub open spec fn expr_measure(e: Expr) -> nat
    decreases e,
{
    match e {
        Expr::Constant(c) => 1 + const_measure(c),
        Expr::NatAdd(a, b) | Expr::NatLeq(a, b) | Expr::BoolAnd(a, b) => 1 + expr_measure(*a)
            + expr_measure(*b),
        Expr::BoolNot(a) => 1 + expr_measure(*a),
        _ => 1,
    }
}

/// The measure by which statements shrink.
pub open spec fn stmt_measure(s: Statement) -> nat
    decreases s,
{
    match s {
        Statement::StoreAssign(_, e) => 1 + expr_measure(e),
        Statement::HeapNew(_, e) => 1 + expr_measure(e),
        Statement::HeapUpdate(_, e) => 1 + expr_measure(e),
        Statement::HeapAlias(_, _) => 1,
        Statement::Sequence(s1, s2) => 1 + stmt_measure(*s1) + stmt_measure(*s2),
        Statement::Conditional(e, s1, s2) => 1 + expr_measure(e) + stmt_measure(*s1)
            + stmt_measure(*s2),
        Statement::While(e, body) => 1 + expr_measure(e) + stmt_measure(*body),
        Statement::Skip => 1,
    }
}

/// What every expression shrink candidate satisfies: no more nodes than
/// the source, and a strictly smaller measure — so repeated shrinking
/// reaches a fixed point.
pub open spec fn expr_candidate(src: Expr, c: Expr) -> bool {
    expr_nodes(c) <= expr_nodes(src) && expr_measure(c) < expr_measure(src)
}

/// What every statement shrink candidate satisfies: no more nodes and no
/// more primitive statements than the source, and a strictly smaller
/// measure — so repeated shrinking reaches a fixed point.
pub open spec fn stmt_candidate(src: Statement, c: Statement) -> bool {
    stmt_nodes(c) <= stmt_nodes(src) && stmt_size(c) <= stmt_size(src) && stmt_measure(c)
        < stmt_measure(src)
}

impl Constant {
    /// Shrink candidates of a constant: numbers toward zero, `true` to
    /// `false`.  A candidate keeps the constant's kind and has a strictly
    /// smaller measure, so zero and `false` yield nothing and repeated
    /// shrinking terminates.
    #[verifier::loop_isolation(false)]
    pub fn shrink(&self) -> (r: Vec<Constant>)
        ensures
            forall|i: int| 0 <= i < r@.len() ==> ((#[trigger] r@[i]) is Nat <==> *self is Nat),
            forall|i: int|
                0 <= i < r@.len() ==> const_measure(#[trigger] r@[i]) < const_measure(*self),
            *self == Constant::Bool(true) ==> r@ == seq![Constant::Bool(false)],
            *self == Constant::Bool(false) ==> r@.len() == 0,
            *self == Constant::Nat(0) ==> r@.len() == 0,
    {
        match self {
            Constant::Nat(n) => {
                let vals = shrink_i64(*n);
                let mut out: Vec<Constant> = Vec::new();
                let mut i: usize = 0;
                while i < vals.len()
                    invariant
                        i <= vals@.len(),
                        out@.len() == i,
                        forall|j: int| 0 <= j < i ==> #[trigger] out@[j] == Constant::Nat(vals@[j]),
                    decreases vals@.len() - i,
                {
                    out.push(Constant::Nat(vals[i]));
                    i += 1;
                }
                out
            },
            Constant::Bool(b) => {
                let vals = shrink_bool(*b);
                let mut out: Vec<Constant> = Vec::new();
                let mut i: usize = 0;
                while i < vals.len()
                    invariant
                        i <= vals@.len(),
                        out@.len() == i,
                        forall|j: int| 0 <= j < i ==> #[trigger] out@[j] == Constant::Bool(
                            vals@[j],
                        ),
                    decreases vals@.len() - i,
                {
                    out.push(Constant::Bool(vals[i]));
                    i += 1;
                }
                proof {
                    if *b {
                        assert(out@ =~= seq![Constant::Bool(false)]);
                    }
                }
                out
            },
        }
    }
}

impl Expr {
    /// Shrink candidates of an expression: children shrunk in place, and
    /// each composite replaced by its direct operands, which appear among
    /// the candidates.  Reads have no smaller meaningful replacement and
    /// yield none.  Every candidate has no more nodes and a strictly
    /// smaller measure than its source, so repeated shrinking reaches a
    /// fixed point.
    #[verifier::loop_isolation(false)]
    pub fn shrink(&self) -> (r: Vec<Expr>)
        ensures
            forall|i: int| 0 <= i < r@.len() ==> expr_candidate(*self, #[trigger] r@[i]),
            (match *self {
                Expr::StoreRead(_) => r@.len() == 0,
                Expr::HeapRead(_) => r@.len() == 0,
                Expr::Constant(_) => true,
                Expr::NatAdd(a, b) => r@.contains(*a) && r@.contains(*b),
                Expr::NatLeq(a, b) => r@.contains(*a) && r@.contains(*b),
                Expr::BoolAnd(a, b) => r@.contains(*a) && r@.contains(*b),
                Expr::BoolNot(a) => r@.contains(*a),
            }),
        decreases *self,
    {
        match self {
            Expr::StoreRead(_) => Vec::new(),
            Expr::HeapRead(_) => Vec::new(),
            Expr::Constant(c) => {
                let consts = c.shrink();
                let mut shrinks: Vec<Expr> = Vec::new();
                let mut i: usize = 0;
                while i < consts.len()
                    invariant
                        forall|j: int|
                            0 <= j < shrinks@.len() ==> expr_candidate(
                                *self,
                                #[trigger] shrinks@[j],
                            ),
                    decreases consts@.len() - i,
                {
                    shrinks.push(Expr::Constant(consts[i]));
                    i += 1;
                }
                shrinks
            },
            Expr::NatAdd(e1, e2) => {
                let mut shrinks: Vec<Expr> = Vec::new();
                let s1 = e1.shrink();
                let mut i: usize = 0;
                while i < s1.len()
                    invariant
                        forall|j: int|
                            0 <= j < shrinks@.len() ==> expr_candidate(
                                *self,
                                #[trigger] shrinks@[j],
                            ),
                    decreases s1@.len() - i,
                {
                    shrinks.push(Expr::NatAdd(Box::new(s1[i].deep_copy()), Box::new(e2.deep_copy())));
                    i += 1;
                }
                let s2 = e2.shrink();
                let mut k: usize = 0;
                while k < s2.len()
                    invariant
                        forall|j: int|
                            0 <= j < shrinks@.len() ==> expr_candidate(
                                *self,
                                #[trigger] shrinks@[j],
                            ),
                    decreases s2@.len() - k,
                {
                    shrinks.push(Expr::NatAdd(Box::new(e1.deep_copy()), Box::new(s2[k].deep_copy())));
                    k += 1;
                }
                shrinks.push(e1.deep_copy());
                shrinks.push(e2.deep_copy());
                proof {
                    assert(shrinks@[shrinks@.len() - 2] == **e1);
                    assert(shrinks@[shrinks@.len() - 1] == **e2);
                    assert(shrinks@.contains(**e1));
                    assert(shrinks@.contains(**e2));
                }
                shrinks
            },
            Expr::NatLeq(e1, e2) => {
                let mut shrinks: Vec<Expr> = Vec::new();
                let s1 = e1.shrink();
                let mut i: usize = 0;
                while i < s1.len()
                    invariant
                        forall|j: int|
                            0 <= j < shrinks@.len() ==> expr_candidate(
                                *self,
                                #[trigger] shrinks@[j],
                            ),
                    decreases s1@.len() - i,
                {
                    shrinks.push(Expr::NatLeq(Box::new(s1[i].deep_copy()), Box::new(e2.deep_copy())));
                    i += 1;
                }
                let s2 = e2.shrink();
                let mut k: usize = 0;
                while k < s2.len()
                    invariant
                        forall|j: int|
                            0 <= j < shrinks@.len() ==> expr_candidate(
                                *self,
                                #[trigger] shrinks@[j],
                            ),
                    decreases s2@.len() - k,
                {
                    shrinks.push(Expr::NatLeq(Box::new(e1.deep_copy()), Box::new(s2[k].deep_copy())));
                    k += 1;
                }
                shrinks.push(e1.deep_copy());
                shrinks.push(e2.deep_copy());
                proof {
                    assert(shrinks@[shrinks@.len() - 2] == **e1);
                    assert(shrinks@[shrinks@.len() - 1] == **e2);
                    assert(shrinks@.contains(**e1));
                    assert(shrinks@.contains(**e2));
                }
                shrinks
            },
            Expr::BoolAnd(e1, e2) => {
                let mut shrinks: Vec<Expr> = Vec::new();
                let s1 = e1.shrink();
                let mut i: usize = 0;
                while i < s1.len()
                    invariant
                        forall|j: int|
                            0 <= j < shrinks@.len() ==> expr_candidate(
                                *self,
                                #[trigger] shrinks@[j],
                            ),
                    decreases s1@.len() - i,
                {
                    shrinks.push(Expr::BoolAnd(Box::new(s1[i].deep_copy()), Box::new(e2.deep_copy())));
                    i += 1;
                }
                let s2 = e2.shrink();
                let mut k: usize = 0;
                while k < s2.len()
                    invariant
                        forall|j: int|
                            0 <= j < shrinks@.len() ==> expr_candidate(
                                *self,
                                #[trigger] shrinks@[j],
                            ),
                    decreases s2@.len() - k,
                {
                    shrinks.push(Expr::BoolAnd(Box::new(e1.deep_copy()), Box::new(s2[k].deep_copy())));
                    k += 1;
                }
                shrinks.push(e1.deep_copy());
                shrinks.push(e2.deep_copy());
                proof {
                    assert(shrinks@[shrinks@.len() - 2] == **e1);
                    assert(shrinks@[shrinks@.len() - 1] == **e2);
                    assert(shrinks@.contains(**e1));
                    assert(shrinks@.contains(**e2));
                }
                shrinks
            },
            Expr::BoolNot(e1) => {
                let mut shrinks: Vec<Expr> = Vec::new();
                let s1 = e1.shrink();
                let mut i: usize = 0;
                while i < s1.len()
                    invariant
                        forall|j: int|
                            0 <= j < shrinks@.len() ==> expr_candidate(
                                *self,
                                #[trigger] shrinks@[j],
                            ),
                    decreases s1@.len() - i,
                {
                    shrinks.push(Expr::BoolNot(Box::new(s1[i].deep_copy())));
                    i += 1;
                }
                shrinks.push(e1.deep_copy());
                proof {
                    assert(shrinks@[shrinks@.len() - 1] == **e1);
                    assert(shrinks@.contains(**e1));
                }
                shrinks
            },
        }
    }
}

impl Statement {
    /// Shrink candidates of a statement: right-hand sides shrunk in place
    /// under the same constructor and identifier, sub-statements shrunk
    /// and promoted — a sequence yields its first component, a conditional
    /// both branches, a loop its body.  Aliases and `Skip` have no smaller
    /// meaningful replacement and yield none.  Every candidate has no more
    /// nodes, no more primitive statements and a strictly smaller measure
    /// than its source, so repeated shrinking reaches a fixed point.  A
    /// candidate need not reproduce the failure of its source: the driving
    /// loop re-evaluates each one.
    #[verifier::loop_isolation(false)]
    pub fn shrink(&self) -> (r: Vec<Statement>)
        ensures
            forall|i: int| 0 <= i < r@.len() ==> stmt_candidate(*self, #[trigger] r@[i]),
            (match *self {
                Statement::StoreAssign(id, _) => forall|i: int|
                    0 <= i < r@.len() ==> ((#[trigger] r@[i]) matches Statement::StoreAssign(
                        id2,
                        _,
                    ) && id2 == id),
                Statement::HeapNew(id, _) => forall|i: int|
                    0 <= i < r@.len() ==> ((#[trigger] r@[i]) matches Statement::HeapNew(id2, _)
                        && id2 == id),
                Statement::HeapUpdate(id, _) => forall|i: int|
                    0 <= i < r@.len() ==> ((#[trigger] r@[i]) matches Statement::HeapUpdate(
                        id2,
                        _,
                    ) && id2 == id),
                Statement::HeapAlias(_, _) => r@.len() == 0,
                Statement::Sequence(s1, _) => r@.contains(*s1),
                Statement::Conditional(_, s1, s2) => r@.contains(*s1) && r@.contains(*s2),
                Statement::While(_, body) => r@.contains(*body),
                Statement::Skip => r@.len() == 0,
            }),
        decreases *self,
    {
        match self {
            Statement::StoreAssign(id, expr) => {
                let mut shrinks: Vec<Statement> = Vec::new();
                let es = expr.shrink();
                let mut i: usize = 0;
                while i < es.len()
                    invariant
                        forall|j: int|
                            0 <= j < shrinks@.len() ==> stmt_candidate(
                                *self,
                                #[trigger] shrinks@[j],
                            ) && (shrinks@[j] matches Statement::StoreAssign(id2, _) && id2
                                == *id),
                    decreases es@.len() - i,
                {
                    shrinks.push(Statement::StoreAssign(id.clone(), es[i].deep_copy()));
                    i += 1;
                }
                shrinks
            },
            Statement::HeapNew(id, expr) => {
                let mut shrinks: Vec<Statement> = Vec::new();
                let es = expr.shrink();
                let mut i: usize = 0;
                while i < es.len()
                    invariant
                        forall|j: int|
                            0 <= j < shrinks@.len() ==> stmt_candidate(
                                *self,
                                #[trigger] shrinks@[j],
                            ) && (shrinks@[j] matches Statement::HeapNew(id2, _) && id2 == *id),
                    decreases es@.len() - i,
                {
                    shrinks.push(Statement::HeapNew(id.clone(), es[i].deep_copy()));
                    i += 1;
                }
                shrinks
            },
            Statement::HeapUpdate(id, expr) => {
                let mut shrinks: Vec<Statement> = Vec::new();
                let es = expr.shrink();
                let mut i: usize = 0;
                while i < es.len()
                    invariant
                        forall|j: int|
                            0 <= j < shrinks@.len() ==> stmt_candidate(
                                *self,
                                #[trigger] shrinks@[j],
                            ) && (shrinks@[j] matches Statement::HeapUpdate(id2, _) && id2
                                == *id),
                    decreases es@.len() - i,
                {
                    shrinks.push(Statement::HeapUpdate(id.clone(), es[i].deep_copy()));
                    i += 1;
                }
                shrinks
            },
            Statement::HeapAlias(_, _) => Vec::new(),
            Statement::Sequence(e1, e2) => {
                let mut shrinks: Vec<Statement> = Vec::new();
                let s1 = e1.shrink();
                let mut i: usize = 0;
                while i < s1.len()
                    invariant
                        forall|j: int|
                            0 <= j < shrinks@.len() ==> stmt_candidate(
                                *self,
                                #[trigger] shrinks@[j],
                            ),
                    decreases s1@.len() - i,
                {
                    shrinks.push(s1[i].deep_copy());
                    i += 1;
                }
                let s2 = e2.shrink();
                let mut k: usize = 0;
                while k < s2.len()
                    invariant
                        forall|j: int|
                            0 <= j < shrinks@.len() ==> stmt_candidate(
                                *self,
                                #[trigger] shrinks@[j],
                            ),
                    decreases s2@.len() - k,
                {
                    shrinks.push(
                        Statement::Sequence(Box::new(e1.deep_copy()), Box::new(s2[k].deep_copy())),
                    );
                    k += 1;
                }
                shrinks.push(e1.deep_copy());
                proof {
                    assert(shrinks@[shrinks@.len() - 1] == **e1);
                    assert(shrinks@.contains(**e1));
                }
                shrinks
            },
            Statement::Conditional(expr, then_e, else_e) => {
                let mut shrinks: Vec<Statement> = Vec::new();
                let es = expr.shrink();
                let mut i: usize = 0;
                while i < es.len()
                    invariant
                        forall|j: int|
                            0 <= j < shrinks@.len() ==> stmt_candidate(
                                *self,
                                #[trigger] shrinks@[j],
                            ),
                    decreases es@.len() - i,
                {
                    shrinks.push(
                        Statement::Conditional(
                            es[i].deep_copy(),
                            Box::new(then_e.deep_copy()),
                            Box::new(else_e.deep_copy()),
                        ),
                    );
                    i += 1;
                }
                let ts = then_e.shrink();
                let mut k: usize = 0;
                while k < ts.len()
                    invariant
                        forall|j: int|
                            0 <= j < shrinks@.len() ==> stmt_candidate(
                                *self,
                                #[trigger] shrinks@[j],
                            ),
                    decreases ts@.len() - k,
                {
                    shrinks.push(
                        Statement::Conditional(
                            expr.deep_copy(),
                            Box::new(ts[k].deep_copy()),
                            Box::new(else_e.deep_copy()),
                        ),
                    );
                    k += 1;
                }
                let os = else_e.shrink();
                let mut m: usize = 0;
                while m < os.len()
                    invariant
                        forall|j: int|
                            0 <= j < shrinks@.len() ==> stmt_candidate(
                                *self,
                                #[trigger] shrinks@[j],
                            ),
                    decreases os@.len() - m,
                {
                    shrinks.push(
                        Statement::Conditional(
                            expr.deep_copy(),
                            Box::new(then_e.deep_copy()),
                            Box::new(os[m].deep_copy()),
                        ),
                    );
                    m += 1;
                }
                shrinks.push(then_e.deep_copy());
                shrinks.push(else_e.deep_copy());
                proof {
                    assert(shrinks@[shrinks@.len() - 2] == **then_e);
                    assert(shrinks@[shrinks@.len() - 1] == **else_e);
                    assert(shrinks@.contains(**then_e));
                    assert(shrinks@.contains(**else_e));
                }
                shrinks
            },
            Statement::While(expr, do_e) => {
                let mut shrinks: Vec<Statement> = Vec::new();
                let es = expr.shrink();
                let mut i: usize = 0;
                while i < es.len()
                    invariant
                        forall|j: int|
                            0 <= j < shrinks@.len() ==> stmt_candidate(
                                *self,
                                #[trigger] shrinks@[j],
                            ),
                    decreases es@.len() - i,
                {
                    shrinks.push(Statement::While(es[i].deep_copy(), Box::new(do_e.deep_copy())));
                    i += 1;
                }
                let ds = do_e.shrink();
                let mut k: usize = 0;
                while k < ds.len()
                    invariant
                        forall|j: int|
                            0 <= j < shrinks@.len() ==> stmt_candidate(
                                *self,
                                #[trigger] shrinks@[j],
                            ),
                    decreases ds@.len() - k,
                {
                    shrinks.push(Statement::While(expr.deep_copy(), Box::new(ds[k].deep_copy())));
                    k += 1;
                }
                shrinks.push(do_e.deep_copy());
                proof {
                    assert(shrinks@[shrinks@.len() - 1] == **do_e);
                    assert(shrinks@.contains(**do_e));
                }
                shrinks
            },
            Statement::Skip => Vec::new(),
        }
    }
}

impl CorrectProgram {
    /// A random program with fault injection disabled: every reference it
    /// makes resolves, so it is expected to type-check and evaluate.
    pub fn arbitrary(g: &mut quickcheck::Gen) -> (r: CorrectProgram)
        ensures
            stmt_size(r.0) >= 1,
    {
        let target = gen_size(g);
        let mut store: Vec<String> = Vec::new();
        let mut heap: Vec<String> = Vec::new();
        let r = Statement::arbitrary_sized(g, &mut store, &mut heap, false, true, target);
        proof {
            lemma_stmt_size_pos(r);
        }
        CorrectProgram(r)
    }

    /// Shrink candidates of a fault-free program: the statement's own
    /// candidates, each again wrapped as a fault-free program, with the
    /// same guarantees — strictly decreasing measure, and the promoted
    /// sub-statements of a composite among the candidates.
    #[verifier::loop_isolation(false)]
    pub fn shrink(&self) -> (r: Vec<CorrectProgram>)
        ensures
            forall|i: int| 0 <= i < r@.len() ==> stmt_candidate(self.0, (#[trigger] r@[i]).0),
            (match self.0 {
                Statement::HeapAlias(_, _) => r@.len() == 0,
                Statement::Sequence(s1, _) => exists|i: int|
                    0 <= i < r@.len() && (#[trigger] r@[i]).0 == *s1,
                Statement::Conditional(_, s1, s2) => (exists|i: int|
                    0 <= i < r@.len() && (#[trigger] r@[i]).0 == *s1) && (exists|i: int|
                    0 <= i < r@.len() && (#[trigger] r@[i]).0 == *s2),
                Statement::While(_, body) => exists|i: int|
                    0 <= i < r@.len() && (#[trigger] r@[i]).0 == *body,
                Statement::Skip => r@.len() == 0,
                _ => true,
            }),
    {
        let candidates = self.0.shrink();
        let mut out: Vec<CorrectProgram> = Vec::new();
        let mut i: usize = 0;
        while i < candidates.len()
            invariant
                i <= candidates@.len(),
                out@.len() == i,
                forall|j: int| 0 <= j < i ==> (#[trigger] out@[j]).0 == candidates@[j],
            decreases candidates@.len() - i,
        {
            out.push(CorrectProgram(candidates[i].deep_copy()));
            i += 1;
        }
        proof {
            assert forall|x: Statement| candidates@.contains(x) implies exists|k: int|
                0 <= k < out@.len() && (#[trigger] out@[k]).0 == x by {
                let j = choose|j: int| 0 <= j < candidates@.len() && candidates@[j] == x;
                assert(out@[j].0 == x);
            }
        }
        out
    }
}

} // verus!
