//! The head resolver: call-by-name, weak-head reduction with on-demand
//! unfolding of globals restricted to the function (head) position.
//!
//! The algorithm is specified by a fueled abstract machine over a pair of a
//! current free term and a stack of pending arguments: descending into an
//! application pushes its argument, and a product term at the head either is
//! the answer (empty stack) or is unfolded to an abstraction and applied to
//! the top of the stack. Fuel only bounds how far the specification looks
//! ahead; `resolves_to` quantifies it away, and resolution is proved
//! deterministic, so one reachable outcome pins the result down.

use vstd::prelude::*;

use crate::beta::beta_reduce;
use crate::beta::subst;
use crate::error::ResolveError;
use crate::term::Abstr;
use crate::term::AnyTerm;
use crate::term::Appl;
use crate::term::FreeTerm;
use crate::term::ProductTerm;
use crate::unfold::expand_global_recursive;
use crate::unfold::unfold_product;

verus! {

/// One head application: unfold the product term at the head to an
/// abstraction, substitute the argument for its parameter throughout its
/// body, and narrow the substituted body back to a free term. The narrowing
/// is owed by the closedness invariant; its failure is the internal error.
pub open spec fn spec_apply_top(product: ProductTerm, argument: AnyTerm) -> Result<
    FreeTerm,
    ResolveError,
> {
    match unfold_product(product) {
        Err(e) => Err(e),
        Ok(ab) => match FreeTerm::spec_from_any(
            subst(ab.parameter.id, *ab.body, argument),
        ) {
            None => Err(ResolveError::InternalInconsistency),
            Some(next) => Ok(next),
        },
    }
}

/// The machine, fueled: `cur` applied to the pending arguments in `args`
/// (top of stack last). `None` means the fuel ran out before an outcome;
/// `Some` is the outcome resolution reaches.
pub open spec fn step_fuel(cur: FreeTerm, args: Seq<AnyTerm>, fuel: nat) -> Option<
    Result<ProductTerm, ResolveError>,
>
    decreases fuel, 1int,
{
    match cur {
        FreeTerm::Application(ap) => if fuel == 0 {
            None
        } else {
            match FreeTerm::spec_from_any(*ap.function) {
                None => Some(Err(ResolveError::InternalInconsistency)),
                Some(f) => step_fuel(f, args.push(*ap.argument), (fuel - 1) as nat),
            }
        },
        FreeTerm::Global(g) => step_product(ProductTerm::Global(g), args, fuel),
        FreeTerm::Abstraction(ab) => step_product(ProductTerm::Abstraction(ab), args, fuel),
    }
}

/// The machine at a product head: with no pending argument this is the
/// answer; otherwise apply it to the top of the stack and continue.
pub open spec fn step_product(product: ProductTerm, args: Seq<AnyTerm>, fuel: nat) -> Option<
    Result<ProductTerm, ResolveError>,
>
    decreases fuel, 0int,
{
    if args.len() == 0 {
        Some(Ok(product))
    } else if fuel == 0 {
        None
    } else {
        match spec_apply_top(product, args.last()) {
            Err(e) => Some(Err(e)),
            Ok(next) => step_fuel(next, args.drop_last(), (fuel - 1) as nat),
        }
    }
}

/// What resolution may return on `query`: the outcomes the machine reaches
/// under some fuel. By `lemma_resolution_deterministic` there is at most one
/// such outcome, so this predicate pins the result of `resolve` down.
pub open spec fn resolves_to(query: FreeTerm, outcome: Result<ProductTerm, ResolveError>) -> bool {
    exists|fuel: nat| step_fuel(query, Seq::empty(), fuel) == Some(outcome)
}

/// Whether resolution of `query` comes to an outcome at all — an answer or
/// an error. Head reduction of an untyped calculus has queries it can never
/// finish (a self-application applied to itself); on those head reduction
/// recurses without bound, and `resolve` cannot be called.
pub open spec fn resolution_halts(query: FreeTerm) -> bool {
    exists|fuel: nat| step_fuel(query, Seq::empty(), fuel) is Some
}

/// The machine at a non-application head is the machine at the matching
/// product head: one unfolding of `step_fuel`, stated once so call sites can
/// reason through it.
pub proof fn lemma_step_at_product(product: ProductTerm, args: Seq<AnyTerm>, fuel: nat)
    ensures
        step_fuel(product.spec_as_free(), args, fuel) == step_product(product, args, fuel),
{
    match product {
        ProductTerm::Global(_) => {}
        ProductTerm::Abstraction(_) => {}
    }
}

/// A term already in weak head normal form resolves at once, to itself: on a
/// product term the machine is done under no fuel at all.
pub proof fn lemma_whnf_immediate(product: ProductTerm, fuel: nat)
    ensures
        step_fuel(product.spec_as_free(), Seq::empty(), fuel) == Some(
            Ok::<ProductTerm, ResolveError>(product),
        ),
{
    lemma_step_at_product(product, Seq::empty(), fuel);
}

/// On a global or an abstraction, resolution halts trivially.
pub proof fn lemma_whnf_halts(query: FreeTerm)
    requires
        !(query is Application),
    ensures
        resolution_halts(query),
{
    match query {
        FreeTerm::Global(g) => {
            lemma_whnf_immediate(ProductTerm::Global(g), 0);
        }
        FreeTerm::Abstraction(ab) => {
            lemma_whnf_immediate(ProductTerm::Abstraction(ab), 0);
        }
        FreeTerm::Application(_) => {}
    }
}

/// Fuel only delays an outcome, never changes it: whatever the machine
/// reaches under some fuel it reaches under any larger fuel.
pub proof fn lemma_step_fuel_monotonic(
    cur: FreeTerm,
    args: Seq<AnyTerm>,
    fuel1: nat,
    fuel2: nat,
)
    requires
        fuel1 <= fuel2,
        step_fuel(cur, args, fuel1) is Some,
    ensures
        step_fuel(cur, args, fuel2) == step_fuel(cur, args, fuel1),
    decreases fuel1, 1int,
{
    match cur {
        FreeTerm::Application(ap) => {
            match FreeTerm::spec_from_any(*ap.function) {
                None => {}
                Some(f) => {
                    lemma_step_fuel_monotonic(
                        f,
                        args.push(*ap.argument),
                        (fuel1 - 1) as nat,
                        (fuel2 - 1) as nat,
                    );
                }
            }
        }
        FreeTerm::Global(g) => {
            lemma_step_product_monotonic(ProductTerm::Global(g), args, fuel1, fuel2);
        }
        FreeTerm::Abstraction(ab) => {
            lemma_step_product_monotonic(ProductTerm::Abstraction(ab), args, fuel1, fuel2);
        }
    }
}

/// The companion of `lemma_step_fuel_monotonic` for a product head.
pub proof fn lemma_step_product_monotonic(
    product: ProductTerm,
    args: Seq<AnyTerm>,
    fuel1: nat,
    fuel2: nat,
)
    requires
        fuel1 <= fuel2,
        step_product(product, args, fuel1) is Some,
    ensures
        step_product(product, args, fuel2) == step_product(product, args, fuel1),
    decreases fuel1, 0int,
{
    if args.len() == 0 {
    } else {
        match spec_apply_top(product, args.last()) {
            Err(_) => {}
            Ok(next) => {
                lemma_step_fuel_monotonic(
                    next,
                    args.drop_last(),
                    (fuel1 - 1) as nat,
                    (fuel2 - 1) as nat,
                );
            }
        }
    }
}

/// Resolution is deterministic: a query reaches at most one outcome. There
/// is exactly one reducible redex at any step, so the machine has nothing to
/// choose, and fuel cannot change where it arrives.
pub proof fn lemma_resolution_deterministic(
    query: FreeTerm,
    outcome1: Result<ProductTerm, ResolveError>,
    outcome2: Result<ProductTerm, ResolveError>,
)
    requires
        resolves_to(query, outcome1),
        resolves_to(query, outcome2),
    ensures
        outcome1 == outcome2,
{
    let fuel1 = choose|fuel: nat| step_fuel(query, Seq::empty(), fuel) == Some(outcome1);
    let fuel2 = choose|fuel: nat| step_fuel(query, Seq::empty(), fuel) == Some(outcome2);
    if fuel1 <= fuel2 {
        lemma_step_fuel_monotonic(query, Seq::empty(), fuel1, fuel2);
    } else {
        lemma_step_fuel_monotonic(query, Seq::empty(), fuel2, fuel1);
    }
}

fn apply_top(product: ProductTerm, argument: AnyTerm) -> (r: Result<FreeTerm, ResolveError>)
    ensures
        r == spec_apply_top(product, argument),
{
    match expand_global_recursive(product) {
        Err(e) => Err(e),
        Ok(ab) => {
            let Abstr { parameter, body } = ab;
            let mut reduced = *body;
            beta_reduce(&parameter, &mut reduced, &argument);
            match FreeTerm::from_any(reduced) {
                None => Err(ResolveError::InternalInconsistency),
                Some(next) => Ok(next),
            }
        },
    }
}

/// Compute the weak head normal form of a closed query term.
///
/// A global or an abstraction is already in weak head normal form and comes
/// back as it is. An application is reduced by resolving its function
/// position, unfolding the product term found there to an abstraction,
/// substituting the (unevaluated) argument, and continuing on the result.
/// Arguments and subterms under the final head are never forced.
#[verifier::loop_isolation(false)]
pub fn resolve(query: FreeTerm) -> (r: Result<ProductTerm, ResolveError>)
    requires
        resolution_halts(query),
    ensures
        resolves_to(query, r),
        query matches FreeTerm::Global(g) ==> r == Ok::<ProductTerm, ResolveError>(
            ProductTerm::Global(g),
        ),
        query matches FreeTerm::Abstraction(ab) ==> r == Ok::<ProductTerm, ResolveError>(
            ProductTerm::Abstraction(ab),
        ),
{
    let ghost q0 = query;
    match query {
        FreeTerm::Global(g) => {
            let p = ProductTerm::Global(g);
            proof {
                lemma_whnf_immediate(p, 0);
            }
            Ok(p)
        }
        FreeTerm::Abstraction(ab) => {
            let p = ProductTerm::Abstraction(ab);
            proof {
                lemma_whnf_immediate(p, 0);
            }
            Ok(p)
        }
        FreeTerm::Application(ap) => {
            let mut cur = FreeTerm::Application(ap);
            let mut args: Vec<AnyTerm> = Vec::new();
            let ghost mut budget: nat = choose|fuel: nat|
                step_fuel(q0, Seq::empty(), fuel) is Some;
            proof {
                assert(args@ == Seq::<AnyTerm>::empty());
            }
            loop
                invariant
                    q0 is Application,
                    step_fuel(cur, args@, budget) is Some,
                    forall|outcome: Result<ProductTerm, ResolveError>, fuel: nat|
                        step_fuel(cur, args@, fuel) == Some(outcome) ==> resolves_to(q0, outcome),
                decreases budget,
            {
                let ghost prev_cur = cur;
                let ghost prev_args = args@;
                let ghost prev_budget = budget;
                match cur {
                    FreeTerm::Application(inner) => {
                        let Appl { function, argument } = inner;
                        match FreeTerm::from_any(*function) {
                            None => {
                                proof {
                                    assert(step_fuel(prev_cur, prev_args, 1) == Some(
                                        Err::<ProductTerm, ResolveError>(
                                            ResolveError::InternalInconsistency,
                                        ),
                                    ));
                                    assert(resolves_to(
                                        q0,
                                        Err::<ProductTerm, ResolveError>(
                                            ResolveError::InternalInconsistency,
                                        ),
                                    ));
                                }
                                return Err(ResolveError::InternalInconsistency);
                            }
                            Some(f) => {
                                args.push(*argument);
                                cur = f;
                                proof {
                                    if prev_budget == 0 {
                                        assert(step_fuel(prev_cur, prev_args, 0) is None);
                                    }
                                    budget = (prev_budget - 1) as nat;
                                    assert(step_fuel(prev_cur, prev_args, prev_budget)
                                        == step_fuel(cur, args@, budget));
                                    assert forall|
                                        outcome: Result<ProductTerm, ResolveError>,
                                        fuel: nat,
                                    |
                                        step_fuel(cur, args@, fuel) == Some(
                                            outcome,
                                        ) implies resolves_to(q0, outcome) by {
                                        assert(step_fuel(prev_cur, prev_args, fuel + 1) == Some(
                                            outcome,
                                        ));
                                    }
                                }
                            }
                        }
                    }
                    FreeTerm::Global(g) => {
                        let p = ProductTerm::Global(g);
                        if args.len() == 0 {
                            proof {
                                lemma_step_at_product(p, prev_args, 0);
                                assert(step_fuel(prev_cur, prev_args, 0) == Some(
                                    Ok::<ProductTerm, ResolveError>(p),
                                ));
                                assert(resolves_to(q0, Ok::<ProductTerm, ResolveError>(p)));
                            }
                            return Ok(p);
                        }
                        let top = args.pop().unwrap();
                        match apply_top(p, top) {
                            Err(e) => {
                                proof {
                                    lemma_step_at_product(p, prev_args, 1);
                                    assert(step_fuel(prev_cur, prev_args, 1) == Some(
                                        Err::<ProductTerm, ResolveError>(e),
                                    ));
                                    assert(resolves_to(q0, Err::<ProductTerm, ResolveError>(e)));
                                }
                                return Err(e);
                            }
                            Ok(next) => {
                                cur = next;
                                proof {
                                    lemma_step_at_product(p, prev_args, prev_budget);
                                    if prev_budget == 0 {
                                        assert(step_fuel(prev_cur, prev_args, 0) is None);
                                    }
                                    budget = (prev_budget - 1) as nat;
                                    assert(args@ == prev_args.drop_last());
                                    assert(step_fuel(prev_cur, prev_args, prev_budget)
                                        == step_fuel(cur, args@, budget));
                                    assert forall|
                                        outcome: Result<ProductTerm, ResolveError>,
                                        fuel: nat,
                                    |
                                        step_fuel(cur, args@, fuel) == Some(
                                            outcome,
                                        ) implies resolves_to(q0, outcome) by {
                                        lemma_step_at_product(p, prev_args, fuel + 1);
                                        assert(step_fuel(prev_cur, prev_args, fuel + 1) == Some(
                                            outcome,
                                        ));
                                    }
                                }
                            }
                        }
                    }
                    FreeTerm::Abstraction(ab) => {
                        let p = ProductTerm::Abstraction(ab);
                        if args.len() == 0 {
                            proof {
                                lemma_step_at_product(p, prev_args, 0);
                                assert(step_fuel(prev_cur, prev_args, 0) == Some(
                                    Ok::<ProductTerm, ResolveError>(p),
                                ));
                                assert(resolves_to(q0, Ok::<ProductTerm, ResolveError>(p)));
                            }
                            return Ok(p);
                        }
                        let top = args.pop().unwrap();
                        match apply_top(p, top) {
                            Err(e) => {
                                proof {
                                    lemma_step_at_product(p, prev_args, 1);
                                    assert(step_fuel(prev_cur, prev_args, 1) == Some(
                                        Err::<ProductTerm, ResolveError>(e),
                                    ));
                                    assert(resolves_to(q0, Err::<ProductTerm, ResolveError>(e)));
                                }
                                return Err(e);
                            }
                            Ok(next) => {
                                cur = next;
                                proof {
                                    lemma_step_at_product(p, prev_args, prev_budget);
                                    if prev_budget == 0 {
                                        assert(step_fuel(prev_cur, prev_args, 0) is None);
                                    }
                                    budget = (prev_budget - 1) as nat;
                                    assert(args@ == prev_args.drop_last());
                                    assert(step_fuel(prev_cur, prev_args, prev_budget)
                                        == step_fuel(cur, args@, budget));
                                    assert forall|
                                        outcome: Result<ProductTerm, ResolveError>,
                                        fuel: nat,
                                    |
                                        step_fuel(cur, args@, fuel) == Some(
                                            outcome,
                                        ) implies resolves_to(q0, outcome) by {
                                        lemma_step_at_product(p, prev_args, fuel + 1);
                                        assert(step_fuel(prev_cur, prev_args, fuel + 1) == Some(
                                            outcome,
                                        ));
                                    }
                                }
                            }
                        }
                    }
                }
            }
        }
    }
}

} // verus!
