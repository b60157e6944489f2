//! The laws of resolution, stated over the machine specification and proved
//! once and for all: idempotence on weak-head-normal input, correctness of
//! beta reduction, transparency of global unfolding, surfacing of the two
//! declaration errors, and the shape-narrowing round trips.

use vstd::prelude::*;

use crate::beta::subst;
use crate::error::ResolveError;
use crate::resolve::lemma_resolution_deterministic;
use crate::resolve::lemma_step_at_product;
use crate::resolve::lemma_whnf_immediate;
use crate::resolve::resolves_to;
use crate::resolve::spec_apply_top;
use crate::resolve::step_fuel;
use crate::resolve::step_product;
use crate::term::Abstr;
use crate::term::AnyTerm;
use crate::term::Appl;
use crate::term::Decl;
use crate::term::FreeTerm;
use crate::term::GlobalRef;
use crate::term::ProductTerm;
use crate::unfold::unfold_fuel;
use crate::unfold::unfold_product;
use crate::unfold::EXPANSION_LIMIT;

verus! {

/// The free term applying `function` to `argument`.
pub open spec fn applied(function: AnyTerm, argument: AnyTerm) -> FreeTerm {
    FreeTerm::Application(Appl { function: Box::new(function), argument: Box::new(argument) })
}

/// Resolution is the identity on a term already in weak head normal form: a
/// global or an abstraction resolves to itself, and to nothing else.
pub proof fn lemma_whnf_idempotent(
    product: ProductTerm,
    outcome: Result<ProductTerm, ResolveError>,
)
    requires
        resolves_to(product.spec_as_free(), outcome),
    ensures
        outcome == Ok::<ProductTerm, ResolveError>(product),
{
    lemma_whnf_immediate(product, 0);
    assert(resolves_to(product.spec_as_free(), Ok::<ProductTerm, ResolveError>(product)));
    lemma_resolution_deterministic(
        product.spec_as_free(),
        outcome,
        Ok::<ProductTerm, ResolveError>(product),
    );
}

proof fn lemma_singleton_stack(argument: AnyTerm)
    ensures
        Seq::<AnyTerm>::empty().push(argument).len() == 1,
        Seq::<AnyTerm>::empty().push(argument).last() == argument,
        Seq::<AnyTerm>::empty().push(argument).drop_last() == Seq::<AnyTerm>::empty(),
{
    assert(Seq::<AnyTerm>::empty().push(argument).drop_last() =~= Seq::<AnyTerm>::empty());
}

/// One beta step at the head, seen by the machine: applying an abstraction
/// to an argument runs on exactly like the substituted body, two units of
/// fuel later.
proof fn lemma_beta_chain(ab: Abstr, argument: AnyTerm, contractum: FreeTerm, fuel: nat)
    requires
        FreeTerm::spec_from_any(subst(ab.parameter.id, *ab.body, argument)) == Some(contractum),
    ensures
        step_fuel(applied(AnyTerm::Abstraction(ab), argument), Seq::empty(), fuel + 2)
            == step_fuel(contractum, Seq::empty(), fuel),
{
    let stack = Seq::<AnyTerm>::empty().push(argument);
    lemma_singleton_stack(argument);
    assert(unfold_product(ProductTerm::Abstraction(ab)) == Ok::<Abstr, ResolveError>(ab));
    assert(spec_apply_top(ProductTerm::Abstraction(ab), argument) == Ok::<
        FreeTerm,
        ResolveError,
    >(contractum));
    lemma_step_at_product(ProductTerm::Abstraction(ab), stack, fuel + 1);
    assert(step_product(ProductTerm::Abstraction(ab), stack, fuel + 1) == step_fuel(
        contractum,
        Seq::empty(),
        fuel,
    ));
    assert(step_fuel(applied(AnyTerm::Abstraction(ab), argument), Seq::empty(), fuel + 2)
        == step_fuel(FreeTerm::Abstraction(ab), stack, fuel + 1));
}

/// Substitution is what application means: resolving `(\x. B) A` reaches
/// exactly the outcomes of resolving `B` with `A` substituted for `x` —
/// provided the substituted body is again a free term (by the global
/// uniqueness of binder ids it is, whenever the application was closed).
/// That substitution alters no other local is `lemma_subst_other_locals`.
pub proof fn lemma_beta_correct(
    ab: Abstr,
    argument: AnyTerm,
    contractum: FreeTerm,
    outcome: Result<ProductTerm, ResolveError>,
)
    requires
        FreeTerm::spec_from_any(subst(ab.parameter.id, *ab.body, argument)) == Some(contractum),
    ensures
        resolves_to(applied(AnyTerm::Abstraction(ab), argument), outcome) <==> resolves_to(
            contractum,
            outcome,
        ),
{
    let query = applied(AnyTerm::Abstraction(ab), argument);
    let stack = Seq::<AnyTerm>::empty().push(argument);
    lemma_singleton_stack(argument);
    if resolves_to(query, outcome) {
        let fuel = choose|fuel: nat| step_fuel(query, Seq::empty(), fuel) == Some(outcome);
        if fuel < 2 {
            lemma_step_at_product(ProductTerm::Abstraction(ab), stack, 0);
            assert(step_fuel(query, Seq::empty(), fuel) is None);
        } else {
            lemma_beta_chain(ab, argument, contractum, (fuel - 2) as nat);
            assert(step_fuel(contractum, Seq::empty(), (fuel - 2) as nat) == Some(outcome));
        }
    }
    if resolves_to(contractum, outcome) {
        let fuel = choose|fuel: nat| step_fuel(contractum, Seq::empty(), fuel) == Some(outcome);
        lemma_beta_chain(ab, argument, contractum, fuel);
        assert(step_fuel(query, Seq::empty(), fuel + 2) == Some(outcome));
    }
}

/// Unfolding is semantically invisible: applying a global whose declaration
/// body is the abstraction `ab` reaches exactly the outcomes of applying
/// `ab` itself.
pub proof fn lemma_global_transparent(
    decl: Decl,
    ab: Abstr,
    argument: AnyTerm,
    outcome: Result<ProductTerm, ResolveError>,
)
    requires
        decl.term == FreeTerm::Abstraction(ab),
    ensures
        resolves_to(applied(AnyTerm::Global(GlobalRef { value: Box::new(decl) }), argument), outcome)
            <==> resolves_to(applied(AnyTerm::Abstraction(ab), argument), outcome),
{
    let global = GlobalRef { value: Box::new(decl) };
    let query_global = applied(AnyTerm::Global(global), argument);
    let query_direct = applied(AnyTerm::Abstraction(ab), argument);
    let stack = Seq::<AnyTerm>::empty().push(argument);
    lemma_singleton_stack(argument);
    assert(unfold_fuel(ProductTerm::Abstraction(ab), (EXPANSION_LIMIT - 1) as nat) == Ok::<
        Abstr,
        ResolveError,
    >(ab));
    assert(unfold_product(ProductTerm::Global(global)) == Ok::<Abstr, ResolveError>(ab));
    assert(unfold_product(ProductTerm::Abstraction(ab)) == Ok::<Abstr, ResolveError>(ab));
    assert(spec_apply_top(ProductTerm::Global(global), argument) == spec_apply_top(
        ProductTerm::Abstraction(ab),
        argument,
    ));
    assert forall|fuel: nat|
        step_fuel(query_global, Seq::empty(), fuel) == step_fuel(
            query_direct,
            Seq::empty(),
            fuel,
        ) by {
        if fuel > 0 {
            lemma_step_at_product(ProductTerm::Global(global), stack, (fuel - 1) as nat);
            lemma_step_at_product(ProductTerm::Abstraction(ab), stack, (fuel - 1) as nat);
            assert(step_product(ProductTerm::Global(global), stack, (fuel - 1) as nat)
                == step_product(ProductTerm::Abstraction(ab), stack, (fuel - 1) as nat));
        }
    }
}

/// A declaration whose body is an application cannot be unfolded: applying
/// a global reference to it resolves to the malformed-declaration error,
/// naming the declaration.
pub proof fn lemma_malformed_surfaces(decl: Decl, argument: AnyTerm)
    requires
        decl.term is Application,
    ensures
        resolves_to(
            applied(AnyTerm::Global(GlobalRef { value: Box::new(decl) }), argument),
            Err(ResolveError::MalformedDeclaration { declaration: decl.name }),
        ),
{
    let global = GlobalRef { value: Box::new(decl) };
    let query = applied(AnyTerm::Global(global), argument);
    let stack = Seq::<AnyTerm>::empty().push(argument);
    let error = ResolveError::MalformedDeclaration { declaration: decl.name };
    lemma_singleton_stack(argument);
    assert(unfold_product(ProductTerm::Global(global)) == Err::<Abstr, ResolveError>(error));
    assert(spec_apply_top(ProductTerm::Global(global), argument) == Err::<
        FreeTerm,
        ResolveError,
    >(error));
    lemma_step_at_product(ProductTerm::Global(global), stack, 1);
    assert(step_fuel(query, Seq::empty(), 2) == Some(Err::<ProductTerm, ResolveError>(error)));
}

/// A declaration chain that stays global for `depth` further expansions:
/// every step narrows to another global reference, never an abstraction.
pub open spec fn all_globals_through(product: ProductTerm, depth: nat) -> bool
    decreases depth,
{
    match product {
        ProductTerm::Abstraction(_) => false,
        ProductTerm::Global(g) => depth == 0 || (match ProductTerm::spec_from_free(g.value.term) {
            None => false,
            Some(next) => all_globals_through(next, (depth - 1) as nat),
        }),
    }
}

proof fn lemma_cycle_fuel(product: ProductTerm, fuel: nat)
    requires
        all_globals_through(product, fuel),
    ensures
        unfold_fuel(product, fuel) == Err::<Abstr, ResolveError>(ResolveError::DeclarationCycle),
    decreases fuel,
{
    if fuel > 0 {
        match product {
            ProductTerm::Abstraction(_) => {}
            ProductTerm::Global(g) => {
                match ProductTerm::spec_from_free(g.value.term) {
                    None => {}
                    Some(next) => {
                        lemma_cycle_fuel(next, (fuel - 1) as nat);
                    }
                }
            }
        }
    }
}

/// Cycle detection: a declaration chain that never bottoms out in an
/// abstraction — in particular one that runs back into itself — exhausts
/// the expansion bound, and unfolding reports the declaration-cycle error
/// rather than looping on.
pub proof fn lemma_cycle_detected(product: ProductTerm)
    requires
        all_globals_through(product, EXPANSION_LIMIT as nat),
    ensures
        unfold_product(product) == Err::<Abstr, ResolveError>(ResolveError::DeclarationCycle),
{
    lemma_cycle_fuel(product, EXPANSION_LIMIT as nat);
}

/// The cycle error surfaces through resolution: applying a global that
/// heads such a chain resolves to the declaration-cycle error.
pub proof fn lemma_cycle_surfaces(global: GlobalRef, argument: AnyTerm)
    requires
        all_globals_through(ProductTerm::Global(global), EXPANSION_LIMIT as nat),
    ensures
        resolves_to(
            applied(AnyTerm::Global(global), argument),
            Err(ResolveError::DeclarationCycle),
        ),
{
    let query = applied(AnyTerm::Global(global), argument);
    let stack = Seq::<AnyTerm>::empty().push(argument);
    let error = ResolveError::DeclarationCycle;
    lemma_singleton_stack(argument);
    lemma_cycle_detected(ProductTerm::Global(global));
    assert(spec_apply_top(ProductTerm::Global(global), argument) == Err::<
        FreeTerm,
        ResolveError,
    >(error));
    lemma_step_at_product(ProductTerm::Global(global), stack, 1);
    assert(step_fuel(query, Seq::empty(), 2) == Some(Err::<ProductTerm, ResolveError>(error)));
}

/// Shape-narrowing round trip, product side: widening a product term to a
/// free term (or further, to an unrestricted term) and narrowing back gives
/// the term unchanged.
pub proof fn lemma_product_round_trip(product: ProductTerm)
    ensures
        ProductTerm::spec_from_free(product.spec_as_free()) == Some(product),
        ProductTerm::spec_from_any(product.spec_as_any()) == Some(product),
{
    match product {
        ProductTerm::Global(_) => {}
        ProductTerm::Abstraction(_) => {}
    }
}

/// Shape-narrowing round trip, free side: widening a free term to an
/// unrestricted term and narrowing back gives the term unchanged; when the
/// term is no application, the narrowing to a product term succeeds as well
/// and widens back to the same term.
pub proof fn lemma_free_round_trip(free: FreeTerm)
    ensures
        FreeTerm::spec_from_any(free.spec_as_any()) == Some(free),
        !(free is Application) ==> (ProductTerm::spec_from_any(free.spec_as_any())
            matches Some(product) && product.spec_as_free() == free),
{
    match free {
        FreeTerm::Global(_) => {}
        FreeTerm::Abstraction(_) => {}
        FreeTerm::Application(_) => {}
    }
}

} // verus!

