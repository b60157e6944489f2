//! The global unfolder: expand a declaration reference into its defining
//! term, repeatedly, until an abstraction is reached, bounding the number of
//! expansions as a guard against declaration reference cycles.

use vstd::prelude::*;

use crate::error::ResolveError;
use crate::term::Abstr;
use crate::term::Decl;
use crate::term::ProductTerm;

verus! {

/// How many global expansions a single unfolding chain may take before it is
/// declared cyclic. A pragmatic safety valve, not a semantic limit.
pub const EXPANSION_LIMIT: u64 = 100;

/// Unfolding with an explicit budget: an abstraction is returned as it is; a
/// global is expanded through its declaration's body, one unit of fuel per
/// expansion. A body that is an application cannot be narrowed to a product
/// term and is malformed; running out of fuel on a global signals a cycle.
pub open spec fn unfold_fuel(product: ProductTerm, fuel: nat) -> Result<Abstr, ResolveError>
    decreases fuel,
{
    match product {
        ProductTerm::Abstraction(ab) => Ok(ab),
        ProductTerm::Global(g) => if fuel == 0 {
            Err(ResolveError::DeclarationCycle)
        } else {
            match ProductTerm::spec_from_free(g.value.term) {
                None => Err(ResolveError::MalformedDeclaration { declaration: g.value.name }),
                Some(next) => unfold_fuel(next, (fuel - 1) as nat),
            }
        },
    }
}

/// What unfolding a product term yields under the fixed expansion budget.
pub open spec fn unfold_product(product: ProductTerm) -> Result<Abstr, ResolveError> {
    unfold_fuel(product, EXPANSION_LIMIT as nat)
}

fn expand_with_fuel(product: ProductTerm, fuel: u64) -> (r: Result<Abstr, ResolveError>)
    ensures
        r == unfold_fuel(product, fuel as nat),
    decreases fuel,
{
    match product {
        ProductTerm::Abstraction(ab) => Ok(ab),
        ProductTerm::Global(g) => {
            if fuel == 0 {
                Err(ResolveError::DeclarationCycle)
            } else {
                let Decl { name, term } = *g.value;
                match ProductTerm::from_free(term) {
                    None => Err(ResolveError::MalformedDeclaration { declaration: name }),
                    Some(next) => expand_with_fuel(next, fuel - 1),
                }
            }
        },
    }
}

/// Expand `product` until an abstraction is reached, following global
/// references through their declarations' bodies. Fails with the
/// malformed-declaration error when a declaration body is an application,
/// and with the declaration-cycle error when the expansion bound is spent
/// before an abstraction appears.
pub fn expand_global_recursive(product: ProductTerm) -> (r: Result<Abstr, ResolveError>)
    ensures
        r == unfold_product(product),
{
    expand_with_fuel(product, EXPANSION_LIMIT)
}

} // verus!
