//! The substitution engine: beta reduction of one bound variable inside a
//! term, specified by a structural-recursive substitution function.

use vstd::prelude::*;

use crate::term::Abstr;
use crate::term::AnyTerm;
use crate::term::Appl;
use crate::term::Local;

verus! {

/// Substitution as a mathematical function: replace every local whose id is
/// `param_id` by `argument`, leave globals untouched, and recurse through
/// abstraction bodies and both sides of applications. Globally unique binder
/// ids make this capture-safe without alpha-renaming.
pub open spec fn subst(param_id: usize, body: AnyTerm, argument: AnyTerm) -> AnyTerm
    decreases body,
{
    match body {
        AnyTerm::Global(g) => AnyTerm::Global(g),
        AnyTerm::Abstraction(ab) => AnyTerm::Abstraction(
            Abstr { parameter: ab.parameter, body: Box::new(subst(param_id, *ab.body, argument)) },
        ),
        AnyTerm::Application(ap) => AnyTerm::Application(
            Appl {
                function: Box::new(subst(param_id, *ap.function, argument)),
                argument: Box::new(subst(param_id, *ap.argument, argument)),
            },
        ),
        AnyTerm::Local(l) => if l.id == param_id {
            argument
        } else {
            AnyTerm::Local(l)
        },
    }
}

/// Whether `id` occurs in `term` as a local (a bound-variable occurrence;
/// binder parameters and the insides of globals do not count).
pub open spec fn mentions_local(term: AnyTerm, id: usize) -> bool
    decreases term,
{
    match term {
        AnyTerm::Global(_) => false,
        AnyTerm::Abstraction(ab) => mentions_local(*ab.body, id),
        AnyTerm::Application(ap) => mentions_local(*ap.function, id) || mentions_local(
            *ap.argument,
            id,
        ),
        AnyTerm::Local(l) => l.id == id,
    }
}

/// Substitution touches nothing but the substituted local: a term in which
/// `param_id` does not occur comes back unchanged, whatever the argument.
pub proof fn lemma_subst_absent(param_id: usize, body: AnyTerm, argument: AnyTerm)
    requires
        !mentions_local(body, param_id),
    ensures
        subst(param_id, body, argument) == body,
    decreases body,
{
    match body {
        AnyTerm::Global(_) => {}
        AnyTerm::Abstraction(ab) => {
            lemma_subst_absent(param_id, *ab.body, argument);
        }
        AnyTerm::Application(ap) => {
            lemma_subst_absent(param_id, *ap.function, argument);
            lemma_subst_absent(param_id, *ap.argument, argument);
        }
        AnyTerm::Local(_) => {}
    }
}

/// Substitution alters no occurrence of any other local: whether a local
/// distinct from the substituted one occurs is the same before and after,
/// as long as the argument does not bring it in itself.
pub proof fn lemma_subst_other_locals(
    param_id: usize,
    body: AnyTerm,
    argument: AnyTerm,
    other: usize,
)
    requires
        other != param_id,
        !mentions_local(argument, other),
    ensures
        mentions_local(subst(param_id, body, argument), other) == mentions_local(body, other),
    decreases body,
{
    match body {
        AnyTerm::Global(_) => {}
        AnyTerm::Abstraction(ab) => {
            lemma_subst_other_locals(param_id, *ab.body, argument, other);
        }
        AnyTerm::Application(ap) => {
            lemma_subst_other_locals(param_id, *ap.function, argument, other);
            lemma_subst_other_locals(param_id, *ap.argument, argument, other);
        }
        AnyTerm::Local(_) => {}
    }
}

fn substituted(parameter: &Local, body: AnyTerm, argument: &AnyTerm) -> (r: AnyTerm)
    ensures
        r == subst(parameter.id, body, *argument),
    decreases body,
{
    match body {
        AnyTerm::Global(g) => AnyTerm::Global(g),
        AnyTerm::Abstraction(ab) => {
            let Abstr { parameter: own, body: inner } = ab;
            AnyTerm::Abstraction(
                Abstr { parameter: own, body: Box::new(substituted(parameter, *inner, argument)) },
            )
        }
        AnyTerm::Application(ap) => {
            let Appl { function, argument: arg } = ap;
            AnyTerm::Application(
                Appl {
                    function: Box::new(substituted(parameter, *function, argument)),
                    argument: Box::new(substituted(parameter, *arg, argument)),
                },
            )
        }
        AnyTerm::Local(l) => {
            if l.id == parameter.id {
                argument.clone()
            } else {
                AnyTerm::Local(l)
            }
        }
    }
}

/// Beta reduction in place: after the call, `body` is `subst` of the old
/// body — every local whose id equals `parameter.id` replaced by a copy of
/// `argument`, everything else (globals included) untouched.
pub fn beta_reduce(parameter: &Local, body: &mut AnyTerm, argument: &AnyTerm)
    ensures
        *final(body) == subst(parameter.id, *old(body), *argument),
{
    let mut taken = AnyTerm::Local(Local { id: 0, name: String::new() });
    core::mem::swap(body, &mut taken);
    let reduced = substituted(parameter, taken, argument);
    *body = reduced;
}

} // verus!
