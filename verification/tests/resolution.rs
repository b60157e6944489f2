//! Resolution scenarios: weak-head normalization, global unfolding, and the
//! error taxonomy, exercised end to end on hand-built terms.

use whnf::Abstr;
use whnf::AnyTerm;
use whnf::Appl;
use whnf::Decl;
use whnf::FreeTerm;
use whnf::GlobalRef;
use whnf::Local;
use whnf::ProductTerm;
use whnf::ResolveError;
use whnf::expand_global_recursive;
use whnf::resolve;

fn decl_true() -> Decl {
    let local_x = Local::new(10, "x".to_string());
    let local_y = Local::new(11, "y".to_string());
    Decl::new(
        "T".to_string(),
        FreeTerm::Abstraction(Abstr::new(
            local_x.clone(),
            AnyTerm::Abstraction(Abstr::new(local_y, AnyTerm::Local(local_x))),
        )),
    )
}

fn decl_false() -> Decl {
    let local_x = Local::new(20, "x".to_string());
    let local_y = Local::new(21, "y".to_string());
    Decl::new(
        "F".to_string(),
        FreeTerm::Abstraction(Abstr::new(
            local_x,
            AnyTerm::Abstraction(Abstr::new(local_y.clone(), AnyTerm::Local(local_y))),
        )),
    )
}

fn decl_or() -> Decl {
    let local_p = Local::new(30, "p".to_string());
    let local_q = Local::new(31, "q".to_string());
    Decl::new(
        "|".to_string(),
        FreeTerm::Abstraction(Abstr::new(
            local_p.clone(),
            AnyTerm::Abstraction(Abstr::new(
                local_q.clone(),
                AnyTerm::Application(Appl::new(
                    AnyTerm::Application(Appl::new(
                        AnyTerm::Local(local_p.clone()),
                        AnyTerm::Local(local_p),
                    )),
                    AnyTerm::Local(local_q),
                )),
            )),
        )),
    )
}

#[test]
fn resolve_is_identity_on_global() {
    let global = GlobalRef::new(decl_true());
    let result = resolve(FreeTerm::Global(global.clone())).unwrap();
    assert_eq!(result, ProductTerm::Global(global));
}

#[test]
fn resolve_is_identity_on_abstraction() {
    let local = Local::new(1, "a".to_string());
    let identity = Abstr::new(local.clone(), AnyTerm::Local(local));
    let result = resolve(FreeTerm::Abstraction(identity.clone())).unwrap();
    assert_eq!(result, ProductTerm::Abstraction(identity));
}

#[test]
fn beta_reduction_substitutes_the_argument() {
    // (\a. a) (\b. b) reduces to \b. b.
    let local_a = Local::new(1, "a".to_string());
    let local_b = Local::new(2, "b".to_string());
    let identity = Abstr::new(local_a.clone(), AnyTerm::Local(local_a));
    let argument = Abstr::new(local_b.clone(), AnyTerm::Local(local_b));
    let query = FreeTerm::Application(Appl::new(
        AnyTerm::Abstraction(identity),
        AnyTerm::Abstraction(argument.clone()),
    ));
    assert_eq!(resolve(query).unwrap(), ProductTerm::Abstraction(argument));
}

#[test]
fn beta_reduction_leaves_other_locals_alone() {
    // (\a. \b. a b) (\c. c) reduces to \b. (\c. c) b: the bound b stays.
    let local_a = Local::new(1, "a".to_string());
    let local_b = Local::new(2, "b".to_string());
    let local_c = Local::new(3, "c".to_string());
    let inner = Abstr::new(
        local_b.clone(),
        AnyTerm::Application(Appl::new(
            AnyTerm::Local(local_a.clone()),
            AnyTerm::Local(local_b.clone()),
        )),
    );
    let function = Abstr::new(local_a, AnyTerm::Abstraction(inner));
    let argument = Abstr::new(local_c.clone(), AnyTerm::Local(local_c.clone()));
    let query = FreeTerm::Application(Appl::new(
        AnyTerm::Abstraction(function),
        AnyTerm::Abstraction(argument.clone()),
    ));
    let expected = Abstr::new(
        local_b.clone(),
        AnyTerm::Application(Appl::new(
            AnyTerm::Abstraction(argument),
            AnyTerm::Local(local_b),
        )),
    );
    assert_eq!(resolve(query).unwrap(), ProductTerm::Abstraction(expected));
}

#[test]
fn global_unfolding_is_transparent() {
    // Applying G, whose declaration body is the abstraction L, comes to the
    // same product as applying L directly.
    let local_x = Local::new(10, "x".to_string());
    let local_y = Local::new(11, "y".to_string());
    let l_abstr = Abstr::new(
        local_x.clone(),
        AnyTerm::Abstraction(Abstr::new(local_y, AnyTerm::Local(local_x))),
    );
    let decl = Decl::new("G".to_string(), FreeTerm::Abstraction(l_abstr.clone()));
    let local_z = Local::new(40, "z".to_string());
    let argument = Abstr::new(local_z.clone(), AnyTerm::Local(local_z));

    let through_global = resolve(FreeTerm::Application(Appl::new(
        AnyTerm::Global(GlobalRef::new(decl)),
        AnyTerm::Abstraction(argument.clone()),
    )))
    .unwrap();
    let direct = resolve(FreeTerm::Application(Appl::new(
        AnyTerm::Abstraction(l_abstr),
        AnyTerm::Abstraction(argument),
    )))
    .unwrap();
    assert_eq!(through_global, direct);
}

fn global_chain(depth: usize) -> GlobalRef {
    // A chain of `depth` global indirections named D over one abstraction.
    let local = Local::new(1, "a".to_string());
    let bottom = Abstr::new(local.clone(), AnyTerm::Local(local));
    let mut decl = Decl::new("D".to_string(), FreeTerm::Abstraction(bottom));
    for _ in 0..depth {
        decl = Decl::new("D".to_string(), FreeTerm::Global(GlobalRef::new(decl)));
    }
    GlobalRef::new(decl)
}

#[test]
fn unfolding_within_the_expansion_bound_succeeds() {
    // 99 indirections plus the narrowing of the head global itself stay
    // within the bound of 100 expansions.
    let result = expand_global_recursive(ProductTerm::Global(global_chain(99)));
    let local = Local::new(1, "a".to_string());
    assert_eq!(result.unwrap(), Abstr::new(local.clone(), AnyTerm::Local(local)));
}

#[test]
fn unfolding_past_the_expansion_bound_reports_a_cycle() {
    let result = expand_global_recursive(ProductTerm::Global(global_chain(100)));
    assert_eq!(result.unwrap_err(), ResolveError::DeclarationCycle);
}

#[test]
fn cyclic_chain_fails_resolution_with_the_cycle_error() {
    let local = Local::new(2, "b".to_string());
    let argument = Abstr::new(local.clone(), AnyTerm::Local(local));
    let query = FreeTerm::Application(Appl::new(
        AnyTerm::Global(global_chain(200)),
        AnyTerm::Abstraction(argument),
    ));
    assert_eq!(resolve(query).unwrap_err(), ResolveError::DeclarationCycle);
}

#[test]
fn boolean_logic_with_globals() {
    // T = \x. \y. x, F = \x. \y. y, OR = \p. \q. (p p) q: resolving
    // (OR T) F comes back as the global reference to T, unopened, since a
    // global at the head of the answer is already weak-head normal.
    let g_true = GlobalRef::new(decl_true());
    let g_false = GlobalRef::new(decl_false());
    let g_or = GlobalRef::new(decl_or());
    let query = FreeTerm::Application(Appl::new(
        AnyTerm::Application(Appl::new(
            AnyTerm::Global(g_or),
            AnyTerm::Global(g_true.clone()),
        )),
        AnyTerm::Global(g_false),
    ));
    assert_eq!(resolve(query).unwrap(), ProductTerm::Global(g_true));
}

#[test]
fn boolean_logic_with_abstractions() {
    // The same scenario with the declarations' abstractions applied
    // directly ends in T's own abstraction.
    let t_abstr = match decl_true().term {
        FreeTerm::Abstraction(ab) => ab,
        _ => unreachable!(),
    };
    let f_abstr = match decl_false().term {
        FreeTerm::Abstraction(ab) => ab,
        _ => unreachable!(),
    };
    let or_abstr = match decl_or().term {
        FreeTerm::Abstraction(ab) => ab,
        _ => unreachable!(),
    };
    let query = FreeTerm::Application(Appl::new(
        AnyTerm::Application(Appl::new(
            AnyTerm::Abstraction(or_abstr),
            AnyTerm::Abstraction(t_abstr.clone()),
        )),
        AnyTerm::Abstraction(f_abstr),
    ));
    assert_eq!(resolve(query).unwrap(), ProductTerm::Abstraction(t_abstr));
}

#[test]
fn malformed_declaration_is_reported_by_name() {
    // D's body is the application of two other globals; unfolding D must
    // fail with the malformed-declaration error, not a wrong answer.
    let a_decl = decl_true();
    let b_decl = decl_false();
    let d_decl = Decl::new(
        "D".to_string(),
        FreeTerm::Application(Appl::new(
            AnyTerm::Global(GlobalRef::new(a_decl)),
            AnyTerm::Global(GlobalRef::new(b_decl)),
        )),
    );
    let local = Local::new(50, "z".to_string());
    let argument = Abstr::new(local.clone(), AnyTerm::Local(local));
    let query = FreeTerm::Application(Appl::new(
        AnyTerm::Global(GlobalRef::new(d_decl)),
        AnyTerm::Abstraction(argument),
    ));
    assert_eq!(
        resolve(query).unwrap_err(),
        ResolveError::MalformedDeclaration { declaration: "D".to_string() }
    );
}

#[test]
fn unbound_local_is_an_internal_inconsistency() {
    // Applying the identity to a dangling local breaks the closedness
    // invariant; resolution reports the internal error rather than an
    // answer.
    let local_a = Local::new(1, "a".to_string());
    let identity = Abstr::new(local_a.clone(), AnyTerm::Local(local_a));
    let query = FreeTerm::Application(Appl::new(
        AnyTerm::Abstraction(identity),
        AnyTerm::Local(Local::new(99, "dangling".to_string())),
    ));
    assert_eq!(resolve(query).unwrap_err(), ResolveError::InternalInconsistency);
}

#[test]
fn errors_describe_themselves() {
    let malformed = ResolveError::MalformedDeclaration { declaration: "D".to_string() };
    assert_eq!(malformed.describe(), "declaration body is an application");
    assert_eq!(
        ResolveError::DeclarationCycle.describe(),
        "expansion limit reached, declaration reference cycle"
    );
    assert_eq!(
        ResolveError::InternalInconsistency.describe(),
        "internal consistency violation, unbound local"
    );
}
