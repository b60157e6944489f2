//! Shape-narrowing and widening round trips between the three term shapes.

use whnf::Abstr;
use whnf::AnyTerm;
use whnf::Appl;
use whnf::Decl;
use whnf::FreeTerm;
use whnf::GlobalRef;
use whnf::Local;
use whnf::ProductTerm;

fn sample_global() -> GlobalRef {
    let local = Local::new(1, "a".to_string());
    GlobalRef::new(Decl::new(
        "G".to_string(),
        FreeTerm::Abstraction(Abstr::new(local.clone(), AnyTerm::Local(local))),
    ))
}

fn sample_abstr() -> Abstr {
    let local = Local::new(2, "b".to_string());
    Abstr::new(local.clone(), AnyTerm::Local(local))
}

fn sample_appl() -> Appl {
    Appl::new(
        AnyTerm::Abstraction(sample_abstr()),
        AnyTerm::Global(sample_global()),
    )
}

#[test]
fn product_round_trips_through_free() {
    for product in [
        ProductTerm::Global(sample_global()),
        ProductTerm::Abstraction(sample_abstr()),
    ] {
        let copy = match &product {
            ProductTerm::Global(g) => ProductTerm::Global(g.clone()),
            ProductTerm::Abstraction(ab) => ProductTerm::Abstraction(ab.clone()),
        };
        assert_eq!(ProductTerm::from_free(copy.into_free()).unwrap(), product);
    }
}

#[test]
fn product_round_trips_through_any() {
    let product = ProductTerm::Global(sample_global());
    let widened = ProductTerm::Global(sample_global()).into_free().into_any();
    assert_eq!(ProductTerm::from_any(widened).unwrap(), product);
}

#[test]
fn free_round_trips_through_any() {
    for free in [
        FreeTerm::Global(sample_global()),
        FreeTerm::Abstraction(sample_abstr()),
        FreeTerm::Application(sample_appl()),
    ] {
        let copy = free.clone();
        assert_eq!(FreeTerm::from_any(copy.into_any()).unwrap(), free);
    }
}

#[test]
fn non_application_free_narrows_to_product_and_back() {
    for free in [
        FreeTerm::Global(sample_global()),
        FreeTerm::Abstraction(sample_abstr()),
    ] {
        let product = ProductTerm::from_free(free.clone()).unwrap();
        assert_eq!(product.into_free(), free);
    }
}

#[test]
fn narrowing_an_application_to_product_fails() {
    assert_eq!(
        ProductTerm::from_free(FreeTerm::Application(sample_appl())),
        None
    );
    assert_eq!(
        ProductTerm::from_any(AnyTerm::Application(sample_appl())),
        None
    );
}

#[test]
fn narrowing_a_bare_local_fails() {
    let local = Local::new(7, "loose".to_string());
    assert_eq!(FreeTerm::from_any(AnyTerm::Local(local.clone())), None);
    assert_eq!(ProductTerm::from_any(AnyTerm::Local(local)), None);
}

#[test]
fn constructors_store_their_parts() {
    let local = Local::new(5, "v".to_string());
    assert_eq!(local.id, 5);
    assert_eq!(local.name, "v");

    let abstr = Abstr::new(local.clone(), AnyTerm::Local(local.clone()));
    assert_eq!(abstr.parameter, local);
    assert_eq!(*abstr.body, AnyTerm::Local(local.clone()));

    let appl = Appl::new(AnyTerm::Local(local.clone()), AnyTerm::Local(local.clone()));
    assert_eq!(*appl.function, AnyTerm::Local(local.clone()));
    assert_eq!(*appl.argument, AnyTerm::Local(local.clone()));

    let decl = Decl::new(
        "N".to_string(),
        FreeTerm::Abstraction(Abstr::new(local.clone(), AnyTerm::Local(local))),
    );
    assert_eq!(decl.name, "N");
    let global = GlobalRef::new(decl.clone());
    assert_eq!(*global.value, decl);
}

#[test]
fn beta_reduce_rewrites_exactly_the_matching_local() {
    let parameter = Local::new(1, "p".to_string());
    let other = Local::new(2, "q".to_string());
    let mut body = AnyTerm::Application(Appl::new(
        AnyTerm::Local(parameter.clone()),
        AnyTerm::Local(other.clone()),
    ));
    let argument = AnyTerm::Global(sample_global());
    whnf::beta_reduce(&parameter, &mut body, &argument);
    assert_eq!(
        body,
        AnyTerm::Application(Appl::new(argument, AnyTerm::Local(other)))
    );
}
