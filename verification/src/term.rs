//! The term model: the four term alternatives and the three shape
//! refinements (any, free, product), with constructors, shape-narrowing
//! conversions, and widening conversions.

use vstd::prelude::*;

verus! {

/// An occurrence of a bound variable: a globally unique identifier together
/// with a display name. Identifiers are unique across every binder of the
/// whole program, which is what makes id-equality substitution capture-safe.
#[derive(Debug, PartialEq, Eq)]
pub struct Local {
    pub id: usize,
    pub name: String,
}

/// A named, immutable, top-level declaration: `(name, term)`. Its body is a
/// free (closed) term.
#[derive(Debug, PartialEq, Eq)]
pub struct Decl {
    pub name: String,
    pub term: FreeTerm,
}

/// A reference to a declaration, opaque until explicitly unfolded.
#[derive(Debug, PartialEq, Eq)]
pub struct GlobalRef {
    pub value: Box<Decl>,
}

/// A single-argument binder `(parameter, body)`.
#[derive(Debug, PartialEq, Eq)]
pub struct Abstr {
    pub parameter: Local,
    pub body: Box<AnyTerm>,
}

/// A term applying a function term to an argument term.
#[derive(Debug, PartialEq, Eq)]
pub struct Appl {
    pub function: Box<AnyTerm>,
    pub argument: Box<AnyTerm>,
}

/// An unrestricted term: any of the four alternatives may appear.
#[derive(Debug, PartialEq, Eq)]
pub enum AnyTerm {
    Global(GlobalRef),
    Abstraction(Abstr),
    Application(Appl),
    Local(Local),
}

/// A free (closed) term: no bare local at its head. Declaration bodies and
/// resolution queries have this shape.
#[derive(Debug, PartialEq, Eq)]
pub enum FreeTerm {
    Global(GlobalRef),
    Abstraction(Abstr),
    Application(Appl),
}

/// A product (weak-head-normal) term: a global or an abstraction, never an
/// application. The result shape of resolution.
#[derive(Debug, PartialEq, Eq)]
pub enum ProductTerm {
    Global(GlobalRef),
    Abstraction(Abstr),
}

impl Local {
    pub fn new(id: usize, name: String) -> (r: Local)
        ensures
            r == (Local { id, name }),
    {
        Local { id, name }
    }
}

impl Decl {
    pub fn new(name: String, term: FreeTerm) -> (r: Decl)
        ensures
            r == (Decl { name, term }),
    {
        Decl { name, term }
    }
}

impl GlobalRef {
    pub fn new(decl: Decl) -> (r: GlobalRef)
        ensures
            *r.value == decl,
    {
        GlobalRef { value: Box::new(decl) }
    }
}

impl Abstr {
    pub fn new(parameter: Local, body: AnyTerm) -> (r: Abstr)
        ensures
            r.parameter == parameter,
            *r.body == body,
    {
        Abstr { parameter, body: Box::new(body) }
    }
}

impl Appl {
    pub fn new(function: AnyTerm, argument: AnyTerm) -> (r: Appl)
        ensures
            *r.function == function,
            *r.argument == argument,
    {
        Appl { function: Box::new(function), argument: Box::new(argument) }
    }
}

impl FreeTerm {
    /// Widening at the specification level: every free term is a valid
    /// unrestricted term.
    pub open spec fn spec_as_any(self) -> AnyTerm {
        match self {
            FreeTerm::Global(g) => AnyTerm::Global(g),
            FreeTerm::Abstraction(ab) => AnyTerm::Abstraction(ab),
            FreeTerm::Application(ap) => AnyTerm::Application(ap),
        }
    }

    /// Widening conversion: every free term is a valid unrestricted term.
    pub fn into_any(self) -> (r: AnyTerm)
        ensures
            r == self.spec_as_any(),
    {
        match self {
            FreeTerm::Global(g) => AnyTerm::Global(g),
            FreeTerm::Abstraction(ab) => AnyTerm::Abstraction(ab),
            FreeTerm::Application(ap) => AnyTerm::Application(ap),
        }
    }

    /// What `FreeTerm::from_any` returns: `None` exactly on a bare local.
    pub open spec fn spec_from_any(term: AnyTerm) -> Option<FreeTerm> {
        match term {
            AnyTerm::Global(g) => Some(FreeTerm::Global(g)),
            AnyTerm::Abstraction(ab) => Some(FreeTerm::Abstraction(ab)),
            AnyTerm::Application(ap) => Some(FreeTerm::Application(ap)),
            AnyTerm::Local(_) => None,
        }
    }

    /// Narrowing conversion: reinterpret an unrestricted term as a free
    /// term. Fails exactly when the term is a bare local.
    pub fn from_any(term: AnyTerm) -> (r: Option<FreeTerm>)
        ensures
            r == FreeTerm::spec_from_any(term),
    {
        match term {
            AnyTerm::Global(g) => Some(FreeTerm::Global(g)),
            AnyTerm::Abstraction(ab) => Some(FreeTerm::Abstraction(ab)),
            AnyTerm::Application(ap) => Some(FreeTerm::Application(ap)),
            AnyTerm::Local(_) => None,
        }
    }
}

impl ProductTerm {
    /// Widening at the specification level: every product term is a valid
    /// free term.
    pub open spec fn spec_as_free(self) -> FreeTerm {
        match self {
            ProductTerm::Global(g) => FreeTerm::Global(g),
            ProductTerm::Abstraction(ab) => FreeTerm::Abstraction(ab),
        }
    }

    /// Widening at the specification level, through to an unrestricted term.
    pub open spec fn spec_as_any(self) -> AnyTerm {
        self.spec_as_free().spec_as_any()
    }

    /// Widening conversion: every product term is a valid free term.
    pub fn into_free(self) -> (r: FreeTerm)
        ensures
            r == self.spec_as_free(),
    {
        match self {
            ProductTerm::Global(g) => FreeTerm::Global(g),
            ProductTerm::Abstraction(ab) => FreeTerm::Abstraction(ab),
        }
    }

    /// What `ProductTerm::from_any` returns: `None` exactly on an
    /// application or a bare local.
    pub open spec fn spec_from_any(term: AnyTerm) -> Option<ProductTerm> {
        match term {
            AnyTerm::Global(g) => Some(ProductTerm::Global(g)),
            AnyTerm::Abstraction(ab) => Some(ProductTerm::Abstraction(ab)),
            AnyTerm::Application(_) => None,
            AnyTerm::Local(_) => None,
        }
    }

    /// Narrowing conversion: reinterpret an unrestricted term as a product
    /// term. Fails exactly when the term is an application or a bare local.
    pub fn from_any(term: AnyTerm) -> (r: Option<ProductTerm>)
        ensures
            r == ProductTerm::spec_from_any(term),
    {
        match term {
            AnyTerm::Global(g) => Some(ProductTerm::Global(g)),
            AnyTerm::Abstraction(ab) => Some(ProductTerm::Abstraction(ab)),
            AnyTerm::Application(_) => None,
            AnyTerm::Local(_) => None,
        }
    }

    /// What `ProductTerm::from_free` returns: `None` exactly on an
    /// application.
    pub open spec fn spec_from_free(term: FreeTerm) -> Option<ProductTerm> {
        match term {
            FreeTerm::Global(g) => Some(ProductTerm::Global(g)),
            FreeTerm::Abstraction(ab) => Some(ProductTerm::Abstraction(ab)),
            FreeTerm::Application(_) => None,
        }
    }

    /// Narrowing conversion: reinterpret a free term as a product term.
    /// Fails exactly when the term is an application.
    pub fn from_free(term: FreeTerm) -> (r: Option<ProductTerm>)
        ensures
            r == ProductTerm::spec_from_free(term),
    {
        match term {
            FreeTerm::Global(g) => Some(ProductTerm::Global(g)),
            FreeTerm::Abstraction(ab) => Some(ProductTerm::Abstraction(ab)),
            FreeTerm::Application(_) => None,
        }
    }
}

fn copy_local(t: &Local) -> (r: Local)
    ensures
        r == *t,
{
    Local { id: t.id, name: t.name.clone() }
}

fn copy_any(t: &AnyTerm) -> (r: AnyTerm)
    ensures
        r == *t,
    decreases *t,
{
    match t {
        AnyTerm::Global(g) => AnyTerm::Global(copy_global(g)),
        AnyTerm::Abstraction(ab) => AnyTerm::Abstraction(copy_abstr(ab)),
        AnyTerm::Application(ap) => AnyTerm::Application(copy_appl(ap)),
        AnyTerm::Local(l) => AnyTerm::Local(copy_local(l)),
    }
}

fn copy_free(t: &FreeTerm) -> (r: FreeTerm)
    ensures
        r == *t,
    decreases *t,
{
    match t {
        FreeTerm::Global(g) => FreeTerm::Global(copy_global(g)),
        FreeTerm::Abstraction(ab) => FreeTerm::Abstraction(copy_abstr(ab)),
        FreeTerm::Application(ap) => FreeTerm::Application(copy_appl(ap)),
    }
}

fn copy_global(t: &GlobalRef) -> (r: GlobalRef)
    ensures
        r == *t,
    decreases *t,
{
    let decl = Decl { name: t.value.name.clone(), term: copy_free(&t.value.term) };
    GlobalRef { value: Box::new(decl) }
}

fn copy_abstr(t: &Abstr) -> (r: Abstr)
    ensures
        r == *t,
    decreases *t,
{
    Abstr { parameter: copy_local(&t.parameter), body: Box::new(copy_any(&t.body)) }
}

fn copy_appl(t: &Appl) -> (r: Appl)
    ensures
        r == *t,
    decreases *t,
{
    Appl { function: Box::new(copy_any(&t.function)), argument: Box::new(copy_any(&t.argument)) }
}

impl Clone for Local {
    fn clone(&self) -> (r: Local)
        ensures
            r == *self,
    {
        copy_local(self)
    }
}

impl Clone for Decl {
    fn clone(&self) -> (r: Decl)
        ensures
            r == *self,
    {
        Decl { name: self.name.clone(), term: copy_free(&self.term) }
    }
}

impl Clone for GlobalRef {
    fn clone(&self) -> (r: GlobalRef)
        ensures
            r == *self,
    {
        copy_global(self)
    }
}

impl Clone for Abstr {
    fn clone(&self) -> (r: Abstr)
        ensures
            r == *self,
    {
        copy_abstr(self)
    }
}

impl Clone for Appl {
    fn clone(&self) -> (r: Appl)
        ensures
            r == *self,
    {
        copy_appl(self)
    }
}

impl Clone for AnyTerm {
    fn clone(&self) -> (r: AnyTerm)
        ensures
            r == *self,
    {
        copy_any(self)
    }
}

impl Clone for FreeTerm {
    fn clone(&self) -> (r: FreeTerm)
        ensures
            r == *self,
    {
        copy_free(self)
    }
}

} // verus!
