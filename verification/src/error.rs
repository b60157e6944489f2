//! The error taxonomy of resolution. All three kinds are terminal for the
//! resolution call that raises them: there is no partial result.

use vstd::prelude::*;

verus! {

/// Why a resolution failed.
#[derive(Debug, PartialEq, Eq)]
pub enum ResolveError {
    /// A declaration's body, once it needed expanding, was an application
    /// rather than a global or an abstraction. The field names the offending
    /// declaration.
    MalformedDeclaration { declaration: String },
    /// Global unfolding exceeded its expansion bound without reaching an
    /// abstraction: a declaration reference chain that never bottoms out.
    DeclarationCycle,
    /// A narrowing that resolution's own invariants say must succeed failed
    /// anyway: a bare local surfaced where a free term was owed, which means
    /// the query was not closed or binder ids were not unique.
    InternalInconsistency,
}

impl ResolveError {
    /// A short machine-independent description, for display by callers.
    pub fn describe(&self) -> (r: &'static str)
        ensures
            self is MalformedDeclaration ==> r@ == "declaration body is an application"@,
            self is DeclarationCycle ==> r@ == "expansion limit reached, declaration reference cycle"@,
            self is InternalInconsistency ==> r@ == "internal consistency violation, unbound local"@,
    {
        match self {
            ResolveError::MalformedDeclaration { .. } => "declaration body is an application",
            ResolveError::DeclarationCycle => "expansion limit reached, declaration reference cycle",
            ResolveError::InternalInconsistency => "internal consistency violation, unbound local",
        }
    }
}

} // verus!
