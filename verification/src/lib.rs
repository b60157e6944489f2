//! A minimal core-calculus evaluator: closed terms of an untyped lambda
//! calculus extended with named top-level declarations ("globals"), reduced
//! to weak head normal form by substitution-based beta reduction and
//! on-demand unfolding of globals in head position.

pub mod beta;
pub mod error;
pub mod laws;
pub mod resolve;
pub mod term;
pub mod unfold;

pub use beta::beta_reduce;
pub use error::ResolveError;
pub use resolve::resolve;
pub use term::Abstr;
pub use term::AnyTerm;
pub use term::Appl;
pub use term::Decl;
pub use term::FreeTerm;
pub use term::GlobalRef;
pub use term::Local;
pub use term::ProductTerm;
pub use unfold::expand_global_recursive;
pub use unfold::EXPANSION_LIMIT;
