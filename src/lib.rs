//! Walking an error's chain of causes.
//!
//! An error type opts in by implementing [`ChainedError`]: it reports the
//! error that caused it, if any. [`ErrorExt`] then hands out lazy walkers over
//! the chain, from the error itself down to its deepest cause
//! ([`ErrorExt::sources`]) or over the causes alone ([`ErrorExt::causes`]).
//! A walker's view is the sequence of errors it has yet to hand out.

mod chain;
mod laws;
mod walker;

pub use chain::{acyclic, chain, chain_from, lemma_chain_step, linked, ChainedError, ErrorExt};
pub use laws::{lemma_chain_is_linked, lemma_exhaustion_is_stable, lemma_hint_counts_down};
pub use walker::{advanced, hint_of, pending, step, ErrorIterator};
