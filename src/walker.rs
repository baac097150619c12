use vstd::prelude::*;

use crate::chain::{chain, lemma_chain_step, ChainedError};

verus! {

/// A lazy walker along a chain of causes.
///
/// It holds the next error to hand out, borrowed from the error the walk
/// started at; its view is the sequence of errors it has yet to hand out.
pub struct ErrorIterator<'a, E: ChainedError> {
    inner: Option<&'a E>,
}

/// The errors still to come when `next` is the next error to hand out.
pub open spec fn pending<E: ChainedError>(next: Option<&E>) -> Seq<E> {
    match next {
        Some(e) => chain(*e),
        None => Seq::empty(),
    }
}

/// What one advance leaves of the errors still to come: all but the first,
/// and nothing once nothing is left.
pub open spec fn step<A>(v: Seq<A>) -> Seq<A> {
    if v.len() == 0 {
        v
    } else {
        v.drop_first()
    }
}

/// What `k` advances in a row leave of `v`.
pub open spec fn advanced<A>(v: Seq<A>, k: nat) -> Seq<A>
    decreases k,
{
    if k == 0 {
        v
    } else {
        step(advanced(v, (k - 1) as nat))
    }
}

/// The length hint for `n` errors still to come: `n` both ways where it fits
/// in a `usize`, else the largest `usize` and no upper bound.
pub open spec fn hint_of(n: nat) -> (usize, Option<usize>) {
    if n <= usize::MAX {
        (n as usize, Some(n as usize))
    } else {
        (usize::MAX, None)
    }
}

impl<'a, E: ChainedError> View for ErrorIterator<'a, E> {
    type V = Seq<E>;

    closed spec fn view(&self) -> Seq<E> {
        pending(self.inner)
    }
}

impl<'a, E: ChainedError> ErrorIterator<'a, E> {
    /// A walker whose next error is `start`.
    pub(crate) fn starting_at(start: Option<&'a E>) -> (r: Self)
        ensures
            r@ == pending(start),
    {
        ErrorIterator { inner: start }
    }

    /// Hands out the next error of the chain and moves on to its cause; once
    /// the chain is used up, hands out nothing and stays as it is.
    pub fn next(&mut self) -> (r: Option<&'a E>)
        ensures
            final(self)@ == step(old(self)@),
            match r {
                Some(e) => old(self)@.len() > 0 && *e == old(self)@[0],
                None => old(self)@.len() == 0,
            },
    {
        match self.inner {
            Some(error) => {
                self.inner = error.cause();
                proof {
                    lemma_chain_step(*error);
                }
                Some(error)
            },
            None => None,
        }
    }

    /// How many errors are still to come, counted by walking the rest of the
    /// chain without advancing.
    pub fn size_hint(&self) -> (r: (usize, Option<usize>))
        ensures
            r == hint_of(self@.len()),
    {
        let mut count: usize = 0;
        let mut next = self.inner;
        loop
            invariant
                count + pending(next).len() == self@.len(),
            decreases pending(next).len(),
        {
            match next {
                Some(error) => {
                    let cause = error.cause();
                    proof {
                        lemma_chain_step(*error);
                    }
                    if count == usize::MAX {
                        return (count, None);
                    }
                    count = count + 1;
                    next = cause;
                },
                None => {
                    return (count, Some(count));
                },
            }
        }
    }
}

} // verus!
