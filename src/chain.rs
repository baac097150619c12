use vstd::prelude::*;

use crate::walker::ErrorIterator;

verus! {

/// An error that may have been caused by another error of the same type.
///
/// Implementors report the cause with `cause`. In specifications the cause is
/// `cause_of`, and `depth` is a measure that strictly shrinks along every
/// cause link, so that no chain of causes has a cycle. Both default to an
/// error without a cause; an implementation verified by Verus that reports a
/// cause overrides them, and one that is not verified is trusted to report
/// causes that end.
pub trait ChainedError: Sized {
    /// The error that caused this one, if any.
    open spec fn cause_of(&self) -> Option<Self> {
        None
    }

    /// A measure of how far this error lies from the end of its chain.
    open spec fn depth(&self) -> nat {
        0
    }

    /// The error that caused this one, borrowed from it; it lies strictly
    /// closer to the end of the chain.
    fn cause(&self) -> (r: Option<&Self>)
        ensures
            match r {
                Some(c) => self.cause_of() == Some(*c) && c.depth() < self.depth(),
                None => self.cause_of() is None,
            },
    ;
}

/// Walkers over the chain of causes, for every [`ChainedError`].
///
/// The walkers only observe the errors; they never change them, and each call
/// hands out a fresh walker with a position of its own.
pub trait ErrorExt: ChainedError {
    /// A walker over this error followed by each of its causes in turn.
    fn sources(&self) -> (r: ErrorIterator<'_, Self>)
        ensures
            r@ == chain(*self),
    {
        ErrorIterator::starting_at(Some(self))
    }

    /// A walker over the causes of this error, leaving the error itself out.
    fn causes(&self) -> (r: ErrorIterator<'_, Self>)
        ensures
            r@ == chain(*self).drop_first(),
    {
        let cause = self.cause();
        proof {
            lemma_chain_step(*self);
        }
        ErrorIterator::starting_at(cause)
    }
}

impl<T: ChainedError> ErrorExt for T {
}

/// The chain that starts at `e`: `e`, its cause, that error's cause, and so
/// on, up to the first error that reports no cause.
pub open spec fn chain<E: ChainedError>(e: E) -> Seq<E>
    decreases e.depth(),
{
    match e.cause_of() {
        Some(c) => if c.depth() < e.depth() {
            seq![e] + chain(c)
        } else {
            seq![e]
        },
        None => seq![e],
    }
}

/// The chain that starts at `start`, or nothing where there is no start.
pub open spec fn chain_from<E: ChainedError>(start: Option<E>) -> Seq<E> {
    match start {
        Some(e) => chain(e),
        None => Seq::empty(),
    }
}

/// The cause of `e`, if any, lies strictly closer to the end of the chain.
pub open spec fn linked<E: ChainedError>(e: E) -> bool {
    e.cause_of() is Some ==> e.cause_of()->0.depth() < e.depth()
}

/// No cause link along the chain at `e` fails to shrink the depth: the chain
/// has no cycle.
pub open spec fn acyclic<E: ChainedError>(e: E) -> bool
    decreases e.depth(),
{
    linked(e) && match e.cause_of() {
        Some(c) => if c.depth() < e.depth() {
            acyclic(c)
        } else {
            false
        },
        None => true,
    }
}

/// Where the cause of `e` lies closer to the end, the chain at `e` is `e`
/// followed by the chain at its cause.
pub proof fn lemma_chain_step<E: ChainedError>(e: E)
    requires
        linked(e),
    ensures
        chain(e) == seq![e] + chain_from(e.cause_of()),
{
    if e.cause_of() is None {
        assert(seq![e] + Seq::<E>::empty() =~= seq![e]);
    }
}

} // verus!
