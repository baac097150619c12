use vstd::prelude::*;

use crate::chain::{acyclic, chain, chain_from, lemma_chain_step, ChainedError};
use crate::walker::{advanced, hint_of, step};

verus! {

/// For an error whose chain of causes has no cycle, the chain is exactly the
/// linked errors: it starts at the error, each element is the cause of the one
/// before it, and the last has no cause. Leaving the error out, as a walk over
/// its causes does, leaves one element fewer.
pub proof fn lemma_chain_is_linked<E: ChainedError>(e: E)
    requires
        acyclic(e),
    ensures
        chain(e).len() >= 1,
        chain(e)[0] == e,
        forall|i: int|
            0 <= i < chain(e).len() - 1 ==> (#[trigger] chain(e)[i]).cause_of() == Some(
                chain(e)[i + 1],
            ),
        chain(e).last().cause_of() is None,
        chain_from(e.cause_of()) == chain(e).drop_first(),
        chain_from(e.cause_of()).len() == chain(e).len() - 1,
    decreases e.depth(),
{
    lemma_chain_step(e);
    match e.cause_of() {
        Some(c) => {
            lemma_chain_is_linked(c);
            let s = chain(e);
            assert forall|i: int| 0 <= i < s.len() - 1 implies (#[trigger] s[i]).cause_of() == Some(
                s[i + 1],
            ) by {
                if i > 0 {
                    assert(s[i] == chain(c)[i - 1]);
                    assert(s[i + 1] == chain(c)[i]);
                }
            }
            assert(chain(e).drop_first() =~= chain(c));
        },
        None => {
            assert(chain(e).drop_first() =~= Seq::<E>::empty());
        },
    }
}

/// Advancing a walk that has nothing left leaves nothing, however often it is
/// done.
pub proof fn lemma_exhaustion_is_stable<A>(v: Seq<A>, k: nat)
    requires
        v.len() == 0,
    ensures
        advanced(v, k) == v,
    decreases k,
{
    if k > 0 {
        lemma_exhaustion_is_stable(v, (k - 1) as nat);
    }
}

/// After `k` advances a walk has handed out its first `k` elements in order
/// and has the rest still to come, so its length hint has counted down by `k`;
/// the hint before any advance is the number of advances that hand out an
/// element. Past its length the walk has nothing left.
pub proof fn lemma_hint_counts_down<A>(v: Seq<A>, k: nat)
    ensures
        k <= v.len() ==> advanced(v, k) == v.skip(k as int),
        k <= v.len() ==> hint_of(advanced(v, k).len()) == hint_of((v.len() - k) as nat),
        k < v.len() ==> advanced(v, k).len() > 0 && advanced(v, k)[0] == v[k as int],
        k >= v.len() ==> advanced(v, k).len() == 0,
    decreases k,
{
    if k == 0 {
        assert(v.skip(0) =~= v);
    } else {
        lemma_hint_counts_down(v, (k - 1) as nat);
        if k <= v.len() {
            assert(step(v.skip(k - 1)) =~= v.skip(k as int));
        }
    }
}

} // verus!
