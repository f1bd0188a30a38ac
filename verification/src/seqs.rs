//! Folding a list of fallible steps: the results of the steps in order,
//! or the first failure.

use vstd::prelude::*;

verus! {

/// The results of `f(0), ..., f(n - 1)` in order, or the first failure among them.
pub open spec fn collect_upto<A, E>(f: spec_fn(int) -> Result<A, E>, n: nat) -> Result<Seq<A>, E>
    decreases n,
{
    if n == 0 {
        Ok(Seq::empty())
    } else {
        match collect_upto(f, (n - 1) as nat) {
            Err(e) => Err(e),
            Ok(acc) => match f(n - 1) {
                Ok(a) => Ok(acc.push(a)),
                Err(e) => Err(e),
            },
        }
    }
}

/// A failure among the first `n` steps is the failure of every longer run.
pub proof fn lemma_collect_err<A, E>(f: spec_fn(int) -> Result<A, E>, n: nat, m: nat)
    requires
        n <= m,
        collect_upto(f, n) is Err,
    ensures
        collect_upto(f, m) == collect_upto(f, n),
    decreases m - n,
{
    if n < m {
        lemma_collect_err(f, n, (m - 1) as nat);
    }
}

/// A successful run has one result per step.
pub proof fn lemma_collect_len<A, E>(f: spec_fn(int) -> Result<A, E>, n: nat)
    requires
        collect_upto(f, n) is Ok,
    ensures
        collect_upto(f, n)->Ok_0.len() == n,
        forall|i: int| 0 <= i < n ==> f(i) == Ok::<A, E>(#[trigger] collect_upto(f, n)->Ok_0[i]),
    decreases n,
{
    if n > 0 {
        lemma_collect_len(f, (n - 1) as nat);
    }
}

} // verus!
