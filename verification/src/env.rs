//! What a contract call sees of its host: addresses, the ledger it runs in, and
//! the list of requests that the call leaves for the host to carry out.

use vstd::prelude::*;

verus! {

/// Thirty-two bytes as two big-endian halves: a public key, a contract id or a
/// code hash.
#[derive(Clone, Copy, Debug, PartialEq, Eq, Structural)]
pub struct Bytes32 {
    pub hi: u128,
    pub lo: u128,
}

/// An address on the ledger.
#[derive(Clone, Copy, Debug, PartialEq, Eq, Structural)]
pub enum Address {
    Account(Bytes32),
    Contract(Bytes32),
}

/// The ledger in which a call runs.
#[derive(Clone, Copy, Debug, PartialEq, Eq, Structural)]
pub struct Ledger {
    /// Sequence number of the ledger.
    pub sequence: u32,
    /// Close time in seconds.
    pub timestamp: u64,
    /// The address of the contract that is being called.
    pub contract: Address,
}

/// The ledger of a call together with the requests, of type `F`, that the call
/// has made of its host so far. The host carries them out in order; if one
/// fails, or the call itself returns an error, it undoes the whole call.
pub struct Env<F> {
    pub ledger: Ledger,
    pub effects: Vec<F>,
}

impl<F> Env<F> {
    /// A call in `ledger` that has asked for nothing yet.
    pub fn new(ledger: Ledger) -> (env: Self)
        ensures
            env.ledger == ledger,
            env.effects@ == Seq::<F>::empty(),
    {
        Env { ledger, effects: Vec::new() }
    }

    /// `self` is `pre` after exactly the requests `fx`, in this order.
    pub open spec fn adds(self, pre: Self, fx: Seq<F>) -> bool {
        &&& self.ledger == pre.ledger
        &&& self.effects@ == pre.effects@ + fx
    }

    /// Appends a request.
    pub fn emit(&mut self, f: F)
        ensures
            final(self).adds(*old(self), seq![f]),
    {
        self.effects.push(f);
        assert(self.effects@ =~= old(self).effects@ + seq![f]);
    }
}

/// A call keeps the requests made before it, adds its own behind them, and stays in its
/// ledger.
pub proof fn law_requests_are_added_in_order<F>(pre: Env<F>, post: Env<F>, fx: Seq<F>)
    ensures
        post.adds(pre, fx) <==> {
            &&& post.ledger == pre.ledger
            &&& post.effects@.len() == pre.effects@.len() + fx.len()
            &&& forall|i: int| 0 <= i < pre.effects@.len() ==> post.effects@[i] == pre.effects@[i]
            &&& forall|i: int|
                0 <= i < fx.len() ==> post.effects@[pre.effects@.len() + i] == #[trigger] fx[i]
        },
{
    let n = pre.effects@.len();
    if post.adds(pre, fx) {
        assert forall|i: int| 0 <= i < fx.len() implies post.effects@[n + i]
            == #[trigger] fx[i] by {}
    } else if post.ledger == pre.ledger && post.effects@.len() == n + fx.len() {
        if (forall|i: int| 0 <= i < n ==> post.effects@[i] == pre.effects@[i]) && (forall|i: int|
            0 <= i < fx.len() ==> post.effects@[n + i] == #[trigger] fx[i]) {
            assert forall|i: int| 0 <= i < post.effects@.len() implies post.effects@[i] == (
            pre.effects@ + fx)[i] by {
                if i >= n {
                    assert(post.effects@[n + (i - n)] == fx[i - n]);
                }
            }
            assert(post.effects@ =~= pre.effects@ + fx);
        }
    }
}

} // verus!
