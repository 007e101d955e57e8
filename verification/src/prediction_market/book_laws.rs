//! What holds of the books in every state: bettors are listed once, stakes add up to
//! the totals, and what is held for refunds covers pool and fees.

use crate::env::Address;
use crate::prediction_market::betting::lemma_split;
use crate::prediction_market::model::{held_of, net_of};
use crate::prediction_market::types::{
    BetEntry, Category, Config, Market, MarketsView, MAX_BETS_PER_USER,
};
use vstd::prelude::*;

verus! {

impl MarketsView {
    /// Everyone in the index of a market's bettors has a bet on record.
    pub open spec fn listed_have_bets(self, market_id: u64) -> bool {
        forall|i: u32|
            i < self.bettors(market_id) ==> #[trigger] self.bettor_at.contains_key((market_id, i))
                && self.bets.contains_key((market_id, self.bettor_at[(market_id, i)]))
    }

    /// Nobody is in the index of a market's bettors twice.
    pub open spec fn listed_once(self, market_id: u64) -> bool {
        forall|i: u32, j: u32|
            i < j && j < self.bettors(market_id) ==> #[trigger] self.bettor_at[(market_id, i)]
                != #[trigger] self.bettor_at[(market_id, j)]
    }

    /// Is this user in the index of a market's bettors?
    pub open spec fn is_listed(self, market_id: u64, a: Address) -> bool {
        exists|i: u32| i < self.bettors(market_id) && #[trigger] self.bettor_at[(market_id, i)] == a
    }

    /// The index of a market's bettors names everyone who has a bet on record, each
    /// once, and nobody else.
    pub open spec fn listed(self, market_id: u64) -> bool {
        &&& self.listed_have_bets(market_id)
        &&& self.listed_once(market_id)
        &&& forall|a: Address| #[trigger]
            self.bets.contains_key((market_id, a)) ==> self.is_listed(market_id, a)
    }

    /// The stakes of the first `n` bettors of a market on one side.
    pub open spec fn stakes(self, market_id: u64, yes: bool, n: nat) -> int
        decreases n,
    {
        if n == 0 {
            0
        } else {
            self.stakes(market_id, yes, (n - 1) as nat) + match self.winner(
                market_id,
                yes,
                (n - 1) as u32,
            ) {
                Some(a) => self.bets[(market_id, a)].net as int,
                None => 0,
            }
        }
    }

    /// What is held for the first `n` bettors of a market.
    pub open spec fn refunds(self, market_id: u64, n: nat) -> int
        decreases n,
    {
        if n == 0 {
            0
        } else {
            self.refunds(market_id, (n - 1) as nat) + self.bets[(
                market_id,
                self.bettor_at[(market_id, (n - 1) as u32)],
            )].refundable
        }
    }

    /// A bet on market `m` as it can be: with a stake, within the number of bets, and
    /// refundable in full, unless it was refunded.
    pub open spec fn fair_bet(m: Market, e: BetEntry) -> bool {
        &&& 0 < e.net
        &&& 1 <= e.count <= MAX_BETS_PER_USER
        &&& e.claimed ==> m.resolved
        &&& e.net <= e.refundable <= e.gross || (m.cancelled && e.refundable == 0)
    }

    /// The books of one market are in order.
    pub open spec fn booked(self, market_id: u64) -> bool {
        let n = self.bettors(market_id);
        &&& self.listed(market_id)
        &&& match self.markets.get(market_id) {
            None => {
                &&& n == 0
                &&& self.fees_of(market_id) == 0
                &&& forall|a: Address| !#[trigger] self.payouts.contains_key((market_id, a))
            },
            Some(m) => {
                &&& m.id == market_id
                &&& 1 <= market_id <= self.market_count
                &&& m.bet_count == n
                &&& m.total_yes == self.stakes(market_id, true, n as nat)
                &&& m.total_no == self.stakes(market_id, false, n as nat)
                &&& !(m.resolved && m.cancelled)
                &&& !m.resolved && !m.cancelled ==> self.refunds(market_id, n as nat) == m.pool()
                    + self.fees_of(market_id)
                &&& forall|a: Address| #[trigger]
                    self.bets.contains_key((market_id, a)) ==> Self::fair_bet(
                        m,
                        self.bets[(market_id, a)],
                    )
                &&& forall|a: Address| #[trigger]
                    self.payouts.contains_key((market_id, a)) ==> m.resolved
                        && self.bets.contains_key((market_id, a)) && self.bets[(
                        market_id,
                        a,
                    )].is_yes == m.outcome
            },
        }
    }

    /// The books of all markets are in order.
    pub open spec fn sound(self) -> bool {
        forall|market_id: u64| #[trigger] self.booked(market_id)
    }
}

/// Two states hold the same books for a market.
pub open spec fn same_books(v: MarketsView, w: MarketsView, id: u64) -> bool {
    &&& v.bettors(id) == w.bettors(id)
    &&& forall|i: u32| v.bettor_at.get((id, i)) == #[trigger] w.bettor_at.get((id, i))
    &&& forall|i: u32| v.bettor_at[(id, i)] == #[trigger] w.bettor_at[(id, i)]
    &&& forall|a: Address| v.bets.get((id, a)) == #[trigger] w.bets.get((id, a))
    &&& forall|a: Address| v.bets[(id, a)] == #[trigger] w.bets[(id, a)]
    &&& forall|a: Address| v.bets.contains_key((id, a)) == #[trigger] w.bets.contains_key((id, a))
}

pub(crate) proof fn lemma_same_sums(v: MarketsView, w: MarketsView, id: u64, n: nat)
    requires
        same_books(v, w, id),
    ensures
        forall|yes: bool| #[trigger] w.stakes(id, yes, n) == v.stakes(id, yes, n),
        w.refunds(id, n) == v.refunds(id, n),
    decreases n,
{
    if n > 0 {
        lemma_same_sums(v, w, id, (n - 1) as nat);
        let i = (n - 1) as u32;
        assert(w.bettor_at.get((id, i)) == v.bettor_at.get((id, i)));
        assert(w.bettor_at[(id, i)] == v.bettor_at[(id, i)]);
        let a = v.bettor_at[(id, i)];
        assert(w.bets.get((id, a)) == v.bets.get((id, a)));
        assert(w.bets[(id, a)] == v.bets[(id, a)]);
        assert forall|yes: bool| #[trigger] w.stakes(id, yes, n) == v.stakes(id, yes, n) by {
            assert(w.winner(id, yes, i) == v.winner(id, yes, i));
            assert(w.stakes(id, yes, (n - 1) as nat) == v.stakes(id, yes, (n - 1) as nat));
        }
    }
}

/// If the same users have bets, and the index is the same, they are listed as before.
pub(crate) proof fn lemma_same_listing(v: MarketsView, w: MarketsView, id: u64)
    requires
        v.listed(id),
        v.bettors(id) == w.bettors(id),
        forall|i: u32| v.bettor_at.get((id, i)) == #[trigger] w.bettor_at.get((id, i)),
        forall|i: u32| v.bettor_at[(id, i)] == #[trigger] w.bettor_at[(id, i)],
        forall|a: Address|
            v.bets.contains_key((id, a)) == #[trigger] w.bets.contains_key((id, a)),
    ensures
        w.listed(id),
{
    let n = v.bettors(id);
    assert(w.listed_have_bets(id)) by {
        assert forall|i: u32| i < n implies #[trigger] w.bettor_at.contains_key((id, i))
            && w.bets.contains_key((id, w.bettor_at[(id, i)])) by {
            assert(v.bettor_at.contains_key((id, i)));
            assert(w.bettor_at.get((id, i)) == v.bettor_at.get((id, i)));
            assert(w.bettor_at[(id, i)] == v.bettor_at[(id, i)]);
            let a = v.bettor_at[(id, i)];
            assert(w.bets.contains_key((id, a)) == v.bets.contains_key((id, a)));
        }
    }
    assert(w.listed_once(id)) by {
        assert forall|i: u32, j: u32| i < j && j < n implies #[trigger] w.bettor_at[(id, i)]
            != #[trigger] w.bettor_at[(id, j)] by {
            assert(v.bettor_at[(id, i)] != v.bettor_at[(id, j)]);
        }
    }
    assert forall|a: Address| #[trigger] w.bets.contains_key((id, a)) implies w.is_listed(
        id,
        a,
    ) by {
        assert(v.bets.contains_key((id, a)));
        assert(v.is_listed(id, a));
        let i = choose|i: u32| i < n && #[trigger] v.bettor_at[(id, i)] == a;
        assert(w.bettor_at[(id, i)] == a);
    }
}

/// A bettor who is not among the first `n` does not matter to their sums.
proof fn lemma_other_bettor(v: MarketsView, w: MarketsView, id: u64, u: Address, n: nat)
    requires
        n <= u32::MAX,
        forall|i: u32| i < n ==> #[trigger] v.bettor_at.get((id, i)) == w.bettor_at.get((id, i)),
        forall|i: u32| i < n ==> #[trigger] v.bettor_at[(id, i)] == w.bettor_at[(id, i)],
        forall|i: u32| i < n ==> #[trigger] v.bettor_at[(id, i)] != u,
        forall|a: Address| a != u ==> v.bets.get((id, a)) == #[trigger] w.bets.get((id, a)),
        forall|a: Address| a != u ==> v.bets[(id, a)] == #[trigger] w.bets[(id, a)],
    ensures
        forall|yes: bool| #[trigger] w.stakes(id, yes, n) == v.stakes(id, yes, n),
        w.refunds(id, n) == v.refunds(id, n),
    decreases n,
{
    if n > 0 {
        lemma_other_bettor(v, w, id, u, (n - 1) as nat);
        let i = (n - 1) as u32;
        assert(w.bettor_at.get((id, i)) == v.bettor_at.get((id, i)));
        assert(w.bettor_at[(id, i)] == v.bettor_at[(id, i)]);
        let a = v.bettor_at[(id, i)];
        assert(w.bets.get((id, a)) == v.bets.get((id, a)));
        assert(w.bets[(id, a)] == v.bets[(id, a)]);
        assert forall|yes: bool| #[trigger] w.stakes(id, yes, n) == v.stakes(id, yes, n) by {
            assert(w.winner(id, yes, i) == v.winner(id, yes, i));
            assert(w.stakes(id, yes, (n - 1) as nat) == v.stakes(id, yes, (n - 1) as nat));
        }
    }
}

/// Changing the bet of the bettor in place `k` changes the sums by the difference.
proof fn lemma_one_bettor(
    v: MarketsView,
    w: MarketsView,
    id: u64,
    u: Address,
    e: BetEntry,
    k: u32,
    n: nat,
)
    requires
        k < n <= v.bettors(id),
        v.listed(id),
        v.bettor_at[(id, k)] == u,
        w.bettor_at == v.bettor_at,
        w.bets == v.bets.insert((id, u), e),
        e.is_yes == v.bets[(id, u)].is_yes,
    ensures
        forall|yes: bool| #[trigger]
            w.stakes(id, yes, n) == v.stakes(id, yes, n) + (if yes == e.is_yes {
                e.net - v.bets[(id, u)].net
            } else {
                0
            }),
        w.refunds(id, n) == v.refunds(id, n) + e.refundable - v.bets[(id, u)].refundable,
    decreases n,
{
    let i = (n - 1) as u32;
    let a = v.bettor_at[(id, i)];
    assert(v.bettor_at.contains_key((id, i)));
    assert(v.bettor_at.contains_key((id, k)));
    assert(v.bets.contains_key((id, u)));
    if i == k {
        assert forall|j: u32| j < (n - 1) as nat implies #[trigger] v.bettor_at[(id, j)] != u by {
            assert(v.bettor_at[(id, j)] != v.bettor_at[(id, k)]);
        }
        lemma_other_bettor(v, w, id, u, (n - 1) as nat);
    } else {
        lemma_one_bettor(v, w, id, u, e, k, (n - 1) as nat);
        assert(v.bettor_at[(id, k)] != v.bettor_at[(id, i)]);
        assert(w.bets.get((id, a)) == v.bets.get((id, a)));
        assert(w.bets[(id, a)] == v.bets[(id, a)]);
    }
    assert forall|yes: bool| #[trigger]
        w.stakes(id, yes, n) == v.stakes(id, yes, n) + (if yes == e.is_yes {
            e.net - v.bets[(id, u)].net
        } else {
            0
        }) by {
        let m = (n - 1) as nat;
        assert(w.stakes(id, yes, m) == v.stakes(id, yes, m) + (if yes == e.is_yes && i != k {
            e.net - v.bets[(id, u)].net
        } else {
            0
        }));
        assert(w.winner(id, yes, i) == v.winner(id, yes, i));
    }
}

/// The place of a bettor in the index.
spec fn place(v: MarketsView, id: u64, u: Address) -> u32 {
    choose|i: u32| i < v.bettors(id) && #[trigger] v.bettor_at[(id, i)] == u
}

/// A change of one bet, on the same side and with the same stake, keeps the listing
/// and the totals.
proof fn lemma_changed_bet(v: MarketsView, w: MarketsView, id: u64, u: Address, e: BetEntry)
    requires
        v.listed(id),
        v.bets.contains_key((id, u)),
        w.bettor_at == v.bettor_at,
        w.bettor_count == v.bettor_count,
        w.bets == v.bets.insert((id, u), e),
        e.is_yes == v.bets[(id, u)].is_yes,
    ensures
        w.listed(id),
        forall|yes: bool| #[trigger]
            w.stakes(id, yes, v.bettors(id) as nat) == v.stakes(id, yes, v.bettors(id) as nat) + (
            if yes == e.is_yes {
                e.net - v.bets[(id, u)].net
            } else {
                0
            }),
        w.refunds(id, v.bettors(id) as nat) == v.refunds(id, v.bettors(id) as nat) + e.refundable
            - v.bets[(id, u)].refundable,
{
    lemma_same_listing(v, w, id);
    assert(v.is_listed(id, u));
    lemma_one_bettor(v, w, id, u, e, place(v, id, u), v.bettors(id) as nat);
}

/// Books of a market that a call does not touch stay in order.
pub(crate) proof fn lemma_untouched(v: MarketsView, w: MarketsView, id: u64)
    requires
        v.booked(id),
        same_books(v, w, id),
        w.markets.get(id) == v.markets.get(id),
        w.fees_of(id) == v.fees_of(id),
        w.market_count >= v.market_count,
        forall|a: Address| w.payouts.get((id, a)) == #[trigger] v.payouts.get((id, a)),
    ensures
        w.booked(id),
{
    lemma_same_listing(v, w, id);
    lemma_same_sums(v, w, id, v.bettors(id) as nat);
    assert forall|a: Address| #[trigger] w.payouts.contains_key((id, a)) == v.payouts.contains_key(
        (id, a),
    ) by {
        assert(w.payouts.get((id, a)) == v.payouts.get((id, a)));
    }
    assert forall|a: Address| #[trigger] w.bets.contains_key((id, a)) == v.bets.contains_key(
        (id, a),
    ) by {
        assert(w.bets.get((id, a)) == v.bets.get((id, a)));
        assert(w.bets[(id, a)] == v.bets[(id, a)]);
    }
    assert(forall|a: Address| w.bets[(id, a)] == #[trigger] v.bets[(id, a)]) by {
        assert forall|a: Address| w.bets[(id, a)] == #[trigger] v.bets[(id, a)] by {
            assert(w.bets[(id, a)] == v.bets[(id, a)]);
        }
    }
    if let Some(m) = w.markets.get(id) {
        let n = v.bettors(id) as nat;
        assert(w.stakes(id, true, n) == v.stakes(id, true, n));
        assert(w.stakes(id, false, n) == v.stakes(id, false, n));
    }
}

/// The books of a contract without markets are in order.
pub proof fn law_a_new_contract_is_sound(admin: Option<Address>, cfg: Option<Config>)
    ensures
        (MarketsView { admin, cfg, ..MarketsView::empty() }).sound(),
{
}

/// Calls that touch neither markets nor bets, nor what markets added to the fees,
/// keep the books in order.
pub proof fn law_other_calls_keep_the_books(v: MarketsView, w: MarketsView)
    requires
        v.sound(),
        w.markets == v.markets,
        w.market_count == v.market_count,
        w.bets == v.bets,
        w.bettor_at == v.bettor_at,
        w.bettor_count == v.bettor_count,
        w.market_fees == v.market_fees,
        w.payouts == v.payouts,
    ensures
        w.sound(),
{
    assert forall|id: u64| #[trigger] w.booked(id) by {
        assert(v.booked(id));
        lemma_untouched(v, w, id);
    }
}

/// Creating a market keeps the books in order, and overwrites no other market.
pub proof fn law_creation_keeps_the_books(
    v: MarketsView,
    creator: Address,
    question: Vec<u8>,
    image_url: Vec<u8>,
    category: Category,
    duration_secs: u64,
    now: u64,
)
    requires
        v.sound(),
        v.market_count < u64::MAX,
    ensures
        !v.markets.contains_key((v.market_count + 1) as u64),
        v.with_market(creator, question, image_url, category, duration_secs, now).sound(),
{
    let w = v.with_market(creator, question, image_url, category, duration_secs, now);
    let new = (v.market_count + 1) as u64;
    assert(v.booked(new));
    assert forall|id: u64| #[trigger] w.booked(id) by {
        assert(v.booked(id));
        if id != new {
            lemma_untouched(v, w, id);
        } else {
            lemma_same_listing(v, w, id);
            assert forall|a: Address| !#[trigger] w.bets.contains_key((id, a)) by {
                if v.bets.contains_key((id, a)) {
                    assert(v.listed(id));
                }
            }
        }
    }
}

/// A cancellation keeps the books in order. Right after it, what is held for refunds
/// is the pool and all that the market added to the fees.
pub proof fn law_cancellation_keeps_the_books(v: MarketsView, caller: Address, market_id: u64)
    requires
        v.sound(),
        v.cancel_guard(caller, market_id) is Ok,
    ensures
        v.with_cancelled(market_id).sound(),
        ({
            let w = v.with_cancelled(market_id);
            w.refunds(market_id, w.bettors(market_id) as nat) == w.markets[market_id].pool()
                + w.fees_of(market_id)
        }),
{
    let w = v.with_cancelled(market_id);
    assert(v.booked(market_id));
    lemma_same_sums(v, w, market_id, v.bettors(market_id) as nat);
    assert forall|id: u64| #[trigger] w.booked(id) by {
        assert(v.booked(id));
        if id != market_id {
            lemma_untouched(v, w, id);
        } else {
            lemma_same_listing(v, w, id);
            let n = v.bettors(id) as nat;
            assert(w.stakes(id, true, n) == v.stakes(id, true, n));
            assert(w.stakes(id, false, n) == v.stakes(id, false, n));
            assert(!v.markets[id].resolved);
            assert forall|a: Address| #[trigger]
                w.bets.contains_key((id, a)) implies MarketsView::fair_bet(
                w.markets[id],
                w.bets[(id, a)],
            ) by {
                assert(v.bets.contains_key((id, a)));
            }
            assert forall|a: Address| !#[trigger] w.payouts.contains_key((id, a)) by {
                if v.payouts.contains_key((id, a)) {
                }
            }
        }
    }
}

/// A refund keeps the books in order, and lowers what is held for refunds by what it
/// pays.
pub proof fn law_refund_keeps_the_books(v: MarketsView, user: Address, market_id: u64)
    requires
        v.sound(),
        v.refund_guard(user, market_id) is Ok,
    ensures
        v.with_refund(user, market_id).sound(),
        ({
            let n = v.bettors(market_id) as nat;
            v.with_refund(user, market_id).refunds(market_id, n) == v.refunds(market_id, n)
                - v.bets[(market_id, user)].refundable
        }),
        v.bets[(market_id, user)].refundable > 0,
{
    let w = v.with_refund(user, market_id);
    let e = BetEntry { gross: 0, refundable: 0, ..v.bets[(market_id, user)] };
    assert(v.booked(market_id));
    lemma_changed_bet(v, w, market_id, user, e);
    assert forall|id: u64| #[trigger] w.booked(id) by {
        assert(v.booked(id));
        if id != market_id {
            lemma_untouched(v, w, id);
        } else {
            let n = v.bettors(id) as nat;
            assert(w.stakes(id, true, n) == v.stakes(id, true, n));
            assert(w.stakes(id, false, n) == v.stakes(id, false, n));
            assert forall|a: Address| #[trigger]
                w.bets.contains_key((id, a)) implies MarketsView::fair_bet(
                w.markets[id],
                w.bets[(id, a)],
            ) by {
                assert(v.bets.contains_key((id, a)));
            }
        }
    }
}

/// A claim keeps the books in order.
pub proof fn law_claim_keeps_the_books(v: MarketsView, user: Address, market_id: u64)
    requires
        v.sound(),
        v.claim_guard(user, market_id) is Ok,
    ensures
        v.with_claim(user, market_id).sound(),
{
    let w = v.with_claim(user, market_id);
    let e = BetEntry { claimed: true, ..v.bets[(market_id, user)] };
    assert(v.booked(market_id));
    lemma_changed_bet(v, w, market_id, user, e);
    assert forall|id: u64| #[trigger] w.booked(id) by {
        assert(v.booked(id));
        if id != market_id {
            lemma_untouched(v, w, id);
        } else {
            let n = v.bettors(id) as nat;
            assert(w.stakes(id, true, n) == v.stakes(id, true, n));
            assert(w.stakes(id, false, n) == v.stakes(id, false, n));
            assert forall|a: Address| #[trigger]
                w.bets.contains_key((id, a)) implies MarketsView::fair_bet(
                w.markets[id],
                w.bets[(id, a)],
            ) by {
                assert(v.bets.contains_key((id, a)));
            }
        }
    }
}

/// A first bet is listed last, and adds to the sums what it holds.
proof fn lemma_new_bettor(v: MarketsView, w: MarketsView, id: u64, u: Address, e: BetEntry)
    requires
        v.listed(id),
        !v.bets.contains_key((id, u)),
        v.bettors(id) < u32::MAX,
        w.bettor_at == v.bettor_at.insert((id, v.bettors(id)), u),
        w.bettors(id) == v.bettors(id) + 1,
        w.bets == v.bets.insert((id, u), e),
    ensures
        w.listed(id),
        forall|yes: bool| #[trigger]
            w.stakes(id, yes, w.bettors(id) as nat) == v.stakes(id, yes, v.bettors(id) as nat) + (
            if yes == e.is_yes {
                e.net as int
            } else {
                0
            }),
        w.refunds(id, w.bettors(id) as nat) == v.refunds(id, v.bettors(id) as nat) + e.refundable,
{
    let n = v.bettors(id);
    assert forall|i: u32| i < n implies #[trigger] v.bettor_at[(id, i)] != u by {
        assert(v.bettor_at.contains_key((id, i)));
    }
    lemma_other_bettor(v, w, id, u, n as nat);
    assert(w.bettor_at[(id, n)] == u);
    assert(w.listed_have_bets(id)) by {
        assert forall|i: u32| i < n + 1 implies #[trigger] w.bettor_at.contains_key((id, i))
            && w.bets.contains_key((id, w.bettor_at[(id, i)])) by {
            if i < n {
                assert(v.bettor_at.contains_key((id, i)));
                assert(w.bettor_at[(id, i)] == v.bettor_at[(id, i)]);
            }
        }
    }
    assert(w.listed_once(id)) by {
        assert forall|i: u32, j: u32| i < j && j < n + 1 implies #[trigger] w.bettor_at[(id, i)]
            != #[trigger] w.bettor_at[(id, j)] by {
            assert(w.bettor_at[(id, i)] == v.bettor_at[(id, i)]);
            if j < n {
                assert(w.bettor_at[(id, j)] == v.bettor_at[(id, j)]);
            }
        }
    }
    assert forall|a: Address| #[trigger] w.bets.contains_key((id, a)) implies w.is_listed(
        id,
        a,
    ) by {
        if a == u {
            assert(w.bettor_at[(id, n)] == a);
        } else {
            assert(v.bets.contains_key((id, a)));
            assert(v.is_listed(id, a));
            let i = choose|i: u32| i < n && #[trigger] v.bettor_at[(id, i)] == a;
            assert(w.bettor_at[(id, i)] == a);
        }
    }
    assert forall|yes: bool| #[trigger]
        w.stakes(id, yes, w.bettors(id) as nat) == v.stakes(id, yes, n as nat) + (if yes
            == e.is_yes {
            e.net as int
        } else {
            0
        }) by {
        assert(w.stakes(id, yes, n as nat) == v.stakes(id, yes, n as nat));
        assert(w.winner(id, yes, n) == if yes == e.is_yes {
            Some(u)
        } else {
            None
        });
    }
}

/// A bet keeps the books in order: the bettor is listed once, the totals are the sums
/// of the stakes, and what is held for refunds is the pool and the market's fees.
pub proof fn law_bet_keeps_the_books(
    v: MarketsView,
    user: Address,
    market_id: u64,
    is_yes: bool,
    amount: i128,
    credited: bool,
    now: u64,
)
    requires
        v.sound(),
        v.bet_guard(user, market_id, is_yes, amount, now) is Ok,
        v.bet_fits(user, market_id, is_yes, amount, credited),
    ensures
        v.with_bet(user, market_id, is_yes, amount, credited).sound(),
{
    let w = v.with_bet(user, market_id, is_yes, amount, credited);
    let held = held_of(amount, v.pays_referrer(user, credited));
    let e = v.raised(user, market_id, is_yes, amount, held);
    let n = v.bettors(market_id) as nat;
    assert(v.booked(market_id));
    lemma_split(amount);
    let m = v.markets[market_id];
    if v.bets.contains_key((market_id, user)) {
        assert(MarketsView::fair_bet(m, v.bets[(market_id, user)]));
        lemma_changed_bet(v, w, market_id, user, e);
        assert(w.bettors(market_id) == n);
    } else {
        assert(w.bettors(market_id) == n + 1);
        lemma_new_bettor(v, w, market_id, user, e);
    }
    assert forall|id: u64| #[trigger] w.booked(id) by {
        assert(v.booked(id));
        if id != market_id {
            lemma_untouched(v, w, id);
        } else {
            let k = w.bettors(id) as nat;
            assert(w.stakes(id, true, k) == v.stakes(id, true, n) + (if is_yes {
                net_of(amount)
            } else {
                0
            }));
            assert(w.stakes(id, false, k) == v.stakes(id, false, n) + (if is_yes {
                0
            } else {
                net_of(amount)
            }));
            assert forall|a: Address| #[trigger]
                w.bets.contains_key((id, a)) implies MarketsView::fair_bet(
                w.markets[id],
                w.bets[(id, a)],
            ) by {
                if a != user {
                    assert(v.bets.contains_key((id, a)));
                    assert(MarketsView::fair_bet(m, v.bets[(id, a)]));
                }
            }
            assert forall|a: Address| !#[trigger] w.payouts.contains_key((id, a)) by {
                if v.payouts.contains_key((id, a)) {
                }
            }
        }
    }
}

} // verus!
