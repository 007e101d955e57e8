//! What resolution pays: the whole pool and nothing more.

use crate::env::Address;
use crate::prediction_market::book_laws::{
    lemma_same_listing, lemma_same_sums, lemma_untouched, same_books,
};
use crate::prediction_market::model::{in_range, quotient};
use crate::prediction_market::types::MarketsView;
use vstd::prelude::*;

verus! {

impl MarketsView {
    /// How many of the first `n` bettors of a market bet on one side.
    pub open spec fn backers(self, market_id: u64, yes: bool, n: nat) -> nat
        decreases n,
    {
        if n == 0 {
            0
        } else {
            self.backers(market_id, yes, (n - 1) as nat) + if self.winner(
                market_id,
                yes,
                (n - 1) as u32,
            ) is Some {
                1nat
            } else {
                0nat
            }
        }
    }
}

/// The bet of a bettor on the side asked for is on record, and has a stake.
proof fn lemma_winner(v: MarketsView, id: u64, yes: bool, i: u32)
    requires
        v.booked(id),
        v.markets.contains_key(id),
        i < v.bettors(id),
        v.winner(id, yes, i) is Some,
    ensures
        v.winner(id, yes, i) == Some(v.bettor_at[(id, i)]),
        v.bets.contains_key((id, v.bettor_at[(id, i)])),
        v.bets[(id, v.bettor_at[(id, i)])].is_yes == yes,
        v.bets[(id, v.bettor_at[(id, i)])].net > 0,
{
    let a = v.bettor_at[(id, i)];
    assert(v.bettor_at.contains_key((id, i)));
    assert(v.bets.contains_key((id, a)));
    assert(MarketsView::fair_bet(v.markets[id], v.bets[(id, a)]));
}

/// Stakes only grow with the number of bettors.
proof fn lemma_stakes_grow(v: MarketsView, id: u64, yes: bool, i: nat, n: nat)
    requires
        v.booked(id),
        v.markets.contains_key(id),
        i <= n <= v.bettors(id),
    ensures
        0 <= v.stakes(id, yes, i) <= v.stakes(id, yes, n),
    decreases n,
{
    if n > 0 {
        if v.winner(id, yes, (n - 1) as u32) is Some {
            lemma_winner(v, id, yes, (n - 1) as u32);
        }
        if i < n {
            lemma_stakes_grow(v, id, yes, i, (n - 1) as nat);
        } else {
            lemma_stakes_grow(v, id, yes, (n - 1) as nat, (n - 1) as nat);
        }
    }
}

/// A share of the pool is rounded down by less than one.
proof fn lemma_share(net: int, pool: int, side: int)
    requires
        0 < net,
        0 < side <= pool,
    ensures
        net <= quotient(net * pool, side),
        net * pool - (side - 1) <= quotient(net * pool, side) * side <= net * pool,
        net * side <= net * pool,
{
    assert(net * pool >= 0 && net * side <= net * pool) by (nonlinear_arith)
        requires
            0 < net,
            0 < side <= pool,
    ;
    let x = net * pool;
    let q = x / side;
    assert(q * side <= x && x < q * side + side && net <= q) by (nonlinear_arith)
        requires
            q == x / side,
            side > 0,
            net * side <= x,
    ;
}

/// What is paid out falls short of the stakes' part of the pool by less than one for
/// each winner.
proof fn lemma_paid(v: MarketsView, id: u64, outcome: bool, n: nat)
    requires
        v.booked(id),
        v.markets.contains_key(id),
        n <= v.bettors(id),
        v.markets[id].side(outcome) > 0,
        v.markets[id].side(outcome) <= v.markets[id].pool(),
    ensures
        ({
            let pool = v.markets[id].pool();
            let side = v.markets[id].side(outcome) as int;
            let paid = v.paid_out(id, outcome, n);
            let due = v.stakes(id, outcome, n) * pool;
            &&& 0 <= v.stakes(id, outcome, n) <= paid
            &&& paid * side <= due
            &&& due <= paid * side + v.backers(id, outcome, n) * (side - 1)
        }),
    decreases n,
{
    let pool = v.markets[id].pool();
    let side = v.markets[id].side(outcome) as int;
    if n > 0 {
        let m = (n - 1) as nat;
        lemma_paid(v, id, outcome, m);
        if v.winner(id, outcome, (n - 1) as u32) is Some {
            lemma_winner(v, id, outcome, (n - 1) as u32);
            let a = v.bettor_at[(id, (n - 1) as u32)];
            let net = v.bets[(id, a)].net as int;
            lemma_share(net, pool, side);
            let q = quotient(net * pool, side);
            let s = v.stakes(id, outcome, m);
            let p = v.paid_out(id, outcome, m);
            let b = v.backers(id, outcome, m) as int;
            assert((s + net) * pool == s * pool + net * pool) by (nonlinear_arith);
            assert((p + q) * side == p * side + q * side) by (nonlinear_arith);
            assert((b + 1) * (side - 1) == b * (side - 1) + (side - 1)) by (nonlinear_arith);
        }
    } else {
        assert(0 * pool == 0 && 0 * side == 0 && 0 * (side - 1) == 0) by (nonlinear_arith);
    }
}

/// At least one bettor backs a side that has stakes.
proof fn lemma_backers(v: MarketsView, id: u64, yes: bool, n: nat)
    ensures
        v.backers(id, yes, n) <= n,
        v.backers(id, yes, n) == 0 ==> v.stakes(id, yes, n) == 0,
    decreases n,
{
    if n > 0 {
        lemma_backers(v, id, yes, (n - 1) as nat);
    }
}

/// The totals of a market are not negative.
pub(crate) proof fn lemma_totals(v: MarketsView, id: u64)
    requires
        v.booked(id),
        v.markets.contains_key(id),
    ensures
        v.markets[id].total_yes >= 0,
        v.markets[id].total_no >= 0,
{
    let n = v.bettors(id) as nat;
    lemma_stakes_grow(v, id, true, 0, n);
    lemma_stakes_grow(v, id, false, 0, n);
}

/// The payouts and what rounding leaves make up the pool, no more and no less: the
/// rest is never negative, and smaller than the number of winners. Together the
/// winners get at least their stakes.
pub proof fn law_payouts_and_rest_make_the_pool(v: MarketsView, market_id: u64, outcome: bool)
    requires
        v.sound(),
        v.markets.contains_key(market_id),
        v.markets[market_id].side(outcome) != 0,
    ensures
        ({
            let n = v.bettors(market_id) as nat;
            let paid = v.paid_out(market_id, outcome, n);
            let rest = v.swept(market_id, outcome);
            &&& paid + rest == v.markets[market_id].pool()
            &&& 0 <= rest < v.backers(market_id, outcome, n) <= n
            &&& v.markets[market_id].side(outcome) <= paid
        }),
{
    assert(v.booked(market_id));
    lemma_totals(v, market_id);
    let n = v.bettors(market_id) as nat;
    let pool = v.markets[market_id].pool();
    let side = v.markets[market_id].side(outcome) as int;
    let paid = v.paid_out(market_id, outcome, n);
    let b = v.backers(market_id, outcome, n) as int;
    lemma_paid(v, market_id, outcome, n);
    lemma_backers(v, market_id, outcome, n);
    assert(v.stakes(market_id, outcome, n) == side);
    assert(paid <= pool) by (nonlinear_arith)
        requires
            paid * side <= side * pool,
            side > 0,
    ;
    assert(pool - paid < b) by (nonlinear_arith)
        requires
            side * pool <= paid * side + b * (side - 1),
            side > 0,
            b > 0,
    ;
}

/// A winner is paid at least the stake, and the stake's share of the pool rounded
/// down.
pub proof fn law_a_winner_gets_the_share(
    v: MarketsView,
    market_id: u64,
    outcome: bool,
    user: Address,
)
    requires
        v.sound(),
        v.markets.contains_key(market_id),
        v.bets.contains_key((market_id, user)),
        v.bets[(market_id, user)].is_yes == outcome,
        v.resolve_fits(market_id, outcome),
    ensures
        ({
            let w = v.with_outcome(market_id, outcome);
            let net = v.bets[(market_id, user)].net;
            let m = v.markets[market_id];
            &&& m.side(outcome) > 0
            &&& w.payouts.contains_key((market_id, user))
            &&& w.payout(market_id, user) == (net * m.pool()) / (m.side(outcome) as int)
            &&& w.payout(market_id, user) >= net
            &&& w.has_won(user, market_id)
        }),
{
    assert(v.booked(market_id));
    lemma_totals(v, market_id);
    assert(v.is_listed(market_id, user));
    let n = v.bettors(market_id) as nat;
    let i = choose|i: u32| i < n && #[trigger] v.bettor_at[(market_id, i)] == user;
    assert(v.bettor_at.contains_key((market_id, i)));
    assert(v.winner(market_id, outcome, i) == Some(user));
    lemma_winner(v, market_id, outcome, i);
    lemma_stakes_grow(v, market_id, outcome, (i + 1) as nat, n);
    lemma_stakes_grow(v, market_id, outcome, i as nat, i as nat);
    let net = v.bets[(market_id, user)].net as int;
    let pool = v.markets[market_id].pool();
    let side = v.markets[market_id].side(outcome) as int;
    lemma_share(net, pool, side);
    lemma_payouts_set(v, market_id, outcome, n);
    lemma_product_fits(v, market_id, outcome, i, n);
    assert(0 <= net * pool) by (nonlinear_arith)
        requires
            net > 0,
            pool > 0,
    ;
    assert(quotient(net * pool, side) <= net * pool) by (nonlinear_arith)
        requires
            net * pool >= 0,
            side > 0,
            quotient(net * pool, side) == (net * pool) / side,
    ;
}

/// Payouts that fit in total had a product that fits for each winner.
proof fn lemma_product_fits(v: MarketsView, id: u64, outcome: bool, i: u32, n: nat)
    requires
        i < n <= u32::MAX,
        v.payouts_fit(id, outcome, n),
        v.winner(id, outcome, i) is Some,
    ensures
        in_range(v.bets[(id, v.winner(id, outcome, i)->0)].net * v.markets[id].pool()),
    decreases n,
{
    if i < n - 1 {
        lemma_product_fits(v, id, outcome, i, (n - 1) as nat);
    }
}

/// Resolution assigns payouts to the winners of its market, and to nobody else.
pub(crate) proof fn lemma_payouts_set(v: MarketsView, id: u64, outcome: bool, n: nat)
    requires
        n <= u32::MAX,
    ensures
        forall|i: u32|
            i < n && (#[trigger] v.winner(id, outcome, i)) is Some ==> v.payouts_set(
                id,
                outcome,
                n,
            ).contains_pair(
                (id, v.winner(id, outcome, i)->0),
                v.share(id, outcome, v.winner(id, outcome, i)->0) as i128,
            ),
        forall|k: (u64, Address)| #[trigger]
            v.payouts_set(id, outcome, n).contains_key(k) ==> v.payouts.contains_key(k) || (k.0
                == id && exists|i: u32|
                i < n && #[trigger] v.winner(id, outcome, i) == Some(k.1)),
        forall|k: (u64, Address)|
            k.0 != id ==> #[trigger] v.payouts_set(id, outcome, n).get(k) == v.payouts.get(k),
    decreases n,
{
    if n > 0 {
        let m = (n - 1) as nat;
        lemma_payouts_set(v, id, outcome, m);
        let i = (n - 1) as u32;
        assert forall|k: (u64, Address)| #[trigger]
            v.payouts_set(id, outcome, n).contains_key(k) implies v.payouts.contains_key(k) || (k.0
            == id && exists|i: u32| i < n && #[trigger] v.winner(id, outcome, i) == Some(k.1)) by {
            if v.payouts_set(id, outcome, m).contains_key(k) {
                if !v.payouts.contains_key(k) {
                    let j = choose|j: u32| j < m && #[trigger] v.winner(id, outcome, j) == Some(
                        k.1,
                    );
                    assert(j < n && v.winner(id, outcome, j) == Some(k.1));
                }
            } else {
                assert(i < n && v.winner(id, outcome, i) == Some(k.1));
            }
        }
        assert forall|k: (u64, Address)| k.0 != id implies #[trigger] v.payouts_set(
            id,
            outcome,
            n,
        ).get(k) == v.payouts.get(k) by {
            assert(v.payouts_set(id, outcome, m).get(k) == v.payouts.get(k));
        }
    }
}

/// Resolution keeps the books in order.
pub proof fn law_resolution_keeps_the_books(
    v: MarketsView,
    caller: Address,
    market_id: u64,
    outcome: bool,
    now: u64,
)
    requires
        v.sound(),
        v.resolve_guard(caller, market_id, now) is Ok,
        v.resolve_fits(market_id, outcome),
    ensures
        v.with_outcome(market_id, outcome).sound(),
{
    let w = v.with_outcome(market_id, outcome);
    assert(v.booked(market_id));
    lemma_payouts_set(v, market_id, outcome, v.bettors(market_id) as nat);
    assert forall|id: u64| #[trigger] w.booked(id) by {
        assert(v.booked(id));
        if id != market_id {
            assert(same_books(v, w, id));
            lemma_untouched(v, w, id);
        } else {
            assert(same_books(v, w, id));
            lemma_same_listing(v, w, id);
            let n = v.bettors(id) as nat;
            lemma_same_sums(v, w, id, n);
            assert(w.stakes(id, true, n) == v.stakes(id, true, n));
            assert(w.stakes(id, false, n) == v.stakes(id, false, n));
            assert forall|a: Address| #[trigger]
                w.bets.contains_key((id, a)) implies MarketsView::fair_bet(
                w.markets[id],
                w.bets[(id, a)],
            ) by {
                assert(v.bets.contains_key((id, a)));
                assert(MarketsView::fair_bet(v.markets[id], v.bets[(id, a)]));
            }
            assert forall|a: Address| #[trigger] w.payouts.contains_key((id, a)) implies w.markets[id].resolved
                && w.bets.contains_key((id, a)) && w.bets[(id, a)].is_yes
                == w.markets[id].outcome by {
                assert(!v.payouts.contains_key((id, a)));
                let i = choose|i: u32|
                    i < n && #[trigger] v.winner(id, outcome, i) == Some(a);
                assert(v.bettor_at.get((id, i)) == Some(a));
            }
        }
    }
}

impl MarketsView {
    /// What resolution assigned to the first `n` bettors of a market together.
    pub open spec fn assigned(self, market_id: u64, n: nat) -> int
        decreases n,
    {
        if n == 0 {
            0
        } else {
            self.assigned(market_id, (n - 1) as nat) + self.payout(
                market_id,
                self.bettor_at[(market_id, (n - 1) as u32)],
            )
        }
    }
}

/// After resolution, what its bettors can claim and what went to the fees are the
/// pool: no money is trapped, and none is paid that is not there. Those who lost can
/// claim nothing.
pub proof fn law_claims_and_fees_make_the_pool(
    v: MarketsView,
    caller: Address,
    market_id: u64,
    outcome: bool,
    now: u64,
)
    requires
        v.sound(),
        v.resolve_guard(caller, market_id, now) is Ok,
        v.resolve_fits(market_id, outcome),
    ensures
        ({
            let w = v.with_outcome(market_id, outcome);
            &&& w.assigned(market_id, w.bettors(market_id) as nat) + v.swept(market_id, outcome)
                == v.markets[market_id].pool()
            &&& forall|a: Address|
                v.bets.contains_key((market_id, a)) && v.bets[(market_id, a)].is_yes != outcome
                    ==> #[trigger] w.payout(market_id, a) == 0
        }),
{
    let w = v.with_outcome(market_id, outcome);
    let n = v.bettors(market_id) as nat;
    law_resolution_keeps_the_books(v, caller, market_id, outcome, now);
    assert(v.booked(market_id));
    assert(w.booked(market_id));
    assert forall|a: Address|
        v.bets.contains_key((market_id, a)) && v.bets[(market_id, a)].is_yes
            != outcome implies #[trigger] w.payout(market_id, a) == 0 by {
        if w.payouts.contains_key((market_id, a)) {
            assert(w.bets[(market_id, a)].is_yes == w.markets[market_id].outcome);
        }
    }
    lemma_totals(v, market_id);
    if v.markets[market_id].side(outcome) == 0 {
        lemma_nothing_assigned(v, w, market_id, n);
    } else {
        lemma_assigned(v, market_id, outcome, n);
    }
}

/// Without stakes on the side that won, nobody is assigned anything.
proof fn lemma_nothing_assigned(v: MarketsView, w: MarketsView, id: u64, n: nat)
    requires
        w.payouts == v.payouts,
        forall|a: Address| !#[trigger] v.payouts.contains_key((id, a)),
    ensures
        w.assigned(id, n) == 0,
    decreases n,
{
    if n > 0 {
        lemma_nothing_assigned(v, w, id, (n - 1) as nat);
        assert(!v.payouts.contains_key((id, w.bettor_at[(id, (n - 1) as u32)])));
    }
}

/// What bettors are assigned is what resolution pays.
proof fn lemma_assigned(v: MarketsView, id: u64, outcome: bool, n: nat)
    requires
        v.booked(id),
        v.markets.contains_key(id),
        !v.markets[id].resolved,
        v.markets[id].side(outcome) > 0,
        v.markets[id].side(outcome) <= v.markets[id].pool(),
        v.payouts_fit(id, outcome, v.bettors(id) as nat),
        n <= v.bettors(id),
    ensures
        v.with_outcome(id, outcome).assigned(id, n) == v.paid_out(id, outcome, n),
    decreases n,
{
    let w = v.with_outcome(id, outcome);
    if n > 0 {
        lemma_assigned(v, id, outcome, (n - 1) as nat);
        let i = (n - 1) as u32;
        let a = v.bettor_at[(id, i)];
        let all = v.bettors(id) as nat;
        lemma_payouts_set(v, id, outcome, all);
        assert(v.bettor_at.contains_key((id, i)));
        if v.winner(id, outcome, i) is Some {
            lemma_winner(v, id, outcome, i);
            lemma_product_fits(v, id, outcome, i, all);
            let net = v.bets[(id, a)].net as int;
            let pool = v.markets[id].pool();
            let side = v.markets[id].side(outcome) as int;
            lemma_share(net, pool, side);
            assert(quotient(net * pool, side) <= net * pool) by (nonlinear_arith)
                requires
                    quotient(net * pool, side) * side <= net * pool,
                    quotient(net * pool, side) >= 0,
                    side > 0,
            ;
        } else {
            assert(v.bets[(id, a)].is_yes != outcome);
            if w.payouts.contains_key((id, a)) {
                assert(!v.payouts.contains_key((id, a)));
                let j = choose|j: u32| j < all && #[trigger] v.winner(id, outcome, j) == Some(a);
                assert(v.bets[(id, a)].is_yes == outcome);
            }
        }
    }
}

/// A market can always be resolved, as long as the square of its pool, and the fees
/// with the pool added, are within the contract's integers.
pub proof fn law_a_market_can_be_resolved(v: MarketsView, market_id: u64, outcome: bool)
    requires
        v.sound(),
        v.markets.contains_key(market_id),
        in_range(v.markets[market_id].pool() * v.markets[market_id].pool()),
        in_range(v.accumulated_fees + v.markets[market_id].pool()),
        in_range(v.fees_of(market_id) + v.markets[market_id].pool()),
    ensures
        v.resolve_fits(market_id, outcome),
{
    assert(v.booked(market_id));
    lemma_totals(v, market_id);
    let pool = v.markets[market_id].pool();
    let n = v.bettors(market_id) as nat;
    assert(pool <= i128::MAX) by (nonlinear_arith)
        requires
            pool >= 0,
            pool * pool <= i128::MAX,
    ;
    if v.markets[market_id].side(outcome) != 0 {
        law_payouts_and_rest_make_the_pool(v, market_id, outcome);
        lemma_all_fit(v, market_id, outcome, n);
    }
}

proof fn lemma_all_fit(v: MarketsView, id: u64, outcome: bool, n: nat)
    requires
        v.booked(id),
        v.markets.contains_key(id),
        n <= v.bettors(id),
        0 < v.markets[id].side(outcome) <= v.markets[id].pool(),
        v.markets[id].pool() * v.markets[id].pool() <= i128::MAX,
        v.markets[id].pool() <= i128::MAX,
    ensures
        v.payouts_fit(id, outcome, n),
        0 <= v.paid_out(id, outcome, n) <= v.markets[id].pool(),
    decreases n,
{
    let pool = v.markets[id].pool();
    let side = v.markets[id].side(outcome) as int;
    let paid = v.paid_out(id, outcome, n);
    let s = v.stakes(id, outcome, n);
    lemma_paid(v, id, outcome, n);
    lemma_stakes_grow(v, id, outcome, n, v.bettors(id) as nat);
    assert(s <= side);
    assert(paid <= pool) by (nonlinear_arith)
        requires
            paid * side <= s * pool,
            0 <= s <= side,
            0 < side <= pool,
    ;
    if n > 0 {
        lemma_all_fit(v, id, outcome, (n - 1) as nat);
        if v.winner(id, outcome, (n - 1) as u32) is Some {
            lemma_winner(v, id, outcome, (n - 1) as u32);
            lemma_stakes_grow(v, id, outcome, (n - 1) as nat, (n - 1) as nat);
            let a = v.bettor_at[(id, (n - 1) as u32)];
            let net = v.bets[(id, a)].net as int;
            assert(net <= s);
            assert(0 <= net * pool <= pool * pool) by (nonlinear_arith)
                requires
                    0 < net <= pool,
            ;
        }
    }
}

} // verus!
