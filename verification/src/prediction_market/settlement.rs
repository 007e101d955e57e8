//! How a market ends: resolution with claims, or cancellation with refunds.

use crate::env::{Address, Env};
use crate::prediction_market::model;
use crate::prediction_market::types;
use crate::prediction_market::types::{
    emit_bump, BetEntry, DataKey, Effect, MarketError, MarketsView, PredictionMarketContract,
    LOSE_POINTS, LOSE_TOKENS, WIN_POINTS, WIN_TOKENS,
};
use vstd::prelude::*;

verus! {

/// The difference of two integers, cut off at the ends of their range.
fn saturating_sub(a: i128, b: i128) -> (r: i128)
    ensures
        r == (if a - b < i128::MIN {
            i128::MIN as int
        } else if a - b > i128::MAX {
            i128::MAX as int
        } else {
            a - b
        }),
{
    match a.checked_sub(b) {
        Some(d) => d,
        None => if b > 0 {
            i128::MIN
        } else {
            i128::MAX
        },
    }
}

/// Payouts that fit, fit for fewer bettors too.
proof fn lemma_payouts_fit(v: MarketsView, market_id: u64, outcome: bool, i: nat, n: nat)
    requires
        i <= n,
        v.payouts_fit(market_id, outcome, n),
    ensures
        v.payouts_fit(market_id, outcome, i),
    decreases n,
{
    if i < n {
        lemma_payouts_fit(v, market_id, outcome, i, (n - 1) as nat);
    }
}

/// If the payouts do not fit for the first bettors, they do not for all.
proof fn lemma_payouts_do_not_fit(
    v: MarketsView,
    market_id: u64,
    outcome: bool,
    i: u32,
    bettors: u32,
)
    requires
        i < bettors,
        !v.payouts_fit(market_id, outcome, (i + 1) as nat),
    ensures
        !v.payouts_fit(market_id, outcome, bettors as nat),
{
    if v.payouts_fit(market_id, outcome, bettors as nat) {
        lemma_payouts_fit(v, market_id, outcome, (i + 1) as nat, bettors as nat);
    }
}

/// A quotient by a positive divisor is not larger than what is divided.
proof fn lemma_quotient(a: int, b: int)
    requires
        b > 0,
    ensures
        a >= 0 ==> 0 <= model::quotient(a, b) <= a,
        a < 0 ==> a <= model::quotient(a, b) <= 0,
{
    let d = if a >= 0 {
        a
    } else {
        -a
    };
    assert(0 <= d / b <= d) by (nonlinear_arith)
        requires
            d >= 0,
            b > 0,
    ;
}

impl PredictionMarketContract {
    /// The stakes on the two sides of a market.
    fn totals(&self, market_id: u64) -> (r: (i128, i128))
        requires
            self@.markets.contains_key(market_id),
        ensures
            r == (self@.markets[market_id].total_yes, self@.markets[market_id].total_no),
    {
        match self.markets.get(&market_id) {
            Some(m) => (m.total_yes, m.total_no),
            None => (0, 0),
        }
    }

    /// The bettor in place `i` and their stake, if the bet is on side `outcome`.
    fn winner_at(&self, market_id: u64, outcome: bool, i: u32) -> (r: Option<(Address, i128)>)
        ensures
            r == (match self@.winner(market_id, outcome, i) {
                Some(a) => Some((a, self@.bets[(market_id, a)].net)),
                None => None,
            }),
    {
        match self.bettor_at.copied(&(market_id, i)) {
            None => None,
            Some(a) => match self.bets.copied(&(market_id, a)) {
                None => None,
                Some(e) => if e.is_yes == outcome {
                    Some((a, e.net))
                } else {
                    None
                },
            },
        }
    }

    /// Does resolution stay within range, and within the pool?
    pub fn resolve_fits(&self, market_id: u64, outcome: bool) -> (r: bool)
        requires
            self@.markets.contains_key(market_id),
        ensures
            r == self@.resolve_fits(market_id, outcome),
    {
        let (total_yes, total_no) = self.totals(market_id);
        let pool: i128 = match total_yes.checked_add(total_no) {
            Some(p) => p,
            None => {
                return false;
            },
        };
        let winning_side: i128 = if outcome {
            total_yes
        } else {
            total_no
        };
        if winning_side < 0 {
            return false;
        }
        let mut swept: i128 = pool;
        if winning_side > 0 {
            let bettors: u32 = self.bettors(market_id);
            let mut payout_sum: i128 = 0;
            let mut i: u32 = 0;
            while i < bettors
                invariant
                    i <= bettors,
                    bettors == self@.bettors(market_id),
                    pool == self@.markets[market_id].pool(),
                    winning_side == self@.markets[market_id].side(outcome),
                    winning_side > 0,
                    payout_sum == self@.paid_out(market_id, outcome, i as nat),
                    self@.payouts_fit(market_id, outcome, i as nat),
                decreases bettors - i,
            {
                if let Some((a, net)) = self.winner_at(market_id, outcome, i) {
                    let product: i128 = match net.checked_mul(pool) {
                        Some(p) => p,
                        None => {
                            proof {
                                lemma_payouts_do_not_fit(self@, market_id, outcome, i, bettors);
                            }
                            return false;
                        },
                    };
                    proof {
                        lemma_quotient(product as int, winning_side as int);
                    }
                    payout_sum = match payout_sum.checked_add(product / winning_side) {
                        Some(s) => s,
                        None => {
                            proof {
                                lemma_payouts_do_not_fit(self@, market_id, outcome, i, bettors);
                            }
                            return false;
                        },
                    };
                }
                i = i + 1;
            }
            swept = match pool.checked_sub(payout_sum) {
                Some(d) => d,
                None => {
                    return false;
                },
            };
            if swept < 0 {
                return false;
            }
        }
        if swept > 0 {
            if self.accumulated_fees.checked_add(swept).is_none() {
                return false;
            }
            if self.get_market_fees(market_id).checked_add(swept).is_none() {
                return false;
            }
        }
        true
    }

    /// Adds what resolution leaves over to the fees.
    fn sweep(&mut self, env: &mut Env<Effect>, market_id: u64, amount: i128)
        requires
            amount > 0,
            old(self)@.accumulated_fees + amount <= i128::MAX,
            old(self)@.fees_of(market_id) + amount <= i128::MAX,
        ensures
            final(self)@ == (MarketsView {
                accumulated_fees: (old(self)@.accumulated_fees + amount) as i128,
                market_fees: old(self)@.market_fees.insert(
                    market_id,
                    (old(self)@.fees_of(market_id) + amount) as i128,
                ),
                ..old(self)@
            }),
            final(env).adds(*old(env), seq![types::bump(DataKey::MarketFees(market_id))]),
    {
        self.accumulated_fees = self.accumulated_fees + amount;
        let mkt_fees: i128 = self.get_market_fees(market_id);
        self.market_fees.set(market_id, mkt_fees + amount);
        emit_bump(env, DataKey::MarketFees(market_id));
    }

    /// Assigns every winner their payout, and returns the sum.
    fn pay_winners(
        &mut self,
        env: &mut Env<Effect>,
        market_id: u64,
        outcome: bool,
        pool: i128,
        winning_side: i128,
    ) -> (payout_sum: i128)
        requires
            pool == old(self)@.markets[market_id].pool(),
            winning_side == old(self)@.markets[market_id].side(outcome),
            winning_side > 0,
            old(self)@.payouts_fit(market_id, outcome, old(self)@.bettors(market_id) as nat),
        ensures
            ({
                let n = old(self)@.bettors(market_id) as nat;
                &&& payout_sum == old(self)@.paid_out(market_id, outcome, n)
                &&& final(self)@ == (MarketsView {
                    payouts: old(self)@.payouts_set(market_id, outcome, n),
                    ..old(self)@
                })
                &&& final(env).adds(*old(env), old(self)@.payouts_fx(market_id, outcome, n))
            }),
    {
        let ghost pre = self@;
        let ghost before = env.effects@;
        let ghost ledger = env.ledger;
        let bettors: u32 = self.bettors(market_id);
        let mut payout_sum: i128 = 0;
        let mut i: u32 = 0;
        while i < bettors
            invariant
                i <= bettors,
                bettors == pre.bettors(market_id),
                pool == pre.markets[market_id].pool(),
                winning_side == pre.markets[market_id].side(outcome),
                winning_side > 0,
                pre.payouts_fit(market_id, outcome, bettors as nat),
                payout_sum == pre.paid_out(market_id, outcome, i as nat),
                self@ == (MarketsView {
                    payouts: pre.payouts_set(market_id, outcome, i as nat),
                    ..pre
                }),
                env.ledger == ledger,
                env.effects@ == before + pre.payouts_fx(market_id, outcome, i as nat),
            decreases bettors - i,
        {
            proof {
                lemma_payouts_fit(pre, market_id, outcome, (i + 1) as nat, bettors as nat);
            }
            assert(self@.winner(market_id, outcome, i) == pre.winner(market_id, outcome, i));
            if let Some((bettor, net)) = self.winner_at(market_id, outcome, i) {
                proof {
                    lemma_quotient(net * pool, winning_side as int);
                }
                let payout: i128 = (net * pool) / winning_side;
                self.payouts.set((market_id, bettor), payout);
                emit_bump(env, DataKey::Payout(market_id, bettor));
                payout_sum = payout_sum + payout;
            }
            i = i + 1;
            assert(self@ =~= (MarketsView {
                payouts: pre.payouts_set(market_id, outcome, i as nat),
                ..pre
            }));
            assert(env.effects@ =~= before + pre.payouts_fx(market_id, outcome, i as nat));
        }
        payout_sum
    }

    /// Can the caller resolve the market at time `now`?
    pub fn check_resolve(&self, caller: Address, market_id: u64, now: u64) -> (r: Result<
        (),
        MarketError,
    >)
        ensures
            r == self@.resolve_guard(caller, market_id, now),
    {
        if let Err(e) = self.require_admin_or_resolver(&caller) {
            return Err(e);
        }
        match self.markets.get(&market_id) {
            None => Err(MarketError::MarketNotFound),
            Some(market) => if market.resolved {
                Err(MarketError::MarketResolved)
            } else if market.cancelled {
                Err(MarketError::MarketCancelled)
            } else if now < market.end_time {
                Err(MarketError::MarketNotExpired)
            } else {
                Ok(())
            },
        }
    }

    /// Decides a market whose time is up. The pool goes to those who bet on the side
    /// that won, in proportion to their stakes; what rounding leaves goes to the
    /// fees, and so does the whole pool if nobody bet on that side.
    pub fn resolve_market(
        &mut self,
        env: &mut Env<Effect>,
        caller: Address,
        market_id: u64,
        outcome: bool,
    ) -> (r: Result<(), MarketError>)
        requires
            old(self)@.resolve_guard(caller, market_id, old(env).ledger.timestamp) is Ok ==> old(
                self,
            )@.resolve_fits(market_id, outcome),
        ensures
            r == old(self)@.resolve_guard(caller, market_id, old(env).ledger.timestamp),
            r is Err ==> {
                &&& final(self)@ == old(self)@
                &&& final(env).adds(*old(env), seq![Effect::RequireAuth(caller)])
            },
            r is Ok ==> {
                &&& final(self)@ == old(self)@.with_outcome(market_id, outcome)
                &&& final(env).adds(
                    *old(env),
                    seq![Effect::RequireAuth(caller)] + old(self)@.resolve_fx(market_id, outcome),
                )
            },
    {
        let ghost pre = self@;
        let ghost before = env.effects@;
        env.emit(Effect::RequireAuth(caller));
        if let Err(e) = self.check_resolve(caller, market_id, env.ledger.timestamp) {
            return Err(e);
        }
        let (total_yes, total_no) = self.totals(market_id);
        let total_pool: i128 = total_yes + total_no;
        let winning_side: i128 = if outcome {
            total_yes
        } else {
            total_no
        };
        if winning_side == 0 {
            if total_pool > 0 {
                self.sweep(env, market_id, total_pool);
            }
        } else {
            let payout_sum: i128 = self.pay_winners(
                env,
                market_id,
                outcome,
                total_pool,
                winning_side,
            );
            let dust: i128 = total_pool - payout_sum;
            if dust > 0 {
                self.sweep(env, market_id, dust);
            }
        }
        if let Some(mut market) = self.markets.remove(&market_id) {
            market.resolved = true;
            market.outcome = outcome;
            self.markets.set(market_id, market);
        }
        emit_bump(env, DataKey::Market(market_id));
        assert(env.effects@ =~= before + (seq![Effect::RequireAuth(caller)] + pre.resolve_fx(
            market_id,
            outcome,
        )));
        assert(self@ =~= pre.with_outcome(market_id, outcome));
        Ok(())
    }

    /// Calls a market off. Admin only. Everyone who bet on it can then get a refund.
    pub fn cancel_market(&mut self, env: &mut Env<Effect>, admin: Address, market_id: u64) -> (r:
        Result<(), MarketError>)
        ensures
            r == old(self)@.cancel_guard(admin, market_id),
            r is Err ==> {
                &&& final(self)@ == old(self)@
                &&& final(env).adds(
                    *old(env),
                    if old(self)@.admin_guard(admin) is Err {
                        Seq::empty()
                    } else {
                        seq![Effect::RequireAuth(admin)]
                    },
                )
            },
            r is Ok ==> {
                &&& final(self)@ == old(self)@.with_cancelled(market_id)
                &&& final(env).adds(
                    *old(env),
                    seq![Effect::RequireAuth(admin), types::bump(DataKey::Market(market_id))],
                )
            },
    {
        let ghost pre = self@;
        let ghost before = env.effects@;
        assert(before =~= before + Seq::<Effect>::empty());
        if let Err(e) = self.require_admin(&admin) {
            return Err(e);
        }
        env.emit(Effect::RequireAuth(admin));
        match self.markets.get(&market_id) {
            None => {
                return Err(MarketError::MarketNotFound);
            },
            Some(market) => {
                if market.resolved {
                    return Err(MarketError::MarketResolved);
                }
                if market.cancelled {
                    return Err(MarketError::MarketCancelled);
                }
            },
        }
        if let Some(mut market) = self.markets.remove(&market_id) {
            market.cancelled = true;
            self.markets.set(market_id, market);
        }
        emit_bump(env, DataKey::Market(market_id));
        assert(env.effects@ =~= before + seq![
            Effect::RequireAuth(admin),
            types::bump(DataKey::Market(market_id)),
        ]);
        assert(self@ =~= pre.with_cancelled(market_id));
        Ok(())
    }

    /// Pays a user back what the contract holds for their bets on a cancelled
    /// market, once, and returns the amount.
    pub fn cancel_refund(&mut self, env: &mut Env<Effect>, user: Address, market_id: u64) -> (r:
        Result<i128, MarketError>)
        requires
            old(self)@.refund_guard(user, market_id) is Ok ==> {
                let e = old(self)@.bets[(market_id, user)];
                &&& model::in_range(e.refundable - e.net)
                &&& old(self)@.cfg is Some
            },
        ensures
            match old(self)@.refund_guard(user, market_id) {
                Err(e) => {
                    &&& r == Err::<i128, _>(e)
                    &&& final(self)@ == old(self)@
                    &&& final(env).adds(*old(env), seq![Effect::RequireAuth(user)])
                },
                Ok(_) => {
                    let amount = old(self)@.bets[(market_id, user)].refundable;
                    &&& r == Ok::<_, MarketError>(amount)
                    &&& final(self)@ == old(self)@.with_refund(user, market_id)
                    &&& final(env).adds(
                        *old(env),
                        seq![
                            Effect::RequireAuth(user),
                            types::bump(DataKey::Bet(market_id, user)),
                            types::bump(DataKey::Market(market_id)),
                            Effect::Transfer {
                                asset: old(self)@.cfg->0.xlm_sac,
                                from: old(env).ledger.contract,
                                to: user,
                                amount,
                            },
                        ],
                    )
                },
            },
    {
        let ghost pre = self@;
        let ghost before = env.effects@;
        env.emit(Effect::RequireAuth(user));
        match self.markets.get(&market_id) {
            None => {
                return Err(MarketError::MarketNotFound);
            },
            Some(market) => {
                if !market.cancelled {
                    return Err(MarketError::MarketNotCancelled);
                }
            },
        }
        let entry = match self.bets.copied(&(market_id, user)) {
            None => {
                return Err(MarketError::NoBetFound);
            },
            Some(e) => e,
        };
        if entry.refundable == 0 {
            return Err(MarketError::NoBetFound);
        }
        let refundable: i128 = entry.refundable;
        let fee_share: i128 = refundable - entry.net;
        self.accumulated_fees = saturating_sub(self.accumulated_fees, fee_share);
        self.bets.set(
            (market_id, user),
            BetEntry {
                net: entry.net,
                gross: 0,
                refundable: 0,
                is_yes: entry.is_yes,
                claimed: entry.claimed,
                count: entry.count,
            },
        );
        emit_bump(env, DataKey::Bet(market_id, user));
        emit_bump(env, DataKey::Market(market_id));
        let cfg = self.cfg.unwrap();
        let this = env.ledger.contract;
        env.emit(
            Effect::Transfer { asset: cfg.xlm_sac, from: this, to: user, amount: refundable },
        );
        assert(env.effects@ =~= before + seq![
            Effect::RequireAuth(user),
            types::bump(DataKey::Bet(market_id, user)),
            types::bump(DataKey::Market(market_id)),
            Effect::Transfer { asset: cfg.xlm_sac, from: this, to: user, amount: refundable },
        ]);
        assert(self@ =~= pre.with_refund(user, market_id));
        Ok(refundable)
    }

    /// Closes a user's bets on a resolved market, once: a winner gets the payout that
    /// resolution assigned, and everyone gets points and reward tokens. Those who bet
    /// on a winning side without stakes are rewarded as if they had lost.
    pub fn claim(&mut self, env: &mut Env<Effect>, user: Address, market_id: u64) -> (r: Result<
        (),
        MarketError,
    >)
        requires
            old(self)@.claim_guard(user, market_id) is Ok ==> old(self)@.cfg is Some,
        ensures
            r == old(self)@.claim_guard(user, market_id),
            r is Err ==> {
                &&& final(self)@ == old(self)@
                &&& final(env).adds(*old(env), seq![Effect::RequireAuth(user)])
            },
            r is Ok ==> {
                &&& final(self)@ == old(self)@.with_claim(user, market_id)
                &&& final(env).adds(
                    *old(env),
                    old(self)@.claim_fx(user, market_id, old(env).ledger.contract),
                )
            },
    {
        let ghost pre = self@;
        let ghost before = env.effects@;
        env.emit(Effect::RequireAuth(user));
        let (outcome, winning_side): (bool, i128) = match self.markets.get(&market_id) {
            None => {
                return Err(MarketError::MarketNotFound);
            },
            Some(market) => {
                if market.cancelled {
                    return Err(MarketError::MarketCancelled);
                }
                if !market.resolved {
                    return Err(MarketError::MarketNotResolved);
                }
                if market.outcome {
                    (true, market.total_yes)
                } else {
                    (false, market.total_no)
                }
            },
        };
        let entry = match self.bets.copied(&(market_id, user)) {
            None => {
                return Err(MarketError::NoBetFound);
            },
            Some(e) => e,
        };
        if entry.claimed {
            return Err(MarketError::AlreadyClaimed);
        }
        let is_winner = entry.is_yes == outcome;
        self.bets.set(
            (market_id, user),
            BetEntry {
                net: entry.net,
                gross: entry.gross,
                refundable: entry.refundable,
                is_yes: entry.is_yes,
                claimed: true,
                count: entry.count,
            },
        );
        emit_bump(env, DataKey::Bet(market_id, user));
        emit_bump(env, DataKey::Market(market_id));
        let cfg = self.cfg.unwrap();
        let this = env.ledger.contract;
        let payout: i128 = self.get_payout(market_id, user);
        if is_winner && payout > 0 {
            env.emit(
                Effect::Transfer { asset: cfg.xlm_sac, from: this, to: user, amount: payout },
            );
        }
        let real_win = is_winner && winning_side > 0;
        let (points, tokens): (u64, i128) = if real_win {
            (WIN_POINTS, WIN_TOKENS)
        } else {
            (LOSE_POINTS, LOSE_TOKENS)
        };
        env.emit(
            Effect::AddPts { leaderboard: cfg.leaderboard, from: this, user, points, won: real_win },
        );
        if tokens > 0 {
            env.emit(Effect::Mint { token: cfg.token, minter: this, to: user, amount: tokens });
        }
        assert(env.effects@ =~= before + pre.claim_fx(user, market_id, this));
        assert(self@ =~= pre.with_claim(user, market_id));
        Ok(())
    }

    /// What resolution assigned to a user.
    pub fn get_payout(&self, market_id: u64, user: Address) -> (r: i128)
        ensures
            r == self@.payout(market_id, user),
    {
        match self.payouts.copied(&(market_id, user)) {
            Some(n) => n,
            None => 0,
        }
    }
}

} // verus!
