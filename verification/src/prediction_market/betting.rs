//! Placing bets.
//!
//! A bet has two halves: first the stake is taken and the referral contract is told
//! of its fee, then the bet is recorded with what the referral contract replied.

use crate::env::{Address, Env};
use crate::prediction_market::model;
use crate::prediction_market::types::{
    emit_bump, BetEntry, DataKey, Effect, Market, MarketError, PredictionMarketContract, BPS_DENOM,
    MAX_BETS_PER_USER, MIN_BET, NET_NUMERATOR, PLATFORM_FEE_BPS, TOTAL_FEE_BPS,
};
use vstd::prelude::*;

verus! {

/// The parts of a bet, with the percentages in figures.
pub(crate) proof fn lemma_parts(amount: i128)
    ensures
        amount * NET_NUMERATOR == 9800 * amount,
        amount * TOTAL_FEE_BPS == 200 * amount,
        amount * PLATFORM_FEE_BPS == 150 * amount,
        model::net_of(amount) == (9800 * amount) / 10000,
        model::platform_fee_of(amount) == (150 * amount) / 10000,
        model::referral_fee_of(amount) == (200 * amount) / 10000 - (150 * amount) / 10000,
{
    let n: int = NET_NUMERATOR as int;
    let t: int = TOTAL_FEE_BPS as int;
    let p: int = PLATFORM_FEE_BPS as int;
    let a: int = amount as int;
    assert(a * n == 9800 * a) by (nonlinear_arith)
        requires
            n == 9800,
    ;
    assert(a * t == 200 * a) by (nonlinear_arith)
        requires
            t == 200,
    ;
    assert(a * p == 150 * a) by (nonlinear_arith)
        requires
            p == 150,
    ;
}

/// A bet that is large enough has a stake and fees that are not negative and
/// together not larger than the bet.
pub(crate) proof fn lemma_split(amount: i128)
    requires
        model::net_of(amount) >= MIN_BET,
    ensures
        amount > 0,
        model::net_of(amount) <= amount,
        model::platform_fee_of(amount) >= 0,
        model::referral_fee_of(amount) >= 0,
        model::net_of(amount) + model::platform_fee_of(amount) + model::referral_fee_of(amount)
            <= amount,
{
    lemma_parts(amount);
}

impl PredictionMarketContract {
    /// Why a bet is refused, if it is.
    fn check_bet(
        &self,
        user: &Address,
        market_id: u64,
        is_yes: bool,
        amount: i128,
        now: u64,
    ) -> (r: Result<(), MarketError>)
        requires
            model::in_range(amount * NET_NUMERATOR),
        ensures
            r == self@.bet_guard(*user, market_id, is_yes, amount, now),
    {
        let net: i128 = amount * NET_NUMERATOR / BPS_DENOM;
        if net < MIN_BET {
            return Err(MarketError::BetTooSmall);
        }
        match self.markets.get(&market_id) {
            None => {
                return Err(MarketError::MarketNotFound);
            },
            Some(market) => {
                if market.cancelled {
                    return Err(MarketError::MarketCancelled);
                }
                if market.resolved {
                    return Err(MarketError::MarketResolved);
                }
                if now >= market.end_time {
                    return Err(MarketError::MarketExpired);
                }
            },
        }
        if let Some(e) = self.bets.copied(&(market_id, *user)) {
            if e.count >= MAX_BETS_PER_USER {
                return Err(MarketError::TooManyBets);
            }
            if e.is_yes != is_yes {
                return Err(MarketError::OppositeSideBet);
            }
        }
        Ok(())
    }

    /// Is the referral contract to be asked about this user's bets?
    pub fn asks_referral(&self, user: Address) -> (r: bool)
        ensures
            r == self@.asks_referral(user),
    {
        match self.has_referrer.copied(&user) {
            Some(b) => b,
            None => true,
        }
    }

    /// First half of a bet: checks it, takes the stake, and sends the referral fee
    /// on where the referral contract is asked. Returns whether it is. Nothing is
    /// recorded yet.
    pub fn open_bet(
        &self,
        env: &mut Env<Effect>,
        user: Address,
        market_id: u64,
        is_yes: bool,
        amount: i128,
    ) -> (r: Result<bool, MarketError>)
        requires
            model::in_range(amount * NET_NUMERATOR),
            self@.bet_guard(user, market_id, is_yes, amount, old(env).ledger.timestamp) is Ok
                ==> self@.cfg is Some,
        ensures
            match self@.bet_guard(user, market_id, is_yes, amount, old(env).ledger.timestamp) {
                Err(e) => {
                    &&& r == Err::<bool, _>(e)
                    &&& final(env).adds(*old(env), seq![Effect::RequireAuth(user)])
                },
                Ok(_) => {
                    &&& r == Ok::<_, MarketError>(self@.asks_referral(user))
                    &&& final(env).adds(
                        *old(env),
                        self@.open_bet_fx(user, amount, old(env).ledger.contract),
                    )
                },
            },
    {
        let ghost before = env.effects@;
        env.emit(Effect::RequireAuth(user));
        if let Err(e) = self.check_bet(&user, market_id, is_yes, amount, env.ledger.timestamp) {
            return Err(e);
        }
        proof {
            lemma_parts(amount);
            lemma_split(amount);
        }
        let total_fee: i128 = amount * TOTAL_FEE_BPS / BPS_DENOM;
        let platform_fee: i128 = amount * PLATFORM_FEE_BPS / BPS_DENOM;
        let referral_fee: i128 = total_fee - platform_fee;
        let cfg = self.cfg.unwrap();
        let this = env.ledger.contract;
        env.emit(Effect::Transfer { asset: cfg.xlm_sac, from: user, to: this, amount });
        let asked = self.asks_referral(user);
        if asked {
            env.emit(
                Effect::Transfer {
                    asset: cfg.xlm_sac,
                    from: this,
                    to: cfg.referral,
                    amount: referral_fee,
                },
            );
            env.emit(
                Effect::Credit { referral: cfg.referral, from: this, user, fee: referral_fee },
            );
        }
        assert(env.effects@ =~= before + self@.open_bet_fx(user, amount, this));
        Ok(asked)
    }

    /// Do all sums that a bet changes stay within range?
    pub fn bet_fits(
        &self,
        user: Address,
        market_id: u64,
        is_yes: bool,
        amount: i128,
        credited: bool,
    ) -> (r: bool)
        requires
            model::in_range(amount * NET_NUMERATOR),
            model::net_of(amount) >= MIN_BET,
            self@.markets.contains_key(market_id),
        ensures
            r == self@.bet_fits(user, market_id, is_yes, amount, credited),
    {
        proof {
            lemma_parts(amount);
            lemma_split(amount);
        }
        let net: i128 = amount * NET_NUMERATOR / BPS_DENOM;
        let platform_fee: i128 = amount * PLATFORM_FEE_BPS / BPS_DENOM;
        let referral_fee: i128 = amount * TOTAL_FEE_BPS / BPS_DENOM - platform_fee;
        let paid_referrer = self.asks_referral(user) && credited;
        let held_fees: i128 = platform_fee + if paid_referrer {
            0
        } else {
            referral_fee
        };
        if self.accumulated_fees.checked_add(held_fees).is_none() {
            return false;
        }
        if self.get_market_fees(market_id).checked_add(held_fees).is_none() {
            return false;
        }
        let (staked, bet_count): (i128, u32) = match self.markets.get(&market_id) {
            Some(m) => (
                if is_yes {
                    m.total_yes
                } else {
                    m.total_no
                },
                m.bet_count,
            ),
            None => (0, 0),
        };
        if staked.checked_add(net).is_none() {
            return false;
        }
        match self.bets.copied(&(market_id, user)) {
            Some(e) => {
                e.net.checked_add(net).is_some() && e.gross.checked_add(amount).is_some()
                    && e.refundable.checked_add(net + held_fees).is_some()
            },
            None => { self.bettors(market_id) < u32::MAX && bet_count < u32::MAX },
        }
    }

    /// Second half of a bet: records it. `credited` is what the referral contract
    /// replied; it does not matter where that was not asked.
    pub fn settle_bet(
        &mut self,
        env: &mut Env<Effect>,
        user: Address,
        market_id: u64,
        is_yes: bool,
        amount: i128,
        credited: bool,
    )
        requires
            model::in_range(amount * NET_NUMERATOR),
            old(self)@.bet_guard(user, market_id, is_yes, amount, old(env).ledger.timestamp) is Ok,
            old(self)@.bet_fits(user, market_id, is_yes, amount, credited),
        ensures
            final(self)@ == old(self)@.with_bet(user, market_id, is_yes, amount, credited),
            final(env).adds(*old(env), old(self)@.settle_bet_fx(user, market_id)),
    {
        let ghost before = env.effects@;
        let ghost pre = self@;
        proof {
            lemma_parts(amount);
            lemma_split(amount);
        }
        let net: i128 = amount * NET_NUMERATOR / BPS_DENOM;
        let total_fee: i128 = amount * TOTAL_FEE_BPS / BPS_DENOM;
        let platform_fee: i128 = amount * PLATFORM_FEE_BPS / BPS_DENOM;
        let referral_fee: i128 = total_fee - platform_fee;

        let paid_referrer = self.asks_referral(user) && credited;
        if !self.has_referrer.has(&user) {
            self.has_referrer.set(user, credited);
            emit_bump(env, DataKey::HasReferrer(user));
        }
        let held_fees: i128 = platform_fee + if paid_referrer {
            0
        } else {
            referral_fee
        };
        self.accumulated_fees = self.accumulated_fees + held_fees;
        let mkt_fees: i128 = self.get_market_fees(market_id);
        self.market_fees.set(market_id, mkt_fees + held_fees);
        emit_bump(env, DataKey::MarketFees(market_id));

        let existing = self.bets.copied(&(market_id, user));
        let entry = match existing {
            Some(e) => BetEntry {
                net: e.net + net,
                gross: e.gross + amount,
                refundable: e.refundable + (net + held_fees),
                is_yes: e.is_yes,
                claimed: e.claimed,
                count: e.count + 1,
            },
            None => BetEntry {
                net,
                gross: amount,
                refundable: net + held_fees,
                is_yes,
                claimed: false,
                count: 1,
            },
        };
        self.bets.set((market_id, user), entry);
        emit_bump(env, DataKey::Bet(market_id, user));

        if existing.is_none() {
            let count: u32 = self.bettors(market_id);
            self.bettor_at.set((market_id, count), user);
            emit_bump(env, DataKey::BettorAt(market_id, count));
            self.bettor_count.set(market_id, count + 1);
            emit_bump(env, DataKey::BettorCount(market_id));
        }
        if let Some(mut market) = self.markets.remove(&market_id) {
            if existing.is_none() {
                market.bet_count = market.bet_count + 1;
            }
            if is_yes {
                market.total_yes = market.total_yes + net;
            } else {
                market.total_no = market.total_no + net;
            }
            self.markets.set(market_id, market);
        }
        emit_bump(env, DataKey::Market(market_id));
        assert(env.effects@ =~= before + pre.settle_bet_fx(user, market_id));
        assert(self@ =~= pre.with_bet(user, market_id, is_yes, amount, credited));
    }

    /// Bets `amount` on one side of a market: both halves, where the reply of the
    /// referral contract is known.
    pub fn place_bet(
        &mut self,
        env: &mut Env<Effect>,
        user: Address,
        market_id: u64,
        is_yes: bool,
        amount: i128,
        credited: bool,
    ) -> (r: Result<(), MarketError>)
        requires
            model::in_range(amount * NET_NUMERATOR),
            old(self)@.bet_guard(user, market_id, is_yes, amount, old(env).ledger.timestamp) is Ok
                ==> {
                &&& old(self)@.cfg is Some
                &&& old(self)@.bet_fits(user, market_id, is_yes, amount, credited)
            },
        ensures
            r == old(self)@.bet_guard(
                user,
                market_id,
                is_yes,
                amount,
                old(env).ledger.timestamp,
            ),
            r is Err ==> {
                &&& final(self)@ == old(self)@
                &&& final(env).adds(*old(env), seq![Effect::RequireAuth(user)])
            },
            r is Ok ==> {
                &&& final(self)@ == old(self)@.with_bet(user, market_id, is_yes, amount, credited)
                &&& final(env).adds(
                    *old(env),
                    old(self)@.open_bet_fx(user, amount, old(env).ledger.contract)
                        + old(self)@.settle_bet_fx(user, market_id),
                )
            },
    {
        let ghost before = env.effects@;
        let ghost pre = self@;
        if let Err(e) = self.open_bet(env, user, market_id, is_yes, amount) {
            return Err(e);
        }
        self.settle_bet(env, user, market_id, is_yes, amount, credited);
        assert(env.effects@ =~= before + (pre.open_bet_fx(user, amount, env.ledger.contract)
            + pre.settle_bet_fx(user, market_id)));
        Ok(())
    }

    /// How many users have bet on a market.
    pub(crate) fn bettors(&self, market_id: u64) -> (r: u32)
        ensures
            r == self@.bettors(market_id),
    {
        match self.bettor_count.copied(&market_id) {
            Some(n) => n,
            None => 0,
        }
    }

    /// What a market has added to the accumulated fees.
    pub fn get_market_fees(&self, market_id: u64) -> (r: i128)
        ensures
            r == self@.fees_of(market_id),
    {
        match self.market_fees.copied(&market_id) {
            Some(n) => n,
            None => 0,
        }
    }
}

} // verus!
