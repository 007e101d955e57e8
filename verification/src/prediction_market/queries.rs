//! Reading markets and bets.

use crate::env::Address;
use crate::prediction_market::types::{
    Bet, Market, MarketError, PredictionMarketContract, MAX_BETTORS_PER_PAGE,
};
use vstd::prelude::*;

verus! {

impl PredictionMarketContract {
    /// A market by its number.
    pub fn get_market(&self, market_id: u64) -> (r: Result<&Market, MarketError>)
        ensures
            r == (match self@.markets.get(market_id) {
                Some(m) => Ok(&m),
                None => Err::<&Market, _>(MarketError::MarketNotFound),
            }),
    {
        match self.markets.get(&market_id) {
            Some(m) => Ok(m),
            None => Err(MarketError::MarketNotFound),
        }
    }

    /// What a user has staked on a market.
    pub fn get_bet(&self, market_id: u64, user: Address) -> (r: Result<Bet, MarketError>)
        ensures
            r == (match self@.bets.get((market_id, user)) {
                Some(e) => Ok(Bet { amount: e.net, is_yes: e.is_yes, claimed: e.claimed }),
                None => Err(MarketError::NoBetFound),
            }),
    {
        match self.bets.copied(&(market_id, user)) {
            Some(e) => Ok(Bet { amount: e.net, is_yes: e.is_yes, claimed: e.claimed }),
            None => Err(MarketError::NoBetFound),
        }
    }

    /// How many markets have been created.
    pub fn get_market_count(&self) -> (r: u64)
        ensures
            r == self@.market_count,
    {
        self.market_count
    }

    /// The first page of a market's bettors.
    pub fn get_market_bettors(&self, market_id: u64) -> (r: Result<Vec<Address>, MarketError>)
        ensures
            r is Ok <==> self@.markets.contains_key(market_id),
            r matches Ok(a) ==> a@ == self@.bettors_page(market_id, 0, MAX_BETTORS_PER_PAGE),
            r matches Err(e) ==> e == MarketError::MarketNotFound,
    {
        self.get_market_bettors_page(market_id, 0, MAX_BETTORS_PER_PAGE)
    }

    /// At most `limit` of a market's bettors, from place `start` of the index on, in
    /// the order of their first bets. A page is never longer than
    /// [`MAX_BETTORS_PER_PAGE`].
    pub fn get_market_bettors_page(&self, market_id: u64, start: u32, limit: u32) -> (r: Result<
        Vec<Address>,
        MarketError,
    >)
        ensures
            r is Ok <==> self@.markets.contains_key(market_id),
            r matches Ok(a) ==> a@ == self@.bettors_page(market_id, start, limit),
            r matches Err(e) ==> e == MarketError::MarketNotFound,
    {
        if !self.markets.has(&market_id) {
            return Err(MarketError::MarketNotFound);
        }
        let count: u32 = self.bettors(market_id);
        let page_limit: u32 = if limit < MAX_BETTORS_PER_PAGE {
            limit
        } else {
            MAX_BETTORS_PER_PAGE
        };
        let wanted: u32 = start.saturating_add(page_limit);
        let end: u32 = if wanted < count {
            wanted
        } else {
            count
        };
        let mut result: Vec<Address> = Vec::new();
        let mut i: u32 = start;
        while i < end
            invariant
                start <= i,
                i <= end || i == start,
                result@ == self@.bettors_between(market_id, start as nat, i as nat),
            decreases end - i,
        {
            if let Some(a) = self.bettor_at.copied(&(market_id, i)) {
                result.push(a);
            }
            i = i + 1;
        }
        assert(end <= start ==> self@.bettors_between(market_id, start as nat, end as nat)
            =~= Seq::empty());
        Ok(result)
    }

    /// How often a user has bet on a market.
    pub fn get_user_bet_count(&self, market_id: u64, user: Address) -> (r: u32)
        ensures
            r == (match self@.bets.get((market_id, user)) {
                Some(e) => e.count,
                None => 0,
            }),
    {
        match self.bets.copied(&(market_id, user)) {
            Some(e) => e.count,
            None => 0,
        }
    }

    /// What a user has sent for bets on a market, fees included.
    pub fn get_bet_gross(&self, market_id: u64, user: Address) -> (r: i128)
        ensures
            r == (match self@.bets.get((market_id, user)) {
                Some(e) => e.gross,
                None => 0,
            }),
    {
        match self.bets.copied(&(market_id, user)) {
            Some(e) => e.gross,
            None => 0,
        }
    }
}

} // verus!
