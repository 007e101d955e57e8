//! The market contract as a state machine: when a call is refused, what an
//! accepted one makes of the contents, and what it asks of the host.

use crate::env::Address;
use crate::prediction_market::types::{
    bump, BetEntry, Category, DataKey, Effect, Limits, Market, MarketError, MarketsView,
    WithdrawalRequest, BPS_DENOM, LOSE_POINTS, LOSE_TOKENS, MAX_BETS_PER_USER, MAX_BETTORS_PER_PAGE,
    MAX_MARKETS_PER_HOUR, MAX_WITHDRAWAL_BPS, MIN_BET, MIN_MARKET_DURATION_SECS, NET_NUMERATOR,
    PLATFORM_FEE_BPS, RATE_WINDOW_SECS, TOTAL_FEE_BPS, TTL_BUMP, TTL_HIGH, WIN_POINTS, WIN_TOKENS,
    WITHDRAW_DELAY_SECS,
};
use vstd::prelude::*;

verus! {

/// Is this a value of the contract's integers?
pub open spec fn in_range(n: int) -> bool {
    i128::MIN <= n <= i128::MAX
}

/// What the fee leaves of a bet.
pub open spec fn net_of(amount: i128) -> int {
    amount * NET_NUMERATOR / BPS_DENOM as int
}

/// The platform's part of the fee on a bet.
pub open spec fn platform_fee_of(amount: i128) -> int {
    amount * PLATFORM_FEE_BPS / BPS_DENOM as int
}

/// The referrer's part of the fee on a bet: what the platform's part leaves of the
/// whole fee.
pub open spec fn referral_fee_of(amount: i128) -> int {
    amount * TOTAL_FEE_BPS / BPS_DENOM as int - platform_fee_of(amount)
}

/// What of the fee on a bet stays with the contract: the platform's part, and the
/// referrer's part if no referrer got it.
pub open spec fn held_of(amount: i128, paid_referrer: bool) -> int {
    platform_fee_of(amount) + if paid_referrer {
        0
    } else {
        referral_fee_of(amount)
    }
}

/// The quotient of two integers, rounded toward zero, for a positive divisor.
pub open spec fn quotient(a: int, b: int) -> int {
    if a >= 0 {
        a / b
    } else {
        -((-a) / b)
    }
}

/// Does a rate window admit one more market at time `now`, and what does it become?
/// A clock that has gone back stays in the window.
pub open spec fn rate(window: Option<(u64, u32)>, now: u64) -> Option<(u64, u32)> {
    let (start, count) = match window {
        Some(w) => w,
        None => (now, 0u32),
    };
    if now < start + RATE_WINDOW_SECS {
        if count >= MAX_MARKETS_PER_HOUR {
            None
        } else {
            Some((start, (count + 1) as u32))
        }
    } else {
        Some((now, 1u32))
    }
}

impl Limits {
    /// The constants of the protocol.
    pub open spec fn protocol() -> Self {
        Limits {
            net_numerator: NET_NUMERATOR,
            total_fee_bps: TOTAL_FEE_BPS,
            platform_fee_bps: PLATFORM_FEE_BPS,
            bps_denom: BPS_DENOM,
            min_bet: MIN_BET,
            max_bets_per_user: MAX_BETS_PER_USER,
            max_markets_per_hour: MAX_MARKETS_PER_HOUR,
            max_withdrawal_bps: MAX_WITHDRAWAL_BPS,
            withdraw_delay_secs: WITHDRAW_DELAY_SECS,
            ttl_bump: TTL_BUMP,
            ttl_high: TTL_HIGH,
            min_market_duration_secs: MIN_MARKET_DURATION_SECS,
        }
    }

    /// The constants fit together: the fee and the net stake make a whole, no part
    /// of the fee exceeds it, limits and delays are positive, and entries are
    /// extended beyond the point at which they are due for it.
    pub open spec fn sound(self) -> bool {
        &&& self.net_numerator + self.total_fee_bps == self.bps_denom
        &&& 0 < self.platform_fee_bps <= self.total_fee_bps
        &&& self.min_bet > 0
        &&& self.max_bets_per_user > 0
        &&& self.max_markets_per_hour > 0
        &&& 0 < self.max_withdrawal_bps <= self.bps_denom
        &&& self.withdraw_delay_secs > 0
        &&& 0 < self.ttl_bump <= self.ttl_high
        &&& self.min_market_duration_secs > 0
    }
}

impl Market {
    /// The stakes on both sides.
    pub open spec fn pool(self) -> int {
        self.total_yes + self.total_no
    }

    /// The stakes on one side.
    pub open spec fn side(self, yes: bool) -> i128 {
        if yes {
            self.total_yes
        } else {
            self.total_no
        }
    }
}

impl MarketsView {
    /// The contents before `initialize`.
    pub open spec fn empty() -> Self {
        MarketsView {
            admin: None,
            cfg: None,
            market_count: 0,
            accumulated_fees: 0,
            rate_window: None,
            markets: Map::empty(),
            bets: Map::empty(),
            bettor_count: Map::empty(),
            bettor_at: Map::empty(),
            resolvers: Map::empty(),
            fee_recipients: Map::empty(),
            has_referrer: Map::empty(),
            payouts: Map::empty(),
            market_fees: Map::empty(),
            pending_withdrawals: Map::empty(),
        }
    }

    /// Only the admin may call.
    pub open spec fn admin_guard(self, caller: Address) -> Result<(), MarketError> {
        match self.admin {
            None => Err(MarketError::NotInitialized),
            Some(a) => if caller == a {
                Ok(())
            } else {
                Err(MarketError::NotAdmin)
            },
        }
    }

    pub open spec fn is_resolver(self, a: Address) -> bool {
        self.resolvers.get(a) == Some(true)
    }

    pub open spec fn is_fee_recipient(self, a: Address) -> bool {
        self.fee_recipients.get(a) == Some(true)
    }

    /// Only the admin and resolvers may call.
    pub open spec fn resolver_guard(self, caller: Address) -> Result<(), MarketError> {
        match self.admin {
            None => Err(MarketError::NotInitialized),
            Some(a) => if caller == a || self.is_resolver(caller) {
                Ok(())
            } else {
                Err(MarketError::NotResolver)
            },
        }
    }

    /// Only the admin and fee recipients may call.
    pub open spec fn fee_guard(self, caller: Address) -> Result<(), MarketError> {
        match self.admin {
            None => Err(MarketError::NotInitialized),
            Some(a) => if caller == a || self.is_fee_recipient(caller) {
                Ok(())
            } else {
                Err(MarketError::NotAuthorized)
            },
        }
    }

    /// Fees go to the caller, the admin or a fee recipient only.
    pub open spec fn recipient_guard(self, caller: Address, recipient: Address) -> Result<
        (),
        MarketError,
    > {
        match self.admin {
            None => Err(MarketError::NotInitialized),
            Some(a) => if recipient == caller || recipient == a || self.is_fee_recipient(
                recipient,
            ) {
                Ok(())
            } else {
                Err(MarketError::InvalidFeeRecipient)
            },
        }
    }

    /// What a market has added to the accumulated fees.
    pub open spec fn fees_of(self, market_id: u64) -> i128 {
        match self.market_fees.get(market_id) {
            Some(n) => n,
            None => 0,
        }
    }

    /// How many users have bet on a market.
    pub open spec fn bettors(self, market_id: u64) -> u32 {
        match self.bettor_count.get(market_id) {
            Some(n) => n,
            None => 0,
        }
    }

    // Creation

    /// Can the admin create a market at time `now`?
    pub open spec fn create_guard(self, caller: Address, now: u64) -> Result<(), MarketError> {
        if self.admin_guard(caller) is Err {
            self.admin_guard(caller)
        } else if rate(self.rate_window, now) is None {
            Err(MarketError::RateLimitExceeded)
        } else {
            Ok(())
        }
    }

    /// The contents with a new market, which has the next number.
    pub open spec fn with_market(
        self,
        creator: Address,
        question: Vec<u8>,
        image_url: Vec<u8>,
        category: Category,
        duration_secs: u64,
        now: u64,
    ) -> Self {
        let id = (self.market_count + 1) as u64;
        MarketsView {
            rate_window: rate(self.rate_window, now),
            market_count: id,
            markets: self.markets.insert(
                id,
                Market {
                    id,
                    question,
                    image_url,
                    category,
                    end_time: (now + duration_secs) as u64,
                    total_yes: 0,
                    total_no: 0,
                    resolved: false,
                    outcome: false,
                    cancelled: false,
                    creator,
                    bet_count: 0,
                },
            ),
            ..self
        }
    }

    // Betting

    /// Can a user bet `amount` on this side of a market at time `now`?
    pub open spec fn bet_guard(
        self,
        user: Address,
        market_id: u64,
        is_yes: bool,
        amount: i128,
        now: u64,
    ) -> Result<(), MarketError> {
        if net_of(amount) < MIN_BET {
            Err(MarketError::BetTooSmall)
        } else {
            match self.markets.get(market_id) {
                None => Err(MarketError::MarketNotFound),
                Some(m) => if m.cancelled {
                    Err(MarketError::MarketCancelled)
                } else if m.resolved {
                    Err(MarketError::MarketResolved)
                } else if now >= m.end_time {
                    Err(MarketError::MarketExpired)
                } else {
                    match self.bets.get((market_id, user)) {
                        None => Ok(()),
                        Some(e) => if e.count >= MAX_BETS_PER_USER {
                            Err(MarketError::TooManyBets)
                        } else if e.is_yes != is_yes {
                            Err(MarketError::OppositeSideBet)
                        } else {
                            Ok(())
                        },
                    }
                },
            }
        }
    }

    /// Is the referral contract asked about this user's bets? It is not once it has
    /// said that there is no referrer.
    pub open spec fn asks_referral(self, user: Address) -> bool {
        self.has_referrer.get(user) != Some(false)
    }

    /// Does a referrer get the referral fee, if the referral contract replies
    /// `credited`?
    pub open spec fn pays_referrer(self, user: Address, credited: bool) -> bool {
        self.asks_referral(user) && credited
    }

    /// What taking a bet asks of the host: the stake, and, where the referral
    /// contract is asked, the referral fee on its way to it.
    pub open spec fn open_bet_fx(self, user: Address, amount: i128, this: Address) -> Seq<Effect> {
        let cfg = self.cfg->0;
        let fee = referral_fee_of(amount) as i128;
        seq![
            Effect::RequireAuth(user),
            Effect::Transfer { asset: cfg.xlm_sac, from: user, to: this, amount },
        ] + (if self.asks_referral(user) {
            seq![
                Effect::Transfer { asset: cfg.xlm_sac, from: this, to: cfg.referral, amount: fee },
                Effect::Credit { referral: cfg.referral, from: this, user, fee },
            ]
        } else {
            Seq::empty()
        })
    }

    /// The bets of a user on a market with one more bet.
    pub open spec fn raised(
        self,
        user: Address,
        market_id: u64,
        is_yes: bool,
        amount: i128,
        held: int,
    ) -> BetEntry {
        let net = net_of(amount);
        match self.bets.get((market_id, user)) {
            Some(e) => BetEntry {
                net: (e.net + net) as i128,
                gross: (e.gross + amount) as i128,
                refundable: (e.refundable + net + held) as i128,
                count: (e.count + 1) as u32,
                ..e
            },
            None => BetEntry {
                net: net as i128,
                gross: amount,
                refundable: (net + held) as i128,
                is_yes,
                claimed: false,
                count: 1,
            },
        }
    }

    /// A market with one more bet.
    pub open spec fn market_raised(
        self,
        user: Address,
        market_id: u64,
        is_yes: bool,
        amount: i128,
    ) -> Market {
        let m = self.markets[market_id];
        let net = net_of(amount);
        Market {
            bet_count: if self.bets.contains_key((market_id, user)) {
                m.bet_count
            } else {
                (m.bet_count + 1) as u32
            },
            total_yes: if is_yes {
                (m.total_yes + net) as i128
            } else {
                m.total_yes
            },
            total_no: if is_yes {
                m.total_no
            } else {
                (m.total_no + net) as i128
            },
            ..m
        }
    }

    /// The contents after a bet, given the reply of the referral contract.
    pub open spec fn with_bet(
        self,
        user: Address,
        market_id: u64,
        is_yes: bool,
        amount: i128,
        credited: bool,
    ) -> Self {
        let held = held_of(amount, self.pays_referrer(user, credited));
        let first = !self.bets.contains_key((market_id, user));
        let n = self.bettors(market_id);
        MarketsView {
            accumulated_fees: (self.accumulated_fees + held) as i128,
            has_referrer: if self.has_referrer.contains_key(user) {
                self.has_referrer
            } else {
                self.has_referrer.insert(user, credited)
            },
            market_fees: self.market_fees.insert(
                market_id,
                (self.fees_of(market_id) + held) as i128,
            ),
            bets: self.bets.insert(
                (market_id, user),
                self.raised(user, market_id, is_yes, amount, held),
            ),
            bettor_at: if first {
                self.bettor_at.insert((market_id, n), user)
            } else {
                self.bettor_at
            },
            bettor_count: if first {
                self.bettor_count.insert(market_id, (n + 1) as u32)
            } else {
                self.bettor_count
            },
            markets: self.markets.insert(
                market_id,
                self.market_raised(user, market_id, is_yes, amount),
            ),
            ..self
        }
    }

    /// What recording a bet asks of the host.
    pub open spec fn settle_bet_fx(self, user: Address, market_id: u64) -> Seq<Effect> {
        (if self.has_referrer.contains_key(user) {
            Seq::empty()
        } else {
            seq![bump(DataKey::HasReferrer(user))]
        }) + seq![bump(DataKey::MarketFees(market_id)), bump(DataKey::Bet(market_id, user))] + (
        if self.bets.contains_key((market_id, user)) {
            Seq::empty()
        } else {
            seq![
                bump(DataKey::BettorAt(market_id, self.bettors(market_id))),
                bump(DataKey::BettorCount(market_id)),
            ]
        }) + seq![bump(DataKey::Market(market_id))]
    }

    /// Do all sums that a bet changes stay within the contract's integers?
    pub open spec fn bet_fits(
        self,
        user: Address,
        market_id: u64,
        is_yes: bool,
        amount: i128,
        credited: bool,
    ) -> bool {
        let held = held_of(amount, self.pays_referrer(user, credited));
        let net = net_of(amount);
        let m = self.markets[market_id];
        &&& self.accumulated_fees + held <= i128::MAX
        &&& self.fees_of(market_id) + held <= i128::MAX
        &&& m.side(is_yes) + net <= i128::MAX
        &&& match self.bets.get((market_id, user)) {
            Some(e) => {
                &&& e.net + net <= i128::MAX
                &&& e.gross + amount <= i128::MAX
                &&& e.refundable + net + held <= i128::MAX
            },
            None => {
                &&& self.bettors(market_id) < u32::MAX
                &&& m.bet_count < u32::MAX
            },
        }
    }

    // Resolution

    /// Can the caller resolve a market at time `now`?
    pub open spec fn resolve_guard(self, caller: Address, market_id: u64, now: u64) -> Result<
        (),
        MarketError,
    > {
        if self.resolver_guard(caller) is Err {
            self.resolver_guard(caller)
        } else {
            match self.markets.get(market_id) {
                None => Err(MarketError::MarketNotFound),
                Some(m) => if m.resolved {
                    Err(MarketError::MarketResolved)
                } else if m.cancelled {
                    Err(MarketError::MarketCancelled)
                } else if now < m.end_time {
                    Err(MarketError::MarketNotExpired)
                } else {
                    Ok(())
                },
            }
        }
    }

    /// The bettor in place `i` of a market's index, if their bet is on record and
    /// on side `outcome`.
    pub open spec fn winner(self, market_id: u64, outcome: bool, i: u32) -> Option<Address> {
        match self.bettor_at.get((market_id, i)) {
            Some(a) => match self.bets.get((market_id, a)) {
                Some(e) => if e.is_yes == outcome {
                    Some(a)
                } else {
                    None
                },
                None => None,
            },
            None => None,
        }
    }

    /// What a winner is paid: the share of the pool that the stake is of the winning
    /// side, rounded down.
    pub open spec fn share(self, market_id: u64, outcome: bool, user: Address) -> int {
        let m = self.markets[market_id];
        quotient(self.bets[(market_id, user)].net * m.pool(), m.side(outcome) as int)
    }

    /// What the winners among the first `n` bettors are paid together.
    pub open spec fn paid_out(self, market_id: u64, outcome: bool, n: nat) -> int
        decreases n,
    {
        if n == 0 {
            0
        } else {
            self.paid_out(market_id, outcome, (n - 1) as nat) + match self.winner(
                market_id,
                outcome,
                (n - 1) as u32,
            ) {
                Some(a) => self.share(market_id, outcome, a),
                None => 0,
            }
        }
    }

    /// The payouts with those of the winners among the first `n` bettors.
    pub open spec fn payouts_set(self, market_id: u64, outcome: bool, n: nat) -> Map<
        (u64, Address),
        i128,
    >
        decreases n,
    {
        if n == 0 {
            self.payouts
        } else {
            let rest = self.payouts_set(market_id, outcome, (n - 1) as nat);
            match self.winner(market_id, outcome, (n - 1) as u32) {
                Some(a) => rest.insert(
                    (market_id, a),
                    self.share(market_id, outcome, a) as i128,
                ),
                None => rest,
            }
        }
    }

    /// What paying the winners among the first `n` bettors asks of the host.
    pub open spec fn payouts_fx(self, market_id: u64, outcome: bool, n: nat) -> Seq<Effect>
        decreases n,
    {
        if n == 0 {
            Seq::empty()
        } else {
            let rest = self.payouts_fx(market_id, outcome, (n - 1) as nat);
            match self.winner(market_id, outcome, (n - 1) as u32) {
                Some(a) => rest.push(bump(DataKey::Payout(market_id, a))),
                None => rest,
            }
        }
    }

    /// Do the payouts of the first `n` bettors stay within the contract's integers?
    pub open spec fn payouts_fit(self, market_id: u64, outcome: bool, n: nat) -> bool
        decreases n,
    {
        n == 0 || {
            &&& self.payouts_fit(market_id, outcome, (n - 1) as nat)
            &&& match self.winner(market_id, outcome, (n - 1) as u32) {
                Some(a) => {
                    &&& in_range(self.bets[(market_id, a)].net * self.markets[market_id].pool())
                    &&& in_range(self.paid_out(market_id, outcome, n))
                },
                None => true,
            }
        }
    }

    /// What resolution adds to the fees: the whole pool if nobody bet on the side
    /// that won, and otherwise what rounding leaves of it.
    pub open spec fn swept(self, market_id: u64, outcome: bool) -> int {
        let m = self.markets[market_id];
        if m.side(outcome) == 0 {
            m.pool()
        } else {
            m.pool() - self.paid_out(market_id, outcome, self.bettors(market_id) as nat)
        }
    }

    /// Does resolution stay within the contract's integers, and within the pool?
    pub open spec fn resolve_fits(self, market_id: u64, outcome: bool) -> bool {
        let m = self.markets[market_id];
        let swept = self.swept(market_id, outcome);
        &&& in_range(m.pool())
        &&& m.side(outcome) >= 0
        &&& m.side(outcome) > 0 ==> {
            &&& self.payouts_fit(market_id, outcome, self.bettors(market_id) as nat)
            &&& 0 <= swept <= i128::MAX
        }
        &&& swept > 0 ==> {
            &&& self.accumulated_fees + swept <= i128::MAX
            &&& self.fees_of(market_id) + swept <= i128::MAX
        }
    }

    /// The contents after resolution.
    pub open spec fn with_outcome(self, market_id: u64, outcome: bool) -> Self {
        let m = self.markets[market_id];
        let swept = self.swept(market_id, outcome);
        MarketsView {
            accumulated_fees: if swept > 0 {
                (self.accumulated_fees + swept) as i128
            } else {
                self.accumulated_fees
            },
            market_fees: if swept > 0 {
                self.market_fees.insert(market_id, (self.fees_of(market_id) + swept) as i128)
            } else {
                self.market_fees
            },
            payouts: if m.side(outcome) == 0 {
                self.payouts
            } else {
                self.payouts_set(market_id, outcome, self.bettors(market_id) as nat)
            },
            markets: self.markets.insert(market_id, Market { resolved: true, outcome, ..m }),
            ..self
        }
    }

    /// What resolution asks of the host.
    pub open spec fn resolve_fx(self, market_id: u64, outcome: bool) -> Seq<Effect> {
        (if self.markets[market_id].side(outcome) == 0 {
            Seq::empty()
        } else {
            self.payouts_fx(market_id, outcome, self.bettors(market_id) as nat)
        }) + (if self.swept(market_id, outcome) > 0 {
            seq![bump(DataKey::MarketFees(market_id))]
        } else {
            Seq::empty()
        }) + seq![bump(DataKey::Market(market_id))]
    }

    // Cancellation

    /// Can the admin cancel a market?
    pub open spec fn cancel_guard(self, caller: Address, market_id: u64) -> Result<
        (),
        MarketError,
    > {
        if self.admin_guard(caller) is Err {
            self.admin_guard(caller)
        } else {
            match self.markets.get(market_id) {
                None => Err(MarketError::MarketNotFound),
                Some(m) => if m.resolved {
                    Err(MarketError::MarketResolved)
                } else if m.cancelled {
                    Err(MarketError::MarketCancelled)
                } else {
                    Ok(())
                },
            }
        }
    }

    /// The contents with a market cancelled.
    pub open spec fn with_cancelled(self, market_id: u64) -> Self {
        MarketsView {
            markets: self.markets.insert(
                market_id,
                Market { cancelled: true, ..self.markets[market_id] },
            ),
            ..self
        }
    }

    /// Can a user get a refund from a market?
    pub open spec fn refund_guard(self, user: Address, market_id: u64) -> Result<
        (),
        MarketError,
    > {
        match self.markets.get(market_id) {
            None => Err(MarketError::MarketNotFound),
            Some(m) => if !m.cancelled {
                Err(MarketError::MarketNotCancelled)
            } else {
                match self.bets.get((market_id, user)) {
                    None => Err(MarketError::NoBetFound),
                    Some(e) => if e.refundable == 0 {
                        Err(MarketError::NoBetFound)
                    } else {
                        Ok(())
                    },
                }
            },
        }
    }

    /// The contents after a refund. The fees in it come out of the accumulated fees.
    pub open spec fn with_refund(self, user: Address, market_id: u64) -> Self {
        let e = self.bets[(market_id, user)];
        let left = self.accumulated_fees - (e.refundable - e.net);
        MarketsView {
            accumulated_fees: if left < i128::MIN {
                i128::MIN
            } else if left > i128::MAX {
                i128::MAX
            } else {
                left as i128
            },
            bets: self.bets.insert((market_id, user), BetEntry { gross: 0, refundable: 0, ..e }),
            ..self
        }
    }

    // Claims

    /// Can a user claim on a market?
    pub open spec fn claim_guard(self, user: Address, market_id: u64) -> Result<(), MarketError> {
        match self.markets.get(market_id) {
            None => Err(MarketError::MarketNotFound),
            Some(m) => if m.cancelled {
                Err(MarketError::MarketCancelled)
            } else if !m.resolved {
                Err(MarketError::MarketNotResolved)
            } else {
                match self.bets.get((market_id, user)) {
                    None => Err(MarketError::NoBetFound),
                    Some(e) => if e.claimed {
                        Err(MarketError::AlreadyClaimed)
                    } else {
                        Ok(())
                    },
                }
            },
        }
    }

    /// The contents after a claim.
    pub open spec fn with_claim(self, user: Address, market_id: u64) -> Self {
        MarketsView {
            bets: self.bets.insert(
                (market_id, user),
                BetEntry { claimed: true, ..self.bets[(market_id, user)] },
            ),
            ..self
        }
    }

    /// What resolution assigned to a user.
    pub open spec fn payout(self, market_id: u64, user: Address) -> i128 {
        match self.payouts.get((market_id, user)) {
            Some(n) => n,
            None => 0,
        }
    }

    /// Is the user's bet on the side that won?
    pub open spec fn has_won(self, user: Address, market_id: u64) -> bool {
        self.bets[(market_id, user)].is_yes == self.markets[market_id].outcome
    }

    /// Is the user's bet on the side that won, and did that side have stakes?
    pub open spec fn really_won(self, user: Address, market_id: u64) -> bool {
        let m = self.markets[market_id];
        self.has_won(user, market_id) && m.side(m.outcome) > 0
    }

    /// What a claim asks of the host: the payout, if there is one, and points and
    /// reward tokens in any case.
    pub open spec fn claim_fx(self, user: Address, market_id: u64, this: Address) -> Seq<Effect> {
        let cfg = self.cfg->0;
        let won = self.really_won(user, market_id);
        let amount = self.payout(market_id, user);
        seq![
            Effect::RequireAuth(user),
            bump(DataKey::Bet(market_id, user)),
            bump(DataKey::Market(market_id)),
        ] + (if self.has_won(user, market_id) && amount > 0 {
            seq![Effect::Transfer { asset: cfg.xlm_sac, from: this, to: user, amount }]
        } else {
            Seq::empty()
        }) + seq![
            Effect::AddPts {
                leaderboard: cfg.leaderboard,
                from: this,
                user,
                points: if won {
                    WIN_POINTS
                } else {
                    LOSE_POINTS
                },
                won,
            },
            Effect::Mint {
                token: cfg.token,
                minter: this,
                to: user,
                amount: if won {
                    WIN_TOKENS
                } else {
                    LOSE_TOKENS
                },
            },
        ]
    }

    // Withdrawal of fees

    /// Can the caller take all fees at once for `recipient`?
    pub open spec fn withdraw_guard(self, caller: Address, recipient: Address) -> Result<
        (),
        MarketError,
    > {
        if self.admin_guard(caller) is Err {
            self.admin_guard(caller)
        } else if self.recipient_guard(caller, recipient) is Err {
            self.recipient_guard(caller, recipient)
        } else if self.accumulated_fees == 0 {
            Err(MarketError::NoFeesToWithdraw)
        } else {
            Ok(())
        }
    }

    /// The most that one request can take of the fees.
    pub open spec fn withdrawal_cap(self) -> int {
        self.accumulated_fees * MAX_WITHDRAWAL_BPS / BPS_DENOM as int
    }

    /// Can the caller ask for `amount` of the fees for `recipient`, if the cap on a
    /// request is left aside?
    pub open spec fn uncapped_request_guard(
        self,
        caller: Address,
        recipient: Address,
        amount: i128,
    ) -> Result<(), MarketError> {
        if self.fee_guard(caller) is Err {
            self.fee_guard(caller)
        } else if self.recipient_guard(caller, recipient) is Err {
            self.recipient_guard(caller, recipient)
        } else if amount <= 0 {
            Err(MarketError::InvalidAmount)
        } else if self.pending_withdrawals.contains_key(caller) {
            Err(MarketError::WithdrawalRequestExists)
        } else if amount > self.accumulated_fees {
            Err(MarketError::WithdrawalTooLarge)
        } else {
            Ok(())
        }
    }

    /// Can the caller ask for `amount` of the fees for `recipient`?
    pub open spec fn request_guard(
        self,
        caller: Address,
        recipient: Address,
        amount: i128,
    ) -> Result<(), MarketError> {
        if self.uncapped_request_guard(caller, recipient, amount) is Err {
            self.uncapped_request_guard(caller, recipient, amount)
        } else if amount > self.withdrawal_cap() {
            Err(MarketError::WithdrawalTooLarge)
        } else {
            Ok(())
        }
    }

    /// The contents with a request.
    pub open spec fn with_request(
        self,
        caller: Address,
        recipient: Address,
        amount: i128,
        now: u64,
    ) -> Self {
        MarketsView {
            pending_withdrawals: self.pending_withdrawals.insert(
                caller,
                WithdrawalRequest { recipient, amount, requested_at: now },
            ),
            ..self
        }
    }

    /// Can the caller's request be paid at time `now`?
    pub open spec fn execute_guard(self, caller: Address, now: u64) -> Result<(), MarketError> {
        match self.pending_withdrawals.get(caller) {
            None => Err(MarketError::NoWithdrawalRequest),
            Some(q) => if now < q.requested_at + WITHDRAW_DELAY_SECS {
                Err(MarketError::WithdrawalTooSoon)
            } else if self.accumulated_fees < q.amount {
                Err(MarketError::WithdrawalTooLarge)
            } else {
                Ok(())
            },
        }
    }

    /// The contents after a request was paid.
    pub open spec fn with_withdrawal(self, caller: Address) -> Self {
        MarketsView {
            accumulated_fees: (self.accumulated_fees
                - self.pending_withdrawals[caller].amount) as i128,
            pending_withdrawals: self.pending_withdrawals.remove(caller),
            ..self
        }
    }

    /// Can the admin drop a request?
    pub open spec fn drop_guard(self, admin: Address, caller: Address) -> Result<
        (),
        MarketError,
    > {
        if self.admin_guard(admin) is Err {
            self.admin_guard(admin)
        } else if !self.pending_withdrawals.contains_key(caller) {
            Err(MarketError::NoWithdrawalRequest)
        } else {
            Ok(())
        }
    }

    /// The bettors in places `start .. end` of a market's index.
    pub open spec fn bettors_between(self, market_id: u64, start: nat, end: nat) -> Seq<Address>
        decreases end,
    {
        if end <= start {
            Seq::empty()
        } else {
            let rest = self.bettors_between(market_id, start, (end - 1) as nat);
            match self.bettor_at.get((market_id, (end - 1) as u32)) {
                Some(a) => rest.push(a),
                None => rest,
            }
        }
    }

    /// The bettors on one page of a market: at most `limit` of them, and never more
    /// than a page holds.
    pub open spec fn bettors_page(self, market_id: u64, start: u32, limit: u32) -> Seq<Address> {
        let size = if limit < MAX_BETTORS_PER_PAGE {
            limit
        } else {
            MAX_BETTORS_PER_PAGE
        };
        let end = if start + size < self.bettors(market_id) {
            start + size
        } else {
            self.bettors(market_id) as int
        };
        self.bettors_between(market_id, start as nat, end as nat)
    }
}

} // verus!
