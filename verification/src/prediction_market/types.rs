//! What the market contract stores, what it asks of its host, and how it refuses.

use crate::env::{Address, Bytes32, Env};
use crate::table::Table;
use vstd::prelude::*;

verus! {

/// The smallest stake after fees: one XLM in stroops.
pub const MIN_BET: i128 = 10_000_000;

/// How often one user can bet on one market.
pub const MAX_BETS_PER_USER: u32 = 20;

/// How many markets can be created in one rate window.
pub const MAX_MARKETS_PER_HOUR: u32 = 10;

/// The length of a rate window in seconds.
pub const RATE_WINDOW_SECS: u64 = 3600;

/// The most bettors that one page lists.
pub const MAX_BETTORS_PER_PAGE: u32 = 100;

/// The whole fee on a bet, in basis points.
pub const TOTAL_FEE_BPS: i128 = 200;

/// The part of the fee that the platform keeps, in basis points. The rest is the
/// referral fee.
pub const PLATFORM_FEE_BPS: i128 = 150;

/// Basis points in a whole.
pub const BPS_DENOM: i128 = 10_000;

/// What the fee leaves of a bet, in basis points.
pub const NET_NUMERATOR: i128 = BPS_DENOM - TOTAL_FEE_BPS;

/// Leaderboard points for a bet that won.
pub const WIN_POINTS: u64 = 30;

/// Leaderboard points for a bet that did not win.
pub const LOSE_POINTS: u64 = 10;

/// Reward tokens for a bet that won.
pub const WIN_TOKENS: i128 = 10_0000000;

/// Reward tokens for a bet that did not win.
pub const LOSE_TOKENS: i128 = 2_0000000;

/// Seconds between the request of a withdrawal and its payment.
pub const WITHDRAW_DELAY_SECS: u64 = 86_400;

/// The most that one request can take of the accumulated fees, in basis points.
pub const MAX_WITHDRAWAL_BPS: i128 = 2_000;

/// Entries with fewer ledgers than this to live are extended when touched.
pub const TTL_BUMP: u32 = 3_153_600;

/// The lifetime, in ledgers, to which an entry is extended.
pub const TTL_HIGH: u32 = 6_307_200;

/// One of the values that `validate_config` checks: a duration in seconds that must not
/// be zero. The duration of a market that is created is not held against it.
pub const MIN_MARKET_DURATION_SECS: u64 = 1;

#[derive(Clone, Copy, Debug, PartialEq, Eq, PartialOrd, Ord, Structural)]
pub enum MarketError {
    AlreadyInitialized,
    NotInitialized,
    NotAdmin,
    MarketNotFound,
    MarketExpired,
    MarketNotExpired,
    MarketResolved,
    MarketCancelled,
    MarketNotResolved,
    BetTooSmall,
    OppositeSideBet,
    AlreadyClaimed,
    NoBetFound,
    InvalidAmount,
    NoFeesToWithdraw,
    NotResolver,
    TooManyBets,
    NotAuthorized,
    MarketNotCancelled,
    RateLimitExceeded,
    InvalidFeeRecipient,
    WithdrawalTooLarge,
    WithdrawalRequestExists,
    NoWithdrawalRequest,
    WithdrawalTooSoon,
    /// Constants that do not fit together.
    InvalidDependency,
}

impl MarketError {
    /// The number under which callers of the contract see the error.
    pub open spec fn number(self) -> u32 {
        match self {
            MarketError::AlreadyInitialized => 1,
            MarketError::NotInitialized => 2,
            MarketError::NotAdmin => 3,
            MarketError::MarketNotFound => 4,
            MarketError::MarketExpired => 5,
            MarketError::MarketNotExpired => 6,
            MarketError::MarketResolved => 7,
            MarketError::MarketCancelled => 8,
            MarketError::MarketNotResolved => 9,
            MarketError::BetTooSmall => 10,
            MarketError::OppositeSideBet => 11,
            MarketError::AlreadyClaimed => 12,
            MarketError::NoBetFound => 13,
            MarketError::InvalidAmount => 14,
            MarketError::NoFeesToWithdraw => 15,
            MarketError::NotResolver => 16,
            MarketError::TooManyBets => 17,
            MarketError::NotAuthorized => 18,
            MarketError::MarketNotCancelled => 19,
            MarketError::RateLimitExceeded => 20,
            MarketError::InvalidFeeRecipient => 21,
            MarketError::WithdrawalTooLarge => 22,
            MarketError::WithdrawalRequestExists => 23,
            MarketError::NoWithdrawalRequest => 24,
            MarketError::WithdrawalTooSoon => 25,
            MarketError::InvalidDependency => 26,
        }
    }

    /// The number under which callers of the contract see the error.
    pub fn code(&self) -> (n: u32)
        ensures
            n == self.number(),
    {
        match self {
            MarketError::AlreadyInitialized => 1,
            MarketError::NotInitialized => 2,
            MarketError::NotAdmin => 3,
            MarketError::MarketNotFound => 4,
            MarketError::MarketExpired => 5,
            MarketError::MarketNotExpired => 6,
            MarketError::MarketResolved => 7,
            MarketError::MarketCancelled => 8,
            MarketError::MarketNotResolved => 9,
            MarketError::BetTooSmall => 10,
            MarketError::OppositeSideBet => 11,
            MarketError::AlreadyClaimed => 12,
            MarketError::NoBetFound => 13,
            MarketError::InvalidAmount => 14,
            MarketError::NoFeesToWithdraw => 15,
            MarketError::NotResolver => 16,
            MarketError::TooManyBets => 17,
            MarketError::NotAuthorized => 18,
            MarketError::MarketNotCancelled => 19,
            MarketError::RateLimitExceeded => 20,
            MarketError::InvalidFeeRecipient => 21,
            MarketError::WithdrawalTooLarge => 22,
            MarketError::WithdrawalRequestExists => 23,
            MarketError::NoWithdrawalRequest => 24,
            MarketError::WithdrawalTooSoon => 25,
            MarketError::InvalidDependency => 26,
        }
    }
}

/// The storage keys of the contract.
#[derive(Clone, Copy, Debug, PartialEq, Eq, Structural)]
pub enum DataKey {
    Admin,
    Cfg,
    MarketCount,
    AccumulatedFees,
    Market(u64),
    Bet(u64, Address),
    BettorCount(u64),
    BettorAt(u64, u32),
    Resolver(Address),
    FeeRecipient(Address),
    HasReferrer(Address),
    RateWindow,
    Payout(u64, Address),
    MarketFees(u64),
    PendingWithdrawal(Address),
}

/// The contracts that this one works with.
#[derive(Clone, Copy, Debug, PartialEq, Eq, Structural)]
pub struct Config {
    pub token: Address,
    pub referral: Address,
    pub leaderboard: Address,
    pub xlm_sac: Address,
}

/// All bets of one user on one market.
#[derive(Clone, Copy, Debug, PartialEq, Eq, Structural)]
pub struct BetEntry {
    /// The stake after fees.
    pub net: i128,
    /// What the user sent.
    pub gross: i128,
    /// What the contract still holds for the bets: the stake, the platform fee,
    /// and the referral fee if no referrer got it.
    pub refundable: i128,
    pub is_yes: bool,
    pub claimed: bool,
    /// How many bets these are.
    pub count: u32,
}

/// A withdrawal of fees that waits for its time.
#[derive(Clone, Copy, Debug, PartialEq, Eq, Structural)]
pub struct WithdrawalRequest {
    pub recipient: Address,
    pub amount: i128,
    pub requested_at: u64,
}

#[derive(Clone, Copy, Debug, PartialEq, Eq, Structural)]
pub enum Category {
    Crypto,
    Sports,
    Politics,
    Entertainment,
    Science,
    Other,
}

/// One question, and how much is staked on each answer.
#[derive(Clone, Debug, PartialEq, Eq)]
pub struct Market {
    pub id: u64,
    pub question: Vec<u8>,
    pub image_url: Vec<u8>,
    pub category: Category,
    pub end_time: u64,
    pub total_yes: i128,
    pub total_no: i128,
    pub resolved: bool,
    pub outcome: bool,
    pub cancelled: bool,
    pub creator: Address,
    /// How many users have bet.
    pub bet_count: u32,
}

/// What others see of a bet.
#[derive(Clone, Copy, Debug, PartialEq, Eq, Structural)]
pub struct Bet {
    pub amount: i128,
    pub is_yes: bool,
    pub claimed: bool,
}

/// What the contract asks of its host.
#[derive(Clone, Copy, Debug, PartialEq, Eq, Structural)]
pub enum Effect {
    /// Fail unless the address has authorized the call.
    RequireAuth(Address),
    /// Extend the lifetime of one stored entry.
    ExtendTtl { key: DataKey, threshold: u32, extend_to: u32 },
    /// Replace the contract's code.
    UpdateWasm(Bytes32),
    /// Move `amount` of an asset.
    Transfer { asset: Address, from: Address, to: Address, amount: i128 },
    /// Tell the referral contract of a fee that it was sent for a user. The reply
    /// says whether a referrer got it.
    Credit { referral: Address, from: Address, user: Address, fee: i128 },
    /// Give a user leaderboard points.
    AddPts { leaderboard: Address, from: Address, user: Address, points: u64, won: bool },
    /// Mint reward tokens.
    Mint { token: Address, minter: Address, to: Address, amount: i128 },
}

/// Extension of one stored entry by the usual amounts.
pub open spec fn bump(key: DataKey) -> Effect {
    Effect::ExtendTtl { key, threshold: TTL_BUMP, extend_to: TTL_HIGH }
}

/// Asks for the extension of one stored entry.
pub(crate) fn emit_bump(env: &mut Env<Effect>, key: DataKey)
    ensures
        final(env).adds(*old(env), seq![bump(key)]),
{
    env.emit(Effect::ExtendTtl { key, threshold: TTL_BUMP, extend_to: TTL_HIGH });
}

/// The market contract: all that it stores.
pub struct PredictionMarketContract {
    pub admin: Option<Address>,
    pub cfg: Option<Config>,
    pub market_count: u64,
    pub accumulated_fees: i128,
    /// Start of the current rate window, and markets created in it.
    pub rate_window: Option<(u64, u32)>,
    pub markets: Table<u64, Market>,
    /// Bets by market and user.
    pub bets: Table<(u64, Address), BetEntry>,
    pub bettor_count: Table<u64, u32>,
    /// The users who have bet on a market, in the order of their first bets.
    pub bettor_at: Table<(u64, u32), Address>,
    pub resolvers: Table<Address, bool>,
    pub fee_recipients: Table<Address, bool>,
    /// What the referral contract last said of a user.
    pub has_referrer: Table<Address, bool>,
    /// What resolution assigned to each winner.
    pub payouts: Table<(u64, Address), i128>,
    /// What each market has added to the accumulated fees.
    pub market_fees: Table<u64, i128>,
    pub pending_withdrawals: Table<Address, WithdrawalRequest>,
}

/// The contents of the market contract.
#[verifier::ext_equal]
pub struct MarketsView {
    pub admin: Option<Address>,
    pub cfg: Option<Config>,
    pub market_count: u64,
    pub accumulated_fees: i128,
    pub rate_window: Option<(u64, u32)>,
    pub markets: Map<u64, Market>,
    pub bets: Map<(u64, Address), BetEntry>,
    pub bettor_count: Map<u64, u32>,
    pub bettor_at: Map<(u64, u32), Address>,
    pub resolvers: Map<Address, bool>,
    pub fee_recipients: Map<Address, bool>,
    pub has_referrer: Map<Address, bool>,
    pub payouts: Map<(u64, Address), i128>,
    pub market_fees: Map<u64, i128>,
    pub pending_withdrawals: Map<Address, WithdrawalRequest>,
}

impl View for PredictionMarketContract {
    type V = MarketsView;

    open spec fn view(&self) -> MarketsView {
        MarketsView {
            admin: self.admin,
            cfg: self.cfg,
            market_count: self.market_count,
            accumulated_fees: self.accumulated_fees,
            rate_window: self.rate_window,
            markets: self.markets@,
            bets: self.bets@,
            bettor_count: self.bettor_count@,
            bettor_at: self.bettor_at@,
            resolvers: self.resolvers@,
            fee_recipients: self.fee_recipients@,
            has_referrer: self.has_referrer@,
            payouts: self.payouts@,
            market_fees: self.market_fees@,
            pending_withdrawals: self.pending_withdrawals@,
        }
    }
}

/// The constants on whose relations the contract relies.
#[derive(Clone, Copy, Debug, PartialEq, Eq, Structural)]
pub struct Limits {
    pub net_numerator: i128,
    pub total_fee_bps: i128,
    pub platform_fee_bps: i128,
    pub bps_denom: i128,
    pub min_bet: i128,
    pub max_bets_per_user: u32,
    pub max_markets_per_hour: u32,
    pub max_withdrawal_bps: i128,
    pub withdraw_delay_secs: u64,
    pub ttl_bump: u32,
    pub ttl_high: u32,
    pub min_market_duration_secs: u64,
}

} // verus!
