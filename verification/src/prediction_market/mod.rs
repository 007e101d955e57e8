//! The prediction market: markets on yes-or-no questions, bets on either side,
//! fees, payouts, refunds and the withdrawal of fees.

pub mod betting;
pub mod book_laws;
pub mod change_laws;
pub mod contract;
pub mod fees;
pub mod guard_laws;
pub mod laws;
pub mod model;
pub mod payout_laws;
pub mod queries;
pub mod settlement;
pub mod types;

pub use types::{
    Bet, BetEntry, Category, Config, DataKey, Effect, Limits, Market, MarketError,
    PredictionMarketContract, WithdrawalRequest, BPS_DENOM, LOSE_POINTS, LOSE_TOKENS,
    MAX_BETS_PER_USER, MAX_BETTORS_PER_PAGE, MAX_MARKETS_PER_HOUR, MAX_WITHDRAWAL_BPS, MIN_BET,
    MIN_MARKET_DURATION_SECS, NET_NUMERATOR, PLATFORM_FEE_BPS, RATE_WINDOW_SECS, TOTAL_FEE_BPS,
    TTL_BUMP, TTL_HIGH, WIN_POINTS, WIN_TOKENS, WITHDRAW_DELAY_SECS,
};
