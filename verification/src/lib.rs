//! The contracts of a prediction market: betting, fees and payouts, the token in
//! which participants are rewarded, the leaderboard and the referral registry.

pub mod env;
pub mod leaderboard;
pub mod prediction_market;
pub mod pulse_token;
pub mod referral_registry;
pub mod sums;
pub mod table;

