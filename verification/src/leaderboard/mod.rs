//! The leaderboard: time-weighted scores, the list of the best players, deferred
//! rewards, and the token mints that go with them.

pub mod board;
pub mod contract;
pub mod credit_laws;
pub mod decay;
pub mod fits;
pub mod list_laws;
pub mod model;
pub mod place_laws;
pub mod score_laws;
pub mod types;
pub mod view_laws;

pub use decay::{DECAY_PERIOD_LEDGERS, DECAY_RETAIN_DEN, DECAY_RETAIN_NUM, DECAY_ZERO_AFTER_PERIODS};
pub use types::{
    DataKey, Effect, Event, LeaderboardContract, LeaderboardError, PendingReward, PlayerEntry,
    PlayerStats, StoredStats, INTERFACE_VERSION, MAX_TOP_PLAYERS, TTL_BUMP, TTL_HIGH, UNRANKED_RANK,
};
