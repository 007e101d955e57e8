//! What the leaderboard stores, what it asks of its host, and how it refuses.

use crate::env::{Address, Env};
use crate::leaderboard::board::{TopList, TopListView};
use crate::table::Table;
use vstd::prelude::*;

verus! {

/// Capacity of the top list.
pub const MAX_TOP_PLAYERS: u32 = 50;

/// Largest page that `get_top_players` returns.
pub const MAX_PAGE_SIZE: u32 = MAX_TOP_PLAYERS;

/// How many places an entry climbs in one write, at most. Readers rank by the
/// current scores, so a list that is not yet fully ordered is never seen.
pub const MAX_BUBBLE_STEPS: u32 = 4;

/// Entries with fewer ledgers than this to live are extended when touched.
pub const TTL_BUMP: u32 = 3_153_600;

/// The lifetime, in ledgers, to which an entry is extended.
pub const TTL_HIGH: u32 = 6_307_200;

/// The rank of a player who is not in the top list. It is above every real rank,
/// so callers treat `rank > MAX_TOP_PLAYERS` as "not ranked".
pub const UNRANKED_RANK: u32 = MAX_TOP_PLAYERS + 1;

/// Version of this contract's interface.
pub const INTERFACE_VERSION: u32 = 1;

/// The version of the token's interface that minting is written against.
pub const EXPECTED_TOKEN_INTERFACE_VERSION: u32 = 1;

#[derive(Clone, Copy, Debug, PartialEq, Eq, PartialOrd, Ord, Structural)]
pub enum LeaderboardError {
    AlreadyInitialized,
    NotInitialized,
    UnauthorizedCaller,
    InvalidPoints,
    NotAdmin,
    ContractPaused,
    /// The token reports an interface version other than the expected one.
    IncompatibleInterface,
    /// Tokens are to be minted and no token contract has been set.
    TokenNotConfigured,
}

impl LeaderboardError {
    /// The number under which callers of the contract see the error.
    pub open spec fn number(self) -> u32 {
        match self {
            LeaderboardError::AlreadyInitialized => 1,
            LeaderboardError::NotInitialized => 2,
            LeaderboardError::UnauthorizedCaller => 3,
            LeaderboardError::InvalidPoints => 4,
            LeaderboardError::NotAdmin => 5,
            LeaderboardError::ContractPaused => 6,
            LeaderboardError::IncompatibleInterface => 7,
            LeaderboardError::TokenNotConfigured => 8,
        }
    }

    /// The number under which callers of the contract see the error.
    pub fn code(&self) -> (n: u32)
        ensures
            n == self.number(),
    {
        match self {
            LeaderboardError::AlreadyInitialized => 1,
            LeaderboardError::NotInitialized => 2,
            LeaderboardError::UnauthorizedCaller => 3,
            LeaderboardError::InvalidPoints => 4,
            LeaderboardError::NotAdmin => 5,
            LeaderboardError::ContractPaused => 6,
            LeaderboardError::IncompatibleInterface => 7,
            LeaderboardError::TokenNotConfigured => 8,
        }
    }
}

/// The storage keys of the contract.
#[derive(Clone, Copy, Debug, PartialEq, Eq, Structural)]
pub enum DataKey {
    Admin,
    MarketContract,
    ReferralContract,
    TokenContract,
    Stats(Address),
    PendingReward(Address),
    TopPlayerAt(u32),
    TopPlayerCount,
    TopPlayerSlot(Address),
    TopPlayerSeqAt(u32),
    SeqCounter,
    MinPoints,
    MinSlot,
    Paused,
}

/// A player's record as callers see it.
#[derive(Clone, Copy, Debug, PartialEq, Eq, Structural)]
pub struct PlayerStats {
    pub points: u64,
    pub total_bets: u32,
    pub won_bets: u32,
    pub lost_bets: u32,
}

impl Default for PlayerStats {
    /// The record of a player without activity.
    fn default() -> (s: Self)
        ensures
            s == (PlayerStats { points: 0, total_bets: 0, won_bets: 0, lost_bets: 0 }),
    {
        PlayerStats { points: 0, total_bets: 0, won_bets: 0, lost_bets: 0 }
    }
}

/// A place in the top list. The score travels with the epoch it was written in,
/// so two entries are compared without looking anything else up.
#[derive(Clone, Copy, Debug, PartialEq, Eq, Structural)]
pub struct PlayerEntry {
    pub address: Address,
    pub points: u64,
    /// The decay epoch `points` is expressed in.
    pub epoch: u32,
}

/// A player's record as stored. `points` decays; the counters are lifetime totals.
#[derive(Clone, Copy, Debug, PartialEq, Eq, Structural)]
pub struct StoredStats {
    pub points: u64,
    /// The decay epoch `points` is expressed in.
    pub epoch: u32,
    pub won_bets: u32,
    pub lost_bets: u32,
    pub bonus_bets: u32,
}

impl StoredStats {
    /// The empty record.
    pub open spec fn spec_zero() -> Self {
        StoredStats { points: 0, epoch: 0, won_bets: 0, lost_bets: 0, bonus_bets: 0 }
    }

    /// The empty record.
    pub fn zero() -> (s: Self)
        ensures
            s == Self::spec_zero(),
    {
        StoredStats { points: 0, epoch: 0, won_bets: 0, lost_bets: 0, bonus_bets: 0 }
    }

    /// All activity: bets won and lost, and bonuses.
    pub open spec fn activity(self) -> int {
        self.won_bets + self.lost_bets + self.bonus_bets
    }

    /// The record as callers see it, with the points as stored.
    pub fn to_player_stats(&self) -> (p: PlayerStats)
        requires
            self.activity() <= u32::MAX,
        ensures
            p.points == self.points,
            p.total_bets == self.activity(),
            p.won_bets == self.won_bets,
            p.lost_bets == self.lost_bets,
    {
        PlayerStats {
            points: self.points,
            total_bets: self.won_bets + self.lost_bets + self.bonus_bets,
            won_bets: self.won_bets,
            lost_bets: self.lost_bets,
        }
    }
}

/// Rewards that are queued for a player until the player collects them.
#[derive(Clone, Copy, Debug, PartialEq, Eq, Structural)]
pub struct PendingReward {
    pub points: u64,
    pub tokens: i128,
    pub won_delta: u32,
    pub lost_delta: u32,
    pub bet_delta: u32,
}

/// What the contract announces.
#[derive(Clone, Copy, Debug, PartialEq, Eq, Structural)]
pub enum Event {
    /// A bet was settled for a player.
    Settled { user: Address, points: u64, won_bets: u32, lost_bets: u32 },
    /// A bonus was credited to a player.
    Bonus { user: Address, points: u64, bonus_bets: u32 },
}

impl Event {
    /// The name under which the event is published.
    pub fn topic(&self) -> (s: &'static str)
        ensures
            s@ == "leaderboard_updated"@,
    {
        "leaderboard_updated"
    }
}

/// What the contract asks of its host.
#[derive(Clone, Copy, Debug, PartialEq, Eq, Structural)]
pub enum Effect {
    /// Fail unless the address has authorized the call.
    RequireAuth(Address),
    /// Extend the lifetime of the contract instance.
    ExtendInstanceTtl { threshold: u32, extend_to: u32 },
    /// Extend the lifetime of one stored entry.
    ExtendTtl { key: DataKey, threshold: u32, extend_to: u32 },
    Publish(Event),
    /// Call `mint` of the token contract.
    Mint { token: Address, minter: Address, to: Address, amount: i128 },
}

/// Extension of one stored entry by the usual amounts.
pub open spec fn bump(key: DataKey) -> Effect {
    Effect::ExtendTtl { key, threshold: TTL_BUMP, extend_to: TTL_HIGH }
}

/// Extension of the instance by the usual amounts.
pub open spec fn bump_instance() -> Effect {
    Effect::ExtendInstanceTtl { threshold: TTL_BUMP, extend_to: TTL_HIGH }
}

/// Asks for the extension of one stored entry.
pub(crate) fn emit_bump(env: &mut Env<Effect>, key: DataKey)
    ensures
        final(env).adds(*old(env), seq![bump(key)]),
{
    env.emit(Effect::ExtendTtl { key, threshold: TTL_BUMP, extend_to: TTL_HIGH });
}

/// Asks for the extension of the instance.
pub(crate) fn emit_bump_instance(env: &mut Env<Effect>)
    ensures
        final(env).adds(*old(env), seq![bump_instance()]),
{
    env.emit(Effect::ExtendInstanceTtl { threshold: TTL_BUMP, extend_to: TTL_HIGH });
}

/// The leaderboard contract: all that it stores.
pub struct LeaderboardContract {
    pub admin: Option<Address>,
    pub market: Option<Address>,
    pub referral: Option<Address>,
    pub token: Option<Address>,
    pub paused: bool,
    pub stats: Table<Address, StoredStats>,
    pub pending: Table<Address, PendingReward>,
    pub top: TopList,
}

/// The contents of the leaderboard contract.
#[verifier::ext_equal]
pub struct LeaderboardView {
    pub admin: Option<Address>,
    pub market: Option<Address>,
    pub referral: Option<Address>,
    pub token: Option<Address>,
    pub paused: bool,
    pub stats: Map<Address, StoredStats>,
    pub pending: Map<Address, PendingReward>,
    pub top: TopListView,
}

impl View for LeaderboardContract {
    type V = LeaderboardView;

    open spec fn view(&self) -> LeaderboardView {
        LeaderboardView {
            admin: self.admin,
            market: self.market,
            referral: self.referral,
            token: self.token,
            paused: self.paused,
            stats: self.stats@,
            pending: self.pending@,
            top: self.top@,
        }
    }
}

} // verus!
