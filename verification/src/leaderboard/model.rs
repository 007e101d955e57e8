//! The leaderboard contract as a state machine: when a call is refused, what an
//! accepted one makes of the contents, and what it asks of the host.

use crate::env::Address;
use crate::leaderboard::board::TopListView;
use crate::leaderboard::decay::{score, score_at};
use crate::leaderboard::types::{
    bump, bump_instance, DataKey, Effect, Event, LeaderboardError, LeaderboardView, PendingReward,
    PlayerEntry, StoredStats, EXPECTED_TOKEN_INTERFACE_VERSION, MAX_PAGE_SIZE, UNRANKED_RANK,
};
use vstd::prelude::*;

verus! {

/// A record brought forward to epoch `now`. The counters do not decay.
pub open spec fn forward(s: StoredStats, now: u32) -> StoredStats {
    StoredStats { points: score_at(s.points, s.epoch, now) as u64, epoch: now, ..s }
}

/// Nothing queued.
pub open spec fn no_reward() -> PendingReward {
    PendingReward { points: 0, tokens: 0, won_delta: 0, lost_delta: 0, bet_delta: 0 }
}

impl LeaderboardView {
    /// The contents before `initialize`.
    pub open spec fn empty() -> Self {
        LeaderboardView {
            admin: None,
            market: None,
            referral: None,
            token: None,
            paused: false,
            stats: Map::empty(),
            pending: Map::empty(),
            top: TopListView::empty(),
        }
    }

    /// Only the admin may call.
    pub open spec fn admin_guard(self, caller: Address) -> Result<(), LeaderboardError> {
        match self.admin {
            None => Err(LeaderboardError::NotInitialized),
            Some(a) => if caller != a {
                Err(LeaderboardError::NotAdmin)
            } else {
                Ok(())
            },
        }
    }

    /// Only the market contract may call.
    pub open spec fn is_market(self, caller: Address) -> Result<(), LeaderboardError> {
        match self.market {
            None => Err(LeaderboardError::NotInitialized),
            Some(m) => if caller != m {
                Err(LeaderboardError::UnauthorizedCaller)
            } else {
                Ok(())
            },
        }
    }

    /// Only the referral contract may call.
    pub open spec fn is_referral(self, caller: Address) -> Result<(), LeaderboardError> {
        match self.referral {
            None => Err(LeaderboardError::NotInitialized),
            Some(m) => if caller != m {
                Err(LeaderboardError::UnauthorizedCaller)
            } else {
                Ok(())
            },
        }
    }

    /// Only the market contract may call, and not while the contract is paused.
    pub open spec fn market_guard(self, caller: Address) -> Result<(), LeaderboardError> {
        if self.paused {
            Err(LeaderboardError::ContractPaused)
        } else {
            self.is_market(caller)
        }
    }

    /// Only the referral contract may call, and not while the contract is paused.
    pub open spec fn referral_guard(self, caller: Address) -> Result<(), LeaderboardError> {
        if self.paused {
            Err(LeaderboardError::ContractPaused)
        } else {
            self.is_referral(caller)
        }
    }

    /// Can `tokens` be minted, if the token reports interface version `version`?
    pub open spec fn mint_guard(self, tokens: i128, version: u32) -> Result<(), LeaderboardError> {
        if tokens <= 0 {
            Ok(())
        } else if self.token is None {
            Err(LeaderboardError::TokenNotConfigured)
        } else if version != EXPECTED_TOKEN_INTERFACE_VERSION {
            Err(LeaderboardError::IncompatibleInterface)
        } else {
            Ok(())
        }
    }

    /// The mint of `tokens` by contract `this` for `user`.
    pub open spec fn mint_fx(self, this: Address, user: Address, tokens: i128) -> Seq<Effect> {
        if tokens <= 0 {
            Seq::empty()
        } else {
            seq![Effect::Mint { token: self.token->0, minter: this, to: user, amount: tokens }]
        }
    }

    /// The token contract whose version decides about a mint of `tokens`.
    pub open spec fn token_to_ask(self, tokens: i128) -> Option<Address> {
        if tokens <= 0 {
            None
        } else {
            self.token
        }
    }

    /// A player's record as stored; an empty one of epoch `now` if there is none.
    pub open spec fn record(self, user: Address, now: u32) -> StoredStats {
        match self.stats.get(user) {
            Some(s) => s,
            None => StoredStats { epoch: now, ..StoredStats::spec_zero() },
        }
    }

    /// A player's record as of epoch `now`.
    pub open spec fn record_now(self, user: Address, now: u32) -> StoredStats {
        forward(self.record(user, now), now)
    }

    /// The player's record is replaced and the top list follows.
    pub open spec fn with_record(self, user: Address, s: StoredStats, now: u32) -> Self {
        LeaderboardView {
            stats: self.stats.insert(user, s),
            top: self.top.update(user, s.points, now).0,
            ..self
        }
    }

    /// The extensions that go with `with_record`.
    pub open spec fn record_fx(self, user: Address, s: StoredStats, now: u32) -> Seq<Effect> {
        seq![bump(DataKey::Stats(user))] + self.top.update(user, s.points, now).1
    }

    /// No counter overflows when a settled bet is credited.
    pub open spec fn bet_fits(self, user: Address, pts: u64, is_won: bool, now: u32) -> bool {
        let s = self.record_now(user, now);
        &&& s.points + pts <= u64::MAX
        &&& is_won ==> s.won_bets < u32::MAX
        &&& !is_won ==> s.lost_bets < u32::MAX
        &&& self.top.update_fits(user, (s.points + pts) as u64, now)
    }

    /// The record after a settled bet.
    pub open spec fn after_bet(self, user: Address, pts: u64, is_won: bool, now: u32) -> StoredStats {
        let s = self.record_now(user, now);
        StoredStats {
            points: (s.points + pts) as u64,
            won_bets: if is_won {
                (s.won_bets + 1) as u32
            } else {
                s.won_bets
            },
            lost_bets: if is_won {
                s.lost_bets
            } else {
                (s.lost_bets + 1) as u32
            },
            ..s
        }
    }

    /// What crediting a settled bet asks of the host.
    pub open spec fn bet_fx(self, user: Address, pts: u64, is_won: bool, now: u32) -> Seq<Effect> {
        let s = self.after_bet(user, pts, is_won, now);
        self.record_fx(user, s, now).push(
            Effect::Publish(
                Event::Settled {
                    user,
                    points: s.points,
                    won_bets: s.won_bets,
                    lost_bets: s.lost_bets,
                },
            ),
        )
    }

    /// No counter overflows when a bonus is credited.
    pub open spec fn bonus_fits(self, user: Address, pts: u64, now: u32) -> bool {
        let s = self.record_now(user, now);
        &&& s.points + pts <= u64::MAX
        &&& s.bonus_bets < u32::MAX
        &&& self.top.update_fits(user, (s.points + pts) as u64, now)
    }

    /// The record after a bonus.
    pub open spec fn after_bonus(self, user: Address, pts: u64, now: u32) -> StoredStats {
        let s = self.record_now(user, now);
        StoredStats { points: (s.points + pts) as u64, bonus_bets: (s.bonus_bets + 1) as u32, ..s }
    }

    /// What crediting a bonus asks of the host.
    pub open spec fn bonus_fx(self, user: Address, pts: u64, now: u32) -> Seq<Effect> {
        let s = self.after_bonus(user, pts, now);
        self.record_fx(user, s, now).push(
            Effect::Publish(
                Event::Bonus { user, points: s.points, bonus_bets: s.bonus_bets },
            ),
        )
    }

    /// What is queued for a player.
    pub open spec fn queued(self, user: Address) -> PendingReward {
        match self.pending.get(user) {
            Some(p) => p,
            None => no_reward(),
        }
    }

    /// No counter overflows when a reward is queued.
    pub open spec fn queue_fits(self, user: Address, points: u64, tokens: i128, is_won: bool) -> bool {
        let p = self.queued(user);
        &&& p.points + points <= u64::MAX
        &&& i128::MIN <= p.tokens + tokens <= i128::MAX
        &&& p.bet_delta < u32::MAX
        &&& is_won ==> p.won_delta < u32::MAX
        &&& !is_won ==> p.lost_delta < u32::MAX
    }

    /// What is queued for a player after one more reward.
    pub open spec fn after_queue(
        self,
        user: Address,
        points: u64,
        tokens: i128,
        is_won: bool,
    ) -> PendingReward {
        let p = self.queued(user);
        PendingReward {
            points: (p.points + points) as u64,
            tokens: (p.tokens + tokens) as i128,
            bet_delta: (p.bet_delta + 1) as u32,
            won_delta: if is_won {
                (p.won_delta + 1) as u32
            } else {
                p.won_delta
            },
            lost_delta: if is_won {
                p.lost_delta
            } else {
                (p.lost_delta + 1) as u32
            },
        }
    }

    /// Does collecting `p` touch the player's record?
    pub open spec fn counts(p: PendingReward) -> bool {
        p.points > 0 || p.bet_delta > 0
    }

    /// No counter overflows when what is queued for a player is collected.
    pub open spec fn claim_fits(self, user: Address, now: u32) -> bool {
        let p = self.queued(user);
        let s = self.record_now(user, now);
        Self::counts(p) ==> {
            &&& s.points + p.points <= u64::MAX
            &&& s.won_bets + p.won_delta <= u32::MAX
            &&& s.lost_bets + p.lost_delta <= u32::MAX
            &&& self.top.update_fits(user, (s.points + p.points) as u64, now)
        }
    }

    /// The record after what is queued has been collected.
    pub open spec fn after_claim(self, user: Address, now: u32) -> StoredStats {
        let p = self.queued(user);
        let s = self.record_now(user, now);
        StoredStats {
            points: (s.points + p.points) as u64,
            won_bets: (s.won_bets + p.won_delta) as u32,
            lost_bets: (s.lost_bets + p.lost_delta) as u32,
            ..s
        }
    }

    /// The contents after what is queued for a player has been collected.
    pub open spec fn claimed(self, user: Address, now: u32) -> Self {
        let emptied = LeaderboardView { pending: self.pending.remove(user), ..self };
        if Self::counts(self.queued(user)) {
            emptied.with_record(user, self.after_claim(user, now), now)
        } else {
            emptied
        }
    }

    /// What collecting asks of the host.
    pub open spec fn claim_fx(self, this: Address, user: Address, now: u32) -> Seq<Effect> {
        let touched = if Self::counts(self.queued(user)) {
            self.record_fx(user, self.after_claim(user, now), now)
        } else {
            Seq::empty()
        };
        touched + self.mint_fx(this, user, self.queued(user).tokens) + seq![bump_instance()]
    }

    /// What keeping a player's entries alive asks of the host.
    pub open spec fn refresh_fx(self, user: Address) -> Seq<Effect> {
        let of_stats = if self.stats.contains_key(user) {
            seq![bump(DataKey::Stats(user))]
        } else {
            Seq::empty()
        };
        let of_slot = if self.top.slot_of.contains_key(user) && self.top.at.contains_key(
            self.top.slot_of[user],
        ) && self.top.slot_of[user] < self.top.count {
            seq![
                bump(DataKey::TopPlayerAt(self.top.slot_of[user])),
                bump(DataKey::TopPlayerSlot(user)),
            ]
        } else {
            Seq::empty()
        };
        of_stats + of_slot + seq![bump_instance()]
    }
}

impl TopListView {
    /// How many entries in slots `0 .. n`, other than the one in `slot`, are worth
    /// more than `mine`.
    pub open spec fn ahead(self, n: nat, slot: u32, mine: int, now: u32) -> nat
        decreases n,
    {
        if n == 0 {
            0
        } else {
            let i = (n - 1) as u32;
            self.ahead((n - 1) as nat, slot, mine, now) + if i != slot && self.at.contains_key(i)
                && score(self.at[i], now) > mine {
                1nat
            } else {
                0
            }
        }
    }

    /// The rank of a player: one more than the number of players ahead, or
    /// `UNRANKED_RANK` for one who is not in the list.
    pub open spec fn rank(self, user: Address, now: u32) -> int {
        match self.resolve(user).1 {
            None => UNRANKED_RANK as int,
            Some(slot) => 1int + self.ahead(
                self.count as nat,
                slot,
                score(self.at[slot], now),
                now,
            ),
        }
    }

    /// The entries of slots `0 .. n` in slot order, with their scores as of `now`.
    pub open spec fn current(self, n: nat, now: u32) -> Seq<PlayerEntry>
        decreases n,
    {
        if n == 0 {
            Seq::empty()
        } else {
            let rest = self.current((n - 1) as nat, now);
            let i = (n - 1) as u32;
            if self.at.contains_key(i) {
                rest.push(
                    PlayerEntry {
                        address: self.at[i].address,
                        points: score(self.at[i], now) as u64,
                        epoch: now,
                    },
                )
            } else {
                rest
            }
        }
    }
}

/// The first position from `i` on whose entry no entry from `i` on exceeds.
pub open spec fn first_max(s: Seq<PlayerEntry>, i: int, n: int) -> int
    decreases n - i,
{
    if n <= i + 1 {
        i
    } else {
        let m = first_max(s, i, n - 1);
        if s[n - 1].points > s[m].points {
            n - 1
        } else {
            m
        }
    }
}

/// Two positions trade places.
pub open spec fn swap(s: Seq<PlayerEntry>, i: int, j: int) -> Seq<PlayerEntry> {
    s.update(i, s[j]).update(j, s[i])
}

/// The first `i` places are given, one after the other, to the best of the rest;
/// whoever stood there takes the place of the one who moved.
pub open spec fn ranking(s: Seq<PlayerEntry>, i: nat) -> Seq<PlayerEntry>
    decreases i,
{
    if i == 0 {
        s
    } else {
        let t = ranking(s, (i - 1) as nat);
        swap(t, i - 1, first_max(t, i - 1, t.len() as int))
    }
}

/// The number of entries that a page of `page_size` may hold.
pub open spec fn clamp_page(page_size: u32) -> int {
    if page_size <= MAX_PAGE_SIZE {
        page_size as int
    } else {
        MAX_PAGE_SIZE as int
    }
}

/// The entries at `offset .. offset + size`, as far as there are any.
pub open spec fn page(s: Seq<PlayerEntry>, offset: int, size: int) -> Seq<PlayerEntry> {
    if offset >= s.len() {
        Seq::empty()
    } else if offset + size >= s.len() {
        s.subrange(offset, s.len() as int)
    } else {
        s.subrange(offset, offset + size)
    }
}

} // verus!
