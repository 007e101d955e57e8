//! Whether a call keeps all counters within range. Callers that cannot know ask
//! before they make the call.

use crate::env::{Address, Env};
use crate::leaderboard::decay::{current_epoch, epoch_of};
use crate::leaderboard::types::{Effect, LeaderboardContract, PendingReward, StoredStats};
use vstd::prelude::*;

verus! {

impl LeaderboardContract {
    /// Can a settled bet be credited? The answer is exact while there are sequence
    /// numbers left.
    pub fn bet_fits(&self, env: &Env<Effect>, user: Address, pts: u64, is_won: bool) -> (r: bool)
        ensures
            r ==> self@.bet_fits(user, pts, is_won, epoch_of(env.ledger.sequence)),
            self.top.seq_counter < u64::MAX ==> r == self@.bet_fits(
                user,
                pts,
                is_won,
                epoch_of(env.ledger.sequence),
            ),
    {
        let s = self.load_forward(&user, current_epoch(env.ledger.sequence));
        s.points.checked_add(pts).is_some() && (if is_won {
            s.won_bets
        } else {
            s.lost_bets
        }) < u32::MAX && self.top.seq_counter < u64::MAX
    }

    /// Can a bonus be credited? The answer is exact while there are sequence numbers
    /// left.
    pub fn bonus_fits(&self, env: &Env<Effect>, user: Address, pts: u64) -> (r: bool)
        ensures
            r ==> self@.bonus_fits(user, pts, epoch_of(env.ledger.sequence)),
            self.top.seq_counter < u64::MAX ==> r == self@.bonus_fits(
                user,
                pts,
                epoch_of(env.ledger.sequence),
            ),
    {
        let s = self.load_forward(&user, current_epoch(env.ledger.sequence));
        s.points.checked_add(pts).is_some() && s.bonus_bets < u32::MAX && self.top.seq_counter
            < u64::MAX
    }

    /// Can a reward be queued?
    pub fn queue_fits(&self, user: Address, points: u64, tokens: i128, is_won: bool) -> (r: bool)
        ensures
            r == self@.queue_fits(user, points, tokens, is_won),
    {
        let p = self.queued(&user);
        p.points.checked_add(points).is_some() && p.tokens.checked_add(tokens).is_some()
            && p.bet_delta < u32::MAX && (if is_won {
            p.won_delta
        } else {
            p.lost_delta
        }) < u32::MAX
    }

    /// Can what is queued for a player be collected? The answer is exact while there
    /// are sequence numbers left.
    pub fn claim_fits(&self, env: &Env<Effect>, user: Address) -> (r: bool)
        ensures
            r ==> self@.claim_fits(user, epoch_of(env.ledger.sequence)),
            self.top.seq_counter < u64::MAX ==> r == self@.claim_fits(
                user,
                epoch_of(env.ledger.sequence),
            ),
    {
        let p = self.queued(&user);
        if p.points == 0 && p.bet_delta == 0 {
            return true;
        }
        let s = self.load_forward(&user, current_epoch(env.ledger.sequence));
        s.points.checked_add(p.points).is_some() && s.won_bets.checked_add(p.won_delta).is_some()
            && s.lost_bets.checked_add(p.lost_delta).is_some() && self.top.seq_counter < u64::MAX
    }

    /// Do a player's counters have a sum within range?
    pub fn stats_fit(&self, user: Address) -> (r: bool)
        ensures
            r == (self@.record(user, 0).activity() <= u32::MAX),
    {
        let s = match self.stats.copied(&user) {
            Some(s) => s,
            None => StoredStats::zero(),
        };
        match s.won_bets.checked_add(s.lost_bets) {
            Some(n) => n.checked_add(s.bonus_bets).is_some(),
            None => false,
        }
    }

    /// What is queued for a player, or nothing.
    pub(crate) fn queued(&self, user: &Address) -> (p: PendingReward)
        ensures
            p == self@.queued(*user),
    {
        match self.pending.copied(user) {
            Some(p) => p,
            None => PendingReward {
                points: 0,
                tokens: 0,
                won_delta: 0,
                lost_delta: 0,
                bet_delta: 0,
            },
        }
    }
}

} // verus!
