//! What holds of ranks, pages and records.

use crate::env::Address;
use crate::leaderboard::board::TopListView;
use crate::leaderboard::contract::{lemma_first_max, lemma_ranking_len};
use crate::leaderboard::decay::{lemma_score_range, score};
use crate::leaderboard::list_laws::{
    law_lookup_keeps_the_list, law_ranked_updates_keep_the_minimum_fresh, law_repair_closes_gaps,
    law_update_keeps_the_list_valid, lemma_found_slot,
};
use crate::leaderboard::model::{first_max, forward, ranking, swap};
use crate::leaderboard::types::{
    LeaderboardView, PlayerEntry, StoredStats, MAX_TOP_PLAYERS, UNRANKED_RANK,
};
use vstd::prelude::*;

verus! {

/// Trading two places changes the order only.
proof fn lemma_swap_multiset(s: Seq<PlayerEntry>, i: int, j: int)
    requires
        0 <= i < s.len(),
        0 <= j < s.len(),
    ensures
        swap(s, i, j).to_multiset() == s.to_multiset(),
{
    broadcast use vstd::seq_lib::group_to_multiset_ensures;

    vstd::seq_lib::to_multiset_update(s, i, s[j]);
    let t = s.update(i, s[j]);
    vstd::seq_lib::to_multiset_update(t, j, s[i]);
    assert(t[j] == s[j]);
    assert(s.contains(s[i]));
    assert(swap(s, i, j).to_multiset() =~= s.to_multiset());
}

proof fn lemma_ranking(s: Seq<PlayerEntry>, k: nat)
    requires
        k <= s.len(),
    ensures
        ranking(s, k).len() == s.len(),
        ranking(s, k).to_multiset() == s.to_multiset(),
        forall|i: int, j: int|
            0 <= i < j < s.len() && i < k ==> (#[trigger] ranking(s, k)[i]).points >= (
            #[trigger] ranking(s, k)[j]).points,
    decreases k,
{
    lemma_ranking_len(s, k);
    if k > 0 {
        lemma_ranking(s, (k - 1) as nat);
        lemma_ranking_len(s, (k - 1) as nat);
        let t = ranking(s, (k - 1) as nat);
        let m = first_max(t, k - 1, t.len() as int);
        lemma_first_max(t, k - 1, t.len() as int);
        lemma_swap_multiset(t, k - 1, m);
        let r = ranking(s, k);
        assert forall|i: int, j: int| 0 <= i < j < s.len() && i < k implies (
        #[trigger] r[i]).points >= (#[trigger] r[j]).points by {
            let a = if i == k - 1 {
                m
            } else {
                i
            };
            let b = if j == k - 1 {
                m
            } else if j == m {
                k - 1
            } else {
                j
            };
            assert(r[j] == t[b]);
            if i < k - 1 {
                assert(r[i] == t[i]);
            } else {
                assert(r[i] == t[m]);
            }
        }
    }
}

/// The ranking that pages are cut from holds exactly the entries of the list,
/// each with its score as of now, and no score in it exceeds an earlier one.
pub proof fn law_ranking_is_in_order(v: TopListView, now: u32)
    ensures
        ({
            let s = v.current(v.count as nat, now);
            let r = ranking(s, s.len());
            &&& r.to_multiset() == s.to_multiset()
            &&& forall|i: int, j: int|
                0 <= i < j < r.len() ==> (#[trigger] r[i]).points >= (#[trigger] r[j]).points
        }),
{
    let s = v.current(v.count as nat, now);
    lemma_ranking(s, s.len());
}

proof fn lemma_ahead_bound(v: TopListView, n: nat, slot: u32, mine: int, now: u32)
    requires
        n <= u32::MAX,
    ensures
        v.ahead(n, slot, mine, now) <= n - (if slot < n {
            1int
        } else {
            0
        }),
    decreases n,
{
    if n > 0 {
        lemma_ahead_bound(v, (n - 1) as nat, slot, mine, now);
    }
}

/// A player in the list has a rank from 1 to the number of slots; one who is not
/// has a rank that is above every one of these.
pub proof fn law_unranked_is_above_every_rank(v: TopListView, user: Address, now: u32)
    requires
        v.valid(),
    ensures
        (exists|i: u32| v.holds(user, i)) ==> 1 <= v.rank(user, now) <= v.count
            <= MAX_TOP_PLAYERS < UNRANKED_RANK,
        !(exists|i: u32| v.holds(user, i)) ==> v.rank(user, now) == UNRANKED_RANK,
{
    law_lookup_keeps_the_list(v, user);
    if exists|i: u32| v.holds(user, i) {
        let slot = v.resolve(user).1->0;
        lemma_ahead_bound(v, v.count as nat, slot, score(v.at[slot], now), now);
    }
}

proof fn lemma_ahead_order(v: TopListView, n: nat, a: u32, b: u32, now: u32)
    requires
        n <= u32::MAX,
        v.at.contains_key(a),
        v.at.contains_key(b),
        score(v.at[a], now) > score(v.at[b], now),
    ensures
        v.ahead(n, a, score(v.at[a], now), now) + (if a < n {
            1int
        } else {
            0
        }) <= v.ahead(n, b, score(v.at[b], now), now),
    decreases n,
{
    if n > 0 {
        lemma_ahead_order(v, (n - 1) as nat, a, b, now);
    }
}

/// Of two players in the list, the one with the higher score has the better
/// rank, and two with the same score have the same rank.
pub proof fn law_rank_follows_score(v: TopListView, u: Address, a: u32, w: Address, b: u32, now: u32)
    requires
        v.valid(),
        v.holds(u, a),
        v.holds(w, b),
    ensures
        score(v.at[a], now) > score(v.at[b], now) ==> v.rank(u, now) < v.rank(w, now),
        score(v.at[a], now) == score(v.at[b], now) ==> v.rank(u, now) == v.rank(w, now),
{
    lemma_found_slot(v, u, a);
    lemma_found_slot(v, w, b);
    if score(v.at[a], now) > score(v.at[b], now) {
        lemma_ahead_order(v, v.count as nat, a, b, now);
    } else if score(v.at[a], now) == score(v.at[b], now) {
        lemma_ahead_tie(v, v.count as nat, a, b, now);
    }
}

proof fn lemma_ahead_tie(v: TopListView, n: nat, a: u32, b: u32, now: u32)
    requires
        n <= u32::MAX,
        v.at.contains_key(a),
        v.at.contains_key(b),
        score(v.at[a], now) == score(v.at[b], now),
    ensures
        v.ahead(n, a, score(v.at[a], now), now) == v.ahead(n, b, score(v.at[b], now), now),
    decreases n,
{
    if n > 0 {
        lemma_ahead_tie(v, (n - 1) as nat, a, b, now);
    }
}

impl LeaderboardView {
    /// Every entry of the top list says what the player's record says.
    pub open spec fn agrees(self) -> bool {
        forall|e: PlayerEntry| #[trigger]
            self.top.lists(e) ==> {
                &&& self.stats.contains_key(e.address)
                &&& self.stats[e.address].points == e.points
                &&& self.stats[e.address].epoch == e.epoch
            }
    }
}

/// Crediting a player keeps the list valid, and keeps entries and records in
/// agreement. So a player's points and the score that the player is ranked by
/// never drift apart.
pub proof fn law_list_and_records_agree(v: LeaderboardView, user: Address, s: StoredStats, now: u32)
    requires
        v.top.valid(),
        v.agrees(),
        s.epoch == now,
    ensures
        v.with_record(user, s, now).top.valid(),
        v.with_record(user, s, now).agrees(),
{
    law_update_keeps_the_list_valid(v.top, user, s.points, now);
    let w = v.with_record(user, s, now);
    assert forall|e: PlayerEntry| #[trigger] w.top.lists(e) implies {
        &&& w.stats.contains_key(e.address)
        &&& w.stats[e.address].points == e.points
        &&& w.stats[e.address].epoch == e.epoch
    } by {
        if e.address != user {
            assert(v.top.lists(e));
        }
    }
}

/// Repairing the list, or looking a player up in it, keeps entries and records
/// in agreement.
pub proof fn law_upkeep_keeps_agreement(v: LeaderboardView, user: Address, now: u32)
    requires
        v.top.valid(),
        v.agrees(),
    ensures
        (LeaderboardView { top: v.top.repair(now), ..v }).top.valid(),
        (LeaderboardView { top: v.top.repair(now), ..v }).agrees(),
        (LeaderboardView { top: v.top.resolve(user).0, ..v }).top.valid(),
        (LeaderboardView { top: v.top.resolve(user).0, ..v }).agrees(),
{
    law_repair_closes_gaps(v.top, now);
    law_lookup_keeps_the_list(v.top, user);
    let r = LeaderboardView { top: v.top.repair(now), ..v };
    assert forall|e: PlayerEntry| #[trigger] r.top.lists(e) implies {
        &&& r.stats.contains_key(e.address)
        &&& r.stats[e.address].points == e.points
        &&& r.stats[e.address].epoch == e.epoch
    } by {
        assert(v.top.lists(e));
    }
    let q = LeaderboardView { top: v.top.resolve(user).0, ..v };
    assert forall|e: PlayerEntry| #[trigger] q.top.lists(e) implies {
        &&& q.stats.contains_key(e.address)
        &&& q.stats[e.address].points == e.points
        &&& q.stats[e.address].epoch == e.epoch
    } by {
        let i = choose|i: u32| #[trigger] q.top.stands(e, i);
        assert(v.top.stands(e, i));
        assert(v.top.lists(e));
    }
}

/// When entries and records agree, a listed player's points are the score that
/// the player is ranked by.
pub proof fn law_points_are_the_ranking_score(v: LeaderboardView, e: PlayerEntry, now: u32)
    requires
        v.agrees(),
        v.top.lists(e),
    ensures
        v.record_now(e.address, now).points == score(e, now),
{
    lemma_score_range(e.points, e.epoch, now);
}

/// A credit never takes points away. So when entries and records agree, crediting any
/// ranked player keeps a fresh cached minimum fresh.
pub proof fn law_credits_keep_the_minimum_fresh(
    v: LeaderboardView,
    user: Address,
    slot: u32,
    s: StoredStats,
    now: u32,
)
    requires
        v.top.valid(),
        v.agrees(),
        v.top.min_is_fresh(now),
        v.top.min_slot is Some,
        v.top.holds(user, slot),
        s.epoch == now,
        s.points >= v.record_now(user, now).points,
    ensures
        v.with_record(user, s, now).top.min_is_fresh(now),
{
    let e = v.top.at[slot];
    assert(v.top.stands(e, slot));
    assert(v.top.lists(e));
    law_points_are_the_ranking_score(v, e, now);
    law_ranked_updates_keep_the_minimum_fresh(v.top, user, s.points, slot, now);
}

/// A reward that is queued and then collected in the same period leaves the same
/// contents as one that is credited at once, if nothing was queued before.
pub proof fn law_queued_reward_is_not_lost(
    v: LeaderboardView,
    user: Address,
    points: u64,
    tokens: i128,
    is_won: bool,
    now: u32,
)
    requires
        !v.pending.contains_key(user),
        v.bet_fits(user, points, is_won, now),
    ensures
        ({
            let q = LeaderboardView {
                pending: v.pending.insert(user, v.after_queue(user, points, tokens, is_won)),
                ..v
            };
            &&& q.claimed(user, now) == v.with_record(
                user,
                v.after_bet(user, points, is_won, now),
                now,
            )
            &&& q.queued(user).tokens == tokens
        }),
{
    let q = LeaderboardView {
        pending: v.pending.insert(user, v.after_queue(user, points, tokens, is_won)),
        ..v
    };
    assert(q.record_now(user, now) == v.record_now(user, now));
    assert(q.after_claim(user, now) == v.after_bet(user, points, is_won, now));
    assert(q.pending.remove(user) =~= v.pending);
}

/// Collecting leaves nothing queued, so collecting again changes nothing.
pub proof fn law_claim_empties_the_queue(v: LeaderboardView, user: Address, now: u32)
    ensures
        !v.claimed(user, now).pending.contains_key(user),
        forall|u: Address|
            u != user ==> v.claimed(user, now).queued(u) == #[trigger] v.queued(u),
{
}

/// Rewards that are queued one after the other add up.
pub proof fn law_queued_rewards_add_up(
    v: LeaderboardView,
    user: Address,
    a: (u64, i128, bool),
    b: (u64, i128, bool),
)
    requires
        v.queue_fits(user, a.0, a.1, a.2),
        (LeaderboardView {
            pending: v.pending.insert(user, v.after_queue(user, a.0, a.1, a.2)),
            ..v
        }).queue_fits(user, b.0, b.1, b.2),
    ensures
        ({
            let q = LeaderboardView {
                pending: v.pending.insert(user, v.after_queue(user, a.0, a.1, a.2)),
                ..v
            };
            let p = q.after_queue(user, b.0, b.1, b.2);
            &&& p.points == v.queued(user).points + a.0 + b.0
            &&& p.tokens == v.queued(user).tokens + a.1 + b.1
            &&& p.bet_delta == v.queued(user).bet_delta + 2
            &&& p.won_delta + p.lost_delta == v.queued(user).won_delta + v.queued(user).lost_delta
                + 2
        }),
{
}

/// Crediting one player leaves every other player's record as it was, and a
/// record brought forward keeps its counters.
pub proof fn law_counters_never_decay(v: LeaderboardView, user: Address, s: StoredStats, now: u32)
    ensures
        forall|u: Address|
            u != user ==> v.with_record(user, s, now).stats.get(u) == #[trigger] v.stats.get(u),
        forward(s, now).activity() == s.activity(),
        forward(s, now).won_bets == s.won_bets,
        forward(s, now).lost_bets == s.lost_bets,
{
}

} // verus!
