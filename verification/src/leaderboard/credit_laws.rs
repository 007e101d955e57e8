//! Who may credit a player, what a credit does to the player's record, and what it asks
//! of the host.

use crate::env::Address;
use crate::leaderboard::board::{place_fx, TopList, TopListView};
use crate::leaderboard::decay::{law_decay_by_periods, lemma_score_range, score_at};
use crate::leaderboard::types::{
    DataKey, Effect, Event, LeaderboardContract, LeaderboardError, LeaderboardView, PendingReward,
    PlayerEntry, StoredStats, MAX_TOP_PLAYERS,
};
use vstd::prelude::*;

verus! {

/// The extension of one entry, in figures.
pub open spec fn extension(key: DataKey) -> Effect {
    Effect::ExtendTtl { key, threshold: 3_153_600, extend_to: 6_307_200 }
}

/// The extension of the instance, in figures.
pub open spec fn instance_extension() -> Effect {
    Effect::ExtendInstanceTtl { threshold: 3_153_600, extend_to: 6_307_200 }
}

/// Does this request only extend a lifetime?
pub open spec fn extends(f: Effect) -> bool {
    f is ExtendTtl || f is ExtendInstanceTtl
}

/// Do these requests only extend lifetimes?
pub open spec fn only_extends(fx: Seq<Effect>) -> bool {
    forall|i: int| 0 <= i < fx.len() ==> extends(#[trigger] fx[i])
}

/// The admin configures, the market contract credits bets and the referral contract
/// bonuses, these two while the contract is not paused. Anyone else is refused.
pub proof fn law_who_may_call(v: LeaderboardView, caller: Address)
    ensures
        v.admin_guard(caller) is Ok <==> v.admin == Some(caller),
        v.admin_guard(caller) == Err::<(), _>(LeaderboardError::NotInitialized) <==> v.admin is None,
        v.admin_guard(caller) == Err::<(), _>(LeaderboardError::NotAdmin) <==> v.admin is Some
            && v.admin != Some(caller),
        v.is_market(caller) is Ok <==> v.market == Some(caller),
        v.is_market(caller) == Err::<(), _>(LeaderboardError::NotInitialized) <==> v.market is None,
        v.is_market(caller) == Err::<(), _>(LeaderboardError::UnauthorizedCaller)
            <==> v.market is Some && v.market != Some(caller),
        v.market_guard(caller) is Ok <==> !v.paused && v.market == Some(caller),
        v.market_guard(caller) == Err::<(), _>(LeaderboardError::ContractPaused) <==> v.paused,
        v.market_guard(caller) == Err::<(), _>(LeaderboardError::NotInitialized) <==> !v.paused
            && v.market is None,
        v.market_guard(caller) == Err::<(), _>(LeaderboardError::UnauthorizedCaller) <==> !v.paused
            && v.market is Some && v.market != Some(caller),
        v.is_referral(caller) is Ok <==> v.referral == Some(caller),
        v.referral_guard(caller) is Ok <==> !v.paused && v.referral == Some(caller),
        v.referral_guard(caller) == Err::<(), _>(LeaderboardError::ContractPaused) <==> v.paused,
        v.referral_guard(caller) == Err::<(), _>(LeaderboardError::NotInitialized) <==> !v.paused
            && v.referral is None,
        v.referral_guard(caller) == Err::<(), _>(LeaderboardError::UnauthorizedCaller)
            <==> !v.paused && v.referral is Some && v.referral != Some(caller),
{
}

/// Tokens are minted in full for the user, by the token contract that was set and that
/// is of the expected version. Where there are none to mint, no token contract is asked.
pub proof fn law_rewards_are_minted_in_full(
    v: LeaderboardView,
    this: Address,
    user: Address,
    tokens: i128,
    version: u32,
)
    ensures
        ({
            let g = v.mint_guard(tokens, version);
            &&& g is Ok <==> tokens <= 0 || (v.token is Some && version == 1)
            &&& g == Err::<(), _>(LeaderboardError::TokenNotConfigured) <==> tokens > 0
                && v.token is None
            &&& g == Err::<(), _>(LeaderboardError::IncompatibleInterface) <==> tokens > 0
                && v.token is Some && version != 1
            &&& tokens > 0 ==> v.token_to_ask(tokens) == v.token
            &&& tokens <= 0 ==> v.token_to_ask(tokens) is None
            &&& tokens > 0 && v.token is Some ==> v.mint_fx(this, user, tokens) == seq![
                Effect::Mint { token: v.token->0, minter: this, to: user, amount: tokens },
            ]
            &&& tokens <= 0 ==> v.mint_fx(this, user, tokens).len() == 0
        }),
{
}

/// A player's record as of now: the points have decayed since the epoch in which they
/// were written, and the counters have not. A player without a record has nothing.
pub proof fn law_a_record_is_read_as_of_now(v: LeaderboardView, user: Address, now: u32)
    ensures
        ({
            let r = v.record_now(user, now);
            &&& r.epoch == now
            &&& r.activity() == r.won_bets + r.lost_bets + r.bonus_bets
            &&& v.stats.contains_key(user) ==> {
                let s = v.stats[user];
                &&& r.points == score_at(s.points, s.epoch, now)
                &&& r.won_bets == s.won_bets
                &&& r.lost_bets == s.lost_bets
                &&& r.bonus_bets == s.bonus_bets
                &&& v.record(user, now) == s
            }
            &&& !v.stats.contains_key(user) ==> {
                &&& r.points == 0 && r.won_bets == 0 && r.lost_bets == 0 && r.bonus_bets == 0
                &&& v.record(user, now) == r
            }
        }),
{
    let s = v.record(user, now);
    lemma_score_range(s.points, s.epoch, now);
}

/// A settled bet adds its points to what the player's score has become, and counts as
/// won or as lost.
pub proof fn law_a_bet_is_credited_on_top_of_the_decayed_score(
    v: LeaderboardView,
    user: Address,
    pts: u64,
    is_won: bool,
    now: u32,
)
    requires
        v.bet_fits(user, pts, is_won, now),
    ensures
        ({
            let s = v.after_bet(user, pts, is_won, now);
            let r = v.record_now(user, now);
            let w = v.with_record(user, s, now);
            &&& v.stats.contains_key(user) ==> s.points == score_at(
                v.stats[user].points,
                v.stats[user].epoch,
                now,
            ) + pts
            &&& !v.stats.contains_key(user) ==> s.points == pts
            &&& s.epoch == now
            &&& s.won_bets == r.won_bets + (if is_won {
                1int
            } else {
                0
            })
            &&& s.lost_bets == r.lost_bets + (if is_won {
                0int
            } else {
                1
            })
            &&& s.bonus_bets == r.bonus_bets
            &&& s.activity() == r.activity() + 1
            &&& w.record_now(user, now).points == r.points + pts
        }),
{
    law_a_record_is_read_as_of_now(v, user, now);
    let s = v.after_bet(user, pts, is_won, now);
    law_a_record_is_read_as_of_now(v.with_record(user, s, now), user, now);
    law_decay_by_periods(s.points as int, 0);
}

/// A bonus adds its points to what the player's score has become, and counts as a bonus
/// and as no bet.
pub proof fn law_a_bonus_is_credited_on_top_of_the_decayed_score(
    v: LeaderboardView,
    user: Address,
    pts: u64,
    now: u32,
)
    requires
        v.bonus_fits(user, pts, now),
    ensures
        ({
            let s = v.after_bonus(user, pts, now);
            let r = v.record_now(user, now);
            let w = v.with_record(user, s, now);
            &&& v.stats.contains_key(user) ==> s.points == score_at(
                v.stats[user].points,
                v.stats[user].epoch,
                now,
            ) + pts
            &&& !v.stats.contains_key(user) ==> s.points == pts
            &&& s.epoch == now
            &&& s.bonus_bets == r.bonus_bets + 1
            &&& s.won_bets == r.won_bets
            &&& s.lost_bets == r.lost_bets
            &&& s.activity() == r.activity() + 1
            &&& w.record_now(user, now).points == r.points + pts
        }),
{
    law_a_record_is_read_as_of_now(v, user, now);
    let s = v.after_bonus(user, pts, now);
    law_a_record_is_read_as_of_now(v.with_record(user, s, now), user, now);
    law_decay_by_periods(s.points as int, 0);
}

/// A bet and a bonus of the same size leave a player with the same points, in whichever
/// epoch they come; so do two credits and one of their sum.
pub proof fn law_credits_add_up(
    v: LeaderboardView,
    user: Address,
    a: u64,
    b: u64,
    is_won: bool,
    now: u32,
)
    requires
        v.bonus_fits(user, a, now),
        v.bet_fits(user, a, is_won, now),
        v.with_record(user, v.after_bonus(user, a, now), now).bonus_fits(user, b, now),
        a + b <= u64::MAX,
    ensures
        v.after_bonus(user, a, now).points == v.after_bet(user, a, is_won, now).points,
        v.with_record(user, v.after_bonus(user, a, now), now).after_bonus(user, b, now).points
            == v.record_now(user, now).points + a + b,
{
    law_a_bonus_is_credited_on_top_of_the_decayed_score(v, user, a, now);
    law_a_bet_is_credited_on_top_of_the_decayed_score(v, user, a, is_won, now);
    let w = v.with_record(user, v.after_bonus(user, a, now), now);
    law_a_bonus_is_credited_on_top_of_the_decayed_score(w, user, b, now);
    law_a_record_is_read_as_of_now(v, user, now);
    law_a_record_is_read_as_of_now(w, user, now);
}

/// Writing a record changes that player's record, and the top list as far as that
/// player's new score does; nothing else.
pub proof fn law_a_record_is_written_for_one_player(
    v: LeaderboardView,
    user: Address,
    s: StoredStats,
    now: u32,
)
    ensures
        ({
            let w = v.with_record(user, s, now);
            &&& w.stats.get(user) == Some(s)
            &&& forall|u: Address| u != user ==> w.stats.get(u) == #[trigger] v.stats.get(u)
            &&& w.top == v.top.update(user, s.points, now).0
            &&& w == (LeaderboardView { stats: w.stats, top: w.top, ..v })
        }),
{
}

/// Credits fit as long as the counters that they raise stay within range, and there are
/// sequence numbers left.
pub proof fn law_when_credits_fit(
    v: LeaderboardView,
    user: Address,
    pts: u64,
    tokens: i128,
    is_won: bool,
    now: u32,
)
    requires
        v.top.seq_counter < u64::MAX,
    ensures
        ({
            let r = v.record_now(user, now);
            let p = v.queued(user);
            &&& v.bet_fits(user, pts, is_won, now) <==> r.points + pts <= u64::MAX && (if is_won {
                r.won_bets + 1 <= u32::MAX
            } else {
                r.lost_bets + 1 <= u32::MAX
            })
            &&& v.bonus_fits(user, pts, now) <==> r.points + pts <= u64::MAX && r.bonus_bets + 1
                <= u32::MAX
            &&& v.queue_fits(user, pts, tokens, is_won) <==> {
                &&& p.points + pts <= u64::MAX
                &&& i128::MIN <= p.tokens + tokens <= i128::MAX
                &&& p.bet_delta + 1 <= u32::MAX
                &&& if is_won {
                    p.won_delta + 1 <= u32::MAX
                } else {
                    p.lost_delta + 1 <= u32::MAX
                }
            }
            &&& v.claim_fits(user, now) <==> (p.points == 0 && p.bet_delta == 0) || {
                &&& r.points + p.points <= u64::MAX
                &&& r.won_bets + p.won_delta <= u32::MAX
                &&& r.lost_bets + p.lost_delta <= u32::MAX
            }
        }),
{
}

/// A reward that is queued is added to what is queued for the player, and nothing else
/// is queued.
pub proof fn law_a_queued_reward_is_added(
    v: LeaderboardView,
    user: Address,
    points: u64,
    tokens: i128,
    is_won: bool,
)
    requires
        v.queue_fits(user, points, tokens, is_won),
    ensures
        ({
            let p = v.queued(user);
            let q = v.after_queue(user, points, tokens, is_won);
            &&& v.pending.contains_key(user) ==> p == v.pending[user]
            &&& !v.pending.contains_key(user) ==> p == (PendingReward {
                points: 0,
                tokens: 0,
                won_delta: 0,
                lost_delta: 0,
                bet_delta: 0,
            })
            &&& q.points == p.points + points
            &&& q.tokens == p.tokens + tokens
            &&& q.bet_delta == p.bet_delta + 1
            &&& is_won ==> q.won_delta == p.won_delta + 1 && q.lost_delta == p.lost_delta
            &&& !is_won ==> q.won_delta == p.won_delta && q.lost_delta == p.lost_delta + 1
        }),
{
}

/// Collecting adds what is queued to what the player's score has become and to the
/// counters, and leaves nothing queued. It touches the record only if points or bets
/// are queued.
pub proof fn law_collecting_adds_what_is_queued(v: LeaderboardView, user: Address, now: u32)
    requires
        v.claim_fits(user, now),
    ensures
        ({
            let p = v.queued(user);
            let r = v.record_now(user, now);
            let s = v.after_claim(user, now);
            let w = v.claimed(user, now);
            let some = p.points != 0 || p.bet_delta != 0;
            &&& some ==> {
                &&& s.points == r.points + p.points
                &&& s.won_bets == r.won_bets + p.won_delta
                &&& s.lost_bets == r.lost_bets + p.lost_delta
                &&& s.bonus_bets == r.bonus_bets
                &&& s.epoch == now
                &&& w.stats.get(user) == Some(s)
                &&& w.top == v.top.update(user, s.points, now).0
                &&& w.record_now(user, now).points == r.points + p.points
            }
            &&& !some ==> w.stats == v.stats && w.top == v.top
            &&& forall|u: Address| u != user ==> w.stats.get(u) == #[trigger] v.stats.get(u)
            &&& !w.pending.contains_key(user)
            &&& forall|u: Address| u != user ==> w.pending.get(u) == #[trigger] v.pending.get(u)
            &&& w == (LeaderboardView { stats: w.stats, top: w.top, pending: w.pending, ..v })
        }),
{
    law_a_record_is_read_as_of_now(v, user, now);
    let w = v.claimed(user, now);
    law_a_record_is_read_as_of_now(w, user, now);
    law_decay_by_periods(v.after_claim(user, now).points as int, 0);
}

/// Two lists of extensions make one.
proof fn lemma_extensions_add(a: Seq<Effect>, b: Seq<Effect>)
    requires
        only_extends(a),
        only_extends(b),
    ensures
        only_extends(a + b),
{
    assert forall|i: int| 0 <= i < (a + b).len() implies extends(#[trigger] (a + b)[i]) by {
        if i < a.len() {
            assert((a + b)[i] == a[i]);
        } else {
            assert((a + b)[i] == b[i - a.len()]);
        }
    }
}

/// Compaction asks for extensions only.
proof fn lemma_compact_fx(v: TopListView, n: nat)
    ensures
        only_extends(v.compact(n).2),
    decreases n,
{
    if n > 0 {
        lemma_compact_fx(v, (n - 1) as nat);
        let (w, write, fx) = v.compact((n - 1) as nat);
        let e = w.at[(n - 1) as u32];
        lemma_extensions_add(fx, place_fx(write, e));
    }
}

proof fn lemma_repair_fx(v: TopListView)
    ensures
        only_extends(v.repair_fx()),
        v.repair_fx().len() > 0,
        v.repair_fx()[v.repair_fx().len() - 1] == instance_extension(),
{
    lemma_compact_fx(v, v.count as nat);
}

proof fn lemma_readied_fx(v: TopListView, now: u32, stale: bool)
    ensures
        only_extends(v.readied_fx(now, stale)),
{
    lemma_repair_fx(v);
    let a = if stale {
        v.repair(now)
    } else {
        v
    };
    lemma_repair_fx(a);
    let x = if stale {
        v.repair_fx()
    } else {
        Seq::empty()
    };
    let y = if a.count < MAX_TOP_PLAYERS || a.at.contains_key(a.target()) {
        Seq::empty()
    } else {
        a.repair_fx()
    };
    lemma_extensions_add(x, y);
}

/// Whatever happens to the top list asks for extensions only.
pub proof fn law_the_top_list_asks_for_extensions_only(
    v: TopListView,
    user: Address,
    points: u64,
    now: u32,
)
    ensures
        only_extends(v.update(user, points, now).1),
        only_extends(v.resolve(user).2),
        only_extends(v.repair_fx()),
        v.repair_fx().len() > 0,
        v.repair_fx()[v.repair_fx().len() - 1] == instance_extension(),
{
    lemma_repair_fx(v);
    let (r, found, fx) = v.resolve(user);
    assert(only_extends(fx));
    match found {
        Some(slot) => {
            lemma_extensions_add(
                fx,
                place_fx(slot, PlayerEntry { address: user, points, epoch: now }),
            );
        },
        None => {
            let stale = v.slot_of.contains_key(user);
            lemma_readied_fx(r, now, stale);
            let last = r.readied(now, stale).enter(user, points, now).1;
            assert(only_extends(last));
            lemma_extensions_add(r.readied_fx(now, stale), last);
        },
    }
}

/// Crediting a bet extends the player's record and announces the new points and the
/// bets won and lost; apart from that announcement it asks for extensions only.
pub proof fn law_a_credited_bet_is_announced(
    v: LeaderboardView,
    user: Address,
    pts: u64,
    is_won: bool,
    now: u32,
)
    ensures
        ({
            let fx = v.bet_fx(user, pts, is_won, now);
            let s = v.after_bet(user, pts, is_won, now);
            &&& fx.len() >= 2
            &&& fx[0] == extension(DataKey::Stats(user))
            &&& fx[fx.len() - 1] == Effect::Publish(
                Event::Settled {
                    user,
                    points: s.points,
                    won_bets: s.won_bets,
                    lost_bets: s.lost_bets,
                },
            )
            &&& forall|i: int| 0 <= i < fx.len() - 1 ==> extends(#[trigger] fx[i])
            &&& fx.subrange(1, fx.len() - 1) == v.top.update(user, s.points, now).1
        }),
{
    let s = v.after_bet(user, pts, is_won, now);
    let fx = v.bet_fx(user, pts, is_won, now);
    let mid = v.top.update(user, s.points, now).1;
    law_the_top_list_asks_for_extensions_only(v.top, user, s.points, now);
    assert(fx.subrange(1, fx.len() - 1) =~= mid);
    assert forall|i: int| 0 <= i < fx.len() - 1 implies extends(#[trigger] fx[i]) by {
        if i > 0 {
            assert(fx[i] == mid[i - 1]);
        }
    }
}

/// Crediting a bonus extends the player's record and announces the new points and the
/// number of bonuses; apart from that announcement it asks for extensions only.
pub proof fn law_a_credited_bonus_is_announced(
    v: LeaderboardView,
    user: Address,
    pts: u64,
    now: u32,
)
    ensures
        ({
            let fx = v.bonus_fx(user, pts, now);
            let s = v.after_bonus(user, pts, now);
            &&& fx.len() >= 2
            &&& fx[0] == extension(DataKey::Stats(user))
            &&& fx[fx.len() - 1] == Effect::Publish(
                Event::Bonus { user, points: s.points, bonus_bets: s.bonus_bets },
            )
            &&& forall|i: int| 0 <= i < fx.len() - 1 ==> extends(#[trigger] fx[i])
            &&& fx.subrange(1, fx.len() - 1) == v.top.update(user, s.points, now).1
        }),
{
    let s = v.after_bonus(user, pts, now);
    let fx = v.bonus_fx(user, pts, now);
    let mid = v.top.update(user, s.points, now).1;
    law_the_top_list_asks_for_extensions_only(v.top, user, s.points, now);
    assert(fx.subrange(1, fx.len() - 1) =~= mid);
    assert forall|i: int| 0 <= i < fx.len() - 1 implies extends(#[trigger] fx[i]) by {
        if i > 0 {
            assert(fx[i] == mid[i - 1]);
        }
    }
}

/// Collecting mints the tokens that are queued, once and in full, and asks for
/// extensions otherwise.
pub proof fn law_collecting_mints_what_is_queued(
    v: LeaderboardView,
    this: Address,
    user: Address,
    now: u32,
)
    requires
        v.token is Some,
    ensures
        ({
            let fx = v.claim_fx(this, user, now);
            let p = v.queued(user);
            &&& fx.len() > 0 && fx[fx.len() - 1] == instance_extension()
            &&& p.tokens > 0 ==> fx.len() > 1 && fx[fx.len() - 2] == (Effect::Mint {
                token: v.token->0,
                minter: this,
                to: user,
                amount: p.tokens,
            })
            &&& forall|i: int|
                0 <= i < fx.len() && !(p.tokens > 0 && i == fx.len() - 2) ==> extends(
                    #[trigger] fx[i],
                )
            &&& p.points != 0 || p.bet_delta != 0 ==> fx[0] == extension(DataKey::Stats(user))
        }),
{
    let fx = v.claim_fx(this, user, now);
    let p = v.queued(user);
    let s = v.after_claim(user, now);
    let mid = v.top.update(user, s.points, now).1;
    law_the_top_list_asks_for_extensions_only(v.top, user, s.points, now);
    if p.points != 0 || p.bet_delta != 0 {
        let head = v.record_fx(user, s, now);
        assert forall|i: int| 0 <= i < head.len() implies extends(#[trigger] head[i]) by {
            if i > 0 {
                assert(head[i] == mid[i - 1]);
            }
        }
        assert forall|i: int| 0 <= i < head.len() implies fx[i] == #[trigger] head[i] by {}
    }
}

/// Keeping a player's entries alive extends the record and the place in the top list,
/// each if there is one, and the instance.
pub proof fn law_upkeep_extends_what_is_there(v: LeaderboardView, user: Address)
    ensures
        ({
            let fx = v.refresh_fx(user);
            let slot = v.top.slot_of[user];
            let listed = v.top.slot_of.contains_key(user) && slot < v.top.count
                && v.top.at.contains_key(slot);
            let k: int = if v.stats.contains_key(user) {
                1
            } else {
                0
            };
            &&& k == 1 ==> fx[0] == extension(DataKey::Stats(user))
            &&& listed ==> fx.len() == k + 3 && fx[k] == extension(DataKey::TopPlayerAt(slot)) && fx[k
                + 1] == extension(DataKey::TopPlayerSlot(user))
            &&& !listed ==> fx.len() == k + 1
            &&& fx[fx.len() - 1] == instance_extension()
        }),
{
}

/// The contents are all that is stored, and a contract that was just deployed stores
/// nothing.
pub proof fn law_the_contents_are_what_is_stored(c: LeaderboardContract, t: TopList)
    ensures
        c@.admin == c.admin && c@.market == c.market && c@.referral == c.referral,
        c@.token == c.token && c@.paused == c.paused && c@.top == c.top@,
        c@.stats == c.stats@ && c@.pending == c.pending@,
        t@.count == t.count && t@.seq_counter == t.seq_counter,
        t@.min_points == t.min_points && t@.min_slot == t.min_slot,
        t@.at == t.at@ && t@.slot_of == t.slot_of@ && t@.seq_at == t.seq_at@,
        ({
            let e = LeaderboardView::empty();
            &&& e.admin is None && e.market is None && e.referral is None && e.token is None
            &&& !e.paused && e.stats.dom().is_empty() && e.pending.dom().is_empty()
            &&& e.top.count == 0 && e.top.seq_counter == 0 && e.top.min_points == 0
            &&& e.top.min_slot is None && e.top.at.dom().is_empty()
            &&& e.top.slot_of.dom().is_empty() && e.top.seq_at.dom().is_empty()
        }),
{
}

} // verus!
