//! What accepted calls of the market contract change, and what they ask of the host.

use crate::env::Address;
use crate::prediction_market::betting::lemma_parts;
use crate::prediction_market::model::{held_of, net_of, platform_fee_of, referral_fee_of};
use crate::prediction_market::payout_laws::{
    law_a_winner_gets_the_share, law_claims_and_fees_make_the_pool, lemma_payouts_set, lemma_totals,
};
use crate::prediction_market::types::{
    BetEntry, Category, Config, DataKey, Effect, Market, MarketsView, PredictionMarketContract,
};
use vstd::prelude::*;

verus! {

/// The extension of one entry, in figures.
pub open spec fn extension(key: DataKey) -> Effect {
    Effect::ExtendTtl { key, threshold: 3_153_600, extend_to: 6_307_200 }
}

/// What one request adds to what `who` has of an asset.
pub open spec fn gain(f: Effect, asset: Address, who: Address) -> int {
    match f {
        Effect::Transfer { asset: x, from, to, amount } => if x != asset {
            0
        } else {
            (if to == who {
                amount as int
            } else {
                0
            }) - (if from == who {
                amount as int
            } else {
                0
            })
        },
        _ => 0,
    }
}

/// What the requests together add to what `who` has of an asset.
pub open spec fn gains(fx: Seq<Effect>, asset: Address, who: Address) -> int
    decreases fx.len(),
{
    if fx.len() == 0 {
        0
    } else {
        gains(fx.drop_last(), asset, who) + gain(fx.last(), asset, who)
    }
}

proof fn lemma_gains_push(fx: Seq<Effect>, f: Effect, asset: Address, who: Address)
    ensures
        gains(fx.push(f), asset, who) == gains(fx, asset, who) + gain(f, asset, who),
{
    assert(fx.push(f).drop_last() =~= fx);
}

/// Where nothing is written down for a market or a user, it counts as zero.
pub proof fn law_what_is_not_written_down_is_zero(v: MarketsView, id: u64, user: Address, m: Market)
    ensures
        v.payouts.contains_key((id, user)) ==> v.payout(id, user) == v.payouts[(id, user)],
        !v.payouts.contains_key((id, user)) ==> v.payout(id, user) == 0,
        v.market_fees.contains_key(id) ==> v.fees_of(id) == v.market_fees[id],
        !v.market_fees.contains_key(id) ==> v.fees_of(id) == 0,
        v.bettor_count.contains_key(id) ==> v.bettors(id) == v.bettor_count[id],
        !v.bettor_count.contains_key(id) ==> v.bettors(id) == 0,
        m.pool() == m.total_yes + m.total_no,
        m.side(true) == m.total_yes,
        m.side(false) == m.total_no,
{
}

/// The fee on a bet is two percent, of which the platform's part is one and a half, each
/// rounded down; the stake is the rest of the bet, rounded down. Where no referrer gets
/// the referral fee, it is held with the platform's.
pub proof fn law_the_fee_is_two_percent(amount: i128)
    ensures
        ({
            let (net, platform, referral) = (
                net_of(amount),
                platform_fee_of(amount),
                referral_fee_of(amount),
            );
            &&& 100 * net <= 98 * amount < 100 * (net + 1)
            &&& 1000 * platform <= 15 * amount < 1000 * (platform + 1)
            &&& 100 * (platform + referral) <= 2 * amount < 100 * (platform + referral + 1)
            &&& held_of(amount, true) == platform
            &&& held_of(amount, false) == platform + referral
        }),
{
    lemma_parts(amount);
}

/// Taking a bet moves the whole bet to the contract. Unless the user is known to have
/// no referrer, the referral fee is sent on and credited, on every bet alike: what then
/// stays is the stake and what is held, but for at most one that rounding leaves.
pub proof fn law_a_bet_moves_its_money(
    v: MarketsView,
    user: Address,
    amount: i128,
    this: Address,
    cfg: Config,
)
    requires
        v.cfg == Some(cfg),
        amount > 0,
    ensures
        ({
            let fx = v.open_bet_fx(user, amount, this);
            let asked = !v.has_referrer.contains_pair(user, false);
            let fee = amount * 200 / 10_000 - amount * 150 / 10_000;
            let taken = Effect::Transfer { asset: cfg.xlm_sac, from: user, to: this, amount };
            let sent = Effect::Transfer {
                asset: cfg.xlm_sac,
                from: this,
                to: cfg.referral,
                amount: fee as i128,
            };
            let credit = Effect::Credit {
                referral: cfg.referral,
                from: this,
                user,
                fee: fee as i128,
            };
            &&& v.asks_referral(user) <==> asked
            &&& 0 <= fee < amount
            &&& fx.len() > 0 && fx[0] == Effect::RequireAuth(user)
            &&& fx[1] == taken
            &&& asked ==> fx.len() == 4 && fx[2] == sent && fx[3] == credit
            &&& !asked ==> fx.len() == 2
            &&& forall|i: int|
                0 <= i < fx.len() ==> ((#[trigger] fx[i]) is Transfer <==> i == 1 || (asked && i
                    == 2))
            &&& forall|i: int| 0 <= i < fx.len() ==> ((#[trigger] fx[i]) is Credit <==> asked && i == 3)
            &&& this != user && this != cfg.referral ==> {
                &&& gains(fx, cfg.xlm_sac, this) == amount - (if asked {
                    fee
                } else {
                    0
                })
                &&& 0 <= gains(fx, cfg.xlm_sac, this) - net_of(amount) - held_of(amount, asked)
                    <= 1
            }
        }),
{
    lemma_parts(amount);
    let fee = referral_fee_of(amount) as i128;
    let fx = v.open_bet_fx(user, amount, this);
    let auth = Effect::RequireAuth(user);
    let taken = Effect::Transfer { asset: cfg.xlm_sac, from: user, to: this, amount };
    let sent = Effect::Transfer { asset: cfg.xlm_sac, from: this, to: cfg.referral, amount: fee };
    let credit = Effect::Credit { referral: cfg.referral, from: this, user, fee };
    assert(amount * 200 == 200 * amount && amount * 150 == 150 * amount);
    assert(fee == amount * 200 / 10_000 - amount * 150 / 10_000);
    assert(gains(Seq::<Effect>::empty(), cfg.xlm_sac, this) == 0);
    lemma_gains_push(Seq::empty(), auth, cfg.xlm_sac, this);
    lemma_gains_push(Seq::empty().push(auth), taken, cfg.xlm_sac, this);
    let two = Seq::empty().push(auth).push(taken);
    if v.asks_referral(user) {
        lemma_gains_push(two, sent, cfg.xlm_sac, this);
        lemma_gains_push(two.push(sent), credit, cfg.xlm_sac, this);
        assert(fx =~= two.push(sent).push(credit));
    } else {
        assert(fx =~= two);
    }
}

/// Two bets of one size by one user ask the same of the host, unless the referral
/// contract said after the first that there is no referrer; then only the stake moves.
pub proof fn law_later_bets_move_money_as_the_first(
    v: MarketsView,
    user: Address,
    market_id: u64,
    is_yes: bool,
    amount: i128,
    credited: bool,
    this: Address,
)
    requires
        v.cfg is Some,
    ensures
        ({
            let w = v.with_bet(user, market_id, is_yes, amount, credited);
            let first = v.open_bet_fx(user, amount, this);
            let second = w.open_bet_fx(user, amount, this);
            &&& credited || v.has_referrer.contains_key(user) ==> second == first
            &&& !credited && !v.has_referrer.contains_key(user) ==> {
                &&& !w.asks_referral(user)
                &&& second == first.take(2)
            }
        }),
{
    let w = v.with_bet(user, market_id, is_yes, amount, credited);
    assert(w.open_bet_fx(user, amount, this) =~= w.open_bet_fx(user, amount, this).take(2)
        || w.asks_referral(user));
    assert(v.open_bet_fx(user, amount, this).take(2) =~= seq![
        v.open_bet_fx(user, amount, this)[0],
        v.open_bet_fx(user, amount, this)[1],
    ]);
}

/// A bet is recorded in full: in the user's entry, in the market's totals, in the index
/// of its bettors, in the fees and in what is known of the user's referrer. Nothing else
/// changes.
pub proof fn law_a_bet_is_recorded(
    v: MarketsView,
    user: Address,
    market_id: u64,
    is_yes: bool,
    amount: i128,
    credited: bool,
    now: u64,
)
    requires
        v.bet_guard(user, market_id, is_yes, amount, now) is Ok,
        v.bet_fits(user, market_id, is_yes, amount, credited),
    ensures
        ({
            let w = v.with_bet(user, market_id, is_yes, amount, credited);
            let net = amount * 9800 / 10_000;
            let platform = amount * 150 / 10_000;
            let referral = amount * 200 / 10_000 - platform;
            let paid = credited && !v.has_referrer.contains_pair(user, false);
            let held = if paid {
                platform
            } else {
                platform + referral
            };
            let key = (market_id, user);
            let had = v.bets.contains_key(key);
            let e = v.bets[key];
            let f = w.bets[key];
            let m = v.markets[market_id];
            let n = w.markets[market_id];
            &&& w.bets.contains_key(key)
            &&& had ==> {
                &&& f.net == e.net + net
                &&& f.gross == e.gross + amount
                &&& f.refundable == e.refundable + net + held
                &&& f.count == e.count + 1
                &&& f.is_yes == e.is_yes && f.claimed == e.claimed
            }
            &&& !had ==> f.net == net && f.gross == amount && f.refundable == net + held && f.count
                == 1 && f.is_yes == is_yes && !f.claimed
            &&& forall|k: (u64, Address)| k != key ==> w.bets.get(k) == #[trigger] v.bets.get(k)
            &&& w.markets.dom() == v.markets.dom()
            &&& n.total_yes == m.total_yes + (if is_yes {
                net
            } else {
                0
            })
            &&& n.total_no == m.total_no + (if is_yes {
                0
            } else {
                net
            })
            &&& n.bet_count == m.bet_count + (if had {
                0int
            } else {
                1
            })
            &&& n == (Market {
                total_yes: n.total_yes,
                total_no: n.total_no,
                bet_count: n.bet_count,
                ..m
            })
            &&& forall|id: u64| id != market_id ==> w.markets.get(id) == #[trigger] v.markets.get(id)
            &&& w.accumulated_fees == v.accumulated_fees + held
            &&& w.fees_of(market_id) == v.fees_of(market_id) + held
            &&& forall|id: u64|
                id != market_id ==> w.market_fees.get(id) == #[trigger] v.market_fees.get(id)
            &&& had ==> w.bettor_at == v.bettor_at && w.bettor_count == v.bettor_count
            &&& !had ==> {
                &&& w.bettors(market_id) == v.bettors(market_id) + 1
                &&& w.bettor_at.get((market_id, v.bettors(market_id))) == Some(user)
                &&& forall|k: (u64, u32)|
                    k != (market_id, v.bettors(market_id)) ==> w.bettor_at.get(k)
                        == #[trigger] v.bettor_at.get(k)
                &&& forall|id: u64|
                    id != market_id ==> w.bettor_count.get(id) == #[trigger] v.bettor_count.get(id)
            }
            &&& w.has_referrer.get(user) == Some(
                if v.has_referrer.contains_key(user) {
                    v.has_referrer[user]
                } else {
                    credited
                },
            )
            &&& forall|a: Address|
                a != user ==> w.has_referrer.get(a) == #[trigger] v.has_referrer.get(a)
            &&& w.admin == v.admin && w.cfg == v.cfg && w.market_count == v.market_count
            &&& w.rate_window == v.rate_window && w.resolvers == v.resolvers
            &&& w.fee_recipients == v.fee_recipients && w.payouts == v.payouts
            &&& w.pending_withdrawals == v.pending_withdrawals
        }),
{
    lemma_parts(amount);
    assert(amount * 9800 == 9800 * amount && amount * 200 == 200 * amount && amount * 150 == 150
        * amount);
    let w = v.with_bet(user, market_id, is_yes, amount, credited);
    assert(w.markets.dom() =~= v.markets.dom());
}

/// A bet fits as long as the sums that it raises stay within the contract's integers.
pub proof fn law_when_a_bet_fits(
    v: MarketsView,
    user: Address,
    market_id: u64,
    is_yes: bool,
    amount: i128,
    credited: bool,
)
    ensures
        ({
            let net = amount * 9800 / 10_000;
            let platform = amount * 150 / 10_000;
            let referral = amount * 200 / 10_000 - platform;
            let paid = credited && !v.has_referrer.contains_pair(user, false);
            let held = if paid {
                platform
            } else {
                platform + referral
            };
            let key = (market_id, user);
            let had = v.bets.contains_key(key);
            let e = v.bets[key];
            let m = v.markets[market_id];
            v.bet_fits(user, market_id, is_yes, amount, credited) <==> {
                &&& v.accumulated_fees + held <= i128::MAX
                &&& v.fees_of(market_id) + held <= i128::MAX
                &&& is_yes ==> m.total_yes + net <= i128::MAX
                &&& !is_yes ==> m.total_no + net <= i128::MAX
                &&& had ==> e.net + net <= i128::MAX && e.gross + amount <= i128::MAX && e.refundable
                    + net + held <= i128::MAX
                &&& !had ==> v.bettors(market_id) < u32::MAX && m.bet_count < u32::MAX
            }
        }),
{
    lemma_parts(amount);
    assert(amount * 9800 == 9800 * amount && amount * 200 == 200 * amount && amount * 150 == 150
        * amount);
}

/// Recording a bet asks for the extension of what it has written, and for nothing else.
pub proof fn law_recording_a_bet_extends_what_it_wrote(v: MarketsView, user: Address, id: u64)
    ensures
        ({
            let fx = v.settle_bet_fx(user, id);
            let first = !v.bets.contains_key((id, user));
            let k: int = if v.has_referrer.contains_key(user) {
                0
            } else {
                1
            };
            &&& k == 1 ==> fx[0] == extension(DataKey::HasReferrer(user))
            &&& fx[k] == extension(DataKey::MarketFees(id))
            &&& fx[k + 1] == extension(DataKey::Bet(id, user))
            &&& first ==> {
                &&& fx[k + 2] == extension(DataKey::BettorAt(id, v.bettors(id)))
                &&& fx[k + 3] == extension(DataKey::BettorCount(id))
                &&& fx[k + 4] == extension(DataKey::Market(id))
                &&& fx.len() == k + 5
            }
            &&& !first ==> fx[k + 2] == extension(DataKey::Market(id)) && fx.len() == k + 3
        }),
{
}

/// A new market has the next number, the given text and end, and no bets; no other
/// market changes, nor anything else but the rate window.
pub proof fn law_a_market_is_created_as_asked(
    v: MarketsView,
    creator: Address,
    question: Vec<u8>,
    image_url: Vec<u8>,
    category: Category,
    duration_secs: u64,
    now: u64,
)
    requires
        v.market_count < u64::MAX,
        now + duration_secs <= u64::MAX,
    ensures
        ({
            let w = v.with_market(creator, question, image_url, category, duration_secs, now);
            let id = w.market_count;
            let m = w.markets[id];
            &&& id == v.market_count + 1
            &&& w.markets.contains_key(id)
            &&& m.id == id && m.creator == creator && m.category == category
            &&& m.question == question && m.image_url == image_url
            &&& m.end_time - now == duration_secs
            &&& m.total_yes == 0 && m.total_no == 0 && m.bet_count == 0
            &&& !m.resolved && !m.cancelled && !m.outcome
            &&& forall|k: u64| k != id ==> w.markets.get(k) == #[trigger] v.markets.get(k)
            &&& w == (MarketsView {
                market_count: id,
                markets: w.markets,
                rate_window: w.rate_window,
                ..v
            })
        }),
{
}

/// Resolution marks the market with the outcome. A user who bet on the side that won is
/// assigned the stake's share of both sides' stakes, rounded down, and nobody else is
/// assigned anything. What is not assigned goes to the fees.
pub proof fn law_resolution_shares_out_the_pool(
    v: MarketsView,
    caller: Address,
    market_id: u64,
    outcome: bool,
    now: u64,
)
    requires
        v.sound(),
        v.resolve_guard(caller, market_id, now) is Ok,
        v.resolve_fits(market_id, outcome),
    ensures
        ({
            let w = v.with_outcome(market_id, outcome);
            let m = v.markets[market_id];
            let pool = m.total_yes + m.total_no;
            let side = if outcome {
                m.total_yes
            } else {
                m.total_no
            };
            &&& w.markets.get(market_id) == Some(Market { resolved: true, outcome, ..m })
            &&& forall|id: u64| id != market_id ==> w.markets.get(id) == #[trigger] v.markets.get(id)
            &&& forall|a: Address| #[trigger]
                v.bets.contains_key((market_id, a)) && v.bets[(market_id, a)].is_yes == outcome ==> {
                    &&& side > 0
                    &&& w.payouts.contains_key((market_id, a))
                    &&& w.payouts[(market_id, a)] == v.bets[(market_id, a)].net * pool / (side
                        as int)
                }
            &&& forall|a: Address|
                !(v.bets.contains_key((market_id, a)) && v.bets[(market_id, a)].is_yes == outcome)
                    ==> !#[trigger] w.payouts.contains_key((market_id, a))
            &&& forall|k: (u64, Address)|
                k.0 != market_id ==> w.payouts.get(k) == #[trigger] v.payouts.get(k)
            &&& w.accumulated_fees - v.accumulated_fees == pool - w.assigned(
                market_id,
                v.bettors(market_id) as nat,
            )
            &&& w.fees_of(market_id) - v.fees_of(market_id) == w.accumulated_fees
                - v.accumulated_fees
            &&& forall|id: u64|
                id != market_id ==> w.market_fees.get(id) == #[trigger] v.market_fees.get(id)
            &&& w == (MarketsView {
                markets: w.markets,
                payouts: w.payouts,
                accumulated_fees: w.accumulated_fees,
                market_fees: w.market_fees,
                ..v
            })
        }),
{
    let w = v.with_outcome(market_id, outcome);
    let n = v.bettors(market_id) as nat;
    let m = v.markets[market_id];
    assert(v.booked(market_id));
    lemma_totals(v, market_id);
    law_claims_and_fees_make_the_pool(v, caller, market_id, outcome, now);
    lemma_payouts_set(v, market_id, outcome, n);
    assert forall|a: Address| #[trigger]
        v.bets.contains_key((market_id, a)) && v.bets[(market_id, a)].is_yes == outcome implies {
        let side = if outcome {
            m.total_yes
        } else {
            m.total_no
        };
        &&& side > 0
        &&& w.payouts.contains_key((market_id, a))
        &&& w.payouts[(market_id, a)] == v.bets[(market_id, a)].net * (m.total_yes + m.total_no) / (
        side as int)
    } by {
        law_a_winner_gets_the_share(v, market_id, outcome, a);
    }
    assert forall|a: Address|
        !(v.bets.contains_key((market_id, a)) && v.bets[(market_id, a)].is_yes
            == outcome) implies !#[trigger] w.payouts.contains_key((market_id, a)) by {
        assert(!v.payouts.contains_key((market_id, a)));
        if w.payouts.contains_key((market_id, a)) {
            let i = choose|i: u32|
                i < n && #[trigger] v.winner(market_id, outcome, i) == Some(a);
            assert(v.bets.contains_key((market_id, a)));
        }
    }
}

/// What resolution extends for the winners among the first bettors.
proof fn lemma_payouts_fx(v: MarketsView, id: u64, outcome: bool, n: nat)
    requires
        n <= u32::MAX,
    ensures
        ({
            let fx = v.payouts_fx(id, outcome, n);
            &&& forall|i: u32|
                i < n && (#[trigger] v.winner(id, outcome, i)) is Some ==> exists|j: int|
                    0 <= j < fx.len() && #[trigger] fx[j] == extension(
                        DataKey::Payout(id, v.winner(id, outcome, i)->0),
                    )
            &&& forall|j: int| 0 <= j < fx.len() ==> (#[trigger] fx[j]) is ExtendTtl
        }),
    decreases n,
{
    if n > 0 {
        let m = (n - 1) as nat;
        lemma_payouts_fx(v, id, outcome, m);
        let rest = v.payouts_fx(id, outcome, m);
        let fx = v.payouts_fx(id, outcome, n);
        assert forall|i: u32|
            i < n && (#[trigger] v.winner(id, outcome, i)) is Some implies exists|j: int|
            0 <= j < fx.len() && #[trigger] fx[j] == extension(
                DataKey::Payout(id, v.winner(id, outcome, i)->0),
            ) by {
            let x = extension(DataKey::Payout(id, v.winner(id, outcome, i)->0));
            if i < m {
                let k = choose|k: int| 0 <= k < rest.len() && #[trigger] rest[k] == x;
                assert(fx[k] == rest[k]);
            } else {
                assert(fx[rest.len() as int] == x);
            }
        }
    }
}

/// Resolution moves nothing: winners are paid when they claim. It extends the market,
/// the payouts that it assigned, and the market's share of the fees if that grew.
pub proof fn law_resolution_extends_what_it_wrote(v: MarketsView, market_id: u64, outcome: bool)
    requires
        v.sound(),
        v.markets.contains_key(market_id),
        v.resolve_fits(market_id, outcome),
    ensures
        ({
            let fx = v.resolve_fx(market_id, outcome);
            &&& forall|j: int| 0 <= j < fx.len() ==> (#[trigger] fx[j]) is ExtendTtl
            &&& fx.len() > 0 && fx[fx.len() - 1] == extension(DataKey::Market(market_id))
            &&& v.with_outcome(market_id, outcome).accumulated_fees > v.accumulated_fees
                ==> fx.len() > 1 && fx[fx.len() - 2] == extension(DataKey::MarketFees(market_id))
            &&& forall|a: Address| #[trigger]
                v.bets.contains_key((market_id, a)) && v.bets[(market_id, a)].is_yes == outcome
                    ==> exists|j: int|
                    0 <= j < fx.len() && #[trigger] fx[j] == extension(DataKey::Payout(market_id, a))
        }),
{
    let n = v.bettors(market_id) as nat;
    let fx = v.resolve_fx(market_id, outcome);
    assert(v.booked(market_id));
    lemma_payouts_fx(v, market_id, outcome, n);
    let head = if v.markets[market_id].side(outcome) == 0 {
        Seq::empty()
    } else {
        v.payouts_fx(market_id, outcome, n)
    };
    assert forall|j: int| 0 <= j < head.len() implies fx[j] == #[trigger] head[j] by {}
    assert forall|j: int| 0 <= j < fx.len() implies (#[trigger] fx[j]) is ExtendTtl by {
        if j < head.len() {
            assert(head[j] is ExtendTtl);
        }
    }
    assert forall|a: Address| #[trigger]
        v.bets.contains_key((market_id, a)) && v.bets[(market_id, a)].is_yes
            == outcome implies exists|j: int|
        0 <= j < fx.len() && #[trigger] fx[j] == extension(DataKey::Payout(market_id, a)) by {
        law_a_winner_gets_the_share(v, market_id, outcome, a);
        assert(v.is_listed(market_id, a));
        let i = choose|i: u32| i < n && #[trigger] v.bettor_at[(market_id, i)] == a;
        assert(v.bettor_at.contains_key((market_id, i)));
        assert(v.winner(market_id, outcome, i) == Some(a));
        let k = choose|k: int|
            0 <= k < head.len() && #[trigger] head[k] == extension(DataKey::Payout(market_id, a));
        assert(fx[k] == head[k]);
    }
}

/// A claim pays exactly once what resolution assigned, if the user's bet is on the side
/// that won, whichever it is; to anyone else it pays nothing. Points and tokens follow
/// whether the user has won against a side with stakes.
pub proof fn law_a_claim_pays_what_was_assigned(
    v: MarketsView,
    user: Address,
    market_id: u64,
    this: Address,
    cfg: Config,
)
    requires
        v.cfg == Some(cfg),
        v.claim_guard(user, market_id) is Ok,
    ensures
        ({
            let fx = v.claim_fx(user, market_id, this);
            let m = v.markets[market_id];
            let right = v.bets[(market_id, user)].is_yes == m.outcome;
            let staked = if m.outcome {
                m.total_yes
            } else {
                m.total_no
            };
            let won = right && staked > 0;
            let assigned = if v.payouts.contains_key((market_id, user)) {
                v.payouts[(market_id, user)]
            } else {
                0
            };
            let pay = Effect::Transfer {
                asset: cfg.xlm_sac,
                from: this,
                to: user,
                amount: assigned,
            };
            let points = Effect::AddPts {
                leaderboard: cfg.leaderboard,
                from: this,
                user,
                points: if won {
                    30
                } else {
                    10
                },
                won,
            };
            let reward = Effect::Mint {
                token: cfg.token,
                minter: this,
                to: user,
                amount: if won {
                    100_000_000
                } else {
                    20_000_000
                },
            };
            &&& fx.len() > 0 && fx[0] == Effect::RequireAuth(user)
            &&& fx[1] == extension(DataKey::Bet(market_id, user))
            &&& fx[2] == extension(DataKey::Market(market_id))
            &&& right && assigned > 0 ==> fx.len() == 6 && fx[3] == pay
            &&& !(right && assigned > 0) ==> fx.len() == 5
            &&& fx[fx.len() - 2] == points
            &&& fx[fx.len() - 1] == reward
            &&& forall|i: int|
                0 <= i < fx.len() ==> ((#[trigger] fx[i]) is Transfer <==> right && assigned > 0
                    && i == 3)
        }),
{
}

/// A claim marks the bet as claimed and changes nothing else.
pub proof fn law_a_claim_marks_the_bet(v: MarketsView, user: Address, market_id: u64)
    requires
        v.claim_guard(user, market_id) is Ok,
    ensures
        ({
            let w = v.with_claim(user, market_id);
            let e = v.bets[(market_id, user)];
            &&& w.bets.get((market_id, user)) == Some(BetEntry { claimed: true, ..e })
            &&& forall|k: (u64, Address)|
                k != (market_id, user) ==> w.bets.get(k) == #[trigger] v.bets.get(k)
            &&& w == (MarketsView { bets: w.bets, ..v })
        }),
{
}

/// A cancellation marks the market as cancelled and changes nothing else.
pub proof fn law_a_cancellation_marks_the_market(v: MarketsView, caller: Address, market_id: u64)
    requires
        v.cancel_guard(caller, market_id) is Ok,
    ensures
        ({
            let w = v.with_cancelled(market_id);
            let m = v.markets[market_id];
            &&& w.markets.get(market_id) == Some(Market { cancelled: true, ..m })
            &&& forall|id: u64| id != market_id ==> w.markets.get(id) == #[trigger] v.markets.get(id)
            &&& w == (MarketsView { markets: w.markets, ..v })
        }),
{
}

/// After a refund nothing is held for the user's bets any more; their stake stays on
/// record, and the fees are lower by what was held beyond the stake.
pub proof fn law_a_refund_empties_the_bet(v: MarketsView, user: Address, market_id: u64)
    requires
        v.refund_guard(user, market_id) is Ok,
    ensures
        ({
            let w = v.with_refund(user, market_id);
            let e = v.bets[(market_id, user)];
            let left = v.accumulated_fees - (e.refundable - e.net);
            &&& w.bets.get((market_id, user)) == Some(BetEntry { gross: 0, refundable: 0, ..e })
            &&& forall|k: (u64, Address)|
                k != (market_id, user) ==> w.bets.get(k) == #[trigger] v.bets.get(k)
            &&& i128::MIN <= left <= i128::MAX ==> w.accumulated_fees == left
            &&& left < i128::MIN ==> w.accumulated_fees == i128::MIN
            &&& left > i128::MAX ==> w.accumulated_fees == i128::MAX
            &&& w == (MarketsView { bets: w.bets, accumulated_fees: w.accumulated_fees, ..v })
        }),
{
}

/// A request is written down as made, for the caller alone. Once paid it is gone, and
/// the fees are lower by its amount.
pub proof fn law_requests_are_written_down_and_paid(
    v: MarketsView,
    caller: Address,
    recipient: Address,
    amount: i128,
    now: u64,
)
    ensures
        ({
            let w = v.with_request(caller, recipient, amount, now);
            let q = w.pending_withdrawals[caller];
            &&& w.pending_withdrawals.contains_key(caller)
            &&& q.recipient == recipient && q.amount == amount && q.requested_at == now
            &&& forall|a: Address|
                a != caller ==> w.pending_withdrawals.get(a)
                    == #[trigger] v.pending_withdrawals.get(a)
            &&& w == (MarketsView { pending_withdrawals: w.pending_withdrawals, ..v })
        }),
        v.execute_guard(caller, now) is Ok && v.accumulated_fees
            - v.pending_withdrawals[caller].amount <= i128::MAX ==> {
            let w = v.with_withdrawal(caller);
            &&& w.accumulated_fees == v.accumulated_fees - v.pending_withdrawals[caller].amount
            &&& !w.pending_withdrawals.contains_key(caller)
            &&& forall|a: Address|
                a != caller ==> w.pending_withdrawals.get(a)
                    == #[trigger] v.pending_withdrawals.get(a)
            &&& w == (MarketsView {
                pending_withdrawals: w.pending_withdrawals,
                accumulated_fees: w.accumulated_fees,
                ..v
            })
        },
{
}

/// A page lists, from `start` on and in the order of their first bets, as many bettors
/// as asked for, as a page holds, and as there are.
pub proof fn law_a_page_lists_the_bettors(v: MarketsView, market_id: u64, start: u32, limit: u32)
    requires
        forall|i: u32|
            i < v.bettors(market_id) ==> #[trigger] v.bettor_at.contains_key((market_id, i)),
    ensures
        ({
            let p = v.bettors_page(market_id, start, limit);
            let rest = v.bettors(market_id) - start;
            &&& rest <= 0 ==> p.len() == 0
            &&& rest > 0 ==> p.len() <= limit && p.len() <= 100 && p.len() <= rest
            &&& rest > 0 ==> p.len() == limit || p.len() == 100 || p.len() == rest
            &&& forall|k: int|
                0 <= k < p.len() ==> #[trigger] p[k] == v.bettor_at[(market_id, (start + k) as u32)]
        }),
{
    let n = v.bettors(market_id) as int;
    let size: int = if limit < 100 {
        limit as int
    } else {
        100
    };
    let end = if start + size < n {
        start + size
    } else {
        n
    };
    lemma_between(v, market_id, start as nat, end as nat);
}

proof fn lemma_between(v: MarketsView, id: u64, a: nat, b: nat)
    requires
        b <= v.bettors(id),
        forall|i: u32| i < v.bettors(id) ==> #[trigger] v.bettor_at.contains_key((id, i)),
    ensures
        ({
            let p = v.bettors_between(id, a, b);
            &&& p.len() == if a <= b {
                b - a
            } else {
                0
            }
            &&& forall|k: int| 0 <= k < p.len() ==> #[trigger] p[k] == v.bettor_at[(id, (a + k) as u32)]
        }),
    decreases b,
{
    if a < b {
        lemma_between(v, id, a, (b - 1) as nat);
        assert(v.bettor_at.contains_key((id, (b - 1) as u32)));
    }
}

/// The contents are all that is stored, and a contract that was just deployed stores
/// nothing.
pub proof fn law_the_contents_are_what_is_stored(c: PredictionMarketContract)
    ensures
        c@.admin == c.admin && c@.cfg == c.cfg && c@.rate_window == c.rate_window,
        c@.market_count == c.market_count && c@.accumulated_fees == c.accumulated_fees,
        c@.markets == c.markets@ && c@.bets == c.bets@ && c@.payouts == c.payouts@,
        c@.bettor_count == c.bettor_count@ && c@.bettor_at == c.bettor_at@,
        c@.resolvers == c.resolvers@ && c@.fee_recipients == c.fee_recipients@,
        c@.has_referrer == c.has_referrer@ && c@.market_fees == c.market_fees@,
        c@.pending_withdrawals == c.pending_withdrawals@,
        ({
            let e = MarketsView::empty();
            &&& e.admin is None && e.cfg is None && e.rate_window is None
            &&& e.market_count == 0 && e.accumulated_fees == 0
            &&& e.markets.dom().is_empty() && e.bets.dom().is_empty() && e.payouts.dom().is_empty()
            &&& e.bettor_count.dom().is_empty() && e.bettor_at.dom().is_empty()
            &&& e.resolvers.dom().is_empty() && e.fee_recipients.dom().is_empty()
            &&& e.has_referrer.dom().is_empty() && e.market_fees.dom().is_empty()
            &&& e.pending_withdrawals.dom().is_empty()
        }),
{
}

} // verus!
