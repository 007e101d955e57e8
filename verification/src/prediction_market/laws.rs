//! What holds across calls of the market contract.

use crate::env::Address;
use crate::prediction_market::betting::lemma_parts;
use crate::prediction_market::model::{held_of, net_of, platform_fee_of, rate, referral_fee_of};
use crate::prediction_market::types::{
    Category, Config, Limits, MarketError, MarketsView, BPS_DENOM, MAX_BETS_PER_USER,
    MAX_BETTORS_PER_PAGE, MAX_MARKETS_PER_HOUR, MAX_WITHDRAWAL_BPS, MIN_BET, NET_NUMERATOR,
    PLATFORM_FEE_BPS, RATE_WINDOW_SECS, TOTAL_FEE_BPS, TTL_BUMP, TTL_HIGH, WITHDRAW_DELAY_SECS,
};
use crate::sums::{lemma_total_insert, total};
use vstd::prelude::*;

verus! {

/// The stake and the two fees make up the bet: they never exceed it, and rounding
/// loses at most one.
pub proof fn law_a_bet_is_split_without_loss(amount: i128)
    requires
        amount >= 0,
    ensures
        net_of(amount) >= 0,
        platform_fee_of(amount) >= 0,
        referral_fee_of(amount) >= 0,
        amount - 1 <= net_of(amount) + platform_fee_of(amount) + referral_fee_of(amount) <= amount,
{
    lemma_parts(amount);
}

/// What is held for a bet, and what a referrer got of it, make up the bet but for at
/// most one that rounding loses. So the contract never owes more for a bet than it
/// kept, provided that the referral contract gives the referral fee back whenever it
/// answers that it has paid no referrer: the fee is sent to it before it answers, and
/// is then counted as held.
pub proof fn law_what_is_held_for_a_bet_is_covered(amount: i128, paid_referrer: bool)
    requires
        amount >= 0,
    ensures
        ({
            let sent_on = if paid_referrer {
                referral_fee_of(amount)
            } else {
                0
            };
            let held = net_of(amount) + held_of(amount, paid_referrer);
            amount - sent_on - 1 <= held <= amount - sent_on
        }),
{
    lemma_parts(amount);
}

/// A user stays on one side of a market, and bets on it no more often than allowed.
pub proof fn law_a_bettor_keeps_the_side(
    v: MarketsView,
    user: Address,
    market_id: u64,
    is_yes: bool,
    amount: i128,
    credited: bool,
    now: u64,
)
    requires
        v.bet_guard(user, market_id, is_yes, amount, now) is Ok,
    ensures
        ({
            let e = v.with_bet(user, market_id, is_yes, amount, credited).bets[(market_id, user)];
            &&& e.is_yes == is_yes
            &&& e.count <= MAX_BETS_PER_USER
            &&& v.bets.contains_key((market_id, user)) ==> {
                &&& v.bets[(market_id, user)].is_yes == is_yes
                &&& e.count == v.bets[(market_id, user)].count + 1
            }
        }),
        forall|other: bool, x: i128, t: u64|
            other != is_yes ==> (#[trigger] v.with_bet(
                user,
                market_id,
                is_yes,
                amount,
                credited,
            ).bet_guard(user, market_id, other, x, t)) is Err,
{
}

/// A bet changes nothing about other users' bets, nor about other markets.
pub proof fn law_a_bet_is_local(
    v: MarketsView,
    user: Address,
    market_id: u64,
    is_yes: bool,
    amount: i128,
    credited: bool,
)
    ensures
        ({
            let w = v.with_bet(user, market_id, is_yes, amount, credited);
            &&& forall|id: u64, a: Address|
                (id, a) != (market_id, user) ==> w.bets.get((id, a)) == #[trigger] v.bets.get(
                    (id, a),
                )
            &&& forall|id: u64|
                id != market_id ==> w.markets.get(id) == #[trigger] v.markets.get(id)
            &&& forall|id: u64| id != market_id ==> w.fees_of(id) == #[trigger] v.fees_of(id)
            &&& w.payouts == v.payouts
        }),
{
}

/// A market ends once. After its resolution it takes no bets, and can be neither
/// resolved again nor cancelled.
pub proof fn law_a_resolved_market_stays_resolved(
    v: MarketsView,
    caller: Address,
    market_id: u64,
    outcome: bool,
    now: u64,
)
    requires
        v.resolve_guard(caller, market_id, now) is Ok,
    ensures
        ({
            let w = v.with_outcome(market_id, outcome);
            &&& w.markets[market_id].resolved
            &&& w.markets[market_id].outcome == outcome
            &&& forall|a: Address, t: u64|
                (#[trigger] w.resolve_guard(a, market_id, t)) is Err
            &&& forall|a: Address| (#[trigger] w.cancel_guard(a, market_id)) is Err
            &&& forall|u: Address, yes: bool, x: i128, t: u64|
                (#[trigger] w.bet_guard(u, market_id, yes, x, t)) is Err
            &&& forall|u: Address| (#[trigger] w.refund_guard(u, market_id)) is Err
        }),
{
}

/// After its cancellation a market takes no bets and no claims, and can be neither
/// resolved nor cancelled again.
pub proof fn law_a_cancelled_market_stays_cancelled(
    v: MarketsView,
    caller: Address,
    market_id: u64,
)
    requires
        v.cancel_guard(caller, market_id) is Ok,
    ensures
        ({
            let w = v.with_cancelled(market_id);
            &&& w.markets[market_id].cancelled
            &&& forall|a: Address, t: u64|
                (#[trigger] w.resolve_guard(a, market_id, t)) is Err
            &&& forall|a: Address| (#[trigger] w.cancel_guard(a, market_id)) is Err
            &&& forall|u: Address, yes: bool, x: i128, t: u64|
                (#[trigger] w.bet_guard(u, market_id, yes, x, t)) is Err
            &&& forall|u: Address| (#[trigger] w.claim_guard(u, market_id)) is Err
        }),
{
}

/// Nobody claims twice, and a claim leaves everyone else's claim as it was.
pub proof fn law_a_claim_is_paid_once(v: MarketsView, user: Address, market_id: u64)
    requires
        v.claim_guard(user, market_id) is Ok,
    ensures
        v.with_claim(user, market_id).claim_guard(user, market_id) == Err::<(), _>(
            MarketError::AlreadyClaimed,
        ),
        forall|u: Address|
            u != user ==> (#[trigger] v.with_claim(user, market_id).claim_guard(u, market_id))
                == v.claim_guard(u, market_id),
{
}

/// Nobody is refunded twice, and a refund leaves everyone else's refund as it was.
pub proof fn law_a_refund_is_paid_once(v: MarketsView, user: Address, market_id: u64)
    requires
        v.refund_guard(user, market_id) is Ok,
    ensures
        v.with_refund(user, market_id).refund_guard(user, market_id) == Err::<(), _>(
            MarketError::NoBetFound,
        ),
        forall|u: Address|
            u != user ==> {
                &&& (#[trigger] v.with_refund(user, market_id).refund_guard(u, market_id))
                    == v.refund_guard(u, market_id)
                &&& v.with_refund(user, market_id).bets.get((market_id, u)) == v.bets.get(
                    (market_id, u),
                )
            },
{
}

/// On one market a user gets a payout or a refund, never both.
pub proof fn law_claims_and_refunds_exclude_each_other(
    v: MarketsView,
    claimant: Address,
    other: Address,
    market_id: u64,
)
    ensures
        !(v.claim_guard(claimant, market_id) is Ok && v.refund_guard(other, market_id) is Ok),
{
}

/// A refund takes the fees in it out of the accumulated fees, and nothing else.
pub proof fn law_a_refund_returns_its_own_fees(v: MarketsView, user: Address, market_id: u64)
    requires
        v.refund_guard(user, market_id) is Ok,
        ({
            let e = v.bets[(market_id, user)];
            &&& e.net <= e.refundable
            &&& v.accumulated_fees - (e.refundable - e.net) >= i128::MIN
        }),
    ensures
        v.with_refund(user, market_id).accumulated_fees == v.accumulated_fees - (v.bets[(
            market_id,
            user,
        )].refundable - v.bets[(market_id, user)].net),
        v.with_refund(user, market_id).market_fees == v.market_fees,
        v.with_refund(user, market_id).markets == v.markets,
{
}

/// What all markets have added to the fees.
pub open spec fn fees_added(v: MarketsView) -> int {
    total(v.market_fees, |n: i128| n as int)
}

/// The accumulated fees are what the markets have added, no more and no less.
pub open spec fn traced(v: MarketsView) -> bool {
    &&& v.market_fees.dom().finite()
    &&& fees_added(v) == v.accumulated_fees
}

/// Fees are traced from the start.
pub proof fn law_no_fees_at_the_start(admin: Option<Address>, cfg: Option<Config>)
    ensures
        traced(MarketsView { admin, cfg, ..MarketsView::empty() }),
{
}

/// Every fee has a market that it comes from: a bet adds as much to the accumulated
/// fees as to what its market has added.
pub proof fn law_bet_fees_are_traced(
    v: MarketsView,
    user: Address,
    market_id: u64,
    is_yes: bool,
    amount: i128,
    credited: bool,
    now: u64,
)
    requires
        v.market_fees.dom().finite(),
        v.bet_guard(user, market_id, is_yes, amount, now) is Ok,
        v.bet_fits(user, market_id, is_yes, amount, credited),
    ensures
        ({
            let w = v.with_bet(user, market_id, is_yes, amount, credited);
            let held = held_of(amount, v.pays_referrer(user, credited));
            &&& w.market_fees.dom().finite()
            &&& w.accumulated_fees == v.accumulated_fees + held
            &&& w.fees_of(market_id) == v.fees_of(market_id) + held
            &&& fees_added(w) - w.accumulated_fees == fees_added(v) - v.accumulated_fees
            &&& traced(v) ==> traced(w)
        }),
{
    lemma_parts(amount);
    let held = held_of(amount, v.pays_referrer(user, credited));
    lemma_total_insert(
        v.market_fees,
        |n: i128| n as int,
        market_id,
        (v.fees_of(market_id) + held) as i128,
    );
}

/// What resolution adds to the accumulated fees, it adds to what its market has
/// added.
pub proof fn law_swept_fees_are_traced(v: MarketsView, market_id: u64, outcome: bool)
    requires
        v.market_fees.dom().finite(),
        v.resolve_fits(market_id, outcome),
    ensures
        ({
            let w = v.with_outcome(market_id, outcome);
            &&& w.market_fees.dom().finite()
            &&& fees_added(w) - w.accumulated_fees == fees_added(v) - v.accumulated_fees
            &&& traced(v) ==> traced(w)
        }),
{
    let swept = v.swept(market_id, outcome);
    if swept > 0 {
        lemma_total_insert(
            v.market_fees,
            |n: i128| n as int,
            market_id,
            (v.fees_of(market_id) + swept) as i128,
        );
    }
}

/// Creation, cancellation and claims leave the fees as they are.
pub proof fn law_other_fees_stay(
    v: MarketsView,
    market_id: u64,
    user: Address,
    question: Vec<u8>,
    image_url: Vec<u8>,
    category: Category,
    duration_secs: u64,
    now: u64,
)
    ensures
        ({
            let created = v.with_market(
                user,
                question,
                image_url,
                category,
                duration_secs,
                now,
            );
            &&& created.accumulated_fees == v.accumulated_fees
            &&& created.market_fees == v.market_fees
            &&& v.with_cancelled(market_id).accumulated_fees == v.accumulated_fees
            &&& v.with_cancelled(market_id).market_fees == v.market_fees
            &&& v.with_claim(user, market_id).accumulated_fees == v.accumulated_fees
            &&& v.with_claim(user, market_id).market_fees == v.market_fees
        }),
{
}

/// A refund widens the gap between what the markets have added to the fees and what is
/// left of them by the fees in it.
pub proof fn law_a_refund_is_all_that_it_takes_from_the_fees(
    v: MarketsView,
    user: Address,
    market_id: u64,
)
    requires
        v.refund_guard(user, market_id) is Ok,
        ({
            let e = v.bets[(market_id, user)];
            i128::MIN <= v.accumulated_fees - (e.refundable - e.net) <= i128::MAX
        }),
    ensures
        ({
            let e = v.bets[(market_id, user)];
            let w = v.with_refund(user, market_id);
            fees_added(w) - w.accumulated_fees == fees_added(v) - v.accumulated_fees + (e.refundable
                - e.net)
        }),
{
}

/// A withdrawal by the admin widens that gap by what is paid, which is all that was
/// left: afterwards the gap is all that the markets have ever added.
pub proof fn law_a_withdrawal_takes_what_is_left(
    v: MarketsView,
    caller: Address,
    recipient: Address,
)
    requires
        v.withdraw_guard(caller, recipient) is Ok,
    ensures
        ({
            let w = MarketsView { accumulated_fees: 0, ..v };
            &&& fees_added(w) - w.accumulated_fees == fees_added(v) - v.accumulated_fees
                + v.accumulated_fees
            &&& fees_added(w) - w.accumulated_fees == fees_added(v)
        }),
{
}

/// A request that is paid widens that gap by its amount. Making a request, or dropping
/// one, does not.
pub proof fn law_a_paid_request_is_all_that_it_takes_from_the_fees(
    v: MarketsView,
    caller: Address,
    recipient: Address,
    amount: i128,
    now: u64,
)
    ensures
        ({
            let paid = v.with_withdrawal(caller);
            let q = v.pending_withdrawals[caller];
            v.execute_guard(caller, now) is Ok && v.accumulated_fees - q.amount <= i128::MAX
                ==> fees_added(paid) - paid.accumulated_fees == fees_added(v) - v.accumulated_fees
                + q.amount
        }),
        ({
            let made = v.with_request(caller, recipient, amount, now);
            fees_added(made) - made.accumulated_fees == fees_added(v) - v.accumulated_fees
        }),
        ({
            let dropped = MarketsView {
                pending_withdrawals: v.pending_withdrawals.remove(caller),
                ..v
            };
            fees_added(dropped) - dropped.accumulated_fees == fees_added(v) - v.accumulated_fees
        }),
{
}

/// What the referral contract says of a user is remembered, and once it has said that
/// there is no referrer it is not asked again.
pub proof fn law_the_referral_reply_is_remembered(
    v: MarketsView,
    user: Address,
    market_id: u64,
    is_yes: bool,
    amount: i128,
    credited: bool,
)
    ensures
        ({
            let w = v.with_bet(user, market_id, is_yes, amount, credited);
            &&& v.has_referrer.contains_key(user) ==> w.has_referrer == v.has_referrer
            &&& !v.has_referrer.contains_key(user) ==> w.has_referrer.get(user) == Some(credited)
                && w.asks_referral(user) == credited
            &&& !v.asks_referral(user) ==> !w.asks_referral(user) && !v.pays_referrer(
                user,
                credited,
            )
        }),
{
}

/// A market takes bets or can be resolved, never both at one time.
pub proof fn law_betting_ends_before_resolution(
    v: MarketsView,
    user: Address,
    caller: Address,
    market_id: u64,
    is_yes: bool,
    amount: i128,
    now: u64,
)
    ensures
        !(v.bet_guard(user, market_id, is_yes, amount, now) is Ok && v.resolve_guard(
            caller,
            market_id,
            now,
        ) is Ok),
{
}

/// The constants of the protocol fit together.
pub proof fn law_the_constants_fit_together()
    ensures
        Limits::protocol().sound(),
        0 < TOTAL_FEE_BPS < BPS_DENOM,
        0 < PLATFORM_FEE_BPS <= TOTAL_FEE_BPS,
        NET_NUMERATOR + TOTAL_FEE_BPS == BPS_DENOM,
        MIN_BET > 0,
        MAX_BETS_PER_USER > 0,
        MAX_MARKETS_PER_HOUR > 0,
        0 < MAX_WITHDRAWAL_BPS <= BPS_DENOM,
        WITHDRAW_DELAY_SECS > 0,
        0 < TTL_BUMP <= TTL_HIGH,
{
}

/// A request takes at most a fifth of the fees, and goes to the caller, the admin or
/// a fee recipient.
pub proof fn law_a_request_is_capped(
    v: MarketsView,
    caller: Address,
    recipient: Address,
    amount: i128,
)
    requires
        v.request_guard(caller, recipient, amount) is Ok,
    ensures
        0 < amount,
        5 * amount <= v.accumulated_fees,
        recipient == caller || Some(recipient) == v.admin || v.is_fee_recipient(recipient),
        Some(caller) == v.admin || v.is_fee_recipient(caller),
{
    let m: int = MAX_WITHDRAWAL_BPS as int;
    let f: int = v.accumulated_fees as int;
    assert(f * m == 2000 * f) by (nonlinear_arith)
        requires
            m == 2000,
    ;
}

/// A request is paid no sooner than a day after it was made, and paid once.
pub proof fn law_a_request_waits(
    v: MarketsView,
    caller: Address,
    recipient: Address,
    amount: i128,
    made: u64,
    now: u64,
)
    requires
        v.request_guard(caller, recipient, amount) is Ok,
    ensures
        ({
            let w = v.with_request(caller, recipient, amount, made);
            &&& now < made + WITHDRAW_DELAY_SECS ==> w.execute_guard(caller, now) == Err::<(), _>(
                MarketError::WithdrawalTooSoon,
            )
            &&& now >= made + WITHDRAW_DELAY_SECS ==> w.execute_guard(caller, now) is Ok
            &&& w.with_withdrawal(caller).accumulated_fees == v.accumulated_fees - amount
            &&& w.with_withdrawal(caller).accumulated_fees >= 0
            &&& w.with_withdrawal(caller).execute_guard(caller, now) == Err::<(), _>(
                MarketError::NoWithdrawalRequest,
            )
            &&& w.request_guard(caller, recipient, amount) == Err::<(), _>(
                MarketError::WithdrawalRequestExists,
            )
        }),
{
    law_a_request_is_capped(v, caller, recipient, amount);
}

/// A request that was dropped is not paid.
pub proof fn law_a_dropped_request_is_not_paid(
    v: MarketsView,
    admin: Address,
    caller: Address,
    now: u64,
)
    requires
        v.drop_guard(admin, caller) is Ok,
    ensures
        (MarketsView {
            pending_withdrawals: v.pending_withdrawals.remove(caller),
            ..v
        }).execute_guard(caller, now) == Err::<(), _>(MarketError::NoWithdrawalRequest),
{
}

/// The rate window after markets were created at the given times, if all were
/// admitted.
pub open spec fn rate_run(window: Option<(u64, u32)>, times: Seq<u64>) -> Option<(u64, u32)>
    decreases times.len(),
{
    if times.len() == 0 {
        window
    } else {
        match rate_run(window, times.drop_last()) {
            None => None,
            Some(w) => rate(Some(w), times.last()),
        }
    }
}

/// A rate window admits no more markets than allowed before it is over, whatever the
/// clock does: one that goes back does not open a new window.
pub proof fn law_markets_are_rationed(start: u64, count: u32, times: Seq<u64>)
    requires
        count <= MAX_MARKETS_PER_HOUR,
        forall|i: int| 0 <= i < times.len() ==> #[trigger] times[i] < start + RATE_WINDOW_SECS,
    ensures
        rate_run(Some((start, count)), times) is Some <==> count + times.len()
            <= MAX_MARKETS_PER_HOUR,
        rate_run(Some((start, count)), times) is Some ==> rate_run(Some((start, count)), times)
            == Some((start, (count + times.len()) as u32)),
    decreases times.len(),
{
    if times.len() > 0 {
        law_markets_are_rationed(start, count, times.drop_last());
    }
}

/// Once a rate window is over, creation opens a new one.
pub proof fn law_a_new_window_opens(window: (u64, u32), now: u64)
    requires
        now >= window.0 + RATE_WINDOW_SECS,
    ensures
        rate(Some(window), now) == Some((now, 1u32)),
{
}

/// Pages of bettors join up: no bettor is left out or listed twice between them.
pub proof fn law_pages_join_up(v: MarketsView, market_id: u64, a: nat, b: nat, c: nat)
    requires
        a <= b <= c,
    ensures
        v.bettors_between(market_id, a, c) == v.bettors_between(market_id, a, b)
            + v.bettors_between(market_id, b, c),
    decreases c,
{
    if b < c {
        law_pages_join_up(v, market_id, a, b, (c - 1) as nat);
    }
    assert(v.bettors_between(market_id, a, c) =~= v.bettors_between(market_id, a, b)
        + v.bettors_between(market_id, b, c));
}

/// A page holds no more bettors than asked for, nor than a page can hold.
pub proof fn law_pages_are_bounded(v: MarketsView, market_id: u64, start: u32, limit: u32)
    ensures
        v.bettors_page(market_id, start, limit).len() <= limit,
        v.bettors_page(market_id, start, limit).len() <= MAX_BETTORS_PER_PAGE,
{
    let size = if limit < MAX_BETTORS_PER_PAGE {
        limit
    } else {
        MAX_BETTORS_PER_PAGE
    };
    let end = if start + size < v.bettors(market_id) {
        start + size
    } else {
        v.bettors(market_id) as int
    };
    lemma_page_len(v, market_id, start as nat, end as nat);
}

proof fn lemma_page_len(v: MarketsView, market_id: u64, a: nat, b: nat)
    ensures
        v.bettors_between(market_id, a, b).len() <= if a <= b {
            b - a
        } else {
            0
        },
    decreases b,
{
    if a < b {
        lemma_page_len(v, market_id, a, (b - 1) as nat);
    }
}

} // verus!
