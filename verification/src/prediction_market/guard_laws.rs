//! When calls of the market contract are accepted, and why they are refused.

use crate::env::Address;
use crate::prediction_market::model::rate;
use crate::prediction_market::types::{Limits, MarketError, MarketsView};
use vstd::prelude::*;

verus! {

/// The admin, and nobody else, passes as the admin.
pub proof fn law_only_the_admin_passes(v: MarketsView, caller: Address)
    ensures
        v.admin_guard(caller) is Ok <==> v.admin == Some(caller),
        v.admin_guard(caller) == Err::<(), _>(MarketError::NotInitialized) <==> v.admin is None,
        v.admin_guard(caller) == Err::<(), _>(MarketError::NotAdmin) <==> v.admin is Some
            && v.admin != Some(caller),
{
}

/// Whoever was named and not struck off is a resolver, and so with fee recipients.
pub proof fn law_roles_are_given_and_taken(v: MarketsView, a: Address, b: Address)
    ensures
        v.is_resolver(a) <==> v.resolvers.contains_pair(a, true),
        v.is_fee_recipient(a) <==> v.fee_recipients.contains_pair(a, true),
        ({
            let named = MarketsView { resolvers: v.resolvers.insert(a, true), ..v };
            let struck = MarketsView { resolvers: v.resolvers.remove(a), ..v };
            &&& named.is_resolver(a)
            &&& !struck.is_resolver(a)
            &&& a != b ==> named.is_resolver(b) == v.is_resolver(b)
            &&& a != b ==> struck.is_resolver(b) == v.is_resolver(b)
        }),
        ({
            let named = MarketsView { fee_recipients: v.fee_recipients.insert(a, true), ..v };
            let struck = MarketsView { fee_recipients: v.fee_recipients.remove(a), ..v };
            &&& named.is_fee_recipient(a)
            &&& !struck.is_fee_recipient(a)
            &&& a != b ==> named.is_fee_recipient(b) == v.is_fee_recipient(b)
            &&& a != b ==> struck.is_fee_recipient(b) == v.is_fee_recipient(b)
        }),
{
}

/// The admin can create a market unless ten were created in a window of an hour that
/// is not over yet.
pub proof fn law_when_a_market_can_be_created(v: MarketsView, caller: Address, now: u64)
    ensures
        ({
            let full = v.rate_window matches Some(w) && now < w.0 + 3600 && w.1 >= 10;
            &&& v.create_guard(caller, now) is Ok <==> v.admin == Some(caller) && !full
            &&& v.create_guard(caller, now) == Err::<(), _>(MarketError::RateLimitExceeded)
                <==> v.admin == Some(caller) && full
            &&& v.create_guard(caller, now) == Err::<(), _>(MarketError::NotInitialized)
                <==> v.admin is None
            &&& v.create_guard(caller, now) == Err::<(), _>(MarketError::NotAdmin)
                <==> v.admin is Some && v.admin != Some(caller)
        }),
{
}

/// A market that is admitted is counted in the window that was open, or opens a window
/// of its own; the start of a window does not move.
pub proof fn law_a_window_counts_its_markets(window: Option<(u64, u32)>, now: u64)
    ensures
        window is None ==> rate(window, now) == Some((now, 1u32)),
        window matches Some(w) ==> {
            &&& now >= w.0 + 3600 ==> rate(window, now) == Some((now, 1u32))
            &&& now < w.0 + 3600 && w.1 < 10 ==> (rate(window, now) matches Some(r) && r.0 == w.0
                && r.1 == w.1 + 1)
            &&& now < w.0 + 3600 && w.1 >= 10 ==> rate(window, now) is None
        },
{
}

/// A bet is accepted on an open market before its end, if what the fee leaves of it is
/// enough, and if the user has bet on that side only and not too often.
pub proof fn law_when_a_bet_is_accepted(
    v: MarketsView,
    user: Address,
    market_id: u64,
    is_yes: bool,
    amount: i128,
    now: u64,
)
    ensures
        ({
            let g = v.bet_guard(user, market_id, is_yes, amount, now);
            let enough = amount * 9800 / 10_000 >= 10_000_000;
            let found = v.markets.contains_key(market_id);
            let m = v.markets[market_id];
            let open = found && !m.cancelled && !m.resolved && now < m.end_time;
            let before = v.bets.contains_key((market_id, user));
            let e = v.bets[(market_id, user)];
            &&& g is Ok <==> enough && open && (before ==> e.count < 20 && e.is_yes == is_yes)
            &&& g == Err::<(), _>(MarketError::BetTooSmall) <==> !enough
            &&& g == Err::<(), _>(MarketError::MarketNotFound) <==> enough && !found
            &&& g == Err::<(), _>(MarketError::MarketCancelled) <==> enough && found && m.cancelled
            &&& g == Err::<(), _>(MarketError::MarketResolved) <==> enough && found && !m.cancelled
                && m.resolved
            &&& g == Err::<(), _>(MarketError::MarketExpired) <==> enough && found && !m.cancelled
                && !m.resolved && now >= m.end_time
            &&& g == Err::<(), _>(MarketError::TooManyBets) <==> enough && open && before && e.count
                >= 20
            &&& g == Err::<(), _>(MarketError::OppositeSideBet) <==> enough && open && before
                && e.count < 20 && e.is_yes != is_yes
        }),
{
}

/// The admin and resolvers can resolve a market that was neither resolved nor
/// cancelled, at its end and at any time after it.
pub proof fn law_when_a_market_can_be_resolved(
    v: MarketsView,
    caller: Address,
    market_id: u64,
    now: u64,
    later: u64,
)
    ensures
        ({
            let g = v.resolve_guard(caller, market_id, now);
            let allowed = v.admin is Some && (v.admin == Some(caller)
                || v.resolvers.contains_pair(caller, true));
            let found = v.markets.contains_key(market_id);
            let m = v.markets[market_id];
            &&& g is Ok <==> allowed && found && !m.resolved && !m.cancelled && m.end_time <= now
            &&& g is Ok && now <= later ==> v.resolve_guard(caller, market_id, later) is Ok
            &&& g == Err::<(), _>(MarketError::NotInitialized) <==> v.admin is None
            &&& g == Err::<(), _>(MarketError::NotResolver) <==> v.admin is Some && !allowed
            &&& g == Err::<(), _>(MarketError::MarketNotFound) <==> allowed && !found
            &&& g == Err::<(), _>(MarketError::MarketResolved) <==> allowed && found && m.resolved
            &&& g == Err::<(), _>(MarketError::MarketCancelled) <==> allowed && found && !m.resolved
                && m.cancelled
            &&& g == Err::<(), _>(MarketError::MarketNotExpired) <==> allowed && found
                && !m.resolved && !m.cancelled && now < m.end_time
        }),
{
}

/// The admin can cancel any market that was neither resolved nor cancelled.
pub proof fn law_when_a_market_can_be_cancelled(v: MarketsView, caller: Address, market_id: u64)
    ensures
        ({
            let g = v.cancel_guard(caller, market_id);
            let allowed = v.admin == Some(caller);
            let found = v.markets.contains_key(market_id);
            let m = v.markets[market_id];
            &&& g is Ok <==> allowed && found && !m.resolved && !m.cancelled
            &&& g == Err::<(), _>(MarketError::NotInitialized) <==> v.admin is None
            &&& g == Err::<(), _>(MarketError::NotAdmin) <==> v.admin is Some && !allowed
            &&& g == Err::<(), _>(MarketError::MarketNotFound) <==> allowed && !found
            &&& g == Err::<(), _>(MarketError::MarketResolved) <==> allowed && found && m.resolved
            &&& g == Err::<(), _>(MarketError::MarketCancelled) <==> allowed && found && !m.resolved
                && m.cancelled
        }),
{
}

/// Whoever has bet on a market that was cancelled, and for whom something is still
/// held, gets a refund, whenever they ask and on whichever side they bet.
pub proof fn law_when_a_refund_is_owed(v: MarketsView, user: Address, market_id: u64)
    ensures
        ({
            let g = v.refund_guard(user, market_id);
            let found = v.markets.contains_key(market_id);
            let cancelled = found && v.markets[market_id].cancelled;
            let held = v.bets.contains_key((market_id, user)) && v.bets[(market_id, user)].refundable
                != 0;
            &&& g is Ok <==> cancelled && held
            &&& g == Err::<(), _>(MarketError::MarketNotFound) <==> !found
            &&& g == Err::<(), _>(MarketError::MarketNotCancelled) <==> found && !cancelled
            &&& g == Err::<(), _>(MarketError::NoBetFound) <==> cancelled && !held
        }),
{
}

/// Whoever has bet on a market that was resolved can claim on it once, on whichever
/// side they bet.
pub proof fn law_when_a_claim_is_accepted(v: MarketsView, user: Address, market_id: u64)
    ensures
        ({
            let g = v.claim_guard(user, market_id);
            let found = v.markets.contains_key(market_id);
            let m = v.markets[market_id];
            let settled = found && !m.cancelled && m.resolved;
            let bet = v.bets.contains_key((market_id, user));
            let claimed = v.bets[(market_id, user)].claimed;
            &&& g is Ok <==> settled && bet && !claimed
            &&& g == Err::<(), _>(MarketError::MarketNotFound) <==> !found
            &&& g == Err::<(), _>(MarketError::MarketCancelled) <==> found && m.cancelled
            &&& g == Err::<(), _>(MarketError::MarketNotResolved) <==> found && !m.cancelled
                && !m.resolved
            &&& g == Err::<(), _>(MarketError::NoBetFound) <==> settled && !bet
            &&& g == Err::<(), _>(MarketError::AlreadyClaimed) <==> settled && bet && claimed
        }),
{
}

/// The admin can take whatever fees there are, for themselves or a fee recipient.
pub proof fn law_when_fees_can_be_withdrawn(v: MarketsView, caller: Address, recipient: Address)
    ensures
        ({
            let g = v.withdraw_guard(caller, recipient);
            let allowed = v.admin == Some(caller);
            let fit = recipient == caller || v.fee_recipients.contains_pair(recipient, true);
            &&& g is Ok <==> allowed && fit && v.accumulated_fees != 0
            &&& g == Err::<(), _>(MarketError::NotInitialized) <==> v.admin is None
            &&& g == Err::<(), _>(MarketError::NotAdmin) <==> v.admin is Some && !allowed
            &&& g == Err::<(), _>(MarketError::InvalidFeeRecipient) <==> allowed && !fit
            &&& g == Err::<(), _>(MarketError::NoFeesToWithdraw) <==> allowed && fit
                && v.accumulated_fees == 0
        }),
{
}

/// The admin and fee recipients can ask for up to a fifth of the fees, for themselves,
/// the admin or a fee recipient, if they have no other request.
pub proof fn law_when_fees_can_be_requested(
    v: MarketsView,
    caller: Address,
    recipient: Address,
    amount: i128,
)
    ensures
        ({
            let g = v.request_guard(caller, recipient, amount);
            let allowed = v.admin is Some && (v.admin == Some(caller)
                || v.fee_recipients.contains_pair(caller, true));
            let fit = recipient == caller || v.admin == Some(recipient)
                || v.fee_recipients.contains_pair(recipient, true);
            let waiting = v.pending_withdrawals.contains_key(caller);
            let sane = allowed && fit && amount > 0 && !waiting;
            let covered = amount <= v.accumulated_fees && 5 * amount <= v.accumulated_fees;
            &&& g is Ok <==> sane && covered
            &&& g == Err::<(), _>(MarketError::NotInitialized) <==> v.admin is None
            &&& g == Err::<(), _>(MarketError::NotAuthorized) <==> v.admin is Some && !allowed
            &&& g == Err::<(), _>(MarketError::InvalidFeeRecipient) <==> allowed && !fit
            &&& g == Err::<(), _>(MarketError::InvalidAmount) <==> allowed && fit && amount <= 0
            &&& g == Err::<(), _>(MarketError::WithdrawalRequestExists) <==> allowed && fit && amount
                > 0 && waiting
            &&& g == Err::<(), _>(MarketError::WithdrawalTooLarge) <==> sane && !covered
        }),
        ({
            let g = v.uncapped_request_guard(caller, recipient, amount);
            &&& g is Ok <==> v.request_guard(caller, recipient, amount) is Ok || (v.request_guard(
                caller,
                recipient,
                amount,
            ) == Err::<(), _>(MarketError::WithdrawalTooLarge) && amount <= v.accumulated_fees)
            &&& g is Err ==> g == v.request_guard(caller, recipient, amount)
        }),
{
    let fees = v.accumulated_fees;
    assert(v.withdrawal_cap() == fees * 2000 / 10_000);
    assert(amount <= fees * 2000 / 10_000 <==> 5 * amount <= fees);
}

/// A request is paid a day after it was made or later, as far as the fees cover it.
pub proof fn law_when_a_request_is_paid(v: MarketsView, caller: Address, now: u64, later: u64)
    ensures
        ({
            let g = v.execute_guard(caller, now);
            let made = v.pending_withdrawals.contains_key(caller);
            let q = v.pending_withdrawals[caller];
            let due = q.requested_at + 86_400 <= now;
            &&& g is Ok <==> made && due && q.amount <= v.accumulated_fees
            &&& g is Ok && now <= later ==> v.execute_guard(caller, later) is Ok
            &&& g == Err::<(), _>(MarketError::NoWithdrawalRequest) <==> !made
            &&& g == Err::<(), _>(MarketError::WithdrawalTooSoon) <==> made && !due
            &&& g == Err::<(), _>(MarketError::WithdrawalTooLarge) <==> made && due && q.amount
                > v.accumulated_fees
        }),
{
}

/// The admin can drop anyone's request.
pub proof fn law_when_a_request_can_be_dropped(v: MarketsView, admin: Address, caller: Address)
    ensures
        ({
            let g = v.drop_guard(admin, caller);
            let allowed = v.admin == Some(admin);
            let made = v.pending_withdrawals.contains_key(caller);
            &&& g is Ok <==> allowed && made
            &&& g == Err::<(), _>(MarketError::NotInitialized) <==> v.admin is None
            &&& g == Err::<(), _>(MarketError::NotAdmin) <==> v.admin is Some && !allowed
            &&& g == Err::<(), _>(MarketError::NoWithdrawalRequest) <==> allowed && !made
        }),
{
}

/// Constants fit together if the fee and what it leaves make a whole, no part exceeds
/// what it is a part of, and nothing that must be positive is not.
pub proof fn law_when_constants_fit_together(c: Limits)
    ensures
        c.sound() <==> {
            &&& c.net_numerator == c.bps_denom - c.total_fee_bps
            &&& c.platform_fee_bps > 0 && c.total_fee_bps >= c.platform_fee_bps
            &&& c.max_withdrawal_bps > 0 && c.bps_denom >= c.max_withdrawal_bps
            &&& c.ttl_bump != 0 && c.ttl_high >= c.ttl_bump
            &&& c.min_bet > 0
            &&& c.max_bets_per_user != 0
            &&& c.max_markets_per_hour != 0
            &&& c.withdraw_delay_secs != 0
            &&& c.min_market_duration_secs != 0
        },
{
}

} // verus!
