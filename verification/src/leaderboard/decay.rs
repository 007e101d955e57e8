//! Time-weighted scores. A stored score carries the epoch it was written in, and
//! its value in a later epoch is derived from it; nothing is rewritten by a timer.

use crate::leaderboard::types::{LeaderboardContract, PlayerEntry, TTL_HIGH};
use vstd::prelude::*;

verus! {

/// Ledgers in one decay period: about a week.
pub const DECAY_PERIOD_LEDGERS: u32 = 120_960;

/// Each period a score keeps `DECAY_RETAIN_NUM / DECAY_RETAIN_DEN` of its value.
pub const DECAY_RETAIN_NUM: u64 = 9;

pub const DECAY_RETAIN_DEN: u64 = 10;

/// After this many periods nothing is left of a score: it does not outlive the
/// storage entry that holds it.
pub const DECAY_ZERO_AFTER_PERIODS: u32 = TTL_HIGH / DECAY_PERIOD_LEDGERS;

/// What one period leaves of a score, rounded down.
pub open spec fn keep(points: int) -> int {
    points * DECAY_RETAIN_NUM / DECAY_RETAIN_DEN as int
}

/// What `periods` periods leave of a score when each is rounded down.
pub open spec fn fade(points: int, periods: nat) -> int
    decreases periods,
{
    if periods == 0 {
        points
    } else {
        keep(fade(points, (periods - 1) as nat))
    }
}

/// A score after `periods` periods.
pub open spec fn decayed(points: int, periods: nat) -> int {
    if periods >= DECAY_ZERO_AFTER_PERIODS {
        0
    } else {
        fade(points, periods)
    }
}

/// The decay epoch in which a ledger lies.
pub open spec fn epoch_of(sequence: u32) -> u32 {
    sequence / DECAY_PERIOD_LEDGERS
}

/// The number of periods from epoch `from` to epoch `to`.
pub open spec fn periods_between(from: u32, to: u32) -> nat {
    if to >= from {
        (to - from) as nat
    } else {
        0
    }
}

/// The value at epoch `now` of a score that was written in epoch `epoch`.
pub open spec fn score_at(points: u64, epoch: u32, now: u32) -> int {
    decayed(points as int, periods_between(epoch, now))
}

/// The value of a top list entry at epoch `now`.
pub open spec fn score(e: PlayerEntry, now: u32) -> int {
    score_at(e.points, e.epoch, now)
}

/// Decay never raises a score, and never takes it below zero.
pub proof fn lemma_fade_range(points: int, periods: nat)
    requires
        0 <= points,
    ensures
        0 <= fade(points, periods) <= points,
    decreases periods,
{
    if periods > 0 {
        lemma_fade_range(points, (periods - 1) as nat);
    }
}

/// The value of a stored score lies between zero and the stored points.
pub proof fn lemma_score_range(points: u64, epoch: u32, now: u32)
    ensures
        0 <= score_at(points, epoch, now) <= points,
{
    lemma_fade_range(points as int, periods_between(epoch, now));
}

proof fn lemma_fade_zero(periods: nat)
    ensures
        fade(0, periods) == 0,
    decreases periods,
{
    if periods > 0 {
        lemma_fade_zero((periods - 1) as nat);
    }
}

/// Fading in two stretches is fading in one.
proof fn lemma_fade_adds(points: int, a: nat, b: nat)
    ensures
        fade(fade(points, a), b) == fade(points, a + b),
    decreases b,
{
    if b > 0 {
        lemma_fade_adds(points, a, (b - 1) as nat);
        assert((a + b - 1) as nat == a + (b - 1) as nat);
    }
}

impl LeaderboardContract {
    /// Applies `periods` periods of decay to a score, rounding down at each step.
    pub fn decay(points: u64, periods: u32) -> (r: u64)
        ensures
            r == decayed(points as int, periods as nat),
    {
        proof {
            lemma_fade_zero(periods as nat);
        }
        if points == 0 || periods == 0 {
            return points;
        }
        if periods >= DECAY_ZERO_AFTER_PERIODS {
            return 0;
        }
        let mut value: u128 = points as u128;
        let mut i: u32 = 0;
        while i < periods
            invariant
                i <= periods,
                periods < DECAY_ZERO_AFTER_PERIODS,
                value == fade(points as int, i as nat),
                value <= points,
            decreases periods - i,
        {
            value = value * (DECAY_RETAIN_NUM as u128) / (DECAY_RETAIN_DEN as u128);
            i = i + 1;
            if value == 0 {
                proof {
                    lemma_fade_adds(points as int, i as nat, (periods - i) as nat);
                    lemma_fade_zero((periods - i) as nat);
                }
                return 0;
            }
        }
        value as u64
    }
}

/// The decay epoch in which a ledger lies.
pub fn current_epoch(sequence: u32) -> (e: u32)
    ensures
        e == epoch_of(sequence),
{
    sequence / DECAY_PERIOD_LEDGERS
}

/// The value at epoch `now` of a score that was written in epoch `epoch`.
pub fn points_at(points: u64, epoch: u32, now: u32) -> (r: u64)
    ensures
        r == score_at(points, epoch, now),
{
    LeaderboardContract::decay(points, now.saturating_sub(epoch))
}

/// The value of a top list entry at epoch `now`.
pub fn entry_points_now(e: &PlayerEntry, now: u32) -> (r: u64)
    ensures
        r == score(*e, now),
{
    points_at(e.points, e.epoch, now)
}

/// Decaying over one stretch of periods and then over another is decaying over
/// both at once, so a player's record and the top list entry agree however
/// often each was brought forward. The one exception: neither stretch alone
/// writes the score off, both together do, and rounding has not brought it to
/// zero by itself.
pub proof fn law_decay_composes(points: int, a: nat, b: nat)
    requires
        0 <= points,
        !(a < DECAY_ZERO_AFTER_PERIODS && b < DECAY_ZERO_AFTER_PERIODS && a + b
            >= DECAY_ZERO_AFTER_PERIODS && fade(points, a + b) != 0),
    ensures
        decayed(decayed(points, a), b) == decayed(points, a + b),
{
    lemma_fade_adds(points, a, b);
    lemma_fade_zero(b);
}

/// One period leaves nine tenths of a score, rounded down.
pub proof fn law_one_period(points: int)
    ensures
        decayed(points, 1) == points * 9 / 10,
{
    reveal_with_fuel(fade, 2);
}

/// A score loses a tenth, rounded in favour of the loss, in every period, and all that
/// is left of it after a year of weeks.
pub proof fn law_decay_by_periods(points: int, periods: nat)
    ensures
        decayed(points, 0) == points,
        periods + 1 < 52 ==> decayed(points, periods + 1) == decayed(points, periods) * 9 / 10,
        periods >= 52 ==> decayed(points, periods) == 0,
{
}

/// An epoch is a period of 120960 ledgers. A score is worth what was written while its
/// epoch lasts, and loses by the number of epochs that have passed since.
pub proof fn law_scores_age_by_epochs(
    points: u64,
    epoch: u32,
    now: u32,
    sequence: u32,
    e: PlayerEntry,
)
    ensures
        epoch_of(sequence) * 120_960 <= sequence < (epoch_of(sequence) + 1) * 120_960,
        now <= epoch ==> score_at(points, epoch, now) == points,
        now > epoch ==> score_at(points, epoch, now) == decayed(
            points as int,
            (now - epoch) as nat,
        ),
        score(e, now) == score_at(e.points, e.epoch, now),
{
}

/// A score does not grow with time.
pub proof fn law_decay_only_falls(points: int, a: nat, b: nat)
    requires
        0 <= points,
        a <= b,
    ensures
        0 <= decayed(points, b) <= decayed(points, a) <= points,
{
    lemma_fade_range(points, a);
    lemma_fade_range(fade(points, a), (b - a) as nat);
    lemma_fade_adds(points, a, (b - a) as nat);
}

/// Decay keeps the order of two scores of the same age.
pub proof fn law_decay_keeps_order(p: int, q: int, periods: nat)
    requires
        0 <= p <= q,
    ensures
        decayed(p, periods) <= decayed(q, periods),
{
    lemma_fade_monotone(p, q, periods);
}

proof fn lemma_fade_monotone(p: int, q: int, periods: nat)
    requires
        0 <= p <= q,
    ensures
        fade(p, periods) <= fade(q, periods),
    decreases periods,
{
    if periods > 0 {
        lemma_fade_monotone(p, q, (periods - 1) as nat);
        lemma_fade_range(p, (periods - 1) as nat);
    }
}

/// The score of a player who starts with `points` and, period after period, is
/// brought forward and credited with the next of `earned`.
pub open spec fn grind(points: int, earned: Seq<int>) -> int
    decreases earned.len(),
{
    if earned.len() == 0 {
        points
    } else {
        keep(grind(points, earned.drop_last())) + earned.last()
    }
}

/// The sum of a list of integers.
pub open spec fn sum(s: Seq<int>) -> int
    decreases s.len(),
{
    if s.len() == 0 {
        0
    } else {
        sum(s.drop_last()) + s.last()
    }
}

/// Writing in every period does not stop the clock: a player who does so is
/// ahead of an idle player with the same start by at most what was earned.
pub proof fn law_writes_do_not_reset_the_clock(points: int, earned: Seq<int>)
    requires
        0 <= points,
        forall|i: int| 0 <= i < earned.len() ==> 0 <= #[trigger] earned[i],
    ensures
        fade(points, earned.len()) <= grind(points, earned) <= fade(points, earned.len()) + sum(
            earned,
        ),
    decreases earned.len(),
{
    if earned.len() > 0 {
        let rest = earned.drop_last();
        assert(forall|i: int| 0 <= i < rest.len() ==> #[trigger] rest[i] == earned[i]);
        law_writes_do_not_reset_the_clock(points, rest);
        lemma_fade_range(points, rest.len());
        assert(earned.last() == earned[earned.len() - 1]);
        let g = grind(points, rest);
        let f = fade(points, rest.len());
        assert(fade(points, earned.len()) == keep(f));
    }
}

} // verus!
