//! Where an entry goes in the top list, and what it takes along.

use crate::env::Address;
use crate::leaderboard::board::{lemma_compact_slots, TopListView};
use crate::leaderboard::credit_laws::extension;
use crate::leaderboard::decay::{law_decay_by_periods, score};
use crate::leaderboard::list_laws::{
    law_climb_rearranges, law_lookup_keeps_the_list, law_refreshed_minimum_is_weakest,
    law_repair_closes_gaps, lemma_absent_after_repair, lemma_append, lemma_compact_moves,
    lemma_filled, lemma_found_slot, lemma_rewritten,
};
use crate::leaderboard::types::{DataKey, PlayerEntry, MAX_BUBBLE_STEPS, MAX_TOP_PLAYERS};
use vstd::prelude::*;

verus! {

/// An entry climbs past entries that are worth less, one after the other and at most
/// four, and stops at the top, below an empty slot or below an entry that is worth as
/// much or more.
pub proof fn law_an_entry_climbs_past_weaker_ones(
    v: TopListView,
    e: PlayerEntry,
    slot: u32,
    now: u32,
    steps: nat,
)
    requires
        v.at.contains_key(slot),
        v.at[slot] == e,
    ensures
        MAX_BUBBLE_STEPS == 4,
        MAX_TOP_PLAYERS == 50,
        exists|h: nat| #[trigger] climbed(v, v.climb(e, slot, now, steps), e, slot, now, steps, h),
    decreases steps,
{
    let w = v.climb(e, slot, now, steps);
    let up = (slot - 1) as u32;
    if steps > 0 && slot > 0 && v.at.contains_key(up) && score(v.at[up], now) < score(e, now) {
        let u = v.swap_up(e, slot);
        law_an_entry_climbs_past_weaker_ones(u, e, up, now, (steps - 1) as nat);
        let h = choose|h: nat| #[trigger]
            climbed(u, u.climb(e, up, now, (steps - 1) as nat), e, up, now, (steps - 1) as nat, h);
        assert(w == u.climb(e, up, now, (steps - 1) as nat));
        assert forall|i: u32| slot - (h + 1) < i <= slot implies w.at[i] == #[trigger] v.at[(i
            - 1) as u32] && score(v.at[(i - 1) as u32], now) < score(e, now) by {
            if i < slot {
                assert(w.at[i] == u.at[(i - 1) as u32]);
                assert(u.at[(i - 1) as u32] == v.at[(i - 1) as u32]);
            } else {
                assert(w.at[i] == u.at[i]);
            }
        }
        assert forall|i: u32| i < slot - (h + 1) || slot < i implies w.at[i]
            == #[trigger] v.at[i] by {
            assert(w.at[i] == u.at[i]);
        }
        assert(climbed(v, w, e, slot, now, steps, h + 1));
    } else {
        assert(climbed(v, w, e, slot, now, steps, 0));
    }
}

/// `e` has climbed `h` places from `slot`: it passed weaker entries only, which moved
/// down by one, and had to stop there.
pub open spec fn climbed(
    v: TopListView,
    w: TopListView,
    e: PlayerEntry,
    slot: u32,
    now: u32,
    steps: nat,
    h: nat,
) -> bool {
    let to = (slot - h) as u32;
    &&& h <= steps && h <= slot
    &&& w.at[to] == e
    &&& forall|i: u32|
        slot - h < i <= slot ==> w.at[i] == #[trigger] v.at[(i - 1) as u32] && score(
            v.at[(i - 1) as u32],
            now,
        ) < score(e, now)
    &&& forall|i: u32| i < slot - h || slot < i ==> w.at[i] == #[trigger] v.at[i]
    &&& h < steps && h < slot ==> !v.at.contains_key((to - 1) as u32) || score(
        v.at[(to - 1) as u32],
        now,
    ) >= score(e, now)
}

/// A slot without an entry is one that is not counted.
proof fn lemma_gap(v: TopListView, i: u32, n: nat)
    requires
        i < n <= u32::MAX,
        !v.at.contains_key(i),
    ensures
        v.filled(n) < n,
    decreases n,
{
    lemma_filled(v, (n - 1) as nat, (n - 1) as nat);
    if i < n - 1 {
        lemma_gap(v, i, (n - 1) as nat);
    }
}

/// A newcomer gets into the list as long as it has room, and nobody leaves it for that.
/// Places whose entries have expired count as room once that is noticed, which it is if
/// the newcomer's own entry is one of them, or the one to compete with.
pub proof fn law_a_newcomer_gets_in_while_there_is_room(
    v: TopListView,
    user: Address,
    points: u64,
    now: u32,
)
    requires
        v.valid(),
        forall|i: u32| !v.holds(user, i),
    ensures
        ({
            let w = v.update(user, points, now).0;
            let noticed = v.slot_of.contains_key(user) || (v.count == 50 && !v.at.contains_key(
                v.target(),
            ));
            let taken: int = if noticed {
                v.filled(v.count as nat) as int
            } else {
                v.count as int
            };
            taken < 50 ==> {
                &&& w.count == taken + 1
                &&& noticed ==> w.dense()
                &&& forall|x: PlayerEntry| #[trigger]
                    w.lists(x) <==> v.lists(x) || x == (PlayerEntry {
                        address: user,
                        points,
                        epoch: now,
                    })
            }
        }),
{
    law_lookup_keeps_the_list(v, user);
    let r = v.resolve(user).0;
    assert(forall|i: u32| r.holds(user, i) == v.holds(user, i));
    assert forall|x: PlayerEntry| #[trigger] r.lists(x) <==> v.lists(x) by {
        if r.lists(x) {
            let i = choose|i: u32| #[trigger] r.stands(x, i);
            assert(v.stands(x, i));
        }
        if v.lists(x) {
            let i = choose|i: u32| #[trigger] v.stands(x, i);
            assert(r.stands(x, i));
        }
    }
    law_repair_closes_gaps(r, now);
    lemma_absent_after_repair(r, user, now);
    lemma_same_filled(v, r, v.count as nat);
    let noticed = v.slot_of.contains_key(user) || (v.count == 50 && !v.at.contains_key(v.target()));
    let a = if noticed {
        r.repair(now)
    } else {
        r
    };
    if a.count < 50 {
        lemma_append(a, user, points, now);
        if v.count == 50 && !v.at.contains_key(v.target()) {
            lemma_gap(r, v.target(), v.count as nat);
        }
        assert(v.update(user, points, now).0 == a.append(user, points, a.count, now));
    }
}

proof fn lemma_same_filled(v: TopListView, w: TopListView, n: nat)
    requires
        v.at == w.at,
    ensures
        v.filled(n) == w.filled(n),
    decreases n,
{
    if n > 0 {
        lemma_same_filled(v, w, (n - 1) as nat);
    }
}

impl TopListView {
    /// The slot that the entry of a newcomer is written into: the next one, or that of
    /// the cached minimum if the list is full.
    pub open spec fn entry_slot(self) -> u32 {
        if self.count == 50 {
            self.target()
        } else {
            self.count
        }
    }

    /// The list with the entry of a newcomer written down and numbered, before it moves.
    pub open spec fn entered(self, e: PlayerEntry) -> Self {
        let slot = self.entry_slot();
        if self.count == 50 {
            TopListView { slot_of: self.slot_of.remove(self.at[slot].address), ..self }.place(
                slot,
                e,
            ).stamp(slot)
        } else {
            TopListView { count: (slot + 1) as u32, ..self.place(slot, e).stamp(slot) }
        }
    }
}

/// A newcomer's entry takes its slot in a list that is valid still, and moves up from
/// there.
proof fn lemma_entered(v: TopListView, e: PlayerEntry)
    requires
        v.valid(),
        v.dense(),
        v.indexed(),
        forall|i: u32| !v.holds(e.address, i),
        v.count == 50 ==> v.target() < 50 && e.points >= score(v.at[v.target()], e.epoch),
    ensures
        ({
            let g = v.entered(e);
            let c = g.climb(e, v.entry_slot(), e.epoch, MAX_BUBBLE_STEPS as nat);
            let w = v.update(e.address, e.points, e.epoch).0;
            &&& g.valid()
            &&& g.stands(e, v.entry_slot())
            &&& g.at == v.at.insert(v.entry_slot(), e)
            &&& w.at == c.at
            &&& w.seq_at == c.seq_at
            &&& w.seq_counter == c.seq_counter
            &&& w.count == g.count
        }),
{
    let user = e.address;
    law_lookup_keeps_the_list(v, user);
    if v.slot_of.contains_key(user) {
        assert(v.holds(user, v.slot_of[user]));
    }
    let slot = v.entry_slot();
    if v.count == 50 {
        assert(v.at.contains_key(slot));
    }
    let g = v.entered(e);
    assert forall|i: u32, j: u32|
        i < j < g.count && g.at.contains_key(i) && g.at.contains_key(j) implies (
    #[trigger] g.at[i]).address != (#[trigger] g.at[j]).address by {
        if i != slot {
            assert(!v.holds(user, i));
            assert(v.at.contains_key(i));
        }
        if j != slot {
            assert(!v.holds(user, j));
            assert(v.at.contains_key(j));
        }
    }
    assert(g.stands(e, slot));
    law_climb_rearranges(g, e, slot, e.epoch, MAX_BUBBLE_STEPS as nat);
}

/// Everyone in `v` but the one in `gone`, if any, stands in `w` with the same number.
pub open spec fn numbers_kept(v: TopListView, w: TopListView, gone: Option<u32>) -> bool {
    forall|i: u32|
        i < v.count && Some(i) != gone && #[trigger] v.at.contains_key(i) ==> exists|j: u32|
            #[trigger] w.stands(v.at[i], j) && w.seq(j) == v.seq(i)
}

/// Whoever gets into the list gets the next sequence number, which is higher than all
/// that were given out; those who stay keep theirs.
pub proof fn law_a_newcomer_is_numbered_last(
    v: TopListView,
    user: Address,
    points: u64,
    now: u32,
)
    requires
        v.valid(),
        v.dense(),
        v.indexed(),
        v.seq_counter < u64::MAX,
        forall|i: u32| !v.holds(user, i),
        v.count == 50 ==> v.target() < 50 && points >= score(v.at[v.target()], now),
    ensures
        ({
            let w = v.update(user, points, now).0;
            let gone = if v.count == 50 {
                Some(v.target())
            } else {
                None
            };
            &&& w.seq_counter == v.seq_counter + 1
            &&& exists|j: u32| #[trigger]
                w.stands(PlayerEntry { address: user, points, epoch: now }, j) && w.seq(j)
                    == v.seq_counter + 1
            &&& numbers_kept(v, w, gone)
        }),
{
    let e = PlayerEntry { address: user, points, epoch: now };
    let w = v.update(user, points, now).0;
    let slot = v.entry_slot();
    let g = v.entered(e);
    lemma_entered(v, e);
    let c = g.climb(e, slot, now, MAX_BUBBLE_STEPS as nat);
    law_climb_rearranges(g, e, slot, now, MAX_BUBBLE_STEPS as nat);
    let gone = if v.count == 50 {
        Some(v.target())
    } else {
        None
    };
    lemma_numbers(v, g, c, w, e, slot, gone);
}

/// A ranked player who gets a new score keeps the sequence number, and so does everyone
/// else; no number is given out.
pub proof fn law_a_ranked_player_keeps_the_number(
    v: TopListView,
    user: Address,
    points: u64,
    slot: u32,
    now: u32,
)
    requires
        v.valid(),
        v.holds(user, slot),
    ensures
        ({
            let w = v.update(user, points, now).0;
            &&& w.seq_counter == v.seq_counter
            &&& exists|j: u32| #[trigger]
                w.stands(PlayerEntry { address: user, points, epoch: now }, j) && w.seq(j) == v.seq(
                    slot,
                )
            &&& numbers_kept(v, w, Some(slot))
        }),
{
    let e = PlayerEntry { address: user, points, epoch: now };
    let w = v.update(user, points, now).0;
    let g = v.resolve(user).0.place(slot, e);
    lemma_rewritten(v, e, slot);
    let c = g.climb(e, slot, now, MAX_BUBBLE_STEPS as nat);
    law_climb_rearranges(g, e, slot, now, MAX_BUBBLE_STEPS as nat);
    lemma_numbers(v, g, c, w, e, slot, Some(slot));
}

/// The entry of a ranked player who gets a new score is extended, and so is its lookup.
pub proof fn law_a_ranked_update_extends_the_entry(
    v: TopListView,
    user: Address,
    points: u64,
    slot: u32,
    now: u32,
)
    requires
        v.valid(),
        v.holds(user, slot),
    ensures
        ({
            let fx = v.update(user, points, now).1;
            &&& fx.len() >= 2
            &&& fx[fx.len() - 2] == extension(DataKey::TopPlayerAt(slot))
            &&& fx[fx.len() - 1] == extension(DataKey::TopPlayerSlot(user))
        }),
{
    lemma_found_slot(v, user, slot);
}

/// The entry of a newcomer to a list without gaps is extended, and so are its lookup and
/// its number.
pub proof fn law_an_entry_that_gets_in_is_extended(
    v: TopListView,
    user: Address,
    points: u64,
    now: u32,
)
    requires
        v.valid(),
        v.dense(),
        v.indexed(),
        forall|i: u32| !v.holds(user, i),
        v.count == 50 ==> v.target() < 50,
    ensures
        ({
            let fx = v.update(user, points, now).1;
            let slot = if v.count == 50 {
                v.target()
            } else {
                v.count
            };
            &&& v.count < 50 || points >= score(v.at[slot], now) ==> {
                &&& fx.len() == 3
                &&& fx[0] == extension(DataKey::TopPlayerAt(slot))
                &&& fx[1] == extension(DataKey::TopPlayerSlot(user))
                &&& fx[2] == extension(DataKey::TopPlayerSeqAt(slot))
            }
            &&& v.count == 50 && points < score(v.at[slot], now) ==> fx.len() == 0
        }),
{
    law_lookup_keeps_the_list(v, user);
    if v.slot_of.contains_key(user) {
        assert(v.holds(user, v.slot_of[user]));
    }
    if v.count == 50 {
        assert(v.at.contains_key(v.target()));
    }
}

/// Numbers stay with their players in whatever a climb makes of a list.
proof fn lemma_numbers(
    v: TopListView,
    g: TopListView,
    c: TopListView,
    w: TopListView,
    e: PlayerEntry,
    slot: u32,
    gone: Option<u32>,
)
    requires
        g.carried_to(c),
        w.at == c.at,
        w.seq_at == c.seq_at,
        w.count == c.count,
        g.count >= v.count,
        g.stands(e, slot),
        g.at == v.at.insert(slot, e),
        forall|i: u32| i != slot ==> #[trigger] g.seq(i) == v.seq(i),
        slot < v.count ==> gone == Some(slot),
    ensures
        exists|j: u32| #[trigger] w.stands(e, j) && w.seq(j) == g.seq(slot),
        numbers_kept(v, w, gone),
{
    assert(g.stands(g.at[slot], slot));
    let k = choose|k: u32| g.carried_at(c, slot, k);
    assert(w.stands(e, k) && w.seq(k) == g.seq(slot));
    assert forall|i: u32|
        i < v.count && Some(i) != gone && #[trigger] v.at.contains_key(i) implies exists|j: u32|
        #[trigger] w.stands(v.at[i], j) && w.seq(j) == v.seq(i) by {
        assert(g.stands(g.at[i], i));
        let j = choose|j: u32| g.carried_at(c, i, j);
        assert(g.seq(i) == v.seq(i));
        assert(w.stands(v.at[i], j) && w.seq(j) == v.seq(i));
    }
}

/// `e`, written into slot `from`, has been moved up to slot `j`: past weaker entries only,
/// at most four of them, and as far as that goes.
pub open spec fn moved_up(w: TopListView, e: PlayerEntry, from: u32, j: u32, now: u32) -> bool {
    &&& w.stands(e, j)
    &&& j <= from <= j + 4
    &&& forall|i: u32|
        j < i <= from ==> w.at.contains_key(i) && score(#[trigger] w.at[i], now) < score(e, now)
    &&& from == j + 4 || j == 0 || !w.at.contains_key((j - 1) as u32) || score(
        w.at[(j - 1) as u32],
        now,
    ) >= score(e, now)
}

proof fn lemma_moved_up(g: TopListView, w: TopListView, e: PlayerEntry, from: u32, now: u32)
    requires
        g.valid(),
        g.stands(e, from),
        w.at == g.climb(e, from, now, 4).at,
        w.count == g.count,
    ensures
        exists|j: u32| #[trigger] moved_up(w, e, from, j, now),
{
    law_climb_rearranges(g, e, from, now, 4);
    law_an_entry_climbs_past_weaker_ones(g, e, from, now, 4);
    let c = g.climb(e, from, now, 4);
    let h = choose|h: nat| #[trigger] climbed(g, c, e, from, now, 4, h);
    let j = (from - h) as u32;
    lemma_reaches(g, e, from, now, 4, h);
    assert(w.at.dom() == g.at.dom());
    assert forall|i: u32| j < i <= from implies w.at.contains_key(i) && score(
        #[trigger] w.at[i],
        now,
    ) < score(e, now) by {
        assert(w.at[i] == g.at[(i - 1) as u32]);
    }
    if j > 0 {
        let up = (j - 1) as u32;
        assert(w.at[up] == g.at[up]);
        assert(w.at.contains_key(up) == g.at.dom().contains(up));
    }
    assert(moved_up(w, e, from, j, now));
}

/// The slots that an entry climbs through hold entries.
proof fn lemma_reaches(
    v: TopListView,
    e: PlayerEntry,
    slot: u32,
    now: u32,
    steps: nat,
    h: nat,
)
    requires
        v.at.contains_key(slot),
        v.at[slot] == e,
        climbed(v, v.climb(e, slot, now, steps), e, slot, now, steps, h),
    ensures
        forall|i: u32| slot - h <= i <= slot ==> #[trigger] v.at.contains_key(i),
    decreases steps,
{
    let up = (slot - 1) as u32;
    let w = v.climb(e, slot, now, steps);
    if steps > 0 && v.overtakes(e, slot, now) {
        let u = v.swap_up(e, slot);
        if h > 0 {
            assert forall|i: u32|
                up - (h - 1) < i <= up implies w.at[i] == #[trigger] u.at[(i - 1) as u32] && score(
                u.at[(i - 1) as u32],
                now,
            ) < score(e, now) by {
                assert(w.at[i] == v.at[(i - 1) as u32]);
            }
            assert forall|i: u32| i < up - (h - 1) || up < i implies w.at[i]
                == #[trigger] u.at[i] by {
                if i == slot {
                    assert(w.at[i] == v.at[(i - 1) as u32]);
                } else {
                    assert(w.at[i] == v.at[i]);
                }
            }
            assert(climbed(u, w, e, up, now, (steps - 1) as nat, (h - 1) as nat));
            lemma_reaches(u, e, up, now, (steps - 1) as nat, (h - 1) as nat);
            assert forall|i: u32| slot - h <= i <= slot implies #[trigger] v.at.contains_key(i) by {
                if i < slot {
                    assert(u.at.contains_key(i));
                }
            }
        }
    } else if h > 0 {
        assert(w == v);
        assert(w.at[slot] == v.at[up]);
    }
}

/// A ranked player's new entry moves up from the player's slot.
pub proof fn law_a_ranked_player_moves_up(
    v: TopListView,
    user: Address,
    points: u64,
    slot: u32,
    now: u32,
)
    requires
        v.valid(),
        v.holds(user, slot),
    ensures
        exists|j: u32| #[trigger]
            moved_up(
                v.update(user, points, now).0,
                PlayerEntry { address: user, points, epoch: now },
                slot,
                j,
                now,
            ),
{
    let e = PlayerEntry { address: user, points, epoch: now };
    let g = v.resolve(user).0.place(slot, e);
    lemma_rewritten(v, e, slot);
    law_climb_rearranges(g, e, slot, now, 4);
    lemma_moved_up(g, v.update(user, points, now).0, e, slot, now);
}

/// A newcomer's entry moves up from the end of the list, or from where the entry stood
/// that it displaces.
pub proof fn law_a_newcomer_moves_up(v: TopListView, user: Address, points: u64, now: u32)
    requires
        v.valid(),
        v.dense(),
        v.indexed(),
        forall|i: u32| !v.holds(user, i),
        v.count == 50 ==> v.target() < 50 && points >= score(v.at[v.target()], now),
    ensures
        ({
            let w = v.update(user, points, now).0;
            let e = PlayerEntry { address: user, points, epoch: now };
            &&& v.count < 50 ==> exists|j: u32| #[trigger] moved_up(w, e, v.count, j, now)
            &&& v.count == 50 ==> exists|j: u32| #[trigger] moved_up(w, e, v.target(), j, now)
        }),
{
    let e = PlayerEntry { address: user, points, epoch: now };
    lemma_entered(v, e);
    law_climb_rearranges(v.entered(e), e, v.entry_slot(), now, 4);
    lemma_moved_up(v.entered(e), v.update(user, points, now).0, e, v.entry_slot(), now);
}

/// A repair extends, for each entry in the order of the list, the slot that it ends up in
/// and its lookup, and then the instance.
pub proof fn law_a_repair_extends_every_entry(v: TopListView)
    requires
        v.valid(),
    ensures
        ({
            let fx = v.repair_fx();
            &&& fx.len() == 2 * v.filled(v.count as nat) + 1
            &&& forall|i: u32|
                i < v.count && #[trigger] v.at.contains_key(i) ==> {
                    let j = v.filled(i as nat) as int;
                    &&& fx[2 * j] == extension(DataKey::TopPlayerAt(j as u32))
                    &&& fx[2 * j + 1] == extension(DataKey::TopPlayerSlot(v.at[i].address))
                }
        }),
{
    lemma_compact_extensions(v, v.count as nat);
    assert forall|i: u32| i < v.count && #[trigger] v.at.contains_key(i) implies {
        let j = v.filled(i as nat) as int;
        &&& v.repair_fx()[2 * j] == extension(DataKey::TopPlayerAt(j as u32))
        &&& v.repair_fx()[2 * j + 1] == extension(DataKey::TopPlayerSlot(v.at[i].address))
    } by {
        lemma_filled(v, i as nat, v.count as nat);
    }
}

proof fn lemma_compact_extensions(v: TopListView, n: nat)
    requires
        v.valid(),
        n <= v.count,
    ensures
        ({
            let fx = v.compact(n).2;
            &&& fx.len() == 2 * v.filled(n)
            &&& forall|i: u32|
                i < n && #[trigger] v.at.contains_key(i) ==> {
                    let j = v.filled(i as nat) as int;
                    &&& fx[2 * j] == extension(DataKey::TopPlayerAt(j as u32))
                    &&& fx[2 * j + 1] == extension(DataKey::TopPlayerSlot(v.at[i].address))
                }
        }),
    decreases n,
{
    if n > 0 {
        let m = (n - 1) as nat;
        lemma_compact_extensions(v, m);
        lemma_compact_slots(v, m);
        lemma_compact_moves(v, m);
        let (w, write, rest) = v.compact(m);
        let last = m as u32;
        assert(w.at.contains_key(last) == v.at.contains_key(last));
        assert(w.at[last] == v.at[last]);
        assert forall|i: u32| i < n && #[trigger] v.at.contains_key(i) implies {
            let fx = v.compact(n).2;
            let j = v.filled(i as nat) as int;
            &&& fx[2 * j] == extension(DataKey::TopPlayerAt(j as u32))
            &&& fx[2 * j + 1] == extension(DataKey::TopPlayerSlot(v.at[i].address))
        } by {
            lemma_filled(v, i as nat, m);
        }
    }
}

/// A climb that starts above the cached minimum leaves it where it is.
proof fn lemma_minimum_below(v: TopListView, e: PlayerEntry, slot: u32, now: u32, steps: nat, m: u32)
    requires
        v.min_slot == Some(m),
        slot < m,
    ensures
        v.climb(e, slot, now, steps).min_slot == Some(m),
    decreases steps,
{
    if steps > 0 && v.overtakes(e, slot, now) {
        lemma_minimum_below(v.swap_up(e, slot), e, (slot - 1) as u32, now, (steps - 1) as nat, m);
    }
}

/// When a ranked player gets a new score, the cached minimum is fresh afterwards, however
/// stale it was, if the player was the cached one, was the last, or passes the cached one
/// from the slot right below.
pub proof fn law_when_the_minimum_is_found_anew(
    v: TopListView,
    user: Address,
    points: u64,
    slot: u32,
    now: u32,
)
    requires
        v.valid(),
        v.holds(user, slot),
        ({
            ||| slot == v.target()
            ||| slot + 1 == v.count
            ||| slot > 0 && v.min_slot == Some((slot - 1) as u32) && v.at.contains_key(
                (slot - 1) as u32,
            ) && score(v.at[(slot - 1) as u32], now) < points
        }),
    ensures
        v.update(user, points, now).0.min_is_fresh(now),
        v.update(user, points, now).0.min_slot is Some,
{
    let e = PlayerEntry { address: user, points, epoch: now };
    lemma_rewritten(v, e, slot);
    law_lookup_keeps_the_list(v, user);
    lemma_found_slot(v, user, slot);
    let g = v.resolve(user).0.place(slot, e);
    let c = g.climb(e, slot, now, MAX_BUBBLE_STEPS as nat);
    law_climb_rearranges(g, e, slot, now, MAX_BUBBLE_STEPS as nat);
    assert(score(e, now) == points) by {
        law_decay_by_periods(points as int, 0);
    }
    if slot != v.target() && slot + 1 != v.count {
        let up = (slot - 1) as u32;
        assert(g.at[up] == v.at[up]);
        assert(g.overtakes(e, slot, now));
        lemma_minimum_below(
            g.swap_up(e, slot),
            e,
            up,
            now,
            (MAX_BUBBLE_STEPS - 1) as nat,
            slot,
        );
        assert(c.min_slot == Some(slot));
    }
    assert(g.at.dom().contains(slot));
    assert(c.at.contains_key(slot));
    assert(c.count == v.count);
    assert(v.update(user, points, now).0 == c.with_min(c.count, now));
    law_refreshed_minimum_is_weakest(c, now);
}

} // verus!
