//! What holds of the top list whatever is written to it and whatever expires.

use crate::env::Address;
use crate::leaderboard::board::{lemma_compact_slots, lemma_weakest_slot, TopListView};
use crate::leaderboard::contract::lemma_resolve_keeps_entries;
use crate::leaderboard::decay::{fade, lemma_score_range, score};
use crate::leaderboard::types::{PlayerEntry, MAX_BUBBLE_STEPS, MAX_TOP_PLAYERS};
use vstd::prelude::*;

verus! {

impl TopListView {
    /// The list is within its capacity, no player stands in two slots, the cached
    /// minimum is one of the slots, and that of an empty list is zero. This survives the
    /// expiry of any entry.
    pub open spec fn valid(self) -> bool {
        &&& self.count <= MAX_TOP_PLAYERS
        &&& self.target() == 0 || self.target() < self.count
        &&& self.count == 0 ==> self.min_points == 0
        &&& forall|i: u32, j: u32|
            i < j < self.count && self.at.contains_key(i) && self.at.contains_key(j) ==> (
            #[trigger] self.at[i]).address != (#[trigger] self.at[j]).address
    }

    /// Every slot in use holds an entry.
    pub open spec fn dense(self) -> bool {
        forall|i: u32| i < self.count ==> #[trigger] self.at.contains_key(i)
    }

    /// The reverse lookups are exactly those that the entries call for.
    pub open spec fn indexed(self) -> bool {
        &&& forall|i: u32|
            i < self.count && self.at.contains_key(i) ==> self.slot_of.contains_pair(
                (#[trigger] self.at[i]).address,
                i,
            )
        &&& forall|u: Address| #[trigger]
            self.slot_of.contains_key(u) ==> self.holds(u, self.slot_of[u])
    }

    /// The entry stands in the list.
    pub open spec fn lists(self, e: PlayerEntry) -> bool {
        exists|i: u32| #[trigger] self.stands(e, i)
    }

    /// The entry stands in this slot.
    pub open spec fn stands(self, e: PlayerEntry, i: u32) -> bool {
        i < self.count && self.at.contains_key(i) && self.at[i] == e
    }

    /// Every entry of `self` stands in `w` too, with its sequence number, and the
    /// cached minimum is the same player's.
    pub open spec fn carried_to(self, w: Self) -> bool {
        forall|i: u32| #[trigger] self.stands(self.at[i], i) ==> exists|j: u32|
            self.carried_at(w, i, j)
    }

    /// The entry in slot `i` of `self` stands in slot `j` of `w`, with its
    /// sequence number, and is the cached minimum of both or of neither.
    pub open spec fn carried_at(self, w: Self, i: u32, j: u32) -> bool {
        &&& w.stands(self.at[i], j)
        &&& w.seq(j) == self.seq(i)
        &&& self.min_slot == Some(i) ==> w.min_slot == Some(j)
    }

    /// How many of the slots `0 .. n` hold an entry. This is also the slot to which a
    /// repair moves the entry in slot `n`.
    pub open spec fn filled(self, n: nat) -> nat
        decreases n,
    {
        if n == 0 {
            0
        } else {
            self.filled((n - 1) as nat) + if self.at.contains_key((n - 1) as u32) {
                1nat
            } else {
                0nat
            }
        }
    }

    /// The entry in slot `i`, one of the slots `0 .. n`, is moved to slot `j` by a repair.
    pub open spec fn moves(self, i: u32, j: u32, n: nat) -> bool {
        i < n && self.at.contains_key(i) && self.filled(i as nat) == j
    }

    /// Slot `j` receives an entry of one of the slots `0 .. n` in a repair.
    pub open spec fn receives(self, j: u32, n: nat) -> bool {
        exists|i: u32| #[trigger] self.moves(i, j, n)
    }

    /// The cached minimum is the weakest entry of the list: no other is worth
    /// less, and none that is worth the same has stood there longer.
    pub open spec fn min_is_fresh(self, now: u32) -> bool {
        &&& self.target() < self.count
        &&& self.at.contains_key(self.target())
        &&& forall|i: u32|
            i < self.count && self.at.contains_key(i) ==> {
                let m = self.at[self.target()];
                ||| score(m, now) < score(#[trigger] self.at[i], now)
                ||| score(m, now) == score(self.at[i], now) && self.seq(self.target()) <= self.seq(i)
            }
    }
}

// Climbing.

/// One exchange of places keeps the list valid, dense and indexed, and carries
/// every entry along.
proof fn lemma_swap_up(v: TopListView, e: PlayerEntry, slot: u32, now: u32)
    requires
        v.valid(),
        v.stands(e, slot),
        v.overtakes(e, slot, now),
    ensures
        ({
            let w = v.swap_up(e, slot);
            &&& w.count == v.count
            &&& w.valid()
            &&& w.stands(e, (slot - 1) as u32)
            &&& w.at.dom() == v.at.dom()
            &&& v.indexed() ==> w.indexed()
            &&& v.carried_to(w)
            &&& forall|x: PlayerEntry| #[trigger] w.lists(x) == v.lists(x)
        }),
{
    let w = v.swap_up(e, slot);
    let up = (slot - 1) as u32;
    assert(w.at.dom() =~= v.at.dom());
    assert(w.at[up] == e && w.at[slot] == v.at[up]);
    assert(forall|i: u32| i != up && i != slot ==> w.at[i] == v.at[i]);
    assert forall|i: u32| #[trigger] v.stands(v.at[i], i) implies exists|j: u32|
        v.carried_at(w, i, j) by {
        let j = if i == slot {
            up
        } else if i == up {
            slot
        } else {
            i
        };
        assert(v.carried_at(w, i, j));
    }
    assert forall|x: PlayerEntry| #[trigger] w.lists(x) == v.lists(x) by {
        if v.lists(x) {
            let i = choose|i: u32| #[trigger] v.stands(x, i);
            assert(v.stands(v.at[i], i));
            let j = choose|j: u32| v.carried_at(w, i, j);
            assert(w.stands(x, j));
        }
        if w.lists(x) {
            let i = choose|i: u32| #[trigger] w.stands(x, i);
            assert(v.stands(x, if i == slot {
                up
            } else if i == up {
                slot
            } else {
                i
            }));
        }
    }
    if v.indexed() {
        assert forall|u: Address| #[trigger] w.slot_of.contains_key(u) implies w.holds(
            u,
            w.slot_of[u],
        ) by {
            if u != e.address && u != v.at[up].address {
                assert(v.slot_of.contains_key(u));
                assert(v.holds(u, v.slot_of[u]));
            }
        }
        assert forall|i: u32| i < w.count && w.at.contains_key(i) implies w.slot_of.contains_pair(
            (#[trigger] w.at[i]).address,
            i,
        ) by {
            if i != slot && i != up {
                assert(v.slot_of.contains_pair(v.at[i].address, i));
                assert(v.at[i].address != v.at[slot].address);
                assert(v.at[i].address != v.at[up].address);
            }
        }
    }
}

proof fn lemma_carried_trans(a: TopListView, b: TopListView, c: TopListView)
    requires
        a.carried_to(b),
        b.carried_to(c),
    ensures
        a.carried_to(c),
{
    assert forall|i: u32| #[trigger] a.stands(a.at[i], i) implies exists|j: u32|
        a.carried_at(c, i, j) by {
        let j = choose|j: u32| a.carried_at(b, i, j);
        assert(b.stands(b.at[j], j));
        let k = choose|k: u32| b.carried_at(c, j, k);
        assert(a.carried_at(c, i, k));
    }
}

proof fn lemma_carried_refl(a: TopListView)
    ensures
        a.carried_to(a),
{
    assert forall|i: u32| #[trigger] a.stands(a.at[i], i) implies exists|j: u32|
        a.carried_at(a, i, j) by {
        assert(a.carried_at(a, i, i));
    }
}

/// Climbing rearranges the list: nobody comes or goes, sequence numbers and the
/// cached minimum stay with the players, and the list stays valid, dense and
/// indexed.
pub proof fn law_climb_rearranges(v: TopListView, e: PlayerEntry, slot: u32, now: u32, steps: nat)
    requires
        v.valid(),
        v.stands(e, slot),
    ensures
        ({
            let w = v.climb(e, slot, now, steps);
            &&& w.count == v.count
            &&& w.seq_counter == v.seq_counter
            &&& w.valid()
            &&& w.at.dom() == v.at.dom()
            &&& v.indexed() ==> w.indexed()
            &&& v.carried_to(w)
            &&& forall|x: PlayerEntry| #[trigger] w.lists(x) == v.lists(x)
        }),
    decreases steps,
{
    if steps > 0 && v.overtakes(e, slot, now) {
        let u = v.swap_up(e, slot);
        let w = v.climb(e, slot, now, steps);
        lemma_swap_up(v, e, slot, now);
        law_climb_rearranges(u, e, (slot - 1) as u32, now, (steps - 1) as nat);
        lemma_carried_trans(v, u, w);
        assert forall|x: PlayerEntry| #[trigger] w.lists(x) == v.lists(x) by {
            assert(u.lists(x) == v.lists(x));
        }
    } else {
        lemma_carried_refl(v);
    }
}

/// How far `e`, in `slot`, climbs.
pub open spec fn height(v: TopListView, e: PlayerEntry, slot: u32, now: u32, steps: nat) -> nat
    decreases steps,
{
    if steps > 0 && v.overtakes(e, slot, now) {
        1 + height(v, e, (slot - 1) as u32, now, (steps - 1) as nat)
    } else {
        0
    }
}

/// A slot below `slot` has no bearing on how far an entry climbs from there.
proof fn lemma_height_local(
    v: TopListView,
    w: TopListView,
    e: PlayerEntry,
    slot: u32,
    now: u32,
    steps: nat,
)
    requires
        forall|i: u32| i < slot ==> (#[trigger] v.at.contains_key(i)) == w.at.contains_key(i),
        forall|i: u32| i < slot ==> (#[trigger] v.at[i]) == w.at[i],
    ensures
        height(v, e, slot, now, steps) == height(w, e, slot, now, steps),
    decreases steps,
{
    if steps > 0 && slot > 0 {
        assert(v.at.contains_key((slot - 1) as u32) == w.at.contains_key((slot - 1) as u32));
        assert(v.at[(slot - 1) as u32] == w.at[(slot - 1) as u32]);
        if v.overtakes(e, slot, now) {
            lemma_height_local(v, w, e, (slot - 1) as u32, now, (steps - 1) as nat);
        }
    }
}

/// An entry that climbs `h` places ends up `h` slots higher, everyone it passed
/// moves down by one, and the others stay. It stops at the top, at an entry that
/// is worth at least as much, or when the steps are used up.
pub proof fn law_climb_shifts(v: TopListView, e: PlayerEntry, slot: u32, now: u32, steps: nat)
    requires
        v.at.contains_key(slot),
        v.at[slot] == e,
    ensures
        ({
            let w = v.climb(e, slot, now, steps);
            let h = height(v, e, slot, now, steps);
            &&& h <= steps
            &&& h <= slot
            &&& w.at.contains_key((slot - h) as u32) && w.at[(slot - h) as u32] == e
            &&& forall|i: u32|
                slot - h < i <= slot ==> (#[trigger] w.at[i]) == v.at[(i - 1) as u32]
            &&& forall|i: u32|
                i < slot - h || slot < i ==> (#[trigger] w.at[i]) == v.at[i]
            &&& h == steps || h == slot || !v.overtakes(e, (slot - h) as u32, now)
        }),
    decreases steps,
{
    if steps > 0 && v.overtakes(e, slot, now) {
        let u = v.swap_up(e, slot);
        let up = (slot - 1) as u32;
        let rest = (steps - 1) as nat;
        law_climb_shifts(u, e, up, now, rest);
        lemma_height_local(v, u, e, up, now, rest);
        let w = v.climb(e, slot, now, steps);
        let h = height(v, e, slot, now, steps);
        assert forall|i: u32| slot - h < i <= slot implies (#[trigger] w.at[i]) == v.at[(i
            - 1) as u32] by {
            if i < slot {
                assert(w.at[i] == u.at[(i - 1) as u32]);
            } else {
                assert(w.at[i] == u.at[i]);
            }
        }
        assert forall|i: u32| i < slot - h || slot < i implies (#[trigger] w.at[i])
            == v.at[i] by {
            assert(w.at[i] == u.at[i]);
        }
    }
}

// The weakest entry.

/// The cached minimum, once recomputed, is the weakest entry of the list, and
/// among equally weak ones the one that has stood there longest.
pub proof fn law_refreshed_minimum_is_weakest(v: TopListView, now: u32)
    requires
        exists|i: u32| i < v.count && #[trigger] v.at.contains_key(i),
    ensures
        v.with_min(v.count, now).min_is_fresh(now),
        v.with_min(v.count, now).min_points == score(
            v.at[v.with_min(v.count, now).target()],
            now,
        ),
{
    lemma_weakest(v, v.count as nat, now);
    let w = v.with_min(v.count, now);
    assert(w.at == v.at && w.seq_at == v.seq_at);
    assert forall|i: u32| i < w.count && w.at.contains_key(i) implies {
        let m = w.at[w.target()];
        ||| score(m, now) < score(#[trigger] w.at[i], now)
        ||| score(m, now) == score(w.at[i], now) && w.seq(w.target()) <= w.seq(i)
    } by {
        assert(v.at.contains_key(i));
        assert(w.seq(i) == v.seq(i));
    }
}

proof fn lemma_weakest(v: TopListView, n: nat, now: u32)
    requires
        n <= u32::MAX,
    ensures
        ({
            let (pts, slot) = v.weakest(n, now);
            &&& forall|i: u32|
                i < n && #[trigger] v.at.contains_key(i) ==> {
                    &&& slot < n && v.at.contains_key(slot) && score(v.at[slot], now) == pts
                    &&& pts < score(v.at[i], now) || (pts == score(v.at[i], now) && v.seq(slot)
                        <= v.seq(i))
                }
            &&& (forall|i: u32| i < n ==> !#[trigger] v.at.contains_key(i)) ==> pts == u64::MAX
                && slot == 0
        }),
    decreases n,
{
    if n > 0 {
        lemma_weakest(v, (n - 1) as nat, now);
        let i = (n - 1) as u32;
        let (p, t) = v.weakest((n - 1) as nat, now);
        if v.at.contains_key(i) {
            lemma_score_range(v.at[i].points, v.at[i].epoch, now);
        }
        if forall|j: u32| j < (n - 1) as nat ==> !#[trigger] v.at.contains_key(j) {
            assert(p == u64::MAX && t == 0);
        } else {
            let k = choose|k: u32| k < (n - 1) as nat && #[trigger] v.at.contains_key(k);
            assert(v.at.contains_key(k));
            assert(v.at.contains_key(t));
        }
    }
}

// Finding, repairing, updating.

/// Looking a player up keeps the list valid and dense, and keeps it indexed.
pub proof fn law_lookup_keeps_the_list(v: TopListView, user: Address)
    requires
        v.valid(),
    ensures
        ({
            let w = v.resolve(user).0;
            &&& w.valid()
            &&& w.count == v.count && w.at == v.at && w.seq_at == v.seq_at && w.min_slot
                == v.min_slot && w.min_points == v.min_points && w.seq_counter == v.seq_counter
            &&& v.indexed() ==> w == v
            &&& v.resolve(user).1 is Some <==> exists|i: u32| v.holds(user, i)
            &&& v.resolve(user).1 matches Some(slot) ==> v.holds(user, slot)
        }),
{
    lemma_resolve_keeps_entries(v, user);
    let w = v.resolve(user).0;
    if exists|i: u32| v.holds(user, i) {
        let i = choose|i: u32| v.holds(user, i);
        assert forall|j: u32| j < i implies !v.holds(user, j) by {
            if v.holds(user, j) {
                assert(v.at[j].address != v.at[i].address);
            }
        }
        assert(v.first_holds(user, i));
        if v.indexed() {
            assert(v.slot_of.contains_pair(v.at[i].address, i));
        }
    } else if v.indexed() {
        if v.slot_of.contains_key(user) {
            assert(v.holds(user, v.slot_of[user]));
        }
        assert(w.slot_of =~= v.slot_of);
    }
}

/// In a valid list a player stands in one slot, and that is the one which is found.
pub proof fn lemma_found_slot(v: TopListView, user: Address, slot: u32)
    requires
        v.valid(),
        v.holds(user, slot),
    ensures
        v.resolve(user).1 == Some(slot),
        forall|i: u32| i != slot ==> !#[trigger] v.holds(user, i),
{
    law_lookup_keeps_the_list(v, user);
    assert forall|i: u32| i != slot implies !#[trigger] v.holds(user, i) by {
        if v.holds(user, i) {
            if i < slot {
                assert(v.at[i].address != v.at[slot].address);
            } else {
                assert(v.at[slot].address != v.at[i].address);
            }
        }
    }
}

/// The expiry of entries and lookups keeps the list valid.
pub proof fn law_expiry_keeps_the_list_valid(v: TopListView, w: TopListView)
    requires
        v.valid(),
        w.count == v.count,
        w.min_slot == v.min_slot,
        w.min_points == v.min_points,
        forall|i: u32| #[trigger]
            w.at.contains_key(i) ==> v.at.contains_key(i) && v.at[i] == w.at[i],
    ensures
        w.valid(),
{
    assert forall|i: u32, j: u32|
        i < j < w.count && w.at.contains_key(i) && w.at.contains_key(j) implies (
    #[trigger] w.at[i]).address != (#[trigger] w.at[j]).address by {
        assert(v.at[i] == w.at[i] && v.at[j] == w.at[j]);
    }
}

/// Later slots have at least as many filled ones before them, and a slot after a
/// filled one has more.
pub(crate) proof fn lemma_filled(v: TopListView, i: nat, n: nat)
    requires
        i <= n <= u32::MAX,
    ensures
        v.filled(i) <= v.filled(n) <= n,
        i < n && v.at.contains_key(i as u32) ==> v.filled(i) < v.filled(n),
    decreases n,
{
    if i < n {
        lemma_filled(v, i, (n - 1) as nat);
    } else if n > 0 {
        lemma_filled(v, (n - 1) as nat, (n - 1) as nat);
    }
}

/// Where compaction puts the entries of the slots that it has looked at, their
/// sequence numbers and their reverse lookups.
pub(crate) proof fn lemma_compact_moves(v: TopListView, n: nat)
    requires
        v.valid(),
        n <= v.count,
    ensures
        ({
            let (w, write, _) = v.compact(n);
            &&& w.count == v.count
            &&& w.seq_counter == v.seq_counter
            &&& w.min_slot == v.min_slot
            &&& write == v.filled(n)
            &&& forall|i: u32|
                i < n && #[trigger] v.at.contains_key(i) ==> {
                    let j = v.filled(i as nat) as u32;
                    &&& j < write
                    &&& w.at.contains_key(j) && w.at[j] == v.at[i]
                    &&& w.seq(j) == v.seq(i)
                    &&& w.slot_of.contains_pair(v.at[i].address, j)
                }
            &&& forall|j: u32| j < write ==> #[trigger] v.receives(j, n)
            &&& forall|i: u32| n <= i ==> (#[trigger] w.seq(i)) == v.seq(i)
        }),
    decreases n,
{
    lemma_compact_slots(v, n);
    if n > 0 {
        let m = (n - 1) as nat;
        lemma_compact_moves(v, m);
        lemma_compact_slots(v, m);
        lemma_filled(v, m, m);
        let (p, to, _) = v.compact(m);
        let (w, write, _) = v.compact(n);
        let read = m as u32;
        assert(p.at.contains_key(read) == v.at.contains_key(read));
        assert(p.at[read] == v.at[read]);
        assert(p.seq(read) == v.seq(read));
        assert forall|i: u32| i < n && #[trigger] v.at.contains_key(i) implies {
            let j = v.filled(i as nat) as u32;
            &&& j < write
            &&& w.at.contains_key(j) && w.at[j] == v.at[i]
            &&& w.seq(j) == v.seq(i)
            &&& w.slot_of.contains_pair(v.at[i].address, j)
        } by {
            if i < m {
                let j = v.filled(i as nat) as u32;
                assert(j < to);
                if v.at.contains_key(read) {
                    assert(v.at[i].address != v.at[read].address);
                }
            }
        }
        assert forall|j: u32| j < write implies #[trigger] v.receives(j, n) by {
            if j < to {
                assert(v.receives(j, m));
                let i = choose|i: u32| #[trigger] v.moves(i, j, m);
                assert(v.moves(i, j, n));
            } else {
                assert(v.moves(read, j, n));
            }
        }
        assert forall|i: u32| n <= i implies (#[trigger] w.seq(i)) == v.seq(i) by {
            assert(p.seq(i) == v.seq(i));
        }
    }
}

/// A repair closes every gap. Afterwards the list holds exactly the entries that it
/// held before, in the same order and with their sequence numbers, in slots that
/// follow one another; every reverse lookup of an entry points at it; and the cached
/// minimum is the weakest entry.
pub proof fn law_repair_closes_gaps(v: TopListView, now: u32)
    requires
        v.valid(),
    ensures
        ({
            let r = v.repair(now);
            &&& r.valid()
            &&& r.dense()
            &&& r.count == v.filled(v.count as nat)
            &&& r.count <= v.count
            &&& r.seq_counter == v.seq_counter
            &&& forall|x: PlayerEntry| v.lists(x) == #[trigger] r.lists(x)
            &&& forall|i: u32|
                i < v.count && #[trigger] v.at.contains_key(i) ==> {
                    let j = v.filled(i as nat) as u32;
                    &&& j < r.count
                    &&& r.at[j] == v.at[i]
                    &&& r.seq(j) == v.seq(i)
                }
            &&& forall|i: u32, j: u32|
                i < j && j < v.count && #[trigger] v.at.contains_key(i)
                    && #[trigger] v.at.contains_key(j) ==> v.filled(i as nat) < v.filled(j as nat)
            &&& forall|i: u32| r.count <= i < v.count ==> !#[trigger] r.at.contains_key(i)
            &&& forall|i: u32|
                i < r.count ==> r.slot_of.contains_pair((#[trigger] r.at[i]).address, i)
            &&& r.count > 0 ==> r.min_is_fresh(now)
            &&& r.count > 0 ==> r.min_points == score(r.at[r.target()], now)
            &&& r.count == 0 ==> r.min_points == 0 && r.min_slot == Some(0u32)
        }),
{
    let n = v.count as nat;
    lemma_compact_moves(v, n);
    lemma_compact_slots(v, n);
    lemma_filled(v, n, n);
    let (w, write, _) = v.compact(n);
    let r = v.repair(now);
    let t = TopListView { count: write, ..w };
    lemma_weakest_slot(t, write as nat, now);
    assert(r.at == w.at && r.count == write && r.slot_of == w.slot_of && r.seq_at == w.seq_at);
    assert forall|i: u32| i < v.count && #[trigger] v.at.contains_key(i) implies {
        let j = v.filled(i as nat) as u32;
        &&& j < r.count
        &&& r.at[j] == v.at[i]
        &&& r.seq(j) == v.seq(i)
    } by {
        assert(w.seq(v.filled(i as nat) as u32) == v.seq(i));
    }
    assert forall|i: u32, j: u32|
        i < j && j < v.count && #[trigger] v.at.contains_key(i)
            && #[trigger] v.at.contains_key(j) implies v.filled(i as nat) < v.filled(j as nat) by {
        lemma_filled(v, i as nat, j as nat);
    }
    assert forall|i: u32| i < r.count implies r.slot_of.contains_pair(
        (#[trigger] r.at[i]).address,
        i,
    ) by {
        assert(v.receives(i, n));
        let k = choose|k: u32| #[trigger] v.moves(k, i, n);
        assert(v.at.contains_key(k));
    }
    assert forall|i: u32, j: u32|
        i < j < r.count && r.at.contains_key(i) && r.at.contains_key(j) implies (
    #[trigger] r.at[i]).address != (#[trigger] r.at[j]).address by {
        assert(r.slot_of.contains_pair(r.at[i].address, i));
        assert(r.slot_of.contains_pair(r.at[j].address, j));
    }
    assert forall|x: PlayerEntry| v.lists(x) == #[trigger] r.lists(x) by {
        if v.lists(x) {
            let i = choose|i: u32| #[trigger] v.stands(x, i);
            assert(v.at.contains_key(i));
            assert(r.stands(x, v.filled(i as nat) as u32));
        }
        if r.lists(x) {
            let j = choose|j: u32| #[trigger] r.stands(x, j);
            assert(v.receives(j, n));
            let i = choose|i: u32| #[trigger] v.moves(i, j, n);
            assert(v.at.contains_key(i));
            assert(v.stands(x, i));
        }
    }
    if r.count > 0 {
        assert(t.at.contains_key(0));
        law_refreshed_minimum_is_weakest(t, now);
    }
}

/// A repair of a list that has just been repaired changes nothing.
pub proof fn law_a_second_repair_changes_nothing(v: TopListView, now: u32)
    requires
        v.valid(),
    ensures
        v.repair(now).repair(now) == v.repair(now),
{
    law_repair_closes_gaps(v, now);
    let r = v.repair(now);
    lemma_compact_of_a_dense_list(r, r.count as nat);
    let (w, write, _) = r.compact(r.count as nat);
    assert(w == r && write == r.count);
    let c = TopListView {
        count: v.compact(v.count as nat).1,
        ..v.compact(v.count as nat).0
    };
    assert(r == c.with_min(c.count, now));
    lemma_weakest_local(c, r, r.count as nat, now);
}

/// Compaction leaves a list without gaps, whose reverse lookups are right, as it is.
proof fn lemma_compact_of_a_dense_list(v: TopListView, n: nat)
    requires
        n <= v.count,
        v.dense(),
        forall|i: u32| i < v.count ==> v.slot_of.contains_pair((#[trigger] v.at[i]).address, i),
    ensures
        v.compact(n).0 == v,
        v.compact(n).1 == n,
    decreases n,
{
    if n > 0 {
        lemma_compact_of_a_dense_list(v, (n - 1) as nat);
        let read = (n - 1) as u32;
        assert(v.at.contains_key(read));
        assert(v.slot_of.contains_pair(v.at[read].address, read));
        assert(v.place(read, v.at[read]) =~= v);
    }
}

/// The weakest entry depends on the entries and their sequence numbers alone.
proof fn lemma_weakest_local(v: TopListView, w: TopListView, n: nat, now: u32)
    requires
        w.at == v.at,
        w.seq_at == v.seq_at,
    ensures
        w.weakest(n, now) == v.weakest(n, now),
    decreases n,
{
    if n > 0 {
        lemma_weakest_local(v, w, (n - 1) as nat, now);
    }
}

/// A new entry, put into a slot beyond the list, joins it.
pub(crate) proof fn lemma_append(v: TopListView, user: Address, points: u64, now: u32)
    requires
        v.valid(),
        v.count < MAX_TOP_PLAYERS,
        forall|i: u32| !v.holds(user, i),
    ensures
        ({
            let e = PlayerEntry { address: user, points, epoch: now };
            let w = v.append(user, points, v.count, now);
            &&& w.valid()
            &&& w.count == v.count + 1
            &&& v.dense() ==> w.dense()
            &&& v.indexed() ==> w.indexed()
            &&& forall|x: PlayerEntry| #[trigger] w.lists(x) == (v.lists(x) || x == e)
        }),
{
    let e = PlayerEntry { address: user, points, epoch: now };
    let slot = v.count;
    let g = TopListView { count: (slot + 1) as u32, ..v.place(slot, e).stamp(slot) };
    assert(g.at == v.at.insert(slot, e));
    assert forall|i: u32, j: u32|
        i < j < g.count && g.at.contains_key(i) && g.at.contains_key(j) implies (
    #[trigger] g.at[i]).address != (#[trigger] g.at[j]).address by {
        assert(v.at.contains_key(i) && g.at[i] == v.at[i]);
        if j == slot {
            assert(!v.holds(user, i));
        } else {
            assert(v.at.contains_key(j) && g.at[j] == v.at[j]);
        }
    }
    assert(g.stands(e, slot));
    let c = g.climb(e, slot, now, MAX_BUBBLE_STEPS as nat);
    law_climb_rearranges(g, e, slot, now, MAX_BUBBLE_STEPS as nat);
    let w = v.append(user, points, slot, now);
    lemma_weakest_slot(c, c.count as nat, now);
    assert(w.at == c.at && w.count == c.count && w.slot_of == c.slot_of);
    if v.indexed() {
        assert forall|u: Address| #[trigger] g.slot_of.contains_key(u) implies g.holds(
            u,
            g.slot_of[u],
        ) by {
            if u != user {
                assert(v.slot_of.contains_key(u));
                assert(v.holds(u, v.slot_of[u]));
            }
        }
        assert forall|i: u32| i < g.count && g.at.contains_key(i) implies g.slot_of.contains_pair(
            (#[trigger] g.at[i]).address,
            i,
        ) by {
            if i != slot {
                assert(v.slot_of.contains_pair(v.at[i].address, i));
                assert(!v.holds(user, i));
            }
        }
        assert(c.indexed());
        assert forall|u: Address| #[trigger] w.slot_of.contains_key(u) implies w.holds(
            u,
            w.slot_of[u],
        ) by {
            assert(c.slot_of.contains_key(u));
        }
    }
    if v.dense() {
        assert forall|i: u32| i < w.count implies #[trigger] w.at.contains_key(i) by {
            if i < slot {
                assert(v.at.contains_key(i));
            }
            assert(g.at.contains_key(i));
            assert(c.at.dom().contains(i));
        }
    }
    assert forall|x: PlayerEntry| #[trigger] w.lists(x) == (v.lists(x) || x == e) by {
        assert(c.lists(x) == g.lists(x));
        if v.lists(x) {
            let i = choose|i: u32| #[trigger] v.stands(x, i);
            assert(g.stands(x, i));
        }
        if g.lists(x) {
            let i = choose|i: u32| #[trigger] g.stands(x, i);
            if i != slot {
                assert(v.stands(x, i));
            }
        }
        if c.lists(x) {
            let i = choose|i: u32| #[trigger] c.stands(x, i);
            assert(w.stands(x, i));
        }
        if w.lists(x) {
            let i = choose|i: u32| #[trigger] w.stands(x, i);
            assert(c.stands(x, i));
        }
    }
}

/// A new entry, put into a slot in place of the one there, replaces it.
proof fn lemma_replace(v: TopListView, g: TopListView, e: PlayerEntry, slot: u32, now: u32)
    requires
        v.valid(),
        slot < v.count,
        v.at.contains_key(slot),
        forall|i: u32| i != slot ==> !v.holds(e.address, i),
        g.count == v.count,
        g.min_slot == v.min_slot,
        g.at == v.at.insert(slot, e),
        g.slot_of == v.slot_of.remove(v.at[slot].address).insert(e.address, slot),
    ensures
        ({
            let w = g.climb(e, slot, now, MAX_BUBBLE_STEPS as nat);
            &&& w.valid()
            &&& w.count == v.count
            &&& v.dense() ==> w.dense()
            &&& v.indexed() ==> w.indexed()
            &&& forall|x: PlayerEntry| #[trigger]
                w.lists(x) == (x == e || (v.lists(x) && x.address != v.at[slot].address))
        }),
{
    assert forall|i: u32, j: u32|
        i < j < g.count && g.at.contains_key(i) && g.at.contains_key(j) implies (
    #[trigger] g.at[i]).address != (#[trigger] g.at[j]).address by {
        assert(v.at.contains_key(i) && v.at.contains_key(j));
        if i == slot {
            assert(!v.holds(e.address, j));
        } else if j == slot {
            assert(!v.holds(e.address, i));
        } else {
            assert(v.at[i].address != v.at[j].address);
        }
    }
    assert(g.stands(e, slot));
    let w = g.climb(e, slot, now, MAX_BUBBLE_STEPS as nat);
    law_climb_rearranges(g, e, slot, now, MAX_BUBBLE_STEPS as nat);
    if v.indexed() {
        assert forall|u: Address| #[trigger] g.slot_of.contains_key(u) implies g.holds(
            u,
            g.slot_of[u],
        ) by {
            if u != e.address {
                assert(v.slot_of.contains_key(u));
                assert(v.holds(u, v.slot_of[u]));
            }
        }
        assert forall|i: u32| i < g.count && g.at.contains_key(i) implies g.slot_of.contains_pair(
            (#[trigger] g.at[i]).address,
            i,
        ) by {
            if i != slot {
                assert(v.slot_of.contains_pair(v.at[i].address, i));
                assert(v.at[slot].address != v.at[i].address);
                assert(!v.holds(e.address, i));
            }
        }
    }
    if v.dense() {
        assert forall|i: u32| i < w.count implies #[trigger] w.at.contains_key(i) by {
            assert(v.at.contains_key(i));
            assert(g.at.dom().contains(i));
        }
    }
    assert forall|x: PlayerEntry| #[trigger]
        w.lists(x) == (x == e || (v.lists(x) && x.address != v.at[slot].address)) by {
        assert(w.lists(x) == g.lists(x));
        if x == e {
            assert(g.stands(x, slot));
        } else if v.lists(x) && x.address != v.at[slot].address {
            let i = choose|i: u32| #[trigger] v.stands(x, i);
            assert(g.stands(x, i));
        }
        if g.lists(x) && x != e {
            let i = choose|i: u32| #[trigger] g.stands(x, i);
            assert(v.stands(x, i));
            assert(v.at[i].address != v.at[slot].address);
        }
    }
}

/// Recomputing the cached minimum touches nothing else.
proof fn lemma_with_min_frame(v: TopListView, n: u32, now: u32)
    requires
        v.valid(),
        n <= v.count,
    ensures
        ({
            let w = v.with_min(n, now);
            &&& w.valid()
            &&& w.dense() == v.dense()
            &&& w.indexed() == v.indexed()
            &&& forall|x: PlayerEntry| #[trigger] w.lists(x) == v.lists(x)
        }),
{
    let w = v.with_min(n, now);
    lemma_weakest_slot(v, n as nat, now);
    assert(w.at == v.at && w.slot_of == v.slot_of && w.count == v.count);
    assert forall|x: PlayerEntry| #[trigger] w.lists(x) == v.lists(x) by {
        if v.lists(x) {
            let i = choose|i: u32| #[trigger] v.stands(x, i);
            assert(w.stands(x, i));
        }
        if w.lists(x) {
            let i = choose|i: u32| #[trigger] w.stands(x, i);
            assert(v.stands(x, i));
        }
    }
    assert forall|u: Address| true implies (#[trigger] w.holds(u, w.slot_of[u])) == v.holds(
        u,
        v.slot_of[u],
    ) by {}
    if v.indexed() {
        assert(w.indexed());
    }
    if w.indexed() {
        assert(v.indexed());
    }
}

/// What `user`'s new score does to the list: the player's entry is replaced or
/// added, at most one other entry goes, and everyone else's entry is untouched.
pub open spec fn updated(v: TopListView, w: TopListView, e: PlayerEntry, gone: Option<Address>) -> bool {
    forall|x: PlayerEntry| #[trigger]
        w.lists(x) == (x == e || (v.lists(x) && x.address != e.address && Some(x.address) != gone))
}

/// A ranked player's new score replaces the player's entry, and nothing else.
pub proof fn law_update_of_a_ranked_player(v: TopListView, user: Address, points: u64, now: u32)
    requires
        v.valid(),
        exists|i: u32| v.holds(user, i),
    ensures
        ({
            let w = v.update(user, points, now).0;
            &&& w.valid()
            &&& w.count == v.count
            &&& v.dense() ==> w.dense()
            &&& v.indexed() ==> w.indexed()
            &&& updated(v, w, PlayerEntry { address: user, points, epoch: now }, None)
        }),
{
    law_lookup_keeps_the_list(v, user);
    let r = v.resolve(user).0;
    let slot = v.resolve(user).1->0;
    lemma_found_slot(v, user, slot);
    let e = PlayerEntry { address: user, points, epoch: now };
    let g = r.place(slot, e);
    assert(g.slot_of =~= r.slot_of.remove(r.at[slot].address).insert(user, slot));
    assert forall|i: u32| i != slot implies !r.holds(user, i) by {
        assert(!v.holds(user, i));
    }
    lemma_replace(r, g, e, slot, now);
    let c = g.climb(e, slot, now, MAX_BUBBLE_STEPS as nat);
    lemma_with_min_frame(c, v.count, now);
    let w = v.update(user, points, now).0;
    assert forall|x: PlayerEntry| #[trigger]
        w.lists(x) == (x == e || (v.lists(x) && x.address != user && Some(x.address)
            != None::<Address>)) by {
        assert(w.lists(x) == c.lists(x));
        if v.lists(x) {
            let i = choose|i: u32| #[trigger] v.stands(x, i);
            assert(r.stands(x, i));
        }
        if r.lists(x) {
            let i = choose|i: u32| #[trigger] r.stands(x, i);
            assert(v.stands(x, i));
        }
    }
    if v.dense() {
        assert(r.dense());
    }
}

/// A player who is not in the list is added to it while there is room. When that fills
/// the list, the cached minimum is fresh.
pub proof fn law_update_with_room(v: TopListView, user: Address, points: u64, now: u32)
    requires
        v.valid(),
        v.dense(),
        v.indexed(),
        v.count < MAX_TOP_PLAYERS,
        forall|i: u32| !v.holds(user, i),
    ensures
        ({
            let w = v.update(user, points, now).0;
            &&& w.valid() && w.dense() && w.indexed()
            &&& w.count == v.count + 1
            &&& updated(v, w, PlayerEntry { address: user, points, epoch: now }, None)
            &&& w.count == MAX_TOP_PLAYERS ==> w.min_is_fresh(now)
        }),
{
    law_lookup_keeps_the_list(v, user);
    if v.slot_of.contains_key(user) {
        assert(v.holds(user, v.slot_of[user]));
    }
    lemma_append(v, user, points, now);
    let e = PlayerEntry { address: user, points, epoch: now };
    let w = v.update(user, points, now).0;
    assert forall|x: PlayerEntry| #[trigger]
        w.lists(x) == (x == e || (v.lists(x) && x.address != user && Some(x.address)
            != None::<Address>)) by {
        if v.lists(x) {
            let i = choose|i: u32| #[trigger] v.stands(x, i);
            assert(!v.holds(user, i));
        }
    }
    if w.count == MAX_TOP_PLAYERS {
        let slot = v.count;
        let c = TopListView {
            count: (slot + 1) as u32,
            ..v.place(slot, e).stamp(slot)
        }.climb(e, slot, now, MAX_BUBBLE_STEPS as nat);
        assert(w == c.with_min(c.count, now));
        assert(c.at == w.at && c.count == w.count);
        assert(c.at.contains_key(0));
        law_refreshed_minimum_is_weakest(c, now);
    }
}

/// A newcomer to a full list who is worth less than the cached minimum changes
/// nothing; any other takes the place of the cached minimum, and of nobody else.
pub proof fn law_update_of_a_full_list(v: TopListView, user: Address, points: u64, now: u32)
    requires
        v.valid(),
        v.dense(),
        v.indexed(),
        v.count == MAX_TOP_PLAYERS,
        v.target() < v.count,
        forall|i: u32| !v.holds(user, i),
    ensures
        ({
            let m = v.at[v.target()];
            let w = v.update(user, points, now).0;
            &&& points < score(m, now) ==> w == v
            &&& points >= score(m, now) ==> {
                &&& w.valid() && w.dense() && w.indexed()
                &&& w.count == v.count
                &&& updated(
                    v,
                    w,
                    PlayerEntry { address: user, points, epoch: now },
                    Some(m.address),
                )
            }
        }),
{
    law_lookup_keeps_the_list(v, user);
    if v.slot_of.contains_key(user) {
        assert(v.holds(user, v.slot_of[user]));
    }
    let t = v.target();
    let m = v.at[t];
    assert(v.at.contains_key(t));
    if points >= score(m, now) {
        let e = PlayerEntry { address: user, points, epoch: now };
        let cleared = TopListView { slot_of: v.slot_of.remove(m.address), ..v };
        let g = cleared.place(t, e).stamp(t);
        lemma_replace(v, g, e, t, now);
        let c = g.climb(e, t, now, MAX_BUBBLE_STEPS as nat);
        lemma_with_min_frame(c, v.count, now);
        let w = v.update(user, points, now).0;
        assert(w == c.with_min(v.count, now));
        assert forall|x: PlayerEntry| #[trigger]
            w.lists(x) == (x == e || (v.lists(x) && x.address != user && Some(x.address)
                != Some(m.address))) by {
            if v.lists(x) {
                let i = choose|i: u32| #[trigger] v.stands(x, i);
                assert(!v.holds(user, i));
            }
        }
    }
}

/// Nothing has been written, or only the first setup has: the list is in order.
pub proof fn law_an_empty_list_is_valid(v: TopListView)
    requires
        v == TopListView::empty() || v == (TopListView {
            min_slot: Some(0),
            ..TopListView::empty()
        }),
    ensures
        v.valid(),
        v.dense(),
        v.indexed(),
{
}

/// Whatever has expired, an update leaves a valid list. No entry in it is new
/// but the player's, and the player has no other.
pub proof fn law_update_keeps_the_list_valid(v: TopListView, user: Address, points: u64, now: u32)
    requires
        v.valid(),
    ensures
        v.update(user, points, now).0.valid(),
        forall|x: PlayerEntry| #[trigger]
            v.update(user, points, now).0.lists(x) ==> x == (PlayerEntry {
                address: user,
                points,
                epoch: now,
            }) || (v.lists(x) && x.address != user),
{
    let e = PlayerEntry { address: user, points, epoch: now };
    law_lookup_keeps_the_list(v, user);
    if exists|i: u32| v.holds(user, i) {
        law_update_of_a_ranked_player(v, user, points, now);
    } else {
        let r = v.resolve(user).0;
        assert(forall|i: u32| r.holds(user, i) == v.holds(user, i));
        let a = if v.slot_of.contains_key(user) {
            r.repair(now)
        } else {
            r
        };
        if v.slot_of.contains_key(user) {
            law_repair_closes_gaps(r, now);
            lemma_absent_after_repair(r, user, now);
        }
        let b = if a.count < MAX_TOP_PLAYERS || a.at.contains_key(a.target()) {
            a
        } else {
            a.repair(now)
        };
        law_repair_closes_gaps(a, now);
        lemma_absent_after_repair(a, user, now);
        lemma_enter_valid(b, user, points, now);
        let w = v.update(user, points, now).0;
        assert forall|x: PlayerEntry| #[trigger] w.lists(x) implies x == e || (v.lists(x)
            && x.address != user) by {
            if x != e {
                assert(b.lists(x) && x.address != user);
                assert(a.lists(x));
                assert(r.lists(x));
                let i = choose|i: u32| #[trigger] r.stands(x, i);
                assert(v.stands(x, i));
            }
        }
    }
}

pub(crate) proof fn lemma_absent_after_repair(v: TopListView, user: Address, now: u32)
    requires
        v.valid(),
        forall|i: u32| !v.holds(user, i),
    ensures
        forall|i: u32| !v.repair(now).holds(user, i),
{
    law_repair_closes_gaps(v, now);
    let r = v.repair(now);
    assert forall|i: u32| !r.holds(user, i) by {
        if r.holds(user, i) {
            assert(r.stands(r.at[i], i));
            assert(r.lists(r.at[i]));
            let j = choose|j: u32| #[trigger] v.stands(r.at[i], j);
            assert(v.holds(user, j));
        }
    }
}

proof fn lemma_enter_valid(v: TopListView, user: Address, points: u64, now: u32)
    requires
        v.valid(),
        v.count < MAX_TOP_PLAYERS || v.at.contains_key(v.target()),
        forall|i: u32| !v.holds(user, i),
    ensures
        v.enter(user, points, now).0.valid(),
        forall|x: PlayerEntry| #[trigger]
            v.enter(user, points, now).0.lists(x) ==> x == (PlayerEntry {
                address: user,
                points,
                epoch: now,
            }) || (v.lists(x) && x.address != user),
{
    assert forall|x: PlayerEntry| #[trigger] v.lists(x) implies x.address != user by {
        let i = choose|i: u32| #[trigger] v.stands(x, i);
        assert(!v.holds(user, i));
    }
    if v.count < MAX_TOP_PLAYERS {
        lemma_append(v, user, points, now);
    } else if v.displaces(points, now) {
        let t = v.target();
        let m = v.at[t];
        let e = PlayerEntry { address: user, points, epoch: now };
        let cleared = TopListView { slot_of: v.slot_of.remove(m.address), ..v };
        let g = cleared.place(t, e).stamp(t);
        let c = g.climb(e, t, now, MAX_BUBBLE_STEPS as nat);
        lemma_replace(v, g, e, t, now);
        lemma_with_min_frame(c, v.count, now);
    }
}

/// A newcomer who gets into a full list whose cached minimum is fresh displaces
/// a weakest entry, and among the weakest the one that has stood there longest.
pub proof fn law_the_oldest_weakest_is_displaced(
    v: TopListView,
    user: Address,
    points: u64,
    now: u32,
)
    requires
        v.valid(),
        v.dense(),
        v.indexed(),
        v.count == MAX_TOP_PLAYERS,
        v.min_is_fresh(now),
        forall|i: u32| !v.holds(user, i),
        points >= score(v.at[v.target()], now),
    ensures
        ({
            let m = v.at[v.target()];
            let w = v.update(user, points, now).0;
            &&& !w.lists(m)
            &&& w.lists(PlayerEntry { address: user, points, epoch: now })
            &&& forall|i: u32|
                i < v.count && i != v.target() ==> {
                    &&& w.lists(#[trigger] v.at[i])
                    &&& score(m, now) <= score(v.at[i], now)
                    &&& score(m, now) == score(v.at[i], now) ==> v.seq(v.target()) <= v.seq(i)
                }
        }),
{
    law_update_of_a_full_list(v, user, points, now);
    let t = v.target();
    let m = v.at[t];
    let w = v.update(user, points, now).0;
    assert(!v.holds(user, t));
    assert(m.address != user);
    assert forall|i: u32| i < v.count && i != t implies {
        &&& w.lists(#[trigger] v.at[i])
        &&& score(m, now) <= score(v.at[i], now)
        &&& score(m, now) == score(v.at[i], now) ==> v.seq(t) <= v.seq(i)
    } by {
        assert(v.at.contains_key(i));
        assert(v.stands(v.at[i], i));
        assert(!v.holds(user, i));
        if i < t {
            assert(v.at[i].address != v.at[t].address);
        } else {
            assert(v.at[t].address != v.at[i].address);
        }
    }
}

/// After a displacement the cached minimum is fresh.
pub proof fn law_a_displacement_refreshes_the_minimum(
    v: TopListView,
    user: Address,
    points: u64,
    now: u32,
)
    requires
        v.valid(),
        v.dense(),
        v.indexed(),
        v.count == MAX_TOP_PLAYERS,
        forall|i: u32| !v.holds(user, i),
        points >= score(v.at[v.target()], now),
    ensures
        v.update(user, points, now).0.min_is_fresh(now),
{
    law_update_of_a_full_list(v, user, points, now);
    law_lookup_keeps_the_list(v, user);
    if v.slot_of.contains_key(user) {
        assert(v.holds(user, v.slot_of[user]));
    }
    let t = v.target();
    let e = PlayerEntry { address: user, points, epoch: now };
    let cleared = TopListView { slot_of: v.slot_of.remove(v.at[t].address), ..v };
    let g = cleared.place(t, e).stamp(t);
    assert(v.at.contains_key(t));
    lemma_replace(v, g, e, t, now);
    let c = g.climb(e, t, now, MAX_BUBBLE_STEPS as nat);
    assert(v.update(user, points, now).0 == c.with_min(c.count, now));
    assert(c.dense());
    assert(c.at.contains_key(0));
    law_refreshed_minimum_is_weakest(c, now);
}

/// A ranked player's new entry, written into the player's slot, leaves the list valid, and
/// what the update makes of it differs by a climb and perhaps a new minimum.
pub(crate) proof fn lemma_rewritten(v: TopListView, e: PlayerEntry, slot: u32)
    requires
        v.valid(),
        v.holds(e.address, slot),
    ensures
        ({
            let g = v.resolve(e.address).0.place(slot, e);
            let c = g.climb(e, slot, e.epoch, MAX_BUBBLE_STEPS as nat);
            let w = v.update(e.address, e.points, e.epoch).0;
            &&& g.valid()
            &&& g.stands(e, slot)
            &&& g.count == v.count
            &&& g.at == v.at.insert(slot, e)
            &&& g.seq_at == v.seq_at
            &&& g.seq_counter == v.seq_counter
            &&& w.at == c.at
            &&& w.seq_at == c.seq_at
            &&& w.seq_counter == c.seq_counter
            &&& w.count == c.count
        }),
{
    law_lookup_keeps_the_list(v, e.address);
    lemma_found_slot(v, e.address, slot);
    let g = v.resolve(e.address).0.place(slot, e);
    assert forall|i: u32, j: u32|
        i < j < g.count && g.at.contains_key(i) && g.at.contains_key(j) implies (
    #[trigger] g.at[i]).address != (#[trigger] g.at[j]).address by {
        assert(v.at.contains_key(i) && v.at.contains_key(j));
        assert(v.at[i].address != v.at[j].address);
    }
    assert(g.stands(e, slot));
}

/// A fresh cached minimum stays fresh when a ranked player's score is updated, be it
/// the weakest player or another: one who is neither the weakest nor the last must not
/// become the weakest by it.
pub proof fn law_ranked_updates_keep_the_minimum_fresh(
    v: TopListView,
    user: Address,
    points: u64,
    slot: u32,
    now: u32,
)
    requires
        v.valid(),
        v.min_is_fresh(now),
        v.min_slot is Some,
        v.holds(user, slot),
        ({
            let m = score(v.at[v.target()], now);
            ||| slot == v.target()
            ||| slot + 1 == v.count
            ||| m < points
            ||| m == points && v.seq(v.target()) <= v.seq(slot)
        }),
    ensures
        v.update(user, points, now).0.min_is_fresh(now),
{
    law_lookup_keeps_the_list(v, user);
    let r = v.resolve(user).0;
    let e = PlayerEntry { address: user, points, epoch: now };
    let g = r.place(slot, e);
    let t = v.target();
    lemma_found_slot(v, user, slot);
    assert(g.slot_of =~= r.slot_of.remove(r.at[slot].address).insert(user, slot));
    assert forall|i: u32| i != slot implies !r.holds(user, i) by {
        assert(!v.holds(user, i));
    }
    lemma_replace(r, g, e, slot, now);
    lemma_rewritten(v, e, slot);
    law_climb_rearranges(g, e, slot, now, MAX_BUBBLE_STEPS as nat);
    let c = g.climb(e, slot, now, MAX_BUBBLE_STEPS as nat);
    if slot == t || slot == c.target() || slot + 1 == v.count {
        assert(g.at.dom().contains(slot));
        assert(c.at.contains_key(slot));
        law_refreshed_minimum_is_weakest(c, now);
    } else {
        lemma_minimum_stays(v, g, c, e, slot, now);
    }
}

/// An entry that is not the cached minimum, and is not weaker than it when rewritten,
/// does not change which entry is the weakest.
proof fn lemma_minimum_stays(
    v: TopListView,
    g: TopListView,
    c: TopListView,
    e: PlayerEntry,
    slot: u32,
    now: u32,
)
    requires
        v.min_is_fresh(now),
        v.min_slot is Some,
        slot < v.count,
        v.at.contains_key(slot),
        slot != v.target(),
        e.epoch == now,
        ({
            let m = score(v.at[v.target()], now);
            m < e.points || (m == e.points && v.seq(v.target()) <= v.seq(slot))
        }),
        g.count == v.count,
        g.at == v.at.insert(slot, e),
        g.seq_at == v.seq_at,
        g.min_slot == v.min_slot,
        c.count == g.count,
        c.valid(),
        g.carried_to(c),
        forall|x: PlayerEntry| #[trigger] c.lists(x) == g.lists(x),
    ensures
        c.min_is_fresh(now),
{
    let t = v.target();
    let m = v.at[t];
    assert(g.stands(g.at[t], t));
    let k = choose|k: u32| g.carried_at(c, t, k);
    assert(c.min_slot == Some(k) && c.at[k] == m && c.seq(k) == v.seq(t));
    assert(score(e, now) == e.points) by {
        assert(score(e, now) == fade(e.points as int, 0));
    }
    assert forall|i: u32| i < c.count && c.at.contains_key(i) implies {
        ||| score(m, now) < score(#[trigger] c.at[i], now)
        ||| score(m, now) == score(c.at[i], now) && c.seq(k) <= c.seq(i)
    } by {
        assert(c.stands(c.at[i], i));
        assert(c.lists(c.at[i]) == g.lists(c.at[i]));
        let j = choose|j: u32| #[trigger] g.stands(c.at[i], j);
        assert(g.stands(g.at[j], j));
        let n = choose|n: u32| g.carried_at(c, j, n);
        assert(n == i) by {
            if n < i {
                assert(c.at[n].address != c.at[i].address);
            } else if i < n {
                assert(c.at[i].address != c.at[n].address);
            }
        }
        assert(g.seq(j) == v.seq(j));
        assert(v.at.contains_key(j));
        assert(score(m, now) < score(v.at[j], now) || (score(m, now) == score(v.at[j], now)
            && v.seq(t) <= v.seq(j)));
        if j == slot {
            assert(c.at[i] == e);
        } else {
            assert(c.at[i] == v.at[j]);
        }
    }
}

} // verus!
