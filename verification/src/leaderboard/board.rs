//! The list of the best players: slots that hold entries, a reverse lookup from
//! players to slots, insertion sequence numbers for breaking ties, and a cached
//! pointer to the weakest entry.
//!
//! Stored entries can expire one by one, so a slot may be empty although later
//! ones are not, and a reverse lookup may point at nothing. Every operation
//! copes with that.

use crate::env::{Address, Env};
use crate::leaderboard::decay::{entry_points_now, score};
use crate::leaderboard::types::{
    bump, bump_instance, emit_bump, emit_bump_instance, DataKey, Effect, PlayerEntry,
    MAX_BUBBLE_STEPS, MAX_TOP_PLAYERS,
};
use crate::table::Table;
use vstd::prelude::*;

verus! {

/// The top list as stored.
pub struct TopList {
    /// Slots `0 .. count` are in use.
    pub count: u32,
    pub at: Table<u32, PlayerEntry>,
    pub slot_of: Table<Address, u32>,
    pub seq_at: Table<u32, u64>,
    /// The last sequence number given out.
    pub seq_counter: u64,
    pub min_points: u64,
    pub min_slot: Option<u32>,
}

/// The contents of the top list.
#[verifier::ext_equal]
pub struct TopListView {
    pub count: u32,
    pub at: Map<u32, PlayerEntry>,
    pub slot_of: Map<Address, u32>,
    pub seq_at: Map<u32, u64>,
    pub seq_counter: u64,
    pub min_points: u64,
    pub min_slot: Option<u32>,
}

impl View for TopList {
    type V = TopListView;

    open spec fn view(&self) -> TopListView {
        TopListView {
            count: self.count,
            at: self.at@,
            slot_of: self.slot_of@,
            seq_at: self.seq_at@,
            seq_counter: self.seq_counter,
            min_points: self.min_points,
            min_slot: self.min_slot,
        }
    }
}

/// The extensions that go with writing an entry into a slot.
pub open spec fn place_fx(slot: u32, e: PlayerEntry) -> Seq<Effect> {
    seq![bump(DataKey::TopPlayerAt(slot)), bump(DataKey::TopPlayerSlot(e.address))]
}

impl TopListView {
    /// The list before anything was written.
    pub open spec fn empty() -> Self {
        TopListView {
            count: 0,
            at: Map::empty(),
            slot_of: Map::empty(),
            seq_at: Map::empty(),
            seq_counter: 0,
            min_points: 0,
            min_slot: None,
        }
    }

    /// The sequence number of a slot.
    pub open spec fn seq(self, slot: u32) -> u64 {
        match self.seq_at.get(slot) {
            Some(q) => q,
            None => 0,
        }
    }

    /// `user` stands in `slot`.
    pub open spec fn holds(self, user: Address, slot: u32) -> bool {
        slot < self.count && self.at.contains_key(slot) && self.at[slot].address == user
    }

    /// `slot` is the first in which `user` stands.
    pub open spec fn first_holds(self, user: Address, slot: u32) -> bool {
        self.holds(user, slot) && forall|i: u32| i < slot ==> !self.holds(user, i)
    }

    /// The first slot in which `user` stands.
    pub open spec fn first_slot(self, user: Address) -> Option<u32> {
        if exists|i: u32| self.first_holds(user, i) {
            Some(choose|i: u32| self.first_holds(user, i))
        } else {
            None
        }
    }

    /// Entry and reverse lookup written together.
    pub open spec fn place(self, slot: u32, e: PlayerEntry) -> Self {
        TopListView {
            at: self.at.insert(slot, e),
            slot_of: self.slot_of.insert(e.address, slot),
            ..self
        }
    }

    /// Does the reverse lookup of `user` point at the user's entry?
    pub open spec fn lookup_is_good(self, user: Address) -> bool {
        self.slot_of.contains_key(user) && self.holds(user, self.slot_of[user])
    }

    /// The slot of `user`. A reverse lookup that points elsewhere is dropped, and
    /// one that is missing is rebuilt from the entries.
    pub open spec fn resolve(self, user: Address) -> (Self, Option<u32>, Seq<Effect>) {
        if self.lookup_is_good(user) {
            (self, Some(self.slot_of[user]), Seq::empty())
        } else {
            let dropped = TopListView { slot_of: self.slot_of.remove(user), ..self };
            match self.first_slot(user) {
                Some(i) => (dropped.place(i, self.at[i]), Some(i), place_fx(i, self.at[i])),
                None => (dropped, None, Seq::empty()),
            }
        }
    }

    /// Is `e`, in `slot`, worth more than the entry in the slot before it?
    pub open spec fn overtakes(self, e: PlayerEntry, slot: u32, now: u32) -> bool {
        slot > 0 && self.at.contains_key((slot - 1) as u32) && score(
            self.at[(slot - 1) as u32],
            now,
        ) < score(e, now)
    }

    /// `e`, in `slot`, trades places with the entry in the slot before it.
    /// Sequence numbers and the cached minimum stay with the players.
    pub open spec fn swap_up(self, e: PlayerEntry, slot: u32) -> Self {
        let up = (slot - 1) as u32;
        let prev = self.at[up];
        let cached = self.min_slot.unwrap_or(slot);
        TopListView {
            at: self.at.insert(up, e).insert(slot, prev),
            slot_of: self.slot_of.insert(e.address, up).insert(prev.address, slot),
            seq_at: self.seq_at.insert(up, self.seq(slot)).insert(slot, self.seq(up)),
            min_slot: if slot == cached {
                Some(up)
            } else if up == cached {
                Some(slot)
            } else {
                self.min_slot
            },
            ..self
        }
    }

    /// `e`, in `slot`, climbs past weaker entries, at most `steps` of them.
    pub open spec fn climb(self, e: PlayerEntry, slot: u32, now: u32, steps: nat) -> Self
        decreases steps,
    {
        if steps > 0 && self.overtakes(e, slot, now) {
            self.swap_up(e, slot).climb(e, (slot - 1) as u32, now, (steps - 1) as nat)
        } else {
            self
        }
    }

    /// The slot gets the next sequence number.
    pub open spec fn stamp(self, slot: u32) -> Self {
        TopListView {
            seq_counter: (self.seq_counter + 1) as u64,
            seq_at: self.seq_at.insert(slot, (self.seq_counter + 1) as u64),
            ..self
        }
    }

    /// The score and the slot of the weakest entry in slots `0 .. n`: the lowest
    /// score, and among equal scores the lowest sequence number.
    pub open spec fn weakest(self, n: nat, now: u32) -> (u64, u32)
        decreases n,
    {
        if n == 0 {
            (u64::MAX, 0)
        } else {
            let (pts, slot) = self.weakest((n - 1) as nat, now);
            let i = (n - 1) as u32;
            if !self.at.contains_key(i) {
                (pts, slot)
            } else if score(self.at[i], now) < pts || !self.at.contains_key(slot) {
                (score(self.at[i], now) as u64, i)
            } else if score(self.at[i], now) == pts && self.seq(i) < self.seq(slot) {
                (pts, i)
            } else {
                (pts, slot)
            }
        }
    }

    /// The cached minimum recomputed over slots `0 .. n`.
    pub open spec fn with_min(self, n: u32, now: u32) -> Self {
        if n == 0 {
            TopListView { min_points: 0, min_slot: Some(0), ..self }
        } else {
            let (pts, slot) = self.weakest(n as nat, now);
            TopListView { min_points: pts, min_slot: Some(slot), ..self }
        }
    }

    /// A new entry is appended in `slot` and climbs.
    pub open spec fn append(self, user: Address, points: u64, slot: u32, now: u32) -> Self {
        let e = PlayerEntry { address: user, points, epoch: now };
        let grown = TopListView {
            count: (slot + 1) as u32,
            ..self.place(slot, e).stamp(slot)
        }.climb(e, slot, now, MAX_BUBBLE_STEPS as nat);
        if slot + 1 == MAX_TOP_PLAYERS {
            grown.with_min(grown.count, now)
        } else {
            grown
        }
    }

    /// The entries of slots `0 .. n` moved down over the empty ones among them, with
    /// their sequence numbers, and each with its reverse lookup written anew: the
    /// list, the number of entries found, and the extensions.
    pub open spec fn compact(self, n: nat) -> (Self, u32, Seq<Effect>)
        decreases n,
    {
        if n == 0 {
            (self, 0, Seq::empty())
        } else {
            let (v, write, fx) = self.compact((n - 1) as nat);
            let read = (n - 1) as u32;
            if !v.at.contains_key(read) {
                (v, write, fx)
            } else {
                let e = v.at[read];
                let placed = v.place(write, e);
                (
                    if write == read {
                        placed
                    } else {
                        TopListView {
                            at: placed.at.remove(read),
                            seq_at: placed.seq_at.insert(write, v.seq(read)).remove(read),
                            ..placed
                        }
                    },
                    (write + 1) as u32,
                    fx + place_fx(write, e),
                )
            }
        }
    }

    /// The list without its empty slots, and with a fresh minimum.
    pub open spec fn repair(self, now: u32) -> Self {
        let (v, write, _) = self.compact(self.count as nat);
        TopListView { count: write, ..v }.with_min(write, now)
    }

    /// The extensions that go with `repair`.
    pub open spec fn repair_fx(self) -> Seq<Effect> {
        self.compact(self.count as nat).2.push(bump_instance())
    }

    /// A ranked player's entry is rewritten in its slot and climbs. The cached minimum
    /// is recomputed if it stood in that slot before, if it stands there after the
    /// climb, or if the slot is the last.
    pub open spec fn rewrite(self, user: Address, points: u64, slot: u32, now: u32) -> Self {
        let e = PlayerEntry { address: user, points, epoch: now };
        let v = self.place(slot, e).climb(e, slot, now, MAX_BUBBLE_STEPS as nat);
        if slot == self.target() || slot == v.target() || slot + 1 == self.count {
            v.with_min(self.count, now)
        } else {
            v
        }
    }

    /// The slot of the entry that a newcomer to a full list competes with.
    pub open spec fn target(self) -> u32 {
        self.min_slot.unwrap_or(0)
    }

    /// Is a newcomer with `points` worth at least as much as the cached minimum?
    pub open spec fn displaces(self, points: u64, now: u32) -> bool {
        points >= score(self.at[self.target()], now)
    }

    /// A newcomer takes the place of the cached minimum and climbs. The cached minimum is
    /// the oldest of the weakest as of the epoch in which it was last recomputed. That
    /// the oldest of those that tie at the minimum leaves is certain only within that
    /// epoch: later on, rounding can make two scores equal, and a score that has gone
    /// stale can fall below the cached one, without the cache being recomputed.
    pub open spec fn displace(self, user: Address, points: u64, now: u32) -> Self {
        let m = self.target();
        let e = PlayerEntry { address: user, points, epoch: now };
        let cleared = TopListView { slot_of: self.slot_of.remove(self.at[m].address), ..self };
        cleared.place(m, e).stamp(m).climb(e, m, now, MAX_BUBBLE_STEPS as nat).with_min(
            self.count,
            now,
        )
    }

    /// Does a newcomer with `points` get into the list?
    pub open spec fn admits(self, points: u64, now: u32) -> bool {
        self.count < MAX_TOP_PLAYERS || self.displaces(points, now)
    }

    /// A player who is not in the list competes for a place in it.
    pub open spec fn enter(self, user: Address, points: u64, now: u32) -> (Self, Seq<Effect>) {
        let e = PlayerEntry { address: user, points, epoch: now };
        if self.count < MAX_TOP_PLAYERS {
            (
                self.append(user, points, self.count, now),
                place_fx(self.count, e).push(bump(DataKey::TopPlayerSeqAt(self.count))),
            )
        } else if self.displaces(points, now) {
            (
                self.displace(user, points, now),
                place_fx(self.target(), e).push(bump(DataKey::TopPlayerSeqAt(self.target()))),
            )
        } else {
            (self, Seq::empty())
        }
    }

    /// The list that a newcomer competes for a place in. It is repaired first if the
    /// newcomer's own lookup was stale, or if it is full and the entry to compete
    /// with has expired.
    pub open spec fn readied(self, now: u32, stale: bool) -> Self {
        let v = if stale {
            self.repair(now)
        } else {
            self
        };
        if v.count < MAX_TOP_PLAYERS || v.at.contains_key(v.target()) {
            v
        } else {
            v.repair(now)
        }
    }

    /// The extensions that go with `readied`.
    pub open spec fn readied_fx(self, now: u32, stale: bool) -> Seq<Effect> {
        let v = if stale {
            self.repair(now)
        } else {
            self
        };
        (if stale {
            self.repair_fx()
        } else {
            Seq::empty()
        }) + (if v.count < MAX_TOP_PLAYERS || v.at.contains_key(v.target()) {
            Seq::empty()
        } else {
            v.repair_fx()
        })
    }

    /// A player who was not found in the list competes for a place in it.
    pub open spec fn join(self, user: Address, points: u64, now: u32, stale: bool) -> (
        Self,
        Seq<Effect>,
    ) {
        let (w, fx) = self.readied(now, stale).enter(user, points, now);
        (w, self.readied_fx(now, stale) + fx)
    }

    /// The list after `user` has reached `points` in epoch `now`, with the
    /// extensions that this asks for.
    pub open spec fn update(self, user: Address, points: u64, now: u32) -> (Self, Seq<Effect>) {
        let (v, found, fx) = self.resolve(user);
        match found {
            Some(slot) => (
                v.rewrite(user, points, slot, now),
                fx + place_fx(slot, PlayerEntry { address: user, points, epoch: now }),
            ),
            None => v.join(user, points, now, self.slot_of.contains_key(user)),
        }
    }

    /// Is there a sequence number left, if `update` needs one?
    pub open spec fn update_fits(self, user: Address, points: u64, now: u32) -> bool {
        let (v, found, _) = self.resolve(user);
        found is None && v.readied(now, self.slot_of.contains_key(user)).admits(points, now)
            ==> self.seq_counter < u64::MAX
    }
}

/// A slot that holds the player, with none before it that does, is the first.
proof fn lemma_first_slot(v: TopListView, user: Address, slot: u32)
    requires
        v.first_holds(user, slot),
    ensures
        v.first_slot(user) == Some(slot),
{
    let c = choose|i: u32| v.first_holds(user, i);
    assert(v.first_holds(user, c));
    if c < slot {
        assert(v.holds(user, c));
    } else if slot < c {
        assert(v.holds(user, slot));
    }
}

/// The weakest slot is slot zero or one of the slots looked at.
pub proof fn lemma_weakest_slot(v: TopListView, n: nat, now: u32)
    requires
        n <= u32::MAX,
    ensures
        v.weakest(n, now).1 == 0 || v.weakest(n, now).1 < n,
    decreases n,
{
    if n > 0 {
        lemma_weakest_slot(v, (n - 1) as nat, now);
    }
}

impl TopList {
    /// The list before anything was written.
    pub fn new() -> (t: Self)
        ensures
            t@ == TopListView::empty(),
    {
        TopList {
            count: 0,
            at: Table::new(),
            slot_of: Table::new(),
            seq_at: Table::new(),
            seq_counter: 0,
            min_points: 0,
            min_slot: None,
        }
    }

    fn seq(&self, slot: u32) -> (q: u64)
        ensures
            q == self@.seq(slot),
    {
        match self.seq_at.copied(&slot) {
            Some(q) => q,
            None => 0,
        }
    }

    /// Writes an entry and its reverse lookup together.
    fn set_top_slot(&mut self, env: &mut Env<Effect>, slot: u32, e: PlayerEntry)
        ensures
            final(self)@ == old(self)@.place(slot, e),
            final(env).adds(*old(env), place_fx(slot, e)),
    {
        self.at.set(slot, e);
        emit_bump(env, DataKey::TopPlayerAt(slot));
        self.slot_of.set(e.address, slot);
        emit_bump(env, DataKey::TopPlayerSlot(e.address));
        assert(env.effects@ =~= old(env).effects@ + place_fx(slot, e));
    }

    /// The slot of `user`. A reverse lookup that points elsewhere is dropped, and
    /// one that is missing is rebuilt from the entries.
    pub fn resolved_slot(&mut self, env: &mut Env<Effect>, user: &Address) -> (r: Option<u32>)
        ensures
            final(self)@ == old(self)@.resolve(*user).0,
            r == old(self)@.resolve(*user).1,
            final(env).adds(*old(env), old(self)@.resolve(*user).2),
    {
        let ghost v = self@;
        let ghost before = env.effects@;
        if let Some(slot) = self.slot_of.copied(user) {
            if let Some(entry) = self.at.copied(&slot) {
                if entry.address == *user && slot < self.count {
                    assert(env.effects@ =~= before + Seq::<Effect>::empty());
                    return Some(slot);
                }
            }
        }
        self.slot_of.remove(user);
        let mut i: u32 = 0;
        while i < self.count
            invariant
                i <= self.count,
                !v.lookup_is_good(*user),
                self@ == (TopListView { slot_of: v.slot_of.remove(*user), ..v }),
                forall|j: u32| j < i ==> !v.holds(*user, j),
                env.ledger == old(env).ledger,
                env.effects@ == before,
                v == old(self)@,
                before == old(env).effects@,
            decreases self.count - i,
        {
            if let Some(entry) = self.at.copied(&i) {
                if entry.address == *user {
                    proof {
                        assert(v.first_holds(*user, i));
                        lemma_first_slot(v, *user, i);
                    }
                    self.set_top_slot(env, i, entry);
                    return Some(i);
                }
            }
            i = i + 1;
        }
        assert(v.first_slot(*user) is None) by {
            if exists|k: u32| v.first_holds(*user, k) {
                let k = choose|k: u32| v.first_holds(*user, k);
                assert(v.holds(*user, k));
            }
        }
        assert(env.effects@ =~= before + Seq::<Effect>::empty());
        None
    }

    /// Lets the entry in `slot` climb past weaker ones.
    fn bubble_up(&mut self, e: &PlayerEntry, start: u32, now: u32)
        ensures
            final(self)@ == old(self)@.climb(*e, start, now, MAX_BUBBLE_STEPS as nat),
    {
        let mut slot: u32 = start;
        let mut steps: u32 = 0;
        let mine: u64 = entry_points_now(e, now);
        let mut climbing: bool = true;
        while climbing && slot > 0 && steps < MAX_BUBBLE_STEPS
            invariant
                steps <= MAX_BUBBLE_STEPS,
                mine == score(*e, now),
                climbing ==> self@.climb(*e, slot, now, (MAX_BUBBLE_STEPS - steps) as nat)
                    == old(self)@.climb(*e, start, now, MAX_BUBBLE_STEPS as nat),
                !climbing ==> self@ == old(self)@.climb(*e, start, now, MAX_BUBBLE_STEPS as nat),
            decreases MAX_BUBBLE_STEPS - steps,
        {
            let ghost v = self@;
            steps = steps + 1;
            let up: u32 = slot - 1;
            match self.at.copied(&up) {
                Some(prev) if entry_points_now(&prev, now) < mine => {
                    self.at.set(up, *e);
                    self.at.set(slot, prev);
                    self.slot_of.set(e.address, up);
                    self.slot_of.set(prev.address, slot);
                    let seq_hi: u64 = self.seq(up);
                    let seq_lo: u64 = self.seq(slot);
                    self.seq_at.set(up, seq_lo);
                    self.seq_at.set(slot, seq_hi);
                    let cached: u32 = self.min_slot.unwrap_or(slot);
                    if slot == cached {
                        self.min_slot = Some(up);
                    } else if up == cached {
                        self.min_slot = Some(slot);
                    }
                    assert(self@ == v.swap_up(*e, slot));
                    slot = up;
                },
                _ => {
                    climbing = false;
                },
            }
        }
    }

    /// Gives the slot the next sequence number.
    fn stamp_seq(&mut self, env: &mut Env<Effect>, slot: u32)
        requires
            old(self).seq_counter < u64::MAX,
        ensures
            final(self)@ == old(self)@.stamp(slot),
            final(env).adds(*old(env), seq![bump(DataKey::TopPlayerSeqAt(slot))]),
    {
        self.seq_counter = self.seq_counter + 1;
        self.seq_at.set(slot, self.seq_counter);
        emit_bump(env, DataKey::TopPlayerSeqAt(slot));
    }

    /// Recomputes the cached minimum over slots `0 .. n`.
    fn refresh_min(&mut self, n: u32, now: u32)
        ensures
            final(self)@ == old(self)@.with_min(n, now),
    {
        if n == 0 {
            self.min_points = 0;
            self.min_slot = Some(0);
            return;
        }
        let mut min_points: u64 = u64::MAX;
        let mut min_slot: u32 = 0;
        let mut i: u32 = 0;
        while i < n
            invariant
                i <= n,
                (min_points, min_slot) == self@.weakest(i as nat, now),
                self@ == old(self)@,
            decreases n - i,
        {
            if let Some(e) = self.at.copied(&i) {
                let points: u64 = entry_points_now(&e, now);
                if points < min_points || !self.at.has(&min_slot) {
                    min_points = points;
                    min_slot = i;
                } else if points == min_points && self.seq(i) < self.seq(min_slot) {
                    min_slot = i;
                }
            }
            i = i + 1;
        }
        self.min_points = min_points;
        self.min_slot = Some(min_slot);
    }

    /// Appends a new entry in `slot`.
    fn insert_new(
        &mut self,
        env: &mut Env<Effect>,
        user: &Address,
        points: u64,
        slot: u32,
        now: u32,
    )
        requires
            old(self).seq_counter < u64::MAX,
            slot < MAX_TOP_PLAYERS,
        ensures
            final(self)@ == old(self)@.append(*user, points, slot, now),
            final(env).adds(
                *old(env),
                place_fx(slot, PlayerEntry { address: *user, points, epoch: now }).push(
                    bump(DataKey::TopPlayerSeqAt(slot)),
                ),
            ),
    {
        let e = PlayerEntry { address: *user, points, epoch: now };
        let ghost before = env.effects@;
        self.set_top_slot(env, slot, e);
        self.stamp_seq(env, slot);
        assert(env.effects@ =~= before + place_fx(slot, e).push(
            bump(DataKey::TopPlayerSeqAt(slot)),
        ));
        self.count = slot + 1;
        self.bubble_up(&e, slot, now);
        if slot + 1 == MAX_TOP_PLAYERS {
            self.refresh_min(self.count, now);
        }
    }

    /// Moves the entries over the empty slots among them, writes every reverse lookup
    /// anew and recomputes the cached minimum. Returns the number of entries.
    pub fn repair_top_index(&mut self, env: &mut Env<Effect>, now: u32) -> (r: u32)
        ensures
            final(self)@ == old(self)@.repair(now),
            r == final(self)@.count,
            final(env).adds(*old(env), old(self)@.repair_fx()),
    {
        let ghost v = self@;
        let ghost before = env.effects@;
        let count: u32 = self.count;
        let mut write: u32 = 0;
        let mut read: u32 = 0;
        assert(env.effects@ =~= before + v.compact(0).2);
        while read < count
            invariant
                read <= count,
                write <= read,
                v == old(self)@,
                before == old(env).effects@,
                count == v.count,
                (self@, write) == (v.compact(read as nat).0, v.compact(read as nat).1),
                env.ledger == old(env).ledger,
                env.effects@ == before + v.compact(read as nat).2,
            decreases count - read,
        {
            if let Some(e) = self.at.copied(&read) {
                let seq: u64 = self.seq(read);
                self.set_top_slot(env, write, e);
                if write != read {
                    self.at.remove(&read);
                    self.seq_at.set(write, seq);
                    self.seq_at.remove(&read);
                }
                write = write + 1;
                assert(env.effects@ =~= before + v.compact((read + 1) as nat).2);
            }
            read = read + 1;
        }
        self.count = write;
        self.refresh_min(write, now);
        emit_bump_instance(env);
        assert(env.effects@ =~= before + v.repair_fx());
        write
    }

    /// Lets a player who is not in the list compete for a place in it.
    fn enter(&mut self, env: &mut Env<Effect>, user: &Address, points: u64, now: u32)
        requires
            old(self)@.admits(points, now) ==> old(self).seq_counter < u64::MAX,
            old(self)@.count < MAX_TOP_PLAYERS || old(self)@.at.contains_key(old(self)@.target()),
        ensures
            final(self)@ == old(self)@.enter(*user, points, now).0,
            final(env).adds(*old(env), old(self)@.enter(*user, points, now).1),
    {
        let ghost v = self@;
        let ghost before = env.effects@;
        if self.count < MAX_TOP_PLAYERS {
            let slot: u32 = self.count;
            self.insert_new(env, user, points, slot, now);
            return;
        }
        let target: u32 = self.min_slot.unwrap_or(0);
        if let Some(weakest) = self.at.copied(&target) {
            if points < entry_points_now(&weakest, now) {
                assert(env.effects@ =~= before + Seq::<Effect>::empty());
                return;
            }
            self.slot_of.remove(&weakest.address);
            self.at.remove(&target);
            let e = PlayerEntry { address: *user, points, epoch: now };
            self.set_top_slot(env, target, e);
            assert(self@ == (TopListView {
                slot_of: v.slot_of.remove(weakest.address),
                ..v
            }).place(target, e));
            self.stamp_seq(env, target);
            self.bubble_up(&e, target, now);
            let count: u32 = self.count;
            proof {
                lemma_climb_keeps_count(
                    (TopListView { slot_of: v.slot_of.remove(weakest.address), ..v }).place(
                        target,
                        e,
                    ).stamp(target),
                    e,
                    target,
                    now,
                    MAX_BUBBLE_STEPS as nat,
                );
            }
            self.refresh_min(count, now);
            assert(env.effects@ =~= before + place_fx(target, e).push(
                bump(DataKey::TopPlayerSeqAt(target)),
            ));
        }
    }

    /// Records that `user` has reached `points` in epoch `now`.
    pub fn update_top_players(
        &mut self,
        env: &mut Env<Effect>,
        user: &Address,
        points: u64,
        now: u32,
    )
        requires
            old(self)@.update_fits(*user, points, now),
        ensures
            final(self)@ == old(self)@.update(*user, points, now).0,
            final(env).adds(*old(env), old(self)@.update(*user, points, now).1),
    {
        let ghost before = env.effects@;
        let count: u32 = self.count;
        let stale: bool = self.slot_of.has(user);
        let found = self.resolved_slot(env, user);
        let ghost v = self@;
        let ghost mid = env.effects@;
        if let Some(slot) = found {
            let e = PlayerEntry { address: *user, points, epoch: now };
            proof {
                assert(v.count == count && slot < count) by {
                    assert(old(self)@.resolve(*user).1 == Some(slot));
                    if !old(self)@.lookup_is_good(*user) {
                        let c = choose|i: u32| old(self)@.first_holds(*user, i);
                        assert(old(self)@.first_holds(*user, c));
                    }
                }
            }
            let cached: u32 = self.min_slot.unwrap_or(0);
            self.set_top_slot(env, slot, e);
            assert(env.effects@ =~= before + (old(self)@.resolve(*user).2 + place_fx(slot, e)));
            self.bubble_up(&e, slot, now);
            if slot == cached || slot == self.min_slot.unwrap_or(0) || slot + 1 == count {
                self.refresh_min(count, now);
            }
            return;
        }
        assert(mid =~= before);
        if stale {
            self.repair_top_index(env, now);
            proof {
                lemma_repair_counter(v, now);
            }
        }
        let ghost w = self@;
        let ghost fx = env.effects@;
        if self.count >= MAX_TOP_PLAYERS && !self.at.has(&self.min_slot.unwrap_or(0)) {
            self.repair_top_index(env, now);
            proof {
                lemma_repair_counter(w, now);
                lemma_repair_fills(w, now);
            }
        }
        assert(self@ == v.readied(now, stale));
        assert(self.seq_counter == v.seq_counter);
        self.enter(env, user, points, now);
        assert(env.effects@ =~= before + old(self)@.update(*user, points, now).1);
    }
}

/// Climbing changes neither the number of slots nor the sequence counter.
proof fn lemma_climb_keeps_count(v: TopListView, e: PlayerEntry, slot: u32, now: u32, steps: nat)
    ensures
        v.climb(e, slot, now, steps).count == v.count,
        v.climb(e, slot, now, steps).seq_counter == v.seq_counter,
    decreases steps,
{
    if steps > 0 && v.overtakes(e, slot, now) {
        lemma_climb_keeps_count(
            v.swap_up(e, slot),
            e,
            (slot - 1) as u32,
            now,
            (steps - 1) as nat,
        );
    }
}

/// Compaction gives out no sequence number.
proof fn lemma_compact_counter(v: TopListView, n: nat)
    ensures
        v.compact(n).0.seq_counter == v.seq_counter,
    decreases n,
{
    if n > 0 {
        lemma_compact_counter(v, (n - 1) as nat);
    }
}

proof fn lemma_repair_counter(v: TopListView, now: u32)
    ensures
        v.repair(now).seq_counter == v.seq_counter,
{
    lemma_compact_counter(v, v.count as nat);
}

/// What compaction does to the slots: those before the write position are
/// taken, those from there to the read position are empty, and the rest are as
/// they were.
pub proof fn lemma_compact_slots(v: TopListView, n: nat)
    requires
        n <= u32::MAX,
    ensures
        v.compact(n).1 <= n,
        forall|i: u32| i < v.compact(n).1 ==> #[trigger] v.compact(n).0.at.contains_key(i),
        forall|i: u32|
            v.compact(n).1 <= i < n ==> !(#[trigger] v.compact(n).0.at.contains_key(i)),
        forall|i: u32|
            n <= i ==> #[trigger] v.compact(n).0.at.contains_key(i) == v.at.contains_key(i),
        forall|i: u32| n <= i ==> #[trigger] v.compact(n).0.at[i] == v.at[i],
    decreases n,
{
    if n > 0 {
        lemma_compact_slots(v, (n - 1) as nat);
    }
}

/// After a repair every slot in use holds an entry, the cached one included.
proof fn lemma_repair_fills(v: TopListView, now: u32)
    ensures
        v.repair(now).count > 0 ==> v.repair(now).at.contains_key(v.repair(now).target()),
{
    lemma_compact_slots(v, v.count as nat);
    let (w, write, _) = v.compact(v.count as nat);
    let t = TopListView { count: write, ..w };
    lemma_weakest_slot(t, write as nat, now);
}

} // verus!
