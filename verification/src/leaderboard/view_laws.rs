//! What readers see of the top list.

use crate::env::Address;
use crate::leaderboard::board::TopListView;
use crate::leaderboard::contract::{lemma_first_max, lemma_ranking_len};
use crate::leaderboard::credit_laws::extension;
use crate::leaderboard::decay::{lemma_score_range, score};
use crate::leaderboard::list_laws::{law_lookup_keeps_the_list, lemma_filled, lemma_found_slot};
use crate::leaderboard::model::{clamp_page, first_max, page, ranking};
use crate::leaderboard::types::{DataKey, PlayerEntry};
use vstd::prelude::*;

verus! {

/// A page holds, from `offset` on, as many entries of the ranking as asked for, as a
/// page can hold, and as there are. A page as long as the list can be, from the start,
/// is the whole ranking.
pub proof fn law_a_page_is_cut_from_the_ranking(s: Seq<PlayerEntry>, offset: u32, page_size: u32)
    ensures
        ({
            let r = ranking(s, s.len());
            let p = page(r, offset as int, clamp_page(page_size));
            let rest = s.len() - offset;
            &&& r.len() == s.len()
            &&& rest <= 0 ==> p.len() == 0
            &&& rest > 0 ==> {
                &&& p.len() <= page_size && p.len() <= 50 && p.len() <= rest
                &&& p.len() == page_size || p.len() == 50 || p.len() == rest
            }
            &&& forall|k: int| 0 <= k < p.len() ==> #[trigger] p[k] == r[offset + k]
            &&& s.len() <= 50 && page_size >= 50 && offset == 0 ==> p == r
        }),
{
    lemma_ranking_len(s, s.len());
}

/// Pages that follow one another join up to a longer one.
pub proof fn law_pages_follow_one_another(s: Seq<PlayerEntry>, offset: u32, a: u32, b: u32)
    requires
        a + b <= 50,
        offset + a + b <= u32::MAX,
    ensures
        ({
            let r = ranking(s, s.len());
            page(r, offset as int, clamp_page(a)) + page(r, offset + a, clamp_page(b)) == page(
                r,
                offset as int,
                clamp_page((a + b) as u32),
            )
        }),
{
    let r = ranking(s, s.len());
    assert(page(r, offset as int, clamp_page(a)) + page(r, offset + a, clamp_page(b)) =~= page(
        r,
        offset as int,
        clamp_page((a + b) as u32),
    ));
}

/// The entries that are ranked are those of the slots that hold one, in slot order, each
/// with its score as of now.
pub proof fn law_every_entry_is_ranked(v: TopListView, n: nat, now: u32)
    requires
        n <= u32::MAX,
    ensures
        ({
            let s = v.current(n, now);
            &&& s.len() == v.filled(n)
            &&& forall|i: u32|
                i < n && #[trigger] v.at.contains_key(i) ==> {
                    let k = v.filled(i as nat) as int;
                    &&& 0 <= k < s.len()
                    &&& s[k].address == v.at[i].address
                    &&& s[k].points == score(v.at[i], now)
                    &&& s[k].epoch == now
                }
        }),
    decreases n,
{
    if n > 0 {
        law_every_entry_is_ranked(v, (n - 1) as nat, now);
        let last = (n - 1) as u32;
        if v.at.contains_key(last) {
            lemma_score_range(v.at[last].points, v.at[last].epoch, now);
        }
        assert forall|i: u32| i < n && #[trigger] v.at.contains_key(i) implies {
            let s = v.current(n, now);
            let k = v.filled(i as nat) as int;
            &&& 0 <= k < s.len()
            &&& s[k].address == v.at[i].address
            &&& s[k].points == score(v.at[i], now)
            &&& s[k].epoch == now
        } by {
            lemma_filled(v, i as nat, (n - 1) as nat);
        }
    }
}

/// The first place belongs to the first, in slot order, of those with the most points.
pub proof fn law_the_first_place(s: Seq<PlayerEntry>, n: nat)
    requires
        1 <= n <= s.len(),
    ensures
        exists|k: int|
            0 <= k < s.len() && ranking(s, n)[0] == #[trigger] s[k] && (forall|j: int|
                0 <= j < s.len() ==> (#[trigger] s[j]).points <= s[k].points && (j < k
                    ==> s[j].points < s[k].points)),
    decreases n,
{
    lemma_ranking_len(s, (n - 1) as nat);
    let t = ranking(s, (n - 1) as nat);
    let m = first_max(t, n - 1, t.len() as int);
    lemma_first_max(t, n - 1, t.len() as int);
    if n > 1 {
        law_the_first_place(s, (n - 1) as nat);
        assert(ranking(s, n)[0] == t[0]);
    } else {
        lemma_first_of_the_best(s, 0, s.len() as int);
        assert(t == s);
        assert(ranking(s, n)[0] == s[m]);
    }
}

proof fn lemma_first_of_the_best(s: Seq<PlayerEntry>, i: int, n: int)
    requires
        0 <= i < n <= s.len(),
    ensures
        ({
            let m = first_max(s, i, n);
            &&& i <= m < n
            &&& forall|j: int|
                i <= j < n ==> (#[trigger] s[j]).points <= s[m].points && (j < m ==> s[j].points
                    < s[m].points)
        }),
    decreases n - i,
{
    if n > i + 1 {
        lemma_first_of_the_best(s, i, n - 1);
    }
}

/// The slots whose entries are worth more than `mine`.
pub open spec fn better(v: TopListView, n: nat, mine: int, now: u32) -> Set<u32> {
    Set::new(|i: u32| i < n && v.at.contains_key(i) && score(v.at[i], now) > mine)
}

proof fn lemma_better(v: TopListView, n: nat, slot: u32, mine: int, now: u32)
    requires
        n <= u32::MAX,
        score(v.at[slot], now) <= mine,
    ensures
        better(v, n, mine, now).finite(),
        better(v, n, mine, now).len() == v.ahead(n, slot, mine, now),
    decreases n,
{
    let all = better(v, n, mine, now);
    if n > 0 {
        let i = (n - 1) as u32;
        lemma_better(v, (n - 1) as nat, slot, mine, now);
        let rest = better(v, (n - 1) as nat, mine, now);
        if v.at.contains_key(i) && score(v.at[i], now) > mine {
            assert(all =~= rest.insert(i));
        } else {
            assert(all =~= rest);
        }
    } else {
        assert(all =~= Set::empty());
    }
}

/// A ranked player's rank is one more than the number of entries that are worth more.
pub proof fn law_rank_counts_the_better_ones(v: TopListView, user: Address, slot: u32, now: u32)
    requires
        v.valid(),
        v.holds(user, slot),
    ensures
        v.rank(user, now) == 1 + better(v, v.count as nat, score(v.at[slot], now), now).len(),
{
    lemma_found_slot(v, user, slot);
    lemma_better(v, v.count as nat, slot, score(v.at[slot], now), now);
}

/// What is not stored reads as zero: a slot's sequence number, and the slot of the cached
/// minimum. A player stands where an entry in use says so.
pub proof fn law_how_the_list_is_read(v: TopListView, user: Address, slot: u32)
    ensures
        v.seq_at.contains_key(slot) ==> v.seq(slot) == v.seq_at[slot],
        !v.seq_at.contains_key(slot) ==> v.seq(slot) == 0,
        v.min_slot matches Some(m) ==> v.target() == m,
        v.min_slot is None ==> v.target() == 0,
        v.holds(user, slot) <==> slot < v.count && v.at.contains_key(slot) && v.at[slot].address
            == user,
{
}

/// Looking a player up leaves a reverse lookup that is right, or none, and touches nobody
/// else's. It extends the entry and the lookup only if it had to be rebuilt.
pub proof fn law_a_lookup_is_put_right(v: TopListView, user: Address)
    requires
        v.valid(),
    ensures
        ({
            let (w, found, fx) = v.resolve(user);
            let good = v.slot_of.contains_key(user) && v.holds(user, v.slot_of[user]);
            &&& found matches Some(slot) ==> v.holds(user, slot) && w.slot_of.get(user) == Some(slot)
            &&& found is None ==> !w.slot_of.contains_key(user) && forall|i: u32|
                !v.holds(user, i)
            &&& forall|u: Address| u != user ==> w.slot_of.get(u) == #[trigger] v.slot_of.get(u)
            &&& good || found is None ==> fx.len() == 0
            &&& !good && found is Some ==> fx.len() == 2 && fx[0] == extension(
                DataKey::TopPlayerAt(found->0),
            ) && fx[1] == extension(DataKey::TopPlayerSlot(user))
        }),
{
    law_lookup_keeps_the_list(v, user);
    if v.resolve(user).1 is Some {
        let slot = v.resolve(user).1->0;
        assert(v.at[slot].address == user);
    }
}

} // verus!
