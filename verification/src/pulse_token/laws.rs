//! What holds of the token as a whole.

use crate::env::Address;
use crate::pulse_token::model::{balance_in, credit, debit, moved};
use crate::pulse_token::types::{TokenView, MAX_MINTERS};
use crate::sums::{lemma_total_bounds, lemma_total_insert, total};
use vstd::prelude::*;

verus! {

/// The sum of all balances.
pub open spec fn circulating(b: Map<Address, i128>) -> int {
    total(b, |n: i128| n as int)
}

impl TokenView {
    /// No balance is negative, and the balances add up to the supply.
    pub open spec fn sound(self) -> bool {
        &&& self.balances.dom().finite()
        &&& forall|a: Address| #[trigger] self.balances.contains_key(a) ==> self.balances[a] >= 0
        &&& circulating(self.balances) == self.total_supply
    }
}

/// The contents before and right after setup are sound, if nothing was minted.
pub proof fn law_a_new_token_is_sound(v: TokenView)
    requires
        v.balances == Map::<Address, i128>::empty(),
        v.total_supply == 0,
    ensures
        v.sound(),
{
}

/// In a sound token no balance exceeds the supply, and no two together do.
proof fn lemma_balances_within_supply(v: TokenView, a: Address, b: Address)
    requires
        v.sound(),
    ensures
        0 <= v.balance(a) <= v.total_supply,
        a != b ==> v.balance(a) + v.balance(b) <= v.total_supply,
{
    lemma_total_bounds(v.balances, |n: i128| n as int);
    if v.balances.contains_key(a) {
    }
    if v.balances.contains_key(b) {
    }
}

/// Minting keeps the token sound: the balances still add up to the supply.
pub proof fn law_mint_keeps_balances_and_supply_equal(v: TokenView, to: Address, amount: i128)
    requires
        v.sound(),
        0 < amount,
        v.total_supply + amount <= i128::MAX,
    ensures
        v.balance(to) + amount <= i128::MAX,
        (TokenView {
            balances: credit(v.balances, to, amount),
            total_supply: (v.total_supply + amount) as i128,
            ..v
        }).sound(),
{
    lemma_balances_within_supply(v, to, to);
    lemma_total_insert(
        v.balances,
        |n: i128| n as int,
        to,
        (balance_in(v.balances, to) + amount) as i128,
    );
}

/// Burning keeps the token sound, and what is burned is gone from the supply.
pub proof fn law_burn_keeps_balances_and_supply_equal(v: TokenView, from: Address, amount: i128)
    requires
        v.sound(),
        v.burn_guard(from, amount) is Ok,
    ensures
        (TokenView {
            balances: debit(v.balances, from, amount),
            total_supply: (v.total_supply - amount) as i128,
            ..v
        }).sound(),
        v.total_supply - amount >= 0,
{
    lemma_balances_within_supply(v, from, from);
    lemma_total_insert(
        v.balances,
        |n: i128| n as int,
        from,
        (balance_in(v.balances, from) - amount) as i128,
    );
}

/// A transfer creates and destroys nothing: it never overflows, the supply stays,
/// and so does the sum of the balances. The sender has `amount` less and the
/// receiver `amount` more, unless they are the same.
pub proof fn law_transfer_conserves(v: TokenView, from: Address, to: Address, amount: i128)
    requires
        v.sound(),
        v.transfer_guard(from, amount) is Ok,
    ensures
        v.transfer_fits(from, to, amount),
        (TokenView { balances: moved(v.balances, from, to, amount), ..v }).sound(),
        from != to ==> {
            let b = moved(v.balances, from, to, amount);
            &&& balance_in(b, from) == v.balance(from) - amount
            &&& balance_in(b, to) == v.balance(to) + amount
        },
        from == to ==> balance_in(moved(v.balances, from, to, amount), from) == v.balance(from),
        forall|a: Address|
            a != from && a != to ==> balance_in(moved(v.balances, from, to, amount), a)
                == #[trigger] v.balance(a),
{
    lemma_balances_within_supply(v, from, to);
    lemma_balances_within_supply(v, to, from);
    let d = debit(v.balances, from, amount);
    lemma_total_insert(
        v.balances,
        |n: i128| n as int,
        from,
        (balance_in(v.balances, from) - amount) as i128,
    );
    lemma_total_insert(d, |n: i128| n as int, to, (balance_in(d, to) + amount) as i128);
}

/// A transfer on a holder's behalf conserves as a transfer does, and takes
/// exactly `amount` off the allowance.
pub proof fn law_transfer_from_spends_the_allowance(
    v: TokenView,
    spender: Address,
    from: Address,
    to: Address,
    amount: i128,
    sequence: u32,
)
    requires
        v.sound(),
        v.transfer_from_guard(spender, from, amount, sequence) is Ok,
    ensures
        v.transfer_fits(from, to, amount),
        v.transferred_from(spender, from, to, amount).sound(),
        v.transferred_from(spender, from, to, amount).allowance(from, spender, sequence)
            == v.allowance(from, spender, sequence) - amount,
        forall|f: Address, s: Address|
            (f, s) != (from, spender) ==> v.transferred_from(
                spender,
                from,
                to,
                amount,
            ).allowance(f, s, sequence) == #[trigger] v.allowance(f, s, sequence),
{
    law_transfer_conserves(v, from, to, amount);
    let w = v.transferred_from(spender, from, to, amount);
    assert(w.balances == moved(v.balances, from, to, amount));
}

/// An allowance reads back as given until its last ledger, and as zero after it.
/// An allowance of zero is a revocation.
pub proof fn law_allowance_reads_back(
    v: TokenView,
    from: Address,
    spender: Address,
    amount: i128,
    expiration: u32,
    sequence: u32,
)
    requires
        amount >= 0,
    ensures
        ({
            let w = v.with_allowance(from, spender, amount, expiration);
            &&& sequence <= expiration ==> w.allowance(from, spender, sequence) == amount
            &&& sequence > expiration ==> w.allowance(from, spender, sequence) == 0
            &&& w.balances == v.balances
            &&& w.total_supply == v.total_supply
        }),
{
}

impl TokenView {
    /// Everyone who may mint is listed, and the list has not outgrown its limit.
    pub open spec fn minters_listed(self) -> bool {
        &&& self.minter_count <= MAX_MINTERS
        &&& forall|a: Address| #[trigger]
            self.is_minter(a) ==> exists|i: u32|
                i < self.minter_count && #[trigger] self.minter_at.contains_pair(i, a)
    }
}

proof fn lemma_minters(v: TokenView, n: nat)
    requires
        n <= u32::MAX,
    ensures
        forall|i: int| 0 <= i < v.minters(n).len() ==> v.is_minter(#[trigger] v.minters(n)[i]),
        forall|i: u32|
            i < n && #[trigger] v.minter_at.contains_key(i) && v.is_minter(v.minter_at[i])
                ==> v.minters(n).contains(v.minter_at[i]),
    decreases n,
{
    if n > 0 {
        lemma_minters(v, (n - 1) as nat);
        let rest = v.minters((n - 1) as nat);
        let all = v.minters(n);
        assert forall|i: u32|
            i < n && #[trigger] v.minter_at.contains_key(i) && v.is_minter(
                v.minter_at[i],
            ) implies all.contains(v.minter_at[i]) by {
            if i == n - 1 {
                assert(all[all.len() - 1] == v.minter_at[i]);
            } else {
                assert(rest.contains(v.minter_at[i]));
                let k = choose|k: int| 0 <= k < rest.len() && rest[k] == v.minter_at[i];
                assert(all[k] == v.minter_at[i]);
            }
        }
    }
}

/// The list of minters names everyone who may mint, and nobody else.
pub proof fn law_minter_list_is_exact(v: TokenView, a: Address)
    requires
        v.minters_listed(),
    ensures
        v.minters(v.minter_count as nat).contains(a) <==> v.is_minter(a),
{
    lemma_minters(v, v.minter_count as nat);
    let all = v.minters(v.minter_count as nat);
    if all.contains(a) {
        let k = choose|k: int| 0 <= k < all.len() && all[k] == a;
        assert(v.is_minter(all[k]));
    }
    if v.is_minter(a) {
        let i = choose|i: u32|
            i < v.minter_count && #[trigger] v.minter_at.contains_pair(i, a);
        assert(v.minter_at.contains_key(i));
    }
}

/// Adding and removing minters keeps the list exact. Adding one gives the right
/// to mint to that address and takes it from none; removing one takes it from
/// that address alone.
pub proof fn law_minters_change_one_at_a_time(v: TokenView, minter: Address)
    requires
        v.minters_listed(),
    ensures
        v.set_minter_guard(minter) is Ok ==> {
            let w = v.with_minter(minter);
            &&& w.minters_listed()
            &&& forall|a: Address| #[trigger] w.is_minter(a) == (v.is_minter(a) || a == minter)
        },
        v.remove_minter_guard(minter) is Ok ==> {
            let w = TokenView { authorized: v.authorized.remove(minter), ..v };
            &&& w.minters_listed()
            &&& forall|a: Address| #[trigger] w.is_minter(a) == (v.is_minter(a) && a != minter)
        },
{
    if v.set_minter_guard(minter) is Ok {
        let w = v.with_minter(minter);
        assert forall|a: Address| #[trigger] w.is_minter(a) implies exists|i: u32|
            i < w.minter_count && #[trigger] w.minter_at.contains_pair(i, a) by {
            if a == minter {
                assert(w.minter_at.contains_pair(v.minter_count, a));
            } else {
                assert(v.is_minter(a));
                let i = choose|i: u32|
                    i < v.minter_count && #[trigger] v.minter_at.contains_pair(i, a);
                assert(w.minter_at.contains_pair(i, a));
            }
        }
    }
    if v.remove_minter_guard(minter) is Ok {
        let w = TokenView { authorized: v.authorized.remove(minter), ..v };
        assert forall|a: Address| #[trigger] w.is_minter(a) implies exists|i: u32|
            i < w.minter_count && #[trigger] w.minter_at.contains_pair(i, a) by {
            assert(v.is_minter(a));
            let i = choose|i: u32|
                i < v.minter_count && #[trigger] v.minter_at.contains_pair(i, a);
            assert(w.minter_at.contains_pair(i, a));
        }
    }
}

/// While the token is paused nothing changes the supply, and transfers go on.
pub proof fn law_pause_halts_the_supply_only(
    v: TokenView,
    minter: Address,
    from: Address,
    amount: i128,
)
    requires
        v.paused,
    ensures
        v.mint_guard(minter, amount) is Err,
        v.burn_guard(from, amount) is Err,
        v.transfer_guard(from, amount) == (TokenView { paused: false, ..v }).transfer_guard(
            from,
            amount,
        ),
{
}

} // verus!
