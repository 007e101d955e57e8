//! When calls of the token are accepted, why they are refused, and what accepted ones
//! change.

use crate::env::Address;
use crate::pulse_token::model::{
    balance_in, credit, debit, default_name, default_symbol, moved, moved_fx,
};
use crate::pulse_token::types::{
    DataKey, Effect, Event, PULSETokenContract, TokenError, TokenView, MAX_MINTERS,
};
use vstd::prelude::*;

verus! {

/// The extension of one entry, in figures.
pub open spec fn extension(key: DataKey) -> Effect {
    Effect::ExtendTtl { key, threshold: 3_153_600, extend_to: 6_307_200 }
}

/// The admin, and nobody else, passes as the admin.
pub proof fn law_only_the_admin_passes(v: TokenView, caller: Address)
    ensures
        v.admin_guard(caller) is Ok <==> v.admin == Some(caller),
        v.admin_guard(caller) == Err::<(), _>(TokenError::NotInitialized) <==> v.admin is None,
        v.admin_guard(caller) == Err::<(), _>(TokenError::NotAdmin) <==> v.admin is Some && v.admin
            != Some(caller),
{
}

/// Whoever may not mint yet can be given the right, until it was given ten times; whoever
/// may can be deprived of it.
pub proof fn law_when_minters_can_change(v: TokenView, minter: Address)
    ensures
        ({
            let set = v.set_minter_guard(minter);
            let remove = v.remove_minter_guard(minter);
            let may = v.authorized.contains_pair(minter, true);
            &&& v.is_minter(minter) <==> may
            &&& MAX_MINTERS == 10
            &&& set is Ok <==> v.admin is Some && !may && v.minter_count < 10
            &&& set == Err::<(), _>(TokenError::NotInitialized) <==> v.admin is None
            &&& set == Err::<(), _>(TokenError::AlreadyMinter) <==> v.admin is Some && may
            &&& set == Err::<(), _>(TokenError::MinterListFull) <==> v.admin is Some && !may
                && v.minter_count >= 10
            &&& remove is Ok <==> v.admin is Some && may
            &&& remove == Err::<(), _>(TokenError::NotInitialized) <==> v.admin is None
            &&& remove == Err::<(), _>(TokenError::NotMinter) <==> v.admin is Some && !may
        }),
{
}

/// A new minter is put in the next place of the list, and changes nothing else.
pub proof fn law_a_minter_is_listed_next(v: TokenView, minter: Address)
    requires
        v.set_minter_guard(minter) is Ok,
    ensures
        ({
            let w = v.with_minter(minter);
            let n = v.minter_count;
            &&& w.authorized.get(minter) == Some(true)
            &&& w.minter_index.get(minter) == Some(n)
            &&& w.minter_at.get(n) == Some(minter)
            &&& w.minter_count == n + 1
            &&& forall|a: Address|
                a != minter ==> w.authorized.get(a) == #[trigger] v.authorized.get(a)
            &&& forall|a: Address|
                a != minter ==> w.minter_index.get(a) == #[trigger] v.minter_index.get(a)
            &&& forall|i: u32| i != n ==> w.minter_at.get(i) == #[trigger] v.minter_at.get(i)
            &&& w == (TokenView {
                authorized: w.authorized,
                minter_index: w.minter_index,
                minter_at: w.minter_at,
                minter_count: w.minter_count,
                ..v
            })
        }),
{
}

/// The list of minters keeps the order in which they were added, without those who may
/// not mint any more: one who is added while the list is in use comes last.
pub proof fn law_the_list_of_minters_grows_at_its_end(v: TokenView, minter: Address)
    requires
        v.set_minter_guard(minter) is Ok,
        forall|i: u32|
            i < v.minter_count && #[trigger] v.minter_at.contains_key(i) ==> v.minter_at[i]
                != minter,
    ensures
        ({
            let w = v.with_minter(minter);
            w.minters(w.minter_count as nat) == v.minters(v.minter_count as nat).push(minter)
        }),
{
    let w = v.with_minter(minter);
    lemma_same_minters(v, w, minter, v.minter_count as nat);
}

proof fn lemma_same_minters(v: TokenView, w: TokenView, minter: Address, n: nat)
    requires
        n <= v.minter_count,
        w.authorized == v.authorized.insert(minter, true),
        w.minter_at == v.minter_at.insert(v.minter_count, minter),
        forall|i: u32|
            i < v.minter_count && #[trigger] v.minter_at.contains_key(i) ==> v.minter_at[i]
                != minter,
    ensures
        w.minters(n) == v.minters(n),
    decreases n,
{
    if n > 0 {
        lemma_same_minters(v, w, minter, (n - 1) as nat);
        let i = (n - 1) as u32;
        assert(w.minter_at.contains_key(i) == v.minter_at.contains_key(i));
    }
}

/// Minters can mint any positive amount, and holders can move or burn what they have.
/// A pause halts minting and burning.
pub proof fn law_when_tokens_can_be_moved(v: TokenView, a: Address, amount: i128)
    ensures
        ({
            let has = if v.balances.contains_key(a) {
                v.balances[a]
            } else {
                0
            };
            let may = v.authorized.contains_pair(a, true);
            let mint = v.mint_guard(a, amount);
            let send = v.transfer_guard(a, amount);
            let burn = v.burn_guard(a, amount);
            &&& v.balance(a) == has
            &&& balance_in(v.balances, a) == has
            &&& mint is Ok <==> !v.paused && amount > 0 && may
            &&& mint == Err::<(), _>(TokenError::Paused) <==> v.paused
            &&& mint == Err::<(), _>(TokenError::InvalidAmount) <==> !v.paused && amount <= 0
            &&& mint == Err::<(), _>(TokenError::UnauthorizedMinter) <==> !v.paused && amount > 0
                && !may
            &&& send is Ok <==> 0 < amount <= has
            &&& send == Err::<(), _>(TokenError::InvalidAmount) <==> amount <= 0
            &&& send == Err::<(), _>(TokenError::InsufficientBalance) <==> amount > 0 && has < amount
            &&& burn is Ok <==> !v.paused && 0 < amount <= has
            &&& burn == Err::<(), _>(TokenError::Paused) <==> v.paused
            &&& burn == Err::<(), _>(TokenError::InvalidAmount) <==> !v.paused && amount <= 0
            &&& burn == Err::<(), _>(TokenError::InsufficientBalance) <==> !v.paused && amount > 0
                && has < amount
        }),
{
}

/// Crediting and debiting change one account, by the whole amount. Moving is both; to
/// oneself it changes nothing.
pub proof fn law_accounts_change_by_the_amount(
    b: Map<Address, i128>,
    from: Address,
    to: Address,
    amount: i128,
)
    ensures
        balance_in(b, to) + amount <= i128::MAX && amount >= 0 ==> {
            let c = credit(b, to, amount);
            &&& balance_in(c, to) == balance_in(b, to) + amount
            &&& forall|a: Address| a != to ==> c.get(a) == #[trigger] b.get(a)
        },
        balance_in(b, from) - amount >= i128::MIN && amount >= 0 ==> {
            let d = debit(b, from, amount);
            &&& balance_in(d, from) == balance_in(b, from) - amount
            &&& forall|a: Address| a != from ==> d.get(a) == #[trigger] b.get(a)
        },
        0 <= amount <= balance_in(b, from) && (from == to || balance_in(b, to) + amount
            <= i128::MAX) ==> {
            let m = moved(b, from, to, amount);
            &&& balance_in(m, from) + balance_in(m, to) == balance_in(b, from) + balance_in(b, to)
            &&& from != to ==> balance_in(b, from) - balance_in(m, from) == amount
            &&& from == to ==> balance_in(m, from) == balance_in(b, from)
            &&& forall|a: Address| a != from && a != to ==> m.get(a) == #[trigger] b.get(a)
        },
{
}

/// A transfer fits as long as the receiver has room for it.
pub proof fn law_when_a_transfer_fits(v: TokenView, from: Address, to: Address, amount: i128)
    requires
        v.transfer_guard(from, amount) is Ok,
    ensures
        from == to ==> v.transfer_fits(from, to, amount),
        from != to ==> (v.transfer_fits(from, to, amount) <==> v.balance(to) + amount
            <= i128::MAX),
{
}

/// A transfer extends both accounts and is announced, once and with its amount.
pub proof fn law_a_transfer_is_announced(from: Address, to: Address, amount: i128)
    ensures
        ({
            let fx = moved_fx(from, to, amount);
            &&& fx.len() == 3
            &&& fx[0] == extension(DataKey::Balance(from))
            &&& fx[1] == extension(DataKey::Balance(to))
            &&& fx[2] == Effect::Publish(Event::Transfer { from, to, amount })
        }),
{
}

/// An allowance can be given for now or later, and revoked at any time.
pub proof fn law_when_an_allowance_can_be_given(amount: i128, expiration: u32, sequence: u32)
    ensures
        ({
            let g = TokenView::approve_guard(amount, expiration, sequence);
            &&& g is Ok <==> amount == 0 || (amount > 0 && sequence <= expiration)
            &&& g == Err::<(), _>(TokenError::InvalidAmount) <==> amount < 0
            &&& g == Err::<(), _>(TokenError::InvalidExpirationLedger) <==> amount > 0 && expiration
                < sequence
        }),
{
}

/// Giving an allowance replaces the one there was, and changes nobody else's.
pub proof fn law_an_allowance_is_written_down(
    v: TokenView,
    from: Address,
    spender: Address,
    amount: i128,
    expiration: u32,
)
    ensures
        ({
            let w = v.with_allowance(from, spender, amount, expiration);
            let k = (from, spender);
            &&& amount == 0 ==> !w.allowances.contains_key(k)
            &&& amount != 0 ==> w.allowances.contains_key(k) && w.allowances[k].amount == amount
                && w.allowances[k].expiration_ledger == expiration
            &&& forall|j: (Address, Address)|
                j != k ==> w.allowances.get(j) == #[trigger] v.allowances.get(j)
            &&& w == (TokenView { allowances: w.allowances, ..v })
        }),
{
}

/// A spender can transfer what both the allowance, while it lasts, and the balance of
/// the holder cover; a pause does not matter.
pub proof fn law_when_an_allowance_can_be_spent(
    v: TokenView,
    spender: Address,
    from: Address,
    amount: i128,
    sequence: u32,
)
    ensures
        ({
            let g = v.transfer_from_guard(spender, from, amount, sequence);
            let k = (from, spender);
            let left = if v.allowances.contains_key(k) && sequence
                <= v.allowances[k].expiration_ledger {
                v.allowances[k].amount
            } else {
                0
            };
            let has = if v.balances.contains_key(from) {
                v.balances[from]
            } else {
                0
            };
            &&& v.allowance(from, spender, sequence) == left
            &&& g is Ok <==> amount > 0 && amount <= left && amount <= has
            &&& g == Err::<(), _>(TokenError::InvalidAmount) <==> amount <= 0
            &&& g == Err::<(), _>(TokenError::InsufficientAllowance) <==> amount > 0 && left < amount
            &&& g == Err::<(), _>(TokenError::InsufficientBalance) <==> 0 < amount <= left && has
                < amount
        }),
{
}

/// Spending an allowance moves the holder's tokens as a transfer by the holder does, and
/// leaves the rest of the allowance until the ledger that it was given until.
pub proof fn law_an_allowance_is_spent_down(
    v: TokenView,
    spender: Address,
    from: Address,
    to: Address,
    amount: i128,
    sequence: u32,
)
    requires
        v.transfer_from_guard(spender, from, amount, sequence) is Ok,
    ensures
        ({
            let w = v.transferred_from(spender, from, to, amount);
            let k = (from, spender);
            let given = v.allowances[k];
            &&& w.balances == moved(v.balances, from, to, amount)
            &&& given.amount == amount ==> !w.allowances.contains_key(k)
            &&& given.amount != amount ==> {
                &&& w.allowances.contains_key(k)
                &&& w.allowances[k].amount == given.amount - amount
                &&& w.allowances[k].expiration_ledger == given.expiration_ledger
            }
            &&& forall|j: (Address, Address)|
                j != k ==> w.allowances.get(j) == #[trigger] v.allowances.get(j)
            &&& w == (TokenView { allowances: w.allowances, balances: w.balances, ..v })
        }),
{
}

/// A token that was given no name is called PULSE, and its symbol is PLSE.
pub proof fn law_the_default_names()
    ensures
        default_name().len() == 5,
        forall|i: int|
            0 <= i < 5 ==> #[trigger] default_name()[i] == seq!['P', 'U', 'L', 'S', 'E'][i] as u8,
        default_symbol().len() == 4,
        forall|i: int|
            0 <= i < 4 ==> #[trigger] default_symbol()[i] == seq!['P', 'L', 'S', 'E'][i] as u8,
{
    let s = seq!['P', 'U', 'L', 'S', 'E'];
    assert(s[0] == 'P' && s[1] == 'U' && s[2] == 'L' && s[3] == 'S' && s[4] == 'E');
    let t = seq!['P', 'L', 'S', 'E'];
    assert(t[0] == 'P' && t[1] == 'L' && t[2] == 'S' && t[3] == 'E');
    assert forall|i: int| 0 <= i < 5 implies #[trigger] default_name()[i] == s[i] as u8 by {
        assert(i == 0 || i == 1 || i == 2 || i == 3 || i == 4);
    }
    assert forall|i: int| 0 <= i < 4 implies #[trigger] default_symbol()[i] == t[i] as u8 by {
        assert(i == 0 || i == 1 || i == 2 || i == 3);
    }
}

/// The contents are all that is stored, and a contract that was just deployed stores
/// nothing.
pub proof fn law_the_contents_are_what_is_stored(c: PULSETokenContract)
    ensures
        c@.admin == c.admin && c@.decimals == c.decimals && c@.paused == c.paused,
        c@.total_supply == c.total_supply && c@.minter_count == c.minter_count,
        c.name matches Some(n) ==> c@.name == Some(n@),
        c.name is None ==> c@.name is None,
        c.symbol matches Some(n) ==> c@.symbol == Some(n@),
        c.symbol is None ==> c@.symbol is None,
        c@.authorized == c.authorized@ && c@.minter_at == c.minter_at@,
        c@.minter_index == c.minter_index@ && c@.balances == c.balances@,
        c@.allowances == c.allowances@,
        ({
            let e = TokenView::empty();
            &&& e.admin is None && e.name is None && e.symbol is None && e.decimals is None
            &&& e.total_supply == 0 && !e.paused && e.minter_count == 0
            &&& e.authorized.dom().is_empty() && e.minter_at.dom().is_empty()
            &&& e.minter_index.dom().is_empty() && e.balances.dom().is_empty()
            &&& e.allowances.dom().is_empty()
        }),
{
}

} // verus!
