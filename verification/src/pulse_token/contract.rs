//! The calls of the token contract.

use crate::env::{Address, Bytes32, Env};
use crate::pulse_token::model::{credit, debit, default_name, default_symbol, moved, moved_fx};
use crate::pulse_token::types::{
    bump, emit_bump, AllowanceValue, DataKey, Effect, Event, PULSETokenContract, TokenError,
    TokenView, INTERFACE_VERSION, MAX_MINTERS,
};
use crate::table::Table;
use vstd::prelude::*;

verus! {

/// A copy of a text.
fn copy_text(t: &Vec<u8>) -> (r: Vec<u8>)
    ensures
        r@ == t@,
{
    let r = t.clone();
    assert(r@ =~= t@);
    r
}

impl PULSETokenContract {
    /// A contract that has just been deployed.
    pub fn new() -> (c: Self)
        ensures
            c@ == TokenView::empty(),
    {
        PULSETokenContract {
            admin: None,
            name: None,
            symbol: None,
            decimals: None,
            total_supply: 0,
            paused: false,
            authorized: Table::new(),
            minter_at: Table::new(),
            minter_count: 0,
            minter_index: Table::new(),
            balances: Table::new(),
            allowances: Table::new(),
        }
    }

    /// Sets the token up. This happens once.
    pub fn initialize(
        &mut self,
        env: &mut Env<Effect>,
        admin: Address,
        name: Vec<u8>,
        symbol: Vec<u8>,
        decimals: u32,
    ) -> (r: Result<(), TokenError>)
        ensures
            old(self)@.admin is Some ==> {
                &&& r == Err::<(), _>(TokenError::AlreadyInitialized)
                &&& final(self)@ == old(self)@
                &&& final(env).adds(*old(env), Seq::empty())
            },
            old(self)@.admin is None ==> {
                &&& r is Ok
                &&& final(self)@ == (TokenView {
                    admin: Some(admin),
                    name: Some(name@),
                    symbol: Some(symbol@),
                    decimals: Some(decimals),
                    total_supply: 0,
                    ..old(self)@
                })
                &&& final(env).adds(
                    *old(env),
                    seq![
                        Effect::RequireAuth(admin),
                        Effect::Publish(Event::Initialized { admin, name, symbol, decimals }),
                    ],
                )
            },
    {
        let ghost before = env.effects@;
        if self.admin.is_some() {
            assert(env.effects@ =~= before + Seq::<Effect>::empty());
            return Err(TokenError::AlreadyInitialized);
        }
        env.emit(Effect::RequireAuth(admin));
        self.admin = Some(admin);
        self.name = Some(copy_text(&name));
        self.symbol = Some(copy_text(&symbol));
        self.decimals = Some(decimals);
        self.total_supply = 0;
        env.emit(Effect::Publish(Event::Initialized { admin, name, symbol, decimals }));
        assert(env.effects@ =~= before + seq![
            Effect::RequireAuth(admin),
            Effect::Publish(Event::Initialized { admin, name, symbol, decimals }),
        ]);
        Ok(())
    }

    fn admin_guard(&self, caller: &Address) -> (r: Result<(), TokenError>)
        ensures
            r == self@.admin_guard(*caller),
    {
        match self.admin {
            None => Err(TokenError::NotInitialized),
            Some(stored) => if *caller != stored {
                Err(TokenError::NotAdmin)
            } else {
                Ok(())
            },
        }
    }

    fn require_admin(&self) -> (r: Result<Address, TokenError>)
        ensures
            r == (match self@.admin {
                Some(a) => Ok(a),
                None => Err(TokenError::NotInitialized),
            }),
    {
        match self.admin {
            Some(a) => Ok(a),
            None => Err(TokenError::NotInitialized),
        }
    }

    /// Replaces the contract's code. Admin only. What is stored stays.
    pub fn upgrade(&self, env: &mut Env<Effect>, admin: Address, new_wasm_hash: Bytes32) -> (r:
        Result<(), TokenError>)
        ensures
            r == self@.admin_guard(admin),
            r is Err ==> final(env).adds(*old(env), Seq::empty()),
            r is Ok ==> final(env).adds(
                *old(env),
                seq![Effect::RequireAuth(admin), Effect::UpdateWasm(new_wasm_hash)],
            ),
    {
        let ghost before = env.effects@;
        if let Err(e) = self.admin_guard(&admin) {
            assert(env.effects@ =~= before + Seq::<Effect>::empty());
            return Err(e);
        }
        env.emit(Effect::RequireAuth(admin));
        env.emit(Effect::UpdateWasm(new_wasm_hash));
        assert(env.effects@ =~= before + seq![
            Effect::RequireAuth(admin),
            Effect::UpdateWasm(new_wasm_hash),
        ]);
        Ok(())
    }

    /// The version of the interface that this contract implements.
    pub fn interface_version() -> (v: u32)
        ensures
            v == INTERFACE_VERSION,
    {
        INTERFACE_VERSION
    }

    /// Halts minting and burning. Admin only. Transfers and reads keep working.
    pub fn pause(&mut self, env: &mut Env<Effect>, admin: Address) -> (r: Result<(), TokenError>)
        ensures
            r == old(self)@.admin_guard(admin),
            r is Err ==> final(self)@ == old(self)@ && final(env).adds(*old(env), Seq::empty()),
            r is Ok ==> {
                &&& final(self)@ == (TokenView { paused: true, ..old(self)@ })
                &&& final(env).adds(
                    *old(env),
                    seq![Effect::RequireAuth(admin), Effect::Publish(Event::Paused { admin })],
                )
            },
    {
        let ghost before = env.effects@;
        if let Err(e) = self.admin_guard(&admin) {
            assert(env.effects@ =~= before + Seq::<Effect>::empty());
            return Err(e);
        }
        env.emit(Effect::RequireAuth(admin));
        self.paused = true;
        env.emit(Effect::Publish(Event::Paused { admin }));
        assert(env.effects@ =~= before + seq![
            Effect::RequireAuth(admin),
            Effect::Publish(Event::Paused { admin }),
        ]);
        Ok(())
    }

    /// Resumes minting and burning. Admin only.
    pub fn unpause(&mut self, env: &mut Env<Effect>, admin: Address) -> (r: Result<(), TokenError>)
        ensures
            r == old(self)@.admin_guard(admin),
            r is Err ==> final(self)@ == old(self)@ && final(env).adds(*old(env), Seq::empty()),
            r is Ok ==> {
                &&& final(self)@ == (TokenView { paused: false, ..old(self)@ })
                &&& final(env).adds(
                    *old(env),
                    seq![Effect::RequireAuth(admin), Effect::Publish(Event::Unpaused { admin })],
                )
            },
    {
        let ghost before = env.effects@;
        if let Err(e) = self.admin_guard(&admin) {
            assert(env.effects@ =~= before + Seq::<Effect>::empty());
            return Err(e);
        }
        env.emit(Effect::RequireAuth(admin));
        self.paused = false;
        env.emit(Effect::Publish(Event::Unpaused { admin }));
        assert(env.effects@ =~= before + seq![
            Effect::RequireAuth(admin),
            Effect::Publish(Event::Unpaused { admin }),
        ]);
        Ok(())
    }

    pub fn is_paused(&self) -> (r: bool)
        ensures
            r == self@.paused,
    {
        self.paused
    }

    /// Sets or clears the emergency stop without announcing it. Admin only.
    pub fn set_paused(&mut self, env: &mut Env<Effect>, caller: Address, paused: bool) -> (r:
        Result<(), TokenError>)
        ensures
            r == old(self)@.admin_guard(caller),
            r is Err ==> final(self)@ == old(self)@ && final(env).adds(*old(env), Seq::empty()),
            r is Ok ==> {
                &&& final(self)@ == (TokenView { paused, ..old(self)@ })
                &&& final(env).adds(*old(env), seq![Effect::RequireAuth(caller)])
            },
    {
        let ghost before = env.effects@;
        if let Err(e) = self.admin_guard(&caller) {
            assert(env.effects@ =~= before + Seq::<Effect>::empty());
            return Err(e);
        }
        env.emit(Effect::RequireAuth(caller));
        self.paused = paused;
        Ok(())
    }

    pub fn paused(&self) -> (r: bool)
        ensures
            r == self@.paused,
    {
        self.paused
    }

    fn is_minter(&self, a: &Address) -> (r: bool)
        ensures
            r == self@.is_minter(*a),
    {
        match self.authorized.copied(a) {
            Some(b) => b,
            None => false,
        }
    }

    /// Lets an address mint. The admin must have authorized the call.
    pub fn set_minter(&mut self, env: &mut Env<Effect>, minter: Address) -> (r: Result<
        (),
        TokenError,
    >)
        ensures
            r == old(self)@.set_minter_guard(minter),
            r is Err ==> final(self)@ == old(self)@ && final(env).adds(
                *old(env),
                match old(self)@.admin {
                    Some(a) => seq![Effect::RequireAuth(a)],
                    None => Seq::empty(),
                },
            ),
            r is Ok ==> {
                &&& final(self)@ == old(self)@.with_minter(minter)
                &&& final(env).adds(
                    *old(env),
                    seq![
                        Effect::RequireAuth(old(self)@.admin->0),
                        bump(DataKey::MinterIndex(minter)),
                        Effect::Publish(Event::MinterAdded { minter }),
                    ],
                )
            },
    {
        let ghost before = env.effects@;
        let admin = match self.require_admin() {
            Ok(a) => a,
            Err(e) => {
                assert(env.effects@ =~= before + Seq::<Effect>::empty());
                return Err(e);
            },
        };
        env.emit(Effect::RequireAuth(admin));
        if self.is_minter(&minter) {
            return Err(TokenError::AlreadyMinter);
        }
        let count: u32 = self.minter_count;
        if count >= MAX_MINTERS {
            return Err(TokenError::MinterListFull);
        }
        self.authorized.set(minter, true);
        self.minter_index.set(minter, count);
        emit_bump(env, DataKey::MinterIndex(minter));
        self.minter_at.set(count, minter);
        self.minter_count = count + 1;
        env.emit(Effect::Publish(Event::MinterAdded { minter }));
        assert(env.effects@ =~= before + seq![
            Effect::RequireAuth(admin),
            bump(DataKey::MinterIndex(minter)),
            Effect::Publish(Event::MinterAdded { minter }),
        ]);
        Ok(())
    }

    /// Stops an address from minting. The admin must have authorized the call.
    pub fn remove_minter(&mut self, env: &mut Env<Effect>, minter: Address) -> (r: Result<
        (),
        TokenError,
    >)
        ensures
            r == old(self)@.remove_minter_guard(minter),
            final(env).adds(
                *old(env),
                match old(self)@.admin {
                    Some(a) => seq![Effect::RequireAuth(a)],
                    None => Seq::empty(),
                },
            ),
            r is Err ==> final(self)@ == old(self)@,
            r is Ok ==> final(self)@ == (TokenView {
                authorized: old(self)@.authorized.remove(minter),
                ..old(self)@
            }),
    {
        let ghost before = env.effects@;
        let admin = match self.require_admin() {
            Ok(a) => a,
            Err(e) => {
                assert(env.effects@ =~= before + Seq::<Effect>::empty());
                return Err(e);
            },
        };
        env.emit(Effect::RequireAuth(admin));
        if !self.is_minter(&minter) {
            return Err(TokenError::NotMinter);
        }
        self.authorized.remove(&minter);
        Ok(())
    }

    /// The addresses that may mint, in the order in which they were added.
    pub fn get_authorized_minters(&self) -> (r: Vec<Address>)
        ensures
            r@ == self@.minters(self@.minter_count as nat),
    {
        let count: u32 = self.minter_count;
        let mut result: Vec<Address> = Vec::new();
        let mut i: u32 = 0;
        while i < count
            invariant
                i <= count,
                result@ == self@.minters(i as nat),
            decreases count - i,
        {
            if let Some(a) = self.minter_at.copied(&i) {
                if self.is_minter(&a) {
                    result.push(a);
                }
            }
            i = i + 1;
        }
        result
    }

    /// Creates `amount` for `to`. Only minters may, and not while paused.
    pub fn mint(&mut self, env: &mut Env<Effect>, minter: Address, to: Address, amount: i128) -> (r:
        Result<(), TokenError>)
        requires
            old(self)@.mint_guard(minter, amount) is Ok ==> {
                &&& old(self)@.balance(to) + amount <= i128::MAX
                &&& old(self)@.total_supply + amount <= i128::MAX
            },
        ensures
            r == old(self)@.mint_guard(minter, amount),
            r is Err ==> final(self)@ == old(self)@ && final(env).adds(
                *old(env),
                if old(self)@.paused || amount <= 0 {
                    Seq::empty()
                } else {
                    seq![Effect::RequireAuth(minter)]
                },
            ),
            r is Ok ==> {
                &&& final(self)@ == (TokenView {
                    balances: credit(old(self)@.balances, to, amount),
                    total_supply: (old(self)@.total_supply + amount) as i128,
                    ..old(self)@
                })
                &&& final(env).adds(
                    *old(env),
                    seq![
                        Effect::RequireAuth(minter),
                        bump(DataKey::Balance(to)),
                        Effect::Publish(Event::Mint { minter, to, amount }),
                    ],
                )
            },
    {
        let ghost before = env.effects@;
        assert(before =~= before + Seq::<Effect>::empty());
        if self.paused {
            return Err(TokenError::Paused);
        }
        if amount <= 0 {
            return Err(TokenError::InvalidAmount);
        }
        env.emit(Effect::RequireAuth(minter));
        if !self.is_minter(&minter) {
            return Err(TokenError::UnauthorizedMinter);
        }
        let balance: i128 = self.balance(to);
        self.balances.set(to, balance + amount);
        emit_bump(env, DataKey::Balance(to));
        self.total_supply = self.total_supply + amount;
        env.emit(Effect::Publish(Event::Mint { minter, to, amount }));
        assert(env.effects@ =~= before + seq![
            Effect::RequireAuth(minter),
            bump(DataKey::Balance(to)),
            Effect::Publish(Event::Mint { minter, to, amount }),
        ]);
        Ok(())
    }

    /// Moves `amount` from `from` to `to`. This works while paused too: holders
    /// can always move what they own.
    pub fn transfer(
        &mut self,
        env: &mut Env<Effect>,
        from: Address,
        to: Address,
        amount: i128,
    ) -> (r: Result<(), TokenError>)
        requires
            old(self)@.transfer_guard(from, amount) is Ok ==> old(self)@.transfer_fits(
                from,
                to,
                amount,
            ),
        ensures
            r == old(self)@.transfer_guard(from, amount),
            r is Err ==> final(self)@ == old(self)@ && final(env).adds(
                *old(env),
                if amount <= 0 {
                    Seq::empty()
                } else {
                    seq![Effect::RequireAuth(from)]
                },
            ),
            r is Ok ==> {
                &&& final(self)@ == (TokenView {
                    balances: moved(old(self)@.balances, from, to, amount),
                    ..old(self)@
                })
                &&& final(env).adds(
                    *old(env),
                    seq![Effect::RequireAuth(from)] + moved_fx(from, to, amount),
                )
            },
    {
        let ghost before = env.effects@;
        assert(before =~= before + Seq::<Effect>::empty());
        if amount <= 0 {
            return Err(TokenError::InvalidAmount);
        }
        env.emit(Effect::RequireAuth(from));
        let from_balance: i128 = self.balance(from);
        if from_balance < amount {
            return Err(TokenError::InsufficientBalance);
        }
        self.move_balance(env, from, to, amount);
        assert(env.effects@ =~= before + (seq![Effect::RequireAuth(from)] + moved_fx(
            from,
            to,
            amount,
        )));
        Ok(())
    }

    /// Moves `amount`, which `from` has, to `to`.
    fn move_balance(&mut self, env: &mut Env<Effect>, from: Address, to: Address, amount: i128)
        requires
            0 < amount <= old(self)@.balance(from),
            old(self)@.transfer_fits(from, to, amount),
        ensures
            final(self)@ == (TokenView {
                balances: moved(old(self)@.balances, from, to, amount),
                ..old(self)@
            }),
            final(env).adds(*old(env), moved_fx(from, to, amount)),
    {
        let ghost before = env.effects@;
        let from_balance: i128 = self.balance(from);
        self.balances.set(from, from_balance - amount);
        emit_bump(env, DataKey::Balance(from));
        let to_balance: i128 = self.balance(to);
        self.balances.set(to, to_balance + amount);
        emit_bump(env, DataKey::Balance(to));
        env.emit(Effect::Publish(Event::Transfer { from, to, amount }));
        assert(env.effects@ =~= before + moved_fx(from, to, amount));
    }

    /// Lets `spender` transfer up to `amount` of what `from` owns, up to and
    /// including `expiration_ledger`. An amount of zero revokes.
    pub fn approve(
        &mut self,
        env: &mut Env<Effect>,
        from: Address,
        spender: Address,
        amount: i128,
        expiration_ledger: u32,
    ) -> (r: Result<(), TokenError>)
        ensures
            r == TokenView::approve_guard(amount, expiration_ledger, old(env).ledger.sequence),
            r is Err ==> final(self)@ == old(self)@ && final(env).adds(
                *old(env),
                if amount < 0 {
                    Seq::empty()
                } else {
                    seq![Effect::RequireAuth(from)]
                },
            ),
            r is Ok ==> {
                let live_for = (expiration_ledger - old(env).ledger.sequence) as u32;
                &&& final(self)@ == old(self)@.with_allowance(
                    from,
                    spender,
                    amount,
                    expiration_ledger,
                )
                &&& amount == 0 ==> final(env).adds(*old(env), seq![Effect::RequireAuth(from)])
                &&& amount > 0 ==> final(env).adds(
                    *old(env),
                    seq![
                        Effect::RequireAuth(from),
                        Effect::ExtendTtl {
                            key: DataKey::Allowance(from, spender),
                            threshold: live_for,
                            extend_to: live_for,
                        },
                    ],
                )
            },
    {
        let ghost before = env.effects@;
        assert(before =~= before + Seq::<Effect>::empty());
        if amount < 0 {
            return Err(TokenError::InvalidAmount);
        }
        env.emit(Effect::RequireAuth(from));
        if amount > 0 && expiration_ledger < env.ledger.sequence {
            return Err(TokenError::InvalidExpirationLedger);
        }
        if amount == 0 {
            self.allowances.remove(&(from, spender));
            return Ok(());
        }
        self.allowances.set((from, spender), AllowanceValue { amount, expiration_ledger });
        let live_for: u32 = expiration_ledger.saturating_sub(env.ledger.sequence);
        env.emit(
            Effect::ExtendTtl {
                key: DataKey::Allowance(from, spender),
                threshold: live_for,
                extend_to: live_for,
            },
        );
        assert(env.effects@ =~= before + seq![
            Effect::RequireAuth(from),
            Effect::ExtendTtl {
                key: DataKey::Allowance(from, spender),
                threshold: live_for,
                extend_to: live_for,
            },
        ]);
        Ok(())
    }

    /// What `spender` may still transfer on behalf of `from`: zero once the
    /// allowance has expired.
    pub fn allowance(&self, env: &Env<Effect>, from: Address, spender: Address) -> (r: i128)
        ensures
            r == self@.allowance(from, spender, env.ledger.sequence),
    {
        match self.allowances.copied(&(from, spender)) {
            Some(a) => if a.expiration_ledger >= env.ledger.sequence {
                a.amount
            } else {
                0
            },
            None => 0,
        }
    }

    /// Moves `amount` from `from` to `to` on the strength of an allowance that
    /// `from` gave `spender`.
    pub fn transfer_from(
        &mut self,
        env: &mut Env<Effect>,
        spender: Address,
        from: Address,
        to: Address,
        amount: i128,
    ) -> (r: Result<(), TokenError>)
        requires
            old(self)@.transfer_from_guard(
                spender,
                from,
                amount,
                old(env).ledger.sequence,
            ) is Ok ==> old(self)@.transfer_fits(from, to, amount),
        ensures
            r == old(self)@.transfer_from_guard(
                spender,
                from,
                amount,
                old(env).ledger.sequence,
            ),
            r is Err ==> final(self)@ == old(self)@ && final(env).adds(
                *old(env),
                if amount <= 0 {
                    Seq::empty()
                } else {
                    seq![Effect::RequireAuth(spender)]
                },
            ),
            r is Ok ==> {
                &&& final(self)@ == old(self)@.transferred_from(spender, from, to, amount)
                &&& final(env).adds(
                    *old(env),
                    seq![Effect::RequireAuth(spender)] + moved_fx(from, to, amount),
                )
            },
    {
        let ghost before = env.effects@;
        assert(before =~= before + Seq::<Effect>::empty());
        if amount <= 0 {
            return Err(TokenError::InvalidAmount);
        }
        env.emit(Effect::RequireAuth(spender));
        let current: i128 = self.allowance(env, from, spender);
        if current < amount {
            return Err(TokenError::InsufficientAllowance);
        }
        if self.balance(from) < amount {
            return Err(TokenError::InsufficientBalance);
        }
        let remaining: i128 = current - amount;
        if remaining == 0 {
            self.allowances.remove(&(from, spender));
        } else {
            let expiration_ledger: u32 = match self.allowances.copied(&(from, spender)) {
                Some(a) => a.expiration_ledger,
                None => env.ledger.sequence,
            };
            self.allowances.set(
                (from, spender),
                AllowanceValue { amount: remaining, expiration_ledger },
            );
        }
        self.move_balance(env, from, to, amount);
        assert(env.effects@ =~= before + (seq![Effect::RequireAuth(spender)] + moved_fx(
            from,
            to,
            amount,
        )));
        Ok(())
    }

    /// Destroys `amount` of what `from` owns. Not while paused.
    pub fn burn(&mut self, env: &mut Env<Effect>, from: Address, amount: i128) -> (r: Result<
        (),
        TokenError,
    >)
        requires
            old(self)@.burn_guard(from, amount) is Ok ==> old(self)@.total_supply - amount
                >= i128::MIN,
        ensures
            r == old(self)@.burn_guard(from, amount),
            r is Err ==> final(self)@ == old(self)@ && final(env).adds(
                *old(env),
                if old(self)@.paused || amount <= 0 {
                    Seq::empty()
                } else {
                    seq![Effect::RequireAuth(from)]
                },
            ),
            r is Ok ==> {
                &&& final(self)@ == (TokenView {
                    balances: debit(old(self)@.balances, from, amount),
                    total_supply: (old(self)@.total_supply - amount) as i128,
                    ..old(self)@
                })
                &&& final(env).adds(
                    *old(env),
                    seq![
                        Effect::RequireAuth(from),
                        bump(DataKey::Balance(from)),
                        Effect::Publish(Event::Burn { from, amount }),
                    ],
                )
            },
    {
        let ghost before = env.effects@;
        assert(before =~= before + Seq::<Effect>::empty());
        if self.paused {
            return Err(TokenError::Paused);
        }
        if amount <= 0 {
            return Err(TokenError::InvalidAmount);
        }
        env.emit(Effect::RequireAuth(from));
        let from_balance: i128 = self.balance(from);
        if from_balance < amount {
            return Err(TokenError::InsufficientBalance);
        }
        self.balances.set(from, from_balance - amount);
        emit_bump(env, DataKey::Balance(from));
        self.total_supply = self.total_supply - amount;
        env.emit(Effect::Publish(Event::Burn { from, amount }));
        assert(env.effects@ =~= before + seq![
            Effect::RequireAuth(from),
            bump(DataKey::Balance(from)),
            Effect::Publish(Event::Burn { from, amount }),
        ]);
        Ok(())
    }

    pub fn balance(&self, account: Address) -> (r: i128)
        ensures
            r == self@.balance(account),
    {
        match self.balances.copied(&account) {
            Some(n) => n,
            None => 0,
        }
    }

    pub fn total_supply(&self) -> (r: i128)
        ensures
            r == self@.total_supply,
    {
        self.total_supply
    }

    /// The token's name: "PULSE" unless it was given another.
    pub fn name(&self) -> (r: Vec<u8>)
        ensures
            r@ == (match self@.name {
                Some(n) => n,
                None => default_name(),
            }),
    {
        match &self.name {
            Some(n) => copy_text(n),
            None => {
                let r: Vec<u8> = vec![0x50, 0x55, 0x4c, 0x53, 0x45];
                assert(r@ =~= default_name());
                r
            },
        }
    }

    /// The token's symbol: "PLSE" unless it was given another.
    pub fn symbol(&self) -> (r: Vec<u8>)
        ensures
            r@ == (match self@.symbol {
                Some(n) => n,
                None => default_symbol(),
            }),
    {
        match &self.symbol {
            Some(n) => copy_text(n),
            None => {
                let r: Vec<u8> = vec![0x50, 0x4c, 0x53, 0x45];
                assert(r@ =~= default_symbol());
                r
            },
        }
    }

    /// The number of decimals: seven unless another was given.
    pub fn decimals(&self) -> (r: u32)
        ensures
            r == self@.decimals.unwrap_or(7),
    {
        self.decimals.unwrap_or(7)
    }
}

} // verus!
