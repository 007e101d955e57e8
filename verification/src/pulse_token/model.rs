//! The token contract as a state machine: when a call is refused, and what an
//! accepted one makes of the contents.

use crate::env::Address;
use crate::pulse_token::types::{
    bump, AllowanceValue, DataKey, Effect, Event, TokenError, TokenView, MAX_MINTERS,
};
use vstd::prelude::*;

verus! {

/// The balance of an account.
pub open spec fn balance_in(b: Map<Address, i128>, a: Address) -> i128 {
    match b.get(a) {
        Some(n) => n,
        None => 0,
    }
}

/// `amount` taken from one account.
pub open spec fn debit(b: Map<Address, i128>, a: Address, amount: i128) -> Map<Address, i128> {
    b.insert(a, (balance_in(b, a) - amount) as i128)
}

/// `amount` added to one account.
pub open spec fn credit(b: Map<Address, i128>, a: Address, amount: i128) -> Map<Address, i128> {
    b.insert(a, (balance_in(b, a) + amount) as i128)
}

/// `amount` moved from one account to another.
pub open spec fn moved(b: Map<Address, i128>, from: Address, to: Address, amount: i128) -> Map<
    Address,
    i128,
> {
    credit(debit(b, from, amount), to, amount)
}

impl TokenView {
    /// The contents before `initialize`.
    pub open spec fn empty() -> Self {
        TokenView {
            admin: None,
            name: None,
            symbol: None,
            decimals: None,
            total_supply: 0,
            paused: false,
            authorized: Map::empty(),
            minter_at: Map::empty(),
            minter_count: 0,
            minter_index: Map::empty(),
            balances: Map::empty(),
            allowances: Map::empty(),
        }
    }

    /// Only the admin may call.
    pub open spec fn admin_guard(self, caller: Address) -> Result<(), TokenError> {
        match self.admin {
            None => Err(TokenError::NotInitialized),
            Some(a) => if caller != a {
                Err(TokenError::NotAdmin)
            } else {
                Ok(())
            },
        }
    }

    /// May this address mint?
    pub open spec fn is_minter(self, a: Address) -> bool {
        self.authorized.get(a) == Some(true)
    }

    /// Can `minter` be added?
    pub open spec fn set_minter_guard(self, minter: Address) -> Result<(), TokenError> {
        if self.admin is None {
            Err(TokenError::NotInitialized)
        } else if self.is_minter(minter) {
            Err(TokenError::AlreadyMinter)
        } else if self.minter_count >= MAX_MINTERS {
            Err(TokenError::MinterListFull)
        } else {
            Ok(())
        }
    }

    /// The contents with one more minter, who is listed last.
    pub open spec fn with_minter(self, minter: Address) -> Self {
        TokenView {
            authorized: self.authorized.insert(minter, true),
            minter_index: self.minter_index.insert(minter, self.minter_count),
            minter_at: self.minter_at.insert(self.minter_count, minter),
            minter_count: (self.minter_count + 1) as u32,
            ..self
        }
    }

    /// Can `minter` be removed?
    pub open spec fn remove_minter_guard(self, minter: Address) -> Result<(), TokenError> {
        if self.admin is None {
            Err(TokenError::NotInitialized)
        } else if !self.is_minter(minter) {
            Err(TokenError::NotMinter)
        } else {
            Ok(())
        }
    }

    /// The addresses listed in places `0 .. n` that may still mint.
    pub open spec fn minters(self, n: nat) -> Seq<Address>
        decreases n,
    {
        if n == 0 {
            Seq::empty()
        } else {
            let rest = self.minters((n - 1) as nat);
            let i = (n - 1) as u32;
            if self.minter_at.contains_key(i) && self.is_minter(self.minter_at[i]) {
                rest.push(self.minter_at[i])
            } else {
                rest
            }
        }
    }

    pub open spec fn balance(self, a: Address) -> i128 {
        balance_in(self.balances, a)
    }

    /// Can `minter` mint `amount`?
    pub open spec fn mint_guard(self, minter: Address, amount: i128) -> Result<(), TokenError> {
        if self.paused {
            Err(TokenError::Paused)
        } else if amount <= 0 {
            Err(TokenError::InvalidAmount)
        } else if !self.is_minter(minter) {
            Err(TokenError::UnauthorizedMinter)
        } else {
            Ok(())
        }
    }

    /// Can `from` transfer `amount`?
    pub open spec fn transfer_guard(self, from: Address, amount: i128) -> Result<(), TokenError> {
        if amount <= 0 {
            Err(TokenError::InvalidAmount)
        } else if self.balance(from) < amount {
            Err(TokenError::InsufficientBalance)
        } else {
            Ok(())
        }
    }

    /// Can `from` burn `amount`?
    pub open spec fn burn_guard(self, from: Address, amount: i128) -> Result<(), TokenError> {
        if self.paused {
            Err(TokenError::Paused)
        } else {
            self.transfer_guard(from, amount)
        }
    }

    /// Can an allowance of `amount` until `expiration` be given in ledger
    /// `sequence`?
    pub open spec fn approve_guard(amount: i128, expiration: u32, sequence: u32) -> Result<
        (),
        TokenError,
    > {
        if amount < 0 {
            Err(TokenError::InvalidAmount)
        } else if amount > 0 && expiration < sequence {
            Err(TokenError::InvalidExpirationLedger)
        } else {
            Ok(())
        }
    }

    /// The contents with an allowance given, or revoked if `amount` is zero.
    pub open spec fn with_allowance(
        self,
        from: Address,
        spender: Address,
        amount: i128,
        expiration: u32,
    ) -> Self {
        TokenView {
            allowances: if amount == 0 {
                self.allowances.remove((from, spender))
            } else {
                self.allowances.insert(
                    (from, spender),
                    AllowanceValue { amount, expiration_ledger: expiration },
                )
            },
            ..self
        }
    }

    /// What `spender` may still transfer on behalf of `from` in ledger `sequence`.
    pub open spec fn allowance(self, from: Address, spender: Address, sequence: u32) -> i128 {
        match self.allowances.get((from, spender)) {
            Some(a) => if a.expiration_ledger >= sequence {
                a.amount
            } else {
                0
            },
            None => 0,
        }
    }

    /// Can `spender` transfer `amount` on behalf of `from`?
    pub open spec fn transfer_from_guard(
        self,
        spender: Address,
        from: Address,
        amount: i128,
        sequence: u32,
    ) -> Result<(), TokenError> {
        if amount <= 0 {
            Err(TokenError::InvalidAmount)
        } else if self.allowance(from, spender, sequence) < amount {
            Err(TokenError::InsufficientAllowance)
        } else if self.balance(from) < amount {
            Err(TokenError::InsufficientBalance)
        } else {
            Ok(())
        }
    }

    /// The contents after a transfer on a holder's behalf. The allowance is
    /// spent down and keeps its expiration; one that is used up is removed.
    pub open spec fn transferred_from(
        self,
        spender: Address,
        from: Address,
        to: Address,
        amount: i128,
    ) -> Self {
        let given = self.allowances[(from, spender)];
        TokenView {
            balances: moved(self.balances, from, to, amount),
            ..self.with_allowance(
                from,
                spender,
                (given.amount - amount) as i128,
                given.expiration_ledger,
            )
        }
    }

    /// Does the account that receives `amount` from `from` have room for it?
    pub open spec fn transfer_fits(self, from: Address, to: Address, amount: i128) -> bool {
        balance_in(debit(self.balances, from, amount), to) + amount <= i128::MAX
    }
}

/// What moving tokens asks of the host.
pub open spec fn moved_fx(from: Address, to: Address, amount: i128) -> Seq<Effect> {
    seq![
        bump(DataKey::Balance(from)),
        bump(DataKey::Balance(to)),
        Effect::Publish(Event::Transfer { from, to, amount }),
    ]
}

/// The name of a token that was given none.
pub open spec fn default_name() -> Seq<u8> {
    seq![0x50u8, 0x55u8, 0x4cu8, 0x53u8, 0x45u8]
}

/// The symbol of a token that was given none.
pub open spec fn default_symbol() -> Seq<u8> {
    seq![0x50u8, 0x4cu8, 0x53u8, 0x45u8]
}

} // verus!
