//! What the token stores, what it asks of its host, and how it refuses.

use crate::env::{Address, Bytes32, Env};
use crate::table::Table;
use vstd::prelude::*;

verus! {

/// Version of this contract's interface.
pub const INTERFACE_VERSION: u32 = 1;

/// Entries with fewer ledgers than this to live are extended when touched.
pub const TTL_BUMP: u32 = 3_153_600;

/// The lifetime, in ledgers, to which an entry is extended.
pub const TTL_HIGH: u32 = 6_307_200;

/// How many times a minter can be added.
pub const MAX_MINTERS: u32 = 10;

#[derive(Clone, Copy, Debug, PartialEq, Eq, PartialOrd, Ord, Structural)]
pub enum TokenError {
    AlreadyInitialized,
    NotInitialized,
    UnauthorizedMinter,
    InsufficientBalance,
    InvalidAmount,
    NotAdmin,
    InsufficientAllowance,
    InvalidExpirationLedger,
    /// The operation is halted while the contract is paused.
    Paused,
    AlreadyMinter,
    NotMinter,
    MinterListFull,
}

impl TokenError {
    /// The number under which callers of the contract see the error.
    pub open spec fn number(self) -> u32 {
        match self {
            TokenError::AlreadyInitialized => 1,
            TokenError::NotInitialized => 2,
            TokenError::UnauthorizedMinter => 3,
            TokenError::InsufficientBalance => 4,
            TokenError::InvalidAmount => 5,
            TokenError::NotAdmin => 6,
            TokenError::InsufficientAllowance => 7,
            TokenError::InvalidExpirationLedger => 8,
            TokenError::Paused => 9,
            TokenError::AlreadyMinter => 10,
            TokenError::NotMinter => 11,
            TokenError::MinterListFull => 12,
        }
    }

    /// The number under which callers of the contract see the error.
    pub fn code(&self) -> (n: u32)
        ensures
            n == self.number(),
    {
        match self {
            TokenError::AlreadyInitialized => 1,
            TokenError::NotInitialized => 2,
            TokenError::UnauthorizedMinter => 3,
            TokenError::InsufficientBalance => 4,
            TokenError::InvalidAmount => 5,
            TokenError::NotAdmin => 6,
            TokenError::InsufficientAllowance => 7,
            TokenError::InvalidExpirationLedger => 8,
            TokenError::Paused => 9,
            TokenError::AlreadyMinter => 10,
            TokenError::NotMinter => 11,
            TokenError::MinterListFull => 12,
        }
    }
}

/// The storage keys of the contract.
#[derive(Clone, Copy, Debug, PartialEq, Eq, Structural)]
pub enum DataKey {
    Admin,
    AuthorizedMinter(Address),
    Balance(Address),
    TotalSupply,
    Name,
    Symbol,
    Decimals,
    Allowance(Address, Address),
    Paused,
    MinterAt(u32),
    MinterCount,
    MinterIndex(Address),
}

/// What a spender may still transfer on a holder's behalf, and until when.
#[derive(Clone, Copy, Debug, PartialEq, Eq, Structural)]
pub struct AllowanceValue {
    pub amount: i128,
    /// The last ledger in which the allowance holds.
    pub expiration_ledger: u32,
}

/// What the contract announces.
#[derive(Clone, Debug, PartialEq, Eq)]
pub enum Event {
    Initialized { admin: Address, name: Vec<u8>, symbol: Vec<u8>, decimals: u32 },
    Paused { admin: Address },
    Unpaused { admin: Address },
    MinterAdded { minter: Address },
    Mint { minter: Address, to: Address, amount: i128 },
    Transfer { from: Address, to: Address, amount: i128 },
    Burn { from: Address, amount: i128 },
}

impl Event {
    /// The name under which the event is published.
    pub open spec fn spec_topic(self) -> Seq<char> {
        match self {
            Event::Initialized { .. } => "initialized"@,
            Event::Paused { .. } => "paused"@,
            Event::Unpaused { .. } => "unpaused"@,
            Event::MinterAdded { .. } => "minter_added"@,
            Event::Mint { .. } => "mint"@,
            Event::Transfer { .. } => "transfer"@,
            Event::Burn { .. } => "burn"@,
        }
    }

    /// The name under which the event is published.
    pub fn topic(&self) -> (s: &'static str)
        ensures
            s@ == self.spec_topic(),
    {
        match self {
            Event::Initialized { .. } => "initialized",
            Event::Paused { .. } => "paused",
            Event::Unpaused { .. } => "unpaused",
            Event::MinterAdded { .. } => "minter_added",
            Event::Mint { .. } => "mint",
            Event::Transfer { .. } => "transfer",
            Event::Burn { .. } => "burn",
        }
    }
}

/// What the contract asks of its host.
#[derive(Clone, Debug, PartialEq, Eq)]
pub enum Effect {
    /// Fail unless the address has authorized the call.
    RequireAuth(Address),
    /// Extend the lifetime of one stored entry.
    ExtendTtl { key: DataKey, threshold: u32, extend_to: u32 },
    Publish(Event),
    /// Replace the contract's code.
    UpdateWasm(Bytes32),
}

/// Extension of one stored entry by the usual amounts.
pub open spec fn bump(key: DataKey) -> Effect {
    Effect::ExtendTtl { key, threshold: TTL_BUMP, extend_to: TTL_HIGH }
}

/// Asks for the extension of one stored entry.
pub(crate) fn emit_bump(env: &mut Env<Effect>, key: DataKey)
    ensures
        final(env).adds(*old(env), seq![bump(key)]),
{
    env.emit(Effect::ExtendTtl { key, threshold: TTL_BUMP, extend_to: TTL_HIGH });
}

/// The token contract: all that it stores.
pub struct PULSETokenContract {
    pub admin: Option<Address>,
    pub name: Option<Vec<u8>>,
    pub symbol: Option<Vec<u8>>,
    pub decimals: Option<u32>,
    pub total_supply: i128,
    pub paused: bool,
    pub authorized: Table<Address, bool>,
    pub minter_at: Table<u32, Address>,
    pub minter_count: u32,
    pub minter_index: Table<Address, u32>,
    pub balances: Table<Address, i128>,
    /// Allowances by holder and spender.
    pub allowances: Table<(Address, Address), AllowanceValue>,
}

/// The contents of the token contract.
#[verifier::ext_equal]
pub struct TokenView {
    pub admin: Option<Address>,
    pub name: Option<Seq<u8>>,
    pub symbol: Option<Seq<u8>>,
    pub decimals: Option<u32>,
    pub total_supply: i128,
    pub paused: bool,
    pub authorized: Map<Address, bool>,
    pub minter_at: Map<u32, Address>,
    pub minter_count: u32,
    pub minter_index: Map<Address, u32>,
    pub balances: Map<Address, i128>,
    pub allowances: Map<(Address, Address), AllowanceValue>,
}

/// A text that may be missing.
pub open spec fn text(t: Option<Vec<u8>>) -> Option<Seq<u8>> {
    match t {
        Some(v) => Some(v@),
        None => None,
    }
}

impl View for PULSETokenContract {
    type V = TokenView;

    open spec fn view(&self) -> TokenView {
        TokenView {
            admin: self.admin,
            name: text(self.name),
            symbol: text(self.symbol),
            decimals: self.decimals,
            total_supply: self.total_supply,
            paused: self.paused,
            authorized: self.authorized@,
            minter_at: self.minter_at@,
            minter_count: self.minter_count,
            minter_index: self.minter_index@,
            balances: self.balances@,
            allowances: self.allowances@,
        }
    }
}

} // verus!
