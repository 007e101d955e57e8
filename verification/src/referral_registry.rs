//! The registry of display names: whoever registers pays for the bytes stored.

use crate::env::{Address, Env};
use crate::table::Table;
use vstd::prelude::*;

verus! {

/// What one byte of a display name costs.
pub const STORAGE_FEE_PER_BYTE: u64 = 1000;

/// The longest display name, in bytes.
pub const MAX_NAME_BYTES: usize = 64;

/// Entries with fewer ledgers than this to live are extended when touched.
pub const TTL_BUMP: u32 = 3_153_600;

/// The lifetime, in ledgers, to which an entry is extended.
pub const TTL_HIGH: u32 = 6_307_200;

#[derive(Clone, Copy, Debug, PartialEq, Eq, PartialOrd, Ord, Structural)]
pub enum ReferralError {
    AlreadyInitialized,
    NotInitialized,
    UnauthorizedCaller,
    InvalidDisplayName,
    IncompatibleInterface,
    NameTooLong,
    InsufficientFee,
}

impl ReferralError {
    /// The number under which callers of the contract see the error.
    pub open spec fn number(self) -> u32 {
        match self {
            ReferralError::AlreadyInitialized => 1,
            ReferralError::NotInitialized => 2,
            ReferralError::UnauthorizedCaller => 3,
            ReferralError::InvalidDisplayName => 10,
            ReferralError::IncompatibleInterface => 11,
            ReferralError::NameTooLong => 12,
            ReferralError::InsufficientFee => 13,
        }
    }

    /// The number under which callers of the contract see the error.
    pub fn code(&self) -> (n: u32)
        ensures
            n == self.number(),
    {
        match self {
            ReferralError::AlreadyInitialized => 1,
            ReferralError::NotInitialized => 2,
            ReferralError::UnauthorizedCaller => 3,
            ReferralError::InvalidDisplayName => 10,
            ReferralError::IncompatibleInterface => 11,
            ReferralError::NameTooLong => 12,
            ReferralError::InsufficientFee => 13,
        }
    }
}

/// The storage keys of the contract.
#[derive(Clone, Copy, Debug, PartialEq, Eq, Structural)]
pub enum DataKey {
    Admin,
    Profile(Address),
}

/// What the contract announces.
#[derive(Clone, Debug, PartialEq, Eq)]
pub enum Event {
    ReferralRegistered { caller: Address, display_name: Vec<u8> },
}

impl Event {
    /// The name under which the event is published.
    pub fn topic(&self) -> (s: &'static str)
        ensures
            s@ == "referral_registered"@,
    {
        match self {
            Event::ReferralRegistered { .. } => "referral_registered",
        }
    }
}

/// What the contract asks of its host.
#[derive(Clone, Debug, PartialEq, Eq)]
pub enum Effect {
    /// Fail unless the address has authorized the call.
    RequireAuth(Address),
    /// Extend the lifetime of what the contract instance holds.
    ExtendInstanceTtl { threshold: u32, extend_to: u32 },
    /// Extend the lifetime of one stored entry.
    ExtendTtl { key: DataKey, threshold: u32, extend_to: u32 },
    /// Hand an account what is left of its balance.
    BankTransfer { to: Address, amount: u64 },
    Publish(Event),
}

/// The registry contract: all that it stores.
pub struct ReferralContract {
    pub admin: Option<Address>,
    pub profiles: Table<Address, Vec<u8>>,
}

/// The contents of the registry.
#[verifier::ext_equal]
pub struct ReferralView {
    pub admin: Option<Address>,
    pub profiles: Map<Address, Seq<u8>>,
}

impl View for ReferralContract {
    type V = ReferralView;

    open spec fn view(&self) -> ReferralView {
        ReferralView {
            admin: self.admin,
            profiles: self.profiles@.map_values(|n: Vec<u8>| n@),
        }
    }
}

impl ReferralView {
    /// What a display name costs.
    pub open spec fn fee(display_name: Seq<u8>) -> int {
        display_name.len() * STORAGE_FEE_PER_BYTE
    }

    /// Can an account with this balance register this name?
    pub open spec fn register_guard(self, display_name: Seq<u8>, balance: u64) -> Result<
        (),
        ReferralError,
    > {
        if self.admin is None {
            Err(ReferralError::NotInitialized)
        } else if display_name.len() == 0 {
            Err(ReferralError::InvalidDisplayName)
        } else if display_name.len() > MAX_NAME_BYTES {
            Err(ReferralError::NameTooLong)
        } else if balance < Self::fee(display_name) {
            Err(ReferralError::InsufficientFee)
        } else {
            Ok(())
        }
    }

    /// The contents with a name registered.
    pub open spec fn with_profile(self, caller: Address, display_name: Seq<u8>) -> Self {
        ReferralView { profiles: self.profiles.insert(caller, display_name), ..self }
    }
}

impl ReferralContract {
    /// A contract that has just been deployed.
    pub fn new() -> (c: Self)
        ensures
            c@ == (ReferralView { admin: None, profiles: Map::empty() }),
    {
        ReferralContract { admin: None, profiles: Table::new() }
    }

    /// Sets the registry up. This happens once.
    pub fn initialize(&mut self, env: &mut Env<Effect>, admin: Address) -> (r: Result<
        (),
        ReferralError,
    >)
        ensures
            old(self)@.admin is Some ==> {
                &&& r == Err::<(), _>(ReferralError::AlreadyInitialized)
                &&& final(self)@ == old(self)@
                &&& final(env).adds(*old(env), Seq::empty())
            },
            old(self)@.admin is None ==> {
                &&& r is Ok
                &&& final(self)@ == (ReferralView { admin: Some(admin), ..old(self)@ })
                &&& final(env).adds(
                    *old(env),
                    seq![
                        Effect::RequireAuth(admin),
                        Effect::ExtendInstanceTtl { threshold: TTL_BUMP, extend_to: TTL_HIGH },
                    ],
                )
            },
    {
        let ghost before = env.effects@;
        if self.admin.is_some() {
            assert(env.effects@ =~= before + Seq::<Effect>::empty());
            return Err(ReferralError::AlreadyInitialized);
        }
        env.emit(Effect::RequireAuth(admin));
        self.admin = Some(admin);
        env.emit(Effect::ExtendInstanceTtl { threshold: TTL_BUMP, extend_to: TTL_HIGH });
        assert(env.effects@ =~= before + seq![
            Effect::RequireAuth(admin),
            Effect::ExtendInstanceTtl { threshold: TTL_BUMP, extend_to: TTL_HIGH },
        ]);
        Ok(())
    }

    /// Registers the caller's display name, for a fee of
    /// [`STORAGE_FEE_PER_BYTE`] for each of its bytes. `balance` is what the
    /// caller has; the caller gets back what the fee leaves of it.
    pub fn register_referral(
        &mut self,
        env: &mut Env<Effect>,
        caller: Address,
        display_name: Vec<u8>,
        balance: u64,
    ) -> (r: Result<(), ReferralError>)
        ensures
            r == old(self)@.register_guard(display_name@, balance),
            r is Err ==> {
                &&& final(self)@ == old(self)@
                &&& final(env).adds(*old(env), seq![Effect::RequireAuth(caller)])
            },
            r is Ok ==> {
                &&& final(self)@ == old(self)@.with_profile(caller, display_name@)
                &&& final(env).adds(
                    *old(env),
                    seq![
                        Effect::RequireAuth(caller),
                        Effect::ExtendTtl {
                            key: DataKey::Profile(caller),
                            threshold: TTL_BUMP,
                            extend_to: TTL_HIGH,
                        },
                        Effect::BankTransfer {
                            to: caller,
                            amount: (balance - ReferralView::fee(display_name@)) as u64,
                        },
                        Effect::Publish(Event::ReferralRegistered { caller, display_name }),
                    ],
                )
            },
    {
        let ghost before = env.effects@;
        env.emit(Effect::RequireAuth(caller));
        if self.admin.is_none() {
            return Err(ReferralError::NotInitialized);
        }
        let name_len: usize = display_name.len();
        if name_len == 0 {
            return Err(ReferralError::InvalidDisplayName);
        }
        if name_len > MAX_NAME_BYTES {
            return Err(ReferralError::NameTooLong);
        }
        let storage_fee: u64 = name_len as u64 * STORAGE_FEE_PER_BYTE;
        if balance < storage_fee {
            return Err(ReferralError::InsufficientFee);
        }
        let stored = display_name.clone();
        assert(stored@ =~= display_name@);
        self.profiles.set(caller, stored);
        env.emit(
            Effect::ExtendTtl {
                key: DataKey::Profile(caller),
                threshold: TTL_BUMP,
                extend_to: TTL_HIGH,
            },
        );
        let remaining_balance: u64 = balance - storage_fee;
        env.emit(Effect::BankTransfer { to: caller, amount: remaining_balance });
        env.emit(Effect::Publish(Event::ReferralRegistered { caller, display_name }));
        assert(env.effects@ =~= before + seq![
            Effect::RequireAuth(caller),
            Effect::ExtendTtl {
                key: DataKey::Profile(caller),
                threshold: TTL_BUMP,
                extend_to: TTL_HIGH,
            },
            Effect::BankTransfer { to: caller, amount: remaining_balance },
            Effect::Publish(Event::ReferralRegistered { caller, display_name }),
        ]);
        Ok(())
    }

    /// The display name that a user registered last.
    pub fn get_display_name(&self, user: Address) -> (r: Option<&Vec<u8>>)
        ensures
            (match r {
                Some(n) => Some(n@),
                None => None,
            }) == self@.profiles.get(user),
    {
        self.profiles.get(&user)
    }

    pub fn is_initialized(&self) -> (r: bool)
        ensures
            r == (self@.admin is Some),
    {
        self.admin.is_some()
    }
}

/// A registered name reads back as it was given, and touches no other name.
pub proof fn law_name_reads_back(v: ReferralView, caller: Address, display_name: Seq<u8>)
    ensures
        v.with_profile(caller, display_name).profiles.get(caller) == Some(display_name),
        v.with_profile(caller, display_name).admin == v.admin,
        forall|a: Address|
            a != caller ==> v.with_profile(caller, display_name).profiles.get(a)
                == #[trigger] v.profiles.get(a),
{
}

/// A balance is enough or not by the number of bytes alone, and the fee never
/// takes more than the balance.
pub proof fn law_fee_is_by_the_byte(v: ReferralView, display_name: Seq<u8>, balance: u64)
    requires
        v.admin is Some,
        1 <= display_name.len() <= MAX_NAME_BYTES,
    ensures
        v.register_guard(display_name, balance) is Ok <==> balance >= 1000 * display_name.len(),
        v.register_guard(display_name, balance) is Ok ==> 0 <= balance - ReferralView::fee(
            display_name,
        ) < balance,
{
}

/// A name is registered if the registry is set up, the name has one to sixty-four bytes,
/// and the balance covers a thousand for each of them. Otherwise the first of these that
/// fails is the reason given.
pub proof fn law_when_a_name_is_registered(v: ReferralView, display_name: Seq<u8>, balance: u64)
    ensures
        ({
            let g = v.register_guard(display_name, balance);
            let n = display_name.len();
            let ready = v.admin is Some;
            &&& g is Ok <==> ready && 1 <= n <= 64 && 1000 * n <= balance
            &&& g == Err::<(), _>(ReferralError::NotInitialized) <==> !ready
            &&& g == Err::<(), _>(ReferralError::InvalidDisplayName) <==> ready && n == 0
            &&& g == Err::<(), _>(ReferralError::NameTooLong) <==> ready && n > 64
            &&& g == Err::<(), _>(ReferralError::InsufficientFee) <==> ready && 1 <= n <= 64 && 1000
                * n > balance
            &&& ReferralView::fee(display_name) == 1000 * n
        }),
{
}

/// The contents are all that is stored.
pub proof fn law_the_contents_are_what_is_stored(c: ReferralContract, a: Address)
    ensures
        c@.admin == c.admin,
        c@.profiles.contains_key(a) <==> c.profiles@.contains_key(a),
        c@.profiles.contains_key(a) ==> c@.profiles[a] == c.profiles@[a]@,
{
}

} // verus!
