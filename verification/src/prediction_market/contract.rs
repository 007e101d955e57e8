//! The calls of the market contract.

use crate::env::{Address, Bytes32, Env};
use crate::prediction_market::model::{in_range, rate};
use crate::prediction_market::types::{
    bump, emit_bump, Category, Config, DataKey, Effect, Limits, Market, MarketError, MarketsView,
    PredictionMarketContract, BPS_DENOM, MAX_BETS_PER_USER, MAX_MARKETS_PER_HOUR,
    MAX_WITHDRAWAL_BPS, MIN_BET, MIN_MARKET_DURATION_SECS, NET_NUMERATOR, PLATFORM_FEE_BPS,
    RATE_WINDOW_SECS, TOTAL_FEE_BPS, TTL_BUMP, TTL_HIGH, WITHDRAW_DELAY_SECS,
};
use crate::table::Table;
use vstd::prelude::*;

verus! {

impl PredictionMarketContract {
    /// A contract that has just been deployed.
    pub fn new() -> (c: Self)
        ensures
            c@ == MarketsView::empty(),
    {
        PredictionMarketContract {
            admin: None,
            cfg: None,
            market_count: 0,
            accumulated_fees: 0,
            rate_window: None,
            markets: Table::new(),
            bets: Table::new(),
            bettor_count: Table::new(),
            bettor_at: Table::new(),
            resolvers: Table::new(),
            fee_recipients: Table::new(),
            has_referrer: Table::new(),
            payouts: Table::new(),
            market_fees: Table::new(),
            pending_withdrawals: Table::new(),
        }
    }

    /// Sets the contract up. This happens once.
    pub fn initialize(
        &mut self,
        env: &mut Env<Effect>,
        admin: Address,
        token_contract: Address,
        referral_contract: Address,
        leaderboard_contract: Address,
        xlm_sac: Address,
    ) -> (r: Result<(), MarketError>)
        ensures
            old(self)@.admin is Some ==> {
                &&& r == Err::<(), _>(MarketError::AlreadyInitialized)
                &&& final(self)@ == old(self)@
                &&& final(env).adds(*old(env), Seq::empty())
            },
            old(self)@.admin is None ==> {
                &&& r is Ok
                &&& final(self)@ == (MarketsView {
                    admin: Some(admin),
                    cfg: Some(
                        Config {
                            token: token_contract,
                            referral: referral_contract,
                            leaderboard: leaderboard_contract,
                            xlm_sac,
                        },
                    ),
                    market_count: 0,
                    accumulated_fees: 0,
                    ..old(self)@
                })
                &&& final(env).adds(*old(env), seq![Effect::RequireAuth(admin)])
            },
    {
        assert(env.effects@ =~= env.effects@ + Seq::<Effect>::empty());
        if self.admin.is_some() {
            return Err(MarketError::AlreadyInitialized);
        }
        env.emit(Effect::RequireAuth(admin));
        self.admin = Some(admin);
        self.cfg = Some(
            Config {
                token: token_contract,
                referral: referral_contract,
                leaderboard: leaderboard_contract,
                xlm_sac,
            },
        );
        self.market_count = 0;
        self.accumulated_fees = 0;
        Ok(())
    }

    pub(crate) fn require_admin(&self, caller: &Address) -> (r: Result<(), MarketError>)
        ensures
            r == self@.admin_guard(*caller),
    {
        match self.admin {
            None => Err(MarketError::NotInitialized),
            Some(admin) => if *caller != admin {
                Err(MarketError::NotAdmin)
            } else {
                Ok(())
            },
        }
    }

    pub(crate) fn require_admin_or_resolver(&self, caller: &Address) -> (r: Result<(), MarketError>)
        ensures
            r == self@.resolver_guard(*caller),
    {
        match self.admin {
            None => Err(MarketError::NotInitialized),
            Some(admin) => if *caller == admin || self.is_resolver(*caller) {
                Ok(())
            } else {
                Err(MarketError::NotResolver)
            },
        }
    }

    pub(crate) fn require_admin_or_fee_recipient(&self, caller: &Address) -> (r: Result<(), MarketError>)
        ensures
            r == self@.fee_guard(*caller),
    {
        match self.admin {
            None => Err(MarketError::NotInitialized),
            Some(admin) => if *caller == admin || self.is_fee_recipient(*caller) {
                Ok(())
            } else {
                Err(MarketError::NotAuthorized)
            },
        }
    }

    pub(crate) fn require_valid_fee_recipient(&self, caller: &Address, recipient: &Address) -> (r: Result<
        (),
        MarketError,
    >)
        ensures
            r == self@.recipient_guard(*caller, *recipient),
    {
        match self.admin {
            None => Err(MarketError::NotInitialized),
            Some(admin) => if *recipient == *caller || *recipient == admin
                || self.is_fee_recipient(*recipient) {
                Ok(())
            } else {
                Err(MarketError::InvalidFeeRecipient)
            },
        }
    }

    /// Replaces the contract's code. Admin only. What is stored stays.
    pub fn upgrade(&self, env: &mut Env<Effect>, admin: Address, new_wasm_hash: Bytes32) -> (r:
        Result<(), MarketError>)
        ensures
            r == self@.admin_guard(admin),
            r is Err ==> final(env).adds(*old(env), Seq::empty()),
            r is Ok ==> final(env).adds(
                *old(env),
                seq![Effect::RequireAuth(admin), Effect::UpdateWasm(new_wasm_hash)],
            ),
    {
        let ghost before = env.effects@;
        assert(before =~= before + Seq::<Effect>::empty());
        if let Err(e) = self.require_admin(&admin) {
            return Err(e);
        }
        env.emit(Effect::RequireAuth(admin));
        env.emit(Effect::UpdateWasm(new_wasm_hash));
        assert(env.effects@ =~= before + seq![
            Effect::RequireAuth(admin),
            Effect::UpdateWasm(new_wasm_hash),
        ]);
        Ok(())
    }

    /// Replaces the addresses of the contracts that this one works with. Admin only.
    pub fn set_config(
        &mut self,
        env: &mut Env<Effect>,
        admin: Address,
        token_contract: Address,
        referral_contract: Address,
        leaderboard_contract: Address,
        xlm_sac: Address,
    ) -> (r: Result<(), MarketError>)
        ensures
            r == old(self)@.admin_guard(admin),
            r is Err ==> final(self)@ == old(self)@ && final(env).adds(*old(env), Seq::empty()),
            r is Ok ==> {
                &&& final(self)@ == (MarketsView {
                    cfg: Some(
                        Config {
                            token: token_contract,
                            referral: referral_contract,
                            leaderboard: leaderboard_contract,
                            xlm_sac,
                        },
                    ),
                    ..old(self)@
                })
                &&& final(env).adds(*old(env), seq![Effect::RequireAuth(admin)])
            },
    {
        assert(env.effects@ =~= env.effects@ + Seq::<Effect>::empty());
        if let Err(e) = self.require_admin(&admin) {
            return Err(e);
        }
        env.emit(Effect::RequireAuth(admin));
        self.cfg = Some(
            Config {
                token: token_contract,
                referral: referral_contract,
                leaderboard: leaderboard_contract,
                xlm_sac,
            },
        );
        Ok(())
    }

    /// The contracts that this one works with.
    pub fn get_config(&self) -> (r: Config)
        requires
            self@.cfg is Some,
        ensures
            r == self@.cfg->0,
    {
        self.cfg.unwrap()
    }

    /// Checks that the protocol's constants fit together. They do.
    pub fn validate_config() -> (r: Result<(), MarketError>)
        ensures
            r == (if Limits::protocol().sound() {
                Ok(())
            } else {
                Err(MarketError::InvalidDependency)
            }),
            r is Ok,
    {
        let limits = Limits {
            net_numerator: NET_NUMERATOR,
            total_fee_bps: TOTAL_FEE_BPS,
            platform_fee_bps: PLATFORM_FEE_BPS,
            bps_denom: BPS_DENOM,
            min_bet: MIN_BET,
            max_bets_per_user: MAX_BETS_PER_USER,
            max_markets_per_hour: MAX_MARKETS_PER_HOUR,
            max_withdrawal_bps: MAX_WITHDRAWAL_BPS,
            withdraw_delay_secs: WITHDRAW_DELAY_SECS,
            ttl_bump: TTL_BUMP,
            ttl_high: TTL_HIGH,
            min_market_duration_secs: MIN_MARKET_DURATION_SECS,
        };
        limits.validate()
    }

    /// Lets an address resolve markets. Admin only.
    pub fn add_resolver(&mut self, env: &mut Env<Effect>, admin: Address, resolver: Address) -> (r:
        Result<(), MarketError>)
        ensures
            r == old(self)@.admin_guard(admin),
            r is Err ==> final(self)@ == old(self)@ && final(env).adds(*old(env), Seq::empty()),
            r is Ok ==> {
                &&& final(self)@ == (MarketsView {
                    resolvers: old(self)@.resolvers.insert(resolver, true),
                    ..old(self)@
                })
                &&& final(env).adds(
                    *old(env),
                    seq![Effect::RequireAuth(admin), bump(DataKey::Resolver(resolver))],
                )
            },
    {
        let ghost before = env.effects@;
        assert(before =~= before + Seq::<Effect>::empty());
        if let Err(e) = self.require_admin(&admin) {
            return Err(e);
        }
        env.emit(Effect::RequireAuth(admin));
        self.resolvers.set(resolver, true);
        emit_bump(env, DataKey::Resolver(resolver));
        assert(env.effects@ =~= before + seq![
            Effect::RequireAuth(admin),
            bump(DataKey::Resolver(resolver)),
        ]);
        Ok(())
    }

    /// Stops an address from resolving markets. Admin only.
    pub fn remove_resolver(
        &mut self,
        env: &mut Env<Effect>,
        admin: Address,
        resolver: Address,
    ) -> (r: Result<(), MarketError>)
        ensures
            r == old(self)@.admin_guard(admin),
            r is Err ==> final(self)@ == old(self)@ && final(env).adds(*old(env), Seq::empty()),
            r is Ok ==> {
                &&& final(self)@ == (MarketsView {
                    resolvers: old(self)@.resolvers.remove(resolver),
                    ..old(self)@
                })
                &&& final(env).adds(*old(env), seq![Effect::RequireAuth(admin)])
            },
    {
        assert(env.effects@ =~= env.effects@ + Seq::<Effect>::empty());
        if let Err(e) = self.require_admin(&admin) {
            return Err(e);
        }
        env.emit(Effect::RequireAuth(admin));
        self.resolvers.remove(&resolver);
        Ok(())
    }

    pub fn is_resolver(&self, resolver: Address) -> (r: bool)
        ensures
            r == self@.is_resolver(resolver),
    {
        match self.resolvers.copied(&resolver) {
            Some(b) => b,
            None => false,
        }
    }

    /// Lets an address ask for fees. Admin only.
    pub fn add_fee_recipient(
        &mut self,
        env: &mut Env<Effect>,
        admin: Address,
        recipient: Address,
    ) -> (r: Result<(), MarketError>)
        ensures
            r == old(self)@.admin_guard(admin),
            r is Err ==> final(self)@ == old(self)@ && final(env).adds(*old(env), Seq::empty()),
            r is Ok ==> {
                &&& final(self)@ == (MarketsView {
                    fee_recipients: old(self)@.fee_recipients.insert(recipient, true),
                    ..old(self)@
                })
                &&& final(env).adds(
                    *old(env),
                    seq![Effect::RequireAuth(admin), bump(DataKey::FeeRecipient(recipient))],
                )
            },
    {
        let ghost before = env.effects@;
        assert(before =~= before + Seq::<Effect>::empty());
        if let Err(e) = self.require_admin(&admin) {
            return Err(e);
        }
        env.emit(Effect::RequireAuth(admin));
        self.fee_recipients.set(recipient, true);
        emit_bump(env, DataKey::FeeRecipient(recipient));
        assert(env.effects@ =~= before + seq![
            Effect::RequireAuth(admin),
            bump(DataKey::FeeRecipient(recipient)),
        ]);
        Ok(())
    }

    /// Stops an address from asking for fees. Admin only.
    pub fn remove_fee_recipient(
        &mut self,
        env: &mut Env<Effect>,
        admin: Address,
        recipient: Address,
    ) -> (r: Result<(), MarketError>)
        ensures
            r == old(self)@.admin_guard(admin),
            r is Err ==> final(self)@ == old(self)@ && final(env).adds(*old(env), Seq::empty()),
            r is Ok ==> {
                &&& final(self)@ == (MarketsView {
                    fee_recipients: old(self)@.fee_recipients.remove(recipient),
                    ..old(self)@
                })
                &&& final(env).adds(*old(env), seq![Effect::RequireAuth(admin)])
            },
    {
        assert(env.effects@ =~= env.effects@ + Seq::<Effect>::empty());
        if let Err(e) = self.require_admin(&admin) {
            return Err(e);
        }
        env.emit(Effect::RequireAuth(admin));
        self.fee_recipients.remove(&recipient);
        Ok(())
    }

    pub fn is_fee_recipient(&self, recipient: Address) -> (r: bool)
        ensures
            r == self@.is_fee_recipient(recipient),
    {
        match self.fee_recipients.copied(&recipient) {
            Some(b) => b,
            None => false,
        }
    }

    /// Counts one more market in the rate window, if the window admits it.
    fn check_rate(&self, now: u64) -> (r: Option<(u64, u32)>)
        ensures
            r == rate(self@.rate_window, now),
    {
        let (start, count) = match self.rate_window {
            Some(w) => w,
            None => (now, 0u32),
        };
        let elapsed: u64 = match now.checked_sub(start) {
            Some(d) => d,
            None => 0,
        };
        if elapsed < RATE_WINDOW_SECS {
            if count >= MAX_MARKETS_PER_HOUR {
                None
            } else {
                Some((start, count + 1))
            }
        } else {
            Some((now, 1))
        }
    }

    /// Can the caller create a market at time `now`?
    pub fn check_create(&self, caller: Address, now: u64) -> (r: Result<(), MarketError>)
        ensures
            r == self@.create_guard(caller, now),
    {
        if let Err(e) = self.require_admin(&caller) {
            return Err(e);
        }
        if self.check_rate(now).is_none() {
            return Err(MarketError::RateLimitExceeded);
        }
        Ok(())
    }

    /// Creates a market that is open for `duration_secs` seconds, and returns its
    /// number. Admin only, and only so often in an hour.
    pub fn create_market(
        &mut self,
        env: &mut Env<Effect>,
        admin: Address,
        question: Vec<u8>,
        image_url: Vec<u8>,
        category: Category,
        duration_secs: u64,
    ) -> (r: Result<u64, MarketError>)
        requires
            old(self)@.create_guard(admin, old(env).ledger.timestamp) is Ok ==> {
                &&& old(self)@.market_count < u64::MAX
                &&& old(env).ledger.timestamp + duration_secs <= u64::MAX
            },
        ensures
            match old(self)@.create_guard(admin, old(env).ledger.timestamp) {
                Err(e) => {
                    &&& r == Err::<u64, _>(e)
                    &&& final(self)@ == old(self)@
                    &&& final(env).adds(
                        *old(env),
                        if e == MarketError::RateLimitExceeded {
                            seq![Effect::RequireAuth(admin)]
                        } else {
                            Seq::empty()
                        },
                    )
                },
                Ok(_) => {
                    let id = (old(self)@.market_count + 1) as u64;
                    &&& r == Ok::<_, MarketError>(id)
                    &&& final(self)@ == old(self)@.with_market(
                        admin,
                        question,
                        image_url,
                        category,
                        duration_secs,
                        old(env).ledger.timestamp,
                    )
                    &&& final(env).adds(
                        *old(env),
                        seq![Effect::RequireAuth(admin), bump(DataKey::Market(id))],
                    )
                },
            },
    {
        let ghost before = env.effects@;
        assert(before =~= before + Seq::<Effect>::empty());
        if let Err(e) = self.require_admin(&admin) {
            return Err(e);
        }
        env.emit(Effect::RequireAuth(admin));
        let now: u64 = env.ledger.timestamp;
        let window = match self.check_rate(now) {
            None => {
                return Err(MarketError::RateLimitExceeded);
            },
            Some(w) => w,
        };
        self.rate_window = Some(window);
        let market_id: u64 = self.market_count + 1;
        let market = Market {
            id: market_id,
            question,
            image_url,
            category,
            end_time: now + duration_secs,
            total_yes: 0,
            total_no: 0,
            resolved: false,
            outcome: false,
            cancelled: false,
            creator: admin,
            bet_count: 0,
        };
        self.markets.set(market_id, market);
        emit_bump(env, DataKey::Market(market_id));
        self.market_count = market_id;
        assert(env.effects@ =~= before + seq![
            Effect::RequireAuth(admin),
            bump(DataKey::Market(market_id)),
        ]);
        Ok(market_id)
    }
}

impl Limits {
    /// Checks that the constants fit together.
    pub fn validate(&self) -> (r: Result<(), MarketError>)
        requires
            in_range(self.net_numerator + self.total_fee_bps),
        ensures
            r == (if self.sound() {
                Ok(())
            } else {
                Err(MarketError::InvalidDependency)
            }),
    {
        if self.net_numerator + self.total_fee_bps != self.bps_denom {
            return Err(MarketError::InvalidDependency);
        }
        if self.platform_fee_bps <= 0 || self.platform_fee_bps > self.total_fee_bps {
            return Err(MarketError::InvalidDependency);
        }
        if self.min_bet <= 0 || self.max_bets_per_user == 0 || self.max_markets_per_hour == 0 {
            return Err(MarketError::InvalidDependency);
        }
        if self.max_withdrawal_bps <= 0 || self.max_withdrawal_bps > self.bps_denom {
            return Err(MarketError::InvalidDependency);
        }
        if self.withdraw_delay_secs == 0 {
            return Err(MarketError::InvalidDependency);
        }
        if self.ttl_bump == 0 || self.ttl_bump > self.ttl_high {
            return Err(MarketError::InvalidDependency);
        }
        if self.min_market_duration_secs == 0 {
            return Err(MarketError::InvalidDependency);
        }
        Ok(())
    }
}

} // verus!
