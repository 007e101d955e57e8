//! The withdrawal of accumulated fees: by the admin at once, or by a fee recipient
//! in part and after a delay.

use crate::env::{Address, Env};
use crate::prediction_market::types;
use crate::prediction_market::types::{
    emit_bump, DataKey, Effect, MarketError, MarketsView, PredictionMarketContract,
    WithdrawalRequest, BPS_DENOM, MAX_WITHDRAWAL_BPS, WITHDRAW_DELAY_SECS,
};
use vstd::prelude::*;

verus! {

impl PredictionMarketContract {
    /// Pays all accumulated fees to the caller, the admin or a fee recipient, and
    /// returns the amount. Admin only.
    pub fn withdraw_fees(&mut self, env: &mut Env<Effect>, caller: Address, recipient: Address) -> (r:
        Result<i128, MarketError>)
        requires
            old(self)@.withdraw_guard(caller, recipient) is Ok ==> old(self)@.cfg is Some,
        ensures
            match old(self)@.withdraw_guard(caller, recipient) {
                Err(e) => {
                    &&& r == Err::<i128, _>(e)
                    &&& final(self)@ == old(self)@
                    &&& final(env).adds(*old(env), seq![Effect::RequireAuth(caller)])
                },
                Ok(_) => {
                    let amount = old(self)@.accumulated_fees;
                    &&& r == Ok::<_, MarketError>(amount)
                    &&& final(self)@ == (MarketsView { accumulated_fees: 0, ..old(self)@ })
                    &&& final(env).adds(
                        *old(env),
                        seq![
                            Effect::RequireAuth(caller),
                            Effect::Transfer {
                                asset: old(self)@.cfg->0.xlm_sac,
                                from: old(env).ledger.contract,
                                to: recipient,
                                amount,
                            },
                        ],
                    )
                },
            },
    {
        let ghost before = env.effects@;
        env.emit(Effect::RequireAuth(caller));
        if let Err(e) = self.require_admin(&caller) {
            return Err(e);
        }
        if let Err(e) = self.require_valid_fee_recipient(&caller, &recipient) {
            return Err(e);
        }
        let fees: i128 = self.accumulated_fees;
        if fees == 0 {
            return Err(MarketError::NoFeesToWithdraw);
        }
        let cfg = self.cfg.unwrap();
        let this = env.ledger.contract;
        env.emit(Effect::Transfer { asset: cfg.xlm_sac, from: this, to: recipient, amount: fees });
        self.accumulated_fees = 0;
        assert(env.effects@ =~= before + seq![
            Effect::RequireAuth(caller),
            Effect::Transfer { asset: cfg.xlm_sac, from: this, to: recipient, amount: fees },
        ]);
        Ok(fees)
    }

    /// Can the caller ask for `amount` of the fees for `recipient`, if the cap on a
    /// request is left aside?
    pub fn check_uncapped_request(
        &self,
        caller: Address,
        recipient: Address,
        amount: i128,
    ) -> (r: Result<(), MarketError>)
        ensures
            r == self@.uncapped_request_guard(caller, recipient, amount),
    {
        if let Err(e) = self.require_admin_or_fee_recipient(&caller) {
            return Err(e);
        }
        if let Err(e) = self.require_valid_fee_recipient(&caller, &recipient) {
            return Err(e);
        }
        if amount <= 0 {
            return Err(MarketError::InvalidAmount);
        }
        if self.pending_withdrawals.has(&caller) {
            return Err(MarketError::WithdrawalRequestExists);
        }
        if amount > self.accumulated_fees {
            return Err(MarketError::WithdrawalTooLarge);
        }
        Ok(())
    }

    /// Asks for a part of the accumulated fees, which can be paid out after a delay.
    /// For the admin and fee recipients; each can have one request at a time.
    pub fn request_withdraw_fees(
        &mut self,
        env: &mut Env<Effect>,
        caller: Address,
        recipient: Address,
        amount: i128,
    ) -> (r: Result<(), MarketError>)
        requires
            old(self)@.uncapped_request_guard(caller, recipient, amount) is Ok ==> old(
                self,
            )@.accumulated_fees * MAX_WITHDRAWAL_BPS <= i128::MAX,
        ensures
            r == old(self)@.request_guard(caller, recipient, amount),
            r is Err ==> {
                &&& final(self)@ == old(self)@
                &&& final(env).adds(*old(env), seq![Effect::RequireAuth(caller)])
            },
            r is Ok ==> {
                &&& final(self)@ == old(self)@.with_request(
                    caller,
                    recipient,
                    amount,
                    old(env).ledger.timestamp,
                )
                &&& final(env).adds(
                    *old(env),
                    seq![
                        Effect::RequireAuth(caller),
                        types::bump(DataKey::PendingWithdrawal(caller)),
                    ],
                )
            },
    {
        let ghost before = env.effects@;
        env.emit(Effect::RequireAuth(caller));
        if let Err(e) = self.check_uncapped_request(caller, recipient, amount) {
            return Err(e);
        }
        let fees: i128 = self.accumulated_fees;
        proof {
            lemma_cap(fees);
        }
        let cap: i128 = fees * MAX_WITHDRAWAL_BPS / BPS_DENOM;
        if amount > cap {
            return Err(MarketError::WithdrawalTooLarge);
        }
        self.pending_withdrawals.set(
            caller,
            WithdrawalRequest { recipient, amount, requested_at: env.ledger.timestamp },
        );
        emit_bump(env, DataKey::PendingWithdrawal(caller));
        assert(env.effects@ =~= before + seq![
            Effect::RequireAuth(caller),
            types::bump(DataKey::PendingWithdrawal(caller)),
        ]);
        Ok(())
    }

    /// Pays out the caller's request once its time has come, and returns the amount.
    pub fn execute_withdraw_fees(&mut self, env: &mut Env<Effect>, caller: Address) -> (r: Result<
        i128,
        MarketError,
    >)
        requires
            old(self)@.execute_guard(caller, old(env).ledger.timestamp) is Ok ==> {
                let amount = old(self)@.pending_withdrawals[caller].amount;
                &&& old(self)@.accumulated_fees - amount <= i128::MAX
                &&& old(self)@.cfg is Some
            },
        ensures
            match old(self)@.execute_guard(caller, old(env).ledger.timestamp) {
                Err(e) => {
                    &&& r == Err::<i128, _>(e)
                    &&& final(self)@ == old(self)@
                    &&& final(env).adds(*old(env), seq![Effect::RequireAuth(caller)])
                },
                Ok(_) => {
                    let q = old(self)@.pending_withdrawals[caller];
                    &&& r == Ok::<_, MarketError>(q.amount)
                    &&& final(self)@ == old(self)@.with_withdrawal(caller)
                    &&& final(env).adds(
                        *old(env),
                        seq![
                            Effect::RequireAuth(caller),
                            Effect::Transfer {
                                asset: old(self)@.cfg->0.xlm_sac,
                                from: old(env).ledger.contract,
                                to: q.recipient,
                                amount: q.amount,
                            },
                        ],
                    )
                },
            },
    {
        let ghost before = env.effects@;
        env.emit(Effect::RequireAuth(caller));
        let req = match self.pending_withdrawals.copied(&caller) {
            None => {
                return Err(MarketError::NoWithdrawalRequest);
            },
            Some(q) => q,
        };
        let now: u64 = env.ledger.timestamp;
        if now < req.requested_at || now - req.requested_at < WITHDRAW_DELAY_SECS {
            return Err(MarketError::WithdrawalTooSoon);
        }
        if self.accumulated_fees < req.amount {
            return Err(MarketError::WithdrawalTooLarge);
        }
        self.accumulated_fees = self.accumulated_fees - req.amount;
        self.pending_withdrawals.remove(&caller);
        let cfg = self.cfg.unwrap();
        let this = env.ledger.contract;
        env.emit(
            Effect::Transfer {
                asset: cfg.xlm_sac,
                from: this,
                to: req.recipient,
                amount: req.amount,
            },
        );
        assert(env.effects@ =~= before + seq![
            Effect::RequireAuth(caller),
            Effect::Transfer {
                asset: cfg.xlm_sac,
                from: this,
                to: req.recipient,
                amount: req.amount,
            },
        ]);
        Ok(req.amount)
    }

    /// Drops a request that has not been paid. Admin only.
    pub fn cancel_withdrawal_request(
        &mut self,
        env: &mut Env<Effect>,
        admin: Address,
        caller: Address,
    ) -> (r: Result<(), MarketError>)
        ensures
            r == old(self)@.drop_guard(admin, caller),
            r is Err ==> final(self)@ == old(self)@,
            final(env).adds(
                *old(env),
                if old(self)@.admin_guard(admin) is Err {
                    Seq::empty()
                } else {
                    seq![Effect::RequireAuth(admin)]
                },
            ),
            r is Ok ==> final(self)@ == (MarketsView {
                pending_withdrawals: old(self)@.pending_withdrawals.remove(caller),
                ..old(self)@
            }),
    {
        let ghost before = env.effects@;
        assert(before =~= before + Seq::<Effect>::empty());
        if let Err(e) = self.require_admin(&admin) {
            return Err(e);
        }
        env.emit(Effect::RequireAuth(admin));
        if !self.pending_withdrawals.has(&caller) {
            return Err(MarketError::NoWithdrawalRequest);
        }
        self.pending_withdrawals.remove(&caller);
        Ok(())
    }

    /// The fees that have not been withdrawn.
    pub fn get_accumulated_fees(&self) -> (r: i128)
        ensures
            r == self@.accumulated_fees,
    {
        self.accumulated_fees
    }

    /// A caller's request that has not been paid.
    pub fn get_pending_withdrawal(&self, caller: Address) -> (r: Option<WithdrawalRequest>)
        ensures
            r == self@.pending_withdrawals.get(caller),
    {
        self.pending_withdrawals.copied(&caller)
    }
}

/// The cap on a request is a fifth of the fees.
proof fn lemma_cap(fees: i128)
    ensures
        fees * MAX_WITHDRAWAL_BPS == 2000 * fees,
        (fees * MAX_WITHDRAWAL_BPS) / BPS_DENOM as int == (2000 * fees) / 10000,
{
    let m: int = MAX_WITHDRAWAL_BPS as int;
    let f: int = fees as int;
    assert(f * m == 2000 * f) by (nonlinear_arith)
        requires
            m == 2000,
    ;
}

} // verus!
