//! The calls of the leaderboard contract.

use crate::env::{Address, Env};
use crate::leaderboard::board::TopList;
use crate::leaderboard::decay::{current_epoch, entry_points_now, epoch_of, points_at, score};
use crate::leaderboard::model::{clamp_page, first_max, page, ranking, swap};
use crate::leaderboard::types::{
    bump, bump_instance, emit_bump, emit_bump_instance, DataKey, Effect, Event, LeaderboardContract,
    LeaderboardError, LeaderboardView, PendingReward, PlayerEntry, PlayerStats, StoredStats,
    EXPECTED_TOKEN_INTERFACE_VERSION, INTERFACE_VERSION, MAX_PAGE_SIZE, UNRANKED_RANK,
};
use crate::table::Table;
use vstd::prelude::*;

verus! {

impl LeaderboardContract {
    /// A contract that has just been deployed.
    pub fn new() -> (c: Self)
        ensures
            c@ == LeaderboardView::empty(),
    {
        LeaderboardContract {
            admin: None,
            market: None,
            referral: None,
            token: None,
            paused: false,
            stats: Table::new(),
            pending: Table::new(),
            top: TopList::new(),
        }
    }

    /// Sets the contract up. This happens once.
    pub fn initialize(
        &mut self,
        env: &mut Env<Effect>,
        admin: Address,
        market_contract: Address,
        referral_contract: Address,
    ) -> (r: Result<(), LeaderboardError>)
        ensures
            old(self)@.admin is Some ==> {
                &&& r == Err::<(), _>(LeaderboardError::AlreadyInitialized)
                &&& final(self)@ == old(self)@
                &&& final(env).adds(*old(env), Seq::empty())
            },
            old(self)@.admin is None ==> {
                &&& r is Ok
                &&& final(self)@ == (LeaderboardView {
                    admin: Some(admin),
                    market: Some(market_contract),
                    referral: Some(referral_contract),
                    top: (crate::leaderboard::board::TopListView {
                        count: 0,
                        min_points: 0,
                        min_slot: Some(0),
                        ..old(self)@.top
                    }),
                    ..old(self)@
                })
                &&& final(env).adds(*old(env), seq![Effect::RequireAuth(admin), bump_instance()])
            },
    {
        let ghost before = env.effects@;
        if self.admin.is_some() {
            assert(env.effects@ =~= before + Seq::<Effect>::empty());
            return Err(LeaderboardError::AlreadyInitialized);
        }
        env.emit(Effect::RequireAuth(admin));
        self.admin = Some(admin);
        self.market = Some(market_contract);
        self.referral = Some(referral_contract);
        self.top.count = 0;
        self.top.min_points = 0;
        self.top.min_slot = Some(0);
        emit_bump_instance(env);
        assert(env.effects@ =~= before + seq![Effect::RequireAuth(admin), bump_instance()]);
        Ok(())
    }

    /// The version of the interface that this contract implements.
    pub fn interface_version() -> (v: u32)
        ensures
            v == INTERFACE_VERSION,
    {
        INTERFACE_VERSION
    }

    fn require_admin(&self, caller: &Address) -> (r: Result<(), LeaderboardError>)
        ensures
            r == self@.admin_guard(*caller),
    {
        match self.admin {
            None => Err(LeaderboardError::NotInitialized),
            Some(stored) => if *caller != stored {
                Err(LeaderboardError::NotAdmin)
            } else {
                Ok(())
            },
        }
    }

    fn require_market_contract(&self, caller: &Address) -> (r: Result<(), LeaderboardError>)
        ensures
            r == self@.is_market(*caller),
    {
        match self.market {
            None => Err(LeaderboardError::NotInitialized),
            Some(stored) => if *caller != stored {
                Err(LeaderboardError::UnauthorizedCaller)
            } else {
                Ok(())
            },
        }
    }

    fn require_referral_contract(&self, caller: &Address) -> (r: Result<(), LeaderboardError>)
        ensures
            r == self@.is_referral(*caller),
    {
        match self.referral {
            None => Err(LeaderboardError::NotInitialized),
            Some(stored) => if *caller != stored {
                Err(LeaderboardError::UnauthorizedCaller)
            } else {
                Ok(())
            },
        }
    }

    fn require_not_paused(&self) -> (r: Result<(), LeaderboardError>)
        ensures
            r is Err == self@.paused,
            r is Err ==> r == Err::<(), _>(LeaderboardError::ContractPaused),
    {
        if self.paused {
            Err(LeaderboardError::ContractPaused)
        } else {
            Ok(())
        }
    }

    fn market_guard(&self, caller: &Address) -> (r: Result<(), LeaderboardError>)
        ensures
            r == self@.market_guard(*caller),
    {
        match self.require_not_paused() {
            Err(e) => Err(e),
            Ok(()) => self.require_market_contract(caller),
        }
    }

    fn referral_guard(&self, caller: &Address) -> (r: Result<(), LeaderboardError>)
        ensures
            r == self@.referral_guard(*caller),
    {
        match self.require_not_paused() {
            Err(e) => Err(e),
            Ok(()) => self.require_referral_contract(caller),
        }
    }

    /// Can `tokens` be minted, if the token reports interface version `version`?
    fn mint_guard(&self, tokens: i128, version: u32) -> (r: Result<(), LeaderboardError>)
        ensures
            r == self@.mint_guard(tokens, version),
    {
        if tokens <= 0 {
            Ok(())
        } else if self.token.is_none() {
            Err(LeaderboardError::TokenNotConfigured)
        } else if version != EXPECTED_TOKEN_INTERFACE_VERSION {
            Err(LeaderboardError::IncompatibleInterface)
        } else {
            Ok(())
        }
    }

    /// Asks for the mint of `tokens` for `user`.
    fn mint_tokens(&self, env: &mut Env<Effect>, user: &Address, tokens: i128)
        requires
            tokens > 0 ==> self.token is Some,
        ensures
            final(env).adds(
                *old(env),
                self@.mint_fx(old(env).ledger.contract, *user, tokens),
            ),
    {
        let ghost before = env.effects@;
        if tokens > 0 {
            if let Some(token) = self.token {
                let minter = env.ledger.contract;
                env.emit(Effect::Mint { token, minter, to: *user, amount: tokens });
            }
        } else {
            assert(env.effects@ =~= before + Seq::<Effect>::empty());
        }
    }

    /// The token contract whose version decides about a mint of `tokens`.
    fn token_to_ask(&self, tokens: i128) -> (r: Option<Address>)
        ensures
            r == self@.token_to_ask(tokens),
    {
        if tokens <= 0 {
            None
        } else {
            self.token
        }
    }

    /// Sets the token contract in which rewards are minted. Admin only.
    pub fn set_token_contract(
        &mut self,
        env: &mut Env<Effect>,
        admin: Address,
        token: Address,
    ) -> (r: Result<(), LeaderboardError>)
        ensures
            r == old(self)@.admin_guard(admin),
            r is Err ==> final(self)@ == old(self)@ && final(env).adds(*old(env), Seq::empty()),
            r is Ok ==> {
                &&& final(self)@ == (LeaderboardView { token: Some(token), ..old(self)@ })
                &&& final(env).adds(*old(env), seq![Effect::RequireAuth(admin), bump_instance()])
            },
    {
        let ghost before = env.effects@;
        if let Err(e) = self.require_admin(&admin) {
            assert(env.effects@ =~= before + Seq::<Effect>::empty());
            return Err(e);
        }
        env.emit(Effect::RequireAuth(admin));
        self.token = Some(token);
        emit_bump_instance(env);
        assert(env.effects@ =~= before + seq![Effect::RequireAuth(admin), bump_instance()]);
        Ok(())
    }

    /// Halts the accrual of points and rewards. Admin only. Reads keep working.
    pub fn pause(&mut self, env: &mut Env<Effect>, admin: Address) -> (r: Result<
        (),
        LeaderboardError,
    >)
        ensures
            r == old(self)@.admin_guard(admin),
            r is Err ==> final(self)@ == old(self)@ && final(env).adds(*old(env), Seq::empty()),
            r is Ok ==> {
                &&& final(self)@ == (LeaderboardView { paused: true, ..old(self)@ })
                &&& final(env).adds(*old(env), seq![Effect::RequireAuth(admin), bump_instance()])
            },
    {
        let ghost before = env.effects@;
        if let Err(e) = self.require_admin(&admin) {
            assert(env.effects@ =~= before + Seq::<Effect>::empty());
            return Err(e);
        }
        env.emit(Effect::RequireAuth(admin));
        self.paused = true;
        emit_bump_instance(env);
        assert(env.effects@ =~= before + seq![Effect::RequireAuth(admin), bump_instance()]);
        Ok(())
    }

    /// Resumes the accrual of points and rewards. Admin only.
    pub fn unpause(&mut self, env: &mut Env<Effect>, admin: Address) -> (r: Result<
        (),
        LeaderboardError,
    >)
        ensures
            r == old(self)@.admin_guard(admin),
            r is Err ==> final(self)@ == old(self)@ && final(env).adds(*old(env), Seq::empty()),
            r is Ok ==> {
                &&& final(self)@ == (LeaderboardView { paused: false, ..old(self)@ })
                &&& final(env).adds(*old(env), seq![Effect::RequireAuth(admin)])
            },
    {
        let ghost before = env.effects@;
        if let Err(e) = self.require_admin(&admin) {
            assert(env.effects@ =~= before + Seq::<Effect>::empty());
            return Err(e);
        }
        env.emit(Effect::RequireAuth(admin));
        self.paused = false;
        Ok(())
    }

    pub fn is_paused(&self) -> (r: bool)
        ensures
            r == self@.paused,
    {
        self.paused
    }

    /// A player's record as stored; an empty one of epoch `now` if there is none.
    fn load_stored(&self, user: &Address, now: u32) -> (s: StoredStats)
        ensures
            s == self@.record(*user, now),
    {
        match self.stats.copied(user) {
            Some(s) => s,
            None => {
                let mut s = StoredStats::zero();
                s.epoch = now;
                s
            },
        }
    }

    /// A player's record as of epoch `now`.
    pub(crate) fn load_forward(&self, user: &Address, now: u32) -> (s: StoredStats)
        ensures
            s == self@.record_now(*user, now),
    {
        let mut s = self.load_stored(user, now);
        s.points = points_at(s.points, s.epoch, now);
        s.epoch = now;
        s
    }

    /// Replaces a player's record and lets the top list follow.
    fn save_stored(&mut self, env: &mut Env<Effect>, user: &Address, s: StoredStats, now: u32)
        requires
            old(self)@.top.update_fits(*user, s.points, now),
        ensures
            final(self)@ == old(self)@.with_record(*user, s, now),
            final(env).adds(*old(env), old(self)@.record_fx(*user, s, now)),
    {
        let ghost before = env.effects@;
        self.stats.set(*user, s);
        emit_bump(env, DataKey::Stats(*user));
        self.top.update_top_players(env, user, s.points, now);
        assert(env.effects@ =~= before + old(self)@.record_fx(*user, s, now));
    }

    /// Credits a settled bet. The balance is brought forward first, so points are
    /// added to what the score has become.
    fn credit_points(&mut self, env: &mut Env<Effect>, user: &Address, pts: u64, is_won: bool)
        requires
            old(self)@.bet_fits(*user, pts, is_won, epoch_of(old(env).ledger.sequence)),
        ensures
            ({
                let now = epoch_of(old(env).ledger.sequence);
                &&& final(self)@ == old(self)@.with_record(
                    *user,
                    old(self)@.after_bet(*user, pts, is_won, now),
                    now,
                )
                &&& final(env).adds(*old(env), old(self)@.bet_fx(*user, pts, is_won, now))
            }),
    {
        let ghost before = env.effects@;
        let now: u32 = current_epoch(env.ledger.sequence);
        let mut s = self.load_forward(user, now);
        s.points = s.points + pts;
        if is_won {
            s.won_bets = s.won_bets + 1;
        } else {
            s.lost_bets = s.lost_bets + 1;
        }
        self.save_stored(env, user, s, now);
        env.emit(
            Effect::Publish(
                Event::Settled {
                    user: *user,
                    points: s.points,
                    won_bets: s.won_bets,
                    lost_bets: s.lost_bets,
                },
            ),
        );
        assert(env.effects@ =~= before + old(self)@.bet_fx(*user, pts, is_won, now));
    }

    /// Credits a bonus. It counts as activity, but not as a bet won or lost.
    fn credit_bonus(&mut self, env: &mut Env<Effect>, user: &Address, pts: u64)
        requires
            old(self)@.bonus_fits(*user, pts, epoch_of(old(env).ledger.sequence)),
        ensures
            ({
                let now = epoch_of(old(env).ledger.sequence);
                &&& final(self)@ == old(self)@.with_record(
                    *user,
                    old(self)@.after_bonus(*user, pts, now),
                    now,
                )
                &&& final(env).adds(*old(env), old(self)@.bonus_fx(*user, pts, now))
            }),
    {
        let ghost before = env.effects@;
        let now: u32 = current_epoch(env.ledger.sequence);
        let mut s = self.load_forward(user, now);
        s.points = s.points + pts;
        s.bonus_bets = s.bonus_bets + 1;
        self.save_stored(env, user, s, now);
        env.emit(
            Effect::Publish(
                Event::Bonus { user: *user, points: s.points, bonus_bets: s.bonus_bets },
            ),
        );
        assert(env.effects@ =~= before + old(self)@.bonus_fx(*user, pts, now));
    }

    /// Credits a settled bet. The market contract calls this.
    pub fn add_pts(
        &mut self,
        env: &mut Env<Effect>,
        caller: Address,
        user: Address,
        pts: u64,
        is_won: bool,
    ) -> (r: Result<(), LeaderboardError>)
        requires
            old(self)@.market_guard(caller) is Ok ==> old(self)@.bet_fits(
                user,
                pts,
                is_won,
                epoch_of(old(env).ledger.sequence),
            ),
        ensures
            r == old(self)@.market_guard(caller),
            r is Err ==> final(self)@ == old(self)@ && final(env).adds(*old(env), Seq::empty()),
            r is Ok ==> {
                let now = epoch_of(old(env).ledger.sequence);
                &&& final(self)@ == old(self)@.with_record(
                    user,
                    old(self)@.after_bet(user, pts, is_won, now),
                    now,
                )
                &&& final(env).adds(
                    *old(env),
                    seq![Effect::RequireAuth(caller)] + old(self)@.bet_fx(user, pts, is_won, now)
                        + seq![bump_instance()],
                )
            },
    {
        let ghost before = env.effects@;
        let ghost v = self@;
        if let Err(e) = self.market_guard(&caller) {
            assert(env.effects@ =~= before + Seq::<Effect>::empty());
            return Err(e);
        }
        env.emit(Effect::RequireAuth(caller));
        self.credit_points(env, &user, pts, is_won);
        emit_bump_instance(env);
        proof {
            let now = epoch_of(old(env).ledger.sequence);
            assert(env.effects@ =~= before + (seq![Effect::RequireAuth(caller)] + v.bet_fx(
                user,
                pts,
                is_won,
                now,
            ) + seq![bump_instance()]));
        }
        Ok(())
    }

    /// The token contract that `reward` needs the interface version of, if it
    /// gets as far as minting.
    pub fn reward_query(&self, caller: Address, points: u64, tokens: i128) -> (r: Option<Address>)
        ensures
            r == (if self@.market_guard(caller) is Ok && points != 0 {
                self@.token_to_ask(tokens)
            } else {
                None
            }),
    {
        if self.market_guard(&caller).is_ok() && points != 0 {
            self.token_to_ask(tokens)
        } else {
            None
        }
    }

    /// Credits a settled bet and mints tokens for it. The market contract calls
    /// this. `token_version` is what the token contract answers when it is asked
    /// for its interface version (see `reward_query`).
    pub fn reward(
        &mut self,
        env: &mut Env<Effect>,
        caller: Address,
        user: Address,
        points: u64,
        tokens: i128,
        is_won: bool,
        token_version: u32,
    ) -> (r: Result<(), LeaderboardError>)
        requires
            old(self)@.market_guard(caller) is Ok && points != 0 ==> old(self)@.bet_fits(
                user,
                points,
                is_won,
                epoch_of(old(env).ledger.sequence),
            ),
        ensures
            r == (match old(self)@.market_guard(caller) {
                Err(e) => Err(e),
                Ok(_) => if points == 0 {
                    Err(LeaderboardError::InvalidPoints)
                } else {
                    old(self)@.mint_guard(tokens, token_version)
                },
            }),
            r is Err ==> final(self)@ == old(self)@ && final(env).adds(
                *old(env),
                if old(self)@.market_guard(caller) is Ok {
                    seq![Effect::RequireAuth(caller)]
                } else {
                    Seq::empty()
                },
            ),
            r is Ok ==> {
                let now = epoch_of(old(env).ledger.sequence);
                &&& final(self)@ == old(self)@.with_record(
                    user,
                    old(self)@.after_bet(user, points, is_won, now),
                    now,
                )
                &&& final(env).adds(
                    *old(env),
                    seq![Effect::RequireAuth(caller)] + old(self)@.bet_fx(
                        user,
                        points,
                        is_won,
                        now,
                    ) + old(self)@.mint_fx(old(env).ledger.contract, user, tokens)
                        + seq![bump_instance()],
                )
            },
    {
        let ghost before = env.effects@;
        let ghost v = self@;
        if let Err(e) = self.market_guard(&caller) {
            assert(env.effects@ =~= before + Seq::<Effect>::empty());
            return Err(e);
        }
        env.emit(Effect::RequireAuth(caller));
        if points == 0 {
            return Err(LeaderboardError::InvalidPoints);
        }
        if let Err(e) = self.mint_guard(tokens, token_version) {
            return Err(e);
        }
        self.credit_points(env, &user, points, is_won);
        self.mint_tokens(env, &user, tokens);
        emit_bump_instance(env);
        proof {
            let now = epoch_of(old(env).ledger.sequence);
            assert(env.effects@ =~= before + (seq![Effect::RequireAuth(caller)] + v.bet_fx(
                user,
                points,
                is_won,
                now,
            ) + v.mint_fx(old(env).ledger.contract, user, tokens) + seq![bump_instance()]));
        }
        Ok(())
    }

    /// The token contract that `reward_bonus` needs the interface version of, if
    /// it gets as far as minting.
    pub fn reward_bonus_query(&self, caller: Address, tokens: i128) -> (r: Option<Address>)
        ensures
            r == (if self@.referral_guard(caller) is Ok {
                self@.token_to_ask(tokens)
            } else {
                None
            }),
    {
        if self.referral_guard(&caller).is_ok() {
            self.token_to_ask(tokens)
        } else {
            None
        }
    }

    /// Credits a bonus and mints tokens for it. The referral contract calls this.
    /// `token_version` is what the token contract answers when it is asked for
    /// its interface version (see `reward_bonus_query`).
    pub fn reward_bonus(
        &mut self,
        env: &mut Env<Effect>,
        caller: Address,
        user: Address,
        pts: u64,
        tokens: i128,
        token_version: u32,
    ) -> (r: Result<(), LeaderboardError>)
        requires
            old(self)@.referral_guard(caller) is Ok ==> old(self)@.bonus_fits(
                user,
                pts,
                epoch_of(old(env).ledger.sequence),
            ),
        ensures
            r == (match old(self)@.referral_guard(caller) {
                Err(e) => Err(e),
                Ok(_) => old(self)@.mint_guard(tokens, token_version),
            }),
            r is Err ==> final(self)@ == old(self)@ && final(env).adds(
                *old(env),
                if old(self)@.referral_guard(caller) is Ok {
                    seq![Effect::RequireAuth(caller)]
                } else {
                    Seq::empty()
                },
            ),
            r is Ok ==> {
                let now = epoch_of(old(env).ledger.sequence);
                &&& final(self)@ == old(self)@.with_record(
                    user,
                    old(self)@.after_bonus(user, pts, now),
                    now,
                )
                &&& final(env).adds(
                    *old(env),
                    seq![Effect::RequireAuth(caller)] + old(self)@.bonus_fx(user, pts, now)
                        + old(self)@.mint_fx(old(env).ledger.contract, user, tokens)
                        + seq![bump_instance()],
                )
            },
    {
        let ghost before = env.effects@;
        let ghost v = self@;
        if let Err(e) = self.referral_guard(&caller) {
            assert(env.effects@ =~= before + Seq::<Effect>::empty());
            return Err(e);
        }
        env.emit(Effect::RequireAuth(caller));
        if let Err(e) = self.mint_guard(tokens, token_version) {
            return Err(e);
        }
        self.credit_bonus(env, &user, pts);
        self.mint_tokens(env, &user, tokens);
        emit_bump_instance(env);
        proof {
            let now = epoch_of(old(env).ledger.sequence);
            assert(env.effects@ =~= before + (seq![Effect::RequireAuth(caller)] + v.bonus_fx(
                user,
                pts,
                now,
            ) + v.mint_fx(old(env).ledger.contract, user, tokens) + seq![bump_instance()]));
        }
        Ok(())
    }

    /// Credits a bonus without minting. The referral contract calls this.
    pub fn add_bonus_pts(
        &mut self,
        env: &mut Env<Effect>,
        caller: Address,
        user: Address,
        pts: u64,
    ) -> (r: Result<(), LeaderboardError>)
        requires
            old(self)@.referral_guard(caller) is Ok ==> old(self)@.bonus_fits(
                user,
                pts,
                epoch_of(old(env).ledger.sequence),
            ),
        ensures
            r == old(self)@.referral_guard(caller),
            r is Err ==> final(self)@ == old(self)@ && final(env).adds(*old(env), Seq::empty()),
            r is Ok ==> {
                let now = epoch_of(old(env).ledger.sequence);
                &&& final(self)@ == old(self)@.with_record(
                    user,
                    old(self)@.after_bonus(user, pts, now),
                    now,
                )
                &&& final(env).adds(
                    *old(env),
                    seq![Effect::RequireAuth(caller)] + old(self)@.bonus_fx(user, pts, now)
                        + seq![bump_instance()],
                )
            },
    {
        let ghost before = env.effects@;
        let ghost v = self@;
        if let Err(e) = self.referral_guard(&caller) {
            assert(env.effects@ =~= before + Seq::<Effect>::empty());
            return Err(e);
        }
        env.emit(Effect::RequireAuth(caller));
        self.credit_bonus(env, &user, pts);
        emit_bump_instance(env);
        proof {
            let now = epoch_of(old(env).ledger.sequence);
            assert(env.effects@ =~= before + (seq![Effect::RequireAuth(caller)] + v.bonus_fx(
                user,
                pts,
                now,
            ) + seq![bump_instance()]));
        }
        Ok(())
    }

    /// Takes note that a bet was placed. Only the caller is checked; nothing is
    /// credited.
    pub fn record_bet(&self, env: &mut Env<Effect>, caller: Address, _user: Address) -> (r: Result<
        (),
        LeaderboardError,
    >)
        ensures
            r == self@.is_market(caller),
            r is Err ==> final(env).adds(*old(env), Seq::empty()),
            r is Ok ==> final(env).adds(*old(env), seq![Effect::RequireAuth(caller)]),
    {
        let ghost before = env.effects@;
        if let Err(e) = self.require_market_contract(&caller) {
            assert(env.effects@ =~= before + Seq::<Effect>::empty());
            return Err(e);
        }
        env.emit(Effect::RequireAuth(caller));
        Ok(())
    }

    /// Queues a reward for a player to collect later. The market contract calls
    /// this.
    pub fn queue_reward(
        &mut self,
        env: &mut Env<Effect>,
        caller: Address,
        user: Address,
        points: u64,
        tokens: i128,
        is_won: bool,
    ) -> (r: Result<(), LeaderboardError>)
        requires
            old(self)@.market_guard(caller) is Ok ==> old(self)@.queue_fits(
                user,
                points,
                tokens,
                is_won,
            ),
        ensures
            r == old(self)@.market_guard(caller),
            r is Err ==> final(self)@ == old(self)@ && final(env).adds(*old(env), Seq::empty()),
            r is Ok ==> {
                &&& final(self)@ == (LeaderboardView {
                    pending: old(self)@.pending.insert(
                        user,
                        old(self)@.after_queue(user, points, tokens, is_won),
                    ),
                    ..old(self)@
                })
                &&& final(env).adds(
                    *old(env),
                    seq![Effect::RequireAuth(caller), bump(DataKey::PendingReward(user))],
                )
            },
    {
        let ghost before = env.effects@;
        if let Err(e) = self.market_guard(&caller) {
            assert(env.effects@ =~= before + Seq::<Effect>::empty());
            return Err(e);
        }
        env.emit(Effect::RequireAuth(caller));
        self.accumulate_pending(env, &user, points, tokens, is_won);
        assert(env.effects@ =~= before + seq![
            Effect::RequireAuth(caller),
            bump(DataKey::PendingReward(user)),
        ]);
        Ok(())
    }

    /// Adds one reward to what is queued for a player.
    fn accumulate_pending(
        &mut self,
        env: &mut Env<Effect>,
        user: &Address,
        points: u64,
        tokens: i128,
        is_won: bool,
    )
        requires
            old(self)@.queue_fits(*user, points, tokens, is_won),
        ensures
            final(self)@ == (LeaderboardView {
                pending: old(self)@.pending.insert(
                    *user,
                    old(self)@.after_queue(*user, points, tokens, is_won),
                ),
                ..old(self)@
            }),
            final(env).adds(*old(env), seq![bump(DataKey::PendingReward(*user))]),
    {
        let mut p = self.queued(user);
        p.points = p.points + points;
        p.tokens = p.tokens + tokens;
        p.bet_delta = p.bet_delta + 1;
        if is_won {
            p.won_delta = p.won_delta + 1;
        } else {
            p.lost_delta = p.lost_delta + 1;
        }
        self.pending.set(*user, p);
        emit_bump(env, DataKey::PendingReward(*user));
    }

    /// The token contract that `claim_pending_rewards` needs the interface
    /// version of.
    pub fn claim_query(&self, user: Address) -> (r: Option<Address>)
        ensures
            r == self@.token_to_ask(self@.queued(user).tokens),
    {
        match self.pending.copied(&user) {
            Some(p) => self.token_to_ask(p.tokens),
            None => None,
        }
    }

    /// Collects everything that is queued for a player: points and counters are
    /// credited on top of the decayed balance, and tokens are minted. Anyone may
    /// call this. `token_version` is what the token contract answers when it is
    /// asked for its interface version (see `claim_query`).
    pub fn claim_pending_rewards(
        &mut self,
        env: &mut Env<Effect>,
        user: Address,
        token_version: u32,
    ) -> (r: Result<(), LeaderboardError>)
        requires
            old(self)@.claim_fits(user, epoch_of(old(env).ledger.sequence)),
        ensures
            !old(self)@.pending.contains_key(user) ==> {
                &&& r is Ok
                &&& final(self)@ == old(self)@
                &&& final(env).adds(*old(env), Seq::empty())
            },
            old(self)@.pending.contains_key(user) ==> {
                let now = epoch_of(old(env).ledger.sequence);
                &&& r == old(self)@.mint_guard(old(self)@.queued(user).tokens, token_version)
                &&& r is Err ==> final(self)@ == old(self)@ && final(env).adds(
                    *old(env),
                    Seq::empty(),
                )
                &&& r is Ok ==> final(self)@ == old(self)@.claimed(user, now) && final(env).adds(
                    *old(env),
                    old(self)@.claim_fx(old(env).ledger.contract, user, now),
                )
            },
    {
        let ghost before = env.effects@;
        let ghost v = self@;
        assert(before =~= before + Seq::<Effect>::empty());
        let p = match self.pending.copied(&user) {
            Some(p) => p,
            None => {
                return Ok(());
            },
        };
        if let Err(e) = self.mint_guard(p.tokens, token_version) {
            return Err(e);
        }
        self.pending.remove(&user);
        if p.points > 0 || p.bet_delta > 0 {
            let now: u32 = current_epoch(env.ledger.sequence);
            let mut s = self.load_forward(&user, now);
            s.points = s.points + p.points;
            s.won_bets = s.won_bets + p.won_delta;
            s.lost_bets = s.lost_bets + p.lost_delta;
            self.save_stored(env, &user, s, now);
        }
        self.mint_tokens(env, &user, p.tokens);
        emit_bump_instance(env);
        assert(env.effects@ =~= before + v.claim_fx(
            old(env).ledger.contract,
            user,
            epoch_of(old(env).ledger.sequence),
        ));
        Ok(())
    }

    /// What is queued for a player.
    pub fn get_pending_reward(&self, user: Address) -> (r: Option<PendingReward>)
        ensures
            r == self@.pending.get(user),
    {
        self.pending.copied(&user)
    }

    /// A player's points as of now.
    pub fn get_points(&self, env: &Env<Effect>, user: Address) -> (r: u64)
        requires
            self@.record(user, 0).activity() <= u32::MAX,
        ensures
            r == self@.record_now(user, epoch_of(env.ledger.sequence)).points,
    {
        self.decayed_stats(env, &user).points
    }

    /// A player's record as of now. The points decay; the counters are lifetime
    /// totals and do not.
    pub fn get_stats(&self, env: &Env<Effect>, user: Address) -> (r: PlayerStats)
        requires
            self@.record(user, 0).activity() <= u32::MAX,
        ensures
            ({
                let s = self@.record_now(user, epoch_of(env.ledger.sequence));
                &&& r.points == s.points
                &&& r.total_bets == s.activity()
                &&& r.won_bets == s.won_bets
                &&& r.lost_bets == s.lost_bets
            }),
    {
        self.decayed_stats(env, &user)
    }

    fn decayed_stats(&self, env: &Env<Effect>, user: &Address) -> (r: PlayerStats)
        requires
            self@.record(*user, 0).activity() <= u32::MAX,
        ensures
            ({
                let s = self@.record_now(*user, epoch_of(env.ledger.sequence));
                &&& r.points == s.points
                &&& r.total_bets == s.activity()
                &&& r.won_bets == s.won_bets
                &&& r.lost_bets == s.lost_bets
            }),
    {
        self.load_forward(user, current_epoch(env.ledger.sequence)).to_player_stats()
    }

    /// The number of players in the top list.
    pub fn get_player_count(&self) -> (n: u32)
        ensures
            n == self@.top.count,
    {
        self.top.count
    }

    /// The number of players in the top list.
    pub fn get_top_player_count(&self) -> (n: u32)
        ensures
            n == self@.top.count,
    {
        self.top.count
    }

    /// A page of the top list, ranked by the scores as of now.
    pub fn get_top_players(&self, env: &Env<Effect>, offset: u32, page_size: u32) -> (r: Vec<
        PlayerEntry,
    >)
        requires
            offset < self@.top.count && page_size > 0 ==> offset + clamp_page(page_size)
                <= u32::MAX,
        ensures
            ({
                let s = self@.top.current(
                    self@.top.count as nat,
                    epoch_of(env.ledger.sequence),
                );
                r@ == page(ranking(s, s.len()), offset as int, clamp_page(page_size))
            }),
    {
        let now: u32 = current_epoch(env.ledger.sequence);
        let count: u32 = self.top.count;
        let mut result: Vec<PlayerEntry> = Vec::new();
        let ghost s = self@.top.current(count as nat, now);
        proof {
            lemma_current_len(self@.top, count as nat, now);
            lemma_ranking_len(s, s.len());
        }
        if offset >= count || page_size == 0 {
            assert(result@ =~= Seq::<PlayerEntry>::empty());
            assert(page(ranking(s, s.len()), offset as int, 0) =~= Seq::<PlayerEntry>::empty());
            return result;
        }
        let size: u32 = if page_size <= MAX_PAGE_SIZE {
            page_size
        } else {
            MAX_PAGE_SIZE
        };
        let ranked = self.ranked(now);
        let n: usize = ranked.len();
        let end: usize = if ((offset + size) as usize) < n {
            (offset + size) as usize
        } else {
            n
        };
        let mut i: usize = offset as usize;
        while i < end
            invariant
                offset <= i,
                end <= n == ranked@.len(),
                i <= end || i == offset,
                end <= offset ==> result@.len() == 0,
                offset < end ==> result@ == ranked@.subrange(offset as int, i as int),
            decreases end - i,
        {
            result.push(ranked[i]);
            i = i + 1;
            assert(result@ =~= ranked@.subrange(offset as int, i as int));
        }
        assert(result@ =~= page(ranked@, offset as int, size as int));
        result
    }

    /// The entries of the top list with their scores as of epoch `now`, best
    /// first.
    fn ranked(&self, now: u32) -> (ranked: Vec<PlayerEntry>)
        ensures
            ({
                let s = self@.top.current(self@.top.count as nat, now);
                ranked@ == ranking(s, s.len())
            }),
    {
        let count: u32 = self.top.count;
        let mut ranked: Vec<PlayerEntry> = Vec::new();
        let mut k: u32 = 0;
        while k < count
            invariant
                k <= count,
                ranked@ == self@.top.current(k as nat, now),
            decreases count - k,
        {
            if let Some(e) = self.top.at.copied(&k) {
                let points: u64 = entry_points_now(&e, now);
                ranked.push(PlayerEntry { address: e.address, points, epoch: now });
            }
            k = k + 1;
        }
        let ghost s = ranked@;
        let n: usize = ranked.len();
        let mut i: usize = 0;
        while i < n
            invariant
                i <= n,
                n == s.len() == ranked@.len(),
                ranked@ == ranking(s, i as nat),
            decreases n - i,
        {
            let mut max_idx: usize = i;
            let mut j: usize = i + 1;
            while j < n
                invariant
                    i < j <= n,
                    i <= max_idx < j,
                    n == ranked@.len(),
                    max_idx == first_max(ranked@, i as int, j as int),
                decreases n - j,
            {
                if ranked[j].points > ranked[max_idx].points {
                    max_idx = j;
                }
                j = j + 1;
            }
            let ghost t = ranked@;
            if max_idx != i {
                let a = ranked[i];
                let b = ranked[max_idx];
                ranked[i] = b;
                ranked[max_idx] = a;
            }
            assert(ranked@ =~= swap(t, i as int, max_idx as int));
            i = i + 1;
        }
        ranked
    }

    /// The rank of a player among the scores as of now: one more than the number
    /// of players who are ahead. A player outside the list has `UNRANKED_RANK`.
    pub fn get_rank(&mut self, env: &mut Env<Effect>, user: Address) -> (r: u32)
        ensures
            r == old(self)@.top.rank(user, epoch_of(old(env).ledger.sequence)),
            final(self)@ == (LeaderboardView {
                top: old(self)@.top.resolve(user).0,
                ..old(self)@
            }),
            final(env).adds(*old(env), old(self)@.top.resolve(user).2),
    {
        let ghost v = self@.top;
        let count: u32 = self.top.count;
        let now: u32 = current_epoch(env.ledger.sequence);
        let slot: u32 = match self.top.resolved_slot(env, &user) {
            Some(s) => s,
            None => {
                return UNRANKED_RANK;
            },
        };
        proof {
            lemma_resolve_keeps_entries(v, user);
        }
        let mine: u64 = match self.top.at.copied(&slot) {
            Some(e) => entry_points_now(&e, now),
            None => 0,
        };
        let mut rank: u32 = 1;
        let mut i: u32 = 0;
        while i < count
            invariant
                i <= count,
                slot < count,
                self.top@.at == v.at,
                mine == score(v.at[slot], now),
                rank == 1 + v.ahead(i as nat, slot, mine as int, now),
                rank <= 1 + i - (if slot < i {
                    1int
                } else {
                    0
                }),
            decreases count - i,
        {
            if i != slot {
                if let Some(e) = self.top.at.copied(&i) {
                    if entry_points_now(&e, now) > mine {
                        rank = rank + 1;
                    }
                }
            }
            i = i + 1;
        }
        rank
    }

    /// The points as of now of the weakest entry in the top list: no entry is worth
    /// less, and one is worth that much. If there is no entry, because the list is empty
    /// or all of it has expired, the points that were cached last.
    pub fn get_min_points(&self, env: &Env<Effect>) -> (r: u64)
        ensures
            ({
                let top = self@.top;
                let now = epoch_of(env.ledger.sequence);
                &&& forall|i: u32|
                    i < top.count && #[trigger] top.at.contains_key(i) ==> r <= score(
                        top.at[i],
                        now,
                    )
                &&& (exists|i: u32| i < top.count && #[trigger] top.at.contains_key(i)) ==> (
                exists|i: u32|
                    i < top.count && #[trigger] top.at.contains_key(i) && r == score(
                        top.at[i],
                        now,
                    ))
                &&& !(exists|i: u32| i < top.count && #[trigger] top.at.contains_key(i)) ==> r
                    == top.min_points
            }),
    {
        let now: u32 = current_epoch(env.ledger.sequence);
        let count: u32 = self.top.count;
        let mut least: Option<u64> = None;
        let mut i: u32 = 0;
        while i < count
            invariant
                i <= count,
                count == self@.top.count,
                forall|j: u32|
                    j < i && #[trigger] self@.top.at.contains_key(j) ==> least is Some
                        && least->0 <= score(self@.top.at[j], now),
                least matches Some(p) ==> exists|j: u32|
                    j < i && #[trigger] self@.top.at.contains_key(j) && p == score(
                        self@.top.at[j],
                        now,
                    ),
            decreases count - i,
        {
            if let Some(e) = self.top.at.copied(&i) {
                assert(self@.top.at.contains_key(i));
                let points: u64 = entry_points_now(&e, now);
                least = match least {
                    Some(p) if p <= points => Some(p),
                    _ => Some(points),
                };
            }
            i = i + 1;
        }
        match least {
            Some(p) => p,
            None => self.top.min_points,
        }
    }

    /// The cached slot of the weakest entry: the one that a newcomer to a full list
    /// competes with.
    pub fn get_min_slot(&self) -> (r: u32)
        ensures
            r == self@.top.target(),
    {
        self.top.min_slot.unwrap_or(0)
    }

    /// Moves the entries over empty slots, rebuilds their reverse lookups and
    /// refreshes the cached minimum. Anyone may call this.
    pub fn reconcile_top_slots(&mut self, env: &mut Env<Effect>)
        ensures
            final(self)@ == (LeaderboardView {
                top: old(self)@.top.repair(epoch_of(old(env).ledger.sequence)),
                ..old(self)@
            }),
            final(env).adds(*old(env), old(self)@.top.repair_fx()),
    {
        let now: u32 = current_epoch(env.ledger.sequence);
        self.top.repair_top_index(env, now);
    }

    /// Extends the lifetime of what is stored for a player, and of the instance.
    /// Anyone may call this.
    pub fn refresh_player_ttl(&self, env: &mut Env<Effect>, user: Address)
        ensures
            final(env).adds(*old(env), self@.refresh_fx(user)),
    {
        let ghost before = env.effects@;
        if self.stats.has(&user) {
            emit_bump(env, DataKey::Stats(user));
        }
        if let Some(slot) = self.top.slot_of.copied(&user) {
            if self.top.at.has(&slot) && slot < self.top.count {
                emit_bump(env, DataKey::TopPlayerAt(slot));
                emit_bump(env, DataKey::TopPlayerSlot(user));
            }
        }
        emit_bump_instance(env);
        assert(env.effects@ =~= before + self@.refresh_fx(user));
    }
}

/// There are at most as many entries as slots.
pub proof fn lemma_current_len(v: crate::leaderboard::board::TopListView, n: nat, now: u32)
    ensures
        v.current(n, now).len() <= n,
    decreases n,
{
    if n > 0 {
        lemma_current_len(v, (n - 1) as nat, now);
    }
}

/// The best of the rest stands in the rest, and nobody there is better.
pub proof fn lemma_first_max(s: Seq<PlayerEntry>, i: int, n: int)
    requires
        0 <= i < n <= s.len(),
    ensures
        i <= first_max(s, i, n) < n,
        forall|j: int| i <= j < n ==> (#[trigger] s[j]).points <= s[first_max(s, i, n)].points,
    decreases n - i,
{
    if n > i + 1 {
        lemma_first_max(s, i, n - 1);
    }
}

/// Ranking drops nobody.
pub proof fn lemma_ranking_len(s: Seq<PlayerEntry>, i: nat)
    requires
        i <= s.len(),
    ensures
        ranking(s, i).len() == s.len(),
    decreases i,
{
    if i > 0 {
        lemma_ranking_len(s, (i - 1) as nat);
        lemma_first_max(ranking(s, (i - 1) as nat), i - 1, s.len() as int);
    }
}

/// Finding a player's slot leaves the entries as they are, and the slot that is
/// found holds an entry.
pub proof fn lemma_resolve_keeps_entries(v: crate::leaderboard::board::TopListView, user: Address)
    ensures
        v.resolve(user).0.at == v.at,
        v.resolve(user).1 matches Some(slot) ==> v.holds(user, slot),
{
    if !v.lookup_is_good(user) {
        if let Some(i) = v.first_slot(user) {
            assert(v.first_holds(user, i)) by {
                let c = choose|c: u32| v.first_holds(user, c);
                assert(v.first_holds(user, c));
            }
            assert(v.at.insert(i, v.at[i]) =~= v.at);
        }
    }
}

} // verus!
