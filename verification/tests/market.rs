use pulse_protocol::env::{Address, Bytes32, Env, Ledger};
use pulse_protocol::prediction_market::{
    Bet, BetEntry, Category, Config, DataKey, Effect, Limits, MarketError,
    PredictionMarketContract, WithdrawalRequest, TTL_BUMP, TTL_HIGH,
};

const ADMIN: Address = Address::Account(Bytes32 { hi: 1, lo: 1 });
const TOKEN: Address = Address::Contract(Bytes32 { hi: 1, lo: 2 });
const REFERRAL: Address = Address::Contract(Bytes32 { hi: 1, lo: 3 });
const LEADERBOARD: Address = Address::Contract(Bytes32 { hi: 1, lo: 4 });
const XLM: Address = Address::Contract(Bytes32 { hi: 1, lo: 5 });
const THIS: Address = Address::Contract(Bytes32 { hi: 1, lo: 6 });

/// Ten XLM.
const TEN: i128 = 100_000_000;

fn user(n: u128) -> Address {
    Address::Account(Bytes32 { hi: 0, lo: n })
}

fn at(timestamp: u64) -> Env<Effect> {
    Env::new(Ledger { sequence: 0, timestamp, contract: THIS })
}

fn bump(key: DataKey) -> Effect {
    Effect::ExtendTtl { key, threshold: TTL_BUMP, extend_to: TTL_HIGH }
}

fn pay(from: Address, to: Address, amount: i128) -> Effect {
    Effect::Transfer { asset: XLM, from, to, amount }
}

/// A contract with market 1, which is open until time 1000.
fn markets() -> PredictionMarketContract {
    let mut c = PredictionMarketContract::new();
    c.initialize(&mut at(0), ADMIN, TOKEN, REFERRAL, LEADERBOARD, XLM).unwrap();
    create(&mut c, 0, 1000).unwrap();
    c
}

fn create(c: &mut PredictionMarketContract, now: u64, secs: u64) -> Result<u64, MarketError> {
    c.create_market(&mut at(now), ADMIN, b"q?".to_vec(), b"url".to_vec(), Category::Crypto, secs)
}

fn bet(c: &mut PredictionMarketContract, u: Address, yes: bool, amount: i128) {
    c.place_bet(&mut at(10), u, 1, yes, amount, false).unwrap();
}

#[test]
fn market_error_numbers() {
    let all = [
        MarketError::AlreadyInitialized,
        MarketError::NotInitialized,
        MarketError::NotAdmin,
        MarketError::MarketNotFound,
        MarketError::MarketExpired,
        MarketError::MarketNotExpired,
        MarketError::MarketResolved,
        MarketError::MarketCancelled,
        MarketError::MarketNotResolved,
        MarketError::BetTooSmall,
        MarketError::OppositeSideBet,
        MarketError::AlreadyClaimed,
        MarketError::NoBetFound,
        MarketError::InvalidAmount,
        MarketError::NoFeesToWithdraw,
        MarketError::NotResolver,
        MarketError::TooManyBets,
        MarketError::NotAuthorized,
        MarketError::MarketNotCancelled,
        MarketError::RateLimitExceeded,
        MarketError::InvalidFeeRecipient,
        MarketError::WithdrawalTooLarge,
        MarketError::WithdrawalRequestExists,
        MarketError::NoWithdrawalRequest,
        MarketError::WithdrawalTooSoon,
        MarketError::InvalidDependency,
    ];
    for (i, e) in all.iter().enumerate() {
        assert_eq!(e.code(), i as u32 + 1);
    }
}

#[test]
fn a_market_contract_is_set_up_once() {
    let mut c = PredictionMarketContract::new();
    assert_eq!(create(&mut c, 0, 10), Err(MarketError::NotInitialized));
    let mut env = at(0);
    c.initialize(&mut env, ADMIN, TOKEN, REFERRAL, LEADERBOARD, XLM).unwrap();
    assert_eq!(env.effects, vec![Effect::RequireAuth(ADMIN)]);
    assert_eq!(
        c.initialize(&mut at(0), user(1), TOKEN, REFERRAL, LEADERBOARD, XLM),
        Err(MarketError::AlreadyInitialized)
    );
    let cfg =
        Config { token: TOKEN, referral: REFERRAL, leaderboard: LEADERBOARD, xlm_sac: XLM };
    assert_eq!(c.get_config(), cfg);
    assert_eq!(
        c.set_config(&mut at(0), user(1), XLM, XLM, XLM, XLM),
        Err(MarketError::NotAdmin)
    );
    assert_eq!(c.get_config(), cfg);
    c.set_config(&mut at(0), ADMIN, TOKEN, REFERRAL, LEADERBOARD, TOKEN).unwrap();
    assert_eq!(c.get_config(), Config { xlm_sac: TOKEN, ..cfg });
    let hash = Bytes32 { hi: 3, lo: 4 };
    let mut env = at(0);
    assert_eq!(c.upgrade(&mut env, ADMIN, hash), Ok(()));
    assert_eq!(env.effects, vec![Effect::RequireAuth(ADMIN), Effect::UpdateWasm(hash)]);
    assert_eq!(c.upgrade(&mut at(0), user(1), hash), Err(MarketError::NotAdmin));
}

#[test]
fn the_constants_fit_together() {
    assert_eq!(PredictionMarketContract::validate_config(), Ok(()));
    let good = Limits {
        net_numerator: 9800,
        total_fee_bps: 200,
        platform_fee_bps: 150,
        bps_denom: 10_000,
        min_bet: 1,
        max_bets_per_user: 1,
        max_markets_per_hour: 1,
        max_withdrawal_bps: 2000,
        withdraw_delay_secs: 1,
        ttl_bump: 1,
        ttl_high: 1,
        min_market_duration_secs: 1,
    };
    assert_eq!(good.validate(), Ok(()));
    for bad in [
        Limits { net_numerator: 9700, ..good },
        Limits { platform_fee_bps: 0, ..good },
        Limits { platform_fee_bps: 201, ..good },
        Limits { min_bet: 0, ..good },
        Limits { max_bets_per_user: 0, ..good },
        Limits { max_markets_per_hour: 0, ..good },
        Limits { max_withdrawal_bps: 0, ..good },
        Limits { max_withdrawal_bps: 10_001, ..good },
        Limits { withdraw_delay_secs: 0, ..good },
        Limits { ttl_bump: 0, ..good },
        Limits { ttl_bump: 2, ..good },
        Limits { min_market_duration_secs: 0, ..good },
    ] {
        assert_eq!(bad.validate(), Err(MarketError::InvalidDependency));
    }
}

#[test]
fn a_new_market_is_open_and_empty() {
    let mut c = markets();
    let mut env = at(50);
    let id = c
        .create_market(&mut env, ADMIN, b"rain?".to_vec(), b"u".to_vec(), Category::Science, 100)
        .unwrap();
    assert_eq!(id, 2);
    assert_eq!(env.effects, vec![Effect::RequireAuth(ADMIN), bump(DataKey::Market(2))]);
    assert_eq!(c.get_market_count(), 2);
    let m = c.get_market(2).unwrap();
    assert_eq!((m.id, m.end_time, m.total_yes, m.total_no), (2, 150, 0, 0));
    assert_eq!(m.question, b"rain?".to_vec());
    assert_eq!(m.category, Category::Science);
    assert_eq!(m.creator, ADMIN);
    assert!(!m.resolved && !m.cancelled && m.bet_count == 0);
    assert_eq!(c.get_market(3), Err(MarketError::MarketNotFound));
    assert_eq!(
        c.create_market(&mut at(0), user(1), vec![], vec![], Category::Other, 1),
        Err(MarketError::NotAdmin)
    );
}

#[test]
fn creation_is_rationed_by_the_hour() {
    let mut c = markets();
    for _ in 1..10 {
        create(&mut c, 100, 10).unwrap();
    }
    let mut env = at(3599);
    assert_eq!(
        c.create_market(&mut env, ADMIN, vec![], vec![], Category::Other, 1),
        Err(MarketError::RateLimitExceeded)
    );
    assert_eq!(env.effects, vec![Effect::RequireAuth(ADMIN)]);
    assert_eq!(create(&mut c, 3600, 10), Ok(11));
    // A clock that goes back stays in the window.
    for n in 12..=20 {
        assert_eq!(create(&mut c, 10, 10), Ok(n));
    }
    assert_eq!(create(&mut c, 10, 10), Err(MarketError::RateLimitExceeded));
}

#[test]
fn a_bet_is_split_into_stake_and_fees() {
    let mut c = markets();
    let mut env = at(10);
    assert_eq!(c.place_bet(&mut env, user(1), 1, true, TEN, true), Ok(()));
    assert_eq!(
        env.effects,
        vec![
            Effect::RequireAuth(user(1)),
            pay(user(1), THIS, TEN),
            pay(THIS, REFERRAL, 500_000),
            Effect::Credit { referral: REFERRAL, from: THIS, user: user(1), fee: 500_000 },
            bump(DataKey::HasReferrer(user(1))),
            bump(DataKey::MarketFees(1)),
            bump(DataKey::Bet(1, user(1))),
            bump(DataKey::BettorAt(1, 0)),
            bump(DataKey::BettorCount(1)),
            bump(DataKey::Market(1)),
        ]
    );
    // 98% stake, 1.5% to the platform, 0.5% to the referrer.
    assert_eq!(c.get_bet(1, user(1)), Ok(Bet { amount: 98_000_000, is_yes: true, claimed: false }));
    assert_eq!(c.get_bet_gross(1, user(1)), TEN);
    assert_eq!(c.get_accumulated_fees(), 1_500_000);
    assert_eq!(c.get_market_fees(1), 1_500_000);
    assert_eq!(c.bets.get(&(1, user(1))).unwrap().refundable, 99_500_000);
    assert_eq!(c.get_market(1).unwrap().total_yes, 98_000_000);
    assert_eq!(c.get_market(1).unwrap().bet_count, 1);
}

#[test]
fn a_fee_without_a_referrer_is_held() {
    let mut c = markets();
    c.place_bet(&mut at(10), user(1), 1, false, TEN, false).unwrap();
    assert_eq!(c.get_accumulated_fees(), 2_000_000);
    assert_eq!(c.get_market_fees(1), 2_000_000);
    assert_eq!(c.bets.get(&(1, user(1))).unwrap().refundable, TEN);
    assert!(!c.asks_referral(user(1)));
    // The referral contract is not asked again.
    let mut env = at(10);
    c.place_bet(&mut env, user(1), 1, false, TEN, true).unwrap();
    assert_eq!(
        env.effects,
        vec![
            Effect::RequireAuth(user(1)),
            pay(user(1), THIS, TEN),
            bump(DataKey::MarketFees(1)),
            bump(DataKey::Bet(1, user(1))),
            bump(DataKey::Market(1)),
        ]
    );
    assert_eq!(c.get_accumulated_fees(), 4_000_000);
    assert_eq!(
        c.bets.get(&(1, user(1))),
        Some(&BetEntry {
            net: 196_000_000,
            gross: 2 * TEN,
            refundable: 2 * TEN,
            is_yes: false,
            claimed: false,
            count: 2,
        })
    );
    assert_eq!(c.get_market(1).unwrap().bet_count, 1);
    assert_eq!(c.get_user_bet_count(1, user(1)), 2);
}

#[test]
fn the_two_halves_of_a_bet_make_one() {
    let mut whole = markets();
    let mut env = at(10);
    whole.place_bet(&mut env, user(1), 1, true, TEN, true).unwrap();

    let mut halves = markets();
    let mut half = at(10);
    assert_eq!(halves.open_bet(&mut half, user(1), 1, true, TEN), Ok(true));
    assert_eq!(halves.get_bet(1, user(1)), Err(MarketError::NoBetFound));
    assert!(halves.bet_fits(user(1), 1, true, TEN, true));
    halves.settle_bet(&mut half, user(1), 1, true, TEN, true);
    assert_eq!(half.effects, env.effects);
    assert_eq!(halves.get_bet(1, user(1)), whole.get_bet(1, user(1)));
    assert_eq!(halves.get_accumulated_fees(), whole.get_accumulated_fees());
}

#[test]
fn bets_that_are_refused() {
    let mut c = markets();
    let mut env = at(10);
    assert_eq!(
        c.place_bet(&mut env, user(1), 1, true, 10_204_081, true),
        Err(MarketError::BetTooSmall)
    );
    assert_eq!(env.effects, vec![Effect::RequireAuth(user(1))]);
    assert_eq!(c.place_bet(&mut at(10), user(1), 1, true, 10_204_082, true), Ok(()));
    assert_eq!(
        c.place_bet(&mut at(10), user(1), 1, true, -TEN, true),
        Err(MarketError::BetTooSmall)
    );
    assert_eq!(
        c.place_bet(&mut at(10), user(1), 7, true, TEN, true),
        Err(MarketError::MarketNotFound)
    );
    assert_eq!(
        c.place_bet(&mut at(1000), user(1), 1, true, TEN, true),
        Err(MarketError::MarketExpired)
    );
    assert_eq!(
        c.place_bet(&mut at(10), user(1), 1, false, TEN, true),
        Err(MarketError::OppositeSideBet)
    );
    for _ in 1..20 {
        bet(&mut c, user(1), true, TEN);
    }
    assert_eq!(
        c.place_bet(&mut at(10), user(1), 1, true, TEN, true),
        Err(MarketError::TooManyBets)
    );
    assert_eq!(c.get_user_bet_count(1, user(1)), 20);
    c.cancel_market(&mut at(10), ADMIN, 1).unwrap();
    assert_eq!(
        c.place_bet(&mut at(10), user(2), 1, true, TEN, true),
        Err(MarketError::MarketCancelled)
    );
}

#[test]
fn the_pool_is_paid_out_to_the_last_stroop() {
    let mut c = markets();
    bet(&mut c, user(1), true, TEN);
    bet(&mut c, user(2), true, 2 * TEN);
    bet(&mut c, user(3), false, TEN + 3);
    let m = c.get_market(1).unwrap();
    let pool = m.total_yes + m.total_no;
    assert_eq!((m.total_yes, m.total_no), (294_000_000, 98_000_002));
    let fees = c.get_accumulated_fees();
    assert!(c.resolve_fits(1, true));

    let mut env = at(1000);
    assert_eq!(c.resolve_market(&mut env, ADMIN, 1, true), Ok(()));
    let (a, b) = (c.get_payout(1, user(1)), c.get_payout(1, user(2)));
    assert_eq!((a, b), (130_666_667, 261_333_334));
    assert_eq!(c.get_payout(1, user(3)), 0);
    let dust = pool - a - b;
    assert_eq!(dust, 1);
    assert_eq!(c.get_accumulated_fees(), fees + dust);
    assert_eq!(c.get_market_fees(1), fees + dust);
    assert_eq!(
        env.effects,
        vec![
            Effect::RequireAuth(ADMIN),
            bump(DataKey::Payout(1, user(1))),
            bump(DataKey::Payout(1, user(2))),
            bump(DataKey::MarketFees(1)),
            bump(DataKey::Market(1)),
        ]
    );
    assert!(c.get_market(1).unwrap().resolved && c.get_market(1).unwrap().outcome);
}

#[test]
fn a_pool_without_winners_goes_to_the_fees() {
    let mut c = markets();
    bet(&mut c, user(1), true, TEN);
    let fees = c.get_accumulated_fees();
    c.resolve_market(&mut at(1000), ADMIN, 1, false).unwrap();
    assert_eq!(c.get_accumulated_fees(), fees + 98_000_000);
    assert_eq!(c.get_market_fees(1), fees + 98_000_000);
    assert_eq!(c.get_payout(1, user(1)), 0);
    let mut env = at(1000);
    c.claim(&mut env, user(1), 1).unwrap();
    assert!(!env.effects.iter().any(|f| matches!(f, Effect::Transfer { .. })));
}

#[test]
fn a_market_without_bets_resolves() {
    let mut c = markets();
    let mut env = at(1000);
    assert_eq!(c.resolve_market(&mut env, ADMIN, 1, true), Ok(()));
    assert_eq!(env.effects, vec![Effect::RequireAuth(ADMIN), bump(DataKey::Market(1))]);
    assert_eq!(c.get_accumulated_fees(), 0);
}

#[test]
fn who_can_resolve_and_when() {
    let mut c = markets();
    assert_eq!(
        c.resolve_market(&mut at(1000), user(7), 1, true),
        Err(MarketError::NotResolver)
    );
    let mut env = at(0);
    c.add_resolver(&mut env, ADMIN, user(7)).unwrap();
    assert_eq!(env.effects, vec![Effect::RequireAuth(ADMIN), bump(DataKey::Resolver(user(7)))]);
    assert!(c.is_resolver(user(7)));
    assert_eq!(c.add_resolver(&mut at(0), user(7), user(8)), Err(MarketError::NotAdmin));
    assert_eq!(
        c.resolve_market(&mut at(999), user(7), 1, true),
        Err(MarketError::MarketNotExpired)
    );
    assert_eq!(
        c.resolve_market(&mut at(1000), user(7), 9, true),
        Err(MarketError::MarketNotFound)
    );
    assert_eq!(c.resolve_market(&mut at(1000), user(7), 1, true), Ok(()));
    assert_eq!(
        c.resolve_market(&mut at(1000), user(7), 1, false),
        Err(MarketError::MarketResolved)
    );
    assert_eq!(c.cancel_market(&mut at(1000), ADMIN, 1), Err(MarketError::MarketResolved));
    assert_eq!(
        c.place_bet(&mut at(10), user(1), 1, true, TEN, true),
        Err(MarketError::MarketResolved)
    );
    assert_eq!(c.remove_resolver(&mut at(0), user(1), user(7)), Err(MarketError::NotAdmin));
    c.remove_resolver(&mut at(0), ADMIN, user(7)).unwrap();
    assert!(!c.is_resolver(user(7)));
}

#[test]
fn a_claim_is_paid_once() {
    let mut c = markets();
    bet(&mut c, user(1), true, TEN);
    bet(&mut c, user(2), false, TEN);
    assert_eq!(c.claim(&mut at(1000), user(1), 1), Err(MarketError::MarketNotResolved));
    c.resolve_market(&mut at(1000), ADMIN, 1, true).unwrap();

    let mut env = at(1000);
    assert_eq!(c.claim(&mut env, user(1), 1), Ok(()));
    assert_eq!(
        env.effects,
        vec![
            Effect::RequireAuth(user(1)),
            bump(DataKey::Bet(1, user(1))),
            bump(DataKey::Market(1)),
            pay(THIS, user(1), 196_000_000),
            Effect::AddPts {
                leaderboard: LEADERBOARD,
                from: THIS,
                user: user(1),
                points: 30,
                won: true,
            },
            Effect::Mint { token: TOKEN, minter: THIS, to: user(1), amount: 100_000_000 },
        ]
    );
    assert!(c.get_bet(1, user(1)).unwrap().claimed);
    assert_eq!(c.claim(&mut at(1000), user(1), 1), Err(MarketError::AlreadyClaimed));

    let mut env = at(1000);
    assert_eq!(c.claim(&mut env, user(2), 1), Ok(()));
    assert_eq!(
        env.effects[3..],
        [
            Effect::AddPts {
                leaderboard: LEADERBOARD,
                from: THIS,
                user: user(2),
                points: 10,
                won: false,
            },
            Effect::Mint { token: TOKEN, minter: THIS, to: user(2), amount: 20_000_000 },
        ]
    );
    assert_eq!(c.claim(&mut at(1000), user(3), 1), Err(MarketError::NoBetFound));
    assert_eq!(c.claim(&mut at(1000), user(3), 8), Err(MarketError::MarketNotFound));
    assert_eq!(c.cancel_refund(&mut at(1000), user(1), 1), Err(MarketError::MarketNotCancelled));
}

#[test]
fn a_cancelled_market_refunds_what_it_holds() {
    let mut c = markets();
    c.place_bet(&mut at(10), user(1), 1, true, TEN, true).unwrap();
    c.place_bet(&mut at(10), user(2), 1, false, 2 * TEN, false).unwrap();
    let m = c.get_market(1).unwrap();
    let pool = m.total_yes + m.total_no;
    let held = pool + c.get_market_fees(1);
    assert_eq!(c.cancel_market(&mut at(20), user(1), 1), Err(MarketError::NotAdmin));
    assert_eq!(c.cancel_market(&mut at(20), ADMIN, 5), Err(MarketError::MarketNotFound));
    let mut env = at(20);
    c.cancel_market(&mut env, ADMIN, 1).unwrap();
    assert_eq!(env.effects, vec![Effect::RequireAuth(ADMIN), bump(DataKey::Market(1))]);
    assert_eq!(c.cancel_market(&mut at(20), ADMIN, 1), Err(MarketError::MarketCancelled));
    assert_eq!(
        c.resolve_market(&mut at(1000), ADMIN, 1, true),
        Err(MarketError::MarketCancelled)
    );
    assert_eq!(c.claim(&mut at(1000), user(1), 1), Err(MarketError::MarketCancelled));

    let mut env = at(30);
    assert_eq!(c.cancel_refund(&mut env, user(1), 1), Ok(99_500_000));
    assert_eq!(
        env.effects,
        vec![
            Effect::RequireAuth(user(1)),
            bump(DataKey::Bet(1, user(1))),
            bump(DataKey::Market(1)),
            pay(THIS, user(1), 99_500_000),
        ]
    );
    assert_eq!(c.get_bet_gross(1, user(1)), 0);
    assert_eq!(c.get_bet(1, user(1)).unwrap().amount, 98_000_000);
    assert_eq!(c.cancel_refund(&mut at(30), user(1), 1), Err(MarketError::NoBetFound));
    assert_eq!(c.cancel_refund(&mut at(30), user(3), 1), Err(MarketError::NoBetFound));
    assert_eq!(c.cancel_refund(&mut at(30), user(3), 4), Err(MarketError::MarketNotFound));
    assert_eq!(c.cancel_refund(&mut at(30), user(2), 1), Ok(2 * TEN));
    assert_eq!(99_500_000 + 2 * TEN, held);
    assert_eq!(c.get_accumulated_fees(), 0);
}

#[test]
fn the_admin_withdraws_all_fees() {
    let mut c = markets();
    assert_eq!(c.withdraw_fees(&mut at(0), ADMIN, ADMIN), Err(MarketError::NoFeesToWithdraw));
    bet(&mut c, user(1), true, TEN);
    assert_eq!(c.withdraw_fees(&mut at(0), user(1), ADMIN), Err(MarketError::NotAdmin));
    assert_eq!(
        c.withdraw_fees(&mut at(0), ADMIN, user(5)),
        Err(MarketError::InvalidFeeRecipient)
    );
    c.add_fee_recipient(&mut at(0), ADMIN, user(5)).unwrap();
    let mut env = at(0);
    assert_eq!(c.withdraw_fees(&mut env, ADMIN, user(5)), Ok(2_000_000));
    assert_eq!(
        env.effects,
        vec![Effect::RequireAuth(ADMIN), pay(THIS, user(5), 2_000_000)]
    );
    assert_eq!(c.get_accumulated_fees(), 0);
    assert_eq!(c.get_market_fees(1), 2_000_000);
}

#[test]
fn a_request_is_capped_and_waits() {
    let mut c = markets();
    bet(&mut c, user(1), true, TEN);
    assert_eq!(
        c.request_withdraw_fees(&mut at(0), user(5), user(5), 1),
        Err(MarketError::NotAuthorized)
    );
    assert_eq!(
        c.add_fee_recipient(&mut at(0), user(5), user(5)),
        Err(MarketError::NotAdmin)
    );
    c.add_fee_recipient(&mut at(0), ADMIN, user(5)).unwrap();
    assert!(c.is_fee_recipient(user(5)));
    assert_eq!(
        c.request_withdraw_fees(&mut at(0), user(5), user(6), 1),
        Err(MarketError::InvalidFeeRecipient)
    );
    assert_eq!(
        c.request_withdraw_fees(&mut at(0), user(5), user(5), 0),
        Err(MarketError::InvalidAmount)
    );
    assert_eq!(
        c.request_withdraw_fees(&mut at(0), user(5), user(5), 400_001),
        Err(MarketError::WithdrawalTooLarge)
    );
    assert_eq!(
        c.request_withdraw_fees(&mut at(0), user(5), user(5), 2_000_001),
        Err(MarketError::WithdrawalTooLarge)
    );
    let mut env = at(100);
    assert_eq!(c.request_withdraw_fees(&mut env, user(5), ADMIN, 400_000), Ok(()));
    assert_eq!(
        env.effects,
        vec![Effect::RequireAuth(user(5)), bump(DataKey::PendingWithdrawal(user(5)))]
    );
    assert_eq!(
        c.get_pending_withdrawal(user(5)),
        Some(WithdrawalRequest { recipient: ADMIN, amount: 400_000, requested_at: 100 })
    );
    assert_eq!(
        c.request_withdraw_fees(&mut at(100), user(5), user(5), 1),
        Err(MarketError::WithdrawalRequestExists)
    );
    assert_eq!(
        c.execute_withdraw_fees(&mut at(86_499), user(5)),
        Err(MarketError::WithdrawalTooSoon)
    );
    assert_eq!(
        c.execute_withdraw_fees(&mut at(50), user(5)),
        Err(MarketError::WithdrawalTooSoon)
    );
    let mut env = at(86_500);
    assert_eq!(c.execute_withdraw_fees(&mut env, user(5)), Ok(400_000));
    assert_eq!(
        env.effects,
        vec![Effect::RequireAuth(user(5)), pay(THIS, ADMIN, 400_000)]
    );
    assert_eq!(c.get_accumulated_fees(), 1_600_000);
    assert_eq!(
        c.execute_withdraw_fees(&mut at(99_999), user(5)),
        Err(MarketError::NoWithdrawalRequest)
    );
}

#[test]
fn a_request_can_be_dropped_or_left_uncovered() {
    let mut c = markets();
    bet(&mut c, user(1), true, TEN);
    c.add_fee_recipient(&mut at(0), ADMIN, user(5)).unwrap();
    c.request_withdraw_fees(&mut at(0), user(5), user(5), 400_000).unwrap();
    assert_eq!(
        c.cancel_withdrawal_request(&mut at(0), user(5), user(5)),
        Err(MarketError::NotAdmin)
    );
    let mut env = at(0);
    c.cancel_withdrawal_request(&mut env, ADMIN, user(5)).unwrap();
    assert_eq!(env.effects, vec![Effect::RequireAuth(ADMIN)]);
    assert_eq!(
        c.cancel_withdrawal_request(&mut at(0), ADMIN, user(5)),
        Err(MarketError::NoWithdrawalRequest)
    );
    c.request_withdraw_fees(&mut at(0), user(5), user(5), 400_000).unwrap();
    c.withdraw_fees(&mut at(0), ADMIN, ADMIN).unwrap();
    assert_eq!(
        c.execute_withdraw_fees(&mut at(90_000), user(5)),
        Err(MarketError::WithdrawalTooLarge)
    );
    assert_eq!(c.remove_fee_recipient(&mut at(0), user(5), user(5)), Err(MarketError::NotAdmin));
    c.remove_fee_recipient(&mut at(0), ADMIN, user(5)).unwrap();
    assert!(!c.is_fee_recipient(user(5)));
}

#[test]
fn bettors_are_listed_in_pages() {
    let mut c = markets();
    for n in 1..=120u128 {
        bet(&mut c, user(n), n % 2 == 0, TEN);
    }
    bet(&mut c, user(3), false, TEN);
    let first = c.get_market_bettors(1).unwrap();
    assert_eq!(first.len(), 100);
    assert_eq!(first[0], user(1));
    let rest = c.get_market_bettors_page(1, 100, 500).unwrap();
    assert_eq!(rest.len(), 20);
    assert_eq!(rest[19], user(120));
    assert_eq!(c.get_market_bettors_page(1, 2, 2).unwrap(), vec![user(3), user(4)]);
    assert!(c.get_market_bettors_page(1, 120, 5).unwrap().is_empty());
    assert!(c.get_market_bettors_page(1, u32::MAX, 5).unwrap().is_empty());
    assert_eq!(c.get_market_bettors(2), Err(MarketError::MarketNotFound));
    assert_eq!(c.get_market_bettors_page(2, 0, 1), Err(MarketError::MarketNotFound));
}

#[test]
fn fees_are_traced_to_their_markets() {
    let mut c = markets();
    create(&mut c, 0, 1000).unwrap();
    bet(&mut c, user(1), true, TEN);
    c.place_bet(&mut at(10), user(1), 2, false, 3 * TEN, true).unwrap();
    c.place_bet(&mut at(10), user(2), 2, true, TEN + 7, true).unwrap();
    assert_eq!(c.get_accumulated_fees(), c.get_market_fees(1) + c.get_market_fees(2));
    c.resolve_market(&mut at(1000), ADMIN, 2, true).unwrap();
    c.resolve_market(&mut at(1000), ADMIN, 1, false).unwrap();
    assert_eq!(c.get_accumulated_fees(), c.get_market_fees(1) + c.get_market_fees(2));
}

#[test]
fn what_leaves_the_fees_is_what_is_paid_out_of_them() {
    let mut c = markets();
    create(&mut c, 0, 1000).unwrap();
    bet(&mut c, user(1), true, TEN);
    c.place_bet(&mut at(10), user(1), 2, false, 3 * TEN, true).unwrap();
    let gap = |c: &PredictionMarketContract| {
        c.get_market_fees(1) + c.get_market_fees(2) - c.get_accumulated_fees()
    };
    assert_eq!(gap(&c), 0);

    c.cancel_market(&mut at(20), ADMIN, 2).unwrap();
    let stake = c.get_bet(2, user(1)).unwrap().amount;
    let refund = c.cancel_refund(&mut at(20), user(1), 2).unwrap();
    assert_eq!(refund - stake, c.get_market_fees(2));
    assert_eq!(gap(&c), refund - stake);

    c.add_fee_recipient(&mut at(20), ADMIN, user(5)).unwrap();
    c.request_withdraw_fees(&mut at(20), user(5), user(5), 300_000).unwrap();
    assert_eq!(gap(&c), refund - stake);
    c.execute_withdraw_fees(&mut at(90_000), user(5)).unwrap();
    assert_eq!(gap(&c), refund - stake + 300_000);

    let rest = c.withdraw_fees(&mut at(90_000), ADMIN, ADMIN).unwrap();
    assert_eq!(gap(&c), refund - stake + 300_000 + rest);
    assert_eq!(gap(&c), c.get_market_fees(1) + c.get_market_fees(2));
}

#[test]
fn calls_can_be_checked_beforehand() {
    let mut c = markets();
    assert_eq!(c.check_create(user(1), 0), Err(MarketError::NotAdmin));
    assert_eq!(c.check_create(ADMIN, 0), Ok(()));
    while create(&mut c, 0, 1000).is_ok() {}
    assert_eq!(c.check_create(ADMIN, 0), Err(MarketError::RateLimitExceeded));
    assert_eq!(c.check_resolve(user(1), 1, 1000), Err(MarketError::NotResolver));
    assert_eq!(c.check_resolve(ADMIN, 999, 1000), Err(MarketError::MarketNotFound));
    assert_eq!(c.check_resolve(ADMIN, 1, 999), Err(MarketError::MarketNotExpired));
    assert_eq!(c.check_resolve(ADMIN, 1, 1000), Ok(()));
    bet(&mut c, user(1), true, TEN);
    assert_eq!(c.check_uncapped_request(user(5), user(5), 1), Err(MarketError::NotAuthorized));
    assert_eq!(c.check_uncapped_request(ADMIN, ADMIN, 0), Err(MarketError::InvalidAmount));
    assert_eq!(
        c.check_uncapped_request(ADMIN, ADMIN, 2_000_001),
        Err(MarketError::WithdrawalTooLarge)
    );
    assert_eq!(c.check_uncapped_request(ADMIN, ADMIN, 2_000_000), Ok(()));
}

#[test]
fn sums_out_of_range_are_noticed() {
    let mut c = markets();
    let huge = i128::MAX / 9800;
    assert!(c.bet_fits(user(1), 1, true, huge, false));
    c.place_bet(&mut at(10), user(1), 1, true, huge, false).unwrap();
    c.accumulated_fees = i128::MAX;
    assert!(!c.bet_fits(user(1), 1, true, TEN, false));
    c.accumulated_fees = 0;
    assert!(c.bet_fits(user(1), 1, true, TEN, false));
    assert!(!c.resolve_fits(1, true));
    assert!(c.resolve_fits(1, false));
}
