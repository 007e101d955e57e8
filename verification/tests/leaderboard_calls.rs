use pulse_protocol::env::{Address, Bytes32, Env, Ledger};
use pulse_protocol::leaderboard::{
    DataKey, Effect, Event, LeaderboardContract, LeaderboardError, PendingReward, PlayerStats,
    DECAY_PERIOD_LEDGERS, DECAY_ZERO_AFTER_PERIODS, TTL_BUMP, TTL_HIGH, UNRANKED_RANK,
};

const ADMIN: Address = Address::Account(Bytes32 { hi: 1, lo: 1 });
const MARKET: Address = Address::Contract(Bytes32 { hi: 1, lo: 2 });
const REFERRAL: Address = Address::Contract(Bytes32 { hi: 1, lo: 3 });
const TOKEN: Address = Address::Contract(Bytes32 { hi: 1, lo: 4 });
const THIS: Address = Address::Contract(Bytes32 { hi: 1, lo: 5 });

fn user(n: u128) -> Address {
    Address::Account(Bytes32 { hi: 0, lo: n })
}

fn at(sequence: u32) -> Env<Effect> {
    Env::new(Ledger { sequence, timestamp: 0, contract: THIS })
}

fn bump(key: DataKey) -> Effect {
    Effect::ExtendTtl { key, threshold: TTL_BUMP, extend_to: TTL_HIGH }
}

fn bump_instance() -> Effect {
    Effect::ExtendInstanceTtl { threshold: TTL_BUMP, extend_to: TTL_HIGH }
}

fn board() -> LeaderboardContract {
    let mut lb = LeaderboardContract::new();
    lb.initialize(&mut at(0), ADMIN, MARKET, REFERRAL).unwrap();
    lb
}

#[test]
fn error_numbers() {
    assert_eq!(LeaderboardError::AlreadyInitialized.code(), 1);
    assert_eq!(LeaderboardError::NotInitialized.code(), 2);
    assert_eq!(LeaderboardError::UnauthorizedCaller.code(), 3);
    assert_eq!(LeaderboardError::InvalidPoints.code(), 4);
    assert_eq!(LeaderboardError::NotAdmin.code(), 5);
    assert_eq!(LeaderboardError::ContractPaused.code(), 6);
    assert_eq!(LeaderboardError::IncompatibleInterface.code(), 7);
    assert_eq!(LeaderboardError::TokenNotConfigured.code(), 8);
}

#[test]
fn calls_before_setup_are_refused() {
    let mut lb = LeaderboardContract::new();
    let mut env = at(0);
    let none = Err(LeaderboardError::NotInitialized);
    assert_eq!(lb.add_pts(&mut env, MARKET, user(1), 1, true), none);
    assert_eq!(lb.add_bonus_pts(&mut env, REFERRAL, user(1), 1), none);
    assert_eq!(lb.pause(&mut env, ADMIN), none);
    assert_eq!(lb.set_token_contract(&mut env, ADMIN, TOKEN), none);
    assert_eq!(lb.record_bet(&mut env, MARKET, user(1)), none);
    assert!(env.effects.is_empty());
}

#[test]
fn only_the_admin_configures() {
    let mut lb = board();
    let mut env = at(0);
    let not = Err(LeaderboardError::NotAdmin);
    assert_eq!(lb.set_token_contract(&mut env, MARKET, TOKEN), not);
    assert_eq!(lb.pause(&mut env, MARKET), not);
    assert_eq!(lb.unpause(&mut env, MARKET), not);
    assert!(env.effects.is_empty());
    assert_eq!(LeaderboardContract::interface_version(), 1);
}

#[test]
fn a_pause_stops_credits_until_it_is_lifted() {
    let mut lb = board();
    lb.pause(&mut at(0), ADMIN).unwrap();
    assert!(lb.is_paused());
    let stopped = Err(LeaderboardError::ContractPaused);
    assert_eq!(lb.add_pts(&mut at(0), MARKET, user(1), 1, true), stopped);
    assert_eq!(lb.reward(&mut at(0), MARKET, user(1), 1, 0, true, 1), stopped);
    assert_eq!(lb.add_bonus_pts(&mut at(0), REFERRAL, user(1), 1), stopped);
    assert_eq!(lb.reward_bonus(&mut at(0), REFERRAL, user(1), 1, 0, 1), stopped);
    assert_eq!(lb.queue_reward(&mut at(0), MARKET, user(1), 1, 0, true), stopped);
    lb.unpause(&mut at(0), ADMIN).unwrap();
    assert!(!lb.is_paused());
    assert_eq!(lb.add_pts(&mut at(0), MARKET, user(1), 7, true), Ok(()));
    assert_eq!(lb.get_points(&at(0), user(1)), 7);
}

#[test]
fn a_reward_mints_if_the_token_is_as_expected() {
    let mut lb = board();
    assert_eq!(lb.reward_query(MARKET, 30, 100), None);
    let mut env = at(0);
    assert_eq!(
        lb.reward(&mut env, MARKET, user(1), 30, 100, true, 1),
        Err(LeaderboardError::TokenNotConfigured)
    );
    assert_eq!(env.effects, vec![Effect::RequireAuth(MARKET)]);

    lb.set_token_contract(&mut at(0), ADMIN, TOKEN).unwrap();
    assert_eq!(lb.reward_query(MARKET, 30, 100), Some(TOKEN));
    assert_eq!(lb.reward_query(MARKET, 0, 100), None);
    assert_eq!(lb.reward_query(MARKET, 30, 0), None);
    assert_eq!(lb.reward_query(REFERRAL, 30, 100), None);
    assert_eq!(
        lb.reward(&mut at(0), MARKET, user(1), 30, 100, true, 2),
        Err(LeaderboardError::IncompatibleInterface)
    );
    assert_eq!(
        lb.reward(&mut at(0), MARKET, user(1), 0, 100, true, 1),
        Err(LeaderboardError::InvalidPoints)
    );
    assert_eq!(lb.get_points(&at(0), user(1)), 0);

    let mut env = at(0);
    assert_eq!(lb.reward(&mut env, MARKET, user(1), 30, 100, true, 1), Ok(()));
    assert_eq!(
        env.effects,
        vec![
            Effect::RequireAuth(MARKET),
            bump(DataKey::Stats(user(1))),
            bump(DataKey::TopPlayerAt(0)),
            bump(DataKey::TopPlayerSlot(user(1))),
            bump(DataKey::TopPlayerSeqAt(0)),
            Effect::Publish(Event::Settled { user: user(1), points: 30, won_bets: 1, lost_bets: 0 }),
            Effect::Mint { token: TOKEN, minter: THIS, to: user(1), amount: 100 },
            bump_instance(),
        ]
    );

    let mut env = at(0);
    assert_eq!(lb.reward_bonus_query(REFERRAL, 5), Some(TOKEN));
    assert_eq!(lb.reward_bonus(&mut env, REFERRAL, user(1), 3, 5, 1), Ok(()));
    assert!(env.effects.contains(&Effect::Publish(Event::Bonus {
        user: user(1),
        points: 33,
        bonus_bets: 1,
    })));
    assert!(env.effects.contains(&Effect::Mint {
        token: TOKEN,
        minter: THIS,
        to: user(1),
        amount: 5,
    }));
}

#[test]
fn queued_rewards_add_up_and_are_collected_once() {
    let mut lb = board();
    lb.set_token_contract(&mut at(0), ADMIN, TOKEN).unwrap();
    let mut env = at(0);
    lb.queue_reward(&mut env, MARKET, user(1), 30, 100, true).unwrap();
    assert_eq!(
        env.effects,
        vec![Effect::RequireAuth(MARKET), bump(DataKey::PendingReward(user(1)))]
    );
    lb.queue_reward(&mut at(0), MARKET, user(1), 10, 20, false).unwrap();
    assert_eq!(
        lb.get_pending_reward(user(1)),
        Some(PendingReward { points: 40, tokens: 120, won_delta: 1, lost_delta: 1, bet_delta: 2 })
    );
    assert_eq!(lb.claim_query(user(1)), Some(TOKEN));
    assert_eq!(
        lb.claim_pending_rewards(&mut at(0), user(1), 9),
        Err(LeaderboardError::IncompatibleInterface)
    );
    assert_eq!(lb.get_pending_reward(user(1)).unwrap().points, 40);

    let mut env = at(0);
    assert_eq!(lb.claim_pending_rewards(&mut env, user(1), 1), Ok(()));
    assert_eq!(lb.get_points(&at(0), user(1)), 40);
    assert!(env.effects.contains(&Effect::Mint {
        token: TOKEN,
        minter: THIS,
        to: user(1),
        amount: 120,
    }));

    let mut env = at(0);
    assert_eq!(lb.claim_pending_rewards(&mut env, user(1), 1), Ok(()));
    assert!(env.effects.is_empty());
    assert_eq!(lb.get_points(&at(0), user(1)), 40);
}

#[test]
fn a_queued_reward_does_not_decay_until_it_is_collected() {
    let mut lb = board();
    lb.add_pts(&mut at(0), MARKET, user(1), 1000, true).unwrap();
    lb.queue_reward(&mut at(0), MARKET, user(1), 100, 0, true).unwrap();
    let later = DECAY_PERIOD_LEDGERS;
    lb.claim_pending_rewards(&mut at(later), user(1), 1).unwrap();
    assert_eq!(lb.get_points(&at(later), user(1)), 900 + 100);
}

#[test]
fn decay_formula() {
    assert_eq!(LeaderboardContract::decay(1000, 0), 1000);
    assert_eq!(LeaderboardContract::decay(1000, 1), 900);
    assert_eq!(LeaderboardContract::decay(999, 1), 899);
    assert_eq!(LeaderboardContract::decay(1000, 3), 729);
    assert_eq!(LeaderboardContract::decay(100, 5), 57);
    assert_eq!(LeaderboardContract::decay(u64::MAX, DECAY_ZERO_AFTER_PERIODS), 0);
    // Two spans of decay are one long span, short of the point of writing off.
    for (a, b) in [(1, 1), (3, 7), (20, 31), (0, 51)] {
        assert_eq!(
            LeaderboardContract::decay(LeaderboardContract::decay(123_456, a), b),
            LeaderboardContract::decay(123_456, a + b)
        );
    }
}

#[test]
fn upkeep_extends_what_is_there() {
    let mut lb = board();
    let mut env = at(0);
    lb.refresh_player_ttl(&mut env, user(1));
    assert_eq!(env.effects, vec![bump_instance()]);
    lb.add_pts(&mut at(0), MARKET, user(1), 5, true).unwrap();
    let mut env = at(0);
    lb.refresh_player_ttl(&mut env, user(1));
    assert_eq!(
        env.effects,
        vec![
            bump(DataKey::Stats(user(1))),
            bump(DataKey::TopPlayerAt(0)),
            bump(DataKey::TopPlayerSlot(user(1))),
            bump_instance(),
        ]
    );
}

#[test]
fn a_recorded_bet_credits_nothing() {
    let lb = board();
    let mut env = at(0);
    assert_eq!(lb.record_bet(&mut env, MARKET, user(1)), Ok(()));
    assert_eq!(env.effects, vec![Effect::RequireAuth(MARKET)]);
    assert_eq!(
        lb.record_bet(&mut env, REFERRAL, user(1)),
        Err(LeaderboardError::UnauthorizedCaller)
    );
    assert_eq!(lb.get_player_count(), 0);
    assert_eq!(lb.get_min_slot(), 0);
    assert_eq!(lb.get_min_points(&at(0)), 0);
}

#[test]
fn the_page_is_a_part_of_the_ranking() {
    let mut lb = board();
    for (n, pts) in [(1u128, 5u64), (2, 9), (3, 7), (4, 9)] {
        lb.add_pts(&mut at(0), MARKET, user(n), pts, true).unwrap();
    }
    let all: Vec<u64> = lb.get_top_players(&at(0), 0, 100).iter().map(|e| e.points).collect();
    assert_eq!(all, vec![9, 9, 7, 5]);
    let part: Vec<u64> = lb.get_top_players(&at(0), 1, 2).iter().map(|e| e.points).collect();
    assert_eq!(part, vec![9, 7]);
    assert!(lb.get_top_players(&at(0), 0, 0).is_empty());
    assert_eq!(lb.get_rank(&mut at(0), user(2)), 1);
    assert_eq!(lb.get_rank(&mut at(0), user(4)), 1);
    assert_eq!(lb.get_rank(&mut at(0), user(3)), 3);
    assert_eq!(lb.get_rank(&mut at(0), user(9)), UNRANKED_RANK);
}

#[test]
fn counters_out_of_range_are_noticed() {
    let mut lb = board();
    assert!(lb.bet_fits(&at(0), user(1), u64::MAX, true));
    lb.add_pts(&mut at(0), MARKET, user(1), u64::MAX, true).unwrap();
    assert!(!lb.bet_fits(&at(0), user(1), 1, true));
    assert!(lb.bet_fits(&at(0), user(1), 0, true));
    assert!(!lb.bonus_fits(&at(0), user(1), 1));
    assert!(lb.stats_fit(user(1)));
    lb.queue_reward(&mut at(0), MARKET, user(1), 1, i128::MAX, true).unwrap();
    assert!(!lb.queue_fits(user(1), 1, 1, true));
    assert!(lb.queue_fits(user(1), 1, 0, true));
    assert!(!lb.claim_fits(&at(0), user(1)));
    assert!(lb.claim_fits(&at(0), user(2)));
}

#[test]
fn the_minimum_is_the_weakest_score_in_the_list() {
    let mut lb = board();
    assert_eq!(lb.get_min_points(&at(0)), 0);
    lb.add_pts(&mut at(0), MARKET, user(1), 100, true).unwrap();
    assert_eq!(lb.get_min_points(&at(0)), 100);
    lb.add_pts(&mut at(0), MARKET, user(2), 50, true).unwrap();
    assert_eq!(lb.get_min_points(&at(0)), 50);
    lb.add_pts(&mut at(0), MARKET, user(3), 70, true).unwrap();
    assert_eq!(lb.get_min_points(&at(0)), 50);
    lb.add_pts(&mut at(0), MARKET, user(2), 200, true).unwrap();
    assert_eq!(lb.get_min_points(&at(0)), 70);
    assert_eq!(lb.get_min_points(&at(DECAY_PERIOD_LEDGERS)), LeaderboardContract::decay(70, 1));

    let weakest: u32 = lb.get_player_count() - 1;
    lb.top.at.remove(&weakest);
    assert_eq!(lb.get_min_points(&at(0)), 100);
    lb.top.at.remove(&0);
    lb.top.at.remove(&1);
    assert_eq!(lb.get_min_points(&at(0)), 70);
    lb.reconcile_top_slots(&mut at(0));
    assert_eq!(lb.get_player_count(), 0);
    assert_eq!(lb.get_min_points(&at(0)), 0);
}

#[test]
fn a_list_that_has_expired_keeps_its_last_minimum() {
    let mut lb = board();
    lb.add_pts(&mut at(0), MARKET, user(1), 100, true).unwrap();
    lb.add_pts(&mut at(0), MARKET, user(1), 50, true).unwrap();
    lb.top.at.remove(&0);
    assert_eq!(lb.get_min_points(&at(0)), 150);
    assert_eq!(lb.get_min_points(&at(DECAY_PERIOD_LEDGERS)), 150);
}

#[test]
fn a_climb_past_the_minimum_just_above_finds_it_anew() {
    let mut lb = board();
    for (n, pts) in [(1u128, 100u64), (2, 50), (3, 40)] {
        lb.add_pts(&mut at(0), MARKET, user(n), pts, true).unwrap();
    }
    assert_eq!(lb.get_min_slot(), 0);
    lb.add_pts(&mut at(0), MARKET, user(2), 100, true).unwrap();
    assert_eq!(lb.top.slot_of.copied(&user(2)), Some(0));
    assert_eq!(lb.get_min_slot(), 2);
    assert_eq!(lb.top.min_points, 40);
    assert_eq!(lb.top.at.copied(&2).unwrap().address, user(3));
}

#[test]
fn a_tie_that_comes_with_time_does_not_move_the_minimum() {
    let mut lb = board();
    for n in 1..=48 {
        lb.add_pts(&mut at(0), MARKET, user(n), 2000 - n as u64, true).unwrap();
    }
    lb.add_pts(&mut at(0), MARKET, user(49), 101, true).unwrap();
    lb.add_pts(&mut at(0), MARKET, user(50), 100, true).unwrap();
    let later = DECAY_PERIOD_LEDGERS;
    assert_eq!(LeaderboardContract::decay(101, 1), 90);
    assert_eq!(LeaderboardContract::decay(100, 1), 90);
    lb.add_pts(&mut at(later), MARKET, user(51), 90, true).unwrap();
    assert_eq!(lb.get_rank(&mut at(later), user(50)), UNRANKED_RANK);
    assert_eq!(lb.get_rank(&mut at(later), user(49)), 49);
    assert_eq!(lb.top.at.copied(&lb.get_min_slot()).unwrap().address, user(49));
}

#[test]
fn the_entry_that_fills_the_list_fixes_the_minimum() {
    let mut lb = board();
    for n in 1..=49 {
        lb.add_pts(&mut at(0), MARKET, user(n), 2000 - n as u64, true).unwrap();
    }
    assert_eq!(lb.get_min_slot(), 0);
    lb.add_pts(&mut at(0), MARKET, user(50), 5000, true).unwrap();
    assert_eq!(lb.top.at.copied(&lb.get_min_slot()).unwrap().address, user(49));
    assert_eq!(lb.top.min_points, 1951);
}

#[test]
fn stats_of_nobody() {
    let none = PlayerStats::default();
    assert_eq!(none, PlayerStats { points: 0, total_bets: 0, won_bets: 0, lost_bets: 0 });
    assert_eq!(board().get_stats(&at(0), user(1)), none);
}

#[test]
fn a_minimum_of_the_largest_score_is_found_past_an_empty_slot() {
    let mut lb = board();
    for n in 1..=3 {
        lb.add_pts(&mut at(0), MARKET, user(n), u64::MAX, true).unwrap();
    }
    lb.top.at.remove(&0);
    lb.add_pts(&mut at(0), MARKET, user(3), 0, true).unwrap();
    assert_eq!(lb.get_min_points(&at(0)), u64::MAX);
    assert!(lb.top.at.has(&lb.get_min_slot()));
}

/// A full list. The two weakest, users 49 and 50, have the same score, and user 49 came
/// first.
fn full_board() -> LeaderboardContract {
    let mut lb = board();
    for n in 1..=48 {
        lb.add_pts(&mut at(0), MARKET, user(n), 2000 - n as u64, true).unwrap();
    }
    lb.add_pts(&mut at(0), MARKET, user(49), 100, true).unwrap();
    lb.add_pts(&mut at(0), MARKET, user(50), 100, true).unwrap();
    lb
}

#[test]
fn a_weakest_player_who_rises_is_not_the_minimum_any_more() {
    let mut lb = full_board();
    assert_eq!(lb.get_min_slot(), 48);
    lb.add_pts(&mut at(0), MARKET, user(49), 5000, true).unwrap();
    let min = lb.top.at.copied(&lb.get_min_slot()).unwrap();
    assert_eq!(min.address, user(50));
    assert_eq!(lb.get_min_points(&at(0)), 100);

    lb.add_pts(&mut at(0), MARKET, user(60), 100, true).unwrap();
    assert_eq!(lb.get_rank(&mut at(0), user(60)), 50);
    assert_eq!(lb.get_rank(&mut at(0), user(50)), UNRANKED_RANK);
    assert_eq!(lb.get_rank(&mut at(0), user(49)), 1);
}

#[test]
fn a_credit_to_another_player_keeps_the_minimum() {
    let mut lb = full_board();
    lb.add_pts(&mut at(0), MARKET, user(30), 700, true).unwrap();
    lb.add_pts(&mut at(0), MARKET, user(50), 1, true).unwrap();
    let min = lb.top.at.copied(&lb.get_min_slot()).unwrap();
    assert_eq!(min.address, user(49));
    assert_eq!(min.points, 100);
}

#[test]
fn a_repair_moves_entries_with_their_numbers_and_lookups() {
    let mut lb = board();
    for (n, pts) in [(1u128, 40u64), (2, 30), (3, 20), (4, 10)] {
        lb.add_pts(&mut at(0), MARKET, user(n), pts, true).unwrap();
    }
    let third = lb.top.seq_at.copied(&2);
    let fourth = lb.top.seq_at.copied(&3);
    assert!(third.is_some());
    assert_ne!(third, fourth);
    lb.top.at.remove(&1);
    lb.top.slot_of.remove(&user(1));
    lb.top.slot_of.remove(&user(4));

    let mut env = at(0);
    lb.reconcile_top_slots(&mut env);
    assert_eq!(
        env.effects,
        vec![
            bump(DataKey::TopPlayerAt(0)),
            bump(DataKey::TopPlayerSlot(user(1))),
            bump(DataKey::TopPlayerAt(1)),
            bump(DataKey::TopPlayerSlot(user(3))),
            bump(DataKey::TopPlayerAt(2)),
            bump(DataKey::TopPlayerSlot(user(4))),
            bump_instance(),
        ]
    );
    let checks = |lb: &LeaderboardContract| {
        assert_eq!(lb.get_player_count(), 3);
        for (slot, n, pts) in [(0u32, 1u128, 40u64), (1, 3, 20), (2, 4, 10)] {
            let e = lb.top.at.copied(&slot).unwrap();
            assert_eq!((e.address, e.points), (user(n), pts));
            assert_eq!(lb.top.slot_of.copied(&user(n)), Some(slot));
        }
        assert!(!lb.top.at.has(&3));
        assert_eq!(lb.top.seq_at.copied(&1), third);
        assert_eq!(lb.top.seq_at.copied(&2), fourth);
        assert_eq!(lb.top.seq_at.copied(&3), None);
        assert_eq!(lb.get_min_slot(), 2);
        assert_eq!(lb.top.min_points, 10);
    };
    checks(&lb);
    let mut again = at(0);
    lb.reconcile_top_slots(&mut again);
    assert_eq!(again.effects, env.effects);
    checks(&lb);
}

#[test]
fn the_oldest_weakest_still_leaves_first_after_a_repair() {
    let mut lb = full_board();
    lb.add_pts(&mut at(0), MARKET, user(51), 100, true).unwrap();
    assert_eq!(lb.get_rank(&mut at(0), user(49)), UNRANKED_RANK);
    assert_eq!(lb.top.slot_of.copied(&user(51)), Some(48));
    assert_eq!(lb.top.slot_of.copied(&user(50)), Some(49));

    lb.top.at.remove(&0);
    lb.reconcile_top_slots(&mut at(0));
    assert_eq!(lb.get_player_count(), 49);
    assert_eq!(lb.top.at.copied(&lb.get_min_slot()).unwrap().address, user(50));

    lb.add_pts(&mut at(0), MARKET, user(52), 3000, true).unwrap();
    lb.add_pts(&mut at(0), MARKET, user(53), 100, true).unwrap();
    assert_eq!(lb.get_rank(&mut at(0), user(50)), UNRANKED_RANK);
    assert_eq!(lb.get_rank(&mut at(0), user(51)), 49);
    assert_eq!(lb.get_rank(&mut at(0), user(53)), 49);
}
