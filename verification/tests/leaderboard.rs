use pulse_protocol::env::{Address, Bytes32, Env, Ledger};
use pulse_protocol::leaderboard::{
    Effect, Event, LeaderboardContract, LeaderboardError, PendingReward, PlayerEntry,
    PlayerStats, MAX_TOP_PLAYERS, UNRANKED_RANK,
};

/// The contract with the ledger it runs in. A call that returns an error panics with
/// the error's number.
struct Client {
    ledger: Ledger,
    lb: LeaderboardContract,
    effects: Vec<Effect>,
    addresses: u128,
}

fn done<T>(r: Result<T, LeaderboardError>) -> T {
    match r {
        Ok(v) => v,
        Err(e) => panic!("Error(Contract, #{})", e.code()),
    }
}

impl Client {
    fn generate(&mut self) -> Address {
        self.addresses += 1;
        Address::Account(Bytes32 { hi: 0, lo: self.addresses })
    }

    fn env(&self) -> Env<Effect> {
        Env::new(self.ledger)
    }

    fn initialize(&mut self, admin: Address, market: Address, referral: Address) {
        let mut env = self.env();
        done(self.lb.initialize(&mut env, admin, market, referral));
        self.effects = env.effects;
    }

    fn add_pts(&mut self, caller: Address, user: Address, pts: u64, is_won: bool) {
        let mut env = self.env();
        done(self.lb.add_pts(&mut env, caller, user, pts, is_won));
        self.effects = env.effects;
    }

    fn add_bonus_pts(&mut self, caller: Address, user: Address, pts: u64) {
        let mut env = self.env();
        done(self.lb.add_bonus_pts(&mut env, caller, user, pts));
        self.effects = env.effects;
    }

    fn reward(&mut self, caller: Address, user: Address, points: u64, tokens: i128, won: bool) {
        let mut env = self.env();
        done(self.lb.reward(&mut env, caller, user, points, tokens, won, 1));
        self.effects = env.effects;
    }

    fn queue_reward(&mut self, caller: Address, user: Address, points: u64, tokens: i128, won: bool) {
        let mut env = self.env();
        done(self.lb.queue_reward(&mut env, caller, user, points, tokens, won));
        self.effects = env.effects;
    }

    fn claim_pending_rewards(&mut self, user: Address) {
        let mut env = self.env();
        done(self.lb.claim_pending_rewards(&mut env, user, 1));
        self.effects = env.effects;
    }

    fn get_pending_reward(&self, user: Address) -> Option<PendingReward> {
        self.lb.get_pending_reward(user)
    }

    fn get_points(&self, user: Address) -> u64 {
        self.lb.get_points(&self.env(), user)
    }

    fn get_stats(&self, user: Address) -> PlayerStats {
        self.lb.get_stats(&self.env(), user)
    }

    fn get_top_players(&self, offset: u32, page_size: u32) -> Vec<PlayerEntry> {
        self.lb.get_top_players(&self.env(), offset, page_size)
    }

    fn get_top_player_count(&self) -> u32 {
        self.lb.get_top_player_count()
    }

    fn get_player_count(&self) -> u32 {
        self.lb.get_player_count()
    }

    fn get_rank(&mut self, user: Address) -> u32 {
        let mut env = self.env();
        self.lb.get_rank(&mut env, user)
    }

    fn get_min_points(&self) -> u64 {
        self.lb.get_min_points(&self.env())
    }

    fn reconcile_top_slots(&mut self) {
        let mut env = self.env();
        self.lb.reconcile_top_slots(&mut env);
        self.effects = env.effects;
    }
}

fn setup() -> (Client, Address, Address, Address) {
    let mut client = Client {
        ledger: Ledger {
            sequence: 0,
            timestamp: 0,
            contract: Address::Contract(Bytes32 { hi: 0, lo: 0 }),
        },
        lb: LeaderboardContract::new(),
        effects: Vec::new(),
        addresses: 0,
    };
    let admin = client.generate();
    let market = client.generate();
    let referral = client.generate();
    client.initialize(admin, market, referral);
    (client, admin, market, referral)
}

#[test]
fn test_add_points_and_verify_balance() {
    let (mut client, _admin, market, _referral) = setup();
    let user = client.generate();
    client.add_pts(market, user, 100_u64, true);
    assert_eq!(client.get_points(user), 100);
}

#[test]
fn test_accumulate_points() {
    let (mut client, _admin, market, _referral) = setup();
    let user = client.generate();
    client.add_pts(market, user, 50_u64, true);
    client.add_pts(market, user, 30_u64, false);
    client.add_pts(market, user, 20_u64, true);
    assert_eq!(client.get_points(user), 100);
}

#[test]
fn test_pending_rewards_accumulate_until_claimed() {
    let (mut client, _admin, market, _referral) = setup();
    let user = client.generate();

    client.queue_reward(market, user, 30_u64, 0_i128, true);
    client.queue_reward(market, user, 10_u64, 0_i128, false);

    assert_eq!(client.get_points(user), 0);
    let pending = client.get_pending_reward(user).unwrap();
    assert_eq!(pending.points, 40);
    assert_eq!(pending.won_delta, 1);
    assert_eq!(pending.lost_delta, 1);
    assert_eq!(pending.bet_delta, 2);

    client.claim_pending_rewards(user);
    assert_eq!(client.get_points(user), 40);
    let stats = client.get_stats(user);
    assert_eq!(stats.won_bets, 1);
    assert_eq!(stats.lost_bets, 1);
    assert_eq!(client.get_pending_reward(user), None);
}

#[test]
fn test_bonus_pts_no_won_lost() {
    let (mut client, _admin, market, referral) = setup();
    let user = client.generate();
    client.add_pts(market, user, 10_u64, true);
    client.add_pts(market, user, 5_u64, false);

    let before = client.get_stats(user);
    assert_eq!(before.won_bets, 1);
    assert_eq!(before.lost_bets, 1);

    client.add_bonus_pts(referral, user, 25_u64);

    let after = client.get_stats(user);
    assert_eq!(after.points, 40);
    assert_eq!(after.total_bets, 3); // won(1) + lost(1) + bonus(1)
    assert_eq!(after.won_bets, 1);
    assert_eq!(after.lost_bets, 1);
}

#[test]
fn test_top_players_sorted() {
    let (mut client, _admin, market, _referral) = setup();

    let alice = client.generate();
    let bob = client.generate();
    let charlie = client.generate();

    client.add_pts(market, alice, 50_u64, true);
    client.add_pts(market, bob, 100_u64, true);
    client.add_pts(market, charlie, 75_u64, true);

    let top = client.get_top_players(0_u32, 20_u32);
    assert_eq!(top.len(), 3);
    assert_eq!(top.get(0).unwrap().address, bob);
    assert_eq!(top.get(0).unwrap().points, 100);
    assert_eq!(top.get(1).unwrap().address, charlie);
    assert_eq!(top.get(1).unwrap().points, 75);
    assert_eq!(top.get(2).unwrap().address, alice);
    assert_eq!(top.get(2).unwrap().points, 50);
}

#[test]
fn test_top_players_capped_at_50() {
    let (mut client, _admin, market, _referral) = setup();

    for i in 1u64..=55 {
        let user = client.generate();
        client.add_pts(market, user, i, true);
    }

    let page1 = client.get_top_players(0_u32, 20_u32);
    assert_eq!(page1.len(), 20);
    assert_eq!(page1.get(0).unwrap().points, 55);

    let page2 = client.get_top_players(20_u32, 20_u32);
    assert_eq!(page2.len(), 20);

    let page3 = client.get_top_players(40_u32, 20_u32);
    assert_eq!(page3.len(), 10);
    assert_eq!(page3.get(9).unwrap().points, 6);

    assert_eq!(client.get_top_player_count(), 50);
}

#[test]
fn test_pagination_offset_beyond_count() {
    let (mut client, _admin, market, _referral) = setup();
    let user = client.generate();
    client.add_pts(market, user, 100_u64, true);
    let result = client.get_top_players(10_u32, 20_u32);
    assert_eq!(result.len(), 0);
}

#[test]
fn test_get_stats_aggregate() {
    let (mut client, _admin, market, referral) = setup();
    let user = client.generate();

    // 2 wins, 1 loss = 3 total settled bets
    client.add_pts(market, user, 20_u64, true);
    client.add_pts(market, user, 30_u64, true);
    client.add_pts(market, user, 5_u64, false);

    // Bonus points don't affect won/lost counts, but do count toward total_bets
    client.add_bonus_pts(referral, user, 10_u64);

    let stats = client.get_stats(user);
    assert_eq!(stats.points, 65);
    assert_eq!(stats.total_bets, 4); // won_bets(2) + lost_bets(1) + bonus_bets(1)
    assert_eq!(stats.won_bets, 2);
    assert_eq!(stats.lost_bets, 1);
}


#[test]
fn test_bonus_only_user_has_nonzero_total_bets() {
    // A user who only ever receives referral/welcome bonuses must not read as
    // total_bets == 0. Bonus awards are counted without polluting won/lost.
    let (mut client, _admin, _market, referral) = setup();
    let user = client.generate();

    // add_bonus_pts: per-referred-bet bonus path.
    client.add_bonus_pts(referral, user, 3_u64);
    // add_bonus_pts: welcome-bonus path (tokens=0 so no mint wiring is needed).
    client.add_bonus_pts(referral, user, 5_u64);

    let stats = client.get_stats(user);
    assert_eq!(stats.points, 8);
    assert_eq!(stats.total_bets, 2); // 2 bonus awards, 0 settled bets
    assert_eq!(stats.won_bets, 0);
    assert_eq!(stats.lost_bets, 0);
}

#[test]
fn test_rank_calculation() {
    let (mut client, _admin, market, _referral) = setup();

    let alice = client.generate();
    let bob = client.generate();
    let charlie = client.generate();
    let dave = client.generate();

    client.add_pts(market, alice, 50_u64, true);
    client.add_pts(market, bob, 100_u64, true);
    client.add_pts(market, charlie, 75_u64, true);

    assert_eq!(client.get_rank(bob), 1);
    assert_eq!(client.get_rank(charlie), 2);
    assert_eq!(client.get_rank(alice), 3);
    assert_eq!(client.get_rank(dave), UNRANKED_RANK);
}

#[test]
fn test_rank_is_none_for_player_outside_top_50() {
    let (mut client, _admin, market, _referral) = setup();

    for points in 1u64..=50 {
        let user = client.generate();
        client.add_pts(market, user, points, true);
    }
    let outside_top_50 = client.generate();
    client.add_pts(market, outside_top_50, 0_u64, false);

    assert_eq!(client.get_top_player_count(), 50);
}

#[test]
#[should_panic(expected = "Error(Contract, #3)")]
fn test_unauthorized_caller_rejected() {
    let (mut client, _admin, _market, _referral) = setup();
    let rando = client.generate();
    let user = client.generate();
    client.add_pts(rando, user, 10_u64, true);
}

#[test]
#[should_panic(expected = "Error(Contract, #1)")]
fn test_double_init_rejected() {
    let (mut client, admin, market, referral) = setup();
    client.initialize(admin, market, referral);
}

#[test]
fn test_player_count() {
    let (mut client, _admin, market, _referral) = setup();
    assert_eq!(client.get_top_player_count(), 0);

    let u1 = client.generate();
    let u2 = client.generate();
    client.add_pts(market, u1, 10_u64, true);
    assert_eq!(client.get_top_player_count(), 1);
    client.add_pts(market, u2, 20_u64, true);
    assert_eq!(client.get_top_player_count(), 2);
    client.add_pts(market, u1, 5_u64, false);
    assert_eq!(client.get_top_player_count(), 2);
}


#[test]
fn test_eviction_replaces_lowest_when_full() {
    // Fill exactly 50 with points 100..149, then add a higher scorer.
    // The new entry must enter and the lowest (100) must be evicted.
    let (mut client, _admin, market, _referral) = setup();
    for i in 0u64..50 {
        let user = client.generate();
        client.add_pts(market, user, 100 + i, true);
    }
    assert_eq!(client.get_top_player_count(), 50);

    let newcomer = client.generate();
    client.add_pts(market, newcomer, 500_u64, true);

    // Still capped at 50; newcomer is now #1; the old min (100) is gone.
    assert_eq!(client.get_top_player_count(), 50);
    let top = client.get_top_players(0_u32, 20_u32);
    assert_eq!(top.get(0).unwrap().points, 500);

    // Lowest entry is now 101 (the original 100 was evicted).
    let last = client.get_top_players(40_u32, 20_u32);
    assert_eq!(last.get(9).unwrap().points, 101);
}

#[test]
fn test_low_scorer_rejected_when_full() {
    // Fill 50 with high points, then a low scorer must NOT enter the list.
    let (mut client, _admin, market, _referral) = setup();
    for i in 0u64..50 {
        let user = client.generate();
        client.add_pts(market, user, 1000 + i, true);
    }
    let weak = client.generate();
    client.add_pts(market, weak, 5_u64, false);

    // Weak user has stats/points recorded, but is NOT in the top list.
    assert_eq!(client.get_points(weak), 5);
    assert_eq!(client.get_rank(weak), UNRANKED_RANK);
    assert_eq!(client.get_player_count(), 50);
    assert_eq!(client.get_top_player_count(), 50);
}

#[test]
fn test_bottom_player_rising_updates_min() {
    // When the weakest in-list player gains points, the cached min must update
    // so a later newcomer is compared against the NEW (higher) minimum.
    let (mut client, _admin, market, _referral) = setup();
    let weakest = client.generate();
    // First entry is the weakest at 100; the rest are 110, 120, … (all higher).
    client.add_pts(market, weakest, 100_u64, true);
    for i in 1u64..50 {
        let user = client.generate();
        client.add_pts(market, user, 100 + i * 10, true);
    }
    assert_eq!(client.get_top_player_count(), 50);

    // Boost the weakest (100 -> 1000) so it is no longer the min.
    client.add_pts(market, weakest, 900_u64, true);
    assert_eq!(client.get_points(weakest), 1000);

    // The true new minimum is now 110 (second-lowest original). A newcomer with
    // 105 should be REJECTED (105 <= 110), proving the min recomputed correctly
    // rather than staying stale at 100.
    let newcomer = client.generate();
    client.add_pts(market, newcomer, 105_u64, true);
    assert_eq!(client.get_rank(newcomer), UNRANKED_RANK);
    assert_eq!(client.get_top_player_count(), 50);
}


#[test]
fn test_equal_min_newcomer_displaces_min_when_full() {
    // When the list is full, a newcomer whose points EQUAL the current min must
    // displace the incumbent min player (FIFO) instead of being rejected.
    let (mut client, _admin, market, _referral) = setup();
    let mut min_player: Option<Address> = None;
    for i in 0u64..50 {
        let user = client.generate();
        if i == 0 {
            min_player = Some(user);
        }
        client.add_pts(market, user, 100 + i, true);
    }
    let min_player = min_player.unwrap();
    assert_eq!(client.get_player_count(), 50);
    assert_eq!(client.get_points(min_player), 100);

    let newcomer = client.generate();
    client.add_pts(market, newcomer, 100_u64, true);

    // Still capped at 50; the incumbent min (100) is evicted, the newcomer
    // enters, and the list now holds the newcomer instead of the old min.
    assert_eq!(client.get_player_count(), 50);
    assert_eq!(client.get_rank(min_player), UNRANKED_RANK);
    assert_eq!(client.get_rank(newcomer), 50);
}

#[test]
fn test_equal_min_fifo_evicts_oldest_tie() {
    // Several players tied at the min: the OLDEST tie (first inserted) is
    // displaced by a new equal-min player — deterministic FIFO.
    let (mut client, _admin, market, _referral) = setup();
    for i in 0u64..45 {
        let user = client.generate();
        client.add_pts(market, user, 100 + i, true);
    }
    let mut first_tie: Option<Address> = None;
    let mut last_tie: Option<Address> = None;
    for i in 0u64..5 {
        let user = client.generate();
        if i == 0 {
            first_tie = Some(user);
        }
        if i == 4 {
            last_tie = Some(user);
        }
        client.add_pts(market, user, 10_u64, true);
    }
    let first_tie = first_tie.unwrap();
    let last_tie = last_tie.unwrap();
    assert_eq!(client.get_player_count(), 50);
    // 45 players scored higher (100..144) than every 10-point tie.
    assert_eq!(client.get_rank(first_tie), 46);
    assert_eq!(client.get_rank(last_tie), 46);

    let newcomer = client.generate();
    client.add_pts(market, newcomer, 10_u64, true);

    assert_eq!(client.get_player_count(), 50);
    // FIFO: the oldest tied-at-min player is displaced; the newer tie stays.
    assert_eq!(client.get_rank(first_tie), UNRANKED_RANK);
    assert_eq!(client.get_rank(last_tie), 46);
    assert_eq!(client.get_rank(newcomer), 46);
}

#[test]
fn test_fill_min_boost_keeps_cache_correct() {
    // Boosting the cached-min player while the list is still filling must
    // recompute the cache. Otherwise a later newcomer compares against a stale
    // (lower) minimum and wrongly displaces a stronger player.
    let (mut client, _admin, market, _referral) = setup();
    let weakest = client.generate();
    client.add_pts(market, weakest, 100_u64, true);
    // Boost the (cached) min player before the list fills up.
    client.add_pts(market, weakest, 50_u64, true);
    assert_eq!(client.get_points(weakest), 150);

    for i in 0u64..48 {
        let user = client.generate();
        client.add_pts(market, user, 200 + i, true);
    }
    let last = client.generate();
    client.add_pts(market, last, 250_u64, true);
    assert_eq!(client.get_player_count(), 50);

    // 120 is below the TRUE min (150) — must be rejected, and the boosted
    // player must remain in the list.
    let newcomer = client.generate();
    client.add_pts(market, newcomer, 120_u64, true);
    assert_eq!(client.get_rank(newcomer), UNRANKED_RANK);
    assert_eq!(client.get_rank(weakest), 50);
}

#[test]
fn test_fifo_evicts_consecutive_oldest_ties_across_slot_reuse() {
    // A and B tie at the min, with A in the lower slot. C ties the min and evicts A. C now occupies A's reused lower slot,
    // yet B is the older SURVIVING tie — so the next tied newcomer D must evict
    // B, not C. Evicting the reused lowest slot again would be lowest-slot
    // eviction, not FIFO.
    let (mut client, _admin, market, _referral) = setup();

    // 48 strictly-higher scorers so the last two slots hold the tied minimum.
    for i in 0u64..48 {
        let user = client.generate();
        client.add_pts(market, user, 1000 + i, true);
    }
    // A is the older tied-at-min player (lower slot), B the newer one.
    let a = client.generate();
    let b = client.generate();
    client.add_pts(market, a, 100_u64, true);
    client.add_pts(market, b, 100_u64, true);
    assert_eq!(client.get_player_count(), 50);
    assert_eq!(client.get_rank(a), 49);
    assert_eq!(client.get_rank(b), 49);

    // C ties the min → evicts the oldest tie (A), even though A held the
    // lowest min slot.
    let c = client.generate();
    client.add_pts(market, c, 100_u64, true);
    assert_eq!(client.get_rank(a), UNRANKED_RANK);
    assert_eq!(client.get_rank(b), 49);
    assert_eq!(client.get_rank(c), 49);

    // D ties the min → B is now the oldest surviving tie (C reused A's slot).
    // D must evict B, NOT C. This is the FIFO-vs-lowest-slot discriminator.
    let d = client.generate();
    client.add_pts(market, d, 100_u64, true);
    assert_eq!(client.get_rank(a), UNRANKED_RANK);
    assert_eq!(client.get_rank(b), UNRANKED_RANK);
    assert_eq!(client.get_rank(c), 49);
    assert_eq!(client.get_rank(d), 49);

    // E ties the min → C is now the oldest survivor (D reused B's slot).
    let e = client.generate();
    client.add_pts(market, e, 100_u64, true);
    assert_eq!(client.get_rank(c), UNRANKED_RANK);
    assert_eq!(client.get_rank(d), 49);
    assert_eq!(client.get_rank(e), 49);
}


#[test]
#[should_panic(expected = "Error(Contract, #3)")]
fn test_reward_rejects_non_market_caller() {
    // Only the market contract may call reward(). A random caller must be
    // rejected with UnauthorizedCaller (#3) — protects token minting.
    let (mut client, _admin, _market, _referral) = setup();
    let rando = client.generate();
    let user = client.generate();
    // tokens=0 so we don't need a token wired; the auth guard must fire first.
    client.reward(rando, user, 30_u64, 0_i128, true);
}

#[test]
#[should_panic(expected = "Error(Contract, #3)")]
fn test_add_bonus_pts_rejects_non_referral_caller() {
    let (mut client, _admin, _market, _referral) = setup();
    let rando = client.generate();
    let user = client.generate();
    client.add_bonus_pts(rando, user, 5_u64);
}

#[test]
fn test_reward_updates_points_and_winloss() {
    // reward() with tokens=0 (no token wired) still updates points + win/loss
    // exactly like add_pts. Proves the points half is independent of minting.
    let (mut client, _admin, market, _referral) = setup();
    let user = client.generate();
    client.reward(market, user, 30_u64, 0_i128, true);
    client.reward(market, user, 10_u64, 0_i128, false);
    let s = client.get_stats(user);
    assert_eq!(s.points, 40);
    assert_eq!(s.won_bets, 1);
    assert_eq!(s.lost_bets, 1);
    assert_eq!(s.total_bets, 2);
}


#[test]
fn test_get_rank_cleans_stale_reverse_lookup() {
    // TTL expiry deletes TopPlayerAt with no hook to clear TopPlayerSlot.
    // get_rank must not trust the orphaned reverse key.
    let (mut client, _admin, market, _referral) = setup();
    let alice = client.generate();
    client.add_pts(market, alice, 100_u64, true);
    assert_eq!(client.get_rank(alice), 1);

    client.lb.top.at.remove(&0);

    // The next ranked read must detect the orphaned reverse key and clear it.
    let _ = client.get_rank(alice);

    assert!(client.lb.top.slot_of.get(&alice).is_none());
}

#[test]
fn test_reconcile_compacts_ttl_holes_and_restores_slots() {
    let (mut client, _admin, market, _referral) = setup();
    let alice = client.generate();
    let bob = client.generate();
    let charlie = client.generate();
    client.add_pts(market, alice, 50_u64, true);
    client.add_pts(market, bob, 100_u64, true);
    client.add_pts(market, charlie, 75_u64, true);
    assert_eq!(client.get_player_count(), 3);

    // Expire the middle forward entry (charlie at slot 1 after sort: bob, charlie, alice).
    client.lb.top.at.remove(&1);

    client.reconcile_top_slots();

    assert_eq!(client.get_player_count(), 2);
    let top = client.get_top_players(0_u32, 20_u32);
    assert_eq!(top.len(), 2);
    assert_eq!(top.get(0).unwrap().address, bob);
    assert_eq!(top.get(1).unwrap().address, alice);
    assert_eq!(client.get_rank(bob), 1);
    assert_eq!(client.get_rank(alice), 2);
}

#[test]
fn test_unranked_sentinel_for_user_not_in_list() {
    let (mut client, _admin, _market, _referral) = setup();
    let stranger = client.generate();
    assert_eq!(client.get_rank(stranger), UNRANKED_RANK);
}

#[test]
fn test_unranked_rank_is_above_every_list_rank() {
    // An unranked player must never sort above (numerically lower than) a real position. The weakest player
    // in a full list holds rank MAX_TOP_PLAYERS, so the sentinel must be
    // strictly greater — never 0.
    let (mut client, _admin, market, _referral) = setup();
    for i in 0..MAX_TOP_PLAYERS {
        let user = client.generate();
        client.add_pts(market, user, 1000 + i as u64, true);
    }
    assert_eq!(client.get_top_player_count(), MAX_TOP_PLAYERS);

    let weakest = client
        .get_top_players((MAX_TOP_PLAYERS - 1), 1)
        .get(0)
        .unwrap()
        .address
        ;
    assert_eq!(client.get_rank(weakest), MAX_TOP_PLAYERS);

    let outside = client.generate();
    let outside_rank = client.get_rank(outside);
    assert_eq!(outside_rank, UNRANKED_RANK);
    assert!(outside_rank > client.get_rank(weakest));
}

#[test]
fn test_upsert_repairs_stale_slot_instead_of_panicking() {
    // A slot whose entry has expired is filled again.
    let (mut client, _admin, market, _referral) = setup();
    let alice = client.generate();
    client.add_pts(market, alice, 100_u64, true);

    client.lb.top.at.remove(&0);

    client.add_pts(market, alice, 25_u64, true);
    assert_eq!(client.get_points(alice), 125);
    assert_eq!(client.get_rank(alice), 1);
    assert_eq!(client.get_player_count(), 1);
}

#[test]
fn test_missing_reverse_lookup_does_not_duplicate_player() {
    // TopPlayerSlot TTL expiry must not append a second TopPlayerAt for the same user.
    let (mut client, _admin, market, _referral) = setup();
    let alice = client.generate();
    let bob = client.generate();
    client.add_pts(market, alice, 80_u64, true);
    client.add_pts(market, bob, 40_u64, true);

    client.lb.top.slot_of.remove(&alice);

    client.add_pts(market, alice, 10_u64, true);
    assert_eq!(client.get_player_count(), 2);
    assert_eq!(client.get_rank(alice), 1);
    let top = client.get_top_players(0_u32, 20_u32);
    assert_eq!(top.len(), 2);
    assert_eq!(top.get(0).unwrap().address, alice);
    assert_eq!(top.get(1).unwrap().address, bob);
}

#[test]
fn test_eviction_clears_reverse_lookup() {
    let (mut client, _admin, market, _referral) = setup();
    let lowest = client.generate();
    client.add_pts(market, lowest, 100_u64, true);
    for i in 1u64..50 {
        let user = client.generate();
        client.add_pts(market, user, 100 + i, true);
    }
    assert_eq!(client.get_rank(lowest), 50);

    let newcomer = client.generate();
    client.add_pts(market, newcomer, 500_u64, true);

    assert_eq!(client.get_rank(newcomer), 1);
    assert!(client.lb.top.slot_of.get(&lowest).is_none());
}


#[test]
fn test_rank_is_none_for_user_not_in_list() {
    let (mut client, _admin, _market, _referral) = setup();
    let stranger = client.generate();
    assert_eq!(client.get_rank(stranger), UNRANKED_RANK);
}

#[test]
fn test_stale_slot_self_heals_after_entry_expired() {
    // The entry in the list expires while the player's slot survives. The next
    // update must put the player back in, once.
    let (mut client, _admin, market, _referral) = setup();
    let user = client.generate();
    client.add_pts(market, user, 100_u64, true);

    client.lb.top.at.remove(&0);

    client.add_pts(market, user, 50_u64, true);
    assert_eq!(client.get_points(user), 150);
    assert_eq!(client.get_rank(user), 1);

    let top = client.get_top_players(0_u32, 20_u32);
    let matches = top.iter().filter(|e| e.address == user).count();
    assert_eq!(matches, 1);
}

#[test]
fn test_eviction_repairs_expired_min_entry() {
    // Fill the board and let the weakest entry's TopPlayerAt "expire" while
    // the MinPoints/MinSlot cache still points at its slot. A new high scorer
    // must trigger reconciliation (repair), not a panic, and must enter #1.
    let (mut client, _admin, market, _referral) = setup();
    let mut weakest = None;
    for i in 0u64..50 {
        let user = client.generate();
        if i == 0 {
            weakest = Some(user);
        }
        client.add_pts(market, user, 100 + i, true);
    }
    assert_eq!(client.get_player_count(), 50);
    let weakest = weakest.unwrap();

    client.lb.top.at.remove(&49);

    let newcomer = client.generate();
    client.add_pts(market, newcomer, 500_u64, true);

    assert_eq!(client.get_player_count(), 50);
    let top = client.get_top_players(0_u32, 20_u32);
    assert_eq!(top.get(0).unwrap().address, newcomer);
    assert_eq!(top.get(0).unwrap().points, 500);
    assert_eq!(client.get_rank(newcomer), 1);
    // The expired player (100) is gone; even though their orphaned
    // TopPlayerSlot survives, get_rank must not report a stale rank.
    assert_eq!(client.get_rank(weakest), UNRANKED_RANK);
    // 101 is the new minimum — the repaired min cache agrees.
    assert_eq!(client.get_min_points(), 101);
}

#[test]
fn test_eviction_clears_reverse_mapping() {
    // Fill the board, then let a newcomer displace the weakest entry. The
    // evicted player's TopPlayerSlot must be removed so get_rank reads the
    // unranked sentinel.
    let (mut client, _admin, market, _referral) = setup();
    let mut weakest = None;
    for i in 0u64..50 {
        let user = client.generate();
        if i == 0 {
            weakest = Some(user);
        }
        client.add_pts(market, user, 100 + i, true);
    }
    let weakest = weakest.unwrap();

    let newcomer = client.generate();
    client.add_pts(market, newcomer, 1000_u64, true);

    // Displaced player: unranked and no lingering reverse mapping.
    assert_eq!(client.get_rank(weakest), UNRANKED_RANK);
    // Displaced player: no rank and no lingering reverse mapping.
    let still_mapped = client.lb.top.slot_of.has(&weakest);
    assert!(!still_mapped);
}

#[test]
fn test_stale_min_rejected_before_eviction() {
    // The min cache must be validated on the eviction path: if the entry it
    // points at has expired, a newcomer must be admitted into the freed slot
    // even when their points are lower than the stale cached minimum.
    let (mut client, _admin, market, _referral) = setup();
    for i in 0u64..50 {
        let user = client.generate();
        client.add_pts(market, user, 100 + i, true);
    }
    client.lb.top.at.remove(&49);

    let newcomer = client.generate();
    client.add_pts(market, newcomer, 50_u64, true);
    assert_eq!(client.get_player_count(), 50);
    let last = client.get_top_players(40_u32, 20_u32);
    assert_eq!(last.get(9).unwrap().points, 50);
}

#[test]
fn test_add_pts_emits_leaderboard_updated() {
    let (mut client, _admin, market, _referral) = setup();
    let user = client.generate();
    client.add_pts(market, user, 100_u64, true);
    let emitted: Vec<&Event> = client
        .effects
        .iter()
        .filter_map(|f| match f {
            Effect::Publish(e) => Some(e),
            _ => None,
        })
        .collect();
    assert!(!emitted.is_empty(), "add_pts emitted no event");
    assert_eq!(emitted.last().unwrap().topic(), "leaderboard_updated");
    assert_eq!(
        **emitted.last().unwrap(),
        Event::Settled { user, points: 100, won_bets: 1, lost_bets: 0 }
    );
}
