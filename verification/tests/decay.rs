use pulse_protocol::env::{Address, Bytes32, Env, Ledger};
use pulse_protocol::leaderboard::{
    Effect, LeaderboardContract, LeaderboardError, PlayerEntry, PlayerStats,
    DECAY_PERIOD_LEDGERS, DECAY_ZERO_AFTER_PERIODS, MAX_TOP_PLAYERS, UNRANKED_RANK,
};

/// The contract with the ledger it runs in. A call that returns an error panics with
/// the error's number.
struct Client {
    ledger: Ledger,
    lb: LeaderboardContract,
    effects: Vec<Effect>,
    addresses: u128,
}

fn done<T>(r: Result<T, LeaderboardError>) -> T {
    match r {
        Ok(v) => v,
        Err(e) => panic!("Error(Contract, #{})", e.code()),
    }
}

impl Client {
    fn generate(&mut self) -> Address {
        self.addresses += 1;
        Address::Account(Bytes32 { hi: 0, lo: self.addresses })
    }

    fn env(&self) -> Env<Effect> {
        Env::new(self.ledger)
    }

    fn initialize(&mut self, admin: Address, market: Address, referral: Address) {
        let mut env = self.env();
        done(self.lb.initialize(&mut env, admin, market, referral));
        self.effects = env.effects;
    }

    fn advance_periods(&mut self, periods: u32) {
        self.ledger.sequence += periods * DECAY_PERIOD_LEDGERS;
    }

    fn add_pts(&mut self, caller: Address, user: Address, pts: u64, is_won: bool) {
        let mut env = self.env();
        done(self.lb.add_pts(&mut env, caller, user, pts, is_won));
        self.effects = env.effects;
    }

    fn get_points(&self, user: Address) -> u64 {
        self.lb.get_points(&self.env(), user)
    }

    fn get_stats(&self, user: Address) -> PlayerStats {
        self.lb.get_stats(&self.env(), user)
    }

    fn get_top_players(&self, offset: u32, page_size: u32) -> Vec<PlayerEntry> {
        self.lb.get_top_players(&self.env(), offset, page_size)
    }

    fn get_top_player_count(&self) -> u32 {
        self.lb.get_top_player_count()
    }

    fn get_rank(&mut self, user: Address) -> u32 {
        let mut env = self.env();
        self.lb.get_rank(&mut env, user)
    }

    fn get_min_points(&self) -> u64 {
        self.lb.get_min_points(&self.env())
    }
}

fn setup() -> (Client, Address, Address, Address) {
    let mut client = Client {
        ledger: Ledger {
            sequence: 0,
            timestamp: 0,
            contract: Address::Contract(Bytes32 { hi: 0, lo: 0 }),
        },
        lb: LeaderboardContract::new(),
        effects: Vec::new(),
        addresses: 0,
    };
    let admin = client.generate();
    let market = client.generate();
    let referral = client.generate();
    client.initialize(admin, market, referral);
    (client, admin, market, referral)
}


#[test]
fn test_idle_leader_is_overtaken_by_a_newer_player_who_earned_far_less() {
    // Alice banks 10,000 points and stops playing. Forty weeks later Bob
    // shows up and earns 500 — one twentieth of Alice's total, and he never
    // comes close to out-earning her in absolute terms.
    //
    // Alice's score has decayed past his, and the ranking flips.
    let (mut client, _admin, market, _referral) = setup();
    let alice = client.generate();
    let bob = client.generate();

    client.add_pts(market, alice, 10_000_u64, true);
    assert_eq!(client.get_rank(alice), 1);

    client.advance_periods(40);

    client.add_pts(market, bob, 500_u64, true);

    let alice_now = client.get_points(alice);
    let bob_now = client.get_points(bob);
    assert!(
        alice_now < bob_now,
        "an idle 10,000-point leader ({alice_now}) must fall behind an active \
         500-point newcomer ({bob_now}) after 40 weeks"
    );
    assert_eq!(client.get_rank(bob), 1, "the newcomer should now lead");
    assert_eq!(client.get_rank(alice), 2);

    // And Bob genuinely never out-earned her: 500 lifetime versus 10,000.
    assert!(bob_now < 10_000);
}


#[test]
fn test_frequent_small_writes_do_not_reset_the_decay_clock() {
    // The obvious way to break a decay model is a per-player "last touched"
    // stamp: transact just often enough and your score never ages. The epoch
    // here is global and not the player's to reset, so a player who writes
    // inside every period decays exactly as much as one who never writes.
    let (mut client, _admin, market, _referral) = setup();
    let grinder = client.generate();
    let idler = client.generate();

    client.add_pts(market, grinder, 10_000_u64, true);
    client.add_pts(market, idler, 10_000_u64, true);

    // The grinder touches their entry 20 times over 20 periods, adding a
    // token amount each time; the idler does nothing.
    let mut grinder_added: u64 = 0;
    for _ in 0..20 {
        client.advance_periods(1);
        client.add_pts(market, grinder, 1_u64, true);
        grinder_added += 1;
    }

    let grinder_now = client.get_points(grinder);
    let idler_now = client.get_points(idler);

    // Both started at 10,000 and both aged 20 periods. The grinder is ahead
    // only by roughly what he actually contributed — not by a frozen score.
    assert!(
        grinder_now < 10_000,
        "writing every period must not freeze a score ({grinder_now})"
    );
    assert!(
        grinder_now - idler_now <= grinder_added,
        "the grinder's advantage ({} over {idler_now}) must not exceed what \
         he actually earned ({grinder_added})",
        grinder_now
    );
}


#[test]
fn test_points_do_not_decay_within_a_single_period() {
    // Decay is quantised: nothing moves until a period boundary is crossed,
    // so a score is stable across a normal play session.
    let (mut client, _admin, market, _referral) = setup();
    let user = client.generate();
    client.add_pts(market, user, 1_000_u64, true);

    client.ledger.sequence += DECAY_PERIOD_LEDGERS - 1;

    assert_eq!(client.get_points(user), 1_000);
}

#[test]
fn test_one_period_decays_by_the_documented_rate() {
    let (mut client, _admin, market, _referral) = setup();
    let user = client.generate();
    client.add_pts(market, user, 1_000_u64, true);

    client.advance_periods(1);

    // 9/10 of 1000.
    assert_eq!(client.get_points(user), 900);
}

#[test]
fn test_decay_accumulates_across_periods() {
    let (mut client, _admin, market, _referral) = setup();
    let user = client.generate();
    client.add_pts(market, user, 1_000_u64, true);

    client.advance_periods(3);

    // 1000 -> 900 -> 810 -> 729, flooring at each step.
    assert_eq!(client.get_points(user), 729);
}

#[test]
fn test_a_small_score_decays_away_entirely() {
    // Integer flooring means low scores reach zero quickly rather than
    // lingering as a fractional residue forever.
    let (mut client, _admin, market, _referral) = setup();
    let user = client.generate();
    client.add_pts(market, user, 5_u64, true);

    client.advance_periods(12);

    assert_eq!(client.get_points(user), 0);
}

#[test]
fn test_score_floors_to_zero_once_fully_stale() {
    // At DECAY_ZERO_AFTER_PERIODS a score is written off rather than left as
    // a rounding artefact.
    let (mut client, _admin, market, _referral) = setup();
    let user = client.generate();
    client.add_pts(market, user, 1_000_000_u64, true);

    client.advance_periods(DECAY_ZERO_AFTER_PERIODS);

    assert_eq!(client.get_points(user), 0);
}

#[test]
fn test_accrual_builds_on_the_decayed_value_not_the_original() {
    // A returning player resumes from what their score has become, not from
    // where they left it.
    let (mut client, _admin, market, _referral) = setup();
    let user = client.generate();
    client.add_pts(market, user, 1_000_u64, true);

    client.advance_periods(1); // 1000 -> 900
    client.add_pts(market, user, 100_u64, true);

    assert_eq!(client.get_points(user), 1_000);
}

#[test]
fn test_activity_counters_are_lifetime_totals_and_never_decay() {
    // Decay is about ranking freshness, not rewriting a player's record.
    let (mut client, _admin, market, _referral) = setup();
    let user = client.generate();
    client.add_pts(market, user, 500_u64, true);
    client.add_pts(market, user, 500_u64, false);

    client.advance_periods(30);

    let stats = client.get_stats(user);
    assert_eq!(stats.won_bets, 1);
    assert_eq!(stats.lost_bets, 1);
    assert_eq!(stats.total_bets, 2);
    assert!(stats.points < 1_000, "points should have decayed");
}


#[test]
fn test_top_list_reports_a_descending_order_after_decay() {
    let (mut client, _admin, market, _referral) = setup();
    for i in 0..10u64 {
        let user = client.generate();
        client.add_pts(market, user, 1_000 + i * 100, true);
    }

    client.advance_periods(5);
    let top = client.get_top_players(0_u32, 20_u32);
    let mut previous = u64::MAX;
    for entry in top.iter() {
        assert!(
            entry.points <= previous,
            "top list lost its descending order once decay was applied"
        );
        previous = entry.points;
    }
}

#[test]
fn test_views_reflect_decay_with_no_intervening_write() {
    // Decay is never written into storage by a background pass, so between a
    // player's last write and now, storage still holds their pre-decay score.
    // A view must not report that stale value.
    let (mut client, _admin, market, _referral) = setup();
    let user = client.generate();
    client.add_pts(market, user, 1_000_u64, true);

    client.advance_periods(2); // nothing writes in between

    assert_eq!(client.get_points(user), 810);
    let top = client.get_top_players(0_u32, 10_u32);
    assert_eq!(top.get(0).unwrap().points, 810);
}

#[test]
fn test_a_newcomer_enters_on_a_score_the_old_model_would_have_rejected() {
    // The list is full of scores 100..=149. After five periods the weakest is worth
    // 57, while 100 is still stored for it: scores are decayed when they are
    // compared. The newcomer has 70, more than the weakest is worth and less than
    // what is stored, and gets in.
    let (mut client, _admin, market, _referral) = setup();

    let weakest = client.generate();
    client.add_pts(market, weakest, 100_u64, true);
    for i in 1..MAX_TOP_PLAYERS as u64 {
        let user = client.generate();
        client.add_pts(market, user, 100 + i, true);
    }
    assert_eq!(client.get_top_player_count(), MAX_TOP_PLAYERS);
    assert_eq!(client.get_min_points(), 100);

    client.advance_periods(5);

    // 100 -> 90 -> 81 -> 72 -> 64 -> 57, flooring at each step.
    assert_eq!(client.get_min_points(), 57);

    let newcomer = client.generate();
    client.add_pts(market, newcomer, 70_u64, true);

    assert_ne!(
        client.get_rank(newcomer),
        0,
        "a score of 70 must displace an incumbent now worth 57, even though \
         that incumbent still has 100 in storage"
    );
    assert_eq!(
        client.get_rank(weakest),
        UNRANKED_RANK,
        "the decayed weakest entry should have been evicted"
    );
    assert_eq!(client.get_top_player_count(), MAX_TOP_PLAYERS);
}

#[test]
fn test_a_player_who_keeps_playing_holds_their_rank() {
    // The flip side of the headline: decay must not punish activity. A player
    // who keeps earning stays ahead of one who stopped.
    let (mut client, _admin, market, _referral) = setup();
    let active = client.generate();
    let quitter = client.generate();

    client.add_pts(market, active, 1_000_u64, true);
    client.add_pts(market, quitter, 1_000_u64, true);

    for _ in 0..10 {
        client.advance_periods(1);
        client.add_pts(market, active, 200_u64, true);
    }

    assert!(client.get_points(active) > client.get_points(quitter));
    assert_eq!(client.get_rank(active), 1);
}
