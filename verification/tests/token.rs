use pulse_protocol::env::{Address, Bytes32, Env, Ledger};
use pulse_protocol::pulse_token::{
    DataKey, Effect, Event, PULSETokenContract, TokenError, MAX_MINTERS, TTL_BUMP, TTL_HIGH,
};

const ADMIN: Address = Address::Account(Bytes32 { hi: 1, lo: 1 });
const MINTER: Address = Address::Contract(Bytes32 { hi: 1, lo: 2 });

fn user(n: u128) -> Address {
    Address::Account(Bytes32 { hi: 0, lo: n })
}

fn at(sequence: u32) -> Env<Effect> {
    Env::new(Ledger {
        sequence,
        timestamp: 0,
        contract: Address::Contract(Bytes32 { hi: 0, lo: 0 }),
    })
}

fn bump(key: DataKey) -> Effect {
    Effect::ExtendTtl { key, threshold: TTL_BUMP, extend_to: TTL_HIGH }
}

fn token() -> PULSETokenContract {
    let mut t = PULSETokenContract::new();
    t.initialize(&mut at(0), ADMIN, b"Pulse".to_vec(), b"PLS".to_vec(), 5).unwrap();
    t.set_minter(&mut at(0), MINTER).unwrap();
    t
}

#[test]
fn token_error_numbers() {
    let all = [
        TokenError::AlreadyInitialized,
        TokenError::NotInitialized,
        TokenError::UnauthorizedMinter,
        TokenError::InsufficientBalance,
        TokenError::InvalidAmount,
        TokenError::NotAdmin,
        TokenError::InsufficientAllowance,
        TokenError::InvalidExpirationLedger,
        TokenError::Paused,
        TokenError::AlreadyMinter,
        TokenError::NotMinter,
        TokenError::MinterListFull,
    ];
    for (i, e) in all.iter().enumerate() {
        assert_eq!(e.code(), i as u32 + 1);
    }
}

#[test]
fn a_token_is_set_up_once() {
    let mut t = PULSETokenContract::new();
    assert_eq!(t.name(), b"PULSE".to_vec());
    assert_eq!(t.symbol(), b"PLSE".to_vec());
    assert_eq!(t.decimals(), 7);
    assert_eq!(t.pause(&mut at(0), ADMIN), Err(TokenError::NotInitialized));
    assert_eq!(t.set_minter(&mut at(0), MINTER), Err(TokenError::NotInitialized));

    let mut env = at(0);
    t.initialize(&mut env, ADMIN, b"Pulse".to_vec(), b"PLS".to_vec(), 5).unwrap();
    assert_eq!(
        env.effects,
        vec![
            Effect::RequireAuth(ADMIN),
            Effect::Publish(Event::Initialized {
                admin: ADMIN,
                name: b"Pulse".to_vec(),
                symbol: b"PLS".to_vec(),
                decimals: 5,
            }),
        ]
    );
    assert_eq!(t.name(), b"Pulse".to_vec());
    assert_eq!(t.symbol(), b"PLS".to_vec());
    assert_eq!(t.decimals(), 5);
    assert_eq!(t.total_supply(), 0);
    assert_eq!(
        t.initialize(&mut at(0), user(1), b"X".to_vec(), b"X".to_vec(), 1),
        Err(TokenError::AlreadyInitialized)
    );
    assert_eq!(PULSETokenContract::interface_version(), 1);
}

#[test]
fn only_the_admin_upgrades_and_pauses() {
    let mut t = token();
    let hash = Bytes32 { hi: 7, lo: 8 };
    let mut env = at(0);
    assert_eq!(t.upgrade(&mut env, ADMIN, hash), Ok(()));
    assert_eq!(env.effects, vec![Effect::RequireAuth(ADMIN), Effect::UpdateWasm(hash)]);
    assert_eq!(t.upgrade(&mut at(0), MINTER, hash), Err(TokenError::NotAdmin));
    assert_eq!(t.pause(&mut at(0), MINTER), Err(TokenError::NotAdmin));
    assert_eq!(t.unpause(&mut at(0), MINTER), Err(TokenError::NotAdmin));
    assert_eq!(t.set_paused(&mut at(0), MINTER, true), Err(TokenError::NotAdmin));
    assert!(!t.paused());

    let mut env = at(0);
    t.pause(&mut env, ADMIN).unwrap();
    assert_eq!(
        env.effects,
        vec![Effect::RequireAuth(ADMIN), Effect::Publish(Event::Paused { admin: ADMIN })]
    );
    assert!(t.is_paused());
    let mut env = at(0);
    t.unpause(&mut env, ADMIN).unwrap();
    assert_eq!(
        env.effects,
        vec![Effect::RequireAuth(ADMIN), Effect::Publish(Event::Unpaused { admin: ADMIN })]
    );
    let mut env = at(0);
    t.set_paused(&mut env, ADMIN, true).unwrap();
    assert_eq!(env.effects, vec![Effect::RequireAuth(ADMIN)]);
    assert!(t.is_paused() && t.paused());
}

#[test]
fn minting_needs_a_minter() {
    let mut t = token();
    let mut env = at(0);
    assert_eq!(t.mint(&mut env, MINTER, user(1), 100), Ok(()));
    assert_eq!(
        env.effects,
        vec![
            Effect::RequireAuth(MINTER),
            bump(DataKey::Balance(user(1))),
            Effect::Publish(Event::Mint { minter: MINTER, to: user(1), amount: 100 }),
        ]
    );
    assert_eq!(t.balance(user(1)), 100);
    assert_eq!(t.total_supply(), 100);
    assert_eq!(t.mint(&mut at(0), user(1), user(1), 5), Err(TokenError::UnauthorizedMinter));
    assert_eq!(t.mint(&mut at(0), MINTER, user(1), 0), Err(TokenError::InvalidAmount));
    assert_eq!(t.mint(&mut at(0), MINTER, user(1), -1), Err(TokenError::InvalidAmount));
    assert_eq!(t.total_supply(), 100);
}

#[test]
fn minters_are_listed_while_they_may_mint() {
    let mut t = token();
    assert_eq!(t.get_authorized_minters(), vec![MINTER]);
    assert_eq!(t.set_minter(&mut at(0), MINTER), Err(TokenError::AlreadyMinter));
    let mut env = at(0);
    t.set_minter(&mut env, user(5)).unwrap();
    assert_eq!(
        env.effects,
        vec![
            Effect::RequireAuth(ADMIN),
            bump(DataKey::MinterIndex(user(5))),
            Effect::Publish(Event::MinterAdded { minter: user(5) }),
        ]
    );
    assert_eq!(t.get_authorized_minters(), vec![MINTER, user(5)]);
    t.remove_minter(&mut at(0), MINTER).unwrap();
    assert_eq!(t.remove_minter(&mut at(0), MINTER), Err(TokenError::NotMinter));
    assert_eq!(t.get_authorized_minters(), vec![user(5)]);
    assert_eq!(t.mint(&mut at(0), MINTER, user(1), 5), Err(TokenError::UnauthorizedMinter));
}

#[test]
fn the_list_of_minters_is_bounded() {
    let mut t = token();
    for n in 1..MAX_MINTERS {
        t.set_minter(&mut at(0), user(n as u128)).unwrap();
    }
    assert_eq!(t.set_minter(&mut at(0), user(99)), Err(TokenError::MinterListFull));
    assert_eq!(t.mint(&mut at(0), user(99), user(1), 5), Err(TokenError::UnauthorizedMinter));
    assert_eq!(t.get_authorized_minters().len(), 10);
}

#[test]
fn a_transfer_conserves() {
    let mut t = token();
    t.mint(&mut at(0), MINTER, user(1), 100).unwrap();
    let mut env = at(0);
    assert_eq!(t.transfer(&mut env, user(1), user(2), 30), Ok(()));
    assert_eq!(
        env.effects,
        vec![
            Effect::RequireAuth(user(1)),
            bump(DataKey::Balance(user(1))),
            bump(DataKey::Balance(user(2))),
            Effect::Publish(Event::Transfer { from: user(1), to: user(2), amount: 30 }),
        ]
    );
    assert_eq!((t.balance(user(1)), t.balance(user(2))), (70, 30));
    assert_eq!(t.transfer(&mut at(0), user(1), user(1), 70), Ok(()));
    assert_eq!(t.balance(user(1)), 70);
    assert_eq!(t.transfer(&mut at(0), user(1), user(2), 71), Err(TokenError::InsufficientBalance));
    assert_eq!(t.transfer(&mut at(0), user(1), user(2), 0), Err(TokenError::InvalidAmount));
    assert_eq!(t.total_supply(), 100);
}

#[test]
fn a_pause_halts_the_supply_only() {
    let mut t = token();
    t.mint(&mut at(0), MINTER, user(1), 100).unwrap();
    t.pause(&mut at(0), ADMIN).unwrap();
    assert_eq!(t.mint(&mut at(0), MINTER, user(1), 1), Err(TokenError::Paused));
    assert_eq!(t.burn(&mut at(0), user(1), 1), Err(TokenError::Paused));
    assert_eq!(t.transfer(&mut at(0), user(1), user(2), 40), Ok(()));
    t.approve(&mut at(0), user(1), user(3), 10, 5).unwrap();
    assert_eq!(t.transfer_from(&mut at(0), user(3), user(1), user(2), 10), Ok(()));
    assert_eq!((t.balance(user(1)), t.balance(user(2))), (50, 50));
}

#[test]
fn an_allowance_is_spent_and_expires() {
    let mut t = token();
    t.mint(&mut at(0), MINTER, user(1), 100).unwrap();
    let mut env = at(10);
    t.approve(&mut env, user(1), user(3), 60, 25).unwrap();
    assert_eq!(
        env.effects,
        vec![
            Effect::RequireAuth(user(1)),
            Effect::ExtendTtl {
                key: DataKey::Allowance(user(1), user(3)),
                threshold: 15,
                extend_to: 15,
            },
        ]
    );
    assert_eq!(t.allowance(&at(25), user(1), user(3)), 60);
    assert_eq!(t.allowance(&at(26), user(1), user(3)), 0);
    assert_eq!(t.allowance(&at(10), user(3), user(1)), 0);

    assert_eq!(t.transfer_from(&mut at(11), user(3), user(1), user(2), 20), Ok(()));
    assert_eq!(t.allowance(&at(25), user(1), user(3)), 40);
    assert_eq!(t.allowance(&at(26), user(1), user(3)), 0);
    assert_eq!(
        t.transfer_from(&mut at(11), user(3), user(1), user(2), 41),
        Err(TokenError::InsufficientAllowance)
    );
    assert_eq!(
        t.transfer_from(&mut at(26), user(3), user(1), user(2), 1),
        Err(TokenError::InsufficientAllowance)
    );
    assert_eq!(
        t.transfer_from(&mut at(11), user(3), user(1), user(2), 0),
        Err(TokenError::InvalidAmount)
    );
    assert_eq!(t.transfer_from(&mut at(11), user(3), user(1), user(2), 40), Ok(()));
    assert_eq!(t.allowance(&at(11), user(1), user(3)), 0);
    assert_eq!((t.balance(user(1)), t.balance(user(2))), (40, 60));

    t.approve(&mut at(11), user(1), user(3), 500, 25).unwrap();
    assert_eq!(
        t.transfer_from(&mut at(11), user(3), user(1), user(2), 41),
        Err(TokenError::InsufficientBalance)
    );
    assert_eq!(t.allowance(&at(11), user(1), user(3)), 500);
    t.approve(&mut at(11), user(1), user(3), 0, 0).unwrap();
    assert_eq!(t.allowance(&at(11), user(1), user(3)), 0);
    assert_eq!(t.approve(&mut at(11), user(1), user(3), -1, 25), Err(TokenError::InvalidAmount));
    assert_eq!(
        t.approve(&mut at(11), user(1), user(3), 1, 10),
        Err(TokenError::InvalidExpirationLedger)
    );
}

#[test]
fn burning_takes_from_the_supply() {
    let mut t = token();
    t.mint(&mut at(0), MINTER, user(1), 100).unwrap();
    let mut env = at(0);
    assert_eq!(t.burn(&mut env, user(1), 30), Ok(()));
    assert_eq!(
        env.effects,
        vec![
            Effect::RequireAuth(user(1)),
            bump(DataKey::Balance(user(1))),
            Effect::Publish(Event::Burn { from: user(1), amount: 30 }),
        ]
    );
    assert_eq!((t.balance(user(1)), t.total_supply()), (70, 70));
    assert_eq!(t.burn(&mut at(0), user(1), 71), Err(TokenError::InsufficientBalance));
    assert_eq!(t.burn(&mut at(0), user(1), 0), Err(TokenError::InvalidAmount));
}

#[test]
fn token_event_names() {
    let mint = Event::Mint { minter: MINTER, to: user(1), amount: 1 };
    assert_eq!(mint.topic(), "mint");
    assert_eq!(Event::Transfer { from: user(1), to: user(2), amount: 1 }.topic(), "transfer");
    assert_eq!(Event::Burn { from: user(1), amount: 1 }.topic(), "burn");
    assert_eq!(Event::Paused { admin: ADMIN }.topic(), "paused");
    assert_eq!(Event::Unpaused { admin: ADMIN }.topic(), "unpaused");
    assert_eq!(Event::MinterAdded { minter: MINTER }.topic(), "minter_added");
}
