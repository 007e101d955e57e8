use pulse_protocol::env::{Address, Bytes32, Env, Ledger};
use pulse_protocol::referral_registry::{DataKey, Effect, Event, ReferralContract, ReferralError};

fn addr(n: u128) -> Address {
    Address::Account(Bytes32 { hi: 0, lo: n })
}

fn create_env() -> Env<Effect> {
    Env::new(Ledger {
        sequence: 0,
        timestamp: 0,
        contract: Address::Contract(Bytes32 { hi: 0, lo: 0 }),
    })
}

fn setup() -> (Env<Effect>, ReferralContract, Address) {
    let mut env = create_env();
    let mut contract = ReferralContract::new();
    contract.initialize(&mut env, addr(1)).unwrap();
    (create_env(), contract, addr(2))
}

/// More than the longest name costs.
const RICH: u64 = 1_000_000;

#[test]
fn test_empty_display_name_rejected() {
    let (mut env, mut contract, caller) = setup();
    let result = contract.register_referral(&mut env, caller, Vec::new(), RICH);
    assert!(result.is_err());
    assert_eq!(result.unwrap_err(), ReferralError::InvalidDisplayName);
}

#[test]
fn test_exact_64_char_display_name_success() {
    let (mut env, mut contract, caller) = setup();
    let name: Vec<u8> = vec![b'a'; 64];
    let result = contract.register_referral(&mut env, caller, name.clone(), RICH);
    assert!(result.is_ok(), "64-char name should be accepted");
    assert_eq!(contract.get_display_name(caller), Some(&name));
}

#[test]
fn test_display_name_exceeds_64_rejected() {
    let (mut env, mut contract, caller) = setup();
    let name: Vec<u8> = vec![b'a'; 65];
    let result = contract.register_referral(&mut env, caller, name, RICH);
    assert!(result.is_err());
    assert_eq!(result.unwrap_err(), ReferralError::NameTooLong);
    assert_eq!(contract.get_display_name(caller), None);
}

#[test]
fn test_multibyte_unicode_display_name() {
    let (mut env, mut contract, caller) = setup();
    let name = "日本語テスト";
    let byte_len = name.as_bytes().len();
    assert!(byte_len <= 64, "Test setup: name byte length {} exceeds 64", byte_len);
    let result = contract.register_referral(&mut env, caller, name.as_bytes().to_vec(), RICH);
    assert!(result.is_ok(), "Multibyte name should be accepted if within 64 bytes");
    assert_eq!(contract.get_display_name(caller), Some(&name.as_bytes().to_vec()));
}

#[test]
fn test_storage_fee_transfer() {
    let (mut env, mut contract, caller) = setup();
    let name = "test_fee";
    let name_len = name.as_bytes().len();
    let storage_fee = name_len as u64 * 1000;

    let balance = 2 * storage_fee;
    let result = contract.register_referral(&mut env, caller, name.as_bytes().to_vec(), balance);
    assert!(result.is_ok(), "Register should succeed with sufficient fee, got: {:?}", result);

    let expected_remaining = storage_fee;
    assert_eq!(
        env.effects,
        vec![
            Effect::RequireAuth(caller),
            Effect::ExtendTtl {
                key: DataKey::Profile(caller),
                threshold: 3_153_600,
                extend_to: 6_307_200,
            },
            Effect::BankTransfer { to: caller, amount: expected_remaining },
            Effect::Publish(Event::ReferralRegistered {
                caller,
                display_name: name.as_bytes().to_vec(),
            }),
        ]
    );
}

#[test]
fn test_insufficient_fee_rejected() {
    let (mut env, mut contract, caller) = setup();
    let name = "test";
    let name_len = name.as_bytes().len();
    let storage_fee = name_len as u64 * 1000;

    let result =
        contract.register_referral(&mut env, caller, name.as_bytes().to_vec(), storage_fee - 1);
    assert!(result.is_err(), "Should fail with insufficient fee, got: {:?}", result);
    assert_eq!(result.unwrap_err(), ReferralError::InsufficientFee);

    let result = contract.register_referral(&mut env, caller, name.as_bytes().to_vec(), 0);
    assert_eq!(result.unwrap_err(), ReferralError::InsufficientFee);

    let result = contract.register_referral(&mut env, caller, name.as_bytes().to_vec(), storage_fee);
    assert!(result.is_ok());
}

#[test]
fn test_invalid_display_name_enum_order() {
    let invalid = ReferralError::InvalidDisplayName.code();
    let incompatible = ReferralError::IncompatibleInterface.code();
    let nametoo_long = ReferralError::NameTooLong.code();
    let insufficient = ReferralError::InsufficientFee.code();

    assert_eq!(invalid, 10);
    assert_eq!(incompatible, 11);
    assert_eq!(nametoo_long, 12);
    assert_eq!(insufficient, 13);
}

#[test]
fn registry_is_set_up_once_and_before_use() {
    let mut env = create_env();
    let mut contract = ReferralContract::new();
    assert!(!contract.is_initialized());
    let early = contract.register_referral(&mut env, addr(2), b"ann".to_vec(), RICH);
    assert_eq!(early, Err(ReferralError::NotInitialized));
    assert_eq!(env.effects, vec![Effect::RequireAuth(addr(2))]);

    let mut env = create_env();
    assert_eq!(contract.initialize(&mut env, addr(1)), Ok(()));
    assert_eq!(
        env.effects,
        vec![
            Effect::RequireAuth(addr(1)),
            Effect::ExtendInstanceTtl { threshold: 3_153_600, extend_to: 6_307_200 },
        ]
    );
    assert!(contract.is_initialized());

    let mut env = create_env();
    assert_eq!(contract.initialize(&mut env, addr(3)), Err(ReferralError::AlreadyInitialized));
    assert!(env.effects.is_empty());
    assert_eq!(ReferralError::AlreadyInitialized.code(), 1);
    assert_eq!(ReferralError::NotInitialized.code(), 2);
    assert_eq!(ReferralError::UnauthorizedCaller.code(), 3);
}

#[test]
fn a_name_reads_back_and_touches_no_other() {
    let (mut env, mut contract, caller) = setup();
    contract.register_referral(&mut env, caller, b"ann".to_vec(), RICH).unwrap();
    contract.register_referral(&mut env, addr(3), b"bob".to_vec(), RICH).unwrap();
    contract.register_referral(&mut env, caller, b"anna".to_vec(), RICH).unwrap();
    assert_eq!(contract.get_display_name(caller), Some(&b"anna".to_vec()));
    assert_eq!(contract.get_display_name(addr(3)), Some(&b"bob".to_vec()));
    assert_eq!(contract.get_display_name(addr(4)), None);
}
