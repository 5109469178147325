//! Tests of the dispatched operations against a freshly built state.

use peaq_pallet_mor::account::Identity;
use peaq_pallet_mor::error::{DidError, Error, MorError};
use peaq_pallet_mor::pallet::{Event, GenesisConfig, Origin, Pallet};
use peaq_pallet_mor::types::MorConfig;

const ED: u128 = 500;
const REG_FEE: u128 = 100_000_000_000_000_000;

fn acct(tag: u8) -> Identity {
    Identity { bytes: [tag; 32] }
}

fn owner_key() -> Identity {
    acct(1)
}

fn user_key() -> Identity {
    acct(2)
}

fn machine_key() -> Identity {
    acct(3)
}

fn pot_key() -> Identity {
    let mut bytes = [0u8; 32];
    bytes[..4].copy_from_slice(b"modl");
    bytes[4..12].copy_from_slice(b"PotMchOw");
    Identity { bytes }
}

fn def_config(
    registration_reward: u128,
    machine_usage_fee_min: u128,
    machine_usage_fee_max: u128,
    track_n_block_rewards: u8,
) -> MorConfig {
    MorConfig {
        registration_reward,
        machine_usage_fee_min,
        machine_usage_fee_max,
        track_n_block_rewards,
    }
}

fn new_test_ext() -> Pallet {
    let genesis = GenesisConfig {
        mor_config: def_config(REG_FEE, 100_000_000_000_000_000, 3_000_000_000_000_000_000, 10),
    };
    let mut pallet = genesis.build(pot_key(), ED);
    pallet.bank.mint(&owner_key(), 10_000_000_000_000_000_000);
    pallet.bank.mint(&user_key(), 10_000_000_000_000_000_000);
    pallet.bank.mint(&machine_key(), 1_000_000_000_000_000_000);
    pallet.bank.mint(&pot_key(), 10_000_000_000_000_000_000);
    pallet
}

/// The oracle's verdict for a pair it has no record of.
fn did_unknown() -> Result<(), DidError> {
    Err(DidError::AuthorizationFailed)
}

/// The oracle's verdict once the owner registered the machine with it.
fn did_confirmed() -> Result<(), DidError> {
    Ok(())
}

#[test]
fn register_new_machine_test() {
    let mut pallet = new_test_ext();
    let owner = owner_key();
    let machine = machine_key();

    // Try to register a machine the identity oracle knows nothing about.
    // Expect error DidAuthorizationFailed.
    assert_eq!(
        pallet.get_registration_reward(&Origin::Signed(owner), &machine, did_unknown()),
        Err(Error::Mor(MorError::DidAuthorizationFailed))
    );

    // Once the oracle confirms the pair, registration succeeds.
    assert!(
        pallet
            .get_registration_reward(&Origin::Signed(owner), &machine, did_confirmed())
            .is_ok()
    );
}

#[test]
fn get_online_rewards_test() {
    let mut pallet = new_test_ext();
    let owner = owner_key();
    let machine = machine_key();

    // Try to collect rewards while the oracle knows nothing.
    // Expect error DidAuthorizationFailed.
    assert_eq!(
        pallet.get_online_rewards(&Origin::Signed(owner), &machine, did_unknown()),
        Err(Error::Mor(MorError::DidAuthorizationFailed))
    );

    // With the oracle confirming but no registration here yet.
    // Expect error MachineNotRegistered.
    assert_eq!(
        pallet.get_online_rewards(&Origin::Signed(owner), &machine, did_confirmed()),
        Err(Error::Mor(MorError::MachineNotRegistered))
    );

    // Now register the machine here too.
    assert!(
        pallet
            .get_registration_reward(&Origin::Signed(owner), &machine, did_confirmed())
            .is_ok()
    );

    // Now get the online rewards. Expect no error.
    assert!(
        pallet
            .get_online_rewards(&Origin::Signed(owner), &machine, did_confirmed())
            .is_ok()
    );
}

#[test]
fn pay_machine_usage_test() {
    let mut pallet = new_test_ext();
    let muser = user_key();
    let machine = machine_key();
    let amount: u128 = 500_000_000_000_000_000;
    let amount_oor: u128 = 5_000_000_000_000_000_000;

    // Try to pay for machine usage. Expect no error.
    assert!(
        pallet
            .pay_machine_usage(&Origin::Signed(muser), &machine, amount)
            .is_ok()
    );

    // Try to pay out of range. Expect error MachinePaymentOutOfRange.
    assert_eq!(
        pallet.pay_machine_usage(&Origin::Signed(muser), &machine, amount_oor),
        Err(Error::Mor(MorError::MachinePaymentOutOfRange))
    );
}

#[test]
fn set_configuration_test() {
    let mut pallet = new_test_ext();
    let b_low: u128 = 100_000_000_000_000;
    let b_med: u128 = 500_000_000_000_000;
    let b_max: u128 = 2_500_000_000_000_000;

    // Try to set an invalid configuration (range of balances).
    // Expect error MorConfigIsNotConsistent.
    let config = def_config(b_low, b_med, b_med, 50);
    assert_eq!(
        pallet.set_configuration(&Origin::Root, config),
        Err(Error::Mor(MorError::MorConfigIsNotConsistent))
    );

    // Try to set an invalid configuration (number of blocks).
    // Expect error MorConfigIsNotConsistent.
    let config = def_config(b_low, b_med, b_med, 0);
    assert_eq!(
        pallet.set_configuration(&Origin::Root, config),
        Err(Error::Mor(MorError::MorConfigIsNotConsistent))
    );

    // Set a valid configuration. Expect no error.
    let config = def_config(b_low, b_med, b_max, 50);
    assert!(pallet.set_configuration(&Origin::Root, config).is_ok());
}

#[test]
fn fetch_pot_balance_test() {
    let pallet = new_test_ext();
    let muser = user_key();

    // Try to fetch the pot balance as a regular user. Expect BadOrigin.
    assert_eq!(
        pallet.fetch_pot_balance(&Origin::Signed(muser)),
        Err(Error::BadOrigin)
    );

    // Fetch the current pot balance as root. Expect no error.
    assert!(pallet.fetch_pot_balance(&Origin::Root).is_ok());
}

#[test]
fn log_block_rewards_test() {
    let mut pallet = new_test_ext();
    let balance: u128 = 100_000_000_000_000_000;
    // Log a new block reward in the genesis configuration. Expect no panic.
    pallet.log_block_rewards(balance);
}

#[test]
fn registration_reward_amount_and_event() {
    let mut pallet = new_test_ext();
    let owner = owner_key();
    let machine = machine_key();
    let before = pallet.bank.free_balance(&owner);
    let issued_before = pallet.bank.total_issuance;

    let res = pallet.get_registration_reward(&Origin::Signed(owner), &machine, did_confirmed());
    assert_eq!(res, Ok(Event::RegistrationRewardPayed(owner, REG_FEE)));

    // The reward was minted: the owner is richer and so is total issuance.
    assert_eq!(pallet.bank.free_balance(&owner), before + REG_FEE);
    assert_eq!(pallet.bank.total_issuance, issued_before + REG_FEE);
}

#[test]
fn register_requires_signed_origin() {
    let mut pallet = new_test_ext();
    let machine = machine_key();
    assert_eq!(
        pallet.get_registration_reward(&Origin::Root, &machine, did_confirmed()),
        Err(Error::BadOrigin)
    );
}

#[test]
fn claim_by_wrong_owner_fails() {
    let mut pallet = new_test_ext();
    let owner = owner_key();
    let intruder = user_key();
    let machine = machine_key();

    assert!(
        pallet
            .get_registration_reward(&Origin::Signed(owner), &machine, did_confirmed())
            .is_ok()
    );

    // The registry still holds the machine under `owner`: someone else,
    // even with the oracle's blessing, is turned away.
    assert_eq!(
        pallet.get_online_rewards(&Origin::Signed(intruder), &machine, did_confirmed()),
        Err(Error::Mor(MorError::MorAuthorizationFailed))
    );
}

#[test]
fn unexpected_oracle_error_is_surfaced() {
    let mut pallet = new_test_ext();
    let owner = owner_key();
    let machine = machine_key();
    assert_eq!(
        pallet.get_registration_reward(
            &Origin::Signed(owner),
            &machine,
            Err(DidError::NotFound)
        ),
        Err(Error::Mor(MorError::UnexpectedDidError))
    );
}

#[test]
fn pay_machine_usage_mints_to_machine() {
    let mut pallet = new_test_ext();
    let muser = user_key();
    let machine = machine_key();
    let amount: u128 = 500_000_000_000_000_000;
    let before = pallet.bank.free_balance(&machine);

    let res = pallet.pay_machine_usage(&Origin::Signed(muser), &machine, amount);
    assert_eq!(res, Ok(Event::MachineUsagePayed(machine, amount)));
    assert_eq!(pallet.bank.free_balance(&machine), before + amount);
}

#[test]
fn set_configuration_requires_root() {
    let mut pallet = new_test_ext();
    let config = def_config(REG_FEE, REG_FEE, 3_000_000_000_000_000_000, 10);
    assert_eq!(
        pallet.set_configuration(&Origin::Signed(user_key()), config),
        Err(Error::BadOrigin)
    );
}

#[test]
fn fetch_pot_balance_reports_the_pot() {
    let pallet = new_test_ext();
    assert_eq!(
        pallet.fetch_pot_balance(&Origin::Root),
        Ok(Event::FetchedPotBalance(10_000_000_000_000_000_000))
    );
}
