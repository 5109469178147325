//! Tests of the leaf components: configuration consistency, error mapping,
//! the discrete average, and the token store's saturation behaviour.

use peaq_pallet_mor::account::Identity;
use peaq_pallet_mor::bank::TokenStore;
use peaq_pallet_mor::error::{DidError, MorError};
use peaq_pallet_mor::types::{DiscreteAverage, MorConfig};

fn acct(tag: u8) -> Identity {
    Identity { bytes: [tag; 32] }
}

fn base_config() -> MorConfig {
    MorConfig {
        registration_reward: 1_000,
        machine_usage_fee_min: 1_000,
        machine_usage_fee_max: 10_000,
        track_n_block_rewards: 5,
    }
}

#[test]
fn consistent_config_is_accepted() {
    assert!(base_config().is_consistent(500));
}

#[test]
fn zero_window_is_rejected() {
    let config = MorConfig { track_n_block_rewards: 0, ..base_config() };
    assert!(!config.is_consistent(500));
}

#[test]
fn empty_fee_range_is_rejected() {
    let config = MorConfig { machine_usage_fee_max: 1_000, ..base_config() };
    assert!(!config.is_consistent(500));
}

#[test]
fn rewards_at_existential_deposit_are_rejected() {
    // Both the registration reward and the minimum fee must strictly
    // exceed the existential deposit.
    assert!(!base_config().is_consistent(1_000));
    let config = MorConfig { registration_reward: 1_001, ..base_config() };
    assert!(!config.is_consistent(1_000));
    let config = MorConfig {
        registration_reward: 1_001,
        machine_usage_fee_min: 1_001,
        ..base_config()
    };
    assert!(config.is_consistent(1_000));
}

#[test]
fn default_config_values() {
    let config = MorConfig::default();
    assert_eq!(config.registration_reward, 0);
    assert_eq!(config.machine_usage_fee_min, 0);
    assert_eq!(config.machine_usage_fee_max, 1);
    assert_eq!(config.track_n_block_rewards, 1);
    // The placeholder is never consistent: a real configuration has to be
    // installed explicitly.
    assert!(!config.is_consistent(0));
}

#[test]
fn oracle_errors_map_into_the_taxonomy() {
    assert_eq!(
        MorError::from(DidError::AuthorizationFailed),
        MorError::DidAuthorizationFailed
    );
    assert_eq!(MorError::from(DidError::NotFound), MorError::UnexpectedDidError);
    assert_eq!(
        MorError::from(DidError::FailedCreate),
        MorError::UnexpectedDidError
    );
    assert_eq!(
        MorError::from(DidError::FailedUpdate),
        MorError::UnexpectedDidError
    );
}

#[test]
fn discrete_average_publishes_the_period_mean() {
    let mut avg = DiscreteAverage::new(10, 4);
    assert_eq!(avg.avg, 10);
    avg.update(&2);
    avg.update(&4);
    avg.update(&6);
    // Not a full period yet: the published value is unchanged.
    assert_eq!(avg.avg, 10);
    avg.update(&8);
    // A full period: the total of 20, scaled by 250_000_000 parts per
    // billion — exactly the mean of 2, 4, 6, 8.
    assert_eq!(avg.avg, 5);
    // The next period starts fresh.
    avg.update(&100);
    assert_eq!(avg.avg, 5);
}

#[test]
fn discrete_average_rounds_through_per_billion_ratio() {
    let mut avg = DiscreteAverage::new(1, 3);
    avg.update(&1_000_000_000_000_000_000);
    avg.update(&1_000_000_000_000_000_000);
    avg.update(&1_000_000_000_000_000_000);
    // The ratio of one third is 333_333_333 parts per billion, so the
    // published value falls slightly below the exact integer mean.
    assert_eq!(avg.avg, 999_999_999_000_000_000);
}

#[test]
fn identity_equality_is_bytewise() {
    let a = acct(7);
    let b = acct(7);
    let c = acct(8);
    assert!(a.equals(&b));
    assert!(!a.equals(&c));
}

#[test]
fn mint_clips_at_total_issuance_limit() {
    let mut bank = TokenStore::new(0);
    let rich = acct(1);
    let other = acct(2);
    let first = bank.mint(&rich, u128::MAX - 10);
    assert_eq!(first, u128::MAX - 10);
    // Only 10 more can ever be issued.
    let second = bank.mint(&other, 1_000);
    assert_eq!(second, 10);
    assert_eq!(bank.total_issuance, u128::MAX);
    assert_eq!(bank.free_balance(&other), 10);
}

#[test]
fn transfer_moves_exactly_the_amount() {
    let mut bank = TokenStore::new(0);
    let from = acct(1);
    let to = acct(2);
    bank.mint(&from, 1_000);
    bank.transfer(&from, &to, 400);
    assert_eq!(bank.free_balance(&from), 600);
    assert_eq!(bank.free_balance(&to), 400);
    assert_eq!(bank.total_issuance, 1_000);
}
