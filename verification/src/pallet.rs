//! The reward dispatcher: the pallet state and the operations over it.
//!
//! Every operation follows the same pattern: check the caller and the
//! oracle's verdict, check the domain conditions, and only then mutate —
//! a failing operation returns a typed error and leaves the state exactly
//! as it was.

use crate::account::Identity;
use crate::bank::{bal_of, sat_add, TokenStore};
use crate::error::{mor_of_did, DidError, Error, MorError, MorResult};
use crate::ledger::{record_at, resize_post, sum_capped, zeros, RewardLedger};
use crate::registry::{reg_contains, reg_owner_of, MachineRegister};
use crate::types::MorConfig;
use vstd::prelude::*;

verus! {

/// Who dispatched an operation: the privileged root caller, or a signed
/// account.
#[derive(Clone, Copy, Debug, PartialEq, Eq)]
pub enum Origin {
    /// The privileged administrator.
    Root,
    /// An authenticated account.
    Signed(Identity),
}

/// What a successful operation reports to the outside; delivery is the host
/// environment's business and feeds nothing back into the core.
#[derive(Clone, Copy, Debug, PartialEq, Eq)]
pub enum Event {
    /// Tokens were minted: the amount actually issued.
    MintedTokens(u128),
    /// The configuration was replaced by this one.
    MorConfigChanged(MorConfig),
    /// The configuration was read.
    FetchedMorConfig(MorConfig),
    /// The pot's free balance was read.
    FetchedPotBalance(u128),
    /// The current period reward was read.
    FetchedCurrentRewarding(u128),
    /// A machine usage fee was minted to the machine's account.
    MachineUsagePayed(Identity, u128),
    /// The online reward was paid from the pot to the owner.
    OnlineRewardsPayed(Identity, u128),
    /// The registration reward was minted to the owner.
    RegistrationRewardPayed(Identity, u128),
}

/// The whole persistent state of the reward core: the active configuration,
/// the rolling reward ledger, the machine registry, the token store, and
/// the distinguished pot account the online rewards are paid from.
pub struct Pallet {
    /// The active configuration.
    pub mor_config: MorConfig,
    /// The rolling window of recorded block rewards.
    pub ledger: RewardLedger,
    /// Which machine is registered under which owner.
    pub machine_register: MachineRegister,
    /// Account balances and total issuance.
    pub bank: TokenStore,
    /// The distinguished treasury account for online-reward payouts.
    pub pot: Identity,
}

impl Pallet {
    /// Internal consistency of the whole state: the ledger and registry are
    /// well-formed and the window length is the configured one.
    pub open spec fn wf(self) -> bool {
        &&& self.ledger.wf()
        &&& self.machine_register.wf()
        &&& self.mor_config.track_n_block_rewards as int == self.ledger.balances@.len()
    }

    /// Outcome of registering a machine, as a function of the oracle's
    /// verdict and the registry: the configured registration reward when it
    /// succeeds, the error when it does not.
    pub open spec fn spec_register_outcome(
        self,
        did: Result<(), DidError>,
        machine: Seq<u8>,
    ) -> MorResult<u128> {
        match did {
            Err(e) => Err(mor_of_did(e)),
            Ok(_) => if reg_contains(self.machine_register@, machine) {
                Err(MorError::MachineAlreadyRegistered)
            } else {
                Ok(self.mor_config.registration_reward)
            },
        }
    }

    /// Outcome of claiming the online reward, as a function of the oracle's
    /// verdict, the registry and the window sum: the current period reward
    /// when it succeeds. A claim reads the ledger and mutates nothing.
    pub open spec fn spec_reward_outcome(
        self,
        did: Result<(), DidError>,
        owner: Seq<u8>,
        machine: Seq<u8>,
    ) -> MorResult<u128> {
        match did {
            Err(e) => Err(mor_of_did(e)),
            Ok(_) => if !reg_contains(self.machine_register@, machine) {
                Err(MorError::MachineNotRegistered)
            } else if reg_owner_of(self.machine_register@, machine) != owner {
                Err(MorError::MorAuthorizationFailed)
            } else {
                Ok(self.ledger.period_reward)
            },
        }
    }

    /// Whether the pot cannot cover a payout of `amount` without dropping
    /// below its minimum-existence balance.
    pub open spec fn spec_pot_underfunded(self, amount: u128) -> bool {
        ||| bal_of(self.bank@, self.pot@) < amount
        ||| bal_of(self.bank@, self.pot@) - amount < self.bank.existential_deposit
    }

    /// (Re)initializes configuration, ledger and cached sum from the given
    /// configuration: a zero-filled window of the configured length.
    pub fn init_storages(&mut self, mor_config: &MorConfig)
        requires
            mor_config.track_n_block_rewards >= 1,
        ensures
            final(self).mor_config == *mor_config,
            final(self).ledger.slot_cnt == 0,
            final(self).ledger.period_reward == 0,
            final(self).ledger.balances@ == zeros(mor_config.track_n_block_rewards as nat),
            final(self).ledger.wf(),
            final(self).machine_register == old(self).machine_register,
            final(self).bank == old(self).bank,
            final(self).pot == old(self).pot,
            old(self).machine_register.wf() ==> final(self).wf(),
    {
        self.mor_config = *mor_config;
        self.ledger = RewardLedger::new(self.mor_config.track_n_block_rewards);
    }

    /// Repair after a host-storage migration: if the stored window's length
    /// does not match the configured tracking length, the ledger is
    /// reinitialized as a zero-filled window of the configured length and
    /// the configuration is kept. Only a configuration whose tracking
    /// length is zero — which cannot carry a window — is itself replaced by
    /// the placeholder, whose window has one slot. Returns whether any
    /// repair happened.
    pub fn on_runtime_upgrade(&mut self) -> (reset: bool)
        ensures
            reset == (old(self).mor_config.track_n_block_rewards as int
                != old(self).ledger.balances@.len()),
            !reset ==> *final(self) == *old(self),
            reset && old(self).mor_config.track_n_block_rewards >= 1 ==> final(self).mor_config
                == old(self).mor_config,
            reset && old(self).mor_config.track_n_block_rewards == 0 ==> final(self).mor_config
                == (MorConfig {
                registration_reward: 0,
                machine_usage_fee_min: 0,
                machine_usage_fee_max: 1,
                track_n_block_rewards: 1,
            }),
            reset ==> {
                &&& final(self).ledger.slot_cnt == 0
                &&& final(self).ledger.period_reward == 0
                &&& final(self).ledger.balances@ == zeros(
                    final(self).mor_config.track_n_block_rewards as nat,
                )
                &&& final(self).machine_register == old(self).machine_register
                &&& final(self).bank == old(self).bank
                &&& final(self).pot == old(self).pot
            },
            old(self).machine_register.wf() && (reset || old(self).wf()) ==> final(self).wf(),
    {
        let track_n = self.mor_config.track_n_block_rewards;
        if track_n as usize != self.ledger.balances.len() {
            let mor_config = if track_n >= 1 {
                self.mor_config
            } else {
                MorConfig::default()
            };
            self.init_storages(&mor_config);
            true
        } else {
            false
        }
    }

    /// Mints new tokens and credits them to the account, clipping the
    /// amount so that total issuance does not overflow. Returns the amount
    /// actually issued; nothing but the token store changes.
    pub fn mint_to_account(&mut self, account: &Identity, amount: u128) -> (actual: u128)
        requires
            old(self).wf(),
        ensures
            final(self).wf(),
            actual == if amount > u128::MAX - old(self).bank.total_issuance {
                (u128::MAX - old(self).bank.total_issuance) as u128
            } else {
                amount
            },
            final(self).bank.total_issuance == old(self).bank.total_issuance + actual,
            bal_of(final(self).bank@, account@) == sat_add(
                bal_of(old(self).bank@, account@),
                actual,
            ),
            forall|q: Seq<u8>|
                q != account@ ==> bal_of(final(self).bank@, q) == bal_of(old(self).bank@, q),
            final(self).bank.existential_deposit == old(self).bank.existential_deposit,
            final(self).mor_config == old(self).mor_config,
            final(self).ledger == old(self).ledger,
            final(self).machine_register == old(self).machine_register,
            final(self).pot == old(self).pot,
    {
        self.bank.mint(account, amount)
    }

    /// Pays from the pot. Fails with `InsufficientTokensInPot` — changing
    /// nothing — exactly when the pot's free balance cannot cover the
    /// amount while keeping the pot's minimum-existence balance; otherwise
    /// moves the amount from the pot to the account.
    pub fn transfer_from_pot(&mut self, account: &Identity, amount: u128) -> (r: MorResult<()>)
        requires
            old(self).wf(),
        ensures
            final(self).wf(),
            r is Err <==> old(self).spec_pot_underfunded(amount),
            r is Err ==> r == Err::<(), MorError>(MorError::InsufficientTokensInPot)
                && *final(self) == *old(self),
            r is Ok ==> {
                &&& account@ != old(self).pot@ ==> bal_of(final(self).bank@, old(self).pot@)
                    == bal_of(old(self).bank@, old(self).pot@) - amount
                &&& account@ != old(self).pot@ ==> bal_of(final(self).bank@, account@) == sat_add(
                    bal_of(old(self).bank@, account@),
                    amount,
                )
                &&& account@ == old(self).pot@ ==> bal_of(final(self).bank@, account@) == bal_of(
                    old(self).bank@,
                    account@,
                )
                &&& forall|q: Seq<u8>|
                    q != account@ && q != old(self).pot@ ==> bal_of(final(self).bank@, q) == bal_of(
                        old(self).bank@,
                        q,
                    )
                &&& final(self).bank.total_issuance == old(self).bank.total_issuance
            },
            final(self).bank.existential_deposit == old(self).bank.existential_deposit,
            final(self).mor_config == old(self).mor_config,
            final(self).ledger == old(self).ledger,
            final(self).machine_register == old(self).machine_register,
            final(self).pot == old(self).pot,
    {
        let pot = self.pot;
        let pot_balance = self.bank.free_balance(&pot);
        if pot_balance < amount || pot_balance - amount < self.bank.existential_deposit {
            Err(MorError::InsufficientTokensInPot)
        } else {
            self.bank.transfer(&pot, account, amount);
            Ok(())
        }
    }

    /// Records one period's block reward into the rolling window; called by
    /// the host once per elapsed accounting period, independently of the
    /// user-facing operations.
    pub fn log_block_rewards(&mut self, amount: u128)
        requires
            old(self).wf(),
        ensures
            final(self).wf(),
            (final(self).ledger.balances@, final(self).ledger.slot_cnt as int) == record_at(
                old(self).ledger.balances@,
                old(self).ledger.slot_cnt as int,
                amount,
            ),
            final(self).ledger.period_reward as int == sum_capped(final(self).ledger.balances@),
            final(self).mor_config == old(self).mor_config,
            final(self).machine_register == old(self).machine_register,
            final(self).bank == old(self).bank,
            final(self).pot == old(self).pot,
    {
        self.ledger.log_block_rewards(amount);
    }

    /// Registers a machine under an owner: requires the oracle's blessing
    /// and a machine identity with no entry yet; returns the configured
    /// registration reward to be minted. Touches nothing but the registry,
    /// and that only on success.
    pub fn register_machine(
        &mut self,
        did: Result<(), DidError>,
        owner: &Identity,
        machine: &Identity,
    ) -> (r: MorResult<u128>)
        requires
            old(self).wf(),
        ensures
            final(self).wf(),
            r == old(self).spec_register_outcome(did, machine@),
            r is Ok ==> final(self).machine_register@ == old(self).machine_register@.push(
                (machine@, owner@),
            ),
            r is Err ==> final(self).machine_register == old(self).machine_register,
            final(self).mor_config == old(self).mor_config,
            final(self).ledger == old(self).ledger,
            final(self).bank == old(self).bank,
            final(self).pot == old(self).pot,
    {
        match did {
            Err(e) => Err(MorError::from(e)),
            Ok(_) => {
                if self.machine_register.contains_key(machine) {
                    Err(MorError::MachineAlreadyRegistered)
                } else {
                    self.machine_register.insert(machine, owner);
                    Ok(self.mor_config.registration_reward)
                }
            },
        }
    }

    /// Registers a new machine on behalf of a signed caller and mints the
    /// configured registration reward to them. Fails — changing nothing —
    /// when the caller is not signed, when the oracle did not confirm the
    /// caller as the machine's owner, or when the machine is already
    /// registered under any owner.
    pub fn get_registration_reward(
        &mut self,
        origin: &Origin,
        machine: &Identity,
        did: Result<(), DidError>,
    ) -> (r: Result<Event, Error>)
        requires
            old(self).wf(),
        ensures
            final(self).wf(),
            final(self).mor_config == old(self).mor_config,
            final(self).ledger == old(self).ledger,
            final(self).pot == old(self).pot,
            final(self).bank.existential_deposit == old(self).bank.existential_deposit,
            (*origin) is Root ==> r == Err::<Event, Error>(Error::BadOrigin) && *final(self)
                == *old(self),
            (*origin) matches Origin::Signed(sender) ==> match old(self).spec_register_outcome(
                did,
                machine@,
            ) {
                Err(e) => r == Err::<Event, Error>(Error::Mor(e)) && *final(self) == *old(self),
                Ok(reward) => {
                    let actual = if reward > u128::MAX - old(self).bank.total_issuance {
                        (u128::MAX - old(self).bank.total_issuance) as u128
                    } else {
                        reward
                    };
                    &&& r == Ok::<Event, Error>(Event::RegistrationRewardPayed(sender, reward))
                    &&& reward == old(self).mor_config.registration_reward
                    &&& final(self).machine_register@ == old(self).machine_register@.push(
                        (machine@, sender@),
                    )
                    &&& final(self).bank.total_issuance == old(self).bank.total_issuance + actual
                    &&& bal_of(final(self).bank@, sender@) == sat_add(
                        bal_of(old(self).bank@, sender@),
                        actual,
                    )
                    &&& forall|q: Seq<u8>|
                        q != sender@ ==> bal_of(final(self).bank@, q) == bal_of(old(self).bank@, q)
                },
            },
    {
        let sender = match origin {
            Origin::Signed(s) => *s,
            Origin::Root => {
                return Err(Error::BadOrigin);
            },
        };
        let reward = match self.register_machine(did, &sender, machine) {
            Ok(reward) => reward,
            Err(e) => {
                return Err(Error::from_mor(e));
            },
        };
        let _minted = self.mint_to_account(&sender, reward);
        Ok(Event::RegistrationRewardPayed(sender, reward))
    }

    /// Pays the online reward for a registered machine to its signed owner,
    /// out of the pot. Fails — changing nothing — when the caller is not
    /// signed, when the oracle did not confirm ownership, when the machine
    /// is not registered, when it is registered under someone else, or when
    /// the pot cannot cover the payout. The ledger and the registry are
    /// never mutated, so claiming is repeatable: the same amount is owed
    /// until the next period is recorded.
    pub fn get_online_rewards(
        &mut self,
        origin: &Origin,
        machine: &Identity,
        did: Result<(), DidError>,
    ) -> (r: Result<Event, Error>)
        requires
            old(self).wf(),
        ensures
            final(self).wf(),
            final(self).mor_config == old(self).mor_config,
            final(self).ledger == old(self).ledger,
            final(self).machine_register == old(self).machine_register,
            final(self).pot == old(self).pot,
            final(self).bank.existential_deposit == old(self).bank.existential_deposit,
            final(self).bank.total_issuance == old(self).bank.total_issuance,
            (*origin) is Root ==> r == Err::<Event, Error>(Error::BadOrigin) && *final(self)
                == *old(self),
            (*origin) matches Origin::Signed(sender) ==> match old(self).spec_reward_outcome(
                did,
                sender@,
                machine@,
            ) {
                Err(e) => r == Err::<Event, Error>(Error::Mor(e)) && *final(self) == *old(self),
                Ok(amount) => {
                    &&& amount == old(self).ledger.period_reward
                    &&& old(self).spec_pot_underfunded(amount) ==> r == Err::<Event, Error>(
                        Error::Mor(MorError::InsufficientTokensInPot),
                    ) && *final(self) == *old(self)
                    &&& !old(self).spec_pot_underfunded(amount) ==> {
                        &&& r == Ok::<Event, Error>(Event::OnlineRewardsPayed(sender, amount))
                        &&& sender@ != old(self).pot@ ==> bal_of(final(self).bank@, old(self).pot@)
                            == bal_of(old(self).bank@, old(self).pot@) - amount
                        &&& sender@ != old(self).pot@ ==> bal_of(final(self).bank@, sender@)
                            == sat_add(bal_of(old(self).bank@, sender@), amount)
                        &&& sender@ == old(self).pot@ ==> bal_of(final(self).bank@, sender@)
                            == bal_of(old(self).bank@, sender@)
                        &&& forall|q: Seq<u8>|
                            q != sender@ && q != old(self).pot@ ==> bal_of(final(self).bank@, q)
                                == bal_of(old(self).bank@, q)
                    }
                },
            },
    {
        let sender = match origin {
            Origin::Signed(s) => *s,
            Origin::Root => {
                return Err(Error::BadOrigin);
            },
        };
        let amount = match self.reward_machine(did, &sender, machine) {
            Ok(amount) => amount,
            Err(e) => {
                return Err(Error::from_mor(e));
            },
        };
        match self.transfer_from_pot(&sender, amount) {
            Ok(_) => Ok(Event::OnlineRewardsPayed(sender, amount)),
            Err(e) => Err(Error::from_mor(e)),
        }
    }

    /// Mints a machine-usage fee to the machine's account on behalf of a
    /// signed user. Fails — changing nothing — when the caller is not
    /// signed or the amount lies outside the configured fee range.
    pub fn pay_machine_usage(
        &mut self,
        origin: &Origin,
        machine: &Identity,
        amount: u128,
    ) -> (r: Result<Event, Error>)
        requires
            old(self).wf(),
        ensures
            final(self).wf(),
            final(self).mor_config == old(self).mor_config,
            final(self).ledger == old(self).ledger,
            final(self).machine_register == old(self).machine_register,
            final(self).pot == old(self).pot,
            final(self).bank.existential_deposit == old(self).bank.existential_deposit,
            (*origin) is Root ==> r == Err::<Event, Error>(Error::BadOrigin) && *final(self)
                == *old(self),
            (*origin) is Signed ==> {
                let out_of_range = old(self).mor_config.machine_usage_fee_min > amount || amount
                    > old(self).mor_config.machine_usage_fee_max;
                let actual = if amount > u128::MAX - old(self).bank.total_issuance {
                    (u128::MAX - old(self).bank.total_issuance) as u128
                } else {
                    amount
                };
                &&& out_of_range ==> r == Err::<Event, Error>(
                    Error::Mor(MorError::MachinePaymentOutOfRange),
                ) && *final(self) == *old(self)
                &&& !out_of_range ==> {
                    &&& r == Ok::<Event, Error>(Event::MachineUsagePayed(*machine, amount))
                    &&& final(self).bank.total_issuance == old(self).bank.total_issuance + actual
                    &&& bal_of(final(self).bank@, machine@) == sat_add(
                        bal_of(old(self).bank@, machine@),
                        actual,
                    )
                    &&& forall|q: Seq<u8>|
                        q != machine@ ==> bal_of(final(self).bank@, q) == bal_of(old(self).bank@, q)
                }
            },
    {
        match origin {
            Origin::Signed(_) => (),
            Origin::Root => {
                return Err(Error::BadOrigin);
            },
        };
        if self.mor_config.machine_usage_fee_min > amount
            || amount > self.mor_config.machine_usage_fee_max {
            Err(Error::Mor(MorError::MachinePaymentOutOfRange))
        } else {
            let _minted = self.mint_to_account(machine, amount);
            Ok(Event::MachineUsagePayed(*machine, amount))
        }
    }

    /// Replaces the active configuration, for the root caller only. An
    /// inconsistent candidate is rejected and mutates nothing; an accepted
    /// one resizes the reward window to its tracking length and becomes the
    /// active configuration.
    pub fn set_configuration(&mut self, origin: &Origin, config: MorConfig) -> (r: Result<
        Event,
        Error,
    >)
        requires
            old(self).wf(),
        ensures
            final(self).wf(),
            final(self).machine_register == old(self).machine_register,
            final(self).bank == old(self).bank,
            final(self).pot == old(self).pot,
            (*origin) is Signed ==> r == Err::<Event, Error>(Error::BadOrigin) && *final(self)
                == *old(self),
            (*origin) is Root ==> {
                &&& !config.spec_is_consistent(old(self).bank.existential_deposit) ==> r == Err::<
                    Event,
                    Error,
                >(Error::Mor(MorError::MorConfigIsNotConsistent)) && *final(self) == *old(self)
                &&& config.spec_is_consistent(old(self).bank.existential_deposit) ==> {
                    &&& r == Ok::<Event, Error>(Event::MorConfigChanged(config))
                    &&& final(self).mor_config == config
                    &&& resize_post(
                        old(self).ledger,
                        config.track_n_block_rewards,
                        final(self).ledger,
                    )
                }
            },
    {
        match origin {
            Origin::Root => (),
            Origin::Signed(_) => {
                return Err(Error::BadOrigin);
            },
        };
        if config.is_consistent(self.bank.existential_deposit) {
            self.ledger.resize_track_storage(config.track_n_block_rewards);
            self.mor_config = config;
            Ok(Event::MorConfigChanged(config))
        } else {
            Err(Error::Mor(MorError::MorConfigIsNotConsistent))
        }
    }

    /// Reads the pot's free balance, for the root caller only. Mutates
    /// nothing.
    pub fn fetch_pot_balance(&self, origin: &Origin) -> (r: Result<Event, Error>)
        ensures
            (*origin) is Root ==> r == Ok::<Event, Error>(
                Event::FetchedPotBalance(bal_of(self.bank@, self.pot@)),
            ),
            (*origin) is Signed ==> r == Err::<Event, Error>(Error::BadOrigin),
    {
        match origin {
            Origin::Root => (),
            Origin::Signed(_) => {
                return Err(Error::BadOrigin);
            },
        };
        let pot = self.pot;
        let amount = self.bank.free_balance(&pot);
        Ok(Event::FetchedPotBalance(amount))
    }

    /// Checks a claim of the online reward: the oracle must bless the pair,
    /// the machine must be registered, and the registered owner must be the
    /// claimant; returns the current period reward to be paid. Reads only.
    pub fn reward_machine(
        &self,
        did: Result<(), DidError>,
        owner: &Identity,
        machine: &Identity,
    ) -> (r: MorResult<u128>)
        ensures
            r == self.spec_reward_outcome(did, owner@, machine@),
    {
        match did {
            Err(e) => Err(MorError::from(e)),
            Ok(_) => {
                match self.machine_register.owner_of(machine) {
                    None => Err(MorError::MachineNotRegistered),
                    Some(registered) => {
                        if !registered.equals(owner) {
                            Err(MorError::MorAuthorizationFailed)
                        } else {
                            Ok(self.ledger.current_period_reward())
                        }
                    },
                }
            },
        }
    }
}

/// The state the system starts from: a consistent configuration.
#[derive(Clone, Copy, Debug, PartialEq, Eq, Structural)]
pub struct GenesisConfig {
    /// The configuration active at genesis.
    pub mor_config: MorConfig,
}

impl Default for GenesisConfig {
    /// Genesis with the placeholder configuration; a real one has to be set
    /// before it passes the consistency gate.
    fn default() -> (g: GenesisConfig)
        ensures
            g.mor_config == (MorConfig {
                registration_reward: 0,
                machine_usage_fee_min: 0,
                machine_usage_fee_max: 1,
                track_n_block_rewards: 1,
            }),
    {
        GenesisConfig { mor_config: MorConfig::default() }
    }
}

impl GenesisConfig {
    /// Builds the initial pallet state: the genesis configuration — which
    /// must be consistent — a zero-filled reward window of the configured
    /// length, an empty registry, and an empty token store around the given
    /// pot account and existential deposit.
    pub fn build(&self, pot: Identity, existential_deposit: u128) -> (p: Pallet)
        requires
            self.mor_config.spec_is_consistent(existential_deposit),
        ensures
            p.wf(),
            p.mor_config == self.mor_config,
            p.pot == pot,
            p.bank.existential_deposit == existential_deposit,
            p.bank.total_issuance == 0,
            p.bank@ == Seq::<(Seq<u8>, u128)>::empty(),
            p.machine_register@ == Seq::<(Seq<u8>, Seq<u8>)>::empty(),
            p.ledger.slot_cnt == 0,
            p.ledger.period_reward == 0,
            p.ledger.balances@ == zeros(self.mor_config.track_n_block_rewards as nat),
    {
        Pallet {
            mor_config: self.mor_config,
            ledger: RewardLedger::new(self.mor_config.track_n_block_rewards),
            machine_register: MachineRegister::new(),
            bank: TokenStore::new(existential_deposit),
            pot,
        }
    }
}

/// Uniqueness of registration: whatever owner a registration is tried
/// under, an already-registered machine is rejected with
/// `MachineAlreadyRegistered`, even with the oracle's blessing.
pub proof fn lemma_register_rejects_registered(st: Pallet, machine: Seq<u8>)
    requires
        reg_contains(st.machine_register@, machine),
    ensures
        st.spec_register_outcome(Ok(()), machine) == Err::<u128, MorError>(
            MorError::MachineAlreadyRegistered,
        ),
{
}

/// A second registration of the same machine always fails: after a state
/// registered the machine — whoever under — every later registration
/// attempt for it is rejected with `MachineAlreadyRegistered`.
pub proof fn lemma_second_register_fails(
    st: Pallet,
    st2: Pallet,
    owner: Seq<u8>,
    machine: Seq<u8>,
)
    requires
        st.spec_register_outcome(Ok(()), machine) is Ok,
        st2.machine_register@ == st.machine_register@.push((machine, owner)),
    ensures
        st2.spec_register_outcome(Ok(()), machine) == Err::<u128, MorError>(
            MorError::MachineAlreadyRegistered,
        ),
{
    assert(st2.machine_register@[st.machine_register@.len() as int].0 == machine);
}

/// Idempotent claim: the outcome of an online-reward claim depends only on
/// the registry and the recorded window sum, and a claim mutates neither —
/// so two claims in succession, with no recording in between, are owed the
/// same amount, each paid by one pot transfer of that size.
pub proof fn lemma_claim_idempotent(
    st: Pallet,
    st2: Pallet,
    did: Result<(), DidError>,
    owner: Seq<u8>,
    machine: Seq<u8>,
)
    requires
        st2.machine_register@ == st.machine_register@,
        st2.ledger.period_reward == st.ledger.period_reward,
    ensures
        st2.spec_reward_outcome(did, owner, machine) == st.spec_reward_outcome(did, owner, machine),
{
}

} // verus!
