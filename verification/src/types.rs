//! Configuration of the reward core, and a helper for averaging balances.

use vstd::arithmetic::div_mod::{
    lemma_div_is_ordered, lemma_div_multiples_vanish, lemma_div_nonincreasing,
    lemma_div_pos_is_pos, lemma_fundamental_div_mod, lemma_hoist_over_denominator,
    lemma_mod_division_less_than_divisor,
};
use vstd::arithmetic::mul::{lemma_mul_inequality, lemma_mul_nonnegative, lemma_mul_upper_bound};
use vstd::prelude::*;

verus! {

/// The configurable parameters of the reward core. A candidate value only
/// replaces the active one after [`MorConfig::is_consistent`] accepts it.
#[derive(Clone, Copy, Debug, PartialEq, Eq, Structural)]
pub struct MorConfig {
    /// Reward minted to an owner for registering a new machine.
    pub registration_reward: u128,
    /// Lower bound on a machine-usage payment.
    pub machine_usage_fee_min: u128,
    /// Upper bound on a machine-usage payment.
    pub machine_usage_fee_max: u128,
    /// How many past block rewards the ledger window tracks.
    pub track_n_block_rewards: u8,
}

impl MorConfig {
    /// Internal consistency of a configuration: the tracking window is not
    /// empty, the usage-fee range is not, and the registration reward and
    /// the minimum usage fee both exceed the existential deposit.
    pub open spec fn spec_is_consistent(self, existential_deposit: u128) -> bool {
        &&& self.track_n_block_rewards > 0
        &&& self.machine_usage_fee_max > self.machine_usage_fee_min
        &&& self.registration_reward > existential_deposit
        &&& self.machine_usage_fee_min > existential_deposit
    }

    /// Checks whether this configuration is internally consistent. Pure;
    /// gates every reconfiguration.
    pub fn is_consistent(&self, existential_deposit: u128) -> (r: bool)
        ensures
            r == self.spec_is_consistent(existential_deposit),
    {
        let blocks = self.track_n_block_rewards > 0;
        let range_usage = self.machine_usage_fee_max > self.machine_usage_fee_min;
        let range_min = self.registration_reward > existential_deposit
            && self.machine_usage_fee_min > existential_deposit;

        blocks && range_usage && range_min
    }
}

impl Default for MorConfig {
    /// The placeholder configuration: every amount zero, a window of one
    /// slot, and a fee range of width one. It is not consistent for any
    /// existential deposit, so a real configuration has to be installed at
    /// genesis or by reconfiguration.
    fn default() -> (c: MorConfig)
        ensures
            c.registration_reward == 0,
            c.machine_usage_fee_min == 0,
            c.machine_usage_fee_max == 1,
            c.track_n_block_rewards == 1,
    {
        MorConfig {
            registration_reward: 0,
            machine_usage_fee_min: 0,
            machine_usage_fee_max: 1,
            track_n_block_rewards: 1,
        }
    }
}

/// A configuration whose tracking window would be empty is never consistent.
pub proof fn lemma_zero_window_is_inconsistent(c: MorConfig, existential_deposit: u128)
    requires
        c.track_n_block_rewards == 0,
    ensures
        !c.spec_is_consistent(existential_deposit),
{
}

/// A configuration whose usage-fee range is empty or inverted is never
/// consistent.
pub proof fn lemma_empty_fee_range_is_inconsistent(c: MorConfig, existential_deposit: u128)
    requires
        c.machine_usage_fee_max <= c.machine_usage_fee_min,
    ensures
        !c.spec_is_consistent(existential_deposit),
{
}

/// One billion, the denominator of the per-billion ratios the discrete
/// average is computed with.
pub const BILLION: u128 = 1_000_000_000;

/// The accumulated total scaled by the per-billion ratio nearest below
/// `1 / n`: `floor(total * floor(1e9 / n) / 1e9)`. This is how a full
/// period's mean is published — slightly below the exact integer mean
/// whenever a billion is not a multiple of the period length.
pub open spec fn per_billion_mean(total: u128, n: u32) -> int {
    total * (BILLION as int / n as int) / (BILLION as int)
}

/// How the per-billion mean is computed without overflow: splitting the
/// total at a billion gives the same value, with each summand bounded by
/// the total and the cross product bounded by a billion squared.
pub proof fn lemma_per_billion_split(total: u128, n: u32)
    requires
        n >= 1,
    ensures
        ({
            let b = BILLION as int;
            let parts = b / (n as int);
            let quot = (total as int) / b;
            let rem = (total as int) % b;
            &&& 0 <= parts <= b
            &&& 0 <= quot * parts
            &&& 0 <= rem * parts <= b * b
            &&& 0 <= rem * parts / b <= rem
            &&& quot * parts + rem * parts / b == per_billion_mean(total, n)
            &&& quot * parts + rem * parts / b <= total
        }),
{
    let b = BILLION as int;
    let parts = b / (n as int);
    let quot = (total as int) / b;
    let rem = (total as int) % b;

    lemma_div_pos_is_pos(b, n as int);
    lemma_div_nonincreasing(b, n as int);
    lemma_fundamental_div_mod(total as int, b);
    lemma_mod_division_less_than_divisor(total as int, b);
    lemma_mul_nonnegative(quot, parts);
    lemma_mul_nonnegative(rem, parts);
    lemma_mul_upper_bound(rem, b, parts, b);
    lemma_div_pos_is_pos(rem * parts, b);
    lemma_mul_inequality(parts, b, rem);
    lemma_div_is_ordered(rem * parts, rem * b, b);
    lemma_div_multiples_vanish(rem, b);
    lemma_mul_inequality(parts, b, quot);
    assert((b * quot + rem) * parts == b * (quot * parts) + rem * parts) by (nonlinear_arith);
    lemma_hoist_over_denominator(rem * parts, quot * parts, BILLION as nat);
}

/// Builds the discrete average of a balance over fixed periods: values are
/// accumulated, and once per full period the accumulator, scaled by the
/// per-billion ratio of one period, replaces the published average.
#[derive(Clone, Copy, Debug, PartialEq, Eq, Structural)]
pub struct DiscreteAverage {
    /// The published average value.
    pub avg: u128,
    /// Accumulator for building the next average value.
    pub accu: u128,
    /// Number of updates averaged over.
    pub n_period: u32,
    /// Counter of updates since the last published average.
    pub cnt: u32,
}

impl DiscreteAverage {
    /// Internal well-formedness: the period is not empty and the counter
    /// stays inside it.
    pub open spec fn wf(self) -> bool {
        &&& self.n_period > 0
        &&& self.cnt < self.n_period
    }

    /// Starts an average at the given positive value over the given period.
    pub fn new(avg: u128, n_period: u32) -> (d: DiscreteAverage)
        requires
            avg > 0,
            n_period > 0,
        ensures
            d.wf(),
            d.avg == avg,
            d.accu == 0,
            d.n_period == n_period,
            d.cnt == 0,
    {
        DiscreteAverage { avg, accu: 0, n_period, cnt: 0 }
    }

    /// Feeds the next value into the average; to be called once per block.
    /// When the period completes, the published average becomes the
    /// accumulated total scaled by the per-billion ratio of one period, and
    /// the accumulator restarts.
    pub fn update(&mut self, next: &u128)
        requires
            old(self).wf(),
            old(self).accu + *next <= u128::MAX,
        ensures
            final(self).wf(),
            final(self).n_period == old(self).n_period,
            old(self).cnt + 1 < old(self).n_period ==> *final(self) == (DiscreteAverage {
                accu: (old(self).accu + *next) as u128,
                cnt: (old(self).cnt + 1) as u32,
                ..*old(self)
            }),
            old(self).cnt + 1 == old(self).n_period ==> {
                &&& final(self).avg as int == per_billion_mean(
                    (old(self).accu + *next) as u128,
                    old(self).n_period,
                )
                &&& final(self).accu == 0
                &&& final(self).cnt == 0
            },
    {
        self.accu = self.accu + *next;
        self.cnt = self.cnt + 1;
        if self.cnt == self.n_period {
            let parts: u128 = BILLION / self.n_period as u128;
            let quot: u128 = self.accu / BILLION;
            let rem: u128 = self.accu % BILLION;
            proof {
                lemma_per_billion_split(self.accu, self.n_period);
            }
            self.avg = quot * parts + rem * parts / BILLION;
            self.accu = 0;
            self.cnt = 0;
        }
    }
}

} // verus!
