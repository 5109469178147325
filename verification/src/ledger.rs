//! The reward ledger: a fixed-capacity circular window of per-period block
//! rewards together with the cached sum over the whole window.

use vstd::pervasive::VecAdditionalExecFns;
use vstd::prelude::*;

verus! {

/// Sum of a sequence of balances, as an unbounded integer.
pub open spec fn sum(s: Seq<u128>) -> int
    decreases s.len(),
{
    if s.len() == 0 {
        0
    } else {
        sum(s.drop_last()) + s.last()
    }
}

/// The sum of a sequence of balances, capped at the largest representable
/// balance. The cached window sum saturates there instead of wrapping.
pub open spec fn sum_capped(s: Seq<u128>) -> int {
    if sum(s) > u128::MAX as int {
        u128::MAX as int
    } else {
        sum(s)
    }
}

/// An all-zero window of the given length.
pub open spec fn zeros(n: nat) -> Seq<u128> {
    Seq::new(n, |i: int| 0u128)
}

/// The window read in chronological order: the slot about to be overwritten
/// holds the oldest entry, the one before it the newest.
pub open spec fn chron(w: Seq<u128>, slot: int) -> Seq<u128> {
    w.subrange(slot, w.len() as int) + w.subrange(0, slot)
}

/// One recording step on a window: write the amount into the current slot,
/// then advance the slot cyclically.
pub open spec fn record_at(w: Seq<u128>, slot: int, amount: u128) -> (Seq<u128>, int) {
    (
        w.update(slot, amount),
        if slot + 1 == w.len() {
            0int
        } else {
            slot + 1
        },
    )
}

/// The window and slot after recording a whole sequence of amounts, one by
/// one, starting from the given state.
pub open spec fn apply_records(w: Seq<u128>, slot: int, amounts: Seq<u128>) -> (Seq<u128>, int)
    decreases amounts.len(),
{
    if amounts.len() == 0 {
        (w, slot)
    } else {
        let prev = apply_records(w, slot, amounts.drop_last());
        record_at(prev.0, prev.1, amounts.last())
    }
}

pub proof fn lemma_sum_nonneg(s: Seq<u128>)
    ensures
        sum(s) >= 0,
    decreases s.len(),
{
    if s.len() > 0 {
        lemma_sum_nonneg(s.drop_last());
    }
}

pub proof fn lemma_sum_concat(a: Seq<u128>, b: Seq<u128>)
    ensures
        sum(a + b) == sum(a) + sum(b),
    decreases b.len(),
{
    if b.len() == 0 {
        assert(a + b =~= a);
    } else {
        assert((a + b).drop_last() =~= a + b.drop_last());
        assert((a + b).last() == b.last());
        lemma_sum_concat(a, b.drop_last());
    }
}

pub proof fn lemma_sum_all_zero(s: Seq<u128>)
    requires
        forall|i: int| 0 <= i < s.len() ==> s[i] == 0,
    ensures
        sum(s) == 0,
    decreases s.len(),
{
    if s.len() > 0 {
        lemma_sum_all_zero(s.drop_last());
    }
}

pub proof fn lemma_sum_split(s: Seq<u128>, i: int)
    requires
        0 <= i <= s.len(),
    ensures
        sum(s) == sum(s.subrange(0, i)) + sum(s.subrange(i, s.len() as int)),
{
    assert(s =~= s.subrange(0, i) + s.subrange(i, s.len() as int));
    lemma_sum_concat(s.subrange(0, i), s.subrange(i, s.len() as int));
}

/// Sums a window, saturating at the largest representable balance.
fn sum_saturating(v: &Vec<u128>) -> (total: u128)
    ensures
        total as int == sum_capped(v@),
{
    let mut total: u128 = 0;
    let mut i: usize = 0;
    while i < v.len()
        invariant
            i <= v@.len(),
            total as int == sum_capped(v@.subrange(0, i as int)),
        decreases v@.len() - i,
    {
        proof {
            assert(v@.subrange(0, i + 1).drop_last() =~= v@.subrange(0, i as int));
        }
        let x = v[i];
        if x > u128::MAX - total {
            total = u128::MAX;
        } else {
            total = total + x;
        }
        i += 1;
    }
    proof {
        assert(v@.subrange(0, v@.len() as int) =~= v@);
    }
    total
}

/// The rolling reward window. One slot holds the reward collected over one
/// accounting period; `slot_cnt` is the next slot to be overwritten, and
/// `period_reward` caches the sum over the whole window.
pub struct RewardLedger {
    /// Next window slot to write into.
    pub slot_cnt: u8,
    /// The recorded rewards, one per period.
    pub balances: Vec<u128>,
    /// Cached sum over the whole window, saturating.
    pub period_reward: u128,
}

/// What resizing the window from `pre` to `new_size` slots leaves behind:
/// growing appends zeros and keeps the slot pointer and the cached sum,
/// shrinking keeps the chronologically most recent `new_size` entries and
/// resets the slot pointer, equal length changes nothing; the cached sum
/// always covers the new window.
pub open spec fn resize_post(pre: RewardLedger, new_size: u8, post: RewardLedger) -> bool {
    &&& post.wf()
    &&& post.balances@.len() == new_size as int
    &&& (new_size as int == pre.balances@.len() ==> post == pre)
    &&& (new_size as int > pre.balances@.len() ==> {
        &&& post.balances@ == pre.balances@ + zeros((new_size as int - pre.balances@.len()) as nat)
        &&& post.slot_cnt == pre.slot_cnt
        &&& post.period_reward == pre.period_reward
    })
    &&& ((new_size as int) < pre.balances@.len() ==> {
        &&& post.balances@ == chron(pre.balances@, pre.slot_cnt as int).subrange(
            pre.balances@.len() - new_size as int,
            pre.balances@.len() as int,
        )
        &&& post.slot_cnt == 0
    })
    &&& post.period_reward as int == sum_capped(post.balances@)
}

impl RewardLedger {
    /// Internal well-formedness: the window is not empty, its length fits
    /// the slot counter's type, the slot points into the window, and the
    /// cached sum is the (saturating) sum of the window.
    pub open spec fn wf(self) -> bool {
        &&& 1 <= self.balances@.len() <= 255
        &&& (self.slot_cnt as int) < self.balances@.len()
        &&& self.period_reward as int == sum_capped(self.balances@)
    }

    /// A fresh ledger: a zero-filled window of the given length, the slot
    /// at the start, the cached sum zero.
    pub fn new(track_n_block_rewards: u8) -> (l: RewardLedger)
        requires
            track_n_block_rewards >= 1,
        ensures
            l.wf(),
            l.slot_cnt == 0,
            l.period_reward == 0,
            l.balances@ == zeros(track_n_block_rewards as nat),
    {
        let n = track_n_block_rewards as usize;
        let mut balances: Vec<u128> = Vec::new();
        let mut i: usize = 0;
        while i < n
            invariant
                i <= n,
                balances@.len() == i,
                forall|j: int| 0 <= j < i ==> balances@[j] == 0u128,
            decreases n - i,
        {
            balances.push(0);
            i += 1;
        }
        proof {
            assert(balances@ =~= zeros(track_n_block_rewards as nat));
            lemma_sum_all_zero(balances@);
        }
        RewardLedger { slot_cnt: 0, balances, period_reward: 0 }
    }

    /// The amount paid to a claimant of the online reward: the cached sum
    /// of the whole window.
    pub fn current_period_reward(&self) -> (r: u128)
        ensures
            r == self.period_reward,
    {
        self.period_reward
    }

    /// Records one period's reward: overwrite the current slot, advance the
    /// slot cyclically, and recompute the cached sum over the full window.
    pub fn log_block_rewards(&mut self, amount: u128)
        requires
            old(self).wf(),
        ensures
            final(self).wf(),
            (final(self).balances@, final(self).slot_cnt as int) == record_at(
                old(self).balances@,
                old(self).slot_cnt as int,
                amount,
            ),
            final(self).balances@ == old(self).balances@.update(
                old(self).slot_cnt as int,
                amount,
            ),
            final(self).period_reward as int == sum_capped(final(self).balances@),
    {
        let idx = self.slot_cnt as usize;
        self.balances.set(idx, amount);
        self.slot_cnt = self.slot_cnt + 1;
        if self.slot_cnt as usize >= self.balances.len() {
            self.slot_cnt = 0;
        }
        self.period_reward = sum_saturating(&self.balances);
    }

    /// Resizes the window. Growing appends zero-valued slots and keeps the
    /// slot pointer; shrinking keeps exactly the most recent entries, in
    /// chronological order, and resets the slot pointer to the start. Equal
    /// length is a no-op. The cached sum always covers the new window.
    pub fn resize_track_storage(&mut self, new_size: u8)
        requires
            old(self).wf(),
            new_size >= 1,
        ensures
            resize_post(*old(self), new_size, *final(self)),
    {
        let new_len = new_size as usize;
        let cur_len = self.balances.len();
        if cur_len < new_len {
            let ghost old_b = self.balances@;
            let mut i = cur_len;
            while i < new_len
                invariant
                    cur_len <= i <= new_len,
                    old_b.len() == cur_len,
                    self.balances@ == old_b + zeros((i - cur_len) as nat),
                    self.slot_cnt == old(self).slot_cnt,
                    self.period_reward == old(self).period_reward,
                decreases new_len - i,
            {
                self.balances.push(0);
                proof {
                    assert(self.balances@ =~= old_b + zeros((i + 1 - cur_len) as nat));
                }
                i += 1;
            }
            proof {
                lemma_sum_concat(old_b, zeros((new_len - cur_len) as nat));
                lemma_sum_all_zero(zeros((new_len - cur_len) as nat));
            }
        } else if cur_len > new_len {
            let ghost old_b = self.balances@;
            let ghost target = chron(old_b, old(self).slot_cnt as int).subrange(
                cur_len - new_len as int,
                cur_len as int,
            );
            let s = self.slot_cnt as usize;
            let mut kept: Vec<u128> = Vec::new();
            let mut j: usize = 0;
            while j < new_len
                invariant
                    j <= new_len,
                    new_len < cur_len <= 255,
                    s < cur_len,
                    self.balances@ == old_b,
                    old_b.len() == cur_len,
                    target == chron(old_b, s as int).subrange(
                        cur_len - new_len as int,
                        cur_len as int,
                    ),
                    kept@.len() == j,
                    forall|k: int| 0 <= k < j ==> kept@[k] == target[k],
                decreases new_len - j,
            {
                let mut idx = s + (cur_len - new_len) + j;
                if idx >= cur_len {
                    idx = idx - cur_len;
                }
                kept.push(self.balances[idx]);
                proof {
                    assert(target[j as int] == old_b[idx as int]);
                }
                j += 1;
            }
            proof {
                assert(kept@ =~= target);
            }
            self.balances = kept;
            self.slot_cnt = 0;
            self.period_reward = sum_saturating(&self.balances);
        }
    }
}

/// Recording rotates the chronological view: the oldest entry falls out at
/// the front and the new amount is appended at the back.
pub proof fn lemma_record_chron(w: Seq<u128>, slot: int, amount: u128)
    requires
        w.len() >= 1,
        0 <= slot < w.len(),
    ensures
        ({
            let post = record_at(w, slot, amount);
            chron(post.0, post.1) == chron(w, slot).subrange(1, w.len() as int).push(amount)
        }),
{
    let n = w.len() as int;
    let post = record_at(w, slot, amount);
    let lhs = chron(post.0, post.1);
    let rhs = chron(w, slot).subrange(1, n).push(amount);
    assert forall|i: int| 0 <= i < n implies lhs[i] == rhs[i] by {
        if slot + 1 == n {
            if i < n - 1 {
                assert(lhs[i] == w.update(slot, amount)[i]);
                assert(rhs[i] == chron(w, slot)[i + 1]);
                assert(chron(w, slot)[i + 1] == w[i]);
            } else {
                assert(lhs[i] == w.update(slot, amount)[slot]);
            }
        } else {
            if i < n - 1 {
                if i < n - slot - 1 {
                    assert(lhs[i] == w.update(slot, amount)[slot + 1 + i]);
                    assert(rhs[i] == chron(w, slot)[i + 1]);
                    assert(chron(w, slot)[i + 1] == w[slot + 1 + i]);
                } else {
                    assert(lhs[i] == w.update(slot, amount)[slot + 1 + i - n]);
                    assert(rhs[i] == chron(w, slot)[i + 1]);
                    assert(chron(w, slot)[i + 1] == w[slot + 1 + i - n]);
                }
            } else {
                assert(lhs[i] == w.update(slot, amount)[slot]);
            }
        }
    };
    assert(lhs =~= rhs);
}

/// After recording a sequence of amounts into a fresh window of length `n`,
/// the chronological view of the window is the last `n` entries of the
/// recorded sequence, left-padded with the initial zeros.
pub proof fn lemma_apply_records_chron(n: nat, amounts: Seq<u128>)
    requires
        n >= 1,
    ensures
        ({
            let post = apply_records(zeros(n), 0, amounts);
            &&& post.0.len() == n
            &&& 0 <= post.1 < n
            &&& chron(post.0, post.1) == (zeros(n) + amounts).subrange(
                amounts.len() as int,
                amounts.len() + n as int,
            )
        }),
    decreases amounts.len(),
{
    let k = amounts.len() as int;
    let post = apply_records(zeros(n), 0, amounts);
    if amounts.len() == 0 {
        assert(chron(zeros(n), 0) =~= (zeros(n) + amounts).subrange(0, n as int));
    } else {
        lemma_apply_records_chron(n, amounts.drop_last());
        let prev = apply_records(zeros(n), 0, amounts.drop_last());
        assert(post == record_at(prev.0, prev.1, amounts.last()));
        {
            lemma_record_chron(prev.0, prev.1, amounts.last());
            let prev_chron = (zeros(n) + amounts.drop_last()).subrange(k - 1, k - 1 + n);
            assert(chron(prev.0, prev.1) == prev_chron);
            assert forall|i: int| 0 <= i < n implies chron(post.0, post.1)[i] == (zeros(n)
                + amounts).subrange(k, k + n)[i] by {
                if i < n - 1 {
                    assert(chron(post.0, post.1)[i] == prev_chron[i + 1]);
                    assert(prev_chron[i + 1] == (zeros(n) + amounts.drop_last())[k + i]);
                    if k + i < n {
                        assert((zeros(n) + amounts.drop_last())[k + i] == zeros(n)[k + i]);
                        assert((zeros(n) + amounts)[k + i] == zeros(n)[k + i]);
                    } else {
                        assert((zeros(n) + amounts.drop_last())[k + i] == amounts.drop_last()[k + i
                            - n]);
                        assert((zeros(n) + amounts)[k + i] == amounts[k + i - n]);
                        assert(amounts.drop_last()[k + i - n] == amounts[k + i - n]);
                    }
                } else {
                    assert(chron(post.0, post.1)[i] == amounts.last());
                    assert((zeros(n) + amounts)[k + n - 1] == amounts[k - 1]);
                }
            };
            assert(chron(post.0, post.1) =~= (zeros(n) + amounts).subrange(k, k + n));
        }
    }
}

/// Rolling-sum correctness: after recording amounts into a fresh window of
/// length `n`, the window's sum is the sum of the last `min(k, n)` recorded
/// values, where `k` is how many were recorded; once `k >= n` it is the sum
/// of exactly the last `n` values.
pub proof fn lemma_rolling_sum(n: nat, amounts: Seq<u128>)
    requires
        n >= 1,
    ensures
        ({
            let post = apply_records(zeros(n), 0, amounts);
            let k = amounts.len() as int;
            sum(post.0) == sum(
                amounts.subrange(
                    if k <= n {
                        0int
                    } else {
                        k - n
                    },
                    k,
                ),
            )
        }),
{
    let post = apply_records(zeros(n), 0, amounts);
    let k = amounts.len() as int;
    lemma_apply_records_chron(n, amounts);
    lemma_sum_split(post.0, post.1);
    lemma_sum_concat(
        post.0.subrange(post.1, post.0.len() as int),
        post.0.subrange(0, post.1),
    );
    assert(sum(post.0) == sum(chron(post.0, post.1)));
    let suffix = (zeros(n) + amounts).subrange(k, k + n);
    if k <= n {
        assert(suffix =~= zeros((n - k) as nat) + amounts);
        lemma_sum_concat(zeros((n - k) as nat), amounts);
        lemma_sum_all_zero(zeros((n - k) as nat));
        assert(amounts.subrange(0, k) =~= amounts);
    } else {
        assert(suffix =~= amounts.subrange(k - n, k));
    }
}

/// The cached sum after recording: a well-formed ledger whose window is
/// that of `k` recordings into a fresh window of length `n` carries, as
/// long as the recorded amounts' total fits a balance, exactly the sum of
/// the last `min(k, n)` recorded values as its cached period reward.
pub proof fn lemma_period_reward_after_records(n: nat, amounts: Seq<u128>, l: RewardLedger)
    requires
        n >= 1,
        l.wf(),
        l.balances@ == apply_records(zeros(n), 0, amounts).0,
        sum(amounts) <= u128::MAX,
    ensures
        ({
            let k = amounts.len() as int;
            l.period_reward as int == sum(
                amounts.subrange(
                    if k <= n {
                        0int
                    } else {
                        k - n
                    },
                    k,
                ),
            )
        }),
{
    lemma_rolling_sum(n, amounts);
    let k = amounts.len() as int;
    let lo = if k <= n {
        0int
    } else {
        k - n
    };
    lemma_sum_split(amounts, lo);
    lemma_sum_nonneg(amounts.subrange(0, lo));
}

/// Resize preserves recency: shrinking a window that was filled by
/// recording `amounts` down to `m` slots keeps exactly the `m` most
/// recently recorded values, in order, so the recomputed sum is their sum.
pub proof fn lemma_resize_preserves_recency(n: nat, m: nat, amounts: Seq<u128>)
    requires
        1 <= m < n,
        amounts.len() >= m,
    ensures
        ({
            let post = apply_records(zeros(n), 0, amounts);
            let kept = chron(post.0, post.1).subrange(n - m, n as int);
            let k = amounts.len() as int;
            &&& kept == amounts.subrange(k - m, k)
            &&& sum(kept) == sum(amounts.subrange(k - m, k))
        }),
{
    let post = apply_records(zeros(n), 0, amounts);
    let k = amounts.len() as int;
    lemma_apply_records_chron(n, amounts);
    let kept = chron(post.0, post.1).subrange(n - m, n as int);
    assert forall|i: int| 0 <= i < m implies kept[i] == amounts.subrange(k - m, k)[i] by {
        assert(kept[i] == (zeros(n) + amounts).subrange(k, k + n)[n - m + i]);
        assert((zeros(n) + amounts)[k + n - m + i] == amounts[k - m + i]);
    };
    assert(kept =~= amounts.subrange(k - m, k));
}

} // verus!
