//! Weighted random choice of two parents among the tips.
//!
//! Weights are non-negative integers; a tip is drawn with probability
//! proportional to its weight.
use vstd::prelude::*;
use crate::errors::NyxError;
use crate::hash::hash_eq;
use crate::random::random_below;

verus! {

/// Default tip-selection temperature, in thousandths (one half).
pub const TIP_SELECTION_ALPHA_PERMILLE: u64 = 500;

/// How many times a second draw is retried when it repeats the first.
pub const MAX_REDRAWS: u64 = 10;

/// Position of the first item of `s` from `k` on that differs from `t`, or
/// -1 where there is none.
pub open spec fn first_other(s: Seq<[u8; 32]>, t: [u8; 32], k: int) -> int
    decreases s.len() - k,
{
    if k < 0 || k >= s.len() {
        -1
    } else if s[k] != t {
        k
    } else {
        first_other(s, t, k + 1)
    }
}

/// Sum of the weights.
pub open spec fn weight_sum(w: Seq<u64>) -> int
    decreases w.len(),
{
    if w.len() == 0 {
        0
    } else {
        weight_sum(w.drop_last()) + w.last()
    }
}

/// The index that the draw `r` selects: the first whose running weight sum
/// exceeds `r`, or the last index where none does.
pub open spec fn pick_index(w: Seq<u64>, r: int, i: int) -> int
    decreases w.len() - i,
{
    if i >= w.len() - 1 {
        w.len() - 1
    } else if r < weight_sum(w.take(i + 1)) {
        i
    } else {
        pick_index(w, r, i + 1)
    }
}

/// Index selected by the draw `r` over `weights`.
pub fn pick_weighted(weights: &Vec<u64>, r: u64) -> (i: usize)
    requires
        weights@.len() > 0,
        weight_sum(weights@) <= u64::MAX,
    ensures
        i < weights@.len(),
        i == pick_index(weights@, r as int, 0),
{
    let ghost w = weights@;
    let mut acc: u64 = 0;
    let mut i: usize = 0;
    while i < weights.len() - 1
        invariant
            w == weights@,
            weights@.len() > 0,
            0 <= i < weights@.len(),
            weight_sum(w) <= u64::MAX,
            acc == weight_sum(w.take(i as int)),
            pick_index(w, r as int, 0) == pick_index(w, r as int, i as int),
        decreases weights@.len() - i,
    {
        proof {
            assert(w.take(i + 1).drop_last() =~= w.take(i as int));
            lemma_weight_sum_prefix(w, i + 1);
        }
        acc = acc + weights[i];
        if r < acc {
            return i;
        }
        i += 1;
    }
    i
}

/// A prefix never weighs more than the whole.
pub proof fn lemma_weight_sum_prefix(w: Seq<u64>, n: int)
    requires
        0 <= n <= w.len(),
    ensures
        weight_sum(w.take(n)) <= weight_sum(w),
    decreases w.len() - n,
{
    if n < w.len() {
        lemma_weight_sum_prefix(w, n + 1);
        assert(w.take(n + 1).drop_last() =~= w.take(n));
    } else {
        assert(w.take(n) =~= w);
    }
}

/// Sum of the weights, saturating at `u64::MAX`.
fn total_weight(weights: &Vec<u64>) -> (r: u64)
    ensures
        weight_sum(weights@) <= u64::MAX ==> r == weight_sum(weights@),
        weight_sum(weights@) > u64::MAX ==> r == u64::MAX,
{
    let ghost w = weights@;
    let mut acc: u64 = 0;
    let mut i: usize = 0;
    let mut saturated = false;
    while i < weights.len()
        invariant
            w == weights@,
            0 <= i <= w.len(),
            !saturated ==> acc == weight_sum(w.take(i as int)),
            saturated ==> acc == u64::MAX && weight_sum(w.take(i as int)) > u64::MAX,
        decreases w.len() - i,
    {
        proof {
            assert(w.take(i + 1).drop_last() =~= w.take(i as int));
        }
        if !saturated {
            if acc > u64::MAX - weights[i] {
                saturated = true;
                acc = u64::MAX;
            } else {
                acc = acc + weights[i];
            }
        }
        i += 1;
    }
    proof {
        assert(w.take(w.len() as int) =~= w);
        if saturated {
            lemma_weight_sum_prefix(w, w.len() as int);
        }
    }
    acc
}

/// Tip-selection parameters.
pub struct TipSelector {
    alpha_permille: u64,
}

impl TipSelector {
    /// Whether the temperature lies in `[0, 1]`.
    pub open spec fn wf(&self) -> bool {
        self.alpha_spec() <= 1000
    }

    /// The temperature, in thousandths.
    pub closed spec fn alpha_spec(&self) -> u64 {
        self.alpha_permille
    }

    /// A selector with the default temperature.
    pub fn new() -> (r: TipSelector)
        ensures
            r.alpha_spec() == TIP_SELECTION_ALPHA_PERMILLE,
            r.wf(),
    {
        TipSelector { alpha_permille: TIP_SELECTION_ALPHA_PERMILLE }
    }

    /// A selector with temperature `alpha` thousandths, clamped into `[0, 1000]`.
    pub fn with_alpha(alpha_permille: u64) -> (r: TipSelector)
        ensures
            r.alpha_spec() == if alpha_permille > 1000 { 1000 } else { alpha_permille },
            r.wf(),
    {
        let mut r = TipSelector::new();
        r.set_alpha(alpha_permille);
        r
    }

    /// The temperature, in thousandths.
    pub fn alpha(&self) -> (r: u64)
        ensures
            r == self.alpha_spec(),
    {
        self.alpha_permille
    }

    /// Sets the temperature to `alpha` thousandths, clamped into `[0, 1000]`.
    pub fn set_alpha(&mut self, alpha_permille: u64)
        ensures
            final(self).alpha_spec() == if alpha_permille > 1000 { 1000 } else { alpha_permille },
    {
        self.alpha_permille = if alpha_permille > 1000 { 1000 } else { alpha_permille };
    }

    /// Chooses two parents among `tips`, drawing each in proportion to its weight.
    ///
    /// Fails with `TipSelectionError` on an empty tip list. A single tip is
    /// returned twice. Otherwise both parents are tips, and they differ
    /// wherever the list holds two different hashes: a repeated second draw is
    /// retried up to `MAX_REDRAWS` times, then replaced by the first other tip.
    pub fn select_tips_weighted(&self, tips: &Vec<[u8; 32]>, weights: &Vec<u64>) -> (r: Result<[[u8; 32]; 2], NyxError>)
        requires
            weights@.len() == tips@.len(),
        ensures
            tips@.len() == 0 <==> r is Err,
            r is Err ==> r matches Err(NyxError::TipSelectionError(_)),
            tips@.len() == 1 ==> r == Ok::<[[u8; 32]; 2], NyxError>([tips@[0], tips@[0]]),
            r matches Ok(pair) ==> tips@.contains(pair[0]) && tips@.contains(pair[1]),
            r matches Ok(pair) ==> (exists|k: int| 0 <= k < tips@.len() && tips@[k] != pair[0]) ==> pair[0] != pair[1],
            tips@.len() >= 2 && 0 < weight_sum(weights@) < u64::MAX ==> (r matches Ok(pair) && exists|d: int|
                0 <= d < weight_sum(weights@) && pair[0] == tips@[#[trigger] pick_index(weights@, d, 0)]),
            tips@.len() >= 2 && 0 < weight_sum(weights@) < u64::MAX ==> (r matches Ok(pair) && ((exists|d: int|
                0 <= d < weight_sum(weights@) && pair[1] == tips@[#[trigger] pick_index(weights@, d, 0)])
                || (0 <= first_other(tips@, pair[0], 0) && pair[1] == tips@[first_other(tips@, pair[0], 0)]))),
    {
        if tips.len() == 0 {
            return Err(NyxError::TipSelectionError("No tips available for selection".to_string()));
        }
        if tips.len() == 1 {
            return Ok([tips[0], tips[0]]);
        }
        let first = self.draw(tips, weights);
        let mut second = self.draw(tips, weights);
        let mut attempts: u64 = 0;
        while hash_eq(&tips[second], &tips[first]) && attempts < MAX_REDRAWS
            invariant
                weights@.len() == tips@.len(),
                tips@.len() > 1,
                first < tips@.len(),
                second < tips@.len(),
                0 < weight_sum(weights@) < u64::MAX ==> exists|d: int|
                    0 <= d < weight_sum(weights@) && first == #[trigger] pick_index(weights@, d, 0),
                0 < weight_sum(weights@) < u64::MAX ==> exists|d: int|
                    0 <= d < weight_sum(weights@) && second == #[trigger] pick_index(weights@, d, 0),
            decreases MAX_REDRAWS - attempts,
        {
            second = self.draw(tips, weights);
            attempts += 1;
        }
        let t1 = tips[first];
        let mut t2 = tips[second];
        assert(tips@.contains(t1));
        assert(tips@.contains(t2));
        if hash_eq(&t2, &t1) {
            let mut k: usize = 0;
            let mut found = false;
            while k < tips.len() && !found
                invariant
                    0 <= k <= tips@.len(),
                    tips@.contains(t2),
                    !found ==> t2 == t1 && forall|j: int| 0 <= j < k ==> tips@[j] == t1,
                    !found ==> first_other(tips@, t1, 0) == first_other(tips@, t1, k as int),
                    found ==> t2 != t1 && 0 <= first_other(tips@, t1, 0) && t2 == tips@[first_other(tips@, t1, 0)],
                decreases tips@.len() - k,
            {
                if !hash_eq(&tips[k], &t1) {
                    t2 = tips[k];
                    found = true;
                }
                k += 1;
            }
        }
        Ok([t1, t2])
    }

    /// One weighted draw; uniform where the weights are all zero or overflow.
    fn draw(&self, tips: &Vec<[u8; 32]>, weights: &Vec<u64>) -> (i: usize)
        requires
            weights@.len() == tips@.len(),
            tips@.len() > 0,
        ensures
            i < tips@.len(),
            0 < weight_sum(weights@) < u64::MAX ==> exists|d: int|
                0 <= d < weight_sum(weights@) && i == #[trigger] pick_index(weights@, d, 0),
    {
        let total = total_weight(weights);
        if total == 0 || total == u64::MAX {
            let r = random_below(tips.len() as u64);
            r as usize
        } else {
            let r = random_below(total);
            let i = pick_weighted(weights, r);
            assert(0 <= r < weight_sum(weights@) && i == pick_index(weights@, r as int, 0));
            i
        }
    }
}

} // verus!
