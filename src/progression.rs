//! Experience points and levels.
//!
//! A user's standing is a pair `(level, progress)`, where `progress` is the
//! experience gathered towards the next level only. Experience gained is
//! treated as one pool that buys levels, in order, at the price
//! `requirement(level)`, until the pool can no longer pay for the next one.
use vstd::prelude::*;

verus! {

/// Upper bound on the rounds `Xp::apply` may take, whatever the formula.
pub const MAX_LEVEL_STEPS: u32 = 10_000;

/// Experience needed to complete `level`: `5·level² + 50·level + 100`,
/// clamped to `u32::MAX`.
pub open spec fn requirement(level: nat) -> nat {
    let raw: nat = 5 * (level * level) + 50 * level + 100;
    if raw > u32::MAX {
        u32::MAX as nat
    } else {
        raw as nat
    }
}

/// Experience needed to complete the `n` levels that start at `level`.
pub open spec fn cost(level: nat, n: nat) -> nat
    decreases n,
{
    if n == 0 {
        0
    } else {
        cost(level, (n - 1) as nat) + requirement((level + n - 1) as nat)
    }
}

/// What a pool of experience buys from `level` on: the number of levels
/// completed and the experience left over. Levels are not bought past
/// `u32::MAX`.
pub open spec fn settle(level: nat, pool: nat) -> (nat, nat)
    decreases pool,
{
    if level >= u32::MAX || pool < requirement(level) {
        (0, pool)
    } else {
        let rest = settle(level + 1, (pool - requirement(level)) as nat);
        (rest.0 + 1, rest.1)
    }
}

/// The outcome of gaining `gain` experience at `(level, progress)`: the new
/// level, the new progress and the number of levels gained. Once the level is
/// at its maximum, `u32::MAX`, whose requirement is `u32::MAX`, the progress
/// is clamped to `u32::MAX - 1` so that the pair stays normalized.
pub open spec fn apply_spec(level: nat, progress: nat, gain: nat) -> (nat, nat, nat) {
    let (n, left) = settle(level, progress + gain);
    let clamped = if left >= u32::MAX {
        (u32::MAX - 1) as nat
    } else {
        left
    };
    (level + n, clamped, n)
}

/// Experience still missing to complete `level`, floored at zero.
pub open spec fn xp_to_next_spec(level: nat, progress: nat) -> nat {
    if progress >= requirement(level) {
        0
    } else {
        (requirement(level) - progress) as nat
    }
}

/// The requirement never decreases from one level to the next.
pub proof fn lemma_requirement_monotonic(level: nat)
    ensures
        requirement(level + 1) >= requirement(level),
{
    lemma_requirement_ordered(level, level + 1);
}

/// The requirement never decreases as the level grows.
pub proof fn lemma_requirement_ordered(lo: nat, hi: nat)
    requires
        lo <= hi,
    ensures
        requirement(lo) <= requirement(hi),
{
    assert(lo * lo <= hi * hi) by (nonlinear_arith)
        requires
            lo <= hi,
    ;
}

/// Every level costs at least 100.
pub proof fn lemma_requirement_positive(level: nat)
    ensures
        100 <= requirement(level) <= u32::MAX,
{
    lemma_requirement_ordered(0, level);
}


/// Completing the first level and then `n` more costs the same as
/// completing `n + 1` levels from the start.
pub proof fn lemma_cost_shift(level: nat, n: nat)
    ensures
        cost(level, n + 1) == requirement(level) + cost(level + 1, n),
    decreases n,
{
    assert(cost(level, n + 1) == cost(level, n) + requirement(level + n));
    if n == 0 {
        assert(cost(level, 0) == 0);
        assert(cost(level + 1, 0) == 0);
    } else {
        lemma_cost_shift(level, (n - 1) as nat);
        assert(cost(level + 1, n) == cost(level + 1, (n - 1) as nat) + requirement(level + n));
    }
}

/// The last `k` of `m + k` levels each cost at least as much as level
/// `level + m`.
pub proof fn lemma_cost_tail(level: nat, m: nat, k: nat)
    ensures
        cost(level, m + k) >= k * requirement(level + m),
    decreases k,
{
    let r = requirement(level + m);
    if k == 0 {
        assert(k * r == 0);
    } else {
        let j = (k - 1) as nat;
        lemma_cost_tail(level, m, j);
        assert(cost(level, m + k) == cost(level, m + j) + requirement(level + m + j));
        lemma_requirement_ordered(level + m, level + m + j);
        assert(k * r == j * r + r) by (nonlinear_arith)
            requires
                k == j + 1,
        ;
    }
}

/// Ten thousand levels cost more than any pool of two `u32` amounts.
pub proof fn lemma_step_cap_unreachable(level: nat)
    ensures
        cost(level, MAX_LEVEL_STEPS as nat) > 2 * (u32::MAX as nat),
{
    lemma_cost_tail(level, 5000, 5000);
    lemma_requirement_ordered(5000, level + 5000);
    assert(requirement(5000) == 125_250_100);
}

/// What `settle` returns: the levels bought stay within `u32::MAX`, the
/// experience is conserved, and what is left over cannot pay for the next
/// level unless the level is at its maximum.
pub proof fn lemma_settle_facts(level: nat, pool: nat)
    requires
        level <= u32::MAX,
    ensures
        level + settle(level, pool).0 <= u32::MAX,
        pool == cost(level, settle(level, pool).0) + settle(level, pool).1,
        level + settle(level, pool).0 < u32::MAX ==> settle(level, pool).1 < requirement(
            level + settle(level, pool).0,
        ),
    decreases pool,
{
    if !(level >= u32::MAX || pool < requirement(level)) {
        lemma_requirement_positive(level);
        let rest_pool = (pool - requirement(level)) as nat;
        lemma_settle_facts(level + 1, rest_pool);
        lemma_cost_shift(level, settle(level + 1, rest_pool).0);
    }
}


/// The pair `(level, progress)` that renormalizing returns is already
/// normalized: renormalizing it again changes neither.
pub proof fn lemma_normalize_settles_pair(level: u32, progress: u32)
    ensures
        ({
            let once = apply_spec(level as nat, progress as nat, 0);
            let twice = apply_spec(once.0, once.1, 0);
            twice.0 == once.0 && twice.1 == once.1 && twice.2 == 0
        }),
{
    let once = apply_spec(level as nat, progress as nat, 0);
    lemma_settle_facts(level as nat, progress as nat);
    assert(settle(once.0, once.1) == (0nat, once.1));
}

/// Renormalizing is idempotent: applying no experience to the result of
/// applying none returns that same result. This holds on every pair that
/// renormalizing does not level up; on any other pair the second call reports
/// zero levels gained where the first reported some.
pub proof fn lemma_normalize_idempotent(level: u32, progress: u32)
    requires
        progress < requirement(level as nat) || level == u32::MAX,
    ensures
        ({
            let once = apply_spec(level as nat, progress as nat, 0);
            apply_spec(once.0, once.1, 0) == once
        }),
{
    lemma_normalize_settles_pair(level, progress);
}

/// Experience is conserved: the experience held before plus the experience
/// gained equals the price of the levels completed plus the progress left,
/// except where the progress was clamped at the maximum level.
pub proof fn lemma_apply_conserves(level: u32, progress: u32, gain: u32)
    ensures
        ({
            let (new_level, new_progress, gained) = apply_spec(
                level as nat,
                progress as nat,
                gain as nat,
            );
            &&& new_level == level + gained
            &&& new_level <= u32::MAX
            &&& new_progress <= u32::MAX
            &&& (progress + gain == cost(level as nat, gained) + new_progress || (new_level
                == u32::MAX && new_progress == u32::MAX - 1 && progress + gain > cost(
                level as nat,
                gained,
            ) + new_progress))
        }),
{
    lemma_settle_facts(level as nat, progress as nat + gain as nat);
}

/// After gaining experience, or renormalizing with no gain, the pair is
/// normalized: the progress is short of the requirement of the new level.
pub proof fn lemma_apply_normalizes(level: u32, progress: u32, gain: u32)
    ensures
        ({
            let (new_level, new_progress, _) = apply_spec(
                level as nat,
                progress as nat,
                gain as nat,
            );
            new_progress < requirement(new_level)
        }),
{
    lemma_settle_facts(level as nat, progress as nat + gain as nat);
    assert(requirement(u32::MAX as nat) == u32::MAX);
}

/// The progression engine: pure functions over `(level, progress)` pairs.
pub struct Xp;

impl Xp {
    /// The experience required to complete `level`.
    pub fn req_for(level: u32) -> (r: u32)
        ensures
            r == requirement(level as nat),
    {
        let l = level as u128;
        proof {
            assert(l * l <= 0xffff_ffff * 0xffff_ffff) by (nonlinear_arith)
                requires
                    l <= 0xffff_ffff,
            ;
        }
        let raw: u128 = 5 * (l * l) + 50 * l + 100;
        if raw > u32::MAX as u128 {
            u32::MAX
        } else {
            raw as u32
        }
    }

    /// The experience still missing to complete `level` with `prog` gathered.
    pub fn xp_to_next(level: u32, prog: u32) -> (r: u32)
        ensures
            r == xp_to_next_spec(level as nat, prog as nat),
            r == 0 <==> prog >= requirement(level as nat),
    {
        let need = Self::req_for(level);
        need.saturating_sub(prog)
    }

    /// Gains `xp_gain` experience at `(level, prog)`; returns the new level,
    /// the new progress and the number of levels gained. With `xp_gain == 0`
    /// this renormalizes a stored pair.
    pub fn apply(level: u32, prog: u32, xp_gain: u32) -> (r: (u32, u32, u32))
        ensures
            (r.0 as nat, r.1 as nat, r.2 as nat) == apply_spec(
                level as nat,
                prog as nat,
                xp_gain as nat,
            ),
    {
        let ghost start = level as nat;
        let ghost total = prog as nat + xp_gain as nat;
        let mut level = level;
        let mut pool: u64 = prog as u64 + xp_gain as u64;
        let mut steps: u32 = 0;
        while steps < MAX_LEVEL_STEPS && level < u32::MAX && pool >= Self::req_for(level) as u64
            invariant
                level == start + steps,
                steps <= MAX_LEVEL_STEPS,
                pool <= total,
                total <= 2 * (u32::MAX as nat),
                cost(start, steps as nat) + pool == total,
                settle(start, total).0 == steps + settle(level as nat, pool as nat).0,
                settle(start, total).1 == settle(level as nat, pool as nat).1,
            decreases pool,
        {
            let need = Self::req_for(level);
            proof {
                lemma_requirement_positive(level as nat);
            }
            pool = pool - need as u64;
            level = level + 1;
            steps = steps + 1;
        }
        proof {
            if steps == MAX_LEVEL_STEPS {
                lemma_step_cap_unreachable(start);
            }
        }
        let progress = if pool >= u32::MAX as u64 {
            u32::MAX - 1
        } else {
            pool as u32
        };
        (level, progress, steps)
    }
}

} // verus!
