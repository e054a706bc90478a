//! The library-wide laws, stated and proved over the spec-level models.

use vstd::prelude::*;
use crate::bucket::TokenBucket;
use crate::registry::Registry;
use crate::fanout::{spec_plan_outcome, spec_successes, spec_successes_prefix, TIER_COST};

verus! {

/// One admission step keeps the bucket well formed, keeps its
/// configuration, and keeps the balance within `[0, max_tokens]`.
pub proof fn lemma_after_wf(b: TokenBucket, n: int)
    requires
        b.wf(),
        n >= 0,
    ensures
        b.spec_after(n).wf(),
        b.spec_after(n).rate == b.rate,
        b.spec_after(n).max_tokens == b.max_tokens,
        b.spec_after(n).tokens <= b.max_tokens,
{
}

/// The bucket state after a whole sequence of admission attempts.
pub open spec fn spec_run(b: TokenBucket, costs: Seq<int>) -> TokenBucket
    decreases costs.len(),
{
    if costs.len() == 0 {
        b
    } else {
        spec_run(b.spec_after(costs[0]), costs.drop_first())
    }
}

/// The total cost admitted over a whole sequence of admission attempts.
pub open spec fn spec_admitted_sum(b: TokenBucket, costs: Seq<int>) -> int
    decreases costs.len(),
{
    if costs.len() == 0 {
        0
    } else {
        (if b.spec_admits(costs[0]) {
            costs[0]
        } else {
            0
        }) + spec_admitted_sum(b.spec_after(costs[0]), costs.drop_first())
    }
}

/// Token-bucket budget law: over any sequence of admission attempts with
/// non-negative costs, the balance stays within `[0, max_tokens]`, and the
/// sum of all admitted costs never exceeds the starting balance plus one
/// refill per attempt — hence never `max_tokens + rate * attempts`.
pub proof fn lemma_token_budget(b: TokenBucket, costs: Seq<int>)
    requires
        b.wf(),
        forall|i: int| 0 <= i < costs.len() ==> costs[i] >= 0,
    ensures
        spec_run(b, costs).wf(),
        spec_run(b, costs).tokens <= b.max_tokens,
        spec_run(b, costs).max_tokens == b.max_tokens,
        spec_run(b, costs).rate == b.rate,
        spec_admitted_sum(b, costs) + spec_run(b, costs).tokens <= b.tokens + costs.len()
            * b.rate,
        spec_admitted_sum(b, costs) <= b.max_tokens + costs.len() * b.rate,
    decreases costs.len(),
{
    if costs.len() == 0 {
    } else {
        let b1 = b.spec_after(costs[0]);
        let rest = costs.drop_first();
        lemma_after_wf(b, costs[0]);
        assert(forall|i: int| 0 <= i < rest.len() ==> rest[i] >= 0);
        lemma_token_budget(b1, rest);
        assert((costs.len() - 1) * b.rate + b.rate == costs.len() * b.rate)
            by (nonlinear_arith);
    }
}

/// Running one more attempt after a sequence is the sequence's result put
/// through one more step.
proof fn lemma_run_snoc(b: TokenBucket, costs: Seq<int>, c: int)
    ensures
        spec_run(b, costs.push(c)) == spec_run(b, costs).spec_after(c),
    decreases costs.len(),
{
    let snoc = costs.push(c);
    assert(snoc.len() == costs.len() + 1);
    if costs.len() == 0 {
        assert(snoc[0] == c);
        assert(snoc.drop_first() =~= Seq::<int>::empty());
        assert(spec_run(b, snoc) == spec_run(b.spec_after(c), snoc.drop_first()));
        assert(spec_run(b.spec_after(c), snoc.drop_first()) == b.spec_after(c));
        assert(spec_run(b, costs) == b);
    } else {
        assert(snoc[0] == costs[0]);
        assert(snoc.drop_first() =~= costs.drop_first().push(c));
        assert(spec_run(b, snoc) == spec_run(b.spec_after(costs[0]), snoc.drop_first()));
        lemma_run_snoc(b.spec_after(costs[0]), costs.drop_first(), c);
        assert(spec_run(b, costs) == spec_run(b.spec_after(costs[0]), costs.drop_first()));
    }
}

/// The bucket reached after the first `k` attempts is well formed and
/// keeps the starting capacity.
proof fn lemma_run_prefix_wf(b: TokenBucket, costs: Seq<int>, k: int)
    requires
        b.wf(),
        forall|i: int| 0 <= i < costs.len() ==> costs[i] >= 0,
        0 <= k <= costs.len(),
    ensures
        spec_run(b, costs.take(k)).wf(),
        spec_run(b, costs.take(k)).max_tokens == b.max_tokens,
    decreases k,
{
    if k == 0 {
        assert(costs.take(0) =~= Seq::<int>::empty());
    } else {
        lemma_run_prefix_wf(b, costs, k - 1);
        assert(costs.take(k) =~= costs.take(k - 1).push(costs[k - 1]));
        lemma_run_snoc(b, costs.take(k - 1), costs[k - 1]);
        lemma_after_wf(spec_run(b, costs.take(k - 1)), costs[k - 1]);
    }
}

/// Token-bucket bound law: after every single admission attempt of a
/// sequence, the balance is still no more than the capacity (and, being
/// unsigned, never negative).
pub proof fn lemma_balance_always_bounded(b: TokenBucket, costs: Seq<int>)
    requires
        b.wf(),
        forall|i: int| 0 <= i < costs.len() ==> costs[i] >= 0,
    ensures
        forall|k: int|
            0 <= k <= costs.len() ==> (#[trigger] spec_run(b, costs.take(k))).tokens
                <= b.max_tokens,
{
    assert forall|k: int| 0 <= k <= costs.len() implies (#[trigger] spec_run(
        b,
        costs.take(k),
    )).tokens <= b.max_tokens by {
        lemma_run_prefix_wf(b, costs, k);
    }
}

/// Admission-ordering law: the rate limiter is charged before the tier is
/// looked up, so a request for a tier that is missing from the registry
/// leaves the bucket in exactly the state a request for a present tier
/// does.
pub proof fn lemma_admission_before_existence(
    b: TokenBucket,
    reg: Registry,
    present: Seq<char>,
    missing: Seq<char>,
)
    requires
        reg.spec_has(present),
        !reg.spec_has(missing),
    ensures
        spec_plan_outcome(b, reg, present).0 == spec_plan_outcome(b, reg, missing).0,
        !b.spec_admits(TIER_COST as int) ==> spec_plan_outcome(b, reg, present).1
            == spec_plan_outcome(b, reg, missing).1,
{
}

/// The number of successes among the first `k` outcomes.
pub open spec fn spec_count_true_prefix(outcomes: Seq<bool>, k: int) -> int
    decreases k,
{
    if k <= 0 {
        0
    } else {
        spec_count_true_prefix(outcomes, k - 1) + (if outcomes[k - 1] {
            1int
        } else {
            0int
        })
    }
}

/// The number of successes among all outcomes.
pub open spec fn spec_count_true(outcomes: Seq<bool>) -> int {
    spec_count_true_prefix(outcomes, outcomes.len() as int)
}

/// Helper: over the first `k` outcomes, the success list has one entry per
/// successful outcome, and no more entries than `k`.
proof fn lemma_successes_prefix_len<T>(items: Seq<T>, outcomes: Seq<bool>, k: int)
    requires
        0 <= k,
    ensures
        spec_successes_prefix(items, outcomes, k).len() == spec_count_true_prefix(outcomes, k),
        spec_count_true_prefix(outcomes, k) <= k,
    decreases k,
{
    if k > 0 {
        lemma_successes_prefix_len(items, outcomes, k - 1);
    }
}

/// Partial-failure isolation law: when exactly `f` of the `n` dispatched
/// targets fail, the success list has exactly `n - f` entries, and the
/// aggregate is successful exactly when some target succeeded — an empty
/// target set therefore yields an unsuccessful, empty, error-free result.
pub proof fn lemma_partial_failure<T>(items: Seq<T>, outcomes: Seq<bool>)
    requires
        items.len() == outcomes.len(),
    ensures
        spec_successes(items, outcomes).len() == spec_count_true(outcomes),
        spec_successes(items, outcomes).len() + (outcomes.len() - spec_count_true(outcomes))
            == outcomes.len(),
        (spec_successes(items, outcomes).len() > 0) <==> spec_count_true(outcomes) > 0,
        items.len() == 0 ==> spec_successes(items, outcomes) == Seq::<T>::empty(),
{
    lemma_successes_prefix_len(items, outcomes, items.len() as int);
}

/// Helper: when the first `k` outcomes all succeed, the success list over
/// them is the target list itself.
proof fn lemma_successes_prefix_all_true<T>(items: Seq<T>, outcomes: Seq<bool>, k: int)
    requires
        0 <= k <= items.len(),
        k <= outcomes.len(),
        forall|i: int| 0 <= i < outcomes.len() ==> outcomes[i],
    ensures
        spec_successes_prefix(items, outcomes, k) == items.take(k),
    decreases k,
{
    if k > 0 {
        lemma_successes_prefix_all_true(items, outcomes, k - 1);
        assert(spec_successes_prefix(items, outcomes, k) =~= items.take(k));
    } else {
        assert(spec_successes_prefix(items, outcomes, k) =~= items.take(k));
    }
}

/// Idempotence law: two identical, back-to-back admitted commands are
/// independent. Each spends its own cost on top of its own refill, and
/// with all nodes healthy each aggregates to the same fully successful
/// result — nothing is deduplicated or cached between the two calls.
pub proof fn lemma_repeat_command_independent<T>(
    b: TokenBucket,
    cost: int,
    items: Seq<T>,
    outcomes: Seq<bool>,
)
    requires
        b.wf(),
        cost >= 0,
        b.spec_admits(cost),
        b.spec_after(cost).spec_admits(cost),
        items.len() == outcomes.len(),
        forall|i: int| 0 <= i < outcomes.len() ==> outcomes[i],
    ensures
        b.spec_after(cost).tokens == b.spec_refill() - cost,
        b.spec_after(cost).spec_after(cost).tokens == b.spec_after(cost).spec_refill() - cost,
        spec_successes(items, outcomes) == items,
        items.len() > 0 ==> spec_successes(items, outcomes).len() > 0,
{
    lemma_after_wf(b, cost);
    lemma_successes_prefix_all_true(items, outcomes, items.len() as int);
    assert(items.take(items.len() as int) =~= items);
}

} // verus!
