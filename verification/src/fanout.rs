//! Fanout coordination: admission, target resolution, and aggregation.
//!
//! Each inbound purge/ban request is handled in two verified steps. A plan
//! step charges the token bucket and resolves the target nodes (admission
//! always happens first, so capacity is spent even when the tier turns out
//! not to exist). The caller then dispatches the command to every target
//! over the network and hands the per-node outcomes back to an aggregation
//! step, which builds the single caller-facing result: the list of nodes
//! that succeeded, an overall-success flag that is true exactly when that
//! list is non-empty, and a message carrying the success count.

use vstd::prelude::*;
use crate::bucket::TokenBucket;
use crate::registry::Registry;
use crate::numfmt::{dec_string, spec_dec};

verus! {

/// Cost of a single-tier purge or ban.
pub const TIER_COST: usize = 1;

/// Cost of an all-tiers fanout purge: a higher price for the larger blast
/// radius.
pub const FANOUT_COST: usize = 10;

/// The two request-terminating conditions distinguishable from a normal
/// aggregate response.
#[derive(Clone, Copy, Debug, PartialEq, Eq, Structural)]
pub enum PurgeError {
    /// The token bucket rejected the request; the caller should back off.
    RateLimited,
    /// The named tier is not in the registry.
    TierNotFound,
}

impl PurgeError {
    /// The HTTP-style status this error maps to.
    pub open spec fn spec_status(self) -> u16 {
        match self {
            PurgeError::RateLimited => 429,
            PurgeError::TierNotFound => 404,
        }
    }

    /// Status mapping: rate-limiter rejection is "too many requests",
    /// an unknown tier is "not found".
    pub fn status_code(&self) -> (c: u16)
        ensures
            c == self.spec_status(),
    {
        match self {
            PurgeError::RateLimited => 429,
            PurgeError::TierNotFound => 404,
        }
    }
}

/// An inbound invalidation request: the target URL and, for bans, an
/// optional explicit pattern.
pub struct PurgeRequest {
    pub url: String,
    pub pattern: Option<String>,
}

impl PurgeRequest {
    /// The pattern a ban uses: the explicit one when supplied, else the
    /// URL itself (ban falls back to exact-URL matching).
    pub open spec fn spec_effective_pattern(self) -> Seq<char> {
        match self.pattern {
            Some(p) => p@,
            None => self.url@,
        }
    }

    /// Resolve the pattern for a ban, defaulting to the URL.
    pub fn effective_pattern(self) -> (p: String)
        ensures
            p@ == self.spec_effective_pattern(),
    {
        match self.pattern {
            Some(p) => p,
            None => self.url,
        }
    }
}

/// The aggregate result of one fanout request.
pub struct PurgeResponse {
    pub success: bool,
    pub message: String,
    pub purged_nodes: Vec<String>,
}

/// One all-tiers dispatch target: the tier it belongs to and the node
/// address.
pub struct Target {
    pub tier: String,
    pub node: String,
}

/// What one plan step leaves behind: the bucket state and either the
/// resolved node views or the terminating error.
pub open spec fn spec_plan_outcome(
    b: TokenBucket,
    reg: Registry,
    tier: Seq<char>,
) -> (TokenBucket, Result<Seq<Seq<char>>, PurgeError>) {
    let after = b.spec_after(TIER_COST as int);
    if !b.spec_admits(TIER_COST as int) {
        (after, Err(PurgeError::RateLimited))
    } else if !reg.spec_has(tier) {
        (after, Err(PurgeError::TierNotFound))
    } else {
        (after, Ok(reg.spec_nodes(tier)))
    }
}

/// Admit one single-tier operation and resolve its targets.
///
/// The bucket is charged first: its state moves to `spec_after(TIER_COST)`
/// on every path, so a request for an unknown tier spends capacity exactly
/// as one for a known tier does.
pub fn plan_tier_op<'a>(
    bucket: &mut TokenBucket,
    reg: &'a Registry,
    tier: &String,
) -> (r: Result<&'a Vec<String>, PurgeError>)
    requires
        old(bucket).wf(),
        reg.wf(),
    ensures
        final(bucket).wf(),
        *final(bucket) == (spec_plan_outcome(*old(bucket), *reg, tier@).0),
        (match r {
            Ok(nodes) => spec_plan_outcome(*old(bucket), *reg, tier@).1
                == Ok::<Seq<Seq<char>>, PurgeError>(nodes.deep_view()),
            Err(e) => spec_plan_outcome(*old(bucket), *reg, tier@).1
                == Err::<Seq<Seq<char>>, PurgeError>(e),
        }),
{
    if !bucket.consume(TIER_COST) {
        return Err(PurgeError::RateLimited);
    }
    match reg.resolve(tier) {
        Some(nodes) => Ok(nodes),
        None => Err(PurgeError::TierNotFound),
    }
}

/// The dispatch targets of one tier entry, as (tier name, node address)
/// view pairs in node order.
pub open spec fn spec_tier_targets(t: crate::registry::TierNodes) -> Seq<(Seq<char>, Seq<char>)> {
    Seq::new(t.nodes@.len(), |j: int| (t.name@, t.nodes@[j]@))
}

/// The targets of the first `k` tier entries, in registry order.
pub open spec fn spec_targets_prefix(reg: Registry, k: int) -> Seq<(Seq<char>, Seq<char>)>
    decreases k,
{
    if k <= 0 {
        Seq::empty()
    } else {
        spec_targets_prefix(reg, k - 1) + spec_tier_targets(reg.tiers@[k - 1])
    }
}

/// Every (tier, node) pair in the registry, in registry order.
pub open spec fn spec_all_targets(reg: Registry) -> Seq<(Seq<char>, Seq<char>)> {
    spec_targets_prefix(reg, reg.tiers@.len() as int)
}

/// View of a built target list.
pub open spec fn spec_targets_view(ts: Seq<Target>) -> Seq<(Seq<char>, Seq<char>)> {
    ts.map(|i: int, t: Target| (t.tier@, t.node@))
}

/// Admit one all-tiers fanout and list every target node.
///
/// The bucket is charged `FANOUT_COST` on every path. A tier with no nodes
/// contributes nothing and causes no error.
pub fn plan_fanout(bucket: &mut TokenBucket, reg: &Registry) -> (r: Result<Vec<Target>, PurgeError>)
    requires
        old(bucket).wf(),
    ensures
        final(bucket).wf(),
        *final(bucket) == (old(bucket).spec_after(FANOUT_COST as int)),
        r is Ok <==> old(bucket).spec_admits(FANOUT_COST as int),
        (match r {
            Ok(ts) => spec_targets_view(ts@) == spec_all_targets(*reg),
            Err(e) => e is RateLimited,
        }),
{
    if !bucket.consume(FANOUT_COST) {
        return Err(PurgeError::RateLimited);
    }
    let mut ts: Vec<Target> = Vec::new();
    let nt: usize = reg.tiers.len();
    let mut i: usize = 0;
    while i < nt
        invariant
            nt == reg.tiers@.len(),
            i <= nt,
            spec_targets_view(ts@) == spec_targets_prefix(*reg, i as int),
        decreases nt - i,
    {
        let nn: usize = reg.tiers[i].nodes.len();
        let mut j: usize = 0;
        while j < nn
            invariant
                nt == reg.tiers@.len(),
                i < nt,
                nn == reg.tiers@[i as int].nodes@.len(),
                j <= nn,
                spec_targets_view(ts@) == spec_targets_prefix(*reg, i as int)
                    + spec_tier_targets(reg.tiers@[i as int]).take(j as int),
            decreases nn - j,
        {
            let t = Target {
                tier: reg.tiers[i].name.clone(),
                node: reg.tiers[i].nodes[j].clone(),
            };
            ts.push(t);
            proof {
                let prev = spec_targets_prefix(*reg, i as int) + spec_tier_targets(
                    reg.tiers@[i as int],
                ).take(j as int);
                let pair = (reg.tiers@[i as int].name@, reg.tiers@[i as int].nodes@[j as int]@);
                assert(spec_targets_view(ts@).len() == prev.len() + 1);
                assert(spec_targets_view(ts@)[prev.len() as int] == pair);
                assert(spec_targets_view(ts@) =~~= prev.push(pair));
                assert(spec_tier_targets(reg.tiers@[i as int]).take(j as int + 1) =~~=
                    spec_tier_targets(reg.tiers@[i as int]).take(j as int).push(pair));
                assert(prev.push(pair) =~~= spec_targets_prefix(*reg, i as int)
                    + spec_tier_targets(reg.tiers@[i as int]).take(j as int + 1));
                assert(spec_targets_view(ts@) =~~= spec_targets_prefix(*reg, i as int)
                    + spec_tier_targets(reg.tiers@[i as int]).take(j as int + 1));
            }
            j = j + 1;
        }
        proof {
            assert(spec_tier_targets(reg.tiers@[i as int]).take(nn as int)
                =~~= spec_tier_targets(reg.tiers@[i as int]));
        }
        i = i + 1;
    }
    Ok(ts)
}

/// Of `items`, those whose outcome among the first `k` is a success, in
/// order.
pub open spec fn spec_successes_prefix<T>(items: Seq<T>, outcomes: Seq<bool>, k: int) -> Seq<T>
    decreases k,
{
    if k <= 0 {
        Seq::empty()
    } else {
        spec_successes_prefix(items, outcomes, k - 1)
            + (if outcomes[k - 1] {
                seq![items[k - 1]]
            } else {
                Seq::<T>::empty()
            })
    }
}

/// Of `items`, those whose outcome is a success, in order.
pub open spec fn spec_successes<T>(items: Seq<T>, outcomes: Seq<bool>) -> Seq<T> {
    spec_successes_prefix(items, outcomes, items.len() as int)
}

/// The caller-facing identifier of an all-tiers target: `tier/node`.
pub open spec fn spec_target_id(t: (Seq<char>, Seq<char>)) -> Seq<char> {
    t.0 + "/"@ + t.1
}

/// The message of an aggregate result: the given prefix, the success
/// count in decimal, then " nodes".
pub open spec fn spec_message(prefix: Seq<char>, n: nat) -> Seq<char> {
    prefix + spec_dec(n) + " nodes"@
}

/// Fold per-node outcomes of a single-tier operation into the aggregate
/// result. `outcomes[i]` reports the dispatch to `targets[i]`. The result
/// lists exactly the nodes that succeeded, is successful iff at least one
/// did, and its message counts them even when none did.
pub fn aggregate(prefix: &str, targets: &Vec<String>, outcomes: &Vec<bool>) -> (r: PurgeResponse)
    requires
        targets@.len() == outcomes@.len(),
    ensures
        r.purged_nodes.deep_view() == spec_successes(targets.deep_view(), outcomes@),
        r.success == (spec_successes(targets.deep_view(), outcomes@).len() > 0),
        r.message@ == spec_message(prefix@, spec_successes(targets.deep_view(), outcomes@).len()),
{
    let n: usize = targets.len();
    let mut purged: Vec<String> = Vec::new();
    let mut i: usize = 0;
    while i < n
        invariant
            n == targets@.len(),
            n == outcomes@.len(),
            i <= n,
            purged.deep_view() == spec_successes_prefix(targets.deep_view(), outcomes@, i as int),
        decreases n - i,
    {
        if outcomes[i] {
            purged.push(targets[i].clone());
            proof {
                assert(purged.deep_view() =~= spec_successes_prefix(
                    targets.deep_view(),
                    outcomes@,
                    i as int + 1,
                ));
            }
        } else {
            proof {
                assert(purged.deep_view() =~= spec_successes_prefix(
                    targets.deep_view(),
                    outcomes@,
                    i as int + 1,
                ));
            }
        }
        i = i + 1;
    }
    proof {
        assert(targets.deep_view().len() == targets@.len());
        assert(purged.deep_view().len() == purged@.len());
    }
    let count: usize = purged.len();
    let mut message: String = prefix.to_owned();
    let num = dec_string(count);
    message.append(num.as_str());
    message.append(" nodes");
    PurgeResponse { success: count > 0, message, purged_nodes: purged }
}

/// Fold per-node outcomes of an all-tiers fanout into the aggregate
/// result. Succeeded targets are reported as `tier/node` identifiers.
pub fn aggregate_fanout(prefix: &str, targets: &Vec<Target>, outcomes: &Vec<bool>) -> (r:
    PurgeResponse)
    requires
        targets@.len() == outcomes@.len(),
    ensures
        r.purged_nodes.deep_view() == spec_successes(
            spec_targets_view(targets@).map_values(|t: (Seq<char>, Seq<char>)| spec_target_id(t)),
            outcomes@,
        ),
        r.success == (r.purged_nodes.deep_view().len() > 0),
        r.message@ == spec_message(prefix@, r.purged_nodes.deep_view().len() as nat),
{
    let ghost ids = spec_targets_view(targets@).map_values(
        |t: (Seq<char>, Seq<char>)| spec_target_id(t),
    );
    let n: usize = targets.len();
    let mut purged: Vec<String> = Vec::new();
    let mut i: usize = 0;
    while i < n
        invariant
            n == targets@.len(),
            n == outcomes@.len(),
            ids == spec_targets_view(targets@).map_values(
                |t: (Seq<char>, Seq<char>)| spec_target_id(t),
            ),
            i <= n,
            purged.deep_view() == spec_successes_prefix(ids, outcomes@, i as int),
        decreases n - i,
    {
        if outcomes[i] {
            let mut id: String = targets[i].tier.clone();
            id.append("/");
            id.append(targets[i].node.as_str());
            purged.push(id);
            proof {
                assert(purged.deep_view() =~= spec_successes_prefix(ids, outcomes@, i as int + 1));
            }
        } else {
            proof {
                assert(purged.deep_view() =~= spec_successes_prefix(ids, outcomes@, i as int + 1));
            }
        }
        i = i + 1;
    }
    proof {
        assert(ids.len() == targets@.len());
        assert(purged.deep_view().len() == purged@.len());
    }
    let count: usize = purged.len();
    let mut message: String = prefix.to_owned();
    let num = dec_string(count);
    message.append(num.as_str());
    message.append(" nodes");
    PurgeResponse { success: count > 0, message, purged_nodes: purged }
}

} // verus!
