use vstd::prelude::*;

use crate::logical_plan::Plan;

verus! {

/// The plan the rule pipeline makes of `p`. The pipeline holds no rewrite
/// rule yet, so every plan is already optimal.
pub open spec fn optimized(p: Plan) -> Plan {
    p
}

/// The rule-pass pipeline over logical plans.
pub struct Optimizer;

impl Optimizer {
    pub fn optimize(plan: &Plan) -> (r: &Plan)
        ensures
            *r == optimized(*plan),
    {
        plan
    }
}

/// Optimizing an optimized plan changes nothing.
pub proof fn optimize_is_idempotent(p: Plan)
    ensures
        optimized(optimized(p)) == optimized(p),
{
}

} // verus!
