//! Pre-flight validation of query arguments, complexity budget and depth ceiling.
use vstd::prelude::*;
use crate::error::{MoongqlError, MoongqlResult};
use crate::traits::{GqlInspectable, GqlValidatable};

verus! {

/// Validates queries against default complexity and depth limits before dispatch.
#[derive(Debug, Clone, Copy, PartialEq, Eq)]
pub struct MetricValidator {
    default_max_complexity: u32,
    default_max_depth: u32,
}

/// The limit in force: the query's own when it sets one, else the validator's default.
pub open spec fn effective_limit(local: Option<u32>, default: u32) -> u32 {
    match local {
        Some(l) => l,
        None => default,
    }
}

/// The outcome of validating a query with the given metrics against the given defaults:
/// an argument violation first, then an exceeded complexity budget, then an exceeded depth.
pub open spec fn metric_outcome(
    validation: Option<Seq<char>>,
    complexity: nat,
    local_complexity: Option<u32>,
    default_complexity: u32,
    depth: nat,
    local_depth: Option<u32>,
    default_depth: u32,
    r: MoongqlResult<()>,
) -> bool {
    let climit = effective_limit(local_complexity, default_complexity);
    let dlimit = effective_limit(local_depth, default_depth);
    match validation {
        Some(detail) => r matches Err(MoongqlError::ValidationError(m)) && m@ == detail,
        None => if complexity > climit {
            r == Err::<(), MoongqlError>(MoongqlError::ComplexityExceeded { calculated: complexity as u32, limit: climit })
        } else if depth > dlimit {
            r == Err::<(), MoongqlError>(MoongqlError::DepthExceeded { calculated: depth as u32, limit: dlimit })
        } else {
            r is Ok
        },
    }
}

impl MetricValidator {
    /// Default complexity limit.
    pub closed spec fn default_max_complexity(&self) -> u32 {
        self.default_max_complexity
    }

    /// Default depth limit.
    pub closed spec fn default_max_depth(&self) -> u32 {
        self.default_max_depth
    }

    /// A validator with the given default limits.
    pub fn new(default_max_complexity: u32, default_max_depth: u32) -> (r: Self)
        ensures
            r.default_max_complexity() == default_max_complexity,
            r.default_max_depth() == default_max_depth,
    {
        MetricValidator { default_max_complexity, default_max_depth }
    }

    /// Validates `target`: its arguments first, then its complexity against its own limit
    /// (or the default), then its depth against its own limit (or the default).
    pub fn validate<T: GqlInspectable + GqlValidatable>(&self, target: &T) -> (r: MoongqlResult<()>)
        requires
            target.spec_inspectable(),
            target.spec_validatable(),
            target.spec_complexity() <= u32::MAX,
            target.spec_depth() <= u32::MAX,
        ensures
            metric_outcome(
                target.spec_validation(),
                target.spec_complexity(),
                target.spec_max_complexity(),
                self.default_max_complexity(),
                target.spec_depth(),
                target.spec_max_depth(),
                self.default_max_depth(),
                r,
            ),
    {
        match target.validate_args() {
            Err(e) => {
                return Err(e);
            },
            Ok(()) => {},
        }
        let max_complexity = match target.max_complexity() {
            Some(l) => l,
            None => self.default_max_complexity,
        };
        let calculated_complexity = target.complexity();
        if calculated_complexity > max_complexity {
            return Err(MoongqlError::ComplexityExceeded { calculated: calculated_complexity, limit: max_complexity });
        }
        let max_depth = match target.max_depth() {
            Some(l) => l,
            None => self.default_max_depth,
        };
        let calculated_depth = target.depth();
        if calculated_depth > max_depth {
            return Err(MoongqlError::DepthExceeded { calculated: calculated_depth, limit: max_depth });
        }
        Ok(())
    }
}

/// Law: a validator is determined by its two default limits, so validators built from equal
/// limits are equal.
pub proof fn law_validator_determined_by_limits(a: MetricValidator, b: MetricValidator)
    requires
        a.default_max_complexity() == b.default_max_complexity(),
        a.default_max_depth() == b.default_max_depth(),
    ensures
        a == b,
{
}

/// Law (a target's own limit alone is in force): for a target whose arguments are valid, when
/// it sets its own complexity limit `l`, validation fails with `ComplexityExceeded` naming `l`
/// exactly when the complexity exceeds `l`, whatever the default; with no limit of its own the
/// default decides. When the complexity is within its limit, the same holds of the depth.
pub proof fn law_local_limit_in_force(
    complexity: nat,
    local_complexity: Option<u32>,
    default_complexity: u32,
    depth: nat,
    local_depth: Option<u32>,
    default_depth: u32,
    r: MoongqlResult<()>,
)
    requires
        metric_outcome(None, complexity, local_complexity, default_complexity, depth, local_depth, default_depth, r),
        complexity <= u32::MAX,
        depth <= u32::MAX,
    ensures
        local_complexity matches Some(l) ==> ((r matches Err(MoongqlError::ComplexityExceeded { limit, .. }) && limit == l)
            <==> complexity > l),
        local_complexity is None ==> ((r is Err && r->Err_0 is ComplexityExceeded) <==> complexity > default_complexity),
        r matches Err(MoongqlError::ComplexityExceeded { calculated, .. }) ==> calculated == complexity,
        complexity <= effective_limit(local_complexity, default_complexity) ==> (local_depth matches Some(ld) ==> (
            (r matches Err(MoongqlError::DepthExceeded { limit, .. }) && limit == ld) <==> depth > ld)),
        complexity <= effective_limit(local_complexity, default_complexity) ==> (local_depth is None ==> (
            (r is Err && r->Err_0 is DepthExceeded) <==> depth > default_depth)),
        r matches Err(MoongqlError::DepthExceeded { calculated, .. }) ==> calculated == depth,
        r is Ok <==> (complexity <= effective_limit(local_complexity, default_complexity)
            && depth <= effective_limit(local_depth, default_depth)),
{
}

/// Law (arguments first): a target whose arguments are invalid is refused with that validation
/// detail, whatever its complexity, depth and limits.
pub proof fn law_arguments_checked_first(
    detail: Seq<char>,
    complexity: nat,
    local_complexity: Option<u32>,
    default_complexity: u32,
    depth: nat,
    local_depth: Option<u32>,
    default_depth: u32,
    r: MoongqlResult<()>,
)
    requires
        metric_outcome(Some(detail), complexity, local_complexity, default_complexity, depth, local_depth, default_depth, r),
    ensures
        r matches Err(MoongqlError::ValidationError(m)) && m@ == detail,
{
}

} // verus!
