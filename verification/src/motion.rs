//! The rule that moves one coordinate of a node: the new velocity, its limits,
//! and the position it leads to.
use crate::fixed::{
    lemma_product_magnitude, lemma_product_shrinks, multiply, product, quotient, saturate,
    saturated, ONE,
};
use vstd::prelude::*;

verus! {

/// The random numbers that one coordinate of one update consumes.
#[derive(Debug, Clone, Copy)]
pub struct Draw {
    /// Scales the pull toward the node's own best position; at least zero and below [`ONE`].
    pub own: i64,
    /// Scales the pull toward the swarm's best position; at least zero and below [`ONE`].
    pub swarm: i64,
    /// The velocity to take where the limits ask for a fresh one.
    pub fresh: i64,
}

impl Draw {
    /// Both scales stand for numbers from zero up to, but not including, one.
    pub open spec fn scales_in_unit(&self) -> bool {
        0 <= self.own < ONE && 0 <= self.swarm < ONE
    }

    /// The draw suits the limit pair: its scales are unit scales and its fresh
    /// velocity lies within the limits.
    pub open spec fn suits(&self, limit: (i64, i64)) -> bool {
        self.scales_in_unit() && limit.0 <= self.fresh <= limit.1
    }
}

/// The velocity before the limits apply: the old velocity scaled by the inertia,
/// plus the pulls toward the node's own best and toward the swarm's best, each
/// scaled by its learning factor and its random scale.
pub open spec fn blended(
    velocity: int,
    position: int,
    own_best: int,
    swarm_best: int,
    inertia: int,
    factor1: int,
    factor2: int,
    own: int,
    swarm: int,
) -> int {
    saturated(
        product(inertia, velocity) + product(product(factor1, own), own_best - position) + product(
            product(factor2, swarm),
            swarm_best - position,
        ),
    )
}

/// Whether `numerator / denominator` is at least one. A quotient by zero counts
/// as unbounded, with the sign of the numerator.
pub open spec fn ratio_at_least_one(numerator: int, denominator: int) -> bool {
    if denominator > 0 {
        numerator >= denominator
    } else if denominator < 0 {
        numerator <= denominator
    } else {
        numerator > 0
    }
}

/// The quotient of `p` by a nonzero `d`, rounded toward zero.
pub open spec fn signed_quotient(p: int, d: int) -> int {
    if d > 0 {
        quotient(p, d)
    } else {
        -quotient(p, -d)
    }
}

/// For a nonzero denominator, [`ratio_at_least_one`] is the comparison of the
/// fixed-point quotient `numerator / denominator` with one.
pub proof fn lemma_ratio_compares_the_quotient(numerator: int, denominator: int)
    requires
        denominator != 0,
    ensures
        ratio_at_least_one(numerator, denominator) <==> signed_quotient(
            numerator * ONE,
            denominator,
        ) >= ONE,
{
    let n: int = numerator;
    let d: int = denominator;
    let one: int = ONE as int;
    if d > 0 {
        if n >= 0 {
            assert((n * one) / d >= one <==> n >= d) by (nonlinear_arith)
                requires
                    d > 0,
                    n >= 0,
                    one > 0,
            ;
        } else {
            assert(n * one < 0) by (nonlinear_arith)
                requires
                    n < 0,
                    one > 0,
            ;
            assert((-(n * one)) / d >= 0) by (nonlinear_arith)
                requires
                    n * one < 0,
                    d > 0,
            ;
        }
    } else {
        let e: int = -d;
        if n > 0 {
            assert(n * one > 0) by (nonlinear_arith)
                requires
                    n > 0,
                    one > 0,
            ;
            assert((n * one) / e >= 0) by (nonlinear_arith)
                requires
                    n * one > 0,
                    e > 0,
            ;
        } else {
            assert(n * one <= 0) by (nonlinear_arith)
                requires
                    n <= 0,
                    one > 0,
            ;
            assert((-(n * one)) / e >= one <==> -n >= e) by (nonlinear_arith)
                requires
                    e > 0,
                    n <= 0,
                    one > 0,
            ;
            if n * one == 0 {
                assert(n == 0) by (nonlinear_arith)
                    requires
                        n * one == 0,
                        one > 0,
                ;
                assert(0int / e == 0) by (nonlinear_arith)
                    requires
                        e > 0,
                ;
            }
        }
    }
}

/// Whether the limits replace the velocity `v` by a fresh one: `v` lies outside
/// the limit it has passed by at least that limit's own size, measured as the
/// ratio `(limit - v) / limit`.
pub open spec fn asks_fresh(v: int, lower: int, upper: int) -> bool {
    if v < lower {
        ratio_at_least_one(lower - v, lower)
    } else if v > upper {
        ratio_at_least_one(upper - v, upper)
    } else {
        false
    }
}

/// The velocity that the limits let through: `v` itself between the limits, a
/// fresh velocity where [`asks_fresh`] holds, else the limit that `v` has passed.
pub open spec fn bounded(v: int, lower: int, upper: int, fresh: int) -> int {
    if asks_fresh(v, lower, upper) {
        fresh
    } else if v < lower {
        lower
    } else if v > upper {
        upper
    } else {
        v
    }
}

/// The velocity of one coordinate after an update.
pub open spec fn next_velocity(
    velocity: int,
    position: int,
    own_best: int,
    swarm_best: int,
    inertia: int,
    factor1: int,
    factor2: int,
    limit: (i64, i64),
    draw: Draw,
) -> int {
    bounded(
        blended(
            velocity,
            position,
            own_best,
            swarm_best,
            inertia,
            factor1,
            factor2,
            draw.own as int,
            draw.swarm as int,
        ),
        limit.0 as int,
        limit.1 as int,
        draw.fresh as int,
    )
}

/// The position that a coordinate reaches with the velocity `velocity`.
pub open spec fn next_position(position: int, velocity: int) -> int {
    saturated(position + velocity)
}

/// With ordered limits and a fresh velocity between them, the velocity that the
/// limits let through lies between them, whichever branch applies.
pub proof fn lemma_bounded_within(v: int, lower: int, upper: int, fresh: int)
    requires
        lower <= upper,
        lower <= fresh <= upper,
    ensures
        lower <= bounded(v, lower, upper, fresh) <= upper,
{
}

/// Computes [`blended`].
pub fn blend(
    velocity: i64,
    position: i64,
    own_best: i64,
    swarm_best: i64,
    inertia: i64,
    factor1: i64,
    factor2: i64,
    own: i64,
    swarm: i64,
) -> (v: i64)
    requires
        0 <= own < ONE,
        0 <= swarm < ONE,
    ensures
        v == blended(
            velocity as int,
            position as int,
            own_best as int,
            swarm_best as int,
            inertia as int,
            factor1 as int,
            factor2 as int,
            own as int,
            swarm as int,
        ),
{
    let ghost limit: int = 0x8000_0000_0000_0000int;
    proof {
        lemma_product_magnitude(inertia as int, velocity as int, limit, limit);
        lemma_product_shrinks(factor1 as int, own as int, limit);
        lemma_product_shrinks(factor2 as int, swarm as int, limit);
    }
    let carried: i128 = multiply(inertia as i128, velocity as i128);
    let scale1: i128 = multiply(factor1 as i128, own as i128);
    let scale2: i128 = multiply(factor2 as i128, swarm as i128);
    let gap1: i128 = own_best as i128 - position as i128;
    let gap2: i128 = swarm_best as i128 - position as i128;
    proof {
        let widest: int = 2 * limit - 1;
        assert(limit * widest <= i128::MAX) by (nonlinear_arith)
            requires
                limit == 0x8000_0000_0000_0000int,
                widest == 2 * limit - 1,
        ;
        lemma_product_magnitude(scale1 as int, gap1 as int, limit, widest);
        lemma_product_magnitude(scale2 as int, gap2 as int, limit, widest);
    }
    let pull1: i128 = multiply(scale1, gap1);
    let pull2: i128 = multiply(scale2, gap2);
    saturate(carried + pull1 + pull2)
}

/// Decides [`ratio_at_least_one`].
pub fn ratio_reaches_one(numerator: i128, denominator: i64) -> (reached: bool)
    ensures
        reached == ratio_at_least_one(numerator as int, denominator as int),
{
    if denominator > 0 {
        numerator >= denominator as i128
    } else if denominator < 0 {
        numerator <= denominator as i128
    } else {
        numerator > 0
    }
}

/// Decides [`asks_fresh`].
pub fn wants_fresh(v: i64, lower: i64, upper: i64) -> (wanted: bool)
    ensures
        wanted == asks_fresh(v as int, lower as int, upper as int),
{
    if v < lower {
        ratio_reaches_one(lower as i128 - v as i128, lower)
    } else if v > upper {
        ratio_reaches_one(upper as i128 - v as i128, upper)
    } else {
        false
    }
}

/// Computes [`bounded`].
pub fn bound(v: i64, lower: i64, upper: i64, fresh: i64) -> (kept: i64)
    ensures
        kept == bounded(v as int, lower as int, upper as int, fresh as int),
        lower <= upper && lower <= fresh <= upper ==> lower <= kept <= upper,
{
    if wants_fresh(v, lower, upper) {
        fresh
    } else if v < lower {
        lower
    } else if v > upper {
        upper
    } else {
        v
    }
}

/// Computes [`next_position`].
pub fn advance(position: i64, velocity: i64) -> (reached: i64)
    ensures
        reached == next_position(position as int, velocity as int),
{
    saturate(position as i128 + velocity as i128)
}

} // verus!
