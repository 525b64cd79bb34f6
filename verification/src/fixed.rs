//! Fixed-point numbers: an `i64` that counts billionths.
//!
//! A stored value `v` stands for the real number `v / ONE`. Sums and differences
//! of stored values are plain integer sums; a product is divided by [`ONE`] and
//! rounded toward zero. A result that leaves the `i64` range is replaced by the
//! nearest end of the range.
use vstd::prelude::*;

verus! {

/// The stored value of the real number one.
pub const ONE: i64 = 1_000_000_000;

/// `x`, or the end of the `i64` range that lies nearest to it.
pub open spec fn saturated(x: int) -> int {
    if x < i64::MIN {
        i64::MIN as int
    } else if x > i64::MAX {
        i64::MAX as int
    } else {
        x
    }
}

/// The quotient of `p` by a positive `d`, rounded toward zero.
pub open spec fn quotient(p: int, d: int) -> int {
    if p >= 0 {
        p / d
    } else {
        -((-p) / d)
    }
}

/// The stored value of the product of the numbers that `a` and `b` stand for.
pub open spec fn product(a: int, b: int) -> int {
    quotient(a * b, ONE as int)
}

/// A product is no larger in magnitude than `bound` when one factor is and the
/// other stands for a number between minus one and one.
pub proof fn lemma_product_shrinks(a: int, b: int, bound: int)
    requires
        -bound <= a <= bound,
        -(ONE as int) <= b <= ONE as int,
    ensures
        -bound <= product(a, b) <= bound,
        -bound * ONE <= a * b <= bound * ONE,
{
    assert(-bound * ONE <= a * b <= bound * ONE) by (nonlinear_arith)
        requires
            -bound <= a <= bound,
            -(ONE as int) <= b <= ONE as int,
    ;
}

/// The product of two factors of at most `m` and `n` in magnitude is at most
/// `m * n` in magnitude.
pub proof fn lemma_product_magnitude(a: int, b: int, m: int, n: int)
    requires
        -m <= a <= m,
        -n <= b <= n,
    ensures
        -(m * n) <= a * b <= m * n,
{
    assert(-(m * n) <= a * b <= m * n) by (nonlinear_arith)
        requires
            -m <= a <= m,
            -n <= b <= n,
    ;
}

/// Brings a wide value back into the `i64` range.
pub fn saturate(x: i128) -> (value: i64)
    ensures
        value == saturated(x as int),
{
    if x < i64::MIN as i128 {
        i64::MIN
    } else if x > i64::MAX as i128 {
        i64::MAX
    } else {
        x as i64
    }
}

/// Multiplies two stored values whose integer product fits in an `i128`.
pub fn multiply(a: i128, b: i128) -> (value: i128)
    requires
        i128::MIN <= a * b <= i128::MAX,
    ensures
        value == product(a as int, b as int),
{
    let wide: i128 = a * b;
    wide / (ONE as i128)
}

} // verus!
