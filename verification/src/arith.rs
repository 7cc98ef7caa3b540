//! Truncating signed division and remainder, as Rust's `/` and `%` compute
//! them on machine integers. Spec-level `/` and `%` are Euclidean, which
//! differs on negative operands, so contracts about machine arithmetic are
//! stated over these spec functions instead.

use vstd::prelude::*;

verus! {

/// Signed division rounding toward zero, as Rust's `/` does on `i64`.
pub open spec fn div_trunc(a: int, b: int) -> int {
    if a >= 0 {
        a / b
    } else {
        -((-a) / b)
    }
}

/// The remainder that pairs with `div_trunc`: same sign as the dividend,
/// as Rust's `%` computes it.
pub open spec fn rem_trunc(a: int, b: int) -> int {
    a - b * div_trunc(a, b)
}

/// Whether a mathematical integer is representable as an `i64`.
pub open spec fn fits_i64(x: int) -> bool {
    i64::MIN <= x <= i64::MAX
}

/// Truncating division on `i64`, matching Rust's `/` operator.
pub fn div_trunc_i64(a: i64, b: i64) -> (r: i64)
    requires
        b > 0,
    ensures
        r == div_trunc(a as int, b as int),
{
    let bu: u64 = b as u64;
    if a >= 0 {
        let q: u64 = (a as u64) / bu;
        proof {
            vstd::arithmetic::div_mod::lemma_div_nonincreasing(a as int, b as int);
            vstd::arithmetic::div_mod::lemma_div_pos_is_pos(a as int, b as int);
        }
        q as i64
    } else if a == i64::MIN {
        let n: u64 = 9223372036854775808u64;
        let q: u64 = n / bu;
        proof {
            vstd::arithmetic::div_mod::lemma_div_nonincreasing(n as int, b as int);
            vstd::arithmetic::div_mod::lemma_div_pos_is_pos(n as int, b as int);
        }
        if q == 9223372036854775808u64 {
            proof {
                vstd::arithmetic::div_mod::lemma_div_is_ordered_by_denominator(n as int, 1, b as int);
                vstd::arithmetic::div_mod::lemma_div_basics(n as int);
            }
            i64::MIN
        } else {
            -(q as i64)
        }
    } else {
        let n: u64 = (-a) as u64;
        let q: u64 = n / bu;
        proof {
            vstd::arithmetic::div_mod::lemma_div_nonincreasing(n as int, b as int);
            vstd::arithmetic::div_mod::lemma_div_pos_is_pos(n as int, b as int);
        }
        -(q as i64)
    }
}

/// Scaling by a factor of at most the divisor and dividing back cannot grow
/// a value: `div_trunc(s * k, d)` stays between 0 and `s`.
pub proof fn lemma_div_trunc_scale_bound(s: int, k: int, d: int)
    requires
        d > 0,
        0 <= k <= d,
    ensures
        s >= 0 ==> 0 <= div_trunc(s * k, d) <= s,
        s <= 0 ==> s <= div_trunc(s * k, d) <= 0,
{
    if s >= 0 {
        vstd::arithmetic::mul::lemma_mul_inequality(k, d, s);
        vstd::arithmetic::mul::lemma_mul_is_commutative(s, k);
        vstd::arithmetic::mul::lemma_mul_is_commutative(s, d);
        assert(s * k <= s * d);
        vstd::arithmetic::div_mod::lemma_div_is_ordered(s * k, s * d, d);
        vstd::arithmetic::div_mod::lemma_div_multiples_vanish(s, d);
        vstd::arithmetic::mul::lemma_mul_nonnegative(s, k);
        vstd::arithmetic::div_mod::lemma_div_pos_is_pos(s * k, d);
    } else {
        let n = -s;
        vstd::arithmetic::mul::lemma_mul_inequality(k, d, n);
        vstd::arithmetic::mul::lemma_mul_is_commutative(n, k);
        vstd::arithmetic::mul::lemma_mul_is_commutative(n, d);
        assert(n * k <= n * d);
        vstd::arithmetic::div_mod::lemma_div_is_ordered(n * k, n * d, d);
        vstd::arithmetic::div_mod::lemma_div_multiples_vanish(n, d);
        vstd::arithmetic::mul::lemma_mul_nonnegative(n, k);
        vstd::arithmetic::div_mod::lemma_div_pos_is_pos(n * k, d);
        assert(s * k == -(n * k)) by (nonlinear_arith)
            requires
                n == -s,
        ;
    }
}

/// How the truncating remainder relates to the Euclidean one that spec-level
/// `%` computes: equal when nonnegative, one divisor apart otherwise.
pub proof fn lemma_rem_trunc_euclid(a: int, b: int)
    requires
        b > 0,
    ensures
        rem_trunc(a, b) >= 0 ==> a % b == rem_trunc(a, b),
        rem_trunc(a, b) < 0 ==> a % b == rem_trunc(a, b) + b,
{
    if a >= 0 {
        vstd::arithmetic::div_mod::lemma_fundamental_div_mod(a, b);
    } else {
        let n = -a;
        let q = n / b;
        let r = n % b;
        vstd::arithmetic::div_mod::lemma_fundamental_div_mod(n, b);
        vstd::arithmetic::div_mod::lemma_mod_division_less_than_divisor(n, b);
        assert(rem_trunc(a, b) == a + b * q) by (nonlinear_arith)
            requires
                a < 0 && b > 0 && q == n / b && n == -a && rem_trunc(a, b) == a - b * div_trunc(
                    a,
                    b,
                ) && div_trunc(a, b) == -q,
        ;
        assert(rem_trunc(a, b) == -r);
        if r == 0 {
            assert((-q) * b + 0 == a) by (nonlinear_arith)
                requires
                    n == b * q + r && r == 0 && n == -a,
            ;
            vstd::arithmetic::div_mod::lemma_fundamental_div_mod_converse(a, b, -q, 0);
        } else {
            assert((-q - 1) * b + (b - r) == a) by (nonlinear_arith)
                requires
                    n == b * q + r && n == -a,
            ;
            vstd::arithmetic::div_mod::lemma_fundamental_div_mod_converse(a, b, -q - 1, b - r);
        }
    }
}

/// Truncating remainder on `i64`, matching Rust's `%` operator
/// (and `i64::wrapping_rem` for a positive divisor).
pub fn rem_trunc_i64(a: i64, b: i64) -> (r: i64)
    requires
        b > 0,
    ensures
        r == rem_trunc(a as int, b as int),
        a >= 0 ==> 0 <= r < b,
        a < 0 ==> -b < r <= 0,
{
    let q: i64 = div_trunc_i64(a, b);
    proof {
        if a >= 0 {
            vstd::arithmetic::div_mod::lemma_fundamental_div_mod(a as int, b as int);
            vstd::arithmetic::div_mod::lemma_mod_division_less_than_divisor(a as int, b as int);
            assert(b * q == a - (a as int % b as int));
        } else {
            let n: int = -(a as int);
            vstd::arithmetic::div_mod::lemma_fundamental_div_mod(n, b as int);
            vstd::arithmetic::div_mod::lemma_mod_division_less_than_divisor(n, b as int);
            assert(q == -(n / (b as int)));
            assert(b * q == -(b * (n / (b as int)))) by (nonlinear_arith)
                requires q == -(n / (b as int));
            assert(b * q == (a as int) + (n % (b as int)));
        }
    }
    let p: i64 = b * q;
    a - p
}

} // verus!
