//! Multiply-then-divide on balances whose product does not fit in 128 bits.

use vstd::prelude::*;

verus! {

/// `floor(a * b / c)`, held at the largest `u128` where the quotient is larger
/// than that; zero where `c` is zero.
pub open spec fn muldiv(a: int, b: int, c: int) -> int {
    if c == 0 {
        0
    } else if a * b / c > u128::MAX {
        u128::MAX as int
    } else {
        a * b / c
    }
}

/// Computes `floor(a * b / c)` exactly, whatever the size of the product.
pub fn muldiv128(a: u128, b: u128, c: u128) -> (result: u128)
    ensures
        result == muldiv(a as int, b as int, c as int),
{
    if c == 0 {
        return 0;
    }
    if let Some(product) = a.checked_mul(b) {
        proof {
            lemma_quotient_at_most(product as int, c as int, u128::MAX as int);
        }
        return product / c;
    }
    match wide_divide(a, b, c) {
        Some((quotient, rest)) => {
            proof {
                lemma_quotient_is(a * b, c as int, quotient as int, rest as int);
            }
            quotient
        },
        None => {
            proof {
                lemma_quotient_at_least(a * b, c as int, u128::MAX + 1);
            }
            u128::MAX
        },
    }
}

/// Quotient and remainder of `a * b` by `c`, taking `a` one binary digit at a
/// time; nothing where the quotient does not fit.
fn wide_divide(a: u128, b: u128, c: u128) -> (result: Option<(u128, u128)>)
    requires
        c > 0,
    ensures
        match result {
            Some((quotient, rest)) => a * b == quotient * c + rest && rest < c,
            None => a * b >= (u128::MAX + 1) * c,
        },
    decreases a,
{
    if a == 0 {
        return Some((0, 0));
    }
    let half = a / 2;
    proof {
        assert(a * b == half * b + half * b + (a % 2) * b) by (nonlinear_arith)
            requires
                a == 2 * half + a % 2,
        ;
        assert(half * b >= 0 && (a % 2) * b >= 0) by (nonlinear_arith);
        assert(a % 2 == 0 ==> (a % 2) * b == 0) by (nonlinear_arith);
        assert(a % 2 == 1 ==> (a % 2) * b == b) by (nonlinear_arith);
    }
    let (quotient, rest) = match wide_divide(half, b, c) {
        Some(parts) => parts,
        None => return None,
    };
    let (quotient, rest) = match add_parts(quotient, rest, quotient, rest, c) {
        Some(parts) => parts,
        None => return None,
    };
    if a % 2 == 0 {
        return Some((quotient, rest));
    }
    proof {
        vstd::arithmetic::div_mod::lemma_fundamental_div_mod(b as int, c as int);
        assert((b / c) * c == c * (b / c)) by (nonlinear_arith);
    }
    add_parts(quotient, rest, b / c, b % c, c)
}

/// Adds two numbers, each given by its quotient and remainder by `c`.
fn add_parts(q1: u128, r1: u128, q2: u128, r2: u128, c: u128) -> (result: Option<(u128, u128)>)
    requires
        r1 < c,
        r2 < c,
    ensures
        match result {
            Some((quotient, rest)) => quotient * c + rest == (q1 * c + r1) + (q2 * c + r2) && rest
                < c,
            None => (q1 * c + r1) + (q2 * c + r2) >= (u128::MAX + 1) * c,
        },
{
    let carry: bool = r1 >= c - r2;
    let rest: u128 = if carry {
        r1 - (c - r2)
    } else {
        r1 + r2
    };
    let carried: u128 = if carry {
        1
    } else {
        0
    };
    proof {
        assert((q1 + q2 + carried) * c == q1 * c + q2 * c + carried * c) by (nonlinear_arith);
        assert(carried * c == if carry {
            c as int
        } else {
            0
        }) by (nonlinear_arith)
            requires
                carried == if carry {
                    1int
                } else {
                    0
                },
        ;
        if q1 + q2 + carried > u128::MAX {
            assert((q1 + q2 + carried) * c >= (u128::MAX + 1) * c) by (nonlinear_arith)
                requires
                    q1 + q2 + carried >= u128::MAX + 1,
                    c >= 0,
            ;
        }
    }
    let sum: u128 = match q1.checked_add(q2) {
        Some(sum) => sum,
        None => return None,
    };
    match sum.checked_add(carried) {
        Some(quotient) => Some((quotient, rest)),
        None => None,
    }
}

/// A quotient with its remainder is the floor of the division.
pub proof fn lemma_quotient_is(n: int, d: int, q: int, r: int)
    requires
        n == q * d + r,
        0 <= r < d,
    ensures
        n / d == q,
{
    vstd::arithmetic::div_mod::lemma_fundamental_div_mod_converse(n, d, q, r);
}

/// Dividing by a positive number does not exceed a bound that the dividend keeps.
pub proof fn lemma_quotient_at_most(n: int, d: int, bound: int)
    requires
        0 <= n <= bound,
        d > 0,
    ensures
        0 <= n / d <= bound,
{
    assert(0 <= n / d <= bound) by (nonlinear_arith)
        requires
            0 <= n <= bound,
            d > 0,
    ;
}

/// A dividend of at least `q * d` has a quotient of at least `q`.
pub proof fn lemma_quotient_at_least(n: int, d: int, q: int)
    requires
        n >= q * d,
        q >= 0,
        d > 0,
    ensures
        n / d >= q,
{
    vstd::arithmetic::div_mod::lemma_div_is_ordered(q * d, n, d);
    vstd::arithmetic::div_mod::lemma_div_by_multiple(q, d);
}

/// The quotient of a product of nonnegative numbers is nonnegative.
pub proof fn lemma_product_quotient_nonnegative(a: int, b: int, c: int)
    requires
        a >= 0,
        b >= 0,
        c > 0,
    ensures
        a * b / c >= 0,
{
    assert(a * b >= 0) by (nonlinear_arith)
        requires
            a >= 0,
            b >= 0,
    ;
    vstd::arithmetic::div_mod::lemma_div_pos_is_pos(a * b, c);
}

/// A part of a whole, taken of an amount, is a part of the amount.
pub proof fn lemma_part_of_whole(part: int, whole: int, amount: int)
    requires
        0 <= part <= whole,
        whole > 0,
        amount >= 0,
    ensures
        0 <= part * amount / whole <= amount,
{
    lemma_product_quotient_nonnegative(part, amount, whole);
    assert(part * amount <= amount * whole) by (nonlinear_arith)
        requires
            0 <= part <= whole,
            amount >= 0,
    ;
    vstd::arithmetic::div_mod::lemma_div_is_ordered(part * amount, amount * whole, whole);
    vstd::arithmetic::div_mod::lemma_div_by_multiple(amount, whole);
}

} // verus!
