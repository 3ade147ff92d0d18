use vstd::prelude::*;
use vstd::arithmetic::div_mod::lemma_fundamental_div_mod_converse;

verus! {

/// `a * b / c`, rounded down.
pub open spec fn mul_div_floor(a: int, b: int, c: int) -> int {
    (a * b) / c
}

/// `a * b / c`, rounded up.
pub open spec fn mul_div_ceil(a: int, b: int, c: int) -> int {
    (a * b + c - 1) / c
}

/// A quotient `q` of `x * b` by `c` is at most `b` as long as `x` is at most `c`.
pub proof fn lemma_quotient_bound(q: int, r: int, x: int, b: int, c: int)
    by (nonlinear_arith)
    requires
        q * c + r == x * b,
        0 <= r,
        0 <= x <= c,
        0 <= b,
        0 < c,
    ensures
        q <= b,
{
    if q > b {
        assert(q * c >= (b + 1) * c);
        assert(x * b <= c * b);
    }
}

/// The floor of a product over `c` lies between zero and `b` when `0 <= a <= c`.
pub proof fn lemma_mul_div_floor_bounds(a: int, b: int, c: int)
    requires
        0 <= a <= c,
        0 <= b,
        0 < c,
    ensures
        0 <= mul_div_floor(a, b, c) <= b,
        a == c ==> mul_div_floor(a, b, c) == b,
        a == 0 ==> mul_div_floor(a, b, c) == 0,
{
    let x = a * b;
    let q = x / c;
    let r = x % c;
    assert(0 <= x) by (nonlinear_arith)
        requires
            0 <= a,
            0 <= b,
            x == a * b,
    ;
    vstd::arithmetic::div_mod::lemma_fundamental_div_mod(x, c);
    vstd::arithmetic::div_mod::lemma_mod_bound(x, c);
    assert(q * c + r == a * b) by (nonlinear_arith)
        requires
            x == c * q + r,
            x == a * b,
    ;
    lemma_quotient_bound(q, r, a, b, c);
    assert(0 <= q) by (nonlinear_arith)
        requires
            q * c + r == x,
            0 <= x,
            r < c,
            0 < c,
    ;
    if a == c {
        assert(x == b * c + 0) by (nonlinear_arith)
            requires
                x == a * b,
                a == c,
        ;
        lemma_fundamental_div_mod_converse(x, c, b, 0);
    }
    if a == 0 {
        assert(x == 0 * c + 0) by (nonlinear_arith)
            requires
                x == a * b,
                a == 0,
        ;
        lemma_fundamental_div_mod_converse(x, c, 0, 0);
    }
}

/// The floor of a product over `c` does not shrink when a factor grows.
pub proof fn lemma_mul_div_floor_monotone(a1: int, a2: int, b: int, c: int)
    requires
        a1 <= a2,
        0 <= b,
        0 < c,
    ensures
        mul_div_floor(a1, b, c) <= mul_div_floor(a2, b, c),
{
    vstd::arithmetic::mul::lemma_mul_inequality(a1, a2, b);
    vstd::arithmetic::div_mod::lemma_div_is_ordered(a1 * b, a2 * b, c);
}

/// The ceiling of a product over `c` is the quotient, plus one where a
/// remainder is left.
pub proof fn lemma_mul_div_ceil_from_quotient(a: int, b: int, c: int, q: int, r: int)
    requires
        q * c + r == a * b,
        0 <= r < c,
    ensures
        mul_div_ceil(a, b, c) == if r == 0 { q } else { q + 1 },
{
    let x = a * b + c - 1;
    if r == 0 {
        assert(x == q * c + (c - 1));
        lemma_fundamental_div_mod_converse(x, c, q, c - 1);
    } else {
        assert(x == (q + 1) * c + (r - 1)) by (nonlinear_arith)
            requires
                x == a * b + c - 1,
                q * c + r == a * b,
        ;
        lemma_fundamental_div_mod_converse(x, c, q + 1, r - 1);
    }
}

/// The ceiling of a product over `c` lies between one and `b` when
/// `1 <= a <= c` and `1 <= b`.
pub proof fn lemma_mul_div_ceil_bounds(a: int, b: int, c: int)
    requires
        1 <= a <= c,
        1 <= b,
    ensures
        1 <= mul_div_ceil(a, b, c) <= b,
        a == c ==> mul_div_ceil(a, b, c) == b,
{
    let x = a * b;
    let q = x / c;
    let r = x % c;
    vstd::arithmetic::div_mod::lemma_fundamental_div_mod(x, c);
    vstd::arithmetic::div_mod::lemma_mod_bound(x, c);
    assert(q * c + r == a * b) by (nonlinear_arith)
        requires
            x == c * q + r,
            x == a * b,
    ;
    lemma_mul_div_ceil_from_quotient(a, b, c, q, r);
    lemma_mul_div_floor_bounds(a, b, c);
    assert(1 <= x) by (nonlinear_arith)
        requires
            1 <= a,
            1 <= b,
            x == a * b,
    ;
    if r == 0 {
        assert(q >= 1) by (nonlinear_arith)
            requires
                q * c == x,
                1 <= x,
                0 < c,
        ;
    } else {
        // q < b, or else q * c + r would be above c * b
        assert(q < b) by (nonlinear_arith)
            requires
                q * c + r == a * b,
                0 < r,
                a <= c,
                0 <= b,
                0 < c,
                q <= b,
        {
            if q == b {
                assert(a * b <= c * b);
            }
        }
    }
    if a == c {
        assert(x == b * c + 0) by (nonlinear_arith)
            requires
                x == a * b,
                a == c,
        ;
        lemma_fundamental_div_mod_converse(x, c, b, 0);
    }
}

/// The ceiling of a product over `d`, times `d`, is no less than the product.
pub proof fn lemma_mul_div_ceil_covers(r: int, w: int, d: int)
    requires
        0 < d,
    ensures
        mul_div_ceil(r, w, d) * d >= r * w,
{
    let x = r * w + d - 1;
    vstd::arithmetic::div_mod::lemma_fundamental_div_mod(x, d);
    vstd::arithmetic::div_mod::lemma_mod_bound(x, d);
    assert((x / d) * d == d * (x / d)) by (nonlinear_arith);
}

/// Time enough to reach a balance, rounded up, unlocks that balance: where
/// `k` is at least `r * w / d` rounded up, `k * d / w` rounded down is at
/// least `r`.
pub proof fn lemma_ceil_then_floor(r: int, w: int, d: int, k: int)
    requires
        0 < w,
        0 < d,
        k >= mul_div_ceil(r, w, d),
    ensures
        mul_div_floor(k, d, w) >= r,
{
    lemma_mul_div_ceil_covers(r, w, d);
    let c = mul_div_ceil(r, w, d);
    assert(k * d >= r * w) by (nonlinear_arith)
        requires
            c * d >= r * w,
            k >= c,
            0 < d,
    ;
    vstd::arithmetic::div_mod::lemma_div_is_ordered(r * w, k * d, w);
    assert(r * w == w * r) by (nonlinear_arith);
    vstd::arithmetic::div_mod::lemma_div_multiples_vanish(r, w);
}

/// Of two lines from the same point, the flatter one stays below: where
/// `r / big` is at most `d / w`, `k * r / big` rounded down is at most
/// `k * d / w` rounded down.
pub proof fn lemma_floor_slope_order(k: int, r: int, big: int, d: int, w: int)
    requires
        0 <= k,
        0 < big,
        0 < w,
        r * w <= big * d,
    ensures
        mul_div_floor(k, r, big) <= mul_div_floor(k, d, w),
{
    let q = (k * r) / big;
    vstd::arithmetic::div_mod::lemma_fundamental_div_mod(k * r, big);
    vstd::arithmetic::div_mod::lemma_mod_bound(k * r, big);
    assert(q * big <= k * r) by (nonlinear_arith)
        requires
            k * r == big * q + (k * r) % big,
            0 <= (k * r) % big,
    ;
    assert(q * w * big <= k * d * big) by (nonlinear_arith)
        requires
            q * big <= k * r,
            r * w <= big * d,
            0 <= k,
            0 < w,
    {
        assert(q * big * w <= k * r * w);
        assert(k * (r * w) <= k * (big * d));
    }
    assert(q * w <= k * d) by (nonlinear_arith)
        requires
            q * w * big <= k * d * big,
            0 < big,
    ;
    vstd::arithmetic::div_mod::lemma_div_is_ordered(q * w, k * d, w);
    assert(q * w == w * q) by (nonlinear_arith);
    vstd::arithmetic::div_mod::lemma_div_multiples_vanish(q, w);
}

/// Quotient and remainder of `a * b` by `c`, without forming the product
/// in 128 bits. The halves of `a` are taken first, so the quotient in hand
/// never exceeds `b`.
fn mul_div_rem(a: u128, b: u128, c: u128) -> (res: (u128, u128))
    requires
        a <= c,
        0 < c,
    ensures
        res.0 * c + res.1 == a * b,
        res.1 < c,
        res.0 <= b,
    decreases a,
{
    if a == 0 {
        assert(0 * c + 0 == a * b) by (nonlinear_arith)
            requires
                a == 0,
        ;
        return (0, 0);
    }
    let half: u128 = a / 2;
    let (q1, r1) = mul_div_rem(half, b, c);
    // twice the half
    let ghost twice_r: int = if r1 >= c - r1 { r1 - (c - r1) } else { r1 + r1 };
    let ghost twice_q: int = if r1 >= c - r1 { q1 + q1 + 1 } else { q1 + q1 };
    proof {
        assert(twice_q * c + twice_r == (2 * half) * b) by (nonlinear_arith)
            requires
                q1 * c + r1 == half * b,
                twice_q * 1 == (if r1 >= c - r1 { q1 + q1 + 1 } else { q1 + q1 }),
                twice_r * 1 == (if r1 >= c - r1 { r1 - (c - r1) } else { r1 + r1 }),
        ;
        lemma_quotient_bound(twice_q, twice_r, 2 * half, b as int, c as int);
    }
    let (q2, r2): (u128, u128) = if r1 >= c - r1 {
        (q1 + q1 + 1, r1 - (c - r1))
    } else {
        (q1 + q1, r1 + r1)
    };
    if a % 2 == 1 {
        let qb: u128 = b / c;
        let rb: u128 = b % c;
        let ghost sum_r: int = if r2 >= c - rb { r2 - (c - rb) } else { r2 + rb };
        let ghost sum_q: int = if r2 >= c - rb { q2 + qb + 1 } else { q2 + qb };
        proof {
            assert(b == qb * c + rb) by {
                vstd::arithmetic::div_mod::lemma_fundamental_div_mod(b as int, c as int);
                assert(c * qb == qb * c) by (nonlinear_arith);
            }
            assert(sum_q * c + sum_r == a * b) by (nonlinear_arith)
                requires
                    q2 * c + r2 == (2 * half) * b,
                    a == 2 * half + 1,
                    b == qb * c + rb,
                    sum_q * 1 == (if r2 >= c - rb { q2 + qb + 1 } else { q2 + qb }),
                    sum_r * 1 == (if r2 >= c - rb { r2 - (c - rb) } else { r2 + rb }),
            ;
            lemma_quotient_bound(sum_q, sum_r, a as int, b as int, c as int);
        }
        if r2 >= c - rb {
            (q2 + qb + 1, r2 - (c - rb))
        } else {
            (q2 + qb, r2 + rb)
        }
    } else {
        assert(a == 2 * half);
        (q2, r2)
    }
}

/// `a * b / c` rounded down, for `a <= c`, exact whatever the size of the product.
pub fn mul_div_floor_u128(a: u128, b: u128, c: u128) -> (q: u128)
    requires
        a <= c,
        0 < c,
    ensures
        q == mul_div_floor(a as int, b as int, c as int),
        q <= b,
{
    let (q, r) = mul_div_rem(a, b, c);
    proof {
        lemma_fundamental_div_mod_converse(a * b, c as int, q as int, r as int);
    }
    q
}

/// `a * b / c` rounded up, for `a <= c`, exact whatever the size of the product.
pub fn mul_div_ceil_u128(a: u128, b: u128, c: u128) -> (q: u128)
    requires
        a <= c,
        0 < c,
    ensures
        q == mul_div_ceil(a as int, b as int, c as int),
        q <= b,
{
    let (q, r) = mul_div_rem(a, b, c);
    proof {
        lemma_mul_div_ceil_from_quotient(a as int, b as int, c as int, q as int, r as int);
        if r != 0 {
            // a remainder is left, so the quotient is strictly below b
            assert(q < b) by (nonlinear_arith)
                requires
                    q * c + r == a * b,
                    0 < r,
                    a <= c,
                    0 < c,
                    q <= b,
            {
                if q == b {
                    assert(a * b <= c * b);
                }
            }
        }
    }
    if r == 0 {
        q
    } else {
        q + 1
    }
}

} // verus!
