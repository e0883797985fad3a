//! Quotients and products as numbers of double precision hold them: with 53 significant bits,
//! rounded to the nearest, and to the even one of two that are equally near.

use vstd::prelude::*;

verus! {

/// Two to the power of 52.
pub const TWO_52: u128 = 4_503_599_627_370_496;

/// Two to the power of 53.
pub const TWO_53: u128 = 9_007_199_254_740_992;

/// The whole number nearest to `n / d`, and the even one of two that are equally near.
pub open spec fn half_even(n: nat, d: nat) -> nat {
    let q = n / d;
    let r = n % d;
    if 2 * r > d || (2 * r == d && q % 2 == 1) {
        q + 1
    } else {
        q
    }
}

/// `n` rounded to a multiple of the smallest doubling of `unit` of which 53 bits are enough.
pub open spec fn to_53_bits(n: nat, unit: nat) -> nat
    decreases n - unit,
{
    if unit == 0 || n < TWO_53 * unit {
        half_even(n, unit) * unit
    } else {
        to_53_bits(n, 2 * unit)
    }
}

/// The quotient of `n` and `d` times `unit`, rounded to 53 bits, as a whole number and the power
/// of two by which it is to be divided.
pub open spec fn quotient(n: nat, d: nat, unit: nat) -> (nat, nat)
    decreases
            if n >= TWO_52 * d {
                0
            } else {
                TWO_52 * d - n
            },
{
    if n == 0 || d == 0 {
        (0, 1)
    } else if n >= TWO_52 * d {
        (half_even(n, d), unit)
    } else {
        quotient(2 * n, d, 2 * unit)
    }
}

/// `n` as a number of double precision, divided by `d`.
pub open spec fn divided(n: nat, d: nat) -> (nat, nat) {
    quotient(to_53_bits(n, 1), d, 1)
}

fn nearest(n: u128, d: u128) -> (r: u128)
    requires
        0 < d < 0x1_0000_0000_0000_0000_0000_0000_0000,
        n < 0x1_0000_0000_0000_0000_0000_0000_0000,
    ensures
        r == half_even(n as nat, d as nat),
        r <= n / d + 1,
{
    let q: u128 = n / d;
    let r: u128 = n % d;
    proof {
        assert(q <= n) by (nonlinear_arith)
            requires
                q == n / d,
                d > 0,
        ;
    }
    if 2 * r > d || (2 * r == d && q % 2 == 1) {
        q + 1
    } else {
        q
    }
}

/// Rounds a whole number to 53 bits.
pub fn round_53(n: u128) -> (r: u128)
    requires
        n < 0x100_0000_0000_0000_0000_0000,
    ensures
        r == to_53_bits(n as nat, 1),
        r <= 2 * n,
{
    let mut unit: u128 = 1;
    while n >= TWO_53 * unit
        invariant
            n < 0x100_0000_0000_0000_0000_0000,
            1 <= unit <= n + 1,
            unit == 1 || 2 * unit <= n,
            TWO_53 * unit <= 2 * n + TWO_53,
            to_53_bits(n as nat, 1) == to_53_bits(n as nat, unit as nat),
        decreases n + 1 - unit,
    {
        unit = unit * 2;
    }
    let q = nearest(n, unit);
    proof {
        assert((n / unit) * unit <= n) by (nonlinear_arith)
            requires
                unit >= 1,
        ;
        assert(q * unit <= (n / unit) * unit + unit) by (nonlinear_arith)
            requires
                q <= n / unit + 1,
        ;
        if unit == 1 {
            assert(n % 1 == 0 && n / 1 == n);
            assert(q == n);
        }
    }
    q * unit
}

/// Divides two numbers as double precision does. Returns a whole number, and the power of two by
/// which it is to be divided.
pub fn divide(n: u64, d: u32) -> (r: (u128, u128))
    requires
        d > 0,
        n < TWO_52 || d >= 0x1_0000,
    ensures
        (r.0 as nat, r.1 as nat) == divided(n as nat, d as nat),
        r.0 <= TWO_53,
        0 < r.1 <= TWO_53 * d,
{
    let start: u128 = round_53(n as u128);
    proof {
        if n < TWO_52 {
            assert(half_even(n as nat, 1) == n);
        }
    }
    if start == 0 {
        return (0, 1);
    }
    let mut m: u128 = start;
    let mut unit: u128 = 1;
    let bound: u128 = TWO_52 * d as u128;
    assert(start < bound) by (nonlinear_arith)
        requires
            start <= 2 * n,
            n < TWO_52 ==> start == n,
            bound == TWO_52 * d,
            d > 0,
            n < TWO_52 || d >= 0x1_0000,
            n <= 0xffff_ffff_ffff_ffffu64,
    ;
    while m < bound
        invariant
            0 < start <= m < 2 * bound,
            bound == TWO_52 * d,
            d > 0,
            m == start * unit,
            0 < unit <= m,
            divided(n as nat, d as nat) == quotient(m as nat, d as nat, unit as nat),
        decreases 2 * bound - m,
    {
        assert(2 * m == start * (2 * unit)) by (nonlinear_arith)
            requires
                m == start * unit,
        ;
        m = m * 2;
        unit = unit * 2;
    }
    let q = nearest(m, d as u128);
    assert(m / d as u128 <= TWO_53 - 1) by (nonlinear_arith)
        requires
            m < 2 * bound,
            bound == TWO_52 * d,
            d > 0,
            TWO_53 == 2 * TWO_52,
    ;
    (q, unit)
}

/// The thousandths nearest to `m / unit`.
pub open spec fn thousandths(q: (nat, nat)) -> nat {
    half_even(1000 * q.0, q.1)
}

/// The thousandths nearest to a quotient.
pub fn nearest_thousandths(q: (u128, u128)) -> (r: u64)
    requires
        q.0 <= TWO_53,
        0 < q.1 <= TWO_53 * 0xffff_ffff,
    ensures
        r == thousandths((q.0 as nat, q.1 as nat)),
{
    let n: u128 = 1000 * q.0;
    let r = nearest(n, q.1);
    assert(n / q.1 <= n) by (nonlinear_arith)
        requires
            q.1 > 0,
    ;
    r as u64
}

// ---------------------------------------------------------------------------
// Laws
// ---------------------------------------------------------------------------

proof fn lemma_half_even(n: nat, d: nat)
    requires
        d > 0,
    ensures
        2 * n - d <= 2 * (half_even(n, d) * d) <= 2 * n + d,
{
    let q = n / d;
    let r = n % d;
    vstd::arithmetic::div_mod::lemma_fundamental_div_mod(n as int, d as int);
    assert(q * d + r == n) by (nonlinear_arith)
        requires
            n == d * q + r,
    ;
    assert((q + 1) * d == q * d + d) by (nonlinear_arith);
}

proof fn lemma_quotient(start: nat, n: nat, d: nat, unit: nat)
    requires
        start > 0,
        d > 0,
        unit > 0,
        n == start * unit,
        n < TWO_53 * d,
    ensures
        ({
            let q = quotient(n, d, unit);
            &&& q.1 >= unit
            &&& 2 * (start * q.1) - d <= 2 * (q.0 * d) <= 2 * (start * q.1) + d
            &&& TWO_52 * d <= start * q.1 < TWO_53 * d
        }),
    decreases
            if n >= TWO_52 * d {
                0
            } else {
                TWO_52 * d - n
            },
{
    assert(n > 0) by (nonlinear_arith)
        requires
            n == start * unit,
            start > 0,
            unit > 0,
    ;
    if n >= TWO_52 * d {
        lemma_half_even(n, d);
    } else {
        assert(2 * n == start * (2 * unit)) by (nonlinear_arith)
            requires
                n == start * unit,
        ;
        lemma_quotient(start, 2 * n, d, 2 * unit);
    }
}

proof fn lemma_to_53_bits(n: nat, unit: nat)
    requires
        unit > 0,
    ensures
        unit == 1 && n < TWO_53 ==> to_53_bits(n, unit) == n,
        n >= TWO_52 * unit ==> to_53_bits(n, unit) >= TWO_52,
    decreases n - unit,
{
    if n < TWO_53 * unit {
        if unit == 1 {
            assert(n / 1 == n && n % 1 == 0);
            assert(half_even(n, 1) * 1 == n);
        }
        if n >= TWO_52 * unit {
            let h = half_even(n, unit);
            assert(n / unit >= TWO_52) by (nonlinear_arith)
                requires
                    n >= TWO_52 * unit,
                    unit > 0,
            ;
            assert(h * unit >= TWO_52) by (nonlinear_arith)
                requires
                    h >= TWO_52,
                    unit > 0,
            ;
        }
    } else {
        lemma_to_53_bits(n, 2 * unit);
    }
}

/// The quotient of two whole numbers of which the first has at most 53 bits is within half a unit
/// in the last of its 53 bits.
pub proof fn quotients_are_near(n: nat, d: nat)
    requires
        0 < n < TWO_53,
        d > 0,
    ensures
        ({
            let q = divided(n, d);
            &&& q.1 > 0
            &&& 2 * (n * q.1) - d <= 2 * (q.0 * d) <= 2 * (n * q.1) + d
            &&& TWO_52 * d <= n * q.1 < TWO_53 * d
        }),
{
    lemma_to_53_bits(n, 1);
    assert(n < TWO_53 * d) by (nonlinear_arith)
        requires
            n < TWO_53,
            d > 0,
    ;
    lemma_quotient(n, n, d, 1);
}

/// A quotient of two whole numbers, rounded up to a whole number.
pub open spec fn ceiling(q: (nat, nat)) -> int {
    (q.0 + q.1 - 1) / q.1 as int
}

/// Rounding a quotient up to a whole number gives the number that its operands say.
pub proof fn ceilings_are_exact(n: nat, d: nat, c: nat)
    requires
        0 < n <= 0xffff_ffff * d,
        0 < d < 0x10_0000,
        (c - 1) * d < n <= c * d,
        n < TWO_53,
    ensures
        ceiling(divided(n, d)) == c,
{
    quotients_are_near(n, d);
    let q = divided(n, d);
    let m = q.0 as int;
    let u = q.1 as int;
    let dd = d as int;
    assert(n * u <= 0xffff_ffff * dd * u) by (nonlinear_arith)
        requires
            n <= 0xffff_ffff * dd,
            u > 0,
    ;
    assert(u > 0x8_0000) by (nonlinear_arith)
        requires
            TWO_52 * dd <= 0xffff_ffff * dd * u,
            dd > 0,
    ;
    assert(m <= c * u) by (nonlinear_arith)
        requires
            2 * (m * dd) <= 2 * (n * u) + dd,
            n <= c * dd,
            u > 0,
            dd > 0,
    ;
    assert(m > (c - 1) * u) by (nonlinear_arith)
        requires
            2 * (m * dd) >= 2 * (n * u) - dd,
            n >= (c - 1) * dd + 1,
            2 * u > dd,
            u > 0,
            dd > 0,
    ;
    assert((m + u - 1) / u == c) by (nonlinear_arith)
        requires
            (c - 1) * u < m <= c * u,
            u > 0,
    ;
}

/// A quotient above every number of 32 bits is rounded up to no less than the largest of them.
pub proof fn large_ceilings_are_large(n: nat, d: nat)
    requires
        0xffff_ffff * d < n,
        n < 0x8000_0000_0000_0000,
        0x1_0000 <= d < 0x10_0000,
    ensures
        ceiling(divided(n, d)) >= 0xffff_ffff,
{
    lemma_to_53_bits(n, 1);
    let start = to_53_bits(n, 1);
    lemma_to_53_bits_above(n, 1);
    assert(start > 0xffff_ffff * d);
    assert(start < TWO_53 * d) by (nonlinear_arith)
        requires
            start <= 2 * n,
            n < 0x8000_0000_0000_0000,
            d >= 0x1_0000,
    ;
    lemma_quotient(start, start, d, 1);
    let q = divided(n, d);
    let m = q.0 as int;
    let u = q.1 as int;
    let dd = d as int;
    assert(m >= 0xffff_ffff * u) by (nonlinear_arith)
        requires
            2 * (m * dd) >= 2 * (start * u) - dd,
            start > 0xffff_ffff * dd,
            u > 0,
            dd > 0,
    ;
    assert((m + u - 1) / u >= 0xffff_ffff) by (nonlinear_arith)
        requires
            m >= 0xffff_ffff * u,
            u > 0,
    ;
}

proof fn lemma_to_53_bits_above(n: nat, unit: nat)
    requires
        unit > 0,
        n >= unit,
    ensures
        to_53_bits(n, unit) <= 2 * n,
    decreases n - unit,
{
    if n < TWO_53 * unit {
        lemma_half_even(n, unit);
    } else {
        lemma_to_53_bits_above(n, 2 * unit);
    }
}

/// The thousandths of a quotient are the nearest there are, where it has bits enough to tell.
pub proof fn thousandths_are_nearest(n: nat, d: nat)
    requires
        0 < n,
        0 < d,
        1024 * n <= TWO_52,
    ensures
        -(d as int) <= 2 * (thousandths(divided(n, d)) * d - 1000 * n) <= d,
{
    quotients_are_near(n, d);
    let q = divided(n, d);
    let m = q.0 as int;
    let u = q.1 as int;
    let dd = d as int;
    let k = thousandths(q) as int;
    lemma_half_even(1000 * q.0, q.1);
    assert(2000 * m - u <= 2 * (k * u) <= 2000 * m + u);
    assert(u >= 1024 * dd) by (nonlinear_arith)
        requires
            TWO_52 * dd <= n * u,
            1024 * n <= TWO_52,
            n > 0,
            dd > 0,
            u > 0,
    ;
    let x = k * dd - 1000 * n;
    assert(2 * (x * u) <= u * dd + 1000 * dd) by (nonlinear_arith)
        requires
            x == k * dd - 1000 * n,
            2 * (k * u) <= 2000 * m + u,
            2 * (m * dd) <= 2 * (n * u) + dd,
            dd > 0,
            u > 0,
    ;
    assert(2 * (x * u) >= -(u * dd) - 1000 * dd) by (nonlinear_arith)
        requires
            x == k * dd - 1000 * n,
            2 * (k * u) >= 2000 * m - u,
            2 * (m * dd) >= 2 * (n * u) - dd,
            dd > 0,
            u > 0,
    ;
    assert(2 * x <= dd) by (nonlinear_arith)
        requires
            2 * (x * u) <= u * dd + 1000 * dd,
            u >= 1024 * dd,
            dd > 0,
    ;
    assert(2 * x >= -dd) by (nonlinear_arith)
        requires
            2 * (x * u) >= -(u * dd) - 1000 * dd,
            u >= 1024 * dd,
            dd > 0,
    ;
}

proof fn lemma_53_bits_near(n: nat, unit: nat)
    requires
        unit > 0,
    ensures
        TWO_53 * (to_53_bits(n, unit) - n) <= n + TWO_53 * unit,
        TWO_53 * (n - to_53_bits(n, unit)) <= n + TWO_53 * unit,
    decreases n - unit,
{
    if n < TWO_53 * unit {
        lemma_half_even(n, unit);
    } else {
        lemma_53_bits_larger(n, 2 * unit);
    }
}

proof fn lemma_53_bits_larger(n: nat, unit: nat)
    requires
        unit > 0,
        n >= TWO_52 * unit,
    ensures
        TWO_53 * (to_53_bits(n, unit) - n) <= n,
        TWO_53 * (n - to_53_bits(n, unit)) <= n,
    decreases n - unit,
{
    if n < TWO_53 * unit {
        lemma_half_even(n, unit);
    } else {
        lemma_53_bits_larger(n, 2 * unit);
    }
}

/// A whole number that is divided, multiplied again and cut to a whole number comes back, or is one
/// too small.
pub proof fn products_come_back(n: nat, d: nat)
    requires
        0 < n < 0x1_0000_0000,
        0 < d < 0x10_0000,
    ensures
        ({
            let q = divided(n, d);
            let r = to_53_bits(q.0 * d, 1) / q.1;
            n - 1 <= r <= n
        }),
{
    quotients_are_near(n, d);
    let q = divided(n, d);
    let m = q.0 as int;
    let u = q.1 as int;
    let dd = d as int;
    let p = q.0 * d;
    let x = to_53_bits(p, 1) as int;
    lemma_53_bits_near(p, 1);
    assert(u >= 0x10_0000 * dd) by (nonlinear_arith)
        requires
            TWO_52 * dd <= n * u,
            n < 0x1_0000_0000,
            u > 0,
            dd > 0,
    ;
    assert(2 * p <= 2 * (n * u) + dd && 2 * p >= 2 * (n * u) - dd);
    assert(p < TWO_53 * (dd + 1));
    assert(TWO_53 * (x - p) <= TWO_53 * (dd + 2));
    assert(TWO_53 * (p - x) <= TWO_53 * (dd + 2));
    assert(x - p <= dd + 2 && p - x <= dd + 2);
    assert(n * u - u < x < n * u + u);
    assert(n - 1 <= x / u <= n) by (nonlinear_arith)
        requires
            n * u - u < x < n * u + u,
            u > 0,
    ;
}

/// Rounding to 53 bits changes a number by no more than a 53rd power of two of it, or by one.
pub proof fn rounding_is_near(n: nat)
    ensures
        TWO_53 * (to_53_bits(n, 1) - n) <= n + TWO_53,
        TWO_53 * (n - to_53_bits(n, 1)) <= n + TWO_53,
{
    lemma_53_bits_near(n, 1);
}

} // verus!
