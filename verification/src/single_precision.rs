//! Arithmetic in single precision, on integers: a result is rounded to 24 binary places, halves to
//! even.
use vstd::prelude::*;

verus! {

/// The first number with more than 24 binary places.
pub const PLACES: u64 = 0x100_0000;

/// The integer nearest to a quotient; of two that are as near, the even one.
pub open spec fn nearest(n: nat, d: nat) -> nat {
    let below = n / d;
    let rest = n % d;
    if 2 * rest < d {
        below
    } else if 2 * rest > d {
        below + 1
    } else {
        below + below % 2
    }
}

/// The integer nearest to a quotient.
pub fn nearest_quotient(n: u64, d: u64) -> (r: u64)
    requires
        0 < d < 0x8000_0000_0000_0000,
        n < u64::MAX,
    ensures
        r == nearest(n as nat, d as nat),
{
    let below: u64 = n / d;
    let rest: u64 = n % d;
    proof {
        assert(below <= n) by (nonlinear_arith)
            requires
                below == n / d,
                d > 0,
                n >= 0,
        ;
    }
    if 2 * rest < d {
        below
    } else if 2 * rest > d {
        below + 1
    } else {
        below + below % 2
    }
}

/// The nearest integers keep the order of the quotients.
pub proof fn lemma_nearest_keeps_order(n: nat, d: nat, m: nat, e: nat)
    requires
        d > 0,
        e > 0,
        n * e <= m * d,
    ensures
        nearest(n, d) <= nearest(m, e),
{
    let (p, r) = (n / d, n % d);
    let (q, s) = (m / e, m % e);
    assert(n == p * d + r && 0 <= r < d) by (nonlinear_arith)
        requires
            p == n / d,
            r == n % d,
            d > 0,
    ;
    assert(m == q * e + s && 0 <= s < e) by (nonlinear_arith)
        requires
            q == m / e,
            s == m % e,
            e > 0,
    ;
    assert(p <= q) by (nonlinear_arith)
        requires
            n == p * d + r,
            m == q * e + s,
            r >= 0,
            s < e,
            d > 0,
            e > 0,
            n * e <= m * d,
    ;
    if p == q {
        assert(r * e <= s * d) by (nonlinear_arith)
            requires
                n == p * d + r,
                m == p * e + s,
                n * e <= m * d,
        ;
        if 2 * r >= d {
            assert(2 * s >= e) by (nonlinear_arith)
                requires
                    r * e <= s * d,
                    2 * r >= d,
                    d > 0,
                    e > 0,
            ;
            if 2 * r > d {
                assert(2 * s > e) by (nonlinear_arith)
                    requires
                        r * e <= s * d,
                        2 * r > d,
                        d > 0,
                        e > 0,
                ;
            }
        }
    }
}

/// A quotient that is an integer is nearest to itself.
pub proof fn lemma_nearest_is_exact(n: nat, d: nat)
    requires
        d > 0,
    ensures
        nearest(n * d, d) == n,
{
    assert((n * d) / d == n && (n * d) % d == 0) by (nonlinear_arith)
        requires
            d > 0,
    ;
}

/// The value of the last of 24 places of an integer.
pub open spec fn last_place(n: nat) -> nat
    decreases n,
{
    if n < PLACES {
        1
    } else {
        2 * last_place(n / 2)
    }
}

/// An integer, rounded to 24 places.
pub open spec fn rounded(n: nat) -> nat {
    nearest(n, last_place(n)) * last_place(n)
}

proof fn lemma_last_place(n: nat)
    ensures
        last_place(n) >= 1,
        n < PLACES * last_place(n),
        last_place(n) > 1 ==> 2 * n >= PLACES * last_place(n),
        last_place(n) <= n + 1,
    decreases n,
{
    if n >= PLACES {
        lemma_last_place(n / 2);
    }
}

proof fn lemma_last_place_keeps_order(n: nat, m: nat)
    requires
        n <= m,
    ensures
        last_place(n) == last_place(m) || 2 * last_place(n) <= last_place(m),
    decreases m,
{
    if m >= PLACES {
        lemma_last_place(m / 2);
        if n >= PLACES {
            lemma_last_place_keeps_order(n / 2, m / 2);
        }
    }
}

/// Rounding keeps the order.
pub proof fn lemma_rounding_keeps_order(n: nat, m: nat)
    requires
        n <= m,
    ensures
        rounded(n) <= rounded(m),
{
    let u = last_place(n);
    let v = last_place(m);
    lemma_last_place(n);
    lemma_last_place(m);
    lemma_last_place_keeps_order(n, m);
    if u == v {
        assert(n * u <= m * u) by (nonlinear_arith)
            requires
                n <= m,
                u >= 1,
        ;
        lemma_nearest_keeps_order(n, u, m, u);
        assert(nearest(n, u) * u <= nearest(m, u) * u) by (nonlinear_arith)
            requires
                nearest(n, u) <= nearest(m, u),
                u >= 1,
        ;
    } else {
        let c = PLACES as nat;
        let half = (PLACES / 2) as nat;
        assert(n * 1 <= c * u);
        lemma_nearest_keeps_order(n, u, c, 1);
        lemma_nearest_is_exact(c, 1);
        assert(half * v <= m * 1) by (nonlinear_arith)
            requires
                2 * m >= c * v,
                c == 2 * half,
        ;
        lemma_nearest_keeps_order(half, 1, m, v);
        lemma_nearest_is_exact(half, 1);
        assert(nearest(n, u) * u <= nearest(m, v) * v) by (nonlinear_arith)
            requires
                nearest(n, u) <= c,
                half <= nearest(m, v),
                c == 2 * half,
                2 * u <= v,
                u >= 1,
        ;
    }
}

/// An integer, rounded to 24 places.
pub fn round_integer(n: u64) -> (r: u64)
    requires
        n < 0x1_0000_0000_0000,
    ensures
        r == rounded(n as nat),
{
    let mut unit: u64 = 1;
    let mut left: u64 = n;
    while left >= PLACES
        invariant
            last_place(n as nat) == unit * last_place(left as nat),
            unit * left <= n,
            unit >= 1,
            n < 0x1_0000_0000_0000,
        decreases left,
    {
        proof {
            assert(unit * left <= n && left >= PLACES ==> unit <= 0x100_0000) by (nonlinear_arith)
                requires
                    unit * left <= n,
                    n < 0x1_0000_0000_0000,
                    left >= 0x100_0000,
                    unit >= 1,
            ;
            assert((unit * 2) * (left / 2) <= unit * left) by (nonlinear_arith)
                requires
                    unit >= 1,
                    left >= 0,
            ;
            let inner = last_place((left / 2) as nat);
            assert(unit * (2 * inner) == (unit * 2) * inner) by (nonlinear_arith);
        }
        unit = unit * 2;
        left = left / 2;
    }
    proof {
        lemma_last_place(n as nat);
        assert(unit * 1 == unit);
        assert(unit == last_place(n as nat));
        let c = PLACES as nat;
        assert(n * 1 <= c * unit);
        lemma_nearest_keeps_order(n as nat, unit as nat, c, 1);
        lemma_nearest_is_exact(c, 1);
        assert(nearest(n as nat, unit as nat) * unit <= c * unit) by (nonlinear_arith)
            requires
                nearest(n as nat, unit as nat) <= c,
                unit >= 1,
        ;
        assert(c * unit <= u64::MAX);
    }
    nearest_quotient(n, unit) * unit
}

/// A quotient is rounded to the integer next to it, and halfway to the even one.
pub proof fn law_quotients_go_to_the_next_integer(n: nat, d: nat)
    requires
        d > 0,
    ensures
        2 * (nearest(n, d) * d) <= 2 * n + d,
        2 * n <= 2 * (nearest(n, d) * d) + d,
        2 * (nearest(n, d) * d) == 2 * n + d || 2 * n == 2 * (nearest(n, d) * d) + d ==> nearest(
            n,
            d,
        ) % 2 == 0,
{
    let q = n / d;
    let r = n % d;
    assert(n == q * d + r && r < d) by (nonlinear_arith)
        requires
            q == n / d,
            r == n % d,
            d > 0,
    ;
    assert((q + 1) * d == q * d + d) by (nonlinear_arith);
}

/// An integer of up to 24 places stands for itself; a longer one is off by less than a part in two
/// to the power 24.
pub proof fn law_rounding_keeps_the_places(n: nat)
    ensures
        n < 0x100_0000 ==> rounded(n) == n,
        (rounded(n) - n) * 0x100_0000 <= n,
        (n - rounded(n)) * 0x100_0000 <= n,
{
    let u = last_place(n);
    lemma_last_place(n);
    law_quotients_go_to_the_next_integer(n, u);
    if u == 1 {
        assert(n / 1 == n && n % 1 == 0);
        assert(nearest(n, 1) * 1 == nearest(n, 1));
    }
    if n < 0x100_0000 {
        assert(u == 1);
    }
}

} // verus!
