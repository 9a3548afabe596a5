//! Whole numbers as single-precision arithmetic holds them.
//!
//! A single-precision number has 24 significant bits. A whole number that needs more of them is
//! held as the nearest one that does not, the one with the even last bit where two are as near.

use vstd::arithmetic::power2::{
    lemma2_to64, lemma_pow2_adds, lemma_pow2_pos, lemma_pow2_strictly_increases, pow2,
};
use vstd::prelude::*;

verus! {

/// The first whole number with more than 24 significant bits.
pub const SINGLE_LIMIT: u64 = 16777216;

/// The distance between neighbouring single-precision numbers around `n`, when it is known to be
/// at least `g`.
pub open spec fn spacing(n: nat, g: nat) -> nat
    decreases n - g,
{
    if g == 0 || n < SINGLE_LIMIT * g {
        g
    } else {
        spacing(n, 2 * g)
    }
}

/// `n` rounded to the nearest multiple of `g`, to the even multiple where two are as near.
pub open spec fn nearest(n: nat, g: nat) -> nat {
    if 2 * (n % g) < g || (2 * (n % g) == g && (n / g) % 2 == 0) {
        n / g * g
    } else {
        (n / g + 1) * g
    }
}

/// The whole number that single precision holds for `n`.
pub open spec fn single(n: int) -> int {
    if n >= 0 {
        nearest(n as nat, spacing(n as nat, 1)) as int
    } else {
        -(nearest((-n) as nat, spacing((-n) as nat, 1)) as int)
    }
}

/// Numbers of up to 24 significant bits are held as they are.
pub proof fn law_single_exact(n: int)
    requires
        -0x100_0000 < n < 0x100_0000,
    ensures
        single(n) == n,
{
    let m: nat = if n >= 0 {
        n as nat
    } else {
        (-n) as nat
    };
    assert(spacing(m, 1) == 1);
    assert(m % 1 == 0 && m / 1 * 1 == m);
}

proof fn lemma_spacing_positive(n: nat, g: nat)
    requires
        g > 0,
    ensures
        spacing(n, g) > 0,
        spacing(n, g) == g || SINGLE_LIMIT * spacing(n, g) <= 2 * n,
    decreases n - g,
{
    if n >= SINGLE_LIMIT * g {
        lemma_spacing_positive(n, 2 * g);
    }
}

proof fn lemma_nearest_close(n: nat, g: nat)
    requires
        g > 0,
    ensures
        nearest(n, g) <= n + g,
        n / g * g <= n,
        (n / g + 1) * g <= n + g,
{
    assert(n == n / g * g + n % g && 0 <= n % g < g) by {
        vstd::arithmetic::div_mod::lemma_fundamental_div_mod(n as int, g as int);
        vstd::arithmetic::mul::lemma_mul_is_commutative(n as int / g as int, g as int);
    }
    assert((n / g + 1) * g == n / g * g + g) by (nonlinear_arith);
}

/// Holding a number in single precision keeps its sign and no more than doubles it.
pub(crate) proof fn lemma_single_range(n: int)
    ensures
        n >= 0 ==> 0 <= single(n) <= 2 * n + 1,
        n <= 0 ==> 2 * n - 1 <= single(n) <= 0,
{
    let m: nat = if n >= 0 {
        n as nat
    } else {
        (-n) as nat
    };
    lemma_spacing_positive(m, 1);
    lemma_nearest_close(m, spacing(m, 1));
}

/// The whole number that single precision holds for `n`.
pub(crate) fn to_single(n: i64) -> (held: i64)
    requires
        -0x4_0000_0000 <= n <= 0x4_0000_0000,
    ensures
        held == single(n as int),
{
    let m: u64 = if n >= 0 {
        n as u64
    } else {
        (-n) as u64
    };
    let mut g: u64 = 1;
    while m >= SINGLE_LIMIT * g
        invariant
            0 < g <= 4096,
            m <= 0x4_0000_0000,
            spacing(m as nat, 1) == spacing(m as nat, g as nat),
        decreases m - g,
    {
        g = 2 * g;
    }
    proof {
        lemma_nearest_close(m as nat, g as nat);
    }
    let q: u64 = m / g;
    let r: u64 = m % g;
    let held: u64 = if 2 * r < g || (2 * r == g && q % 2 == 0) {
        q * g
    } else {
        (q + 1) * g
    };
    if n >= 0 {
        held as i64
    } else {
        -(held as i64)
    }
}

/// How far two numbers are apart.
pub open spec fn distance(a: int, b: int) -> int {
    if a >= b {
        a - b
    } else {
        b - a
    }
}

/// Whether 24 significant bits are enough for the number: they are for a number of up to 24 bits
/// with zeros behind it.
pub open spec fn is_short(r: int, q: int, e: nat) -> bool {
    r == q * pow2(e) && -0x100_0000 <= q <= 0x100_0000
}

/// A number is held as the opposite of what its opposite is held as.
pub proof fn law_single_is_symmetric(n: int)
    ensures
        single(-n) == -single(n),
{
    lemma_single_range(0);
}

/// What single precision holds has no more than 24 significant bits.
pub proof fn law_single_is_short(n: int)
    ensures
        exists|q: int, e: nat| #[trigger] is_short(single(n), q, e),
{
    let m: nat = if n >= 0 {
        n as nat
    } else {
        (-n) as nat
    };
    let g = spacing(m, 1);
    lemma2_to64();
    let e = lemma_spacing(m, 1, 0);
    lemma_around(m, g);
    assert(m / g < SINGLE_LIMIT) by (nonlinear_arith)
        requires
            m / g * g <= m,
            m < SINGLE_LIMIT * g,
            g > 0,
    ;
    let q: int = if nearest(m, g) == m / g * g {
        m as int / g as int
    } else {
        m as int / g as int + 1
    };
    assert(nearest(m, g) == q * g);
    if n >= 0 {
        assert(is_short(single(n), q, e));
    } else {
        assert(-(q * g) == (-q) * g) by (nonlinear_arith);
        assert(is_short(single(n), -q, e));
    }
}

/// No number of 24 significant bits is nearer than what single precision holds, and where another
/// one is as near, the one held is the multiple of twice their distance: the one with the even
/// last bit.
pub proof fn law_single_is_nearest(n: int, r: int, q: int, e: nat)
    requires
        is_short(r, q, e),
    ensures
        distance(n, single(n)) <= distance(n, r),
        r != single(n) && distance(n, single(n)) == distance(n, r) ==> single(n) % (2 * distance(
            r,
            single(n),
        )) == 0,
{
    if n >= 0 {
        lemma_nearest_of(n as nat, r, q, e);
    } else {
        assert(-(q * pow2(e)) == (-q) * pow2(e)) by (nonlinear_arith);
        lemma_nearest_of((-n) as nat, -r, -q, e);
        let d = distance(r, single(n));
        if r != single(n) && distance(n, single(n)) == distance(n, r) {
            assert(distance(-r, single(-n)) == d);
            let s = single(-n);
            assert(s % (2 * d) == 0);
            assert(single(n) == -s);
            let j = s / (2 * d);
            vstd::arithmetic::div_mod::lemma_fundamental_div_mod(s, 2 * d);
            assert(-s == (-j) * (2 * d)) by (nonlinear_arith)
                requires
                    s == 2 * d * j,
            ;
            vstd::arithmetic::div_mod::lemma_mod_multiples_basic(-j, 2 * d);
        }
    }
}

/// Numbers of up to 24 significant bits are held as they are, however large they are.
pub proof fn law_short_numbers_are_kept(r: int, q: int, e: nat)
    requires
        is_short(r, q, e),
    ensures
        single(r) == r,
{
    law_single_is_nearest(r, r, q, e);
}

/// A greater number is not held as a lesser one.
pub proof fn law_single_keeps_order(a: int, b: int)
    requires
        a <= b,
    ensures
        single(a) <= single(b),
{
    if single(a) > single(b) {
        law_single_is_short(a);
        law_single_is_short(b);
        let (p, d) = choose|p: int, d: nat| #[trigger] is_short(single(a), p, d);
        let (q, e) = choose|q: int, e: nat| #[trigger] is_short(single(b), q, e);
        law_single_is_nearest(a, single(b), q, e);
        law_single_is_nearest(b, single(a), p, d);
    }
}

proof fn lemma_around(n: nat, g: nat)
    requires
        g > 0,
    ensures
        n / g * g <= n < n / g * g + g,
        n == n / g * g + n % g,
        (n / g + 1) * g == n / g * g + g,
{
    lemma_nearest_close(n, g);
    vstd::arithmetic::div_mod::lemma_fundamental_div_mod(n as int, g as int);
    vstd::arithmetic::mul::lemma_mul_is_commutative(n as int / g as int, g as int);
    assert((n / g + 1) * g == n / g * g + g) by (nonlinear_arith);
}

proof fn lemma_spacing(n: nat, g: nat, d: nat) -> (e: nat)
    requires
        g == pow2(d),
    ensures
        spacing(n, g) == pow2(e),
        e >= d,
        n < SINGLE_LIMIT * spacing(n, g),
        e > d ==> SINGLE_LIMIT * spacing(n, g) <= 2 * n,
        spacing(n, g) > 0,
    decreases n - g,
{
    lemma_pow2_pos(d);
    if n < SINGLE_LIMIT * g {
        d
    } else {
        lemma_pow2_adds(1, d);
        lemma2_to64();
        let e = lemma_spacing(n, 2 * g, d + 1);
        lemma_pow2_pos(e);
        e
    }
}

proof fn lemma_nearest_of(n: nat, r: int, q: int, e: nat)
    requires
        is_short(r, q, e),
    ensures
        distance(n as int, single(n as int)) <= distance(n as int, r),
        r != single(n as int) && distance(n as int, single(n as int)) == distance(n as int, r)
            ==> single(n as int) % (2 * distance(r, single(n as int))) == 0,
{
    let g = spacing(n, 1);
    lemma2_to64();
    let d = lemma_spacing(n, 1, 0);
    let k = n as int / g as int;
    let low = k * g;
    lemma_around(n, g);
    assert(r <= low || r >= low + g) by {
        lemma_pow2_pos(e);
        if d <= e {
            let f = (e - d) as nat;
            lemma_pow2_adds(f, d);
            let c = q * pow2(f);
            assert(r == c * g) by (nonlinear_arith)
                requires
                    r == q * pow2(e),
                    pow2(e) == pow2(f) * g,
                    c == q * pow2(f),
            ;
            if c <= k {
                assert(c * g <= k * g) by (nonlinear_arith)
                    requires
                        c <= k,
                        g > 0,
                ;
            } else {
                assert(c * g >= k * g + g) by (nonlinear_arith)
                    requires
                        c >= k + 1,
                        g > 0,
                ;
            }
        } else {
            let f = (d - 1) as nat;
            lemma_pow2_adds(1, f);
            if e < f {
                lemma_pow2_strictly_increases(e, f);
            }
            let half = pow2(f);
            assert(q * pow2(e) <= SINGLE_LIMIT * half) by (nonlinear_arith)
                requires
                    q <= SINGLE_LIMIT,
                    0 < pow2(e) <= half,
            ;
            let h: int = 8388608;
            assert(h <= k) by (nonlinear_arith)
                requires
                    h * g <= n,
                    n < k * g + g,
                    g > 0,
            ;
            assert(h * g <= k * g) by (nonlinear_arith)
                requires
                    h <= k,
                    g > 0,
            ;
        }
    }
    if r != single(n as int) && distance(n as int, single(n as int)) == distance(n as int, r) {
        let s = single(n as int);
        assert(distance(r, s) == g);
        assert(2 * (n % g) == g);
        let even = if k % 2 == 0 {
            k
        } else {
            k + 1
        };
        assert(s == even * g);
        let j = even / 2;
        assert(s == j * (2 * g)) by (nonlinear_arith)
            requires
                s == even * g,
                even == 2 * j,
        ;
        vstd::arithmetic::div_mod::lemma_mod_multiples_basic(j, 2 * g as int);
    }
}

} // verus!
