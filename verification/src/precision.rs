//! Floating-point arithmetic on whole numbers.
//!
//! A single-precision number has 24 significant bits, a double-precision number 53.
//! Every operation rounds its exact result to the nearest such number, on a tie to the
//! one with an even last bit. Fractions are held as whole multiples of a small power of
//! two.
use vstd::arithmetic::power2::pow2;
use vstd::prelude::*;

verus! {

/// The spacing of the single-precision numbers around a whole number: the power of two
/// that leaves no more than 24 bits.
pub open spec fn grain(n: nat) -> nat
    decreases n,
{
    if n < 0x100_0000 {
        1
    } else {
        2 * grain(n / 2)
    }
}

/// The multiple of a unit that is nearest to a number, on a tie the even multiple.
pub open spec fn nearest_multiple(n: nat, unit: nat) -> nat {
    let q = n / unit;
    let r = n % unit;
    if 2 * r < unit || (2 * r == unit && q % 2 == 0) {
        q * unit
    } else {
        (q + 1) * unit
    }
}

/// A whole number rounded to single precision.
pub open spec fn rounded(n: nat) -> nat {
    nearest_multiple(n, grain(n))
}

/// The spacing of the double-precision numbers around a whole number.
pub open spec fn double_grain(n: nat) -> nat
    decreases n,
{
    if n < 0x20_0000_0000_0000 {
        1
    } else {
        2 * double_grain(n / 2)
    }
}

/// A whole number rounded to double precision.
pub open spec fn to_double(n: nat) -> nat {
    nearest_multiple(n, double_grain(n))
}

/// The power of two next to or below the square root of a positive number.
pub open spec fn root_floor(s: nat) -> nat
    decreases s,
{
    if s < 4 {
        1
    } else {
        2 * root_floor(s / 4)
    }
}

/// `r` is the square root of `s` in units of 2^-23, rounded to single precision: a
/// multiple of the spacing there, and no more than half of it away from the root. (The
/// root never lies halfway between two of them.)
pub open spec fn is_root(s: nat, r: nat) -> bool {
    let p = root_floor(s) as int;
    &&& r as int % p == 0
    &&& 0 < r
    &&& (2 * r - p) * (2 * r - p) < s * 0x1_0000_0000_0000
    &&& s * 0x1_0000_0000_0000 <= (2 * r + p) * (2 * r + p)
}

pub proof fn lemma_grain(n: nat)
    ensures
        1 <= grain(n),
        n < 0x100_0000 * grain(n),
        grain(n) == 1 || 0x80_0000 * grain(n) <= n,
        n < 0x100_0000 ==> grain(n) == 1,
    decreases n,
{
    if n >= 0x100_0000 {
        lemma_grain(n / 2);
    }
}

/// The spacing never falls from a number to a larger one, and if it differs, it at least
/// doubles.
proof fn lemma_grain_steps(n: nat, m: nat)
    requires
        n <= m,
    ensures
        grain(n) == grain(m) || 2 * grain(n) <= grain(m),
    decreases m,
{
    if m >= 0x100_0000 {
        lemma_grain(m / 2);
        if n >= 0x100_0000 {
            lemma_grain_steps(n / 2, m / 2);
        }
    }
}

proof fn lemma_nearest_multiple(n: nat, unit: nat)
    requires
        unit > 0,
    ensures
        ({
            let q = n / unit;
            let near = nearest_multiple(n, unit);
            &&& near == q * unit || near == (q + 1) * unit
            &&& q * unit <= n < (q + 1) * unit
            &&& 2 * near <= 2 * n + unit
            &&& 2 * n <= 2 * near + unit
        }),
{
    let q = n / unit;
    assert(n == q * unit + n % unit && 0 <= n % unit < unit) by (nonlinear_arith)
        requires
            unit > 0,
            q == n / unit,
    ;
    assert((q + 1) * unit == q * unit + unit) by (nonlinear_arith);
}

/// Rounding moves a number by half the spacing at most, and does not move one below
/// 2^24 at all.
pub proof fn lemma_rounded(n: nat)
    ensures
        2 * rounded(n) <= 2 * n + grain(n),
        2 * n <= 2 * rounded(n) + grain(n),
        n < 0x100_0000 ==> rounded(n) == n,
        n >= 1 ==> rounded(n) >= 1,
        rounded(n) <= 0x100_0000 * grain(n),
        grain(n) == 1 || 0x80_0000 * grain(n) <= rounded(n),
{
    lemma_grain(n);
    let g = grain(n);
    lemma_nearest_multiple(n, g);
    let q = n / g;
    assert(q < 0x100_0000) by (nonlinear_arith)
        requires
            n < 0x100_0000 * g,
            q == n / g,
            g >= 1,
    ;
    assert((q + 1) * g <= 0x100_0000 * g) by (nonlinear_arith)
        requires
            q < 0x100_0000,
            g >= 1,
    ;
    assert(q * g <= (q + 1) * g) by (nonlinear_arith)
        requires
            g >= 1,
    ;
    if g > 1 {
        assert(0x80_0000 <= q) by (nonlinear_arith)
            requires
                0x80_0000 * g <= n,
                q == n / g,
                g >= 1,
        ;
        assert(0x80_0000 * g <= q * g) by (nonlinear_arith)
            requires
                0x80_0000 <= q,
                g >= 1,
        ;
    }
}

/// Rounding keeps the order of numbers.
pub proof fn lemma_rounded_is_monotone(n: nat, m: nat)
    requires
        n <= m,
    ensures
        rounded(n) <= rounded(m),
{
    lemma_grain(n);
    lemma_grain(m);
    lemma_grain_steps(n, m);
    lemma_rounded(n);
    lemma_rounded(m);
    if grain(n) == grain(m) {
        let g = grain(n);
        lemma_nearest_multiple(n, g);
        lemma_nearest_multiple(m, g);
        let q = n / g;
        let t = m / g;
        assert(q <= t) by (nonlinear_arith)
            requires
                n <= m,
                g >= 1,
                q == n / g,
                t == m / g,
        ;
        if q < t {
            assert((q + 1) * g <= t * g && q * g <= t * g && t * g <= (t + 1) * g) by (
            nonlinear_arith)
                requires
                    q + 1 <= t,
                    g >= 1,
            ;
        } else {
            assert(n % g <= m % g) by (nonlinear_arith)
                requires
                    n <= m,
                    g >= 1,
                    n / g == m / g,
            ;
            assert(q * g <= (q + 1) * g) by (nonlinear_arith)
                requires
                    g >= 1,
            ;
        }
    }
}

pub proof fn lemma_root_floor(s: nat)
    requires
        s >= 1,
    ensures
        1 <= root_floor(s),
        root_floor(s) * root_floor(s) <= s,
        s < 4 * (root_floor(s) * root_floor(s)),
    decreases s,
{
    if s >= 4 {
        lemma_root_floor(s / 4);
        let p = root_floor(s / 4);
        assert((2 * p) * (2 * p) == 4 * (p * p)) by (nonlinear_arith);
    }
}

proof fn lemma_root_floor_steps(s: nat, t: nat)
    requires
        s <= t,
    ensures
        root_floor(s) == root_floor(t) || 2 * root_floor(s) <= root_floor(t),
        1 <= root_floor(t),
    decreases t,
{
    if t >= 4 {
        if s >= 4 {
            lemma_root_floor_steps(s / 4, t / 4);
        } else {
            lemma_root_floor_steps(t / 4, t / 4);
        }
    }
}

/// The spacing around a whole number.
fn grain_of(n: u64) -> (g: u64)
    ensures
        g == grain(n as nat),
        g == 1 || 0x80_0000 * g <= n,
    decreases n,
{
    proof {
        lemma_grain(n as nat);
    }
    if n < 0x100_0000 {
        1
    } else {
        2 * grain_of(n / 2)
    }
}

/// A whole number rounded to single precision.
pub fn round_single(n: u64) -> (r: u64)
    requires
        n < 0x1000_0000_0000_0000,
    ensures
        r == rounded(n as nat),
{
    let g: u64 = grain_of(n);
    proof {
        lemma_grain(n as nat);
        lemma_rounded(n as nat);
        lemma_nearest_multiple(n as nat, g as nat);
        assert((n / g + 1) * g == (n / g) * g + g) by (nonlinear_arith);
    }
    let q: u64 = n / g;
    let r: u64 = n % g;
    if 2 * r < g || (2 * r == g && q % 2 == 0) {
        q * g
    } else {
        (q + 1) * g
    }
}

/// The power of two next to or below the square root of a positive number.
fn root_floor_of(s: u64) -> (p: u64)
    requires
        1 <= s < 0x8000_0000,
    ensures
        p == root_floor(s as nat),
        1 <= p <= 0x1_0000,
    decreases s,
{
    proof {
        lemma_root_floor(s as nat);
        let p = root_floor(s as nat);
        assert(p <= 0x1_0000) by (nonlinear_arith)
            requires
                p * p < 0x8000_0000,
        ;
    }
    if s < 4 {
        1
    } else {
        2 * root_floor_of(s / 4)
    }
}

/// Whether the number halfway below `k` units of size `p` is less than the root of `x`.
fn halfway_below(k: u64, p: u64, x: u128) -> (b: bool)
    requires
        1 <= k <= 0x100_0001,
        1 <= p <= 0x1_0000,
    ensures
        b == (((2 * k - 1) * p) * ((2 * k - 1) * p) < x),
{
    proof {
        assert(0 <= (2 * k - 1) * p <= 0x200_0001 * 0x1_0000) by (nonlinear_arith)
            requires
                1 <= k <= 0x100_0001,
                1 <= p <= 0x1_0000,
        ;
        let h = (2 * k - 1) * p;
        assert(0 <= h * h <= (0x200_0001 * 0x1_0000) * (0x200_0001 * 0x1_0000)) by (nonlinear_arith)
            requires
                0 <= h <= 0x200_0001 * 0x1_0000,
        ;
    }
    let h: u128 = (2 * k as u128 - 1) * p as u128;
    h * h < x
}

/// The square root of a positive number in units of 2^-23, rounded to single precision.
pub fn root_single(s: u64) -> (r: u64)
    requires
        1 <= s < 0x8000_0000,
    ensures
        is_root(s as nat, r as nat),
        r <= 0x100_0000_0000,
{
    let p: u64 = root_floor_of(s);
    let x: u128 = s as u128 * 0x1_0000_0000_0000;
    let mut lo: u64 = 1;
    let mut hi: u64 = 0x100_0001;
    proof {
        lemma_root_floor(s as nat);
        let top = 0x200_0001 * p;
        assert(top * top >= (4 * (p * p)) * 0x1_0000_0000_0000) by (nonlinear_arith)
            requires
                top == 0x200_0001 * p,
                p >= 1,
        ;
        assert(((2 * lo - 1) * p) * ((2 * lo - 1) * p) == p * p) by (nonlinear_arith)
            requires
                lo == 1,
        ;
    }
    while hi - lo > 1
        invariant
            1 <= lo < hi <= 0x100_0001,
            1 <= p <= 0x1_0000,
            ((2 * lo - 1) * p) * ((2 * lo - 1) * p) < x,
            !(((2 * hi - 1) * p) * ((2 * hi - 1) * p) < x),
        decreases hi - lo,
    {
        let mid: u64 = lo + (hi - lo) / 2;
        if halfway_below(mid, p, x) {
            lo = mid;
        } else {
            hi = mid;
        }
    }
    proof {
        assert(1 <= lo * p <= 0x100_0000 * 0x1_0000) by (nonlinear_arith)
            requires
                1 <= lo <= 0x100_0000,
                1 <= p <= 0x1_0000,
        ;
        lemma_multiple(lo as int, p as int);
        assert((2 * lo - 1) * p == 2 * (lo * p) - p) by (nonlinear_arith);
        assert((2 * hi - 1) * p == 2 * (lo * p) + p) by (nonlinear_arith)
            requires
                hi == lo + 1,
        ;
    }
    lo * p
}

/// The rounded square root keeps the order of numbers.
pub proof fn lemma_root_is_monotone(s: nat, t: nat, r: nat, u: nat)
    requires
        1 <= s <= t,
        is_root(s, r),
        is_root(t, u),
    ensures
        r <= u,
{
    let p = root_floor(s) as int;
    let q = root_floor(t) as int;
    lemma_root_floor(s);
    lemma_root_floor(t);
    lemma_root_floor_steps(s, t);
    let scale = 0x1_0000_0000_0000int;
    if u < r {
        if p == q {
            lemma_multiples_apart(u as int, r as int, p);
            assert((2 * u + p) * (2 * u + p) <= (2 * r - p) * (2 * r - p)) by (nonlinear_arith)
                requires
                    0 <= 2 * u + p <= 2 * r - p,
            ;
        } else {
            // `r` is at most 2^24 spacings of its own, `u` at least 2^23 of the larger ones.
            assert(2 * r - p < 0x200_0000 * p) by (nonlinear_arith)
                requires
                    (2 * r - p) * (2 * r - p) < s * scale,
                    s < 4 * (p * p),
                    scale == 0x1_0000_0000_0000,
                    p >= 1,
            ;
            assert(2 * u + q >= 0x100_0000 * q) by (nonlinear_arith)
                requires
                    t * scale <= (2 * u + q) * (2 * u + q),
                    q * q <= t,
                    scale == 0x1_0000_0000_0000,
                    q >= 1,
                    u >= 0,
            ;
            lemma_multiple(0x100_0000, p);
            lemma_multiple(0x80_0000, q);
            if r > 0x100_0000 * p {
                lemma_multiples_apart(0x100_0000 * p, r as int, p);
            }
            if u < 0x80_0000 * q {
                lemma_multiples_apart(u as int, 0x80_0000 * q, q);
            }
        }
    }
}

proof fn lemma_multiple(k: int, unit: int)
    requires
        unit >= 1,
    ensures
        (k * unit) % unit == 0,
{
    assert((k * unit) % unit == 0) by (nonlinear_arith)
        requires
            unit >= 1,
    ;
}

proof fn lemma_multiples_apart(a: int, b: int, unit: int)
    requires
        unit >= 1,
        a % unit == 0,
        b % unit == 0,
        a < b,
    ensures
        a + unit <= b,
{
    assert(a + unit <= b) by (nonlinear_arith)
        requires
            unit >= 1,
            a % unit == 0,
            b % unit == 0,
            a < b,
    ;
}

proof fn lemma_double_grain(n: nat)
    ensures
        1 <= double_grain(n),
        double_grain(n) == 1 || 0x10_0000_0000_0000 * double_grain(n) <= n,
    decreases n,
{
    if n >= 0x20_0000_0000_0000 {
        lemma_double_grain(n / 2);
    }
}

/// A number up to 2^53 is a double-precision number.
pub proof fn lemma_small_number_is_double(n: nat)
    requires
        n <= 0x20_0000_0000_0000,
    ensures
        to_double(n) == n,
{
    reveal_with_fuel(double_grain, 2);
    lemma_nearest_multiple(n, double_grain(n));
}

/// The spacing of the double-precision numbers around a whole number.
fn double_grain_of(n: u128) -> (g: u128)
    ensures
        g == double_grain(n as nat),
        1 <= g,
        g == 1 || 0x10_0000_0000_0000 * g <= n,
    decreases n,
{
    proof {
        lemma_double_grain(n as nat);
    }
    if n < 0x20_0000_0000_0000 {
        1
    } else {
        2 * double_grain_of(n / 2)
    }
}

/// A whole number rounded to double precision.
pub fn round_double(n: u128) -> (r: u128)
    requires
        n < 0x4000_0000_0000_0000_0000_0000_0000_0000,
    ensures
        r == to_double(n as nat),
{
    let g: u128 = double_grain_of(n);
    proof {
        lemma_nearest_multiple(n as nat, g as nat);
        assert((n / g + 1) * g == (n / g) * g + g) by (nonlinear_arith);
    }
    let q: u128 = n / g;
    let r: u128 = n % g;
    if 2 * r < g || (2 * r == g && q % 2 == 0) {
        q * g
    } else {
        (q + 1) * g
    }
}

/// `r` is the multiple of a unit nearest to `n`, and the even one of two equally near.
pub open spec fn nearest_even(n: nat, r: nat, unit: nat) -> bool {
    &&& r % unit == 0
    &&& 2 * r <= 2 * n + unit
    &&& 2 * n <= 2 * r + unit
    &&& 2 * r == 2 * n + unit || 2 * n == 2 * r + unit ==> (r / unit) % 2 == 0
}

proof fn lemma_nearest_even(n: nat, unit: nat)
    requires
        unit > 0,
    ensures
        nearest_even(n, nearest_multiple(n, unit), unit),
{
    lemma_nearest_multiple(n, unit);
    let q = n / unit;
    let r = n % unit;
    let near = nearest_multiple(n, unit);
    assert(n == q * unit + r && 0 <= r < unit) by (nonlinear_arith)
        requires
            unit > 0,
            q == n / unit,
            r == n % unit,
    ;
    assert((q + 1) * unit == q * unit + unit) by (nonlinear_arith);
    assert((q * unit) % unit == 0 && (q * unit) / unit == q) by {
        vstd::arithmetic::div_mod::lemma_mod_multiples_basic(q as int, unit as int);
        vstd::arithmetic::div_mod::lemma_div_by_multiple(q as int, unit as int);
    }
    assert(((q + 1) * unit) % unit == 0 && ((q + 1) * unit) / unit == q + 1) by {
        vstd::arithmetic::div_mod::lemma_mod_multiples_basic((q + 1) as int, unit as int);
        vstd::arithmetic::div_mod::lemma_div_by_multiple((q + 1) as int, unit as int);
    }
}

proof fn lemma_grain_is_power(n: nat, k: nat)
    requires
        n < 0x100_0000 * pow2(k),
        k == 0 || 0x80_0000 * pow2(k) <= n,
    ensures
        grain(n) == pow2(k),
    decreases k,
{
    vstd::arithmetic::power2::lemma2_to64();
    if k > 0 {
        let j = (k - 1) as nat;
        vstd::arithmetic::power2::lemma_pow2_unfold(k);
        vstd::arithmetic::power2::lemma_pow2_pos(j);
        lemma_grain_is_power(n / 2, j);
    }
}

proof fn lemma_double_grain_is_power(n: nat, k: nat)
    requires
        n < 0x20_0000_0000_0000 * pow2(k),
        k == 0 || 0x10_0000_0000_0000 * pow2(k) <= n,
    ensures
        double_grain(n) == pow2(k),
    decreases k,
{
    vstd::arithmetic::power2::lemma2_to64();
    if k > 0 {
        let j = (k - 1) as nat;
        vstd::arithmetic::power2::lemma_pow2_unfold(k);
        vstd::arithmetic::power2::lemma_pow2_pos(j);
        lemma_double_grain_is_power(n / 2, j);
    }
}

/// A number that takes `24 + k` bits is rounded to the nearest multiple of the `k`-th power
/// of two, on a tie to the even one, and one that takes no more than 24 bits stays.
pub proof fn lemma_single_is_nearest(n: nat, k: nat)
    requires
        n < 0x100_0000 * pow2(k),
        k == 0 || 0x80_0000 * pow2(k) <= n,
    ensures
        nearest_even(n, rounded(n), pow2(k)),
        k == 0 ==> rounded(n) == n,
{
    vstd::arithmetic::power2::lemma2_to64();
    vstd::arithmetic::power2::lemma_pow2_pos(k);
    lemma_grain_is_power(n, k);
    lemma_nearest_even(n, pow2(k));
    lemma_rounded(n);
}

/// A number that takes `53 + k` bits is rounded to the nearest multiple of the `k`-th power
/// of two, on a tie to the even one, and one that takes no more than 53 bits stays.
pub proof fn lemma_double_is_nearest(n: nat, k: nat)
    requires
        n < 0x20_0000_0000_0000 * pow2(k),
        k == 0 || 0x10_0000_0000_0000 * pow2(k) <= n,
    ensures
        nearest_even(n, to_double(n), pow2(k)),
        k == 0 ==> to_double(n) == n,
{
    vstd::arithmetic::power2::lemma2_to64();
    vstd::arithmetic::power2::lemma_pow2_pos(k);
    lemma_double_grain_is_power(n, k);
    lemma_nearest_even(n, pow2(k));
    if k == 0 {
        lemma_small_number_is_double(n);
    }
}

proof fn lemma_root_floor_is_power(s: nat, k: nat)
    requires
        pow2(k) * pow2(k) <= s < 4 * (pow2(k) * pow2(k)),
    ensures
        root_floor(s) == pow2(k),
    decreases k,
{
    vstd::arithmetic::power2::lemma2_to64();
    if k > 0 {
        let j = (k - 1) as nat;
        vstd::arithmetic::power2::lemma_pow2_unfold(k);
        vstd::arithmetic::power2::lemma_pow2_pos(j);
        let p = pow2(j);
        assert((2 * p) * (2 * p) == 4 * (p * p) && p * p >= 1) by (nonlinear_arith)
            requires
                p >= 1,
        ;
        lemma_root_floor_is_power(s / 4, j);
    } else {
        assert(1 * 1 <= s < 4);
    }
}

/// The root of a number whose root takes `k + 1` bits before the point is, in units of
/// 2^-23, the multiple of the `k`-th power of two nearest to the exact root.
pub proof fn lemma_root_is_nearest(s: nat, r: nat, k: nat)
    requires
        pow2(k) * pow2(k) <= s < 4 * (pow2(k) * pow2(k)),
        is_root(s, r),
    ensures
        r % pow2(k) == 0,
        ({
            let p = pow2(k) as int;
            &&& (2 * r - p) * (2 * r - p) < 0x1_0000_0000_0000 * s
            &&& 0x1_0000_0000_0000 * s <= (2 * r + p) * (2 * r + p)
        }),
        r > 0,
{
    lemma_root_floor_is_power(s, k);
    vstd::arithmetic::power2::lemma_pow2_pos(k);
}

} // verus!
