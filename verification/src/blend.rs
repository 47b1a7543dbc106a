//! Blending of colour channels, with the rounding of single-precision arithmetic.
//!
//! Derived shades are blends `a * (1 - t) + b * t` of two colour channels, computed in
//! single precision and rounded half up. The result of such a computation is defined
//! exactly: every operation yields its exact result rounded to 24 significant bits. Here the
//! numbers are kept as integers, in units of 2^-27, which is fine enough for every weight in
//! use and for every product and sum that a blend takes.

use vstd::arithmetic::power2::*;
use vstd::prelude::*;

verus! {

/// The weight 1.
pub const ONE: u32 = 0x0800_0000;

/// The single-precision weights of the derived shades.
pub const W_08: u32 = 10737418;

pub const W_10: u32 = 13421773;

pub const W_20: u32 = 26843546;

pub const W_25: u32 = 33554432;

pub const W_30: u32 = 40265320;

pub const W_34: u32 = 45634028;

pub const W_40: u32 = 53687092;

pub const W_50: u32 = 67108864;

/// The distance between neighbouring numbers of 24 significant bits, at `n`.
pub open spec fn step(n: nat) -> nat
    decreases n,
{
    if n < 0x100_0000 {
        1
    } else {
        2 * step(n / 2)
    }
}

/// `n` rounded to 24 significant bits, to the nearer neighbour, and to the even one at a tie.
pub open spec fn single(n: nat) -> nat {
    let s = step(n);
    let q = n / s;
    let r = n % s;
    if 2 * r > s || (2 * r == s && q % 2 == 1) {
        (q + 1) * s
    } else {
        q * s
    }
}

/// The weight a blend takes for `t`: at most 1, in single precision.
pub open spec fn weight(t: nat) -> nat {
    single(if t > ONE { ONE as nat } else { t })
}

/// The blend of two channel values: `a * (1 - t) + b * t`, rounded half up, each operation in
/// single precision.
pub open spec fn blended(a: u8, b: u8, t: nat) -> u8 {
    let w = weight(t);
    let v = single((ONE - w) as nat);
    let sum = single(single(a as nat * v) + single(b as nat * w));
    let half_up = single(sum + (ONE / 2) as nat) / (ONE as nat);
    (if half_up > 255 { 255 } else { half_up }) as u8
}

proof fn lemma_step(n: nat)
    ensures
        1 <= step(n),
        step(n) <= n || step(n) == 1,
    decreases n,
{
    if n >= 0x100_0000 {
        lemma_step(n / 2);
    }
}

/// Rounding at most doubles a number, and keeps the numbers of up to 24 bits.
proof fn lemma_single(n: nat)
    ensures
        single(n) <= 2 * n,
        n < 0x100_0000 ==> single(n) == n,
{
    lemma_step(n);
    let s = step(n);
    let q = n / s;
    let r = n % s;
    vstd::arithmetic::div_mod::lemma_fundamental_div_mod(n as int, s as int);
    if n < 0x100_0000 {
        assert(n as int / 1 == n && n as int % 1 == 0);
        assert(q * 1 == q);
    } else {
        assert((q + 1) * s <= 2 * n) by (nonlinear_arith)
            requires
                n == s * q + r,
                0 <= r,
                s <= n,
        ;
        assert(q * s <= n) by (nonlinear_arith)
            requires
                n == s * q + r,
                0 <= r,
        ;
    }
}

/// `n` rounded to 24 significant bits.
fn round(n: u64) -> (r: u64)
    requires
        n < 0x80_0000_0000,
    ensures
        r == single(n as nat),
        r <= 2 * n,
{
    let mut m: u64 = n;
    let mut s: u64 = 1;
    while m >= 0x100_0000
        invariant
            m <= n,
            n < 0x80_0000_0000,
            1 <= s,
            s * m <= n,
            step(n as nat) == s * step(m as nat),
        decreases m,
    {
        proof {
            let h = step(m as nat / 2);
            assert(s * (2 * h) == (2 * s) * h) by (nonlinear_arith);
            assert((2 * s) * (m / 2) <= s * m) by (nonlinear_arith)
                requires
                    1 <= s,
                    2 * (m / 2) <= m,
            ;
            assert(2 * s <= n) by (nonlinear_arith)
                requires
                    s * m <= n,
                    m >= 2,
                    s >= 1,
            ;
        }
        m = m / 2;
        s = s * 2;
    }
    proof {
        lemma_single(n as nat);
        assert(s * 1 == s) by (nonlinear_arith);
        let q = n / s;
        vstd::arithmetic::div_mod::lemma_fundamental_div_mod(n as int, s as int);
        assert(s <= n || s == 1) by {
            lemma_step(n as nat);
        }
        assert((q + 1) * s <= 0x100_0000_0000) by (nonlinear_arith)
            requires
                n == s * q + n % s,
                0 <= n % s,
                s <= n || s == 1,
                n < 0x80_0000_0000,
        ;
        assert(q * s <= n) by (nonlinear_arith)
            requires
                n == s * q + n % s,
                0 <= n % s,
        ;
        assert(s >= 1);
        assert(q <= n) by (nonlinear_arith)
            requires
                q * s <= n,
                s >= 1,
                q >= 0,
        ;
    }
    let q = n / s;
    let r = n % s;
    if 2 * r > s || (2 * r == s && q % 2 == 1) {
        (q + 1) * s
    } else {
        q * s
    }
}

/// The blend of two channel values with the weight `t` for `b`.
pub fn blend(a: u8, b: u8, t: u32) -> (r: u8)
    ensures
        r == blended(a, b, t as nat),
{
    let w = round(if t > ONE { ONE as u64 } else { t as u64 });
    proof {
        lemma_weight(t as nat);
    }
    let v = round(ONE as u64 - w);
    proof {
        assert(a * v <= 255 * 0x1000_0000) by (nonlinear_arith)
            requires
                a <= 255,
                v <= 0x1000_0000,
        ;
        assert(b * w <= 255 * 0x800_0000) by (nonlinear_arith)
            requires
                b <= 255,
                w <= 0x800_0000,
        ;
    }
    let sum = round(round(a as u64 * v) + round(b as u64 * w));
    let half_up = round(sum + ONE as u64 / 2) / ONE as u64;
    if half_up > 255 {
        255
    } else {
        half_up as u8
    }
}

/// Below 2^(24 + e) the distance between neighbouring numbers divides 2^e.
proof fn lemma_step_divides(n: nat, e: nat) -> (k: nat)
    requires
        n < 0x100_0000 * pow2(e),
    ensures
        pow2(e) == k * step(n),
    decreases e,
{
    lemma_pow2_pos(e);
    if n < 0x100_0000 {
        let k = pow2(e);
        assert(k * 1 == k) by (nonlinear_arith);
        k
    } else {
        if e == 0 {
            lemma2_to64();
        }
        lemma_pow2_unfold(e);
        let h = (e - 1) as nat;
        let k = lemma_step_divides(n / 2, h);
        let s = step(n / 2);
        assert(2 * (k * s) == k * (2 * s)) by (nonlinear_arith);
        k
    }
}

/// Numbers that are multiples of 2^12 and below 2^36 keep their value in rounding.
proof fn lemma_single_exact(n: nat)
    requires
        n % 4096 == 0,
        n < 0x10_0000_0000,
    ensures
        single(n) == n,
{
    lemma2_to64();
    lemma_step(n);
    let s = step(n);
    let k = lemma_step_divides(n, 12);
    let m = n / 4096;
    assert(n == (k * m) * s) by (nonlinear_arith)
        requires
            n == 4096 * m,
            4096 == k * s,
    ;
    vstd::arithmetic::div_mod::lemma_mod_multiples_basic((k * m) as int, s as int);
    vstd::arithmetic::div_mod::lemma_fundamental_div_mod(n as int, s as int);
    assert(n / s * s == n) by (nonlinear_arith)
        requires
            n == s * (n / s) + n % s,
            n % s == 0,
    ;
}

/// A weight is at most 1.
proof fn lemma_weight(t: nat)
    ensures
        weight(t) <= ONE,
{
    reveal_with_fuel(step, 6);
    let n = if t > ONE { ONE as nat } else { t };
    let s = step(n);
    assert(s == 1 || s == 2 || s == 4 || s == 8 || s == 16);
}

/// A blend with weight 0 is the first colour, with weight 1 the second one.
pub proof fn lemma_blend_ends(a: u8, b: u8)
    ensures
        blended(a, b, 0) == a,
        blended(a, b, ONE as nat) == b,
{
    assert(single(0) == 0) by {
        lemma_single(0);
    }
    lemma_single_exact(ONE as nat);
    assert(a as nat * 0 == 0 && b as nat * 0 == 0);
    let x = a as nat * (ONE as nat);
    let y = b as nat * (ONE as nat);
    lemma_single_exact(x);
    lemma_single_exact(y);
    lemma_single_exact(x + (ONE / 2) as nat);
    lemma_single_exact(y + (ONE / 2) as nat);
}

/// Below 2^36 rounding changes a number by at most 2^11.
proof fn lemma_single_near(n: nat)
    requires
        n < 0x10_0000_0000,
    ensures
        n - 2048 <= single(n) <= n + 2048,
{
    lemma2_to64();
    lemma_step(n);
    let s = step(n);
    let k = lemma_step_divides(n, 12);
    assert(s <= 4096) by (nonlinear_arith)
        requires
            4096 == k * s,
            1 <= s,
            0 <= k,
    ;
    let q = n / s;
    let r = n % s;
    vstd::arithmetic::div_mod::lemma_fundamental_div_mod(n as int, s as int);
    assert(q * s == n - r) by (nonlinear_arith)
        requires
            n == s * q + r,
    ;
    assert((q + 1) * s == n - r + s) by (nonlinear_arith)
        requires
            n == s * q + r,
    ;
}

/// Whether `c` is, rounded to a whole number, `percent` per cent of the way from `a` to `b`.
pub open spec fn part_way(c: u8, a: u8, b: u8, percent: int) -> bool {
    let exact = (100 - percent) * a + percent * b;
    -51 <= 100 * c - exact <= 51
}

/// A blend whose weight is `percent` per cent lies that far between its two colours.
proof fn lemma_part_way(a: u8, b: u8, t: nat, percent: int)
    requires
        0 <= percent <= 50,
        t <= ONE,
        -200 <= 100 * t - percent * ONE <= 200,
    ensures
        part_way(blended(a, b, t), a, b, percent),
{
    let one = ONE as int;
    let w = weight(t);
    lemma_single_near(t);
    reveal_with_fuel(step, 6);
    let s = step(t);
    assert(s == 1 || s == 2 || s == 4 || s == 8 || s == 16);
    assert(t - 16 <= w <= t + 16);
    lemma_weight(t);
    let u = (ONE - w) as nat;
    let v = single(u);
    let s2 = step(u);
    assert(s2 == 1 || s2 == 2 || s2 == 4 || s2 == 8 || s2 == 16);
    assert(u - 16 <= v <= u + 16);
    let x = a as nat * v;
    let y = b as nat * w;
    assert(a as int * u - 4080 <= x <= a as int * u + 4080 && x < 0x9_0000_0000) by (nonlinear_arith)
        requires
            x == a as int * v,
            u - 16 <= v <= u + 16,
            0 <= u <= 0x800_0000,
            0 <= a <= 255,
    ;
    assert(y <= 255 * 0x800_0000) by (nonlinear_arith)
        requires
            y == b as int * w,
            0 <= w <= 0x800_0000,
            0 <= b <= 255,
    ;
    lemma_single_near(x);
    lemma_single_near(y);
    // the two exact products, in hundredths
    assert(100 * (a as int * u) <= a as int * (100 * one - percent * one) + 255 * 1800 && 100 * (
    a as int * u) >= a as int * (100 * one - percent * one) - 255 * 1800) by (nonlinear_arith)
        requires
            u == one - w,
            -1800 <= 100 * w - percent * one <= 1800,
            0 <= a <= 255,
    ;
    assert(100 * y <= b as int * (percent * one) + 255 * 1800 && 100 * y >= b as int * (percent
        * one) - 255 * 1800) by (nonlinear_arith)
        requires
            y == b as int * w,
            -1800 <= 100 * w - percent * one <= 1800,
            0 <= b <= 255,
    ;
    let p = single(x) + single(y);
    let exact = (100 - percent) * a + percent * b;
    assert(a as int * (100 * one - percent * one) + b as int * (percent * one) == one * exact)
        by (nonlinear_arith)
        requires
            exact == (100 - percent) * a + percent * b,
    ;
    assert(exact <= 25500) by (nonlinear_arith)
        requires
            exact == (100 - percent) * a + percent * b,
            0 <= a <= 255,
            0 <= b <= 255,
            0 <= percent <= 50,
    ;
    assert(100 * p <= one * exact + 2_000_000);
    assert(100 * p >= one * exact - 2_000_000);
    lemma_single_near(p);
    let sum = single(p);
    lemma_single_near(sum + (ONE / 2) as nat);
    let h = single(sum + (ONE / 2) as nat);
    let r = h / (ONE as nat);
    assert(one * r <= h < one * (r + 1)) by (nonlinear_arith)
        requires
            r == h as int / one,
            one == 134217728,
    ;
    assert(100 * h <= one * exact + 50 * one + 3_000_000);
    assert(100 * h >= one * exact + 50 * one - 3_000_000);
    assert(100 * r <= exact + 51);
    assert(100 * r >= exact - 51);
}

/// Each weight takes a blend as far as its name says.
pub proof fn lemma_weights_are_percents(a: u8, b: u8)
    ensures
        part_way(blended(a, b, W_08 as nat), a, b, 8),
        part_way(blended(a, b, W_10 as nat), a, b, 10),
        part_way(blended(a, b, W_20 as nat), a, b, 20),
        part_way(blended(a, b, W_25 as nat), a, b, 25),
        part_way(blended(a, b, W_30 as nat), a, b, 30),
        part_way(blended(a, b, W_34 as nat), a, b, 34),
        part_way(blended(a, b, W_40 as nat), a, b, 40),
        part_way(blended(a, b, W_50 as nat), a, b, 50),
{
    lemma_part_way(a, b, W_08 as nat, 8);
    lemma_part_way(a, b, W_10 as nat, 10);
    lemma_part_way(a, b, W_20 as nat, 20);
    lemma_part_way(a, b, W_25 as nat, 25);
    lemma_part_way(a, b, W_30 as nat, 30);
    lemma_part_way(a, b, W_34 as nat, 34);
    lemma_part_way(a, b, W_40 as nat, 40);
    lemma_part_way(a, b, W_50 as nat, 50);
}

} // verus!
