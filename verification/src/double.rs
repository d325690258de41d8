//! Double-precision arithmetic on numbers that are not negative, carried out
//! on integers.
//!
//! A double is modelled by its value as a multiple of 2^-400. Every value
//! that comes up here lies between 2^-100 and 2^100, or is zero: far from
//! where doubles run out of range or lose precision, so what sets them apart
//! from other numbers is just that they have 53 significant bits.

use vstd::arithmetic::div_mod::*;
use vstd::arithmetic::power2::*;
use vstd::prelude::*;

use crate::time::{Duration, NANOS_PER_SEC};

verus! {

/// 2^53, the first number that takes more than 53 bits.
pub const MANTISSAS: u128 = 0x20_0000_0000_0000;

/// 2^52, the first number that takes 53 bits.
pub const HALF: u128 = 0x10_0000_0000_0000;

/// The model of the number one.
pub open spec fn one() -> nat {
    pow2(400)
}

/// The integer nearest to `num / den`, ties to even.
pub open spec fn half_even(num: nat, den: nat) -> nat {
    let down = num / den;
    let rest = num % den;
    if 2 * rest > den || (2 * rest == den && down % 2 == 1) {
        down + 1
    } else {
        down
    }
}

/// The distance of neighbouring doubles around `x`: the least power of two
/// that leaves `x` with at most 53 bits.
pub open spec fn spacing(x: nat) -> nat
    decreases x,
{
    if x < MANTISSAS {
        1
    } else {
        2 * spacing(x / 2)
    }
}

/// The double nearest to `num / den`, ties to even.
pub open spec fn nearest(num: nat, den: nat) -> nat {
    let step = spacing(num * one() / den);
    half_even(num * one(), den * step) * step
}

/// A span in seconds, as a double: the sum of the whole seconds and the
/// fraction, each of which is a double itself.
pub open spec fn seconds(nanos: nat) -> nat {
    let whole = nearest(nanos / NANOS_PER_SEC as nat, 1);
    let fraction = nearest(nanos % NANOS_PER_SEC as nat, NANOS_PER_SEC as nat);
    nearest(whole + fraction, one())
}

/// A common factor does not matter for a quotient.
proof fn lemma_cancel(num: nat, den: nat, k: nat)
    requires
        den > 0,
        k > 0,
    ensures
        den * k > 0,
        (num * k) / (den * k) == num / den,
        half_even(num * k, den * k) == half_even(num, den),
{
    let q = (num / den) as int;
    let r = (num % den) as int;
    lemma_fundamental_div_mod(num as int, den as int);
    assert(den * k > 0) by (nonlinear_arith)
        requires
            den > 0,
            k > 0,
    ;
    assert(num * k == q * (den * k) + r * k) by (nonlinear_arith)
        requires
            num == den * q + r,
    ;
    assert(0 <= r * k < den * k) by (nonlinear_arith)
        requires
            0 <= r < den,
            k > 0,
    ;
    lemma_fundamental_div_mod_converse((num * k) as int, (den * k) as int, q, r * k);
    assert((2 * (r * k) > den * k) == (2 * r > den)) by (nonlinear_arith)
        requires
            k > 0,
    ;
    assert((2 * (r * k) == den * k) == (2 * r == den)) by (nonlinear_arith)
        requires
            k > 0,
    ;
}

/// A common factor does not matter for the nearest double of a quotient.
proof fn lemma_nearest_cancel(num: nat, den: nat, k: nat)
    requires
        den > 0,
        k > 0,
    ensures
        den * k > 0,
        nearest(num * k, den * k) == nearest(num, den),
{
    lemma_cancel(num * one(), den, k);
    let step = spacing(num * one() / den);
    lemma_spacing_positive(num * one() / den);
    assert(den * step > 0) by (nonlinear_arith)
        requires
            den > 0,
            step > 0,
    ;
    lemma_cancel(num * one(), den * step, k);
    assert(num * k * one() == num * one() * k) by (nonlinear_arith);
    assert(den * k * step == den * step * k) by (nonlinear_arith);
}

proof fn lemma_spacing_positive(x: nat)
    ensures
        spacing(x) > 0,
    decreases x,
{
    if x >= MANTISSAS {
        lemma_spacing_positive(x / 2);
    }
}

/// Doubling a number doubles its nearest double.
proof fn lemma_nearest_doubles(num: nat, den: nat)
    requires
        den > 0,
        num * one() / den >= HALF,
    ensures
        nearest(2 * num, den) == 2 * nearest(num, den),
{
    let n = num * one();
    let x = n / den;
    let y = (2 * n) / den;
    lemma_fundamental_div_mod(n as int, den as int);
    lemma_fundamental_div_mod((2 * n) as int, den as int);
    assert(y / 2 == x) by (nonlinear_arith)
        requires
            n == den * x + n % den,
            0 <= n % den < den,
            2 * n == den * y + (2 * n) % den,
            0 <= (2 * n) % den < den,
            den > 0,
    ;
    assert(y >= MANTISSAS);
    let step = spacing(x);
    assert(spacing(y) == 2 * step);
    lemma_spacing_positive(x);
    assert(den * step > 0) by (nonlinear_arith)
        requires
            den > 0,
            step > 0,
    ;
    lemma_cancel(n, den * step, 2);
    assert(2 * num * one() == 2 * n) by (nonlinear_arith)
        requires
            n == num * one(),
    ;
    assert(n * 2 == 2 * n);
    assert(den * (2 * step) == den * step * 2) by (nonlinear_arith);
    let h = half_even(n, den * step);
    assert(h * (2 * step) == 2 * (h * step)) by (nonlinear_arith);
}

/// A number of at least 2^-300 is far from running out of precision.
proof fn lemma_in_range(num: nat, den: nat)
    requires
        num > 0,
        0 < den <= pow2(300),
    ensures
        num * one() / den >= MANTISSAS,
{
    lemma2_to64_rest();
    lemma_pow2_adds(300, 100);
    lemma_pow2_strictly_increases(53, 100);
    lemma_pow2_pos(300);
    assert(num * one() >= den * pow2(100)) by (nonlinear_arith)
        requires
            num > 0,
            one() == pow2(300) * pow2(100),
            0 < den <= pow2(300),
    ;
    lemma_div_is_ordered((den * pow2(100)) as int, (num * one()) as int, den as int);
    assert(den * pow2(100) == pow2(100) * den) by (nonlinear_arith);
    lemma_fundamental_div_mod_converse(
        (den * pow2(100)) as int,
        den as int,
        pow2(100) as int,
        0,
    );
}

/// Scaling a number by a power of two scales its nearest double.
proof fn lemma_nearest_scales(num: nat, den: nat, k: nat)
    requires
        num > 0,
        0 < den <= pow2(300),
    ensures
        nearest(num * pow2(k), den) == nearest(num, den) * pow2(k),
    decreases k,
{
    lemma2_to64();
    if k > 0 {
        let j = (k - 1) as nat;
        lemma_nearest_scales(num, den, j);
        lemma_pow2_unfold(k);
        lemma_pow2_pos(j);
        let scaled = num * pow2(j);
        assert(scaled > 0) by (nonlinear_arith)
            requires
                num > 0,
                pow2(j) > 0,
                scaled == num * pow2(j),
        ;
        lemma_in_range(scaled, den);
        lemma_nearest_doubles(scaled, den);
        assert(num * (2 * pow2(j)) == 2 * (num * pow2(j))) by (nonlinear_arith);
        let d = nearest(num, den);
        assert(d * (2 * pow2(j)) == 2 * (d * pow2(j))) by (nonlinear_arith);
    } else {
        assert(pow2(0) == 1);
        assert(num * 1 == num);
    }
}

/// Doubles with 53-bit mantissas at the scale of 2^k are 2^k apart.
proof fn lemma_spacing(x: nat, k: nat)
    requires
        HALF * pow2(k) <= x < MANTISSAS * pow2(k),
    ensures
        spacing(x) == pow2(k),
    decreases k,
{
    lemma2_to64();
    if k > 0 {
        let j = (k - 1) as nat;
        lemma_pow2_unfold(k);
        lemma_pow2_pos(j);
        assert(HALF * pow2(j) <= x / 2 < MANTISSAS * pow2(j)) by {
            let p = pow2(j);
            assert(HALF * (2 * p) == 2 * (HALF * p)) by (nonlinear_arith);
            assert(MANTISSAS * (2 * p) == 2 * (MANTISSAS * p)) by (nonlinear_arith);
        }
        assert(x >= MANTISSAS) by (nonlinear_arith)
            requires
                x >= HALF * pow2(k),
                pow2(k) == 2 * pow2(j),
                pow2(j) >= 1,
                MANTISSAS == 0x20_0000_0000_0000,
        ;
        lemma_spacing(x / 2, j);
    }
}

/// Between 2^52 and 2^53 the doubles are the integers.
proof fn lemma_nearest_normal(num: nat, den: nat)
    requires
        den > 0,
        den * HALF <= num < den * MANTISSAS,
    ensures
        nearest(num, den) == half_even(num, den) * one(),
{
    let x = num * one() / den;
    lemma_pow2_pos(400);
    lemma_fundamental_div_mod((num * one()) as int, den as int);
    let r = (num * one()) % den;
    assert(HALF * one() <= x < MANTISSAS * one()) by (nonlinear_arith)
        requires
            num * one() == den * x + r,
            0 <= r < den,
            den * HALF <= num < den * MANTISSAS,
            one() > 0,
    ;
    lemma_spacing(x, 400);
    lemma_cancel(num, den, one());
}

/// The spacing is a power of two that fits its number.
proof fn lemma_spacing_fits(x: nat) -> (k: nat)
    ensures
        spacing(x) == pow2(k),
        x < MANTISSAS * spacing(x),
        x >= HALF ==> x >= HALF * spacing(x),
        x < MANTISSAS ==> k == 0,
    decreases x,
{
    lemma2_to64();
    if x < MANTISSAS {
        0
    } else {
        let j = lemma_spacing_fits(x / 2);
        lemma_pow2_unfold(j + 1);
        j + 1
    }
}

/// Larger numbers are no more densely spaced.
proof fn lemma_spacing_grows(x: nat, y: nat)
    requires
        x <= y,
    ensures
        spacing(x) <= spacing(y),
    decreases y,
{
    lemma_spacing_positive(y);
    if x >= MANTISSAS {
        lemma_spacing_grows(x / 2, y / 2);
    }
}

/// Rounding to an integer keeps the order.
proof fn lemma_half_even_ordered(a: nat, b: nat, den: nat)
    requires
        a <= b,
        den > 0,
    ensures
        half_even(a, den) <= half_even(b, den),
{
    lemma_div_is_ordered(a as int, b as int, den as int);
    lemma_fundamental_div_mod(a as int, den as int);
    lemma_fundamental_div_mod(b as int, den as int);
    if a / den == b / den {
        assert(a % den <= b % den);
    }
}

/// A quotient below `n` rounds to `n` at most, and one from `n` on to `n` at
/// least.
proof fn lemma_half_even_bounds(num: nat, den: nat, n: nat)
    requires
        den > 0,
    ensures
        num < den * n ==> half_even(num, den) <= n,
        num >= den * n ==> half_even(num, den) >= n,
{
    lemma_fundamental_div_mod(num as int, den as int);
    let q = num / den;
    let r = num % den;
    if num < den * n {
        assert(q < n) by (nonlinear_arith)
            requires
                num == den * q + r,
                r >= 0,
                num < den * n,
                den > 0,
        ;
    } else {
        assert(q >= n) by (nonlinear_arith)
            requires
                num == den * q + r,
                r < den,
                num >= den * n,
                den > 0,
        ;
    }
}

/// The nearest double keeps the order of quotients of one denominator.
proof fn lemma_nearest_ordered(a: nat, b: nat, den: nat)
    requires
        a <= b,
        den > 0,
    ensures
        nearest(a, den) <= nearest(b, den),
{
    let m = a * one();
    let n = b * one();
    assert(m <= n) by (nonlinear_arith)
        requires
            a <= b,
            m == a * one(),
            n == b * one(),
    ;
    let x = m / den;
    let y = n / den;
    lemma_div_is_ordered(m as int, n as int, den as int);
    lemma_spacing_grows(x, y);
    let i = lemma_spacing_fits(x);
    let j = lemma_spacing_fits(y);
    let p = spacing(x);
    let q = spacing(y);
    lemma_pow2_pos(i);
    lemma_pow2_pos(j);
    assert(den * p > 0 && den * q > 0) by (nonlinear_arith)
        requires
            den > 0,
            p > 0,
            q > 0,
    ;
    if p == q {
        lemma_half_even_ordered(m, n, den * p);
        let g = half_even(m, den * p);
        let h = half_even(n, den * p);
        assert(g * p <= h * p) by (nonlinear_arith)
            requires
                g <= h,
                p > 0,
        ;
    } else {
        if i >= j {
            if i > j {
                lemma_pow2_strictly_increases(j, i);
            }
            assert(false);
        }
        if i + 1 < j {
            lemma_pow2_strictly_increases(i + 1, j);
        }
        lemma_pow2_unfold(i + 1);
        assert(q >= 2 * p);
        lemma_fundamental_div_mod(m as int, den as int);
        lemma_fundamental_div_mod(n as int, den as int);
        let half = HALF as nat;
        let top = MANTISSAS as nat;
        assert(m < den * p * top) by (nonlinear_arith)
            requires
                m == den * x + m % den,
                m % den < den,
                x < top * p,
                den > 0,
        ;
        assert(n >= den * q * half) by (nonlinear_arith)
            requires
                n == den * y + n % den,
                n % den >= 0,
                y >= half * q,
                den > 0,
        ;
        lemma_half_even_bounds(m, den * p, top);
        lemma_half_even_bounds(n, den * q, half);
        let g = half_even(m, den * p);
        let h = half_even(n, den * q);
        assert(g * p <= h * q) by (nonlinear_arith)
            requires
                g <= top,
                h >= half,
                top == 2 * half,
                q >= 2 * p,
        ;
    }
}

/// A double with a full mantissa stays what it is, even if less than half
/// the distance to the next one is added.
proof fn lemma_absorbs(mant: nat, k: nat, extra: nat)
    requires
        HALF <= mant <= MANTISSAS,
        2 * extra < pow2(k),
    ensures
        nearest(mant * pow2(k) + extra, one()) == mant * pow2(k),
{
    lemma_pow2_pos(k);
    lemma_pow2_pos(400);
    if mant == MANTISSAS {
        lemma_pow2_unfold(k + 1);
        let half = HALF as nat;
        assert(mant * pow2(k) == half * pow2(k + 1)) by (nonlinear_arith)
            requires
                mant == 2 * half,
                pow2(k + 1) == 2 * pow2(k),
        ;
        lemma_absorbs_normal(half, k + 1, extra);
    } else {
        lemma_absorbs_normal(mant, k, extra);
    }
}

proof fn lemma_absorbs_normal(mant: nat, k: nat, extra: nat)
    requires
        HALF <= mant < MANTISSAS,
        2 * extra < pow2(k),
    ensures
        nearest(mant * pow2(k) + extra, one()) == mant * pow2(k),
{
    lemma_pow2_pos(400);
    let p = pow2(k);
    let x = mant * p + extra;
    lemma_cancel(x, 1, one());
    assert(x * one() / one() == x) by {
        lemma_fundamental_div_mod_converse((x * one()) as int, one() as int, x as int, 0);
    }
    assert(HALF * p <= x < MANTISSAS * p) by (nonlinear_arith)
        requires
            x == mant * p + extra,
            HALF <= mant,
            mant + 1 <= MANTISSAS,
            2 * extra < p,
    ;
    lemma_spacing(x, k);
    lemma_cancel(x, p, one());
    assert(one() * p == p * one()) by (nonlinear_arith);
    lemma_fundamental_div_mod_converse(x as int, p as int, mant as int, extra as int);
}

/// Zero is a double.
proof fn lemma_nearest_zero(den: nat)
    requires
        den > 0,
    ensures
        nearest(0, den) == 0,
{
    assert(0 * one() == 0);
    lemma_fundamental_div_mod_converse(0, den as int, 0, 0);
    assert(spacing(0) == 1);
    assert(den * 1 == den);
    assert(half_even(0, den) == 0);
}

/// Integers of up to 53 bits are doubles.
proof fn lemma_exact(n: nat, k: nat)
    requires
        n <= MANTISSAS,
        k >= 60 || n >= HALF || n == 0,
    ensures
        nearest(n * pow2(k), one()) == n * pow2(k),
{
    lemma_pow2_pos(400);
    lemma_pow2_pos(k);
    if n == 0 {
        lemma_nearest_zero(one());
    } else if n >= HALF {
        lemma_absorbs(n, k, 0);
    } else {
        lemma2_to64();
        lemma_exact_normalizes(n, k, 0);
    }
}

proof fn lemma_exact_normalizes(n: nat, k: nat, done: nat)
    requires
        0 < n < MANTISSAS,
        k + done >= 60,
        pow2(done) <= n,
        k >= 1,
    ensures
        nearest(n * pow2(k), one()) == n * pow2(k),
    decreases MANTISSAS - n,
{
    lemma_pow2_pos(k);
    if n >= HALF {
        lemma_absorbs(n, k, 0);
    } else {
        lemma2_to64_rest();
        if done >= 53 {
            if done > 53 {
                lemma_pow2_strictly_increases(53, done);
            }
            assert(false);
        }
        lemma_pow2_unfold(k);
        lemma_pow2_unfold(done + 1);
        assert(n * pow2(k) == (2 * n) * pow2((k - 1) as nat)) by (nonlinear_arith)
            requires
                pow2(k) == 2 * pow2((k - 1) as nat),
        ;
        lemma_exact_normalizes(2 * n, (k - 1) as nat, done + 1);
    }
}

/// From 2^53 seconds on a fraction of a second is lost.
proof fn lemma_whole_absorbs(secs: nat, fraction: nat)
    requires
        secs >= MANTISSAS,
        fraction < one(),
    ensures
        nearest(nearest(secs, 1) + fraction, one()) == nearest(secs, 1),
{
    let x = secs * one();
    lemma_pow2_pos(400);
    assert(x / 1 == x);
    let k = lemma_spacing_fits(x);
    let step = spacing(x);
    assert(1 * step == step);
    assert(x >= MANTISSAS * one()) by (nonlinear_arith)
        requires
            x == secs * one(),
            secs >= MANTISSAS,
    ;
    assert(step > one()) by (nonlinear_arith)
        requires
            x >= MANTISSAS * one(),
            x < MANTISSAS * step,
            MANTISSAS == 0x20_0000_0000_0000,
    ;
    if k < 401 {
        if k < 400 {
            lemma_pow2_strictly_increases(k, 400);
        }
        assert(false);
    }
    if k > 401 {
        lemma_pow2_strictly_increases(401, k);
    }
    lemma_pow2_unfold(401);
    assert(x >= HALF) by (nonlinear_arith)
        requires
            x >= MANTISSAS * one(),
            one() >= 1,
            MANTISSAS == 0x20_0000_0000_0000,
    ;
    let h = half_even(x, step);
    assert(step * MANTISSAS == MANTISSAS * step) by (nonlinear_arith);
    assert(step * HALF == HALF * step) by (nonlinear_arith);
    lemma_half_even_bounds(x, step, MANTISSAS as nat);
    lemma_half_even_bounds(x, step, HALF as nat);
    lemma_absorbs(h, k, fraction);
}

/// Up to 2^53 whole seconds are exact.
proof fn lemma_whole_exact(secs: nat)
    requires
        secs <= MANTISSAS,
    ensures
        nearest(secs, 1) == secs * one(),
{
    lemma_pow2_pos(400);
    lemma_nearest_cancel(secs, 1, one());
    assert(1 * one() == one());
    lemma_exact(secs, 400);
}

/// Up to 2^53 whole seconds with no fraction are exact.
proof fn lemma_whole_seconds(secs: nat)
    requires
        secs <= MANTISSAS,
    ensures
        seconds(secs * NANOS_PER_SEC as nat) == secs * one(),
{
    let den = NANOS_PER_SEC as nat;
    lemma_fundamental_div_mod_converse((secs * den) as int, den as int, secs as int, 0);
    lemma_whole_exact(secs);
    lemma_nearest_zero(den);
    lemma_exact(secs, 400);
}

/// The fraction of a second is below one as a double, too.
proof fn lemma_fraction_below_one(nanos: nat)
    requires
        nanos < NANOS_PER_SEC,
    ensures
        nearest(nanos, NANOS_PER_SEC as nat) < one(),
{
    let den = NANOS_PER_SEC as nat;
    let n = nanos * one();
    let x = n / den;
    lemma_pow2_pos(400);
    lemma_fundamental_div_mod(n as int, den as int);
    assert(x < one()) by (nonlinear_arith)
        requires
            n == den * x + n % den,
            n % den >= 0,
            n == nanos * one(),
            nanos < den,
            one() > 0,
    ;
    lemma2_to64_rest();
    lemma_pow2_adds(53, 347);
    lemma_pow2_adds(52, 347);
    lemma_pow2_unfold(400);
    lemma_pow2_pos(399);
    lemma_spacing((one() - 1) as nat, 347);
    lemma_spacing_grows(x, (one() - 1) as nat);
    lemma_spacing_positive(x);
    let step = spacing(x);
    let top = den * step;
    assert(top > 0) by (nonlinear_arith)
        requires
            den > 0,
            step > 0,
            top == den * step,
    ;
    lemma_fundamental_div_mod(n as int, top as int);
    let h = half_even(n, top);
    let q = n / top;
    assert(h * top <= n + top) by (nonlinear_arith)
        requires
            h <= q + 1,
            n == top * q + n % top,
            n % top >= 0,
    ;
    assert(top < one()) by (nonlinear_arith)
        requires
            top == den * step,
            den == 1_000_000_000,
            step <= pow2(347),
            one() == 0x20_0000_0000_0000 * pow2(347),
            pow2(347) > 0,
    {
        assert(1_000_000_000 * pow2(347) < 0x20_0000_0000_0000 * pow2(347));
    }
    assert(h * step < one()) by (nonlinear_arith)
        requires
            h * top <= n + top,
            top == den * step,
            n == nanos * one(),
            nanos + 1 <= den,
            top < one(),
            den > 0,
    {
        assert(den * (h * step) < den * one());
    }
}

/// A double: a number of `1 / 2^shift`.
#[derive(Clone, Copy, Debug, PartialEq, Eq)]
struct Double {
    num: u128,
    shift: u32,
}

impl Double {
    spec fn value(self) -> nat
        recommends
            self.shift <= 400,
    {
        self.num as nat * pow2((400 - self.shift) as nat)
    }
}

/// The integer nearest to `num / den`, ties to even.
fn rounded(num: u128, den: u128) -> (n: u128)
    requires
        0 < den <= u128::MAX / 2,
        den > 1 || num < u128::MAX,
    ensures
        n == half_even(num as nat, den as nat),
{
    let down: u128 = num / den;
    let rest: u128 = num % den;
    if 2 * rest > den || (2 * rest == den && down % 2 == 1) {
        assert(down < u128::MAX) by (nonlinear_arith)
            requires
                down == num / den,
                den > 1,
                num <= u128::MAX,
        ;
        down + 1
    } else {
        down
    }
}

/// What the integers handed to `nearest_double` stay below: 2^72.
const LIMIT: u128 = 0x100_0000_0000_0000_0000;

/// The double nearest to `num / den`.
fn nearest_double(num: u128, den: u128) -> (d: Double)
    requires
        num < LIMIT,
        0 < den < LIMIT,
    ensures
        d.shift <= 124,
        d.value() == nearest(num as nat, den as nat),
        d.num <= MANTISSAS || d.num <= 2 * num,
        num > 0 ==> d.num > 0,
        num < den * HALF && num > 0 ==> HALF <= d.num <= MANTISSAS,
{
    proof {
        lemma2_to64();
        lemma2_to64_rest();
        lemma_pow2_adds(64, 8);
        lemma_pow2_strictly_increases(72, 300);
    }
    if num == 0 {
        proof {
            lemma_nearest_zero(den as nat);
        }
        return Double { num: 0, shift: 0 };
    }
    if num >= den * MANTISSAS {
        let mut d: u128 = den;
        let mut factor: u128 = 1;
        let ghost mut e: nat = 0;
        assert(den * MANTISSAS >= den * HALF) by (nonlinear_arith);
        while num >= d * MANTISSAS
            invariant
                0 < num < LIMIT,
                0 < den,
                0 < d < LIMIT,
                d == den * factor,
                factor == pow2(e),
                0 < factor <= d,
                num >= d * HALF,
            decreases LIMIT - d,
        {
            proof {
                lemma_pow2_unfold(e + 1);
                assert((2 * d) * HALF == d * MANTISSAS) by (nonlinear_arith);
                assert(d <= d * MANTISSAS) by (nonlinear_arith);
                assert(2 * d < LIMIT) by (nonlinear_arith)
                    requires
                        num < LIMIT,
                        num >= d * MANTISSAS,
                ;
                assert(den * (2 * factor) == 2 * (den * factor)) by (nonlinear_arith);
                e = e + 1;
            }
            d = 2 * d;
            factor = 2 * factor;
        }
        let mant: u128 = rounded(num, d);
        proof {
            let n = num as nat;
            lemma_half_even_bounds(n, d as nat, MANTISSAS as nat);
            lemma_half_even_bounds(n, d as nat, HALF as nat);
            lemma_nearest_normal(n, d as nat);
            lemma_nearest_cancel(n, den as nat, factor as nat);
            lemma_nearest_scales(n, d as nat, e);
            assert(mant * factor <= 2 * num) by (nonlinear_arith)
                requires
                    mant <= MANTISSAS,
                    factor <= d,
                    num >= d * HALF,
                    MANTISSAS == 0x20_0000_0000_0000,
            ;
            assert(mant * factor > 0) by (nonlinear_arith)
                requires
                    mant > 0,
                    factor > 0,
            ;
            assert((mant * factor) * one() == (mant * one()) * factor) by (nonlinear_arith);
        }
        return Double { num: mant * factor, shift: 0 };
    }
    let mut n: u128 = num;
    let mut shift: u32 = 0;
    while n < den * HALF
        invariant
            0 < num < LIMIT,
            0 < den < LIMIT,
            n == num * pow2(shift as nat),
            n >= num,
            n < den * MANTISSAS,
            shift <= 124,
        decreases LIMIT * MANTISSAS - n,
    {
        proof {
            lemma_pow2_unfold((shift + 1) as nat);
            let p = pow2(shift as nat);
            assert(num * (2 * p) == 2 * (num * p)) by (nonlinear_arith);
            assert(den * MANTISSAS == 2 * (den * HALF)) by (nonlinear_arith);
            assert(den * HALF < LIMIT * HALF) by (nonlinear_arith)
                requires
                    den < LIMIT,
            ;
            if shift >= 124 {
                lemma2_to64();
                lemma2_to64_rest();
                lemma_pow2_adds(64, 60);
                assert(n >= p) by (nonlinear_arith)
                    requires
                        n == num * p,
                        num > 0,
                ;
                assert(false);
            }
        }
        n = 2 * n;
        shift = shift + 1;
    }
    let mant: u128 = rounded(n, den);
    proof {
        lemma_half_even_bounds(n as nat, den as nat, MANTISSAS as nat);
        lemma_half_even_bounds(n as nat, den as nat, HALF as nat);
        lemma_nearest_normal(n as nat, den as nat);
        lemma_nearest_scales(num as nat, den as nat, shift as nat);
        lemma_unscaled(nearest(num as nat, den as nat), mant as nat, shift as nat);
    }
    Double { num: mant, shift }
}

/// Taking a power of two to the other side.
proof fn lemma_unscaled(value: nat, num: nat, shift: nat)
    requires
        shift <= 400,
        value * pow2(shift) == num * one(),
    ensures
        value == num * pow2((400 - shift) as nat),
{
    let p = pow2(shift);
    let q = pow2((400 - shift) as nat);
    lemma_pow2_adds(shift, (400 - shift) as nat);
    lemma_pow2_pos(shift);
    assert(value == num * q) by (nonlinear_arith)
        requires
            value * p == num * (p * q),
            p > 0,
    {
        assert(value * p == (num * q) * p);
    }
}

/// A power of two.
fn power(k: u32) -> (p: u128)
    requires
        k <= 126,
    ensures
        p == pow2(k as nat),
        0 < p <= 0x4000_0000_0000_0000_0000_0000_0000_0000,
{
    let mut p: u128 = 1;
    let mut i: u32 = 0;
    proof {
        lemma2_to64();
        lemma2_to64_rest();
        lemma_pow2_adds(62, 64);
    }
    while i < k
        invariant
            i <= k <= 126,
            p == pow2(i as nat),
            pow2(126) == 0x4000_0000_0000_0000_0000_0000_0000_0000,
        decreases k - i,
    {
        proof {
            lemma_pow2_unfold((i + 1) as nat);
            if i + 1 < 126 {
                lemma_pow2_strictly_increases((i + 1) as nat, 126);
            }
        }
        p = 2 * p;
        i = i + 1;
    }
    proof {
        lemma_pow2_pos(k as nat);
        if k < 126 {
            lemma_pow2_strictly_increases(k as nat, 126);
        }
    }
    p
}

/// The whole part of `n / 2^k`.
fn halved(n: u128, k: u32) -> (h: u128)
    ensures
        h == n as nat / pow2(k as nat),
{
    let mut h: u128 = n;
    let mut i: u32 = 0;
    proof {
        lemma2_to64();
        assert(n as nat / 1 == n);
    }
    while i < k
        invariant
            i <= k,
            h == n as nat / pow2(i as nat),
        decreases k - i,
    {
        proof {
            lemma_pow2_unfold((i + 1) as nat);
            lemma_pow2_pos(i as nat);
            lemma_div_denominator(n as int, pow2(i as nat) as int, 2);
            assert(pow2(i as nat) * 2 == 2 * pow2(i as nat));
        }
        h = h / 2;
        i = i + 1;
    }
    h
}

/// What adding a fraction to whole seconds comes down to, once the sum is
/// scaled so that its whole part has 53 bits.
proof fn lemma_sum(secs: nat, mant: nat, k: nat, j: nat)
    requires
        secs > 0,
        mant < pow2(k),
        k <= 124,
        j <= k,
        HALF <= secs * pow2(j) < MANTISSAS,
    ensures
        ({
            let step = pow2((k - j) as nat);
            let whole = secs * pow2(j);
            let down = whole + mant / step;
            let rest = mant % step;
            let up = 2 * rest > step || (2 * rest == step && down % 2 == 1);
            nearest(secs * one() + mant * pow2((400 - k) as nat), one()) == (if up {
                down + 1
            } else {
                down
            }) * pow2((400 - j) as nat)
        }),
{
    let pk = pow2(k);
    let pj = pow2(j);
    let step = pow2((k - j) as nat);
    let rest_k = pow2((400 - k) as nat);
    lemma_pow2_pos(k);
    lemma_pow2_pos(j);
    lemma_pow2_pos((k - j) as nat);
    lemma_pow2_pos((400 - k) as nat);
    lemma_pow2_adds(k, (400 - k) as nat);
    lemma_pow2_adds((k - j) as nat, j);
    let n = secs * pk + mant;
    assert(secs * one() + mant * rest_k == n * rest_k) by (nonlinear_arith)
        requires
            one() == pk * rest_k,
            n == secs * pk + mant,
    ;
    lemma_nearest_cancel(n, pk, rest_k);
    assert(n > 0) by (nonlinear_arith)
        requires
            n == secs * pk + mant,
            secs > 0,
            pk > 0,
    ;
    lemma_pow2_strictly_increases(k, 300);
    lemma_nearest_scales(n, pk, j);
    let whole = secs * pj;
    let scaled = n * pj;
    assert(scaled == whole * pk + mant * pj) by (nonlinear_arith)
        requires
            scaled == n * pj,
            n == secs * pk + mant,
            whole == secs * pj,
    ;
    assert(mant * pj < pk * pj) by (nonlinear_arith)
        requires
            mant < pk,
            pj > 0,
    ;
    // The whole part is a multiple of 2^j, so the fraction cannot carry it
    // into the next power of two.
    assert(whole + pj <= MANTISSAS) by {
        lemma2_to64_rest();
        if j > 53 {
            lemma_pow2_strictly_increases(53, j);
            assert(whole >= pj) by (nonlinear_arith)
                requires
                    whole == secs * pj,
                    secs > 0,
            ;
            assert(false);
        }
        lemma_pow2_adds((53 - j) as nat, j);
        let c = pow2((53 - j) as nat);
        assert((secs + 1) * pj <= c * pj) by (nonlinear_arith)
            requires
                secs * pj < c * pj,
                pj > 0,
        {
            assert(secs < c);
        }
        assert((secs + 1) * pj == secs * pj + pj) by (nonlinear_arith);
    }
    assert(pk * HALF <= scaled < pk * MANTISSAS) by (nonlinear_arith)
        requires
            scaled == whole * pk + mant * pj,
            mant * pj < pk * pj,
            HALF <= whole,
            whole + pj <= MANTISSAS,
            pk > 0,
    ;
    lemma_nearest_normal(scaled, pk);
    let part = whole * step + mant;
    assert(scaled == part * pj) by (nonlinear_arith)
        requires
            scaled == whole * pk + mant * pj,
            pk == step * pj,
            part == whole * step + mant,
    ;
    lemma_cancel(part, step, pj);
    lemma_fundamental_div_mod(mant as int, step as int);
    let q = (mant / step) as int;
    assert(part == (whole + q) * step + mant % step) by (nonlinear_arith)
        requires
            part == whole * step + mant,
            mant == step * q + mant % step,
    ;
    lemma_fundamental_div_mod_converse(
        part as int,
        step as int,
        whole + q,
        (mant % step) as int,
    );
    lemma_unscaled(nearest(n, pk), half_even(part, step), j);
}

/// A longer span is no fewer seconds.
proof fn lemma_seconds_ordered(a: nat, b: nat)
    requires
        a <= b,
    ensures
        seconds(a) <= seconds(b),
{
    let den = NANOS_PER_SEC as nat;
    lemma_pow2_pos(400);
    let s = a / den;
    let t = b / den;
    let f = nearest(a % den, den);
    let g = nearest(b % den, den);
    lemma_fraction_below_one(a % den);
    lemma_fraction_below_one(b % den);
    lemma_nearest_ordered(s, t, 1);
    if s == t {
        lemma_nearest_ordered(a % den, b % den, den);
        lemma_nearest_ordered(nearest(s, 1) + f, nearest(t, 1) + g, one());
    } else if s >= MANTISSAS {
        lemma_whole_absorbs(s, f);
        lemma_whole_absorbs(t, g);
    } else {
        lemma_whole_exact(s);
        lemma_whole_exact(s + 1);
        lemma_nearest_ordered(s + 1, t, 1);
        assert((s + 1) * one() == s * one() + one()) by (nonlinear_arith);
        lemma_nearest_ordered(nearest(s, 1) + f, nearest(t, 1) + g, one());
    }
}

/// 2^64 seconds are a double, so no shorter span is more.
proof fn lemma_seconds_bounded(nanos: nat)
    requires
        nanos <= 0x1_0000_0000_0000_0000 * NANOS_PER_SEC,
    ensures
        seconds(nanos) <= 0x1_0000_0000_0000_0000 * one(),
{
    let den = NANOS_PER_SEC as nat;
    let top = 0x1_0000_0000_0000_0000nat;
    lemma_pow2_pos(400);
    lemma_seconds_ordered(nanos, top * den);
    lemma_fundamental_div_mod_converse((top * den) as int, den as int, top as int, 0);
    lemma_nearest_zero(den);
    lemma_whole_absorbs(top, 0);
    lemma_nearest_cancel(top, 1, one());
    assert(1 * one() == one());
    lemma2_to64();
    lemma_pow2_adds(12, 400);
    lemma_pow2_pos(412);
    assert(top * one() == HALF * pow2(412)) by (nonlinear_arith)
        requires
            pow2(412) == 0x1000 * one(),
            top == 0x1_0000_0000_0000_0000,
            HALF == 0x10_0000_0000_0000,
    ;
    lemma_absorbs(HALF as nat, 412, 0);
}

/// A span in seconds.
fn seconds_double(span: Duration) -> (d: Double)
    ensures
        d.shift <= 124,
        d.value() == seconds(span@),
        d.value() <= 0x1_0000_0000_0000_0000 * one(),
        d.num <= 0x2_0000_0000_0000_0000,
        span@ > 0 ==> d.num > 0,
{
    let secs: u128 = span.as_secs() as u128;
    let nanos: u128 = span.subsec_nanos() as u128;
    proof {
        lemma_fraction_below_one(nanos as nat);
        lemma_pow2_pos(400);
        lemma_seconds_bounded(span@);
    }
    if secs >= MANTISSAS {
        proof {
            lemma_whole_absorbs(
                secs as nat,
                nearest(nanos as nat, NANOS_PER_SEC as nat),
            );
        }
        return nearest_double(secs, 1);
    }
    proof {
        lemma_whole_exact(secs as nat);
    }
    if nanos == 0 {
        proof {
            lemma_nearest_zero(NANOS_PER_SEC as nat);
            lemma_exact(secs as nat, 400);
        }
        return Double { num: secs, shift: 0 };
    }
    assert(nanos < NANOS_PER_SEC * HALF);
    let fraction = nearest_double(nanos, NANOS_PER_SEC);
    if secs == 0 {
        proof {
            assert(0 * one() == 0);
            lemma_exact(fraction.num as nat, (400 - fraction.shift) as nat);
        }
        return fraction;
    }
    let ghost k = fraction.shift as nat;
    let mut whole: u128 = secs;
    let mut shift: u32 = 0;
    proof {
        lemma2_to64();
        lemma2_to64_rest();
    }
    while whole < HALF
        invariant
            0 < secs <= whole < MANTISSAS,
            whole == secs * pow2(shift as nat),
            shift <= 52,
            pow2(52) == HALF,
        decreases MANTISSAS - whole,
    {
        proof {
            lemma_pow2_unfold((shift + 1) as nat);
            let p = pow2(shift as nat);
            assert(secs * (2 * p) == 2 * (secs * p)) by (nonlinear_arith);
            assert(whole >= p) by (nonlinear_arith)
                requires
                    whole == secs * p,
                    secs > 0,
            ;
        }
        whole = 2 * whole;
        shift = shift + 1;
    }
    proof {
        let p = pow2(k);
        let q = pow2((400 - k) as nat);
        lemma_pow2_adds(k, (400 - k) as nat);
        assert(fraction.num < p) by (nonlinear_arith)
            requires
                fraction.num * q < p * q,
        ;
        if k < 53 {
            if k < 52 {
                lemma_pow2_strictly_increases(k, 52);
            }
            assert(false);
        }
        lemma_sum(secs as nat, fraction.num as nat, k, shift as nat);
    }
    let step: u128 = power(fraction.shift - shift);
    let down: u128 = whole + fraction.num / step;
    let rest: u128 = fraction.num % step;
    let num: u128 = if 2 * rest > step || (2 * rest == step && down % 2 == 1) {
        down + 1
    } else {
        down
    };
    Double { num, shift }
}

/// The seconds of a span that is not empty are more than none.
proof fn lemma_seconds_positive(nanos: nat)
    requires
        nanos > 0,
    ensures
        seconds(nanos) > 0,
{
    // One nanosecond is some double with a full mantissa.
    let den = NANOS_PER_SEC as nat;
    lemma_pow2_pos(400);
    lemma_seconds_ordered(1, nanos);
    lemma_whole_exact(0);
    assert(0 * one() == 0);
    lemma2_to64();
    lemma2_to64_rest();
    lemma_pow2_strictly_increases(30, 300);
    lemma_in_range(1, den);
    let x = 1 * one() / den;
    let k = lemma_spacing_fits(x);
    let step = spacing(x);
    lemma_pow2_pos(k);
    let n = 1 * one();
    lemma_fundamental_div_mod(n as int, den as int);
    assert(n >= den * step * HALF && n < den * step * MANTISSAS && den * step > 0)
        by (nonlinear_arith)
        requires
            n == den * x + n % den,
            0 <= n % den < den,
            HALF * step <= x < MANTISSAS * step,
            den > 0,
            step > 0,
    ;
    lemma_half_even_bounds(n, den * step, HALF as nat);
    lemma_half_even_bounds(n, den * step, MANTISSAS as nat);
    let h = half_even(n, den * step);
    lemma_absorbs(h, k, 0);
    assert(h * step > 0) by (nonlinear_arith)
        requires
            h >= HALF,
            step > 0,
            HALF == 0x10_0000_0000_0000,
    ;
}

/// One is a double.
proof fn lemma_ratio_of_equals(n: nat)
    requires
        n > 0,
    ensures
        nearest(n, n) == one(),
{
    lemma_nearest_cancel(1, 1, n);
    lemma_whole_exact(1);
    assert(1 * n == n && 1 * one() == one());
}

/// How much of `total` lies behind `position`, as a double: one at most.
pub open spec fn ratio(position: nat, total: nat) -> nat {
    let quotient = nearest(seconds(position), seconds(total));
    if quotient > one() {
        one()
    } else {
        quotient
    }
}

/// How many of `width` cells are filled for `position` out of `total`.
pub open spec fn cells(position: nat, total: nat, width: nat) -> nat {
    nearest(width * ratio(position, total), one()) / one()
}

/// The end fills every cell.
pub proof fn lemma_cells_at_end(position: nat, total: nat, width: nat)
    requires
        0 < total <= position,
        width <= MANTISSAS,
    ensures
        cells(position, total, width) == width,
{
    lemma_pow2_pos(400);
    lemma_seconds_positive(total);
    lemma_seconds_ordered(total, position);
    lemma_nearest_ordered(seconds(total), seconds(position), seconds(total));
    lemma_ratio_of_equals(seconds(total));
    lemma_exact(width, 400);
    lemma_fundamental_div_mod_converse((width * one()) as int, one() as int, width as int, 0);
}

/// The start fills none.
pub proof fn lemma_cells_at_start(total: nat, width: nat)
    requires
        0 < total,
    ensures
        cells(0, total, width) == 0,
{
    let den = NANOS_PER_SEC as nat;
    lemma_pow2_pos(400);
    lemma_seconds_positive(total);
    lemma_whole_seconds(0);
    assert(0 * one() == 0 && 0 * den == 0 && width * 0 == 0);
    lemma_nearest_zero(seconds(total));
    lemma_nearest_zero(one());
    lemma_fundamental_div_mod_converse(0, one() as int, 0, 0);
}

/// Halfway, half of the cells are filled.
pub proof fn lemma_cells_halfway(secs: nat, half: nat)
    requires
        0 < secs,
        2 * secs <= MANTISSAS,
        half <= MANTISSAS,
    ensures
        cells(secs * NANOS_PER_SEC as nat, (2 * secs) * NANOS_PER_SEC as nat, 2 * half) == half,
{
    lemma_pow2_pos(400);
    lemma_whole_seconds(secs);
    lemma_whole_seconds(2 * secs);
    let k = secs * one();
    assert(k > 0) by (nonlinear_arith)
        requires
            k == secs * one(),
            secs > 0,
            one() > 0,
    ;
    assert((2 * secs) * one() == 2 * k) by (nonlinear_arith)
        requires
            k == secs * one(),
    ;
    lemma_nearest_cancel(1, 2, k);
    lemma2_to64();
    lemma_pow2_strictly_increases(1, 300);
    lemma_nearest_scales(1, 2, 1);
    lemma_ratio_of_equals(2);
    let r = nearest(1, 2);
    assert((2 * half) * r == half * one()) by (nonlinear_arith)
        requires
            r * 2 == one(),
    ;
    lemma_exact(half, 400);
    lemma_fundamental_div_mod_converse((half * one()) as int, one() as int, half as int, 0);
}

/// A later position fills no fewer cells, and never more than there are.
pub proof fn lemma_cells_ordered(earlier: nat, later: nat, total: nat, width: nat)
    requires
        earlier <= later,
        0 < total,
        width <= MANTISSAS,
    ensures
        cells(earlier, total, width) <= cells(later, total, width) <= width,
{
    lemma_pow2_pos(400);
    lemma_seconds_positive(total);
    lemma_seconds_ordered(earlier, later);
    lemma_nearest_ordered(seconds(earlier), seconds(later), seconds(total));
    let a = ratio(earlier, total);
    let b = ratio(later, total);
    assert(width * a <= width * b <= width * one()) by (nonlinear_arith)
        requires
            a <= b <= one(),
    ;
    lemma_nearest_ordered(width * a, width * b, one());
    lemma_nearest_ordered(width * b, width * one(), one());
    lemma_exact(width, 400);
    lemma_fundamental_div_mod_converse((width * one()) as int, one() as int, width as int, 0);
    lemma_div_is_ordered(
        nearest(width * a, one()) as int,
        nearest(width * b, one()) as int,
        one() as int,
    );
    lemma_div_is_ordered(
        nearest(width * b, one()) as int,
        (width * one()) as int,
        one() as int,
    );
}

/// What a quotient of two doubles comes down to: their numerators' quotient,
/// shifted.
proof fn lemma_quotient(p: Double, t: Double, r: Double)
    requires
        p.shift <= 124,
        t.shift <= 124,
        r.shift <= 124,
        p.num > 0,
        0 < t.num < LIMIT,
        r.num > 0,
        r.value() == nearest(p.num as nat, t.num as nat),
        p.value() <= t.value(),
    ensures
        t.shift <= r.shift + p.shift,
        nearest(p.value(), t.value()) == r.num * pow2(
            (400 - (r.shift + p.shift - t.shift)) as nat,
        ),
{
    let i = p.shift as nat;
    let l = t.shift as nat;
    let s = r.shift as nat;
    let n = p.num as nat;
    let d = t.num as nat;
    let pi = pow2(i);
    let pl = pow2(l);
    let common = pow2((400 - i - l) as nat);
    lemma_pow2_pos(i);
    lemma_pow2_pos(l);
    lemma_pow2_pos((400 - i - l) as nat);
    lemma_pow2_pos((400 - l) as nat);
    lemma_pow2_adds(l, (400 - i - l) as nat);
    lemma_pow2_adds(i, (400 - i - l) as nat);
    let num = n * pl;
    let den = d * pi;
    assert(p.value() == num * common) by (nonlinear_arith)
        requires
            p.value() == n * (pl * common),
            num == n * pl,
    ;
    assert(t.value() == den * common) by (nonlinear_arith)
        requires
            t.value() == d * (pi * common),
            den == d * pi,
    ;
    assert(den > 0 && num > 0) by (nonlinear_arith)
        requires
            d > 0,
            pi > 0,
            den == d * pi,
            n > 0,
            pl > 0,
            num == n * pl,
    ;
    lemma_nearest_cancel(num, den, common);
    let quotient = nearest(num, den);
    lemma2_to64();
    lemma2_to64_rest();
    lemma_pow2_adds(64, 8);
    lemma_pow2_adds(72, i);
    assert(den <= pow2(72 + i)) by (nonlinear_arith)
        requires
            den == d * pi,
            d <= pow2(72),
            pow2(72 + i) == pow2(72) * pi,
    ;
    lemma_pow2_strictly_increases(72 + i, 300);
    lemma_pow2_strictly_increases(72, 300);
    // quotient * 2^i == r * 2^l
    lemma_nearest_scales(num, den, i);
    lemma_nearest_cancel(num, d, pi);
    lemma_nearest_scales(n, d, l);
    let rv = r.value();
    assert(quotient * pi == rv * pl);
    // The quotient is one at most.
    assert(num <= den) by (nonlinear_arith)
        requires
            num * common <= den * common,
            common > 0,
    ;
    lemma_nearest_ordered(num, den, den);
    lemma_ratio_of_equals(den);
    let rn = r.num as nat;
    let ps = pow2((400 - s) as nat);
    lemma_pow2_pos((400 - s) as nat);
    lemma_pow2_adds((400 - s) as nat, l);
    let up = (400 - s + l) as nat;
    assert(quotient * pi == rn * pow2(up)) by (nonlinear_arith)
        requires
            quotient * pi == rv * pl,
            rv == rn * ps,
            pow2(up) == ps * pl,
    ;
    lemma_pow2_adds(400, i);
    lemma_pow2_pos(up);
    if s + i < l {
        lemma_pow2_strictly_increases(400 + i, up);
        assert(quotient * pi > one() * pi) by (nonlinear_arith)
            requires
                quotient * pi == rn * pow2(up),
                rn > 0,
                pow2(up) > pow2(400 + i),
                pow2(400 + i) == one() * pi,
        ;
        assert(quotient * pi <= one() * pi) by (nonlinear_arith)
            requires
                quotient <= one(),
        ;
        assert(false);
    }
    let w = (s + i - l) as nat;
    lemma_pow2_adds((400 - w) as nat, i);
    let low = pow2((400 - w) as nat);
    assert((400 - w) as nat + i == up);
    assert(quotient == rn * low) by (nonlinear_arith)
        requires
            quotient * pi == rn * (low * pi),
            pi > 0,
    {
        assert(quotient * pi == (rn * low) * pi);
    }
}

/// What a product with a double comes down to, rounded to a double and then
/// down to an integer.
proof fn lemma_product(width: nat, num: nat, w: nat, q: Double)
    requires
        w <= 248,
        0 < width,
        0 < num,
        q.shift <= 124,
        q.value() == nearest(width * num, 1),
    ensures
        nearest(width * (num * pow2((400 - w) as nat)), one()) / one() == q.num as nat / pow2(
            q.shift as nat + w,
        ),
{
    let low = pow2((400 - w) as nat);
    let pw = pow2(w);
    lemma_pow2_pos((400 - w) as nat);
    lemma_pow2_pos(w);
    lemma_pow2_pos(400);
    lemma_pow2_adds(w, (400 - w) as nat);
    let n = width * num;
    assert(width * (num * low) == n * low) by (nonlinear_arith)
        requires
            n == width * num,
    ;
    assert(n > 0) by (nonlinear_arith)
        requires
            n == width * num,
            width > 0,
            num > 0,
    ;
    lemma_nearest_cancel(n, pw, low);
    let product = nearest(n, pw);
    lemma_pow2_strictly_increases(w, 300);
    lemma_nearest_scales(n, pw, w);
    lemma_nearest_cancel(n, 1, pw);
    assert(1 * pw == pw);
    assert(product * pw == q.value());
    let s = q.shift as nat;
    let ps = pow2((400 - s) as nat);
    lemma_pow2_pos((400 - s) as nat);
    lemma_pow2_pos(s + w);
    lemma_pow2_adds(s + w, (400 - s) as nat);
    lemma_pow2_adds(400, w);
    assert(s + w + (400 - s) as nat == 400 + w);
    lemma_cancel(product, one(), pw);
    lemma_cancel(q.num as nat, pow2(s + w), ps);
}

/// How many of `width` cells are filled for `position` out of `total`.
pub fn filled_cells(position: Duration, total: Duration, width: usize) -> (n: usize)
    requires
        0 < total@,
        width <= 32,
    ensures
        n == cells(position@, total@, width as nat),
        n <= width,
{
    proof {
        lemma_cells_ordered(position@, position@, total@, width as nat);
    }
    if !position.shorter_than(total) {
        proof {
            lemma_cells_at_end(position@, total@, width as nat);
        }
        return width;
    }
    let p = seconds_double(position);
    let t = seconds_double(total);
    proof {
        lemma_pow2_pos(400);
        lemma_seconds_ordered(position@, total@);
        lemma_seconds_positive(total@);
    }
    if p.num == 0 || width == 0 {
        proof {
            lemma_nearest_zero(seconds(total@));
            lemma_nearest_zero(one());
            if p.num == 0 {
                assert(0 * pow2((400 - p.shift) as nat) == 0);
            }
            assert(width * ratio(position@, total@) == 0) by (nonlinear_arith)
                requires
                    width == 0 || ratio(position@, total@) == 0,
            ;
            assert(0 * (one() as int) == 0);
            lemma_fundamental_div_mod_converse(0, one() as int, 0, 0);
        }
        return 0;
    }
    let r = nearest_double(p.num, t.num);
    proof {
        lemma_quotient(p, t, r);
        lemma_nearest_ordered(seconds(position@), seconds(total@), seconds(total@));
        lemma_ratio_of_equals(seconds(total@));
        assert(width * r.num < LIMIT) by (nonlinear_arith)
            requires
                width <= 32,
                r.num <= 0x4_0000_0000_0000_0000,
                LIMIT == 0x100_0000_0000_0000_0000,
        ;
    }
    let w: u32 = r.shift + p.shift - t.shift;
    let q = nearest_double(width as u128 * r.num, 1);
    proof {
        lemma_product(width as nat, r.num as nat, w as nat, q);
    }
    halved(q.num, q.shift + w) as usize
}

/// The thousandths of a second in a span, nearest to what the span is in
/// seconds as a double, ties to even.
pub fn thousandths(span: Duration) -> (n: u128)
    ensures
        n == half_even(1000 * seconds(span@), one()),
        n <= 1000 * 0x1_0000_0000_0000_0000,
{
    let d = seconds_double(span);
    let step: u128 = power(d.shift);
    let n: u128 = rounded(1000 * d.num, step);
    proof {
        let k = d.shift as nat;
        let low = pow2((400 - k) as nat);
        lemma_pow2_pos((400 - k) as nat);
        lemma_pow2_adds(k, (400 - k) as nat);
        lemma_cancel((1000 * d.num) as nat, step as nat, low);
        assert((1000 * d.num) * low == 1000 * (d.num * low)) by (nonlinear_arith);
        lemma_pow2_pos(400);
        let top = 0x1_0000_0000_0000_0000nat;
        assert(1000 * seconds(span@) <= 1000 * (top * one()));
        lemma_half_even_ordered(1000 * seconds(span@), 1000 * (top * one()), one());
        assert(1000 * (top * one()) == (1000 * top) * one()) by (nonlinear_arith);
        lemma_fundamental_div_mod_converse(
            ((1000 * top) * one()) as int,
            one() as int,
            (1000 * top) as int,
            0,
        );
    }
    n
}

/// Rounding a quotient below 2^53 times 2^k, in multiples of 2^-400, is off
/// by half of 2^k at most.
proof fn lemma_nearest_error(num: nat, den: nat, k: nat)
    requires
        den > 0,
        num * one() < den * (MANTISSAS * pow2(k)),
    ensures
        2 * (nearest(num, den) * den) <= 2 * (num * one()) + den * pow2(k),
        2 * (nearest(num, den) * den) + den * pow2(k) >= 2 * (num * one()),
{
    let n = num * one();
    let x = n / den;
    let p = pow2(k);
    let top = (MANTISSAS * p) as nat;
    lemma_pow2_pos(k);
    lemma_fundamental_div_mod(n as int, den as int);
    assert(x < top) by (nonlinear_arith)
        requires
            n == den * x + n % den,
            n % den >= 0,
            n < den * top,
            den > 0,
    ;
    lemma_spacing((top - 1) as nat, k);
    lemma_spacing_grows(x, (top - 1) as nat);
    lemma_spacing_positive(x);
    let step = spacing(x);
    let d = den * step;
    assert(0 < d <= den * p) by (nonlinear_arith)
        requires
            d == den * step,
            0 < step <= p,
            den > 0,
    ;
    lemma_fundamental_div_mod(n as int, d as int);
    let q = n / d;
    let r = n % d;
    let h = half_even(n, d);
    assert(h * step * den == h * d) by (nonlinear_arith)
        requires
            d == den * step,
    ;
    assert(2 * (h * d) <= 2 * n + d && 2 * (h * d) + d >= 2 * n) by (nonlinear_arith)
        requires
            n == d * q + r,
            0 <= r < d,
            (h == q + 1 && 2 * r >= d) || (h == q && 2 * r <= d),
    ;
}

/// Spans that are shorter than this, in nanoseconds, are precise to well
/// below a nanosecond as doubles: four million seconds.
pub const PRECISE_NANOS: u128 = 4_000_000_000_000_000;

/// How far a short span in seconds may be off, in multiples of 2^-400.
proof fn lemma_seconds_error(nanos: nat)
    requires
        nanos <= PRECISE_NANOS,
    ensures
        NANOS_PER_SEC * seconds(nanos) <= nanos * one() + NANOS_PER_SEC * pow2(369),
        NANOS_PER_SEC * seconds(nanos) + NANOS_PER_SEC * pow2(369) >= nanos * one(),
{
    let den = NANOS_PER_SEC as nat;
    let s = nanos / den;
    let r = nanos % den;
    let f = nearest(r, den);
    let u = one();
    lemma_pow2_pos(400);
    lemma_fraction_below_one(r);
    lemma_whole_exact(s);
    lemma2_to64();
    lemma2_to64_rest();
    lemma_pow2_adds(53, 347);
    lemma_pow2_adds(22, 347);
    lemma_pow2_adds(31, 369);
    lemma_pow2_pos(347);
    assert(r * u < den * (MANTISSAS * pow2(347))) by (nonlinear_arith)
        requires
            r < den,
            u > 0,
            u == MANTISSAS * pow2(347),
    ;
    lemma_nearest_error(r, den, 347);
    let sum = s * u + f;
    assert(sum <= 4_000_001 * u) by (nonlinear_arith)
        requires
            sum == s * u + f,
            s <= 4_000_000,
            f < u,
    ;
    assert(sum * u < u * (MANTISSAS * pow2(369))) by (nonlinear_arith)
        requires
            sum <= 4_000_001 * u,
            u > 0,
            u == 0x8000_0000 * pow2(369),
            pow2(369) > 0,
            MANTISSAS == 0x20_0000_0000_0000,
    {
        assert(sum <= 4_000_001 * 0x8000_0000 * pow2(369));
        assert(sum < MANTISSAS * pow2(369));
    }
    lemma_nearest_error(sum, u, 369);
    let d = nearest(sum, u);
    let e = pow2(369);
    assert(2 * d <= 2 * sum + e && 2 * d + e >= 2 * sum) by (nonlinear_arith)
        requires
            2 * (d * u) <= 2 * (sum * u) + u * e,
            2 * (d * u) + u * e >= 2 * (sum * u),
            u > 0,
    {
        assert((2 * d) * u <= (2 * sum + e) * u);
        assert((2 * d + e) * u >= (2 * sum) * u);
    }
    assert(nanos * u == den * (s * u) + r * u) by (nonlinear_arith)
        requires
            nanos == den * s + r,
    ;
    assert(f * den == den * f);
}

/// A position of up to four million seconds has the nearest whole number of
/// thousandths; only where it lies halfway between two of them it may be
/// either.
pub proof fn lemma_thousandths_nearest(nanos: nat, millis: nat)
    requires
        nanos <= PRECISE_NANOS,
        millis * 1_000_000 < nanos + 500_000,
        nanos < millis * 1_000_000 + 500_000,
    ensures
        half_even(1000 * seconds(nanos), one()) == millis,
{
    lemma_seconds_error(nanos);
    let d = seconds(nanos);
    let u = one();
    lemma_pow2_pos(400);
    lemma_pow2_pos(369);
    lemma2_to64();
    lemma_pow2_adds(31, 369);
    let e = pow2(369);
    assert(2 * (1000 * d) < 2 * (millis * u) + u && 2 * (1000 * d) + u > 2 * (millis * u))
        by (nonlinear_arith)
        requires
            1_000_000_000 * d <= nanos * u + 1_000_000_000 * e,
            1_000_000_000 * d + 1_000_000_000 * e >= nanos * u,
            u == 0x8000_0000 * e,
            e > 0,
            millis * 1_000_000 + 1 <= nanos + 500_000,
            nanos + 1 <= millis * 1_000_000 + 500_000,
    {
        assert(nanos * u + u <= (millis * 1_000_000 + 500_000) * u);
        assert((millis * 1_000_000) * u + u <= (nanos + 500_000) * u);
        assert((millis * 1_000_000 + 500_000) * u == 1_000_000 * (millis * u) + 500_000 * u);
        assert((nanos + 500_000) * u == nanos * u + 500_000 * u);
        assert((millis * 1_000_000) * u == 1_000_000 * (millis * u));
    }
    let n = 1000 * d;
    if n >= millis * u {
        lemma_fundamental_div_mod_converse(n as int, u as int, millis as int, n - millis * u);
    } else {
        assert((millis - 1) * u == millis * u - u) by (nonlinear_arith);
        lemma_fundamental_div_mod_converse(n as int, u as int, millis - 1, n - (millis - 1) * u);
    }
}

/// For up to four million seconds, the cells that are filled are the exact
/// ones unless the exact share is within a few nanoseconds of another cell.
pub proof fn lemma_cells_accurate(position: nat, total: nat, width: nat, n: nat)
    requires
        position < total <= PRECISE_NANOS,
        width <= 31,
    ensures
        n * total + 128 <= width * position ==> cells(position, total, width) >= n,
        width * position + 128 <= n * total ==> cells(position, total, width) < n,
{
    let u = one();
    lemma_pow2_pos(400);
    lemma_seconds_error(position);
    lemma_seconds_error(total);
    lemma_seconds_positive(total);
    lemma_seconds_ordered(position, total);
    let p = seconds(position);
    let t = seconds(total);
    lemma_nearest_ordered(p, t, t);
    lemma_ratio_of_equals(t);
    let r = nearest(p, t);
    assert(r == ratio(position, total));
    lemma2_to64();
    lemma2_to64_rest();
    lemma_pow2_adds(53, 347);
    lemma_pow2_adds(1, 347);
    lemma_pow2_adds(5, 347);
    lemma_pow2_adds(22, 347);
    lemma_pow2_adds(31, 369);
    lemma_pow2_pos(347);
    let f = pow2(347);
    assert(p * u < t * (MANTISSAS * pow2(348))) by (nonlinear_arith)
        requires
            p <= t,
            t > 0,
            u == MANTISSAS * f,
            pow2(348) == 2 * f,
            u > 0,
    {
        assert(p * u <= t * u);
        assert(t * (MANTISSAS * pow2(348)) == 2 * (t * u));
        assert(t * u > 0);
    }
    lemma_nearest_error(p, t, 348);
    let share = width * r;
    assert(share <= 31 * u) by (nonlinear_arith)
        requires
            share == width * r,
            width <= 31,
            r <= u,
    ;
    assert(share * u < u * (MANTISSAS * pow2(352))) by (nonlinear_arith)
        requires
            share <= 31 * u,
            u == MANTISSAS * f,
            pow2(352) == 32 * f,
            u > 0,
    {
        assert(MANTISSAS * pow2(352) == 32 * u);
        assert(share < 32 * u);
    }
    lemma_nearest_error(share, u, 352);
    let q = nearest(share, u);
    let g = pow2(352);
    assert(2 * q <= 2 * share + g && 2 * q + g >= 2 * share) by (nonlinear_arith)
        requires
            2 * (q * u) <= 2 * (share * u) + u * g,
            2 * (q * u) + u * g >= 2 * (share * u),
            u > 0,
    {
        assert((2 * q) * u <= (2 * share + g) * u);
        assert((2 * q + g) * u >= (2 * share) * u);
    }
    lemma_accuracy(position, total, width, p, t, r, q);
    lemma_fundamental_div_mod(q as int, u as int);
    let c = q / u;
    assert(cells(position, total, width) == c);
    if n * total + 128 <= width * position {
        assert(q >= n * u) by (nonlinear_arith)
            requires
                q * total + 128 * u >= width * position * u,
                n * total + 128 <= width * position,
                total > 0,
                u > 0,
        {
            assert((n * total + 128) * u <= width * position * u);
            assert((n * total + 128) * u == (n * u) * total + 128 * u);
            assert(q * total >= (n * u) * total);
        }
        assert(c >= n) by (nonlinear_arith)
            requires
                q == u * c + q % u,
                q % u < u,
                q >= n * u,
                u > 0,
        ;
    }
    if width * position + 128 <= n * total {
        assert(q < n * u) by (nonlinear_arith)
            requires
                q * total < width * position * u + 128 * u,
                width * position + 128 <= n * total,
                total > 0,
                u > 0,
        {
            assert((width * position + 128) * u <= (n * total) * u);
            assert((n * total) * u == (n * u) * total);
            assert(q * total < (n * u) * total);
        }
        assert(c < n) by (nonlinear_arith)
            requires
                q == u * c + q % u,
                q % u >= 0,
                q < n * u,
                u > 0,
        ;
    }
}

/// The errors of reckoning the filled part of a bar, taken together.
proof fn lemma_accuracy(
    position: nat,
    total: nat,
    width: nat,
    p: nat,
    t: nat,
    r: nat,
    q: nat,
)
    requires
        position < total <= PRECISE_NANOS,
        width <= 31,
        NANOS_PER_SEC * p <= position * one() + NANOS_PER_SEC * pow2(369),
        NANOS_PER_SEC * p + NANOS_PER_SEC * pow2(369) >= position * one(),
        NANOS_PER_SEC * t <= total * one() + NANOS_PER_SEC * pow2(369),
        NANOS_PER_SEC * t + NANOS_PER_SEC * pow2(369) >= total * one(),
        r <= one(),
        2 * (r * t) <= 2 * (p * one()) + t * pow2(348),
        2 * (r * t) + t * pow2(348) >= 2 * (p * one()),
        2 * q <= 2 * (width * r) + pow2(352),
        2 * q + pow2(352) >= 2 * (width * r),
    ensures
        q * total + 128 * one() >= width * position * one(),
        q * total < width * position * one() + 128 * one(),
{
    let u = one();
    let b = NANOS_PER_SEC as nat;
    let f = pow2(348);
    lemma_pow2_pos(348);
    lemma_pow2_pos(400);
    lemma2_to64();
    lemma2_to64_rest();
    lemma_pow2_adds(4, 348);
    lemma_pow2_adds(21, 348);
    lemma_pow2_adds(52, 348);
    assert(pow2(352) == 16 * f && pow2(369) == 0x20_0000 * f && u == HALF * f);
    let e = b * (0x20_0000 * f);
    assert(t <= 4_000_001 * u) by (nonlinear_arith)
        requires
            b * t <= total * u + e,
            e == b * (0x20_0000 * f),
            u == HALF * f,
            HALF == 0x10_0000_0000_0000,
            f > 0,
            total <= 4_000_000_000_000_000,
            b == 1_000_000_000,
    {
        assert(total * u <= 4_000_000_000_000_000 * u);
        assert(e <= b * u);
        assert(b * t <= b * (4_000_001 * u));
    }
    let tf = t * f;
    let rt = r * t;
    let pu = p * u;
    // |r * total - position * u| in units, times b: through t.
    let rn = r * total;
    let x = position * u;
    assert(b * rt <= rn * u + u * e && b * rt + u * e >= rn * u) by (nonlinear_arith)
        requires
            rt == r * t,
            rn == r * total,
            b * t <= total * u + e,
            b * t + e >= total * u,
            r <= u,
    {
        assert(r * (b * t) <= r * (total * u + e));
        assert(r * (b * t + e) >= r * (total * u));
        assert(r * e <= u * e);
        assert(r * (b * t) == b * (r * t));
        assert(r * (total * u) == (r * total) * u);
    }
    assert(b * pu <= x * u + u * e && b * pu + u * e >= x * u) by (nonlinear_arith)
        requires
            pu == p * u,
            b * p <= x + e,
            b * p + e >= x,
    {
        assert((b * p) * u <= (x + e) * u);
        assert((b * p + e) * u >= x * u);
    }
    assert(2 * rt <= 2 * pu + tf && 2 * rt + tf >= 2 * pu);
    // So rn * u and x * u differ by at most 2 * u * e + b * tf / 2.
    assert(2 * (rn * u) <= 2 * (x * u) + 4 * (u * e) + b * tf && 2 * (rn * u) + 4 * (u * e) + b
        * tf >= 2 * (x * u)) by (nonlinear_arith)
        requires
            b * rt <= rn * u + u * e,
            b * rt + u * e >= rn * u,
            b * pu <= x * u + u * e,
            b * pu + u * e >= x * u,
            2 * rt <= 2 * pu + tf,
            2 * rt + tf >= 2 * pu,
            b > 0,
    {
        assert(b * (2 * rt) <= b * (2 * pu + tf));
        assert(b * (2 * rt + tf) >= b * (2 * pu));
    }
    let slack = 4 * e + b * (4_000_001 * f);
    assert(2 * rn <= 2 * x + slack && 2 * rn + slack >= 2 * x) by (nonlinear_arith)
        requires
            2 * (rn * u) <= 2 * (x * u) + 4 * (u * e) + b * tf,
            2 * (rn * u) + 4 * (u * e) + b * tf >= 2 * (x * u),
            tf == t * f,
            t <= 4_000_001 * u,
            slack == 4 * e + b * (4_000_001 * f),
            u > 0,
            f > 0,
    {
        assert(t * f <= (4_000_001 * u) * f);
        assert(b * tf <= b * ((4_000_001 * u) * f));
        assert(b * ((4_000_001 * u) * f) == (b * (4_000_001 * f)) * u);
        assert(4 * (u * e) == (4 * e) * u);
        assert((2 * rn) * u <= (2 * x + slack) * u);
        assert((2 * rn + slack) * u >= (2 * x) * u);
    }
    // Then times the width, and the last rounding.
    let wr = width * r;
    let n = q * total;
    let y = width * position * u;
    assert(wr * total == width * rn) by (nonlinear_arith)
        requires
            wr == width * r,
            rn == r * total,
    ;
    assert(y == width * x) by (nonlinear_arith)
        requires
            y == width * position * u,
            x == position * u,
    ;
    assert(2 * (width * rn) <= 2 * y + 31 * slack && 2 * (width * rn) + 31 * slack >= 2 * y)
        by (nonlinear_arith)
        requires
            2 * rn <= 2 * x + slack,
            2 * rn + slack >= 2 * x,
            y == width * x,
            width <= 31,
    {
        assert(width * (2 * rn) <= width * (2 * x + slack));
        assert(width * (2 * rn + slack) >= width * (2 * x));
        assert(width * slack <= 31 * slack);
    }
    let last = 4_000_000_000_000_000 * (16 * f);
    assert(2 * n <= 2 * (wr * total) + last && 2 * n + last >= 2 * (wr * total))
        by (nonlinear_arith)
        requires
            n == q * total,
            2 * q <= 2 * wr + 16 * f,
            2 * q + 16 * f >= 2 * wr,
            total <= 4_000_000_000_000_000,
            last == 4_000_000_000_000_000 * (16 * f),
    {
        assert((2 * q) * total <= (2 * wr + 16 * f) * total);
        assert((2 * q + 16 * f) * total >= (2 * wr) * total);
        assert((16 * f) * total <= last);
    }
    assert(31 * slack + last < 256 * u);
}

/// Rounding goes to the nearest integer: it is off by half at most, and by
/// exactly half only towards an even one.
pub proof fn law_rounding_is_nearest(num: nat, den: nat)
    requires
        den > 0,
    ensures
        2 * (half_even(num, den) * den) <= 2 * num + den,
        2 * num <= 2 * (half_even(num, den) * den) + den,
        2 * (half_even(num, den) * den) == 2 * num + den ==> half_even(num, den) % 2 == 0,
        2 * num == 2 * (half_even(num, den) * den) + den ==> half_even(num, den) % 2 == 0,
{
    lemma_fundamental_div_mod(num as int, den as int);
    let down = num / den;
    let rest = num % den;
    assert(down * den == den * down) by (nonlinear_arith);
    assert((down + 1) * den == den * down + den) by (nonlinear_arith);
}

/// Neighbouring doubles are a power of two apart, such that every number
/// takes 53 bits, or fewer if it is small.
pub proof fn law_doubles_have_53_bits(x: nat)
    ensures
        exists|k: nat| spacing(x) == #[trigger] pow2(k),
        x < 0x20_0000_0000_0000 * spacing(x),
        x >= 0x10_0000_0000_0000 ==> x >= 0x10_0000_0000_0000 * spacing(x),
        x < 0x20_0000_0000_0000 ==> spacing(x) == 1,
{
    let k = lemma_spacing_fits(x);
    assert(spacing(x) == pow2(k));
}

/// A quotient's double is one that neighbours it: it lies on the grid of
/// doubles there, and half a step away at most.
pub proof fn law_quotients_are_nearest(num: nat, den: nat)
    requires
        den > 0,
    ensures
        ({
            let step = spacing(num * one() / den);
            &&& nearest(num, den) % step == 0
            &&& 2 * (nearest(num, den) * den) <= 2 * (num * one()) + den * step
            &&& 2 * (num * one()) <= 2 * (nearest(num, den) * den) + den * step
        }),
{
    let step = spacing(num * one() / den);
    lemma_spacing_positive(num * one() / den);
    let h = half_even(num * one(), den * step);
    assert(den * step > 0) by (nonlinear_arith)
        requires
            den > 0,
            step > 0,
    ;
    law_rounding_is_nearest(num * one(), den * step);
    assert(h * (den * step) == (h * step) * den) by (nonlinear_arith);
    lemma_fundamental_div_mod_converse((h * step) as int, step as int, h as int, 0);
}

/// How much of a track is behind is never more than all of it, and how many
/// cells are filled is that part of them, rounded down.
pub proof fn law_cells_are_rounded_down(position: nat, total: nat, width: nat)
    ensures
        ratio(position, total) <= one(),
        nearest(seconds(position), seconds(total)) <= one() ==> ratio(position, total) == nearest(
            seconds(position),
            seconds(total),
        ),
        cells(position, total, width) * one() <= nearest(width * ratio(position, total), one()),
        nearest(width * ratio(position, total), one()) < (cells(position, total, width) + 1)
            * one(),
{
    lemma_pow2_pos(400);
    let n = nearest(width * ratio(position, total), one());
    lemma_fundamental_div_mod(n as int, one() as int);
    let c = cells(position, total, width);
    assert(c * one() == one() * c) by (nonlinear_arith);
    assert((c + 1) * one() == one() * c + one()) by (nonlinear_arith);
}

} // verus!
