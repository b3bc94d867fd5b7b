//! The per-vector transform: a byte triple is scaled to unit length and each
//! component is mapped onto the byte range around 100.
//!
//! The transform is the single-precision evaluation of
//! `component / sqrt(x*x + y*y + z*z) * 100 + 100`, cut to a byte: after the
//! square root and after each of the three operations the value is replaced by
//! the nearest number with a 24-bit significand, a tie going to the even
//! significand. This file computes that evaluation with integers alone. A
//! rounded value is kept as a fraction `mant / den` whose denominator is a
//! power of two.

use vstd::prelude::*;

verus! {

/// Smallest significand of a rounded value: `2^23`.
pub const MANT_MIN: u64 = 0x80_0000;

/// One more than the largest significand: `2^24`.
pub const MANT_END: u64 = 0x100_0000;

/// Squares are scaled up to at least this, `2^46`, before the nearest root is
/// taken, which then has 24 bits.
pub const SQUARE_MIN: u64 = 0x4000_0000_0000;

/// Largest squared length of a byte triple.
pub const MAX_LENGTH_SQUARED: u32 = 3 * 255 * 255;

/// A rounded value: `mant / den`.
pub struct Dyadic {
    pub mant: nat,
    pub den: nat,
}

/// Squared Euclidean length of a byte triple.
pub open spec fn length_squared(x: u8, y: u8, z: u8) -> nat {
    (x * x + y * y + z * z) as nat
}

/// The integer nearest to `n / d`; where two are equally near, the even one.
pub open spec fn round_half_even(n: nat, d: nat) -> nat {
    let q = n / d;
    let r = n % d;
    if 2 * r < d {
        q
    } else if 2 * r > d {
        q + 1
    } else if q % 2 == 0 {
        q
    } else {
        (q + 1) as nat
    }
}

/// The number with a 24-bit significand nearest to `n / d`, for a positive
/// `n / d` below `2^24`: the fraction is doubled until it is at least `2^23`,
/// rounded to an integer, and halved as often as it was doubled.
pub open spec fn round_ratio(n: nat, d: nat) -> Dyadic
    decreases
        (if n < 0x80_0000 * d {
            0x80_0000 * d - n
        } else {
            0
        }),
{
    if n == 0 || d == 0 {
        Dyadic { mant: 0, den: 1 }
    } else if n < 0x80_0000 * d {
        let r = round_ratio(2 * n, d);
        Dyadic { mant: r.mant, den: 2 * r.den }
    } else {
        Dyadic { mant: round_half_even(n, d), den: 1 }
    }
}

/// `m` is the integer nearest to the square root of a positive `n`: the root
/// lies within a half of `m`. No root of an integer lies exactly between two
/// integers.
pub open spec fn is_nearest_root(m: nat, n: nat) -> bool {
    m * m < n + m && n <= m * m + m
}

/// The integer nearest to the square root of `n`.
pub closed spec fn nearest_root(n: nat) -> nat {
    choose|m: nat| is_nearest_root(m, n)
}

/// The number with a 24-bit significand nearest to the square root of
/// `n / (den * den)`, for a positive `n`: `n` is multiplied by 4 until it is at
/// least `2^46`, so that its root has 24 bits, and the nearest root is halved
/// as often.
pub open spec fn round_root(n: nat, den: nat) -> Dyadic
    decreases
        (if n < 0x4000_0000_0000 {
            0x4000_0000_0000 - n
        } else {
            0
        }),
{
    if n == 0 {
        Dyadic { mant: 0, den: 1 }
    } else if n < SQUARE_MIN {
        round_root(4 * n, 2 * den)
    } else {
        Dyadic { mant: nearest_root(n), den }
    }
}

/// The single-precision value of `x / sqrt(s) * 100 + 100`, without its
/// fraction, for positive `x` and `s`.
#[verifier::opaque]
pub open spec fn single_scaled(x: nat, s: nat) -> nat {
    let len = round_root(s, 1);
    let unit = round_ratio(x * len.den, len.mant);
    let percent = round_ratio(unit.mant * 100, unit.den);
    let shifted = round_ratio(percent.mant + 100 * percent.den, percent.den);
    shifted.mant / shifted.den
}

/// The byte stored for a component `x` of a vector whose squared length is
/// `s`. The zero vector is passed through unscaled, so each of its components
/// gives 100, as does a zero component of any vector. Every other component
/// gives `single_scaled`, held to the byte range.
pub open spec fn scaled_component(x: u8, s: nat) -> u8 {
    if s == 0 || x == 0 {
        100u8
    } else if single_scaled(x as nat, s) > 255 {
        255u8
    } else {
        single_scaled(x as nat, s) as u8
    }
}

/// At most one integer is nearest to the root of `n`.
pub proof fn lemma_nearest_root_unique(a: nat, b: nat, n: nat)
    requires
        is_nearest_root(a, n),
        is_nearest_root(b, n),
    ensures
        a == b,
{
    if a < b {
        assert(a * a + a < b * b - b + 1) by (nonlinear_arith)
            requires
                a + 1 <= b,
        ;
    }
    if b < a {
        assert(b * b + b < a * a - a + 1) by (nonlinear_arith)
            requires
                b + 1 <= a,
        ;
    }
}

/// Any integer that is nearest to the root of `n` is `nearest_root(n)`.
pub proof fn lemma_nearest_root_is(m: nat, n: nat)
    requires
        is_nearest_root(m, n),
    ensures
        nearest_root(n) == m,
{
    lemma_nearest_root_unique(m, nearest_root(n), n);
}

/// Rounding to the nearest integer stays within one of the whole part, so a
/// fraction in `[2^23, 2^24)` rounds to a significand in `[2^23, 2^24]`.
pub proof fn lemma_round_half_even_bounds(n: nat, d: nat)
    requires
        d > 0,
    ensures
        n / d <= round_half_even(n, d) <= n / d + 1,
        0x80_0000 * d <= n ==> MANT_MIN <= round_half_even(n, d),
        n < 0x100_0000 * d ==> round_half_even(n, d) <= MANT_END,
{
    if 0x80_0000 * d <= n {
        assert(n / d >= MANT_MIN) by (nonlinear_arith)
            requires
                0x80_0000 * d <= n,
                d > 0,
        ;
    }
    if n < 0x100_0000 * d {
        assert(n / d < MANT_END) by (nonlinear_arith)
            requires
                n < 0x100_0000 * d,
                d > 0,
        ;
    }
}

/// Every positive integer has a nearest root.
pub proof fn lemma_nearest_root_exists(n: nat)
    requires
        n > 0,
    ensures
        is_nearest_root(nearest_root(n), n),
    decreases n,
{
    if n == 1 {
        assert(is_nearest_root(1, 1));
    } else {
        lemma_nearest_root_exists((n - 1) as nat);
        let m = nearest_root((n - 1) as nat);
        if n <= m * m + m {
            assert(is_nearest_root(m, n));
        } else {
            assert((m + 1) * (m + 1) == m * m + 2 * m + 1) by (nonlinear_arith);
            assert(is_nearest_root(m + 1, n));
        }
    }
}

/// Rounding keeps a fraction on its side of a whole number `c`: a fraction
/// of at least `c` rounds to at least `c`, and one of at most `c` to at most
/// `c`.
pub proof fn lemma_round_ratio_respects(n: nat, d: nat, c: nat)
    requires
        n > 0,
        d > 0,
    ensures
        round_ratio(n, d).den > 0,
        n >= c * d ==> round_ratio(n, d).mant >= c * round_ratio(n, d).den,
        n <= c * d ==> round_ratio(n, d).mant <= c * round_ratio(n, d).den,
    decreases
        (if n < 0x80_0000 * d {
            0x80_0000 * d - n
        } else {
            0
        }),
{
    if n < 0x80_0000 * d {
        lemma_round_ratio_respects(2 * n, d, 2 * c);
        let r = round_ratio(2 * n, d);
        assert((2 * c) * d == 2 * (c * d)) by (nonlinear_arith);
        assert((2 * c) * r.den == c * (2 * r.den)) by (nonlinear_arith);
    } else {
        let q = n / d;
        let rest = n % d;
        assert(n == d * q + rest && 0 <= rest < d) by (nonlinear_arith)
            requires
                q == n / d,
                rest == n % d,
                d > 0,
        ;
        if n >= c * d {
            assert(q >= c) by (nonlinear_arith)
                requires
                    n == d * q + rest,
                    rest < d,
                    n >= c * d,
                    d > 0,
            ;
        }
        if n <= c * d {
            if q >= c {
                assert(q == c && rest == 0) by (nonlinear_arith)
                    requires
                        n == d * q + rest,
                        0 <= rest,
                        n <= c * d,
                        q >= c,
                        d > 0,
                ;
            }
        }
    }
}

/// The rounded root of a number that is at least a square is at least the
/// root of that square.
pub proof fn lemma_round_root_at_least(n: nat, den: nat, x: nat)
    requires
        n > 0,
        n >= (x * den) * (x * den),
    ensures
        round_root(n, den).mant >= x * round_root(n, den).den,
    decreases
        (if n < 0x4000_0000_0000 {
            0x4000_0000_0000 - n
        } else {
            0
        }),
{
    if n < SQUARE_MIN {
        assert(4 * n >= (x * (2 * den)) * (x * (2 * den))) by (nonlinear_arith)
            requires
                n >= (x * den) * (x * den),
        ;
        lemma_round_root_at_least(4 * n, 2 * den, x);
    } else {
        lemma_nearest_root_exists(n);
        let m = nearest_root(n);
        let low = x * den;
        if m < low {
            assert(m * m + m < low * low) by (nonlinear_arith)
                requires
                    m + 1 <= low,
            ;
        }
    }
}

/// Every component of a vector is stored as a byte from 100 to 200: a
/// component is at least nothing and at most the whole length, and no rounding
/// on the way carries it across either bound.
pub proof fn lemma_scaled_component_range(x: u8, s: nat)
    requires
        x * x <= s,
    ensures
        100 <= scaled_component(x, s) <= 200,
{
    if s > 0 && x > 0 {
        reveal(single_scaled);
        let xn = x as nat;
        let len = round_root(s, 1);
        assert((xn * 1) * (xn * 1) == x * x) by (nonlinear_arith)
            requires
                xn == x,
        ;
        lemma_round_root_at_least(s, 1, xn);
        lemma_round_root_at_least(s, 1, 1);
        assert(len.mant >= 1 * len.den);
        lemma_round_root_denominator(s, 1);
        let unit = round_ratio(xn * len.den, len.mant);
        assert(xn * len.den >= 1) by (nonlinear_arith)
            requires
                xn >= 1,
                len.den >= 1,
        ;
        lemma_round_ratio_respects(xn * len.den, len.mant, 1);
        lemma_round_ratio_positive(xn * len.den, len.mant);
        let percent = round_ratio(unit.mant * 100, unit.den);
        assert(unit.mant * 100 <= 100 * unit.den);
        lemma_round_ratio_respects(unit.mant * 100, unit.den, 100);
        lemma_round_ratio_positive(unit.mant * 100, unit.den);
        let n = percent.mant + 100 * percent.den;
        let shifted = round_ratio(n, percent.den);
        lemma_round_ratio_respects(n, percent.den, 100);
        lemma_round_ratio_respects(n, percent.den, 200);
        assert(shifted.mant / shifted.den >= 100) by (nonlinear_arith)
            requires
                shifted.mant >= 100 * shifted.den,
                shifted.den > 0,
        ;
        assert(shifted.mant / shifted.den <= 200) by (nonlinear_arith)
            requires
                shifted.mant <= 200 * shifted.den,
                shifted.den > 0,
        ;
    }
}

/// A rounded root has a positive denominator where it started from one.
pub proof fn lemma_round_root_denominator(n: nat, den: nat)
    requires
        n > 0,
        den > 0,
    ensures
        round_root(n, den).den > 0,
    decreases
        (if n < 0x4000_0000_0000 {
            0x4000_0000_0000 - n
        } else {
            0
        }),
{
    if n < SQUARE_MIN {
        lemma_round_root_denominator(4 * n, 2 * den);
    }
}

/// A positive fraction rounds to a positive significand.
pub proof fn lemma_round_ratio_positive(n: nat, d: nat)
    requires
        n > 0,
        d > 0,
    ensures
        round_ratio(n, d).mant > 0,
    decreases
        (if n < 0x80_0000 * d {
            0x80_0000 * d - n
        } else {
            0
        }),
{
    if n < 0x80_0000 * d {
        lemma_round_ratio_positive(2 * n, d);
    } else {
        assert(n / d >= 1) by (nonlinear_arith)
            requires
                n >= 0x80_0000 * d,
                d > 0,
        ;
    }
}

/// Rounding a fraction below `2^15` is rounding 256 times the fraction and
/// dividing by 256.
pub proof fn lemma_round_ratio_scaled(n: nat, d: nat)
    requires
        0 < n < 0x8000 * d,
    ensures
        round_ratio(n, d) == (Dyadic {
            mant: round_ratio(256 * n, d).mant,
            den: 256 * round_ratio(256 * n, d).den,
        }),
{
    reveal_with_fuel(round_ratio, 9);
    assert(round_ratio(n, d).den == 2 * round_ratio(2 * n, d).den);
    assert(round_ratio(2 * n, d).den == 2 * round_ratio(4 * n, d).den);
    assert(round_ratio(4 * n, d).den == 2 * round_ratio(8 * n, d).den);
    assert(round_ratio(8 * n, d).den == 2 * round_ratio(16 * n, d).den);
    assert(round_ratio(16 * n, d).den == 2 * round_ratio(32 * n, d).den);
    assert(round_ratio(32 * n, d).den == 2 * round_ratio(64 * n, d).den);
    assert(round_ratio(64 * n, d).den == 2 * round_ratio(128 * n, d).den);
    assert(round_ratio(128 * n, d).den == 2 * round_ratio(256 * n, d).den);
}

/// The square of a byte is at most `255 * 255`.
pub proof fn lemma_square_bound(x: u8)
    ensures
        x * x <= 255 * 255,
{
    assert(x * x <= 255 * 255) by (nonlinear_arith)
        requires
            0 <= x <= 255,
    ;
}

/// Rounds `n / d` to the nearest integer, a tie going to the even one.
fn rounded_quotient(n: u128, d: u128) -> (q: u128)
    requires
        0 < d <= u64::MAX,
        n < 0x1_0000_0000_0000_0000_0000_0000,
    ensures
        q == round_half_even(n as nat, d as nat),
{
    let q = n / d;
    let r = n % d;
    assert(q <= n) by (nonlinear_arith)
        requires
            q == n / d,
            d > 0,
            n >= 0,
    ;
    if 2 * r < d {
        q
    } else if 2 * r > d {
        q + 1
    } else if q % 2 == 0 {
        q
    } else {
        q + 1
    }
}

/// Rounds the positive fraction `n / d` to a 24-bit significand. `budget`
/// bounds the doublings: a fraction doubled `log2(budget)` times is at least
/// `2^23`.
fn rounded_ratio(n: u128, d: u128, Ghost(budget): Ghost<nat>) -> (out: (u64, u128))
    requires
        0 < n,
        0 < d <= u64::MAX,
        n < 0x100_0000 * d,
        n * budget >= 0x80_0000 * d,
        0 < budget <= 0x8000_0000_0000_0000,
    ensures
        round_ratio(n as nat, d as nat) == (Dyadic { mant: out.0 as nat, den: out.1 as nat }),
        MANT_MIN <= out.0 <= MANT_END,
        0 < out.1 <= 2 * budget,
        0x80_0000 * d <= n * out.1 < 0x100_0000 * d,
{
    let mut scaled: u128 = n;
    let mut den: u128 = 1;
    // Eight doublings at a time while the fraction is below `2^15`.
    while scaled < 0x8000 * d
        invariant
            0 < scaled < 0x100_0000 * d,
            0 < d <= u64::MAX,
            scaled == n * den,
            0 < den <= 2 * budget,
            n * budget >= 0x80_0000 * d,
            0 < budget <= 0x8000_0000_0000_0000,
            round_ratio(n as nat, d as nat) == (Dyadic {
                mant: round_ratio(scaled as nat, d as nat).mant,
                den: (round_ratio(scaled as nat, d as nat).den * den) as nat,
            }),
        decreases 2 * budget - den,
    {
        proof {
            assert(256 * den < budget) by (nonlinear_arith)
                requires
                    scaled == n * den,
                    scaled < 0x8000 * d,
                    n * budget >= 0x80_0000 * d,
                    n > 0,
                    d > 0,
            ;
            assert(256 * scaled == n * (256 * den)) by (nonlinear_arith)
                requires
                    scaled == n * den,
            ;
            lemma_round_ratio_scaled(scaled as nat, d as nat);
            let r = round_ratio(256 * scaled as nat, d as nat);
            assert(256 * r.den * den == r.den * (256 * den)) by (nonlinear_arith);
        }
        scaled = 256 * scaled;
        den = 256 * den;
    }
    while scaled < 0x80_0000 * d
        invariant
            0 < scaled < 0x100_0000 * d,
            0 < d <= u64::MAX,
            scaled == n * den,
            0 < den <= 2 * budget,
            den == 1 || den <= 2 * budget,
            n * budget >= 0x80_0000 * d,
            0 < budget <= 0x8000_0000_0000_0000,
            round_ratio(n as nat, d as nat) == (Dyadic {
                mant: round_ratio(scaled as nat, d as nat).mant,
                den: (round_ratio(scaled as nat, d as nat).den * den) as nat,
            }),
        decreases 2 * budget - den,
    {
        proof {
            // The fraction is still below `2^23`, so the doublings made so far
            // are fewer than the budget allows.
            assert(den < budget) by (nonlinear_arith)
                requires
                    scaled == n * den,
                    scaled < 0x80_0000 * d,
                    n * budget >= 0x80_0000 * d,
                    n > 0,
            ;
            assert(2 * scaled == n * (2 * den)) by (nonlinear_arith)
                requires
                    scaled == n * den,
            ;
            let r = round_ratio(2 * scaled as nat, d as nat);
            assert(round_ratio(scaled as nat, d as nat) == (Dyadic { mant: r.mant, den: 2 * r.den }));
            assert(r.den * (2 * den) == 2 * r.den * den) by (nonlinear_arith);
        }
        scaled = 2 * scaled;
        den = 2 * den;
    }
    let mant = rounded_quotient(scaled, d);
    proof {
        lemma_round_half_even_bounds(scaled as nat, d as nat);
        assert(1 * den == den);
    }
    (mant as u64, den)
}

/// The integer nearest to the square root of `n`, for `n` in `[2^46, 2^48)`.
fn rounded_root(n: u64) -> (m: u64)
    requires
        SQUARE_MIN <= n < 0x1_0000_0000_0000,
    ensures
        m == nearest_root(n as nat),
        is_nearest_root(m as nat, n as nat),
        MANT_MIN <= m <= MANT_END,
{
    let mut lo: u64 = MANT_MIN;
    let mut hi: u64 = MANT_END;
    while hi - lo > 1
        invariant
            MANT_MIN <= lo < hi <= MANT_END,
            lo * lo <= n < hi * hi,
        decreases hi - lo,
    {
        let mid = lo + (hi - lo) / 2;
        assert(mid * mid <= 0x100_0000 * MANT_END) by (nonlinear_arith)
            requires
                0 <= mid <= MANT_END,
        ;
        if mid * mid <= n {
            lo = mid;
        } else {
            hi = mid;
        }
    }
    assert(lo * lo <= 0x100_0000 * MANT_END) by (nonlinear_arith)
        requires
            0 <= lo <= MANT_END,
    ;
    assert(hi * hi == lo * lo + 2 * lo + 1) by (nonlinear_arith)
        requires
            hi == lo + 1,
    ;
    let m = if n > lo * lo + lo {
        lo + 1
    } else {
        lo
    };
    proof {
        if n > lo * lo + lo {
            assert((lo + 1) * (lo + 1) == lo * lo + 2 * lo + 1) by (nonlinear_arith);
        }
        assert(is_nearest_root(m as nat, n as nat));
        lemma_nearest_root_is(m as nat, n as nat);
    }
    m
}

/// Rounds the square root of a positive `s` to a 24-bit significand. The
/// root of a positive integer is at least 1, so the significand is at least
/// the denominator.
fn rounded_length(s: u32) -> (out: (u64, u128))
    requires
        0 < s <= MAX_LENGTH_SQUARED,
    ensures
        round_root(s as nat, 1) == (Dyadic { mant: out.0 as nat, den: out.1 as nat }),
        MANT_MIN <= out.0 <= MANT_END,
        0 < out.1 <= out.0,
{
    let mut n: u64 = s as u64;
    let mut den: u128 = 1;
    // Four steps at a time while the square is below `2^40`.
    while n < 0x100_0000_0000
        invariant
            0 < n < 0x1_0000_0000_0000,
            0 < den < MANT_END,
            n >= den * den,
            round_root(s as nat, 1) == round_root(n as nat, den as nat),
        decreases MANT_END - den,
    {
        proof {
            assert(den < 0x10_0000) by (nonlinear_arith)
                requires
                    n >= den * den,
                    n < 0x100_0000_0000,
                    den > 0,
            ;
            assert(256 * n >= (16 * den) * (16 * den)) by (nonlinear_arith)
                requires
                    n >= den * den,
            ;
            reveal_with_fuel(round_root, 5);
            assert(round_root(n as nat, den as nat) == round_root(4 * n as nat, 2 * den as nat));
            assert(round_root(4 * n as nat, 2 * den as nat) == round_root(
                16 * n as nat,
                4 * den as nat,
            ));
            assert(round_root(16 * n as nat, 4 * den as nat) == round_root(
                64 * n as nat,
                8 * den as nat,
            ));
            assert(round_root(64 * n as nat, 8 * den as nat) == round_root(
                256 * n as nat,
                16 * den as nat,
            ));
        }
        n = 256 * n;
        den = 16 * den;
    }
    while n < SQUARE_MIN
        invariant
            0 < n < 0x1_0000_0000_0000,
            0 < den < MANT_END,
            n >= den * den,
            round_root(s as nat, 1) == round_root(n as nat, den as nat),
        decreases MANT_END - den,
    {
        proof {
            assert(den < 0x80_0000) by (nonlinear_arith)
                requires
                    n >= den * den,
                    n < 0x4000_0000_0000,
                    den > 0,
            ;
            assert(4 * n >= (2 * den) * (2 * den)) by (nonlinear_arith)
                requires
                    n >= den * den,
            ;
        }
        n = 4 * n;
        den = 2 * den;
    }
    let mant = rounded_root(n);
    proof {
        if den > mant {
            assert(den * den > mant * mant + mant) by (nonlinear_arith)
                requires
                    den >= mant + 1,
                    mant >= 0,
            ;
        }
    }
    (mant, den)
}

/// Scales one component of a vector whose squared length is `len_sq`.
pub fn scale_component(x: u8, len_sq: u32) -> (r: u8)
    requires
        len_sq <= MAX_LENGTH_SQUARED,
    ensures
        r == scaled_component(x, len_sq as nat),
{
    if len_sq == 0 || x == 0 {
        return 100;
    }
    let (len_mant, len_den) = rounded_length(len_sq);
    scale_by_length(x, len_mant, len_den, Ghost(len_sq as nat))
}

/// Scales one component of a vector whose length, rounded, is
/// `len_mant / len_den`; `s` is the squared length.
fn scale_by_length(x: u8, len_mant: u64, len_den: u128, Ghost(s): Ghost<nat>) -> (r: u8)
    requires
        s > 0,
        round_root(s, 1) == (Dyadic { mant: len_mant as nat, den: len_den as nat }),
        MANT_MIN <= len_mant <= MANT_END,
        0 < len_den <= len_mant,
    ensures
        r == scaled_component(x, s),
{
    if x == 0 {
        return 100;
    }
    proof {
        reveal(single_scaled);
    }
    assert(len_den <= x * len_den <= 255 * len_den) by (nonlinear_arith)
        requires
            1 <= x <= 255,
            len_den >= 0,
    ;
    let unit_n: u128 = (x as u128) * len_den;
    proof {
        assert(unit_n * 0x8000_0000_0000 >= 0x80_0000 * len_mant) by (nonlinear_arith)
            requires
                unit_n >= 1,
                len_mant <= 0x100_0000,
        ;
    }
    let (unit_mant, unit_den) = rounded_ratio(unit_n, len_mant as u128, Ghost(0x8000_0000_0000));
    // The length is at least 1, so the unit share is below 256 and carries at
    // least 15 binary places.
    assert(unit_den >= 0x8000) by (nonlinear_arith)
        requires
            0x80_0000 * len_mant <= unit_n * unit_den,
            unit_n <= 255 * len_den,
            0 < len_den <= len_mant,
            unit_den > 0,
    ;
    let percent_n: u128 = (unit_mant as u128) * 100;
    proof {
        assert(percent_n * unit_den >= 0x80_0000 * unit_den) by (nonlinear_arith)
            requires
                percent_n >= 0x80_0000,
                unit_den > 0,
        ;
        assert(percent_n < 0x100_0000 * unit_den) by (nonlinear_arith)
            requires
                percent_n <= 100 * 0x100_0000,
                unit_den >= 0x8000,
        ;
    }
    let (percent_mant, percent_den) = rounded_ratio(percent_n, unit_den, Ghost(unit_den as nat));
    // A hundred times a share below 256 is below `2^15`, so it carries at
    // least 7 binary places.
    assert(percent_den >= 0x80) by (nonlinear_arith)
        requires
            0x80_0000 * unit_den <= percent_n * percent_den,
            percent_n <= 100 * 0x100_0000,
            unit_den >= 0x8000,
            percent_den > 0,
    ;
    let shifted_n: u128 = percent_mant as u128 + 100 * percent_den;
    proof {
        assert(shifted_n * 0x80_0000 >= 0x80_0000 * percent_den) by (nonlinear_arith)
            requires
                shifted_n >= 100 * percent_den,
                percent_den > 0,
        ;
        assert(shifted_n < 0x100_0000 * percent_den) by (nonlinear_arith)
            requires
                shifted_n <= 0x100_0000 + 100 * percent_den,
                percent_den >= 0x80,
        ;
    }
    let (shifted_mant, shifted_den) = rounded_ratio(shifted_n, percent_den, Ghost(0x80_0000));
    let whole = (shifted_mant as u128) / shifted_den;
    if whole > 255 {
        255
    } else {
        whole as u8
    }
}

/// Normalizes a byte triple: each component becomes its scaled share of the
/// vector's length.
pub fn normalize_vector(x: u8, y: u8, z: u8) -> (out: (u8, u8, u8))
    ensures
        out.0 == scaled_component(x, length_squared(x, y, z)),
        out.1 == scaled_component(y, length_squared(x, y, z)),
        out.2 == scaled_component(z, length_squared(x, y, z)),
{
    proof {
        lemma_square_bound(x);
        lemma_square_bound(y);
        lemma_square_bound(z);
    }
    let xx: u32 = (x as u32) * (x as u32);
    let yy: u32 = (y as u32) * (y as u32);
    let zz: u32 = (z as u32) * (z as u32);
    let len_sq: u32 = xx + yy + zz;
    if len_sq == 0 {
        return (100, 100, 100);
    }
    let (len_mant, len_den) = rounded_length(len_sq);
    (
        scale_by_length(x, len_mant, len_den, Ghost(len_sq as nat)),
        scale_by_length(y, len_mant, len_den, Ghost(len_sq as nat)),
        scale_by_length(z, len_mant, len_den, Ghost(len_sq as nat)),
    )
}

} // verus!
